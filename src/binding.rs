//! A use of a name: every valid identifier is a valid binding.
use vstd::prelude::*;

use crate::environment::Environment;
use crate::error::{BindingError, Error};
use crate::expression::Expression;
use crate::identifier::{identifier_of, Identifier};
use crate::semantics::lookup_binding;
use crate::text::trim;

verus! {

/// A name whose bound expression is looked up where it is used.
#[derive(Debug, PartialEq, Eq)]
pub struct Binding {
    name: Identifier,
}

impl View for Binding {
    type V = Seq<char>;

    closed spec fn view(&self) -> Seq<char> {
        self.name@
    }
}

impl Clone for Binding {
    fn clone(&self) -> (r: Self)
        ensures
            r@ == self@,
    {
        Binding { name: self.name.clone() }
    }
}

impl Binding {
    /// The binding of a name.
    pub fn from_identifier(name: Identifier) -> (r: Self)
        ensures
            r@ == name@,
    {
        Binding { name }
    }

    /// Reads `name`, without the white space around it, as a binding.
    pub fn new(name: &str) -> (r: Result<Self, Error>)
        ensures
            match r {
                Ok(b) => identifier_of(trim(name@)) == Ok::<Seq<char>, crate::error::IdentifierError>(b@),
                Err(e) => exists|k| identifier_of(trim(name@)) == Err::<Seq<char>, crate::error::IdentifierError>(k) && e == Error::Identifier(k),
            },
    {
        match Identifier::parse(name) {
            Ok(id) => Ok(Binding { name: id }),
            Err(e) => Err(Error::Identifier(e)),
        }
    }

    /// The expression bound to the name in `env`.
    pub fn get_expression_from(&self, env: &Environment) -> (r: Result<Expression, BindingError>)
        ensures
            match r {
                Ok(e) => lookup_binding(env@, self@) == Some(e@),
                Err(e) => lookup_binding(env@, self@) is None && e == BindingError::NotFound,
            },
    {
        self.name.try_get_expression_from(env)
    }
}

} // verus!
