//! What a name stands for in a scope: a bound expression or a function.
use vstd::prelude::*;

use crate::expression::Expression;
use crate::function_def::{copy_names, names_of};
use crate::grammar::{view_option, ExprV};
use crate::identifier::Identifier;
use crate::semantics::NamedV;

verus! {

/// A bound expression, or a function with its parameter names and body.
#[derive(Debug, PartialEq, Eq)]
pub enum NamedValue {
    Binding(Expression),
    Function { parameters: Vec<Identifier>, body: Expression },
}

impl View for NamedValue {
    type V = NamedV;

    open spec fn view(&self) -> NamedV {
        match self {
            NamedValue::Binding(e) => NamedV::Binding(e@),
            NamedValue::Function { parameters, body } => NamedV::Function(
                names_of(parameters@),
                body@,
            ),
        }
    }
}

impl Clone for NamedValue {
    fn clone(&self) -> (r: Self)
        ensures
            r@ == self@,
    {
        match self {
            NamedValue::Binding(e) => NamedValue::Binding(e.duplicate()),
            NamedValue::Function { parameters, body } => NamedValue::Function {
                parameters: copy_names(parameters),
                body: body.duplicate(),
            },
        }
    }
}

impl NamedValue {
    /// Whether this is a bound expression.
    pub fn is_binding(&self) -> (r: bool)
        ensures
            r == (self@ is Binding),
    {
        match self {
            NamedValue::Binding(_) => true,
            NamedValue::Function { .. } => false,
        }
    }

    /// Whether this is a function.
    pub fn is_function(&self) -> (r: bool)
        ensures
            r == (self@ is Function),
    {
        match self {
            NamedValue::Binding(_) => false,
            NamedValue::Function { .. } => true,
        }
    }

    /// The bound expression; a function has none.
    pub fn into_expression(self) -> (r: Option<Expression>)
        ensures
            view_option(r) == match self@ {
                NamedV::Binding(e) => Some(e),
                NamedV::Function(_, _) => None::<ExprV>,
            },
    {
        match self {
            NamedValue::Binding(e) => Some(e),
            NamedValue::Function { .. } => None,
        }
    }
}

} // verus!
