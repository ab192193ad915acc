//! Names: identifiers, checked against Unicode's identifier classes.
use vstd::prelude::*;

use crate::environment::Environment;
use crate::error::{BindingError, IdentifierError};
use crate::expression::Expression;
use crate::semantics::lookup_binding;
use crate::text::{trim, TrimmedStr};

verus! {

/// Whether `c` has Unicode's `XID_Start` property.
pub uninterp spec fn xid_start(c: char) -> bool;

/// Whether `c` has Unicode's `XID_Continue` property.
pub uninterp spec fn xid_continue(c: char) -> bool;

/// Relies on `unicode_ident::is_xid_start`: whether `c` may begin an identifier.
#[verifier::external_body]
fn is_xid_start(c: char) -> (r: bool)
    ensures
        r == xid_start(c),
{
    unicode_ident::is_xid_start(c)
}

/// Relies on `unicode_ident::is_xid_continue`: whether `c` may stand in an
/// identifier.
#[verifier::external_body]
fn is_xid_continue(c: char) -> (r: bool)
    ensures
        r == xid_continue(c),
{
    unicode_ident::is_xid_continue(c)
}

/// The identifier that the text `s` spells: not empty, starting with an
/// `XID_Start` character, and made of `XID_Continue` characters.
pub open spec fn identifier_of(s: Seq<char>) -> Result<Seq<char>, IdentifierError> {
    if s.len() == 0 {
        Err(IdentifierError::Empty)
    } else if !xid_start(s[0]) {
        Err(IdentifierError::StartWithNonLetter)
    } else if forall|k: int| 0 <= k < s.len() ==> xid_continue(#[trigger] s[k]) {
        Ok(s)
    } else {
        Err(IdentifierError::ContainSpecialCharacters)
    }
}

/// A valid name.
#[derive(Debug, PartialEq, Eq, Hash)]
pub struct Identifier {
    name: String,
}

impl View for Identifier {
    type V = Seq<char>;

    closed spec fn view(&self) -> Seq<char> {
        self.name@
    }
}

impl Clone for Identifier {
    fn clone(&self) -> (r: Self)
        ensures
            r@ == self@,
    {
        Identifier { name: self.name.clone() }
    }
}

impl<'a> TryFrom<&'a str> for Identifier {
    type Error = IdentifierError;

    fn try_from(s: &'a str) -> (r: Result<Self, IdentifierError>)
        ensures
            match r {
                Ok(id) => identifier_of(trim(s@)) == Ok::<Seq<char>, IdentifierError>(id@),
                Err(e) => identifier_of(trim(s@)) == Err::<Seq<char>, IdentifierError>(e),
            },
    {
        Identifier::parse(s)
    }
}

impl std::str::FromStr for Identifier {
    type Err = IdentifierError;

    fn from_str(s: &str) -> Result<Self, IdentifierError> {
        Identifier::parse(s)
    }
}

impl<'a> vstd::std_specs::convert::TryFromSpecImpl<&'a str> for Identifier {
    open spec fn obeys_try_from_spec() -> bool {
        false
    }

    open spec fn try_from_spec(v: &'a str) -> Result<Self, IdentifierError> {
        arbitrary()
    }
}

impl Identifier {
    /// Checks that `s` is a valid name.
    pub fn new(s: &TrimmedStr) -> (r: Result<Self, IdentifierError>)
        ensures
            match r {
                Ok(id) => identifier_of(s@) == Ok::<Seq<char>, IdentifierError>(id@),
                Err(e) => identifier_of(s@) == Err::<Seq<char>, IdentifierError>(e),
            },
    {
        let t = s.as_str();
        let n = t.unicode_len();
        if n == 0 {
            return Err(IdentifierError::Empty);
        }
        if !is_xid_start(t.get_char(0)) {
            return Err(IdentifierError::StartWithNonLetter);
        }
        let mut i: usize = 0;
        while i < n
            invariant
                n == t@.len(),
                t@ == s@,
                n > 0,
                xid_start(s@[0]),
                i <= n,
                forall|k: int| 0 <= k < i ==> xid_continue(#[trigger] s@[k]),
            decreases n - i,
        {
            if !is_xid_continue(t.get_char(i)) {
                return Err(IdentifierError::ContainSpecialCharacters);
            }
            i = i + 1;
        }
        Ok(Identifier { name: String::from_str(t) })
    }

    /// Reads a name from untrimmed text.
    pub fn parse(s: &str) -> (r: Result<Self, IdentifierError>)
        ensures
            match r {
                Ok(id) => identifier_of(trim(s@)) == Ok::<Seq<char>, IdentifierError>(id@),
                Err(e) => identifier_of(trim(s@)) == Err::<Seq<char>, IdentifierError>(e),
            },
    {
        Identifier::new(&TrimmedStr::new(s))
    }

    /// The expression bound to this name in `env`.
    pub fn try_get_expression_from(&self, env: &Environment) -> (r: Result<Expression, BindingError>)
        ensures
            match r {
                Ok(e) => lookup_binding(env@, self@) == Some(e@),
                Err(e) => lookup_binding(env@, self@) is None && e == BindingError::NotFound,
            },
    {
        match env.get(self) {
            Some(e) => Ok(e),
            None => Err(BindingError::NotFound),
        }
    }

    /// Whether `self` and `other` are the same name.
    pub fn same_as(&self, other: &Identifier) -> (r: bool)
        ensures
            r == (self@ == other@),
    {
        self.name == other.name
    }

    /// The name as text.
    pub fn as_str(&self) -> (r: &str)
        ensures
            r@ == self@,
    {
        self.name.as_str()
    }
}

} // verus!
