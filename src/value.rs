//! The values that expressions evaluate to.
use vstd::prelude::*;

use crate::number::Number;
use crate::semantics::{value_text, ValueV};

verus! {

/// A number, or no value at all.
#[derive(Debug, PartialEq, Eq, Clone, Copy)]
pub enum Value {
    Number(Number),
    Empty,
}

impl View for Value {
    type V = ValueV;

    open spec fn view(&self) -> ValueV {
        match self {
            Value::Number(n) => ValueV::Number(n@),
            Value::Empty => ValueV::Empty,
        }
    }
}

impl Value {
    /// The value of a number.
    pub fn from_number(number: Number) -> (r: Self)
        ensures
            r@ == ValueV::Number(number@),
    {
        Value::Number(number)
    }

    /// The text of the value: the decimal form of a number, and nothing for
    /// the empty value.
    pub fn to_string(&self) -> (r: String)
        ensures
            r@ == value_text(self@),
    {
        match self {
            Value::Number(n) => n.text(),
            Value::Empty => String::new(),
        }
    }
}

} // verus!
