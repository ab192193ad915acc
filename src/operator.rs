//! The four arithmetic operators.
use vstd::prelude::*;

use crate::error::OperatorError;
use crate::text::TrimmedStr;

verus! {

/// An arithmetic operator.
#[derive(Debug, Clone, Copy, PartialEq, Eq, Structural)]
pub enum Operator {
    Add,
    Sub,
    Mul,
    Div,
}

/// The operator that the one-character text `s` stands for.
pub open spec fn operator_of(s: Seq<char>) -> Result<Operator, OperatorError> {
    if s == seq!['+'] {
        Ok(Operator::Add)
    } else if s == seq!['-'] {
        Ok(Operator::Sub)
    } else if s == seq!['*'] {
        Ok(Operator::Mul)
    } else if s == seq!['/'] {
        Ok(Operator::Div)
    } else {
        Err(OperatorError::InvalidOperator)
    }
}

impl Operator {
    /// Reads an operator from its one-character text.
    pub fn new(s: &TrimmedStr) -> (r: Result<Self, OperatorError>)
        ensures
            r == operator_of(s@),
    {
        let t = s.as_str();
        if t.unicode_len() != 1 {
            proof {
                assert(t@.len() != seq!['+'].len());
                assert(t@.len() != seq!['-'].len());
                assert(t@.len() != seq!['*'].len());
                assert(t@.len() != seq!['/'].len());
            }
            return Err(OperatorError::InvalidOperator);
        }
        let c = t.get_char(0);
        proof {
            assert(t@ =~= seq![c]);
        }
        if c == '+' {
            Ok(Operator::Add)
        } else if c == '-' {
            Ok(Operator::Sub)
        } else if c == '*' {
            Ok(Operator::Mul)
        } else if c == '/' {
            Ok(Operator::Div)
        } else {
            proof {
                assert(seq!['+'][0] == '+');
                assert(seq!['-'][0] == '-');
                assert(seq!['*'][0] == '*');
                assert(seq!['/'][0] == '/');
            }
            Err(OperatorError::InvalidOperator)
        }
    }
}

} // verus!
