//! Binary arithmetic operations.
use vstd::prelude::*;

use crate::environment::Environment;
use crate::error::{Error, OperationError};
use crate::expression::{expression_view, Expression};
use crate::grammar::{operation_of, view_result, ExprV};
use crate::number::Number;
use crate::operator::Operator;
use crate::semantics::{arithmetic, eval_expr, MAX_DEPTH};
use crate::text::{
    find_op_char, is_op_char, lemma_first_op_from, lemma_trim_single, rest_from, TrimmedStr,
};
use crate::value::Value;

verus! {

/// One operator between two expressions.
#[derive(Debug, PartialEq, Eq)]
pub struct Operation {
    lhs: Box<Expression>,
    rhs: Box<Expression>,
    op: Operator,
}

/// The mathematical form of an operation.
pub closed spec fn operation_view(o: &Operation) -> ExprV
    decreases o, 0nat,
{
    ExprV::Operation(Box::new(expression_view(&*o.lhs)), o.op, Box::new(expression_view(&*o.rhs)))
}

/// An operation's mathematical form is an operation node.
pub proof fn lemma_operation_view(o: &Operation)
    ensures
        operation_view(o) is Operation,
{
}

impl View for Operation {
    type V = ExprV;

    open spec fn view(&self) -> ExprV {
        operation_view(self)
    }
}

impl Clone for Operation {
    fn clone(&self) -> (r: Self)
        ensures
            r@ == self@,
    {
        self.duplicate()
    }
}

/// Applies `op` to `a` and `b`: integer arithmetic, with division rounding
/// toward zero; a zero divisor and a result that does not fit are errors.
pub fn apply(op: Operator, a: i32, b: i32) -> (r: Result<i32, OperationError>)
    ensures
        r == arithmetic(op, a, b),
{
    let x = a as i64;
    let y = b as i64;
    let v: i64 = match op {
        Operator::Add => x + y,
        Operator::Sub => x - y,
        Operator::Mul => {
            assert(-0x8000_0000 * 0x8000_0000 <= x * y <= 0x8000_0000 * 0x8000_0000) by (nonlinear_arith)
                requires
                    -0x8000_0000 <= x <= 0x7fff_ffff,
                    -0x8000_0000 <= y <= 0x7fff_ffff,
            ;
            x * y
        },
        Operator::Div => {
            if y == 0 {
                return Err(OperationError::DivisionByZero);
            }
            let m = if x < 0 {
                -x
            } else {
                x
            };
            let d = if y < 0 {
                -y
            } else {
                y
            };
            let q = m / d;
            if (x < 0) == (y < 0) {
                q
            } else {
                -q
            }
        },
    };
    if v < -0x8000_0000 || v > 0x7fff_ffff {
        Err(OperationError::Overflow)
    } else {
        Ok(v as i32)
    }
}

impl Operation {
    /// The value of the operation in `env`: both sides must be numbers.
    pub fn eval(&self, env: &Environment) -> (r: Result<Value, Error>)
        ensures
            view_result(r) == eval_expr(self@, env@, MAX_DEPTH as nat),
    {
        self.eval_within(env, MAX_DEPTH)
    }

    /// The value of the operation in `env`, going through at most `depth`
    /// nested bindings and blocks.
    pub fn eval_within(&self, env: &Environment, depth: u32) -> (r: Result<Value, Error>)
        ensures
            view_result(r) == eval_expr(self@, env@, depth as nat),
        decreases depth, self,
    {
        let a = match self.lhs.eval_within(env, depth) {
            Ok(Value::Number(n)) => n.inner(),
            Ok(Value::Empty) => return Err(Error::Operation(OperationError::InvalidLhs)),
            Err(e) => return Err(e),
        };
        let b = match self.rhs.eval_within(env, depth) {
            Ok(Value::Number(n)) => n.inner(),
            Ok(Value::Empty) => return Err(Error::Operation(OperationError::InvalidRhs)),
            Err(e) => return Err(e),
        };
        match apply(self.op, a, b) {
            Ok(v) => Ok(Value::Number(Number::from_i32(v))),
            Err(e) => Err(Error::Operation(e)),
        }
    }

    /// A copy of the operation.
    pub fn duplicate(&self) -> (r: Self)
        ensures
            r@ == self@,
        decreases self, 0nat,
    {
        Operation {
            lhs: Box::new(self.lhs.duplicate()),
            rhs: Box::new(self.rhs.duplicate()),
            op: self.op,
        }
    }

    /// The operation `op` between `lhs` and `rhs`.
    pub fn from_parts(lhs: Expression, op: Operator, rhs: Expression) -> (r: Self)
        ensures
            r@ == ExprV::Operation(Box::new(lhs@), op, Box::new(rhs@)),
    {
        Operation { lhs: Box::new(lhs), rhs: Box::new(rhs), op }
    }

    /// Reads `s` as an operation: it is split at its first operator
    /// character, and both sides must be expressions that are not empty.
    pub fn new(s: &TrimmedStr) -> (r: Result<Self, Error>)
        ensures
            view_result(r) == operation_of(s@),
        decreases s@.len(), 2nat,
    {
        let t = s.as_str();
        let n = t.unicode_len();
        let k = find_op_char(t);
        proof {
            lemma_first_op_from(s@, 0);
        }
        if k >= n {
            return Err(Error::Operation(OperationError::NotFound));
        }
        let lhs_text = TrimmedStr::new(t.substring_char(0, k));
        let lhs = match Expression::new(&lhs_text) {
            Ok(e) => e,
            Err(e) => return Err(Error::Expression(e)),
        };
        if lhs.is_empty() {
            return Err(Error::Operation(OperationError::InvalidLhs));
        }
        let rhs_text = TrimmedStr::new(t.substring_char(k + 1, n));
        assert(t@.subrange(k + 1, n as int) == rest_from(s@, k + 1));
        let rhs = match Expression::new(&rhs_text) {
            Ok(e) => e,
            Err(e) => return Err(Error::Expression(e)),
        };
        if rhs.is_empty() {
            return Err(Error::Operation(OperationError::InvalidRhs));
        }
        let op_text = TrimmedStr::new(t.substring_char(k, k + 1));
        proof {
            let c = s@[k as int];
            assert(is_op_char(c));
            assert(t@.subrange(k as int, k + 1) =~= seq![c]);
            lemma_trim_single(c);
        }
        let op = match Operator::new(&op_text) {
            Ok(op) => op,
            Err(e) => return Err(Error::Operator(e)),
        };
        Ok(Operation { lhs: Box::new(lhs), rhs: Box::new(rhs), op })
    }
}

} // verus!
