//! Expressions: their syntax tree, and how a text is read as one.
use vstd::prelude::*;

use crate::block::{block_view, Block};
use crate::environment::Environment;
use crate::error::{Error, ExpressionError};
use crate::grammar::{expression_of, view_result, ExprV};
use crate::identifier::Identifier;
use crate::number::Number;
use crate::operation::{lemma_operation_view, operation_view, Operation};
use crate::semantics::{eval_expr, MAX_DEPTH};
use crate::text::TrimmedStr;
use crate::value::Value;

verus! {

/// An expression.
#[derive(Debug, PartialEq, Eq)]
pub enum Expression {
    Number(Number),
    Operation(Operation),
    Binding(Identifier),
    Block(Block),
    Empty,
}

/// The mathematical form of an expression.
pub open spec fn expression_view(e: &Expression) -> ExprV
    decreases e, 0nat,
{
    match e {
        Expression::Number(n) => ExprV::Number(n@),
        Expression::Operation(o) => operation_view(o),
        Expression::Binding(name) => ExprV::Binding(name@),
        Expression::Block(b) => ExprV::Block(block_view(b)),
        Expression::Empty => ExprV::Empty,
    }
}

impl View for Expression {
    type V = ExprV;

    open spec fn view(&self) -> ExprV {
        expression_view(self)
    }
}

impl Clone for Expression {
    fn clone(&self) -> (r: Self)
        ensures
            r@ == self@,
    {
        self.duplicate()
    }
}

impl Default for Expression {
    fn default() -> (r: Self)
        ensures
            r@ == ExprV::Empty,
    {
        Expression::Empty
    }
}

impl Expression {
    /// A copy of the expression.
    pub fn duplicate(&self) -> (r: Self)
        ensures
            r@ == self@,
        decreases self, 0nat,
    {
        match self {
            Expression::Number(n) => Expression::Number(*n),
            Expression::Operation(o) => Expression::Operation(o.duplicate()),
            Expression::Binding(name) => Expression::Binding(name.clone()),
            Expression::Block(b) => Expression::Block(b.duplicate()),
            Expression::Empty => Expression::Empty,
        }
    }

    /// Whether this is the empty expression.
    pub fn is_empty(&self) -> (r: bool)
        ensures
            r == (self@ is Empty),
    {
        match self {
            Expression::Empty => true,
            Expression::Operation(o) => {
                proof {
                    lemma_operation_view(o);
                }
                false
            },
            _ => false,
        }
    }

    /// The value of the expression in `env`. A name is looked up and its
    /// expression evaluated in `env`; a block runs in a new scope nested in
    /// `env`.
    pub fn eval(&self, env: &Environment) -> (r: Result<Value, Error>)
        ensures
            view_result(r) == eval_expr(self@, env@, MAX_DEPTH as nat),
    {
        self.eval_within(env, MAX_DEPTH)
    }

    /// The value of the expression in `env`, going through at most `depth`
    /// nested bindings and blocks.
    pub fn eval_within(&self, env: &Environment, depth: u32) -> (r: Result<Value, Error>)
        ensures
            view_result(r) == eval_expr(self@, env@, depth as nat),
        decreases depth, self,
    {
        match self {
            Expression::Number(number) => Ok(Value::Number(*number)),
            Expression::Operation(operation) => {
                proof {
                    lemma_operation_view(operation);
                }
                operation.eval_within(env, depth)
            },
            Expression::Empty => Ok(Value::Empty),
            Expression::Binding(name) => {
                let bound = match name.try_get_expression_from(env) {
                    Ok(e) => e,
                    Err(e) => return Err(Error::Binding(e)),
                };
                if depth == 0 {
                    return Err(Error::Expression(ExpressionError::NestingTooDeep));
                }
                bound.eval_within(env, depth - 1)
            },
            Expression::Block(block) => {
                if depth == 0 {
                    return Err(Error::Expression(ExpressionError::NestingTooDeep));
                }
                let local = &mut env.create_child();
                let last = block.get_expression_from(local);
                last.eval_within(local, depth - 1)
            },
        }
    }

    /// Reads `s` as an expression, trying in turn an operation, a number, a
    /// name and a block; an empty text is the empty expression.
    pub fn new(s: &TrimmedStr) -> (r: Result<Self, ExpressionError>)
        ensures
            view_result(r) == expression_of(s@),
        decreases s@.len(), 3nat,
    {
        if let Ok(op) = Operation::new(s) {
            return Ok(Expression::Operation(op));
        }
        if let Ok(number) = Number::new(s) {
            return Ok(Expression::Number(number));
        }
        if let Ok(name) = Identifier::new(s) {
            return Ok(Expression::Binding(name));
        }
        if let Ok(block) = Block::new(s) {
            return Ok(Expression::Block(block));
        }
        if s.as_str().unicode_len() == 0 {
            return Ok(Expression::Empty);
        }
        Err(ExpressionError::InvalidExpression)
    }
}

} // verus!
