//! What running a program means, stated over the mathematical forms of
//! expressions and statements and over a chain of scopes.
use vstd::prelude::*;

use crate::error::{BindingError, Error, ExpressionError, FunctionCallError, OperationError};
use crate::grammar::{ExprV, StmtV};
use crate::number::int_text;
use crate::operator::Operator;

verus! {

/// What a name stands for in a scope, as a mathematical value.
pub enum NamedV {
    Binding(ExprV),
    Function(Seq<Seq<char>>, ExprV),
}

/// The value of an expression, as a mathematical value.
#[derive(PartialEq, Eq, Structural)]
pub enum ValueV {
    Number(i32),
    Empty,
}

/// One scope: what each name defined in it stands for.
pub type Scope = Map<Seq<char>, NamedV>;

/// The deepest nesting of bindings and blocks that evaluation goes through.
pub const MAX_DEPTH: u32 = 200;

/// What `name` stands for: in the innermost scope that defines it.
pub open spec fn lookup(env: Seq<Scope>, name: Seq<char>) -> Option<NamedV>
    decreases env.len(),
{
    if env.len() == 0 {
        None
    } else if env[0].contains_key(name) {
        Some(env[0][name])
    } else {
        lookup(env.drop_first(), name)
    }
}

/// The expression bound to `name`; a function under that name binds none.
pub open spec fn lookup_binding(env: Seq<Scope>, name: Seq<char>) -> Option<ExprV> {
    match lookup(env, name) {
        Some(NamedV::Binding(e)) => Some(e),
        _ => None,
    }
}

/// What `name` stands for when only functions are seen outside the innermost
/// scope.
pub open spec fn lookup_function_outside(env: Seq<Scope>, name: Seq<char>) -> Option<NamedV> {
    if env.len() > 0 && env[0].contains_key(name) {
        Some(env[0][name])
    } else {
        match lookup(env.drop_first(), name) {
            Some(NamedV::Function(parameters, body)) => Some(NamedV::Function(parameters, body)),
            _ => None,
        }
    }
}

/// `env` after `name` is made to stand for `v` in its innermost scope.
pub open spec fn define(env: Seq<Scope>, name: Seq<char>, v: NamedV) -> Seq<Scope> {
    env.update(0, env[0].insert(name, v))
}

/// Running a statement: a definition changes the innermost scope and yields
/// the empty expression; an expression is yielded as it is.
pub open spec fn execute(st: StmtV, env: Seq<Scope>) -> (Seq<Scope>, ExprV) {
    match st {
        StmtV::BindingDef(name, e) => (define(env, name, NamedV::Binding(e)), ExprV::Empty),
        StmtV::FunctionDef(name, parameters, body) => (
            define(env, name, NamedV::Function(parameters, body)),
            ExprV::Empty,
        ),
        StmtV::Expression(e) => (env, e),
    }
}

/// Running statements in order: the scopes they leave and what the last one
/// yields (the empty expression when there is none).
pub open spec fn run_statements(sts: Seq<StmtV>, env: Seq<Scope>) -> (Seq<Scope>, ExprV)
    decreases sts.len(),
{
    if sts.len() == 0 {
        (env, ExprV::Empty)
    } else {
        let (before, _) = run_statements(sts.drop_last(), env);
        execute(sts.last(), before)
    }
}

/// Integer division that rounds toward zero.
pub open spec fn div_toward_zero(a: int, b: int) -> int {
    let q = (if a < 0 { -a } else { a }) / (if b < 0 { -b } else { b });
    if (a < 0) == (b < 0) {
        q
    } else {
        -q
    }
}

/// Whether `v` fits in a 32-bit signed integer.
pub open spec fn fits_i32(v: int) -> bool {
    i32::MIN <= v <= i32::MAX
}

/// The result of applying `op` to `a` and `b`.
pub open spec fn arithmetic(op: Operator, a: i32, b: i32) -> Result<i32, OperationError> {
    let v = match op {
        Operator::Add => a + b,
        Operator::Sub => a - b,
        Operator::Mul => a * b,
        Operator::Div => div_toward_zero(a as int, b as int),
    };
    if op == Operator::Div && b == 0 {
        Err(OperationError::DivisionByZero)
    } else if !fits_i32(v) {
        Err(OperationError::Overflow)
    } else {
        Ok(v as i32)
    }
}

/// The value of `e` in `env`, going through at most `depth` nested bindings
/// and blocks. A binding is evaluated again, where it is used, each time it
/// is used.
pub open spec fn eval_expr(e: ExprV, env: Seq<Scope>, depth: nat) -> Result<ValueV, Error>
    decreases depth, e,
{
    match e {
        ExprV::Number(n) => Ok(ValueV::Number(n)),
        ExprV::Empty => Ok(ValueV::Empty),
        ExprV::Operation(lhs, op, rhs) => match eval_expr(*lhs, env, depth) {
            Err(x) => Err(x),
            Ok(ValueV::Empty) => Err(Error::Operation(OperationError::InvalidLhs)),
            Ok(ValueV::Number(a)) => match eval_expr(*rhs, env, depth) {
                Err(x) => Err(x),
                Ok(ValueV::Empty) => Err(Error::Operation(OperationError::InvalidRhs)),
                Ok(ValueV::Number(b)) => match arithmetic(op, a, b) {
                    Ok(v) => Ok(ValueV::Number(v)),
                    Err(x) => Err(Error::Operation(x)),
                },
            },
        },
        ExprV::Binding(name) => match lookup_binding(env, name) {
            None => Err(Error::Binding(BindingError::NotFound)),
            Some(x) => if depth == 0 {
                Err(Error::Expression(ExpressionError::NestingTooDeep))
            } else {
                eval_expr(x, env, (depth - 1) as nat)
            },
        },
        ExprV::Block(sts) => if depth == 0 {
            Err(Error::Expression(ExpressionError::NestingTooDeep))
        } else {
            let (inner, last) = run_statements(sts, seq![Map::empty()] + env);
            eval_expr(last, inner, (depth - 1) as nat)
        },
    }
}

/// `env` after each parameter is bound, in order, to its argument in the
/// innermost scope.
pub open spec fn bind_parameters(env: Seq<Scope>, parameters: Seq<Seq<char>>, args: Seq<ExprV>) -> Seq<
    Scope,
>
    decreases parameters.len(),
{
    if parameters.len() == 0 || args.len() == 0 {
        env
    } else {
        define(
            bind_parameters(env, parameters.drop_last(), args.drop_last()),
            parameters.last(),
            NamedV::Binding(args.last()),
        )
    }
}

/// Calling the function `name` with `args`: the scopes after the call and
/// the body to evaluate in them.
pub open spec fn call_of(env: Seq<Scope>, name: Seq<char>, args: Seq<ExprV>) -> (
    Seq<Scope>,
    Result<ExprV, FunctionCallError>,
) {
    match lookup(env, name) {
        Some(NamedV::Function(parameters, body)) => if parameters.len() != args.len() {
            (
                env,
                Err(
                    FunctionCallError::WrongParameterCount {
                        expected: parameters.len() as usize,
                        got: args.len() as usize,
                    },
                ),
            )
        } else {
            (bind_parameters(env, parameters, args), Ok(body))
        },
        _ => (env, Err(FunctionCallError::NotFound)),
    }
}

/// The text of a value: the decimal form of a number, nothing for the empty
/// value.
pub open spec fn value_text(v: ValueV) -> Seq<char> {
    match v {
        ValueV::Number(n) => int_text(n as int),
        ValueV::Empty => Seq::empty(),
    }
}

} // verus!
