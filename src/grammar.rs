//! The grammar of the language, stated over sequences of characters, and the
//! mathematical form of the syntax tree that parsing builds.
use vstd::prelude::*;

use crate::error::{
    BindingDefError, BlockError, Error, ExpressionError, FunctionCallError, FunctionDefError,
    OperationError, StatementError,
};
use crate::identifier::identifier_of;
use crate::number::number_of;
use crate::operator::{operator_of, Operator};
use crate::text::{
    first_arrow_from, first_from, first_op_from, lemma_trim_is_trimmed, rest_from, starts_with,
    trim, words,
};

verus! {

broadcast use lemma_trim_is_trimmed;

/// An expression, as a mathematical value.
pub enum ExprV {
    Number(i32),
    Operation(Box<ExprV>, Operator, Box<ExprV>),
    Binding(Seq<char>),
    Block(Seq<StmtV>),
    Empty,
}

/// A statement, as a mathematical value.
pub enum StmtV {
    BindingDef(Seq<char>, ExprV),
    Expression(ExprV),
    FunctionDef(Seq<char>, Seq<Seq<char>>, ExprV),
}

/// A parse result with its value replaced by the value's view.
pub open spec fn view_result<T: View, E>(r: Result<T, E>) -> Result<T::V, E> {
    match r {
        Ok(t) => Ok(t@),
        Err(e) => Err(e),
    }
}

/// An optional parse result with its value replaced by the value's view.
pub open spec fn view_option<T: View>(r: Option<T>) -> Option<T::V> {
    match r {
        Some(t) => Some(t@),
        None => None,
    }
}

/// `let` followed by a space.
pub open spec fn let_keyword() -> Seq<char> {
    seq!['l', 'e', 't', ' ']
}

/// `fn` followed by a space.
pub open spec fn fn_keyword() -> Seq<char> {
    seq!['f', 'n', ' ']
}

/// An expression: the first of an operation, a number, a name, a block and
/// the empty text that `s` is.
pub open spec fn expression_of(s: Seq<char>) -> Result<ExprV, ExpressionError>
    decreases s.len(), 3nat,
{
    match operation_of(s) {
        Ok(x) => Ok(x),
        Err(_) => match number_of(s) {
            Ok(n) => Ok(ExprV::Number(n)),
            Err(_) => match identifier_of(s) {
                Ok(name) => Ok(ExprV::Binding(name)),
                Err(_) => match block_of(s) {
                    Ok(statements) => Ok(ExprV::Block(statements)),
                    Err(_) => if s.len() == 0 {
                        Ok(ExprV::Empty)
                    } else {
                        Err(ExpressionError::InvalidExpression)
                    },
                },
            },
        },
    }
}

/// An operation: the text is split at its first operator character, and both
/// sides must be expressions that are not empty.
pub open spec fn operation_of(s: Seq<char>) -> Result<ExprV, Error>
    decreases s.len(), 2nat,
{
    let k = first_op_from(s, 0);
    if k < 0 || k >= s.len() {
        Err(Error::Operation(OperationError::NotFound))
    } else {
        match expression_of(trim(s.subrange(0, k))) {
            Err(e) => Err(Error::Expression(e)),
            Ok(lhs) => if lhs is Empty {
                Err(Error::Operation(OperationError::InvalidLhs))
            } else {
                match expression_of(trim(rest_from(s, k + 1))) {
                    Err(e) => Err(Error::Expression(e)),
                    Ok(rhs) => if rhs is Empty {
                        Err(Error::Operation(OperationError::InvalidRhs))
                    } else {
                        match operator_of(seq![s[k]]) {
                            Ok(op) => Ok(ExprV::Operation(Box::new(lhs), op, Box::new(rhs))),
                            Err(e) => Err(Error::Operator(e)),
                        }
                    },
                }
            },
        }
    }
}

/// A block: statements between `{` and `}`.
pub open spec fn block_of(s: Seq<char>) -> Result<Seq<StmtV>, Error>
    decreases s.len(), 2nat,
{
    if s.len() == 0 || s[0] != '{' {
        Err(Error::Block(BlockError::MissingOpeningBrace))
    } else if s.len() < 2 || s.last() != '}' {
        Err(Error::Block(BlockError::MissingClosingBrace))
    } else {
        match statements_of(trim(s.subrange(1, s.len() - 1))) {
            Ok(statements) => Ok(statements),
            Err(e) => Err(Error::Statement(e)),
        }
    }
}

/// The statements of `t`, cut after each `;`; the first that fails decides
/// the error.
pub open spec fn statements_of(t: Seq<char>) -> Result<Seq<StmtV>, StatementError>
    decreases t.len(), 6nat,
{
    if t.len() == 0 {
        Ok(Seq::empty())
    } else {
        let k = first_from(t, ';', 0);
        let piece = if k < 0 || k >= t.len() {
            t
        } else {
            t.subrange(0, k + 1)
        };
        let rest = if k < 0 || k >= t.len() {
            Seq::empty()
        } else {
            rest_from(t, k + 1)
        };
        match statement_of(trim(piece)) {
            Err(e) => Err(e),
            Ok(first) => match statements_of(rest) {
                Err(e) => Err(e),
                Ok(others) => Ok(seq![first] + others),
            },
        }
    }
}

/// What a statement is when it needs no `;`: an expression, else a function
/// definition.
pub open spec fn pre_parse_of(s: Seq<char>) -> Option<StmtV>
    decreases s.len(), 4nat,
{
    match expression_of(s) {
        Ok(e) => Some(StmtV::Expression(e)),
        Err(_) => match function_def_of(s) {
            Ok((name, parameters, body)) => Some(StmtV::FunctionDef(name, parameters, body)),
            Err(_) => None,
        },
    }
}

/// What a statement is, once its `;` is cut off: a binding definition, else
/// an expression whose value is dropped.
pub open spec fn after_semicolon_of(s: Seq<char>) -> Option<StmtV>
    decreases s.len(), 4nat,
{
    match binding_def_of(s) {
        Ok((name, e)) => Some(StmtV::BindingDef(name, e)),
        Err(_) => match expression_of(s) {
            Ok(_) => Some(StmtV::Expression(ExprV::Empty)),
            Err(_) => None,
        },
    }
}

/// A statement: an expression or a function definition as it stands, else a
/// binding definition or an expression followed by `;`.
pub open spec fn statement_of(s: Seq<char>) -> Result<StmtV, StatementError>
    decreases s.len(), 5nat,
{
    match pre_parse_of(s) {
        Some(statement) => Ok(statement),
        None => if s.len() == 0 || s.last() != ';' {
            Err(StatementError::BindingDefMissingSemicolon)
        } else {
            match after_semicolon_of(trim(s.drop_last())) {
                Some(statement) => Ok(statement),
                None => Err(StatementError::InvalidStatement),
            }
        },
    }
}

/// A binding definition: `let`, a name, `=` and an expression.
pub open spec fn binding_def_of(s: Seq<char>) -> Result<(Seq<char>, ExprV), Error>
    decreases s.len(), 2nat,
{
    if !starts_with(s, let_keyword()) {
        Err(Error::BindingDef(BindingDefError::MissingLetKeyword))
    } else {
        let r = rest_from(s, 4);
        let k = first_from(r, '=', 0);
        if k < 0 || k >= r.len() {
            Err(Error::BindingDef(BindingDefError::MissingEqualsSign))
        } else {
            match identifier_of(trim(r.subrange(0, k))) {
                Err(e) => Err(Error::Identifier(e)),
                Ok(name) => match expression_of(trim(rest_from(r, k + 1))) {
                    Err(e) => Err(Error::Expression(e)),
                    Ok(e) => Ok((name, e)),
                },
            }
        }
    }
}

/// The words of `ws` that are valid names, in order; the others are dropped.
pub open spec fn valid_names(ws: Seq<Seq<char>>) -> Seq<Seq<char>>
    decreases ws.len(),
{
    if ws.len() == 0 {
        Seq::empty()
    } else {
        let before = valid_names(ws.drop_last());
        match identifier_of(trim(ws.last())) {
            Ok(name) => before.push(name),
            Err(_) => before,
        }
    }
}

/// A function definition: `fn`, a name, parameter names, `=>` and the body.
/// The body is read before the name.
pub open spec fn function_def_of(s: Seq<char>) -> Result<(Seq<char>, Seq<Seq<char>>, ExprV), Error>
    decreases s.len(), 2nat,
{
    if !starts_with(s, fn_keyword()) {
        Err(Error::FunctionDef(FunctionDefError::MissingFnKeyword))
    } else {
        let r = rest_from(s, 3);
        let k = first_arrow_from(r, 0);
        if k < 0 || k + 1 >= r.len() {
            Err(Error::FunctionDef(FunctionDefError::MissingArrow))
        } else {
            let head = r.subrange(0, k);
            let ht = trim(head);
            let j = first_from(ht, ' ', 0);
            let name_text = if j < 0 || j >= ht.len() {
                head
            } else {
                ht.subrange(0, j)
            };
            let parameter_text = if j < 0 || j >= ht.len() {
                Seq::empty()
            } else {
                rest_from(ht, j + 1)
            };
            match expression_of(trim(rest_from(r, k + 2))) {
                Err(e) => Err(Error::Expression(e)),
                Ok(body) => match identifier_of(trim(name_text)) {
                    Err(e) => Err(Error::Identifier(e)),
                    Ok(name) => Ok((name, valid_names(words(parameter_text)), body)),
                },
            }
        }
    }
}

/// The arguments of a call: each word read as an expression, in order; the
/// first that fails decides the error.
pub open spec fn arguments_of(ws: Seq<Seq<char>>) -> Result<Seq<ExprV>, ExpressionError>
    decreases ws.len(),
{
    if ws.len() == 0 {
        Ok(Seq::empty())
    } else {
        match expression_of(trim(ws[0])) {
            Err(e) => Err(e),
            Ok(first) => match arguments_of(ws.drop_first()) {
                Err(e) => Err(e),
                Ok(others) => Ok(seq![first] + others),
            },
        }
    }
}

/// A function call: the words of `s`, the first naming the function and the
/// others its arguments.
pub open spec fn function_call_of(s: Seq<char>) -> Result<(Seq<char>, Seq<ExprV>), Error> {
    let ws = words(s);
    if ws.len() == 0 {
        Err(Error::FunctionCall(FunctionCallError::Empty))
    } else {
        match identifier_of(trim(ws[0])) {
            Err(e) => Err(Error::Identifier(e)),
            Ok(name) => match arguments_of(ws.drop_first()) {
                Err(e) => Err(Error::Expression(e)),
                Ok(args) => Ok((name, args)),
            },
        }
    }
}

} // verus!
