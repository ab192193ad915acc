//! A small line-oriented expression language: parsing of statements into a
//! syntax tree, and evaluation of that tree against a chain of lexical scopes.
//!
//! `grammar` states what each text parses to, `semantics` what running a
//! statement and evaluating an expression mean, and `laws` what follows for
//! every program; the parsing and evaluation functions are verified against
//! them.


mod binding;
mod binding_def;
mod block;
mod environment;
mod error;
mod expression;
mod function_call;
mod function_def;
pub mod grammar;
mod identifier;
pub mod laws;
mod named_value;
mod number;
mod operation;
mod operator;
pub mod parser;
pub mod semantics;
mod statement;
pub mod text;
mod value;

pub use binding::Binding;
pub use binding_def::BindingDef;
pub use block::Block;
pub use environment::Environment;
pub use error::{
    BindingDefError, BindingError, BlockError, Error, ExpressionError, FunctionCallError,
    FunctionDefError, IdentifierError, IntErrorKind, NumberError, OperationError, OperatorError,
    StatementError,
};
pub use expression::Expression;
pub use function_call::FunctionCall;
pub use function_def::FunctionDef;
pub use identifier::Identifier;
pub use named_value::NamedValue;
pub use number::Number;
pub use operation::Operation;
pub use operator::Operator;
pub use parser::Parser;
pub use statement::Statement;
pub use text::TrimmedStr;
pub use value::Value;
