//! The errors of each parsing and evaluation step, and the text that each
//! one reads as.
use vstd::prelude::*;

use crate::number::nat_text;
use crate::number::usize_text;

verus! {

/// Any error that parsing or evaluation can end in.
#[derive(Debug, Clone, Copy, PartialEq, Eq, Structural)]
pub enum Error {
    FunctionCall(FunctionCallError),
    FunctionDef(FunctionDefError),
    Statement(StatementError),
    Expression(ExpressionError),
    Identifier(IdentifierError),
    Binding(BindingError),
    Number(NumberError),
    Operator(OperatorError),
    Operation(OperationError),
    BindingDef(BindingDefError),
    Block(BlockError),
}

#[derive(Debug, Clone, Copy, PartialEq, Eq, Structural)]
pub enum BindingDefError {
    MissingLetKeyword,
    MissingEqualsSign,
}

#[derive(Debug, Clone, Copy, PartialEq, Eq, Structural)]
pub enum OperatorError {
    InvalidOperator,
}

#[derive(Debug, Clone, Copy, PartialEq, Eq, Structural)]
pub enum IdentifierError {
    StartWithNonLetter,
    ContainSpecialCharacters,
    Empty,
}

#[derive(Debug, Clone, Copy, PartialEq, Eq, Structural)]
pub enum ExpressionError {
    InvalidExpression,
    /// Evaluation went through more nested bindings and blocks than it allows.
    NestingTooDeep,
}

#[derive(Debug, Clone, Copy, PartialEq, Eq, Structural)]
pub enum StatementError {
    BindingDefMissingSemicolon,
    InvalidStatement,
}

#[derive(Debug, Clone, Copy, PartialEq, Eq, Structural)]
pub enum OperationError {
    NotFound,
    InvalidLhs,
    InvalidRhs,
    /// The divisor of a division is zero.
    DivisionByZero,
    /// The result does not fit in a 32-bit signed integer.
    Overflow,
}

/// Why a text is not a 32-bit signed integer literal.
#[derive(Debug, Clone, Copy, PartialEq, Eq, Structural)]
pub enum IntErrorKind {
    Empty,
    InvalidDigit,
    PosOverflow,
    NegOverflow,
}

#[derive(Debug, Clone, Copy, PartialEq, Eq, Structural)]
pub enum NumberError {
    InvalidNumber(IntErrorKind),
}

#[derive(Debug, Clone, Copy, PartialEq, Eq, Structural)]
pub enum BindingError {
    NotFound,
}

#[derive(Debug, Clone, Copy, PartialEq, Eq, Structural)]
pub enum BlockError {
    MissingOpeningBrace,
    MissingClosingBrace,
}

#[derive(Debug, Clone, Copy, PartialEq, Eq, Structural)]
pub enum FunctionDefError {
    MissingFnKeyword,
    MissingArrow,
}

#[derive(Debug, Clone, Copy, PartialEq, Eq, Structural)]
pub enum FunctionCallError {
    NotFound,
    WrongParameterCount { expected: usize, got: usize },
    Empty,
}

/// The text of a statement error.
pub open spec fn statement_error_text(e: StatementError) -> Seq<char> {
    match e {
        StatementError::BindingDefMissingSemicolon => "Expect `;` here"@,
        StatementError::InvalidStatement => "Invalid statement"@,
    }
}

/// The text of a function-call error.
pub open spec fn function_call_error_text(e: FunctionCallError) -> Seq<char> {
    match e {
        FunctionCallError::NotFound => "Function call is not found"@,
        FunctionCallError::WrongParameterCount { expected, got } => "Wrong parameter count, expected "@
            + nat_text(expected as nat) + ", got "@ + nat_text(got as nat),
        FunctionCallError::Empty => "Expect a function call here"@,
    }
}

/// The text of an error: that of the step's own error it holds.
pub open spec fn error_text(e: Error) -> Seq<char> {
    match e {
        Error::FunctionCall(e) => function_call_error_text(e),
        Error::FunctionDef(e) => match e {
            FunctionDefError::MissingFnKeyword => "Expect `fn` here"@,
            FunctionDefError::MissingArrow => "Expect `=>` here"@,
        },
        Error::Statement(e) => statement_error_text(e),
        Error::Expression(e) => match e {
            ExpressionError::InvalidExpression => "Invalid expression"@,
            ExpressionError::NestingTooDeep => "Expression is nested too deeply"@,
        },
        Error::Identifier(e) => match e {
            IdentifierError::StartWithNonLetter => "Identifier must start with a letter"@,
            IdentifierError::ContainSpecialCharacters => "Identifier must not contain special characters"@,
            IdentifierError::Empty => "Identifier must not be empty"@,
        },
        Error::Binding(_) => "Binding is not found"@,
        Error::Number(_) => "Invalid number"@,
        Error::Operator(_) => "Invalid operator"@,
        Error::Operation(e) => match e {
            OperationError::NotFound => "Operator is not found"@,
            OperationError::InvalidLhs => "Expect a number in the left-hand side"@,
            OperationError::InvalidRhs => "Expect a number in the right-hand side"@,
            OperationError::DivisionByZero => "Division by zero"@,
            OperationError::Overflow => "Arithmetic overflow"@,
        },
        Error::BindingDef(e) => match e {
            BindingDefError::MissingLetKeyword => "Expect `let` here"@,
            BindingDefError::MissingEqualsSign => "Expect `=` here"@,
        },
        Error::Block(e) => match e {
            BlockError::MissingOpeningBrace => "Missing opening brace `{`"@,
            BlockError::MissingClosingBrace => "Missing closing brace `}`"@,
        },
    }
}

impl StatementError {
    /// The message that describes this error.
    pub fn message(&self) -> (r: String)
        ensures
            r@ == statement_error_text(*self),
    {
        match self {
            StatementError::BindingDefMissingSemicolon => String::from_str("Expect `;` here"),
            StatementError::InvalidStatement => String::from_str("Invalid statement"),
        }
    }
}

impl FunctionCallError {
    /// The message that describes this error.
    pub fn message(&self) -> (r: String)
        ensures
            r@ == function_call_error_text(*self),
    {
        match self {
            FunctionCallError::NotFound => String::from_str("Function call is not found"),
            FunctionCallError::WrongParameterCount { expected, got } => {
                let e = usize_text(*expected);
                let g = usize_text(*got);
                String::from_str("Wrong parameter count, expected ").concat(e.as_str()).concat(
                    ", got ",
                ).concat(g.as_str())
            },
            FunctionCallError::Empty => String::from_str("Expect a function call here"),
        }
    }
}

impl Error {
    /// The message that describes this error.
    pub fn message(&self) -> (r: String)
        ensures
            r@ == error_text(*self),
    {
        match self {
            Error::FunctionCall(e) => e.message(),
            Error::FunctionDef(e) => match e {
                FunctionDefError::MissingFnKeyword => String::from_str("Expect `fn` here"),
                FunctionDefError::MissingArrow => String::from_str("Expect `=>` here"),
            },
            Error::Statement(e) => e.message(),
            Error::Expression(e) => match e {
                ExpressionError::InvalidExpression => String::from_str("Invalid expression"),
                ExpressionError::NestingTooDeep => String::from_str(
                    "Expression is nested too deeply",
                ),
            },
            Error::Identifier(e) => match e {
                IdentifierError::StartWithNonLetter => String::from_str(
                    "Identifier must start with a letter",
                ),
                IdentifierError::ContainSpecialCharacters => String::from_str(
                    "Identifier must not contain special characters",
                ),
                IdentifierError::Empty => String::from_str("Identifier must not be empty"),
            },
            Error::Binding(_) => String::from_str("Binding is not found"),
            Error::Number(_) => String::from_str("Invalid number"),
            Error::Operator(_) => String::from_str("Invalid operator"),
            Error::Operation(e) => match e {
                OperationError::NotFound => String::from_str("Operator is not found"),
                OperationError::InvalidLhs => String::from_str(
                    "Expect a number in the left-hand side",
                ),
                OperationError::InvalidRhs => String::from_str(
                    "Expect a number in the right-hand side",
                ),
                OperationError::DivisionByZero => String::from_str("Division by zero"),
                OperationError::Overflow => String::from_str("Arithmetic overflow"),
            },
            Error::BindingDef(e) => match e {
                BindingDefError::MissingLetKeyword => String::from_str("Expect `let` here"),
                BindingDefError::MissingEqualsSign => String::from_str("Expect `=` here"),
            },
            Error::Block(e) => match e {
                BlockError::MissingOpeningBrace => String::from_str("Missing opening brace `{`"),
                BlockError::MissingClosingBrace => String::from_str("Missing closing brace `}`"),
            },
        }
    }
}

} // verus!
