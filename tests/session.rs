use const_lang::{
    BindingDefError, BlockError, Error, ExpressionError, FunctionDefError, IdentifierError,
    OperationError, Parser, StatementError,
};

#[test]
fn session_arithmetic() {
    let mut p = Parser::default();
    assert_eq!(p.parse("1+2"), Ok("3".to_string()));
    assert_eq!(p.parse("15-2"), Ok("13".to_string()));
    assert_eq!(p.parse("12*12"), Ok("144".to_string()));
    assert_eq!(p.parse("9/3"), Ok("3".to_string()));
}

#[test]
fn session_binding_then_lookup() {
    let mut p = Parser::default();
    assert_eq!(p.parse("let answer = 42;"), Ok(String::new()));
    assert_eq!(p.parse("answer"), Ok("42".to_string()));
    assert_eq!(p.parse("  answer * 2  \n"), Ok("84".to_string()));
}

#[test]
fn session_missing_semicolon() {
    let mut p = Parser::default();
    assert_eq!(p.parse("let a = 114"), Err("Expect `;` here".to_string()));
    assert_eq!(p.parse("a"), Err("Binding is not found".to_string()));
    assert_eq!(p.parse("let a = 114;"), Ok(String::new()));
    assert_eq!(p.parse("a"), Ok("114".to_string()));
}

#[test]
fn session_block_isolation() {
    let mut p = Parser::default();
    assert_eq!(p.parse("{let z = 5; z}"), Ok("5".to_string()));
    assert_eq!(p.parse("z"), Err("Binding is not found".to_string()));
}

#[test]
fn session_number_round_trip() {
    let mut p = Parser::default();
    for text in ["0", "114", "-1", "2147483647", "-2147483648"] {
        assert_eq!(p.parse(text), Ok(text.to_string()));
    }
}

#[test]
fn session_empty_and_definitions() {
    let mut p = Parser::default();
    assert_eq!(p.parse(""), Ok(String::new()));
    assert_eq!(p.parse("fn f x => x"), Ok(String::new()));
    assert_eq!(p.parse("1+1;"), Ok(String::new()));
}

#[test]
fn session_error_texts() {
    let mut p = Parser::default();
    assert_eq!(p.parse("let a=a=1;"), Err("Invalid statement".to_string()));
    assert_eq!(p.parse("1/0"), Err("Division by zero".to_string()));
    assert_eq!(p.parse("2147483647+1"), Err("Arithmetic overflow".to_string()));
    assert_eq!(p.parse("let e = {};"), Ok(String::new()));
    assert_eq!(
        p.parse("e+1"),
        Err("Expect a number in the left-hand side".to_string())
    );
    assert_eq!(
        p.parse("1+e"),
        Err("Expect a number in the right-hand side".to_string())
    );
    assert_eq!(p.parse("let loop = loop;"), Ok(String::new()));
    assert_eq!(
        p.parse("loop"),
        Err("Expression is nested too deeply".to_string())
    );
}

#[test]
fn error_messages() {
    let cases = [
        (Error::Expression(ExpressionError::InvalidExpression), "Invalid expression"),
        (Error::Identifier(IdentifierError::StartWithNonLetter), "Identifier must start with a letter"),
        (Error::Identifier(IdentifierError::ContainSpecialCharacters), "Identifier must not contain special characters"),
        (Error::Identifier(IdentifierError::Empty), "Identifier must not be empty"),
        (Error::Operation(OperationError::NotFound), "Operator is not found"),
        (Error::BindingDef(BindingDefError::MissingLetKeyword), "Expect `let` here"),
        (Error::BindingDef(BindingDefError::MissingEqualsSign), "Expect `=` here"),
        (Error::Block(BlockError::MissingOpeningBrace), "Missing opening brace `{`"),
        (Error::Block(BlockError::MissingClosingBrace), "Missing closing brace `}`"),
        (Error::FunctionDef(FunctionDefError::MissingFnKeyword), "Expect `fn` here"),
        (Error::FunctionDef(FunctionDefError::MissingArrow), "Expect `=>` here"),
        (Error::Statement(StatementError::InvalidStatement), "Invalid statement"),
        (Error::FunctionCall(const_lang::FunctionCallError::Empty), "Expect a function call here"),
        (Error::FunctionCall(const_lang::FunctionCallError::NotFound), "Function call is not found"),
    ];
    for (e, text) in cases {
        assert_eq!(e.message(), text);
    }
    assert_eq!(
        StatementError::BindingDefMissingSemicolon.message(),
        "Expect `;` here"
    );
}
