use const_lang::{
    BindingDef, Environment, Expression, FunctionDef, Identifier, NamedValue, Number, Operation,
    Statement, StatementError,
};

#[test]
fn statement_parse_binding_def() {
    assert_eq!(
        Statement::new(&"let x = 5;".into()),
        Ok(Statement::BindingDef(
            BindingDef::new(&"let x = 5".into()).unwrap()
        ))
    );
}

#[test]
fn parse_function_def() {
    assert_eq!(
        Statement::new(&"fn one_add_one => 1+1".into()),
        Ok(Statement::FunctionDef(
            FunctionDef::new(&"fn one_add_one => 1+1".into()).unwrap()
        ))
    );
    assert_eq!(
        Statement::new(&"fn add_one x => x + 1".into()),
        Ok(Statement::FunctionDef(
            FunctionDef::new(&"fn add_one x => x + 1".into()).unwrap()
        ))
    );
}

#[test]
fn parse_expression_without_semicolon() {
    assert_eq!(
        Statement::new(&"114+514".into()),
        Ok(Statement::Expression(Expression::Operation(
            Operation::new(&"114+514".into()).unwrap()
        )))
    );
    assert_eq!(
        Statement::new(&"1919".into()),
        Ok(Statement::Expression(Expression::Number(Number::from_i32(
            1919
        ))))
    );
}

#[test]
fn statement_parse_expression_with_semicolon() {
    assert_eq!(
        Statement::new(&"1+1;".into()),
        Ok(Statement::Expression(Expression::Empty))
    );
}

#[test]
fn statement_parse_invalid() {
    assert_eq!(
        Statement::new(&"let a=a=1;".into()),
        Err(StatementError::InvalidStatement)
    );
}

#[test]
fn pre_parse() {
    assert_eq!(Statement::pre_parse(&"let x = 1+1".into()), None);
    assert_eq!(
        Statement::pre_parse(&"1+1".into()),
        Some(Statement::Expression(Expression::Operation(
            Operation::new(&"1+1".into()).unwrap()
        )))
    );
    assert_eq!(
        Statement::pre_parse(&"fn one_add_one => 2".into()),
        Some(Statement::FunctionDef(
            FunctionDef::new(&"fn one_add_one => 2".into()).unwrap()
        ))
    );
}

#[test]
fn parse_after_strip_semicolon() {
    assert_eq!(
        Statement::parse_after_strip_semicolon(&"1+1".into()),
        Some(Statement::Expression(Expression::Empty))
    );
    assert_eq!(
        Statement::parse_after_strip_semicolon(&"let x = 1+1".into()),
        Some(Statement::BindingDef(
            BindingDef::new(&"let x = 1+1".into()).unwrap()
        ))
    );
    assert_eq!(
        Statement::parse_after_strip_semicolon(&"fn one_add_one => 2".into()),
        None
    );
}

#[test]
fn statement_parse_binding_def_missing_semicolon() {
    assert_eq!(
        Statement::new(&"let a=114".into()),
        Err(StatementError::BindingDefMissingSemicolon)
    );
}

#[test]
fn statement_parse_empty() {
    assert_eq!(
        Statement::new(&"".into()),
        Ok(Statement::Expression(Expression::Empty))
    );
}

#[test]
fn statement_get_expression_in_binding_def() {
    let local = &mut Environment::default();
    assert_eq!(
        Statement::BindingDef(BindingDef::new(&"let x = 5+6".into()).unwrap())
            .get_expression_in(local),
        Expression::Empty
    );
    assert_eq!(
        local.get_from_self_and_parent(&"x".try_into().unwrap()),
        Some(NamedValue::Binding(Expression::Operation(
            Operation::new(&"5+6".into()).unwrap()
        )))
    );
}

#[test]
fn statement_get_expression_in_expression() {
    let local = &mut Environment::default();
    assert_eq!(
        Statement::new(&"114".into())
            .unwrap()
            .get_expression_in(local),
        Expression::Number(Number::from_i32(114))
    );
}

#[test]
fn get_expression_in_function_def() {
    let local = &mut Environment::default();
    assert_eq!(
        Statement::FunctionDef(FunctionDef::new(&"fn add_one x => x + 1".into()).unwrap())
            .get_expression_in(local),
        Expression::Empty
    );
}

#[test]
fn parse_expr() {
    assert_eq!(
        Statement::new(&"114+514".into()),
        Ok(Statement::Expression(Expression::Operation(
            Operation::new(&"114+514".into()).unwrap()
        )))
    );
    assert_eq!(
        Statement::new(&"1919".into()),
        Ok(Statement::Expression(Expression::Number(Number::from_i32(
            1919
        ))))
    );
}

#[test]
fn missing_semicolon_then_present() {
    assert_eq!(
        Statement::new(&"let a = 114".into()),
        Err(StatementError::BindingDefMissingSemicolon)
    );
    let name: Identifier = "a".try_into().unwrap();
    assert_eq!(
        Statement::new(&"let a = 114;".into()),
        Ok(Statement::BindingDef(BindingDef::from_parts(
            name,
            Expression::Number(Number::from_i32(114))
        )))
    );
}

#[test]
fn statement_clone_is_equal() {
    let st = Statement::new(&"fn f x y => {let z = x; z}".into()).unwrap();
    assert_eq!(st.clone(), st);
}
