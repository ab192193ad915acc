use const_lang::{
    BindingDef, Environment, Error, Expression, FunctionCall, FunctionCallError, FunctionDef,
    NamedValue, Number, Operation, Value,
};

#[test]
fn function_call_parse_empty() {
    assert_eq!(
        FunctionCall::new(&"".into()),
        Err(Error::FunctionCall(FunctionCallError::Empty))
    );
}

#[test]
fn parse_function_call_with_no_parameters() {
    assert_eq!(
        FunctionCall::new(&"foo".into()),
        Ok(FunctionCall::from_parts("foo".try_into().unwrap(), vec![]))
    );
}

#[test]
fn parse_function_call_with_parameters() {
    assert_eq!(
        FunctionCall::new(&"add x y".into()),
        Ok(FunctionCall::from_parts(
            "add".try_into().unwrap(),
            vec![
                Expression::Binding("x".try_into().unwrap()),
                Expression::Binding("y".try_into().unwrap())
            ]
        ))
    );
}

#[test]
fn try_get_expression_with_no_parameters() {
    let env = &mut Environment::default();
    FunctionDef::new(&"fn homo_number => 114".into())
        .unwrap()
        .store(env);
    assert_eq!(
        FunctionCall::new(&"homo_number".into())
            .unwrap()
            .try_get_expression_from(env),
        Ok(Expression::Number(Number::from_i32(114)))
    );
}

#[test]
fn try_get_expression_with_parameters() {
    let env = &mut Environment::default();
    FunctionDef::new(&"fn add x y => x + y".into())
        .unwrap()
        .store(env);
    assert_eq!(
        FunctionCall::new(&"add 1 2".into())
            .unwrap()
            .try_get_expression_from(env),
        Ok(Expression::Operation(Operation::new(&"x+y".into()).unwrap()))
    );
    assert_eq!(
        env.get_from_self_and_parent(&"x".try_into().unwrap()),
        Some(NamedValue::Binding(Expression::Number(Number::from_i32(1))))
    );
    assert_eq!(
        env.get_from_self_and_parent(&"y".try_into().unwrap()),
        Some(NamedValue::Binding(Expression::Number(Number::from_i32(2))))
    );
}

#[test]
fn try_get_expression_with_non_existing_identifier() {
    let env = &mut Environment::default();
    assert_eq!(
        FunctionCall::new(&"non_existing".into())
            .unwrap()
            .try_get_expression_from(env),
        Err(FunctionCallError::NotFound)
    );
}

#[test]
#[should_panic]
fn try_get_expression_from_outer_scope() {
    let env = &mut Environment::default();
    let invalid_function_def = FunctionDef::new(&"fn sub => x - y".into()).unwrap();
    invalid_function_def.store(env);
    BindingDef::new(&"let x = 114".into()).unwrap().store(env);
    BindingDef::new(&"let y = 514".into()).unwrap().store(env);
    let call_invalid_function = FunctionCall::new(&"sub".into()).unwrap();
    assert_eq!(
        call_invalid_function.try_get_expression_from(env),
        Ok(Expression::Operation(Operation::new(&"x - y".into()).unwrap()))
    );
    assert_eq!(
        call_invalid_function
            .try_get_expression_from(env)
            .unwrap()
            .eval(env),
        Err(Error::Binding(const_lang::BindingError::NotFound))
    );
    FunctionDef::new(&"fn sub x - y => x - y".into())
        .unwrap()
        .store(env);
    assert_eq!(
        FunctionCall::new(&"sub".into())
            .unwrap()
            .try_get_expression_from(env),
        Ok(Expression::Operation(Operation::new(&"x - y".into()).unwrap()))
    );
    assert_eq!(
        FunctionCall::new(&"sub y x".into())
            .unwrap()
            .try_get_expression_from(env)
            .unwrap()
            .eval(env),
        Ok(Value::Number(Number::from_i32(514 - 114)))
    );
}

#[test]
fn wrong_parameter_count_reports_both_counts() {
    let env = &mut Environment::default();
    FunctionDef::new(&"fn add x y => x + y".into()).unwrap().store(env);
    assert_eq!(
        FunctionCall::new(&"add 1".into()).unwrap().try_get_expression_from(env),
        Err(FunctionCallError::WrongParameterCount { expected: 2, got: 1 })
    );
    assert_eq!(
        FunctionCall::new(&"add 1 2 3".into()).unwrap().try_get_expression_from(env),
        Err(FunctionCallError::WrongParameterCount { expected: 2, got: 3 })
    );
    assert_eq!(env.get_from_self(&"x".try_into().unwrap()), None);
    assert_eq!(
        FunctionCallError::WrongParameterCount { expected: 2, got: 13 }.message(),
        "Wrong parameter count, expected 2, got 13"
    );
}

#[test]
fn call_then_evaluate_body() {
    let env = &mut Environment::default();
    FunctionDef::new(&"fn add x y => x + y".into()).unwrap().store(env);
    let body = FunctionCall::new(&"add 40 2".into())
        .unwrap()
        .try_get_expression_from(env)
        .unwrap();
    assert_eq!(body.eval(env), Ok(Value::Number(Number::from_i32(42))));
}

#[test]
fn call_of_a_binding_is_not_found() {
    let env = &mut Environment::default();
    BindingDef::new(&"let f = 1".into()).unwrap().store(env);
    assert_eq!(
        FunctionCall::new(&"f".into()).unwrap().try_get_expression_from(env),
        Err(FunctionCallError::NotFound)
    );
    assert!(matches!(
        FunctionCall::new(&"1f x".into()),
        Err(Error::Identifier(_))
    ));
    assert!(matches!(
        FunctionCall::new(&"f ++".into()),
        Err(Error::Expression(_))
    ));
}
