use const_lang::{
    BindingDef, BindingError, Block, Environment, Error, Expression, ExpressionError, Identifier,
    Number, Operation, Value,
};

#[test]
fn parse_operation_without_binding() {
    assert_eq!(
        Expression::new(&"1+2".into()),
        Ok(Expression::Operation(Operation::new(&"1+2".into()).unwrap()))
    );
}

#[test]
fn parse_operation_with_binding() {
    assert_eq!(
        Expression::new(&"x+2".into()),
        Ok(Expression::Operation(Operation::new(&"x+2".into()).unwrap()))
    );
}

#[test]
fn expression_parse_number() {
    assert_eq!(
        Expression::new(&"114".into()),
        Ok(Expression::Number(Number::from_i32(114)))
    );
}

#[test]
fn expression_parse_empty() {
    assert_eq!(Expression::new(&"".into()), Ok(Expression::Empty));
}

#[test]
fn expression_parse_binding() {
    assert_eq!(
        Expression::new(&"something".into()),
        Ok(Expression::Binding(
            Identifier::new(&"something".into()).unwrap()
        ))
    );
}

#[test]
fn expression_parse_block() {
    assert_eq!(
        Expression::new(&"{let x=114;x}".into()),
        Ok(Expression::Block(
            Block::new(&"{let x=114;x}".into()).unwrap()
        ))
    );
}

#[test]
fn expression_parse_invalid_expr() {
    assert_eq!(
        Expression::new(&"++".into()),
        Err(ExpressionError::InvalidExpression)
    );
    assert_eq!(
        Expression::new(&"1+".into()),
        Err(ExpressionError::InvalidExpression)
    );
}

#[test]
fn eval_operation_without_binding() {
    assert_eq!(
        Expression::Operation(Operation::new(&"114+514".into()).unwrap())
            .eval(&Environment::default()),
        Ok(Value::Number(Number::from_i32(114 + 514)))
    );
}

#[test]
fn eval_operation_with_binding() {
    let env = &mut Environment::default();
    BindingDef::new(&"let x = 114".into()).unwrap().store(env);
    assert_eq!(
        Expression::Operation(Operation::new(&"x+2".into()).unwrap()).eval(env),
        Ok(Value::Number(Number::from_i32(114 + 2)))
    );
}

#[test]
fn expression_eval_number() {
    assert_eq!(
        Expression::Number(Number::from_i32(114)).eval(&Environment::default()),
        Ok(Value::Number(Number::from_i32(114)))
    );
}

#[test]
fn expression_eval_empty() {
    assert_eq!(
        Expression::Empty.eval(&Environment::default()),
        Ok(Value::Empty)
    );
}

#[test]
fn expression_eval_existing_binding() {
    let env = &mut Environment::default();
    BindingDef::new(&"let a = 114".into()).unwrap().store(env);
    assert_eq!(
        Expression::Binding(Identifier::new(&"a".into()).unwrap()).eval(env),
        Ok(Value::Number(Number::from_i32(114)))
    );
}

#[test]
fn expression_eval_non_existing_binding() {
    let env = Environment::default();
    assert_eq!(
        Expression::Binding(Identifier::new(&"a".into()).unwrap()).eval(&env),
        Err(Error::Binding(BindingError::NotFound))
    );
}

#[test]
fn eval_block_with_binding() {
    assert_eq!(
        Expression::Block(Block::new(&"{let x = 114; x}".into()).unwrap())
            .eval(&Environment::default()),
        Ok(Value::Number(Number::from_i32(114)))
    );
}

#[test]
fn eval_block_with_one_expr() {
    assert_eq!(
        Expression::Block(Block::new(&"{ 514 }".into()).unwrap()).eval(&Environment::default()),
        Ok(Value::Number(Number::from_i32(514))),
    );
}

#[test]
fn eval_block_from_parent() {
    let env = {
        let mut binding = Environment::default();
        BindingDef::new(&"let a = 11451".into())
            .unwrap()
            .store(&mut binding);
        binding
    };
    assert_eq!(
        Expression::Block(Block::new(&"{ let b = a; b }".into()).unwrap()).eval(&env),
        Ok(Value::Number(Number::from_i32(11451)))
    );
}

#[test]
fn expression_parse_operation() {
    assert_eq!(
        Expression::new(&"1+2".into()),
        Ok(Expression::Operation(Operation::new(&"1+2".into()).unwrap()))
    );
}

#[test]
fn eval_operation() {
    assert_eq!(
        Expression::Operation(Operation::new(&"114+514".into()).unwrap())
            .eval(&Environment::default()),
        Ok(Value::Number(Number::from_i32(114 + 514)))
    );
}

#[test]
fn operator_text_is_an_operation_first() {
    // A sign in front of digits splits the text, whose left side is empty,
    // so it is read as a number after all.
    assert_eq!(
        Expression::new(&"-5".into()),
        Ok(Expression::Number(Number::from_i32(-5)))
    );
    assert!(Expression::new(&"1+2".into()).unwrap() != Expression::Number(Number::from_i32(3)));
}

#[test]
fn binding_is_evaluated_where_it_is_used() {
    let env = &mut Environment::default();
    BindingDef::new(&"let y = x * 2".into()).unwrap().store(env);
    BindingDef::new(&"let x = 3".into()).unwrap().store(env);
    let y = Expression::new(&"y".into()).unwrap();
    assert_eq!(y.eval(env), Ok(Value::Number(Number::from_i32(6))));
    BindingDef::new(&"let x = 10".into()).unwrap().store(env);
    assert_eq!(y.eval(env), Ok(Value::Number(Number::from_i32(20))));
}

#[test]
fn self_reference_is_too_deep() {
    let env = &mut Environment::default();
    BindingDef::new(&"let x = x".into()).unwrap().store(env);
    assert_eq!(
        Expression::new(&"x".into()).unwrap().eval(env),
        Err(Error::Expression(ExpressionError::NestingTooDeep))
    );
}

#[test]
fn expression_default_and_empty() {
    assert_eq!(Expression::default(), Expression::Empty);
    assert!(Expression::Empty.is_empty());
    assert!(!Expression::Number(Number::from_i32(1)).is_empty());
}
