use const_lang::{
    BindingDef, BindingError, Block, Environment, Error, Expression, Identifier, Number, Operation,
    OperationError, Operator, Value,
};

#[test]
fn operation_parse_empty() {
    assert_eq!(
        Operation::new(&"".into()),
        Err(Error::Operation(OperationError::NotFound))
    );
}

#[test]
#[should_panic]
fn operation_parse_block() {
    assert_eq!(
        Operation::new(&"{let x = 0; x + 1} + 2".into()),
        Ok(Operation::from_parts(
            Expression::Block(Block::new(&"{let x = 0; x + 1}".into()).unwrap()),
            Operator::Add,
            Expression::Number(Number::from_i32(2)),
        ))
    );
}

#[test]
fn operation_parse_binding() {
    assert_eq!(
        Operation::new(&"x - y".into()),
        Ok(Operation::from_parts(
            Expression::Binding(Identifier::new(&"x".into()).unwrap()),
            Operator::Sub,
            Expression::Binding(Identifier::new(&"y".into()).unwrap()),
        ))
    );
}

#[test]
fn parse_without_operator() {
    assert_eq!(
        Operation::new(&"1".into()),
        Err(Error::Operation(OperationError::NotFound))
    );
}

#[test]
fn operation_parse_one_add_two() {
    assert_eq!(
        Operation::new(&"1+2".into()),
        Ok(Operation::from_parts(
            Expression::Number(Number::new(&"1".into()).unwrap()),
            Operator::Add,
            Expression::Number(Number::new(&"2".into()).unwrap()),
        ))
    );
}

#[test]
fn operation_parse_with_whitespace() {
    assert_eq!(
        Operation::new(&" 12 * 32 ".into()),
        Ok(Operation::from_parts(
            Expression::Number(Number::new(&"12".into()).unwrap()),
            Operator::Mul,
            Expression::Number(Number::new(&"32".into()).unwrap()),
        ))
    );
}

#[test]
fn operation_eval_add() {
    assert_eq!(
        Operation::new(&"1+2".into())
            .unwrap()
            .eval(&Environment::default()),
        Ok(Value::Number(Number::from_i32(1 + 2)))
    );
}

#[test]
fn operation_eval_sub() {
    assert_eq!(
        Operation::new(&"15-2".into())
            .unwrap()
            .eval(&Environment::default()),
        Ok(Value::Number(Number::from_i32(15 - 2)))
    );
}

#[test]
fn operation_eval_mul() {
    assert_eq!(
        Operation::new(&"12*12".into())
            .unwrap()
            .eval(&Environment::default()),
        Ok(Value::Number(Number::from_i32(12 * 12)))
    );
}

#[test]
fn operation_eval_div() {
    assert_eq!(
        Operation::new(&"9/3".into())
            .unwrap()
            .eval(&Environment::default()),
        Ok(Value::Number(Number::from_i32(9 / 3)))
    );
}

#[test]
fn eval_binding() {
    let local = &mut Environment::default();
    BindingDef::new(&"let x = 5".into()).unwrap().store(local);
    assert_eq!(
        Operation::new(&"x+2".into()).unwrap().eval(local),
        Ok(Value::Number(Number::from_i32(5 + 2)))
    );
    BindingDef::new(&"let y = 3".into()).unwrap().store(local);
    assert_eq!(
        Operation::new(&"x*y".into()).unwrap().eval(local),
        Ok(Value::Number(Number::from_i32(5 * 3)))
    );
    assert_eq!(
        Operation::new(&"z+1".into()).unwrap().eval(local),
        Err(Error::Binding(BindingError::NotFound))
    );
}

#[test]
#[should_panic]
fn eval_block_without_last_expression() {
    assert_eq!(
        Operation::new(&"{1+1;}+1".into())
            .unwrap()
            .eval(&Environment::default()),
        Err(Error::Operation(OperationError::InvalidLhs))
    );
}

#[test]
#[should_panic]
fn eval_block_with_last_expression() {
    assert_eq!(
        Operation::new(&"{let x = 1; x + 2} + 3".into())
            .unwrap()
            .eval(&Environment::default()),
        Ok(Value::Number(Number::from_i32((1 + 2) + 3)))
    );
}

#[test]
fn division_rounds_toward_zero() {
    let env = &mut Environment::default();
    BindingDef::new(&"let a = -7".into()).unwrap().store(env);
    assert_eq!(
        Operation::new(&"a/2".into()).unwrap().eval(env),
        Ok(Value::Number(Number::from_i32(-3)))
    );
    assert_eq!(
        Operation::new(&"7/-2".into()).unwrap().eval(env),
        Ok(Value::Number(Number::from_i32(-3)))
    );
}

#[test]
fn division_by_zero_is_an_error() {
    assert_eq!(
        Operation::new(&"1/0".into()).unwrap().eval(&Environment::default()),
        Err(Error::Operation(OperationError::DivisionByZero))
    );
}

#[test]
fn overflow_is_an_error() {
    let env = &mut Environment::default();
    assert_eq!(
        Operation::new(&"2147483647+1".into()).unwrap().eval(env),
        Err(Error::Operation(OperationError::Overflow))
    );
    assert_eq!(
        Operation::new(&"65536*65536".into()).unwrap().eval(env),
        Err(Error::Operation(OperationError::Overflow))
    );
    BindingDef::new(&"let m = -2147483648".into()).unwrap().store(env);
    assert_eq!(
        Operation::new(&"m/-1".into()).unwrap().eval(env),
        Err(Error::Operation(OperationError::Overflow))
    );
    assert_eq!(
        Operation::new(&"m-1".into()).unwrap().eval(env),
        Err(Error::Operation(OperationError::Overflow))
    );
}

#[test]
fn operands_must_be_numbers() {
    let env = &mut Environment::default();
    BindingDef::new(&"let e = {}".into()).unwrap().store(env);
    assert_eq!(
        Operation::new(&"e+1".into()).unwrap().eval(env),
        Err(Error::Operation(OperationError::InvalidLhs))
    );
    assert_eq!(
        Operation::new(&"1+e".into()).unwrap().eval(env),
        Err(Error::Operation(OperationError::InvalidRhs))
    );
    assert_eq!(
        Operation::new(&"+1".into()),
        Err(Error::Operation(OperationError::InvalidLhs))
    );
    assert_eq!(
        Operation::new(&"1+".into()),
        Err(Error::Operation(OperationError::InvalidRhs))
    );
}
