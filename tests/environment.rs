use const_lang::{
    BindingDef, Environment, Expression, FunctionDef, Identifier, NamedValue, Number, Operation,
};

fn name(s: &str) -> Identifier {
    s.try_into().unwrap()
}

#[test]
fn get_from_self_and_parent() {
    let env = &mut Environment::default();
    env.insert_binding(name("something"), Expression::Number(Number::from_i32(11451)));
    assert_eq!(
        env.get_from_self_and_parent(&name("something")),
        Some(NamedValue::Binding(Expression::Number(Number::from_i32(11451))))
    );
    env.insert_function(
        name("something"),
        vec![name("x"), name("y")],
        Expression::Operation(Operation::new(&"x + y".into()).unwrap()),
    );
    assert_eq!(
        env.get_from_self_and_parent(&name("something")),
        Some(NamedValue::Function {
            parameters: vec![name("x"), name("y")],
            body: Expression::Operation(Operation::new(&"x+y".into()).unwrap())
        })
    );
}

#[test]
fn get_from_parent() {
    let parent = &mut Environment::default();
    BindingDef::new(&"let x = 114".into()).unwrap().store(parent);
    let child = &mut parent.create_child();
    assert_eq!(
        child.get_from_self_and_parent(&name("x")),
        Some(NamedValue::Binding(Expression::Number(Number::from_i32(114))))
    );
}

#[test]
fn get_from_self() {
    let parent = &mut Environment::default();
    BindingDef::new(&"let x = 114".into()).unwrap().store(parent);
    let child = &mut parent.create_child();
    assert_eq!(child.get_from_self(&name("x")), None);
}

#[test]
fn get_from_self_and_get_function_from_parent() {
    let parent = &mut Environment::default();
    BindingDef::new(&"let x = 114".into()).unwrap().store(parent);
    FunctionDef::new(&"fn f => 514".into()).unwrap().store(parent);
    let child = &mut parent.create_child();
    assert_eq!(
        child.get_from_self_and_get_function_from_parent(&name("x")),
        None
    );
    assert_eq!(
        child.get_from_self_and_get_function_from_parent(&name("f")),
        Some(NamedValue::Function {
            parameters: vec![],
            body: Expression::Number(Number::from_i32(514))
        })
    );
}

#[test]
fn get_when_parent_have_same_identifier() {
    let parent = &mut Environment::default();
    BindingDef::new(&"let x = 114".into()).unwrap().store(parent);
    let child = &mut parent.create_child();
    BindingDef::new(&"let x = 514".into()).unwrap().store(child);
    assert_eq!(
        child.get_from_self_and_parent(&name("x")),
        Some(NamedValue::Binding(Expression::Number(Number::from_i32(514))))
    );
}

#[test]
fn insert_multiple() {
    let env = &mut Environment::default();
    BindingDef::new(&"let x = 11451".into()).unwrap().store(env);
    assert_eq!(
        env.get_from_self(&name("x")),
        Some(NamedValue::Binding(Expression::Number(Number::from_i32(11451))))
    );
    BindingDef::new(&"let x = 19198".into()).unwrap().store(env);
    assert_eq!(
        env.get_from_self(&name("x")),
        Some(NamedValue::Binding(Expression::Number(Number::from_i32(19198))))
    );
    FunctionDef::new(&"fn x => 114+514".into()).unwrap().store(env);
    assert_eq!(
        env.get_from_self(&name("x")),
        Some(NamedValue::Function {
            parameters: vec![],
            body: Expression::Operation(Operation::new(&"114 + 514".into()).unwrap())
        })
    );
}

#[test]
fn insert_function() {
    let env = &mut Environment::default();
    env.insert_function(
        name("add"),
        vec![name("x"), name("y")],
        Expression::Operation(Operation::new(&"x + y".into()).unwrap()),
    );
    assert_eq!(
        env.get_from_self(&name("add")),
        Some(NamedValue::Function {
            parameters: vec![name("x"), name("y")],
            body: Expression::Operation(Operation::new(&"x + y".into()).unwrap())
        })
    );
}

#[test]
fn multiple_insert() {
    let mut env = Environment::default();
    BindingDef::new(&"let x = 11451".into()).unwrap().store(&mut env);
    assert_eq!(
        env.get(&name("x")),
        Some(Expression::Number(Number::from_i32(11451)))
    );
    BindingDef::new(&"let x = 19198".into()).unwrap().store(&mut env);
    assert_eq!(
        env.get(&name("x")),
        Some(Expression::Number(Number::from_i32(19198)))
    );
}

#[test]
fn shadowing_leaves_parent_unchanged() {
    let parent = &mut Environment::default();
    BindingDef::new(&"let x = 114".into()).unwrap().store(parent);
    {
        let child = &mut parent.create_child();
        BindingDef::new(&"let x = 514".into()).unwrap().store(child);
        assert_eq!(
            child.get(&name("x")),
            Some(Expression::Number(Number::from_i32(514)))
        );
    }
    assert_eq!(
        parent.get(&name("x")),
        Some(Expression::Number(Number::from_i32(114)))
    );
}

#[test]
fn get_skips_functions() {
    let env = &mut Environment::default();
    FunctionDef::new(&"fn f => 1".into()).unwrap().store(env);
    assert_eq!(env.get(&name("f")), None);
    env.insert(name("g"), Expression::Number(Number::from_i32(3)));
    assert_eq!(env.get(&name("g")), Some(Expression::Number(Number::from_i32(3))));
}
