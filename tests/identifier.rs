use const_lang::{
    BindingDef, BindingError, Environment, Expression, Identifier, IdentifierError, Number,
};

#[test]
fn identifier_parse_identifier() {
    let expected: Identifier = "foo123".try_into().unwrap();
    assert_eq!(Identifier::new(&"foo123".into()), Ok(expected.clone()));
    assert_eq!(expected.as_str(), "foo123");
}

#[test]
fn parse_with_allowed_character() {
    let id = Identifier::new(&"foo_123_中文".into()).unwrap();
    assert_eq!(id.as_str(), "foo_123_中文");
}

#[test]
fn identifier_parse_start_with_number() {
    assert_eq!(
        Identifier::new(&"123foo".into()),
        Err(IdentifierError::StartWithNonLetter)
    );
}

#[test]
fn identifier_parse_contain_whitespace() {
    assert_eq!(
        Identifier::new(&"foo bar".into()),
        Err(IdentifierError::ContainSpecialCharacters)
    );
}

#[test]
fn identifier_parse_contain_crlf() {
    assert_eq!(
        Identifier::new(&"foo\n b\rar".into()),
        Err(IdentifierError::ContainSpecialCharacters)
    );
}

#[test]
fn parse_contain_special_characters() {
    assert_eq!(
        Identifier::new(&"foo=bar".into()),
        Err(IdentifierError::ContainSpecialCharacters)
    );
}

#[test]
fn identifier_parse_empty() {
    assert_eq!(Identifier::new(&"".into()), Err(IdentifierError::Empty));
}

#[test]
fn identifier_parse_whitespace() {
    assert_eq!(
        Identifier::new(&"         \n".into()),
        Err(IdentifierError::Empty)
    );
}

#[test]
fn get_expression_with_existing_identifier() {
    let env = &mut Environment::default();
    BindingDef::new(&"let foo = 11451".into())
        .unwrap()
        .store(env);
    assert_eq!(
        Identifier::new(&"foo".into())
            .unwrap()
            .try_get_expression_from(env),
        Ok(Expression::Number(Number::from_i32(11451)))
    );
}

#[test]
fn get_expression_with_non_existing_identifier() {
    let env = Environment::default();
    assert_eq!(
        Identifier::new(&"foo".into())
            .unwrap()
            .try_get_expression_from(&env),
        Err(BindingError::NotFound)
    );
}

#[test]
fn unicode_start_and_continue_classes() {
    // A letter of another script may start a name; a combining mark may only
    // continue one.
    assert!(Identifier::new(&"中文".into()).is_ok());
    assert!(Identifier::new(&"e\u{301}".into()).is_ok());
    assert_eq!(
        Identifier::new(&"\u{301}e".into()),
        Err(IdentifierError::StartWithNonLetter)
    );
    assert_eq!(
        Identifier::new(&"_x".into()),
        Err(IdentifierError::StartWithNonLetter)
    );
    assert_eq!(
        Identifier::try_from("  padded  ").unwrap().as_str(),
        "padded"
    );
    assert!(Identifier::parse("a b").is_err());
}

#[test]
fn same_names() {
    let a: Identifier = "abc".try_into().unwrap();
    let b = Identifier::parse(" abc").unwrap();
    let c: Identifier = "abd".try_into().unwrap();
    assert!(a.same_as(&b));
    assert!(!a.same_as(&c));
}

#[test]
fn identifier_from_str() {
    let id: Identifier = " name ".parse().unwrap();
    assert_eq!(id.as_str(), "name");
    assert_eq!("9lives".parse::<Identifier>(), Err(IdentifierError::StartWithNonLetter));
}
