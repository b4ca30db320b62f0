use rlox::environment::Environment;
use rlox::token::Number;
use rlox::token::Token;
use rlox::token::TokenType;
use rlox::value::Value;

fn name(lexeme: &str) -> Token {
    Token::new(TokenType::IDENTIFIER, lexeme.to_string(), None, 3)
}

fn number(bits: u64) -> Value {
    Value::Number(Number::Bits(bits))
}

#[test]
fn new_environment_has_the_global_scope() {
    let env = Environment::new();
    assert_eq!(env.len(), 1);
    assert!(env.get(0, name("a")).is_err());
}

#[test]
fn defined_name_is_found() {
    let mut env = Environment::new();
    env.define(0, "a".to_string(), Some(number(1)));
    assert_eq!(env.get(0, name("a")), Ok(number(1)));
    env.define(0, "b".to_string(), Some(Value::Boolean(true)));
    assert_eq!(env.get(0, name("a")), Ok(number(1)));
    assert_eq!(env.get(0, name("b")), Ok(Value::Boolean(true)));
}

#[test]
fn name_without_value_is_nil() {
    let mut env = Environment::new();
    env.define(0, "a".to_string(), None);
    assert_eq!(env.get(0, name("a")), Ok(Value::Nil));
}

#[test]
fn name_can_be_defined_anew() {
    let mut env = Environment::new();
    env.define(0, "a".to_string(), Some(number(1)));
    env.define(0, "b".to_string(), Some(number(2)));
    env.define(0, "a".to_string(), Some(number(3)));
    assert_eq!(env.get(0, name("a")), Ok(number(3)));
    assert_eq!(env.get(0, name("b")), Ok(number(2)));
}

#[test]
fn undefined_name_is_an_error() {
    let env = Environment::new();
    let error = env.get(0, name("missing")).unwrap_err();
    assert_eq!(error.message, "Undefined variable 'missing'.");
    assert_eq!(error.token, name("missing"));
}

#[test]
fn inner_scope_sees_and_shadows_the_outer() {
    let mut env = Environment::new();
    env.define(0, "a".to_string(), Some(number(1)));
    env.define(0, "b".to_string(), Some(number(2)));
    let inner = env.scope(Some(0));
    assert_eq!(inner, 1);
    assert_eq!(env.len(), 2);
    env.define(inner, "a".to_string(), Some(number(10)));
    assert_eq!(env.get(inner, name("a")), Ok(number(10)));
    assert_eq!(env.get(inner, name("b")), Ok(number(2)));
    assert_eq!(env.get(0, name("a")), Ok(number(1)));
}

#[test]
fn outer_scope_does_not_see_the_inner() {
    let mut env = Environment::new();
    let inner = env.scope(Some(0));
    env.define(inner, "a".to_string(), Some(number(1)));
    assert!(env.get(0, name("a")).is_err());
}

#[test]
fn sibling_scopes_do_not_see_each_other() {
    let mut env = Environment::new();
    let first = env.scope(Some(0));
    let second = env.scope(Some(0));
    env.define(first, "a".to_string(), Some(number(1)));
    assert!(env.get(second, name("a")).is_err());
    assert_eq!(env.get(first, name("a")), Ok(number(1)));
}

#[test]
fn assignment_changes_the_nearest_binding() {
    let mut env = Environment::new();
    env.define(0, "a".to_string(), Some(number(1)));
    let middle = env.scope(Some(0));
    env.define(middle, "a".to_string(), Some(number(2)));
    let inner = env.scope(Some(middle));
    assert_eq!(env.assign(inner, name("a"), number(3)), Ok(()));
    assert_eq!(env.get(inner, name("a")), Ok(number(3)));
    assert_eq!(env.get(middle, name("a")), Ok(number(3)));
    assert_eq!(env.get(0, name("a")), Ok(number(1)));
}

#[test]
fn assignment_does_not_declare() {
    let mut env = Environment::new();
    let inner = env.scope(Some(0));
    let error = env.assign(inner, name("a"), number(1)).unwrap_err();
    assert_eq!(error.message, "Undefined variable 'a'.");
    assert!(env.get(inner, name("a")).is_err());
    assert!(env.get(0, name("a")).is_err());
}

#[test]
fn scope_without_an_enclosing_one_stands_alone() {
    let mut env = Environment::new();
    env.define(0, "a".to_string(), Some(number(1)));
    let alone = env.scope(None);
    assert!(env.get(alone, name("a")).is_err());
    let stray = env.scope(Some(99));
    assert!(env.get(stray, name("a")).is_err());
}

#[test]
fn a_scope_that_is_none_holds_nothing() {
    let mut env = Environment::new();
    env.define(5, "a".to_string(), Some(number(1)));
    assert_eq!(env.len(), 1);
    assert!(env.get(5, name("a")).is_err());
    assert!(env.get(0, name("a")).is_err());
    assert!(env.assign(5, name("a"), number(2)).is_err());
}
