use lox::backend::{Env, EnvError, Number, RuntimeError, RuntimeErrorKind, Value};
use lox::LoxError;

fn number(value: f64) -> Number {
    Number::from_bits(value.to_bits())
}

fn samples() -> Vec<f64> {
    vec![
        0.0, -0.0, 1.0, -1.0, 0.5, -0.5, 2.0, 1e300, -1e300, 1e-300, -1e-300, 5e-324, -5e-324,
        f64::MIN_POSITIVE, f64::MAX, f64::MIN, f64::EPSILON, f64::INFINITY, f64::NEG_INFINITY,
        f64::NAN, -f64::NAN, f64::from_bits(0x7ff0_0000_0000_0001), f64::from_bits(0xfff8_0000_0000_0001),
        3.0, 3.0000000000000004, 123456789.125,
    ]
}

#[test]
fn numbers_compare_as_binary64_numbers_do() {
    for a in samples() {
        for b in samples() {
            let (x, y) = (number(a), number(b));
            assert_eq!(x.equals(&y), a == b, "{a} == {b}");
            assert_eq!(x.less(&y), a < b, "{a} < {b}");
            assert_eq!(x.less_or_equal(&y), a <= b, "{a} <= {b}");
            assert_eq!(x.greater(&y), a > b, "{a} > {b}");
            assert_eq!(x.greater_or_equal(&y), a >= b, "{a} >= {b}");
        }
    }
}

#[test]
fn numbers_negate_as_binary64_numbers_do() {
    for a in samples() {
        assert_eq!(number(a).negate().to_bits(), (-a).to_bits(), "{a}");
        assert_eq!(number(a).is_not_a_number(), a.is_nan(), "{a}");
    }
    assert_eq!(number(0.0).negate().to_bits(), 0x8000_0000_0000_0000);
    assert_eq!(number(1.5).negate().negate().to_bits(), 1.5f64.to_bits());
}

#[test]
fn truthiness_of_each_kind_of_value() {
    assert!(!Value::Nil.is_truthy());
    assert!(!Value::Bool(false).is_truthy());
    assert!(Value::Bool(true).is_truthy());
    assert!(Value::Number(number(0.0)).is_truthy());
    assert!(Value::Number(number(-1.0)).is_truthy());
    assert!(Value::Number(number(f64::NAN)).is_truthy());
    assert!(Value::String(String::new()).is_truthy());
    assert!(Value::String(String::from("a")).is_truthy());
}

#[test]
fn values_equal_themselves_unless_they_are_nan() {
    let values = vec![
        Value::Nil,
        Value::Bool(true),
        Value::Bool(false),
        Value::Number(number(0.0)),
        Value::Number(number(1.5)),
        Value::String(String::new()),
        Value::String(String::from("1.5")),
    ];
    for (i, a) in values.iter().enumerate() {
        for (j, b) in values.iter().enumerate() {
            assert_eq!(a == b, i == j, "{:?} {:?}", a, b);
            assert_eq!(a != b, i != j, "{:?} {:?}", a, b);
        }
    }
    assert_ne!(Value::Number(number(f64::NAN)), Value::Number(number(f64::NAN)));
    assert_eq!(Value::Number(number(0.0)), Value::Number(number(-0.0)));
    assert_eq!(Value::String(String::from("a")).clone(), Value::String(String::from("a")));
}

#[test]
fn values_that_are_no_numbers_have_a_display_form() {
    assert_eq!(Value::Nil.text().as_deref(), Some("nil"));
    assert_eq!(Value::Bool(true).text().as_deref(), Some("true"));
    assert_eq!(Value::Bool(false).text().as_deref(), Some("false"));
    assert_eq!(Value::String(String::from("a b")).text().as_deref(), Some("a b"));
    assert_eq!(Value::Number(number(1.0)).text(), None);
}

#[test]
fn a_new_environment_has_the_global_scope() {
    let env = Env::new();
    assert_eq!(env.depth(), 1);
    assert!(matches!(env.get("a"), Err(EnvError::UndefinedVariable { name }) if name == "a"));
}

#[test]
fn define_binds_in_the_innermost_scope() {
    let mut env = Env::new();
    env.define("a", &Value::Bool(true));
    assert_eq!(env.get("a").unwrap(), &Value::Bool(true));
    env.define("a", &Value::Nil);
    assert_eq!(env.get("a").unwrap(), &Value::Nil);
    env.begin_scope();
    assert_eq!(env.depth(), 2);
    assert_eq!(env.get("a").unwrap(), &Value::Nil);
    env.define("a", &Value::String(String::from("inner")));
    env.define("b", &Value::Bool(false));
    assert_eq!(env.get("a").unwrap(), &Value::String(String::from("inner")));
    env.end_scope();
    assert_eq!(env.depth(), 1);
    assert_eq!(env.get("a").unwrap(), &Value::Nil);
    assert!(env.get("b").is_err());
}

#[test]
fn the_global_scope_is_never_closed() {
    let mut env = Env::new();
    env.define("a", &Value::Bool(true));
    env.end_scope();
    env.end_scope();
    assert_eq!(env.depth(), 1);
    assert_eq!(env.get("a").unwrap(), &Value::Bool(true));
}

#[test]
fn assign_rebinds_where_the_name_is_held() {
    let mut env = Env::new();
    env.define("a", &Value::Bool(true));
    env.begin_scope();
    env.define("b", &Value::Nil);
    env.begin_scope();
    assert!(env.assign("a", &Value::Bool(false)).is_ok());
    assert!(env.assign("b", &Value::String(String::from("x"))).is_ok());
    assert_eq!(env.get("b").unwrap(), &Value::String(String::from("x")));
    env.end_scope();
    env.end_scope();
    assert_eq!(env.get("a").unwrap(), &Value::Bool(false));
}

#[test]
fn assign_never_creates_a_binding() {
    let mut env = Env::new();
    env.begin_scope();
    assert!(matches!(
        env.assign("a", &Value::Nil),
        Err(EnvError::UndefinedVariable { name }) if name == "a"
    ));
    assert!(env.get("a").is_err());
    env.define("A", &Value::Nil);
    assert!(env.assign("a", &Value::Nil).is_err());
    assert!(env.get("").is_err());
}

#[test]
fn names_are_compared_character_by_character() {
    let mut env = Env::new();
    env.define("é", &Value::Bool(true));
    env.define("e", &Value::Bool(false));
    env.define("", &Value::Nil);
    assert_eq!(env.get("é").unwrap(), &Value::Bool(true));
    assert_eq!(env.get("e").unwrap(), &Value::Bool(false));
    assert_eq!(env.get("").unwrap(), &Value::Nil);
    assert!(env.get("ee").is_err());
}

#[test]
fn an_environment_error_becomes_a_runtime_error() {
    let e = RuntimeError::from(EnvError::UndefinedVariable { name: String::from("x") });
    assert!(matches!(&e.kind, RuntimeErrorKind::UndefinedVariable { name } if name == "x"));
    assert_eq!(e.to_string(), "RuntimeError: UndefinedVariable(x)");
    let e = LoxError::from(EnvError::UndefinedVariable { name: String::from("y") });
    assert_eq!(e.to_string(), "RuntimeError: UndefinedVariable(y)");
}
