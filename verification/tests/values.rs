use rebase::value::{
    debug_number, debug_value, expect_bool, expect_integer, expect_number, expect_rotator, expect_string,
    expect_vector, Component, Number, Value, ValueError,
};

fn integer(i: i64) -> Value {
    Value::Number(Number::Integer(i))
}

fn float(f: f64) -> Value {
    Value::Number(Number::Float { bits: f.to_bits(), text: format!("{:?}", f) })
}

fn s(t: &str) -> Value {
    Value::String(t.to_string())
}

fn is_float(n: &Number, f: f64) -> bool {
    matches!(n, Number::Float { bits, .. } if *bits == f.to_bits())
}

/// The library's value for a RON value, as the command line converts it.
fn from_ron(v: ron::Value) -> Value {
    match v {
        ron::Value::Bool(b) => Value::Bool(b),
        ron::Value::Char(c) => Value::Char(c),
        ron::Value::Map(m) => Value::Table(m.into_iter().map(|(k, v)| (from_ron(k), from_ron(v))).collect()),
        ron::Value::Number(ron::Number::Integer(i)) => Value::Number(Number::Integer(i)),
        ron::Value::Number(ron::Number::Float(f)) => {
            Value::Number(Number::Float { bits: f.get().to_bits(), text: format!("{:?}", f.get()) })
        }
        ron::Value::Option(o) => Value::Option(o.map(|b| Box::new(from_ron(*b)))),
        ron::Value::String(s) => Value::String(s),
        ron::Value::Seq(items) => Value::List(items.into_iter().map(from_ron).collect()),
        ron::Value::Unit => Value::Unit,
    }
}

#[test]
fn debug_value_prints_as_ron_does() {
    for text in [
        "true",
        "'x'",
        "'\\n'",
        "42",
        "-7",
        "2.5",
        "3.0",
        "1e20",
        "\"plain\"",
        "\"q\\\"uote\\\\ and\\ttab\"",
        "Some(1)",
        "None",
        "()",
        "[]",
        "[1, 2.5, \"a\"]",
        "{}",
        "{\"x\": 0.0, \"y\": [true, ()], \"z\": {1: 'c'}}",
        "(1, 2, 3)",
        "Some([Some(\"deep\")])",
    ] {
        let v: ron::Value = ron::from_str(text).unwrap();
        let expected = format!("{:?}", v);
        assert_eq!(debug_value(&from_ron(v)), expected, "for {}", text);
    }
}

#[test]
fn debug_number_prints_as_ron_does() {
    assert_eq!(debug_number(&Number::Integer(i64::MIN)), format!("{:?}", ron::Number::Integer(i64::MIN)));
    assert_eq!(debug_number(&Number::Integer(0)), "Integer(0)");
    let f = ron::Number::new(3.5);
    let lib = Number::Float { bits: 3.5f64.to_bits(), text: format!("{:?}", 3.5f64) };
    assert_eq!(debug_number(&lib), format!("{:?}", f));
}

#[test]
fn expect_string_cases() {
    assert_eq!(expect_string(&s("AK")).unwrap(), "AK");
    let e = expect_string(&integer(1)).unwrap_err();
    assert_eq!(e, ValueError::ExpectedString("Number(Integer(1))".to_string()));
    assert_eq!(e.message(), "expected string, got Number(Integer(1))");
}

#[test]
fn expect_number_cases() {
    assert!(matches!(expect_number(&integer(3)), Ok(Number::Integer(3))));
    assert!(is_float(&expect_number(&float(42.5)).unwrap(), 42.5));
    let e = expect_number(&Value::Bool(true)).unwrap_err();
    assert_eq!(e.message(), "expected number, got Bool(true)");
}

#[test]
fn expect_integer_cases() {
    assert_eq!(expect_integer(&integer(-7)), Ok(-7));
    let e = expect_integer(&float(3.0)).unwrap_err();
    assert_eq!(e, ValueError::IntegerGotFloat("Float(Float(3.0))".to_string()));
    assert_eq!(e.message(), "expected integer, got float Float(Float(3.0))");
    let e = expect_integer(&s("3")).unwrap_err();
    assert_eq!(e.message(), "expected integer, got String(\"3\")");
}

#[test]
fn expect_bool_cases() {
    assert_eq!(expect_bool(&Value::Bool(false)), Ok(false));
    assert_eq!(expect_bool(&Value::Unit).unwrap_err().message(), "expected bool, got Unit");
}

#[test]
fn expect_vector_tuple_form() {
    let v = Value::List(vec![float(0.0), integer(1), float(20.0)]);
    let (x, y, z) = expect_vector(&v).unwrap();
    assert!(is_float(&x, 0.0));
    assert!(matches!(y, Number::Integer(1)));
    assert!(is_float(&z, 20.0));
}

#[test]
fn expect_vector_map_form() {
    let v = Value::Table(vec![(s("x"), float(0.0)), (s("Y"), float(1.0)), (s("z"), float(10.0))]);
    let (x, y, z) = expect_vector(&v).unwrap();
    assert!(is_float(&x, 0.0));
    assert!(is_float(&y, 1.0));
    assert!(is_float(&z, 10.0));
}

#[test]
fn expect_vector_lower_case_key_first() {
    let v = Value::Table(vec![(s("X"), integer(1)), (s("x"), integer(2)), (s("y"), integer(3)), (s("z"), integer(4))]);
    let (x, _, _) = expect_vector(&v).unwrap();
    assert!(matches!(x, Number::Integer(2)));
}

#[test]
fn expect_vector_errors() {
    let missing = Value::Table(vec![(s("x"), integer(1)), (s("z"), integer(3))]);
    assert_eq!(expect_vector(&missing).unwrap_err(), ValueError::Missing(Component::Y));
    assert_eq!(ValueError::Missing(Component::Y).message(), "missing 'y'");
    let unquoted = Value::Table(vec![(Value::Unit, integer(1)), (s("y"), integer(2)), (s("z"), integer(3))]);
    assert_eq!(expect_vector(&unquoted).unwrap_err(), ValueError::Missing(Component::X));
    let not_number = Value::List(vec![integer(1), s("a"), integer(3)]);
    assert_eq!(expect_vector(&not_number).unwrap_err().message(), "expected number, got String(\"a\")");
    let short = Value::List(vec![integer(1), integer(2)]);
    assert_eq!(expect_vector(&short).unwrap_err(), ValueError::ExpectedVector);
    assert_eq!(expect_vector(&s("x")).unwrap_err(), ValueError::ExpectedVector);
    assert_eq!(ValueError::ExpectedVector.message(), "expected [x,y,z] or {x,y,z}");
}

#[test]
fn expect_vector_looks_up_all_before_checking_numbers() {
    let v = Value::Table(vec![(s("x"), s("bad")), (s("y"), integer(2))]);
    assert_eq!(expect_vector(&v).unwrap_err(), ValueError::Missing(Component::Z));
}

#[test]
fn expect_rotator_forms() {
    let t = Value::List(vec![integer(10), integer(20), integer(30)]);
    assert!(expect_rotator(&t).is_ok());
    let m = Value::Table(vec![(s("Pitch"), integer(1)), (s("yaw"), integer(2)), (s("Roll"), integer(3))]);
    let (p, y, r) = expect_rotator(&m).unwrap();
    assert!(matches!(p, Number::Integer(1)));
    assert!(matches!(y, Number::Integer(2)));
    assert!(matches!(r, Number::Integer(3)));
    let bad = Value::Table(vec![(s("pitch"), integer(1)), (s("yaw"), integer(2))]);
    assert_eq!(expect_rotator(&bad).unwrap_err(), ValueError::Missing(Component::Roll));
    assert_eq!(expect_rotator(&Value::Bool(true)).unwrap_err(), ValueError::ExpectedRotator);
    assert_eq!(
        ValueError::ExpectedRotator.message(),
        "expected [pitch,yaw,roll] or {pitch,yaw,roll}"
    );
}
