use querylizer::passthrough;
use querylizer::QuerylizerError;
use querylizer::Simple;
use querylizer::Value;

fn s(text: &str) -> Value {
    Value::Str(text.to_string())
}

fn rgb_struct() -> Value {
    Value::Struct(vec![
        ("R".to_string(), Value::Unsigned(100)),
        ("G".to_string(), Value::Unsigned(200)),
        ("B".to_string(), Value::Unsigned(150)),
    ])
}

#[test]
fn simple_test_bool() {
    assert_eq!(
        Simple::to_string(&Value::Bool(true), false, &passthrough()).unwrap(),
        "true"
    );
    assert_eq!(
        Simple::to_string(&Value::Bool(false), false, &passthrough()).unwrap(),
        "false"
    );
}

#[test]
fn simple_test_i8() {
    let v = Value::Integer(-1i8 as i128);
    assert_eq!(Simple::to_string(&v, false, &passthrough()).unwrap(), "-1");
}

#[test]
fn simple_test_i16() {
    let v = Value::Integer(-1i16 as i128);
    assert_eq!(Simple::to_string(&v, false, &passthrough()).unwrap(), "-1");
}

#[test]
fn simple_test_i32() {
    let v = Value::Integer(-1i32 as i128);
    assert_eq!(Simple::to_string(&v, false, &passthrough()).unwrap(), "-1");
}

#[test]
fn simple_test_i64() {
    let v = Value::Integer(-1i64 as i128);
    assert_eq!(Simple::to_string(&v, false, &passthrough()).unwrap(), "-1");
}

#[test]
fn simple_test_i128() {
    let v = Value::Integer(-1i128);
    assert_eq!(Simple::to_string(&v, false, &passthrough()).unwrap(), "-1");
}

#[test]
fn simple_test_u8() {
    let v = Value::Unsigned(1u8 as u128);
    assert_eq!(Simple::to_string(&v, false, &passthrough()).unwrap(), "1");
}

#[test]
fn simple_test_u16() {
    let v = Value::Unsigned(1u16 as u128);
    assert_eq!(Simple::to_string(&v, false, &passthrough()).unwrap(), "1");
}

#[test]
fn simple_test_u32() {
    let v = Value::Unsigned(1u32 as u128);
    assert_eq!(Simple::to_string(&v, false, &passthrough()).unwrap(), "1");
}

#[test]
fn simple_test_u64() {
    let v = Value::Unsigned(1u64 as u128);
    assert_eq!(Simple::to_string(&v, false, &passthrough()).unwrap(), "1");
}

#[test]
fn simple_test_u128() {
    let v = Value::Unsigned(1u128);
    assert_eq!(Simple::to_string(&v, false, &passthrough()).unwrap(), "1");
}

#[test]
fn simple_test_f32() {
    let mut buffer = dtoa::Buffer::new();
    let v = Value::Float(buffer.format(0.25f32).to_string());
    assert_eq!(Simple::to_string(&v, false, &passthrough()).unwrap(), "0.25");
}

#[test]
fn simple_test_f64() {
    let mut buffer = dtoa::Buffer::new();
    let v = Value::Float(buffer.format(0.25f64).to_string());
    assert_eq!(Simple::to_string(&v, false, &passthrough()).unwrap(), "0.25");
}

#[test]
fn simple_test_char() {
    assert_eq!(
        Simple::to_string(&Value::Char('d'), false, &passthrough()).unwrap(),
        "d"
    );
}

#[test]
fn simple_test_str() {
    assert_eq!(
        Simple::to_string(&s("blue"), false, &passthrough()).unwrap(),
        "blue"
    );
}

#[test]
fn simple_test_bytes() {
    let v = Value::Bytes(vec![98, 108, 117, 101]);
    assert_eq!(
        Simple::to_string(&v, false, &passthrough()).unwrap(),
        "98,108,117,101"
    );
}

#[test]
fn simple_test_none() {
    assert_eq!(
        Simple::to_string(&Value::Absent, false, &passthrough()),
        Err(QuerylizerError::UnsupportedValue)
    );
}

#[test]
fn simple_test_some() {
    let v = Value::Present(Box::new(Value::Unsigned(1)));
    assert_eq!(
        Simple::to_string(&v, false, &passthrough()),
        Err(QuerylizerError::UnsupportedValue)
    );
}

#[test]
fn simple_test_unit() {
    assert_eq!(
        Simple::to_string(&Value::Unit, false, &passthrough()),
        Err(QuerylizerError::UnsupportedValue)
    );
}

#[test]
fn simple_test_unit_struct() {
    let v = Value::Struct(vec![]);
    assert_eq!(
        Simple::to_string(&v, false, &passthrough()),
        Err(QuerylizerError::UnsupportedValue)
    );
}

#[test]
fn simple_test_unit_variant() {
    let v = Value::UnitVariant("A".to_string());
    assert_eq!(
        Simple::to_string(&v, false, &passthrough()),
        Err(QuerylizerError::UnsupportedValue)
    );
}

#[test]
fn simple_test_newtype_struct() {
    let v = Value::NewtypeStruct(Box::new(Value::Unsigned(5)));
    assert_eq!(Simple::to_string(&v, false, &passthrough()).unwrap(), "5");
}

#[test]
fn simple_test_newtype_variant() {
    let v = Value::NewtypeVariant(Box::new(Value::Unsigned(5)));
    assert_eq!(Simple::to_string(&v, false, &passthrough()).unwrap(), "5");
}

#[test]
fn simple_test_seq() {
    let v = Value::Sequence(vec![s("blue"), s("black"), s("brown")]);
    assert_eq!(
        Simple::to_string(&v, false, &passthrough()).unwrap(),
        "blue,black,brown"
    );
    assert_eq!(
        Simple::to_string(&v, true, &passthrough()).unwrap(),
        "blue,black,brown"
    );
}

#[test]
fn simple_test_tuple() {
    let v = Value::Tuple(vec![s("blue"), s("black"), s("brown")]);
    assert_eq!(
        Simple::to_string(&v, false, &passthrough()).unwrap(),
        "blue,black,brown"
    );
    assert_eq!(
        Simple::to_string(&v, true, &passthrough()).unwrap(),
        "blue,black,brown"
    );
}

#[test]
fn simple_test_tuple_struct() {
    let v = Value::Tuple(vec![s("blue"), s("black"), s("brown")]);
    assert_eq!(
        Simple::to_string(&v, false, &passthrough()).unwrap(),
        "blue,black,brown"
    );
    assert_eq!(
        Simple::to_string(&v, true, &passthrough()).unwrap(),
        "blue,black,brown"
    );
}

#[test]
fn simple_test_tuple_variant() {
    let v = Value::Tuple(vec![Value::Unsigned(5), Value::Char('f')]);
    assert_eq!(Simple::to_string(&v, false, &passthrough()).unwrap(), "5,f");
}

#[test]
fn simple_test_map() {
    let v = Value::Mapping(vec![
        (s("B"), Value::Integer(150)),
        (s("G"), Value::Integer(200)),
        (s("R"), Value::Integer(100)),
    ]);
    assert_eq!(
        Simple::to_string(&v, false, &passthrough()).unwrap(),
        "B,150,G,200,R,100"
    );
    assert_eq!(
        Simple::to_string(&v, true, &passthrough()).unwrap(),
        "B=150,G=200,R=100"
    );
}

#[test]
fn simple_test_struct() {
    let v = rgb_struct();
    assert_eq!(
        Simple::to_string(&v, false, &passthrough()).unwrap(),
        "R,100,G,200,B,150"
    );
    assert_eq!(
        Simple::to_string(&v, true, &passthrough()).unwrap(),
        "R=100,G=200,B=150"
    );
}

#[test]
fn simple_test_struct_variant() {
    let v = Value::NewtypeVariant(Box::new(rgb_struct()));
    assert_eq!(
        Simple::to_string(&v, false, &passthrough()).unwrap(),
        "R,100,G,200,B,150"
    );
    assert_eq!(
        Simple::to_string(&v, true, &passthrough()).unwrap(),
        "R=100,G=200,B=150"
    );
}

#[test]
fn simple_test_unsupported_nesting() {
    let v = Value::Struct(vec![("t".to_string(), rgb_struct())]);
    assert_eq!(
        Simple::to_string(&v, false, &passthrough()),
        Err(QuerylizerError::UnsupportedNesting)
    );
}
