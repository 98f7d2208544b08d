use querylizer::passthrough;
use querylizer::DeepObject;
use querylizer::QuerylizerError;
use querylizer::Value;

fn s(text: &str) -> Value {
    Value::Str(text.to_string())
}

fn rgb_struct() -> Value {
    Value::Struct(vec![
        ("R".to_string(), Value::Unsigned(100)),
        ("G".to_string(), Value::Unsigned(200)),
        ("B".to_string(), Value::Unsigned(150)),
    ])
}

#[test]
fn deep_test_bool() {
    assert_eq!(
        DeepObject::to_string("color", &Value::Bool(true), passthrough()).unwrap(),
        "color=true"
    );
    assert_eq!(
        DeepObject::to_string("color", &Value::Bool(false), passthrough()).unwrap(),
        "color=false"
    );
}

#[test]
fn deep_test_i8() {
    let v = Value::Integer(-1i8 as i128);
    assert_eq!(
        DeepObject::to_string("color", &v, passthrough()).unwrap(),
        "color=-1"
    );
}

#[test]
fn deep_test_i16() {
    let v = Value::Integer(-1i16 as i128);
    assert_eq!(
        DeepObject::to_string("color", &v, passthrough()).unwrap(),
        "color=-1"
    );
}

#[test]
fn deep_test_i32() {
    let v = Value::Integer(-1i32 as i128);
    assert_eq!(
        DeepObject::to_string("color", &v, passthrough()).unwrap(),
        "color=-1"
    );
}

#[test]
fn deep_test_i64() {
    let v = Value::Integer(-1i64 as i128);
    assert_eq!(
        DeepObject::to_string("color", &v, passthrough()).unwrap(),
        "color=-1"
    );
}

#[test]
fn deep_test_i128() {
    let v = Value::Integer(-1i128);
    assert_eq!(
        DeepObject::to_string("color", &v, passthrough()).unwrap(),
        "color=-1"
    );
}

#[test]
fn deep_test_u8() {
    let v = Value::Unsigned(1u8 as u128);
    assert_eq!(
        DeepObject::to_string("color", &v, passthrough()).unwrap(),
        "color=1"
    );
}

#[test]
fn deep_test_u16() {
    let v = Value::Unsigned(1u16 as u128);
    assert_eq!(
        DeepObject::to_string("color", &v, passthrough()).unwrap(),
        "color=1"
    );
}

#[test]
fn deep_test_u32() {
    let v = Value::Unsigned(1u32 as u128);
    assert_eq!(
        DeepObject::to_string("color", &v, passthrough()).unwrap(),
        "color=1"
    );
}

#[test]
fn deep_test_u64() {
    let v = Value::Unsigned(1u64 as u128);
    assert_eq!(
        DeepObject::to_string("color", &v, passthrough()).unwrap(),
        "color=1"
    );
}

#[test]
fn deep_test_u128() {
    let v = Value::Unsigned(1u128);
    assert_eq!(
        DeepObject::to_string("color", &v, passthrough()).unwrap(),
        "color=1"
    );
}

#[test]
fn deep_test_f32() {
    let mut buffer = dtoa::Buffer::new();
    let v = Value::Float(buffer.format(0.25f32).to_string());
    assert_eq!(
        DeepObject::to_string("color", &v, passthrough()).unwrap(),
        "color=0.25"
    );
}

#[test]
fn deep_test_f64() {
    let mut buffer = dtoa::Buffer::new();
    let v = Value::Float(buffer.format(0.25f64).to_string());
    assert_eq!(
        DeepObject::to_string("color", &v, passthrough()).unwrap(),
        "color=0.25"
    );
}

#[test]
fn deep_test_char() {
    assert_eq!(
        DeepObject::to_string("color", &Value::Char('d'), passthrough()).unwrap(),
        "color=d"
    );
}

#[test]
fn deep_test_str() {
    assert_eq!(
        DeepObject::to_string("color", &s("blue"), passthrough()).unwrap(),
        "color=blue"
    );
}

#[test]
fn deep_test_bytes() {
    let v = Value::Bytes(vec![98, 108, 117, 101]);
    assert_eq!(
        DeepObject::to_string("color", &v, passthrough()),
        Err(QuerylizerError::UnsupportedValue)
    );
}

#[test]
fn deep_test_none() {
    assert_eq!(
        DeepObject::to_string("color", &Value::Absent, passthrough()).unwrap(),
        "color="
    );
}

#[test]
fn deep_test_some() {
    let v = Value::Present(Box::new(Value::Unsigned(1)));
    assert_eq!(
        DeepObject::to_string("color", &v, passthrough()).unwrap(),
        "color=1"
    );
}

#[test]
fn deep_test_unit() {
    assert_eq!(
        DeepObject::to_string("color", &Value::Unit, passthrough()).unwrap(),
        "color="
    );
}

#[test]
fn deep_test_unit_struct() {
    let v = Value::Struct(vec![]);
    assert_eq!(
        DeepObject::to_string("color", &v, passthrough()),
        Err(QuerylizerError::UnsupportedValue)
    );
}

#[test]
fn deep_test_unit_variant() {
    let v = Value::UnitVariant("A".to_string());
    assert_eq!(
        DeepObject::to_string("color", &v, passthrough()).unwrap(),
        "color="
    );
}

#[test]
fn deep_test_newtype_struct() {
    let v = Value::NewtypeStruct(Box::new(Value::Unsigned(5)));
    assert_eq!(
        DeepObject::to_string("color", &v, passthrough()).unwrap(),
        "color=5"
    );
}

#[test]
fn deep_test_newtype_variant() {
    let v = Value::NewtypeVariant(Box::new(Value::Unsigned(5)));
    assert_eq!(
        DeepObject::to_string("color", &v, passthrough()).unwrap(),
        "color=5"
    );
}

#[test]
fn deep_test_seq() {
    let v = Value::Sequence(vec![s("blue"), s("black"), s("brown")]);
    assert_eq!(
        DeepObject::to_string("color", &v, passthrough()),
        Err(QuerylizerError::UnsupportedValue)
    );
}

#[test]
fn deep_test_tuple() {
    let v = Value::Tuple(vec![s("blue"), s("black"), s("brown")]);
    assert_eq!(
        DeepObject::to_string("color", &v, passthrough()),
        Err(QuerylizerError::UnsupportedValue)
    );
}

#[test]
fn deep_test_tuple_struct() {
    let v = Value::Tuple(vec![s("blue"), s("black"), s("brown")]);
    assert_eq!(
        DeepObject::to_string("color", &v, passthrough()),
        Err(QuerylizerError::UnsupportedValue)
    );
}

#[test]
fn deep_test_tuple_variant() {
    let v = Value::Tuple(vec![Value::Unsigned(5), Value::Char('f')]);
    assert_eq!(
        DeepObject::to_string("color", &v, passthrough()),
        Err(QuerylizerError::UnsupportedValue)
    );
}

#[test]
fn deep_test_map() {
    let v = Value::Mapping(vec![
        (s("B"), Value::Integer(150)),
        (s("G"), Value::Integer(200)),
        (s("R"), Value::Integer(100)),
    ]);
    assert_eq!(
        DeepObject::to_string("color", &v, passthrough()).unwrap(),
        "color[B]=150&color[G]=200&color[R]=100"
    );
}

#[test]
fn deep_test_struct() {
    let v = rgb_struct();
    assert_eq!(
        DeepObject::to_string("color", &v, passthrough()).unwrap(),
        "color[R]=100&color[G]=200&color[B]=150"
    );
}

#[test]
fn deep_test_struct_variant() {
    let v = Value::NewtypeVariant(Box::new(rgb_struct()));
    assert_eq!(
        DeepObject::to_string("color", &v, passthrough()).unwrap(),
        "color[R]=100&color[G]=200&color[B]=150"
    );
}

#[test]
fn deep_test_unsupported_nesting() {
    let v = Value::Struct(vec![("t".to_string(), rgb_struct())]);
    assert_eq!(
        DeepObject::to_string("color", &v, passthrough()),
        Err(QuerylizerError::UnsupportedNesting)
    );
}
