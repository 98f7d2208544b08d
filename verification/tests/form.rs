use querylizer::passthrough;
use querylizer::Form;
use querylizer::QuerylizerError;
use querylizer::Value;

fn s(text: &str) -> Value {
    Value::Str(text.to_string())
}

fn rgb_struct() -> Value {
    Value::Struct(vec![
        ("R".to_string(), Value::Unsigned(100)),
        ("G".to_string(), Value::Unsigned(200)),
        ("B".to_string(), Value::Unsigned(150)),
    ])
}

#[test]
fn form_test_bool() {
    assert_eq!(
        Form::to_string("color", &Value::Bool(true), false, passthrough()),
        Err(QuerylizerError::UnsupportedValue)
    );
}

#[test]
fn form_test_i8() {
    let v = Value::Integer(-1i8 as i128);
    assert_eq!(
        Form::to_string("color", &v, false, passthrough()).unwrap(),
        "color=-1"
    );
}

#[test]
fn form_test_i16() {
    let v = Value::Integer(-1i16 as i128);
    assert_eq!(
        Form::to_string("color", &v, false, passthrough()).unwrap(),
        "color=-1"
    );
}

#[test]
fn form_test_i32() {
    let v = Value::Integer(-1i32 as i128);
    assert_eq!(
        Form::to_string("color", &v, false, passthrough()).unwrap(),
        "color=-1"
    );
}

#[test]
fn form_test_i64() {
    let v = Value::Integer(-1i64 as i128);
    assert_eq!(
        Form::to_string("color", &v, false, passthrough()).unwrap(),
        "color=-1"
    );
}

#[test]
fn form_test_i128() {
    let v = Value::Integer(-1i128);
    assert_eq!(
        Form::to_string("color", &v, false, passthrough()).unwrap(),
        "color=-1"
    );
}

#[test]
fn form_test_u8() {
    let v = Value::Unsigned(1u8 as u128);
    assert_eq!(
        Form::to_string("color", &v, false, passthrough()).unwrap(),
        "color=1"
    );
}

#[test]
fn form_test_u16() {
    let v = Value::Unsigned(1u16 as u128);
    assert_eq!(
        Form::to_string("color", &v, false, passthrough()).unwrap(),
        "color=1"
    );
}

#[test]
fn form_test_u32() {
    let v = Value::Unsigned(1u32 as u128);
    assert_eq!(
        Form::to_string("color", &v, false, passthrough()).unwrap(),
        "color=1"
    );
}

#[test]
fn form_test_u64() {
    let v = Value::Unsigned(1u64 as u128);
    assert_eq!(
        Form::to_string("color", &v, false, passthrough()).unwrap(),
        "color=1"
    );
}

#[test]
fn form_test_u128() {
    let v = Value::Unsigned(1u128);
    assert_eq!(
        Form::to_string("color", &v, false, passthrough()).unwrap(),
        "color=1"
    );
}

#[test]
fn form_test_f32() {
    let mut buffer = dtoa::Buffer::new();
    let v = Value::Float(buffer.format(0.25f32).to_string());
    assert_eq!(
        Form::to_string("color", &v, false, passthrough()).unwrap(),
        "color=0.25"
    );
}

#[test]
fn form_test_f64() {
    let mut buffer = dtoa::Buffer::new();
    let v = Value::Float(buffer.format(0.25f64).to_string());
    assert_eq!(
        Form::to_string("color", &v, false, passthrough()).unwrap(),
        "color=0.25"
    );
}

#[test]
fn form_test_char() {
    assert_eq!(
        Form::to_string("color", &Value::Char('d'), false, passthrough()).unwrap(),
        "color=d"
    );
}

#[test]
fn form_test_str() {
    assert_eq!(
        Form::to_string("color", &s("blue"), false, passthrough()).unwrap(),
        "color=blue"
    );
}

#[test]
fn form_test_bytes() {
    let v = Value::Bytes(vec![98, 108, 117, 101]);
    assert_eq!(
        Form::to_string("color", &v, false, passthrough()).unwrap(),
        "color=98,108,117,101"
    );
    assert_eq!(
        Form::to_string("color", &v, true, passthrough()).unwrap(),
        "color=98&color=108&color=117&color=101"
    );
}

#[test]
fn form_test_none() {
    assert_eq!(
        Form::to_string("color", &Value::Absent, false, passthrough()).unwrap(),
        "color="
    );
}

#[test]
fn form_test_some() {
    let v = Value::Present(Box::new(Value::Unsigned(1)));
    assert_eq!(
        Form::to_string("color", &v, false, passthrough()).unwrap(),
        "color=1"
    );
}

#[test]
fn form_test_unit() {
    assert_eq!(
        Form::to_string("color", &Value::Unit, false, passthrough()).unwrap(),
        "color="
    );
}

#[test]
fn form_test_unit_struct() {
    let v = Value::Struct(vec![]);
    assert_eq!(
        Form::to_string("color", &v, false, passthrough()),
        Err(QuerylizerError::UnsupportedValue)
    );
}

#[test]
fn form_test_unit_variant() {
    let v = Value::UnitVariant("A".to_string());
    assert_eq!(
        Form::to_string("color", &v, false, passthrough()).unwrap(),
        "color="
    );
}

#[test]
fn form_test_newtype_struct() {
    let v = Value::NewtypeStruct(Box::new(Value::Unsigned(5)));
    assert_eq!(
        Form::to_string("color", &v, false, passthrough()).unwrap(),
        "color=5"
    );
}

#[test]
fn form_test_newtype_variant() {
    let v = Value::NewtypeVariant(Box::new(Value::Unsigned(5)));
    assert_eq!(
        Form::to_string("color", &v, false, passthrough()).unwrap(),
        "color=5"
    );
}

#[test]
fn form_test_seq() {
    let v = Value::Sequence(vec![s("blue"), s("black"), s("brown")]);
    assert_eq!(
        Form::to_string("color", &v, false, passthrough()).unwrap(),
        "color=blue,black,brown"
    );
    assert_eq!(
        Form::to_string("color", &v, true, passthrough()).unwrap(),
        "color=blue&color=black&color=brown"
    );
}

#[test]
fn form_test_tuple() {
    let v = Value::Tuple(vec![s("blue"), s("black"), s("brown")]);
    assert_eq!(
        Form::to_string("color", &v, false, passthrough()).unwrap(),
        "color=blue,black,brown"
    );
    assert_eq!(
        Form::to_string("color", &v, true, passthrough()).unwrap(),
        "color=blue&color=black&color=brown"
    );
}

#[test]
fn form_test_tuple_struct() {
    let v = Value::Tuple(vec![s("blue"), s("black"), s("brown")]);
    assert_eq!(
        Form::to_string("color", &v, false, passthrough()).unwrap(),
        "color=blue,black,brown"
    );
    assert_eq!(
        Form::to_string("color", &v, true, passthrough()).unwrap(),
        "color=blue&color=black&color=brown"
    );
}

#[test]
fn form_test_tuple_variant() {
    let v = Value::Tuple(vec![Value::Unsigned(5), Value::Char('f')]);
    assert_eq!(
        Form::to_string("color", &v, false, passthrough()).unwrap(),
        "color=5,f"
    );
}

#[test]
fn form_test_map() {
    let v = Value::Mapping(vec![
        (s("B"), Value::Integer(150)),
        (s("G"), Value::Integer(200)),
        (s("R"), Value::Integer(100)),
    ]);
    assert_eq!(
        Form::to_string("color", &v, false, passthrough()).unwrap(),
        "color=B,150,G,200,R,100"
    );
    assert_eq!(
        Form::to_string("color", &v, true, passthrough()).unwrap(),
        "B=150&G=200&R=100"
    );
}

#[test]
fn form_test_struct() {
    let v = rgb_struct();
    assert_eq!(
        Form::to_string("color", &v, false, passthrough()).unwrap(),
        "color=R,100,G,200,B,150"
    );
    assert_eq!(
        Form::to_string("color", &v, true, passthrough()).unwrap(),
        "R=100&G=200&B=150"
    );
}

#[test]
fn form_test_struct_variant() {
    let v = Value::NewtypeVariant(Box::new(rgb_struct()));
    assert_eq!(
        Form::to_string("color", &v, false, passthrough()).unwrap(),
        "color=R,100,G,200,B,150"
    );
    assert_eq!(
        Form::to_string("color", &v, true, passthrough()).unwrap(),
        "R=100&G=200&B=150"
    );
}

#[test]
fn form_test_unsupported_nesting() {
    let v = Value::Struct(vec![("t".to_string(), rgb_struct())]);
    assert_eq!(
        Form::to_string("color", &v, false, passthrough()),
        Err(QuerylizerError::UnsupportedNesting)
    );
}
