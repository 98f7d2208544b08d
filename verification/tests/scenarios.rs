use querylizer::encode_path;
use querylizer::encode_query;
use querylizer::encode_www_form_urlencoded;
use querylizer::passthrough;
use querylizer::DeepForm;
use querylizer::DeepObject;
use querylizer::Form;
use querylizer::QuerylizerError;
use querylizer::Simple;
use querylizer::Value;

fn s(text: &str) -> Value {
    Value::Str(text.to_string())
}

#[test]
fn form_boolean_unsupported() {
    assert_eq!(
        Form::to_string("color", &Value::Bool(true), false, passthrough()),
        Err(QuerylizerError::UnsupportedValue)
    );
}

#[test]
fn simple_path_escaped_list() {
    let v = Value::Sequence(vec![s("blue"), s("moon")]);
    assert_eq!(
        Simple::to_string(&v, false, &encode_path()).unwrap(),
        "blue,moon"
    );
}

#[test]
fn deep_object_rgb() {
    let v = Value::Mapping(vec![
        (s("R"), Value::Integer(100)),
        (s("G"), Value::Integer(200)),
        (s("B"), Value::Integer(150)),
    ]);
    assert_eq!(
        DeepObject::to_string("color", &v, passthrough()).unwrap(),
        "color[R]=100&color[G]=200&color[B]=150"
    );
}

#[test]
fn form_some_renders_inner() {
    let v = Value::Present(Box::new(Value::Unsigned(1)));
    assert_eq!(
        Form::to_string("color", &v, false, passthrough()).unwrap(),
        "color=1"
    );
}

#[test]
fn deepform_mixed_flat_and_deep() {
    let y = Value::Struct(vec![
        ("a".to_string(), Value::Integer(12)),
        ("b".to_string(), s("#hello")),
    ]);
    let v = Value::Struct(vec![
        ("x".to_string(), Value::Integer(36)),
        ("y".to_string(), y),
    ]);
    let deep = vec!["y".to_string()];
    assert_eq!(
        DeepForm::to_string("value", &v, &encode_www_form_urlencoded(), &deep).unwrap(),
        "x=36&y[a]=12&y[b]=%23hello"
    );
}

#[test]
fn simple_extend_appends() {
    let mut out = "https://example.com/v1/".to_string();
    let v = Value::Sequence(vec![s("blue"), s("moon")]);
    Simple::extend(&mut out, &v, false, &encode_path()).unwrap();
    assert_eq!(out, "https://example.com/v1/blue,moon");
}

#[test]
fn form_extend_appends() {
    let v = Value::Struct(vec![
        ("a".to_string(), Value::Integer(12)),
        ("b".to_string(), s("#hello")),
    ]);
    let mut out = "https://example.com/v1/?".to_string();
    Form::extend(&mut out, "value", &v, true, encode_query()).unwrap();
    assert_eq!(out, "https://example.com/v1/?a=12&b=%23hello");
}

#[test]
fn form_flat_struct_escapes_values() {
    let v = Value::Struct(vec![
        ("a".to_string(), Value::Integer(12)),
        ("b".to_string(), s("#hello")),
    ]);
    assert_eq!(
        Form::to_string("value", &v, false, encode_query()).unwrap(),
        "value=a,12,b,%23hello"
    );
}

#[test]
fn deep_object_extend_appends() {
    let v = Value::Struct(vec![
        ("a".to_string(), Value::Integer(12)),
        ("b".to_string(), s("#hello")),
    ]);
    let mut out = "https://example.com/v1/?".to_string();
    DeepObject::extend(&mut out, "value", &v, encode_query()).unwrap();
    assert_eq!(out, "https://example.com/v1/?value[a]=12&value[b]=%23hello");
}

#[test]
fn deepform_extend_appends() {
    let v = Value::Struct(vec![
        ("x".to_string(), Value::Integer(36)),
        ("y".to_string(), s("z")),
    ]);
    let mut out = String::new();
    DeepForm::extend(&mut out, "value", &v, &passthrough(), &Vec::new()).unwrap();
    assert_eq!(out, "x=36&y=z");
}

#[test]
fn empty_containers_rejected_every_style() {
    let empties = [
        Value::Sequence(vec![]),
        Value::Tuple(vec![]),
        Value::Mapping(vec![]),
        Value::Struct(vec![]),
        Value::StructVariant("V".to_string(), vec![]),
        Value::Bytes(vec![]),
    ];
    for v in &empties {
        assert_eq!(
            Simple::to_string(v, false, &passthrough()),
            Err(QuerylizerError::UnsupportedValue)
        );
        assert_eq!(
            Form::to_string("n", v, false, passthrough()),
            Err(QuerylizerError::UnsupportedValue)
        );
        assert_eq!(
            DeepForm::to_string("n", v, &passthrough(), &Vec::new()),
            Err(QuerylizerError::UnsupportedValue)
        );
    }
    assert_eq!(
        DeepObject::to_string("n", &Value::Mapping(vec![]), passthrough()),
        Err(QuerylizerError::UnsupportedValue)
    );
    assert_eq!(
        DeepObject::to_string("n", &Value::Struct(vec![]), passthrough()),
        Err(QuerylizerError::UnsupportedValue)
    );
    assert_eq!(
        DeepObject::to_string("n", &Value::StructVariant("V".to_string(), vec![]), passthrough()),
        Err(QuerylizerError::UnsupportedValue)
    );
}

#[test]
fn nested_containers_rejected_every_style() {
    let inner = Value::Sequence(vec![s("x")]);
    let outer_seq = Value::Sequence(vec![inner]);
    assert_eq!(
        Simple::to_string(&outer_seq, false, &passthrough()),
        Err(QuerylizerError::UnsupportedNesting)
    );
    assert_eq!(
        Form::to_string("n", &outer_seq, false, passthrough()),
        Err(QuerylizerError::UnsupportedNesting)
    );
    assert_eq!(
        DeepForm::to_string("n", &outer_seq, &passthrough(), &Vec::new()),
        Err(QuerylizerError::UnsupportedNesting)
    );
    let nested_map = Value::Mapping(vec![(
        s("k"),
        Value::Mapping(vec![(s("a"), Value::Integer(1))]),
    )]);
    assert_eq!(
        DeepObject::to_string("n", &nested_map, passthrough()),
        Err(QuerylizerError::UnsupportedNesting)
    );
}

#[test]
fn simple_exploded_map_uses_equals() {
    let v = Value::Mapping(vec![
        (s("a"), Value::Integer(1)),
        (s("b"), Value::Integer(2)),
    ]);
    assert_eq!(
        Simple::to_string(&v, true, &passthrough()).unwrap(),
        "a=1,b=2"
    );
    assert_eq!(
        Simple::to_string(&v, false, &passthrough()).unwrap(),
        "a,1,b,2"
    );
}

#[test]
fn form_single_element_sequence() {
    let v = Value::Sequence(vec![s("only")]);
    assert_eq!(
        Form::to_string("n", &v, true, passthrough()).unwrap(),
        "n=only"
    );
    assert_eq!(
        Form::to_string("n", &v, false, passthrough()).unwrap(),
        "n=only"
    );
}

#[test]
fn nested_newtype_wrappers_unwrap() {
    let v = Value::NewtypeStruct(Box::new(Value::NewtypeVariant(Box::new(Value::Present(
        Box::new(s("deep")),
    )))));
    assert_eq!(
        Form::to_string("n", &v, false, passthrough()).unwrap(),
        "n=deep"
    );
}

#[test]
fn name_is_escaped_too() {
    let v = Value::Integer(1);
    assert_eq!(
        Form::to_string("a b", &v, false, encode_query()).unwrap(),
        "a%20b=1"
    );
    assert_eq!(
        DeepObject::to_string("a b", &rgb_one(), encode_query()).unwrap(),
        "a%20b[k]=1"
    );
}

fn rgb_one() -> Value {
    Value::Struct(vec![("k".to_string(), Value::Integer(1))])
}

#[test]
fn deepform_deep_scalar_field() {
    let v = Value::Struct(vec![("y".to_string(), Value::Integer(7))]);
    let deep = vec!["y".to_string()];
    assert_eq!(
        DeepForm::to_string("n", &v, &passthrough(), &deep).unwrap(),
        "y=7"
    );
}

#[test]
fn deepform_deep_field_with_sequence_rejected() {
    let v = Value::Struct(vec![("y".to_string(), Value::Sequence(vec![s("a")]))]);
    let deep = vec!["y".to_string()];
    assert_eq!(
        DeepForm::to_string("n", &v, &passthrough(), &deep),
        Err(QuerylizerError::UnsupportedValue)
    );
}

#[test]
fn form_extend_keeps_buffer_on_error() {
    let mut out = "https://example.com/v1/?".to_string();
    let r = Form::extend(&mut out, "n", &Value::Bool(true), false, passthrough());
    assert_eq!(r, Err(QuerylizerError::UnsupportedValue));
    assert!(out.starts_with("https://example.com/v1/?"));
}
