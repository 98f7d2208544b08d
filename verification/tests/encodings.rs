use querylizer::encode_path;
use querylizer::encode_query;
use querylizer::encode_query_allow_reserved;
use querylizer::encode_www_form_urlencoded;
use querylizer::passthrough;
use querylizer::QuerylizerError;
use querylizer::Value;

#[test]
fn escape_passthrough_identity() {
    let p = passthrough();
    assert_eq!(p.escape("a red&car~ /?#[]+é"), "a red&car~ /?#[]+é");
}

#[test]
fn escape_path_set() {
    let p = encode_path();
    assert_eq!(p.escape("abc019-._~"), "abc019-._~");
    assert_eq!(p.escape("!$&'()*+,;=:@"), "!$&'()*+,;=:@");
    assert_eq!(p.escape("a/b c"), "a%2Fb%20c");
    assert_eq!(p.escape("?#"), "%3F%23");
}

#[test]
fn escape_query_set() {
    let p = encode_query();
    assert_eq!(p.escape("a red&car~"), "a%20red&car~");
    assert_eq!(p.escape("a/blue=boat"), "a/blue=boat");
    assert_eq!(p.escape("+"), "%2B");
    assert_eq!(p.escape("/?"), "/?");
    assert_eq!(p.escape("#[]"), "%23%5B%5D");
}

#[test]
fn escape_query_allow_reserved_set() {
    let p = encode_query_allow_reserved();
    assert_eq!(p.escape("#[]:/?@"), "#[]:/?@");
    assert_eq!(p.escape("+"), "%2B");
    assert_eq!(p.escape("a red"), "a%20red");
}

#[test]
fn escape_www_form_urlencoded_set() {
    let p = encode_www_form_urlencoded();
    assert_eq!(p.escape("abc019*-._"), "abc019*-._");
    assert_eq!(p.escape("a red&car~"), "a%20red%26car%7E");
    assert_eq!(p.escape("a/blue=boat"), "a%2Fblue%3Dboat");
}

#[test]
fn escape_multibyte_utf8() {
    let p = encode_query();
    assert_eq!(p.escape("é"), "%C3%A9");
    assert_eq!(p.escape("€"), "%E2%82%AC");
    assert_eq!(p.escape("😀"), "%F0%9F%98%80");
    assert_eq!(p.escape("aé"), "a%C3%A9");
}

#[test]
fn integer_extremes() {
    let v = Value::Integer(i128::MIN);
    assert_eq!(
        querylizer::Simple::to_string(&v, false, &passthrough()).unwrap(),
        "-170141183460469231731687303715884105728"
    );
    let v = Value::Unsigned(u128::MAX);
    assert_eq!(
        querylizer::Simple::to_string(&v, false, &passthrough()).unwrap(),
        "340282366920938463463374607431768211455"
    );
    let v = Value::Integer(0);
    assert_eq!(
        querylizer::Simple::to_string(&v, false, &passthrough()).unwrap(),
        "0"
    );
}

#[test]
fn error_messages() {
    assert_eq!(
        QuerylizerError::SerializationError("boom".to_string()).message(),
        "serialization error"
    );
    assert_eq!(
        QuerylizerError::UnsupportedNesting.message(),
        "nested containers not supported"
    );
    assert_eq!(QuerylizerError::UnsupportedValue.message(), "unsupported value");
    assert_eq!(QuerylizerError::Unknown.message(), "unknown error");
}
