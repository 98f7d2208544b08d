//! Encoders for the OpenAPI parameter-serialization styles `simple`, `form`
//! and `deepObject`, plus a hybrid "deep form" style for request bodies.
//!
//! A caller builds a [`Value`] tree, picks an escaping policy, and hands both
//! to one of the style encoders, which renders the value as wire text or
//! reports a typed failure.
use vstd::prelude::*;

pub mod deep;
pub mod deepform;
pub mod escape;
pub mod form;
pub mod laws;
pub mod numtext;
pub mod render;
pub mod simple;
pub mod value;

pub use escape::encode_path;
pub use escape::encode_query;
pub use escape::encode_query_allow_reserved;
pub use escape::encode_www_form_urlencoded;
pub use escape::passthrough;
pub use deep::DeepObject;
pub use deepform::DeepForm;
pub use escape::EncodingFn;
pub use form::Form;
pub use simple::Simple;
pub use value::Value;

verus! {

/// A failure reported by one of the style encoders.
#[derive(Debug, PartialEq, Eq)]
pub enum QuerylizerError {
    /// The producer of the value tree itself failed; the message is passed
    /// through verbatim.
    SerializationError(String),
    /// A container was entered while already inside another container.
    UnsupportedNesting,
    /// The value's shape is structurally illegal for the style, or a
    /// container held no elements.
    UnsupportedValue,
    /// Reserved fallback; no encoder produces it.
    Unknown,
}

impl QuerylizerError {
    /// A short description of the failure, for error reports.
    pub fn message(&self) -> (r: &'static str)
        ensures
            r@ == message_text(*self),
    {
        match self {
            QuerylizerError::SerializationError(_) => "serialization error",
            QuerylizerError::UnsupportedNesting => "nested containers not supported",
            QuerylizerError::UnsupportedValue => "unsupported value",
            QuerylizerError::Unknown => "unknown error",
        }
    }
}

/// The text that [`QuerylizerError::message`] returns for each variant.
pub open spec fn message_text(e: QuerylizerError) -> Seq<char> {
    match e {
        QuerylizerError::SerializationError(_) => "serialization error"@,
        QuerylizerError::UnsupportedNesting => "nested containers not supported"@,
        QuerylizerError::UnsupportedValue => "unsupported value"@,
        QuerylizerError::Unknown => "unknown error"@,
    }
}

/// True of the shapes that render as a single escaped text span.
pub open spec fn spec_is_scalar(v: Value) -> bool {
    match v {
        Value::Bool(_) => true,
        Value::Integer(_) => true,
        Value::Unsigned(_) => true,
        Value::Float(_) => true,
        Value::Char(_) => true,
        Value::Str(_) => true,
        _ => false,
    }
}

} // verus!
