//! Rendering of scalar values as escaped text, shared by every style
//! encoder.
use vstd::prelude::*;

use crate::escape::esc;
use crate::escape::escape_char_value_into;
use crate::escape::escape_into;
use crate::escape::EncodingFn;
use crate::numtext::dec_int;
use crate::numtext::dec_nat;
use crate::numtext::format_i128;
use crate::numtext::format_u128;
use crate::spec_is_scalar;
use crate::value::Value;

verus! {

/// The text of a boolean: `true` or `false`.
pub open spec fn bool_text(b: bool) -> Seq<char> {
    if b {
        "true"@
    } else {
        "false"@
    }
}

/// The unescaped text of a scalar value: the boolean words, the decimal
/// digits of an integer, the carried text of a float, the character
/// itself, or the string itself.
pub open spec fn scalar_text(v: Value) -> Seq<char> {
    match v {
        Value::Bool(b) => bool_text(b),
        Value::Integer(i) => dec_int(i as int),
        Value::Unsigned(u) => dec_nat(u as nat),
        Value::Float(t) => t@,
        Value::Char(c) => seq![c],
        Value::Str(s) => s@,
        _ => Seq::empty(),
    }
}

/// Appends the escaped text of a scalar value to `out`.
pub(crate) fn write_scalar(out: &mut String, p: &EncodingFn, v: &Value)
    requires
        spec_is_scalar(*v),
    ensures
        final(out)@ == old(out)@ + esc(*p, scalar_text(*v)),
{
    match v {
        Value::Bool(b) => {
            if *b {
                escape_into(out, p, "true");
            } else {
                escape_into(out, p, "false");
            }
        },
        Value::Integer(i) => {
            let t = format_i128(*i);
            escape_into(out, p, t.as_str());
        },
        Value::Unsigned(u) => {
            let t = format_u128(*u);
            escape_into(out, p, t.as_str());
        },
        Value::Float(t) => {
            escape_into(out, p, t.as_str());
        },
        Value::Char(c) => {
            escape_char_value_into(out, p, *c);
        },
        Value::Str(s) => {
            escape_into(out, p, s.as_str());
        },
        _ => {
        },
    }
}

/// Appends the escaped decimal text of one byte to `out`.
pub(crate) fn write_byte_text(out: &mut String, p: &EncodingFn, b: u8)
    ensures
        final(out)@ == old(out)@ + esc(*p, dec_nat(b as nat)),
{
    let t = format_u128(b as u128);
    escape_into(out, p, t.as_str());
}

} // verus!
