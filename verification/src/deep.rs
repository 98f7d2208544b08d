//! The `deepObject` style: a map or struct rendered as bracketed
//! `name[key]=value` pairs joined by `&`.
//!
//! Only object-shaped top-level values are legal; sequences, tuples and
//! byte strings are rejected as unsupported values.  A scalar or missing
//! value at the very top level degenerates to `name=text`.  Containers
//! nested inside a field value are a nesting violation: exactly one level
//! of object structure is representable.
use vstd::prelude::*;

use crate::escape::esc;
use crate::escape::escape_into;
use crate::escape::push_char;
use crate::escape::EncodingFn;
use crate::form::write_name_eq;
use crate::render::scalar_text;
use crate::render::write_scalar;
use crate::spec_is_scalar;
use crate::value::Value;
use crate::QuerylizerError;

verus! {

/// Rendering of one key or field value inside an object, `deepObject`
/// style.  Sequence-shaped values are illegal for the style everywhere;
/// missing, unit and object-shaped values open a second level and are a
/// nesting violation.
pub open spec fn deep_elem(v: Value, p: EncodingFn) -> Result<Seq<char>, QuerylizerError>
    decreases v,
{
    if spec_is_scalar(v) {
        Ok(esc(p, scalar_text(v)))
    } else {
        match v {
            Value::NewtypeStruct(b) => deep_elem(*b, p),
            Value::NewtypeVariant(b) => deep_elem(*b, p),
            Value::Bytes(_) => Err(QuerylizerError::UnsupportedValue),
            Value::Sequence(_) => Err(QuerylizerError::UnsupportedValue),
            Value::Tuple(_) => Err(QuerylizerError::UnsupportedValue),
            _ => Err(QuerylizerError::UnsupportedNesting),
        }
    }
}

/// Rendering of one map pair: `name[key]=value`, all parts escaped.
pub open spec fn deep_pair(name: Seq<char>, k: Value, v: Value, p: EncodingFn) -> Result<
    Seq<char>,
    QuerylizerError,
> {
    match deep_elem(k, p) {
        Err(e) => Err(e),
        Ok(kt) => match deep_elem(v, p) {
            Err(e) => Err(e),
            Ok(vt) => Ok(esc(p, name) + seq!['['] + kt + seq![']', '='] + vt),
        },
    }
}

/// Rendering of a map's pairs, `&`-joined.
pub open spec fn deep_pairs(
    pairs: Seq<(Value, Value)>,
    name: Seq<char>,
    p: EncodingFn,
) -> Result<Seq<char>, QuerylizerError>
    decreases pairs.len(),
{
    if pairs.len() == 0 {
        Ok(Seq::empty())
    } else {
        match deep_pairs(pairs.drop_last(), name, p) {
            Err(e) => Err(e),
            Ok(prefix) => match deep_pair(name, pairs.last().0, pairs.last().1, p) {
                Err(e) => Err(e),
                Ok(t) => Ok(
                    if pairs.len() == 1 {
                        t
                    } else {
                        prefix + seq!['&'] + t
                    },
                ),
            },
        }
    }
}

/// Rendering of one struct field: `name[field]=value`, all parts escaped.
pub open spec fn deep_field(name: Seq<char>, key: Seq<char>, v: Value, p: EncodingFn) -> Result<
    Seq<char>,
    QuerylizerError,
> {
    match deep_elem(v, p) {
        Err(e) => Err(e),
        Ok(vt) => Ok(esc(p, name) + seq!['['] + esc(p, key) + seq![']', '='] + vt),
    }
}

/// Rendering of a struct's fields, `&`-joined.
pub open spec fn deep_fields(
    fields: Seq<(String, Value)>,
    name: Seq<char>,
    p: EncodingFn,
) -> Result<Seq<char>, QuerylizerError>
    decreases fields.len(),
{
    if fields.len() == 0 {
        Ok(Seq::empty())
    } else {
        match deep_fields(fields.drop_last(), name, p) {
            Err(e) => Err(e),
            Ok(prefix) => match deep_field(name, fields.last().0@, fields.last().1, p) {
                Err(e) => Err(e),
                Ok(t) => Ok(
                    if fields.len() == 1 {
                        t
                    } else {
                        prefix + seq!['&'] + t
                    },
                ),
            },
        }
    }
}

/// The complete `deepObject` rendering of a top-level value: the produced
/// text, or the first failure encountered in the traversal order.
pub open spec fn deep_output(v: Value, name: Seq<char>, p: EncodingFn) -> Result<
    Seq<char>,
    QuerylizerError,
>
    decreases v,
{
    if spec_is_scalar(v) {
        Ok(esc(p, name) + seq!['='] + esc(p, scalar_text(v)))
    } else {
        match v {
            Value::NewtypeStruct(b) => deep_output(*b, name, p),
            Value::NewtypeVariant(b) => deep_output(*b, name, p),
            Value::Present(b) => deep_output(*b, name, p),
            Value::Absent => Ok(esc(p, name) + seq!['=']),
            Value::Unit => Ok(esc(p, name) + seq!['=']),
            Value::UnitVariant(_) => Ok(esc(p, name) + seq!['=']),
            Value::UnitStruct => Err(QuerylizerError::UnsupportedNesting),
            Value::Mapping(pairs) => match deep_pairs(pairs@, name, p) {
                Err(e) => Err(e),
                Ok(t) => if pairs@.len() == 0 {
                    Err(QuerylizerError::UnsupportedValue)
                } else {
                    Ok(t)
                },
            },
            Value::Struct(fields) => match deep_fields(fields@, name, p) {
                Err(e) => Err(e),
                Ok(t) => if fields@.len() == 0 {
                    Err(QuerylizerError::UnsupportedValue)
                } else {
                    Ok(t)
                },
            },
            Value::StructVariant(_, fields) => match deep_fields(fields@, name, p) {
                Err(e) => Err(e),
                Ok(t) => if fields@.len() == 0 {
                    Err(QuerylizerError::UnsupportedValue)
                } else {
                    Ok(t)
                },
            },
            _ => Err(QuerylizerError::UnsupportedValue),
        }
    }
}

proof fn lemma_deep_pairs_err(pairs: Seq<(Value, Value)>, name: Seq<char>, p: EncodingFn, j: int)
    requires
        0 <= j <= pairs.len(),
        deep_pairs(pairs.take(j), name, p) is Err,
    ensures
        deep_pairs(pairs, name, p) == deep_pairs(pairs.take(j), name, p),
    decreases pairs.len(),
{
    if j == pairs.len() {
        assert(pairs.take(j) =~= pairs);
    } else {
        let front = pairs.drop_last();
        assert(front.take(j) =~= pairs.take(j));
        lemma_deep_pairs_err(front, name, p, j);
    }
}

pub(crate) proof fn lemma_deep_fields_err(fields: Seq<(String, Value)>, name: Seq<char>, p: EncodingFn, j: int)
    requires
        0 <= j <= fields.len(),
        deep_fields(fields.take(j), name, p) is Err,
    ensures
        deep_fields(fields, name, p) == deep_fields(fields.take(j), name, p),
    decreases fields.len(),
{
    if j == fields.len() {
        assert(fields.take(j) =~= fields);
    } else {
        let front = fields.drop_last();
        assert(front.take(j) =~= fields.take(j));
        lemma_deep_fields_err(front, name, p, j);
    }
}

/// Writes one key or field value; on failure the buffer is unchanged.
fn write_elem(out: &mut String, v: &Value, p: &EncodingFn) -> (r: Result<(), QuerylizerError>)
    ensures
        match deep_elem(*v, *p) {
            Ok(t) => r is Ok && final(out)@ == old(out)@ + t,
            Err(e) => r == Err::<(), QuerylizerError>(e) && final(out)@ == old(out)@,
        },
    decreases v,
{
    match v {
        Value::Bool(_) | Value::Integer(_) | Value::Unsigned(_) | Value::Float(_) | Value::Char(_)
            | Value::Str(_) => {
            write_scalar(out, p, v);
            Ok(())
        },
        Value::NewtypeStruct(b) => write_elem(out, &**b, p),
        Value::NewtypeVariant(b) => write_elem(out, &**b, p),
        Value::Bytes(_) | Value::Sequence(_) | Value::Tuple(_) => Err(
            QuerylizerError::UnsupportedValue,
        ),
        _ => Err(QuerylizerError::UnsupportedNesting),
    }
}

/// Writes a map's pairs as `name[key]=value`, `&`-joined.
#[verifier::rlimit(50)]
fn write_pairs(out: &mut String, pairs: &Vec<(Value, Value)>, name: &str, p: &EncodingFn) -> (r:
    Result<(), QuerylizerError>)
    ensures
        match deep_pairs(pairs@, name@, *p) {
            Ok(t) => r is Ok && final(out)@ == old(out)@ + t,
            Err(e) => r == Err::<(), QuerylizerError>(e) && old(out)@.is_prefix_of(final(out)@),
        },
{
    let n = pairs.len();
    let mut i: usize = 0;
    while i < n
        invariant
            n == pairs@.len(),
            0 <= i <= n,
            deep_pairs(pairs@.take(i as int), name@, *p) is Ok,
            out@ == old(out)@ + deep_pairs(pairs@.take(i as int), name@, *p)->Ok_0,
        decreases n - i,
    {
        if i > 0 {
            push_char(out, '&');
        }
        proof {
            assert(pairs@.take(i + 1 as int).drop_last() =~= pairs@.take(i as int));
            assert(pairs@.take(i + 1 as int).last() == pairs@[i as int]);
        }
        escape_into(out, p, name);
        push_char(out, '[');
        let r = write_elem(out, &pairs[i].0, p);
        match r {
            Err(e) => {
                proof {
                    lemma_deep_pairs_err(pairs@, name@, *p, i + 1 as int);
                }
                return Err(e);
            },
            Ok(()) => {
            },
        }
        push_char(out, ']');
        push_char(out, '=');
        let r = write_elem(out, &pairs[i].1, p);
        match r {
            Err(e) => {
                proof {
                    lemma_deep_pairs_err(pairs@, name@, *p, i + 1 as int);
                }
                return Err(e);
            },
            Ok(()) => {
            },
        }
        proof {
            assert(out@ =~= old(out)@ + deep_pairs(pairs@.take(i + 1 as int), name@, *p)->Ok_0);
        }
        i = i + 1;
    }
    proof {
        assert(pairs@.take(n as int) =~= pairs@);
    }
    Ok(())
}

/// Writes a struct's fields as `name[field]=value`, `&`-joined.
#[verifier::rlimit(50)]
fn write_fields(out: &mut String, fields: &Vec<(String, Value)>, name: &str, p: &EncodingFn) -> (r:
    Result<(), QuerylizerError>)
    ensures
        match deep_fields(fields@, name@, *p) {
            Ok(t) => r is Ok && final(out)@ == old(out)@ + t,
            Err(e) => r == Err::<(), QuerylizerError>(e) && old(out)@.is_prefix_of(final(out)@),
        },
{
    let n = fields.len();
    let mut i: usize = 0;
    while i < n
        invariant
            n == fields@.len(),
            0 <= i <= n,
            deep_fields(fields@.take(i as int), name@, *p) is Ok,
            out@ == old(out)@ + deep_fields(fields@.take(i as int), name@, *p)->Ok_0,
        decreases n - i,
    {
        if i > 0 {
            push_char(out, '&');
        }
        proof {
            assert(fields@.take(i + 1 as int).drop_last() =~= fields@.take(i as int));
            assert(fields@.take(i + 1 as int).last() == fields@[i as int]);
        }
        escape_into(out, p, name);
        push_char(out, '[');
        escape_into(out, p, fields[i].0.as_str());
        push_char(out, ']');
        push_char(out, '=');
        let r = write_elem(out, &fields[i].1, p);
        match r {
            Err(e) => {
                proof {
                    lemma_deep_fields_err(fields@, name@, *p, i + 1 as int);
                }
                return Err(e);
            },
            Ok(()) => {
            },
        }
        proof {
            assert(out@ =~= old(out)@ + deep_fields(fields@.take(i + 1 as int), name@, *p)->Ok_0);
        }
        i = i + 1;
    }
    proof {
        assert(fields@.take(n as int) =~= fields@);
    }
    Ok(())
}

/// Writes the complete `deepObject` rendering of a top-level value.
pub(crate) fn write_deep_value(out: &mut String, name: &str, v: &Value, p: &EncodingFn) -> (r:
    Result<(), QuerylizerError>)
    ensures
        match deep_output(*v, name@, *p) {
            Ok(t) => r is Ok && final(out)@ == old(out)@ + t,
            Err(e) => r == Err::<(), QuerylizerError>(e) && old(out)@.is_prefix_of(final(out)@),
        },
    decreases v,
{
    match v {
        Value::Bool(_) | Value::Integer(_) | Value::Unsigned(_) | Value::Float(_) | Value::Char(_)
            | Value::Str(_) => {
            write_name_eq(out, name, p);
            write_scalar(out, p, v);
            Ok(())
        },
        Value::NewtypeStruct(b) => write_deep_value(out, name, &**b, p),
        Value::NewtypeVariant(b) => write_deep_value(out, name, &**b, p),
        Value::Present(b) => write_deep_value(out, name, &**b, p),
        Value::Absent | Value::Unit | Value::UnitVariant(_) => {
            write_name_eq(out, name, p);
            Ok(())
        },
        Value::UnitStruct => Err(QuerylizerError::UnsupportedNesting),
        Value::Mapping(pairs) => {
            if pairs.len() == 0 {
                Err(QuerylizerError::UnsupportedValue)
            } else {
                write_pairs(out, pairs, name, p)
            }
        },
        Value::Struct(fields) => {
            if fields.len() == 0 {
                Err(QuerylizerError::UnsupportedValue)
            } else {
                write_fields(out, fields, name, p)
            }
        },
        Value::StructVariant(_, fields) => {
            if fields.len() == 0 {
                Err(QuerylizerError::UnsupportedValue)
            } else {
                write_fields(out, fields, name, p)
            }
        },
        Value::Bytes(_) | Value::Sequence(_) | Value::Tuple(_) => Err(
            QuerylizerError::UnsupportedValue,
        ),
    }
}

/// The `deepObject` style encoder.
pub struct DeepObject;

impl DeepObject {
    /// Renders `value` in the `deepObject` style into a fresh string.
    ///
    /// Returns exactly the text of [`deep_output`], or its failure.
    pub fn to_string(name: &str, value: &Value, encoder: EncodingFn) -> (r: Result<
        String,
        QuerylizerError,
    >)
        ensures
            match deep_output(*value, name@, encoder) {
                Ok(t) => r is Ok && r->Ok_0@ == t,
                Err(e) => r == Err::<String, QuerylizerError>(e),
            },
    {
        let mut out = String::new();
        match write_deep_value(&mut out, name, value, &encoder) {
            Ok(()) => Ok(out),
            Err(e) => Err(e),
        }
    }

    /// Appends the `deepObject` rendering of `value` to `output`.
    ///
    /// On success exactly the text of [`deep_output`] is appended; on
    /// failure the buffer keeps its old contents as a prefix and may have
    /// gained a partial fragment.
    pub fn extend(output: &mut String, name: &str, value: &Value, encoder: EncodingFn) -> (r:
        Result<(), QuerylizerError>)
        ensures
            match deep_output(*value, name@, encoder) {
                Ok(t) => r is Ok && final(output)@ == old(output)@ + t,
                Err(e) => r == Err::<(), QuerylizerError>(e) && old(output)@.is_prefix_of(
                    final(output)@,
                ),
            },
    {
        write_deep_value(output, name, value, &encoder)
    }
}

} // verus!
