//! The "deep form" style, used for request bodies: a top-level compound
//! value rendered like an exploded `form` body, where struct fields whose
//! name appears in a caller-supplied set are instead rendered through the
//! `deepObject` encoder as a nested bracketed group.
//!
//! Sequences and tuples behave exactly like exploded `form` sequences.
//! Maps render as `key=value` pairs joined by `&`, the parameter name
//! dropped.  For structs, a field named in the deep set renders as
//! `field[k1]=v1&field[k2]=v2…`, spliced between the other `key=value`
//! pairs.  Scalars and unit values behave like `form` at the top level,
//! except that booleans are accepted and render as their text.
use vstd::prelude::*;

use crate::deep::deep_output;
use crate::deep::write_deep_value;
use crate::escape::esc;
use crate::escape::escape_into;
use crate::escape::push_char;
use crate::escape::EncodingFn;
use crate::form::write_name_eq;
use crate::numtext::dec_nat;
use crate::render::scalar_text;
use crate::render::write_byte_text;
use crate::render::write_scalar;
use crate::spec_is_scalar;
use crate::value::Value;
use crate::QuerylizerError;

verus! {

/// True when `key` is one of the names in the deep set.
pub open spec fn spec_name_in(deep: Seq<String>, key: Seq<char>) -> bool {
    exists|i: int| 0 <= i < deep.len() && deep[i]@ == key
}

/// Tests membership of a field name in the deep set.
fn name_in(deep: &Vec<String>, key: &String) -> (r: bool)
    ensures
        r == spec_name_in(deep@, key@),
{
    let n = deep.len();
    let mut i: usize = 0;
    while i < n
        invariant
            n == deep@.len(),
            0 <= i <= n,
            forall|j: int| 0 <= j < i ==> deep@[j]@ != key@,
        decreases n - i,
    {
        if deep[i].eq(key) {
            return true;
        }
        i = i + 1;
    }
    false
}

/// Rendering of one element inside a container, "deep form" style.  Like
/// `form`, except that booleans are legal and render as their text.
pub open spec fn deepform_elem(v: Value, p: EncodingFn) -> Result<Seq<char>, QuerylizerError>
    decreases v,
{
    if spec_is_scalar(v) {
        Ok(esc(p, scalar_text(v)))
    } else {
        match v {
            Value::NewtypeStruct(b) => deepform_elem(*b, p),
            Value::NewtypeVariant(b) => deepform_elem(*b, p),
            _ => Err(QuerylizerError::UnsupportedNesting),
        }
    }
}

/// Rendering of a sequence's elements: always exploded, so the first is
/// prefixed by `name=` and the rest are joined by `&` and a fresh `name=`.
pub open spec fn deepform_items(items: Seq<Value>, name: Seq<char>, p: EncodingFn) -> Result<
    Seq<char>,
    QuerylizerError,
>
    decreases items.len(),
{
    if items.len() == 0 {
        Ok(Seq::empty())
    } else {
        match deepform_items(items.drop_last(), name, p) {
            Err(e) => Err(e),
            Ok(prefix) => match deepform_elem(items.last(), p) {
                Err(e) => Err(e),
                Ok(t) => Ok(
                    if items.len() == 1 {
                        esc(p, name) + seq!['='] + t
                    } else {
                        prefix + seq!['&'] + esc(p, name) + seq!['='] + t
                    },
                ),
            },
        }
    }
}

/// Rendering of a byte sequence's elements, by the sequence rule with
/// decimal byte values; byte elements cannot fail.
pub open spec fn deepform_byte_items(bs: Seq<u8>, name: Seq<char>, p: EncodingFn) -> Seq<char>
    decreases bs.len(),
{
    if bs.len() == 0 {
        Seq::empty()
    } else if bs.len() == 1 {
        esc(p, name) + seq!['='] + esc(p, dec_nat(bs.last() as nat))
    } else {
        deepform_byte_items(bs.drop_last(), name, p) + seq!['&'] + esc(p, name) + seq!['='] + esc(
            p,
            dec_nat(bs.last() as nat),
        )
    }
}

/// Rendering of one map pair: `key=value`, the parameter name dropped.
pub open spec fn deepform_pair(k: Value, v: Value, p: EncodingFn) -> Result<
    Seq<char>,
    QuerylizerError,
> {
    match deepform_elem(k, p) {
        Err(e) => Err(e),
        Ok(kt) => match deepform_elem(v, p) {
            Err(e) => Err(e),
            Ok(vt) => Ok(kt + seq!['='] + vt),
        },
    }
}

/// Rendering of a map's pairs, `&`-joined.
pub open spec fn deepform_pairs(pairs: Seq<(Value, Value)>, p: EncodingFn) -> Result<
    Seq<char>,
    QuerylizerError,
>
    decreases pairs.len(),
{
    if pairs.len() == 0 {
        Ok(Seq::empty())
    } else {
        match deepform_pairs(pairs.drop_last(), p) {
            Err(e) => Err(e),
            Ok(prefix) => match deepform_pair(pairs.last().0, pairs.last().1, p) {
                Err(e) => Err(e),
                Ok(t) => Ok(
                    if pairs.len() == 1 {
                        t
                    } else {
                        prefix + seq!['&'] + t
                    },
                ),
            },
        }
    }
}

/// Rendering of one struct field: through the `deepObject` encoder, with
/// the field's own name as parameter name, when the field is in the deep
/// set; as a plain `key=value` pair otherwise.
pub open spec fn deepform_field(
    key: Seq<char>,
    v: Value,
    p: EncodingFn,
    deep: Seq<String>,
) -> Result<Seq<char>, QuerylizerError> {
    if spec_name_in(deep, key) {
        deep_output(v, key, p)
    } else {
        match deepform_elem(v, p) {
            Err(e) => Err(e),
            Ok(vt) => Ok(esc(p, key) + seq!['='] + vt),
        }
    }
}

/// Rendering of a struct's fields, `&`-joined, deep fields spliced in.
pub open spec fn deepform_fields(
    fields: Seq<(String, Value)>,
    p: EncodingFn,
    deep: Seq<String>,
) -> Result<Seq<char>, QuerylizerError>
    decreases fields.len(),
{
    if fields.len() == 0 {
        Ok(Seq::empty())
    } else {
        match deepform_fields(fields.drop_last(), p, deep) {
            Err(e) => Err(e),
            Ok(prefix) => match deepform_field(fields.last().0@, fields.last().1, p, deep) {
                Err(e) => Err(e),
                Ok(t) => Ok(
                    if fields.len() == 1 {
                        t
                    } else {
                        prefix + seq!['&'] + t
                    },
                ),
            },
        }
    }
}

/// The complete "deep form" rendering of a top-level value: the produced
/// text, or the first failure encountered in the traversal order.
pub open spec fn deepform_output(
    v: Value,
    name: Seq<char>,
    p: EncodingFn,
    deep: Seq<String>,
) -> Result<Seq<char>, QuerylizerError>
    decreases v,
{
    if spec_is_scalar(v) {
        Ok(esc(p, name) + seq!['='] + esc(p, scalar_text(v)))
    } else {
        match v {
            Value::NewtypeStruct(b) => deepform_output(*b, name, p, deep),
            Value::NewtypeVariant(b) => deepform_output(*b, name, p, deep),
            Value::Present(b) => deepform_output(*b, name, p, deep),
            Value::Absent => Ok(esc(p, name) + seq!['=']),
            Value::Unit => Ok(esc(p, name) + seq!['=']),
            Value::UnitVariant(_) => Ok(esc(p, name) + seq!['=']),
            Value::UnitStruct => Err(QuerylizerError::UnsupportedNesting),
            Value::Bytes(bs) => if bs@.len() == 0 {
                Err(QuerylizerError::UnsupportedValue)
            } else {
                Ok(deepform_byte_items(bs@, name, p))
            },
            Value::Sequence(items) => match deepform_items(items@, name, p) {
                Err(e) => Err(e),
                Ok(t) => if items@.len() == 0 {
                    Err(QuerylizerError::UnsupportedValue)
                } else {
                    Ok(t)
                },
            },
            Value::Tuple(items) => match deepform_items(items@, name, p) {
                Err(e) => Err(e),
                Ok(t) => if items@.len() == 0 {
                    Err(QuerylizerError::UnsupportedValue)
                } else {
                    Ok(t)
                },
            },
            Value::Mapping(pairs) => match deepform_pairs(pairs@, p) {
                Err(e) => Err(e),
                Ok(t) => if pairs@.len() == 0 {
                    Err(QuerylizerError::UnsupportedValue)
                } else {
                    Ok(t)
                },
            },
            Value::Struct(fields) => match deepform_fields(fields@, p, deep) {
                Err(e) => Err(e),
                Ok(t) => if fields@.len() == 0 {
                    Err(QuerylizerError::UnsupportedValue)
                } else {
                    Ok(t)
                },
            },
            Value::StructVariant(_, fields) => match deepform_fields(fields@, p, deep) {
                Err(e) => Err(e),
                Ok(t) => if fields@.len() == 0 {
                    Err(QuerylizerError::UnsupportedValue)
                } else {
                    Ok(t)
                },
            },
            _ => Ok(esc(p, name) + seq!['=']),
        }
    }
}

proof fn lemma_deepform_items_err(items: Seq<Value>, name: Seq<char>, p: EncodingFn, j: int)
    requires
        0 <= j <= items.len(),
        deepform_items(items.take(j), name, p) is Err,
    ensures
        deepform_items(items, name, p) == deepform_items(items.take(j), name, p),
    decreases items.len(),
{
    if j == items.len() {
        assert(items.take(j) =~= items);
    } else {
        let front = items.drop_last();
        assert(front.take(j) =~= items.take(j));
        lemma_deepform_items_err(front, name, p, j);
    }
}

proof fn lemma_deepform_pairs_err(pairs: Seq<(Value, Value)>, p: EncodingFn, j: int)
    requires
        0 <= j <= pairs.len(),
        deepform_pairs(pairs.take(j), p) is Err,
    ensures
        deepform_pairs(pairs, p) == deepform_pairs(pairs.take(j), p),
    decreases pairs.len(),
{
    if j == pairs.len() {
        assert(pairs.take(j) =~= pairs);
    } else {
        let front = pairs.drop_last();
        assert(front.take(j) =~= pairs.take(j));
        lemma_deepform_pairs_err(front, p, j);
    }
}

pub(crate) proof fn lemma_deepform_fields_err(
    fields: Seq<(String, Value)>,
    p: EncodingFn,
    deep: Seq<String>,
    j: int,
)
    requires
        0 <= j <= fields.len(),
        deepform_fields(fields.take(j), p, deep) is Err,
    ensures
        deepform_fields(fields, p, deep) == deepform_fields(fields.take(j), p, deep),
    decreases fields.len(),
{
    if j == fields.len() {
        assert(fields.take(j) =~= fields);
    } else {
        let front = fields.drop_last();
        assert(front.take(j) =~= fields.take(j));
        lemma_deepform_fields_err(front, p, deep, j);
    }
}

/// Writes one container element; on failure the buffer is unchanged.
fn write_elem(out: &mut String, v: &Value, p: &EncodingFn) -> (r: Result<(), QuerylizerError>)
    ensures
        match deepform_elem(*v, *p) {
            Ok(t) => r is Ok && final(out)@ == old(out)@ + t,
            Err(e) => r == Err::<(), QuerylizerError>(e) && final(out)@ == old(out)@,
        },
    decreases v,
{
    match v {
        Value::Bool(_) | Value::Integer(_) | Value::Unsigned(_) | Value::Float(_) | Value::Char(_)
            | Value::Str(_) => {
            write_scalar(out, p, v);
            Ok(())
        },
        Value::NewtypeStruct(b) => write_elem(out, &**b, p),
        Value::NewtypeVariant(b) => write_elem(out, &**b, p),
        _ => Err(QuerylizerError::UnsupportedNesting),
    }
}

/// Writes a sequence's or tuple's elements, always exploded.
fn write_items(out: &mut String, items: &Vec<Value>, name: &str, p: &EncodingFn) -> (r: Result<
    (),
    QuerylizerError,
>)
    ensures
        match deepform_items(items@, name@, *p) {
            Ok(t) => r is Ok && final(out)@ == old(out)@ + t,
            Err(e) => r == Err::<(), QuerylizerError>(e) && old(out)@.is_prefix_of(final(out)@),
        },
{
    let n = items.len();
    let mut i: usize = 0;
    while i < n
        invariant
            n == items@.len(),
            0 <= i <= n,
            deepform_items(items@.take(i as int), name@, *p) is Ok,
            out@ == old(out)@ + deepform_items(items@.take(i as int), name@, *p)->Ok_0,
        decreases n - i,
    {
        if i > 0 {
            push_char(out, '&');
        }
        write_name_eq(out, name, p);
        let r = write_elem(out, &items[i], p);
        proof {
            assert(items@.take(i + 1 as int).drop_last() =~= items@.take(i as int));
            assert(items@.take(i + 1 as int).last() == items@[i as int]);
        }
        match r {
            Err(e) => {
                proof {
                    lemma_deepform_items_err(items@, name@, *p, i + 1 as int);
                }
                return Err(e);
            },
            Ok(()) => {
            },
        }
        proof {
            assert(out@ =~= old(out)@ + deepform_items(items@.take(i + 1 as int), name@, *p)->Ok_0);
        }
        i = i + 1;
    }
    proof {
        assert(items@.take(n as int) =~= items@);
    }
    Ok(())
}

/// Writes a byte sequence's decimal values, always exploded.
fn write_bytes(out: &mut String, bs: &Vec<u8>, name: &str, p: &EncodingFn)
    ensures
        final(out)@ == old(out)@ + deepform_byte_items(bs@, name@, *p),
{
    let n = bs.len();
    let mut i: usize = 0;
    while i < n
        invariant
            n == bs@.len(),
            0 <= i <= n,
            out@ == old(out)@ + deepform_byte_items(bs@.take(i as int), name@, *p),
        decreases n - i,
    {
        if i > 0 {
            push_char(out, '&');
        }
        write_name_eq(out, name, p);
        write_byte_text(out, p, bs[i]);
        proof {
            assert(bs@.take(i + 1 as int).drop_last() =~= bs@.take(i as int));
            assert(bs@.take(i + 1 as int).last() == bs@[i as int]);
            assert(out@ =~= old(out)@ + deepform_byte_items(bs@.take(i + 1 as int), name@, *p));
        }
        i = i + 1;
    }
    proof {
        assert(bs@.take(n as int) =~= bs@);
    }
}

/// Writes a map's pairs as `key=value`, `&`-joined.
#[verifier::rlimit(50)]
fn write_pairs(out: &mut String, pairs: &Vec<(Value, Value)>, p: &EncodingFn) -> (r: Result<
    (),
    QuerylizerError,
>)
    ensures
        match deepform_pairs(pairs@, *p) {
            Ok(t) => r is Ok && final(out)@ == old(out)@ + t,
            Err(e) => r == Err::<(), QuerylizerError>(e) && old(out)@.is_prefix_of(final(out)@),
        },
{
    let n = pairs.len();
    let mut i: usize = 0;
    while i < n
        invariant
            n == pairs@.len(),
            0 <= i <= n,
            deepform_pairs(pairs@.take(i as int), *p) is Ok,
            out@ == old(out)@ + deepform_pairs(pairs@.take(i as int), *p)->Ok_0,
        decreases n - i,
    {
        if i > 0 {
            push_char(out, '&');
        }
        proof {
            assert(pairs@.take(i + 1 as int).drop_last() =~= pairs@.take(i as int));
            assert(pairs@.take(i + 1 as int).last() == pairs@[i as int]);
        }
        let r = write_elem(out, &pairs[i].0, p);
        match r {
            Err(e) => {
                proof {
                    lemma_deepform_pairs_err(pairs@, *p, i + 1 as int);
                }
                return Err(e);
            },
            Ok(()) => {
            },
        }
        push_char(out, '=');
        let r = write_elem(out, &pairs[i].1, p);
        match r {
            Err(e) => {
                proof {
                    lemma_deepform_pairs_err(pairs@, *p, i + 1 as int);
                }
                return Err(e);
            },
            Ok(()) => {
            },
        }
        proof {
            assert(out@ =~= old(out)@ + deepform_pairs(pairs@.take(i + 1 as int), *p)->Ok_0);
        }
        i = i + 1;
    }
    proof {
        assert(pairs@.take(n as int) =~= pairs@);
    }
    Ok(())
}

/// Writes a struct's fields, `&`-joined, deep fields through the
/// `deepObject` encoder.
#[verifier::rlimit(50)]
fn write_fields(
    out: &mut String,
    fields: &Vec<(String, Value)>,
    p: &EncodingFn,
    deep: &Vec<String>,
) -> (r: Result<(), QuerylizerError>)
    ensures
        match deepform_fields(fields@, *p, deep@) {
            Ok(t) => r is Ok && final(out)@ == old(out)@ + t,
            Err(e) => r == Err::<(), QuerylizerError>(e) && old(out)@.is_prefix_of(final(out)@),
        },
{
    let n = fields.len();
    let mut i: usize = 0;
    while i < n
        invariant
            n == fields@.len(),
            0 <= i <= n,
            deepform_fields(fields@.take(i as int), *p, deep@) is Ok,
            out@ == old(out)@ + deepform_fields(fields@.take(i as int), *p, deep@)->Ok_0,
        decreases n - i,
    {
        if i > 0 {
            push_char(out, '&');
        }
        proof {
            assert(fields@.take(i + 1 as int).drop_last() =~= fields@.take(i as int));
            assert(fields@.take(i + 1 as int).last() == fields@[i as int]);
        }
        if name_in(deep, &fields[i].0) {
            let r = write_deep_value(out, fields[i].0.as_str(), &fields[i].1, p);
            match r {
                Err(e) => {
                    proof {
                        lemma_deepform_fields_err(fields@, *p, deep@, i + 1 as int);
                    }
                    return Err(e);
                },
                Ok(()) => {
                },
            }
        } else {
            escape_into(out, p, fields[i].0.as_str());
            push_char(out, '=');
            let r = write_elem(out, &fields[i].1, p);
            match r {
                Err(e) => {
                    proof {
                        lemma_deepform_fields_err(fields@, *p, deep@, i + 1 as int);
                    }
                    return Err(e);
                },
                Ok(()) => {
                },
            }
        }
        proof {
            assert(out@ =~= old(out)@ + deepform_fields(
                fields@.take(i + 1 as int),
                *p,
                deep@,
            )->Ok_0);
        }
        i = i + 1;
    }
    proof {
        assert(fields@.take(n as int) =~= fields@);
    }
    Ok(())
}

/// Writes the complete "deep form" rendering of a top-level value.
fn write_value(
    out: &mut String,
    name: &str,
    v: &Value,
    p: &EncodingFn,
    deep: &Vec<String>,
) -> (r: Result<(), QuerylizerError>)
    ensures
        match deepform_output(*v, name@, *p, deep@) {
            Ok(t) => r is Ok && final(out)@ == old(out)@ + t,
            Err(e) => r == Err::<(), QuerylizerError>(e) && old(out)@.is_prefix_of(final(out)@),
        },
    decreases v,
{
    match v {
        Value::Bool(_) | Value::Integer(_) | Value::Unsigned(_) | Value::Float(_) | Value::Char(_)
            | Value::Str(_) => {
            write_name_eq(out, name, p);
            write_scalar(out, p, v);
            Ok(())
        },
        Value::NewtypeStruct(b) => write_value(out, name, &**b, p, deep),
        Value::NewtypeVariant(b) => write_value(out, name, &**b, p, deep),
        Value::Present(b) => write_value(out, name, &**b, p, deep),
        Value::Absent | Value::Unit | Value::UnitVariant(_) => {
            write_name_eq(out, name, p);
            Ok(())
        },
        Value::UnitStruct => Err(QuerylizerError::UnsupportedNesting),
        Value::Bytes(bs) => {
            if bs.len() == 0 {
                Err(QuerylizerError::UnsupportedValue)
            } else {
                write_bytes(out, bs, name, p);
                Ok(())
            }
        },
        Value::Sequence(items) => {
            if items.len() == 0 {
                Err(QuerylizerError::UnsupportedValue)
            } else {
                write_items(out, items, name, p)
            }
        },
        Value::Tuple(items) => {
            if items.len() == 0 {
                Err(QuerylizerError::UnsupportedValue)
            } else {
                write_items(out, items, name, p)
            }
        },
        Value::Mapping(pairs) => {
            if pairs.len() == 0 {
                Err(QuerylizerError::UnsupportedValue)
            } else {
                write_pairs(out, pairs, p)
            }
        },
        Value::Struct(fields) => {
            if fields.len() == 0 {
                Err(QuerylizerError::UnsupportedValue)
            } else {
                write_fields(out, fields, p, deep)
            }
        },
        Value::StructVariant(_, fields) => {
            if fields.len() == 0 {
                Err(QuerylizerError::UnsupportedValue)
            } else {
                write_fields(out, fields, p, deep)
            }
        },
    }
}

/// The "deep form" style encoder.
pub struct DeepForm;

impl DeepForm {
    /// Renders `value` in the "deep form" style into a fresh string; the
    /// fields named in `deep` render through the `deepObject` encoder.
    ///
    /// Returns exactly the text of [`deepform_output`], or its failure.
    pub fn to_string(name: &str, value: &Value, encoder: &EncodingFn, deep: &Vec<String>) -> (r:
        Result<String, QuerylizerError>)
        ensures
            match deepform_output(*value, name@, *encoder, deep@) {
                Ok(t) => r is Ok && r->Ok_0@ == t,
                Err(e) => r == Err::<String, QuerylizerError>(e),
            },
    {
        let mut out = String::new();
        match write_value(&mut out, name, value, encoder, deep) {
            Ok(()) => Ok(out),
            Err(e) => Err(e),
        }
    }

    /// Appends the "deep form" rendering of `value` to `output`.
    ///
    /// On success exactly the text of [`deepform_output`] is appended; on
    /// failure the buffer keeps its old contents as a prefix and may have
    /// gained a partial fragment.
    pub fn extend(
        output: &mut String,
        name: &str,
        value: &Value,
        encoder: &EncodingFn,
        deep: &Vec<String>,
    ) -> (r: Result<(), QuerylizerError>)
        ensures
            match deepform_output(*value, name@, *encoder, deep@) {
                Ok(t) => r is Ok && final(output)@ == old(output)@ + t,
                Err(e) => r == Err::<(), QuerylizerError>(e) && old(output)@.is_prefix_of(
                    final(output)@,
                ),
            },
    {
        write_value(output, name, value, encoder, deep)
    }
}

} // verus!
