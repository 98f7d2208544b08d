//! The `simple` style: a value rendered as a single comma-joined path
//! segment, with no parameter name.
//!
//! Scalars render as their escaped text.  Sequences and tuples render as a
//! comma-joined list of escaped elements.  Maps and structs render as a
//! flat list of keys and values, comma-joined, with `=` between key and
//! value when `explode` is set and `,` otherwise.  Missing and unit values
//! have no representation and are rejected; so are empty containers and
//! containers nested inside another container.
use vstd::prelude::*;

use crate::escape::esc;
use crate::escape::push_char;
use crate::escape::escape_into;
use crate::escape::EncodingFn;
use crate::numtext::dec_nat;
use crate::render::scalar_text;
use crate::render::write_byte_text;
use crate::render::write_scalar;
use crate::spec_is_scalar;
use crate::value::Value;
use crate::QuerylizerError;

verus! {

/// Rendering of one element that sits inside a container, `simple` style.
/// Scalars render as escaped text; a nested container (including a byte
/// sequence) is a nesting violation; missing and unit values are illegal
/// for this style wherever they appear.
pub open spec fn simple_elem(v: Value, p: EncodingFn) -> Result<Seq<char>, QuerylizerError>
    decreases v,
{
    if spec_is_scalar(v) {
        Ok(esc(p, scalar_text(v)))
    } else {
        match v {
            Value::NewtypeStruct(b) => simple_elem(*b, p),
            Value::NewtypeVariant(b) => simple_elem(*b, p),
            Value::Bytes(_) => Err(QuerylizerError::UnsupportedNesting),
            Value::Sequence(_) => Err(QuerylizerError::UnsupportedNesting),
            Value::Tuple(_) => Err(QuerylizerError::UnsupportedNesting),
            Value::Mapping(_) => Err(QuerylizerError::UnsupportedNesting),
            Value::Struct(_) => Err(QuerylizerError::UnsupportedNesting),
            Value::StructVariant(_, _) => Err(QuerylizerError::UnsupportedNesting),
            _ => Err(QuerylizerError::UnsupportedValue),
        }
    }
}

/// Rendering of a sequence's elements, comma-joined; the first failure in
/// input order wins.
pub open spec fn simple_items(items: Seq<Value>, p: EncodingFn) -> Result<
    Seq<char>,
    QuerylizerError,
>
    decreases items.len(),
{
    if items.len() == 0 {
        Ok(Seq::empty())
    } else {
        match simple_items(items.drop_last(), p) {
            Err(e) => Err(e),
            Ok(prefix) => match simple_elem(items.last(), p) {
                Err(e) => Err(e),
                Ok(t) => Ok(
                    if items.len() == 1 {
                        t
                    } else {
                        prefix + seq![','] + t
                    },
                ),
            },
        }
    }
}

/// Rendering of one key/value pair: key, then `=` when `explode` is set
/// and `,` otherwise, then value.
pub open spec fn simple_pair(k: Value, v: Value, explode: bool, p: EncodingFn) -> Result<
    Seq<char>,
    QuerylizerError,
> {
    match simple_elem(k, p) {
        Err(e) => Err(e),
        Ok(kt) => match simple_elem(v, p) {
            Err(e) => Err(e),
            Ok(vt) => Ok(
                kt + seq![
                    if explode {
                        '='
                    } else {
                        ','
                    },
                ] + vt,
            ),
        },
    }
}

/// Rendering of a map's pairs, comma-joined.
pub open spec fn simple_pairs(
    pairs: Seq<(Value, Value)>,
    explode: bool,
    p: EncodingFn,
) -> Result<Seq<char>, QuerylizerError>
    decreases pairs.len(),
{
    if pairs.len() == 0 {
        Ok(Seq::empty())
    } else {
        match simple_pairs(pairs.drop_last(), explode, p) {
            Err(e) => Err(e),
            Ok(prefix) => match simple_pair(pairs.last().0, pairs.last().1, explode, p) {
                Err(e) => Err(e),
                Ok(t) => Ok(
                    if pairs.len() == 1 {
                        t
                    } else {
                        prefix + seq![','] + t
                    },
                ),
            },
        }
    }
}

/// Rendering of one struct field: the escaped field name, then `=` or
/// `,`, then the field's value.
pub open spec fn simple_field(name: Seq<char>, v: Value, explode: bool, p: EncodingFn) -> Result<
    Seq<char>,
    QuerylizerError,
> {
    match simple_elem(v, p) {
        Err(e) => Err(e),
        Ok(vt) => Ok(
            esc(p, name) + seq![
                if explode {
                    '='
                } else {
                    ','
                },
            ] + vt,
        ),
    }
}

/// Rendering of a struct's fields, comma-joined.
pub open spec fn simple_fields(
    fields: Seq<(String, Value)>,
    explode: bool,
    p: EncodingFn,
) -> Result<Seq<char>, QuerylizerError>
    decreases fields.len(),
{
    if fields.len() == 0 {
        Ok(Seq::empty())
    } else {
        match simple_fields(fields.drop_last(), explode, p) {
            Err(e) => Err(e),
            Ok(prefix) => match simple_field(fields.last().0@, fields.last().1, explode, p) {
                Err(e) => Err(e),
                Ok(t) => Ok(
                    if fields.len() == 1 {
                        t
                    } else {
                        prefix + seq![','] + t
                    },
                ),
            },
        }
    }
}

/// Rendering of a byte sequence's elements: decimal byte values, escaped
/// and comma-joined.  Byte elements cannot fail.
pub open spec fn simple_byte_items(bs: Seq<u8>, p: EncodingFn) -> Seq<char>
    decreases bs.len(),
{
    if bs.len() == 0 {
        Seq::empty()
    } else if bs.len() == 1 {
        esc(p, dec_nat(bs.last() as nat))
    } else {
        simple_byte_items(bs.drop_last(), p) + seq![','] + esc(p, dec_nat(bs.last() as nat))
    }
}

/// The complete `simple` rendering of a top-level value: the produced
/// text, or the first failure encountered in the traversal order.
pub open spec fn simple_output(v: Value, explode: bool, p: EncodingFn) -> Result<
    Seq<char>,
    QuerylizerError,
>
    decreases v,
{
    if spec_is_scalar(v) {
        Ok(esc(p, scalar_text(v)))
    } else {
        match v {
            Value::NewtypeStruct(b) => simple_output(*b, explode, p),
            Value::NewtypeVariant(b) => simple_output(*b, explode, p),
            Value::Bytes(bs) => if bs@.len() == 0 {
                Err(QuerylizerError::UnsupportedValue)
            } else {
                Ok(simple_byte_items(bs@, p))
            },
            Value::Sequence(items) => match simple_items(items@, p) {
                Err(e) => Err(e),
                Ok(t) => if items@.len() == 0 {
                    Err(QuerylizerError::UnsupportedValue)
                } else {
                    Ok(t)
                },
            },
            Value::Tuple(items) => match simple_items(items@, p) {
                Err(e) => Err(e),
                Ok(t) => if items@.len() == 0 {
                    Err(QuerylizerError::UnsupportedValue)
                } else {
                    Ok(t)
                },
            },
            Value::Mapping(pairs) => match simple_pairs(pairs@, explode, p) {
                Err(e) => Err(e),
                Ok(t) => if pairs@.len() == 0 {
                    Err(QuerylizerError::UnsupportedValue)
                } else {
                    Ok(t)
                },
            },
            Value::Struct(fields) => match simple_fields(fields@, explode, p) {
                Err(e) => Err(e),
                Ok(t) => if fields@.len() == 0 {
                    Err(QuerylizerError::UnsupportedValue)
                } else {
                    Ok(t)
                },
            },
            Value::StructVariant(_, fields) => match simple_fields(fields@, explode, p) {
                Err(e) => Err(e),
                Ok(t) => if fields@.len() == 0 {
                    Err(QuerylizerError::UnsupportedValue)
                } else {
                    Ok(t)
                },
            },
            _ => Err(QuerylizerError::UnsupportedValue),
        }
    }
}

pub(crate) proof fn lemma_simple_items_err(items: Seq<Value>, p: EncodingFn, j: int)
    requires
        0 <= j <= items.len(),
        simple_items(items.take(j), p) is Err,
    ensures
        simple_items(items, p) == simple_items(items.take(j), p),
    decreases items.len(),
{
    if j == items.len() {
        assert(items.take(j) =~= items);
    } else {
        let front = items.drop_last();
        assert(front.take(j) =~= items.take(j));
        lemma_simple_items_err(front, p, j);
    }
}

proof fn lemma_simple_pairs_err(pairs: Seq<(Value, Value)>, explode: bool, p: EncodingFn, j: int)
    requires
        0 <= j <= pairs.len(),
        simple_pairs(pairs.take(j), explode, p) is Err,
    ensures
        simple_pairs(pairs, explode, p) == simple_pairs(pairs.take(j), explode, p),
    decreases pairs.len(),
{
    if j == pairs.len() {
        assert(pairs.take(j) =~= pairs);
    } else {
        let front = pairs.drop_last();
        assert(front.take(j) =~= pairs.take(j));
        lemma_simple_pairs_err(front, explode, p, j);
    }
}

proof fn lemma_simple_fields_err(fields: Seq<(String, Value)>, explode: bool, p: EncodingFn, j: int)
    requires
        0 <= j <= fields.len(),
        simple_fields(fields.take(j), explode, p) is Err,
    ensures
        simple_fields(fields, explode, p) == simple_fields(fields.take(j), explode, p),
    decreases fields.len(),
{
    if j == fields.len() {
        assert(fields.take(j) =~= fields);
    } else {
        let front = fields.drop_last();
        assert(front.take(j) =~= fields.take(j));
        lemma_simple_fields_err(front, explode, p, j);
    }
}

/// Writes one container element; on failure the buffer is unchanged.
fn write_elem(out: &mut String, v: &Value, p: &EncodingFn) -> (r: Result<(), QuerylizerError>)
    ensures
        match simple_elem(*v, *p) {
            Ok(t) => r is Ok && final(out)@ == old(out)@ + t,
            Err(e) => r == Err::<(), QuerylizerError>(e) && final(out)@ == old(out)@,
        },
    decreases v,
{
    match v {
        Value::Bool(_) | Value::Integer(_) | Value::Unsigned(_) | Value::Float(_) | Value::Char(_)
            | Value::Str(_) => {
            write_scalar(out, p, v);
            Ok(())
        },
        Value::NewtypeStruct(b) => write_elem(out, &**b, p),
        Value::NewtypeVariant(b) => write_elem(out, &**b, p),
        Value::Bytes(_) | Value::Sequence(_) | Value::Tuple(_) | Value::Mapping(_) | Value::Struct(
            _,
        ) | Value::StructVariant(_, _) => Err(QuerylizerError::UnsupportedNesting),
        _ => Err(QuerylizerError::UnsupportedValue),
    }
}

/// Writes a sequence's or tuple's elements, comma-joined.
fn write_items(out: &mut String, items: &Vec<Value>, p: &EncodingFn) -> (r: Result<
    (),
    QuerylizerError,
>)
    ensures
        match simple_items(items@, *p) {
            Ok(t) => r is Ok && final(out)@ == old(out)@ + t,
            Err(e) => r == Err::<(), QuerylizerError>(e) && old(out)@.is_prefix_of(final(out)@),
        },
{
    let n = items.len();
    let mut i: usize = 0;
    while i < n
        invariant
            n == items@.len(),
            0 <= i <= n,
            simple_items(items@.take(i as int), *p) is Ok,
            out@ == old(out)@ + simple_items(items@.take(i as int), *p)->Ok_0,
        decreases n - i,
    {
        if i > 0 {
            push_char(out, ',');
        }
        let r = write_elem(out, &items[i], p);
        proof {
            assert(items@.take(i + 1 as int).drop_last() =~= items@.take(i as int));
            assert(items@.take(i + 1 as int).last() == items@[i as int]);
        }
        match r {
            Err(e) => {
                proof {
                    lemma_simple_items_err(items@, *p, i + 1 as int);
                }
                return Err(e);
            },
            Ok(()) => {
            },
        }
        proof {
            assert(out@ =~= old(out)@ + simple_items(items@.take(i + 1 as int), *p)->Ok_0);
        }
        i = i + 1;
    }
    proof {
        assert(items@.take(n as int) =~= items@);
    }
    Ok(())
}

/// Writes a map's pairs, comma-joined.
#[verifier::rlimit(50)]
fn write_pairs(out: &mut String, pairs: &Vec<(Value, Value)>, explode: bool, p: &EncodingFn) -> (r:
    Result<(), QuerylizerError>)
    ensures
        match simple_pairs(pairs@, explode, *p) {
            Ok(t) => r is Ok && final(out)@ == old(out)@ + t,
            Err(e) => r == Err::<(), QuerylizerError>(e) && old(out)@.is_prefix_of(final(out)@),
        },
{
    let n = pairs.len();
    let mut i: usize = 0;
    while i < n
        invariant
            n == pairs@.len(),
            0 <= i <= n,
            simple_pairs(pairs@.take(i as int), explode, *p) is Ok,
            out@ == old(out)@ + simple_pairs(pairs@.take(i as int), explode, *p)->Ok_0,
        decreases n - i,
    {
        if i > 0 {
            push_char(out, ',');
        }
        proof {
            assert(pairs@.take(i + 1 as int).drop_last() =~= pairs@.take(i as int));
            assert(pairs@.take(i + 1 as int).last() == pairs@[i as int]);
        }
        let r = write_elem(out, &pairs[i].0, p);
        match r {
            Err(e) => {
                proof {
                    lemma_simple_pairs_err(pairs@, explode, *p, i + 1 as int);
                }
                return Err(e);
            },
            Ok(()) => {
            },
        }
        push_char(out, if explode { '=' } else { ',' });
        let r = write_elem(out, &pairs[i].1, p);
        match r {
            Err(e) => {
                proof {
                    lemma_simple_pairs_err(pairs@, explode, *p, i + 1 as int);
                }
                return Err(e);
            },
            Ok(()) => {
            },
        }
        proof {
            assert(out@ =~= old(out)@ + simple_pairs(pairs@.take(i + 1 as int), explode, *p)->Ok_0);
        }
        i = i + 1;
    }
    proof {
        assert(pairs@.take(n as int) =~= pairs@);
    }
    Ok(())
}

/// Writes a struct's fields, comma-joined.
fn write_fields(
    out: &mut String,
    fields: &Vec<(String, Value)>,
    explode: bool,
    p: &EncodingFn,
) -> (r: Result<(), QuerylizerError>)
    ensures
        match simple_fields(fields@, explode, *p) {
            Ok(t) => r is Ok && final(out)@ == old(out)@ + t,
            Err(e) => r == Err::<(), QuerylizerError>(e) && old(out)@.is_prefix_of(final(out)@),
        },
{
    let n = fields.len();
    let mut i: usize = 0;
    while i < n
        invariant
            n == fields@.len(),
            0 <= i <= n,
            simple_fields(fields@.take(i as int), explode, *p) is Ok,
            out@ == old(out)@ + simple_fields(fields@.take(i as int), explode, *p)->Ok_0,
        decreases n - i,
    {
        if i > 0 {
            push_char(out, ',');
        }
        proof {
            assert(fields@.take(i + 1 as int).drop_last() =~= fields@.take(i as int));
            assert(fields@.take(i + 1 as int).last() == fields@[i as int]);
        }
        escape_into(out, p, fields[i].0.as_str());
        push_char(out, if explode { '=' } else { ',' });
        let r = write_elem(out, &fields[i].1, p);
        match r {
            Err(e) => {
                proof {
                    lemma_simple_fields_err(fields@, explode, *p, i + 1 as int);
                }
                return Err(e);
            },
            Ok(()) => {
            },
        }
        proof {
            assert(out@ =~= old(out)@ + simple_fields(
                fields@.take(i + 1 as int),
                explode,
                *p,
            )->Ok_0);
        }
        i = i + 1;
    }
    proof {
        assert(fields@.take(n as int) =~= fields@);
    }
    Ok(())
}

/// Writes a byte sequence's decimal values, comma-joined.
fn write_bytes(out: &mut String, bs: &Vec<u8>, p: &EncodingFn)
    ensures
        final(out)@ == old(out)@ + simple_byte_items(bs@, *p),
{
    let n = bs.len();
    let mut i: usize = 0;
    while i < n
        invariant
            n == bs@.len(),
            0 <= i <= n,
            out@ == old(out)@ + simple_byte_items(bs@.take(i as int), *p),
        decreases n - i,
    {
        if i > 0 {
            push_char(out, ',');
        }
        write_byte_text(out, p, bs[i]);
        proof {
            assert(bs@.take(i + 1 as int).drop_last() =~= bs@.take(i as int));
            assert(bs@.take(i + 1 as int).last() == bs@[i as int]);
            assert(out@ =~= old(out)@ + simple_byte_items(bs@.take(i + 1 as int), *p));
        }
        i = i + 1;
    }
    proof {
        assert(bs@.take(n as int) =~= bs@);
    }
}

/// Writes the complete `simple` rendering of a top-level value.
fn write_value(out: &mut String, v: &Value, explode: bool, p: &EncodingFn) -> (r: Result<
    (),
    QuerylizerError,
>)
    ensures
        match simple_output(*v, explode, *p) {
            Ok(t) => r is Ok && final(out)@ == old(out)@ + t,
            Err(e) => r == Err::<(), QuerylizerError>(e) && old(out)@.is_prefix_of(final(out)@),
        },
    decreases v,
{
    match v {
        Value::Bool(_) | Value::Integer(_) | Value::Unsigned(_) | Value::Float(_) | Value::Char(_)
            | Value::Str(_) => {
            write_scalar(out, p, v);
            Ok(())
        },
        Value::NewtypeStruct(b) => write_value(out, &**b, explode, p),
        Value::NewtypeVariant(b) => write_value(out, &**b, explode, p),
        Value::Bytes(bs) => {
            if bs.len() == 0 {
                Err(QuerylizerError::UnsupportedValue)
            } else {
                write_bytes(out, bs, p);
                Ok(())
            }
        },
        Value::Sequence(items) => {
            if items.len() == 0 {
                Err(QuerylizerError::UnsupportedValue)
            } else {
                write_items(out, items, p)
            }
        },
        Value::Tuple(items) => {
            if items.len() == 0 {
                Err(QuerylizerError::UnsupportedValue)
            } else {
                write_items(out, items, p)
            }
        },
        Value::Mapping(pairs) => {
            if pairs.len() == 0 {
                Err(QuerylizerError::UnsupportedValue)
            } else {
                write_pairs(out, pairs, explode, p)
            }
        },
        Value::Struct(fields) => {
            if fields.len() == 0 {
                Err(QuerylizerError::UnsupportedValue)
            } else {
                write_fields(out, fields, explode, p)
            }
        },
        Value::StructVariant(_, fields) => {
            if fields.len() == 0 {
                Err(QuerylizerError::UnsupportedValue)
            } else {
                write_fields(out, fields, explode, p)
            }
        },
        _ => Err(QuerylizerError::UnsupportedValue),
    }
}

/// The `simple` style encoder.
pub struct Simple;

impl Simple {
    /// Renders `value` in the `simple` style into a fresh string.
    ///
    /// Returns exactly the text of [`simple_output`], or its failure.
    pub fn to_string(value: &Value, explode: bool, encoder: &EncodingFn) -> (r: Result<
        String,
        QuerylizerError,
    >)
        ensures
            match simple_output(*value, explode, *encoder) {
                Ok(t) => r is Ok && r->Ok_0@ == t,
                Err(e) => r == Err::<String, QuerylizerError>(e),
            },
    {
        let mut out = String::new();
        match write_value(&mut out, value, explode, encoder) {
            Ok(()) => Ok(out),
            Err(e) => Err(e),
        }
    }

    /// Appends the `simple` rendering of `value` to `output`.
    ///
    /// On success exactly the text of [`simple_output`] is appended; on
    /// failure the buffer keeps its old contents as a prefix and may have
    /// gained a partial fragment.
    pub fn extend(output: &mut String, value: &Value, explode: bool, encoder: &EncodingFn) -> (r:
        Result<(), QuerylizerError>)
        ensures
            match simple_output(*value, explode, *encoder) {
                Ok(t) => r is Ok && final(output)@ == old(output)@ + t,
                Err(e) => r == Err::<(), QuerylizerError>(e) && old(output)@.is_prefix_of(
                    final(output)@,
                ),
            },
    {
        write_value(output, value, explode, encoder)
    }
}

} // verus!
