//! The `form` style: a value rendered as one or more `name=value` query
//! pairs.
//!
//! A top-level scalar renders as `name=text`; missing and unit values
//! render as `name=` with an empty value.  Booleans have no `form`
//! representation and are rejected.  Sequences and tuples render either as
//! one `name=` followed by comma-joined elements (`explode` unset) or as
//! the name repeated per element, `&`-joined (`explode` set).  Maps and
//! structs render either as one `name=` followed by comma-joined keys and
//! values, or, exploded, as their own `key=value` pairs with the parameter
//! name dropped.  Empty containers and nested containers are rejected.
use vstd::prelude::*;

use crate::escape::esc;
use crate::escape::escape_into;
use crate::escape::push_char;
use crate::escape::EncodingFn;
use crate::numtext::dec_nat;
use crate::render::scalar_text;
use crate::render::write_byte_text;
use crate::render::write_scalar;
use crate::spec_is_scalar;
use crate::value::Value;
use crate::QuerylizerError;

verus! {

/// Rendering of one element inside a container, `form` style.  Booleans
/// are illegal for this style; any other non-scalar opens a second level
/// of structure and is a nesting violation.
pub open spec fn form_elem(v: Value, p: EncodingFn) -> Result<Seq<char>, QuerylizerError>
    decreases v,
{
    match v {
        Value::Bool(_) => Err(QuerylizerError::UnsupportedValue),
        Value::NewtypeStruct(b) => form_elem(*b, p),
        Value::NewtypeVariant(b) => form_elem(*b, p),
        _ => if spec_is_scalar(v) {
            Ok(esc(p, scalar_text(v)))
        } else {
            Err(QuerylizerError::UnsupportedNesting)
        },
    }
}

/// The separator written between two sequence elements: `&` and a fresh
/// `name=` when exploded, a comma otherwise.
pub open spec fn form_item_sep(name: Seq<char>, explode: bool, p: EncodingFn) -> Seq<char> {
    if explode {
        seq!['&'] + esc(p, name) + seq!['=']
    } else {
        seq![',']
    }
}

/// Rendering of a sequence's elements: the first is prefixed by `name=`,
/// the rest follow [`form_item_sep`].
pub open spec fn form_items(
    items: Seq<Value>,
    name: Seq<char>,
    explode: bool,
    p: EncodingFn,
) -> Result<Seq<char>, QuerylizerError>
    decreases items.len(),
{
    if items.len() == 0 {
        Ok(Seq::empty())
    } else {
        match form_items(items.drop_last(), name, explode, p) {
            Err(e) => Err(e),
            Ok(prefix) => match form_elem(items.last(), p) {
                Err(e) => Err(e),
                Ok(t) => Ok(
                    if items.len() == 1 {
                        esc(p, name) + seq!['='] + t
                    } else {
                        prefix + form_item_sep(name, explode, p) + t
                    },
                ),
            },
        }
    }
}

/// Rendering of a byte sequence's elements, by the sequence rule with
/// decimal byte values; byte elements cannot fail.
pub open spec fn form_byte_items(
    bs: Seq<u8>,
    name: Seq<char>,
    explode: bool,
    p: EncodingFn,
) -> Seq<char>
    decreases bs.len(),
{
    if bs.len() == 0 {
        Seq::empty()
    } else if bs.len() == 1 {
        esc(p, name) + seq!['='] + esc(p, dec_nat(bs.last() as nat))
    } else {
        form_byte_items(bs.drop_last(), name, explode, p) + form_item_sep(name, explode, p) + esc(
            p,
            dec_nat(bs.last() as nat),
        )
    }
}

/// Rendering of one key/value pair: key, then `=` when exploded and `,`
/// otherwise, then value.
pub open spec fn form_pair(k: Value, v: Value, explode: bool, p: EncodingFn) -> Result<
    Seq<char>,
    QuerylizerError,
> {
    match form_elem(k, p) {
        Err(e) => Err(e),
        Ok(kt) => match form_elem(v, p) {
            Err(e) => Err(e),
            Ok(vt) => Ok(
                kt + seq![
                    if explode {
                        '='
                    } else {
                        ','
                    },
                ] + vt,
            ),
        },
    }
}

/// Rendering of a map's pairs: when exploded they stand alone, `&`-joined;
/// otherwise the first is prefixed by `name=` and they are comma-joined.
pub open spec fn form_pairs(
    pairs: Seq<(Value, Value)>,
    name: Seq<char>,
    explode: bool,
    p: EncodingFn,
) -> Result<Seq<char>, QuerylizerError>
    decreases pairs.len(),
{
    if pairs.len() == 0 {
        Ok(Seq::empty())
    } else {
        match form_pairs(pairs.drop_last(), name, explode, p) {
            Err(e) => Err(e),
            Ok(prefix) => match form_pair(pairs.last().0, pairs.last().1, explode, p) {
                Err(e) => Err(e),
                Ok(t) => Ok(
                    if pairs.len() == 1 {
                        if explode {
                            t
                        } else {
                            esc(p, name) + seq!['='] + t
                        }
                    } else {
                        prefix + seq![
                            if explode {
                                '&'
                            } else {
                                ','
                            },
                        ] + t
                    },
                ),
            },
        }
    }
}

/// Rendering of one struct field: the escaped field name, then `=` or
/// `,`, then the field's value.
pub open spec fn form_field(key: Seq<char>, v: Value, explode: bool, p: EncodingFn) -> Result<
    Seq<char>,
    QuerylizerError,
> {
    match form_elem(v, p) {
        Err(e) => Err(e),
        Ok(vt) => Ok(
            esc(p, key) + seq![
                if explode {
                    '='
                } else {
                    ','
                },
            ] + vt,
        ),
    }
}

/// Rendering of a struct's fields, with the same joining rule as
/// [`form_pairs`].
pub open spec fn form_fields(
    fields: Seq<(String, Value)>,
    name: Seq<char>,
    explode: bool,
    p: EncodingFn,
) -> Result<Seq<char>, QuerylizerError>
    decreases fields.len(),
{
    if fields.len() == 0 {
        Ok(Seq::empty())
    } else {
        match form_fields(fields.drop_last(), name, explode, p) {
            Err(e) => Err(e),
            Ok(prefix) => match form_field(fields.last().0@, fields.last().1, explode, p) {
                Err(e) => Err(e),
                Ok(t) => Ok(
                    if fields.len() == 1 {
                        if explode {
                            t
                        } else {
                            esc(p, name) + seq!['='] + t
                        }
                    } else {
                        prefix + seq![
                            if explode {
                                '&'
                            } else {
                                ','
                            },
                        ] + t
                    },
                ),
            },
        }
    }
}

/// The complete `form` rendering of a top-level value: the produced text,
/// or the first failure encountered in the traversal order.
pub open spec fn form_output(v: Value, name: Seq<char>, explode: bool, p: EncodingFn) -> Result<
    Seq<char>,
    QuerylizerError,
>
    decreases v,
{
    match v {
        Value::Bool(_) => Err(QuerylizerError::UnsupportedValue),
        Value::NewtypeStruct(b) => form_output(*b, name, explode, p),
        Value::NewtypeVariant(b) => form_output(*b, name, explode, p),
        Value::Present(b) => form_output(*b, name, explode, p),
        Value::Absent => Ok(esc(p, name) + seq!['=']),
        Value::Unit => Ok(esc(p, name) + seq!['=']),
        Value::UnitVariant(_) => Ok(esc(p, name) + seq!['=']),
        Value::UnitStruct => Err(QuerylizerError::UnsupportedNesting),
        Value::Bytes(bs) => if bs@.len() == 0 {
            Err(QuerylizerError::UnsupportedValue)
        } else {
            Ok(form_byte_items(bs@, name, explode, p))
        },
        Value::Sequence(items) => match form_items(items@, name, explode, p) {
            Err(e) => Err(e),
            Ok(t) => if items@.len() == 0 {
                Err(QuerylizerError::UnsupportedValue)
            } else {
                Ok(t)
            },
        },
        Value::Tuple(items) => match form_items(items@, name, explode, p) {
            Err(e) => Err(e),
            Ok(t) => if items@.len() == 0 {
                Err(QuerylizerError::UnsupportedValue)
            } else {
                Ok(t)
            },
        },
        Value::Mapping(pairs) => match form_pairs(pairs@, name, explode, p) {
            Err(e) => Err(e),
            Ok(t) => if pairs@.len() == 0 {
                Err(QuerylizerError::UnsupportedValue)
            } else {
                Ok(t)
            },
        },
        Value::Struct(fields) => match form_fields(fields@, name, explode, p) {
            Err(e) => Err(e),
            Ok(t) => if fields@.len() == 0 {
                Err(QuerylizerError::UnsupportedValue)
            } else {
                Ok(t)
            },
        },
        Value::StructVariant(_, fields) => match form_fields(fields@, name, explode, p) {
            Err(e) => Err(e),
            Ok(t) => if fields@.len() == 0 {
                Err(QuerylizerError::UnsupportedValue)
            } else {
                Ok(t)
            },
        },
        _ => Ok(esc(p, name) + seq!['='] + esc(p, scalar_text(v))),
    }
}

pub(crate) proof fn lemma_form_items_err(
    items: Seq<Value>,
    name: Seq<char>,
    explode: bool,
    p: EncodingFn,
    j: int,
)
    requires
        0 <= j <= items.len(),
        form_items(items.take(j), name, explode, p) is Err,
    ensures
        form_items(items, name, explode, p) == form_items(items.take(j), name, explode, p),
    decreases items.len(),
{
    if j == items.len() {
        assert(items.take(j) =~= items);
    } else {
        let front = items.drop_last();
        assert(front.take(j) =~= items.take(j));
        lemma_form_items_err(front, name, explode, p, j);
    }
}

proof fn lemma_form_pairs_err(
    pairs: Seq<(Value, Value)>,
    name: Seq<char>,
    explode: bool,
    p: EncodingFn,
    j: int,
)
    requires
        0 <= j <= pairs.len(),
        form_pairs(pairs.take(j), name, explode, p) is Err,
    ensures
        form_pairs(pairs, name, explode, p) == form_pairs(pairs.take(j), name, explode, p),
    decreases pairs.len(),
{
    if j == pairs.len() {
        assert(pairs.take(j) =~= pairs);
    } else {
        let front = pairs.drop_last();
        assert(front.take(j) =~= pairs.take(j));
        lemma_form_pairs_err(front, name, explode, p, j);
    }
}

proof fn lemma_form_fields_err(
    fields: Seq<(String, Value)>,
    name: Seq<char>,
    explode: bool,
    p: EncodingFn,
    j: int,
)
    requires
        0 <= j <= fields.len(),
        form_fields(fields.take(j), name, explode, p) is Err,
    ensures
        form_fields(fields, name, explode, p) == form_fields(fields.take(j), name, explode, p),
    decreases fields.len(),
{
    if j == fields.len() {
        assert(fields.take(j) =~= fields);
    } else {
        let front = fields.drop_last();
        assert(front.take(j) =~= fields.take(j));
        lemma_form_fields_err(front, name, explode, p, j);
    }
}

/// Writes one container element; on failure the buffer is unchanged.
fn write_elem(out: &mut String, v: &Value, p: &EncodingFn) -> (r: Result<(), QuerylizerError>)
    ensures
        match form_elem(*v, *p) {
            Ok(t) => r is Ok && final(out)@ == old(out)@ + t,
            Err(e) => r == Err::<(), QuerylizerError>(e) && final(out)@ == old(out)@,
        },
    decreases v,
{
    match v {
        Value::Bool(_) => Err(QuerylizerError::UnsupportedValue),
        Value::Integer(_) | Value::Unsigned(_) | Value::Float(_) | Value::Char(_) | Value::Str(
            _,
        ) => {
            write_scalar(out, p, v);
            Ok(())
        },
        Value::NewtypeStruct(b) => write_elem(out, &**b, p),
        Value::NewtypeVariant(b) => write_elem(out, &**b, p),
        _ => Err(QuerylizerError::UnsupportedNesting),
    }
}

/// Writes `name=` — the escaped parameter name and the pair separator.
pub(crate) fn write_name_eq(out: &mut String, name: &str, p: &EncodingFn)
    ensures
        final(out)@ == old(out)@ + esc(*p, name@) + seq!['='],
{
    escape_into(out, p, name);
    push_char(out, '=');
    assert(final(out)@ =~= old(out)@ + esc(*p, name@) + seq!['=']);
}

/// Writes a sequence's or tuple's elements by the `form` sequence rule.
fn write_items(
    out: &mut String,
    items: &Vec<Value>,
    name: &str,
    explode: bool,
    p: &EncodingFn,
) -> (r: Result<(), QuerylizerError>)
    ensures
        match form_items(items@, name@, explode, *p) {
            Ok(t) => r is Ok && final(out)@ == old(out)@ + t,
            Err(e) => r == Err::<(), QuerylizerError>(e) && old(out)@.is_prefix_of(final(out)@),
        },
{
    let n = items.len();
    let mut i: usize = 0;
    while i < n
        invariant
            n == items@.len(),
            0 <= i <= n,
            form_items(items@.take(i as int), name@, explode, *p) is Ok,
            out@ == old(out)@ + form_items(items@.take(i as int), name@, explode, *p)->Ok_0,
        decreases n - i,
    {
        if i == 0 {
            write_name_eq(out, name, p);
        } else if explode {
            push_char(out, '&');
            write_name_eq(out, name, p);
        } else {
            push_char(out, ',');
        }
        let r = write_elem(out, &items[i], p);
        proof {
            assert(items@.take(i + 1 as int).drop_last() =~= items@.take(i as int));
            assert(items@.take(i + 1 as int).last() == items@[i as int]);
        }
        match r {
            Err(e) => {
                proof {
                    lemma_form_items_err(items@, name@, explode, *p, i + 1 as int);
                }
                return Err(e);
            },
            Ok(()) => {
            },
        }
        proof {
            assert(out@ =~= old(out)@ + form_items(
                items@.take(i + 1 as int),
                name@,
                explode,
                *p,
            )->Ok_0);
        }
        i = i + 1;
    }
    proof {
        assert(items@.take(n as int) =~= items@);
    }
    Ok(())
}

/// Writes a byte sequence's decimal values by the `form` sequence rule.
fn write_bytes(out: &mut String, bs: &Vec<u8>, name: &str, explode: bool, p: &EncodingFn)
    ensures
        final(out)@ == old(out)@ + form_byte_items(bs@, name@, explode, *p),
{
    let n = bs.len();
    let mut i: usize = 0;
    while i < n
        invariant
            n == bs@.len(),
            0 <= i <= n,
            out@ == old(out)@ + form_byte_items(bs@.take(i as int), name@, explode, *p),
        decreases n - i,
    {
        if i == 0 {
            write_name_eq(out, name, p);
        } else if explode {
            push_char(out, '&');
            write_name_eq(out, name, p);
        } else {
            push_char(out, ',');
        }
        write_byte_text(out, p, bs[i]);
        proof {
            assert(bs@.take(i + 1 as int).drop_last() =~= bs@.take(i as int));
            assert(bs@.take(i + 1 as int).last() == bs@[i as int]);
            assert(out@ =~= old(out)@ + form_byte_items(
                bs@.take(i + 1 as int),
                name@,
                explode,
                *p,
            ));
        }
        i = i + 1;
    }
    proof {
        assert(bs@.take(n as int) =~= bs@);
    }
}

/// Writes a map's pairs by the `form` map rule.
#[verifier::rlimit(50)]
fn write_pairs(
    out: &mut String,
    pairs: &Vec<(Value, Value)>,
    name: &str,
    explode: bool,
    p: &EncodingFn,
) -> (r: Result<(), QuerylizerError>)
    ensures
        match form_pairs(pairs@, name@, explode, *p) {
            Ok(t) => r is Ok && final(out)@ == old(out)@ + t,
            Err(e) => r == Err::<(), QuerylizerError>(e) && old(out)@.is_prefix_of(final(out)@),
        },
{
    let n = pairs.len();
    let mut i: usize = 0;
    while i < n
        invariant
            n == pairs@.len(),
            0 <= i <= n,
            form_pairs(pairs@.take(i as int), name@, explode, *p) is Ok,
            out@ == old(out)@ + form_pairs(pairs@.take(i as int), name@, explode, *p)->Ok_0,
        decreases n - i,
    {
        if i == 0 {
            if !explode {
                write_name_eq(out, name, p);
            }
        } else {
            push_char(out, if explode { '&' } else { ',' });
        }
        proof {
            assert(pairs@.take(i + 1 as int).drop_last() =~= pairs@.take(i as int));
            assert(pairs@.take(i + 1 as int).last() == pairs@[i as int]);
        }
        let r = write_elem(out, &pairs[i].0, p);
        match r {
            Err(e) => {
                proof {
                    lemma_form_pairs_err(pairs@, name@, explode, *p, i + 1 as int);
                }
                return Err(e);
            },
            Ok(()) => {
            },
        }
        push_char(out, if explode { '=' } else { ',' });
        let r = write_elem(out, &pairs[i].1, p);
        match r {
            Err(e) => {
                proof {
                    lemma_form_pairs_err(pairs@, name@, explode, *p, i + 1 as int);
                }
                return Err(e);
            },
            Ok(()) => {
            },
        }
        proof {
            assert(out@ =~= old(out)@ + form_pairs(
                pairs@.take(i + 1 as int),
                name@,
                explode,
                *p,
            )->Ok_0);
        }
        i = i + 1;
    }
    proof {
        assert(pairs@.take(n as int) =~= pairs@);
    }
    Ok(())
}

/// Writes a struct's fields by the `form` map rule.
#[verifier::rlimit(50)]
fn write_fields(
    out: &mut String,
    fields: &Vec<(String, Value)>,
    name: &str,
    explode: bool,
    p: &EncodingFn,
) -> (r: Result<(), QuerylizerError>)
    ensures
        match form_fields(fields@, name@, explode, *p) {
            Ok(t) => r is Ok && final(out)@ == old(out)@ + t,
            Err(e) => r == Err::<(), QuerylizerError>(e) && old(out)@.is_prefix_of(final(out)@),
        },
{
    let n = fields.len();
    let mut i: usize = 0;
    while i < n
        invariant
            n == fields@.len(),
            0 <= i <= n,
            form_fields(fields@.take(i as int), name@, explode, *p) is Ok,
            out@ == old(out)@ + form_fields(fields@.take(i as int), name@, explode, *p)->Ok_0,
        decreases n - i,
    {
        if i == 0 {
            if !explode {
                write_name_eq(out, name, p);
            }
        } else {
            push_char(out, if explode { '&' } else { ',' });
        }
        proof {
            assert(fields@.take(i + 1 as int).drop_last() =~= fields@.take(i as int));
            assert(fields@.take(i + 1 as int).last() == fields@[i as int]);
        }
        escape_into(out, p, fields[i].0.as_str());
        push_char(out, if explode { '=' } else { ',' });
        let r = write_elem(out, &fields[i].1, p);
        match r {
            Err(e) => {
                proof {
                    lemma_form_fields_err(fields@, name@, explode, *p, i + 1 as int);
                }
                return Err(e);
            },
            Ok(()) => {
            },
        }
        proof {
            assert(out@ =~= old(out)@ + form_fields(
                fields@.take(i + 1 as int),
                name@,
                explode,
                *p,
            )->Ok_0);
        }
        i = i + 1;
    }
    proof {
        assert(fields@.take(n as int) =~= fields@);
    }
    Ok(())
}

/// Writes the complete `form` rendering of a top-level value.
fn write_value(out: &mut String, name: &str, v: &Value, explode: bool, p: &EncodingFn) -> (r:
    Result<(), QuerylizerError>)
    ensures
        match form_output(*v, name@, explode, *p) {
            Ok(t) => r is Ok && final(out)@ == old(out)@ + t,
            Err(e) => r == Err::<(), QuerylizerError>(e) && old(out)@.is_prefix_of(final(out)@),
        },
    decreases v,
{
    match v {
        Value::Bool(_) => Err(QuerylizerError::UnsupportedValue),
        Value::Integer(_) | Value::Unsigned(_) | Value::Float(_) | Value::Char(_) | Value::Str(
            _,
        ) => {
            write_name_eq(out, name, p);
            write_scalar(out, p, v);
            Ok(())
        },
        Value::NewtypeStruct(b) => write_value(out, name, &**b, explode, p),
        Value::NewtypeVariant(b) => write_value(out, name, &**b, explode, p),
        Value::Present(b) => write_value(out, name, &**b, explode, p),
        Value::Absent | Value::Unit | Value::UnitVariant(_) => {
            write_name_eq(out, name, p);
            Ok(())
        },
        Value::UnitStruct => Err(QuerylizerError::UnsupportedNesting),
        Value::Bytes(bs) => {
            if bs.len() == 0 {
                Err(QuerylizerError::UnsupportedValue)
            } else {
                write_bytes(out, bs, name, explode, p);
                Ok(())
            }
        },
        Value::Sequence(items) => {
            if items.len() == 0 {
                Err(QuerylizerError::UnsupportedValue)
            } else {
                write_items(out, items, name, explode, p)
            }
        },
        Value::Tuple(items) => {
            if items.len() == 0 {
                Err(QuerylizerError::UnsupportedValue)
            } else {
                write_items(out, items, name, explode, p)
            }
        },
        Value::Mapping(pairs) => {
            if pairs.len() == 0 {
                Err(QuerylizerError::UnsupportedValue)
            } else {
                write_pairs(out, pairs, name, explode, p)
            }
        },
        Value::Struct(fields) => {
            if fields.len() == 0 {
                Err(QuerylizerError::UnsupportedValue)
            } else {
                write_fields(out, fields, name, explode, p)
            }
        },
        Value::StructVariant(_, fields) => {
            if fields.len() == 0 {
                Err(QuerylizerError::UnsupportedValue)
            } else {
                write_fields(out, fields, name, explode, p)
            }
        },
    }
}

/// The `form` style encoder.
pub struct Form;

impl Form {
    /// Renders `value` in the `form` style into a fresh string.
    ///
    /// Returns exactly the text of [`form_output`], or its failure.
    pub fn to_string(name: &str, value: &Value, explode: bool, encoder: EncodingFn) -> (r: Result<
        String,
        QuerylizerError,
    >)
        ensures
            match form_output(*value, name@, explode, encoder) {
                Ok(t) => r is Ok && r->Ok_0@ == t,
                Err(e) => r == Err::<String, QuerylizerError>(e),
            },
    {
        let mut out = String::new();
        match write_value(&mut out, name, value, explode, &encoder) {
            Ok(()) => Ok(out),
            Err(e) => Err(e),
        }
    }

    /// Appends the `form` rendering of `value` to `output`.
    ///
    /// On success exactly the text of [`form_output`] is appended; on
    /// failure the buffer keeps its old contents as a prefix and may have
    /// gained a partial fragment.
    pub fn extend(
        output: &mut String,
        name: &str,
        value: &Value,
        explode: bool,
        encoder: EncodingFn,
    ) -> (r: Result<(), QuerylizerError>)
        ensures
            match form_output(*value, name@, explode, encoder) {
                Ok(t) => r is Ok && final(output)@ == old(output)@ + t,
                Err(e) => r == Err::<(), QuerylizerError>(e) && old(output)@.is_prefix_of(
                    final(output)@,
                ),
            },
    {
        write_value(output, name, value, explode, &encoder)
    }
}

} // verus!
