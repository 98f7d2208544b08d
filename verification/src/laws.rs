//! Laws relating the encoders' outputs to plain joins of their per-element
//! texts: how often the parameter name appears, which separator joins the
//! segments, and that elements appear in input order.  Each law is stated
//! over the style's spec functions and proved once and for all.
use vstd::prelude::*;

use crate::deep::deep_elem;
use crate::deep::deep_fields;
use crate::deep::deep_output;
use crate::deep::deep_pair;
use crate::deep::deep_pairs;
use crate::escape::esc;
use crate::escape::EncodingFn;
use crate::form::form_elem;
use crate::form::form_fields;
use crate::form::form_items;
use crate::form::form_output;
use crate::form::form_pairs;
use crate::deepform::deepform_elem;
use crate::deepform::deepform_field;
use crate::deepform::deepform_fields;
use crate::deepform::deepform_output;
use crate::deepform::spec_name_in;
use crate::render::scalar_text;
use crate::simple::simple_elem;
use crate::simple::simple_items;
use crate::simple::simple_output;
use crate::spec_is_scalar;
use crate::value::Value;
use crate::QuerylizerError;

verus! {

/// The texts of `ts` joined by `sep`: `ts[0] sep ts[1] sep … ts[n-1]`.
pub open spec fn join_with(ts: Seq<Seq<char>>, sep: Seq<char>) -> Seq<char>
    decreases ts.len(),
{
    if ts.len() == 0 {
        Seq::empty()
    } else if ts.len() == 1 {
        ts[0]
    } else {
        join_with(ts.drop_last(), sep) + sep + ts.last()
    }
}

/// Rendering a supported scalar in the `simple` style with the identity
/// policy is lossless: the output is exactly the text the numeral
/// formatting contract produces for the value.
pub proof fn lemma_simple_scalar_lossless(v: Value, explode: bool)
    requires
        spec_is_scalar(v),
    ensures
        simple_output(v, explode, EncodingFn::Passthrough) == Ok::<Seq<char>, QuerylizerError>(
            scalar_text(v),
        ),
{
}

/// Rendering a supported scalar in the `form` style with the identity
/// policy is lossless: the output is `name=` followed by exactly the text
/// the numeral formatting contract produces.  Booleans are excluded: the
/// `form` style rejects them.
pub proof fn lemma_form_scalar_lossless(v: Value, name: Seq<char>, explode: bool)
    requires
        spec_is_scalar(v),
        !(v is Bool),
    ensures
        form_output(v, name, explode, EncodingFn::Passthrough) == Ok::<Seq<char>, QuerylizerError>(
            name + seq!['='] + scalar_text(v),
        ),
{
}

/// For an exploded `form` sequence whose elements all render, the output
/// is exactly one `name=` per element, in input order, joined by `&`.
pub proof fn lemma_form_items_exploded(items: Seq<Value>, name: Seq<char>, p: EncodingFn)
    requires
        forall|i: int| 0 <= i < items.len() ==> (#[trigger] form_elem(items[i], p)) is Ok,
    ensures
        form_items(items, name, true, p) == Ok::<Seq<char>, QuerylizerError>(
            join_with(
                Seq::new(
                    items.len(),
                    |i: int| esc(p, name) + seq!['='] + form_elem(items[i], p)->Ok_0,
                ),
                seq!['&'],
            ),
        ),
    decreases items.len(),
{
    let ts = Seq::new(
        items.len(),
        |i: int| esc(p, name) + seq!['='] + form_elem(items[i], p)->Ok_0,
    );
    if items.len() == 0 {
    } else {
        let front = items.drop_last();
        lemma_form_items_exploded(front, name, p);
        let ts_front = Seq::new(
            front.len(),
            |i: int| esc(p, name) + seq!['='] + form_elem(front[i], p)->Ok_0,
        );
        assert(ts.drop_last() =~= ts_front);
        assert(form_items(items, name, true, p)->Ok_0 =~= join_with(ts, seq!['&']));
    }
}

/// For an exploded `form` sequence of length at least one whose elements
/// all render, the whole output has exactly `n` occurrences of `name=`,
/// `&`-joined, one per element, in input order.
pub proof fn lemma_form_sequence_exploded(items: Vec<Value>, name: Seq<char>, p: EncodingFn)
    requires
        items@.len() >= 1,
        forall|i: int| 0 <= i < items@.len() ==> (#[trigger] form_elem(items@[i], p)) is Ok,
    ensures
        form_output(Value::Sequence(items), name, true, p) == Ok::<Seq<char>, QuerylizerError>(
            join_with(
                Seq::new(
                    items@.len(),
                    |i: int| esc(p, name) + seq!['='] + form_elem(items@[i], p)->Ok_0,
                ),
                seq!['&'],
            ),
        ),
{
    lemma_form_items_exploded(items@, name, p);
}

/// For a non-exploded `form` sequence whose elements all render, the
/// output is exactly one `name=` followed by the comma-joined elements.
pub proof fn lemma_form_items_flat(items: Seq<Value>, name: Seq<char>, p: EncodingFn)
    requires
        items.len() >= 1,
        forall|i: int| 0 <= i < items.len() ==> (#[trigger] form_elem(items[i], p)) is Ok,
    ensures
        form_items(items, name, false, p) == Ok::<Seq<char>, QuerylizerError>(
            esc(p, name) + seq!['='] + join_with(
                Seq::new(items.len(), |i: int| form_elem(items[i], p)->Ok_0),
                seq![','],
            ),
        ),
    decreases items.len(),
{
    let ts = Seq::new(items.len(), |i: int| form_elem(items[i], p)->Ok_0);
    if items.len() == 1 {
        assert(form_items(items, name, false, p)->Ok_0 =~= esc(p, name) + seq!['='] + join_with(
            ts,
            seq![','],
        ));
    } else {
        let front = items.drop_last();
        lemma_form_items_flat(front, name, p);
        let ts_front = Seq::new(front.len(), |i: int| form_elem(front[i], p)->Ok_0);
        assert(ts.drop_last() =~= ts_front);
        assert(form_items(items, name, false, p)->Ok_0 =~= esc(p, name) + seq!['='] + join_with(
            ts,
            seq![','],
        ));
    }
}

/// For a non-exploded `form` sequence of length at least one whose
/// elements all render, the whole output is one `name=` followed by the
/// `n` comma-joined elements.
pub proof fn lemma_form_sequence_flat(items: Vec<Value>, name: Seq<char>, p: EncodingFn)
    requires
        items@.len() >= 1,
        forall|i: int| 0 <= i < items@.len() ==> (#[trigger] form_elem(items@[i], p)) is Ok,
    ensures
        form_output(Value::Sequence(items), name, false, p) == Ok::<Seq<char>, QuerylizerError>(
            esc(p, name) + seq!['='] + join_with(
                Seq::new(items@.len(), |i: int| form_elem(items@[i], p)->Ok_0),
                seq![','],
            ),
        ),
{
    lemma_form_items_flat(items@, name, p);
}

/// For a `deepObject` struct whose field values all render, the output has
/// exactly one `name[field]=value` segment per field, `&`-joined, fields
/// in input order.
pub proof fn lemma_deep_fields_shape(fields: Seq<(String, Value)>, name: Seq<char>, p: EncodingFn)
    requires
        forall|i: int| 0 <= i < fields.len() ==> (#[trigger] deep_elem(fields[i].1, p)) is Ok,
    ensures
        deep_fields(fields, name, p) == Ok::<Seq<char>, QuerylizerError>(
            join_with(
                Seq::new(
                    fields.len(),
                    |i: int| esc(p, name) + seq!['['] + esc(p, fields[i].0@) + seq![']', '=']
                        + deep_elem(fields[i].1, p)->Ok_0,
                ),
                seq!['&'],
            ),
        ),
    decreases fields.len(),
{
    let ts = Seq::new(
        fields.len(),
        |i: int| esc(p, name) + seq!['['] + esc(p, fields[i].0@) + seq![']', '='] + deep_elem(
            fields[i].1,
            p,
        )->Ok_0,
    );
    if fields.len() == 0 {
    } else {
        let front = fields.drop_last();
        lemma_deep_fields_shape(front, name, p);
        let ts_front = Seq::new(
            front.len(),
            |i: int| esc(p, name) + seq!['['] + esc(p, front[i].0@) + seq![']', '='] + deep_elem(
                front[i].1,
                p,
            )->Ok_0,
        );
        assert(ts.drop_last() =~= ts_front);
        assert(deep_fields(fields, name, p)->Ok_0 =~= join_with(ts, seq!['&']));
    }
}

/// For a `deepObject` map whose keys and values all render, the output has
/// exactly one `name[key]=value` segment per pair, `&`-joined, pairs in
/// input order.
pub proof fn lemma_deep_pairs_shape(pairs: Seq<(Value, Value)>, name: Seq<char>, p: EncodingFn)
    requires
        forall|i: int| 0 <= i < pairs.len() ==> (#[trigger] deep_elem(pairs[i].0, p)) is Ok,
        forall|i: int| 0 <= i < pairs.len() ==> (#[trigger] deep_elem(pairs[i].1, p)) is Ok,
    ensures
        deep_pairs(pairs, name, p) == Ok::<Seq<char>, QuerylizerError>(
            join_with(
                Seq::new(
                    pairs.len(),
                    |i: int| esc(p, name) + seq!['['] + deep_elem(pairs[i].0, p)->Ok_0 + seq![
                        ']',
                        '=',
                    ] + deep_elem(pairs[i].1, p)->Ok_0,
                ),
                seq!['&'],
            ),
        ),
    decreases pairs.len(),
{
    let ts = Seq::new(
        pairs.len(),
        |i: int| esc(p, name) + seq!['['] + deep_elem(pairs[i].0, p)->Ok_0 + seq![']', '=']
            + deep_elem(pairs[i].1, p)->Ok_0,
    );
    if pairs.len() == 0 {
    } else {
        let front = pairs.drop_last();
        lemma_deep_pairs_shape(front, name, p);
        let ts_front = Seq::new(
            front.len(),
            |i: int| esc(p, name) + seq!['['] + deep_elem(front[i].0, p)->Ok_0 + seq![']', '=']
                + deep_elem(front[i].1, p)->Ok_0,
        );
        assert(ts.drop_last() =~= ts_front);
        assert(deep_pair(name, pairs.last().0, pairs.last().1, p)->Ok_0 == ts.last());
        assert(deep_pairs(pairs, name, p)->Ok_0 =~= join_with(ts, seq!['&']));
    }
}

/// For a `form` map whose keys and values all render: without `explode`
/// the output is `name=k1,v1,k2,v2,…`; with `explode` it is
/// `k1=v1&k2=v2&…` and the parameter name is absent.
pub proof fn lemma_form_pairs_shape(
    pairs: Seq<(Value, Value)>,
    name: Seq<char>,
    p: EncodingFn,
)
    requires
        pairs.len() >= 1,
        forall|i: int| 0 <= i < pairs.len() ==> (#[trigger] form_elem(pairs[i].0, p)) is Ok,
        forall|i: int| 0 <= i < pairs.len() ==> (#[trigger] form_elem(pairs[i].1, p)) is Ok,
    ensures
        form_pairs(pairs, name, false, p) == Ok::<Seq<char>, QuerylizerError>(
            esc(p, name) + seq!['='] + join_with(
                Seq::new(
                    pairs.len(),
                    |i: int| form_elem(pairs[i].0, p)->Ok_0 + seq![','] + form_elem(
                        pairs[i].1,
                        p,
                    )->Ok_0,
                ),
                seq![','],
            ),
        ),
        form_pairs(pairs, name, true, p) == Ok::<Seq<char>, QuerylizerError>(
            join_with(
                Seq::new(
                    pairs.len(),
                    |i: int| form_elem(pairs[i].0, p)->Ok_0 + seq!['='] + form_elem(
                        pairs[i].1,
                        p,
                    )->Ok_0,
                ),
                seq!['&'],
            ),
        ),
    decreases pairs.len(),
{
    let flat = Seq::new(
        pairs.len(),
        |i: int| form_elem(pairs[i].0, p)->Ok_0 + seq![','] + form_elem(pairs[i].1, p)->Ok_0,
    );
    let expl = Seq::new(
        pairs.len(),
        |i: int| form_elem(pairs[i].0, p)->Ok_0 + seq!['='] + form_elem(pairs[i].1, p)->Ok_0,
    );
    if pairs.len() == 1 {
        assert(form_pairs(pairs, name, false, p)->Ok_0 =~= esc(p, name) + seq!['='] + join_with(
            flat,
            seq![','],
        ));
        assert(form_pairs(pairs, name, true, p)->Ok_0 =~= join_with(expl, seq!['&']));
    } else {
        let front = pairs.drop_last();
        lemma_form_pairs_shape(front, name, p);
        let flat_front = Seq::new(
            front.len(),
            |i: int| form_elem(front[i].0, p)->Ok_0 + seq![','] + form_elem(front[i].1, p)->Ok_0,
        );
        let expl_front = Seq::new(
            front.len(),
            |i: int| form_elem(front[i].0, p)->Ok_0 + seq!['='] + form_elem(front[i].1, p)->Ok_0,
        );
        assert(flat.drop_last() =~= flat_front);
        assert(expl.drop_last() =~= expl_front);
        assert(form_pairs(pairs, name, false, p)->Ok_0 =~= esc(p, name) + seq!['='] + join_with(
            flat,
            seq![','],
        ));
        assert(form_pairs(pairs, name, true, p)->Ok_0 =~= join_with(expl, seq!['&']));
    }
}

/// For a `form` struct whose field values all render: without `explode`
/// the output is `name=f1,v1,f2,v2,…`; with `explode` it is
/// `f1=v1&f2=v2&…` and the parameter name is absent.
pub proof fn lemma_form_fields_shape(
    fields: Seq<(String, Value)>,
    name: Seq<char>,
    p: EncodingFn,
)
    requires
        fields.len() >= 1,
        forall|i: int| 0 <= i < fields.len() ==> (#[trigger] form_elem(fields[i].1, p)) is Ok,
    ensures
        form_fields(fields, name, false, p) == Ok::<Seq<char>, QuerylizerError>(
            esc(p, name) + seq!['='] + join_with(
                Seq::new(
                    fields.len(),
                    |i: int| esc(p, fields[i].0@) + seq![','] + form_elem(fields[i].1, p)->Ok_0,
                ),
                seq![','],
            ),
        ),
        form_fields(fields, name, true, p) == Ok::<Seq<char>, QuerylizerError>(
            join_with(
                Seq::new(
                    fields.len(),
                    |i: int| esc(p, fields[i].0@) + seq!['='] + form_elem(fields[i].1, p)->Ok_0,
                ),
                seq!['&'],
            ),
        ),
    decreases fields.len(),
{
    let flat = Seq::new(
        fields.len(),
        |i: int| esc(p, fields[i].0@) + seq![','] + form_elem(fields[i].1, p)->Ok_0,
    );
    let expl = Seq::new(
        fields.len(),
        |i: int| esc(p, fields[i].0@) + seq!['='] + form_elem(fields[i].1, p)->Ok_0,
    );
    if fields.len() == 1 {
        assert(form_fields(fields, name, false, p)->Ok_0 =~= esc(p, name) + seq!['='] + join_with(
            flat,
            seq![','],
        ));
        assert(form_fields(fields, name, true, p)->Ok_0 =~= join_with(expl, seq!['&']));
    } else {
        let front = fields.drop_last();
        lemma_form_fields_shape(front, name, p);
        let flat_front = Seq::new(
            front.len(),
            |i: int| esc(p, front[i].0@) + seq![','] + form_elem(front[i].1, p)->Ok_0,
        );
        let expl_front = Seq::new(
            front.len(),
            |i: int| esc(p, front[i].0@) + seq!['='] + form_elem(front[i].1, p)->Ok_0,
        );
        assert(flat.drop_last() =~= flat_front);
        assert(expl.drop_last() =~= expl_front);
        assert(form_fields(fields, name, false, p)->Ok_0 =~= esc(p, name) + seq!['='] + join_with(
            flat,
            seq![','],
        ));
        assert(form_fields(fields, name, true, p)->Ok_0 =~= join_with(expl, seq!['&']));
    }
}

/// True of a container value that holds no elements.
pub open spec fn is_empty_container(v: Value) -> bool {
    match v {
        Value::Bytes(bs) => bs@.len() == 0,
        Value::Sequence(items) => items@.len() == 0,
        Value::Tuple(items) => items@.len() == 0,
        Value::Mapping(pairs) => pairs@.len() == 0,
        Value::Struct(fields) => fields@.len() == 0,
        Value::StructVariant(_, fields) => fields@.len() == 0,
        _ => false,
    }
}

/// True of a container value (an object, sequence, tuple or byte string).
pub open spec fn is_container(v: Value) -> bool {
    match v {
        Value::Bytes(_) => true,
        Value::Sequence(_) => true,
        Value::Tuple(_) => true,
        Value::Mapping(_) => true,
        Value::Struct(_) => true,
        Value::StructVariant(_, _) => true,
        _ => false,
    }
}

/// True of an object-shaped container (map, struct or struct variant) —
/// the only containers the `deepObject` style accepts at all.
pub open spec fn is_object_container(v: Value) -> bool {
    match v {
        Value::Mapping(_) => true,
        Value::Struct(_) => true,
        Value::StructVariant(_, _) => true,
        _ => false,
    }
}

/// Closing a container with zero elements written is an unsupported-value
/// failure, in every style.  For `deepObject` this covers the object
/// shapes; its other container shapes are unsupported values outright,
/// empty or not.
pub proof fn lemma_empty_container_rejected(
    v: Value,
    name: Seq<char>,
    explode: bool,
    p: EncodingFn,
    deep: Seq<String>,
)
    requires
        is_empty_container(v),
    ensures
        simple_output(v, explode, p) == Err::<Seq<char>, QuerylizerError>(
            QuerylizerError::UnsupportedValue,
        ),
        form_output(v, name, explode, p) == Err::<Seq<char>, QuerylizerError>(
            QuerylizerError::UnsupportedValue,
        ),
        deep_output(v, name, p) == Err::<Seq<char>, QuerylizerError>(
            QuerylizerError::UnsupportedValue,
        ),
        deepform_output(v, name, p, deep) == Err::<Seq<char>, QuerylizerError>(
            QuerylizerError::UnsupportedValue,
        ),
{
}

/// Entering a container while already inside one is a nesting violation:
/// in every style, a container value standing as an element of another
/// container is rejected with the nesting failure.  The one exception is
/// the `deepObject` style, where sequence, tuple and byte-string shapes
/// are unsupported values everywhere, so inside a container they report
/// the unsupported-value failure instead.
pub proof fn lemma_nested_container_rejected(v: Value, p: EncodingFn)
    requires
        is_container(v),
    ensures
        simple_elem(v, p) == Err::<Seq<char>, QuerylizerError>(
            QuerylizerError::UnsupportedNesting,
        ),
        form_elem(v, p) == Err::<Seq<char>, QuerylizerError>(QuerylizerError::UnsupportedNesting),
        deepform_elem(v, p) == Err::<Seq<char>, QuerylizerError>(
            QuerylizerError::UnsupportedNesting,
        ),
        is_object_container(v) ==> deep_elem(v, p) == Err::<Seq<char>, QuerylizerError>(
            QuerylizerError::UnsupportedNesting,
        ),
        !is_object_container(v) ==> deep_elem(v, p) == Err::<Seq<char>, QuerylizerError>(
            QuerylizerError::UnsupportedValue,
        ),
{
}


proof fn lemma_simple_items_all_ok(items: Seq<Value>, p: EncodingFn)
    requires
        forall|j: int| 0 <= j < items.len() ==> (#[trigger] simple_elem(items[j], p)) is Ok,
    ensures
        simple_items(items, p) is Ok,
    decreases items.len(),
{
    if items.len() > 0 {
        let front = items.drop_last();
        assert forall|j: int| 0 <= j < front.len() implies (#[trigger] simple_elem(
            front[j],
            p,
        )) is Ok by {
            assert(front[j] == items[j]);
        }
        lemma_simple_items_all_ok(front, p);
    }
}

proof fn lemma_form_items_all_ok(items: Seq<Value>, name: Seq<char>, explode: bool, p: EncodingFn)
    requires
        forall|j: int| 0 <= j < items.len() ==> (#[trigger] form_elem(items[j], p)) is Ok,
    ensures
        form_items(items, name, explode, p) is Ok,
    decreases items.len(),
{
    if items.len() > 0 {
        let front = items.drop_last();
        assert forall|j: int| 0 <= j < front.len() implies (#[trigger] form_elem(
            front[j],
            p,
        )) is Ok by {
            assert(front[j] == items[j]);
        }
        lemma_form_items_all_ok(front, name, explode, p);
    }
}

proof fn lemma_deep_fields_all_ok(fields: Seq<(String, Value)>, name: Seq<char>, p: EncodingFn)
    requires
        forall|j: int| 0 <= j < fields.len() ==> (#[trigger] deep_elem(fields[j].1, p)) is Ok,
    ensures
        deep_fields(fields, name, p) is Ok,
    decreases fields.len(),
{
    if fields.len() > 0 {
        let front = fields.drop_last();
        assert forall|j: int| 0 <= j < front.len() implies (#[trigger] deep_elem(
            front[j].1,
            p,
        )) is Ok by {
            assert(front[j] == fields[j]);
        }
        lemma_deep_fields_all_ok(front, name, p);
    }
}

proof fn lemma_deepform_fields_all_ok(fields: Seq<(String, Value)>, p: EncodingFn, deep: Seq<String>)
    requires
        forall|j: int| 0 <= j < fields.len() ==> (#[trigger] deepform_field(
            fields[j].0@,
            fields[j].1,
            p,
            deep,
        )) is Ok,
    ensures
        deepform_fields(fields, p, deep) is Ok,
    decreases fields.len(),
{
    if fields.len() > 0 {
        let front = fields.drop_last();
        assert forall|j: int| 0 <= j < front.len() implies (#[trigger] deepform_field(
            front[j].0@,
            front[j].1,
            p,
            deep,
        )) is Ok by {
            assert(front[j] == fields[j]);
        }
        lemma_deepform_fields_all_ok(front, p, deep);
    }
}

/// A container standing as a sequence or tuple element makes the whole
/// `simple` rendering fail with the nesting violation, provided the
/// earlier elements render (an earlier failure would win instead).
pub proof fn lemma_simple_nested_element(items: Vec<Value>, i: int, explode: bool, p: EncodingFn)
    requires
        0 <= i < items@.len(),
        is_container(items@[i]),
        forall|j: int| 0 <= j < i ==> (#[trigger] simple_elem(items@[j], p)) is Ok,
    ensures
        simple_output(Value::Sequence(items), explode, p) == Err::<Seq<char>, QuerylizerError>(
            QuerylizerError::UnsupportedNesting,
        ),
        simple_output(Value::Tuple(items), explode, p) == Err::<Seq<char>, QuerylizerError>(
            QuerylizerError::UnsupportedNesting,
        ),
{
    let s = items@;
    lemma_nested_container_rejected(s[i], p);
    let head = s.take(i);
    assert forall|j: int| 0 <= j < head.len() implies (#[trigger] simple_elem(
        head[j],
        p,
    )) is Ok by {
        assert(head[j] == s[j]);
    }
    lemma_simple_items_all_ok(head, p);
    assert(s.take(i + 1).drop_last() =~= head);
    assert(s.take(i + 1).last() == s[i]);
    crate::simple::lemma_simple_items_err(s, p, i + 1);
}

/// A container standing as a sequence or tuple element makes the whole
/// `form` rendering fail with the nesting violation, for every name,
/// explode flag and policy, provided the earlier elements render.
pub proof fn lemma_form_nested_element(
    items: Vec<Value>,
    i: int,
    name: Seq<char>,
    explode: bool,
    p: EncodingFn,
)
    requires
        0 <= i < items@.len(),
        is_container(items@[i]),
        forall|j: int| 0 <= j < i ==> (#[trigger] form_elem(items@[j], p)) is Ok,
    ensures
        form_output(Value::Sequence(items), name, explode, p) == Err::<Seq<char>, QuerylizerError>(
            QuerylizerError::UnsupportedNesting,
        ),
        form_output(Value::Tuple(items), name, explode, p) == Err::<Seq<char>, QuerylizerError>(
            QuerylizerError::UnsupportedNesting,
        ),
{
    let s = items@;
    lemma_nested_container_rejected(s[i], p);
    let head = s.take(i);
    assert forall|j: int| 0 <= j < head.len() implies (#[trigger] form_elem(head[j], p)) is Ok by {
        assert(head[j] == s[j]);
    }
    lemma_form_items_all_ok(head, name, explode, p);
    assert(s.take(i + 1).drop_last() =~= head);
    assert(s.take(i + 1).last() == s[i]);
    crate::form::lemma_form_items_err(s, name, explode, p, i + 1);
}

/// An object-shaped container standing as a struct field's value makes the
/// whole `deepObject` rendering fail with the nesting violation, provided
/// the earlier field values render.  A sequence-shaped field value fails
/// with the unsupported-value error instead, since those shapes are
/// illegal for the style everywhere.
pub proof fn lemma_deep_nested_field(
    fields: Vec<(String, Value)>,
    i: int,
    name: Seq<char>,
    p: EncodingFn,
)
    requires
        0 <= i < fields@.len(),
        is_object_container(fields@[i].1),
        forall|j: int| 0 <= j < i ==> (#[trigger] deep_elem(fields@[j].1, p)) is Ok,
    ensures
        deep_output(Value::Struct(fields), name, p) == Err::<Seq<char>, QuerylizerError>(
            QuerylizerError::UnsupportedNesting,
        ),
{
    let s = fields@;
    lemma_nested_container_rejected(s[i].1, p);
    let head = s.take(i);
    assert forall|j: int| 0 <= j < head.len() implies (#[trigger] deep_elem(
        head[j].1,
        p,
    )) is Ok by {
        assert(head[j] == s[j]);
    }
    lemma_deep_fields_all_ok(head, name, p);
    assert(s.take(i + 1).drop_last() =~= head);
    assert(s.take(i + 1).last() == s[i]);
    crate::deep::lemma_deep_fields_err(s, name, p, i + 1);
}

/// A container standing as the value of a struct field whose name is not
/// in the deep set makes the whole "deep form" rendering fail with the
/// nesting violation, provided the earlier fields render.  A field named
/// in the deep set instead renders its one container level through the
/// `deepObject` encoder, whose own nesting rule then governs anything
/// deeper.
pub proof fn lemma_deepform_nested_plain_field(
    fields: Vec<(String, Value)>,
    i: int,
    name: Seq<char>,
    p: EncodingFn,
    deep: Seq<String>,
)
    requires
        0 <= i < fields@.len(),
        !spec_name_in(deep, fields@[i].0@),
        is_container(fields@[i].1),
        forall|j: int| 0 <= j < i ==> (#[trigger] deepform_field(
            fields@[j].0@,
            fields@[j].1,
            p,
            deep,
        )) is Ok,
    ensures
        deepform_output(Value::Struct(fields), name, p, deep) == Err::<Seq<char>, QuerylizerError>(
            QuerylizerError::UnsupportedNesting,
        ),
{
    let s = fields@;
    lemma_nested_container_rejected(s[i].1, p);
    let head = s.take(i);
    assert forall|j: int| 0 <= j < head.len() implies (#[trigger] deepform_field(
        head[j].0@,
        head[j].1,
        p,
        deep,
    )) is Ok by {
        assert(head[j] == s[j]);
    }
    lemma_deepform_fields_all_ok(head, p, deep);
    assert(s.take(i + 1).drop_last() =~= head);
    assert(s.take(i + 1).last() == s[i]);
    crate::deepform::lemma_deepform_fields_err(s, p, deep, i + 1);
}


/// A second container level below a deep field is also a nesting
/// violation: when a struct field named in the deep set holds a struct one
/// of whose own field values is an object-shaped container, the whole
/// "deep form" rendering fails with the nesting violation, provided the
/// earlier fields (outer and inner) render.
pub proof fn lemma_deepform_nested_deep_field(
    fields: Vec<(String, Value)>,
    i: int,
    inner_i: int,
    name: Seq<char>,
    p: EncodingFn,
    deep: Seq<String>,
)
    requires
        0 <= i < fields@.len(),
        spec_name_in(deep, fields@[i].0@),
        fields@[i].1 is Struct,
        0 <= inner_i < fields@[i].1->Struct_0@.len(),
        is_object_container(fields@[i].1->Struct_0@[inner_i].1),
        forall|j: int| 0 <= j < inner_i ==> (#[trigger] deep_elem(
            fields@[i].1->Struct_0@[j].1,
            p,
        )) is Ok,
        forall|j: int| 0 <= j < i ==> (#[trigger] deepform_field(
            fields@[j].0@,
            fields@[j].1,
            p,
            deep,
        )) is Ok,
    ensures
        deepform_output(Value::Struct(fields), name, p, deep) == Err::<Seq<char>, QuerylizerError>(
            QuerylizerError::UnsupportedNesting,
        ),
{
    let s = fields@;
    let key = s[i].0@;
    lemma_deep_nested_field(s[i].1->Struct_0, inner_i, key, p);
    assert(deepform_field(key, s[i].1, p, deep) == Err::<Seq<char>, QuerylizerError>(
        QuerylizerError::UnsupportedNesting,
    ));
    let head = s.take(i);
    assert forall|j: int| 0 <= j < head.len() implies (#[trigger] deepform_field(
        head[j].0@,
        head[j].1,
        p,
        deep,
    )) is Ok by {
        assert(head[j] == s[j]);
    }
    lemma_deepform_fields_all_ok(head, p, deep);
    assert(s.take(i + 1).drop_last() =~= head);
    assert(s.take(i + 1).last() == s[i]);
    crate::deepform::lemma_deepform_fields_err(s, p, deep, i + 1);
}

} // verus!
