//! Laws of the encoding, stated over the model and proved once for all
//! inputs.

use vstd::prelude::*;

use crate::encode::SpecPair;
use crate::encode::appended;
use crate::encode::element_pairs;
use crate::encode::joined;
use crate::encode::lemma_appended_concat;
use crate::encode::record_pairs;
use crate::encode::root_pairs;
use crate::encode::sequence_pairs;
use crate::encode::value_pairs;
use crate::error::ErrorSpec;
use crate::error::top_level_msg;
use crate::sink::append_one;
use crate::sink::pair_text;
use crate::scalar::bool_text;
use crate::scalar::dec_int;
use crate::scalar::utf8_valid_prefix_len;
use crate::value::Value;

verus! {

/// A value that emits exactly one pair wherever it stands: a scalar, a
/// string-like value, valid-UTF-8 bytes, or a bare name.
pub open spec fn single_pair_value(v: Value) -> bool {
    match v {
        Value::Boolean(_) => true,
        Value::I8(_) => true,
        Value::I16(_) => true,
        Value::I32(_) => true,
        Value::I64(_) => true,
        Value::I128(_) => true,
        Value::U8(_) => true,
        Value::U16(_) => true,
        Value::U32(_) => true,
        Value::U64(_) => true,
        Value::U128(_) => true,
        Value::Float(_) => true,
        Value::Char(_) => true,
        Value::Text(_) => true,
        Value::Bytes(b) => vstd::utf8::valid_utf8(b@),
        Value::NamedUnit(_) => true,
        Value::NamedVariant(_) => true,
        _ => false,
    }
}

/// The text of the one pair a [`single_pair_value`] emits.
pub open spec fn single_pair_text(v: Value) -> Seq<char>
    recommends
        single_pair_value(v),
{
    match v {
        Value::Boolean(b) => bool_text(b),
        Value::I8(x) => dec_int(x as int),
        Value::I16(x) => dec_int(x as int),
        Value::I32(x) => dec_int(x as int),
        Value::I64(x) => dec_int(x as int),
        Value::I128(x) => dec_int(x as int),
        Value::U8(x) => dec_int(x as int),
        Value::U16(x) => dec_int(x as int),
        Value::U32(x) => dec_int(x as int),
        Value::U64(x) => dec_int(x as int),
        Value::U128(x) => dec_int(x as int),
        Value::Float(t) => t@,
        Value::Char(c) => seq![c],
        Value::Text(s) => s@,
        Value::Bytes(b) => vstd::utf8::decode_utf8(b@),
        Value::NamedUnit(n) => n@,
        Value::NamedVariant(n) => n@,
        _ => Seq::empty(),
    }
}

/// A value that emits one pair does so under any key, at field level and
/// at element level alike.
pub proof fn lemma_single_pair(key: Seq<char>, v: Value)
    requires
        single_pair_value(v),
    ensures
        element_pairs(key, v) == Ok::<Seq<SpecPair>, ErrorSpec>(
            seq![(key, single_pair_text(v))],
        ),
        value_pairs(key, v) == element_pairs(key, v),
{
}

/// The pairs of a record whose fields from `i` on each emit one pair: one
/// pair per field, in declaration order, keyed by the field's name.
proof fn lemma_scalar_record_from(fields: Seq<(String, Value)>, i: int)
    requires
        0 <= i <= fields.len(),
        forall|j: int| i <= j < fields.len() ==> single_pair_value(#[trigger] fields[j].1),
    ensures
        record_pairs(fields, i) == Ok::<Seq<SpecPair>, ErrorSpec>(
            Seq::new((fields.len() - i) as nat, |j: int| (fields[i + j].0@, single_pair_text(fields[i + j].1))),
        ),
    decreases fields.len() - i,
{
    let expected = Seq::new(
        (fields.len() - i) as nat,
        |j: int| (fields[i + j].0@, single_pair_text(fields[i + j].1)),
    );
    if i == fields.len() {
        assert(expected =~= Seq::<SpecPair>::empty());
    } else {
        lemma_single_pair(fields[i].0@, fields[i].1);
        lemma_scalar_record_from(fields, i + 1);
        let rest = Seq::new(
            (fields.len() - i - 1) as nat,
            |j: int| (fields[i + 1 + j].0@, single_pair_text(fields[i + 1 + j].1)),
        );
        assert(seq![(fields[i].0@, single_pair_text(fields[i].1))] + rest =~= expected);
    }
}

/// A record of fields that each emit one pair encodes to exactly one pair
/// per field, in declaration order: the field's name as the key and the
/// field's text as the value. Joined by the sink, that is the fields'
/// escaped `key=value` texts separated by `&`.
pub proof fn lemma_scalar_record(v: Value)
    requires
        v is Record,
        forall|i: int|
            0 <= i < v->Record_0@.len() ==> single_pair_value(#[trigger] v->Record_0@[i].1),
    ensures
        root_pairs(v) == Ok::<Seq<SpecPair>, ErrorSpec>(
            Seq::new(
                v->Record_0@.len(),
                |i: int| (v->Record_0@[i].0@, single_pair_text(v->Record_0@[i].1)),
            ),
        ),
{
    lemma_scalar_record_from(v->Record_0@, 0);
    assert(Seq::new(
        v->Record_0@.len(),
        |i: int| (v->Record_0@[i].0@, single_pair_text(v->Record_0@[i].1)),
    ) =~= Seq::new(
        (v->Record_0@.len() - 0) as nat,
        |j: int| (v->Record_0@[0 + j].0@, single_pair_text(v->Record_0@[0 + j].1)),
    ));
}

/// Tails of a record agree across removing an earlier field.
proof fn lemma_record_remove_shift(fields: Seq<(String, Value)>, k: int, i: int)
    requires
        0 <= k < fields.len(),
        k <= i <= fields.len() - 1,
    ensures
        record_pairs(fields.remove(k), i) == record_pairs(fields, i + 1),
    decreases fields.len() - i,
{
    let shorter = fields.remove(k);
    if i == fields.len() - 1 {
        assert(record_pairs(shorter, i) == Ok::<Seq<SpecPair>, ErrorSpec>(seq![]));
        assert(record_pairs(fields, i + 1) == Ok::<Seq<SpecPair>, ErrorSpec>(seq![]));
    } else {
        assert(shorter[i] == fields[i + 1]);
        lemma_record_remove_shift(fields, k, i + 1);
    }
}

/// A field holding an absent optional contributes zero pairs and no
/// separator: the record encodes exactly as the record with that field
/// removed, error for error and pair for pair.
pub proof fn lemma_absent_field_omitted(fields: Seq<(String, Value)>, k: int)
    requires
        0 <= k < fields.len(),
        fields[k].1 matches Value::Optional(o) && o is None,
    ensures
        record_pairs(fields, 0) == record_pairs(fields.remove(k), 0),
{
    lemma_absent_field_omitted_from(fields, k, 0);
}

/// The induction behind [`lemma_absent_field_omitted`], from field `i` on.
proof fn lemma_absent_field_omitted_from(fields: Seq<(String, Value)>, k: int, i: int)
    requires
        0 <= k < fields.len(),
        0 <= i <= k,
        fields[k].1 matches Value::Optional(o) && o is None,
    ensures
        record_pairs(fields, i) == record_pairs(fields.remove(k), i),
    decreases k - i,
{
    let shorter = fields.remove(k);
    if i == k {
        assert(value_pairs(fields[k].0@, fields[k].1) == Ok::<Seq<SpecPair>, ErrorSpec>(seq![]));
        if k == fields.len() - 1 {
            assert(record_pairs(shorter, k) == Ok::<Seq<SpecPair>, ErrorSpec>(seq![]));
            assert(record_pairs(fields, k + 1) == Ok::<Seq<SpecPair>, ErrorSpec>(seq![]));
        } else {
            lemma_record_remove_shift(fields, k, k);
        }
        match record_pairs(fields, k + 1) {
            Ok(rest) => {
                assert(Seq::<SpecPair>::empty() + rest =~= rest);
            },
            Err(_) => {},
        }
    } else {
        assert(shorter[i] == fields[i]);
        lemma_absent_field_omitted_from(fields, k, i + 1);
    }
}

/// The pairs of a sequence whose elements from `i` on each emit one pair.
proof fn lemma_sequence_fanout_from(key: Seq<char>, elems: Seq<Value>, i: int)
    requires
        0 <= i <= elems.len(),
        forall|j: int| i <= j < elems.len() ==> single_pair_value(#[trigger] elems[j]),
    ensures
        sequence_pairs(key, elems, i) == Ok::<Seq<SpecPair>, ErrorSpec>(
            Seq::new((elems.len() - i) as nat, |j: int| (key, single_pair_text(elems[i + j]))),
        ),
    decreases elems.len() - i,
{
    let expected = Seq::new(
        (elems.len() - i) as nat,
        |j: int| (key, single_pair_text(elems[i + j])),
    );
    if i == elems.len() {
        assert(expected =~= Seq::<SpecPair>::empty());
    } else {
        lemma_single_pair(key, elems[i]);
        lemma_sequence_fanout_from(key, elems, i + 1);
        let rest = Seq::new(
            (elems.len() - i - 1) as nat,
            |j: int| (key, single_pair_text(elems[i + 1 + j])),
        );
        assert(seq![(key, single_pair_text(elems[i]))] + rest =~= expected);
    }
}

/// A sequence field of elements that each emit one pair fans out into
/// exactly one pair per element, all under the field's key, in element
/// order.
pub proof fn lemma_sequence_fanout(key: Seq<char>, v: Value)
    requires
        v is Sequence,
        forall|i: int| 0 <= i < v->Sequence_0@.len() ==> single_pair_value(#[trigger] v->Sequence_0@[i]),
    ensures
        value_pairs(key, v) == Ok::<Seq<SpecPair>, ErrorSpec>(
            Seq::new(v->Sequence_0@.len(), |i: int| (key, single_pair_text(v->Sequence_0@[i]))),
        ),
{
    lemma_sequence_fanout_from(key, v->Sequence_0@, 0);
    assert(Seq::new(
        v->Sequence_0@.len(),
        |i: int| (key, single_pair_text(v->Sequence_0@[i])),
    ) =~= Seq::new(
        (v->Sequence_0@.len() - 0) as nat,
        |j: int| (key, single_pair_text(v->Sequence_0@[0 + j])),
    ));
}

/// A sequence nested as an element of a sequence field fails with the
/// error naming the sequence kind, once every element before it has
/// succeeded.
pub proof fn lemma_nested_sequence_rejected(key: Seq<char>, v: Value, k: int)
    requires
        v is Sequence,
        0 <= k < v->Sequence_0@.len(),
        v->Sequence_0@[k] is Sequence,
        forall|j: int| 0 <= j < k ==> element_pairs(key, #[trigger] v->Sequence_0@[j]) is Ok,
    ensures
        value_pairs(key, v) == Err::<Seq<SpecPair>, ErrorSpec>(
            ErrorSpec::Custom("unsupported value type: sequence"@),
        ),
{
    lemma_nested_sequence_rejected_from(key, v->Sequence_0@, k, 0);
}

/// The induction behind [`lemma_nested_sequence_rejected`].
proof fn lemma_nested_sequence_rejected_from(key: Seq<char>, elems: Seq<Value>, k: int, i: int)
    requires
        0 <= i <= k < elems.len(),
        elems[k] is Sequence,
        forall|j: int| 0 <= j < k ==> element_pairs(key, #[trigger] elems[j]) is Ok,
    ensures
        sequence_pairs(key, elems, i) == Err::<Seq<SpecPair>, ErrorSpec>(
            ErrorSpec::Custom("unsupported value type: sequence"@),
        ),
    decreases k - i,
{
    if i < k {
        lemma_nested_sequence_rejected_from(key, elems, k, i + 1);
    }
}

/// A root is record-like when it is a record, the unit, or a unit struct,
/// possibly under transparent newtype wrappers.
pub open spec fn record_like(v: Value) -> bool
    decreases v,
{
    match v {
        Value::Unit => true,
        Value::NamedUnit(_) => true,
        Value::Record(_) => true,
        Value::Newtype(inner) => record_like(*inner),
        _ => false,
    }
}

/// Every root that is not record-like — a bare boolean, number, float,
/// char, string, bytes, tag, sequence, map, tuple or payload-carrying
/// variant — is rejected with the top-level error before anything is
/// emitted; a unit or unit-struct root encodes to zero pairs, hence to
/// the empty string.
pub proof fn lemma_top_level_shapes(v: Value)
    ensures
        !record_like(v) ==> root_pairs(v) == Err::<Seq<SpecPair>, ErrorSpec>(
            ErrorSpec::Custom(top_level_msg()),
        ),
        v is Unit || v is NamedUnit ==> root_pairs(v) == Ok::<Seq<SpecPair>, ErrorSpec>(seq![])
            && joined(seq![]) == Seq::<char>::empty(),
    decreases v,
{
    match v {
        Value::Newtype(inner) => {
            lemma_top_level_shapes(*inner);
        },
        _ => {},
    }
}

/// Bytes that are valid UTF-8 encode exactly as the equivalent string
/// value: same pairs under every key.
pub proof fn lemma_bytes_as_text(key: Seq<char>, b: Value, s: Value)
    requires
        b is Bytes,
        s is Text,
        vstd::utf8::valid_utf8(b->Bytes_0@),
        vstd::utf8::decode_utf8(b->Bytes_0@) == s->Text_0@,
    ensures
        value_pairs(key, b) == value_pairs(key, s),
{
}

/// Bytes that are not valid UTF-8 fail with the UTF-8 error carrying the
/// length of their longest valid prefix, and emit no pair.
pub proof fn lemma_bytes_invalid_rejected(key: Seq<char>, v: Value)
    requires
        v is Bytes,
        !vstd::utf8::valid_utf8(v->Bytes_0@),
    ensures
        value_pairs(key, v) == Err::<Seq<SpecPair>, ErrorSpec>(
            ErrorSpec::Utf8 { valid_up_to: utf8_valid_prefix_len(v->Bytes_0@) },
        ),
{
}

/// Every appended pair lengthens the text: each pair text holds at least
/// its `=`.
proof fn lemma_appended_len(text: Seq<char>, ps: Seq<SpecPair>)
    ensures
        appended(text, ps).len() >= text.len() + ps.len(),
    decreases ps.len(),
{
    if ps.len() > 0 {
        lemma_appended_len(
            append_one(text, ps.first().0, ps.first().1),
            ps.drop_first(),
        );
    }
}

/// The joined output text of one more pair: the pair's escaped
/// `key=value` text lands after a `&` separator exactly when pairs came
/// before it, so separators stand between neighbouring pairs only — none
/// leads and none trails.
pub proof fn lemma_joined_step(pairs: Seq<SpecPair>, p: SpecPair)
    ensures
        joined(pairs.push(p)) == if pairs.len() == 0 {
            pair_text(p.0, p.1)
        } else {
            joined(pairs) + seq!['&'] + pair_text(p.0, p.1)
        },
{
    assert(pairs + seq![p] =~= pairs.push(p));
    lemma_appended_concat(Seq::empty(), pairs, seq![p]);
    let text = joined(pairs);
    assert(seq![p].first() == p);
    assert(seq![p].drop_first() =~= Seq::<SpecPair>::empty());
    assert(appended(text, seq![p]) == append_one(text, p.0, p.1)) by {
        assert(appended(append_one(text, p.0, p.1), seq![p].drop_first())
            == append_one(text, p.0, p.1));
    }
    if pairs.len() > 0 {
        lemma_appended_len(Seq::empty(), pairs);
    }
}

/// The output grammar written directly: zero pairs give the empty text,
/// and each further pair text follows a single `&`.
pub open spec fn amp_joined(pairs: Seq<SpecPair>) -> Seq<char>
    decreases pairs.len(),
{
    if pairs.len() == 0 {
        Seq::empty()
    } else if pairs.len() == 1 {
        pair_text(pairs[0].0, pairs[0].1)
    } else {
        amp_joined(pairs.drop_last()) + seq!['&'] + pair_text(pairs.last().0, pairs.last().1)
    }
}

/// The text an encode call hands back is exactly the emitted pairs'
/// escaped `key=value` texts joined by `&`: one segment per pair, in
/// emission order, with no leading, trailing or doubled separator.
pub proof fn lemma_joined_is_amp_joined(pairs: Seq<SpecPair>)
    ensures
        joined(pairs) == amp_joined(pairs),
    decreases pairs.len(),
{
    if pairs.len() > 0 {
        let front = pairs.drop_last();
        lemma_joined_is_amp_joined(front);
        lemma_joined_step(front, pairs.last());
        assert(front.push(pairs.last()) =~= pairs);
    }
}

/// A unit struct or unit variant standing as a field emits one pair with
/// the bare name as the value.
pub proof fn lemma_named_value(key: Seq<char>, v: Value)
    ensures
        v matches Value::NamedUnit(n) ==> value_pairs(key, v) == Ok::<Seq<SpecPair>, ErrorSpec>(
            seq![(key, n@)],
        ),
        v matches Value::NamedVariant(n) ==> value_pairs(key, v) == Ok::<
            Seq<SpecPair>,
            ErrorSpec,
        >(seq![(key, n@)]),
{
}

} // verus!
