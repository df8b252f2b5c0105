//! The encode traversal: dispatch over a [`Value`] tree, pair emission
//! into the sink, and the mathematical model that the contracts speak of.
//!
//! The model maps a value to the sequence of `(key, value-text)` pairs it
//! emits, or to the error that stops the walk. The exec dispatchers are
//! proved to leave in the sink exactly the text of those pairs, joined as
//! the sink joins them.

use vstd::prelude::*;

use crate::error::Error;
use crate::error::ErrorSpec;
use crate::error::top_level_msg;
use crate::scalar::bool_text;
use crate::scalar::dec_int;
use crate::scalar::utf8_valid_prefix_len;
use crate::sink::Sink;
use crate::sink::append_one;
use crate::sink::sink_text;
use crate::value::Value;

verus! {

/// One pre-escaping pair: the field's key and the value's text form.
pub type SpecPair = (Seq<char>, Seq<char>);

/// The pairs of one sequence element (or of any value where sequence
/// nesting is no longer allowed): the dispatch table of the value
/// dispatcher with a nested `Sequence` rejected.
pub open spec fn element_pairs(key: Seq<char>, v: Value) -> Result<Seq<SpecPair>, ErrorSpec>
    decreases v,
{
    match v {
        Value::Boolean(b) => Ok(seq![(key, bool_text(b))]),
        Value::I8(x) => Ok(seq![(key, dec_int(x as int))]),
        Value::I16(x) => Ok(seq![(key, dec_int(x as int))]),
        Value::I32(x) => Ok(seq![(key, dec_int(x as int))]),
        Value::I64(x) => Ok(seq![(key, dec_int(x as int))]),
        Value::I128(x) => Ok(seq![(key, dec_int(x as int))]),
        Value::U8(x) => Ok(seq![(key, dec_int(x as int))]),
        Value::U16(x) => Ok(seq![(key, dec_int(x as int))]),
        Value::U32(x) => Ok(seq![(key, dec_int(x as int))]),
        Value::U64(x) => Ok(seq![(key, dec_int(x as int))]),
        Value::U128(x) => Ok(seq![(key, dec_int(x as int))]),
        Value::Float(t) => Ok(seq![(key, t@)]),
        Value::Char(c) => Ok(seq![(key, seq![c])]),
        Value::Text(s) => Ok(seq![(key, s@)]),
        Value::Bytes(b) => if vstd::utf8::valid_utf8(b@) {
            Ok(seq![(key, vstd::utf8::decode_utf8(b@))])
        } else {
            Err(ErrorSpec::Utf8 { valid_up_to: utf8_valid_prefix_len(b@) })
        },
        Value::Unit => Ok(seq![]),
        Value::NamedUnit(n) => Ok(seq![(key, n@)]),
        Value::NamedVariant(n) => Ok(seq![(key, n@)]),
        Value::Newtype(inner) => element_pairs(key, *inner),
        Value::Optional(o) => match o {
            Option::None => Ok(seq![]),
            Option::Some(inner) => element_pairs(key, *inner),
        },
        Value::Sequence(_) => Err(ErrorSpec::Custom("unsupported value type: sequence"@)),
        Value::Record(_) => Err(ErrorSpec::Custom("unsupported value type: struct"@)),
        Value::Mapping(_) => Err(ErrorSpec::Custom("unsupported value type: map"@)),
        Value::Tuple(_) => Err(ErrorSpec::Custom("unsupported value type: tuple"@)),
        Value::NewtypeVariant(_, _) => Err(
            ErrorSpec::Custom("unsupported value type: newtype variant"@),
        ),
        Value::TupleVariant(_, _) => Err(ErrorSpec::Custom("unsupported value type: tuple variant"@)),
        Value::StructVariant(_, _) => Err(ErrorSpec::Custom("unsupported value type: struct variant"@)),
    }
}

/// The fan-out of a sequence field from element `i` on: each element's
/// pairs in element order under the shared key, stopping at the first
/// failing element.
pub open spec fn sequence_pairs(key: Seq<char>, elems: Seq<Value>, i: int) -> Result<
    Seq<SpecPair>,
    ErrorSpec,
>
    decreases elems.len() - i,
{
    if i < 0 || i >= elems.len() {
        Ok(seq![])
    } else {
        match element_pairs(key, elems[i]) {
            Err(e) => Err(e),
            Ok(ps) => match sequence_pairs(key, elems, i + 1) {
                Err(e) => Err(e),
                Ok(rest) => Ok(ps + rest),
            },
        }
    }
}

/// The pairs of one field's value under its key: the full dispatch table,
/// with a first-level `Sequence` fanned out.
pub open spec fn value_pairs(key: Seq<char>, v: Value) -> Result<Seq<SpecPair>, ErrorSpec>
    decreases v,
{
    match v {
        Value::Sequence(elems) => sequence_pairs(key, elems@, 0),
        Value::Newtype(inner) => value_pairs(key, *inner),
        Value::Optional(o) => match o {
            Option::None => Ok(seq![]),
            Option::Some(inner) => value_pairs(key, *inner),
        },
        _ => element_pairs(key, v),
    }
}

/// The pairs of a record from field `i` on: each field's pairs in
/// declaration order, stopping at the first failing field.
pub open spec fn record_pairs(fields: Seq<(String, Value)>, i: int) -> Result<
    Seq<SpecPair>,
    ErrorSpec,
>
    decreases fields.len() - i,
{
    if i < 0 || i >= fields.len() {
        Ok(seq![])
    } else {
        match value_pairs(fields[i].0@, fields[i].1) {
            Err(e) => Err(e),
            Ok(ps) => match record_pairs(fields, i + 1) {
                Err(e) => Err(e),
                Ok(rest) => Ok(ps + rest),
            },
        }
    }
}

/// The pairs of a whole encode call: only `Record`, `Unit` and
/// `NamedUnit` are accepted at the root, a `Newtype` unwrapping
/// transparently into the same acceptance check; every other root shape
/// is the top-level error.
pub open spec fn root_pairs(v: Value) -> Result<Seq<SpecPair>, ErrorSpec>
    decreases v,
{
    match v {
        Value::Unit => Ok(seq![]),
        Value::NamedUnit(_) => Ok(seq![]),
        Value::Record(fields) => record_pairs(fields@, 0),
        Value::Newtype(inner) => root_pairs(*inner),
        _ => Err(ErrorSpec::Custom(top_level_msg())),
    }
}

/// The sink's text after appending `pairs`, in order, onto `text`.
pub open spec fn appended(text: Seq<char>, pairs: Seq<SpecPair>) -> Seq<char>
    decreases pairs.len(),
{
    if pairs.len() == 0 {
        text
    } else {
        appended(append_one(text, pairs.first().0, pairs.first().1), pairs.drop_first())
    }
}

/// The final text of an encode call that emitted `pairs`: the pairs'
/// escaped `key=value` texts joined by `&`, with no trailing `&`.
pub open spec fn joined(pairs: Seq<SpecPair>) -> Seq<char> {
    appended(Seq::empty(), pairs)
}

/// Appending a concatenation of pair lists appends the parts in turn.
pub proof fn lemma_appended_concat(text: Seq<char>, a: Seq<SpecPair>, b: Seq<SpecPair>)
    ensures
        appended(text, a + b) == appended(appended(text, a), b),
    decreases a.len(),
{
    if a.len() == 0 {
        assert(a + b =~= b);
    } else {
        assert((a + b).first() == a.first());
        assert((a + b).drop_first() =~= a.drop_first() + b);
        lemma_appended_concat(append_one(text, a.first().0, a.first().1), a.drop_first(), b);
    }
}

/// Emits one pair and accounts for it in the model.
fn append_single(sink: &mut Sink, key: &str, value: &str)
    ensures
        sink_text(*final(sink)) == appended(sink_text(*old(sink)), seq![(key@, value@)]),
{
    sink.append_pair(key, value);
    proof {
        let ps = seq![(key@, value@)];
        assert(ps.drop_first() =~= Seq::<SpecPair>::empty());
        assert(appended(sink_text(*sink), ps.drop_first()) == sink_text(*sink));
    }
}

/// Builds the error naming an unsupported value kind.
fn unsupported(msg: &str) -> (e: Error)
    ensures
        e@ == ErrorSpec::Custom(msg@),
{
    Error::Custom(String::from_str(msg))
}

/// Encodes one sequence element (or any value below which sequence
/// nesting is no longer allowed) under the bound key.
fn encode_element(key: &str, v: &Value, sink: &mut Sink) -> (r: Result<(), Error>)
    ensures
        match element_pairs(key@, *v) {
            Ok(ps) => r is Ok && sink_text(*final(sink)) == appended(sink_text(*old(sink)), ps),
            Err(e) => (r matches Err(err) && err@ == e) && sink_text(*final(sink)) == sink_text(
                *old(sink),
            ),
        },
    decreases *v,
{
    match v {
        Value::Boolean(b) => {
            append_single(sink, key, if *b { "true" } else { "false" });
            Ok(())
        },
        Value::I8(x) => {
            let s = crate::scalar::format_i128(*x as i128);
            append_single(sink, key, s.as_str());
            Ok(())
        },
        Value::I16(x) => {
            let s = crate::scalar::format_i128(*x as i128);
            append_single(sink, key, s.as_str());
            Ok(())
        },
        Value::I32(x) => {
            let s = crate::scalar::format_i128(*x as i128);
            append_single(sink, key, s.as_str());
            Ok(())
        },
        Value::I64(x) => {
            let s = crate::scalar::format_i128(*x as i128);
            append_single(sink, key, s.as_str());
            Ok(())
        },
        Value::I128(x) => {
            let s = crate::scalar::format_i128(*x);
            append_single(sink, key, s.as_str());
            Ok(())
        },
        Value::U8(x) => {
            let s = crate::scalar::format_u128(*x as u128);
            append_single(sink, key, s.as_str());
            Ok(())
        },
        Value::U16(x) => {
            let s = crate::scalar::format_u128(*x as u128);
            append_single(sink, key, s.as_str());
            Ok(())
        },
        Value::U32(x) => {
            let s = crate::scalar::format_u128(*x as u128);
            append_single(sink, key, s.as_str());
            Ok(())
        },
        Value::U64(x) => {
            let s = crate::scalar::format_u128(*x as u128);
            append_single(sink, key, s.as_str());
            Ok(())
        },
        Value::U128(x) => {
            let s = crate::scalar::format_u128(*x);
            append_single(sink, key, s.as_str());
            Ok(())
        },
        Value::Float(t) => {
            append_single(sink, key, t.as_str());
            Ok(())
        },
        Value::Char(c) => {
            let s = crate::scalar::char_to_string(*c);
            append_single(sink, key, s.as_str());
            Ok(())
        },
        Value::Text(s) => {
            append_single(sink, key, s.as_str());
            Ok(())
        },
        Value::Bytes(b) => match crate::scalar::bytes_to_text(b) {
            Ok(s) => {
                append_single(sink, key, s.as_str());
                Ok(())
            },
            Err(d) => Err(Error::Utf8(d)),
        },
        Value::Unit => Ok(()),
        Value::NamedUnit(n) => {
            append_single(sink, key, n.as_str());
            Ok(())
        },
        Value::NamedVariant(n) => {
            append_single(sink, key, n.as_str());
            Ok(())
        },
        Value::Newtype(inner) => encode_element(key, inner, sink),
        Value::Optional(o) => match o {
            Option::None => Ok(()),
            Option::Some(inner) => encode_element(key, inner, sink),
        },
        Value::Sequence(_) => Err(unsupported("unsupported value type: sequence")),
        Value::Record(_) => Err(unsupported("unsupported value type: struct")),
        Value::Mapping(_) => Err(unsupported("unsupported value type: map")),
        Value::Tuple(_) => Err(unsupported("unsupported value type: tuple")),
        Value::NewtypeVariant(_, _) => Err(unsupported("unsupported value type: newtype variant")),
        Value::TupleVariant(_, _) => Err(unsupported("unsupported value type: tuple variant")),
        Value::StructVariant(_, _) => Err(unsupported("unsupported value type: struct variant")),
    }
}

/// Fans a sequence field out: one pair per element under the shared key,
/// in element order, stopping at the first failing element. Pairs of the
/// elements before a failure stay in the sink.
fn encode_sequence(key: &str, elems: &Vec<Value>, sink: &mut Sink) -> (r: Result<(), Error>)
    ensures
        match sequence_pairs(key@, elems@, 0) {
            Ok(ps) => r is Ok && sink_text(*final(sink)) == appended(sink_text(*old(sink)), ps),
            Err(e) => (r matches Err(err) && err@ == e) && exists|ps: Seq<SpecPair>|
                sink_text(*final(sink)) == appended(sink_text(*old(sink)), ps),
        },
{
    let ghost orig = sink_text(*sink);
    let ghost mut acc: Seq<SpecPair> = Seq::empty();
    let mut i: usize = 0;
    while i < elems.len()
        invariant
            i <= elems.len(),
            orig == sink_text(*old(sink)),
            sink_text(*sink) == appended(orig, acc),
            match sequence_pairs(key@, elems@, i as int) {
                Ok(rest) => sequence_pairs(key@, elems@, 0) == Ok::<Seq<SpecPair>, ErrorSpec>(
                    acc + rest,
                ),
                Err(e) => sequence_pairs(key@, elems@, 0) == Err::<Seq<SpecPair>, ErrorSpec>(e),
            },
        decreases elems.len() - i,
    {
        match encode_element(key, &elems[i], sink) {
            Ok(()) => {
                proof {
                    let ps = element_pairs(key@, elems@[i as int])->Ok_0;
                    lemma_appended_concat(orig, acc, ps);
                    if sequence_pairs(key@, elems@, i as int + 1) is Ok {
                        let rest = sequence_pairs(key@, elems@, i as int + 1)->Ok_0;
                        assert(acc + (ps + rest) =~= (acc + ps) + rest);
                    }
                    acc = acc + ps;
                }
                i += 1;
            },
            Err(e) => {
                proof {
                    assert(sink_text(*sink) == appended(sink_text(*old(sink)), acc));
                }
                return Err(e);
            },
        }
    }
    proof {
        assert(acc + Seq::<SpecPair>::empty() =~= acc);
    }
    Ok(())
}

/// Encodes one field's value under the bound key: the full dispatch
/// table, with a first-level sequence fanned out.
fn encode_value(key: &str, v: &Value, sink: &mut Sink) -> (r: Result<(), Error>)
    ensures
        match value_pairs(key@, *v) {
            Ok(ps) => r is Ok && sink_text(*final(sink)) == appended(sink_text(*old(sink)), ps),
            Err(e) => (r matches Err(err) && err@ == e) && exists|ps: Seq<SpecPair>|
                sink_text(*final(sink)) == appended(sink_text(*old(sink)), ps),
        },
    decreases *v,
{
    match v {
        Value::Sequence(elems) => encode_sequence(key, elems, sink),
        Value::Newtype(inner) => encode_value(key, inner, sink),
        Value::Optional(o) => match o {
            Option::None => Ok(()),
            Option::Some(inner) => encode_value(key, inner, sink),
        },
        _ => {
            let r = encode_element(key, v, sink);
            proof {
                if element_pairs(key@, *v) is Err {
                    assert(sink_text(*sink) == appended(
                        sink_text(*old(sink)),
                        Seq::<SpecPair>::empty(),
                    ));
                }
            }
            r
        },
    }
}

/// Walks the declared fields in order, binding each field's name as the
/// key and dispatching its value; the first failing field stops the walk,
/// with the pairs of the fields before it already in the sink.
fn encode_record(fields: &Vec<(String, Value)>, sink: &mut Sink) -> (r: Result<(), Error>)
    ensures
        match record_pairs(fields@, 0) {
            Ok(ps) => r is Ok && sink_text(*final(sink)) == appended(sink_text(*old(sink)), ps),
            Err(e) => (r matches Err(err) && err@ == e) && exists|ps: Seq<SpecPair>|
                sink_text(*final(sink)) == appended(sink_text(*old(sink)), ps),
        },
{
    let ghost orig = sink_text(*sink);
    let ghost mut acc: Seq<SpecPair> = Seq::empty();
    let mut i: usize = 0;
    while i < fields.len()
        invariant
            i <= fields.len(),
            orig == sink_text(*old(sink)),
            sink_text(*sink) == appended(orig, acc),
            match record_pairs(fields@, i as int) {
                Ok(rest) => record_pairs(fields@, 0) == Ok::<Seq<SpecPair>, ErrorSpec>(acc + rest),
                Err(e) => record_pairs(fields@, 0) == Err::<Seq<SpecPair>, ErrorSpec>(e),
            },
        decreases fields.len() - i,
    {
        let field = &fields[i];
        match encode_value(field.0.as_str(), &field.1, sink) {
            Ok(()) => {
                proof {
                    let ps = value_pairs(fields@[i as int].0@, fields@[i as int].1)->Ok_0;
                    lemma_appended_concat(orig, acc, ps);
                    if record_pairs(fields@, i as int + 1) is Ok {
                        let rest = record_pairs(fields@, i as int + 1)->Ok_0;
                        assert(acc + (ps + rest) =~= (acc + ps) + rest);
                    }
                    acc = acc + ps;
                }
                i += 1;
            },
            Err(e) => {
                proof {
                    let tail = choose|tail: Seq<SpecPair>|
                        sink_text(*sink) == appended(appended(orig, acc), tail);
                    lemma_appended_concat(orig, acc, tail);
                    assert(sink_text(*sink) == appended(sink_text(*old(sink)), acc + tail));
                }
                return Err(e);
            },
        }
    }
    proof {
        assert(acc + Seq::<SpecPair>::empty() =~= acc);
    }
    Ok(())
}

/// The top-level dispatcher: accepts `Record`, `Unit` and `NamedUnit`
/// (unwrapping a `Newtype` transparently into the same check), rejects
/// every other root shape before any sink mutation.
fn encode_root(v: &Value, sink: &mut Sink) -> (r: Result<(), Error>)
    ensures
        match root_pairs(*v) {
            Ok(ps) => r is Ok && sink_text(*final(sink)) == appended(sink_text(*old(sink)), ps),
            Err(e) => (r matches Err(err) && err@ == e) && exists|ps: Seq<SpecPair>|
                sink_text(*final(sink)) == appended(sink_text(*old(sink)), ps),
        },
    decreases *v,
{
    match v {
        Value::Unit => Ok(()),
        Value::NamedUnit(_) => Ok(()),
        Value::Record(fields) => encode_record(fields, sink),
        Value::Newtype(inner) => encode_root(inner, sink),
        _ => {
            proof {
                assert(sink_text(*sink) == appended(
                    sink_text(*old(sink)),
                    Seq::<SpecPair>::empty(),
                ));
            }
            Err(Error::top_level())
        },
    }
}

/// Encodes a structured value into one `application/x-www-form-urlencoded`
/// string: the root must be record-like (a `Record`, `Unit` or
/// `NamedUnit`, possibly under `Newtype` wrappers), and the result is the
/// text of the pairs its fields emit, escaped and joined by `&`.
pub fn to_string(input: &Value) -> (r: Result<String, Error>)
    ensures
        match root_pairs(*input) {
            Ok(pairs) => r matches Ok(s) && s@ == joined(pairs),
            Err(e) => r matches Err(err) && err@ == e,
        },
{
    let mut sink = Sink::new();
    match encode_root(input, &mut sink) {
        Ok(()) => Ok(sink.finish()),
        Err(e) => Err(e),
    }
}

} // verus!
