//! The append-only, percent-escaping output accumulator.
//!
//! The accumulator wraps `form_urlencoded::Serializer`, owned by one
//! encode call for its whole duration. Its accumulated text is named by
//! [`sink_text`]; the percent-escaped form of one component is named by
//! [`escaped`]. Each pair appended lands as `escaped(key)=escaped(value)`,
//! after a `&` separator whenever text is already present.

use vstd::prelude::*;

verus! {

/// The sink of one encode call: a form-urlencoded serializer writing into
/// a string of its own.
#[verifier::external_body]
pub struct Sink {
    inner: form_urlencoded::Serializer<'static, String>,
}

/// The text accumulated in a sink so far.
pub uninterp spec fn sink_text(s: Sink) -> Seq<char>;

/// The percent-escaped form of one key or value, as the sink writes it:
/// bytes outside `*`, `-`, `.`, `_` and the alphanumerics become `%XX`
/// escapes of their UTF-8 encoding, except the space, which becomes `+`.
pub uninterp spec fn escaped(s: Seq<char>) -> Seq<char>;

/// The text of one `key=value` pair, pre-join.
pub open spec fn pair_text(key: Seq<char>, value: Seq<char>) -> Seq<char> {
    escaped(key) + seq!['='] + escaped(value)
}

/// What one append leaves in the sink: the pair's text, after a `&`
/// separator when text was already present.
pub open spec fn append_one(text: Seq<char>, key: Seq<char>, value: Seq<char>) -> Seq<char> {
    if text.len() == 0 {
        pair_text(key, value)
    } else {
        text + seq!['&'] + pair_text(key, value)
    }
}

impl Sink {
    /// Relies on `form_urlencoded::Serializer::new`: a serializer over the
    /// given target, here a fresh empty string.
    #[verifier::external_body]
    pub(crate) fn new() -> (s: Sink)
        ensures
            sink_text(s) == Seq::<char>::empty(),
    {
        Sink { inner: form_urlencoded::Serializer::new(String::new()) }
    }

    /// Relies on `form_urlencoded::Serializer::append_pair`: it pushes `&`
    /// when the accumulated text is non-empty, then the percent-escaped
    /// key, `=`, and the percent-escaped value.
    #[verifier::external_body]
    pub(crate) fn append_pair(&mut self, key: &str, value: &str)
        ensures
            sink_text(*final(self)) == append_one(sink_text(*old(self)), key@, value@),
            sink_text(*old(self)).len() == 0 ==> sink_text(*final(self)) == escaped(key@)
                + seq!['='] + escaped(value@),
    {
        self.inner.append_pair(key, value);
    }

    /// Relies on `form_urlencoded::Serializer::finish`: it hands back the
    /// accumulated string. Taking the sink by value keeps the call from
    /// ever being the second finish, on which the serializer would panic.
    #[verifier::external_body]
    pub(crate) fn finish(self) -> (r: String)
        ensures
            r@ == sink_text(self),
    {
        let mut inner = self.inner;
        inner.finish()
    }
}

} // verus!
