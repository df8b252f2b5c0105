//! The closed tree of input shapes that the encoder accepts or rejects.

use vstd::prelude::*;

verus! {

/// One structured input value.
///
/// The encoder walks a tree of these and turns it into the flat
/// `key=value&key=value` grammar of `application/x-www-form-urlencoded`
/// text. Scalars become the text of one pair; `Optional` and `Sequence`
/// fan a field out into zero or many pairs; `Record` is the only shape
/// (besides `Unit` and `NamedUnit`) accepted at the root. `Map`, `Tuple`
/// and the variant-with-payload shapes are representable here but have
/// no output mapping, so the encoder rejects them wherever they appear.
pub enum Value {
    /// A boolean, emitted as `true` or `false`.
    Boolean(bool),
    /// Signed integers of each supported width, emitted in canonical decimal.
    I8(i8),
    I16(i16),
    I32(i32),
    I64(i64),
    I128(i128),
    /// Unsigned integers of each supported width, emitted in canonical decimal.
    U8(u8),
    U16(u16),
    U32(u32),
    U64(u64),
    U128(u128),
    /// A floating-point value of either supported width, carried as its
    /// decimal text. The text is produced by the caller's shortest
    /// round-trip float formatter, since no float itself can pass through
    /// the verified encoder; the encoder emits the text verbatim.
    Float(String),
    /// A single character, emitted as its own text.
    Char(char),
    /// A string, emitted verbatim (escaping is the sink's concern).
    Text(String),
    /// Raw bytes: emitted as text when they are valid UTF-8, rejected
    /// otherwise.
    Bytes(Vec<u8>),
    /// The unit value: a valid no-op as a field, accepted at the root.
    Unit,
    /// A unit struct carrying only its name.
    NamedUnit(String),
    /// A unit enum variant carrying only its name.
    NamedVariant(String),
    /// A newtype wrapper: transparent, the inner value is re-dispatched.
    Newtype(Box<Value>),
    /// An optional value: absent emits nothing, present re-dispatches.
    Optional(Option<Box<Value>>),
    /// An ordered sequence: as a field it fans out into one pair per
    /// element under the same key; nesting a sequence inside one is
    /// rejected.
    Sequence(Vec<Value>),
    /// An ordered list of named fields: the root shape of an encode call.
    /// Nested below a field it is rejected.
    Record(Vec<(String, Value)>),
    /// A map of key/value entries: representable but always rejected.
    Mapping(Vec<(Value, Value)>),
    /// A tuple: representable but always rejected.
    Tuple(Vec<Value>),
    /// An enum variant wrapping one value: representable but always rejected.
    NewtypeVariant(String, Box<Value>),
    /// An enum variant with a list of values: representable but always rejected.
    TupleVariant(String, Vec<Value>),
    /// An enum variant with named fields: representable but always rejected.
    StructVariant(String, Vec<(String, Value)>),
}

} // verus!
