//! Errors returned while encoding to `application/x-www-form-urlencoded`.

use vstd::prelude::*;

verus! {

/// The diagnostic carried by a rejected byte string: how long its longest
/// valid UTF-8 prefix is.
#[derive(Clone, Copy, Debug, PartialEq, Eq)]
pub struct Utf8Detail {
    pub valid_up_to: usize,
}

/// An error of one encode call.
///
/// `Custom` carries a message: the fixed top-level message, the message
/// naming an unsupported value kind, or a caller's own message. `Utf8`
/// reports bytes that are not valid UTF-8, with the diagnostic.
#[derive(Clone, Debug, PartialEq, Eq)]
pub enum Error {
    Custom(String),
    Utf8(Utf8Detail),
}

/// The mathematical form of an [`Error`], used by every contract.
pub enum ErrorSpec {
    Custom(Seq<char>),
    Utf8 { valid_up_to: int },
}

impl View for Error {
    type V = ErrorSpec;

    open spec fn view(&self) -> ErrorSpec {
        match self {
            Error::Custom(msg) => ErrorSpec::Custom(msg@),
            Error::Utf8(detail) => ErrorSpec::Utf8 { valid_up_to: detail.valid_up_to as int },
        }
    }
}

/// The message of every top-level rejection.
pub open spec fn top_level_msg() -> Seq<char> {
    "top-level serializer supports only structs"@
}

impl Error {
    /// The error reported when the root value is not record-like.
    pub fn top_level() -> (e: Error)
        ensures
            e@ == ErrorSpec::Custom(top_level_msg()),
    {
        let msg = "top-level serializer supports only structs";
        Error::Custom(String::from_str(msg))
    }
}

} // verus!
