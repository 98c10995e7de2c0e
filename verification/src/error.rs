//! The failure outcomes surfaced by encode and decode.

use vstd::prelude::*;

verus! {

/// Base64 error type.  Each variant is a distinct, matchable failure kind
/// carrying no payload.
#[derive(Clone, Copy, Debug, PartialEq, Eq, Structural)]
pub enum Error {
    /// The assembled encoded bytes could not be interpreted as text.
    Utf8,
    /// Unexpected number of bytes remaining after encoding.
    EncodeUnexpectedRemainderBytes,
    /// Input string length invalid under the `Strict` padding policy.
    DecodeInvalidInputLength,
    /// Unexpected number of characters remaining after decoding.
    DecodeUnexpectedRemainderChars,
}

} // verus!
