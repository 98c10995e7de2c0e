//! Base64 encoding and decoding as defined by RFC 4648, with the standard
//! and URL-safe alphabets and a configurable padding policy.  The encoding
//! and decoding transforms are specified over byte sequences and verified
//! against those specifications.

pub mod alpha;
pub mod config;
pub mod decode;
pub mod encode;
mod error;
pub mod laws;

pub use error::Error;

use vstd::prelude::*;
use vstd::string::StringSliceAdditionalSpecFns;

verus! {

/// Encodes the given bytes under the standard config: standard alphabet,
/// `Auto` padding (so padding is always emitted).
pub fn encode_std(bytes: &[u8]) -> (r: Result<String, Error>)
    ensures
        r matches Ok(s) && s@ == encode::ascii_chars_of(
            encode::encode_spec(alpha::spec_std_alphabet(), true, bytes@),
        ),
{
    let config = config::Base64Config::standard();
    let encoder = encode::Base64Encoder::new(&config);
    encoder.encode(bytes)
}

/// Decodes the given Base64 string under the standard config: standard
/// alphabet, `Auto` padding (so trailing padding is stripped first).
pub fn decode_std(s: &str) -> (r: Result<Vec<u8>, Error>)
    ensures
        ({
            let trimmed = decode::strip_padding(s.spec_bytes());
            if trimmed.len() % 4 == 1 {
                r == Err::<Vec<u8>, Error>(Error::DecodeUnexpectedRemainderChars)
            } else {
                r matches Ok(v) && v@ == decode::decode_spec(
                    alpha::spec_reverse_alphabet(alpha::spec_std_alphabet()),
                    trimmed,
                )
            }
        }),
{
    let config = config::Base64Config::standard();
    let decoder = decode::Base64Decoder::new(&config);
    decoder.decode(s)
}

} // verus!
