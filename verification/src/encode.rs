//! Encoder: transforms a byte sequence into Base64 text under a given
//! configuration, by packing each group of 3 input bytes into 4 six-bit
//! indices looked up through the alphabet.

use vstd::prelude::*;

use crate::alpha::PAD_BYTE;
use crate::config::{emits_padding, Base64Config, Base64Padding};
use crate::error::Error;

verus! {

/// The four alphabet characters encoding one full group of 3 bytes:
/// the bytes packed big-endian into 24 bits, sliced into 6-bit indices,
/// most significant first.
pub open spec fn encode_group3(a: Seq<u8>, b0: u8, b1: u8, b2: u8) -> Seq<u8> {
    seq![
        a[(b0 >> 2) as int],
        a[(((b0 & 0x03) << 4) | (b1 >> 4)) as int],
        a[(((b1 & 0x0f) << 2) | (b2 >> 6)) as int],
        a[(b2 & 0x3f) as int],
    ]
}

/// The characters encoding a final group of fewer than 3 bytes: the top
/// 6-bit slices holding real data, then padding when the policy emits it.
pub open spec fn encode_rem(a: Seq<u8>, rem: Seq<u8>, emit_pad: bool) -> Seq<u8> {
    if rem.len() == 1 {
        seq![a[(rem[0] >> 2) as int], a[((rem[0] & 0x03) << 4) as int]] + if emit_pad {
            seq![PAD_BYTE, PAD_BYTE]
        } else {
            Seq::<u8>::empty()
        }
    } else if rem.len() == 2 {
        seq![
            a[(rem[0] >> 2) as int],
            a[(((rem[0] & 0x03) << 4) | (rem[1] >> 4)) as int],
            a[((rem[1] & 0x0f) << 2) as int],
        ] + if emit_pad {
            seq![PAD_BYTE]
        } else {
            Seq::<u8>::empty()
        }
    } else {
        Seq::<u8>::empty()
    }
}

/// The Base64 encoding of `bytes` under alphabet `a`: full groups of 3,
/// then the remainder, with padding when `emit_pad` holds.
pub open spec fn encode_spec(a: Seq<u8>, emit_pad: bool, bytes: Seq<u8>) -> Seq<u8>
    decreases bytes.len(),
{
    if bytes.len() >= 3 {
        encode_group3(a, bytes[0], bytes[1], bytes[2]) + encode_spec(a, emit_pad, bytes.skip(3))
    } else {
        encode_rem(a, bytes, emit_pad)
    }
}

/// A sequence of ASCII bytes read as a sequence of characters.
pub open spec fn ascii_chars_of(s: Seq<u8>) -> Seq<char> {
    Seq::new(s.len(), |i: int| s[i] as char)
}

/// Relies on `String::from_utf8`: bytes below 128 are valid UTF-8 and
/// decode to exactly one character per byte, with the same code point.
#[verifier::external_body]
fn ascii_bytes_to_string(bytes: Vec<u8>) -> (r: String)
    requires
        forall|i: int| 0 <= i < bytes@.len() ==> bytes@[i] < 128,
    ensures
        r@.len() == bytes@.len(),
        forall|i: int| 0 <= i < bytes@.len() ==> r@[i] == bytes@[i] as char,
{
    match String::from_utf8(bytes) {
        Ok(s) => s,
        Err(_) => String::new(),
    }
}

/// Base64 encoder.
pub struct Base64Encoder<'a> {
    /// Base64 encoder config.
    config: &'a Base64Config,
}

impl<'a> Base64Encoder<'a> {
    /// The configuration this encoder reads.
    pub closed spec fn spec_config(&self) -> Base64Config {
        *self.config
    }

    /// Creates a new Base64 encoder over the given config.
    pub fn new(config: &'a Base64Config) -> (e: Self)
        ensures
            e.spec_config() == *config,
    {
        Self { config }
    }

    /// Encodes the given bytes as a Base64 string.  Never fails: the output
    /// is exactly the encoding of the input under the configured alphabet,
    /// padded when the policy emits padding.
    pub fn encode(&self, bytes: &[u8]) -> (r: Result<String, Error>)
        requires
            self.spec_config().wf(),
        ensures
            r matches Ok(s) && s@ == ascii_chars_of(
                encode_spec(
                    self.spec_config().alphabet@,
                    emits_padding(self.spec_config().padding),
                    bytes@,
                ),
            ),
    {
        let ghost a = self.config.alphabet@;
        let ghost p = emits_padding(self.config.padding);
        let emit_pad = matches!(self.config.padding, Base64Padding::Auto | Base64Padding::Strict);
        let len = bytes.len();
        let mut out: Vec<u8> = Vec::new();
        let mut i: usize = 0;
        proof {
            assert(bytes@.skip(0) =~= bytes@);
            assert(out@ + encode_spec(a, p, bytes@.skip(0)) =~= encode_spec(a, p, bytes@));
        }
        while len - i >= 3
            invariant
                self.spec_config().wf(),
                a == self.spec_config().alphabet@,
                p == emits_padding(self.spec_config().padding),
                emit_pad == p,
                len == bytes@.len(),
                i <= len,
                out@ + encode_spec(a, p, bytes@.skip(i as int)) == encode_spec(a, p, bytes@),
                forall|j: int| 0 <= j < out@.len() ==> out@[j] < 128,
            decreases len - i,
        {
            let b0 = bytes[i];
            let b1 = bytes[i + 1];
            let b2 = bytes[i + 2];
            let i0 = b0 >> 2;
            let i1 = ((b0 & 0x03) << 4) | (b1 >> 4);
            let i2 = ((b1 & 0x0f) << 2) | (b2 >> 6);
            let i3 = b2 & 0x3f;
            proof {
                assert(b0 >> 2 < 64 && ((b0 & 0x03) << 4) | (b1 >> 4) < 64 && ((b1 & 0x0f) << 2)
                    | (b2 >> 6) < 64 && b2 & 0x3f < 64) by (bit_vector);
            }
            out.push(self.config.alphabet[i0 as usize]);
            out.push(self.config.alphabet[i1 as usize]);
            out.push(self.config.alphabet[i2 as usize]);
            out.push(self.config.alphabet[i3 as usize]);
            proof {
                let rest = bytes@.skip(i as int);
                assert(rest[0] == b0 && rest[1] == b1 && rest[2] == b2);
                assert(rest.skip(3) =~= bytes@.skip(i + 3));
                assert(out@ + encode_spec(a, p, bytes@.skip(i + 3)) =~= encode_spec(a, p, bytes@));
            }
            i = i + 3;
        }
        proof {
            assert(bytes@.skip(i as int).len() < 3);
        }
        if len - i == 1 {
            let b0 = bytes[i];
            let i0 = b0 >> 2;
            let i1 = (b0 & 0x03) << 4;
            proof {
                assert(b0 >> 2 < 64 && (b0 & 0x03) << 4 < 64) by (bit_vector);
            }
            out.push(self.config.alphabet[i0 as usize]);
            out.push(self.config.alphabet[i1 as usize]);
            if emit_pad {
                out.push(PAD_BYTE);
                out.push(PAD_BYTE);
            }
            proof {
                let rest = bytes@.skip(i as int);
                assert(rest.len() == 1 && rest[0] == b0);
                assert(out@ =~= encode_spec(a, p, bytes@));
            }
        } else if len - i == 2 {
            let b0 = bytes[i];
            let b1 = bytes[i + 1];
            let i0 = b0 >> 2;
            let i1 = ((b0 & 0x03) << 4) | (b1 >> 4);
            let i2 = (b1 & 0x0f) << 2;
            proof {
                assert(b0 >> 2 < 64 && ((b0 & 0x03) << 4) | (b1 >> 4) < 64 && (b1 & 0x0f) << 2
                    < 64) by (bit_vector);
            }
            out.push(self.config.alphabet[i0 as usize]);
            out.push(self.config.alphabet[i1 as usize]);
            out.push(self.config.alphabet[i2 as usize]);
            if emit_pad {
                out.push(PAD_BYTE);
            }
            proof {
                let rest = bytes@.skip(i as int);
                assert(rest.len() == 2 && rest[0] == b0 && rest[1] == b1);
                assert(out@ =~= encode_spec(a, p, bytes@));
            }
        } else {
            proof {
                assert(bytes@.skip(i as int).len() == 0);
                assert(out@ =~= encode_spec(a, p, bytes@));
            }
        }
        let s = ascii_bytes_to_string(out);
        proof {
            assert(s@ =~= ascii_chars_of(encode_spec(a, p, bytes@)));
        }
        Ok(s)
    }
}

} // verus!
