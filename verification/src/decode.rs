//! Decoder: transforms Base64 text back into bytes under a given
//! configuration, validating structure according to the padding policy.
//! Characters are mapped through the reverse alphabet without a membership
//! check: a byte outside the alphabet reads whatever index its reverse
//! table slot holds.

use vstd::prelude::*;
use vstd::string::StringSliceAdditionalSpecFns;

use crate::alpha::PAD_BYTE;
use crate::config::{emits_padding, Base64Config, Base64Padding};
use crate::error::Error;

verus! {

/// `s` with its trailing padding characters removed.
pub open spec fn strip_padding(s: Seq<u8>) -> Seq<u8>
    decreases s.len(),
{
    if s.len() > 0 && s[s.len() - 1] == PAD_BYTE {
        strip_padding(s.drop_last())
    } else {
        s
    }
}

/// The three bytes decoded from one full group of four characters: the four
/// 6-bit indices packed big-endian into 24 bits, emitted as 3 bytes.
pub open spec fn decode_group4(rev: Seq<u8>, c0: u8, c1: u8, c2: u8, c3: u8) -> Seq<u8> {
    let i0 = rev[c0 as int];
    let i1 = rev[c1 as int];
    let i2 = rev[c2 as int];
    let i3 = rev[c3 as int];
    seq![
        (i0 << 2) | (i1 >> 4),
        ((i1 & 0x0f) << 4) | (i2 >> 2),
        ((i2 & 0x03) << 6) | i3,
    ]
}

/// The bytes decoded from a final group of 2 or 3 characters: only the
/// slices carrying full bytes of data are reconstructed.
pub open spec fn decode_rem(rev: Seq<u8>, rem: Seq<u8>) -> Seq<u8> {
    if rem.len() == 2 {
        let i0 = rev[rem[0] as int];
        let i1 = rev[rem[1] as int];
        seq![(i0 << 2) | (i1 >> 4)]
    } else if rem.len() == 3 {
        let i0 = rev[rem[0] as int];
        let i1 = rev[rem[1] as int];
        let i2 = rev[rem[2] as int];
        seq![(i0 << 2) | (i1 >> 4), ((i1 & 0x0f) << 4) | (i2 >> 2)]
    } else {
        Seq::<u8>::empty()
    }
}

/// The bytes decoded from pad-stripped text `t` under reverse alphabet
/// `rev`: full groups of 4 characters, then the remainder.
pub open spec fn decode_spec(rev: Seq<u8>, t: Seq<u8>) -> Seq<u8>
    decreases t.len(),
{
    if t.len() >= 4 {
        decode_group4(rev, t[0], t[1], t[2], t[3]) + decode_spec(rev, t.skip(4))
    } else {
        decode_rem(rev, t)
    }
}

/// Base64 decoder.
pub struct Base64Decoder<'a> {
    /// Base64 decoder config.
    config: &'a Base64Config,
}

impl<'a> Base64Decoder<'a> {
    /// The configuration this decoder reads.
    pub closed spec fn spec_config(&self) -> Base64Config {
        *self.config
    }

    /// Creates a new Base64 decoder over the given config.
    pub fn new(config: &'a Base64Config) -> (d: Self)
        ensures
            d.spec_config() == *config,
    {
        Self { config }
    }

    /// Decodes the given Base64 string as a byte vector.  Under `Strict`,
    /// an input whose byte length is not a multiple of 4 is rejected; under
    /// `Auto` and `Strict` trailing padding is stripped before decoding;
    /// a stripped input whose length leaves a remainder of 1 is rejected;
    /// every other input decodes to exactly the bytes its 6-bit indices
    /// pack.
    pub fn decode(&self, s: &str) -> (r: Result<Vec<u8>, Error>)
        requires
            self.spec_config().wf(),
        ensures
            ({
                let input = s.spec_bytes();
                let cfg = self.spec_config();
                let trimmed = if emits_padding(cfg.padding) {
                    strip_padding(input)
                } else {
                    input
                };
                &&& (cfg.padding is Strict && input.len() % 4 != 0) ==> r == Err::<
                    Vec<u8>,
                    Error,
                >(Error::DecodeInvalidInputLength)
                &&& !(cfg.padding is Strict && input.len() % 4 != 0) ==> if trimmed.len() % 4
                    == 1 {
                    r == Err::<Vec<u8>, Error>(Error::DecodeUnexpectedRemainderChars)
                } else {
                    r matches Ok(v) && v@ == decode_spec(cfg.rev_alphabet@, trimmed)
                }
            }),
    {
        let ghost input = s.spec_bytes();
        let ghost rev = self.spec_config().rev_alphabet@;
        let bytes = s.as_bytes();
        let n = bytes.len();
        if matches!(self.config.padding, Base64Padding::Strict) && n % 4 != 0 {
            return Err(Error::DecodeInvalidInputLength);
        }
        let mut end = n;
        if matches!(self.config.padding, Base64Padding::Auto | Base64Padding::Strict) {
            proof {
                assert(input.take(n as int) =~= input);
            }
            while end > 0 && bytes[end - 1] == PAD_BYTE
                invariant
                    end <= n,
                    n == input.len(),
                    bytes@ == input,
                    strip_padding(input) == strip_padding(input.take(end as int)),
                decreases end,
            {
                proof {
                    let t = input.take(end as int);
                    assert(t.len() == end && t[end - 1] == input[end - 1]);
                    assert(t.drop_last() =~= input.take(end - 1));
                }
                end = end - 1;
            }
            proof {
                let t = input.take(end as int);
                assert(strip_padding(t) == t);
            }
        } else {
            proof {
                assert(input.take(end as int) =~= input);
            }
        }
        let ghost trimmed = input.take(end as int);
        if end % 4 == 1 {
            return Err(Error::DecodeUnexpectedRemainderChars);
        }
        let mut out: Vec<u8> = Vec::new();
        let mut i: usize = 0;
        proof {
            assert(trimmed.skip(0) =~= trimmed);
            assert(out@ + decode_spec(rev, trimmed.skip(0)) =~= decode_spec(rev, trimmed));
        }
        while end - i >= 4
            invariant
                i <= end <= n,
                i % 4 == 0,
                n == input.len(),
                bytes@ == input,
                trimmed == input.take(end as int),
                self.spec_config().wf(),
                rev == self.spec_config().rev_alphabet@,
                out@ + decode_spec(rev, trimmed.skip(i as int)) == decode_spec(rev, trimmed),
            decreases end - i,
        {
            let c0 = bytes[i];
            let c1 = bytes[i + 1];
            let c2 = bytes[i + 2];
            let c3 = bytes[i + 3];
            let i0 = self.config.rev_alphabet[c0 as usize];
            let i1 = self.config.rev_alphabet[c1 as usize];
            let i2 = self.config.rev_alphabet[c2 as usize];
            let i3 = self.config.rev_alphabet[c3 as usize];
            out.push((i0 << 2) | (i1 >> 4));
            out.push(((i1 & 0x0f) << 4) | (i2 >> 2));
            out.push(((i2 & 0x03) << 6) | i3);
            proof {
                let rest = trimmed.skip(i as int);
                assert(rest[0] == c0 && rest[1] == c1 && rest[2] == c2 && rest[3] == c3);
                assert(rest.skip(4) =~= trimmed.skip(i + 4));
                assert(out@ + decode_spec(rev, trimmed.skip(i + 4)) =~= decode_spec(
                    rev,
                    trimmed,
                ));
            }
            i = i + 4;
        }
        if end - i == 2 {
            let c0 = bytes[i];
            let c1 = bytes[i + 1];
            let i0 = self.config.rev_alphabet[c0 as usize];
            let i1 = self.config.rev_alphabet[c1 as usize];
            out.push((i0 << 2) | (i1 >> 4));
            proof {
                let rest = trimmed.skip(i as int);
                assert(rest.len() == 2 && rest[0] == c0 && rest[1] == c1);
                assert(out@ =~= decode_spec(rev, trimmed));
            }
        } else if end - i == 3 {
            let c0 = bytes[i];
            let c1 = bytes[i + 1];
            let c2 = bytes[i + 2];
            let i0 = self.config.rev_alphabet[c0 as usize];
            let i1 = self.config.rev_alphabet[c1 as usize];
            let i2 = self.config.rev_alphabet[c2 as usize];
            out.push((i0 << 2) | (i1 >> 4));
            out.push(((i1 & 0x0f) << 4) | (i2 >> 2));
            proof {
                let rest = trimmed.skip(i as int);
                assert(rest.len() == 3 && rest[0] == c0 && rest[1] == c1 && rest[2] == c2);
                assert(out@ =~= decode_spec(rev, trimmed));
            }
        } else {
            proof {
                assert(end - i == 0);
                assert(trimmed.skip(i as int).len() == 0);
                assert(out@ =~= decode_spec(rev, trimmed));
            }
        }
        Ok(out)
    }
}

} // verus!
