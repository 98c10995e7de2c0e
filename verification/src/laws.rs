//! Laws relating the encoder and the decoder: the round trip, the length
//! structure of encodings, the URL-safe substitution, determinism, and the
//! behaviour on empty input.

use vstd::prelude::*;

use crate::alpha::{spec_std_alphabet, spec_url_alphabet, std_symbol, url_symbol, PAD_BYTE};
use crate::config::{emits_padding, tables_wf, Base64Padding};
use crate::decode::{decode_spec, strip_padding};
use crate::encode::{ascii_chars_of, encode_group3, encode_spec};

verus! {

/// Decoding an unpadded encoding recovers the original bytes: each 6-bit
/// index survives the alphabet lookup and the reverse lookup, and the bit
/// slices reassemble into the bytes they were cut from.
proof fn lemma_decode_encode_unpadded(a: Seq<u8>, rev: Seq<u8>, bytes: Seq<u8>)
    requires
        tables_wf(a, rev),
    ensures
        decode_spec(rev, encode_spec(a, false, bytes)) == bytes,
    decreases bytes.len(),
{
    let e = encode_spec(a, false, bytes);
    if bytes.len() == 0 {
        assert(decode_spec(rev, e) =~= bytes);
    } else if bytes.len() == 1 {
        let b0 = bytes[0];
        assert((b0 >> 2) < 64 && ((b0 & 0x03) << 4) < 64) by (bit_vector);
        assert(e =~= seq![a[(b0 >> 2) as int], a[((b0 & 0x03) << 4) as int]]);
        assert(rev[a[(b0 >> 2) as int] as int] == b0 >> 2);
        assert(rev[a[((b0 & 0x03) << 4) as int] as int] == (b0 & 0x03) << 4);
        assert(((b0 >> 2) << 2) | (((b0 & 0x03) << 4) >> 4) == b0) by (bit_vector);
        assert(decode_spec(rev, e) =~= bytes);
    } else if bytes.len() == 2 {
        let b0 = bytes[0];
        let b1 = bytes[1];
        assert((b0 >> 2) < 64 && (((b0 & 0x03) << 4) | (b1 >> 4)) < 64 && ((b1 & 0x0f) << 2)
            < 64) by (bit_vector);
        assert(e =~= seq![
            a[(b0 >> 2) as int],
            a[(((b0 & 0x03) << 4) | (b1 >> 4)) as int],
            a[((b1 & 0x0f) << 2) as int],
        ]);
        assert(rev[a[(b0 >> 2) as int] as int] == b0 >> 2);
        assert(rev[a[(((b0 & 0x03) << 4) | (b1 >> 4)) as int] as int] == ((b0 & 0x03) << 4) | (b1
            >> 4));
        assert(rev[a[((b1 & 0x0f) << 2) as int] as int] == (b1 & 0x0f) << 2);
        assert(((b0 >> 2) << 2) | ((((b0 & 0x03) << 4) | (b1 >> 4)) >> 4) == b0) by (bit_vector);
        assert((((((b0 & 0x03) << 4) | (b1 >> 4)) & 0x0f) << 4) | (((b1 & 0x0f) << 2) >> 2)
            == b1) by (bit_vector);
        assert(decode_spec(rev, e) =~= bytes);
    } else {
        let b0 = bytes[0];
        let b1 = bytes[1];
        let b2 = bytes[2];
        let rest = encode_spec(a, false, bytes.skip(3));
        assert((b0 >> 2) < 64 && (((b0 & 0x03) << 4) | (b1 >> 4)) < 64 && (((b1 & 0x0f) << 2) | (b2
            >> 6)) < 64 && (b2 & 0x3f) < 64) by (bit_vector);
        let c0 = a[(b0 >> 2) as int];
        let c1 = a[(((b0 & 0x03) << 4) | (b1 >> 4)) as int];
        let c2 = a[(((b1 & 0x0f) << 2) | (b2 >> 6)) as int];
        let c3 = a[(b2 & 0x3f) as int];
        assert(e == seq![c0, c1, c2, c3] + rest);
        assert(e.len() >= 4);
        assert(e[0] == c0 && e[1] == c1 && e[2] == c2 && e[3] == c3);
        assert(e.skip(4) =~= rest);
        assert(rev[c0 as int] == b0 >> 2);
        assert(rev[c1 as int] == ((b0 & 0x03) << 4) | (b1 >> 4));
        assert(rev[c2 as int] == ((b1 & 0x0f) << 2) | (b2 >> 6));
        assert(rev[c3 as int] == b2 & 0x3f);
        assert(((b0 >> 2) << 2) | ((((b0 & 0x03) << 4) | (b1 >> 4)) >> 4) == b0) by (bit_vector);
        assert((((((b0 & 0x03) << 4) | (b1 >> 4)) & 0x0f) << 4) | (((((b1 & 0x0f) << 2) | (b2
            >> 6))) >> 2) == b1) by (bit_vector);
        assert((((((b1 & 0x0f) << 2) | (b2 >> 6)) & 0x03) << 6) | (b2 & 0x3f) == b2) by (bit_vector);
        lemma_decode_encode_unpadded(a, rev, bytes.skip(3));
        assert(decode_spec(rev, e) =~= seq![b0, b1, b2] + bytes.skip(3));
        assert(seq![b0, b1, b2] + bytes.skip(3) =~= bytes);
    }
}

/// The encoding of `bytes` with padding is its unpadded encoding followed
/// by the padding characters that fill the final group to 4.
proof fn lemma_encode_pad_suffix(a: Seq<u8>, bytes: Seq<u8>)
    ensures
        bytes.len() % 3 == 0 ==> encode_spec(a, true, bytes) == encode_spec(a, false, bytes),
        bytes.len() % 3 == 1 ==> encode_spec(a, true, bytes) == encode_spec(a, false, bytes)
            + seq![PAD_BYTE, PAD_BYTE],
        bytes.len() % 3 == 2 ==> encode_spec(a, true, bytes) == encode_spec(a, false, bytes)
            + seq![PAD_BYTE],
    decreases bytes.len(),
{
    if bytes.len() < 3 {
        if bytes.len() == 0 {
            assert(encode_spec(a, true, bytes) =~= encode_spec(a, false, bytes));
        }
    } else {
        lemma_encode_pad_suffix(a, bytes.skip(3));
        let g = encode_group3(a, bytes[0], bytes[1], bytes[2]);
        if bytes.len() % 3 == 0 {
            assert(g + encode_spec(a, true, bytes.skip(3)) =~= g + encode_spec(
                a,
                false,
                bytes.skip(3),
            ));
        } else if bytes.len() % 3 == 1 {
            assert(g + encode_spec(a, true, bytes.skip(3)) =~= (g + encode_spec(
                a,
                false,
                bytes.skip(3),
            )) + seq![PAD_BYTE, PAD_BYTE]);
        } else {
            assert(g + encode_spec(a, true, bytes.skip(3)) =~= (g + encode_spec(
                a,
                false,
                bytes.skip(3),
            )) + seq![PAD_BYTE]);
        }
    }
}

/// Length structure of encodings: with padding, the length is always a
/// multiple of 4; without, the final group leaves a remainder of 0, 2 or 3
/// characters — never 1.
pub proof fn lemma_encode_len(a: Seq<u8>, bytes: Seq<u8>)
    ensures
        encode_spec(a, true, bytes).len() == 4 * ((bytes.len() + 2) / 3),
        encode_spec(a, true, bytes).len() % 4 == 0,
        encode_spec(a, false, bytes).len() % 4 != 1,
        encode_spec(a, false, bytes).len() == 4 * (bytes.len() / 3) + (
        if bytes.len() % 3 == 0 {
            0int
        } else if bytes.len() % 3 == 1 {
            2int
        } else {
            3int
        }),
    decreases bytes.len(),
{
    if bytes.len() < 3 {
    } else {
        lemma_encode_len(a, bytes.skip(3));
    }
}

/// Length structure of decodings: every full group of 4 characters yields
/// 3 bytes, and a final group of 2 or 3 characters yields 1 or 2 bytes.
pub proof fn lemma_decode_len(rev: Seq<u8>, t: Seq<u8>)
    ensures
        decode_spec(rev, t).len() == 3 * (t.len() / 4) + (
        if t.len() % 4 == 2 {
            1int
        } else if t.len() % 4 == 3 {
            2int
        } else {
            0int
        }),
    decreases t.len(),
{
    if t.len() < 4 {
    } else {
        lemma_decode_len(rev, t.skip(4));
    }
}

/// An unpadded encoding never ends in the padding character.
proof fn lemma_encode_no_trailing_pad(a: Seq<u8>, bytes: Seq<u8>)
    requires
        a.len() == 64,
        forall|i: int| 0 <= i < 64 ==> a[i] != PAD_BYTE,
    ensures
        ({
            let e = encode_spec(a, false, bytes);
            e.len() == 0 || e[e.len() - 1] != PAD_BYTE
        }),
    decreases bytes.len(),
{
    let e = encode_spec(a, false, bytes);
    if bytes.len() == 0 {
    } else if bytes.len() == 1 {
        let b0 = bytes[0];
        assert(((b0 & 0x03) << 4) < 64) by (bit_vector);
        assert(e =~= seq![a[(b0 >> 2) as int], a[((b0 & 0x03) << 4) as int]]);
    } else if bytes.len() == 2 {
        let b1 = bytes[1];
        assert(((b1 & 0x0f) << 2) < 64) by (bit_vector);
        assert(e[e.len() - 1] == a[((b1 & 0x0f) << 2) as int]);
    } else {
        let b2 = bytes[2];
        let g = encode_group3(a, bytes[0], bytes[1], b2);
        let rest = encode_spec(a, false, bytes.skip(3));
        lemma_encode_no_trailing_pad(a, bytes.skip(3));
        if rest.len() == 0 {
            assert((b2 & 0x3f) < 64) by (bit_vector);
            assert(e[e.len() - 1] == a[(b2 & 0x3f) as int]);
        } else {
            assert(e[e.len() - 1] == rest[rest.len() - 1]);
        }
    }
}

/// Stripping trailing padding from text without any leaves it unchanged,
/// and undoes up to two appended padding characters.
proof fn lemma_strip_pad_suffix(s: Seq<u8>)
    requires
        s.len() == 0 || s[s.len() - 1] != PAD_BYTE,
    ensures
        strip_padding(s) == s,
        strip_padding(s + seq![PAD_BYTE]) == s,
        strip_padding(s + seq![PAD_BYTE, PAD_BYTE]) == s,
{
    assert(strip_padding(s) == s);
    let s1 = s + seq![PAD_BYTE];
    let s2 = s + seq![PAD_BYTE, PAD_BYTE];
    assert(s1[s1.len() - 1] == PAD_BYTE);
    assert(s1.drop_last() =~= s);
    assert(strip_padding(s1) == strip_padding(s1.drop_last()));
    assert(strip_padding(s1) == s);
    assert(s2[s2.len() - 1] == PAD_BYTE);
    assert(s2.drop_last() =~= s1);
    assert(strip_padding(s2) == strip_padding(s2.drop_last()));
    assert(strip_padding(s2) == s);
}

/// Round trip: decoding the encoding of any byte sequence under the same
/// well-formed configuration yields the original bytes, for every padding
/// policy.  The intermediate clauses mirror the decoder's checks: a padded
/// encoding always passes the `Strict` length check, and the pad-stripped
/// (or never-padded) text never leaves a remainder of 1.
pub proof fn lemma_round_trip(
    alphabet: Seq<u8>,
    rev_alphabet: Seq<u8>,
    padding: Base64Padding,
    bytes: Seq<u8>,
)
    requires
        tables_wf(alphabet, rev_alphabet),
    ensures
        ({
            let encoded = encode_spec(alphabet, emits_padding(padding), bytes);
            let trimmed = if emits_padding(padding) {
                strip_padding(encoded)
            } else {
                encoded
            };
            &&& padding is Strict ==> encoded.len() % 4 == 0
            &&& trimmed.len() % 4 != 1
            &&& decode_spec(rev_alphabet, trimmed) == bytes
        }),
{
    let unpadded = encode_spec(alphabet, false, bytes);
    lemma_encode_len(alphabet, bytes);
    lemma_decode_encode_unpadded(alphabet, rev_alphabet, bytes);
    if emits_padding(padding) {
        lemma_encode_pad_suffix(alphabet, bytes);
        lemma_encode_no_trailing_pad(alphabet, bytes);
        lemma_strip_pad_suffix(unpadded);
    }
}

/// Byte substitution from the standard alphabet to the URL-safe one: `+`
/// becomes `-`, `/` becomes `_`, and every other character is unchanged.
pub open spec fn url_subst(b: u8) -> u8 {
    if b == 43 {
        45u8  // '+' -> '-'
    } else if b == 47 {
        95u8  // '/' -> '_'
    } else {
        b
    }
}

/// URL-safe encoding is the standard encoding with `+` and `/` replaced by
/// `-` and `_` at the corresponding positions.
pub proof fn lemma_url_safe_encoding(emit_pad: bool, bytes: Seq<u8>)
    ensures
        ({
            let std_e = encode_spec(spec_std_alphabet(), emit_pad, bytes);
            let url_e = encode_spec(spec_url_alphabet(), emit_pad, bytes);
            &&& url_e.len() == std_e.len()
            &&& forall|i: int| 0 <= i < std_e.len() ==> url_e[i] == url_subst(std_e[i])
        }),
    decreases bytes.len(),
{
    assert forall|i: int| 0 <= i < 64 implies url_symbol(i) == url_subst(std_symbol(i)) by {}
    let std_e = encode_spec(spec_std_alphabet(), emit_pad, bytes);
    let url_e = encode_spec(spec_url_alphabet(), emit_pad, bytes);
    if bytes.len() < 3 {
        assert forall|i: int| 0 <= i < std_e.len() implies url_e[i] == url_subst(std_e[i]) by {
            if bytes.len() == 1 {
                let b0 = bytes[0];
                assert((b0 >> 2) < 64 && ((b0 & 0x03) << 4) < 64) by (bit_vector);
            } else if bytes.len() == 2 {
                let b0 = bytes[0];
                let b1 = bytes[1];
                assert((b0 >> 2) < 64 && (((b0 & 0x03) << 4) | (b1 >> 4)) < 64 && ((b1 & 0x0f)
                    << 2) < 64) by (bit_vector);
            }
        }
    } else {
        let b0 = bytes[0];
        let b1 = bytes[1];
        let b2 = bytes[2];
        lemma_url_safe_encoding(emit_pad, bytes.skip(3));
        assert((b0 >> 2) < 64 && (((b0 & 0x03) << 4) | (b1 >> 4)) < 64 && (((b1 & 0x0f) << 2) | (b2
            >> 6)) < 64 && (b2 & 0x3f) < 64) by (bit_vector);
        assert forall|i: int| 0 <= i < std_e.len() implies url_e[i] == url_subst(std_e[i]) by {}
    }
}

/// Idempotence of configuration: encoding equal inputs under the same
/// alphabet and padding behaviour yields identical output.
pub proof fn lemma_encode_deterministic(a: Seq<u8>, emit_pad: bool, b1: Seq<u8>, b2: Seq<u8>)
    requires
        b1 == b2,
    ensures
        encode_spec(a, emit_pad, b1) == encode_spec(a, emit_pad, b2),
{
}

/// Text whose characters are ASCII bytes read as characters has exactly
/// those bytes as its UTF-8 encoding: what the encoder returns as a string
/// is what the decoder sees as input bytes.
pub proof fn lemma_ascii_text_bytes(s: Seq<u8>)
    requires
        forall|i: int| 0 <= i < s.len() ==> s[i] < 128,
    ensures
        vstd::utf8::encode_utf8(ascii_chars_of(s)) == s,
{
    let chars = ascii_chars_of(s);
    assert forall|i: int| 0 <= i < chars.len() implies '\0' <= #[trigger] chars[i]
        <= '\u{7f}' by {
        assert(chars[i] == s[i] as char);
    }
    assert(vstd::utf8::is_ascii_chars(chars));
    vstd::utf8::is_ascii_chars_encode_utf8(chars);
    assert(vstd::utf8::encode_utf8(chars) =~= s);
}

/// Empty input encodes to empty text, and empty text decodes to empty
/// bytes, under every alphabet, reverse alphabet and padding behaviour.
pub proof fn lemma_empty(a: Seq<u8>, rev: Seq<u8>, emit_pad: bool)
    ensures
        encode_spec(a, emit_pad, Seq::<u8>::empty()) == Seq::<u8>::empty(),
        strip_padding(Seq::<u8>::empty()) == Seq::<u8>::empty(),
        decode_spec(rev, Seq::<u8>::empty()) == Seq::<u8>::empty(),
{
    assert(encode_spec(a, emit_pad, Seq::<u8>::empty()) =~= Seq::<u8>::empty());
    assert(decode_spec(rev, Seq::<u8>::empty()) =~= Seq::<u8>::empty());
}

} // verus!
