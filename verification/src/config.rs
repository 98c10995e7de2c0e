//! Configuration: a forward alphabet, its reverse lookup table, and a
//! padding policy bound into one immutable value.

use vstd::prelude::*;

use crate::alpha::{
    base64_reverse_alphabet, spec_reverse_alphabet, spec_std_alphabet, spec_url_alphabet,
    std_alphabet, url_alphabet,
};

verus! {

/// Base64 padding options.
#[derive(Clone, Copy, Debug, PartialEq, Eq, Structural)]
pub enum Base64Padding {
    /// Decodes padded or unpadded values, and encodes with padding.
    Auto,
    /// Requires padding to decode values, and encodes with padding.
    Strict,
    /// Requires no padding to decode values, and encodes without padding.
    No,
}

/// True when the policy emits padding characters while encoding (and strips
/// them before decoding).
pub open spec fn emits_padding(padding: Base64Padding) -> bool {
    padding is Auto || padding is Strict
}

/// Well-formedness of an alphabet together with its reverse lookup table:
/// 64 ASCII characters, none the padding character, the reverse table total
/// over byte values with 6-bit entries that invert the alphabet.
pub open spec fn tables_wf(alphabet: Seq<u8>, rev_alphabet: Seq<u8>) -> bool {
    &&& alphabet.len() == 64
    &&& rev_alphabet.len() == 256
    &&& forall|i: int| 0 <= i < 64 ==> alphabet[i] < 128
    &&& forall|i: int| 0 <= i < 64 ==> alphabet[i] != crate::alpha::PAD_BYTE
    &&& forall|i: int| 0 <= i < 64 ==> rev_alphabet[alphabet[i] as int] == i as u8
    &&& forall|b: int| 0 <= b < 256 ==> rev_alphabet[b] < 64
}

/// Base64 config options.
pub struct Base64Config {
    /// Base64 alphabet.
    pub alphabet: Vec<u8>,
    /// Base64 reverse alphabet lookup table.
    pub rev_alphabet: Vec<u8>,
    /// Base64 padding.
    pub padding: Base64Padding,
}

impl Base64Config {
    /// A config is well formed when its tables are.
    pub open spec fn wf(&self) -> bool {
        tables_wf(self.alphabet@, self.rev_alphabet@)
    }

    /// Creates a new Base64 config from an alphabet, its reverse lookup
    /// table, and a padding policy.
    pub fn new(alphabet: Vec<u8>, rev_alphabet: Vec<u8>, padding: Base64Padding) -> (c: Self)
        requires
            tables_wf(alphabet@, rev_alphabet@),
        ensures
            c.alphabet == alphabet,
            c.rev_alphabet == rev_alphabet,
            c.padding == padding,
            c.wf(),
    {
        Self { alphabet, rev_alphabet, padding }
    }

    /// The standard config of RFC 4648: standard alphabet, `Auto` padding.
    pub fn standard() -> (c: Self)
        ensures
            c.alphabet@ == spec_std_alphabet(),
            c.rev_alphabet@ == spec_reverse_alphabet(spec_std_alphabet()),
            c.padding == Base64Padding::Auto,
            c.wf(),
    {
        let alphabet = std_alphabet();
        proof {
            lemma_std_alphabet_wf();
        }
        let rev_alphabet = base64_reverse_alphabet(&alphabet);
        Self { alphabet, rev_alphabet, padding: Base64Padding::Auto }
    }

    /// The URL-safe config of RFC 4648: URL-safe alphabet, `No` padding.
    pub fn url_safe() -> (c: Self)
        ensures
            c.alphabet@ == spec_url_alphabet(),
            c.rev_alphabet@ == spec_reverse_alphabet(spec_url_alphabet()),
            c.padding == Base64Padding::No,
            c.wf(),
    {
        let alphabet = url_alphabet();
        proof {
            lemma_url_alphabet_wf();
        }
        let rev_alphabet = base64_reverse_alphabet(&alphabet);
        Self { alphabet, rev_alphabet, padding: Base64Padding::No }
    }
}

/// The standard alphabet holds 64 distinct ASCII characters, none of them
/// the padding character.
pub proof fn lemma_std_alphabet_wf()
    ensures
        spec_std_alphabet().len() == 64,
        forall|i: int| 0 <= i < 64 ==> spec_std_alphabet()[i] < 128,
        forall|i: int| 0 <= i < 64 ==> spec_std_alphabet()[i] != crate::alpha::PAD_BYTE,
        forall|i: int, j: int|
            0 <= i < 64 && 0 <= j < 64 && i != j
                ==> spec_std_alphabet()[i] != spec_std_alphabet()[j],
{
}

/// The URL-safe alphabet holds 64 distinct ASCII characters, none of them
/// the padding character.
pub proof fn lemma_url_alphabet_wf()
    ensures
        spec_url_alphabet().len() == 64,
        forall|i: int| 0 <= i < 64 ==> spec_url_alphabet()[i] < 128,
        forall|i: int| 0 <= i < 64 ==> spec_url_alphabet()[i] != crate::alpha::PAD_BYTE,
        forall|i: int, j: int|
            0 <= i < 64 && 0 <= j < 64 && i != j
                ==> spec_url_alphabet()[i] != spec_url_alphabet()[j],
{
}

} // verus!
