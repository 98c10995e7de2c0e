//! Alphabet tables: the two forward alphabets of RFC 4648 (index to
//! character) and the derivation of a reverse alphabet (character byte to
//! 6-bit index) from any forward alphabet.

use vstd::prelude::*;

verus! {

/// The padding character `=`.
pub const PAD_BYTE: u8 = 61;

/// Number of input bytes in one encoding group.
pub const IN_GROUP_BYTES: usize = 3;

/// Number of output characters in one encoding group.
pub const OUT_GROUP_BYTES: usize = 4;

/// Length of a forward alphabet.
pub const ALPHABET_LEN: usize = 64;

/// Length of a reverse alphabet: one entry for every byte value.
pub const REV_ALPHABET_LEN: usize = 256;

/// Character at index `i` of the standard alphabet `A-Z a-z 0-9 + /`.
pub open spec fn std_symbol(i: int) -> u8 {
    if 0 <= i < 26 {
        (65 + i) as u8  // 'A'..='Z'
    } else if 26 <= i < 52 {
        (97 + (i - 26)) as u8  // 'a'..='z'
    } else if 52 <= i < 62 {
        (48 + (i - 52)) as u8  // '0'..='9'
    } else if i == 62 {
        43u8  // '+'
    } else {
        47u8  // '/'
    }
}

/// Character at index `i` of the URL-safe alphabet `A-Z a-z 0-9 - _`.
pub open spec fn url_symbol(i: int) -> u8 {
    if i == 62 {
        45u8  // '-'
    } else if i == 63 {
        95u8  // '_'
    } else {
        std_symbol(i)
    }
}

/// The standard alphabet as a sequence of 64 character bytes.
pub open spec fn spec_std_alphabet() -> Seq<u8> {
    Seq::new(64, |i: int| std_symbol(i))
}

/// The URL-safe alphabet as a sequence of 64 character bytes.
pub open spec fn spec_url_alphabet() -> Seq<u8> {
    Seq::new(64, |i: int| url_symbol(i))
}

/// Builds the standard alphabet table `A-Z a-z 0-9 + /`.
pub fn std_alphabet() -> (a: Vec<u8>)
    ensures
        a@ == spec_std_alphabet(),
{
    let mut a: Vec<u8> = Vec::with_capacity(64);
    let mut i: usize = 0;
    while i < 26
        invariant
            i <= 26,
            a@.len() == i,
            forall|j: int| 0 <= j < i ==> a@[j] == std_symbol(j),
        decreases 26 - i,
    {
        a.push((65 + i) as u8);
        i += 1;
    }
    i = 0;
    while i < 26
        invariant
            i <= 26,
            a@.len() == 26 + i,
            forall|j: int| 0 <= j < 26 + i ==> a@[j] == std_symbol(j),
        decreases 26 - i,
    {
        a.push((97 + i) as u8);
        i += 1;
    }
    i = 0;
    while i < 10
        invariant
            i <= 10,
            a@.len() == 52 + i,
            forall|j: int| 0 <= j < 52 + i ==> a@[j] == std_symbol(j),
        decreases 10 - i,
    {
        a.push((48 + i) as u8);
        i += 1;
    }
    a.push(43);
    a.push(47);
    proof {
        assert(a@ =~= spec_std_alphabet());
    }
    a
}

/// Builds the URL-safe alphabet table `A-Z a-z 0-9 - _`.
pub fn url_alphabet() -> (a: Vec<u8>)
    ensures
        a@ == spec_url_alphabet(),
{
    let mut a = std_alphabet();
    a[62] = 45;
    a[63] = 95;
    proof {
        assert(a@ =~= spec_url_alphabet());
    }
    a
}

/// The reverse alphabet derived from `alphabet`: entry `alphabet[i]` holds
/// `i`, and every byte value outside the alphabet holds 0.
pub open spec fn spec_reverse_alphabet(alphabet: Seq<u8>) -> Seq<u8> {
    Seq::new(
        256,
        |b: int|
            if exists|i: int| 0 <= i < alphabet.len() && alphabet[i] == b {
                (choose|i: int| 0 <= i < alphabet.len() && alphabet[i] == b) as u8
            } else {
                0u8
            },
    )
}

/// Derives the reverse alphabet lookup table from a 64-character alphabet
/// with no duplicate characters.
pub fn base64_reverse_alphabet(alphabet: &Vec<u8>) -> (rev: Vec<u8>)
    requires
        alphabet@.len() == 64,
        forall|i: int, j: int|
            0 <= i < 64 && 0 <= j < 64 && i != j ==> alphabet@[i] != alphabet@[j],
    ensures
        rev@ == spec_reverse_alphabet(alphabet@),
        rev@.len() == 256,
        forall|i: int| 0 <= i < 64 ==> rev@[alphabet@[i] as int] == i as u8,
        forall|b: int|
            0 <= b < 256 && !alphabet@.contains(b as u8) ==> rev@[b] == 0,
        forall|b: int| 0 <= b < 256 ==> rev@[b] < 64,
{
    let mut rev: Vec<u8> = Vec::with_capacity(256);
    let mut i: usize = 0;
    while i < 256
        invariant
            i <= 256,
            rev@.len() == i,
            forall|j: int| 0 <= j < i ==> rev@[j] == 0,
        decreases 256 - i,
    {
        rev.push(0);
        i += 1;
    }
    i = 0;
    while i < 64
        invariant
            i <= 64,
            alphabet@.len() == 64,
            forall|k: int, j: int|
                0 <= k < 64 && 0 <= j < 64 && k != j ==> alphabet@[k] != alphabet@[j],
            rev@.len() == 256,
            forall|j: int| 0 <= j < i ==> rev@[alphabet@[j] as int] == j as u8,
            forall|b: int|
                0 <= b < 256 && !(exists|j: int| 0 <= j < i && alphabet@[j] == b)
                    ==> rev@[b] == 0,
        decreases 64 - i,
    {
        let c = alphabet[i];
        rev[c as usize] = i as u8;
        i += 1;
    }
    proof {
        assert forall|b: int| 0 <= b < 256 implies rev@[b] == spec_reverse_alphabet(
            alphabet@,
        )[b] by {
            if exists|j: int| 0 <= j < 64 && alphabet@[j] == b {
                let j = choose|j: int| 0 <= j < 64 && alphabet@[j] == b;
                assert(rev@[alphabet@[j] as int] == j as u8);
            }
        }
        assert(rev@ =~= spec_reverse_alphabet(alphabet@));
        assert forall|b: int| 0 <= b < 256 implies rev@[b] < 64 by {
            if exists|j: int| 0 <= j < 64 && alphabet@[j] == b {
                let j = choose|j: int| 0 <= j < 64 && alphabet@[j] == b;
                assert(rev@[alphabet@[j] as int] == j as u8);
            }
        }
        assert forall|b: int|
            0 <= b < 256 && !alphabet@.contains(b as u8) implies rev@[b] == 0 by {
            if exists|j: int| 0 <= j < 64 && alphabet@[j] == b {
                let j = choose|j: int| 0 <= j < 64 && alphabet@[j] == b;
                assert(alphabet@[j] == b as u8);
            }
        }
    }
    rev
}

} // verus!
