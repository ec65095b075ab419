//! Fixed-width integers at a byte offset, least significant byte first.

use vstd::prelude::*;

verus! {

/// The word held by the eight bytes of `s` from `at` on.
pub open spec fn word_at(s: Seq<u8>, at: int) -> u64
    recommends
        0 <= at,
        at + 8 <= s.len(),
{
    (s[at] as int + s[at + 1] * 0x100 + s[at + 2] * 0x1_0000 + s[at + 3] * 0x100_0000 + s[at + 4]
        * 0x1_0000_0000 + s[at + 5] * 0x100_0000_0000 + s[at + 6] * 0x1_0000_0000_0000 + s[at + 7]
        * 0x100_0000_0000_0000) as u64
}

/// The eight bytes that hold the word `w`.
pub open spec fn word_bytes(w: u64) -> Seq<u8> {
    seq![
        (w % 0x100) as u8,
        (w / 0x100 % 0x100) as u8,
        (w / 0x1_0000 % 0x100) as u8,
        (w / 0x100_0000 % 0x100) as u8,
        (w / 0x1_0000_0000 % 0x100) as u8,
        (w / 0x100_0000_0000 % 0x100) as u8,
        (w / 0x1_0000_0000_0000 % 0x100) as u8,
        (w / 0x100_0000_0000_0000 % 0x100) as u8,
    ]
}

/// The pixel held by the four bytes of `s` from `at` on.
pub open spec fn pixel_at(s: Seq<u8>, at: int) -> u32
    recommends
        0 <= at,
        at + 4 <= s.len(),
{
    (s[at] as int + s[at + 1] * 0x100 + s[at + 2] * 0x1_0000 + s[at + 3] * 0x100_0000) as u32
}

/// The four bytes that hold the pixel `p`.
pub open spec fn pixel_bytes(p: u32) -> Seq<u8> {
    seq![
        (p % 0x100) as u8,
        (p / 0x100 % 0x100) as u8,
        (p / 0x1_0000 % 0x100) as u8,
        (p / 0x100_0000 % 0x100) as u8,
    ]
}

/// `s` with the bytes from `at` on replaced by those of `part`.
pub open spec fn overlay(s: Seq<u8>, at: int, part: Seq<u8>) -> Seq<u8>
    recommends
        0 <= at,
        at + part.len() <= s.len(),
{
    Seq::new(
        s.len(),
        |i: int|
            if at <= i < at + part.len() {
                part[i - at]
            } else {
                s[i]
            },
    )
}

/// Decoding the bytes of a word gives the word back.
pub proof fn lemma_word_round_trip(w: u64)
    ensures
        word_bytes(w).len() == 8,
        word_at(word_bytes(w), 0) == w,
{
    assert(w == w % 0x100 + (w / 0x100 % 0x100) * 0x100 + (w / 0x1_0000 % 0x100) * 0x1_0000 + (w
        / 0x100_0000 % 0x100) * 0x100_0000 + (w / 0x1_0000_0000 % 0x100) * 0x1_0000_0000 + (w
        / 0x100_0000_0000 % 0x100) * 0x100_0000_0000 + (w / 0x1_0000_0000_0000 % 0x100)
        * 0x1_0000_0000_0000 + (w / 0x100_0000_0000_0000 % 0x100) * 0x100_0000_0000_0000)
        by (bit_vector);
}

/// Decoding the bytes of a pixel gives the pixel back.
pub proof fn lemma_pixel_round_trip(p: u32)
    ensures
        pixel_bytes(p).len() == 4,
        pixel_at(pixel_bytes(p), 0) == p,
{
    assert(p == p % 0x100 + (p / 0x100 % 0x100) * 0x100 + (p / 0x1_0000 % 0x100) * 0x1_0000 + (p
        / 0x100_0000 % 0x100) * 0x100_0000) by (bit_vector);
}

/// A word that was laid over a buffer is read back from the same place.
pub proof fn lemma_word_at_overlay(s: Seq<u8>, at: int, w: u64)
    requires
        0 <= at,
        at + 8 <= s.len(),
    ensures
        word_at(overlay(s, at, word_bytes(w)), at) == w,
{
    lemma_word_round_trip(w);
}

/// A pixel that was laid over a buffer is read back from the same place.
pub proof fn lemma_pixel_at_overlay(s: Seq<u8>, at: int, p: u32)
    requires
        0 <= at,
        at + 4 <= s.len(),
    ensures
        pixel_at(overlay(s, at, pixel_bytes(p)), at) == p,
{
    lemma_pixel_round_trip(p);
}

/// Reads the word at `at`.
pub fn read_word(bytes: &[u8], at: usize) -> (w: u64)
    requires
        at + 8 <= bytes.len(),
    ensures
        w == word_at(bytes@, at as int),
{
    let b0: u64 = bytes[at] as u64;
    let b1: u64 = bytes[at + 1] as u64;
    let b2: u64 = bytes[at + 2] as u64;
    let b3: u64 = bytes[at + 3] as u64;
    let b4: u64 = bytes[at + 4] as u64;
    let b5: u64 = bytes[at + 5] as u64;
    let b6: u64 = bytes[at + 6] as u64;
    let b7: u64 = bytes[at + 7] as u64;
    b0 + b1 * 0x100 + b2 * 0x1_0000 + b3 * 0x100_0000 + b4 * 0x1_0000_0000 + b5 * 0x100_0000_0000
        + b6 * 0x1_0000_0000_0000 + b7 * 0x100_0000_0000_0000
}

/// Reads the pixel at `at`.
pub fn read_pixel(bytes: &[u8], at: usize) -> (p: u32)
    requires
        at + 4 <= bytes.len(),
    ensures
        p == pixel_at(bytes@, at as int),
{
    let b0: u32 = bytes[at] as u32;
    let b1: u32 = bytes[at + 1] as u32;
    let b2: u32 = bytes[at + 2] as u32;
    let b3: u32 = bytes[at + 3] as u32;
    b0 + b1 * 0x100 + b2 * 0x1_0000 + b3 * 0x100_0000
}

/// Copies `part` into `bytes` from `at` on.
pub fn write_bytes(bytes: &mut Vec<u8>, at: usize, part: &[u8])
    requires
        at + part.len() <= old(bytes).len(),
    ensures
        final(bytes)@ == overlay(old(bytes)@, at as int, part@),
{
    let n: usize = part.len();
    let mut i: usize = 0;
    while i < n
        invariant
            n == part@.len(),
            i <= n,
            at + n <= bytes.len(),
            bytes@ == overlay(old(bytes)@, at as int, part@.subrange(0, i as int)),
        decreases n - i,
    {
        bytes[at + i] = part[i];
        i = i + 1;
    }
    assert(part@.subrange(0, n as int) == part@);
}

/// Writes the word `w` at `at`.
pub fn write_word(bytes: &mut Vec<u8>, at: usize, w: u64)
    requires
        at + 8 <= old(bytes).len(),
    ensures
        final(bytes)@ == overlay(old(bytes)@, at as int, word_bytes(w)),
{
    bytes[at] = (w % 0x100) as u8;
    bytes[at + 1] = (w / 0x100 % 0x100) as u8;
    bytes[at + 2] = (w / 0x1_0000 % 0x100) as u8;
    bytes[at + 3] = (w / 0x100_0000 % 0x100) as u8;
    bytes[at + 4] = (w / 0x1_0000_0000 % 0x100) as u8;
    bytes[at + 5] = (w / 0x100_0000_0000 % 0x100) as u8;
    bytes[at + 6] = (w / 0x1_0000_0000_0000 % 0x100) as u8;
    bytes[at + 7] = (w / 0x100_0000_0000_0000 % 0x100) as u8;
}

/// Writes the pixel `p` at `at`.
pub fn write_pixel(bytes: &mut Vec<u8>, at: usize, p: u32)
    requires
        at + 4 <= old(bytes).len(),
    ensures
        final(bytes)@ == overlay(old(bytes)@, at as int, pixel_bytes(p)),
{
    bytes[at] = (p % 0x100) as u8;
    bytes[at + 1] = (p / 0x100 % 0x100) as u8;
    bytes[at + 2] = (p / 0x1_0000 % 0x100) as u8;
    bytes[at + 3] = (p / 0x100_0000 % 0x100) as u8;
}

} // verus!
