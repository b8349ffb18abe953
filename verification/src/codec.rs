//! Word-level codec: assembly and disassembly of 16/32/64-bit integers from
//! big-endian sequences of 16-bit register words, and the reserved sentinel
//! patterns that a device uses to signal "datapoint not implemented".

use vstd::prelude::*;

verus! {

/// A single 16-bit Modbus holding register value, the atomic unit of register I/O.
pub type Word = u16;

pub const NOT_ACCUMULATED_64: u64 = 0x0000_0000_0000_0000;
pub const NOT_ACCUMULATED_32: u32 = 0x0000_0000;
pub const NOT_IMPLEMENTED_U32: u32 = 0xffff_ffff;
pub const NOT_IMPLEMENTED_U64: u64 = 0xffff_ffff_ffff_ffff;
pub const NOT_IMPLEMENTED_I32: u32 = 0x8000_0000;
pub const NOT_ACCUMULATED_16: u16 = 0x0000;
pub const NOT_IMPLEMENTED_U16: u16 = 0xffff;
pub const NOT_IMPLEMENTED_I16: u16 = 0x8000;

/// The unsigned 32-bit value laid out big-endian across two register words.
pub open spec fn spec_u32_of_words(hi: u16, lo: u16) -> u32 {
    (hi * 0x1_0000 + lo) as u32
}

/// The unsigned 64-bit value laid out big-endian across four register words.
pub open spec fn spec_u64_of_words(w0: u16, w1: u16, w2: u16, w3: u16) -> u64 {
    (w0 * 0x1_0000_0000_0000 + w1 * 0x1_0000_0000 + w2 * 0x1_0000 + w3) as u64
}

/// The high register word of an unsigned 32-bit value.
pub open spec fn spec_hi_word_u32(v: u32) -> u16 {
    (v / 0x1_0000) as u16
}

/// The low register word of an unsigned 32-bit value.
pub open spec fn spec_lo_word_u32(v: u32) -> u16 {
    (v % 0x1_0000) as u16
}

/// Register word `i` (0 = most significant) of an unsigned 64-bit value.
pub open spec fn spec_word_u64(v: u64, i: int) -> u16 {
    if i == 0 {
        (v / 0x1_0000_0000_0000) as u16
    } else if i == 1 {
        ((v / 0x1_0000_0000) % 0x1_0000) as u16
    } else if i == 2 {
        ((v / 0x1_0000) % 0x1_0000) as u16
    } else {
        (v % 0x1_0000) as u16
    }
}

/// The signed reading of a 16-bit register word (two's complement).
pub open spec fn spec_i16_of_word(w: u16) -> i16 {
    if w < 0x8000 {
        w as i16
    } else {
        (w - 0x1_0000) as i16
    }
}

/// The register word holding a signed 16-bit value (two's complement).
pub open spec fn spec_word_of_i16(v: i16) -> u16 {
    if v >= 0 {
        v as u16
    } else {
        (v + 0x1_0000) as u16
    }
}

/// The signed reading of an unsigned 32-bit value (two's complement).
pub open spec fn spec_i32_of_u32(v: u32) -> i32 {
    if v < 0x8000_0000 {
        v as i32
    } else {
        (v - 0x1_0000_0000) as i32
    }
}

/// Assemble an unsigned 32-bit value from two big-endian register words.
pub fn u32_from_words(hi: u16, lo: u16) -> (r: u32)
    ensures
        r == spec_u32_of_words(hi, lo),
{
    hi as u32 * 0x1_0000 + lo as u32
}

/// Assemble an unsigned 64-bit value from four big-endian register words.
pub fn u64_from_words(w0: u16, w1: u16, w2: u16, w3: u16) -> (r: u64)
    ensures
        r == spec_u64_of_words(w0, w1, w2, w3),
{
    w0 as u64 * 0x1_0000_0000_0000 + w1 as u64 * 0x1_0000_0000 + w2 as u64 * 0x1_0000
        + w3 as u64
}

/// Split an unsigned 32-bit value into its two big-endian register words.
pub fn words_from_u32(v: u32) -> (r: (u16, u16))
    ensures
        r.0 == spec_hi_word_u32(v),
        r.1 == spec_lo_word_u32(v),
{
    ((v / 0x1_0000) as u16, (v % 0x1_0000) as u16)
}

/// Split an unsigned 64-bit value into its four big-endian register words.
pub fn words_from_u64(v: u64) -> (r: [u16; 4])
    ensures
        forall|i: int| 0 <= i < 4 ==> r[i] == spec_word_u64(v, i),
{
    let r = [
        (v / 0x1_0000_0000_0000) as u16,
        ((v / 0x1_0000_0000) % 0x1_0000) as u16,
        ((v / 0x1_0000) % 0x1_0000) as u16,
        (v % 0x1_0000) as u16,
    ];
    assert(r[0] == spec_word_u64(v, 0) && r[1] == spec_word_u64(v, 1) && r[2] == spec_word_u64(
        v,
        2,
    ) && r[3] == spec_word_u64(v, 3));
    r
}

/// Read a register word as a signed 16-bit value.
pub fn i16_from_word(w: u16) -> (r: i16)
    ensures
        r == spec_i16_of_word(w),
{
    proof {
        assert(w < 0x8000 ==> w as i16 == spec_i16_of_word(w)) by (bit_vector);
        assert(w >= 0x8000 ==> w as i16 == (w - 0x1_0000) as i16) by (bit_vector);
    }
    #[verifier::truncate]
    (w as i16)
}

/// Store a signed 16-bit value into a register word.
pub fn word_from_i16(v: i16) -> (r: u16)
    ensures
        r == spec_word_of_i16(v),
{
    proof {
        assert(v >= 0 ==> v as u16 == spec_word_of_i16(v)) by (bit_vector);
        assert(v < 0 ==> v as u16 == (v + 0x1_0000) as u16) by (bit_vector);
    }
    #[verifier::truncate]
    (v as u16)
}

/// Read an unsigned 32-bit value as signed (two's complement).
pub fn i32_from_u32(v: u32) -> (r: i32)
    ensures
        r == spec_i32_of_u32(v),
{
    proof {
        assert(v < 0x8000_0000 ==> v as i32 == spec_i32_of_u32(v)) by (bit_vector);
        assert(v >= 0x8000_0000 ==> v as i32 == (v - 0x1_0000_0000) as i32) by (bit_vector);
    }
    #[verifier::truncate]
    (v as i32)
}

/// Decoding a 32-bit value from the words that encode it recovers the value,
/// and re-encoding the decoded words recovers the words: the 32-bit register
/// layout loses nothing in either direction.
pub proof fn lemma_u32_words_round_trip(v: u32, hi: u16, lo: u16)
    ensures
        spec_u32_of_words(spec_hi_word_u32(v), spec_lo_word_u32(v)) == v,
        spec_hi_word_u32(spec_u32_of_words(hi, lo)) == hi,
        spec_lo_word_u32(spec_u32_of_words(hi, lo)) == lo,
{
    assert(spec_u32_of_words(spec_hi_word_u32(v), spec_lo_word_u32(v)) == v) by (bit_vector);
    assert(spec_hi_word_u32(spec_u32_of_words(hi, lo)) == hi) by (bit_vector);
    assert(spec_lo_word_u32(spec_u32_of_words(hi, lo)) == lo) by (bit_vector);
}

/// The 64-bit layout across four words loses nothing in either direction.
pub proof fn lemma_u64_words_round_trip(v: u64, w0: u16, w1: u16, w2: u16, w3: u16)
    ensures
        spec_u64_of_words(
            spec_word_u64(v, 0),
            spec_word_u64(v, 1),
            spec_word_u64(v, 2),
            spec_word_u64(v, 3),
        ) == v,
        spec_word_u64(spec_u64_of_words(w0, w1, w2, w3), 0) == w0,
        spec_word_u64(spec_u64_of_words(w0, w1, w2, w3), 1) == w1,
        spec_word_u64(spec_u64_of_words(w0, w1, w2, w3), 2) == w2,
        spec_word_u64(spec_u64_of_words(w0, w1, w2, w3), 3) == w3,
{
    assert(spec_u64_of_words(
        spec_word_u64(v, 0),
        spec_word_u64(v, 1),
        spec_word_u64(v, 2),
        spec_word_u64(v, 3),
    ) == v) by (bit_vector);
    assert(spec_word_u64(spec_u64_of_words(w0, w1, w2, w3), 0) == w0) by (bit_vector);
    assert(spec_word_u64(spec_u64_of_words(w0, w1, w2, w3), 1) == w1) by (bit_vector);
    assert(spec_word_u64(spec_u64_of_words(w0, w1, w2, w3), 2) == w2) by (bit_vector);
    assert(spec_word_u64(spec_u64_of_words(w0, w1, w2, w3), 3) == w3) by (bit_vector);
}

/// The signed 16-bit reading of a word and the word holding a signed value
/// are inverse to one another.
pub proof fn lemma_i16_word_round_trip(v: i16, w: u16)
    ensures
        spec_i16_of_word(spec_word_of_i16(v)) == v,
        spec_word_of_i16(spec_i16_of_word(w)) == w,
{
    assert(spec_i16_of_word(spec_word_of_i16(v)) == v) by (bit_vector);
    assert(spec_word_of_i16(spec_i16_of_word(w)) == w) by (bit_vector);
}

/// The unsigned 32-bit value holding a signed one (two's complement).
pub open spec fn spec_u32_of_i32(v: i32) -> u32 {
    if v >= 0 {
        v as u32
    } else {
        (v + 0x1_0000_0000) as u32
    }
}

/// The signed 32-bit reading and the unsigned value holding a signed one
/// are inverse to one another.
pub proof fn lemma_i32_u32_round_trip(v: i32, u: u32)
    ensures
        spec_i32_of_u32(spec_u32_of_i32(v)) == v,
        spec_u32_of_i32(spec_i32_of_u32(u)) == u,
{
    assert(spec_i32_of_u32(spec_u32_of_i32(v)) == v) by (bit_vector);
    assert(spec_u32_of_i32(spec_i32_of_u32(u)) == u) by (bit_vector);
}

/// The signed reading of an unsigned 64-bit value (two's complement).
pub open spec fn spec_i64_of_u64(v: u64) -> i64 {
    if v <= i64::MAX {
        v as i64
    } else {
        (v - 0x1_0000_0000_0000_0000) as i64
    }
}

/// Read an unsigned 64-bit value as signed (two's complement).
pub fn i64_from_u64(v: u64) -> (r: i64)
    ensures
        r == spec_i64_of_u64(v),
{
    proof {
        assert(v <= i64::MAX ==> v as i64 == spec_i64_of_u64(v)) by (bit_vector);
        assert(v > i64::MAX ==> v as i64 == (v - 0x1_0000_0000_0000_0000) as i64) by (bit_vector);
    }
    #[verifier::truncate]
    (v as i64)
}

/// The unsigned 64-bit value holding a signed one (two's complement).
pub open spec fn spec_u64_of_i64(v: i64) -> u64 {
    if v >= 0 {
        v as u64
    } else {
        (v + 0x1_0000_0000_0000_0000) as u64
    }
}

/// The signed 64-bit reading and the unsigned value holding a signed one
/// are inverse to one another.
pub proof fn lemma_i64_u64_round_trip(v: i64, u: u64)
    ensures
        spec_i64_of_u64(spec_u64_of_i64(v)) == v,
        spec_u64_of_i64(spec_i64_of_u64(u)) == u,
{
    assert(spec_i64_of_u64(spec_u64_of_i64(v)) == v) by (bit_vector);
    assert(spec_u64_of_i64(spec_i64_of_u64(u)) == u) by (bit_vector);
}

/// A declared word size clipped to a 16-bit register count, the truncation
/// the canonical layout applies to out-of-range schema sizes.
pub open spec fn spec_size_u16(s: i64) -> u16 {
    (s & 0xffff) as u16
}

/// Clip a declared word size to a 16-bit register count.
pub fn size_to_u16(s: i64) -> (r: u16)
    ensures
        r == spec_size_u16(s),
{
    proof {
        assert(s as u16 == (s & 0xffff) as u16) by (bit_vector);
    }
    #[verifier::truncate]
    (s as u16)
}

/// Addition of word counts, saturating at the largest register count.
pub open spec fn spec_sat_add_u16(a: u16, b: u16) -> u16 {
    if a + b > 0xffff {
        0xffff
    } else {
        (a + b) as u16
    }
}

/// Add word counts, saturating at the largest register count.
pub fn sat_add_u16(a: u16, b: u16) -> (r: u16)
    ensures
        r == spec_sat_add_u16(a, b),
{
    if b > 0xffff - a {
        0xffff
    } else {
        a + b
    }
}

/// The big-endian byte stream of a sequence of register words.
pub open spec fn spec_words_bytes(ws: Seq<u16>) -> Seq<u8> {
    Seq::new(ws.len() * 2, |i: int| if i % 2 == 0 {
        (ws[i / 2] / 0x100) as u8
    } else {
        (ws[i / 2] % 0x100) as u8
    })
}

/// Flatten register words into their big-endian byte stream.
pub fn words_to_be_bytes(ws: &[u16]) -> (r: Vec<u8>)
    ensures
        r@ == spec_words_bytes(ws@),
{
    let mut out: Vec<u8> = Vec::new();
    let mut i: usize = 0;
    while i < ws.len()
        invariant
            i <= ws.len(),
            out@.len() == i * 2,
            forall|j: int| 0 <= j < i * 2 ==> out@[j] == spec_words_bytes(ws@)[j],
        decreases ws.len() - i,
    {
        let w = ws[i];
        out.push((w / 0x100) as u8);
        out.push((w % 0x100) as u8);
        i = i + 1;
    }
    proof {
        assert(out@ =~= spec_words_bytes(ws@));
    }
    out
}

/// The register words whose big-endian byte stream is the given bytes,
/// two bytes to the word; a trailing odd byte contributes nothing.
pub open spec fn spec_bytes_words(bs: Seq<u8>) -> Seq<u16> {
    Seq::new(bs.len() / 2, |i: int| (bs[2 * i] * 0x100 + bs[2 * i + 1]) as u16)
}

/// Gather big-endian bytes into register words, two bytes to the word; a
/// trailing odd byte contributes nothing.
pub fn be_bytes_to_words(bs: &[u8]) -> (r: Vec<u16>)
    ensures
        r@ == spec_bytes_words(bs@),
{
    let mut out: Vec<u16> = Vec::new();
    let len = bs.len();
    let n = len / 2;
    let mut i: usize = 0;
    let mut j: usize = 0;
    while i < n
        invariant
            len == bs@.len(),
            n == bs@.len() / 2,
            0 <= i <= n,
            j == 2 * i,
            out@.len() == i,
            forall|k: int| 0 <= k < i ==> out@[k] == spec_bytes_words(bs@)[k],
        decreases n - i,
    {
        proof {
            assert(2 * i + 1 < bs@.len());
        }
        let b0 = bs[j];
        let b1 = bs[j + 1];
        out.push(b0 as u16 * 0x100 + b1 as u16);
        i = i + 1;
        j = j + 2;
    }
    proof {
        assert(out@ =~= spec_bytes_words(bs@));
    }
    out
}

/// Gathering the bytes of a word sequence back into words recovers the words.
pub proof fn lemma_words_bytes_round_trip(ws: Seq<u16>)
    ensures
        spec_bytes_words(spec_words_bytes(ws)) =~= ws,
{
    let bs = spec_words_bytes(ws);
    assert forall|i: int| 0 <= i < ws.len() implies spec_bytes_words(bs)[i] == ws[i] by {
        let w = ws[i];
        assert(bs[2 * i] == (w / 0x100) as u8);
        assert(bs[2 * i + 1] == (w % 0x100) as u8);
        assert((w / 0x100) * 0x100 + w % 0x100 == w) by (bit_vector);
    }
}

} // verus!
