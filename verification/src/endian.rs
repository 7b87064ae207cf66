//! Little-endian encoding of the fixed-width integers used by the container
//! format, with the facts that relate encoding and decoding.

use vstd::prelude::*;

verus! {

/// The two bytes of `x`, least significant first.
pub open spec fn u16_le(x: u16) -> Seq<u8> {
    seq![(x % 256) as u8, (x / 256) as u8]
}

/// The four bytes of `x`, least significant first.
pub open spec fn u32_le(x: u32) -> Seq<u8> {
    seq![
        (x % 256) as u8,
        (x / 256 % 256) as u8,
        (x / 65536 % 256) as u8,
        (x / 16777216) as u8,
    ]
}

/// The unsigned integer whose little-endian bytes are `s[at]` and `s[at + 1]`.
pub open spec fn le_u16(s: Seq<u8>, at: int) -> u16 {
    (s[at] + 256 * s[at + 1]) as u16
}

/// The unsigned integer whose little-endian bytes are `s[at]` to `s[at + 3]`.
pub open spec fn le_u32(s: Seq<u8>, at: int) -> u32 {
    (s[at] + 256 * s[at + 1] + 65536 * s[at + 2] + 16777216 * s[at + 3]) as u32
}

/// The two's-complement bit pattern of `x`, read as an unsigned integer.
pub open spec fn i16_bits(x: i16) -> u16 {
    if x < 0 {
        (x + 65536) as u16
    } else {
        x as u16
    }
}

/// The signed integer whose two's-complement bit pattern is `u`.
pub open spec fn bits_i16(u: u16) -> i16 {
    if u >= 32768 {
        (u - 65536) as i16
    } else {
        u as i16
    }
}

/// The two bytes of `x` in two's complement, least significant first.
pub open spec fn i16_le(x: i16) -> Seq<u8> {
    u16_le(i16_bits(x))
}

/// The signed integer whose little-endian bytes are `s[at]` and `s[at + 1]`.
pub open spec fn le_i16(s: Seq<u8>, at: int) -> i16 {
    bits_i16(le_u16(s, at))
}

/// Decoding what `u16_le` wrote, wherever it lies in a sequence, gives the
/// value back.
pub proof fn lemma_u16_round_trip(s: Seq<u8>, at: int, x: u16)
    requires
        0 <= at,
        at + 2 <= s.len(),
        s.subrange(at, at + 2) == u16_le(x),
    ensures
        le_u16(s, at) == x,
{
    let enc = u16_le(x);
    assert(s[at] == s.subrange(at, at + 2)[0]);
    assert(s[at + 1] == s.subrange(at, at + 2)[1]);
    assert(enc[0] == (x % 256) as u8);
    assert(enc[1] == (x / 256) as u8);
}

/// Decoding what `u32_le` wrote, wherever it lies in a sequence, gives the
/// value back.
pub proof fn lemma_u32_round_trip(s: Seq<u8>, at: int, x: u32)
    requires
        0 <= at,
        at + 4 <= s.len(),
        s.subrange(at, at + 4) == u32_le(x),
    ensures
        le_u32(s, at) == x,
{
    let enc = u32_le(x);
    let sub = s.subrange(at, at + 4);
    assert(s[at] == sub[0]);
    assert(s[at + 1] == sub[1]);
    assert(s[at + 2] == sub[2]);
    assert(s[at + 3] == sub[3]);
    assert(enc[0] == (x % 256) as u8);
    assert(enc[1] == (x / 256 % 256) as u8);
    assert(enc[2] == (x / 65536 % 256) as u8);
    assert(enc[3] == (x / 16777216) as u8);
}

/// Decoding what `i16_le` wrote, wherever it lies in a sequence, gives the
/// value back.
pub proof fn lemma_i16_round_trip(s: Seq<u8>, at: int, x: i16)
    requires
        0 <= at,
        at + 2 <= s.len(),
        s.subrange(at, at + 2) == i16_le(x),
    ensures
        le_i16(s, at) == x,
{
    lemma_u16_round_trip(s, at, i16_bits(x));
}

/// Encoding what two bytes decode to gives the two bytes back.
pub proof fn lemma_u16_bytes_round_trip(s: Seq<u8>, at: int)
    requires
        0 <= at,
        at + 2 <= s.len(),
    ensures
        u16_le(le_u16(s, at)) == s.subrange(at, at + 2),
{
    assert(u16_le(le_u16(s, at)) =~= s.subrange(at, at + 2));
}

/// Encoding what four bytes decode to gives the four bytes back.
pub proof fn lemma_u32_bytes_round_trip(s: Seq<u8>, at: int)
    requires
        0 <= at,
        at + 4 <= s.len(),
    ensures
        u32_le(le_u32(s, at)) == s.subrange(at, at + 4),
{
    let b0 = s[at] as int;
    let b1 = s[at + 1] as int;
    let b2 = s[at + 2] as int;
    let b3 = s[at + 3] as int;
    let high = b1 + 256 * b2 + 65536 * b3;
    let x = b0 + 256 * high;
    assert(le_u32(s, at) == x);
    assert(x % 256 == b0 && x / 256 == high);
    assert(high % 256 == b1 && high / 256 == b2 + 256 * b3);
    assert(x / 65536 == b2 + 256 * b3);
    assert((b2 + 256 * b3) % 256 == b2 && (b2 + 256 * b3) / 256 == b3);
    assert(x / 16777216 == b3);
    assert(u32_le(le_u32(s, at)) =~= s.subrange(at, at + 4));
}

/// Encoding the signed integer that two bytes decode to gives the two bytes
/// back.
pub proof fn lemma_i16_bytes_round_trip(s: Seq<u8>, at: int)
    requires
        0 <= at,
        at + 2 <= s.len(),
    ensures
        i16_le(le_i16(s, at)) == s.subrange(at, at + 2),
{
    lemma_u16_bytes_round_trip(s, at);
}

/// Appends the little-endian bytes of `x` to `out`.
pub fn push_u16_le(out: &mut Vec<u8>, x: u16)
    ensures
        final(out)@ == old(out)@ + u16_le(x),
{
    out.push((x % 256) as u8);
    out.push((x / 256) as u8);
    assert(out@ =~= old(out)@ + u16_le(x));
}

/// Appends the little-endian bytes of `x` to `out`.
pub fn push_u32_le(out: &mut Vec<u8>, x: u32)
    ensures
        final(out)@ == old(out)@ + u32_le(x),
{
    out.push((x % 256) as u8);
    out.push((x / 256 % 256) as u8);
    out.push((x / 65536 % 256) as u8);
    out.push((x / 16777216) as u8);
    assert(out@ =~= old(out)@ + u32_le(x));
}

/// Appends the little-endian two's-complement bytes of `x` to `out`.
pub fn push_i16_le(out: &mut Vec<u8>, x: i16)
    ensures
        final(out)@ == old(out)@ + i16_le(x),
{
    let bits: u16 = if x < 0 {
        (x as i32 + 65536) as u16
    } else {
        x as u16
    };
    push_u16_le(out, bits);
}

/// Reads the little-endian unsigned integer at `bytes[at..at + 2]`.
pub fn read_u16_le(bytes: &[u8], at: usize) -> (x: u16)
    requires
        at + 2 <= bytes.len(),
    ensures
        x == le_u16(bytes@, at as int),
{
    bytes[at] as u16 + 256 * (bytes[at + 1] as u16)
}

/// Reads the little-endian unsigned integer at `bytes[at..at + 4]`.
pub fn read_u32_le(bytes: &[u8], at: usize) -> (x: u32)
    requires
        at + 4 <= bytes.len(),
    ensures
        x == le_u32(bytes@, at as int),
{
    bytes[at] as u32 + 256 * (bytes[at + 1] as u32) + 65536 * (bytes[at + 2] as u32) + 16777216
        * (bytes[at + 3] as u32)
}

/// Reads the little-endian two's-complement integer at `bytes[at..at + 2]`.
pub fn read_i16_le(bytes: &[u8], at: usize) -> (x: i16)
    requires
        at + 2 <= bytes.len(),
    ensures
        x == le_i16(bytes@, at as int),
{
    let bits: u16 = read_u16_le(bytes, at);
    if bits >= 32768 {
        (bits as i32 - 65536) as i16
    } else {
        bits as i16
    }
}

} // verus!
