//! Numbers in byte sequences.
use vstd::prelude::*;

verus! {

/// The 16-bit number at position `p`.
pub open spec fn le_u16(s: Seq<u8>, p: int) -> int {
    s[p] + 0x100 * s[p + 1]
}

/// The 32-bit number at position `p`.
pub open spec fn le_u32(s: Seq<u8>, p: int) -> int {
    s[p] + 0x100 * s[p + 1] + 0x1_0000 * s[p + 2] + 0x100_0000 * s[p + 3]
}

/// The 64-bit number at position `p`.
pub open spec fn le_u64(s: Seq<u8>, p: int) -> int {
    le_u32(s, p) + 0x1_0000_0000 * le_u32(s, p + 4)
}

/// The 32-bit number at position `p`, its most significant byte first.
pub open spec fn be_u32(s: Seq<u8>, p: int) -> int {
    s[p + 3] + 0x100 * s[p + 2] + 0x1_0000 * s[p + 1] + 0x100_0000 * s[p]
}

/// The 16-bit number at position `p`, its most significant byte first.
pub open spec fn be_u16(s: Seq<u8>, p: int) -> int {
    s[p + 1] + 0x100 * s[p]
}

/// The byte of `v` that counts multiples of `unit`.
pub open spec fn byte_of(v: int, unit: int) -> u8 {
    (v / unit % 0x100) as u8
}

/// The eight bytes of `v`, the least significant first.
pub open spec fn word_bytes(v: u64) -> Seq<u8> {
    seq![
        byte_of(v as int, 1),
        byte_of(v as int, 0x100),
        byte_of(v as int, 0x1_0000),
        byte_of(v as int, 0x100_0000),
        byte_of(v as int, 0x1_0000_0000),
        byte_of(v as int, 0x100_0000_0000),
        byte_of(v as int, 0x1_0000_0000_0000),
        byte_of(v as int, 0x100_0000_0000_0000),
    ]
}

/// The bytes of an optional list of bytes.
pub open spec fn optional_bytes(b: Option<Vec<u8>>) -> Option<Seq<u8>> {
    match b {
        Some(v) => Some(v@),
        None => None,
    }
}

/// Reads a 16-bit number.
pub fn read_u16(data: &[u8], p: usize) -> (r: u16)
    requires
        p + 2 <= data@.len(),
    ensures
        r == le_u16(data@, p as int),
{
    let _n: usize = data.len();
    data[p] as u16 + 0x100 * (data[p + 1] as u16)
}

/// Reads a 32-bit number.
pub fn read_u32(data: &[u8], p: usize) -> (r: u32)
    requires
        p + 4 <= data@.len(),
    ensures
        r == le_u32(data@, p as int),
{
    let _n: usize = data.len();
    data[p] as u32 + 0x100 * (data[p + 1] as u32) + 0x1_0000 * (data[p + 2] as u32) + 0x100_0000 * (
    data[p + 3] as u32)
}

/// Reads a 16-bit number whose most significant byte comes first.
pub fn read_u16_be(data: &[u8], p: usize) -> (r: u16)
    requires
        p + 2 <= data@.len(),
    ensures
        r == be_u16(data@, p as int),
{
    let _n: usize = data.len();
    data[p + 1] as u16 + 0x100 * (data[p] as u16)
}

/// Reads a 32-bit number whose most significant byte comes first.
pub fn read_u32_be(data: &[u8], p: usize) -> (r: u32)
    requires
        p + 4 <= data@.len(),
    ensures
        r == be_u32(data@, p as int),
{
    let _n: usize = data.len();
    data[p + 3] as u32 + 0x100 * (data[p + 2] as u32) + 0x1_0000 * (data[p + 1] as u32) + 0x100_0000
        * (data[p] as u32)
}

/// Reads a 64-bit number.
pub fn read_u64(data: &[u8], p: usize) -> (r: u64)
    requires
        p + 8 <= data@.len(),
    ensures
        r == le_u64(data@, p as int),
{
    let _n: usize = data.len();
    read_u32(data, p) as u64 + 0x1_0000_0000 * (read_u32(data, p + 4) as u64)
}

/// The bytes of a 64-bit number as they stand in guest memory.
pub fn encode_word(v: u64) -> (r: Vec<u8>)
    ensures
        r@ == word_bytes(v),
{
    let mut r: Vec<u8> = Vec::new();
    r.push((v % 0x100) as u8);
    r.push((v / 0x100 % 0x100) as u8);
    r.push((v / 0x1_0000 % 0x100) as u8);
    r.push((v / 0x100_0000 % 0x100) as u8);
    r.push((v / 0x1_0000_0000 % 0x100) as u8);
    r.push((v / 0x100_0000_0000 % 0x100) as u8);
    r.push((v / 0x1_0000_0000_0000 % 0x100) as u8);
    r.push((v / 0x100_0000_0000_0000 % 0x100) as u8);
    r
}

/// Decoding the bytes of a word gives the word back.
pub proof fn law_word_round_trip(v: u64)
    ensures
        word_bytes(v).len() == 8,
        le_u64(word_bytes(v), 0) == v,
{
    let s = word_bytes(v);
    assert(s[0] == byte_of(v as int, 1));
    let v0 = v as int;
    let v1 = v0 / 0x100;
    let v2 = v1 / 0x100;
    let v3 = v2 / 0x100;
    let v4 = v3 / 0x100;
    let v5 = v4 / 0x100;
    let v6 = v5 / 0x100;
    let v7 = v6 / 0x100;
    assert(v2 == v0 / 0x1_0000);
    assert(v3 == v0 / 0x100_0000);
    assert(v4 == v0 / 0x1_0000_0000);
    assert(v5 == v0 / 0x100_0000_0000);
    assert(v6 == v0 / 0x1_0000_0000_0000);
    assert(v7 == v0 / 0x100_0000_0000_0000);
}

/// A number stands in bytes that count ever larger powers of 256: from the first byte on, or from
/// the last where the most significant comes first. What stands around it does not matter.
pub proof fn law_numbers_stand_in_bytes(
    before: Seq<u8>,
    after: Seq<u8>,
    a: u8,
    b: u8,
    c: u8,
    d: u8,
    high: u32,
)
    ensures
        ({
            let two = before + seq![a, b] + after;
            let four = before + seq![a, b, c, d] + after;
            let p = before.len() as int;
            &&& le_u16(two, p) == a + 256 * b
            &&& be_u16(two, p) == 256 * a + b
            &&& le_u32(four, p) == a + 256 * (b + 256 * (c + 256 * d))
            &&& be_u32(four, p) == d + 256 * (c + 256 * (b + 256 * a))
            &&& after.len() >= 4 && le_u32(after, 0) == high ==> le_u64(four, p) == le_u32(four, p) + high
                * 0x1_0000_0000
        }),
{
    let two = before + seq![a, b] + after;
    let four = before + seq![a, b, c, d] + after;
    let p = before.len() as int;
    assert(two[p] == a && two[p + 1] == b);
    assert(four[p] == a && four[p + 1] == b && four[p + 2] == c && four[p + 3] == d);
    if after.len() >= 4 {
        assert(four[p + 4] == after[0] && four[p + 5] == after[1]);
        assert(four[p + 6] == after[2] && four[p + 7] == after[3]);
    }
}

/// The bytes of a word count ever larger powers of 256.
pub proof fn law_word_bytes_count_powers(v: u64)
    ensures
        ({
            let b = word_bytes(v);
            v == b[0] + 256 * (b[1] + 256 * (b[2] + 256 * (b[3] + 256 * (b[4] + 256 * (b[5] + 256
                * (b[6] + 256 * b[7]))))))
        }),
{
    law_word_round_trip(v);
}

} // verus!
