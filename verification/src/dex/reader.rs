//! The files on which a reader of DEX files comes back.
use crate::bytes;
use crate::dex::layout;
use crate::dex::layout::{has_bytes, read_u16, read_u32, room_for, Outcome, Tables};
use crate::dex::members;
use crate::dex::members::check_class;
use vstd::prelude::*;

verus! {

/// The most bytes that an entry of the map takes in memory.
pub const SECTION_SIZE: u32 = 12;

/// The most bytes that a class takes in a list of names while the list grows.
pub const CLASS_SIZE: u32 = 64;

/// The file begins with a DEX header in one of the two byte orders.
pub open spec fn has_header(d: Seq<u8>) -> bool {
    d.len() >= 112 && (is_big_endian(d) || is_little_endian(d))
}

/// The byte order mark says that numbers begin with their most significant byte.
pub open spec fn is_big_endian(d: Seq<u8>) -> bool {
    d[40] == 0x12 && d[41] == 0x34 && d[42] == 0x56 && d[43] == 0x78
}

/// The byte order mark says that numbers begin with their least significant byte.
pub open spec fn is_little_endian(d: Seq<u8>) -> bool {
    d[40] == 0x78 && d[41] == 0x56 && d[42] == 0x34 && d[43] == 0x12
}

/// The header field at position `p`.
pub open spec fn header_field(d: Seq<u8>, p: int) -> int {
    if is_big_endian(d) {
        bytes::be_u32(d, p)
    } else {
        bytes::le_u32(d, p)
    }
}

/// Where the data section ends.
pub open spec fn data_end(d: Seq<u8>) -> int {
    header_field(d, 108) + header_field(d, 104)
}

/// The tables that the header announces, with the method handles that the map announces.
pub open spec fn tables(d: Seq<u8>, handles: Option<(u32, u32)>) -> Tables {
    Tables {
        big_endian: is_big_endian(d),
        data_start: header_field(d, 108) as u32,
        data_end: data_end(d) as u32,
        string_count: header_field(d, 56) as u32,
        string_off: header_field(d, 60) as u32,
        type_count: header_field(d, 64) as u32,
        type_off: header_field(d, 68) as u32,
        proto_count: header_field(d, 72) as u32,
        proto_off: header_field(d, 76) as u32,
        field_count: header_field(d, 80) as u32,
        field_off: header_field(d, 84) as u32,
        method_count: header_field(d, 88) as u32,
        method_off: header_field(d, 92) as u32,
        handles,
    }
}

/// The two sums of an Adler-32 checksum.
pub open spec fn adler_sums(s: Seq<u8>) -> (int, int)
    decreases s.len(),
{
    if s.len() == 0 {
        (1, 0)
    } else {
        let (a, b) = adler_sums(s.drop_last());
        let next = (a + s.last()) % 65521;
        (next, (b + next) % 65521)
    }
}

/// The checksum in the header is that of everything behind it.
pub open spec fn checksum_holds(d: Seq<u8>) -> bool {
    let (a, b) = adler_sums(d.skip(12));
    header_field(d, 8) == 0x1_0000 * b + a
}

/// The kinds of section that a map may list.
pub open spec fn is_section(kind: int) -> bool {
    ||| 0 <= kind <= 8
    ||| 0x1000 <= kind <= 0x1003
    ||| 0x2000 <= kind <= 0x2006
}

/// The `n` entries of the map from `p` on can be read.
pub open spec fn map_holds(t: Tables, d: Seq<u8>, p: int, n: int) -> bool
    decreases n,
{
    n > 0 ==> {
        &&& p + 12 <= d.len()
        &&& is_section(layout::u16_at(t, d, p))
        &&& map_holds(t, d, p + 12, n - 1)
    }
}

/// The method handles that the first entry for them among the `n` from `p` on announces.
pub open spec fn handles_in(t: Tables, d: Seq<u8>, p: int, n: int) -> Option<(u32, u32)>
    decreases n,
{
    if n <= 0 {
        None
    } else if layout::u16_at(t, d, p) == 8 {
        Some((layout::u32_at(t, d, p + 4) as u32, layout::u32_at(t, d, p + 8) as u32))
    } else {
        handles_in(t, d, p + 12, n - 1)
    }
}

/// What comes of reading the `k`-th class of the table at `off`.
pub open spec fn nth_class(t: Tables, d: Seq<u8>, off: int, k: int) -> Outcome {
    if off + 32 * k + 32 > d.len() {
        Outcome::Fails
    } else {
        members::class_outcome(t, d, off + 32 * k)
    }
}

/// The reader comes back from each of the classes that the header announces, which are kept in a
/// list.
pub open spec fn classes_return(t: Tables, d: Seq<u8>) -> bool {
    &&& layout::has_room(header_field(d, 96), CLASS_SIZE as int)
    &&& forall|k: int|
        0 <= k < header_field(d, 96) ==> #[trigger] nth_class(t, d, header_field(d, 100), k)
            !is Breaks
}

/// The reader comes back from the map and, if it can be read, from the classes.
pub open spec fn map_returns(d: Seq<u8>) -> bool {
    let t = tables(d, None);
    let p = header_field(d, 52);
    let n = layout::u32_at(t, d, p);
    p + 4 <= d.len() ==> {
        &&& layout::has_room(n, SECTION_SIZE as int)
        &&& map_holds(t, d, p + 4, n) ==> classes_return(
            tables(d, handles_in(t, d, p + 4, n)),
            d,
        )
    }
}

/// A reader of DEX files comes back from this file, with its classes or an error.
///
/// It gives a file up that has no header, or whose map does not lie in the data section, or
/// whose checksum is wrong. From any other it reads the map and then each class, with its
/// annotations, values, fields, methods and code. What it does not come back from is arithmetic
/// that leaves its range, an encoded value that is wider than its kind, a list that announces
/// more than a list can ever hold, and arrays and annotations that stand too deep in each other
/// for the stack. A list that announces more than the file has is only given up.
pub open spec fn reader_returns(d: Seq<u8>) -> bool {
    has_header(d) ==> {
        &&& data_end(d) <= u32::MAX
        &&& (header_field(d, 108) <= header_field(d, 52) < data_end(d) && checksum_holds(d))
            ==> map_returns(d)
    }
}

/// Reads the header field at position `p`.
fn read_field(data: &[u8], p: usize) -> (r: u32)
    requires
        data@.len() >= 112,
        p <= 108,
    ensures
        r == header_field(data@, p as int),
{
    if data[40] == 0x12 && data[41] == 0x34 && data[42] == 0x56 && data[43] == 0x78 {
        bytes::read_u32_be(data, p)
    } else {
        bytes::read_u32(data, p)
    }
}

/// Does the file begin with a DEX header?
fn check_header(data: &[u8]) -> (r: bool)
    ensures
        r == has_header(data@),
{
    if data.len() < 112 {
        return false;
    }
    let big = data[40] == 0x12 && data[41] == 0x34 && data[42] == 0x56 && data[43] == 0x78;
    let little = data[40] == 0x78 && data[41] == 0x56 && data[42] == 0x34 && data[43] == 0x12;
    big || little
}

/// Reads the tables that the header announces.
fn read_tables(data: &[u8], handles: Option<(u32, u32)>) -> (r: Tables)
    requires
        data@.len() >= 112,
        data_end(data@) <= u32::MAX,
    ensures
        r == tables(data@, handles),
{
    Tables {
        big_endian: data[40] == 0x12 && data[41] == 0x34 && data[42] == 0x56 && data[43] == 0x78,
        data_start: read_field(data, 108),
        data_end: read_field(data, 108) + read_field(data, 104),
        string_count: read_field(data, 56),
        string_off: read_field(data, 60),
        type_count: read_field(data, 64),
        type_off: read_field(data, 68),
        proto_count: read_field(data, 72),
        proto_off: read_field(data, 76),
        field_count: read_field(data, 80),
        field_off: read_field(data, 84),
        method_count: read_field(data, 88),
        method_off: read_field(data, 92),
        handles,
    }
}

/// Is the checksum right?
fn check_checksum(data: &[u8]) -> (r: bool)
    requires
        data@.len() >= 112,
    ensures
        r == checksum_holds(data@),
{
    let mut a: u64 = 1;
    let mut b: u64 = 0;
    let mut i: usize = 12;
    let ghost rest = data@.skip(12);
    proof {
        assert(rest.take(0) == Seq::<u8>::empty());
    }
    while i < data.len()
        invariant
            12 <= i <= data@.len(),
            rest == data@.skip(12),
            a < 65521,
            b < 65521,
            adler_sums(rest.take(i - 12)) == (a as int, b as int),
        decreases data@.len() - i,
    {
        proof {
            assert(rest.take(i - 11).drop_last() == rest.take(i - 12));
            assert(rest.take(i - 11).last() == data@[i as int]);
        }
        a = (a + data[i] as u64) % 65521;
        b = (b + a) % 65521;
        i = i + 1;
    }
    proof {
        assert(rest.take(i - 12) == rest);
    }
    read_field(data, 8) as u64 == 0x1_0000 * b + a
}

/// Can the entries of the map be read?
fn check_map(t: &Tables, data: &[u8], p: u128, n: u32) -> (r: bool)
    ensures
        r == map_holds(*t, data@, p as int, n as int),
{
    let len: usize = data.len();
    let mut at: u128 = p;
    let mut left: u32 = n;
    while left > 0
        invariant
            len == data@.len(),
            map_holds(*t, data@, p as int, n as int) == map_holds(
                *t,
                data@,
                at as int,
                left as int,
            ),
        decreases left,
    {
        if !has_bytes(data, at, 12) {
            return false;
        }
        let kind: u16 = read_u16(t, data, at);
        if !(kind <= 8 || (0x1000 <= kind && kind <= 0x1003) || (0x2000 <= kind && kind
            <= 0x2006)) {
            return false;
        }
        at = at + 12;
        left = left - 1;
    }
    true
}

/// Finds the method handles that the map announces.
fn find_handles(t: &Tables, data: &[u8], p: u128, n: u32) -> (r: Option<(u32, u32)>)
    requires
        map_holds(*t, data@, p as int, n as int),
    ensures
        r == handles_in(*t, data@, p as int, n as int),
{
    let len: usize = data.len();
    let mut at: u128 = p;
    let mut left: u32 = n;
    while left > 0
        invariant
            len == data@.len(),
            map_holds(*t, data@, at as int, left as int),
            handles_in(*t, data@, p as int, n as int) == handles_in(
                *t,
                data@,
                at as int,
                left as int,
            ),
        decreases left,
    {
        if read_u16(t, data, at) == 8 {
            return Some((read_u32(t, data, at + 4), read_u32(t, data, at + 8)));
        }
        at = at + 12;
        left = left - 1;
    }
    None
}

/// Where a class lies past the end of the file, so do those behind it.
proof fn later_classes_fail(t: Tables, d: Seq<u8>, off: int, k: int)
    requires
        off + 32 * k + 32 > d.len(),
    ensures
        forall|j: int| k <= j ==> #[trigger] nth_class(t, d, off, j) is Fails,
{
}

/// Does the reader come back from each of the classes?
fn check_classes(t: &Tables, data: &[u8]) -> (r: bool)
    requires
        data@.len() >= 112,
    ensures
        r == classes_return(*t, data@),
{
    let len: usize = data.len();
    let n: u32 = read_field(data, 96);
    let off: u32 = read_field(data, 100);
    if !room_for(n as u64, CLASS_SIZE) {
        return false;
    }
    let mut k: u32 = 0;
    while k < n
        invariant
            len == data@.len(),
            k <= n,
            n == header_field(data@, 96),
            layout::has_room(n as int, CLASS_SIZE as int),
            off == header_field(data@, 100),
            forall|j: int| 0 <= j < k ==> #[trigger] nth_class(*t, data@, off as int, j) !is Breaks,
        decreases n - k,
    {
        let p: u128 = off as u128 + 32 * k as u128;
        if has_bytes(data, p, 32) {
            let seen: Outcome = check_class(t, data, p);
            assert(seen == nth_class(*t, data@, off as int, k as int));
            if seen == Outcome::Breaks {
                return false;
            }
        } else {
            proof {
                later_classes_fail(*t, data@, off as int, k as int);
            }
            return true;
        }
        k = k + 1;
    }
    true
}

/// Does a reader of DEX files come back from this file?
pub fn reader_will_return(data: &[u8]) -> (r: bool)
    ensures
        r == reader_returns(data@),
{
    if !check_header(data) {
        return true;
    }
    let start: u32 = read_field(data, 108);
    let end: u64 = start as u64 + read_field(data, 104) as u64;
    if end > u32::MAX as u64 {
        return false;
    }
    let map: u32 = read_field(data, 52);
    if map < start || map as u64 >= end || !check_checksum(data) {
        return true;
    }
    let t: Tables = read_tables(data, None);
    let p: u128 = map as u128;
    if !has_bytes(data, p, 4) {
        return true;
    }
    let n: u32 = read_u32(&t, data, p);
    if !room_for(n as u64, SECTION_SIZE) {
        return false;
    }
    if !check_map(&t, data, p + 4, n) {
        return true;
    }
    let handles: Option<(u32, u32)> = find_handles(&t, data, p + 4, n);
    check_classes(&read_tables(data, handles), data)
}

} // verus!
