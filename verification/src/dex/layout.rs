//! The tables of a DEX file, and how a reader goes through what they refer to.
//!
//! A reader of DEX files takes an item, follows its indices and offsets, and gives the item up
//! at the first thing that is missing. Some files lead it further than that: to an index past
//! the end of its arithmetic, or to a list that announces more than a list can ever hold.
use crate::bytes;
use crate::text;
use vstd::prelude::*;
use vstd::utf8::valid_utf8;

verus! {

/// What comes of looking something up.
#[derive(Debug, Clone, Copy, PartialEq, Eq, Structural)]
pub enum Outcome {
    /// It is there.
    Good,
    /// It is missing or malformed: the reader gives the item up.
    Fails,
    /// The reader does not come back.
    Breaks,
}

/// What comes of reading something at a position.
pub enum Walk {
    /// It ends before this position.
    Past(int),
    /// It is malformed: the reader gives the item up.
    Fails,
    /// The reader does not come back.
    Breaks,
}

/// What comes of reading something at a position.
#[derive(Debug, Clone, Copy, PartialEq, Eq, Structural)]
pub enum Step {
    Past(u128),
    Fails,
    Breaks,
}

impl Step {
    pub open spec fn walk(self) -> Walk {
        match self {
            Step::Past(p) => Walk::Past(p as int),
            Step::Fails => Walk::Fails,
            Step::Breaks => Walk::Breaks,
        }
    }
}

/// One thing, then another.
pub open spec fn both(first: Outcome, second: Outcome) -> Outcome {
    if first is Good {
        second
    } else {
        first
    }
}

/// Whether a walk comes to an end.
pub open spec fn outcome_of(w: Walk) -> Outcome {
    match w {
        Walk::Past(_) => Outcome::Good,
        Walk::Fails => Outcome::Fails,
        Walk::Breaks => Outcome::Breaks,
    }
}

/// Where the tables of a file stand, and how many entries they have.
#[derive(Debug, Clone, Copy)]
pub struct Tables {
    /// Numbers begin with their most significant byte.
    pub big_endian: bool,
    /// The data section.
    pub data_start: u32,
    pub data_end: u32,
    pub string_count: u32,
    pub string_off: u32,
    pub type_count: u32,
    pub type_off: u32,
    pub proto_count: u32,
    pub proto_off: u32,
    pub field_count: u32,
    pub field_off: u32,
    pub method_count: u32,
    pub method_off: u32,
    /// The number of method handles and where they stand, where the file has any.
    pub handles: Option<(u32, u32)>,
}

/// The 16-bit number at `p`.
pub open spec fn u16_at(t: Tables, d: Seq<u8>, p: int) -> int {
    if t.big_endian {
        bytes::be_u16(d, p)
    } else {
        bytes::le_u16(d, p)
    }
}

/// The 32-bit number at `p`.
pub open spec fn u32_at(t: Tables, d: Seq<u8>, p: int) -> int {
    if t.big_endian {
        bytes::be_u32(d, p)
    } else {
        bytes::le_u32(d, p)
    }
}

/// The offset lies in the data section.
pub open spec fn in_data(t: Tables, off: int) -> bool {
    t.data_start <= off < t.data_end
}

/// A list of `n` elements, each of at most `size` bytes in memory, is within what a list can
/// hold. The reader makes room for as many elements as a list announces before it reads the
/// first, and room for more than `isize::MAX` bytes cannot be asked for. Below that bound memory
/// is taken to suffice.
pub open spec fn has_room(n: int, size: int) -> bool {
    n * size <= isize::MAX
}

/// The lower 32 bits of a number.
pub open spec fn low32(v: int) -> int {
    v % 0x1_0000_0000
}

/// The unsigned LEB128 number at `p`, times `unit`, and the position behind it. It has at most
/// ten bytes and 64 bits.
pub open spec fn uleb_from(d: Seq<u8>, p: int, unit: int) -> Option<(int, int)>
    decreases d.len() - p,
{
    if p < 0 || p >= d.len() || (unit >= 0x8000_0000_0000_0000 && d[p] > 1) {
        None
    } else if d[p] < 0x80 {
        Some((d[p] * unit, p + 1))
    } else {
        match uleb_from(d, p + 1, 0x80 * unit) {
            Some((v, q)) => Some(((d[p] - 0x80) * unit + v, q)),
            None => None,
        }
    }
}

/// The unsigned LEB128 number at `p` and the position behind it.
pub open spec fn uleb(d: Seq<u8>, p: int) -> Option<(int, int)> {
    uleb_from(d, p, 1)
}

/// The signed LEB128 number at `p`, times `unit`, and the position behind it.
pub open spec fn sleb_from(d: Seq<u8>, p: int, unit: int) -> Option<(int, int)>
    decreases d.len() - p,
{
    if p < 0 || p >= d.len() {
        None
    } else if unit >= 0x8000_0000_0000_0000 {
        if d[p] == 0 {
            Some((0, p + 1))
        } else if d[p] == 0x7f {
            Some((-unit, p + 1))
        } else {
            None
        }
    } else if d[p] < 0x40 {
        Some((d[p] * unit, p + 1))
    } else if d[p] < 0x80 {
        Some(((d[p] - 0x80) * unit, p + 1))
    } else {
        match sleb_from(d, p + 1, 0x80 * unit) {
            Some((v, q)) => Some(((d[p] - 0x80) * unit + v, q)),
            None => None,
        }
    }
}

/// The signed LEB128 number at `p` and the position behind it.
pub open spec fn sleb(d: Seq<u8>, p: int) -> Option<(int, int)> {
    sleb_from(d, p, 1)
}

/// The first position from `p` on that holds a zero byte or is the end.
pub open spec fn text_end(d: Seq<u8>, p: int) -> int
    decreases d.len() - p,
{
    if p >= d.len() || d[p] == 0 {
        p
    } else {
        text_end(d, p + 1)
    }
}

/// A continuation byte stands at `i`.
pub open spec fn is_continuation(b: Seq<u8>, i: int) -> bool {
    0 <= i < b.len() && 0x80 <= b[i] < 0xc0
}

/// From `i` on the bytes are text in Java's modified UTF-8: zero takes two bytes, and a
/// character beyond the basic plane is a pair of surrogates of three bytes each.
pub open spec fn is_java_text(b: Seq<u8>, i: int) -> bool
    decreases b.len() - i,
{
    if i < 0 || i >= b.len() {
        true
    } else if b[i] == 0 {
        false
    } else if b[i] < 0x80 {
        is_java_text(b, i + 1)
    } else if b[i] == 0xc0 {
        i + 1 < b.len() && b[i + 1] == 0x80 && is_java_text(b, i + 2)
    } else if 0xc2 <= b[i] <= 0xdf {
        is_continuation(b, i + 1) && is_java_text(b, i + 2)
    } else if 0xe0 <= b[i] <= 0xef {
        &&& is_continuation(b, i + 1)
        &&& is_continuation(b, i + 2)
        &&& if b[i] == 0xe0 && b[i + 1] < 0xa0 {
            false
        } else if b[i] == 0xed && 0xb0 <= b[i + 1] {
            false
        } else if b[i] == 0xed && 0xa0 <= b[i + 1] {
            &&& i + 3 < b.len() && b[i + 3] == 0xed
            &&& is_continuation(b, i + 4) && b[i + 4] >= 0xb0
            &&& is_continuation(b, i + 5)
            &&& is_java_text(b, i + 6)
        } else {
            is_java_text(b, i + 3)
        }
    } else {
        false
    }
}

/// The bytes are text.
pub open spec fn is_text(b: Seq<u8>) -> bool {
    valid_utf8(b) || is_java_text(b, 0)
}

/// The string with this index can be read: its offset stands in the table and leads into the
/// data section, to a length and then text.
pub open spec fn has_string(t: Tables, d: Seq<u8>, id: int) -> bool {
    let entry = t.string_off + 4 * id;
    let off = u32_at(t, d, entry);
    &&& id < t.string_count
    &&& entry + 4 <= d.len()
    &&& in_data(t, off)
    &&& match uleb(d, off) {
        Some((_, start)) => is_text(d.subrange(start, text_end(d, start))),
        None => false,
    }
}

/// Looks the string with this index up.
pub open spec fn string_outcome(t: Tables, d: Seq<u8>, id: int) -> Outcome {
    if has_string(t, d, id) {
        Outcome::Good
    } else {
        Outcome::Fails
    }
}

/// Looks the type with this index up. The reader counts in 32 bits, from the last entry of a
/// table that it takes not to be empty.
pub open spec fn type_outcome(t: Tables, d: Seq<u8>, id: int) -> Outcome {
    let entry = t.type_off + 4 * id;
    if t.type_count == 0 || t.type_off + 4 * (t.type_count - 1) > u32::MAX || entry > u32::MAX {
        Outcome::Breaks
    } else if id >= t.type_count || entry + 4 > d.len() {
        Outcome::Fails
    } else {
        string_outcome(t, d, u32_at(t, d, entry))
    }
}

/// Looks the types whose indices stand in a list of `n` from `p` on up.
pub open spec fn types_outcome(t: Tables, d: Seq<u8>, p: int, n: int) -> Outcome
    decreases n,
{
    if n <= 0 {
        Outcome::Good
    } else {
        both(type_outcome(t, d, u16_at(t, d, p)), types_outcome(t, d, p + 2, n - 1))
    }
}

/// Looks the types of the list at `off` up: a number, then as many indices of two bytes.
pub open spec fn type_list_outcome(t: Tables, d: Seq<u8>, off: int) -> Outcome {
    let n = u32_at(t, d, off);
    if !in_data(t, off) || off + 4 > d.len() {
        Outcome::Fails
    } else if !has_room(n, 2) {
        Outcome::Breaks
    } else if off + 4 + 2 * n > d.len() {
        Outcome::Fails
    } else {
        types_outcome(t, d, off + 4, n)
    }
}

/// Looks an entry of a table up: `n` entries of eight bytes from `off` on, the last of which has
/// to lie within 32 bits.
pub open spec fn entry_outcome(d: Seq<u8>, off: int, n: int, id: int) -> Outcome {
    if n == 0 || off + 8 * (n - 1) > u32::MAX || off + 8 * id > u64::MAX {
        Outcome::Breaks
    } else if id >= n || off + 8 * id + 8 > d.len() {
        Outcome::Fails
    } else {
        Outcome::Good
    }
}

/// Looks the field with this index up.
pub open spec fn field_id_outcome(t: Tables, d: Seq<u8>, id: int) -> Outcome {
    entry_outcome(d, t.field_off as int, t.field_count as int, id)
}

/// Looks the method with this index up.
pub open spec fn method_id_outcome(t: Tables, d: Seq<u8>, id: int) -> Outcome {
    entry_outcome(d, t.method_off as int, t.method_count as int, id)
}

/// Looks the prototype with this index up. Of this table only the size has to lie within 32
/// bits.
pub open spec fn proto_id_outcome(t: Tables, d: Seq<u8>, id: int) -> Outcome {
    if t.proto_count == 0 || 12 * (t.proto_count - 1) > u32::MAX || t.proto_off + 12 * id
        > u64::MAX {
        Outcome::Breaks
    } else if id >= t.proto_count || t.proto_off + 12 * id + 12 > d.len() {
        Outcome::Fails
    } else {
        Outcome::Good
    }
}

/// Looks the method handle with this index up.
pub open spec fn handle_outcome(t: Tables, d: Seq<u8>, id: int) -> Outcome {
    match t.handles {
        None => Outcome::Fails,
        Some((n, off)) => {
            let entry = off + 8 * id;
            if n == 0 || off + 8 * (n - 1) > u32::MAX || entry > u32::MAX {
                Outcome::Breaks
            } else if id >= n || entry + 8 > d.len() || u16_at(t, d, entry) > 8 {
                Outcome::Fails
            } else {
                Outcome::Good
            }
        },
    }
}

/// Do `n` bytes stand from `p` on?
pub fn has_bytes(data: &[u8], p: u128, n: u128) -> (r: bool)
    ensures
        r == (p + n <= data@.len()),
{
    let len: usize = data.len();
    n <= len as u128 && p <= len as u128 - n
}

/// Reads a 16-bit number.
pub fn read_u16(t: &Tables, data: &[u8], p: u128) -> (r: u16)
    requires
        p + 2 <= data@.len(),
    ensures
        r == u16_at(*t, data@, p as int),
{
    let _n: usize = data.len();
    if t.big_endian {
        bytes::read_u16_be(data, p as usize)
    } else {
        bytes::read_u16(data, p as usize)
    }
}

/// Reads a 32-bit number.
pub fn read_u32(t: &Tables, data: &[u8], p: u128) -> (r: u32)
    requires
        p + 4 <= data@.len(),
    ensures
        r == u32_at(*t, data@, p as int),
{
    let _n: usize = data.len();
    if t.big_endian {
        bytes::read_u32_be(data, p as usize)
    } else {
        bytes::read_u32(data, p as usize)
    }
}

/// Is a list of `n` elements within what a list can hold?
pub fn room_for(n: u64, size: u32) -> (r: bool)
    ensures
        r == has_room(n as int, size as int),
{
    proof {
        assert(n * size <= 0xffff_ffff_ffff_ffff * 0xffff_ffff) by (nonlinear_arith)
            requires
                n <= 0xffff_ffff_ffff_ffff,
                size <= 0xffff_ffff,
        ;
    }
    n as u128 * size as u128 <= isize::MAX as u128
}

/// Does the offset lie in the data section?
pub fn is_in_data(t: &Tables, off: u32) -> (r: bool)
    ensures
        r == in_data(*t, off as int),
{
    t.data_start <= off && off < t.data_end
}

/// A place value of a LEB128 number: a power of 128 within 64 bits.
spec fn is_unit(u: int) -> bool {
    ||| u == 1
    ||| u == 0x80
    ||| u == 0x4000
    ||| u == 0x20_0000
    ||| u == 0x1000_0000
    ||| u == 0x8_0000_0000
    ||| u == 0x400_0000_0000
    ||| u == 0x2_0000_0000_0000
    ||| u == 0x100_0000_0000_0000
    ||| u == 0x8000_0000_0000_0000
}

/// A number ahead of which another has been read.
spec fn raised(v: int, rest: Option<(int, int)>) -> Option<(int, int)> {
    match rest {
        Some((w, q)) => Some((v + w, q)),
        None => None,
    }
}

/// A digit of seven bits stays below the next place value.
proof fn digit_bounds(value: int, digit: int, unit: int)
    by (nonlinear_arith)
    requires
        0 <= value < unit,
        0 <= digit < 0x80,
        unit <= 0x8000_0000_0000_0000,
    ensures
        0 <= digit * unit <= 0x40_0000_0000_0000_0000,
        value + digit * unit < 0x80 * unit,
        digit <= 1 ==> digit * unit <= unit,
        (digit - 0x80) * unit == digit * unit - 0x80 * unit,
{
}

/// A digit that another follows is read before the rest of the number.
proof fn digit_is_raised(d: Seq<u8>, at: int, unit: int, value: int, digit: int)
    requires
        0 <= at < d.len(),
        d[at] >= 0x80,
        digit == d[at] - 0x80,
        unit < 0x8000_0000_0000_0000,
    ensures
        raised(value, uleb_from(d, at, unit)) == raised(
            value + digit * unit,
            uleb_from(d, at + 1, 0x80 * unit),
        ),
        raised(value, sleb_from(d, at, unit)) == raised(
            value + digit * unit,
            sleb_from(d, at + 1, 0x80 * unit),
        ),
{
    assert((d[at] - 0x80) * unit == digit * unit);
}

/// Reads an unsigned LEB128 number.
pub fn read_uleb(data: &[u8], p: u128) -> (r: Option<(u64, u128)>)
    ensures
        r matches Some((v, q)) ==> uleb(data@, p as int) == Some((v as int, q as int)) && p < q
            && q <= data@.len(),
        r is None ==> uleb(data@, p as int) is None,
{
    let len: usize = data.len();
    let mut at: u128 = p;
    let mut unit: u128 = 1;
    let mut value: u128 = 0;
    while at < len as u128
        invariant
            len == data@.len(),
            p <= at,
            is_unit(unit as int),
            value < unit,
            uleb(data@, p as int) == raised(value as int, uleb_from(data@, at as int, unit as int)),
        decreases len - at,
    {
        let byte: u8 = data[at as usize];
        if unit >= 0x8000_0000_0000_0000 && byte > 1 {
            return None;
        }
        let digit: u128 = (byte % 0x80) as u128;
        proof {
            digit_bounds(value as int, digit as int, unit as int);
        }
        if byte < 0x80 {
            return Some(((value + digit * unit) as u64, at + 1));
        }
        proof {
            digit_is_raised(data@, at as int, unit as int, value as int, digit as int);
        }
        value = value + digit * unit;
        unit = 0x80 * unit;
        at = at + 1;
    }
    None
}

/// Reads a signed LEB128 number.
pub fn read_sleb(data: &[u8], p: u128) -> (r: Option<(i64, u128)>)
    ensures
        r matches Some((v, q)) ==> sleb(data@, p as int) == Some((v as int, q as int)) && p < q
            && q <= data@.len(),
        r is None ==> sleb(data@, p as int) is None,
{
    let len: usize = data.len();
    let mut at: u128 = p;
    let mut unit: i128 = 1;
    let mut value: i128 = 0;
    while at < len as u128
        invariant
            len == data@.len(),
            p <= at,
            is_unit(unit as int),
            0 <= value < unit,
            sleb(data@, p as int) == raised(value as int, sleb_from(data@, at as int, unit as int)),
        decreases len - at,
    {
        let byte: u8 = data[at as usize];
        if unit >= 0x8000_0000_0000_0000 {
            if byte == 0 {
                return Some((value as i64, at + 1));
            } else if byte == 0x7f {
                return Some(((value - unit) as i64, at + 1));
            }
            return None;
        }
        let digit: i128 = (byte % 0x80) as i128;
        proof {
            digit_bounds(value as int, digit as int, unit as int);
        }
        if byte < 0x40 {
            return Some(((value + digit * unit) as i64, at + 1));
        }
        if byte < 0x80 {
            return Some(((value + digit * unit - 0x80 * unit) as i64, at + 1));
        }
        proof {
            digit_is_raised(data@, at as int, unit as int, value as int, digit as int);
        }
        value = value + digit * unit;
        unit = 0x80 * unit;
        at = at + 1;
    }
    None
}

/// Are the bytes text in Java's modified UTF-8?
fn check_java_text(b: &Vec<u8>) -> (r: bool)
    ensures
        r == is_java_text(b@, 0),
{
    let len: usize = b.len();
    let mut i: usize = 0;
    while i < len
        invariant
            len == b@.len(),
            i <= len,
            is_java_text(b@, 0) == is_java_text(b@, i as int),
        decreases len - i,
    {
        let first: u8 = b[i];
        let left: usize = len - i;
        if first == 0 {
            return false;
        } else if first < 0x80 {
            i = i + 1;
        } else if first == 0xc0 {
            if left < 2 || b[i + 1] != 0x80 {
                return false;
            }
            i = i + 2;
        } else if 0xc2 <= first && first <= 0xdf {
            if left < 2 || b[i + 1] < 0x80 || b[i + 1] >= 0xc0 {
                return false;
            }
            i = i + 2;
        } else if 0xe0 <= first && first <= 0xef {
            if left < 3 || b[i + 1] < 0x80 || b[i + 1] >= 0xc0 || b[i + 2] < 0x80 || b[i + 2]
                >= 0xc0 {
                return false;
            }
            if (first == 0xe0 && b[i + 1] < 0xa0) || (first == 0xed && 0xb0 <= b[i + 1]) {
                return false;
            }
            if first == 0xed && 0xa0 <= b[i + 1] {
                if left < 6 || b[i + 3] != 0xed || b[i + 4] < 0xb0 || b[i + 4] >= 0xc0 || b[i + 5]
                    < 0x80 || b[i + 5] >= 0xc0 {
                    return false;
                }
                i = i + 6;
            } else {
                i = i + 3;
            }
        } else {
            return false;
        }
    }
    true
}

/// Is there text from `start` to the next zero byte or the end?
fn check_text(data: &[u8], start: u128) -> (r: bool)
    requires
        start <= data@.len(),
    ensures
        r == is_text(data@.subrange(start as int, text_end(data@, start as int))),
{
    let len: usize = data.len();
    let mut at: usize = start as usize;
    let mut text: Vec<u8> = Vec::new();
    while at < len && data[at] != 0
        invariant
            len == data@.len(),
            start <= at <= len,
            text@ == data@.subrange(start as int, at as int),
            text_end(data@, start as int) == text_end(data@, at as int),
        decreases len - at,
    {
        text.push(data[at]);
        at = at + 1;
    }
    if check_java_text(&text) {
        return true;
    }
    text::decode_utf8_strict(text).is_some()
}

/// Can the string with this index be read?
pub fn check_string(t: &Tables, data: &[u8], id: u32) -> (r: Outcome)
    ensures
        r == string_outcome(*t, data@, id as int),
{
    if id >= t.string_count {
        return Outcome::Fails;
    }
    let entry: u128 = t.string_off as u128 + 4 * id as u128;
    if !has_bytes(data, entry, 4) {
        return Outcome::Fails;
    }
    let off: u32 = read_u32(t, data, entry);
    if !is_in_data(t, off) {
        return Outcome::Fails;
    }
    match read_uleb(data, off as u128) {
        None => Outcome::Fails,
        Some((_, start)) => if check_text(data, start) {
            Outcome::Good
        } else {
            Outcome::Fails
        },
    }
}

/// What comes of looking the type with this index up?
pub fn check_type(t: &Tables, data: &[u8], id: u32) -> (r: Outcome)
    ensures
        r == type_outcome(*t, data@, id as int),
{
    let entry: u128 = t.type_off as u128 + 4 * id as u128;
    if t.type_count == 0 || t.type_off as u128 + 4 * (t.type_count as u128 - 1)
        > 0xffff_ffff || entry > 0xffff_ffff {
        Outcome::Breaks
    } else if id >= t.type_count || !has_bytes(data, entry, 4) {
        Outcome::Fails
    } else {
        check_string(t, data, read_u32(t, data, entry))
    }
}

/// What comes of looking the types of a list of `n` indices up?
fn check_types(t: &Tables, data: &[u8], p: u128, n: u32) -> (r: Outcome)
    requires
        p + 2 * n <= data@.len(),
    ensures
        r == types_outcome(*t, data@, p as int, n as int),
{
    let len: usize = data.len();
    let mut at: u128 = p;
    let mut left: u32 = n;
    while left > 0
        invariant
            len == data@.len(),
            at + 2 * left <= len,
            types_outcome(*t, data@, p as int, n as int) == types_outcome(
                *t,
                data@,
                at as int,
                left as int,
            ),
        decreases left,
    {
        let seen: Outcome = check_type(t, data, read_u16(t, data, at) as u32);
        if seen != Outcome::Good {
            return seen;
        }
        at = at + 2;
        left = left - 1;
    }
    Outcome::Good
}

/// What comes of looking the types of the list at `off` up?
pub fn check_type_list(t: &Tables, data: &[u8], off: u32) -> (r: Outcome)
    ensures
        r == type_list_outcome(*t, data@, off as int),
{
    if !is_in_data(t, off) || !has_bytes(data, off as u128, 4) {
        return Outcome::Fails;
    }
    let n: u32 = read_u32(t, data, off as u128);
    if !room_for(n as u64, 2) {
        Outcome::Breaks
    } else if !has_bytes(data, off as u128 + 4, 2 * n as u128) {
        Outcome::Fails
    } else {
        check_types(t, data, off as u128 + 4, n)
    }
}

/// What comes of looking an entry of a table up?
fn check_entry(data: &[u8], off: u32, n: u32, id: u64) -> (r: Outcome)
    ensures
        r == entry_outcome(data@, off as int, n as int, id as int),
{
    let entry: u128 = off as u128 + 8 * id as u128;
    if n == 0 || off as u128 + 8 * (n as u128 - 1) > 0xffff_ffff || entry
        > 0xffff_ffff_ffff_ffff {
        Outcome::Breaks
    } else if id >= n as u64 || !has_bytes(data, entry, 8) {
        Outcome::Fails
    } else {
        Outcome::Good
    }
}

/// What comes of looking the field with this index up?
pub fn check_field_id(t: &Tables, data: &[u8], id: u64) -> (r: Outcome)
    ensures
        r == field_id_outcome(*t, data@, id as int),
{
    check_entry(data, t.field_off, t.field_count, id)
}

/// What comes of looking the method with this index up?
pub fn check_method_id(t: &Tables, data: &[u8], id: u64) -> (r: Outcome)
    ensures
        r == method_id_outcome(*t, data@, id as int),
{
    check_entry(data, t.method_off, t.method_count, id)
}

/// What comes of looking the prototype with this index up?
pub fn check_proto_id(t: &Tables, data: &[u8], id: u64) -> (r: Outcome)
    ensures
        r == proto_id_outcome(*t, data@, id as int),
{
    let entry: u128 = t.proto_off as u128 + 12 * id as u128;
    if t.proto_count == 0 || 12 * (t.proto_count as u128 - 1) > 0xffff_ffff || entry
        > 0xffff_ffff_ffff_ffff {
        Outcome::Breaks
    } else if id >= t.proto_count as u64 || !has_bytes(data, entry, 12) {
        Outcome::Fails
    } else {
        Outcome::Good
    }
}

/// What comes of looking the method handle with this index up?
pub fn check_handle(t: &Tables, data: &[u8], id: u32) -> (r: Outcome)
    ensures
        r == handle_outcome(*t, data@, id as int),
{
    match t.handles {
        None => Outcome::Fails,
        Some((n, off)) => {
            let entry: u128 = off as u128 + 8 * id as u128;
            if n == 0 || off as u128 + 8 * (n as u128 - 1) > 0xffff_ffff || entry > 0xffff_ffff {
                Outcome::Breaks
            } else if id >= n || !has_bytes(data, entry, 8) || read_u16(t, data, entry) > 8 {
                Outcome::Fails
            } else {
                Outcome::Good
            }
        },
    }
}

} // verus!
