//! From which files a reader of DEX files comes back, said of the bytes of the file.
use crate::bytes;
use crate::dex::layout;
use crate::dex::layout::{Outcome, Tables};
use crate::dex::members;
use crate::dex::number_laws;
use crate::dex::reader;
use crate::dex::values;
use vstd::prelude::*;

verus! {

/// The file begins with a header in this byte order.
pub open spec fn begins_with_header(d: Seq<u8>, big: bool) -> bool {
    &&& d.len() >= 112
    &&& d.subrange(40, 44) == (if big {
        seq![0x12u8, 0x34, 0x56, 0x78]
    } else {
        seq![0x78u8, 0x56, 0x34, 0x12]
    })
}

/// The 32-bit number at `p` in this byte order.
pub open spec fn number(big: bool, d: Seq<u8>, p: int) -> int {
    if big {
        bytes::be_u32(d, p)
    } else {
        bytes::le_u32(d, p)
    }
}

/// The 16-bit number at `p` in this byte order.
pub open spec fn short_number(big: bool, d: Seq<u8>, p: int) -> int {
    if big {
        bytes::be_u16(d, p)
    } else {
        bytes::le_u16(d, p)
    }
}

/// The sum of bytes.
pub open spec fn total(s: Seq<u8>) -> int
    decreases s.len(),
{
    if s.len() == 0 {
        0
    } else {
        total(s.drop_last()) + s.last()
    }
}

/// The sum of the sums of all beginnings of `s` but the empty one, each with one added.
pub open spec fn total_of_totals(s: Seq<u8>) -> int
    decreases s.len(),
{
    if s.len() == 0 {
        0
    } else {
        total_of_totals(s.drop_last()) + 1 + total(s)
    }
}

/// A checksum is made of the sum of all bytes and the sum of those sums, modulo 65521.
pub proof fn law_checksum_sums_up(s: Seq<u8>)
    ensures
        reader::adler_sums(s) == ((1 + total(s)) % 65521, total_of_totals(s) % 65521),
    decreases s.len(),
{
    if s.len() > 0 {
        law_checksum_sums_up(s.drop_last());
        let a = 1 + total(s.drop_last());
        let b = total_of_totals(s.drop_last());
        let x = s.last() as int;
        assert((a % 65521 + x) % 65521 == (a + x) % 65521);
        assert((b % 65521 + (a + x) % 65521) % 65521 == (b + a + x) % 65521);
    }
}

proof fn header_is_known(d: Seq<u8>, big: bool)
    requires
        begins_with_header(d, big),
    ensures
        reader::has_header(d),
        reader::is_big_endian(d) == big,
        forall|p: int| #[trigger] reader::header_field(d, p) == number(big, d, p),
{
    let mark = d.subrange(40, 44);
    assert(mark[0] == d[40] && mark[1] == d[41] && mark[2] == d[42] && mark[3] == d[43]);
}

/// A file that is too short for a header, or has no byte order mark at byte 40, is given up.
pub proof fn law_files_without_a_header_are_given_up(d: Seq<u8>)
    requires
        !begins_with_header(d, false),
        !begins_with_header(d, true),
    ensures
        reader::reader_returns(d),
{
    if d.len() >= 112 {
        let mark = d.subrange(40, 44);
        if reader::is_big_endian(d) {
            assert(mark == seq![0x12u8, 0x34, 0x56, 0x78]);
        }
        if reader::is_little_endian(d) {
            assert(mark == seq![0x78u8, 0x56, 0x34, 0x12]);
        }
    }
}

/// The reader does not come back where the data section, whose size and start stand at bytes 104
/// and 108, ends beyond 32 bits. Else it gives the file up where the map, whose offset stands at
/// byte 52, is not in that section, or the checksum at byte 8 is wrong.
pub proof fn law_broken_headers_are_told_apart(d: Seq<u8>, big: bool)
    requires
        begins_with_header(d, big),
    ensures
        ({
            let start = number(big, d, 108);
            let end = start + number(big, d, 104);
            let map = number(big, d, 52);
            let rest = d.skip(12);
            &&& end > u32::MAX ==> !reader::reader_returns(d)
            &&& end <= u32::MAX && !(start <= map < end) ==> reader::reader_returns(d)
            &&& end <= u32::MAX && number(big, d, 8) != 65536 * (total_of_totals(rest) % 65521) + (1
                + total(rest)) % 65521 ==> reader::reader_returns(d)
        }),
{
    header_is_known(d, big);
    law_checksum_sums_up(d.skip(12));
}

/// The kinds of section.
pub open spec fn known_section(kind: int) -> bool {
    0 <= kind <= 8 || 0x1000 <= kind <= 0x1003 || 0x2000 <= kind <= 0x2006
}

/// The tables of a file are those whose sizes and offsets stand from byte 56 on in its header.
pub open spec fn are_tables_of(t: Tables, d: Seq<u8>, big: bool) -> bool {
    &&& t.big_endian == big
    &&& t.data_start == number(big, d, 108)
    &&& t.data_end == number(big, d, 108) + number(big, d, 104)
    &&& t.string_count == number(big, d, 56) && t.string_off == number(big, d, 60)
    &&& t.type_count == number(big, d, 64) && t.type_off == number(big, d, 68)
    &&& t.proto_count == number(big, d, 72) && t.proto_off == number(big, d, 76)
    &&& t.field_count == number(big, d, 80) && t.field_off == number(big, d, 84)
    &&& t.method_count == number(big, d, 88) && t.method_off == number(big, d, 92)
}

/// The method handles are those of the first entry of kind 8 of the map of `n` entries at `p`, each
/// of which takes 12 bytes; there are none where no entry is of that kind.
pub open spec fn are_handles_of(
    handles: Option<(u32, u32)>,
    d: Seq<u8>,
    big: bool,
    p: int,
    n: int,
) -> bool {
    match handles {
        None => forall|i: int|
            0 <= i < n ==> #[trigger] short_number(big, d, p + 12 * i) != 8,
        Some((count, off)) => exists|i: int|
            {
                &&& 0 <= i < n
                &&& #[trigger] short_number(big, d, p + 12 * i) == 8
                &&& forall|j: int| 0 <= j < i ==> #[trigger] short_number(big, d, p + 12 * j) != 8
                &&& count == number(big, d, p + 12 * i + 4)
                &&& off == number(big, d, p + 12 * i + 8)
            },
    }
}

/// Entry `i` of the map at `p` lies in the file and is of a known kind.
pub open spec fn is_entry(d: Seq<u8>, big: bool, p: int, i: int) -> bool {
    p + 12 * i + 12 <= d.len() && known_section(short_number(big, d, p + 12 * i))
}

proof fn map_is_checked(t: Tables, d: Seq<u8>, p: int, n: int)
    ensures
        reader::map_holds(t, d, p, n) <==> forall|i: int|
            0 <= i < n ==> #[trigger] is_entry(d, t.big_endian, p, i),
    decreases n,
{
    let big = t.big_endian;
    if n > 0 {
        map_is_checked(t, d, p + 12, n - 1);
        assert(is_entry(d, big, p, 0) <==> p + 12 <= d.len() && reader::is_section(
            layout::u16_at(t, d, p),
        ));
        assert forall|i: int| #[trigger] is_entry(d, big, p + 12, i) == is_entry(
            d,
            big,
            p,
            i + 1,
        ) by {
            assert(p + 12 + 12 * i == p + 12 * (i + 1));
        }
        if reader::map_holds(t, d, p, n) {
            assert forall|i: int| 0 <= i < n implies #[trigger] is_entry(d, big, p, i) by {
                if i > 0 {
                    assert(is_entry(d, big, p + 12, i - 1));
                }
            }
        }
        if forall|i: int| 0 <= i < n ==> #[trigger] is_entry(d, big, p, i) {
            assert(is_entry(d, big, p, 0));
            assert forall|i: int| 0 <= i < n - 1 implies #[trigger] is_entry(
                d,
                big,
                p + 12,
                i,
            ) by {
                assert(is_entry(d, big, p, i + 1));
            }
        }
    }
}

proof fn handles_are_found(t: Tables, d: Seq<u8>, p: int, n: int, handles: Option<(u32, u32)>)
    requires
        are_handles_of(handles, d, t.big_endian, p, n),
        0 <= n,
    ensures
        reader::handles_in(t, d, p, n) == handles,
    decreases n,
{
    let big = t.big_endian;
    if n > 0 {
        assert(short_number(big, d, p + 12 * 0) == layout::u16_at(t, d, p));
        match handles {
            None => {
                assert forall|i: int| 0 <= i < n - 1 implies #[trigger] short_number(
                    big,
                    d,
                    p + 12 + 12 * i,
                ) != 8 by {
                    assert(short_number(big, d, p + 12 * (i + 1)) != 8);
                }
                handles_are_found(t, d, p + 12, n - 1, handles);
            },
            Some((count, off)) => {
                let i = choose|i: int|
                    {
                        &&& 0 <= i < n
                        &&& #[trigger] short_number(big, d, p + 12 * i) == 8
                        &&& forall|j: int|
                            0 <= j < i ==> #[trigger] short_number(big, d, p + 12 * j) != 8
                        &&& count == number(big, d, p + 12 * i + 4)
                        &&& off == number(big, d, p + 12 * i + 8)
                    };
                if i > 0 {
                    assert(short_number(big, d, p + 12 * 0) != 8);
                    assert(short_number(big, d, p + 12 + 12 * (i - 1)) == 8);
                    assert forall|j: int| 0 <= j < i - 1 implies #[trigger] short_number(
                        big,
                        d,
                        p + 12 + 12 * j,
                    ) != 8 by {
                        assert(short_number(big, d, p + 12 * (j + 1)) != 8);
                    }
                    handles_are_found(t, d, p + 12, n - 1, handles);
                }
            },
        }
    }
}

/// The header, the checksum and the map of a file are in order: the map lies in the data section.
pub open spec fn is_sound(d: Seq<u8>, big: bool) -> bool {
    let start = number(big, d, 108);
    let end = start + number(big, d, 104);
    let map = number(big, d, 52);
    &&& begins_with_header(d, big)
    &&& end <= u32::MAX
    &&& start <= map < end
    &&& number(big, d, 8) == 65536 * (total_of_totals(d.skip(12)) % 65521) + (1 + total(d.skip(12)))
        % 65521
}

/// The reader comes back from the class at `p`, or the class does not lie in the file.
pub open spec fn comes_back(t: Tables, d: Seq<u8>, p: int) -> bool {
    p + 32 <= d.len() ==> members::class_outcome(t, d, p) !is Breaks
}

/// A file whose map is cut off, or lists a section of no known kind, is given up. From any other
/// one the reader comes back exactly where it comes back from each of the classes that lie in the
/// file, 32 bytes each from the offset at byte 100 on, as many as byte 96 says; and where the map
/// and the list of classes are within what a list can hold.
pub proof fn law_reader_comes_back_from_its_classes(
    d: Seq<u8>,
    big: bool,
    map: int,
    n: int,
    t: Tables,
)
    requires
        is_sound(d, big),
        map == number(big, d, 52),
        n == number(big, d, map),
        are_tables_of(t, d, big),
        are_handles_of(t.handles, d, big, map + 4, n),
    ensures
        ({
            let whole = forall|i: int| 0 <= i < n ==> #[trigger] is_entry(d, big, map + 4, i);
            let count = number(big, d, 96);
            let off = number(big, d, 100);
            &&& map + 4 > d.len() ==> reader::reader_returns(d)
            &&& map + 4 <= d.len() && n * 12 > isize::MAX ==> !reader::reader_returns(d)
            &&& map + 4 <= d.len() && n * 12 <= isize::MAX && !whole ==> reader::reader_returns(d)
            &&& map + 4 <= d.len() && n * 12 <= isize::MAX && whole ==> (reader::reader_returns(d)
                <==> count * 64 <= isize::MAX && forall|k: int|
                0 <= k < count ==> #[trigger] comes_back(t, d, off + 32 * k))
        }),
{
    header_is_known(d, big);
    law_checksum_sums_up(d.skip(12));
    let bare = reader::tables(d, None);
    let count = number(big, d, 96);
    let off = number(big, d, 100);
    assert(layout::u32_at(bare, d, map) == n);
    map_is_checked(bare, d, map + 4, n);
    handles_are_found(bare, d, map + 4, n, t.handles);
    let full = reader::tables(d, t.handles);
    assert(full == t);
    assert forall|k: int| #[trigger] reader::nth_class(t, d, off, k) !is Breaks == comes_back(
        t,
        d,
        off + 32 * k,
    ) by {}
    if reader::classes_return(t, d) {
        assert forall|k: int| 0 <= k < count implies #[trigger] comes_back(
            t,
            d,
            off + 32 * k,
        ) by {
            assert(reader::nth_class(t, d, off, k) !is Breaks);
        }
    }
    if count * 64 <= isize::MAX && forall|k: int|
        0 <= k < count ==> #[trigger] comes_back(t, d, off + 32 * k) {
        assert forall|k: int| 0 <= k < count implies #[trigger] reader::nth_class(t, d, off, k)
            !is Breaks by {
            assert(comes_back(t, d, off + 32 * k));
        }
    }
}

/// A class is read part by part, up to the first that is not good: its type, whose index stands
/// first, its annotations, the offset of which stands at byte 20, the values at byte 28, its data
/// at byte 24 and its interfaces, where it has any, at byte 12.
#[verifier::spinoff_prover]
pub proof fn law_class_is_read_part_by_part(t: Tables, d: Seq<u8>, p: int)
    ensures
        ({
            let big = t.big_endian;
            let r = members::class_outcome(t, d, p);
            let kind = layout::type_outcome(t, d, number(big, d, p));
            let notes = values::directory_outcome(t, d, number(big, d, p + 20));
            let constants = values::static_values_outcome(t, d, number(big, d, p + 28));
            let data = members::class_data_outcome(t, d, number(big, d, p + 24));
            let interfaces = number(big, d, p + 12);
            &&& kind !is Good ==> r == kind
            &&& kind is Good && notes !is Good ==> r == notes
            &&& kind is Good && notes is Good && constants !is Good ==> r == constants
            &&& kind is Good && notes is Good && constants is Good && data !is Good ==> r == data
            &&& kind is Good && notes is Good && constants is Good && data is Good && interfaces == 0
                ==> r is Good
            &&& kind is Good && notes is Good && constants is Good && data is Good && interfaces != 0
                ==> r == layout::type_list_outcome(t, d, interfaces)
        }),
{
    reveal(members::class_outcome);
}

/// A field is read part by part, up to the first that is not good: its entry of 8 bytes, its name
/// at byte 4, its type at byte 2, and its flags.
pub proof fn law_field_is_read_part_by_part(t: Tables, d: Seq<u8>, id: int, flags: u64)
    ensures
        ({
            let big = t.big_endian;
            let p = t.field_off + 8 * id;
            let r = members::field_outcome(t, d, id, flags as int);
            let entry = layout::field_id_outcome(t, d, id);
            let name = layout::string_outcome(t, d, number(big, d, p + 4));
            let kind = layout::type_outcome(t, d, short_number(big, d, p + 2));
            &&& entry !is Good ==> r == entry
            &&& entry is Good && name !is Good ==> r == name
            &&& entry is Good && name is Good && kind !is Good ==> r == kind
            &&& entry is Good && name is Good && kind is Good ==> r == (if flags & 0x50df == flags {
                Outcome::Good
            } else {
                Outcome::Fails
            })
        }),
{
    number_laws::law_known_flags_are_good(flags);
}

/// A method is read part by part: its entry of 8 bytes, its name at byte 4, its prototype at byte 2
/// with its shorthand, result and parameters, its code, its class and its flags. It is good exactly
/// where all of them are, and the reader comes back where it does from each.
#[verifier::spinoff_prover]
pub proof fn law_method_is_read_part_by_part(t: Tables, d: Seq<u8>, id: int, flags: u64, code: int)
    ensures
        ({
            let big = t.big_endian;
            let p = t.method_off + 8 * id;
            let proto = short_number(big, d, p + 2);
            let q = t.proto_off + 12 * proto;
            let r = members::method_outcome(t, d, id, flags as int, code);
            let entry = layout::method_id_outcome(t, d, id);
            let name = layout::string_outcome(t, d, number(big, d, p + 4));
            let kind = layout::proto_id_outcome(t, d, proto);
            let short = layout::string_outcome(t, d, number(big, d, q));
            let result = layout::type_outcome(t, d, number(big, d, q + 4));
            let parameters = if number(big, d, q + 8) == 0 {
                Outcome::Good
            } else {
                layout::type_list_outcome(t, d, number(big, d, q + 8))
            };
            let body = members::code_outcome(t, d, code);
            let class = layout::type_outcome(t, d, short_number(big, d, p));
            &&& r is Good <==> entry is Good && name is Good && kind is Good && short is Good
                && result is Good && parameters is Good && body is Good && class is Good && flags
                & 0x3_1dff == flags
            &&& entry is Breaks ==> r is Breaks
            &&& r is Breaks ==> entry is Breaks || kind is Breaks || result is Breaks || parameters
                is Breaks || body is Breaks || class is Breaks
            &&& entry is Good && name is Good && kind is Good && short is Good && result is Good
                && parameters is Good && body is Breaks ==> r is Breaks
        }),
{
    number_laws::law_known_flags_are_good(flags);
}

/// A string is found by its index: its offset, of 4 bytes in the table, has to lie in the data
/// section and lead to a length and to text with a zero behind it.
pub proof fn law_string_is_looked_up(
    t: Tables,
    before: Seq<u8>,
    length: u64,
    content: Seq<u8>,
    after: Seq<u8>,
    id: int,
)
    requires
        0 <= id,
        !content.contains(0u8),
    ensures
        ({
            let d = before + number_laws::uleb_bytes(length as nat) + content + seq![0u8] + after;
            let entry = t.string_off + 4 * id;
            let off = number(t.big_endian, d, entry);
            &&& id >= t.string_count || entry + 4 > d.len() || off < t.data_start || off
                >= t.data_end ==> layout::string_outcome(t, d, id) is Fails
            &&& id < t.string_count && entry + 4 <= d.len() && t.data_start <= off < t.data_end
                && off == before.len() ==> layout::string_outcome(t, d, id) == (if layout::is_text(
                content,
            ) {
                Outcome::Good
            } else {
                Outcome::Fails
            })
        }),
{
    let bytes = number_laws::uleb_bytes(length as nat);
    let d = before + bytes + content + seq![0u8] + after;
    let start = (before.len() + bytes.len()) as int;
    assert(d == before + bytes + (content + seq![0u8] + after));
    number_laws::law_unsigned_number_is_read_back(before, length, content + seq![0u8] + after);
    assert(d == (before + bytes) + content + seq![0u8] + after);
    number_laws::law_text_ends_before_a_zero(before + bytes, content, after);
    assert(d.subrange(start, (start + content.len()) as int) == content);
}

/// An index into a table is looked up in 32 bits from the last entry on: the reader does not come
/// back where a table is empty, or the last entry or the one that is wanted lies beyond them. It
/// gives up an index that the table does not have, or that lies behind the end of the file.
pub proof fn law_indices_are_looked_up(t: Tables, d: Seq<u8>, id: int)
    requires
        0 <= id,
    ensures
        layout::type_outcome(t, d, id) is Breaks <==> t.type_count == 0 || t.type_off + 4 * (
        t.type_count - 1) > 0xffff_ffff || t.type_off + 4 * id > 0xffff_ffff,
        layout::type_outcome(t, d, id) is Good <==> 0 <= id < t.type_count && t.type_off + 4 * (
        t.type_count - 1) <= 0xffff_ffff && t.type_off + 4 * id + 4 <= d.len()
            && layout::string_outcome(t, d, number(t.big_endian, d, t.type_off + 4 * id)) is Good,
        layout::field_id_outcome(t, d, id) is Breaks <==> t.field_count == 0 || t.field_off + 8 * (
        t.field_count - 1) > 0xffff_ffff || t.field_off + 8 * id > 0xffff_ffff_ffff_ffff,
        layout::field_id_outcome(t, d, id) is Good <==> id < t.field_count && t.field_off + 8 * (
        t.field_count - 1) <= 0xffff_ffff && t.field_off + 8 * id + 8 <= d.len(),
        layout::method_id_outcome(t, d, id) is Breaks <==> t.method_count == 0 || t.method_off + 8
            * (t.method_count - 1) > 0xffff_ffff || t.method_off + 8 * id > 0xffff_ffff_ffff_ffff,
        layout::method_id_outcome(t, d, id) is Good <==> id < t.method_count && t.method_off + 8 * (
        t.method_count - 1) <= 0xffff_ffff && t.method_off + 8 * id + 8 <= d.len(),
        layout::proto_id_outcome(t, d, id) is Breaks <==> t.proto_count == 0 || 12 * (t.proto_count
            - 1) > 0xffff_ffff || t.proto_off + 12 * id > 0xffff_ffff_ffff_ffff,
        layout::proto_id_outcome(t, d, id) is Good <==> id < t.proto_count && 12 * (t.proto_count
            - 1) <= 0xffff_ffff && t.proto_off + 12 * id + 12 <= d.len(),
{
}

/// A method handle is looked up among those that the map announces, 8 bytes each, and has one of
/// nine kinds.
pub proof fn law_handles_are_looked_up(t: Tables, d: Seq<u8>, id: int, count: u32, off: u32)
    requires
        0 <= id,
    ensures
        t.handles is None ==> layout::handle_outcome(t, d, id) is Fails,
        t.handles == Some((count, off)) ==> (layout::handle_outcome(t, d, id) is Breaks <==> count
            == 0 || off + 8 * (count - 1) > 0xffff_ffff || off + 8 * id > 0xffff_ffff),
        t.handles == Some((count, off)) ==> (layout::handle_outcome(t, d, id) is Good <==> id < count
            && off + 8 * (count - 1) <= 0xffff_ffff && off + 8 * id + 8 <= d.len() && short_number(
            t.big_endian,
            d,
            off + 8 * id,
        ) <= 8),
{
}

/// The outcome of looking up the type whose index is entry `i` of the list at `p`.
pub open spec fn listed_type(t: Tables, d: Seq<u8>, p: int, i: int) -> Outcome {
    layout::type_outcome(t, d, short_number(t.big_endian, d, p + 2 * i))
}

proof fn types_go_on(t: Tables, d: Seq<u8>, p: int, n: int, i: int)
    requires
        0 <= i <= n,
        forall|j: int| 0 <= j < i ==> #[trigger] listed_type(t, d, p, j) is Good,
    ensures
        layout::types_outcome(t, d, p, n) == layout::types_outcome(t, d, p + 2 * i, n - i),
    decreases i,
{
    if i > 0 {
        types_go_on(t, d, p, n, i - 1);
        assert(listed_type(t, d, p, i - 1) is Good);
    }
}

/// A list of types is read in turn up to the first that is not good, each index of 2 bytes, behind
/// its length. The length has to be within what a list can hold, the list in the file, and its
/// beginning in the data section.
pub proof fn law_type_lists_are_read_in_turn(t: Tables, d: Seq<u8>, off: int, n: int, i: int)
    requires
        0 <= off,
        n == number(t.big_endian, d, off),
        0 <= n,
    ensures
        ({
            let r = layout::type_list_outcome(t, d, off);
            let starts = t.data_start <= off < t.data_end && off + 4 <= d.len();
            let whole = starts && 2 * n <= isize::MAX && off + 4 + 2 * n <= d.len();
            &&& !starts ==> r is Fails
            &&& starts && 2 * n > isize::MAX ==> r is Breaks
            &&& starts && 2 * n <= isize::MAX && off + 4 + 2 * n > d.len() ==> r is Fails
            &&& whole && (forall|j: int|
                0 <= j < n ==> #[trigger] listed_type(t, d, off + 4, j) is Good) ==> r is Good
            &&& whole && 0 <= i < n && listed_type(t, d, off + 4, i) !is Good && (forall|j: int|
                0 <= j < i ==> #[trigger] listed_type(t, d, off + 4, j) is Good) ==> r
                == listed_type(t, d, off + 4, i)
        }),
{
    if forall|j: int| 0 <= j < n ==> #[trigger] listed_type(t, d, off + 4, j) is Good {
        types_go_on(t, d, off + 4, n, n);
    }
    if 0 <= i < n && forall|j: int| 0 <= j < i ==> #[trigger] listed_type(t, d, off + 4, j) is Good {
        types_go_on(t, d, off + 4, n, i);
    }
}

/// The outcome of reading the annotation whose offset is entry `i` of the list at `p`.
pub open spec fn listed_annotation(t: Tables, d: Seq<u8>, p: int, i: int) -> Outcome {
    values::item_outcome(t, d, number(t.big_endian, d, p + 4 * i))
}

proof fn items_go_on(t: Tables, d: Seq<u8>, p: int, n: int, i: int)
    requires
        0 <= i <= n,
        forall|j: int| 0 <= j < i ==> #[trigger] listed_annotation(t, d, p, j) is Good,
    ensures
        values::items_outcome(t, d, p, n) == values::items_outcome(t, d, p + 4 * i, n - i),
    decreases i,
{
    if i > 0 {
        items_go_on(t, d, p, n, i - 1);
        assert(listed_annotation(t, d, p, i - 1) is Good);
    }
}

/// A set of annotations is read in turn up to the first that is not good, each offset of 4 bytes,
/// behind their number; there is no set at offset zero, which is good.
pub proof fn law_annotation_sets_are_read_in_turn(t: Tables, d: Seq<u8>, off: int, n: int, i: int)
    requires
        0 <= off,
        n == number(t.big_endian, d, off),
        0 <= n,
    ensures
        ({
            let r = values::set_outcome(t, d, off);
            let starts = off > 0 && t.data_start <= off < t.data_end && off + 4 <= d.len();
            let whole = starts && 4 * n <= isize::MAX && off + 4 + 4 * n <= d.len();
            &&& off == 0 ==> r is Good
            &&& off > 0 && !starts ==> r is Fails
            &&& starts && 4 * n > isize::MAX ==> r is Breaks
            &&& starts && 4 * n <= isize::MAX && off + 4 + 4 * n > d.len() ==> r is Fails
            &&& whole && (forall|j: int|
                0 <= j < n ==> #[trigger] listed_annotation(t, d, off + 4, j) is Good) ==> r is Good
            &&& whole && 0 <= i < n && listed_annotation(t, d, off + 4, i) !is Good && (forall|j: int|
                0 <= j < i ==> #[trigger] listed_annotation(t, d, off + 4, j) is Good) ==> r
                == listed_annotation(t, d, off + 4, i)
        }),
{
    if forall|j: int| 0 <= j < n ==> #[trigger] listed_annotation(t, d, off + 4, j) is Good {
        items_go_on(t, d, off + 4, n, n);
    }
    if 0 <= i < n && forall|j: int|
        0 <= j < i ==> #[trigger] listed_annotation(t, d, off + 4, j) is Good {
        items_go_on(t, d, off + 4, n, i);
    }
}

/// The values and annotations of a class that stand at offset zero are not there, and that is good;
/// elsewhere they have to begin in the data section and in the file.
#[verifier::spinoff_prover]
pub proof fn law_values_begin_in_the_data_section(t: Tables, d: Seq<u8>, off: int)
    requires
        0 <= off,
    ensures
        off == 0 ==> values::static_values_outcome(t, d, off) is Good,
        off > 0 && (off < t.data_start || off >= t.data_end || off >= d.len())
            ==> values::static_values_outcome(t, d, off) is Fails,
        off == 0 ==> values::directory_outcome(t, d, off) is Good,
        off > 0 && (off < t.data_start || off >= t.data_end || off + 16 > d.len())
            ==> values::directory_outcome(t, d, off) is Fails,
{
}

/// An annotation has to begin in the data section and in the file, with a byte that says who sees
/// it.
pub proof fn law_annotations_begin_in_the_data_section(t: Tables, d: Seq<u8>, off: int)
    requires
        0 <= off,
    ensures
        off < t.data_start || off >= t.data_end || off >= d.len() || d[off] > 2
            ==> values::item_outcome(t, d, off) is Fails,
{
}

/// The data of a class at offset zero is not there, and that is good; elsewhere it has to begin in
/// the data section and in the file.
#[verifier::spinoff_prover]
pub proof fn law_class_data_begins_in_the_data_section(t: Tables, d: Seq<u8>, off: int)
    requires
        0 <= off,
    ensures
        off == 0 ==> members::class_data_outcome(t, d, off) is Good,
        off > 0 && (off < t.data_start || off >= t.data_end || off >= d.len())
            ==> members::class_data_outcome(t, d, off) is Fails,
{
}

/// Debug information at offset zero is not there, and that is good; elsewhere it has to begin in
/// the data section and in the file.
#[verifier::spinoff_prover]
pub proof fn law_debug_information_begins_in_the_data_section(t: Tables, d: Seq<u8>, off: int)
    requires
        0 <= off,
    ensures
        off == 0 ==> members::debug_outcome(t, d, off) is Good,
        off > 0 && (off < t.data_start || off >= t.data_end || off >= d.len())
            ==> members::debug_outcome(t, d, off) is Fails,
{
}

/// Code at offset zero is not there, and that is good; elsewhere it has to begin in the data
/// section and in the file.
#[verifier::spinoff_prover]
pub proof fn law_code_begins_in_the_data_section(t: Tables, d: Seq<u8>, off: int)
    requires
        0 <= off,
    ensures
        off == 0 ==> members::code_outcome(t, d, off) is Good,
        0 < off <= 0xffff_ffff && (off < t.data_start || off >= t.data_end || off + 12 > d.len())
            ==> members::code_outcome(t, d, off) is Fails,
{
    if 0 < off <= 0xffff_ffff {
        assert(layout::low32(off) == off);
    }
}

/// Whether the reader comes back is told of the bytes of a file: it is not told to come back where
/// the data section ends beyond 32 bits, and is where there is no header.
pub proof fn law_reader_is_told_to_come_back(data: &[u8], r: bool, big: bool)
    requires
        call_ensures(reader::reader_will_return, (data,), r),
    ensures
        !begins_with_header(data@, false) && !begins_with_header(data@, true) ==> r,
        begins_with_header(data@, big) && number(big, data@, 108) + number(big, data@, 104) > u32::MAX
            ==> !r,
        r == reader::reader_returns(data@),
{
    if !begins_with_header(data@, false) && !begins_with_header(data@, true) {
        law_files_without_a_header_are_given_up(data@);
    }
    if begins_with_header(data@, big) {
        law_broken_headers_are_told_apart(data@, big);
    }
}

} // verus!
