//! What is read of a manifest, said of the chunks that it is made of.
use crate::bytes;
use crate::dex::manifest;
use crate::dex::manifest::{Attribute, ManifestInfo};
use crate::text;
use vstd::prelude::*;

verus! {

/// A chunk: its size stands in its header.
pub open spec fn is_chunk(c: Seq<u8>) -> bool {
    c.len() >= 8 && bytes::le_u32(c, 4) == c.len()
}

/// The chunk starts an element.
pub open spec fn starts_element(c: Seq<u8>) -> bool {
    bytes::le_u16(c, 0) == 0x0102
}

/// A chunk that, where it starts an element, holds as many attributes as it says.
pub open spec fn is_whole(c: Seq<u8>) -> bool {
    is_chunk(c) && (starts_element(c) ==> c.len() >= 36 + 20 * bytes::le_u16(c, 28))
}

/// All of these are whole chunks.
pub open spec fn all_whole(chunks: Seq<Seq<u8>>) -> bool {
    forall|i: int| 0 <= i < chunks.len() ==> is_whole(#[trigger] chunks[i])
}

/// Chunks, one behind the other.
pub open spec fn joined(chunks: Seq<Seq<u8>>) -> Seq<u8>
    decreases chunks.len(),
{
    if chunks.len() == 0 {
        Seq::empty()
    } else {
        chunks[0] + joined(chunks.skip(1))
    }
}

/// The string with this number, and empty text where there is none.
pub open spec fn numbered(pool: Seq<Seq<char>>, number: int) -> Seq<char> {
    if number < pool.len() {
        pool[number]
    } else {
        Seq::empty()
    }
}

/// The attributes that a chunk holds. The number of the element's name stands at byte 20 and that
/// of the attributes at byte 28. From byte 36 on each attribute takes 20 bytes, and in them the
/// numbers of its name and value stand at bytes 4 and 8.
pub open spec fn element_attributes(c: Seq<u8>, pool: Seq<Seq<char>>) -> Seq<Attribute> {
    if starts_element(c) {
        Seq::new(
            bytes::le_u16(c, 28) as nat,
            |i: int|
                Attribute {
                    element: numbered(pool, bytes::le_u32(c, 20)),
                    name: numbered(pool, bytes::le_u32(c, 40 + 20 * i)),
                    value: numbered(pool, bytes::le_u32(c, 44 + 20 * i)),
                },
        )
    } else {
        Seq::empty()
    }
}

/// The attributes that chunks hold, one chunk after the other.
pub open spec fn held_attributes(chunks: Seq<Seq<u8>>, pool: Seq<Seq<char>>) -> Seq<Attribute>
    decreases chunks.len(),
{
    if chunks.len() == 0 {
        Seq::empty()
    } else {
        element_attributes(chunks[0], pool) + held_attributes(chunks.skip(1), pool)
    }
}

/// A number of a chunk is the same in the file.
proof fn numbers_stay(before: Seq<u8>, c: Seq<u8>, after: Seq<u8>, p: int)
    requires
        0 <= p,
    ensures
        p + 2 <= c.len() ==> bytes::le_u16(before + c + after, before.len() + p) == bytes::le_u16(
            c,
            p,
        ),
        p + 4 <= c.len() ==> bytes::le_u32(before + c + after, before.len() + p) == bytes::le_u32(
            c,
            p,
        ),
{
    let d = before + c + after;
    assert forall|i: int| 0 <= i < c.len() implies #[trigger] c[i] == d[before.len() + i] by {}
}

proof fn chunk_holds_its_attributes(
    before: Seq<u8>,
    c: Seq<u8>,
    after: Seq<u8>,
    pool: Seq<Seq<char>>,
)
    requires
        is_whole(c),
    ensures
        manifest::chunk_attributes(before + c + after, pool, before.len() as int)
            == element_attributes(c, pool),
{
    let d = before + c + after;
    let p = before.len() as int;
    numbers_stay(before, c, after, 0);
    assert(bytes::le_u16(d, p) == bytes::le_u16(c, 0));
    if starts_element(c) {
        let count = bytes::le_u16(c, 28);
        numbers_stay(before, c, after, 20);
        numbers_stay(before, c, after, 28);
        assert(d.len() - p - 36 >= 20 * count);
        assert(manifest::attribute_count(d, p) == count);
        let found = manifest::chunk_attributes(d, pool, p);
        let held = element_attributes(c, pool);
        assert forall|i: int| 0 <= i < count implies #[trigger] found[i] == held[i] by {
            numbers_stay(before, c, after, 36 + 20 * i + 4);
            numbers_stay(before, c, after, 36 + 20 * i + 8);
            assert(found[i] == manifest::attribute_at(d, pool, p, i));
        }
        assert(found == held);
    }
}

proof fn chunks_hold_their_attributes(
    before: Seq<u8>,
    chunks: Seq<Seq<u8>>,
    pool: Seq<Seq<char>>,
)
    requires
        all_whole(chunks),
    ensures
        manifest::attributes_from(before + joined(chunks), pool, before.len() as int)
            == held_attributes(chunks, pool),
    decreases chunks.len(),
{
    let d = before + joined(chunks);
    let p = before.len() as int;
    if chunks.len() > 0 {
        let c = chunks[0];
        let rest = chunks.skip(1);
        assert(is_whole(c));
        assert(d == before + c + joined(rest));
        assert((before + c) + joined(rest) == d);
        assert forall|i: int| 0 <= i < rest.len() implies is_whole(#[trigger] rest[i]) by {
            assert(rest[i] == chunks[i + 1]);
        }
        chunks_hold_their_attributes(before + c, rest, pool);
        chunk_holds_its_attributes(before, c, joined(rest), pool);
        numbers_stay(before, c, joined(rest), 4);
        assert(!manifest::chunks_end(d, p));
    }
}

/// The attributes of a manifest are those that its chunks hold, in order: all those of the chunks
/// that start an element, and none of any other chunk.
pub proof fn law_attributes_are_those_of_the_chunks(
    header: Seq<u8>,
    chunks: Seq<Seq<u8>>,
    pool: Seq<Seq<char>>,
)
    requires
        header.len() == 8,
        all_whole(chunks),
    ensures
        manifest::attributes(header + joined(chunks), pool) == held_attributes(chunks, pool),
{
    chunks_hold_their_attributes(header, chunks, pool);
}

proof fn held_of_two(one: Seq<Seq<u8>>, two: Seq<Seq<u8>>, pool: Seq<Seq<char>>)
    ensures
        held_attributes(one + two, pool) == held_attributes(one, pool) + held_attributes(two, pool),
    decreases one.len(),
{
    if one.len() == 0 {
        assert(one + two == two);
        assert(held_attributes(one, pool) + held_attributes(two, pool) == held_attributes(
            two,
            pool,
        ));
    } else {
        held_of_two(one.skip(1), two, pool);
        assert((one + two).skip(1) == one.skip(1) + two);
        assert((one + two)[0] == one[0]);
        let first = element_attributes(one[0], pool);
        let more = held_attributes(one.skip(1), pool);
        let last = held_attributes(two, pool);
        assert(first + (more + last) == (first + more) + last);
    }
}

/// A chunk that starts no element can stand anywhere among the chunks of a manifest, or be left
/// out: the attributes are the same.
pub proof fn law_other_chunks_do_not_matter(
    header: Seq<u8>,
    before: Seq<Seq<u8>>,
    other: Seq<u8>,
    after: Seq<Seq<u8>>,
    pool: Seq<Seq<char>>,
)
    requires
        header.len() == 8,
        all_whole(before),
        all_whole(after),
        is_chunk(other),
        bytes::le_u16(other, 0) != 0x0102,
    ensures
        manifest::attributes(header + joined(before + seq![other] + after), pool)
            == manifest::attributes(header + joined(before + after), pool),
{
    let with_other = before + seq![other] + after;
    let without = before + after;
    assert forall|i: int| 0 <= i < with_other.len() implies is_whole(#[trigger] with_other[i]) by {
        if i < before.len() {
            assert(with_other[i] == before[i]);
        } else if i == before.len() {
            assert(with_other[i] == other);
        } else {
            assert(with_other[i] == after[i - before.len() - 1]);
        }
    }
    assert forall|i: int| 0 <= i < without.len() implies is_whole(#[trigger] without[i]) by {
        if i < before.len() {
            assert(without[i] == before[i]);
        } else {
            assert(without[i] == after[i - before.len()]);
        }
    }
    law_attributes_are_those_of_the_chunks(header, with_other, pool);
    law_attributes_are_those_of_the_chunks(header, without, pool);
    held_of_two(before, after, pool);
    held_of_two(before + seq![other], after, pool);
    held_of_two(before, seq![other], pool);
    assert(seq![other].skip(1) == Seq::<Seq<u8>>::empty());
    assert(held_attributes(seq![other].skip(1), pool) == Seq::<Attribute>::empty());
    assert(held_attributes(seq![other], pool) == Seq::<Attribute>::empty());
    assert(held_attributes(before, pool) + Seq::<Attribute>::empty() == held_attributes(
        before,
        pool,
    ));
}

/// An element anywhere in a manifest adds its attributes there, behind those of the elements before
/// it and in front of those of the elements behind it.
pub proof fn law_elements_add_their_attributes(
    header: Seq<u8>,
    before: Seq<Seq<u8>>,
    element: Seq<u8>,
    after: Seq<Seq<u8>>,
    pool: Seq<Seq<char>>,
)
    requires
        header.len() == 8,
        all_whole(before),
        all_whole(after),
        is_whole(element),
        bytes::le_u16(element, 0) == 0x0102,
    ensures
        manifest::attributes(header + joined(before + seq![element] + after), pool)
            == manifest::attributes(header + joined(before), pool) + element_attributes(
            element,
            pool,
        ) + manifest::attributes(header + joined(after), pool),
{
    let all = before + seq![element] + after;
    assert forall|i: int| 0 <= i < all.len() implies is_whole(#[trigger] all[i]) by {
        if i < before.len() {
            assert(all[i] == before[i]);
        } else if i == before.len() {
            assert(all[i] == element);
        } else {
            assert(all[i] == after[i - before.len() - 1]);
        }
    }
    law_attributes_are_those_of_the_chunks(header, all, pool);
    law_attributes_are_those_of_the_chunks(header, before, pool);
    law_attributes_are_those_of_the_chunks(header, after, pool);
    held_of_two(before + seq![element], after, pool);
    held_of_two(before, seq![element], pool);
    assert(seq![element].skip(1) == Seq::<Seq<u8>>::empty());
    assert(held_attributes(seq![element].skip(1), pool) == Seq::<Attribute>::empty());
    assert(held_attributes(seq![element], pool) == element_attributes(element, pool));
}

/// At any place of any file, a chunk that starts no element is passed over by its size; one without
/// a size, or without room for its header, is the end.
pub proof fn law_other_chunks_are_passed_over(d: Seq<u8>, pool: Seq<Seq<char>>, p: int)
    requires
        0 <= p,
    ensures
        p + 8 <= d.len() && bytes::le_u32(d, p + 4) != 0 && bytes::le_u16(d, p) != 0x0102
            ==> manifest::attributes_from(d, pool, p) == manifest::attributes_from(
            d,
            pool,
            p + bytes::le_u32(d, p + 4),
        ),
        p + 8 > d.len() || bytes::le_u32(d, p + 4) == 0 ==> manifest::attributes_from(d, pool, p).len()
            == 0,
{
    let next = manifest::attributes_from(d, pool, p + bytes::le_u32(d, p + 4));
    assert(Seq::<Attribute>::empty() + next == next);
}

/// Where the end of the file cuts an element off, it has the attributes that still lie in the file.
pub proof fn law_elements_can_be_cut_off(d: Seq<u8>, pool: Seq<Seq<char>>, p: int, i: int)
    requires
        0 <= p,
        p + 32 <= d.len(),
        bytes::le_u16(d, p) == 0x0102,
        bytes::le_u32(d, p + 4) != 0,
    ensures
        ({
            let here = manifest::attributes_from(d, pool, p);
            let next = manifest::attributes_from(d, pool, p + bytes::le_u32(d, p + 4));
            let n = here.len() - next.len();
            &&& n >= 0 && here.skip(n) == next
            &&& 0 <= i ==> (i < n <==> i < bytes::le_u16(d, p + 28) && p + 36 + 20 * (i + 1)
                <= d.len())
            &&& 0 <= i < n ==> here[i].element == numbered(pool, bytes::le_u32(d, p + 20))
                && here[i].name == numbered(pool, bytes::le_u32(d, p + 40 + 20 * i))
                && here[i].value == numbered(pool, bytes::le_u32(d, p + 44 + 20 * i))
        }),
{
    let here = manifest::attributes_from(d, pool, p);
    let next = manifest::attributes_from(d, pool, p + bytes::le_u32(d, p + 4));
    let own = manifest::chunk_attributes(d, pool, p);
    assert(here == own + next);
    assert(here.skip(own.len() as int) == next);
    if 0 <= i < own.len() {
        assert(here[i] == own[i]);
        assert(own[i] == manifest::attribute_at(d, pool, p, i));
    }
}

/// Attribute `i` is the one of this name in an element of this name.
pub open spec fn is_given(list: Seq<Attribute>, i: int, element: Seq<char>, name: Seq<char>) -> bool {
    0 <= i < list.len() && list[i].element == element && list[i].name == name
}

proof fn values_by_place(list: Seq<Attribute>, element: Seq<char>, name: Seq<char>, i: int)
    ensures
        is_given(list, i, element, name) && (forall|j: int|
            i < j ==> !#[trigger] is_given(list, j, element, name)) ==> manifest::last_value(
            list,
            element,
            name,
        ) == Some(list[i].value),
        is_given(list, i, element, name) && (forall|j: int|
            j < i ==> !#[trigger] is_given(list, j, element, name)) ==> manifest::first_value(
            list,
            element,
            name,
        ) == Some(list[i].value),
        (forall|j: int| !#[trigger] is_given(list, j, element, name)) ==> manifest::last_value(
            list,
            element,
            name,
        ) is None && manifest::first_value(list, element, name) is None,
    decreases list.len(),
{
    if list.len() > 0 {
        let short = list.drop_last();
        let end = list.len() - 1;
        values_by_place(short, element, name, i);
        assert forall|j: int| #[trigger]
            is_given(short, j, element, name) == (j != end && is_given(list, j, element, name)) by {
            if 0 <= j < end {
                assert(short[j] == list[j]);
            }
        }
        assert(is_given(list, end, element, name) == manifest::is_attribute(
            list[end],
            element,
            name,
        ));
        if i == end {
            values_by_place(short, element, name, 0);
            if forall|j: int| j < i ==> !#[trigger] is_given(list, j, element, name) {
                assert forall|j: int| !#[trigger] is_given(short, j, element, name) by {
                    assert(j < end ==> !is_given(list, j, element, name));
                }
            }
        }
    }
}

/// A manifest says its package by the last `package` of a `manifest`, its application class by the
/// last `name` of an `application`, and its main activity by the first `name` of an `activity`;
/// what none of its attributes gives it does not say.
pub proof fn law_manifest_says_what_its_attributes_give(
    info: ManifestInfo,
    list: Seq<Attribute>,
    i: int,
)
    requires
        info.tells(list),
    ensures
        is_given(list, i, "manifest"@, "package"@) && (forall|j: int|
            i < j ==> !#[trigger] is_given(list, j, "manifest"@, "package"@)) ==> (
        info.package_name matches Some(s) && s@ == list[i].value),
        is_given(list, i, "application"@, "name"@) && (forall|j: int|
            i < j ==> !#[trigger] is_given(list, j, "application"@, "name"@)) ==> (
        info.application_class matches Some(s) && s@ == list[i].value),
        is_given(list, i, "activity"@, "name"@) && (forall|j: int|
            j < i ==> !#[trigger] is_given(list, j, "activity"@, "name"@)) ==> (
        info.main_activity matches Some(s) && s@ == list[i].value),
        (forall|j: int| !#[trigger] is_given(list, j, "manifest"@, "package"@))
            ==> info.package_name is None,
        (forall|j: int| !#[trigger] is_given(list, j, "application"@, "name"@))
            ==> info.application_class is None,
        (forall|j: int| !#[trigger] is_given(list, j, "activity"@, "name"@))
            ==> info.main_activity is None,
{
    values_by_place(list, "manifest"@, "package"@, i);
    values_by_place(list, "application"@, "name"@, i);
    values_by_place(list, "activity"@, "name"@, i);
}

/// None of these is a string pool.
pub open spec fn no_pool(chunks: Seq<Seq<u8>>) -> bool {
    forall|i: int|
        0 <= i < chunks.len() ==> is_chunk(#[trigger] chunks[i]) && bytes::le_u16(chunks[i], 0)
            != 0x0001
}

proof fn pool_is_found_behind(before: Seq<u8>, chunks: Seq<Seq<u8>>, after: Seq<u8>)
    requires
        no_pool(chunks),
    ensures
        manifest::pool_from(before + joined(chunks) + after, before.len() as int)
            == manifest::pool_from(
            before + joined(chunks) + after,
            (before.len() + joined(chunks).len()) as int,
        ),
    decreases chunks.len(),
{
    let d = before + joined(chunks) + after;
    if chunks.len() > 0 {
        let c = chunks[0];
        let rest = chunks.skip(1);
        assert(is_chunk(c));
        assert(d == before + c + (joined(rest) + after));
        assert((before + c) + joined(rest) + after == d);
        assert forall|i: int| 0 <= i < rest.len() implies is_chunk(#[trigger] rest[i])
            && bytes::le_u16(rest[i], 0) != 0x0001 by {
            assert(rest[i] == chunks[i + 1]);
        }
        pool_is_found_behind(before + c, rest, after);
        numbers_stay(before, c, joined(rest) + after, 0);
        numbers_stay(before, c, joined(rest) + after, 4);
    }
}

/// A length in front of a UTF-8 string: one byte, or two where the first has its top bit set.
pub open spec fn is_length(l: Seq<u8>) -> bool {
    l.len() == 1 && l[0] < 0x80 || l.len() == 2 && l[0] >= 0x80
}

proof fn zero_is_found(d: Seq<u8>, start: int, end: int)
    requires
        0 <= start <= end < d.len(),
        forall|i: int| start <= i < end ==> d[i] != 0,
        d[end] == 0,
    ensures
        manifest::next_zero(d, start) == Some(end),
    decreases end - start,
{
    if start < end {
        zero_is_found(d, start + 1, end);
    }
}

proof fn pool_is_placed(lead: Seq<u8>, pool: Seq<u8>, after: Seq<u8>, i: int)
    requires
        bytes::le_u16(pool, 0) == 0x0001,
        bytes::le_u32(pool, 4) != 0,
        pool.len() >= 28 + 4 * bytes::le_u32(pool, 8),
        0 <= i < bytes::le_u32(pool, 8),
    ensures
        ({
            let d = lead + pool + after;
            let p = lead.len() as int;
            &&& manifest::pool_from(d, p) == Some(p)
            &&& manifest::pool_len(d, p) == bytes::le_u32(pool, 8)
            &&& manifest::pool_string_start(d, p, i) == p + bytes::le_u32(pool, 20) + bytes::le_u32(
                pool,
                28 + 4 * i,
            )
            &&& manifest::pool_is_utf8(d, p) <==> bytes::le_u32(pool, 16) / 0x100 % 2 == 1
        }),
{
    numbers_stay(lead, pool, after, 0);
    numbers_stay(lead, pool, after, 4);
    numbers_stay(lead, pool, after, 8);
    numbers_stay(lead, pool, after, 16);
    numbers_stay(lead, pool, after, 20);
    numbers_stay(lead, pool, after, 28 + 4 * i);
}

proof fn wide_string_is_read(lead: Seq<u8>, pool: Seq<u8>, after: Seq<u8>, start: int, t: Seq<char>)
    requires
        text::encode_utf16(t).len() <= 0xffff,
        0 <= start,
        start + manifest::stored_utf16(t).len() <= pool.len(),
        pool.subrange(start, start + manifest::stored_utf16(t).len()) == manifest::stored_utf16(t),
    ensures
        manifest::utf16_string(lead + pool + after, lead.len() + start) == t,
{
    let wide = manifest::stored_utf16(t);
    let x = lead + pool.take(start);
    let y = pool.skip(start + wide.len()) + after;
    assert(pool == pool.take(start) + pool.subrange(start, start + wide.len()) + pool.skip(
        start + wide.len(),
    ));
    assert(lead + pool + after == x + wide + y);
    manifest::law_utf16_string_is_read_back(x, t, y, 0);
}

proof fn narrow_string_is_read(
    d: Seq<u8>,
    q: int,
    first: Seq<u8>,
    second: Seq<u8>,
    content: Seq<u8>,
)
    requires
        is_length(first),
        is_length(second),
        !content.contains(0u8),
        0 <= q,
        q + first.len() + second.len() + content.len() + 1 <= d.len(),
        d.subrange(q, (q + first.len() + second.len() + content.len() + 1) as int) == first + second
            + content + seq![0u8],
    ensures
        manifest::utf8_string(d, q) == text::utf8_lossy(content),
{
    let narrow = first + second + content + seq![0u8];
    let a = first.len() as int;
    let b = (first.len() + second.len()) as int;
    let e = (b + content.len()) as int;
    assert forall|k: int| 0 <= k < narrow.len() implies #[trigger] d[q + k] == narrow[k] by {
        assert(d[q + k] == d.subrange(q, q + e + 1)[k]);
    }
    assert(d[q + 0] == first[0]);
    assert(d[q + a] == second[0]);
    assert(d[q + e] == 0);
    assert forall|k: int| q + b <= k < q + e implies d[k] != 0 by {
        assert(d[q + (k - q)] == content[k - q - b]);
        assert(content.contains(content[k - q - b]));
    }
    zero_is_found(d, q + b, q + e);
    assert(d.subrange(q + b, q + e) == content) by {
        assert forall|k: int| 0 <= k < content.len() implies #[trigger] d.subrange(q + b, q + e)[k]
            == content[k] by {
            assert(d[q + (b + k)] == narrow[b + k]);
        }
    }
}

/// The first string pool of a manifest gives its strings, whatever chunks stand before it and
/// whatever follows: as many as it says at byte 8, each at the sum of the numbers at byte 20 and in
/// the list from byte 28 on, in UTF-8 where bit 8 of the number at byte 16 is set and else in
/// UTF-16.
pub proof fn law_pool_strings_are_read(
    header: Seq<u8>,
    before: Seq<Seq<u8>>,
    pool: Seq<u8>,
    after: Seq<u8>,
    i: int,
    first: Seq<u8>,
    second: Seq<u8>,
    content: Seq<u8>,
    t: Seq<char>,
)
    requires
        header.len() == 8,
        no_pool(before),
        bytes::le_u16(pool, 0) == 0x0001,
        bytes::le_u32(pool, 4) != 0,
        pool.len() >= 28 + 4 * bytes::le_u32(pool, 8),
        0 <= i < bytes::le_u32(pool, 8),
    ensures
        ({
            let strings = manifest::pool_strings(header + joined(before) + pool + after);
            let start = bytes::le_u32(pool, 20) + bytes::le_u32(pool, 28 + 4 * i);
            let wide = manifest::stored_utf16(t);
            let narrow = first + second + content + seq![0u8];
            &&& strings.len() == bytes::le_u32(pool, 8)
            &&& bytes::le_u32(pool, 16) / 0x100 % 2 == 0 && text::encode_utf16(t).len() <= 0xffff
                && start + wide.len() <= pool.len() && pool.subrange(start, start + wide.len())
                == wide ==> strings[i] == t
            &&& bytes::le_u32(pool, 16) / 0x100 % 2 == 1 && is_length(first) && is_length(second)
                && !content.contains(0u8) && start + narrow.len() <= pool.len() && pool.subrange(
                start,
                start + narrow.len(),
            ) == narrow ==> strings[i] == text::utf8_lossy(content)
        }),
{
    let lead = header + joined(before);
    let d = lead + pool + after;
    let p = lead.len() as int;
    let start = bytes::le_u32(pool, 20) + bytes::le_u32(pool, 28 + 4 * i);
    assert(header + joined(before) + (pool + after) == d);
    pool_is_found_behind(header, before, pool + after);
    pool_is_placed(lead, pool, after, i);
    let strings = manifest::pool_strings(d);
    assert(strings[i] == manifest::pool_string(d, p, i));
    let wide = manifest::stored_utf16(t);
    let narrow = first + second + content + seq![0u8];
    if text::encode_utf16(t).len() <= 0xffff && start + wide.len() <= pool.len() && pool.subrange(
        start,
        start + wide.len(),
    ) == wide {
        wide_string_is_read(lead, pool, after, start, t);
    }
    if is_length(first) && is_length(second) && !content.contains(0u8) && start + narrow.len()
        <= pool.len() && pool.subrange(start, start + narrow.len()) == narrow {
        assert(d.subrange(p + start, p + start + narrow.len()) == pool.subrange(
            start,
            start + narrow.len(),
        ));
        narrow_string_is_read(d, p + start, first, second, content);
    }
}

/// A manifest without a string pool has no strings.
pub proof fn law_no_pool_no_strings(header: Seq<u8>, chunks: Seq<Seq<u8>>)
    requires
        header.len() == 8,
        no_pool(chunks),
    ensures
        manifest::pool_strings(header + joined(chunks)).len() == 0,
{
    pool_is_found_behind(header, chunks, Seq::empty());
    assert(header + joined(chunks) + Seq::<u8>::empty() == header + joined(chunks));
}

/// A manifest can be read where both lengths in front of each UTF-8 string lie in the file, or the
/// string begins behind its end, and in any case where its strings are in UTF-16 or it has none.
pub proof fn law_lengths_have_to_lie_in_the_file(
    before: Seq<u8>,
    first: Seq<u8>,
    second: Seq<u8>,
    after: Seq<u8>,
    d: Seq<u8>,
    p: int,
)
    ensures
        is_length(first) && is_length(second) ==> manifest::utf8_in_bounds(
            before + first + second + after,
            before.len() as int,
        ),
        is_length(first) && first.len() == 2 ==> !manifest::utf8_in_bounds(
            before + first,
            before.len() as int,
        ),
        p + 2 > d.len() ==> manifest::utf8_in_bounds(d, p),
        manifest::pool_from(d, 8) is None ==> manifest::pool_in_bounds(d),
        manifest::pool_from(d, 8) == Some(p) && bytes::le_u32(d, p + 16) / 0x100 % 2 == 0
            ==> manifest::pool_in_bounds(d),
        manifest::pool_from(d, 8) == Some(p) && bytes::le_u32(d, p + 16) / 0x100 % 2 == 1 ==> (
        manifest::pool_in_bounds(d) <==> forall|i: int|
            0 <= i < manifest::pool_len(d, p) ==> manifest::utf8_in_bounds(
                d,
                p + bytes::le_u32(d, p + 20) + #[trigger] bytes::le_u32(d, p + 28 + 4 * i),
            )),
{
    let d1 = before + first + second + after;
    let q = before.len() as int;
    if is_length(first) && is_length(second) {
        assert(d1[q] == first[0]);
        assert(d1[(q + first.len()) as int] == second[0]);
    }
    if is_length(first) && first.len() == 2 {
        assert((before + first)[q] == first[0]);
    }
    if manifest::pool_from(d, 8) == Some(p) && bytes::le_u32(d, p + 16) / 0x100 % 2 == 1 {
        if manifest::pool_in_bounds(d) {
            assert forall|i: int| 0 <= i < manifest::pool_len(d, p) implies manifest::utf8_in_bounds(
                d,
                p + bytes::le_u32(d, p + 20) + #[trigger] bytes::le_u32(d, p + 28 + 4 * i),
            ) by {
                assert(manifest::utf8_in_bounds(d, manifest::pool_string_start(d, p, i)));
            }
        }
        if forall|i: int|
            0 <= i < manifest::pool_len(d, p) ==> manifest::utf8_in_bounds(
                d,
                p + bytes::le_u32(d, p + 20) + #[trigger] bytes::le_u32(d, p + 28 + 4 * i),
            ) {
            assert forall|i: int| 0 <= i < manifest::pool_len(d, p) implies manifest::utf8_in_bounds(
                d,
                #[trigger] manifest::pool_string_start(d, p, i),
            ) by {
                let offset = bytes::le_u32(d, p + 28 + 4 * i);
            }
        }
    }
}

/// A pool has as many strings as it says, or as many as their offsets still lie in the file; a pool
/// without room for its header has none.
pub proof fn law_offsets_can_be_cut_off(d: Seq<u8>, p: int, i: int)
    requires
        0 <= p,
        0 <= i,
    ensures
        i < manifest::pool_len(d, p) <==> p + 28 + 4 * (i + 1) <= d.len() && i < bytes::le_u32(
            d,
            p + 8,
        ),
{
}

/// What a manifest says is what the attributes of its chunks give, with the strings of its own
/// pool.
pub proof fn law_manifest_speaks_through_its_own_pool(
    info: ManifestInfo,
    header: Seq<u8>,
    chunks: Seq<Seq<u8>>,
)
    requires
        header.len() == 8,
        all_whole(chunks),
        info.describes(header + joined(chunks)),
    ensures
        info.tells(held_attributes(chunks, manifest::pool_strings(header + joined(chunks)))),
{
    law_attributes_are_those_of_the_chunks(
        header,
        chunks,
        manifest::pool_strings(header + joined(chunks)),
    );
}

/// A manifest without elements says nothing.
pub proof fn law_manifest_without_elements_says_nothing(
    info: ManifestInfo,
    header: Seq<u8>,
    chunks: Seq<Seq<u8>>,
)
    requires
        header.len() == 8,
        all_whole(chunks),
        forall|i: int| 0 <= i < chunks.len() ==> !starts_element(#[trigger] chunks[i]),
        info.describes(header + joined(chunks)),
    ensures
        info.package_name is None && info.application_class is None && info.main_activity is None,
{
    let pool = manifest::pool_strings(header + joined(chunks));
    law_manifest_speaks_through_its_own_pool(info, header, chunks);
    nothing_is_held(chunks, pool);
    law_manifest_says_what_its_attributes_give(info, held_attributes(chunks, pool), 0);
}

proof fn nothing_is_held(chunks: Seq<Seq<u8>>, pool: Seq<Seq<char>>)
    requires
        forall|i: int| 0 <= i < chunks.len() ==> !starts_element(#[trigger] chunks[i]),
    ensures
        held_attributes(chunks, pool).len() == 0,
    decreases chunks.len(),
{
    if chunks.len() > 0 {
        let rest = chunks.skip(1);
        assert(!starts_element(chunks[0]));
        assert forall|i: int| 0 <= i < rest.len() implies !starts_element(#[trigger] rest[i]) by {
            assert(rest[i] == chunks[i + 1]);
        }
        nothing_is_held(rest, pool);
    }
}

/// A manifest that is made of chunks says what their attributes give, whatever chunks stand between
/// its elements.
pub proof fn law_manifest_is_read_to_its_end(
    data: &[u8],
    pool: &Vec<String>,
    r: ManifestInfo,
    header: Seq<u8>,
    chunks: Seq<Seq<u8>>,
)
    requires
        call_ensures(ManifestInfo::parse_with_pool, (data, pool), r),
        header.len() == 8,
        all_whole(chunks),
        data@ == header + joined(chunks),
    ensures
        r.tells(held_attributes(chunks, text::texts(pool@))),
{
    law_attributes_are_those_of_the_chunks(header, chunks, text::texts(pool@));
}

/// A class name is kept as it stands in the manifest.
pub proof fn law_class_names_are_kept(name: &str, r: String)
    requires
        call_ensures(manifest::normalize_class_name, (name,), r),
    ensures
        r@ == name@,
{
}

/// A manifest is read with the strings of its own pool, where it can be read.
pub proof fn law_manifest_is_read_with_its_pool(
    data: &[u8],
    r: ManifestInfo,
    readable: bool,
    header: Seq<u8>,
    chunks: Seq<Seq<u8>>,
)
    requires
        call_ensures(ManifestInfo::parse, (data,), r),
        call_ensures(ManifestInfo::can_parse, (data,), readable),
        header.len() == 8,
        all_whole(chunks),
        data@ == header + joined(chunks),
    ensures
        r.tells(held_attributes(chunks, manifest::pool_strings(data@))),
        readable == manifest::pool_in_bounds(data@),
        no_pool(chunks) ==> readable,
{
    law_manifest_speaks_through_its_own_pool(r, header, chunks);
    if no_pool(chunks) {
        pool_is_found_behind(header, chunks, Seq::empty());
        assert(header + joined(chunks) + Seq::<u8>::empty() == header + joined(chunks));
    }
}

} // verus!
