//! The binary form of `AndroidManifest.xml`: a file header, then chunks, one of them
//! the pool of strings that the others refer to by index.
use crate::bytes;
use crate::text;
use vstd::prelude::*;
use vstd::utf8::{decode_utf8, valid_utf8};

verus! {

/// Chunk type of a string pool.
pub const STRING_POOL: u16 = 0x0001;

/// Chunk type of the start of an element.
pub const START_ELEMENT: u16 = 0x0102;

/// What the runtime needs to know from a manifest.
pub struct ManifestInfo {
    /// e.g. "jp.naver.line.android.LineLauncher"
    pub main_activity: Option<String>,
    /// e.g. "jp.naver.line.android.App"
    pub application_class: Option<String>,
    /// e.g. "jp.naver.line.android"
    pub package_name: Option<String>,
}

/// One attribute, with the name of the element that it stands in.
pub struct Attribute {
    pub element: Seq<char>,
    pub name: Seq<char>,
    pub value: Seq<char>,
}

/// No further chunk begins at `p`: a chunk header would not fit, or it is empty.
pub open spec fn chunks_end(d: Seq<u8>, p: int) -> bool {
    p + 8 > d.len() || bytes::le_u32(d, p + 4) == 0
}

/// The position of the first string pool among the chunks from `p` on.
pub open spec fn pool_from(d: Seq<u8>, p: int) -> Option<int>
    decreases d.len() + 0x1_0000_0000 - p,
{
    if p < 0 || chunks_end(d, p) {
        None
    } else if bytes::le_u16(d, p) == STRING_POOL {
        Some(p)
    } else {
        pool_from(d, p + bytes::le_u32(d, p + 4))
    }
}

/// The number of strings of the pool at `p` whose offset lies in the file.
pub open spec fn pool_len(d: Seq<u8>, p: int) -> int {
    let room = (d.len() - p - 28) / 4;
    if p + 28 > d.len() {
        0
    } else if bytes::le_u32(d, p + 8) <= room {
        bytes::le_u32(d, p + 8)
    } else {
        room
    }
}

/// Does the pool at `p` hold its strings in UTF-8? Else they are in UTF-16.
pub open spec fn pool_is_utf8(d: Seq<u8>, p: int) -> bool {
    bytes::le_u32(d, p + 16) / 0x100 % 2 == 1
}

/// The position of string `i` of the pool at `p`.
pub open spec fn pool_string_start(d: Seq<u8>, p: int, i: int) -> int {
    p + bytes::le_u32(d, p + 20) + bytes::le_u32(d, p + 28 + 4 * i)
}

/// The position behind a length that takes one byte, or two where the first has its
/// top bit set.
pub open spec fn after_length(d: Seq<u8>, p: int) -> int {
    if d[p] >= 0x80 {
        p + 2
    } else {
        p + 1
    }
}

/// The position of the first zero byte from `p` on.
pub open spec fn next_zero(d: Seq<u8>, p: int) -> Option<int>
    decreases d.len() - p,
{
    if p < 0 || p >= d.len() {
        None
    } else if d[p] == 0 {
        Some(p)
    } else {
        next_zero(d, p + 1)
    }
}

/// Both lengths in front of the UTF-8 string at `p` lie in the file.
pub open spec fn utf8_in_bounds(d: Seq<u8>, p: int) -> bool {
    p + 2 > d.len() || {
        let second = after_length(d, p);
        second < d.len() && after_length(d, second) <= d.len()
    }
}

/// The bytes of the UTF-8 string at `p`: two lengths, then bytes up to a zero byte. Without
/// that byte there are none.
pub open spec fn utf8_bytes(d: Seq<u8>, p: int) -> Seq<u8> {
    let start = after_length(d, after_length(d, p));
    match next_zero(d, start) {
        Some(end) => d.subrange(start, end),
        None => Seq::empty(),
    }
}

/// The UTF-8 string at `p`; empty where its first length does not fit in the file.
pub open spec fn utf8_string(d: Seq<u8>, p: int) -> Seq<char> {
    if p + 2 > d.len() {
        Seq::empty()
    } else {
        text::utf8_lossy(utf8_bytes(d, p))
    }
}

/// The UTF-16 string at `p`, the number of units and then the units, fits in the file.
pub open spec fn utf16_fits(d: Seq<u8>, p: int) -> bool {
    p + 2 <= d.len() && p + 2 + 2 * bytes::le_u16(d, p) <= d.len()
}

/// The units of the UTF-16 string at `p`.
pub open spec fn utf16_units(d: Seq<u8>, p: int) -> Seq<u16> {
    Seq::new(bytes::le_u16(d, p) as nat, |i: int| bytes::le_u16(d, p + 2 + 2 * i) as u16)
}

/// The UTF-16 string at `p`; empty where it does not fit in the file.
pub open spec fn utf16_string(d: Seq<u8>, p: int) -> Seq<char> {
    if utf16_fits(d, p) {
        text::utf16_lossy(utf16_units(d, p))
    } else {
        Seq::empty()
    }
}

/// String `i` of the pool at `p`.
pub open spec fn pool_string(d: Seq<u8>, p: int, i: int) -> Seq<char> {
    if pool_is_utf8(d, p) {
        utf8_string(d, pool_string_start(d, p, i))
    } else {
        utf16_string(d, pool_string_start(d, p, i))
    }
}

/// The strings of the first string pool of the file.
pub open spec fn pool_strings(d: Seq<u8>) -> Seq<Seq<char>> {
    match pool_from(d, 8) {
        Some(p) => Seq::new(pool_len(d, p) as nat, |i: int| pool_string(d, p, i)),
        None => Seq::empty(),
    }
}

/// No string of the pool at `p` has its lengths cut off by the end of the file.
pub open spec fn lengths_in_bounds(d: Seq<u8>, p: int) -> bool {
    pool_is_utf8(d, p) ==> forall|i: int|
        0 <= i < pool_len(d, p) ==> utf8_in_bounds(d, #[trigger] pool_string_start(d, p, i))
}

/// No string of the first pool has its lengths cut off by the end of the file.
pub open spec fn pool_in_bounds(d: Seq<u8>) -> bool {
    match pool_from(d, 8) {
        Some(p) => lengths_in_bounds(d, p),
        None => true,
    }
}

/// The string of the pool with this index; empty where there is none.
pub open spec fn pool_entry(pool: Seq<Seq<char>>, index: int) -> Seq<char> {
    if 0 <= index < pool.len() {
        pool[index]
    } else {
        Seq::empty()
    }
}

/// The number of attributes of the element at `p` that lie in the file.
pub open spec fn attribute_count(d: Seq<u8>, p: int) -> int {
    let room = (d.len() - p - 36) / 20;
    if p + 36 > d.len() {
        0
    } else if bytes::le_u16(d, p + 28) <= room {
        bytes::le_u16(d, p + 28)
    } else {
        room
    }
}

/// Attribute `i` of the element at `p`.
pub open spec fn attribute_at(d: Seq<u8>, pool: Seq<Seq<char>>, p: int, i: int) -> Attribute {
    Attribute {
        element: pool_entry(pool, bytes::le_u32(d, p + 20)),
        name: pool_entry(pool, bytes::le_u32(d, p + 36 + 20 * i + 4)),
        value: pool_entry(pool, bytes::le_u32(d, p + 36 + 20 * i + 8)),
    }
}

/// The attributes of the chunk at `p`: none where it does not start an element.
pub open spec fn chunk_attributes(d: Seq<u8>, pool: Seq<Seq<char>>, p: int) -> Seq<Attribute> {
    if bytes::le_u16(d, p) != START_ELEMENT || p + 32 > d.len() {
        Seq::empty()
    } else {
        Seq::new(attribute_count(d, p) as nat, |i: int| attribute_at(d, pool, p, i))
    }
}

/// The attributes of all chunks from `p` on, in the order of the file.
pub open spec fn attributes_from(d: Seq<u8>, pool: Seq<Seq<char>>, p: int) -> Seq<Attribute>
    decreases d.len() + 0x1_0000_0000 - p,
{
    if p < 0 || chunks_end(d, p) {
        Seq::empty()
    } else {
        chunk_attributes(d, pool, p) + attributes_from(d, pool, p + bytes::le_u32(d, p + 4))
    }
}

/// The attributes of a manifest whose strings are `pool`, in the order of the file.
pub open spec fn attributes(d: Seq<u8>, pool: Seq<Seq<char>>) -> Seq<Attribute> {
    attributes_from(d, pool, 8)
}

/// This attribute of this element.
pub open spec fn is_attribute(a: Attribute, element: Seq<char>, name: Seq<char>) -> bool {
    a.element == element && a.name == name
}

/// The value of the first such attribute.
pub open spec fn first_value(list: Seq<Attribute>, element: Seq<char>, name: Seq<char>) -> Option<
    Seq<char>,
>
    decreases list.len(),
{
    if list.len() == 0 {
        None
    } else {
        match first_value(list.drop_last(), element, name) {
            Some(v) => Some(v),
            None => if is_attribute(list.last(), element, name) {
                Some(list.last().value)
            } else {
                None
            },
        }
    }
}

/// The value of the last such attribute.
pub open spec fn last_value(list: Seq<Attribute>, element: Seq<char>, name: Seq<char>) -> Option<
    Seq<char>,
>
    decreases list.len(),
{
    if list.len() == 0 {
        None
    } else if is_attribute(list.last(), element, name) {
        Some(list.last().value)
    } else {
        last_value(list.drop_last(), element, name)
    }
}

/// Reads the UTF-8 string at `pos`.
pub fn parse_utf8_string(data: &[u8], pos: u128) -> (r: String)
    requires
        utf8_in_bounds(data@, pos as int),
    ensures
        r@ == utf8_string(data@, pos as int),
        pos + 2 <= data@.len() && valid_utf8(utf8_bytes(data@, pos as int)) ==> r@ == decode_utf8(
            utf8_bytes(data@, pos as int),
        ),
        pos + 2 > data@.len() ==> r@.len() == 0,
{
    let n: usize = data.len();
    if n < 2 || pos > (n - 2) as u128 {
        return String::new();
    }
    let first: usize = pos as usize;
    let second: usize = if data[first] >= 0x80 {
        first + 2
    } else {
        first + 1
    };
    let start: usize = if data[second] >= 0x80 {
        second + 2
    } else {
        second + 1
    };
    let mut end: usize = start;
    while end < n && data[end] != 0
        invariant
            n == data@.len(),
            start <= end <= n,
            next_zero(data@, start as int) == next_zero(data@, end as int),
        decreases n - end,
    {
        end = end + 1;
    }
    if end == n {
        end = start;
    }
    assert(data@.subrange(start as int, start as int) == Seq::<u8>::empty());
    text::decode_utf8_lossy(&data[start..end])
}

/// Reads the UTF-16 string at `pos`.
pub fn parse_utf16_string(data: &[u8], pos: u128) -> (r: String)
    ensures
        r@ == utf16_string(data@, pos as int),
{
    let n: usize = data.len();
    if n < 2 || pos > (n - 2) as u128 {
        return String::new();
    }
    let start: usize = pos as usize + 2;
    let count: usize = bytes::read_u16(data, pos as usize) as usize;
    if count > (n - start) / 2 {
        return String::new();
    }
    let mut units: Vec<u16> = Vec::new();
    let mut i: usize = 0;
    while i < count
        invariant
            n == data@.len(),
            start == pos + 2,
            count == bytes::le_u16(data@, pos as int),
            start + 2 * count <= n,
            i <= count,
            units@.len() == i,
            forall|k: int| 0 <= k < i ==> units@[k] == bytes::le_u16(data@, pos + 2 + 2 * k) as u16,
        decreases count - i,
    {
        units.push(bytes::read_u16(data, start + 2 * i));
        i = i + 1;
    }
    assert(units@ == utf16_units(data@, pos as int));
    text::decode_utf16_lossy(units.as_slice())
}

/// The position of the first string pool of the file.
fn find_pool(data: &[u8]) -> (r: Option<usize>)
    ensures
        r matches Some(p) ==> pool_from(data@, 8) == Some(p as int) && p + 8 <= data@.len(),
        r is None ==> pool_from(data@, 8) is None,
{
    let n: usize = data.len();
    let mut pos: u128 = 8;
    while pos + 8 <= n as u128
        invariant
            n == data@.len(),
            8 <= pos <= n + 0x1_0000_0000,
            pool_from(data@, 8) == pool_from(data@, pos as int),
        decreases n + 0x1_0000_0000 - pos,
    {
        let p: usize = pos as usize;
        let size: u32 = bytes::read_u32(data, p + 4);
        if size == 0 {
            return None;
        }
        if bytes::read_u16(data, p) == STRING_POOL {
            return Some(p);
        }
        pos = pos + size as u128;
    }
    None
}

/// The number of strings of the pool at `p` whose offset lies in the file.
fn count_pool(data: &[u8], p: usize) -> (r: usize)
    requires
        p + 8 <= data@.len(),
    ensures
        r == pool_len(data@, p as int),
{
    let n: usize = data.len();
    if n - p < 28 {
        return 0;
    }
    let room: usize = (n - p - 28) / 4;
    let count: u32 = bytes::read_u32(data, p + 8);
    if count as u128 <= room as u128 {
        count as usize
    } else {
        room
    }
}

/// Is the pool at `p` in UTF-8?
fn is_utf8_pool(data: &[u8], p: usize) -> (r: bool)
    requires
        p + 28 <= data@.len(),
    ensures
        r == pool_is_utf8(data@, p as int),
{
    let _n: usize = data.len();
    bytes::read_u32(data, p + 16) / 0x100 % 2 == 1
}

/// The position of string `i` of the pool at `p`.
fn find_pool_string(data: &[u8], p: usize, i: usize) -> (r: u128)
    requires
        p + 28 <= data@.len(),
        i < pool_len(data@, p as int),
    ensures
        r == pool_string_start(data@, p as int, i as int),
{
    let _n: usize = data.len();
    p as u128 + bytes::read_u32(data, p + 20) as u128 + bytes::read_u32(data, p + 28 + 4 * i) as u128
}

/// Does the file hold both lengths in front of the UTF-8 string at `pos`?
fn holds_utf8_lengths(data: &[u8], pos: u128) -> (r: bool)
    ensures
        r == utf8_in_bounds(data@, pos as int),
{
    let n: usize = data.len();
    if n < 2 || pos > (n - 2) as u128 {
        return true;
    }
    let first: usize = pos as usize;
    let second: usize = if data[first] >= 0x80 {
        first + 2
    } else {
        first + 1
    };
    if second >= n {
        return false;
    }
    let length: usize = if data[second] >= 0x80 {
        2
    } else {
        1
    };
    length <= n - second
}

/// Reads the strings of the first string pool, indexed as the other chunks refer to
/// them.
pub fn parse_axml_string_pool(data: &[u8]) -> (r: Vec<String>)
    requires
        pool_in_bounds(data@),
    ensures
        text::texts(r@) == pool_strings(data@),
{
    let mut strings: Vec<String> = Vec::new();
    match find_pool(data) {
        None => {
            assert(text::texts(strings@) == pool_strings(data@));
        },
        Some(p) => {
            let n: usize = data.len();
            let count: usize = count_pool(data, p);
            let mut i: usize = 0;
            while i < count
                invariant
                    n == data@.len(),
                    pool_from(data@, 8) == Some(p as int),
                    lengths_in_bounds(data@, p as int),
                    p + 8 <= n,
                    count == pool_len(data@, p as int),
                    i <= count,
                    strings@.len() == i,
                    forall|k: int|
                        0 <= k < i ==> (#[trigger] strings@[k])@ == pool_string(data@, p as int, k),
                decreases count - i,
            {
                let start: u128 = find_pool_string(data, p, i);
                let s = if is_utf8_pool(data, p) {
                    parse_utf8_string(data, start)
                } else {
                    parse_utf16_string(data, start)
                };
                strings.push(s);
                i = i + 1;
            }
            assert(text::texts(strings@) == pool_strings(data@));
        },
    }
    strings
}

/// A class name as the runtime keeps it: as it stands in the manifest. One that begins
/// with `.` is relative to the package; the caller may put the package name before it.
pub fn normalize_class_name(name: &str) -> (r: String)
    ensures
        r@ == name@,
{
    name.to_owned()
}

/// The string of the pool with this index; empty where there is none.
fn pool_get(pool: &Vec<String>, index: u32) -> (r: String)
    ensures
        r@ == pool_entry(text::texts(pool@), index as int),
{
    if (index as u128) < pool.len() as u128 {
        pool[index as usize].clone()
    } else {
        String::new()
    }
}

/// The number of attributes of the element at `p` that lie in the file.
fn count_attributes(data: &[u8], p: usize) -> (r: usize)
    requires
        p + 32 <= data@.len(),
    ensures
        r == attribute_count(data@, p as int),
{
    let n: usize = data.len();
    if n - p < 36 {
        return 0;
    }
    let room: usize = (n - p - 36) / 20;
    let count: usize = bytes::read_u16(data, p + 28) as usize;
    if count <= room {
        count
    } else {
        room
    }
}

/// One more attribute at the end: what becomes of the first and of the last value.
proof fn values_of_push(list: Seq<Attribute>, a: Attribute, element: Seq<char>, name: Seq<char>)
    ensures
        last_value(list.push(a), element, name) == (if is_attribute(a, element, name) {
            Some(a.value)
        } else {
            last_value(list, element, name)
        }),
        first_value(list.push(a), element, name) == (match first_value(list, element, name) {
            Some(v) => Some(v),
            None => if is_attribute(a, element, name) {
                Some(a.value)
            } else {
                None
            },
        }),
{
    assert(list.push(a).drop_last() == list);
}

impl ManifestInfo {
    /// What attributes say: the package of `manifest`, the name of `application`, of each
    /// the last one that is given, and the name of the first `activity`.
    pub open spec fn tells(self, list: Seq<Attribute>) -> bool {
        &&& text::optional_text(self.package_name) == last_value(list, "manifest"@, "package"@)
        &&& text::optional_text(self.application_class) == last_value(
            list,
            "application"@,
            "name"@,
        )
        &&& text::optional_text(self.main_activity) == first_value(list, "activity"@, "name"@)
    }

    /// What a manifest says.
    pub open spec fn describes(self, d: Seq<u8>) -> bool {
        self.tells(attributes(d, pool_strings(d)))
    }

    /// Can `parse` read this file? It cannot where the end of the file cuts off the
    /// lengths of a string.
    pub fn can_parse(data: &[u8]) -> (r: bool)
        ensures
            r == pool_in_bounds(data@),
    {
        match find_pool(data) {
            None => true,
            Some(p) => {
                let count: usize = count_pool(data, p);
                if count == 0 {
                    return true;
                }
                if !is_utf8_pool(data, p) {
                    return true;
                }
                let mut i: usize = 0;
                while i < count
                    invariant
                        pool_from(data@, 8) == Some(p as int),
                        p + 28 <= data@.len(),
                        count == pool_len(data@, p as int),
                        pool_is_utf8(data@, p as int),
                        i <= count,
                        forall|k: int|
                            0 <= k < i ==> utf8_in_bounds(
                                data@,
                                #[trigger] pool_string_start(data@, p as int, k),
                            ),
                    decreases count - i,
                {
                    let start: u128 = find_pool_string(data, p, i);
                    if !holds_utf8_lengths(data, start) {
                        assert(!utf8_in_bounds(
                            data@,
                            pool_string_start(data@, p as int, i as int),
                        ));
                        return false;
                    }
                    i = i + 1;
                }
                true
            },
        }
    }

    /// Reads a manifest: the package of `manifest`, the name of `application` and the
    /// name of the first `activity`, which is typically the launcher.
    pub fn parse(data: &[u8]) -> (r: Self)
        requires
            pool_in_bounds(data@),
        ensures
            r.describes(data@),
    {
        let pool = parse_axml_string_pool(data);
        ManifestInfo::parse_with_pool(data, &pool)
    }

    /// Reads a manifest whose strings are known.
    pub fn parse_with_pool(data: &[u8], pool: &Vec<String>) -> (r: Self)
        ensures
            r.tells(attributes(data@, text::texts(pool@))),
    {
        let ghost strings = text::texts(pool@);
        let ghost mut done: Seq<Attribute> = Seq::empty();
        let mut main_activity: Option<String> = None;
        let mut application_class: Option<String> = None;
        let mut package_name: Option<String> = None;
        let n: usize = data.len();
        let mut pos: u128 = 8;
        while pos + 8 <= n as u128 && bytes::read_u32(data, pos as usize + 4) != 0
            invariant
                n == data@.len(),
                8 <= pos <= n + 0x1_0000_0000,
                text::texts(pool@) == strings,
                attributes(data@, strings) == done + attributes_from(data@, strings, pos as int),
                text::optional_text(package_name) == last_value(done, "manifest"@, "package"@),
                text::optional_text(application_class) == last_value(
                    done,
                    "application"@,
                    "name"@,
                ),
                text::optional_text(main_activity) == first_value(done, "activity"@, "name"@),
            decreases n + 0x1_0000_0000 - pos,
        {
            let p: usize = pos as usize;
            let size: u32 = bytes::read_u32(data, p + 4);
            let ghost before = done;
            if bytes::read_u16(data, p) == START_ELEMENT && n - p >= 32 {
                let element = pool_get(pool, bytes::read_u32(data, p + 20));
                let count: usize = count_attributes(data, p);
                let mut i: usize = 0;
                while i < count
                    invariant
                        n == data@.len(),
                        p + 32 <= n,
                        count == attribute_count(data@, p as int),
                        i <= count,
                        text::texts(pool@) == strings,
                        element@ == pool_entry(strings, bytes::le_u32(data@, p + 20)),
                        chunk_attributes(data@, strings, p as int).len() == count,
                        forall|k: int|
                            0 <= k < count ==> (#[trigger] chunk_attributes(
                                data@,
                                strings,
                                p as int,
                            )[k]) == attribute_at(data@, strings, p as int, k),
                        done == before + chunk_attributes(data@, strings, p as int).take(i as int),
                        text::optional_text(package_name) == last_value(
                            done,
                            "manifest"@,
                            "package"@,
                        ),
                        text::optional_text(application_class) == last_value(
                            done,
                            "application"@,
                            "name"@,
                        ),
                        text::optional_text(main_activity) == first_value(
                            done,
                            "activity"@,
                            "name"@,
                        ),
                    decreases count - i,
                {
                    let a: usize = p + 36 + 20 * i;
                    let name = pool_get(pool, bytes::read_u32(data, a + 4));
                    let value = pool_get(pool, bytes::read_u32(data, a + 8));
                    let ghost found = attribute_at(data@, strings, p as int, i as int);
                    proof {
                        values_of_push(done, found, "manifest"@, "package"@);
                        values_of_push(done, found, "application"@, "name"@);
                        values_of_push(done, found, "activity"@, "name"@);
                        let all = chunk_attributes(data@, strings, p as int);
                        assert(all.take(i + 1) == all.take(i as int).push(all[i as int]));
                        done = done.push(found);
                        reveal_strlit("manifest");
                        reveal_strlit("application");
                        reveal_strlit("activity");
                        assert("manifest"@.len() == 8);
                        assert("application"@.len() == 11);
                        assert("activity"@.len() == 8);
                        assert("manifest"@[0] != "activity"@[0]);
                    }
                    let element_text = element.as_str();
                    let name_text = name.as_str();
                    if text::same_text(element_text, "manifest") && text::same_text(
                        name_text,
                        "package",
                    ) {
                        package_name = Some(value);
                    } else if text::same_text(element_text, "application") && text::same_text(
                        name_text,
                        "name",
                    ) {
                        application_class = Some(normalize_class_name(value.as_str()));
                    } else if text::same_text(element_text, "activity") && text::same_text(
                        name_text,
                        "name",
                    ) && main_activity.is_none() {
                        main_activity = Some(normalize_class_name(value.as_str()));
                    }
                    i = i + 1;
                }
            }
            proof {
                let all = chunk_attributes(data@, strings, p as int);
                assert(all.take(all.len() as int) == all);
                assert(done == before + all);
                assert(attributes(data@, strings) == done + attributes_from(data@, strings, pos + size));
            }
            pos = pos + size as u128;
        }
        assert(attributes(data@, strings) == done);
        ManifestInfo { main_activity, application_class, package_name }
    }
}

/// The bytes of UTF-16 units, the least significant first.
pub open spec fn unit_bytes(units: Seq<u16>) -> Seq<u8> {
    Seq::new(
        2 * units.len(),
        |i: int|
            if i % 2 == 0 {
                (units[i / 2] % 0x100) as u8
            } else {
                (units[i / 2] / 0x100) as u8
            },
    )
}

/// A text as a string of a UTF-16 pool: the number of its units, and the units.
pub open spec fn stored_utf16(t: Seq<char>) -> Seq<u8> {
    let units = text::encode_utf16(t);
    unit_bytes(seq![units.len() as u16] + units)
}

/// A unit is read back from its bytes.
proof fn unit_is_read_back(before: Seq<u8>, units: Seq<u16>, after: Seq<u8>, i: int)
    requires
        0 <= i < units.len(),
    ensures
        bytes::le_u16(before + unit_bytes(units) + after, before.len() + 2 * i) == units[i],
{
    let d = before + unit_bytes(units) + after;
    assert(d[before.len() + 2 * i] == unit_bytes(units)[2 * i]);
    assert(d[before.len() + 2 * i + 1] == unit_bytes(units)[2 * i + 1]);
    assert((2 * i + 1) / 2 == i);
}

/// A text that stands in a file as a UTF-16 string is read back from there, and where the file is
/// cut off before its end nothing is read.
pub proof fn law_utf16_string_is_read_back(
    before: Seq<u8>,
    t: Seq<char>,
    after: Seq<u8>,
    cut: int,
)
    requires
        text::encode_utf16(t).len() <= 0xffff,
    ensures
        utf16_string(before + stored_utf16(t) + after, before.len() as int) == t,
        0 <= cut < before.len() + stored_utf16(t).len() ==> utf16_string(
            (before + stored_utf16(t) + after).take(cut),
            before.len() as int,
        ) == Seq::<char>::empty(),
{
    let units = text::encode_utf16(t);
    let all = seq![units.len() as u16] + units;
    let d = before + stored_utf16(t) + after;
    let p = before.len() as int;
    unit_is_read_back(before, all, after, 0);
    assert(bytes::le_u16(d, p) == units.len());
    assert(utf16_units(d, p) == units) by {
        assert forall|i: int| 0 <= i < units.len() implies #[trigger] utf16_units(d, p)[i]
            == units[i] by {
            unit_is_read_back(before, all, after, i + 1);
        }
    }
    text::law_utf16_is_read_back(t);
    if 0 <= cut < p + stored_utf16(t).len() {
        let short = d.take(cut);
        if p + 2 <= short.len() {
            assert(bytes::le_u16(short, p) == bytes::le_u16(d, p));
        }
    }
}

} // verus!
