//! Text: searching, taking apart and building strings.
use vstd::prelude::*;
use vstd::utf8::*;

verus! {

/// `pat` stands in `s` from position `i` on.
pub open spec fn occurs_at(s: Seq<char>, pat: Seq<char>, i: int) -> bool {
    0 <= i && i + pat.len() <= s.len() && s.subrange(i, i + pat.len()) == pat
}

/// `pat` stands somewhere in `s`.
pub open spec fn has_substring(s: Seq<char>, pat: Seq<char>) -> bool {
    exists|i: int| #[trigger] occurs_at(s, pat, i)
}

/// `s` begins with `pat`.
pub open spec fn has_prefix(s: Seq<char>, pat: Seq<char>) -> bool {
    occurs_at(s, pat, 0)
}

/// `s` ends with `pat`.
pub open spec fn has_suffix(s: Seq<char>, pat: Seq<char>) -> bool {
    occurs_at(s, pat, s.len() - pat.len())
}

/// What stands behind the last `/` of `s`; all of `s` where there is none.
pub open spec fn after_last_slash(s: Seq<char>) -> Seq<char>
    decreases s.len(),
{
    if s.len() == 0 || s.last() == '/' {
        Seq::empty()
    } else {
        after_last_slash(s.drop_last()).push(s.last())
    }
}

/// `s` with a `/` in the place of each `.`.
pub open spec fn dots_to_slashes(s: Seq<char>) -> Seq<char> {
    s.map_values(
        |c: char|
            if c == '.' {
                '/'
            } else {
                c
            },
    )
}

/// The hexadecimal digit of a number below sixteen, in lower case.
pub open spec fn hex_digit(d: nat) -> char {
    if d < 10 {
        (48 + d) as char
    } else {
        (87 + d) as char
    }
}

/// The hexadecimal digits of `v`, in lower case, without leading zeros.
pub open spec fn hex_digits(v: nat) -> Seq<char>
    decreases v,
{
    if v < 16 {
        seq![hex_digit(v)]
    } else {
        hex_digits(v / 16).push(hex_digit(v % 16))
    }
}

/// `v` as it is written in messages: its hexadecimal digits behind `0x`.
pub open spec fn hex_text(v: u64) -> Seq<char> {
    seq!['0', 'x'] + hex_digits(v as nat)
}

/// The lower-case form of an ASCII character.
pub open spec fn ascii_lower(c: char) -> char {
    if 'A' <= c <= 'Z' {
        ((c as u32) + 32) as char
    } else {
        c
    }
}

/// The text that an absent string stands for.
pub open spec fn text_or_empty(s: Option<Seq<char>>) -> Seq<char> {
    match s {
        Some(t) => t,
        None => Seq::empty(),
    }
}

/// The text of an optional string.
pub open spec fn optional_text(s: Option<String>) -> Option<Seq<char>> {
    match s {
        Some(t) => Some(t@),
        None => None,
    }
}

/// The texts of a list of strings.
pub open spec fn texts(list: Seq<String>) -> Seq<Seq<char>> {
    list.map_values(|s: String| s@)
}

/// The texts of a list of optional strings.
pub open spec fn optional_texts(list: Seq<Option<String>>) -> Seq<Option<Seq<char>>> {
    list.map_values(|s: Option<String>| optional_text(s))
}

/// What `str::to_lowercase` makes of a text.
pub uninterp spec fn lowercase(s: Seq<char>) -> Seq<char>;

/// What `String::from_utf8_lossy` makes of bytes.
pub uninterp spec fn utf8_lossy(bytes: Seq<u8>) -> Seq<char>;

/// The unit is the first half of a surrogate pair.
pub open spec fn is_high_surrogate(u: u16) -> bool {
    0xd800 <= u < 0xdc00
}

/// The unit is the second half of a surrogate pair.
pub open spec fn is_low_surrogate(u: u16) -> bool {
    0xdc00 <= u < 0xe000
}

/// The text of UTF-16 units: a pair of surrogates is one character beyond the basic plane, a
/// surrogate without its other half is replaced, and any other unit is a character.
pub open spec fn utf16_lossy(units: Seq<u16>) -> Seq<char>
    decreases units.len(),
{
    if units.len() == 0 {
        Seq::empty()
    } else if units.len() >= 2 && is_high_surrogate(units[0]) && is_low_surrogate(units[1]) {
        seq![(0x1_0000 + 0x400 * (units[0] - 0xd800) + (units[1] - 0xdc00)) as char] + utf16_lossy(
            units.skip(2),
        )
    } else if is_high_surrogate(units[0]) || is_low_surrogate(units[0]) {
        seq!['\u{fffd}'] + utf16_lossy(units.skip(1))
    } else {
        seq![units[0] as char] + utf16_lossy(units.skip(1))
    }
}

/// The UTF-16 units of a character.
pub open spec fn utf16_of(c: char) -> Seq<u16> {
    let v = c as int;
    if v < 0x1_0000 {
        seq![v as u16]
    } else {
        seq![
            (0xd800 + (v - 0x1_0000) / 0x400) as u16,
            (0xdc00 + (v - 0x1_0000) % 0x400) as u16,
        ]
    }
}

/// The UTF-16 units of a text.
pub open spec fn encode_utf16(t: Seq<char>) -> Seq<u16>
    decreases t.len(),
{
    if t.len() == 0 {
        Seq::empty()
    } else {
        utf16_of(t[0]) + encode_utf16(t.skip(1))
    }
}

/// No character is a surrogate.
proof fn char_range(c: char)
    ensures
        0 <= c as int <= 0xd7ff || 0xe000 <= c as int <= 0x10_ffff,
{
}

/// Text that is written as UTF-16 units is read back from them.
pub proof fn law_utf16_is_read_back(t: Seq<char>)
    ensures
        utf16_lossy(encode_utf16(t)) == t,
    decreases t.len(),
{
    if t.len() > 0 {
        let units = encode_utf16(t);
        let rest = encode_utf16(t.skip(1));
        let c = t[0] as int;
        law_utf16_is_read_back(t.skip(1));
        char_range(t[0]);
        if c < 0x1_0000 {
            assert(units[0] == c);
            assert(units.skip(1) == rest);
            assert(units[0] as char == t[0]);
        } else {
            let v = c - 0x1_0000;
            assert(units[0] == 0xd800 + v / 0x400);
            assert(units[1] == 0xdc00 + v % 0x400);
            assert(units.skip(2) == rest);
            assert(0x1_0000 + 0x400 * (units[0] - 0xd800) + (units[1] - 0xdc00) == c);
        }
        assert(seq![t[0]] + t.skip(1) == t);
    }
}

/// `std::string::String::push` puts one character at the end of the string.
pub assume_specification[ std::string::String::push ](s: &mut String, c: char)
    ensures
        final(s)@ == old(s)@.push(c),
;

/// Calls `str::to_lowercase`. The result depends on the text alone; on ASCII text
/// each letter from `A` to `Z` is replaced by its lower-case form and nothing else
/// changes.
#[verifier::external_body]
pub(crate) fn to_lowercase(s: &str) -> (r: String)
    ensures
        r@ == lowercase(s@),
        is_ascii_chars(s@) ==> r@ == s@.map_values(|c: char| ascii_lower(c)),
{
    s.to_lowercase()
}

/// Calls `String::from_utf8`, which gives the decoded text of valid UTF-8 and an
/// error for anything else.
#[verifier::external_body]
pub(crate) fn decode_utf8_strict(bytes: Vec<u8>) -> (r: Option<String>)
    ensures
        r is Some <==> valid_utf8(bytes@),
        r matches Some(s) ==> s@ == decode_utf8(bytes@),
{
    String::from_utf8(bytes).ok()
}

/// Calls `String::from_utf8_lossy`. The result depends on the bytes alone, and on
/// valid UTF-8 it is the decoded text.
#[verifier::external_body]
pub(crate) fn decode_utf8_lossy(bytes: &[u8]) -> (r: String)
    ensures
        r@ == utf8_lossy(bytes@),
        valid_utf8(bytes@) ==> r@ == decode_utf8(bytes@),
{
    String::from_utf8_lossy(bytes).into_owned()
}

/// Calls `String::from_utf16_lossy`, which decodes UTF-16 units and puts U+FFFD in the place of
/// each surrogate that has no other half.
#[verifier::external_body]
pub(crate) fn decode_utf16_lossy(units: &[u16]) -> (r: String)
    ensures
        r@ == utf16_lossy(units@),
{
    String::from_utf16_lossy(units)
}

/// The characters of a string, in order.
pub fn chars_of(s: &str) -> (r: Vec<char>)
    ensures
        r@ == s@,
{
    let mut r: Vec<char> = Vec::new();
    for c in it: s.chars()
        invariant
            it.seq() == s@,
            r@ == s@.take(it.index() as int),
    {
        r.push(c);
    }
    r
}

/// Puts `tail` at the end of `out`.
pub fn append(out: &mut String, tail: &str)
    ensures
        final(out)@ == old(out)@ + tail@,
{
    let chars = chars_of(tail);
    let mut i: usize = 0;
    assert(tail@.take(0) == Seq::<char>::empty());
    while i < chars.len()
        invariant
            i <= chars.len(),
            chars@ == tail@,
            out@ == old(out)@ + tail@.take(i as int),
        decreases chars.len() - i,
    {
        out.push(chars[i]);
        assert(tail@.take(i + 1) == tail@.take(i as int).push(tail@[i as int]));
        i = i + 1;
    }
    assert(tail@.take(i as int) == tail@);
}

/// Do two strings hold the same text?
pub fn same_text(a: &str, b: &str) -> (r: bool)
    ensures
        r == (a@ == b@),
{
    let x = a.as_bytes();
    let y = b.as_bytes();
    proof {
        encode_utf8_decode_utf8(a@);
        encode_utf8_decode_utf8(b@);
    }
    if x.len() != y.len() {
        return false;
    }
    let mut i: usize = 0;
    while i < x.len()
        invariant
            i <= x.len(),
            x.len() == y.len(),
            x@ == encode_utf8(a@),
            y@ == encode_utf8(b@),
            forall|k: int| 0 <= k < i ==> x@[k] == y@[k],
        decreases x.len() - i,
    {
        if x[i] != y[i] {
            return false;
        }
        i = i + 1;
    }
    assert(x@ == y@);
    true
}

/// Does `pat` stand in `s` from position `i` on?
fn matches_at(s: &Vec<char>, pat: &Vec<char>, i: usize) -> (r: bool)
    requires
        i + pat@.len() <= s@.len(),
    ensures
        r == occurs_at(s@, pat@, i as int),
{
    let total: usize = s.len();
    let mut k: usize = 0;
    while k < pat.len()
        invariant
            k <= pat.len(),
            i + pat@.len() <= s@.len(),
            s@.len() == total,
            forall|j: int| 0 <= j < k ==> s@[i + j] == pat@[j],
        decreases pat.len() - k,
    {
        if s[i + k] != pat[k] {
            assert(s@.subrange(i as int, i + pat@.len())[k as int] != pat@[k as int]);
            return false;
        }
        k = k + 1;
    }
    assert(s@.subrange(i as int, i + pat@.len()) == pat@);
    true
}

/// Does `pat` stand somewhere in `s`?
pub fn contains(s: &str, pat: &str) -> (r: bool)
    ensures
        r == has_substring(s@, pat@),
{
    let cs = chars_of(s);
    let ps = chars_of(pat);
    if ps.len() > cs.len() {
        assert(forall|i: int| !#[trigger] occurs_at(s@, pat@, i));
        return false;
    }
    let last: usize = cs.len() - ps.len();
    let mut i: usize = 0;
    loop
        invariant
            i <= last,
            last == cs@.len() - ps@.len(),
            cs@ == s@,
            ps@ == pat@,
            forall|k: int| 0 <= k < i ==> !#[trigger] occurs_at(s@, pat@, k),
        decreases last - i,
    {
        if matches_at(&cs, &ps, i) {
            return true;
        }
        if i == last {
            assert(forall|k: int| !#[trigger] occurs_at(s@, pat@, k));
            return false;
        }
        i = i + 1;
    }
}

/// Does `s` begin with `pat`?
pub fn starts_with(s: &str, pat: &str) -> (r: bool)
    ensures
        r == has_prefix(s@, pat@),
{
    let cs = chars_of(s);
    let ps = chars_of(pat);
    ps.len() <= cs.len() && matches_at(&cs, &ps, 0)
}

/// Does `s` end with `pat`?
pub fn ends_with(s: &str, pat: &str) -> (r: bool)
    ensures
        r == has_suffix(s@, pat@),
{
    let cs = chars_of(s);
    let ps = chars_of(pat);
    ps.len() <= cs.len() && matches_at(&cs, &ps, cs.len() - ps.len())
}

/// What stands behind the last `/`: the file name in the path of a file.
pub fn file_name_of(path: &str) -> (r: String)
    ensures
        r@ == after_last_slash(path@),
{
    let cs = chars_of(path);
    let mut r = String::new();
    let mut i: usize = 0;
    assert(path@.take(0) == Seq::<char>::empty());
    while i < cs.len()
        invariant
            i <= cs.len(),
            cs@ == path@,
            r@ == after_last_slash(path@.take(i as int)),
        decreases cs.len() - i,
    {
        let c = cs[i];
        assert(path@.take(i + 1).drop_last() == path@.take(i as int));
        if c == '/' {
            r = String::new();
        } else {
            r.push(c);
        }
        i = i + 1;
    }
    assert(path@.take(i as int) == path@);
    r
}

/// Puts a `/` in the place of each `.`.
pub fn replace_dots(s: &str) -> (r: String)
    ensures
        r@ == dots_to_slashes(s@),
{
    let cs = chars_of(s);
    let mut r = String::new();
    let mut i: usize = 0;
    while i < cs.len()
        invariant
            i <= cs.len(),
            cs@ == s@,
            r@ == dots_to_slashes(s@).take(i as int),
        decreases cs.len() - i,
    {
        let c = cs[i];
        if c == '.' {
            r.push('/');
        } else {
            r.push(c);
        }
        assert(dots_to_slashes(s@).take(i + 1) == dots_to_slashes(s@).take(i as int).push(
            dots_to_slashes(s@)[i as int],
        ));
        i = i + 1;
    }
    assert(dots_to_slashes(s@).take(i as int) == dots_to_slashes(s@));
    r
}

/// Puts the hexadecimal digits of `v` at the end of `out`.
fn append_hex_digits(out: &mut String, v: u64)
    ensures
        final(out)@ == old(out)@ + hex_digits(v as nat),
    decreases v,
{
    if v >= 16 {
        append_hex_digits(out, v / 16);
    }
    let d: u8 = (v % 16) as u8;
    let c: char = if d < 10 {
        (48 + d) as char
    } else {
        (87 + d) as char
    };
    out.push(c);
}

/// `v` in hexadecimal behind `0x`.
pub fn hex(v: u64) -> (r: String)
    ensures
        r@ == hex_text(v),
{
    let mut r = String::new();
    r.push('0');
    r.push('x');
    append_hex_digits(&mut r, v);
    r
}

/// The text of an optional string, empty where it is absent.
pub fn or_empty(s: &Option<String>) -> (r: String)
    ensures
        r@ == text_or_empty(optional_text(*s)),
{
    match s {
        Some(t) => t.clone(),
        None => String::new(),
    }
}

/// A text begins with exactly those texts to which something can be added to give it.
pub proof fn law_prefix(s: Seq<char>, pat: Seq<char>, rest: Seq<char>)
    ensures
        s == pat + rest ==> has_prefix(s, pat),
        has_prefix(s, pat) ==> pat.len() <= s.len() && s == pat + s.skip(pat.len() as int),
{
    if s == pat + rest {
        assert(s.subrange(0, pat.len() as int) == pat);
    }
    if has_prefix(s, pat) {
        assert(s == s.subrange(0, pat.len() as int) + s.skip(pat.len() as int));
    }
}

/// A text ends with exactly those texts that something can be put before to give it.
pub proof fn law_suffix(s: Seq<char>, pat: Seq<char>, start: Seq<char>)
    ensures
        s == start + pat ==> has_suffix(s, pat),
        has_suffix(s, pat) ==> pat.len() <= s.len() && s == s.take(s.len() - pat.len()) + pat,
{
    if s == start + pat {
        assert(s.subrange(s.len() - pat.len(), s.len() as int) == pat);
    }
    if has_suffix(s, pat) {
        let n = s.len() - pat.len();
        assert(s == s.take(n) + s.subrange(n, s.len() as int));
    }
}

/// A text has exactly those texts in it that can be added to at both ends to give it.
pub proof fn law_substring(s: Seq<char>, pat: Seq<char>, start: Seq<char>, rest: Seq<char>)
    ensures
        s == start + pat + rest ==> has_substring(s, pat),
        has_substring(s, pat) ==> exists|i: int|
            0 <= i <= s.len() - pat.len() && s == #[trigger] s.take(i) + pat + s.skip(
                i + pat.len(),
            ),
{
    if s == start + pat + rest {
        assert(s.subrange(start.len() as int, (start.len() + pat.len()) as int) == pat);
        assert(occurs_at(s, pat, start.len() as int));
    }
    if has_substring(s, pat) {
        let i = choose|i: int| #[trigger] occurs_at(s, pat, i);
        assert(s == s.take(i) + s.subrange(i, i + pat.len()) + s.skip(i + pat.len()));
    }
}

proof fn last_part_of(dir: Seq<char>, file: Seq<char>)
    requires
        forall|i: int| 0 <= i < file.len() ==> file[i] != '/',
        dir.len() == 0 || dir.last() == '/',
    ensures
        after_last_slash(dir + file) == file,
    decreases file.len(),
{
    if file.len() == 0 {
        assert(dir + file == dir);
    } else {
        last_part_of(dir, file.drop_last());
        assert((dir + file).drop_last() == dir + file.drop_last());
        assert(file.drop_last().push(file.last()) == file);
    }
}

/// The file name of a path is what stands behind its last `/`: it has no `/` in it, and a
/// directory before it changes nothing.
pub proof fn law_file_name_stands_behind_the_last_slash(path: Seq<char>, dir: Seq<char>, file: Seq<char>)
    ensures
        (forall|i: int| 0 <= i < file.len() ==> file[i] != '/') ==> after_last_slash(file) == file
            && after_last_slash(dir.push('/') + file) == file,
        !after_last_slash(path).contains('/'),
        exists|d: Seq<char>|
            (d.len() == 0 || d.last() == '/') && path == #[trigger] (d + after_last_slash(path)),
    decreases path.len(),
{
    if forall|i: int| 0 <= i < file.len() ==> file[i] != '/' {
        last_part_of(Seq::empty(), file);
        assert(Seq::<char>::empty() + file == file);
        last_part_of(dir.push('/'), file);
    }
    if path.len() == 0 || path.last() == '/' {
        assert(path == path + after_last_slash(path));
    } else {
        law_file_name_stands_behind_the_last_slash(path.drop_last(), dir, file);
        let short = after_last_slash(path.drop_last());
        let d = choose|d: Seq<char>|
            (d.len() == 0 || d.last() == '/') && path.drop_last() == #[trigger] (d + short);
        assert(path == path.drop_last().push(path.last()));
        assert((d + short).push(path.last()) == d + short.push(path.last()));
        let whole = after_last_slash(path);
        if whole.contains('/') {
            let i = choose|i: int| 0 <= i < whole.len() && whole[i] == '/';
            assert(short[i] == '/');
        }
    }
}

/// Each `.` becomes a `/`, and every other character stays as and where it is.
pub proof fn law_only_dots_become_slashes(s: Seq<char>, i: int)
    ensures
        dots_to_slashes(s).len() == s.len(),
        0 <= i < s.len() && s[i] == '.' ==> dots_to_slashes(s)[i] == '/',
        0 <= i < s.len() && s[i] != '.' ==> dots_to_slashes(s)[i] == s[i],
{
}

/// The number that a lower-case hexadecimal digit stands for.
pub open spec fn digit_value(c: char) -> int {
    if '0' <= c <= '9' {
        c as int - '0' as int
    } else if 'a' <= c <= 'f' {
        10 + (c as int - 'a' as int)
    } else {
        -1
    }
}

/// The number that lower-case hexadecimal digits stand for.
pub open spec fn digits_value(s: Seq<char>) -> int
    decreases s.len(),
{
    if s.len() == 0 {
        0
    } else {
        16 * digits_value(s.drop_last()) + digit_value(s.last())
    }
}

proof fn digits_are_read_back(v: nat)
    ensures
        hex_digits(v).len() >= 1,
        digits_value(hex_digits(v)) == v,
        forall|i: int| 0 <= i < hex_digits(v).len() ==> digit_value(#[trigger] hex_digits(v)[i]) >= 0,
        v > 0 ==> hex_digits(v)[0] != '0',
    decreases v,
{
    let s = hex_digits(v);
    if v < 16 {
        assert(s.drop_last() == Seq::<char>::empty());
        assert(digits_value(s.drop_last()) == 0);
        assert(digit_value(s.last()) == v);
    } else {
        digits_are_read_back(v / 16);
        assert(s.drop_last() == hex_digits(v / 16));
        assert(digit_value(s.last()) == v % 16);
        assert(s[0] == hex_digits(v / 16)[0]);
    }
}

/// A number is written as `0x` and lower-case hexadecimal digits that stand for it, the first of
/// which is a zero only where the number is zero.
pub proof fn law_hex_stands_for_the_number(v: u64)
    ensures
        ({
            let s = hex_text(v);
            &&& s.len() >= 3 && s[0] == '0' && s[1] == 'x'
            &&& digits_value(s.skip(2)) == v
            &&& forall|i: int| 2 <= i < s.len() ==> digit_value(#[trigger] s[i]) >= 0
            &&& v > 0 ==> s[2] != '0'
            &&& v == 0 ==> s.len() == 3
        }),
{
    digits_are_read_back(v as nat);
    assert(hex_text(v).skip(2) == hex_digits(v as nat));
    assert forall|i: int| 2 <= i < hex_text(v).len() implies digit_value(
        #[trigger] hex_text(v)[i],
    ) >= 0 by {
        assert(hex_text(v)[i] == hex_digits(v as nat)[i - 2]);
    }
}

/// Only the letters from `A` to `Z` have another lower-case form, 32 characters further on.
pub proof fn law_capitals_become_small(c: char)
    ensures
        65 <= c as int <= 90 ==> ascii_lower(c) as int == c as int + 32,
        !(65 <= c as int <= 90) ==> ascii_lower(c) == c,
{
}

/// Lists of strings are taken for the lists of their texts, place by place.
pub proof fn law_lists_show_their_texts(list: Seq<String>, options: Seq<Option<String>>, i: int)
    ensures
        texts(list).len() == list.len(),
        0 <= i < list.len() ==> texts(list)[i] == list[i]@,
        optional_texts(options).len() == options.len(),
        0 <= i < options.len() && options[i] is None ==> optional_texts(options)[i] is None,
        0 <= i < options.len() ==> (options[i] matches Some(s) ==> optional_texts(options)[i] == Some(
            s@,
        )),
{
}

/// An absent string stands for empty text.
pub proof fn law_absent_text_is_empty(s: Option<Seq<char>>)
    ensures
        s is None ==> text_or_empty(s).len() == 0,
        s matches Some(t) ==> text_or_empty(s) == t,
{
}

/// What is asked of a text is answered by its characters: whether it begins with, ends with or is
/// the same as another, its file name, its form with slashes, and the digits of a number.
pub proof fn law_texts_are_searched_and_built(
    s: &str,
    pat: &str,
    v: u64,
    starts: bool,
    ends: bool,
    has: bool,
    same: bool,
    name: String,
    path: String,
    digits: String,
)
    requires
        call_ensures(starts_with, (s, pat), starts),
        call_ensures(ends_with, (s, pat), ends),
        call_ensures(contains, (s, pat), has),
        call_ensures(same_text, (s, pat), same),
        call_ensures(file_name_of, (s,), name),
        call_ensures(replace_dots, (s,), path),
        call_ensures(hex, (v,), digits),
    ensures
        starts == pat@.is_prefix_of(s@),
        ends == pat@.is_suffix_of(s@),
        starts || ends ==> has,
        same ==> starts && ends,
        same == (s@ == pat@),
        has == has_substring(s@, pat@),
        name@ == after_last_slash(s@),
        !name@.contains('/') && name@.is_suffix_of(s@),
        path@ == dots_to_slashes(s@),
        digits@ == hex_text(v),
        digits_value(digits@.skip(2)) == v,
{
    law_file_name_stands_behind_the_last_slash(s@, Seq::empty(), Seq::empty());
    law_hex_stands_for_the_number(v);
    law_prefix(s@, pat@, Seq::empty());
    law_suffix(s@, pat@, Seq::empty());
    let d = choose|d: Seq<char>|
        (d.len() == 0 || d.last() == '/') && s@ == #[trigger] (d + after_last_slash(s@));
    assert(s@.subrange(d.len() as int, s@.len() as int) == name@);
    if starts {
        assert(occurs_at(s@, pat@, 0));
    }
    if ends {
        assert(occurs_at(s@, pat@, s@.len() - pat@.len()));
    }
    if same {
        assert(s@ == s@ + Seq::<char>::empty());
        assert(s@ == Seq::<char>::empty() + s@);
        law_prefix(s@, pat@, Seq::empty());
        law_suffix(s@, pat@, Seq::empty());
    }
}

} // verus!
