//! The numbers, texts and values of a DEX file: what is written is read back.
use crate::dex::layout;
use crate::dex::layout::{Outcome, Tables, Walk};
use crate::dex::members;
use crate::dex::values;
use vstd::prelude::*;

verus! {

/// A number in unsigned LEB128: seven bits in each byte, the lowest first, and the top bit set in
/// all bytes but the last.
pub open spec fn uleb_bytes(v: nat) -> Seq<u8>
    decreases v,
{
    if v < 128 {
        seq![v as u8]
    } else {
        seq![(v % 128 + 128) as u8] + uleb_bytes(v / 128)
    }
}

/// A number in signed LEB128: as in unsigned LEB128, where the second bit of the last byte is the
/// sign.
pub open spec fn sleb_bytes(v: int) -> Seq<u8>
    decreases (if v < 0 { -v } else { v }),
{
    if 0 <= v < 64 {
        seq![v as u8]
    } else if -64 <= v < 0 {
        seq![(v + 128) as u8]
    } else {
        seq![(v % 128 + 128) as u8] + sleb_bytes(v / 128)
    }
}

/// What the bits of a byte of a LEB128 number count.
spec fn is_unit(u: int) -> bool {
    ||| u == 1
    ||| u == 0x80
    ||| u == 0x4000
    ||| u == 0x20_0000
    ||| u == 0x1000_0000
    ||| u == 0x8_0000_0000
    ||| u == 0x400_0000_0000
    ||| u == 0x2_0000_0000_0000
    ||| u == 0x100_0000_0000_0000
    ||| u == 0x8000_0000_0000_0000
}

proof fn uleb_is_read_back(before: Seq<u8>, v: nat, after: Seq<u8>, unit: int)
    requires
        is_unit(unit),
        v * unit <= u64::MAX,
    ensures
        layout::uleb_from(before + uleb_bytes(v) + after, before.len() as int, unit) == Some(
            (v * unit, (before.len() + uleb_bytes(v).len()) as int),
        ),
    decreases v,
{
    let b = uleb_bytes(v);
    let d = before + b + after;
    let p = before.len() as int;
    assert(d[p] == b[0]);
    if v >= 128 {
        let first = seq![(v % 128 + 128) as u8];
        let rest = uleb_bytes(v / 128);
        assert(d == (before + first) + rest + after);
        assert(unit < 0x8000_0000_0000_0000) by (nonlinear_arith)
            requires
                v >= 128,
                v * unit <= u64::MAX,
        ;
        let high = (v / 128) as int;
        assert(high * (0x80 * unit) + (v % 128) * unit == v * unit) by (nonlinear_arith)
            requires
                high == v / 128,
        ;
        assert((v % 128) * unit >= 0) by (nonlinear_arith)
            requires
                unit >= 0,
        ;
        uleb_is_read_back(before + first, v / 128, after, 0x80 * unit);
    }
}

/// An unsigned number is read back from its LEB128 bytes, wherever they stand, and reading goes on
/// behind them.
pub proof fn law_unsigned_number_is_read_back(before: Seq<u8>, v: u64, after: Seq<u8>)
    ensures
        layout::uleb(before + uleb_bytes(v as nat) + after, before.len() as int) == Some(
            (v as int, (before.len() + uleb_bytes(v as nat).len()) as int),
        ),
{
    uleb_is_read_back(before, v as nat, after, 1);
}

proof fn uleb_is_bounded(d: Seq<u8>, p: int, unit: int)
    requires
        is_unit(unit),
        0 <= p,
    ensures
        layout::uleb_from(d, p, unit) matches Some((v, q)) ==> 0 <= v && v + unit
            <= 0x1_0000_0000_0000_0000 && p < q <= d.len(),
    decreases d.len() - p,
{
    if p < d.len() && !(unit >= 0x8000_0000_0000_0000 && d[p] > 1) {
        if d[p] >= 0x80 {
            uleb_is_bounded(d, p + 1, 0x80 * unit);
            let low = d[p] - 0x80;
            assert(0 <= low * unit <= 127 * unit) by (nonlinear_arith)
                requires
                    0 <= low <= 127,
                    unit > 0,
            ;
        } else {
            let digit = d[p] as int;
            if unit < 0x8000_0000_0000_0000 {
                assert(0 <= digit * unit <= 127 * unit) by (nonlinear_arith)
                    requires
                        0 <= digit <= 127,
                        unit > 0,
                ;
            }
        }
    }
}

/// A number never has more than 64 bits, and reading it goes on within the file. Where the file
/// ends before the number does, there is none.
pub proof fn law_unsigned_numbers_have_64_bits(d: Seq<u8>, p: int)
    requires
        0 <= p,
    ensures
        layout::uleb(d, p) matches Some((v, q)) ==> 0 <= v <= u64::MAX && p < q <= d.len(),
        (forall|i: int| p <= i < d.len() ==> d[i] >= 0x80) ==> layout::uleb(d, p) is None,
{
    uleb_is_bounded(d, p, 1);
    if forall|i: int| p <= i < d.len() ==> d[i] >= 0x80 {
        unended_is_none(d, p, 1);
    }
}

proof fn unended_is_none(d: Seq<u8>, p: int, unit: int)
    requires
        0 <= p,
        forall|i: int| p <= i < d.len() ==> d[i] >= 0x80,
    ensures
        layout::uleb_from(d, p, unit) is None,
    decreases d.len() - p,
{
    if p < d.len() {
        unended_is_none(d, p + 1, 0x80 * unit);
    }
}

proof fn high_part_fits(v: int, unit: int)
    requires
        is_unit(unit),
        unit < 0x8000_0000_0000_0000,
        -0x8000_0000_0000_0000 <= v * unit < 0x8000_0000_0000_0000,
    ensures
        -0x8000_0000_0000_0000 <= (v / 128) * (0x80 * unit) < 0x8000_0000_0000_0000,
{
    let m: int = if unit == 1 {
        0x8000_0000_0000_0000
    } else if unit == 0x80 {
        0x100_0000_0000_0000
    } else if unit == 0x4000 {
        0x2_0000_0000_0000
    } else if unit == 0x20_0000 {
        0x400_0000_0000
    } else if unit == 0x1000_0000 {
        0x8_0000_0000
    } else if unit == 0x8_0000_0000 {
        0x1000_0000
    } else if unit == 0x400_0000_0000 {
        0x20_0000
    } else if unit == 0x2_0000_0000_0000 {
        0x4000
    } else {
        0x80
    };
    assert(m * unit == 0x8000_0000_0000_0000 && m % 128 == 0);
    assert(-m <= v) by (nonlinear_arith)
        requires
            -(m * unit) <= v * unit,
            unit > 0,
    ;
    let high = 128 * (v / 128);
    assert(-m <= high <= v);
    assert(-(m * unit) <= high * unit <= v * unit) by (nonlinear_arith)
        requires
            -m <= high <= v,
            unit > 0,
    ;
    assert((v / 128) * (0x80 * unit) == high * unit) by (nonlinear_arith)
        requires
            high == 128 * (v / 128),
    ;
}

proof fn sleb_is_read_back(before: Seq<u8>, v: int, after: Seq<u8>, unit: int)
    requires
        is_unit(unit),
        -0x8000_0000_0000_0000 <= v * unit < 0x8000_0000_0000_0000,
    ensures
        layout::sleb_from(before + sleb_bytes(v) + after, before.len() as int, unit) == Some(
            (v * unit, (before.len() + sleb_bytes(v).len()) as int),
        ),
    decreases (if v < 0 { -v } else { v }),
{
    let b = sleb_bytes(v);
    let d = before + b + after;
    let p = before.len() as int;
    assert(d[p] == b[0]);
    if -64 <= v < 64 {
        if unit >= 0x8000_0000_0000_0000 {
            assert(v == 0 || v == -1);
        } else if v < 0 {
            assert((d[p] - 0x80) * unit == v * unit);
        }
    } else {
        let first = seq![(v % 128 + 128) as u8];
        let high = v / 128;
        let rest = sleb_bytes(high);
        assert(d == (before + first) + rest + after);
        assert(unit < 0x8000_0000_0000_0000) by (nonlinear_arith)
            requires
                v >= 64 || v < -64,
                -0x8000_0000_0000_0000 <= v * unit < 0x8000_0000_0000_0000,
        ;
        assert(high * (0x80 * unit) + (v % 128) * unit == v * unit) by (nonlinear_arith)
            requires
                high == v / 128,
        ;
        high_part_fits(v, unit);
        sleb_is_read_back(before + first, high, after, 0x80 * unit);
        assert((d[p] - 0x80) * unit == (v % 128) * unit);
    }
}

/// A signed number is read back from its LEB128 bytes, wherever they stand, and reading goes on
/// behind them.
pub proof fn law_signed_number_is_read_back(before: Seq<u8>, v: i64, after: Seq<u8>)
    ensures
        layout::sleb(before + sleb_bytes(v as int) + after, before.len() as int) == Some(
            (v as int, (before.len() + sleb_bytes(v as int).len()) as int),
        ),
{
    sleb_is_read_back(before, v as int, after, 1);
}

/// A text ends before the first zero byte, or else at the end of the file.
pub proof fn law_text_ends_before_a_zero(before: Seq<u8>, b: Seq<u8>, after: Seq<u8>)
    requires
        !b.contains(0u8),
    ensures
        layout::text_end(before + b + seq![0u8] + after, before.len() as int) == before.len()
            + b.len(),
        layout::text_end(before + b, before.len() as int) == before.len() + b.len(),
    decreases b.len(),
{
    let d = before + b + seq![0u8] + after;
    let e = before + b;
    let p = before.len() as int;
    if b.len() == 0 {
        assert(d[p] == 0);
    } else {
        let rest = b.skip(1);
        assert(b.contains(b[0]));
        assert(d[p] == b[0] && e[p] == b[0]);
        assert(!rest.contains(0u8)) by {
            if rest.contains(0u8) {
                let i = choose|i: int| 0 <= i < rest.len() && rest[i] == 0u8;
                assert(b[i + 1] == 0u8);
            }
        }
        law_text_ends_before_a_zero(before.push(b[0]), rest, after);
        assert(before.push(b[0]) + rest + seq![0u8] + after == d);
        assert(before.push(b[0]) + rest == e);
    }
}

/// The bytes of one character in Java's modified UTF-8: one byte that is not zero, two for a zero,
/// two or three for other characters of the basic plane, and two surrogates of three bytes each
/// for a character beyond it.
pub open spec fn is_java_character(c: Seq<u8>) -> bool {
    let next = |i: int| 0x80 <= c[i] <= 0xbf;
    ||| c.len() == 1 && 0 < c[0] < 0x80
    ||| c.len() == 2 && c[0] == 0xc0 && c[1] == 0x80
    ||| c.len() == 2 && 0xc2 <= c[0] <= 0xdf && next(1)
    ||| c.len() == 3 && c[0] == 0xe0 && 0xa0 <= c[1] <= 0xbf && next(2)
    ||| c.len() == 3 && 0xe1 <= c[0] <= 0xef && c[0] != 0xed && next(1) && next(2)
    ||| c.len() == 3 && c[0] == 0xed && 0x80 <= c[1] <= 0x9f && next(2)
    ||| c.len() == 6 && c[0] == 0xed && 0xa0 <= c[1] <= 0xaf && next(2) && c[3] == 0xed && 0xb0
        <= c[4] <= 0xbf && next(5)
}

/// Characters, one behind the other.
pub open spec fn java_text(chars: Seq<Seq<u8>>) -> Seq<u8>
    decreases chars.len(),
{
    if chars.len() == 0 {
        Seq::empty()
    } else {
        chars[0] + java_text(chars.skip(1))
    }
}

proof fn characters_are_text(before: Seq<u8>, chars: Seq<Seq<u8>>)
    requires
        forall|i: int| 0 <= i < chars.len() ==> is_java_character(#[trigger] chars[i]),
    ensures
        layout::is_java_text(before + java_text(chars), before.len() as int),
    decreases chars.len(),
{
    if chars.len() > 0 {
        let c = chars[0];
        let rest = chars.skip(1);
        let d = before + java_text(chars);
        let p = before.len() as int;
        assert(is_java_character(c));
        assert forall|i: int| 0 <= i < rest.len() implies is_java_character(#[trigger] rest[i]) by {
            assert(rest[i] == chars[i + 1]);
        }
        characters_are_text(before + c, rest);
        assert((before + c) + java_text(rest) == d);
        assert forall|i: int| 0 <= i < c.len() implies d[p + i] == #[trigger] c[i] by {}
        assert(d[p] == c[0]);
    }
}

/// Any list of characters in Java's modified UTF-8 is text.
pub proof fn law_java_characters_are_text(chars: Seq<Seq<u8>>)
    requires
        forall|i: int| 0 <= i < chars.len() ==> is_java_character(#[trigger] chars[i]),
    ensures
        layout::is_text(java_text(chars)),
{
    characters_are_text(Seq::empty(), chars);
    assert(Seq::<u8>::empty() + java_text(chars) == java_text(chars));
}

proof fn text_is_made_of_characters(b: Seq<u8>, p: int)
    requires
        0 <= p <= b.len(),
        layout::is_java_text(b, p),
    ensures
        exists|chars: Seq<Seq<u8>>|
            (forall|i: int| 0 <= i < chars.len() ==> is_java_character(#[trigger] chars[i]))
                && b.skip(p) == #[trigger] java_text(chars),
    decreases b.len() - p,
{
    if p == b.len() {
        assert(b.skip(p) == java_text(Seq::<Seq<u8>>::empty()));
    } else {
        let n: int = if b[p] < 0x80 {
            1
        } else if b[p] < 0xe0 {
            2
        } else if b[p] == 0xed && b[p + 1] >= 0xa0 {
            6
        } else {
            3
        };
        text_is_made_of_characters(b, p + n);
        let more = choose|chars: Seq<Seq<u8>>|
            (forall|i: int| 0 <= i < chars.len() ==> is_java_character(#[trigger] chars[i]))
                && b.skip(p + n) == #[trigger] java_text(chars);
        let c = b.subrange(p, p + n);
        let chars = seq![c] + more;
        assert(is_java_character(c));
        assert(chars.skip(1) == more);
        assert(b.skip(p) == c + b.skip(p + n));
        assert forall|i: int| 0 <= i < chars.len() implies is_java_character(#[trigger] chars[i]) by {
            if i > 0 {
                assert(chars[i] == more[i - 1]);
            }
        }
        assert(chars[0] == c);
        assert(b.skip(p) == java_text(chars));
    }
}

/// Text that is not UTF-8 is a list of characters in Java's modified UTF-8.
pub proof fn law_other_text_is_made_of_java_characters(b: Seq<u8>)
    requires
        layout::is_text(b),
        !vstd::utf8::valid_utf8(b),
    ensures
        exists|chars: Seq<Seq<u8>>|
            (forall|i: int| 0 <= i < chars.len() ==> is_java_character(#[trigger] chars[i])) && b
                == #[trigger] java_text(chars),
{
    text_is_made_of_characters(b, 0);
    assert(b.skip(0) == b);
}

/// Of the fields' access flags only `public`, `private`, `protected`, `static`, `final`,
/// `volatile`, `transient`, `synthetic` and `enum` may be set, and of the methods' only those that
/// methods have.
pub proof fn law_known_flags_are_good(flags: u64)
    ensures
        members::field_flags(flags) <==> flags & 0x50df == flags,
        members::method_flags(flags) <==> flags & 0x3_1dff == flags,
{
    assert((flags & 0xffff_ffff_ffff_af20u64 == 0) == (flags & 0x50df == flags)) by (bit_vector);
    assert((flags & 0xffff_ffff_fffc_e200u64 == 0) == (flags & 0x3_1dff == flags)) by (bit_vector);
}

/// A field or method is read back from the distance of its index, its flags and, for a method, the
/// offset of its code.
pub proof fn law_member_is_read_back(
    before: Seq<u8>,
    skip: u64,
    flags: u64,
    code: u64,
    after: Seq<u8>,
)
    ensures
        ({
            let field = uleb_bytes(skip as nat) + uleb_bytes(flags as nat);
            let method = field + uleb_bytes(code as nat);
            let p = before.len() as int;
            &&& members::member(before + field + after, p, false) matches Some(m) && m.skip == skip
                && m.flags == flags && m.next == p + field.len()
            &&& members::member(before + method + after, p, true) matches Some(m) && m.skip == skip
                && m.flags == flags && m.code == code && m.next == p + method.len()
        }),
{
    let a = uleb_bytes(skip as nat);
    let b = uleb_bytes(flags as nat);
    let c = uleb_bytes(code as nat);
    let d = before + (a + b) + after;
    assert(d == before + a + (b + after));
    assert(d == (before + a) + b + after);
    law_unsigned_number_is_read_back(before, skip, b + after);
    law_unsigned_number_is_read_back(before + a, flags, after);
    let e = before + (a + b + c) + after;
    assert(e == before + a + (b + c + after));
    assert(e == (before + a) + b + (c + after));
    assert(e == (before + a + b) + c + after);
    law_unsigned_number_is_read_back(before, skip, b + c + after);
    law_unsigned_number_is_read_back(before + a, flags, c + after);
    law_unsigned_number_is_read_back(before + a + b, code, after);
}

/// The most bytes that a number, a character or an index of this kind takes behind its header.
pub open spec fn widest(kind: int) -> int {
    if kind == 0x00 {
        1
    } else if kind == 0x02 || kind == 0x03 {
        2
    } else if kind == 0x06 || kind == 0x11 {
        8
    } else {
        4
    }
}

/// An encoded value breaks the reader where it is wider than its kind; a number, a character or a
/// float of at most its width is read, where it lies in the file; a kind that there is not is
/// given up.
#[verifier::spinoff_prover]
pub proof fn law_values_are_read_by_their_kind(
    t: Tables,
    d: Seq<u8>,
    p: int,
    depth: nat,
    kind: int,
    arg: int,
)
    requires
        0 <= p < d.len(),
        0 <= kind < 0x20,
        0 <= arg < 8,
        d[p] == 0x20 * arg + kind,
    ensures
        ({
            let w = values::value_walk(t, d, p, depth);
            let number = kind == 0x00 || kind == 0x02 || kind == 0x03 || kind == 0x04 || kind == 0x06
                || kind == 0x10 || kind == 0x11;
            let index = 0x15 <= kind <= 0x1b;
            &&& (number || index) && arg >= widest(kind) ==> w == Walk::Breaks
            &&& (number || index) && arg < widest(kind) && p + 2 + arg > d.len() ==> w
                == Walk::Fails
            &&& number && arg < widest(kind) && p + 2 + arg <= d.len() ==> w == Walk::Past(
                p + 2 + arg,
            )
            &&& kind == 0x1e ==> w == (if arg == 0 {
                Walk::Past(p + 1)
            } else {
                Walk::Breaks
            })
            &&& kind == 0x1f ==> w == (if arg <= 1 {
                Walk::Past(p + 1)
            } else {
                Walk::Breaks
            })
            &&& (kind == 0x1c || kind == 0x1d) && arg > 0 ==> w == Walk::Breaks
            &&& !number && !index && kind < 0x1c ==> w == Walk::Fails
        }),
{
    assert(d[p] % 0x20 == kind);
    assert(d[p] / 0x20 == arg);
}

/// Arrays of one value each, `n` of them in each other, with a null inside.
pub open spec fn nested_arrays(n: nat) -> Seq<u8>
    decreases n,
{
    if n == 0 {
        seq![0x1eu8]
    } else {
        seq![0x1cu8, 1] + nested_arrays((n - 1) as nat)
    }
}

#[verifier::spinoff_prover]
proof fn array_of_one(t: Tables, d: Seq<u8>, p: int, depth: nat)
    requires
        0 <= p < d.len(),
        d[p] == 0x1c,
        layout::uleb(d, p + 1) == Some((1int, p + 2)),
    ensures
        depth == 0 ==> values::value_walk(t, d, p, depth) == Walk::Breaks,
        depth > 0 ==> values::value_walk(t, d, p, depth) == values::value_walk(
            t,
            d,
            p + 2,
            (depth - 1) as nat,
        ),
{
    if depth > 0 {
        let less = (depth - 1) as nat;
        let w = values::value_walk(t, d, p + 2, less);
        assert(values::value_walk(t, d, p, depth) == values::array_walk(t, d, p + 1, less));
        assert(values::array_walk(t, d, p + 1, less) == values::values_walk(t, d, p + 2, 1, less));
        match w {
            Walk::Past(q) => {
                assert(values::values_walk(t, d, q, 0, less) == Walk::Past(q));
            },
            _ => {},
        }
        assert(values::values_walk(t, d, p + 2, 1, less) == w);
    }
}

proof fn array_begins(before: Seq<u8>, n: nat, after: Seq<u8>)
    requires
        n > 0,
    ensures
        ({
            let d = before + nested_arrays(n) + after;
            let p = before.len() as int;
            let inner = nested_arrays((n - 1) as nat);
            &&& p < d.len() && d[p] == 0x1c
            &&& layout::uleb(d, p + 1) == Some((1int, p + 2))
            &&& d == (before + seq![0x1cu8, 1]) + inner + after
            &&& nested_arrays(n).len() == 2 + inner.len()
        }),
{
    let inner = nested_arrays((n - 1) as nat);
    let d = before + nested_arrays(n) + after;
    let head = seq![0x1cu8];
    let count = seq![1u8];
    assert(d == (before + head) + count + (inner + after));
    assert(uleb_bytes(1) == count);
    law_unsigned_number_is_read_back(before + head, 1, inner + after);
    assert(d == (before + seq![0x1cu8, 1]) + inner + after);
}

/// Arrays that stand in each other are read down to the depth for which there is stack, and break
/// the reader below it.
#[verifier::spinoff_prover]
#[verifier::rlimit(40)]
pub proof fn law_nested_arrays_are_read_to_a_depth(
    t: Tables,
    before: Seq<u8>,
    n: nat,
    after: Seq<u8>,
    depth: nat,
)
    ensures
        values::value_walk(t, before + nested_arrays(n) + after, before.len() as int, depth) == (
        if n <= depth {
            Walk::Past((before.len() + nested_arrays(n).len()) as int)
        } else {
            Walk::Breaks
        }),
    decreases n,
{
    let d = before + nested_arrays(n) + after;
    let p = before.len() as int;
    if n == 0 {
        assert(d[p] == 0x1e);
        law_values_are_read_by_their_kind(t, d, p, depth, 0x1e, 0);
    } else {
        let less = (n - 1) as nat;
        let opened = before + seq![0x1cu8, 1];
        array_begins(before, n, after);
        array_of_one(t, d, p, depth);
        if depth > 0 {
            law_nested_arrays_are_read_to_a_depth(t, opened, less, after, (depth - 1) as nat);
        }
    }
}

} // verus!
