//! How a reader goes through the values, members and code of a class.
use crate::dex::layout;
use crate::dex::layout::{Outcome, Tables, Walk};
use crate::dex::members;
use crate::dex::reader_laws;
use crate::dex::values;
use vstd::prelude::*;

verus! {

/// Values are read one after the other: so many and then so many more are read as both together,
/// one is read as a value, and none leaves the reader where it is.
#[verifier::spinoff_prover]
pub proof fn law_values_are_read_in_turn(
    t: Tables,
    d: Seq<u8>,
    p: int,
    m: int,
    n: int,
    depth: nat,
)
    requires
        0 <= m,
        0 <= n,
    ensures
        values::values_walk(t, d, p, 0, depth) == Walk::Past(p),
        values::values_walk(t, d, p, 1, depth) == values::value_walk(t, d, p, depth),
        values::values_walk(t, d, p, m + n, depth) == (match values::values_walk(t, d, p, m, depth) {
            Walk::Past(q) => values::values_walk(t, d, q, n, depth),
            other => other,
        }),
    decreases m,
{
    let w = values::value_walk(t, d, p, depth);
    if let Walk::Past(q) = w {
        assert(values::values_walk(t, d, q, 0, depth) == Walk::Past(q));
        if m > 0 {
            law_values_are_read_in_turn(t, d, q, m - 1, n, depth);
            assert(values::values_walk(t, d, p, m + n, depth) == values::values_walk(
                t,
                d,
                q,
                m - 1 + n,
                depth,
            ));
        }
    }
}

/// An array is its length and then its values. A length that the file cuts off is given up, and one
/// beyond what a list of values of 64 bytes can hold breaks the reader.
#[verifier::spinoff_prover]
pub proof fn law_array_is_a_length_and_values(
    t: Tables,
    d: Seq<u8>,
    p: int,
    n: int,
    q: int,
    depth: nat,
)
    ensures
        layout::uleb(d, p) is None ==> values::array_walk(t, d, p, depth) == Walk::Fails,
        layout::uleb(d, p) == Some((n, q)) && n * 64 > isize::MAX ==> values::array_walk(
            t,
            d,
            p,
            depth,
        ) == Walk::Breaks,
        layout::uleb(d, p) == Some((n, q)) && n * 64 <= isize::MAX ==> values::array_walk(
            t,
            d,
            p,
            depth,
        ) == values::values_walk(t, d, q, n, depth),
{
}

/// A value that refers to something looks that up, by the number in its bytes, and goes on behind
/// them: prototypes, method handles, strings, types, fields, methods and enum constants, in this
/// order from kind 0x15 on.
#[verifier::spinoff_prover]
pub proof fn law_values_refer_by_index(t: Tables, d: Seq<u8>, kind: int, id: int)
    ensures
        values::index_outcome(t, d, 0x15, id) == layout::proto_id_outcome(t, d, id),
        values::index_outcome(t, d, 0x16, id) == layout::handle_outcome(t, d, id),
        values::index_outcome(t, d, 0x17, id) == layout::string_outcome(t, d, id),
        values::index_outcome(t, d, 0x18, id) == layout::type_outcome(t, d, id),
        values::index_outcome(t, d, 0x19, id) == layout::field_id_outcome(t, d, id),
        values::index_outcome(t, d, 0x1a, id) == layout::method_id_outcome(t, d, id),
        values::index_outcome(t, d, 0x1b, id) == layout::field_id_outcome(t, d, id),
        kind < 0x15 || kind > 0x1b ==> values::index_outcome(t, d, kind, id) is Good,
{
}

/// The number in the bytes of a value begins with its lowest byte.
#[verifier::spinoff_prover]
pub proof fn law_value_bytes_count_powers(d: Seq<u8>, p: int)
    ensures
        values::little(d, p, 0) == 0,
        values::little(d, p, 1) == d[p],
        values::little(d, p, 2) == d[p] + 256 * d[p + 1],
        values::little(d, p, 3) == d[p] + 256 * (d[p + 1] + 256 * d[p + 2]),
        values::little(d, p, 4) == d[p] + 256 * (d[p + 1] + 256 * (d[p + 2] + 256 * d[p + 3])),
{
    reveal_with_fuel(values::little, 5);
}

/// A value of up to four bytes that refers to something is good where that is, and then goes on
/// behind its bytes.
#[verifier::spinoff_prover]
pub proof fn law_references_are_followed(
    t: Tables,
    d: Seq<u8>,
    p: int,
    depth: nat,
    kind: int,
    arg: int,
)
    requires
        0 <= p,
        0x15 <= kind <= 0x1b,
        0 <= arg < 4,
        p + 2 + arg <= d.len(),
        d[p] == 0x20 * arg + kind,
    ensures
        ({
            let found = values::index_outcome(t, d, kind, values::little(d, p + 1, arg + 1));
            let w = values::value_walk(t, d, p, depth);
            &&& found is Good ==> w == Walk::Past(p + 2 + arg)
            &&& found is Fails ==> w == Walk::Fails
            &&& found is Breaks ==> w == Walk::Breaks
        }),
{
    assert(d[p] % 0x20 == kind);
    assert(d[p] / 0x20 == arg);
}

/// An annotation is its type, the number of its elements, and the elements.
#[verifier::spinoff_prover]
pub proof fn law_annotation_is_a_type_and_elements(
    t: Tables,
    d: Seq<u8>,
    p: int,
    id: int,
    q: int,
    n: int,
    r: int,
    depth: nat,
)
    ensures
        ({
            let w = values::annotation_walk(t, d, p, depth);
            let kind = layout::type_outcome(t, d, id % 0x1_0000_0000);
            &&& layout::uleb(d, p) is None ==> w == Walk::Fails
            &&& layout::uleb(d, p) == Some((id, q)) && kind is Fails ==> w == Walk::Fails
            &&& layout::uleb(d, p) == Some((id, q)) && kind is Breaks ==> w == Walk::Breaks
            &&& layout::uleb(d, p) == Some((id, q)) && kind is Good && layout::uleb(d, q) is None ==> w
                == Walk::Fails
            &&& layout::uleb(d, p) == Some((id, q)) && kind is Good && layout::uleb(d, q) == Some(
                (n, r),
            ) && n * 64 > isize::MAX ==> w == Walk::Breaks
            &&& layout::uleb(d, p) == Some((id, q)) && kind is Good && layout::uleb(d, q) == Some(
                (n, r),
            ) && n * 64 <= isize::MAX ==> w == values::elements_walk(t, d, r, n, depth)
        }),
{
}

/// The elements of an annotation are read one after the other, each a name that has to be a string
/// and a value.
#[verifier::spinoff_prover]
pub proof fn law_elements_are_read_in_turn(
    t: Tables,
    d: Seq<u8>,
    p: int,
    m: int,
    n: int,
    depth: nat,
    name: int,
    q: int,
)
    requires
        0 <= m,
        0 <= n,
    ensures
        values::elements_walk(t, d, p, 0, depth) == Walk::Past(p),
        layout::uleb(d, p) is None ==> values::elements_walk(t, d, p, 1, depth) == Walk::Fails,
        layout::uleb(d, p) == Some((name, q)) && layout::string_outcome(
            t,
            d,
            name % 0x1_0000_0000,
        ) !is Good ==> values::elements_walk(t, d, p, 1, depth) == Walk::Fails,
        layout::uleb(d, p) == Some((name, q)) && layout::string_outcome(
            t,
            d,
            name % 0x1_0000_0000,
        ) is Good ==> values::elements_walk(t, d, p, 1, depth) == values::value_walk(t, d, q, depth),
        values::elements_walk(t, d, p, m + n, depth) == (match values::elements_walk(
            t,
            d,
            p,
            m,
            depth,
        ) {
            Walk::Past(q) => values::elements_walk(t, d, q, n, depth),
            other => other,
        }),
    decreases m,
{
    if let Some((named, q1)) = layout::uleb(d, p) {
        let w = values::value_walk(t, d, q1, depth);
        if let Walk::Past(r) = w {
            assert(values::elements_walk(t, d, r, 0, depth) == Walk::Past(r));
            if m > 0 && layout::string_outcome(t, d, layout::low32(named)) is Good {
                law_elements_are_read_in_turn(t, d, r, m - 1, n, depth, name, q);
                assert(values::elements_walk(t, d, p, m + n, depth) == values::elements_walk(
                    t,
                    d,
                    r,
                    m - 1 + n,
                    depth,
                ));
            }
        }
    }
}

/// The values of a class and its annotations are read down to 256 levels.
#[verifier::spinoff_prover]
pub proof fn law_class_values_are_read_to_256_levels(t: Tables, d: Seq<u8>, off: int)
    requires
        off > 0,
        t.data_start <= off < t.data_end,
        off < d.len(),
    ensures
        values::static_values_outcome(t, d, off) is Good <==> values::array_walk(t, d, off, 256) is Past,
        values::static_values_outcome(t, d, off) is Breaks <==> values::array_walk(t, d, off, 256)
            is Breaks,
        d[off] <= 2 ==> (values::item_outcome(t, d, off) is Good <==> values::annotation_walk(
            t,
            d,
            off + 1,
            256,
        ) is Past),
        d[off] <= 2 ==> (values::item_outcome(t, d, off) is Breaks <==> values::annotation_walk(
            t,
            d,
            off + 1,
            256,
        ) is Breaks),
{
}

/// Fields and methods are read one after the other, each index counted from the one before, and the
/// sum may not leave 64 bits.
#[verifier::spinoff_prover]
pub proof fn law_members_are_read_in_turn(d: Seq<u8>, p: int, n: int, id: int, method: bool)
    requires
        0 <= n,
    ensures
        members::members_walk(d, p, 0, id, method) == Walk::Past(p),
        members::member(d, p, method) is None ==> members::members_walk(d, p, n + 1, id, method)
            == Walk::Fails,
        (members::member(d, p, method) matches Some(m) && id + m.skip > u64::MAX)
            ==> members::members_walk(d, p, n + 1, id, method) == Walk::Breaks,
        (members::member(d, p, method) matches Some(m) && id + m.skip <= u64::MAX) ==> ({
            let m = members::member(d, p, method)->0;
            members::members_walk(d, p, n + 1, id, method) == members::members_walk(
                d,
                m.next,
                n,
                id + m.skip,
                method,
            )
        }),
{
}

/// A list of fields or methods that is empty takes no bytes; any other one has to begin in the
/// file, may not announce more than a list of 24 bytes each can hold, and begins to count at zero.
#[verifier::spinoff_prover]
pub proof fn law_member_lists_begin_at_zero(d: Seq<u8>, p: int, n: int, method: bool)
    requires
        0 <= n,
    ensures
        members::list_walk(d, p, 0, method) == Walk::Past(p),
        n > 0 && p >= d.len() ==> members::list_walk(d, p, n, method) == Walk::Fails,
        n > 0 && p < d.len() && n * 24 > isize::MAX ==> members::list_walk(d, p, n, method)
            == Walk::Breaks,
        n > 0 && p < d.len() && n * 24 <= isize::MAX ==> members::list_walk(d, p, n, method)
            == members::members_walk(d, p, n, 0, method),
{
}

/// The fields of a class are looked up one after the other under the sums of their distances.
#[verifier::spinoff_prover]
pub proof fn law_fields_are_looked_up_in_turn(t: Tables, d: Seq<u8>, p: int, n: int, id: int)
    requires
        0 <= n,
    ensures
        members::fields_outcome(t, d, p, 0, id) is Good,
        members::member(d, p, false) is None ==> members::fields_outcome(t, d, p, n + 1, id)
            is Fails,
        members::member(d, p, false) matches Some(m) ==> ({
            let m = members::member(d, p, false)->0;
            let first = members::field_outcome(t, d, id + m.skip, m.flags);
            members::fields_outcome(t, d, p, n + 1, id) == (if first is Good {
                members::fields_outcome(t, d, m.next, n, id + m.skip)
            } else {
                first
            })
        }),
{
}

/// The methods of a class are looked up one after the other under the sums of their distances.
#[verifier::spinoff_prover]
pub proof fn law_methods_are_looked_up_in_turn(t: Tables, d: Seq<u8>, p: int, n: int, id: int)
    requires
        0 <= n,
    ensures
        members::methods_outcome(t, d, p, 0, id) is Good,
        members::member(d, p, true) is None ==> members::methods_outcome(t, d, p, n + 1, id)
            is Fails,
        members::member(d, p, true) matches Some(m) ==> ({
            let m = members::member(d, p, true)->0;
            let first = members::method_outcome(t, d, id + m.skip, m.flags, m.code);
            members::methods_outcome(t, d, p, n + 1, id) == (if first is Good {
                members::methods_outcome(t, d, m.next, n, id + m.skip)
            } else {
                first
            })
        }),
{
}

/// The data of a class is four numbers and four lists: static fields, other fields, direct methods
/// and virtual methods. All lists are read before anything in them is looked up, and all of it has
/// to be good.
#[verifier::spinoff_prover]
pub proof fn law_class_data_is_four_lists(
    t: Tables,
    d: Seq<u8>,
    off: int,
    counts: (int, int, int, int),
    places: (int, int, int, int),
    starts: (int, int, int),
)
    requires
        off > 0,
        t.data_start <= off < t.data_end,
        off < d.len(),
        layout::uleb(d, off) == Some((counts.0, places.0)),
        layout::uleb(d, places.0) == Some((counts.1, places.1)),
        layout::uleb(d, places.1) == Some((counts.2, places.2)),
        layout::uleb(d, places.2) == Some((counts.3, places.3)),
    ensures
        ({
            let r = members::class_data_outcome(t, d, off);
            let first = members::list_walk(d, places.3, counts.0, false);
            let second = members::list_walk(d, starts.0, counts.1, false);
            let third = members::list_walk(d, starts.1, counts.2, true);
            let fourth = members::list_walk(d, starts.2, counts.3, true);
            let listed = first == Walk::Past(starts.0) && second == Walk::Past(starts.1) && third
                == Walk::Past(starts.2);
            &&& first is Breaks ==> r is Breaks
            &&& first is Fails ==> r is Fails
            &&& first == Walk::Past(starts.0) && second is Breaks ==> r is Breaks
            &&& first == Walk::Past(starts.0) && second is Fails ==> r is Fails
            &&& first == Walk::Past(starts.0) && second == Walk::Past(starts.1) && third is Breaks ==> r
                is Breaks
            &&& first == Walk::Past(starts.0) && second == Walk::Past(starts.1) && third is Fails ==> r
                is Fails
            &&& listed && fourth is Breaks ==> r is Breaks
            &&& listed && fourth is Fails ==> r is Fails
            &&& listed && fourth is Past ==> (r is Good <==> members::fields_outcome(
                t,
                d,
                places.3,
                counts.0,
                0,
            ) is Good && members::fields_outcome(t, d, starts.0, counts.1, 0) is Good
                && members::methods_outcome(t, d, starts.1, counts.2, 0) is Good
                && members::methods_outcome(t, d, starts.2, counts.3, 0) is Good)
            &&& listed && fourth is Past && members::fields_outcome(t, d, places.3, counts.0, 0)
                is Breaks ==> r is Breaks
        }),
{
}

/// The names of parameters are read one after the other: each number is one less than the index of
/// a string, there is no name for the largest index of 32 bits, and the largest number of 64 bits
/// breaks the reader.
#[verifier::spinoff_prover]
pub proof fn law_parameter_names_are_read_in_turn(
    t: Tables,
    d: Seq<u8>,
    p: int,
    n: int,
    v: int,
    q: int,
)
    requires
        0 <= n,
    ensures
        members::names_outcome(t, d, p, 0) is Good,
        layout::uleb(d, p) is None ==> members::names_outcome(t, d, p, n + 1) is Fails,
        layout::uleb(d, p) == Some((v, q)) && v == 0xffff_ffff_ffff_ffff ==> members::names_outcome(
            t,
            d,
            p,
            n + 1,
        ) is Breaks,
        layout::uleb(d, p) == Some((v, q)) && v == 0xffff_fffe ==> members::names_outcome(t, d, p, n + 1)
            == members::names_outcome(t, d, q, n),
        layout::uleb(d, p) == Some((v, q)) && v != 0xffff_fffe && v != 0xffff_ffff_ffff_ffff ==> (
        if layout::string_outcome(t, d, (v + 1) % 0x1_0000_0000) is Good {
            members::names_outcome(t, d, p, n + 1) == members::names_outcome(t, d, q, n)
        } else {
            members::names_outcome(t, d, p, n + 1) is Fails
        }),
{
}

/// Debug information is a line, the number of the parameters, and their names, which may not be
/// more than a list of 8 bytes each can hold.
#[verifier::spinoff_prover]
pub proof fn law_debug_information_names_the_parameters(
    t: Tables,
    d: Seq<u8>,
    off: int,
    line: int,
    p: int,
    n: int,
    q: int,
)
    requires
        off > 0,
        t.data_start <= off < t.data_end,
        off < d.len(),
    ensures
        ({
            let r = members::debug_outcome(t, d, off);
            let lined = layout::uleb(d, off) == Some((line, p));
            &&& layout::uleb(d, off) is None ==> r is Fails
            &&& lined && layout::uleb(d, p) is None ==> r is Fails
            &&& lined && layout::uleb(d, p) == Some((n, q)) && n * 8 > isize::MAX ==> r is Breaks
            &&& lined && layout::uleb(d, p) == Some((n, q)) && n * 8 <= isize::MAX ==> r
                == members::names_outcome(t, d, q, n)
        }),
{
}

/// Code has the number of its protected ranges at byte 6, the offset of its debug information at
/// byte 8 and its instructions from byte 12 on. The debug information is read first.
#[verifier::spinoff_prover]
pub proof fn law_code_is_debug_information_and_instructions(t: Tables, d: Seq<u8>, off: int)
    requires
        0 < off <= 0xffff_ffff,
        t.data_start <= off < t.data_end,
        off + 12 <= d.len(),
    ensures
        ({
            let big = t.big_endian;
            let debug = members::debug_outcome(t, d, reader_laws::number(big, d, off + 8));
            members::code_outcome(t, d, off) == (if debug is Good {
                members::instructions_outcome(
                    t,
                    d,
                    off + 12,
                    reader_laws::short_number(big, d, off + 6),
                )
            } else {
                debug
            })
        }),
{
}

/// Instructions are their number and then 2 bytes each, and behind an odd number of them 2 bytes
/// more where protected ranges follow.
#[verifier::spinoff_prover]
pub proof fn law_instructions_are_followed_by_protected_ranges(
    t: Tables,
    d: Seq<u8>,
    p: int,
    n: int,
    tries: int,
)
    requires
        0 <= p,
        0 <= tries,
        n == reader_laws::number(t.big_endian, d, p),
    ensures
        ({
            let r = members::instructions_outcome(t, d, p, tries);
            let end = p + 4 + 2 * n;
            let whole = p + 4 <= d.len() && 2 * n <= isize::MAX && end <= d.len();
            &&& p + 4 > d.len() ==> r is Fails
            &&& p + 4 <= d.len() && 2 * n > isize::MAX ==> r is Breaks
            &&& p + 4 <= d.len() && 2 * n <= isize::MAX && end > d.len() ==> r is Fails
            &&& whole && tries == 0 ==> r is Good
            &&& whole && tries > 0 && n % 2 == 0 ==> r == members::tries_outcome(t, d, end, tries)
            &&& whole && tries > 0 && n % 2 == 1 && end + 2 > d.len() ==> r is Fails
            &&& whole && tries > 0 && n % 2 == 1 && end + 2 <= d.len() ==> r
                == members::tries_outcome(t, d, end + 2, tries)
        }),
{
}

/// Range `i` of the protected ranges at `p`, 8 bytes each, has one of the handlers: the one that
/// begins as far behind the ranges as the range says in its last two bytes.
pub open spec fn is_handled(
    t: Tables,
    d: Seq<u8>,
    p: int,
    i: int,
    base: int,
    first: int,
    n: int,
) -> bool {
    members::has_handler(
        t,
        d,
        first,
        n,
        base + reader_laws::short_number(t.big_endian, d, p + 8 * i + 6),
    )
}

proof fn ranges_are_handled(
    t: Tables,
    d: Seq<u8>,
    p: int,
    k: int,
    base: int,
    first: int,
    n: int,
)
    ensures
        members::all_handled(t, d, p, k, base, first, n) <==> forall|i: int|
            0 <= i < k ==> #[trigger] is_handled(t, d, p, i, base, first, n),
    decreases k,
{
    if k > 0 {
        ranges_are_handled(t, d, p + 8, k - 1, base, first, n);
        assert forall|i: int| #[trigger] is_handled(t, d, p + 8, i, base, first, n) == is_handled(
            t,
            d,
            p,
            i + 1,
            base,
            first,
            n,
        ) by {
            assert(p + 8 + 8 * i + 6 == p + 8 * (i + 1) + 6);
        }
        if members::all_handled(t, d, p, k, base, first, n) {
            assert forall|i: int| 0 <= i < k implies #[trigger] is_handled(
                t,
                d,
                p,
                i,
                base,
                first,
                n,
            ) by {
                if i > 0 {
                    assert(is_handled(t, d, p + 8, i - 1, base, first, n));
                }
            }
        }
        if forall|i: int| 0 <= i < k ==> #[trigger] is_handled(t, d, p, i, base, first, n) {
            assert(is_handled(t, d, p, 0, base, first, n));
            assert forall|i: int| 0 <= i < k - 1 implies #[trigger] is_handled(
                t,
                d,
                p + 8,
                i,
                base,
                first,
                n,
            ) by {
                assert(is_handled(t, d, p, i + 1, base, first, n));
            }
        }
    }
}

/// Behind the protected ranges stand the number of the catch handlers and the handlers; the reader
/// does not come back from more than a list of 32 bytes each can hold. The code is given up where a
/// range has no handler.
#[verifier::spinoff_prover]
pub proof fn law_protected_ranges_have_handlers(
    t: Tables,
    d: Seq<u8>,
    p: int,
    k: int,
    n: int,
    first: int,
)
    requires
        0 <= k,
    ensures
        ({
            let r = members::tries_outcome(t, d, p, k);
            let base = p + 8 * k;
            let counted = base <= d.len() && layout::uleb(d, base) == Some((n, first));
            let handlers = members::handlers_walk(t, d, first, n);
            &&& base > d.len() || layout::uleb(d, base) is None ==> r is Fails
            &&& counted && n * 32 > isize::MAX ==> r is Breaks
            &&& counted && n * 32 <= isize::MAX && handlers is Breaks ==> r is Breaks
            &&& counted && n * 32 <= isize::MAX && handlers is Fails ==> r is Fails
            &&& counted && n * 32 <= isize::MAX && handlers is Past ==> (r is Good <==> forall|i: int|
                0 <= i < k ==> #[trigger] is_handled(t, d, p, i, base, first, n)) && r !is Breaks
        }),
{
    ranges_are_handled(t, d, p, k, p + 8 * k, first, n);
}

/// Catch handlers are read one after the other, and a handler is known by where it begins.
#[verifier::spinoff_prover]
pub proof fn law_handlers_are_read_in_turn(t: Tables, d: Seq<u8>, p: int, n: int, q: int, want: int)
    requires
        0 <= n,
    ensures
        members::handlers_walk(t, d, p, 0) == Walk::Past(p),
        members::handler_walk(t, d, p) == Walk::Past(q) ==> members::handlers_walk(t, d, p, n + 1)
            == members::handlers_walk(t, d, q, n),
        members::handler_walk(t, d, p) !is Past ==> members::handlers_walk(t, d, p, n + 1)
            == members::handler_walk(t, d, p),
        !members::has_handler(t, d, p, 0, want),
        members::has_handler(t, d, p, n + 1, p),
        members::handler_walk(t, d, p) == Walk::Past(q) && want != p ==> members::has_handler(
            t,
            d,
            p,
            n + 1,
            want,
        ) == members::has_handler(t, d, q, n, want),
        members::handler_walk(t, d, p) !is Past && want != p ==> !members::has_handler(
            t,
            d,
            p,
            n + 1,
            want,
        ),
{
}

/// A catch handler is a signed number, as many pairs of a type and an address as its magnitude, and
/// one address more where it is not positive. It breaks the reader where a list of 16 bytes for
/// each pair could not be held, and the types have to be there.
#[verifier::spinoff_prover]
pub proof fn law_handler_is_a_list_of_types(
    t: Tables,
    d: Seq<u8>,
    p: int,
    v: int,
    q: int,
    n: int,
    r: int,
    last: int,
    s: int,
)
    requires
        n == (if v < 0 {
            -v
        } else {
            v
        }),
    ensures
        ({
            let w = members::handler_walk(t, d, p);
            let counted = layout::sleb(d, p) == Some((v, q));
            let room = n * 16 <= isize::MAX && v != i64::MIN;
            let pairs = members::pairs_walk(d, q, n);
            let types = members::pair_types_outcome(t, d, q, n);
            &&& layout::sleb(d, p) is None ==> w == Walk::Fails
            &&& counted && !room ==> w == Walk::Breaks
            &&& counted && room && pairs !is Past ==> w == pairs
            &&& counted && room && pairs == Walk::Past(r) && types is Fails ==> w == Walk::Fails
            &&& counted && room && pairs == Walk::Past(r) && types is Breaks ==> w == Walk::Breaks
            &&& counted && room && pairs == Walk::Past(r) && types is Good && v > 0 ==> w == Walk::Past(
                r,
            )
            &&& counted && room && pairs == Walk::Past(r) && types is Good && v <= 0 && layout::uleb(
                d,
                r,
            ) is None ==> w == Walk::Fails
            &&& counted && room && pairs == Walk::Past(r) && types is Good && v <= 0 && layout::uleb(
                d,
                r,
            ) == Some((last, s)) ==> w == Walk::Past(s)
        }),
{
}

/// Pairs are read one after the other, two numbers each, and the first number of each is the index
/// of a type.
#[verifier::spinoff_prover]
pub proof fn law_pairs_are_read_in_turn(
    t: Tables,
    d: Seq<u8>,
    p: int,
    n: int,
    id: int,
    q: int,
    address: int,
    r: int,
)
    requires
        0 <= n,
    ensures
        members::pairs_walk(d, p, 0) == Walk::Past(p),
        members::pair_types_outcome(t, d, p, 0) is Good,
        layout::uleb(d, p) is None ==> members::pairs_walk(d, p, n + 1) == Walk::Fails,
        layout::uleb(d, p) == Some((id, q)) && layout::uleb(d, q) is None ==> members::pairs_walk(
            d,
            p,
            n + 1,
        ) == Walk::Fails,
        layout::uleb(d, p) == Some((id, q)) && layout::uleb(d, q) == Some((address, r))
            ==> members::pairs_walk(d, p, n + 1) == members::pairs_walk(d, r, n),
        layout::uleb(d, p) == Some((id, q)) && layout::uleb(d, q) == Some((address, r)) ==> ({
            let first = layout::type_outcome(t, d, id % 0x1_0000_0000);
            members::pair_types_outcome(t, d, p, n + 1) == (if first is Good {
                members::pair_types_outcome(t, d, r, n)
            } else {
                first
            })
        }),
{
}

/// A directory of annotations has the offset of the class's own set first, then the numbers of
/// those of its fields, its methods and their parameters, and from byte 16 on their entries of 8
/// bytes. The reader does not come back from more than a list of 32 bytes each can hold.
#[verifier::spinoff_prover]
pub proof fn law_directory_is_read_part_by_part(t: Tables, d: Seq<u8>, off: int)
    requires
        off > 0,
        t.data_start <= off < t.data_end,
        off + 16 <= d.len(),
    ensures
        ({
            let big = t.big_endian;
            let fields = reader_laws::number(big, d, off + 4);
            let methods = reader_laws::number(big, d, off + 8);
            let parameters = reader_laws::number(big, d, off + 12);
            let own = values::set_outcome(t, d, reader_laws::number(big, d, off));
            let a = values::part_outcome(t, d, off + 16, fields, false);
            let b = values::part_outcome(t, d, off + 16 + 8 * fields, methods, false);
            let c = values::part_outcome(
                t,
                d,
                off + 16 + 8 * fields + 8 * methods,
                parameters,
                true,
            );
            let r = values::directory_outcome(t, d, off);
            &&& own !is Good ==> r == own
            &&& own is Good && a !is Good ==> r == a
            &&& own is Good && a is Good && b !is Good ==> r == b
            &&& own is Good && a is Good && b is Good ==> r == c
        }),
{
}

/// The entries of a part of a directory are read one after the other, each with the offset of its
/// set in its last four bytes, or of a list of sets for the parameters of a method.
#[verifier::spinoff_prover]
pub proof fn law_directory_entries_are_read_in_turn(
    t: Tables,
    d: Seq<u8>,
    p: int,
    n: int,
    lists: bool,
)
    requires
        0 <= n,
    ensures
        n * 32 > isize::MAX ==> values::part_outcome(t, d, p, n, lists) is Breaks,
        n * 32 <= isize::MAX ==> values::part_outcome(t, d, p, n, lists) == values::entries_outcome(
            t,
            d,
            p,
            n,
            lists,
        ),
        values::entries_outcome(t, d, p, 0, lists) is Good,
        p + 8 > d.len() ==> values::entries_outcome(t, d, p, n + 1, lists) is Fails,
        p + 8 <= d.len() ==> ({
            let at = reader_laws::number(t.big_endian, d, p + 4);
            let first = if lists {
                values::set_list_outcome(t, d, at)
            } else {
                values::set_outcome(t, d, at)
            };
            values::entries_outcome(t, d, p, n + 1, lists) == (if first is Good {
                values::entries_outcome(t, d, p + 8, n, lists)
            } else {
                first
            })
        }),
{
}

/// The outcome of reading the set whose offset is entry `i` of the list at `p`.
pub open spec fn listed_set(t: Tables, d: Seq<u8>, p: int, i: int) -> Outcome {
    values::set_outcome(t, d, reader_laws::number(t.big_endian, d, p + 4 * i))
}

proof fn sets_go_on(t: Tables, d: Seq<u8>, p: int, n: int, i: int)
    requires
        0 <= i <= n,
        forall|j: int| 0 <= j < i ==> #[trigger] listed_set(t, d, p, j) is Good,
    ensures
        values::sets_outcome(t, d, p, n) == values::sets_outcome(t, d, p + 4 * i, n - i),
    decreases i,
{
    if i > 0 {
        sets_go_on(t, d, p, n, i - 1);
        assert(listed_set(t, d, p, i - 1) is Good);
    }
}

/// A list of sets of annotations is read in turn up to the first that is not good, each offset of 4
/// bytes, behind their number.
#[verifier::spinoff_prover]
pub proof fn law_set_lists_are_read_in_turn(t: Tables, d: Seq<u8>, off: int, n: int, i: int)
    requires
        0 <= off,
        n == reader_laws::number(t.big_endian, d, off),
        0 <= n,
    ensures
        ({
            let r = values::set_list_outcome(t, d, off);
            let starts = t.data_start <= off < t.data_end && off + 4 <= d.len();
            let whole = starts && 4 * n <= isize::MAX && off + 4 + 4 * n <= d.len();
            &&& !starts ==> r is Fails
            &&& starts && 4 * n > isize::MAX ==> r is Breaks
            &&& starts && 4 * n <= isize::MAX && off + 4 + 4 * n > d.len() ==> r is Fails
            &&& whole && (forall|j: int|
                0 <= j < n ==> #[trigger] listed_set(t, d, off + 4, j) is Good) ==> r is Good
            &&& whole && 0 <= i < n && listed_set(t, d, off + 4, i) !is Good && (forall|j: int|
                0 <= j < i ==> #[trigger] listed_set(t, d, off + 4, j) is Good) ==> r == listed_set(
                t,
                d,
                off + 4,
                i,
            )
        }),
{
    if forall|j: int| 0 <= j < n ==> #[trigger] listed_set(t, d, off + 4, j) is Good {
        sets_go_on(t, d, off + 4, n, n);
    }
    if 0 <= i < n && forall|j: int| 0 <= j < i ==> #[trigger] listed_set(t, d, off + 4, j) is Good {
        sets_go_on(t, d, off + 4, n, i);
    }
}

} // verus!
