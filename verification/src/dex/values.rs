//! The encoded values, arrays and annotations of a DEX file, as a reader goes through them.
use crate::dex::layout;
use crate::dex::layout::{
    check_field_id, check_handle, check_method_id, check_proto_id, check_string, check_type,
    has_bytes, is_in_data, read_u32, read_uleb, room_for, Outcome, Step, Tables, Walk,
};
use vstd::prelude::*;

verus! {

/// How deep arrays and annotations may stand in each other for the stack to hold the reader,
/// which calls itself for each level. A thread has two megabytes of stack where no more is asked
/// for, and a level is given eight kilobytes of them.
pub const NESTING_LIMIT: u32 = 256;

/// The most bytes that a value, or an element of an annotation, takes in memory.
pub const VALUE_SIZE: u32 = 64;

/// The most bytes that an entry of a directory takes in memory.
pub const ENTRY_SIZE: u32 = 32;

/// The kinds of value that there are.
pub open spec fn is_kind(kind: int) -> bool {
    ||| kind == 0
    ||| 2 <= kind <= 4
    ||| kind == 6
    ||| kind == 0x10
    ||| kind == 0x11
    ||| 0x15 <= kind <= 0x1f
}

/// The most bytes that a value of the kind takes behind its header; none for an array, an
/// annotation, null and a truth value.
pub open spec fn width(kind: int) -> int {
    if kind == 0 {
        1
    } else if kind == 2 || kind == 3 {
        2
    } else if kind == 6 || kind == 0x11 {
        8
    } else if kind >= 0x1c {
        0
    } else {
        4
    }
}

/// The number in `n` bytes from `p` on, the least significant first.
pub open spec fn little(d: Seq<u8>, p: int, n: int) -> int
    decreases n,
{
    if n <= 0 {
        0
    } else {
        d[p] + 0x100 * little(d, p + 1, n - 1)
    }
}

/// Looks up what a value of the kind refers to.
pub open spec fn index_outcome(t: Tables, d: Seq<u8>, kind: int, id: int) -> Outcome {
    if kind == 0x15 {
        layout::proto_id_outcome(t, d, id)
    } else if kind == 0x16 {
        layout::handle_outcome(t, d, id)
    } else if kind == 0x17 {
        layout::string_outcome(t, d, id)
    } else if kind == 0x18 {
        layout::type_outcome(t, d, id)
    } else if kind == 0x19 || kind == 0x1b {
        layout::field_id_outcome(t, d, id)
    } else if kind == 0x1a {
        layout::method_id_outcome(t, d, id)
    } else {
        Outcome::Good
    }
}

/// Goes on at `p` if all is well.
pub open spec fn go_on(o: Outcome, p: int) -> Walk {
    match o {
        Outcome::Good => Walk::Past(p),
        Outcome::Fails => Walk::Fails,
        Outcome::Breaks => Walk::Breaks,
    }
}

/// Reads the value at `p`: a header with its kind in the lower five bits, and in the upper three
/// one less than its width, which the reader takes to fit the kind.
pub open spec fn value_walk(t: Tables, d: Seq<u8>, p: int, depth: nat) -> Walk
    decreases depth, 0int, 0int,
{
    let kind = d[p] % 0x20;
    let arg = d[p] / 0x20;
    if p >= d.len() || !is_kind(kind as int) {
        Walk::Fails
    } else if width(kind as int) > 0 {
        if arg >= width(kind as int) {
            Walk::Breaks
        } else if p + 1 + arg >= d.len() {
            Walk::Fails
        } else {
            go_on(index_outcome(t, d, kind as int, little(d, p + 1, arg + 1)), p + 2 + arg)
        }
    } else if arg > 1 || (arg == 1 && kind != 0x1f) {
        Walk::Breaks
    } else if kind >= 0x1e {
        Walk::Past(p + 1)
    } else if depth == 0 {
        Walk::Breaks
    } else if kind == 0x1c {
        array_walk(t, d, p + 1, (depth - 1) as nat)
    } else {
        annotation_walk(t, d, p + 1, (depth - 1) as nat)
    }
}

/// Reads `n` values from `p` on.
pub open spec fn values_walk(t: Tables, d: Seq<u8>, p: int, n: int, depth: nat) -> Walk
    decreases depth, 1int, n,
{
    if n <= 0 {
        Walk::Past(p)
    } else {
        match value_walk(t, d, p, depth) {
            Walk::Past(q) => values_walk(t, d, q, n - 1, depth),
            other => other,
        }
    }
}

/// Reads the array at `p`: the number of its values, for which room is made, and the values.
pub open spec fn array_walk(t: Tables, d: Seq<u8>, p: int, depth: nat) -> Walk
    decreases depth, 2int, 0int,
{
    match layout::uleb(d, p) {
        None => Walk::Fails,
        Some((n, q)) => if !layout::has_room(n, VALUE_SIZE as int) {
            Walk::Breaks
        } else {
            values_walk(t, d, q, n, depth)
        },
    }
}

/// Reads `n` elements of an annotation from `p` on, each a name and a value.
pub open spec fn elements_walk(t: Tables, d: Seq<u8>, p: int, n: int, depth: nat) -> Walk
    decreases depth, 1int, n,
{
    if n <= 0 {
        Walk::Past(p)
    } else {
        match layout::uleb(d, p) {
            None => Walk::Fails,
            Some((name, q)) => if layout::string_outcome(t, d, layout::low32(name)) !is Good {
                Walk::Fails
            } else {
                match value_walk(t, d, q, depth) {
                    Walk::Past(r) => elements_walk(t, d, r, n - 1, depth),
                    other => other,
                }
            },
        }
    }
}

/// Reads the annotation at `p`: its type, the number of its elements, and the elements.
pub open spec fn annotation_walk(t: Tables, d: Seq<u8>, p: int, depth: nat) -> Walk
    decreases depth, 2int, 0int,
{
    match layout::uleb(d, p) {
        None => Walk::Fails,
        Some((id, q)) => match layout::type_outcome(t, d, layout::low32(id)) {
            Outcome::Fails => Walk::Fails,
            Outcome::Breaks => Walk::Breaks,
            Outcome::Good => match layout::uleb(d, q) {
                None => Walk::Fails,
                Some((n, r)) => if !layout::has_room(n, VALUE_SIZE as int) {
                    Walk::Breaks
                } else {
                    elements_walk(t, d, r, n, depth)
                },
            },
        },
    }
}

/// Reads the initial values of a class's fields.
pub open spec fn static_values_outcome(t: Tables, d: Seq<u8>, off: int) -> Outcome {
    if off == 0 {
        Outcome::Good
    } else if !layout::in_data(t, off) || off >= d.len() {
        Outcome::Fails
    } else {
        layout::outcome_of(array_walk(t, d, off, NESTING_LIMIT as nat))
    }
}

/// Reads the annotation at `off`, behind the byte that says who sees it.
pub open spec fn item_outcome(t: Tables, d: Seq<u8>, off: int) -> Outcome {
    if !layout::in_data(t, off) || off >= d.len() || d[off] > 2 {
        Outcome::Fails
    } else {
        layout::outcome_of(annotation_walk(t, d, off + 1, NESTING_LIMIT as nat))
    }
}

/// Reads the annotations whose offsets stand in a list of `n` from `p` on.
pub open spec fn items_outcome(t: Tables, d: Seq<u8>, p: int, n: int) -> Outcome
    decreases n,
{
    if n <= 0 {
        Outcome::Good
    } else {
        layout::both(item_outcome(t, d, layout::u32_at(t, d, p)), items_outcome(t, d, p + 4, n - 1))
    }
}

/// Finds a list of offsets at `off`: their number, for which room is made, and the offsets.
pub open spec fn offsets_outcome(t: Tables, d: Seq<u8>, off: int) -> Outcome {
    let n = layout::u32_at(t, d, off);
    if !layout::in_data(t, off) || off + 4 > d.len() {
        Outcome::Fails
    } else if !layout::has_room(n, 4) {
        Outcome::Breaks
    } else if off + 4 + 4 * n > d.len() {
        Outcome::Fails
    } else {
        Outcome::Good
    }
}

/// Reads the set of annotations at `off`.
pub open spec fn set_outcome(t: Tables, d: Seq<u8>, off: int) -> Outcome {
    if off == 0 {
        Outcome::Good
    } else {
        layout::both(
            offsets_outcome(t, d, off),
            items_outcome(t, d, off + 4, layout::u32_at(t, d, off)),
        )
    }
}

/// Reads the sets of annotations whose offsets stand in a list of `n` from `p` on.
pub open spec fn sets_outcome(t: Tables, d: Seq<u8>, p: int, n: int) -> Outcome
    decreases n,
{
    if n <= 0 {
        Outcome::Good
    } else {
        layout::both(set_outcome(t, d, layout::u32_at(t, d, p)), sets_outcome(t, d, p + 4, n - 1))
    }
}

/// Reads the list of sets of annotations at `off`.
pub open spec fn set_list_outcome(t: Tables, d: Seq<u8>, off: int) -> Outcome {
    layout::both(offsets_outcome(t, d, off), sets_outcome(t, d, off + 4, layout::u32_at(t, d, off)))
}

/// Reads `n` entries of a directory from `p` on, each an index and the offset of a set, or for
/// the parameters of methods of a list of sets.
pub open spec fn entries_outcome(t: Tables, d: Seq<u8>, p: int, n: int, lists: bool) -> Outcome
    decreases n,
{
    if n <= 0 {
        Outcome::Good
    } else if p + 8 > d.len() {
        Outcome::Fails
    } else {
        layout::both(
            if lists {
                set_list_outcome(t, d, layout::u32_at(t, d, p + 4))
            } else {
                set_outcome(t, d, layout::u32_at(t, d, p + 4))
            },
            entries_outcome(t, d, p + 8, n - 1, lists),
        )
    }
}

/// Reads one part of a directory, for which room is made.
pub open spec fn part_outcome(t: Tables, d: Seq<u8>, p: int, n: int, lists: bool) -> Outcome {
    if !layout::has_room(n, ENTRY_SIZE as int) {
        Outcome::Breaks
    } else {
        entries_outcome(t, d, p, n, lists)
    }
}

/// Reads the directory of a class's annotations at `off`: the class's own, those of its fields,
/// of its methods, and of their parameters.
pub open spec fn directory_outcome(t: Tables, d: Seq<u8>, off: int) -> Outcome {
    let fields = layout::u32_at(t, d, off + 4);
    let methods = layout::u32_at(t, d, off + 8);
    let parameters = layout::u32_at(t, d, off + 12);
    if off == 0 {
        Outcome::Good
    } else if !layout::in_data(t, off) || off + 16 > d.len() {
        Outcome::Fails
    } else {
        layout::both(
            set_outcome(t, d, layout::u32_at(t, d, off)),
            layout::both(
                part_outcome(t, d, off + 16, fields, false),
                layout::both(
                    part_outcome(t, d, off + 16 + 8 * fields, methods, false),
                    part_outcome(t, d, off + 16 + 8 * fields + 8 * methods, parameters, true),
                ),
            ),
        )
    }
}

/// Reads a number of at most four bytes.
fn read_little(data: &[u8], p: u128, n: u32) -> (r: u32)
    requires
        n <= 4,
        p + n <= data@.len(),
    ensures
        r == little(data@, p as int, n as int),
{
    let _len: usize = data.len();
    proof {
        reveal_with_fuel(little, 5);
    }
    let a: u32 = if n > 0 {
        data[p as usize] as u32
    } else {
        0
    };
    let b: u32 = if n > 1 {
        data[p as usize + 1] as u32
    } else {
        0
    };
    let c: u32 = if n > 2 {
        data[p as usize + 2] as u32
    } else {
        0
    };
    let e: u32 = if n > 3 {
        data[p as usize + 3] as u32
    } else {
        0
    };
    a + 0x100 * b + 0x1_0000 * c + 0x100_0000 * e
}

/// What comes of looking up what a value of the kind refers to?
fn check_index(t: &Tables, data: &[u8], kind: u8, id: u32) -> (r: Outcome)
    ensures
        r == index_outcome(*t, data@, kind as int, id as int),
{
    if kind == 0x15 {
        check_proto_id(t, data, id as u64)
    } else if kind == 0x16 {
        check_handle(t, data, id)
    } else if kind == 0x17 {
        check_string(t, data, id)
    } else if kind == 0x18 {
        check_type(t, data, id)
    } else if kind == 0x19 || kind == 0x1b {
        check_field_id(t, data, id as u64)
    } else if kind == 0x1a {
        check_method_id(t, data, id as u64)
    } else {
        Outcome::Good
    }
}

/// Goes on at `p` if all is well.
pub fn step_on(o: Outcome, p: u128) -> (r: Step)
    ensures
        r.walk() == go_on(o, p as int),
{
    match o {
        Outcome::Good => Step::Past(p),
        Outcome::Fails => Step::Fails,
        Outcome::Breaks => Step::Breaks,
    }
}

/// What came of a step?
pub fn outcome(s: Step) -> (r: Outcome)
    ensures
        r == layout::outcome_of(s.walk()),
{
    match s {
        Step::Past(_) => Outcome::Good,
        Step::Fails => Outcome::Fails,
        Step::Breaks => Outcome::Breaks,
    }
}

/// The lower 32 bits of a number.
pub fn take_low32(v: u64) -> (r: u32)
    ensures
        r == layout::low32(v as int),
{
    (v % 0x1_0000_0000) as u32
}

/// Reads a value.
fn check_value(t: &Tables, data: &[u8], p: u128, depth: u32) -> (r: Step)
    ensures
        r.walk() == value_walk(*t, data@, p as int, depth as nat),
        r matches Step::Past(q) ==> q <= data@.len(),
    decreases depth, 0int,
{
    let len: usize = data.len();
    if p >= len as u128 {
        return Step::Fails;
    }
    let header: u8 = data[p as usize];
    let kind: u8 = header % 0x20;
    let arg: u8 = header / 0x20;
    let most: u8 = if kind == 0 {
        1
    } else if kind == 2 || kind == 3 {
        2
    } else if kind == 6 || kind == 0x11 {
        8
    } else if kind >= 0x1c {
        0
    } else {
        4
    };
    if kind == 1 || kind == 5 || (7 <= kind && kind <= 0xf) || (0x12 <= kind && kind <= 0x14) {
        Step::Fails
    } else if most > 0 {
        if arg >= most {
            Step::Breaks
        } else if p + 1 + arg as u128 >= len as u128 {
            Step::Fails
        } else if kind < 0x15 {
            Step::Past(p + 2 + arg as u128)
        } else {
            let id: u32 = read_little(data, p + 1, arg as u32 + 1);
            step_on(check_index(t, data, kind, id), p + 2 + arg as u128)
        }
    } else if arg > 1 || (arg == 1 && kind != 0x1f) {
        Step::Breaks
    } else if kind >= 0x1e {
        Step::Past(p + 1)
    } else if depth == 0 {
        Step::Breaks
    } else if kind == 0x1c {
        check_array(t, data, p + 1, depth - 1)
    } else {
        check_annotation(t, data, p + 1, depth - 1)
    }
}

/// Reads values.
fn check_values(t: &Tables, data: &[u8], p: u128, n: u64, depth: u32) -> (r: Step)
    requires
        p <= data@.len(),
    ensures
        r.walk() == values_walk(*t, data@, p as int, n as int, depth as nat),
        r matches Step::Past(q) ==> q <= data@.len(),
    decreases depth, 1int,
{
    let mut at: u128 = p;
    let mut left: u64 = n;
    while left > 0
        invariant
            at <= data@.len(),
            values_walk(*t, data@, p as int, n as int, depth as nat) == values_walk(
                *t,
                data@,
                at as int,
                left as int,
                depth as nat,
            ),
        decreases left,
    {
        match check_value(t, data, at, depth) {
            Step::Past(q) => {
                at = q;
            },
            other => {
                return other;
            },
        }
        left = left - 1;
    }
    Step::Past(at)
}

/// Reads an array.
fn check_array(t: &Tables, data: &[u8], p: u128, depth: u32) -> (r: Step)
    ensures
        r.walk() == array_walk(*t, data@, p as int, depth as nat),
        r matches Step::Past(q) ==> q <= data@.len(),
    decreases depth, 2int,
{
    match read_uleb(data, p) {
        None => Step::Fails,
        Some((n, q)) => if !room_for(n, VALUE_SIZE) {
            Step::Breaks
        } else {
            check_values(t, data, q, n, depth)
        },
    }
}

/// Reads the elements of an annotation.
fn check_elements(t: &Tables, data: &[u8], p: u128, n: u64, depth: u32) -> (r: Step)
    requires
        p <= data@.len(),
    ensures
        r.walk() == elements_walk(*t, data@, p as int, n as int, depth as nat),
        r matches Step::Past(q) ==> q <= data@.len(),
    decreases depth, 1int,
{
    let mut at: u128 = p;
    let mut left: u64 = n;
    while left > 0
        invariant
            at <= data@.len(),
            elements_walk(*t, data@, p as int, n as int, depth as nat) == elements_walk(
                *t,
                data@,
                at as int,
                left as int,
                depth as nat,
            ),
        decreases left,
    {
        match read_uleb(data, at) {
            None => {
                return Step::Fails;
            },
            Some((name, q)) => {
                if check_string(t, data, take_low32(name)) != Outcome::Good {
                    return Step::Fails;
                }
                match check_value(t, data, q, depth) {
                    Step::Past(r) => {
                        at = r;
                    },
                    other => {
                        return other;
                    },
                }
            },
        }
        left = left - 1;
    }
    Step::Past(at)
}

/// Reads an annotation.
fn check_annotation(t: &Tables, data: &[u8], p: u128, depth: u32) -> (r: Step)
    ensures
        r.walk() == annotation_walk(*t, data@, p as int, depth as nat),
        r matches Step::Past(q) ==> q <= data@.len(),
    decreases depth, 2int,
{
    match read_uleb(data, p) {
        None => Step::Fails,
        Some((id, q)) => match check_type(t, data, take_low32(id)) {
            Outcome::Fails => Step::Fails,
            Outcome::Breaks => Step::Breaks,
            Outcome::Good => match read_uleb(data, q) {
                None => Step::Fails,
                Some((n, r)) => if !room_for(n, VALUE_SIZE) {
                    Step::Breaks
                } else {
                    check_elements(t, data, r, n, depth)
                },
            },
        },
    }
}

/// Reads the initial values of a class's fields.
pub fn check_static_values(t: &Tables, data: &[u8], off: u32) -> (r: Outcome)
    ensures
        r == static_values_outcome(*t, data@, off as int),
{
    if off == 0 {
        Outcome::Good
    } else if !is_in_data(t, off) || !has_bytes(data, off as u128, 1) {
        Outcome::Fails
    } else {
        outcome(check_array(t, data, off as u128, NESTING_LIMIT))
    }
}

/// Reads an annotation behind the byte that says who sees it.
fn check_item(t: &Tables, data: &[u8], off: u32) -> (r: Outcome)
    ensures
        r == item_outcome(*t, data@, off as int),
{
    let _len: usize = data.len();
    if !is_in_data(t, off) || !has_bytes(data, off as u128, 1) || data[off as usize] > 2 {
        Outcome::Fails
    } else {
        outcome(check_annotation(t, data, off as u128 + 1, NESTING_LIMIT))
    }
}

/// Finds a list of offsets.
fn check_offsets(t: &Tables, data: &[u8], off: u32) -> (r: Outcome)
    ensures
        r == offsets_outcome(*t, data@, off as int),
{
    if !is_in_data(t, off) || !has_bytes(data, off as u128, 4) {
        return Outcome::Fails;
    }
    let n: u32 = read_u32(t, data, off as u128);
    if !room_for(n as u64, 4) {
        Outcome::Breaks
    } else if !has_bytes(data, off as u128 + 4, 4 * n as u128) {
        Outcome::Fails
    } else {
        Outcome::Good
    }
}

/// Reads the annotations of a list of offsets.
fn check_items(t: &Tables, data: &[u8], p: u128, n: u32) -> (r: Outcome)
    requires
        p + 4 * n <= data@.len(),
    ensures
        r == items_outcome(*t, data@, p as int, n as int),
{
    let len: usize = data.len();
    let mut at: u128 = p;
    let mut left: u32 = n;
    while left > 0
        invariant
            len == data@.len(),
            at + 4 * left <= len,
            items_outcome(*t, data@, p as int, n as int) == items_outcome(
                *t,
                data@,
                at as int,
                left as int,
            ),
        decreases left,
    {
        let seen: Outcome = check_item(t, data, read_u32(t, data, at));
        if seen != Outcome::Good {
            return seen;
        }
        at = at + 4;
        left = left - 1;
    }
    Outcome::Good
}

/// Reads a set of annotations.
fn check_set(t: &Tables, data: &[u8], off: u32) -> (r: Outcome)
    ensures
        r == set_outcome(*t, data@, off as int),
{
    if off == 0 {
        return Outcome::Good;
    }
    let seen: Outcome = check_offsets(t, data, off);
    if seen != Outcome::Good {
        return seen;
    }
    check_items(t, data, off as u128 + 4, read_u32(t, data, off as u128))
}

/// Reads the sets of annotations of a list of offsets.
fn check_sets(t: &Tables, data: &[u8], p: u128, n: u32) -> (r: Outcome)
    requires
        p + 4 * n <= data@.len(),
    ensures
        r == sets_outcome(*t, data@, p as int, n as int),
{
    let len: usize = data.len();
    let mut at: u128 = p;
    let mut left: u32 = n;
    while left > 0
        invariant
            len == data@.len(),
            at + 4 * left <= len,
            sets_outcome(*t, data@, p as int, n as int) == sets_outcome(
                *t,
                data@,
                at as int,
                left as int,
            ),
        decreases left,
    {
        let seen: Outcome = check_set(t, data, read_u32(t, data, at));
        if seen != Outcome::Good {
            return seen;
        }
        at = at + 4;
        left = left - 1;
    }
    Outcome::Good
}

/// Reads a list of sets of annotations.
fn check_set_list(t: &Tables, data: &[u8], off: u32) -> (r: Outcome)
    ensures
        r == set_list_outcome(*t, data@, off as int),
{
    let seen: Outcome = check_offsets(t, data, off);
    if seen != Outcome::Good {
        return seen;
    }
    check_sets(t, data, off as u128 + 4, read_u32(t, data, off as u128))
}

/// Reads one part of a directory.
fn check_part(t: &Tables, data: &[u8], p: u128, n: u32, lists: bool) -> (r: Outcome)
    ensures
        r == part_outcome(*t, data@, p as int, n as int, lists),
{
    let len: usize = data.len();
    if !room_for(n as u64, ENTRY_SIZE) {
        return Outcome::Breaks;
    }
    let mut at: u128 = p;
    let mut left: u32 = n;
    while left > 0
        invariant
            len == data@.len(),
            layout::has_room(n as int, ENTRY_SIZE as int),
            entries_outcome(*t, data@, p as int, n as int, lists) == entries_outcome(
                *t,
                data@,
                at as int,
                left as int,
                lists,
            ),
        decreases left,
    {
        if !has_bytes(data, at, 8) {
            return Outcome::Fails;
        }
        let off: u32 = read_u32(t, data, at + 4);
        let seen: Outcome = if lists {
            check_set_list(t, data, off)
        } else {
            check_set(t, data, off)
        };
        if seen != Outcome::Good {
            return seen;
        }
        at = at + 8;
        left = left - 1;
    }
    Outcome::Good
}

/// Reads the directory of a class's annotations.
pub fn check_directory(t: &Tables, data: &[u8], off: u32) -> (r: Outcome)
    ensures
        r == directory_outcome(*t, data@, off as int),
{
    if off == 0 {
        return Outcome::Good;
    }
    if !is_in_data(t, off) || !has_bytes(data, off as u128, 16) {
        return Outcome::Fails;
    }
    let p: u128 = off as u128;
    let own: Outcome = check_set(t, data, read_u32(t, data, p));
    if own != Outcome::Good {
        return own;
    }
    let fields: u32 = read_u32(t, data, p + 4);
    let methods: u32 = read_u32(t, data, p + 8);
    let parameters: u32 = read_u32(t, data, p + 12);
    let of_fields: Outcome = check_part(t, data, p + 16, fields, false);
    if of_fields != Outcome::Good {
        return of_fields;
    }
    let q: u128 = p + 16 + 8 * fields as u128;
    let of_methods: Outcome = check_part(t, data, q, methods, false);
    if of_methods != Outcome::Good {
        return of_methods;
    }
    check_part(t, data, q + 8 * methods as u128, parameters, true)
}

} // verus!
