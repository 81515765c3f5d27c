//! The fields, methods and code of the classes of a DEX file, as a reader goes through them.
use crate::dex::layout;
use crate::dex::layout::{
    check_field_id, check_method_id, check_proto_id, check_string, check_type, check_type_list,
    has_bytes, is_in_data, read_sleb, read_u16, read_u32, read_uleb, room_for,
    Outcome, Step, Tables, Walk,
};
use crate::dex::values::{check_directory, check_static_values, outcome, take_low32};
use crate::dex::values;
use vstd::prelude::*;

verus! {

/// The most bytes that a field or method of a class's data takes in memory.
pub const MEMBER_SIZE: u32 = 24;

/// The most bytes that the name of a parameter takes in memory.
pub const NAME_SIZE: u32 = 8;

/// The most bytes that a pair of a type and an address takes in memory.
pub const PAIR_SIZE: u32 = 16;

/// The most bytes that a catch handler takes in memory, besides the pairs that it refers to.
pub const HANDLER_SIZE: u32 = 32;

/// A field or method in a class's data: how far its index lies from the one before, its access
/// flags, for a method the offset of its code, and the position behind it.
pub struct Member {
    pub skip: int,
    pub flags: int,
    pub code: int,
    pub next: int,
}

/// The field, or method, at `p`.
pub open spec fn member(d: Seq<u8>, p: int, method: bool) -> Option<Member> {
    match layout::uleb(d, p) {
        None => None,
        Some((skip, q)) => match layout::uleb(d, q) {
            None => None,
            Some((flags, r)) => if !method {
                Some(Member { skip, flags, code: 0, next: r })
            } else {
                match layout::uleb(d, r) {
                    None => None,
                    Some((code, s)) => Some(Member { skip, flags, code, next: s }),
                }
            },
        },
    }
}

/// Reads `n` fields, or methods, from `p` on. Their indices add up, in 64 bits.
pub open spec fn members_walk(d: Seq<u8>, p: int, n: int, id: int, method: bool) -> Walk
    decreases n,
{
    if n <= 0 {
        Walk::Past(p)
    } else {
        match member(d, p, method) {
            None => Walk::Fails,
            Some(m) => if id + m.skip > u64::MAX {
                Walk::Breaks
            } else {
                members_walk(d, m.next, n - 1, id + m.skip, method)
            },
        }
    }
}

/// Reads a list of fields, or methods, for which room is made.
pub open spec fn list_walk(d: Seq<u8>, p: int, n: int, method: bool) -> Walk {
    if n == 0 {
        Walk::Past(p)
    } else if p >= d.len() {
        Walk::Fails
    } else if !layout::has_room(n, MEMBER_SIZE as int) {
        Walk::Breaks
    } else {
        members_walk(d, p, n, 0, method)
    }
}

/// The flags that a field may have.
pub open spec fn field_flags(flags: u64) -> bool {
    flags & 0xffff_ffff_ffff_af20u64 == 0
}

/// The flags that a method may have.
pub open spec fn method_flags(flags: u64) -> bool {
    flags & 0xffff_ffff_fffc_e200u64 == 0
}

/// Good where it holds.
pub open spec fn good_if(b: bool) -> Outcome {
    if b {
        Outcome::Good
    } else {
        Outcome::Fails
    }
}

/// Looks a field up: its entry, its name, its type, its flags.
pub open spec fn field_outcome(t: Tables, d: Seq<u8>, id: int, flags: int) -> Outcome {
    let p = t.field_off + 8 * id;
    layout::both(
        layout::field_id_outcome(t, d, id),
        layout::both(
            layout::string_outcome(t, d, layout::u32_at(t, d, p + 4)),
            layout::both(
                layout::type_outcome(t, d, layout::u16_at(t, d, p + 2)),
                good_if(field_flags(flags as u64)),
            ),
        ),
    )
}

/// Looks `n` fields up.
pub open spec fn fields_outcome(t: Tables, d: Seq<u8>, p: int, n: int, id: int) -> Outcome
    decreases n,
{
    if n <= 0 {
        Outcome::Good
    } else {
        match member(d, p, false) {
            None => Outcome::Fails,
            Some(m) => layout::both(
                field_outcome(t, d, id + m.skip, m.flags),
                fields_outcome(t, d, m.next, n - 1, id + m.skip),
            ),
        }
    }
}

/// Reads the `n` names of parameters from `p` on. A name is one less than its index, and there
/// is none for the last index of all.
pub open spec fn names_outcome(t: Tables, d: Seq<u8>, p: int, n: int) -> Outcome
    decreases n,
{
    if n <= 0 {
        Outcome::Good
    } else {
        match layout::uleb(d, p) {
            None => Outcome::Fails,
            Some((v, q)) => if v == u64::MAX {
                Outcome::Breaks
            } else {
                layout::both(
                    if v + 1 == 0xffff_ffff {
                        Outcome::Good
                    } else {
                        layout::string_outcome(t, d, layout::low32(v + 1))
                    },
                    names_outcome(t, d, q, n - 1),
                )
            },
        }
    }
}

/// Reads the debug information at `off`: a line, the number of parameters, and their names.
pub open spec fn debug_outcome(t: Tables, d: Seq<u8>, off: int) -> Outcome {
    if off == 0 {
        Outcome::Good
    } else if !layout::in_data(t, off) || off >= d.len() {
        Outcome::Fails
    } else {
        match layout::uleb(d, off) {
            None => Outcome::Fails,
            Some((_, p)) => match layout::uleb(d, p) {
                None => Outcome::Fails,
                Some((n, q)) => if !layout::has_room(n, NAME_SIZE as int) {
                    Outcome::Breaks
                } else {
                    names_outcome(t, d, q, n)
                },
            },
        }
    }
}

/// Reads `n` pairs of a type and an address from `p` on.
pub open spec fn pairs_walk(d: Seq<u8>, p: int, n: int) -> Walk
    decreases n,
{
    if n <= 0 {
        Walk::Past(p)
    } else {
        match layout::uleb(d, p) {
            None => Walk::Fails,
            Some((_, q)) => match layout::uleb(d, q) {
                None => Walk::Fails,
                Some((_, r)) => pairs_walk(d, r, n - 1),
            },
        }
    }
}

/// Looks up the types of `n` pairs from `p` on.
pub open spec fn pair_types_outcome(t: Tables, d: Seq<u8>, p: int, n: int) -> Outcome
    decreases n,
{
    if n <= 0 {
        Outcome::Good
    } else {
        match layout::uleb(d, p) {
            None => Outcome::Fails,
            Some((id, q)) => match layout::uleb(d, q) {
                None => Outcome::Fails,
                Some((_, r)) => layout::both(
                    layout::type_outcome(t, d, layout::low32(id)),
                    pair_types_outcome(t, d, r, n - 1),
                ),
            },
        }
    }
}

/// Reads the catch handler at `p`: the number of its types, negative or zero where it ends with
/// an address for all others.
pub open spec fn handler_walk(t: Tables, d: Seq<u8>, p: int) -> Walk {
    match layout::sleb(d, p) {
        None => Walk::Fails,
        Some((v, q)) => {
            let n = if v < 0 {
                -v
            } else {
                v
            };
            if !layout::has_room(n, PAIR_SIZE as int) || v == i64::MIN {
                Walk::Breaks
            } else {
                match pairs_walk(d, q, n) {
                    Walk::Past(r) => match pair_types_outcome(t, d, q, n) {
                        Outcome::Fails => Walk::Fails,
                        Outcome::Breaks => Walk::Breaks,
                        Outcome::Good => if v > 0 {
                            Walk::Past(r)
                        } else {
                            match layout::uleb(d, r) {
                                None => Walk::Fails,
                                Some((_, s)) => Walk::Past(s),
                            }
                        },
                    },
                    other => other,
                }
            }
        },
    }
}

/// Reads `n` catch handlers from `p` on.
pub open spec fn handlers_walk(t: Tables, d: Seq<u8>, p: int, n: int) -> Walk
    decreases n,
{
    if n <= 0 {
        Walk::Past(p)
    } else {
        match handler_walk(t, d, p) {
            Walk::Past(q) => handlers_walk(t, d, q, n - 1),
            other => other,
        }
    }
}

/// One of the `n` catch handlers from `p` on begins at `want`.
pub open spec fn has_handler(t: Tables, d: Seq<u8>, p: int, n: int, want: int) -> bool
    decreases n,
{
    if n <= 0 {
        false
    } else {
        p == want || match handler_walk(t, d, p) {
            Walk::Past(q) => has_handler(t, d, q, n - 1, want),
            _ => false,
        }
    }
}

/// Each of the `k` protected ranges from `p` on has a handler; their offsets count from `base`.
pub open spec fn all_handled(
    t: Tables,
    d: Seq<u8>,
    p: int,
    k: int,
    base: int,
    first: int,
    n: int,
) -> bool
    decreases k,
{
    k > 0 ==> has_handler(t, d, first, n, base + layout::u16_at(t, d, p + 6)) && all_handled(
        t,
        d,
        p + 8,
        k - 1,
        base,
        first,
        n,
    )
}

/// Reads the `k` protected ranges at `p`, and the catch handlers behind them.
pub open spec fn tries_outcome(t: Tables, d: Seq<u8>, p: int, k: int) -> Outcome {
    let base = p + 8 * k;
    if base > d.len() {
        Outcome::Fails
    } else {
        match layout::uleb(d, base) {
            None => Outcome::Fails,
            Some((n, first)) => if !layout::has_room(n, HANDLER_SIZE as int) {
                Outcome::Breaks
            } else {
                layout::both(
                    layout::outcome_of(handlers_walk(t, d, first, n)),
                    good_if(all_handled(t, d, p, k, base, first, n)),
                )
            },
        }
    }
}

/// Reads the instructions at `p`, the number of which comes first, and the protected ranges
/// behind them, if there are any.
pub open spec fn instructions_outcome(t: Tables, d: Seq<u8>, p: int, tries: int) -> Outcome {
    let n = layout::u32_at(t, d, p);
    let end = p + 4 + 2 * n;
    if p + 4 > d.len() {
        Outcome::Fails
    } else if !layout::has_room(n, 2) {
        Outcome::Breaks
    } else if end > d.len() {
        Outcome::Fails
    } else if tries == 0 {
        Outcome::Good
    } else if n % 2 == 0 {
        tries_outcome(t, d, end, tries)
    } else if end + 2 > d.len() {
        Outcome::Fails
    } else {
        tries_outcome(t, d, end + 2, tries)
    }
}

/// Reads the code at `off`. Only the lower 32 bits of the offset are held against the bounds of
/// the data section.
pub open spec fn code_outcome(t: Tables, d: Seq<u8>, off: int) -> Outcome {
    if off == 0 {
        Outcome::Good
    } else if !layout::in_data(t, layout::low32(off)) || off + 12 > d.len() {
        Outcome::Fails
    } else {
        layout::both(
            debug_outcome(t, d, layout::u32_at(t, d, off + 8)),
            instructions_outcome(t, d, off + 12, layout::u16_at(t, d, off + 6)),
        )
    }
}

/// Looks the types of a list up, if there is one.
pub open spec fn optional_types_outcome(t: Tables, d: Seq<u8>, off: int) -> Outcome {
    if off == 0 {
        Outcome::Good
    } else {
        layout::type_list_outcome(t, d, off)
    }
}

/// Looks a method up: its entry, its name, its prototype with shorthand, result and parameters,
/// its code, its class, its flags.
pub open spec fn method_outcome(t: Tables, d: Seq<u8>, id: int, flags: int, code: int) -> Outcome {
    let p = t.method_off + 8 * id;
    let proto = layout::u16_at(t, d, p + 2);
    let q = t.proto_off + 12 * proto;
    layout::both(
        layout::method_id_outcome(t, d, id),
        layout::both(
            layout::string_outcome(t, d, layout::u32_at(t, d, p + 4)),
            layout::both(
                layout::proto_id_outcome(t, d, proto),
                layout::both(
                    layout::string_outcome(t, d, layout::u32_at(t, d, q)),
                    layout::both(
                        layout::type_outcome(t, d, layout::u32_at(t, d, q + 4)),
                        layout::both(
                            optional_types_outcome(t, d, layout::u32_at(t, d, q + 8)),
                            layout::both(
                                code_outcome(t, d, code),
                                layout::both(
                                    layout::type_outcome(t, d, layout::u16_at(t, d, p)),
                                    good_if(method_flags(flags as u64)),
                                ),
                            ),
                        ),
                    ),
                ),
            ),
        ),
    )
}

/// Looks `n` methods up.
pub open spec fn methods_outcome(t: Tables, d: Seq<u8>, p: int, n: int, id: int) -> Outcome
    decreases n,
{
    if n <= 0 {
        Outcome::Good
    } else {
        match member(d, p, true) {
            None => Outcome::Fails,
            Some(m) => layout::both(
                method_outcome(t, d, id + m.skip, m.flags, m.code),
                methods_outcome(t, d, m.next, n - 1, id + m.skip),
            ),
        }
    }
}

/// Reads the four lists of a class's data from `p` on, and looks up what they hold.
pub open spec fn lists_outcome(
    t: Tables,
    d: Seq<u8>,
    p: int,
    statics: int,
    fields: int,
    direct: int,
    virtuals: int,
) -> Outcome {
    match list_walk(d, p, statics, false) {
        Walk::Past(q) => match list_walk(d, q, fields, false) {
            Walk::Past(r) => match list_walk(d, r, direct, true) {
                Walk::Past(s) => layout::both(
                    layout::outcome_of(list_walk(d, s, virtuals, true)),
                    layout::both(
                        fields_outcome(t, d, p, statics, 0),
                        layout::both(
                            fields_outcome(t, d, q, fields, 0),
                            layout::both(
                                methods_outcome(t, d, r, direct, 0),
                                methods_outcome(t, d, s, virtuals, 0),
                            ),
                        ),
                    ),
                ),
                other => layout::outcome_of(other),
            },
            other => layout::outcome_of(other),
        },
        other => layout::outcome_of(other),
    }
}

/// Reads the data of a class at `off`: how many static fields, other fields, direct methods and
/// virtual methods it has, and the four lists of them.
pub open spec fn class_data_outcome(t: Tables, d: Seq<u8>, off: int) -> Outcome {
    if off == 0 {
        Outcome::Good
    } else if !layout::in_data(t, off) || off >= d.len() {
        Outcome::Fails
    } else {
        match layout::uleb(d, off) {
            None => Outcome::Fails,
            Some((statics, p)) => match layout::uleb(d, p) {
                None => Outcome::Fails,
                Some((fields, q)) => match layout::uleb(d, q) {
                    None => Outcome::Fails,
                    Some((direct, r)) => match layout::uleb(d, r) {
                        None => Outcome::Fails,
                        Some((virtuals, s)) => lists_outcome(
                            t,
                            d,
                            s,
                            statics,
                            fields,
                            direct,
                            virtuals,
                        ),
                    },
                },
            },
        }
    }
}

/// Reads the class that is defined at `p`: its type, its annotations, the initial values of its
/// fields, its data, its interfaces.
#[verifier::opaque]
pub open spec fn class_outcome(t: Tables, d: Seq<u8>, p: int) -> Outcome {
    layout::both(
        layout::type_outcome(t, d, layout::u32_at(t, d, p)),
        layout::both(
            values::directory_outcome(t, d, layout::u32_at(t, d, p + 20)),
            layout::both(
                values::static_values_outcome(t, d, layout::u32_at(t, d, p + 28)),
                layout::both(
                    class_data_outcome(t, d, layout::u32_at(t, d, p + 24)),
                    optional_types_outcome(t, d, layout::u32_at(t, d, p + 12)),
                ),
            ),
        ),
    )
}

/// A field or method in a class's data.
struct ReadMember {
    skip: u64,
    flags: u64,
    code: u64,
    next: u128,
}

impl View for ReadMember {
    type V = Member;

    closed spec fn view(&self) -> Member {
        Member {
            skip: self.skip as int,
            flags: self.flags as int,
            code: self.code as int,
            next: self.next as int,
        }
    }
}

/// Reads a field or method.
fn read_member(data: &[u8], p: u128, method: bool) -> (r: Option<ReadMember>)
    ensures
        r matches Some(m) ==> member(data@, p as int, method) == Some(m@) && m.next <= data@.len(),
        r is None ==> member(data@, p as int, method) is None,
{
    match read_uleb(data, p) {
        None => None,
        Some((skip, q)) => match read_uleb(data, q) {
            None => None,
            Some((flags, r)) => if !method {
                Some(ReadMember { skip, flags, code: 0, next: r })
            } else {
                match read_uleb(data, r) {
                    None => None,
                    Some((code, s)) => Some(ReadMember { skip, flags, code, next: s }),
                }
            },
        },
    }
}

/// Reads a list of fields, or methods.
fn check_list(data: &[u8], p: u128, n: u64, method: bool) -> (r: Step)
    requires
        p <= data@.len(),
    ensures
        r.walk() == list_walk(data@, p as int, n as int, method),
        r matches Step::Past(q) ==> q <= data@.len(),
{
    let len: usize = data.len();
    if n == 0 {
        return Step::Past(p);
    }
    if p >= len as u128 {
        return Step::Fails;
    }
    if !room_for(n, MEMBER_SIZE) {
        return Step::Breaks;
    }
    let mut at: u128 = p;
    let mut left: u64 = n;
    let mut id: u64 = 0;
    while left > 0
        invariant
            at <= data@.len(),
            p < data@.len(),
            n > 0,
            layout::has_room(n as int, MEMBER_SIZE as int),
            members_walk(data@, p as int, n as int, 0, method) == members_walk(
                data@,
                at as int,
                left as int,
                id as int,
                method,
            ),
        decreases left,
    {
        match read_member(data, at, method) {
            None => {
                return Step::Fails;
            },
            Some(m) => {
                if m.skip > u64::MAX - id {
                    return Step::Breaks;
                }
                id = id + m.skip;
                at = m.next;
            },
        }
        left = left - 1;
    }
    Step::Past(at)
}

/// Looks a field up.
fn check_field(t: &Tables, data: &[u8], id: u64, flags: u64) -> (r: Outcome)
    ensures
        r == field_outcome(*t, data@, id as int, flags as int),
{
    let entry: Outcome = check_field_id(t, data, id);
    if entry != Outcome::Good {
        return entry;
    }
    let p: u128 = t.field_off as u128 + 8 * id as u128;
    let name: Outcome = check_string(t, data, read_u32(t, data, p + 4));
    if name != Outcome::Good {
        return name;
    }
    let kind: Outcome = check_type(t, data, read_u16(t, data, p + 2) as u32);
    if kind != Outcome::Good {
        return kind;
    }
    if flags & 0xffff_ffff_ffff_af20u64 == 0 {
        Outcome::Good
    } else {
        Outcome::Fails
    }
}

/// Looks the fields of a list up that has been read.
fn check_fields(t: &Tables, data: &[u8], p: u128, n: u64) -> (r: Outcome)
    requires
        members_walk(data@, p as int, n as int, 0, false) is Past,
    ensures
        r == fields_outcome(*t, data@, p as int, n as int, 0),
{
    let mut at: u128 = p;
    let mut left: u64 = n;
    let mut id: u64 = 0;
    while left > 0
        invariant
            members_walk(data@, at as int, left as int, id as int, false) is Past,
            fields_outcome(*t, data@, p as int, n as int, 0) == fields_outcome(
                *t,
                data@,
                at as int,
                left as int,
                id as int,
            ),
        decreases left,
    {
        match read_member(data, at, false) {
            None => {
                return Outcome::Fails;
            },
            Some(m) => {
                id = id + m.skip;
                let seen: Outcome = check_field(t, data, id, m.flags);
                if seen != Outcome::Good {
                    return seen;
                }
                at = m.next;
            },
        }
        left = left - 1;
    }
    Outcome::Good
}

/// Reads the names of parameters.
fn check_names(t: &Tables, data: &[u8], p: u128, n: u64) -> (r: Outcome)
    ensures
        r == names_outcome(*t, data@, p as int, n as int),
{
    let mut at: u128 = p;
    let mut left: u64 = n;
    while left > 0
        invariant
            names_outcome(*t, data@, p as int, n as int) == names_outcome(
                *t,
                data@,
                at as int,
                left as int,
            ),
        decreases left,
    {
        match read_uleb(data, at) {
            None => {
                return Outcome::Fails;
            },
            Some((v, q)) => {
                if v == u64::MAX {
                    return Outcome::Breaks;
                }
                if v + 1 != 0xffff_ffff {
                    let seen: Outcome = check_string(t, data, take_low32(v + 1));
                    if seen != Outcome::Good {
                        return seen;
                    }
                }
                at = q;
            },
        }
        left = left - 1;
    }
    Outcome::Good
}

/// Reads debug information.
fn check_debug(t: &Tables, data: &[u8], off: u32) -> (r: Outcome)
    ensures
        r == debug_outcome(*t, data@, off as int),
{
    if off == 0 {
        return Outcome::Good;
    }
    if !is_in_data(t, off) || !has_bytes(data, off as u128, 1) {
        return Outcome::Fails;
    }
    match read_uleb(data, off as u128) {
        None => Outcome::Fails,
        Some((_, p)) => match read_uleb(data, p) {
            None => Outcome::Fails,
            Some((n, q)) => if !room_for(n, NAME_SIZE) {
                Outcome::Breaks
            } else {
                check_names(t, data, q, n)
            },
        },
    }
}

/// Reads pairs of a type and an address.
fn check_pairs(data: &[u8], p: u128, n: u64) -> (r: Step)
    requires
        p <= data@.len(),
    ensures
        r.walk() == pairs_walk(data@, p as int, n as int),
        r matches Step::Past(q) ==> q <= data@.len(),
{
    let mut at: u128 = p;
    let mut left: u64 = n;
    while left > 0
        invariant
            at <= data@.len(),
            pairs_walk(data@, p as int, n as int) == pairs_walk(data@, at as int, left as int),
        decreases left,
    {
        match read_uleb(data, at) {
            None => {
                return Step::Fails;
            },
            Some((_, q)) => match read_uleb(data, q) {
                None => {
                    return Step::Fails;
                },
                Some((_, r)) => {
                    at = r;
                },
            },
        }
        left = left - 1;
    }
    Step::Past(at)
}

/// Looks up the types of pairs.
fn check_pair_types(t: &Tables, data: &[u8], p: u128, n: u64) -> (r: Outcome)
    ensures
        r == pair_types_outcome(*t, data@, p as int, n as int),
{
    let mut at: u128 = p;
    let mut left: u64 = n;
    while left > 0
        invariant
            pair_types_outcome(*t, data@, p as int, n as int) == pair_types_outcome(
                *t,
                data@,
                at as int,
                left as int,
            ),
        decreases left,
    {
        match read_uleb(data, at) {
            None => {
                return Outcome::Fails;
            },
            Some((id, q)) => match read_uleb(data, q) {
                None => {
                    return Outcome::Fails;
                },
                Some((_, r)) => {
                    let seen: Outcome = check_type(t, data, take_low32(id));
                    if seen != Outcome::Good {
                        return seen;
                    }
                    at = r;
                },
            },
        }
        left = left - 1;
    }
    Outcome::Good
}

/// Reads a catch handler.
fn check_handler(t: &Tables, data: &[u8], p: u128) -> (r: Step)
    ensures
        r.walk() == handler_walk(*t, data@, p as int),
        r matches Step::Past(q) ==> q <= data@.len(),
{
    match read_sleb(data, p) {
        None => Step::Fails,
        Some((v, q)) => {
            if v == i64::MIN {
                return Step::Breaks;
            }
            let n: u64 = if v < 0 {
                (-v) as u64
            } else {
                v as u64
            };
            if !room_for(n, PAIR_SIZE) {
                return Step::Breaks;
            }
            match check_pairs(data, q, n) {
                Step::Past(r) => match check_pair_types(t, data, q, n) {
                    Outcome::Fails => Step::Fails,
                    Outcome::Breaks => Step::Breaks,
                    Outcome::Good => if v > 0 {
                        Step::Past(r)
                    } else {
                        match read_uleb(data, r) {
                            None => Step::Fails,
                            Some((_, s)) => Step::Past(s),
                        }
                    },
                },
                other => other,
            }
        },
    }
}

/// Reads catch handlers.
fn check_handlers(t: &Tables, data: &[u8], p: u128, n: u64) -> (r: Step)
    requires
        p <= data@.len(),
    ensures
        r.walk() == handlers_walk(*t, data@, p as int, n as int),
{
    let mut at: u128 = p;
    let mut left: u64 = n;
    while left > 0
        invariant
            at <= data@.len(),
            handlers_walk(*t, data@, p as int, n as int) == handlers_walk(
                *t,
                data@,
                at as int,
                left as int,
            ),
        decreases left,
    {
        match check_handler(t, data, at) {
            Step::Past(q) => {
                at = q;
            },
            other => {
                return other;
            },
        }
        left = left - 1;
    }
    Step::Past(at)
}

/// Does one of the catch handlers begin at `want`?
fn find_handler(t: &Tables, data: &[u8], p: u128, n: u64, want: u128) -> (r: bool)
    ensures
        r == has_handler(*t, data@, p as int, n as int, want as int),
{
    let mut at: u128 = p;
    let mut left: u64 = n;
    while left > 0
        invariant
            has_handler(*t, data@, p as int, n as int, want as int) == has_handler(
                *t,
                data@,
                at as int,
                left as int,
                want as int,
            ),
        decreases left,
    {
        if at == want {
            return true;
        }
        match check_handler(t, data, at) {
            Step::Past(q) => {
                at = q;
            },
            _ => {
                return false;
            },
        }
        left = left - 1;
    }
    false
}

/// Has each protected range a handler?
fn check_handled(
    t: &Tables,
    data: &[u8],
    p: u128,
    k: u16,
    base: u128,
    first: u128,
    n: u64,
) -> (r: bool)
    requires
        p + 8 * k <= base <= data@.len(),
    ensures
        r == all_handled(*t, data@, p as int, k as int, base as int, first as int, n as int),
{
    let len: usize = data.len();
    let mut at: u128 = p;
    let mut left: u16 = k;
    while left > 0
        invariant
            len == data@.len(),
            at + 8 * left <= base <= len,
            all_handled(*t, data@, p as int, k as int, base as int, first as int, n as int)
                == all_handled(
                *t,
                data@,
                at as int,
                left as int,
                base as int,
                first as int,
                n as int,
            ),
        decreases left,
    {
        let want: u128 = base + read_u16(t, data, at + 6) as u128;
        if !find_handler(t, data, first, n, want) {
            return false;
        }
        at = at + 8;
        left = left - 1;
    }
    true
}

/// Reads protected ranges and the catch handlers behind them.
fn check_tries(t: &Tables, data: &[u8], p: u128, k: u16) -> (r: Outcome)
    requires
        p <= data@.len(),
    ensures
        r == tries_outcome(*t, data@, p as int, k as int),
{
    let len: usize = data.len();
    let base: u128 = p + 8 * k as u128;
    if base > len as u128 {
        return Outcome::Fails;
    }
    match read_uleb(data, base) {
        None => Outcome::Fails,
        Some((n, first)) => {
            if !room_for(n, HANDLER_SIZE) {
                return Outcome::Breaks;
            }
            let seen: Outcome = outcome(check_handlers(t, data, first, n));
            if seen != Outcome::Good {
                return seen;
            }
            if check_handled(t, data, p, k, base, first, n) {
                Outcome::Good
            } else {
                Outcome::Fails
            }
        },
    }
}

/// Reads instructions, and the protected ranges behind them.
fn check_instructions(t: &Tables, data: &[u8], p: u128, tries: u16) -> (r: Outcome)
    requires
        p <= data@.len(),
    ensures
        r == instructions_outcome(*t, data@, p as int, tries as int),
{
    let len: usize = data.len();
    if !has_bytes(data, p, 4) {
        return Outcome::Fails;
    }
    let n: u32 = read_u32(t, data, p);
    let end: u128 = p + 4 + 2 * n as u128;
    if !room_for(n as u64, 2) {
        Outcome::Breaks
    } else if end > len as u128 {
        Outcome::Fails
    } else if tries == 0 {
        Outcome::Good
    } else if n % 2 == 0 {
        check_tries(t, data, end, tries)
    } else if !has_bytes(data, end, 2) {
        Outcome::Fails
    } else {
        check_tries(t, data, end + 2, tries)
    }
}

/// Reads code.
fn check_code(t: &Tables, data: &[u8], off: u64) -> (r: Outcome)
    ensures
        r == code_outcome(*t, data@, off as int),
{
    if off == 0 {
        return Outcome::Good;
    }
    let p: u128 = off as u128;
    if !is_in_data(t, take_low32(off)) || !has_bytes(data, p, 12) {
        return Outcome::Fails;
    }
    let seen: Outcome = check_debug(t, data, read_u32(t, data, p + 8));
    if seen != Outcome::Good {
        return seen;
    }
    check_instructions(t, data, p + 12, read_u16(t, data, p + 6))
}

/// Looks the types of a list up, if there is one.
fn check_optional_types(t: &Tables, data: &[u8], off: u32) -> (r: Outcome)
    ensures
        r == optional_types_outcome(*t, data@, off as int),
{
    if off == 0 {
        Outcome::Good
    } else {
        check_type_list(t, data, off)
    }
}

/// Looks a method up.
fn check_method(t: &Tables, data: &[u8], id: u64, flags: u64, code: u64) -> (r: Outcome)
    ensures
        r == method_outcome(*t, data@, id as int, flags as int, code as int),
{
    let entry: Outcome = check_method_id(t, data, id);
    if entry != Outcome::Good {
        return entry;
    }
    let p: u128 = t.method_off as u128 + 8 * id as u128;
    let name: Outcome = check_string(t, data, read_u32(t, data, p + 4));
    if name != Outcome::Good {
        return name;
    }
    let proto: u16 = read_u16(t, data, p + 2);
    let prototype: Outcome = check_proto_id(t, data, proto as u64);
    if prototype != Outcome::Good {
        return prototype;
    }
    let q: u128 = t.proto_off as u128 + 12 * proto as u128;
    let shorthand: Outcome = check_string(t, data, read_u32(t, data, q));
    if shorthand != Outcome::Good {
        return shorthand;
    }
    let result: Outcome = check_type(t, data, read_u32(t, data, q + 4));
    if result != Outcome::Good {
        return result;
    }
    let parameters: Outcome = check_optional_types(t, data, read_u32(t, data, q + 8));
    if parameters != Outcome::Good {
        return parameters;
    }
    let body: Outcome = check_code(t, data, code);
    if body != Outcome::Good {
        return body;
    }
    let class: Outcome = check_type(t, data, read_u16(t, data, p) as u32);
    if class != Outcome::Good {
        return class;
    }
    if flags & 0xffff_ffff_fffc_e200u64 == 0 {
        Outcome::Good
    } else {
        Outcome::Fails
    }
}

/// Looks the methods of a list up that has been read.
fn check_methods(t: &Tables, data: &[u8], p: u128, n: u64) -> (r: Outcome)
    requires
        members_walk(data@, p as int, n as int, 0, true) is Past,
    ensures
        r == methods_outcome(*t, data@, p as int, n as int, 0),
{
    let mut at: u128 = p;
    let mut left: u64 = n;
    let mut id: u64 = 0;
    while left > 0
        invariant
            members_walk(data@, at as int, left as int, id as int, true) is Past,
            methods_outcome(*t, data@, p as int, n as int, 0) == methods_outcome(
                *t,
                data@,
                at as int,
                left as int,
                id as int,
            ),
        decreases left,
    {
        match read_member(data, at, true) {
            None => {
                return Outcome::Fails;
            },
            Some(m) => {
                id = id + m.skip;
                let seen: Outcome = check_method(t, data, id, m.flags, m.code);
                if seen != Outcome::Good {
                    return seen;
                }
                at = m.next;
            },
        }
        left = left - 1;
    }
    Outcome::Good
}

/// Reads the four lists of a class's data, and looks up what they hold.
fn check_lists(
    t: &Tables,
    data: &[u8],
    p: u128,
    statics: u64,
    fields: u64,
    direct: u64,
    virtuals: u64,
) -> (r: Outcome)
    requires
        p <= data@.len(),
    ensures
        r == lists_outcome(
            *t,
            data@,
            p as int,
            statics as int,
            fields as int,
            direct as int,
            virtuals as int,
        ),
{
    let q: u128 = match check_list(data, p, statics, false) {
        Step::Past(q) => q,
        other => {
            return outcome(other);
        },
    };
    let r: u128 = match check_list(data, q, fields, false) {
        Step::Past(r) => r,
        other => {
            return outcome(other);
        },
    };
    let s: u128 = match check_list(data, r, direct, true) {
        Step::Past(s) => s,
        other => {
            return outcome(other);
        },
    };
    let last: Step = check_list(data, s, virtuals, true);
    let read: Outcome = outcome(last);
    if read != Outcome::Good {
        return read;
    }
    let of_statics: Outcome = check_fields(t, data, p, statics);
    if of_statics != Outcome::Good {
        return of_statics;
    }
    let of_fields: Outcome = check_fields(t, data, q, fields);
    if of_fields != Outcome::Good {
        return of_fields;
    }
    let of_direct: Outcome = check_methods(t, data, r, direct);
    if of_direct != Outcome::Good {
        return of_direct;
    }
    check_methods(t, data, s, virtuals)
}

/// Reads the data of a class.
fn check_class_data(t: &Tables, data: &[u8], off: u32) -> (r: Outcome)
    ensures
        r == class_data_outcome(*t, data@, off as int),
{
    if off == 0 {
        return Outcome::Good;
    }
    if !is_in_data(t, off) || !has_bytes(data, off as u128, 1) {
        return Outcome::Fails;
    }
    match read_uleb(data, off as u128) {
        None => Outcome::Fails,
        Some((statics, p)) => match read_uleb(data, p) {
            None => Outcome::Fails,
            Some((fields, q)) => match read_uleb(data, q) {
                None => Outcome::Fails,
                Some((direct, r)) => match read_uleb(data, r) {
                    None => Outcome::Fails,
                    Some((virtuals, s)) => check_lists(
                        t,
                        data,
                        s,
                        statics,
                        fields,
                        direct,
                        virtuals,
                    ),
                },
            },
        },
    }
}

/// Reads the class that is defined at `p`.
pub fn check_class(t: &Tables, data: &[u8], p: u128) -> (r: Outcome)
    requires
        p + 32 <= data@.len(),
    ensures
        r == class_outcome(*t, data@, p as int),
{
    proof {
        reveal(class_outcome);
    }
    let _len: usize = data.len();
    let name: Outcome = check_type(t, data, read_u32(t, data, p));
    if name != Outcome::Good {
        return name;
    }
    let annotations: Outcome = check_directory(t, data, read_u32(t, data, p + 20));
    if annotations != Outcome::Good {
        return annotations;
    }
    let initial: Outcome = check_static_values(t, data, read_u32(t, data, p + 28));
    if initial != Outcome::Good {
        return initial;
    }
    let contents: Outcome = check_class_data(t, data, read_u32(t, data, p + 24));
    if contents != Outcome::Good {
        return contents;
    }
    check_optional_types(t, data, read_u32(t, data, p + 12))
}

} // verus!
