//! The order in which native libraries are loaded.
use crate::elf;
use crate::text;
use vstd::prelude::*;

verus! {

/// The libraries that others depend on, the one that is loaded first in front.
pub open spec fn priority_of(name: Seq<char>) -> int {
    if name == "libc++_shared.so"@ {
        0
    } else if name == "libboost_system.so"@ {
        1
    } else if name == "libboost_filesystem.so"@ {
        2
    } else {
        999
    }
}

/// The number of priorities.
pub const PRIORITY_COUNT: usize = 4;

/// The priorities in ascending order.
pub open spec fn priority(rank: int) -> int {
    if rank < 3 {
        rank
    } else {
        999
    }
}

/// The priority of a library.
pub fn load_priority(name: &str) -> (r: usize)
    ensures
        r == priority_of(name@),
{
    if text::same_text(name, "libc++_shared.so") {
        0
    } else if text::same_text(name, "libboost_system.so") {
        1
    } else if text::same_text(name, "libboost_filesystem.so") {
        2
    } else {
        999
    }
}

/// The indices of the names of one priority, in order.
pub open spec fn of_priority(names: Seq<Seq<char>>, p: int) -> Seq<int>
    decreases names.len(),
{
    if names.len() == 0 {
        Seq::empty()
    } else {
        let before = of_priority(names.drop_last(), p);
        if priority_of(names.last()) == p {
            before.push(names.len() - 1)
        } else {
            before
        }
    }
}

/// The order in which libraries are loaded: by priority, and within one priority as they
/// come. The priorities up to `rank`.
pub open spec fn order_up_to(names: Seq<Seq<char>>, rank: int) -> Seq<int>
    decreases rank,
{
    if rank <= 0 {
        Seq::empty()
    } else {
        order_up_to(names, rank - 1) + of_priority(names, priority(rank - 1))
    }
}

/// The order in which libraries are loaded, as a list of their indices.
pub fn load_order(names: &Vec<String>) -> (r: Vec<usize>)
    ensures
        elf::indices(r@) == order_up_to(text::texts(names@), PRIORITY_COUNT as int),
{
    let ghost all = text::texts(names@);
    let mut order: Vec<usize> = Vec::new();
    let mut rank: usize = 0;
    while rank < PRIORITY_COUNT
        invariant
            rank <= PRIORITY_COUNT,
            all == text::texts(names@),
            elf::indices(order@) =~= order_up_to(all, rank as int),
        decreases PRIORITY_COUNT - rank,
    {
        let p: usize = if rank < 3 {
            rank
        } else {
            999
        };
        let ghost before = order_up_to(all, rank as int);
        let mut i: usize = 0;
        assert(all.take(0) =~= Seq::empty());
        while i < names.len()
            invariant
                i <= names.len(),
                rank < PRIORITY_COUNT,
                p == priority(rank as int),
                all == text::texts(names@),
                elf::indices(order@) =~= before + of_priority(all.take(i as int), p as int),
            decreases names.len() - i,
        {
            assert(all.take(i + 1).drop_last() =~= all.take(i as int));
            assert(all[i as int] == names@[i as int]@);
            let ghost listed = order@;
            if load_priority(names[i].as_str()) == p {
                order.push(i);
                assert(elf::indices(order@) =~= elf::indices(listed).push(i as int));
            }
            i = i + 1;
        }
        assert(all.take(i as int) =~= all);
        rank = rank + 1;
    }
    order
}

/// Of one priority, exactly the names that have it are listed, in ascending order.
proof fn of_priority_lists(names: Seq<Seq<char>>, p: int)
    ensures
        forall|k: int|
            0 <= k < of_priority(names, p).len() ==> 0 <= #[trigger] of_priority(names, p)[k]
                < names.len() && priority_of(names[of_priority(names, p)[k]]) == p,
        forall|j: int, k: int|
            0 <= j < k < of_priority(names, p).len() ==> #[trigger] of_priority(names, p)[j]
                < #[trigger] of_priority(names, p)[k],
        forall|i: int|
            0 <= i < names.len() && priority_of(#[trigger] names[i]) == p ==> of_priority(
                names,
                p,
            ).contains(i),
    decreases names.len(),
{
    if names.len() > 0 {
        let short = names.drop_last();
        of_priority_lists(short, p);
        let before = of_priority(short, p);
        let list = of_priority(names, p);
        assert forall|k: int| 0 <= k < list.len() implies 0 <= #[trigger] list[k] < names.len()
            && priority_of(names[list[k]]) == p by {
            if k < before.len() {
                assert(list[k] == before[k]);
                assert(short[before[k]] == names[before[k]]);
            }
        }
        assert forall|j: int, k: int| 0 <= j < k < list.len() implies #[trigger] list[j]
            < #[trigger] list[k] by {
            assert(list[j] == before[j]);
            if k < before.len() {
                assert(list[k] == before[k]);
            }
        }
        assert forall|i: int|
            0 <= i < names.len() && priority_of(#[trigger] names[i]) == p implies list.contains(
            i,
        ) by {
            if i < short.len() {
                assert(short[i] == names[i]);
                assert(before.contains(i));
                let k = choose|k: int| 0 <= k < before.len() && before[k] == i;
                assert(list[k] == i);
            } else {
                assert(list[before.len() as int] == i);
            }
        }
    }
}

/// Position `j` of an order may stand before position `k`.
pub open spec fn in_order(names: Seq<Seq<char>>, order: Seq<int>, j: int, k: int) -> bool {
    let a = priority_of(names[order[j]]);
    let b = priority_of(names[order[k]]);
    a < b || (a == b && order[j] < order[k])
}

proof fn order_is_sorted(names: Seq<Seq<char>>, rank: int)
    requires
        0 <= rank <= PRIORITY_COUNT,
    ensures
        forall|k: int|
            0 <= k < order_up_to(names, rank).len() ==> 0 <= #[trigger] order_up_to(names, rank)[k]
                < names.len(),
        forall|k: int|
            0 <= k < order_up_to(names, rank).len() ==> exists|q: int|
                0 <= q < rank && priority_of(
                    names[#[trigger] order_up_to(names, rank)[k]],
                ) == #[trigger] priority(q),
        forall|j: int, k: int|
            0 <= j < k < order_up_to(names, rank).len() ==> #[trigger] in_order(
                names,
                order_up_to(names, rank),
                j,
                k,
            ),
        forall|i: int, q: int|
            0 <= i < names.len() && 0 <= q < rank && priority_of(#[trigger] names[i])
                == #[trigger] priority(q) ==> order_up_to(names, rank).contains(i),
    decreases rank,
{
    if rank > 0 {
        order_is_sorted(names, rank - 1);
        let before = order_up_to(names, rank - 1);
        let p = priority(rank - 1);
        let more = of_priority(names, p);
        of_priority_lists(names, p);
        let order = order_up_to(names, rank);
        assert(order == before + more);
        assert forall|k: int| 0 <= k < order.len() implies 0 <= #[trigger] order[k]
            < names.len() by {
            if k < before.len() {
                assert(order[k] == before[k]);
            } else {
                assert(order[k] == more[k - before.len()]);
            }
        }
        assert forall|k: int| 0 <= k < order.len() implies exists|q: int|
            0 <= q < rank && priority_of(names[#[trigger] order[k]]) == #[trigger] priority(q) by {
            if k < before.len() {
                assert(order[k] == before[k]);
                let q = choose|q: int|
                    0 <= q < rank - 1 && priority_of(names[before[k]]) == #[trigger] priority(q);
                assert(priority_of(names[order[k]]) == priority(q));
            } else {
                assert(order[k] == more[k - before.len()]);
                assert(priority_of(names[order[k]]) == priority(rank - 1));
            }
        }
        assert forall|j: int, k: int| 0 <= j < k < order.len() implies #[trigger] in_order(
            names,
            order,
            j,
            k,
        ) by {
            if k < before.len() {
                assert(order[j] == before[j] && order[k] == before[k]);
                assert(in_order(names, before, j, k));
            } else if j < before.len() {
                assert(order[j] == before[j] && order[k] == more[k - before.len()]);
                let q = choose|q: int|
                    0 <= q < rank - 1 && priority_of(names[before[j]]) == #[trigger] priority(q);
                assert(priority(q) < p);
            } else {
                assert(order[j] == more[j - before.len()] && order[k] == more[k - before.len()]);
            }
        }
        assert forall|i: int, q: int|
            0 <= i < names.len() && 0 <= q < rank && priority_of(#[trigger] names[i])
                == #[trigger] priority(q) implies order.contains(i) by {
            if q < rank - 1 {
                assert(before.contains(i));
                let k = choose|k: int| 0 <= k < before.len() && before[k] == i;
                assert(order[k] == i);
            } else {
                assert(more.contains(i));
                let k = choose|k: int| 0 <= k < more.len() && more[k] == i;
                assert(order[before.len() + k] == i);
            }
        }
    }
}

/// Every library is loaded exactly once, none before one of higher priority, and libraries
/// of the same priority in the order in which they come.
pub proof fn law_load_order_sorts_by_priority(names: Seq<Seq<char>>)
    ensures
        ({
            let order = order_up_to(names, PRIORITY_COUNT as int);
            &&& forall|k: int| 0 <= k < order.len() ==> 0 <= #[trigger] order[k] < names.len()
            &&& forall|i: int|
                0 <= i < names.len() ==> #[trigger] order.contains(i)
            &&& forall|j: int, k: int|
                0 <= j < k < order.len() ==> #[trigger] in_order(names, order, j, k) && order[j]
                    != order[k]
        }),
{
    order_is_sorted(names, PRIORITY_COUNT as int);
    let order = order_up_to(names, PRIORITY_COUNT as int);
    assert forall|j: int, k: int| 0 <= j < k < order.len() implies #[trigger] in_order(
        names,
        order,
        j,
        k,
    ) && order[j] != order[k] by {}
    assert forall|i: int| 0 <= i < names.len() implies #[trigger] order.contains(i) by {
        let p = priority_of(names[i]);
        let q = if p < 3 {
            p
        } else {
            3
        };
        assert(priority_of(names[i]) == priority(q));
    }
}

/// `libc++_shared.so` is loaded before every other library, `libboost_system.so` before every
/// other but that, and `libboost_filesystem.so` before every other but those two; the rest follows
/// as it comes, and so do libraries of one name.
pub proof fn law_runtime_and_boost_are_loaded_first(names: Seq<Seq<char>>, j: int, k: int)
    requires
        0 <= j < k < order_up_to(names, PRIORITY_COUNT as int).len(),
    ensures
        ({
            let order = order_up_to(names, PRIORITY_COUNT as int);
            let a = names[order[j]];
            let b = names[order[k]];
            let first = |n: Seq<char>| n == "libc++_shared.so"@;
            let second = |n: Seq<char>| n == "libboost_system.so"@;
            let third = |n: Seq<char>| n == "libboost_filesystem.so"@;
            &&& first(b) ==> first(a)
            &&& second(b) ==> first(a) || second(a)
            &&& third(b) ==> first(a) || second(a) || third(a)
            &&& a == b ==> order[j] < order[k]
            &&& !first(a) && !second(a) && !third(a) ==> order[j] < order[k] && !first(b)
                && !second(b) && !third(b)
        }),
{
    law_load_order_sorts_by_priority(names);
    let order = order_up_to(names, PRIORITY_COUNT as int);
    assert(in_order(names, order, j, k));
    reveal_strlit("libc++_shared.so");
    reveal_strlit("libboost_system.so");
    reveal_strlit("libboost_filesystem.so");
    assert("libc++_shared.so"@.len() != "libboost_system.so"@.len());
    assert("libc++_shared.so"@.len() != "libboost_filesystem.so"@.len());
    assert("libboost_system.so"@.len() != "libboost_filesystem.so"@.len());
}

/// The loading order has every library in it, each once.
pub proof fn law_every_library_is_loaded_once(names: Seq<Seq<char>>, i: int)
    requires
        0 <= i < names.len(),
    ensures
        ({
            let order = order_up_to(names, PRIORITY_COUNT as int);
            &&& order.contains(i)
            &&& order.no_duplicates()
            &&& forall|k: int| 0 <= k < order.len() ==> 0 <= #[trigger] order[k] < names.len()
        }),
{
    law_load_order_sorts_by_priority(names);
    let order = order_up_to(names, PRIORITY_COUNT as int);
    assert(order.contains(i));
    assert forall|j: int, k: int| 0 <= j < order.len() && 0 <= k < order.len() && j != k implies
        order[j] != order[k] by {
        if j < k {
            assert(in_order(names, order, j, k));
        } else {
            assert(in_order(names, order, k, j));
        }
    }
}

/// The libraries are loaded each once, `libc++_shared.so` first, then the two of Boost, then the
/// others as they come.
pub proof fn law_libraries_are_loaded_in_order(names: &Vec<String>, r: Vec<usize>, j: int, k: int)
    requires
        call_ensures(load_order, (names,), r),
        0 <= j < k < r@.len(),
    ensures
        ({
            let a = names@[r@[j] as int]@;
            let b = names@[r@[k] as int]@;
            let first = |n: Seq<char>| n == "libc++_shared.so"@;
            let second = |n: Seq<char>| n == "libboost_system.so"@;
            let third = |n: Seq<char>| n == "libboost_filesystem.so"@;
            &&& first(b) ==> first(a)
            &&& second(b) ==> first(a) || second(a)
            &&& third(b) ==> first(a) || second(a) || third(a)
            &&& !first(a) && !second(a) && !third(a) ==> r@[j] < r@[k]
            &&& r@[j] != r@[k]
        }),
{
    let all = text::texts(names@);
    let order = order_up_to(all, PRIORITY_COUNT as int);
    assert(elf::indices(r@)[j] == order[j] && elf::indices(r@)[k] == order[k]);
    law_runtime_and_boost_are_loaded_first(all, j, k);
    law_load_order_sorts_by_priority(all);
    assert(in_order(all, order, j, k));
    assert(all[order[j]] == names@[r@[j] as int]@);
    assert(all[order[k]] == names@[r@[k] as int]@);
}

} // verus!
