//! What holds of all the handles that a VM hands out, from the first on.
use crate::jvm::handles::{HandleAllocator, JNI_HANDLES_BASE_ADDR};
use crate::jvm::state::JvmModel;
use vstd::prelude::*;

verus! {

/// Something for which a VM is asked for a handle.
pub enum Request {
    /// The class of this name.
    Class(Seq<char>),
    /// The method of this class, name and signature.
    Method((u64, Seq<char>, Seq<char>)),
    /// Anything else, such as a string or an object.
    Other,
}

/// A number of requests to a VM, the handles that it gave, and its state before the first
/// request and after each.
pub struct Run {
    pub requests: Seq<Request>,
    pub handles: Seq<u64>,
    pub states: Seq<JvmModel>,
    pub counters: Seq<HandleAllocator>,
}

impl Run {
    /// Request `i` was answered as it should be.
    pub open spec fn step(self, i: int) -> bool {
        let before = self.states[i];
        let after = self.states[i + 1];
        let handles = self.counters[i];
        let handles_after = self.counters[i + 1];
        let handle = self.handles[i];
        match self.requests[i] {
            Request::Class(name) => {
                &&& before.has_class(name) || handles.room()
                &&& before.interns_class(name, handles, handle, after, handles_after)
            },
            Request::Method(key) => {
                &&& before.methods.contains_key(key) || handles.room()
                &&& before.interns_method(key, handles, handle, after, handles_after)
            },
            Request::Other => {
                &&& handles.room()
                &&& handle == handles.next
                &&& handles_after == handles.advanced()
                &&& after.classes == before.classes
                &&& after.methods == before.methods
            },
        }
    }

    /// All requests were answered as they should be, by a VM that knew nothing before the first.
    pub open spec fn wf(self) -> bool {
        &&& self.handles.len() == self.requests.len()
        &&& self.states.len() == self.requests.len() + 1
        &&& self.counters.len() == self.requests.len() + 1
        &&& self.states[0] == JvmModel::initial()
        &&& self.counters[0].next == JNI_HANDLES_BASE_ADDR
        &&& forall|i: int| 0 <= i < self.requests.len() ==> #[trigger] self.step(i)
    }

    /// The state after the last request.
    pub open spec fn end(self) -> JvmModel {
        self.states[self.requests.len() as int]
    }
}

/// The names of the classes that were asked for.
pub open spec fn class_names(requests: Seq<Request>) -> Set<Seq<char>>
    decreases requests.len(),
{
    if requests.len() == 0 {
        Set::empty()
    } else {
        let before = class_names(requests.drop_last());
        match requests.last() {
            Request::Class(name) => before.insert(name),
            _ => before,
        }
    }
}

/// No class name and no method stands under two handles, and no handle for two things.
spec fn distinct(s: JvmModel) -> bool {
    &&& forall|a: u64, b: u64|
        s.classes.contains_key(a) && s.classes.contains_key(b) && #[trigger] s.classes[a]
            == #[trigger] s.classes[b] ==> a == b
    &&& forall|j: (u64, Seq<char>, Seq<char>), k: (u64, Seq<char>, Seq<char>)|
        s.methods.contains_key(j) && s.methods.contains_key(k) && #[trigger] s.methods[j]
            == #[trigger] s.methods[k] ==> j == k
    &&& forall|k: (u64, Seq<char>, Seq<char>)| #[trigger]
        s.methods.contains_key(k) ==> !s.classes.contains_key(s.methods[k])
}

/// Every handle of a class or method lies below the next one.
spec fn bounded(s: JvmModel, next: u64) -> bool {
    &&& forall|h: u64| #[trigger] s.classes.contains_key(h) ==> h < next
    &&& forall|k: (u64, Seq<char>, Seq<char>)| #[trigger]
        s.methods.contains_key(k) ==> s.methods[k] < next
}

/// What was answered up to request `i` still holds.
spec fn remembered(r: Run, i: int) -> bool {
    &&& forall|j: int|
        0 <= j < i ==> (#[trigger] r.requests[j] matches Request::Class(name)
            ==> r.states[i].class_is(r.handles[j], name))
    &&& forall|j: int|
        0 <= j < i ==> (#[trigger] r.requests[j] matches Request::Method(key)
            ==> r.states[i].methods.contains_key(key) && r.states[i].methods[key] == r.handles[j])
}

/// A handle for anything else is none for a class or method, nor a second time for anything else.
spec fn apart(r: Run, i: int) -> bool {
    forall|j: int|
        0 <= j < i && #[trigger] r.requests[j] is Other ==> {
            &&& r.handles[j] < r.counters[i].next
            &&& !r.states[i].classes.contains_key(r.handles[j])
            &&& forall|k: (u64, Seq<char>, Seq<char>)| #[trigger]
                r.states[i].methods.contains_key(k) ==> r.states[i].methods[k] != r.handles[j]
            &&& forall|k: int|
                0 <= k < i && k != j && #[trigger] r.requests[k] is Other ==> r.handles[k]
                    != r.handles[j]
        }
}

/// The classes that are known are those that were asked for, each once.
spec fn counted(r: Run, i: int) -> bool {
    let names = class_names(r.requests.take(i));
    &&& forall|name: Seq<char>| #[trigger] names.contains(name) <==> r.states[i].has_class(name)
    &&& names.finite()
    &&& r.states[i].classes.dom().finite()
    &&& r.states[i].classes.dom().len() == names.len()
}

proof fn run_keeps(r: Run, i: int)
    requires
        r.wf(),
        0 <= i <= r.requests.len(),
    ensures
        bounded(r.states[i], r.counters[i].next),
        distinct(r.states[i]),
        remembered(r, i),
        apart(r, i),
        counted(r, i),
    decreases i,
{
    let names = class_names(r.requests.take(i));
    if i == 0 {
        assert(r.requests.take(0) == Seq::<Request>::empty());
    } else {
        run_keeps(r, i - 1);
        let before = r.states[i - 1];
        let after = r.states[i];
        let handle = r.handles[i - 1];
        let earlier = class_names(r.requests.take(i - 1));
        assert(r.requests.take(i).drop_last() == r.requests.take(i - 1));
        assert(r.step(i - 1));
        match r.requests[i - 1] {
            Request::Class(name) => {
                if before.has_class(name) {
                    assert(earlier.contains(name));
                    assert(names == earlier);
                } else {
                    assert(!earlier.contains(name));
                    assert forall|n: Seq<char>| #[trigger] names.contains(n) <==> after.has_class(
                        n,
                    ) by {
                        if n == name {
                            assert(after.class_is(handle, name));
                        } else {
                            if after.has_class(n) {
                                let h = choose|h: u64| #[trigger] after.class_is(h, n);
                                assert(before.class_is(h, n));
                            }
                            if before.has_class(n) {
                                let h = choose|h: u64| #[trigger] before.class_is(h, n);
                                assert(after.class_is(h, n));
                            }
                            assert(earlier.contains(n) <==> before.has_class(n));
                        }
                    }
                    assert forall|a: u64| #[trigger] before.classes.contains_key(a) implies
                        before.classes[a] != name by {
                        assert(!before.class_is(a, name));
                    }
                }
            },
            _ => {
                assert(names == earlier);
                assert forall|n: Seq<char>| #[trigger] names.contains(n) <==> after.has_class(
                    n,
                ) by {
                    assert(earlier.contains(n) <==> before.has_class(n));
                    if after.has_class(n) {
                        let h = choose|h: u64| #[trigger] after.class_is(h, n);
                        assert(before.class_is(h, n));
                    }
                    if before.has_class(n) {
                        let h = choose|h: u64| #[trigger] before.class_is(h, n);
                        assert(after.class_is(h, n));
                    }
                }
            },
        }
    }
}

/// However often and in whatever order classes are asked for, two handles are the same exactly
/// where the names are; no name stands under two handles; and there are as many classes as there
/// were different names.
pub proof fn law_classes_are_interned(r: Run, i: int, j: int)
    requires
        r.wf(),
        0 <= i < r.requests.len(),
        0 <= j < r.requests.len(),
    ensures
        r.requests[i] matches Request::Class(a) ==> (r.requests[j] matches Request::Class(b) ==> ((
        r.handles[i] == r.handles[j]) <==> a == b)),
        r.requests[i] matches Request::Class(a) ==> r.end().class_is(r.handles[i], a),
        forall|name: Seq<char>| #[trigger] r.end().one_class(name),
        forall|name: Seq<char>| #[trigger]
            class_names(r.requests).contains(name) <==> r.end().has_class(name),
        r.end().classes.dom().len() == class_names(r.requests).len(),
{
    let n = r.requests.len() as int;
    run_keeps(r, n);
    assert(r.requests.take(n) == r.requests);
    assert forall|name: Seq<char>| #[trigger] r.end().one_class(name) by {
        assert forall|a: u64, b: u64| #[trigger]
            r.end().class_is(a, name) && #[trigger] r.end().class_is(b, name) implies a == b by {
            assert(r.end().classes[a] == r.end().classes[b]);
        }
    }
    if let Request::Class(a) = r.requests[i] {
        assert(r.end().class_is(r.handles[i], a));
        if let Request::Class(b) = r.requests[j] {
            assert(r.end().class_is(r.handles[j], b));
            if a == b {
                assert(r.end().classes[r.handles[i]] == r.end().classes[r.handles[j]]);
            }
        }
    }
}

/// However often and in whatever order methods are asked for, two handles are the same exactly
/// where class, name and signature are, and no handle of a method is one of a class.
pub proof fn law_methods_are_interned(r: Run, i: int, j: int)
    requires
        r.wf(),
        0 <= i < r.requests.len(),
        0 <= j < r.requests.len(),
    ensures
        r.requests[i] matches Request::Method(a) ==> (r.requests[j] matches Request::Method(b)
            ==> ((r.handles[i] == r.handles[j]) <==> a == b)),
        r.requests[i] matches Request::Method(a) ==> r.end().methods.contains_key(a)
            && r.end().methods[a] == r.handles[i],
        r.requests[i] is Method && r.requests[j] is Class ==> r.handles[i] != r.handles[j],
{
    run_keeps(r, r.requests.len() as int);
    if let Request::Method(a) = r.requests[i] {
        assert(r.end().methods[a] == r.handles[i]);
        if let Request::Method(b) = r.requests[j] {
            assert(r.end().methods[b] == r.handles[j]);
        }
        if let Request::Class(b) = r.requests[j] {
            assert(r.end().class_is(r.handles[j], b));
            assert(r.end().methods.contains_key(a));
        }
    }
}

/// A handle that was given for anything else stands for no class and no method, and was given
/// once.
pub proof fn law_other_handles_stand_alone(r: Run, i: int, j: int)
    requires
        r.wf(),
        0 <= i < r.requests.len(),
        0 <= j < r.requests.len(),
        i != j,
    ensures
        r.requests[i] is Other ==> r.handles[i] != r.handles[j],
{
    run_keeps(r, r.requests.len() as int);
    if r.requests[i] is Other {
        match r.requests[j] {
            Request::Class(b) => {
                assert(r.end().class_is(r.handles[j], b));
            },
            Request::Method(b) => {
                assert(r.end().methods.contains_key(b));
            },
            Request::Other => {},
        }
    }
}

} // verus!
