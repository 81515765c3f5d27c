//! Tables of methods, keyed by the class they belong to, their name and their signature.
use crate::text;
use vstd::prelude::*;

verus! {

/// A method that has been looked up, with its handle.
#[derive(Debug)]
pub struct MethodEntry {
    pub class: u64,
    pub name: String,
    pub sig: String,
    pub handle: u64,
}

/// A method that a library has registered, with the guest function behind it.
#[derive(Debug)]
pub struct NativeMethod {
    pub class: String,
    pub name: String,
    pub sig: String,
    pub fn_ptr: u64,
}

impl MethodEntry {
    /// What the entry is found by: class handle, name and signature.
    pub open spec fn key(self) -> (u64, Seq<char>, Seq<char>) {
        (self.class, self.name@, self.sig@)
    }
}

impl NativeMethod {
    /// What the entry is found by: class name, name and signature.
    pub open spec fn key(self) -> (Seq<char>, Seq<char>, Seq<char>) {
        (self.class@, self.name@, self.sig@)
    }
}

/// The methods that have been looked up.
#[derive(Debug)]
pub struct MethodTable {
    pub entries: Vec<MethodEntry>,
}

/// The methods that libraries have registered.
#[derive(Debug)]
pub struct NativeTable {
    pub entries: Vec<NativeMethod>,
}

/// Entry `i` is the one with this key.
pub open spec fn method_at(
    entries: Seq<MethodEntry>,
    i: int,
    key: (u64, Seq<char>, Seq<char>),
) -> bool {
    0 <= i < entries.len() && entries[i].key() == key
}

/// Entry `i` is the one with this key.
pub open spec fn native_at(
    entries: Seq<NativeMethod>,
    i: int,
    key: (Seq<char>, Seq<char>, Seq<char>),
) -> bool {
    0 <= i < entries.len() && entries[i].key() == key
}

impl View for MethodTable {
    type V = Map<(u64, Seq<char>, Seq<char>), u64>;

    open spec fn view(&self) -> Map<(u64, Seq<char>, Seq<char>), u64> {
        Map::new(
            |key: (u64, Seq<char>, Seq<char>)| exists|i: int| #[trigger] method_at(
                self.entries@,
                i,
                key,
            ),
            |key: (u64, Seq<char>, Seq<char>)|
                self.entries@[choose|i: int| #[trigger] method_at(self.entries@, i, key)].handle,
        )
    }
}

impl View for NativeTable {
    type V = Map<(Seq<char>, Seq<char>, Seq<char>), u64>;

    open spec fn view(&self) -> Map<(Seq<char>, Seq<char>, Seq<char>), u64> {
        Map::new(
            |key: (Seq<char>, Seq<char>, Seq<char>)| exists|i: int| #[trigger] native_at(
                self.entries@,
                i,
                key,
            ),
            |key: (Seq<char>, Seq<char>, Seq<char>)|
                self.entries@[choose|i: int| #[trigger] native_at(self.entries@, i, key)].fn_ptr,
        )
    }
}

impl MethodTable {
    /// No key occurs twice.
    pub open spec fn wf(self) -> bool {
        forall|i: int, j: int|
            0 <= i < j < self.entries@.len() ==> #[trigger] self.entries@[i].key()
                != #[trigger] self.entries@[j].key()
    }

    /// A table without entries.
    pub fn new() -> (r: Self)
        ensures
            r.wf(),
            r@ == Map::<(u64, Seq<char>, Seq<char>), u64>::empty(),
    {
        MethodTable { entries: Vec::new() }
    }

    /// The handle of a method, where the method has been looked up before.
    pub fn get(&self, class: u64, name: &str, sig: &str) -> (r: Option<u64>)
        requires
            self.wf(),
        ensures
            match r {
                Some(handle) => self@.contains_key((class, name@, sig@)) && self@[(
                    class,
                    name@,
                    sig@,
                )] == handle,
                None => !self@.contains_key((class, name@, sig@)),
            },
    {
        let ghost key = (class, name@, sig@);
        let mut i: usize = 0;
        while i < self.entries.len()
            invariant
                i <= self.entries.len(),
                self.wf(),
                key == (class, name@, sig@),
                forall|k: int| 0 <= k < i ==> !#[trigger] method_at(self.entries@, k, key),
            decreases self.entries.len() - i,
        {
            let e = &self.entries[i];
            if e.class == class && text::same_text(e.name.as_str(), name) && text::same_text(
                e.sig.as_str(),
                sig,
            ) {
                assert(method_at(self.entries@, i as int, key));
                return Some(e.handle);
            }
            i = i + 1;
        }
        assert(!self@.contains_key(key));
        None
    }

    /// Puts a method that is not there yet into the table.
    pub fn insert(&mut self, entry: MethodEntry)
        requires
            old(self).wf(),
            !old(self)@.contains_key(entry.key()),
        ensures
            final(self).wf(),
            final(self)@ == old(self)@.insert(entry.key(), entry.handle),
    {
        let ghost before = self.entries@;
        let ghost key = entry.key();
        let ghost handle = entry.handle;
        self.entries.push(entry);
        proof {
            let after = self.entries@;
            assert(forall|i: int| !#[trigger] method_at(before, i, key));
            assert forall|i: int, j: int| 0 <= i < j < after.len() implies #[trigger] after[i].key()
                != #[trigger] after[j].key() by {
                assert(!method_at(before, i, key));
            }
            assert(method_at(after, before.len() as int, key));
            let updated = old(self)@.insert(key, handle);
            assert forall|k: (u64, Seq<char>, Seq<char>)|
                #![trigger self@.dom().contains(k)]
                #![trigger updated.dom().contains(k)]
                self@.dom().contains(k) == updated.dom().contains(k) && (self@.dom().contains(k)
                    ==> self@[k] == updated[k]) by {
                if k != key {
                    assert(forall|i: int| #[trigger]
                        method_at(after, i, k) == method_at(before, i, k));
                    if exists|i: int| method_at(before, i, k) {
                        let i = choose|i: int| method_at(before, i, k);
                        assert(method_at(after, i, k));
                    }
                }
            }
            assert(self@ =~= updated);
        }
    }
}

impl NativeTable {
    /// No key occurs twice.
    pub open spec fn wf(self) -> bool {
        forall|i: int, j: int|
            0 <= i < j < self.entries@.len() ==> #[trigger] self.entries@[i].key()
                != #[trigger] self.entries@[j].key()
    }

    /// A table without entries.
    pub fn new() -> (r: Self)
        ensures
            r.wf(),
            r.entries@.len() == 0,
            r@ == Map::<(Seq<char>, Seq<char>, Seq<char>), u64>::empty(),
    {
        NativeTable { entries: Vec::new() }
    }

    /// The function behind a registered method.
    pub fn get(&self, class: &str, name: &str, sig: &str) -> (r: Option<u64>)
        requires
            self.wf(),
        ensures
            match r {
                Some(fn_ptr) => self@.contains_key((class@, name@, sig@)) && self@[(
                    class@,
                    name@,
                    sig@,
                )] == fn_ptr,
                None => !self@.contains_key((class@, name@, sig@)),
            },
    {
        match self.find(class, name, sig) {
            Some(i) => {
                assert(native_at(self.entries@, i as int, (class@, name@, sig@)));
                Some(self.entries[i].fn_ptr)
            },
            None => {
                assert(!self@.contains_key((class@, name@, sig@)));
                None
            },
        }
    }

    /// The position of the entry with this key.
    fn find(&self, class: &str, name: &str, sig: &str) -> (r: Option<usize>)
        ensures
            match r {
                Some(i) => native_at(self.entries@, i as int, (class@, name@, sig@)),
                None => forall|i: int|
                    !#[trigger] native_at(self.entries@, i, (class@, name@, sig@)),
            },
    {
        let ghost key = (class@, name@, sig@);
        let mut i: usize = 0;
        while i < self.entries.len()
            invariant
                i <= self.entries.len(),
                key == (class@, name@, sig@),
                forall|k: int| 0 <= k < i ==> !#[trigger] native_at(self.entries@, k, key),
            decreases self.entries.len() - i,
        {
            let e = &self.entries[i];
            if text::same_text(e.class.as_str(), class) && text::same_text(e.name.as_str(), name)
                && text::same_text(e.sig.as_str(), sig) {
                return Some(i);
            }
            i = i + 1;
        }
        None
    }

    /// Registers a method, in place of an earlier registration under the same key.
    pub fn insert(&mut self, entry: NativeMethod)
        requires
            old(self).wf(),
        ensures
            final(self).wf(),
            final(self)@ == old(self)@.insert(entry.key(), entry.fn_ptr),
    {
        let ghost before = self.entries@;
        let ghost key = entry.key();
        let ghost fn_ptr = entry.fn_ptr;
        let place = self.find(entry.class.as_str(), entry.name.as_str(), entry.sig.as_str());
        let ghost p: int = match place {
            Some(i) => i as int,
            None => before.len() as int,
        };
        match place {
            Some(i) => {
                self.entries[i] = entry;
            },
            None => {
                self.entries.push(entry);
            },
        }
        proof {
            let after = self.entries@;
            assert(forall|i: int| 0 <= i < before.len() && i != p ==> after[i] == before[i]);
            assert(after[p] == entry);
            assert forall|i: int|
                0 <= i < before.len() && i != p implies #[trigger] before[i].key() != key by {
                assert(native_at(before, i, key) ==> place is Some);
            }
            assert forall|i: int, j: int| 0 <= i < j < after.len() implies #[trigger] after[i].key()
                != #[trigger] after[j].key() by {
                if i == p {
                    assert(before[j].key() != key);
                } else if j == p {
                    assert(before[i].key() != key);
                } else {
                    assert(before[i].key() != before[j].key());
                }
            }
            assert(native_at(after, p, key));
            let updated = old(self)@.insert(key, fn_ptr);
            assert forall|k: (Seq<char>, Seq<char>, Seq<char>)|
                #![trigger self@.dom().contains(k)]
                #![trigger updated.dom().contains(k)]
                self@.dom().contains(k) == updated.dom().contains(k) && (self@.dom().contains(k)
                    ==> self@[k] == updated[k]) by {
                if k == key {
                    let i = choose|i: int| native_at(after, i, k);
                    assert(native_at(after, i, k));
                    if i < p {
                        assert(after[i].key() != after[p].key());
                    } else if i > p {
                        assert(after[p].key() != after[i].key());
                    }
                } else {
                    assert(forall|i: int| #[trigger]
                        native_at(after, i, k) == native_at(before, i, k));
                    if exists|i: int| native_at(before, i, k) {
                        let i = choose|i: int| native_at(before, i, k);
                        assert(native_at(after, i, k));
                    }
                }
            }
            assert(self@ =~= updated);
        }
    }

    /// The number of registered methods.
    pub fn len(&self) -> (r: usize)
        requires
            self.wf(),
        ensures
            r == self.entries@.len(),
            r == self@.dom().len(),
    {
        proof {
            let keys = self.entries@.map_values(|e: NativeMethod| e.key());
            assert(keys.no_duplicates());
            keys.unique_seq_to_set();
            assert forall|k: (Seq<char>, Seq<char>, Seq<char>)| #[trigger]
                self@.dom().contains(k) == keys.to_set().contains(k) by {
                if exists|i: int| native_at(self.entries@, i, k) {
                    let i = choose|i: int| native_at(self.entries@, i, k);
                    assert(keys[i] == k);
                }
                if keys.contains(k) {
                    let i = choose|i: int| 0 <= i < keys.len() && keys[i] == k;
                    assert(native_at(self.entries@, i, k));
                }
            }
            assert(self@.dom() =~= keys.to_set());
        }
        self.entries.len()
    }
}

} // verus!
