//! The classes, methods and strings that the VM knows.
use crate::jvm::handles::{alloc_handle, HandleAllocator};
use crate::jvm::registry::{MethodEntry, MethodTable, NativeTable};
use crate::text;
use std::collections::HashMap;
use vstd::prelude::*;

verus! {

broadcast use vstd::std_specs::hash::group_hash_axioms;

/// Where the JavaVM structure stands in guest memory.
pub const JAVAVM_STRUCT_ADDR: u64 = 0x7f04_0000;

/// Where the JNIEnv structure stands in guest memory.
pub const JNIENV_STRUCT_ADDR: u64 = 0x7f05_0000;

/// What a `JvmState` holds.
#[verifier::ext_equal]
pub struct JvmModel {
    pub classes: Map<u64, Seq<char>>,
    pub methods: Map<(u64, Seq<char>, Seq<char>), u64>,
    pub strings: Map<u64, Seq<char>>,
    pub native_methods: Map<(Seq<char>, Seq<char>, Seq<char>), u64>,
    pub jnienv_ptr: u64,
    pub javavm_ptr: u64,
}

/// In-memory registry of class and method handles.
#[derive(Debug)]
pub struct JvmState {
    /// jclass handle -> class name
    pub classes: HashMap<u64, String>,
    /// (jclass, method name, signature) -> jmethodID handle
    pub methods: MethodTable,
    /// jstring handle -> string content
    pub strings: HashMap<u64, String>,
    /// RegisterNatives registry: (class name, method name, signature) -> guest function pointer
    pub native_methods: NativeTable,
    /// The JNIEnv pointer (pointer-to-pointer-to-functions) in guest memory
    pub jnienv_ptr: u64,
    /// The JavaVM pointer in guest memory
    pub javavm_ptr: u64,
}

/// The texts of the strings in a map.
pub open spec fn text_map(m: Map<u64, String>) -> Map<u64, Seq<char>> {
    m.map_values(|s: String| s@)
}

impl View for JvmState {
    type V = JvmModel;

    open spec fn view(&self) -> JvmModel {
        JvmModel {
            classes: text_map(self.classes@),
            methods: self.methods@,
            strings: text_map(self.strings@),
            native_methods: self.native_methods@,
            jnienv_ptr: self.jnienv_ptr,
            javavm_ptr: self.javavm_ptr,
        }
    }
}

impl JvmModel {
    /// A VM that knows nothing yet.
    pub open spec fn initial() -> JvmModel {
        JvmModel {
            classes: Map::empty(),
            methods: Map::empty(),
            strings: Map::empty(),
            native_methods: Map::empty(),
            jnienv_ptr: JNIENV_STRUCT_ADDR,
            javavm_ptr: JAVAVM_STRUCT_ADDR,
        }
    }

    /// `handle` is a class of this name.
    pub open spec fn class_is(self, handle: u64, name: Seq<char>) -> bool {
        self.classes.contains_key(handle) && self.classes[handle] == name
    }

    /// Some class has this name.
    pub open spec fn has_class(self, name: Seq<char>) -> bool {
        exists|handle: u64| #[trigger] self.class_is(handle, name)
    }

    /// No two classes have this name.
    pub open spec fn one_class(self, name: Seq<char>) -> bool {
        forall|a: u64, b: u64| #[trigger]
            self.class_is(a, name) && #[trigger] self.class_is(b, name) ==> a == b
    }

    /// The state with one more class.
    pub open spec fn with_class(self, handle: u64, name: Seq<char>) -> JvmModel {
        JvmModel { classes: self.classes.insert(handle, name), ..self }
    }

    /// The state with one more method.
    pub open spec fn with_method(
        self,
        key: (u64, Seq<char>, Seq<char>),
        handle: u64,
    ) -> JvmModel {
        JvmModel { methods: self.methods.insert(key, handle), ..self }
    }

    /// The state with one more string.
    pub open spec fn with_string(self, handle: u64, content: Seq<char>) -> JvmModel {
        JvmModel { strings: self.strings.insert(handle, content), ..self }
    }

    /// The state with a native method registered.
    pub open spec fn with_native(
        self,
        key: (Seq<char>, Seq<char>, Seq<char>),
        fn_ptr: u64,
    ) -> JvmModel {
        JvmModel { native_methods: self.native_methods.insert(key, fn_ptr), ..self }
    }

    /// Every handle in the state lies below `next`.
    pub open spec fn below(self, next: u64) -> bool {
        &&& forall|h: u64| #[trigger] self.classes.contains_key(h) ==> h < next
        &&& forall|h: u64| #[trigger] self.strings.contains_key(h) ==> h < next
        &&& forall|k: (u64, Seq<char>, Seq<char>)| #[trigger]
            self.methods.contains_key(k) ==> self.methods[k] < next
    }

    /// `handle` is what interning the class `name` gives: a class of that name where
    /// there is one, and else a new handle that becomes that class.
    pub open spec fn interns_class(
        self,
        name: Seq<char>,
        handles: HandleAllocator,
        handle: u64,
        after: JvmModel,
        handles_after: HandleAllocator,
    ) -> bool {
        if self.has_class(name) {
            self.class_is(handle, name) && after == self && handles_after == handles
        } else {
            handle == handles.next && after == self.with_class(handle, name) && handles_after
                == handles.advanced()
        }
    }

    /// `handle` is what interning the method `key` gives: its handle where it has one,
    /// and else a new handle that becomes that method.
    pub open spec fn interns_method(
        self,
        key: (u64, Seq<char>, Seq<char>),
        handles: HandleAllocator,
        handle: u64,
        after: JvmModel,
        handles_after: HandleAllocator,
    ) -> bool {
        if self.methods.contains_key(key) {
            handle == self.methods[key] && after == self && handles_after == handles
        } else {
            handle == handles.next && after == self.with_method(key, handle) && handles_after
                == handles.advanced()
        }
    }
}

impl JvmState {
    /// The method tables hold no key twice.
    pub open spec fn wf(self) -> bool {
        self.methods.wf() && self.native_methods.wf()
    }

    /// A VM that knows nothing yet.
    pub fn new() -> (r: Self)
        ensures
            r.wf(),
            r@ == JvmModel::initial(),
    {
        let r = JvmState {
            classes: HashMap::new(),
            methods: MethodTable::new(),
            strings: HashMap::new(),
            native_methods: NativeTable::new(),
            jnienv_ptr: JNIENV_STRUCT_ADDR,
            javavm_ptr: JAVAVM_STRUCT_ADDR,
        };
        assert(r@ =~= JvmModel::initial());
        r
    }

    /// A class of this name, where there is one.
    pub fn find_class(&self, name: &str) -> (r: Option<u64>)
        ensures
            match r {
                Some(handle) => self@.class_is(handle, name@),
                None => !self@.has_class(name@),
            },
    {
        for (h, n) in it: self.classes.iter()
            invariant
                forall|i: int|
                    0 <= i < it.index() ==> (#[trigger] it.seq()[i]).1@ != name@,
                forall|k: u64| #[trigger]
                    self.classes@.contains_key(k) ==> it.seq().contains((&k, &self.classes@[k])),
                forall|i: int|
                    0 <= i < it.seq().len() ==> self.classes@.contains_key(
                        *(#[trigger] it.seq()[i]).0,
                    ) && self.classes@[*it.seq()[i].0] == *it.seq()[i].1,
        {
            if text::same_text(n.as_str(), name) {
                assert(self@.class_is(*h, name@));
                return Some(*h);
            }
        }
        assert(!self@.has_class(name@));
        None
    }

    /// Puts a class into the registry.
    pub fn insert_class(&mut self, handle: u64, name: &str)
        ensures
            final(self)@ == old(self)@.with_class(handle, name@),
            old(self).wf() ==> final(self).wf(),
    {
        self.classes.insert(handle, name.to_owned());
        assert(text_map(self.classes@) =~= text_map(old(self).classes@).insert(handle, name@));
    }

    /// Intern a class name and return its handle.
    pub fn get_or_create_class(&mut self, name: &str, handles: &mut HandleAllocator) -> (r: u64)
        requires
            old(self)@.has_class(name@) || old(handles).room(),
        ensures
            old(self)@.interns_class(name@, *old(handles), r, final(self)@, *final(handles)),
            old(self).wf() ==> final(self).wf(),
    {
        match self.find_class(name) {
            Some(h) => h,
            None => {
                let h: u64 = alloc_handle(handles);
                self.insert_class(h, name);
                h
            },
        }
    }

    /// Intern a method and return its handle.
    pub fn get_or_create_method(
        &mut self,
        class: u64,
        name: &str,
        sig: &str,
        handles: &mut HandleAllocator,
    ) -> (r: u64)
        requires
            old(self).wf(),
            old(self)@.methods.contains_key((class, name@, sig@)) || old(handles).room(),
        ensures
            final(self).wf(),
            old(self)@.interns_method(
                (class, name@, sig@),
                *old(handles),
                r,
                final(self)@,
                *final(handles),
            ),
    {
        match self.methods.get(class, name, sig) {
            Some(h) => h,
            None => {
                let h: u64 = alloc_handle(handles);
                let entry = MethodEntry {
                    class,
                    name: name.to_owned(),
                    sig: sig.to_owned(),
                    handle: h,
                };
                self.methods.insert(entry);
                h
            },
        }
    }

    /// Puts a string into the registry.
    pub fn insert_string(&mut self, handle: u64, content: String)
        ensures
            final(self)@ == old(self)@.with_string(handle, content@),
            old(self).wf() ==> final(self).wf(),
    {
        let ghost content_text = content@;
        self.strings.insert(handle, content);
        assert(text_map(self.strings@) =~= text_map(old(self).strings@).insert(
            handle,
            content_text,
        ));
    }

    /// The content of a string, empty where the handle is none.
    pub fn string_content(&self, handle: u64) -> (r: String)
        ensures
            r@ == (if self@.strings.contains_key(handle) {
                self@.strings[handle]
            } else {
                Seq::empty()
            }),
    {
        match self.strings.get(&handle) {
            Some(s) => s.clone(),
            None => String::new(),
        }
    }

    /// The name of a class; for a handle that is none, a name made from the handle.
    pub fn class_name(&self, handle: u64) -> (r: String)
        ensures
            r@ == class_name_of(self@, handle),
    {
        match self.classes.get(&handle) {
            Some(s) => s.clone(),
            None => {
                let mut r = "class_".to_owned();
                text::append(&mut r, text::hex(handle).as_str());
                r
            },
        }
    }
}

/// The name under which the methods of a class are registered.
pub open spec fn class_name_of(jvm: JvmModel, handle: u64) -> Seq<char> {
    if jvm.classes.contains_key(handle) {
        jvm.classes[handle]
    } else {
        "class_"@ + text::hex_text(handle)
    }
}

/// Interning a name twice gives the same class, and the second time changes nothing.
pub proof fn law_class_interning_is_idempotent(
    s0: JvmModel,
    s1: JvmModel,
    s2: JvmModel,
    a0: HandleAllocator,
    a1: HandleAllocator,
    a2: HandleAllocator,
    name: Seq<char>,
    first: u64,
    second: u64,
)
    requires
        s0.one_class(name),
        s0.interns_class(name, a0, first, s1, a1),
        s1.interns_class(name, a1, second, s2, a2),
    ensures
        first == second,
        s2 == s1,
        a2 == a1,
        s1.class_is(first, name),
        s1.one_class(name),
{
    assert(s1.class_is(first, name));
    assert forall|a: u64, b: u64| #[trigger]
        s1.class_is(a, name) && #[trigger] s1.class_is(b, name) implies a == b by {
        if !s0.has_class(name) {
            assert(!s0.class_is(a, name) && !s0.class_is(b, name));
        }
    }
}

/// Interning a method twice gives the same handle, and the second time changes nothing.
pub proof fn law_method_interning_is_idempotent(
    s0: JvmModel,
    s1: JvmModel,
    s2: JvmModel,
    a0: HandleAllocator,
    a1: HandleAllocator,
    a2: HandleAllocator,
    key: (u64, Seq<char>, Seq<char>),
    first: u64,
    second: u64,
)
    requires
        s0.interns_method(key, a0, first, s1, a1),
        s1.interns_method(key, a1, second, s2, a2),
    ensures
        first == second,
        s2 == s1,
        a2 == a1,
{
}

/// A class that is interned for the first time gets a handle that stands for nothing else,
/// every other entry stays as it was, and all handles stay below the next one.
pub proof fn law_new_class_is_fresh(
    s0: JvmModel,
    s1: JvmModel,
    a0: HandleAllocator,
    a1: HandleAllocator,
    name: Seq<char>,
    handle: u64,
)
    requires
        s0.below(a0.next),
        s0.has_class(name) || a0.room(),
        s0.interns_class(name, a0, handle, s1, a1),
    ensures
        s1.below(a1.next),
        !s0.has_class(name) ==> !s0.classes.contains_key(handle) && !s0.strings.contains_key(
            handle,
        ),
        forall|h: u64| #[trigger]
            s0.classes.contains_key(h) ==> s1.class_is(h, s0.classes[h]),
        s1.methods == s0.methods && s1.strings == s0.strings,
{
}

/// A method that is interned for the first time gets a handle that stands for nothing else,
/// every other entry stays as it was, and all handles stay below the next one.
pub proof fn law_new_method_is_fresh(
    s0: JvmModel,
    s1: JvmModel,
    a0: HandleAllocator,
    a1: HandleAllocator,
    key: (u64, Seq<char>, Seq<char>),
    handle: u64,
)
    requires
        s0.below(a0.next),
        s0.methods.contains_key(key) || a0.room(),
        s0.interns_method(key, a0, handle, s1, a1),
    ensures
        s1.below(a1.next),
        !s0.methods.contains_key(key) ==> forall|k: (u64, Seq<char>, Seq<char>)| #[trigger]
            s0.methods.contains_key(k) ==> s0.methods[k] != handle,
        forall|k: (u64, Seq<char>, Seq<char>)| #[trigger]
            s0.methods.contains_key(k) ==> s1.methods.contains_key(k) && s1.methods[k]
                == s0.methods[k],
        s1.classes == s0.classes && s1.strings == s0.strings,
{
}

} // verus!
