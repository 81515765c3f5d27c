//! Where the VM stands in guest memory, and what its registries keep, said in addresses, texts and
//! maps alone.
use crate::bytes;
use crate::jvm::activity;
use crate::jvm::cstring;
use crate::jvm::cstring::{ByteRequest, ReaderModel, StringStore};
use crate::jvm::guest;
use crate::jvm::handles;
use crate::jvm::handles::{HandleAllocator, ScratchAllocator};
use crate::jvm::jni_stubs;
use crate::jvm::memory;
use crate::jvm::memory::SetupOp;
use crate::jvm::registry;
use crate::jvm::registry::{MethodEntry, MethodTable, NativeMethod, NativeTable};
use crate::jvm::state;
use crate::jvm::state::{JvmModel, JvmState};
use crate::text;
use vstd::prelude::*;
use vstd::utf8::*;

verus! {

/// After the setup the JavaVM stands at 0x7f04_0000 and the JNIEnv at 0x7f05_0000, each with its
/// table right behind it. The entry for each slot is the address of the slot's thunk, eight bytes
/// from 0x7f10_0000 on for a JNIEnv function and from 0x7f11_0000 on for a JavaVM function. At
/// 0x7f06_0000 stands the storage of the thread, with itself, its `errno`, the JNIEnv and the
/// stack guard.
pub proof fn law_vm_stands_at_fixed_addresses(
    required: bool,
    m: Map<int, u8>,
    mapped: spec_fn(Map<int, u8>, u64, u64) -> Map<int, u8>,
    slot: int,
)
    ensures
        ({
            let after = memory::after_setup(memory::setup_ops(required), m, mapped);
            &&& guest::word_is(after, 0x7f04_0000, 0x7f04_0008)
            &&& guest::word_is(after, 0x7f05_0000, 0x7f05_0008)
            &&& 3 <= slot < 8 ==> guest::word_is(
                after,
                0x7f04_0008 + 8 * slot,
                0x7f11_0000 + 8 * slot,
            )
            &&& 0 <= slot < 232 ==> guest::word_is(
                after,
                0x7f05_0008 + 8 * slot,
                0x7f10_0000 + 8 * slot,
            )
            &&& guest::word_is(after, 0x7f06_0000, 0x7f06_0000)
            &&& guest::word_is(after, 0x7f06_0008, 0x7f06_0000)
            &&& guest::word_is(after, 0x7f06_0010, 0x7f06_0080)
            &&& guest::word_is(after, 0x7f06_0028, 0x7f05_0000)
            &&& guest::word_is(after, 0x7f06_0038, 0xdead_beef_cafe_babe)
        }),
{
    memory::law_setup_writes_the_vm(required, m, mapped);
    if 3 <= slot < 8 {
        assert(jni_stubs::javavm_thunk(slot) == 0x7f11_0000 + 8 * slot);
    }
    if 0 <= slot < 232 {
        assert(jni_stubs::jnienv_thunk(slot) == 0x7f10_0000 + 8 * slot);
    }
}

/// The setup first maps the pages of the structures, of the thunks and of the handles, and the
/// page at address zero, and then only stores words. Of those only the two that stand in the
/// structures can be required, and both are required or neither.
pub proof fn law_setup_maps_and_then_stores(required: bool, i: int)
    requires
        0 <= i < memory::setup_ops(required).len(),
    ensures
        ({
            let ops = memory::setup_ops(required);
            let pages = seq![
                (0x7f04_0000u64, 0x1000u64),
                (0x7f05_0000, 0x1000),
                (0x7f05_0008, 0x1000),
                (0x7f06_0000, 0x1000),
                (0x7f10_0000, 0x2000),
                (0x7f11_0000, 0x1000),
                (0x7f20_0000, 0x1_0000),
                (0, 0x1000),
            ];
            &&& i < 8 ==> ops[i] == (SetupOp::MapPages { addr: pages[i].0, size: pages[i].1 })
            &&& i >= 8 ==> (ops[i] matches SetupOp::StoreWord { addr, required: must, .. } && must
                == (required && (addr == 0x7f04_0000 || addr == 0x7f05_0000)))
            &&& ops.len() == 252
        }),
{
    let ops = memory::setup_ops(required);
    if i >= 20 {
        assert(ops[i] == memory::jnienv_op(i - 20));
    }
}

/// Outside the storage of the thread, the JavaVM and the JNIEnv with their tables, the setup only
/// does what mapping the pages does.
pub proof fn law_setup_stays_within_its_structures(
    required: bool,
    m: Map<int, u8>,
    mapped: spec_fn(Map<int, u8>, u64, u64) -> Map<int, u8>,
    a: int,
)
    requires
        !(0x7f06_0000 <= a < 0x7f06_0040),
        !(0x7f04_0000 <= a < 0x7f04_0048),
        !(0x7f05_0000 <= a < 0x7f05_0748),
    ensures
        ({
            let before = memory::after_setup(memory::setup_ops(required).take(8), m, mapped);
            let after = memory::after_setup(memory::setup_ops(required), m, mapped);
            after.contains_key(a) == before.contains_key(a) && (before.contains_key(a) ==> after[a]
                == before[a])
        }),
{
    memory::law_setup_leaves_the_rest(required, m, mapped, a);
    assert(memory::setup_ops(required).take(8) == memory::page_ops());
}

/// Handles begin at 0x7f20_0000 and stand 128 bytes apart, up to the end of the address space.
pub proof fn law_handles_stand_128_bytes_apart(handles: HandleAllocator, n: nat)
    ensures
        handles.room() <==> handles.next + 128 <= u64::MAX,
        handles.room() ==> handles.advanced().next == handles.next + 128,
        0x7f20_0000 + 128 * (n + 1) <= u64::MAX ==> handles::nth_handle(n) == 0x7f20_0000 + 128 * n,
{
    if 0x7f20_0000 + 128 * (n + 1) <= u64::MAX {
        handles::law_handles_from_the_first(n, n + 1);
        handles::law_handles_stand_apart(
            HandleAllocator { next: handles::JNI_HANDLES_BASE_ADDR },
            n,
            n + 1,
        );
    }
}

/// Scratch memory begins at 0x7f20_0000, and any number of bytes can be had of it that leaves its
/// end within the address space.
pub proof fn law_scratch_memory_is_bounded(scratch: ScratchAllocator, size: int)
    ensures
        scratch.wf() <==> scratch.next >= 0x7f20_0000,
        scratch.room(size) <==> scratch.next + size <= u64::MAX,
{
}

/// Bytes that stand in guest memory from `addr` on, all of them readable.
pub open spec fn stands_at(m: Map<int, u8>, addr: int, b: Seq<u8>) -> bool {
    forall|a: int|
        addr <= a < addr + b.len() ==> #[trigger] m.contains_key(a) && m[a] == b[a - addr]
}

proof fn string_bytes_stand(m: Map<int, u8>, addr: int, b: Seq<u8>, limit: nat)
    requires
        b.len() <= limit,
        stands_at(m, addr, b),
        !b.contains(0u8),
        b.len() == limit || !m.contains_key(addr + b.len()) || m[addr + b.len()] == 0,
    ensures
        cstring::string_bytes(m, addr, limit) == b,
    decreases limit,
{
    if b.len() > 0 {
        let rest = b.skip(1);
        assert(m.contains_key(addr));
        assert(m[addr] == b[addr - addr]);
        assert(b.contains(b[0]));
        let next = addr + 1;
        assert forall|a: int| next <= a < next + rest.len() implies #[trigger] m.contains_key(a)
            && m[a] == rest[a - next] by {
            assert(rest[a - next] == b[a - addr]);
        }
        assert(!rest.contains(0u8)) by {
            if rest.contains(0u8) {
                let i = choose|i: int| 0 <= i < rest.len() && rest[i] == 0u8;
                assert(b[i + 1] == 0u8);
            }
        }
        string_bytes_stand(m, next, rest, (limit - 1) as nat);
        assert(seq![b[0]] + rest == b);
    }
}

/// A reader takes the bytes that stand at its address up to a zero, to the end of readable memory
/// or to the 256th, and gives the text that they are in UTF-8. It gives none for no bytes, for
/// bytes that are not UTF-8, and for an address below 0x1000, at which it reads nothing.
pub proof fn law_reader_takes_the_bytes_at_its_address(m: Map<int, u8>, addr: u64, b: Seq<u8>)
    requires
        b.len() <= 256,
        addr + 256 <= u64::MAX,
        stands_at(m, addr as int, b),
        !b.contains(0u8),
        b.len() == 256 || !m.contains_key(addr + b.len()) || m[addr + b.len()] == 0,
    ensures
        ({
            let end = cstring::driven(ReaderModel::starting_at(addr), m, 256);
            &&& end.request() == ByteRequest::Finished
            &&& addr >= 0x1000 && b.len() > 0 && valid_utf8(b) ==> end.result() == Some(
                decode_utf8(b),
            )
            &&& addr < 0x1000 || b.len() == 0 || !valid_utf8(b) ==> end.result() is None
            &&& addr < 0x1000 ==> ReaderModel::starting_at(addr).request() == ByteRequest::Finished
        }),
{
    string_bytes_stand(m, addr as int, b, 256);
    cstring::law_reader_reads_the_string(m, addr);
}

/// A reader asks for one byte after the other from its address on, and for none behind the end of
/// the address space.
pub proof fn law_reader_asks_for_the_next_byte(r: ReaderModel, reply: Option<u8>)
    ensures
        !r.ended && r.read.len() < 256 && r.addr + r.read.len() <= u64::MAX ==> r.request()
            == ByteRequest::Byte((r.addr + r.read.len()) as u64),
        !r.ended && r.read.len() < 256 && r.addr + r.read.len() > u64::MAX ==> r.request()
            == ByteRequest::PastEnd,
        r.ended || r.read.len() >= 256 ==> r.request() == ByteRequest::Finished,
        (reply matches Some(b) && b != 0) ==> r.after(reply).read == r.read.push(reply->0)
            && r.after(reply).ended == r.ended,
        reply is None || reply == Some(0u8) ==> r.after(reply).read == r.read && r.after(
            reply,
        ).ended,
        r.after(reply).addr == r.addr,
{
}

/// A word is read from exactly eight bytes, the least significant first; anything else is zero.
pub proof fn law_words_are_eight_bytes(reply: Option<Seq<u8>>, v: u64)
    ensures
        reply is None ==> cstring::word_in(reply) == 0,
        (reply matches Some(b) && b.len() != 8) ==> cstring::word_in(reply) == 0,
        cstring::word_in(Some(bytes::word_bytes(v))) == v,
        (reply matches Some(b) && b.len() == 8) ==> ({
            let b = reply->0;
            cstring::word_in(reply) == b[0] + 256 * (b[1] + 256 * (b[2] + 256 * (b[3] + 256 * (b[4]
                + 256 * (b[5] + 256 * (b[6] + 256 * b[7]))))))
        }),
{
    bytes::law_word_round_trip(v);
}

/// A string is put at its address with a zero behind it, on whole pages of 4096 bytes from the
/// page of the address on, one more than its bytes fill.
pub proof fn law_strings_are_put_on_whole_pages(store: StringStore, s: Seq<char>, addr: u64)
    requires
        store.puts(s, addr),
    ensures
        store.addr == addr,
        store.bytes@ == encode_utf8(s) + seq![0u8],
        store.map_addr % 4096 == 0,
        store.map_addr <= addr < store.map_addr + 4096,
        store.map_size % 4096 == 0,
        encode_utf8(s).len() < store.map_size <= encode_utf8(s).len() + 4096,
{
    assert(store.bytes@ =~= encode_utf8(s) + seq![0u8]);
}

/// A VM that knows nothing has no class, method, string or native method, and its structures stand
/// where the setup puts them.
pub proof fn law_fresh_vm_knows_nothing(
    h: u64,
    key: (u64, Seq<char>, Seq<char>),
    native: (Seq<char>, Seq<char>, Seq<char>),
)
    ensures
        ({
            let s = JvmModel::initial();
            &&& !s.classes.contains_key(h) && !s.strings.contains_key(h)
            &&& !s.methods.contains_key(key) && !s.native_methods.contains_key(native)
            &&& s.jnienv_ptr == 0x7f05_0000 && s.javavm_ptr == 0x7f04_0000
        }),
{
}

/// What is put into one registry of the VM is there, replaces only what stood under the same key,
/// and leaves the other registries alone.
pub proof fn law_registries_keep_what_is_put_in(
    s: JvmModel,
    h: u64,
    name: Seq<char>,
    key: (u64, Seq<char>, Seq<char>),
    native: (Seq<char>, Seq<char>, Seq<char>),
)
    ensures
        s.with_class(h, name).classes == s.classes.insert(h, name),
        s.with_class(h, name).methods == s.methods && s.with_class(h, name).strings == s.strings
            && s.with_class(h, name).native_methods == s.native_methods,
        s.with_method(key, h).methods == s.methods.insert(key, h),
        s.with_method(key, h).classes == s.classes && s.with_method(key, h).strings == s.strings
            && s.with_method(key, h).native_methods == s.native_methods,
        s.with_string(h, name).strings == s.strings.insert(h, name),
        s.with_string(h, name).classes == s.classes && s.with_string(h, name).methods == s.methods
            && s.with_string(h, name).native_methods == s.native_methods,
        s.with_native(native, h).native_methods == s.native_methods.insert(native, h),
        s.with_native(native, h).classes == s.classes && s.with_native(native, h).methods
            == s.methods && s.with_native(native, h).strings == s.strings,
{
}

/// A class is asked for by its whole name: where a class has it, one that has it is given and
/// nothing changes, and where none has, the next handle is given and becomes the class.
pub proof fn law_classes_are_found_by_name(
    s0: JvmModel,
    s1: JvmModel,
    a0: HandleAllocator,
    a1: HandleAllocator,
    name: Seq<char>,
    handle: u64,
    other: u64,
)
    requires
        s0.interns_class(name, a0, handle, s1, a1),
    ensures
        s1.classes.contains_key(handle) && s1.classes[handle] == name,
        s0.classes.contains_key(other) && s0.classes[other] == name ==> s1 == s0 && a1 == a0
            && s0.classes.contains_key(handle) && s0.classes[handle] == name,
        (forall|h: u64| #[trigger] s0.classes.contains_key(h) ==> s0.classes[h] != name) ==> handle
            == a0.next && s1.classes == s0.classes.insert(handle, name),
        (forall|h: u64| #[trigger] s0.classes.contains_key(h) ==> s0.classes[h] != name)
            && a0.next + 128 <= u64::MAX ==> a1.next == a0.next + 128,
        s1.methods == s0.methods && s1.strings == s0.strings && s1.native_methods
            == s0.native_methods,
        s0.has_class(name) ==> exists|h: u64|
            s0.classes.contains_key(h) && #[trigger] s0.classes[h] == name,
        s0.classes.contains_key(other) && s0.classes[other] == name ==> s0.has_class(name),
{
    if s0.classes.contains_key(other) && s0.classes[other] == name {
        assert(s0.class_is(other, name));
    }
    if s0.has_class(name) {
        let h = choose|h: u64| #[trigger] s0.class_is(h, name);
        assert(s0.classes.contains_key(h) && s0.classes[h] == name);
    }
}

/// A method is asked for by its class, its name and its signature: where it has a handle that is
/// given and nothing changes, and where it has none, the next handle is given and becomes the
/// method.
pub proof fn law_methods_are_found_by_key(
    s0: JvmModel,
    s1: JvmModel,
    a0: HandleAllocator,
    a1: HandleAllocator,
    key: (u64, Seq<char>, Seq<char>),
    handle: u64,
)
    requires
        s0.interns_method(key, a0, handle, s1, a1),
    ensures
        s1.methods.contains_key(key) && s1.methods[key] == handle,
        s0.methods.contains_key(key) ==> handle == s0.methods[key] && s1 == s0 && a1 == a0,
        !s0.methods.contains_key(key) ==> handle == a0.next && s1.methods == s0.methods.insert(
            key,
            handle,
        ),
        !s0.methods.contains_key(key) && a0.next + 128 <= u64::MAX ==> a1.next == a0.next + 128,
        s1.classes == s0.classes && s1.strings == s0.strings && s1.native_methods
            == s0.native_methods,
{
}

/// A class goes by its name, and a handle that is no class by `class_` and its hexadecimal digits.
pub proof fn law_classes_go_by_their_names(s: JvmModel, handle: u64)
    ensures
        s.classes.contains_key(handle) ==> state::class_name_of(s, handle) == s.classes[handle],
        !s.classes.contains_key(handle) ==> state::class_name_of(s, handle) == "class_"@
            + text::hex_text(handle),
{
}

/// A VM shows its classes and strings by handle with the texts that it holds for them.
pub proof fn law_vm_shows_its_texts(s: JvmState, h: u64)
    ensures
        s@.classes.contains_key(h) <==> s.classes@.contains_key(h),
        s.classes@.contains_key(h) ==> s@.classes[h] == s.classes@[h]@,
        s@.strings.contains_key(h) <==> s.strings@.contains_key(h),
        s.strings@.contains_key(h) ==> s@.strings[h] == s.strings@[h]@,
        s@.methods == s.methods@ && s@.native_methods == s.native_methods@,
        s@.jnienv_ptr == s.jnienv_ptr && s@.javavm_ptr == s.javavm_ptr,
{
}

/// A table of methods has each of its entries under class, name and signature with its handle, and
/// nothing else.
pub proof fn law_methods_stand_under_their_keys(
    t: MethodTable,
    i: int,
    key: (u64, Seq<char>, Seq<char>),
)
    requires
        t.wf(),
    ensures
        0 <= i < t.entries@.len() ==> ({
            let e: MethodEntry = t.entries@[i];
            t@.contains_key((e.class, e.name@, e.sig@)) && t@[(e.class, e.name@, e.sig@)]
                == e.handle
        }),
        t@.contains_key(key) ==> exists|j: int|
            0 <= j < t.entries@.len() && (#[trigger] t.entries@[j]).class == key.0
                && t.entries@[j].name@ == key.1 && t.entries@[j].sig@ == key.2,
{
    if 0 <= i < t.entries@.len() {
        let e = t.entries@[i];
        let k = (e.class, e.name@, e.sig@);
        assert(registry::method_at(t.entries@, i, k));
        let j = choose|j: int| #[trigger] registry::method_at(t.entries@, j, k);
        assert(registry::method_at(t.entries@, j, k));
        assert(i < j ==> t.entries@[i].key() != t.entries@[j].key());
        assert(j < i ==> t.entries@[j].key() != t.entries@[i].key());
    }
    if t@.contains_key(key) {
        let j = choose|j: int| #[trigger] registry::method_at(t.entries@, j, key);
        assert(t.entries@[j].key() == key);
    }
}

/// A table of native methods has each of its entries under class, name and signature with its
/// function, and nothing else.
pub proof fn law_native_methods_stand_under_their_keys(
    t: NativeTable,
    i: int,
    key: (Seq<char>, Seq<char>, Seq<char>),
)
    requires
        t.wf(),
    ensures
        0 <= i < t.entries@.len() ==> ({
            let e: NativeMethod = t.entries@[i];
            t@.contains_key((e.class@, e.name@, e.sig@)) && t@[(e.class@, e.name@, e.sig@)]
                == e.fn_ptr
        }),
        t@.contains_key(key) ==> exists|j: int|
            0 <= j < t.entries@.len() && (#[trigger] t.entries@[j]).class@ == key.0
                && t.entries@[j].name@ == key.1 && t.entries@[j].sig@ == key.2,
{
    if 0 <= i < t.entries@.len() {
        let e = t.entries@[i];
        let k = (e.class@, e.name@, e.sig@);
        assert(registry::native_at(t.entries@, i, k));
        let j = choose|j: int| #[trigger] registry::native_at(t.entries@, j, k);
        assert(registry::native_at(t.entries@, j, k));
        assert(i < j ==> t.entries@[i].key() != t.entries@[j].key());
        assert(j < i ==> t.entries@[j].key() != t.entries@[i].key());
    }
    if t@.contains_key(key) {
        let j = choose|j: int| #[trigger] registry::native_at(t.entries@, j, key);
        assert(t.entries@[j].key() == key);
    }
}

/// A reader of a string shows where it reads, what it has read and whether it is at its end.
pub proof fn law_reader_shows_what_it_has_read(r: cstring::CStringReader)
    ensures
        r@.addr == r.addr,
        r@.read == r.read@,
        r@.ended == r.ended,
{
}

/// A handle that is handed out is the next one, and the one after it stands 128 bytes further on.
pub proof fn law_handles_are_handed_out_in_turn(allocator: &mut HandleAllocator, r: u64)
    requires
        call_ensures(handles::alloc_handle, (allocator,), r),
        old(allocator).next + 128 <= u64::MAX,
    ensures
        r == old(allocator).next,
        final(allocator).next == old(allocator).next + 128,
{
}

/// A string is put at the next scratch address with a zero behind it, and the next one goes right
/// behind.
pub proof fn law_strings_are_put_in_turn(s: &str, scratch: &mut ScratchAllocator, r: StringStore)
    requires
        call_ensures(cstring::write_cstring_to_mem, (s, scratch), r),
    ensures
        r.addr == old(scratch).next,
        r.bytes@ == encode_utf8(s@) + seq![0u8],
        final(scratch).next == old(scratch).next + encode_utf8(s@).len() + 1,
{
    assert(r.bytes@ =~= encode_utf8(s@) + seq![0u8]);
}

/// The setup of a fresh VM requires its two structures, and the one before a library runs does not;
/// the VM knows nothing.
pub proof fn law_setups_differ_in_what_they_require(
    fresh: (JvmState, Vec<SetupOp>),
    again: Vec<SetupOp>,
)
    requires
        call_ensures(memory::build_jvm_memory, (), fresh),
        call_ensures(memory::ensure_jvm_memory_intact, (), again),
    ensures
        fresh.0@ == JvmModel::initial(),
        fresh.1@ == memory::setup_ops(true),
        again@ == memory::setup_ops(false),
{
}

/// An Activity gets the next handle under its name, and is told of in four lines: its object, and
/// its three methods in the order of its life.
pub proof fn law_activity_lives_through_three_methods(
    name: &str,
    jvm: &mut JvmState,
    allocator: &mut HandleAllocator,
    r: Vec<String>,
)
    requires
        call_ensures(activity::dispatch_activity_lifecycle, (name, jvm, allocator), r),
        old(allocator).next + 128 <= u64::MAX,
    ensures
        final(jvm)@.classes == old(jvm)@.classes.insert(old(allocator).next, name@),
        final(jvm)@.methods == old(jvm)@.methods && final(jvm)@.strings == old(jvm)@.strings,
        final(allocator).next == old(allocator).next + 128,
        r@.len() == 4,
        r@[0]@ == "[Activity] Instantiated Activity object ("@ + name@ + ") at handle "@
            + text::hex_text(old(allocator).next),
        r@[1]@ == "[Activity] Executing "@ + name@ + ".onCreate(Bundle=NULL)..."@,
        r@[2]@ == "[Activity] Executing "@ + name@ + ".onStart()..."@,
        r@[3]@ == "[Activity] Executing "@ + name@ + ".onResume()..."@,
{
    let lines = text::texts(r@);
    assert(lines.len() == 4);
    assert(lines[0] == r@[0]@ && lines[1] == r@[1]@ && lines[2] == r@[2]@ && lines[3] == r@[3]@);
}

/// The content of a string and the name of a class are those that the VM holds; a handle that is
/// none has no content, and is named after itself.
pub proof fn law_vm_tells_names_and_contents(jvm: &JvmState, h: u64, content: String, name: String)
    requires
        call_ensures(JvmState::string_content, (jvm, h), content),
        call_ensures(JvmState::class_name, (jvm, h), name),
    ensures
        jvm@.strings.contains_key(h) ==> content@ == jvm@.strings[h],
        !jvm@.strings.contains_key(h) ==> content@.len() == 0,
        jvm@.classes.contains_key(h) ==> name@ == jvm@.classes[h],
        !jvm@.classes.contains_key(h) ==> name@ == "class_"@ + text::hex_text(h),
{
}

/// A class is given the next handle where it is not known, and its own where it is.
pub proof fn law_classes_are_created_once(
    jvm: &mut JvmState,
    name: &str,
    allocator: &mut HandleAllocator,
    r: u64,
    known: u64,
)
    requires
        call_ensures(JvmState::get_or_create_class, (jvm, name, allocator), r),
    ensures
        final(jvm)@.classes.contains_key(r) && final(jvm)@.classes[r] == name@,
        old(jvm)@.classes.contains_key(known) && old(jvm)@.classes[known] == name@ ==> final(jvm)@
            == old(jvm)@ && *final(allocator) == *old(allocator),
        final(jvm)@ != old(jvm)@ ==> r == old(allocator).next && final(jvm)@.classes
            == old(jvm)@.classes.insert(r, name@),
{
    law_classes_are_found_by_name(
        old(jvm)@,
        final(jvm)@,
        *old(allocator),
        *final(allocator),
        name@,
        r,
        known,
    );
}

/// A method is given the next handle where it is not known, and its own where it is.
pub proof fn law_methods_are_created_once(
    jvm: &mut JvmState,
    class: u64,
    name: &str,
    sig: &str,
    allocator: &mut HandleAllocator,
    r: u64,
)
    requires
        call_ensures(JvmState::get_or_create_method, (jvm, class, name, sig, allocator), r),
    ensures
        final(jvm)@.methods.contains_key((class, name@, sig@)) && final(jvm)@.methods[(
            class,
            name@,
            sig@,
        )] == r,
        old(jvm)@.methods.contains_key((class, name@, sig@)) ==> final(jvm)@ == old(jvm)@ && r
            == old(jvm)@.methods[(class, name@, sig@)],
        !old(jvm)@.methods.contains_key((class, name@, sig@)) ==> r == old(allocator).next,
{
}

/// A table gives back what was put into it under class, name and signature, and a later
/// registration takes the place of an earlier one.
pub proof fn law_registered_methods_are_given_back(
    table: &mut NativeTable,
    entry: NativeMethod,
    key: (Seq<char>, Seq<char>, Seq<char>),
)
    requires
        call_ensures(NativeTable::insert, (table, entry), ()),
    ensures
        final(table)@.contains_key((entry.class@, entry.name@, entry.sig@)),
        final(table)@[(entry.class@, entry.name@, entry.sig@)] == entry.fn_ptr,
        key != (entry.class@, entry.name@, entry.sig@) ==> final(table)@.contains_key(key)
            == old(table)@.contains_key(key) && final(table)@[key] == old(table)@[key],
{
}

/// A reader of a string begins at its address, asks for the next byte, takes it, and ends at a zero
/// or where memory cannot be read.
pub proof fn law_reader_takes_byte_by_byte(
    addr: u64,
    fresh: cstring::CStringReader,
    reader: &mut cstring::CStringReader,
    reply: Option<u8>,
)
    requires
        call_ensures(cstring::CStringReader::new, (addr,), fresh),
        call_ensures(cstring::CStringReader::supply, (reader, reply), ()),
    ensures
        fresh.addr == addr && fresh.read@.len() == 0 && fresh.ended == (addr < 0x1000),
        (reply matches Some(b) && b != 0) ==> final(reader).read@ == old(reader).read@.push(reply->0),
        reply is None || reply == Some(0u8) ==> final(reader).read@ == old(reader).read@,
        reply is None || reply == Some(0u8) ==> final(reader).ended,
        final(reader).addr == old(reader).addr,
{
    assert(fresh@ == ReaderModel::starting_at(addr));
    assert(final(reader)@ == old(reader)@.after(reply));
}

/// A word is decoded from an answer of eight bytes, and is zero without one.
pub proof fn law_words_are_decoded(reply: &Option<Vec<u8>>, r: u64, v: u64)
    requires
        call_ensures(cstring::read_u64, (reply,), r),
    ensures
        *reply is None ==> r == 0,
        (*reply matches Some(b) && b@ == bytes::word_bytes(v)) ==> r == v,
        (*reply matches Some(b) && b@.len() != 8) ==> r == 0,
{
    bytes::law_word_round_trip(v);
}

} // verus!
