//! What each JNI function answers, said of its arguments and its result alone.
use crate::jvm::call_laws;
use crate::jvm::calls;
use crate::jvm::calls::{CallModel, CallRequest, CallResult, Effect, JniCall};
use crate::jvm::handles::{HandleAllocator, ScratchAllocator};
use crate::jvm::jni_stubs;
use crate::jvm::jni_stubs::JniStubId;
use crate::jvm::state::{JvmModel, JvmState};
use crate::text;
use vstd::prelude::*;
use vstd::utf8::*;

verus! {

/// A global reference to an object is the handle of the object itself, whatever the handle; making
/// one reads nothing, is always possible, and leaves the VM, the counters and guest memory alone.
pub proof fn law_global_reference_is_the_handle(
    call: CallModel,
    s0: JvmModel,
    s1: JvmModel,
    a0: HandleAllocator,
    a1: HandleAllocator,
    c0: ScratchAllocator,
    c1: ScratchAllocator,
    ret: u64,
    effect: Effect,
)
    requires
        call.stub is NewGlobalRef,
        call.gives(s0, a0, c0, ret, s1, a1, c1),
        call.has_effect(s0, c0, effect),
    ensures
        ret == call.x1,
        s1 == s0,
        a1 == a0,
        c1 == c0,
        effect == Effect::Nothing,
        call.request() == CallRequest::Ready,
        call.fits(s0, a0, c0),
{
}

/// A class that was found is still that class under its global reference, also where the
/// reference is made of a reference.
pub proof fn law_referenced_class_keeps_its_name(
    find: CallModel,
    first: CallModel,
    second: CallModel,
    s: Seq<JvmModel>,
    a: Seq<HandleAllocator>,
    c: Seq<ScratchAllocator>,
    class: u64,
    reference: u64,
    again: u64,
    name: Seq<char>,
)
    requires
        find.stub is FindClass,
        find.texts.len() == 1,
        find.texts[0] == Some(name),
        find.gives(s[0], a[0], c[0], class, s[1], a[1], c[1]),
        first.stub is NewGlobalRef,
        first.x1 == class,
        first.gives(s[1], a[1], c[1], reference, s[2], a[2], c[2]),
        second.stub is NewGlobalRef,
        second.x1 == reference,
        second.gives(s[2], a[2], c[2], again, s[3], a[3], c[3]),
    ensures
        s[3].classes.contains_key(again),
        s[3].classes[again] == name,
        again == class,
{
}

/// The functions that only tell something tell it whatever their arguments: the version is JNI
/// 1.6, every object is an instance of every class, and the others answer zero, which is success,
/// no exception, no element or no value. None of them changes the VM or the counters, nor can one
/// of them run out of handles.
pub proof fn law_plain_answers(
    call: CallModel,
    s0: JvmModel,
    s1: JvmModel,
    a0: HandleAllocator,
    a1: HandleAllocator,
    c0: ScratchAllocator,
    c1: ScratchAllocator,
    ret: u64,
)
    requires
        call.gives(s0, a0, c0, ret, s1, a1, c1),
    ensures
        call.stub is GetVersion ==> ret == 0x0001_0006,
        call.stub is IsInstanceOf ==> ret == 1,
        call.stub is ReleaseStringUtfChars || call.stub is ExceptionOccurred
            || call.stub is ExceptionDescribe || call.stub is ExceptionClear
            || call.stub is DeleteGlobalRef || call.stub is DeleteLocalRef
            || call.stub is GetIntField || call.stub is RegisterNatives || call.stub is GetJavaVm
            || call.stub is GetArrayLength || call.stub is CallVoidMethod
            || call.stub is CallStaticVoidMethod || call.stub is CallIntMethod
            || call.stub is CallBooleanMethod || call.stub is CallLongMethod
            || call.stub is MonitorEnter || call.stub is MonitorExit || call.stub is GetEnv
            || call.stub is AttachCurrentThread || call.stub is DetachCurrentThread ==> ret == 0,
        !(call.stub is FindClass || call.stub is GetMethodId || call.stub is GetStaticMethodId
            || call.stub is NewStringUtf || call.stub is GetStringUtfChars
            || call.stub is GetObjectClass || call.stub is GetFieldId
            || call.stub is GetStaticFieldId || call.stub is GetObjectField
            || call.stub is CallObjectMethod || call.stub is CallStaticObjectMethod) ==> {
            &&& s1 == s0
            &&& a1 == a0
            &&& c1 == c0
            &&& call.fits(s0, a0, c0)
        },
{
}

/// A function that answers with an object answers with the next handle, 128 bytes before the one
/// after it; nothing but that handle is used up, and apart from a new string nothing is recorded.
/// It is possible while 128 more bytes of addresses are left.
pub proof fn law_new_objects_take_the_next_handle(
    call: CallModel,
    s0: JvmModel,
    s1: JvmModel,
    a0: HandleAllocator,
    a1: HandleAllocator,
    c0: ScratchAllocator,
    c1: ScratchAllocator,
    ret: u64,
)
    requires
        call.stub is GetObjectClass || call.stub is GetFieldId || call.stub is GetStaticFieldId
            || call.stub is GetObjectField || call.stub is CallObjectMethod
            || call.stub is CallStaticObjectMethod || call.stub is NewStringUtf,
        call.gives(s0, a0, c0, ret, s1, a1, c1),
    ensures
        call.fits(s0, a0, c0) <==> a0.next + 128 <= u64::MAX,
        ret == a0.next,
        a0.next + 128 <= u64::MAX ==> a1.next == a0.next + 128,
        c1 == c0,
        s1.classes == s0.classes,
        s1.methods == s0.methods,
        s1.native_methods == s0.native_methods,
        s1.jnienv_ptr == s0.jnienv_ptr,
        s1.javavm_ptr == s0.javavm_ptr,
        !(call.stub is NewStringUtf) ==> s1.strings == s0.strings,
        call.stub is NewStringUtf && call.texts.len() == 1 ==> s1.strings == s0.strings.insert(
            ret,
            match call.texts[0] {
                Some(t) => t,
                None => Seq::empty(),
            },
        ),
{
}

/// Where some class has the name, looking the name up gives the handle of one, and changes nothing.
/// Where none has, it takes the next handle and that becomes the class. A name that cannot be read
/// is `<unknown>`.
pub proof fn law_find_class_gives_the_class(
    call: CallModel,
    s0: JvmModel,
    s1: JvmModel,
    a0: HandleAllocator,
    a1: HandleAllocator,
    c0: ScratchAllocator,
    c1: ScratchAllocator,
    ret: u64,
    name: Seq<char>,
    known: u64,
)
    requires
        call.stub is FindClass,
        call.texts.len() == 1,
        call.texts[0] == Some(name) || (call.texts[0] is None && name == "<unknown>"@),
        call.gives(s0, a0, c0, ret, s1, a1, c1),
    ensures
        s1.classes.contains_key(ret) && s1.classes[ret] == name,
        s0.classes.contains_key(known) && s0.classes[known] == name ==> s1 == s0 && a1 == a0,
        s1 == s0 || (s1.classes == s0.classes.insert(ret, name) && ret == a0.next && !(exists|h: u64|
            s0.classes.contains_key(h) && #[trigger] s0.classes[h] == name)),
        s1 != s0 && a0.next + 128 <= u64::MAX ==> a1.next == a0.next + 128,
        s1.methods == s0.methods && s1.strings == s0.strings && s1.native_methods
            == s0.native_methods && c1 == c0,
        a0.next + 128 <= u64::MAX ==> call.fits(s0, a0, c0),
        s0.classes.contains_key(known) && s0.classes[known] == name ==> call.fits(s0, a0, c0),
{
    if s0.classes.contains_key(known) && s0.classes[known] == name {
        assert(s0.class_is(known, name));
    }
    if !s0.has_class(name) {
        assert forall|h: u64| s0.classes.contains_key(h) implies #[trigger] s0.classes[h]
            != name by {
            assert(!s0.class_is(h, name));
        }
    }
}

/// A method of a class is found under its class, name and signature, static or not: the handle it
/// has, or the next one where it has none yet. What cannot be read is empty text.
pub proof fn law_get_method_gives_the_method(
    call: CallModel,
    s0: JvmModel,
    s1: JvmModel,
    a0: HandleAllocator,
    a1: HandleAllocator,
    c0: ScratchAllocator,
    c1: ScratchAllocator,
    ret: u64,
    name: Seq<char>,
    sig: Seq<char>,
)
    requires
        call.stub is GetMethodId || call.stub is GetStaticMethodId,
        call.texts.len() == 2,
        call.texts[0] == Some(name) || (call.texts[0] is None && name.len() == 0),
        call.texts[1] == Some(sig) || (call.texts[1] is None && sig.len() == 0),
        call.gives(s0, a0, c0, ret, s1, a1, c1),
    ensures
        s1.methods.contains_key((call.x1, name, sig)),
        s1.methods[(call.x1, name, sig)] == ret,
        s0.methods.contains_key((call.x1, name, sig)) ==> s1 == s0 && a1 == a0 && ret
            == s0.methods[(call.x1, name, sig)],
        !s0.methods.contains_key((call.x1, name, sig)) ==> ret == a0.next && s1.methods
            == s0.methods.insert((call.x1, name, sig), ret),
        !s0.methods.contains_key((call.x1, name, sig)) && a0.next + 128 <= u64::MAX ==> a1.next
            == a0.next + 128,
        s1.classes == s0.classes && s1.strings == s0.strings && s1.native_methods
            == s0.native_methods && c1 == c0,
        call.fits(s0, a0, c0) <==> s0.methods.contains_key((call.x1, name, sig)) || a0.next + 128
            <= u64::MAX,
{
    assert(call.text(0) =~= name);
    assert(call.text(1) =~= sig);
}

/// The characters of a string are put at the next scratch address, which is the answer: the UTF-8
/// bytes and a zero, and the next string goes right behind. A handle that is no string has none.
pub proof fn law_string_characters_are_answered(
    call: CallModel,
    s0: JvmModel,
    s1: JvmModel,
    a0: HandleAllocator,
    a1: HandleAllocator,
    c0: ScratchAllocator,
    c1: ScratchAllocator,
    ret: u64,
    effect: Effect,
    content: Seq<char>,
)
    requires
        call.stub is GetStringUtfChars,
        s0.strings.contains_key(call.x1) ==> content == s0.strings[call.x1],
        !s0.strings.contains_key(call.x1) ==> content.len() == 0,
        call.gives(s0, a0, c0, ret, s1, a1, c1),
        call.has_effect(s0, c0, effect),
    ensures
        ret == c0.next,
        c1.next == c0.next + encode_utf8(content).len() + 1,
        s1 == s0 && a1 == a0,
        effect matches Effect::StoreString(store) && store.addr == ret && store.bytes@
            == encode_utf8(content) + seq![0u8] && store.map_addr <= ret < store.map_addr + 4096
            && store.map_addr % 4096 == 0 && store.map_size % 4096 == 0 && encode_utf8(
            content,
        ).len() < store.map_size <= encode_utf8(content).len() + 4096,
        call.fits(s0, a0, c0) <==> c0.next + encode_utf8(content).len() + 1 <= u64::MAX,
{
    assert(call.string_wanted(s0) =~= content);
    if let Effect::StoreString(store) = effect {
        assert(store.bytes@ =~= encode_utf8(content) + seq![0u8]);
    }
}

/// Only four functions touch guest memory. `GetStringUTFChars` stores a string. Through a pointer
/// that is not null, `GetJavaVM` stores the address of the JavaVM, and `GetEnv` and
/// `AttachCurrentThread` that of the JNIEnv.
pub proof fn law_what_calls_store(
    call: CallModel,
    jvm: JvmModel,
    scratch: ScratchAllocator,
    effect: Effect,
)
    requires
        call.has_effect(jvm, scratch, effect),
    ensures
        effect is StoreString <==> call.stub is GetStringUtfChars,
        effect is StoreWord <==> (call.stub is GetJavaVm || call.stub is GetEnv
            || call.stub is AttachCurrentThread) && call.x1 != 0,
        effect matches Effect::StoreWord { addr, value } ==> addr == call.x1 && value == (
        if call.stub is GetJavaVm {
            0x7f04_0000u64
        } else {
            0x7f05_0000u64
        }),
{
}

/// A call begins with the function that stands at the address and with the arguments it was given.
/// A class name and the text of a new string are read behind the first argument; the name and
/// the signature of a method or field behind the second and third; no other function but
/// `RegisterNatives` reads anything.
pub proof fn law_what_calls_read(
    stub: JniStubId,
    x1: u64,
    x2: u64,
    x3: u64,
    jvm: JvmModel,
    word: spec_fn(u64) -> u64,
    string: spec_fn(u64) -> Option<Seq<char>>,
)
    ensures
        ({
            let start = CallModel::starting(stub, x1, x2, x3, jvm);
            let (end, after) = call_laws::driven(start, jvm, word, string, 2);
            let one = stub is FindClass || stub is NewStringUtf;
            let two = stub is GetMethodId || stub is GetStaticMethodId || stub is GetFieldId
                || stub is GetStaticFieldId;
            &&& !(stub is RegisterNatives) ==> {
                &&& end.stub == stub && end.x1 == x1 && end.x2 == x2 && end.x3 == x3
                &&& end.request() == CallRequest::Ready
                &&& after == jvm
            }
            &&& one ==> start.request() == CallRequest::Text(x1) && end.texts == seq![string(x1)]
            &&& two ==> start.request() == CallRequest::Text(x2) && end.texts
                == seq![string(x2), string(x3)]
            &&& !one && !two && !(stub is RegisterNatives) ==> start.request()
                == CallRequest::Ready
        }),
{
    call_laws::law_string_arguments_are_read(stub, x1, x2, x3, jvm, word, string);
    reveal_with_fuel(call_laws::driven, 3);
}

/// The key of entry `i` of an array of native methods: the name of the class, and the texts
/// behind the first two pointers of the entry, each entry being three pointers of eight bytes.
pub open spec fn native_key(
    class_name: Seq<char>,
    array: u64,
    i: int,
    word: spec_fn(u64) -> u64,
    string: spec_fn(u64) -> Option<Seq<char>>,
) -> (Seq<char>, Seq<char>, Seq<char>) {
    let name = match string(word((array + 24 * i) as u64)) {
        Some(t) => t,
        None => Seq::empty(),
    };
    let sig = match string(word((array + 24 * i + 8) as u64)) {
        Some(t) => t,
        None => Seq::empty(),
    };
    (class_name, name, sig)
}

/// Entry `i` of the array has this key.
pub open spec fn has_key(
    class_name: Seq<char>,
    array: u64,
    i: int,
    word: spec_fn(u64) -> u64,
    string: spec_fn(u64) -> Option<Seq<char>>,
    key: (Seq<char>, Seq<char>, Seq<char>),
) -> bool {
    native_key(class_name, array, i, word, string) == key
}

/// The VM with one more entry is the VM with the method of that entry registered.
#[verifier::spinoff_prover]
proof fn entry_is_registered(
    start: CallModel,
    jvm: JvmModel,
    word: spec_fn(u64) -> u64,
    string: spec_fn(u64) -> Option<Seq<char>>,
    n: nat,
)
    requires
        n > 0,
    ensures
        ({
            let before = call_laws::with_entries(start, jvm, word, string, (n - 1) as nat);
            let after = call_laws::with_entries(start, jvm, word, string, n);
            &&& after.classes == before.classes && after.methods == before.methods && after.strings
                == before.strings
            &&& after.native_methods == before.native_methods.insert(
                native_key(start.class_name, start.x2, n - 1, word, string),
                word((start.x2 + 24 * (n - 1) + 16) as u64),
            )
        }),
{
    assert(start.entry_word(n - 1, 0) == start.x2 + 24 * (n - 1));
    assert(start.entry_word(n - 1, 1) == start.x2 + 24 * (n - 1) + 8);
    assert(start.entry_word(n - 1, 2) == start.x2 + 24 * (n - 1) + 16);
}

proof fn other_registries_stay(
    start: CallModel,
    jvm: JvmModel,
    word: spec_fn(u64) -> u64,
    string: spec_fn(u64) -> Option<Seq<char>>,
    n: nat,
)
    ensures
        ({
            let after = call_laws::with_entries(start, jvm, word, string, n);
            after.classes == jvm.classes && after.methods == jvm.methods && after.strings
                == jvm.strings
        }),
    decreases n,
{
    if n > 0 {
        other_registries_stay(start, jvm, word, string, (n - 1) as nat);
        entry_is_registered(start, jvm, word, string, n);
    }
}

proof fn other_methods_stay(
    start: CallModel,
    jvm: JvmModel,
    word: spec_fn(u64) -> u64,
    string: spec_fn(u64) -> Option<Seq<char>>,
    from: nat,
    n: nat,
    key: (Seq<char>, Seq<char>, Seq<char>),
)
    requires
        from <= n,
        forall|i: int|
            from <= i < n ==> !#[trigger] has_key(
                start.class_name,
                start.x2,
                i,
                word,
                string,
                key,
            ),
    ensures
        ({
            let before = call_laws::with_entries(start, jvm, word, string, from).native_methods;
            let after = call_laws::with_entries(start, jvm, word, string, n).native_methods;
            after.contains_key(key) == before.contains_key(key) && (before.contains_key(key)
                ==> after[key] == before[key])
        }),
    decreases n - from,
{
    if from < n {
        other_methods_stay(start, jvm, word, string, from, (n - 1) as nat, key);
        entry_is_registered(start, jvm, word, string, n);
        assert(!has_key(start.class_name, start.x2, n - 1, word, string, key));
    }
}

/// Once `RegisterNatives` is done, each method of its array stands under its class, name and
/// signature with the function of its entry, the last one where several have the same; every
/// other method is registered as before, and nothing else of the VM has changed. The class goes by
/// its name or, where it is not known, by its handle.
pub proof fn law_registered_methods_are_found(
    jvm: JvmModel,
    class: u64,
    array: u64,
    count: u64,
    word: spec_fn(u64) -> u64,
    string: spec_fn(u64) -> Option<Seq<char>>,
    class_name: Seq<char>,
    key: (Seq<char>, Seq<char>, Seq<char>),
)
    requires
        count > 0 ==> array + 24 * count - 8 <= u64::MAX,
        jvm.classes.contains_key(class) ==> class_name == jvm.classes[class],
        !jvm.classes.contains_key(class) ==> class_name == "class_"@ + text::hex_text(class),
    ensures
        ({
            let start = CallModel::starting(JniStubId::RegisterNatives, class, array, count, jvm);
            let (end, after) = call_laws::driven(start, jvm, word, string, (5 * count) as nat);
            &&& end.request() == CallRequest::Ready
            &&& after.classes == jvm.classes && after.methods == jvm.methods && after.strings
                == jvm.strings
            &&& forall|i: int|
                0 <= i < count && #[trigger] has_key(class_name, array, i, word, string, key) && (
                forall|j: int|
                    i < j < count ==> !#[trigger] has_key(class_name, array, j, word, string, key))
                    ==> after.native_methods.contains_key(key) && after.native_methods[key] == word(
                    (array + 24 * i + 16) as u64,
                )
            &&& (forall|i: int|
                0 <= i < count ==> !#[trigger] has_key(class_name, array, i, word, string, key))
                ==> after.native_methods.contains_key(key) == jvm.native_methods.contains_key(key)
                && (jvm.native_methods.contains_key(key) ==> after.native_methods[key]
                == jvm.native_methods[key])
        }),
{
    call_laws::law_register_natives_registers_the_array(jvm, class, array, count, word, string);
    let start = CallModel::starting(JniStubId::RegisterNatives, class, array, count, jvm);
    let n = count as nat;
    let after = call_laws::with_entries(start, jvm, word, string, n);
    assert(start.class_name == class_name);
    other_registries_stay(start, jvm, word, string, n);
    assert forall|i: int|
        0 <= i < count && #[trigger] has_key(class_name, array, i, word, string, key) && (forall|
            j: int,
        |
            i < j < count ==> !#[trigger] has_key(class_name, array, j, word, string, key)) implies
        after.native_methods.contains_key(key) && after.native_methods[key] == word(
        (array + 24 * i + 16) as u64,
    ) by {
        let done = (i + 1) as nat;
        entry_is_registered(start, jvm, word, string, done);
        other_methods_stay(start, jvm, word, string, done, n, key);
    }
    if forall|i: int|
        0 <= i < count ==> !#[trigger] has_key(class_name, array, i, word, string, key) {
        other_methods_stay(start, jvm, word, string, 0, n, key);
    }
}

/// A string that was made is answered with the characters it was made from.
pub proof fn law_new_string_gives_its_characters(
    make: CallModel,
    get: CallModel,
    s0: JvmModel,
    s1: JvmModel,
    s2: JvmModel,
    a0: HandleAllocator,
    a1: HandleAllocator,
    a2: HandleAllocator,
    c0: ScratchAllocator,
    c1: ScratchAllocator,
    c2: ScratchAllocator,
    handle: u64,
    ret: u64,
    effect: Effect,
    t: Seq<char>,
)
    requires
        make.stub is NewStringUtf,
        make.texts.len() == 1,
        make.texts[0] == Some(t),
        make.gives(s0, a0, c0, handle, s1, a1, c1),
        get.stub is GetStringUtfChars,
        get.x1 == handle,
        get.gives(s1, a1, c1, ret, s2, a2, c2),
        get.has_effect(s1, c1, effect),
    ensures
        effect matches Effect::StoreString(store) && store.addr == ret && store.bytes@
            == encode_utf8(t) + seq![0u8],
{
    law_string_characters_are_answered(get, s1, s2, a1, a2, c1, c2, ret, effect, t);
}

/// A JNI function is called at the thunk of its slot: eight bytes from 0x7f10_0000 on for each
/// slot of the JNIEnv table, eight bytes from 0x7f11_0000 on for each of the JavaVM table. At no
/// other address there is one.
pub proof fn law_functions_by_address(pc: u64)
    ensures
        ({
            let e = |slot: int| 0x7f10_0000 + 8 * slot <= pc < 0x7f10_0000 + 8 * slot + 8;
            let v = |slot: int| 0x7f11_0000 + 8 * slot <= pc < 0x7f11_0000 + 8 * slot + 8;
            let f = jni_stubs::stub_at(pc);
            &&& e(4) <==> f is GetVersion
            &&& e(6) <==> f is FindClass
            &&& e(15) <==> f is ExceptionOccurred
            &&& e(16) <==> f is ExceptionDescribe
            &&& e(17) <==> f is ExceptionClear
            &&& e(21) <==> f is NewGlobalRef
            &&& e(22) <==> f is DeleteGlobalRef
            &&& e(23) <==> f is DeleteLocalRef
            &&& e(29) <==> f is GetObjectClass
            &&& e(30) <==> f is IsInstanceOf
            &&& e(31) <==> f is GetMethodId
            &&& e(34) <==> f is CallObjectMethod
            &&& e(37) <==> f is CallBooleanMethod
            &&& e(38) <==> f is CallIntMethod
            &&& e(39) <==> f is CallLongMethod
            &&& e(40) <==> f is CallVoidMethod
            &&& e(94) <==> f is GetFieldId
            &&& e(95) <==> f is GetObjectField
            &&& e(98) <==> f is GetIntField
            &&& e(113) <==> f is GetStaticMethodId
            &&& e(114) <==> f is CallStaticObjectMethod
            &&& e(116) <==> f is CallStaticVoidMethod
            &&& e(144) <==> f is GetStaticFieldId
            &&& e(167) <==> f is NewStringUtf
            &&& e(169) <==> f is GetStringUtfChars
            &&& e(170) <==> f is ReleaseStringUtfChars
            &&& e(171) <==> f is GetArrayLength
            &&& e(215) <==> f is RegisterNatives
            &&& e(217) <==> f is MonitorEnter
            &&& e(218) <==> f is MonitorExit
            &&& e(219) <==> f is GetJavaVm
            &&& v(4) || v(7) <==> f is AttachCurrentThread
            &&& v(5) <==> f is DetachCurrentThread
            &&& v(6) <==> f is GetEnv
            &&& f matches JniStubId::Unknown(address) ==> address == pc
            &&& calls::is_jni_address(pc) <==> 0x7f10_0000 <= pc < 0x7f10_2000 || 0x7f11_0000 <= pc
                < 0x7f11_0100
        }),
{
}

/// Of each entry of its array `RegisterNatives` reads the three pointers, 8 bytes apart and 24
/// bytes behind those of the entry before, then the texts behind the first two; what would lie
/// behind the end of the address space it does not read. It is done once it has seen as many
/// entries as it was told.
pub proof fn law_native_methods_are_read_entry_by_entry(call: CallModel)
    requires
        call.stub is RegisterNatives,
    ensures
        ({
            let at = call.x2 + 24 * call.entry + 8 * call.words.len();
            &&& call.entry >= call.x3 ==> call.request() == CallRequest::Ready
            &&& call.entry < call.x3 && call.words.len() < 3 && at <= u64::MAX ==> call.request()
                == CallRequest::Word(at as u64)
            &&& call.entry < call.x3 && call.words.len() < 3 && at > u64::MAX ==> call.request()
                == CallRequest::PastEnd
            &&& call.entry < call.x3 && call.words.len() >= 3 && call.texts.len() == 0
                ==> call.request() == CallRequest::Text(call.words[0])
            &&& call.entry < call.x3 && call.words.len() >= 3 && call.texts.len() > 0
                ==> call.request() == CallRequest::Text(call.words[1])
        }),
{
}

/// A class can be looked up only while a handle is left, or where the class is known.
pub proof fn law_unknown_classes_need_a_handle(
    call: CallModel,
    jvm: JvmModel,
    handles: HandleAllocator,
    scratch: ScratchAllocator,
    name: Seq<char>,
)
    requires
        call.stub is FindClass,
        call.texts.len() == 1,
        call.texts[0] == Some(name),
        call.fits(jvm, handles, scratch),
    ensures
        handles.next + 128 <= u64::MAX || exists|h: u64|
            jvm.classes.contains_key(h) && #[trigger] jvm.classes[h] == name,
{
    if jvm.has_class(name) {
        let h = choose|h: u64| #[trigger] jvm.class_is(h, name);
        assert(jvm.classes.contains_key(h) && jvm.classes[h] == name);
    }
}

/// A finished call goes on at the return address. A global reference is the handle that it is made
/// of and changes nothing; a class that was looked for stands under the handle that is answered; a
/// string that was made holds the text that was read.
pub proof fn law_finished_calls_answer(
    call: JniCall,
    lr: u64,
    jvm: &mut JvmState,
    handles: &mut HandleAllocator,
    scratch: &mut ScratchAllocator,
    r: CallResult,
    t: String,
)
    requires
        call_ensures(JniCall::finish, (call, lr, jvm, handles, scratch), r),
    ensures
        r.pc == lr,
        call.stub is NewGlobalRef ==> r.ret == call.x1 && r.effect == Effect::Nothing && final(jvm)@
            == old(jvm)@ && *final(handles) == *old(handles) && *final(scratch) == *old(scratch),
        call.stub is GetVersion ==> r.ret == 0x0001_0006,
        call.stub is IsInstanceOf ==> r.ret == 1,
        call.stub is FindClass && call.texts@ == seq![Some(t)] ==> final(jvm)@.classes.contains_key(
            r.ret,
        ) && final(jvm)@.classes[r.ret] == t@,
        call.stub is NewStringUtf && call.texts@ == seq![Some(t)] ==> r.ret == old(handles).next
            && final(jvm)@.strings == old(jvm)@.strings.insert(r.ret, t@),
        (call.stub is GetEnv || call.stub is AttachCurrentThread) && call.x1 != 0 ==> r.effect == (
        Effect::StoreWord { addr: call.x1, value: 0x7f05_0000 }),
        call.stub is GetJavaVm && call.x1 != 0 ==> r.effect == (Effect::StoreWord {
            addr: call.x1,
            value: 0x7f04_0000,
        }),
{
    if call.texts@ == seq![Some(t)] {
        assert(call@.texts[0] == Some(t@));
        assert(call@.texts.len() == 1);
    }
}

/// A call begins at the thunk of its function with the arguments that it was given, and at no other
/// address.
pub proof fn law_calls_begin_at_their_thunks(
    pc: u64,
    x1: u64,
    x2: u64,
    x3: u64,
    jvm: &JvmState,
    r: Option<JniCall>,
    within: bool,
)
    requires
        call_ensures(calls::handle_jni_thunk, (pc, x1, x2, x3, jvm), r),
        call_ensures(calls::is_jni_thunk_address, (pc,), within),
    ensures
        r matches Some(call) ==> call.x1 == x1 && call.x2 == x2 && call.x3 == x3 && call.stub
            == jni_stubs::stub_at(pc) && call@.texts.len() == 0 && call@.words.len() == 0
            && call.entry == 0,
        r is None <==> jni_stubs::stub_at(pc) == JniStubId::Unknown(pc),
        within == (0x7f10_0000 <= pc < 0x7f10_2000 || 0x7f11_0000 <= pc < 0x7f11_0100),
{
    law_functions_by_address(pc);
}

/// A call that asked for a word takes it behind those before, and keeps everything else.
pub proof fn law_words_are_taken_in_turn(call: &mut JniCall, w: u64)
    requires
        call_ensures(JniCall::supply_word, (call, w), ()),
    ensures
        final(call)@.words == old(call)@.words.push(w),
        final(call)@.texts == old(call)@.texts,
        final(call).stub == old(call).stub && final(call).entry == old(call).entry,
        final(call).x1 == old(call).x1 && final(call).x2 == old(call).x2 && final(call).x3
            == old(call).x3,
{
    assert(final(call)@ == old(call)@.after_word(w));
}

/// A call that asked for a string takes it behind those before. With the second string of an entry,
/// `RegisterNatives` has registered the function of the entry under the class and the two strings,
/// and goes on to the next entry.
pub proof fn law_strings_are_taken_in_turn(
    call: &mut JniCall,
    t: Option<String>,
    jvm: &mut JvmState,
    name: Seq<char>,
    sig: Seq<char>,
)
    requires
        call_ensures(JniCall::supply_text, (call, t, jvm), ()),
        t matches Some(s) ==> sig == s@,
        t is None ==> sig.len() == 0,
        old(call)@.texts.len() > 0 ==> old(call)@.texts[0] == Some(name) || (old(call)@.texts[0]
            is None && name.len() == 0),
        old(call).entry < u64::MAX,
    ensures
        !(old(call).stub is RegisterNatives) || old(call)@.texts.len() == 0 ==> final(call)@.texts
            == old(call)@.texts.push(text::optional_text(t)) && final(jvm)@ == old(jvm)@
            && final(call).entry == old(call).entry,
        old(call).stub is RegisterNatives && old(call)@.texts.len() > 0 ==> final(call)@.texts.len()
            == 0 && final(call)@.words.len() == 0 && final(call).entry == old(call).entry + 1,
        old(call).stub is RegisterNatives && old(call)@.texts.len() > 0 ==> final(jvm)@.native_methods
            == old(jvm)@.native_methods.insert(
            (old(call)@.class_name, name, sig),
            old(call)@.words[2],
        ),
        final(jvm)@.classes == old(jvm)@.classes && final(jvm)@.strings == old(jvm)@.strings,
{
    assert(final(call)@ == old(call)@.after_text(text::optional_text(t)));
    assert(text::text_or_empty(text::optional_text(t)) =~= sig);
    if old(call)@.texts.len() > 0 {
        assert(text::text_or_empty(old(call)@.texts[0]) =~= name);
    }
}

/// Native methods that are registered on a global reference to a class stand under the name of the
/// class.
pub proof fn law_methods_are_registered_on_a_reference(
    find: CallModel,
    reference: CallModel,
    s: Seq<JvmModel>,
    a: Seq<HandleAllocator>,
    c: Seq<ScratchAllocator>,
    class: u64,
    handle: u64,
    name: Seq<char>,
    array: u64,
    count: u64,
)
    requires
        find.stub is FindClass,
        find.texts.len() == 1,
        find.texts[0] == Some(name),
        find.gives(s[0], a[0], c[0], class, s[1], a[1], c[1]),
        reference.stub is NewGlobalRef,
        reference.x1 == class,
        reference.gives(s[1], a[1], c[1], handle, s[2], a[2], c[2]),
    ensures
        CallModel::starting(
            JniStubId::RegisterNatives,
            handle,
            array,
            count,
            s[2],
        ).class_name == name,
{
}

} // verus!
