//! What holds of whole JNI calls, and of one call after another.
use crate::jvm::calls;
use crate::jvm::calls::{CallModel, CallRequest, Effect};
use crate::jvm::cstring;
use crate::jvm::guest;
use crate::jvm::handles::{HandleAllocator, ScratchAllocator};
use crate::jvm::jni_stubs;
use crate::jvm::jni_stubs::JniStubId;
use crate::jvm::state;
use crate::jvm::state::{JvmModel, JAVAVM_STRUCT_ADDR, JNIENV_STRUCT_ADDR};
use crate::text;
use vstd::prelude::*;
use vstd::utf8::*;

verus! {

/// Wherever a JNI function stands, the address is one of a JNI thunk; and so is the address
/// in every slot of the functions tables.
pub proof fn law_functions_stand_at_thunk_addresses(pc: u64, slot: int)
    ensures
        !(jni_stubs::stub_at(pc) is Unknown) ==> calls::is_jni_address(pc),
        0 <= slot < 232 ==> calls::is_jni_address(jni_stubs::jnienv_thunk(slot) as u64),
        0 <= slot < 8 ==> calls::is_jni_address(jni_stubs::javavm_thunk(slot) as u64),
{
}

/// A call and the VM once `steps` of the call's requests have been answered, or all of them
/// where they are fewer. `word` and `string` are what guest memory answers.
pub open spec fn driven(
    call: CallModel,
    jvm: JvmModel,
    word: spec_fn(u64) -> u64,
    string: spec_fn(u64) -> Option<Seq<char>>,
    steps: nat,
) -> (CallModel, JvmModel)
    decreases steps,
{
    if steps == 0 {
        (call, jvm)
    } else {
        match call.request() {
            CallRequest::Word(a) => driven(
                call.after_word(word(a)),
                jvm,
                word,
                string,
                (steps - 1) as nat,
            ),
            CallRequest::Text(a) => driven(
                call.after_text(string(a)),
                call.registers(string(a), jvm),
                word,
                string,
                (steps - 1) as nat,
            ),
            _ => (call, jvm),
        }
    }
}

/// The VM after the first `n` entries of an array of native methods have been registered:
/// each under the class, its name and its signature, the later ones over the earlier.
pub open spec fn with_entries(
    call: CallModel,
    jvm: JvmModel,
    word: spec_fn(u64) -> u64,
    string: spec_fn(u64) -> Option<Seq<char>>,
    n: nat,
) -> JvmModel
    decreases n,
{
    if n == 0 {
        jvm
    } else {
        let i = n - 1;
        with_entries(call, jvm, word, string, i as nat).with_native(
            (
                call.class_name,
                text::text_or_empty(string(word(call.entry_word(i, 0) as u64))),
                text::text_or_empty(string(word(call.entry_word(i, 1) as u64))),
            ),
            word(call.entry_word(i, 2) as u64),
        )
    }
}

/// `RegisterNatives` registers each entry of its array, in order, and returns zero.
pub proof fn law_register_natives_registers_the_array(
    jvm: JvmModel,
    class: u64,
    array: u64,
    count: u64,
    word: spec_fn(u64) -> u64,
    string: spec_fn(u64) -> Option<Seq<char>>,
)
    requires
        count > 0 ==> array + count * calls::NATIVE_ENTRY_SIZE - 8 <= u64::MAX,
    ensures
        ({
            let start = CallModel::starting(JniStubId::RegisterNatives, class, array, count, jvm);
            let (call, after) = driven(start, jvm, word, string, (5 * count) as nat);
            &&& call.request() == CallRequest::Ready
            &&& after == with_entries(start, jvm, word, string, count as nat)
            &&& start.class_name == state::class_name_of(jvm, class)
            &&& call.stub == JniStubId::RegisterNatives
            &&& calls::fixed_result(call.stub, call.x1) == 0
        }),
{
    let start = CallModel::starting(JniStubId::RegisterNatives, class, array, count, jvm);
    entries_are_registered(start, start, jvm, jvm, word, string, count as nat);
}

/// From an entry of the array on, five answers register one entry.
proof fn entries_are_registered(
    start: CallModel,
    call: CallModel,
    jvm: JvmModel,
    now: JvmModel,
    word: spec_fn(u64) -> u64,
    string: spec_fn(u64) -> Option<Seq<char>>,
    left: nat,
)
    requires
        start.stub is RegisterNatives,
        call == (CallModel { entry: call.entry, ..start }),
        start.words.len() == 0 && start.texts.len() == 0,
        call.entry + left == start.x3,
        start.x3 > 0 ==> start.entry_word(start.x3 - 1, 2) <= u64::MAX,
        now == with_entries(start, jvm, word, string, call.entry as nat),
    ensures
        ({
            let (end, after) = driven(call, now, word, string, 5 * left);
            &&& end.request() == CallRequest::Ready
            &&& end == (CallModel { entry: start.x3, ..start })
            &&& after == with_entries(start, jvm, word, string, start.x3 as nat)
        }),
    decreases left,
{
    if left > 0 {
        let i = call.entry as int;
        assert(start.entry_word(i, 2) <= start.entry_word(start.x3 - 1, 2));
        let a0 = start.entry_word(i, 0) as u64;
        let a1 = start.entry_word(i, 1) as u64;
        let a2 = start.entry_word(i, 2) as u64;
        let c1 = call.after_word(word(a0));
        let c2 = c1.after_word(word(a1));
        let c3 = c2.after_word(word(a2));
        let c4 = c3.after_text(string(word(a0)));
        let c5 = c4.after_text(string(word(a1)));
        let next = c4.registers(string(word(a1)), now);
        assert(call.request() == CallRequest::Word(a0));
        assert(c1.request() == CallRequest::Word(a1));
        assert(c2.request() == CallRequest::Word(a2));
        assert(c3.request() == CallRequest::Text(word(a0)));
        assert(c4.request() == CallRequest::Text(word(a1)));
        let rest = 5 * (left - 1) as nat;
        assert(driven(call, now, word, string, 5 * left) == driven(c5, next, word, string, rest))
            by {
            reveal_with_fuel(driven, 6);
        }
        assert(c5 =~= CallModel { entry: (call.entry + 1) as u64, ..start });
        assert(c4.texts[0] == string(word(a0)));
        assert(next == with_entries(start, jvm, word, string, (i + 1) as nat));
        entries_are_registered(start, c5, jvm, next, word, string, (left - 1) as nat);
    }
}

/// A call of a function that takes strings asks for exactly those, and then is ready.
pub proof fn law_string_arguments_are_read(
    stub: JniStubId,
    x1: u64,
    x2: u64,
    x3: u64,
    jvm: JvmModel,
    word: spec_fn(u64) -> u64,
    string: spec_fn(u64) -> Option<Seq<char>>,
)
    ensures
        ({
            let start = CallModel::starting(stub, x1, x2, x3, jvm);
            let (end, after) = driven(start, jvm, word, string, 2);
            &&& calls::takes_one_text(stub) ==> end.texts == seq![string(x1)]
            &&& calls::takes_two_texts(stub) ==> end.texts == seq![string(x2), string(x3)]
            &&& !(stub is RegisterNatives) ==> end.request() == CallRequest::Ready && after == jvm
        }),
{
    reveal_with_fuel(driven, 3);
    let start = CallModel::starting(stub, x1, x2, x3, jvm);
    let (end, after) = driven(start, jvm, word, string, 2);
    if calls::takes_one_text(stub) {
        assert(end.texts =~= seq![string(x1)]);
    }
    if calls::takes_two_texts(stub) {
        assert(end.texts =~= seq![string(x2), string(x3)]);
    }
}

/// The characters of a string that `NewStringUTF` made are those that it was given, also
/// once other strings and handles have been made.
pub proof fn law_string_characters_are_handed_back(
    make: CallModel,
    get: CallModel,
    s0: JvmModel,
    s1: JvmModel,
    s2: JvmModel,
    a0: HandleAllocator,
    a1: HandleAllocator,
    c0: ScratchAllocator,
    c1: ScratchAllocator,
    c2: ScratchAllocator,
    handle: u64,
    effect: Effect,
)
    requires
        make.stub is NewStringUtf,
        make.gives(s0, a0, c0, handle, s1, a1, c1),
        s2.strings.contains_key(handle) && s2.strings[handle] == s1.strings[handle],
        get.stub is GetStringUtfChars,
        get.x1 == handle,
        get.has_effect(s2, c2, effect),
    ensures
        effect matches Effect::StoreString(store) && store.puts(make.text(0), c2.next),
{
}

/// Whatever a call does, the strings that are known stay as they are, where all handles lie
/// below the next one; and so they still do after the call.
pub proof fn law_calls_keep_strings(
    call: CallModel,
    s0: JvmModel,
    s1: JvmModel,
    a0: HandleAllocator,
    a1: HandleAllocator,
    c0: ScratchAllocator,
    c1: ScratchAllocator,
    ret: u64,
)
    requires
        s0.below(a0.next),
        call.fits(s0, a0, c0),
        call.gives(s0, a0, c0, ret, s1, a1, c1),
    ensures
        s1.below(a1.next),
        a0.next <= a1.next,
        forall|h: u64| #[trigger]
            s0.strings.contains_key(h) ==> s1.strings.contains_key(h) && s1.strings[h]
                == s0.strings[h],
        s1.native_methods == s0.native_methods,
{
}

/// What `GetStringUTFChars` puts into guest memory is, read as a C string, the string it was
/// asked for, where that is not empty, not longer than the limit and holds no zero.
pub proof fn law_handed_out_characters_read_back(
    get: CallModel,
    jvm: JvmModel,
    scratch: ScratchAllocator,
    effect: Effect,
    m: Map<int, u8>,
)
    requires
        get.stub is GetStringUtfChars,
        scratch.wf(),
        get.has_effect(jvm, scratch, effect),
        0 < encode_utf8(get.string_wanted(jvm)).len() <= cstring::LONGEST_STRING,
        !encode_utf8(get.string_wanted(jvm)).contains(0),
    ensures
        effect matches Effect::StoreString(store) && cstring::string_at(
            guest::written(m, store.addr as int, store.bytes@),
            store.addr,
        ) == Some(get.string_wanted(jvm)),
{
    cstring::law_stored_string_reads_back(m, scratch.next, get.string_wanted(jvm));
}

/// Native methods that are registered for a class that `FindClass` found are registered
/// under the name that was looked for.
pub proof fn law_found_class_keeps_its_name(
    find: CallModel,
    s0: JvmModel,
    s1: JvmModel,
    a0: HandleAllocator,
    a1: HandleAllocator,
    c0: ScratchAllocator,
    c1: ScratchAllocator,
    handle: u64,
    array: u64,
    count: u64,
)
    requires
        find.stub is FindClass,
        find.gives(s0, a0, c0, handle, s1, a1, c1),
    ensures
        CallModel::starting(JniStubId::RegisterNatives, handle, array, count, s1).class_name
            == find.class_wanted(),
{
}

/// `GetEnv` and `AttachCurrentThread` hand out the JNIEnv and `GetJavaVM` the JavaVM, through
/// a pointer that is not null; the word can be read there afterwards.
pub proof fn law_pointers_are_handed_out(
    call: CallModel,
    jvm: JvmModel,
    scratch: ScratchAllocator,
    effect: Effect,
    m: Map<int, u8>,
)
    requires
        call.stub is GetEnv || call.stub is AttachCurrentThread || call.stub is GetJavaVm,
        call.x1 != 0,
        call.has_effect(jvm, scratch, effect),
    ensures
        effect matches Effect::StoreWord { addr, value } && addr == call.x1 && guest::word_is(
            guest::written(m, addr as int, crate::bytes::word_bytes(value)),
            call.x1 as int,
            if call.stub is GetJavaVm {
                JAVAVM_STRUCT_ADDR as int
            } else {
                JNIENV_STRUCT_ADDR as int
            },
        ),
{
    let value = if call.stub is GetJavaVm {
        JAVAVM_STRUCT_ADDR
    } else {
        JNIENV_STRUCT_ADDR
    };
    guest::law_word_write_reads_back(m, call.x1 as int, value);
}

} // verus!
