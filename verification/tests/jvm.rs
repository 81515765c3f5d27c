use maarch64_android::bytes;
use maarch64_android::jvm;
use maarch64_android::jvm::jni_stubs;
use maarch64_android::jvm::jni_stubs::{
    javavm_slot, javavm_thunk_addr, jnienv_slot, jnienv_thunk_addr, JniStubId,
};
use maarch64_android::jvm::registry::{MethodEntry, MethodTable, NativeMethod, NativeTable};
use maarch64_android::jvm::{
    alloc_handle, build_jvm_memory, dispatch_activity_lifecycle, ensure_jvm_memory_intact,
    handle_jni_thunk, is_jni_thunk_address, ByteRequest, CStringReader, CallRequest, CallResult,
    Effect, HandleAllocator, JvmState, ScratchAllocator, SetupOp,
};
use std::collections::HashMap;

/// Guest memory, byte by byte.
struct Memory {
    bytes: HashMap<u64, u8>,
}

impl Memory {
    fn new() -> Self {
        Memory { bytes: HashMap::new() }
    }

    fn write(&mut self, addr: u64, data: &[u8]) {
        for (i, b) in data.iter().enumerate() {
            self.bytes.insert(addr + i as u64, *b);
        }
    }

    fn write_word(&mut self, addr: u64, v: u64) {
        self.write(addr, &bytes::encode_word(v));
    }

    fn read(&self, addr: u64, n: u64) -> Option<Vec<u8>> {
        (0..n).map(|i| self.bytes.get(&(addr + i)).copied()).collect()
    }

    fn word(&self, addr: u64) -> u64 {
        jvm::read_u64(&self.read(addr, 8))
    }

    fn string(&self, addr: u64) -> Option<String> {
        let mut reader = CStringReader::new(addr);
        loop {
            match reader.request() {
                ByteRequest::Byte(a) => reader.supply(self.bytes.get(&a).copied()),
                ByteRequest::Finished => return reader.finish(),
                ByteRequest::PastEnd => panic!("behind the end of memory"),
            }
        }
    }

    fn run(&mut self, ops: &[SetupOp]) {
        for op in ops {
            if let SetupOp::StoreWord { addr, value, .. } = op {
                self.write_word(*addr, *value);
            }
        }
    }
}

struct Vm {
    state: JvmState,
    handles: HandleAllocator,
    scratch: ScratchAllocator,
    mem: Memory,
}

impl Vm {
    fn new() -> Self {
        let (state, ops) = build_jvm_memory();
        let mut mem = Memory::new();
        mem.run(&ops);
        Vm { state, handles: HandleAllocator::new(), scratch: ScratchAllocator::new(), mem }
    }

    fn text(&mut self, addr: u64, s: &str) -> u64 {
        self.mem.write(addr, s.as_bytes());
        self.mem.write(addr + s.len() as u64, &[0]);
        addr
    }

    fn call(&mut self, pc: u64, x1: u64, x2: u64, x3: u64) -> CallResult {
        let mut call = handle_jni_thunk(pc, x1, x2, x3, &self.state).expect("a JNI function");
        loop {
            match call.request() {
                CallRequest::Word(a) => call.supply_word(self.mem.word(a)),
                CallRequest::Text(a) => {
                    let t = self.mem.string(a);
                    call.supply_text(t, &mut self.state);
                }
                CallRequest::Ready => break,
                CallRequest::PastEnd => panic!("behind the end of memory"),
            }
        }
        assert!(call.can_finish(&self.state, &self.handles, &self.scratch));
        let r = call.finish(0x1234, &mut self.state, &mut self.handles, &mut self.scratch);
        match &r.effect {
            Effect::Nothing => {}
            Effect::StoreWord { addr, value } => self.mem.write_word(*addr, *value),
            Effect::StoreString(s) => self.mem.write(s.addr, &s.bytes),
        }
        assert_eq!(r.pc, 0x1234);
        r
    }

    fn env(&mut self, slot: usize, x1: u64, x2: u64, x3: u64) -> u64 {
        self.call(jnienv_thunk_addr(slot), x1, x2, x3).ret
    }

    fn vm(&mut self, slot: usize, x1: u64) -> u64 {
        self.call(javavm_thunk_addr(slot), x1, 0, 0).ret
    }
}

#[test]
fn thunk_addresses() {
    assert_eq!(jnienv_thunk_addr(0), 0x7f10_0000);
    assert_eq!(jnienv_thunk_addr(jnienv_slot::FIND_CLASS), 0x7f10_0030);
    assert_eq!(javavm_thunk_addr(javavm_slot::GET_ENV), 0x7f11_0030);
    assert_eq!(jni_stubs::JNI_STUB_COUNT, 64);
}

#[test]
fn thunks_identify_their_functions() {
    let table = [
        (jnienv_slot::FIND_CLASS, JniStubId::FindClass),
        (jnienv_slot::GET_METHOD_ID, JniStubId::GetMethodId),
        (jnienv_slot::GET_STATIC_METHOD_ID, JniStubId::GetStaticMethodId),
        (jnienv_slot::CALL_VOID_METHOD, JniStubId::CallVoidMethod),
        (jnienv_slot::CALL_OBJECT_METHOD, JniStubId::CallObjectMethod),
        (jnienv_slot::CALL_INT_METHOD, JniStubId::CallIntMethod),
        (jnienv_slot::CALL_BOOLEAN_METHOD, JniStubId::CallBooleanMethod),
        (jnienv_slot::CALL_LONG_METHOD, JniStubId::CallLongMethod),
        (jnienv_slot::CALL_STATIC_VOID_METHOD, JniStubId::CallStaticVoidMethod),
        (jnienv_slot::CALL_STATIC_OBJECT_METHOD, JniStubId::CallStaticObjectMethod),
        (jnienv_slot::NEW_STRING_UTF, JniStubId::NewStringUtf),
        (jnienv_slot::GET_STRING_UTF_CHARS, JniStubId::GetStringUtfChars),
        (jnienv_slot::RELEASE_STRING_UTF_CHARS, JniStubId::ReleaseStringUtfChars),
        (jnienv_slot::GET_VERSION, JniStubId::GetVersion),
        (jnienv_slot::EXCEPTION_OCCURRED, JniStubId::ExceptionOccurred),
        (jnienv_slot::EXCEPTION_DESCRIBE, JniStubId::ExceptionDescribe),
        (jnienv_slot::EXCEPTION_CLEAR, JniStubId::ExceptionClear),
        (jnienv_slot::NEW_GLOBAL_REF, JniStubId::NewGlobalRef),
        (jnienv_slot::DELETE_GLOBAL_REF, JniStubId::DeleteGlobalRef),
        (jnienv_slot::DELETE_LOCAL_REF, JniStubId::DeleteLocalRef),
        (jnienv_slot::GET_OBJECT_CLASS, JniStubId::GetObjectClass),
        (jnienv_slot::IS_INSTANCE_OF, JniStubId::IsInstanceOf),
        (jnienv_slot::GET_FIELD_ID, JniStubId::GetFieldId),
        (jnienv_slot::GET_STATIC_FIELD_ID, JniStubId::GetStaticFieldId),
        (jnienv_slot::GET_OBJECT_FIELD, JniStubId::GetObjectField),
        (jnienv_slot::GET_INT_FIELD, JniStubId::GetIntField),
        (jnienv_slot::REGISTER_NATIVES, JniStubId::RegisterNatives),
        (jnienv_slot::GET_JAVA_VM, JniStubId::GetJavaVm),
        (jnienv_slot::GET_ARRAY_LENGTH, JniStubId::GetArrayLength),
        (jnienv_slot::MONITOR_ENTER, JniStubId::MonitorEnter),
        (jnienv_slot::MONITOR_EXIT, JniStubId::MonitorExit),
    ];
    for (slot, stub) in table {
        assert_eq!(JniStubId::from_pc(jnienv_thunk_addr(slot)), stub);
        assert_eq!(JniStubId::from_pc(jnienv_thunk_addr(slot) + 7), stub);
        assert!(is_jni_thunk_address(jnienv_thunk_addr(slot)));
    }
    let table = [
        (javavm_slot::GET_ENV, JniStubId::GetEnv),
        (javavm_slot::ATTACH_CURRENT_THREAD, JniStubId::AttachCurrentThread),
        (javavm_slot::ATTACH_CURRENT_THREAD_AS_DAEMON, JniStubId::AttachCurrentThread),
        (javavm_slot::DETACH_CURRENT_THREAD, JniStubId::DetachCurrentThread),
    ];
    for (slot, stub) in table {
        assert_eq!(JniStubId::from_pc(javavm_thunk_addr(slot)), stub);
        assert!(is_jni_thunk_address(javavm_thunk_addr(slot)));
    }
}

#[test]
fn other_addresses_are_unknown() {
    for pc in [0, 0x7f0f_ffff, 0x7f10_0000, 0x7f10_0028, 0x7f11_0018, 0x7f11_1000, u64::MAX] {
        assert_eq!(JniStubId::from_pc(pc), JniStubId::Unknown(pc));
        assert!(handle_jni_thunk(pc, 0, 0, 0, &JvmState::new()).is_none());
    }
}

#[test]
fn thunk_ranges() {
    for (pc, expected) in [
        (0x7f0f_ffff, false),
        (0x7f10_0000, true),
        (0x7f10_1fff, true),
        (0x7f10_2000, false),
        (0x7f11_0000, true),
        (0x7f11_00ff, true),
        (0x7f11_0100, false),
    ] {
        assert_eq!(is_jni_thunk_address(pc), expected);
    }
}

#[test]
fn handles_stand_apart() {
    let mut handles = HandleAllocator::new();
    assert_eq!(alloc_handle(&mut handles), 0x7f20_0000);
    assert_eq!(alloc_handle(&mut handles), 0x7f20_0080);
    assert_eq!(alloc_handle(&mut handles), 0x7f20_0100);
    assert!(handles.has_room());
    assert!(!HandleAllocator { next: u64::MAX - 127 }.has_room());
    assert!(HandleAllocator { next: u64::MAX - 128 }.has_room());
}

#[test]
fn scratch_memory_is_handed_out_in_order() {
    let mut scratch = ScratchAllocator::new();
    assert_eq!(scratch.take(6), 0x7f20_0000);
    assert_eq!(scratch.take(1), 0x7f20_0006);
    assert_eq!(scratch.next, 0x7f20_0007);
    assert!(!scratch.has_room(u64::MAX));
}

#[test]
fn a_new_state_knows_nothing() {
    let s = JvmState::new();
    assert!(s.classes.is_empty());
    assert!(s.strings.is_empty());
    assert!(s.methods.entries.is_empty());
    assert_eq!(s.native_methods.len(), 0);
    assert_eq!(s.jnienv_ptr, 0x7f05_0000);
    assert_eq!(s.javavm_ptr, 0x7f04_0000);
}

#[test]
fn classes_are_interned() {
    let mut s = JvmState::new();
    let mut handles = HandleAllocator::new();
    let a = s.get_or_create_class("java/lang/String", &mut handles);
    let b = s.get_or_create_class("java/lang/Object", &mut handles);
    assert_eq!((a, b), (0x7f20_0000, 0x7f20_0080));
    assert_eq!(s.get_or_create_class("java/lang/String", &mut handles), a);
    assert_eq!(handles.next, 0x7f20_0100);
    assert_eq!(s.classes.get(&a).map(|n| n.as_str()), Some("java/lang/String"));
    let mut full = HandleAllocator { next: u64::MAX };
    assert_eq!(s.get_or_create_class("java/lang/Object", &mut full), b);
}

#[test]
fn methods_are_interned() {
    let mut s = JvmState::new();
    let mut handles = HandleAllocator::new();
    let a = s.get_or_create_method(1, "run", "()V", &mut handles);
    let b = s.get_or_create_method(1, "run", "()J", &mut handles);
    let c = s.get_or_create_method(2, "run", "()V", &mut handles);
    assert_eq!((a, b, c), (0x7f20_0000, 0x7f20_0080, 0x7f20_0100));
    assert_eq!(s.get_or_create_method(1, "run", "()V", &mut handles), a);
    assert_eq!(handles.next, 0x7f20_0180);
}

#[test]
fn method_tables() {
    let mut t = MethodTable::new();
    assert_eq!(t.get(1, "a", "b"), None);
    t.insert(MethodEntry { class: 1, name: "a".into(), sig: "b".into(), handle: 9 });
    assert_eq!(t.get(1, "a", "b"), Some(9));
    assert_eq!(t.get(1, "a", "c"), None);
    let mut n = NativeTable::new();
    n.insert(NativeMethod { class: "C".into(), name: "a".into(), sig: "b".into(), fn_ptr: 1 });
    n.insert(NativeMethod { class: "D".into(), name: "a".into(), sig: "b".into(), fn_ptr: 2 });
    n.insert(NativeMethod { class: "C".into(), name: "a".into(), sig: "b".into(), fn_ptr: 3 });
    assert_eq!(n.len(), 2);
    assert_eq!(n.get("C", "a", "b"), Some(3));
    assert_eq!(n.get("D", "a", "b"), Some(2));
    assert_eq!(n.get("E", "a", "b"), None);
}

#[test]
fn setup_writes_the_structures() {
    let (_, ops) = build_jvm_memory();
    for ops in [ops, ensure_jvm_memory_intact()] {
        assert_eq!(ops.len(), 252);
        let mut mem = Memory::new();
        mem.write(0x7f05_0000, &[0xff; 64]);
        mem.run(&ops);
        assert_eq!(mem.word(0x7f04_0000), 0x7f04_0008);
        assert_eq!(mem.word(0x7f05_0000), 0x7f05_0008);
        assert_eq!(mem.word(0x7f04_0008 + 8 * 6), javavm_thunk_addr(javavm_slot::GET_ENV));
        for slot in 3..8 {
            assert_eq!(mem.word(0x7f04_0008 + 8 * slot as u64), javavm_thunk_addr(slot));
        }
        assert_eq!(mem.word(0x7f05_0008 + 8 * 6), jnienv_thunk_addr(jnienv_slot::FIND_CLASS));
        for slot in 0..232 {
            assert_eq!(mem.word(0x7f05_0008 + 8 * slot as u64), jnienv_thunk_addr(slot));
        }
        assert_eq!(mem.word(0x7f06_0000), 0x7f06_0000);
        assert_eq!(mem.word(0x7f06_0008), 0x7f06_0000);
        assert_eq!(mem.word(0x7f06_0010), 0x7f06_0080);
        assert_eq!(mem.word(0x7f06_0028), 0x7f05_0000);
        assert_eq!(mem.word(0x7f06_0038), 0xdead_beef_cafe_babe);
    }
}

#[test]
fn setup_maps_its_pages_first() {
    let (_, ops) = build_jvm_memory();
    let maps: Vec<(u64, u64)> = ops
        .iter()
        .take(8)
        .map(|op| match op {
            SetupOp::MapPages { addr, size } => (*addr, *size),
            SetupOp::StoreWord { .. } => panic!("a store among the maps"),
        })
        .collect();
    assert_eq!(
        maps,
        vec![
            (0x7f04_0000, 0x1000),
            (0x7f05_0000, 0x1000),
            (0x7f05_0008, 0x1000),
            (0x7f06_0000, 0x1000),
            (0x7f10_0000, 0x2000),
            (0x7f11_0000, 0x1000),
            (0x7f20_0000, 0x10000),
            (0, 0x1000),
        ]
    );
    assert!(ops.iter().skip(8).all(|op| matches!(op, SetupOp::StoreWord { .. })));
}

#[test]
fn only_the_structures_are_required() {
    let required = |ops: &[SetupOp]| -> Vec<u64> {
        ops.iter()
            .filter_map(|op| match op {
                SetupOp::StoreWord { addr, required: true, .. } => Some(*addr),
                _ => None,
            })
            .collect()
    };
    assert_eq!(required(&build_jvm_memory().1), vec![0x7f04_0000, 0x7f05_0000]);
    assert!(required(&ensure_jvm_memory_intact()).is_empty());
}

#[test]
fn c_strings_are_read_from_memory() {
    let mut mem = Memory::new();
    mem.write(0x2000, b"hello\0rest");
    assert_eq!(mem.string(0x2000).as_deref(), Some("hello"));
    mem.write(0x3000, "caf\u{e9}".as_bytes());
    assert_eq!(mem.string(0x3000).as_deref(), Some("caf\u{e9}"));
    mem.write(0x4000, &[0]);
    assert_eq!(mem.string(0x4000), None);
    mem.write(0x5000, &[0xff, 0xfe, 0]);
    assert_eq!(mem.string(0x5000), None);
    mem.write(0x0800, b"low\0");
    assert_eq!(mem.string(0x0800), None);
    assert_eq!(mem.string(0x9000), None);
}

#[test]
fn c_strings_end_at_the_limit() {
    let mut mem = Memory::new();
    mem.write(0x2000, &[b'x'; 300]);
    assert_eq!(mem.string(0x2000), Some("x".repeat(256)));
}

#[test]
fn a_reader_stops_at_the_end_of_memory() {
    let mut reader = CStringReader::new(u64::MAX);
    assert_eq!(reader.request(), ByteRequest::Byte(u64::MAX));
    reader.supply(Some(b'a'));
    assert_eq!(reader.request(), ByteRequest::PastEnd);
    assert_eq!(CStringReader::new(0xfff).request(), ByteRequest::Finished);
}

#[test]
fn words_that_cannot_be_read_are_zero() {
    assert_eq!(jvm::read_u64(&None), 0);
    assert_eq!(jvm::read_u64(&Some(vec![1, 2, 3])), 0);
    assert_eq!(jvm::read_u64(&Some(vec![1, 0, 0, 0, 0, 0, 0, 0x80])), 0x8000_0000_0000_0001);
}

#[test]
fn find_class_and_get_method_id() {
    let mut vm = Vm::new();
    let name = vm.text(0x2000, "com/app/Native");
    let class = vm.env(jnienv_slot::FIND_CLASS, name, 0, 0);
    assert_eq!(class, 0x7f20_0000);
    assert_eq!(vm.env(jnienv_slot::FIND_CLASS, name, 0, 0), class);
    let unknown = vm.env(jnienv_slot::FIND_CLASS, 0, 0, 0);
    assert_eq!(vm.state.classes.get(&unknown).map(|s| s.as_str()), Some("<unknown>"));
    let run = vm.text(0x3000, "run");
    let sig = vm.text(0x4000, "()V");
    let method = vm.env(jnienv_slot::GET_METHOD_ID, class, run, sig);
    assert_eq!(vm.env(jnienv_slot::GET_STATIC_METHOD_ID, class, run, sig), method);
    assert_eq!(vm.state.methods.get(class, "run", "()V"), Some(method));
    let anonymous = vm.env(jnienv_slot::GET_METHOD_ID, class, 0, 0);
    assert_eq!(vm.state.methods.get(class, "", ""), Some(anonymous));
}

#[test]
fn strings_are_handed_back() {
    let mut vm = Vm::new();
    let text = vm.text(0x2000, "gr\u{fc}\u{df}e");
    let s = vm.env(jnienv_slot::NEW_STRING_UTF, text, 0, 0);
    let other = vm.env(jnienv_slot::NEW_STRING_UTF, 0, 0, 0);
    assert_ne!(s, other);
    let r = vm.call(jnienv_thunk_addr(jnienv_slot::GET_STRING_UTF_CHARS), s, 0, 0);
    assert_eq!(r.ret, 0x7f20_0000);
    match &r.effect {
        Effect::StoreString(store) => {
            assert_eq!(store.bytes, "gr\u{fc}\u{df}e\0".as_bytes());
            assert_eq!((store.map_addr, store.map_size), (0x7f20_0000, 4096));
        }
        _ => panic!("a string is stored"),
    }
    assert_eq!(vm.mem.string(r.ret).as_deref(), Some("gr\u{fc}\u{df}e"));
    let next = vm.env(jnienv_slot::GET_STRING_UTF_CHARS, 0x1, 0, 0);
    assert_eq!(next, 0x7f20_0000 + 8);
    assert_eq!(vm.mem.bytes.get(&next), Some(&0));
}

#[test]
fn long_strings_map_more_pages() {
    let mut scratch = ScratchAllocator { next: 0x7f20_1f00 };
    let store = jvm::cstring::write_cstring_to_mem(&"y".repeat(4096), &mut scratch);
    assert_eq!(store.map_addr, 0x7f20_1000);
    assert_eq!(store.map_size, 8192);
    assert_eq!(store.addr, 0x7f20_1f00);
    assert_eq!(store.bytes.len(), 4097);
    assert_eq!(scratch.next, 0x7f20_2f01);
    assert_eq!(jvm::cstring::byte_count("\u{e9}"), 2);
}

#[test]
fn register_natives_registers_the_array() {
    let mut vm = Vm::new();
    let name = vm.text(0x2000, "com/app/Native");
    let class = vm.env(jnienv_slot::FIND_CLASS, name, 0, 0);
    let create = vm.text(0x3000, "nCreate");
    let create_sig = vm.text(0x3100, "()J");
    let resize = vm.text(0x3200, "nResize");
    let resize_sig = vm.text(0x3300, "(JII)V");
    for (i, w) in [create, create_sig, 0x40_1000, resize, resize_sig, 0x40_2000, 0, 0, 7]
        .iter()
        .enumerate()
    {
        vm.mem.write_word(0x5000 + 8 * i as u64, *w);
    }
    assert_eq!(vm.env(jnienv_slot::REGISTER_NATIVES, class, 0x5000, 3), 0);
    assert_eq!(vm.state.native_methods.len(), 3);
    assert_eq!(vm.state.native_methods.get("com/app/Native", "nCreate", "()J"), Some(0x40_1000));
    assert_eq!(vm.state.native_methods.get("com/app/Native", "nResize", "(JII)V"), Some(0x40_2000));
    assert_eq!(vm.state.native_methods.get("com/app/Native", "", ""), Some(7));
    assert_eq!(vm.env(jnienv_slot::REGISTER_NATIVES, 0xabc, 0x5000, 1), 0);
    assert_eq!(vm.state.native_methods.get("class_0xabc", "nCreate", "()J"), Some(0x40_1000));
    assert_eq!(vm.env(jnienv_slot::REGISTER_NATIVES, class, 0x5000, 0), 0);
    assert_eq!(vm.state.native_methods.len(), 4);
}

#[test]
fn register_natives_stops_at_the_end_of_memory() {
    let mut s = JvmState::new();
    let pc = jnienv_thunk_addr(jnienv_slot::REGISTER_NATIVES);
    let mut call = handle_jni_thunk(pc, 1, u64::MAX - 15, 2, &s).expect("a JNI function");
    assert_eq!(call.request(), CallRequest::Word(u64::MAX - 15));
    call.supply_word(0);
    assert_eq!(call.request(), CallRequest::Word(u64::MAX - 7));
    call.supply_word(0);
    assert_eq!(call.request(), CallRequest::PastEnd);
    let mut call = handle_jni_thunk(pc, 1, 0x5000, 1, &s).expect("a JNI function");
    for w in [0x10, 0x20, 0x30] {
        call.supply_word(w);
    }
    assert_eq!(call.request(), CallRequest::Text(0x10));
    call.supply_text(Some("n".into()), &mut s);
    assert_eq!(call.request(), CallRequest::Text(0x20));
    call.supply_text(None, &mut s);
    assert_eq!(call.request(), CallRequest::Ready);
    assert_eq!(s.native_methods.get("class_0x1", "n", ""), Some(0x30));
}

#[test]
fn pointers_are_handed_out() {
    let mut vm = Vm::new();
    assert_eq!(vm.vm(javavm_slot::GET_ENV, 0x2000), 0);
    assert_eq!(vm.mem.word(0x2000), 0x7f05_0000);
    assert_eq!(vm.vm(javavm_slot::ATTACH_CURRENT_THREAD, 0x2010), 0);
    assert_eq!(vm.mem.word(0x2010), 0x7f05_0000);
    assert_eq!(vm.env(jnienv_slot::GET_JAVA_VM, 0x2020, 0, 0), 0);
    assert_eq!(vm.mem.word(0x2020), 0x7f04_0000);
    let r = vm.call(javavm_thunk_addr(javavm_slot::GET_ENV), 0, 0, 0);
    assert!(matches!(r.effect, Effect::Nothing));
    assert_eq!(vm.vm(javavm_slot::DETACH_CURRENT_THREAD, 0), 0);
}

#[test]
fn functions_with_fixed_results() {
    let mut vm = Vm::new();
    assert_eq!(vm.env(jnienv_slot::GET_VERSION, 0, 0, 0), 0x0001_0006);
    assert_eq!(vm.env(jnienv_slot::NEW_GLOBAL_REF, 0x77, 0, 0), 0x77);
    assert_eq!(vm.env(jnienv_slot::IS_INSTANCE_OF, 1, 2, 0), 1);
    for slot in [
        jnienv_slot::RELEASE_STRING_UTF_CHARS,
        jnienv_slot::EXCEPTION_OCCURRED,
        jnienv_slot::EXCEPTION_DESCRIBE,
        jnienv_slot::EXCEPTION_CLEAR,
        jnienv_slot::DELETE_GLOBAL_REF,
        jnienv_slot::DELETE_LOCAL_REF,
        jnienv_slot::GET_INT_FIELD,
        jnienv_slot::GET_ARRAY_LENGTH,
        jnienv_slot::CALL_VOID_METHOD,
        jnienv_slot::CALL_STATIC_VOID_METHOD,
        jnienv_slot::CALL_INT_METHOD,
        jnienv_slot::CALL_BOOLEAN_METHOD,
        jnienv_slot::CALL_LONG_METHOD,
        jnienv_slot::MONITOR_ENTER,
        jnienv_slot::MONITOR_EXIT,
    ] {
        assert_eq!(vm.env(slot, 5, 6, 7), 0);
    }
    assert_eq!(vm.handles.next, 0x7f20_0000);
}

#[test]
fn functions_that_make_handles() {
    let mut vm = Vm::new();
    let mut expected = 0x7f20_0000;
    for slot in [
        jnienv_slot::GET_OBJECT_CLASS,
        jnienv_slot::GET_FIELD_ID,
        jnienv_slot::GET_STATIC_FIELD_ID,
        jnienv_slot::GET_OBJECT_FIELD,
        jnienv_slot::CALL_OBJECT_METHOD,
        jnienv_slot::CALL_STATIC_OBJECT_METHOD,
    ] {
        assert_eq!(vm.env(slot, 5, 6, 7), expected);
        expected += 128;
    }
}

#[test]
fn calls_that_need_room_say_so() {
    let mut s = JvmState::new();
    let full = HandleAllocator { next: u64::MAX };
    let scratch = ScratchAllocator { next: u64::MAX };
    let free = HandleAllocator::new();
    let object = jnienv_thunk_addr(jnienv_slot::GET_OBJECT_CLASS);
    let call = handle_jni_thunk(object, 0, 0, 0, &s).expect("a JNI function");
    assert!(!call.can_finish(&s, &full, &scratch));
    assert!(call.can_finish(&s, &free, &scratch));
    let chars = jnienv_thunk_addr(jnienv_slot::GET_STRING_UTF_CHARS);
    let call = handle_jni_thunk(chars, 0, 0, 0, &s).expect("a JNI function");
    assert!(!call.can_finish(&s, &full, &scratch));
    let find = jnienv_thunk_addr(jnienv_slot::FIND_CLASS);
    let mut call = handle_jni_thunk(find, 0x2000, 0, 0, &s).expect("a JNI function");
    call.supply_text(Some("A".into()), &mut s);
    assert!(!call.can_finish(&s, &full, &scratch));
    s.insert_class(9, "A");
    assert!(call.can_finish(&s, &full, &scratch));
}

#[test]
fn activity_lifecycle_is_logged() {
    let mut s = JvmState::new();
    let mut handles = HandleAllocator::new();
    let logs = dispatch_activity_lifecycle("com.app.Main", &mut s, &mut handles);
    assert_eq!(
        logs,
        vec![
            "[Activity] Instantiated Activity object (com.app.Main) at handle 0x7f200000",
            "[Activity] Executing com.app.Main.onCreate(Bundle=NULL)...",
            "[Activity] Executing com.app.Main.onStart()...",
            "[Activity] Executing com.app.Main.onResume()...",
        ]
    );
    assert_eq!(s.classes.get(&0x7f20_0000).map(|n| n.as_str()), Some("com.app.Main"));
    assert_eq!(handles.next, 0x7f20_0080);
}

#[test]
fn handles_over_a_run() {
    let mut state = JvmState::new();
    let mut handles = HandleAllocator::new();
    let a = state.get_or_create_class("A", &mut handles);
    let m = state.get_or_create_method(a, "run", "()V", &mut handles);
    let other = alloc_handle(&mut handles);
    let b = state.get_or_create_class("B", &mut handles);
    let n = state.get_or_create_method(b, "run", "()V", &mut handles);
    let o = state.get_or_create_method(a, "run", "()I", &mut handles);
    assert_eq!(state.get_or_create_class("A", &mut handles), a);
    assert_eq!(state.get_or_create_method(a, "run", "()V", &mut handles), m);
    assert_eq!(state.get_or_create_class("B", &mut handles), b);
    let all = [a, m, other, b, n, o];
    for (i, h) in all.iter().enumerate() {
        assert_eq!(*h, 0x7f20_0000 + 128 * i as u64);
        assert_ne!(*h, 0);
    }
    assert_eq!(handles.next, 0x7f20_0000 + 128 * 6);
    assert_eq!(state.classes.len(), 2);
}

#[test]
fn stored_strings_follow_each_other() {
    let mut scratch = ScratchAllocator::new();
    let mut mem = Memory::new();
    let first = jvm::cstring::write_cstring_to_mem("h\u{e9}llo", &mut scratch);
    let second = jvm::cstring::write_cstring_to_mem("", &mut scratch);
    let third = jvm::cstring::write_cstring_to_mem("world", &mut scratch);
    for store in [&first, &second, &third] {
        mem.write(store.addr, &store.bytes);
    }
    assert_eq!(first.addr, 0x7f20_0000);
    assert_eq!(second.addr, first.addr + 7);
    assert_eq!(third.addr, second.addr + 1);
    assert_eq!(scratch.next, third.addr + 6);
    assert_eq!(mem.string(first.addr), Some("h\u{e9}llo".to_string()));
    assert_eq!(mem.string(second.addr), None);
    assert_eq!(mem.string(third.addr), Some("world".to_string()));
}
