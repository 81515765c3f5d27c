//! Calls of JNI functions by native code.
//!
//! The arguments of a call may lie in guest memory, which is read by the caller. A
//! `JniCall` says what it wants from there, takes the answers, and when it wants nothing
//! more gives the result of the call.
use crate::jvm::cstring;
use crate::jvm::cstring::{write_cstring_to_mem, StringStore};
use crate::jvm::handles::{alloc_handle, HandleAllocator, ScratchAllocator};
use crate::jvm::jni_stubs;
use crate::jvm::jni_stubs::{JniStubId, JAVAVM_THUNK_BASE, JNIENV_THUNK_BASE};
use crate::jvm::registry::NativeMethod;
use crate::jvm::state;
use crate::jvm::state::{JvmModel, JvmState, JAVAVM_STRUCT_ADDR, JNIENV_STRUCT_ADDR};
use crate::text;
use vstd::prelude::*;
use vstd::utf8::*;

verus! {

/// The version that the VM reports: JNI 1.6.
pub const JNI_VERSION: u64 = 0x0001_0006;

/// The size of an entry of the array that `RegisterNatives` takes: three pointers.
pub const NATIVE_ENTRY_SIZE: u64 = 24;

/// What a call wants from guest memory.
#[derive(Debug, Clone, Copy, PartialEq, Eq, Structural)]
pub enum CallRequest {
    /// The word at this address.
    Word(u64),
    /// The string at this address.
    Text(u64),
    /// Nothing more.
    Ready,
    /// A word behind the end of the address space.
    PastEnd,
}

/// What a call does to guest memory.
#[derive(Debug)]
pub enum Effect {
    Nothing,
    /// Write a word; a failure is passed over.
    StoreWord { addr: u64, value: u64 },
    /// Map memory and write a string; failures are passed over.
    StoreString(StringStore),
}

/// The result of a call.
#[derive(Debug)]
pub struct CallResult {
    /// The value that is returned in the first register.
    pub ret: u64,
    /// Where execution goes on.
    pub pc: u64,
    /// What is to be done to guest memory.
    pub effect: Effect,
}

/// What a `JniCall` has been told.
#[verifier::ext_equal]
pub struct CallModel {
    pub stub: JniStubId,
    pub x1: u64,
    pub x2: u64,
    pub x3: u64,
    pub class_name: Seq<char>,
    pub entry: u64,
    pub words: Seq<u64>,
    pub texts: Seq<Option<Seq<char>>>,
}

/// A JNI call in progress.
#[derive(Debug)]
pub struct JniCall {
    pub stub: JniStubId,
    /// The arguments behind the JNIEnv or JavaVM pointer.
    pub x1: u64,
    pub x2: u64,
    pub x3: u64,
    /// `RegisterNatives`: the name of the class.
    pub class_name: String,
    /// `RegisterNatives`: the number of entries that have been registered.
    pub entry: u64,
    /// `RegisterNatives`: the words of the current entry, as far as they are known.
    pub words: Vec<u64>,
    /// The strings that have been read, for the current entry or for the call.
    pub texts: Vec<Option<String>>,
}

impl View for JniCall {
    type V = CallModel;

    open spec fn view(&self) -> CallModel {
        CallModel {
            stub: self.stub,
            x1: self.x1,
            x2: self.x2,
            x3: self.x3,
            class_name: self.class_name@,
            entry: self.entry,
            words: self.words@,
            texts: text::optional_texts(self.texts@),
        }
    }
}

/// The function takes one string, behind its first argument.
pub open spec fn takes_one_text(stub: JniStubId) -> bool {
    stub is FindClass || stub is NewStringUtf
}

/// The function takes two strings, a name and a signature, behind its second and third
/// arguments.
pub open spec fn takes_two_texts(stub: JniStubId) -> bool {
    stub is GetMethodId || stub is GetStaticMethodId || stub is GetFieldId
        || stub is GetStaticFieldId
}

/// The function looks a method up.
pub open spec fn finds_method(stub: JniStubId) -> bool {
    stub is GetMethodId || stub is GetStaticMethodId
}

/// The function returns a new handle, whatever its arguments.
pub open spec fn makes_handle(stub: JniStubId) -> bool {
    stub is NewStringUtf || stub is GetObjectClass || stub is GetFieldId || stub is GetStaticFieldId
        || stub is GetObjectField || stub is CallObjectMethod || stub is CallStaticObjectMethod
}

/// The function hands a pointer out through its first argument.
pub open spec fn handed_out(stub: JniStubId) -> Option<u64> {
    match stub {
        JniStubId::GetJavaVm => Some(JAVAVM_STRUCT_ADDR),
        JniStubId::GetEnv => Some(JNIENV_STRUCT_ADDR),
        JniStubId::AttachCurrentThread => Some(JNIENV_STRUCT_ADDR),
        _ => None,
    }
}

/// What the remaining functions return.
pub open spec fn fixed_result(stub: JniStubId, x1: u64) -> u64 {
    match stub {
        JniStubId::GetVersion => JNI_VERSION,
        JniStubId::NewGlobalRef => x1,
        JniStubId::IsInstanceOf => 1,
        _ => 0,
    }
}

impl CallModel {
    /// A call that has been told nothing yet.
    pub open spec fn starting(
        stub: JniStubId,
        x1: u64,
        x2: u64,
        x3: u64,
        jvm: JvmModel,
    ) -> CallModel {
        CallModel {
            stub,
            x1,
            x2,
            x3,
            class_name: if stub is RegisterNatives {
                state::class_name_of(jvm, x1)
            } else {
                Seq::empty()
            },
            entry: 0,
            words: Seq::empty(),
            texts: Seq::empty(),
        }
    }

    /// The address of word `k` of entry `i` of the array that `RegisterNatives` takes.
    pub open spec fn entry_word(self, i: int, k: int) -> int {
        self.x2 + i * NATIVE_ENTRY_SIZE + 8 * k
    }

    /// What the call wants next. Of an entry of `RegisterNatives` it wants the three
    /// pointers, then the name and the signature behind the first two.
    pub open spec fn request(self) -> CallRequest {
        if takes_one_text(self.stub) && self.texts.len() == 0 {
            CallRequest::Text(self.x1)
        } else if takes_two_texts(self.stub) && self.texts.len() == 0 {
            CallRequest::Text(self.x2)
        } else if takes_two_texts(self.stub) && self.texts.len() == 1 {
            CallRequest::Text(self.x3)
        } else if self.stub is RegisterNatives && self.entry < self.x3 {
            if self.words.len() < 3 {
                let a = self.entry_word(self.entry as int, self.words.len() as int);
                if a <= u64::MAX {
                    CallRequest::Word(a as u64)
                } else {
                    CallRequest::PastEnd
                }
            } else if self.texts.len() == 0 {
                CallRequest::Text(self.words[0])
            } else {
                CallRequest::Text(self.words[1])
            }
        } else {
            CallRequest::Ready
        }
    }

    /// The call after an answer to its request for a word.
    pub open spec fn after_word(self, w: u64) -> CallModel {
        CallModel { words: self.words.push(w), ..self }
    }

    /// A string completes an entry of `RegisterNatives`.
    pub open spec fn completes_entry(self) -> bool {
        self.stub is RegisterNatives && self.texts.len() > 0
    }

    /// The call after an answer to its request for a string.
    pub open spec fn after_text(self, t: Option<Seq<char>>) -> CallModel {
        if self.completes_entry() {
            CallModel {
                entry: (self.entry + 1) as u64,
                words: Seq::empty(),
                texts: Seq::empty(),
                ..self
            }
        } else {
            CallModel { texts: self.texts.push(t), ..self }
        }
    }

    /// What an answer to a request for a string does to the VM: the string that completes
    /// an entry registers it.
    pub open spec fn registers(self, t: Option<Seq<char>>, jvm: JvmModel) -> JvmModel {
        if self.completes_entry() {
            jvm.with_native(
                (self.class_name, text::text_or_empty(self.texts[0]), text::text_or_empty(t)),
                self.words[2],
            )
        } else {
            jvm
        }
    }

    /// String `i`, empty where it could not be read.
    pub open spec fn text(self, i: int) -> Seq<char> {
        text::text_or_empty(self.texts[i])
    }

    /// The name of the class that `FindClass` looks for.
    pub open spec fn class_wanted(self) -> Seq<char> {
        match self.texts[0] {
            Some(t) => t,
            None => "<unknown>"@,
        }
    }

    /// The method that is looked up.
    pub open spec fn method_wanted(self) -> (u64, Seq<char>, Seq<char>) {
        (self.x1, self.text(0), self.text(1))
    }

    /// The string whose characters are asked for.
    pub open spec fn string_wanted(self, jvm: JvmModel) -> Seq<char> {
        if jvm.strings.contains_key(self.x1) {
            jvm.strings[self.x1]
        } else {
            Seq::empty()
        }
    }

    /// The addresses that the call hands out are not used up.
    pub open spec fn fits(
        self,
        jvm: JvmModel,
        handles: HandleAllocator,
        scratch: ScratchAllocator,
    ) -> bool {
        if self.stub is FindClass {
            jvm.has_class(self.class_wanted()) || handles.room()
        } else if finds_method(self.stub) {
            jvm.methods.contains_key(self.method_wanted()) || handles.room()
        } else if makes_handle(self.stub) {
            handles.room()
        } else if self.stub is GetStringUtfChars {
            scratch.room(encode_utf8(self.string_wanted(jvm)).len() as int + 1)
        } else {
            true
        }
    }

    /// What the finished call returns and does to the VM.
    pub open spec fn gives(
        self,
        jvm: JvmModel,
        handles: HandleAllocator,
        scratch: ScratchAllocator,
        ret: u64,
        jvm_after: JvmModel,
        handles_after: HandleAllocator,
        scratch_after: ScratchAllocator,
    ) -> bool {
        if self.stub is FindClass {
            &&& jvm.interns_class(self.class_wanted(), handles, ret, jvm_after, handles_after)
            &&& scratch_after == scratch
        } else if finds_method(self.stub) {
            &&& jvm.interns_method(self.method_wanted(), handles, ret, jvm_after, handles_after)
            &&& scratch_after == scratch
        } else if makes_handle(self.stub) {
            &&& ret == handles.next
            &&& handles_after == handles.advanced()
            &&& jvm_after == (if self.stub is NewStringUtf {
                jvm.with_string(ret, self.text(0))
            } else {
                jvm
            })
            &&& scratch_after == scratch
        } else if self.stub is GetStringUtfChars {
            &&& ret == scratch.next
            &&& scratch_after.next == scratch.next + encode_utf8(self.string_wanted(jvm)).len() + 1
            &&& jvm_after == jvm
            &&& handles_after == handles
        } else {
            &&& ret == fixed_result(self.stub, self.x1)
            &&& jvm_after == jvm
            &&& handles_after == handles
            &&& scratch_after == scratch
        }
    }

    /// What the finished call does to guest memory.
    pub open spec fn has_effect(
        self,
        jvm: JvmModel,
        scratch: ScratchAllocator,
        effect: Effect,
    ) -> bool {
        if self.stub is GetStringUtfChars {
            effect matches Effect::StoreString(store) && store.puts(
                self.string_wanted(jvm),
                scratch.next,
            )
        } else {
            match handed_out(self.stub) {
                Some(value) if self.x1 != 0 => effect == (Effect::StoreWord {
                    addr: self.x1,
                    value,
                }),
                _ => effect == Effect::Nothing,
            }
        }
    }
}

/// `pc` is within the thunks of the JNI functions.
pub open spec fn is_jni_address(pc: u64) -> bool {
    JNIENV_THUNK_BASE <= pc < JNIENV_THUNK_BASE + 0x2000 || JAVAVM_THUNK_BASE <= pc
        < JAVAVM_THUNK_BASE + 0x100
}

/// Is `pc` within the thunks of the JNI functions?
pub fn is_jni_thunk_address(pc: u64) -> (r: bool)
    ensures
        r == is_jni_address(pc),
{
    (pc >= JNIENV_THUNK_BASE && pc < JNIENV_THUNK_BASE + 0x2000) || (pc >= JAVAVM_THUNK_BASE && pc
        < JAVAVM_THUNK_BASE + 0x100)
}

/// Begins a JNI call that arrives at `pc` with these arguments: `None` where no JNI
/// function stands there.
pub fn handle_jni_thunk(pc: u64, x1: u64, x2: u64, x3: u64, jvm: &JvmState) -> (r: Option<JniCall>)
    ensures
        r is None <==> jni_stubs::stub_at(pc) is Unknown,
        r matches Some(call) ==> call@ == CallModel::starting(
            jni_stubs::stub_at(pc),
            x1,
            x2,
            x3,
            jvm@,
        ),
{
    let stub = JniStubId::from_pc(pc);
    if let JniStubId::Unknown(_) = stub {
        return None;
    }
    let class_name = if let JniStubId::RegisterNatives = stub {
        jvm.class_name(x1)
    } else {
        String::new()
    };
    let call = JniCall {
        stub,
        x1,
        x2,
        x3,
        class_name,
        entry: 0,
        words: Vec::new(),
        texts: Vec::new(),
    };
    assert(call@ =~= CallModel::starting(stub, x1, x2, x3, jvm@));
    Some(call)
}

impl JniCall {
    /// What the call wants next.
    pub fn request(&self) -> (r: CallRequest)
        ensures
            r == self@.request(),
    {
        match self.stub {
            JniStubId::FindClass | JniStubId::NewStringUtf => {
                if self.texts.len() == 0 {
                    CallRequest::Text(self.x1)
                } else {
                    CallRequest::Ready
                }
            },
            JniStubId::GetMethodId
            | JniStubId::GetStaticMethodId
            | JniStubId::GetFieldId
            | JniStubId::GetStaticFieldId => {
                if self.texts.len() == 0 {
                    CallRequest::Text(self.x2)
                } else if self.texts.len() == 1 {
                    CallRequest::Text(self.x3)
                } else {
                    CallRequest::Ready
                }
            },
            JniStubId::RegisterNatives => {
                if self.entry >= self.x3 {
                    CallRequest::Ready
                } else if self.words.len() < 3 {
                    let a: u128 = self.x2 as u128 + self.entry as u128 * NATIVE_ENTRY_SIZE as u128
                        + 8 * (self.words.len() as u128);
                    if a <= u64::MAX as u128 {
                        CallRequest::Word(a as u64)
                    } else {
                        CallRequest::PastEnd
                    }
                } else if self.texts.len() == 0 {
                    CallRequest::Text(self.words[0])
                } else {
                    CallRequest::Text(self.words[1])
                }
            },
            _ => CallRequest::Ready,
        }
    }

    /// Takes the answer to a request for a word.
    pub fn supply_word(&mut self, w: u64)
        requires
            old(self)@.request() is Word,
        ensures
            final(self)@ == old(self)@.after_word(w),
    {
        self.words.push(w);
    }

    /// Takes the answer to a request for a string. The string that completes an entry of
    /// `RegisterNatives` registers it.
    pub fn supply_text(&mut self, t: Option<String>, jvm: &mut JvmState)
        requires
            old(self)@.request() is Text,
            old(jvm).wf(),
        ensures
            final(self)@ == old(self)@.after_text(text::optional_text(t)),
            final(jvm).wf(),
            final(jvm)@ == old(self)@.registers(text::optional_text(t), old(jvm)@),
    {
        let registers = if let JniStubId::RegisterNatives = self.stub {
            self.texts.len() > 0
        } else {
            false
        };
        if registers {
            let entry = NativeMethod {
                class: self.class_name.clone(),
                name: text::or_empty(&self.texts[0]),
                sig: text::or_empty(&t),
                fn_ptr: self.words[2],
            };
            assert(self@.texts[0] == text::optional_text(self.texts@[0]));
            jvm.native_methods.insert(entry);
            self.entry = self.entry + 1;
            self.words = Vec::new();
            self.texts = Vec::new();
            assert(self@ =~= old(self)@.after_text(text::optional_text(t)));
        } else {
            let ghost told = text::optional_text(t);
            self.texts.push(t);
            assert(self@ =~= old(self)@.after_text(told));
        }
    }

    /// The name of the class that is looked for.
    fn class_wanted(&self) -> (r: String)
        requires
            self.texts@.len() > 0,
        ensures
            r@ == self@.class_wanted(),
    {
        assert(self@.texts[0] == text::optional_text(self.texts@[0]));
        match &self.texts[0] {
            Some(t) => t.clone(),
            None => "<unknown>".to_owned(),
        }
    }

    /// Are the addresses that the call hands out not used up?
    pub fn can_finish(
        &self,
        jvm: &JvmState,
        handles: &HandleAllocator,
        scratch: &ScratchAllocator,
    ) -> (r: bool)
        requires
            self@.request() is Ready,
            jvm.wf(),
        ensures
            r == self@.fits(jvm@, *handles, *scratch),
    {
        match self.stub {
            JniStubId::FindClass => handles.has_room() || jvm.find_class(
                self.class_wanted().as_str(),
            ).is_some(),
            JniStubId::GetMethodId | JniStubId::GetStaticMethodId => {
                assert(self@.texts[0] == text::optional_text(self.texts@[0]));
                assert(self@.texts[1] == text::optional_text(self.texts@[1]));
                handles.has_room() || jvm.methods.get(
                    self.x1,
                    text::or_empty(&self.texts[0]).as_str(),
                    text::or_empty(&self.texts[1]).as_str(),
                ).is_some()
            },
            JniStubId::NewStringUtf
            | JniStubId::GetObjectClass
            | JniStubId::GetFieldId
            | JniStubId::GetStaticFieldId
            | JniStubId::GetObjectField
            | JniStubId::CallObjectMethod
            | JniStubId::CallStaticObjectMethod => handles.has_room(),
            JniStubId::GetStringUtfChars => {
                let count: u64 = cstring::byte_count(jvm.string_content(self.x1).as_str());
                count < u64::MAX && scratch.has_room(count + 1)
            },
            _ => true,
        }
    }

    /// Finishes the call: returns its result, which goes to where the link register points.
    pub fn finish(
        self,
        lr: u64,
        jvm: &mut JvmState,
        handles: &mut HandleAllocator,
        scratch: &mut ScratchAllocator,
    ) -> (r: CallResult)
        requires
            self@.request() is Ready,
            old(jvm).wf(),
            old(scratch).wf(),
            self@.fits(old(jvm)@, *old(handles), *old(scratch)),
        ensures
            r.pc == lr,
            self@.gives(
                old(jvm)@,
                *old(handles),
                *old(scratch),
                r.ret,
                final(jvm)@,
                *final(handles),
                *final(scratch),
            ),
            self@.has_effect(old(jvm)@, *old(scratch), r.effect),
            final(jvm).wf(),
            final(scratch).wf(),
    {
        let ret: u64;
        let mut effect = Effect::Nothing;
        match self.stub {
            JniStubId::FindClass => {
                let name = self.class_wanted();
                ret = jvm.get_or_create_class(name.as_str(), handles);
            },
            JniStubId::GetMethodId | JniStubId::GetStaticMethodId => {
                assert(self@.texts[0] == text::optional_text(self.texts@[0]));
                assert(self@.texts[1] == text::optional_text(self.texts@[1]));
                let name = text::or_empty(&self.texts[0]);
                let sig = text::or_empty(&self.texts[1]);
                ret = jvm.get_or_create_method(self.x1, name.as_str(), sig.as_str(), handles);
            },
            JniStubId::NewStringUtf => {
                assert(self@.texts[0] == text::optional_text(self.texts@[0]));
                ret = alloc_handle(handles);
                jvm.insert_string(ret, text::or_empty(&self.texts[0]));
            },
            JniStubId::GetStringUtfChars => {
                let s = jvm.string_content(self.x1);
                let store = write_cstring_to_mem(s.as_str(), scratch);
                ret = store.addr;
                effect = Effect::StoreString(store);
            },
            JniStubId::GetObjectClass
            | JniStubId::GetFieldId
            | JniStubId::GetStaticFieldId
            | JniStubId::GetObjectField
            | JniStubId::CallObjectMethod
            | JniStubId::CallStaticObjectMethod => {
                ret = alloc_handle(handles);
            },
            JniStubId::GetVersion => {
                ret = JNI_VERSION;
            },
            JniStubId::NewGlobalRef => {
                ret = self.x1;
            },
            JniStubId::IsInstanceOf => {
                ret = 1;
            },
            JniStubId::GetJavaVm => {
                ret = 0;
                if self.x1 != 0 {
                    effect = Effect::StoreWord { addr: self.x1, value: JAVAVM_STRUCT_ADDR };
                }
            },
            JniStubId::GetEnv | JniStubId::AttachCurrentThread => {
                ret = 0;
                if self.x1 != 0 {
                    effect = Effect::StoreWord { addr: self.x1, value: JNIENV_STRUCT_ADDR };
                }
            },
            _ => {
                ret = 0;
            },
        }
        CallResult { ret, pc: lr, effect }
    }
}

} // verus!
