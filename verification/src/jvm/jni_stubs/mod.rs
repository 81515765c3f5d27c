//! The functions that the VM offers to native code, each with a guest address of its own.
//!
//! The address encodes the function: a call that arrives at a thunk address is told apart
//! by the address alone.
pub mod javavm_slot;
pub mod jnienv_slot;

use vstd::prelude::*;

verus! {

/// The number of functions that stubs are planned for.
pub const JNI_STUB_COUNT: usize = 64;

/// Where the thunks of the JNIEnv functions begin.
pub const JNIENV_THUNK_BASE: u64 = 0x7f10_0000;

/// Where the thunks of the JavaVM functions begin.
pub const JAVAVM_THUNK_BASE: u64 = 0x7f11_0000;

/// The distance from one thunk to the next.
pub const JNI_THUNK_STRIDE: u64 = 8;

/// Identifies a JNI function by the guest address of its thunk.
#[derive(Debug, Clone, Copy, PartialEq, Eq, Structural)]
pub enum JniStubId {
    // JNIEnv functions
    FindClass,
    GetMethodId,
    GetStaticMethodId,
    CallVoidMethod,
    CallObjectMethod,
    CallIntMethod,
    CallBooleanMethod,
    CallLongMethod,
    CallStaticVoidMethod,
    CallStaticObjectMethod,
    NewStringUtf,
    GetStringUtfChars,
    ReleaseStringUtfChars,
    GetVersion,
    ExceptionOccurred,
    ExceptionDescribe,
    ExceptionClear,
    NewGlobalRef,
    DeleteGlobalRef,
    DeleteLocalRef,
    GetObjectClass,
    IsInstanceOf,
    GetFieldId,
    GetStaticFieldId,
    GetObjectField,
    GetIntField,
    RegisterNatives,
    GetJavaVm,
    GetArrayLength,
    MonitorEnter,
    MonitorExit,
    // JavaVM functions
    GetEnv,
    AttachCurrentThread,
    DetachCurrentThread,
    // No function of the VM; the address that was called
    Unknown(u64),
}

/// The guest address of the thunk at `slot` of the JNIEnv table.
pub open spec fn jnienv_thunk(slot: int) -> int {
    JNIENV_THUNK_BASE + slot * JNI_THUNK_STRIDE
}

/// The guest address of the thunk at `slot` of the JavaVM table.
pub open spec fn javavm_thunk(slot: int) -> int {
    JAVAVM_THUNK_BASE + slot * JNI_THUNK_STRIDE
}

/// The function at `slot` of the JNIEnv table, where it is one that the VM offers.
pub open spec fn jnienv_stub(slot: int) -> Option<JniStubId> {
    if slot == jnienv_slot::FIND_CLASS {
        Some(JniStubId::FindClass)
    } else if slot == jnienv_slot::GET_METHOD_ID {
        Some(JniStubId::GetMethodId)
    } else if slot == jnienv_slot::GET_STATIC_METHOD_ID {
        Some(JniStubId::GetStaticMethodId)
    } else if slot == jnienv_slot::CALL_VOID_METHOD {
        Some(JniStubId::CallVoidMethod)
    } else if slot == jnienv_slot::CALL_OBJECT_METHOD {
        Some(JniStubId::CallObjectMethod)
    } else if slot == jnienv_slot::CALL_INT_METHOD {
        Some(JniStubId::CallIntMethod)
    } else if slot == jnienv_slot::CALL_BOOLEAN_METHOD {
        Some(JniStubId::CallBooleanMethod)
    } else if slot == jnienv_slot::CALL_LONG_METHOD {
        Some(JniStubId::CallLongMethod)
    } else if slot == jnienv_slot::CALL_STATIC_VOID_METHOD {
        Some(JniStubId::CallStaticVoidMethod)
    } else if slot == jnienv_slot::CALL_STATIC_OBJECT_METHOD {
        Some(JniStubId::CallStaticObjectMethod)
    } else if slot == jnienv_slot::NEW_STRING_UTF {
        Some(JniStubId::NewStringUtf)
    } else if slot == jnienv_slot::GET_STRING_UTF_CHARS {
        Some(JniStubId::GetStringUtfChars)
    } else if slot == jnienv_slot::RELEASE_STRING_UTF_CHARS {
        Some(JniStubId::ReleaseStringUtfChars)
    } else if slot == jnienv_slot::GET_VERSION {
        Some(JniStubId::GetVersion)
    } else if slot == jnienv_slot::EXCEPTION_OCCURRED {
        Some(JniStubId::ExceptionOccurred)
    } else if slot == jnienv_slot::EXCEPTION_DESCRIBE {
        Some(JniStubId::ExceptionDescribe)
    } else if slot == jnienv_slot::EXCEPTION_CLEAR {
        Some(JniStubId::ExceptionClear)
    } else if slot == jnienv_slot::NEW_GLOBAL_REF {
        Some(JniStubId::NewGlobalRef)
    } else if slot == jnienv_slot::DELETE_GLOBAL_REF {
        Some(JniStubId::DeleteGlobalRef)
    } else if slot == jnienv_slot::DELETE_LOCAL_REF {
        Some(JniStubId::DeleteLocalRef)
    } else if slot == jnienv_slot::GET_OBJECT_CLASS {
        Some(JniStubId::GetObjectClass)
    } else if slot == jnienv_slot::IS_INSTANCE_OF {
        Some(JniStubId::IsInstanceOf)
    } else if slot == jnienv_slot::GET_FIELD_ID {
        Some(JniStubId::GetFieldId)
    } else if slot == jnienv_slot::GET_STATIC_FIELD_ID {
        Some(JniStubId::GetStaticFieldId)
    } else if slot == jnienv_slot::GET_OBJECT_FIELD {
        Some(JniStubId::GetObjectField)
    } else if slot == jnienv_slot::GET_INT_FIELD {
        Some(JniStubId::GetIntField)
    } else if slot == jnienv_slot::REGISTER_NATIVES {
        Some(JniStubId::RegisterNatives)
    } else if slot == jnienv_slot::GET_JAVA_VM {
        Some(JniStubId::GetJavaVm)
    } else if slot == jnienv_slot::GET_ARRAY_LENGTH {
        Some(JniStubId::GetArrayLength)
    } else if slot == jnienv_slot::MONITOR_ENTER {
        Some(JniStubId::MonitorEnter)
    } else if slot == jnienv_slot::MONITOR_EXIT {
        Some(JniStubId::MonitorExit)
    } else {
        None
    }
}

/// The function at `slot` of the JavaVM table, where it is one that the VM offers.
pub open spec fn javavm_stub(slot: int) -> Option<JniStubId> {
    if slot == javavm_slot::GET_ENV {
        Some(JniStubId::GetEnv)
    } else if slot == javavm_slot::ATTACH_CURRENT_THREAD {
        Some(JniStubId::AttachCurrentThread)
    } else if slot == javavm_slot::ATTACH_CURRENT_THREAD_AS_DAEMON {
        Some(JniStubId::AttachCurrentThread)
    } else if slot == javavm_slot::DETACH_CURRENT_THREAD {
        Some(JniStubId::DetachCurrentThread)
    } else {
        None
    }
}

/// The function whose thunk covers the address `pc`.
pub open spec fn stub_at(pc: u64) -> JniStubId {
    let found = if JNIENV_THUNK_BASE <= pc < JAVAVM_THUNK_BASE {
        jnienv_stub((pc - JNIENV_THUNK_BASE) / (JNI_THUNK_STRIDE as int))
    } else if JAVAVM_THUNK_BASE <= pc < JAVAVM_THUNK_BASE + 0x1000 {
        javavm_stub((pc - JAVAVM_THUNK_BASE) / (JNI_THUNK_STRIDE as int))
    } else {
        None
    };
    match found {
        Some(stub) => stub,
        None => JniStubId::Unknown(pc),
    }
}

/// Returns the guest address of a specific JNIEnv function stub.
pub fn jnienv_thunk_addr(slot: usize) -> (r: u64)
    requires
        jnienv_thunk(slot as int) <= u64::MAX,
    ensures
        r == jnienv_thunk(slot as int),
{
    JNIENV_THUNK_BASE + (slot as u64) * JNI_THUNK_STRIDE
}

/// Returns the guest address of a specific JavaVM function stub.
pub fn javavm_thunk_addr(slot: usize) -> (r: u64)
    requires
        javavm_thunk(slot as int) <= u64::MAX,
    ensures
        r == javavm_thunk(slot as int),
{
    JAVAVM_THUNK_BASE + (slot as u64) * JNI_THUNK_STRIDE
}

impl JniStubId {
    /// The function whose thunk is called at `pc`.
    pub fn from_pc(pc: u64) -> (r: Self)
        ensures
            r == stub_at(pc),
    {
        if pc >= JNIENV_THUNK_BASE && pc < JAVAVM_THUNK_BASE {
            let slot: u64 = (pc - JNIENV_THUNK_BASE) / JNI_THUNK_STRIDE;
            if slot == jnienv_slot::FIND_CLASS as u64 {
                Self::FindClass
            } else if slot == jnienv_slot::GET_METHOD_ID as u64 {
                Self::GetMethodId
            } else if slot == jnienv_slot::GET_STATIC_METHOD_ID as u64 {
                Self::GetStaticMethodId
            } else if slot == jnienv_slot::CALL_VOID_METHOD as u64 {
                Self::CallVoidMethod
            } else if slot == jnienv_slot::CALL_OBJECT_METHOD as u64 {
                Self::CallObjectMethod
            } else if slot == jnienv_slot::CALL_INT_METHOD as u64 {
                Self::CallIntMethod
            } else if slot == jnienv_slot::CALL_BOOLEAN_METHOD as u64 {
                Self::CallBooleanMethod
            } else if slot == jnienv_slot::CALL_LONG_METHOD as u64 {
                Self::CallLongMethod
            } else if slot == jnienv_slot::CALL_STATIC_VOID_METHOD as u64 {
                Self::CallStaticVoidMethod
            } else if slot == jnienv_slot::CALL_STATIC_OBJECT_METHOD as u64 {
                Self::CallStaticObjectMethod
            } else if slot == jnienv_slot::NEW_STRING_UTF as u64 {
                Self::NewStringUtf
            } else if slot == jnienv_slot::GET_STRING_UTF_CHARS as u64 {
                Self::GetStringUtfChars
            } else if slot == jnienv_slot::RELEASE_STRING_UTF_CHARS as u64 {
                Self::ReleaseStringUtfChars
            } else if slot == jnienv_slot::GET_VERSION as u64 {
                Self::GetVersion
            } else if slot == jnienv_slot::EXCEPTION_OCCURRED as u64 {
                Self::ExceptionOccurred
            } else if slot == jnienv_slot::EXCEPTION_DESCRIBE as u64 {
                Self::ExceptionDescribe
            } else if slot == jnienv_slot::EXCEPTION_CLEAR as u64 {
                Self::ExceptionClear
            } else if slot == jnienv_slot::NEW_GLOBAL_REF as u64 {
                Self::NewGlobalRef
            } else if slot == jnienv_slot::DELETE_GLOBAL_REF as u64 {
                Self::DeleteGlobalRef
            } else if slot == jnienv_slot::DELETE_LOCAL_REF as u64 {
                Self::DeleteLocalRef
            } else if slot == jnienv_slot::GET_OBJECT_CLASS as u64 {
                Self::GetObjectClass
            } else if slot == jnienv_slot::IS_INSTANCE_OF as u64 {
                Self::IsInstanceOf
            } else if slot == jnienv_slot::GET_FIELD_ID as u64 {
                Self::GetFieldId
            } else if slot == jnienv_slot::GET_STATIC_FIELD_ID as u64 {
                Self::GetStaticFieldId
            } else if slot == jnienv_slot::GET_OBJECT_FIELD as u64 {
                Self::GetObjectField
            } else if slot == jnienv_slot::GET_INT_FIELD as u64 {
                Self::GetIntField
            } else if slot == jnienv_slot::REGISTER_NATIVES as u64 {
                Self::RegisterNatives
            } else if slot == jnienv_slot::GET_JAVA_VM as u64 {
                Self::GetJavaVm
            } else if slot == jnienv_slot::GET_ARRAY_LENGTH as u64 {
                Self::GetArrayLength
            } else if slot == jnienv_slot::MONITOR_ENTER as u64 {
                Self::MonitorEnter
            } else if slot == jnienv_slot::MONITOR_EXIT as u64 {
                Self::MonitorExit
            } else {
                Self::Unknown(pc)
            }
        } else if pc >= JAVAVM_THUNK_BASE && pc < JAVAVM_THUNK_BASE + 0x1000 {
            let slot: u64 = (pc - JAVAVM_THUNK_BASE) / JNI_THUNK_STRIDE;
            if slot == javavm_slot::GET_ENV as u64 {
                Self::GetEnv
            } else if slot == javavm_slot::ATTACH_CURRENT_THREAD as u64 {
                Self::AttachCurrentThread
            } else if slot == javavm_slot::ATTACH_CURRENT_THREAD_AS_DAEMON as u64 {
                Self::AttachCurrentThread
            } else if slot == javavm_slot::DETACH_CURRENT_THREAD as u64 {
                Self::DetachCurrentThread
            } else {
                Self::Unknown(pc)
            }
        } else {
            Self::Unknown(pc)
        }
    }
}

/// A call to the thunk at a slot of the JNIEnv table is a call of the function at that
/// slot, wherever within the thunk it arrives.
pub proof fn law_jnienv_thunk_identifies_its_slot(slot: int, offset: int)
    requires
        0 <= slot < 0x2000,
        0 <= offset < JNI_THUNK_STRIDE,
    ensures
        stub_at((jnienv_thunk(slot) + offset) as u64) == (match jnienv_stub(slot) {
            Some(stub) => stub,
            None => JniStubId::Unknown((jnienv_thunk(slot) + offset) as u64),
        }),
{
}

/// A call to the thunk at a slot of the JavaVM table is a call of the function at that
/// slot, wherever within the thunk it arrives.
pub proof fn law_javavm_thunk_identifies_its_slot(slot: int, offset: int)
    requires
        0 <= slot < 0x200,
        0 <= offset < JNI_THUNK_STRIDE,
    ensures
        stub_at((javavm_thunk(slot) + offset) as u64) == (match javavm_stub(slot) {
            Some(stub) => stub,
            None => JniStubId::Unknown((javavm_thunk(slot) + offset) as u64),
        }),
{
}

/// No function of the VM has two slots of the JNIEnv table, nor is one of them a JavaVM
/// function.
pub proof fn law_jnienv_slots_are_distinct(a: int, b: int)
    requires
        jnienv_stub(a) is Some,
    ensures
        jnienv_stub(a) == jnienv_stub(b) ==> a == b,
        jnienv_stub(a) != javavm_stub(b),
{
}

} // verus!
