//! Minimal ART Java Virtual Machine stub.
//!
//! Describes the in-memory `JavaVM` and `JNIEnv` structures that Android NDK
//! libraries expect when `JNI_OnLoad(JavaVM*, void*)` is called.
//!
//! Memory layout (all in guest address space):
//!
//!   0x7f04_0000  JavaVM struct  { ptr -> functions_table }
//!   0x7f04_0008  JavaVM functions table (8 function pointers)
//!   0x7f05_0000  JNIEnv struct  { ptr -> functions_table }
//!   0x7f05_0008  JNIEnv functions table (232 function pointers of 8 bytes)
//!   0x7f06_0000  thread-local storage
//!   0x7f10_0000  JNIEnv thunk stubs (each is an 8-byte placeholder)
//!   0x7f11_0000  JavaVM thunk stubs
//!   0x7f20_0000  handles of Java objects, and strings handed to native code
pub mod activity;
pub mod answer_laws;
pub mod call_laws;
pub mod calls;
pub mod cstring;
pub mod guest;
pub mod handles;
pub mod jni_stubs;
pub mod memory;
pub mod registry;
pub mod runs;
pub mod state;
pub mod vm_laws;

pub use activity::dispatch_activity_lifecycle;
pub use calls::{
    handle_jni_thunk, is_jni_thunk_address, CallRequest, CallResult, Effect, JniCall,
};
pub use cstring::{read_u64, ByteRequest, CStringReader, StringStore};
pub use handles::{alloc_handle, HandleAllocator, ScratchAllocator, JNI_HANDLES_BASE_ADDR};
pub use memory::{
    build_jvm_memory, ensure_jvm_memory_intact, SetupOp, JAVAVM_FUNCTIONS_ADDR,
    JNIENV_FUNCTIONS_ADDR, TLS_STRUCT_ADDR,
};
pub use state::{JvmState, JAVAVM_STRUCT_ADDR, JNIENV_STRUCT_ADDR};
