//! Positions in the JNIEnv function table; each entry is a pointer of eight bytes.
use vstd::prelude::*;

verus! {

pub const RESERVED0: usize = 0;

pub const RESERVED1: usize = 1;

pub const RESERVED2: usize = 2;

pub const RESERVED3: usize = 3;

pub const GET_VERSION: usize = 4;

pub const DEFINE_CLASS: usize = 5;

pub const FIND_CLASS: usize = 6;

pub const FROM_REFLECTED_METHOD: usize = 7;

pub const FROM_REFLECTED_FIELD: usize = 8;

pub const TO_REFLECTED_METHOD: usize = 9;

pub const GET_SUPERCLASS: usize = 10;

pub const IS_ASSIGNABLE_FROM: usize = 11;

pub const TO_REFLECTED_FIELD: usize = 12;

pub const THROW: usize = 13;

pub const THROW_NEW: usize = 14;

pub const EXCEPTION_OCCURRED: usize = 15;

pub const EXCEPTION_DESCRIBE: usize = 16;

pub const EXCEPTION_CLEAR: usize = 17;

pub const FATAL_ERROR: usize = 18;

pub const PUSH_LOCAL_FRAME: usize = 19;

pub const POP_LOCAL_FRAME: usize = 20;

pub const NEW_GLOBAL_REF: usize = 21;

pub const DELETE_GLOBAL_REF: usize = 22;

pub const DELETE_LOCAL_REF: usize = 23;

pub const IS_SAME_OBJECT: usize = 24;

pub const NEW_LOCAL_REF: usize = 25;

pub const ENSURE_LOCAL_CAPACITY: usize = 26;

pub const ALLOC_OBJECT: usize = 27;

pub const NEW_OBJECT: usize = 28;

pub const GET_OBJECT_CLASS: usize = 29;

pub const IS_INSTANCE_OF: usize = 30;

pub const GET_METHOD_ID: usize = 31;

pub const CALL_OBJECT_METHOD: usize = 34;

pub const CALL_VOID_METHOD: usize = 40;

pub const CALL_BOOLEAN_METHOD: usize = 37;

pub const CALL_INT_METHOD: usize = 38;

pub const CALL_LONG_METHOD: usize = 39;

pub const GET_STATIC_METHOD_ID: usize = 113;

pub const CALL_STATIC_VOID_METHOD: usize = 116;

pub const CALL_STATIC_OBJECT_METHOD: usize = 114;

pub const NEW_STRING_UTF: usize = 167;

pub const GET_STRING_UTF_CHARS: usize = 169;

pub const RELEASE_STRING_UTF_CHARS: usize = 170;

pub const GET_ARRAY_LENGTH: usize = 171;

pub const GET_FIELD_ID: usize = 94;

pub const GET_STATIC_FIELD_ID: usize = 144;

pub const GET_OBJECT_FIELD: usize = 95;

pub const GET_INT_FIELD: usize = 98;

pub const REGISTER_NATIVES: usize = 215;

pub const UNREGISTER_NATIVES: usize = 216;

pub const MONITOR_ENTER: usize = 217;

pub const MONITOR_EXIT: usize = 218;

pub const GET_JAVA_VM: usize = 219;

} // verus!
