//! Positions in the JavaVM function table.
use vstd::prelude::*;

verus! {

pub const RESERVED0: usize = 0;

pub const RESERVED1: usize = 1;

pub const RESERVED2: usize = 2;

pub const DESTROY_JAVA_VM: usize = 3;

pub const ATTACH_CURRENT_THREAD: usize = 4;

pub const DETACH_CURRENT_THREAD: usize = 5;

pub const GET_ENV: usize = 6;

pub const ATTACH_CURRENT_THREAD_AS_DAEMON: usize = 7;

} // verus!
