//! The logic of an Android runtime for ARM64 packages and native libraries.
pub mod archive;
pub mod bytes;
pub mod cpu_loop;
pub mod dex;
pub mod elf;
pub mod jvm;
pub mod launch;
pub mod lifecycle;
pub mod load_order;
pub mod native_activity;
pub mod text;
