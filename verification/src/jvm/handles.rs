//! Counters from which guest addresses are handed out.
use vstd::prelude::*;

verus! {

/// Base address for synthetic Java handles in mapped guest memory.
pub const JNI_HANDLES_BASE_ADDR: u64 = 0x7f20_0000;

/// The distance from one handle to the next, which leaves room for field offsets.
pub const HANDLE_STRIDE: u64 = 128;

/// Where strings that are handed to native code begin.
pub const SCRATCH_BASE_ADDR: u64 = 0x7f20_0000;

/// Allocator for synthetic Java object handles (jclass, jmethodID, jstring, ...).
#[derive(Debug, Clone, Copy, PartialEq, Eq, Structural)]
pub struct HandleAllocator {
    /// The handle that is handed out next.
    pub next: u64,
}

/// Allocator for C strings in guest memory.
#[derive(Debug, Clone, Copy, PartialEq, Eq, Structural)]
pub struct ScratchAllocator {
    /// The address that is handed out next.
    pub next: u64,
}

impl HandleAllocator {
    /// Another handle can be handed out.
    pub open spec fn room(self) -> bool {
        self.next + HANDLE_STRIDE <= u64::MAX
    }

    /// The allocator after one more handle.
    pub open spec fn advanced(self) -> Self {
        HandleAllocator { next: (self.next + HANDLE_STRIDE) as u64 }
    }

    /// An allocator that has handed out nothing.
    pub fn new() -> (r: Self)
        ensures
            r.next == JNI_HANDLES_BASE_ADDR,
    {
        HandleAllocator { next: JNI_HANDLES_BASE_ADDR }
    }

    /// Can another handle be handed out?
    pub fn has_room(&self) -> (r: bool)
        ensures
            r == self.room(),
    {
        self.next <= u64::MAX - HANDLE_STRIDE
    }
}

impl ScratchAllocator {
    /// What is handed out lies behind the base address.
    pub open spec fn wf(self) -> bool {
        self.next >= SCRATCH_BASE_ADDR
    }

    /// `size` more bytes can be handed out.
    pub open spec fn room(self, size: int) -> bool {
        self.next + size <= u64::MAX
    }

    /// An allocator that has handed out nothing.
    pub fn new() -> (r: Self)
        ensures
            r.wf(),
            r.next == SCRATCH_BASE_ADDR,
    {
        ScratchAllocator { next: SCRATCH_BASE_ADDR }
    }

    /// Can `size` more bytes be handed out?
    pub fn has_room(&self, size: u64) -> (r: bool)
        ensures
            r == self.room(size as int),
    {
        self.next <= u64::MAX - size
    }

    /// Hands out `size` bytes and returns where they begin.
    pub fn take(&mut self, size: u64) -> (r: u64)
        requires
            old(self).room(size as int),
        ensures
            r == old(self).next,
            final(self).next == old(self).next + size,
            old(self).wf() ==> final(self).wf(),
    {
        let start: u64 = self.next;
        self.next = start + size;
        start
    }
}

/// Hands out a handle.
pub fn alloc_handle(handles: &mut HandleAllocator) -> (r: u64)
    requires
        old(handles).room(),
    ensures
        r == old(handles).next,
        *final(handles) == old(handles).advanced(),
{
    let h: u64 = handles.next;
    handles.next = h + HANDLE_STRIDE;
    h
}

/// The allocator after `n` more handles.
pub open spec fn advanced_by(handles: HandleAllocator, n: nat) -> HandleAllocator
    decreases n,
{
    if n == 0 {
        handles
    } else {
        advanced_by(handles, (n - 1) as nat).advanced()
    }
}

/// Handles that are handed out one after the other stand a stride apart, so no two are
/// the same and no object reaches into the next.
pub proof fn law_handles_stand_apart(handles: HandleAllocator, m: nat, n: nat)
    requires
        m < n,
        handles.next + n * HANDLE_STRIDE <= u64::MAX,
    ensures
        advanced_by(handles, m).next + HANDLE_STRIDE <= advanced_by(handles, n).next,
        advanced_by(handles, m).next == handles.next + m * HANDLE_STRIDE,
        advanced_by(handles, n).next == handles.next + n * HANDLE_STRIDE,
{
    advance_adds_strides(handles, m);
    advance_adds_strides(handles, n);
}

/// The handle that is handed out after `n` others, from the first on.
pub open spec fn nth_handle(n: nat) -> u64 {
    advanced_by(HandleAllocator { next: JNI_HANDLES_BASE_ADDR }, n).next
}

/// The handles that are handed out from the first on begin at the base address and stand a stride
/// apart: they grow, no two are the same, no object reaches into the next, and none is null. This
/// holds up to the end of the address space, which is where no more are handed out.
pub proof fn law_handles_from_the_first(m: nat, n: nat)
    requires
        m < n,
        JNI_HANDLES_BASE_ADDR + HANDLE_STRIDE * n <= u64::MAX,
    ensures
        nth_handle(0) == JNI_HANDLES_BASE_ADDR,
        nth_handle(n) == JNI_HANDLES_BASE_ADDR + HANDLE_STRIDE * n,
        nth_handle(m) < nth_handle(n),
        nth_handle(m) + HANDLE_STRIDE <= nth_handle(n),
        nth_handle(m) != 0,
        nth_handle(n) != 0,
        advanced_by(HandleAllocator { next: JNI_HANDLES_BASE_ADDR }, m).room(),
{
    law_handles_stand_apart(HandleAllocator { next: JNI_HANDLES_BASE_ADDR }, m, n);
}

proof fn advance_adds_strides(handles: HandleAllocator, n: nat)
    requires
        handles.next + n * HANDLE_STRIDE <= u64::MAX,
    ensures
        advanced_by(handles, n).next == handles.next + n * HANDLE_STRIDE,
    decreases n,
{
    if n > 0 {
        advance_adds_strides(handles, (n - 1) as nat);
    }
}

} // verus!
