//! Native binaries that are run by themselves, with an `ANativeActivity` of their own.
use crate::jvm::{SetupOp, JNIENV_STRUCT_ADDR, TLS_STRUCT_ADDR};
use vstd::prelude::*;

verus! {

/// Where the `ANativeActivity` structure is put.
pub const ACTIVITY_ADDR: u64 = 0x7f03_0000;

/// The size of the `ANativeActivity` structure with its callbacks.
pub const ACTIVITY_SIZE: u64 = 256;

/// The distance from the structure to its callbacks.
pub const CALLBACKS_OFFSET: u64 = 128;

/// The offset of `onStart` among the callbacks.
pub const ON_START_OFFSET: u64 = 0;

/// The offset of `onResume` among the callbacks.
pub const ON_RESUME_OFFSET: u64 = 8;

/// The offset of `onNativeWindowCreated` among the callbacks.
pub const ON_WINDOW_CREATED_OFFSET: u64 = 56;

/// What is done to guest memory before the structure is placed: thread-local storage with
/// the JNIEnv in its slot.
pub fn tls_setup() -> (r: Vec<SetupOp>)
    ensures
        r@ == seq![
            SetupOp::MapPages { addr: TLS_STRUCT_ADDR, size: 4096 },
            SetupOp::StoreWord {
                addr: (TLS_STRUCT_ADDR + 0x28) as u64,
                value: JNIENV_STRUCT_ADDR,
                required: false,
            },
        ],
{
    let mut ops: Vec<SetupOp> = Vec::new();
    ops.push(SetupOp::MapPages { addr: TLS_STRUCT_ADDR, size: 4096 });
    ops.push(
        SetupOp::StoreWord {
            addr: TLS_STRUCT_ADDR + 0x28,
            value: JNIENV_STRUCT_ADDR,
            required: false,
        },
    );
    ops
}

/// The callbacks of the structure at `activity` lie within the address space.
pub open spec fn callbacks_fit(activity: u64) -> bool {
    activity + CALLBACKS_OFFSET + ON_WINDOW_CREATED_OFFSET <= u64::MAX
}

/// Where the callbacks of the structure at `activity` stand. The first word of the structure
/// points there.
pub fn callbacks_of(activity: u64) -> (r: u64)
    requires
        callbacks_fit(activity),
    ensures
        r == activity + CALLBACKS_OFFSET,
{
    activity + CALLBACKS_OFFSET
}

/// What is done to guest memory once the structure at `activity` is placed: its first word points
/// to its callbacks.
pub fn activity_setup(activity: u64) -> (r: SetupOp)
    requires
        callbacks_fit(activity),
    ensures
        r == (SetupOp::StoreWord {
            addr: activity,
            value: (activity + CALLBACKS_OFFSET) as u64,
            required: false,
        }),
{
    SetupOp::StoreWord { addr: activity, value: callbacks_of(activity), required: false }
}

/// The arguments with which a binary starts: the structure, no saved state.
pub fn start_args(activity: u64) -> (r: Vec<u64>)
    ensures
        r@ == seq![activity, 0, 0],
{
    let mut args: Vec<u64> = Vec::new();
    args.push(activity);
    args.push(0);
    args.push(0);
    assert(args@ =~= seq![activity, 0, 0]);
    args
}

/// A callback of the structure.
#[derive(Debug, Clone, Copy, PartialEq, Eq, Structural)]
pub enum Callback {
    OnStart,
    OnResume,
    /// It is given a window, which has to be opened first.
    OnNativeWindowCreated,
}

/// A callback that the binary has set, with its function.
#[derive(Debug, Clone, Copy, PartialEq, Eq, Structural)]
pub struct CallbackCall {
    pub callback: Callback,
    pub pc: u64,
}

/// A list of one call, or of none where the function is null.
pub open spec fn call_if_set(callback: Callback, pc: u64) -> Seq<CallbackCall> {
    if pc != 0 {
        seq![CallbackCall { callback, pc }]
    } else {
        Seq::empty()
    }
}

/// The callbacks that are called, in order: those that are set.
pub fn activity_callbacks(on_start: u64, on_resume: u64, on_window_created: u64) -> (r: Vec<
    CallbackCall,
>)
    ensures
        r@ == call_if_set(Callback::OnStart, on_start) + call_if_set(Callback::OnResume, on_resume)
            + call_if_set(Callback::OnNativeWindowCreated, on_window_created),
{
    let mut calls: Vec<CallbackCall> = Vec::new();
    if on_start != 0 {
        calls.push(CallbackCall { callback: Callback::OnStart, pc: on_start });
    }
    if on_resume != 0 {
        calls.push(CallbackCall { callback: Callback::OnResume, pc: on_resume });
    }
    if on_window_created != 0 {
        calls.push(
            CallbackCall { callback: Callback::OnNativeWindowCreated, pc: on_window_created },
        );
    }
    assert(calls@ =~= call_if_set(Callback::OnStart, on_start) + call_if_set(
        Callback::OnResume,
        on_resume,
    ) + call_if_set(Callback::OnNativeWindowCreated, on_window_created));
    calls
}

/// What a callback is entered with. The other registers keep what they hold.
#[derive(Debug)]
pub struct CallbackFrame {
    pub pc: u64,
    /// The first arguments, from x0 on.
    pub args: Vec<u64>,
    /// Where the callback returns to. Zero ends the execution.
    pub lr: u64,
}

/// Enters a callback with the structure, and the window where it is given one. When it returns
/// the execution ends.
pub fn callback_frame(call: CallbackCall, activity: u64, window: u64) -> (r: CallbackFrame)
    ensures
        r.pc == call.pc,
        r.lr == 0,
        r.args@ == (if call.callback is OnNativeWindowCreated {
            seq![activity, window]
        } else {
            seq![activity]
        }),
{
    let mut args: Vec<u64> = Vec::new();
    args.push(activity);
    if let Callback::OnNativeWindowCreated = call.callback {
        args.push(window);
    }
    assert(args@ =~= if call.callback is OnNativeWindowCreated {
        seq![activity, window]
    } else {
        seq![activity]
    });
    CallbackFrame { pc: call.pc, args, lr: 0 }
}

/// Of the callbacks exactly those that are set are called, each once with its own function:
/// `onStart` first, then `onResume`, then `onNativeWindowCreated`.
pub proof fn law_set_callbacks_are_called(
    on_start: u64,
    on_resume: u64,
    on_window_created: u64,
    call: CallbackCall,
    j: int,
    k: int,
)
    ensures
        ({
            let calls = call_if_set(Callback::OnStart, on_start) + call_if_set(
                Callback::OnResume,
                on_resume,
            ) + call_if_set(Callback::OnNativeWindowCreated, on_window_created);
            &&& calls.contains(call) <==> call.pc != 0 && call.pc == (match call.callback {
                Callback::OnStart => on_start,
                Callback::OnResume => on_resume,
                Callback::OnNativeWindowCreated => on_window_created,
            })
            &&& 0 <= j < k < calls.len() ==> (match calls[j].callback {
                Callback::OnStart => !(calls[k].callback is OnStart),
                Callback::OnResume => calls[k].callback is OnNativeWindowCreated,
                Callback::OnNativeWindowCreated => false,
            })
        }),
{
    let a = call_if_set(Callback::OnStart, on_start);
    let b = call_if_set(Callback::OnResume, on_resume);
    let c = call_if_set(Callback::OnNativeWindowCreated, on_window_created);
    let calls = a + b + c;
    if on_start != 0 {
        assert(calls[0] == a[0]);
    }
    if on_resume != 0 {
        assert(calls[a.len() as int] == b[0]);
    }
    if on_window_created != 0 {
        assert(calls[(a.len() + b.len()) as int] == c[0]);
    }
}

/// The callbacks of an activity begin 128 bytes behind it: there stands `onStart`, 8 bytes further
/// `onResume` and 56 bytes further `onNativeWindowCreated`. They fit where the last of them has an
/// address.
pub proof fn law_callbacks_stand_behind_the_activity(activity: u64)
    ensures
        callbacks_fit(activity) <==> activity + 184 <= u64::MAX,
        activity + CALLBACKS_OFFSET + ON_START_OFFSET == activity + 128,
        activity + CALLBACKS_OFFSET + ON_RESUME_OFFSET == activity + 136,
        activity + CALLBACKS_OFFSET + ON_WINDOW_CREATED_OFFSET == activity + 184,
        ACTIVITY_SIZE == 256,
        ACTIVITY_ADDR == 0x7f03_0000,
{
}

/// A binary starts with the structure and no saved state, and its first word points 128 bytes
/// further on, to its callbacks.
pub proof fn law_binary_starts_with_its_activity(activity: u64, args: Vec<u64>, setup: SetupOp)
    requires
        call_ensures(start_args, (activity,), args),
        call_ensures(activity_setup, (activity,), setup),
        activity + 184 <= u64::MAX,
    ensures
        args@ == seq![activity, 0, 0],
        setup matches SetupOp::StoreWord { addr, value, required } && addr == activity && value
            == activity + 128 && !required,
{
}

/// A callback is entered at its function with the structure, the one that is told of a window with
/// that window too, and returns to address zero.
pub proof fn law_callbacks_are_entered_with_the_activity(
    call: CallbackCall,
    activity: u64,
    window: u64,
    r: CallbackFrame,
)
    requires
        call_ensures(callback_frame, (call, activity, window), r),
    ensures
        r.pc == call.pc && r.lr == 0,
        call.callback is OnNativeWindowCreated ==> r.args@ == seq![activity, window],
        !(call.callback is OnNativeWindowCreated) ==> r.args@ == seq![activity],
{
}

/// Before the structure is placed, one page of thread storage is mapped at 0x7f06_0000 and the
/// JNIEnv put into its slot, 0x28 bytes further on.
pub proof fn law_thread_storage_holds_the_jnienv(r: Vec<SetupOp>)
    requires
        call_ensures(tls_setup, (), r),
    ensures
        r@.len() == 2,
        r@[0] == (SetupOp::MapPages { addr: 0x7f06_0000, size: 4096 }),
        r@[1] == (SetupOp::StoreWord { addr: 0x7f06_0028, value: 0x7f05_0000, required: false }),
{
}

/// The callbacks that are set are called in the order of the activity's life, the others not at
/// all.
pub proof fn law_callbacks_are_called_in_order(
    on_start: u64,
    on_resume: u64,
    on_window_created: u64,
    r: Vec<CallbackCall>,
    call: CallbackCall,
)
    requires
        call_ensures(activity_callbacks, (on_start, on_resume, on_window_created), r),
    ensures
        r@.contains(call) <==> call.pc != 0 && call.pc == (match call.callback {
            Callback::OnStart => on_start,
            Callback::OnResume => on_resume,
            Callback::OnNativeWindowCreated => on_window_created,
        }),
        on_start != 0 ==> r@.len() > 0 && r@[0].callback is OnStart && r@[0].pc == on_start,
        on_window_created != 0 ==> r@.len() > 0 && r@.last().callback is OnNativeWindowCreated
            && r@.last().pc == on_window_created,
{
    law_set_callbacks_are_called(on_start, on_resume, on_window_created, call, 0, 0);
}

} // verus!
