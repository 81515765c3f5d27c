//! The loop that runs guest code.
//!
//! The instructions are executed by the caller, and so are host functions and JNI calls. The
//! loop is told what happened and says what to do next.
use crate::jvm::calls;
use crate::jvm::is_jni_thunk_address;
use crate::jvm::TLS_STRUCT_ADDR;
use vstd::prelude::*;

verus! {

/// The step at which execution is given up.
pub const STEP_LIMIT: u64 = 50_000_000;

/// The size of an instruction.
pub const INSTRUCTION_SIZE: u64 = 4;

/// What came of executing guest code.
#[derive(Debug, Clone, Copy, PartialEq, Eq, Structural)]
pub enum Execution {
    /// It goes on.
    Running,
    /// The program has ended.
    Ended,
    /// The instruction could not be executed.
    Failed,
}

/// What happened.
#[derive(Debug, Clone, Copy, PartialEq, Eq, Structural)]
pub enum LoopEvent {
    /// Execution begins, or goes on after a JNI call, at this address.
    At(u64),
    /// It is known whether a host function stands at the program counter.
    LookedUp { host_function: bool },
    /// A host function has been called and left the program counter at `pc`; `exited` says
    /// whether the program has ended, and `lr` is the return address.
    HostCalled { pc: u64, exited: bool, lr: u64 },
    /// Guest code has been executed and left the program counter at `pc`.
    Executed { outcome: Execution, pc: u64 },
}

/// Why the loop ends.
#[derive(Debug, Clone, Copy, PartialEq, Eq, Structural)]
pub enum StopReason {
    /// The step limit has been reached.
    Limit,
    /// The guest function has returned to address zero.
    Returned,
    /// The program has ended.
    Ended,
}

/// What to do.
#[derive(Debug, Clone, Copy, PartialEq, Eq, Structural)]
pub enum LoopAction {
    /// Handle the JNI call that arrives at the program counter.
    HandleJni,
    /// Look whether a host function stands at the program counter.
    LookUp,
    /// Call the host function at the program counter.
    CallHost,
    /// Execute guest code at the program counter.
    Execute,
    /// End the loop.
    Stop(StopReason),
    /// The instruction that is to be skipped is the last of the address space.
    PastEnd,
}

/// The state of the loop.
#[derive(Debug, Clone, Copy, PartialEq, Eq, Structural)]
pub struct CpuLoop {
    /// The steps that have been counted, also by earlier loops.
    pub steps: u64,
    /// The program counter.
    pub pc: u64,
    /// Where an instruction failed last; zero where none did.
    pub last_warning_pc: u64,
}

/// What the loop answers to an event.
#[derive(Debug, Clone, Copy, PartialEq, Eq, Structural)]
pub struct LoopStep {
    pub action: LoopAction,
    /// Where an instruction failed that is to be warned of.
    pub warning: Option<u64>,
}

/// The thread pointer with which guest code runs.
pub fn thread_pointer(tpidr: u64) -> (r: u64)
    ensures
        r == (if tpidr == 0 {
            TLS_STRUCT_ADDR
        } else {
            tpidr
        }),
{
    if tpidr == 0 {
        TLS_STRUCT_ADDR
    } else {
        tpidr
    }
}

impl CpuLoop {
    /// The loop with the program counter at `pc`.
    pub open spec fn at(self, pc: u64) -> CpuLoop {
        CpuLoop { pc, ..self }
    }

    /// The loop once a step at `pc` has been begun.
    pub open spec fn begun(self, pc: u64) -> CpuLoop {
        CpuLoop { steps: (self.steps + 1) as u64, pc, ..self }
    }

    /// What to do at a step that begins at `pc`.
    pub open spec fn begins(self, pc: u64) -> LoopAction {
        if self.steps + 1 >= STEP_LIMIT {
            LoopAction::Stop(StopReason::Limit)
        } else if calls::is_jni_address(pc) {
            LoopAction::HandleJni
        } else {
            LoopAction::LookUp
        }
    }

    /// Where execution goes on after a host function: where that did not move the program
    /// counter, at the return address.
    pub open spec fn host_returns_to(self, pc: u64, lr: u64) -> u64 {
        if pc == self.pc {
            lr
        } else {
            pc
        }
    }

    /// What to do after an event.
    pub open spec fn action(self, event: LoopEvent) -> LoopAction {
        match event {
            LoopEvent::At(pc) => self.begins(pc),
            LoopEvent::LookedUp { host_function } => if host_function {
                LoopAction::CallHost
            } else if self.pc == 0 {
                LoopAction::Stop(StopReason::Returned)
            } else {
                LoopAction::Execute
            },
            LoopEvent::HostCalled { pc, exited, lr } => if exited {
                LoopAction::Stop(StopReason::Ended)
            } else {
                self.begins(self.host_returns_to(pc, lr))
            },
            LoopEvent::Executed { outcome, pc } => match outcome {
                Execution::Running => self.begins(pc),
                Execution::Ended => LoopAction::Stop(StopReason::Ended),
                Execution::Failed => if pc + INSTRUCTION_SIZE <= u64::MAX {
                    self.begins((pc + INSTRUCTION_SIZE) as u64)
                } else {
                    LoopAction::PastEnd
                },
            },
        }
    }

    /// The loop after an event.
    pub open spec fn after(self, event: LoopEvent) -> CpuLoop {
        match event {
            LoopEvent::At(pc) => self.begun(pc),
            LoopEvent::LookedUp { .. } => self,
            LoopEvent::HostCalled { pc, exited, lr } => if exited {
                self.at(pc)
            } else {
                self.begun(self.host_returns_to(pc, lr))
            },
            LoopEvent::Executed { outcome, pc } => match outcome {
                Execution::Running => self.begun(pc),
                Execution::Ended => self.at(pc),
                Execution::Failed => {
                    let warned = CpuLoop { last_warning_pc: pc, ..self };
                    if pc + INSTRUCTION_SIZE <= u64::MAX {
                        warned.begun((pc + INSTRUCTION_SIZE) as u64)
                    } else {
                        warned.at(pc)
                    }
                },
            },
        }
    }

    /// Where an instruction failed that is to be warned of: not where it is the one that
    /// failed last.
    pub open spec fn warning(self, event: LoopEvent) -> Option<u64> {
        match event {
            LoopEvent::Executed { outcome: Execution::Failed, pc } if pc
                != self.last_warning_pc => Some(pc),
            _ => None,
        }
    }

    /// A loop that goes on counting from `steps`.
    pub fn new(steps: u64) -> (r: Self)
        ensures
            r == (CpuLoop { steps, pc: 0, last_warning_pc: 0 }),
    {
        CpuLoop { steps, pc: 0, last_warning_pc: 0 }
    }

    /// Begins a step at `pc`.
    fn begin_step(&mut self, pc: u64) -> (r: LoopAction)
        requires
            old(self).steps < u64::MAX,
        ensures
            r == old(self).begins(pc),
            *final(self) == old(self).begun(pc),
    {
        self.steps = self.steps + 1;
        self.pc = pc;
        if self.steps >= STEP_LIMIT {
            LoopAction::Stop(StopReason::Limit)
        } else if is_jni_thunk_address(pc) {
            LoopAction::HandleJni
        } else {
            LoopAction::LookUp
        }
    }

    /// Takes an event and says what to do.
    pub fn next(&mut self, event: LoopEvent) -> (r: LoopStep)
        requires
            old(self).steps < u64::MAX,
        ensures
            r.action == old(self).action(event),
            r.warning == old(self).warning(event),
            *final(self) == old(self).after(event),
    {
        let mut warning: Option<u64> = None;
        let action = match event {
            LoopEvent::At(pc) => self.begin_step(pc),
            LoopEvent::LookedUp { host_function } => if host_function {
                LoopAction::CallHost
            } else if self.pc == 0 {
                LoopAction::Stop(StopReason::Returned)
            } else {
                LoopAction::Execute
            },
            LoopEvent::HostCalled { pc, exited, lr } => if exited {
                self.pc = pc;
                LoopAction::Stop(StopReason::Ended)
            } else if pc == self.pc {
                self.begin_step(lr)
            } else {
                self.begin_step(pc)
            },
            LoopEvent::Executed { outcome, pc } => match outcome {
                Execution::Running => self.begin_step(pc),
                Execution::Ended => {
                    self.pc = pc;
                    LoopAction::Stop(StopReason::Ended)
                },
                Execution::Failed => {
                    if self.last_warning_pc != pc {
                        warning = Some(pc);
                        self.last_warning_pc = pc;
                    }
                    match pc.checked_add(INSTRUCTION_SIZE) {
                        Some(next_pc) => self.begin_step(next_pc),
                        None => {
                            self.pc = pc;
                            LoopAction::PastEnd
                        },
                    }
                },
            },
        };
        LoopStep { action, warning }
    }
}

/// The loop after events, one after the other.
pub open spec fn after_all(l: CpuLoop, events: Seq<LoopEvent>) -> CpuLoop
    decreases events.len(),
{
    if events.len() == 0 {
        l
    } else {
        after_all(l, events.drop_last()).after(events.last())
    }
}

/// The events after which the loop was not told to stop.
pub open spec fn goes_on(l: CpuLoop, events: Seq<LoopEvent>) -> bool
    decreases events.len(),
{
    if events.len() == 0 {
        true
    } else {
        let before = after_all(l, events.drop_last());
        goes_on(l, events.drop_last()) && !(before.action(events.last()) is Stop) && !(
        before.action(events.last()) is PastEnd)
    }
}

/// The number of steps that events begin.
pub open spec fn steps_begun(events: Seq<LoopEvent>) -> nat
    decreases events.len(),
{
    if events.len() == 0 {
        0
    } else {
        let before = steps_begun(events.drop_last());
        if events.last() is LookedUp {
            before
        } else {
            before + 1
        }
    }
}

/// Whatever is executed, a loop that goes on stays below the step limit: it begins fewer
/// steps than the limit leaves, and counts each of them.
pub proof fn law_loop_stays_below_the_limit(l: CpuLoop, events: Seq<LoopEvent>)
    requires
        l.steps < STEP_LIMIT,
        goes_on(l, events),
    ensures
        after_all(l, events).steps == l.steps + steps_begun(events),
        l.steps + steps_begun(events) < STEP_LIMIT,
    decreases events.len(),
{
    if events.len() > 0 {
        law_loop_stays_below_the_limit(l, events.drop_last());
    }
}

/// Guest code is executed only where no JNI function and no host function stands, and never
/// at address zero.
pub proof fn law_only_guest_code_is_executed(
    l: CpuLoop,
    arrival: LoopEvent,
    host_function: bool,
)
    requires
        l.steps < STEP_LIMIT,
        l.action(arrival) is LookUp,
        l.after(arrival).action(LoopEvent::LookedUp { host_function }) is Execute,
    ensures
        ({
            let pc = l.after(arrival).pc;
            pc != 0 && !calls::is_jni_address(pc) && !host_function
        }),
{
}

/// A function that was entered with a return address of zero ends the loop when it returns,
/// whether from guest code, a host function or a JNI call, unless the step limit ends it first.
pub proof fn law_return_to_zero_ends_the_loop(l: CpuLoop, event: LoopEvent)
    requires
        event == (LoopEvent::Executed { outcome: Execution::Running, pc: 0 }) || event == (
        LoopEvent::HostCalled { pc: l.pc, exited: false, lr: 0 }) || event == LoopEvent::At(0),
    ensures
        l.steps + 1 < STEP_LIMIT ==> l.action(event) == LoopAction::LookUp,
        l.steps + 1 >= STEP_LIMIT ==> l.action(event) == LoopAction::Stop(StopReason::Limit),
        l.after(event).action(LoopEvent::LookedUp { host_function: false }) == LoopAction::Stop(
            StopReason::Returned,
        ),
{
}

/// An instruction that fails again at once is not warned of again.
pub proof fn law_warnings_are_not_repeated(l: CpuLoop, pc: u64)
    ensures
        ({
            let failed = LoopEvent::Executed { outcome: Execution::Failed, pc };
            l.after(failed).warning(failed) is None
        }),
{
}

/// The event begins a step at `pc`: execution arrives there, guest code has been executed up to
/// there, a host function has returned there, or the instruction before it failed and is skipped.
pub open spec fn steps_to(l: CpuLoop, event: LoopEvent, pc: u64) -> bool {
    ||| event == LoopEvent::At(pc)
    ||| event == (LoopEvent::Executed { outcome: Execution::Running, pc })
    ||| event matches LoopEvent::Executed { outcome: Execution::Failed, pc: failed } && failed + 4
        == pc
    ||| event matches LoopEvent::HostCalled { pc: left, exited: false, lr } && (left == l.pc && lr
        == pc || left != l.pc && left == pc)
}

/// Wherever a step begins, and however it came to that, it is counted, and what it does depends on
/// its address: a JNI call is handled exactly at 0x7f10_0000 up to 0x7f10_2000 and at 0x7f11_0000
/// up to 0x7f11_0100, and everywhere else a host function is looked for first. Only the step with
/// the number fifty million stops the loop.
pub proof fn law_steps_go_by_their_address(l: CpuLoop, event: LoopEvent, pc: u64)
    requires
        steps_to(l, event, pc),
    ensures
        l.steps + 1 < 50_000_000 ==> (l.action(event) == LoopAction::HandleJni <==> 0x7f10_0000
            <= pc < 0x7f10_2000 || 0x7f11_0000 <= pc < 0x7f11_0100),
        l.steps + 1 < 50_000_000 ==> (l.action(event) == LoopAction::LookUp <==> !(0x7f10_0000 <= pc
            < 0x7f10_2000 || 0x7f11_0000 <= pc < 0x7f11_0100)),
        l.steps + 1 >= 50_000_000 ==> l.action(event) == LoopAction::Stop(StopReason::Limit),
        l.after(event).pc == pc,
        l.steps < u64::MAX ==> l.after(event).steps == l.steps + 1,
{
}

/// Two events that begin a step at the same address are answered alike.
pub proof fn law_arrivals_are_alike(l: CpuLoop, first: LoopEvent, second: LoopEvent, pc: u64)
    requires
        steps_to(l, first, pc),
        steps_to(l, second, pc),
    ensures
        l.action(first) == l.action(second),
        l.after(first).steps == l.after(second).steps,
        l.after(first).pc == l.after(second).pc,
{
}

/// The loop says that the program has ended exactly where it was told so, by a host function or by
/// the guest code; and that the function has returned exactly where neither a JNI function nor a
/// host function stands at address zero and execution got there.
pub proof fn law_loop_ends_only_when_told(l: CpuLoop, event: LoopEvent)
    ensures
        l.action(event) == LoopAction::Stop(StopReason::Ended) <==> (event matches
            LoopEvent::HostCalled { exited: true, .. } || event matches LoopEvent::Executed {
            outcome: Execution::Ended,
            ..
        }),
        l.action(event) == LoopAction::Stop(StopReason::Returned) <==> l.pc == 0 && event == (
        LoopEvent::LookedUp { host_function: false }),
        l.action(event) == LoopAction::Stop(StopReason::Limit) <==> l.steps + 1 >= 50_000_000
            && exists|pc: u64| #[trigger] steps_to(l, event, pc),
        l.action(event) == LoopAction::PastEnd <==> (event matches LoopEvent::Executed {
            outcome: Execution::Failed,
            pc,
        } && pc + 4 > u64::MAX),
{
    match event {
        LoopEvent::At(pc) => {
            assert(steps_to(l, event, pc));
        },
        LoopEvent::LookedUp { .. } => {},
        LoopEvent::HostCalled { pc, exited, lr } => {
            assert(!exited ==> steps_to(l, event, if pc == l.pc { lr } else { pc }));
        },
        LoopEvent::Executed { outcome, pc } => {
            assert(outcome is Running ==> steps_to(l, event, pc));
            assert(outcome is Failed && pc + 4 <= u64::MAX ==> steps_to(
                l,
                event,
                (pc + 4) as u64,
            ));
        },
    }
}

/// Once it is known what stands at the program counter, a host function is called, and other code
/// is executed except at address zero; neither moves the program counter or counts a step.
pub proof fn law_what_was_looked_up_is_run(l: CpuLoop, event: LoopEvent)
    ensures
        l.action(event) == LoopAction::CallHost <==> event == (LoopEvent::LookedUp {
            host_function: true,
        }),
        l.action(event) == LoopAction::Execute <==> l.pc != 0 && event == (LoopEvent::LookedUp {
            host_function: false,
        }),
        event is LookedUp ==> l.after(event) == l,
{
}

/// The end of the program leaves the program counter where it was left, and counts no step.
pub proof fn law_end_keeps_the_program_counter(l: CpuLoop, event: LoopEvent)
    ensures
        event matches LoopEvent::HostCalled { pc, exited: true, .. } ==> l.after(event).pc == pc
            && l.after(event).steps == l.steps,
        event matches LoopEvent::Executed { outcome: Execution::Ended, pc } ==> l.after(event).pc
            == pc && l.after(event).steps == l.steps,
{
}

/// Only a failing instruction is warned of, with its address, and only where it is not the one
/// that failed last; nothing else changes which one that was.
pub proof fn law_failures_are_warned_of(l: CpuLoop, event: LoopEvent, pc: u64)
    ensures
        l.warning(event) == Some(pc) <==> event == (LoopEvent::Executed {
            outcome: Execution::Failed,
            pc,
        }) && pc != l.last_warning_pc,
        event == (LoopEvent::Executed { outcome: Execution::Failed, pc }) ==> l.after(
            event,
        ).last_warning_pc == pc,
        !(event matches LoopEvent::Executed { outcome: Execution::Failed, .. }) ==> l.after(
            event,
        ).last_warning_pc == l.last_warning_pc,
{
}

/// The loop counts each step and moves to its address; below the limit it handles a JNI call
/// exactly within the thunks, looks for a host function anywhere else, and says that the program
/// has ended only where it was told so.
pub proof fn law_next_goes_by_the_address(l: &mut CpuLoop, event: LoopEvent, pc: u64, r: LoopStep)
    requires
        call_ensures(CpuLoop::next, (l, event), r),
        old(l).steps < u64::MAX,
    ensures
        steps_to(*old(l), event, pc) ==> final(l).pc == pc && final(l).steps == old(l).steps + 1,
        steps_to(*old(l), event, pc) && old(l).steps + 1 < 50_000_000 ==> r.action == (if 0x7f10_0000
            <= pc < 0x7f10_2000 || 0x7f11_0000 <= pc < 0x7f11_0100 {
            LoopAction::HandleJni
        } else {
            LoopAction::LookUp
        }),
        steps_to(*old(l), event, pc) && old(l).steps + 1 >= 50_000_000 ==> r.action
            == LoopAction::Stop(StopReason::Limit),
        r.action == LoopAction::Stop(StopReason::Ended) <==> (event matches LoopEvent::HostCalled {
            exited: true,
            ..
        } || event matches LoopEvent::Executed { outcome: Execution::Ended, .. }),
        r.warning == Some(pc) <==> event == (LoopEvent::Executed { outcome: Execution::Failed, pc })
            && pc != old(l).last_warning_pc,
{
}

/// A new loop goes on counting, at no address and without a failure behind it.
pub proof fn law_new_loop_goes_on_counting(steps: u64, r: CpuLoop)
    requires
        call_ensures(CpuLoop::new, (steps,), r),
    ensures
        r.steps == steps && r.pc == 0 && r.last_warning_pc == 0,
{
}

/// Guest code runs with its own thread pointer, and where that is null with the storage of the VM.
pub proof fn law_thread_pointer_is_never_null(tpidr: u64, r: u64)
    requires
        call_ensures(thread_pointer, (tpidr,), r),
    ensures
        tpidr != 0 ==> r == tpidr,
        tpidr == 0 ==> r == 0x7f06_0000,
{
}

} // verus!
