use maarch64_android::cpu_loop::{
    thread_pointer, CpuLoop, Execution, LoopAction, LoopEvent, StopReason,
};
use maarch64_android::jvm::registry::NativeMethod;
use maarch64_android::jvm::SetupOp;
use maarch64_android::launch::{
    bundle_path, is_archive_extension, names_package_extension, BundlePath,
};
use maarch64_android::lifecycle::{
    constructor_calls, instance_calls, onload_frame, record_instance, summary, Summary,
};
use maarch64_android::native_activity::{
    activity_callbacks, activity_setup, callback_frame, callbacks_of, start_args, tls_setup,
    Callback, CallbackCall,
};

fn native(class: &str, name: &str, sig: &str, fn_ptr: u64) -> NativeMethod {
    NativeMethod { class: class.into(), name: name.into(), sig: sig.into(), fn_ptr }
}

#[test]
fn package_extensions() {
    for e in ["apk", "apkm", "xapk", "apks", "zip", "APK", "Zip"] {
        assert!(is_archive_extension(e));
    }
    for e in ["so", "", "apk ", "jar"] {
        assert!(!is_archive_extension(e));
    }
    assert!(names_package_extension("apk"));
    assert!(!names_package_extension("APK"));
}

#[test]
fn packages_are_run_by_their_libraries() {
    assert_eq!(bundle_path(0, 0), BundlePath::PureJava);
    assert_eq!(bundle_path(2, 0), BundlePath::FirstLibrary);
    assert_eq!(bundle_path(2, 1), BundlePath::JniLibraries);
}

fn arrive(l: &mut CpuLoop, pc: u64) -> LoopAction {
    l.next(LoopEvent::At(pc)).action
}

fn failed(pc: u64) -> LoopEvent {
    LoopEvent::Executed { outcome: Execution::Failed, pc }
}

#[test]
fn steps_of_the_loop() {
    let mut l = CpuLoop::new(0);
    assert_eq!(arrive(&mut l, 0x40_0000), LoopAction::LookUp);
    assert_eq!(arrive(&mut l, 0x7f10_0030), LoopAction::HandleJni);
    assert_eq!(arrive(&mut l, 0x7f11_0030), LoopAction::HandleJni);
    assert_eq!(arrive(&mut l, 0), LoopAction::LookUp);
    assert_eq!(l.steps, 4);
}

#[test]
fn the_loop_stops_at_its_limit() {
    let mut l = CpuLoop::new(49_999_998);
    assert_eq!(arrive(&mut l, 0x7f10_0030), LoopAction::HandleJni);
    assert_eq!(arrive(&mut l, 0x7f10_0030), LoopAction::Stop(StopReason::Limit));
    assert_eq!(arrive(&mut l, 0x7f10_0030), LoopAction::Stop(StopReason::Limit));
    assert_eq!(l.steps, 50_000_001);
}

#[test]
fn what_runs_at_an_address() {
    let host = LoopEvent::LookedUp { host_function: true };
    let guest = LoopEvent::LookedUp { host_function: false };
    let mut l = CpuLoop::new(0);
    arrive(&mut l, 0x1000);
    assert_eq!(l.next(host).action, LoopAction::CallHost);
    assert_eq!(l.next(guest).action, LoopAction::Execute);
    arrive(&mut l, 0);
    assert_eq!(l.next(host).action, LoopAction::CallHost);
    assert_eq!(l.next(guest).action, LoopAction::Stop(StopReason::Returned));
    assert_eq!(l.steps, 2);
}

#[test]
fn host_functions_return() {
    let mut l = CpuLoop::new(0);
    arrive(&mut l, 8);
    let same = LoopEvent::HostCalled { pc: 8, exited: false, lr: 16 };
    assert_eq!(l.next(same).action, LoopAction::LookUp);
    assert_eq!((l.pc, l.steps), (16, 2));
    let moved = LoopEvent::HostCalled { pc: 0x7f10_0030, exited: false, lr: 24 };
    assert_eq!(l.next(moved).action, LoopAction::HandleJni);
    assert_eq!(l.pc, 0x7f10_0030);
    let ended = LoopEvent::HostCalled { pc: 8, exited: true, lr: 16 };
    assert_eq!(l.next(ended).action, LoopAction::Stop(StopReason::Ended));
    assert_eq!((l.pc, l.steps), (8, 3));
}

#[test]
fn guest_code_is_executed() {
    let mut l = CpuLoop::new(0);
    let running = LoopEvent::Executed { outcome: Execution::Running, pc: 12 };
    let step = l.next(running);
    assert_eq!((step.action, step.warning), (LoopAction::LookUp, None));
    assert_eq!(l.pc, 12);
    let ended = LoopEvent::Executed { outcome: Execution::Ended, pc: 12 };
    assert_eq!(l.next(ended).action, LoopAction::Stop(StopReason::Ended));
    assert_eq!(l.steps, 1);
}

#[test]
fn failing_instructions_are_skipped_and_warned_of_once() {
    let mut l = CpuLoop::new(0);
    let step = l.next(failed(8));
    assert_eq!((step.action, step.warning, l.pc), (LoopAction::LookUp, Some(8), 12));
    let step = l.next(failed(8));
    assert_eq!((step.action, step.warning, l.pc), (LoopAction::LookUp, None, 12));
    assert_eq!(l.next(failed(12)).warning, Some(12));
    assert_eq!(l.next(failed(8)).warning, Some(8));
    let step = l.next(failed(u64::MAX - 3));
    assert_eq!((step.action, step.warning), (LoopAction::PastEnd, Some(u64::MAX - 3)));
    assert_eq!(l.pc, u64::MAX - 3);
}

#[test]
fn thread_pointers() {
    assert_eq!(thread_pointer(0), 0x7f06_0000);
    assert_eq!(thread_pointer(5), 5);
}

#[test]
fn onload_is_called_with_the_vm() {
    let f = onload_frame(0x40_1000, 0x7000);
    assert_eq!((f.pc, f.sp, f.tpidr, f.lr), (0x40_1000, 0x7000, 0x7f06_0000, 0));
    assert_eq!(f.args, vec![0x7f04_0000, 0]);
}

#[test]
fn constructors_then_methods_of_their_classes() {
    let entries = vec![
        native("A", "nCreate", "()J", 0x100),
        native("A", "nResize", "(JII)V", 0x200),
        native("B", "nDelete", "(J)V", 0x300),
        native("A", "nFlags", "(JZZ)V", 0x400),
        native("B", "nCreate", "()J", 0x500),
        native("A", "nOther", "(I)V", 0x600),
    ];
    let calls = constructor_calls(&entries);
    assert_eq!(calls.iter().map(|c| c.method).collect::<Vec<_>>(), vec![0, 4]);
    let f = &calls[0].frame;
    assert_eq!((f.pc, f.sp, f.tpidr, f.lr), (0x100, 0x7fff_f000_0000, 0x7f06_0000, 0));
    assert_eq!(f.args, vec![0x7f05_0000, 0x0200_0000]);
    assert_eq!(calls[0].handle, None);

    let mut created = Vec::new();
    record_instance(&mut created, &entries[0], Some(0));
    record_instance(&mut created, &entries[0], None);
    assert!(created.is_empty());
    record_instance(&mut created, &entries[4], Some(0xb0));
    record_instance(&mut created, &entries[0], Some(0xa0));
    assert_eq!(created[1].class, "A");
    assert_eq!(created[1].method, "nCreate");

    let calls = instance_calls(&entries, &created);
    let list: Vec<(usize, Option<u64>, u64, Vec<u64>)> = calls
        .iter()
        .map(|c| (c.method, c.handle, c.frame.pc, c.frame.args[2..].to_vec()))
        .collect();
    assert_eq!(
        list,
        vec![
            (2, Some(0xb0), 0x300, vec![0xb0, 0, 0]),
            (1, Some(0xa0), 0x200, vec![0xa0, 640, 480]),
            (3, Some(0xa0), 0x400, vec![0xa0, 0, 0]),
        ]
    );
}

#[test]
fn native_calls_are_summed_up() {
    assert_eq!(summary(0, 0), Summary::NoMethods);
    assert_eq!(summary(0, 3), Summary::NoInstances);
    assert_eq!(summary(2, 3), Summary::Created(2));
}

#[test]
fn native_activities() {
    assert_eq!(callbacks_of(0x7f03_0000), 0x7f03_0080);
    assert_eq!(start_args(0x7f03_0000), vec![0x7f03_0000, 0, 0]);
    assert_eq!(
        tls_setup(),
        vec![
            SetupOp::MapPages { addr: 0x7f06_0000, size: 4096 },
            SetupOp::StoreWord { addr: 0x7f06_0028, value: 0x7f05_0000, required: false },
        ]
    );
    assert_eq!(
        activity_callbacks(1, 0, 3),
        vec![
            CallbackCall { callback: Callback::OnStart, pc: 1 },
            CallbackCall { callback: Callback::OnNativeWindowCreated, pc: 3 },
        ]
    );
    assert!(activity_callbacks(0, 0, 0).is_empty());
    assert_eq!(activity_callbacks(0, 2, 0)[0].callback, Callback::OnResume);
    let frame = callback_frame(CallbackCall { callback: Callback::OnStart, pc: 5 }, 7, 9);
    assert_eq!((frame.pc, frame.lr, frame.args), (5, 0, vec![7]));
    let frame = callback_frame(CallbackCall { callback: Callback::OnResume, pc: 6 }, 7, 9);
    assert_eq!((frame.pc, frame.lr, frame.args), (6, 0, vec![7]));
    let call = CallbackCall { callback: Callback::OnNativeWindowCreated, pc: 8 };
    let frame = callback_frame(call, 7, 9);
    assert_eq!((frame.pc, frame.lr, frame.args), (8, 0, vec![7, 9]));
    assert_eq!(
        activity_setup(0x7f03_0000),
        SetupOp::StoreWord { addr: 0x7f03_0000, value: 0x7f03_0080, required: false }
    );
}

#[test]
fn callbacks_end_the_loop_when_they_return() {
    let call = CallbackCall { callback: Callback::OnStart, pc: 0x1000 };
    let frame = callback_frame(call, 0x7f03_0000, 0);
    let guest = LoopEvent::LookedUp { host_function: false };
    let mut l = CpuLoop::new(0);
    assert_eq!(arrive(&mut l, frame.pc), LoopAction::LookUp);
    assert_eq!(l.next(guest).action, LoopAction::Execute);
    let returned = LoopEvent::Executed { outcome: Execution::Running, pc: frame.lr };
    assert_eq!(l.next(returned).action, LoopAction::LookUp);
    assert_eq!(l.next(guest).action, LoopAction::Stop(StopReason::Returned));
}
