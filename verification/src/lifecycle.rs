//! Which guest functions are called to bring an application up, and with what arguments.
use crate::jvm::registry::NativeMethod;
use crate::jvm::{JAVAVM_STRUCT_ADDR, JNIENV_STRUCT_ADDR, TLS_STRUCT_ADDR};
use crate::text;
use vstd::prelude::*;

verus! {

/// The top of the stack on which native methods run.
pub const NATIVE_STACK: u64 = 0x7fff_f000_0000;

/// The object on which native methods are called.
pub const THIS_OBJECT: u64 = 0x0200_0000;

/// The width that is reported to native code.
pub const DEFAULT_WIDTH: u64 = 640;

/// The height that is reported to native code.
pub const DEFAULT_HEIGHT: u64 = 480;

/// The registers with which a guest function is called.
#[derive(Debug)]
pub struct Frame {
    pub pc: u64,
    pub sp: u64,
    /// The thread pointer.
    pub tpidr: u64,
    /// The first registers, from `x0` on.
    pub args: Vec<u64>,
    /// The return address; at zero execution ends.
    pub lr: u64,
}

/// What a `Frame` holds.
#[verifier::ext_equal]
pub struct FrameModel {
    pub pc: u64,
    pub sp: u64,
    pub tpidr: u64,
    pub args: Seq<u64>,
    pub lr: u64,
}

impl View for Frame {
    type V = FrameModel;

    open spec fn view(&self) -> FrameModel {
        FrameModel {
            pc: self.pc,
            sp: self.sp,
            tpidr: self.tpidr,
            args: self.args@,
            lr: self.lr,
        }
    }
}

/// The frame of a native method: the JNIEnv, the object and the arguments.
pub open spec fn native_frame(fn_ptr: u64, args: Seq<u64>) -> FrameModel {
    FrameModel {
        pc: fn_ptr,
        sp: NATIVE_STACK,
        tpidr: TLS_STRUCT_ADDR,
        args: seq![JNIENV_STRUCT_ADDR, THIS_OBJECT] + args,
        lr: 0,
    }
}

/// Calls `JNI_OnLoad(JavaVM*, void*)`: the frame for the function at `entry`.
pub fn onload_frame(entry: u64, sp: u64) -> (r: Frame)
    ensures
        r@ == (FrameModel {
            pc: entry,
            sp,
            tpidr: TLS_STRUCT_ADDR,
            args: seq![JAVAVM_STRUCT_ADDR, 0],
            lr: 0,
        }),
{
    let mut args: Vec<u64> = Vec::new();
    args.push(JAVAVM_STRUCT_ADDR);
    args.push(0);
    assert(args@ =~= seq![JAVAVM_STRUCT_ADDR, 0]);
    Frame { pc: entry, sp, tpidr: TLS_STRUCT_ADDR, args, lr: 0 }
}

/// The signature of a native method that creates an instance.
pub open spec fn is_constructor(sig: Seq<char>) -> bool {
    sig == "()J"@
}

/// The signature of a native method that is called on an instance: none, two flags or two
/// numbers behind the instance.
pub open spec fn is_instance_method(sig: Seq<char>) -> bool {
    sig == "(J)V"@ || sig == "(JZZ)V"@ || sig == "(JII)V"@
}

/// The arguments of a method that is called on an instance: the instance, then two flags that
/// are off or, where numbers are taken, the default resolution.
pub open spec fn instance_args(sig: Seq<char>, handle: u64) -> Seq<u64> {
    if sig == "(JII)V"@ {
        seq![handle, DEFAULT_WIDTH, DEFAULT_HEIGHT]
    } else {
        seq![handle, 0, 0]
    }
}

/// An instance that a native method has created.
#[derive(Debug)]
pub struct Instance {
    pub class: String,
    pub method: String,
    pub handle: u64,
}

/// A call of a registered native method.
#[derive(Debug)]
pub struct NativeCall {
    /// The index of the method among those that are registered.
    pub method: usize,
    /// The instance that it is called on; none for one that creates an instance.
    pub handle: Option<u64>,
    pub frame: Frame,
}

/// What a `NativeCall` holds.
pub struct NativeCallModel {
    pub method: int,
    pub handle: Option<u64>,
    pub frame: FrameModel,
}

impl View for NativeCall {
    type V = NativeCallModel;

    open spec fn view(&self) -> NativeCallModel {
        NativeCallModel {
            method: self.method as int,
            handle: self.handle,
            frame: self.frame@,
        }
    }
}

/// A list of calls.
pub open spec fn call_list(calls: Seq<NativeCall>) -> Seq<NativeCallModel> {
    calls.map_values(|c: NativeCall| c@)
}

/// The calls that create instances: one of each registered method with that signature.
pub open spec fn constructors(entries: Seq<NativeMethod>) -> Seq<NativeCallModel>
    decreases entries.len(),
{
    if entries.len() == 0 {
        Seq::empty()
    } else {
        let before = constructors(entries.drop_last());
        if is_constructor(entries.last().sig@) {
            before.push(
                NativeCallModel {
                    method: entries.len() - 1,
                    handle: None,
                    frame: native_frame(entries.last().fn_ptr, Seq::empty()),
                },
            )
        } else {
            before
        }
    }
}

/// The calls on one instance: one of each registered method of its class with such a
/// signature.
pub open spec fn calls_on(
    entries: Seq<NativeMethod>,
    class: Seq<char>,
    handle: u64,
) -> Seq<NativeCallModel>
    decreases entries.len(),
{
    if entries.len() == 0 {
        Seq::empty()
    } else {
        let before = calls_on(entries.drop_last(), class, handle);
        let entry = entries.last();
        if entry.class@ == class && is_instance_method(entry.sig@) {
            before.push(
                NativeCallModel {
                    method: entries.len() - 1,
                    handle: Some(handle),
                    frame: native_frame(entry.fn_ptr, instance_args(entry.sig@, handle)),
                },
            )
        } else {
            before
        }
    }
}

/// The calls on all instances, one instance after the other.
pub open spec fn calls_on_all(
    entries: Seq<NativeMethod>,
    created: Seq<Instance>,
) -> Seq<NativeCallModel>
    decreases created.len(),
{
    if created.len() == 0 {
        Seq::empty()
    } else {
        calls_on_all(entries, created.drop_last()) + calls_on(
            entries,
            created.last().class@,
            created.last().handle,
        )
    }
}

/// The frame of a native method.
fn make_frame(fn_ptr: u64, args: Vec<u64>) -> (r: Frame)
    ensures
        r@ == native_frame(fn_ptr, args@),
{
    let mut all: Vec<u64> = Vec::new();
    all.push(JNIENV_STRUCT_ADDR);
    all.push(THIS_OBJECT);
    let mut i: usize = 0;
    while i < args.len()
        invariant
            i <= args.len(),
            all@ =~= seq![JNIENV_STRUCT_ADDR, THIS_OBJECT] + args@.take(i as int),
        decreases args.len() - i,
    {
        all.push(args[i]);
        i = i + 1;
    }
    assert(args@.take(i as int) =~= args@);
    Frame { pc: fn_ptr, sp: NATIVE_STACK, tpidr: TLS_STRUCT_ADDR, args: all, lr: 0 }
}

/// The calls of registered native methods that create instances.
pub fn constructor_calls(entries: &Vec<NativeMethod>) -> (r: Vec<NativeCall>)
    ensures
        call_list(r@) == constructors(entries@),
{
    let mut calls: Vec<NativeCall> = Vec::new();
    let mut i: usize = 0;
    assert(entries@.take(0) =~= Seq::empty());
    while i < entries.len()
        invariant
            i <= entries.len(),
            call_list(calls@) =~= constructors(entries@.take(i as int)),
        decreases entries.len() - i,
    {
        assert(entries@.take(i + 1).drop_last() =~= entries@.take(i as int));
        let ghost before = calls@;
        if text::same_text(entries[i].sig.as_str(), "()J") {
            let frame = make_frame(entries[i].fn_ptr, Vec::new());
            let call = NativeCall { method: i, handle: None, frame };
            let ghost model = call@;
            calls.push(call);
            assert(call_list(calls@) =~= call_list(before).push(model));
        }
        i = i + 1;
    }
    assert(entries@.take(i as int) =~= entries@);
    calls
}

/// Takes what came of a call that creates an instance of the class of `entry`: a handle that
/// is not zero is an instance, and a failed call (`None`) creates none.
pub fn record_instance(created: &mut Vec<Instance>, entry: &NativeMethod, result: Option<u64>)
    ensures
        match result {
            Some(handle) if handle != 0 => {
                &&& final(created)@.len() == old(created)@.len() + 1
                &&& final(created)@.drop_last() == old(created)@
                &&& final(created)@.last().class@ == entry.class@
                &&& final(created)@.last().method@ == entry.name@
                &&& final(created)@.last().handle == handle
            },
            _ => final(created)@ == old(created)@,
        },
{
    if let Some(handle) = result {
        if handle != 0 {
            let instance = Instance {
                class: entry.class.clone(),
                method: entry.name.clone(),
                handle,
            };
            created.push(instance);
            assert(created@.drop_last() =~= old(created)@);
        }
    }
}

/// The calls of registered native methods on the instances that have been created.
pub fn instance_calls(entries: &Vec<NativeMethod>, created: &Vec<Instance>) -> (r: Vec<NativeCall>)
    ensures
        call_list(r@) == calls_on_all(entries@, created@),
{
    let mut calls: Vec<NativeCall> = Vec::new();
    let mut k: usize = 0;
    assert(created@.take(0) =~= Seq::empty());
    while k < created.len()
        invariant
            k <= created.len(),
            call_list(calls@) =~= calls_on_all(entries@, created@.take(k as int)),
        decreases created.len() - k,
    {
        let instance = &created[k];
        let ghost done = calls_on_all(entries@, created@.take(k as int));
        assert(created@.take(k + 1).drop_last() =~= created@.take(k as int));
        let mut i: usize = 0;
        assert(entries@.take(0) =~= Seq::empty());
        while i < entries.len()
            invariant
                i <= entries.len(),
                call_list(calls@) =~= done + calls_on(
                    entries@.take(i as int),
                    instance.class@,
                    instance.handle,
                ),
            decreases entries.len() - i,
        {
            assert(entries@.take(i + 1).drop_last() =~= entries@.take(i as int));
            let ghost before = calls@;
            let entry = &entries[i];
            let sig = entry.sig.as_str();
            let sized = text::same_text(sig, "(JII)V");
            if text::same_text(entry.class.as_str(), instance.class.as_str()) && (text::same_text(
                sig,
                "(J)V",
            ) || text::same_text(sig, "(JZZ)V") || sized) {
                let mut args: Vec<u64> = Vec::new();
                args.push(instance.handle);
                if sized {
                    args.push(DEFAULT_WIDTH);
                    args.push(DEFAULT_HEIGHT);
                } else {
                    args.push(0);
                    args.push(0);
                }
                assert(args@ =~= instance_args(entry.sig@, instance.handle));
                let frame = make_frame(entry.fn_ptr, args);
                let call = NativeCall { method: i, handle: Some(instance.handle), frame };
                let ghost model = call@;
                calls.push(call);
                assert(call_list(calls@) =~= call_list(before).push(model));
            }
            i = i + 1;
        }
        assert(entries@.take(i as int) =~= entries@);
        k = k + 1;
    }
    assert(created@.take(k as int) =~= created@);
    calls
}

/// What is reported once the native methods have been called.
#[derive(Debug, Clone, Copy, PartialEq, Eq, Structural)]
pub enum Summary {
    /// No native method is registered.
    NoMethods,
    /// No instance was created.
    NoInstances,
    /// So many instances were created.
    Created(usize),
}

/// Sums up the calls.
pub fn summary(created: usize, entries: usize) -> (r: Summary)
    ensures
        r == (if created > 0 {
            Summary::Created(created)
        } else if entries > 0 {
            Summary::NoInstances
        } else {
            Summary::NoMethods
        }),
{
    if created == 0 && entries == 0 {
        Summary::NoMethods
    } else if created == 0 {
        Summary::NoInstances
    } else {
        Summary::Created(created)
    }
}

/// The calls on instances are calls of registered methods of the class of an instance that
/// was created, with that instance in front of their arguments.
pub proof fn law_calls_on_instances_match(
    entries: Seq<NativeMethod>,
    created: Seq<Instance>,
    k: int,
)
    requires
        0 <= k < calls_on_all(entries, created).len(),
    ensures
        ({
            let call = calls_on_all(entries, created)[k];
            &&& 0 <= call.method < entries.len()
            &&& is_instance_method(entries[call.method].sig@)
            &&& call.frame.pc == entries[call.method].fn_ptr
            &&& call.frame.args[0] == JNIENV_STRUCT_ADDR
            &&& exists|i: int|
                0 <= i < created.len() && (#[trigger] created[i]).class@
                    == entries[call.method].class@ && call.handle == Some(created[i].handle)
                    && call.frame.args[2] == created[i].handle
        }),
    decreases created.len(),
{
    if created.len() > 0 {
        let before = calls_on_all(entries, created.drop_last());
        let instance = created.last();
        if k < before.len() {
            law_calls_on_instances_match(entries, created.drop_last(), k);
            let call = before[k];
            let i = choose|i: int|
                0 <= i < created.drop_last().len() && (#[trigger] created.drop_last()[i]).class@
                    == entries[call.method].class@ && call.handle == Some(
                    created.drop_last()[i].handle,
                ) && call.frame.args[2] == created.drop_last()[i].handle;
            assert(created[i] == created.drop_last()[i]);
        } else {
            calls_on_one_match(entries, instance.class@, instance.handle, k - before.len());
            assert(created[created.len() - 1] == instance);
        }
    }
}

proof fn calls_on_one_match(
    entries: Seq<NativeMethod>,
    class: Seq<char>,
    handle: u64,
    k: int,
)
    requires
        0 <= k < calls_on(entries, class, handle).len(),
    ensures
        ({
            let call = calls_on(entries, class, handle)[k];
            &&& 0 <= call.method < entries.len()
            &&& entries[call.method].class@ == class
            &&& is_instance_method(entries[call.method].sig@)
            &&& call.handle == Some(handle)
            &&& call.frame.pc == entries[call.method].fn_ptr
            &&& call.frame.args[0] == JNIENV_STRUCT_ADDR
            &&& call.frame.args[2] == handle
        }),
    decreases entries.len(),
{
    if entries.len() > 0 {
        let before = calls_on(entries.drop_last(), class, handle);
        if k < before.len() {
            calls_on_one_match(entries.drop_last(), class, handle, k);
            assert(entries.drop_last()[before[k].method] == entries[before[k].method]);
        }
    }
}

/// A list of calls holds one of this method, on this instance or none.
pub open spec fn calls_method(
    calls: Seq<NativeCallModel>,
    method: int,
    handle: Option<u64>,
) -> bool {
    exists|k: int|
        0 <= k < calls.len() && (#[trigger] calls[k]).method == method && calls[k].handle == handle
}

/// Every registered method that creates an instance is called.
pub proof fn law_every_constructor_is_called(entries: Seq<NativeMethod>, i: int)
    requires
        0 <= i < entries.len(),
        is_constructor(entries[i].sig@),
    ensures
        calls_method(constructors(entries), i, None),
    decreases entries.len(),
{
    let before = constructors(entries.drop_last());
    let all = constructors(entries);
    if i < entries.len() - 1 {
        law_every_constructor_is_called(entries.drop_last(), i);
        let k = choose|k: int|
            0 <= k < before.len() && (#[trigger] before[k]).method == i && before[k].handle
                == None::<u64>;
        assert(all[k] == before[k]);
    } else {
        assert(all[before.len() as int].method == i);
    }
}

/// Every registered method of the class of an instance, with such a signature, is called on
/// the instance.
pub proof fn law_every_instance_method_is_called(
    entries: Seq<NativeMethod>,
    created: Seq<Instance>,
    k: int,
    i: int,
)
    requires
        0 <= k < created.len(),
        0 <= i < entries.len(),
        entries[i].class@ == created[k].class@,
        is_instance_method(entries[i].sig@),
    ensures
        calls_method(calls_on_all(entries, created), i, Some(created[k].handle)),
    decreases created.len(),
{
    let handle = Some(created[k].handle);
    let before = calls_on_all(entries, created.drop_last());
    let last = calls_on(entries, created.last().class@, created.last().handle);
    let all = calls_on_all(entries, created);
    if k < created.len() - 1 {
        law_every_instance_method_is_called(entries, created.drop_last(), k, i);
        let j = choose|j: int|
            0 <= j < before.len() && (#[trigger] before[j]).method == i && before[j].handle
                == handle;
        assert(all[j] == before[j]);
    } else {
        method_is_called_on(entries, created[k].class@, created[k].handle, i);
        let j = choose|j: int|
            0 <= j < last.len() && (#[trigger] last[j]).method == i && last[j].handle == handle;
        assert(all[before.len() + j] == last[j]);
    }
}

proof fn method_is_called_on(entries: Seq<NativeMethod>, class: Seq<char>, handle: u64, i: int)
    requires
        0 <= i < entries.len(),
        entries[i].class@ == class,
        is_instance_method(entries[i].sig@),
    ensures
        calls_method(calls_on(entries, class, handle), i, Some(handle)),
    decreases entries.len(),
{
    let before = calls_on(entries.drop_last(), class, handle);
    let all = calls_on(entries, class, handle);
    if i < entries.len() - 1 {
        method_is_called_on(entries.drop_last(), class, handle, i);
        let k = choose|k: int|
            0 <= k < before.len() && (#[trigger] before[k]).method == i && before[k].handle == Some(
                handle,
            );
        assert(all[k] == before[k]);
    } else {
        assert(all[before.len() as int].method == i);
    }
}

/// A native method is entered on its own stack, in the thread of the VM, with the JNIEnv, an object
/// and its arguments, and returns to address zero.
pub proof fn law_native_methods_are_entered_alike(fn_ptr: u64, args: Seq<u64>, i: int)
    ensures
        ({
            let frame = native_frame(fn_ptr, args);
            &&& frame.pc == fn_ptr
            &&& frame.sp == 0x7fff_f000_0000
            &&& frame.tpidr == 0x7f06_0000
            &&& frame.lr == 0
            &&& frame.args.len() == args.len() + 2
            &&& frame.args[0] == 0x7f05_0000 && frame.args[1] == 0x0200_0000
            &&& 0 <= i < args.len() ==> frame.args[i + 2] == args[i]
        }),
{
}

/// The call is of a registered method with the signature `()J`, without arguments.
pub open spec fn creates(entries: Seq<NativeMethod>, call: NativeCallModel) -> bool {
    &&& 0 <= call.method < entries.len()
    &&& entries[call.method].sig@ == "()J"@
    &&& call.handle is None
    &&& call.frame.pc == entries[call.method].fn_ptr
    &&& call.frame.sp == 0x7fff_f000_0000
    &&& call.frame.tpidr == 0x7f06_0000
    &&& call.frame.lr == 0
    &&& call.frame.args == seq![0x7f05_0000u64, 0x0200_0000u64]
}

/// Exactly the methods with the signature `()J` are called to create instances, in the order in
/// which they are registered, each once and without arguments.
pub proof fn law_constructors_are_called_in_order(entries: Seq<NativeMethod>, i: int)
    ensures
        ({
            let calls = constructors(entries);
            &&& forall|k: int| 0 <= k < calls.len() ==> creates(entries, #[trigger] calls[k])
            &&& forall|j: int, k: int|
                0 <= j < k < calls.len() ==> (#[trigger] calls[j]).method < (
                #[trigger] calls[k]).method
            &&& 0 <= i < entries.len() && entries[i].sig@ == "()J"@ ==> calls_method(
                calls,
                i,
                None,
            )
        }),
    decreases entries.len(),
{
    if entries.len() > 0 {
        let short = entries.drop_last();
        law_constructors_are_called_in_order(short, i);
        let before = constructors(short);
        let calls = constructors(entries);
        assert forall|k: int| 0 <= k < calls.len() implies creates(entries, #[trigger] calls[k]) by {
            if k < before.len() {
                assert(calls[k] == before[k]);
                assert(creates(short, before[k]));
                assert(short[before[k].method] == entries[before[k].method]);
            } else {
                assert(calls[k].frame.args == seq![0x7f05_0000u64, 0x0200_0000u64]);
            }
        }
        assert forall|j: int, k: int| 0 <= j < k < calls.len() implies (#[trigger] calls[j]).method
            < (#[trigger] calls[k]).method by {
            assert(calls[j] == before[j]);
            assert(creates(short, before[j]));
            if k < before.len() {
                assert(calls[k] == before[k]);
            }
        }
    }
    if 0 <= i < entries.len() && entries[i].sig@ == "()J"@ {
        law_every_constructor_is_called(entries, i);
    }
}

/// The call is of a method of the class that takes an instance, on this instance: with nothing
/// else, two flags that are off, or the width 640 and the height 480.
pub open spec fn runs_on(
    entries: Seq<NativeMethod>,
    class: Seq<char>,
    handle: u64,
    call: NativeCallModel,
) -> bool {
    &&& 0 <= call.method < entries.len()
    &&& entries[call.method].class@ == class
    &&& call.handle == Some(handle)
    &&& call.frame.pc == entries[call.method].fn_ptr
    &&& call.frame.sp == 0x7fff_f000_0000
    &&& call.frame.tpidr == 0x7f06_0000
    &&& call.frame.lr == 0
    &&& {
        ||| (entries[call.method].sig@ == "(J)V"@ || entries[call.method].sig@ == "(JZZ)V"@)
            && call.frame.args == seq![0x7f05_0000u64, 0x0200_0000u64, handle, 0, 0]
        ||| entries[call.method].sig@ == "(JII)V"@ && call.frame.args == seq![
            0x7f05_0000u64,
            0x0200_0000u64,
            handle,
            640,
            480,
        ]
    }
}

/// On an instance exactly the methods of its class with one of the signatures `(J)V`, `(JZZ)V` and
/// `(JII)V` are called, in the order in which they are registered and each once.
pub proof fn law_methods_run_on_an_instance(
    entries: Seq<NativeMethod>,
    class: Seq<char>,
    handle: u64,
    i: int,
)
    ensures
        ({
            let calls = calls_on(entries, class, handle);
            &&& forall|k: int|
                0 <= k < calls.len() ==> runs_on(entries, class, handle, #[trigger] calls[k])
            &&& forall|j: int, k: int|
                0 <= j < k < calls.len() ==> (#[trigger] calls[j]).method < (
                #[trigger] calls[k]).method
            &&& 0 <= i < entries.len() && entries[i].class@ == class && (entries[i].sig@ == "(J)V"@
                || entries[i].sig@ == "(JZZ)V"@ || entries[i].sig@ == "(JII)V"@) ==> calls_method(
                calls,
                i,
                Some(handle),
            )
        }),
    decreases entries.len(),
{
    if entries.len() > 0 {
        let short = entries.drop_last();
        law_methods_run_on_an_instance(short, class, handle, i);
        let before = calls_on(short, class, handle);
        let calls = calls_on(entries, class, handle);
        reveal_strlit("(J)V");
        reveal_strlit("(JZZ)V");
        reveal_strlit("(JII)V");
        assert("(JZZ)V"@[2] != "(JII)V"@[2]);
        assert("(J)V"@.len() != "(JII)V"@.len());
        assert forall|k: int| 0 <= k < calls.len() implies runs_on(
            entries,
            class,
            handle,
            #[trigger] calls[k],
        ) by {
            if k < before.len() {
                assert(calls[k] == before[k]);
                assert(runs_on(short, class, handle, before[k]));
                assert(short[before[k].method] == entries[before[k].method]);
            } else if entries.last().sig@ == "(JII)V"@ {
                assert(calls[k].frame.args == seq![
                    0x7f05_0000u64,
                    0x0200_0000u64,
                    handle,
                    640,
                    480,
                ]);
            } else {
                assert(calls[k].frame.args == seq![0x7f05_0000u64, 0x0200_0000u64, handle, 0, 0]);
            }
        }
        assert forall|j: int, k: int| 0 <= j < k < calls.len() implies (#[trigger] calls[j]).method
            < (#[trigger] calls[k]).method by {
            assert(calls[j] == before[j]);
            assert(runs_on(short, class, handle, before[j]));
            if k < before.len() {
                assert(calls[k] == before[k]);
            }
        }
    }
    if 0 <= i < entries.len() && entries[i].class@ == class && (entries[i].sig@ == "(J)V"@
        || entries[i].sig@ == "(JZZ)V"@ || entries[i].sig@ == "(JII)V"@) {
        method_is_called_on(entries, class, handle, i);
    }
}

/// All methods run on one instance before any runs on the next: what is called on two lists of
/// instances is what is called on the first and then what is called on the second, and on one
/// instance its own methods are called.
pub proof fn law_instances_come_one_after_the_other(
    entries: Seq<NativeMethod>,
    first: Seq<Instance>,
    second: Seq<Instance>,
    one: Instance,
)
    ensures
        calls_on_all(entries, first + second) == calls_on_all(entries, first) + calls_on_all(
            entries,
            second,
        ),
        calls_on_all(entries, seq![one]) == calls_on(entries, one.class@, one.handle),
        calls_on_all(entries, Seq::empty()).len() == 0,
    decreases second.len(),
{
    assert(seq![one].drop_last() == Seq::<Instance>::empty());
    assert(calls_on_all(entries, seq![one].drop_last()) == Seq::<NativeCallModel>::empty());
    assert(Seq::<NativeCallModel>::empty() + calls_on(entries, one.class@, one.handle) == calls_on(
        entries,
        one.class@,
        one.handle,
    ));
    if second.len() == 0 {
        assert(first + second == first);
        assert(calls_on_all(entries, first) + calls_on_all(entries, second) == calls_on_all(
            entries,
            first,
        ));
    } else {
        let short = second.drop_last();
        let last = second.last();
        law_instances_come_one_after_the_other(entries, first, short, one);
        assert((first + second).drop_last() == first + short);
        let a = calls_on_all(entries, first);
        let b = calls_on_all(entries, short);
        let c = calls_on(entries, last.class@, last.handle);
        assert((a + b) + c == a + (b + c));
    }
}

/// A call shows what it holds, and a list of calls does place by place.
pub proof fn law_calls_show_what_they_hold(calls: Seq<NativeCall>, i: int)
    requires
        0 <= i < calls.len(),
    ensures
        call_list(calls).len() == calls.len(),
        call_list(calls)[i].method == calls[i].method,
        call_list(calls)[i].handle == calls[i].handle,
        call_list(calls)[i].frame.pc == calls[i].frame.pc,
        call_list(calls)[i].frame.sp == calls[i].frame.sp,
        call_list(calls)[i].frame.tpidr == calls[i].frame.tpidr,
        call_list(calls)[i].frame.args == calls[i].frame.args@,
        call_list(calls)[i].frame.lr == calls[i].frame.lr,
{
}

/// `JNI_OnLoad` is entered on the given stack in the thread of the VM, with the JavaVM and null,
/// and returns to address zero.
pub proof fn law_onload_is_entered_with_the_vm(entry: u64, sp: u64, r: Frame)
    requires
        call_ensures(onload_frame, (entry, sp), r),
    ensures
        r.pc == entry && r.sp == sp && r.tpidr == 0x7f06_0000 && r.lr == 0,
        r.args@ == seq![0x7f04_0000u64, 0],
{
}

/// What is reported tells how many instances there are; without any, whether there are methods.
pub proof fn law_summary_counts_the_instances(created: usize, entries: usize, r: Summary)
    requires
        call_ensures(summary, (created, entries), r),
    ensures
        created > 0 ==> r == Summary::Created(created),
        created == 0 && entries > 0 ==> r == Summary::NoInstances,
        created == 0 && entries == 0 ==> r == Summary::NoMethods,
{
}

/// A call that gave a handle that is not zero has created an instance of the class of its method,
/// which comes behind those before; any other call has created none.
pub proof fn law_instances_are_recorded(
    created: &mut Vec<Instance>,
    entry: &NativeMethod,
    result: Option<u64>,
)
    requires
        call_ensures(record_instance, (created, entry, result), ()),
    ensures
        result is None || result == Some(0u64) ==> final(created)@ == old(created)@,
        (result matches Some(handle) && handle != 0) ==> final(created)@.len() == old(created)@.len()
            + 1 && final(created)@.last().handle == result->0 && final(created)@.last().class@
            == entry.class@ && final(created)@.last().method@ == entry.name@,
        forall|i: int|
            0 <= i < old(created)@.len() ==> #[trigger] final(created)@[i] == old(created)@[i],
{
    if let Some(handle) = result {
        if handle != 0 {
            assert forall|i: int| 0 <= i < old(created)@.len() implies #[trigger] final(created)@[i]
                == old(created)@[i] by {
                assert(final(created)@.drop_last()[i] == final(created)@[i]);
            }
        }
    }
}

/// The calls that create instances are those of the methods with the signature `()J`, and the calls
/// on instances run on one instance after the other.
pub proof fn law_calls_are_listed(
    entries: &Vec<NativeMethod>,
    created: &Vec<Instance>,
    first: Vec<NativeCall>,
    second: Vec<NativeCall>,
    k: int,
)
    requires
        call_ensures(constructor_calls, (entries,), first),
        call_ensures(instance_calls, (entries, created), second),
    ensures
        0 <= k < first@.len() ==> creates(entries@, first@[k]@),
        created@.len() == 0 ==> second@.len() == 0,
        created@.len() == 1 && 0 <= k < second@.len() ==> runs_on(
            entries@,
            created@[0].class@,
            created@[0].handle,
            second@[k]@,
        ),
{
    law_constructors_are_called_in_order(entries@, 0);
    assert(call_list(first@).len() == first@.len());
    assert(call_list(second@).len() == second@.len());
    if 0 <= k < first@.len() {
        assert(call_list(first@)[k] == first@[k]@);
    }
    if created@.len() == 1 {
        let one = created@[0];
        assert(created@ == seq![one]);
        law_instances_come_one_after_the_other(entries@, Seq::empty(), Seq::empty(), one);
        law_methods_run_on_an_instance(entries@, one.class@, one.handle, 0);
        if 0 <= k < second@.len() {
            assert(call_list(second@)[k] == second@[k]@);
        }
    }
}

} // verus!
