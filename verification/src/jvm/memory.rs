//! The VM's structures in guest memory.
use crate::bytes;
use crate::jvm::guest;
use crate::jvm::handles::JNI_HANDLES_BASE_ADDR;
use crate::jvm::jni_stubs;
use crate::jvm::jni_stubs::javavm_slot;
use crate::jvm::state::{JvmModel, JvmState, JAVAVM_STRUCT_ADDR, JNIENV_STRUCT_ADDR};
use vstd::prelude::*;

verus! {

/// Where the thread-local storage of the guest's C library stands.
pub const TLS_STRUCT_ADDR: u64 = 0x7f06_0000;

/// The JNIEnv functions table has 232 entries (JNI 1.6).
pub const JNIENV_FUNCTIONS_ADDR: u64 = 0x7f05_0008;

/// The JavaVM functions table has 8 entries.
pub const JAVAVM_FUNCTIONS_ADDR: u64 = 0x7f04_0008;

/// The number of entries of the JNIEnv functions table.
pub const JNIENV_FUNCTION_COUNT: u64 = 232;

/// The value against which the C library checks its stack frames.
pub const STACK_GUARD: u64 = 0xdead_beef_cafe_babe;

/// One step of setting up guest memory.
#[derive(Debug, Clone, Copy, PartialEq, Eq, Structural)]
pub enum SetupOp {
    /// Map anonymous memory; a failure is passed over.
    MapPages { addr: u64, size: u64 },
    /// Write a word; a failure ends the setup where the word is required.
    StoreWord { addr: u64, value: u64, required: bool },
}

/// The pages of the VM's structures, and a guard page at address zero.
pub open spec fn page_ops() -> Seq<SetupOp> {
    seq![
        SetupOp::MapPages { addr: JAVAVM_STRUCT_ADDR, size: 0x1000 },
        SetupOp::MapPages { addr: JNIENV_STRUCT_ADDR, size: 0x1000 },
        SetupOp::MapPages { addr: JNIENV_FUNCTIONS_ADDR, size: 0x1000 },
        SetupOp::MapPages { addr: TLS_STRUCT_ADDR, size: 0x1000 },
        SetupOp::MapPages { addr: jni_stubs::JNIENV_THUNK_BASE, size: 0x2000 },
        SetupOp::MapPages { addr: jni_stubs::JAVAVM_THUNK_BASE, size: 0x1000 },
        SetupOp::MapPages { addr: JNI_HANDLES_BASE_ADDR, size: 0x10000 },
        SetupOp::MapPages { addr: 0, size: 0x1000 },
    ]
}

/// The slots of thread-local storage: the block itself, the thread, `errno`, the JNIEnv
/// and the stack guard.
pub open spec fn tls_ops() -> Seq<SetupOp> {
    seq![
        SetupOp::StoreWord { addr: TLS_STRUCT_ADDR, value: TLS_STRUCT_ADDR, required: false },
        SetupOp::StoreWord {
            addr: (TLS_STRUCT_ADDR + 0x08) as u64,
            value: TLS_STRUCT_ADDR,
            required: false,
        },
        SetupOp::StoreWord {
            addr: (TLS_STRUCT_ADDR + 0x10) as u64,
            value: (TLS_STRUCT_ADDR + 0x80) as u64,
            required: false,
        },
        SetupOp::StoreWord {
            addr: (TLS_STRUCT_ADDR + 0x28) as u64,
            value: JNIENV_STRUCT_ADDR,
            required: false,
        },
        SetupOp::StoreWord {
            addr: (TLS_STRUCT_ADDR + 0x38) as u64,
            value: STACK_GUARD,
            required: false,
        },
    ]
}

/// The word at `slot` of the JavaVM functions table: the address of the slot's thunk.
pub open spec fn javavm_op(slot: int) -> SetupOp {
    SetupOp::StoreWord {
        addr: (JAVAVM_FUNCTIONS_ADDR + 8 * slot) as u64,
        value: jni_stubs::javavm_thunk(slot) as u64,
        required: false,
    }
}

/// The word at `slot` of the JNIEnv functions table: the address of the slot's thunk.
pub open spec fn jnienv_op(slot: int) -> SetupOp {
    SetupOp::StoreWord {
        addr: (JNIENV_FUNCTIONS_ADDR + 8 * slot) as u64,
        value: jni_stubs::jnienv_thunk(slot) as u64,
        required: false,
    }
}

/// The JavaVM structure, which points to its functions table, and the table.
pub open spec fn javavm_ops(required: bool) -> Seq<SetupOp> {
    seq![
        SetupOp::StoreWord { addr: JAVAVM_STRUCT_ADDR, value: JAVAVM_FUNCTIONS_ADDR, required },
        javavm_op(javavm_slot::DESTROY_JAVA_VM as int),
        javavm_op(javavm_slot::ATTACH_CURRENT_THREAD as int),
        javavm_op(javavm_slot::DETACH_CURRENT_THREAD as int),
        javavm_op(javavm_slot::GET_ENV as int),
        javavm_op(javavm_slot::ATTACH_CURRENT_THREAD_AS_DAEMON as int),
    ]
}

/// The JNIEnv structure, which points to its functions table, and the table.
pub open spec fn jnienv_ops(required: bool) -> Seq<SetupOp> {
    seq![
        SetupOp::StoreWord { addr: JNIENV_STRUCT_ADDR, value: JNIENV_FUNCTIONS_ADDR, required },
    ] + Seq::new(JNIENV_FUNCTION_COUNT as nat, |slot: int| jnienv_op(slot))
}

/// All that is done to guest memory, in order. `required` says whether the two structures
/// must be written.
pub open spec fn setup_ops(required: bool) -> Seq<SetupOp> {
    page_ops() + tls_ops() + javavm_ops(required) + jnienv_ops(required)
}

/// Guest memory after a setup whose stores all succeed. What mapping pages does to memory
/// is left to `mapped`.
pub open spec fn after_setup(
    ops: Seq<SetupOp>,
    m: Map<int, u8>,
    mapped: spec_fn(Map<int, u8>, u64, u64) -> Map<int, u8>,
) -> Map<int, u8>
    decreases ops.len(),
{
    if ops.len() == 0 {
        m
    } else {
        let before = after_setup(ops.drop_last(), m, mapped);
        match ops.last() {
            SetupOp::MapPages { addr, size } => mapped(before, addr, size),
            SetupOp::StoreWord { addr, value, .. } => guest::written(
                before,
                addr as int,
                bytes::word_bytes(value),
            ),
        }
    }
}

/// Puts the steps at the end of `ops`.
fn push_all(ops: &mut Vec<SetupOp>, more: &[SetupOp])
    ensures
        final(ops)@ == old(ops)@ + more@,
{
    let mut i: usize = 0;
    while i < more.len()
        invariant
            i <= more.len(),
            ops@ == old(ops)@ + more@.take(i as int),
        decreases more.len() - i,
    {
        ops.push(more[i]);
        assert(more@.take(i + 1) == more@.take(i as int).push(more@[i as int]));
        i = i + 1;
    }
    assert(more@.take(i as int) == more@);
}

/// The entry of the JavaVM functions table at `slot`.
fn store_javavm_slot(slot: usize) -> (r: SetupOp)
    requires
        slot < 8,
    ensures
        r == javavm_op(slot as int),
{
    SetupOp::StoreWord {
        addr: JAVAVM_FUNCTIONS_ADDR + 8 * (slot as u64),
        value: jni_stubs::javavm_thunk_addr(slot),
        required: false,
    }
}

/// Lists the steps of the setup.
fn list_setup(required: bool) -> (r: Vec<SetupOp>)
    ensures
        r@ == setup_ops(required),
{
    let mut ops: Vec<SetupOp> = Vec::new();
    push_all(
        &mut ops,
        &[
            SetupOp::MapPages { addr: JAVAVM_STRUCT_ADDR, size: 0x1000 },
            SetupOp::MapPages { addr: JNIENV_STRUCT_ADDR, size: 0x1000 },
            SetupOp::MapPages { addr: JNIENV_FUNCTIONS_ADDR, size: 0x1000 },
            SetupOp::MapPages { addr: TLS_STRUCT_ADDR, size: 0x1000 },
            SetupOp::MapPages { addr: jni_stubs::JNIENV_THUNK_BASE, size: 0x2000 },
            SetupOp::MapPages { addr: jni_stubs::JAVAVM_THUNK_BASE, size: 0x1000 },
            SetupOp::MapPages { addr: JNI_HANDLES_BASE_ADDR, size: 0x10000 },
            SetupOp::MapPages { addr: 0, size: 0x1000 },
        ],
    );
    assert(ops@ =~= page_ops());
    push_all(
        &mut ops,
        &[
            SetupOp::StoreWord { addr: TLS_STRUCT_ADDR, value: TLS_STRUCT_ADDR, required: false },
            SetupOp::StoreWord {
                addr: TLS_STRUCT_ADDR + 0x08,
                value: TLS_STRUCT_ADDR,
                required: false,
            },
            SetupOp::StoreWord {
                addr: TLS_STRUCT_ADDR + 0x10,
                value: TLS_STRUCT_ADDR + 0x80,
                required: false,
            },
            SetupOp::StoreWord {
                addr: TLS_STRUCT_ADDR + 0x28,
                value: JNIENV_STRUCT_ADDR,
                required: false,
            },
            SetupOp::StoreWord {
                addr: TLS_STRUCT_ADDR + 0x38,
                value: STACK_GUARD,
                required: false,
            },
        ],
    );
    assert(ops@ =~= page_ops() + tls_ops());
    push_all(
        &mut ops,
        &[
            SetupOp::StoreWord { addr: JAVAVM_STRUCT_ADDR, value: JAVAVM_FUNCTIONS_ADDR, required },
            store_javavm_slot(javavm_slot::DESTROY_JAVA_VM),
            store_javavm_slot(javavm_slot::ATTACH_CURRENT_THREAD),
            store_javavm_slot(javavm_slot::DETACH_CURRENT_THREAD),
            store_javavm_slot(javavm_slot::GET_ENV),
            store_javavm_slot(javavm_slot::ATTACH_CURRENT_THREAD_AS_DAEMON),
        ],
    );
    assert(ops@ =~= page_ops() + tls_ops() + javavm_ops(required));
    let ghost before = ops@;
    ops.push(
        SetupOp::StoreWord { addr: JNIENV_STRUCT_ADDR, value: JNIENV_FUNCTIONS_ADDR, required },
    );
    let mut slot: u64 = 0;
    while slot < JNIENV_FUNCTION_COUNT
        invariant
            slot <= JNIENV_FUNCTION_COUNT,
            before == page_ops() + tls_ops() + javavm_ops(required),
            ops@ =~= before + jnienv_ops(required).take(slot + 1),
        decreases JNIENV_FUNCTION_COUNT - slot,
    {
        ops.push(
            SetupOp::StoreWord {
                addr: JNIENV_FUNCTIONS_ADDR + 8 * slot,
                value: jni_stubs::jnienv_thunk_addr(slot as usize),
                required: false,
            },
        );
        slot = slot + 1;
    }
    assert(jnienv_ops(required).take(slot + 1) =~= jnienv_ops(required));
    ops
}

/// The state of a fresh VM, and what has to be written into guest memory for its `JavaVM`
/// and `JNIEnv` structures.
///
/// After these steps:
/// - `*JAVAVM_STRUCT_ADDR` -> JAVAVM_FUNCTIONS_ADDR
/// - `*JAVAVM_FUNCTIONS_ADDR[GetEnv]` -> javavm_thunk_addr(GET_ENV)
/// - `*JNIENV_STRUCT_ADDR` -> JNIENV_FUNCTIONS_ADDR
/// - `*JNIENV_FUNCTIONS_ADDR[FindClass]` -> jnienv_thunk_addr(FIND_CLASS)
/// - and so on for each slot.
pub fn build_jvm_memory() -> (r: (JvmState, Vec<SetupOp>))
    ensures
        r.0.wf(),
        r.0@ == JvmModel::initial(),
        r.1@ == setup_ops(true),
{
    (JvmState::new(), list_setup(true))
}

/// What has to be written again before a library runs: loading one may map pages over the
/// VM's structures. None of the writes is required to succeed.
pub fn ensure_jvm_memory_intact() -> (r: Vec<SetupOp>)
    ensures
        r@ == setup_ops(false),
{
    list_setup(false)
}

/// A word that is stored and not overwritten later is there at the end.
proof fn last_store_stays(
    ops: Seq<SetupOp>,
    m: Map<int, u8>,
    mapped: spec_fn(Map<int, u8>, u64, u64) -> Map<int, u8>,
    i: int,
    addr: u64,
    value: u64,
)
    requires
        0 <= i < ops.len(),
        ops[i] matches SetupOp::StoreWord { addr: a, value: v, .. } && a == addr && v == value,
        forall|j: int|
            i < j < ops.len() ==> ((#[trigger] ops[j]) matches SetupOp::StoreWord { addr: b, .. }
                && (b + 8 <= addr || addr + 8 <= b)),
    ensures
        guest::word_is(after_setup(ops, m, mapped), addr as int, value as int),
    decreases ops.len(),
{
    let before = after_setup(ops.drop_last(), m, mapped);
    if i == ops.len() - 1 {
        guest::law_word_write_reads_back(before, addr as int, value);
    } else {
        last_store_stays(ops.drop_last(), m, mapped, i, addr, value);
        if let SetupOp::StoreWord { addr: b, value: w, .. } = ops.last() {
            guest::law_word_survives_other_writes(
                before,
                addr as int,
                value as int,
                b as int,
                bytes::word_bytes(w),
            );
        }
    }
}

/// The steps behind the first eight store words, at addresses at least eight bytes apart.
proof fn stores_are_apart(required: bool)
    ensures
        setup_ops(required).len() == 252,
        forall|j: int|
            8 <= j < 252 ==> (#[trigger] setup_ops(required)[j]) is StoreWord,
        forall|i: int, j: int|
            8 <= i < j < 252 ==> ((#[trigger] setup_ops(required)[i])->StoreWord_addr + 8
                <= (#[trigger] setup_ops(required)[j])->StoreWord_addr
                || setup_ops(required)[j]->StoreWord_addr + 8
                <= setup_ops(required)[i]->StoreWord_addr),
{
}

/// Once the setup has run, whatever memory held before and whatever mapping pages does, the
/// structures point to their tables, each slot of the tables to its thunk, and the slots of
/// thread-local storage hold what the C library expects.
pub proof fn law_setup_writes_the_vm(
    required: bool,
    m: Map<int, u8>,
    mapped: spec_fn(Map<int, u8>, u64, u64) -> Map<int, u8>,
)
    ensures
        ({
            let after = after_setup(setup_ops(required), m, mapped);
            &&& guest::word_is(after, JAVAVM_STRUCT_ADDR as int, JAVAVM_FUNCTIONS_ADDR as int)
            &&& guest::word_is(after, JNIENV_STRUCT_ADDR as int, JNIENV_FUNCTIONS_ADDR as int)
            &&& forall|slot: int|
                3 <= slot < 8 ==> guest::word_is(
                    after,
                    JAVAVM_FUNCTIONS_ADDR + 8 * slot,
                    #[trigger] jni_stubs::javavm_thunk(slot),
                )
            &&& forall|slot: int|
                0 <= slot < JNIENV_FUNCTION_COUNT ==> guest::word_is(
                    after,
                    JNIENV_FUNCTIONS_ADDR + 8 * slot,
                    #[trigger] jni_stubs::jnienv_thunk(slot),
                )
            &&& guest::word_is(after, TLS_STRUCT_ADDR as int, TLS_STRUCT_ADDR as int)
            &&& guest::word_is(after, TLS_STRUCT_ADDR + 0x08, TLS_STRUCT_ADDR as int)
            &&& guest::word_is(after, TLS_STRUCT_ADDR + 0x10, TLS_STRUCT_ADDR + 0x80)
            &&& guest::word_is(after, TLS_STRUCT_ADDR + 0x28, JNIENV_STRUCT_ADDR as int)
            &&& guest::word_is(after, TLS_STRUCT_ADDR + 0x38, STACK_GUARD as int)
        }),
{
    let ops = setup_ops(required);
    let after = after_setup(ops, m, mapped);
    stores_are_apart(required);
    assert forall|i: int| 8 <= i < 252 implies guest::word_is(
        after,
        (#[trigger] ops[i])->StoreWord_addr as int,
        ops[i]->StoreWord_value as int,
    ) by {
        last_store_stays(
            ops,
            m,
            mapped,
            i,
            ops[i]->StoreWord_addr,
            ops[i]->StoreWord_value,
        );
    }
    assert(ops[8] == tls_ops()[0]);
    assert(ops[9] == tls_ops()[1]);
    assert(ops[10] == tls_ops()[2]);
    assert(ops[11] == tls_ops()[3]);
    assert(ops[12] == tls_ops()[4]);
    assert(ops[13] == javavm_ops(required)[0]);
    assert(ops[19] == jnienv_ops(required)[0]);
    assert forall|slot: int| 3 <= slot < 8 implies guest::word_is(
        after,
        JAVAVM_FUNCTIONS_ADDR + 8 * slot,
        #[trigger] jni_stubs::javavm_thunk(slot),
    ) by {
        assert(ops[11 + slot] == javavm_op(slot));
    }
    assert forall|slot: int| 0 <= slot < JNIENV_FUNCTION_COUNT implies guest::word_is(
        after,
        JNIENV_FUNCTIONS_ADDR + 8 * slot,
        #[trigger] jni_stubs::jnienv_thunk(slot),
    ) by {
        assert(ops[20 + slot] == jnienv_op(slot));
    }
}

/// An address that the setup stores to.
pub open spec fn is_vm_byte(a: int) -> bool {
    ||| TLS_STRUCT_ADDR <= a < TLS_STRUCT_ADDR + 0x40
    ||| JAVAVM_STRUCT_ADDR <= a < JAVAVM_FUNCTIONS_ADDR + 8 * 8
    ||| JNIENV_STRUCT_ADDR <= a < JNIENV_FUNCTIONS_ADDR + 8 * JNIENV_FUNCTION_COUNT
}

/// Beside its structures the setup changes nothing but what mapping the pages changes.
pub proof fn law_setup_leaves_the_rest(
    required: bool,
    m: Map<int, u8>,
    mapped: spec_fn(Map<int, u8>, u64, u64) -> Map<int, u8>,
    a: int,
)
    requires
        !is_vm_byte(a),
    ensures
        ({
            let before = after_setup(page_ops(), m, mapped);
            let after = after_setup(setup_ops(required), m, mapped);
            after.contains_key(a) == before.contains_key(a) && (before.contains_key(a) ==> after[a]
                == before[a])
        }),
{
    let ops = setup_ops(required);
    stores_are_apart(required);
    assert forall|i: int| 8 <= i < 252 implies ({
        let addr = (#[trigger] ops[i])->StoreWord_addr;
        !(addr <= a < addr + 8)
    }) by {
        if i >= 20 {
            assert(ops[i] == jnienv_op(i - 20));
        }
    }
    assert(ops.take(8) =~= page_ops());
    byte_survives_stores(ops, 8, m, mapped, a);
}

proof fn byte_survives_stores(
    ops: Seq<SetupOp>,
    from: int,
    m: Map<int, u8>,
    mapped: spec_fn(Map<int, u8>, u64, u64) -> Map<int, u8>,
    a: int,
)
    requires
        0 <= from <= ops.len(),
        forall|i: int|
            from <= i < ops.len() ==> ((#[trigger] ops[i]) matches SetupOp::StoreWord { addr, .. }
                && !(addr <= a < addr + 8)),
    ensures
        ({
            let before = after_setup(ops.take(from), m, mapped);
            let after = after_setup(ops, m, mapped);
            after.contains_key(a) == before.contains_key(a) && (before.contains_key(a) ==> after[a]
                == before[a])
        }),
    decreases ops.len(),
{
    if from == ops.len() {
        assert(ops.take(from) =~= ops);
    } else {
        byte_survives_stores(ops.drop_last(), from, m, mapped, a);
        assert(ops.drop_last().take(from) =~= ops.take(from));
        assert(ops[ops.len() - 1] is StoreWord);
    }
}

/// The setup of a fresh VM and the one before a library runs write the same.
pub proof fn law_setups_write_the_same(
    m: Map<int, u8>,
    mapped: spec_fn(Map<int, u8>, u64, u64) -> Map<int, u8>,
)
    ensures
        after_setup(setup_ops(true), m, mapped) == after_setup(setup_ops(false), m, mapped),
{
    let a = setup_ops(true);
    let b = setup_ops(false);
    assert forall|i: int| 0 <= i < a.len() implies same_write(#[trigger] a[i], b[i]) by {
        if i >= 20 {
            assert(a[i] == jnienv_op(i - 20));
            assert(b[i] == jnienv_op(i - 20));
        }
    }
    same_writes(a, b, m, mapped);
}

/// Two steps that differ at most in what a failure means.
pub open spec fn same_write(a: SetupOp, b: SetupOp) -> bool {
    match (a, b) {
        (
            SetupOp::MapPages { addr: a0, size: a1 },
            SetupOp::MapPages { addr: b0, size: b1 },
        ) => a0 == b0 && a1 == b1,
        (
            SetupOp::StoreWord { addr: a0, value: a1, .. },
            SetupOp::StoreWord { addr: b0, value: b1, .. },
        ) => a0 == b0 && a1 == b1,
        _ => false,
    }
}

proof fn same_writes(
    a: Seq<SetupOp>,
    b: Seq<SetupOp>,
    m: Map<int, u8>,
    mapped: spec_fn(Map<int, u8>, u64, u64) -> Map<int, u8>,
)
    requires
        a.len() == b.len(),
        forall|i: int| 0 <= i < a.len() ==> same_write(#[trigger] a[i], b[i]),
    ensures
        after_setup(a, m, mapped) == after_setup(b, m, mapped),
    decreases a.len(),
{
    if a.len() > 0 {
        same_writes(a.drop_last(), b.drop_last(), m, mapped);
        assert(same_write(a[a.len() - 1], b[b.len() - 1]));
    }
}

} // verus!
