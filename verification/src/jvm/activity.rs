//! The lifecycle of an Activity.
use crate::jvm::handles::{alloc_handle, HandleAllocator};
use crate::jvm::state::JvmState;
use crate::text;
use vstd::prelude::*;

verus! {

/// What is logged when an Activity gets its object.
pub open spec fn instantiated_line(name: Seq<char>, handle: u64) -> Seq<char> {
    "[Activity] Instantiated Activity object ("@ + name + ") at handle "@ + text::hex_text(handle)
}

/// What is logged when a method of an Activity is run.
pub open spec fn executing_line(name: Seq<char>, method: Seq<char>) -> Seq<char> {
    "[Activity] Executing "@ + name + method
}

/// The line for one method of an Activity.
fn executing(name: &str, method: &str) -> (r: String)
    ensures
        r@ == executing_line(name@, method@),
{
    let mut line = "[Activity] Executing ".to_owned();
    text::append(&mut line, name);
    text::append(&mut line, method);
    line
}

/// Dispatch Activity lifecycle methods (`onCreate`, `onStart`, `onResume`) for a registered
/// Activity class: the Activity gets a new handle, and the lines that tell of it and of
/// each method are returned.
pub fn dispatch_activity_lifecycle(
    activity_name: &str,
    jvm_state: &mut JvmState,
    handles: &mut HandleAllocator,
) -> (r: Vec<String>)
    requires
        old(handles).room(),
    ensures
        final(jvm_state)@ == old(jvm_state)@.with_class(old(handles).next, activity_name@),
        old(jvm_state).wf() ==> final(jvm_state).wf(),
        *final(handles) == old(handles).advanced(),
        text::texts(r@) == seq![
            instantiated_line(activity_name@, old(handles).next),
            executing_line(activity_name@, ".onCreate(Bundle=NULL)..."@),
            executing_line(activity_name@, ".onStart()..."@),
            executing_line(activity_name@, ".onResume()..."@),
        ],
{
    let mut logs: Vec<String> = Vec::new();
    let handle: u64 = alloc_handle(handles);
    jvm_state.insert_class(handle, activity_name);
    let mut line = "[Activity] Instantiated Activity object (".to_owned();
    text::append(&mut line, activity_name);
    text::append(&mut line, ") at handle ");
    text::append(&mut line, text::hex(handle).as_str());
    logs.push(line);
    logs.push(executing(activity_name, ".onCreate(Bundle=NULL)..."));
    logs.push(executing(activity_name, ".onStart()..."));
    logs.push(executing(activity_name, ".onResume()..."));
    assert(text::texts(logs@) =~= seq![
        instantiated_line(activity_name@, handle),
        executing_line(activity_name@, ".onCreate(Bundle=NULL)..."@),
        executing_line(activity_name@, ".onStart()..."@),
        executing_line(activity_name@, ".onResume()..."@),
    ]);
    logs
}

/// The lines of an Activity name it and tell its handle in hexadecimal digits, or the method.
pub proof fn law_lines_name_the_activity(name: Seq<char>, method: Seq<char>, handle: u64)
    ensures
        instantiated_line(name, handle) == "[Activity] Instantiated Activity object ("@ + name
            + ") at handle "@ + text::hex_text(handle),
        executing_line(name, method) == "[Activity] Executing "@ + name + method,
{
}

} // verus!
