//! Applying decoded events to the store.
use vstd::prelude::*;
use crate::events::Event;
use vstd::utf8::is_ascii_chars;
use crate::state::{default_name, AppState, FunctionView, StoreView};
use crate::text::{function_name_from_payload, payload_name, trim_of};

verus! {

/// Whether the receiving side goes on after an event.
#[derive(Debug, Clone, Copy, PartialEq, Eq, Structural)]
pub enum EventResult {
    Exit,
    Success,
    Fail,
}

/// The function an AddTask event labels its task with: only function 0 is attached.
pub open spec fn add_task_function(func_id: u64) -> Option<u64> {
    if func_id == 0 {
        Some(func_id)
    } else {
        None
    }
}

/// The store after an event; `payload` is what followed a RegisterFunction frame.
pub open spec fn apply_event(s: StoreView, event: Event, payload: Seq<u8>) -> StoreView {
    match event {
        Event::PreInit { .. } => StoreView { is_pre_init: true, ..s },
        Event::Init { .. } => StoreView { is_init: true, ..s },
        Event::AddTask { task_id, func_id, priority, scope_id } => s.create_task_spec(
            task_id,
            priority > 0,
            add_task_function(func_id),
            scope_id,
        ).0,
        Event::RegisterFunction { func_id, string_len } => s.create_function_spec(
            func_id,
            trim_of(payload_name(string_len, payload)),
        ).0,
        Event::AddDependency { to_id, from_id, .. } => s.add_dependency_spec(to_id, from_id).0,
        Event::RemoveTask { task_id } => s.delete_task_spec(task_id).0,
        _ => s,
    }
}

/// Only a Finish event ends the receiving side.
pub open spec fn event_result(event: Event) -> EventResult {
    match event {
        Event::Finish => EventResult::Exit,
        _ => EventResult::Success,
    }
}

fn handle_pre_init(state: &mut AppState)
    ensures
        final(state)@ == (StoreView { is_pre_init: true, ..old(state)@ }),
{
    state.set_pre_init();
}

fn handle_init(state: &mut AppState)
    ensures
        final(state)@ == (StoreView { is_init: true, ..old(state)@ }),
{
    state.set_init();
}

fn handle_add_task(state: &mut AppState, task_id: u64, func_id: u64, priority: u64, scope_id: u64)
    requires
        old(state)@.wf(),
    ensures
        final(state)@.wf(),
        final(state)@ == old(state)@.create_task_spec(
            task_id,
            priority > 0,
            add_task_function(func_id),
            scope_id,
        ).0,
{
    let function_id = if func_id == 0 {
        Some(func_id)
    } else {
        None
    };
    let is_critical = priority > 0;
    let _ = state.create_task(task_id, is_critical, function_id, scope_id);
}

fn handle_register_function(state: &mut AppState, func_id: u64, string_len: usize, payload: &[u8])
    requires
        old(state)@.wf(),
    ensures
        final(state)@.wf(),
        final(state)@ == old(state)@.create_function_spec(
            func_id,
            trim_of(payload_name(string_len, payload@)),
        ).0,
        is_ascii_chars(payload_name(string_len, payload@)) ==> final(state)@.functions.len()
            == old(state)@.functions.len() + 1 && final(state)@.functions.last().id == func_id,
        payload_name(string_len, payload@).len() == 0 ==> final(state)@.functions == old(
            state,
        )@.functions.push(FunctionView { id: func_id, name: default_name(func_id) }),
{
    let name = function_name_from_payload(string_len, payload);
    let _ = state.create_function(func_id, name);
}

fn handle_add_dependency(state: &mut AppState, to_id: u64, from_id: u64)
    requires
        old(state)@.wf(),
    ensures
        final(state)@.wf(),
        final(state)@ == old(state)@.add_dependency_spec(to_id, from_id).0,
{
    let _ = state.add_dependency(to_id, from_id);
}

fn handle_remove_task(state: &mut AppState, task_id: u64)
    requires
        old(state)@.wf(),
    ensures
        final(state)@.wf(),
        final(state)@ == old(state)@.delete_task_spec(task_id).0,
{
    let _ = state.delete_task(task_id);
}

/// How many bytes of name follow the frame of `event` on the stream: only a RegisterFunction
/// event that announces a name has any.
pub fn payload_len(event: &Event) -> (r: Option<usize>)
    ensures
        r == (match *event {
            Event::RegisterFunction { string_len, .. } => if string_len > 0 {
                Some(string_len)
            } else {
                None
            },
            _ => None,
        }),
{
    match event {
        Event::RegisterFunction { string_len, .. } => {
            if *string_len > 0 {
                Some(*string_len)
            } else {
                None
            }
        },
        _ => None,
    }
}

/// Applies a decoded event to the store. `name_payload` is what was read after a
/// RegisterFunction frame, and is ignored for other events. Events that change nothing in the
/// graph only acknowledge; a Finish event asks the receiving side to stop.
pub fn handle_event(event: Event, name_payload: &[u8], state: &mut AppState) -> (r: EventResult)
    requires
        old(state)@.wf(),
    ensures
        final(state)@.wf(),
        final(state)@ == apply_event(old(state)@, event, name_payload@),
        r == event_result(event),
        event is RegisterFunction && is_ascii_chars(
            payload_name(event->RegisterFunction_string_len, name_payload@),
        ) ==> final(state)@.functions.len() == old(state)@.functions.len() + 1
            && final(state)@.functions.last().id == event->RegisterFunction_func_id,
        event is RegisterFunction && payload_name(
            event->RegisterFunction_string_len,
            name_payload@,
        ).len() == 0 ==> final(state)@.functions == old(state)@.functions.push(
            FunctionView {
                id: event->RegisterFunction_func_id,
                name: default_name(event->RegisterFunction_func_id),
            },
        ),
{
    match event {
        Event::PreInit { .. } => handle_pre_init(state),
        Event::Init { .. } => handle_init(state),
        Event::AddTask { task_id, func_id, priority, scope_id } => handle_add_task(
            state,
            task_id,
            func_id,
            priority,
            scope_id,
        ),
        Event::RegisterFunction { func_id, string_len } => handle_register_function(
            state,
            func_id,
            string_len,
            name_payload,
        ),
        Event::AddDependency { to_id, from_id, .. } => handle_add_dependency(state, to_id, from_id),
        Event::RemoveTask { task_id } => handle_remove_task(state, task_id),
        Event::Finish => return EventResult::Exit,
        _ => {},
    }
    EventResult::Success
}

/// The two latches never open again once an event has closed them.
pub proof fn lemma_latches_stay_closed(s: StoreView, event: Event, payload: Seq<u8>)
    ensures
        s.is_pre_init ==> apply_event(s, event, payload).is_pre_init,
        s.is_init ==> apply_event(s, event, payload).is_init,
{
}

/// Slots are never reused: a slot whose task was removed stays empty, and a live slot keeps
/// its task's id, so an edge never comes to name another task.
pub proof fn lemma_slots_never_reused(s: StoreView, event: Event, payload: Seq<u8>, i: int)
    requires
        0 <= i < s.slots.len(),
    ensures
        apply_event(s, event, payload).slots.len() >= s.slots.len(),
        s.slots[i] is None ==> apply_event(s, event, payload).slots[i] is None,
        apply_event(s, event, payload).slots[i] is Some ==> s.slots[i] is Some && apply_event(
            s,
            event,
            payload,
        ).slots[i]->Some_0.id == s.slots[i]->Some_0.id,
{
}

} // verus!
