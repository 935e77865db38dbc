//! What the host gives a program and sees of it.

use vstd::prelude::*;
use crate::error::{CodeRange, ErrorView, MessageView, RaiseView, RawStackFrame, RunError, RunResult};
use crate::exception::{trace_lines, MontyException};
use crate::heap::HeapView;
use crate::ids::{NamespaceId, StringId};
use crate::interns::Interns;
use crate::list_results::raises;
use crate::namespaces::{depth_error, trimmed, Namespaces, NamespacesView};
use crate::object::{exported, imported, imported_items, MontyObject};
use crate::object_laws::{
    fits, items_are_taken_in_turn, keeps_empty_tuple, objects_come_out_again, same_object,
};
use crate::ref_counts::named_counts;
use crate::resource::{ResourceError, ResourceTracker};
use crate::resume::{host_error, resumed_as, Outlook};
use crate::run::{
    exit_seen, fresh_machine, progress_seen, Executor, ExternalResult, FrameExit, Resumed, RunProgress,
};
use crate::text::{line_end, nth_line};
use crate::types::ExcType;
use crate::value::Value;
use crate::vm::snapshot::VMSnapshot;
use crate::vm::VmView;

verus! {

/// The inputs of a program stand behind the functions of the host, in their order: what the
/// program would hand out of each variable is the input that was given for it.
pub proof fn inputs_have_their_places<T: ResourceTracker>(
    executor: Executor,
    h: HeapView<T>,
    inputs: Seq<MontyObject>,
    i: int,
    room: nat,
    out: MontyObject,
)
    requires
        0 <= i < inputs.len(),
        forall|k: int| 0 <= k < inputs.len() ==> fits(#[trigger] inputs[k], room),
        keeps_empty_tuple(h),
        executor.prepared(h, inputs).result is Ok,
        executor.prepared(h, inputs).heap.entries.len() < usize::MAX,
        ({
            let values = executor.prepared(h, inputs).result->Ok_0.get(NamespaceId(0))->0;
            exported(
                executor.prepared(h, inputs).heap,
                executor.interns,
                values[executor.external_function_ids@.len() + i],
                Set::empty(),
                room,
                out,
            )
        }),
    ensures
        same_object(inputs[i], out),
{
    let n = inputs.len() as int;
    let taken = imported_items(h, executor.interns, inputs, n);
    let values = taken.result->Ok_0;
    items_are_taken_in_turn(h, executor.interns, inputs, n, i, room);
    let start = imported_items(h, executor.interns, inputs, i);
    let one = imported(start.heap, executor.interns, inputs[i]);
    let global = executor.prepared(h, inputs).result->Ok_0.get(NamespaceId(0))->0;
    assert(global[executor.external_function_ids@.len() + i] == values[i]);
    assert(one.result->Ok_0 == values[i]);
    objects_come_out_again(
        start.heap,
        executor.interns,
        inputs[i],
        taken.heap,
        Set::empty(),
        room,
        out,
    );
}

/// A program is not started with too many inputs, nor step by step with another number than it
/// names.
pub proof fn inputs_are_counted<T: ResourceTracker>(
    executor: Executor,
    h: HeapView<T>,
    inputs: Seq<MontyObject>,
)
    ensures
        executor.external_function_ids@.len() + inputs.len() > executor.namespace_size ==> {
            &&& executor.prepared(h, inputs).result matches Err(e)
            &&& e.exc_type == ExcType::RuntimeError
        },
        inputs.len() != executor.input_count ==> {
            &&& executor.started(h, inputs).result matches Err(e)
            &&& e.exc_type == ExcType::RuntimeError
        },
        inputs.len() == executor.input_count ==> executor.started(h, inputs)
            == executor.prepared(h, inputs),
{
}

/// A program starts with its first instruction, in one frame, with nothing on its stack and no
/// task.
pub proof fn programs_start_at_the_start<T>(
    heap: HeapView<T>,
    namespaces: NamespacesView,
    executor: Executor,
)
    ensures
        ({
            let vm = fresh_machine(heap, namespaces, executor);
            &&& vm.stack.len() == 0
            &&& vm.exception_stack.len() == 0
            &&& vm.frames.len() == 1
            &&& vm.frames[0].ip == 0
            &&& vm.frames[0].stack_base == 0
            &&& vm.frames[0].function_id is None
            &&& vm.frames[0].namespace_idx.0 == 0
            &&& vm.scheduler is None
            &&& vm.next_call_id == 0
            &&& vm.heap == heap
            &&& vm.namespaces == namespaces
            &&& vm.interns == executor.interns
            &&& vm.module_code == executor.module_code
        }),
{
}

/// The host sees what a program returned, and the class and the text of what it raised.
pub proof fn host_sees_the_end<T>(
    exit: RunResult<FrameExit>,
    vm_state: Option<VMSnapshot>,
    executor: Executor,
    heap: HeapView<T>,
    namespaces: Namespaces,
    r: Result<RunProgress<T>, MontyException>,
)
    requires
        progress_seen(exit, vm_state, executor, heap, namespaces, r),
    ensures
        exit matches Ok(FrameExit::Return(v)) ==> {
            &&& r matches Ok(RunProgress::Complete(o))
            &&& v matches Value::Int(i) ==> o == MontyObject::Int(i)
            &&& v matches Value::Bool(b) ==> o == MontyObject::Bool(b)
            &&& v is PyNone ==> o is PyNone
            &&& v matches Value::InternString(id) ==> (o matches MontyObject::Text(t) && t@
                == executor.interns.text(id))
        },
        exit matches Err(e) ==> {
            &&& r matches Err(x)
            &&& e@ matches ErrorView::Exc(raise) ==> x.exc_type == raise.exc.exc_type && (
            raise.exc.message matches Some(m) ==> (x.message matches Some(t) && t@ == m.text(
                executor.interns,
            ))) && (raise.exc.message is None ==> x.message is None)
        },
{
}

/// The host is asked for the function a program called, by its name and with the arguments in
/// their order, under the number of the call; the program can go on from there.
pub proof fn host_is_asked_for_the_call<T>(
    exit: RunResult<FrameExit>,
    vm_state: Option<VMSnapshot>,
    executor: Executor,
    heap: HeapView<T>,
    namespaces: Namespaces,
    r: Result<RunProgress<T>, MontyException>,
    i: int,
)
    requires
        progress_seen(exit, vm_state, executor, heap, namespaces, r),
    ensures
        exit matches Ok(FrameExit::ExternalCall { ext_function_id, args, call_id }) ==> {
            &&& r matches Ok(
                RunProgress::FunctionCall { function_name, args: pos, kwargs, call_id: id, state },
            )
            &&& function_name@ == executor.interns.external_functions@[ext_function_id.0 as int]@
            &&& id == call_id.0
            &&& state.pending_call_id == call_id.0
            &&& Some(state.vm_state) == vm_state
            &&& pos@.len() == args@.pos.len()
            &&& kwargs@.len() == args@.pairs.len()
            &&& 0 <= i < args@.pos.len() ==> (args@.pos[i] matches Value::Int(x) ==> pos@[i]
                == MontyObject::Int(x))
            &&& 0 <= i < args@.pairs.len() ==> (args@.pairs[i].0 matches Value::InternString(name)
                ==> (kwargs@[i].0 matches MontyObject::Text(t) && t@ == executor.interns.text(
                name,
            ))) && (args@.pairs[i].1 matches Value::Int(x) ==> kwargs@[i].1 == MontyObject::Int(x))
        },
        exit matches Ok(FrameExit::OsCall { function, args, call_id }) ==> {
            &&& r matches Ok(
                RunProgress::OsCall { function: f, args: pos, kwargs, call_id: id, state },
            )
            &&& f == function
            &&& id == call_id.0
            &&& state.pending_call_id == call_id.0
            &&& pos@.len() == args@.pos.len()
            &&& 0 <= i < args@.pos.len() ==> (args@.pos[i] matches Value::Int(x) ==> pos@[i]
                == MontyObject::Int(x))
        },
        exit matches Ok(FrameExit::ResolveFutures(calls)) ==> {
            &&& r matches Ok(RunProgress::ResolveFutures(state))
            &&& state.pending_call_ids@.len() == calls@.len()
            &&& 0 <= i < calls@.len() ==> state.pending_call_ids@[i] == calls@[i].0
        },
{
    if let Ok(FrameExit::ExternalCall { ext_function_id, args, call_id }) = exit {
        if 0 <= i < args@.pos.len() {
            let _ = args@.pos[i];
        }
        if 0 <= i < args@.pairs.len() {
            let _ = args@.pairs[i];
        }
    }
    if let Ok(FrameExit::OsCall { function, args, call_id }) = exit {
        if 0 <= i < args@.pos.len() {
            let _ = args@.pos[i];
        }
    }
}

/// A host that does nothing for a program gets an error for every call it would have to carry
/// out.
pub proof fn calls_need_a_host<T>(
    h: HeapView<T>,
    interns: Interns,
    exit: RunResult<FrameExit>,
    r: RunResult<MontyObject>,
    after: HeapView<T>,
)
    requires
        exit_seen(h, interns, exit, r, after),
    ensures
        (exit is Ok && !(exit->Ok_0 is Return)) ==> (r matches Err(x) && raises(
            Err::<(), ErrorView>(x@),
            ExcType::NotImplementedError,
        )),
        exit matches Ok(FrameExit::Return(Value::Int(i))) ==> r == Ok::<
            MontyObject,
            RunError,
        >(MontyObject::Int(i)),
        exit is Err ==> r is Err,
{
}

/// A program that waits for a call goes on with the value the host returns on its stack.
pub proof fn returned_value_is_pushed<T: ResourceTracker>(
    vm: VmView<T>,
    call: u32,
    object: MontyObject,
    room: nat,
    out: MontyObject,
)
    requires
        fits(object, room),
        keeps_empty_tuple(vm.heap),
        vm.call_resumed(call, ExternalResult::Return(object)).result is None,
        vm.call_resumed(call, ExternalResult::Return(object)).vm.heap.entries.len() < usize::MAX,
        ({
            let after = vm.call_resumed(call, ExternalResult::Return(object)).vm;
            exported(after.heap, vm.interns, after.stack.last(), Set::empty(), room, out)
        }),
    ensures
        ({
            let after = vm.call_resumed(call, ExternalResult::Return(object)).vm;
            &&& after.stack.len() == vm.stack.len() + 1
            &&& after.stack.drop_last() == vm.stack
            &&& after.frames == vm.frames
            &&& same_object(object, out)
        }),
{
    let taken = imported(vm.heap, vm.interns, object);
    let after = vm.call_resumed(call, ExternalResult::Return(object)).vm;
    assert(after.stack.drop_last() =~= vm.stack);
    objects_come_out_again(
        vm.heap,
        vm.interns,
        object,
        taken.heap,
        Set::empty(),
        room,
        out,
    );
}

/// An exception of the host is raised in the program as what it is.
pub proof fn host_exception_is_raised(exc: MontyException)
    ensures
        host_error(exc) matches ErrorView::Exc(raise) && raise.exc.exc_type == exc.exc_type
            && raise.frame is None && match exc.message {
            None => raise.exc.message is None,
            Some(text) => raise.exc.message matches Some(MessageView::Text(t)) && t
                == text@,
        },
{
}

/// The line of a call comes first in a traceback, before the lines of what it called, and the
/// place where the exception was raised comes last.
pub proof fn traceback_begins_with_the_caller(
    frame: RawStackFrame,
    caller: RawStackFrame,
    interns: Interns,
    source: Seq<char>,
)
    requires
        caller.parent is None,
    ensures
        ({
            let lines = trace_lines(frame, interns, source);
            let longer = trace_lines(frame.with_caller(caller), interns, source);
            &&& lines.len() > 0
            &&& lines.last().position == frame.position
            &&& lines.last().frame_name == interns.text(frame.frame_name)
            &&& longer.len() == lines.len() + 1
            &&& longer[0].position == caller.position
            &&& longer[0].frame_name == interns.text(caller.frame_name)
            &&& forall|i: int| 0 <= i < lines.len() ==> longer[i + 1] == #[trigger] lines[i]
        }),
    decreases frame,
{
    reveal_with_fuel(trace_lines, 3);
    let lines = trace_lines(frame, interns, source);
    let longer = trace_lines(frame.with_caller(caller), interns, source);
    match frame.parent {
        None => {
            assert(trace_lines(caller, interns, source).len() == 1);
        },
        Some(p) => {
            traceback_begins_with_the_caller(*p, caller, interns, source);
            let inner = trace_lines(*p, interns, source);
            let grown = trace_lines(p.with_caller(caller), interns, source);
            assert(lines == inner.push(lines.last()));
            assert(longer == grown.push(lines.last()));
            assert forall|i: int| 0 <= i < lines.len() implies longer[i + 1]
                == #[trigger] lines[i] by {
                if i < inner.len() {
                    assert(grown[i + 1] == inner[i]);
                }
            }
        },
    }
}

/// An exception that leaves a function keeps its class and its text.
pub proof fn callers_only_lengthen_the_traceback(
    raise: RaiseView,
    position: CodeRange,
    name: StringId,
    interns: Interns,
    source: Seq<char>,
)
    ensures
        ({
            let before = raise.info(interns, source);
            let after = raise.with_caller(position, name).info(interns, source);
            &&& after.exc_type == before.exc_type
            &&& after.message == before.message
            &&& after.traceback.len() == before.traceback.len() + 1
            &&& after.traceback[0].position == position
            &&& after.traceback[0].frame_name == interns.text(name)
            &&& forall|i: int|
                0 <= i < before.traceback.len() ==> after.traceback[i + 1]
                    == #[trigger] before.traceback[i]
        }),
{
    if let Some(f) = raise.frame {
        let caller = RawStackFrame {
            position,
            frame_name: name,
            hide_caret: false,
            parent: None,
        };
        traceback_begins_with_the_caller(f, caller, interns, source);
    }
}

proof fn line_ends_at_the_break(text: Seq<char>, end: int)
    requires
        0 <= end <= text.len(),
        forall|i: int| 0 <= i < end ==> (#[trigger] text[i]) != '\n',
        end < text.len() ==> text[end] == '\n',
    ensures
        line_end(text) == end,
    decreases text.len(),
{
    if end > 0 {
        assert(text[0] != '\n');
        let rest = text.skip(1);
        assert forall|i: int| 0 <= i < end - 1 implies (#[trigger] rest[i]) != '\n' by {
            assert(rest[i] == text[i + 1]);
        }
        line_ends_at_the_break(rest, end - 1);
    }
}

/// The first line of a text is what stands before its first line break; the other lines are those
/// of what follows. A carriage return before the line feed belongs to the break.
pub proof fn lines_are_counted_from_one(first: Seq<char>, rest: Seq<char>, n: nat)
    requires
        forall|i: int| 0 <= i < first.len() ==> (#[trigger] first[i]) != '\n',
        first.len() == 0 || first.last() != '\r',
        n > 0,
    ensures
        nth_line(first + seq!['\n'] + rest, 1) == Some(first),
        nth_line(first + seq!['\r', '\n'] + rest, 1) == Some(first),
        nth_line(first + seq!['\n'] + rest, n + 1) == nth_line(rest, n),
        nth_line(first + seq!['\r', '\n'] + rest, n + 1) == nth_line(rest, n),
        first.len() > 0 ==> nth_line(first, 1) == Some(first),
        nth_line(first, n + 1) is None,
        nth_line(first, 0) is None,
{
    let a = first + seq!['\n'] + rest;
    let b = first + seq!['\r', '\n'] + rest;
    let k = first.len() as int;
    assert forall|i: int| 0 <= i < k implies (#[trigger] a[i]) != '\n' by {
        assert(a[i] == first[i]);
    }
    assert forall|i: int| 0 <= i < k + 1 implies (#[trigger] b[i]) != '\n' by {
        if i < k {
            assert(b[i] == first[i]);
        }
    }
    line_ends_at_the_break(a, k);
    line_ends_at_the_break(b, k + 1);
    line_ends_at_the_break(first, k);
    assert(a.take(k) =~= first);
    assert(b.take(k) =~= first);
    assert(first.take(k) =~= first);
    assert(a.skip(k + 1) =~= rest);
    assert(b.skip(k + 2) =~= rest);
    assert(k > 0 ==> a[k - 1] == first.last());
}

/// A namespace that is added is the one with the next id, and the others stay as they are.
pub proof fn added_namespace_is_found(n: NamespacesView, values: Seq<Value>, id: NamespaceId)
    requires
        n.slots.len() < usize::MAX,
    ensures
        n.added(values).get(n.next_id()) == Some(values),
        n.get(n.next_id()) is None,
        id != n.next_id() ==> n.added(values).get(id) == n.get(id),
{
}

proof fn trimming_keeps_namespaces(slots: Seq<Option<Seq<Value>>>, i: int)
    requires
        0 <= i < slots.len(),
    ensures
        i < trimmed(slots).len() ==> trimmed(slots)[i] == slots[i],
        i >= trimmed(slots).len() ==> slots[i] is None,
    decreases slots.len(),
{
    if slots.last() is None && i < slots.len() - 1 {
        trimming_keeps_namespaces(slots.drop_last(), i);
    } else if slots.last() is None {
        trimming_shortens(slots.drop_last());
    }
}

proof fn trimming_shortens(slots: Seq<Option<Seq<Value>>>)
    ensures
        trimmed(slots).len() <= slots.len(),
    decreases slots.len(),
{
    if slots.len() != 0 && slots.last() is None {
        trimming_shortens(slots.drop_last());
    }
}

/// A namespace that is removed is gone, one whose values are replaced has the new ones, and the
/// others stay as they are.
pub proof fn other_namespaces_stay(
    n: NamespacesView,
    id: NamespaceId,
    other: NamespaceId,
    values: Seq<Value>,
)
    requires
        n.get(id) is Some,
        other != id,
    ensures
        n.removed(id).get(id) is None,
        n.removed(id).get(other) == n.get(other),
        n.replaced(id, values).get(id) == Some(values),
        n.replaced(id, values).get(other) == n.get(other),
        n.replaced(id, values).depth == n.depth,
{
    let slots = n.slots.update(id.0 as int, None);
    trimming_keeps_namespaces(slots, id.0 as int);
    trimming_shortens(slots);
    if other.0 < slots.len() {
        trimming_keeps_namespaces(slots, other.0 as int);
        assert(slots[other.0 as int] == n.slots[other.0 as int]);
    }
}

/// Calls may be nested as deeply as the tracker allows, and no deeper.
pub proof fn calls_are_nested_up_to_the_limit<T: ResourceTracker>(tracker: T, depth: usize)
    ensures
        tracker.depth_limit() matches Some(limit) ==> (depth < limit ==> depth_error(
            tracker,
            depth,
        ) is None) && (depth >= limit ==> depth_error(tracker, depth) == Some(
            ResourceError::Recursion { limit },
        )),
        tracker.depth_limit() is None ==> depth_error(tracker, depth) is None,
{
}

/// For a variable that refers to an object there is the count of that object, and for no other.
pub proof fn variables_have_the_counts_of_their_objects<T>(
    h: HeapView<T>,
    values: Seq<Value>,
    names: Map<Seq<char>, usize>,
    name: Seq<char>,
)
    requires
        names.dom().contains(name),
        names[name] < values.len(),
    ensures
        values[names[name] as int] matches Value::Ref(id) ==> named_counts(
            h,
            values,
            names,
        ).dom().contains(name) && named_counts(h, values, names)[name] == h.count(id) as usize,
        !(values[names[name] as int] is Ref) ==> !named_counts(
            h,
            values,
            names,
        ).dom().contains(name),
{
}

/// A program that goes on as it is said to does so with the machine that is said; one that waits
/// names the calls, and one that ends has the exception.
pub proof fn resumed_programs_go_on<T>(r: Resumed<T>, executor: Executor, said: Outlook<T>)
    requires
        resumed_as(r, executor, said),
    ensures
        said matches Outlook::Runs(vm) ==> {
            &&& r matches Resumed::Running(e)
            &&& e.executor == executor
            &&& e.heap@ == vm.heap
            &&& e.namespaces@ == vm.namespaces
            &&& e.vm_state@.stack == vm.stack
            &&& e.vm_state@.frames == vm.frames
            &&& e.vm_state@.exception_stack == vm.exception_stack
            &&& e.vm_state@.instruction_ip == vm.instruction_ip
            &&& e.vm_state@.scheduler == vm.scheduler
        },
        said matches Outlook::Waits(vm, pending) ==> {
            &&& r matches Resumed::Ended(Ok(RunProgress::ResolveFutures(state)))
            &&& state.pending_call_ids@ == pending
            &&& state.heap@ == vm.heap
            &&& state.vm_state@.stack == vm.stack
            &&& state.vm_state@.scheduler == vm.scheduler
        },
        said matches Outlook::Fails(info) ==> {
            &&& r matches Resumed::Ended(Err(e))
            &&& e.exc_type == info.exc_type
            &&& info.message matches Some(m) ==> (e.message matches Some(t) && t@ == m)
        },
{
}

/// Once answers have been taken, a program runs if a task can, waits if calls are left to answer,
/// and otherwise ends with the exception it failed with.
pub proof fn outlook_follows_from_the_answers<T: ResourceTracker>(
    vm: VmView<T>,
    interns: Interns,
    source: Seq<char>,
)
    ensures
        vm.settled().result == Ok::<bool, ErrorView>(true) ==> vm.outlook(interns, source)
            == Outlook::Runs(vm.settled().vm),
        vm.settled().result == Ok::<bool, ErrorView>(false) ==> (vm.outlook(
            interns,
            source,
        ) matches Outlook::Waits(after, pending) && after == vm.settled().vm && pending.len()
            == after.pending_calls().len() && forall|i: int|
            0 <= i < pending.len() ==> (#[trigger] pending[i]) == after.pending_calls()[i].0),
        vm.settled().result matches Err(e) ==> (vm.outlook(interns, source) matches Outlook::Fails(
            info,
        ) && info == e.info(interns, source)),
{
}

} // verus!
