//! Which task goes on, and with what.

use vstd::prelude::*;
use crate::asyncio::{CoroutineState, CoroutineView};
use crate::call_map::{calls_of, entered_call_is_found, find_call, with_call, without_call};
use crate::error::ErrorView;
use crate::exception::MontyException;
use crate::heap::{DataView, HeapView};
use crate::ids::{CallId, HeapId, TaskId};
use crate::list_results::raises;
use crate::namespaces::NamespacesView;
use crate::object::MontyObject;
use crate::ownership::release_value_only_frees;
use crate::resource::ResourceTracker;
use crate::resume::host_error;
use crate::run::ExternalResult;
use crate::types::ExcType;
use crate::value::Value;
use crate::vm::async_exec::{counting_keeps_data, AwaitView};
use crate::vm::scheduler::{blocked_task, cancelled, unqueued, SchedulerView, TaskStateView, TaskView};
use crate::vm::VmView;

verus! {

/// A new task has the next id, runs the coroutine, and comes last in the queue.
pub proof fn new_tasks_come_last(
    s: SchedulerView,
    coroutine: HeapId,
    gather: Option<HeapId>,
    place: Option<usize>,
    other: TaskId,
)
    requires
        s.tasks.len() < usize::MAX,
    ensures
        ({
            let after = s.spawned(coroutine, gather, place);
            let id = TaskId(s.tasks.len() as usize);
            let n = s.ready_queue.len() as int;
            &&& s.task(id) is None
            &&& after.task(id) matches Some(t)
            &&& t.coroutine_id == Some(coroutine)
            &&& t.gather_id == gather
            &&& t.gather_result_idx == place
            &&& t.state is Ready
            &&& t.frames.len() == 0 && t.stack.len() == 0
            &&& after.ready_queue.len() == n + 1
            &&& after.ready_queue[n] == id
            &&& forall|i: int| 0 <= i < n ==> (#[trigger] after.ready_queue[i]) == s.ready_queue[i]
            &&& other != id ==> after.task(other) == s.task(other)
            &&& after.current_task == s.current_task
        }),
{
}

/// The queue is first in, first out.
pub proof fn first_task_goes_first(s: SchedulerView)
    requires
        s.ready_queue.len() > 0,
    ensures
        s.next_ready() == Some(s.ready_queue[0]),
        s.dequeued().ready_queue.len() == s.ready_queue.len() - 1,
        forall|i: int|
            0 <= i < s.ready_queue.len() - 1 ==> (#[trigger] s.dequeued().ready_queue[i])
                == s.ready_queue[i + 1],
        s.dequeued().tasks == s.tasks,
{
}

/// Taking a task out of the queue leaves the others in their order.
pub proof fn other_tasks_keep_their_order(queue: Seq<TaskId>, id: TaskId, k: int)
    requires
        0 <= k < queue.len(),
        queue[k] == id,
        forall|i: int| 0 <= i < queue.len() && i != k ==> (#[trigger] queue[i]) != id,
    ensures
        unqueued(queue, id).len() == queue.len() - 1,
        forall|i: int| 0 <= i < k ==> (#[trigger] unqueued(queue, id)[i]) == queue[i],
        forall|i: int|
            k <= i < queue.len() - 1 ==> (#[trigger] unqueued(queue, id)[i]) == queue[i + 1],
    decreases queue.len(),
{
    let rest = queue.drop_last();
    if k < queue.len() - 1 {
        assert(queue[queue.len() - 1] != id);
        assert forall|i: int| 0 <= i < rest.len() && i != k implies (#[trigger] rest[i]) != id by {
            assert(queue[i] != id);
        }
        other_tasks_keep_their_order(rest, id, k);
    } else {
        assert forall|i: int| 0 <= i < rest.len() implies (#[trigger] rest[i]) != id by {
            assert(queue[i] != id);
        }
        nothing_is_taken_out(rest, id);
    }
}

/// Taking a task out of a queue that it is not in changes nothing.
pub proof fn nothing_is_taken_out(queue: Seq<TaskId>, id: TaskId)
    requires
        forall|i: int| 0 <= i < queue.len() ==> (#[trigger] queue[i]) != id,
    ensures
        unqueued(queue, id) == queue,
    decreases queue.len(),
{
    if queue.len() > 0 {
        let rest = queue.drop_last();
        assert(queue[queue.len() - 1] != id);
        assert forall|i: int| 0 <= i < rest.len() implies (#[trigger] rest[i]) != id by {
            assert(queue[i] != id);
        }
        nothing_is_taken_out(rest, id);
        assert(rest.push(queue.last()) =~= queue);
    }
}

proof fn waiting_task_is_found(tasks: Seq<TaskView>, call: CallId, n: int, k: int)
    requires
        0 <= k < tasks.len() <= usize::MAX,
        0 <= n <= tasks.len(),
        tasks[k].state == TaskStateView::BlockedOnCall(call),
        forall|i: int|
            0 <= i < k ==> (#[trigger] tasks[i]).state != TaskStateView::BlockedOnCall(call),
    ensures
        n <= k ==> blocked_task(tasks, call, n) is None,
        n > k ==> blocked_task(tasks, call, n) == Some(TaskId(k as usize)),
    decreases n,
{
    if n > 0 {
        waiting_task_is_found(tasks, call, n - 1, k);
    }
}

/// The answer to a call makes the task that waits for it ready and puts it last in the queue; it
/// is what the task goes on with. The other tasks stay as they are.
pub proof fn answer_wakes_the_waiting_task(s: SchedulerView, call: CallId, v: Value, k: int, other: int)
    requires
        0 <= k < s.tasks.len() <= usize::MAX,
        s.tasks[k].state == TaskStateView::BlockedOnCall(call),
        forall|i: int|
            0 <= i < k ==> (#[trigger] s.tasks[i]).state != TaskStateView::BlockedOnCall(call),
        0 <= other < s.tasks.len(),
    ensures
        ({
            let after = s.resolved_call(call, v);
            let id = TaskId(k as usize);
            &&& after.tasks.len() == s.tasks.len()
            &&& after.tasks[k].state is Ready
            &&& after.tasks[k].frames == s.tasks[k].frames
            &&& after.tasks[k].stack == s.tasks[k].stack
            &&& after.waiting_result(id) == Some(v)
            &&& other != k ==> after.tasks[other] == s.tasks[other]
            &&& after.ready_queue.len() == s.ready_queue.len() + 1
            &&& after.ready_queue.last() == id
            &&& after.ready_queue.drop_last() == s.ready_queue
        }),
{
    waiting_task_is_found(s.tasks, call, s.tasks.len() as int, k);
    entered_call_is_found(s.resolved, call, v, call);
    assert(s.resolved_call(call, v).ready_queue.drop_last() =~= s.ready_queue);
}

/// The failure of a call fails the task that waits for it, with that error. The other tasks stay
/// as they are.
pub proof fn failure_reaches_the_waiting_task(
    s: SchedulerView,
    call: CallId,
    error: ErrorView,
    k: int,
    other: int,
)
    requires
        0 <= k < s.tasks.len() <= usize::MAX,
        s.tasks[k].state == TaskStateView::BlockedOnCall(call),
        forall|i: int|
            0 <= i < k ==> (#[trigger] s.tasks[i]).state != TaskStateView::BlockedOnCall(call),
        0 <= other < s.tasks.len(),
    ensures
        ({
            let after = s.failed_call(call, error);
            &&& after.tasks.len() == s.tasks.len()
            &&& after.tasks[k].state == TaskStateView::Failed(error)
            &&& other != k ==> after.tasks[other] == s.tasks[other]
        }),
{
    waiting_task_is_found(s.tasks, call, s.tasks.len() as int, k);
}

/// The next task that runs is the first in the queue: with the frames and the stack it was left
/// with, and the result it has been waiting for on top.
pub proof fn next_task_goes_on<T: ResourceTracker>(vm: VmView<T>, t: TaskView)
    requires
        vm.scheduler matches Some(s) && s.ready_queue.len() > 0 && s.task(s.ready_queue[0]) == Some(
            t,
        ),
        t.frames.len() != 0,
    ensures
        ({
            let s = vm.scheduler->0;
            let done = vm.next_task_run();
            &&& done.result == Ok::<AwaitView, ErrorView>(AwaitView::FramePushed)
            &&& done.vm.scheduler matches Some(after) && after.current_task == Some(
                s.ready_queue[0],
            )
            &&& done.vm.frames == t.frames
            &&& done.vm.exception_stack == t.exception_stack
            &&& done.vm.instruction_ip == t.instruction_ip
            &&& done.vm.heap == vm.heap
            &&& t.unblocked_by is None ==> done.vm.stack == t.stack
            &&& t.unblocked_by matches Some(call) ==> (find_call(s.resolved, call) matches Some(v)
                ==> done.vm.stack == t.stack.push(v))
        }),
{
}

/// If no task is ready, the host is asked to answer the calls that are pending.
pub proof fn idle_program_asks_for_answers<T: ResourceTracker>(vm: VmView<T>)
    requires
        vm.scheduler matches Some(s) && s.ready_queue.len() == 0,
    ensures
        vm.next_task_run().result == Ok::<AwaitView, ErrorView>(
            AwaitView::Yield(calls_of(vm.scheduler->0.pending_calls)),
        ),
        vm.next_task_run().vm == vm,
{
}

/// The calls the host is asked to answer are those that are pending, in their order.
pub proof fn pending_calls_are_listed_in_order<X>(entries: Seq<(CallId, X)>)
    ensures
        calls_of(entries).len() == entries.len(),
        forall|i: int| 0 <= i < entries.len() ==> (#[trigger] calls_of(entries)[i]) == entries[i].0,
{
}

/// Awaiting a call that has been answered gives the answer and takes the call off the stack.
pub proof fn awaiting_gives_the_answer<T: ResourceTracker>(vm: VmView<T>, call: CallId, v: Value)
    requires
        vm.stack.len() > 0,
        vm.stack.last() == Value::ExternalFuture(call),
        vm.scheduler matches Some(s) && find_call(s.consumed, call) is None && find_call(
            s.resolved,
            call,
        ) == Some(v),
    ensures
        vm.awaited().result == Ok::<AwaitView, ErrorView>(AwaitView::ValueReady(v)),
        vm.awaited().vm.stack == vm.stack.drop_last(),
        vm.awaited().vm.frames == vm.frames,
        vm.awaited().vm.heap == vm.heap,
{
    assert(vm.awaited().vm.stack =~= vm.stack.drop_last());
}

/// Awaiting a call that has not been answered blocks the running task on it; without another task
/// that is ready the program waits.
pub proof fn awaiting_blocks_on_the_call<T: ResourceTracker>(vm: VmView<T>, call: CallId, task: TaskId)
    requires
        vm.stack.len() > 0,
        vm.stack.last() == Value::ExternalFuture(call),
        vm.scheduler matches Some(s) && find_call(s.consumed, call) is None && find_call(
            s.resolved,
            call,
        ) is None && s.current_task == Some(task) && s.task(task) is Some && s.ready_queue.len()
            == 0,
    ensures
        ({
            let done = vm.awaited();
            &&& done.result == Ok::<AwaitView, ErrorView>(
                AwaitView::Yield(calls_of(vm.scheduler->0.pending_calls)),
            )
            &&& done.vm.scheduler matches Some(after)
            &&& after.task(task) matches Some(t) && t.state == TaskStateView::BlockedOnCall(call)
            &&& done.vm.stack == vm.stack.drop_last()
            &&& done.vm.frames == vm.frames
        }),
{
    assert(vm.awaited().vm.stack =~= vm.stack.drop_last());
}

/// Awaiting a coroutine that is new runs it in a frame of its own, whose namespace holds its
/// variables.
pub proof fn awaiting_runs_the_coroutine<T: ResourceTracker>(
    vm: VmView<T>,
    id: HeapId,
    c: CoroutineView,
)
    requires
        vm.stack.len() > 0,
        vm.stack.last() == Value::Ref(id),
        vm.heap.data(id) == Some(DataView::Coroutine(c)),
        c.state == CoroutineState::New,
        vm.namespaces.slots.len() < usize::MAX,
        vm.awaited().result is Ok,
    ensures
        ({
            let done = vm.awaited();
            &&& done.result == Ok::<AwaitView, ErrorView>(AwaitView::FramePushed)
            &&& done.vm.stack == vm.stack.drop_last()
            &&& done.vm.frames.len() == vm.frames.len() + 1
            &&& done.vm.frames.drop_last() == vm.frames
            &&& done.vm.frames.last().function_id == Some(c.func_id)
            &&& done.vm.frames.last().ip == 0
            &&& done.vm.frames.last().call_ip == vm.instruction_ip
            &&& done.vm.frames.last().call_position == Some(vm.position())
            &&& vm.stack.len() <= usize::MAX ==> done.vm.frames.last().stack_base == vm.stack.len()
                - 1
            &&& done.vm.namespaces.get(done.vm.frames.last().namespace_idx) == Some(c.namespace)
            &&& done.vm.heap.data(id) matches Some(d) ==> (d matches DataView::Coroutine(e)
                && e.state == CoroutineState::Running)
        }),
{
    counting_keeps_data(vm.heap, c.namespace, c.frame_cells, id);
    let popped = vm.popped(1);
    let started = popped.coroutine_started(id, c, Some(popped.position())).vm;
    release_value_only_frees(started.heap, Value::Ref(id));
    let done = vm.awaited();
    assert(done.vm.stack =~= vm.stack.drop_last());
    assert(done.vm.frames.drop_last() =~= vm.frames);
    let _ = done.vm.heap.entry(id);
}

/// Once answers have been taken, a running task that has failed ends the program with its error.
pub proof fn failed_task_ends_the_program<T: ResourceTracker>(
    vm: VmView<T>,
    task: TaskId,
    error: ErrorView,
)
    requires
        vm.scheduler matches Some(s) && s.current_task == Some(task) && (s.task(task) matches Some(t)
            && t.state == TaskStateView::Failed(error)),
    ensures
        vm.settled().result == Err::<bool, ErrorView>(error),
{
}

/// Once answers have been taken, a running task that has waited for a call goes on with the
/// answer on its stack.
pub proof fn answered_task_goes_on<T: ResourceTracker>(
    vm: VmView<T>,
    task: TaskId,
    call: CallId,
    v: Value,
)
    requires
        vm.frames.len() != 0,
        vm.scheduler matches Some(s) && s.current_task == Some(task) && find_call(s.resolved, call)
            == Some(v) && (s.task(task) matches Some(t) && t.state is Ready && t.unblocked_by == Some(
            call,
        )),
    ensures
        vm.settled().result == Ok::<bool, ErrorView>(true),
        vm.settled().vm.stack == vm.stack.push(v),
        vm.settled().vm.frames == vm.frames,
{
}

/// A task that is left to wait while another one is ready is put away as it is: its frames, its
/// stack, the exceptions it handles and its instruction.
pub proof fn waiting_task_is_put_away<T: ResourceTracker>(
    vm: VmView<T>,
    task: TaskId,
    next: TaskId,
    t: TaskView,
)
    requires
        vm.scheduler matches Some(s) && s.current_task == Some(task) && s.task(task) is Some
            && s.ready_queue.len() > 0 && s.ready_queue[0] == next && s.task(next) == Some(t),
        next != task,
        t.frames.len() != 0,
    ensures
        ({
            let done = vm.switched();
            &&& done.result == Ok::<AwaitView, ErrorView>(AwaitView::FramePushed)
            &&& done.vm.frames == t.frames
            &&& done.vm.scheduler matches Some(after)
            &&& after.current_task == Some(next)
            &&& after.task(task) matches Some(kept)
            &&& kept.frames == vm.frames
            &&& kept.stack == vm.stack
            &&& kept.exception_stack == vm.exception_stack
            &&& kept.instruction_ip == vm.instruction_ip
        }),
{
}

/// An exception as the answer to a call fails the task that waits for it; a value is what that
/// task goes on with.
pub proof fn answers_reach_the_waiting_task<T: ResourceTracker>(
    vm: VmView<T>,
    call: u32,
    exc: MontyException,
    i: i64,
    k: int,
)
    requires
        vm.scheduler matches Some(s) && 0 <= k < s.tasks.len() <= usize::MAX && s.tasks[k].state
            == TaskStateView::BlockedOnCall(CallId(call)) && s.tasks[k].gather_id is None
            && find_call(s.gather_waiters, CallId(call)) is None && !s.creator_failed(CallId(call))
            && forall|j: int|
            0 <= j < k ==> (#[trigger] s.tasks[j]).state != TaskStateView::BlockedOnCall(
                CallId(call),
            ),
    ensures
        ({
            let answers = seq![(call, ExternalResult::Error(exc))];
            let taken = vm.answers_taken(answers, 1);
            &&& taken.error is None
            &&& taken.vm.scheduler matches Some(after) && after.tasks[k].state
                == TaskStateView::Failed(host_error(exc))
        }),
        ({
            let answers = seq![(call, ExternalResult::Return(MontyObject::Int(i)))];
            let taken = vm.answers_taken(answers, 1);
            &&& taken.error is None
            &&& taken.vm.scheduler matches Some(after) && after.tasks[k].state is Ready
                && after.waiting_result(TaskId(k as usize)) == Some(Value::Int(i))
        }),
{
    let s = vm.scheduler->0;
    let id = CallId(call);
    let rest = s.gather_forgotten(id);
    reveal_with_fuel(VmView::answers_taken, 2);
    failure_reaches_the_waiting_task(rest, id, host_error(exc), k, k);
    answer_wakes_the_waiting_task(rest, id, Value::Int(i), k, k);
    waiting_task_is_found(s.tasks, id, s.tasks.len() as int, k);
}

/// A call that becomes pending comes last among those that are; the others keep their order. One
/// that is answered leaves the others in their order.
pub proof fn pending_calls_keep_their_order<X>(entries: Seq<(CallId, X)>, id: CallId, x: X)
    requires
        forall|i: int| 0 <= i < entries.len() ==> (#[trigger] entries[i]).0 != id,
    ensures
        with_call(entries, id, x) == entries.push((id, x)),
        without_call(entries.push((id, x)), id) == entries,
        without_call(entries, id) == entries,
    decreases entries.len(),
{
    if entries.len() > 0 {
        let rest = entries.drop_last();
        assert(entries[entries.len() - 1].0 != id);
        assert forall|i: int| 0 <= i < rest.len() implies (#[trigger] rest[i]).0 != id by {
            assert(entries[i].0 != id);
        }
        pending_calls_keep_their_order(rest, id, x);
        assert(rest.push(entries.last()) =~= entries);
    }
    assert(without_call(entries, id) =~= entries);
    let longer = entries.push((id, x));
    assert(longer.drop_last() =~= entries);
    assert(longer.last().0 == id);
    assert(without_call(longer, id) == without_call(longer.drop_last(), id));
}

/// A program that has made no task yet has only its main task, which runs.
pub proof fn main_task_runs_first<T: ResourceTracker>(vm: VmView<T>)
    requires
        vm.scheduler is None,
    ensures
        ({
            let s = vm.scheduler_or_new();
            &&& s.tasks.len() == 1
            &&& s.current_task == Some(TaskId(0))
            &&& s.task(TaskId(0)) matches Some(t) && t.state is Ready && t.coroutine_id is None
                && t.gather_id is None
            &&& s.ready_queue.len() == 0
            &&& s.pending_calls.len() == 0
            &&& s.resolved.len() == 0
            &&& s.next_call_id == vm.next_call_id
        }),
{
}

/// A task that is cancelled has failed and waits for nothing; one that has ended stays as it is.
pub proof fn cancelled_tasks_end<T>(
    s: SchedulerView,
    h: HeapView<T>,
    n: NamespacesView,
    id: TaskId,
    t: TaskView,
    other: TaskId,
)
    requires
        s.task(id) == Some(t),
        other != id,
    ensures
        ({
            let after = cancelled(s, h, n, id).0;
            &&& after.task(other) == s.task(other)
            &&& t.state is Completed || t.state is Failed ==> after.task(id) == Some(t)
            &&& !(t.state is Completed || t.state is Failed) ==> (after.task(id) matches Some(u)
                && u.state is Failed && raises(
                Err::<(), ErrorView>(u.state->Failed_0),
                ExcType::RuntimeError,
            ) && u.frames.len() == 0 && u.stack.len() == 0)
        }),
{
}

/// The coroutine of a task that has returned is done, and other objects stay as they are.
pub proof fn returned_coroutine_is_done<T>(
    h: HeapView<T>,
    id: HeapId,
    c: CoroutineView,
    other: HeapId,
)
    requires
        h.data(id) == Some(DataView::Coroutine(c)),
        other != id,
    ensures
        h.coroutine_completed(Some(id)).data(id) matches Some(DataView::Coroutine(d)) && d.state
            == CoroutineState::Completed && d.func_id == c.func_id && d.namespace == c.namespace,
        h.coroutine_completed(Some(id)).data(other) == h.data(other),
        h.coroutine_completed(None) == h,
{
}

/// A task that returns and belongs to no gather has its result, and the next task in the queue
/// goes on.
pub proof fn returned_task_has_its_result<T: ResourceTracker>(
    vm: VmView<T>,
    result: Value,
    task: TaskId,
    next: TaskId,
    t: TaskView,
)
    requires
        vm.scheduler matches Some(s) && s.current_task == Some(task) && (s.task(task) matches Some(u)
            && u.gather_id is None) && s.ready_queue.len() > 0 && s.ready_queue[0] == next && s.task(
            next,
        ) == Some(t),
        next != task,
        t.frames.len() != 0,
    ensures
        ({
            let done = vm.task_completed(result);
            &&& done.result == Ok::<AwaitView, ErrorView>(AwaitView::FramePushed)
            &&& done.vm.frames == t.frames
            &&& done.vm.scheduler matches Some(after)
            &&& after.current_task == Some(next)
            &&& after.task(task) matches Some(u) && u.state == TaskStateView::Completed(result)
        }),
{
}

} // verus!
