//! What holds of the tasks and their queue at any time.
//!
//! A task in the queue exists, is ready and has something to go on with; a task that waits is
//! not in the queue. Everything that is done with tasks keeps it so.

use vstd::prelude::*;
use crate::asyncio::{counted_cells, CoroutineState, CoroutineView, GatherItem, GatherView};
use crate::call_map::{calls_of, entered_call_is_found, find_call, with_call};
use crate::error::{CodeRange, ErrorView};
use crate::containers::{dict_set, noted};
use crate::frame::{frame_released, frames_released, FrameView};
use crate::heap::{DataView, HeapView};
use crate::ids::{CallId, HeapId, TaskId};
use crate::interns::Interns;
use crate::list::ListView;
use crate::namespaces::{depth_error, namespace_released, NamespacesView, GLOBAL_NS_IDX};
use crate::object::{exception_of, imported, imported_items, imported_pairs, MontyObject};
use crate::ownership::{
    only_freed, release_only_frees, release_value_only_frees, release_values_only_frees,
};
use crate::resource::ResourceTracker;
use crate::resume::host_error;
use crate::run::ExternalResult;
use crate::value::Value;
use crate::vm::async_exec::{all_results, counting_keeps_data, gather_started, with_result, AwaitView};
use crate::vm::futures::other_calls;
use crate::vm::scheduler::{
    blocked_task, cancellation, unqueued, SchedulerView, TaskStateView, TaskView,
};
use crate::vm::task_end::all_cancelled;
use crate::vm::task_laws::cancelling_spares;
use crate::vm::VmView;

verus! {

/// Whether the tasks that a gather speaks of can be: the one that waits for it exists, and those
/// that the gather has started came after it.
pub open spec fn gather_in_order(g: GatherView, tasks: nat) -> bool {
    &&& g.waiter matches Some(w) ==> w.0 < tasks
    &&& forall|i: int|
        0 <= i < g.task_ids.len() ==> 0 < (#[trigger] g.task_ids[i]).0 && (g.waiter matches Some(
            w,
        ) ==> w.0 < g.task_ids[i].0)
}

/// Whether this is so of every gather.
pub open spec fn gathers_in_order<T>(h: HeapView<T>, tasks: nat) -> bool {
    forall|id: HeapId| (#[trigger] h.gather(id)) matches Some(g) ==> gather_in_order(g, tasks)
}

impl SchedulerView {
    /// Whether every task in the queue exists and is ready, every task but the main one has a
    /// coroutine, the running task exists, and the main task, if it does not run, has frames to
    /// go on with.
    pub open spec fn in_order(self) -> bool {
        &&& self.tasks.len() > 0
        &&& forall|id: TaskId| #[trigger]
            self.ready_queue.contains(id) ==> (self.task(id) matches Some(t) && t.state is Ready)
        &&& forall|k: int|
            0 < k < self.tasks.len() ==> (#[trigger] self.tasks[k]).coroutine_id is Some
        &&& self.current_task matches Some(id) ==> id.0 < self.tasks.len()
        &&& self.current_task != Some(TaskId::main_task()) ==> self.tasks[0].frames.len() != 0
    }

    /// Whether the running task is not in the queue.
    pub open spec fn current_unqueued(self) -> bool {
        self.current_task matches Some(id) ==> !self.ready_queue.contains(id)
    }
}

impl<T: ResourceTracker> VmView<T> {
    /// Whether tasks, queue and gathers are in order, apart from the frames of the machine.
    pub open spec fn tasks_in_order(self) -> bool {
        let s = self.scheduler_or_new();
        s.in_order() && gathers_in_order(self.heap, s.tasks.len())
    }

    /// Whether tasks, queue and gathers are in order. If the main task runs, the machine has its
    /// frames.
    pub open spec fn in_order(self) -> bool {
        &&& self.tasks_in_order()
        &&& self.scheduler_or_new().current_task == Some(TaskId::main_task()) ==> self.frames.len()
            != 0
    }

    /// Whether tasks, queue and gathers are in order, with the running task out of the queue. It
    /// is so whenever instructions are carried out.
    pub open spec fn runs_in_order(self) -> bool {
        self.in_order() && self.scheduler_or_new().current_unqueued()
    }

    /// Whether tasks, queue and gathers are in order while answers are taken: the running task
    /// may have been queued if it has got its answer.
    pub open spec fn waits_in_order(self) -> bool {
        let s = self.scheduler_or_new();
        &&& self.in_order()
        &&& s.current_task matches Some(id) ==> (s.ready_queue.contains(id) ==> self.frames.len()
            == 0 || s.waiting_result(id) is Some)
    }
}

/// Whether no gather has been added or changed.
pub open spec fn gathers_kept<T>(h: HeapView<T>, after: HeapView<T>) -> bool {
    forall|id: HeapId|
        (#[trigger] after.gather(id)) is Some ==> after.gather(id) == h.gather(id)
}

proof fn kept_in_order<T>(h: HeapView<T>, after: HeapView<T>, tasks: nat)
    requires
        gathers_in_order(h, tasks),
        gathers_kept(h, after),
    ensures
        gathers_in_order(after, tasks),
{
    assert forall|id: HeapId| (#[trigger] after.gather(id)) is Some implies gather_in_order(
        after.gather(id)->0,
        tasks,
    ) by {
        assert(after.gather(id) == h.gather(id));
    }
}

proof fn more_in_order<T>(h: HeapView<T>, tasks: nat, more: nat)
    requires
        gathers_in_order(h, tasks),
        tasks <= more,
    ensures
        gathers_in_order(h, more),
{
    assert forall|id: HeapId| (#[trigger] h.gather(id)) is Some implies gather_in_order(
        h.gather(id)->0,
        more,
    ) by {
        assert(gather_in_order(h.gather(id)->0, tasks));
    }
}

proof fn changed_in_order<T>(h: HeapView<T>, id: HeapId, g: GatherView, tasks: nat)
    requires
        gathers_in_order(h, tasks),
        gather_in_order(g, tasks),
    ensures
        gathers_in_order(h.with_gather(id, g), tasks),
{
    let after = h.with_gather(id, g);
    assert forall|x: HeapId| (#[trigger] after.gather(x)) is Some implies gather_in_order(
        after.gather(x)->0,
        tasks,
    ) by {
        if x != id {
            assert(after.gather(x) == h.gather(x));
        }
    }
}

proof fn freeing_keeps_gathers<T>(h: HeapView<T>, after: HeapView<T>)
    requires
        only_freed(h, after),
    ensures
        gathers_kept(h, after),
{
    assert forall|id: HeapId| (#[trigger] after.gather(id)) is Some implies after.gather(id)
        == h.gather(id) by {
        assert(after.entry(id) is Some);
    }
}

proof fn release_keeps_gathers<T>(h: HeapView<T>, v: Value)
    ensures
        gathers_kept(h, h.release(v)),
{
    release_value_only_frees(h, v);
    freeing_keeps_gathers(h, h.release(v));
}

proof fn each_only_frees<T>(h: HeapView<T>, ids: Seq<HeapId>)
    ensures
        only_freed(h, h.release_each(ids)),
        h.release_each(ids).tracker == h.tracker,
    decreases ids.len(),
{
    if ids.len() > 0 {
        let rest = ids.drop_last();
        each_only_frees(h, rest);
        release_only_frees(h.release_each(rest), seq![ids.last()]);
    }
}

/// Giving up frames changes no object that is still there, and calls are nested less deeply.
pub proof fn frames_only_free<T>(h: HeapView<T>, n: NamespacesView, frames: Seq<FrameView>)
    ensures
        only_freed(h, frames_released(h, n, frames).0),
        frames_released(h, n, frames).0.tracker == h.tracker,
        frames_released(h, n, frames).1.depth <= n.depth,
    decreases frames.len(),
{
    if frames.len() > 0 {
        let f = frames.last();
        let (h1, n1) = frame_released(h, n, f);
        if let Some(values) = n.get(f.namespace_idx) {
            release_values_only_frees(h, values);
        }
        let h0 = if f.namespace_idx.0 == GLOBAL_NS_IDX {
            h
        } else {
            namespace_released(h, n, f.namespace_idx)
        };
        assert(only_freed(h, h0));
        each_only_frees(h0, counted_cells(f.cells, f.own_cells));
        assert(only_freed(h, h1));
        frames_only_free(h1, n1, frames.drop_last());
    }
}

/// Taking a task out of the queue leaves the others in it.
pub proof fn unqueued_members(queue: Seq<TaskId>, id: TaskId, other: TaskId)
    ensures
        unqueued(queue, id).contains(other) <==> queue.contains(other) && other != id,
    decreases queue.len(),
{
    if queue.len() > 0 {
        let rest = queue.drop_last();
        let last = queue.last();
        let before = unqueued(rest, id);
        unqueued_members(rest, id, other);
        if queue.contains(other) && other != last {
            let k = choose|k: int| 0 <= k < queue.len() && queue[k] == other;
            assert(rest[k] == other);
        }
        if rest.contains(other) {
            let k = choose|k: int| 0 <= k < rest.len() && rest[k] == other;
            assert(queue[k] == other);
        }
        if before.contains(other) {
            let k = choose|k: int| 0 <= k < before.len() && before[k] == other;
            assert(before.push(last)[k] == other);
        }
        if before.push(last).contains(other) && other != last {
            let k = choose|k: int|
                0 <= k <= before.len() && before.push(last)[k] == other;
            assert(before[k] == other);
        }
        assert(queue[queue.len() - 1] == last);
        assert(before.push(last)[before.len() as int] == last);
    }
}

/// A task that starts to run is out of the queue, and what was in order stays so.
proof fn running_in_order(s: SchedulerView, id: TaskId)
    requires
        s.in_order(),
        id.0 < s.tasks.len(),
        id != TaskId::main_task() ==> s.tasks[0].frames.len() != 0,
    ensures
        s.running(Some(id)).in_order(),
        s.running(Some(id)).current_unqueued(),
        s.dequeued().running(Some(id)).in_order(),
        s.dequeued().running(Some(id)).current_unqueued(),
{
    let shorter = s.dequeued();
    assert forall|x: TaskId| #[trigger] shorter.ready_queue.contains(x) implies s.ready_queue.contains(
        x,
    ) by {
        if s.ready_queue.len() != 0 {
            let k = choose|k: int|
                0 <= k < shorter.ready_queue.len() && shorter.ready_queue[k] == x;
            assert(s.ready_queue[k + 1] == x);
        }
    }
    assert forall|x: TaskId| #[trigger] unqueued(s.ready_queue, id).contains(x) implies x != id
        && s.ready_queue.contains(x) by {
        unqueued_members(s.ready_queue, id, x);
    }
    assert forall|x: TaskId| #[trigger] unqueued(shorter.ready_queue, id).contains(x) implies x
        != id && s.ready_queue.contains(x) by {
        unqueued_members(shorter.ready_queue, id, x);
        assert(shorter.ready_queue.contains(x));
    }
    unqueued_members(s.ready_queue, id, id);
    unqueued_members(shorter.ready_queue, id, id);
}

/// Changing what is known of a task that is not in the queue, or only its stack, keeps the order.
proof fn task_changed_in_order(s: SchedulerView, id: TaskId, t: TaskView)
    requires
        s.in_order(),
        s.task(id) is Some,
        s.ready_queue.contains(id) ==> t.state is Ready,
        t.coroutine_id == s.task(id)->0.coroutine_id,
        id == TaskId::main_task() && s.current_task != Some(id) ==> t.frames.len() != 0,
    ensures
        s.with_task(id, t).in_order(),
        s.current_unqueued() ==> s.with_task(id, t).current_unqueued(),
{
    let after = s.with_task(id, t);
    assert forall|x: TaskId| #[trigger] after.ready_queue.contains(x) implies (after.task(
        x,
    ) matches Some(u) && u.state is Ready) by {
        assert(s.ready_queue.contains(x));
        if x != id {
            assert(after.task(x) == s.task(x));
        }
    }
}

proof fn starting_keeps_gathers<T: ResourceTracker>(vm: VmView<T>, id: HeapId)
    ensures
        gathers_kept(vm.heap, vm.task_started(id).vm.heap),
        vm.task_started(id).vm.scheduler == vm.scheduler,
{
    if let Some(DataView::Coroutine(c)) = vm.heap.data(id) {
        coroutine_keeps_gathers(vm, id, c, None);
    }
}

proof fn coroutine_keeps_gathers<T: ResourceTracker>(
    vm: VmView<T>,
    id: HeapId,
    c: CoroutineView,
    position: Option<CodeRange>,
)
    requires
        vm.heap.data(id) == Some(DataView::Coroutine(c)),
    ensures
        gathers_kept(vm.heap, vm.coroutine_started(id, c, position).vm.heap),
        vm.coroutine_started(id, c, position).vm.scheduler == vm.scheduler,
{
    let running = Some(DataView::Coroutine(CoroutineView { state: CoroutineState::Running, ..c }));
    let counted = vm.heap.inc_values(c.namespace).inc_ids(c.frame_cells);
    let set = counted.set_data(id, running);
    assert forall|x: HeapId| (#[trigger] set.gather(x)) is Some implies set.gather(x)
        == vm.heap.gather(x) by {
        counting_keeps_data(vm.heap, c.namespace, c.frame_cells, x);
        counting_keeps_data(vm.heap, c.namespace, c.frame_cells, id);
        if x != id {
            assert(set.data(x) == counted.data(x));
        }
    }
    release_values_only_frees(set, c.namespace);
    freeing_keeps_gathers(set, set.release_values(c.namespace));
}

/// Going on with the running task keeps the order.
proof fn loading_keeps_order<T: ResourceTracker>(vm: VmView<T>, id: TaskId)
    requires
        vm.tasks_in_order(),
        vm.scheduler matches Some(s) && s.current_task == Some(id) && s.current_unqueued(),
        id == TaskId::main_task() ==> vm.scheduler->0.tasks[0].frames.len() != 0,
    ensures
        vm.task_loaded(id).vm.runs_in_order(),
        vm.task_loaded(id).vm.scheduler matches Some(s) && s.current_task == Some(id),
{
    let s = vm.scheduler->0;
    let t = s.task(id)->0;
    let empty = TaskView {
        frames: Seq::empty(),
        stack: Seq::empty(),
        exception_stack: Seq::empty(),
        ..t
    };
    let emptied = s.with_task(id, empty);
    task_changed_in_order(s, id, empty);
    if t.frames.len() != 0 {
        assert(emptied.task(id) == Some(empty));
        task_changed_in_order(emptied, id, TaskView { unblocked_by: None, ..empty });
    } else if let Some(c) = t.coroutine_id {
        starting_keeps_gathers(vm.with_scheduler(emptied), c);
        kept_in_order(
            vm.heap,
            vm.with_scheduler(emptied).task_started(c).vm.heap,
            s.tasks.len(),
        );
    }
}

/// Going on with the next task keeps the order, if the running one has put its frames away.
proof fn next_task_keeps_order<T: ResourceTracker>(vm: VmView<T>)
    requires
        vm.tasks_in_order(),
        vm.scheduler is Some,
        vm.scheduler->0.tasks[0].frames.len() != 0,
    ensures
        vm.scheduler->0.next_ready() is Some ==> vm.next_task_run().vm.runs_in_order(),
{
    let s = vm.scheduler->0;
    if let Some(next) = s.next_ready() {
        assert(s.ready_queue.contains(s.ready_queue[0]));
        running_in_order(s, next);
        loading_keeps_order(vm.with_scheduler(s.dequeued().running(Some(next))), next);
    }
}

proof fn allocating_keeps_gathers<T: ResourceTracker>(h: HeapView<T>, data: DataView)
    requires
        !(data is GatherFuture),
    ensures
        gathers_kept(h, h.allocated(data)),
{
    let after = h.allocated(data);
    assert forall|id: HeapId| (#[trigger] after.gather(id)) is Some implies after.gather(id)
        == h.gather(id) by {
        if id.0 < h.entries.len() {
            assert(after.entry(id) == h.entry(id));
        }
    }
}

/// Putting the running task away and going on with the next one keeps the order.
proof fn switching_keeps_order<T: ResourceTracker>(vm: VmView<T>)
    requires
        vm.runs_in_order(),
    ensures
        vm.switched().vm.runs_in_order(),
{
    let s = vm.scheduler_or_new();
    let ready = vm.scheduled();
    if let (Some(_), Some(current)) = (s.next_ready(), s.current_task) {
        let t = s.task(current)->0;
        let kept = TaskView {
            frames: vm.frames,
            stack: vm.stack,
            exception_stack: vm.exception_stack,
            instruction_ip: vm.instruction_ip,
            ..t
        };
        task_changed_in_order(s, current, kept);
        assert(ready.saved(current).scheduler == Some(s.with_task(current, kept)));
        next_task_keeps_order(ready.saved(current));
    } else if s.next_ready() is Some {
        next_task_keeps_order(ready);
    }
}

proof fn gather_starts_in_order(
    s: SchedulerView,
    gather_id: HeapId,
    items: Seq<GatherItem>,
    results: Seq<Option<Value>>,
    n: int,
)
    requires
        s.in_order(),
        s.current_unqueued(),
        0 <= n <= items.len(),
        s.tasks.len() + n < usize::MAX,
    ensures
        ({
            let run = gather_started(s, gather_id, items, results, n);
            &&& run.scheduler.in_order()
            &&& run.scheduler.current_unqueued()
            &&& run.scheduler.current_task == s.current_task
            &&& s.tasks.len() <= run.scheduler.tasks.len() <= s.tasks.len() + n
            &&& forall|i: int|
                0 <= i < run.task_ids.len() ==> (#[trigger] run.task_ids[i]).0 >= s.tasks.len()
        }),
    decreases n,
{
    if n > 0 {
        gather_starts_in_order(s, gather_id, items, results, n - 1);
        let before = gather_started(s, gather_id, items, results, n - 1).scheduler;
        if let GatherItem::Coroutine(id) = items[n - 1] {
            let after = before.spawned(id, Some(gather_id), Some((n - 1) as usize));
            let new_id = TaskId(before.tasks.len() as usize);
            assert forall|x: TaskId| #[trigger] after.ready_queue.contains(x) implies x == new_id
                || before.ready_queue.contains(x) by {
                let k = choose|k: int|
                    0 <= k < after.ready_queue.len() && after.ready_queue[k] == x;
                if k < before.ready_queue.len() {
                    assert(before.ready_queue[k] == x);
                }
            }
            assert(forall|x: TaskId|
                x.0 < before.tasks.len() ==> after.task(x) == before.task(x));
        }
    }
}

/// Awaiting something keeps tasks, queue and gathers in order.
pub proof fn awaiting_keeps_order<T: ResourceTracker>(vm: VmView<T>)
    requires
        vm.runs_in_order(),
        vm.stack.len() >= 1,
        vm.top(0) matches Value::Ref(id) ==> (vm.heap.gather(id) matches Some(g)
            ==> vm.scheduler_or_new().tasks.len() + g.items.len() < usize::MAX),
    ensures
        vm.awaited().vm.runs_in_order(),
{
    let v = vm.top(0);
    let rest = vm.popped(1);
    let s = vm.scheduler_or_new();
    release_keeps_gathers(vm.heap, v);
    kept_in_order(vm.heap, vm.heap.release(v), s.tasks.len());
    match v {
        Value::Ref(id) => match vm.heap.data(id) {
            Some(DataView::Coroutine(c)) => {
                let position = Some(rest.position());
                coroutine_keeps_gathers(rest, id, c, position);
                let started = rest.coroutine_started(id, c, position).vm.heap;
                kept_in_order(vm.heap, started, s.tasks.len());
                release_keeps_gathers(started, v);
                kept_in_order(started, started.release(v), s.tasks.len());
            },
            Some(DataView::GatherFuture(g)) => {
                assert(vm.heap.gather(id) == Some(g));
                awaiting_gather_keeps_order(rest, id, g);
            },
            _ => {},
        },
        Value::ExternalFuture(call) => {
            awaiting_call_keeps_order(rest, call);
        },
        _ => {},
    }
}

proof fn blocking_keeps_order(s: SchedulerView, state: TaskStateView)
    requires
        s.in_order(),
        s.current_unqueued(),
    ensures
        s.current_in_state(state).in_order(),
        s.current_in_state(state).current_unqueued(),
        s.current_in_state(state).tasks.len() == s.tasks.len(),
{
    if let Some(id) = s.current_task {
        task_changed_in_order(s, id, s.task(id)->0.in_state(state));
    }
}

proof fn awaiting_call_keeps_order<T: ResourceTracker>(vm: VmView<T>, call: CallId)
    requires
        vm.runs_in_order(),
    ensures
        vm.call_awaited(call).vm.runs_in_order(),
{
    let s = vm.scheduler_or_new();
    let awaited = s.awaited(call).picked_up(call);
    assert(forall|x: TaskId| awaited.task(x) == s.task(x));
    assert(awaited.in_order());
    let state = TaskStateView::BlockedOnCall(call);
    blocking_keeps_order(awaited, state);
    if find_call(s.consumed, call) is None && find_call(s.resolved, call) is None {
        switching_keeps_order(vm.with_scheduler(awaited.current_in_state(state)));
    }
}

proof fn ready_list_keeps_order<T: ResourceTracker>(vm: VmView<T>, items: Seq<Value>)
    requires
        vm.runs_in_order(),
    ensures
        vm.list_ready(items).vm.runs_in_order(),
{
    let data = DataView::List(ListView::of(items));
    allocating_keeps_gathers(vm.heap, data);
    kept_in_order(vm.heap, vm.heap.allocated(data), vm.scheduler_or_new().tasks.len());
}

proof fn awaiting_gather_keeps_order<T: ResourceTracker>(vm: VmView<T>, id: HeapId, g: GatherView)
    requires
        vm.runs_in_order(),
        vm.scheduler_or_new().tasks.len() + g.items.len() < usize::MAX,
    ensures
        vm.gather_awaited(id, g).vm.runs_in_order(),
{
    let s = vm.scheduler_or_new();
    let freed = vm.release(Value::Ref(id));
    release_keeps_gathers(vm.heap, Value::Ref(id));
    kept_in_order(vm.heap, freed.heap, s.tasks.len());
    if g.waiter is Some {
    } else if g.items.len() == 0 {
        ready_list_keeps_order(freed, Seq::empty());
    } else {
        let n = g.items.len() as int;
        gather_starts_in_order(s, id, g.items, g.results, n);
        let run = gather_started(s, id, g.items, g.results, n);
        let tasks = run.scheduler.tasks.len();
        let waiting = GatherView {
            items: g.items,
            task_ids: run.task_ids,
            results: run.results,
            waiter: s.current_task,
            pending_calls: run.pending_calls,
        };
        let emptied = GatherView { results: Seq::empty(), ..waiting };
        more_in_order(vm.heap, s.tasks.len(), tasks);
        assert(gather_in_order(waiting, tasks));
        changed_in_order(vm.heap, id, waiting, tasks);
        changed_in_order(vm.heap, id, emptied, tasks);
        let started = vm.with_heap(vm.heap.with_gather(id, waiting)).with_scheduler(run.scheduler);
        if run.task_ids.len() == 0 && run.pending_calls.len() == 0 {
            if let Some(values) = all_results(run.results) {
                let done = vm.with_heap(vm.heap.with_gather(id, emptied)).with_scheduler(
                    run.scheduler,
                );
                release_keeps_gathers(done.heap, Value::Ref(id));
                kept_in_order(done.heap, done.heap.release(Value::Ref(id)), tasks);
                ready_list_keeps_order(done.release(Value::Ref(id)), values);
            }
        } else {
            let state = TaskStateView::BlockedOnGather(id);
            blocking_keeps_order(run.scheduler, state);
            switching_keeps_order(
                started.with_scheduler(run.scheduler.current_in_state(state)),
            );
        }
    }
}

proof fn shorter_queue_in_order(s: SchedulerView, id: TaskId)
    requires
        s.in_order(),
    ensures
        s.without_queued(id).in_order(),
        s.current_unqueued() || s.current_task == Some(id)
            ==> s.without_queued(id).current_unqueued(),
{
    let after = s.without_queued(id);
    assert forall|x: TaskId| #[trigger] after.ready_queue.contains(x) implies x != id
        && s.ready_queue.contains(x) by {
        unqueued_members(s.ready_queue, id, x);
    }
    unqueued_members(s.ready_queue, id, id);
    assert(forall|x: TaskId| after.task(x) == s.task(x));
}

/// A task that has ended and is out of the queue keeps the order.
proof fn ending_keeps_order(s: SchedulerView, id: TaskId, t: TaskView)
    requires
        s.in_order(),
        s.task(id) is Some,
        t.coroutine_id == s.task(id)->0.coroutine_id,
        id == TaskId::main_task() && s.current_task != Some(id) ==> t.frames.len() != 0,
    ensures
        s.with_task(id, t).without_queued(id).in_order(),
        s.current_unqueued() || s.current_task == Some(id) ==> s.with_task(
            id,
            t,
        ).without_queued(id).current_unqueued(),
{
    shorter_queue_in_order(s, id);
    unqueued_members(s.ready_queue, id, id);
    task_changed_in_order(s.without_queued(id), id, t);
    assert(s.with_task(id, t).without_queued(id) == s.without_queued(id).with_task(id, t));
}

proof fn failing_keeps_order(s: SchedulerView, id: TaskId, error: ErrorView)
    requires
        s.in_order(),
    ensures
        s.with_failure(id, error).in_order(),
        s.current_unqueued() || s.current_task == Some(id) ==> s.with_failure(
            id,
            error,
        ).current_unqueued(),
{
    match s.task(id) {
        None => {
            shorter_queue_in_order(s, id);
        },
        Some(t) => {
            ending_keeps_order(s, id, t.in_state(TaskStateView::Failed(error)));
        },
    }
}

proof fn cancelling_keeps_order<T>(
    s: SchedulerView,
    h: HeapView<T>,
    namespaces: NamespacesView,
    ids: Seq<TaskId>,
    except: Option<TaskId>,
    n: int,
)
    requires
        s.in_order(),
        n <= ids.len(),
        forall|i: int| 0 <= i < ids.len() ==> 0 < (#[trigger] ids[i]).0,
    ensures
        ({
            let after = all_cancelled(s, h, namespaces, ids, except, n);
            &&& after.0.in_order()
            &&& s.current_unqueued() ==> after.0.current_unqueued()
            &&& after.0.current_task == s.current_task
            &&& after.0.tasks.len() == s.tasks.len()
            &&& after.0.resolved == s.resolved
            &&& forall|x: TaskId| #[trigger]
                after.0.ready_queue.contains(x) ==> s.ready_queue.contains(x) && after.0.task(x)
                    == s.task(x)
            &&& gathers_kept(h, after.1)
        }),
    decreases n,
{
    if n > 0 {
        cancelling_keeps_order(s, h, namespaces, ids, except, n - 1);
        let before = all_cancelled(s, h, namespaces, ids, except, n - 1);
        let id = ids[n - 1];
        if except != Some(id) && before.0.task(id) is Some {
            let t = before.0.task(id)->0;
            let h1 = before.1.release_values(t.stack);
            let h2 = h1.release_values(t.exception_stack);
            release_values_only_frees(before.1, t.stack);
            release_values_only_frees(h1, t.exception_stack);
            frames_only_free(h2, before.2, t.frames);
            freeing_keeps_gathers(before.1, frames_released(h2, before.2, t.frames).0);
            let ended = TaskView {
                frames: Seq::empty(),
                stack: Seq::empty(),
                exception_stack: Seq::empty(),
                state: TaskStateView::Failed(cancellation()),
                ..t
            };
            ending_keeps_order(before.0, id, ended);
            let after = before.0.with_task(id, ended).without_queued(id);
            assert forall|x: TaskId| #[trigger] after.ready_queue.contains(x) implies x != id
                && before.0.ready_queue.contains(x) by {
                unqueued_members(before.0.ready_queue, id, x);
            }
        }
    }
}

proof fn readying_keeps_order(s: SchedulerView, id: TaskId)
    requires
        s.in_order(),
        id.0 < s.tasks.len(),
    ensures
        s.made_ready(id).in_order(),
        s.current_unqueued() && s.current_task != Some(id) ==> s.made_ready(id).current_unqueued(),
        forall|x: TaskId| #[trigger]
            s.made_ready(id).ready_queue.contains(x) ==> x == id || s.ready_queue.contains(x),
{
    let ready = s.task(id)->0.in_state(TaskStateView::Ready);
    task_changed_in_order(s, id, ready);
    let after = s.made_ready(id);
    assert forall|x: TaskId| #[trigger] after.ready_queue.contains(x) implies x == id
        || s.ready_queue.contains(x) by {
        let k = choose|k: int| 0 <= k < after.ready_queue.len() && after.ready_queue[k] == x;
        if k < s.ready_queue.len() {
            assert(s.ready_queue[k] == x);
        }
    }
    assert(forall|x: TaskId| after.task(x) == s.with_task(id, ready).task(x));
}

proof fn cleaning_up_keeps_order<T: ResourceTracker>(vm: VmView<T>)
    requires
        vm.tasks_in_order(),
        vm.scheduler is Some,
    ensures
        vm.cleaned_up().tasks_in_order(),
        vm.cleaned_up().scheduler == vm.scheduler,
{
    frames_only_free(vm.heap, vm.namespaces, vm.frames);
    freeing_keeps_gathers(vm.heap, vm.cleaned_up().heap);
    kept_in_order(vm.heap, vm.cleaned_up().heap, vm.scheduler->0.tasks.len());
}

/// Leaving a task that is not the main one keeps the order.
proof fn leaving_keeps_order<T: ResourceTracker>(vm: VmView<T>)
    requires
        vm.in_order(),
        vm.scheduler matches Some(s) && s.current_task != Some(TaskId::main_task()),
    ensures
        vm.left_task().vm.runs_in_order(),
{
    let s = vm.scheduler->0;
    let idle = s.running(None);
    cleaning_up_keeps_order(vm);
    assert(forall|x: TaskId| idle.task(x) == s.task(x));
    assert(idle.in_order());
    next_task_keeps_order(vm.cleaned_up().with_scheduler(idle));
}

proof fn handing_over_keeps_order<T: ResourceTracker>(vm: VmView<T>, to: TaskId)
    requires
        vm.in_order(),
        vm.scheduler matches Some(s) && s.current_task != Some(TaskId::main_task()) && to.0
            < s.tasks.len(),
    ensures
        vm.handed_over(to).vm.runs_in_order(),
        vm.handed_over(to).vm.scheduler matches Some(s) && s.current_task == Some(to),
{
    cleaning_up_keeps_order(vm);
    running_in_order(vm.scheduler->0, to);
    loading_keeps_order(
        vm.cleaned_up().with_scheduler(vm.scheduler->0.running(Some(to))),
        to,
    );
}

proof fn counting_keeps_gathers<T>(h: HeapView<T>, v: Value)
    ensures
        gathers_kept(h, h.inc_value(v)),
{
    assert forall|id: HeapId| (#[trigger] h.inc_value(v).gather(id)) is Some implies h.inc_value(
        v,
    ).gather(id) == h.gather(id) by {
        assert(h.inc_value(v).data(id) == h.data(id));
    }
}

proof fn result_keeps_order<T>(h: HeapView<T>, gather_id: HeapId, idx: Option<usize>, v: Value, tasks: nat)
    requires
        gathers_in_order(h, tasks),
    ensures
        gathers_in_order(h.result_stored(gather_id, idx, v), tasks),
{
    if let (Some(i), Some(g)) = (idx, h.gather(gather_id)) {
        let filled = GatherView { results: with_result(g.results, i as int, v), ..g };
        assert(gather_in_order(g, tasks));
        changed_in_order(h, gather_id, filled, tasks);
        let stored = h.with_gather(gather_id, filled);
        counting_keeps_gathers(stored, v);
        kept_in_order(stored, stored.inc_value(v), tasks);
    }
}

proof fn return_keeps_gathers<T>(h: HeapView<T>, id: Option<HeapId>)
    ensures
        gathers_kept(h, h.coroutine_completed(id)),
{
    let after = h.coroutine_completed(id);
    assert forall|x: HeapId| (#[trigger] after.gather(x)) is Some implies after.gather(x)
        == h.gather(x) by {
        if id != Some(x) {
            assert(after.data(x) == h.data(x));
        }
    }
}

impl<T: ResourceTracker> VmView<T> {
    /// The machine once the running task has returned, before anything follows from it.
    pub open spec fn returned(self, result: Value) -> VmView<T> {
        let s = self.scheduler_or_new();
        let id = s.current_task->0;
        let t = s.task(id)->0;
        let counted = self.heap.coroutine_completed(t.coroutine_id).inc_value(result);
        self.with_heap(
            match t.gather_id {
                None => counted,
                Some(g) => counted.result_stored(g, t.gather_result_idx, result),
            },
        ).with_scheduler(s.task_in_state(id, TaskStateView::Completed(result)))
    }
}

/// Noting that a task has returned keeps tasks, queue and gathers in order, as does giving up
/// the result.
pub proof fn returned_task_in_order<T: ResourceTracker>(vm: VmView<T>, result: Value, id: TaskId)
    requires
        vm.runs_in_order(),
        vm.scheduler matches Some(s) && s.current_task == Some(id),
    ensures
        vm.returned(result).runs_in_order(),
        vm.returned(result).release(result).runs_in_order(),
{
    let s = vm.scheduler->0;
    let tasks = s.tasks.len();
    let t = s.task(id)->0;
    let returned = vm.heap.coroutine_completed(t.coroutine_id);
    let counted = returned.inc_value(result);
    return_keeps_gathers(vm.heap, t.coroutine_id);
    kept_in_order(vm.heap, returned, tasks);
    counting_keeps_gathers(returned, result);
    kept_in_order(returned, counted, tasks);
    task_changed_in_order(s, id, t.in_state(TaskStateView::Completed(result)));
    if let Some(gather_id) = t.gather_id {
        result_keeps_order(counted, gather_id, t.gather_result_idx, result, tasks);
    }
    releasing_keeps_order(vm.returned(result), result);
}

/// The return of a task other than the main one keeps tasks, queue and gathers in order.
pub proof fn completion_keeps_order<T: ResourceTracker>(vm: VmView<T>, result: Value, id: TaskId)
    requires
        vm.runs_in_order(),
        vm.scheduler matches Some(s) && s.current_task == Some(id),
        id != TaskId::main_task(),
    ensures
        vm.task_completed(result).vm.runs_in_order(),
{
    let kept = vm.returned(result);
    let tasks = kept.scheduler->0.tasks.len();
    returned_task_in_order(vm, result, id);
    leaving_keeps_order(kept.release(result));
    if let Some(gather_id) = vm.scheduler->0.task(id)->0.gather_id {
        let g = kept.heap.gather(gather_id);
        if let Some(waiting) = g {
            assert(gather_in_order(waiting, tasks));
        }
        let (ids, waiter) = match g {
            Some(g) => (g.task_ids, g.waiter),
            None => (Seq::empty(), None),
        };
        if let Some(failed) = kept.scheduler->0.first_failed(ids, ids.len() as int) {
            failed_gather_keeps_order(kept, gather_id, waiter, failed, result);
        }
        complete_gather_keeps_order(kept, gather_id, waiter, result);
    }
}

proof fn releasing_keeps_order<T: ResourceTracker>(vm: VmView<T>, v: Value)
    requires
        vm.in_order(),
    ensures
        vm.release(v).in_order(),
        vm.runs_in_order() ==> vm.release(v).runs_in_order(),
{
    release_keeps_gathers(vm.heap, v);
    kept_in_order(vm.heap, vm.heap.release(v), vm.scheduler_or_new().tasks.len());
}

proof fn failed_gather_keeps_order<T: ResourceTracker>(
    vm: VmView<T>,
    gather_id: HeapId,
    waiter: Option<TaskId>,
    failed: TaskId,
    result: Value,
)
    requires
        vm.runs_in_order(),
        vm.scheduler matches Some(s) && s.current_task != Some(TaskId::main_task())
            && (waiter matches Some(w) ==> w.0 < s.tasks.len()),
    ensures
        vm.gather_failed(gather_id, waiter, failed, result).vm.runs_in_order(),
{
    let s = vm.scheduler->0;
    taking_failure_keeps_order(s, failed);
    let taken = vm.with_scheduler(s.failure_taken(failed));
    releasing_keeps_order(taken, result);
    releasing_keeps_order(taken.release(result), Value::Ref(gather_id));
    if let Some(w) = waiter {
        handing_over_keeps_order(taken.release(result).release(Value::Ref(gather_id)), w);
    }
}

proof fn taking_failure_keeps_order(s: SchedulerView, id: TaskId)
    requires
        s.in_order(),
    ensures
        s.failure_taken(id).in_order(),
        s.current_unqueued() ==> s.failure_taken(id).current_unqueued(),
        s.failure_taken(id).tasks.len() == s.tasks.len(),
        s.failure_taken(id).current_task == s.current_task,
{
    if s.failure(id) is Some {
        task_changed_in_order(s, id, s.task(id)->0.in_state(TaskStateView::Ready));
    }
}

proof fn complete_gather_keeps_order<T: ResourceTracker>(
    vm: VmView<T>,
    gather_id: HeapId,
    waiter: Option<TaskId>,
    result: Value,
)
    requires
        vm.runs_in_order(),
        vm.scheduler matches Some(s) && s.current_task != Some(TaskId::main_task())
            && (waiter matches Some(w) ==> w.0 < s.tasks.len()),
    ensures
        vm.gather_done(gather_id, waiter, result).vm.runs_in_order(),
{
    let s = vm.scheduler->0;
    let tasks = s.tasks.len();
    let results = match vm.heap.gather(gather_id) {
        Some(g) => all_results(g.results),
        None => Some(Seq::empty()),
    };
    if let Some(values) = results {
        let emptied = match vm.heap.gather(gather_id) {
            Some(g) => vm.heap.with_gather(gather_id, GatherView { results: Seq::empty(), ..g }),
            None => vm.heap,
        };
        if let Some(g) = vm.heap.gather(gather_id) {
            assert(gather_in_order(g, tasks));
            changed_in_order(
                vm.heap,
                gather_id,
                GatherView { results: Seq::empty(), ..g },
                tasks,
            );
        }
        let data = DataView::List(ListView::of(values));
        allocating_keeps_gathers(emptied, data);
        kept_in_order(emptied, emptied.allocated(data), tasks);
        let made = vm.with_heap(emptied.allocated(data));
        releasing_keeps_order(made, result);
        releasing_keeps_order(made.release(result), Value::Ref(gather_id));
        let freed = made.release(result).release(Value::Ref(gather_id));
        if let Some(w) = waiter {
            readying_keeps_order(s, w);
            shorter_queue_in_order(s.made_ready(w), w);
            handing_over_keeps_order(
                freed.with_scheduler(s.made_ready(w).without_queued(w)),
                w,
            );
        }
    }
}

proof fn loading_keeps_failure<T: ResourceTracker>(vm: VmView<T>, to: TaskId, id: TaskId)
    requires
        vm.scheduler is Some,
    ensures
        vm.handed_over(to).vm.scheduler matches Some(after) && after.failure(id)
            == vm.scheduler->0.failure(id),
{
    let s = vm.scheduler->0.running(Some(to));
    let ready = vm.cleaned_up().with_scheduler(s);
    if let Some(t) = s.task(to) {
        let empty = TaskView {
            frames: Seq::empty(),
            stack: Seq::empty(),
            exception_stack: Seq::empty(),
            ..t
        };
        let emptied = s.with_task(to, empty);
        if t.frames.len() == 0 && t.coroutine_id is Some {
            starting_keeps_gathers(ready.with_scheduler(emptied), t.coroutine_id->0);
        }
        assert(emptied.failure(id) == s.failure(id));
        assert(emptied.result_picked_up(to).failure(id) == s.failure(id));
    }
}

/// The failure of a task other than the main one keeps tasks, queue and gathers in order.
pub proof fn failure_keeps_order<T: ResourceTracker>(vm: VmView<T>, error: ErrorView, id: TaskId)
    requires
        vm.runs_in_order(),
        vm.scheduler matches Some(s) && s.current_task == Some(id),
        id != TaskId::main_task(),
    ensures
        vm.task_failed(error).vm.runs_in_order(),
{
    let s = vm.scheduler->0;
    let tasks = s.tasks.len();
    let failed = s.with_failure(id, error);
    failing_keeps_order(s, id, error);
    match s.task(id)->0.gather_id {
        None => {
            leaving_keeps_order(vm.with_scheduler(failed));
        },
        Some(gather_id) => {
            let g = vm.heap.gather(gather_id);
            let (waiter, ids, heap) = match g {
                Some(g) => (
                    g.waiter,
                    g.task_ids,
                    vm.heap.with_gather(gather_id, GatherView { task_ids: Seq::empty(), ..g }),
                ),
                None => (None, Seq::empty(), vm.heap),
            };
            if let Some(g) = g {
                assert(gather_in_order(g, tasks));
                changed_in_order(
                    vm.heap,
                    gather_id,
                    GatherView { task_ids: Seq::empty(), ..g },
                    tasks,
                );
            }
            let n = ids.len() as int;
            let parts = all_cancelled(failed, heap, vm.namespaces, ids, Some(id), n);
            cancelling_keeps_order(failed, heap, vm.namespaces, ids, Some(id), n);
            kept_in_order(heap, parts.1, tasks);
            let ended = vm.with_parts(parts);
            releasing_keeps_order(ended, Value::Ref(gather_id));
            let left = ended.release(Value::Ref(gather_id));
            match waiter {
                None => {
                    leaving_keeps_order(left);
                },
                Some(w) => {
                    handing_over_keeps_order(left, w);
                    let over = left.handed_over(w).vm;
                    taking_failure_keeps_order(over.scheduler->0, id);
                    cancelling_spares(failed, heap, vm.namespaces, ids, Some(id), n);
                    loading_keeps_failure(left, w, id);
                },
            }
        },
    }
}

proof fn keeping_is_transitive<T>(a: HeapView<T>, b: HeapView<T>, c: HeapView<T>)
    requires
        gathers_kept(a, b),
        gathers_kept(b, c),
    ensures
        gathers_kept(a, c),
{
    assert forall|id: HeapId| (#[trigger] c.gather(id)) is Some implies c.gather(id) == a.gather(
        id,
    ) by {
        assert(c.gather(id) == b.gather(id));
    }
}

proof fn storing_keeps_gathers<T>(
    h: HeapView<T>,
    interns: Interns,
    entries: Seq<(Value, Value)>,
    key: Value,
    value: Value,
)
    ensures
        gathers_kept(h, dict_set(h, interns, entries, key, value).heap),
{
    let freed = h.release(key);
    release_value_only_frees(h, key);
    release_value_only_frees(freed, value);
    assert(only_freed(h, freed.release(value)));
    freeing_keeps_gathers(h, freed.release(value));
    noting_keeps_gathers(freed, value);
    freeing_keeps_gathers(h, freed);
    keeping_is_transitive(h, freed, noted(freed, value));
    noting_keeps_gathers(h, key);
    noting_keeps_gathers(noted(h, key), value);
    keeping_is_transitive(h, noted(h, key), noted(noted(h, key), value));
}

proof fn noting_keeps_gathers<T>(h: HeapView<T>, v: Value)
    ensures
        gathers_kept(h, noted(h, v)),
{
    assert forall|id: HeapId| (#[trigger] noted(h, v).gather(id)) is Some implies noted(
        h,
        v,
    ).gather(id) == h.gather(id) by {
        assert(noted(h, v).entry(id) == h.entry(id));
    }
}

/// What the host hands in holds no gathers.
proof fn importing_keeps_gathers<T: ResourceTracker>(h: HeapView<T>, interns: Interns, o: MontyObject)
    ensures
        gathers_kept(h, imported(h, interns, o).heap),
    decreases o, 0int,
{
    match o {
        MontyObject::BigInt(i) => {
            allocating_keeps_gathers(h, DataView::LongInt(i@));
        },
        MontyObject::Text(t) => {
            allocating_keeps_gathers(h, DataView::Str(t@));
        },
        MontyObject::Bytes(b) => {
            allocating_keeps_gathers(h, DataView::Bytes(b@));
        },
        MontyObject::Exception(e, text) => {
            allocating_keeps_gathers(h, DataView::Exception(exception_of(e, text)));
        },
        MontyObject::List(items) => {
            let n = items@.len() as int;
            importing_items_keeps_gathers(h, interns, items@, n);
            let got = imported_items(h, interns, items@, n);
            if let Ok(values) = got.result {
                let data = DataView::List(ListView::of(values));
                allocating_keeps_gathers(got.heap, data);
                keeping_is_transitive(h, got.heap, got.heap.allocated(data));
            }
        },
        MontyObject::Tuple(items) => {
            let n = items@.len() as int;
            importing_items_keeps_gathers(h, interns, items@, n);
            let got = imported_items(h, interns, items@, n);
            if let Ok(values) = got.result {
                tuple_keeps_gathers(got.heap, values);
                keeping_is_transitive(h, got.heap, got.heap.made_tuple(values).heap);
            }
        },
        MontyObject::Dict(pairs) => {
            let n = pairs@.len() as int;
            importing_pairs_keeps_gathers(h, interns, pairs@, n);
            let got = imported_pairs(h, interns, pairs@, n);
            if let Ok(entries) = got.result {
                let data = DataView::Dict(entries);
                allocating_keeps_gathers(got.heap, data);
                keeping_is_transitive(h, got.heap, got.heap.allocated(data));
            }
        },
        _ => {},
    }
}

proof fn tuple_keeps_gathers<T: ResourceTracker>(h: HeapView<T>, items: Seq<Value>)
    ensures
        gathers_kept(h, h.made_tuple(items).heap),
{
    let data = DataView::Tuple(items);
    allocating_keeps_gathers(h, data);
    if items.len() == 0 {
        match h.empty_tuple {
            Some(id) => {
                counting_keeps_gathers(h, Value::Ref(id));
            },
            None => {
                if let Ok(id) = h.next_id() {
                    let noted_one = HeapView { empty_tuple: Some(id), ..h.allocated(data) };
                    assert(forall|x: HeapId| noted_one.gather(x) == h.allocated(data).gather(x));
                    counting_keeps_gathers(noted_one, Value::Ref(id));
                    keeping_is_transitive(h, noted_one, noted_one.inc(id));
                }
            },
        }
    }
}

proof fn importing_items_keeps_gathers<T: ResourceTracker>(
    h: HeapView<T>,
    interns: Interns,
    items: Seq<MontyObject>,
    n: int,
)
    ensures
        gathers_kept(h, imported_items(h, interns, items, n).heap),
    decreases items, n,
{
    if 0 < n <= items.len() {
        importing_items_keeps_gathers(h, interns, items, n - 1);
        let before = imported_items(h, interns, items, n - 1).heap;
        importing_keeps_gathers(before, interns, items[n - 1]);
        keeping_is_transitive(h, before, imported(before, interns, items[n - 1]).heap);
    }
}

proof fn importing_pairs_keeps_gathers<T: ResourceTracker>(
    h: HeapView<T>,
    interns: Interns,
    pairs: Seq<(MontyObject, MontyObject)>,
    n: int,
)
    ensures
        gathers_kept(h, imported_pairs(h, interns, pairs, n).heap),
    decreases pairs, n,
{
    if 0 < n <= pairs.len() {
        importing_pairs_keeps_gathers(h, interns, pairs, n - 1);
        let before = imported_pairs(h, interns, pairs, n - 1);
        if let Ok(entries) = before.result {
            let pair = pairs[n - 1];
            let key = imported(before.heap, interns, pair.0);
            importing_keeps_gathers(before.heap, interns, pair.0);
            keeping_is_transitive(h, before.heap, key.heap);
            if let Ok(k) = key.result {
                let value = imported(key.heap, interns, pair.1);
                importing_keeps_gathers(key.heap, interns, pair.1);
                keeping_is_transitive(h, key.heap, value.heap);
                if let Ok(v) = value.result {
                    let set = dict_set(value.heap, interns, entries, k, v).heap;
                    storing_keeps_gathers(value.heap, interns, entries, k, v);
                    keeping_is_transitive(h, value.heap, set);
                }
            }
        }
    }
}

proof fn blocked_task_waits(tasks: Seq<TaskView>, call: CallId, n: int)
    requires
        n <= tasks.len() <= usize::MAX,
    ensures
        blocked_task(tasks, call, n) matches Some(id) ==> id.0 < n && tasks[id.0 as int].state
            == TaskStateView::BlockedOnCall(call),
    decreases n,
{
    if n > 0 {
        blocked_task_waits(tasks, call, n - 1);
    }
}

/// The answer to a call keeps tasks, queue and gathers in order.
pub proof fn answer_keeps_order<T: ResourceTracker>(vm: VmView<T>, call: CallId, object: MontyObject)
    requires
        vm.waits_in_order(),
        vm.scheduler matches Some(s) && s.tasks.len() <= usize::MAX,
    ensures
        vm.future_resolved(call, object).vm.waits_in_order(),
        vm.future_resolved(call, object).vm.scheduler matches Some(after) && after.tasks.len()
            == vm.scheduler->0.tasks.len(),
{
    let taken = imported(vm.heap, vm.interns, object);
    importing_keeps_gathers(vm.heap, vm.interns, object);
    kept_in_order(vm.heap, taken.heap, vm.scheduler->0.tasks.len());
    if let Ok(v) = taken.result {
        answered_call_keeps_order(vm.with_heap(taken.heap), call, v);
    }
}

proof fn answered_call_keeps_order<T: ResourceTracker>(vm: VmView<T>, call: CallId, v: Value)
    requires
        vm.waits_in_order(),
        vm.scheduler matches Some(s) && s.tasks.len() <= usize::MAX,
    ensures
        vm.call_answered(call, v).waits_in_order(),
        vm.call_answered(call, v).scheduler matches Some(after) && after.tasks.len()
            == vm.scheduler->0.tasks.len(),
{
    let s = vm.scheduler->0;
    let tasks = s.tasks.len();
    match find_call(s.gather_waiters, call) {
        None => {
            let noted_one = SchedulerView {
                resolved: with_call(s.resolved, call, v),
                ..s.gather_forgotten(call).answered(call)
            };
            assert(forall|x: TaskId| noted_one.task(x) == s.task(x));
            assert(noted_one.in_order());
            entered_call_is_found(s.resolved, call, v, call);
            blocked_task_waits(s.tasks, call, tasks as int);
            if let Some(c) = s.current_task {
                if let Some(picked) = s.task(c)->0.unblocked_by {
                    entered_call_is_found(s.resolved, call, v, picked);
                }
            }
            if let Some(id) = blocked_task(s.tasks, call, tasks as int) {
                let t = s.tasks[id.0 as int];
                let unblocked = TaskView {
                    unblocked_by: Some(call),
                    state: TaskStateView::Ready,
                    ..t
                };
                task_changed_in_order(noted_one, id, unblocked);
                let with = noted_one.with_task(id, unblocked);
                let after = SchedulerView { ready_queue: s.ready_queue.push(id), ..with };
                assert forall|x: TaskId| #[trigger] after.ready_queue.contains(x) implies x == id
                    || s.ready_queue.contains(x) by {
                    let k = choose|k: int|
                        0 <= k < after.ready_queue.len() && after.ready_queue[k] == x;
                    if k < s.ready_queue.len() {
                        assert(s.ready_queue[k] == x);
                    }
                }
                assert(forall|x: TaskId| after.task(x) == with.task(x));
                assert(after.in_order());
            }
        },
        Some((gather_id, idx)) => {
            let rest = s.gather_forgotten(call).answered(call);
            assert(forall|x: TaskId| rest.task(x) == s.task(x));
            assert(rest.in_order());
            if let Some(before) = vm.heap.gather(gather_id) {
                assert(gather_in_order(before, tasks));
                let g = GatherView {
                    results: with_result(before.results, idx as int, v),
                    pending_calls: other_calls(before.pending_calls, call),
                    ..before
                };
                changed_in_order(vm.heap, gather_id, g, tasks);
                let filled = vm.with_heap(
                    vm.heap.with_gather(gather_id, g),
                ).with_scheduler(rest);
                assert(filled.waits_in_order());
                if let Some(w) = g.waiter {
                    delivery_keeps_order(filled, gather_id, g, w);
                }
            }
        },
    }
}

proof fn delivery_keeps_order<T: ResourceTracker>(
    vm: VmView<T>,
    gather_id: HeapId,
    g: GatherView,
    waiter: TaskId,
)
    requires
        vm.waits_in_order(),
        vm.scheduler matches Some(s) && gather_in_order(g, s.tasks.len()) && waiter.0
            < s.tasks.len(),
    ensures
        vm.gather_delivered(gather_id, g, waiter).waits_in_order(),
        vm.gather_delivered(gather_id, g, waiter).scheduler matches Some(after)
            && after.tasks.len() == vm.scheduler->0.tasks.len(),
{
    let s = vm.scheduler->0;
    let tasks = s.tasks.len();
    if let Some(values) = all_results(g.results) {
        let emptied = GatherView { results: Seq::empty(), ..g };
        changed_in_order(vm.heap, gather_id, emptied, tasks);
        let h = vm.heap.with_gather(gather_id, emptied);
        let data = DataView::List(ListView::of(values));
        allocating_keeps_gathers(h, data);
        kept_in_order(h, h.allocated(data), tasks);
        release_keeps_gathers(h.allocated(data), Value::Ref(gather_id));
        kept_in_order(h.allocated(data), h.allocated(data).release(Value::Ref(gather_id)), tasks);
        if let Ok(list) = h.made(data).result {
            let t = s.task(waiter)->0;
            task_changed_in_order(s, waiter, t.in_state(TaskStateView::Ready));
            let left = TaskView { stack: t.stack.push(list), ..t };
            task_changed_in_order(s, waiter, left);
            readying_keeps_order(s.with_task(waiter, left), waiter);
        }
    }
}

proof fn forgetting_keeps_order(s: SchedulerView, calls: Seq<CallId>, n: int)
    requires
        s.in_order(),
    ensures
        s.calls_forgotten(calls, n).in_order(),
        s.calls_forgotten(calls, n).tasks == s.tasks,
        s.calls_forgotten(calls, n).ready_queue == s.ready_queue,
        s.calls_forgotten(calls, n).current_task == s.current_task,
        s.calls_forgotten(calls, n).resolved == s.resolved,
    decreases n,
{
    if n > 0 {
        forgetting_keeps_order(s, calls, n - 1);
    }
    assert(forall|x: TaskId| s.calls_forgotten(calls, n).task(x) == s.task(x));
}

proof fn shorter_queue_waits_in_order<T: ResourceTracker>(
    vm: VmView<T>,
    after: SchedulerView,
    heap: HeapView<T>,
)
    requires
        vm.waits_in_order(),
        vm.scheduler is Some,
        after.in_order(),
        after.current_task == vm.scheduler->0.current_task,
        after.resolved == vm.scheduler->0.resolved,
        forall|x: TaskId| #[trigger]
            after.ready_queue.contains(x) ==> vm.scheduler->0.ready_queue.contains(x)
                && after.task(x) == vm.scheduler->0.task(x),
        gathers_in_order(heap, after.tasks.len()),
    ensures
        vm.with_scheduler(after).with_heap(heap).waits_in_order(),
{
}

/// The failure of a call keeps tasks, queue and gathers in order.
pub proof fn failed_call_keeps_order<T: ResourceTracker>(vm: VmView<T>, call: CallId, error: ErrorView)
    requires
        vm.waits_in_order(),
        vm.scheduler matches Some(s) && s.tasks.len() <= usize::MAX,
    ensures
        vm.future_failed(call, error).waits_in_order(),
        vm.future_failed(call, error).scheduler matches Some(after) && after.tasks.len()
            == vm.scheduler->0.tasks.len(),
{
    let s = vm.scheduler->0;
    let tasks = s.tasks.len();
    let rest = s.gather_forgotten(call);
    let done = rest.answered(call);
    assert(forall|x: TaskId| done.task(x) == s.task(x) && rest.task(x) == s.task(x));
    assert(done.in_order());
    match find_call(s.gather_waiters, call) {
        Some((gather_id, _)) => {
            if let Some(g) = vm.heap.gather(gather_id) {
                assert(gather_in_order(g, tasks));
                let given_up = GatherView {
                    pending_calls: Seq::empty(),
                    task_ids: Seq::empty(),
                    ..g
                };
                let heap = vm.heap.with_gather(gather_id, given_up);
                changed_in_order(vm.heap, gather_id, given_up, tasks);
                let others = other_calls(g.pending_calls, call);
                let forgotten = done.calls_forgotten(others, others.len() as int);
                forgetting_keeps_order(done, others, others.len() as int);
                let n = g.task_ids.len() as int;
                cancelling_keeps_order(forgotten, heap, vm.namespaces, g.task_ids, None, n);
                let parts = all_cancelled(forgotten, heap, vm.namespaces, g.task_ids, None, n);
                kept_in_order(heap, parts.1, tasks);
                assert(forall|x: TaskId| forgotten.task(x) == s.task(x));
                shorter_queue_waits_in_order(vm, parts.0, parts.1);
                if let Some(w) = g.waiter {
                    failing_keeps_order(parts.0, w, error);
                    let after = parts.0.with_failure(w, error);
                    assert forall|x: TaskId| #[trigger] after.ready_queue.contains(x) implies x
                        != w && parts.0.ready_queue.contains(x) by {
                        unqueued_members(parts.0.ready_queue, w, x);
                    }
                    release_keeps_gathers(parts.1, Value::Ref(gather_id));
                    let freed = parts.1.release(Value::Ref(gather_id));
                    kept_in_order(parts.1, freed, tasks);
                    shorter_queue_waits_in_order(vm, after, freed);
                }
            }
        },
        None => {
            blocked_task_waits(s.tasks, call, tasks as int);
            if let Some(id) = blocked_task(s.tasks, call, tasks as int) {
                let failed = done.with_failure(id, error);
                failing_keeps_order(done, id, error);
                assert forall|x: TaskId| #[trigger] failed.ready_queue.contains(x) implies x != id
                    && s.ready_queue.contains(x) by {
                    unqueued_members(s.ready_queue, id, x);
                }
                shorter_queue_waits_in_order(vm, failed, vm.heap);
                if let Some(gather_id) = s.tasks[id.0 as int].gather_id {
                    if let Some(g) = vm.heap.gather(gather_id) {
                        assert(gather_in_order(g, tasks));
                        let given_up = GatherView { task_ids: Seq::empty(), ..g };
                        let heap = vm.heap.with_gather(gather_id, given_up);
                        changed_in_order(vm.heap, gather_id, given_up, tasks);
                        let n = g.task_ids.len() as int;
                        cancelling_keeps_order(
                            failed,
                            heap,
                            vm.namespaces,
                            g.task_ids,
                            Some(id),
                            n,
                        );
                        let parts = all_cancelled(
                            failed,
                            heap,
                            vm.namespaces,
                            g.task_ids,
                            Some(id),
                            n,
                        );
                        kept_in_order(heap, parts.1, tasks);
                        shorter_queue_waits_in_order(vm, parts.0, parts.1);
                    }
                }
            }
        },
    }
}

/// A call that becomes pending keeps tasks, queue and gathers in order.
pub proof fn pending_call_keeps_order<T: ResourceTracker>(vm: VmView<T>, call: CallId)
    requires
        vm.runs_in_order(),
    ensures
        vm.call_pending(call).runs_in_order(),
{
    let s = vm.scheduler_or_new();
    let after = vm.call_pending(call).scheduler->0;
    assert(forall|x: TaskId| after.task(x) == s.task(x));
}

/// Taking the error of the running task keeps tasks, queue and gathers in order.
pub proof fn taken_failure_keeps_order<T: ResourceTracker>(vm: VmView<T>)
    requires
        vm.waits_in_order(),
        vm.current_failure() is Some,
    ensures
        vm.current_failure_taken().runs_in_order(),
{
    let s = vm.scheduler->0;
    taking_failure_keeps_order(s, s.current_task->0);
}

/// Going on after answers have been taken puts the running task out of the queue again.
pub proof fn settling_keeps_order<T: ResourceTracker>(vm: VmView<T>)
    requires
        vm.waits_in_order(),
        vm.scheduler is Some,
    ensures
        vm.settled().vm.runs_in_order(),
{
    if vm.current_failure() is Some {
        taken_failure_keeps_order(vm);
    } else {
        pushed_result_keeps_order(vm);
        let pushed = vm.result_pushed();
        if pushed.frames.len() == 0 {
            let s = pushed.scheduler->0;
            if let Some(next) = s.next_ready() {
                assert(s.ready_queue.contains(s.ready_queue[0]));
                running_in_order(s, next);
                loading_keeps_order(
                    pushed.with_scheduler(s.dequeued().running(Some(next))),
                    next,
                );
            }
        }
        let loaded = pushed.ready_task_loaded();
        if loaded.vm.replaceable() {
            switching_keeps_order(loaded.vm);
        }
    }
}

proof fn pushed_result_keeps_order<T: ResourceTracker>(vm: VmView<T>)
    requires
        vm.waits_in_order(),
        vm.scheduler is Some,
    ensures
        vm.result_pushed().in_order(),
        vm.result_pushed().scheduler is Some,
        vm.result_pushed().frames == vm.frames,
        vm.frames.len() != 0 ==> vm.result_pushed().runs_in_order(),
        vm.result_pushed().scheduler->0.ready_queue.len() == 0
            ==> vm.result_pushed().runs_in_order(),
{
    let s = vm.scheduler->0;
    if let Some(id) = s.current_task {
        let t = s.task(id)->0;
        let picked = s.result_picked_up(id);
        task_changed_in_order(s, id, TaskView { unblocked_by: None, ..t });
        assert(forall|x: TaskId|
            picked.task(x) == if t.unblocked_by is Some {
                s.with_task(id, TaskView { unblocked_by: None, ..t }).task(x)
            } else {
                s.task(x)
            });
        assert(picked.in_order());
        shorter_queue_in_order(picked, id);
    }
}

/// The answers of the host, one after the other, keep tasks, queue and gathers in order.
pub proof fn answers_keep_order<T: ResourceTracker>(
    vm: VmView<T>,
    answers: Seq<(u32, ExternalResult)>,
    n: int,
)
    requires
        vm.waits_in_order(),
        vm.scheduler matches Some(s) && s.tasks.len() <= usize::MAX,
        n <= answers.len(),
    ensures
        vm.answers_taken(answers, n).vm.waits_in_order(),
        vm.answers_taken(answers, n).vm.scheduler matches Some(after) && after.tasks.len()
            == vm.scheduler->0.tasks.len(),
    decreases n,
{
    if n > 0 {
        answers_keep_order(vm, answers, n - 1);
        let before = vm.answers_taken(answers, n - 1);
        let (call, answer) = answers[n - 1];
        match answer {
            ExternalResult::Return(object) => {
                answer_keeps_order(before.vm, CallId(call), object);
            },
            ExternalResult::Error(exc) => {
                failed_call_keeps_order(before.vm, CallId(call), host_error(exc));
            },
            ExternalResult::Future => {},
        }
    }
}

/// A program that has not done anything asynchronous is in order.
pub proof fn fresh_machine_is_in_order<T: ResourceTracker>(vm: VmView<T>)
    requires
        vm.scheduler is None,
        vm.frames.len() != 0,
        forall|id: HeapId|
            (#[trigger] vm.heap.gather(id)) matches Some(g) ==> g.waiter is None
                && g.task_ids.len() == 0,
    ensures
        vm.runs_in_order(),
{
}

/// A program that stops to wait is ready to take answers.
pub proof fn running_program_can_wait<T: ResourceTracker>(vm: VmView<T>)
    requires
        vm.runs_in_order(),
    ensures
        vm.waits_in_order(),
{
}

/// A task that waits or has ended is not in the queue.
pub proof fn waiting_task_is_not_queued(s: SchedulerView, id: TaskId)
    requires
        s.in_order(),
        s.task(id) matches Some(t) && !(t.state is Ready),
    ensures
        !s.ready_queue.contains(id),
{
}

impl<T: ResourceTracker> VmView<T> {
    /// Whether a coroutine can be started as the root of a task: it has not run, and calls are
    /// not nested too deeply.
    pub open spec fn startable(self, id: HeapId) -> bool {
        &&& self.heap.data(id) matches Some(DataView::Coroutine(c))
        &&& c.state == CoroutineState::New
        &&& depth_error(self.heap.tracker, self.namespaces.depth) is None
    }
}

proof fn counting_keeps_tracker<T>(h: HeapView<T>, values: Seq<Value>, ids: Seq<HeapId>)
    ensures
        h.inc_values(values).inc_ids(ids).tracker == h.tracker,
    decreases values.len() + ids.len(),
{
    if ids.len() > 0 {
        counting_keeps_tracker(h, values, ids.drop_last());
    } else if values.len() > 0 {
        counting_keeps_tracker(h, values.drop_last(), ids);
    }
}

/// A task in the queue exists and has frames or a coroutine to go on with. With frames it goes
/// on; without them it does exactly if its coroutine can be started.
pub proof fn queued_task_is_loaded<T: ResourceTracker>(vm: VmView<T>, id: TaskId)
    requires
        vm.scheduler matches Some(s) && s.in_order() && s.ready_queue.contains(id)
            && s.current_task != Some(id),
    ensures
        ({
            let loaded = vm.task_loaded(id);
            &&& vm.scheduler->0.task(id) matches Some(t)
            &&& if t.frames.len() != 0 {
                loaded.result is Ok && loaded.vm.frames == t.frames
            } else {
                t.coroutine_id matches Some(c) && (loaded.result is Ok <==> vm.startable(c))
            }
        }),
{
    let t = vm.scheduler->0.task(id)->0;
    if t.frames.len() == 0 {
        if let Some(DataView::Coroutine(c)) = vm.heap.data(t.coroutine_id->0) {
            counting_keeps_tracker(vm.heap, c.namespace, c.frame_cells);
        }
    }
}

/// Leaving a task changes no gather, and goes on with the next task in the queue as it is.
pub proof fn left_task_goes_on<T: ResourceTracker>(vm: VmView<T>)
    requires
        vm.in_order(),
        vm.scheduler matches Some(s) && s.current_task != Some(TaskId::main_task()),
    ensures
        ({
            let s = vm.scheduler->0;
            let left = vm.left_task();
            &&& gathers_kept(vm.heap, left.vm.heap)
            &&& left.vm.scheduler matches Some(after)
            &&& forall|x: TaskId|
                s.next_ready() != Some(x) ==> #[trigger] after.task(x) == s.task(x)
            &&& after.current_task == s.next_ready()
            &&& match s.next_ready() {
                None => left.result == Ok::<AwaitView, ErrorView>(
                    AwaitView::Yield(calls_of(s.pending_calls)),
                ),
                Some(next) => {
                    let t = s.task(next)->0;
                    &&& left.result is Ok ==> left.result == Ok::<AwaitView, ErrorView>(
                        AwaitView::FramePushed,
                    )
                    &&& t.frames.len() != 0 ==> left.result is Ok && left.vm.frames == t.frames
                    &&& t.frames.len() == 0 ==> (t.coroutine_id matches Some(c) && (
                    left.vm.heap.data(c) is Some ==> vm.heap.data(c) is Some && (vm.startable(c)
                        ==> left.result is Ok)))
                },
            }
        }),
{
    let s = vm.scheduler->0;
    let idle = s.running(None);
    let cleaned = vm.cleaned_up().with_scheduler(idle);
    frames_only_free(vm.heap, vm.namespaces, vm.frames);
    freeing_keeps_gathers(vm.heap, cleaned.heap);
    assert(forall|x: TaskId| idle.task(x) == s.task(x));
    if let Some(next) = s.next_ready() {
        assert(s.ready_queue.contains(s.ready_queue[0]));
        let t = s.task(next)->0;
        let ready = cleaned.with_scheduler(idle.dequeued().running(Some(next)));
        let empty = TaskView {
            frames: Seq::empty(),
            stack: Seq::empty(),
            exception_stack: Seq::empty(),
            ..t
        };
        let emptied = ready.scheduler->0.with_task(next, empty);
        if t.frames.len() == 0 {
            let c = t.coroutine_id->0;
            let vm1 = ready.with_scheduler(emptied);
            starting_keeps_gathers(vm1, c);
            keeping_is_transitive(vm.heap, vm1.heap, vm1.task_started(c).vm.heap);
            if vm.left_task().vm.heap.data(c) is Some {
                assert(vm1.heap.data(c) is Some);
                assert(vm1.heap.entry(c) is Some);
            }
            if vm.startable(c) && vm.left_task().vm.heap.data(c) is Some {
                let coroutine = vm1.heap.data(c)->0->Coroutine_0;
                counting_keeps_tracker(vm1.heap, coroutine.namespace, coroutine.frame_cells);
            }
        }
    }
}

proof fn next_task_spares<T: ResourceTracker>(vm: VmView<T>, other: TaskId)
    requires
        vm.scheduler matches Some(s) && !s.ready_queue.contains(other),
    ensures
        gathers_kept(vm.heap, vm.next_task_run().vm.heap),
        vm.next_task_run().vm.scheduler matches Some(after) && after.task(other)
            == vm.scheduler->0.task(other),
{
    let s = vm.scheduler->0;
    if let Some(next) = s.next_ready() {
        assert(s.ready_queue.contains(s.ready_queue[0]));
        let ready = vm.with_scheduler(s.dequeued().running(Some(next)));
        if let Some(t) = s.task(next) {
            let empty = TaskView {
                frames: Seq::empty(),
                stack: Seq::empty(),
                exception_stack: Seq::empty(),
                ..t
            };
            let emptied = ready.scheduler->0.with_task(next, empty);
            if t.frames.len() == 0 && t.coroutine_id is Some {
                starting_keeps_gathers(ready.with_scheduler(emptied), t.coroutine_id->0);
            }
        }
    }
}

/// A task that awaits a gather which lacks something is blocked on it, and the gather knows the
/// task.
pub proof fn awaiting_gather_blocks<T: ResourceTracker>(
    vm: VmView<T>,
    id: HeapId,
    g: GatherView,
    task: TaskId,
)
    requires
        vm.runs_in_order(),
        vm.stack.len() >= 1,
        vm.top(0) == Value::Ref(id),
        vm.heap.gather(id) == Some(g),
        g.waiter is None,
        vm.scheduler_or_new().current_task == Some(task),
        vm.scheduler_or_new().tasks.len() + g.items.len() < usize::MAX,
        ({
            let n = g.items.len() as int;
            let run = gather_started(vm.scheduler_or_new(), id, g.items, g.results, n);
            run.task_ids.len() != 0 || run.pending_calls.len() != 0
        }),
    ensures
        ({
            let after = vm.awaited().vm;
            let n = g.items.len() as int;
            let run = gather_started(vm.scheduler_or_new(), id, g.items, g.results, n);
            &&& after.scheduler matches Some(s)
            &&& s.task(task) matches Some(t)
            &&& t.state == TaskStateView::BlockedOnGather(id)
            &&& after.heap.gather(id) matches Some(f) ==> f.waiter == Some(task) && f.task_ids
                == run.task_ids && f.pending_calls == run.pending_calls && f.results
                == run.results && f.items == g.items
            &&& s.gather_waiters == run.scheduler.gather_waiters
        }),
{
    let s = vm.scheduler_or_new();
    let n = g.items.len() as int;
    let run = gather_started(s, id, g.items, g.results, n);
    gather_starts_in_order(s, id, g.items, g.results, n);
    let state = TaskStateView::BlockedOnGather(id);
    blocking_keeps_order(run.scheduler, state);
    let blocked = run.scheduler.current_in_state(state);
    let waiting = GatherView {
        items: g.items,
        task_ids: run.task_ids,
        results: run.results,
        waiter: s.current_task,
        pending_calls: run.pending_calls,
    };
    let ready = vm.popped(1).with_heap(vm.heap.with_gather(id, waiting)).with_scheduler(blocked);
    assert(ready.heap.gather(id) == Some(waiting));
    let kept = if blocked.next_ready() is Some {
        ready.saved(task)
    } else {
        ready
    };
    next_task_spares(kept, task);
    assert(vm.awaited().vm == kept.next_task_run().vm);
    let _ = vm.awaited().vm.heap.gather(id);
}

} // verus!
