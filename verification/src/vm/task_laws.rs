//! What holds of tasks, calls and gathers as a whole.

use vstd::prelude::*;
use crate::asyncio::{GatherItem, GatherView};
use crate::call_map::{
    calls_of, entered_call_is_found, find_call, found_means_listed, removed_call_is_gone,
};
use crate::error::ErrorView;
use crate::heap::HeapView;
use crate::ids::{CallId, HeapId, TaskId};
use crate::namespaces::NamespacesView;
use crate::object::MontyObject;
use crate::ownership::release_value_only_frees;
use crate::resource::ResourceTracker;
use crate::value::Value;
use crate::vm::async_exec::{
    all_results, counting_keeps_data, gather_started, with_result, AwaitView,
};
use crate::vm::futures::other_calls;
use crate::vm::queue_laws::{
    completion_keeps_order, gather_in_order, left_task_goes_on, returned_task_in_order,
    unqueued_members, waiting_task_is_not_queued,
};
use crate::vm::scheduler::{
    blocked_task, cancellation, cancelled, PendingCallData, SchedulerView, TaskStateView,
};
use crate::vm::task_end::all_cancelled;
use crate::vm::VmView;

verus! {

/// A call that is noted as pending is among those the host has to answer.
pub proof fn pending_call_is_listed<T: ResourceTracker>(vm: VmView<T>, call: CallId)
    ensures
        vm.call_pending(call).pending_calls().contains(call),
{
    let s = vm.scheduler_or_new();
    let data = PendingCallData {
        creator_task: match s.current_task {
            Some(id) => id,
            None => TaskId::main_task(),
        },
    };
    entered_call_is_found(s.pending_calls, call, data, call);
}

/// A call that has been answered is no longer among those the host has to answer.
pub proof fn answered_call_is_not_pending<T: ResourceTracker>(vm: VmView<T>, call: CallId, v: Value)
    requires
        vm.scheduler is Some,
    ensures
        !vm.call_answered(call, v).pending_calls().contains(call),
{
    let s = vm.scheduler->0;
    removed_call_is_gone(s.pending_calls, call, call);
    found_means_listed(s.answered(call).pending_calls, call);
    assert(vm.call_answered(call, v).scheduler->0.pending_calls == s.answered(
        call,
    ).pending_calls);
}

/// Answering a call leaves the other calls pending.
pub proof fn other_calls_stay_pending<T: ResourceTracker>(
    vm: VmView<T>,
    call: CallId,
    v: Value,
    other: CallId,
)
    requires
        vm.scheduler is Some,
        other != call,
    ensures
        vm.call_answered(call, v).pending_calls().contains(other) == vm.pending_calls().contains(
            other,
        ),
{
    let s = vm.scheduler->0;
    removed_call_is_gone(s.pending_calls, call, other);
    found_means_listed(s.pending_calls, other);
    found_means_listed(s.answered(call).pending_calls, other);
    assert(vm.call_answered(call, v).scheduler->0.pending_calls == s.answered(
        call,
    ).pending_calls);
}

/// The answer to a call of a task that has failed or been cancelled changes nothing.
pub proof fn answer_to_failed_task_is_ignored<T: ResourceTracker>(
    vm: VmView<T>,
    call: CallId,
    object: MontyObject,
)
    requires
        vm.scheduler matches Some(s) && s.creator_failed(call),
    ensures
        vm.future_resolved(call, object).vm == vm,
        vm.future_resolved(call, object).result is Ok,
{
}

/// The running task, if it waits for a call, gets the answer on its stack.
pub proof fn answer_reaches_running_task<T: ResourceTracker>(
    vm: VmView<T>,
    id: TaskId,
    call: CallId,
    v: Value,
)
    requires
        vm.scheduler matches Some(s) && s.current_task == Some(id) && blocked_task(
            s.tasks,
            call,
            s.tasks.len() as int,
        ) == Some(id) && id.0 < s.tasks.len() && find_call(s.gather_waiters, call) is None,
    ensures
        vm.call_answered(call, v).awaited_result() == Some(v),
        vm.call_answered(call, v).result_pushed().stack == vm.stack.push(v),
{
    let s = vm.scheduler->0;
    entered_call_is_found(s.resolved, call, v, call);
}

/// An answer that comes before the call is awaited is what awaiting it gives.
pub proof fn early_answer_is_kept<T: ResourceTracker>(vm: VmView<T>, call: CallId, v: Value)
    requires
        vm.scheduler matches Some(s) && find_call(s.gather_waiters, call) is None && find_call(
            s.consumed,
            call,
        ) is None,
    ensures
        vm.call_answered(call, v).call_awaited(call).result == Ok::<AwaitView, ErrorView>(
            AwaitView::ValueReady(v),
        ),
{
    let s = vm.scheduler->0;
    entered_call_is_found(s.resolved, call, v, call);
}

/// A task that is cancelled before it has ended has failed, and is not in the queue.
pub proof fn cancelled_task_has_failed<T>(
    s: SchedulerView,
    h: HeapView<T>,
    n: NamespacesView,
    id: TaskId,
)
    requires
        s.task(id) matches Some(t) && !t.state.finished(),
    ensures
        cancelled(s, h, n, id).0.failure(id) == Some(cancellation()),
        !cancelled(s, h, n, id).0.ready_queue.contains(id),
{
    unqueued_members(s.ready_queue, id, id);
}

/// Cancelling tasks changes neither the calls nor the task that is spared.
pub proof fn cancelling_spares<T>(
    s: SchedulerView,
    h: HeapView<T>,
    namespaces: NamespacesView,
    ids: Seq<TaskId>,
    except: Option<TaskId>,
    n: int,
)
    requires
        n <= ids.len(),
    ensures
        ({
            let after = all_cancelled(s, h, namespaces, ids, except, n).0;
            &&& after.pending_calls == s.pending_calls
            &&& after.gather_waiters == s.gather_waiters
            &&& after.tasks.len() == s.tasks.len()
            &&& except matches Some(id) ==> after.task(id) == s.task(id)
        }),
    decreases n,
{
    if n > 0 {
        cancelling_spares(s, h, namespaces, ids, except, n - 1);
    }
}

/// Each of these tasks has ended once they are cancelled.
pub proof fn cancelling_ends_all<T>(
    s: SchedulerView,
    h: HeapView<T>,
    namespaces: NamespacesView,
    ids: Seq<TaskId>,
    except: Option<TaskId>,
    n: int,
    i: int,
)
    requires
        0 <= i < n <= ids.len(),
        s.task(ids[i]) is Some,
        except != Some(ids[i]),
    ensures
        all_cancelled(s, h, namespaces, ids, except, n).0.task(ids[i])->0.state.finished(),
    decreases n,
{
    cancelling_spares(s, h, namespaces, ids, except, n - 1);
    if i < n - 1 {
        cancelling_ends_all(s, h, namespaces, ids, except, n - 1, i);
    }
}

proof fn other_calls_are_kept(calls: Seq<CallId>, call: CallId, other: CallId)
    requires
        calls.contains(other),
        other != call,
    ensures
        other_calls(calls, call).contains(other),
    decreases calls.len(),
{
    let before = other_calls(calls.drop_last(), call);
    if calls.last() == other {
        assert(before.push(other)[before.len() as int] == other);
    } else {
        let k = choose|k: int| 0 <= k < calls.len() && calls[k] == other;
        assert(calls.drop_last()[k] == other);
        other_calls_are_kept(calls.drop_last(), call, other);
        let j = choose|j: int| 0 <= j < before.len() && before[j] == other;
        assert(before.push(calls.last())[j] == other);
    }
}

proof fn forgotten_calls_are_gone(s: SchedulerView, calls: Seq<CallId>, n: int, call: CallId)
    requires
        n <= calls.len(),
        (exists|i: int| 0 <= i < n && calls[i] == call) || (find_call(s.pending_calls, call) is None
            && find_call(s.gather_waiters, call) is None),
    ensures
        find_call(s.calls_forgotten(calls, n).pending_calls, call) is None,
        find_call(s.calls_forgotten(calls, n).gather_waiters, call) is None,
    decreases n,
{
    if n > 0 {
        let before = s.calls_forgotten(calls, n - 1);
        removed_call_is_gone(before.pending_calls, calls[n - 1], call);
        removed_call_is_gone(before.gather_waiters, calls[n - 1], call);
        if calls[n - 1] != call {
            forgotten_calls_are_gone(s, calls, n - 1, call);
        }
    }
}

/// Once one call of a gather has failed, none of its calls is pending or has the gather
/// waiting for it.
pub proof fn failed_gather_waits_for_nothing<T: ResourceTracker>(
    vm: VmView<T>,
    call: CallId,
    error: ErrorView,
    gather_id: HeapId,
    idx: usize,
    g: GatherView,
    other: CallId,
)
    requires
        vm.scheduler matches Some(s) && find_call(s.gather_waiters, call) == Some((gather_id, idx)),
        vm.heap.gather(gather_id) == Some(g),
        other == call || g.pending_calls.contains(other),
    ensures
        ({
            let after = vm.future_failed(call, error).scheduler->0;
            &&& find_call(after.gather_waiters, other) is None
            &&& !calls_of(after.pending_calls).contains(other)
        }),
{
    let s = vm.scheduler->0;
    let rest = s.gather_forgotten(call).answered(call);
    let others = other_calls(g.pending_calls, call);
    removed_call_is_gone(s.pending_calls, call, other);
    removed_call_is_gone(s.gather_waiters, call, other);
    if other != call {
        other_calls_are_kept(g.pending_calls, call, other);
        let k = choose|k: int| 0 <= k < others.len() && others[k] == other;
        assert(others[k] == other);
    }
    forgotten_calls_are_gone(rest, others, others.len() as int, other);
    let forgotten = rest.calls_forgotten(others, others.len() as int);
    let heap = vm.heap.with_gather(
        gather_id,
        GatherView { pending_calls: Seq::empty(), task_ids: Seq::empty(), ..g },
    );
    cancelling_spares(
        forgotten,
        heap,
        vm.namespaces,
        g.task_ids,
        None,
        g.task_ids.len() as int,
    );
    found_means_listed(forgotten.pending_calls, other);
}

/// Once a call of a gather has failed, the task that waits for the gather has failed with the
/// same error.
pub proof fn failed_call_fails_waiter<T: ResourceTracker>(
    vm: VmView<T>,
    call: CallId,
    error: ErrorView,
    gather_id: HeapId,
    idx: usize,
    g: GatherView,
    waiter: TaskId,
)
    requires
        vm.scheduler matches Some(s) && find_call(s.gather_waiters, call) == Some((gather_id, idx))
            && s.task(waiter) is Some,
        vm.heap.gather(gather_id) == Some(g),
        g.waiter == Some(waiter),
    ensures
        vm.future_failed(call, error).scheduler->0.failure(waiter) == Some(error),
{
    let s = vm.scheduler->0;
    let rest = s.gather_forgotten(call).answered(call);
    let others = other_calls(g.pending_calls, call);
    let forgotten = rest.calls_forgotten(others, others.len() as int);
    let heap = vm.heap.with_gather(
        gather_id,
        GatherView { pending_calls: Seq::empty(), task_ids: Seq::empty(), ..g },
    );
    forgetting_keeps_tasks(rest, others, others.len() as int);
    cancelling_spares(
        forgotten,
        heap,
        vm.namespaces,
        g.task_ids,
        None,
        g.task_ids.len() as int,
    );
}

proof fn forgetting_keeps_tasks(s: SchedulerView, calls: Seq<CallId>, n: int)
    ensures
        s.calls_forgotten(calls, n).tasks == s.tasks,
    decreases n,
{
    if n > 0 {
        forgetting_keeps_tasks(s, calls, n - 1);
    }
}

/// When a task of a gather fails, the task that waits for the gather goes on with that error.
pub proof fn failure_reaches_waiter<T: ResourceTracker>(
    vm: VmView<T>,
    error: ErrorView,
    id: TaskId,
    gather_id: HeapId,
    g: GatherView,
    waiter: TaskId,
)
    requires
        vm.scheduler matches Some(s) && s.current_task == Some(id) && (s.task(id) matches Some(t)
            && t.gather_id == Some(gather_id)) && (s.task(waiter) matches Some(w)
            && w.frames.len() != 0),
        vm.heap.gather(gather_id) == Some(g),
        g.waiter == Some(waiter),
        !g.task_ids.contains(waiter),
        id != waiter,
    ensures
        vm.task_failed(error).result == Err::<(), ErrorView>(error),
        vm.task_failed(error).vm.scheduler matches Some(after) && after.current_task == Some(
            waiter,
        ),
        vm.task_failed(error).vm.frames == vm.scheduler->0.task(waiter)->0.frames,
{
    let s = vm.scheduler->0;
    let failed = s.with_failure(id, error);
    let heap = vm.heap.with_gather(gather_id, GatherView { task_ids: Seq::empty(), ..g });
    cancelling_spares(
        failed,
        heap,
        vm.namespaces,
        g.task_ids,
        Some(id),
        g.task_ids.len() as int,
    );
    cancelling_leaves_others(
        failed,
        heap,
        vm.namespaces,
        g.task_ids,
        Some(id),
        g.task_ids.len() as int,
        waiter,
    );
}

proof fn cancelling_leaves_others<T>(
    s: SchedulerView,
    h: HeapView<T>,
    namespaces: NamespacesView,
    ids: Seq<TaskId>,
    except: Option<TaskId>,
    n: int,
    id: TaskId,
)
    requires
        n <= ids.len(),
        !ids.contains(id),
    ensures
        all_cancelled(s, h, namespaces, ids, except, n).0.task(id) == s.task(id),
    decreases n,
{
    if n > 0 {
        assert(ids[n - 1] != id);
        cancelling_spares(s, h, namespaces, ids, except, n - 1);
        cancelling_leaves_others(s, h, namespaces, ids, except, n - 1, id);
    }
}

/// A complete gather gives one result for each item, in the order of the items.
pub proof fn gather_keeps_order(results: Seq<Option<Value>>, values: Seq<Value>)
    requires
        all_results(results) == Some(values),
    ensures
        values.len() == results.len(),
        forall|i: int| 0 <= i < results.len() ==> #[trigger] results[i] == Some(values[i]),
{
}

/// The result of a task of a gather is stored in the place of its item, and the results of the
/// other items stay as they are.
pub proof fn task_result_has_its_place<T>(
    h: HeapView<T>,
    gather_id: HeapId,
    g: GatherView,
    idx: usize,
    v: Value,
)
    requires
        h.gather(gather_id) == Some(g),
        idx < g.results.len(),
    ensures
        ({
            let after = h.result_stored(gather_id, Some(idx), v).gather(gather_id);
            after == Some(GatherView { results: g.results.update(idx as int, Some(v)), ..g })
        }),
{
    let stored = h.with_gather(
        gather_id,
        GatherView { results: with_result(g.results, idx as int, v), ..g },
    );
    counting_keeps_data(stored, seq![v], Seq::empty(), gather_id);
    assert(seq![v].drop_last() =~= Seq::empty());
    reveal_with_fuel(HeapView::inc_values, 2);
}

/// The answer to a call of a gather that lacks more than that is stored in the place of its
/// item, and the results of the other items stay as they are. No task and no stack changes.
pub proof fn answer_has_its_place<T: ResourceTracker>(
    vm: VmView<T>,
    call: CallId,
    v: Value,
    gather_id: HeapId,
    g: GatherView,
    idx: usize,
)
    requires
        vm.scheduler is Some,
        find_call(vm.scheduler->0.gather_waiters, call) == Some((gather_id, idx)),
        vm.heap.gather(gather_id) == Some(g),
        idx < g.results.len(),
        other_calls(g.pending_calls, call).len() != 0 || !vm.scheduler->0.all_finished(g.task_ids),
    ensures
        vm.call_answered(call, v).scheduler->0.tasks == vm.scheduler->0.tasks,
        vm.call_answered(call, v).stack == vm.stack,
        vm.call_answered(call, v).heap.gather(gather_id) == Some(
            GatherView {
                results: g.results.update(idx as int, Some(v)),
                pending_calls: other_calls(g.pending_calls, call),
                ..g
            },
        ),
{
    let s = vm.scheduler->0;
    let rest = s.gather_forgotten(call).answered(call);
    assert(rest.all_finished(g.task_ids) == s.all_finished(g.task_ids)) by {
        assert(forall|id: TaskId| rest.task(id) == s.task(id));
    }
}

/// The return of a task leaves a gather that lacks another task or a call as it is, but for the
/// result: it delivers nothing, and the task that waits for it stays blocked.
///
/// The next task in the queue goes on, or the machine yields. A task that has run before always
/// goes on; one that has not does if its coroutine, which is still there, has not been awaited
/// elsewhere, and calls are not nested too deeply.
pub proof fn unfinished_gather_delivers_nothing<T: ResourceTracker>(
    vm: VmView<T>,
    result: Value,
    id: TaskId,
    gather_id: HeapId,
    g: GatherView,
    other: TaskId,
    waiter: TaskId,
)
    requires
        vm.runs_in_order(),
        vm.scheduler matches Some(s) && s.current_task == Some(id) && (s.task(id) matches Some(t)
            && t.gather_id == Some(gather_id)) && (s.task(waiter) matches Some(w) && w.state
            == TaskStateView::BlockedOnGather(gather_id)),
        vm.heap.gather(gather_id) == Some(g),
        g.waiter == Some(waiter),
        g.task_ids.contains(id),
        g.pending_calls.len() != 0 || (other != id && g.task_ids.contains(other)
            && !(vm.scheduler->0.task(other) matches Some(o) && o.state.finished())),
    ensures
        ({
            let s = vm.scheduler->0;
            let done = vm.task_completed(result);
            &&& done.vm.runs_in_order()
            &&& done.vm.scheduler matches Some(after)
            &&& after.task(waiter) == s.task(waiter)
            &&& after.current_task == s.next_ready()
            &&& s.next_ready() != Some(waiter)
            &&& done.vm.heap.gather(gather_id) matches Some(f) ==> f.task_ids == g.task_ids
                && f.pending_calls == g.pending_calls && f.waiter == g.waiter
            &&& match s.next_ready() {
                None => done.result == Ok::<AwaitView, ErrorView>(
                    AwaitView::Yield(calls_of(s.pending_calls)),
                ),
                Some(next) => {
                    let t = s.task(next)->0;
                    &&& s.task(next) is Some
                    &&& done.result is Ok ==> done.result == Ok::<AwaitView, ErrorView>(
                        AwaitView::FramePushed,
                    )
                    &&& t.frames.len() != 0 ==> done.result is Ok && done.vm.frames == t.frames
                    &&& t.frames.len() == 0 ==> (t.coroutine_id matches Some(c) && (vm.startable(c)
                        && s.task(id)->0.coroutine_id != Some(c) && done.vm.heap.data(c) is Some
                        ==> done.result is Ok))
                },
            }
        }),
{
    let s = vm.scheduler->0;
    let t = s.task(id)->0;
    let k = choose|k: int| 0 <= k < g.task_ids.len() && g.task_ids[k] == id;
    assert(gather_in_order(g, s.tasks.len()));
    assert(waiter.0 < id.0);
    waiting_task_is_not_queued(s, waiter);
    completion_keeps_order(vm, result, id);
    let completed = s.task_in_state(id, TaskStateView::Completed(result));
    let returned = vm.heap.coroutine_completed(t.coroutine_id);
    let counted = returned.inc_value(result);
    assert(counted.gather(gather_id) == Some(g));
    let stored = counted.result_stored(gather_id, t.gather_result_idx, result);
    if t.gather_result_idx is Some && t.gather_result_idx->0 < g.results.len() {
        task_result_has_its_place(counted, gather_id, g, t.gather_result_idx->0, result);
    }
    let kept = stored.gather(gather_id)->0;
    assert(kept.task_ids == g.task_ids && kept.pending_calls == g.pending_calls && kept.waiter
        == g.waiter);
    if g.pending_calls.len() == 0 {
        let i = choose|i: int| 0 <= i < g.task_ids.len() && g.task_ids[i] == other;
        assert(completed.task(g.task_ids[i]) == s.task(other));
        assert(!completed.all_finished(g.task_ids));
    }
    let ready = vm.with_heap(stored).with_scheduler(completed);
    let released = ready.release(result);
    returned_task_in_order(vm, result, id);
    release_value_only_frees(stored, result);
    left_task_goes_on(released);
    if s.ready_queue.len() != 0 {
        assert(s.ready_queue.contains(s.ready_queue[0]));
        let next = s.ready_queue[0];
        assert(next != id && next != waiter);
        assert(completed.task(next) == s.task(next));
    }
    assert(released.heap.gather(gather_id) is Some ==> released.heap.entry(gather_id) is Some);
    let _ = released.left_task().vm.heap.gather(gather_id);
    assert forall|c: HeapId|
        vm.startable(c) && t.coroutine_id != Some(c) && released.heap.entry(
            c,
        ) is Some implies #[trigger] released.startable(c) by {
        assert(stored.data(c) == vm.heap.data(c));
    }
}

/// Every coroutine of a gather runs in a task of its own, which knows the place of its item.
pub proof fn gathered_tasks_know_their_places(
    s: SchedulerView,
    gather_id: HeapId,
    items: Seq<GatherItem>,
    results: Seq<Option<Value>>,
    n: int,
    k: int,
)
    requires
        0 <= k < n <= items.len(),
        s.tasks.len() + n < usize::MAX,
        items[k] is Coroutine,
    ensures
        ({
            let run = gather_started(s, gather_id, items, results, n);
            exists|i: int|
                0 <= i < run.task_ids.len() && (run.scheduler.task(
                    #[trigger] run.task_ids[i],
                ) matches Some(t) && t.coroutine_id == Some(items[k]->Coroutine_0) && t.gather_id
                    == Some(gather_id) && t.gather_result_idx == Some(k as usize))
        }),
    decreases n,
{
    let run = gather_started(s, gather_id, items, results, n);
    let before = gather_started(s, gather_id, items, results, n - 1);
    started_tasks_are_few(s, gather_id, items, results, n - 1);
    if k == n - 1 {
        let last = run.task_ids.len() - 1;
        assert(run.task_ids[last] == TaskId(before.scheduler.tasks.len() as usize));
    } else {
        gathered_tasks_know_their_places(s, gather_id, items, results, n - 1, k);
        let i = choose|i: int|
            0 <= i < before.task_ids.len() && (before.scheduler.task(
                #[trigger] before.task_ids[i],
            ) matches Some(t) && t.coroutine_id == Some(items[k]->Coroutine_0) && t.gather_id
                == Some(gather_id) && t.gather_result_idx == Some(k as usize));
        assert(run.task_ids[i] == before.task_ids[i]);
        assert(run.scheduler.task(run.task_ids[i]) == before.scheduler.task(before.task_ids[i]));
    }
}

proof fn started_tasks_are_few(
    s: SchedulerView,
    gather_id: HeapId,
    items: Seq<GatherItem>,
    results: Seq<Option<Value>>,
    n: int,
)
    requires
        0 <= n <= items.len(),
    ensures
        gather_started(s, gather_id, items, results, n).scheduler.tasks.len() <= s.tasks.len() + n,
    decreases n,
{
    if n > 0 {
        started_tasks_are_few(s, gather_id, items, results, n - 1);
    }
}

} // verus!
