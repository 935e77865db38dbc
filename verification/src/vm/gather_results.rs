//! What awaiting gives, item by item.

use vstd::prelude::*;
use crate::asyncio::{GatherItem, GatherView};
use crate::call_map::{entered_call_is_found, find_call, removed_call_is_gone};
use crate::error::{ErrorView, Fault};
use crate::frame::frames_released;
use crate::heap::DataView;
use crate::ids::{CallId, HeapId, TaskId};
use crate::list::ListView;
use crate::ownership::release_value_only_frees;
use crate::resource::ResourceTracker;
use crate::types::ExcType;
use crate::value::Value;
use crate::vm::async_exec::{all_results, gather_started, AwaitView};
use crate::vm::collection_results::is_new;
use crate::vm::futures::other_calls;
use crate::vm::queue_laws::{awaiting_gather_blocks, frames_only_free};
use crate::vm::scheduler::{SchedulerView, TaskStateView};
use crate::vm::task_laws::{gathered_tasks_know_their_places, task_result_has_its_place};
use crate::vm::VmView;

verus! {

/// Whether the items of a gather are these calls.
pub open spec fn gathers_calls(items: Seq<GatherItem>, calls: Seq<CallId>) -> bool {
    &&& items.len() == calls.len()
    &&& forall|i: int|
        0 <= i < items.len() ==> (#[trigger] items[i]) == GatherItem::ExternalFuture(calls[i])
    &&& forall|i: int, j: int|
        0 <= i < j < calls.len() ==> #[trigger] calls[i] != #[trigger] calls[j]
}

proof fn answered_calls_are_taken(
    s: SchedulerView,
    gather_id: HeapId,
    items: Seq<GatherItem>,
    calls: Seq<CallId>,
    values: Seq<Value>,
    results: Seq<Option<Value>>,
    n: int,
)
    requires
        0 <= n <= items.len(),
        gathers_calls(items, calls),
        values.len() == calls.len(),
        results.len() == calls.len(),
        forall|i: int|
            0 <= i < calls.len() ==> find_call(s.resolved, #[trigger] calls[i]) == Some(values[i]),
    ensures
        ({
            let run = gather_started(s, gather_id, items, results, n);
            &&& run.task_ids.len() == 0
            &&& run.pending_calls.len() == 0
            &&& run.results.len() == results.len()
            &&& forall|i: int| 0 <= i < n ==> (#[trigger] run.results[i]) == Some(values[i])
            &&& forall|i: int|
                n <= i < calls.len() ==> find_call(run.scheduler.resolved, #[trigger] calls[i])
                    == Some(values[i])
        }),
    decreases n,
{
    if n > 0 {
        answered_calls_are_taken(s, gather_id, items, calls, values, results, n - 1);
        let before = gather_started(s, gather_id, items, results, n - 1);
        assert(items[n - 1] == GatherItem::ExternalFuture(calls[n - 1]));
        assert(find_call(before.scheduler.resolved, calls[n - 1]) == Some(values[n - 1]));
        let run = gather_started(s, gather_id, items, results, n);
        assert forall|i: int| n <= i < calls.len() implies find_call(
            run.scheduler.resolved,
            #[trigger] calls[i],
        ) == Some(values[i]) by {
            assert(calls[n - 1] != calls[i]);
            removed_call_is_gone(before.scheduler.resolved, calls[n - 1], calls[i]);
        }
    }
}

/// Awaiting a gather of calls that have all been answered gives a new list of the answers, in
/// the order of the gathered calls.
pub proof fn gathered_answers_keep_their_order<T: ResourceTracker>(
    vm: VmView<T>,
    id: HeapId,
    g: GatherView,
    calls: Seq<CallId>,
    values: Seq<Value>,
)
    requires
        vm.stack.len() >= 1,
        vm.stack.last() == Value::Ref(id),
        vm.heap.data(id) == Some(DataView::GatherFuture(g)),
        g.waiter is None,
        gathers_calls(g.items, calls),
        g.results.len() == calls.len(),
        values.len() == calls.len(),
        vm.scheduler matches Some(s) && forall|i: int|
            0 <= i < calls.len() ==> find_call(s.resolved, #[trigger] calls[i]) == Some(values[i]),
        vm.awaited().result is Ok,
    ensures
        ({
            let done = vm.awaited();
            &&& done.result matches Ok(AwaitView::ValueReady(list))
            &&& done.vm.stack == vm.stack.drop_last()
            &&& done.vm.heap.entries.last()->0.data matches Some(DataView::List(l))
            &&& is_new(done.vm.heap, list, DataView::List(l))
            &&& l.items.len() == calls.len()
            &&& forall|i: int| 0 <= i < calls.len() ==> (#[trigger] l.items[i]) == values[i]
        }),
{
    let s = vm.scheduler->0;
    let n = g.items.len() as int;
    answered_calls_are_taken(s, id, g.items, calls, values, g.results, n);
    let run = gather_started(s, id, g.items, g.results, n);
    assert(all_results(run.results) is Some);
    assert(vm.awaited().vm.stack =~= vm.stack.drop_last());
}

/// Awaiting succeeds there if the memory for the list can be had.
pub proof fn gathered_answers_are_given<T: ResourceTracker>(
    vm: VmView<T>,
    id: HeapId,
    g: GatherView,
    calls: Seq<CallId>,
    values: Seq<Value>,
)
    requires
        vm.stack.len() >= 1,
        vm.stack.last() == Value::Ref(id),
        vm.heap.data(id) == Some(DataView::GatherFuture(g)),
        g.waiter is None,
        gathers_calls(g.items, calls),
        g.results.len() == calls.len(),
        values.len() == calls.len(),
        vm.scheduler matches Some(s) && forall|i: int|
            0 <= i < calls.len() ==> find_call(s.resolved, #[trigger] calls[i]) == Some(values[i]),
        vm.heap.tracker.admits(),
    ensures
        vm.awaited().result is Ok,
{
    let s = vm.scheduler->0;
    let n = g.items.len() as int;
    answered_calls_are_taken(s, id, g.items, calls, values, g.results, n);
    let run = gather_started(s, id, g.items, g.results, n);
    assert(all_results(run.results) is Some);
    let waiting = GatherView {
        items: g.items,
        task_ids: run.task_ids,
        results: Seq::empty(),
        waiter: s.current_task,
        pending_calls: run.pending_calls,
    };
    release_value_only_frees(vm.heap, Value::Ref(id));
    release_value_only_frees(
        vm.heap.set_data(id, Some(DataView::GatherFuture(waiting))),
        Value::Ref(id),
    );
}

proof fn started_items_have_places(
    s: SchedulerView,
    gather_id: HeapId,
    items: Seq<GatherItem>,
    results: Seq<Option<Value>>,
    n: int,
    k: int,
)
    requires
        0 <= k < n <= items.len(),
        results.len() == items.len(),
        s.tasks.len() + n < usize::MAX,
        forall|i: int, j: int|
            0 <= i < j < items.len() && (#[trigger] items[i]) is ExternalFuture
                ==> #[trigger] items[j] != items[i],
        items.len() <= usize::MAX,
    ensures
        ({
            let run = gather_started(s, gather_id, items, results, n);
            match items[k] {
                GatherItem::ExternalFuture(call) => match find_call(s.resolved, call) {
                    Some(v) => run.results[k] == Some(v),
                    None => {
                        &&& run.results[k] == results[k]
                        &&& run.pending_calls.contains(call)
                        &&& find_call(run.scheduler.gather_waiters, call) == Some(
                            (gather_id, k as usize),
                        )
                    },
                },
                GatherItem::Coroutine(_) => run.results[k] == results[k],
            }
        }),
    decreases n,
{
    started_items_keep_others(s, gather_id, items, results, n - 1, k);
    let before = gather_started(s, gather_id, items, results, n - 1);
    let run = gather_started(s, gather_id, items, results, n);
    if k < n - 1 {
        started_items_have_places(s, gather_id, items, results, n - 1, k);
        if let GatherItem::ExternalFuture(call) = items[k] {
            if before.pending_calls.contains(call) {
                let j = choose|j: int|
                    0 <= j < before.pending_calls.len() && before.pending_calls[j] == call;
                assert(run.pending_calls[j] == call);
            }
            if let GatherItem::ExternalFuture(last) = items[n - 1] {
                assert(items[k] != items[n - 1]);
                entered_call_is_found(
                    before.scheduler.gather_waiters,
                    last,
                    (gather_id, (n - 1) as usize),
                    call,
                );
            }
        }
    } else if let GatherItem::ExternalFuture(call) = items[k] {
        entered_call_is_found(
            before.scheduler.gather_waiters,
            call,
            (gather_id, k as usize),
            call,
        );
        if find_call(before.scheduler.resolved, call) is None {
            assert(run.pending_calls[before.pending_calls.len() as int] == call);
        }
    }
}

proof fn started_items_keep_others(
    s: SchedulerView,
    gather_id: HeapId,
    items: Seq<GatherItem>,
    results: Seq<Option<Value>>,
    n: int,
    k: int,
)
    requires
        0 <= n <= items.len(),
        0 <= k < items.len(),
        results.len() == items.len(),
        forall|i: int, j: int|
            0 <= i < j < items.len() && (#[trigger] items[i]) is ExternalFuture
                ==> #[trigger] items[j] != items[i],
    ensures
        ({
            let run = gather_started(s, gather_id, items, results, n);
            &&& run.results.len() == results.len()
            &&& n <= k ==> run.results[k] == results[k] && (items[k] matches
                GatherItem::ExternalFuture(call) ==> find_call(run.scheduler.resolved, call)
                == find_call(s.resolved, call))
        }),
    decreases n,
{
    if n > 0 {
        started_items_keep_others(s, gather_id, items, results, n - 1, k);
        let before = gather_started(s, gather_id, items, results, n - 1);
        if let GatherItem::ExternalFuture(last) = items[n - 1] {
            if n <= k {
                assert(items[n - 1] != items[k]);
                if let GatherItem::ExternalFuture(call) = items[k] {
                    removed_call_is_gone(before.scheduler.resolved, last, call);
                }
            }
        }
    }
}

/// A gather that is awaited and lacks something has each answer that is there already in the
/// place of its call, and waits for the other calls, each with its place. The task that awaits
/// it is blocked.
pub proof fn awaited_gather_knows_its_places<T: ResourceTracker>(
    vm: VmView<T>,
    id: HeapId,
    g: GatherView,
    task: TaskId,
    lacking: int,
    k: int,
)
    requires
        vm.runs_in_order(),
        vm.stack.len() >= 1,
        vm.stack.last() == Value::Ref(id),
        vm.heap.gather(id) == Some(g),
        g.waiter is None,
        0 <= k < g.items.len() <= usize::MAX,
        g.results.len() == g.items.len(),
        vm.scheduler matches Some(s) && s.current_task == Some(task) && s.tasks.len()
            + g.items.len() < usize::MAX,
        forall|i: int, j: int|
            0 <= i < j < g.items.len() && (#[trigger] g.items[i]) is ExternalFuture
                ==> #[trigger] g.items[j] != g.items[i],
        0 <= lacking < g.items.len(),
        g.items[lacking] matches GatherItem::ExternalFuture(call) ==> find_call(
            vm.scheduler->0.resolved,
            call,
        ) is None,
    ensures
        ({
            let after = vm.awaited().vm;
            &&& after.scheduler matches Some(s)
            &&& s.task(task) matches Some(t) && t.state == TaskStateView::BlockedOnGather(id)
            &&& after.heap.gather(id) matches Some(f) ==> {
                &&& f.waiter == Some(task)
                &&& f.items == g.items
                &&& match g.items[k] {
                    GatherItem::ExternalFuture(call) => match find_call(
                        vm.scheduler->0.resolved,
                        call,
                    ) {
                        Some(v) => f.results[k] == Some(v),
                        None => {
                            &&& f.results[k] == g.results[k]
                            &&& f.pending_calls.contains(call)
                            &&& find_call(s.gather_waiters, call) == Some((id, k as usize))
                        },
                    },
                    GatherItem::Coroutine(_) => f.results[k] == g.results[k]
                        && f.task_ids.len() > 0,
                }
            }
        }),
{
    let s = vm.scheduler->0;
    let n = g.items.len() as int;
    started_items_have_places(s, id, g.items, g.results, n, k);
    started_items_have_places(s, id, g.items, g.results, n, lacking);
    if g.items[lacking] is Coroutine {
        gathered_tasks_know_their_places(s, id, g.items, g.results, n, lacking);
    }
    if g.items[k] is Coroutine {
        gathered_tasks_know_their_places(s, id, g.items, g.results, n, k);
    }
    assert(vm.top(0) == vm.stack.last());
    awaiting_gather_blocks(vm, id, g, task);
}

/// Awaiting an empty gather gives a new empty list at once.
pub proof fn empty_gather_gives_an_empty_list<T: ResourceTracker>(vm: VmView<T>, id: HeapId, g: GatherView)
    requires
        vm.stack.len() >= 1,
        vm.stack.last() == Value::Ref(id),
        vm.heap.data(id) == Some(DataView::GatherFuture(g)),
        g.waiter is None,
        g.items.len() == 0,
        vm.awaited().result is Ok,
    ensures
        ({
            let done = vm.awaited();
            &&& done.result matches Ok(AwaitView::ValueReady(list))
            &&& done.vm.heap.entries.last()->0.data matches Some(DataView::List(l))
            &&& is_new(done.vm.heap, list, DataView::List(l))
            &&& l.items.len() == 0
        }),
{
}

/// A gather can be awaited once; what is no coroutine, gather or call cannot be awaited.
pub proof fn awaiting_is_refused<T: ResourceTracker>(vm: VmView<T>, id: HeapId)
    requires
        vm.stack.len() >= 1,
    ensures
        vm.stack.last() == Value::Ref(id) && (vm.heap.data(id) matches Some(
            DataView::GatherFuture(g),
        ) && g.waiter is Some) ==> vm.awaited().result == Err::<AwaitView, ErrorView>(
            ErrorView::fault(ExcType::RuntimeError, Fault::GatherReused),
        ),
        vm.stack.last() == Value::Ref(id) && !(vm.heap.data(id) matches Some(d) && (
        d is GatherFuture || d is Coroutine)) ==> crate::list_results::raises(
            vm.awaited().result,
            ExcType::TypeError,
        ),
        !(vm.stack.last() is Ref) && !(vm.stack.last() is ExternalFuture)
            ==> crate::list_results::raises(vm.awaited().result, ExcType::TypeError),
{
}

/// Whether an object is a list with these results in their places.
pub open spec fn lists_results(data: DataView, results: Seq<Option<Value>>) -> bool {
    &&& data matches DataView::List(l)
    &&& l.items.len() == results.len()
    &&& forall|i: int| 0 <= i < results.len() ==> Some(#[trigger] l.items[i]) == results[i]
}

/// Once the last task of a gather returns, the task that waits for it goes on with a new list of
/// all results on its stack, in the order of the items.
pub proof fn complete_gather_gives_its_results<T: ResourceTracker>(
    vm: VmView<T>,
    result: Value,
    id: TaskId,
    gather_id: HeapId,
    g: GatherView,
    waiter: TaskId,
    place: usize,
)
    requires
        vm.scheduler matches Some(s) && s.current_task == Some(id) && (s.task(id) matches Some(t)
            && t.gather_id == Some(gather_id) && t.gather_result_idx == Some(place)) && (s.task(
            waiter,
        ) matches Some(w) && w.frames.len() != 0 && w.unblocked_by is None),
        waiter != id,
        vm.heap.gather(gather_id) == Some(g),
        g.waiter == Some(waiter),
        g.pending_calls.len() == 0,
        place < g.results.len(),
        forall|i: int|
            0 <= i < g.results.len() && i != place ==> (#[trigger] g.results[i]) is Some,
        forall|i: int|
            0 <= i < g.task_ids.len() && (#[trigger] g.task_ids[i]) != id ==> (
            vm.scheduler->0.task(g.task_ids[i]) matches Some(t) && t.state is Completed),
        vm.heap.tracker.admits(),
        vm.heap.entries.len() < usize::MAX,
    ensures
        ({
            let done = vm.task_completed(result);
            let w = vm.scheduler->0.task(waiter)->0;
            let list = HeapId(vm.heap.entries.len() as usize);
            &&& done.result == Ok::<AwaitView, ErrorView>(AwaitView::FramePushed)
            &&& done.vm.frames == w.frames
            &&& done.vm.scheduler matches Some(after) && after.current_task == Some(waiter)
            &&& done.vm.stack == w.stack.push(Value::Ref(list))
            &&& done.vm.heap.data(list) matches Some(d) ==> lists_results(
                d,
                g.results.update(place as int, Some(result)),
            )
        }),
{
    let s = vm.scheduler->0;
    let t = s.task(id)->0;
    let completed = s.task_in_state(id, TaskStateView::Completed(result));
    let returned = vm.heap.coroutine_completed(t.coroutine_id);
    let counted = returned.inc_value(result);
    assert(counted.gather(gather_id) == Some(g));
    task_result_has_its_place(counted, gather_id, g, place, result);
    let stored = counted.result_stored(gather_id, Some(place), result);
    let full = g.results.update(place as int, Some(result));
    let kept = stored.gather(gather_id)->0;
    assert(kept.results == full);
    assert(completed.all_finished(g.task_ids)) by {
        assert forall|i: int| 0 <= i < g.task_ids.len() implies (completed.task(
            #[trigger] g.task_ids[i],
        ) matches Some(t) && t.state.finished()) by {
            if g.task_ids[i] != id {
                assert(completed.task(g.task_ids[i]) == s.task(g.task_ids[i]));
            }
        }
    }
    no_failure_among(completed, s, g.task_ids, id, result, g.task_ids.len() as int);
    let values = all_results(full)->0;
    assert(all_results(full) is Some);
    let ready = vm.with_heap(stored).with_scheduler(completed);
    let emptied = stored.with_gather(gather_id, GatherView { results: Seq::empty(), ..kept });
    let made = emptied.made(DataView::List(ListView::of(values)));
    let list = HeapId(vm.heap.entries.len() as usize);
    assert(emptied.entries.len() == vm.heap.entries.len());
    assert(made.result == Ok::<Value, crate::resource::ResourceError>(Value::Ref(list)));
    let h1 = made.heap.release(result);
    let h2 = h1.release(Value::Ref(gather_id));
    release_value_only_frees(made.heap, result);
    release_value_only_frees(h1, Value::Ref(gather_id));
    frames_only_free(h2, vm.namespaces, vm.frames);
    let done = vm.task_completed(result);
    assert(done.vm.heap == frames_released(h2, vm.namespaces, vm.frames).0);
    let _ = (done.vm.heap.entry(list), h2.entry(list), h1.entry(list));
    assert(completed.task(waiter) == s.task(waiter));
}

/// Once the last call of a gather is answered, a task that waits for it and has been put away
/// gets a new list of all results on its stack, in the order of the items.
pub proof fn last_answer_completes_the_gather<T: ResourceTracker>(
    vm: VmView<T>,
    call: CallId,
    v: Value,
    gather_id: HeapId,
    g: GatherView,
    waiter: TaskId,
    place: usize,
)
    requires
        vm.scheduler matches Some(s) && find_call(s.gather_waiters, call) == Some(
            (gather_id, place),
        ) && s.current_task != Some(waiter) && s.task(waiter) is Some && s.all_finished(g.task_ids),
        waiter != TaskId::main_task() || vm.frames.len() == 0,
        vm.heap.gather(gather_id) == Some(g),
        g.waiter == Some(waiter),
        other_calls(g.pending_calls, call).len() == 0,
        place < g.results.len(),
        forall|i: int|
            0 <= i < g.results.len() && i != place ==> (#[trigger] g.results[i]) is Some,
        vm.heap.tracker.admits(),
        vm.heap.entries.len() < usize::MAX,
    ensures
        ({
            let after = vm.call_answered(call, v);
            let w = vm.scheduler->0.task(waiter)->0;
            let list = HeapId(vm.heap.entries.len() as usize);
            &&& after.stack == vm.stack
            &&& after.scheduler matches Some(s)
            &&& s.task(waiter) matches Some(t)
            &&& t.stack == w.stack.push(Value::Ref(list))
            &&& t.state is Ready
            &&& s.ready_queue == vm.scheduler->0.ready_queue.push(waiter)
            &&& after.heap.data(list) matches Some(d) ==> lists_results(
                d,
                g.results.update(place as int, Some(v)),
            )
        }),
{
    let s = vm.scheduler->0;
    let full = g.results.update(place as int, Some(v));
    let rest = s.gather_forgotten(call).answered(call);
    assert(forall|x: TaskId| rest.task(x) == s.task(x));
    let held = GatherView {
        results: full,
        pending_calls: other_calls(g.pending_calls, call),
        ..g
    };
    let placed = vm.heap.with_gather(gather_id, held);
    assert(all_results(full) is Some);
    let values = all_results(full)->0;
    let made = placed.with_gather(gather_id, GatherView { results: Seq::empty(), ..held }).made(
        DataView::List(ListView::of(values)),
    );
    let list = HeapId(vm.heap.entries.len() as usize);
    assert(made.result == Ok::<Value, crate::resource::ResourceError>(Value::Ref(list)));
    release_value_only_frees(made.heap, Value::Ref(gather_id));
    let after = vm.call_answered(call, v);
    assert(after.heap == made.heap.release(Value::Ref(gather_id)));
    let _ = (after.heap.entry(list), made.heap.entry(list));
}

/// Once the last call of a gather is answered, the main task that waits for it and has not been
/// put away gets a new list of all results on the stack of the machine.
pub proof fn last_answer_reaches_the_running_task<T: ResourceTracker>(
    vm: VmView<T>,
    call: CallId,
    v: Value,
    gather_id: HeapId,
    g: GatherView,
    place: usize,
)
    requires
        vm.scheduler matches Some(s) && find_call(s.gather_waiters, call) == Some(
            (gather_id, place),
        ) && s.all_finished(g.task_ids),
        vm.frames.len() != 0,
        vm.heap.gather(gather_id) == Some(g),
        g.waiter == Some(TaskId::main_task()),
        other_calls(g.pending_calls, call).len() == 0,
        place < g.results.len(),
        forall|i: int|
            0 <= i < g.results.len() && i != place ==> (#[trigger] g.results[i]) is Some,
        vm.heap.tracker.admits(),
        vm.heap.entries.len() < usize::MAX,
    ensures
        ({
            let after = vm.call_answered(call, v);
            let list = HeapId(vm.heap.entries.len() as usize);
            &&& after.stack == vm.stack.push(Value::Ref(list))
            &&& after.frames == vm.frames
            &&& vm.scheduler->0.task(TaskId::main_task()) is Some ==> (
            after.scheduler matches Some(s) && (s.task(TaskId::main_task()) matches Some(t)
                && t.state is Ready) && s.ready_queue == vm.scheduler->0.ready_queue)
            &&& after.heap.data(list) matches Some(d) ==> lists_results(
                d,
                g.results.update(place as int, Some(v)),
            )
        }),
{
    let s = vm.scheduler->0;
    let full = g.results.update(place as int, Some(v));
    let rest = s.gather_forgotten(call).answered(call);
    assert(forall|x: TaskId| rest.task(x) == s.task(x));
    let held = GatherView {
        results: full,
        pending_calls: other_calls(g.pending_calls, call),
        ..g
    };
    let placed = vm.heap.with_gather(gather_id, held);
    assert(all_results(full) is Some);
    let values = all_results(full)->0;
    let made = placed.with_gather(gather_id, GatherView { results: Seq::empty(), ..held }).made(
        DataView::List(ListView::of(values)),
    );
    let list = HeapId(vm.heap.entries.len() as usize);
    assert(made.result == Ok::<Value, crate::resource::ResourceError>(Value::Ref(list)));
    release_value_only_frees(made.heap, Value::Ref(gather_id));
    let after = vm.call_answered(call, v);
    assert(after.heap == made.heap.release(Value::Ref(gather_id)));
    let _ = (after.heap.entry(list), made.heap.entry(list));
}

/// The calls a gather still waits for once one of them is answered are its other calls, in their
/// order.
pub proof fn other_calls_are_awaited_still(calls: Seq<CallId>, call: CallId)
    ensures
        !other_calls(calls, call).contains(call),
        forall|x: CallId|
            x != call ==> #[trigger] other_calls(calls, call).contains(x) == calls.contains(x),
        !calls.contains(call) ==> other_calls(calls, call) == calls,
    decreases calls.len(),
{
    if calls.len() > 0 {
        let rest = calls.drop_last();
        other_calls_are_awaited_still(rest, call);
        assert(rest.push(calls.last()) =~= calls);
        assert(forall|x: CallId| calls.contains(x) == (rest.contains(x) || x == calls.last())) by {
            assert(calls[calls.len() - 1] == calls.last());
            assert(forall|k: int| 0 <= k < rest.len() ==> rest[k] == calls[k]);
            assert forall|x: CallId| rest.contains(x) implies calls.contains(x) by {
                let k = choose|k: int| 0 <= k < rest.len() && rest[k] == x;
                assert(calls[k] == x);
            }
        }
        let before = other_calls(rest, call);
        assert forall|x: CallId| x != call implies #[trigger] other_calls(calls, call).contains(x)
            == calls.contains(x) by {
            assert(before.contains(x) == rest.contains(x));
            if calls.last() != call {
                let longer = before.push(calls.last());
                assert(longer[before.len() as int] == calls.last());
                if before.contains(x) {
                    let k = choose|k: int| 0 <= k < before.len() && before[k] == x;
                    assert(longer[k] == x);
                }
            }
        }
    }
}

proof fn no_failure_among(
    after: SchedulerView,
    s: SchedulerView,
    ids: Seq<TaskId>,
    id: TaskId,
    result: Value,
    n: int,
)
    requires
        0 <= n <= ids.len(),
        after == s.task_in_state(id, TaskStateView::Completed(result)),
        s.task(id) is Some,
        forall|i: int|
            0 <= i < ids.len() && (#[trigger] ids[i]) != id ==> (s.task(ids[i]) matches Some(t)
                && t.state is Completed),
    ensures
        after.first_failed(ids, n) is None,
    decreases n,
{
    if n > 0 {
        no_failure_among(after, s, ids, id, result, n - 1);
        if ids[n - 1] != id {
            assert(after.task(ids[n - 1]) == s.task(ids[n - 1]));
        }
    }
}

proof fn first_failure_is_found(s: SchedulerView, ids: Seq<TaskId>, n: int, k: int, error: ErrorView)
    requires
        0 <= k < ids.len(),
        0 <= n <= ids.len(),
        s.task(ids[k]) matches Some(t) && t.state == TaskStateView::Failed(error),
        forall|i: int|
            0 <= i < k ==> (s.task(#[trigger] ids[i]) matches Some(t) && t.state is Completed),
    ensures
        n <= k ==> s.first_failed(ids, n) is None,
        n > k ==> s.first_failed(ids, n) == Some(ids[k]),
    decreases n,
{
    if n > 0 {
        first_failure_is_found(s, ids, n - 1, k, error);
        if n - 1 < k {
            assert(s.task(ids[n - 1]) matches Some(t) && t.state is Completed);
        }
    }
}

/// If a task of a gather has failed, the task that waits for the gather goes on with its error
/// once the last task returns: that of the first one that failed.
pub proof fn failed_task_fails_the_gather<T: ResourceTracker>(
    vm: VmView<T>,
    result: Value,
    id: TaskId,
    gather_id: HeapId,
    g: GatherView,
    waiter: TaskId,
    place: usize,
    k: int,
    error: ErrorView,
)
    requires
        vm.scheduler matches Some(s) && s.current_task == Some(id) && (s.task(id) matches Some(t)
            && t.gather_id == Some(gather_id) && t.gather_result_idx == Some(place)) && (s.task(
            waiter,
        ) matches Some(w) && w.frames.len() != 0),
        waiter != id,
        vm.heap.gather(gather_id) == Some(g),
        g.waiter == Some(waiter),
        g.pending_calls.len() == 0,
        place < g.results.len(),
        0 <= k < g.task_ids.len(),
        g.task_ids[k] != id,
        g.task_ids[k] != waiter,
        vm.scheduler->0.task(g.task_ids[k]) matches Some(t) && t.state == TaskStateView::Failed(
            error,
        ),
        forall|i: int|
            0 <= i < g.task_ids.len() && (#[trigger] g.task_ids[i]) != id ==> (
            vm.scheduler->0.task(g.task_ids[i]) matches Some(t) && t.state.finished() && (i < k
                ==> t.state is Completed)),
    ensures
        ({
            let done = vm.task_completed(result);
            &&& done.result == Err::<AwaitView, ErrorView>(error)
            &&& done.vm.scheduler matches Some(after) && after.current_task == Some(waiter)
            &&& done.vm.frames == vm.scheduler->0.task(waiter)->0.frames
        }),
{
    let s = vm.scheduler->0;
    let t = s.task(id)->0;
    let completed = s.task_in_state(id, TaskStateView::Completed(result));
    let counted = vm.heap.coroutine_completed(t.coroutine_id).inc_value(result);
    assert(counted.gather(gather_id) == Some(g));
    task_result_has_its_place(counted, gather_id, g, place, result);
    let n = g.task_ids.len() as int;
    assert forall|i: int| 0 <= i < n implies (completed.task(
        #[trigger] g.task_ids[i],
    ) matches Some(t) && t.state.finished()) by {
        if g.task_ids[i] != id {
            assert(completed.task(g.task_ids[i]) == s.task(g.task_ids[i]));
        }
    }
    assert forall|i: int| 0 <= i < k implies (completed.task(#[trigger] g.task_ids[i]) matches Some(
        t,
    ) && t.state is Completed) by {
        if g.task_ids[i] != id {
            assert(completed.task(g.task_ids[i]) == s.task(g.task_ids[i]));
        }
    }
    assert(completed.task(g.task_ids[k]) == s.task(g.task_ids[k]));
    first_failure_is_found(completed, g.task_ids, n, k, error);
    assert(completed.task(waiter) == s.task(waiter));
    let taken = completed.failure_taken(g.task_ids[k]);
    assert(taken.task(waiter) == s.task(waiter));
}

} // verus!
