//! The host's answers to calls.

use vstd::prelude::*;
use crate::asyncio::{GatherFuture, GatherView};
use crate::call_map::{calls_of, find_call, with_call};
use crate::error::{ErrorView, InvalidInputError, RunError, RunResult};
use crate::heap::DataView;
use crate::ids::{CallId, HeapId, TaskId};
use crate::list::{allocate_list, ListView};
use crate::object::{imported, MontyObject};
use crate::resource::ResourceTracker;
use crate::value::Value;
use crate::vm::async_exec::{all_results, unwrap_results, with_result};
use crate::vm::scheduler::{
    blocked_task, PendingCallData, Scheduler, SchedulerView, Task, TaskState, TaskStateView, TaskView,
};
use crate::vm::task_end::{all_cancelled, cancel_all};
use crate::vm::{VmStep, VmView, VM};

verus! {

/// The calls except for one.
pub open spec fn other_calls(calls: Seq<CallId>, call: CallId) -> Seq<CallId>
    decreases calls.len(),
{
    if calls.len() == 0 {
        Seq::empty()
    } else {
        let before = other_calls(calls.drop_last(), call);
        if calls.last() == call {
            before
        } else {
            before.push(calls.last())
        }
    }
}

impl SchedulerView {
    /// The scheduler once the first `n` of these calls are neither pending nor waited for by a
    /// gather.
    pub open spec fn calls_forgotten(self, calls: Seq<CallId>, n: int) -> SchedulerView
        decreases n,
    {
        if n <= 0 {
            self
        } else {
            self.calls_forgotten(calls, n - 1).gather_forgotten(calls[n - 1]).answered(
                calls[n - 1],
            )
        }
    }

    /// The scheduler with a value on top of the stack of a task that does not run.
    pub open spec fn value_left(self, id: TaskId, v: Value) -> SchedulerView {
        match self.task(id) {
            None => self,
            Some(t) => self.with_task(id, TaskView { stack: t.stack.push(v), ..t }),
        }
    }

    /// Whether the task that made a call has failed, so that its answer is of no use.
    pub open spec fn creator_failed(self, call: CallId) -> bool {
        find_call(self.pending_calls, call) matches Some(d) && self.task(d.creator_task) matches Some(
            t,
        ) && t.state is Failed
    }
}

/// What an answer of the host leads to.
pub struct Answered<T> {
    pub vm: VmView<T>,
    pub result: Result<(), InvalidInputError>,
}

impl<T: ResourceTracker> VmView<T> {
    /// The machine once the task that waits for a complete gather has the list of results on
    /// its stack and is ready.
    ///
    /// The frames of that task may not have been put away; its list goes onto the stack of the
    /// machine then, and it is not queued.
    pub open spec fn gather_delivered(self, gather_id: HeapId, g: GatherView, waiter: TaskId) -> VmView<
        T,
    > {
        match all_results(g.results) {
            None => self,
            Some(values) => {
                let made = self.heap.with_gather(
                    gather_id,
                    GatherView { results: Seq::empty(), ..g },
                ).made(DataView::List(ListView::of(values)));
                let vm = self.with_heap(made.heap);
                match made.result {
                    Err(_) => vm,
                    Ok(list) => {
                        let freed = vm.release(Value::Ref(gather_id));
                        let s = self.scheduler_or_new();
                        if self.frames.len() != 0 && (waiter == TaskId::main_task()
                            || s.current_task == Some(waiter)) {
                            freed.pushed(list).with_scheduler(
                                s.task_in_state(waiter, TaskStateView::Ready),
                            )
                        } else {
                            freed.with_scheduler(s.value_left(waiter, list).made_ready(waiter))
                        }
                    },
                }
            },
        }
    }

    /// The machine once a call has a result: a gather that waits for it has it in its place
    /// and, if nothing else is lacking, is delivered; otherwise the task that waits for the
    /// call is ready, or the result is kept until the call is awaited.
    pub open spec fn call_answered(self, call: CallId, v: Value) -> VmView<T> {
        let s = self.scheduler_or_new();
        match find_call(s.gather_waiters, call) {
            None => self.with_scheduler(s.gather_forgotten(call).resolved_call(call, v)),
            Some((gather_id, idx)) => {
                let rest = s.gather_forgotten(call).answered(call);
                match self.heap.gather(gather_id) {
                    None => self.with_scheduler(rest),
                    Some(before) => {
                        let g = GatherView {
                            results: with_result(before.results, idx as int, v),
                            pending_calls: other_calls(before.pending_calls, call),
                            ..before
                        };
                        let vm = self.with_heap(
                            self.heap.with_gather(gather_id, g),
                        ).with_scheduler(rest);
                        if g.pending_calls.len() == 0 && rest.all_finished(g.task_ids) {
                            match g.waiter {
                                Some(w) => vm.gather_delivered(gather_id, g, w),
                                None => vm,
                            }
                        } else {
                            vm
                        }
                    },
                }
            },
        }
    }

    /// What a value as the answer to a call leads to. If the task that made the call has
    /// failed, the answer is ignored.
    pub open spec fn future_resolved(self, call: CallId, object: MontyObject) -> Answered<T> {
        if self.scheduler_or_new().creator_failed(call) {
            Answered { vm: self, result: Ok(()) }
        } else {
            let taken = imported(self.heap, self.interns, object);
            let vm = self.with_heap(taken.heap);
            match taken.result {
                Err(e) => Answered { vm, result: Err(e) },
                Ok(v) => Answered { vm: vm.call_answered(call, v), result: Ok(()) },
            }
        }
    }

    /// The machine once a call has failed.
    ///
    /// If a gather waits for the call, it is given up: its other calls are forgotten, its
    /// tasks are cancelled, and the task that waits for it has failed. Otherwise the task that
    /// waits for the call has failed, and the other tasks of its gather are cancelled.
    pub open spec fn future_failed(self, call: CallId, error: ErrorView) -> VmView<T> {
        let s = self.scheduler_or_new();
        let rest = s.gather_forgotten(call);
        match find_call(s.gather_waiters, call) {
            Some((gather_id, _)) => match self.heap.gather(gather_id) {
                None => self.with_scheduler(rest.answered(call)),
                Some(g) => {
                    let others = other_calls(g.pending_calls, call);
                    let vm = self.with_parts(
                        all_cancelled(
                            rest.answered(call).calls_forgotten(others, others.len() as int),
                            self.heap.with_gather(
                                gather_id,
                                GatherView {
                                    pending_calls: Seq::empty(),
                                    task_ids: Seq::empty(),
                                    ..g
                                },
                            ),
                            self.namespaces,
                            g.task_ids,
                            None,
                            g.task_ids.len() as int,
                        ),
                    );
                    match g.waiter {
                        None => vm,
                        Some(w) => vm.with_scheduler(
                            vm.scheduler_or_new().with_failure(w, error),
                        ).release(Value::Ref(gather_id)),
                    }
                },
            },
            None => {
                let failed = rest.failed_call(call, error);
                match blocked_task(s.tasks, call, s.tasks.len() as int) {
                    None => self.with_scheduler(failed),
                    Some(id) => match s.tasks[id.0 as int].gather_id {
                        None => self.with_scheduler(failed),
                        Some(gather_id) => match self.heap.gather(gather_id) {
                            None => self.with_scheduler(failed),
                            Some(g) => self.with_parts(
                                all_cancelled(
                                    failed,
                                    self.heap.with_gather(
                                        gather_id,
                                        GatherView { task_ids: Seq::empty(), ..g },
                                    ),
                                    self.namespaces,
                                    g.task_ids,
                                    Some(id),
                                    g.task_ids.len() as int,
                                ),
                            ),
                        },
                    },
                }
            },
        }
    }

    /// The machine once a call of the running task is pending.
    pub open spec fn call_pending(self, call: CallId) -> VmView<T> {
        let s = self.scheduler_or_new();
        self.with_scheduler(
            SchedulerView {
                pending_calls: with_call(
                    s.pending_calls,
                    call,
                    PendingCallData {
                        creator_task: match s.current_task {
                            Some(id) => id,
                            None => TaskId::main_task(),
                        },
                    },
                ),
                ..s
            },
        )
    }

    /// The result that the running task has been waiting for.
    pub open spec fn awaited_result(self) -> Option<Value> {
        match self.scheduler {
            None => None,
            Some(s) => match s.current_task {
                None => None,
                Some(id) => s.waiting_result(id),
            },
        }
    }

    /// The machine once the running task has the result it has been waiting for on its stack
    /// and is out of the queue.
    pub open spec fn result_pushed(self) -> VmView<T> {
        match self.scheduler {
            None => self,
            Some(s) => match s.current_task {
                None => self,
                Some(id) => match s.waiting_result(id) {
                    None => self.with_scheduler(s.result_picked_up(id)),
                    Some(v) => self.with_scheduler(
                        s.result_picked_up(id).without_queued(id),
                    ).pushed(v),
                },
            },
        }
    }

    /// The machine going on with the next task in the queue, if it has no frames; the result
    /// says whether it does.
    pub open spec fn ready_task_loaded(self) -> VmStep<bool, T> {
        let stays = VmStep { vm: self, result: Ok(false) };
        if self.frames.len() != 0 {
            stays
        } else {
            match self.scheduler {
                None => stays,
                Some(s) => match s.next_ready() {
                    None => stays,
                    Some(id) => {
                        let loaded = self.with_scheduler(
                            s.dequeued().running(Some(id)),
                        ).task_loaded(id);
                        VmStep {
                            vm: loaded.vm,
                            result: match loaded.result {
                                Ok(()) => Ok(true),
                                Err(e) => Err(e),
                            },
                        }
                    },
                },
            }
        }
    }

    /// The calls the host has not answered.
    pub open spec fn pending_calls(self) -> Seq<CallId> {
        match self.scheduler {
            None => Seq::empty(),
            Some(s) => calls_of(s.pending_calls),
        }
    }

    /// The error the running task has failed with.
    pub open spec fn current_failure(self) -> Option<ErrorView> {
        match self.scheduler {
            None => None,
            Some(s) => match s.current_task {
                None => None,
                Some(id) => s.failure(id),
            },
        }
    }

    /// The machine once the error of the running task has been taken from it.
    pub open spec fn current_failure_taken(self) -> VmView<T> {
        match self.scheduler {
            None => self,
            Some(s) => match s.current_task {
                None => self,
                Some(id) => self.with_scheduler(s.failure_taken(id)),
            },
        }
    }
}

/// The calls except for one.
fn keep_other_calls(calls: &Vec<CallId>, call: CallId) -> (r: Vec<CallId>)
    ensures
        r@ == other_calls(calls@, call),
{
    let mut kept: Vec<CallId> = Vec::new();
    let mut i: usize = 0;
    while i < calls.len()
        invariant
            0 <= i <= calls@.len(),
            kept@ == other_calls(calls@.take(i as int), call),
        decreases calls@.len() - i,
    {
        assert(calls@.take(i + 1).drop_last() =~= calls@.take(i as int));
        if calls[i] != call {
            kept.push(calls[i]);
        }
        i = i + 1;
    }
    assert(calls@.take(i as int) =~= calls@);
    kept
}

impl Scheduler {
    /// Forgets calls: they are neither pending nor waited for by a gather.
    fn forget_calls(&mut self, calls: &Vec<CallId>)
        ensures
            final(self)@ == old(self)@.calls_forgotten(calls@, calls@.len() as int),
    {
        let mut i: usize = 0;
        while i < calls.len()
            invariant
                0 <= i <= calls@.len(),
                self@ == old(self)@.calls_forgotten(calls@, i as int),
            decreases calls@.len() - i,
        {
            let _ = self.take_gather_waiter(calls[i]);
            self.remove_pending_call(calls[i]);
            i = i + 1;
        }
    }

    /// Leaves a value on the stack of a task that does not run.
    fn leave_value(&mut self, id: TaskId, v: Value)
        ensures
            final(self)@ == old(self)@.value_left(id, v),
    {
        let ghost before = self@;
        if let Some(task) = self.take_task_out(id) {
            let mut task: Task = task;
            let ghost said = TaskView { stack: task@.stack.push(v), ..task@ };
            task.stack.push(v);
            assert(task@ =~= said);
            self.put_task(id, task);
            assert(self@.tasks =~= before.value_left(id, v).tasks);
        }
    }
}

impl<'a, T: ResourceTracker> VM<'a, T> {
    /// Hands the results of a complete gather to the task that waits for it.
    fn deliver_gather(&mut self, gather_id: HeapId, waiter: TaskId)
        requires
            old(self).scheduler is Some,
            old(self)@.heap.gather(gather_id) is Some,
        ensures
            final(self)@ == old(self)@.gather_delivered(
                gather_id,
                old(self)@.heap.gather(gather_id)->0,
                waiter,
            ),
            final(self).scheduler is Some,
    {
        let ghost before = self.heap@;
        let mut values: Vec<Value> = Vec::new();
        if let Some(g) = self.heap.take_gather(gather_id) {
            let mut g: GatherFuture = g;
            match unwrap_results(&g.results) {
                None => {
                    self.heap.put_gather(gather_id, g);
                    assert(self.heap@.entries =~= before.entries);
                    return;
                },
                Some(v) => {
                    values = v;
                    let ghost said = GatherView { results: Seq::empty(), ..g@ };
                    g.results = Vec::new();
                    assert(g@ =~= said);
                    self.heap.put_gather(gather_id, g);
                    assert(self.heap@.entries =~= before.with_gather(gather_id, said).entries);
                },
            }
        }
        if let Ok(list) = allocate_list(values, &mut self.heap) {
            Value::Ref(gather_id).drop_with_heap(&mut self.heap);
            let runs: bool = match &self.scheduler {
                Some(s) => s.current_task_id() == Some(waiter),
                None => false,
            };
            if self.frames.len() != 0 && (waiter.is_main() || runs) {
                self.push(list);
                if let Some(s) = &mut self.scheduler {
                    s.set_state(waiter, TaskState::Ready);
                }
            } else {
                if let Some(s) = &mut self.scheduler {
                    s.leave_value(waiter, list);
                    s.make_ready(waiter);
                }
            }
        }
    }

    /// Gives a call its result.
    fn answer_call(&mut self, call: CallId, v: Value)
        requires
            old(self).scheduler is Some,
        ensures
            final(self)@ == old(self)@.call_answered(call, v),
    {
        let ghost before = self.heap@;
        let mut found: Option<(HeapId, usize)> = None;
        if let Some(s) = &mut self.scheduler {
            found = s.take_gather_waiter(call);
            if found.is_some() {
                s.remove_pending_call(call);
            } else {
                s.resolve(call, v);
            }
        }
        if let Some((gather_id, idx)) = found {
            if let Some(g) = self.heap.take_gather(gather_id) {
                let mut g: GatherFuture = g;
                let ghost said = GatherView {
                    results: with_result(g@.results, idx as int, v),
                    pending_calls: other_calls(g@.pending_calls, call),
                    ..g@
                };
                if idx < g.results.len() {
                    g.results[idx] = Some(v);
                }
                g.pending_calls = keep_other_calls(&g.pending_calls, call);
                assert(g@ =~= said);
                let waiter: Option<TaskId> = g.waiter;
                let mut complete: bool = g.pending_calls.len() == 0;
                if let Some(s) = &self.scheduler {
                    complete = complete && s.are_finished(&g.task_ids);
                }
                self.heap.put_gather(gather_id, g);
                assert(self.heap@.entries =~= before.with_gather(gather_id, said).entries);
                if complete {
                    if let Some(w) = waiter {
                        self.deliver_gather(gather_id, w);
                    }
                }
            }
        }
    }

    /// Answers a call with a value.
    ///
    /// If the task that made the call has been cancelled or has failed, the answer is ignored.
    pub fn resolve_future(&mut self, call_id: u32, obj: MontyObject) -> (r: Result<
        (),
        InvalidInputError,
    >)
        requires
            old(self)@.scheduler is Some,
        ensures
            ({
                let said = old(self)@.future_resolved(CallId(call_id), obj);
                final(self)@ == said.vm && r == said.result
            }),
    {
        let call: CallId = CallId::new(call_id);
        let mut ignored: bool = false;
        if let Some(s) = &self.scheduler {
            if let Some(creator) = s.get_pending_call_creator(call) {
                ignored = s.is_task_failed(creator);
            }
        }
        if ignored {
            return Ok(());
        }
        match obj.to_value(&mut self.heap, self.interns) {
            Err(e) => Err(e),
            Ok(v) => {
                self.answer_call(call, v);
                Ok(())
            },
        }
    }

    /// Lets a call fail.
    pub fn fail_future(&mut self, call_id: u32, error: RunError)
        ensures
            final(self)@ == old(self)@.future_failed(CallId(call_id), error@),
    {
        let call: CallId = CallId::new(call_id);
        self.get_or_create_scheduler();
        let ghost before = self.heap@;
        let mut found: Option<(HeapId, usize)> = None;
        if let Some(s) = &mut self.scheduler {
            found = s.take_gather_waiter(call);
        }
        match found {
            Some((gather_id, _)) => {
                if let Some(s) = &mut self.scheduler {
                    s.remove_pending_call(call);
                }
                if let Some(g) = self.heap.take_gather(gather_id) {
                    let mut g: GatherFuture = g;
                    let ghost said = GatherView {
                        pending_calls: Seq::empty(),
                        task_ids: Seq::empty(),
                        ..g@
                    };
                    let others: Vec<CallId> = keep_other_calls(&g.pending_calls, call);
                    let waiter: Option<TaskId> = g.waiter;
                    let mut task_ids: Vec<TaskId> = Vec::new();
                    std::mem::swap(&mut task_ids, &mut g.task_ids);
                    g.pending_calls = Vec::new();
                    assert(g@ =~= said);
                    self.heap.put_gather(gather_id, g);
                    assert(self.heap@.entries =~= before.with_gather(gather_id, said).entries);
                    if let Some(s) = &mut self.scheduler {
                        s.forget_calls(&others);
                        cancel_all(s, &mut self.heap, &mut self.namespaces, &task_ids, None);
                    }
                    if let Some(w) = waiter {
                        if let Some(s) = &mut self.scheduler {
                            s.fail_task(w, error);
                        }
                        Value::Ref(gather_id).drop_with_heap(&mut self.heap);
                    }
                }
            },
            None => {
                let mut failed: Option<(TaskId, Option<HeapId>)> = None;
                if let Some(s) = &mut self.scheduler {
                    failed = s.fail_for_call(call, error);
                }
                if let Some((id, Some(gather_id))) = failed {
                    if let Some(g) = self.heap.take_gather(gather_id) {
                        let mut g: GatherFuture = g;
                        let ghost said = GatherView { task_ids: Seq::empty(), ..g@ };
                        let mut task_ids: Vec<TaskId> = Vec::new();
                        std::mem::swap(&mut task_ids, &mut g.task_ids);
                        assert(g@ =~= said);
                        self.heap.put_gather(gather_id, g);
                        assert(self.heap@.entries =~= before.with_gather(gather_id, said).entries);
                        if let Some(s) = &mut self.scheduler {
                            cancel_all(
                                s,
                                &mut self.heap,
                                &mut self.namespaces,
                                &task_ids,
                                Some(id),
                            );
                        }
                    }
                }
            },
        }
    }

    /// Notes that a call of the running task is pending.
    pub fn add_pending_call(&mut self, call_id: CallId)
        ensures
            final(self)@ == old(self)@.call_pending(call_id),
    {
        self.get_or_create_scheduler();
        if let Some(s) = &mut self.scheduler {
            let creator_task: TaskId = match s.current_task_id() {
                Some(id) => id,
                None => TaskId(0),
            };
            s.add_pending_call(call_id, PendingCallData { creator_task });
        }
    }

    /// Pushes the result the running task has been waiting for; says whether there is one.
    pub fn prepare_main_task_after_resolve(&mut self) -> (r: bool)
        ensures
            r == old(self)@.awaited_result() is Some,
            final(self)@ == old(self)@.result_pushed(),
    {
        let mut found: Option<Value> = None;
        if let Some(s) = &mut self.scheduler {
            if let Some(id) = s.current_task_id() {
                found = s.take_resolved_for_task(id);
                if found.is_some() {
                    s.remove_from_ready_queue(id);
                }
            }
        }
        match found {
            None => false,
            Some(v) => {
                self.push(v);
                true
            },
        }
    }

    /// Goes on with the next task in the queue, if the machine has no frames.
    pub fn load_ready_task_if_needed(&mut self) -> (r: RunResult<bool>)
        ensures
            old(self)@.ready_task_loaded().matches(r, final(self)@),
    {
        if self.frames.len() != 0 {
            return Ok(false);
        }
        let mut next: Option<TaskId> = None;
        if let Some(s) = &mut self.scheduler {
            next = s.next_ready_task();
            if next.is_some() {
                s.set_current_task(next);
            }
        }
        match next {
            None => Ok(false),
            Some(id) => match self.load_or_init_task(id) {
                Ok(()) => Ok(true),
                Err(e) => Err(e),
            },
        }
    }

    /// The calls the host has not answered.
    pub fn get_pending_call_ids(&self) -> (r: Vec<CallId>)
        ensures
            r@ == self@.pending_calls(),
    {
        match &self.scheduler {
            None => Vec::new(),
            Some(s) => s.pending_call_ids(),
        }
    }

    /// Takes the error of the running task from it, if it has failed.
    pub fn take_failed_task_error(&mut self) -> (r: Option<RunError>)
        ensures
            r is Some <==> old(self)@.current_failure() is Some,
            r matches Some(e) ==> old(self)@.current_failure() == Some(e@),
            final(self)@ == old(self)@.current_failure_taken(),
    {
        if let Some(s) = &mut self.scheduler {
            if let Some(id) = s.current_task_id() {
                return s.take_failure(id);
            }
        }
        None
    }
}

} // verus!
