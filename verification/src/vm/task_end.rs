//! The end of a task, well or not.

use vstd::prelude::*;
use crate::asyncio::{Coroutine, CoroutineState, CoroutineView, GatherFuture, GatherView};
use crate::error::{ErrorView, Fault, RunError, RunResult};
use crate::heap::{DataView, Heap, HeapData, HeapView};
use crate::ids::{HeapId, TaskId};
use crate::list::{allocate_list, ListView};
use crate::namespaces::{Namespaces, NamespacesView};
use crate::resource::ResourceTracker;
use crate::value::Value;
use crate::vm::async_exec::{all_results, await_matches, unwrap_results, with_result, AwaitResult, AwaitView};
use crate::vm::scheduler::{cancelled, Scheduler, SchedulerView, Task, TaskState, TaskStateView};
use crate::vm::{fails, VmStep, VmView, VM};

verus! {

impl<T> HeapView<T> {
    /// The gather an id stands for.
    pub open spec fn gather(self, id: HeapId) -> Option<GatherView> {
        match self.data(id) {
            Some(DataView::GatherFuture(g)) => Some(g),
            _ => None,
        }
    }

    /// The heap with a gather replaced.
    pub open spec fn with_gather(self, id: HeapId, g: GatherView) -> HeapView<T> {
        self.set_data(id, Some(DataView::GatherFuture(g)))
    }

    /// The heap once the coroutine of a task has returned.
    pub open spec fn coroutine_completed(self, id: Option<HeapId>) -> HeapView<T> {
        match id {
            None => self,
            Some(id) => match self.data(id) {
                Some(DataView::Coroutine(c)) => self.set_data(
                    id,
                    Some(
                        DataView::Coroutine(
                            CoroutineView { state: CoroutineState::Completed, ..c },
                        ),
                    ),
                ),
                _ => self,
            },
        }
    }

    /// The heap once a gather has the result of one of its tasks, which is counted for it.
    pub open spec fn result_stored(self, gather_id: HeapId, idx: Option<usize>, v: Value) -> HeapView<
        T,
    > {
        match (idx, self.gather(gather_id)) {
            (Some(i), Some(g)) => if i < g.results.len() {
                self.with_gather(
                    gather_id,
                    GatherView { results: with_result(g.results, i as int, v), ..g },
                ).inc_value(v)
            } else {
                self
            },
            _ => self,
        }
    }
}

impl SchedulerView {
    /// Whether all these tasks have ended.
    pub open spec fn all_finished(self, ids: Seq<TaskId>) -> bool {
        forall|i: int|
            0 <= i < ids.len() ==> (self.task(#[trigger] ids[i]) matches Some(t)
                && t.state.finished())
    }

    /// The error a task has failed with.
    pub open spec fn failure(self, id: TaskId) -> Option<ErrorView> {
        match self.task(id) {
            Some(t) => match t.state {
                TaskStateView::Failed(e) => Some(e),
                _ => None,
            },
            None => None,
        }
    }

    /// The scheduler once the error of a task has been taken from it.
    pub open spec fn failure_taken(self, id: TaskId) -> SchedulerView {
        if self.failure(id) is Some {
            self.task_in_state(id, TaskStateView::Ready)
        } else {
            self
        }
    }

    /// The first of the first `n` of these tasks that has failed.
    pub open spec fn first_failed(self, ids: Seq<TaskId>, n: int) -> Option<TaskId>
        decreases n,
    {
        if n <= 0 {
            None
        } else {
            match self.first_failed(ids, n - 1) {
                Some(id) => Some(id),
                None => if self.failure(ids[n - 1]) is Some {
                    Some(ids[n - 1])
                } else {
                    None
                },
            }
        }
    }
}

/// What cancelling the first `n` of these tasks leads to, except for one of them.
pub open spec fn all_cancelled<T>(
    s: SchedulerView,
    h: HeapView<T>,
    namespaces: NamespacesView,
    ids: Seq<TaskId>,
    except: Option<TaskId>,
    n: int,
) -> (SchedulerView, HeapView<T>, NamespacesView)
    decreases n,
{
    if n <= 0 {
        (s, h, namespaces)
    } else {
        let before = all_cancelled(s, h, namespaces, ids, except, n - 1);
        if except == Some(ids[n - 1]) {
            before
        } else {
            cancelled(before.0, before.1, before.2, ids[n - 1])
        }
    }
}

impl<T: ResourceTracker> VmView<T> {
    /// The machine with its scheduler, heap and namespaces replaced.
    pub open spec fn with_parts(self, parts: (SchedulerView, HeapView<T>, NamespacesView)) -> VmView<T> {
        VmView { scheduler: Some(parts.0), heap: parts.1, namespaces: parts.2, ..self }
    }

    /// The machine once the running task is left for good and another one goes on.
    pub open spec fn handed_over(self, to: TaskId) -> VmStep<(), T> {
        let vm = self.cleaned_up();
        vm.with_scheduler(vm.scheduler_or_new().running(Some(to))).task_loaded(to)
    }

    /// The machine once the running task is left for good and the next one in the queue goes
    /// on, if there is one.
    pub open spec fn left_task(self) -> VmStep<AwaitView, T> {
        let vm = self.cleaned_up();
        vm.with_scheduler(vm.scheduler_or_new().running(None)).next_task_run()
    }

    /// What a complete gather of tasks leads to when one of them has failed: the error is
    /// raised in the task that waits for the gather.
    pub open spec fn gather_failed(
        self,
        gather_id: HeapId,
        waiter: Option<TaskId>,
        failed: TaskId,
        result: Value,
    ) -> VmStep<AwaitView, T> {
        let s = self.scheduler_or_new();
        let error = s.failure(failed)->0;
        let vm = self.with_scheduler(s.failure_taken(failed)).release(result).release(
            Value::Ref(gather_id),
        );
        match waiter {
            None => fails(vm, error),
            Some(w) => {
                let over = vm.handed_over(w);
                match over.result {
                    Err(e) => fails(over.vm, e),
                    Ok(()) => fails(over.vm, error),
                }
            },
        }
    }

    /// What a complete gather of tasks leads to: the task that waits for it goes on with the
    /// list of results.
    pub open spec fn gather_done(
        self,
        gather_id: HeapId,
        waiter: Option<TaskId>,
        result: Value,
    ) -> VmStep<AwaitView, T> {
        let results = match self.heap.gather(gather_id) {
            Some(g) => all_results(g.results),
            None => Some(Seq::empty()),
        };
        match results {
            None => fails(self, ErrorView::Internal(Fault::GatherIncomplete)),
            Some(values) => {
                let emptied = match self.heap.gather(gather_id) {
                    Some(g) => self.heap.with_gather(
                        gather_id,
                        GatherView { results: Seq::empty(), ..g },
                    ),
                    None => self.heap,
                };
                let made = emptied.made(DataView::List(ListView::of(values)));
                let vm = self.with_heap(made.heap);
                match made.result {
                    Err(e) => fails(vm, ErrorView::resource(e)),
                    Ok(list) => {
                        let freed = vm.release(result).release(Value::Ref(gather_id));
                        match waiter {
                            None => VmStep { vm: freed, result: Ok(AwaitView::ValueReady(list)) },
                            Some(w) => {
                                let over = freed.with_scheduler(
                                    freed.scheduler_or_new().made_ready(w).without_queued(w),
                                ).handed_over(w);
                                match over.result {
                                    Err(e) => fails(over.vm, e),
                                    Ok(()) => VmStep {
                                        vm: over.vm.pushed(list),
                                        result: Ok(AwaitView::FramePushed),
                                    },
                                }
                            },
                        }
                    },
                }
            },
        }
    }

    /// What the return of a task leads to.
    ///
    /// The result is kept with the task and, if a gather started it, in its place there. A
    /// gather that lacks nothing any more lets the task that waits for it go on; otherwise
    /// the next task does.
    pub open spec fn task_completed(self, result: Value) -> VmStep<AwaitView, T> {
        let s = self.scheduler_or_new();
        let id = s.current_task->0;
        let t = s.task(id)->0;
        let kept = self.with_heap(
            self.heap.coroutine_completed(t.coroutine_id).inc_value(result),
        ).with_scheduler(s.task_in_state(id, TaskStateView::Completed(result)));
        match t.gather_id {
            None => kept.release(result).left_task(),
            Some(gather_id) => {
                let vm = kept.with_heap(
                    kept.heap.result_stored(gather_id, t.gather_result_idx, result),
                );
                let (task_ids, waiter, answered) = match vm.heap.gather(gather_id) {
                    Some(g) => (g.task_ids, g.waiter, g.pending_calls.len() == 0),
                    None => (Seq::empty(), None, true),
                };
                if vm.scheduler_or_new().all_finished(task_ids) && answered {
                    match vm.scheduler_or_new().first_failed(task_ids, task_ids.len() as int) {
                        Some(failed) => vm.gather_failed(gather_id, waiter, failed, result),
                        None => vm.gather_done(gather_id, waiter, result),
                    }
                } else {
                    vm.release(result).left_task()
                }
            },
        }
    }

    /// What the failure of a task leads to.
    ///
    /// A gather that started the task is given up and its other tasks are cancelled. If a
    /// task waits for the gather, it goes on with the error; otherwise the next task does.
    pub open spec fn task_failed(self, error: ErrorView) -> VmStep<(), T> {
        let s = self.scheduler_or_new();
        let id = s.current_task->0;
        let failed = s.with_failure(id, error);
        match s.task(id)->0.gather_id {
            None => self.with_scheduler(failed).left_failed(),
            Some(gather_id) => {
                let (waiter, task_ids, heap) = match self.heap.gather(gather_id) {
                    Some(g) => (
                        g.waiter,
                        g.task_ids,
                        self.heap.with_gather(
                            gather_id,
                            GatherView { task_ids: Seq::empty(), ..g },
                        ),
                    ),
                    None => (None, Seq::empty(), self.heap),
                };
                let vm = self.with_parts(
                    all_cancelled(
                        failed,
                        heap,
                        self.namespaces,
                        task_ids,
                        Some(id),
                        task_ids.len() as int,
                    ),
                ).release(Value::Ref(gather_id));
                match waiter {
                    None => vm.left_failed(),
                    Some(w) => {
                        let over = vm.handed_over(w);
                        match over.result {
                            Err(e) => fails(over.vm, e),
                            Ok(()) => {
                                let after = over.vm.scheduler_or_new();
                                match after.failure(id) {
                                    Some(e) => fails(
                                        over.vm.with_scheduler(after.failure_taken(id)),
                                        e,
                                    ),
                                    None => over.vm.left_failed(),
                                }
                            },
                        }
                    },
                }
            },
        }
    }

    /// The machine once a failed task is left; with no other task ready it has no frames.
    pub open spec fn left_failed(self) -> VmStep<(), T> {
        let left = self.left_task();
        VmStep {
            vm: left.vm,
            result: match left.result {
                Ok(_) => Ok(()),
                Err(e) => Err(e),
            },
        }
    }
}

/// Cancels tasks, except for one of them.
pub fn cancel_all<T>(
    scheduler: &mut Scheduler,
    heap: &mut Heap<T>,
    namespaces: &mut Namespaces,
    ids: &Vec<TaskId>,
    except: Option<TaskId>,
)
    ensures
        (final(scheduler)@, final(heap)@, final(namespaces)@) == all_cancelled(
            old(scheduler)@,
            old(heap)@,
            old(namespaces)@,
            ids@,
            except,
            ids@.len() as int,
        ),
{
    let mut i: usize = 0;
    while i < ids.len()
        invariant
            0 <= i <= ids@.len(),
            (scheduler@, heap@, namespaces@) == all_cancelled(
                old(scheduler)@,
                old(heap)@,
                old(namespaces)@,
                ids@,
                except,
                i as int,
            ),
        decreases ids@.len() - i,
    {
        let spared: bool = match except {
            Some(id) => id == ids[i],
            None => false,
        };
        if !spared {
            scheduler.cancel_task(ids[i], heap, namespaces);
        }
        i = i + 1;
    }
}

proof fn first_failed_stays(s: SchedulerView, ids: Seq<TaskId>, k: int, n: int)
    requires
        0 <= k <= n,
        s.first_failed(ids, k) is Some,
    ensures
        s.first_failed(ids, n) == s.first_failed(ids, k),
    decreases n - k,
{
    if k < n {
        first_failed_stays(s, ids, k, n - 1);
    }
}

impl Scheduler {
    /// Whether all these tasks have ended.
    pub fn are_finished(&self, ids: &Vec<TaskId>) -> (r: bool)
        ensures
            r == self@.all_finished(ids@),
    {
        let mut i: usize = 0;
        while i < ids.len()
            invariant
                0 <= i <= ids@.len(),
                forall|k: int|
                    0 <= k < i ==> (self@.task(#[trigger] ids@[k]) matches Some(t)
                        && t.state.finished()),
            decreases ids@.len() - i,
        {
            let ended: bool = match self.get_task(ids[i]) {
                Some(t) => t.is_finished(),
                None => false,
            };
            if !ended {
                assert(self@.task(ids@[i as int]) is None || !self@.task(
                    ids@[i as int],
                )->0.state.finished());
                return false;
            }
            i = i + 1;
        }
        true
    }

    /// The first of these tasks that has failed.
    fn find_failed(&self, ids: &Vec<TaskId>) -> (r: Option<TaskId>)
        ensures
            r == self@.first_failed(ids@, ids@.len() as int),
            r matches Some(id) ==> self@.failure(id) is Some,
    {
        let mut i: usize = 0;
        while i < ids.len()
            invariant
                0 <= i <= ids@.len(),
                self@.first_failed(ids@, i as int) is None,
            decreases ids@.len() - i,
        {
            if self.is_task_failed(ids[i]) {
                proof {
                    first_failed_stays(self@, ids@, i + 1, ids@.len() as int);
                }
                return Some(ids[i]);
            }
            i = i + 1;
        }
        None
    }

    /// Takes the error of a task that has failed from it.
    pub fn take_failure(&mut self, id: TaskId) -> (r: Option<RunError>)
        ensures
            r is Some <==> old(self)@.failure(id) is Some,
            r matches Some(e) ==> old(self)@.failure(id) == Some(e@),
            final(self)@ == old(self)@.failure_taken(id),
    {
        let ghost before = self@;
        match self.take_task_out(id) {
            None => None,
            Some(task) => {
                let mut task: Task = task;
                let mut state: TaskState = TaskState::Ready;
                std::mem::swap(&mut state, &mut task.state);
                match state {
                    TaskState::Failed(e) => {
                        self.put_task(id, task);
                        assert(self@.tasks =~= before.failure_taken(id).tasks);
                        Some(e)
                    },
                    other => {
                        task.state = other;
                        self.put_task(id, task);
                        assert(self@.tasks =~= before.tasks);
                        None
                    },
                }
            },
        }
    }
}

fn copy_task_ids(ids: &Vec<TaskId>) -> (r: Vec<TaskId>)
    ensures
        r@ == ids@,
{
    let mut out: Vec<TaskId> = Vec::new();
    let mut i: usize = 0;
    while i < ids.len()
        invariant
            0 <= i <= ids@.len(),
            out@ == ids@.take(i as int),
        decreases ids@.len() - i,
    {
        out.push(ids[i]);
        i = i + 1;
        assert(out@ =~= ids@.take(i as int));
    }
    assert(out@ =~= ids@);
    out
}

impl<T> Heap<T> {
    /// Notes that the coroutine of a task has returned.
    fn complete_coroutine(&mut self, id: Option<HeapId>)
        ensures
            final(self)@ == old(self)@.coroutine_completed(id),
    {
        let ghost before = self@;
        let id: HeapId = match id {
            None => {
                return;
            },
            Some(id) => id,
        };
        let found: bool = match self.get(id) {
            Some(HeapData::Coroutine(_)) => true,
            _ => false,
        };
        if found {
            if let Some(HeapData::Coroutine(c)) = self.take_data(id) {
                let mut c: Coroutine = c;
                c.state = CoroutineState::Completed;
                assert(c@ =~= CoroutineView {
                    state: CoroutineState::Completed,
                    ..before.data(id)->0->Coroutine_0
                });
                self.put_data(id, HeapData::Coroutine(c));
                assert(self@.entries =~= before.coroutine_completed(Some(id)).entries);
            }
        }
    }

    /// Takes a gather out to change it, if there is one.
    pub fn take_gather(&mut self, id: HeapId) -> (r: Option<GatherFuture>)
        ensures
            r is Some <==> old(self)@.gather(id) is Some,
            r matches Some(g) ==> old(self)@.gather(id) == Some(g@) && final(self)@
                == old(self)@.set_data(id, None),
            r is None ==> final(self)@ == old(self)@,
    {
        let found: bool = match self.get(id) {
            Some(HeapData::GatherFuture(_)) => true,
            _ => false,
        };
        if found {
            if let Some(HeapData::GatherFuture(g)) = self.take_data(id) {
                return Some(g);
            }
        }
        None
    }

    /// Puts a gather back in its place.
    pub fn put_gather(&mut self, id: HeapId, g: GatherFuture)
        ensures
            final(self)@ == old(self)@.with_gather(id, g@),
    {
        let ghost before = self@;
        self.put_data(id, HeapData::GatherFuture(g));
        assert(self@.entries =~= before.with_gather(id, g@).entries);
    }

    /// Stores the result of a task in its gather.
    fn store_result(&mut self, gather_id: HeapId, idx: Option<usize>, v: Value)
        ensures
            final(self)@ == old(self)@.result_stored(gather_id, idx, v),
    {
        let ghost before = self@;
        if let Some(i) = idx {
            if let Some(g) = self.take_gather(gather_id) {
                let mut g: GatherFuture = g;
                if i < g.results.len() {
                    let ghost said = GatherView {
                        results: with_result(g@.results, i as int, v),
                        ..g@
                    };
                    g.results[i] = Some(v);
                    assert(g@ =~= said);
                    self.put_gather(gather_id, g);
                    assert(self@.entries =~= before.with_gather(gather_id, said).entries);
                    let _ = v.clone_with_heap(self);
                } else {
                    self.put_gather(gather_id, g);
                    assert(self@.entries =~= before.entries);
                }
            }
        }
    }
}

impl<'a, T: ResourceTracker> VM<'a, T> {
    /// Leaves the running task for good and goes on with another one.
    fn hand_over(&mut self, to: TaskId) -> (r: RunResult<()>)
        requires
            old(self).scheduler is Some,
        ensures
            old(self)@.handed_over(to).matches(r, final(self)@),
    {
        self.cleanup_current_frames();
        if let Some(s) = &mut self.scheduler {
            s.set_current_task(Some(to));
        }
        self.load_or_init_task(to)
    }

    /// Leaves the running task for good and goes on with the next one in the queue.
    fn leave_task(&mut self) -> (r: RunResult<AwaitResult>)
        requires
            old(self).scheduler is Some,
        ensures
            await_matches(old(self)@.left_task(), r, final(self)@),
    {
        self.cleanup_current_frames();
        if let Some(s) = &mut self.scheduler {
            s.set_current_task(None);
        }
        self.run_next_task()
    }

    fn fail_gather(
        &mut self,
        gather_id: HeapId,
        waiter: Option<TaskId>,
        failed: TaskId,
        result: Value,
    ) -> (r: RunResult<AwaitResult>)
        requires
            old(self)@.scheduler matches Some(s) && s.failure(failed) is Some,
        ensures
            await_matches(
                old(self)@.gather_failed(gather_id, waiter, failed, result),
                r,
                final(self)@,
            ),
    {
        let mut error: RunError = RunError::internal(Fault::GatherIncomplete);
        if let Some(s) = &mut self.scheduler {
            if let Some(e) = s.take_failure(failed) {
                error = e;
            }
        }
        result.drop_with_heap(&mut self.heap);
        Value::Ref(gather_id).drop_with_heap(&mut self.heap);
        if let Some(w) = waiter {
            if let Err(e) = self.hand_over(w) {
                return Err(e);
            }
        }
        Err(error)
    }

    fn finish_gather(&mut self, gather_id: HeapId, waiter: Option<TaskId>, result: Value) -> (r:
        RunResult<AwaitResult>)
        requires
            old(self).scheduler is Some,
        ensures
            await_matches(old(self)@.gather_done(gather_id, waiter, result), r, final(self)@),
    {
        let ghost before = self.heap@;
        let mut values: Vec<Value> = Vec::new();
        assert(values@ =~= Seq::empty());
        if let Some(g) = self.heap.take_gather(gather_id) {
            let mut g: GatherFuture = g;
            match unwrap_results(&g.results) {
                None => {
                    self.heap.put_gather(gather_id, g);
                    assert(self.heap@.entries =~= before.entries);
                    return Err(RunError::internal(Fault::GatherIncomplete));
                },
                Some(v) => {
                    values = v;
                    let ghost said = GatherView { results: Seq::empty(), ..g@ };
                    g.results = Vec::new();
                    assert(g@ =~= said);
                    self.heap.put_gather(gather_id, g);
                    assert(self.heap@.entries =~= before.with_gather(gather_id, said).entries);
                },
            }
        }
        match allocate_list(values, &mut self.heap) {
            Err(e) => Err(RunError::resource(e)),
            Ok(list) => {
                result.drop_with_heap(&mut self.heap);
                Value::Ref(gather_id).drop_with_heap(&mut self.heap);
                match waiter {
                    None => Ok(AwaitResult::ValueReady(list)),
                    Some(w) => {
                        if let Some(s) = &mut self.scheduler {
                            s.make_ready(w);
                            s.remove_from_ready_queue(w);
                        }
                        match self.hand_over(w) {
                            Err(e) => Err(e),
                            Ok(()) => {
                                self.push(list);
                                Ok(AwaitResult::FramePushed)
                            },
                        }
                    },
                }
            },
        }
    }

    /// Ends the running task, which has returned `result`.
    pub fn handle_task_completion(&mut self, result: Value) -> (r: RunResult<AwaitResult>)
        requires
            old(self)@.scheduler matches Some(s) && s.current_task matches Some(id) && s.task(
                id,
            ) is Some,
        ensures
            await_matches(old(self)@.task_completed(result), r, final(self)@),
    {
        let mut gather_id: Option<HeapId> = None;
        let mut result_idx: Option<usize> = None;
        let mut coroutine_id: Option<HeapId> = None;
        if let Some(s) = &mut self.scheduler {
            if let Some(id) = s.current_task_id() {
                if let Some(t) = s.get_task(id) {
                    gather_id = t.gather_id;
                    result_idx = t.gather_result_idx;
                    coroutine_id = t.coroutine_id;
                }
                s.complete_task(id, result);
            }
        }
        self.heap.complete_coroutine(coroutine_id);
        let _ = result.clone_with_heap(&mut self.heap);
        let gather_id: HeapId = match gather_id {
            None => {
                result.drop_with_heap(&mut self.heap);
                return self.leave_task();
            },
            Some(id) => id,
        };
        self.heap.store_result(gather_id, result_idx, result);
        let mut task_ids: Vec<TaskId> = Vec::new();
        let mut waiter: Option<TaskId> = None;
        let mut answered: bool = true;
        assert(task_ids@ =~= Seq::empty());
        if let Some(HeapData::GatherFuture(g)) = self.heap.get(gather_id) {
            task_ids = copy_task_ids(&g.task_ids);
            waiter = g.waiter;
            answered = g.pending_calls.len() == 0;
        }
        let mut complete: bool = false;
        let mut failed: Option<TaskId> = None;
        if let Some(s) = &self.scheduler {
            complete = s.are_finished(&task_ids) && answered;
            failed = s.find_failed(&task_ids);
        }
        if complete {
            match failed {
                Some(f) => self.fail_gather(gather_id, waiter, f, result),
                None => self.finish_gather(gather_id, waiter, result),
            }
        } else {
            result.drop_with_heap(&mut self.heap);
            self.leave_task()
        }
    }

    /// Whether the running task is not the main task.
    pub fn is_spawned_task(&self) -> (r: bool)
        ensures
            r == (self@.scheduler matches Some(s) && s.current_task matches Some(id) && id
                != TaskId::main_task()),
    {
        match &self.scheduler {
            None => false,
            Some(s) => match s.current_task_id() {
                None => false,
                Some(id) => !id.is_main(),
            },
        }
    }

    /// Ends the running task, which has failed.
    ///
    /// An error is to be handled by the task that goes on; without one that task just goes
    /// on.
    pub fn handle_task_failure(&mut self, error: RunError) -> (r: RunResult<()>)
        requires
            old(self)@.scheduler matches Some(s) && s.current_task matches Some(id) && s.task(
                id,
            ) is Some && id != TaskId::main_task(),
        ensures
            old(self)@.task_failed(error@).matches(r, final(self)@),
    {
        let mut current: TaskId = TaskId(0);
        let mut gather_id: Option<HeapId> = None;
        if let Some(s) = &mut self.scheduler {
            if let Some(id) = s.current_task_id() {
                current = id;
                if let Some(t) = s.get_task(id) {
                    gather_id = t.gather_id;
                }
                s.fail_task(id, error);
            }
        }
        if let Some(gid) = gather_id {
            let ghost before = self.heap@;
            let mut task_ids: Vec<TaskId> = Vec::new();
            let mut waiter: Option<TaskId> = None;
            assert(task_ids@ =~= Seq::empty());
            if let Some(g) = self.heap.take_gather(gid) {
                let mut g: GatherFuture = g;
                let ghost said = GatherView { task_ids: Seq::empty(), ..g@ };
                waiter = g.waiter;
                std::mem::swap(&mut task_ids, &mut g.task_ids);
                assert(g@ =~= said);
                self.heap.put_gather(gid, g);
                assert(self.heap@.entries =~= before.with_gather(gid, said).entries);
            }
            if let Some(s) = &mut self.scheduler {
                cancel_all(s, &mut self.heap, &mut self.namespaces, &task_ids, Some(current));
            }
            Value::Ref(gid).drop_with_heap(&mut self.heap);
            if let Some(w) = waiter {
                if let Err(e) = self.hand_over(w) {
                    return Err(e);
                }
                let mut raised: Option<RunError> = None;
                if let Some(s) = &mut self.scheduler {
                    raised = s.take_failure(current);
                }
                if let Some(e) = raised {
                    return Err(e);
                }
            }
        }
        match self.leave_task() {
            Ok(_) => Ok(()),
            Err(e) => Err(e),
        }
    }
}

} // verus!
