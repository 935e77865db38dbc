//! Awaiting, and switching between tasks.

use vstd::prelude::*;
use crate::asyncio::{Coroutine, CoroutineState, CoroutineView, GatherFuture, GatherItem, GatherView};
use crate::call_map::{calls_of, entered_call_is_found, find_call, with_call};
use crate::error::{CodeRange, ErrorView, Fault, RunError, RunResult};
use crate::frame::{CallFrame, FrameView};
use crate::heap::{DataView, HeapData, HeapView};
use crate::ids::{CallId, FunctionId, HeapId, TaskId};
use crate::list::{allocate_list, ListView};
use crate::namespaces::depth_error;
use crate::ownership::release_value_only_frees;
use crate::resource::ResourceTracker;
use crate::types::{ExcType, Type};
use crate::value::{copy_values, Value};
use crate::vm::scheduler::{Scheduler, SchedulerView, Task, TaskStateView, TaskView};
use crate::vm::{fails, VmStep, VmView, VM};

verus! {

/// What to do after an await.
#[derive(Debug)]
pub enum AwaitResult {
    /// The awaited value is there; push it.
    ValueReady(Value),
    /// The frames have changed; go on with the innermost one.
    FramePushed,
    /// No task can run until the host answers one of these calls.
    Yield(Vec<CallId>),
}

/// The content of an [`AwaitResult`].
pub enum AwaitView {
    ValueReady(Value),
    FramePushed,
    Yield(Seq<CallId>),
}

impl View for AwaitResult {
    type V = AwaitView;

    open spec fn view(&self) -> AwaitView {
        match self {
            AwaitResult::ValueReady(v) => AwaitView::ValueReady(*v),
            AwaitResult::FramePushed => AwaitView::FramePushed,
            AwaitResult::Yield(calls) => AwaitView::Yield(calls@),
        }
    }
}

/// Whether an await was carried out as it is said to be.
pub open spec fn await_matches<T>(
    said: VmStep<AwaitView, T>,
    r: RunResult<AwaitResult>,
    after: VmView<T>,
) -> bool {
    &&& after == said.vm
    &&& match (r, said.result) {
        (Ok(a), Ok(b)) => a@ == b,
        (Err(e), Err(f)) => e@ == f,
        _ => false,
    }
}

/// A broken rule of the scheduler.
pub open spec fn not_runnable() -> ErrorView {
    ErrorView::Internal(Fault::TaskNotRunnable)
}

impl<T: ResourceTracker> VmView<T> {
    /// The machine with another scheduler.
    pub open spec fn with_scheduler(self, s: SchedulerView) -> VmView<T> {
        VmView { scheduler: Some(s), ..self }
    }

    /// The scheduler, or the one that is made when there is none yet: its calls are counted
    /// on from those made so far.
    pub open spec fn scheduler_or_new(self) -> SchedulerView {
        match self.scheduler {
            Some(s) => s,
            None => SchedulerView::fresh(self.next_call_id),
        }
    }

    /// The machine with a scheduler.
    pub open spec fn scheduled(self) -> VmView<T> {
        self.with_scheduler(self.scheduler_or_new())
    }

    /// The machine once the context of the running task is kept in the scheduler.
    pub open spec fn saved(self, id: TaskId) -> VmView<T> {
        match self.scheduler {
            None => self,
            Some(s) => match s.task(id) {
                None => self,
                Some(t) => VmView {
                    frames: Seq::empty(),
                    stack: Seq::empty(),
                    exception_stack: Seq::empty(),
                    scheduler: Some(
                        s.with_task(
                            id,
                            TaskView {
                                frames: self.frames,
                                stack: self.stack,
                                exception_stack: self.exception_stack,
                                instruction_ip: self.instruction_ip,
                                ..t
                            },
                        ),
                    ),
                    ..self
                },
            },
        }
    }

    /// The machine with the frame of a coroutine on top, or why it cannot start.
    ///
    /// The coroutine is running then. Its variables and cells are counted once more for the
    /// frame; if calls are nested too deeply, the variables are given up again.
    pub open spec fn coroutine_started(
        self,
        id: HeapId,
        c: CoroutineView,
        call_position: Option<CodeRange>,
    ) -> VmStep<(), T> {
        let counted = self.heap.inc_values(c.namespace).inc_ids(c.frame_cells).set_data(
            id,
            Some(DataView::Coroutine(CoroutineView { state: CoroutineState::Running, ..c })),
        );
        match depth_error(counted.tracker, self.namespaces.depth) {
            Some(e) => fails(
                self.with_heap(counted.release_values(c.namespace)),
                ErrorView::resource(e),
            ),
            None => VmStep {
                vm: VmView {
                    heap: counted,
                    namespaces: self.namespaces.added(c.namespace),
                    frames: self.frames.push(
                        FrameView::started(
                            self.stack.len() as usize,
                            self.namespaces.next_id(),
                            c.func_id,
                            c.frame_cells,
                            0,
                            call_position,
                            self.instruction_ip,
                        ),
                    ),
                    ..self
                },
                result: Ok(()),
            },
        }
    }

    /// The machine running a coroutine as the root of a task.
    pub open spec fn task_started(self, id: HeapId) -> VmStep<(), T> {
        match self.heap.data(id) {
            Some(DataView::Coroutine(c)) => if c.state != CoroutineState::New {
                fails(self, ErrorView::fault(ExcType::RuntimeError, Fault::CoroutineReused))
            } else {
                self.coroutine_started(id, c, None)
            },
            _ => fails(self, not_runnable()),
        }
    }

    /// The machine going on with a task: with its kept context, on top of which comes the
    /// result it has been waiting for, or from the start of its coroutine.
    pub open spec fn task_loaded(self, id: TaskId) -> VmStep<(), T> {
        match self.scheduler {
            None => fails(self, not_runnable()),
            Some(s) => match s.task(id) {
                None => fails(self, not_runnable()),
                Some(t) => {
                    let emptied = s.with_task(
                        id,
                        TaskView {
                            frames: Seq::empty(),
                            stack: Seq::empty(),
                            exception_stack: Seq::empty(),
                            ..t
                        },
                    );
                    if t.frames.len() != 0 {
                        VmStep {
                            vm: VmView {
                                frames: t.frames,
                                stack: match emptied.waiting_result(id) {
                                    Some(v) => t.stack.push(v),
                                    None => t.stack,
                                },
                                exception_stack: t.exception_stack,
                                instruction_ip: t.instruction_ip,
                                scheduler: Some(emptied.result_picked_up(id)),
                                ..self
                            },
                            result: Ok(()),
                        }
                    } else {
                        match t.coroutine_id {
                            Some(c) => self.with_scheduler(emptied).task_started(c),
                            None => fails(self.with_scheduler(emptied), not_runnable()),
                        }
                    }
                },
            },
        }
    }

    /// The machine going on with the next task in the queue; if there is none, the calls the
    /// host has to answer.
    pub open spec fn next_task_run(self) -> VmStep<AwaitView, T> {
        let s = self.scheduler_or_new();
        match s.next_ready() {
            None => VmStep { vm: self, result: Ok(AwaitView::Yield(calls_of(s.pending_calls))) },
            Some(next) => {
                let loaded = self.with_scheduler(s.dequeued().running(Some(next))).task_loaded(
                    next,
                );
                VmStep {
                    vm: loaded.vm,
                    result: match loaded.result {
                        Ok(()) => Ok(AwaitView::FramePushed),
                        Err(e) => Err(e),
                    },
                }
            },
        }
    }

    /// The machine once the running task cannot go on: the next task runs, and the context
    /// of this one is kept. If there is no other task, the context stays where it is.
    pub open spec fn switched(self) -> VmStep<AwaitView, T> {
        let s = self.scheduler_or_new();
        match (s.next_ready(), s.current_task) {
            (Some(_), Some(current)) => self.scheduled().saved(current).next_task_run(),
            _ => self.scheduled().next_task_run(),
        }
    }
}

/// Putting a context away and taking it out again changes nothing.
pub proof fn saved_context_is_restored<T: ResourceTracker>(vm: VmView<T>, id: TaskId)
    requires
        vm.scheduler matches Some(s) && s.task(id) is Some && s.waiting_result(id) is None,
        vm.frames.len() != 0,
    ensures
        ({
            let back = vm.saved(id).task_loaded(id);
            &&& back.result is Ok
            &&& back.vm.frames == vm.frames
            &&& back.vm.stack == vm.stack
            &&& back.vm.exception_stack == vm.exception_stack
            &&& back.vm.instruction_ip == vm.instruction_ip
            &&& back.vm.heap == vm.heap
            &&& back.vm.namespaces == vm.namespaces
        }),
{
}

impl<'a, T: ResourceTracker> VM<'a, T> {
    /// Makes a scheduler, unless there is one.
    pub fn get_or_create_scheduler(&mut self)
        ensures
            final(self)@ == old(self)@.scheduled(),
            final(self).scheduler is Some,
    {
        if self.scheduler.is_none() {
            let mut s: Scheduler = Scheduler::new();
            s.set_next_call_id(self.next_call_id);
            self.scheduler = Some(s);
        }
    }

    /// Keeps the context of the running task in the scheduler.
    fn save_task_context(&mut self, id: TaskId)
        ensures
            final(self)@ == old(self)@.saved(id),
    {
        let ghost before = self@;
        let mut kept: Option<Scheduler> = None;
        std::mem::swap(&mut kept, &mut self.scheduler);
        match kept {
            None => {},
            Some(scheduler) => {
                let mut scheduler: Scheduler = scheduler;
                match scheduler.take_task_out(id) {
                    None => {
                        self.scheduler = Some(scheduler);
                    },
                    Some(task) => {
                        let mut task: Task = task;
                        task.frames = Vec::new();
                        task.stack = Vec::new();
                        task.exception_stack = Vec::new();
                        std::mem::swap(&mut task.frames, &mut self.frames);
                        std::mem::swap(&mut task.stack, &mut self.stack);
                        std::mem::swap(&mut task.exception_stack, &mut self.exception_stack);
                        task.instruction_ip = self.instruction_ip;
                        let ghost t = before.scheduler->0.task(id)->0;
                        assert(task@ =~= TaskView {
                            frames: before.frames,
                            stack: before.stack,
                            exception_stack: before.exception_stack,
                            instruction_ip: before.instruction_ip,
                            ..t
                        });
                        scheduler.put_task(id, task);
                        assert(scheduler@ =~= before.scheduler->0.with_task(id, task@));
                        self.scheduler = Some(scheduler);
                        assert(self@ =~= before.saved(id));
                    },
                }
            },
        }
    }

    /// Pushes the frame of a coroutine that has not run yet.
    fn start_coroutine_frame(&mut self, id: HeapId, call_position: Option<CodeRange>) -> (r: RunResult<
        (),
    >)
        requires
            old(self)@.heap.data(id) matches Some(DataView::Coroutine(_)),
        ensures
            old(self)@.coroutine_started(
                id,
                old(self)@.heap.data(id)->0->Coroutine_0,
                call_position,
            ).matches(r, final(self)@),
    {
        let ghost before = self@;
        let ghost c = before.heap.data(id)->0->Coroutine_0;
        let mut func_id: FunctionId = FunctionId(0);
        let mut values: Vec<Value> = Vec::new();
        let mut cells: Vec<HeapId> = Vec::new();
        if let Some(HeapData::Coroutine(coro)) = self.heap.get(id) {
            func_id = coro.func_id;
            values = copy_values(coro.namespace.as_slice());
            cells = copy_ids(&coro.frame_cells);
        }
        self.heap.inc_values(values.as_slice());
        self.heap.inc_ids(cells.as_slice());
        let ghost counted = self.heap@;
        proof {
            counting_keeps_data(before.heap, c.namespace, c.frame_cells, id);
        }
        if let Some(HeapData::Coroutine(coro)) = self.heap.take_data(id) {
            let mut coro: Coroutine = coro;
            coro.state = CoroutineState::Running;
            assert(coro@ =~= CoroutineView { state: CoroutineState::Running, ..c });
            self.heap.put_data(id, HeapData::Coroutine(coro));
            assert(self.heap@.entries =~= counted.set_data(
                id,
                Some(DataView::Coroutine(coro@)),
            ).entries);
        }
        match self.namespaces.register_prebuilt(values, &mut self.heap) {
            Err(e) => Err(RunError::resource(e)),
            Ok(namespace_idx) => {
                let frame: CallFrame = CallFrame::new_function(
                    self.stack.len(),
                    namespace_idx,
                    func_id,
                    cells,
                    0,
                    call_position,
                    self.instruction_ip,
                );
                self.frames.push(frame);
                assert(self@.frames =~= before.frames.push(frame@));
                Ok(())
            },
        }
    }

    /// Starts the coroutine of a task.
    fn init_task_from_coroutine(&mut self, id: HeapId) -> (r: RunResult<()>)
        ensures
            old(self)@.task_started(id).matches(r, final(self)@),
    {
        match self.heap.get(id) {
            Some(HeapData::Coroutine(coro)) => {
                if coro.state != CoroutineState::New {
                    return Err(RunError::fault(ExcType::RuntimeError, Fault::CoroutineReused));
                }
            },
            _ => {
                return Err(RunError::internal(Fault::TaskNotRunnable));
            },
        }
        self.start_coroutine_frame(id, None)
    }
}

/// A copy of references that is not counted.
pub fn copy_ids(ids: &Vec<HeapId>) -> (r: Vec<HeapId>)
    ensures
        r@ == ids@,
{
    let mut out: Vec<HeapId> = Vec::new();
    let mut i: usize = 0;
    while i < ids.len()
        invariant
            0 <= i <= ids@.len(),
            out@ == ids@.take(i as int),
        decreases ids@.len() - i,
    {
        out.push(ids[i]);
        i = i + 1;
        assert(out@ =~= ids@.take(i as int));
    }
    assert(out@ =~= ids@);
    out
}

/// Counting references leaves the objects as they are.
pub proof fn counting_keeps_data<T>(h: HeapView<T>, values: Seq<Value>, ids: Seq<HeapId>, id: HeapId)
    ensures
        h.inc_values(values).inc_ids(ids).data(id) == h.data(id),
    decreases values.len() + ids.len(),
{
    if ids.len() > 0 {
        counting_keeps_data(h, values, ids.drop_last(), id);
    } else if values.len() > 0 {
        counting_keeps_data(h, values.drop_last(), ids, id);
    }
}

impl<'a, T: ResourceTracker> VM<'a, T> {
    /// Goes on with a task.
    pub(crate) fn load_or_init_task(&mut self, id: TaskId) -> (r: RunResult<()>)
        ensures
            old(self)@.task_loaded(id).matches(r, final(self)@),
    {
        let ghost before = self@;
        let mut kept: Option<Scheduler> = None;
        std::mem::swap(&mut kept, &mut self.scheduler);
        let mut scheduler: Scheduler = match kept {
            None => {
                return Err(RunError::internal(Fault::TaskNotRunnable));
            },
            Some(scheduler) => scheduler,
        };
        let mut task: Task = match scheduler.take_task_out(id) {
            None => {
                self.scheduler = Some(scheduler);
                return Err(RunError::internal(Fault::TaskNotRunnable));
            },
            Some(task) => task,
        };
        let ghost t = task@;
        let mut frames: Vec<CallFrame> = Vec::new();
        let mut stack: Vec<Value> = Vec::new();
        let mut exception_stack: Vec<Value> = Vec::new();
        std::mem::swap(&mut frames, &mut task.frames);
        std::mem::swap(&mut stack, &mut task.stack);
        std::mem::swap(&mut exception_stack, &mut task.exception_stack);
        let instruction_ip: usize = task.instruction_ip;
        let coroutine_id: Option<HeapId> = task.coroutine_id;
        let ghost emptied = TaskView {
            frames: Seq::empty(),
            stack: Seq::empty(),
            exception_stack: Seq::empty(),
            ..t
        };
        assert(task@ =~= emptied);
        scheduler.put_task(id, task);
        assert(scheduler@ =~= before.scheduler->0.with_task(id, emptied));
        if frames.len() != 0 {
            if let Some(v) = scheduler.take_resolved_for_task(id) {
                stack.push(v);
            }
            self.scheduler = Some(scheduler);
            self.stack = stack;
            self.exception_stack = exception_stack;
            self.instruction_ip = instruction_ip;
            self.frames = frames;
            assert(self@ =~= before.task_loaded(id).vm);
            Ok(())
        } else {
            self.scheduler = Some(scheduler);
            match coroutine_id {
                Some(c) => self.init_task_from_coroutine(c),
                None => Err(RunError::internal(Fault::TaskNotRunnable)),
            }
        }
    }

    /// Goes on with the next task in the queue, or tells which calls the host has to answer.
    pub(crate) fn run_next_task(&mut self) -> (r: RunResult<AwaitResult>)
        requires
            old(self).scheduler is Some,
        ensures
            await_matches(old(self)@.next_task_run(), r, final(self)@),
    {
        let mut next: Option<TaskId> = None;
        let mut pending: Vec<CallId> = Vec::new();
        if let Some(s) = &mut self.scheduler {
            next = s.next_ready_task();
            if next.is_some() {
                s.set_current_task(next);
            } else {
                pending = s.pending_call_ids();
            }
        }
        match next {
            None => Ok(AwaitResult::Yield(pending)),
            Some(id) => match self.load_or_init_task(id) {
                Ok(()) => Ok(AwaitResult::FramePushed),
                Err(e) => Err(e),
            },
        }
    }

    /// Switches to another task, if one is ready.
    pub(crate) fn switch_or_yield(&mut self) -> (r: RunResult<AwaitResult>)
        requires
            old(self).scheduler is Some,
        ensures
            await_matches(old(self)@.switched(), r, final(self)@),
    {
        let mut leaves: Option<TaskId> = None;
        if let Some(s) = &self.scheduler {
            if s.ready_queue.len() != 0 {
                leaves = s.current_task_id();
            }
        }
        if let Some(current) = leaves {
            self.save_task_context(current);
        }
        self.run_next_task()
    }
}

/// How far starting the items of a gather has come.
#[verifier::ext_equal]
pub struct GatherRun {
    pub scheduler: SchedulerView,
    pub results: Seq<Option<Value>>,
    pub task_ids: Seq<TaskId>,
    pub pending_calls: Seq<CallId>,
}

/// A result put in its place, if there is such a place.
pub open spec fn with_result(results: Seq<Option<Value>>, idx: int, v: Value) -> Seq<Option<Value>> {
    if idx < results.len() {
        results.update(idx, Some(v))
    } else {
        results
    }
}

/// What starting the first `n` items of a gather leads to: coroutines become tasks, and of
/// calls either the result is there or the gather is noted as waiting for it.
pub open spec fn gather_started(
    s: SchedulerView,
    gather_id: HeapId,
    items: Seq<GatherItem>,
    results: Seq<Option<Value>>,
    n: int,
) -> GatherRun
    decreases n,
{
    if n <= 0 {
        GatherRun {
            scheduler: s,
            results,
            task_ids: Seq::empty(),
            pending_calls: Seq::empty(),
        }
    } else {
        let before = gather_started(s, gather_id, items, results, n - 1);
        match items[n - 1] {
            GatherItem::Coroutine(id) => GatherRun {
                scheduler: before.scheduler.spawned(id, Some(gather_id), Some((n - 1) as usize)),
                task_ids: before.task_ids.push(TaskId(before.scheduler.tasks.len() as usize)),
                ..before
            },
            GatherItem::ExternalFuture(call) => {
                let awaited = before.scheduler.awaited(call);
                match find_call(awaited.resolved, call) {
                    Some(v) => GatherRun {
                        scheduler: awaited.picked_up(call),
                        results: with_result(before.results, n - 1, v),
                        ..before
                    },
                    None => GatherRun {
                        scheduler: SchedulerView {
                            gather_waiters: with_call(
                                awaited.gather_waiters,
                                call,
                                (gather_id, (n - 1) as usize),
                            ),
                            ..awaited.picked_up(call)
                        },
                        pending_calls: before.pending_calls.push(call),
                        ..before
                    },
                }
            },
        }
    }
}

/// The results, if they are all there.
pub open spec fn all_results(results: Seq<Option<Value>>) -> Option<Seq<Value>> {
    if forall|i: int| 0 <= i < results.len() ==> (#[trigger] results[i]) is Some {
        Some(results.map_values(|r: Option<Value>| r->0))
    } else {
        None
    }
}

/// All the results, if they are there.
pub fn unwrap_results(results: &Vec<Option<Value>>) -> (r: Option<Vec<Value>>)
    ensures
        r is Some <==> all_results(results@) is Some,
        r matches Some(v) ==> all_results(results@) == Some(v@),
{
    let mut out: Vec<Value> = Vec::new();
    let mut i: usize = 0;
    while i < results.len()
        invariant
            0 <= i <= results@.len(),
            out@.len() == i,
            forall|j: int| 0 <= j < i ==> (#[trigger] results@[j]) == Some(out@[j]),
        decreases results@.len() - i,
    {
        match results[i] {
            None => {
                assert(results@[i as int] is None);
                return None;
            },
            Some(v) => {
                out.push(v);
            },
        }
        i = i + 1;
    }
    assert(out@ =~= results@.map_values(|r: Option<Value>| r->0));
    Some(out)
}

impl<T: ResourceTracker> VmView<T> {
    /// What awaiting a coroutine leads to: its frame is on top. A coroutine can be awaited
    /// only once.
    pub open spec fn coroutine_awaited(self, id: HeapId, c: CoroutineView) -> VmStep<AwaitView, T> {
        if c.state != CoroutineState::New {
            fails(
                self.release(Value::Ref(id)),
                ErrorView::fault(ExcType::RuntimeError, Fault::CoroutineReused),
            )
        } else {
            let started = self.coroutine_started(id, c, Some(self.position()));
            match started.result {
                Err(e) => fails(started.vm, e),
                Ok(()) => VmStep {
                    vm: started.vm.release(Value::Ref(id)),
                    result: Ok(AwaitView::FramePushed),
                },
            }
        }
    }

    /// What awaiting a call to the host leads to. A call can be awaited only once.
    pub open spec fn call_awaited(self, call: CallId) -> VmStep<AwaitView, T> {
        let s = self.scheduler_or_new();
        if find_call(s.consumed, call) is Some {
            fails(self, ErrorView::fault(ExcType::RuntimeError, Fault::FutureReused))
        } else {
            let awaited = s.awaited(call).picked_up(call);
            match find_call(s.resolved, call) {
                Some(v) => VmStep {
                    vm: self.with_scheduler(awaited),
                    result: Ok(AwaitView::ValueReady(v)),
                },
                None => self.with_scheduler(
                    awaited.current_in_state(TaskStateView::BlockedOnCall(call)),
                ).switched(),
            }
        }
    }

    /// A new list as the result of an await.
    pub open spec fn list_ready(self, items: Seq<Value>) -> VmStep<AwaitView, T> {
        let made = self.heap.made(DataView::List(ListView::of(items)));
        VmStep {
            vm: self.with_heap(made.heap),
            result: match made.result {
                Ok(v) => Ok(AwaitView::ValueReady(v)),
                Err(e) => Err(ErrorView::resource(e)),
            },
        }
    }

    /// What awaiting a gather leads to. A gather can be awaited only once.
    ///
    /// Its items are started. If nothing is left to wait for, the list of results is there;
    /// otherwise the running task waits, and the gather stays counted for it.
    pub open spec fn gather_awaited(self, id: HeapId, g: GatherView) -> VmStep<AwaitView, T> {
        if g.waiter is Some {
            fails(
                self.release(Value::Ref(id)),
                ErrorView::fault(ExcType::RuntimeError, Fault::GatherReused),
            )
        } else if g.items.len() == 0 {
            self.release(Value::Ref(id)).list_ready(Seq::empty())
        } else {
            let s = self.scheduler_or_new();
            let run = gather_started(s, id, g.items, g.results, g.items.len() as int);
            let waiting = GatherView {
                items: g.items,
                task_ids: run.task_ids,
                results: run.results,
                waiter: s.current_task,
                pending_calls: run.pending_calls,
            };
            if run.task_ids.len() == 0 && run.pending_calls.len() == 0 {
                match all_results(run.results) {
                    None => fails(
                        self.with_heap(
                            self.heap.set_data(id, Some(DataView::GatherFuture(waiting))),
                        ).with_scheduler(run.scheduler),
                        ErrorView::Internal(Fault::GatherIncomplete),
                    ),
                    Some(values) => self.with_heap(
                        self.heap.set_data(
                            id,
                            Some(
                                DataView::GatherFuture(
                                    GatherView { results: Seq::empty(), ..waiting },
                                ),
                            ),
                        ),
                    ).with_scheduler(run.scheduler).release(Value::Ref(id)).list_ready(values),
                }
            } else {
                self.with_heap(
                    self.heap.set_data(id, Some(DataView::GatherFuture(waiting))),
                ).with_scheduler(
                    run.scheduler.current_in_state(TaskStateView::BlockedOnGather(id)),
                ).switched()
            }
        }
    }

    /// What awaiting the value on top leads to.
    pub open spec fn awaited(self) -> VmStep<AwaitView, T> {
        let v = self.top(0);
        let vm = self.popped(1);
        let refused = fails(
            vm.release(v),
            ErrorView::fault(ExcType::TypeError, Fault::NotAwaitable(self.heap.type_of(v))),
        );
        match v {
            Value::Ref(id) => match self.heap.data(id) {
                Some(DataView::Coroutine(c)) => vm.coroutine_awaited(id, c),
                Some(DataView::GatherFuture(g)) => vm.gather_awaited(id, g),
                _ => refused,
            },
            Value::ExternalFuture(call) => vm.call_awaited(call),
            _ => refused,
        }
    }
}

/// A coroutine that has been awaited cannot be awaited again.
pub proof fn coroutine_is_awaited_once<T: ResourceTracker>(vm: VmView<T>, id: HeapId, c: CoroutineView)
    requires
        vm.heap.data(id) == Some(DataView::Coroutine(c)),
        vm.coroutine_started(id, c, None).result is Ok,
    ensures
        ({
            let after = vm.coroutine_started(id, c, None).vm;
            after.heap.data(id) matches Some(DataView::Coroutine(d)) && after.coroutine_awaited(
                id,
                d,
            ).result == Err::<AwaitView, ErrorView>(
                ErrorView::fault(ExcType::RuntimeError, Fault::CoroutineReused),
            )
        }),
{
    counting_keeps_data(vm.heap, c.namespace, c.frame_cells, id);
}

/// Awaiting a coroutine for the first time pushes one frame, which runs its function. As long as
/// the coroutine is there it is no longer new, and awaiting it again is an error that pushes no
/// frame.
pub proof fn awaited_coroutine_runs<T: ResourceTracker>(vm: VmView<T>, id: HeapId, c: CoroutineView)
    requires
        vm.heap.data(id) == Some(DataView::Coroutine(c)),
        c.state == CoroutineState::New ==> vm.coroutine_started(
            id,
            c,
            Some(vm.position()),
        ).result is Ok,
    ensures
        ({
            let done = vm.coroutine_awaited(id, c);
            if c.state == CoroutineState::New {
                &&& done.result == Ok::<AwaitView, ErrorView>(AwaitView::FramePushed)
                &&& done.vm.frames.len() == vm.frames.len() + 1
                &&& done.vm.frames.drop_last() == vm.frames
                &&& done.vm.frames.last().function_id == Some(c.func_id)
                &&& done.vm.heap.data(id) matches Some(d) ==> (d matches DataView::Coroutine(e)
                    && e.state == CoroutineState::Running && e.func_id == c.func_id)
            } else {
                &&& done.result == Err::<AwaitView, ErrorView>(
                    ErrorView::fault(ExcType::RuntimeError, Fault::CoroutineReused),
                )
                &&& done.vm.frames == vm.frames
            }
        }),
{
    counting_keeps_data(vm.heap, c.namespace, c.frame_cells, id);
    let started = vm.coroutine_started(id, c, Some(vm.position())).vm;
    release_value_only_frees(started.heap, Value::Ref(id));
    let _ = vm.coroutine_awaited(id, c).vm.heap.entry(id);
}

/// Awaiting a call that has been answered gives the answer once and blocks no task; awaiting it
/// again is an error.
pub proof fn answered_call_is_awaited_once<T: ResourceTracker>(
    vm: VmView<T>,
    call: CallId,
    v: Value,
)
    requires
        vm.scheduler matches Some(s) && find_call(s.consumed, call) is None && find_call(
            s.resolved,
            call,
        ) == Some(v),
    ensures
        ({
            let once = vm.call_awaited(call);
            let twice = once.vm.call_awaited(call);
            &&& once.result == Ok::<AwaitView, ErrorView>(AwaitView::ValueReady(v))
            &&& once.vm.scheduler matches Some(after) && after.tasks == vm.scheduler->0.tasks
            &&& twice.result == Err::<AwaitView, ErrorView>(
                ErrorView::fault(ExcType::RuntimeError, Fault::FutureReused),
            )
            &&& twice.vm == once.vm
        }),
{
    awaiting_consumes(vm.scheduler->0, call);
}

/// A call that has been awaited cannot be awaited again.
pub proof fn call_is_awaited_once<T: ResourceTracker>(vm: VmView<T>, call: CallId)
    requires
        vm.scheduler matches Some(s) && find_call(s.consumed, call) is Some,
    ensures
        vm.call_awaited(call).result == Err::<AwaitView, ErrorView>(
            ErrorView::fault(ExcType::RuntimeError, Fault::FutureReused),
        ),
        vm.call_awaited(call).vm == vm,
{
}

/// Awaiting a call notes that it has been awaited.
pub proof fn awaiting_consumes(s: SchedulerView, call: CallId)
    ensures
        find_call(s.awaited(call).consumed, call) is Some,
{
    entered_call_is_found(s.consumed, call, true, call);
}

fn copy_items(items: &Vec<GatherItem>) -> (r: Vec<GatherItem>)
    ensures
        r@ == items@,
{
    let mut out: Vec<GatherItem> = Vec::new();
    let mut i: usize = 0;
    while i < items.len()
        invariant
            0 <= i <= items@.len(),
            out@ == items@.take(i as int),
        decreases items@.len() - i,
    {
        out.push(items[i]);
        i = i + 1;
        assert(out@ =~= items@.take(i as int));
    }
    assert(out@ =~= items@);
    out
}

/// Starts the items of a gather.
fn start_items(
    scheduler: &mut Scheduler,
    gather_id: HeapId,
    items: &Vec<GatherItem>,
    results: &mut Vec<Option<Value>>,
) -> (r: (Vec<TaskId>, Vec<CallId>))
    ensures
        ({
            let said = gather_started(
                old(scheduler)@,
                gather_id,
                items@,
                old(results)@,
                items@.len() as int,
            );
            &&& final(scheduler)@ == said.scheduler
            &&& final(results)@ == said.results
            &&& r.0@ == said.task_ids
            &&& r.1@ == said.pending_calls
        }),
{
    let mut task_ids: Vec<TaskId> = Vec::new();
    let mut pending: Vec<CallId> = Vec::new();
    let mut i: usize = 0;
    while i < items.len()
        invariant
            0 <= i <= items@.len(),
            ({
                let said = gather_started(
                    old(scheduler)@,
                    gather_id,
                    items@,
                    old(results)@,
                    i as int,
                );
                &&& scheduler@ == said.scheduler
                &&& results@ == said.results
                &&& task_ids@ == said.task_ids
                &&& pending@ == said.pending_calls
            }),
        decreases items@.len() - i,
    {
        match items[i] {
            GatherItem::Coroutine(id) => {
                let task: TaskId = scheduler.spawn(id, Some(gather_id), Some(i));
                task_ids.push(task);
            },
            GatherItem::ExternalFuture(call) => {
                scheduler.mark_consumed(call);
                match scheduler.take_resolved(call) {
                    Some(v) => {
                        if i < results.len() {
                            results[i] = Some(v);
                        }
                    },
                    None => {
                        pending.push(call);
                        scheduler.register_gather_for_call(call, gather_id, i);
                    },
                }
            },
        }
        i = i + 1;
    }
    (task_ids, pending)
}

impl<'a, T: ResourceTracker> VM<'a, T> {
    /// Awaits a coroutine.
    fn await_coroutine(&mut self, id: HeapId) -> (r: RunResult<AwaitResult>)
        requires
            old(self)@.heap.data(id) matches Some(DataView::Coroutine(_)),
        ensures
            await_matches(
                old(self)@.coroutine_awaited(id, old(self)@.heap.data(id)->0->Coroutine_0),
                r,
                final(self)@,
            ),
    {
        let fresh: bool = match self.heap.get(id) {
            Some(HeapData::Coroutine(c)) => c.state == CoroutineState::New,
            _ => false,
        };
        if !fresh {
            Value::Ref(id).drop_with_heap(&mut self.heap);
            return Err(RunError::fault(ExcType::RuntimeError, Fault::CoroutineReused));
        }
        let position: CodeRange = self.current_position();
        match self.start_coroutine_frame(id, Some(position)) {
            Err(e) => Err(e),
            Ok(()) => {
                Value::Ref(id).drop_with_heap(&mut self.heap);
                Ok(AwaitResult::FramePushed)
            },
        }
    }

    /// Awaits a call to the host.
    fn await_external_future(&mut self, call: CallId) -> (r: RunResult<AwaitResult>)
        ensures
            await_matches(old(self)@.call_awaited(call), r, final(self)@),
    {
        if let Some(s) = &self.scheduler {
            if s.is_consumed(call) {
                return Err(RunError::fault(ExcType::RuntimeError, Fault::FutureReused));
            }
        }
        self.get_or_create_scheduler();
        let mut found: Option<Value> = None;
        if let Some(s) = &mut self.scheduler {
            s.mark_consumed(call);
            found = s.take_resolved(call);
            if found.is_none() {
                s.block_current_on_call(call);
            }
        }
        match found {
            Some(v) => Ok(AwaitResult::ValueReady(v)),
            None => self.switch_or_yield(),
        }
    }

    fn ready_list(&mut self, items: Vec<Value>) -> (r: RunResult<AwaitResult>)
        ensures
            await_matches(old(self)@.list_ready(items@), r, final(self)@),
    {
        match allocate_list(items, &mut self.heap) {
            Ok(v) => Ok(AwaitResult::ValueReady(v)),
            Err(e) => Err(RunError::resource(e)),
        }
    }

    /// Awaits a gather.
    fn await_gather_future(&mut self, id: HeapId) -> (r: RunResult<AwaitResult>)
        requires
            old(self)@.heap.data(id) matches Some(DataView::GatherFuture(_)),
        ensures
            await_matches(
                old(self)@.gather_awaited(id, old(self)@.heap.data(id)->0->GatherFuture_0),
                r,
                final(self)@,
            ),
    {
        let ghost before = self@;
        let ghost g = before.heap.data(id)->0->GatherFuture_0;
        let (awaited, count): (bool, usize) = match self.heap.get(id) {
            Some(HeapData::GatherFuture(g)) => (g.waiter.is_some(), g.item_count()),
            _ => (true, 0),
        };
        if awaited {
            Value::Ref(id).drop_with_heap(&mut self.heap);
            return Err(RunError::fault(ExcType::RuntimeError, Fault::GatherReused));
        }
        if count == 0 {
            Value::Ref(id).drop_with_heap(&mut self.heap);
            let none: Vec<Value> = Vec::new();
            assert(none@ =~= Seq::empty());
            return self.ready_list(none);
        }
        self.get_or_create_scheduler();
        let ghost s = before.scheduler_or_new();
        let ghost run = gather_started(s, id, g.items, g.results, g.items.len() as int);
        let mut complete: bool = false;
        let mut results: Option<Vec<Value>> = None;
        let ghost waiting = GatherView {
            items: g.items,
            task_ids: run.task_ids,
            results: run.results,
            waiter: s.current_task,
            pending_calls: run.pending_calls,
        };
        if let Some(HeapData::GatherFuture(gather)) = self.heap.take_data(id) {
            let mut gather: GatherFuture = gather;
            if let Some(scheduler) = &mut self.scheduler {
                gather.waiter = scheduler.current_task_id();
                let items: Vec<GatherItem> = copy_items(&gather.items);
                let (task_ids, pending): (Vec<TaskId>, Vec<CallId>) = start_items(
                    scheduler,
                    id,
                    &items,
                    &mut gather.results,
                );
                complete = task_ids.len() == 0 && pending.len() == 0;
                gather.task_ids = task_ids;
                gather.pending_calls = pending;
            }
            assert(gather@ =~= waiting);
            if complete {
                results = unwrap_results(&gather.results);
                if results.is_some() {
                    gather.results = Vec::new();
                    assert(gather@ =~= (GatherView { results: Seq::empty(), ..waiting }));
                }
            }
            self.heap.put_data(id, HeapData::GatherFuture(gather));
            assert(self.heap@.entries =~= before.heap.set_data(
                id,
                Some(DataView::GatherFuture(gather@)),
            ).entries);
        }
        if complete {
            return match results {
                None => Err(RunError::internal(Fault::GatherIncomplete)),
                Some(values) => {
                    Value::Ref(id).drop_with_heap(&mut self.heap);
                    self.ready_list(values)
                },
            };
        }
        if let Some(scheduler) = &mut self.scheduler {
            scheduler.block_current_on_gather(id);
        }
        self.switch_or_yield()
    }

    /// Awaits the value on top.
    pub fn exec_get_awaitable(&mut self) -> (r: RunResult<AwaitResult>)
        requires
            old(self)@.stack.len() >= 1,
        ensures
            await_matches(old(self)@.awaited(), r, final(self)@),
    {
        let v: Value = self.pop();
        match v {
            Value::ExternalFuture(call) => {
                return self.await_external_future(call);
            },
            Value::Ref(id) => {
                let kind: Option<bool> = match self.heap.get(id) {
                    Some(HeapData::Coroutine(_)) => Some(true),
                    Some(HeapData::GatherFuture(_)) => Some(false),
                    _ => None,
                };
                match kind {
                    Some(true) => {
                        return self.await_coroutine(id);
                    },
                    Some(false) => {
                        return self.await_gather_future(id);
                    },
                    None => {},
                }
            },
            _ => {},
        }
        let t: Type = v.py_type(&self.heap);
        v.drop_with_heap(&mut self.heap);
        Err(RunError::type_error(Fault::NotAwaitable(t)))
    }
}

} // verus!
