//! The tasks of a program and the calls to the host they wait for.

use vstd::prelude::*;
use crate::call_map::{
    calls_of, enter_call, find_call, list_calls, lookup_call, remove_call, with_call, without_call,
};
use crate::error::{ErrorView, Fault, RunError};
use crate::frame::{drop_frames, frames_released, frames_view, CallFrame, FrameView};
use crate::heap::{Heap, HeapView};
use crate::ids::{CallId, HeapId, TaskId};
use crate::namespaces::{Namespaces, NamespacesView};
use crate::types::ExcType;
use crate::value::Value;

verus! {

/// What a task is doing.
#[derive(Debug)]
pub enum TaskState {
    Ready,
    BlockedOnCall(CallId),
    BlockedOnGather(HeapId),
    Completed(Value),
    Failed(RunError),
}

/// The content of a [`TaskState`].
pub enum TaskStateView {
    Ready,
    BlockedOnCall(CallId),
    BlockedOnGather(HeapId),
    Completed(Value),
    Failed(ErrorView),
}

impl View for TaskState {
    type V = TaskStateView;

    open spec fn view(&self) -> TaskStateView {
        match self {
            TaskState::Ready => TaskStateView::Ready,
            TaskState::BlockedOnCall(id) => TaskStateView::BlockedOnCall(*id),
            TaskState::BlockedOnGather(id) => TaskStateView::BlockedOnGather(*id),
            TaskState::Completed(v) => TaskStateView::Completed(*v),
            TaskState::Failed(e) => TaskStateView::Failed(e@),
        }
    }
}

impl TaskStateView {
    /// Whether the task has ended, well or not.
    pub open spec fn finished(self) -> bool {
        self is Completed || self is Failed
    }
}

/// A task: what it is doing, and its frames and stacks while it is not running.
#[derive(Debug)]
pub struct Task {
    pub frames: Vec<CallFrame>,
    pub stack: Vec<Value>,
    pub exception_stack: Vec<Value>,
    pub instruction_ip: usize,
    /// The coroutine the task runs; the main task has none.
    pub coroutine_id: Option<HeapId>,
    /// The gather that started the task, and the place of its result there.
    pub gather_id: Option<HeapId>,
    pub gather_result_idx: Option<usize>,
    /// The call whose result the task has not picked up yet.
    pub unblocked_by: Option<CallId>,
    pub state: TaskState,
}

/// The content of a [`Task`].
#[verifier::ext_equal]
pub struct TaskView {
    pub frames: Seq<FrameView>,
    pub stack: Seq<Value>,
    pub exception_stack: Seq<Value>,
    pub instruction_ip: usize,
    pub coroutine_id: Option<HeapId>,
    pub gather_id: Option<HeapId>,
    pub gather_result_idx: Option<usize>,
    pub unblocked_by: Option<CallId>,
    pub state: TaskStateView,
}

impl View for Task {
    type V = TaskView;

    open spec fn view(&self) -> TaskView {
        TaskView {
            frames: frames_view(self.frames@),
            stack: self.stack@,
            exception_stack: self.exception_stack@,
            instruction_ip: self.instruction_ip,
            coroutine_id: self.coroutine_id,
            gather_id: self.gather_id,
            gather_result_idx: self.gather_result_idx,
            unblocked_by: self.unblocked_by,
            state: self.state@,
        }
    }
}

impl TaskView {
    /// A task that has not run yet.
    pub open spec fn fresh(
        coroutine_id: Option<HeapId>,
        gather_id: Option<HeapId>,
        gather_result_idx: Option<usize>,
    ) -> TaskView {
        TaskView {
            frames: Seq::empty(),
            stack: Seq::empty(),
            exception_stack: Seq::empty(),
            instruction_ip: 0,
            coroutine_id,
            gather_id,
            gather_result_idx,
            unblocked_by: None,
            state: TaskStateView::Ready,
        }
    }

    /// The task doing something else.
    pub open spec fn in_state(self, state: TaskStateView) -> TaskView {
        TaskView { state, ..self }
    }
}

impl Task {
    fn new(
        coroutine_id: Option<HeapId>,
        gather_id: Option<HeapId>,
        gather_result_idx: Option<usize>,
    ) -> (r: Self)
        ensures
            r@ == TaskView::fresh(coroutine_id, gather_id, gather_result_idx),
    {
        let r: Task = Task {
            frames: Vec::new(),
            stack: Vec::new(),
            exception_stack: Vec::new(),
            instruction_ip: 0,
            coroutine_id,
            gather_id,
            gather_result_idx,
            unblocked_by: None,
            state: TaskState::Ready,
        };
        assert(r@ =~= TaskView::fresh(coroutine_id, gather_id, gather_result_idx));
        r
    }

    /// Whether the task has ended, well or not.
    pub fn is_finished(&self) -> (r: bool)
        ensures
            r == self@.state.finished(),
    {
        match &self.state {
            TaskState::Completed(_) => true,
            TaskState::Failed(_) => true,
            _ => false,
        }
    }
}

/// A call to the host that has not been answered.
#[derive(Debug, Clone, Copy, PartialEq, Eq, Structural)]
pub struct PendingCallData {
    pub creator_task: TaskId,
}

/// All tasks, those ready to run, and the calls that are waited for.
#[derive(Debug)]
pub struct Scheduler {
    /// The tasks by id; the first one is the main task.
    pub tasks: Vec<Task>,
    pub ready_queue: Vec<TaskId>,
    pub current_task: Option<TaskId>,
    pub next_call_id: u32,
    pub pending_calls: Vec<(CallId, PendingCallData)>,
    pub resolved: Vec<(CallId, Value)>,
    /// Calls that have been awaited.
    pub consumed: Vec<(CallId, bool)>,
    pub gather_waiters: Vec<(CallId, (HeapId, usize))>,
}

/// The content of a [`Scheduler`].
#[verifier::ext_equal]
pub struct SchedulerView {
    pub tasks: Seq<TaskView>,
    pub ready_queue: Seq<TaskId>,
    pub current_task: Option<TaskId>,
    pub next_call_id: u32,
    pub pending_calls: Seq<(CallId, PendingCallData)>,
    pub resolved: Seq<(CallId, Value)>,
    pub consumed: Seq<(CallId, bool)>,
    pub gather_waiters: Seq<(CallId, (HeapId, usize))>,
}

/// The contents of several tasks.
pub open spec fn tasks_view(tasks: Seq<Task>) -> Seq<TaskView> {
    tasks.map_values(|t: Task| t@)
}

impl View for Scheduler {
    type V = SchedulerView;

    open spec fn view(&self) -> SchedulerView {
        SchedulerView {
            tasks: tasks_view(self.tasks@),
            ready_queue: self.ready_queue@,
            current_task: self.current_task,
            next_call_id: self.next_call_id,
            pending_calls: self.pending_calls@,
            resolved: self.resolved@,
            consumed: self.consumed@,
            gather_waiters: self.gather_waiters@,
        }
    }
}

/// The queue without a task.
pub open spec fn unqueued(queue: Seq<TaskId>, id: TaskId) -> Seq<TaskId>
    decreases queue.len(),
{
    if queue.len() == 0 {
        Seq::empty()
    } else {
        let before = unqueued(queue.drop_last(), id);
        if queue.last() == id {
            before
        } else {
            before.push(queue.last())
        }
    }
}

/// The first of the first `n` tasks that waits for a call.
pub open spec fn blocked_task(tasks: Seq<TaskView>, call: CallId, n: int) -> Option<TaskId>
    decreases n,
{
    if n <= 0 {
        None
    } else {
        match blocked_task(tasks, call, n - 1) {
            Some(id) => Some(id),
            None => if tasks[n - 1].state == TaskStateView::BlockedOnCall(call) {
                Some(TaskId((n - 1) as usize))
            } else {
                None
            },
        }
    }
}

/// The error a cancelled task has failed with.
pub open spec fn cancellation() -> ErrorView {
    ErrorView::fault(ExcType::RuntimeError, Fault::TaskCancelled)
}

impl SchedulerView {
    /// Only the main task, which is running.
    pub open spec fn fresh(next_call_id: u32) -> SchedulerView {
        SchedulerView {
            tasks: seq![TaskView::fresh(None, None, None)],
            ready_queue: Seq::empty(),
            current_task: Some(TaskId::main_task()),
            next_call_id,
            pending_calls: Seq::empty(),
            resolved: Seq::empty(),
            consumed: Seq::empty(),
            gather_waiters: Seq::empty(),
        }
    }

    /// The task with the given id.
    pub open spec fn task(self, id: TaskId) -> Option<TaskView> {
        if id.0 < self.tasks.len() {
            Some(self.tasks[id.0 as int])
        } else {
            None
        }
    }

    /// The scheduler with a task replaced.
    pub open spec fn with_task(self, id: TaskId, task: TaskView) -> SchedulerView {
        if id.0 < self.tasks.len() {
            SchedulerView { tasks: self.tasks.update(id.0 as int, task), ..self }
        } else {
            self
        }
    }

    /// The scheduler with a task doing something else.
    pub open spec fn task_in_state(self, id: TaskId, state: TaskStateView) -> SchedulerView {
        match self.task(id) {
            None => self,
            Some(t) => self.with_task(id, t.in_state(state)),
        }
    }

    /// The scheduler with a new task, ready to run a coroutine.
    pub open spec fn spawned(
        self,
        coroutine_id: HeapId,
        gather_id: Option<HeapId>,
        gather_result_idx: Option<usize>,
    ) -> SchedulerView {
        SchedulerView {
            tasks: self.tasks.push(
                TaskView::fresh(Some(coroutine_id), gather_id, gather_result_idx),
            ),
            ready_queue: self.ready_queue.push(TaskId(self.tasks.len() as usize)),
            ..self
        }
    }

    /// The scheduler with the running task waiting for something.
    pub open spec fn current_in_state(self, state: TaskStateView) -> SchedulerView {
        match self.current_task {
            None => self,
            Some(id) => self.task_in_state(id, state),
        }
    }

    /// The scheduler once the first task in the queue is taken out.
    pub open spec fn dequeued(self) -> SchedulerView {
        if self.ready_queue.len() == 0 {
            self
        } else {
            SchedulerView { ready_queue: self.ready_queue.skip(1), ..self }
        }
    }

    /// The first task in the queue.
    pub open spec fn next_ready(self) -> Option<TaskId> {
        if self.ready_queue.len() == 0 {
            None
        } else {
            Some(self.ready_queue[0])
        }
    }

    /// The scheduler with another task running, which is not in the queue then.
    pub open spec fn running(self, task: Option<TaskId>) -> SchedulerView {
        let s = SchedulerView { current_task: task, ..self };
        match task {
            None => s,
            Some(id) => s.without_queued(id),
        }
    }

    /// The scheduler with a task that has failed, which is not in the queue then.
    pub open spec fn with_failure(self, id: TaskId, error: ErrorView) -> SchedulerView {
        self.task_in_state(id, TaskStateView::Failed(error)).without_queued(id)
    }

    /// The scheduler with a task ready and at the end of the queue.
    pub open spec fn made_ready(self, id: TaskId) -> SchedulerView {
        let s = self.task_in_state(id, TaskStateView::Ready);
        SchedulerView { ready_queue: s.ready_queue.push(id), ..s }
    }

    /// The scheduler with a task out of the queue.
    pub open spec fn without_queued(self, id: TaskId) -> SchedulerView {
        SchedulerView { ready_queue: unqueued(self.ready_queue, id), ..self }
    }

    /// The scheduler once a call is no longer pending.
    pub open spec fn answered(self, call: CallId) -> SchedulerView {
        SchedulerView { pending_calls: without_call(self.pending_calls, call), ..self }
    }

    /// The scheduler once a call has been awaited.
    pub open spec fn awaited(self, call: CallId) -> SchedulerView {
        SchedulerView { consumed: with_call(self.consumed, call, true), ..self }
    }

    /// The scheduler once the result of a call has been picked up.
    pub open spec fn picked_up(self, call: CallId) -> SchedulerView {
        SchedulerView { resolved: without_call(self.resolved, call), ..self }
    }

    /// The scheduler once no gather waits for a call.
    pub open spec fn gather_forgotten(self, call: CallId) -> SchedulerView {
        SchedulerView { gather_waiters: without_call(self.gather_waiters, call), ..self }
    }

    /// The scheduler once a call has its result; a task that waits for it is ready then.
    pub open spec fn resolved_call(self, call: CallId, value: Value) -> SchedulerView {
        let s = SchedulerView {
            resolved: with_call(self.resolved, call, value),
            ..self.answered(call)
        };
        match blocked_task(s.tasks, call, s.tasks.len() as int) {
            None => s,
            Some(id) => {
                let t = s.tasks[id.0 as int];
                SchedulerView {
                    ready_queue: s.ready_queue.push(id),
                    ..s.with_task(
                        id,
                        TaskView {
                            unblocked_by: Some(call),
                            state: TaskStateView::Ready,
                            ..t
                        },
                    )
                }
            },
        }
    }

    /// The scheduler once a call has failed; a task that waits for it fails with it.
    pub open spec fn failed_call(self, call: CallId, error: ErrorView) -> SchedulerView {
        let s = self.answered(call);
        match blocked_task(s.tasks, call, s.tasks.len() as int) {
            None => s,
            Some(id) => s.with_failure(id, error),
        }
    }

    /// The result a task has not picked up yet.
    pub open spec fn waiting_result(self, id: TaskId) -> Option<Value> {
        match self.task(id) {
            None => None,
            Some(t) => match t.unblocked_by {
                None => None,
                Some(call) => find_call(self.resolved, call),
            },
        }
    }

    /// The scheduler once a task has picked up its result.
    pub open spec fn result_picked_up(self, id: TaskId) -> SchedulerView {
        match self.task(id) {
            None => self,
            Some(t) => match t.unblocked_by {
                None => self,
                Some(call) => self.with_task(id, TaskView { unblocked_by: None, ..t }).picked_up(
                    call,
                ),
            },
        }
    }
}

/// What cancelling a task leads to: what it holds is given up, and it has failed. A task
/// that has ended is left alone.
pub open spec fn cancelled<T>(
    s: SchedulerView,
    h: HeapView<T>,
    n: NamespacesView,
    id: TaskId,
) -> (SchedulerView, HeapView<T>, NamespacesView) {
    match s.task(id) {
        None => (s, h, n),
        Some(t) => if t.state.finished() {
            (s, h, n)
        } else {
            let (h1, n1) = frames_released(
                h.release_values(t.stack).release_values(t.exception_stack),
                n,
                t.frames,
            );
            (
                s.with_task(
                    id,
                    TaskView {
                        frames: Seq::empty(),
                        stack: Seq::empty(),
                        exception_stack: Seq::empty(),
                        state: TaskStateView::Failed(cancellation()),
                        ..t
                    },
                ).without_queued(id),
                h1,
                n1,
            )
        },
    }
}

impl Scheduler {
    /// Only the main task, which is running.
    pub fn new() -> (r: Self)
        ensures
            r@ == SchedulerView::fresh(0),
    {
        let mut tasks: Vec<Task> = Vec::new();
        tasks.push(Task::new(None, None, None));
        let r: Scheduler = Scheduler {
            tasks,
            ready_queue: Vec::new(),
            current_task: Some(TaskId(0)),
            next_call_id: 0,
            pending_calls: Vec::new(),
            resolved: Vec::new(),
            consumed: Vec::new(),
            gather_waiters: Vec::new(),
        };
        assert(r@ =~= SchedulerView::fresh(0));
        r
    }

    /// Sets the number the next call gets.
    pub fn set_next_call_id(&mut self, next_call_id: u32)
        ensures
            final(self)@ == (SchedulerView { next_call_id, ..old(self)@ }),
    {
        self.next_call_id = next_call_id;
    }

    /// The task that is running.
    pub fn current_task_id(&self) -> (r: Option<TaskId>)
        ensures
            r == self@.current_task,
    {
        self.current_task
    }

    /// Sets the task that is running; it is taken out of the queue.
    pub fn set_current_task(&mut self, task: Option<TaskId>)
        ensures
            final(self)@ == old(self)@.running(task),
    {
        self.current_task = task;
        if let Some(id) = task {
            self.remove_from_ready_queue(id);
        }
    }

    /// The task with the given id.
    pub fn get_task(&self, id: TaskId) -> (r: Option<&Task>)
        ensures
            r is Some <==> self@.task(id) is Some,
            r matches Some(t) ==> self@.task(id) == Some(t@),
    {
        if id.0 < self.tasks.len() {
            Some(&self.tasks[id.0])
        } else {
            None
        }
    }

    /// Takes a task out to change it; an empty one takes its place.
    fn take_task(&mut self, id: TaskId) -> (r: Task)
        requires
            id.0 < old(self).tasks@.len(),
        ensures
            old(self)@.task(id) == Some(r@),
            final(self)@ == old(self)@.with_task(id, TaskView::fresh(None, None, None)),
    {
        let mut task: Task = Task::new(None, None, None);
        std::mem::swap(&mut task, &mut self.tasks[id.0]);
        assert(self@.tasks =~= old(self)@.tasks.update(
            id.0 as int,
            TaskView::fresh(None, None, None),
        ));
        task
    }

    /// Replaces a task.
    pub fn put_task(&mut self, id: TaskId, task: Task)
        ensures
            final(self)@ == old(self)@.with_task(id, task@),
    {
        if id.0 < self.tasks.len() {
            self.tasks[id.0] = task;
            assert(self@.tasks =~= old(self)@.tasks.update(id.0 as int, task@));
        }
    }

    /// Takes a task out to change it, if there is one with that id.
    pub fn take_task_out(&mut self, id: TaskId) -> (r: Option<Task>)
        ensures
            r is Some <==> old(self)@.task(id) is Some,
            r matches Some(t) ==> old(self)@.task(id) == Some(t@) && final(self)@
                == old(self)@.with_task(id, TaskView::fresh(None, None, None)),
            r is None ==> final(self)@ == old(self)@,
    {
        if id.0 < self.tasks.len() {
            Some(self.take_task(id))
        } else {
            None
        }
    }

    /// Sets what a task is doing.
    pub fn set_state(&mut self, id: TaskId, state: TaskState)
        ensures
            final(self)@ == old(self)@.task_in_state(id, state@),
    {
        if id.0 < self.tasks.len() {
            let ghost before = self@;
            let mut task: Task = self.take_task(id);
            task.state = state;
            self.put_task(id, task);
            assert(self@.tasks =~= before.task_in_state(id, state@).tasks);
        }
    }

    /// Starts a task that runs a coroutine.
    pub fn spawn(
        &mut self,
        coroutine_id: HeapId,
        gather_id: Option<HeapId>,
        gather_result_idx: Option<usize>,
    ) -> (r: TaskId)
        ensures
            r.0 == old(self)@.tasks.len(),
            final(self)@ == old(self)@.spawned(coroutine_id, gather_id, gather_result_idx),
    {
        let id: TaskId = TaskId(self.tasks.len());
        self.tasks.push(Task::new(Some(coroutine_id), gather_id, gather_result_idx));
        self.ready_queue.push(id);
        assert(self@ =~= old(self)@.spawned(coroutine_id, gather_id, gather_result_idx));
        id
    }

    /// Notes that a call has been awaited.
    pub fn mark_consumed(&mut self, call: CallId)
        ensures
            final(self)@ == old(self)@.awaited(call),
    {
        enter_call(&mut self.consumed, call, true);
    }

    /// Whether a call has been awaited.
    pub fn is_consumed(&self, call: CallId) -> (r: bool)
        ensures
            r == (find_call(self@.consumed, call) is Some),
    {
        lookup_call(&self.consumed, call).is_some()
    }

    /// Picks up the result of a call, if it has one.
    pub fn take_resolved(&mut self, call: CallId) -> (r: Option<Value>)
        ensures
            r == find_call(old(self)@.resolved, call),
            final(self)@ == old(self)@.picked_up(call),
    {
        let found: Option<Value> = lookup_call(&self.resolved, call);
        remove_call(&mut self.resolved, call);
        found
    }

    /// Notes that a gather waits for a call.
    pub fn register_gather_for_call(&mut self, call: CallId, gather_id: HeapId, idx: usize)
        ensures
            final(self)@ == (SchedulerView {
                gather_waiters: with_call(old(self)@.gather_waiters, call, (gather_id, idx)),
                ..old(self)@
            }),
    {
        enter_call(&mut self.gather_waiters, call, (gather_id, idx));
    }

    /// The gather that waits for a call, which it no longer does then.
    pub fn take_gather_waiter(&mut self, call: CallId) -> (r: Option<(HeapId, usize)>)
        ensures
            r == find_call(old(self)@.gather_waiters, call),
            final(self)@ == old(self)@.gather_forgotten(call),
    {
        let found: Option<(HeapId, usize)> = lookup_call(&self.gather_waiters, call);
        remove_call(&mut self.gather_waiters, call);
        found
    }

    /// Lets the running task wait for a gather.
    pub fn block_current_on_gather(&mut self, gather_id: HeapId)
        ensures
            final(self)@ == old(self)@.current_in_state(TaskStateView::BlockedOnGather(gather_id)),
    {
        if let Some(id) = self.current_task {
            self.set_state(id, TaskState::BlockedOnGather(gather_id));
        }
    }

    /// Lets the running task wait for a call.
    pub fn block_current_on_call(&mut self, call: CallId)
        ensures
            final(self)@ == old(self)@.current_in_state(TaskStateView::BlockedOnCall(call)),
    {
        if let Some(id) = self.current_task {
            self.set_state(id, TaskState::BlockedOnCall(call));
        }
    }

    /// Takes the next task out of the queue.
    pub fn next_ready_task(&mut self) -> (r: Option<TaskId>)
        ensures
            r == old(self)@.next_ready(),
            final(self)@ == old(self)@.dequeued(),
    {
        if self.ready_queue.len() == 0 {
            None
        } else {
            let id: TaskId = self.ready_queue.remove(0);
            assert(self.ready_queue@ =~= old(self).ready_queue@.skip(1));
            Some(id)
        }
    }

    /// The calls that have not been answered.
    pub fn pending_call_ids(&self) -> (r: Vec<CallId>)
        ensures
            r@ == calls_of(self@.pending_calls),
    {
        list_calls(&self.pending_calls)
    }

    /// Notes that a task has returned.
    pub fn complete_task(&mut self, id: TaskId, result: Value)
        ensures
            final(self)@ == old(self)@.task_in_state(id, TaskStateView::Completed(result)),
    {
        self.set_state(id, TaskState::Completed(result));
    }

    /// Notes that a task has failed; it is taken out of the queue.
    pub fn fail_task(&mut self, id: TaskId, error: RunError)
        ensures
            final(self)@ == old(self)@.with_failure(id, error@),
    {
        self.set_state(id, TaskState::Failed(error));
        self.remove_from_ready_queue(id);
    }

    /// Puts a task at the end of the queue.
    pub fn make_ready(&mut self, id: TaskId)
        ensures
            final(self)@ == old(self)@.made_ready(id),
    {
        self.set_state(id, TaskState::Ready);
        self.ready_queue.push(id);
    }

    /// Takes a task out of the queue.
    pub fn remove_from_ready_queue(&mut self, id: TaskId)
        ensures
            final(self)@ == old(self)@.without_queued(id),
    {
        let ghost all = self.ready_queue@;
        let mut kept: Vec<TaskId> = Vec::new();
        let mut i: usize = 0;
        while i < self.ready_queue.len()
            invariant
                self.ready_queue@ == all,
                self@ == old(self)@,
                0 <= i <= all.len(),
                kept@ == unqueued(all.take(i as int), id),
            decreases all.len() - i,
        {
            assert(all.take(i + 1).drop_last() =~= all.take(i as int));
            if self.ready_queue[i] != id {
                kept.push(self.ready_queue[i]);
            }
            i = i + 1;
        }
        assert(all.take(i as int) =~= all);
        self.ready_queue = kept;
    }

    /// The task that made a pending call.
    pub fn get_pending_call_creator(&self, call: CallId) -> (r: Option<TaskId>)
        ensures
            r == (match find_call(self@.pending_calls, call) {
                None => None,
                Some(data) => Some(data.creator_task),
            }),
    {
        match lookup_call(&self.pending_calls, call) {
            None => None,
            Some(data) => Some(data.creator_task),
        }
    }

    /// Whether a task has failed or been cancelled.
    pub fn is_task_failed(&self, id: TaskId) -> (r: bool)
        ensures
            r == (self@.task(id) matches Some(t) && t.state is Failed),
    {
        match self.get_task(id) {
            None => false,
            Some(t) => match &t.state {
                TaskState::Failed(_) => true,
                _ => false,
            },
        }
    }

    /// Notes that a call is no longer pending.
    pub fn remove_pending_call(&mut self, call: CallId)
        ensures
            final(self)@ == old(self)@.answered(call),
    {
        remove_call(&mut self.pending_calls, call);
    }

    /// Notes that a call is pending.
    pub fn add_pending_call(&mut self, call: CallId, data: PendingCallData)
        ensures
            final(self)@ == (SchedulerView {
                pending_calls: with_call(old(self)@.pending_calls, call, data),
                ..old(self)@
            }),
    {
        enter_call(&mut self.pending_calls, call, data);
    }

    /// The first task that waits for a call.
    fn find_blocked(&self, call: CallId) -> (r: Option<TaskId>)
        ensures
            r == blocked_task(self@.tasks, call, self@.tasks.len() as int),
            r matches Some(id) ==> id.0 < self@.tasks.len(),
    {
        let mut i: usize = 0;
        while i < self.tasks.len()
            invariant
                0 <= i <= self.tasks@.len(),
                blocked_task(self@.tasks, call, i as int) is None,
            decreases self.tasks@.len() - i,
        {
            assert(self@.tasks[i as int] == self.tasks@[i as int]@);
            if let TaskState::BlockedOnCall(waits_for) = &self.tasks[i].state {
                if *waits_for == call {
                    proof {
                        found_task_stays(self@.tasks, call, i + 1, self@.tasks.len() as int);
                    }
                    return Some(TaskId(i));
                }
            }
            i = i + 1;
        }
        None
    }

    /// Gives a call its result.
    pub fn resolve(&mut self, call: CallId, value: Value)
        ensures
            final(self)@ == old(self)@.resolved_call(call, value),
    {
        self.remove_pending_call(call);
        enter_call(&mut self.resolved, call, value);
        let ghost before = self@;
        if let Some(id) = self.find_blocked(call) {
            let mut task: Task = self.take_task(id);
            task.state = TaskState::Ready;
            task.unblocked_by = Some(call);
            self.put_task(id, task);
            self.ready_queue.push(id);
            assert(self@ =~= old(self)@.resolved_call(call, value));
        }
    }

    /// Lets a call fail; hands out the task that failed with it and that task's gather.
    pub fn fail_for_call(&mut self, call: CallId, error: RunError) -> (r: Option<
        (TaskId, Option<HeapId>),
    >)
        ensures
            final(self)@ == old(self)@.failed_call(call, error@),
            r == (match blocked_task(old(self)@.tasks, call, old(self)@.tasks.len() as int) {
                None => None,
                Some(id) => Some((id, old(self)@.tasks[id.0 as int].gather_id)),
            }),
    {
        self.remove_pending_call(call);
        match self.find_blocked(call) {
            None => None,
            Some(id) => {
                assert(self@.tasks[id.0 as int] == self.tasks@[id.0 as int]@);
                let gather_id: Option<HeapId> = self.tasks[id.0].gather_id;
                self.fail_task(id, error);
                Some((id, gather_id))
            },
        }
    }

    /// Picks up the result a task has been waiting for, if it has one.
    pub fn take_resolved_for_task(&mut self, id: TaskId) -> (r: Option<Value>)
        ensures
            r == old(self)@.waiting_result(id),
            final(self)@ == old(self)@.result_picked_up(id),
    {
        let call: Option<CallId> = match self.get_task(id) {
            None => None,
            Some(t) => t.unblocked_by,
        };
        match call {
            None => None,
            Some(c) => {
                let ghost before = self@;
                let mut task: Task = self.take_task(id);
                task.unblocked_by = None;
                self.put_task(id, task);
                let found: Option<Value> = self.take_resolved(c);
                assert(self@ =~= before.result_picked_up(id));
                found
            },
        }
    }

    /// Cancels a task.
    pub fn cancel_task<T>(&mut self, id: TaskId, heap: &mut Heap<T>, namespaces: &mut Namespaces)
        ensures
            (final(self)@, final(heap)@, final(namespaces)@) == cancelled(
                old(self)@,
                old(heap)@,
                old(namespaces)@,
                id,
            ),
    {
        let ends: bool = match self.get_task(id) {
            None => true,
            Some(t) => t.is_finished(),
        };
        if ends {
            return;
        }
        let ghost before = self@;
        let task: Task = self.take_task(id);
        heap.drop_values(task.stack.as_slice());
        heap.drop_values(task.exception_stack.as_slice());
        drop_frames(task.frames, heap, namespaces);
        let ended: Task = Task {
            frames: Vec::new(),
            stack: Vec::new(),
            exception_stack: Vec::new(),
            instruction_ip: task.instruction_ip,
            coroutine_id: task.coroutine_id,
            gather_id: task.gather_id,
            gather_result_idx: task.gather_result_idx,
            unblocked_by: task.unblocked_by,
            state: TaskState::Failed(RunError::fault(ExcType::RuntimeError, Fault::TaskCancelled)),
        };
        let ghost t = before.tasks[id.0 as int];
        assert(ended@ =~= TaskView {
            frames: Seq::empty(),
            stack: Seq::empty(),
            exception_stack: Seq::empty(),
            state: TaskStateView::Failed(cancellation()),
            ..t
        });
        self.put_task(id, ended);
        assert(self@.tasks =~= before.tasks.update(id.0 as int, ended@));
        self.remove_from_ready_queue(id);
    }
}

/// A task that is found stays the first one found.
proof fn found_task_stays(tasks: Seq<TaskView>, call: CallId, k: int, n: int)
    requires
        0 <= k <= n,
        blocked_task(tasks, call, k) is Some,
    ensures
        blocked_task(tasks, call, n) == blocked_task(tasks, call, k),
    decreases n - k,
{
    if k < n {
        found_task_stays(tasks, call, k, n - 1);
    }
}

} // verus!
