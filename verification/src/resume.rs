//! Going on with a program after the host has answered calls.

use vstd::prelude::*;
use crate::error::{
    ErrorView, ExceptionView, Fault, InvalidInputError, Message, MessageView, RaiseView, RunError,
    RunResult,
};
use crate::exception::{ExceptionInfo, MontyException};
use crate::heap::Heap;
use crate::ids::CallId;
use crate::interns::Interns;
use crate::namespaces::Namespaces;
use crate::object::imported;
use crate::resource::ResourceTracker;
use crate::run::{
    execution_of, host_fault, raw_call_ids, raw_ids, Execution, Executor, ExternalResult,
    FutureSnapshot, MontyFuture, Resumed, RunProgress, Snapshot,
};
use crate::types::ExcType;
use crate::value::Value;
use crate::vm::exceptions::Handling;
use crate::vm::scheduler::TaskState;
use crate::vm::snapshot::VMSnapshot;
use crate::vm::task_laws::pending_call_is_listed;
use crate::vm::{fails, VmStep, VmView, VM};

verus! {

/// The error a host's exception is in the program.
pub open spec fn host_error(exc: MontyException) -> ErrorView {
    ErrorView::Exc(
        RaiseView {
            exc: ExceptionView {
                exc_type: exc.exc_type,
                message: match exc.message {
                    None => None,
                    Some(text) => Some(MessageView::Text(text@)),
                },
            },
            frame: None,
            hide_caret: false,
        },
    )
}

/// How far answering calls has come.
pub struct Answers<T> {
    pub vm: VmView<T>,
    /// The first call whose result cannot enter the program, and why.
    pub error: Option<(u32, InvalidInputError)>,
}

/// How a program goes on after calls have been answered.
pub enum Outlook<T> {
    /// The program ends with an exception.
    Fails(ExceptionInfo),
    /// The program waits for these calls.
    Waits(VmView<T>, Seq<u32>),
    /// The program runs.
    Runs(VmView<T>),
}

impl<T: ResourceTracker> VmView<T> {
    /// What the result of a call leads to that the program waits for: a value is pushed, an
    /// exception is raised, or, if the result comes later, what stands for it is pushed.
    pub open spec fn call_resumed(self, call: u32, answer: ExternalResult) -> Handling<T> {
        match answer {
            ExternalResult::Return(object) => {
                let taken = imported(self.heap, self.interns, object);
                let vm = self.with_heap(taken.heap);
                match taken.result {
                    Err(e) => Handling {
                        vm,
                        result: Some(
                            ErrorView::fault(
                                ExcType::RuntimeError,
                                Fault::InvalidReturn(call, e),
                            ),
                        ),
                    },
                    Ok(v) => Handling { vm: vm.pushed(v), result: None },
                }
            },
            ExternalResult::Error(exc) => self.handled(host_error(exc), self.task_count()),
            ExternalResult::Future => Handling {
                vm: self.call_pending(CallId(call)).pushed(Value::ExternalFuture(CallId(call))),
                result: None,
            },
        }
    }

    /// What the first `n` answers lead to, one after the other, up to the first value that
    /// cannot enter the program. An answer that comes later changes nothing.
    pub open spec fn answers_taken(self, answers: Seq<(u32, ExternalResult)>, n: int) -> Answers<T>
        decreases n,
    {
        if n <= 0 {
            Answers { vm: self, error: None }
        } else {
            let before = self.answers_taken(answers, n - 1);
            let (call, answer) = answers[n - 1];
            if before.error is Some {
                before
            } else {
                match answer {
                    ExternalResult::Return(object) => {
                        let said = before.vm.future_resolved(CallId(call), object);
                        Answers {
                            vm: said.vm,
                            error: match said.result {
                                Ok(()) => None,
                                Err(e) => Some((call, e)),
                            },
                        }
                    },
                    ExternalResult::Error(exc) => Answers {
                        vm: before.vm.future_failed(CallId(call), host_error(exc)),
                        error: None,
                    },
                    ExternalResult::Future => before,
                }
            }
        }
    }

    /// Whether the running task can go on as it is.
    pub open spec fn runnable(self) -> bool {
        &&& self.frames.len() != 0
        &&& self.scheduler matches Some(s)
        &&& s.current_task matches Some(id)
        &&& s.task(id) matches Some(t)
        &&& t.state is Ready
    }

    /// Whether another task can take over from the running one.
    pub open spec fn replaceable(self) -> bool {
        self.frames.len() != 0 && (self.scheduler matches Some(s) && s.next_ready() is Some)
    }

    /// What answers that have been taken lead to; the result says whether the program runs.
    ///
    /// If the running task has failed, its error ends the program. Otherwise the running task
    /// goes on with its result or, if it still waits or there is none, the next task in the
    /// queue does. If neither is possible and there are calls left to answer, the program
    /// waits.
    pub open spec fn settled(self) -> VmStep<bool, T> {
        match self.current_failure() {
            Some(e) => fails(self.current_failure_taken(), e),
            None => {
                let ready = self.awaited_result() is Some || self.result_pushed().runnable();
                let loaded = self.result_pushed().ready_task_loaded();
                match loaded.result {
                    Err(e) => fails(loaded.vm, e),
                    Ok(l) => if ready || l {
                        VmStep { vm: loaded.vm, result: Ok(true) }
                    } else if loaded.vm.replaceable() {
                        let switched = loaded.vm.switched();
                        VmStep {
                            vm: switched.vm,
                            result: match switched.result {
                                Ok(_) => Ok(true),
                                Err(e) => Err(e),
                            },
                        }
                    } else {
                        VmStep {
                            vm: loaded.vm,
                            result: Ok(loaded.vm.pending_calls().len() == 0),
                        }
                    },
                }
            },
        }
    }

    /// How a program goes on once answers have been taken.
    pub open spec fn outlook(self, interns: Interns, source: Seq<char>) -> Outlook<T> {
        let after = self.settled();
        match after.result {
            Err(e) => Outlook::Fails(e.info(interns, source)),
            Ok(true) => Outlook::Runs(after.vm),
            Ok(false) => Outlook::Waits(after.vm, raw_ids(after.vm.pending_calls())),
        }
    }
}

/// The first answer to a call that is not pending.
pub open spec fn first_unknown(answers: Seq<(u32, ExternalResult)>, pending: Seq<u32>, n: int) -> Option<
    u32,
>
    decreases n,
{
    if n <= 0 {
        None
    } else {
        match first_unknown(answers, pending, n - 1) {
            Some(call) => Some(call),
            None => if pending.contains(answers[n - 1].0) {
                None
            } else {
                Some(answers[n - 1].0)
            },
        }
    }
}

/// How a program goes on that is given answers.
///
/// Answers to calls that are not pending are refused, and so are values that cannot enter the
/// program.
pub open spec fn resumed<T: ResourceTracker>(
    vm: VmView<T>,
    source: Seq<char>,
    pending: Seq<u32>,
    answers: Seq<(u32, ExternalResult)>,
) -> Outlook<T> {
    match first_unknown(answers, pending, answers.len() as int) {
        Some(call) => Outlook::Fails(
            ExceptionInfo::runtime_error(
                MessageView::UnknownCall(call, pending).text(vm.interns),
            ),
        ),
        None => {
            let taken = vm.answers_taken(answers, answers.len() as int);
            match taken.error {
                Some((call, e)) => Outlook::Fails(
                    host_fault(Fault::InvalidReturn(call, e), vm.interns),
                ),
                None => taken.vm.outlook(vm.interns, source),
            }
        },
    }
}

/// Whether a program goes on as it is said to.
pub open spec fn resumed_as<T>(r: Resumed<T>, executor: Executor, said: Outlook<T>) -> bool {
    match said {
        Outlook::Fails(info) => r matches Resumed::Ended(Err(e)) && e@ == info,
        Outlook::Waits(vm, pending) => {
            &&& r matches Resumed::Ended(Ok(RunProgress::ResolveFutures(state)))
            &&& state.executor == executor
            &&& state.vm_state@ == vm.state()
            &&& state.heap@ == vm.heap
            &&& state.namespaces@ == vm.namespaces
            &&& state.pending_call_ids@ == pending
        },
        Outlook::Runs(vm) => r matches Resumed::Running(e) && execution_of(e, executor, vm),
    }
}

impl<T> Snapshot<T> {
    /// The machine of the program.
    pub open spec fn machine(self) -> VmView<T> {
        self.vm_state@.machine(
            self.heap@,
            self.namespaces@,
            self.executor.interns,
            self.executor.module_code,
        )
    }
}

impl<T> FutureSnapshot<T> {
    /// The machine of the program.
    pub open spec fn machine(self) -> VmView<T> {
        self.vm_state@.machine(
            self.heap@,
            self.namespaces@,
            self.executor.interns,
            self.executor.module_code,
        )
    }
}

proof fn settled_answers<T: ResourceTracker>(
    vm: VmView<T>,
    answers: Seq<(u32, ExternalResult)>,
    k: int,
    n: int,
)
    requires
        0 <= k <= n,
        vm.answers_taken(answers, k).error is Some,
    ensures
        vm.answers_taken(answers, n) == vm.answers_taken(answers, k),
    decreases n - k,
{
    if k < n {
        settled_answers(vm, answers, k, n - 1);
    }
}

proof fn settled_unknown(answers: Seq<(u32, ExternalResult)>, pending: Seq<u32>, k: int, n: int)
    requires
        0 <= k <= n,
        first_unknown(answers, pending, k) is Some,
    ensures
        first_unknown(answers, pending, n) == first_unknown(answers, pending, k),
    decreases n - k,
{
    if k < n {
        settled_unknown(answers, pending, k, n - 1);
    }
}

fn contains_id(ids: &Vec<u32>, id: u32) -> (r: bool)
    ensures
        r == ids@.contains(id),
{
    let mut i: usize = 0;
    while i < ids.len()
        invariant
            0 <= i <= ids@.len(),
            forall|k: int| 0 <= k < i ==> #[trigger] ids@[k] != id,
        decreases ids@.len() - i,
    {
        if ids[i] == id {
            assert(ids@[i as int] == id);
            return true;
        }
        i = i + 1;
    }
    false
}

fn find_unknown(answers: &Vec<(u32, ExternalResult)>, pending: &Vec<u32>) -> (r: Option<u32>)
    ensures
        r == first_unknown(answers@, pending@, answers@.len() as int),
{
    let mut i: usize = 0;
    while i < answers.len()
        invariant
            0 <= i <= answers@.len(),
            first_unknown(answers@, pending@, i as int) is None,
        decreases answers@.len() - i,
    {
        let call: u32 = answers[i].0;
        if !contains_id(pending, call) {
            proof {
                settled_unknown(answers@, pending@, i + 1, answers@.len() as int);
            }
            return Some(call);
        }
        i = i + 1;
    }
    None
}

impl<'a, T: ResourceTracker> VM<'a, T> {
    /// Gives the program the result of the call it waits for; hands out the error if the
    /// program ends with one.
    pub fn resume_call(&mut self, call_id: u32, answer: ExternalResult) -> (r: Option<RunError>)
        ensures
            ({
                let said = old(self)@.call_resumed(call_id, answer);
                &&& final(self)@ == said.vm
                &&& r is Some <==> said.result is Some
                &&& r matches Some(e) ==> said.result == Some(e@)
            }),
    {
        match answer {
            ExternalResult::Return(object) => match object.to_value(&mut self.heap, self.interns) {
                Err(e) => Some(
                    RunError::fault(ExcType::RuntimeError, Fault::InvalidReturn(call_id, e)),
                ),
                Ok(v) => {
                    self.push(v);
                    None
                },
            },
            ExternalResult::Error(exc) => {
                let error: RunError = RunError::from(exc);
                assert(error@ == host_error(exc));
                self.handle_exception(error)
            },
            ExternalResult::Future => {
                let call: CallId = CallId::new(call_id);
                self.add_pending_call(call);
                self.push(Value::ExternalFuture(call));
                None
            },
        }
    }

    /// Takes answers, up to the first value that cannot enter the program.
    fn take_answers(&mut self, answers: Vec<(u32, ExternalResult)>) -> (r: Option<
        (u32, InvalidInputError),
    >)
        requires
            old(self)@.scheduler is Some,
        ensures
            ({
                let said = old(self)@.answers_taken(answers@, answers@.len() as int);
                final(self)@ == said.vm && r == said.error
            }),
    {
        let ghost start = self@;
        let ghost all = answers@;
        let mut rest: Vec<(u32, ExternalResult)> = answers;
        let ghost mut n: int = 0;
        while rest.len() > 0
            invariant
                0 <= n <= all.len(),
                start == old(self)@,
                rest@ == all.skip(n),
                self@.scheduler is Some,
                start.answers_taken(all, n) == (Answers { vm: self@, error: None }),
                all == answers@,
            decreases rest@.len(),
        {
            let (call, answer): (u32, ExternalResult) = rest.remove(0);
            assert((call, answer) == all[n]);
            assert(rest@ =~= all.skip(n + 1));
            match answer {
                ExternalResult::Return(object) => {
                    if let Err(e) = self.resolve_future(call, object) {
                        proof {
                            settled_answers(start, all, n + 1, all.len() as int);
                        }
                        return Some((call, e));
                    }
                },
                ExternalResult::Error(exc) => {
                    let error: RunError = RunError::from(exc);
                    assert(error@ == host_error(exc));
                    self.fail_future(call, error);
                },
                ExternalResult::Future => {},
            }
            proof {
                n = n + 1;
            }
        }
        assert(n == all.len());
        None
    }

    /// Goes on after answers have been taken; says whether the program runs.
    fn settle(&mut self) -> (r: RunResult<bool>)
        ensures
            old(self)@.settled().matches(r, final(self)@),
    {
        if let Some(e) = self.take_failed_task_error() {
            return Err(e);
        }
        assert(self@ == old(self)@);
        let answered: bool = self.prepare_main_task_after_resolve();
        let ready: bool = answered || self.is_runnable();
        match self.load_ready_task_if_needed() {
            Err(e) => Err(e),
            Ok(loaded) => if ready || loaded {
                Ok(true)
            } else if self.is_replaceable() {
                match self.switch_or_yield() {
                    Err(e) => Err(e),
                    Ok(_) => Ok(true),
                }
            } else {
                Ok(self.get_pending_call_ids().len() == 0)
            },
        }
    }

    fn is_runnable(&self) -> (r: bool)
        ensures
            r == self@.runnable(),
    {
        if self.frames.len() == 0 {
            return false;
        }
        match &self.scheduler {
            None => false,
            Some(s) => match s.current_task_id() {
                None => false,
                Some(id) => match s.get_task(id) {
                    Some(t) => match t.state {
                        TaskState::Ready => true,
                        _ => false,
                    },
                    None => false,
                },
            },
        }
    }

    fn is_replaceable(&self) -> (r: bool)
        ensures
            r == self@.replaceable(),
    {
        match &self.scheduler {
            None => false,
            Some(s) => self.frames.len() != 0 && s.ready_queue.len() != 0,
        }
    }
}

impl<T: ResourceTracker> Snapshot<T> {
    /// Goes on with the result of the call the program waits for.
    pub fn run(self, result: ExternalResult) -> (r: Resumed<T>)
        ensures
            ({
                let said = self.machine().call_resumed(self.pending_call_id, result);
                resumed_as(
                    r,
                    self.executor,
                    match said.result {
                        None => Outlook::Runs(said.vm),
                        Some(e) => Outlook::Fails(e.info(self.executor.interns, self.executor.code@)),
                    },
                )
            }),
    {
        let mut vm: VM<'_, T> = VM::restore(
            self.vm_state,
            &self.executor.module_code,
            self.heap,
            self.namespaces,
            &self.executor.interns,
        );
        match vm.resume_call(self.pending_call_id, result) {
            None => {
                let (vm_state, heap, namespaces): (VMSnapshot, Heap<T>, Namespaces) = vm.snapshot();
                Resumed::Running(Execution { executor: self.executor, vm_state, heap, namespaces })
            },
            Some(e) => Resumed::Ended(Err(e.into_python_exception(&self.executor.interns, self.executor.code.as_str()))),
        }
    }

    /// Goes on with something that stands for the result of the call, which comes later.
    pub fn run_pending(self) -> (r: Resumed<T>)
        ensures
            resumed_as(
                r,
                self.executor,
                Outlook::Runs(
                    self.machine().call_pending(CallId(self.pending_call_id)).pushed(
                        Value::ExternalFuture(CallId(self.pending_call_id)),
                    ),
                ),
            ),
    {
        self.run(ExternalResult::from(MontyFuture))
    }
}

impl<T: ResourceTracker> FutureSnapshot<T> {
    /// The calls that have not been answered.
    pub fn pending_call_ids(&self) -> (r: &[u32])
        ensures
            r@ == self.pending_call_ids@,
    {
        self.pending_call_ids.as_slice()
    }

    /// Goes on with answers to some or all of the calls that have not been answered.
    pub fn resume(self, results: Vec<(u32, ExternalResult)>) -> (r: Resumed<T>)
        requires
            self.vm_state@.scheduler is Some,
        ensures
            resumed_as(
                r,
                self.executor,
                resumed(
                    self.machine(),
                    self.executor.code@,
                    self.pending_call_ids@,
                    results@,
                ),
            ),
    {
        if let Some(call) = find_unknown(&results, &self.pending_call_ids) {
            let message: Message = Message::UnknownCall(call, self.pending_call_ids);
            return Resumed::Ended(
                Err(MontyException::runtime_error(message.to_text(&self.executor.interns))),
            );
        }
        let mut vm: VM<'_, T> = VM::restore(
            self.vm_state,
            &self.executor.module_code,
            self.heap,
            self.namespaces,
            &self.executor.interns,
        );
        if let Some((call, e)) = vm.take_answers(results) {
            let message: Message = Message::Fault(Fault::InvalidReturn(call, e));
            return Resumed::Ended(
                Err(MontyException::runtime_error(message.to_text(&self.executor.interns))),
            );
        }
        let runs: bool = match vm.settle() {
            Err(e) => {
                return Resumed::Ended(Err(e.into_python_exception(&self.executor.interns, self.executor.code.as_str())));
            },
            Ok(runs) => runs,
        };
        let pending: Vec<u32> = raw_call_ids(&vm.get_pending_call_ids());
        let (vm_state, heap, namespaces): (VMSnapshot, Heap<T>, Namespaces) = vm.snapshot();
        if !runs {
            return Resumed::Ended(
                Ok(
                    RunProgress::ResolveFutures(
                        FutureSnapshot {
                            executor: self.executor,
                            vm_state,
                            heap,
                            namespaces,
                            pending_call_ids: pending,
                        },
                    ),
                ),
            );
        }
        Resumed::Running(Execution { executor: self.executor, vm_state, heap, namespaces })
    }
}

/// An answer to a call that is not pending is refused, and the exception names the call and
/// those that are pending.
pub proof fn unknown_call_is_refused<T: ResourceTracker>(
    vm: VmView<T>,
    source: Seq<char>,
    pending: Seq<u32>,
    answers: Seq<(u32, ExternalResult)>,
    k: int,
)
    requires
        0 <= k < answers.len(),
        !pending.contains(answers[k].0),
        forall|i: int| 0 <= i < k ==> pending.contains((#[trigger] answers[i]).0),
    ensures
        resumed(vm, source, pending, answers) == Outlook::<T>::Fails(
            ExceptionInfo::runtime_error(
                MessageView::UnknownCall(answers[k].0, pending).text(vm.interns),
            ),
        ),
{
    known_calls_are_not_unknown(answers, pending, k);
    settled_unknown(answers, pending, k + 1, answers.len() as int);
}

proof fn known_calls_are_not_unknown(answers: Seq<(u32, ExternalResult)>, pending: Seq<u32>, n: int)
    requires
        n <= answers.len(),
        forall|i: int| 0 <= i < n ==> pending.contains((#[trigger] answers[i]).0),
    ensures
        first_unknown(answers, pending, n) is None,
    decreases n,
{
    if n > 0 {
        known_calls_are_not_unknown(answers, pending, n - 1);
        assert(pending.contains(answers[n - 1].0));
    }
}

/// Saying that answers come later changes nothing.
pub proof fn later_answers_change_nothing<T: ResourceTracker>(
    vm: VmView<T>,
    answers: Seq<(u32, ExternalResult)>,
    n: int,
)
    requires
        n <= answers.len(),
        forall|i: int| 0 <= i < n ==> (#[trigger] answers[i]).1 is Future,
    ensures
        vm.answers_taken(answers, n) == (Answers { vm, error: None }),
    decreases n,
{
    if n > 0 {
        later_answers_change_nothing(vm, answers, n - 1);
        assert(answers[n - 1].1 is Future);
    }
}

/// Once answers have been taken without an error, a program waits only if no task can go on:
/// the running one, if there is one, is not ready, and the queue is empty.
pub proof fn waiting_tasks_are_blocked<T: ResourceTracker>(vm: VmView<T>)
    requires
        vm.settled().result == Ok::<bool, ErrorView>(false),
    ensures
        !vm.settled().vm.runnable(),
        vm.settled().vm.scheduler matches Some(s) ==> s.next_ready() is None,
        vm.settled().vm.pending_calls().len() != 0,
{
}

/// A program that goes on with something that stands for a result has the call among those the
/// host has to answer.
pub proof fn later_result_is_pending<T: ResourceTracker>(vm: VmView<T>, call: u32)
    ensures
        vm.call_resumed(call, ExternalResult::Future).result is None,
        vm.call_resumed(call, ExternalResult::Future).vm.pending_calls().contains(CallId(call)),
        vm.call_resumed(call, ExternalResult::Future).vm.top(0) == Value::ExternalFuture(
            CallId(call),
        ),
{
    pending_call_is_listed(vm, CallId(call));
}

} // verus!
