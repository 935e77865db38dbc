//! Raising and handling exceptions.

use vstd::prelude::*;
use crate::asyncio::counted_cells;
use crate::builtins::Builtins;
use crate::error::{
    outcome, CodeRange, ErrorView, ExceptionRaise, ExceptionView, Fault, Message, RaiseView,
    RawStackFrame, RunError, RunResult, SimpleException,
};
use crate::frame::{frame_released, CallFrame, FrameView};
use crate::heap::{DataView, HeapData, HeapView};
use crate::ids::{HeapId, NamespaceId, StringId, TaskId};
use crate::interns::{find_handler, ExceptionEntry};
use crate::namespaces::{namespace_released, NamespacesView, GLOBAL_NS_IDX};
use crate::ownership::{release_each_spares, release_values_spares, slot_refs, unheld};
use crate::resource::ResourceTracker;
use crate::types::{ExcType, Type};
use crate::value::Value;
use crate::vm::{VmView, VM};

verus! {

/// How far an exception has come.
pub struct Search<T> {
    pub vm: VmView<T>,
    pub error: ErrorView,
    /// Whether a handler has it.
    pub caught: bool,
}

/// What an exception leads to; the result is the error if nothing has handled it.
pub struct Handling<T> {
    pub vm: VmView<T>,
    pub result: Option<ErrorView>,
}

impl RaiseView {
    /// The raise with a first line in its traceback, unless it has one.
    pub open spec fn framed(self, frame: RawStackFrame) -> RaiseView {
        match self.frame {
            Some(_) => self,
            None => RaiseView {
                frame: Some(RawStackFrame { hide_caret: self.hide_caret, ..frame }),
                ..self
            },
        }
    }
}

/// The class of exception an object raises, and its text.
pub open spec fn raised_exception<T>(h: HeapView<T>, v: Value) -> ExceptionView {
    let refused = ExceptionView::of(ExcType::TypeError, Fault::NotAnException);
    match v {
        Value::Ref(id) => match h.data(id) {
            Some(DataView::Exception(e)) => e,
            _ => refused,
        },
        Value::Builtin(Builtins::ExcType(class)) => ExceptionView {
            exc_type: class,
            message: None,
        },
        _ => refused,
    }
}

/// Whether an `except` clause can be for `handler`: a class of exceptions, or a tuple of what a
/// clause can be for.
///
/// `room` is how many levels of tuples are looked into.
pub open spec fn valid_handler<T>(h: HeapView<T>, handler: Value, room: nat) -> bool
    decreases room, 0int,
{
    match handler {
        Value::Builtin(Builtins::ExcType(_)) => true,
        Value::Ref(id) => match h.data(id) {
            Some(DataView::Tuple(items)) => room > 0 && all_valid(h, items, (room - 1) as nat),
            _ => false,
        },
        _ => false,
    }
}

/// Whether a clause can be for each of several values.
pub open spec fn all_valid<T>(h: HeapView<T>, items: Seq<Value>, room: nat) -> bool
    decreases room, 1int,
{
    forall|i: int| 0 <= i < items.len() ==> valid_handler(h, #[trigger] items[i], room)
}

/// Whether a clause for `handler` catches an exception of type `t`: the class is one it derives
/// from, or one member of the tuple catches it.
pub open spec fn handler_catches<T>(h: HeapView<T>, t: Type, handler: Value, room: nat) -> bool
    decreases room, 0int,
{
    match handler {
        Value::Builtin(Builtins::ExcType(class)) => t matches Type::Exception(e)
            && e.derives_from(class),
        Value::Ref(id) => match h.data(id) {
            Some(DataView::Tuple(items)) => room > 0 && any_catches(
                h,
                t,
                items,
                (room - 1) as nat,
            ),
            _ => false,
        },
        _ => false,
    }
}

/// Whether a clause for one of several values catches an exception of type `t`.
pub open spec fn any_catches<T>(h: HeapView<T>, t: Type, items: Seq<Value>, room: nat) -> bool
    decreases room, 1int,
{
    exists|i: int| 0 <= i < items.len() && handler_catches(h, t, #[trigger] items[i], room)
}

/// Whether an exception of type `t` is caught by a clause for `handler`, or why there can be no
/// such clause.
pub open spec fn exc_matches<T>(h: HeapView<T>, t: Type, handler: Value, room: nat) -> Result<
    bool,
    ErrorView,
> {
    if valid_handler(h, handler, room) {
        Ok(handler_catches(h, t, handler, room))
    } else {
        Err(ErrorView::fault(ExcType::TypeError, Fault::ExceptInvalidType))
    }
}

impl<T: ResourceTracker> VmView<T> {
    /// The line of the traceback for the instruction that is being carried out.
    pub open spec fn stack_frame(self, hide_caret: bool) -> RawStackFrame {
        RawStackFrame {
            position: self.position(),
            frame_name: self.frame_name(),
            hide_caret,
            parent: None,
        }
    }

    /// An error with a first line in its traceback.
    pub open spec fn framed(self, error: ErrorView) -> ErrorView {
        match error {
            ErrorView::Exc(e) => ErrorView::Exc(e.framed(self.stack_frame(false))),
            ErrorView::UncatchableExc(e) => ErrorView::UncatchableExc(
                e.framed(self.stack_frame(false)),
            ),
            ErrorView::Internal(_) => error,
        }
    }

    /// The handler in the innermost frame for the instruction that is being carried out.
    pub open spec fn handler(self) -> Option<ExceptionEntry> {
        if self.frames.len() == 0 || self.instruction_ip > u32::MAX {
            None
        } else {
            find_handler(
                self.code_of(self.frames.last()).handlers@,
                self.instruction_ip as u32,
            )
        }
    }

    /// The machine at a handler: the stack is cut to the height the handler expects, and the
    /// exception is on top of it and the innermost one that is being handled.
    pub open spec fn at_handler(self, entry: ExceptionEntry, exc: Value) -> VmView<T> {
        let f = self.frames.last();
        let vm = self.cut(f.stack_base + entry.stack_depth);
        VmView {
            heap: vm.heap.inc_value(exc),
            stack: vm.stack.push(exc),
            exception_stack: vm.exception_stack.push(exc),
            frames: vm.frames.update(
                vm.frames.len() - 1,
                FrameView { ip: entry.handler as usize, ..f },
            ),
            ..vm
        }
    }

    /// An error once the innermost frame is gone: the traceback gets a line for the call.
    pub open spec fn passed_on(self, error: ErrorView) -> ErrorView {
        match self.frames.last().call_position {
            None => error,
            Some(position) => error.with_caller(position, self.frame_popped().frame_name()),
        }
    }

    /// The machine once the innermost frame is gone and the instruction that made the call is
    /// looked at instead.
    pub open spec fn at_caller(self) -> VmView<T> {
        VmView { instruction_ip: self.frames.last().call_ip, ..self.frame_popped() }
    }

    /// The search for a handler, from the innermost frame outwards. The outermost frame stays.
    pub open spec fn searched(self, error: ErrorView, exc: Value) -> Search<T>
        decreases self.frames.len(),
    {
        match self.handler() {
            Some(entry) => Search { vm: self.at_handler(entry, exc), error, caught: true },
            None => if self.frames.len() <= 1 {
                Search { vm: self, error, caught: false }
            } else {
                self.at_caller().searched(self.passed_on(error), exc)
            },
        }
    }

    /// The machine once all frames but the outermost one are gone, and the error with the
    /// whole traceback.
    pub open spec fn unwound(self, error: ErrorView) -> (VmView<T>, ErrorView)
        decreases self.frames.len(),
    {
        if self.frames.len() <= 1 {
            (self, error)
        } else {
            self.frame_popped().unwound(self.passed_on(error))
        }
    }

    /// Whether the running task is one that can fail.
    pub open spec fn spawned_task(self) -> bool {
        self.scheduler matches Some(s) && s.current_task matches Some(id) && id
            != TaskId::main_task()
    }

    /// How many tasks there are.
    pub open spec fn task_count(self) -> nat {
        match self.scheduler {
            None => 0,
            Some(s) => s.tasks.len(),
        }
    }

    /// What an error leads to.
    ///
    /// A handler gets it, if there is one. Otherwise a task other than the main task fails
    /// with it, and what that leads to is handled in turn, in at most `rounds` other tasks. An
    /// error that programs cannot catch only collects its traceback.
    pub open spec fn handled(self, error: ErrorView, rounds: nat) -> Handling<T>
        decreases rounds,
    {
        match self.framed(error) {
            ErrorView::Exc(raise) => {
                let made = self.heap.made(DataView::Exception(raise.exc));
                match made.result {
                    Err(e) => Handling {
                        vm: self.with_heap(made.heap),
                        result: Some(ErrorView::resource(e)),
                    },
                    Ok(exc) => {
                        let found = self.with_heap(made.heap).searched(ErrorView::Exc(raise), exc);
                        let vm = found.vm.release(exc);
                        if found.caught {
                            Handling { vm: found.vm, result: None }
                        } else if !vm.spawned_task() {
                            Handling { vm, result: Some(found.error) }
                        } else if rounds == 0 || vm.scheduler->0.task(
                            vm.scheduler->0.current_task->0,
                        ) is None {
                            Handling {
                                vm,
                                result: Some(ErrorView::Internal(Fault::TaskNotRunnable)),
                            }
                        } else {
                            let next = vm.task_failed(found.error);
                            match next.result {
                                Ok(()) => Handling { vm: next.vm, result: None },
                                Err(e) => next.vm.handled(e, (rounds - 1) as nat),
                            }
                        }
                    },
                }
            },
            uncatchable => {
                let (vm, e) = self.unwound(uncatchable);
                Handling { vm, result: Some(e) }
            },
        }
    }
}

impl<'a, T: ResourceTracker> VM<'a, T> {
    /// The line of the traceback for the instruction that is being carried out.
    fn make_stack_frame(&self) -> (r: RawStackFrame)
        ensures
            r == self@.stack_frame(false),
    {
        RawStackFrame::new(self.current_position(), self.current_frame_name(), None)
    }

    fn attach_frame(&self, raise: ExceptionRaise) -> (r: ExceptionRaise)
        ensures
            r@ == raise@.framed(self@.stack_frame(false)),
    {
        if raise.frame.is_some() {
            return raise;
        }
        let frame: RawStackFrame = self.make_stack_frame();
        let hide_caret: bool = raise.hide_caret;
        ExceptionRaise {
            exc: raise.exc,
            frame: Some(
                RawStackFrame {
                    position: frame.position,
                    frame_name: frame.frame_name,
                    hide_caret,
                    parent: frame.parent,
                },
            ),
            hide_caret,
        }
    }

    /// Gives an error a first line in its traceback, unless it has one.
    fn attach_frame_to_error(&self, error: RunError) -> (r: RunError)
        ensures
            r@ == self@.framed(error@),
    {
        match error {
            RunError::Exc(e) => RunError::Exc(self.attach_frame(e)),
            RunError::UncatchableExc(e) => RunError::UncatchableExc(self.attach_frame(e)),
            RunError::Internal(f) => RunError::Internal(f),
        }
    }

    /// The error that raising a value leads to; the value is given up.
    ///
    /// The line of a `raise` statement is shown without a caret.
    pub fn make_exception(&mut self, exc_value: Value, is_raise: bool) -> (r: RunError)
        ensures
            r@ == ErrorView::Exc(
                RaiseView {
                    exc: raised_exception(old(self)@.heap, exc_value),
                    frame: Some(old(self)@.stack_frame(is_raise)),
                    hide_caret: false,
                },
            ),
            final(self)@ == old(self)@.release(exc_value),
    {
        let mut exc: Option<SimpleException> = None;
        match exc_value {
            Value::Ref(id) => {
                if let Some(HeapData::Exception(e)) = self.heap.get(id) {
                    exc = Some(e.duplicate());
                }
            },
            Value::Builtin(Builtins::ExcType(class)) => {
                exc = Some(SimpleException::new_none(class));
            },
            _ => {},
        }
        exc_value.drop_with_heap(&mut self.heap);
        let exc: SimpleException = match exc {
            Some(e) => e,
            None => SimpleException::new_msg(
                ExcType::TypeError,
                Message::Fault(Fault::NotAnException),
            ),
        };
        let frame: RawStackFrame = if is_raise {
            RawStackFrame::from_raise(self.current_position(), self.current_frame_name())
        } else {
            self.make_stack_frame()
        };
        RunError::Exc(ExceptionRaise { exc, frame: Some(frame), hide_caret: false })
    }

    /// The handler in the innermost frame for the instruction that is being carried out.
    fn find_handler(&self) -> (r: Option<ExceptionEntry>)
        ensures
            r == self@.handler(),
    {
        if self.frames.len() == 0 || self.instruction_ip as u64 > u32::MAX as u64 {
            return None;
        }
        let frame: &CallFrame = &self.frames[self.frames.len() - 1];
        assert(self@.frames.last() == frame@);
        self.code_for(frame.function_id).find_exception_handler(self.instruction_ip as u32)
    }

    /// Goes to a handler.
    fn enter_handler(&mut self, entry: ExceptionEntry, exc: Value)
        requires
            old(self)@.frames.len() > 0,
        ensures
            final(self)@ == old(self)@.at_handler(entry, exc),
    {
        let ghost before = self@;
        let last: usize = self.frames.len() - 1;
        let base: usize = self.frames[last].stack_base;
        assert(before.frames.last() == self.frames@[last as int]@);
        let height: usize = match base.checked_add(entry.stack_depth as usize) {
            Some(height) => height,
            None => self.stack.len(),
        };
        assert(before.stack.len() == self.stack.len());
        assert(before.cut(height as int) == before.cut(base + entry.stack_depth));
        self.cut_stack(height);
        let copy: Value = exc.clone_with_heap(&mut self.heap);
        self.push(copy);
        self.exception_stack.push(exc);
        self.frames[last].ip = entry.handler as usize;
        assert(self@.frames =~= before.at_handler(entry, exc).frames);
    }

    /// Ends the innermost frame on account of an error, which gets a line for the call.
    fn pass_on(&mut self, error: RunError) -> (r: RunError)
        requires
            old(self)@.frames.len() > 1,
        ensures
            r@ == old(self)@.passed_on(error@),
            final(self)@ == old(self)@.frame_popped(),
    {
        let last: usize = self.frames.len() - 1;
        let call_position: Option<CodeRange> = self.frames[last].call_position;
        assert(self@.frames.last() == self.frames@[last as int]@);
        self.pop_frame();
        match call_position {
            None => error,
            Some(position) => {
                let name: StringId = self.current_frame_name();
                error.add_caller_frame(position, name)
            },
        }
    }

    /// Looks for a handler, from the innermost frame outwards; says whether one has the
    /// exception.
    fn search_handler(&mut self, error: RunError, exc: Value) -> (r: (RunError, bool))
        ensures
            ({
                let said = old(self)@.searched(error@, exc);
                r.0@ == said.error && r.1 == said.caught && final(self)@ == said.vm
            }),
        decreases old(self)@.frames.len(),
    {
        match self.find_handler() {
            Some(entry) => {
                self.enter_handler(entry, exc);
                (error, true)
            },
            None => {
                if self.frames.len() <= 1 {
                    return (error, false);
                }
                let ghost before = self@;
                let last: usize = self.frames.len() - 1;
                let call_ip: usize = self.frames[last].call_ip;
                assert(self@.frames.last() == self.frames@[last as int]@);
                let error: RunError = self.pass_on(error);
                self.instruction_ip = call_ip;
                assert(self@ =~= before.at_caller());
                self.search_handler(error, exc)
            },
        }
    }

    /// Ends all frames but the outermost one, collecting the traceback.
    fn unwind_for_traceback(&mut self, error: RunError) -> (r: RunError)
        ensures
            (final(self)@, r@) == old(self)@.unwound(error@),
    {
        let mut error: RunError = error;
        let ghost said = self@.unwound(error@);
        while self.frames.len() > 1
            invariant
                self@.unwound(error@) == said,
            decreases self.frames@.len(),
        {
            error = self.pass_on(error);
        }
        error
    }

    /// The object for an exception.
    fn create_exception_value(&mut self, exc: &SimpleException) -> (r: RunResult<Value>)
        ensures
            ({
                let said = old(self)@.heap.made(DataView::Exception(exc@));
                &&& final(self)@ == old(self)@.with_heap(said.heap)
                &&& outcome(r) == (match said.result {
                    Ok(v) => Ok::<Value, ErrorView>(v),
                    Err(e) => Err(ErrorView::resource(e)),
                })
            }),
    {
        match self.heap.allocate(HeapData::Exception(exc.duplicate())) {
            Ok(id) => Ok(Value::Ref(id)),
            Err(e) => Err(RunError::resource(e)),
        }
    }

    fn handle_in_rounds(&mut self, error: RunError, rounds: usize) -> (r: Option<RunError>)
        ensures
            ({
                let said = old(self)@.handled(error@, rounds as nat);
                &&& final(self)@ == said.vm
                &&& r is Some <==> said.result is Some
                &&& r matches Some(e) ==> said.result == Some(e@)
            }),
        decreases rounds,
    {
        let error: RunError = self.attach_frame_to_error(error);
        let made: RunResult<Value> = match &error {
            RunError::Exc(raise) => self.create_exception_value(&raise.exc),
            _ => {
                return Some(self.unwind_for_traceback(error));
            },
        };
        let exc: Value = match made {
            Ok(v) => v,
            Err(e) => {
                return Some(e);
            },
        };
        let (error, caught): (RunError, bool) = self.search_handler(error, exc);
        if caught {
            return None;
        }
        exc.drop_with_heap(&mut self.heap);
        if !self.is_spawned_task() {
            return Some(error);
        }
        let mut known: bool = false;
        if let Some(s) = &self.scheduler {
            if let Some(id) = s.current_task_id() {
                known = s.get_task(id).is_some();
            }
        }
        if rounds == 0 || !known {
            return Some(RunError::internal(Fault::TaskNotRunnable));
        }
        match self.handle_task_failure(error) {
            Ok(()) => None,
            Err(e) => self.handle_in_rounds(e, rounds - 1),
        }
    }

    /// Looks for a handler for an error; hands the error back if there is none.
    ///
    /// If a task other than the main task does not handle an error, the task fails, and the
    /// machine goes on with another one.
    pub fn handle_exception(&mut self, error: RunError) -> (r: Option<RunError>)
        ensures
            ({
                let said = old(self)@.handled(error@, old(self)@.task_count());
                &&& final(self)@ == said.vm
                &&& r is Some <==> said.result is Some
                &&& r matches Some(e) ==> said.result == Some(e@)
            }),
    {
        let rounds: usize = match &self.scheduler {
            None => 0,
            Some(s) => s.tasks.len(),
        };
        self.handle_in_rounds(error, rounds)
    }

    /// Whether an `except` clause for `exc_type` catches an exception.
    pub fn check_exc_match(&self, exception: &Value, exc_type: &Value) -> (r: RunResult<bool>)
        ensures
            outcome(r) == exc_matches(
                self@.heap,
                self@.heap.type_of(*exception),
                *exc_type,
                self@.heap.entries.len(),
            ),
    {
        let t: Type = exception.py_type(&self.heap);
        let room: usize = self.heap.entries.len();
        if self.is_valid_handler(exc_type, room) {
            Ok(self.check_exc_match_inner(t, exc_type, room))
        } else {
            Err(RunError::type_error(Fault::ExceptInvalidType))
        }
    }

    /// Whether an `except` clause can be for a value.
    fn is_valid_handler(&self, exc_type: &Value, room: usize) -> (r: bool)
        ensures
            r == valid_handler(self@.heap, *exc_type, room as nat),
        decreases room,
    {
        match *exc_type {
            Value::Builtin(Builtins::ExcType(_)) => true,
            Value::Ref(id) => match self.heap.get(id) {
                Some(HeapData::Tuple(tuple)) => {
                    if room == 0 {
                        return false;
                    }
                    let items: &[Value] = tuple.as_slice();
                    let mut i: usize = 0;
                    while i < items.len()
                        invariant
                            0 <= i <= items@.len(),
                            room > 0,
                            self@.heap.data(id) == Some(DataView::Tuple(items@)),
                            *exc_type == Value::Ref(id),
                            forall|k: int|
                                0 <= k < i ==> valid_handler(
                                    self@.heap,
                                    #[trigger] items@[k],
                                    (room - 1) as nat,
                                ),
                        decreases items@.len() - i,
                    {
                        if !self.is_valid_handler(&items[i], room - 1) {
                            proof {
                                reveal_with_fuel(all_valid, 2);
                            }
                            return false;
                        }
                        i = i + 1;
                    }
                    true
                },
                _ => false,
            },
            _ => false,
        }
    }

    /// Whether a class, or one of the classes in a tuple, catches an exception.
    fn check_exc_match_inner(&self, t: Type, exc_type: &Value, room: usize) -> (r: bool)
        ensures
            r == handler_catches(self@.heap, t, *exc_type, room as nat),
        decreases room,
    {
        match *exc_type {
            Value::Builtin(Builtins::ExcType(class)) => match t {
                Type::Exception(e) => e.is_subclass_of(class),
                _ => false,
            },
            Value::Ref(id) => match self.heap.get(id) {
                Some(HeapData::Tuple(tuple)) => {
                    if room == 0 {
                        return false;
                    }
                    let items: &[Value] = tuple.as_slice();
                    let mut i: usize = 0;
                    while i < items.len()
                        invariant
                            0 <= i <= items@.len(),
                            room > 0,
                            self@.heap.data(id) == Some(DataView::Tuple(items@)),
                            *exc_type == Value::Ref(id),
                            forall|k: int|
                                0 <= k < i ==> !handler_catches(
                                    self@.heap,
                                    t,
                                    #[trigger] items@[k],
                                    (room - 1) as nat,
                                ),
                        decreases items@.len() - i,
                    {
                        if self.check_exc_match_inner(t, &items[i], room - 1) {
                            proof {
                                reveal_with_fuel(any_catches, 2);
                            }
                            return true;
                        }
                        i = i + 1;
                    }
                    false
                },
                _ => false,
            },
            _ => false,
        }
    }
}

/// At a handler the stack has the height the handler expects, with the exception on top, and a
/// bare `raise` finds the exception.
pub proof fn handler_finds_exception<T: ResourceTracker>(
    vm: VmView<T>,
    entry: ExceptionEntry,
    exc: Value,
)
    requires
        vm.frames.len() > 0,
        vm.stack.len() >= vm.frames.last().stack_base + entry.stack_depth,
    ensures
        ({
            let after = vm.at_handler(entry, exc);
            let height = vm.frames.last().stack_base + entry.stack_depth;
            &&& after.stack == vm.stack.take(height).push(exc)
            &&& after.exception_stack == vm.exception_stack.push(exc)
            &&& after.frames.last().ip == entry.handler
            &&& after.frames.drop_last() == vm.frames.drop_last()
        }),
{
    let height = vm.frames.last().stack_base + entry.stack_depth;
    assert(vm.stack.take(vm.stack.len() as int) =~= vm.stack);
    assert(vm.at_handler(entry, exc).frames.drop_last() =~= vm.frames.drop_last());
}

/// No program handles an error that cannot be caught, and all frames but one are gone.
pub proof fn uncatchable_is_not_handled<T: ResourceTracker>(
    vm: VmView<T>,
    error: ErrorView,
    rounds: nat,
)
    requires
        !(error is Exc),
    ensures
        vm.handled(error, rounds).result is Some,
        vm.handled(error, rounds).vm.frames.len() <= 1,
{
    unwinding_leaves_one_frame(vm, vm.framed(error));
}

proof fn unwinding_leaves_one_frame<T: ResourceTracker>(vm: VmView<T>, error: ErrorView)
    ensures
        vm.unwound(error).0.frames.len() <= 1,
    decreases vm.frames.len(),
{
    if vm.frames.len() > 1 {
        unwinding_leaves_one_frame(vm.frame_popped(), vm.passed_on(error));
    }
}

/// Looking for a handler leaves the scheduler alone.
pub proof fn search_keeps_scheduler<T: ResourceTracker>(vm: VmView<T>, error: ErrorView, exc: Value)
    ensures
        vm.searched(error, exc).vm.scheduler == vm.scheduler,
    decreases vm.frames.len(),
{
    if vm.handler() is None && vm.frames.len() > 1 {
        search_keeps_scheduler(vm.at_caller(), vm.passed_on(error), exc);
    }
}

/// What the main task does not handle is handed back, whatever the number of rounds.
pub proof fn main_task_hands_errors_back<T: ResourceTracker>(
    vm: VmView<T>,
    error: ErrorView,
    rounds: nat,
)
    requires
        !vm.spawned_task(),
    ensures
        vm.handled(error, rounds) == vm.handled(error, 0),
{
    if let ErrorView::Exc(raise) = vm.framed(error) {
        let made = vm.heap.made(DataView::Exception(raise.exc));
        if let Ok(exc) = made.result {
            search_keeps_scheduler(vm.with_heap(made.heap), ErrorView::Exc(raise), exc);
        }
    }
}

/// A clause for a tuple with a member that is neither a class of exceptions nor a tuple is
/// refused, whatever the other members are.
pub proof fn invalid_member_is_refused<T>(
    h: HeapView<T>,
    t: Type,
    id: HeapId,
    items: Seq<Value>,
    i: int,
    room: nat,
)
    requires
        h.data(id) == Some(DataView::Tuple(items)),
        0 <= i < items.len(),
        match items[i] {
            Value::Builtin(Builtins::ExcType(_)) => false,
            Value::Ref(x) => !(h.data(x) matches Some(DataView::Tuple(_))),
            _ => true,
        },
    ensures
        exc_matches(h, t, Value::Ref(id), room) == Err::<bool, ErrorView>(
            ErrorView::fault(ExcType::TypeError, Fault::ExceptInvalidType),
        ),
{
    if room > 0 {
        assert(!valid_handler(h, items[i], (room - 1) as nat));
        assert(!all_valid(h, items, (room - 1) as nat));
    }
}

/// The class at a place of a clause.
pub open spec fn class_at(items: Seq<Value>, i: int) -> ExcType {
    items[i]->Builtin_0->ExcType_0
}

/// A clause for a tuple of classes catches an exception exactly if one of the classes does.
pub proof fn tuple_catches_like_its_classes<T>(
    h: HeapView<T>,
    e: ExcType,
    id: HeapId,
    items: Seq<Value>,
    room: nat,
)
    requires
        h.data(id) == Some(DataView::Tuple(items)),
        forall|i: int|
            0 <= i < items.len() ==> (#[trigger] items[i]) == Value::Builtin(
                Builtins::ExcType(class_at(items, i)),
            ),
        room > 0,
    ensures
        exc_matches(h, Type::Exception(e), Value::Ref(id), room) == Ok::<bool, ErrorView>(
            exists|i: int| 0 <= i < items.len() && e.derives_from(#[trigger] class_at(items, i)),
        ),
{
    reveal_with_fuel(all_valid, 2);
    reveal_with_fuel(any_catches, 2);
    let below = (room - 1) as nat;
    assert forall|i: int| 0 <= i < items.len() implies valid_handler(h, #[trigger] items[i], below)
        && handler_catches(h, Type::Exception(e), items[i], below) == e.derives_from(
        class_at(items, i),
    ) by {
        assert(items[i] == Value::Builtin(Builtins::ExcType(class_at(items, i))));
    }
    if exists|i: int| 0 <= i < items.len() && e.derives_from(#[trigger] class_at(items, i)) {
        let i = choose|i: int| 0 <= i < items.len() && e.derives_from(#[trigger] class_at(items, i));
        assert(handler_catches(h, Type::Exception(e), items[i], below));
    }
    if exists|i: int|
        0 <= i < items.len() && handler_catches(h, Type::Exception(e), #[trigger] items[i], below) {
        let i = choose|i: int|
            0 <= i < items.len() && handler_catches(
                h,
                Type::Exception(e),
                #[trigger] items[i],
                below,
            );
        assert(e.derives_from(class_at(items, i)));
    }
}

impl<T: ResourceTracker> VmView<T> {
    /// Whether nothing the machine holds refers to `id`.
    pub open spec fn unmentioned(self, id: HeapId) -> bool {
        &&& unheld(self.heap, id)
        &&& !self.stack.contains(Value::Ref(id))
        &&& forall|i: int| 0 <= i < self.frames.len() ==> !(#[trigger] self.frames[i]).cells.contains(id)
        &&& forall|n: NamespaceId|
            (#[trigger] self.namespaces.get(n)) matches Some(values) ==> !values.contains(
                Value::Ref(id),
            )
    }
}

/// An exception raised in a called function is caught by a handler of the caller that encloses
/// the call: the called function's frame is gone, the caller goes on at the handler, and its
/// stack has the height the handler expects, with the exception on top.
pub proof fn caller_handles_exception<T: ResourceTracker>(
    vm: VmView<T>,
    error: ErrorView,
    entry: ExceptionEntry,
    rounds: nat,
)
    requires
        error is Exc,
        vm.heap.tracker.admits(),
        vm.frames.len() >= 2,
        vm.handler() is None,
        vm.frames.last().call_ip <= u32::MAX,
        find_handler(
            vm.code_of(vm.frames[vm.frames.len() - 2]).handlers@,
            vm.frames.last().call_ip as u32,
        ) == Some(entry),
        ({
            let height = vm.frames[vm.frames.len() - 2].stack_base + entry.stack_depth;
            height <= vm.frames.last().stack_base && height <= vm.stack.len()
        }),
    ensures
        ({
            let said = vm.handled(error, rounds);
            let n = vm.frames.len() - 2;
            let caller = vm.frames[n];
            let exc = Value::Ref(HeapId(vm.heap.entries.len() as usize));
            &&& said.result is None
            &&& said.vm.frames == vm.frames.drop_last().update(
                n,
                FrameView { ip: entry.handler as usize, ..caller },
            )
            &&& said.vm.stack == vm.stack.take(caller.stack_base + entry.stack_depth).push(exc)
            &&& said.vm.exception_stack == vm.exception_stack.push(exc)
        }),
{
    let raise = vm.framed(error)->Exc_0;
    let made = vm.heap.made(DataView::Exception(raise.exc));
    let exc = made.result->Ok_0;
    let start = vm.with_heap(made.heap);
    let height = vm.frames[vm.frames.len() - 2].stack_base + entry.stack_depth;
    assert(start.handler() is None);
    let at = start.at_caller();
    assert(at.frames.last() == vm.frames[vm.frames.len() - 2]);
    assert(at.handler() == Some(entry));
    assert(at.searched(start.passed_on(ErrorView::Exc(raise)), exc).caught);
    assert(vm.stack.take(vm.stack.len() as int) =~= vm.stack);
    if vm.frames.last().stack_base <= vm.stack.len() {
        assert(vm.stack.take(vm.frames.last().stack_base as int).take(height) =~= vm.stack.take(
            height,
        ));
    }
    assert(vm.handled(error, rounds).vm.stack =~= vm.stack.take(height).push(exc));
}

/// The exception a handler of the caller gets is the one that was raised.
pub proof fn caller_gets_the_exception<T: ResourceTracker>(
    vm: VmView<T>,
    error: ErrorView,
    entry: ExceptionEntry,
    rounds: nat,
)
    requires
        error is Exc,
        vm.heap.tracker.admits(),
        vm.heap.entries.len() < usize::MAX,
        vm.unmentioned(HeapId(vm.heap.entries.len() as usize)),
        vm.frames.len() >= 2,
        vm.handler() is None,
        vm.frames.last().call_ip <= u32::MAX,
        find_handler(
            vm.code_of(vm.frames[vm.frames.len() - 2]).handlers@,
            vm.frames.last().call_ip as u32,
        ) == Some(entry),
    ensures
        vm.handled(error, rounds).vm.heap.data(HeapId(vm.heap.entries.len() as usize)) == Some(
            DataView::Exception(error->Exc_0.exc),
        ),
{
    let raise = vm.framed(error)->Exc_0;
    let made = vm.heap.made(DataView::Exception(raise.exc));
    let exc = made.result->Ok_0;
    let id = HeapId(vm.heap.entries.len() as usize);
    let start = vm.with_heap(made.heap);
    let at = start.at_caller();
    let callee = vm.frames.last();
    assert(start.handler() is None);
    assert(at.handler() == Some(entry));
    assert(at.searched(start.passed_on(ErrorView::Exc(raise)), exc).caught);
    assert(unheld(start.heap, id)) by {
        assert forall|i: int| 0 <= i < start.heap.entries.len() implies !slot_refs(
            #[trigger] start.heap.entries[i],
        ).contains(id) by {
            if i < vm.heap.entries.len() {
                assert(start.heap.entries[i] == vm.heap.entries[i]);
            }
        }
    }
    cut_spares(start, callee.stack_base as int, id);
    let cut = start.cut(callee.stack_base as int);
    frame_spares(cut.heap, cut.namespaces, callee, id);
    cut_spares(at, at.frames.last().stack_base + entry.stack_depth, id);
    let after = at.cut(at.frames.last().stack_base + entry.stack_depth);
    assert(after.heap.entry(id) == start.heap.entry(id));
}

proof fn cut_spares<T: ResourceTracker>(vm: VmView<T>, height: int, id: HeapId)
    requires
        0 <= height,
        unheld(vm.heap, id),
        !vm.stack.contains(Value::Ref(id)),
    ensures
        vm.cut(height).heap.entry(id) == vm.heap.entry(id),
        unheld(vm.cut(height).heap, id),
        !vm.cut(height).stack.contains(Value::Ref(id)),
        vm.cut(height).namespaces == vm.namespaces,
{
    if vm.stack.len() > height {
        let above = vm.stack.skip(height).reverse();
        assert forall|k: int| 0 <= k < above.len() implies above[k] != Value::Ref(id) by {
            assert(above[k] == vm.stack[vm.stack.len() - 1 - k]);
        }
        release_values_spares(vm.heap, above, id);
    }
}

proof fn frame_spares<T>(h: HeapView<T>, n: NamespacesView, f: FrameView, id: HeapId)
    requires
        unheld(h, id),
        !f.cells.contains(id),
        n.get(f.namespace_idx) matches Some(values) ==> !values.contains(Value::Ref(id)),
    ensures
        frame_released(h, n, f).0.entry(id) == h.entry(id),
        unheld(frame_released(h, n, f).0, id),
{
    let counted = counted_cells(f.cells, f.own_cells);
    assert(!counted.contains(id)) by {
        assert(forall|k: int|
            0 <= k < counted.len() ==> counted[k] == f.cells[k + f.own_cells]);
    }
    let h1 = if f.namespace_idx.0 == GLOBAL_NS_IDX {
        h
    } else {
        namespace_released(h, n, f.namespace_idx)
    };
    if let Some(values) = n.get(f.namespace_idx) {
        release_values_spares(h, values, id);
    }
    release_each_spares(h1, counted, id);
}

} // verus!
