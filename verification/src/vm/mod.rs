//! The virtual machine: its state, its stack and its frames.

pub mod async_exec;
pub mod attr;
pub mod binary;
pub mod call;
pub mod call_result;
pub mod call_results;
pub mod collection_laws;
pub mod collection_results;
pub mod collections;
pub mod compare;
pub mod exception_results;
pub mod exceptions;
pub mod futures;
pub mod gather_results;
pub mod operator_results;
pub mod queue_laws;
pub mod scheduler;
pub mod snapshot;
pub mod task_end;
pub mod task_laws;
pub mod task_results;

use vstd::prelude::*;
use crate::error::{outcome, CodeRange, ErrorView, RunResult};
use crate::frame::{drop_frame, drop_frames, frame_released, frames_released, frames_view, CallFrame, FrameView};
use crate::heap::{release_values_push, Heap, HeapView};
use crate::ids::{FunctionId, StringId};
use crate::interns::{find_position, unknown_position, Code, Interns, StaticStrings};
use crate::iteration::Made;
use crate::namespaces::{Namespaces, NamespacesView};
use crate::value::Value;
use crate::vm::scheduler::{Scheduler, SchedulerView};

verus! {

/// A program that is running.
#[derive(Debug)]
pub struct VM<'a, T> {
    pub stack: Vec<Value>,
    pub frames: Vec<CallFrame>,
    pub heap: Heap<T>,
    pub namespaces: Namespaces,
    /// The exceptions that are being handled, the innermost one last.
    pub exception_stack: Vec<Value>,
    /// Where the instruction that is being carried out starts.
    pub instruction_ip: usize,
    pub next_call_id: u32,
    /// The scheduler, once the program has done something asynchronous.
    pub scheduler: Option<Scheduler>,
    pub interns: &'a Interns,
    pub module_code: &'a Code,
}

/// The content of a [`VM`].
#[verifier::ext_equal]
pub struct VmView<T> {
    pub stack: Seq<Value>,
    pub frames: Seq<FrameView>,
    pub heap: HeapView<T>,
    pub namespaces: NamespacesView,
    pub exception_stack: Seq<Value>,
    pub instruction_ip: usize,
    pub next_call_id: u32,
    pub scheduler: Option<SchedulerView>,
    pub interns: Interns,
    pub module_code: Code,
}

/// The content of an optional scheduler.
pub open spec fn scheduler_view(s: Option<Scheduler>) -> Option<SchedulerView> {
    match s {
        None => None,
        Some(s) => Some(s@),
    }
}

impl<'a, T> View for VM<'a, T> {
    type V = VmView<T>;

    open spec fn view(&self) -> VmView<T> {
        VmView {
            stack: self.stack@,
            frames: frames_view(self.frames@),
            heap: self.heap@,
            namespaces: self.namespaces@,
            exception_stack: self.exception_stack@,
            instruction_ip: self.instruction_ip,
            next_call_id: self.next_call_id,
            scheduler: scheduler_view(self.scheduler),
            interns: *self.interns,
            module_code: *self.module_code,
        }
    }
}

impl<T> VmView<T> {
    /// The machine with another stack.
    pub open spec fn with_stack(self, stack: Seq<Value>) -> VmView<T> {
        VmView { stack, ..self }
    }

    /// The machine with another heap.
    pub open spec fn with_heap(self, heap: HeapView<T>) -> VmView<T> {
        VmView { heap, ..self }
    }

    /// The machine with a value on top of the stack.
    pub open spec fn pushed(self, v: Value) -> VmView<T> {
        self.with_stack(self.stack.push(v))
    }

    /// The value `k` places below the top of the stack.
    pub open spec fn top(self, k: int) -> Value {
        self.stack[self.stack.len() - 1 - k]
    }

    /// The machine without the top `n` values of the stack; they are not given up.
    pub open spec fn popped(self, n: int) -> VmView<T> {
        self.with_stack(self.stack.take(self.stack.len() - n))
    }

    /// The machine once a value is given up.
    pub open spec fn release(self, v: Value) -> VmView<T> {
        self.with_heap(self.heap.release(v))
    }

    /// The code a frame runs.
    pub open spec fn code_of(self, frame: FrameView) -> Code {
        match frame.function_id {
            Some(id) => if self.interns.has_function(id) {
                self.interns.function(id).code
            } else {
                self.module_code
            },
            None => self.module_code,
        }
    }

    /// The source position of the instruction that is being carried out.
    pub open spec fn position(self) -> CodeRange {
        if self.frames.len() == 0 {
            unknown_position()
        } else {
            find_position(self.code_of(self.frames.last()).locations@, self.instruction_ip)
        }
    }

    /// The name of what the innermost frame runs.
    pub open spec fn frame_name(self) -> StringId {
        if self.frames.len() == 0 {
            StaticStrings::Module.id()
        } else {
            match self.frames.last().function_id {
                Some(id) => if self.interns.has_function(id) {
                    self.interns.function(id).name
                } else {
                    StaticStrings::Module.id()
                },
                None => StaticStrings::Module.id(),
            }
        }
    }

    /// The machine with the stack cut down to a height; what lies above is given up from the
    /// top.
    pub open spec fn cut(self, height: int) -> VmView<T> {
        if self.stack.len() > height {
            self.with_heap(
                self.heap.release_values(self.stack.skip(height).reverse()),
            ).with_stack(self.stack.take(height))
        } else {
            self
        }
    }

    /// The machine once the innermost frame is done.
    pub open spec fn frame_popped(self) -> VmView<T> {
        if self.frames.len() == 0 {
            self
        } else {
            let f = self.frames.last();
            let s = self.cut(f.stack_base as int);
            let (h, n) = frame_released(s.heap, s.namespaces, f);
            VmView { frames: self.frames.drop_last(), heap: h, namespaces: n, ..s }
        }
    }

    /// The machine once the frames of the running task are done and its stack is gone.
    ///
    /// What was left on the stack is not given up.
    pub open spec fn cleaned_up(self) -> VmView<T> {
        let (h, n) = frames_released(self.heap, self.namespaces, self.frames);
        VmView { frames: Seq::empty(), stack: Seq::empty(), heap: h, namespaces: n, ..self }
    }
}

/// What an instruction leads to.
pub struct VmStep<R, T> {
    pub vm: VmView<T>,
    pub result: Result<R, ErrorView>,
}

impl<R, T> VmStep<R, T> {
    /// Whether an instruction was carried out as it is said to be.
    pub open spec fn matches(self, r: RunResult<R>, after: VmView<T>) -> bool {
        outcome(r) == self.result && after == self.vm
    }
}

/// The machine with a new value on top of the stack, if there is one.
pub open spec fn made_pushed<T>(vm: VmView<T>, made: Made<Value, T>) -> VmStep<(), T> {
    match made.result {
        Ok(v) => VmStep { vm: vm.with_heap(made.heap).pushed(v), result: Ok(()) },
        Err(e) => VmStep { vm: vm.with_heap(made.heap), result: Err(ErrorView::resource(e)) },
    }
}

/// An instruction that fails.
pub open spec fn fails<R, T>(vm: VmView<T>, error: ErrorView) -> VmStep<R, T> {
    VmStep { vm, result: Err(error) }
}

impl<'a, T> VM<'a, T> {
    /// A machine that is about to run module-level code.
    pub fn new(heap: Heap<T>, namespaces: Namespaces, interns: &'a Interns, module_code: &'a Code) -> (r:
        Self)
        ensures
            r@ == (VmView {
                stack: Seq::empty(),
                frames: Seq::empty(),
                heap: heap@,
                namespaces: namespaces@,
                exception_stack: Seq::empty(),
                instruction_ip: 0,
                next_call_id: 0,
                scheduler: None,
                interns: *interns,
                module_code: *module_code,
            }),
    {
        let r: VM<'a, T> = VM {
            stack: Vec::new(),
            frames: Vec::new(),
            heap,
            namespaces,
            exception_stack: Vec::new(),
            instruction_ip: 0,
            next_call_id: 0,
            scheduler: None,
            interns,
            module_code,
        };
        assert(r@.frames =~= Seq::empty());
        r
    }

    /// Puts a value on top of the stack.
    pub fn push(&mut self, v: Value)
        ensures
            final(self)@ == old(self)@.pushed(v),
    {
        self.stack.push(v);
    }

    /// Takes the top value off the stack.
    pub fn pop(&mut self) -> (r: Value)
        requires
            old(self)@.stack.len() >= 1,
        ensures
            r == old(self)@.top(0),
            final(self)@ == old(self)@.popped(1),
    {
        let v: Value = self.stack[self.stack.len() - 1];
        let _ = self.stack.pop();
        assert(self@.stack =~= old(self)@.popped(1).stack);
        v
    }

    /// Takes the top `n` values off the stack, in the order in which they were pushed.
    pub fn pop_n(&mut self, n: usize) -> (r: Vec<Value>)
        requires
            old(self)@.stack.len() >= n,
        ensures
            r@ == old(self)@.stack.skip(old(self)@.stack.len() - n),
            final(self)@ == old(self)@.popped(n as int),
    {
        let at: usize = self.stack.len() - n;
        let out: Vec<Value> = self.stack.split_off(at);
        assert(out@ =~= old(self)@.stack.skip(old(self)@.stack.len() - n));
        assert(self@.stack =~= old(self)@.popped(n as int).stack);
        out
    }

    /// The code a frame runs.
    pub(crate) fn code_for(&self, function_id: Option<FunctionId>) -> (r: &'a Code)
        ensures
            *r == (match function_id {
                Some(id) => if self@.interns.has_function(id) {
                    self@.interns.function(id).code
                } else {
                    self@.module_code
                },
                None => self@.module_code,
            }),
    {
        match function_id {
            Some(id) => if id.0 < self.interns.functions.len() {
                &self.interns.functions[id.0].code
            } else {
                self.module_code
            },
            None => self.module_code,
        }
    }

    /// The source position of the instruction that is being carried out.
    pub fn current_position(&self) -> (r: CodeRange)
        ensures
            r == self@.position(),
    {
        if self.frames.len() == 0 {
            return CodeRange { start_line: 0, start_column: 0, end_line: 0, end_column: 0 };
        }
        let frame: &CallFrame = &self.frames[self.frames.len() - 1];
        assert(self@.frames.last() == frame@);
        self.code_for(frame.function_id).position_at(self.instruction_ip)
    }

    /// Cuts the stack down to a height, giving up what lies above from the top.
    pub fn cut_stack(&mut self, height: usize)
        ensures
            final(self)@ == old(self)@.cut(height as int),
    {
        let ghost all = self.stack@;
        assert(all.skip(all.len() as int).reverse() =~= Seq::empty());
        while self.stack.len() > height
            invariant
                self.stack@.len() <= all.len(),
                all.len() > height ==> self.stack@.len() >= height,
                all.len() <= height ==> self.stack@.len() == all.len(),
                self.stack@ == all.take(self.stack@.len() as int),
                self.heap@ == old(self)@.heap.release_values(
                    all.skip(self.stack@.len() as int).reverse(),
                ),
                self@ == (VmView { stack: self.stack@, heap: self.heap@, ..old(self)@ }),
                all == old(self)@.stack,
            decreases self.stack@.len(),
        {
            let ghost k = self.stack@.len() as int;
            let v: Value = self.pop();
            proof {
                release_values_push(old(self)@.heap, all.skip(k).reverse(), v);
                assert(all.skip(k - 1).reverse() =~= all.skip(k).reverse().push(v));
                assert(self.stack@ =~= all.take(k - 1));
            }
            v.drop_with_heap(&mut self.heap);
        }
        proof {
            if all.len() <= height {
                assert(self.stack@ =~= all);
            }
        }
    }

    /// Ends the innermost frame.
    pub fn pop_frame(&mut self)
        ensures
            final(self)@ == old(self)@.frame_popped(),
    {
        let ghost before = self.frames@;
        match self.frames.pop() {
            None => {
                assert(self@.frames =~= old(self)@.frames);
            },
            Some(frame) => {
                assert(frames_view(before).last() == frame@);
                assert(self@.frames =~= old(self)@.frames.drop_last());
                self.cut_stack(frame.stack_base);
                drop_frame(frame, &mut self.heap, &mut self.namespaces);
            },
        }
    }

    /// Ends all frames of the running task and clears its stack.
    pub fn cleanup_current_frames(&mut self)
        ensures
            final(self)@ == old(self)@.cleaned_up(),
    {
        let mut frames: Vec<CallFrame> = Vec::new();
        std::mem::swap(&mut frames, &mut self.frames);
        drop_frames(frames, &mut self.heap, &mut self.namespaces);
        self.stack.clear();
        assert(self@.frames =~= Seq::empty());
        assert(self@.stack =~= Seq::empty());
    }

    /// The name of what the innermost frame runs.
    pub fn current_frame_name(&self) -> (r: StringId)
        ensures
            r == self@.frame_name(),
    {
        if self.frames.len() > 0 {
            let frame: &CallFrame = &self.frames[self.frames.len() - 1];
            assert(self@.frames.last() == frame@);
            if let Some(id) = frame.function_id {
                if id.0 < self.interns.functions.len() {
                    return self.interns.functions[id.0].name;
                }
            }
        }
        StaticStrings::Module.string_id()
    }
}

} // verus!
