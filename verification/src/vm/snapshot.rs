//! A machine that is put away, and taken up again.

use vstd::prelude::*;
use crate::frame::{frames_view, CallFrame, FrameView};
use crate::heap::{Heap, HeapView};
use crate::ids::NamespaceId;
use crate::interns::{Code, Interns};
use crate::namespaces::{Namespaces, NamespacesView, GLOBAL_NS_IDX};
use crate::value::Value;
use crate::vm::scheduler::{Scheduler, SchedulerView};
use crate::vm::{scheduler_view, VmView, VM};

verus! {

/// What a machine holds besides its heap and its namespaces.
#[derive(Debug)]
pub struct VMSnapshot {
    pub stack: Vec<Value>,
    pub frames: Vec<CallFrame>,
    pub exception_stack: Vec<Value>,
    pub instruction_ip: usize,
    pub next_call_id: u32,
    pub scheduler: Option<Scheduler>,
}

/// The content of a [`VMSnapshot`].
#[verifier::ext_equal]
pub struct SnapshotView {
    pub stack: Seq<Value>,
    pub frames: Seq<FrameView>,
    pub exception_stack: Seq<Value>,
    pub instruction_ip: usize,
    pub next_call_id: u32,
    pub scheduler: Option<SchedulerView>,
}

impl View for VMSnapshot {
    type V = SnapshotView;

    open spec fn view(&self) -> SnapshotView {
        SnapshotView {
            stack: self.stack@,
            frames: frames_view(self.frames@),
            exception_stack: self.exception_stack@,
            instruction_ip: self.instruction_ip,
            next_call_id: self.next_call_id,
            scheduler: scheduler_view(self.scheduler),
        }
    }
}

impl SnapshotView {
    /// The machine with this state.
    pub open spec fn machine<T>(
        self,
        heap: HeapView<T>,
        namespaces: NamespacesView,
        interns: Interns,
        module_code: Code,
    ) -> VmView<T> {
        VmView {
            stack: self.stack,
            frames: self.frames,
            heap,
            namespaces,
            exception_stack: self.exception_stack,
            instruction_ip: self.instruction_ip,
            next_call_id: self.next_call_id,
            scheduler: self.scheduler,
            interns,
            module_code,
        }
    }
}

impl<T> VmView<T> {
    /// What the machine holds besides its heap and its namespaces.
    pub open spec fn state(self) -> SnapshotView {
        SnapshotView {
            stack: self.stack,
            frames: self.frames,
            exception_stack: self.exception_stack,
            instruction_ip: self.instruction_ip,
            next_call_id: self.next_call_id,
            scheduler: self.scheduler,
        }
    }

    /// The machine about to run module-level code.
    pub open spec fn module_started(self) -> VmView<T> {
        VmView {
            frames: self.frames.push(
                FrameView {
                    function_id: None,
                    ip: 0,
                    stack_base: self.stack.len() as usize,
                    namespace_idx: NamespaceId(GLOBAL_NS_IDX),
                    cells: Seq::empty(),
                    own_cells: 0,
                    call_position: None,
                    call_ip: 0,
                },
            ),
            ..self
        }
    }

    /// The machine once nothing runs any more: stacks and frames are given up.
    pub open spec fn shut_down(self) -> VmView<T> {
        VmView {
            heap: self.heap.release_values(self.stack).release_values(self.exception_stack),
            stack: Seq::empty(),
            exception_stack: Seq::empty(),
            ..self
        }.cleaned_up()
    }
}

/// A machine that is put away and taken up again is the same.
pub proof fn restored_machine_is_the_same<T>(vm: VmView<T>)
    ensures
        vm.state().machine(vm.heap, vm.namespaces, vm.interns, vm.module_code) == vm,
{
}

impl<'a, T> VM<'a, T> {
    /// Takes up a machine again.
    pub fn restore(
        state: VMSnapshot,
        module_code: &'a Code,
        heap: Heap<T>,
        namespaces: Namespaces,
        interns: &'a Interns,
    ) -> (r: Self)
        ensures
            r@ == state@.machine(heap@, namespaces@, *interns, *module_code),
    {
        VM {
            stack: state.stack,
            frames: state.frames,
            heap,
            namespaces,
            exception_stack: state.exception_stack,
            instruction_ip: state.instruction_ip,
            next_call_id: state.next_call_id,
            scheduler: state.scheduler,
            interns,
            module_code,
        }
    }

    /// Puts the machine away.
    pub fn snapshot(self) -> (r: (VMSnapshot, Heap<T>, Namespaces))
        ensures
            r.0@ == self@.state(),
            r.1@ == self@.heap,
            r.2@ == self@.namespaces,
    {
        (
            VMSnapshot {
                stack: self.stack,
                frames: self.frames,
                exception_stack: self.exception_stack,
                instruction_ip: self.instruction_ip,
                next_call_id: self.next_call_id,
                scheduler: self.scheduler,
            },
            self.heap,
            self.namespaces,
        )
    }

    /// Gets ready to run module-level code.
    pub fn start_module(&mut self)
        ensures
            final(self)@ == old(self)@.module_started(),
    {
        let ghost before = self@;
        let frame: CallFrame = CallFrame::new_module(self.stack.len(), NamespaceId(GLOBAL_NS_IDX));
        self.frames.push(frame);
        assert(self@.frames =~= before.frames.push(frame@));
    }

    /// Gives up what is left on the stacks and in the frames.
    pub fn cleanup(&mut self)
        ensures
            final(self)@ == old(self)@.shut_down(),
    {
        self.heap.drop_values(self.stack.as_slice());
        self.heap.drop_values(self.exception_stack.as_slice());
        self.stack.clear();
        self.exception_stack.clear();
        assert(self@.stack =~= Seq::empty());
        assert(self@.exception_stack =~= Seq::empty());
        self.cleanup_current_frames();
    }
}

} // verus!
