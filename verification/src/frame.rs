//! Call frames.

use vstd::prelude::*;
use crate::asyncio::counted_cells;
use crate::error::CodeRange;
use crate::heap::{push_counted, Heap, HeapView};
use crate::ids::{FunctionId, HeapId, NamespaceId};
use crate::namespaces::{namespace_released, Namespaces, NamespacesView, GLOBAL_NS_IDX};

verus! {

/// A call that is running: module-level code has no function.
#[derive(Debug)]
pub struct CallFrame {
    pub function_id: Option<FunctionId>,
    pub ip: usize,
    /// The height of the stack below the values of this frame.
    pub stack_base: usize,
    pub namespace_idx: NamespaceId,
    pub cells: Vec<HeapId>,
    /// How many of the cells, from the front, are counted through the namespace alone.
    pub own_cells: usize,
    /// Where the call was made, if it was made by a frame below.
    pub call_position: Option<CodeRange>,
    /// The instruction that made the call, in the code of the frame below.
    pub call_ip: usize,
}

/// The content of a [`CallFrame`].
#[verifier::ext_equal]
pub struct FrameView {
    pub function_id: Option<FunctionId>,
    pub ip: usize,
    pub stack_base: usize,
    pub namespace_idx: NamespaceId,
    pub cells: Seq<HeapId>,
    pub own_cells: usize,
    pub call_position: Option<CodeRange>,
    pub call_ip: usize,
}

impl View for CallFrame {
    type V = FrameView;

    open spec fn view(&self) -> FrameView {
        FrameView {
            function_id: self.function_id,
            ip: self.ip,
            stack_base: self.stack_base,
            namespace_idx: self.namespace_idx,
            cells: self.cells@,
            own_cells: self.own_cells,
            call_position: self.call_position,
            call_ip: self.call_ip,
        }
    }
}

/// The contents of several frames.
pub open spec fn frames_view(frames: Seq<CallFrame>) -> Seq<FrameView> {
    frames.map_values(|f: CallFrame| f@)
}

impl CallFrame {
    /// The frame of module-level code.
    pub fn new_module(stack_base: usize, namespace_idx: NamespaceId) -> (r: Self)
        ensures
            r@ == (FrameView {
                function_id: None,
                ip: 0,
                stack_base,
                namespace_idx,
                cells: Seq::empty(),
                own_cells: 0,
                call_position: None,
                call_ip: 0,
            }),
    {
        let r: CallFrame = CallFrame {
            function_id: None,
            ip: 0,
            stack_base,
            namespace_idx,
            cells: Vec::new(),
            own_cells: 0,
            call_position: None,
            call_ip: 0,
        };
        assert(r@.cells =~= Seq::empty());
        r
    }

    /// The frame of a function, about to start.
    pub fn new_function(
        stack_base: usize,
        namespace_idx: NamespaceId,
        function_id: FunctionId,
        cells: Vec<HeapId>,
        own_cells: usize,
        call_position: Option<CodeRange>,
        call_ip: usize,
    ) -> (r: Self)
        ensures
            r@ == FrameView::started(
                stack_base,
                namespace_idx,
                function_id,
                cells@,
                own_cells,
                call_position,
                call_ip,
            ),
    {
        CallFrame {
            function_id: Some(function_id),
            ip: 0,
            stack_base,
            namespace_idx,
            cells,
            own_cells,
            call_position,
            call_ip,
        }
    }
}

impl FrameView {
    /// The frame of a function, about to start.
    pub open spec fn started(
        stack_base: usize,
        namespace_idx: NamespaceId,
        function_id: FunctionId,
        cells: Seq<HeapId>,
        own_cells: usize,
        call_position: Option<CodeRange>,
        call_ip: usize,
    ) -> FrameView {
        FrameView {
            function_id: Some(function_id),
            ip: 0,
            stack_base,
            namespace_idx,
            cells,
            own_cells,
            call_position,
            call_ip,
        }
    }
}

/// What is left of heap and namespaces once a frame is done: its namespace, unless that is
/// the global one, and the cells it counted are given up.
pub open spec fn frame_released<T>(h: HeapView<T>, n: NamespacesView, f: FrameView) -> (
    HeapView<T>,
    NamespacesView,
) {
    let (h1, n1) = if f.namespace_idx.0 == GLOBAL_NS_IDX {
        (h, n)
    } else {
        (namespace_released(h, n, f.namespace_idx), n.removed(f.namespace_idx))
    };
    (h1.release_each(counted_cells(f.cells, f.own_cells)), n1)
}

/// What is left of heap and namespaces once several frames are done, the last one first.
pub open spec fn frames_released<T>(h: HeapView<T>, n: NamespacesView, frames: Seq<FrameView>) -> (
    HeapView<T>,
    NamespacesView,
)
    decreases frames.len(),
{
    if frames.len() == 0 {
        (h, n)
    } else {
        let (h1, n1) = frame_released(h, n, frames.last());
        frames_released(h1, n1, frames.drop_last())
    }
}

/// Gives up what a frame holds.
pub fn drop_frame<T>(frame: CallFrame, heap: &mut Heap<T>, namespaces: &mut Namespaces)
    ensures
        (final(heap)@, final(namespaces)@) == frame_released(
            old(heap)@,
            old(namespaces)@,
            frame@,
        ),
{
    if frame.namespace_idx.0 != GLOBAL_NS_IDX {
        namespaces.drop_with_heap(frame.namespace_idx, heap);
    }
    let mut counted: Vec<HeapId> = Vec::new();
    push_counted(&frame.cells, frame.own_cells, &mut counted);
    assert(counted@ =~= counted_cells(frame@.cells, frame@.own_cells));
    heap.dec_refs(counted.as_slice());
}

/// Gives up what several frames hold, the last one first.
pub fn drop_frames<T>(frames: Vec<CallFrame>, heap: &mut Heap<T>, namespaces: &mut Namespaces)
    ensures
        (final(heap)@, final(namespaces)@) == frames_released(
            old(heap)@,
            old(namespaces)@,
            frames_view(frames@),
        ),
{
    let mut left: Vec<CallFrame> = frames;
    while left.len() > 0
        invariant
            frames_released(heap@, namespaces@, frames_view(left@)) == frames_released(
                old(heap)@,
                old(namespaces)@,
                frames_view(frames@),
            ),
        ensures
            left@.len() == 0,
        decreases left@.len(),
    {
        let ghost before = left@;
        match left.pop() {
            None => {
                break;
            },
            Some(frame) => {
                assert(frames_view(left@) =~= frames_view(before).drop_last());
                drop_frame(frame, heap, namespaces);
            },
        }
    }
}

} // verus!
