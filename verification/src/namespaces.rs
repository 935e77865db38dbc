//! The variables of the frames that are running.

use vstd::prelude::*;
use crate::heap::{Heap, HeapView};
use crate::ids::NamespaceId;
use crate::resource::{ResourceError, ResourceTracker};
use crate::value::Value;

verus! {

/// The namespace of module-level code.
pub const GLOBAL_NS_IDX: usize = 0;

/// The namespaces in use; the first one is that of module-level code.
#[derive(Debug)]
pub struct Namespaces {
    pub slots: Vec<Option<Vec<Value>>>,
    /// The number of namespaces besides that of module-level code.
    pub depth: usize,
}

/// The content of [`Namespaces`].
#[verifier::ext_equal]
pub struct NamespacesView {
    pub slots: Seq<Option<Seq<Value>>>,
    pub depth: usize,
}

/// The content of an optional namespace.
pub open spec fn namespace_view(slot: Option<Vec<Value>>) -> Option<Seq<Value>> {
    match slot {
        None => None,
        Some(values) => Some(values@),
    }
}

impl View for Namespaces {
    type V = NamespacesView;

    open spec fn view(&self) -> NamespacesView {
        NamespacesView {
            slots: self.slots@.map_values(|slot: Option<Vec<Value>>| namespace_view(slot)),
            depth: self.depth,
        }
    }
}

/// The slots without the unused ones at the end.
pub open spec fn trimmed(slots: Seq<Option<Seq<Value>>>) -> Seq<Option<Seq<Value>>>
    decreases slots.len(),
{
    if slots.len() != 0 && slots.last() is None {
        trimmed(slots.drop_last())
    } else {
        slots
    }
}

impl NamespacesView {
    /// The namespace with the given id.
    pub open spec fn get(self, id: NamespaceId) -> Option<Seq<Value>> {
        if id.0 < self.slots.len() {
            self.slots[id.0 as int]
        } else {
            None
        }
    }

    /// The namespaces with one more.
    pub open spec fn added(self, values: Seq<Value>) -> NamespacesView {
        NamespacesView {
            slots: self.slots.push(Some(values)),
            depth: if self.depth == usize::MAX {
                self.depth
            } else {
                (self.depth + 1) as usize
            },
        }
    }

    /// The id the next namespace gets.
    pub open spec fn next_id(self) -> NamespaceId {
        NamespaceId(self.slots.len() as usize)
    }

    /// The namespaces without one.
    pub open spec fn removed(self, id: NamespaceId) -> NamespacesView {
        match self.get(id) {
            None => self,
            Some(_) => NamespacesView {
                slots: trimmed(self.slots.update(id.0 as int, None)),
                depth: if self.depth == 0 {
                    0
                } else {
                    (self.depth - 1) as usize
                },
            },
        }
    }

    /// The namespaces with other values in one.
    pub open spec fn replaced(self, id: NamespaceId, values: Seq<Value>) -> NamespacesView {
        match self.get(id) {
            None => self,
            Some(_) => NamespacesView {
                slots: self.slots.update(id.0 as int, Some(values)),
                ..self
            },
        }
    }
}

/// Whether one more namespace would go beyond what a tracker allows.
pub open spec fn depth_error<T: ResourceTracker>(tracker: T, depth: usize) -> Option<ResourceError> {
    match tracker.depth_limit() {
        Some(limit) => if depth >= limit {
            Some(ResourceError::Recursion { limit })
        } else {
            None
        },
        None => None,
    }
}

/// The heap once the values of a namespace are given up.
pub open spec fn namespace_released<T>(
    h: HeapView<T>,
    n: NamespacesView,
    id: NamespaceId,
) -> HeapView<T> {
    match n.get(id) {
        None => h,
        Some(values) => h.release_values(values),
    }
}

/// Unassigned variables.
pub open spec fn undefined(n: nat) -> Seq<Value> {
    Seq::new(n, |i: int| Value::Undefined)
}

impl Namespaces {
    /// Only the namespace of module-level code.
    pub fn new(global: Vec<Value>) -> (r: Self)
        ensures
            r@ == (NamespacesView { slots: seq![Some(global@)], depth: 0 }),
    {
        let mut slots: Vec<Option<Vec<Value>>> = Vec::new();
        slots.push(Some(global));
        let r: Namespaces = Namespaces { slots, depth: 0 };
        assert(r@.slots =~= seq![Some(global@)]);
        r
    }

    /// The namespace with the given id.
    pub fn get(&self, id: NamespaceId) -> (r: Option<&Vec<Value>>)
        ensures
            r is Some <==> self@.get(id) is Some,
            r matches Some(v) ==> self@.get(id) == Some(v@),
    {
        if id.0 < self.slots.len() {
            match &self.slots[id.0] {
                None => None,
                Some(v) => Some(v),
            }
        } else {
            None
        }
    }

    fn depth_refused<T: ResourceTracker>(&self, heap: &Heap<T>) -> (r: Option<ResourceError>)
        ensures
            r == depth_error(heap@.tracker, self@.depth),
    {
        match heap.tracker.max_recursion_depth() {
            Some(limit) => if self.depth >= limit {
                Some(ResourceError::Recursion { limit })
            } else {
                None
            },
            None => None,
        }
    }

    fn push(&mut self, values: Vec<Value>) -> (r: NamespaceId)
        ensures
            r == old(self)@.next_id(),
            final(self)@ == old(self)@.added(values@),
    {
        let id: NamespaceId = NamespaceId(self.slots.len());
        self.slots.push(Some(values));
        if self.depth != usize::MAX {
            self.depth = self.depth + 1;
        }
        assert(self@.slots =~= old(self)@.added(values@).slots);
        id
    }

    /// Adds an empty namespace, unless calls are nested too deeply.
    pub fn new_namespace<T: ResourceTracker>(&mut self, heap: &Heap<T>) -> (r: Result<
        NamespaceId,
        ResourceError,
    >)
        ensures
            match depth_error(heap@.tracker, old(self)@.depth) {
                Some(e) => r == Err::<NamespaceId, ResourceError>(e) && final(self)@ == old(self)@,
                None => r == Ok::<NamespaceId, ResourceError>(old(self)@.next_id())
                    && final(self)@ == old(self)@.added(Seq::empty()),
            },
    {
        match self.depth_refused(heap) {
            Some(e) => Err(e),
            None => Ok(self.push(Vec::new())),
        }
    }

    /// Adds a namespace with values in it, unless calls are nested too deeply; the values
    /// are given up then.
    pub fn register_prebuilt<T: ResourceTracker>(
        &mut self,
        values: Vec<Value>,
        heap: &mut Heap<T>,
    ) -> (r: Result<NamespaceId, ResourceError>)
        ensures
            match depth_error(old(heap)@.tracker, old(self)@.depth) {
                Some(e) => r == Err::<NamespaceId, ResourceError>(e) && final(self)@ == old(self)@
                    && final(heap)@ == old(heap)@.release_values(values@),
                None => r == Ok::<NamespaceId, ResourceError>(old(self)@.next_id())
                    && final(self)@ == old(self)@.added(values@) && final(heap)@ == old(heap)@,
            },
    {
        match self.depth_refused(heap) {
            Some(e) => {
                heap.drop_values(values.as_slice());
                Err(e)
            },
            None => Ok(self.push(values)),
        }
    }

    fn trim(&mut self)
        ensures
            final(self)@ == (NamespacesView { slots: trimmed(old(self)@.slots), ..old(self)@ }),
    {
        while self.slots.len() > 0 && self.slots[self.slots.len() - 1].is_none()
            invariant
                self.depth == old(self).depth,
                trimmed(self@.slots) == trimmed(old(self)@.slots),
            decreases self.slots@.len(),
        {
            let ghost before = self@.slots;
            let _ = self.slots.pop();
            assert(self@.slots =~= before.drop_last());
        }
    }

    /// Removes a namespace and gives up its values.
    pub fn drop_with_heap<T>(&mut self, id: NamespaceId, heap: &mut Heap<T>)
        ensures
            final(self)@ == old(self)@.removed(id),
            final(heap)@ == namespace_released(old(heap)@, old(self)@, id),
    {
        if id.0 < self.slots.len() {
            let mut slot: Option<Vec<Value>> = None;
            std::mem::swap(&mut slot, &mut self.slots[id.0]);
            match slot {
                None => {
                    assert(self@.slots =~= old(self)@.slots);
                },
                Some(values) => {
                    assert(self@.slots =~= old(self)@.slots.update(id.0 as int, None));
                    heap.drop_values(values.as_slice());
                    if self.depth > 0 {
                        self.depth = self.depth - 1;
                    }
                    self.trim();
                },
            }
        }
    }

    /// Puts other values into a namespace; the old ones are not given up.
    pub fn set(&mut self, id: NamespaceId, values: Vec<Value>)
        ensures
            final(self)@ == old(self)@.replaced(id, values@),
    {
        if id.0 < self.slots.len() && self.slots[id.0].is_some() {
            self.slots[id.0] = Some(values);
            assert(self@.slots =~= old(self)@.replaced(id, values@).slots);
        }
    }
}

} // verus!
