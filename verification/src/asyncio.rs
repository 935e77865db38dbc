//! Objects a program can await.

use vstd::prelude::*;
use crate::ids::{CallId, FunctionId, HeapId, TaskId};
use crate::value::Value;

verus! {

/// How far a coroutine has come.
#[derive(Debug, Clone, Copy, PartialEq, Eq, Structural)]
pub enum CoroutineState {
    New,
    Running,
    Completed,
}

/// A call of an async function, with its arguments bound but its body not started.
#[derive(Debug)]
pub struct Coroutine {
    pub func_id: FunctionId,
    pub namespace: Vec<Value>,
    pub frame_cells: Vec<HeapId>,
    /// How many of the cells, from the front, are counted through the namespace alone.
    pub own_cells: usize,
    pub state: CoroutineState,
}

/// The content of a [`Coroutine`].
#[verifier::ext_equal]
pub struct CoroutineView {
    pub func_id: FunctionId,
    pub namespace: Seq<Value>,
    pub frame_cells: Seq<HeapId>,
    pub own_cells: usize,
    pub state: CoroutineState,
}

/// The cells that are counted besides the first `own` of them.
pub open spec fn counted_cells(cells: Seq<HeapId>, own: usize) -> Seq<HeapId> {
    if own < cells.len() {
        cells.skip(own as int)
    } else {
        Seq::empty()
    }
}

impl View for Coroutine {
    type V = CoroutineView;

    open spec fn view(&self) -> CoroutineView {
        CoroutineView {
            func_id: self.func_id,
            namespace: self.namespace@,
            frame_cells: self.frame_cells@,
            own_cells: self.own_cells,
            state: self.state,
        }
    }
}

impl Coroutine {
    pub fn new(
        func_id: FunctionId,
        namespace: Vec<Value>,
        frame_cells: Vec<HeapId>,
        own_cells: usize,
    ) -> (r: Self)
        ensures
            r@ == (CoroutineView {
                func_id,
                namespace: namespace@,
                frame_cells: frame_cells@,
                own_cells,
                state: CoroutineState::New,
            }),
    {
        Coroutine { func_id, namespace, frame_cells, own_cells, state: CoroutineState::New }
    }
}

/// One thing a gather waits for.
#[derive(Debug, Clone, Copy, PartialEq, Eq, Structural)]
pub enum GatherItem {
    Coroutine(HeapId),
    ExternalFuture(CallId),
}

/// Several awaitables that are awaited together.
#[derive(Debug)]
pub struct GatherFuture {
    pub items: Vec<GatherItem>,
    pub task_ids: Vec<TaskId>,
    pub results: Vec<Option<Value>>,
    pub waiter: Option<TaskId>,
    pub pending_calls: Vec<CallId>,
}

/// The content of a [`GatherFuture`].
#[verifier::ext_equal]
pub struct GatherView {
    pub items: Seq<GatherItem>,
    pub task_ids: Seq<TaskId>,
    pub results: Seq<Option<Value>>,
    pub waiter: Option<TaskId>,
    pub pending_calls: Seq<CallId>,
}

impl View for GatherFuture {
    type V = GatherView;

    open spec fn view(&self) -> GatherView {
        GatherView {
            items: self.items@,
            task_ids: self.task_ids@,
            results: self.results@,
            waiter: self.waiter,
            pending_calls: self.pending_calls@,
        }
    }
}

/// The coroutines among the items of a gather, in order.
pub open spec fn gathered_coroutines(items: Seq<GatherItem>) -> Seq<HeapId>
    decreases items.len(),
{
    if items.len() == 0 {
        Seq::empty()
    } else {
        let before = gathered_coroutines(items.drop_last());
        match items.last() {
            GatherItem::Coroutine(id) => before.push(id),
            GatherItem::ExternalFuture(_) => before,
        }
    }
}

/// The objects the results present so far refer to, in order.
pub open spec fn result_refs(results: Seq<Option<Value>>) -> Seq<HeapId>
    decreases results.len(),
{
    if results.len() == 0 {
        Seq::empty()
    } else {
        let before = result_refs(results.drop_last());
        match results.last() {
            Some(Value::Ref(id)) => before.push(id),
            _ => before,
        }
    }
}

impl GatherFuture {
    /// A gather of `items` that nobody waits for yet.
    pub fn new(items: Vec<GatherItem>) -> (r: Self)
        ensures
            r@.items == items@,
            r@.task_ids == Seq::<TaskId>::empty(),
            r@.results == Seq::new(items@.len(), |i: int| None::<Value>),
            r@.waiter is None,
            r@.pending_calls == Seq::<CallId>::empty(),
    {
        let mut results: Vec<Option<Value>> = Vec::new();
        let n: usize = items.len();
        let mut i: usize = 0;
        while i < n
            invariant
                0 <= i <= n,
                results@ == Seq::new(i as nat, |j: int| None::<Value>),
            decreases n - i,
        {
            results.push(None);
            i = i + 1;
            assert(results@ =~= Seq::new(i as nat, |j: int| None::<Value>));
        }
        GatherFuture {
            items,
            task_ids: Vec::new(),
            results,
            waiter: None,
            pending_calls: Vec::new(),
        }
    }

    /// The number of items.
    pub fn item_count(&self) -> (r: usize)
        ensures
            r == self@.items.len(),
    {
        self.items.len()
    }

    /// Appends the objects the gather holds references to.
    pub fn push_refs(&self, ids: &mut Vec<HeapId>)
        ensures
            final(ids)@ == old(ids)@ + gathered_coroutines(self@.items) + result_refs(
                self@.results,
            ),
    {
        let ghost start = ids@;
        let mut i: usize = 0;
        assert(ids@ =~= start + gathered_coroutines(self.items@.take(0)));
        while i < self.items.len()
            invariant
                0 <= i <= self.items@.len(),
                ids@ == start + gathered_coroutines(self.items@.take(i as int)),
            decreases self.items@.len() - i,
        {
            let item: GatherItem = self.items[i];
            assert(self.items@.take(i + 1).drop_last() =~= self.items@.take(i as int));
            if let GatherItem::Coroutine(id) = item {
                ids.push(id);
                assert(ids@ =~= start + gathered_coroutines(self.items@.take(i + 1)));
            }
            i = i + 1;
        }
        assert(self.items@.take(i as int) =~= self.items@);
        let ghost middle = ids@;
        let mut k: usize = 0;
        assert(ids@ =~= middle + result_refs(self.results@.take(0)));
        while k < self.results.len()
            invariant
                0 <= k <= self.results@.len(),
                ids@ == middle + result_refs(self.results@.take(k as int)),
            decreases self.results@.len() - k,
        {
            let result: Option<Value> = self.results[k];
            assert(self.results@.take(k + 1).drop_last() =~= self.results@.take(k as int));
            if let Some(Value::Ref(id)) = result {
                ids.push(id);
                assert(ids@ =~= middle + result_refs(self.results@.take(k + 1)));
            }
            k = k + 1;
        }
        assert(self.results@.take(k as int) =~= self.results@);
    }
}

} // verus!
