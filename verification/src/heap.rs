//! The heap: reference-counted objects.

use vstd::prelude::*;
use crate::asyncio::{counted_cells, gathered_coroutines, result_refs, Coroutine, CoroutineView, GatherFuture, GatherView};
use crate::containers::{Dict, PySet, Range, Slice, Tuple};
use crate::error::{ExceptionView, SimpleException};
use crate::ids::{FunctionId, HeapId};
use crate::list::{List, ListView};
use crate::long_int::LongInt;
use crate::resource::{ResourceError, ResourceTracker};
use crate::types::Type;
use crate::value::{push_refs, refs_of, Value};

verus! {

/// An object on the heap.
#[derive(Debug)]
pub enum HeapData {
    List(List),
    Tuple(Tuple),
    Dict(Dict),
    PySet(PySet),
    Str(String),
    Bytes(Vec<u8>),
    Range(Range),
    Slice(Slice),
    LongInt(LongInt),
    Exception(SimpleException),
    Cell(Value),
    Closure(FunctionId, Vec<HeapId>, Vec<Value>),
    FunctionDefaults(FunctionId, Vec<Value>),
    Coroutine(Coroutine),
    GatherFuture(GatherFuture),
}

/// The content of an object.
pub enum DataView {
    List(ListView),
    Tuple(Seq<Value>),
    Dict(Seq<(Value, Value)>),
    PySet(Seq<Value>),
    Str(Seq<char>),
    Bytes(Seq<u8>),
    Range(Range),
    Slice(Slice),
    LongInt(int),
    Exception(ExceptionView),
    Cell(Value),
    Closure(FunctionId, Seq<HeapId>, Seq<Value>),
    FunctionDefaults(FunctionId, Seq<Value>),
    Coroutine(CoroutineView),
    GatherFuture(GatherView),
}

impl View for HeapData {
    type V = DataView;

    open spec fn view(&self) -> DataView {
        match self {
            HeapData::List(l) => DataView::List(l@),
            HeapData::Tuple(t) => DataView::Tuple(t.items@),
            HeapData::Dict(d) => DataView::Dict(d.entries@),
            HeapData::PySet(s) => DataView::PySet(s.items@),
            HeapData::Str(s) => DataView::Str(s@),
            HeapData::Bytes(b) => DataView::Bytes(b@),
            HeapData::Range(r) => DataView::Range(*r),
            HeapData::Slice(s) => DataView::Slice(*s),
            HeapData::LongInt(i) => DataView::LongInt(i@),
            HeapData::Exception(e) => DataView::Exception(e@),
            HeapData::Cell(v) => DataView::Cell(*v),
            HeapData::Closure(f, cells, defaults) => DataView::Closure(*f, cells@, defaults@),
            HeapData::FunctionDefaults(f, defaults) => DataView::FunctionDefaults(*f, defaults@),
            HeapData::Coroutine(c) => DataView::Coroutine(c@),
            HeapData::GatherFuture(g) => DataView::GatherFuture(g@),
        }
    }
}

/// Keys and values of a dict, in order.
pub open spec fn pair_values(pairs: Seq<(Value, Value)>) -> Seq<Value>
    decreases pairs.len(),
{
    if pairs.len() == 0 {
        Seq::empty()
    } else {
        pair_values(pairs.drop_last()).push(pairs.last().0).push(pairs.last().1)
    }
}

impl DataView {
    /// The objects this object holds counted references to, in order.
    pub open spec fn references(self) -> Seq<HeapId> {
        match self {
            DataView::List(l) => refs_of(l.items),
            DataView::Tuple(items) => refs_of(items),
            DataView::Dict(pairs) => refs_of(pair_values(pairs)),
            DataView::PySet(items) => refs_of(items),
            DataView::Cell(v) => refs_of(seq![v]),
            DataView::Closure(_, cells, defaults) => cells + refs_of(defaults),
            DataView::FunctionDefaults(_, defaults) => refs_of(defaults),
            DataView::Coroutine(c) => counted_cells(c.frame_cells, c.own_cells) + refs_of(
                c.namespace,
            ),
            DataView::GatherFuture(g) => gathered_coroutines(g.items) + result_refs(g.results),
            _ => Seq::empty(),
        }
    }

    /// The references that are given up when the object dies.
    ///
    /// A list whose flag says that it holds none is not looked at.
    pub open spec fn released_on_death(self) -> Seq<HeapId> {
        match self {
            DataView::List(l) => if l.contains_refs {
                refs_of(l.items)
            } else {
                Seq::empty()
            },
            _ => self.references(),
        }
    }

    /// The Python type of the object.
    pub open spec fn type_of(self) -> Type {
        match self {
            DataView::List(_) => Type::List,
            DataView::Tuple(_) => Type::Tuple,
            DataView::Dict(_) => Type::Dict,
            DataView::PySet(_) => Type::PySet,
            DataView::Str(_) => Type::Str,
            DataView::Bytes(_) => Type::Bytes,
            DataView::Range(_) => Type::Range,
            DataView::Slice(_) => Type::Slice,
            DataView::LongInt(_) => Type::Int,
            DataView::Exception(e) => Type::Exception(e.exc_type),
            DataView::Cell(_) => Type::Cell,
            DataView::Closure(_, _, _) => Type::Function,
            DataView::FunctionDefaults(_, _) => Type::Function,
            DataView::Coroutine(_) => Type::Coroutine,
            DataView::GatherFuture(_) => Type::Future,
        }
    }
}

/// The values of one more pair come after those of the pairs before it.
pub proof fn pair_values_push(pairs: Seq<(Value, Value)>, p: (Value, Value))
    ensures
        pair_values(pairs.push(p)) == pair_values(pairs).push(p.0).push(p.1),
{
    assert(pairs.push(p).drop_last() =~= pairs);
}

impl HeapData {
    /// Appends the references that are given up when the object dies.
    pub fn py_dec_ref_ids(&self, stack: &mut Vec<HeapId>)
        ensures
            final(stack)@ == old(stack)@ + self@.released_on_death(),
    {
        let ghost start = stack@;
        match self {
            HeapData::List(l) => {
                l.py_dec_ref_ids(stack);
            },
            HeapData::Tuple(t) => {
                push_refs(t.items.as_slice(), stack);
            },
            HeapData::Dict(d) => {
                let mut flat: Vec<Value> = Vec::new();
                let mut i: usize = 0;
                while i < d.entries.len()
                    invariant
                        0 <= i <= d.entries@.len(),
                        flat@ == pair_values(d.entries@.take(i as int)),
                    decreases d.entries@.len() - i,
                {
                    let (k, v): (Value, Value) = d.entries[i];
                    proof {
                        pair_values_push(d.entries@.take(i as int), (k, v));
                        assert(d.entries@.take(i + 1) =~= d.entries@.take(i as int).push((k, v)));
                    }
                    flat.push(k);
                    flat.push(v);
                    i = i + 1;
                }
                assert(d.entries@.take(i as int) =~= d.entries@);
                push_refs(flat.as_slice(), stack);
            },
            HeapData::PySet(s) => {
                push_refs(s.items.as_slice(), stack);
            },
            HeapData::Cell(v) => {
                let one: Vec<Value> = vec![*v];
                assert(one@ =~= seq![*v]);
                push_refs(one.as_slice(), stack);
            },
            HeapData::Closure(_, cells, defaults) => {
                push_ids(cells, stack);
                push_refs(defaults.as_slice(), stack);
                assert(stack@ =~= start + (cells@ + refs_of(defaults@)));
            },
            HeapData::FunctionDefaults(_, defaults) => {
                push_refs(defaults.as_slice(), stack);
            },
            HeapData::Coroutine(c) => {
                push_counted(&c.frame_cells, c.own_cells, stack);
                push_refs(c.namespace.as_slice(), stack);
                assert(stack@ =~= start + (counted_cells(c.frame_cells@, c.own_cells) + refs_of(
                    c.namespace@,
                )));
            },
            HeapData::GatherFuture(g) => {
                g.push_refs(stack);
                assert(stack@ =~= start + (gathered_coroutines(g@.items) + result_refs(
                    g@.results,
                )));
            },
            HeapData::Str(_)
            | HeapData::Bytes(_)
            | HeapData::Range(_)
            | HeapData::Slice(_)
            | HeapData::LongInt(_)
            | HeapData::Exception(_) => {
                assert(stack@ =~= start + Seq::<HeapId>::empty());
            },
        }
    }

    /// The Python type of the object.
    pub fn py_type(&self) -> (r: Type)
        ensures
            r == self@.type_of(),
    {
        match self {
            HeapData::List(_) => Type::List,
            HeapData::Tuple(_) => Type::Tuple,
            HeapData::Dict(_) => Type::Dict,
            HeapData::PySet(_) => Type::PySet,
            HeapData::Str(_) => Type::Str,
            HeapData::Bytes(_) => Type::Bytes,
            HeapData::Range(_) => Type::Range,
            HeapData::Slice(_) => Type::Slice,
            HeapData::LongInt(_) => Type::Int,
            HeapData::Exception(e) => Type::Exception(e.exc_type),
            HeapData::Cell(_) => Type::Cell,
            HeapData::Closure(_, _, _) => Type::Function,
            HeapData::FunctionDefaults(_, _) => Type::Function,
            HeapData::Coroutine(_) => Type::Coroutine,
            HeapData::GatherFuture(_) => Type::Future,
        }
    }
}

fn push_ids(ids: &Vec<HeapId>, stack: &mut Vec<HeapId>)
    ensures
        final(stack)@ == old(stack)@ + ids@,
{
    let ghost start = stack@;
    let mut i: usize = 0;
    assert(stack@ =~= start + ids@.take(0));
    while i < ids.len()
        invariant
            0 <= i <= ids@.len(),
            stack@ == start + ids@.take(i as int),
        decreases ids@.len() - i,
    {
        stack.push(ids[i]);
        i = i + 1;
        assert(stack@ =~= start + ids@.take(i as int));
    }
    assert(ids@.take(i as int) =~= ids@);
}

/// Appends the cells that are counted besides the first `own` of them.
pub fn push_counted(cells: &Vec<HeapId>, own: usize, stack: &mut Vec<HeapId>)
    ensures
        final(stack)@ == old(stack)@ + counted_cells(cells@, own),
{
    let ghost start = stack@;
    if own >= cells.len() {
        assert(stack@ =~= start + counted_cells(cells@, own));
        return;
    }
    let mut i: usize = own;
    assert(stack@ =~= start + cells@.subrange(own as int, own as int));
    while i < cells.len()
        invariant
            own <= i <= cells@.len(),
            stack@ == start + cells@.subrange(own as int, i as int),
        decreases cells@.len() - i,
    {
        stack.push(cells[i]);
        i = i + 1;
        assert(stack@ =~= start + cells@.subrange(own as int, i as int));
    }
    assert(stack@ =~= start + counted_cells(cells@, own));
}

/// One slot of the heap: how often the object is referred to, and the object.
///
/// The object is missing while it is being changed.
#[derive(Debug)]
pub struct HeapEntry {
    pub refs: usize,
    pub data: Option<HeapData>,
}

/// The content of a [`HeapEntry`].
pub struct EntryView {
    pub refs: usize,
    pub data: Option<DataView>,
}

impl View for HeapEntry {
    type V = EntryView;

    open spec fn view(&self) -> EntryView {
        EntryView {
            refs: self.refs,
            data: match self.data {
                None => None,
                Some(d) => Some(d@),
            },
        }
    }
}

/// The content of an optional slot.
pub open spec fn slot_view(slot: Option<HeapEntry>) -> Option<EntryView> {
    match slot {
        None => None,
        Some(e) => Some(e@),
    }
}

/// The objects of a running program.
///
/// A slot is never used twice, so an id names one object for good. Counts saturate: an
/// object whose count has reached the largest `usize` is never freed.
#[derive(Debug)]
pub struct Heap<T> {
    pub entries: Vec<Option<HeapEntry>>,
    pub tracker: T,
    pub may_have_cycles: bool,
    /// The one empty tuple, once the program has made one; the heap keeps a reference to it.
    pub empty_tuple: Option<HeapId>,
}

/// The content of a [`Heap`].
#[verifier::ext_equal]
pub struct HeapView<T> {
    pub entries: Seq<Option<EntryView>>,
    pub tracker: T,
    pub may_have_cycles: bool,
    pub empty_tuple: Option<HeapId>,
}

impl<T> View for Heap<T> {
    type V = HeapView<T>;

    open spec fn view(&self) -> HeapView<T> {
        HeapView {
            entries: self.entries@.map_values(|slot: Option<HeapEntry>| slot_view(slot)),
            tracker: self.tracker,
            may_have_cycles: self.may_have_cycles,
            empty_tuple: self.empty_tuple,
        }
    }
}

/// The number of slots in use.
pub open spec fn live_count(entries: Seq<Option<EntryView>>) -> nat
    decreases entries.len(),
{
    if entries.len() == 0 {
        0
    } else {
        live_count(entries.drop_last()) + (if entries.last() is Some {
            1nat
        } else {
            0nat
        })
    }
}

/// Changing a slot changes the number of slots in use by what the change says.
pub proof fn live_count_update(entries: Seq<Option<EntryView>>, i: int, slot: Option<EntryView>)
    requires
        0 <= i < entries.len(),
    ensures
        live_count(entries.update(i, slot)) + (if entries[i] is Some {
            1nat
        } else {
            0nat
        }) == live_count(entries) + (if slot is Some {
            1nat
        } else {
            0nat
        }),
    decreases entries.len(),
{
    let updated = entries.update(i, slot);
    if i == entries.len() - 1 {
        assert(updated.drop_last() =~= entries.drop_last());
    } else {
        live_count_update(entries.drop_last(), i, slot);
        assert(updated.drop_last() =~= entries.drop_last().update(i, slot));
    }
}

impl<T> HeapView<T> {
    /// An empty heap.
    pub open spec fn fresh(tracker: T) -> HeapView<T> {
        HeapView { entries: Seq::empty(), tracker, may_have_cycles: false, empty_tuple: None }
    }

    /// The slot with the given id.
    pub open spec fn entry(self, id: HeapId) -> Option<EntryView> {
        if id.0 < self.entries.len() {
            self.entries[id.0 as int]
        } else {
            None
        }
    }

    /// The object with the given id.
    pub open spec fn data(self, id: HeapId) -> Option<DataView> {
        match self.entry(id) {
            None => None,
            Some(e) => e.data,
        }
    }

    /// How often the object with the given id is referred to.
    pub open spec fn count(self, id: HeapId) -> nat {
        match self.entry(id) {
            None => 0,
            Some(e) => e.refs as nat,
        }
    }

    /// The heap with a slot replaced.
    pub open spec fn set_entry(self, id: HeapId, slot: Option<EntryView>) -> HeapView<T> {
        HeapView { entries: self.entries.update(id.0 as int, slot), ..self }
    }

    /// The heap with the object of a slot in use replaced.
    pub open spec fn set_data(self, id: HeapId, data: Option<DataView>) -> HeapView<T> {
        match self.entry(id) {
            None => self,
            Some(e) => self.set_entry(id, Some(EntryView { refs: e.refs, data })),
        }
    }

    /// The heap after one more reference to `id` is counted.
    pub open spec fn inc(self, id: HeapId) -> HeapView<T> {
        match self.entry(id) {
            None => self,
            Some(e) => self.set_entry(
                id,
                Some(
                    EntryView {
                        refs: if e.refs == usize::MAX {
                            usize::MAX
                        } else {
                            (e.refs + 1) as usize
                        },
                        data: e.data,
                    },
                ),
            ),
        }
    }

    /// The heap after a value is counted.
    pub open spec fn inc_value(self, v: Value) -> HeapView<T> {
        match v {
            Value::Ref(id) => self.inc(id),
            _ => self,
        }
    }

    /// The heap after several values are counted.
    pub open spec fn inc_values(self, values: Seq<Value>) -> HeapView<T>
        decreases values.len(),
    {
        if values.len() == 0 {
            self
        } else {
            self.inc_values(values.drop_last()).inc_value(values.last())
        }
    }

    /// The heap after several references are counted.
    pub open spec fn inc_ids(self, ids: Seq<HeapId>) -> HeapView<T>
        decreases ids.len(),
    {
        if ids.len() == 0 {
            self
        } else {
            self.inc_ids(ids.drop_last()).inc(ids.last())
        }
    }

    /// The heap after the references in `work` are given up, the last one first.
    ///
    /// Giving up the last reference to an object frees it and gives up the references it
    /// held. A reference to a slot that is no longer in use is ignored.
    pub open spec fn release_ids(self, work: Seq<HeapId>) -> HeapView<T>
        decreases live_count(self.entries), work.len(),
    {
        if work.len() == 0 {
            self
        } else {
            let id = work.last();
            let rest = work.drop_last();
            match self.entry(id) {
                None => self.release_ids(rest),
                Some(e) => {
                    if e.refs > 1 {
                        proof {
                            live_count_update(
                                self.entries,
                                id.0 as int,
                                Some(EntryView { refs: dec_count(e.refs), data: e.data }),
                            );
                        }
                        self.set_entry(
                            id,
                            Some(EntryView { refs: dec_count(e.refs), data: e.data }),
                        ).release_ids(rest)
                    } else {
                        proof {
                            live_count_update(self.entries, id.0 as int, None);
                        }
                        self.set_entry(id, None).release_ids(rest + released_by(e))
                    }
                },
            }
        }
    }

    /// The heap after a value is given up.
    pub open spec fn release(self, v: Value) -> HeapView<T> {
        match v {
            Value::Ref(id) => self.release_ids(seq![id]),
            _ => self,
        }
    }

    /// The heap after several values are given up, the first one first.
    pub open spec fn release_values(self, values: Seq<Value>) -> HeapView<T>
        decreases values.len(),
    {
        if values.len() == 0 {
            self
        } else {
            self.release_values(values.drop_last()).release(values.last())
        }
    }

    /// The heap after several references are given up, the first one first.
    pub open spec fn release_each(self, ids: Seq<HeapId>) -> HeapView<T>
        decreases ids.len(),
    {
        if ids.len() == 0 {
            self
        } else {
            self.release_each(ids.drop_last()).release_ids(seq![ids.last()])
        }
    }

    /// The heap once a cycle of references may have been built.
    pub open spec fn cycle_marked(self) -> HeapView<T> {
        HeapView { may_have_cycles: true, ..self }
    }
}

/// A count with one reference less; the largest count stays.
pub open spec fn dec_count(refs: usize) -> usize {
    if refs == usize::MAX {
        refs
    } else {
        (refs - 1) as usize
    }
}

/// The references given up when a slot is freed.
pub open spec fn released_by(e: EntryView) -> Seq<HeapId> {
    match e.data {
        None => Seq::empty(),
        Some(d) => d.released_on_death(),
    }
}

impl<T: ResourceTracker> HeapView<T> {
    /// The heap after an attempt to allocate `data`.
    pub open spec fn allocated(self, data: DataView) -> HeapView<T> {
        if self.tracker.admits() {
            HeapView {
                entries: self.entries.push(Some(EntryView { refs: 1, data: Some(data) })),
                tracker: self.tracker.charged(),
                ..self
            }
        } else {
            self
        }
    }

    /// The id of the next object, or why there will be none.
    pub open spec fn next_id(self) -> Result<HeapId, ResourceError> {
        if self.tracker.admits() {
            Ok(HeapId(self.entries.len() as usize))
        } else {
            Err(self.tracker.refusal())
        }
    }
}

/// Counting a sequence of values extends to one more value.
pub proof fn inc_values_push<T>(h: HeapView<T>, values: Seq<Value>, v: Value)
    ensures
        h.inc_values(values.push(v)) == h.inc_values(values).inc_value(v),
{
    assert(values.push(v).drop_last() =~= values);
}

/// Counting a sequence of references extends to one more.
pub proof fn inc_ids_push<T>(h: HeapView<T>, ids: Seq<HeapId>, id: HeapId)
    ensures
        h.inc_ids(ids.push(id)) == h.inc_ids(ids).inc(id),
{
    assert(ids.push(id).drop_last() =~= ids);
}

/// Giving up a sequence of values extends to one more value.
pub proof fn release_values_push<T>(h: HeapView<T>, values: Seq<Value>, v: Value)
    ensures
        h.release_values(values.push(v)) == h.release_values(values).release(v),
{
    assert(values.push(v).drop_last() =~= values);
}

impl<T> Heap<T> {
    /// An empty heap.
    pub fn new(capacity: usize, tracker: T) -> (r: Self)
        ensures
            r@ == HeapView::fresh(tracker),
    {
        let r: Heap<T> = Heap {
            entries: Vec::with_capacity(capacity),
            tracker,
            may_have_cycles: false,
            empty_tuple: None,
        };
        assert(r@.entries =~= Seq::empty());
        r
    }

    /// The object with the given id, if the slot is in use.
    pub fn get(&self, id: HeapId) -> (r: Option<&HeapData>)
        ensures
            r is Some <==> self@.data(id) is Some,
            r matches Some(d) ==> self@.data(id) == Some(d@),
    {
        if id.0 < self.entries.len() {
            match &self.entries[id.0] {
                None => None,
                Some(e) => match &e.data {
                    None => None,
                    Some(d) => Some(d),
                },
            }
        } else {
            None
        }
    }

    /// Notes that a cycle of references may have been built.
    pub fn mark_potential_cycle(&mut self)
        ensures
            final(self)@ == old(self)@.cycle_marked(),
    {
        self.may_have_cycles = true;
    }

    /// Takes an object out of its slot, to be changed and put back.
    pub fn take_data(&mut self, id: HeapId) -> (r: Option<HeapData>)
        ensures
            r is Some <==> old(self)@.data(id) is Some,
            r matches Some(d) ==> old(self)@.data(id) == Some(d@),
            final(self)@ == old(self)@.set_data(id, None),
    {
        if id.0 < self.entries.len() {
            let mut slot: Option<HeapEntry> = None;
            let ghost before = self.entries@;
            std::mem::swap(&mut slot, &mut self.entries[id.0]);
            match slot {
                None => {
                    assert(self@.entries =~= old(self)@.entries);
                    None
                },
                Some(e) => {
                    self.entries[id.0] = Some(HeapEntry { refs: e.refs, data: None });
                    assert(self@.entries =~= old(self)@.set_data(id, None).entries);
                    e.data
                },
            }
        } else {
            None
        }
    }

    /// Puts an object into a slot; if the slot is no longer in use, the object is lost.
    pub fn put_data(&mut self, id: HeapId, data: HeapData)
        ensures
            final(self)@ == old(self)@.set_data(id, Some(data@)),
    {
        if id.0 < self.entries.len() {
            let refs: Option<usize> = match &self.entries[id.0] {
                None => None,
                Some(e) => Some(e.refs),
            };
            match refs {
                None => {},
                Some(n) => {
                    self.entries[id.0] = Some(HeapEntry { refs: n, data: Some(data) });
                    assert(self@.entries =~= old(self)@.set_data(id, Some(data@)).entries);
                },
            }
        }
    }

    fn set_refs(&mut self, id: HeapId, refs: usize)
        requires
            old(self)@.entry(id) is Some,
        ensures
            final(self)@ == old(self)@.set_entry(
                id,
                Some(EntryView { refs, data: old(self)@.data(id) }),
            ),
    {
        let mut slot: Option<HeapEntry> = None;
        std::mem::swap(&mut slot, &mut self.entries[id.0]);
        if let Some(e) = slot {
            self.entries[id.0] = Some(HeapEntry { refs, data: e.data });
        }
        assert(self@.entries =~= old(self)@.set_entry(
            id,
            Some(EntryView { refs, data: old(self)@.data(id) }),
        ).entries);
    }

    /// How often the object with the given id is referred to.
    pub fn get_refcount(&self, id: HeapId) -> (r: usize)
        ensures
            r == self@.count(id),
    {
        if id.0 < self.entries.len() {
            match &self.entries[id.0] {
                None => 0,
                Some(e) => e.refs,
            }
        } else {
            0
        }
    }

    fn is_used(&self, id: HeapId) -> (r: bool)
        ensures
            r == (self@.entry(id) is Some),
    {
        id.0 < self.entries.len() && self.entries[id.0].is_some()
    }

    /// Counts one more reference to an object.
    pub fn inc_ref(&mut self, id: HeapId)
        ensures
            final(self)@ == old(self)@.inc(id),
    {
        if self.is_used(id) {
            let n: usize = self.get_refcount(id);
            self.set_refs(id, if n == usize::MAX { n } else { n + 1 });
        }
    }

    /// Gives up one reference to an object, freeing what is no longer referred to.
    pub fn dec_ref(&mut self, id: HeapId)
        ensures
            final(self)@ == old(self)@.release_ids(seq![id]),
    {
        let mut work: Vec<HeapId> = vec![id];
        assert(work@ =~= seq![id]);
        while work.len() > 0
            invariant
                self@.release_ids(work@) == old(self)@.release_ids(seq![id]),
            ensures
                work@.len() == 0,
            decreases live_count(self@.entries), work@.len(),
        {
            let ghost before = self@;
            let ghost pending = work@;
            let next: HeapId = match work.pop() {
                None => {
                    break;
                },
                Some(i) => i,
            };
            assert(pending.last() == next && pending.drop_last() =~= work@);
            if self.is_used(next) {
                let n: usize = self.get_refcount(next);
                if n > 1 {
                    self.set_refs(next, if n == usize::MAX { n } else { n - 1 });
                    proof {
                        live_count_update(
                            before.entries,
                            next.0 as int,
                            Some(EntryView { refs: dec_count(n), data: before.data(next) }),
                        );
                    }
                } else {
                    let mut slot: Option<HeapEntry> = None;
                    std::mem::swap(&mut slot, &mut self.entries[next.0]);
                    assert(self@.entries =~= before.set_entry(next, None).entries);
                    assert(slot_view(slot) == before.entry(next));
                    proof {
                        live_count_update(before.entries, next.0 as int, None);
                    }
                    if let Some(e) = slot {
                        if let Some(d) = e.data {
                            d.py_dec_ref_ids(&mut work);
                        } else {
                            assert(work@ =~= pending.drop_last() + Seq::<HeapId>::empty());
                        }
                    }
                }
            }
        }
    }
}

impl<T> HeapView<T> {
    /// The Python type of a value.
    ///
    /// An unassigned variable and a reference to a freed object count as `NoneType`.
    pub open spec fn type_of(self, v: Value) -> Type {
        match v {
            Value::Undefined | Value::PyNone => Type::NoneType,
            Value::Ellipsis => Type::Ellipsis,
            Value::Bool(_) => Type::Bool,
            Value::Int(_) | Value::InternLongInt(_) => Type::Int,
            Value::InternString(_) => Type::Str,
            Value::InternBytes(_) => Type::Bytes,
            Value::Builtin(b) => b.type_of(),
            Value::ModuleFunction(_) => Type::BuiltinFunction,
            Value::DefFunction(_) | Value::ExtFunction(_) => Type::Function,
            Value::ExternalFuture(_) => Type::Coroutine,
            Value::Ref(id) => match self.data(id) {
                None => Type::NoneType,
                Some(d) => d.type_of(),
            },
        }
    }
}

impl<T> Heap<T> {
    /// Counts every value once more.
    pub fn inc_values(&mut self, values: &[Value])
        ensures
            final(self)@ == old(self)@.inc_values(values@),
    {
        let mut i: usize = 0;
        while i < values.len()
            invariant
                0 <= i <= values@.len(),
                self@ == old(self)@.inc_values(values@.take(i as int)),
            decreases values@.len() - i,
        {
            let v: Value = values[i];
            proof {
                inc_values_push(old(self)@, values@.take(i as int), v);
                assert(values@.take(i + 1) =~= values@.take(i as int).push(v));
            }
            if let Value::Ref(id) = v {
                self.inc_ref(id);
            }
            i = i + 1;
        }
        assert(values@.take(i as int) =~= values@);
    }

    /// Counts every reference once more.
    pub fn inc_ids(&mut self, ids: &[HeapId])
        ensures
            final(self)@ == old(self)@.inc_ids(ids@),
    {
        let mut i: usize = 0;
        while i < ids.len()
            invariant
                0 <= i <= ids@.len(),
                self@ == old(self)@.inc_ids(ids@.take(i as int)),
            decreases ids@.len() - i,
        {
            let id: HeapId = ids[i];
            proof {
                inc_ids_push(old(self)@, ids@.take(i as int), id);
                assert(ids@.take(i + 1) =~= ids@.take(i as int).push(id));
            }
            self.inc_ref(id);
            i = i + 1;
        }
        assert(ids@.take(i as int) =~= ids@);
    }

    /// Gives up every value, the first one first.
    pub fn drop_values(&mut self, values: &[Value])
        ensures
            final(self)@ == old(self)@.release_values(values@),
    {
        let mut i: usize = 0;
        while i < values.len()
            invariant
                0 <= i <= values@.len(),
                self@ == old(self)@.release_values(values@.take(i as int)),
            decreases values@.len() - i,
        {
            let v: Value = values[i];
            proof {
                release_values_push(old(self)@, values@.take(i as int), v);
                assert(values@.take(i + 1) =~= values@.take(i as int).push(v));
            }
            v.drop_with_heap(self);
            i = i + 1;
        }
        assert(values@.take(i as int) =~= values@);
    }

    /// Gives up every reference, the first one first.
    pub fn dec_refs(&mut self, ids: &[HeapId])
        ensures
            final(self)@ == old(self)@.release_each(ids@),
    {
        let mut i: usize = 0;
        while i < ids.len()
            invariant
                0 <= i <= ids@.len(),
                self@ == old(self)@.release_each(ids@.take(i as int)),
            decreases ids@.len() - i,
        {
            assert(ids@.take(i + 1).drop_last() =~= ids@.take(i as int));
            self.dec_ref(ids[i]);
            i = i + 1;
        }
        assert(ids@.take(i as int) =~= ids@);
    }

    /// The number of slots the heap has used so far.
    pub fn size(&self) -> (r: usize)
        ensures
            r == self@.entries.len(),
    {
        self.entries.len()
    }

    /// The number of objects on the heap.
    pub fn entry_count(&self) -> (r: usize)
        ensures
            r == live_count(self@.entries),
    {
        let mut n: usize = 0;
        let mut i: usize = 0;
        while i < self.entries.len()
            invariant
                0 <= i <= self.entries@.len(),
                n <= i,
                n == live_count(self@.entries.take(i as int)),
            decreases self.entries@.len() - i,
        {
            assert(self@.entries.take(i + 1).drop_last() =~= self@.entries.take(i as int));
            if self.entries[i].is_some() {
                n = n + 1;
            }
            i = i + 1;
        }
        assert(self@.entries.take(i as int) =~= self@.entries);
        n
    }
}

impl<T: ResourceTracker> Heap<T> {
    /// Puts a new object on the heap, with one reference to it.
    pub fn allocate(&mut self, data: HeapData) -> (r: Result<HeapId, ResourceError>)
        ensures
            r == old(self)@.next_id(),
            final(self)@ == old(self)@.allocated(data@),
    {
        match self.tracker.on_allocate() {
            Err(e) => Err(e),
            Ok(()) => {
                let id: HeapId = HeapId(self.entries.len());
                self.entries.push(Some(HeapEntry { refs: 1, data: Some(data) }));
                assert(self@.entries =~= old(self)@.allocated(data@).entries);
                Ok(id)
            },
        }
    }
}

impl Value {
    /// A copy that is counted on the heap.
    pub fn clone_with_heap<T>(&self, heap: &mut Heap<T>) -> (r: Value)
        ensures
            r == *self,
            final(heap)@ == old(heap)@.inc_value(*self),
    {
        if let Value::Ref(id) = self {
            heap.inc_ref(*id);
        }
        *self
    }

    /// Gives the value up.
    pub fn drop_with_heap<T>(self, heap: &mut Heap<T>)
        ensures
            final(heap)@ == old(heap)@.release(self),
    {
        if let Value::Ref(id) = self {
            heap.dec_ref(id);
        }
    }

    /// The Python type of the value.
    pub fn py_type<T>(&self, heap: &Heap<T>) -> (r: Type)
        ensures
            r == heap@.type_of(*self),
    {
        match self {
            Value::Undefined | Value::PyNone => Type::NoneType,
            Value::Ellipsis => Type::Ellipsis,
            Value::Bool(_) => Type::Bool,
            Value::Int(_) | Value::InternLongInt(_) => Type::Int,
            Value::InternString(_) => Type::Str,
            Value::InternBytes(_) => Type::Bytes,
            Value::Builtin(b) => b.py_type(),
            Value::ModuleFunction(_) => Type::BuiltinFunction,
            Value::DefFunction(_) | Value::ExtFunction(_) => Type::Function,
            Value::ExternalFuture(_) => Type::Coroutine,
            Value::Ref(id) => match heap.get(*id) {
                None => Type::NoneType,
                Some(d) => d.py_type(),
            },
        }
    }
}

} // verus!
