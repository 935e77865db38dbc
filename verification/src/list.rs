//! Python lists.

use vstd::prelude::*;
use vstd::layout::size_of;
use vstd::std_specs::convert::FromSpecImpl;
use ahash::AHashSet;
use crate::args::{positional_error, ArgValues, ArgsView};
use crate::containers::{noted, Slice};
use crate::equality::{sequence_eq, sequences_equal};
use crate::error::{outcome, Callee, ErrorView, Fault, RunError, RunResult};
use crate::heap::{DataView, Heap, HeapData, HeapView};
use crate::ids::HeapId;
use crate::indexing::{as_index, find_position, position};
use crate::interns::Interns;
use crate::iteration::{collect, collected, Made};
use crate::repr::{repr_sequence_fmt, sequence_repr};
use crate::resource::{DepthGuard, ResourceError, ResourceTracker};
use crate::slicing::{get_slice_items, walk_selects};
use crate::types::{ExcType, Type};
use crate::visited::set_items;
use crate::value::{any_ref, copy_values, has_refs, push_refs, refs_of, Value};

verus! {

/// A Python list.
///
/// The `contains_refs` flag may be false only if no item refers to the heap, so that
/// lists of plain values can be dropped without looking at their items.
#[derive(Debug)]
pub struct List {
    pub items: Vec<Value>,
    pub contains_refs: bool,
}

/// The content of a [`List`].
#[verifier::ext_equal]
pub struct ListView {
    pub items: Seq<Value>,
    pub contains_refs: bool,
}

impl View for List {
    type V = ListView;

    open spec fn view(&self) -> ListView {
        ListView { items: self.items@, contains_refs: self.contains_refs }
    }
}

impl ListView {
    /// The list of `items`, with its flag computed from them.
    pub open spec fn of(items: Seq<Value>) -> ListView {
        ListView { items, contains_refs: has_refs(items) }
    }

    /// The flag does not deny references that are there.
    pub open spec fn flag_ok(self) -> bool {
        has_refs(self.items) ==> self.contains_refs
    }
}

impl List {
    /// Creates a new list from a vector of values.
    pub fn new(vec: Vec<Value>) -> (r: Self)
        ensures
            r@ == ListView::of(vec@),
            r@.flag_ok(),
    {
        let contains_refs: bool = any_ref(vec.as_slice());
        List { items: vec, contains_refs }
    }

    /// Whether two lists have the same length and equal items.
    pub fn py_eq<T>(
        &self,
        other: &Self,
        heap: &Heap<T>,
        guard: &mut DepthGuard,
        interns: &Interns,
    ) -> (r: Result<bool, ResourceError>)
        ensures
            r == sequences_equal(heap@, *interns, self@.items, other@.items, old(guard).room()),
            r is Ok ==> *final(guard) == *old(guard),
            r is Err ==> final(guard).room() == 0,
        decreases old(guard).room(), 1int,
    {
        sequence_eq(self.items.as_slice(), other.items.as_slice(), heap, guard, interns)
    }

    /// Writes the printed form of the list.
    pub fn py_repr_fmt<T>(
        &self,
        f: &mut String,
        heap: &Heap<T>,
        heap_ids: &mut AHashSet<usize>,
        guard: &mut DepthGuard,
        interns: &Interns,
    )
        ensures
            final(f)@ == old(f)@ + sequence_repr(
                heap@,
                *interns,
                '[',
                ']',
                self@.items,
                set_items(*old(heap_ids)),
                old(guard).room(),
            ),
            set_items(*final(heap_ids)) == set_items(*old(heap_ids)),
            *final(guard) == *old(guard),
        decreases old(guard).room(), 1int,
    {
        repr_sequence_fmt('[', ']', self.items.as_slice(), f, heap, heap_ids, guard, interns);
    }

    /// Appends the references that are given up when the list dies.
    ///
    /// A list whose flag says that it holds none is not looked at.
    pub fn py_dec_ref_ids(&self, stack: &mut Vec<HeapId>)
        ensures
            final(stack)@ == old(stack)@ + (if self@.contains_refs {
                refs_of(self@.items)
            } else {
                Seq::empty()
            }),
    {
        if !self.contains_refs {
            assert(stack@ =~= stack@ + Seq::<HeapId>::empty());
            return;
        }
        push_refs(self.items.as_slice(), stack);
    }
}

impl ListView {
    /// The list with an item added at the end.
    pub open spec fn appended(self, item: Value) -> ListView {
        ListView {
            items: self.items.push(item),
            contains_refs: self.contains_refs || item is Ref,
        }
    }

    /// The list with items added at the end.
    pub open spec fn extended(self, items: Seq<Value>) -> ListView {
        ListView {
            items: self.items + items,
            contains_refs: self.contains_refs || has_refs(items),
        }
    }

    /// The list with an item put in at a position; behind the end means at the end.
    pub open spec fn inserted(self, index: int, item: Value) -> ListView {
        ListView {
            items: if index >= self.items.len() {
                self.items.push(item)
            } else {
                self.items.insert(index, item)
            },
            contains_refs: self.contains_refs || item is Ref,
        }
    }

    /// The list with an item replaced.
    pub open spec fn replaced(self, index: int, item: Value) -> ListView {
        ListView {
            items: self.items.update(index, item),
            contains_refs: self.contains_refs || item is Ref,
        }
    }

    /// The list with other items under the same flag.
    pub open spec fn with_items(self, items: Seq<Value>) -> ListView {
        ListView { items, ..self }
    }
}

impl FromSpecImpl<List> for Vec<Value> {
    open spec fn obeys_from_spec() -> bool {
        true
    }

    open spec fn from_spec(list: List) -> Vec<Value> {
        list.items
    }
}

impl From<List> for Vec<Value> {
    /// The items, with their references.
    fn from(list: List) -> (r: Vec<Value>) {
        list.items
    }
}

impl List {
    /// The items.
    pub fn as_slice(&self) -> (r: &[Value])
        ensures
            r@ == self@.items,
    {
        self.items.as_slice()
    }

    /// The items, to be changed.
    ///
    /// References have to be counted by whoever adds or removes items, and the flag has to
    /// be set when references are added.
    pub fn as_vec_mut(&mut self) -> (r: &mut Vec<Value>)
        ensures
            r@ == old(self)@.items,
            final(self)@ == old(self)@.with_items(final(r)@),
    {
        &mut self.items
    }

    /// The number of items.
    pub fn len(&self) -> (r: usize)
        ensures
            r == self@.items.len(),
    {
        self.items.len()
    }

    /// Whether the list may hold references to the heap.
    pub fn contains_refs(&self) -> (r: bool)
        ensures
            r == self@.contains_refs,
    {
        self.contains_refs
    }

    /// Notes that the list may hold references to the heap.
    pub fn set_contains_refs(&mut self)
        ensures
            final(self)@ == (ListView { contains_refs: true, ..old(self)@ }),
            final(self)@.flag_ok(),
    {
        self.contains_refs = true;
    }

    /// Adds an item at the end; the list takes over the reference.
    pub fn append<T>(&mut self, heap: &mut Heap<T>, item: Value)
        ensures
            final(self)@ == old(self)@.appended(item),
            final(heap)@ == noted(old(heap)@, item),
    {
        if let Value::Ref(_) = item {
            self.contains_refs = true;
            heap.mark_potential_cycle();
        }
        self.items.push(item);
    }

    /// Puts an item in at a position, or at the end if the position is behind it; the list
    /// takes over the reference.
    pub fn insert<T>(&mut self, heap: &mut Heap<T>, index: usize, item: Value)
        ensures
            final(self)@ == old(self)@.inserted(index as int, item),
            final(heap)@ == noted(old(heap)@, item),
    {
        if let Value::Ref(_) = item {
            self.contains_refs = true;
            heap.mark_potential_cycle();
        }
        if index >= self.items.len() {
            self.items.push(item);
        } else {
            self.items.insert(index, item);
        }
    }
}

/// What an operation that ends in a new list leads to.
pub struct Built<R, T> {
    pub heap: HeapView<T>,
    pub result: Result<R, ErrorView>,
}

/// What making a list of items leads to; the list takes over their references.
pub open spec fn built_list<T: ResourceTracker>(h: HeapView<T>, items: Seq<Value>) -> Built<
    Value,
    T,
> {
    let made = h.made(DataView::List(ListView::of(items)));
    Built {
        heap: made.heap,
        result: match made.result {
            Ok(v) => Ok(v),
            Err(e) => Err(ErrorView::resource(e)),
        },
    }
}

/// Makes a list of items, taking over their references.
pub fn allocate_list<T: ResourceTracker>(items: Vec<Value>, heap: &mut Heap<T>) -> (r: Result<
    Value,
    ResourceError,
>)
    ensures
        ({
            let said = old(heap)@.made(DataView::List(ListView::of(items@)));
            r == said.result && final(heap)@ == said.heap
        }),
{
    match heap.allocate(HeapData::List(List::new(items))) {
        Ok(id) => Ok(Value::Ref(id)),
        Err(e) => Err(e),
    }
}

fn build_list<T: ResourceTracker>(items: Vec<Value>, heap: &mut Heap<T>) -> (r: RunResult<Value>)
    ensures
        ({
            let said = built_list(old(heap)@, items@);
            outcome(r) == said.result && final(heap)@ == said.heap
        }),
{
    match allocate_list(items, heap) {
        Ok(v) => Ok(v),
        Err(e) => Err(RunError::resource(e)),
    }
}

/// What calling `list` leads to: an empty list, or one of the items of its only argument.
pub open spec fn list_called<T: ResourceTracker>(
    h: HeapView<T>,
    args: ArgsView,
    interns: Interns,
) -> Built<Value, T> {
    match positional_error(args, Callee::List, 0, 1) {
        Some(e) => Built { heap: h.release_args(args), result: Err(e) },
        None => if args.pos.len() == 0 {
            built_list(h, Seq::empty())
        } else {
            let got = collected(h, interns, args.pos[0]);
            match got.result {
                Err(e) => Built { heap: got.heap, result: Err(e) },
                Ok(items) => built_list(got.heap, items),
            }
        },
    }
}

/// What slicing a list leads to.
pub open spec fn list_sliced<T: ResourceTracker>(
    h: HeapView<T>,
    items: Seq<Value>,
    slice: Slice,
) -> Built<Value, T> {
    if slice.step_or_one() == 0 {
        Built {
            heap: h,
            result: Err(ErrorView::fault(ExcType::ValueError, Fault::SliceStepZero)),
        }
    } else {
        built_list(h.inc_values(slice.select(items)), slice.select(items))
    }
}

/// What subscripting a list leads to.
pub open spec fn list_item<T: ResourceTracker>(
    h: HeapView<T>,
    items: Seq<Value>,
    key: Value,
) -> Built<Value, T> {
    match key {
        Value::Ref(id) if h.data(id) is Some && h.data(id)->0 is Slice => list_sliced(
            h,
            items,
            h.data(id)->0->Slice_0,
        ),
        _ => match as_index(h, key) {
            Err(e) => Built { heap: h, result: Err(e) },
            Ok(index) => match position(index, items.len() as int) {
                None => Built {
                    heap: h,
                    result: Err(
                        ErrorView::fault(ExcType::IndexError, Fault::ListIndexOutOfRange),
                    ),
                },
                Some(p) => Built { heap: h.inc_value(items[p]), result: Ok(items[p]) },
            },
        },
    }
}

/// The index an assignment writes to, or why there is none.
///
/// An integer literal that is kept aside because of its size is no index here.
pub open spec fn assigned_index<T>(h: HeapView<T>, key: Value) -> Result<i64, ErrorView> {
    if key is InternLongInt {
        Err(ErrorView::fault(ExcType::TypeError, Fault::ListIndices(h.type_of(key))))
    } else {
        as_index(h, key)
    }
}

/// What an operation on a list leads to.
pub struct ListOp<R, T> {
    pub list: ListView,
    pub heap: HeapView<T>,
    pub result: Result<R, ErrorView>,
}

/// What assigning to a subscript of a list leads to; key and value are used up.
pub open spec fn list_assigned<T>(
    h: HeapView<T>,
    list: ListView,
    key: Value,
    value: Value,
) -> ListOp<(), T> {
    match assigned_index(h, key) {
        Err(e) => ListOp { list, heap: h.release(key).release(value), result: Err(e) },
        Ok(index) => match position(index, list.items.len() as int) {
            None => ListOp {
                list,
                heap: h.release(key).release(value),
                result: Err(
                    ErrorView::fault(ExcType::IndexError, Fault::ListAssignmentOutOfRange),
                ),
            },
            Some(p) => ListOp {
                list: list.replaced(p, value),
                heap: noted(h.release(key).release(list.items[p]), value),
                result: Ok(()),
            },
        },
    }
}

/// What adding two lists leads to: a new list of the items of both.
pub open spec fn lists_added<T: ResourceTracker>(
    h: HeapView<T>,
    items: Seq<Value>,
    others: Seq<Value>,
) -> Made<Value, T> {
    h.inc_values(items).inc_values(others).made(DataView::List(ListView::of(items + others)))
}

/// What extending a list by another value in place leads to; `None` is for a value that
/// is no list, which is left alone.
pub open spec fn list_iadded<T>(
    h: HeapView<T>,
    list: ListView,
    other: Value,
    self_id: Option<HeapId>,
) -> Option<(ListView, HeapView<T>)> {
    match other {
        Value::Ref(id) => {
            let added = if Some(id) == self_id {
                Some(list.items)
            } else {
                match h.data(id) {
                    Some(DataView::List(l)) => Some(l.items),
                    _ => None,
                }
            };
            match added {
                None => None,
                Some(items) => {
                    let counted = h.inc_values(items);
                    let marks = list.contains_refs || (Some(id) != self_id && has_refs(items));
                    Some(
                        (
                            ListView { items: list.items + items, contains_refs: marks },
                            (if marks {
                                counted.cycle_marked()
                            } else {
                                counted
                            }).release(other),
                        ),
                    )
                },
            }
        },
        _ => None,
    }
}

impl List {
    /// Makes a list, empty or of the items of the only argument.
    pub fn init<T: ResourceTracker>(heap: &mut Heap<T>, args: ArgValues, interns: &Interns) -> (r:
        RunResult<Value>)
        ensures
            ({
                let said = list_called(old(heap)@, args@, *interns);
                outcome(r) == said.result && final(heap)@ == said.heap
            }),
    {
        match args.get_zero_one_arg(Callee::List, heap) {
            Err(e) => Err(e),
            Ok(None) => build_list(Vec::new(), heap),
            Ok(Some(v)) => match collect(v, heap, interns) {
                Err(e) => Err(e),
                Ok(items) => build_list(items, heap),
            },
        }
    }

    fn getitem_slice<T: ResourceTracker>(&self, slice: &Slice, heap: &mut Heap<T>) -> (r: RunResult<
        Value,
    >)
        ensures
            ({
                let said = list_sliced(old(heap)@, self@.items, *slice);
                outcome(r) == said.result && final(heap)@ == said.heap
            }),
    {
        match slice.indices(self.items.len()) {
            Err(()) => Err(RunError::fault(ExcType::ValueError, Fault::SliceStepZero)),
            Ok((start, stop, step)) => {
                proof {
                    walk_selects(*slice, self@.items, start, stop, step);
                }
                let items: Vec<Value> = get_slice_items(
                    self.items.as_slice(),
                    start,
                    stop,
                    step,
                    heap,
                );
                build_list(items, heap)
            },
        }
    }

    /// The Python type of a list.
    pub fn py_type(&self) -> (r: Type)
        ensures
            r == Type::List,
    {
        Type::List
    }

    /// The number of bytes the list takes up.
    pub fn py_estimate_size(&self) -> (r: usize)
        requires
            size_of::<List>() + self@.items.len() * size_of::<Value>() <= usize::MAX,
        ensures
            r == size_of::<List>() + self@.items.len() * size_of::<Value>(),
    {
        let item: usize = std::mem::size_of::<Value>();
        let own: usize = std::mem::size_of::<List>();
        own + self.items.len() * item
    }

    /// The length, which every list has.
    pub fn py_len(&self) -> (r: Option<usize>)
        ensures
            r == Some(self@.items.len() as usize),
    {
        Some(self.items.len())
    }

    /// Whether the list counts as true.
    pub fn py_bool(&self) -> (r: bool)
        ensures
            r == (self@.items.len() != 0),
    {
        self.items.len() != 0
    }

    /// The item at an index, or a new list of the items of a slice.
    pub fn py_getitem<T: ResourceTracker>(&self, key: &Value, heap: &mut Heap<T>) -> (r: RunResult<
        Value,
    >)
        ensures
            ({
                let said = list_item(old(heap)@, self@.items, *key);
                outcome(r) == said.result && final(heap)@ == said.heap
            }),
    {
        if let Value::Ref(id) = *key {
            let slice: Option<Slice> = match heap.get(id) {
                Some(HeapData::Slice(s)) => Some(*s),
                _ => None,
            };
            if let Some(s) = slice {
                return self.getitem_slice(&s, heap);
            }
        }
        match key.as_index(heap) {
            Err(e) => Err(e),
            Ok(index) => match find_position(index, self.items.len()) {
                None => Err(RunError::fault(ExcType::IndexError, Fault::ListIndexOutOfRange)),
                Some(p) => Ok(self.items[p].clone_with_heap(heap)),
            },
        }
    }

    /// Replaces the item at an index, giving the old one up.
    pub fn py_setitem<T>(&mut self, key: Value, value: Value, heap: &mut Heap<T>) -> (r: RunResult<
        (),
    >)
        ensures
            ({
                let said = list_assigned(old(heap)@, old(self)@, key, value);
                &&& outcome(r) == said.result
                &&& final(heap)@ == said.heap
                &&& final(self)@ == said.list
            }),
    {
        let index: RunResult<i64> = match key {
            Value::InternLongInt(_) => Err(
                RunError::type_error(Fault::ListIndices(key.py_type(heap))),
            ),
            _ => key.as_index(heap),
        };
        key.drop_with_heap(heap);
        match index {
            Err(e) => {
                value.drop_with_heap(heap);
                Err(e)
            },
            Ok(i) => match find_position(i, self.items.len()) {
                None => {
                    value.drop_with_heap(heap);
                    Err(RunError::fault(ExcType::IndexError, Fault::ListAssignmentOutOfRange))
                },
                Some(p) => {
                    let old_value: Value = self.items[p];
                    self.items[p] = value;
                    old_value.drop_with_heap(heap);
                    if let Value::Ref(_) = value {
                        self.contains_refs = true;
                        heap.mark_potential_cycle();
                    }
                    Ok(())
                },
            },
        }
    }

    /// A new list of the items of both lists.
    pub fn py_add<T: ResourceTracker>(&self, other: &Self, heap: &mut Heap<T>) -> (r: Result<
        Option<Value>,
        ResourceError,
    >)
        ensures
            ({
                let said = lists_added(old(heap)@, self@.items, other@.items);
                &&& r == (match said.result {
                    Ok(v) => Ok(Some(v)),
                    Err(e) => Err(e),
                })
                &&& final(heap)@ == said.heap
            }),
    {
        let mut result: Vec<Value> = copy_values(self.items.as_slice());
        heap.inc_values(self.items.as_slice());
        let mut added: Vec<Value> = copy_values(other.items.as_slice());
        heap.inc_values(other.items.as_slice());
        result.append(&mut added);
        match allocate_list(result, heap) {
            Ok(v) => Ok(Some(v)),
            Err(e) => Err(e),
        }
    }

    /// Adds the items of another list at the end; false if the other value is no list.
    ///
    /// `self_id` is the object this list was taken out of, so that a list can be extended
    /// by itself.
    pub fn py_iadd<T>(&mut self, other: Value, heap: &mut Heap<T>, self_id: Option<HeapId>) -> (r:
        Result<bool, ResourceError>)
        ensures
            match list_iadded(old(heap)@, old(self)@, other, self_id) {
                None => r == Ok::<bool, ResourceError>(false) && final(self)@ == old(self)@
                    && final(heap)@ == old(heap)@,
                Some(said) => r == Ok::<bool, ResourceError>(true) && final(self)@ == said.0
                    && final(heap)@ == said.1,
            },
    {
        let other_id: HeapId = match other {
            Value::Ref(id) => id,
            _ => {
                return Ok(false);
            },
        };
        let same: bool = match self_id {
            Some(id) => id == other_id,
            None => false,
        };
        if same {
            let mut items: Vec<Value> = copy_values(self.items.as_slice());
            heap.inc_values(items.as_slice());
            if self.contains_refs {
                heap.mark_potential_cycle();
            }
            self.items.append(&mut items);
        } else {
            let found: Option<Vec<Value>> = match heap.get(other_id) {
                Some(HeapData::List(l)) => Some(copy_values(l.items.as_slice())),
                _ => None,
            };
            let mut items: Vec<Value> = match found {
                None => {
                    return Ok(false);
                },
                Some(items) => items,
            };
            heap.inc_values(items.as_slice());
            let fresh_refs: bool = any_ref(items.as_slice());
            self.items.append(&mut items);
            if self.contains_refs {
                heap.mark_potential_cycle();
            } else if fresh_refs {
                self.contains_refs = true;
                heap.mark_potential_cycle();
            }
        }
        other.drop_with_heap(heap);
        Ok(true)
    }
}

} // verus!
