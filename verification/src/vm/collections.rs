//! Building, extending and unpacking collections.

use vstd::prelude::*;
use crate::containers::{dict_set, noted, set_add, Dict, PySet, Slice};
use crate::equality::{as_string, chars_of, string};
use crate::error::{outcome, ErrorView, Fault, Message, MessageView, RunError, RunResult};
use crate::heap::{pair_values, pair_values_push, DataView, Heap, HeapData, HeapView};
use crate::ids::{HeapId, StringId};
use crate::interns::Interns;
use crate::iteration::{
    allocate_chars, allocate_tuple, produced, read_source, source_matches, Produced, Source,
};
use crate::list::{allocate_list, List, ListView};
use crate::list_methods::noted_all;
use crate::resource::{ResourceError, ResourceTracker};
use crate::small_values::SmallValues;
use crate::types::{ExcType, Type};
use crate::value::{any_ref, copy_values, Value};
use crate::vm::{fails, made_pushed, VmStep, VmView, VM};

verus! {

/// What filling a dict from keys and values leads to.
pub struct Filled<C, T> {
    pub content: C,
    pub heap: HeapView<T>,
    pub error: Option<ErrorView>,
}

/// What setting the first `n` of the given keys, each followed by its value, leads to.
///
/// It ends with the first key that cannot be set; a value that is replaced is not given up.
pub open spec fn dict_filled<T>(
    h: HeapView<T>,
    interns: Interns,
    items: Seq<Value>,
    n: int,
) -> Filled<Seq<(Value, Value)>, T>
    decreases n,
{
    if n <= 0 {
        Filled { content: Seq::empty(), heap: h, error: None }
    } else {
        let before = dict_filled(h, interns, items, n - 1);
        if before.error is Some {
            before
        } else {
            let set = dict_set(
                before.heap,
                interns,
                before.content,
                items[2 * (n - 1)],
                items[2 * (n - 1) + 1],
            );
            Filled {
                content: set.content,
                heap: set.heap,
                error: match set.result {
                    Ok(_) => None,
                    Err(e) => Some(e),
                },
            }
        }
    }
}

/// What adding the first `n` of the given items to an empty set leads to; it ends with the
/// first one that cannot be added.
pub open spec fn set_filled<T>(
    h: HeapView<T>,
    interns: Interns,
    items: Seq<Value>,
    n: int,
) -> Filled<Seq<Value>, T>
    decreases n,
{
    if n <= 0 {
        Filled { content: Seq::empty(), heap: h, error: None }
    } else {
        let before = set_filled(h, interns, items, n - 1);
        if before.error is Some {
            before
        } else {
            let added = set_add(before.heap, interns, before.content, items[n - 1]);
            Filled {
                content: added.content,
                heap: added.heap,
                error: match added.result {
                    Ok(_) => None,
                    Err(e) => Some(e),
                },
            }
        }
    }
}

/// A bound of a slice, or why a value cannot be one.
pub open spec fn slice_bound(v: Value) -> Result<Option<i64>, ErrorView> {
    match v {
        Value::PyNone => Ok(None),
        Value::Int(i) => Ok(Some(i)),
        Value::Bool(b) => Ok(
            Some(
                if b {
                    1
                } else {
                    0
                },
            ),
        ),
        _ => Err(ErrorView::fault(ExcType::TypeError, Fault::SliceIndices)),
    }
}

/// A bound of a slice.
pub fn value_to_option_i64(v: &Value) -> (r: RunResult<Option<i64>>)
    ensures
        outcome(r) == slice_bound(*v),
{
    match *v {
        Value::PyNone => Ok(None),
        Value::Int(i) => Ok(Some(i)),
        Value::Bool(b) => Ok(
            Some(
                if b {
                    1
                } else {
                    0
                },
            ),
        ),
        _ => Err(RunError::type_error(Fault::SliceIndices)),
    }
}

impl<T: ResourceTracker> VmView<T> {
    /// The top `n` values of the stack, in the order in which they were pushed.
    pub open spec fn top_n(self, n: int) -> Seq<Value> {
        self.stack.skip(self.stack.len() - n)
    }

    /// `[a, b, ..]`.
    pub open spec fn list_built(self, count: int) -> VmStep<(), T> {
        made_pushed(
            self.popped(count),
            self.heap.made(DataView::List(ListView::of(self.top_n(count)))),
        )
    }

    /// `(a, b, ..)`.
    pub open spec fn tuple_built(self, count: int) -> VmStep<(), T> {
        made_pushed(self.popped(count), self.heap.made_tuple(self.top_n(count)))
    }

    /// `{k: v, ..}`.
    pub open spec fn dict_built(self, count: int) -> VmStep<(), T> {
        let vm = self.popped(2 * count);
        let filled = dict_filled(self.heap, self.interns, self.top_n(2 * count), count);
        match filled.error {
            Some(e) => fails(vm.with_heap(filled.heap), e),
            None => made_pushed(vm, filled.heap.made(DataView::Dict(filled.content))),
        }
    }

    /// `{a, b, ..}`.
    pub open spec fn set_built(self, count: int) -> VmStep<(), T> {
        let vm = self.popped(count);
        let filled = set_filled(self.heap, self.interns, self.top_n(count), count);
        match filled.error {
            Some(e) => fails(vm.with_heap(filled.heap), e),
            None => made_pushed(vm, filled.heap.made(DataView::PySet(filled.content))),
        }
    }

    /// `a:b:c` inside a subscript; the bounds are checked from left to right.
    pub open spec fn slice_built(self) -> VmStep<(), T> {
        let start = self.top(2);
        let stop = self.top(1);
        let step = self.top(0);
        let vm = self.popped(3).release(start).release(stop).release(step);
        match slice_bound(start) {
            Err(e) => fails(vm, e),
            Ok(a) => match slice_bound(stop) {
                Err(e) => fails(vm, e),
                Ok(b) => match slice_bound(step) {
                    Err(e) => fails(vm, e),
                    Ok(c) => made_pushed(
                        vm,
                        vm.heap.made(
                            DataView::Slice(Slice { start: a, stop: b, step: c }),
                        ),
                    ),
                },
            },
        }
    }
}

proof fn dict_fill_ends<T>(h: HeapView<T>, interns: Interns, items: Seq<Value>, k: int, n: int)
    requires
        0 <= k <= n,
        dict_filled(h, interns, items, k).error is Some,
    ensures
        dict_filled(h, interns, items, n) == dict_filled(h, interns, items, k),
    decreases n - k,
{
    if k < n {
        dict_fill_ends(h, interns, items, k, n - 1);
    }
}

proof fn set_fill_ends<T>(h: HeapView<T>, interns: Interns, items: Seq<Value>, k: int, n: int)
    requires
        0 <= k <= n,
        set_filled(h, interns, items, k).error is Some,
    ensures
        set_filled(h, interns, items, n) == set_filled(h, interns, items, k),
    decreases n - k,
{
    if k < n {
        set_fill_ends(h, interns, items, k, n - 1);
    }
}

impl<'a, T: ResourceTracker> VM<'a, T> {
    /// Pushes what was made, or reports that it could not be.
    fn push_made(&mut self, made: Result<Value, ResourceError>) -> (r: RunResult<()>)
        ensures
            made matches Ok(v) ==> r is Ok && final(self)@ == old(self)@.pushed(v),
            made matches Err(e) ==> (r matches Err(f) && f@ == ErrorView::resource(e)) && final(
                self)@ == old(self)@,
    {
        match made {
            Ok(v) => {
                self.push(v);
                Ok(())
            },
            Err(e) => Err(RunError::resource(e)),
        }
    }

    fn push_allocated(&mut self, data: HeapData) -> (r: RunResult<()>)
        ensures
            made_pushed(old(self)@, old(self)@.heap.made(data@)).matches(r, final(self)@),
    {
        match self.heap.allocate(data) {
            Ok(id) => self.push_made(Ok(Value::Ref(id))),
            Err(e) => self.push_made(Err(e)),
        }
    }

    /// Builds a list of the top `count` values.
    pub fn build_list(&mut self, count: usize) -> (r: RunResult<()>)
        requires
            old(self)@.stack.len() >= count,
        ensures
            old(self)@.list_built(count as int).matches(r, final(self)@),
    {
        let items: Vec<Value> = self.pop_n(count);
        self.push_allocated(HeapData::List(List::new(items)))
    }

    /// Builds a tuple of the top `count` values.
    ///
    /// There is only one empty tuple.
    pub fn build_tuple(&mut self, count: usize) -> (r: RunResult<()>)
        requires
            old(self)@.stack.len() >= count,
        ensures
            old(self)@.tuple_built(count as int).matches(r, final(self)@),
    {
        let items: Vec<Value> = self.pop_n(count);
        let made: Result<Value, ResourceError> = allocate_tuple(
            SmallValues::from_vec(items),
            &mut self.heap,
        );
        self.push_made(made)
    }

    /// Builds a dict of the top `count` keys and values.
    pub fn build_dict(&mut self, count: usize) -> (r: RunResult<()>)
        requires
            old(self)@.stack.len() >= 2 * count,
        ensures
            old(self)@.dict_built(count as int).matches(r, final(self)@),
    {
        assert(self.stack.len() >= 2 * count);
        let items: Vec<Value> = self.pop_n(count * 2);
        let mut dict: Dict = Dict::new();
        let ghost start = self.heap@;
        let mut i: usize = 0;
        while i < count
            invariant
                0 <= i <= count,
                items@.len() == 2 * count,
                items@ == old(self)@.top_n(2 * count),
                start == old(self)@.heap,
                self@ == old(self)@.popped(2 * count).with_heap(self.heap@),
                ({
                    let said = dict_filled(start, self@.interns, items@, i as int);
                    &&& said.error is None
                    &&& dict.entries@ == said.content
                    &&& self.heap@ == said.heap
                }),
            decreases count - i,
        {
            let key: Value = items[2 * i];
            let value: Value = items[2 * i + 1];
            match dict.set(key, value, &mut self.heap, self.interns) {
                Err(e) => {
                    proof {
                        dict_fill_ends(start, self@.interns, items@, i + 1, count as int);
                    }
                    return Err(e);
                },
                Ok(_) => {},
            }
            i = i + 1;
        }
        self.push_allocated(HeapData::Dict(dict))
    }

    /// Builds a set of the top `count` values.
    pub fn build_set(&mut self, count: usize) -> (r: RunResult<()>)
        requires
            old(self)@.stack.len() >= count,
        ensures
            old(self)@.set_built(count as int).matches(r, final(self)@),
    {
        let items: Vec<Value> = self.pop_n(count);
        let mut set: PySet = PySet::new();
        let ghost start = self.heap@;
        let mut i: usize = 0;
        while i < count
            invariant
                0 <= i <= count,
                items@.len() == count,
                items@ == old(self)@.top_n(count as int),
                start == old(self)@.heap,
                self@ == old(self)@.popped(count as int).with_heap(self.heap@),
                ({
                    let said = set_filled(start, self@.interns, items@, i as int);
                    &&& said.error is None
                    &&& set.items@ == said.content
                    &&& self.heap@ == said.heap
                }),
            decreases count - i,
        {
            match set.add(items[i], &mut self.heap, self.interns) {
                Err(e) => {
                    proof {
                        set_fill_ends(start, self@.interns, items@, i + 1, count as int);
                    }
                    return Err(e);
                },
                Ok(_) => {},
            }
            i = i + 1;
        }
        self.push_allocated(HeapData::PySet(set))
    }

    /// Builds a slice of the top three values: start, stop and step.
    pub fn build_slice(&mut self) -> (r: RunResult<()>)
        requires
            old(self)@.stack.len() >= 3,
        ensures
            old(self)@.slice_built().matches(r, final(self)@),
    {
        let step_val: Value = self.pop();
        let stop_val: Value = self.pop();
        let start_val: Value = self.pop();
        assert(self@.stack =~= old(self)@.popped(3).stack);
        let start: RunResult<Option<i64>> = value_to_option_i64(&start_val);
        let stop: RunResult<Option<i64>> = value_to_option_i64(&stop_val);
        let step: RunResult<Option<i64>> = value_to_option_i64(&step_val);
        start_val.drop_with_heap(&mut self.heap);
        stop_val.drop_with_heap(&mut self.heap);
        step_val.drop_with_heap(&mut self.heap);
        match (start, stop, step) {
            (Err(e), _, _) => Err(e),
            (_, Err(e), _) => Err(e),
            (_, _, Err(e)) => Err(e),
            (Ok(a), Ok(b), Ok(c)) => self.push_allocated(HeapData::Slice(Slice::new(a, b, c))),
        }
    }
}

/// What the items of a value are when it is unpacked.
pub open spec fn unpack_source<T>(h: HeapView<T>, interns: Interns, v: Value) -> Option<Produced> {
    match v {
        Value::InternString(id) => Some(Produced::Chars(interns.text(id))),
        Value::Ref(id) => match h.data(id) {
            Some(DataView::List(l)) => Some(Produced::Values(l.items)),
            Some(DataView::Tuple(t)) => Some(Produced::Values(t)),
            Some(DataView::Str(s)) => Some(Produced::Chars(s)),
            _ => None,
        },
        _ => None,
    }
}

fn read_unpack_source<T>(v: Value, heap: &Heap<T>, interns: &Interns) -> (r: Option<Source>)
    ensures
        source_matches(r, unpack_source(heap@, *interns, v)),
{
    match v {
        Value::InternString(id) => Some(Source::Chars(chars_of(interns.get_str(id)))),
        Value::Ref(id) => match heap.get(id) {
            Some(HeapData::List(l)) => Some(Source::Values(copy_values(l.items.as_slice()))),
            Some(HeapData::Tuple(t)) => Some(Source::Values(copy_values(t.items.as_slice()))),
            Some(HeapData::Str(s)) => Some(Source::Chars(chars_of(s.as_str()))),
            _ => None,
        },
        _ => None,
    }
}

/// The error for a number of items that does not fit the targets.
pub open spec fn size_mismatch(expected: usize, got: usize) -> ErrorView {
    ErrorView::fault(
        ExcType::ValueError,
        if got < expected {
            Fault::UnpackTooFew { expected, got }
        } else {
            Fault::UnpackTooMany { expected, got }
        },
    )
}

/// The values an unpacking with a starred target leaves: the first ones, the list of the
/// middle ones, the last ones.
pub open spec fn starred(items: Seq<Value>, before: int, after: int, list: Value) -> Seq<Value> {
    items.take(before).push(list) + items.skip(items.len() - after)
}

impl<T: ResourceTracker> VmView<T> {
    /// The machine with values on the stack, the first one on top.
    pub open spec fn pushed_reversed(self, items: Seq<Value>) -> VmView<T> {
        self.with_stack(self.stack + items.reverse())
    }

    /// The end of an extension: items are counted and added to the list, if it is one.
    pub open spec fn extension_ended(self, iterable: Value, list: Value, items: Seq<Value>) -> VmStep<
        (),
        T,
    > {
        let counted = self.heap.inc_values(items);
        let extended = match list {
            Value::Ref(id) => match counted.data(id) {
                Some(DataView::List(l)) => counted.set_data(
                    id,
                    Some(DataView::List(l.extended(items))),
                ),
                _ => counted,
            },
            _ => counted,
        };
        VmStep {
            vm: self.with_heap(noted_all(extended, items)).release(iterable).pushed(list),
            result: Ok(()),
        }
    }

    /// Extends the list below the top by the iterable on top.
    pub open spec fn list_extended(self) -> VmStep<(), T> {
        let iterable = self.top(0);
        let list = self.top(1);
        let vm = self.popped(2);
        match produced(self.heap, self.interns, iterable) {
            None => fails(
                vm.release(iterable).release(list),
                ErrorView::fault(
                    ExcType::TypeError,
                    Fault::NotIterable(self.heap.type_of(iterable)),
                ),
            ),
            Some(Produced::Values(items)) => vm.extension_ended(iterable, list, items),
            Some(Produced::Chars(chars)) => {
                let made = self.heap.made_chars(chars, chars.len() as int);
                match made.result {
                    Err(e) => fails(vm.with_heap(made.heap), ErrorView::resource(e)),
                    Ok(items) => vm.with_heap(made.heap).extension_ended(iterable, list, items),
                }
            },
        }
    }

    /// Replaces the list on top by a tuple of its items.
    pub open spec fn list_tupled(self) -> VmStep<(), T> {
        let vm = self.popped(1);
        match self.top(0) {
            Value::Ref(id) => match self.heap.data(id) {
                Some(DataView::List(l)) => {
                    let dropped = vm.with_heap(self.heap.inc_values(l.items)).release(self.top(0));
                    made_pushed(dropped, dropped.heap.made_tuple(l.items))
                },
                _ => fails(vm, ErrorView::Internal(Fault::ListToTupleExpectedList)),
            },
            _ => fails(vm, ErrorView::Internal(Fault::ListToTupleExpectedRef)),
        }
    }

    /// Unpacks the value on top into exactly `count` values, the first one on top.
    pub open spec fn unpacked(self, count: usize) -> VmStep<(), T> {
        let v = self.top(0);
        let vm = self.popped(1);
        match unpack_source(self.heap, self.interns, v) {
            None => fails(
                vm.release(v),
                ErrorView::fault(
                    ExcType::TypeError,
                    Fault::UnpackNonIterable(self.heap.type_of(v)),
                ),
            ),
            Some(Produced::Values(items)) => if items.len() != count {
                fails(vm.release(v), size_mismatch(count, items.len() as usize))
            } else {
                VmStep {
                    vm: vm.with_heap(self.heap.inc_values(items)).release(v).pushed_reversed(
                        items,
                    ),
                    result: Ok(()),
                }
            },
            Some(Produced::Chars(chars)) => if chars.len() != count {
                fails(vm.release(v), size_mismatch(count, chars.len() as usize))
            } else {
                let made = self.heap.release(v).made_chars(chars, chars.len() as int);
                match made.result {
                    Err(e) => fails(vm.with_heap(made.heap), ErrorView::resource(e)),
                    Ok(items) => VmStep {
                        vm: vm.with_heap(made.heap).pushed_reversed(items),
                        result: Ok(()),
                    },
                }
            },
        }
    }

    /// The end of an unpacking with a starred target.
    pub open spec fn starred_pushed(self, items: Seq<Value>, before: int, after: int) -> VmStep<
        (),
        T,
    > {
        let middle = items.subrange(before, items.len() - after);
        let made = self.heap.made(DataView::List(ListView::of(middle)));
        match made.result {
            Err(e) => fails(self.with_heap(made.heap), ErrorView::resource(e)),
            Ok(list) => VmStep {
                vm: self.with_heap(made.heap).pushed_reversed(
                    starred(items, before, after, list),
                ),
                result: Ok(()),
            },
        }
    }

    /// Unpacks the value on top with `before` targets, a starred one, and `after` more.
    pub open spec fn unpacked_starred(self, before: usize, after: usize) -> VmStep<(), T> {
        let v = self.top(0);
        let vm = self.popped(1);
        let least = (before + after) as usize;
        match unpack_source(self.heap, self.interns, v) {
            None => fails(
                vm.release(v),
                ErrorView::fault(
                    ExcType::TypeError,
                    Fault::UnpackNonIterable(self.heap.type_of(v)),
                ),
            ),
            Some(Produced::Values(items)) => if items.len() < least {
                fails(
                    vm.release(v),
                    ErrorView::fault(
                        ExcType::ValueError,
                        Fault::UnpackAtLeast { expected: least, got: items.len() as usize },
                    ),
                )
            } else {
                vm.with_heap(self.heap.inc_values(items)).release(v).starred_pushed(
                    items,
                    before as int,
                    after as int,
                )
            },
            Some(Produced::Chars(chars)) => if chars.len() < least {
                fails(
                    vm.release(v),
                    ErrorView::fault(
                        ExcType::ValueError,
                        Fault::UnpackAtLeast { expected: least, got: chars.len() as usize },
                    ),
                )
            } else {
                let made = self.heap.release(v).made_chars(chars, chars.len() as int);
                match made.result {
                    Err(e) => fails(vm.with_heap(made.heap), ErrorView::resource(e)),
                    Ok(items) => vm.with_heap(made.heap).starred_pushed(
                        items,
                        before as int,
                        after as int,
                    ),
                }
            },
        }
    }
}

impl<'a, T: ResourceTracker> VM<'a, T> {
    fn push_reversed(&mut self, items: &Vec<Value>)
        ensures
            final(self)@ == old(self)@.pushed_reversed(items@),
    {
        let ghost base = self.stack@;
        let mut i: usize = items.len();
        assert(self.stack@ =~= base + items@.reverse().take(0));
        while i > 0
            invariant
                0 <= i <= items@.len(),
                self.stack@ == base + items@.reverse().take(items@.len() - i),
                self@ == old(self)@.with_stack(self.stack@),
            decreases i,
        {
            i = i - 1;
            self.push(items[i]);
            assert(self.stack@ =~= base + items@.reverse().take(items@.len() - i));
        }
        assert(items@.reverse().take(items@.len() as int) =~= items@.reverse());
    }

    fn end_extension(&mut self, iterable: Value, list: Value, items: Vec<Value>) -> (r: RunResult<()>)
        ensures
            old(self)@.extension_ended(iterable, list, items@).matches(r, final(self)@),
    {
        let ghost all = items@;
        self.heap.inc_values(items.as_slice());
        let with_refs: bool = any_ref(items.as_slice());
        let ghost counted = self.heap@;
        let ghost extended = match list {
            Value::Ref(id) => match counted.data(id) {
                Some(DataView::List(l)) => counted.set_data(
                    id,
                    Some(DataView::List(l.extended(all))),
                ),
                _ => counted,
            },
            _ => counted,
        };
        if let Value::Ref(id) = list {
            match self.heap.take_data(id) {
                Some(HeapData::List(l)) => {
                    let mut l: List = l;
                    let ghost before = l@;
                    let mut added: Vec<Value> = items;
                    if with_refs {
                        l.set_contains_refs();
                    }
                    l.items.append(&mut added);
                    assert(l@ =~= before.extended(all));
                    self.heap.put_data(id, HeapData::List(l));
                },
                Some(d) => {
                    self.heap.put_data(id, d);
                },
                None => {},
            }
            assert(self.heap@.entries =~= extended.entries);
        }
        if with_refs {
            self.heap.mark_potential_cycle();
        }
        iterable.drop_with_heap(&mut self.heap);
        self.push(list);
        Ok(())
    }

    /// Extends the list below the top by the iterable on top, which is used up.
    pub fn list_extend(&mut self) -> (r: RunResult<()>)
        requires
            old(self)@.stack.len() >= 2,
        ensures
            old(self)@.list_extended().matches(r, final(self)@),
    {
        let iterable: Value = self.pop();
        let list: Value = self.pop();
        assert(self@.stack =~= old(self)@.popped(2).stack);
        match read_source(iterable, &self.heap, self.interns) {
            None => {
                let t: Type = iterable.py_type(&self.heap);
                iterable.drop_with_heap(&mut self.heap);
                list.drop_with_heap(&mut self.heap);
                Err(RunError::type_error(Fault::NotIterable(t)))
            },
            Some(Source::Values(items)) => self.end_extension(iterable, list, items),
            Some(Source::Chars(chars)) => match allocate_chars(&chars, &mut self.heap) {
                Err(e) => Err(RunError::resource(e)),
                Ok(items) => self.end_extension(iterable, list, items),
            },
        }
    }

    /// Replaces the list on top by a tuple of its items.
    pub fn list_to_tuple(&mut self) -> (r: RunResult<()>)
        requires
            old(self)@.stack.len() >= 1,
        ensures
            old(self)@.list_tupled().matches(r, final(self)@),
    {
        let list: Value = self.pop();
        let id: HeapId = match list {
            Value::Ref(id) => id,
            _ => {
                return Err(RunError::internal(Fault::ListToTupleExpectedRef));
            },
        };
        let items: SmallValues = match self.heap.get(id) {
            Some(HeapData::List(l)) => SmallValues::from_vec(copy_values(l.items.as_slice())),
            _ => {
                return Err(RunError::internal(Fault::ListToTupleExpectedList));
            },
        };
        self.heap.inc_values(items.as_slice());
        list.drop_with_heap(&mut self.heap);
        let made: Result<Value, ResourceError> = allocate_tuple(items, &mut self.heap);
        self.push_made(made)
    }

    /// Unpacks the value on top into exactly `count` values, the first one on top.
    pub fn unpack_sequence(&mut self, count: usize) -> (r: RunResult<()>)
        requires
            old(self)@.stack.len() >= 1,
        ensures
            old(self)@.unpacked(count).matches(r, final(self)@),
    {
        let value: Value = self.pop();
        match read_unpack_source(value, &self.heap, self.interns) {
            None => {
                let t: Type = value.py_type(&self.heap);
                value.drop_with_heap(&mut self.heap);
                Err(unpack_type_error(t))
            },
            Some(Source::Values(items)) => {
                if items.len() != count {
                    value.drop_with_heap(&mut self.heap);
                    return Err(unpack_size_error(count, items.len()));
                }
                self.heap.inc_values(items.as_slice());
                value.drop_with_heap(&mut self.heap);
                self.push_reversed(&items);
                Ok(())
            },
            Some(Source::Chars(chars)) => {
                let got: usize = chars.len();
                value.drop_with_heap(&mut self.heap);
                if got != count {
                    return Err(unpack_size_error(count, got));
                }
                match allocate_chars(&chars, &mut self.heap) {
                    Err(e) => Err(RunError::resource(e)),
                    Ok(items) => {
                        self.push_reversed(&items);
                        Ok(())
                    },
                }
            },
        }
    }

    /// Unpacks the value on top with `before` targets, a starred one, and `after` more; the
    /// first target is on top then.
    pub fn unpack_ex(&mut self, before: usize, after: usize) -> (r: RunResult<()>)
        requires
            old(self)@.stack.len() >= 1,
            before + after <= usize::MAX,
        ensures
            old(self)@.unpacked_starred(before, after).matches(r, final(self)@),
    {
        let value: Value = self.pop();
        let least: usize = before + after;
        match read_unpack_source(value, &self.heap, self.interns) {
            None => {
                let t: Type = value.py_type(&self.heap);
                value.drop_with_heap(&mut self.heap);
                Err(unpack_type_error(t))
            },
            Some(Source::Values(items)) => {
                if items.len() < least {
                    value.drop_with_heap(&mut self.heap);
                    return Err(unpack_ex_too_few_error(least, items.len()));
                }
                self.heap.inc_values(items.as_slice());
                value.drop_with_heap(&mut self.heap);
                self.push_unpack_ex_results(&items, before, after)
            },
            Some(Source::Chars(chars)) => {
                let got: usize = chars.len();
                value.drop_with_heap(&mut self.heap);
                if got < least {
                    return Err(unpack_ex_too_few_error(least, got));
                }
                match allocate_chars(&chars, &mut self.heap) {
                    Err(e) => Err(RunError::resource(e)),
                    Ok(items) => {
                        proof {
                            made_chars_len(
                                old(self)@.heap.release(value),
                                chars@,
                                chars@.len() as int,
                            );
                        }
                        self.push_unpack_ex_results(&items, before, after)
                    },
                }
            },
        }
    }

    fn push_unpack_ex_results(&mut self, items: &Vec<Value>, before: usize, after: usize) -> (r:
        RunResult<()>)
        requires
            before + after <= items@.len(),
        ensures
            old(self)@.starred_pushed(items@, before as int, after as int).matches(
                r,
                final(self)@,
            ),
    {
        let total: usize = items.len();
        let first: &[Value] = vstd::slice::slice_subrange(items.as_slice(), 0, before);
        let middle: &[Value] = vstd::slice::slice_subrange(items.as_slice(), before, total - after);
        let last: &[Value] = vstd::slice::slice_subrange(items.as_slice(), total - after, total);
        let mut results: Vec<Value> = copy_values(first);
        match allocate_list(copy_values(middle), &mut self.heap) {
            Err(e) => Err(RunError::resource(e)),
            Ok(list) => {
                results.push(list);
                let mut rest: Vec<Value> = copy_values(last);
                results.append(&mut rest);
                assert(results@ =~= starred(items@, before as int, after as int, list));
                self.push_reversed(&results);
                Ok(())
            },
        }
    }
}

proof fn made_chars_len<T: ResourceTracker>(h: HeapView<T>, chars: Seq<char>, n: int)
    requires
        0 <= n <= chars.len(),
    ensures
        h.made_chars(chars, n).result matches Ok(items) ==> items.len() == n,
    decreases n,
{
    if n > 0 {
        made_chars_len(h, chars, n - 1);
    }
}

fn unpack_size_error(expected: usize, got: usize) -> (r: RunError)
    ensures
        r@ == size_mismatch(expected, got),
{
    RunError::fault(
        ExcType::ValueError,
        if got < expected {
            Fault::UnpackTooFew { expected, got }
        } else {
            Fault::UnpackTooMany { expected, got }
        },
    )
}

fn unpack_type_error(t: Type) -> (r: RunError)
    ensures
        r@ == ErrorView::fault(ExcType::TypeError, Fault::UnpackNonIterable(t)),
{
    RunError::type_error(Fault::UnpackNonIterable(t))
}

fn unpack_ex_too_few_error(expected: usize, got: usize) -> (r: RunError)
    ensures
        r@ == ErrorView::fault(ExcType::ValueError, Fault::UnpackAtLeast { expected, got }),
{
    RunError::fault(ExcType::ValueError, Fault::UnpackAtLeast { expected, got })
}

/// The targets of an unpacking get all the items back, in order: joined again, the first
/// ones, the middle ones and the last ones are the items.
pub proof fn starred_parts_join(items: Seq<Value>, before: int, after: int)
    requires
        0 <= before,
        0 <= after,
        before + after <= items.len(),
    ensures
        items.take(before) + items.subrange(before, items.len() - after) + items.skip(
            items.len() - after,
        ) == items,
{
    assert(items.take(before) + items.subrange(before, items.len() - after) + items.skip(
        items.len() - after,
    ) =~= items);
}

/// After an unpacking, the values come off the stack in the order of the items.
pub proof fn unpacked_order<T: ResourceTracker>(vm: VmView<T>, items: Seq<Value>, k: int)
    requires
        0 <= k < items.len(),
    ensures
        vm.pushed_reversed(items).top(k) == items[k],
{
}

/// How far merging keyword arguments has come.
pub struct Merging<T> {
    pub heap: HeapView<T>,
    pub error: Option<ErrorView>,
}

/// What merging the first `n` entries into the dict `dict_ref` leads to.
///
/// Keys have to be strings that are not set yet. If one is not, the entry, the mapping and
/// the dict are given up. If an entry cannot be set at all, nothing more is given up.
pub open spec fn merged<T>(
    h: HeapView<T>,
    interns: Interns,
    func: Option<StringId>,
    mapping: Value,
    dict_id: HeapId,
    pairs: Seq<(Value, Value)>,
    n: int,
) -> Merging<T>
    decreases n,
{
    if n <= 0 {
        Merging { heap: h, error: None }
    } else {
        let before = merged(h, interns, func, mapping, dict_id, pairs, n - 1);
        let (key, value) = pairs[n - 1];
        if before.error is Some {
            before
        } else {
            match string(before.heap, interns, key) {
                None => Merging {
                    heap: before.heap.release(key).release(value).release(mapping).release(
                        Value::Ref(dict_id),
                    ),
                    error: Some(ErrorView::fault(ExcType::TypeError, Fault::KwargsNonStringKey)),
                },
                Some(text) => match before.heap.data(dict_id) {
                    Some(DataView::Dict(entries)) => {
                        let set = dict_set(
                            before.heap.set_data(dict_id, None),
                            interns,
                            entries,
                            key,
                            value,
                        );
                        let heap = set.heap.set_data(dict_id, Some(DataView::Dict(set.content)));
                        match set.result {
                            Err(e) => Merging { heap, error: Some(e) },
                            Ok(None) => Merging { heap, error: None },
                            Ok(Some(replaced)) => Merging {
                                heap: heap.release(replaced).release(mapping).release(
                                    Value::Ref(dict_id),
                                ),
                                error: Some(
                                    ErrorView::raised(
                                        ExcType::TypeError,
                                        MessageView::MultipleValues(func, text),
                                    ),
                                ),
                            },
                        }
                    },
                    _ => Merging {
                        heap: before.heap,
                        error: Some(ErrorView::Internal(Fault::DictMergeExpectedDict)),
                    },
                },
            }
        }
    }
}

/// Merging ends with the first entry that is refused.
pub proof fn merge_ends<T>(
    h: HeapView<T>,
    interns: Interns,
    func: Option<StringId>,
    mapping: Value,
    dict_id: HeapId,
    pairs: Seq<(Value, Value)>,
    k: int,
    n: int,
)
    requires
        0 <= k <= n,
        merged(h, interns, func, mapping, dict_id, pairs, k).error is Some,
    ensures
        merged(h, interns, func, mapping, dict_id, pairs, n) == merged(
            h,
            interns,
            func,
            mapping,
            dict_id,
            pairs,
            k,
        ),
    decreases n - k,
{
    if k < n {
        merge_ends(h, interns, func, mapping, dict_id, pairs, k, n - 1);
    }
}

/// The function whose name an instruction carries, if it is known.
pub open spec fn named_function(func_name_id: u16) -> Option<StringId> {
    if func_name_id == 0xFFFF {
        None
    } else {
        Some(StringId(func_name_id as usize))
    }
}

impl<T: ResourceTracker> VmView<T> {
    /// Merges the mapping on top into the dict below it, as keyword arguments.
    pub open spec fn dict_merged(self, func_name_id: u16) -> VmStep<(), T> {
        let func = named_function(func_name_id);
        let mapping = self.top(0);
        let dict_ref = self.top(1);
        let vm = self.popped(2);
        match (mapping, self.heap.data_of(mapping)) {
            (Value::Ref(_), Some(DataView::Dict(pairs))) => {
                let counted = self.heap.inc_values(pair_values(pairs));
                match dict_ref {
                    Value::Ref(dict_id) => {
                        let done = merged(
                            counted,
                            self.interns,
                            func,
                            mapping,
                            dict_id,
                            pairs,
                            pairs.len() as int,
                        );
                        match done.error {
                            Some(e) => fails(vm.with_heap(done.heap), e),
                            None => VmStep {
                                vm: vm.with_heap(done.heap).release(mapping).pushed(dict_ref),
                                result: Ok(()),
                            },
                        }
                    },
                    _ => fails(
                        vm.with_heap(counted).release(mapping).release(dict_ref),
                        ErrorView::Internal(Fault::DictMergeExpectedRef),
                    ),
                }
            },
            _ => fails(
                vm.release(mapping).release(dict_ref),
                ErrorView::fault(
                    ExcType::TypeError,
                    Fault::KwargsNotMapping(func, self.heap.type_of(mapping)),
                ),
            ),
        }
    }

    /// Appends the value on top to the list `depth + 1` places below it.
    pub open spec fn item_appended(self, depth: int) -> VmStep<(), T> {
        let value = self.top(0);
        let vm = self.popped(1);
        match self.top(depth + 1) {
            Value::Ref(id) => match self.heap.data(id) {
                Some(DataView::List(l)) => VmStep {
                    vm: vm.with_heap(
                        noted(self.heap.set_data(id, None), value).set_data(
                            id,
                            Some(DataView::List(l.appended(value))),
                        ),
                    ),
                    result: Ok(()),
                },
                other => fails(
                    vm.with_heap(
                        self.heap.set_data(id, None).release(value).put_back(id, other),
                    ),
                    ErrorView::Internal(Fault::ListAppendExpectedList),
                ),
            },
            _ => fails(vm.release(value), ErrorView::Internal(Fault::ListAppendExpectedRef)),
        }
    }

    /// Adds the value on top to the set `depth + 1` places below it.
    pub open spec fn item_added(self, depth: int) -> VmStep<(), T> {
        let value = self.top(0);
        let vm = self.popped(1);
        match self.top(depth + 1) {
            Value::Ref(id) => match self.heap.data(id) {
                Some(DataView::PySet(items)) => {
                    let added = set_add(self.heap.set_data(id, None), self.interns, items, value);
                    VmStep {
                        vm: vm.with_heap(
                            added.heap.set_data(id, Some(DataView::PySet(added.content))),
                        ),
                        result: match added.result {
                            Ok(_) => Ok(()),
                            Err(e) => Err(e),
                        },
                    }
                },
                other => fails(
                    vm.with_heap(
                        self.heap.set_data(id, None).release(value).put_back(id, other),
                    ),
                    ErrorView::Internal(Fault::SetAddExpectedSet),
                ),
            },
            _ => fails(vm.release(value), ErrorView::Internal(Fault::SetAddExpectedRef)),
        }
    }

    /// Sets the key below the top to the value on top in the dict `depth + 2` places below
    /// the value.
    pub open spec fn item_set(self, depth: int) -> VmStep<(), T> {
        let value = self.top(0);
        let key = self.top(1);
        let vm = self.popped(2);
        match self.top(depth + 2) {
            Value::Ref(id) => match self.heap.data(id) {
                Some(DataView::Dict(entries)) => {
                    let set = dict_set(
                        self.heap.set_data(id, None),
                        self.interns,
                        entries,
                        key,
                        value,
                    );
                    let heap = set.heap.set_data(id, Some(DataView::Dict(set.content)));
                    VmStep {
                        vm: vm.with_heap(
                            match set.result {
                                Ok(Some(replaced)) => heap.release(replaced),
                                _ => heap,
                            },
                        ),
                        result: match set.result {
                            Ok(_) => Ok(()),
                            Err(e) => Err(e),
                        },
                    }
                },
                other => fails(
                    vm.with_heap(
                        self.heap.set_data(id, None).release(key).release(value).put_back(
                            id,
                            other,
                        ),
                    ),
                    ErrorView::Internal(Fault::DictSetItemExpectedDict),
                ),
            },
            _ => fails(
                vm.release(key).release(value),
                ErrorView::Internal(Fault::DictSetItemExpectedRef),
            ),
        }
    }
}

impl<T> HeapView<T> {
    /// The object a value refers to.
    pub open spec fn data_of(self, v: Value) -> Option<DataView> {
        match v {
            Value::Ref(id) => self.data(id),
            _ => None,
        }
    }

    /// The heap once an object that was taken out, if any, is back in its slot.
    pub open spec fn put_back(self, id: HeapId, data: Option<DataView>) -> HeapView<T> {
        match data {
            None => self,
            Some(d) => self.set_data(id, Some(d)),
        }
    }
}

pub fn copy_pairs(entries: &Vec<(Value, Value)>) -> (r: Vec<(Value, Value)>)
    ensures
        r@ == entries@,
{
    let mut out: Vec<(Value, Value)> = Vec::new();
    let mut i: usize = 0;
    while i < entries.len()
        invariant
            0 <= i <= entries@.len(),
            out@ == entries@.take(i as int),
        decreases entries@.len() - i,
    {
        out.push(entries[i]);
        i = i + 1;
        assert(out@ =~= entries@.take(i as int));
    }
    assert(out@ =~= entries@);
    out
}

/// Counts the keys and values of pairs once more, in order.
pub fn inc_pairs<T>(pairs: &Vec<(Value, Value)>, heap: &mut Heap<T>)
    ensures
        final(heap)@ == old(heap)@.inc_values(pair_values(pairs@)),
{
    let mut flat: Vec<Value> = Vec::new();
    let mut i: usize = 0;
    while i < pairs.len()
        invariant
            0 <= i <= pairs@.len(),
            flat@ == pair_values(pairs@.take(i as int)),
        decreases pairs@.len() - i,
    {
        let (k, v): (Value, Value) = pairs[i];
        proof {
            pair_values_push(pairs@.take(i as int), (k, v));
            assert(pairs@.take(i + 1) =~= pairs@.take(i as int).push((k, v)));
        }
        flat.push(k);
        flat.push(v);
        i = i + 1;
    }
    assert(pairs@.take(i as int) =~= pairs@);
    heap.inc_values(flat.as_slice());
}

impl<'a, T: ResourceTracker> VM<'a, T> {
    /// Merges the mapping on top into the dict below it, as keyword arguments of a call.
    ///
    /// The mapping has to be a dict with string keys, none of them set already.
    pub fn dict_merge(&mut self, func_name_id: u16) -> (r: RunResult<()>)
        requires
            old(self)@.stack.len() >= 2,
        ensures
            old(self)@.dict_merged(func_name_id).matches(r, final(self)@),
    {
        let mapping: Value = self.pop();
        let dict_ref: Value = self.pop();
        assert(self@.stack =~= old(self)@.popped(2).stack);
        let func: Option<StringId> = if func_name_id == 0xFFFF {
            None
        } else {
            Some(StringId::from_index(func_name_id))
        };
        let found: Option<Vec<(Value, Value)>> = match mapping {
            Value::Ref(id) => match self.heap.get(id) {
                Some(HeapData::Dict(d)) => Some(copy_pairs(&d.entries)),
                _ => None,
            },
            _ => None,
        };
        let pairs: Vec<(Value, Value)> = match found {
            None => {
                let t: Type = mapping.py_type(&self.heap);
                mapping.drop_with_heap(&mut self.heap);
                dict_ref.drop_with_heap(&mut self.heap);
                return Err(RunError::type_error(Fault::KwargsNotMapping(func, t)));
            },
            Some(pairs) => pairs,
        };
        inc_pairs(&pairs, &mut self.heap);
        let dict_id: HeapId = match dict_ref {
            Value::Ref(id) => id,
            _ => {
                mapping.drop_with_heap(&mut self.heap);
                dict_ref.drop_with_heap(&mut self.heap);
                return Err(RunError::internal(Fault::DictMergeExpectedRef));
            },
        };
        let ghost counted = self.heap@;
        let ghost n = pairs@.len() as int;
        let ghost done = merged(counted, self@.interns, func, mapping, dict_id, pairs@, n);
        let mut i: usize = 0;
        while i < pairs.len()
            invariant
                0 <= i <= pairs@.len(),
                n == pairs@.len(),
                dict_ref == Value::Ref(dict_id),
                done == merged(counted, self@.interns, func, mapping, dict_id, pairs@, n),
                self@ == old(self)@.popped(2).with_heap(self.heap@),
                old(self)@.dict_merged(func_name_id) == (match done.error {
                    Some(e) => fails(old(self)@.popped(2).with_heap(done.heap), e),
                    None => VmStep {
                        vm: old(self)@.popped(2).with_heap(done.heap).release(mapping).pushed(
                            dict_ref,
                        ),
                        result: Ok::<(), ErrorView>(()),
                    },
                }),
                ({
                    let said = merged(
                        counted,
                        self@.interns,
                        func,
                        mapping,
                        dict_id,
                        pairs@,
                        i as int,
                    );
                    said.error is None && self.heap@ == said.heap
                }),
            decreases pairs@.len() - i,
        {
            let (key, value): (Value, Value) = pairs[i];
            let ghost before = self.heap@;
            let ghost next = merged(
                counted,
                self@.interns,
                func,
                mapping,
                dict_id,
                pairs@,
                i + 1,
            );
            proof {
                if next.error is Some {
                    merge_ends(counted, self@.interns, func, mapping, dict_id, pairs@, i + 1, n);
                }
            }
            let text: String = match as_string(key, &self.heap, self.interns) {
                Some(text) => text,
                None => {
                    key.drop_with_heap(&mut self.heap);
                    value.drop_with_heap(&mut self.heap);
                    mapping.drop_with_heap(&mut self.heap);
                    dict_ref.drop_with_heap(&mut self.heap);
                    return Err(RunError::type_error(Fault::KwargsNonStringKey));
                },
            };
            match self.heap.take_data(dict_id) {
                Some(HeapData::Dict(d)) => {
                    let mut dict: Dict = d;
                    let set: RunResult<Option<Value>> = dict.set(
                        key,
                        value,
                        &mut self.heap,
                        self.interns,
                    );
                    self.heap.put_data(dict_id, HeapData::Dict(dict));
                    match set {
                        Err(e) => {
                            return Err(e);
                        },
                        Ok(Some(replaced)) => {
                            replaced.drop_with_heap(&mut self.heap);
                            mapping.drop_with_heap(&mut self.heap);
                            dict_ref.drop_with_heap(&mut self.heap);
                            return Err(
                                RunError::message(
                                    ExcType::TypeError,
                                    Message::MultipleValues(func, text),
                                ),
                            );
                        },
                        Ok(None) => {},
                    }
                },
                Some(d) => {
                    self.heap.put_data(dict_id, d);
                    assert(self.heap@.entries =~= before.entries);
                    return Err(RunError::internal(Fault::DictMergeExpectedDict));
                },
                None => {
                    assert(self.heap@.entries =~= before.entries);
                    return Err(RunError::internal(Fault::DictMergeExpectedDict));
                },
            }
            i = i + 1;
        }
        mapping.drop_with_heap(&mut self.heap);
        self.push(dict_ref);
        Ok(())
    }

    /// Appends the value on top to the list `depth` iterators further down.
    pub fn list_append(&mut self, depth: usize) -> (r: RunResult<()>)
        requires
            old(self)@.stack.len() >= depth + 2,
        ensures
            old(self)@.item_appended(depth as int).matches(r, final(self)@),
    {
        let value: Value = self.pop();
        let ghost before = self.heap@;
        let list: Value = self.stack[self.stack.len() - 1 - depth];
        assert(list == old(self)@.top(depth + 1));
        let id: HeapId = match list {
            Value::Ref(id) => id,
            _ => {
                value.drop_with_heap(&mut self.heap);
                return Err(RunError::internal(Fault::ListAppendExpectedRef));
            },
        };
        match self.heap.take_data(id) {
            Some(HeapData::List(l)) => {
                let mut l: List = l;
                l.append(&mut self.heap, value);
                self.heap.put_data(id, HeapData::List(l));
                Ok(())
            },
            Some(d) => {
                value.drop_with_heap(&mut self.heap);
                self.heap.put_data(id, d);
                Err(RunError::internal(Fault::ListAppendExpectedList))
            },
            None => {
                value.drop_with_heap(&mut self.heap);
                Err(RunError::internal(Fault::ListAppendExpectedList))
            },
        }
    }

    /// Adds the value on top to the set `depth` iterators further down.
    pub fn set_add(&mut self, depth: usize) -> (r: RunResult<()>)
        requires
            old(self)@.stack.len() >= depth + 2,
        ensures
            old(self)@.item_added(depth as int).matches(r, final(self)@),
    {
        let value: Value = self.pop();
        let set: Value = self.stack[self.stack.len() - 1 - depth];
        assert(set == old(self)@.top(depth + 1));
        let id: HeapId = match set {
            Value::Ref(id) => id,
            _ => {
                value.drop_with_heap(&mut self.heap);
                return Err(RunError::internal(Fault::SetAddExpectedRef));
            },
        };
        match self.heap.take_data(id) {
            Some(HeapData::PySet(s)) => {
                let mut s: PySet = s;
                let added: RunResult<bool> = s.add(value, &mut self.heap, self.interns);
                self.heap.put_data(id, HeapData::PySet(s));
                match added {
                    Ok(_) => Ok(()),
                    Err(e) => Err(e),
                }
            },
            Some(d) => {
                value.drop_with_heap(&mut self.heap);
                self.heap.put_data(id, d);
                Err(RunError::internal(Fault::SetAddExpectedSet))
            },
            None => {
                value.drop_with_heap(&mut self.heap);
                Err(RunError::internal(Fault::SetAddExpectedSet))
            },
        }
    }

    /// Sets the key below the top to the value on top in the dict `depth` iterators further
    /// down.
    pub fn dict_set_item(&mut self, depth: usize) -> (r: RunResult<()>)
        requires
            old(self)@.stack.len() >= depth + 3,
        ensures
            old(self)@.item_set(depth as int).matches(r, final(self)@),
    {
        let value: Value = self.pop();
        let key: Value = self.pop();
        assert(self@.stack =~= old(self)@.popped(2).stack);
        let dict: Value = self.stack[self.stack.len() - 1 - depth];
        assert(dict == old(self)@.top(depth + 2));
        let id: HeapId = match dict {
            Value::Ref(id) => id,
            _ => {
                key.drop_with_heap(&mut self.heap);
                value.drop_with_heap(&mut self.heap);
                return Err(RunError::internal(Fault::DictSetItemExpectedRef));
            },
        };
        match self.heap.take_data(id) {
            Some(HeapData::Dict(d)) => {
                let mut d: Dict = d;
                let set: RunResult<Option<Value>> = d.set(
                    key,
                    value,
                    &mut self.heap,
                    self.interns,
                );
                self.heap.put_data(id, HeapData::Dict(d));
                match set {
                    Err(e) => Err(e),
                    Ok(Some(replaced)) => {
                        replaced.drop_with_heap(&mut self.heap);
                        Ok(())
                    },
                    Ok(None) => Ok(()),
                }
            },
            Some(d) => {
                key.drop_with_heap(&mut self.heap);
                value.drop_with_heap(&mut self.heap);
                self.heap.put_data(id, d);
                Err(RunError::internal(Fault::DictSetItemExpectedDict))
            },
            None => {
                key.drop_with_heap(&mut self.heap);
                value.drop_with_heap(&mut self.heap);
                Err(RunError::internal(Fault::DictSetItemExpectedDict))
            },
        }
    }
}

} // verus!
