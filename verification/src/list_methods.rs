//! The methods of Python lists.

use vstd::prelude::*;
use crate::args::{positional_error, ArgValues, ArgsView};
use crate::containers::noted;
use crate::equality::{equal, find_equal, first_equal};
use crate::error::{outcome, Callee, ErrorView, Fault, Message, MessageView, RunError, RunResult};
use crate::heap::{DataView, Heap, HeapView};
use crate::indexing::{as_int, find_position, position};
use crate::interns::{EitherStr, Interns, StaticStrings};
use crate::iteration::{collect, collected};
use crate::list::{allocate_list, built_list, List, ListOp, ListView};
use crate::resource::{DepthGuard, ResourceError, ResourceTracker, MAX_DATA_DEPTH};
use crate::slicing::clamped;
use crate::small_values::{small_items, SmallValues};
use crate::types::{ExcType, Type};
use crate::value::{copy_values, has_refs, Value};

verus! {

/// A list operation that was refused before it did anything but give up its arguments.
pub open spec fn refused<T>(
    h: HeapView<T>,
    list: ListView,
    args: ArgsView,
    error: ErrorView,
) -> ListOp<Value, T> {
    ListOp { list, heap: h.release_args(args), result: Err(error) }
}

/// `list.append(item)`.
pub open spec fn append_op<T>(h: HeapView<T>, list: ListView, args: ArgsView) -> ListOp<Value, T> {
    match positional_error(args, Callee::ListAppend, 1, 1) {
        Some(e) => refused(h, list, args, e),
        None => ListOp {
            list: list.appended(args.pos[0]),
            heap: noted(h, args.pos[0]),
            result: Ok(Value::PyNone),
        },
    }
}

/// `list.insert(index, item)`: a negative index counts from the end, and an index out of
/// range goes to the nearer end.
pub open spec fn insert_op<T>(h: HeapView<T>, list: ListView, args: ArgsView) -> ListOp<Value, T> {
    match positional_error(args, Callee::ListInsert, 2, 2) {
        Some(e) => refused(h, list, args, e),
        None => {
            let index = args.pos[0];
            let item = args.pos[1];
            match as_int(h, index) {
                Err(e) => ListOp { list, heap: h.release(index).release(item), result: Err(e) },
                Ok(i) => ListOp {
                    list: list.inserted(
                        clamped(i as int, list.items.len() as int, 0, list.items.len() as int),
                        item,
                    ),
                    heap: noted(h.release(index), item),
                    result: Ok(Value::PyNone),
                },
            }
        },
    }
}

/// The heap once an optional index argument is read.
pub open spec fn index_released<T>(h: HeapView<T>, args: Seq<Value>) -> HeapView<T> {
    if args.len() == 0 {
        h
    } else {
        h.release(args[0])
    }
}

/// `list.pop([index])`: the type of the index is checked first, then that there is an item.
pub open spec fn pop_op<T>(h: HeapView<T>, list: ListView, args: ArgsView) -> ListOp<Value, T> {
    match positional_error(args, Callee::ListPop, 0, 1) {
        Some(e) => refused(h, list, args, e),
        None => {
            let index = if args.pos.len() == 0 {
                Ok(-1i64)
            } else {
                as_int(h, args.pos[0])
            };
            let heap = index_released(h, args.pos);
            match index {
                Err(e) => ListOp { list, heap, result: Err(e) },
                Ok(i) => if list.items.len() == 0 {
                    ListOp {
                        list,
                        heap,
                        result: Err(ErrorView::fault(ExcType::IndexError, Fault::PopEmptyList)),
                    }
                } else {
                    match position(i, list.items.len() as int) {
                        None => ListOp {
                            list,
                            heap,
                            result: Err(
                                ErrorView::fault(ExcType::IndexError, Fault::PopOutOfRange),
                            ),
                        },
                        Some(p) => ListOp {
                            list: list.with_items(list.items.remove(p)),
                            heap,
                            result: Ok(list.items[p]),
                        },
                    }
                },
            }
        },
    }
}

/// `list.remove(value)`: removes the first item the value equals.
///
/// If comparing runs too deep, the value stays counted.
pub open spec fn remove_op<T>(
    h: HeapView<T>,
    interns: Interns,
    list: ListView,
    args: ArgsView,
) -> ListOp<Value, T> {
    match positional_error(args, Callee::ListRemove, 1, 1) {
        Some(e) => refused(h, list, args, e),
        None => {
            let value = args.pos[0];
            match first_equal(
                h,
                interns,
                value,
                list.items,
                list.items.len() as int,
                MAX_DATA_DEPTH as nat,
            ) {
                Err(e) => ListOp { list, heap: h, result: Err(ErrorView::resource(e)) },
                Ok(None) => ListOp {
                    list,
                    heap: h.release(value),
                    result: Err(ErrorView::fault(ExcType::ValueError, Fault::RemoveNotInList)),
                },
                Ok(Some(k)) => ListOp {
                    list: list.with_items(list.items.remove(k)),
                    heap: h.release(value).release(list.items[k]),
                    result: Ok(Value::PyNone),
                },
            }
        },
    }
}

/// `list.clear()`: the flag stays as it is.
pub open spec fn clear_op<T>(h: HeapView<T>, list: ListView, args: ArgsView) -> ListOp<Value, T> {
    match positional_error(args, Callee::ListClear, 0, 0) {
        Some(e) => refused(h, list, args, e),
        None => ListOp {
            list: list.with_items(Seq::empty()),
            heap: h.release_values(list.items),
            result: Ok(Value::PyNone),
        },
    }
}

/// `list.copy()`: a new list of the same items.
pub open spec fn copy_op<T: ResourceTracker>(
    h: HeapView<T>,
    list: ListView,
    args: ArgsView,
) -> ListOp<Value, T> {
    match positional_error(args, Callee::ListCopy, 0, 0) {
        Some(e) => refused(h, list, args, e),
        None => {
            let built = built_list(h.inc_values(list.items), list.items);
            ListOp { list, heap: built.heap, result: built.result }
        },
    }
}

/// The heap once a container may have come to refer to itself through new values.
pub open spec fn noted_all<T>(h: HeapView<T>, values: Seq<Value>) -> HeapView<T> {
    if has_refs(values) {
        h.cycle_marked()
    } else {
        h
    }
}

/// `list.extend(iterable)`.
pub open spec fn extend_op<T: ResourceTracker>(
    h: HeapView<T>,
    interns: Interns,
    list: ListView,
    args: ArgsView,
) -> ListOp<Value, T> {
    match positional_error(args, Callee::ListExtend, 1, 1) {
        Some(e) => refused(h, list, args, e),
        None => {
            let got = collected(h, interns, args.pos[0]);
            match got.result {
                Err(e) => ListOp { list, heap: got.heap, result: Err(e) },
                Ok(items) => ListOp {
                    list: list.extended(items),
                    heap: noted_all(got.heap, items),
                    result: Ok(Value::PyNone),
                },
            }
        },
    }
}

/// A value to look for and the part of a list to look in, or why the arguments do not say.
pub struct SearchArgs<T> {
    pub heap: HeapView<T>,
    pub result: Result<(Value, int, int), ErrorView>,
}

/// The bound an optional index argument sets.
pub open spec fn bound_arg<T>(
    h: HeapView<T>,
    args: Seq<Value>,
    k: int,
    len: int,
    default: int,
) -> Result<int, ErrorView> {
    if k < args.len() {
        match as_int(h, args[k]) {
            Ok(i) => Ok(clamped(i as int, len, 0, len)),
            Err(e) => Err(e),
        }
    } else {
        Ok(default)
    }
}

/// The heap once the argument at position `k`, if there is one, is given up.
pub open spec fn arg_released<T>(h: HeapView<T>, args: Seq<Value>, k: int) -> HeapView<T> {
    if k < args.len() {
        h.release(args[k])
    } else {
        h
    }
}

/// How `(value[, start[, end]])` is read for a list of length `len`.
///
/// Bounds are read from left to right and brought into the list; an end before the start
/// is moved to it. Too many arguments are reported as four whatever their number.
pub open spec fn search_args<T>(
    h: HeapView<T>,
    callee: Callee,
    len: int,
    args: ArgsView,
) -> SearchArgs<T> {
    if args.pairs.len() != 0 {
        SearchArgs {
            heap: h.release_args(args),
            result: Err(ErrorView::fault(ExcType::TypeError, Fault::NoKeywords(callee))),
        }
    } else if args.pos.len() == 0 {
        SearchArgs {
            heap: h,
            result: Err(
                ErrorView::fault(
                    ExcType::TypeError,
                    Fault::ArgsAtLeast { callee, expected: 1, got: 0 },
                ),
            ),
        }
    } else if args.pos.len() > 3 {
        SearchArgs {
            heap: h.release_values(args.pos.skip(3)).release(args.pos[0]).release(
                args.pos[1],
            ).release(args.pos[2]),
            result: Err(
                ErrorView::fault(
                    ExcType::TypeError,
                    Fault::ArgsAtMost { callee, expected: 3, got: 4 },
                ),
            ),
        }
    } else {
        let value = args.pos[0];
        let after_start = arg_released(h, args.pos, 1);
        match bound_arg(h, args.pos, 1, len, 0) {
            Err(e) => SearchArgs {
                heap: arg_released(after_start.release(value), args.pos, 2),
                result: Err(e),
            },
            Ok(start) => {
                let after_end = arg_released(after_start, args.pos, 2);
                match bound_arg(after_start, args.pos, 2, len, len) {
                    Err(e) => SearchArgs { heap: after_end.release(value), result: Err(e) },
                    Ok(end) => SearchArgs {
                        heap: after_end,
                        result: Ok(
                            (
                                value,
                                start,
                                if end < start {
                                    start
                                } else {
                                    end
                                },
                            ),
                        ),
                    },
                }
            },
        }
    }
}

/// `list.index(value[, start[, end]])`: the position of the first item the value equals.
///
/// If comparing runs too deep, the value stays counted.
pub open spec fn index_op<T>(
    h: HeapView<T>,
    interns: Interns,
    list: ListView,
    args: ArgsView,
) -> ListOp<Value, T> {
    let read = search_args(h, Callee::ListIndex, list.items.len() as int, args);
    match read.result {
        Err(e) => ListOp { list, heap: read.heap, result: Err(e) },
        Ok((value, start, end)) => {
            let part = list.items.subrange(start, end);
            match first_equal(
                read.heap,
                interns,
                value,
                part,
                part.len() as int,
                MAX_DATA_DEPTH as nat,
            ) {
                Err(e) => ListOp { list, heap: read.heap, result: Err(ErrorView::resource(e)) },
                Ok(None) => ListOp {
                    list,
                    heap: read.heap.release(value),
                    result: Err(ErrorView::fault(ExcType::ValueError, Fault::NotInList)),
                },
                Ok(Some(k)) => ListOp {
                    list,
                    heap: read.heap.release(value),
                    result: Ok(Value::Int(((start + k) as usize) as i64)),
                },
            }
        },
    }
}

/// How many of the first `n` items a value equals, and the room left for comparing.
///
/// A comparison that runs too deep counts as unequal and uses up the room.
pub open spec fn count_equal<T>(
    h: HeapView<T>,
    interns: Interns,
    value: Value,
    items: Seq<Value>,
    n: int,
    room: nat,
) -> (nat, nat)
    decreases n,
{
    if n <= 0 {
        (0, room)
    } else {
        let (found, left) = count_equal(h, interns, value, items, n - 1, room);
        match equal(h, interns, value, items[n - 1], left) {
            Ok(true) => (found + 1, left),
            Ok(false) => (found, left),
            Err(_) => (found, 0),
        }
    }
}

/// `list.count(value)`.
pub open spec fn count_op<T>(
    h: HeapView<T>,
    interns: Interns,
    list: ListView,
    args: ArgsView,
) -> ListOp<Value, T> {
    match positional_error(args, Callee::ListCount, 1, 1) {
        Some(e) => refused(h, list, args, e),
        None => {
            let value = args.pos[0];
            let found = count_equal(
                h,
                interns,
                value,
                list.items,
                list.items.len() as int,
                MAX_DATA_DEPTH as nat,
            ).0;
            ListOp {
                list,
                heap: h.release(value),
                result: Ok(Value::Int((found as usize) as i64)),
            }
        },
    }
}

/// `list.reverse()`.
pub open spec fn reverse_op<T>(h: HeapView<T>, list: ListView, args: ArgsView) -> ListOp<Value, T> {
    match positional_error(args, Callee::ListReverse, 0, 0) {
        Some(e) => refused(h, list, args, e),
        None => ListOp {
            list: list.with_items(list.items.reverse()),
            heap: h,
            result: Ok(Value::PyNone),
        },
    }
}

/// Calling a method of a list that was taken out of the heap.
///
/// Sorting is not among them: it calls functions and is done where those can be called.
pub open spec fn method_op<T: ResourceTracker>(
    h: HeapView<T>,
    interns: Interns,
    list: ListView,
    method: StaticStrings,
    args: ArgsView,
) -> ListOp<Value, T> {
    match method {
        StaticStrings::Append => append_op(h, list, args),
        StaticStrings::Insert => insert_op(h, list, args),
        StaticStrings::Pop => pop_op(h, list, args),
        StaticStrings::Remove => remove_op(h, interns, list, args),
        StaticStrings::Clear => clear_op(h, list, args),
        StaticStrings::Copy => copy_op(h, list, args),
        StaticStrings::Extend => extend_op(h, interns, list, args),
        StaticStrings::Index => index_op(h, interns, list, args),
        StaticStrings::Count => count_op(h, interns, list, args),
        StaticStrings::Reverse => reverse_op(h, list, args),
        _ => refused(
            h,
            list,
            args,
            ErrorView::fault(ExcType::AttributeError, Fault::NoAttribute(Type::List, method.id())),
        ),
    }
}

/// Whether an operation on a list did what is said of it.
pub open spec fn op_matches<R, T>(
    r: RunResult<R>,
    list: ListView,
    heap: HeapView<T>,
    said: ListOp<R, T>,
) -> bool {
    &&& outcome(r) == said.result
    &&& list == said.list
    &&& heap == said.heap
}

/// Brings an index into the range from zero to `len`; a negative one counts from the end.
pub fn normalize_list_index(index: i64, len: usize) -> (r: usize)
    ensures
        r == clamped(index as int, len as int, 0, len as int),
{
    let n: i128 = len as i128;
    let i: i128 = if index < 0 {
        index as i128 + n
    } else {
        index as i128
    };
    if i < 0 {
        0
    } else if i > n {
        len
    } else {
        i as usize
    }
}

fn list_insert<T>(list: &mut List, args: ArgValues, heap: &mut Heap<T>) -> (r: RunResult<Value>)
    ensures
        op_matches(r, final(list)@, final(heap)@, insert_op(old(heap)@, old(list)@, args@)),
{
    match args.get_two_args(Callee::ListInsert, heap) {
        Err(e) => Err(e),
        Ok((index, item)) => {
            let read: RunResult<i64> = index.as_int(heap);
            index.drop_with_heap(heap);
            match read {
                Err(e) => {
                    item.drop_with_heap(heap);
                    Err(e)
                },
                Ok(i) => {
                    let at: usize = normalize_list_index(i, list.items.len());
                    list.insert(heap, at, item);
                    Ok(Value::PyNone)
                },
            }
        },
    }
}

fn list_pop<T>(list: &mut List, args: ArgValues, heap: &mut Heap<T>) -> (r: RunResult<Value>)
    ensures
        op_matches(r, final(list)@, final(heap)@, pop_op(old(heap)@, old(list)@, args@)),
{
    let index: i64 = match args.get_zero_one_arg(Callee::ListPop, heap) {
        Err(e) => {
            return Err(e);
        },
        Ok(None) => -1,
        Ok(Some(v)) => {
            let read: RunResult<i64> = v.as_int(heap);
            v.drop_with_heap(heap);
            match read {
                Err(e) => {
                    return Err(e);
                },
                Ok(i) => i,
            }
        },
    };
    if list.items.len() == 0 {
        return Err(RunError::fault(ExcType::IndexError, Fault::PopEmptyList));
    }
    match find_position(index, list.items.len()) {
        None => Err(RunError::fault(ExcType::IndexError, Fault::PopOutOfRange)),
        Some(p) => Ok(list.items.remove(p)),
    }
}

fn list_remove<T>(list: &mut List, args: ArgValues, heap: &mut Heap<T>, interns: &Interns) -> (r:
    RunResult<Value>)
    ensures
        op_matches(
            r,
            final(list)@,
            final(heap)@,
            remove_op(old(heap)@, *interns, old(list)@, args@),
        ),
{
    let value: Value = match args.get_one_arg(Callee::ListRemove, heap) {
        Err(e) => {
            return Err(e);
        },
        Ok(v) => v,
    };
    let mut guard: DepthGuard = DepthGuard::default();
    match find_equal(&value, list.items.as_slice(), heap, &mut guard, interns) {
        Err(e) => Err(RunError::resource(e)),
        Ok(None) => {
            value.drop_with_heap(heap);
            Err(RunError::fault(ExcType::ValueError, Fault::RemoveNotInList))
        },
        Ok(Some(k)) => {
            value.drop_with_heap(heap);
            let removed: Value = list.items.remove(k);
            removed.drop_with_heap(heap);
            Ok(Value::PyNone)
        },
    }
}

fn list_clear<T>(list: &mut List, heap: &mut Heap<T>)
    ensures
        final(list)@ == old(list)@.with_items(Seq::empty()),
        final(heap)@ == old(heap)@.release_values(old(list)@.items),
{
    let mut items: Vec<Value> = Vec::new();
    std::mem::swap(&mut items, &mut list.items);
    heap.drop_values(items.as_slice());
    assert(list@.items =~= Seq::empty());
}

fn list_copy<T: ResourceTracker>(list: &List, heap: &mut Heap<T>) -> (r: Result<Value, ResourceError>)
    ensures
        ({
            let said = old(heap)@.inc_values(list@.items).made(
                DataView::List(ListView::of(list@.items)),
            );
            r == said.result && final(heap)@ == said.heap
        }),
{
    heap.inc_values(list.items.as_slice());
    allocate_list(copy_values(list.items.as_slice()), heap)
}

fn list_extend<T: ResourceTracker>(
    list: &mut List,
    args: ArgValues,
    heap: &mut Heap<T>,
    interns: &Interns,
) -> (r: RunResult<Value>)
    ensures
        op_matches(
            r,
            final(list)@,
            final(heap)@,
            extend_op(old(heap)@, *interns, old(list)@, args@),
        ),
{
    let iterable: Value = match args.get_one_arg(Callee::ListExtend, heap) {
        Err(e) => {
            return Err(e);
        },
        Ok(v) => v,
    };
    let items: SmallValues = match collect(iterable, heap, interns) {
        Err(e) => {
            return Err(e);
        },
        Ok(items) => SmallValues::from_vec(items),
    };
    let ghost all = small_items(items);
    let ghost start_list = list@;
    let ghost start_heap = heap@;
    let values: Vec<Value> = items.into_vec();
    let mut i: usize = 0;
    assert(list@ =~= start_list.extended(all.take(0)));
    while i < values.len()
        invariant
            values@ == all,
            0 <= i <= all.len(),
            list@ == start_list.extended(all.take(i as int)),
            heap@ == noted_all(start_heap, all.take(i as int)),
        decreases all.len() - i,
    {
        let item: Value = values[i];
        proof {
            let before = all.take(i as int);
            let after = all.take(i + 1);
            assert(after =~= before.push(item));
            assert(has_refs(after) <==> has_refs(before) || item is Ref) by {
                assert(after[i as int] == item);
                assert forall|j: int| 0 <= j < i implies after[j] == before[j] by {}
                if has_refs(before) {
                    let j = choose|j: int| 0 <= j < before.len() && (#[trigger] before[j]) is Ref;
                    assert(after[j] is Ref);
                }
            }
        }
        list.append(heap, item);
        i = i + 1;
        assert(list@ =~= start_list.extended(all.take(i as int)));
    }
    assert(all.take(i as int) =~= all);
    Ok(Value::PyNone)
}

/// Reads the arguments of `list.index`.
///
/// The start never comes after the end.
pub fn parse_index_count_args<T>(callee: Callee, len: usize, args: ArgValues, heap: &mut Heap<T>) -> (r:
    RunResult<(Value, usize, usize)>)
    ensures
        ({
            let said = search_args(old(heap)@, callee, len as int, args@);
            &&& final(heap)@ == said.heap
            &&& match (r, said.result) {
                (Ok((v, a, b)), Ok((w, x, y))) => v == w && a == x && b == y,
                (Err(e), Err(f)) => e@ == f,
                _ => false,
            }
        }),
        r matches Ok((_, a, b)) ==> a <= b <= len,
{
    let pos: Vec<Value> = match args.into_pos_only(callee, heap) {
        Err(e) => {
            return Err(e);
        },
        Ok(pos) => pos,
    };
    let n: usize = pos.len();
    if n == 0 {
        return Err(RunError::type_error(Fault::ArgsAtLeast { callee, expected: 1, got: 0 }));
    }
    if n > 3 {
        let rest: &[Value] = vstd::slice::slice_subrange(pos.as_slice(), 3, n);
        assert(rest@ =~= pos@.skip(3));
        heap.drop_values(rest);
        pos[0].drop_with_heap(heap);
        pos[1].drop_with_heap(heap);
        pos[2].drop_with_heap(heap);
        return Err(RunError::type_error(Fault::ArgsAtMost { callee, expected: 3, got: 4 }));
    }
    let value: Value = pos[0];
    let start: usize = if n > 1 {
        let read: RunResult<i64> = pos[1].as_int(heap);
        pos[1].drop_with_heap(heap);
        match read {
            Ok(i) => normalize_list_index(i, len),
            Err(e) => {
                value.drop_with_heap(heap);
                if n > 2 {
                    pos[2].drop_with_heap(heap);
                }
                return Err(e);
            },
        }
    } else {
        0
    };
    let end: usize = if n > 2 {
        let read: RunResult<i64> = pos[2].as_int(heap);
        pos[2].drop_with_heap(heap);
        match read {
            Ok(i) => normalize_list_index(i, len),
            Err(e) => {
                value.drop_with_heap(heap);
                return Err(e);
            },
        }
    } else {
        len
    };
    Ok(
        (
            value,
            start,
            if end < start {
                start
            } else {
                end
            },
        ),
    )
}

fn list_index<T>(list: &List, args: ArgValues, heap: &mut Heap<T>, interns: &Interns) -> (r:
    RunResult<Value>)
    ensures
        op_matches(r, list@, final(heap)@, index_op(old(heap)@, *interns, list@, args@)),
{
    let (value, start, end): (Value, usize, usize) = match parse_index_count_args(
        Callee::ListIndex,
        list.items.len(),
        args,
        heap,
    ) {
        Err(e) => {
            return Err(e);
        },
        Ok(read) => read,
    };
    let mut guard: DepthGuard = DepthGuard::default();
    let part: &[Value] = vstd::slice::slice_subrange(list.items.as_slice(), start, end);
    let found: Result<Option<usize>, ResourceError> = find_equal(
        &value,
        part,
        heap,
        &mut guard,
        interns,
    );
    match found {
        Err(e) => Err(RunError::resource(e)),
        Ok(Some(k)) => {
            value.drop_with_heap(heap);
            Ok(Value::Int((start + k) as i64))
        },
        Ok(None) => {
            value.drop_with_heap(heap);
            Err(RunError::fault(ExcType::ValueError, Fault::NotInList))
        },
    }
}

fn list_count<T>(list: &List, args: ArgValues, heap: &mut Heap<T>, interns: &Interns) -> (r:
    RunResult<Value>)
    ensures
        op_matches(r, list@, final(heap)@, count_op(old(heap)@, *interns, list@, args@)),
{
    let value: Value = match args.get_one_arg(Callee::ListCount, heap) {
        Err(e) => {
            return Err(e);
        },
        Ok(v) => v,
    };
    let mut guard: DepthGuard = DepthGuard::default();
    let mut found: usize = 0;
    let mut i: usize = 0;
    while i < list.items.len()
        invariant
            0 <= i <= list.items@.len(),
            found <= i,
            heap@ == old(heap)@,
            count_equal(
                old(heap)@,
                *interns,
                value,
                list.items@,
                i as int,
                MAX_DATA_DEPTH as nat,
            ) == (found as nat, guard.room()),
        decreases list.items@.len() - i,
    {
        match value.py_eq(&list.items[i], heap, &mut guard, interns) {
            Ok(true) => {
                found = found + 1;
            },
            Ok(false) => {},
            Err(_) => {},
        }
        i = i + 1;
    }
    value.drop_with_heap(heap);
    Ok(Value::Int(found as i64))
}

fn list_reverse(list: &mut List)
    ensures
        final(list)@ == old(list)@.with_items(old(list)@.items.reverse()),
{
    let ghost all = list.items@;
    let n: usize = list.items.len();
    let mut out: Vec<Value> = Vec::new();
    let mut i: usize = 0;
    while i < n
        invariant
            n == all.len(),
            list.items@ == all,
            0 <= i <= n,
            out@ == all.reverse().take(i as int),
        decreases n - i,
    {
        out.push(list.items[n - 1 - i]);
        i = i + 1;
        assert(out@ =~= all.reverse().take(i as int));
    }
    assert(out@ =~= all.reverse());
    list.items = out;
}

/// Calls a method of a list that was taken out of the heap.
pub fn call_list_method<T: ResourceTracker>(
    list: &mut List,
    method: StaticStrings,
    args: ArgValues,
    heap: &mut Heap<T>,
    interns: &Interns,
) -> (r: RunResult<Value>)
    ensures
        op_matches(
            r,
            final(list)@,
            final(heap)@,
            method_op(old(heap)@, *interns, old(list)@, method, args@),
        ),
{
    match method {
        StaticStrings::Append => match args.get_one_arg(Callee::ListAppend, heap) {
            Err(e) => Err(e),
            Ok(item) => {
                list.append(heap, item);
                Ok(Value::PyNone)
            },
        },
        StaticStrings::Insert => list_insert(list, args, heap),
        StaticStrings::Pop => list_pop(list, args, heap),
        StaticStrings::Remove => list_remove(list, args, heap, interns),
        StaticStrings::Clear => match args.check_zero_args(Callee::ListClear, heap) {
            Err(e) => Err(e),
            Ok(()) => {
                list_clear(list, heap);
                Ok(Value::PyNone)
            },
        },
        StaticStrings::Copy => match args.check_zero_args(Callee::ListCopy, heap) {
            Err(e) => Err(e),
            Ok(()) => match list_copy(list, heap) {
                Ok(v) => Ok(v),
                Err(e) => Err(RunError::resource(e)),
            },
        },
        StaticStrings::Extend => list_extend(list, args, heap, interns),
        StaticStrings::Index => list_index(list, args, heap, interns),
        StaticStrings::Count => list_count(list, args, heap, interns),
        StaticStrings::Reverse => match args.check_zero_args(Callee::ListReverse, heap) {
            Err(e) => Err(e),
            Ok(()) => {
                list_reverse(list);
                Ok(Value::PyNone)
            },
        },
        _ => {
            args.drop_with_heap(heap);
            Err(
                RunError::fault(
                    ExcType::AttributeError,
                    Fault::NoAttribute(Type::List, method.string_id()),
                ),
            )
        },
    }
}

impl List {
    /// Calls a method by name.
    pub fn py_call_attr<T: ResourceTracker>(
        &mut self,
        heap: &mut Heap<T>,
        attr: &EitherStr,
        args: ArgValues,
        interns: &Interns,
    ) -> (r: RunResult<Value>)
        ensures
            op_matches(
                r,
                final(self)@,
                final(heap)@,
                (match attr.as_static() {
                    Some(method) => method_op(old(heap)@, *interns, old(self)@, method, args@),
                    None => refused(
                        old(heap)@,
                        old(self)@,
                        args@,
                        ErrorView::raised(
                            ExcType::AttributeError,
                            MessageView::NoAttributeText(Type::List, attr.text(*interns)),
                        ),
                    ),
                }),
            ),
    {
        match attr.static_string() {
            None => {
                args.drop_with_heap(heap);
                Err(
                    RunError::message(
                        ExcType::AttributeError,
                        Message::NoAttributeText(Type::List, attr.to_text(interns)),
                    ),
                )
            },
            Some(method) => call_list_method(self, method, args, heap, interns),
        }
    }
}

} // verus!
