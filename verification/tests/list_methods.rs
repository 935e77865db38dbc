use std::str::FromStr;

use monty::args::{ArgValues, KwargsValues};
use monty::builtins::{Builtins, BuiltinsFunctions};
use monty::containers::Slice;
use monty::error::RunError;
use monty::heap::{Heap, HeapData};
use monty::ids::{HeapId, StringId};
use monty::interns::{EitherStr, Interns, StaticStrings};
use monty::list::List;
use monty::list_methods::{call_list_method, normalize_list_index};
use monty::long_int::LongInt;
use monty::resource::{DepthGuard, LimitedTracker, NoLimitTracker};
use monty::types::{ExcType, Type};
use monty::value::Value;

fn no_interns() -> Interns {
    Interns::new(vec![], vec![], vec![], vec![], vec![])
}

fn ints(values: &[i64]) -> Vec<Value> {
    values.iter().map(|i| Value::Int(*i)).collect()
}

fn heap() -> Heap<NoLimitTracker> {
    Heap::new(8, NoLimitTracker)
}

fn text(heap: &mut Heap<NoLimitTracker>, s: &str) -> Value {
    Value::Ref(heap.allocate(HeapData::Str(s.to_owned())).unwrap())
}

fn message(e: RunError) -> (ExcType, String) {
    let x = e.into_python_exception(&no_interns(), "");
    (x.exc_type, x.message.unwrap())
}

fn call(
    list: &mut List,
    method: StaticStrings,
    args: ArgValues,
    heap: &mut Heap<NoLimitTracker>,
) -> Result<Value, RunError> {
    call_list_method(list, method, args, heap, &no_interns())
}

#[test]
fn append_then_pop() {
    let mut h = heap();
    let mut list = List::new(ints(&[1, 2]));
    let done = call(&mut list, StaticStrings::Append, ArgValues::One(Value::Int(3)), &mut h);
    assert!(matches!(done, Ok(Value::PyNone)));
    assert_eq!(list.as_slice(), ints(&[1, 2, 3]).as_slice());
    let popped = call(&mut list, StaticStrings::Pop, ArgValues::Empty, &mut h);
    assert!(matches!(popped, Ok(Value::Int(3))));
    assert_eq!(list.as_slice(), ints(&[1, 2]).as_slice());
}

#[test]
fn append_sets_flag_and_marks_cycles() {
    let mut h = heap();
    let s = text(&mut h, "x");
    let mut list = List::new(ints(&[1]));
    assert!(!list.contains_refs());
    list.append(&mut h, Value::Int(2));
    assert!(!list.contains_refs());
    assert!(!h.may_have_cycles);
    list.append(&mut h, s);
    assert!(list.contains_refs());
    assert!(h.may_have_cycles);
    assert_eq!(list.len(), 3);
}

#[test]
fn insert_goes_to_nearer_end() {
    let mut h = heap();
    let mut list = List::new(ints(&[1, 2, 3]));
    for (index, item) in [(-100, 10), (100, 11), (1, 12), (-1, 13)] {
        let args = ArgValues::Two(Value::Int(index), Value::Int(item));
        call(&mut list, StaticStrings::Insert, args, &mut h).unwrap();
    }
    assert_eq!(list.as_slice(), ints(&[10, 12, 1, 2, 3, 13, 11]).as_slice());
}

#[test]
fn insert_of_i64_min_goes_to_the_front() {
    let mut h = heap();
    let mut list = List::new(ints(&[1]));
    let args = ArgValues::Two(Value::Int(i64::MIN), Value::Int(0));
    call(&mut list, StaticStrings::Insert, args, &mut h).unwrap();
    assert_eq!(list.as_slice(), ints(&[0, 1]).as_slice());
}

#[test]
fn insert_wants_an_integer() {
    let mut h = heap();
    let s = text(&mut h, "x");
    let mut list = List::new(ints(&[1]));
    let e = call(&mut list, StaticStrings::Insert, ArgValues::Two(s, Value::Int(0)), &mut h).unwrap_err();
    assert_eq!(
        message(e),
        (ExcType::TypeError, "'str' object cannot be interpreted as an integer".to_owned())
    );
    assert_eq!(list.len(), 1);
    assert_eq!(h.entry_count(), 0);
}

#[test]
fn pop_errors() {
    let mut h = heap();
    let mut list = List::new(vec![]);
    let e = call(&mut list, StaticStrings::Pop, ArgValues::Empty, &mut h).unwrap_err();
    assert_eq!(message(e), (ExcType::IndexError, "pop from empty list".to_owned()));
    let mut list = List::new(ints(&[1, 2]));
    let e = call(&mut list, StaticStrings::Pop, ArgValues::One(Value::Int(2)), &mut h).unwrap_err();
    assert_eq!(message(e), (ExcType::IndexError, "pop index out of range".to_owned()));
    let popped = call(&mut list, StaticStrings::Pop, ArgValues::One(Value::Int(-2)), &mut h);
    assert!(matches!(popped, Ok(Value::Int(1))));
}

#[test]
fn remove_takes_the_first_equal_item() {
    let mut h = heap();
    let mut list = List::new(vec![Value::Int(2), Value::Bool(true), Value::Int(1)]);
    call(&mut list, StaticStrings::Remove, ArgValues::One(Value::Int(1)), &mut h).unwrap();
    assert_eq!(list.as_slice(), ints(&[2, 1]).as_slice());
    let e = call(&mut list, StaticStrings::Remove, ArgValues::One(Value::Int(9)), &mut h).unwrap_err();
    assert_eq!(message(e), (ExcType::ValueError, "list.remove(x): x not in list".to_owned()));
}

#[test]
fn remove_gives_up_the_item() {
    let mut h = heap();
    let a = text(&mut h, "a");
    let other = text(&mut h, "a");
    let mut list = List::new(vec![a]);
    call(&mut list, StaticStrings::Remove, ArgValues::One(other), &mut h).unwrap();
    assert_eq!(list.len(), 0);
    assert_eq!(h.entry_count(), 0);
}

#[test]
fn clear_gives_up_the_items() {
    let mut h = heap();
    let a = text(&mut h, "a");
    let mut list = List::new(vec![a, Value::Int(1)]);
    call(&mut list, StaticStrings::Clear, ArgValues::Empty, &mut h).unwrap();
    assert_eq!(list.len(), 0);
    assert!(list.contains_refs());
    assert_eq!(h.entry_count(), 0);
}

#[test]
fn copy_counts_the_items() {
    let mut h = heap();
    let a = text(&mut h, "a");
    let mut list = List::new(vec![a]);
    let copy = call(&mut list, StaticStrings::Copy, ArgValues::Empty, &mut h).unwrap();
    let id = copy.ref_id().unwrap();
    match h.get(id) {
        Some(HeapData::List(l)) => assert_eq!(l.as_slice(), list.as_slice()),
        _ => panic!("expected list"),
    }
    assert_eq!(h.get_refcount(a.ref_id().unwrap()), 2);
}

#[test]
fn extend_takes_any_iterable() {
    let mut h = heap();
    let s = text(&mut h, "hi");
    let mut list = List::new(ints(&[1]));
    call(&mut list, StaticStrings::Extend, ArgValues::One(s), &mut h).unwrap();
    assert_eq!(list.len(), 3);
    assert!(list.contains_refs());
    let mut guard = DepthGuard::default();
    let interns = no_interns();
    assert_eq!(list.as_slice()[1].py_str(&h, &mut guard, &interns), "h");
    assert_eq!(list.as_slice()[2].py_str(&h, &mut guard, &interns), "i");
    let e = call(&mut list, StaticStrings::Extend, ArgValues::One(Value::Int(3)), &mut h).unwrap_err();
    assert_eq!(message(e), (ExcType::TypeError, "'int' object is not iterable".to_owned()));
}

#[test]
fn index_looks_between_bounds() {
    let mut h = heap();
    let mut list = List::new(ints(&[5, 6, 5, 6]));
    let found = call(&mut list, StaticStrings::Index, ArgValues::One(Value::Int(6)), &mut h);
    assert!(matches!(found, Ok(Value::Int(1))));
    let args = ArgValues::Two(Value::Int(5), Value::Int(1));
    let found = call(&mut list, StaticStrings::Index, args, &mut h);
    assert!(matches!(found, Ok(Value::Int(2))));
    let args = ArgValues::ArgsKargs {
        args: vec![Value::Int(6), Value::Int(-1), Value::Int(100)],
        kwargs: KwargsValues::Empty,
    };
    let found = call(&mut list, StaticStrings::Index, args, &mut h);
    assert!(matches!(found, Ok(Value::Int(3))));
    let args = ArgValues::ArgsKargs {
        args: vec![Value::Int(6), Value::Int(2), Value::Int(3)],
        kwargs: KwargsValues::Empty,
    };
    let e = call(&mut list, StaticStrings::Index, args, &mut h).unwrap_err();
    assert_eq!(message(e), (ExcType::ValueError, "list.index(x): x not in list".to_owned()));
}

#[test]
fn count_equal_items() {
    let mut h = heap();
    let mut list = List::new(vec![Value::Int(1), Value::Bool(true), Value::Int(2)]);
    let n = call(&mut list, StaticStrings::Count, ArgValues::One(Value::Int(1)), &mut h);
    assert!(matches!(n, Ok(Value::Int(2))));
}

#[test]
fn reverse_twice() {
    let mut h = heap();
    let mut list = List::new(ints(&[1, 2, 3]));
    call(&mut list, StaticStrings::Reverse, ArgValues::Empty, &mut h).unwrap();
    assert_eq!(list.as_slice(), ints(&[3, 2, 1]).as_slice());
    call(&mut list, StaticStrings::Reverse, ArgValues::Empty, &mut h).unwrap();
    assert_eq!(list.as_slice(), ints(&[1, 2, 3]).as_slice());
}

#[test]
fn wrong_number_of_arguments() {
    let mut h = heap();
    let mut list = List::new(vec![]);
    let e = call(&mut list, StaticStrings::Append, ArgValues::Empty, &mut h).unwrap_err();
    assert_eq!(
        message(e),
        (ExcType::TypeError, "list.append() expected 1 arguments, got 0".to_owned())
    );
    let e = call(&mut list, StaticStrings::Clear, ArgValues::One(Value::Int(1)), &mut h).unwrap_err();
    assert_eq!(
        message(e),
        (ExcType::TypeError, "list.clear() expected 0 arguments, got 1".to_owned())
    );
}

#[test]
fn unknown_attributes() {
    let mut h = heap();
    let mut list = List::new(vec![]);
    let e = call(&mut list, StaticStrings::Fromkeys, ArgValues::Empty, &mut h).unwrap_err();
    assert_eq!(
        message(e),
        (ExcType::AttributeError, "'list' object has no attribute 'fromkeys'".to_owned())
    );
    let attr = EitherStr::Heap("bogus".to_owned());
    let e = list.py_call_attr(&mut h, &attr, ArgValues::Empty, &no_interns()).unwrap_err();
    assert_eq!(
        message(e),
        (ExcType::AttributeError, "'list' object has no attribute 'bogus'".to_owned())
    );
    let attr = EitherStr::Interned(StaticStrings::Append.string_id());
    list.py_call_attr(&mut h, &attr, ArgValues::One(Value::Int(4)), &no_interns()).unwrap();
    assert_eq!(list.as_slice(), ints(&[4]).as_slice());
}

#[test]
fn normalized_indexes() {
    assert_eq!(normalize_list_index(2, 5), 2);
    assert_eq!(normalize_list_index(9, 5), 5);
    assert_eq!(normalize_list_index(-2, 5), 3);
    assert_eq!(normalize_list_index(-9, 5), 0);
    assert_eq!(normalize_list_index(i64::MIN, 5), 0);
}

#[test]
fn items_by_index() {
    let mut h = heap();
    let list = List::new(ints(&[10, 20, 30]));
    assert!(matches!(list.py_getitem(&Value::Int(0), &mut h), Ok(Value::Int(10))));
    assert!(matches!(list.py_getitem(&Value::Int(-1), &mut h), Ok(Value::Int(30))));
    assert!(matches!(list.py_getitem(&Value::Bool(true), &mut h), Ok(Value::Int(20))));
    let e = list.py_getitem(&Value::Int(3), &mut h).unwrap_err();
    assert_eq!(message(e), (ExcType::IndexError, "list index out of range".to_owned()));
    let e = list.py_getitem(&Value::PyNone, &mut h).unwrap_err();
    assert_eq!(
        message(e),
        (ExcType::TypeError, "list indices must be integers or slices, not NoneType".to_owned())
    );
}

#[test]
fn huge_index_does_not_fit() {
    let mut h = heap();
    let list = List::new(ints(&[10]));
    let huge = Value::Ref(h.allocate(HeapData::LongInt(LongInt::new(false, vec![0, 0, 0, 1]))).unwrap());
    let e = list.py_getitem(&huge, &mut h).unwrap_err();
    assert_eq!(
        message(e),
        (ExcType::IndexError, "cannot fit 'int' into an index-sized integer".to_owned())
    );
}

#[test]
fn slices_of_a_list() {
    let mut h = heap();
    let list = List::new(ints(&[0, 1, 2, 3, 4]));
    for (start, stop, step, expected) in [
        (None, None, None, vec![0, 1, 2, 3, 4]),
        (Some(1), Some(4), None, vec![1, 2, 3]),
        (Some(-2), None, None, vec![3, 4]),
        (None, None, Some(2), vec![0, 2, 4]),
        (None, None, Some(-1), vec![4, 3, 2, 1, 0]),
        (Some(3), Some(0), Some(-2), vec![3, 1]),
        (Some(9), None, None, vec![]),
    ] {
        let slice = Slice::new(start, stop, step);
        let key = Value::Ref(h.allocate(HeapData::Slice(slice)).unwrap());
        let got = list.py_getitem(&key, &mut h).unwrap();
        match h.get(got.ref_id().unwrap()) {
            Some(HeapData::List(l)) => assert_eq!(l.as_slice(), ints(&expected).as_slice()),
            _ => panic!("expected list"),
        }
    }
    let key = Value::Ref(h.allocate(HeapData::Slice(Slice::new(None, None, Some(0)))).unwrap());
    let e = list.py_getitem(&key, &mut h).unwrap_err();
    assert_eq!(message(e), (ExcType::ValueError, "slice step cannot be zero".to_owned()));
}

#[test]
fn assigned_items() {
    let mut h = heap();
    let s = text(&mut h, "x");
    let mut list = List::new(ints(&[1, 2]));
    list.py_setitem(Value::Int(-1), s, &mut h).unwrap();
    assert_eq!(list.as_slice(), &[Value::Int(1), s]);
    assert!(list.contains_refs());
    list.py_setitem(Value::Int(1), Value::Int(7), &mut h).unwrap();
    assert_eq!(list.as_slice(), ints(&[1, 7]).as_slice());
    assert_eq!(h.entry_count(), 0);
    let e = list.py_setitem(Value::Int(2), Value::Int(0), &mut h).unwrap_err();
    assert_eq!(message(e), (ExcType::IndexError, "list assignment index out of range".to_owned()));
}

#[test]
fn sums_of_lists() {
    let mut h = heap();
    let a = List::new(ints(&[1]));
    let b = List::new(ints(&[2, 3]));
    let sum = a.py_add(&b, &mut h).unwrap().unwrap();
    match h.get(sum.ref_id().unwrap()) {
        Some(HeapData::List(l)) => assert_eq!(l.as_slice(), ints(&[1, 2, 3]).as_slice()),
        _ => panic!("expected list"),
    }
}

#[test]
fn extending_in_place_by_itself() {
    let mut h = heap();
    let id = h.allocate(HeapData::List(List::new(ints(&[1, 2])))).unwrap();
    let mut list = match h.take_data(id) {
        Some(HeapData::List(l)) => l,
        _ => panic!("expected list"),
    };
    h.inc_ref(id);
    assert_eq!(list.py_iadd(Value::Ref(id), &mut h, Some(id)), Ok(true));
    assert_eq!(list.as_slice(), ints(&[1, 2, 1, 2]).as_slice());
    assert_eq!(list.py_iadd(Value::Int(1), &mut h, Some(id)), Ok(false));
}

#[test]
fn list_of_an_iterable() {
    let mut h = heap();
    let interns = no_interns();
    let empty = List::init(&mut h, ArgValues::Empty, &interns).unwrap();
    match h.get(empty.ref_id().unwrap()) {
        Some(HeapData::List(l)) => assert_eq!(l.len(), 0),
        _ => panic!("expected list"),
    }
    let s = text(&mut h, "ab");
    let made = List::init(&mut h, ArgValues::One(s), &interns).unwrap();
    let mut guard = DepthGuard::default();
    assert_eq!(made.py_str(&h, &mut guard, &interns), "['a', 'b']");
    let e = List::init(&mut h, ArgValues::One(Value::Int(1)), &interns).unwrap_err();
    assert_eq!(message(e), (ExcType::TypeError, "'int' object is not iterable".to_owned()));
}

#[test]
fn plain_readings_of_a_list() {
    let mut h = heap();
    let interns = no_interns();
    let mut list = List::new(ints(&[1, 2]));
    assert_eq!(list.py_len(), Some(2));
    assert!(list.py_bool());
    assert!(!List::new(vec![]).py_bool());
    assert_eq!(list.py_type(), Type::List);
    assert_eq!(
        list.py_estimate_size(),
        std::mem::size_of::<List>() + 2 * std::mem::size_of::<Value>()
    );
    let mut guard = DepthGuard::default();
    assert_eq!(list.py_eq(&List::new(ints(&[1, 2])), &h, &mut guard, &interns), Ok(true));
    assert_eq!(list.py_eq(&List::new(ints(&[1, 3])), &h, &mut guard, &interns), Ok(false));
    list.insert(&mut h, 9, Value::Int(5));
    list.as_vec_mut().push(Value::Int(6));
    list.set_contains_refs();
    assert!(list.contains_refs());
    let items: Vec<Value> = Vec::from(list);
    assert_eq!(items, ints(&[1, 2, 5, 6]));
}

#[test]
fn dropping_a_list_gives_up_its_items() {
    let mut h = heap();
    let a = text(&mut h, "a");
    let id = h.allocate(HeapData::List(List::new(vec![a]))).unwrap();
    let mut ids: Vec<HeapId> = vec![];
    match h.get(id) {
        Some(HeapData::List(l)) => l.py_dec_ref_ids(&mut ids),
        _ => panic!("expected list"),
    }
    assert_eq!(ids, vec![a.ref_id().unwrap()]);
    Value::Ref(id).drop_with_heap(&mut h);
    assert_eq!(h.entry_count(), 0);
}

#[test]
fn allocation_limit_is_reported() {
    let mut h = Heap::new(1, LimitedTracker::new(1, 10));
    let id = h.allocate(HeapData::List(List::new(vec![]))).unwrap();
    let mut list = match h.take_data(id) {
        Some(HeapData::List(l)) => l,
        _ => panic!("expected list"),
    };
    let e = call_list_method(&mut list, StaticStrings::Copy, ArgValues::Empty, &mut h, &no_interns()).unwrap_err();
    match e {
        RunError::UncatchableExc(raise) => assert_eq!(raise.exc.exc_type, ExcType::MemoryError),
        _ => panic!("expected an uncatchable error"),
    }
}

#[test]
fn builtins_by_name() {
    assert_eq!(Builtins::from_str("print"), Ok(Builtins::Function(BuiltinsFunctions::Print)));
    assert_eq!(Builtins::from_str("ValueError"), Ok(Builtins::ExcType(ExcType::ValueError)));
    assert_eq!(Builtins::from_str("list"), Ok(Builtins::Type(Type::List)));
    assert_eq!(Builtins::from_str("bogus"), Err(()));
    assert_eq!(Builtins::Function(BuiltinsFunctions::Len).py_type(), Type::BuiltinFunction);
    assert_eq!(Builtins::Type(Type::Int).py_type(), Type::Type);
    let mut shown = String::new();
    Builtins::Function(BuiltinsFunctions::Len).py_repr_fmt(&mut shown);
    Builtins::Type(Type::Int).py_repr_fmt(&mut shown);
    Builtins::ExcType(ExcType::KeyError).py_repr_fmt(&mut shown);
    assert_eq!(shown, "<built-in function len><class 'int'><class 'KeyError'>");
    assert_eq!(BuiltinsFunctions::from_repr(18), Some(BuiltinsFunctions::Print));
    assert_eq!(BuiltinsFunctions::from_repr(26), None);
    assert_eq!(Type::callable_from_u8(6), Some(Type::List));
    assert_eq!(Type::callable_from_u8(10), None);
}

#[test]
fn static_strings_come_first() {
    let interns = Interns::new(vec!["own".to_owned()], vec![], vec![], vec![], vec![]);
    assert_eq!(interns.get_str(StaticStrings::Sort.string_id()), "sort");
    assert_eq!(interns.get_str(StaticStrings::Module.string_id()), "<module>");
    assert_eq!(StaticStrings::from_string_id(StringId(0)), Some(StaticStrings::Append));
}

#[test]
fn insert_then_pop() {
    for at in 0..3 {
        let mut h = heap();
        let s = text(&mut h, "x");
        let mut list = List::new(ints(&[4, 5]));
        let args = ArgValues::Two(Value::Int(at), s);
        call(&mut list, StaticStrings::Insert, args, &mut h).unwrap();
        assert_eq!(list.len(), 3);
        let popped = call(&mut list, StaticStrings::Pop, ArgValues::One(Value::Int(at)), &mut h);
        assert_eq!(popped.unwrap(), s);
        assert_eq!(list.as_slice(), ints(&[4, 5]).as_slice());
        assert!(list.contains_refs());
    }
}

#[test]
fn what_is_counted_is_found() {
    let mut h = heap();
    let mut list = List::new(ints(&[3, 1, 3]));
    for (v, n, found) in [(3, 2, true), (1, 1, true), (2, 0, false)] {
        let counted = call(&mut list, StaticStrings::Count, ArgValues::One(Value::Int(v)), &mut h);
        assert_eq!(counted.unwrap(), Value::Int(n));
        match call(&mut list, StaticStrings::Index, ArgValues::One(Value::Int(v)), &mut h) {
            Ok(_) => assert!(found),
            Err(e) => {
                assert!(!found);
                assert_eq!(message(e).0, ExcType::ValueError);
            }
        }
        assert_eq!(list.as_slice(), ints(&[3, 1, 3]).as_slice());
    }
}
