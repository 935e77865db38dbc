use monty::heap::{Heap, HeapData};
use monty::ids::HeapId;
use monty::list::List;
use monty::long_int::LongInt;
use monty::resource::NoLimitTracker;
use monty::value::Value;

/// A heap with a list and an integer object to index it by.
fn create_heap_with_list_and_longint(
    list_items: Vec<Value>,
    index_value: i64,
) -> (Heap<NoLimitTracker>, HeapId, HeapId) {
    let mut heap = Heap::new(16, NoLimitTracker);
    let list_id = heap.allocate(HeapData::List(List::new(list_items))).unwrap();
    let index_id = heap.allocate(HeapData::LongInt(LongInt::from_i64(index_value))).unwrap();
    (heap, list_id, index_id)
}

/// Assigns to an item of the list on the heap.
fn set_item(heap: &mut Heap<NoLimitTracker>, list_id: HeapId, key: Value, value: Value) -> bool {
    match heap.take_data(list_id) {
        Some(HeapData::List(mut list)) => {
            let result = list.py_setitem(key, value, heap);
            heap.put_data(list_id, HeapData::List(list));
            result.is_ok()
        }
        _ => panic!("expected list"),
    }
}

/// The items of the list on the heap.
fn items(heap: &Heap<NoLimitTracker>, list_id: HeapId) -> Vec<Value> {
    match heap.get(list_id) {
        Some(HeapData::List(list)) => list.as_slice().to_vec(),
        _ => panic!("expected list"),
    }
}

#[test]
fn py_setitem_longint_fits_in_i64() {
    let (mut heap, list_id, index_id) =
        create_heap_with_list_and_longint(vec![Value::Int(10), Value::Int(20), Value::Int(30)], 1);
    heap.inc_ref(index_id);

    assert!(set_item(&mut heap, list_id, Value::Ref(index_id), Value::Int(99)));

    assert!(matches!(items(&heap, list_id)[1], Value::Int(99)));
    Value::Ref(list_id).drop_with_heap(&mut heap);
}

#[test]
fn py_setitem_longint_negative_fits_in_i64() {
    let (mut heap, list_id, index_id) =
        create_heap_with_list_and_longint(vec![Value::Int(10), Value::Int(20), Value::Int(30)], -1);
    heap.inc_ref(index_id);

    assert!(set_item(&mut heap, list_id, Value::Ref(index_id), Value::Int(99)));

    assert!(matches!(items(&heap, list_id)[2], Value::Int(99)));
    Value::Ref(list_id).drop_with_heap(&mut heap);
}

#[test]
fn py_setitem_longint_at_i64_max() {
    let (mut heap, list_id, index_id) =
        create_heap_with_list_and_longint(vec![Value::Int(10)], i64::MAX);
    heap.inc_ref(index_id);

    assert!(!set_item(&mut heap, list_id, Value::Ref(index_id), Value::Int(99)));

    Value::Ref(list_id).drop_with_heap(&mut heap);
}
