use monty::args::{ArgValues, KwargsValues};
use monty::builtins::{Builtins, BuiltinsFunctions};
use monty::error::RunError;
use monty::heap::{Heap, HeapData};
use monty::ids::{FunctionId, HeapId, StringId};
use monty::interns::{Interns, StaticStrings};
use monty::list::List;
use monty::print::{CollectStringPrint, NoPrint};
use monty::resource::NoLimitTracker;
use monty::sort::{do_list_sort, resume_list_sort, SortStep};
use monty::types::{ExcType, Type};
use monty::value::Value;

fn interns() -> Interns {
    Interns::new(vec!["key".to_owned(), "reverse".to_owned(), "bogus".to_owned()], vec![], vec![], vec![], vec![])
}

fn own(k: usize) -> StringId {
    let first = (0..1000).map(StringId).find(|id| StaticStrings::from_string_id(*id).is_none()).unwrap();
    StringId(first.0 + k)
}

fn ints(values: &[i64]) -> Vec<Value> {
    values.iter().map(|i| Value::Int(*i)).collect()
}

fn list(heap: &mut Heap<NoLimitTracker>, items: Vec<Value>) -> HeapId {
    heap.allocate(HeapData::List(List::new(items))).unwrap()
}

fn items(heap: &Heap<NoLimitTracker>, id: HeapId) -> Vec<Value> {
    match heap.get(id) {
        Some(HeapData::List(l)) => l.as_slice().to_vec(),
        _ => panic!("expected list"),
    }
}

fn keywords(pairs: Vec<(usize, Value)>) -> ArgValues {
    ArgValues::Kwargs(KwargsValues::Inline(pairs.into_iter().map(|(k, v)| (own(k), v)).collect()))
}

fn message(e: RunError) -> (ExcType, String) {
    let x = e.into_python_exception(&interns(), "");
    (x.exc_type, x.message.unwrap())
}

fn sort(heap: &mut Heap<NoLimitTracker>, id: HeapId, args: ArgValues) -> SortStep {
    do_list_sort(id, args, heap, &interns(), &mut NoPrint)
}

#[test]
fn numbers_are_sorted() {
    let mut h = Heap::new(4, NoLimitTracker);
    let id = list(&mut h, ints(&[3, -1, 2, 2, 0]));
    assert!(matches!(sort(&mut h, id, ArgValues::Empty), SortStep::Done(Ok(()))));
    assert_eq!(items(&h, id), ints(&[-1, 0, 2, 2, 3]));
    let args = keywords(vec![(1, Value::Bool(true))]);
    assert!(matches!(sort(&mut h, id, args), SortStep::Done(Ok(()))));
    assert_eq!(items(&h, id), ints(&[3, 2, 2, 0, -1]));
}

#[test]
fn equal_items_keep_their_order() {
    let mut h = Heap::new(4, NoLimitTracker);
    let given = vec![Value::Int(1), Value::Bool(true), Value::Int(0), Value::Bool(false)];
    let id = list(&mut h, given.clone());
    assert!(matches!(sort(&mut h, id, ArgValues::Empty), SortStep::Done(Ok(()))));
    assert_eq!(items(&h, id), vec![Value::Int(0), Value::Bool(false), Value::Int(1), Value::Bool(true)]);
    let id = list(&mut h, given);
    let args = keywords(vec![(1, Value::Int(1))]);
    assert!(matches!(sort(&mut h, id, args), SortStep::Done(Ok(()))));
    assert_eq!(items(&h, id), vec![Value::Int(1), Value::Bool(true), Value::Int(0), Value::Bool(false)]);
}

#[test]
fn strings_are_sorted() {
    let mut h = Heap::new(4, NoLimitTracker);
    let words: Vec<Value> = ["pear", "apple", "fig", ""]
        .iter()
        .map(|s| Value::Ref(h.allocate(HeapData::Str((*s).to_owned())).unwrap()))
        .collect();
    let id = list(&mut h, words.clone());
    assert!(matches!(sort(&mut h, id, ArgValues::Empty), SortStep::Done(Ok(()))));
    assert_eq!(items(&h, id), vec![words[3], words[1], words[2], words[0]]);
}

#[test]
fn values_that_cannot_be_compared() {
    let mut h = Heap::new(4, NoLimitTracker);
    let given = vec![Value::Int(2), Value::PyNone];
    let id = list(&mut h, given.clone());
    match sort(&mut h, id, ArgValues::Empty) {
        SortStep::Done(Err(e)) => {
            let (class, text) = message(e);
            assert_eq!(class, ExcType::TypeError);
            assert!(text.starts_with("'<' not supported between instances of '"));
        }
        _ => panic!("expected an error"),
    }
    assert_eq!(items(&h, id), given);
}

#[test]
fn a_key_that_is_called_elsewhere() {
    let mut h = Heap::new(4, NoLimitTracker);
    let id = list(&mut h, ints(&[-3, 1, -2]));
    let abs = Value::Builtin(Builtins::Function(BuiltinsFunctions::Abs));
    let mut step = sort(&mut h, id, keywords(vec![(0, abs)]));
    assert_eq!(items(&h, id), vec![]);
    let mut asked = vec![];
    loop {
        match step {
            SortStep::NeedsKey(job, b, ArgValues::One(Value::Int(i))) => {
                assert_eq!(b, Builtins::Function(BuiltinsFunctions::Abs));
                asked.push(i);
                step = resume_list_sort(job, Ok(Value::Int(i.abs())), &mut h, &interns(), &mut NoPrint);
            }
            SortStep::Done(result) => {
                assert!(result.is_ok());
                break;
            }
            _ => panic!("expected a key"),
        }
    }
    assert_eq!(asked, vec![-3, 1, -2]);
    assert_eq!(items(&h, id), ints(&[1, -2, -3]));
}

#[test]
fn a_key_that_fails() {
    let mut h = Heap::new(4, NoLimitTracker);
    let id = list(&mut h, ints(&[2, 1]));
    let abs = Value::Builtin(Builtins::Function(BuiltinsFunctions::Abs));
    match sort(&mut h, id, keywords(vec![(0, abs)])) {
        SortStep::NeedsKey(job, _, _) => {
            let failed = Err(RunError::type_error(monty::error::Fault::NotCallable));
            let step = resume_list_sort(job, failed, &mut h, &interns(), &mut NoPrint);
            assert!(matches!(step, SortStep::Done(Err(_))));
        }
        _ => panic!("expected a key"),
    }
    assert_eq!(items(&h, id), ints(&[2, 1]));
}

#[test]
fn a_key_that_is_called_here() {
    let mut h = Heap::new(4, NoLimitTracker);
    let id = list(&mut h, ints(&[2]));
    let print = Value::Builtin(Builtins::Function(BuiltinsFunctions::Print));
    let mut out = CollectStringPrint::new();
    let step = do_list_sort(id, keywords(vec![(0, print)]), &mut h, &interns(), &mut out);
    assert!(matches!(step, SortStep::Done(Ok(()))));
    assert_eq!(out.output(), "2\n");
    assert_eq!(items(&h, id), ints(&[2]));
    let none = keywords(vec![(0, Value::PyNone)]);
    assert!(matches!(sort(&mut h, id, none), SortStep::Done(Ok(()))));
}

#[test]
fn keys_that_cannot_be_used() {
    let mut h = Heap::new(4, NoLimitTracker);
    let id = list(&mut h, ints(&[2, 1]));
    let args = keywords(vec![(0, Value::DefFunction(FunctionId(0)))]);
    match sort(&mut h, id, args) {
        SortStep::Done(Err(e)) => assert_eq!(
            message(e),
            (
                ExcType::TypeError,
                "list.sort() key argument must be a builtin function (user-defined functions not yet supported)"
                    .to_owned()
            )
        ),
        _ => panic!("expected an error"),
    }
    let args = keywords(vec![(0, Value::Int(1))]);
    match sort(&mut h, id, args) {
        SortStep::Done(Err(e)) => assert_eq!(
            message(e),
            (ExcType::TypeError, "list.sort() key must be callable or None".to_owned())
        ),
        _ => panic!("expected an error"),
    }
    assert_eq!(items(&h, id), ints(&[2, 1]));
}

#[test]
fn arguments_of_sort() {
    let mut h = Heap::new(4, NoLimitTracker);
    let id = list(&mut h, ints(&[2, 1]));
    match sort(&mut h, id, ArgValues::One(Value::Int(1))) {
        SortStep::Done(Err(e)) => {
            assert_eq!(message(e).1, "list.sort() expected 0 arguments, got 1");
        }
        _ => panic!("expected an error"),
    }
    match sort(&mut h, id, keywords(vec![(2, Value::Int(1))])) {
        SortStep::Done(Err(e)) => {
            assert_eq!(message(e).1, "list.sort() got an unexpected keyword argument 'bogus'");
        }
        _ => panic!("expected an error"),
    }
    let s = h.allocate(HeapData::Str("x".to_owned())).unwrap();
    match sort(&mut h, s, ArgValues::Empty) {
        SortStep::Done(Err(RunError::Internal(_))) => {}
        _ => panic!("expected an internal error"),
    }
    let ty = Value::Builtin(Builtins::Type(Type::Int));
    assert!(matches!(sort(&mut h, id, keywords(vec![(0, ty)])), SortStep::NeedsKey(_, _, _)));
}

#[test]
fn sorting_keeps_the_flag() {
    let mut h = Heap::new(4, NoLimitTracker);
    let flag = |h: &Heap<NoLimitTracker>, id: HeapId| match h.get(id) {
        Some(HeapData::List(l)) => l.contains_refs(),
        _ => panic!("expected list"),
    };
    let (b, a) = (
        Value::Ref(h.allocate(HeapData::Str("b".to_owned())).unwrap()),
        Value::Ref(h.allocate(HeapData::Str("a".to_owned())).unwrap()),
    );
    let id = list(&mut h, vec![b, a]);
    assert!(matches!(sort(&mut h, id, ArgValues::Empty), SortStep::Done(Ok(()))));
    assert_eq!(items(&h, id), vec![a, b]);
    assert!(flag(&h, id));
    let mixed = list(&mut h, vec![a, Value::Int(1)]);
    assert!(matches!(sort(&mut h, mixed, ArgValues::Empty), SortStep::Done(Err(_))));
    assert!(flag(&h, mixed));
    let abs = Value::Builtin(Builtins::Function(BuiltinsFunctions::Abs));
    match sort(&mut h, id, keywords(vec![(0, abs)])) {
        SortStep::NeedsKey(job, _, _) => {
            assert!(flag(&h, id));
            let failed = Err(RunError::type_error(monty::error::Fault::NotCallable));
            resume_list_sort(job, failed, &mut h, &interns(), &mut NoPrint);
        }
        _ => panic!("expected a key"),
    }
    assert_eq!(items(&h, id), vec![a, b]);
    assert!(flag(&h, id));
    let plain = list(&mut h, ints(&[2, 1]));
    assert!(matches!(sort(&mut h, plain, ArgValues::Empty), SortStep::Done(Ok(()))));
    assert!(!flag(&h, plain));
}
