use monty::args::ArgValues;
use monty::containers::{Dict, Range, Tuple};
use monty::error::{Fault, RunError, SimpleException};
use monty::heap::{Heap, HeapData};
use monty::ids::{BytesId, ExtFunctionId, LongIntId, OsFunction, StringId};
use monty::interns::{Code, Interns, StaticStrings};
use monty::list::List;
use monty::long_int::LongInt;
use monty::namespaces::Namespaces;
use monty::resource::{DepthGuard, NoLimitTracker};
use monty::types::ExcType;
use monty::value::Value;
use monty::vm::call_result::{AttrCallResult, CallResult};
use monty::vm::compare::OrderCheck;
use monty::vm::VM;

fn interns() -> Interns {
    Interns::new(
        vec!["name".to_owned(), "abc".to_owned()],
        vec![vec![1, 255]],
        vec![LongInt::new(false, vec![5])],
        vec![],
        vec![],
    )
}

fn own(k: usize) -> StringId {
    let first = (0..1000).map(StringId).find(|id| StaticStrings::from_string_id(*id).is_none()).unwrap();
    StringId(first.0 + k)
}

fn code() -> Code {
    Code::new(vec![], vec![], vec![])
}

fn machine<'a>(interns: &'a Interns, code: &'a Code, stack: &[Value]) -> VM<'a, NoLimitTracker> {
    let mut vm = VM::new(Heap::new(4, NoLimitTracker), Namespaces::new(vec![]), interns, code);
    for v in stack {
        vm.push(*v);
    }
    vm
}

fn text(vm: &mut VM<NoLimitTracker>, s: &str) -> Value {
    Value::Ref(vm.heap.allocate(HeapData::Str(s.to_owned())).unwrap())
}

fn list(vm: &mut VM<NoLimitTracker>, items: Vec<Value>) -> Value {
    Value::Ref(vm.heap.allocate(HeapData::List(List::new(items))).unwrap())
}

fn ints(values: &[i64]) -> Vec<Value> {
    values.iter().map(|i| Value::Int(*i)).collect()
}

fn top(vm: &VM<NoLimitTracker>) -> String {
    let mut guard = DepthGuard::default();
    vm.stack.last().unwrap().py_str(&vm.heap, &mut guard, &interns())
}

fn message(e: RunError) -> (ExcType, String) {
    let x = e.into_python_exception(&interns(), "");
    (x.exc_type, x.message.unwrap())
}

#[test]
fn containers_are_built_from_the_stack() {
    let (i, c) = (interns(), code());
    let mut vm = machine(&i, &c, &ints(&[9, 1, 2]));
    vm.build_list(2).unwrap();
    assert_eq!(vm.stack.len(), 2);
    assert_eq!(top(&vm), "[1, 2]");

    let mut vm = machine(&i, &c, &ints(&[1, 2, 3]));
    vm.build_tuple(3).unwrap();
    assert_eq!(top(&vm), "(1, 2, 3)");

    let mut vm = machine(&i, &c, &ints(&[1, 2, 1, 3]));
    vm.build_dict(2).unwrap();
    assert_eq!(top(&vm), "{1: 3}");

    let mut vm = machine(&i, &c, &ints(&[1, 2, 1]));
    vm.build_set(3).unwrap();
    assert_eq!(top(&vm), "{1, 2}");

    let mut vm = machine(&i, &c, &[Value::Int(1), Value::PyNone, Value::Int(-1)]);
    vm.build_slice().unwrap();
    assert_eq!(top(&vm), "slice(1, None, -1)");
}

#[test]
fn there_is_one_empty_tuple() {
    let (i, c) = (interns(), code());
    let mut vm = machine(&i, &c, &[]);
    vm.build_tuple(0).unwrap();
    vm.build_tuple(0).unwrap();
    assert_eq!(vm.stack[0], vm.stack[1]);
    assert_eq!(vm.heap.get_refcount(vm.stack[0].ref_id().unwrap()), 3);
}

#[test]
fn unhashable_keys() {
    let (i, c) = (interns(), code());
    let mut vm = machine(&i, &c, &[]);
    let l = list(&mut vm, vec![]);
    vm.push(l);
    vm.push(Value::Int(1));
    let e = vm.build_dict(1).unwrap_err();
    assert_eq!(message(e), (ExcType::TypeError, "unhashable type: 'list'".to_owned()));
    let l = list(&mut vm, vec![]);
    vm.push(l);
    let e = vm.build_set(1).unwrap_err();
    assert_eq!(message(e), (ExcType::TypeError, "unhashable type: 'list'".to_owned()));
}

#[test]
fn slice_bounds() {
    let (i, c) = (interns(), code());
    let mut vm = machine(&i, &c, &[]);
    let s = text(&mut vm, "x");
    vm.push(s);
    vm.push(Value::PyNone);
    vm.push(Value::PyNone);
    let e = vm.build_slice().unwrap_err();
    assert_eq!(
        message(e),
        (
            ExcType::TypeError,
            "slice indices must be integers or None or have an __index__ method".to_owned()
        )
    );
}

#[test]
fn lists_are_extended_and_turned_into_tuples() {
    let (i, c) = (interns(), code());
    let mut vm = machine(&i, &c, &[]);
    let l = list(&mut vm, ints(&[1]));
    let t = Value::Ref(vm.heap.allocate(HeapData::Tuple(Tuple::new(ints(&[2, 3])))).unwrap());
    vm.push(l);
    vm.push(t);
    vm.list_extend().unwrap();
    assert_eq!(top(&vm), "[1, 2, 3]");
    vm.push(Value::InternString(own(1)));
    vm.list_extend().unwrap();
    assert_eq!(top(&vm), "[1, 2, 3, 'a', 'b', 'c']");
    vm.list_to_tuple().unwrap();
    assert_eq!(top(&vm), "(1, 2, 3, 'a', 'b', 'c')");
    assert_eq!(vm.stack.len(), 1);
    vm.push(Value::Int(1));
    let e = vm.list_to_tuple().unwrap_err();
    assert!(matches!(e, RunError::Internal(Fault::ListToTupleExpectedRef)));
}

#[test]
fn extending_by_something_that_has_no_items() {
    let (i, c) = (interns(), code());
    let mut vm = machine(&i, &c, &[]);
    let l = list(&mut vm, ints(&[1]));
    vm.push(l);
    vm.push(Value::Int(5));
    let e = vm.list_extend().unwrap_err();
    assert_eq!(message(e).0, ExcType::TypeError);
}

#[test]
fn keyword_arguments_are_merged() {
    let (i, c) = (interns(), code());
    let mut vm = machine(&i, &c, &[]);
    let key = Value::InternString(own(0));
    let target = Value::Ref(vm.heap.allocate(HeapData::Dict(Dict::new())).unwrap());
    let mut given = Dict::new();
    given.set(key, Value::Int(1), &mut vm.heap, &i).unwrap();
    let given = Value::Ref(vm.heap.allocate(HeapData::Dict(given)).unwrap());
    vm.push(target);
    vm.push(given);
    vm.dict_merge(0xFFFF).unwrap();
    assert_eq!(top(&vm), "{'name': 1}");

    let mut again = Dict::new();
    again.set(key, Value::Int(2), &mut vm.heap, &i).unwrap();
    let again = Value::Ref(vm.heap.allocate(HeapData::Dict(again)).unwrap());
    vm.push(again);
    let e = vm.dict_merge(0xFFFF).unwrap_err();
    assert_eq!(message(e).0, ExcType::TypeError);
}

#[test]
fn only_mappings_with_string_keys_are_merged() {
    let (i, c) = (interns(), code());
    let mut vm = machine(&i, &c, &[]);
    let target = Value::Ref(vm.heap.allocate(HeapData::Dict(Dict::new())).unwrap());
    vm.push(target);
    vm.push(Value::Int(3));
    let e = vm.dict_merge(own(0).0 as u16).unwrap_err();
    assert_eq!(
        message(e),
        (ExcType::TypeError, "name() argument after ** must be a mapping, not int".to_owned())
    );
    let target = Value::Ref(vm.heap.allocate(HeapData::Dict(Dict::new())).unwrap());
    let mut given = Dict::new();
    given.set(Value::Int(1), Value::Int(1), &mut vm.heap, &i).unwrap();
    let given = Value::Ref(vm.heap.allocate(HeapData::Dict(given)).unwrap());
    vm.push(target);
    vm.push(given);
    let e = vm.dict_merge(0xFFFF).unwrap_err();
    assert_eq!(message(e), (ExcType::TypeError, "keywords must be strings".to_owned()));
}

#[test]
fn comprehensions_fill_containers_below() {
    let (i, c) = (interns(), code());
    let mut vm = machine(&i, &c, &[]);
    let l = list(&mut vm, vec![]);
    vm.push(l);
    vm.push(Value::Int(7));
    vm.push(Value::Int(1));
    vm.list_append(1).unwrap();
    assert_eq!(vm.stack.len(), 2);
    vm.pop();
    assert_eq!(top(&vm), "[1]");

    let mut vm = machine(&i, &c, &[]);
    vm.build_set(0).unwrap();
    vm.push(Value::Int(1));
    vm.set_add(0).unwrap();
    vm.push(Value::Bool(true));
    vm.set_add(0).unwrap();
    assert_eq!(top(&vm), "{1}");

    let mut vm = machine(&i, &c, &[]);
    vm.build_dict(0).unwrap();
    vm.push(Value::Int(1));
    vm.push(Value::Int(2));
    vm.dict_set_item(0).unwrap();
    assert_eq!(top(&vm), "{1: 2}");

    vm.push(Value::Int(5));
    let e = vm.list_append(0).unwrap_err();
    assert!(matches!(e, RunError::Internal(Fault::ListAppendExpectedList)));
    vm.push(Value::Int(5));
    let e = vm.set_add(0).unwrap_err();
    assert!(matches!(e, RunError::Internal(Fault::SetAddExpectedSet)));
}

#[test]
fn sequences_are_unpacked_in_order() {
    let (i, c) = (interns(), code());
    let mut vm = machine(&i, &c, &[]);
    let l = list(&mut vm, ints(&[1, 2, 3]));
    vm.push(l);
    vm.unpack_sequence(3).unwrap();
    assert_eq!(vm.stack, ints(&[3, 2, 1]));
    assert_eq!(vm.heap.entry_count(), 0);

    let l = list(&mut vm, ints(&[1]));
    vm.push(l);
    let e = vm.unpack_sequence(2).unwrap_err();
    assert_eq!(
        message(e),
        (ExcType::ValueError, "not enough values to unpack (expected 2, got 1)".to_owned())
    );
    let l = list(&mut vm, ints(&[1, 2, 3]));
    vm.push(l);
    let e = vm.unpack_sequence(2).unwrap_err();
    assert_eq!(
        message(e),
        (ExcType::ValueError, "too many values to unpack (expected 2, got 3)".to_owned())
    );
    vm.push(Value::Int(3));
    let e = vm.unpack_sequence(2).unwrap_err();
    assert_eq!(
        message(e),
        (ExcType::TypeError, "cannot unpack non-iterable int object".to_owned())
    );
}

#[test]
fn starred_targets_take_the_rest() {
    let (i, c) = (interns(), code());
    let mut vm = machine(&i, &c, &[]);
    let l = list(&mut vm, ints(&[1, 2, 3, 4]));
    vm.push(l);
    vm.unpack_ex(1, 1).unwrap();
    assert_eq!(vm.pop(), Value::Int(1));
    assert_eq!(top(&vm), "[2, 3]");
    vm.pop();
    assert_eq!(vm.pop(), Value::Int(4));

    let l = list(&mut vm, ints(&[1]));
    vm.push(l);
    let e = vm.unpack_ex(1, 1).unwrap_err();
    assert_eq!(
        message(e),
        (
            ExcType::ValueError,
            "not enough values to unpack (expected at least 2, got 1)".to_owned()
        )
    );
}

#[test]
fn lists_are_added() {
    let (i, c) = (interns(), code());
    let mut vm = machine(&i, &c, &[]);
    let a = list(&mut vm, ints(&[1]));
    let b = list(&mut vm, ints(&[2]));
    vm.push(a);
    vm.push(b);
    vm.binary_add(Ok(None)).unwrap();
    assert_eq!(top(&vm), "[1, 2]");
    assert_eq!(vm.heap.entry_count(), 1);
    let more = list(&mut vm, ints(&[3]));
    let before = *vm.stack.last().unwrap();
    vm.push(more);
    vm.inplace_add(Ok(None)).unwrap();
    assert_eq!(top(&vm), "[1, 2, 3]");
    assert_eq!(*vm.stack.last().unwrap(), before);
    assert_eq!(vm.heap.entry_count(), 1);
}

#[test]
fn other_operands() {
    let (i, c) = (interns(), code());
    let mut vm = machine(&i, &c, &ints(&[1, 2]));
    vm.binary_sub(Ok(Some(Value::Int(-1)))).unwrap();
    assert_eq!(vm.stack, ints(&[-1]));
    vm.push(Value::PyNone);
    let e = vm.binary_mult(Ok(None)).unwrap_err();
    assert_eq!(
        message(e),
        (ExcType::TypeError, "unsupported operand type(s) for *: 'int' and 'NoneType'".to_owned())
    );
    assert_eq!(vm.stack, vec![]);
    for (k, symbol) in [(0, "/"), (1, "//"), (2, "%"), (3, "** or pow()"), (4, "+"), (5, "+="), (6, "-")] {
        vm.push(Value::PyNone);
        vm.push(Value::Int(1));
        let e = match k {
            0 => vm.binary_div(Ok(None)),
            1 => vm.binary_floordiv(Ok(None)),
            2 => vm.binary_mod(Ok(None)),
            3 => vm.binary_pow(Ok(None)),
            4 => vm.binary_add(Ok(None)),
            5 => vm.inplace_add(Ok(None)),
            _ => vm.binary_sub(Ok(None)),
        }
        .unwrap_err();
        assert_eq!(
            message(e).1,
            format!("unsupported operand type(s) for {symbol}: 'NoneType' and 'int'")
        );
    }
    vm.push(Value::Int(6));
    vm.push(Value::Int(3));
    vm.binary_bitwise(Ok(Value::Int(2))).unwrap();
    assert_eq!(vm.stack, ints(&[2]));
    vm.push(Value::Int(3));
    let e = vm.binary_matmul().unwrap_err();
    assert_eq!(message(e).1, "matrix multiplication (@) is not supported");
}

#[test]
fn equality() {
    let (i, c) = (interns(), code());
    let mut vm = machine(&i, &c, &[]);
    for (a, b, same) in [
        (Value::Int(1), Value::Bool(true), true),
        (Value::Int(1), Value::Int(2), false),
        (Value::PyNone, Value::Int(0), false),
        (Value::InternLongInt(LongIntId(0)), Value::Int(5), true),
    ] {
        vm.push(a);
        vm.push(b);
        vm.compare_eq().unwrap();
        assert_eq!(vm.pop(), Value::Bool(same));
        vm.push(a);
        vm.push(b);
        vm.compare_ne().unwrap();
        assert_eq!(vm.pop(), Value::Bool(!same));
    }
    let a = list(&mut vm, ints(&[1, 2]));
    let b = list(&mut vm, ints(&[1, 2]));
    vm.push(a);
    vm.push(b);
    vm.compare_eq().unwrap();
    assert_eq!(vm.pop(), Value::Bool(true));
    assert_eq!(vm.heap.entry_count(), 0);
}

#[test]
fn order_of_values() {
    let (i, c) = (interns(), code());
    let mut vm = machine(&i, &c, &[]);
    for (check, results) in [
        (OrderCheck::Lt, [true, false, false]),
        (OrderCheck::Le, [true, true, false]),
        (OrderCheck::Gt, [false, false, true]),
        (OrderCheck::Ge, [false, true, true]),
    ] {
        for (k, (a, b)) in [(1, 2), (2, 2), (3, 2)].into_iter().enumerate() {
            vm.push(Value::Int(a));
            vm.push(Value::Int(b));
            vm.compare_ord(check).unwrap();
            assert_eq!(vm.pop(), Value::Bool(results[k]));
        }
        vm.push(Value::PyNone);
        vm.push(Value::Int(1));
        vm.compare_ord(check).unwrap();
        assert_eq!(vm.pop(), Value::Bool(false));
    }
}

#[test]
fn identity_and_membership() {
    let (i, c) = (interns(), code());
    let mut vm = machine(&i, &c, &[]);
    let l = list(&mut vm, vec![]);
    vm.heap.inc_ref(l.ref_id().unwrap());
    vm.push(l);
    vm.push(l);
    vm.compare_is(false);
    assert_eq!(vm.pop(), Value::Bool(true));
    vm.push(Value::Int(1));
    vm.push(Value::PyNone);
    vm.compare_is(true);
    assert_eq!(vm.pop(), Value::Bool(true));
    vm.push(Value::Int(1));
    vm.push(Value::PyNone);
    vm.compare_in(false, Ok(true)).unwrap();
    assert_eq!(vm.pop(), Value::Bool(true));
    vm.push(Value::Int(1));
    vm.push(Value::PyNone);
    vm.compare_in(true, Ok(true)).unwrap();
    assert_eq!(vm.pop(), Value::Bool(false));
    vm.push(Value::Int(1));
    vm.push(Value::PyNone);
    assert!(vm.compare_in(true, Err(RunError::type_error(Fault::NotCallable))).is_err());
    assert_eq!(vm.stack, vec![]);
}

#[test]
fn remainders_are_compared() {
    let (i, c) = (interns(), code());
    let mut vm = machine(&i, &c, &[]);
    for (a, b, k, same) in [
        (7, 3, 1, true),
        (-7, 3, 2, true),
        (7, -3, -2, true),
        (-7, -3, -1, true),
        (6, -3, 0, true),
        (i64::MIN, -1, 0, true),
        (7, 3, 2, false),
    ] {
        vm.push(Value::Int(a));
        vm.push(Value::Int(b));
        vm.compare_mod_eq(&Value::Int(k), Ok(None)).unwrap();
        assert_eq!(vm.pop(), Value::Bool(same));
    }
    vm.push(Value::Int(1));
    vm.push(Value::Int(0));
    let e = vm.compare_mod_eq(&Value::Int(0), Ok(None)).unwrap_err();
    assert_eq!(message(e).1, "unsupported operand type(s) for %");
    vm.push(Value::Int(1));
    vm.push(Value::PyNone);
    vm.compare_mod_eq(&Value::InternLongInt(LongIntId(0)), Ok(Some(Value::Int(5)))).unwrap();
    assert_eq!(vm.pop(), Value::Bool(true));
}

#[test]
fn attributes() {
    let (i, c) = (interns(), code());
    let mut vm = machine(&i, &c, &[]);
    let obj = text(&mut vm, "x");
    vm.push(obj);
    let r = vm.load_attr(Ok(AttrCallResult::Value(Value::Int(3)))).unwrap();
    assert!(matches!(r, CallResult::Push(Value::Int(3))));
    assert_eq!(vm.heap.entry_count(), 0);

    vm.push(Value::PyNone);
    let r = vm.load_attr(Ok(AttrCallResult::OsCall(OsFunction(2), ArgValues::Empty))).unwrap();
    assert!(matches!(r, CallResult::OsCall(OsFunction(2), ArgValues::Empty)));
    vm.push(Value::PyNone);
    let got = AttrCallResult::ExternalCall(ExtFunctionId::new(1), ArgValues::Empty);
    let r = vm.load_attr(Ok(got)).unwrap();
    assert!(matches!(r, CallResult::External(ExtFunctionId(1), ArgValues::Empty)));

    let obj = text(&mut vm, "x");
    vm.push(Value::Int(1));
    vm.push(obj);
    vm.store_attr(Ok(())).unwrap();
    assert_eq!(vm.heap.entry_count(), 0);
    assert_eq!(vm.stack, vec![]);
}

#[test]
fn missing_attributes_of_modules() {
    let (i, c) = (interns(), code());
    let mut vm = machine(&i, &c, &[Value::PyNone]);
    let missing = RunError::raise(SimpleException::new_none(ExcType::AttributeError));
    let e = vm.load_attr_import(own(0), Err(missing), "math".to_owned()).unwrap_err();
    assert_eq!(
        message(e),
        (ExcType::ImportError, "cannot import name 'name' from 'math'".to_owned())
    );
    vm.push(Value::PyNone);
    let other = RunError::type_error(Fault::NotCallable);
    let e = vm.load_attr_import(own(0), Err(other), "math".to_owned()).unwrap_err();
    assert_eq!(message(e).0, ExcType::TypeError);
}

#[test]
fn lists_are_extended_by_ranges_and_bytes() {
    let (i, c) = (interns(), code());
    let mut vm = machine(&i, &c, &[]);
    let l = list(&mut vm, ints(&[0]));
    vm.push(l);
    let range = HeapData::Range(Range { start: 5, stop: 0, step: -2 });
    let range = Value::Ref(vm.heap.allocate(range).unwrap());
    vm.push(range);
    vm.list_extend().unwrap();
    assert_eq!(top(&vm), "[0, 5, 3, 1]");
    let bytes = Value::Ref(vm.heap.allocate(HeapData::Bytes(vec![7, 200])).unwrap());
    vm.push(bytes);
    vm.list_extend().unwrap();
    assert_eq!(top(&vm), "[0, 5, 3, 1, 7, 200]");
    vm.push(Value::InternBytes(BytesId(0)));
    vm.list_extend().unwrap();
    assert_eq!(top(&vm), "[0, 5, 3, 1, 7, 200, 1, 255]");
    assert_eq!(vm.stack, vec![l]);
    assert_eq!(vm.heap.entry_count(), 1);
}

#[test]
fn a_list_is_extended_by_itself() {
    let (i, c) = (interns(), code());
    let mut vm = machine(&i, &c, &[]);
    let s = text(&mut vm, "s");
    let l = list(&mut vm, vec![Value::Int(1), s]);
    vm.push(l);
    let again = l.clone_with_heap(&mut vm.heap);
    vm.push(again);
    vm.list_extend().unwrap();
    assert_eq!(top(&vm), "[1, 's', 1, 's']");
    assert_eq!(vm.stack, vec![l]);
}

#[test]
fn extending_by_references_raises_the_flag() {
    let (i, c) = (interns(), code());
    let mut vm = machine(&i, &c, &[]);
    let l = list(&mut vm, ints(&[1]));
    vm.push(l);
    let id = match l {
        Value::Ref(id) => id,
        _ => panic!("expected a reference"),
    };
    let flag = |vm: &VM<NoLimitTracker>| match vm.heap.get(id) {
        Some(HeapData::List(l)) => l.contains_refs(),
        _ => panic!("expected list"),
    };
    let t = Value::Ref(vm.heap.allocate(HeapData::Tuple(Tuple::new(ints(&[2])))).unwrap());
    vm.push(t);
    vm.list_extend().unwrap();
    assert!(!flag(&vm));
    let s = text(&mut vm, "ab");
    vm.push(s);
    vm.list_extend().unwrap();
    assert_eq!(top(&vm), "[1, 2, 'a', 'b']");
    assert!(flag(&vm));
    vm.push(Value::InternBytes(BytesId(0)));
    vm.list_extend().unwrap();
    assert!(flag(&vm));
}

#[test]
fn comparing_a_remainder_is_taking_and_comparing_it() {
    let (i, c) = (interns(), code());
    for (a, b, m, k) in [(7, 3, 1, 1), (-7, 3, 2, 1), (7, -3, -2, -2), (i64::MIN, -1, 0, 0)] {
        let mut once = machine(&i, &c, &ints(&[9, a, b]));
        once.compare_mod_eq(&Value::Int(k), Ok(Some(Value::Int(m)))).unwrap();
        let mut twice = machine(&i, &c, &ints(&[9, a, b]));
        twice.binary_mod(Ok(Some(Value::Int(m)))).unwrap();
        twice.push(Value::Int(k));
        twice.compare_eq().unwrap();
        assert_eq!(once.stack, twice.stack);
        assert_eq!(once.stack, vec![Value::Int(9), Value::Bool(m == k)]);
    }
    let given = [Value::Int(9), Value::PyNone, Value::Int(2)];
    let mut once = machine(&i, &c, &given);
    let e = once.compare_mod_eq(&Value::Int(0), Ok(None)).unwrap_err();
    let mut twice = machine(&i, &c, &given);
    let f = twice.binary_mod(Ok(None)).unwrap_err();
    assert_eq!(message(e).0, ExcType::TypeError);
    assert_eq!(message(f).0, ExcType::TypeError);
    assert_eq!(once.stack, ints(&[9]));
    assert_eq!(twice.stack, ints(&[9]));
}
