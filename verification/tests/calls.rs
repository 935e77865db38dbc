use monty::args::ArgValues;
use monty::builtins::{Builtins, BuiltinsFunctions};
use monty::containers::{Dict, Tuple};
use monty::error::{Fault, RunError};
use monty::frame::CallFrame;
use monty::heap::{Heap, HeapData};
use monty::ids::{ExtFunctionId, FunctionId, HeapId, ModuleFunctionId, NamespaceId, OsFunction, StringId};
use monty::interns::{Code, Function, Interns, StaticStrings};
use monty::list::List;
use monty::namespaces::Namespaces;
use monty::print::{CollectStringPrint, NoPrint};
use monty::resource::{DepthGuard, LimitedTracker, NoLimitTracker};
use monty::types::{ExcType, Type};
use monty::value::Value;
use monty::vm::call_result::{AttrCallResult, Binding, CallResult, Calling};
use monty::vm::VM;

fn code() -> Code {
    Code::new(vec![], vec![], vec![])
}

fn own(k: usize) -> StringId {
    let first = (0..1000).map(StringId).find(|id| StaticStrings::from_string_id(*id).is_none()).unwrap();
    StringId(first.0 + k)
}

fn function(is_async: bool) -> Function {
    Function {
        name: own(0),
        param_count: 2,
        namespace_size: 6,
        cell_param_indices: vec![Some(1), None],
        is_async,
        code: code(),
    }
}

fn interns() -> Interns {
    Interns::new(
        vec!["work".to_owned(), "sep".to_owned(), "upper".to_owned()],
        vec![],
        vec![],
        vec![function(false), function(true)],
        vec!["fetch".to_owned()],
    )
}

fn machine<'a>(interns: &'a Interns, code: &'a Code) -> VM<'a, NoLimitTracker> {
    let mut vm = VM::new(Heap::new(4, NoLimitTracker), Namespaces::new(vec![]), interns, code);
    vm.frames.push(CallFrame::new_module(0, NamespaceId(0)));
    vm
}

fn text(vm: &mut VM<NoLimitTracker>, s: &str) -> Value {
    Value::Ref(vm.heap.allocate(HeapData::Str(s.to_owned())).unwrap())
}

fn message(e: RunError) -> String {
    e.into_python_exception(&interns(), "").message.unwrap()
}

fn error(calling: Calling) -> RunError {
    match calling {
        Calling::Done(Err(e)) => e,
        _ => panic!("expected an error"),
    }
}

#[test]
fn builtins_are_called() {
    let (i, c) = (interns(), code());
    let mut vm = machine(&i, &c);
    let mut out = CollectStringPrint::new();
    vm.push(Value::Builtin(Builtins::Function(BuiltinsFunctions::Print)));
    vm.push(Value::Int(1));
    vm.push(Value::Int(2));
    vm.push(Value::Int(3));
    let r = vm.exec_call_function(3, &mut out);
    assert!(matches!(r, Calling::Done(Ok(CallResult::Push(Value::PyNone)))));
    assert_eq!(out.output(), "1 2 3\n");
    vm.push(Value::Builtin(Builtins::Function(BuiltinsFunctions::Len)));
    vm.push(Value::Int(1));
    match vm.exec_call_function(1, &mut out) {
        Calling::Builtin(Builtins::Function(BuiltinsFunctions::Len), ArgValues::One(Value::Int(1))) => {}
        _ => panic!("expected a call elsewhere"),
    }
    vm.push(Value::Int(4));
    assert!(matches!(vm.exec_call_builtin_function(18, 1, &mut out), Calling::Done(Ok(_))));
    assert_eq!(out.output(), "1 2 3\n4\n");
    let e = error(vm.exec_call_builtin_function(200, 0, &mut out));
    assert!(matches!(e, RunError::Internal(Fault::InvalidBuiltinId)));
    let e = error(vm.exec_call_builtin_type(200, 0, &mut out));
    assert!(matches!(e, RunError::Internal(Fault::InvalidTypeId)));
    match vm.exec_call_builtin_type(6, 0, &mut out) {
        Calling::Done(Ok(CallResult::Push(Value::Ref(id)))) => {
            assert!(matches!(vm.heap.get(id), Some(HeapData::List(_))));
        }
        _ => panic!("expected a list"),
    }
    match vm.exec_call_builtin_type(1, 0, &mut out) {
        Calling::Builtin(Builtins::Type(Type::Int), ArgValues::Empty) => {}
        _ => panic!("expected a call elsewhere"),
    }
}

#[test]
fn keyword_arguments_on_the_stack() {
    let (i, c) = (interns(), code());
    let mut vm = machine(&i, &c);
    let mut out = CollectStringPrint::new();
    let dash = text(&mut vm, "-");
    vm.push(Value::Builtin(Builtins::Function(BuiltinsFunctions::Print)));
    vm.push(Value::Int(1));
    vm.push(Value::Int(2));
    vm.push(dash);
    let r = vm.exec_call_function_kw(2, vec![own(1)], &mut out);
    assert!(matches!(r, Calling::Done(Ok(CallResult::Push(Value::PyNone)))));
    assert_eq!(out.output(), "1-2\n");
    assert_eq!(vm.stack, vec![]);
    assert_eq!(vm.heap.entry_count(), 0);
}

#[test]
fn packed_arguments() {
    let (i, c) = (interns(), code());
    let mut vm = machine(&i, &c);
    let mut out = CollectStringPrint::new();
    let plus = text(&mut vm, "+");
    let pos = Tuple::new(vec![Value::Int(1), Value::Int(2)]);
    let pos = Value::Ref(vm.heap.allocate(HeapData::Tuple(pos)).unwrap());
    let mut named = Dict::new();
    named.set(Value::InternString(own(1)), plus, &mut vm.heap, &i).unwrap();
    let named = Value::Ref(vm.heap.allocate(HeapData::Dict(named)).unwrap());
    vm.push(Value::Builtin(Builtins::Function(BuiltinsFunctions::Print)));
    vm.push(pos);
    vm.push(named);
    let r = vm.exec_call_function_extended(true, &mut out);
    assert!(matches!(r, Calling::Done(Ok(_))));
    assert_eq!(out.output(), "1+2\n");
    assert_eq!(vm.heap.entry_count(), 0);

    let list = Value::Ref(vm.heap.allocate(HeapData::List(List::new(vec![]))).unwrap());
    let pos = Tuple::new(vec![Value::Int(5)]);
    let pos = Value::Ref(vm.heap.allocate(HeapData::Tuple(pos)).unwrap());
    vm.heap.inc_ref(list.ref_id().unwrap());
    vm.push(list);
    vm.push(pos);
    let r = vm.exec_call_attr_extended(StaticStrings::Append.string_id(), false, &mut out);
    assert!(matches!(r, Calling::Done(Ok(CallResult::Push(Value::PyNone)))));
    match vm.heap.get(list.ref_id().unwrap()) {
        Some(HeapData::List(l)) => assert_eq!(l.as_slice(), &[Value::Int(5)]),
        _ => panic!("expected list"),
    }
}

#[test]
fn functions_of_the_host_and_of_modules() {
    let (i, c) = (interns(), code());
    let mut vm = machine(&i, &c);
    vm.push(Value::ExtFunction(ExtFunctionId::new(0)));
    vm.push(Value::Int(1));
    vm.push(Value::Int(2));
    match vm.exec_call_function(2, &mut NoPrint) {
        Calling::Done(Ok(CallResult::External(ExtFunctionId(0), ArgValues::Two(Value::Int(1), Value::Int(2))))) => {}
        _ => panic!("expected a call of the host"),
    }
    vm.push(Value::ModuleFunction(ModuleFunctionId(3)));
    assert!(matches!(
        vm.exec_call_function(0, &mut NoPrint),
        Calling::ModuleFunction(ModuleFunctionId(3), ArgValues::Empty)
    ));
    vm.push(Value::Int(1));
    let e = error(vm.exec_call_function(0, &mut NoPrint));
    assert_eq!(message(e), "object is not callable");
    let s = text(&mut vm, "x");
    vm.push(s);
    let e = error(vm.exec_call_function(0, &mut NoPrint));
    assert_eq!(message(e), "object is not callable");
    assert_eq!(vm.heap.entry_count(), 0);
}

fn binding(calling: Calling) -> (Binding, ArgValues) {
    match calling {
        Calling::Bind(b, args) => (b, args),
        _ => panic!("expected a binding"),
    }
}

#[test]
fn a_call_pushes_a_frame() {
    let (i, c) = (interns(), code());
    let mut vm = machine(&i, &c);
    let s = text(&mut vm, "x");
    let captured: HeapId = vm.heap.allocate(HeapData::Cell(Value::Int(8))).unwrap();
    let closure = HeapData::Closure(FunctionId(0), vec![captured], vec![Value::Int(9)]);
    let closure = Value::Ref(vm.heap.allocate(closure).unwrap());
    vm.push(closure);
    vm.push(s);
    let (b, args) = binding(vm.exec_call_function(1, &mut NoPrint));
    assert_eq!(b.func_id, FunctionId(0));
    assert_eq!(b.defaults, vec![Value::Int(9)]);
    assert!(matches!(args, ArgValues::One(v) if v == s));
    let r = vm.finish_call(b, vec![Value::Int(9), s], Ok(()));
    assert!(matches!(r, Calling::Done(Ok(CallResult::FramePushed))));
    assert_eq!(vm.frames.len(), 2);
    let frame = &vm.frames[1];
    assert_eq!(frame.namespace_idx, NamespaceId(1));
    assert_eq!(frame.cells.len(), 3);
    assert_eq!(frame.own_cells, 2);
    let values = vm.namespaces.get(NamespaceId(1)).unwrap().clone();
    assert_eq!(values.len(), 6);
    assert_eq!(values[0], Value::Int(9));
    assert_eq!(values[1], s);
    match vm.heap.get(values[2].ref_id().unwrap()) {
        Some(HeapData::Cell(v)) => assert_eq!(*v, s),
        _ => panic!("expected cell"),
    }
    match vm.heap.get(values[3].ref_id().unwrap()) {
        Some(HeapData::Cell(v)) => assert_eq!(*v, Value::Undefined),
        _ => panic!("expected cell"),
    }
    assert_eq!(values[4], Value::Ref(captured));
    assert_eq!(values[5], Value::Undefined);
    assert_eq!(vm.heap.get_refcount(s.ref_id().unwrap()), 2);
    assert_eq!(vm.heap.get_refcount(captured), 2);
    vm.pop_frame();
    assert_eq!(vm.heap.entry_count(), 0);
}

#[test]
fn arguments_that_cannot_be_bound() {
    let (i, c) = (interns(), code());
    let mut vm = machine(&i, &c);
    let s = text(&mut vm, "x");
    vm.push(Value::DefFunction(FunctionId(0)));
    let (b, _) = binding(vm.exec_call_function(0, &mut NoPrint));
    assert!(vm.namespaces.get(NamespaceId(1)).is_some());
    let refused = Err(RunError::type_error(Fault::NotCallable));
    let e = error(vm.finish_call(b, vec![s], refused));
    assert_eq!(message(e), "object is not callable");
    assert!(vm.namespaces.get(NamespaceId(1)).is_none());
    assert_eq!(vm.frames.len(), 1);
    assert_eq!(vm.heap.entry_count(), 0);
}

#[test]
fn an_async_call_makes_a_coroutine() {
    let (i, c) = (interns(), code());
    let mut vm = machine(&i, &c);
    let defaults = HeapData::FunctionDefaults(FunctionId(1), vec![Value::Int(3)]);
    let callable = Value::Ref(vm.heap.allocate(defaults).unwrap());
    vm.push(callable);
    let (b, _) = binding(vm.exec_call_function(0, &mut NoPrint));
    assert!(b.frame.is_none());
    let made = match vm.finish_call(b, vec![Value::Int(1), Value::Int(3)], Ok(())) {
        Calling::Done(Ok(CallResult::Push(Value::Ref(id)))) => id,
        _ => panic!("expected a coroutine"),
    };
    assert_eq!(vm.frames.len(), 1);
    match vm.heap.get(made) {
        Some(HeapData::Coroutine(c)) => {
            assert_eq!(c.namespace.len(), 6);
            assert_eq!(c.frame_cells.len(), 2);
        }
        _ => panic!("expected coroutine"),
    }
    Value::Ref(made).drop_with_heap(&mut vm.heap);
    assert_eq!(vm.heap.entry_count(), 0);
}

#[test]
fn calls_are_nested_only_so_deep() {
    let (i, c) = (interns(), code());
    let mut vm = VM::new(Heap::new(1, LimitedTracker::new(10, 1)), Namespaces::new(vec![]), &i, &c);
    vm.push(Value::DefFunction(FunctionId(0)));
    let (b, _) = binding(vm.exec_call_function(0, &mut NoPrint));
    assert!(b.frame.is_some());
    vm.push(Value::DefFunction(FunctionId(0)));
    match error(vm.exec_call_function(0, &mut NoPrint)) {
        RunError::UncatchableExc(raise) => assert_eq!(raise.exc.exc_type, ExcType::RecursionError),
        _ => panic!("expected an uncatchable error"),
    }
}

#[test]
fn methods_of_lists() {
    let (i, c) = (interns(), code());
    let mut vm = machine(&i, &c);
    let list = List::new(vec![Value::Int(3), Value::Int(-4)]);
    let list = Value::Ref(vm.heap.allocate(HeapData::List(list)).unwrap());
    let id = list.ref_id().unwrap();
    vm.heap.inc_ref(id);
    vm.push(list);
    vm.push(Value::Int(1));
    let r = vm.exec_call_attr(StaticStrings::Append.string_id(), 1, &mut NoPrint);
    assert!(matches!(r, Calling::Done(Ok(CallResult::Push(Value::PyNone)))));
    assert_eq!(vm.heap.get_refcount(id), 1);
    vm.heap.inc_ref(id);
    vm.push(list);
    let r = vm.exec_call_attr(StaticStrings::Sort.string_id(), 0, &mut NoPrint);
    assert!(matches!(r, Calling::Done(Ok(CallResult::Push(Value::PyNone)))));
    let mut guard = DepthGuard::default();
    assert_eq!(list.py_str(&vm.heap, &mut guard, &i), "[-4, 1, 3]");
    vm.heap.inc_ref(id);
    vm.push(list);
    let e = error(vm.exec_call_attr(own(2), 0, &mut NoPrint));
    assert_eq!(message(e), "'list' object has no attribute 'upper'");
    assert_eq!(vm.heap.get_refcount(id), 1);
}

#[test]
fn a_sort_asks_for_keys() {
    let i = Interns::new(vec!["key".to_owned()], vec![], vec![], vec![], vec![]);
    let c = code();
    let mut vm = machine(&i, &c);
    let list = List::new(vec![Value::Int(3), Value::Int(-4)]);
    let list = Value::Ref(vm.heap.allocate(HeapData::List(list)).unwrap());
    vm.heap.inc_ref(list.ref_id().unwrap());
    vm.push(list);
    vm.push(Value::Builtin(Builtins::Function(BuiltinsFunctions::Abs)));
    let mut calling = vm.exec_call_attr_kw(StaticStrings::Sort.string_id(), 0, vec![own(0)], &mut NoPrint);
    let mut rounds = 0;
    loop {
        match calling {
            Calling::SortKey(obj, job, _, ArgValues::One(Value::Int(k))) => {
                rounds += 1;
                calling = vm.resume_sort(obj, job, Ok(Value::Int(k.abs())), &mut NoPrint);
            }
            Calling::Done(Ok(CallResult::Push(Value::PyNone))) => break,
            _ => panic!("expected a key"),
        }
    }
    assert_eq!(rounds, 2);
    let mut guard = DepthGuard::default();
    assert_eq!(list.py_str(&vm.heap, &mut guard, &i), "[3, -4]");
    assert_eq!(vm.heap.get_refcount(list.ref_id().unwrap()), 1);
}

#[test]
fn methods_of_other_values() {
    let (i, c) = (interns(), code());
    let mut vm = machine(&i, &c);
    let s = text(&mut vm, "x");
    vm.push(s);
    match vm.exec_call_attr(own(2), 0, &mut NoPrint) {
        Calling::Method(obj, name, ArgValues::Empty) => {
            assert_eq!((obj, name), (s, own(2)));
            let r = vm.finish_method(obj, Ok(AttrCallResult::OsCall(OsFunction(1), ArgValues::Empty)));
            assert!(matches!(r, Ok(CallResult::OsCall(OsFunction(1), ArgValues::Empty))));
        }
        _ => panic!("expected a method"),
    }
    assert_eq!(vm.heap.entry_count(), 0);
    vm.push(Value::InternString(own(0)));
    assert!(matches!(vm.exec_call_attr(own(2), 0, &mut NoPrint), Calling::Method(_, _, _)));
    vm.push(Value::Builtin(Builtins::Type(Type::Dict)));
    assert!(matches!(
        vm.exec_call_attr(StaticStrings::Fromkeys.string_id(), 0, &mut NoPrint),
        Calling::Method(_, _, _)
    ));
    vm.push(Value::Builtin(Builtins::Type(Type::Bytes)));
    assert!(matches!(
        vm.exec_call_attr(StaticStrings::Fromhex.string_id(), 0, &mut NoPrint),
        Calling::Method(_, _, _)
    ));
    vm.push(Value::Builtin(Builtins::Type(Type::Bytes)));
    let e = error(vm.exec_call_attr(StaticStrings::Fromkeys.string_id(), 0, &mut NoPrint));
    assert_eq!(message(e), "'bytes' object has no attribute 'fromkeys'");
    vm.push(Value::Int(1));
    let e = error(vm.exec_call_attr(own(2), 0, &mut NoPrint));
    assert_eq!(message(e), "'int' object has no attribute 'upper'");
}
