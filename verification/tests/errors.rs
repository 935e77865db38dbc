use monty::builtins::Builtins;
use monty::containers::Tuple;
use monty::error::{CodeRange, Fault, Message, RawStackFrame, RunError, SimpleException};
use monty::exception::MontyException;
use monty::frame::CallFrame;
use monty::heap::{Heap, HeapData};
use monty::ids::{FunctionId, NamespaceId, StringId};
use monty::interns::{Code, ExceptionEntry, Function, Interns, StaticStrings};
use monty::namespaces::Namespaces;
use monty::resource::{NoLimitTracker, ResourceError};
use monty::text::find_line;
use monty::types::ExcType;
use monty::value::Value;
use monty::vm::VM;

fn line(n: u32) -> CodeRange {
    CodeRange { start_line: n, start_column: 1, end_line: n, end_column: 9 }
}

fn own(k: usize) -> StringId {
    let first = (0..1000).map(StringId).find(|id| StaticStrings::from_string_id(*id).is_none()).unwrap();
    StringId(first.0 + k)
}

/// A module whose second instruction is protected, and a function without handlers.
fn module() -> Code {
    Code::new(
        vec![],
        vec![ExceptionEntry { start: 5, end: 8, handler: 40, stack_depth: 1 }],
        vec![(0, line(1)), (5, line(2))],
    )
}

fn interns() -> Interns {
    let f = Function {
        name: own(0),
        param_count: 0,
        namespace_size: 0,
        cell_param_indices: vec![],
        is_async: false,
        code: Code::new(vec![], vec![], vec![(0, line(10))]),
    };
    Interns::new(vec!["work".to_owned()], vec![], vec![], vec![f], vec![])
}

fn machine<'a>(interns: &'a Interns, code: &'a Code) -> VM<'a, NoLimitTracker> {
    let mut vm = VM::new(Heap::new(4, NoLimitTracker), Namespaces::new(vec![]), interns, code);
    vm.frames.push(CallFrame::new_module(0, NamespaceId(0)));
    vm
}

fn call(vm: &mut VM<NoLimitTracker>, at: u32) {
    let id = vm.namespaces.new_namespace(&vm.heap).unwrap();
    let base = vm.stack.len();
    vm.frames.push(CallFrame::new_function(base, id, FunctionId(0), vec![], 0, Some(line(at)), vm.instruction_ip));
}

fn info(e: RunError) -> MontyException {
    e.into_python_exception(&interns(), "")
}

#[test]
fn a_handler_gets_the_exception() {
    let (i, c) = (interns(), module());
    let mut vm = machine(&i, &c);
    let s = Value::Ref(vm.heap.allocate(HeapData::Str("x".to_owned())).unwrap());
    vm.push(Value::Int(1));
    vm.push(s);
    vm.push(Value::Int(3));
    vm.instruction_ip = 6;
    assert!(vm.handle_exception(RunError::fault(ExcType::ValueError, Fault::NotCallable)).is_none());
    assert_eq!(vm.stack.len(), 2);
    assert_eq!(vm.stack[0], Value::Int(1));
    assert_eq!(vm.exception_stack, vec![vm.stack[1]]);
    assert_eq!(vm.frames[0].ip, 40);
    assert_eq!(vm.heap.get_refcount(vm.stack[1].ref_id().unwrap()), 2);
    assert_eq!(vm.heap.entry_count(), 1);
}

#[test]
fn an_exception_passes_through_calls() {
    let (i, c) = (interns(), module());
    let mut vm = machine(&i, &c);
    call(&mut vm, 2);
    call(&mut vm, 11);
    vm.instruction_ip = 0;
    let e = vm.handle_exception(RunError::fault(ExcType::ValueError, Fault::NotCallable)).unwrap();
    assert_eq!(vm.frames.len(), 1);
    assert!(vm.namespaces.get(NamespaceId(1)).is_none());
    let x = info(e);
    assert_eq!(x.exc_type, ExcType::ValueError);
    assert_eq!(x.message.as_deref(), Some("object is not callable"));
    let lines: Vec<(u32, &str)> =
        x.traceback.iter().map(|l| (l.position.start_line, l.frame_name.as_str())).collect();
    assert_eq!(lines, vec![(2, "<module>"), (11, "work"), (10, "work")]);
    assert_eq!(vm.heap.entry_count(), 0);
}

#[test]
fn a_handler_of_the_caller_encloses_the_call() {
    let (i, c) = (interns(), module());
    let mut vm = machine(&i, &c);
    vm.push(Value::Int(1));
    vm.push(Value::Int(2));
    vm.instruction_ip = 6;
    call(&mut vm, 2);
    vm.push(Value::Int(3));
    vm.instruction_ip = 20;
    call(&mut vm, 11);
    vm.instruction_ip = 0;
    assert!(vm.handle_exception(RunError::fault(ExcType::ValueError, Fault::NotCallable)).is_none());
    assert_eq!(vm.frames.len(), 1);
    assert_eq!(vm.frames[0].ip, 40);
    assert_eq!(vm.stack.len(), 2);
    assert_eq!(vm.stack[0], Value::Int(1));
    match vm.heap.get(vm.stack[1].ref_id().unwrap()) {
        Some(HeapData::Exception(e)) => assert_eq!(e.exc_type, ExcType::ValueError),
        _ => panic!("expected exception"),
    }
}

#[test]
fn a_call_outside_a_protected_stretch_is_not_caught() {
    let (i, c) = (interns(), module());
    let mut vm = machine(&i, &c);
    vm.instruction_ip = 8;
    call(&mut vm, 2);
    vm.instruction_ip = 6;
    let e = vm.handle_exception(RunError::fault(ExcType::ValueError, Fault::NotCallable));
    assert!(e.is_some());
}

#[test]
fn resource_errors_are_not_caught() {
    let (i, c) = (interns(), module());
    let mut vm = machine(&i, &c);
    call(&mut vm, 2);
    vm.instruction_ip = 6;
    let e = vm.handle_exception(RunError::resource(ResourceError::Recursion { limit: 9 })).unwrap();
    assert_eq!(vm.frames.len(), 1);
    let x = info(e);
    assert_eq!(x.exc_type, ExcType::RecursionError);
    assert_eq!(x.traceback.len(), 2);
    let e = vm.handle_exception(RunError::internal(Fault::InvalidTypeId)).unwrap();
    assert!(matches!(e, RunError::Internal(Fault::InvalidTypeId)));
}

#[test]
fn raising_values() {
    let (i, c) = (interns(), module());
    let mut vm = machine(&i, &c);
    vm.instruction_ip = 5;
    let exc = SimpleException::new_msg(ExcType::KeyError, Message::Text("k".to_owned()));
    let v = Value::Ref(vm.heap.allocate(HeapData::Exception(exc)).unwrap());
    let e = vm.make_exception(v, true);
    assert_eq!(vm.heap.entry_count(), 0);
    let x = info(e);
    assert_eq!((x.exc_type, x.message.as_deref()), (ExcType::KeyError, Some("k")));
    assert!(x.traceback[0].hide_caret);
    assert_eq!(x.traceback[0].position, line(2));

    let e = vm.make_exception(Value::Builtin(Builtins::ExcType(ExcType::OSError)), false);
    let x = info(e);
    assert_eq!((x.exc_type, x.message), (ExcType::OSError, None));
    assert!(!x.traceback[0].hide_caret);

    let e = vm.make_exception(Value::Int(1), true);
    let x = info(e);
    assert_eq!(
        (x.exc_type, x.message.as_deref()),
        (ExcType::TypeError, Some("exceptions must derive from BaseException"))
    );
}

#[test]
fn clauses_catch_subclasses() {
    let (i, c) = (interns(), module());
    let mut vm = machine(&i, &c);
    let exc = SimpleException::new_none(ExcType::KeyError);
    let exc = Value::Ref(vm.heap.allocate(HeapData::Exception(exc)).unwrap());
    let class = |e| Value::Builtin(Builtins::ExcType(e));
    assert!(matches!(vm.check_exc_match(&exc, &class(ExcType::KeyError)), Ok(true)));
    assert!(matches!(vm.check_exc_match(&exc, &class(ExcType::LookupError)), Ok(true)));
    assert!(matches!(vm.check_exc_match(&exc, &class(ExcType::BaseException)), Ok(true)));
    assert!(matches!(vm.check_exc_match(&exc, &class(ExcType::IndexError)), Ok(false)));
    let inner = Tuple::new(vec![class(ExcType::KeyError)]);
    let inner = Value::Ref(vm.heap.allocate(HeapData::Tuple(inner)).unwrap());
    let tuple = Tuple::new(vec![class(ExcType::IndexError), inner]);
    let tuple = Value::Ref(vm.heap.allocate(HeapData::Tuple(tuple)).unwrap());
    assert!(matches!(vm.check_exc_match(&exc, &tuple), Ok(true)));
    let empty = Value::Ref(vm.heap.allocate(HeapData::Tuple(Tuple::new(vec![]))).unwrap());
    assert!(matches!(vm.check_exc_match(&exc, &empty), Ok(false)));
    let e = vm.check_exc_match(&exc, &Value::Int(1)).unwrap_err();
    assert_eq!(
        info(e).message.unwrap(),
        "catching classes that do not inherit from BaseException is not allowed"
    );
    let early = Tuple::new(vec![class(ExcType::KeyError), Value::Int(1)]);
    let early = Value::Ref(vm.heap.allocate(HeapData::Tuple(early)).unwrap());
    let e = vm.check_exc_match(&exc, &early).unwrap_err();
    assert_eq!(info(e).exc_type, ExcType::TypeError);
    let late = Tuple::new(vec![Value::Int(1), class(ExcType::KeyError)]);
    let late = Value::Ref(vm.heap.allocate(HeapData::Tuple(late)).unwrap());
    assert!(vm.check_exc_match(&exc, &late).is_err());
}

#[test]
fn callers_lengthen_a_traceback() {
    let f = RawStackFrame::from_raise(line(3), own(0));
    let f = f.push_caller(RawStackFrame::new(line(2), own(0), None));
    let f = f.push_caller(RawStackFrame::new(line(1), own(0), None));
    assert!(f.hide_caret);
    let second = f.parent.unwrap();
    assert_eq!(second.position, line(2));
    assert_eq!(second.parent.unwrap().position, line(1));
}

#[test]
fn exceptions_of_the_host() {
    let e = RunError::from(MontyException {
        exc_type: ExcType::OSError,
        message: Some("gone".to_owned()),
        traceback: vec![],
    });
    let x = info(e);
    assert_eq!((x.exc_type, x.message.as_deref()), (ExcType::OSError, Some("gone")));
    assert!(x.traceback.is_empty());
    let x = MontyException::runtime_error("no".to_owned());
    assert_eq!((x.exc_type, x.message.as_deref()), (ExcType::RuntimeError, Some("no")));
}

#[test]
fn tracebacks_show_the_source() {
    let (i, c) = (interns(), module());
    let mut vm = machine(&i, &c);
    call(&mut vm, 2);
    call(&mut vm, 11);
    vm.instruction_ip = 0;
    let e = vm.handle_exception(RunError::fault(ExcType::ValueError, Fault::NotCallable)).unwrap();
    let x = e.into_python_exception(&i, "def work():\n    work()\r\n\n4\n5\n6\n7\n8\n9\n  raise\n");
    let lines: Vec<(u32, Option<&str>)> =
        x.traceback.iter().map(|l| (l.position.start_line, l.preview_line.as_deref())).collect();
    assert_eq!(lines, vec![(2, Some("    work()")), (11, None), (10, Some("  raise"))]);
}

#[test]
fn lines_are_found_by_number() {
    let text = "a\r\n\nb\rc\nd";
    let found: Vec<Option<String>> = (0..6).map(|n| find_line(text, n)).collect();
    let expected = [None, Some("a"), Some(""), Some("b\rc"), Some("d"), None];
    assert_eq!(found, expected.map(|l| l.map(str::to_owned)));
    assert_eq!(find_line("", 1), None);
    assert_eq!(find_line("x\r", 1).as_deref(), Some("x\r"));
    assert_eq!(find_line("x\n", 2), None);
}
