use ahash::AHashMap;

use monty::args::{ArgValues, KwargsValues};
use monty::error::{CodeRange, ExceptionRaise, Fault, RawStackFrame, RunError, SimpleException};
use monty::exception::MontyException;
use monty::heap::{Heap, HeapData};
use monty::asyncio::{Coroutine, GatherFuture, GatherItem};
use monty::ids::{CallId, ExtFunctionId, FunctionId, HeapId, NamespaceId, OsFunction, StringId, TaskId};
use monty::interns::{Code, ExceptionEntry, Function, Interns, StaticStrings};
use monty::list::List;
use monty::long_int::LongInt;
use monty::object::MontyObject;
use monty::resource::{LimitedTracker, NoLimitTracker};
use monty::run::{
    frame_exit_to_object, handle_vm_result, Execution, ExternalResult, FrameExit, FutureSnapshot, MontyFuture,
    MontyRun, Program, Resumed, RunProgress, Snapshot,
};
use monty::types::{ExcType, Type};
use monty::value::Value;
use monty::vm::async_exec::AwaitResult;
use monty::vm::VM;

fn own(k: usize) -> StringId {
    let first = (0..1000).map(StringId).find(|id| StaticStrings::from_string_id(*id).is_none()).unwrap();
    StringId(first.0 + k)
}

fn interns() -> Interns {
    Interns::new(vec!["key".to_owned()], vec![], vec![], vec![], vec!["fetch".to_owned(), "store".to_owned()])
}

/// A program with so many inputs, of which there may be three.
fn program(input_count: usize, handlers: Vec<ExceptionEntry>) -> Program {
    let mut name_map = AHashMap::new();
    name_map.insert("x".to_owned(), 2);
    name_map.insert("y".to_owned(), 3);
    name_map.insert("z".to_owned(), 4);
    let module_code = Code::new(vec![], handlers, vec![]);
    Program { namespace_size: 5, input_count, name_map, module_code, interns: interns() }
}

fn runner(input_count: usize) -> MontyRun {
    MontyRun::new("x + y".to_owned(), program(input_count, vec![]))
}

fn begin(inputs: Vec<MontyObject>) -> Execution<NoLimitTracker> {
    runner(inputs.len()).start(inputs, NoLimitTracker).unwrap()
}

/// Runs some steps of a program and stops.
fn steps(
    e: Execution<NoLimitTracker>,
    run: impl FnOnce(&mut VM<NoLimitTracker>) -> Result<FrameExit, RunError>,
) -> Result<RunProgress<NoLimitTracker>, MontyException> {
    let mut vm =
        VM::restore(e.vm_state, &e.executor.module_code, e.heap, e.namespaces, &e.executor.interns);
    let exit = run(&mut vm);
    let (state, heap, namespaces) = vm.check_snapshot(&exit);
    handle_vm_result(exit, state, e.executor, heap, namespaces)
}

fn running(r: Resumed<NoLimitTracker>) -> Execution<NoLimitTracker> {
    match r {
        Resumed::Running(e) => e,
        _ => panic!("expected the program to run"),
    }
}

fn ended(r: Resumed<NoLimitTracker>) -> MontyException {
    match r {
        Resumed::Ended(Err(e)) => e,
        _ => panic!("expected the program to end"),
    }
}

/// A program that waits for the calls 1 and 2, of which it awaits the first.
fn waiting() -> FutureSnapshot<NoLimitTracker> {
    let progress = steps(begin(vec![]), |vm| {
        vm.add_pending_call(CallId::new(1));
        vm.add_pending_call(CallId::new(2));
        vm.push(Value::ExternalFuture(CallId::new(1)));
        match vm.exec_get_awaitable() {
            Ok(AwaitResult::Yield(calls)) => Ok(FrameExit::ResolveFutures(calls)),
            _ => panic!("expected to wait"),
        }
    });
    progress.unwrap().into_resolve_futures().unwrap()
}

/// A program that waits for the result of a call.
fn calling() -> Snapshot<NoLimitTracker> {
    let progress = steps(begin(vec![]), |_| {
        Ok(FrameExit::ExternalCall {
            ext_function_id: ExtFunctionId::new(1),
            args: ArgValues::Empty,
            call_id: CallId::new(9),
        })
    });
    progress.unwrap().into_function_call().unwrap().4
}

#[test]
fn a_program_starts_with_its_inputs() {
    let run = runner(2);
    assert_eq!(run.code(), "x + y");
    let e = begin(vec![MontyObject::Int(4), MontyObject::Text("hi".to_owned())]);
    let values = e.namespaces.get(NamespaceId(0)).unwrap();
    assert_eq!(values.len(), 5);
    assert_eq!(values[0], Value::ExtFunction(ExtFunctionId::new(0)));
    assert_eq!(values[1], Value::ExtFunction(ExtFunctionId::new(1)));
    assert_eq!(values[2], Value::Int(4));
    assert!(matches!(e.heap.get(values[3].ref_id().unwrap()), Some(HeapData::Str(s)) if s == "hi"));
    assert_eq!(values[4], Value::Undefined);
    assert_eq!(e.vm_state.frames.len(), 1);
}

#[test]
fn inputs_that_are_refused() {
    let many = (0..4).map(MontyObject::Int).collect();
    let e = runner(4).start(many, NoLimitTracker).unwrap_err();
    assert_eq!(e.exc_type, ExcType::RuntimeError);
    assert_eq!(e.message.as_deref(), Some("too many inputs for namespace"));
    let e = runner(1).start(vec![MontyObject::Repr("<x>".to_owned())], NoLimitTracker).unwrap_err();
    assert_eq!(
        e.message.as_deref(),
        Some("invalid input type: 'Repr' is not a valid input value")
    );
    let text = vec![MontyObject::Text("a".to_owned())];
    let e = runner(1).start(text, LimitedTracker::new(0, 5)).unwrap_err();
    assert!(e.message.unwrap().starts_with("invalid input type: "));
}

#[test]
fn the_number_of_inputs_has_to_match() {
    let e = runner(1).start(vec![], NoLimitTracker).unwrap_err();
    assert_eq!(e.exc_type, ExcType::RuntimeError);
    assert_eq!(e.message.as_deref(), Some("expected 1 inputs, got 0"));
    let two = vec![MontyObject::Int(1), MontyObject::Int(2)];
    let e = runner(1).start(two, NoLimitTracker).unwrap_err();
    assert_eq!(e.message.as_deref(), Some("expected 1 inputs, got 2"));
    assert!(runner(1).start(vec![MontyObject::Int(1)], NoLimitTracker).is_ok());
}

#[test]
fn a_program_runs_to_its_end() {
    let mut run = runner(2);
    let finished = {
        let mut vm = run.run(vec![MontyObject::Int(4)], NoLimitTracker).unwrap();
        for k in 0..7 {
            vm.heap.allocate(HeapData::LongInt(LongInt::from_i64(k))).unwrap();
        }
        let l = vm.heap.allocate(HeapData::List(List::new(vec![Value::Int(1), Value::PyNone]))).unwrap();
        run.finish(vm, Ok(FrameExit::Return(Value::Ref(l))))
    };
    match finished.result {
        Ok(MontyObject::List(items)) => {
            assert!(matches!(items[0], MontyObject::Int(1)));
            assert!(matches!(items[1], MontyObject::PyNone));
        }
        _ => panic!("expected a list"),
    }
    assert_eq!(run.executor.heap_capacity, 5);
    assert_eq!(finished.heap_capacity, 8);
    run.set_heap_capacity(finished.heap_capacity);
    assert_eq!(run.executor.heap_capacity, 8);
}

#[test]
fn calls_without_a_host() {
    let i = interns();
    let mut heap = Heap::new(1, NoLimitTracker);
    let call = FrameExit::ExternalCall {
        ext_function_id: ExtFunctionId::new(1),
        args: ArgValues::Empty,
        call_id: CallId::new(0),
    };
    let e = frame_exit_to_object(Ok(call), &mut heap, &i).unwrap_err().into_python_exception(&i, "");
    assert_eq!(e.exc_type, ExcType::NotImplementedError);
    assert_eq!(
        e.message.as_deref(),
        Some("External function 'store' not implemented with standard execution")
    );
    let call = FrameExit::OsCall { function: OsFunction(3), args: ArgValues::Empty, call_id: CallId::new(0) };
    let e = frame_exit_to_object(Ok(call), &mut heap, &i).unwrap_err().into_python_exception(&i, "");
    assert_eq!(e.message.as_deref(), Some("OS function '3' not implemented with standard execution"));
    let e = frame_exit_to_object(Ok(FrameExit::ResolveFutures(vec![])), &mut heap, &i).unwrap_err();
    let e = e.into_python_exception(&i, "");
    assert_eq!(e.message.as_deref(), Some("async futures not supported by standard execution."));
    let failed = Err(RunError::type_error(Fault::NotCallable));
    let e = frame_exit_to_object(failed, &mut heap, &i).unwrap_err().into_python_exception(&i, "");
    assert_eq!(e.exc_type, ExcType::TypeError);
}

#[test]
fn a_call_of_the_host() {
    let progress = steps(begin(vec![]), |vm| {
        let s = vm.heap.allocate(HeapData::Str("a".to_owned())).unwrap();
        let args = ArgValues::ArgsKargs {
            args: vec![Value::Ref(s)],
            kwargs: KwargsValues::Inline(vec![(own(0), Value::Int(2))]),
        };
        Ok(FrameExit::ExternalCall { ext_function_id: ExtFunctionId::new(0), args, call_id: CallId::new(9) })
    })
    .unwrap();
    let (name, args, kwargs, call_id, state) = progress.into_function_call().unwrap();
    assert_eq!(name, "fetch");
    assert!(matches!(&args[0], MontyObject::Text(s) if s == "a"));
    assert!(matches!(&kwargs[0], (MontyObject::Text(k), MontyObject::Int(2)) if k == "key"));
    assert_eq!(call_id, 9);
    assert_eq!(state.pending_call_id, 9);
    assert_eq!(state.heap.entry_count(), 0);
    let e = running(state.run(ExternalResult::from(MontyObject::Int(5))));
    assert_eq!(e.vm_state.stack, vec![Value::Int(5)]);
    let done = steps(e, |vm| Ok(FrameExit::Return(vm.pop()))).unwrap();
    assert!(matches!(done.into_complete(), Some(MontyObject::Int(5))));
}

#[test]
fn an_operating_system_call() {
    let progress = steps(begin(vec![]), |_| {
        Ok(FrameExit::OsCall { function: OsFunction(4), args: ArgValues::Empty, call_id: CallId::new(2) })
    })
    .unwrap();
    match progress {
        RunProgress::OsCall { function, args, kwargs, call_id, state } => {
            assert_eq!(function, OsFunction(4));
            assert!(args.is_empty() && kwargs.is_empty());
            assert_eq!(call_id, 2);
            assert_eq!(state.pending_call_id, 2);
        }
        _ => panic!("expected a call"),
    }
}

#[test]
fn progress_of_other_kinds() {
    let progress: RunProgress<NoLimitTracker> = RunProgress::Complete(MontyObject::PyNone);
    assert!(progress.into_function_call().is_none());
    let progress: RunProgress<NoLimitTracker> = RunProgress::Complete(MontyObject::PyNone);
    assert!(progress.into_resolve_futures().is_none());
    let progress = RunProgress::ResolveFutures(waiting());
    assert!(progress.into_complete().is_none());
}

#[test]
fn an_unhandled_error_ends_the_program() {
    let e = steps(begin(vec![]), |_| Err(RunError::type_error(Fault::NotCallable))).unwrap_err();
    assert_eq!((e.exc_type, e.message.as_deref()), (ExcType::TypeError, Some("object is not callable")));
}

#[test]
fn a_host_raises_an_exception() {
    let e = ended(calling().run(ExternalResult::from(MontyException::runtime_error("down".to_owned()))));
    assert_eq!((e.exc_type, e.message.as_deref()), (ExcType::RuntimeError, Some("down")));
    assert_eq!(e.traceback.len(), 1);
    assert_eq!(e.traceback[0].frame_name, "<module>");
}

#[test]
fn a_program_handles_an_exception_of_the_host() {
    let handler = ExceptionEntry { start: 0, end: 5, handler: 30, stack_depth: 0 };
    let run = MontyRun::new(String::new(), program(0, vec![handler]));
    let e = run.start(vec![], NoLimitTracker).unwrap();
    let call = |_: &mut VM<NoLimitTracker>| {
        Ok(FrameExit::ExternalCall {
            ext_function_id: ExtFunctionId::new(0),
            args: ArgValues::Empty,
            call_id: CallId::new(0),
        })
    };
    let state = steps(e, call).unwrap().into_function_call().unwrap().4;
    let e = running(state.run(ExternalResult::from(MontyException::runtime_error("down".to_owned()))));
    assert_eq!(e.vm_state.frames[0].ip, 30);
    assert_eq!(e.vm_state.exception_stack.len(), 1);
}

#[test]
fn a_result_that_cannot_enter() {
    let e = ended(calling().run(ExternalResult::Return(MontyObject::Repr(String::new()))));
    assert_eq!(
        e.message.as_deref(),
        Some("Invalid return type for call 9: 'Repr' is not a valid input value")
    );
}

#[test]
fn a_result_that_comes_later() {
    assert!(matches!(ExternalResult::from(MontyFuture), ExternalResult::Future));
    let e = running(calling().run_pending());
    assert_eq!(e.vm_state.stack, vec![Value::ExternalFuture(CallId::new(9))]);
    let pending = e.vm_state.scheduler.unwrap().pending_call_ids();
    assert_eq!(pending, vec![CallId::new(9)]);
}

#[test]
fn answers_one_at_a_time() {
    let state = waiting();
    assert_eq!(state.pending_call_ids(), &[1, 2]);
    let r = state.resume(vec![(2, ExternalResult::Return(MontyObject::Int(20)))]);
    let state = match r {
        Resumed::Ended(Ok(progress)) => progress.into_resolve_futures().unwrap(),
        _ => panic!("expected to wait"),
    };
    assert_eq!(state.pending_call_ids(), &[1]);
    let e = running(state.resume(vec![(1, ExternalResult::Return(MontyObject::Int(10)))]));
    assert_eq!(e.vm_state.stack, vec![Value::Int(10)]);
}

#[test]
fn answers_that_come_later_change_nothing() {
    let r = waiting().resume(vec![(1, ExternalResult::Future), (2, ExternalResult::Future)]);
    match r {
        Resumed::Ended(Ok(progress)) => {
            assert_eq!(progress.into_resolve_futures().unwrap().pending_call_ids(), &[1, 2]);
        }
        _ => panic!("expected to wait"),
    }
}

#[test]
fn answers_to_unknown_calls() {
    let answers = vec![
        (1, ExternalResult::Return(MontyObject::Int(1))),
        (7, ExternalResult::Return(MontyObject::Int(1))),
        (8, ExternalResult::Future),
    ];
    let e = ended(waiting().resume(answers));
    assert_eq!(e.exc_type, ExcType::RuntimeError);
    assert_eq!(e.message.as_deref(), Some("unknown call_id 7, expected one of: [1, 2]"));
}

#[test]
fn answers_that_cannot_enter() {
    let e = ended(waiting().resume(vec![(2, ExternalResult::Return(MontyObject::Repr(String::new())))]));
    assert_eq!(
        e.message.as_deref(),
        Some("Invalid return type for call 2: 'Repr' is not a valid input value")
    );
}

#[test]
fn an_awaited_call_that_fails_ends_the_program() {
    let failed = ExternalResult::Error(MontyException::runtime_error("down".to_owned()));
    let e = ended(waiting().resume(vec![(1, failed)]));
    assert_eq!(e.message.as_deref(), Some("down"));
}

#[test]
fn objects_go_in_and_out() {
    let i = interns();
    let mut heap = Heap::new(4, NoLimitTracker);
    let object = MontyObject::List(vec![
        MontyObject::PyNone,
        MontyObject::Ellipsis,
        MontyObject::Bool(true),
        MontyObject::Int(-3),
        MontyObject::BigInt(LongInt::new(false, vec![0, 0, 1])),
        MontyObject::Text("t".to_owned()),
        MontyObject::Bytes(vec![1, 2]),
        MontyObject::Tuple(vec![MontyObject::Int(1)]),
        MontyObject::Dict(vec![(MontyObject::Int(1), MontyObject::Text("v".to_owned()))]),
        MontyObject::Exception(ExcType::ValueError, Some("m".to_owned())),
        MontyObject::Type(Type::Int),
        MontyObject::Type(Type::Exception(ExcType::KeyError)),
    ]);
    let before = format!("{object:?}");
    let v = object.to_value(&mut heap, &i).unwrap();
    let back = MontyObject::new(v, &mut heap, &i);
    assert_eq!(format!("{back:?}"), before);
    assert_eq!(heap.entry_count(), 0);
}

#[test]
fn objects_without_a_form_of_their_own() {
    let i = interns();
    let mut heap = Heap::new(4, NoLimitTracker);
    let shown = MontyObject::new(Value::ExtFunction(ExtFunctionId::new(0)), &mut heap, &i);
    assert!(matches!(shown, MontyObject::Repr(s) if s == "<function fetch>"));
    let id = heap.allocate(HeapData::List(List::new(vec![]))).unwrap();
    match heap.take_data(id) {
        Some(HeapData::List(mut l)) => {
            l.append(&mut heap, Value::Ref(id));
            heap.put_data(id, HeapData::List(l));
        }
        _ => panic!("expected list"),
    }
    heap.inc_ref(id);
    match MontyObject::new(Value::Ref(id), &mut heap, &i) {
        MontyObject::List(items) => assert!(matches!(&items[0], MontyObject::Repr(s) if s == "[...]")),
        _ => panic!("expected list"),
    }
    let bad = MontyObject::Dict(vec![(MontyObject::List(vec![]), MontyObject::PyNone)]);
    assert!(bad.to_value(&mut heap, &i).is_err());
}

#[test]
fn references_are_counted() {
    let run = runner(2);
    let mut vm = run.run_ref_counts(vec![MontyObject::Text("a".to_owned()), MontyObject::Int(1)]).unwrap();
    let mut values = vm.namespaces.get(NamespaceId(0)).unwrap().clone();
    let shared = values[2];
    vm.heap.inc_ref(shared.ref_id().unwrap());
    values[4] = shared;
    vm.namespaces.set(NamespaceId(0), values);
    let result = vm.heap.allocate(HeapData::Str("r".to_owned())).unwrap();
    let out = run.finish_ref_counts(vm, Ok(FrameExit::Return(Value::Ref(result))), 6).unwrap();
    assert!(matches!(out.py_object, MontyObject::Text(s) if s == "r"));
    assert_eq!(out.counts.len(), 2);
    assert_eq!(out.counts["x"], 2);
    assert_eq!(out.counts["z"], 2);
    assert_eq!(out.unique_refs, 1);
    assert_eq!(out.heap_count, 2);
    assert_eq!(out.allocations_since_gc, 6);
}

#[test]
fn a_program_can_be_copied() {
    let handler = ExceptionEntry { start: 0, end: 5, handler: 30, stack_depth: 0 };
    let mut run = MontyRun::new("x + y".to_owned(), program(0, vec![handler]));
    let copy = run.clone();
    assert_eq!(format!("{:?}", copy.executor.interns), format!("{:?}", run.executor.interns));
    assert_eq!(format!("{:?}", copy.executor.module_code), format!("{:?}", run.executor.module_code));
    assert_eq!(copy.executor.name_map, run.executor.name_map);
    assert_eq!(copy.executor.name_map.len(), 3);
    assert_eq!(copy.executor.external_function_ids, run.executor.external_function_ids);
    assert_eq!(copy.code(), "x + y");
    run.set_heap_capacity(90);
    assert_eq!(copy.executor.heap_capacity, 5);
}

fn external(k: u32) -> GatherItem {
    GatherItem::ExternalFuture(CallId::new(k))
}

fn gathered(vm: &mut VM<NoLimitTracker>, items: Vec<GatherItem>) -> Value {
    Value::Ref(vm.heap.allocate(HeapData::GatherFuture(GatherFuture::new(items))).unwrap())
}

fn coroutine(vm: &mut VM<NoLimitTracker>) -> HeapId {
    let c = Coroutine::new(FunctionId(0), vec![], vec![], 0);
    vm.heap.allocate(HeapData::Coroutine(c)).unwrap()
}

fn await_value(vm: &mut VM<NoLimitTracker>, v: Value) -> AwaitResult {
    vm.push(v);
    vm.exec_get_awaitable().unwrap()
}

/// A program with an async function.
fn async_program() -> MontyRun {
    let mut p = program(0, vec![]);
    p.interns.functions.push(Function {
        name: own(0),
        param_count: 0,
        namespace_size: 0,
        cell_param_indices: vec![],
        is_async: true,
        code: Code::new(vec![], vec![], vec![]),
    });
    MontyRun::new(String::new(), p)
}

#[test]
fn a_complete_gather_goes_on_beside_other_calls() {
    let progress = steps(begin(vec![]), |vm| {
        for k in 1..4 {
            vm.add_pending_call(CallId::new(k));
        }
        let g = gathered(vm, vec![external(1), external(2)]);
        match await_value(vm, g) {
            AwaitResult::Yield(calls) => Ok(FrameExit::ResolveFutures(calls)),
            _ => panic!("expected to wait"),
        }
    });
    let state = progress.unwrap().into_resolve_futures().unwrap();
    let answers = vec![
        (2, ExternalResult::Return(MontyObject::Int(20))),
        (1, ExternalResult::Return(MontyObject::Int(10))),
    ];
    let e = running(state.resume(answers));
    let list = e.vm_state.stack[0].ref_id().unwrap();
    match e.heap.get(list) {
        Some(HeapData::List(l)) => assert_eq!(l.as_slice(), &[Value::Int(10), Value::Int(20)]),
        _ => panic!("expected list"),
    }
    assert_eq!(e.vm_state.scheduler.unwrap().pending_call_ids(), vec![CallId::new(3)]);
}

#[test]
fn a_task_that_is_answered_takes_over() {
    let e = async_program().start(vec![], NoLimitTracker).unwrap();
    let progress = steps(e, |vm| {
        let (a, b) = (coroutine(vm), coroutine(vm));
        let g = gathered(vm, vec![GatherItem::Coroutine(a), GatherItem::Coroutine(b)]);
        assert!(matches!(await_value(vm, g), AwaitResult::FramePushed));
        vm.add_pending_call(CallId::new(1));
        assert!(matches!(await_value(vm, Value::ExternalFuture(CallId::new(1))), AwaitResult::FramePushed));
        vm.add_pending_call(CallId::new(2));
        match await_value(vm, Value::ExternalFuture(CallId::new(2))) {
            AwaitResult::Yield(calls) => Ok(FrameExit::ResolveFutures(calls)),
            _ => panic!("expected to wait"),
        }
    });
    let state = progress.unwrap().into_resolve_futures().unwrap();
    assert_eq!(state.pending_call_ids(), &[1, 2]);
    let e = running(state.resume(vec![(1, ExternalResult::Return(MontyObject::Int(7)))]));
    assert_eq!(e.vm_state.stack, vec![Value::Int(7)]);
    let scheduler = e.vm_state.scheduler.as_ref().unwrap();
    assert_eq!(scheduler.current_task, Some(TaskId(1)));
    assert_eq!(scheduler.tasks[2].frames.len(), 1);
    assert_eq!(scheduler.pending_call_ids(), vec![CallId::new(2)]);
}

#[test]
fn a_gather_of_a_running_task_is_delivered_to_it() {
    let e = async_program().start(vec![], NoLimitTracker).unwrap();
    let progress = steps(e, |vm| {
        let a = coroutine(vm);
        let outer = gathered(vm, vec![GatherItem::Coroutine(a)]);
        assert!(matches!(await_value(vm, outer), AwaitResult::FramePushed));
        vm.add_pending_call(CallId::new(1));
        let inner = gathered(vm, vec![external(1)]);
        match await_value(vm, inner) {
            AwaitResult::Yield(calls) => Ok(FrameExit::ResolveFutures(calls)),
            _ => panic!("expected to wait"),
        }
    });
    let state = progress.unwrap().into_resolve_futures().unwrap();
    let e = running(state.resume(vec![(1, ExternalResult::Return(MontyObject::Int(7)))]));
    assert_eq!(e.vm_state.stack.len(), 1);
    let scheduler = e.vm_state.scheduler.as_ref().unwrap();
    assert_eq!(scheduler.current_task, Some(TaskId(1)));
    assert!(scheduler.ready_queue.is_empty());
}

#[test]
fn an_error_shows_the_source_of_the_program() {
    let e = steps(begin(vec![]), |_| {
        let position = CodeRange { start_line: 1, start_column: 1, end_line: 1, end_column: 6 };
        let frame = RawStackFrame::new(position, StaticStrings::Module.string_id(), None);
        Err(RunError::Exc(ExceptionRaise {
            exc: SimpleException::new_none(ExcType::TypeError),
            frame: Some(frame),
            hide_caret: false,
        }))
    })
    .unwrap_err();
    assert_eq!(e.traceback.len(), 1);
    assert_eq!(e.traceback[0].preview_line.as_deref(), Some("x + y"));
    assert_eq!(e.traceback[0].frame_name, "<module>");
}
