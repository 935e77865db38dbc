use monty::asyncio::{Coroutine, CoroutineState, GatherFuture, GatherItem};
use monty::error::{CodeRange, Fault, InvalidInputError, RunError};
use monty::frame::CallFrame;
use monty::heap::{Heap, HeapData};
use monty::ids::{CallId, FunctionId, HeapId, NamespaceId, TaskId};
use monty::interns::{Code, Function, Interns, StaticStrings};
use monty::namespaces::Namespaces;
use monty::object::MontyObject;
use monty::resource::{DepthGuard, NoLimitTracker};
use monty::types::ExcType;
use monty::value::Value;
use monty::vm::async_exec::AwaitResult;
use monty::vm::scheduler::TaskState;
use monty::vm::VM;

type Machine<'a> = VM<'a, NoLimitTracker>;

fn code() -> Code {
    Code::new(vec![], vec![], vec![])
}

fn interns() -> Interns {
    let f = Function {
        name: StaticStrings::Module.string_id(),
        param_count: 0,
        namespace_size: 1,
        cell_param_indices: vec![],
        is_async: true,
        code: code(),
    };
    Interns::new(vec![], vec![], vec![], vec![f], vec![])
}

fn machine<'a>(interns: &'a Interns, code: &'a Code) -> Machine<'a> {
    let mut vm = VM::new(Heap::new(4, NoLimitTracker), Namespaces::new(vec![]), interns, code);
    vm.frames.push(CallFrame::new_module(0, NamespaceId(0)));
    vm
}

fn coroutine(vm: &mut Machine) -> HeapId {
    let c = Coroutine::new(FunctionId(0), vec![Value::Undefined], vec![], 0);
    vm.heap.allocate(HeapData::Coroutine(c)).unwrap()
}

fn gather(vm: &mut Machine, items: Vec<GatherItem>) -> HeapId {
    vm.heap.allocate(HeapData::GatherFuture(GatherFuture::new(items))).unwrap()
}

fn shown(vm: &Machine, v: Value) -> String {
    let mut guard = DepthGuard::default();
    v.py_str(&vm.heap, &mut guard, &interns())
}

fn state<'b>(vm: &'b Machine, id: usize) -> &'b TaskState {
    &vm.scheduler.as_ref().unwrap().get_task(TaskId(id)).unwrap().state
}

fn current(vm: &Machine) -> Option<TaskId> {
    vm.scheduler.as_ref().unwrap().current_task_id()
}

fn text(e: RunError) -> String {
    e.into_python_exception(&interns(), "").message.unwrap()
}

fn boom() -> RunError {
    RunError::fault(ExcType::ValueError, Fault::NotCallable)
}

#[test]
fn awaiting_a_coroutine_pushes_its_frame() {
    let (i, c) = (interns(), code());
    let mut vm = machine(&i, &c);
    let id = coroutine(&mut vm);
    vm.heap.inc_ref(id);
    vm.push(Value::Ref(id));
    assert!(matches!(vm.exec_get_awaitable(), Ok(AwaitResult::FramePushed)));
    assert_eq!(vm.frames.len(), 2);
    assert_eq!(vm.namespaces.get(NamespaceId(1)).unwrap(), &vec![Value::Undefined]);
    match vm.heap.get(id) {
        Some(HeapData::Coroutine(c)) => assert_eq!(c.state, CoroutineState::Running),
        _ => panic!("expected coroutine"),
    }
    vm.push(Value::Ref(id));
    let e = vm.exec_get_awaitable().unwrap_err();
    assert_eq!(text(e), "cannot reuse already awaited coroutine");
}

#[test]
fn only_awaitables_are_awaited() {
    let (i, c) = (interns(), code());
    let mut vm = machine(&i, &c);
    vm.push(Value::Int(1));
    let e = vm.exec_get_awaitable().unwrap_err();
    assert_eq!(text(e), "'int' object can't be awaited");
}

#[test]
fn an_early_answer_is_kept() {
    let (i, c) = (interns(), code());
    let mut vm = machine(&i, &c);
    vm.add_pending_call(CallId::new(7));
    assert_eq!(vm.get_pending_call_ids(), vec![CallId::new(7)]);
    vm.resolve_future(7, MontyObject::Int(42)).unwrap();
    assert_eq!(vm.get_pending_call_ids(), vec![]);
    vm.push(Value::ExternalFuture(CallId::new(7)));
    assert!(matches!(vm.exec_get_awaitable(), Ok(AwaitResult::ValueReady(Value::Int(42)))));
    vm.push(Value::ExternalFuture(CallId::new(7)));
    let e = vm.exec_get_awaitable().unwrap_err();
    assert_eq!(text(e), "cannot reuse already awaited future");
}

#[test]
fn the_main_task_waits_for_an_answer() {
    let (i, c) = (interns(), code());
    let mut vm = machine(&i, &c);
    vm.add_pending_call(CallId::new(1));
    vm.add_pending_call(CallId::new(2));
    vm.push(Value::ExternalFuture(CallId::new(1)));
    match vm.exec_get_awaitable() {
        Ok(AwaitResult::Yield(calls)) => assert_eq!(calls, vec![CallId::new(1), CallId::new(2)]),
        _ => panic!("expected to wait"),
    }
    assert!(matches!(state(&vm, 0), TaskState::BlockedOnCall(CallId(1))));
    assert_eq!(vm.frames.len(), 1);
    vm.resolve_future(2, MontyObject::Int(5)).unwrap();
    assert!(vm.take_failed_task_error().is_none());
    assert!(!vm.prepare_main_task_after_resolve());
    assert!(matches!(vm.load_ready_task_if_needed(), Ok(false)));
    assert_eq!(vm.get_pending_call_ids(), vec![CallId::new(1)]);
    vm.resolve_future(1, MontyObject::Text("done".to_owned())).unwrap();
    assert!(vm.prepare_main_task_after_resolve());
    assert_eq!(shown(&vm, vm.stack[0]), "done");
    assert!(vm.scheduler.as_ref().unwrap().ready_queue.is_empty());
}

#[test]
fn a_value_that_cannot_enter() {
    let (i, c) = (interns(), code());
    let mut vm = machine(&i, &c);
    vm.add_pending_call(CallId::new(1));
    let r = vm.resolve_future(1, MontyObject::Repr("<x>".to_owned()));
    assert_eq!(r, Err(InvalidInputError::OutputOnly));
    assert_eq!(vm.get_pending_call_ids(), vec![CallId::new(1)]);
}

#[test]
fn an_empty_gather_is_ready() {
    let (i, c) = (interns(), code());
    let mut vm = machine(&i, &c);
    let g = gather(&mut vm, vec![]);
    vm.push(Value::Ref(g));
    match vm.exec_get_awaitable() {
        Ok(AwaitResult::ValueReady(v)) => assert_eq!(shown(&vm, v), "[]"),
        _ => panic!("expected a value"),
    }
    assert_eq!(vm.heap.entry_count(), 1);
}

#[test]
fn a_gather_of_calls_keeps_their_order() {
    let (i, c) = (interns(), code());
    let mut vm = machine(&i, &c);
    vm.add_pending_call(CallId::new(1));
    vm.add_pending_call(CallId::new(2));
    let items = vec![GatherItem::ExternalFuture(CallId::new(1)), GatherItem::ExternalFuture(CallId::new(2))];
    let g = gather(&mut vm, items);
    vm.push(Value::Ref(g));
    assert!(matches!(vm.exec_get_awaitable(), Ok(AwaitResult::Yield(_))));
    vm.resolve_future(2, MontyObject::Int(20)).unwrap();
    assert_eq!(vm.get_pending_call_ids(), vec![CallId::new(1)]);
    assert_eq!(vm.stack, vec![]);
    vm.resolve_future(1, MontyObject::Int(10)).unwrap();
    assert_eq!(shown(&vm, vm.stack[0]), "[10, 20]");
    assert!(matches!(state(&vm, 0), TaskState::Ready));
    assert!(vm.scheduler.as_ref().unwrap().ready_queue.is_empty());
    assert_eq!(vm.heap.entry_count(), 1);
}

#[test]
fn a_failed_call_of_a_gather_forgets_the_others() {
    let (i, c) = (interns(), code());
    let mut vm = machine(&i, &c);
    for k in 1..4 {
        vm.add_pending_call(CallId::new(k));
    }
    let items = (1..4).map(|k| GatherItem::ExternalFuture(CallId::new(k))).collect();
    let g = gather(&mut vm, items);
    vm.push(Value::Ref(g));
    assert!(matches!(vm.exec_get_awaitable(), Ok(AwaitResult::Yield(_))));
    vm.fail_future(2, boom());
    assert_eq!(vm.get_pending_call_ids(), vec![]);
    assert!(vm.scheduler.as_ref().unwrap().gather_waiters.is_empty());
    assert_eq!(vm.heap.entry_count(), 0);
    vm.fail_future(3, boom());
    let e = vm.take_failed_task_error().unwrap();
    assert_eq!(text(e), "object is not callable");
    assert!(vm.take_failed_task_error().is_none());
}

#[test]
fn a_gather_of_coroutines() {
    let (i, c) = (interns(), code());
    let mut vm = machine(&i, &c);
    let (a, b) = (coroutine(&mut vm), coroutine(&mut vm));
    let g = gather(&mut vm, vec![GatherItem::Coroutine(a), GatherItem::Coroutine(b)]);
    vm.push(Value::Ref(g));
    assert!(matches!(vm.exec_get_awaitable(), Ok(AwaitResult::FramePushed)));
    assert_eq!(current(&vm), Some(TaskId(1)));
    assert!(vm.is_spawned_task());
    assert!(matches!(state(&vm, 0), TaskState::BlockedOnGather(_)));
    assert!(matches!(vm.handle_task_completion(Value::Int(1)), Ok(AwaitResult::FramePushed)));
    assert_eq!(current(&vm), Some(TaskId(2)));
    assert!(matches!(vm.handle_task_completion(Value::Int(2)), Ok(AwaitResult::FramePushed)));
    assert_eq!(current(&vm), Some(TaskId(0)));
    assert!(!vm.is_spawned_task());
    assert_eq!(shown(&vm, vm.stack[0]), "[1, 2]");
    assert_eq!(vm.frames.len(), 1);
    assert!(matches!(state(&vm, 1), TaskState::Completed(Value::Int(1))));
    assert_eq!(vm.heap.entry_count(), 1);
}

#[test]
fn a_task_that_fails_fails_the_gather() {
    let (i, c) = (interns(), code());
    let mut vm = machine(&i, &c);
    let (a, b) = (coroutine(&mut vm), coroutine(&mut vm));
    let g = gather(&mut vm, vec![GatherItem::Coroutine(a), GatherItem::Coroutine(b)]);
    vm.push(Value::Ref(g));
    assert!(matches!(vm.exec_get_awaitable(), Ok(AwaitResult::FramePushed)));
    let e = vm.handle_task_failure(boom()).unwrap_err();
    assert_eq!(text(e), "object is not callable");
    assert_eq!(current(&vm), Some(TaskId(0)));
    assert_eq!(vm.frames.len(), 1);
    assert!(matches!(state(&vm, 2), TaskState::Failed(_)));
    assert!(vm.scheduler.as_ref().unwrap().ready_queue.is_empty());
    assert_eq!(vm.heap.entry_count(), 0);
}

#[test]
fn tasks_take_turns_while_they_wait() {
    let (i, c) = (interns(), code());
    let mut vm = machine(&i, &c);
    let (a, b) = (coroutine(&mut vm), coroutine(&mut vm));
    let g = gather(&mut vm, vec![GatherItem::Coroutine(a), GatherItem::Coroutine(b)]);
    vm.push(Value::Ref(g));
    assert!(matches!(vm.exec_get_awaitable(), Ok(AwaitResult::FramePushed)));
    vm.add_pending_call(CallId::new(1));
    vm.push(Value::Int(77));
    vm.push(Value::ExternalFuture(CallId::new(1)));
    assert!(matches!(vm.exec_get_awaitable(), Ok(AwaitResult::FramePushed)));
    assert_eq!(current(&vm), Some(TaskId(2)));
    assert_eq!(vm.stack, vec![]);
    assert!(matches!(vm.handle_task_completion(Value::Int(2)), Ok(AwaitResult::Yield(_))));
    assert_eq!(vm.frames.len(), 0);
    vm.resolve_future(1, MontyObject::Int(5)).unwrap();
    assert!(matches!(vm.load_ready_task_if_needed(), Ok(true)));
    assert_eq!(current(&vm), Some(TaskId(1)));
    assert_eq!(vm.stack, vec![Value::Int(77), Value::Int(5)]);
    vm.stack.clear();
    assert!(matches!(vm.handle_task_completion(Value::Int(1)), Ok(AwaitResult::FramePushed)));
    assert_eq!(shown(&vm, vm.stack[0]), "[1, 2]");
}

#[test]
fn a_gather_of_both_kinds() {
    let (i, c) = (interns(), code());
    let mut vm = machine(&i, &c);
    let a = coroutine(&mut vm);
    vm.add_pending_call(CallId::new(1));
    vm.add_pending_call(CallId::new(2));
    let items = vec![
        GatherItem::ExternalFuture(CallId::new(1)),
        GatherItem::Coroutine(a),
        GatherItem::ExternalFuture(CallId::new(2)),
    ];
    let g = gather(&mut vm, items);
    vm.push(Value::Ref(g));
    assert!(matches!(vm.exec_get_awaitable(), Ok(AwaitResult::FramePushed)));
    vm.resolve_future(1, MontyObject::Int(1)).unwrap();
    assert!(matches!(vm.handle_task_completion(Value::Int(2)), Ok(AwaitResult::Yield(_))));
    vm.resolve_future(2, MontyObject::Int(3)).unwrap();
    assert!(matches!(vm.load_ready_task_if_needed(), Ok(true)));
    assert_eq!(current(&vm), Some(TaskId(0)));
    assert_eq!(shown(&vm, vm.stack[0]), "[1, 2, 3]");
}

#[test]
fn answers_for_cancelled_tasks_are_ignored() {
    let (i, c) = (interns(), code());
    let mut vm = machine(&i, &c);
    let (a, b) = (coroutine(&mut vm), coroutine(&mut vm));
    let g = gather(&mut vm, vec![GatherItem::Coroutine(a), GatherItem::Coroutine(b)]);
    vm.push(Value::Ref(g));
    assert!(matches!(vm.exec_get_awaitable(), Ok(AwaitResult::FramePushed)));
    vm.add_pending_call(CallId::new(1));
    vm.push(Value::ExternalFuture(CallId::new(1)));
    assert!(matches!(vm.exec_get_awaitable(), Ok(AwaitResult::FramePushed)));
    assert!(vm.handle_task_failure(boom()).is_err());
    let before = vm.heap.size();
    vm.resolve_future(1, MontyObject::Text("late".to_owned())).unwrap();
    assert_eq!(vm.heap.size(), before);
    assert_eq!(vm.get_pending_call_ids(), vec![CallId::new(1)]);
}

#[test]
fn a_failed_call_fails_the_task_that_waits() {
    let (i, c) = (interns(), code());
    let mut vm = machine(&i, &c);
    vm.add_pending_call(CallId::new(1));
    vm.push(Value::ExternalFuture(CallId::new(1)));
    assert!(matches!(vm.exec_get_awaitable(), Ok(AwaitResult::Yield(_))));
    vm.fail_future(1, boom());
    assert!(vm.take_failed_task_error().is_some());
    assert_eq!(vm.get_pending_call_ids(), vec![]);
}

#[test]
fn unhandled_errors_of_tasks_reach_the_waiter() {
    let (i, c) = (interns(), code());
    let mut vm = machine(&i, &c);
    let a = coroutine(&mut vm);
    let g = gather(&mut vm, vec![GatherItem::Coroutine(a)]);
    vm.push(Value::Ref(g));
    assert!(matches!(vm.exec_get_awaitable(), Ok(AwaitResult::FramePushed)));
    let e = vm.handle_exception(boom()).unwrap();
    assert_eq!(current(&vm), Some(TaskId(0)));
    assert_eq!(vm.frames.len(), 1);
    match e {
        RunError::Exc(raise) => assert_eq!(raise.exc.exc_type, ExcType::ValueError),
        _ => panic!("expected an exception"),
    }
}

#[test]
fn unknown_positions() {
    let (i, c) = (interns(), code());
    let vm = machine(&i, &c);
    let unknown = CodeRange { start_line: 0, start_column: 0, end_line: 0, end_column: 0 };
    assert_eq!(vm.current_position(), unknown);
    assert_eq!(vm.current_frame_name(), StaticStrings::Module.string_id());
}

#[test]
fn an_unfinished_gather_delivers_nothing() {
    let (i, c) = (interns(), code());
    let mut vm = machine(&i, &c);
    let (a, b, d) = (coroutine(&mut vm), coroutine(&mut vm), coroutine(&mut vm));
    let g = gather(
        &mut vm,
        vec![GatherItem::Coroutine(a), GatherItem::Coroutine(b), GatherItem::Coroutine(d)],
    );
    vm.push(Value::Ref(g));
    assert!(matches!(vm.exec_get_awaitable(), Ok(AwaitResult::FramePushed)));
    vm.add_pending_call(CallId::new(1));
    vm.push(Value::ExternalFuture(CallId::new(1)));
    assert!(matches!(vm.exec_get_awaitable(), Ok(AwaitResult::FramePushed)));
    for (task, next) in [(2, Some(TaskId(3))), (3, None)] {
        assert_eq!(current(&vm), Some(TaskId(task)));
        let r = vm.handle_task_completion(Value::Int(0));
        assert!(!matches!(r, Ok(AwaitResult::ValueReady(_))));
        assert_eq!(matches!(r, Ok(AwaitResult::Yield(_))), next.is_none());
        assert_eq!(current(&vm), next);
        assert!(matches!(state(&vm, 0), TaskState::BlockedOnGather(_)));
        assert_eq!(vm.stack, vec![]);
    }
}

fn queued(vm: &Machine) -> Vec<TaskId> {
    vm.scheduler.as_ref().unwrap().ready_queue.clone()
}

#[test]
fn a_waiting_task_is_not_queued() {
    let (i, c) = (interns(), code());
    let mut vm = machine(&i, &c);
    let (a, b) = (coroutine(&mut vm), coroutine(&mut vm));
    vm.add_pending_call(CallId::new(1));
    let items = vec![
        GatherItem::Coroutine(a),
        GatherItem::Coroutine(b),
        GatherItem::ExternalFuture(CallId::new(1)),
    ];
    let g = gather(&mut vm, items);
    vm.push(Value::Ref(g));
    assert!(matches!(vm.exec_get_awaitable(), Ok(AwaitResult::FramePushed)));
    assert_eq!(queued(&vm), vec![TaskId(2)]);
    vm.resolve_future(1, MontyObject::Int(3)).unwrap();
    assert!(matches!(state(&vm, 0), TaskState::BlockedOnGather(_)));
    assert!(matches!(vm.handle_task_completion(Value::Int(1)), Ok(AwaitResult::FramePushed)));
    assert!(matches!(state(&vm, 0), TaskState::BlockedOnGather(_)));
    assert_eq!((current(&vm), queued(&vm)), (Some(TaskId(2)), vec![]));
    assert!(matches!(vm.handle_task_completion(Value::Int(2)), Ok(AwaitResult::FramePushed)));
    assert_eq!((current(&vm), queued(&vm)), (Some(TaskId(0)), vec![]));
    assert_eq!(shown(&vm, vm.stack[0]), "[1, 2, 3]");
}

#[test]
fn a_coroutine_awaited_elsewhere_cannot_start_its_task() {
    let (i, c) = (interns(), code());
    let mut vm = machine(&i, &c);
    let (a, b) = (coroutine(&mut vm), coroutine(&mut vm));
    let g = gather(&mut vm, vec![GatherItem::Coroutine(a), GatherItem::Coroutine(b)]);
    vm.push(Value::Ref(g));
    assert!(matches!(vm.exec_get_awaitable(), Ok(AwaitResult::FramePushed)));
    vm.heap.inc_ref(b);
    vm.push(Value::Ref(b));
    assert!(matches!(vm.exec_get_awaitable(), Ok(AwaitResult::FramePushed)));
    let e = vm.handle_task_completion(Value::Int(1)).unwrap_err();
    assert_eq!(text(e), "cannot reuse already awaited coroutine");
    assert_eq!((current(&vm), queued(&vm)), (Some(TaskId(2)), vec![]));
}
