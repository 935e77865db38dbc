//! What an exception is, and where it goes.

use vstd::prelude::*;
use crate::builtins::Builtins;
use crate::error::{CodeRange, ErrorView, ExceptionView, RawStackFrame};
use crate::exception::trace_lines;
use crate::heap::{DataView, HeapView};
use crate::ids::{HeapId, NamespaceId};
use crate::list_results::raises;
use crate::ownership::release_values_only_frees;
use crate::program_laws::{first_handler_is_found, unprotected_code_has_no_handler};
use crate::resource::ResourceTracker;
use crate::run_results::{other_namespaces_stay, traceback_begins_with_the_caller};
use crate::types::{handlers_catch_as_in_python, ExcType, Type};
use crate::value::Value;
use crate::vm::exceptions::{exc_matches, raised_exception, search_keeps_scheduler};
use crate::vm::VmView;

verus! {

/// An exception object is raised as it is, a class as an exception without text, and what is
/// neither is a type error.
pub proof fn what_is_raised<T>(h: HeapView<T>, v: Value)
    ensures
        v matches Value::Ref(id) ==> (h.data(id) matches Some(DataView::Exception(e))
            ==> raised_exception(h, v) == e),
        v matches Value::Builtin(Builtins::ExcType(class)) ==> raised_exception(h, v).exc_type
            == class && raised_exception(h, v).message is None,
        v matches Value::Ref(id) ==> !(h.data(id) matches Some(DataView::Exception(_)))
            ==> raised_exception(h, v).exc_type == ExcType::TypeError,
        v is PyNone || v is Int || v is Bool || v is InternString ==> raised_exception(
            h,
            v,
        ).exc_type == ExcType::TypeError,
{
}

/// A clause for a class catches the exceptions that it catches in Python.
pub proof fn clauses_catch_as_in_python<T>(h: HeapView<T>, e: ExcType, a: ExcType, room: nat)
    ensures
        exc_matches(
            h,
            Type::Exception(e),
            Value::Builtin(Builtins::ExcType(a)),
            room,
        ) == Ok::<bool, ErrorView>(
            match a {
                ExcType::BaseException => true,
                ExcType::Exception => !(e is BaseException || e is SystemExit
                    || e is KeyboardInterrupt),
                ExcType::ArithmeticError => e is ArithmeticError || e is OverflowError
                    || e is ZeroDivisionError,
                ExcType::ImportError => e is ImportError || e is ModuleNotFoundError,
                ExcType::LookupError => e is LookupError || e is IndexError || e is KeyError,
                ExcType::NameError => e is NameError || e is UnboundLocalError,
                ExcType::OSError => e is OSError || e is FileNotFoundError || e is TimeoutError,
                ExcType::RuntimeError => e is RuntimeError || e is NotImplementedError
                    || e is RecursionError,
                ExcType::ValueError => e is ValueError || e is UnicodeDecodeError,
                _ => e == a,
            },
        ),
{
    handlers_catch_as_in_python(e, a);
}

/// A clause for a number or a text is a type error.
pub proof fn clauses_are_for_classes<T>(h: HeapView<T>, t: Type, v: Value, room: nat)
    requires
        v is PyNone || v is Int || v is Bool || v is InternString,
    ensures
        raises(exc_matches(h, t, v, room), ExcType::TypeError),
{
}

/// The type of an exception object is its class.
pub proof fn exceptions_have_their_class<T>(h: HeapView<T>, id: HeapId, e: ExceptionView)
    requires
        h.data(id) == Some(DataView::Exception(e)),
    ensures
        h.type_of(Value::Ref(id)) == Type::Exception(e.exc_type),
{
}

/// An exception is caught by the first handler of the innermost function that protects the
/// instruction: the function goes on at the handler, its stack is cut to the height the handler
/// expects, and the exception is on top of it and the one being handled.
pub proof fn own_handler_catches<T: ResourceTracker>(
    vm: VmView<T>,
    error: ErrorView,
    k: int,
    rounds: nat,
)
    requires
        error is Exc,
        vm.frames.len() > 0,
        vm.instruction_ip <= u32::MAX,
        ({
            let handlers = vm.code_of(vm.frames.last()).handlers@;
            &&& 0 <= k < handlers.len()
            &&& handlers[k].start <= vm.instruction_ip < handlers[k].end
            &&& forall|i: int|
                0 <= i < k ==> vm.instruction_ip < (#[trigger] handlers[i]).start
                    || handlers[i].end <= vm.instruction_ip
            &&& vm.frames.last().stack_base + handlers[k].stack_depth <= vm.stack.len()
        }),
        vm.heap.tracker.admits(),
        vm.heap.entries.len() < usize::MAX,
    ensures
        ({
            let said = vm.handled(error, rounds);
            let entry = vm.code_of(vm.frames.last()).handlers@[k];
            let height = vm.frames.last().stack_base + entry.stack_depth;
            let id = HeapId(vm.heap.entries.len() as usize);
            let n = vm.frames.len() - 1;
            &&& said.result is None
            &&& said.vm.stack == vm.stack.take(height).push(Value::Ref(id))
            &&& said.vm.exception_stack == vm.exception_stack.push(Value::Ref(id))
            &&& said.vm.frames.len() == vm.frames.len()
            &&& said.vm.frames[n].ip == entry.handler
            &&& said.vm.frames[n].namespace_idx == vm.frames[n].namespace_idx
            &&& said.vm.frames[n].function_id == vm.frames[n].function_id
            &&& said.vm.frames.drop_last() == vm.frames.drop_last()
            &&& said.vm.heap.data(id) matches Some(d) ==> d == DataView::Exception(
                error->Exc_0.exc,
            )
        }),
{
    let handlers = vm.code_of(vm.frames.last()).handlers@;
    first_handler_is_found(handlers, vm.instruction_ip as u32, k);
    let entry = handlers[k];
    let raise = vm.framed(error)->Exc_0;
    let made = vm.heap.made(DataView::Exception(raise.exc));
    let exc = made.result->Ok_0;
    let id = HeapId(vm.heap.entries.len() as usize);
    let start = vm.with_heap(made.heap);
    assert(start.handler() == Some(entry));
    let height = vm.frames.last().stack_base + entry.stack_depth;
    let above = vm.stack.skip(height).reverse();
    release_values_only_frees(made.heap, above);
    let said = vm.handled(error, rounds);
    assert(vm.stack.take(vm.stack.len() as int) =~= vm.stack);
    assert(said.vm.frames.drop_last() =~= vm.frames.drop_last());
    let cut = start.cut(height);
    assert(said.vm.heap == cut.heap.inc_value(exc));
    let _ = (cut.heap.entry(id), made.heap.entry(id));
}

/// An exception that nothing catches ends the program, as what it is; its traceback ends where it
/// was raised.
pub proof fn uncaught_exception_is_handed_back<T: ResourceTracker>(
    vm: VmView<T>,
    error: ErrorView,
    rounds: nat,
)
    requires
        error is Exc,
        error->Exc_0.frame is None,
        vm.frames.len() == 1,
        ({
            let handlers = vm.code_of(vm.frames.last()).handlers@;
            forall|i: int|
                0 <= i < handlers.len() ==> vm.instruction_ip < (#[trigger] handlers[i]).start
                    || handlers[i].end <= vm.instruction_ip
        }),
        !vm.spawned_task(),
        vm.heap.tracker.admits(),
    ensures
        vm.handled(error, rounds).result matches Some(ErrorView::Exc(raise)) && raise.exc
            == error->Exc_0.exc && (raise.frame matches Some(f) && f.position == vm.position()
            && f.frame_name == vm.frame_name() && f.parent is None),
{
    let handlers = vm.code_of(vm.frames.last()).handlers@;
    if vm.instruction_ip <= u32::MAX {
        unprotected_code_has_no_handler(handlers, vm.instruction_ip as u32);
    }
    let raise = vm.framed(error)->Exc_0;
    let made = vm.heap.made(DataView::Exception(raise.exc));
    let start = vm.with_heap(made.heap);
    assert(start.handler() is None);
}

/// An exception that is raised in a function and that nothing catches has two lines in its
/// traceback: where the function was called, and where the exception was raised.
pub proof fn traceback_shows_the_calls<T: ResourceTracker>(
    vm: VmView<T>,
    error: ErrorView,
    position: CodeRange,
    rounds: nat,
    source: Seq<char>,
)
    requires
        error is Exc,
        error->Exc_0.frame is None,
        vm.frames.len() == 2,
        vm.frames[1].call_position == Some(position),
        vm.handler() is None,
        vm.frames[1].call_ip <= u32::MAX,
        ({
            let handlers = vm.code_of(vm.frames[0]).handlers@;
            forall|i: int|
                0 <= i < handlers.len() ==> vm.frames[1].call_ip < (#[trigger] handlers[i]).start
                    || handlers[i].end <= vm.frames[1].call_ip
        }),
        !vm.spawned_task(),
        vm.heap.tracker.admits(),
    ensures
        vm.handled(error, rounds).result matches Some(left) && {
            let info = left.info(vm.interns, source);
            &&& left is Exc
            &&& info.exc_type == error->Exc_0.exc.exc_type
            &&& info.traceback.len() == 2
            &&& info.traceback[0].position == position
            &&& info.traceback[1].position == vm.position()
            &&& info.traceback[1].frame_name == vm.interns.text(vm.frame_name())
        },
{
    let handlers = vm.code_of(vm.frames[0]).handlers@;
    unprotected_code_has_no_handler(handlers, vm.frames[1].call_ip as u32);
    let raise = vm.framed(error)->Exc_0;
    let made = vm.heap.made(DataView::Exception(raise.exc));
    let start = vm.with_heap(made.heap);
    assert(start.handler() is None);
    let at = start.at_caller();
    assert(at.frames.len() == 1);
    assert(at.frames[0] == vm.frames[0]);
    assert(at.handler() is None);
    let passed = start.passed_on(ErrorView::Exc(raise));
    assert(start.searched(ErrorView::Exc(raise), made.result->Ok_0) == at.searched(
        passed,
        made.result->Ok_0,
    ));
    assert(at.searched(passed, made.result->Ok_0).error == passed);
    let f = raise.frame->0;
    let caller = RawStackFrame {
        position,
        frame_name: start.frame_popped().frame_name(),
        hide_caret: false,
        parent: None,
    };
    traceback_begins_with_the_caller(f, caller, vm.interns, source);
    reveal_with_fuel(trace_lines, 2);
    let lines = trace_lines(f, vm.interns, source);
    assert(lines.len() == 1);
    let longer = trace_lines(f.with_caller(caller), vm.interns, source);
    assert(longer[1] == lines[0]);
    assert(passed->Exc_0.frame == Some(f.with_caller(caller)));
}

/// An error gets the place where it was raised as the only line of its traceback; a traceback that
/// is there already stays as it is.
pub proof fn traceback_starts_where_it_was_raised<T: ResourceTracker>(vm: VmView<T>, error: ErrorView)
    ensures
        error matches ErrorView::Exc(raise) ==> {
            &&& vm.framed(error) matches ErrorView::Exc(framed)
            &&& framed.exc == raise.exc
            &&& raise.frame is Some ==> framed.frame == raise.frame
            &&& raise.frame is None ==> (framed.frame matches Some(f) && f.position == vm.position()
                && f.frame_name == vm.frame_name() && f.parent is None && f.hide_caret
                == raise.hide_caret)
        },
        error matches ErrorView::UncatchableExc(raise) ==> {
            &&& vm.framed(error) matches ErrorView::UncatchableExc(framed)
            &&& framed.exc == raise.exc
            &&& raise.frame is Some ==> framed.frame == raise.frame
            &&& raise.frame is None ==> (framed.frame matches Some(f) && f.position == vm.position())
        },
{
}

/// A function that is done leaves the stack as high as it was when the function was called, and
/// its caller goes on.
pub proof fn finished_frame_is_gone<T: ResourceTracker>(vm: VmView<T>)
    requires
        vm.frames.len() > 0,
        vm.frames.last().stack_base <= vm.stack.len(),
    ensures
        ({
            let after = vm.frame_popped();
            let n = vm.frames.len() - 1;
            let base = vm.frames.last().stack_base as int;
            &&& after.frames.len() == n
            &&& forall|i: int| 0 <= i < n ==> (#[trigger] after.frames[i]) == vm.frames[i]
            &&& after.stack.len() == base
            &&& forall|i: int| 0 <= i < base ==> (#[trigger] after.stack[i]) == vm.stack[i]
            &&& vm.frames.last().namespace_idx.0 != 0 && vm.namespaces.get(
                vm.frames.last().namespace_idx,
            ) is Some ==> after.namespaces.get(vm.frames.last().namespace_idx) is None
            &&& vm.frames.last().namespace_idx.0 == 0 ==> after.namespaces == vm.namespaces
        }),
{
    let id = vm.frames.last().namespace_idx;
    if id.0 != 0 && vm.namespaces.get(id) is Some {
        let other = if id.0 == 1 {
            NamespaceId(2)
        } else {
            NamespaceId(1)
        };
        other_namespaces_stay(vm.namespaces, id, other, Seq::empty());
    }
}

/// Whether an error is another one with a longer traceback.
pub open spec fn same_error(a: ErrorView, b: ErrorView) -> bool {
    match (a, b) {
        (ErrorView::Internal(x), ErrorView::Internal(y)) => x == y,
        (ErrorView::Exc(x), ErrorView::Exc(y)) => x.exc == y.exc,
        (ErrorView::UncatchableExc(x), ErrorView::UncatchableExc(y)) => x.exc == y.exc,
        _ => false,
    }
}

proof fn unwinding_keeps_the_error<T: ResourceTracker>(vm: VmView<T>, error: ErrorView)
    ensures
        same_error(error, vm.unwound(error).1),
    decreases vm.frames.len(),
{
    if vm.frames.len() > 1 {
        unwinding_keeps_the_error(vm.frame_popped(), vm.passed_on(error));
    }
}

/// An error that programs cannot catch ends the program as what it is, whatever handlers there
/// are.
pub proof fn uncatchable_error_is_handed_back<T: ResourceTracker>(
    vm: VmView<T>,
    error: ErrorView,
    rounds: nat,
)
    requires
        !(error is Exc),
    ensures
        vm.handled(error, rounds).result matches Some(left) && same_error(error, left),
{
    unwinding_keeps_the_error(vm, vm.framed(error));
}

proof fn searching_keeps_the_error<T: ResourceTracker>(vm: VmView<T>, error: ErrorView, exc: Value)
    ensures
        same_error(error, vm.searched(error, exc).error),
    decreases vm.frames.len(),
{
    if vm.handler() is None && vm.frames.len() > 1 {
        searching_keeps_the_error(vm.at_caller(), vm.passed_on(error), exc);
    }
}

/// An exception that nothing catches on its way out of the main task ends the program as what it
/// is, however deeply calls are nested.
pub proof fn exceptions_stay_what_they_are<T: ResourceTracker>(
    vm: VmView<T>,
    error: ErrorView,
    rounds: nat,
)
    requires
        error is Exc,
        !vm.spawned_task(),
        vm.heap.tracker.admits(),
    ensures
        vm.handled(error, rounds).result matches Some(left) ==> same_error(error, left),
{
    let raise = vm.framed(error)->Exc_0;
    let made = vm.heap.made(DataView::Exception(raise.exc));
    let start = vm.with_heap(made.heap);
    searching_keeps_the_error(start, ErrorView::Exc(raise), made.result->Ok_0);
    search_keeps_scheduler(start, ErrorView::Exc(raise), made.result->Ok_0);
}

} // verus!
