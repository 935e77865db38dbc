//! Calls.

use vstd::prelude::*;
use crate::args::{ArgValues, ArgsView, KwargsValues};
use crate::asyncio::{Coroutine, CoroutineState, CoroutineView};
use crate::builtins::{BuiltinCall, Builtins, BuiltinsFunctions, CallView};
use crate::containers::{dict_from, Dict};
use crate::error::{CodeRange, ErrorView, Fault, MessageView, RunError, RunResult};
use crate::frame::{frames_view, CallFrame, FrameView};
use crate::heap::{pair_values, DataView, Heap, HeapData, HeapView};
use crate::ids::{FunctionId, HeapId, NamespaceId, StringId};
use crate::interns::{EitherStr, Function, Interns, StaticStrings};
use crate::list::{List, ListOp, ListView};
use crate::list_methods::{method_op, refused};
use crate::namespaces::{depth_error, namespace_released, trimmed, undefined, NamespacesView};
use crate::print::PrintWriter;
use crate::resource::{ResourceError, ResourceTracker};
use crate::sort::{abandoned, do_list_sort, resume_list_sort, sort_called, sort_went_on, SortJob, SortStep, SortView};
use crate::types::{ExcType, Type};
use crate::value::{copy_values, Value};
use crate::vm::async_exec::{copy_ids, counting_keeps_data};
use crate::vm::call_result::{
    AttrCallResult, Binding, BindingView, CallResult, CallResultView, Calling, CallingView,
};
use crate::vm::collections::{copy_pairs, inc_pairs};
use crate::vm::{VmView, VM};

verus! {

/// A call that is over, with an error.
pub open spec fn call_fails(error: ErrorView) -> CallingView {
    CallingView::Done(Err(error))
}

/// A call that has come to a value, or to an error.
pub open spec fn call_returns(result: Result<Value, ErrorView>) -> CallingView {
    CallingView::Done(
        match result {
            Ok(v) => Ok(CallResultView::Push(v)),
            Err(e) => Err(e),
        },
    )
}

/// Keyword arguments whose names are literals of the program.
pub open spec fn named_pairs(names: Seq<StringId>, values: Seq<Value>) -> Seq<(Value, Value)> {
    Seq::new(names.len(), |i: int| (Value::InternString(names[i]), values[i]))
}

/// Whether a value, if it is a function of the program, is one the program has.
pub open spec fn function_known<T>(vm: VmView<T>, callable: Value) -> bool {
    match callable {
        Value::DefFunction(id) => vm.interns.has_function(id),
        Value::Ref(id) => match vm.heap.data(id) {
            Some(DataView::Closure(f, _, _)) => vm.interns.has_function(f),
            Some(DataView::FunctionDefaults(f, _)) => vm.interns.has_function(f),
            _ => true,
        },
        _ => true,
    }
}

/// Whether a sort of a list went as it is said to go.
pub open spec fn list_sorted<W: PrintWriter, T: ResourceTracker>(
    h: HeapView<T>,
    interns: Interns,
    list_id: HeapId,
    args: ArgsView,
    state: W::State,
    step: SortStep,
    state_after: W::State,
    after: HeapView<T>,
) -> bool {
    sort_called::<W, T>(h, interns, list_id, args, state, step, state_after, after)
}

/// How a call of `list.sort` goes on after a step of the sort.
pub open spec fn sort_call(obj: Value, step: SortStep) -> CallingView {
    match step {
        SortStep::Done(Ok(_)) => CallingView::Done(Ok(CallResultView::Push(Value::PyNone))),
        SortStep::Done(Err(e)) => CallingView::Done(Err(e@)),
        SortStep::NeedsKey(job, b, args) => CallingView::SortKey(obj, job@, b, args@),
    }
}

/// The machine after a step of a sort; the list is given up when the sort is done.
pub open spec fn sort_left<T>(vm: VmView<T>, obj: Value, step: SortStep, heap: HeapView<T>) -> VmView<
    T,
> {
    match step {
        SortStep::Done(_) => vm.with_heap(heap).release(obj),
        SortStep::NeedsKey(_, _, _) => vm.with_heap(heap),
    }
}

/// What calling a method of a list leads to; the list is out of the heap.
pub open spec fn list_attr_op<T: ResourceTracker>(
    h: HeapView<T>,
    interns: Interns,
    list: ListView,
    name: StringId,
    args: ArgsView,
) -> ListOp<Value, T> {
    match StaticStrings::of_id(name) {
        Some(method) => method_op(h, interns, list, method, args),
        None => refused(
            h,
            list,
            args,
            ErrorView::raised(
                ExcType::AttributeError,
                MessageView::NoAttributeText(Type::List, interns.text(name)),
            ),
        ),
    }
}

/// Whether calling a method of an object went as it is said to go.
///
/// Methods of lists are called here. `dict.fromkeys`, `bytes.fromhex` and the methods of other
/// objects, of strings and of bytes are called elsewhere. Nothing else has methods.
pub open spec fn attr_called<W: PrintWriter, T: ResourceTracker>(
    vm: VmView<T>,
    state: W::State,
    obj: Value,
    name: StringId,
    args: ArgsView,
    r: CallingView,
    after: VmView<T>,
    state_after: W::State,
) -> bool {
    let elsewhere = r == CallingView::Method(obj, name, args) && after == vm && state_after
        == state;
    match obj {
        Value::Ref(id) => match vm.heap.data(id) {
            Some(DataView::List(l)) => if name == StaticStrings::Sort.id() {
                exists|step: SortStep, h: HeapView<T>| #[trigger]
                    list_sorted::<W, T>(
                        vm.heap,
                        vm.interns,
                        id,
                        args,
                        state,
                        step,
                        state_after,
                        h,
                    ) && r == sort_call(obj, step) && after == sort_left(vm, obj, step, h)
            } else {
                let op = list_attr_op(vm.heap.set_data(id, None), vm.interns, l, name, args);
                &&& r == call_returns(op.result)
                &&& after == vm.with_heap(
                    op.heap.set_data(id, Some(DataView::List(op.list))),
                ).release(obj)
                &&& state_after == state
            },
            _ => elsewhere,
        },
        Value::InternString(_) | Value::InternBytes(_) => elsewhere,
        Value::Builtin(Builtins::Type(t)) => if (t == Type::Dict && name
            == StaticStrings::Fromkeys.id()) || (t == Type::Bytes && name
            == StaticStrings::Fromhex.id()) {
            elsewhere
        } else {
            &&& r == call_fails(
                ErrorView::fault(ExcType::AttributeError, Fault::NoAttribute(t, name)),
            )
            &&& after == vm.with_heap(vm.heap.release_args(args))
            &&& state_after == state
        },
        _ => {
            &&& r == call_fails(
                ErrorView::fault(
                    ExcType::AttributeError,
                    Fault::NoAttribute(vm.heap.type_of(obj), name),
                ),
            )
            &&& after == vm.with_heap(vm.heap.release_args(args))
            &&& state_after == state
        },
    }
}

/// What a call leads to.
pub struct Called<T> {
    pub vm: VmView<T>,
    pub calling: CallingView,
}

impl<T: ResourceTracker> VmView<T> {
    /// What calling a function of the program leads to: once its arguments are bound, a frame
    /// is pushed, or a coroutine is made if the function is async.
    ///
    /// If calls are nested too deeply, what the call has been given stays counted.
    pub open spec fn def_called(
        self,
        func_id: FunctionId,
        cells: Seq<HeapId>,
        defaults: Seq<Value>,
        args: ArgsView,
    ) -> Called<T> {
        if self.interns.function(func_id).is_async {
            Called {
                vm: self,
                calling: CallingView::Bind(
                    BindingView { func_id, cells, defaults, frame: None },
                    args,
                ),
            }
        } else {
            match depth_error(self.heap.tracker, self.namespaces.depth) {
                Some(e) => Called { vm: self, calling: call_fails(ErrorView::resource(e)) },
                None => Called {
                    vm: VmView { namespaces: self.namespaces.added(Seq::empty()), ..self },
                    calling: CallingView::Bind(
                        BindingView {
                            func_id,
                            cells,
                            defaults,
                            frame: Some((self.namespaces.next_id(), self.position())),
                        },
                        args,
                    ),
                },
            }
        }
    }

    /// What calling an object leads to; it is given up.
    pub open spec fn object_called(self, id: HeapId, args: ArgsView) -> Called<T> {
        match self.heap.data(id) {
            Some(DataView::Closure(f, cells, defaults)) => self.with_heap(
                self.heap.inc_ids(cells).inc_values(defaults).release(Value::Ref(id)),
            ).def_called(f, cells, defaults, args),
            Some(DataView::FunctionDefaults(f, defaults)) => self.with_heap(
                self.heap.inc_values(defaults).release(Value::Ref(id)),
            ).def_called(f, Seq::empty(), defaults, args),
            _ => Called {
                vm: self.with_heap(self.heap.release(Value::Ref(id)).release_args(args)),
                calling: call_fails(ErrorView::fault(ExcType::TypeError, Fault::NotCallable)),
            },
        }
    }
}

/// Whether a call went as it is said to go.
pub open spec fn function_called<W: PrintWriter, T: ResourceTracker>(
    vm: VmView<T>,
    state: W::State,
    callable: Value,
    args: ArgsView,
    r: CallingView,
    after: VmView<T>,
    state_after: W::State,
) -> bool {
    match callable {
        Value::Builtin(b) => match b.called::<W, T>(state, vm.heap, args, vm.interns) {
            CallView::Done { state: s, heap, result } => {
                &&& r == call_returns(result)
                &&& after == vm.with_heap(heap)
                &&& state_after == s
            },
            CallView::Elsewhere => {
                &&& r == CallingView::Builtin(b, args)
                &&& after == vm
                &&& state_after == state
            },
        },
        Value::ModuleFunction(f) => {
            &&& r == CallingView::ModuleFunction(f, args)
            &&& after == vm
            &&& state_after == state
        },
        Value::ExtFunction(id) => {
            &&& r == CallingView::Done(Ok(CallResultView::External(id, args)))
            &&& after == vm
            &&& state_after == state
        },
        Value::DefFunction(id) => {
            let said = vm.def_called(id, Seq::empty(), Seq::empty(), args);
            r == said.calling && after == said.vm && state_after == state
        },
        Value::Ref(id) => {
            let said = vm.object_called(id, args);
            r == said.calling && after == said.vm && state_after == state
        },
        _ => {
            &&& r == call_fails(ErrorView::fault(ExcType::TypeError, Fault::NotCallable))
            &&& after == vm.with_heap(vm.heap.release_args(args))
            &&& state_after == state
        },
    }
}

impl<'a, T: ResourceTracker> VM<'a, T> {
    /// Takes the top `n` values as positional arguments.
    fn pop_n_args(&mut self, n: usize) -> (r: ArgValues)
        requires
            old(self)@.stack.len() >= n,
        ensures
            r@ == (ArgsView { pos: old(self)@.top_n(n as int), pairs: Seq::empty() }),
            final(self)@ == old(self)@.popped(n as int),
    {
        let ghost said = ArgsView { pos: self@.top_n(n as int), pairs: Seq::<(Value, Value)>::empty() };
        if n == 0 {
            assert(ArgValues::Empty@ =~= said);
            assert(self@.stack =~= old(self)@.popped(0).stack);
            ArgValues::Empty
        } else if n == 1 {
            let a: Value = self.pop();
            assert(ArgValues::One(a)@ =~= said);
            ArgValues::One(a)
        } else if n == 2 {
            let b: Value = self.pop();
            let a: Value = self.pop();
            assert(ArgValues::Two(a, b)@ =~= said);
            assert(self@.stack =~= old(self)@.popped(2).stack);
            ArgValues::Two(a, b)
        } else {
            let args: Vec<Value> = self.pop_n(n);
            let r: ArgValues = ArgValues::ArgsKargs { args, kwargs: KwargsValues::Empty };
            assert(r@ =~= said);
            r
        }
    }

    /// Calls a function of the program, up to binding its arguments.
    fn call_def_function(
        &mut self,
        func_id: FunctionId,
        cells: Vec<HeapId>,
        defaults: Vec<Value>,
        args: ArgValues,
    ) -> (r: Calling)
        requires
            old(self)@.interns.has_function(func_id),
        ensures
            ({
                let said = old(self)@.def_called(func_id, cells@, defaults@, args@);
                r@ == said.calling && final(self)@ == said.vm
            }),
    {
        let mut frame: Option<(NamespaceId, CodeRange)> = None;
        if !self.interns.get_function(func_id).is_async {
            let call_position: CodeRange = self.current_position();
            match self.namespaces.new_namespace(&self.heap) {
                Err(e) => {
                    return Calling::Done(Err(RunError::resource(e)));
                },
                Ok(id) => {
                    frame = Some((id, call_position));
                },
            }
        }
        Calling::Bind(Binding { func_id, cells, defaults, frame }, args)
    }

    /// Calls an object on the heap.
    fn call_heap_callable(&mut self, id: HeapId, args: ArgValues) -> (r: Calling)
        requires
            function_known(old(self)@, Value::Ref(id)),
        ensures
            ({
                let said = old(self)@.object_called(id, args@);
                r@ == said.calling && final(self)@ == said.vm
            }),
    {
        let mut func: Option<FunctionId> = None;
        let mut cells: Vec<HeapId> = Vec::new();
        let mut defaults: Vec<Value> = Vec::new();
        assert(cells@ =~= Seq::empty());
        match self.heap.get(id) {
            Some(HeapData::Closure(f, captured, values)) => {
                func = Some(*f);
                cells = copy_ids(captured);
                defaults = copy_values(values.as_slice());
            },
            Some(HeapData::FunctionDefaults(f, values)) => {
                func = Some(*f);
                defaults = copy_values(values.as_slice());
            },
            _ => {},
        }
        match func {
            None => {
                Value::Ref(id).drop_with_heap(&mut self.heap);
                args.drop_with_heap(&mut self.heap);
                Calling::Done(Err(RunError::type_error(Fault::NotCallable)))
            },
            Some(f) => {
                self.heap.inc_ids(cells.as_slice());
                self.heap.inc_values(defaults.as_slice());
                Value::Ref(id).drop_with_heap(&mut self.heap);
                self.call_def_function(f, cells, defaults, args)
            },
        }
    }

    /// Calls a value.
    fn call_function<W: PrintWriter>(&mut self, callable: Value, args: ArgValues, print: &mut W) -> (r:
        Calling)
        requires
            function_known(old(self)@, callable),
        ensures
            function_called::<W, T>(
                old(self)@,
                old(print).state(),
                callable,
                args@,
                r@,
                final(self)@,
                final(print).state(),
            ),
    {
        match callable {
            Value::Builtin(b) => match b.call(&mut self.heap, args, self.interns, print) {
                BuiltinCall::Done(Ok(v)) => Calling::Done(Ok(CallResult::Push(v))),
                BuiltinCall::Done(Err(e)) => Calling::Done(Err(e)),
                BuiltinCall::Elsewhere(c, args) => Calling::Builtin(c, args),
            },
            Value::ModuleFunction(f) => Calling::ModuleFunction(f, args),
            Value::ExtFunction(id) => Calling::Done(Ok(CallResult::External(id, args))),
            Value::DefFunction(id) => {
                let cells: Vec<HeapId> = Vec::new();
                let defaults: Vec<Value> = Vec::new();
                assert(cells@ =~= Seq::empty());
                assert(defaults@ =~= Seq::empty());
                self.call_def_function(id, cells, defaults, args)
            },
            Value::Ref(id) => self.call_heap_callable(id, args),
            _ => {
                args.drop_with_heap(&mut self.heap);
                Calling::Done(Err(RunError::type_error(Fault::NotCallable)))
            },
        }
    }

    /// Goes on with a call of `list.sort` after a step of the sort.
    fn sort_stepped(&mut self, obj: Value, step: SortStep) -> (r: Calling)
        ensures
            r@ == sort_call(obj, step),
            final(self)@ == sort_left(old(self)@, obj, step, old(self)@.heap),
    {
        match step {
            SortStep::Done(result) => {
                obj.drop_with_heap(&mut self.heap);
                match result {
                    Ok(()) => Calling::Done(Ok(CallResult::Push(Value::PyNone))),
                    Err(e) => Calling::Done(Err(e)),
                }
            },
            SortStep::NeedsKey(job, b, args) => Calling::SortKey(obj, job, b, args),
        }
    }

    /// Calls a method of an object.
    fn call_attr<W: PrintWriter>(
        &mut self,
        obj: Value,
        name_id: StringId,
        args: ArgValues,
        print: &mut W,
    ) -> (r: Calling)
        ensures
            attr_called::<W, T>(
                old(self)@,
                old(print).state(),
                obj,
                name_id,
                args@,
                r@,
                final(self)@,
                final(print).state(),
            ),
    {
        let ghost before = self@;
        match obj {
            Value::Ref(id) => {
                let is_list: bool = match self.heap.get(id) {
                    Some(HeapData::List(_)) => true,
                    _ => false,
                };
                if !is_list {
                    return Calling::Method(obj, name_id, args);
                }
                if name_id == StaticStrings::Sort.string_id() {
                    let step: SortStep = do_list_sort(
                        id,
                        args,
                        &mut self.heap,
                        self.interns,
                        print,
                    );
                    assert(list_sorted::<W, T>(
                        before.heap,
                        before.interns,
                        id,
                        args@,
                        old(print).state(),
                        step,
                        print.state(),
                        self.heap@,
                    ));
                    return self.sort_stepped(obj, step);
                }
                let mut called: RunResult<Value> = Ok(Value::PyNone);
                if let Some(HeapData::List(list)) = self.heap.take_data(id) {
                    let mut list: List = list;
                    called = list.py_call_attr(
                        &mut self.heap,
                        &EitherStr::Interned(name_id),
                        args,
                        self.interns,
                    );
                    self.heap.put_data(id, HeapData::List(list));
                }
                obj.drop_with_heap(&mut self.heap);
                match called {
                    Ok(v) => Calling::Done(Ok(CallResult::Push(v))),
                    Err(e) => Calling::Done(Err(e)),
                }
            },
            Value::InternString(_) => Calling::Method(obj, name_id, args),
            Value::InternBytes(_) => Calling::Method(obj, name_id, args),
            Value::Builtin(Builtins::Type(t)) => self.call_type_method(t, name_id, args),
            _ => {
                let t: Type = obj.py_type(&self.heap);
                args.drop_with_heap(&mut self.heap);
                Calling::Done(
                    Err(
                        RunError::fault(ExcType::AttributeError, Fault::NoAttribute(t, name_id)),
                    ),
                )
            },
        }
    }

    /// Calls a method of a type.
    fn call_type_method(&mut self, t: Type, method_id: StringId, args: ArgValues) -> (r: Calling)
        ensures
            (t == Type::Dict && method_id == StaticStrings::Fromkeys.id()) || (t == Type::Bytes
                && method_id == StaticStrings::Fromhex.id()) ==> r@ == CallingView::Method(
                Value::Builtin(Builtins::Type(t)),
                method_id,
                args@,
            ) && final(self)@ == old(self)@,
            !((t == Type::Dict && method_id == StaticStrings::Fromkeys.id()) || (t == Type::Bytes
                && method_id == StaticStrings::Fromhex.id())) ==> r@ == call_fails(
                ErrorView::fault(ExcType::AttributeError, Fault::NoAttribute(t, method_id)),
            ) && final(self)@ == old(self)@.with_heap(old(self)@.heap.release_args(args@)),
    {
        let known: bool = match t {
            Type::Dict => method_id == StaticStrings::Fromkeys.string_id(),
            Type::Bytes => method_id == StaticStrings::Fromhex.string_id(),
            _ => false,
        };
        if known {
            return Calling::Method(Value::Builtin(Builtins::Type(t)), method_id, args);
        }
        args.drop_with_heap(&mut self.heap);
        Calling::Done(
            Err(RunError::fault(ExcType::AttributeError, Fault::NoAttribute(t, method_id))),
        )
    }
}

/// How far making the cells of a call has come.
#[verifier::ext_equal]
pub struct CellRun<T> {
    pub heap: HeapView<T>,
    pub namespace: Seq<Value>,
    pub cells: Seq<HeapId>,
    pub error: Option<ResourceError>,
}

/// What making the first `n` cells of a call leads to: each starts from a parameter, whose
/// value is counted once more, or unassigned, and stands in the namespace behind the
/// parameters.
pub open spec fn cells_made<T: ResourceTracker>(
    h: HeapView<T>,
    bound: Seq<Value>,
    params: Seq<Option<usize>>,
    n: int,
) -> CellRun<T>
    decreases n,
{
    if n <= 0 {
        CellRun { heap: h, namespace: bound, cells: Seq::empty(), error: None }
    } else {
        let before = cells_made(h, bound, params, n - 1);
        if before.error is Some {
            before
        } else {
            let v = match params[n - 1] {
                Some(p) => before.namespace[p as int],
                None => Value::Undefined,
            };
            let counted = before.heap.inc_value(v);
            let heap = counted.allocated(DataView::Cell(v));
            match counted.next_id() {
                Err(e) => CellRun { heap, error: Some(e), ..before },
                Ok(id) => CellRun {
                    heap,
                    namespace: before.namespace.push(Value::Ref(id)),
                    cells: before.cells.push(id),
                    error: None,
                },
            }
        }
    }
}

/// References as values.
pub open spec fn as_refs(ids: Seq<HeapId>) -> Seq<Value> {
    ids.map_values(|id: HeapId| Value::Ref(id))
}

/// A namespace with unassigned variables up to its size.
pub open spec fn filled_up(values: Seq<Value>, size: nat) -> Seq<Value> {
    if values.len() < size {
        values + undefined((size - values.len()) as nat)
    } else {
        values
    }
}

impl<T: ResourceTracker> VmView<T> {
    /// The machine with other values in a namespace that has been added for a call.
    pub open spec fn with_namespace(self, frame: Option<(NamespaceId, CodeRange)>, values: Seq<Value>) -> VmView<
        T,
    > {
        match frame {
            None => self,
            Some((id, _)) => VmView {
                namespaces: self.namespaces.replaced(id, values),
                ..self
            },
        }
    }

    /// What a call leads to whose arguments could not be bound: what was bound and the
    /// defaults are given up.
    pub open spec fn binding_failed(self, call: BindingView, bound: Seq<Value>, error: ErrorView) -> Called<
        T,
    > {
        let (heap, namespaces) = match call.frame {
            None => (self.heap.release_values(bound), self.namespaces),
            Some((id, _)) => {
                let kept = self.namespaces.replaced(id, bound);
                (namespace_released(self.heap, kept, id), kept.removed(id))
            },
        };
        Called {
            vm: VmView { heap: heap.release_values(call.defaults), namespaces, ..self },
            calling: call_fails(error),
        }
    }

    /// What a call leads to whose arguments are bound; the defaults are given up.
    pub open spec fn binding_done(self, call: BindingView, bound: Seq<Value>) -> Called<T> {
        self.with_heap(self.heap.release_values(call.defaults)).call_bound(call, bound)
    }

    /// What a call leads to whose arguments are bound and whose defaults are given up.
    ///
    /// The namespace holds what was bound, the cells of the call, the captured cells, counted
    /// once more, and unassigned variables. A frame is pushed, or a coroutine is made.
    pub open spec fn call_bound(self, call: BindingView, bound: Seq<Value>) -> Called<T> {
        let f = self.interns.function(call.func_id);
        let params = f.cell_param_indices@;
        let run = cells_made(self.heap, bound, params, params.len() as int);
        let vm = self.with_heap(run.heap);
        match run.error {
            Some(e) => Called {
                vm: vm.with_namespace(call.frame, run.namespace),
                calling: call_fails(ErrorView::resource(e)),
            },
            None => {
                let counted = vm.with_heap(run.heap.inc_ids(call.cells));
                let namespace = filled_up(
                    run.namespace + as_refs(call.cells),
                    f.namespace_size as nat,
                );
                let cells = run.cells + call.cells;
                let own = params.len() as usize;
                match call.frame {
                    Some((id, position)) => Called {
                        vm: VmView {
                            frames: counted.frames.push(
                                FrameView::started(
                                    counted.stack.len() as usize,
                                    id,
                                    call.func_id,
                                    cells,
                                    own,
                                    Some(position),
                                    counted.instruction_ip,
                                ),
                            ),
                            ..counted.with_namespace(call.frame, namespace)
                        },
                        calling: CallingView::Done(Ok(CallResultView::FramePushed)),
                    },
                    None => {
                        let made = counted.heap.made(
                            DataView::Coroutine(
                                CoroutineView {
                                    func_id: call.func_id,
                                    namespace,
                                    frame_cells: cells,
                                    own_cells: own,
                                    state: CoroutineState::New,
                                },
                            ),
                        );
                        Called {
                            vm: counted.with_heap(made.heap),
                            calling: call_returns(
                                match made.result {
                                    Ok(v) => Ok(v),
                                    Err(e) => Err(ErrorView::resource(e)),
                                },
                            ),
                        }
                    },
                }
            },
        }
    }
}

proof fn settled_cells<T: ResourceTracker>(
    h: HeapView<T>,
    bound: Seq<Value>,
    params: Seq<Option<usize>>,
    k: int,
    n: int,
)
    requires
        0 <= k <= n,
        cells_made(h, bound, params, k).error is Some,
    ensures
        cells_made(h, bound, params, n) == cells_made(h, bound, params, k),
    decreases n - k,
{
    if k < n {
        settled_cells(h, bound, params, k, n - 1);
    }
}

/// Makes the cells of a call.
fn make_cells<T: ResourceTracker>(
    heap: &mut Heap<T>,
    bound: Vec<Value>,
    params: &Vec<Option<usize>>,
) -> (r: (Vec<Value>, Vec<HeapId>, Option<ResourceError>))
    requires
        forall|i: int|
            0 <= i < params@.len() ==> ((#[trigger] params@[i]) matches Some(p) ==> p
                < bound@.len()),
    ensures
        ({
            let said = cells_made(old(heap)@, bound@, params@, params@.len() as int);
            &&& final(heap)@ == said.heap
            &&& r.0@ == said.namespace
            &&& r.1@ == said.cells
            &&& r.2 == said.error
        }),
{
    let ghost start = heap@;
    let ghost all = bound@;
    let mut namespace: Vec<Value> = bound;
    let mut cells: Vec<HeapId> = Vec::new();
    let mut i: usize = 0;
    assert(cells@ =~= Seq::empty());
    while i < params.len()
        invariant
            0 <= i <= params@.len(),
            start == old(heap)@,
            all == bound@,
            namespace@.len() >= all.len(),
            forall|k: int|
                0 <= k < params@.len() ==> ((#[trigger] params@[k]) matches Some(p) ==> p
                    < all.len()),
            cells_made(start, all, params@, i as int) == (CellRun {
                heap: heap@,
                namespace: namespace@,
                cells: cells@,
                error: None,
            }),
        decreases params@.len() - i,
    {
        let v: Value = match params[i] {
            Some(p) => namespace[p].clone_with_heap(heap),
            None => Value::Undefined,
        };
        match heap.allocate(HeapData::Cell(v)) {
            Err(e) => {
                proof {
                    settled_cells(start, all, params@, i + 1, params@.len() as int);
                }
                return (namespace, cells, Some(e));
            },
            Ok(id) => {
                cells.push(id);
                namespace.push(Value::Ref(id));
            },
        }
        i = i + 1;
    }
    (namespace, cells, None)
}

/// Appends references as values.
fn push_cells(namespace: &mut Vec<Value>, cells: &Vec<HeapId>)
    ensures
        final(namespace)@ == old(namespace)@ + as_refs(cells@),
{
    let mut i: usize = 0;
    assert(namespace@ =~= namespace@ + as_refs(cells@.take(0)));
    while i < cells.len()
        invariant
            0 <= i <= cells@.len(),
            namespace@ == old(namespace)@ + as_refs(cells@.take(i as int)),
        decreases cells@.len() - i,
    {
        namespace.push(Value::Ref(cells[i]));
        assert(namespace@ =~= old(namespace)@ + as_refs(cells@.take(i + 1)));
        i = i + 1;
    }
    assert(cells@.take(i as int) =~= cells@);
}

/// Appends unassigned variables up to a size.
fn fill_up(namespace: &mut Vec<Value>, size: usize)
    ensures
        final(namespace)@ == filled_up(old(namespace)@, size as nat),
{
    let ghost start = namespace@;
    assert(start =~= start + undefined(0));
    while namespace.len() < size
        invariant
            start.len() <= namespace@.len(),
            namespace@.len() <= size || namespace@ == start,
            namespace@ == start + undefined((namespace@.len() - start.len()) as nat),
        decreases size - namespace@.len() + start.len(),
    {
        namespace.push(Value::Undefined);
        assert(namespace@ =~= start + undefined((namespace@.len() - start.len()) as nat));
    }
}

impl<'a, T: ResourceTracker> VM<'a, T> {
    /// Makes the namespace of a call and its cells, the captured ones at the end.
    ///
    /// If there is no room for a cell, the namespace stays as far as it has come.
    fn make_namespace(&mut self, func: &Function, captured: &Vec<HeapId>, bound: Vec<Value>) -> (r: (
        Vec<Value>,
        Vec<HeapId>,
        Option<ResourceError>,
    ))
        requires
            func.slots_fit(captured@.len()),
            bound@.len() == func.param_count,
        ensures
            ({
                let params = func.cell_param_indices@;
                let run = cells_made(old(self)@.heap, bound@, params, params.len() as int);
                &&& r.2 == run.error
                &&& run.error is Some ==> r.0@ == run.namespace && final(self)@
                    == old(self)@.with_heap(run.heap)
                &&& run.error is None ==> {
                    &&& r.0@ == filled_up(
                        run.namespace + as_refs(captured@),
                        func.namespace_size as nat,
                    )
                    &&& r.1@ == run.cells + captured@
                    &&& final(self)@ == old(self)@.with_heap(run.heap.inc_ids(captured@))
                }
            }),
    {
        let (namespace, cells, error): (Vec<Value>, Vec<HeapId>, Option<ResourceError>) = make_cells(
            &mut self.heap,
            bound,
            &func.cell_param_indices,
        );
        if error.is_some() {
            return (namespace, cells, error);
        }
        self.heap.inc_ids(captured.as_slice());
        let mut namespace: Vec<Value> = namespace;
        let mut cells: Vec<HeapId> = cells;
        push_cells(&mut namespace, captured);
        fill_up(&mut namespace, func.namespace_size);
        let mut rest: Vec<HeapId> = copy_ids(captured);
        cells.append(&mut rest);
        (namespace, cells, None)
    }

    /// Makes a coroutine of a call of an async function whose arguments are bound.
    fn create_coroutine(&mut self, call: Binding, bound: Vec<Value>) -> (r: Calling)
        requires
            call.frame is None,
            old(self)@.interns.has_function(call.func_id),
            old(self)@.interns.function(call.func_id).slots_fit(call.cells@.len()),
            bound@.len() == old(self)@.interns.function(call.func_id).param_count,
        ensures
            ({
                let said = old(self)@.call_bound(call@, bound@);
                r@ == said.calling && final(self)@ == said.vm
            }),
    {
        let func: &Function = self.interns.get_function(call.func_id);
        let own_cells: usize = func.cell_param_indices.len();
        let (namespace, cells, error): (Vec<Value>, Vec<HeapId>, Option<ResourceError>) =
            self.make_namespace(func, &call.cells, bound);
        if let Some(e) = error {
            return Calling::Done(Err(RunError::resource(e)));
        }
        let coroutine: Coroutine = Coroutine::new(call.func_id, namespace, cells, own_cells);
        match self.heap.allocate(HeapData::Coroutine(coroutine)) {
            Ok(id) => Calling::Done(Ok(CallResult::Push(Value::Ref(id)))),
            Err(e) => Calling::Done(Err(RunError::resource(e))),
        }
    }

    /// Pushes a frame for a call whose arguments are bound.
    fn call_sync_function(
        &mut self,
        call: Binding,
        bound: Vec<Value>,
        namespace_idx: NamespaceId,
        call_position: CodeRange,
    ) -> (r: Calling)
        requires
            call.frame == Some((namespace_idx, call_position)),
            old(self)@.interns.has_function(call.func_id),
            old(self)@.interns.function(call.func_id).slots_fit(call.cells@.len()),
            bound@.len() == old(self)@.interns.function(call.func_id).param_count,
        ensures
            ({
                let said = old(self)@.call_bound(call@, bound@);
                r@ == said.calling && final(self)@ == said.vm
            }),
    {
        let func: &Function = self.interns.get_function(call.func_id);
        let own_cells: usize = func.cell_param_indices.len();
        let (namespace, cells, error): (Vec<Value>, Vec<HeapId>, Option<ResourceError>) =
            self.make_namespace(func, &call.cells, bound);
        self.namespaces.set(namespace_idx, namespace);
        if let Some(e) = error {
            return Calling::Done(Err(RunError::resource(e)));
        }
        let ghost before = self.frames@;
        let frame: CallFrame = CallFrame::new_function(
            self.stack.len(),
            namespace_idx,
            call.func_id,
            cells,
            own_cells,
            Some(call_position),
            self.instruction_ip,
        );
        self.frames.push(frame);
        assert(self@.frames =~= frames_view(before).push(frame@));
        Calling::Done(Ok(CallResult::FramePushed))
    }

    /// Goes on with a call once binding its arguments has come to a result.
    ///
    /// `bound` are the parameters that were bound, all of them if nothing went wrong.
    pub fn finish_call(&mut self, call: Binding, bound: Vec<Value>, result: RunResult<()>) -> (r:
        Calling)
        requires
            old(self)@.interns.has_function(call.func_id),
            old(self)@.interns.function(call.func_id).slots_fit(call.cells@.len()),
            result is Ok ==> bound@.len() == old(self)@.interns.function(call.func_id).param_count,
        ensures
            ({
                let said = match result {
                    Err(e) => old(self)@.binding_failed(call@, bound@, e@),
                    Ok(_) => old(self)@.binding_done(call@, bound@),
                };
                r@ == said.calling && final(self)@ == said.vm
            }),
    {
        if let Err(e) = result {
            match call.frame {
                None => {
                    self.heap.drop_values(bound.as_slice());
                },
                Some((id, _)) => {
                    self.namespaces.set(id, bound);
                    self.namespaces.drop_with_heap(id, &mut self.heap);
                },
            }
            self.heap.drop_values(call.defaults.as_slice());
            return Calling::Done(Err(e));
        }
        self.heap.drop_values(call.defaults.as_slice());
        match call.frame {
            None => self.create_coroutine(call, bound),
            Some((id, position)) => self.call_sync_function(call, bound, id, position),
        }
    }
}

/// What unpacking the arguments of a call leads to.
pub struct Unpacked<T> {
    pub heap: HeapView<T>,
    pub result: Result<ArgsView, ErrorView>,
}

/// Whether a call can be unpacked: positional arguments come in a tuple, keyword arguments in
/// a dict.
pub open spec fn unpackable<T>(h: HeapView<T>, args_tuple: Value, kwargs: Option<Value>) -> bool {
    &&& h.data_of(args_tuple) matches Some(DataView::Tuple(_))
    &&& kwargs matches Some(k) ==> h.data_of(k) matches Some(DataView::Dict(_))
}

/// What putting positional arguments and the entries of a dict together leads to: the entries
/// are counted once more, and the dict is given up.
pub open spec fn kwargs_unpacked<T>(
    h: HeapView<T>,
    interns: Interns,
    pos: Seq<Value>,
    kwargs: Value,
) -> Unpacked<T> {
    let pairs = h.data_of(kwargs)->0->Dict_0;
    let copied = h.inc_values(pair_values(pairs)).release(kwargs);
    let made = dict_from(copied, interns, pairs, pairs.len() as int);
    Unpacked {
        heap: made.heap,
        result: match made.result {
            Err(e) => Err(e),
            Ok(()) => Ok(ArgsView { pos, pairs: made.content }),
        },
    }
}

/// What unpacking the arguments of a call leads to: they are counted once more, and the dict
/// and the tuple are given up. If the keyword arguments cannot be used, the tuple stays.
pub open spec fn args_unpacked<T>(
    h: HeapView<T>,
    interns: Interns,
    args_tuple: Value,
    kwargs: Option<Value>,
) -> Unpacked<T> {
    let pos = h.data_of(args_tuple)->0->Tuple_0;
    let counted = h.inc_values(pos);
    match kwargs {
        None => Unpacked {
            heap: counted.release(args_tuple),
            result: Ok(ArgsView { pos, pairs: Seq::empty() }),
        },
        Some(k) => {
            let named = kwargs_unpacked(counted, interns, pos, k);
            Unpacked {
                heap: if named.result is Ok {
                    named.heap.release(args_tuple)
                } else {
                    named.heap
                },
                result: named.result,
            }
        },
    }
}

/// Arguments with a shape that takes no more than they need.
fn build_args(pos: Vec<Value>, kwargs: KwargsValues, any_kwargs: bool) -> (r: ArgValues)
    requires
        any_kwargs || kwargs@.len() == 0,
    ensures
        r@ == (ArgsView { pos: pos@, pairs: kwargs@ }),
{
    let ghost said = ArgsView { pos: pos@, pairs: kwargs@ };
    if pos.len() == 0 && !any_kwargs {
        assert(ArgValues::Empty@ =~= said);
        ArgValues::Empty
    } else if pos.len() == 0 {
        let r: ArgValues = ArgValues::Kwargs(kwargs);
        assert(r@ =~= said);
        r
    } else {
        ArgValues::ArgsKargs { args: pos, kwargs }
    }
}

/// Positional arguments with a shape that takes no more than they need.
fn build_args_positional_only(pos: Vec<Value>) -> (r: ArgValues)
    ensures
        r@ == (ArgsView { pos: pos@, pairs: Seq::empty() }),
{
    let ghost said = ArgsView { pos: pos@, pairs: Seq::<(Value, Value)>::empty() };
    if pos.len() == 0 {
        assert(ArgValues::Empty@ =~= said);
        ArgValues::Empty
    } else if pos.len() == 1 {
        let r: ArgValues = ArgValues::One(pos[0]);
        assert(r@ =~= said);
        r
    } else if pos.len() == 2 {
        let r: ArgValues = ArgValues::Two(pos[0], pos[1]);
        assert(r@ =~= said);
        r
    } else {
        let r: ArgValues = ArgValues::ArgsKargs { args: pos, kwargs: KwargsValues::Empty };
        assert(r@ =~= said);
        r
    }
}

/// Names with the values passed for them.
fn zip_names(names: Vec<StringId>, values: Vec<Value>) -> (r: KwargsValues)
    requires
        names@.len() == values@.len(),
    ensures
        r@ == named_pairs(names@, values@),
{
    let mut pairs: Vec<(StringId, Value)> = Vec::new();
    let mut i: usize = 0;
    while i < names.len()
        invariant
            0 <= i <= names@.len(),
            names@.len() == values@.len(),
            pairs@.len() == i,
            forall|k: int| 0 <= k < i ==> #[trigger] pairs@[k] == (names@[k], values@[k]),
        decreases names@.len() - i,
    {
        pairs.push((names[i], values[i]));
        i = i + 1;
    }
    let r: KwargsValues = KwargsValues::Inline(pairs);
    assert(r@ =~= named_pairs(names@, values@));
    r
}

impl<T: ResourceTracker> VmView<T> {
    /// The arguments on the stack of a call with `pos` positional arguments followed by keyword
    /// arguments with the given names.
    pub open spec fn args_on_stack(self, pos: int, names: Seq<StringId>) -> ArgsView {
        let n = self.stack.len() - names.len();
        ArgsView {
            pos: self.stack.subrange(n - pos, n),
            pairs: named_pairs(names, self.top_n(names.len() as int)),
        }
    }
}

impl<'a, T: ResourceTracker> VM<'a, T> {
    /// Calls a value with positional arguments, all on the stack.
    pub fn exec_call_function<W: PrintWriter>(&mut self, arg_count: usize, print: &mut W) -> (r:
        Calling)
        requires
            old(self)@.stack.len() > arg_count,
            function_known(old(self)@, old(self)@.top(arg_count as int)),
        ensures
            function_called::<W, T>(
                old(self)@.popped(arg_count + 1),
                old(print).state(),
                old(self)@.top(arg_count as int),
                (ArgsView { pos: old(self)@.top_n(arg_count as int), pairs: Seq::empty() }),
                r@,
                final(self)@,
                final(print).state(),
            ),
    {
        let args: ArgValues = self.pop_n_args(arg_count);
        let callable: Value = self.pop();
        assert(self@.stack =~= old(self)@.popped(arg_count + 1).stack);
        self.call_function(callable, args, print)
    }

    /// Calls the builtin function with the given number with positional arguments on the
    /// stack.
    pub fn exec_call_builtin_function<W: PrintWriter>(
        &mut self,
        builtin_id: u8,
        arg_count: usize,
        print: &mut W,
    ) -> (r: Calling)
        requires
            old(self)@.stack.len() >= arg_count,
        ensures
            forall|b: BuiltinsFunctions| #[trigger]
                b.number() == builtin_id ==> function_called::<W, T>(
                    old(self)@.popped(arg_count as int),
                    old(print).state(),
                    Value::Builtin(Builtins::Function(b)),
                    (ArgsView { pos: old(self)@.top_n(arg_count as int), pairs: Seq::empty() }),
                    r@,
                    final(self)@,
                    final(print).state(),
                ),
            (forall|b: BuiltinsFunctions| #[trigger] b.number() != builtin_id) ==> r@ == call_fails(
                ErrorView::Internal(Fault::InvalidBuiltinId),
            ) && final(self)@ == old(self)@ && final(print).state() == old(print).state(),
    {
        match BuiltinsFunctions::from_repr(builtin_id) {
            None => Calling::Done(Err(RunError::internal(Fault::InvalidBuiltinId))),
            Some(b) => {
                let args: ArgValues = self.pop_n_args(arg_count);
                proof {
                    assert forall|c: BuiltinsFunctions| #[trigger]
                        c.number() == builtin_id implies c == b by {}
                }
                self.call_function(Value::Builtin(Builtins::Function(b)), args, print)
            },
        }
    }

    /// Constructs a value of the type with the given number from positional arguments on the
    /// stack.
    pub fn exec_call_builtin_type<W: PrintWriter>(
        &mut self,
        type_id: u8,
        arg_count: usize,
        print: &mut W,
    ) -> (r: Calling)
        requires
            old(self)@.stack.len() >= arg_count,
        ensures
            match Type::callable(type_id) {
                Some(t) => function_called::<W, T>(
                    old(self)@.popped(arg_count as int),
                    old(print).state(),
                    Value::Builtin(Builtins::Type(t)),
                    (ArgsView { pos: old(self)@.top_n(arg_count as int), pairs: Seq::empty() }),
                    r@,
                    final(self)@,
                    final(print).state(),
                ),
                None => r@ == call_fails(ErrorView::Internal(Fault::InvalidTypeId))
                    && final(self)@ == old(self)@ && final(print).state() == old(print).state(),
            },
    {
        match Type::callable_from_u8(type_id) {
            None => Calling::Done(Err(RunError::internal(Fault::InvalidTypeId))),
            Some(t) => {
                let args: ArgValues = self.pop_n_args(arg_count);
                self.call_function(Value::Builtin(Builtins::Type(t)), args, print)
            },
        }
    }

    /// Takes the arguments of a call with keyword arguments off the stack.
    fn pop_kw_args(&mut self, pos_count: usize, kwname_ids: Vec<StringId>) -> (r: ArgValues)
        requires
            old(self)@.stack.len() >= pos_count + kwname_ids@.len(),
        ensures
            r@ == old(self)@.args_on_stack(pos_count as int, kwname_ids@),
            final(self)@ == old(self)@.popped(pos_count + kwname_ids@.len()),
    {
        let kw_count: usize = kwname_ids.len();
        let kw_values: Vec<Value> = self.pop_n(kw_count);
        let pos_args: Vec<Value> = self.pop_n(pos_count);
        let kwargs: KwargsValues = zip_names(kwname_ids, kw_values);
        let args: ArgValues = build_args(pos_args, kwargs, kw_count != 0);
        assert(args@ =~= old(self)@.args_on_stack(pos_count as int, kwname_ids@));
        assert(self@.stack =~= old(self)@.popped(pos_count + kwname_ids@.len()).stack);
        args
    }

    /// Calls a value with positional and keyword arguments, all on the stack.
    pub fn exec_call_function_kw<W: PrintWriter>(
        &mut self,
        pos_count: usize,
        kwname_ids: Vec<StringId>,
        print: &mut W,
    ) -> (r: Calling)
        requires
            old(self)@.stack.len() > pos_count + kwname_ids@.len(),
            function_known(old(self)@, old(self)@.top(pos_count + kwname_ids@.len())),
        ensures
            function_called::<W, T>(
                old(self)@.popped(pos_count + kwname_ids@.len() + 1),
                old(print).state(),
                old(self)@.top(pos_count + kwname_ids@.len()),
                old(self)@.args_on_stack(pos_count as int, kwname_ids@),
                r@,
                final(self)@,
                final(print).state(),
            ),
    {
        let args: ArgValues = self.pop_kw_args(pos_count, kwname_ids);
        let callable: Value = self.pop();
        assert(self@.stack =~= old(self)@.popped(pos_count + kwname_ids@.len() + 1).stack);
        self.call_function(callable, args, print)
    }

    /// Calls a method with positional arguments, all on the stack.
    pub fn exec_call_attr<W: PrintWriter>(
        &mut self,
        name_id: StringId,
        arg_count: usize,
        print: &mut W,
    ) -> (r: Calling)
        requires
            old(self)@.stack.len() > arg_count,
        ensures
            attr_called::<W, T>(
                old(self)@.popped(arg_count + 1),
                old(print).state(),
                old(self)@.top(arg_count as int),
                name_id,
                (ArgsView { pos: old(self)@.top_n(arg_count as int), pairs: Seq::empty() }),
                r@,
                final(self)@,
                final(print).state(),
            ),
    {
        let args: ArgValues = self.pop_n_args(arg_count);
        let obj: Value = self.pop();
        assert(self@.stack =~= old(self)@.popped(arg_count + 1).stack);
        self.call_attr(obj, name_id, args, print)
    }

    /// Calls a method with positional and keyword arguments, all on the stack.
    pub fn exec_call_attr_kw<W: PrintWriter>(
        &mut self,
        name_id: StringId,
        pos_count: usize,
        kwname_ids: Vec<StringId>,
        print: &mut W,
    ) -> (r: Calling)
        requires
            old(self)@.stack.len() > pos_count + kwname_ids@.len(),
        ensures
            attr_called::<W, T>(
                old(self)@.popped(pos_count + kwname_ids@.len() + 1),
                old(print).state(),
                old(self)@.top(pos_count + kwname_ids@.len()),
                name_id,
                old(self)@.args_on_stack(pos_count as int, kwname_ids@),
                r@,
                final(self)@,
                final(print).state(),
            ),
    {
        let args: ArgValues = self.pop_kw_args(pos_count, kwname_ids);
        let obj: Value = self.pop();
        assert(self@.stack =~= old(self)@.popped(pos_count + kwname_ids@.len() + 1).stack);
        self.call_attr(obj, name_id, args, print)
    }

    /// The items of a tuple, without counting them.
    fn extract_args_tuple(&self, args_tuple: &Value) -> (r: Vec<Value>)
        requires
            self@.heap.data_of(*args_tuple) matches Some(DataView::Tuple(_)),
        ensures
            r@ == self@.heap.data_of(*args_tuple)->0->Tuple_0,
    {
        if let Value::Ref(id) = *args_tuple {
            if let Some(HeapData::Tuple(tuple)) = self.heap.get(id) {
                return copy_values(tuple.as_slice());
            }
        }
        Vec::new()
    }

    /// The entries of a dict, without counting them.
    fn extract_kwargs(&self, kwargs: &Value) -> (r: Vec<(Value, Value)>)
        requires
            self@.heap.data_of(*kwargs) matches Some(DataView::Dict(_)),
        ensures
            r@ == self@.heap.data_of(*kwargs)->0->Dict_0,
    {
        if let Value::Ref(id) = *kwargs {
            if let Some(HeapData::Dict(dict)) = self.heap.get(id) {
                return copy_pairs(&dict.entries);
            }
        }
        Vec::new()
    }

    /// Positional arguments together with the entries of a dict, which is given up.
    fn build_args_with_kwargs(&mut self, copied_args: Vec<Value>, kwargs_ref: Value) -> (r: RunResult<
        ArgValues,
    >)
        requires
            old(self)@.heap.data_of(kwargs_ref) matches Some(DataView::Dict(_)),
        ensures
            ({
                let said = kwargs_unpacked(
                    old(self)@.heap,
                    old(self)@.interns,
                    copied_args@,
                    kwargs_ref,
                );
                &&& final(self)@ == old(self)@.with_heap(said.heap)
                &&& match (r, said.result) {
                    (Ok(a), Ok(b)) => a@ == b,
                    (Err(e), Err(f)) => e@ == f,
                    _ => false,
                }
            }),
    {
        let copied_kwargs: Vec<(Value, Value)> = self.extract_kwargs(&kwargs_ref);
        inc_pairs(&copied_kwargs, &mut self.heap);
        kwargs_ref.drop_with_heap(&mut self.heap);
        let any_kwargs: bool = copied_kwargs.len() != 0;
        let kwargs: KwargsValues = if any_kwargs {
            match Dict::from_pairs(&copied_kwargs, &mut self.heap, self.interns) {
                Err(e) => {
                    return Err(e);
                },
                Ok(dict) => KwargsValues::Dict(dict),
            }
        } else {
            KwargsValues::Empty
        };
        Ok(build_args(copied_args, kwargs, any_kwargs))
    }

    /// Unpacks the arguments of a call.
    fn unpack_args(&mut self, args_tuple: Value, kwargs: Option<Value>) -> (r: RunResult<ArgValues>)
        requires
            unpackable(old(self)@.heap, args_tuple, kwargs),
        ensures
            ({
                let said = args_unpacked(
                    old(self)@.heap,
                    old(self)@.interns,
                    args_tuple,
                    kwargs,
                );
                &&& final(self)@ == old(self)@.with_heap(said.heap)
                &&& match (r, said.result) {
                    (Ok(a), Ok(b)) => a@ == b,
                    (Err(e), Err(f)) => e@ == f,
                    _ => false,
                }
            }),
    {
        let pos: Vec<Value> = self.extract_args_tuple(&args_tuple);
        let args: ArgValues = match kwargs {
            None => {
                self.heap.inc_values(pos.as_slice());
                build_args_positional_only(pos)
            },
            Some(k) => {
                proof {
                    if let Value::Ref(id) = k {
                        counting_keeps_data(self@.heap, pos@, Seq::empty(), id);
                    }
                }
                self.heap.inc_values(pos.as_slice());
                match self.build_args_with_kwargs(pos, k) {
                    Err(e) => {
                        return Err(e);
                    },
                    Ok(args) => args,
                }
            },
        };
        args_tuple.drop_with_heap(&mut self.heap);
        Ok(args)
    }

    /// Takes the packed arguments of a call off the stack.
    fn pop_packed(&mut self, has_kwargs: bool) -> (r: (Value, Option<Value>))
        requires
            old(self)@.stack.len() >= (if has_kwargs { 2int } else { 1 }),
        ensures
            r == old(self)@.packed_args(has_kwargs),
            final(self)@ == old(self)@.popped(if has_kwargs { 2int } else { 1 }),
    {
        if has_kwargs {
            let k: Value = self.pop();
            let t: Value = self.pop();
            assert(self@.stack =~= old(self)@.popped(2).stack);
            (t, Some(k))
        } else {
            (self.pop(), None)
        }
    }

    /// Calls a value with packed arguments.
    fn call_function_extended<W: PrintWriter>(
        &mut self,
        callable: Value,
        args_tuple: Value,
        kwargs: Option<Value>,
        print: &mut W,
    ) -> (r: Calling)
        requires
            unpackable(old(self)@.heap, args_tuple, kwargs),
            function_known(
                old(self)@.with_heap(
                    args_unpacked(old(self)@.heap, old(self)@.interns, args_tuple, kwargs).heap,
                ),
                callable,
            ),
        ensures
            ({
                let said = args_unpacked(old(self)@.heap, old(self)@.interns, args_tuple, kwargs);
                let vm = old(self)@.with_heap(said.heap);
                match said.result {
                    Err(e) => r@ == call_fails(e) && final(self)@ == vm && final(print).state()
                        == old(print).state(),
                    Ok(args) => function_called::<W, T>(
                        vm,
                        old(print).state(),
                        callable,
                        args,
                        r@,
                        final(self)@,
                        final(print).state(),
                    ),
                }
            }),
    {
        match self.unpack_args(args_tuple, kwargs) {
            Err(e) => Calling::Done(Err(e)),
            Ok(args) => self.call_function(callable, args, print),
        }
    }

    /// Calls a method with packed arguments.
    fn call_attr_extended<W: PrintWriter>(
        &mut self,
        obj: Value,
        name_id: StringId,
        args_tuple: Value,
        kwargs: Option<Value>,
        print: &mut W,
    ) -> (r: Calling)
        requires
            unpackable(old(self)@.heap, args_tuple, kwargs),
        ensures
            ({
                let said = args_unpacked(old(self)@.heap, old(self)@.interns, args_tuple, kwargs);
                let vm = old(self)@.with_heap(said.heap);
                match said.result {
                    Err(e) => r@ == call_fails(e) && final(self)@ == vm && final(print).state()
                        == old(print).state(),
                    Ok(args) => attr_called::<W, T>(
                        vm,
                        old(print).state(),
                        obj,
                        name_id,
                        args,
                        r@,
                        final(self)@,
                        final(print).state(),
                    ),
                }
            }),
    {
        match self.unpack_args(args_tuple, kwargs) {
            Err(e) => Calling::Done(Err(e)),
            Ok(args) => self.call_attr(obj, name_id, args, print),
        }
    }

    /// Calls a value with packed arguments, all on the stack.
    pub fn exec_call_function_extended<W: PrintWriter>(&mut self, has_kwargs: bool, print: &mut W) -> (r:
        Calling)
        requires
            old(self)@.stack.len() >= (if has_kwargs { 3int } else { 2 }),
            unpackable(
                old(self)@.heap,
                old(self)@.packed_args(has_kwargs).0,
                old(self)@.packed_args(has_kwargs).1,
            ),
            old(self)@.unpacked_call_known(has_kwargs),
        ensures
            ({
                let said = old(self)@.call_unpacked(has_kwargs);
                match said.result {
                    Err(e) => r@ == call_fails(e) && final(self)@ == old(self)@.popped(
                        if has_kwargs {
                            3int
                        } else {
                            2
                        },
                    ).with_heap(said.heap) && final(print).state() == old(print).state(),
                    Ok(args) => function_called::<W, T>(
                        old(self)@.popped(
                            if has_kwargs {
                                3int
                            } else {
                                2
                            },
                        ).with_heap(said.heap),
                        old(print).state(),
                        old(self)@.top(if has_kwargs { 2int } else { 1 }),
                        args,
                        r@,
                        final(self)@,
                        final(print).state(),
                    ),
                }
            }),
    {
        let (args_tuple, kwargs): (Value, Option<Value>) = self.pop_packed(has_kwargs);
        let callable: Value = self.pop();
        assert(self@.stack =~= old(self)@.popped(if has_kwargs { 3int } else { 2 }).stack);
        self.call_function_extended(callable, args_tuple, kwargs, print)
    }

    /// Calls a method with packed arguments, all on the stack.
    pub fn exec_call_attr_extended<W: PrintWriter>(
        &mut self,
        name_id: StringId,
        has_kwargs: bool,
        print: &mut W,
    ) -> (r: Calling)
        requires
            old(self)@.stack.len() >= (if has_kwargs { 3int } else { 2 }),
            unpackable(
                old(self)@.heap,
                old(self)@.packed_args(has_kwargs).0,
                old(self)@.packed_args(has_kwargs).1,
            ),
        ensures
            ({
                let said = old(self)@.call_unpacked(has_kwargs);
                match said.result {
                    Err(e) => r@ == call_fails(e) && final(self)@ == old(self)@.popped(
                        if has_kwargs {
                            3int
                        } else {
                            2
                        },
                    ).with_heap(said.heap) && final(print).state() == old(print).state(),
                    Ok(args) => attr_called::<W, T>(
                        old(self)@.popped(
                            if has_kwargs {
                                3int
                            } else {
                                2
                            },
                        ).with_heap(said.heap),
                        old(print).state(),
                        old(self)@.top(if has_kwargs { 2int } else { 1 }),
                        name_id,
                        args,
                        r@,
                        final(self)@,
                        final(print).state(),
                    ),
                }
            }),
    {
        let (args_tuple, kwargs): (Value, Option<Value>) = self.pop_packed(has_kwargs);
        let obj: Value = self.pop();
        assert(self@.stack =~= old(self)@.popped(if has_kwargs { 3int } else { 2 }).stack);
        self.call_attr_extended(obj, name_id, args_tuple, kwargs, print)
    }

    /// Goes on with a call of a method that was called elsewhere; the object is given up.
    pub fn finish_method(&mut self, obj: Value, result: RunResult<AttrCallResult>) -> (r: RunResult<
        CallResult,
    >)
        ensures
            match result {
                Ok(x) => r == Ok::<CallResult, RunError>(called_attr(x)),
                Err(e) => r == Err::<CallResult, RunError>(e),
            },
            final(self)@ == old(self)@.release(obj),
    {
        obj.drop_with_heap(&mut self.heap);
        match result {
            Ok(x) => Ok(CallResult::from(x)),
            Err(e) => Err(e),
        }
    }

    /// Goes on with a call of `list.sort` once the key of the next item is known.
    pub fn resume_sort<W: PrintWriter>(
        &mut self,
        obj: Value,
        job: SortJob,
        key: RunResult<Value>,
        print: &mut W,
    ) -> (r: Calling)
        requires
            job@.keys.len() < job@.items.len(),
        ensures
            exists|step: SortStep, h: HeapView<T>| #[trigger]
                sort_resumed::<W, T>(
                    old(self)@.heap,
                    old(self)@.interns,
                    job@,
                    key,
                    old(print).state(),
                    step,
                    final(print).state(),
                    h,
                ) && r@ == sort_call(obj, step) && final(self)@ == sort_left(
                    old(self)@,
                    obj,
                    step,
                    h,
                ),
    {
        let ghost before = self@;
        let step: SortStep = resume_list_sort(job, key, &mut self.heap, self.interns, print);
        assert(sort_resumed::<W, T>(
            before.heap,
            before.interns,
            job@,
            key,
            old(print).state(),
            step,
            print.state(),
            self.heap@,
        ));
        self.sort_stepped(obj, step)
    }
}

/// What to do after getting or calling an attribute.
pub open spec fn called_attr(result: AttrCallResult) -> CallResult {
    match result {
        AttrCallResult::Value(v) => CallResult::Push(v),
        AttrCallResult::OsCall(func, args) => CallResult::OsCall(func, args),
        AttrCallResult::ExternalCall(id, args) => CallResult::External(id, args),
    }
}

/// Whether a sort that waited for a key went on as it is said to.
pub open spec fn sort_resumed<W: PrintWriter, T: ResourceTracker>(
    h: HeapView<T>,
    interns: Interns,
    job: SortView,
    key: RunResult<Value>,
    state: W::State,
    step: SortStep,
    state_after: W::State,
    after: HeapView<T>,
) -> bool {
    match key {
        Err(e) => (step matches SortStep::Done(Err(f)) && f == e) && after == abandoned(h, job)
            && state_after == state,
        Ok(v) => sort_went_on::<W, T>(
            SortView { keys: job.keys.push(v), ..job },
            state,
            h,
            interns,
            step,
            state_after,
            after,
        ),
    }
}

impl<T: ResourceTracker> VmView<T> {
    /// The tuple and, if there is one, the dict with the arguments of a call on the stack.
    pub open spec fn packed_args(self, has_kwargs: bool) -> (Value, Option<Value>) {
        if has_kwargs {
            (self.top(1), Some(self.top(0)))
        } else {
            (self.top(0), None)
        }
    }

    /// What unpacking the arguments of a call on the stack leads to.
    pub open spec fn call_unpacked(self, has_kwargs: bool) -> Unpacked<T> {
        let (args_tuple, kwargs) = self.packed_args(has_kwargs);
        args_unpacked(self.heap, self.interns, args_tuple, kwargs)
    }

    /// Whether what is called with packed arguments, if it is a function of the program, is
    /// one the program has.
    pub open spec fn unpacked_call_known(self, has_kwargs: bool) -> bool {
        function_known(
            self.with_heap(self.call_unpacked(has_kwargs).heap),
            self.top(
                if has_kwargs {
                    2int
                } else {
                    1
                },
            ),
        )
    }
}

/// The cells of a call stand behind its parameters, one for each.
pub proof fn cells_follow_parameters<T: ResourceTracker>(
    h: HeapView<T>,
    bound: Seq<Value>,
    params: Seq<Option<usize>>,
    n: int,
)
    requires
        0 <= n,
        cells_made(h, bound, params, n).error is None,
    ensures
        cells_made(h, bound, params, n).namespace == bound + as_refs(
            cells_made(h, bound, params, n).cells,
        ),
        cells_made(h, bound, params, n).cells.len() == n,
    decreases n,
{
    let run = cells_made(h, bound, params, n);
    if n > 0 {
        cells_follow_parameters(h, bound, params, n - 1);
    }
    assert(run.namespace =~= bound + as_refs(run.cells));
}

/// A call of a function that is not async, once its arguments are bound, has a frame of its
/// own whose namespace is as large as the function says: the parameters come first, followed
/// by the cells of the call, those it has captured, and unassigned variables.
pub proof fn call_fills_namespace<T: ResourceTracker>(
    vm: VmView<T>,
    call: BindingView,
    bound: Seq<Value>,
    id: NamespaceId,
    position: CodeRange,
)
    requires
        call.frame == Some((id, position)),
        vm.namespaces.get(id) is Some,
        vm.interns.function(call.func_id).slots_fit(call.cells.len()),
        bound.len() == vm.interns.function(call.func_id).param_count,
        vm.binding_done(call, bound).calling == CallingView::Done(Ok(CallResultView::FramePushed)),
    ensures
        ({
            let after = vm.binding_done(call, bound).vm;
            let f = vm.interns.function(call.func_id);
            let namespace = after.namespaces.get(id)->0;
            let frame = after.frames.last();
            &&& after.frames.drop_last() == vm.frames
            &&& frame.namespace_idx == id
            &&& frame.call_position == Some(position)
            &&& frame.call_ip == vm.instruction_ip
            &&& namespace.len() == f.namespace_size
            &&& namespace.take(bound.len() as int) == bound
            &&& namespace.subrange(
                bound.len() as int,
                (bound.len() + frame.cells.len()) as int,
            ) == as_refs(frame.cells)
            &&& frame.cells.skip(frame.own_cells as int) == call.cells
            &&& forall|i: int|
                bound.len() + frame.cells.len() <= i < namespace.len() ==> #[trigger] namespace[i]
                    == Value::Undefined
        }),
{
    let f = vm.interns.function(call.func_id);
    let params = f.cell_param_indices@;
    let h = vm.heap.release_values(call.defaults);
    let run = cells_made(h, bound, params, params.len() as int);
    let after = vm.binding_done(call, bound).vm;
    let frame = after.frames.last();
    let namespace = after.namespaces.get(id)->0;
    if run.error is None {
        cells_follow_parameters(h, bound, params, params.len() as int);
        assert(run.namespace + as_refs(call.cells) =~= bound + as_refs(run.cells + call.cells));
        assert(after.frames.drop_last() =~= vm.frames);
        assert(namespace.take(bound.len() as int) =~= bound);
        assert(namespace.subrange(
            bound.len() as int,
            (bound.len() + frame.cells.len()) as int,
        ) =~= as_refs(frame.cells));
        assert(frame.cells.skip(frame.own_cells as int) =~= call.cells);
    }
}

/// A call whose arguments could not be bound leaves no namespace behind.
pub proof fn failed_call_leaves_no_namespace(n: NamespacesView, bound: Seq<Value>)
    requires
        n.slots.len() < usize::MAX,
        n.slots.len() == 0 || n.slots.last() is Some,
        n.depth < usize::MAX,
    ensures
        n.added(Seq::empty()).replaced(n.next_id(), bound).removed(n.next_id()) == n,
{
    let id = n.next_id();
    let kept = n.added(Seq::empty()).replaced(id, bound);
    reveal_with_fuel(trimmed, 2);
    assert(kept.slots.update(id.0 as int, None).drop_last() =~= n.slots);
}

} // verus!
