//! Running programs: starting them, and going on after the host has done its part.

use vstd::prelude::*;
use vstd::set::Set;
use vstd::std_specs::convert::FromSpecImpl;
use ahash::AHashMap;
use crate::args::ArgValues;
use crate::error::{ErrorView, Fault, Message, MessageView, RunError, RunResult};
use crate::exception::{ExceptionInfo, MontyException};
use crate::heap::{Heap, HeapView};
use crate::ids::{CallId, ExtFunctionId, NamespaceId, OsFunction};
use crate::interns::{Code, Interns};
use crate::namespaces::{undefined, Namespaces, NamespacesView};
use crate::object::{
    args_exported, each_object_becomes_a_value, exported, import_items, imported_items, MontyObject,
};
use crate::resource::{ResourceTracker, MAX_DATA_DEPTH};
use crate::types::ExcType;
use crate::value::Value;
use crate::vm::snapshot::{SnapshotView, VMSnapshot};
use crate::vm::{VmView, VM};

verus! {

/// How running a program stops.
#[derive(Debug)]
pub enum FrameExit {
    /// The program is done.
    Return(Value),
    /// The host has to call one of its functions.
    ExternalCall { ext_function_id: ExtFunctionId, args: ArgValues, call_id: CallId },
    /// The host has to carry out an operating system function.
    OsCall { function: OsFunction, args: ArgValues, call_id: CallId },
    /// No task can run until the host answers one of these calls.
    ResolveFutures(Vec<CallId>),
}

/// A compiled program.
#[derive(Debug)]
pub struct Program {
    /// The number of slots of the global namespace.
    pub namespace_size: usize,
    /// The number of inputs the program names.
    pub input_count: usize,
    /// The slots of variables by name.
    pub name_map: AHashMap<String, usize>,
    pub module_code: Code,
    pub interns: Interns,
}

/// A compiled program with its source.
#[derive(Debug)]
pub struct Executor {
    pub namespace_size: usize,
    pub input_count: usize,
    pub name_map: AHashMap<String, usize>,
    pub module_code: Code,
    pub interns: Interns,
    /// The functions of the host, in the order in which they stand in the namespace.
    pub external_function_ids: Vec<ExtFunctionId>,
    pub code: String,
    /// The number of objects to make room for before a run.
    pub heap_capacity: usize,
}

/// A program that can be run.
#[derive(Debug)]
pub struct MontyRun {
    pub executor: Executor,
}

/// A program that is about to go on.
#[derive(Debug)]
pub struct Execution<T> {
    pub executor: Executor,
    pub vm_state: VMSnapshot,
    pub heap: Heap<T>,
    pub namespaces: Namespaces,
}

/// A program that waits for the result of a call.
#[derive(Debug)]
pub struct Snapshot<T> {
    pub executor: Executor,
    pub vm_state: VMSnapshot,
    pub heap: Heap<T>,
    pub namespaces: Namespaces,
    /// The call it waits for.
    pub pending_call_id: u32,
}

/// A program that waits for answers to calls it has awaited.
#[derive(Debug)]
pub struct FutureSnapshot<T> {
    pub executor: Executor,
    pub vm_state: VMSnapshot,
    pub heap: Heap<T>,
    pub namespaces: Namespaces,
    /// The calls that have not been answered.
    pub pending_call_ids: Vec<u32>,
}

/// How far a program has come.
#[derive(Debug)]
pub enum RunProgress<T> {
    /// The program calls a function of the host.
    FunctionCall {
        function_name: String,
        args: Vec<MontyObject>,
        kwargs: Vec<(MontyObject, MontyObject)>,
        call_id: u32,
        state: Snapshot<T>,
    },
    /// The program calls an operating system function.
    OsCall {
        function: OsFunction,
        args: Vec<MontyObject>,
        kwargs: Vec<(MontyObject, MontyObject)>,
        call_id: u32,
        state: Snapshot<T>,
    },
    /// All tasks wait for calls the host has not answered.
    ResolveFutures(FutureSnapshot<T>),
    /// The program is done.
    Complete(MontyObject),
}

/// A program that the host has done its part for.
#[derive(Debug)]
pub enum Resumed<T> {
    /// The program goes on running.
    Running(Execution<T>),
    /// The program does not run; this is how far it has come.
    Ended(Result<RunProgress<T>, MontyException>),
}

/// Stands for an answer the host gives later.
#[derive(Debug)]
pub struct MontyFuture;

/// The answer to a call.
#[derive(Debug)]
pub enum ExternalResult {
    /// The call has returned.
    Return(MontyObject),
    /// The call has raised an exception.
    Error(MontyException),
    /// The answer comes later.
    Future,
}

impl FromSpecImpl<MontyObject> for ExternalResult {
    open spec fn obeys_from_spec() -> bool {
        true
    }

    open spec fn from_spec(value: MontyObject) -> ExternalResult {
        ExternalResult::Return(value)
    }
}

impl From<MontyObject> for ExternalResult {
    fn from(value: MontyObject) -> (r: ExternalResult) {
        ExternalResult::Return(value)
    }
}

impl FromSpecImpl<MontyException> for ExternalResult {
    open spec fn obeys_from_spec() -> bool {
        true
    }

    open spec fn from_spec(exception: MontyException) -> ExternalResult {
        ExternalResult::Error(exception)
    }
}

impl From<MontyException> for ExternalResult {
    fn from(exception: MontyException) -> (r: ExternalResult) {
        ExternalResult::Error(exception)
    }
}

impl FromSpecImpl<MontyFuture> for ExternalResult {
    open spec fn obeys_from_spec() -> bool {
        true
    }

    open spec fn from_spec(later: MontyFuture) -> ExternalResult {
        ExternalResult::Future
    }
}

impl From<MontyFuture> for ExternalResult {
    fn from(_later: MontyFuture) -> (r: ExternalResult) {
        ExternalResult::Future
    }
}

impl<T> RunProgress<T> {
    /// The call of a function of the host, if that is what the program waits for: its name, its
    /// positional and keyword arguments, its number, and the state to go on from.
    pub fn into_function_call(self) -> (r: Option<
        (String, Vec<MontyObject>, Vec<(MontyObject, MontyObject)>, u32, Snapshot<T>),
    >)
        ensures
            match self {
                RunProgress::FunctionCall { function_name, args, kwargs, call_id, state } => r
                    == Some((function_name, args, kwargs, call_id, state)),
                _ => r is None,
            },
    {
        match self {
            RunProgress::FunctionCall { function_name, args, kwargs, call_id, state } => Some(
                (function_name, args, kwargs, call_id, state),
            ),
            _ => None,
        }
    }

    /// The result of the program, if it is done.
    pub fn into_complete(self) -> (r: Option<MontyObject>)
        ensures
            match self {
                RunProgress::Complete(value) => r == Some(value),
                _ => r is None,
            },
    {
        match self {
            RunProgress::Complete(value) => Some(value),
            _ => None,
        }
    }

    /// The state to go on from, if the program waits for answers to calls.
    pub fn into_resolve_futures(self) -> (r: Option<FutureSnapshot<T>>)
        ensures
            match self {
                RunProgress::ResolveFutures(state) => r == Some(state),
                _ => r is None,
            },
    {
        match self {
            RunProgress::ResolveFutures(state) => Some(state),
            _ => None,
        }
    }
}

/// What a program is given to start with.
pub struct Prepared<T> {
    pub heap: HeapView<T>,
    pub result: Result<NamespacesView, ExceptionInfo>,
}

/// A `RuntimeError` with a fixed text.
pub open spec fn host_fault(fault: Fault, interns: Interns) -> ExceptionInfo {
    ExceptionInfo::runtime_error(MessageView::Fault(fault).text(interns))
}

/// Functions of the host as values.
pub open spec fn as_functions(ids: Seq<ExtFunctionId>) -> Seq<Value> {
    ids.map_values(|id: ExtFunctionId| Value::ExtFunction(id))
}

impl Executor {
    /// What a program is given to start with: the global namespace holds the functions of the
    /// host, followed by the inputs and unassigned variables.
    ///
    /// There may be fewer inputs than fit, but not more.
    pub open spec fn prepared<T: ResourceTracker>(
        self,
        h: HeapView<T>,
        inputs: Seq<MontyObject>,
    ) -> Prepared<T> {
        let functions = as_functions(self.external_function_ids@);
        if !self.inputs_fit(inputs.len()) {
            Prepared { heap: h, result: Err(host_fault(Fault::TooManyInputs, self.interns)) }
        } else {
            let taken = imported_items(h, self.interns, inputs, inputs.len() as int);
            Prepared {
                heap: taken.heap,
                result: match taken.result {
                    Err(e) => Err(host_fault(Fault::InvalidInput(e), self.interns)),
                    Ok(values) => Ok(
                        NamespacesView {
                            slots: seq![
                                Some(
                                    functions + values + undefined(
                                        (self.namespace_size - functions.len()
                                            - inputs.len()) as nat,
                                    ),
                                ),
                            ],
                            depth: 0,
                        },
                    ),
                },
            }
        }
    }

    /// What a program is given to be run step by step: what it is given to start with, if there
    /// are exactly as many inputs as it names.
    pub open spec fn started<T: ResourceTracker>(
        self,
        h: HeapView<T>,
        inputs: Seq<MontyObject>,
    ) -> Prepared<T> {
        if self.inputs_fit(inputs.len()) && inputs.len() != self.input_count {
            Prepared {
                heap: h,
                result: Err(
                    host_fault(
                        Fault::InputCount {
                            expected: self.input_count,
                            got: inputs.len() as usize,
                        },
                        self.interns,
                    ),
                ),
            }
        } else {
            self.prepared(h, inputs)
        }
    }

    /// Whether the functions of the host and so many inputs fit into the global namespace.
    pub open spec fn inputs_fit(self, inputs: nat) -> bool {
        self.external_function_ids@.len() + inputs <= self.namespace_size
    }

    /// Whether the functions of the host and so many inputs fit into the global namespace.
    fn has_room(&self, inputs: usize) -> (r: bool)
        ensures
            r == self.inputs_fit(inputs as nat),
    {
        let functions: usize = self.external_function_ids.len();
        functions <= self.namespace_size && inputs <= self.namespace_size - functions
    }

    /// A program with its source.
    pub fn new(code: String, program: Program) -> (r: Self)
        ensures
            r.namespace_size == program.namespace_size,
            r.input_count == program.input_count,
            r.name_map == program.name_map,
            r.module_code == program.module_code,
            r.interns == program.interns,
            r.external_function_ids@ == Seq::new(
                program.interns.external_functions@.len(),
                |i: int| ExtFunctionId(i as usize),
            ),
            r.code == code,
            r.heap_capacity == program.namespace_size,
    {
        let n: usize = program.interns.external_functions.len();
        let mut external_function_ids: Vec<ExtFunctionId> = Vec::new();
        let mut i: usize = 0;
        while i < n
            invariant
                0 <= i <= n,
                external_function_ids@ == Seq::new(i as nat, |k: int| ExtFunctionId(k as usize)),
            decreases n - i,
        {
            external_function_ids.push(ExtFunctionId::new(i));
            i = i + 1;
            assert(external_function_ids@ =~= Seq::new(
                i as nat,
                |k: int| ExtFunctionId(k as usize),
            ));
        }
        Executor {
            namespace_size: program.namespace_size,
            input_count: program.input_count,
            name_map: program.name_map,
            module_code: program.module_code,
            interns: program.interns,
            external_function_ids,
            code,
            heap_capacity: program.namespace_size,
        }
    }

    /// Prepares the global namespace of a run.
    pub fn prepare_namespaces<T: ResourceTracker>(
        &self,
        inputs: Vec<MontyObject>,
        heap: &mut Heap<T>,
    ) -> (r: Result<Namespaces, MontyException>)
        ensures
            ({
                let said = self.prepared(old(heap)@, inputs@);
                &&& final(heap)@ == said.heap
                &&& match (r, said.result) {
                    (Ok(n), Ok(m)) => n@ == m,
                    (Err(e), Err(f)) => e@ == f,
                    _ => false,
                }
            }),
    {
        if !self.has_room(inputs.len()) {
            return Err(
                MontyException::runtime_error(
                    Message::Fault(Fault::TooManyInputs).to_text(&self.interns),
                ),
            );
        }
        let functions: usize = self.external_function_ids.len();
        let extra: usize = self.namespace_size - functions - inputs.len();
        let mut namespace: Vec<Value> = Vec::new();
        let mut i: usize = 0;
        while i < functions
            invariant
                0 <= i <= functions,
                functions == self.external_function_ids@.len(),
                namespace@ == as_functions(self.external_function_ids@.take(i as int)),
            decreases functions - i,
        {
            namespace.push(Value::ExtFunction(self.external_function_ids[i]));
            i = i + 1;
            assert(namespace@ =~= as_functions(self.external_function_ids@.take(i as int)));
        }
        assert(self.external_function_ids@.take(i as int) =~= self.external_function_ids@);
        let mut values: Vec<Value> = match import_items(&inputs, heap, &self.interns) {
            Err(e) => {
                return Err(
                    MontyException::runtime_error(
                        Message::Fault(Fault::InvalidInput(e)).to_text(&self.interns),
                    ),
                );
            },
            Ok(values) => values,
        };
        namespace.append(&mut values);
        let ghost filled = namespace@;
        let mut k: usize = 0;
        assert(namespace@ =~= filled + undefined(0));
        while k < extra
            invariant
                0 <= k <= extra,
                namespace@ == filled + undefined(k as nat),
            decreases extra - k,
        {
            namespace.push(Value::Undefined);
            k = k + 1;
            assert(namespace@ =~= filled + undefined(k as nat));
        }
        Ok(Namespaces::new(namespace))
    }
}

/// The global namespace a program starts with is as large as the program says, and begins with
/// the functions of the host.
pub proof fn prepared_namespace_is_full<T: ResourceTracker>(
    executor: Executor,
    h: HeapView<T>,
    inputs: Seq<MontyObject>,
)
    requires
        executor.prepared(h, inputs).result is Ok,
    ensures
        ({
            let n = executor.prepared(h, inputs).result->Ok_0;
            let ids = executor.external_function_ids@;
            &&& n.get(NamespaceId(0)) matches Some(values)
            &&& values.len() == executor.namespace_size
            &&& forall|i: int|
                0 <= i < ids.len() ==> values[i] == Value::ExtFunction(#[trigger] ids[i])
            &&& forall|i: int|
                ids.len() + inputs.len() <= i < values.len() ==> #[trigger] values[i]
                    == Value::Undefined
        }),
{
    each_object_becomes_a_value(h, executor.interns, inputs, inputs.len() as int);
}

/// Whether the host sees how running a program stopped, when it does nothing for the program.
///
/// A call that the host would have to carry out is an error then.
pub open spec fn exit_seen<T>(
    h: HeapView<T>,
    interns: Interns,
    exit: RunResult<FrameExit>,
    r: RunResult<MontyObject>,
    after: HeapView<T>,
) -> bool {
    match exit {
        Err(e) => r == Err::<MontyObject, RunError>(e) && after == h,
        Ok(FrameExit::Return(v)) => (r matches Ok(o) && exported(
            h,
            interns,
            v,
            Set::empty(),
            MAX_DATA_DEPTH as nat,
            o,
        )) && after == h.release(v),
        Ok(FrameExit::ExternalCall { ext_function_id, args, call_id }) => (r matches Err(e) && e@
            == ErrorView::raised(
            ExcType::NotImplementedError,
            MessageView::ExternalUnsupported(
                interns.external_functions@[ext_function_id.0 as int]@,
            ),
        )) && after == h,
        Ok(FrameExit::OsCall { function, args, call_id }) => (r matches Err(e) && e@
            == ErrorView::fault(
            ExcType::NotImplementedError,
            Fault::OsUnsupported(function),
        )) && after == h,
        Ok(FrameExit::ResolveFutures(_)) => (r matches Err(e) && e@ == ErrorView::fault(
            ExcType::NotImplementedError,
            Fault::FuturesUnsupported,
        )) && after == h,
    }
}

/// Whether a function of the host that a program calls is one it knows.
pub open spec fn call_known(exit: RunResult<FrameExit>, interns: Interns) -> bool {
    exit matches Ok(FrameExit::ExternalCall { ext_function_id, args, call_id })
        ==> ext_function_id.0 < interns.external_functions@.len()
}

/// How the host sees how running a program stopped, when it does nothing for the program.
pub fn frame_exit_to_object<T>(
    frame_exit_result: RunResult<FrameExit>,
    heap: &mut Heap<T>,
    interns: &Interns,
) -> (r: RunResult<MontyObject>)
    requires
        call_known(frame_exit_result, *interns),
    ensures
        exit_seen(old(heap)@, *interns, frame_exit_result, r, final(heap)@),
{
    match frame_exit_result {
        Err(e) => Err(e),
        Ok(FrameExit::Return(v)) => Ok(MontyObject::new(v, heap, interns)),
        Ok(FrameExit::ExternalCall { ext_function_id, args, call_id }) => {
            let name: String = interns.get_external_function_name(ext_function_id);
            Err(
                RunError::message(
                    ExcType::NotImplementedError,
                    Message::ExternalUnsupported(name),
                ),
            )
        },
        Ok(FrameExit::OsCall { function, args, call_id }) => Err(
            RunError::fault(ExcType::NotImplementedError, Fault::OsUnsupported(function)),
        ),
        Ok(FrameExit::ResolveFutures(_)) => Err(
            RunError::fault(ExcType::NotImplementedError, Fault::FuturesUnsupported),
        ),
    }
}

/// The numbers of calls.
pub open spec fn raw_ids(calls: Seq<CallId>) -> Seq<u32> {
    calls.map_values(|c: CallId| c.0)
}

pub fn raw_call_ids(calls: &Vec<CallId>) -> (r: Vec<u32>)
    ensures
        r@ == raw_ids(calls@),
{
    let mut out: Vec<u32> = Vec::new();
    let mut i: usize = 0;
    while i < calls.len()
        invariant
            0 <= i <= calls@.len(),
            out@ == raw_ids(calls@.take(i as int)),
        decreases calls@.len() - i,
    {
        out.push(calls[i].raw());
        i = i + 1;
        assert(out@ =~= raw_ids(calls@.take(i as int)));
    }
    assert(calls@.take(i as int) =~= calls@);
    out
}

/// Whether a program can go on after running it has stopped this way.
pub open spec fn goes_on(exit: RunResult<FrameExit>) -> bool {
    exit matches Ok(e) && !(e is Return)
}

/// Whether the host sees how far a program has come.
pub open spec fn progress_seen<T>(
    exit: RunResult<FrameExit>,
    vm_state: Option<VMSnapshot>,
    executor: Executor,
    heap: HeapView<T>,
    namespaces: Namespaces,
    r: Result<RunProgress<T>, MontyException>,
) -> bool {
    match exit {
        Err(e) => r matches Err(x) && x@ == e@.info(executor.interns, executor.code@),
        Ok(FrameExit::Return(v)) => r matches Ok(RunProgress::Complete(o)) && exported(
            heap,
            executor.interns,
            v,
            Set::empty(),
            MAX_DATA_DEPTH as nat,
            o,
        ),
        Ok(FrameExit::ExternalCall { ext_function_id, args, call_id }) => {
            &&& r matches Ok(
                RunProgress::FunctionCall { function_name, args: pos, kwargs, call_id: id, state },
            )
            &&& function_name@ == executor.interns.external_functions@[ext_function_id.0 as int]@
            &&& args_exported(heap, executor.interns, args@, pos@, kwargs@)
            &&& id == call_id.0
            &&& waits_for(state, call_id, vm_state, executor, heap.release_args(args@), namespaces)
        },
        Ok(FrameExit::OsCall { function, args, call_id }) => {
            &&& r matches Ok(
                RunProgress::OsCall { function: f, args: pos, kwargs, call_id: id, state },
            )
            &&& f == function
            &&& args_exported(heap, executor.interns, args@, pos@, kwargs@)
            &&& id == call_id.0
            &&& waits_for(state, call_id, vm_state, executor, heap.release_args(args@), namespaces)
        },
        Ok(FrameExit::ResolveFutures(calls)) => {
            &&& r matches Ok(RunProgress::ResolveFutures(state))
            &&& state.executor == executor
            &&& Some(state.vm_state) == vm_state
            &&& state.heap@ == heap
            &&& state.namespaces == namespaces
            &&& state.pending_call_ids@ == raw_ids(calls@)
        },
    }
}

/// Whether a state waits for a call and keeps the program as it is.
pub open spec fn waits_for<T>(
    state: Snapshot<T>,
    call_id: CallId,
    vm_state: Option<VMSnapshot>,
    executor: Executor,
    heap: HeapView<T>,
    namespaces: Namespaces,
) -> bool {
    &&& state.executor == executor
    &&& Some(state.vm_state) == vm_state
    &&& state.heap@ == heap
    &&& state.namespaces == namespaces
    &&& state.pending_call_id == call_id.0
}

/// How far a program has come, for the host.
pub fn handle_vm_result<T>(
    result: RunResult<FrameExit>,
    vm_state: Option<VMSnapshot>,
    executor: Executor,
    heap: Heap<T>,
    namespaces: Namespaces,
) -> (r: Result<RunProgress<T>, MontyException>)
    requires
        call_known(result, executor.interns),
        goes_on(result) ==> vm_state is Some,
    ensures
        progress_seen(result, vm_state, executor, heap@, namespaces, r),
{
    let mut heap: Heap<T> = heap;
    match result {
        Err(e) => Err(e.into_python_exception(&executor.interns, executor.code.as_str())),
        Ok(FrameExit::Return(v)) => {
            let object: MontyObject = MontyObject::new(v, &mut heap, &executor.interns);
            Ok(RunProgress::Complete(object))
        },
        Ok(FrameExit::ExternalCall { ext_function_id, args, call_id }) => {
            let function_name: String = executor.interns.get_external_function_name(
                ext_function_id,
            );
            let (pos, kwargs): (Vec<MontyObject>, Vec<(MontyObject, MontyObject)>) =
                args.into_py_objects(&mut heap, &executor.interns);
            Ok(
                RunProgress::FunctionCall {
                    function_name,
                    args: pos,
                    kwargs,
                    call_id: call_id.raw(),
                    state: Snapshot {
                        executor,
                        vm_state: vm_state.unwrap(),
                        heap,
                        namespaces,
                        pending_call_id: call_id.raw(),
                    },
                },
            )
        },
        Ok(FrameExit::OsCall { function, args, call_id }) => {
            let (pos, kwargs): (Vec<MontyObject>, Vec<(MontyObject, MontyObject)>) =
                args.into_py_objects(&mut heap, &executor.interns);
            Ok(
                RunProgress::OsCall {
                    function,
                    args: pos,
                    kwargs,
                    call_id: call_id.raw(),
                    state: Snapshot {
                        executor,
                        vm_state: vm_state.unwrap(),
                        heap,
                        namespaces,
                        pending_call_id: call_id.raw(),
                    },
                },
            )
        },
        Ok(FrameExit::ResolveFutures(calls)) => Ok(
            RunProgress::ResolveFutures(
                FutureSnapshot {
                    executor,
                    vm_state: vm_state.unwrap(),
                    heap,
                    namespaces,
                    pending_call_ids: raw_call_ids(&calls),
                },
            ),
        ),
    }
}

impl<'a, T> VM<'a, T> {
    /// Puts the machine away after running it has stopped; if the program cannot go on, it is
    /// shut down.
    pub fn check_snapshot(self, result: &RunResult<FrameExit>) -> (r: (
        Option<VMSnapshot>,
        Heap<T>,
        Namespaces,
    ))
        ensures
            goes_on(*result) ==> (r.0 matches Some(s) && s@ == self@.state()) && r.1@ == self@.heap
                && r.2@ == self@.namespaces,
            !goes_on(*result) ==> r.0 is None && r.1@ == self@.shut_down().heap && r.2@
                == self@.shut_down().namespaces,
    {
        let mut vm: VM<'a, T> = self;
        let on: bool = match result {
            Err(_) => false,
            Ok(FrameExit::Return(_)) => false,
            Ok(_) => true,
        };
        if on {
            let (state, heap, namespaces): (VMSnapshot, Heap<T>, Namespaces) = vm.snapshot();
            (Some(state), heap, namespaces)
        } else {
            vm.cleanup();
            let (_state, heap, namespaces): (VMSnapshot, Heap<T>, Namespaces) = vm.snapshot();
            (None, heap, namespaces)
        }
    }
}

/// The result of a run, and what to make room for before the next one.
#[derive(Debug)]
pub struct Finished {
    pub result: Result<MontyObject, MontyException>,
    pub heap_capacity: usize,
}

/// A machine that is about to run a program from the start.
pub open spec fn fresh_machine<T>(
    heap: HeapView<T>,
    namespaces: NamespacesView,
    executor: Executor,
) -> VmView<T> {
    SnapshotView {
        stack: Seq::empty(),
        frames: Seq::empty(),
        exception_stack: Seq::empty(),
        instruction_ip: 0,
        next_call_id: 0,
        scheduler: None,
    }.machine(heap, namespaces, executor.interns, executor.module_code).module_started()
}

impl MontyRun {
    /// A program that can be run.
    pub fn new(code: String, program: Program) -> (r: Self)
        ensures
            r.executor.code == code,
            r.executor.namespace_size == program.namespace_size,
            r.executor.input_count == program.input_count,
            r.executor.interns == program.interns,
            r.executor.module_code == program.module_code,
            r.executor.name_map == program.name_map,
            r.executor.external_function_ids@ == Seq::new(
                program.interns.external_functions@.len(),
                |i: int| ExtFunctionId(i as usize),
            ),
            r.executor.heap_capacity == program.namespace_size,
    {
        MontyRun { executor: Executor::new(code, program) }
    }

    /// The source of the program.
    pub fn code(&self) -> (r: &str)
        ensures
            r@ == self.executor.code@,
    {
        self.executor.code.as_str()
    }

    /// Gets ready to run the program to its end.
    pub fn run<T: ResourceTracker>(&self, inputs: Vec<MontyObject>, resource_tracker: T) -> (r: Result<
        VM<'_, T>,
        MontyException,
    >)
        ensures
            ({
                let said = self.executor.prepared(HeapView::fresh(resource_tracker), inputs@);
                match (r, said.result) {
                    (Ok(vm), Ok(n)) => vm@ == fresh_machine(said.heap, n, self.executor),
                    (Err(e), Err(f)) => e@ == f,
                    _ => false,
                }
            }),
    {
        let mut heap: Heap<T> = Heap::new(self.executor.heap_capacity, resource_tracker);
        match self.executor.prepare_namespaces(inputs, &mut heap) {
            Err(e) => Err(e),
            Ok(namespaces) => {
                let mut vm: VM<'_, T> = VM::new(
                    heap,
                    namespaces,
                    &self.executor.interns,
                    &self.executor.module_code,
                );
                vm.start_module();
                Ok(vm)
            },
        }
    }

    /// Ends a run of the program to its end.
    pub fn finish<T>(&self, vm: VM<'_, T>, frame_exit_result: RunResult<FrameExit>) -> (r: Finished)
        requires
            call_known(frame_exit_result, self.executor.interns),
        ensures
            ({
                let h = vm@.shut_down().heap;
                &&& r.heap_capacity == (if h.entries.len() > self.executor.heap_capacity {
                    h.entries.len()
                } else {
                    self.executor.heap_capacity as nat
                })
                &&& exists|seen: RunResult<MontyObject>, after: HeapView<T>| #[trigger]
                    exit_seen(h, self.executor.interns, frame_exit_result, seen, after) && match (
                        seen,
                        r.result,
                    ) {
                        (Ok(a), Ok(b)) => a == b,
                        (Err(e), Err(x)) => x@ == e@.info(self.executor.interns, self.executor.code@),
                        _ => false,
                    }
            }),
    {
        let mut vm: VM<'_, T> = vm;
        vm.cleanup();
        let (_state, heap, _namespaces): (VMSnapshot, Heap<T>, Namespaces) = vm.snapshot();
        let mut heap: Heap<T> = heap;
        let ghost before = heap@;
        let size: usize = heap.size();
        let heap_capacity: usize = if size > self.executor.heap_capacity {
            size
        } else {
            self.executor.heap_capacity
        };
        let seen: RunResult<MontyObject> = frame_exit_to_object(
            frame_exit_result,
            &mut heap,
            &self.executor.interns,
        );
        assert(exit_seen(before, self.executor.interns, frame_exit_result, seen, heap@));
        let result: Result<MontyObject, MontyException> = match seen {
            Ok(object) => Ok(object),
            Err(e) => Err(e.into_python_exception(&self.executor.interns, self.executor.code.as_str())),
        };
        Finished { result, heap_capacity }
    }

    /// Notes what to make room for before the next run.
    pub fn set_heap_capacity(&mut self, heap_capacity: usize)
        ensures
            final(self).executor == (Executor { heap_capacity, ..old(self).executor }),
    {
        self.executor.heap_capacity = heap_capacity;
    }

    /// Gets ready to run the program up to the first call the host has to carry out.
    ///
    /// There have to be as many inputs as the program names.
    pub fn start<T: ResourceTracker>(self, inputs: Vec<MontyObject>, resource_tracker: T) -> (r: Result<
        Execution<T>,
        MontyException,
    >)
        ensures
            ({
                let said = self.executor.started(HeapView::fresh(resource_tracker), inputs@);
                match (r, said.result) {
                    (Ok(e), Ok(n)) => execution_of(
                        e,
                        self.executor,
                        fresh_machine(said.heap, n, self.executor),
                    ),
                    (Err(e), Err(f)) => e@ == f,
                    _ => false,
                }
            }),
            inputs@.len() != self.executor.input_count ==> r is Err,
    {
        let got: usize = inputs.len();
        if self.executor.has_room(got) && got != self.executor.input_count {
            let fault: Fault = Fault::InputCount { expected: self.executor.input_count, got };
            return Err(
                MontyException::runtime_error(
                    Message::Fault(fault).to_text(&self.executor.interns),
                ),
            );
        }
        let mut heap: Heap<T> = Heap::new(self.executor.namespace_size, resource_tracker);
        match self.executor.prepare_namespaces(inputs, &mut heap) {
            Err(e) => Err(e),
            Ok(namespaces) => {
                let mut vm: VM<'_, T> = VM::new(
                    heap,
                    namespaces,
                    &self.executor.interns,
                    &self.executor.module_code,
                );
                vm.start_module();
                let (vm_state, heap, namespaces): (VMSnapshot, Heap<T>, Namespaces) = vm.snapshot();
                Ok(Execution { executor: self.executor, vm_state, heap, namespaces })
            },
        }
    }
}

/// Whether a program that is about to go on does so with a machine.
pub open spec fn execution_of<T>(e: Execution<T>, executor: Executor, vm: VmView<T>) -> bool {
    &&& e.executor == executor
    &&& e.vm_state@ == vm.state()
    &&& e.heap@ == vm.heap
    &&& e.namespaces@ == vm.namespaces
}

} // verus!
