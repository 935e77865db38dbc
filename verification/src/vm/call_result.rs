//! What a call or an attribute access asks the machine to do next.

use vstd::prelude::*;
use vstd::std_specs::convert::FromSpecImpl;
use crate::args::{ArgValues, ArgsView};
use crate::builtins::Builtins;
use crate::error::{CodeRange, ErrorView, RunResult};
use crate::ids::{
    ExtFunctionId, FunctionId, HeapId, ModuleFunctionId, NamespaceId, OsFunction, StringId,
};
use crate::sort::{SortJob, SortView};
use crate::value::Value;

verus! {

/// What getting or calling an attribute came to.
#[derive(Debug)]
pub enum AttrCallResult {
    Value(Value),
    OsCall(OsFunction, ArgValues),
    ExternalCall(ExtFunctionId, ArgValues),
}

/// What to do after a call.
#[derive(Debug)]
pub enum CallResult {
    /// The call is done; push this value.
    Push(Value),
    /// A frame was pushed; go on with it.
    FramePushed,
    /// The host has to call one of its functions.
    External(ExtFunctionId, ArgValues),
    /// The host has to carry out an operating system function.
    OsCall(OsFunction, ArgValues),
}

/// The content of a [`CallResult`].
pub enum CallResultView {
    Push(Value),
    FramePushed,
    External(ExtFunctionId, ArgsView),
    OsCall(OsFunction, ArgsView),
}

impl View for CallResult {
    type V = CallResultView;

    open spec fn view(&self) -> CallResultView {
        match self {
            CallResult::Push(v) => CallResultView::Push(*v),
            CallResult::FramePushed => CallResultView::FramePushed,
            CallResult::External(id, args) => CallResultView::External(*id, args@),
            CallResult::OsCall(f, args) => CallResultView::OsCall(*f, args@),
        }
    }
}

/// The result of a call with its parts by content.
pub open spec fn call_outcome(r: RunResult<CallResult>) -> Result<CallResultView, ErrorView> {
    match r {
        Ok(x) => Ok(x@),
        Err(e) => Err(e@),
    }
}

/// A call of a function of the program whose arguments are not bound yet.
#[derive(Debug)]
pub struct Binding {
    pub func_id: FunctionId,
    /// The cells the function has captured.
    pub cells: Vec<HeapId>,
    pub defaults: Vec<Value>,
    /// The namespace of the call and where it is made; a call of an async function has none.
    pub frame: Option<(NamespaceId, CodeRange)>,
}

/// The content of a [`Binding`].
#[verifier::ext_equal]
pub struct BindingView {
    pub func_id: FunctionId,
    pub cells: Seq<HeapId>,
    pub defaults: Seq<Value>,
    pub frame: Option<(NamespaceId, CodeRange)>,
}

impl View for Binding {
    type V = BindingView;

    open spec fn view(&self) -> BindingView {
        BindingView {
            func_id: self.func_id,
            cells: self.cells@,
            defaults: self.defaults@,
            frame: self.frame,
        }
    }
}

/// How a call goes on.
#[derive(Debug)]
pub enum Calling {
    Done(RunResult<CallResult>),
    /// A builtin has to be called elsewhere.
    Builtin(Builtins, ArgValues),
    /// A function of a module has to be called elsewhere.
    ModuleFunction(ModuleFunctionId, ArgValues),
    /// Arguments have to be bound to the parameters of a function.
    Bind(Binding, ArgValues),
    /// A method of an object has to be called elsewhere.
    Method(Value, StringId, ArgValues),
    /// A sort of a list needs the result of this call as its next key.
    SortKey(Value, SortJob, Builtins, ArgValues),
}

/// The content of a [`Calling`].
pub enum CallingView {
    Done(Result<CallResultView, ErrorView>),
    Builtin(Builtins, ArgsView),
    ModuleFunction(ModuleFunctionId, ArgsView),
    Bind(BindingView, ArgsView),
    Method(Value, StringId, ArgsView),
    SortKey(Value, SortView, Builtins, ArgsView),
}

impl View for Calling {
    type V = CallingView;

    open spec fn view(&self) -> CallingView {
        match self {
            Calling::Done(r) => CallingView::Done(call_outcome(*r)),
            Calling::Builtin(b, args) => CallingView::Builtin(*b, args@),
            Calling::ModuleFunction(f, args) => CallingView::ModuleFunction(*f, args@),
            Calling::Bind(b, args) => CallingView::Bind(b@, args@),
            Calling::Method(v, name, args) => CallingView::Method(*v, *name, args@),
            Calling::SortKey(v, job, b, args) => CallingView::SortKey(*v, job@, *b, args@),
        }
    }
}

impl FromSpecImpl<AttrCallResult> for CallResult {
    open spec fn obeys_from_spec() -> bool {
        true
    }

    open spec fn from_spec(result: AttrCallResult) -> CallResult {
        match result {
            AttrCallResult::Value(v) => CallResult::Push(v),
            AttrCallResult::OsCall(func, args) => CallResult::OsCall(func, args),
            AttrCallResult::ExternalCall(ext_id, args) => CallResult::External(ext_id, args),
        }
    }
}

impl From<AttrCallResult> for CallResult {
    fn from(result: AttrCallResult) -> (r: CallResult) {
        match result {
            AttrCallResult::Value(v) => CallResult::Push(v),
            AttrCallResult::OsCall(func, args) => CallResult::OsCall(func, args),
            AttrCallResult::ExternalCall(ext_id, args) => CallResult::External(ext_id, args),
        }
    }
}

} // verus!
