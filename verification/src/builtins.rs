//! Builtin functions, exception constructors and type constructors.

use vstd::prelude::*;
use crate::args::{ArgValues, ArgsView};
use crate::error::{outcome, ErrorView, RunResult};
use crate::heap::{Heap, HeapView};
use crate::interns::Interns;
use crate::list::{list_called, List};
use crate::print::{builtin_print, print_called, PrintWriter};
use crate::resource::ResourceTracker;
use crate::types::{ExcType, Type};
use crate::value::Value;

verus! {

/// A callable that belongs to the interpreter.
#[derive(Debug, Clone, Copy, PartialEq, Eq, Structural)]
pub enum Builtins {
    /// A builtin function like `print`, `len`, `type`, etc.
    Function(BuiltinsFunctions),
    /// An exception type constructor like `ValueError`, `TypeError`, etc.
    ExcType(ExcType),
    /// A type constructor like `list`, `dict`, `int`, etc.
    Type(Type),
}

/// The builtin functions, in alphabetical order of their Python names.
#[derive(Debug, Clone, Copy, PartialEq, Eq, Structural)]
pub enum BuiltinsFunctions {
    Abs,
    All,
    Any,
    Bin,
    Chr,
    Divmod,
    Enumerate,
    Hash,
    Hex,
    Id,
    Isinstance,
    Len,
    Max,
    Min,
    Next,
    Oct,
    Ord,
    Pow,
    Print,
    Repr,
    Reversed,
    Round,
    Sorted,
    Sum,
    Type,
    Zip,
}

impl Builtins {
    /// The type of the builtin: a function is a builtin function, a class is a type.
    pub open spec fn type_of(self) -> Type {
        match self {
            Builtins::Function(_) => Type::BuiltinFunction,
            Builtins::ExcType(_) => Type::Type,
            Builtins::Type(_) => Type::Type,
        }
    }

    /// Returns the type of this builtin.
    pub fn py_type(self) -> (r: Type)
        ensures
            r == self.type_of(),
    {
        match self {
            Builtins::Function(_) => Type::BuiltinFunction,
            Builtins::ExcType(_) => Type::Type,
            Builtins::Type(_) => Type::Type,
        }
    }
}

/// How a call of a builtin goes on.
#[derive(Debug)]
pub enum BuiltinCall {
    /// The call is done.
    Done(RunResult<Value>),
    /// The builtin is not carried out here; it is to be called with these arguments.
    Elsewhere(Builtins, ArgValues),
}

/// What calling a builtin leads to.
pub enum CallView<S, T> {
    /// The call is done, and this has become of the writer and the heap.
    Done { state: S, heap: HeapView<T>, result: Result<Value, ErrorView> },
    /// The builtin is not carried out here, and nothing has happened.
    Elsewhere,
}

impl Builtins {
    /// What calling the builtin leads to: `print` and `list` are carried out here.
    pub open spec fn called<W: PrintWriter, T: ResourceTracker>(
        self,
        state: W::State,
        h: HeapView<T>,
        args: ArgsView,
        interns: Interns,
    ) -> CallView<W::State, T> {
        match self {
            Builtins::Function(BuiltinsFunctions::Print) => {
                let said = print_called::<W, T>(state, h, args, interns);
                CallView::Done {
                    state: said.state,
                    heap: said.heap,
                    result: match said.result {
                        Ok(()) => Ok(Value::PyNone),
                        Err(e) => Err(e),
                    },
                }
            },
            Builtins::Type(Type::List) => {
                let said = list_called(h, args, interns);
                CallView::Done { state, heap: said.heap, result: said.result }
            },
            _ => CallView::Elsewhere,
        }
    }

    /// Calls the builtin.
    pub fn call<W: PrintWriter, T: ResourceTracker>(
        self,
        heap: &mut Heap<T>,
        args: ArgValues,
        interns: &Interns,
        print: &mut W,
    ) -> (r: BuiltinCall)
        ensures
            match self.called::<W, T>(old(print).state(), old(heap)@, args@, *interns) {
                CallView::Done { state, heap: after, result } => (r matches BuiltinCall::Done(x)
                    && outcome(x) == result) && final(print).state() == state && final(heap)@
                    == after,
                CallView::Elsewhere => r == BuiltinCall::Elsewhere(self, args) && final(print).state() == old(print).state() && final(heap)@ == old(heap)@,
            },
    {
        match self {
            Builtins::Function(b) => b.call(heap, args, interns, print),
            Builtins::Type(Type::List) => BuiltinCall::Done(List::init(heap, args, interns)),
            _ => BuiltinCall::Elsewhere(self, args),
        }
    }
}

impl BuiltinsFunctions {
    /// Calls the builtin function.
    pub fn call<W: PrintWriter, T: ResourceTracker>(
        self,
        heap: &mut Heap<T>,
        args: ArgValues,
        interns: &Interns,
        print: &mut W,
    ) -> (r: BuiltinCall)
        ensures
            match Builtins::Function(self).called::<W, T>(
                old(print).state(),
                old(heap)@,
                args@,
                *interns,
            ) {
                CallView::Done { state, heap: after, result } => (r matches BuiltinCall::Done(x)
                    && outcome(x) == result) && final(print).state() == state && final(heap)@
                    == after,
                CallView::Elsewhere => r == BuiltinCall::Elsewhere(Builtins::Function(self), args)
                    && final(print).state() == old(print).state() && final(heap)@ == old(heap)@,
            },
    {
        match self {
            BuiltinsFunctions::Print => BuiltinCall::Done(
                builtin_print(heap, args, interns, print),
            ),
            _ => BuiltinCall::Elsewhere(Builtins::Function(self), args),
        }
    }
}

} // verus!
