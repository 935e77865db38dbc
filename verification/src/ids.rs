//! Identifiers handed out by the heap, the interner and the scheduler.

use vstd::prelude::*;

verus! {

/// The slot of an object on the heap.
#[derive(Debug, Clone, Copy, PartialEq, Eq, Structural)]
pub struct HeapId(pub usize);

/// An interned string.
#[derive(Debug, Clone, Copy, PartialEq, Eq, Structural)]
pub struct StringId(pub usize);

/// An interned bytes literal.
#[derive(Debug, Clone, Copy, PartialEq, Eq, Structural)]
pub struct BytesId(pub usize);

/// An interned integer literal outside the `i64` range.
#[derive(Debug, Clone, Copy, PartialEq, Eq, Structural)]
pub struct LongIntId(pub usize);

/// A function defined by the program.
#[derive(Debug, Clone, Copy, PartialEq, Eq, Structural)]
pub struct FunctionId(pub usize);

/// A function the host offers to the program.
#[derive(Debug, Clone, Copy, PartialEq, Eq, Structural)]
pub struct ExtFunctionId(pub usize);

/// A function of an interpreter-native module.
#[derive(Debug, Clone, Copy, PartialEq, Eq, Structural)]
pub struct ModuleFunctionId(pub usize);

/// An operation the host performs on behalf of the program.
#[derive(Debug, Clone, Copy, PartialEq, Eq, Structural)]
pub struct OsFunction(pub usize);

/// A namespace on the namespace stack.
#[derive(Debug, Clone, Copy, PartialEq, Eq, Structural)]
pub struct NamespaceId(pub usize);

/// One external call, used to match a result to the call it answers.
#[derive(Debug, Clone, Copy, PartialEq, Eq, Structural)]
pub struct CallId(pub u32);

impl CallId {
    pub fn new(raw: u32) -> (r: Self)
        ensures
            r == CallId(raw),
    {
        CallId(raw)
    }

    pub fn raw(self) -> (r: u32)
        ensures
            r == self.0,
    {
        self.0
    }
}

/// One asynchronous task; task 0 is the main task.
#[derive(Debug, Clone, Copy, PartialEq, Eq, Structural)]
pub struct TaskId(pub usize);

impl TaskId {
    pub open spec fn main_task() -> TaskId {
        TaskId(0)
    }

    pub fn is_main(self) -> (r: bool)
        ensures
            r == (self == TaskId::main_task()),
    {
        self.0 == 0
    }
}

impl Default for TaskId {
    fn default() -> (r: Self)
        ensures
            r == TaskId::main_task(),
    {
        TaskId(0)
    }
}

impl ExtFunctionId {
    pub fn new(index: usize) -> (r: Self)
        ensures
            r == ExtFunctionId(index),
    {
        ExtFunctionId(index)
    }
}

impl StringId {
    /// The string at position `index` of the intern table.
    pub fn from_index(index: u16) -> (r: Self)
        ensures
            r == StringId(index as usize),
    {
        StringId(index as usize)
    }
}

} // verus!
