//! Strings, literals and functions that a compiled program refers to by id.

use vstd::prelude::*;
use crate::error::CodeRange;
use crate::ids::{BytesId, ExtFunctionId, FunctionId, LongIntId, StringId};
use crate::long_int::LongInt;

verus! {

/// Names the interpreter itself looks for; they come first in the intern table.
#[derive(Debug, Clone, Copy, PartialEq, Eq, Structural)]
pub enum StaticStrings {
    Append,
    Clear,
    Copy,
    Count,
    Extend,
    Fromhex,
    Fromkeys,
    Index,
    Insert,
    Module,
    Pop,
    Remove,
    Reverse,
    Sort,
}

/// The number of names in [`StaticStrings`].
pub const STATIC_COUNT: usize = 14;

impl StaticStrings {
    /// The position of the name in the intern table.
    pub open spec fn index(self) -> usize {
        match self {
            StaticStrings::Append => 0,
            StaticStrings::Clear => 1,
            StaticStrings::Copy => 2,
            StaticStrings::Count => 3,
            StaticStrings::Extend => 4,
            StaticStrings::Fromhex => 5,
            StaticStrings::Fromkeys => 6,
            StaticStrings::Index => 7,
            StaticStrings::Insert => 8,
            StaticStrings::Module => 9,
            StaticStrings::Pop => 10,
            StaticStrings::Remove => 11,
            StaticStrings::Reverse => 12,
            StaticStrings::Sort => 13,
        }
    }

    /// The name itself.
    pub open spec fn text(self) -> Seq<char> {
        match self {
            StaticStrings::Append => "append"@,
            StaticStrings::Clear => "clear"@,
            StaticStrings::Copy => "copy"@,
            StaticStrings::Count => "count"@,
            StaticStrings::Extend => "extend"@,
            StaticStrings::Fromhex => "fromhex"@,
            StaticStrings::Fromkeys => "fromkeys"@,
            StaticStrings::Index => "index"@,
            StaticStrings::Insert => "insert"@,
            StaticStrings::Module => "<module>"@,
            StaticStrings::Pop => "pop"@,
            StaticStrings::Remove => "remove"@,
            StaticStrings::Reverse => "reverse"@,
            StaticStrings::Sort => "sort"@,
        }
    }

    /// The id of the name.
    pub open spec fn id(self) -> StringId {
        StringId(self.index())
    }

    /// The name with the given id, if it is one of these.
    pub open spec fn of_id(id: StringId) -> Option<StaticStrings> {
        if id.0 == 0 {
            Some(StaticStrings::Append)
        } else if id.0 == 1 {
            Some(StaticStrings::Clear)
        } else if id.0 == 2 {
            Some(StaticStrings::Copy)
        } else if id.0 == 3 {
            Some(StaticStrings::Count)
        } else if id.0 == 4 {
            Some(StaticStrings::Extend)
        } else if id.0 == 5 {
            Some(StaticStrings::Fromhex)
        } else if id.0 == 6 {
            Some(StaticStrings::Fromkeys)
        } else if id.0 == 7 {
            Some(StaticStrings::Index)
        } else if id.0 == 8 {
            Some(StaticStrings::Insert)
        } else if id.0 == 9 {
            Some(StaticStrings::Module)
        } else if id.0 == 10 {
            Some(StaticStrings::Pop)
        } else if id.0 == 11 {
            Some(StaticStrings::Remove)
        } else if id.0 == 12 {
            Some(StaticStrings::Reverse)
        } else if id.0 == 13 {
            Some(StaticStrings::Sort)
        } else {
            None
        }
    }

    /// The id of the name.
    pub fn string_id(self) -> (r: StringId)
        ensures
            r == self.id(),
            StaticStrings::of_id(r) == Some(self),
    {
        let index: usize = match self {
            StaticStrings::Append => 0,
            StaticStrings::Clear => 1,
            StaticStrings::Copy => 2,
            StaticStrings::Count => 3,
            StaticStrings::Extend => 4,
            StaticStrings::Fromhex => 5,
            StaticStrings::Fromkeys => 6,
            StaticStrings::Index => 7,
            StaticStrings::Insert => 8,
            StaticStrings::Module => 9,
            StaticStrings::Pop => 10,
            StaticStrings::Remove => 11,
            StaticStrings::Reverse => 12,
            StaticStrings::Sort => 13,
        };
        StringId(index)
    }

    /// The name with the given id, if it is one of these.
    pub fn from_string_id(id: StringId) -> (r: Option<StaticStrings>)
        ensures
            r == StaticStrings::of_id(id),
            r matches Some(s) ==> s.id() == id,
            r is Some <==> id.0 < STATIC_COUNT,
    {
        match id.0 {
            0 => Some(StaticStrings::Append),
            1 => Some(StaticStrings::Clear),
            2 => Some(StaticStrings::Copy),
            3 => Some(StaticStrings::Count),
            4 => Some(StaticStrings::Extend),
            5 => Some(StaticStrings::Fromhex),
            6 => Some(StaticStrings::Fromkeys),
            7 => Some(StaticStrings::Index),
            8 => Some(StaticStrings::Insert),
            9 => Some(StaticStrings::Module),
            10 => Some(StaticStrings::Pop),
            11 => Some(StaticStrings::Remove),
            12 => Some(StaticStrings::Reverse),
            13 => Some(StaticStrings::Sort),
            _ => None,
        }
    }

    /// The name itself.
    pub fn as_str(self) -> (r: &'static str)
        ensures
            r@ == self.text(),
    {
        match self {
            StaticStrings::Append => "append",
            StaticStrings::Clear => "clear",
            StaticStrings::Copy => "copy",
            StaticStrings::Count => "count",
            StaticStrings::Extend => "extend",
            StaticStrings::Fromhex => "fromhex",
            StaticStrings::Fromkeys => "fromkeys",
            StaticStrings::Index => "index",
            StaticStrings::Insert => "insert",
            StaticStrings::Module => "<module>",
            StaticStrings::Pop => "pop",
            StaticStrings::Remove => "remove",
            StaticStrings::Reverse => "reverse",
            StaticStrings::Sort => "sort",
        }
    }
}

/// A name that is interned, or that the program computed.
#[derive(Debug)]
pub enum EitherStr {
    Interned(StringId),
    Heap(String),
}

impl EitherStr {
    /// The interpreter's own name this is, if it is one.
    pub open spec fn as_static(self) -> Option<StaticStrings> {
        match self {
            EitherStr::Interned(id) => StaticStrings::of_id(id),
            EitherStr::Heap(_) => None,
        }
    }

    /// The interpreter's own name this is, if it is one.
    pub fn static_string(&self) -> (r: Option<StaticStrings>)
        ensures
            r == self.as_static(),
    {
        match self {
            EitherStr::Interned(id) => StaticStrings::from_string_id(*id),
            EitherStr::Heap(_) => None,
        }
    }
}

/// A protected stretch of code and where its handler starts.
#[derive(Debug, Clone, Copy, PartialEq, Eq, Structural)]
pub struct ExceptionEntry {
    pub start: u32,
    pub end: u32,
    pub handler: u32,
    pub stack_depth: u16,
}

impl ExceptionEntry {
    /// Whether the instruction at `ip` is protected.
    pub open spec fn covers(self, ip: u32) -> bool {
        self.start <= ip < self.end
    }
}

/// Compiled code, with its handlers (inner ones first) and its source positions.
#[derive(Debug)]
pub struct Code {
    pub bytecode: Vec<u8>,
    pub handlers: Vec<ExceptionEntry>,
    pub locations: Vec<(usize, CodeRange)>,
}

/// The position of code that has none recorded.
pub open spec fn unknown_position() -> CodeRange {
    CodeRange { start_line: 0, start_column: 0, end_line: 0, end_column: 0 }
}

/// The first of the handlers that protects the instruction at `ip`.
pub open spec fn find_handler(handlers: Seq<ExceptionEntry>, ip: u32) -> Option<ExceptionEntry>
    decreases handlers.len(),
{
    if handlers.len() == 0 {
        None
    } else if handlers[0].covers(ip) {
        Some(handlers[0])
    } else {
        find_handler(handlers.skip(1), ip)
    }
}

/// The last recorded position at or before the instruction at `ip`.
pub open spec fn find_position(locations: Seq<(usize, CodeRange)>, ip: usize) -> CodeRange
    decreases locations.len(),
{
    if locations.len() == 0 {
        unknown_position()
    } else if locations.last().0 <= ip {
        locations.last().1
    } else {
        find_position(locations.drop_last(), ip)
    }
}

impl Code {
    pub fn new(
        bytecode: Vec<u8>,
        handlers: Vec<ExceptionEntry>,
        locations: Vec<(usize, CodeRange)>,
    ) -> (r: Self)
        ensures
            r == (Code { bytecode, handlers, locations }),
    {
        Code { bytecode, handlers, locations }
    }

    /// The innermost handler that protects the instruction at `ip`.
    pub fn find_exception_handler(&self, ip: u32) -> (r: Option<ExceptionEntry>)
        ensures
            r == find_handler(self.handlers@, ip),
    {
        let mut i: usize = 0;
        assert(self.handlers@.skip(0) =~= self.handlers@);
        while i < self.handlers.len()
            invariant
                0 <= i <= self.handlers@.len(),
                find_handler(self.handlers@, ip) == find_handler(self.handlers@.skip(i as int), ip),
            decreases self.handlers@.len() - i,
        {
            let entry: ExceptionEntry = self.handlers[i];
            if entry.start <= ip && ip < entry.end {
                return Some(entry);
            }
            assert(self.handlers@.skip(i as int).skip(1) =~= self.handlers@.skip(i + 1));
            i = i + 1;
        }
        None
    }

    /// The source position of the instruction at `ip`.
    pub fn position_at(&self, ip: usize) -> (r: CodeRange)
        ensures
            r == find_position(self.locations@, ip),
    {
        let mut i: usize = self.locations.len();
        assert(self.locations@.take(i as int) =~= self.locations@);
        while i > 0
            invariant
                0 <= i <= self.locations@.len(),
                find_position(self.locations@, ip) == find_position(
                    self.locations@.take(i as int),
                    ip,
                ),
            decreases i,
        {
            let (at, position): (usize, CodeRange) = self.locations[i - 1];
            if at <= ip {
                return position;
            }
            assert(self.locations@.take(i as int).drop_last() =~= self.locations@.take(i - 1));
            i = i - 1;
        }
        CodeRange { start_line: 0, start_column: 0, end_line: 0, end_column: 0 }
    }
}

/// A function defined by the program.
#[derive(Debug)]
pub struct Function {
    pub name: StringId,
    /// The number of slots its parameters take.
    pub param_count: usize,
    /// The number of slots of its namespace.
    pub namespace_size: usize,
    /// For each variable captured by an inner function, the parameter it starts from.
    pub cell_param_indices: Vec<Option<usize>>,
    pub is_async: bool,
    pub code: Code,
}

impl Function {
    /// The namespace has room for the parameters, the captured variables and `free` more.
    pub open spec fn slots_fit(self, free: nat) -> bool {
        &&& self.param_count + self.cell_param_indices@.len() + free <= self.namespace_size
        &&& forall|i: int|
            0 <= i < self.cell_param_indices@.len()
                ==> ((#[trigger] self.cell_param_indices@[i]) matches Some(p) ==> p
                < self.param_count)
    }
}

/// Everything a compiled program refers to by id.
#[derive(Debug)]
pub struct Interns {
    pub strings: Vec<String>,
    pub bytes: Vec<Vec<u8>>,
    pub long_ints: Vec<LongInt>,
    pub functions: Vec<Function>,
    pub external_functions: Vec<String>,
}

impl Interns {
    /// Whether there is a string with the given id.
    pub open spec fn has_str(self, id: StringId) -> bool {
        id.0 < STATIC_COUNT + self.strings@.len()
    }

    /// The string with the given id; empty if there is none.
    pub open spec fn text(self, id: StringId) -> Seq<char> {
        match StaticStrings::of_id(id) {
            Some(s) => s.text(),
            None => if self.has_str(id) {
                self.strings@[id.0 - STATIC_COUNT]@
            } else {
                ""@
            },
        }
    }

    /// The bytes literal with the given id; empty if there is none.
    pub open spec fn bytes_text(self, id: BytesId) -> Seq<u8> {
        if id.0 < self.bytes@.len() {
            self.bytes@[id.0 as int]@
        } else {
            Seq::empty()
        }
    }

    /// The integer literal with the given id; zero if there is none.
    pub open spec fn long_int(self, id: LongIntId) -> int {
        if id.0 < self.long_ints@.len() {
            self.long_ints@[id.0 as int]@
        } else {
            0
        }
    }

    /// Whether there is a function with the given id.
    pub open spec fn has_function(self, id: FunctionId) -> bool {
        id.0 < self.functions@.len()
    }

    /// The function with the given id.
    pub open spec fn function(self, id: FunctionId) -> Function {
        self.functions@[id.0 as int]
    }

    pub fn new(
        strings: Vec<String>,
        bytes: Vec<Vec<u8>>,
        long_ints: Vec<LongInt>,
        functions: Vec<Function>,
        external_functions: Vec<String>,
    ) -> (r: Self)
        ensures
            r == (Interns { strings, bytes, long_ints, functions, external_functions }),
    {
        Interns { strings, bytes, long_ints, functions, external_functions }
    }

    /// The string with the given id; empty if there is none.
    pub fn get_str(&self, id: StringId) -> (r: &str)
        ensures
            r@ == self.text(id),
    {
        match StaticStrings::from_string_id(id) {
            Some(s) => s.as_str(),
            None => if id.0 - STATIC_COUNT < self.strings.len() {
                self.strings[id.0 - STATIC_COUNT].as_str()
            } else {
                ""
            },
        }
    }

    /// The bytes literal with the given id; empty if there is none.
    pub fn get_bytes(&self, id: BytesId) -> (r: Vec<u8>)
        ensures
            r@ == self.bytes_text(id),
    {
        if id.0 < self.bytes.len() {
            let copy: Vec<u8> = self.bytes[id.0].clone();
            assert(copy@ =~= self.bytes@[id.0 as int]@);
            copy
        } else {
            Vec::new()
        }
    }

    /// The integer literal with the given id; zero if there is none.
    pub fn get_long_int(&self, id: LongIntId) -> (r: LongInt)
        ensures
            r@ == self.long_int(id),
    {
        if id.0 < self.long_ints.len() {
            self.long_ints[id.0].duplicate()
        } else {
            LongInt::from_i64(0)
        }
    }

    /// The function with the given id.
    pub fn get_function(&self, id: FunctionId) -> (r: &Function)
        requires
            self.has_function(id),
        ensures
            *r == self.function(id),
    {
        &self.functions[id.0]
    }

    /// The name of the host function with the given id.
    pub fn get_external_function_name(&self, id: ExtFunctionId) -> (r: String)
        requires
            id.0 < self.external_functions@.len(),
        ensures
            r@ == self.external_functions@[id.0 as int]@,
    {
        self.external_functions[id.0].clone()
    }
}

impl EitherStr {
    /// The name itself.
    pub open spec fn text(self, interns: Interns) -> Seq<char> {
        match self {
            EitherStr::Interned(id) => interns.text(id),
            EitherStr::Heap(s) => s@,
        }
    }

    /// The name itself.
    pub fn to_text(&self, interns: &Interns) -> (r: String)
        ensures
            r@ == self.text(*interns),
    {
        match self {
            EitherStr::Interned(id) => interns.get_str(*id).to_owned(),
            EitherStr::Heap(s) => s.clone(),
        }
    }
}

} // verus!
