//! The text of error messages.

use vstd::prelude::*;
use crate::error::{BinaryOp, Callee, Fault, InvalidInputError, Message, MessageView, PrintOption};
use crate::ids::StringId;
use crate::interns::Interns;
use crate::resource::ResourceError;
use crate::text::{decimal, number_text};

verus! {

impl Callee {
    /// How the callable is named.
    pub open spec fn text(self) -> Seq<char> {
        match self {
            Callee::List => "list"@,
            Callee::ListAppend => "list.append"@,
            Callee::ListInsert => "insert"@,
            Callee::ListPop => "list.pop"@,
            Callee::ListRemove => "list.remove"@,
            Callee::ListClear => "list.clear"@,
            Callee::ListCopy => "list.copy"@,
            Callee::ListExtend => "list.extend"@,
            Callee::ListIndex => "list.index"@,
            Callee::ListCount => "list.count"@,
            Callee::ListReverse => "list.reverse"@,
            Callee::ListSort => "list.sort"@,
            Callee::Print => "print"@,
        }
    }

    /// How the callable is named.
    pub fn name(self) -> (r: &'static str)
        ensures
            r@ == self.text(),
    {
        match self {
            Callee::List => "list",
            Callee::ListAppend => "list.append",
            Callee::ListInsert => "insert",
            Callee::ListPop => "list.pop",
            Callee::ListRemove => "list.remove",
            Callee::ListClear => "list.clear",
            Callee::ListCopy => "list.copy",
            Callee::ListExtend => "list.extend",
            Callee::ListIndex => "list.index",
            Callee::ListCount => "list.count",
            Callee::ListReverse => "list.reverse",
            Callee::ListSort => "list.sort",
            Callee::Print => "print",
        }
    }
}

impl BinaryOp {
    /// How the operator is named.
    pub open spec fn text(self) -> Seq<char> {
        match self {
            BinaryOp::Add => "+"@,
            BinaryOp::Sub => "-"@,
            BinaryOp::Mult => "*"@,
            BinaryOp::Div => "/"@,
            BinaryOp::FloorDiv => "//"@,
            BinaryOp::Mod => "%"@,
            BinaryOp::Pow => "** or pow()"@,
            BinaryOp::InplaceAdd => "+="@,
        }
    }

    /// How the operator is named.
    pub fn name(self) -> (r: &'static str)
        ensures
            r@ == self.text(),
    {
        match self {
            BinaryOp::Add => "+",
            BinaryOp::Sub => "-",
            BinaryOp::Mult => "*",
            BinaryOp::Div => "/",
            BinaryOp::FloorDiv => "//",
            BinaryOp::Mod => "%",
            BinaryOp::Pow => "** or pow()",
            BinaryOp::InplaceAdd => "+=",
        }
    }
}

impl PrintOption {
    /// How the argument is named.
    pub open spec fn text(self) -> Seq<char> {
        match self {
            PrintOption::Sep => "sep"@,
            PrintOption::End => "end"@,
        }
    }

    /// How the argument is named.
    pub fn name(self) -> (r: &'static str)
        ensures
            r@ == self.text(),
    {
        match self {
            PrintOption::Sep => "sep",
            PrintOption::End => "end",
        }
    }
}

impl ResourceError {
    /// What the error says.
    pub open spec fn text(self) -> Seq<char> {
        match self {
            ResourceError::Allocation { limit } => "allocation limit exceeded: "@ + decimal(
                limit as nat,
            ),
            ResourceError::Recursion { limit: _ } => "maximum recursion depth exceeded"@,
        }
    }

    /// What the error says.
    pub fn to_text(self) -> (r: String)
        ensures
            r@ == self.text(),
    {
        match self {
            ResourceError::Allocation { limit } => "allocation limit exceeded: ".to_owned().concat(
                number_text(limit as u64).as_str(),
            ),
            ResourceError::Recursion { limit: _ } => "maximum recursion depth exceeded".to_owned(),
        }
    }
}

impl InvalidInputError {
    /// What the error says.
    pub open spec fn text(self) -> Seq<char> {
        match self {
            InvalidInputError::OutputOnly => "'Repr' is not a valid input value"@,
            InvalidInputError::DictKey => "dict key is not hashable"@,
            InvalidInputError::Resource(e) => e.text(),
        }
    }

    /// What the error says.
    pub fn to_text(self) -> (r: String)
        ensures
            r@ == self.text(),
    {
        match self {
            InvalidInputError::OutputOnly => "'Repr' is not a valid input value".to_owned(),
            InvalidInputError::DictKey => "dict key is not hashable".to_owned(),
            InvalidInputError::Resource(e) => e.to_text(),
        }
    }
}

/// The name of a called function, if it is known.
pub open spec fn function_text(name: Option<StringId>, interns: Interns) -> Seq<char> {
    match name {
        Some(id) => interns.text(id),
        None => "<unknown>"@,
    }
}

fn function_name(name: Option<StringId>, interns: &Interns) -> (r: &str)
    ensures
        r@ == function_text(name, *interns),
{
    match name {
        Some(id) => interns.get_str(id),
        None => "<unknown>",
    }
}

/// The first `n` numbers, separated by commas.
pub open spec fn joined_numbers(numbers: Seq<u32>, n: int) -> Seq<char>
    decreases n,
{
    if n <= 0 {
        Seq::empty()
    } else if n == 1 {
        decimal(numbers[0] as nat)
    } else {
        joined_numbers(numbers, n - 1) + ", "@ + decimal(numbers[n - 1] as nat)
    }
}

/// A list of numbers as it is printed.
pub open spec fn list_text(numbers: Seq<u32>) -> Seq<char> {
    "["@ + joined_numbers(numbers, numbers.len() as int) + "]"@
}

fn numbers_text(numbers: &Vec<u32>) -> (r: String)
    ensures
        r@ == list_text(numbers@),
{
    let mut out: String = "[".to_owned();
    let ghost start = out@;
    let mut i: usize = 0;
    assert(out@ =~= start + joined_numbers(numbers@, 0));
    while i < numbers.len()
        invariant
            0 <= i <= numbers@.len(),
            out@ == start + joined_numbers(numbers@, i as int),
        decreases numbers@.len() - i,
    {
        if i > 0 {
            out = out.concat(", ");
        }
        out = out.concat(number_text(numbers[i] as u64).as_str());
        i = i + 1;
        assert(out@ =~= start + joined_numbers(numbers@, i as int));
    }
    out.concat("]")
}

impl Fault {
    /// What the error says.
    pub open spec fn text(self, interns: Interns) -> Seq<char> {
        match self {
            Fault::ListIndexOutOfRange => "list index out of range"@,
            Fault::ListAssignmentOutOfRange => "list assignment index out of range"@,
            Fault::ListIndices(t) => "list indices must be integers or slices, not "@ + t.text(),
            Fault::IndexTooLarge => "cannot fit 'int' into an index-sized integer"@,
            Fault::SliceStepZero => "slice step cannot be zero"@,
            Fault::SliceIndices => "slice indices must be integers or None or have an __index__ method"@,
            Fault::PopEmptyList => "pop from empty list"@,
            Fault::PopOutOfRange => "pop index out of range"@,
            Fault::RemoveNotInList => "list.remove(x): x not in list"@,
            Fault::NotInList => "list.index(x): x not in list"@,
            Fault::NotAnInteger(t) => "'"@ + t.text() + "' object cannot be interpreted as an integer"@,
            Fault::IntTooLarge => "Python int too large to convert to C ssize_t"@,
            Fault::Unhashable(t) => "unhashable type: '"@ + t.text() + "'"@,
            Fault::NotIterable(t) => "'"@ + t.text() + "' object is not iterable"@,
            Fault::ArgCount { callee, expected, got } => callee.text() + "() expected "@ + decimal(expected as nat) + " arguments, got "@ + decimal(got as nat),
            Fault::ArgsAtLeast { callee, expected, got } => callee.text() + " expected at least "@ + decimal(expected as nat) + " arguments, got "@ + decimal(got as nat),
            Fault::ArgsAtMost { callee, expected, got } => callee.text() + " expected at most "@ + decimal(expected as nat) + " arguments, got "@ + decimal(got as nat),
            Fault::NoKeywords(callee) => callee.text() + "() takes no keyword arguments"@,
            Fault::KeywordsMustBeStrings => "keywords must be strings"@,
            Fault::PrintFile => "print() 'file' argument is not supported"@,
            Fault::PrintOptionType(o, t) => o.text() + " must be None or a string, not "@ + t.text(),
            Fault::KwargsNotMapping(f, t) => function_text(f, interns) + "() argument after ** must be a mapping, not "@ + t.text(),
            Fault::KwargsNonStringKey => "keywords must be strings"@,
            Fault::NoAttribute(t, s) => "'"@ + t.text() + "' object has no attribute '"@ + interns.text(s) + "'"@,
            Fault::NotCallable => "object is not callable"@,
            Fault::SortKeyUserFunction => "list.sort() key argument must be a builtin function (user-defined functions not yet supported)"@,
            Fault::SortKeyNotCallable => "list.sort() key must be callable or None"@,
            Fault::Unorderable(a, b) => "'<' not supported between instances of '"@ + a.text() + "' and '"@ + b.text() + "'"@,
            Fault::Operands(op, a, b) => "unsupported operand type(s) for "@ + op.text() + ": '"@ + a.text() + "' and '"@ + b.text() + "'"@,
            Fault::ModOperands => "unsupported operand type(s) for %"@,
            Fault::MatMul => "matrix multiplication (@) is not supported"@,
            Fault::UnpackTooFew { expected, got } => "not enough values to unpack (expected "@ + decimal(expected as nat) + ", got "@ + decimal(got as nat) + ")"@,
            Fault::UnpackTooMany { expected, got } => "too many values to unpack (expected "@ + decimal(expected as nat) + ", got "@ + decimal(got as nat) + ")"@,
            Fault::UnpackAtLeast { expected, got } => "not enough values to unpack (expected at least "@ + decimal(expected as nat) + ", got "@ + decimal(got as nat) + ")"@,
            Fault::UnpackNonIterable(t) => "cannot unpack non-iterable "@ + t.text() + " object"@,
            Fault::NotAnException => "exceptions must derive from BaseException"@,
            Fault::ExceptInvalidType => "catching classes that do not inherit from BaseException is not allowed"@,
            Fault::NotAwaitable(t) => "'"@ + t.text() + "' object can't be awaited"@,
            Fault::CoroutineReused => "cannot reuse already awaited coroutine"@,
            Fault::GatherReused => "cannot reuse already awaited gather"@,
            Fault::FutureReused => "cannot reuse already awaited future"@,
            Fault::TaskCancelled => "task was cancelled"@,
            Fault::GatherIncomplete => "gather completed without all results"@,
            Fault::TaskNotRunnable => "task has no frames and no coroutine"@,
            Fault::Resource(e) => e.text(),
            Fault::TooManyInputs => "too many inputs for namespace"@,
            Fault::InputCount { expected, got } => "expected "@ + decimal(expected as nat) + " inputs, got "@ + decimal(got as nat),
            Fault::InvalidInput(e) => "invalid input type: "@ + e.text(),
            Fault::InvalidReturn(c, e) => "Invalid return type for call "@ + decimal(c as nat) + ": "@ + e.text(),
            Fault::OsUnsupported(f) => "OS function '"@ + decimal(f.0 as nat) + "' not implemented with standard execution"@,
            Fault::FuturesUnsupported => "async futures not supported by standard execution."@,
            Fault::InvalidBuiltinId => "CallBuiltinFunction: invalid builtin_id"@,
            Fault::InvalidTypeId => "CallBuiltinType: invalid type_id"@,
            Fault::SortExpectedList => "expected list in do_list_sort"@,
            Fault::ListToTupleExpectedList => "ListToTuple: expected list"@,
            Fault::ListToTupleExpectedRef => "ListToTuple: expected list ref"@,
            Fault::DictMergeExpectedRef => "DictMerge: expected dict ref"@,
            Fault::DictMergeExpectedDict => "DictMerge: entry is not a Dict"@,
            Fault::ListAppendExpectedRef => "ListAppend: expected list ref on stack"@,
            Fault::ListAppendExpectedList => "ListAppend: expected list on heap"@,
            Fault::SetAddExpectedRef => "SetAdd: expected set ref on stack"@,
            Fault::SetAddExpectedSet => "SetAdd: expected set on heap"@,
            Fault::DictSetItemExpectedRef => "DictSetItem: expected dict ref on stack"@,
            Fault::DictSetItemExpectedDict => "DictSetItem: expected dict on heap"@,
        }
    }

    /// What the error says.
    pub fn to_text(self, interns: &Interns) -> (r: String)
        ensures
            r@ == self.text(*interns),
    {
        match self {
            Fault::ListIndexOutOfRange => "list index out of range".to_owned(),
            Fault::ListAssignmentOutOfRange => "list assignment index out of range".to_owned(),
            Fault::ListIndices(t) => "list indices must be integers or slices, not ".to_owned().concat(t.name()),
            Fault::IndexTooLarge => "cannot fit 'int' into an index-sized integer".to_owned(),
            Fault::SliceStepZero => "slice step cannot be zero".to_owned(),
            Fault::SliceIndices => "slice indices must be integers or None or have an __index__ method".to_owned(),
            Fault::PopEmptyList => "pop from empty list".to_owned(),
            Fault::PopOutOfRange => "pop index out of range".to_owned(),
            Fault::RemoveNotInList => "list.remove(x): x not in list".to_owned(),
            Fault::NotInList => "list.index(x): x not in list".to_owned(),
            Fault::NotAnInteger(t) => "'".to_owned().concat(t.name()).concat("' object cannot be interpreted as an integer"),
            Fault::IntTooLarge => "Python int too large to convert to C ssize_t".to_owned(),
            Fault::Unhashable(t) => "unhashable type: '".to_owned().concat(t.name()).concat("'"),
            Fault::NotIterable(t) => "'".to_owned().concat(t.name()).concat("' object is not iterable"),
            Fault::ArgCount { callee, expected, got } => callee.name().to_owned().concat("() expected ").concat(number_text(expected as u64).as_str()).concat(" arguments, got ").concat(number_text(got as u64).as_str()),
            Fault::ArgsAtLeast { callee, expected, got } => callee.name().to_owned().concat(" expected at least ").concat(number_text(expected as u64).as_str()).concat(" arguments, got ").concat(number_text(got as u64).as_str()),
            Fault::ArgsAtMost { callee, expected, got } => callee.name().to_owned().concat(" expected at most ").concat(number_text(expected as u64).as_str()).concat(" arguments, got ").concat(number_text(got as u64).as_str()),
            Fault::NoKeywords(callee) => callee.name().to_owned().concat("() takes no keyword arguments"),
            Fault::KeywordsMustBeStrings => "keywords must be strings".to_owned(),
            Fault::PrintFile => "print() 'file' argument is not supported".to_owned(),
            Fault::PrintOptionType(o, t) => o.name().to_owned().concat(" must be None or a string, not ").concat(t.name()),
            Fault::KwargsNotMapping(f, t) => function_name(f, interns).to_owned().concat("() argument after ** must be a mapping, not ").concat(t.name()),
            Fault::KwargsNonStringKey => "keywords must be strings".to_owned(),
            Fault::NoAttribute(t, s) => "'".to_owned().concat(t.name()).concat("' object has no attribute '").concat(interns.get_str(s)).concat("'"),
            Fault::NotCallable => "object is not callable".to_owned(),
            Fault::SortKeyUserFunction => "list.sort() key argument must be a builtin function (user-defined functions not yet supported)".to_owned(),
            Fault::SortKeyNotCallable => "list.sort() key must be callable or None".to_owned(),
            Fault::Unorderable(a, b) => "'<' not supported between instances of '".to_owned().concat(a.name()).concat("' and '").concat(b.name()).concat("'"),
            Fault::Operands(op, a, b) => "unsupported operand type(s) for ".to_owned().concat(op.name()).concat(": '").concat(a.name()).concat("' and '").concat(b.name()).concat("'"),
            Fault::ModOperands => "unsupported operand type(s) for %".to_owned(),
            Fault::MatMul => "matrix multiplication (@) is not supported".to_owned(),
            Fault::UnpackTooFew { expected, got } => "not enough values to unpack (expected ".to_owned().concat(number_text(expected as u64).as_str()).concat(", got ").concat(number_text(got as u64).as_str()).concat(")"),
            Fault::UnpackTooMany { expected, got } => "too many values to unpack (expected ".to_owned().concat(number_text(expected as u64).as_str()).concat(", got ").concat(number_text(got as u64).as_str()).concat(")"),
            Fault::UnpackAtLeast { expected, got } => "not enough values to unpack (expected at least ".to_owned().concat(number_text(expected as u64).as_str()).concat(", got ").concat(number_text(got as u64).as_str()).concat(")"),
            Fault::UnpackNonIterable(t) => "cannot unpack non-iterable ".to_owned().concat(t.name()).concat(" object"),
            Fault::NotAnException => "exceptions must derive from BaseException".to_owned(),
            Fault::ExceptInvalidType => "catching classes that do not inherit from BaseException is not allowed".to_owned(),
            Fault::NotAwaitable(t) => "'".to_owned().concat(t.name()).concat("' object can't be awaited"),
            Fault::CoroutineReused => "cannot reuse already awaited coroutine".to_owned(),
            Fault::GatherReused => "cannot reuse already awaited gather".to_owned(),
            Fault::FutureReused => "cannot reuse already awaited future".to_owned(),
            Fault::TaskCancelled => "task was cancelled".to_owned(),
            Fault::GatherIncomplete => "gather completed without all results".to_owned(),
            Fault::TaskNotRunnable => "task has no frames and no coroutine".to_owned(),
            Fault::Resource(e) => e.to_text(),
            Fault::TooManyInputs => "too many inputs for namespace".to_owned(),
            Fault::InputCount { expected, got } => "expected ".to_owned().concat(number_text(expected as u64).as_str()).concat(" inputs, got ").concat(number_text(got as u64).as_str()),
            Fault::InvalidInput(e) => "invalid input type: ".to_owned().concat(e.to_text().as_str()),
            Fault::InvalidReturn(c, e) => "Invalid return type for call ".to_owned().concat(number_text(c as u64).as_str()).concat(": ").concat(e.to_text().as_str()),
            Fault::OsUnsupported(f) => "OS function '".to_owned().concat(number_text(f.0 as u64).as_str()).concat("' not implemented with standard execution"),
            Fault::FuturesUnsupported => "async futures not supported by standard execution.".to_owned(),
            Fault::InvalidBuiltinId => "CallBuiltinFunction: invalid builtin_id".to_owned(),
            Fault::InvalidTypeId => "CallBuiltinType: invalid type_id".to_owned(),
            Fault::SortExpectedList => "expected list in do_list_sort".to_owned(),
            Fault::ListToTupleExpectedList => "ListToTuple: expected list".to_owned(),
            Fault::ListToTupleExpectedRef => "ListToTuple: expected list ref".to_owned(),
            Fault::DictMergeExpectedRef => "DictMerge: expected dict ref".to_owned(),
            Fault::DictMergeExpectedDict => "DictMerge: entry is not a Dict".to_owned(),
            Fault::ListAppendExpectedRef => "ListAppend: expected list ref on stack".to_owned(),
            Fault::ListAppendExpectedList => "ListAppend: expected list on heap".to_owned(),
            Fault::SetAddExpectedRef => "SetAdd: expected set ref on stack".to_owned(),
            Fault::SetAddExpectedSet => "SetAdd: expected set on heap".to_owned(),
            Fault::DictSetItemExpectedRef => "DictSetItem: expected dict ref on stack".to_owned(),
            Fault::DictSetItemExpectedDict => "DictSetItem: expected dict on heap".to_owned(),
        }
    }
}

impl MessageView {
    /// What the message says.
    pub open spec fn text(self, interns: Interns) -> Seq<char> {
        match self {
            MessageView::Fault(f) => f.text(interns),
            MessageView::Text(s) => s,
            MessageView::NoAttributeText(t, s) => "'"@ + t.text() + "' object has no attribute '"@ + s + "'"@,
            MessageView::UnexpectedKeyword(c, s) => c.text() + "() got an unexpected keyword argument '"@ + s + "'"@,
            MessageView::MultipleValues(f, s) => function_text(f, interns) + "() got multiple values for keyword argument '"@ + s + "'"@,
            MessageView::CannotImport(n, s) => "cannot import name '"@ + interns.text(n) + "' from '"@ + s + "'"@,
            MessageView::ExternalUnsupported(s) => "External function '"@ + s + "' not implemented with standard execution"@,
            MessageView::UnknownCall(c, p) => "unknown call_id "@ + decimal(c as nat) + ", expected one of: "@ + list_text(p),
        }
    }
}

impl Message {
    /// What the message says.
    pub fn to_text(&self, interns: &Interns) -> (r: String)
        ensures
            r@ == self@.text(*interns),
    {
        match self {
            Message::Fault(f) => f.to_text(interns),
            Message::Text(s) => s.clone(),
            Message::NoAttributeText(t, s) => "'".to_owned().concat(t.name()).concat("' object has no attribute '").concat(s.as_str()).concat("'"),
            Message::UnexpectedKeyword(c, s) => c.name().to_owned().concat("() got an unexpected keyword argument '").concat(s.as_str()).concat("'"),
            Message::MultipleValues(f, s) => function_name(*f, interns).to_owned().concat("() got multiple values for keyword argument '").concat(s.as_str()).concat("'"),
            Message::CannotImport(n, s) => "cannot import name '".to_owned().concat(interns.get_str(*n)).concat("' from '").concat(s.as_str()).concat("'"),
            Message::ExternalUnsupported(s) => "External function '".to_owned().concat(s.as_str()).concat("' not implemented with standard execution"),
            Message::UnknownCall(c, p) => "unknown call_id ".to_owned().concat(number_text(*c as u64).as_str()).concat(", expected one of: ").concat(numbers_text(p).as_str()),
        }
    }
}

} // verus!
