//! What errors say.

use vstd::prelude::*;
use crate::error::{BinaryOp, Callee, Fault, InvalidInputError, MessageView, PrintOption};
use crate::ids::{OsFunction, StringId};
use crate::interns::Interns;
use crate::messages::{function_text, joined_numbers, list_text};
use crate::resource::ResourceError;
use crate::text::decimal;
use crate::types::Type;

verus! {

/// Callables are named in messages as Python names them.
pub proof fn callables_are_named(c: Callee)
    ensures
        c == Callee::List ==> c.text() == "list"@,
        c == Callee::ListAppend ==> c.text() == "list.append"@,
        c == Callee::ListInsert ==> c.text() == "insert"@,
        c == Callee::ListPop ==> c.text() == "list.pop"@,
        c == Callee::ListRemove ==> c.text() == "list.remove"@,
        c == Callee::ListClear ==> c.text() == "list.clear"@,
        c == Callee::ListCopy ==> c.text() == "list.copy"@,
        c == Callee::ListExtend ==> c.text() == "list.extend"@,
        c == Callee::ListIndex ==> c.text() == "list.index"@,
        c == Callee::ListCount ==> c.text() == "list.count"@,
        c == Callee::ListReverse ==> c.text() == "list.reverse"@,
        c == Callee::ListSort ==> c.text() == "list.sort"@,
        c == Callee::Print ==> c.text() == "print"@,
{
}

/// Operators are named in messages as they are written.
pub proof fn operators_are_named(op: BinaryOp)
    ensures
        op == BinaryOp::Add ==> op.text() == "+"@,
        op == BinaryOp::Sub ==> op.text() == "-"@,
        op == BinaryOp::Mult ==> op.text() == "*"@,
        op == BinaryOp::Div ==> op.text() == "/"@,
        op == BinaryOp::FloorDiv ==> op.text() == "//"@,
        op == BinaryOp::Mod ==> op.text() == "%"@,
        op == BinaryOp::Pow ==> op.text() == "** or pow()"@,
        op == BinaryOp::InplaceAdd ==> op.text() == "+="@,
{
}

/// The options of `print` are named as they are written.
pub proof fn print_options_are_named(o: PrintOption)
    ensures
        o == PrintOption::Sep ==> o.text() == "sep"@,
        o == PrintOption::End ==> o.text() == "end"@,
{
}

/// The messages that are always the same.
pub proof fn fixed_messages(f: Fault, interns: Interns)
    ensures
        f == Fault::ListIndexOutOfRange ==> f.text(interns) == "list index out of range"@,
        f == Fault::ListAssignmentOutOfRange ==> f.text(interns) == "list assignment index out of range"@,
        f == Fault::IndexTooLarge ==> f.text(interns) == "cannot fit 'int' into an index-sized integer"@,
        f == Fault::SliceStepZero ==> f.text(interns) == "slice step cannot be zero"@,
        f == Fault::SliceIndices ==> f.text(interns) == "slice indices must be integers or None or have an __index__ method"@,
        f == Fault::PopEmptyList ==> f.text(interns) == "pop from empty list"@,
        f == Fault::PopOutOfRange ==> f.text(interns) == "pop index out of range"@,
        f == Fault::RemoveNotInList ==> f.text(interns) == "list.remove(x): x not in list"@,
        f == Fault::NotInList ==> f.text(interns) == "list.index(x): x not in list"@,
        f == Fault::IntTooLarge ==> f.text(interns) == "Python int too large to convert to C ssize_t"@,
        f == Fault::KeywordsMustBeStrings ==> f.text(interns) == "keywords must be strings"@,
        f == Fault::PrintFile ==> f.text(interns) == "print() 'file' argument is not supported"@,
        f == Fault::KwargsNonStringKey ==> f.text(interns) == "keywords must be strings"@,
        f == Fault::NotCallable ==> f.text(interns) == "object is not callable"@,
        f == Fault::SortKeyUserFunction ==> f.text(interns) == "list.sort() key argument must be a builtin function (user-defined functions not yet supported)"@,
        f == Fault::SortKeyNotCallable ==> f.text(interns) == "list.sort() key must be callable or None"@,
        f == Fault::ModOperands ==> f.text(interns) == "unsupported operand type(s) for %"@,
        f == Fault::MatMul ==> f.text(interns) == "matrix multiplication (@) is not supported"@,
        f == Fault::NotAnException ==> f.text(interns) == "exceptions must derive from BaseException"@,
        f == Fault::ExceptInvalidType ==> f.text(interns) == "catching classes that do not inherit from BaseException is not allowed"@,
        f == Fault::CoroutineReused ==> f.text(interns) == "cannot reuse already awaited coroutine"@,
        f == Fault::GatherReused ==> f.text(interns) == "cannot reuse already awaited gather"@,
        f == Fault::FutureReused ==> f.text(interns) == "cannot reuse already awaited future"@,
        f == Fault::TaskCancelled ==> f.text(interns) == "task was cancelled"@,
        f == Fault::GatherIncomplete ==> f.text(interns) == "gather completed without all results"@,
        f == Fault::TaskNotRunnable ==> f.text(interns) == "task has no frames and no coroutine"@,
        f == Fault::TooManyInputs ==> f.text(interns) == "too many inputs for namespace"@,
        f == Fault::FuturesUnsupported ==> f.text(interns) == "async futures not supported by standard execution."@,
        f == Fault::InvalidBuiltinId ==> f.text(interns) == "CallBuiltinFunction: invalid builtin_id"@,
        f == Fault::InvalidTypeId ==> f.text(interns) == "CallBuiltinType: invalid type_id"@,
        f == Fault::SortExpectedList ==> f.text(interns) == "expected list in do_list_sort"@,
        f == Fault::ListToTupleExpectedList ==> f.text(interns) == "ListToTuple: expected list"@,
        f == Fault::ListToTupleExpectedRef ==> f.text(interns) == "ListToTuple: expected list ref"@,
        f == Fault::DictMergeExpectedRef ==> f.text(interns) == "DictMerge: expected dict ref"@,
        f == Fault::DictMergeExpectedDict ==> f.text(interns) == "DictMerge: entry is not a Dict"@,
        f == Fault::ListAppendExpectedRef ==> f.text(interns) == "ListAppend: expected list ref on stack"@,
        f == Fault::ListAppendExpectedList ==> f.text(interns) == "ListAppend: expected list on heap"@,
        f == Fault::SetAddExpectedRef ==> f.text(interns) == "SetAdd: expected set ref on stack"@,
        f == Fault::SetAddExpectedSet ==> f.text(interns) == "SetAdd: expected set on heap"@,
        f == Fault::DictSetItemExpectedRef ==> f.text(interns) == "DictSetItem: expected dict ref on stack"@,
        f == Fault::DictSetItemExpectedDict ==> f.text(interns) == "DictSetItem: expected dict on heap"@,
{
}

/// Messages about a value name its type.
pub proof fn messages_name_the_type(t: Type, interns: Interns)
    ensures
        Fault::ListIndices(t).text(interns) == "list indices must be integers or slices, not "@ + t.text(),
        Fault::NotAnInteger(t).text(interns) == "'"@ + t.text() + "' object cannot be interpreted as an integer"@,
        Fault::Unhashable(t).text(interns) == "unhashable type: '"@ + t.text() + "'"@,
        Fault::NotIterable(t).text(interns) == "'"@ + t.text() + "' object is not iterable"@,
        Fault::UnpackNonIterable(t).text(interns) == "cannot unpack non-iterable "@ + t.text() + " object"@,
        Fault::NotAwaitable(t).text(interns) == "'"@ + t.text() + "' object can't be awaited"@,
{
}

/// Messages about two operands name the type of the left one and then that of the right one.
pub proof fn messages_name_both_types(op: BinaryOp, a: Type, b: Type, interns: Interns)
    ensures
        Fault::Unorderable(a, b).text(interns) == "'<' not supported between instances of '"@ + a.text() + "' and '"@ + b.text() + "'"@,
        Fault::Operands(op, a, b).text(interns) == "unsupported operand type(s) for "@ + op.text() + ": '"@ + a.text() + "' and '"@ + b.text() + "'"@,
{
}

/// Messages about the number of arguments say first what was expected and then what there was.
pub proof fn messages_count_arguments(callee: Callee, expected: usize, got: usize, interns: Interns)
    ensures
        (Fault::ArgCount { callee, expected, got }).text(interns) == callee.text() + "() expected "@ + decimal(expected as nat) + " arguments, got "@ + decimal(got as nat),
        (Fault::ArgsAtLeast { callee, expected, got }).text(interns) == callee.text() + " expected at least "@ + decimal(expected as nat) + " arguments, got "@ + decimal(got as nat),
        (Fault::ArgsAtMost { callee, expected, got }).text(interns) == callee.text() + " expected at most "@ + decimal(expected as nat) + " arguments, got "@ + decimal(got as nat),
        Fault::NoKeywords(callee).text(interns) == callee.text() + "() takes no keyword arguments"@,
{
}

/// Messages about the number of values say first what was expected and then what there was.
pub proof fn messages_count_values(expected: usize, got: usize, interns: Interns)
    ensures
        (Fault::UnpackTooFew { expected, got }).text(interns) == "not enough values to unpack (expected "@ + decimal(expected as nat) + ", got "@ + decimal(got as nat) + ")"@,
        (Fault::UnpackTooMany { expected, got }).text(interns) == "too many values to unpack (expected "@ + decimal(expected as nat) + ", got "@ + decimal(got as nat) + ")"@,
        (Fault::UnpackAtLeast { expected, got }).text(interns) == "not enough values to unpack (expected at least "@ + decimal(expected as nat) + ", got "@ + decimal(got as nat) + ")"@,
        (Fault::InputCount { expected, got }).text(interns) == "expected "@ + decimal(expected as nat) + " inputs, got "@ + decimal(got as nat),
{
}

/// Messages about a name that is missing or of the wrong kind say it.
pub proof fn messages_name_what_was_asked_for(o: PrintOption, f: Option<StringId>, t: Type, s: StringId, interns: Interns)
    ensures
        Fault::PrintOptionType(o, t).text(interns) == o.text() + " must be None or a string, not "@ + t.text(),
        Fault::KwargsNotMapping(f, t).text(interns) == function_text(f, interns) + "() argument after ** must be a mapping, not "@ + t.text(),
        Fault::NoAttribute(t, s).text(interns) == "'"@ + t.text() + "' object has no attribute '"@ + interns.text(s) + "'"@,
{
}

/// Messages about the host say what is wrong with what it gave or cannot do.
pub proof fn messages_say_what_the_host_did(
    e: InvalidInputError,
    c: u32,
    f: OsFunction,
    limit: usize,
    interns: Interns,
)
    ensures
        Fault::InvalidInput(e).text(interns) == "invalid input type: "@ + e.text(),
        Fault::InvalidReturn(c, e).text(interns) == "Invalid return type for call "@ + decimal(
            c as nat,
        ) + ": "@ + e.text(),
        Fault::OsUnsupported(f).text(interns) == "OS function '"@ + decimal(f.0 as nat)
            + "' not implemented with standard execution"@,
        e is OutputOnly ==> e.text() == "'Repr' is not a valid input value"@,
        e is DictKey ==> e.text() == "dict key is not hashable"@,
        (ResourceError::Allocation { limit }).text() == "allocation limit exceeded: "@ + decimal(
            limit as nat,
        ),
        (ResourceError::Recursion { limit }).text() == "maximum recursion depth exceeded"@,
{
}

/// Messages with a text in them say it in its place.
pub proof fn messages_say_the_name(
    t: Type,
    c: Callee,
    f: Option<StringId>,
    n: StringId,
    s: Seq<char>,
    interns: Interns,
)
    ensures
        MessageView::Text(s).text(interns) == s,
        MessageView::NoAttributeText(t, s).text(interns) == "'"@ + t.text()
            + "' object has no attribute '"@ + s + "'"@,
        MessageView::UnexpectedKeyword(c, s).text(interns) == c.text()
            + "() got an unexpected keyword argument '"@ + s + "'"@,
        MessageView::MultipleValues(f, s).text(interns) == function_text(f, interns)
            + "() got multiple values for keyword argument '"@ + s + "'"@,
        MessageView::CannotImport(n, s).text(interns) == "cannot import name '"@ + interns.text(n)
            + "' from '"@ + s + "'"@,
        MessageView::ExternalUnsupported(s).text(interns) == "External function '"@ + s
            + "' not implemented with standard execution"@,
        f matches Some(id) ==> function_text(f, interns) == interns.text(id),
        f is None ==> function_text(f, interns) == "<unknown>"@,
{
}

/// The message about an answer to a call that is not pending names that call and lists the
/// pending ones in their order, with commas between them.
pub proof fn unknown_call_is_named(c: u32, p: Seq<u32>, last: u32, interns: Interns)
    ensures
        MessageView::UnknownCall(c, p).text(interns) == "unknown call_id "@ + decimal(c as nat)
            + ", expected one of: "@ + list_text(p),
        list_text(Seq::empty()) == "["@ + "]"@,
        list_text(seq![last]) == "["@ + decimal(last as nat) + "]"@,
        p.len() > 0 ==> list_text(p.push(last)) == "["@ + joined_numbers(p, p.len() as int) + ", "@
            + decimal(last as nat) + "]"@,
        p.len() > 0 ==> list_text(p) == "["@ + joined_numbers(p, p.len() as int) + "]"@,
{
    reveal_with_fuel(joined_numbers, 2);
    assert("["@ + Seq::<char>::empty() + "]"@ =~= "["@ + "]"@);
    if p.len() > 0 {
        same_numbers_join_alike(p, p.push(last), p.len() as int);
        let joined = joined_numbers(p, p.len() as int);
        assert("["@ + (joined + ", "@ + decimal(last as nat)) + "]"@ =~= "["@ + joined + ", "@
            + decimal(last as nat) + "]"@);
    }
}

proof fn same_numbers_join_alike(a: Seq<u32>, b: Seq<u32>, n: int)
    requires
        n <= a.len(),
        n <= b.len(),
        forall|i: int| 0 <= i < n ==> (#[trigger] a[i]) == b[i],
    ensures
        joined_numbers(a, n) == joined_numbers(b, n),
    decreases n,
{
    if n > 1 {
        same_numbers_join_alike(a, b, n - 1);
        assert(a[n - 1] == b[n - 1]);
    } else if n == 1 {
        assert(a[0] == b[0]);
    }
}

} // verus!
