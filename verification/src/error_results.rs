//! What a program is told when something goes wrong.

use vstd::prelude::*;
use crate::args::ArgsView;
use crate::builtins::{Builtins, BuiltinsFunctions};
use crate::containers::{dict_set, set_add, Slice};
use crate::equality::first_equal;
use crate::error::{BinaryOp, ErrorView};
use crate::heap::{DataView, HeapView};
use crate::ids::{HeapId, StringId};
use crate::interns::{Interns, StaticStrings};
use crate::list::{list_assigned, list_item, ListView};
use crate::list_methods::method_op;
use crate::print::{CollectStringPrint, PrintWriter};
use crate::resource::{ResourceError, ResourceTracker, MAX_DATA_DEPTH};
use crate::text::decimal;
use crate::types::{ExcType, Type};
use crate::value::Value;
use crate::vm::call::{attr_called, function_called};
use crate::vm::call_result::CallingView;
use crate::vm::exceptions::{exc_matches, raised_exception};
use crate::vm::VmView;

verus! {

/// Whether something ended in an exception of a class with a text.
pub open spec fn says<R>(
    result: Result<R, ErrorView>,
    class: ExcType,
    text: Seq<char>,
    interns: Interns,
) -> bool {
    result matches Err(ErrorView::Exc(e)) && e.exc.exc_type == class && (e.exc.message matches Some(
        m,
    ) && m.text(interns) == text)
}

/// Taking an item out of a list that has none there is an index error.
pub proof fn pop_says_what_is_wrong<T: ResourceTracker>(
    h: HeapView<T>,
    interns: Interns,
    list: ListView,
    index: i64,
)
    ensures
        list.items.len() == 0 ==> says(
            method_op(
                h,
                interns,
                list,
                StaticStrings::Pop,
                (ArgsView { pos: Seq::empty(), pairs: Seq::empty() }),
            ).result,
            ExcType::IndexError,
            "pop from empty list"@,
            interns,
        ),
        list.items.len() > 0 && (index >= list.items.len() || index < -list.items.len()) ==> says(
            method_op(
                h,
                interns,
                list,
                StaticStrings::Pop,
                (ArgsView { pos: seq![Value::Int(index)], pairs: Seq::empty() }),
            ).result,
            ExcType::IndexError,
            "pop index out of range"@,
            interns,
        ),
{
}

/// Removing or looking for what a list does not have is a value error.
pub proof fn searches_say_what_is_wrong<T: ResourceTracker>(
    h: HeapView<T>,
    interns: Interns,
    list: ListView,
    value: Value,
)
    requires
        first_equal(
            h,
            interns,
            value,
            list.items,
            list.items.len() as int,
            MAX_DATA_DEPTH as nat,
        ) == Ok::<Option<int>, ResourceError>(None),
        list.items.len() <= i64::MAX,
        list.items.len() <= usize::MAX,
    ensures
        says(
            method_op(
                h,
                interns,
                list,
                StaticStrings::Remove,
                (ArgsView { pos: seq![value], pairs: Seq::empty() }),
            ).result,
            ExcType::ValueError,
            "list.remove(x): x not in list"@,
            interns,
        ),
        says(
            method_op(
                h,
                interns,
                list,
                StaticStrings::Index,
                (ArgsView { pos: seq![value], pairs: Seq::empty() }),
            ).result,
            ExcType::ValueError,
            "list.index(x): x not in list"@,
            interns,
        ),
{
    assert(list.items.subrange(0, list.items.len() as int) =~= list.items);
}

/// Subscripts beyond the ends of a list are index errors; what is no integer is a type error.
pub proof fn subscripts_say_what_is_wrong<T: ResourceTracker>(
    h: HeapView<T>,
    interns: Interns,
    list: ListView,
    index: i64,
    value: Value,
)
    ensures
        index >= list.items.len() || index < -list.items.len() ==> says(
            list_item(h, list.items, Value::Int(index)).result,
            ExcType::IndexError,
            "list index out of range"@,
            interns,
        ) && says(
            list_assigned(h, list, Value::Int(index), value).result,
            ExcType::IndexError,
            "list assignment index out of range"@,
            interns,
        ),
        says(
            list_item(h, list.items, Value::PyNone).result,
            ExcType::TypeError,
            "list indices must be integers or slices, not "@ + "NoneType"@,
            interns,
        ),
{
}

/// A number of items that does not fit the targets is a value error, which says whether there
/// were too few or too many.
pub proof fn unpacking_says_what_is_wrong<T: ResourceTracker>(
    vm: VmView<T>,
    id: HeapId,
    items: Seq<Value>,
    count: usize,
    before: usize,
    after: usize,
)
    requires
        vm.stack.len() >= 1,
        vm.stack.last() == Value::Ref(id),
        vm.heap.data(id) matches Some(d) && (d matches DataView::List(l) && l.items == items || d
            == DataView::Tuple(items)),
        items.len() <= usize::MAX,
        before + after <= usize::MAX,
    ensures
        items.len() < count ==> says(
            vm.unpacked(count).result,
            ExcType::ValueError,
            "not enough values to unpack (expected "@ + decimal(count as nat) + ", got "@ + decimal(
                items.len(),
            ) + ")"@,
            vm.interns,
        ),
        items.len() > count ==> says(
            vm.unpacked(count).result,
            ExcType::ValueError,
            "too many values to unpack (expected "@ + decimal(count as nat) + ", got "@ + decimal(
                items.len(),
            ) + ")"@,
            vm.interns,
        ),
        items.len() < before + after ==> says(
            vm.unpacked_starred(before, after).result,
            ExcType::ValueError,
            "not enough values to unpack (expected at least "@ + decimal((before + after) as nat)
                + ", got "@ + decimal(items.len()) + ")"@,
            vm.interns,
        ),
{
}

/// Unpacking what has no items is a type error that names the type.
pub proof fn unpacking_names_the_type<T: ResourceTracker>(vm: VmView<T>, count: usize)
    requires
        vm.stack.len() >= 1,
        vm.stack.last() is Int,
    ensures
        says(
            vm.unpacked(count).result,
            ExcType::TypeError,
            "cannot unpack non-iterable "@ + "int"@ + " object"@,
            vm.interns,
        ),
{
}

/// A key that can change is a type error that names its type, in a dict and in a set.
pub proof fn keys_that_change_are_refused<T>(
    h: HeapView<T>,
    interns: Interns,
    entries: Seq<(Value, Value)>,
    items: Seq<Value>,
    id: HeapId,
    value: Value,
)
    ensures
        h.data(id) matches Some(DataView::List(_)) ==> says(
            dict_set(h, interns, entries, Value::Ref(id), value).result,
            ExcType::TypeError,
            "unhashable type: '"@ + "list"@ + "'"@,
            interns,
        ) && says(
            set_add(h, interns, items, Value::Ref(id)).result,
            ExcType::TypeError,
            "unhashable type: '"@ + "list"@ + "'"@,
            interns,
        ),
        h.data(id) matches Some(DataView::Dict(_)) ==> says(
            dict_set(h, interns, entries, Value::Ref(id), value).result,
            ExcType::TypeError,
            "unhashable type: '"@ + "dict"@ + "'"@,
            interns,
        ),
        h.data(id) matches Some(DataView::PySet(_)) ==> says(
            set_add(h, interns, items, Value::Ref(id)).result,
            ExcType::TypeError,
            "unhashable type: '"@ + "set"@ + "'"@,
            interns,
        ),
{
}

/// Raising what is no exception and catching what is no class are type errors.
pub proof fn exceptions_are_wanted<T>(h: HeapView<T>, interns: Interns, v: Value, t: Type, room: nat)
    requires
        v is PyNone || v is Int || v is Bool || v is InternString,
    ensures
        raised_exception(h, v).exc_type == ExcType::TypeError,
        raised_exception(h, v).message matches Some(m) && m.text(interns)
            == "exceptions must derive from BaseException"@,
        says(
            exc_matches(h, t, v, room),
            ExcType::TypeError,
            "catching classes that do not inherit from BaseException is not allowed"@,
            interns,
        ),
{
}

/// An operator that is not for its operands is a type error that names the operator and the types,
/// that of the left operand first.
pub proof fn operators_say_what_is_wrong<T: ResourceTracker>(vm: VmView<T>, op: BinaryOp)
    requires
        vm.stack.len() >= 2,
        vm.stack[vm.stack.len() - 2] is Int,
        vm.stack[vm.stack.len() - 1] is InternString,
    ensures
        says(
            vm.operated(op, Ok(None)).result,
            ExcType::TypeError,
            "unsupported operand type(s) for "@ + op.text() + ": '"@ + "int"@ + "' and '"@ + "str"@
                + "'"@,
            vm.interns,
        ),
{
}

/// Calling what cannot be called, and asking a number for a method, say so.
pub proof fn calls_say_what_is_wrong<W: PrintWriter, T: ResourceTracker>(
    vm: VmView<T>,
    state: W::State,
    v: Value,
    name: StringId,
    args: ArgsView,
    r: CallingView,
    after: VmView<T>,
    state_after: W::State,
)
    requires
        v is Int,
    ensures
        function_called::<W, T>(vm, state, v, args, r, after, state_after) ==> (
        r matches CallingView::Done(result) && says(
            result,
            ExcType::TypeError,
            "object is not callable"@,
            vm.interns,
        )),
        attr_called::<W, T>(vm, state, v, name, args, r, after, state_after) ==> (
        r matches CallingView::Done(result) && says(
            result,
            ExcType::AttributeError,
            "'"@ + "int"@ + "' object has no attribute '"@ + vm.interns.text(name) + "'"@,
            vm.interns,
        )),
{
}

/// Awaiting what cannot be awaited is a type error that names the type.
pub proof fn awaiting_names_the_type<T: ResourceTracker>(vm: VmView<T>)
    requires
        vm.stack.len() >= 1,
        vm.stack.last() is Int,
    ensures
        says(
            vm.awaited().result,
            ExcType::TypeError,
            "'"@ + "int"@ + "' object can't be awaited"@,
            vm.interns,
        ),
{
}

/// `print` gives `None`, and `list` gives the list it has made; other builtins are called
/// elsewhere.
pub proof fn builtins_give_their_results<T: ResourceTracker>(
    state: Seq<char>,
    h: HeapView<T>,
    args: ArgsView,
    interns: Interns,
    b: Builtins,
)
    ensures
        ({
            let said = crate::print::print_called::<CollectStringPrint, T>(
                state,
                h,
                args,
                interns,
            );
            let called = Builtins::Function(BuiltinsFunctions::Print).called::<
                CollectStringPrint,
                T,
            >(state, h, args, interns);
            &&& called is Done
            &&& called->state == said.state
            &&& called->heap == said.heap
            &&& said.result is Ok ==> called->result == Ok::<Value, ErrorView>(Value::PyNone)
            &&& said.result matches Err(e) ==> called->result == Err::<Value, ErrorView>(e)
        }),
        ({
            let said = crate::list::list_called(h, args, interns);
            let called = Builtins::Type(Type::List).called::<CollectStringPrint, T>(
                state,
                h,
                args,
                interns,
            );
            &&& called is Done
            &&& called->state == state
            &&& called->heap == said.heap
            &&& called->result == said.result
        }),
        b != Builtins::Function(BuiltinsFunctions::Print) && b != Builtins::Type(Type::List)
            ==> b.called::<CollectStringPrint, T>(state, h, args, interns) is Elsewhere,
{
}

/// How many arguments a method of lists takes: at least the first number, at most the second.
pub open spec fn takes(method: StaticStrings, least: nat, most: nat) -> bool {
    ||| method is Append && least == 1 && most == 1
    ||| method is Insert && least == 2 && most == 2
    ||| method is Pop && least == 0 && most == 1
    ||| method is Remove && least == 1 && most == 1
    ||| method is Clear && least == 0 && most == 0
    ||| method is Copy && least == 0 && most == 0
    ||| method is Extend && least == 1 && most == 1
    ||| method is Index && least == 1 && most == 3
    ||| method is Count && least == 1 && most == 1
    ||| method is Reverse && least == 0 && most == 0
}

/// A method of lists that gets too few, too many or named arguments is a type error, and the list
/// stays as it is.
pub proof fn methods_count_their_arguments<T: ResourceTracker>(
    h: HeapView<T>,
    interns: Interns,
    list: ListView,
    method: StaticStrings,
    args: ArgsView,
    least: nat,
    most: nat,
)
    requires
        takes(method, least, most),
        args.pos.len() <= usize::MAX,
        args.pos.len() < least || args.pos.len() > most || args.pairs.len() > 0,
    ensures
        ({
            let done = method_op(h, interns, list, method, args);
            &&& done.list == list
            &&& done.result matches Err(e) && e is Exc && e->Exc_0.exc.exc_type
                == ExcType::TypeError
        }),
{
}

/// A slice with a step of zero is a value error.
pub proof fn slices_need_a_step<T: ResourceTracker>(
    h: HeapView<T>,
    interns: Interns,
    items: Seq<Value>,
    id: HeapId,
    slice: Slice,
)
    requires
        h.data(id) == Some(DataView::Slice(slice)),
        slice.step == Some(0i64),
    ensures
        says(
            list_item(h, items, Value::Ref(id)).result,
            ExcType::ValueError,
            "slice step cannot be zero"@,
            interns,
        ),
{
}

/// Bounds of a slice are integers or `None`.
pub proof fn slice_bounds_are_integers<T: ResourceTracker>(vm: VmView<T>)
    requires
        vm.stack.len() >= 3,
        vm.stack[vm.stack.len() - 1] is InternString || vm.stack[vm.stack.len() - 2] is InternString
            || vm.stack[vm.stack.len() - 3] is InternString,
    ensures
        says(
            vm.slice_built().result,
            ExcType::TypeError,
            "slice indices must be integers or None or have an __index__ method"@,
            vm.interns,
        ),
{
}

/// An object that has no items is a type error where items are wanted.
pub proof fn items_are_wanted<T: ResourceTracker>(
    vm: VmView<T>,
    h: HeapView<T>,
    interns: Interns,
    list: ListView,
    i: i64,
)
    requires
        vm.stack.len() >= 2,
        vm.stack.last() is Int,
    ensures
        says(
            vm.list_extended().result,
            ExcType::TypeError,
            "'"@ + "int"@ + "' object is not iterable"@,
            vm.interns,
        ),
        says(
            method_op(
                h,
                interns,
                list,
                StaticStrings::Extend,
                (ArgsView { pos: seq![Value::Int(i)], pairs: Seq::empty() }),
            ).result,
            ExcType::TypeError,
            "'"@ + "int"@ + "' object is not iterable"@,
            interns,
        ),
{
}

/// `f(**x)` wants a mapping; the message names the function, if it is known, and the type.
pub proof fn keyword_arguments_come_from_a_mapping<T: ResourceTracker>(vm: VmView<T>, name: u16)
    requires
        vm.stack.len() >= 2,
        vm.stack.last() is Int,
    ensures
        name == 0xFFFF ==> says(
            vm.dict_merged(name).result,
            ExcType::TypeError,
            "<unknown>"@ + "() argument after ** must be a mapping, not "@ + "int"@,
            vm.interns,
        ),
        name != 0xFFFF ==> says(
            vm.dict_merged(name).result,
            ExcType::TypeError,
            vm.interns.text(StringId(name as usize))
                + "() argument after ** must be a mapping, not "@ + "int"@,
            vm.interns,
        ),
{
}

} // verus!
