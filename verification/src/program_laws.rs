//! What a compiled program says: names, positions and handlers.

use vstd::prelude::*;
use crate::builtins::{Builtins, BuiltinsFunctions};
use crate::duplicate::{bytes_texts, numbers, same_function, same_program, texts};
use crate::error::CodeRange;
use crate::ids::StringId;
use crate::interns::{find_handler, find_position, ExceptionEntry, Interns, StaticStrings, STATIC_COUNT};
use crate::run::Executor;
use crate::types::{ExcType, Type};

verus! {

/// The handler of an instruction is the first one whose stretch it lies in: from the start on and
/// before the end.
pub proof fn first_handler_is_found(handlers: Seq<ExceptionEntry>, ip: u32, k: int)
    requires
        0 <= k < handlers.len(),
        handlers[k].start <= ip < handlers[k].end,
        forall|i: int|
            0 <= i < k ==> ip < (#[trigger] handlers[i]).start || handlers[i].end <= ip,
    ensures
        find_handler(handlers, ip) == Some(handlers[k]),
    decreases k,
{
    if k > 0 {
        assert(ip < handlers[0].start || handlers[0].end <= ip);
        let rest = handlers.skip(1);
        assert forall|i: int| 0 <= i < k - 1 implies ip < (#[trigger] rest[i]).start || rest[i].end
            <= ip by {
            assert(rest[i] == handlers[i + 1]);
        }
        first_handler_is_found(rest, ip, k - 1);
    }
}

/// An instruction that lies in no stretch has no handler.
pub proof fn unprotected_code_has_no_handler(handlers: Seq<ExceptionEntry>, ip: u32)
    requires
        forall|i: int|
            0 <= i < handlers.len() ==> ip < (#[trigger] handlers[i]).start || handlers[i].end
                <= ip,
    ensures
        find_handler(handlers, ip) is None,
    decreases handlers.len(),
{
    if handlers.len() > 0 {
        assert(ip < handlers[0].start || handlers[0].end <= ip);
        let rest = handlers.skip(1);
        assert forall|i: int| 0 <= i < rest.len() implies ip < (#[trigger] rest[i]).start
            || rest[i].end <= ip by {
            assert(rest[i] == handlers[i + 1]);
        }
        unprotected_code_has_no_handler(rest, ip);
    }
}

/// The position of an instruction is the last one that is recorded for it or for code before it.
pub proof fn last_position_is_found(locations: Seq<(usize, CodeRange)>, ip: usize, k: int)
    requires
        0 <= k < locations.len(),
        locations[k].0 <= ip,
        forall|i: int| k < i < locations.len() ==> (#[trigger] locations[i]).0 > ip,
    ensures
        find_position(locations, ip) == locations[k].1,
    decreases locations.len(),
{
    if k < locations.len() - 1 {
        let rest = locations.drop_last();
        assert(locations.last().0 > ip);
        assert forall|i: int| k < i < rest.len() implies (#[trigger] rest[i]).0 > ip by {
            assert(rest[i] == locations[i]);
        }
        last_position_is_found(rest, ip, k);
    }
}

/// The interpreter's own names have the first ids, and the strings of the program follow in their
/// order.
pub proof fn strings_have_their_ids(interns: Interns, s: StaticStrings, k: int)
    ensures
        interns.text(s.id()) == s.text(),
        s.id().0 < STATIC_COUNT,
        0 <= k < interns.strings@.len() && STATIC_COUNT + k <= usize::MAX ==> interns.text(
            StringId((STATIC_COUNT + k) as usize),
        ) == interns.strings@[k]@,
        StaticStrings::of_id(s.id()) == Some(s),
{
}

/// Exception classes have the names they have in Python.
pub proof fn exceptions_have_their_names(e: ExcType)
    ensures
        e == ExcType::BaseException ==> e.text() == "BaseException"@,
        e == ExcType::SystemExit ==> e.text() == "SystemExit"@,
        e == ExcType::KeyboardInterrupt ==> e.text() == "KeyboardInterrupt"@,
        e == ExcType::Exception ==> e.text() == "Exception"@,
        e == ExcType::ArithmeticError ==> e.text() == "ArithmeticError"@,
        e == ExcType::OverflowError ==> e.text() == "OverflowError"@,
        e == ExcType::ZeroDivisionError ==> e.text() == "ZeroDivisionError"@,
        e == ExcType::AssertionError ==> e.text() == "AssertionError"@,
        e == ExcType::AttributeError ==> e.text() == "AttributeError"@,
        e == ExcType::ImportError ==> e.text() == "ImportError"@,
        e == ExcType::ModuleNotFoundError ==> e.text() == "ModuleNotFoundError"@,
        e == ExcType::LookupError ==> e.text() == "LookupError"@,
        e == ExcType::IndexError ==> e.text() == "IndexError"@,
        e == ExcType::KeyError ==> e.text() == "KeyError"@,
        e == ExcType::MemoryError ==> e.text() == "MemoryError"@,
        e == ExcType::NameError ==> e.text() == "NameError"@,
        e == ExcType::UnboundLocalError ==> e.text() == "UnboundLocalError"@,
        e == ExcType::OSError ==> e.text() == "OSError"@,
        e == ExcType::FileNotFoundError ==> e.text() == "FileNotFoundError"@,
        e == ExcType::TimeoutError ==> e.text() == "TimeoutError"@,
        e == ExcType::RuntimeError ==> e.text() == "RuntimeError"@,
        e == ExcType::NotImplementedError ==> e.text() == "NotImplementedError"@,
        e == ExcType::RecursionError ==> e.text() == "RecursionError"@,
        e == ExcType::StopIteration ==> e.text() == "StopIteration"@,
        e == ExcType::SyntaxError ==> e.text() == "SyntaxError"@,
        e == ExcType::TypeError ==> e.text() == "TypeError"@,
        e == ExcType::ValueError ==> e.text() == "ValueError"@,
        e == ExcType::UnicodeDecodeError ==> e.text() == "UnicodeDecodeError"@,
{
}

/// Builtin functions have the names they have in Python.
pub proof fn functions_have_their_names(f: BuiltinsFunctions)
    ensures
        f == BuiltinsFunctions::Abs ==> f.text() == "abs"@,
        f == BuiltinsFunctions::All ==> f.text() == "all"@,
        f == BuiltinsFunctions::Any ==> f.text() == "any"@,
        f == BuiltinsFunctions::Bin ==> f.text() == "bin"@,
        f == BuiltinsFunctions::Chr ==> f.text() == "chr"@,
        f == BuiltinsFunctions::Divmod ==> f.text() == "divmod"@,
        f == BuiltinsFunctions::Enumerate ==> f.text() == "enumerate"@,
        f == BuiltinsFunctions::Hash ==> f.text() == "hash"@,
        f == BuiltinsFunctions::Hex ==> f.text() == "hex"@,
        f == BuiltinsFunctions::Id ==> f.text() == "id"@,
        f == BuiltinsFunctions::Isinstance ==> f.text() == "isinstance"@,
        f == BuiltinsFunctions::Len ==> f.text() == "len"@,
        f == BuiltinsFunctions::Max ==> f.text() == "max"@,
        f == BuiltinsFunctions::Min ==> f.text() == "min"@,
        f == BuiltinsFunctions::Next ==> f.text() == "next"@,
        f == BuiltinsFunctions::Oct ==> f.text() == "oct"@,
        f == BuiltinsFunctions::Ord ==> f.text() == "ord"@,
        f == BuiltinsFunctions::Pow ==> f.text() == "pow"@,
        f == BuiltinsFunctions::Print ==> f.text() == "print"@,
        f == BuiltinsFunctions::Repr ==> f.text() == "repr"@,
        f == BuiltinsFunctions::Reversed ==> f.text() == "reversed"@,
        f == BuiltinsFunctions::Round ==> f.text() == "round"@,
        f == BuiltinsFunctions::Sorted ==> f.text() == "sorted"@,
        f == BuiltinsFunctions::Sum ==> f.text() == "sum"@,
        f == BuiltinsFunctions::Type ==> f.text() == "type"@,
        f == BuiltinsFunctions::Zip ==> f.text() == "zip"@,
{
}

/// Types have the names they have in Python.
pub proof fn types_have_their_names(t: Type)
    ensures
        t == Type::Ellipsis ==> t.text() == "ellipsis"@,
        t == Type::Type ==> t.text() == "type"@,
        t == Type::NoneType ==> t.text() == "NoneType"@,
        t == Type::Bool ==> t.text() == "bool"@,
        t == Type::Int ==> t.text() == "int"@,
        t == Type::Range ==> t.text() == "range"@,
        t == Type::Slice ==> t.text() == "slice"@,
        t == Type::Str ==> t.text() == "str"@,
        t == Type::Bytes ==> t.text() == "bytes"@,
        t == Type::List ==> t.text() == "list"@,
        t == Type::Tuple ==> t.text() == "tuple"@,
        t == Type::Dict ==> t.text() == "dict"@,
        t == Type::PySet ==> t.text() == "set"@,
        t == Type::Function ==> t.text() == "function"@,
        t == Type::BuiltinFunction ==> t.text() == "builtin_function_or_method"@,
        t == Type::Cell ==> t.text() == "cell"@,
        t == Type::Coroutine ==> t.text() == "coroutine"@,
        t == Type::Future ==> t.text() == "_GatheringFuture"@,
{
}

/// The interpreter's own names are the names of methods, and of the module.
pub proof fn methods_have_their_names(s: StaticStrings)
    ensures
        s == StaticStrings::Append ==> s.text() == "append"@,
        s == StaticStrings::Clear ==> s.text() == "clear"@,
        s == StaticStrings::Copy ==> s.text() == "copy"@,
        s == StaticStrings::Count ==> s.text() == "count"@,
        s == StaticStrings::Extend ==> s.text() == "extend"@,
        s == StaticStrings::Fromhex ==> s.text() == "fromhex"@,
        s == StaticStrings::Fromkeys ==> s.text() == "fromkeys"@,
        s == StaticStrings::Index ==> s.text() == "index"@,
        s == StaticStrings::Insert ==> s.text() == "insert"@,
        s == StaticStrings::Module ==> s.text() == "<module>"@,
        s == StaticStrings::Pop ==> s.text() == "pop"@,
        s == StaticStrings::Remove ==> s.text() == "remove"@,
        s == StaticStrings::Reverse ==> s.text() == "reverse"@,
        s == StaticStrings::Sort ==> s.text() == "sort"@,
{
}

/// A type that is an exception class has the name of the class.
pub proof fn exception_types_are_named_alike(e: ExcType)
    ensures
        Type::Exception(e).text() == e.text(),
{
}

/// Builtin functions are numbered in the order of their names.
pub proof fn functions_are_numbered(f: BuiltinsFunctions)
    ensures
        f == BuiltinsFunctions::Abs ==> f.number() == 0,
        f == BuiltinsFunctions::All ==> f.number() == 1,
        f == BuiltinsFunctions::Any ==> f.number() == 2,
        f == BuiltinsFunctions::Bin ==> f.number() == 3,
        f == BuiltinsFunctions::Chr ==> f.number() == 4,
        f == BuiltinsFunctions::Divmod ==> f.number() == 5,
        f == BuiltinsFunctions::Enumerate ==> f.number() == 6,
        f == BuiltinsFunctions::Hash ==> f.number() == 7,
        f == BuiltinsFunctions::Hex ==> f.number() == 8,
        f == BuiltinsFunctions::Id ==> f.number() == 9,
        f == BuiltinsFunctions::Isinstance ==> f.number() == 10,
        f == BuiltinsFunctions::Len ==> f.number() == 11,
        f == BuiltinsFunctions::Max ==> f.number() == 12,
        f == BuiltinsFunctions::Min ==> f.number() == 13,
        f == BuiltinsFunctions::Next ==> f.number() == 14,
        f == BuiltinsFunctions::Oct ==> f.number() == 15,
        f == BuiltinsFunctions::Ord ==> f.number() == 16,
        f == BuiltinsFunctions::Pow ==> f.number() == 17,
        f == BuiltinsFunctions::Print ==> f.number() == 18,
        f == BuiltinsFunctions::Repr ==> f.number() == 19,
        f == BuiltinsFunctions::Reversed ==> f.number() == 20,
        f == BuiltinsFunctions::Round ==> f.number() == 21,
        f == BuiltinsFunctions::Sorted ==> f.number() == 22,
        f == BuiltinsFunctions::Sum ==> f.number() == 23,
        f == BuiltinsFunctions::Type ==> f.number() == 24,
        f == BuiltinsFunctions::Zip ==> f.number() == 25,
{
}

/// A copy of a program is the same program: its source and inputs, its code with handlers and
/// positions, and everything it refers to by id.
pub proof fn copies_are_the_same(a: Executor, b: Executor, id: StringId, i: int)
    requires
        same_program(a, b),
    ensures
        a.code@ == b.code@,
        a.namespace_size == b.namespace_size,
        a.input_count == b.input_count,
        a.external_function_ids@ == b.external_function_ids@,
        a.module_code.bytecode@ == b.module_code.bytecode@,
        a.module_code.handlers@ == b.module_code.handlers@,
        a.module_code.locations@ == b.module_code.locations@,
        a.interns.text(id) == b.interns.text(id),
        a.interns.functions@.len() == b.interns.functions@.len(),
        a.interns.external_functions@.len() == b.interns.external_functions@.len(),
        0 <= i < a.interns.functions@.len() ==> {
            let f = a.interns.functions@[i];
            let g = b.interns.functions@[i];
            &&& f.name == g.name
            &&& f.param_count == g.param_count
            &&& f.namespace_size == g.namespace_size
            &&& f.cell_param_indices@ == g.cell_param_indices@
            &&& f.is_async == g.is_async
            &&& f.code.bytecode@ == g.code.bytecode@
            &&& f.code.handlers@ == g.code.handlers@
            &&& f.code.locations@ == g.code.locations@
        },
        0 <= i < a.interns.external_functions@.len() ==> a.interns.external_functions@[i]@
            == b.interns.external_functions@[i]@,
        0 <= i < a.interns.bytes@.len() ==> a.interns.bytes@[i]@ == b.interns.bytes@[i]@,
        0 <= i < a.interns.long_ints@.len() ==> a.interns.long_ints@[i]@ == b.interns.long_ints@[i]@,
{
    let x = a.interns;
    let y = b.interns;
    assert(texts(x.strings@).len() == texts(y.strings@).len());
    assert(texts(x.external_functions@).len() == texts(y.external_functions@).len());
    assert(bytes_texts(x.bytes@).len() == bytes_texts(y.bytes@).len());
    assert(numbers(x.long_ints@).len() == numbers(y.long_ints@).len());
    if x.has_str(id) && id.0 >= STATIC_COUNT {
        let k = id.0 - STATIC_COUNT;
        assert(texts(x.strings@)[k] == texts(y.strings@)[k]);
    }
    if 0 <= i < x.external_functions@.len() {
        assert(texts(x.external_functions@)[i] == texts(y.external_functions@)[i]);
    }
    if 0 <= i < x.bytes@.len() {
        assert(bytes_texts(x.bytes@)[i] == bytes_texts(y.bytes@)[i]);
    }
    if 0 <= i < x.long_ints@.len() {
        assert(numbers(x.long_ints@)[i] == numbers(y.long_ints@)[i]);
    }
    if 0 <= i < x.functions@.len() {
        assert(same_function(x.functions@[i], y.functions@[i]));
    }
}

/// What is found under a name has that name.
pub proof fn builtins_are_found_under_their_names(name: Seq<char>)
    ensures
        Builtins::named(name) matches Some(b) ==> match b {
            Builtins::Function(f) => f.text() == name,
            Builtins::ExcType(e) => e.text() == name,
            Builtins::Type(t) => t.text() == name,
        },
{
}

/// Whether programs can construct values of a type.
pub open spec fn constructible(t: Type) -> bool {
    ||| t is Bool || t is Int || t is Range || t is Slice || t is Str
    ||| t is Bytes || t is List || t is Tuple || t is Dict || t is PySet
}

/// Types that programs can construct values of are found under their names.
pub proof fn types_are_found(t: Type)
    requires
        constructible(t),
    ensures
        Type::named(t.text()) == Some(t),
{
    reveal_strlit("bool");
    reveal_strlit("int");
    reveal_strlit("range");
    reveal_strlit("slice");
    reveal_strlit("str");
    reveal_strlit("bytes");
    reveal_strlit("list");
    reveal_strlit("tuple");
    reveal_strlit("dict");
    reveal_strlit("set");
    assert("bool"@.len() == 4 && "bool"@[0] == 'b' && "bool"@[1] == 'o');
    assert("int"@.len() == 3 && "int"@[0] == 'i' && "int"@[1] == 'n');
    assert("range"@.len() == 5 && "range"@[0] == 'r' && "range"@[1] == 'a');
    assert("slice"@.len() == 5 && "slice"@[0] == 's' && "slice"@[1] == 'l');
    assert("str"@.len() == 3 && "str"@[0] == 's' && "str"@[1] == 't');
    assert("bytes"@.len() == 5 && "bytes"@[0] == 'b' && "bytes"@[1] == 'y');
    assert("list"@.len() == 4 && "list"@[0] == 'l' && "list"@[1] == 'i');
    assert("tuple"@.len() == 5 && "tuple"@[0] == 't' && "tuple"@[1] == 'u');
    assert("dict"@.len() == 4 && "dict"@[0] == 'd' && "dict"@[1] == 'i');
    assert("set"@.len() == 3 && "set"@[0] == 's' && "set"@[1] == 'e');
}

/// The types that programs can construct values of have their numbers in code.
pub proof fn types_are_numbered(number: u8)
    ensures
        number == 0 ==> Type::callable(number) == Some(Type::Bool),
        number == 1 ==> Type::callable(number) == Some(Type::Int),
        number == 2 ==> Type::callable(number) == Some(Type::Range),
        number == 3 ==> Type::callable(number) == Some(Type::Slice),
        number == 4 ==> Type::callable(number) == Some(Type::Str),
        number == 5 ==> Type::callable(number) == Some(Type::Bytes),
        number == 6 ==> Type::callable(number) == Some(Type::List),
        number == 7 ==> Type::callable(number) == Some(Type::Tuple),
        number == 8 ==> Type::callable(number) == Some(Type::Dict),
        number == 9 ==> Type::callable(number) == Some(Type::PySet),
        number >= 10 ==> Type::callable(number) is None,
{
}

} // verus!
