//! The Python names of exception classes, types and builtin functions.

use vstd::prelude::*;
use crate::builtins::{Builtins, BuiltinsFunctions};
use crate::types::{ExcType, Type};

verus! {

fn is_named(name: &String, known: &str) -> (r: bool)
    ensures
        r == (name@ == known@),
{
    *name == known.to_owned()
}

impl ExcType {
    /// The Python name of the exception class.
    pub open spec fn text(self) -> Seq<char> {
        match self {
            ExcType::BaseException => "BaseException"@,
            ExcType::SystemExit => "SystemExit"@,
            ExcType::KeyboardInterrupt => "KeyboardInterrupt"@,
            ExcType::Exception => "Exception"@,
            ExcType::ArithmeticError => "ArithmeticError"@,
            ExcType::OverflowError => "OverflowError"@,
            ExcType::ZeroDivisionError => "ZeroDivisionError"@,
            ExcType::AssertionError => "AssertionError"@,
            ExcType::AttributeError => "AttributeError"@,
            ExcType::ImportError => "ImportError"@,
            ExcType::ModuleNotFoundError => "ModuleNotFoundError"@,
            ExcType::LookupError => "LookupError"@,
            ExcType::IndexError => "IndexError"@,
            ExcType::KeyError => "KeyError"@,
            ExcType::MemoryError => "MemoryError"@,
            ExcType::NameError => "NameError"@,
            ExcType::UnboundLocalError => "UnboundLocalError"@,
            ExcType::OSError => "OSError"@,
            ExcType::FileNotFoundError => "FileNotFoundError"@,
            ExcType::TimeoutError => "TimeoutError"@,
            ExcType::RuntimeError => "RuntimeError"@,
            ExcType::NotImplementedError => "NotImplementedError"@,
            ExcType::RecursionError => "RecursionError"@,
            ExcType::StopIteration => "StopIteration"@,
            ExcType::SyntaxError => "SyntaxError"@,
            ExcType::TypeError => "TypeError"@,
            ExcType::ValueError => "ValueError"@,
            ExcType::UnicodeDecodeError => "UnicodeDecodeError"@,
        }
    }

    /// The Python name of the exception class.
    pub fn name(self) -> (r: &'static str)
        ensures
            r@ == self.text(),
    {
        match self {
            ExcType::BaseException => "BaseException",
            ExcType::SystemExit => "SystemExit",
            ExcType::KeyboardInterrupt => "KeyboardInterrupt",
            ExcType::Exception => "Exception",
            ExcType::ArithmeticError => "ArithmeticError",
            ExcType::OverflowError => "OverflowError",
            ExcType::ZeroDivisionError => "ZeroDivisionError",
            ExcType::AssertionError => "AssertionError",
            ExcType::AttributeError => "AttributeError",
            ExcType::ImportError => "ImportError",
            ExcType::ModuleNotFoundError => "ModuleNotFoundError",
            ExcType::LookupError => "LookupError",
            ExcType::IndexError => "IndexError",
            ExcType::KeyError => "KeyError",
            ExcType::MemoryError => "MemoryError",
            ExcType::NameError => "NameError",
            ExcType::UnboundLocalError => "UnboundLocalError",
            ExcType::OSError => "OSError",
            ExcType::FileNotFoundError => "FileNotFoundError",
            ExcType::TimeoutError => "TimeoutError",
            ExcType::RuntimeError => "RuntimeError",
            ExcType::NotImplementedError => "NotImplementedError",
            ExcType::RecursionError => "RecursionError",
            ExcType::StopIteration => "StopIteration",
            ExcType::SyntaxError => "SyntaxError",
            ExcType::TypeError => "TypeError",
            ExcType::ValueError => "ValueError",
            ExcType::UnicodeDecodeError => "UnicodeDecodeError",
        }
    }

    /// The exception class with the given name.
    pub open spec fn named(name: Seq<char>) -> Option<ExcType> {
        if name == "BaseException"@ {
            Some(ExcType::BaseException)
        } else if name == "SystemExit"@ {
            Some(ExcType::SystemExit)
        } else if name == "KeyboardInterrupt"@ {
            Some(ExcType::KeyboardInterrupt)
        } else if name == "Exception"@ {
            Some(ExcType::Exception)
        } else if name == "ArithmeticError"@ {
            Some(ExcType::ArithmeticError)
        } else if name == "OverflowError"@ {
            Some(ExcType::OverflowError)
        } else if name == "ZeroDivisionError"@ {
            Some(ExcType::ZeroDivisionError)
        } else if name == "AssertionError"@ {
            Some(ExcType::AssertionError)
        } else if name == "AttributeError"@ {
            Some(ExcType::AttributeError)
        } else if name == "ImportError"@ {
            Some(ExcType::ImportError)
        } else if name == "ModuleNotFoundError"@ {
            Some(ExcType::ModuleNotFoundError)
        } else if name == "LookupError"@ {
            Some(ExcType::LookupError)
        } else if name == "IndexError"@ {
            Some(ExcType::IndexError)
        } else if name == "KeyError"@ {
            Some(ExcType::KeyError)
        } else if name == "MemoryError"@ {
            Some(ExcType::MemoryError)
        } else if name == "NameError"@ {
            Some(ExcType::NameError)
        } else if name == "UnboundLocalError"@ {
            Some(ExcType::UnboundLocalError)
        } else if name == "OSError"@ {
            Some(ExcType::OSError)
        } else if name == "FileNotFoundError"@ {
            Some(ExcType::FileNotFoundError)
        } else if name == "TimeoutError"@ {
            Some(ExcType::TimeoutError)
        } else if name == "RuntimeError"@ {
            Some(ExcType::RuntimeError)
        } else if name == "NotImplementedError"@ {
            Some(ExcType::NotImplementedError)
        } else if name == "RecursionError"@ {
            Some(ExcType::RecursionError)
        } else if name == "StopIteration"@ {
            Some(ExcType::StopIteration)
        } else if name == "SyntaxError"@ {
            Some(ExcType::SyntaxError)
        } else if name == "TypeError"@ {
            Some(ExcType::TypeError)
        } else if name == "ValueError"@ {
            Some(ExcType::ValueError)
        } else if name == "UnicodeDecodeError"@ {
            Some(ExcType::UnicodeDecodeError)
        } else {
            None
        }
    }

    /// The exception class with the given name.
    pub fn from_name(name: &str) -> (r: Option<ExcType>)
        ensures
            r == ExcType::named(name@),
    {
        let name: String = name.to_owned();
        if is_named(&name, "BaseException") {
            Some(ExcType::BaseException)
        } else if is_named(&name, "SystemExit") {
            Some(ExcType::SystemExit)
        } else if is_named(&name, "KeyboardInterrupt") {
            Some(ExcType::KeyboardInterrupt)
        } else if is_named(&name, "Exception") {
            Some(ExcType::Exception)
        } else if is_named(&name, "ArithmeticError") {
            Some(ExcType::ArithmeticError)
        } else if is_named(&name, "OverflowError") {
            Some(ExcType::OverflowError)
        } else if is_named(&name, "ZeroDivisionError") {
            Some(ExcType::ZeroDivisionError)
        } else if is_named(&name, "AssertionError") {
            Some(ExcType::AssertionError)
        } else if is_named(&name, "AttributeError") {
            Some(ExcType::AttributeError)
        } else if is_named(&name, "ImportError") {
            Some(ExcType::ImportError)
        } else if is_named(&name, "ModuleNotFoundError") {
            Some(ExcType::ModuleNotFoundError)
        } else if is_named(&name, "LookupError") {
            Some(ExcType::LookupError)
        } else if is_named(&name, "IndexError") {
            Some(ExcType::IndexError)
        } else if is_named(&name, "KeyError") {
            Some(ExcType::KeyError)
        } else if is_named(&name, "MemoryError") {
            Some(ExcType::MemoryError)
        } else if is_named(&name, "NameError") {
            Some(ExcType::NameError)
        } else if is_named(&name, "UnboundLocalError") {
            Some(ExcType::UnboundLocalError)
        } else if is_named(&name, "OSError") {
            Some(ExcType::OSError)
        } else if is_named(&name, "FileNotFoundError") {
            Some(ExcType::FileNotFoundError)
        } else if is_named(&name, "TimeoutError") {
            Some(ExcType::TimeoutError)
        } else if is_named(&name, "RuntimeError") {
            Some(ExcType::RuntimeError)
        } else if is_named(&name, "NotImplementedError") {
            Some(ExcType::NotImplementedError)
        } else if is_named(&name, "RecursionError") {
            Some(ExcType::RecursionError)
        } else if is_named(&name, "StopIteration") {
            Some(ExcType::StopIteration)
        } else if is_named(&name, "SyntaxError") {
            Some(ExcType::SyntaxError)
        } else if is_named(&name, "TypeError") {
            Some(ExcType::TypeError)
        } else if is_named(&name, "ValueError") {
            Some(ExcType::ValueError)
        } else if is_named(&name, "UnicodeDecodeError") {
            Some(ExcType::UnicodeDecodeError)
        } else {
            None
        }
    }
}

impl BuiltinsFunctions {
    /// The Python name of the builtin function.
    pub open spec fn text(self) -> Seq<char> {
        match self {
            BuiltinsFunctions::Abs => "abs"@,
            BuiltinsFunctions::All => "all"@,
            BuiltinsFunctions::Any => "any"@,
            BuiltinsFunctions::Bin => "bin"@,
            BuiltinsFunctions::Chr => "chr"@,
            BuiltinsFunctions::Divmod => "divmod"@,
            BuiltinsFunctions::Enumerate => "enumerate"@,
            BuiltinsFunctions::Hash => "hash"@,
            BuiltinsFunctions::Hex => "hex"@,
            BuiltinsFunctions::Id => "id"@,
            BuiltinsFunctions::Isinstance => "isinstance"@,
            BuiltinsFunctions::Len => "len"@,
            BuiltinsFunctions::Max => "max"@,
            BuiltinsFunctions::Min => "min"@,
            BuiltinsFunctions::Next => "next"@,
            BuiltinsFunctions::Oct => "oct"@,
            BuiltinsFunctions::Ord => "ord"@,
            BuiltinsFunctions::Pow => "pow"@,
            BuiltinsFunctions::Print => "print"@,
            BuiltinsFunctions::Repr => "repr"@,
            BuiltinsFunctions::Reversed => "reversed"@,
            BuiltinsFunctions::Round => "round"@,
            BuiltinsFunctions::Sorted => "sorted"@,
            BuiltinsFunctions::Sum => "sum"@,
            BuiltinsFunctions::Type => "type"@,
            BuiltinsFunctions::Zip => "zip"@,
        }
    }

    /// The Python name of the builtin function.
    pub fn name(self) -> (r: &'static str)
        ensures
            r@ == self.text(),
    {
        match self {
            BuiltinsFunctions::Abs => "abs",
            BuiltinsFunctions::All => "all",
            BuiltinsFunctions::Any => "any",
            BuiltinsFunctions::Bin => "bin",
            BuiltinsFunctions::Chr => "chr",
            BuiltinsFunctions::Divmod => "divmod",
            BuiltinsFunctions::Enumerate => "enumerate",
            BuiltinsFunctions::Hash => "hash",
            BuiltinsFunctions::Hex => "hex",
            BuiltinsFunctions::Id => "id",
            BuiltinsFunctions::Isinstance => "isinstance",
            BuiltinsFunctions::Len => "len",
            BuiltinsFunctions::Max => "max",
            BuiltinsFunctions::Min => "min",
            BuiltinsFunctions::Next => "next",
            BuiltinsFunctions::Oct => "oct",
            BuiltinsFunctions::Ord => "ord",
            BuiltinsFunctions::Pow => "pow",
            BuiltinsFunctions::Print => "print",
            BuiltinsFunctions::Repr => "repr",
            BuiltinsFunctions::Reversed => "reversed",
            BuiltinsFunctions::Round => "round",
            BuiltinsFunctions::Sorted => "sorted",
            BuiltinsFunctions::Sum => "sum",
            BuiltinsFunctions::Type => "type",
            BuiltinsFunctions::Zip => "zip",
        }
    }

    /// The builtin function with the given name.
    pub open spec fn named(name: Seq<char>) -> Option<BuiltinsFunctions> {
        if name == "abs"@ {
            Some(BuiltinsFunctions::Abs)
        } else if name == "all"@ {
            Some(BuiltinsFunctions::All)
        } else if name == "any"@ {
            Some(BuiltinsFunctions::Any)
        } else if name == "bin"@ {
            Some(BuiltinsFunctions::Bin)
        } else if name == "chr"@ {
            Some(BuiltinsFunctions::Chr)
        } else if name == "divmod"@ {
            Some(BuiltinsFunctions::Divmod)
        } else if name == "enumerate"@ {
            Some(BuiltinsFunctions::Enumerate)
        } else if name == "hash"@ {
            Some(BuiltinsFunctions::Hash)
        } else if name == "hex"@ {
            Some(BuiltinsFunctions::Hex)
        } else if name == "id"@ {
            Some(BuiltinsFunctions::Id)
        } else if name == "isinstance"@ {
            Some(BuiltinsFunctions::Isinstance)
        } else if name == "len"@ {
            Some(BuiltinsFunctions::Len)
        } else if name == "max"@ {
            Some(BuiltinsFunctions::Max)
        } else if name == "min"@ {
            Some(BuiltinsFunctions::Min)
        } else if name == "next"@ {
            Some(BuiltinsFunctions::Next)
        } else if name == "oct"@ {
            Some(BuiltinsFunctions::Oct)
        } else if name == "ord"@ {
            Some(BuiltinsFunctions::Ord)
        } else if name == "pow"@ {
            Some(BuiltinsFunctions::Pow)
        } else if name == "print"@ {
            Some(BuiltinsFunctions::Print)
        } else if name == "repr"@ {
            Some(BuiltinsFunctions::Repr)
        } else if name == "reversed"@ {
            Some(BuiltinsFunctions::Reversed)
        } else if name == "round"@ {
            Some(BuiltinsFunctions::Round)
        } else if name == "sorted"@ {
            Some(BuiltinsFunctions::Sorted)
        } else if name == "sum"@ {
            Some(BuiltinsFunctions::Sum)
        } else if name == "type"@ {
            Some(BuiltinsFunctions::Type)
        } else if name == "zip"@ {
            Some(BuiltinsFunctions::Zip)
        } else {
            None
        }
    }

    /// The builtin function with the given name.
    pub fn from_name(name: &str) -> (r: Option<BuiltinsFunctions>)
        ensures
            r == BuiltinsFunctions::named(name@),
    {
        let name: String = name.to_owned();
        if is_named(&name, "abs") {
            Some(BuiltinsFunctions::Abs)
        } else if is_named(&name, "all") {
            Some(BuiltinsFunctions::All)
        } else if is_named(&name, "any") {
            Some(BuiltinsFunctions::Any)
        } else if is_named(&name, "bin") {
            Some(BuiltinsFunctions::Bin)
        } else if is_named(&name, "chr") {
            Some(BuiltinsFunctions::Chr)
        } else if is_named(&name, "divmod") {
            Some(BuiltinsFunctions::Divmod)
        } else if is_named(&name, "enumerate") {
            Some(BuiltinsFunctions::Enumerate)
        } else if is_named(&name, "hash") {
            Some(BuiltinsFunctions::Hash)
        } else if is_named(&name, "hex") {
            Some(BuiltinsFunctions::Hex)
        } else if is_named(&name, "id") {
            Some(BuiltinsFunctions::Id)
        } else if is_named(&name, "isinstance") {
            Some(BuiltinsFunctions::Isinstance)
        } else if is_named(&name, "len") {
            Some(BuiltinsFunctions::Len)
        } else if is_named(&name, "max") {
            Some(BuiltinsFunctions::Max)
        } else if is_named(&name, "min") {
            Some(BuiltinsFunctions::Min)
        } else if is_named(&name, "next") {
            Some(BuiltinsFunctions::Next)
        } else if is_named(&name, "oct") {
            Some(BuiltinsFunctions::Oct)
        } else if is_named(&name, "ord") {
            Some(BuiltinsFunctions::Ord)
        } else if is_named(&name, "pow") {
            Some(BuiltinsFunctions::Pow)
        } else if is_named(&name, "print") {
            Some(BuiltinsFunctions::Print)
        } else if is_named(&name, "repr") {
            Some(BuiltinsFunctions::Repr)
        } else if is_named(&name, "reversed") {
            Some(BuiltinsFunctions::Reversed)
        } else if is_named(&name, "round") {
            Some(BuiltinsFunctions::Round)
        } else if is_named(&name, "sorted") {
            Some(BuiltinsFunctions::Sorted)
        } else if is_named(&name, "sum") {
            Some(BuiltinsFunctions::Sum)
        } else if is_named(&name, "type") {
            Some(BuiltinsFunctions::Type)
        } else if is_named(&name, "zip") {
            Some(BuiltinsFunctions::Zip)
        } else {
            None
        }
    }
}

/// An exception class is found again by its name.
pub proof fn class_names_are_distinct(v: ExcType)
    ensures
        ExcType::named(v.text()) == Some(v),
{
    reveal_strlit("BaseException");
    reveal_strlit("SystemExit");
    reveal_strlit("KeyboardInterrupt");
    reveal_strlit("Exception");
    reveal_strlit("ArithmeticError");
    reveal_strlit("OverflowError");
    reveal_strlit("ZeroDivisionError");
    reveal_strlit("AssertionError");
    reveal_strlit("AttributeError");
    reveal_strlit("ImportError");
    reveal_strlit("ModuleNotFoundError");
    reveal_strlit("LookupError");
    reveal_strlit("IndexError");
    reveal_strlit("KeyError");
    reveal_strlit("MemoryError");
    reveal_strlit("NameError");
    reveal_strlit("UnboundLocalError");
    reveal_strlit("OSError");
    reveal_strlit("FileNotFoundError");
    reveal_strlit("TimeoutError");
    reveal_strlit("RuntimeError");
    reveal_strlit("NotImplementedError");
    reveal_strlit("RecursionError");
    reveal_strlit("StopIteration");
    reveal_strlit("SyntaxError");
    reveal_strlit("TypeError");
    reveal_strlit("ValueError");
    reveal_strlit("UnicodeDecodeError");
    assert("BaseException"@.len() == 13 && "BaseException"@[2] == 's');
    assert("SystemExit"@.len() == 10 && "SystemExit"@[2] == 's');
    assert("KeyboardInterrupt"@.len() == 17 && "KeyboardInterrupt"@[2] == 'y');
    assert("Exception"@.len() == 9 && "Exception"@[2] == 'c');
    assert("ArithmeticError"@.len() == 15 && "ArithmeticError"@[2] == 'i');
    assert("OverflowError"@.len() == 13 && "OverflowError"@[2] == 'e');
    assert("ZeroDivisionError"@.len() == 17 && "ZeroDivisionError"@[2] == 'r');
    assert("AssertionError"@.len() == 14 && "AssertionError"@[2] == 's');
    assert("AttributeError"@.len() == 14 && "AttributeError"@[2] == 't');
    assert("ImportError"@.len() == 11 && "ImportError"@[2] == 'p');
    assert("ModuleNotFoundError"@.len() == 19 && "ModuleNotFoundError"@[2] == 'd');
    assert("LookupError"@.len() == 11 && "LookupError"@[2] == 'o');
    assert("IndexError"@.len() == 10 && "IndexError"@[2] == 'd');
    assert("KeyError"@.len() == 8 && "KeyError"@[2] == 'y');
    assert("MemoryError"@.len() == 11 && "MemoryError"@[2] == 'm');
    assert("NameError"@.len() == 9 && "NameError"@[2] == 'm');
    assert("UnboundLocalError"@.len() == 17 && "UnboundLocalError"@[2] == 'b');
    assert("OSError"@.len() == 7 && "OSError"@[2] == 'E');
    assert("FileNotFoundError"@.len() == 17 && "FileNotFoundError"@[2] == 'l');
    assert("TimeoutError"@.len() == 12 && "TimeoutError"@[2] == 'm');
    assert("RuntimeError"@.len() == 12 && "RuntimeError"@[2] == 'n');
    assert("NotImplementedError"@.len() == 19 && "NotImplementedError"@[2] == 't');
    assert("RecursionError"@.len() == 14 && "RecursionError"@[2] == 'c');
    assert("StopIteration"@.len() == 13 && "StopIteration"@[2] == 'o');
    assert("SyntaxError"@.len() == 11 && "SyntaxError"@[2] == 'n');
    assert("TypeError"@.len() == 9 && "TypeError"@[2] == 'p');
    assert("ValueError"@.len() == 10 && "ValueError"@[2] == 'l');
    assert("UnicodeDecodeError"@.len() == 18 && "UnicodeDecodeError"@[2] == 'i');
}

/// A builtin function is found again by its name.
pub proof fn function_names_are_distinct(v: BuiltinsFunctions)
    ensures
        BuiltinsFunctions::named(v.text()) == Some(v),
{
    reveal_strlit("abs");
    reveal_strlit("all");
    reveal_strlit("any");
    reveal_strlit("bin");
    reveal_strlit("chr");
    reveal_strlit("divmod");
    reveal_strlit("enumerate");
    reveal_strlit("hash");
    reveal_strlit("hex");
    reveal_strlit("id");
    reveal_strlit("isinstance");
    reveal_strlit("len");
    reveal_strlit("max");
    reveal_strlit("min");
    reveal_strlit("next");
    reveal_strlit("oct");
    reveal_strlit("ord");
    reveal_strlit("pow");
    reveal_strlit("print");
    reveal_strlit("repr");
    reveal_strlit("reversed");
    reveal_strlit("round");
    reveal_strlit("sorted");
    reveal_strlit("sum");
    reveal_strlit("type");
    reveal_strlit("zip");
    assert("abs"@.len() == 3 && "abs"@[0] == 'a' && "abs"@[1] == 'b');
    assert("all"@.len() == 3 && "all"@[0] == 'a' && "all"@[1] == 'l');
    assert("any"@.len() == 3 && "any"@[0] == 'a' && "any"@[1] == 'n');
    assert("bin"@.len() == 3 && "bin"@[0] == 'b' && "bin"@[1] == 'i');
    assert("chr"@.len() == 3 && "chr"@[0] == 'c' && "chr"@[1] == 'h');
    assert("divmod"@.len() == 6 && "divmod"@[0] == 'd' && "divmod"@[1] == 'i');
    assert("enumerate"@.len() == 9 && "enumerate"@[0] == 'e' && "enumerate"@[1] == 'n');
    assert("hash"@.len() == 4 && "hash"@[0] == 'h' && "hash"@[1] == 'a');
    assert("hex"@.len() == 3 && "hex"@[0] == 'h' && "hex"@[1] == 'e');
    assert("id"@.len() == 2 && "id"@[0] == 'i' && "id"@[1] == 'd');
    assert("isinstance"@.len() == 10 && "isinstance"@[0] == 'i' && "isinstance"@[1] == 's');
    assert("len"@.len() == 3 && "len"@[0] == 'l' && "len"@[1] == 'e');
    assert("max"@.len() == 3 && "max"@[0] == 'm' && "max"@[1] == 'a');
    assert("min"@.len() == 3 && "min"@[0] == 'm' && "min"@[1] == 'i');
    assert("next"@.len() == 4 && "next"@[0] == 'n' && "next"@[1] == 'e');
    assert("oct"@.len() == 3 && "oct"@[0] == 'o' && "oct"@[1] == 'c');
    assert("ord"@.len() == 3 && "ord"@[0] == 'o' && "ord"@[1] == 'r');
    assert("pow"@.len() == 3 && "pow"@[0] == 'p' && "pow"@[1] == 'o');
    assert("print"@.len() == 5 && "print"@[0] == 'p' && "print"@[1] == 'r');
    assert("repr"@.len() == 4 && "repr"@[0] == 'r' && "repr"@[1] == 'e');
    assert("reversed"@.len() == 8 && "reversed"@[0] == 'r' && "reversed"@[1] == 'e');
    assert("round"@.len() == 5 && "round"@[0] == 'r' && "round"@[1] == 'o');
    assert("sorted"@.len() == 6 && "sorted"@[0] == 's' && "sorted"@[1] == 'o');
    assert("sum"@.len() == 3 && "sum"@[0] == 's' && "sum"@[1] == 'u');
    assert("type"@.len() == 4 && "type"@[0] == 't' && "type"@[1] == 'y');
    assert("zip"@.len() == 3 && "zip"@[0] == 'z' && "zip"@[1] == 'i');
}

impl Type {
    /// The Python name of the type.
    pub open spec fn text(self) -> Seq<char> {
        match self {
            Type::Exception(e) => e.text(),
            Type::Ellipsis => "ellipsis"@,
            Type::Type => "type"@,
            Type::NoneType => "NoneType"@,
            Type::Bool => "bool"@,
            Type::Int => "int"@,
            Type::Range => "range"@,
            Type::Slice => "slice"@,
            Type::Str => "str"@,
            Type::Bytes => "bytes"@,
            Type::List => "list"@,
            Type::Tuple => "tuple"@,
            Type::Dict => "dict"@,
            Type::PySet => "set"@,
            Type::Function => "function"@,
            Type::BuiltinFunction => "builtin_function_or_method"@,
            Type::Cell => "cell"@,
            Type::Coroutine => "coroutine"@,
            Type::Future => "_GatheringFuture"@,
        }
    }

    /// The Python name of the type.
    pub fn name(self) -> (r: &'static str)
        ensures
            r@ == self.text(),
    {
        match self {
            Type::Exception(e) => e.name(),
            Type::Ellipsis => "ellipsis",
            Type::Type => "type",
            Type::NoneType => "NoneType",
            Type::Bool => "bool",
            Type::Int => "int",
            Type::Range => "range",
            Type::Slice => "slice",
            Type::Str => "str",
            Type::Bytes => "bytes",
            Type::List => "list",
            Type::Tuple => "tuple",
            Type::Dict => "dict",
            Type::PySet => "set",
            Type::Function => "function",
            Type::BuiltinFunction => "builtin_function_or_method",
            Type::Cell => "cell",
            Type::Coroutine => "coroutine",
            Type::Future => "_GatheringFuture",
        }
    }

    /// The type a program can construct values of under the given name.
    pub open spec fn named(name: Seq<char>) -> Option<Type> {
        if name == "bool"@ {
            Some(Type::Bool)
        } else if name == "int"@ {
            Some(Type::Int)
        } else if name == "range"@ {
            Some(Type::Range)
        } else if name == "slice"@ {
            Some(Type::Slice)
        } else if name == "str"@ {
            Some(Type::Str)
        } else if name == "bytes"@ {
            Some(Type::Bytes)
        } else if name == "list"@ {
            Some(Type::List)
        } else if name == "tuple"@ {
            Some(Type::Tuple)
        } else if name == "dict"@ {
            Some(Type::Dict)
        } else if name == "set"@ {
            Some(Type::PySet)
        } else {
            None
        }
    }

    /// The type a program can construct values of under the given name.
    pub fn from_name(name: &str) -> (r: Option<Type>)
        ensures
            r == Type::named(name@),
    {
        let name: String = name.to_owned();
        if is_named(&name, "bool") {
            Some(Type::Bool)
        } else if is_named(&name, "int") {
            Some(Type::Int)
        } else if is_named(&name, "range") {
            Some(Type::Range)
        } else if is_named(&name, "slice") {
            Some(Type::Slice)
        } else if is_named(&name, "str") {
            Some(Type::Str)
        } else if is_named(&name, "bytes") {
            Some(Type::Bytes)
        } else if is_named(&name, "list") {
            Some(Type::List)
        } else if is_named(&name, "tuple") {
            Some(Type::Tuple)
        } else if is_named(&name, "dict") {
            Some(Type::Dict)
        } else if is_named(&name, "set") {
            Some(Type::PySet)
        } else {
            None
        }
    }
}

impl Builtins {
    /// The builtin with the given name: functions come before exception classes, and those
    /// before types.
    pub open spec fn named(name: Seq<char>) -> Option<Builtins> {
        match BuiltinsFunctions::named(name) {
            Some(b) => Some(Builtins::Function(b)),
            None => match ExcType::named(name) {
                Some(e) => Some(Builtins::ExcType(e)),
                None => match Type::named(name) {
                    Some(t) => Some(Builtins::Type(t)),
                    None => None,
                },
            },
        }
    }
}

impl std::str::FromStr for Builtins {
    type Err = ();

    /// Finds the builtin with the given name.
    fn from_str(s: &str) -> (r: Result<Self, ()>)
        ensures
            r == (match Builtins::named(s@) {
                Some(b) => Ok(b),
                None => Err(()),
            }),
    {
        if let Some(b) = BuiltinsFunctions::from_name(s) {
            Ok(Builtins::Function(b))
        } else if let Some(e) = ExcType::from_name(s) {
            Ok(Builtins::ExcType(e))
        } else if let Some(t) = Type::from_name(s) {
            Ok(Builtins::Type(t))
        } else {
            Err(())
        }
    }
}

impl BuiltinsFunctions {
    /// The number of the function in the alphabetical list.
    pub open spec fn number(self) -> u8 {
        match self {
            BuiltinsFunctions::Abs => 0,
            BuiltinsFunctions::All => 1,
            BuiltinsFunctions::Any => 2,
            BuiltinsFunctions::Bin => 3,
            BuiltinsFunctions::Chr => 4,
            BuiltinsFunctions::Divmod => 5,
            BuiltinsFunctions::Enumerate => 6,
            BuiltinsFunctions::Hash => 7,
            BuiltinsFunctions::Hex => 8,
            BuiltinsFunctions::Id => 9,
            BuiltinsFunctions::Isinstance => 10,
            BuiltinsFunctions::Len => 11,
            BuiltinsFunctions::Max => 12,
            BuiltinsFunctions::Min => 13,
            BuiltinsFunctions::Next => 14,
            BuiltinsFunctions::Oct => 15,
            BuiltinsFunctions::Ord => 16,
            BuiltinsFunctions::Pow => 17,
            BuiltinsFunctions::Print => 18,
            BuiltinsFunctions::Repr => 19,
            BuiltinsFunctions::Reversed => 20,
            BuiltinsFunctions::Round => 21,
            BuiltinsFunctions::Sorted => 22,
            BuiltinsFunctions::Sum => 23,
            BuiltinsFunctions::Type => 24,
            BuiltinsFunctions::Zip => 25,
        }
    }

    /// The function with the given number, if there is one.
    pub fn from_repr(number: u8) -> (r: Option<Self>)
        ensures
            r matches Some(b) ==> b.number() == number,
            r is None ==> forall|b: BuiltinsFunctions| b.number() != number,
    {
        match number {
            0 => Some(BuiltinsFunctions::Abs),
            1 => Some(BuiltinsFunctions::All),
            2 => Some(BuiltinsFunctions::Any),
            3 => Some(BuiltinsFunctions::Bin),
            4 => Some(BuiltinsFunctions::Chr),
            5 => Some(BuiltinsFunctions::Divmod),
            6 => Some(BuiltinsFunctions::Enumerate),
            7 => Some(BuiltinsFunctions::Hash),
            8 => Some(BuiltinsFunctions::Hex),
            9 => Some(BuiltinsFunctions::Id),
            10 => Some(BuiltinsFunctions::Isinstance),
            11 => Some(BuiltinsFunctions::Len),
            12 => Some(BuiltinsFunctions::Max),
            13 => Some(BuiltinsFunctions::Min),
            14 => Some(BuiltinsFunctions::Next),
            15 => Some(BuiltinsFunctions::Oct),
            16 => Some(BuiltinsFunctions::Ord),
            17 => Some(BuiltinsFunctions::Pow),
            18 => Some(BuiltinsFunctions::Print),
            19 => Some(BuiltinsFunctions::Repr),
            20 => Some(BuiltinsFunctions::Reversed),
            21 => Some(BuiltinsFunctions::Round),
            22 => Some(BuiltinsFunctions::Sorted),
            23 => Some(BuiltinsFunctions::Sum),
            24 => Some(BuiltinsFunctions::Type),
            25 => Some(BuiltinsFunctions::Zip),
            _ => None,
        }
    }
}

/// A function's name is never taken for that of a class or type.
pub proof fn functions_come_first(f: BuiltinsFunctions)
    ensures
        Builtins::named(f.text()) == Some(Builtins::Function(f)),
{
    function_names_are_distinct(f);
}

/// An exception class is found under its name, which no function has.
pub proof fn classes_are_found(e: ExcType)
    ensures
        Builtins::named(e.text()) == Some(Builtins::ExcType(e)),
{
    class_names_are_distinct(e);
    assert(BuiltinsFunctions::named(e.text()) is None) by {
        reveal_strlit("abs");
        reveal_strlit("all");
        reveal_strlit("any");
        reveal_strlit("bin");
        reveal_strlit("chr");
        reveal_strlit("divmod");
        reveal_strlit("enumerate");
        reveal_strlit("hash");
        reveal_strlit("hex");
        reveal_strlit("id");
        reveal_strlit("isinstance");
        reveal_strlit("len");
        reveal_strlit("max");
        reveal_strlit("min");
        reveal_strlit("next");
        reveal_strlit("oct");
        reveal_strlit("ord");
        reveal_strlit("pow");
        reveal_strlit("print");
        reveal_strlit("repr");
        reveal_strlit("reversed");
        reveal_strlit("round");
        reveal_strlit("sorted");
        reveal_strlit("sum");
        reveal_strlit("type");
        reveal_strlit("zip");
        reveal_strlit("BaseException");
        reveal_strlit("SystemExit");
        reveal_strlit("KeyboardInterrupt");
        reveal_strlit("Exception");
        reveal_strlit("ArithmeticError");
        reveal_strlit("OverflowError");
        reveal_strlit("ZeroDivisionError");
        reveal_strlit("AssertionError");
        reveal_strlit("AttributeError");
        reveal_strlit("ImportError");
        reveal_strlit("ModuleNotFoundError");
        reveal_strlit("LookupError");
        reveal_strlit("IndexError");
        reveal_strlit("KeyError");
        reveal_strlit("MemoryError");
        reveal_strlit("NameError");
        reveal_strlit("UnboundLocalError");
        reveal_strlit("OSError");
        reveal_strlit("FileNotFoundError");
        reveal_strlit("TimeoutError");
        reveal_strlit("RuntimeError");
        reveal_strlit("NotImplementedError");
        reveal_strlit("RecursionError");
        reveal_strlit("StopIteration");
        reveal_strlit("SyntaxError");
        reveal_strlit("TypeError");
        reveal_strlit("ValueError");
        reveal_strlit("UnicodeDecodeError");
        assert("abs"@[0] == 'a');
        assert("all"@[0] == 'a');
        assert("any"@[0] == 'a');
        assert("bin"@[0] == 'b');
        assert("chr"@[0] == 'c');
        assert("divmod"@[0] == 'd');
        assert("enumerate"@[0] == 'e');
        assert("hash"@[0] == 'h');
        assert("hex"@[0] == 'h');
        assert("id"@[0] == 'i');
        assert("isinstance"@[0] == 'i');
        assert("len"@[0] == 'l');
        assert("max"@[0] == 'm');
        assert("min"@[0] == 'm');
        assert("next"@[0] == 'n');
        assert("oct"@[0] == 'o');
        assert("ord"@[0] == 'o');
        assert("pow"@[0] == 'p');
        assert("print"@[0] == 'p');
        assert("repr"@[0] == 'r');
        assert("reversed"@[0] == 'r');
        assert("round"@[0] == 'r');
        assert("sorted"@[0] == 's');
        assert("sum"@[0] == 's');
        assert("type"@[0] == 't');
        assert("zip"@[0] == 'z');
        assert("BaseException"@[0] == 'B');
        assert("SystemExit"@[0] == 'S');
        assert("KeyboardInterrupt"@[0] == 'K');
        assert("Exception"@[0] == 'E');
        assert("ArithmeticError"@[0] == 'A');
        assert("OverflowError"@[0] == 'O');
        assert("ZeroDivisionError"@[0] == 'Z');
        assert("AssertionError"@[0] == 'A');
        assert("AttributeError"@[0] == 'A');
        assert("ImportError"@[0] == 'I');
        assert("ModuleNotFoundError"@[0] == 'M');
        assert("LookupError"@[0] == 'L');
        assert("IndexError"@[0] == 'I');
        assert("KeyError"@[0] == 'K');
        assert("MemoryError"@[0] == 'M');
        assert("NameError"@[0] == 'N');
        assert("UnboundLocalError"@[0] == 'U');
        assert("OSError"@[0] == 'O');
        assert("FileNotFoundError"@[0] == 'F');
        assert("TimeoutError"@[0] == 'T');
        assert("RuntimeError"@[0] == 'R');
        assert("NotImplementedError"@[0] == 'N');
        assert("RecursionError"@[0] == 'R');
        assert("StopIteration"@[0] == 'S');
        assert("SyntaxError"@[0] == 'S');
        assert("TypeError"@[0] == 'T');
        assert("ValueError"@[0] == 'V');
        assert("UnicodeDecodeError"@[0] == 'U');
    }
}

} // verus!
