//! The Python types and exception classes the runtime knows.

use vstd::prelude::*;

verus! {

/// An exception class.
#[derive(Debug, Clone, Copy, PartialEq, Eq, Structural)]
pub enum ExcType {
    BaseException,
    SystemExit,
    KeyboardInterrupt,
    Exception,
    ArithmeticError,
    OverflowError,
    ZeroDivisionError,
    AssertionError,
    AttributeError,
    ImportError,
    ModuleNotFoundError,
    LookupError,
    IndexError,
    KeyError,
    MemoryError,
    NameError,
    UnboundLocalError,
    OSError,
    FileNotFoundError,
    TimeoutError,
    RuntimeError,
    NotImplementedError,
    RecursionError,
    StopIteration,
    SyntaxError,
    TypeError,
    ValueError,
    UnicodeDecodeError,
}

impl ExcType {
    /// The class this class derives from directly.
    pub open spec fn parent(self) -> Option<ExcType> {
        match self {
            ExcType::BaseException => None,
            ExcType::SystemExit | ExcType::KeyboardInterrupt | ExcType::Exception => Some(
                ExcType::BaseException,
            ),
            ExcType::OverflowError | ExcType::ZeroDivisionError => Some(ExcType::ArithmeticError),
            ExcType::ModuleNotFoundError => Some(ExcType::ImportError),
            ExcType::IndexError | ExcType::KeyError => Some(ExcType::LookupError),
            ExcType::UnboundLocalError => Some(ExcType::NameError),
            ExcType::FileNotFoundError | ExcType::TimeoutError => Some(ExcType::OSError),
            ExcType::NotImplementedError | ExcType::RecursionError => Some(ExcType::RuntimeError),
            ExcType::UnicodeDecodeError => Some(ExcType::ValueError),
            _ => Some(ExcType::Exception),
        }
    }

    /// The number of classes between this class and the root.
    pub open spec fn rank(self) -> nat {
        match self {
            ExcType::BaseException => 0,
            ExcType::SystemExit | ExcType::KeyboardInterrupt | ExcType::Exception => 1,
            ExcType::OverflowError
            | ExcType::ZeroDivisionError
            | ExcType::ModuleNotFoundError
            | ExcType::IndexError
            | ExcType::KeyError
            | ExcType::UnboundLocalError
            | ExcType::FileNotFoundError
            | ExcType::TimeoutError
            | ExcType::NotImplementedError
            | ExcType::RecursionError
            | ExcType::UnicodeDecodeError => 3,
            _ => 2,
        }
    }

    /// Whether this class is `ancestor` or derives from it.
    pub open spec fn derives_from(self, ancestor: ExcType) -> bool
        decreases self.rank(),
    {
        self == ancestor || match self.parent() {
            None => false,
            Some(p) => if p.rank() < self.rank() {
                p.derives_from(ancestor)
            } else {
                false
            },
        }
    }

    fn parent_class(self) -> (r: Option<ExcType>)
        ensures
            r == self.parent(),
    {
        match self {
            ExcType::BaseException => None,
            ExcType::SystemExit | ExcType::KeyboardInterrupt | ExcType::Exception => Some(
                ExcType::BaseException,
            ),
            ExcType::OverflowError | ExcType::ZeroDivisionError => Some(ExcType::ArithmeticError),
            ExcType::ModuleNotFoundError => Some(ExcType::ImportError),
            ExcType::IndexError | ExcType::KeyError => Some(ExcType::LookupError),
            ExcType::UnboundLocalError => Some(ExcType::NameError),
            ExcType::FileNotFoundError | ExcType::TimeoutError => Some(ExcType::OSError),
            ExcType::NotImplementedError | ExcType::RecursionError => Some(ExcType::RuntimeError),
            ExcType::UnicodeDecodeError => Some(ExcType::ValueError),
            _ => Some(ExcType::Exception),
        }
    }

    /// Whether an exception of this class is caught by a handler for `ancestor`.
    pub fn is_subclass_of(self, ancestor: ExcType) -> (r: bool)
        ensures
            r == self.derives_from(ancestor),
    {
        let mut class: ExcType = self;
        loop
            invariant
                self.derives_from(ancestor) == class.derives_from(ancestor),
            decreases class.rank(),
        {
            if class == ancestor {
                return true;
            }
            match class.parent_class() {
                None => {
                    return false;
                },
                Some(p) => {
                    class = p;
                },
            }
        }
    }
}

/// Every class is caught by a handler for itself.
pub proof fn subclass_is_reflexive(a: ExcType)
    ensures
        a.derives_from(a),
{
}

/// A handler for a class also catches what handlers for its subclasses catch.
pub proof fn subclass_is_transitive(a: ExcType, b: ExcType, c: ExcType)
    requires
        a.derives_from(b),
        b.derives_from(c),
    ensures
        a.derives_from(c),
    decreases a.rank(),
{
    if a != b {
        subclass_is_transitive(a.parent()->0, b, c);
    }
}

/// A handler for `BaseException` catches every exception.
pub proof fn base_exception_catches_all(a: ExcType)
    ensures
        a.derives_from(ExcType::BaseException),
    decreases a.rank(),
{
    if a != ExcType::BaseException {
        base_exception_catches_all(a.parent()->0);
    }
}

/// The classes a handler catches are those of Python's hierarchy.
pub proof fn handlers_catch_as_in_python(e: ExcType, a: ExcType)
    ensures
        e.derives_from(a) <==> match a {
            ExcType::BaseException => true,
            ExcType::Exception => !(e is BaseException || e is SystemExit
                || e is KeyboardInterrupt),
            ExcType::ArithmeticError => e is ArithmeticError || e is OverflowError
                || e is ZeroDivisionError,
            ExcType::ImportError => e is ImportError || e is ModuleNotFoundError,
            ExcType::LookupError => e is LookupError || e is IndexError || e is KeyError,
            ExcType::NameError => e is NameError || e is UnboundLocalError,
            ExcType::OSError => e is OSError || e is FileNotFoundError || e is TimeoutError,
            ExcType::RuntimeError => e is RuntimeError || e is NotImplementedError
                || e is RecursionError,
            ExcType::ValueError => e is ValueError || e is UnicodeDecodeError,
            _ => e == a,
        },
{
    reveal_with_fuel(ExcType::derives_from, 5);
}

/// A Python type.
#[derive(Debug, Clone, Copy, PartialEq, Eq, Structural)]
pub enum Type {
    Ellipsis,
    Type,
    NoneType,
    Bool,
    Int,
    Range,
    Slice,
    Str,
    Bytes,
    List,
    Tuple,
    Dict,
    PySet,
    Exception(ExcType),
    Function,
    BuiltinFunction,
    Cell,
    Coroutine,
    Future,
}

impl Type {
    /// The type a program can construct values of that has the given number in code.
    pub open spec fn callable(number: u8) -> Option<Type> {
        match number {
            0 => Some(Type::Bool),
            1 => Some(Type::Int),
            2 => Some(Type::Range),
            3 => Some(Type::Slice),
            4 => Some(Type::Str),
            5 => Some(Type::Bytes),
            6 => Some(Type::List),
            7 => Some(Type::Tuple),
            8 => Some(Type::Dict),
            9 => Some(Type::PySet),
            _ => None,
        }
    }

    /// The type a program can construct values of that has the given number in code.
    pub fn callable_from_u8(number: u8) -> (r: Option<Type>)
        ensures
            r == Type::callable(number),
    {
        match number {
            0 => Some(Type::Bool),
            1 => Some(Type::Int),
            2 => Some(Type::Range),
            3 => Some(Type::Slice),
            4 => Some(Type::Str),
            5 => Some(Type::Bytes),
            6 => Some(Type::List),
            7 => Some(Type::Tuple),
            8 => Some(Type::Dict),
            9 => Some(Type::PySet),
            _ => None,
        }
    }
}

} // verus!
