//! Exceptions raised by a program and the errors that carry them.

use vstd::prelude::*;
use crate::ids::{OsFunction, StringId};
use crate::resource::ResourceError;
use crate::types::{ExcType, Type};

verus! {

/// A builtin callable as it is named in error messages.
#[derive(Debug, Clone, Copy, PartialEq, Eq, Structural)]
pub enum Callee {
    List,
    ListAppend,
    ListInsert,
    ListPop,
    ListRemove,
    ListClear,
    ListCopy,
    ListExtend,
    ListIndex,
    ListCount,
    ListReverse,
    ListSort,
    Print,
}

/// A binary operator as it is named in error messages.
#[derive(Debug, Clone, Copy, PartialEq, Eq, Structural)]
pub enum BinaryOp {
    Add,
    Sub,
    Mult,
    Div,
    FloorDiv,
    Mod,
    Pow,
    InplaceAdd,
}

/// The keyword arguments of `print` that take a string.
#[derive(Debug, Clone, Copy, PartialEq, Eq, Structural)]
pub enum PrintOption {
    Sep,
    End,
}

/// What went wrong, for errors whose text is fixed but for a few short values.
#[derive(Debug, Clone, Copy, PartialEq, Eq, Structural)]
pub enum Fault {
    // Lists and indexing
    ListIndexOutOfRange,
    ListAssignmentOutOfRange,
    ListIndices(Type),
    IndexTooLarge,
    SliceStepZero,
    SliceIndices,
    PopEmptyList,
    PopOutOfRange,
    RemoveNotInList,
    NotInList,
    NotAnInteger(Type),
    IntTooLarge,
    Unhashable(Type),
    NotIterable(Type),
    // Arguments
    ArgCount { callee: Callee, expected: usize, got: usize },
    ArgsAtLeast { callee: Callee, expected: usize, got: usize },
    ArgsAtMost { callee: Callee, expected: usize, got: usize },
    NoKeywords(Callee),
    KeywordsMustBeStrings,
    PrintFile,
    PrintOptionType(PrintOption, Type),
    KwargsNotMapping(Option<StringId>, Type),
    KwargsNonStringKey,
    // Calls and attributes
    NoAttribute(Type, StringId),
    NotCallable,
    SortKeyUserFunction,
    SortKeyNotCallable,
    // Operators
    Unorderable(Type, Type),
    Operands(BinaryOp, Type, Type),
    ModOperands,
    MatMul,
    // Unpacking
    UnpackTooFew { expected: usize, got: usize },
    UnpackTooMany { expected: usize, got: usize },
    UnpackAtLeast { expected: usize, got: usize },
    UnpackNonIterable(Type),
    // Exceptions
    NotAnException,
    ExceptInvalidType,
    // Await
    NotAwaitable(Type),
    CoroutineReused,
    GatherReused,
    FutureReused,
    TaskCancelled,
    GatherIncomplete,
    TaskNotRunnable,
    // Limits
    Resource(ResourceError),
    // Running
    TooManyInputs,
    InputCount { expected: usize, got: usize },
    InvalidInput(InvalidInputError),
    InvalidReturn(u32, InvalidInputError),
    OsUnsupported(OsFunction),
    FuturesUnsupported,
    // Broken invariants of compiled code
    InvalidBuiltinId,
    InvalidTypeId,
    SortExpectedList,
    ListToTupleExpectedList,
    ListToTupleExpectedRef,
    DictMergeExpectedRef,
    DictMergeExpectedDict,
    ListAppendExpectedRef,
    ListAppendExpectedList,
    SetAddExpectedRef,
    SetAddExpectedSet,
    DictSetItemExpectedRef,
    DictSetItemExpectedDict,
}

/// Why a host object cannot enter the program.
#[derive(Debug, Clone, Copy, PartialEq, Eq, Structural)]
pub enum InvalidInputError {
    /// The object is only a printed form, with no value behind it.
    OutputOnly,
    /// The object is a dict with a key that cannot be one.
    DictKey,
    /// Allocating the object failed.
    Resource(ResourceError),
}

/// The text of an exception.
#[derive(Debug)]
pub enum Message {
    Fault(Fault),
    Text(String),
    NoAttributeText(Type, String),
    UnexpectedKeyword(Callee, String),
    MultipleValues(Option<StringId>, String),
    CannotImport(StringId, String),
    ExternalUnsupported(String),
    UnknownCall(u32, Vec<u32>),
}

/// The content of a [`Message`].
pub enum MessageView {
    Fault(Fault),
    Text(Seq<char>),
    NoAttributeText(Type, Seq<char>),
    UnexpectedKeyword(Callee, Seq<char>),
    MultipleValues(Option<StringId>, Seq<char>),
    CannotImport(StringId, Seq<char>),
    ExternalUnsupported(Seq<char>),
    UnknownCall(u32, Seq<u32>),
}

impl View for Message {
    type V = MessageView;

    open spec fn view(&self) -> MessageView {
        match self {
            Message::Fault(f) => MessageView::Fault(*f),
            Message::Text(s) => MessageView::Text(s@),
            Message::NoAttributeText(t, s) => MessageView::NoAttributeText(*t, s@),
            Message::UnexpectedKeyword(c, s) => MessageView::UnexpectedKeyword(*c, s@),
            Message::MultipleValues(f, s) => MessageView::MultipleValues(*f, s@),
            Message::CannotImport(n, s) => MessageView::CannotImport(*n, s@),
            Message::ExternalUnsupported(s) => MessageView::ExternalUnsupported(s@),
            Message::UnknownCall(c, p) => MessageView::UnknownCall(*c, p@),
        }
    }
}

impl Message {
    /// A copy of the message.
    pub fn duplicate(&self) -> (r: Self)
        ensures
            r@ == self@,
    {
        match self {
            Message::Fault(f) => Message::Fault(*f),
            Message::Text(s) => Message::Text(s.clone()),
            Message::NoAttributeText(t, s) => Message::NoAttributeText(*t, s.clone()),
            Message::UnexpectedKeyword(c, s) => Message::UnexpectedKeyword(*c, s.clone()),
            Message::MultipleValues(f, s) => Message::MultipleValues(*f, s.clone()),
            Message::CannotImport(n, s) => Message::CannotImport(*n, s.clone()),
            Message::ExternalUnsupported(s) => Message::ExternalUnsupported(s.clone()),
            Message::UnknownCall(c, p) => {
                let copy: Vec<u32> = p.clone();
                assert(copy@ =~= p@);
                Message::UnknownCall(*c, copy)
            },
        }
    }
}

/// An exception object: its class and its text.
#[derive(Debug)]
pub struct SimpleException {
    pub exc_type: ExcType,
    pub message: Option<Message>,
}

/// The content of a [`SimpleException`].
pub struct ExceptionView {
    pub exc_type: ExcType,
    pub message: Option<MessageView>,
}

impl View for SimpleException {
    type V = ExceptionView;

    open spec fn view(&self) -> ExceptionView {
        ExceptionView {
            exc_type: self.exc_type,
            message: match self.message {
                None => None,
                Some(m) => Some(m@),
            },
        }
    }
}

impl ExceptionView {
    /// An exception of class `exc_type` whose text is that of `fault`.
    pub open spec fn of(exc_type: ExcType, fault: Fault) -> ExceptionView {
        ExceptionView { exc_type, message: Some(MessageView::Fault(fault)) }
    }
}

impl SimpleException {
    /// An exception without text.
    pub fn new_none(exc_type: ExcType) -> (r: Self)
        ensures
            r@ == (ExceptionView { exc_type, message: None }),
    {
        SimpleException { exc_type, message: None }
    }

    /// An exception with the given text.
    pub fn new_msg(exc_type: ExcType, message: Message) -> (r: Self)
        ensures
            r@ == (ExceptionView { exc_type, message: Some(message@) }),
    {
        SimpleException { exc_type, message: Some(message) }
    }

    /// The class of the exception.
    pub fn exc_type(&self) -> (r: ExcType)
        ensures
            r == self@.exc_type,
    {
        self.exc_type
    }

    /// A copy of the exception.
    pub fn duplicate(&self) -> (r: Self)
        ensures
            r@ == self@,
    {
        let message: Option<Message> = match &self.message {
            None => None,
            Some(m) => Some(m.duplicate()),
        };
        SimpleException { exc_type: self.exc_type, message }
    }
}

/// A stretch of source text.
#[derive(Debug, Clone, Copy, PartialEq, Eq, Structural)]
pub struct CodeRange {
    pub start_line: u32,
    pub start_column: u32,
    pub end_line: u32,
    pub end_column: u32,
}

/// One line of a traceback, with the calls that led to it.
#[derive(Debug)]
pub struct RawStackFrame {
    pub position: CodeRange,
    pub frame_name: StringId,
    pub hide_caret: bool,
    pub parent: Option<Box<RawStackFrame>>,
}

impl RawStackFrame {
    pub fn new(
        position: CodeRange,
        frame_name: StringId,
        parent: Option<Box<RawStackFrame>>,
    ) -> (r: Self)
        ensures
            r == (RawStackFrame { position, frame_name, hide_caret: false, parent }),
    {
        RawStackFrame { position, frame_name, hide_caret: false, parent }
    }

    /// The frame of a `raise` statement, which is shown without a caret.
    pub fn from_raise(position: CodeRange, frame_name: StringId) -> (r: Self)
        ensures
            r == (RawStackFrame { position, frame_name, hide_caret: true, parent: None }),
    {
        RawStackFrame { position, frame_name, hide_caret: true, parent: None }
    }

    /// The frame with `caller` added as the outermost call.
    pub open spec fn with_caller(self, caller: RawStackFrame) -> RawStackFrame
        decreases self,
    {
        RawStackFrame {
            parent: match self.parent {
                None => Some(Box::new(caller)),
                Some(p) => Some(Box::new(p.with_caller(caller))),
            },
            ..self
        }
    }

    /// The number of lines in the traceback.
    pub open spec fn depth(self) -> nat
        decreases self,
    {
        match self.parent {
            None => 1,
            Some(p) => 1 + p.depth(),
        }
    }

    /// Adds `caller` as the outermost call.
    pub fn push_caller(self, caller: RawStackFrame) -> (r: Self)
        ensures
            r == self.with_caller(caller),
        decreases self,
    {
        match self.parent {
            None => RawStackFrame { parent: Some(Box::new(caller)), ..self },
            Some(p) => {
                let grown: RawStackFrame = (*p).push_caller(caller);
                RawStackFrame {
                    position: self.position,
                    frame_name: self.frame_name,
                    hide_caret: self.hide_caret,
                    parent: Some(Box::new(grown)),
                }
            },
        }
    }
}

/// Adding a caller makes the traceback one line longer.
pub proof fn caller_lengthens_traceback(frame: RawStackFrame, caller: RawStackFrame)
    requires
        caller.parent is None,
    ensures
        frame.with_caller(caller).depth() == frame.depth() + 1,
    decreases frame,
{
    match frame.parent {
        None => {
            assert(caller.depth() == 1);
        },
        Some(p) => {
            caller_lengthens_traceback(*p, caller);
        },
    }
}

/// An exception on its way to a handler.
#[derive(Debug)]
pub struct ExceptionRaise {
    pub exc: SimpleException,
    pub frame: Option<RawStackFrame>,
    pub hide_caret: bool,
}

/// The content of an [`ExceptionRaise`].
pub struct RaiseView {
    pub exc: ExceptionView,
    pub frame: Option<RawStackFrame>,
    pub hide_caret: bool,
}

impl View for ExceptionRaise {
    type V = RaiseView;

    open spec fn view(&self) -> RaiseView {
        RaiseView { exc: self.exc@, frame: self.frame, hide_caret: self.hide_caret }
    }
}

impl RaiseView {
    /// The raise with a caller line added to its traceback.
    ///
    /// A raise without any frame gets the line as its only one.
    pub open spec fn with_caller(self, position: CodeRange, frame_name: StringId) -> RaiseView {
        let caller = RawStackFrame { position, frame_name, hide_caret: false, parent: None };
        RaiseView {
            frame: match self.frame {
                None => Some(caller),
                Some(f) => Some(f.with_caller(caller)),
            },
            ..self
        }
    }
}

impl ExceptionRaise {
    /// Adds the call that led to the frames recorded so far.
    pub fn add_caller_frame(self, position: CodeRange, frame_name: StringId) -> (r: Self)
        ensures
            r@ == self@.with_caller(position, frame_name),
    {
        let caller: RawStackFrame = RawStackFrame::new(position, frame_name, None);
        let frame: RawStackFrame = match self.frame {
            None => caller,
            Some(f) => f.push_caller(caller),
        };
        ExceptionRaise { exc: self.exc, frame: Some(frame), hide_caret: self.hide_caret }
    }
}

/// Why running code stopped.
#[derive(Debug)]
pub enum RunError {
    /// Compiled code broke a rule the compiler guarantees.
    Internal(Fault),
    /// An exception the program can catch.
    Exc(ExceptionRaise),
    /// An exception the program cannot catch.
    UncatchableExc(ExceptionRaise),
}

/// The content of a [`RunError`].
pub enum ErrorView {
    Internal(Fault),
    Exc(RaiseView),
    UncatchableExc(RaiseView),
}

pub type RunResult<T> = Result<T, RunError>;

impl View for RunError {
    type V = ErrorView;

    open spec fn view(&self) -> ErrorView {
        match self {
            RunError::Internal(f) => ErrorView::Internal(*f),
            RunError::Exc(e) => ErrorView::Exc(e@),
            RunError::UncatchableExc(e) => ErrorView::UncatchableExc(e@),
        }
    }
}

impl ErrorView {
    /// A catchable exception that has not been given a frame yet.
    pub open spec fn raised(exc_type: ExcType, message: MessageView) -> ErrorView {
        ErrorView::Exc(
            RaiseView {
                exc: ExceptionView { exc_type, message: Some(message) },
                frame: None,
                hide_caret: false,
            },
        )
    }

    /// A catchable exception with a fixed text.
    pub open spec fn fault(exc_type: ExcType, fault: Fault) -> ErrorView {
        ErrorView::raised(exc_type, MessageView::Fault(fault))
    }

    /// The error a resource limit is reported as; programs cannot catch it.
    pub open spec fn resource(error: ResourceError) -> ErrorView {
        ErrorView::UncatchableExc(
            RaiseView {
                exc: ExceptionView::of(resource_class(error), Fault::Resource(error)),
                frame: None,
                hide_caret: false,
            },
        )
    }

    /// The error with a caller line added to its traceback.
    pub open spec fn with_caller(self, position: CodeRange, frame_name: StringId) -> ErrorView {
        match self {
            ErrorView::Internal(_) => self,
            ErrorView::Exc(e) => ErrorView::Exc(e.with_caller(position, frame_name)),
            ErrorView::UncatchableExc(e) => ErrorView::UncatchableExc(
                e.with_caller(position, frame_name),
            ),
        }
    }
}

/// A result with its error by content.
pub open spec fn outcome<X>(r: RunResult<X>) -> Result<X, ErrorView> {
    match r {
        Ok(x) => Ok(x),
        Err(e) => Err(e@),
    }
}

/// The exception class that reports a resource limit.
pub open spec fn resource_class(error: ResourceError) -> ExcType {
    match error {
        ResourceError::Allocation { .. } => ExcType::MemoryError,
        ResourceError::Recursion { .. } => ExcType::RecursionError,
    }
}

impl RunError {
    /// A broken rule of compiled code.
    pub fn internal(fault: Fault) -> (r: Self)
        ensures
            r@ == ErrorView::Internal(fault),
    {
        RunError::Internal(fault)
    }

    /// Raises an exception that has no frame yet.
    pub fn raise(exc: SimpleException) -> (r: Self)
        ensures
            r@ == ErrorView::Exc(RaiseView { exc: exc@, frame: None, hide_caret: false }),
    {
        RunError::Exc(ExceptionRaise { exc, frame: None, hide_caret: false })
    }

    /// Raises an exception with a fixed text.
    pub fn fault(exc_type: ExcType, fault: Fault) -> (r: Self)
        ensures
            r@ == ErrorView::fault(exc_type, fault),
    {
        RunError::raise(SimpleException::new_msg(exc_type, Message::Fault(fault)))
    }

    /// Raises a `TypeError` with a fixed text.
    pub fn type_error(fault: Fault) -> (r: Self)
        ensures
            r@ == ErrorView::fault(ExcType::TypeError, fault),
    {
        RunError::fault(ExcType::TypeError, fault)
    }

    /// Raises an exception with the given text.
    pub fn message(exc_type: ExcType, message: Message) -> (r: Self)
        ensures
            r@ == ErrorView::raised(exc_type, message@),
    {
        RunError::raise(SimpleException::new_msg(exc_type, message))
    }

    /// The error a resource limit is reported as.
    pub fn resource(error: ResourceError) -> (r: Self)
        ensures
            r@ == ErrorView::resource(error),
    {
        let exc_type: ExcType = match error {
            ResourceError::Allocation { .. } => ExcType::MemoryError,
            ResourceError::Recursion { .. } => ExcType::RecursionError,
        };
        RunError::UncatchableExc(
            ExceptionRaise {
                exc: SimpleException::new_msg(exc_type, Message::Fault(Fault::Resource(error))),
                frame: None,
                hide_caret: false,
            },
        )
    }

    /// Adds the call that led to the frames recorded so far.
    pub fn add_caller_frame(self, position: CodeRange, frame_name: StringId) -> (r: Self)
        ensures
            r@ == self@.with_caller(position, frame_name),
    {
        match self {
            RunError::Internal(f) => RunError::Internal(f),
            RunError::Exc(e) => RunError::Exc(e.add_caller_frame(position, frame_name)),
            RunError::UncatchableExc(e) => RunError::UncatchableExc(
                e.add_caller_frame(position, frame_name),
            ),
        }
    }
}

} // verus!
