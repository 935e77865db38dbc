//! Exceptions as the host sees them.

use vstd::prelude::*;
use vstd::std_specs::convert::FromSpecImpl;
use crate::error::{
    CodeRange, ErrorView, ExceptionRaise, Message, MessageView, RaiseView, RawStackFrame, RunError,
    SimpleException,
};
use crate::interns::Interns;
use crate::text::{find_line, nth_line};
use crate::types::ExcType;

verus! {

/// A line of a traceback.
#[derive(Debug)]
pub struct TraceLine {
    pub position: CodeRange,
    pub frame_name: String,
    /// The line of the source text, if the position is known.
    pub preview_line: Option<String>,
    pub hide_caret: bool,
}

/// The content of a [`TraceLine`].
pub struct LineView {
    pub position: CodeRange,
    pub frame_name: Seq<char>,
    pub preview_line: Option<Seq<char>>,
    pub hide_caret: bool,
}

impl View for TraceLine {
    type V = LineView;

    open spec fn view(&self) -> LineView {
        LineView {
            position: self.position,
            frame_name: self.frame_name@,
            preview_line: text_view(self.preview_line),
            hide_caret: self.hide_caret,
        }
    }
}

/// An exception that a program did not handle, or that the host raises in a program.
#[derive(Debug)]
pub struct MontyException {
    pub exc_type: ExcType,
    pub message: Option<String>,
    /// Where the exception was raised, with the outermost call first.
    pub traceback: Vec<TraceLine>,
}

/// The content of a [`MontyException`].
#[verifier::ext_equal]
pub struct ExceptionInfo {
    pub exc_type: ExcType,
    pub message: Option<Seq<char>>,
    pub traceback: Seq<LineView>,
}

/// The content of an optional text.
pub open spec fn text_view(text: Option<String>) -> Option<Seq<char>> {
    match text {
        None => None,
        Some(t) => Some(t@),
    }
}

impl View for MontyException {
    type V = ExceptionInfo;

    open spec fn view(&self) -> ExceptionInfo {
        ExceptionInfo {
            exc_type: self.exc_type,
            message: text_view(self.message),
            traceback: self.traceback@.map_values(|l: TraceLine| l@),
        }
    }
}

/// The line of the source text that a position starts in.
pub open spec fn preview(source: Seq<char>, position: CodeRange) -> Option<Seq<char>> {
    nth_line(source, position.start_line as nat)
}

/// The lines of a traceback, with the outermost call first.
pub open spec fn trace_lines(frame: RawStackFrame, interns: Interns, source: Seq<char>) -> Seq<
    LineView,
>
    decreases frame,
{
    let line = LineView {
        position: frame.position,
        frame_name: interns.text(frame.frame_name),
        preview_line: preview(source, frame.position),
        hide_caret: frame.hide_caret,
    };
    match frame.parent {
        None => seq![line],
        Some(p) => trace_lines(*p, interns, source).push(line),
    }
}

impl RaiseView {
    /// The exception for the host, with lines of the source text in its traceback.
    pub open spec fn info(self, interns: Interns, source: Seq<char>) -> ExceptionInfo {
        ExceptionInfo {
            exc_type: self.exc.exc_type,
            message: match self.exc.message {
                None => None,
                Some(m) => Some(m.text(interns)),
            },
            traceback: match self.frame {
                None => Seq::empty(),
                Some(f) => trace_lines(f, interns, source),
            },
        }
    }
}

impl ExceptionInfo {
    /// A `RuntimeError` that comes from no place in the program.
    pub open spec fn runtime_error(message: Seq<char>) -> ExceptionInfo {
        ExceptionInfo {
            exc_type: ExcType::RuntimeError,
            message: Some(message),
            traceback: Seq::empty(),
        }
    }
}

impl ErrorView {
    /// The exception for the host; a broken rule is a `RuntimeError`.
    pub open spec fn info(self, interns: Interns, source: Seq<char>) -> ExceptionInfo {
        match self {
            ErrorView::Internal(f) => ExceptionInfo::runtime_error(
                MessageView::Fault(f).text(interns),
            ),
            ErrorView::Exc(e) => e.info(interns, source),
            ErrorView::UncatchableExc(e) => e.info(interns, source),
        }
    }
}

/// Every line of a traceback shows the line of the source text that its position starts in.
pub proof fn traceback_shows_source(frame: RawStackFrame, interns: Interns, source: Seq<char>)
    ensures
        forall|i: int|
            0 <= i < trace_lines(frame, interns, source).len() ==> (#[trigger] trace_lines(
                frame,
                interns,
                source,
            )[i]).preview_line == preview(source, trace_lines(frame, interns, source)[i].position),
    decreases frame,
{
    if let Some(p) = frame.parent {
        traceback_shows_source(*p, interns, source);
    }
}

fn collect_lines(frame: &RawStackFrame, interns: &Interns, source: &str) -> (r: Vec<TraceLine>)
    ensures
        r@.map_values(|l: TraceLine| l@) == trace_lines(*frame, *interns, source@),
    decreases frame,
{
    let mut lines: Vec<TraceLine> = match &frame.parent {
        None => Vec::new(),
        Some(p) => collect_lines(p, interns, source),
    };
    let ghost before = lines@;
    lines.push(
        TraceLine {
            position: frame.position,
            frame_name: interns.get_str(frame.frame_name).to_owned(),
            preview_line: find_line(source, frame.position.start_line),
            hide_caret: frame.hide_caret,
        },
    );
    assert(lines@.map_values(|l: TraceLine| l@) =~= before.map_values(|l: TraceLine| l@).push(
        lines@.last()@,
    ));
    assert(lines@.map_values(|l: TraceLine| l@) =~= trace_lines(*frame, *interns, source@));
    lines
}

impl MontyException {
    /// A `RuntimeError` that comes from no place in the program.
    pub fn runtime_error(message: String) -> (r: Self)
        ensures
            r@ == ExceptionInfo::runtime_error(message@),
    {
        let r: MontyException = MontyException {
            exc_type: ExcType::RuntimeError,
            message: Some(message),
            traceback: Vec::new(),
        };
        assert(r@.traceback =~= Seq::empty());
        r
    }

    fn of_raise(raise: ExceptionRaise, interns: &Interns, source: &str) -> (r: Self)
        ensures
            r@ == raise@.info(*interns, source@),
    {
        let message: Option<String> = match &raise.exc.message {
            None => None,
            Some(m) => Some(m.to_text(interns)),
        };
        let traceback: Vec<TraceLine> = match &raise.frame {
            None => Vec::new(),
            Some(f) => collect_lines(f, interns, source),
        };
        let r: MontyException = MontyException { exc_type: raise.exc.exc_type, message, traceback };
        assert(r@ =~= raise@.info(*interns, source@));
        r
    }
}

impl RunError {
    /// The exception for the host. The lines of its traceback show the source text.
    pub fn into_python_exception(self, interns: &Interns, source: &str) -> (r: MontyException)
        ensures
            r@ == self@.info(*interns, source@),
    {
        match self {
            RunError::Internal(f) => MontyException::runtime_error(
                Message::Fault(f).to_text(interns),
            ),
            RunError::Exc(e) => MontyException::of_raise(e, interns, source),
            RunError::UncatchableExc(e) => MontyException::of_raise(e, interns, source),
        }
    }
}

impl FromSpecImpl<MontyException> for RunError {
    open spec fn obeys_from_spec() -> bool {
        true
    }

    open spec fn from_spec(exc: MontyException) -> RunError {
        RunError::Exc(
            ExceptionRaise {
                exc: SimpleException {
                    exc_type: exc.exc_type,
                    message: match exc.message {
                        None => None,
                        Some(text) => Some(Message::Text(text)),
                    },
                },
                frame: None,
                hide_caret: false,
            },
        )
    }
}

impl From<MontyException> for RunError {
    /// The host raises an exception in the program; it gets its traceback there.
    fn from(exc: MontyException) -> (r: RunError) {
        let message: Option<Message> = match exc.message {
            None => None,
            Some(text) => Some(Message::Text(text)),
        };
        RunError::Exc(
            ExceptionRaise {
                exc: SimpleException { exc_type: exc.exc_type, message },
                frame: None,
                hide_caret: false,
            },
        )
    }
}

} // verus!
