//! The builtin `print`.

use vstd::prelude::*;
use crate::args::{ArgValues, ArgsView, KwargsValues};
use crate::equality::{as_string, string};
use crate::error::{
    outcome, Callee, ErrorView, Fault, Message, MessageView, PrintOption, RunError, RunResult,
};
use crate::heap::{Heap, HeapView};
use crate::interns::Interns;
use crate::repr::str_of;
use crate::resource::{DepthGuard, MAX_DATA_DEPTH};
use crate::types::ExcType;
use crate::value::Value;

verus! {

/// Where printed text goes.
///
/// The spec functions describe how a writer's state changes with the text handed to it and
/// which text it refuses; an implementation proves that its executable methods follow them.
pub trait PrintWriter: Sized {
    /// What is known of the writer.
    type State;

    /// The state the writer is in.
    spec fn state(&self) -> Self::State;

    /// The state after some text has been handed over.
    spec fn after(state: Self::State, text: Seq<char>) -> Self::State;

    /// Whether text is accepted.
    spec fn verdict(state: Self::State, text: Seq<char>) -> Result<(), ErrorView>;

    /// Hands over some text.
    fn stdout_write(&mut self, text: &str) -> (r: RunResult<()>)
        ensures
            final(self).state() == Self::after(old(self).state(), text@),
            outcome(r) == Self::verdict(old(self).state(), text@),
    ;

    /// Hands over one character.
    fn stdout_push(&mut self, end: char) -> (r: RunResult<()>)
        ensures
            final(self).state() == Self::after(old(self).state(), seq![end]),
            outcome(r) == Self::verdict(old(self).state(), seq![end]),
    ;
}

/// Forgets what is printed.
#[derive(Debug)]
pub struct NoPrint;

impl PrintWriter for NoPrint {
    type State = ();

    open spec fn state(&self) -> () {
        ()
    }

    open spec fn after(state: (), text: Seq<char>) -> () {
        ()
    }

    open spec fn verdict(state: (), text: Seq<char>) -> Result<(), ErrorView> {
        Ok(())
    }

    fn stdout_write(&mut self, text: &str) -> (r: RunResult<()>) {
        Ok(())
    }

    fn stdout_push(&mut self, end: char) -> (r: RunResult<()>) {
        Ok(())
    }
}

/// Collects what is printed.
#[derive(Debug)]
pub struct CollectStringPrint {
    pub text: String,
}

impl CollectStringPrint {
    pub fn new() -> (r: Self)
        ensures
            r.text@ == Seq::<char>::empty(),
    {
        CollectStringPrint { text: String::new() }
    }

    /// What has been printed.
    pub fn output(&self) -> (r: &str)
        ensures
            r@ == self.text@,
    {
        self.text.as_str()
    }
}

impl PrintWriter for CollectStringPrint {
    type State = Seq<char>;

    open spec fn state(&self) -> Seq<char> {
        self.text@
    }

    open spec fn after(state: Seq<char>, text: Seq<char>) -> Seq<char> {
        state + text
    }

    open spec fn verdict(state: Seq<char>, text: Seq<char>) -> Result<(), ErrorView> {
        Ok(())
    }

    fn stdout_write(&mut self, text: &str) -> (r: RunResult<()>) {
        self.text.append(text);
        Ok(())
    }

    fn stdout_push(&mut self, end: char) -> (r: RunResult<()>) {
        self.text.push(end);
        assert(self.text@ =~= old(self).text@ + seq![end]);
        Ok(())
    }
}

/// What is known of the keyword arguments of `print`.
pub struct PrintOptions<T> {
    pub sep: Option<Seq<char>>,
    pub end: Option<Seq<char>>,
    pub error: Option<ErrorView>,
    pub heap: HeapView<T>,
}

/// The text an argument of `print` sets; `None` stands for an empty text.
pub open spec fn option_text<T>(
    h: HeapView<T>,
    interns: Interns,
    option: PrintOption,
    v: Value,
) -> Result<Seq<char>, ErrorView> {
    if v is PyNone {
        Ok(Seq::empty())
    } else {
        match string(h, interns, v) {
            Some(s) => Ok(s),
            None => Err(
                ErrorView::fault(
                    ExcType::TypeError,
                    Fault::PrintOptionType(option, h.type_of(v)),
                ),
            ),
        }
    }
}

/// What is known after the first `n` keyword arguments of `print` have been looked at.
///
/// `sep` and `end` take a string or `None`, `flush` is ignored, and anything else is an
/// error. Once something is wrong, the rest is only given up.
pub open spec fn print_options<T>(
    h: HeapView<T>,
    interns: Interns,
    pairs: Seq<(Value, Value)>,
    n: int,
) -> PrintOptions<T>
    decreases n,
{
    if n <= 0 {
        PrintOptions { sep: None, end: None, error: None, heap: h }
    } else {
        let before = print_options(h, interns, pairs, n - 1);
        let (key, value) = pairs[n - 1];
        let heap = before.heap.release(key).release(value);
        let name = string(before.heap, interns, key);
        if before.error is Some {
            PrintOptions { heap, ..before }
        } else if name is None {
            PrintOptions {
                error: Some(ErrorView::fault(ExcType::TypeError, Fault::KeywordsMustBeStrings)),
                heap,
                ..before
            }
        } else if name == Some("sep"@) {
            match option_text(before.heap, interns, PrintOption::Sep, value) {
                Ok(sep) => PrintOptions { sep: Some(sep), heap, ..before },
                Err(e) => PrintOptions { error: Some(e), heap, ..before },
            }
        } else if name == Some("end"@) {
            match option_text(before.heap, interns, PrintOption::End, value) {
                Ok(end) => PrintOptions { end: Some(end), heap, ..before },
                Err(e) => PrintOptions { error: Some(e), heap, ..before },
            }
        } else if name == Some("flush"@) {
            PrintOptions { heap, ..before }
        } else if name == Some("file"@) {
            PrintOptions {
                error: Some(ErrorView::fault(ExcType::TypeError, Fault::PrintFile)),
                heap,
                ..before
            }
        } else {
            PrintOptions {
                error: Some(
                    ErrorView::raised(
                        ExcType::TypeError,
                        MessageView::UnexpectedKeyword(Callee::Print, name->0),
                    ),
                ),
                heap,
                ..before
            }
        }
    }
}

/// How far printing has come.
pub struct Printing<S, T> {
    pub state: S,
    pub heap: HeapView<T>,
    pub result: Result<(), ErrorView>,
}

/// What handing text to a writer leads to.
pub open spec fn handed<W: PrintWriter, T>(
    before: Printing<W::State, T>,
    text: Seq<char>,
) -> Printing<W::State, T> {
    if before.result is Err {
        before
    } else {
        Printing {
            state: W::after(before.state, text),
            result: W::verdict(before.state, text),
            ..before
        }
    }
}

/// What printing the first `n` values leads to.
///
/// Each value is given up once it is printed. A writer that refuses text ends it at once;
/// what has not been printed then stays counted.
pub open spec fn printed_values<W: PrintWriter, T>(
    state: W::State,
    h: HeapView<T>,
    interns: Interns,
    sep: Seq<char>,
    values: Seq<Value>,
    n: int,
) -> Printing<W::State, T>
    decreases n,
{
    if n <= 0 {
        Printing { state, heap: h, result: Ok(()) }
    } else {
        let before = printed_values::<W, T>(state, h, interns, sep, values, n - 1);
        let apart = if n == 1 {
            before
        } else {
            handed::<W, T>(before, sep)
        };
        let shown = handed::<W, T>(
            apart,
            str_of(apart.heap, interns, values[n - 1], MAX_DATA_DEPTH as nat),
        );
        if shown.result is Err {
            shown
        } else {
            Printing { heap: shown.heap.release(values[n - 1]), ..shown }
        }
    }
}

/// A text, or what stands in for it.
pub open spec fn text_or(text: Option<Seq<char>>, default: Seq<char>) -> Seq<char> {
    match text {
        Some(t) => t,
        None => default,
    }
}

/// What a call of `print` leads to.
pub open spec fn print_called<W: PrintWriter, T>(
    state: W::State,
    h: HeapView<T>,
    args: ArgsView,
    interns: Interns,
) -> Printing<W::State, T> {
    let options = print_options(h, interns, args.pairs, args.pairs.len() as int);
    match options.error {
        Some(e) => Printing {
            state,
            heap: options.heap.release_values(args.pos),
            result: Err(e),
        },
        None => handed::<W, T>(
            printed_values::<W, T>(
                state,
                options.heap,
                interns,
                text_or(options.sep, seq![' ']),
                args.pos,
                args.pos.len() as int,
            ),
            text_or(options.end, seq!['\n']),
        ),
    }
}

/// The text of an optional string.
pub open spec fn optional_text(s: Option<String>) -> Option<Seq<char>> {
    match s {
        None => None,
        Some(t) => Some(t@),
    }
}

fn extract_string_kwarg<T>(
    value: &Value,
    option: PrintOption,
    heap: &Heap<T>,
    interns: &Interns,
) -> (r: RunResult<String>)
    ensures
        match (r, option_text(heap@, *interns, option, *value)) {
            (Ok(s), Ok(t)) => s@ == t,
            (Err(e), Err(f)) => e@ == f,
            _ => false,
        },
{
    if let Value::PyNone = *value {
        return Ok(String::new());
    }
    match as_string(*value, heap, interns) {
        Some(s) => Ok(s),
        None => Err(RunError::type_error(Fault::PrintOptionType(option, value.py_type(heap)))),
    }
}

fn is_text(s: &String, known: &str) -> (r: bool)
    ensures
        r == (s@ == known@),
{
    *s == known.to_owned()
}

fn extract_print_kwargs<T>(kwargs: KwargsValues, heap: &mut Heap<T>, interns: &Interns) -> (r:
    RunResult<(Option<String>, Option<String>)>)
    ensures
        ({
            let said = print_options(old(heap)@, *interns, kwargs@, kwargs@.len() as int);
            &&& final(heap)@ == said.heap
            &&& match (r, said.error) {
                (Ok((sep, end)), None) => optional_text(sep) == said.sep && optional_text(end)
                    == said.end,
                (Err(e), Some(f)) => e@ == f,
                _ => false,
            }
        }),
{
    let pairs: Vec<(Value, Value)> = kwargs.into_pairs();
    let mut sep: Option<String> = None;
    let mut end: Option<String> = None;
    let mut error: Option<RunError> = None;
    let mut i: usize = 0;
    while i < pairs.len()
        invariant
            0 <= i <= pairs@.len(),
            ({
                let said = print_options(old(heap)@, *interns, pairs@, i as int);
                &&& heap@ == said.heap
                &&& optional_text(sep) == said.sep
                &&& optional_text(end) == said.end
                &&& error is Some <==> said.error is Some
                &&& error matches Some(e) ==> said.error == Some(e@)
            }),
        decreases pairs@.len() - i,
    {
        let (key, value): (Value, Value) = pairs[i];
        i = i + 1;
        if error.is_none() {
            match as_string(key, heap, interns) {
                None => {
                    error = Some(RunError::type_error(Fault::KeywordsMustBeStrings));
                },
                Some(name) => {
                    if is_text(&name, "sep") {
                        match extract_string_kwarg(&value, PrintOption::Sep, heap, interns) {
                            Ok(custom_sep) => {
                                sep = Some(custom_sep);
                            },
                            Err(e) => {
                                error = Some(e);
                            },
                        }
                    } else if is_text(&name, "end") {
                        match extract_string_kwarg(&value, PrintOption::End, heap, interns) {
                            Ok(custom_end) => {
                                end = Some(custom_end);
                            },
                            Err(e) => {
                                error = Some(e);
                            },
                        }
                    } else if is_text(&name, "flush") {
                    } else if is_text(&name, "file") {
                        error = Some(RunError::type_error(Fault::PrintFile));
                    } else {
                        error = Some(
                            RunError::message(
                                ExcType::TypeError,
                                Message::UnexpectedKeyword(Callee::Print, name),
                            ),
                        );
                    }
                },
            }
        }
        key.drop_with_heap(heap);
        value.drop_with_heap(heap);
    }
    match error {
        Some(e) => Err(e),
        None => Ok((sep, end)),
    }
}

/// A printing that has failed stays as it is.
proof fn failed_print_ends<W: PrintWriter, T>(
    state: W::State,
    h: HeapView<T>,
    interns: Interns,
    sep: Seq<char>,
    values: Seq<Value>,
    k: int,
    n: int,
)
    requires
        0 <= k <= n,
        printed_values::<W, T>(state, h, interns, sep, values, k).result is Err,
    ensures
        printed_values::<W, T>(state, h, interns, sep, values, n) == printed_values::<W, T>(
            state,
            h,
            interns,
            sep,
            values,
            k,
        ),
    decreases n - k,
{
    if k < n {
        failed_print_ends::<W, T>(state, h, interns, sep, values, k, n - 1);
    }
}

/// Prints the positional arguments.
///
/// `sep` is put between them and `end` behind them; `flush` is accepted and ignored.
pub fn builtin_print<W: PrintWriter, T>(
    heap: &mut Heap<T>,
    args: ArgValues,
    interns: &Interns,
    print: &mut W,
) -> (r: RunResult<Value>)
    ensures
        ({
            let said = print_called::<W, T>(old(print).state(), old(heap)@, args@, *interns);
            &&& final(print).state() == said.state
            &&& final(heap)@ == said.heap
            &&& outcome(r) == (match said.result {
                Ok(()) => Ok(Value::PyNone),
                Err(e) => Err(e),
            })
        }),
{
    let (positional, kwargs): (Vec<Value>, KwargsValues) = args.into_parts();
    let (sep, end): (Option<String>, Option<String>) = match extract_print_kwargs(
        kwargs,
        heap,
        interns,
    ) {
        Ok(found) => found,
        Err(e) => {
            heap.drop_values(positional.as_slice());
            return Err(e);
        },
    };
    let ghost state = print.state();
    let ghost start = heap@;
    let ghost apart = text_or(optional_text(sep), seq![' ']);
    let ghost n = positional@.len() as int;
    let mut guard: DepthGuard = DepthGuard::default();
    let mut i: usize = 0;
    while i < positional.len()
        invariant
            0 <= i <= positional@.len(),
            n == positional@.len(),
            guard.depth == 0,
            apart == text_or(optional_text(sep), seq![' ']),
            ({
                let said = printed_values::<W, T>(
                    state,
                    start,
                    *interns,
                    apart,
                    positional@,
                    i as int,
                );
                &&& print.state() == said.state
                &&& heap@ == said.heap
                &&& said.result == Ok::<(), ErrorView>(())
            }),
            ({
                let options = print_options(
                    old(heap)@,
                    *interns,
                    args@.pairs,
                    args@.pairs.len() as int,
                );
                &&& options.error is None
                &&& options.heap == start
                &&& text_or(options.sep, seq![' ']) == apart
            }),
            args@.pos == positional@,
            state == old(print).state(),
        decreases positional@.len() - i,
    {
        let value: Value = positional[i];
        if i > 0 {
            let handed_over: RunResult<()> = match &sep {
                Some(s) => print.stdout_write(s.as_str()),
                None => print.stdout_push(' '),
            };
            if let Err(e) = handed_over {
                proof {
                    failed_print_ends::<W, T>(
                        state,
                        start,
                        *interns,
                        apart,
                        positional@,
                        i + 1,
                        n,
                    );
                }
                return Err(e);
            }
        }
        let text: String = value.py_str(heap, &mut guard, interns);
        if let Err(e) = print.stdout_write(text.as_str()) {
            proof {
                failed_print_ends::<W, T>(
                    state,
                    start,
                    *interns,
                    apart,
                    positional@,
                    i + 1,
                    n,
                );
            }
            return Err(e);
        }
        value.drop_with_heap(heap);
        i = i + 1;
    }
    let handed_over: RunResult<()> = match &end {
        Some(s) => print.stdout_write(s.as_str()),
        None => print.stdout_push('\n'),
    };
    match handed_over {
        Ok(()) => Ok(Value::PyNone),
        Err(e) => Err(e),
    }
}

} // verus!
