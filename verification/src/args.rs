//! Arguments of calls.

use vstd::prelude::*;
use crate::containers::Dict;
use crate::equality::{as_string, string};
use crate::error::{Callee, ErrorView, Fault, Message, MessageView, RunError, RunResult};
use crate::heap::{pair_values, pair_values_push, Heap, HeapView};
use crate::ids::StringId;
use crate::interns::Interns;
use crate::types::ExcType;
use crate::value::Value;

verus! {

/// Keyword arguments.
#[derive(Debug)]
pub enum KwargsValues {
    Empty,
    /// Arguments whose names are literals of the program.
    Inline(Vec<(StringId, Value)>),
    /// Arguments unpacked from a dict.
    Dict(Dict),
}

/// The arguments of a call.
#[derive(Debug)]
pub enum ArgValues {
    Empty,
    One(Value),
    Two(Value, Value),
    Kwargs(KwargsValues),
    ArgsKargs { args: Vec<Value>, kwargs: KwargsValues },
}

impl View for KwargsValues {
    type V = Seq<(Value, Value)>;

    /// The names, as values, and what is passed for them.
    open spec fn view(&self) -> Seq<(Value, Value)> {
        match self {
            KwargsValues::Empty => Seq::empty(),
            KwargsValues::Inline(pairs) => pairs@.map_values(
                |p: (StringId, Value)| (Value::InternString(p.0), p.1),
            ),
            KwargsValues::Dict(d) => d.entries@,
        }
    }
}

/// The content of [`ArgValues`].
#[verifier::ext_equal]
pub struct ArgsView {
    pub pos: Seq<Value>,
    pub pairs: Seq<(Value, Value)>,
}

impl View for ArgValues {
    type V = ArgsView;

    open spec fn view(&self) -> ArgsView {
        match self {
            ArgValues::Empty => ArgsView { pos: Seq::empty(), pairs: Seq::empty() },
            ArgValues::One(a) => ArgsView { pos: seq![*a], pairs: Seq::empty() },
            ArgValues::Two(a, b) => ArgsView { pos: seq![*a, *b], pairs: Seq::empty() },
            ArgValues::Kwargs(k) => ArgsView { pos: Seq::empty(), pairs: k@ },
            ArgValues::ArgsKargs { args, kwargs } => ArgsView { pos: args@, pairs: kwargs@ },
        }
    }
}

impl<T> HeapView<T> {
    /// The heap after the names and values of keyword arguments are given up, in order.
    pub open spec fn release_pairs(self, pairs: Seq<(Value, Value)>) -> HeapView<T> {
        self.release_values(pair_values(pairs))
    }

    /// The heap after arguments are given up, the positional ones first.
    pub open spec fn release_args(self, args: ArgsView) -> HeapView<T> {
        self.release_values(args.pos).release_pairs(args.pairs)
    }
}

impl KwargsValues {
    /// The names and values as pairs.
    pub fn into_pairs(self) -> (r: Vec<(Value, Value)>)
        ensures
            r@ == self@,
    {
        match self {
            KwargsValues::Empty => Vec::new(),
            KwargsValues::Dict(d) => d.entries,
            KwargsValues::Inline(pairs) => {
                let mut out: Vec<(Value, Value)> = Vec::new();
                let mut i: usize = 0;
                while i < pairs.len()
                    invariant
                        0 <= i <= pairs@.len(),
                        out@.len() == i,
                        forall|j: int|
                            0 <= j < i ==> #[trigger] out@[j] == (
                                Value::InternString(pairs@[j].0),
                                pairs@[j].1,
                            ),
                    decreases pairs@.len() - i,
                {
                    let (name, value): (StringId, Value) = pairs[i];
                    out.push((Value::InternString(name), value));
                    i = i + 1;
                }
                assert(out@ =~= KwargsValues::Inline(pairs)@);
                out
            },
        }
    }

    /// Gives up every name and value.
    pub fn drop_with_heap<T>(self, heap: &mut Heap<T>)
        ensures
            final(heap)@ == old(heap)@.release_pairs(self@),
    {
        let pairs: Vec<(Value, Value)> = self.into_pairs();
        heap.drop_pairs(pairs.as_slice());
    }
}

impl<T> Heap<T> {
    /// Gives up the keys and values of pairs, in order.
    pub fn drop_pairs(&mut self, pairs: &[(Value, Value)])
        ensures
            final(self)@ == old(self)@.release_pairs(pairs@),
    {
        let mut flat: Vec<Value> = Vec::new();
        let mut i: usize = 0;
        while i < pairs.len()
            invariant
                0 <= i <= pairs@.len(),
                flat@ == pair_values(pairs@.take(i as int)),
            decreases pairs@.len() - i,
        {
            let (k, v): (Value, Value) = pairs[i];
            proof {
                pair_values_push(pairs@.take(i as int), (k, v));
                assert(pairs@.take(i + 1) =~= pairs@.take(i as int).push((k, v)));
            }
            flat.push(k);
            flat.push(v);
            i = i + 1;
        }
        assert(pairs@.take(i as int) =~= pairs@);
        self.drop_values(flat.as_slice());
    }
}

impl ArgValues {
    /// The positional arguments and the keyword arguments.
    pub fn into_parts(self) -> (r: (Vec<Value>, KwargsValues))
        ensures
            r.0@ == self@.pos,
            r.1@ == self@.pairs,
    {
        match self {
            ArgValues::Empty => (Vec::new(), KwargsValues::Empty),
            ArgValues::One(a) => {
                let args: Vec<Value> = vec![a];
                assert(args@ =~= seq![a]);
                (args, KwargsValues::Empty)
            },
            ArgValues::Two(a, b) => {
                let args: Vec<Value> = vec![a, b];
                assert(args@ =~= seq![a, b]);
                (args, KwargsValues::Empty)
            },
            ArgValues::Kwargs(k) => (Vec::new(), k),
            ArgValues::ArgsKargs { args, kwargs } => (args, kwargs),
        }
    }

    /// Gives up every argument.
    pub fn drop_with_heap<T>(self, heap: &mut Heap<T>)
        ensures
            final(heap)@ == old(heap)@.release_args(self@),
    {
        let (args, kwargs): (Vec<Value>, KwargsValues) = self.into_parts();
        heap.drop_values(args.as_slice());
        kwargs.drop_with_heap(heap);
    }
}

/// Why arguments do not fit a function that takes only positional ones.
pub open spec fn positional_error(
    args: ArgsView,
    callee: Callee,
    min: usize,
    max: usize,
) -> Option<ErrorView> {
    let got = args.pos.len() as usize;
    if args.pairs.len() != 0 {
        Some(ErrorView::fault(ExcType::TypeError, Fault::NoKeywords(callee)))
    } else if min <= got <= max {
        None
    } else if min == max {
        Some(
            ErrorView::fault(ExcType::TypeError, Fault::ArgCount { callee, expected: min, got }),
        )
    } else if got < min {
        Some(
            ErrorView::fault(ExcType::TypeError, Fault::ArgsAtLeast { callee, expected: min, got }),
        )
    } else {
        Some(
            ErrorView::fault(ExcType::TypeError, Fault::ArgsAtMost { callee, expected: max, got }),
        )
    }
}

impl ArgValues {
    /// The positional arguments, if there are between `min` and `max` of them and no others.
    ///
    /// Otherwise every argument is given up.
    pub fn get_positional<T>(
        self,
        callee: Callee,
        min: usize,
        max: usize,
        heap: &mut Heap<T>,
    ) -> (r: RunResult<Vec<Value>>)
        ensures
            r matches Ok(args) ==> args@ == self@.pos && positional_error(self@, callee, min, max)
                is None && final(heap)@ == old(heap)@,
            r matches Err(e) ==> positional_error(self@, callee, min, max) == Some(e@)
                && final(heap)@ == old(heap)@.release_args(self@),
    {
        let (args, kwargs): (Vec<Value>, KwargsValues) = self.into_parts();
        let pairs: Vec<(Value, Value)> = kwargs.into_pairs();
        let got: usize = args.len();
        if pairs.len() == 0 && min <= got && got <= max {
            return Ok(args);
        }
        let fault: Fault = if pairs.len() != 0 {
            Fault::NoKeywords(callee)
        } else if min == max {
            Fault::ArgCount { callee, expected: min, got }
        } else if got < min {
            Fault::ArgsAtLeast { callee, expected: min, got }
        } else {
            Fault::ArgsAtMost { callee, expected: max, got }
        };
        heap.drop_values(args.as_slice());
        heap.drop_pairs(pairs.as_slice());
        Err(RunError::type_error(fault))
    }

    /// Checks that there are no arguments.
    pub fn check_zero_args<T>(self, callee: Callee, heap: &mut Heap<T>) -> (r: RunResult<()>)
        ensures
            r is Ok ==> positional_error(self@, callee, 0, 0) is None && final(heap)@ == old(
                heap,
            )@,
            r matches Err(e) ==> positional_error(self@, callee, 0, 0) == Some(e@)
                && final(heap)@ == old(heap)@.release_args(self@),
    {
        match self.get_positional(callee, 0, 0, heap) {
            Ok(_) => Ok(()),
            Err(e) => Err(e),
        }
    }

    /// The only argument.
    pub fn get_one_arg<T>(self, callee: Callee, heap: &mut Heap<T>) -> (r: RunResult<Value>)
        ensures
            r matches Ok(v) ==> self@.pos == seq![v] && positional_error(self@, callee, 1, 1)
                is None && final(heap)@ == old(heap)@,
            r matches Err(e) ==> positional_error(self@, callee, 1, 1) == Some(e@)
                && final(heap)@ == old(heap)@.release_args(self@),
    {
        match self.get_positional(callee, 1, 1, heap) {
            Ok(args) => {
                assert(args@ =~= seq![args@[0]]);
                Ok(args[0])
            },
            Err(e) => Err(e),
        }
    }

    /// The only two arguments.
    pub fn get_two_args<T>(
        self,
        callee: Callee,
        heap: &mut Heap<T>,
    ) -> (r: RunResult<(Value, Value)>)
        ensures
            r matches Ok(v) ==> self@.pos == seq![v.0, v.1] && positional_error(self@, callee, 2, 2)
                is None && final(heap)@ == old(heap)@,
            r matches Err(e) ==> positional_error(self@, callee, 2, 2) == Some(e@)
                && final(heap)@ == old(heap)@.release_args(self@),
    {
        match self.get_positional(callee, 2, 2, heap) {
            Ok(args) => {
                assert(args@ =~= seq![args@[0], args@[1]]);
                Ok((args[0], args[1]))
            },
            Err(e) => Err(e),
        }
    }

    /// The only argument, if there is one.
    pub fn get_zero_one_arg<T>(
        self,
        callee: Callee,
        heap: &mut Heap<T>,
    ) -> (r: RunResult<Option<Value>>)
        ensures
            r matches Ok(v) ==> self@.pos == (match v {
                None => Seq::empty(),
                Some(x) => seq![x],
            }) && positional_error(self@, callee, 0, 1) is None && final(heap)@ == old(heap)@,
            r matches Err(e) ==> positional_error(self@, callee, 0, 1) == Some(e@)
                && final(heap)@ == old(heap)@.release_args(self@),
    {
        match self.get_positional(callee, 0, 1, heap) {
            Ok(args) => if args.len() == 0 {
                assert(args@ =~= Seq::empty());
                Ok(None)
            } else {
                assert(args@ =~= seq![args@[0]]);
                Ok(Some(args[0]))
            },
            Err(e) => Err(e),
        }
    }

    /// The positional arguments, however many, if there are no others.
    pub fn into_pos_only<T>(self, callee: Callee, heap: &mut Heap<T>) -> (r: RunResult<Vec<Value>>)
        ensures
            r matches Ok(args) ==> args@ == self@.pos && self@.pairs.len() == 0 && final(heap)@
                == old(heap)@,
            r matches Err(e) ==> self@.pairs.len() != 0 && e@ == ErrorView::fault(
                ExcType::TypeError,
                Fault::NoKeywords(callee),
            ) && final(heap)@ == old(heap)@.release_args(self@),
    {
        self.get_positional(callee, 0, usize::MAX, heap)
    }
}

/// Two keyword arguments found among others so far.
pub struct KeywordScan<T> {
    pub first: Option<Value>,
    pub second: Option<Value>,
    pub error: Option<ErrorView>,
    pub heap: HeapView<T>,
}

/// The heap once an earlier value for the same keyword is given up.
pub open spec fn release_option<T>(h: HeapView<T>, v: Option<Value>) -> HeapView<T> {
    match v {
        None => h,
        Some(x) => h.release(x),
    }
}

/// What is known after the first `n` keyword arguments have been looked at.
///
/// Once something is wrong, the remaining names and values are only given up.
pub open spec fn scan_two_keywords<T>(
    h: HeapView<T>,
    interns: Interns,
    callee: Callee,
    one: Seq<char>,
    two: Seq<char>,
    pairs: Seq<(Value, Value)>,
    n: int,
) -> KeywordScan<T>
    decreases n,
{
    if n <= 0 {
        KeywordScan { first: None, second: None, error: None, heap: h }
    } else {
        let before = scan_two_keywords(h, interns, callee, one, two, pairs, n - 1);
        let (key, value) = pairs[n - 1];
        let name = string(before.heap, interns, key);
        if before.error is Some {
            KeywordScan { heap: before.heap.release(key).release(value), ..before }
        } else if name is None {
            KeywordScan {
                error: Some(ErrorView::fault(ExcType::TypeError, Fault::KeywordsMustBeStrings)),
                heap: before.heap.release(key).release(value),
                ..before
            }
        } else if name == Some(one) {
            KeywordScan {
                first: Some(value),
                heap: release_option(before.heap.release(key), before.first),
                ..before
            }
        } else if name == Some(two) {
            KeywordScan {
                second: Some(value),
                heap: release_option(before.heap.release(key), before.second),
                ..before
            }
        } else {
            KeywordScan {
                error: Some(
                    ErrorView::raised(
                        ExcType::TypeError,
                        MessageView::UnexpectedKeyword(callee, name->0),
                    ),
                ),
                heap: before.heap.release(key).release(value),
                ..before
            }
        }
    }
}

/// Gives up a value, if there is one.
pub(crate) fn drop_option<T>(v: Option<Value>, heap: &mut Heap<T>)
    ensures
        final(heap)@ == release_option(old(heap)@, v),
{
    if let Some(x) = v {
        x.drop_with_heap(heap);
    }
}

impl ArgValues {
    /// The values of two keyword-only arguments of a function that takes nothing else.
    pub fn extract_two_kwargs_only<T>(
        self,
        callee: Callee,
        one: &str,
        two: &str,
        heap: &mut Heap<T>,
        interns: &Interns,
    ) -> (r: RunResult<(Option<Value>, Option<Value>)>)
        ensures
            ({
                let scan = scan_two_keywords(
                    old(heap)@,
                    *interns,
                    callee,
                    one@,
                    two@,
                    self@.pairs,
                    self@.pairs.len() as int,
                );
                if self@.pos.len() != 0 {
                    r matches Err(e) && e@ == ErrorView::fault(
                        ExcType::TypeError,
                        Fault::ArgCount {
                            callee,
                            expected: 0,
                            got: self@.pos.len() as usize,
                        },
                    ) && final(heap)@ == old(heap)@.release_args(self@)
                } else {
                    match scan.error {
                        None => r == Ok::<_, RunError>((scan.first, scan.second)) && final(heap)@
                            == scan.heap,
                        Some(e) => (r matches Err(f) && f@ == e) && final(heap)@ == release_option(
                            release_option(scan.heap, scan.first),
                            scan.second,
                        ),
                    }
                }
            }),
    {
        let (args, kwargs): (Vec<Value>, KwargsValues) = self.into_parts();
        let pairs: Vec<(Value, Value)> = kwargs.into_pairs();
        if args.len() != 0 {
            let got: usize = args.len();
            heap.drop_values(args.as_slice());
            heap.drop_pairs(pairs.as_slice());
            return Err(RunError::type_error(Fault::ArgCount { callee, expected: 0, got }));
        }
        let one_text: String = one.to_owned();
        let two_text: String = two.to_owned();
        let mut first: Option<Value> = None;
        let mut second: Option<Value> = None;
        let mut error: Option<RunError> = None;
        let mut i: usize = 0;
        while i < pairs.len()
            invariant
                0 <= i <= pairs@.len(),
                one_text@ == one@,
                two_text@ == two@,
                ({
                    let scan = scan_two_keywords(
                        old(heap)@,
                        *interns,
                        callee,
                        one@,
                        two@,
                        pairs@,
                        i as int,
                    );
                    &&& first == scan.first
                    &&& second == scan.second
                    &&& error is Some <==> scan.error is Some
                    &&& error matches Some(e) ==> scan.error == Some(e@)
                    &&& heap@ == scan.heap
                }),
            decreases pairs@.len() - i,
        {
            let (key, value): (Value, Value) = pairs[i];
            i = i + 1;
            if error.is_some() {
                key.drop_with_heap(heap);
                value.drop_with_heap(heap);
                continue;
            }
            match as_string(key, heap, interns) {
                None => {
                    key.drop_with_heap(heap);
                    value.drop_with_heap(heap);
                    error = Some(RunError::type_error(Fault::KeywordsMustBeStrings));
                },
                Some(name) => {
                    key.drop_with_heap(heap);
                    if name == one_text {
                        drop_option(first, heap);
                        first = Some(value);
                    } else if name == two_text {
                        drop_option(second, heap);
                        second = Some(value);
                    } else {
                        value.drop_with_heap(heap);
                        error = Some(
                            RunError::message(
                                ExcType::TypeError,
                                Message::UnexpectedKeyword(callee, name),
                            ),
                        );
                    }
                },
            }
        }
        match error {
            None => Ok((first, second)),
            Some(e) => {
                drop_option(first, heap);
                drop_option(second, heap);
                Err(e)
            },
        }
    }
}

} // verus!
