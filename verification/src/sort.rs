//! `list.sort`.
//!
//! A sort is a job that goes on by itself as long as its key function is carried out in
//! this crate. When it is not, the job hands the call out and goes on with its result.

use vstd::prelude::*;
use crate::args::{drop_option, release_option, scan_two_keywords, ArgValues, ArgsView};
use crate::builtins::{BuiltinCall, Builtins, CallView};
use crate::equality::truth;
use crate::error::{outcome, Callee, ErrorView, Fault, RunError, RunResult};
use crate::heap::{DataView, Heap, HeapData, HeapView};
use crate::ids::HeapId;
use crate::interns::Interns;
use crate::list::List;
use crate::ordering::{arrange, SortBy};
use crate::print::PrintWriter;
use crate::resource::ResourceTracker;
use crate::types::{ExcType, Type};
use crate::value::Value;

verus! {

/// A sort under way: the items are out of the list, and some of their keys are known.
#[derive(Debug)]
pub struct SortJob {
    pub list_id: HeapId,
    pub items: Vec<Value>,
    pub keys: Vec<Value>,
    pub key_fn: Option<Value>,
    pub reverse: bool,
}

/// The content of a [`SortJob`].
#[verifier::ext_equal]
pub struct SortView {
    pub list_id: HeapId,
    pub items: Seq<Value>,
    pub keys: Seq<Value>,
    pub key_fn: Option<Value>,
    pub reverse: bool,
}

impl View for SortJob {
    type V = SortView;

    open spec fn view(&self) -> SortView {
        SortView {
            list_id: self.list_id,
            items: self.items@,
            keys: self.keys@,
            key_fn: self.key_fn,
            reverse: self.reverse,
        }
    }
}

/// How a sort goes on.
#[derive(Debug)]
pub enum SortStep {
    /// The sort is done.
    Done(RunResult<()>),
    /// The key of the next item is the result of this call.
    NeedsKey(SortJob, Builtins, ArgValues),
}

/// How the call of a key function goes on.
#[derive(Debug)]
pub enum KeyCall {
    Done(RunResult<Value>),
    Elsewhere(Builtins, ArgValues),
}

/// What calling a key function on an item leads to.
///
/// Builtin functions and types can be key functions. Functions of the program cannot, and
/// nothing else can be called at all; the item is given up then.
pub open spec fn key_called<W: PrintWriter, T: ResourceTracker>(
    state: W::State,
    h: HeapView<T>,
    interns: Interns,
    key_fn: Value,
    item: Value,
) -> CallView<W::State, T> {
    let args = ArgsView { pos: seq![item], pairs: Seq::empty() };
    match key_fn {
        Value::Builtin(b) if !(b is ExcType) => b.called::<W, T>(state, h, args, interns),
        Value::DefFunction(_) | Value::ExtFunction(_) | Value::Ref(_) => CallView::Done {
            state,
            heap: h.release(item),
            result: Err(ErrorView::fault(ExcType::TypeError, Fault::SortKeyUserFunction)),
        },
        _ => CallView::Done {
            state,
            heap: h.release(item),
            result: Err(ErrorView::fault(ExcType::TypeError, Fault::SortKeyNotCallable)),
        },
    }
}

/// Why finding keys stopped.
pub enum Stop {
    /// There are no more keys to find.
    Complete,
    /// A key function failed.
    Failed(ErrorView),
    /// The key of this item has to be found elsewhere.
    Elsewhere(Builtins, Value),
}

/// How far finding keys has come.
pub struct Progress<S, T> {
    pub job: SortView,
    pub state: S,
    pub heap: HeapView<T>,
    pub stop: Stop,
}

/// How far finding keys comes without help.
pub open spec fn keys_found<W: PrintWriter, T: ResourceTracker>(
    job: SortView,
    state: W::State,
    h: HeapView<T>,
    interns: Interns,
) -> Progress<W::State, T>
    decreases job.items.len() - job.keys.len(),
{
    if job.key_fn is None || job.keys.len() >= job.items.len() {
        Progress { job, state, heap: h, stop: Stop::Complete }
    } else {
        let item = job.items[job.keys.len() as int];
        let key_fn = job.key_fn->0;
        match key_called::<W, T>(state, h.inc_value(item), interns, key_fn, item) {
            CallView::Elsewhere => Progress {
                job,
                state,
                heap: h.inc_value(item),
                stop: Stop::Elsewhere(key_fn->Builtin_0, item),
            },
            CallView::Done { state: s, heap, result } => match result {
                Err(e) => Progress { job, state: s, heap, stop: Stop::Failed(e) },
                Ok(key) => keys_found::<W, T>(
                    SortView { keys: job.keys.push(key), ..job },
                    s,
                    heap,
                    interns,
                ),
            },
        }
    }
}

/// The heap once items are back in their list, if that is still there.
pub open spec fn put_back<T>(h: HeapView<T>, id: HeapId, items: Seq<Value>) -> HeapView<T> {
    match h.data(id) {
        Some(DataView::List(l)) => h.set_data(
            id,
            Some(DataView::List(l.with_items(l.items + items))),
        ),
        _ => h,
    }
}

/// The heap once a sort is given up: keys and key function are released, and the items are
/// back in their old order.
pub open spec fn abandoned<T>(h: HeapView<T>, job: SortView) -> HeapView<T> {
    put_back(release_option(h.release_values(job.keys), job.key_fn), job.list_id, job.items)
}

/// The values a sort goes by.
pub open spec fn sorted_by(job: SortView) -> Seq<Value> {
    if job.key_fn is Some {
        job.keys
    } else {
        job.items
    }
}

/// The items in a new arrangement.
pub open spec fn rearranged(items: Seq<Value>, positions: Seq<usize>) -> Seq<Value> {
    Seq::new(positions.len(), |i: int| items[positions[i] as int])
}

/// The heap a sort compares its values in: the key function is given up.
pub open spec fn sort_compared<T>(job: SortView, h: HeapView<T>) -> HeapView<T> {
    release_option(h, job.key_fn)
}

/// The heap once a sort has compared its values and its keys are given up.
pub open spec fn sort_released<T>(job: SortView, h: HeapView<T>) -> HeapView<T> {
    if job.key_fn is Some {
        sort_compared(job, h).release_values(job.keys)
    } else {
        sort_compared(job, h)
    }
}

/// What a sort whose keys are all known leads to.
///
/// If all the values it goes by can be compared, the items are put back in the one stable
/// sorted order. If not, the items are back in their old order, and the error names the
/// types of two values that cannot be compared.
pub open spec fn sort_finished<T>(
    job: SortView,
    h: HeapView<T>,
    interns: Interns,
    result: Result<(), ErrorView>,
    after: HeapView<T>,
) -> bool {
    let compared = sort_compared(job, h);
    let released = sort_released(job, h);
    let s = SortBy { heap: compared, interns, values: sorted_by(job), reverse: job.reverse };
    if s.sortable() {
        if released.data(job.list_id) is Some && released.data(job.list_id)->0 is List {
            result == Ok::<(), ErrorView>(()) && exists|p: Seq<usize>| #[trigger]
                s.sorts(p) && after == put_back(released, job.list_id, rearranged(job.items, p))
        } else {
            result == Err::<(), ErrorView>(ErrorView::Internal(Fault::SortExpectedList)) && after
                == released
        }
    } else {
        &&& after == put_back(released, job.list_id, job.items)
        &&& exists|a: int, b: int|
            0 <= a < s.values.len() && 0 <= b < s.values.len() && a != b && #[trigger] s.direction(
                a,
                b,
            ) is None && result == Err::<(), ErrorView>(
                ErrorView::fault(
                    ExcType::TypeError,
                    Fault::Unorderable(
                        compared.type_of(s.values[a]),
                        compared.type_of(s.values[b]),
                    ),
                ),
            )
    }
}

/// Whether a sort went on as it is said to.
pub open spec fn sort_went_on<W: PrintWriter, T: ResourceTracker>(
    job: SortView,
    state: W::State,
    h: HeapView<T>,
    interns: Interns,
    step: SortStep,
    state_after: W::State,
    after: HeapView<T>,
) -> bool {
    let p = keys_found::<W, T>(job, state, h, interns);
    &&& state_after == p.state
    &&& match p.stop {
        Stop::Complete => step matches SortStep::Done(r) && sort_finished(
            p.job,
            p.heap,
            interns,
            outcome(r),
            after,
        ),
        Stop::Failed(e) => (step matches SortStep::Done(Err(f)) && f@ == e) && after
            == abandoned(p.heap, p.job),
        Stop::Elsewhere(b, item) => (step matches SortStep::NeedsKey(j, c, args) && j@ == p.job
            && j@.keys.len() < j@.items.len() && c == b && args@ == (ArgsView { pos: seq![item], pairs: Seq::empty() })) && after
            == p.heap,
    }
}

/// What starting to sort a list leads to: the job, or why there is none.
pub struct Started<T> {
    pub heap: HeapView<T>,
    pub result: Result<SortView, ErrorView>,
}

/// How a sort starts: the keyword arguments are read, and the items are taken out of the
/// list.
pub open spec fn sort_started<T>(
    h: HeapView<T>,
    list_id: HeapId,
    args: ArgsView,
    interns: Interns,
) -> Started<T> {
    let scan = scan_two_keywords(
        h,
        interns,
        Callee::ListSort,
        "key"@,
        "reverse"@,
        args.pairs,
        args.pairs.len() as int,
    );
    if args.pos.len() != 0 {
        Started {
            heap: h.release_args(args),
            result: Err(
                ErrorView::fault(
                    ExcType::TypeError,
                    Fault::ArgCount {
                        callee: Callee::ListSort,
                        expected: 0,
                        got: args.pos.len() as usize,
                    },
                ),
            ),
        }
    } else {
        match scan.error {
            Some(e) => Started {
                heap: release_option(release_option(scan.heap, scan.first), scan.second),
                result: Err(e),
            },
            None => {
                let reverse = match scan.second {
                    None => false,
                    Some(v) => truth(scan.heap, interns, v),
                };
                let heap = release_option(scan.heap, scan.second);
                let key_fn = if scan.first == Some(Value::PyNone) {
                    None
                } else {
                    scan.first
                };
                match heap.data(list_id) {
                    Some(DataView::List(l)) => Started {
                        heap: heap.set_data(
                            list_id,
                            Some(DataView::List(l.with_items(Seq::empty()))),
                        ),
                        result: Ok(
                            SortView {
                                list_id,
                                items: l.items,
                                keys: Seq::empty(),
                                key_fn,
                                reverse,
                            },
                        ),
                    },
                    _ => Started {
                        heap: release_option(heap, key_fn),
                        result: Err(ErrorView::Internal(Fault::SortExpectedList)),
                    },
                }
            },
        }
    }
}

/// Whether a list was sorted as it is said to be, as far as that comes without help.
pub open spec fn sort_called<W: PrintWriter, T: ResourceTracker>(
    h: HeapView<T>,
    interns: Interns,
    list_id: HeapId,
    args: ArgsView,
    state: W::State,
    step: SortStep,
    state_after: W::State,
    after: HeapView<T>,
) -> bool {
    let started = sort_started(h, list_id, args, interns);
    match started.result {
        Err(e) => (step matches SortStep::Done(Err(f)) && f@ == e) && after == started.heap
            && state_after == state,
        Ok(job) => sort_went_on::<W, T>(
            job,
            state,
            started.heap,
            interns,
            step,
            state_after,
            after,
        ),
    }
}

/// Puts items back into their list; says whether it is still there.
fn restore<T>(heap: &mut Heap<T>, id: HeapId, items: Vec<Value>) -> (r: bool)
    ensures
        r == (old(heap)@.data(id) is Some && old(heap)@.data(id)->0 is List),
        final(heap)@ == put_back(old(heap)@, id, items@),
{
    let ghost before = heap@;
    let mut added: Vec<Value> = items;
    match heap.take_data(id) {
        None => {
            assert(heap@.entries =~= before.entries);
            false
        },
        Some(HeapData::List(l)) => {
            let mut list: List = l;
            let ghost shown = list@;
            list.items.append(&mut added);
            assert(list@ =~= shown.with_items(shown.items + items@));
            heap.put_data(id, HeapData::List(list));
            assert(heap@.entries =~= put_back(before, id, items@).entries);
            true
        },
        Some(d) => {
            heap.put_data(id, d);
            assert(heap@.entries =~= before.entries);
            false
        },
    }
}

/// Calls a key function on an item.
fn call_key_function<W: PrintWriter, T: ResourceTracker>(
    key_fn: Value,
    item: Value,
    heap: &mut Heap<T>,
    interns: &Interns,
    print: &mut W,
) -> (r: KeyCall)
    ensures
        match key_called::<W, T>(old(print).state(), old(heap)@, *interns, key_fn, item) {
            CallView::Done { state, heap: after, result } => (r matches KeyCall::Done(x)
                && outcome(x) == result) && final(print).state() == state && final(heap)@ == after,
            CallView::Elsewhere => (r matches KeyCall::Elsewhere(b, args) && Value::Builtin(b)
                == key_fn && args@ == (ArgsView { pos: seq![item], pairs: Seq::empty() }))
                && final(print).state() == old(print).state() && final(heap)@ == old(heap)@,
        },
{
    match key_fn {
        Value::Builtin(Builtins::Function(b)) => match b.call(
            heap,
            ArgValues::One(item),
            interns,
            print,
        ) {
            BuiltinCall::Done(x) => KeyCall::Done(x),
            BuiltinCall::Elsewhere(c, args) => KeyCall::Elsewhere(c, args),
        },
        Value::Builtin(Builtins::Type(t)) => match Builtins::Type(t).call(
            heap,
            ArgValues::One(item),
            interns,
            print,
        ) {
            BuiltinCall::Done(x) => KeyCall::Done(x),
            BuiltinCall::Elsewhere(c, args) => KeyCall::Elsewhere(c, args),
        },
        Value::DefFunction(_) | Value::ExtFunction(_) | Value::Ref(_) => {
            item.drop_with_heap(heap);
            KeyCall::Done(Err(RunError::type_error(Fault::SortKeyUserFunction)))
        },
        _ => {
            item.drop_with_heap(heap);
            KeyCall::Done(Err(RunError::type_error(Fault::SortKeyNotCallable)))
        },
    }
}

fn abandon<T>(job: SortJob, heap: &mut Heap<T>)
    ensures
        final(heap)@ == abandoned(old(heap)@, job@),
{
    heap.drop_values(job.keys.as_slice());
    drop_option(job.key_fn, heap);
    let _ = restore(heap, job.list_id, job.items);
}

/// Sorts once every key is known.
fn finish_sort<T>(job: SortJob, heap: &mut Heap<T>, interns: &Interns) -> (r: RunResult<()>)
    requires
        job.key_fn is Some ==> job.keys@.len() == job.items@.len(),
    ensures
        sort_finished(job@, old(heap)@, *interns, outcome(r), final(heap)@),
{
    drop_option(job.key_fn, heap);
    let ghost compared = heap@;
    let ghost s = SortBy {
        heap: compared,
        interns: *interns,
        values: sorted_by(job@),
        reverse: job.reverse,
    };
    let keyed: bool = job.key_fn.is_some();
    let by: &Vec<Value> = if keyed {
        &job.keys
    } else {
        &job.items
    };
    let arranged: Result<Vec<usize>, (usize, usize)> = arrange(by, job.reverse, heap, interns);
    match arranged {
        Err((a, b)) => {
            let left: Type = by[a].py_type(heap);
            let right: Type = by[b].py_type(heap);
            if keyed {
                heap.drop_values(job.keys.as_slice());
            }
            let _ = restore(heap, job.list_id, job.items);
            assert(s.direction(a as int, b as int) is None);
            Err(RunError::type_error(Fault::Unorderable(left, right)))
        },
        Ok(positions) => {
            if keyed {
                heap.drop_values(job.keys.as_slice());
            }
            let mut sorted: Vec<Value> = Vec::new();
            let mut i: usize = 0;
            while i < positions.len()
                invariant
                    0 <= i <= positions@.len(),
                    forall|k: int|
                        0 <= k < positions@.len() ==> (#[trigger] positions@[k])
                            < job.items@.len(),
                    sorted@.len() == i,
                    forall|k: int|
                        0 <= k < i ==> #[trigger] sorted@[k] == job.items@[positions@[k] as int],
                decreases positions@.len() - i,
            {
                assert(positions@[i as int] < job.items@.len());
                sorted.push(job.items[positions[i]]);
                i = i + 1;
            }
            assert(sorted@ =~= rearranged(job.items@, positions@));
            assert(s.sorts(positions@));
            if restore(heap, job.list_id, sorted) {
                Ok(())
            } else {
                Err(RunError::internal(Fault::SortExpectedList))
            }
        },
    }
}

/// Goes on with a sort: finds the keys that can be found here and sorts if that is all.
fn run_sort<W: PrintWriter, T: ResourceTracker>(
    job: SortJob,
    heap: &mut Heap<T>,
    interns: &Interns,
    print: &mut W,
) -> (r: SortStep)
    requires
        job.keys@.len() <= job.items@.len(),
    ensures
        sort_went_on::<W, T>(
            job@,
            old(print).state(),
            old(heap)@,
            *interns,
            r,
            final(print).state(),
            final(heap)@,
        ),
{
    let ghost said = keys_found::<W, T>(job@, print.state(), heap@, *interns);
    let mut going: SortJob = job;
    if let Some(key_fn) = going.key_fn {
        while going.keys.len() < going.items.len()
            invariant
                going.key_fn == Some(key_fn),
                going.keys@.len() <= going.items@.len(),
                said == keys_found::<W, T>(job@, old(print).state(), old(heap)@, *interns),
                said == keys_found::<W, T>(going@, print.state(), heap@, *interns),
            decreases going.items@.len() - going.keys@.len(),
        {
            let ghost shown = going@;
            let item: Value = going.items[going.keys.len()].clone_with_heap(heap);
            match call_key_function(key_fn, item, heap, interns, print) {
                KeyCall::Elsewhere(b, args) => {
                    return SortStep::NeedsKey(going, b, args);
                },
                KeyCall::Done(Err(e)) => {
                    abandon(going, heap);
                    return SortStep::Done(Err(e));
                },
                KeyCall::Done(Ok(key)) => {
                    going.keys.push(key);
                    assert(going@ =~= (SortView { keys: shown.keys.push(key), ..shown }));
                },
            }
        }
    }
    SortStep::Done(finish_sort(going, heap, interns))
}

/// Sorts a list in place.
///
/// `key` is called on each item and the results are compared instead; `reverse` turns the
/// order round. Equal items keep their order either way.
pub fn do_list_sort<W: PrintWriter, T: ResourceTracker>(
    list_id: HeapId,
    args: ArgValues,
    heap: &mut Heap<T>,
    interns: &Interns,
    print: &mut W,
) -> (r: SortStep)
    ensures
        sort_called::<W, T>(
            old(heap)@,
            *interns,
            list_id,
            args@,
            old(print).state(),
            r,
            final(print).state(),
            final(heap)@,
        ),
{
    let (key_arg, reverse_arg): (Option<Value>, Option<Value>) = match args.extract_two_kwargs_only(
        Callee::ListSort,
        "key",
        "reverse",
        heap,
        interns,
    ) {
        Err(e) => {
            return SortStep::Done(Err(e));
        },
        Ok(found) => found,
    };
    let reverse: bool = match reverse_arg {
        None => false,
        Some(v) => {
            let set: bool = v.py_bool(heap, interns);
            v.drop_with_heap(heap);
            set
        },
    };
    let key_fn: Option<Value> = match key_arg {
        Some(Value::PyNone) => None,
        other => other,
    };
    let ghost before = heap@;
    match heap.take_data(list_id) {
        Some(HeapData::List(l)) => {
            let mut list: List = l;
            let mut items: Vec<Value> = Vec::new();
            let ghost shown = list@;
            std::mem::swap(&mut items, &mut list.items);
            assert(list@ =~= shown.with_items(Seq::empty()));
            heap.put_data(list_id, HeapData::List(list));
            assert(heap@.entries =~= before.set_data(
                list_id,
                Some(DataView::List(shown.with_items(Seq::empty()))),
            ).entries);
            let job: SortJob = SortJob { list_id, items, keys: Vec::new(), key_fn, reverse };
            assert(job@ =~= SortView {
                list_id,
                items: shown.items,
                keys: Seq::empty(),
                key_fn,
                reverse,
            });
            run_sort(job, heap, interns, print)
        },
        Some(d) => {
            heap.put_data(list_id, d);
            assert(heap@.entries =~= before.entries);
            drop_option(key_fn, heap);
            SortStep::Done(Err(RunError::internal(Fault::SortExpectedList)))
        },
        None => {
            assert(heap@.entries =~= before.entries);
            drop_option(key_fn, heap);
            SortStep::Done(Err(RunError::internal(Fault::SortExpectedList)))
        },
    }
}

/// Goes on with a sort that waits for the key of its next item.
pub fn resume_list_sort<W: PrintWriter, T: ResourceTracker>(
    job: SortJob,
    key: RunResult<Value>,
    heap: &mut Heap<T>,
    interns: &Interns,
    print: &mut W,
) -> (r: SortStep)
    requires
        job.keys@.len() < job.items@.len(),
    ensures
        match key {
            Err(e) => (r matches SortStep::Done(Err(f)) && f == e) && final(heap)@ == abandoned(
                old(heap)@,
                job@,
            ) && final(print).state() == old(print).state(),
            Ok(v) => sort_went_on::<W, T>(
                (SortView { keys: job@.keys.push(v), ..job@ }),
                old(print).state(),
                old(heap)@,
                *interns,
                r,
                final(print).state(),
                final(heap)@,
            ),
        },
{
    match key {
        Err(e) => {
            abandon(job, heap);
            SortStep::Done(Err(e))
        },
        Ok(v) => {
            let mut job: SortJob = job;
            let ghost shown = job@;
            job.keys.push(v);
            assert(job@ =~= (SortView { keys: shown.keys.push(v), ..shown }));
            run_sort(job, heap, interns, print)
        },
    }
}

} // verus!
