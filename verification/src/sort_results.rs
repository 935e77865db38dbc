//! What sorting a list gives, item by item.

use vstd::prelude::*;
use crate::args::{scan_two_keywords, ArgsView};
use crate::builtins::Builtins;
use crate::equality::{string, text_order_from};
use crate::equality_laws::{is_integer, is_text};
use crate::error::{outcome, Callee, ErrorView};
use crate::error_results::says;
use crate::heap::{DataView, HeapView};
use crate::ids::{HeapId, StringId};
use crate::interns::Interns;
use crate::list::ListView;
use crate::list_results::raises;
use crate::long_int::Order;
use crate::ordering::{arrangement_has_no_duplicates, text_order_flips, SortBy};
use crate::print::PrintWriter;
use crate::resource::ResourceTracker;
use crate::sort::{abandoned, keys_found, rearranged, sort_called, sort_started, sort_went_on, SortStep, SortView};
use crate::types::ExcType;
use crate::value::Value;

verus! {

/// Whether keyword arguments of `sort` ask for this direction and for no key function.
pub open spec fn asks_for_direction(
    interns: Interns,
    pairs: Seq<(Value, Value)>,
    reverse: bool,
) -> bool {
    ||| pairs.len() == 0 && !reverse
    ||| {
        &&& pairs.len() == 1
        &&& pairs[0].0 matches Value::InternString(name)
        &&& interns.text(name) == "reverse"@
        &&& pairs[0].1 == Value::Bool(reverse)
    }
}

/// Whether a list has the items of another one in a new order, where `from` says which place
/// each item had.
pub open spec fn reordered(items: Seq<Value>, now: Seq<Value>, from: Seq<usize>) -> bool {
    &&& now.len() == items.len()
    &&& from.len() == items.len()
    &&& forall|i: int|
        0 <= i < now.len() ==> (#[trigger] from[i]) < items.len() && now[i] == items[from[i] as int]
    &&& forall|i: int, j: int| 0 <= i < j < from.len() ==> #[trigger] from[i] != #[trigger] from[j]
}

/// Whether numbers, read in this order, do not go down, or up if `reverse`; equal ones stay as
/// they were.
pub open spec fn numbers_in_order(numbers: Seq<int>, from: Seq<usize>, reverse: bool) -> bool {
    forall|i: int, j: int|
        0 <= i < j < from.len() ==> {
            let a = numbers[(#[trigger] from[i]) as int];
            let b = numbers[(#[trigger] from[j]) as int];
            &&& if reverse {
                a >= b
            } else {
                a <= b
            }
            &&& a == b ==> from[i] < from[j]
        }
}

/// Whether a text comes before another one: it has the smaller character at the first
/// difference, or ends where the other goes on.
pub open spec fn comes_first(a: Seq<char>, b: Seq<char>, k: int) -> bool {
    &&& 0 <= k < b.len()
    &&& k <= a.len()
    &&& forall|i: int| 0 <= i < k ==> a[i] == b[i]
    &&& k < a.len() ==> (a[k] as int) < (b[k] as int)
}

/// Whether a text does not come before another one.
pub open spec fn not_first(a: Seq<char>, b: Seq<char>) -> bool {
    forall|k: int| !(#[trigger] comes_first(a, b, k))
}

/// Whether texts, read in this order, do not go down, or up if `reverse`; equal ones stay as
/// they were.
pub open spec fn texts_in_order(texts: Seq<Seq<char>>, from: Seq<usize>, reverse: bool) -> bool {
    forall|i: int, j: int|
        0 <= i < j < from.len() ==> {
            let a = texts[(#[trigger] from[i]) as int];
            let b = texts[(#[trigger] from[j]) as int];
            &&& reverse ==> not_first(a, b)
            &&& !reverse ==> not_first(b, a)
            &&& a == b ==> from[i] < from[j]
        }
}

proof fn directions_are_read<T>(
    h: HeapView<T>,
    interns: Interns,
    pairs: Seq<(Value, Value)>,
    reverse: bool,
)
    requires
        asks_for_direction(interns, pairs, reverse),
    ensures
        ({
            let scan = scan_two_keywords(
                h,
                interns,
                Callee::ListSort,
                "key"@,
                "reverse"@,
                pairs,
                pairs.len() as int,
            );
            &&& scan.error is None
            &&& scan.first is None
            &&& scan.heap == h
            &&& if pairs.len() == 0 {
                scan.second is None
            } else {
                scan.second == Some(Value::Bool(reverse))
            }
        }),
{
    reveal_strlit("key");
    reveal_strlit("reverse");
    reveal_with_fuel(scan_two_keywords, 2);
    if pairs.len() == 1 {
        assert("key"@.len() != "reverse"@.len());
    }
}

proof fn other_objects_stay<T>(h: HeapView<T>, id: HeapId, data: DataView, x: HeapId)
    requires
        x != id,
    ensures
        h.set_data(id, Some(data)).data(x) == h.data(x),
{
}

/// A text that comes before another one is ordered so, from any place up to the difference on.
pub proof fn first_difference(a: Seq<char>, b: Seq<char>, from: nat, k: int)
    requires
        comes_first(a, b, k),
        from <= k,
    ensures
        text_order_from(a, b, from) == Order::Less,
    decreases k - from,
{
    if from < k {
        first_difference(a, b, from + 1, k);
    }
}

proof fn equal_order_means_same(a: Seq<char>, b: Seq<char>, from: nat)
    requires
        a == b,
    ensures
        text_order_from(a, b, from) == Order::Equal,
    decreases a.len() - from,
{
    if from < a.len() {
        equal_order_means_same(a, b, from + 1);
    }
}

/// Sorting integers puts them in order, from the smallest to the largest or, reversed, from the
/// largest to the smallest. Equal items keep their order either way, and no item is lost.
pub proof fn integers_are_sorted<W: PrintWriter, T: ResourceTracker>(
    h: HeapView<T>,
    interns: Interns,
    id: HeapId,
    list: ListView,
    numbers: Seq<int>,
    pairs: Seq<(Value, Value)>,
    reverse: bool,
    state: W::State,
    step: SortStep,
    state_after: W::State,
    after: HeapView<T>,
)
    requires
        h.data(id) == Some(DataView::List(list)),
        numbers.len() == list.items.len(),
        forall|i: int|
            0 <= i < numbers.len() ==> is_integer(
                h,
                interns,
                #[trigger] list.items[i],
                numbers[i],
            ),
        asks_for_direction(interns, pairs, reverse),
        sort_called::<W, T>(
            h,
            interns,
            id,
            (ArgsView { pos: Seq::empty(), pairs }),
            state,
            step,
            state_after,
            after,
        ),
    ensures
        step matches SortStep::Done(Ok(())),
        state_after == state,
        after.data(id) matches Some(DataView::List(now)) && exists|from: Seq<usize>| #[trigger]
            reordered(list.items, now.items, from) && numbers_in_order(numbers, from, reverse),
{
    directions_are_read(h, interns, pairs, reverse);
    let taken = h.set_data(id, Some(DataView::List(list.with_items(Seq::empty()))));
    let job = SortView {
        list_id: id,
        items: list.items,
        keys: Seq::empty(),
        key_fn: None,
        reverse,
    };
    let s = SortBy { heap: taken, interns, values: list.items, reverse };
    assert forall|i: int| 0 <= i < list.items.len() implies is_integer(
        taken,
        interns,
        #[trigger] list.items[i],
        numbers[i],
    ) by {
        if let Value::Ref(x) = list.items[i] {
            other_objects_stay(h, id, DataView::List(list.with_items(Seq::empty())), x);
        }
    }
    assert(s.sortable());
    assert(keys_found::<W, T>(job, state, taken, interns).stop is Complete);
    let p = choose|p: Seq<usize>| #[trigger]
        s.sorts(p) && after == crate::sort::put_back(taken, id, rearranged(list.items, p));
    arrangement_has_no_duplicates(s, p);
    let now = after.data(id)->0->List_0;
    assert(now.items =~= rearranged(list.items, p));
    assert(numbers_in_order(numbers, p, reverse)) by {
        assert forall|i: int, j: int| 0 <= i < j < p.len() implies s.before(
            (#[trigger] p[i]) as int,
            (#[trigger] p[j]) as int,
        ) by {}
    }
    assert(reordered(list.items, now.items, p));
}

/// Sorting texts puts them in order. Equal items keep their order, and no item is lost.
pub proof fn texts_are_sorted<W: PrintWriter, T: ResourceTracker>(
    h: HeapView<T>,
    interns: Interns,
    id: HeapId,
    list: ListView,
    texts: Seq<Seq<char>>,
    pairs: Seq<(Value, Value)>,
    reverse: bool,
    state: W::State,
    step: SortStep,
    state_after: W::State,
    after: HeapView<T>,
)
    requires
        h.data(id) == Some(DataView::List(list)),
        texts.len() == list.items.len(),
        forall|i: int|
            0 <= i < texts.len() ==> is_text(h, interns, #[trigger] list.items[i], texts[i]),
        asks_for_direction(interns, pairs, reverse),
        sort_called::<W, T>(
            h,
            interns,
            id,
            (ArgsView { pos: Seq::empty(), pairs }),
            state,
            step,
            state_after,
            after,
        ),
    ensures
        step matches SortStep::Done(Ok(())),
        state_after == state,
        after.data(id) matches Some(DataView::List(now)) && exists|from: Seq<usize>| #[trigger]
            reordered(list.items, now.items, from) && texts_in_order(texts, from, reverse),
{
    directions_are_read(h, interns, pairs, reverse);
    let taken = h.set_data(id, Some(DataView::List(list.with_items(Seq::empty()))));
    let job = SortView {
        list_id: id,
        items: list.items,
        keys: Seq::empty(),
        key_fn: None,
        reverse,
    };
    let s = SortBy { heap: taken, interns, values: list.items, reverse };
    assert forall|i: int| 0 <= i < list.items.len() implies is_text(
        taken,
        interns,
        #[trigger] list.items[i],
        texts[i],
    ) by {
        if let Value::Ref(x) = list.items[i] {
            other_objects_stay(h, id, DataView::List(list.with_items(Seq::empty())), x);
        }
    }
    assert forall|i: int| 0 <= i < s.values.len() implies string(
        s.heap,
        s.interns,
        #[trigger] s.values[i],
    ) == Some(texts[i]) by {
        assert(is_text(taken, interns, list.items[i], texts[i]));
    }
    assert(s.sortable());
    assert(keys_found::<W, T>(job, state, taken, interns).stop is Complete);
    let p = choose|p: Seq<usize>| #[trigger]
        s.sorts(p) && after == crate::sort::put_back(taken, id, rearranged(list.items, p));
    arrangement_has_no_duplicates(s, p);
    let now = after.data(id)->0->List_0;
    assert(now.items =~= rearranged(list.items, p));
    assert forall|i: int, j: int| 0 <= i < j < p.len() implies {
        let a = texts[(#[trigger] p[i]) as int];
        let b = texts[(#[trigger] p[j]) as int];
        &&& reverse ==> not_first(a, b)
        &&& !reverse ==> not_first(b, a)
        &&& a == b ==> p[i] < p[j]
    } by {
        let a = texts[p[i] as int];
        let b = texts[p[j] as int];
        assert(s.before(p[i] as int, p[j] as int));
        text_order_flips(a, b, 0);
        assert forall|k: int| #[trigger] comes_first(a, b, k) implies !reverse by {
            first_difference(a, b, 0, k);
        }
        assert forall|k: int| #[trigger] comes_first(b, a, k) implies reverse by {
            first_difference(b, a, 0, k);
        }
        if a == b {
            equal_order_means_same(a, b, 0);
        }
    }
    assert(texts_in_order(texts, p, reverse));
    assert(reordered(list.items, now.items, p));
}

/// A list that has both integers and texts cannot be sorted: its items are back as they were.
pub proof fn mixed_items_are_not_sorted<W: PrintWriter, T: ResourceTracker>(
    h: HeapView<T>,
    interns: Interns,
    id: HeapId,
    list: ListView,
    i: int,
    number: int,
    j: int,
    text: Seq<char>,
    pairs: Seq<(Value, Value)>,
    reverse: bool,
    state: W::State,
    step: SortStep,
    state_after: W::State,
    after: HeapView<T>,
)
    requires
        h.data(id) == Some(DataView::List(list)),
        0 <= i < list.items.len(),
        0 <= j < list.items.len(),
        is_integer(h, interns, list.items[i], number),
        is_text(h, interns, list.items[j], text),
        asks_for_direction(interns, pairs, reverse),
        sort_called::<W, T>(
            h,
            interns,
            id,
            (ArgsView { pos: Seq::empty(), pairs }),
            state,
            step,
            state_after,
            after,
        ),
    ensures
        step matches SortStep::Done(r) && raises(outcome(r), ExcType::TypeError),
        after.data(id) matches Some(DataView::List(now)) && now.items == list.items,
{
    directions_are_read(h, interns, pairs, reverse);
    let taken = h.set_data(id, Some(DataView::List(list.with_items(Seq::empty()))));
    let job = SortView {
        list_id: id,
        items: list.items,
        keys: Seq::empty(),
        key_fn: None,
        reverse,
    };
    let s = SortBy { heap: taken, interns, values: list.items, reverse };
    if let Value::Ref(x) = list.items[i] {
        other_objects_stay(h, id, DataView::List(list.with_items(Seq::empty())), x);
    }
    if let Value::Ref(x) = list.items[j] {
        other_objects_stay(h, id, DataView::List(list.with_items(Seq::empty())), x);
    }
    assert(s.values[i] != s.values[j]);
    assert(!s.sortable());
    assert(keys_found::<W, T>(job, state, taken, interns).stop is Complete);
    let none = list.with_items(Seq::empty());
    assert(none.items + list.items =~= list.items);
}

proof fn plain_values_are_not_counted<T>(h: HeapView<T>, values: Seq<Value>)
    requires
        forall|i: int| 0 <= i < values.len() ==> !((#[trigger] values[i]) is Ref),
    ensures
        h.release_values(values) == h,
    decreases values.len(),
{
    if values.len() > 0 {
        assert(!(values[values.len() - 1] is Ref));
        assert forall|i: int| 0 <= i < values.drop_last().len() implies !((
        #[trigger] values.drop_last()[i]) is Ref) by {
            assert(!(values[i] is Ref));
        }
        plain_values_are_not_counted(h, values.drop_last());
    }
}

/// Once all keys of a sort are known, its items are in the list again, in the order of their
/// keys.
pub proof fn items_are_sorted_by_their_keys<W: PrintWriter, T: ResourceTracker>(
    h: HeapView<T>,
    interns: Interns,
    list: ListView,
    job: SortView,
    numbers: Seq<int>,
    state: W::State,
    step: SortStep,
    state_after: W::State,
    after: HeapView<T>,
)
    requires
        h.data(job.list_id) == Some(DataView::List(list)),
        list.items.len() == 0,
        job.key_fn matches Some(f) && !(f is Ref),
        job.keys.len() == job.items.len(),
        numbers.len() == job.items.len(),
        forall|i: int|
            0 <= i < numbers.len() ==> !((#[trigger] job.keys[i]) is Ref) && is_integer(
                h,
                interns,
                job.keys[i],
                numbers[i],
            ),
        sort_went_on::<W, T>(job, state, h, interns, step, state_after, after),
    ensures
        step matches SortStep::Done(Ok(())),
        after.data(job.list_id) matches Some(DataView::List(now)) && exists|from: Seq<usize>|
            #[trigger]
            reordered(job.items, now.items, from) && numbers_in_order(numbers, from, job.reverse),
{
    let s = SortBy { heap: h, interns, values: job.keys, reverse: job.reverse };
    assert forall|i: int| 0 <= i < s.values.len() implies crate::equality::number(
        s.heap,
        s.interns,
        #[trigger] s.values[i],
    ) == Some(numbers[i]) by {
        assert(is_integer(h, interns, job.keys[i], numbers[i]));
    }
    assert(s.sortable());
    plain_values_are_not_counted(h, job.keys);
    assert(keys_found::<W, T>(job, state, h, interns).stop is Complete);
    let p = choose|p: Seq<usize>| #[trigger]
        s.sorts(p) && after == crate::sort::put_back(h, job.list_id, rearranged(job.items, p));
    arrangement_has_no_duplicates(s, p);
    let now = after.data(job.list_id)->0->List_0;
    assert(now.items =~= rearranged(job.items, p));
    assert(numbers_in_order(numbers, p, job.reverse)) by {
        assert forall|i: int, j: int| 0 <= i < j < p.len() implies s.before(
            (#[trigger] p[i]) as int,
            (#[trigger] p[j]) as int,
        ) by {}
    }
    assert(reordered(job.items, now.items, p));
}

/// A sort asks for the keys of its items one after the other: the next call has the first item
/// without a key as its one argument.
pub proof fn keys_are_asked_for_in_turn<W: PrintWriter, T: ResourceTracker>(
    h: HeapView<T>,
    interns: Interns,
    job: SortView,
    callee: Builtins,
    state: W::State,
    step: SortStep,
    state_after: W::State,
    after: HeapView<T>,
)
    requires
        job.key_fn == Some(Value::Builtin(callee)),
        !(callee is ExcType),
        job.keys.len() < job.items.len(),
        ({
            let item = job.items[job.keys.len() as int];
            let args = ArgsView { pos: seq![item], pairs: Seq::empty() };
            callee.called::<W, T>(state, h.inc_value(item), args, interns) is Elsewhere
        }),
        sort_went_on::<W, T>(job, state, h, interns, step, state_after, after),
    ensures
        step matches SortStep::NeedsKey(next, asked, args) && next@ == job && asked == callee
            && args@.pos.len() == 1 && args@.pos[0] == job.items[job.keys.len() as int]
            && args@.pairs.len() == 0,
        after == h.inc_value(job.items[job.keys.len() as int]),
{
}

/// A sort that fails leaves the items as they were.
pub proof fn abandoned_sort_changes_nothing<T>(h: HeapView<T>, list: ListView, job: SortView)
    requires
        h.data(job.list_id) == Some(DataView::List(list)),
        list.items.len() == 0,
        job.key_fn matches Some(f) ==> !(f is Ref),
        forall|i: int| 0 <= i < job.keys.len() ==> !((#[trigger] job.keys[i]) is Ref),
    ensures
        abandoned(h, job).data(job.list_id) matches Some(DataView::List(now)) && now.items
            == job.items,
{
    plain_values_are_not_counted(h, job.keys);
    assert(list.items + job.items =~= job.items);
}

/// `sort` takes no positional arguments.
pub proof fn sort_takes_no_values<W: PrintWriter, T: ResourceTracker>(
    h: HeapView<T>,
    interns: Interns,
    id: HeapId,
    args: ArgsView,
    state: W::State,
    step: SortStep,
    state_after: W::State,
    after: HeapView<T>,
)
    requires
        args.pos.len() > 0,
        sort_called::<W, T>(h, interns, id, args, state, step, state_after, after),
    ensures
        step matches SortStep::Done(r) && raises(outcome(r), ExcType::TypeError),
        state_after == state,
{
}

/// Of two keyword arguments that a function takes, each gets the value that was passed under its
/// name, whatever their order.
pub proof fn keywords_are_told_apart<T>(
    h: HeapView<T>,
    interns: Interns,
    callee: Callee,
    one: Seq<char>,
    two: Seq<char>,
    a: StringId,
    x: Value,
    b: StringId,
    y: Value,
)
    requires
        one != two,
        interns.text(a) == one,
        interns.text(b) == two,
    ensures
        ({
            let pairs = seq![(Value::InternString(a), x), (Value::InternString(b), y)];
            let scan = scan_two_keywords(h, interns, callee, one, two, pairs, 2);
            &&& scan.error is None
            &&& scan.first == Some(x)
            &&& scan.second == Some(y)
            &&& scan.heap == h
        }),
        ({
            let pairs = seq![(Value::InternString(b), y), (Value::InternString(a), x)];
            let scan = scan_two_keywords(h, interns, callee, one, two, pairs, 2);
            &&& scan.error is None
            &&& scan.first == Some(x)
            &&& scan.second == Some(y)
            &&& scan.heap == h
        }),
        ({
            let pairs = seq![(Value::InternString(a), x)];
            let scan = scan_two_keywords(h, interns, callee, one, two, pairs, 1);
            scan.error is None && scan.first == Some(x) && scan.second is None
        }),
        ({
            let pairs = seq![(Value::InternString(b), y)];
            let scan = scan_two_keywords(h, interns, callee, one, two, pairs, 1);
            scan.error is None && scan.first is None && scan.second == Some(y)
        }),
{
    reveal_with_fuel(scan_two_keywords, 3);
}

/// A keyword that a function does not take is a type error that names it.
pub proof fn other_keywords_are_refused<T>(
    h: HeapView<T>,
    interns: Interns,
    callee: Callee,
    one: Seq<char>,
    two: Seq<char>,
    name: StringId,
    v: Value,
)
    requires
        interns.text(name) != one,
        interns.text(name) != two,
    ensures
        ({
            let pairs = seq![(Value::InternString(name), v)];
            let scan = scan_two_keywords(h, interns, callee, one, two, pairs, 1);
            scan.error matches Some(e) && says(
                Err::<(), ErrorView>(e),
                ExcType::TypeError,
                callee.text() + "() got an unexpected keyword argument '"@ + interns.text(name)
                    + "'"@,
                interns,
            )
        }),
{
    reveal_with_fuel(scan_two_keywords, 2);
}

/// `sort` goes by the function that is passed as `key`; `None` stands for none. The items are out
/// of the list while the keys are found.
pub proof fn sort_goes_by_its_key<T>(
    h: HeapView<T>,
    interns: Interns,
    id: HeapId,
    list: ListView,
    name: StringId,
    key: Value,
)
    requires
        h.data(id) == Some(DataView::List(list)),
        interns.text(name) == "key"@,
    ensures
        ({
            let pairs = seq![(Value::InternString(name), key)];
            let args = ArgsView { pos: Seq::empty(), pairs };
            let started = sort_started(h, id, args, interns);
            &&& started.result matches Ok(job)
            &&& job.list_id == id
            &&& job.items == list.items
            &&& job.keys.len() == 0
            &&& !job.reverse
            &&& key is PyNone ==> job.key_fn is None
            &&& !(key is PyNone) ==> job.key_fn == Some(key)
            &&& started.heap.data(id) matches Some(DataView::List(left)) && left.items.len() == 0
        }),
{
    reveal_strlit("key");
    reveal_strlit("reverse");
    assert("key"@.len() != "reverse"@.len());
    reveal_with_fuel(scan_two_keywords, 2);
}

} // verus!
