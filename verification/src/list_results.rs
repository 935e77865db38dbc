//! What the operations of lists give, item by item.

use vstd::prelude::*;
use crate::args::ArgsView;
use crate::containers::{Range, Slice};
use crate::equality::{equal, first_equal, first_equal_position, range_len};
use crate::equality_laws::is_text;
use crate::error::ErrorView;
use crate::heap::{DataView, EntryView, HeapView};
use crate::ids::{BytesId, HeapId};
use crate::interns::{Interns, StaticStrings};
use crate::iteration::{produced, range_items, Produced};
use crate::list::{list_assigned, list_called, list_iadded, list_item, lists_added, ListView};
use crate::list_laws::{count_agrees_with_index, equals};
use crate::list_methods::method_op;
use crate::resource::{ResourceError, ResourceTracker, MAX_DATA_DEPTH};
use crate::slicing::step_count;
use crate::types::ExcType;
use crate::value::Value;

verus! {

/// Whether something ended in an exception of a class.
pub open spec fn raises<R>(result: Result<R, ErrorView>, class: ExcType) -> bool {
    result matches Err(ErrorView::Exc(e)) && e.exc.exc_type == class
}

/// `append` puts the item behind the others.
pub proof fn append_adds_at_the_end<T: ResourceTracker>(
    h: HeapView<T>,
    interns: Interns,
    list: ListView,
    item: Value,
)
    ensures
        ({
            let args = ArgsView { pos: seq![item], pairs: Seq::empty() };
            let done = method_op(h, interns, list, StaticStrings::Append, args);
            let n = list.items.len() as int;
            &&& done.result == Ok::<Value, ErrorView>(Value::PyNone)
            &&& done.list.items.len() == n + 1
            &&& done.list.items[n] == item
            &&& forall|i: int| 0 <= i < n ==> (#[trigger] done.list.items[i]) == list.items[i]
            &&& done.heap.entries == h.entries
        }),
{
}

/// `insert` puts the item before the one at the index. An index below zero counts from the end;
/// what lies outside the list means its nearer end.
pub proof fn insert_puts_in_before<T: ResourceTracker>(
    h: HeapView<T>,
    interns: Interns,
    list: ListView,
    index: i64,
    item: Value,
    at: int,
)
    requires
        index >= list.items.len() ==> at == list.items.len(),
        0 <= index < list.items.len() ==> at == index,
        index < 0 && index + list.items.len() >= 0 ==> at == index + list.items.len(),
        index < 0 && index + list.items.len() < 0 ==> at == 0,
    ensures
        ({
            let args = ArgsView { pos: seq![Value::Int(index), item], pairs: Seq::empty() };
            let done = method_op(h, interns, list, StaticStrings::Insert, args);
            let n = list.items.len() as int;
            &&& done.result == Ok::<Value, ErrorView>(Value::PyNone)
            &&& done.list.items.len() == n + 1
            &&& done.list.items[at] == item
            &&& forall|i: int| 0 <= i < at ==> (#[trigger] done.list.items[i]) == list.items[i]
            &&& forall|i: int| at < i <= n ==> (#[trigger] done.list.items[i]) == list.items[i - 1]
            &&& done.heap.entries == h.entries
        }),
{
}

/// `pop` without an index takes the last item out and gives it back.
pub proof fn pop_takes_the_last<T: ResourceTracker>(h: HeapView<T>, interns: Interns, list: ListView)
    ensures
        ({
            let args = ArgsView { pos: Seq::empty(), pairs: Seq::empty() };
            let done = method_op(h, interns, list, StaticStrings::Pop, args);
            let n = list.items.len() as int;
            if n == 0 {
                raises(done.result, ExcType::IndexError) && done.list == list
            } else {
                &&& done.result == Ok::<Value, ErrorView>(list.items[n - 1])
                &&& done.list.items.len() == n - 1
                &&& forall|i: int|
                    0 <= i < n - 1 ==> (#[trigger] done.list.items[i]) == list.items[i]
                &&& done.heap == h
            }
        }),
{
}

/// `pop` with an index takes the item there out and gives it back; the others stay in their
/// order. An index below zero counts from the end, and there has to be an item.
pub proof fn pop_takes_the_item<T: ResourceTracker>(
    h: HeapView<T>,
    interns: Interns,
    list: ListView,
    index: i64,
)
    ensures
        ({
            let args = ArgsView { pos: seq![Value::Int(index)], pairs: Seq::empty() };
            let done = method_op(h, interns, list, StaticStrings::Pop, args);
            let n = list.items.len() as int;
            let k = if index < 0 {
                index + n
            } else {
                index as int
            };
            if 0 <= k < n {
                &&& done.result == Ok::<Value, ErrorView>(list.items[k])
                &&& done.list.items.len() == n - 1
                &&& forall|i: int| 0 <= i < k ==> (#[trigger] done.list.items[i]) == list.items[i]
                &&& forall|i: int|
                    k <= i < n - 1 ==> (#[trigger] done.list.items[i]) == list.items[i + 1]
                &&& done.heap == h
            } else {
                raises(done.result, ExcType::IndexError) && done.list == list
            }
        }),
{
}

/// Whether comparing a value with an item gives this answer.
pub open spec fn compares<T>(h: HeapView<T>, interns: Interns, v: Value, item: Value, same: bool) -> bool {
    equal(h, interns, v, item, MAX_DATA_DEPTH as nat) == Ok::<bool, ResourceError>(same)
}

/// `remove` takes out the first item that the value equals, and the others stay in their order.
/// If there is none, the list stays as it is, and the answer is a `ValueError`.
pub proof fn remove_takes_the_first_equal<T: ResourceTracker>(
    h: HeapView<T>,
    interns: Interns,
    list: ListView,
    value: Value,
)
    ensures
        ({
            let args = ArgsView { pos: seq![value], pairs: Seq::empty() };
            let done = method_op(h, interns, list, StaticStrings::Remove, args);
            let n = list.items.len() as int;
            &&& done.result is Ok ==> done.result == Ok::<Value, ErrorView>(Value::PyNone)
                && exists|k: int|
                0 <= k < n && compares(h, interns, value, #[trigger] list.items[k], true) && (
                forall|i: int|
                    0 <= i < k ==> compares(h, interns, value, #[trigger] list.items[i], false))
                    && done.list.items.len() == n - 1 && (forall|i: int|
                    0 <= i < k ==> (#[trigger] done.list.items[i]) == list.items[i]) && (forall|
                    i: int,
                |
                    k <= i < n - 1 ==> (#[trigger] done.list.items[i]) == list.items[i + 1])
            &&& done.result is Err ==> done.list == list
            &&& (forall|i: int|
                0 <= i < n ==> compares(h, interns, value, #[trigger] list.items[i], false))
                ==> raises(done.result, ExcType::ValueError)
        }),
{
    let n = list.items.len() as int;
    first_equal_position(h, interns, value, list.items, n, MAX_DATA_DEPTH as nat);
    let args = ArgsView { pos: seq![value], pairs: Seq::empty() };
    let done = method_op(h, interns, list, StaticStrings::Remove, args);
    if done.result is Ok {
        let k = first_equal(
            h,
            interns,
            value,
            list.items,
            n,
            MAX_DATA_DEPTH as nat,
        )->Ok_0->0;
        assert(compares(h, interns, value, list.items[k], true));
    }
    if forall|i: int| 0 <= i < n ==> compares(h, interns, value, #[trigger] list.items[i], false) {
        none_is_found(h, interns, value, list.items, n);
    }
}

proof fn none_is_found<T>(h: HeapView<T>, interns: Interns, v: Value, items: Seq<Value>, n: int)
    requires
        0 <= n <= items.len(),
        forall|i: int| 0 <= i < items.len() ==> compares(h, interns, v, #[trigger] items[i], false),
    ensures
        first_equal(h, interns, v, items, n, MAX_DATA_DEPTH as nat) == Ok::<
            Option<int>,
            ResourceError,
        >(None),
    decreases n,
{
    if n > 0 {
        none_is_found(h, interns, v, items, n - 1);
        assert(compares(h, interns, v, items[n - 1], false));
    }
}

proof fn first_is_found<T>(
    h: HeapView<T>,
    interns: Interns,
    v: Value,
    items: Seq<Value>,
    k: int,
    n: int,
)
    requires
        0 <= k < n <= items.len(),
        compares(h, interns, v, items[k], true),
        forall|i: int| 0 <= i < k ==> compares(h, interns, v, #[trigger] items[i], false),
    ensures
        first_equal(h, interns, v, items, n, MAX_DATA_DEPTH as nat) == Ok::<
            Option<int>,
            ResourceError,
        >(Some(k)),
    decreases n,
{
    if n - 1 > k {
        first_is_found(h, interns, v, items, k, n - 1);
    } else {
        none_among_the_first(h, interns, v, items, k);
    }
}

proof fn none_among_the_first<T>(h: HeapView<T>, interns: Interns, v: Value, items: Seq<Value>, n: int)
    requires
        0 <= n <= items.len(),
        forall|i: int| 0 <= i < n ==> compares(h, interns, v, #[trigger] items[i], false),
    ensures
        first_equal(h, interns, v, items, n, MAX_DATA_DEPTH as nat) == Ok::<
            Option<int>,
            ResourceError,
        >(None),
    decreases n,
{
    if n > 0 {
        none_among_the_first(h, interns, v, items, n - 1);
        assert(compares(h, interns, v, items[n - 1], false));
    }
}

/// `remove` succeeds if some item equals the value and no comparison before it fails.
pub proof fn remove_succeeds<T: ResourceTracker>(
    h: HeapView<T>,
    interns: Interns,
    list: ListView,
    value: Value,
    k: int,
)
    requires
        0 <= k < list.items.len(),
        compares(h, interns, value, list.items[k], true),
        forall|i: int| 0 <= i < k ==> compares(h, interns, value, #[trigger] list.items[i], false),
    ensures
        ({
            let args = ArgsView { pos: seq![value], pairs: Seq::empty() };
            let done = method_op(h, interns, list, StaticStrings::Remove, args);
            &&& done.result == Ok::<Value, ErrorView>(Value::PyNone)
            &&& done.list.items.len() == list.items.len() - 1
            &&& forall|i: int| 0 <= i < k ==> (#[trigger] done.list.items[i]) == list.items[i]
            &&& forall|i: int|
                k <= i < list.items.len() - 1 ==> (#[trigger] done.list.items[i])
                    == list.items[i + 1]
        }),
{
    first_is_found(h, interns, value, list.items, k, list.items.len() as int);
}

/// `clear` leaves no item.
pub proof fn clear_leaves_nothing<T: ResourceTracker>(h: HeapView<T>, interns: Interns, list: ListView)
    ensures
        ({
            let args = ArgsView { pos: Seq::empty(), pairs: Seq::empty() };
            let done = method_op(h, interns, list, StaticStrings::Clear, args);
            done.result == Ok::<Value, ErrorView>(Value::PyNone) && done.list.items.len() == 0
        }),
{
}

/// `copy` gives a new list with the same items in the same places, and leaves the list alone.
pub proof fn copy_repeats_the_items<T: ResourceTracker>(h: HeapView<T>, interns: Interns, list: ListView)
    requires
        h.entries.len() <= usize::MAX,
        h.tracker.admits(),
        h.inc_values(list.items).tracker == h.tracker,
    ensures
        ({
            let args = ArgsView { pos: Seq::empty(), pairs: Seq::empty() };
            let done = method_op(h, interns, list, StaticStrings::Copy, args);
            &&& done.list == list
            &&& done.result matches Ok(Value::Ref(id))
            &&& h.data(id) is None
            &&& done.heap.data(id) matches Some(DataView::List(l))
            &&& l.items.len() == list.items.len()
            &&& forall|i: int|
                0 <= i < list.items.len() ==> (#[trigger] l.items[i]) == list.items[i]
        }),
{
    counting_adds_nothing(h, list.items);
}

proof fn counting_adds_nothing<T>(h: HeapView<T>, values: Seq<Value>)
    ensures
        h.inc_values(values).entries.len() == h.entries.len(),
    decreases values.len(),
{
    if values.len() > 0 {
        counting_adds_nothing(h, values.drop_last());
    }
}

/// `reverse` turns the order of the items round.
pub proof fn reverse_turns_round<T: ResourceTracker>(h: HeapView<T>, interns: Interns, list: ListView)
    ensures
        ({
            let args = ArgsView { pos: Seq::empty(), pairs: Seq::empty() };
            let done = method_op(h, interns, list, StaticStrings::Reverse, args);
            let n = list.items.len() as int;
            &&& done.result == Ok::<Value, ErrorView>(Value::PyNone)
            &&& done.list.items.len() == n
            &&& forall|i: int|
                0 <= i < n ==> (#[trigger] done.list.items[i]) == list.items[n - 1 - i]
            &&& done.heap == h
        }),
{
}

/// `index` gives the place of the first item that the value equals, among those from `start` on
/// and before `end`, which are inside the list here.
pub proof fn index_finds_the_first<T: ResourceTracker>(
    h: HeapView<T>,
    interns: Interns,
    list: ListView,
    value: Value,
    start: i64,
    end: i64,
    k: int,
)
    requires
        0 <= start <= k < end <= list.items.len() <= i64::MAX,
        list.items.len() <= usize::MAX,
        compares(h, interns, value, list.items[k], true),
        forall|i: int|
            start <= i < k ==> compares(h, interns, value, #[trigger] list.items[i], false),
    ensures
        ({
            let args = ArgsView {
                pos: seq![value, Value::Int(start), Value::Int(end)],
                pairs: Seq::empty(),
            };
            let done = method_op(h, interns, list, StaticStrings::Index, args);
            done.result == Ok::<Value, ErrorView>(Value::Int(k as i64)) && done.list == list
        }),
{
    let part = list.items.subrange(start as int, end as int);
    assert(part[k - start] == list.items[k]);
    assert forall|i: int| 0 <= i < k - start implies compares(
        h,
        interns,
        value,
        #[trigger] part[i],
        false,
    ) by {
        assert(part[i] == list.items[start + i]);
    }
    first_is_found(h, interns, value, part, k - start, part.len() as int);
}

/// `index` without bounds looks at the whole list; what equals no item is a `ValueError`.
pub proof fn index_searches_the_list<T: ResourceTracker>(
    h: HeapView<T>,
    interns: Interns,
    list: ListView,
    value: Value,
    k: int,
)
    requires
        list.items.len() <= i64::MAX,
        list.items.len() <= usize::MAX,
        0 <= k <= list.items.len(),
        k < list.items.len() ==> compares(h, interns, value, list.items[k], true),
        forall|i: int| 0 <= i < k ==> compares(h, interns, value, #[trigger] list.items[i], false),
    ensures
        ({
            let args = ArgsView { pos: seq![value], pairs: Seq::empty() };
            let done = method_op(h, interns, list, StaticStrings::Index, args);
            &&& done.list == list
            &&& if k < list.items.len() {
                done.result == Ok::<Value, ErrorView>(Value::Int(k as i64))
            } else {
                raises(done.result, ExcType::ValueError)
            }
        }),
{
    let n = list.items.len() as int;
    assert(list.items.subrange(0, n) =~= list.items);
    if k < n {
        first_is_found(h, interns, value, list.items, k, n);
    } else {
        none_is_found(h, interns, value, list.items, n);
    }
}

/// `count` gives the number of items that the value equals.
pub proof fn count_counts<T: ResourceTracker>(
    h: HeapView<T>,
    interns: Interns,
    list: ListView,
    value: Value,
)
    requires
        forall|i: int|
            0 <= i < list.items.len() ==> equal(
                h,
                interns,
                value,
                #[trigger] list.items[i],
                MAX_DATA_DEPTH as nat,
            ) is Ok,
        list.items.len() <= i64::MAX,
        list.items.len() <= usize::MAX,
    ensures
        ({
            let args = ArgsView { pos: seq![value], pairs: Seq::empty() };
            let done = method_op(h, interns, list, StaticStrings::Count, args);
            let same = list.items.filter(|x: Value| compares(h, interns, value, x, true));
            done.result == Ok::<Value, ErrorView>(Value::Int(same.len() as i64)) && done.list == list
        }),
{
    count_agrees_with_index(h, interns, list, value);
    assert((|x: Value| compares(h, interns, value, x, true)) =~= (|x: Value|
        equals(h, interns, value, x)));
}

/// The items that iterating over an object gives: those of a list, tuple or set, the keys of a
/// dict, the bytes of a bytes object, the integers of a range.
pub open spec fn gives_items(data: DataView, items: Seq<Value>) -> bool {
    match data {
        DataView::List(l) => items == l.items,
        DataView::Tuple(t) => items == t,
        DataView::PySet(s) => items == s,
        DataView::Dict(d) => items.len() == d.len() && forall|i: int|
            0 <= i < d.len() ==> (#[trigger] items[i]) == d[i].0,
        DataView::Bytes(b) => items.len() == b.len() && forall|i: int|
            0 <= i < b.len() ==> (#[trigger] items[i]) == Value::Int(b[i] as i64),
        DataView::Range(r) => counts_through(r, items),
        _ => false,
    }
}

/// Whether items are the integers of a range: they start where it starts, go on by its step, all
/// lie before its end, and the next one would not.
pub open spec fn counts_through(r: Range, items: Seq<Value>) -> bool {
    let n = items.len() as int;
    &&& forall|i: int|
        0 <= i < n ==> {
            let x = r.start + i * r.step;
            &&& (#[trigger] items[i]) == Value::Int(x as i64)
            &&& i64::MIN <= x <= i64::MAX
            &&& if r.step > 0 {
                x < r.stop
            } else {
                x > r.stop
            }
        }
    &&& r.step > 0 ==> r.start + n * r.step >= r.stop
    &&& r.step < 0 ==> r.start + n * r.step <= r.stop
}

proof fn steps_stay_below(d: int, size: int, k: int)
    requires
        size > 0,
        d > 0,
        0 <= k < (d + size - 1) / size,
    ensures
        0 <= k * size < d,
        -(k * size) == k * -size,
{
    assert(k * size < d && 0 <= k * size) by (nonlinear_arith)
        requires
            0 <= k < (d + size - 1) / size,
            size > 0,
            d > 0,
    ;
    assert(-(k * size) == k * -size) by (nonlinear_arith);
}

proof fn steps_reach(d: int, size: int, n: int)
    requires
        size > 0,
        d > 0,
        n == (d + size - 1) / size,
    ensures
        n >= 0,
        n * size >= d,
        -(n * size) == n * -size,
{
    assert(n >= 0 && n * size >= d) by (nonlinear_arith)
        requires
            n == (d + size - 1) / size,
            size > 0,
            d > 0,
    ;
    assert(-(n * size) == n * -size) by (nonlinear_arith);
}

proof fn range_counts_through(r: Range)
    requires
        r.step != 0,
    ensures
        counts_through(r, range_items(r)),
{
    let items = range_items(r);
    let n = range_len(r);
    let step = r.step as int;
    let (d, size) = if step > 0 {
        (r.stop - r.start, step)
    } else {
        (r.start - r.stop, -step)
    };
    if d > 0 {
        steps_reach(d, size, n);
    }
    assert(items.len() == n);
    assert forall|i: int| 0 <= i < n implies {
        let x = r.start + i * r.step;
        &&& (#[trigger] items[i]) == Value::Int(x as i64)
        &&& i64::MIN <= x <= i64::MAX
        &&& if r.step > 0 {
            x < r.stop
        } else {
            x > r.stop
        }
    } by {
        steps_stay_below(d, size, i);
    }
}

/// Iterating over an object gives its items, and over an interned bytes object its bytes.
pub proof fn iteration_gives_items<T>(h: HeapView<T>, interns: Interns, id: HeapId, b: BytesId)
    requires
        h.data(id) matches Some(d) && (d matches DataView::Range(r) ==> r.step != 0),
    ensures
        match h.data(id)->0 {
            DataView::List(_)
            | DataView::Tuple(_)
            | DataView::PySet(_)
            | DataView::Dict(_)
            | DataView::Bytes(_)
            | DataView::Range(_) => produced(h, interns, Value::Ref(id)) matches Some(
                Produced::Values(items),
            ) && gives_items(h.data(id)->0, items),
            DataView::Str(s) => produced(h, interns, Value::Ref(id)) == Some(Produced::Chars(s)),
            _ => produced(h, interns, Value::Ref(id)) is None,
        },
        produced(h, interns, Value::InternBytes(b)) matches Some(Produced::Values(items))
            && gives_items(DataView::Bytes(interns.bytes_text(b)), items),
{
    if let DataView::Range(r) = h.data(id)->0 {
        range_counts_through(r);
    }
}

/// Numbers, functions and other plain values cannot be iterated over.
pub proof fn plain_values_have_no_items<T>(h: HeapView<T>, interns: Interns, v: Value)
    requires
        !(v is Ref) && !(v is InternString) && !(v is InternBytes),
    ensures
        produced(h, interns, v) is None,
{
}

/// `extend` puts the items of an object behind those of the list.
pub proof fn extend_adds_items<T: ResourceTracker>(
    h: HeapView<T>,
    interns: Interns,
    list: ListView,
    id: HeapId,
)
    requires
        h.data(id) matches Some(d) && !(d is Str) && produced(h, interns, Value::Ref(id)) is Some
            && (d matches DataView::Range(r) ==> r.step != 0),
    ensures
        ({
            let args = ArgsView { pos: seq![Value::Ref(id)], pairs: Seq::empty() };
            let done = method_op(h, interns, list, StaticStrings::Extend, args);
            let n = list.items.len() as int;
            &&& done.result == Ok::<Value, ErrorView>(Value::PyNone)
            &&& done.list.items.len() >= n
            &&& done.list.items.take(n) == list.items
            &&& gives_items(h.data(id)->0, done.list.items.skip(n))
        }),
{
    iteration_gives_items(h, interns, id, BytesId(0));
    let items = produced(h, interns, Value::Ref(id))->0->Values_0;
    let n = list.items.len() as int;
    assert((list.items + items).take(n) =~= list.items);
    assert((list.items + items).skip(n) =~= items);
}

/// What cannot be iterated over cannot extend a list.
pub proof fn extend_wants_an_iterable<T: ResourceTracker>(
    h: HeapView<T>,
    interns: Interns,
    list: ListView,
    v: Value,
)
    requires
        produced(h, interns, v) is None,
    ensures
        ({
            let args = ArgsView { pos: seq![v], pairs: Seq::empty() };
            let done = method_op(h, interns, list, StaticStrings::Extend, args);
            raises(done.result, ExcType::TypeError) && done.list == list
        }),
{
}

/// The strings made for characters are new, in the order of the characters.
pub proof fn chars_are_made<T: ResourceTracker>(h: HeapView<T>, chars: Seq<char>, n: int)
    requires
        0 <= n <= chars.len(),
        h.entries.len() + n <= usize::MAX,
        h.made_chars(chars, n).result is Ok,
    ensures
        ({
            let made = h.made_chars(chars, n);
            let items = made.result->Ok_0;
            &&& made.heap.entries.len() == h.entries.len() + n
            &&& items.len() == n
            &&& forall|k: int|
                0 <= k < n ==> (#[trigger] items[k]) == Value::Ref(
                    HeapId((h.entries.len() + k) as usize),
                ) && made.heap.entries[h.entries.len() + k] == Some(
                    EntryView { refs: 1, data: Some(DataView::Str(seq![chars[k]])) },
                )
            &&& forall|k: int|
                0 <= k < h.entries.len() ==> (#[trigger] made.heap.entries[k]) == h.entries[k]
        }),
    decreases n,
{
    if n > 0 {
        chars_are_made(h, chars, n - 1);
    }
}

/// `extend` by a string puts a string for each of its characters behind the items of the list.
pub proof fn extend_adds_characters<T: ResourceTracker>(
    h: HeapView<T>,
    interns: Interns,
    list: ListView,
    v: Value,
    text: Seq<char>,
)
    requires
        is_text(h, interns, v, text),
        h.entries.len() + text.len() <= usize::MAX,
        ({
            let args = ArgsView { pos: seq![v], pairs: Seq::empty() };
            method_op(h, interns, list, StaticStrings::Extend, args).result is Ok
        }),
    ensures
        ({
            let args = ArgsView { pos: seq![v], pairs: Seq::empty() };
            let done = method_op(h, interns, list, StaticStrings::Extend, args);
            let n = list.items.len() as int;
            &&& done.list.items.len() == n + text.len()
            &&& done.list.items.take(n) == list.items
            &&& forall|k: int|
                0 <= k < text.len() ==> {
                    &&& (#[trigger] done.list.items[n + k]) matches Value::Ref(id)
                    &&& h.made_chars(text, text.len() as int).heap.data(id) == Some(
                        DataView::Str(seq![text[k]]),
                    )
                    &&& h.data(id) is None
                }
        }),
{
    chars_are_made(h, text, text.len() as int);
    let items = h.made_chars(text, text.len() as int).result->Ok_0;
    let n = list.items.len() as int;
    assert((list.items + items).take(n) =~= list.items);
    assert forall|k: int| 0 <= k < text.len() implies {
        &&& (#[trigger] (list.items + items)[n + k]) matches Value::Ref(id)
        &&& h.made_chars(text, text.len() as int).heap.data(id) == Some(
            DataView::Str(seq![text[k]]),
        )
        &&& h.data(id) is None
    } by {
        assert((list.items + items)[n + k] == items[k]);
    }
}

/// `list(iterable)` gives a new list of the items of an object.
pub proof fn list_of_an_iterable<T: ResourceTracker>(h: HeapView<T>, interns: Interns, id: HeapId)
    requires
        h.data(id) matches Some(d) && !(d is Str) && produced(h, interns, Value::Ref(id)) is Some
            && (d matches DataView::Range(r) ==> r.step != 0),
        ({
            let args = ArgsView { pos: seq![Value::Ref(id)], pairs: Seq::empty() };
            list_called(h, args, interns).result is Ok
        }),
    ensures
        ({
            let args = ArgsView { pos: seq![Value::Ref(id)], pairs: Seq::empty() };
            let done = list_called(h, args, interns);
            &&& done.result matches Ok(Value::Ref(new_id))
            &&& done.heap.entries.len() > 0
            &&& done.heap.entries.last() matches Some(e)
            &&& e.data matches Some(DataView::List(l))
            &&& gives_items(h.data(id)->0, l.items)
            &&& done.heap.entries.len() <= usize::MAX ==> new_id.0 == done.heap.entries.len() - 1
        }),
{
    iteration_gives_items(h, interns, id, BytesId(0));
}

/// `list()` gives a new empty list.
pub proof fn list_of_nothing<T: ResourceTracker>(h: HeapView<T>, interns: Interns)
    requires
        h.tracker.admits(),
        h.entries.len() <= usize::MAX,
    ensures
        ({
            let args = ArgsView { pos: Seq::empty(), pairs: Seq::empty() };
            let done = list_called(h, args, interns);
            &&& done.result matches Ok(Value::Ref(id))
            &&& h.data(id) is None
            &&& done.heap.data(id) matches Some(DataView::List(l))
            &&& l.items.len() == 0
        }),
{
}

/// Subscripting gives the item at the index, counted from the end if it is below zero, and
/// refuses what lies outside the list.
pub proof fn subscript_gives_the_item<T: ResourceTracker>(
    h: HeapView<T>,
    items: Seq<Value>,
    index: i64,
)
    ensures
        ({
            let got = list_item(h, items, Value::Int(index));
            let n = items.len() as int;
            let k = if index < 0 {
                index + n
            } else {
                index as int
            };
            if 0 <= k < n {
                got.result == Ok::<Value, ErrorView>(items[k]) && got.heap == h.inc_value(items[k])
            } else {
                raises(got.result, ExcType::IndexError) && got.heap == h
            }
        }),
{
}

/// Only integers and slices are subscripts; an integer that does not fit is out of range.
pub proof fn subscript_wants_an_index<T: ResourceTracker>(h: HeapView<T>, items: Seq<Value>, key: Value)
    ensures
        (key is PyNone || key is InternString || key is Ellipsis) ==> raises(
            list_item(h, items, key).result,
            ExcType::TypeError,
        ),
        key == Value::Bool(true) ==> list_item(h, items, key) == list_item(h, items, Value::Int(1)),
        key == Value::Bool(false) ==> list_item(h, items, key) == list_item(h, items, Value::Int(0)),
        key matches Value::Ref(id) ==> (h.data(id) matches Some(DataView::LongInt(i)) ==> {
            if i64::MIN <= i <= i64::MAX {
                list_item(h, items, key) == list_item(h, items, Value::Int(i as i64))
            } else {
                raises(list_item(h, items, key).result, ExcType::IndexError)
            }
        }),
{
}

/// Assigning to a subscript changes the item there and no other.
pub proof fn assignment_changes_the_item<T>(h: HeapView<T>, list: ListView, index: i64, value: Value)
    ensures
        ({
            let done = list_assigned(h, list, Value::Int(index), value);
            let n = list.items.len() as int;
            let k = if index < 0 {
                index + n
            } else {
                index as int
            };
            if 0 <= k < n {
                &&& done.result is Ok
                &&& done.list.items.len() == n
                &&& done.list.items[k] == value
                &&& forall|i: int|
                    0 <= i < n && i != k ==> (#[trigger] done.list.items[i]) == list.items[i]
            } else {
                raises(done.result, ExcType::IndexError) && done.list == list
            }
        }),
{
}

/// Adding two lists gives a new list with the items of the first and then those of the second.
pub proof fn sum_has_both<T: ResourceTracker>(h: HeapView<T>, items: Seq<Value>, others: Seq<Value>)
    requires
        lists_added(h, items, others).result is Ok,
    ensures
        ({
            let done = lists_added(h, items, others);
            let n = items.len() as int;
            &&& done.heap.entries.len() > 0
            &&& done.heap.entries.last() matches Some(e)
            &&& e.data matches Some(DataView::List(l))
            &&& l.items.len() == n + others.len()
            &&& forall|i: int| 0 <= i < n ==> (#[trigger] l.items[i]) == items[i]
            &&& forall|i: int|
                n <= i < n + others.len() ==> (#[trigger] l.items[i]) == others[i - n]
            &&& done.result matches Ok(Value::Ref(id)) && (done.heap.entries.len() <= usize::MAX
                ==> id.0 == done.heap.entries.len() - 1)
        }),
{
}

/// `+=` puts the items of another list, or once more those of the list itself, behind its own.
pub proof fn iadd_adds_items<T>(h: HeapView<T>, list: ListView, id: HeapId, own_id: Option<HeapId>)
    requires
        own_id == Some(id) || h.data(id) matches Some(DataView::List(_)),
    ensures
        ({
            let n = list.items.len() as int;
            let added = if own_id == Some(id) {
                list.items
            } else {
                h.data(id)->0->List_0.items
            };
            &&& list_iadded(h, list, Value::Ref(id), own_id) matches Some(done)
            &&& done.0.items.len() == n + added.len()
            &&& forall|i: int| 0 <= i < n ==> (#[trigger] done.0.items[i]) == list.items[i]
            &&& forall|i: int|
                n <= i < n + added.len() ==> (#[trigger] done.0.items[i]) == added[i - n]
        }),
{
}

/// What is no list does not extend a list in place.
pub proof fn iadd_wants_a_list<T>(h: HeapView<T>, list: ListView, other: Value, own_id: Option<HeapId>)
    requires
        other matches Value::Ref(id) ==> own_id != Some(id) && !(h.data(id) matches Some(
            DataView::List(_),
        )),
    ensures
        list_iadded(h, list, other, own_id) is None,
{
}

/// A slice without a step, or with a step above zero, gives the items from its first bound on and
/// before its second, one in so many. Bounds below zero count from the end.
pub proof fn forward_slice_gives_items(slice: Slice, items: Seq<Value>, lo: int, hi: int, step: int)
    requires
        0 < step <= i64::MAX,
        slice.step == Some(step as i64) || (slice.step is None && step == 1),
        ({
            let n = items.len() as int;
            &&& 0 <= lo <= n
            &&& 0 <= hi <= n
            &&& slice.start is None ==> lo == 0
            &&& slice.start matches Some(b) ==> {
                &&& b >= 0 ==> lo == b || (lo == n && b > n)
                &&& b < 0 ==> lo == b + n || (lo == 0 && b + n < 0)
            }
            &&& slice.stop is None ==> hi == n
            &&& slice.stop matches Some(b) ==> {
                &&& b >= 0 ==> hi == b || (hi == n && b > n)
                &&& b < 0 ==> hi == b + n || (hi == 0 && b + n < 0)
            }
        }),
    ensures
        ({
            let got = slice.select(items);
            let m = got.len() as int;
            &&& forall|k: int|
                0 <= k < m ==> (#[trigger] got[k]) == items[lo + k * step] && lo <= lo + k * step
                    < hi
            &&& lo + m * step >= hi
        }),
{
    let got = slice.select(items);
    let n = items.len() as int;
    assert(slice.first(n) == lo && slice.past(n) == hi && slice.step_or_one() == step);
    let m = step_count(lo, hi, step) as int;
    let d = hi - lo;
    if d > 0 {
        steps_reach(d, step, m);
    }
    assert(m == 0 ==> m * step == 0) by (nonlinear_arith);
    assert(got.len() == m);
    assert forall|k: int| 0 <= k < m implies (#[trigger] got[k]) == items[lo + k * step] && lo <= lo
        + k * step < hi by {
        steps_stay_below(d, step, k);
    }
}

/// A slice with a step below zero gives the items from its first bound down to its second, which
/// is left out, one in so many. Left open, the bounds are the last item and the beginning.
pub proof fn backward_slice_gives_items(slice: Slice, items: Seq<Value>, hi: int, lo: int, step: int)
    requires
        i64::MIN <= step < 0,
        slice.step == Some(step as i64),
        ({
            let n = items.len() as int;
            &&& -1 <= lo <= n - 1
            &&& -1 <= hi <= n - 1
            &&& slice.start is None ==> hi == n - 1
            &&& slice.start matches Some(b) ==> {
                &&& b >= 0 ==> hi == b || (hi == n - 1 && b > n - 1)
                &&& b < 0 ==> hi == b + n || (hi == -1 && b + n < -1)
            }
            &&& slice.stop is None ==> lo == -1
            &&& slice.stop matches Some(b) ==> {
                &&& b >= 0 ==> lo == b || (lo == n - 1 && b > n - 1)
                &&& b < 0 ==> lo == b + n || (lo == -1 && b + n < -1)
            }
        }),
    ensures
        ({
            let got = slice.select(items);
            let m = got.len() as int;
            &&& forall|k: int|
                0 <= k < m ==> (#[trigger] got[k]) == items[hi + k * step] && lo < hi + k * step
                    <= hi
            &&& hi + m * step <= lo
        }),
{
    let got = slice.select(items);
    let m = step_count(hi, lo, step) as int;
    let d = hi - lo;
    if d > 0 {
        steps_reach(d, -step, m);
    }
    assert(got.len() == m);
    assert forall|k: int| 0 <= k < m implies (#[trigger] got[k]) == items[hi + k * step] && lo < hi
        + k * step <= hi by {
        steps_stay_below(d, -step, k);
    }
}

/// Subscripting by a slice gives a new list of the items that it selects; a step of zero is a
/// `ValueError`.
pub proof fn slicing_gives_a_list<T: ResourceTracker>(
    h: HeapView<T>,
    items: Seq<Value>,
    id: HeapId,
    slice: Slice,
)
    requires
        h.data(id) == Some(DataView::Slice(slice)),
    ensures
        ({
            let got = list_item(h, items, Value::Ref(id));
            if slice.step == Some(0i64) {
                raises(got.result, ExcType::ValueError) && got.heap == h
            } else {
                got.result is Ok ==> {
                    &&& got.heap.entries.len() > 0
                    &&& got.heap.entries.last() matches Some(e)
                    &&& e.data matches Some(DataView::List(l))
                    &&& l.items == slice.select(items)
                    &&& got.result matches Ok(Value::Ref(new_id)) && (got.heap.entries.len()
                        <= usize::MAX ==> new_id.0 == got.heap.entries.len() - 1)
                }
            }
        }),
{
}

} // verus!
