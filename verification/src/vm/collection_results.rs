//! What the instructions on collections leave on the stack and in the heap.

use vstd::prelude::*;
use crate::containers::{dict_set, set_add, unhashable, Slice};
use crate::equality::{equal, first_equal, first_equal_of_longer, first_equal_position, keys_of};
use crate::equality_laws::{
    equal_sees_objects_only, hashing_sees_objects_only, is_text, texts_are_equal,
};
use crate::error::ErrorView;
use crate::heap::{pair_values, DataView, EntryView, HeapView};
use crate::ids::{HeapId, StringId};
use crate::interns::Interns;
use crate::list_results::{chars_are_made, compares, raises};
use crate::ownership::release_value_only_frees;
use crate::resource::{ResourceError, ResourceTracker, MAX_DATA_DEPTH};
use crate::types::{ExcType, Type};
use crate::value::Value;
use crate::vm::async_exec::counting_keeps_data;
use crate::vm::collections::{dict_filled, merge_ends, merged, named_function, set_filled};
use crate::vm::VmView;

verus! {

/// Whether a value refers to an object that is new in a heap, counted once.
pub open spec fn is_new<T>(h: HeapView<T>, v: Value, data: DataView) -> bool {
    &&& h.entries.len() > 0
    &&& h.entries.last() == Some(EntryView { refs: 1, data: Some(data) })
    &&& v matches Value::Ref(id) && (h.entries.len() <= usize::MAX ==> id.0 == h.entries.len() - 1)
}

/// Whether a stack has lost its top `n` values and got one instead.
pub open spec fn replaced_top(before: Seq<Value>, after: Seq<Value>, n: int) -> bool {
    &&& after.len() == before.len() - n + 1
    &&& forall|i: int| 0 <= i < before.len() - n ==> (#[trigger] after[i]) == before[i]
}

/// `[a, b, ..]` is a new list of the top values, the one pushed first in front.
pub proof fn list_display_has_the_values<T: ResourceTracker>(vm: VmView<T>, count: int)
    requires
        0 <= count <= vm.stack.len(),
        vm.list_built(count).result is Ok,
    ensures
        ({
            let after = vm.list_built(count).vm;
            let n = vm.stack.len() as int;
            &&& replaced_top(vm.stack, after.stack, count)
            &&& after.heap.entries.last()->0.data matches Some(DataView::List(l))
            &&& is_new(after.heap, after.stack.last(), DataView::List(l))
            &&& l.items.len() == count
            &&& forall|i: int|
                0 <= i < count ==> (#[trigger] l.items[i]) == vm.stack[n - count + i]
        }),
{
}

/// `(a, b, ..)` is a new tuple of the top values, the one pushed first in front.
pub proof fn tuple_display_has_the_values<T: ResourceTracker>(vm: VmView<T>, count: int)
    requires
        0 < count <= vm.stack.len(),
        vm.tuple_built(count).result is Ok,
    ensures
        ({
            let after = vm.tuple_built(count).vm;
            let n = vm.stack.len() as int;
            &&& replaced_top(vm.stack, after.stack, count)
            &&& after.heap.entries.last()->0.data matches Some(DataView::Tuple(t))
            &&& is_new(after.heap, after.stack.last(), DataView::Tuple(t))
            &&& t.len() == count
            &&& forall|i: int| 0 <= i < count ==> (#[trigger] t[i]) == vm.stack[n - count + i]
        }),
{
}

/// `()` is a tuple without items, the same one every time.
pub proof fn empty_tuple_is_kept<T: ResourceTracker>(vm: VmView<T>)
    requires
        vm.tuple_built(0).result is Ok,
        vm.heap.entries.len() < usize::MAX,
    ensures
        ({
            let once = vm.tuple_built(0).vm;
            let twice = once.tuple_built(0);
            &&& once.stack.len() == vm.stack.len() + 1
            &&& twice.result is Ok
            &&& twice.vm.stack.len() == vm.stack.len() + 2
            &&& twice.vm.stack[vm.stack.len() as int] == once.stack.last()
            &&& twice.vm.stack.last() == once.stack.last()
            &&& vm.heap.empty_tuple is None ==> (once.stack.last() matches Value::Ref(id)
                && once.heap.data(id) matches Some(DataView::Tuple(t)) && t.len() == 0)
        }),
{
}

/// Setting an entry of a dict replaces the value of the first key that the new one equals and
/// nothing else; without one, the entry comes behind the others.
pub proof fn setting_an_entry<T>(
    h: HeapView<T>,
    interns: Interns,
    entries: Seq<(Value, Value)>,
    key: Value,
    value: Value,
)
    ensures
        ({
            let done = dict_set(h, interns, entries, key, value);
            let n = entries.len() as int;
            &&& done.result is Err ==> done.content == entries
            &&& done.result == Ok::<Option<Value>, ErrorView>(None) ==> {
                &&& done.content.len() == n + 1
                &&& done.content[n] == (key, value)
                &&& forall|i: int| 0 <= i < n ==> (#[trigger] done.content[i]) == entries[i]
                &&& forall|i: int|
                    0 <= i < n ==> compares(h, interns, key, (#[trigger] entries[i]).0, false)
            }
            &&& done.result matches Ok(Some(old)) ==> exists|k: int|
                #![trigger entries[k]]
                0 <= k < n && compares(h, interns, key, entries[k].0, true) && (forall|i: int|
                    0 <= i < k ==> compares(h, interns, key, (#[trigger] entries[i]).0, false))
                    && done.content.len() == n && done.content[k] == (entries[k].0, value) && (
                forall|i: int|
                    0 <= i < n && i != k ==> (#[trigger] done.content[i]) == entries[i]) && old
                    == entries[k].1
        }),
{
    let keys = keys_of(entries);
    let room = MAX_DATA_DEPTH as nat;
    first_equal_position(h, interns, key, keys, keys.len() as int, room);
    assert(forall|i: int| 0 <= i < entries.len() ==> keys[i] == (#[trigger] entries[i]).0);
    let done = dict_set(h, interns, entries, key, value);
    if let Ok(Some(old)) = done.result {
        let k = first_equal(h, interns, key, keys, keys.len() as int, room)->Ok_0->0;
        assert(compares(h, interns, key, entries[k].0, true));
        assert(done.content[k] == (entries[k].0, value));
    }
}

/// Adding an item to a set puts it behind the others unless it equals one of them.
pub proof fn adding_an_item<T>(h: HeapView<T>, interns: Interns, items: Seq<Value>, value: Value)
    ensures
        ({
            let done = set_add(h, interns, items, value);
            let n = items.len() as int;
            &&& done.result is Err ==> done.content == items
            &&& done.result == Ok::<bool, ErrorView>(true) ==> {
                &&& done.content.len() == n + 1
                &&& done.content[n] == value
                &&& forall|i: int| 0 <= i < n ==> (#[trigger] done.content[i]) == items[i]
                &&& forall|i: int|
                    0 <= i < n ==> compares(h, interns, value, #[trigger] items[i], false)
            }
            &&& done.result == Ok::<bool, ErrorView>(false) ==> done.content == items && exists|
                k: int,
            |
                0 <= k < n && compares(h, interns, value, #[trigger] items[k], true)
        }),
{
    let room = MAX_DATA_DEPTH as nat;
    first_equal_position(h, interns, value, items, items.len() as int, room);
    let done = set_add(h, interns, items, value);
    if done.result == Ok::<bool, ErrorView>(false) {
        let k = first_equal(h, interns, value, items, items.len() as int, room)->Ok_0->0;
        assert(compares(h, interns, value, items[k], true));
    }
}

/// Lists, dicts and sets can be neither keys nor items of sets; numbers and strings can.
pub proof fn what_can_be_a_key<T>(
    h: HeapView<T>,
    interns: Interns,
    entries: Seq<(Value, Value)>,
    items: Seq<Value>,
    key: Value,
    value: Value,
)
    ensures
        key matches Value::Ref(id) ==> (h.data(id) matches Some(d) && (d is List || d is Dict
            || d is PySet) ==> raises(
            dict_set(h, interns, entries, key, value).result,
            ExcType::TypeError,
        ) && raises(set_add(h, interns, items, key).result, ExcType::TypeError)),
        (key is Int || key is Bool || key is PyNone || key is InternString || (
        key matches Value::Ref(id) && h.data(id) matches Some(DataView::Str(_)))) ==> unhashable(
            h,
            key,
            MAX_DATA_DEPTH as nat,
        ) == Ok::<Option<Type>, ResourceError>(None),
{
}

proof fn marks_change_nothing<T>(h: HeapView<T>, g: HeapView<T>, interns: Interns, a: Value, b: Value)
    requires
        h.entries == g.entries,
    ensures
        equal(h, interns, a, b, MAX_DATA_DEPTH as nat) == equal(
            g,
            interns,
            a,
            b,
            MAX_DATA_DEPTH as nat,
        ),
        unhashable(h, a, MAX_DATA_DEPTH as nat) == unhashable(g, a, MAX_DATA_DEPTH as nat),
{
    assert(forall|id: HeapId| #[trigger] h.data(id) == g.data(id));
    equal_sees_objects_only(h, g, interns, a, b, MAX_DATA_DEPTH as nat);
    hashing_sees_objects_only(h, g, a, MAX_DATA_DEPTH as nat);
}

proof fn nothing_equal<T>(h: HeapView<T>, interns: Interns, v: Value, items: Seq<Value>, n: int)
    requires
        0 <= n <= items.len(),
        forall|i: int| 0 <= i < n ==> compares(h, interns, v, #[trigger] items[i], false),
    ensures
        first_equal(h, interns, v, items, n, MAX_DATA_DEPTH as nat) == Ok::<
            Option<int>,
            ResourceError,
        >(None),
    decreases n,
{
    if n > 0 {
        nothing_equal(h, interns, v, items, n - 1);
        assert(compares(h, interns, v, items[n - 1], false));
    }
}

/// Whether values can be hashed and none equals an earlier one.
pub open spec fn all_new<T>(h: HeapView<T>, interns: Interns, keys: Seq<Value>) -> bool {
    &&& forall|i: int|
        0 <= i < keys.len() ==> unhashable(h, #[trigger] keys[i], MAX_DATA_DEPTH as nat) == Ok::<
            Option<Type>,
            ResourceError,
        >(None)
    &&& forall|i: int, j: int|
        0 <= i < j < keys.len() ==> compares(
            h,
            interns,
            #[trigger] keys[j],
            #[trigger] keys[i],
            false,
        )
}

proof fn filled_by_new_keys<T>(
    h: HeapView<T>,
    interns: Interns,
    items: Seq<Value>,
    keys: Seq<Value>,
    n: int,
)
    requires
        0 <= n <= keys.len(),
        items.len() == 2 * keys.len(),
        forall|i: int| 0 <= i < keys.len() ==> (#[trigger] keys[i]) == items[2 * i],
        all_new(h, interns, keys),
    ensures
        ({
            let done = dict_filled(h, interns, items, n);
            &&& done.error is None
            &&& done.heap.entries == h.entries
            &&& done.heap.tracker == h.tracker
            &&& done.content.len() == n
            &&& forall|i: int|
                0 <= i < n ==> (#[trigger] done.content[i]) == (items[2 * i], items[2 * i + 1])
        }),
    decreases n,
{
    if n > 0 {
        filled_by_new_keys(h, interns, items, keys, n - 1);
        let before = dict_filled(h, interns, items, n - 1);
        let key = keys[n - 1];
        let known = keys_of(before.content);
        assert forall|i: int| 0 <= i < n - 1 implies compares(
            before.heap,
            interns,
            key,
            #[trigger] known[i],
            false,
        ) by {
            assert(known[i] == before.content[i].0);
            assert(known[i] == keys[i]);
            assert(compares(h, interns, keys[n - 1], keys[i], false));
            marks_change_nothing(h, before.heap, interns, key, keys[i]);
        }
        marks_change_nothing(h, before.heap, interns, key, key);
        nothing_equal(before.heap, interns, key, known, n - 1);
    }
}

/// `{k: v, ..}` with different keys is a new dict of the pairs, in the order in which they were
/// pushed.
pub proof fn dict_display_has_the_pairs<T: ResourceTracker>(vm: VmView<T>, count: int, keys: Seq<Value>)
    requires
        0 <= count,
        2 * count <= vm.stack.len(),
        keys.len() == count,
        forall|i: int|
            0 <= i < count ==> (#[trigger] keys[i]) == vm.stack[vm.stack.len() - 2 * count + 2 * i],
        all_new(vm.heap, vm.interns, keys),
        vm.heap.tracker.admits(),
    ensures
        ({
            let done = vm.dict_built(count);
            let base = vm.stack.len() - 2 * count;
            &&& done.result is Ok
            &&& replaced_top(vm.stack, done.vm.stack, 2 * count)
            &&& done.vm.heap.entries.last()->0.data matches Some(DataView::Dict(d))
            &&& is_new(done.vm.heap, done.vm.stack.last(), DataView::Dict(d))
            &&& d.len() == count
            &&& forall|i: int|
                0 <= i < count ==> (#[trigger] d[i]) == (
                    vm.stack[base + 2 * i],
                    vm.stack[base + 2 * i + 1],
                )
        }),
{
    let items = vm.stack.skip(vm.stack.len() - 2 * count);
    assert forall|i: int| 0 <= i < keys.len() implies (#[trigger] keys[i]) == items[2 * i] by {
        assert(items[2 * i] == vm.stack[vm.stack.len() - 2 * count + 2 * i]);
    }
    filled_by_new_keys(vm.heap, vm.interns, items, keys, count);
}

/// Of several pairs with the same key the last one counts.
pub proof fn last_pair_counts<T>(h: HeapView<T>, interns: Interns, items: Seq<Value>, n: int)
    requires
        0 < n,
        2 * n <= items.len(),
        dict_filled(h, interns, items, n).error is None,
    ensures
        ({
            let before = dict_filled(h, interns, items, n - 1);
            let done = dict_filled(h, interns, items, n);
            &&& before.error is None
            &&& exists|k: int|
                #![trigger done.content[k]]
                0 <= k < done.content.len() && done.content[k].1 == items[2 * n - 1] && (
                done.content[k].0 == items[2 * n - 2] || compares(
                    before.heap,
                    interns,
                    items[2 * n - 2],
                    done.content[k].0,
                    true,
                )) && (forall|i: int|
                    0 <= i < before.content.len() && i != k ==> (#[trigger] done.content[i])
                        == before.content[i]) && before.content.len() <= done.content.len()
                    <= before.content.len() + 1
        }),
{
    let before = dict_filled(h, interns, items, n - 1);
    let done = dict_filled(h, interns, items, n);
    let (key, value) = (items[2 * n - 2], items[2 * n - 1]);
    setting_an_entry(before.heap, interns, before.content, key, value);
    let set = dict_set(before.heap, interns, before.content, key, value);
    assert(done.content == set.content);
    match set.result {
        Ok(None) => {
            let k = before.content.len() as int;
            assert(done.content[k] == (key, value));
        },
        Ok(Some(old)) => {
            let entries = before.content;
            let k = choose|k: int|
                #![trigger entries[k]]
                0 <= k < entries.len() && compares(before.heap, interns, key, entries[k].0, true)
                    && done.content[k] == (entries[k].0, value) && (forall|i: int|
                    0 <= i < entries.len() && i != k ==> (#[trigger] done.content[i])
                        == entries[i]);
            assert(done.content[k].1 == value);
        },
        Err(_) => {},
    }
}

proof fn set_filled_by_new_items<T>(h: HeapView<T>, interns: Interns, items: Seq<Value>, n: int)
    requires
        0 <= n <= items.len(),
        all_new(h, interns, items),
    ensures
        ({
            let done = set_filled(h, interns, items, n);
            &&& done.error is None
            &&& done.heap.entries == h.entries
            &&& done.heap.tracker == h.tracker
            &&& done.content == items.take(n)
        }),
    decreases n,
{
    if n > 0 {
        set_filled_by_new_items(h, interns, items, n - 1);
        let before = set_filled(h, interns, items, n - 1);
        let item = items[n - 1];
        assert forall|i: int| 0 <= i < n - 1 implies compares(
            before.heap,
            interns,
            item,
            #[trigger] before.content[i],
            false,
        ) by {
            assert(compares(h, interns, items[n - 1], items[i], false));
            marks_change_nothing(h, before.heap, interns, item, items[i]);
        }
        marks_change_nothing(h, before.heap, interns, item, item);
        nothing_equal(before.heap, interns, item, before.content, n - 1);
        assert(items.take(n) =~= items.take(n - 1).push(item));
    } else {
        assert(items.take(n) =~= Seq::empty());
    }
}

/// `{a, b, ..}` of different items is a new set of them.
pub proof fn set_display_has_the_items<T: ResourceTracker>(vm: VmView<T>, count: int)
    requires
        0 <= count <= vm.stack.len(),
        all_new(vm.heap, vm.interns, vm.stack.skip(vm.stack.len() - count)),
        vm.heap.tracker.admits(),
    ensures
        ({
            let done = vm.set_built(count);
            let base = vm.stack.len() - count;
            &&& done.result is Ok
            &&& replaced_top(vm.stack, done.vm.stack, count)
            &&& done.vm.heap.entries.last()->0.data matches Some(DataView::PySet(s))
            &&& is_new(done.vm.heap, done.vm.stack.last(), DataView::PySet(s))
            &&& s.len() == count
            &&& forall|i: int| 0 <= i < count ==> (#[trigger] s[i]) == vm.stack[base + i]
        }),
{
    set_filled_by_new_items(
        vm.heap,
        vm.interns,
        vm.stack.skip(vm.stack.len() - count),
        count,
    );
}

/// The bound of a slice that a value sets.
pub open spec fn sets_bound(v: Value, bound: Option<i64>) -> bool {
    match v {
        Value::PyNone => bound is None,
        Value::Int(i) => bound == Some(i),
        Value::Bool(b) => bound == Some(
            if b {
                1i64
            } else {
                0i64
            },
        ),
        _ => false,
    }
}

/// `a:b:c` is a new slice with these bounds and this step.
pub proof fn slice_has_the_bounds<T: ResourceTracker>(
    vm: VmView<T>,
    a: Option<i64>,
    b: Option<i64>,
    c: Option<i64>,
)
    requires
        vm.stack.len() >= 3,
        sets_bound(vm.stack[vm.stack.len() - 3], a),
        sets_bound(vm.stack[vm.stack.len() - 2], b),
        sets_bound(vm.stack[vm.stack.len() - 1], c),
        vm.heap.tracker.admits(),
    ensures
        ({
            let done = vm.slice_built();
            &&& done.result is Ok
            &&& replaced_top(vm.stack, done.vm.stack, 3)
            &&& is_new(
                done.vm.heap,
                done.vm.stack.last(),
                DataView::Slice(Slice { start: a, stop: b, step: c }),
            )
        }),
{
}

/// Turning a list into a tuple keeps its items.
pub proof fn list_becomes_a_tuple<T: ResourceTracker>(vm: VmView<T>, id: HeapId, items: Seq<Value>)
    requires
        vm.stack.len() >= 1,
        vm.stack.last() == Value::Ref(id),
        vm.heap.data(id) matches Some(DataView::List(l)) && l.items == items,
        items.len() > 0,
        vm.list_tupled().result is Ok,
    ensures
        ({
            let after = vm.list_tupled().vm;
            &&& replaced_top(vm.stack, after.stack, 1)
            &&& after.heap.entries.last()->0.data matches Some(DataView::Tuple(t))
            &&& is_new(after.heap, after.stack.last(), DataView::Tuple(t))
            &&& t.len() == items.len()
            &&& forall|i: int| 0 <= i < items.len() ==> (#[trigger] t[i]) == items[i]
        }),
{
}

/// Unpacking a list or a tuple with as many items as there are targets leaves the items on the
/// stack, the first one on top; what is below the value stays.
pub proof fn unpacking_gives_the_items<T: ResourceTracker>(
    vm: VmView<T>,
    id: HeapId,
    v: Seq<Value>,
    count: usize,
)
    requires
        vm.stack.len() >= 1,
        vm.stack.last() == Value::Ref(id),
        vm.heap.data(id) matches Some(d) && (d matches DataView::List(l) && l.items == v || d
            == DataView::Tuple(v)),
    ensures
        ({
            let done = vm.unpacked(count);
            let base = vm.stack.len() - 1;
            &&& forall|i: int| 0 <= i < base ==> (#[trigger] done.vm.stack[i]) == vm.stack[i]
            &&& v.len() == count ==> {
                &&& done.result is Ok
                &&& done.vm.stack.len() == base + count
                &&& forall|k: int|
                    0 <= k < count ==> (#[trigger] done.vm.stack[base + count - 1 - k]) == v[k]
            }
            &&& v.len() != count ==> raises(done.result, ExcType::ValueError)
                && done.vm.stack.len() == base
        }),
{
    let done = vm.unpacked(count);
    let base = vm.stack.len() - 1;
    if v.len() == count {
        assert forall|k: int| 0 <= k < count implies (#[trigger] done.vm.stack[base + count - 1 - k])
            == v[k] by {
            assert(v.reverse()[count - 1 - k] == v[k]);
        }
    }
}

proof fn chars_are_strings<T: ResourceTracker>(h: HeapView<T>, chars: Seq<char>, n: int)
    requires
        0 <= n <= chars.len(),
        h.entries.len() + n <= usize::MAX,
        h.made_chars(chars, n).result is Ok,
    ensures
        ({
            let made = h.made_chars(chars, n);
            let items = made.result->Ok_0;
            &&& made.heap.entries.len() == h.entries.len() + n
            &&& items.len() == n
            &&& forall|k: int|
                0 <= k < n ==> ((#[trigger] items[k]) matches Value::Ref(x) && made.heap.data(x)
                    == Some(DataView::Str(seq![chars[k]])))
            &&& forall|x: HeapId|
                x.0 < h.entries.len() ==> #[trigger] made.heap.data(x) == h.data(x)
        }),
{
    chars_are_made(h, chars, n);
}

/// Unpacking a string with as many characters as there are targets leaves a string for each on
/// the stack, the first one on top.
pub proof fn unpacking_gives_the_characters<T: ResourceTracker>(
    vm: VmView<T>,
    text: Seq<char>,
    count: usize,
)
    requires
        vm.stack.len() >= 1,
        is_text(vm.heap, vm.interns, vm.stack.last(), text),
        vm.heap.release(vm.stack.last()).entries.len() + text.len() <= usize::MAX,
    ensures
        ({
            let done = vm.unpacked(count);
            let base = vm.stack.len() - 1;
            &&& text.len() != count ==> raises(done.result, ExcType::ValueError)
            &&& text.len() == count && done.result is Ok ==> {
                &&& done.vm.stack.len() == base + count
                &&& forall|i: int| 0 <= i < base ==> (#[trigger] done.vm.stack[i]) == vm.stack[i]
                &&& forall|k: int|
                    0 <= k < count ==> ((#[trigger] done.vm.stack[base + count - 1
                        - k]) matches Value::Ref(x) && done.vm.heap.data(x) == Some(
                        DataView::Str(seq![text[k]]),
                    ))
            }
        }),
{
    let done = vm.unpacked(count);
    let base = vm.stack.len() - 1;
    if text.len() == count && done.result is Ok {
        let h = vm.heap.release(vm.stack.last());
        chars_are_strings(h, text, count as int);
        let items = h.made_chars(text, count as int).result->Ok_0;
        assert forall|k: int| 0 <= k < count implies ((#[trigger] done.vm.stack[base + count - 1
            - k]) matches Value::Ref(x) && done.vm.heap.data(x) == Some(
            DataView::Str(seq![text[k]]),
        )) by {
            assert(items.reverse()[count - 1 - k] == items[k]);
        }
    }
}

/// What is neither a list, a tuple nor a string cannot be unpacked.
pub proof fn unpacking_wants_a_sequence<T: ResourceTracker>(
    vm: VmView<T>,
    count: usize,
    before: usize,
    after: usize,
)
    requires
        vm.stack.len() >= 1,
        match vm.stack.last() {
            Value::InternString(_) => false,
            Value::Ref(id) => !(vm.heap.data(id) matches Some(d) && (d is List || d is Tuple
                || d is Str)),
            _ => true,
        },
    ensures
        raises(vm.unpacked(count).result, ExcType::TypeError),
        raises(vm.unpacked_starred(before, after).result, ExcType::TypeError),
{
}

/// Unpacking with a starred target gives the first items to the targets before it, the last ones
/// to those after it, and a new list of the others to the starred one.
pub proof fn starred_unpacking_gives_the_items<T: ResourceTracker>(
    vm: VmView<T>,
    id: HeapId,
    v: Seq<Value>,
    before: usize,
    after: usize,
)
    requires
        vm.stack.len() >= 1,
        vm.stack.last() == Value::Ref(id),
        vm.heap.data(id) matches Some(d) && (d matches DataView::List(l) && l.items == v || d
            == DataView::Tuple(v)),
        before + after <= usize::MAX,
    ensures
        ({
            let done = vm.unpacked_starred(before, after);
            let base = vm.stack.len() - 1;
            let top = base + before + after;
            let n = v.len() as int;
            &&& n < before + after ==> raises(done.result, ExcType::ValueError)
                && done.vm.stack.len() == base
            &&& done.result is Ok ==> {
                &&& n >= before + after
                &&& done.vm.stack.len() == top + 1
                &&& forall|i: int| 0 <= i < base ==> (#[trigger] done.vm.stack[i]) == vm.stack[i]
                &&& forall|k: int|
                    0 <= k < before ==> (#[trigger] done.vm.stack[top - k]) == v[k]
                &&& forall|k: int|
                    0 <= k < after ==> (#[trigger] done.vm.stack[base + k]) == v[n - 1 - k]
                &&& done.vm.heap.entries.last()->0.data matches Some(DataView::List(l))
                &&& is_new(done.vm.heap, done.vm.stack[base + after], DataView::List(l))
                &&& l.items.len() == n - before - after
                &&& forall|k: int|
                    0 <= k < l.items.len() ==> (#[trigger] l.items[k]) == v[before + k]
            }
        }),
{
    let done = vm.unpacked_starred(before, after);
    let base = vm.stack.len() - 1;
    let top = base + before + after;
    let n = v.len() as int;
    if done.result is Ok {
        let list = done.vm.stack[base + after];
        let left = v.take(before as int).push(list) + v.skip(n - after);
        let m = left.len() as int;
        let made = vm.popped(1).with_heap(vm.heap.inc_values(v)).release(Value::Ref(id)).heap;
        assert(done.vm.stack.len() == base + m);
        assert forall|k: int| 0 <= k < before implies (#[trigger] done.vm.stack[top - k]) == v[k] by {
            assert(left.reverse()[m - 1 - k] == left[k]);
        }
        assert forall|k: int| 0 <= k < after implies (#[trigger] done.vm.stack[base + k]) == v[n - 1
            - k] by {
            assert(left[m - 1 - k] == v[n - 1 - k]);
        }
    }
}

/// Unpacking a string with a starred target gives strings of one character in the same way.
pub proof fn starred_unpacking_gives_the_characters<T: ResourceTracker>(
    vm: VmView<T>,
    text: Seq<char>,
    before: usize,
    after: usize,
)
    requires
        vm.stack.len() >= 1,
        is_text(vm.heap, vm.interns, vm.stack.last(), text),
        vm.heap.release(vm.stack.last()).entries.len() + text.len() < usize::MAX,
        before + after <= usize::MAX,
    ensures
        ({
            let done = vm.unpacked_starred(before, after);
            let base = vm.stack.len() - 1;
            let top = base + before + after;
            let n = text.len() as int;
            &&& n < before + after ==> raises(done.result, ExcType::ValueError)
            &&& done.result is Ok ==> {
                &&& n >= before + after
                &&& done.vm.stack.len() == top + 1
                &&& forall|k: int|
                    0 <= k < before ==> is_text(
                        done.vm.heap,
                        vm.interns,
                        #[trigger] done.vm.stack[top - k],
                        seq![text[k]],
                    )
                &&& forall|k: int|
                    0 <= k < after ==> is_text(
                        done.vm.heap,
                        vm.interns,
                        #[trigger] done.vm.stack[base + k],
                        seq![text[n - 1 - k]],
                    )
                &&& done.vm.heap.entries.last()->0.data matches Some(DataView::List(l))
                &&& is_new(done.vm.heap, done.vm.stack[base + after], DataView::List(l))
                &&& l.items.len() == n - before - after
                &&& forall|k: int|
                    0 <= k < l.items.len() ==> is_text(
                        done.vm.heap,
                        vm.interns,
                        #[trigger] l.items[k],
                        seq![text[before + k]],
                    )
            }
        }),
{
    let done = vm.unpacked_starred(before, after);
    let base = vm.stack.len() - 1;
    let top = base + before + after;
    let n = text.len() as int;
    if done.result is Ok {
        let h = vm.heap.release(vm.stack.last());
        chars_are_strings(h, text, n);
        let made = h.made_chars(text, n);
        let v = made.result->Ok_0;
        let list = done.vm.stack[base + after];
        let left = v.take(before as int).push(list) + v.skip(n - after);
        let m = left.len() as int;
        assert(done.vm.stack.len() == base + m);
        assert forall|k: int| 0 <= k < n implies is_text(
            done.vm.heap,
            vm.interns,
            #[trigger] v[k],
            seq![text[k]],
        ) by {
            let x = v[k]->Ref_0;
            assert(made.heap.data(x) == Some(DataView::Str(seq![text[k]])));
            assert(done.vm.heap.data(x) == made.heap.data(x));
        }
        assert forall|k: int| 0 <= k < before implies is_text(
            done.vm.heap,
            vm.interns,
            #[trigger] done.vm.stack[top - k],
            seq![text[k]],
        ) by {
            assert(left.reverse()[m - 1 - k] == left[k]);
            assert(left[k] == v[k]);
        }
        assert forall|k: int| 0 <= k < after implies is_text(
            done.vm.heap,
            vm.interns,
            #[trigger] done.vm.stack[base + k],
            seq![text[n - 1 - k]],
        ) by {
            assert(left[m - 1 - k] == v[n - 1 - k]);
        }
    }
}

/// Appending inside a comprehension puts the value on top behind the items of the list further
/// down; nothing else on the stack changes.
pub proof fn comprehension_appends<T: ResourceTracker>(vm: VmView<T>, depth: int, id: HeapId)
    requires
        0 <= depth,
        vm.stack.len() >= depth + 2,
        vm.stack[vm.stack.len() - 2 - depth] == Value::Ref(id),
        vm.heap.data(id) matches Some(DataView::List(_)),
    ensures
        ({
            let done = vm.item_appended(depth);
            let old_items = vm.heap.data(id)->0->List_0.items;
            let n = old_items.len() as int;
            &&& done.result is Ok
            &&& done.vm.stack == vm.stack.drop_last()
            &&& done.vm.heap.data(id) matches Some(DataView::List(l))
            &&& l.items.len() == n + 1
            &&& l.items[n] == vm.stack.last()
            &&& forall|i: int| 0 <= i < n ==> (#[trigger] l.items[i]) == old_items[i]
            &&& forall|x: HeapId| x != id ==> #[trigger] done.vm.heap.data(x) == vm.heap.data(x)
        }),
{
    assert(vm.popped(1).stack =~= vm.stack.drop_last());
}

/// Adding inside a comprehension adds the value on top to the set further down.
pub proof fn comprehension_adds<T: ResourceTracker>(vm: VmView<T>, depth: int, id: HeapId)
    requires
        0 <= depth,
        vm.stack.len() >= depth + 2,
        vm.stack[vm.stack.len() - 2 - depth] == Value::Ref(id),
        vm.heap.data(id) matches Some(DataView::PySet(_)),
        vm.item_added(depth).result is Ok,
        vm.item_added(depth).vm.heap.entry(id) is Some,
    ensures
        ({
            let done = vm.item_added(depth);
            let old_items = vm.heap.data(id)->0->PySet_0;
            let n = old_items.len() as int;
            let v = vm.stack.last();
            &&& done.vm.stack == vm.stack.drop_last()
            &&& done.vm.heap.data(id) matches Some(DataView::PySet(s))
            &&& s == old_items || (s.len() == n + 1 && s[n] == v && forall|i: int|
                0 <= i < n ==> (#[trigger] s[i]) == old_items[i])
            &&& s == old_items ==> exists|k: int|
                0 <= k < n && compares(
                    vm.heap.set_data(id, None),
                    vm.interns,
                    v,
                    #[trigger] old_items[k],
                    true,
                )
        }),
{
    assert(vm.popped(1).stack =~= vm.stack.drop_last());
    let old_items = vm.heap.data(id)->0->PySet_0;
    adding_an_item(vm.heap.set_data(id, None), vm.interns, old_items, vm.stack.last());
}

/// Setting an entry inside a comprehension: the key below the top gets the value on top in the
/// dict further down.
pub proof fn comprehension_sets<T: ResourceTracker>(vm: VmView<T>, depth: int, id: HeapId)
    requires
        0 <= depth,
        vm.stack.len() >= depth + 3,
        vm.stack[vm.stack.len() - 3 - depth] == Value::Ref(id),
        vm.heap.data(id) matches Some(DataView::Dict(_)),
        vm.item_set(depth).result is Ok,
        forall|k: int|
            0 <= k < vm.heap.data(id)->0->Dict_0.len() ==> compares(
                vm.heap.set_data(id, None),
                vm.interns,
                vm.stack[vm.stack.len() - 2],
                (#[trigger] vm.heap.data(id)->0->Dict_0[k]).0,
                false,
            ),
    ensures
        ({
            let done = vm.item_set(depth);
            let entries = vm.heap.data(id)->0->Dict_0;
            let n = entries.len() as int;
            &&& done.vm.stack == vm.stack.take(vm.stack.len() - 2)
            &&& done.vm.heap.data(id) matches Some(DataView::Dict(d))
            &&& d.len() == n + 1
            &&& d[n] == (vm.stack[vm.stack.len() - 2], vm.stack.last())
            &&& forall|i: int| 0 <= i < n ==> (#[trigger] d[i]) == entries[i]
        }),
{
    let entries = vm.heap.data(id)->0->Dict_0;
    let key = vm.stack[vm.stack.len() - 2];
    let known = keys_of(entries);
    let h = vm.heap.set_data(id, None);
    assert forall|i: int| 0 <= i < known.len() implies compares(
        h,
        vm.interns,
        key,
        #[trigger] known[i],
        false,
    ) by {
        assert(known[i] == entries[i].0);
    }
    nothing_equal(h, vm.interns, key, known, known.len() as int);
}

/// Whether the keys of entries are these texts.
pub open spec fn keyed_by<T>(
    h: HeapView<T>,
    interns: Interns,
    entries: Seq<(Value, Value)>,
    texts: Seq<Seq<char>>,
) -> bool {
    entries.len() == texts.len() && forall|i: int|
        0 <= i < entries.len() ==> is_text(h, interns, (#[trigger] entries[i]).0, texts[i])
}

/// A text that is the key of no entry is found in none.
pub proof fn text_is_not_among<T>(
    h: HeapView<T>,
    interns: Interns,
    entries: Seq<(Value, Value)>,
    texts: Seq<Seq<char>>,
    key: Value,
    text: Seq<char>,
)
    requires
        keyed_by(h, interns, entries, texts),
        is_text(h, interns, key, text),
        !texts.contains(text),
    ensures
        first_equal(
            h,
            interns,
            key,
            keys_of(entries),
            entries.len() as int,
            MAX_DATA_DEPTH as nat,
        ) == Ok::<Option<int>, ResourceError>(None),
        unhashable(h, key, MAX_DATA_DEPTH as nat) == Ok::<Option<Type>, ResourceError>(None),
{
    let known = keys_of(entries);
    assert forall|i: int| 0 <= i < known.len() implies compares(
        h,
        interns,
        key,
        #[trigger] known[i],
        false,
    ) by {
        assert(known[i] == entries[i].0);
        assert(texts[i] != text);
        texts_are_equal(h, interns, key, known[i], text, texts[i], MAX_DATA_DEPTH as nat);
    }
    nothing_equal(h, interns, key, known, known.len() as int);
}

proof fn text_is_found_among<T>(
    h: HeapView<T>,
    interns: Interns,
    entries: Seq<(Value, Value)>,
    texts: Seq<Seq<char>>,
    key: Value,
    text: Seq<char>,
    n: int,
)
    requires
        0 <= n <= entries.len(),
        keyed_by(h, interns, entries, texts),
        is_text(h, interns, key, text),
        texts.take(n).contains(text),
    ensures
        first_equal(h, interns, key, keys_of(entries), n, MAX_DATA_DEPTH as nat) matches Ok(Some(_)),
    decreases n,
{
    let known = keys_of(entries);
    let k = choose|k: int| 0 <= k < n && texts.take(n)[k] == text;
    assert(known[n - 1] == entries[n - 1].0);
    texts_are_equal(h, interns, key, known[n - 1], text, texts[n - 1], MAX_DATA_DEPTH as nat);
    if texts.take(n - 1).contains(text) {
        text_is_found_among(h, interns, entries, texts, key, text, n - 1);
    } else {
        if k < n - 1 {
            assert(texts.take(n - 1)[k] == text);
        }
        let first = entries.take(n - 1);
        let first_texts = texts.take(n - 1);
        assert(keyed_by(h, interns, first, first_texts)) by {
            assert(forall|i: int| 0 <= i < n - 1 ==> (#[trigger] first[i]) == entries[i]);
        }
        text_is_not_among(h, interns, first, first_texts, key, text);
        first_equal_of_longer(
            h,
            interns,
            key,
            keys_of(first),
            known,
            n - 1,
            MAX_DATA_DEPTH as nat,
        );
    }
}

proof fn still_text<T>(h: HeapView<T>, g: HeapView<T>, interns: Interns, v: Value, text: Seq<char>, id: HeapId)
    requires
        is_text(h, interns, v, text),
        forall|x: HeapId| x != id ==> #[trigger] g.data(x) == h.data(x),
        !(h.data(id) matches Some(DataView::Str(_))),
    ensures
        is_text(g, interns, v, text),
{
}

proof fn still_keyed<T>(
    h: HeapView<T>,
    g: HeapView<T>,
    interns: Interns,
    entries: Seq<(Value, Value)>,
    texts: Seq<Seq<char>>,
    id: HeapId,
)
    requires
        keyed_by(h, interns, entries, texts),
        forall|x: HeapId| x != id ==> #[trigger] g.data(x) == h.data(x),
        !(h.data(id) matches Some(DataView::Str(_))),
    ensures
        keyed_by(g, interns, entries, texts),
{
    assert forall|i: int| 0 <= i < entries.len() implies is_text(
        g,
        interns,
        (#[trigger] entries[i]).0,
        texts[i],
    ) by {
        still_text(h, g, interns, entries[i].0, texts[i], id);
    }
}

proof fn other_slots_stay<T>(h: HeapView<T>, id: HeapId, data: Option<DataView>)
    ensures
        forall|x: HeapId| x != id ==> #[trigger] h.set_data(id, data).data(x) == h.data(x),
        h.entry(id) is Some ==> h.set_data(id, data).data(id) == data,
{
}

proof fn merging_adds<T>(
    h: HeapView<T>,
    interns: Interns,
    func: Option<StringId>,
    mapping: Value,
    dict_id: HeapId,
    entries: Seq<(Value, Value)>,
    texts: Seq<Seq<char>>,
    pairs: Seq<(Value, Value)>,
    names: Seq<Seq<char>>,
    n: int,
)
    requires
        0 <= n <= pairs.len(),
        h.data(dict_id) == Some(DataView::Dict(entries)),
        keyed_by(h, interns, entries, texts),
        keyed_by(h, interns, pairs, names),
        forall|i: int| 0 <= i < n ==> !texts.contains(#[trigger] names[i]),
        forall|i: int, j: int| 0 <= i < j < n ==> #[trigger] names[i] != #[trigger] names[j],
    ensures
        ({
            let done = merged(h, interns, func, mapping, dict_id, pairs, n);
            &&& done.error is None
            &&& done.heap.data(dict_id) == Some(DataView::Dict(entries + pairs.take(n)))
            &&& forall|x: HeapId| x != dict_id ==> #[trigger] done.heap.data(x) == h.data(x)
        }),
    decreases n,
{
    if n > 0 {
        merging_adds(h, interns, func, mapping, dict_id, entries, texts, pairs, names, n - 1);
        let before = merged(h, interns, func, mapping, dict_id, pairs, n - 1).heap;
        let out = before.set_data(dict_id, None);
        other_slots_stay(before, dict_id, None);
        assert forall|x: HeapId| x != dict_id implies #[trigger] out.data(x) == h.data(x) by {
            assert(out.data(x) == before.data(x));
        }
        let (key, value) = pairs[n - 1];
        let sofar = entries + pairs.take(n - 1);
        let all = texts + names.take(n - 1);
        assert(keyed_by(h, interns, sofar, all)) by {
            assert forall|i: int| 0 <= i < sofar.len() implies is_text(
                h,
                interns,
                (#[trigger] sofar[i]).0,
                all[i],
            ) by {
                if i < entries.len() {
                    assert(sofar[i] == entries[i]);
                } else {
                    assert(sofar[i] == pairs[i - entries.len()]);
                }
            }
        }
        assert(is_text(h, interns, pairs[n - 1].0, names[n - 1]));
        still_text(h, before, interns, key, names[n - 1], dict_id);
        still_text(h, out, interns, key, names[n - 1], dict_id);
        still_keyed(h, out, interns, sofar, all, dict_id);
        assert(!all.contains(names[n - 1])) by {
            if all.contains(names[n - 1]) {
                let i = choose|i: int| 0 <= i < all.len() && all[i] == names[n - 1];
                if i < texts.len() {
                    assert(texts[i] == names[n - 1]);
                } else {
                    assert(names[i - texts.len()] == names[n - 1]);
                }
            }
        }
        text_is_not_among(out, interns, sofar, all, key, names[n - 1]);
        assert(sofar.push((key, value)) =~= entries + pairs.take(n));
        let set = dict_set(out, interns, sofar, key, value);
        let data = Some(DataView::Dict(set.content));
        other_slots_stay(set.heap, dict_id, data);
        let done = merged(h, interns, func, mapping, dict_id, pairs, n).heap;
        assert forall|x: HeapId| x != dict_id implies #[trigger] done.data(x) == h.data(x) by {
            assert(set.heap.data(x) == out.data(x));
        }
    } else {
        assert(entries + pairs.take(n) =~= entries);
    }
}

/// Merging keyword arguments with new names puts them behind those of the dict, in their order,
/// and leaves the dict on the stack.
pub proof fn merging_keeps_all_entries<T: ResourceTracker>(
    vm: VmView<T>,
    func_name_id: u16,
    dict_id: HeapId,
    other_id: HeapId,
    entries: Seq<(Value, Value)>,
    texts: Seq<Seq<char>>,
    pairs: Seq<(Value, Value)>,
    names: Seq<Seq<char>>,
)
    requires
        vm.stack.len() >= 2,
        vm.stack.last() == Value::Ref(other_id),
        vm.stack[vm.stack.len() - 2] == Value::Ref(dict_id),
        vm.heap.data(dict_id) == Some(DataView::Dict(entries)),
        vm.heap.data(other_id) == Some(DataView::Dict(pairs)),
        keyed_by(vm.heap, vm.interns, entries, texts),
        keyed_by(vm.heap, vm.interns, pairs, names),
        forall|i: int| 0 <= i < names.len() ==> !texts.contains(#[trigger] names[i]),
        forall|i: int, j: int|
            0 <= i < j < names.len() ==> #[trigger] names[i] != #[trigger] names[j],
    ensures
        ({
            let done = vm.dict_merged(func_name_id);
            let n = entries.len() as int;
            &&& done.result is Ok
            &&& done.vm.stack == vm.stack.drop_last()
            &&& done.vm.heap.data(dict_id) matches Some(d) ==> {
                &&& d matches DataView::Dict(all)
                &&& all.len() == n + pairs.len()
                &&& forall|i: int| 0 <= i < n ==> (#[trigger] all[i]) == entries[i]
                &&& forall|i: int|
                    n <= i < n + pairs.len() ==> (#[trigger] all[i]) == pairs[i - n]
            }
        }),
{
    let counted = vm.heap.inc_values(pair_values(pairs));
    assert forall|x: HeapId| #[trigger] counted.data(x) == vm.heap.data(x) by {
        counting_keeps_data(vm.heap, pair_values(pairs), Seq::empty(), x);
        assert(counted.inc_ids(Seq::empty()) == counted);
    }
    still_keyed(vm.heap, counted, vm.interns, entries, texts, dict_id);
    still_keyed(vm.heap, counted, vm.interns, pairs, names, dict_id);
    let func = named_function(func_name_id);
    let mapping = Value::Ref(other_id);
    let n = pairs.len() as int;
    merging_adds(
        counted,
        vm.interns,
        func,
        mapping,
        dict_id,
        entries,
        texts,
        pairs,
        names,
        n,
    );
    let done = merged(counted, vm.interns, func, mapping, dict_id, pairs, n).heap;
    release_value_only_frees(done, mapping);
    let _ = done.release(mapping).entry(dict_id);
    assert(pairs.take(n) =~= pairs);
    assert(vm.dict_merged(func_name_id).vm.stack =~= vm.stack.drop_last());
}

/// A keyword argument that is given twice is a `TypeError`.
pub proof fn merging_refuses_a_second_value<T: ResourceTracker>(
    vm: VmView<T>,
    func_name_id: u16,
    dict_id: HeapId,
    other_id: HeapId,
    entries: Seq<(Value, Value)>,
    texts: Seq<Seq<char>>,
    pairs: Seq<(Value, Value)>,
    names: Seq<Seq<char>>,
    k: int,
)
    requires
        vm.stack.len() >= 2,
        vm.stack.last() == Value::Ref(other_id),
        vm.stack[vm.stack.len() - 2] == Value::Ref(dict_id),
        vm.heap.data(dict_id) == Some(DataView::Dict(entries)),
        vm.heap.data(other_id) == Some(DataView::Dict(pairs)),
        keyed_by(vm.heap, vm.interns, entries, texts),
        keyed_by(vm.heap, vm.interns, pairs, names),
        0 <= k < names.len(),
        forall|i: int| 0 <= i < k ==> !texts.contains(#[trigger] names[i]),
        forall|i: int, j: int| 0 <= i < j < k ==> #[trigger] names[i] != #[trigger] names[j],
        texts.contains(names[k]),
    ensures
        raises(vm.dict_merged(func_name_id).result, ExcType::TypeError),
{
    let counted = vm.heap.inc_values(pair_values(pairs));
    assert forall|x: HeapId| #[trigger] counted.data(x) == vm.heap.data(x) by {
        counting_keeps_data(vm.heap, pair_values(pairs), Seq::empty(), x);
        assert(counted.inc_ids(Seq::empty()) == counted);
    }
    still_keyed(vm.heap, counted, vm.interns, entries, texts, dict_id);
    still_keyed(vm.heap, counted, vm.interns, pairs, names, dict_id);
    let func = named_function(func_name_id);
    let mapping = Value::Ref(other_id);
    merging_adds(
        counted,
        vm.interns,
        func,
        mapping,
        dict_id,
        entries,
        texts,
        pairs,
        names,
        k,
    );
    let before = merged(counted, vm.interns, func, mapping, dict_id, pairs, k).heap;
    let out = before.set_data(dict_id, None);
    other_slots_stay(before, dict_id, None);
    assert forall|x: HeapId| x != dict_id implies #[trigger] out.data(x) == counted.data(x) by {
        assert(out.data(x) == before.data(x));
    }
    let sofar = entries + pairs.take(k);
    let all = texts + names.take(k);
    assert(keyed_by(counted, vm.interns, sofar, all)) by {
        assert forall|i: int| 0 <= i < sofar.len() implies is_text(
            counted,
            vm.interns,
            (#[trigger] sofar[i]).0,
            all[i],
        ) by {
            if i < entries.len() {
                assert(sofar[i] == entries[i]);
            } else {
                assert(sofar[i] == pairs[i - entries.len()]);
            }
        }
    }
    let key = pairs[k].0;
    still_text(counted, before, vm.interns, key, names[k], dict_id);
    still_text(counted, out, vm.interns, key, names[k], dict_id);
    still_keyed(counted, out, vm.interns, sofar, all, dict_id);
    let i = choose|i: int| 0 <= i < texts.len() && texts[i] == names[k];
    assert(all.take(all.len() as int)[i] == names[k]);
    text_is_found_among(out, vm.interns, sofar, all, key, names[k], sofar.len() as int);
    merge_ends(
        counted,
        vm.interns,
        func,
        mapping,
        dict_id,
        pairs,
        k + 1,
        pairs.len() as int,
    );
}

/// Only a dict can be unpacked into keyword arguments, and its keys have to be strings.
pub proof fn merging_wants_named_entries<T: ResourceTracker>(
    vm: VmView<T>,
    func_name_id: u16,
    pairs: Seq<(Value, Value)>,
    dict_id: HeapId,
)
    requires
        vm.stack.len() >= 2,
        vm.stack[vm.stack.len() - 2] == Value::Ref(dict_id),
        match vm.stack.last() {
            Value::Ref(id) => match vm.heap.data(id) {
                Some(DataView::Dict(d)) => d.len() == 1 && (d[0].0 is Int || d[0].0 is PyNone),
                _ => true,
            },
            _ => true,
        },
    ensures
        raises(vm.dict_merged(func_name_id).result, ExcType::TypeError),
{
    if let Value::Ref(id) = vm.stack.last() {
        if let Some(DataView::Dict(d)) = vm.heap.data(id) {
            reveal_with_fuel(merged, 2);
        }
    }
}

} // verus!
