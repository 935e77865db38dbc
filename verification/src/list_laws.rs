//! What holds of lists as a whole.

use vstd::prelude::*;
use crate::args::{release_option, scan_two_keywords, ArgsView};
use crate::error::{Callee, ErrorView, Fault};
use crate::heap::{DataView, HeapView};
use crate::ids::HeapId;
use crate::equality::{equal, first_equal, first_equal_position};
use crate::indexing::{as_int, position};
use crate::iteration::collected;
use crate::interns::{Interns, StaticStrings};
use crate::list::{list_assigned, list_iadded, list_item, ListView};
use crate::list_methods::{
    append_op, copy_op, count_equal, count_op, index_op, insert_op, method_op, pop_op, reverse_op,
};
use crate::ordering::{arrangement_has_no_duplicates, different_positions_are_all, SortBy};
use crate::ownership::{only_freed, release_value_only_frees, release_values_only_frees};
use crate::resource::{ResourceError, ResourceTracker, MAX_DATA_DEPTH};
use crate::slicing::clamped;
use crate::sort::{
    abandoned, put_back, rearranged, sort_compared, sort_finished, sort_released, sort_started,
    sorted_by, SortView,
};
use crate::types::ExcType;
use crate::value::{has_refs, Value};

verus! {

/// The arguments of a call with these positional arguments only.
pub open spec fn positional(pos: Seq<Value>) -> ArgsView {
    ArgsView { pos, pairs: Seq::empty() }
}

proof fn fewer_refs(items: Seq<Value>, fewer: Seq<Value>)
    requires
        forall|i: int| 0 <= i < fewer.len() ==> items.contains(#[trigger] fewer[i]),
    ensures
        has_refs(fewer) ==> has_refs(items),
{
    if has_refs(fewer) {
        let i = choose|i: int| 0 <= i < fewer.len() && (#[trigger] fewer[i]) is Ref;
        let k = choose|k: int| 0 <= k < items.len() && items[k] == fewer[i];
        assert(items[k] is Ref);
    }
}

/// The flag of a new list says whether it holds references.
pub proof fn new_list_has_flag(items: Seq<Value>)
    ensures
        ListView::of(items).flag_ok(),
        ListView::of(items).contains_refs == has_refs(items),
{
}

/// A list that has been added to may be dropped as its flag says, and the flag never falls.
pub proof fn additions_keep_flag(list: ListView, index: int, item: Value, items: Seq<Value>)
    requires
        list.flag_ok(),
        0 <= index,
    ensures
        list.appended(item).flag_ok(),
        list.inserted(index, item).flag_ok(),
        list.extended(items).flag_ok(),
        index < list.items.len() ==> list.replaced(index, item).flag_ok(),
        list.contains_refs ==> {
            &&& list.appended(item).contains_refs
            &&& list.inserted(index, item).contains_refs
            &&& list.extended(items).contains_refs
            &&& list.replaced(index, item).contains_refs
        },
{
    if !(item is Ref) && !list.contains_refs {
        let appended = list.appended(item).items;
        if has_refs(appended) {
            let i = choose|i: int| 0 <= i < appended.len() && (#[trigger] appended[i]) is Ref;
            assert(list.items[i] is Ref);
        }
        let inserted = list.inserted(index, item).items;
        if has_refs(inserted) {
            let i = choose|i: int| 0 <= i < inserted.len() && (#[trigger] inserted[i]) is Ref;
            if index >= list.items.len() || i < index {
                assert(list.items[i] is Ref);
            } else {
                assert(list.items[i - 1] is Ref);
            }
        }
        let replaced = list.replaced(index, item).items;
        if index < list.items.len() && has_refs(replaced) {
            let i = choose|i: int| 0 <= i < replaced.len() && (#[trigger] replaced[i]) is Ref;
            assert(list.items[i] is Ref);
        }
    }
    let extended = list.extended(items).items;
    if has_refs(extended) && !list.contains_refs {
        let i = choose|i: int| 0 <= i < extended.len() && (#[trigger] extended[i]) is Ref;
        if i < list.items.len() {
            assert(list.items[i] is Ref);
        } else {
            assert(items[i - list.items.len()] is Ref);
        }
    }
}

/// No method makes a list deny references that it holds, and none makes the flag fall.
pub proof fn methods_keep_flag<T: ResourceTracker>(
    h: HeapView<T>,
    interns: Interns,
    list: ListView,
    method: StaticStrings,
    args: ArgsView,
)
    requires
        list.flag_ok(),
    ensures
        method_op(h, interns, list, method, args).list.flag_ok(),
        list.contains_refs ==> method_op(h, interns, list, method, args).list.contains_refs,
{
    let n = list.items.len() as int;
    match method {
        StaticStrings::Append => {
            additions_keep_flag(list, 0, args.pos[0], Seq::empty());
        },
        StaticStrings::Insert => {
            if let Ok(i) = as_int(h, args.pos[0]) {
                additions_keep_flag(list, clamped(i as int, n, 0, n), args.pos[1], Seq::empty());
            }
        },
        StaticStrings::Extend => {
            if let Ok(items) = collected(h, interns, args.pos[0]).result {
                additions_keep_flag(list, 0, Value::PyNone, items);
            }
        },
        StaticStrings::Pop => {
            let index = if args.pos.len() == 0 {
                Ok(-1i64)
            } else {
                as_int(h, args.pos[0])
            };
            if let Ok(i) = index {
                if let Some(p) = position(i, n) {
                    fewer_refs(list.items, list.items.remove(p));
                }
            }
        },
        StaticStrings::Remove => {
            let room = MAX_DATA_DEPTH as nat;
            if let Ok(Some(k)) = first_equal(h, interns, args.pos[0], list.items, n, room) {
                first_equal_position(h, interns, args.pos[0], list.items, n, room);
                fewer_refs(list.items, list.items.remove(k));
            }
        },
        StaticStrings::Reverse => {
            fewer_refs(list.items, list.items.reverse());
        },
        StaticStrings::Clear => {
            fewer_refs(list.items, Seq::empty());
        },
        _ => {},
    }
}

/// Extending in place, also by the list itself, keeps the flag, which does not fall.
pub proof fn iadd_keeps_flag<T>(
    h: HeapView<T>,
    list: ListView,
    other: Value,
    self_id: Option<HeapId>,
)
    requires
        list.flag_ok(),
        list_iadded(h, list, other, self_id) is Some,
    ensures
        (list_iadded(h, list, other, self_id)->0).0.flag_ok(),
        list.contains_refs ==> (list_iadded(h, list, other, self_id)->0).0.contains_refs,
{
    let after = (list_iadded(h, list, other, self_id)->0).0;
    if has_refs(after.items) {
        let i = choose|i: int| 0 <= i < after.items.len() && (#[trigger] after.items[i]) is Ref;
        if i < list.items.len() {
            assert(list.items[i] is Ref);
        } else if Some(other->Ref_0) == self_id {
            assert(list.items[i - list.items.len()] is Ref);
        } else {
            let items = h.data(other->Ref_0)->0->List_0.items;
            assert(items[i - list.items.len()] is Ref);
        }
    }
}

/// Assigning to an item keeps the flag, which does not fall.
pub proof fn assignment_keeps_flag<T>(h: HeapView<T>, list: ListView, key: Value, value: Value)
    requires
        list.flag_ok(),
    ensures
        list_assigned(h, list, key, value).list.flag_ok(),
        list.contains_refs ==> list_assigned(h, list, key, value).list.contains_refs,
{
    let after = list_assigned(h, list, key, value).list;
    if after != list && has_refs(after.items) && !after.contains_refs {
        let i = choose|i: int| 0 <= i < after.items.len() && (#[trigger] after.items[i]) is Ref;
        assert(list.items[i] is Ref);
    }
}

proof fn option_only_frees<T>(h: HeapView<T>, v: Option<Value>)
    ensures
        only_freed(h, release_option(h, v)),
{
    if let Some(x) = v {
        release_value_only_frees(h, x);
    }
}

proof fn keyword_scan_only_frees<T>(
    h: HeapView<T>,
    interns: Interns,
    callee: Callee,
    one: Seq<char>,
    two: Seq<char>,
    pairs: Seq<(Value, Value)>,
    n: int,
)
    ensures
        only_freed(h, scan_two_keywords(h, interns, callee, one, two, pairs, n).heap),
    decreases n,
{
    if n > 0 {
        keyword_scan_only_frees(h, interns, callee, one, two, pairs, n - 1);
        let before = scan_two_keywords(h, interns, callee, one, two, pairs, n - 1);
        let (key, value) = pairs[n - 1];
        let freed = before.heap.release(key);
        release_value_only_frees(before.heap, key);
        release_value_only_frees(freed, value);
        option_only_frees(freed, before.first);
        option_only_frees(freed, before.second);
    }
}

/// Taking the items out of a list for a sort leaves its flag alone, so that it still allows for
/// them when they come back.
pub proof fn started_sort_keeps_flag<T>(
    h: HeapView<T>,
    list_id: HeapId,
    list: ListView,
    args: ArgsView,
    interns: Interns,
)
    requires
        h.data(list_id) == Some(DataView::List(list)),
        sort_started(h, list_id, args, interns).result is Ok,
    ensures
        ({
            let started = sort_started(h, list_id, args, interns);
            &&& started.heap.data(list_id) == Some(
                DataView::List(list.with_items(Seq::<Value>::empty())),
            )
            &&& started.result->Ok_0.items == list.items
            &&& list.with_items(Seq::<Value>::empty()).flag_ok()
            &&& list.with_items(Seq::<Value>::empty()).contains_refs == list.contains_refs
        }),
{
    let pairs = args.pairs;
    let n = pairs.len() as int;
    keyword_scan_only_frees(h, interns, Callee::ListSort, "key"@, "reverse"@, pairs, n);
    let scan = scan_two_keywords(h, interns, Callee::ListSort, "key"@, "reverse"@, pairs, n);
    option_only_frees(scan.heap, scan.second);
    assert(only_freed(h, release_option(scan.heap, scan.second)));
}

/// Putting items back into a list that allows for them keeps its flag, whether a sort succeeds
/// or is given up.
pub proof fn finished_sort_keeps_flag<T>(
    job: SortView,
    h: HeapView<T>,
    interns: Interns,
    result: Result<(), ErrorView>,
    after: HeapView<T>,
    list: ListView,
)
    requires
        sort_finished(job, h, interns, result, after),
        job.key_fn is Some ==> job.keys.len() == job.items.len(),
        h.data(job.list_id) == Some(DataView::List(list)),
        list.flag_ok(),
        has_refs(job.items) ==> list.contains_refs,
    ensures
        result is Ok ==> after.data(job.list_id) is Some,
        after.data(job.list_id) matches Some(d) ==> (d matches DataView::List(m) && m.flag_ok()
            && m.contains_refs == list.contains_refs),
{
    let compared = sort_compared(job, h);
    let released = sort_released(job, h);
    option_only_frees(h, job.key_fn);
    release_values_only_frees(compared, job.keys);
    assert(only_freed(h, released));
    let s = SortBy { heap: compared, interns, values: sorted_by(job), reverse: job.reverse };
    if released.data(job.list_id) is Some {
        let _ = released.entry(job.list_id);
        if s.sortable() {
            let p = choose|p: Seq<usize>| #[trigger]
                s.sorts(p) && after == put_back(released, job.list_id, rearranged(job.items, p));
            fewer_refs(job.items, rearranged(job.items, p));
            put_back_keeps_flag(released, job.list_id, list, rearranged(job.items, p));
        } else {
            put_back_keeps_flag(released, job.list_id, list, job.items);
        }
    }
}

/// A sort that is abandoned because a key could not be computed keeps the flag as well.
pub proof fn abandoned_sort_keeps_flag<T>(job: SortView, h: HeapView<T>, list: ListView)
    requires
        h.data(job.list_id) == Some(DataView::List(list)),
        list.flag_ok(),
        has_refs(job.items) ==> list.contains_refs,
    ensures
        abandoned(h, job).data(job.list_id) matches Some(d) ==> (d matches DataView::List(m)
            && m.flag_ok() && m.contains_refs == list.contains_refs),
{
    let keyless = h.release_values(job.keys);
    let released = release_option(keyless, job.key_fn);
    release_values_only_frees(h, job.keys);
    option_only_frees(keyless, job.key_fn);
    assert(only_freed(h, released));
    if released.data(job.list_id) is Some {
        let _ = released.entry(job.list_id);
        put_back_keeps_flag(released, job.list_id, list, job.items);
    }
}

/// Putting items back into a list that allows for them keeps its flag.
pub proof fn put_back_keeps_flag<T>(h: HeapView<T>, id: HeapId, l: ListView, items: Seq<Value>)
    requires
        h.data(id) == Some(DataView::List(l)),
        l.flag_ok(),
        has_refs(items) ==> l.contains_refs,
    ensures
        put_back(h, id, items).data(id) matches Some(DataView::List(m)) && m.flag_ok()
            && m.contains_refs == l.contains_refs,
{
    let all = l.items + items;
    if has_refs(all) && !l.contains_refs {
        let i = choose|i: int| 0 <= i < all.len() && (#[trigger] all[i]) is Ref;
        if i < l.items.len() {
            assert(l.items[i] is Ref);
        } else {
            assert(items[i - l.items.len()] is Ref);
        }
    }
}

/// Popping an item at its place undoes inserting it there.
pub proof fn pop_undoes_insert<T>(
    h: HeapView<T>,
    later: HeapView<T>,
    list: ListView,
    index: i64,
    item: Value,
)
    requires
        0 <= index <= list.items.len(),
        list.items.len() < i64::MAX,
    ensures
        ({
            let inserted = insert_op(h, list, positional(seq![Value::Int(index), item]));
            let popped = pop_op(later, inserted.list, positional(seq![Value::Int(index)]));
            &&& inserted.result == Ok::<Value, ErrorView>(Value::PyNone)
            &&& popped.result == Ok::<Value, ErrorView>(item)
            &&& popped.list.items == list.items
            &&& popped.heap == later
        }),
{
    let after = list.inserted(index as int, item);
    assert(after.items.remove(index as int) =~= list.items);
}

/// Whether a value equals an item.
pub open spec fn equals<T>(h: HeapView<T>, interns: Interns, v: Value, item: Value) -> bool {
    equal(h, interns, v, item, MAX_DATA_DEPTH as nat) == Ok::<bool, ResourceError>(true)
}

/// Counting a value gives the number of items it equals, and looking for it is refused exactly
/// if that is zero. Neither changes the list.
pub proof fn count_agrees_with_index<T>(
    h: HeapView<T>,
    interns: Interns,
    list: ListView,
    v: Value,
)
    requires
        forall|i: int|
            0 <= i < list.items.len() ==> equal(
                h,
                interns,
                v,
                #[trigger] list.items[i],
                MAX_DATA_DEPTH as nat,
            ) is Ok,
        list.items.len() <= i64::MAX,
        list.items.len() <= usize::MAX,
    ensures
        ({
            let c = list.items.filter(|x: Value| equals(h, interns, v, x)).len();
            let counted = count_op(h, interns, list, positional(seq![v]));
            let found = index_op(h, interns, list, positional(seq![v]));
            &&& counted.result == Ok::<Value, ErrorView>(Value::Int(c as i64))
            &&& c == 0 <==> found.result == Err::<Value, ErrorView>(
                ErrorView::fault(ExcType::ValueError, Fault::NotInList),
            )
            &&& counted.list == list
            &&& found.list == list
        }),
{
    let n = list.items.len() as int;
    count_and_search(h, interns, list.items, v, n);
    assert(list.items.take(n) =~= list.items);
    assert(list.items.subrange(0, n) =~= list.items);
}

proof fn count_and_search<T>(h: HeapView<T>, interns: Interns, items: Seq<Value>, v: Value, n: int)
    requires
        0 <= n <= items.len(),
        forall|i: int|
            0 <= i < items.len() ==> equal(
                h,
                interns,
                v,
                #[trigger] items[i],
                MAX_DATA_DEPTH as nat,
            ) is Ok,
    ensures
        ({
            let room = MAX_DATA_DEPTH as nat;
            let c = items.take(n).filter(|x: Value| equals(h, interns, v, x)).len();
            let counted = count_equal(h, interns, v, items, n, room);
            let found = first_equal(h, interns, v, items, n, room);
            &&& counted == (c, room)
            &&& c <= n
            &&& found is Ok
            &&& c == 0 <==> found == Ok::<Option<int>, ResourceError>(None)
        }),
    decreases n,
{
    reveal(Seq::filter);
    if n > 0 {
        count_and_search(h, interns, items, v, n - 1);
        assert(items.take(n).drop_last() =~= items.take(n - 1));
        assert(items.take(n).last() == items[n - 1]);
    }
}

/// Popping the last item undoes appending it.
pub proof fn pop_undoes_append<T>(h: HeapView<T>, list: ListView, item: Value)
    requires
        list.items.len() < i64::MAX,
    ensures
        ({
            let appended = append_op(h, list, positional(seq![item])).list;
            let popped = pop_op(h, appended, positional(Seq::empty()));
            &&& popped.result == Ok::<Value, ErrorView>(item)
            &&& popped.list.items == list.items
            &&& popped.heap == h
        }),
{
    let appended = list.appended(item);
    assert(appended.items.remove(appended.items.len() - 1) =~= list.items);
}

/// An item that is inserted is found at its place, and the others keep their order.
pub proof fn inserted_item_is_found<T: ResourceTracker>(
    h: HeapView<T>,
    list: ListView,
    index: i64,
    item: Value,
)
    requires
        list.items.len() < i64::MAX,
    ensures
        ({
            let n = list.items.len() as int;
            let at = clamped(index as int, n, 0, n);
            let after = insert_op(h, list, positional(seq![Value::Int(index), item])).list;
            &&& 0 <= at <= n
            &&& after.items[at] == item
            &&& after.items.take(at) + after.items.skip(at + 1) == list.items
        }),
{
    let n = list.items.len() as int;
    let at = clamped(index as int, n, 0, n);
    let after = list.inserted(at, item);
    assert(after.items.take(at) + after.items.skip(at + 1) =~= list.items);
}

/// Reversing a list twice gives the same list.
pub proof fn reversing_twice_changes_nothing<T>(h: HeapView<T>, list: ListView)
    ensures
        reverse_op(
            h,
            reverse_op(h, list, positional(Seq::empty())).list,
            positional(Seq::empty()),
        ).list == list,
{
    assert(list.items.reverse().reverse() =~= list.items);
}

/// An item that is assigned is what the same subscript then gives, and the other items stay.
pub proof fn assigned_item_is_read<T: ResourceTracker>(
    h: HeapView<T>,
    later: HeapView<T>,
    list: ListView,
    index: i64,
    value: Value,
    other: int,
)
    requires
        list_assigned(h, list, Value::Int(index), value).result is Ok,
        0 <= other < list.items.len(),
        position(index, list.items.len() as int) != Some(other),
    ensures
        ({
            let after = list_assigned(h, list, Value::Int(index), value).list;
            &&& list_item(later, after.items, Value::Int(index)).result == Ok::<Value, ErrorView>(
                value,
            )
            &&& after.items.len() == list.items.len()
            &&& after.items[other] == list.items[other]
        }),
{
}

/// A negative index counts from the end.
pub proof fn negative_index_counts_from_end<T: ResourceTracker>(
    h: HeapView<T>,
    items: Seq<Value>,
    back: i64,
)
    requires
        1 <= back <= items.len(),
        items.len() <= i64::MAX,
    ensures
        list_item(h, items, Value::Int((-back) as i64)) == list_item(
            h,
            items,
            Value::Int((items.len() - back) as i64),
        ),
        list_item(h, items, Value::Int((-back) as i64)).result == Ok::<Value, ErrorView>(
            items[items.len() - back],
        ),
{
}

/// A copy is a new list of the same items.
pub proof fn copy_has_same_items<T: ResourceTracker>(h: HeapView<T>, list: ListView)
    requires
        h.entries.len() < usize::MAX,
        copy_op(h, list, positional(Seq::empty())).result is Ok,
    ensures
        ({
            let done = copy_op(h, list, positional(Seq::empty()));
            &&& done.list == list
            &&& done.result matches Ok(Value::Ref(id))
            &&& h.data(id) is None
            &&& done.heap.data(id) == Some(DataView::List(ListView::of(list.items)))
        }),
{
    counting_adds_no_slots(h, list.items);
}

proof fn counting_adds_no_slots<T>(h: HeapView<T>, values: Seq<Value>)
    ensures
        h.inc_values(values).entries.len() == h.entries.len(),
    decreases values.len(),
{
    if values.len() > 0 {
        counting_adds_no_slots(h, values.drop_last());
    }
}

proof fn permuted_items_are_the_same(items: Seq<Value>, p: Seq<usize>)
    requires
        p.no_duplicates(),
        p.len() == items.len(),
        forall|i: int| 0 <= i < p.len() ==> (#[trigger] p[i]) < p.len(),
    ensures
        rearranged(items, p).to_multiset() == items.to_multiset(),
    decreases items.len(),
{
    broadcast use vstd::seq_lib::group_to_multiset_ensures;

    let n = items.len() as int;
    let arranged = rearranged(items, p);
    if n > 0 {
        different_positions_are_all(p, n - 1);
        let k = choose|k: int| 0 <= k < p.len() && (#[trigger] p[k]) == n - 1;
        let rest = p.remove(k);
        assert forall|i: int| 0 <= i < rest.len() implies (#[trigger] rest[i]) < rest.len() by {
            let j = if i < k {
                i
            } else {
                i + 1
            };
            assert(rest[i] == p[j] && p[j] != p[k]);
        }
        permuted_items_are_the_same(items.drop_last(), rest);
        assert(arranged.remove(k) =~= rearranged(items.drop_last(), rest));
        assert(items.remove(n - 1) =~= items.drop_last());
        let last = items[n - 1];
        assert(arranged[k] == last);
        assert(arranged.contains(last) && items.contains(last));
        assert(arranged.to_multiset().remove(last).insert(last) =~= arranged.to_multiset());
        assert(items.to_multiset().remove(last).insert(last) =~= items.to_multiset());
    } else {
        assert(arranged =~= items);
    }
}

/// A sorted arrangement is made of the same items, each as often as before, and of any two the
/// one that has to come first does.
pub proof fn sort_arranges_items<T>(s: SortBy<T>, items: Seq<Value>, p: Seq<usize>)
    requires
        s.sorts(p),
        s.values.len() == items.len(),
    ensures
        rearranged(items, p).to_multiset() == items.to_multiset(),
        forall|i: int, j: int|
            0 <= i < j < p.len() ==> s.before(
                (#[trigger] p[i]) as int,
                (#[trigger] p[j]) as int,
            ),
{
    arrangement_has_no_duplicates(s, p);
    permuted_items_are_the_same(items, p);
}

} // verus!
