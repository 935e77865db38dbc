//! How objects are counted and freed.

use vstd::prelude::*;
use crate::asyncio::{counted_cells, CoroutineView};
use crate::heap::{pair_values, released_by, DataView, EntryView, HeapView};
use crate::ids::{FunctionId, HeapId};
use crate::resource::ResourceTracker;
use crate::value::{refs_of, Value};

verus! {

/// Counting a reference makes the count of its object larger by one, and changes nothing else.
pub proof fn counting_adds_one<T>(h: HeapView<T>, id: HeapId, e: EntryView, other: HeapId)
    requires
        h.entry(id) == Some(e),
        e.refs < usize::MAX,
        other != id,
    ensures
        h.inc_value(Value::Ref(id)).entry(id) == Some(EntryView { refs: (e.refs + 1) as usize, ..e }),
        h.inc_value(Value::Ref(id)).entry(other) == h.entry(other),
        h.inc_value(Value::Int(0)) == h,
{
}

/// Giving up one of several references makes the count smaller by one; the object stays.
pub proof fn releasing_takes_one<T>(h: HeapView<T>, id: HeapId, e: EntryView, other: HeapId)
    requires
        h.entry(id) == Some(e),
        1 < e.refs < usize::MAX,
        other != id,
    ensures
        h.release(Value::Ref(id)).entry(id) == Some(EntryView { refs: (e.refs - 1) as usize, ..e }),
        h.release(Value::Ref(id)).entry(other) == h.entry(other),
        h.release(Value::Int(0)) == h,
{
    reveal_with_fuel(HeapView::release_ids, 3);
    assert(seq![id].drop_last() =~= Seq::empty());
}

/// Giving up the last reference to an object frees it; an object that refers to no other takes
/// nothing with it.
pub proof fn last_release_frees<T>(h: HeapView<T>, id: HeapId, e: EntryView, other: HeapId)
    requires
        h.entry(id) == Some(e),
        e.refs <= 1,
        e.data matches Some(d) && (d is Str || d is Bytes || d is LongInt || d is Range),
        other != id,
    ensures
        h.release(Value::Ref(id)).entry(id) is None,
        h.release(Value::Ref(id)).entry(other) == h.entry(other),
{
    reveal_with_fuel(HeapView::release_ids, 3);
    assert(seq![id].drop_last() =~= Seq::empty());
    assert(seq![id].drop_last() + released_by(e) =~= Seq::empty());
}

/// A list that is freed gives up its items: an item that it alone referred to is freed with it.
pub proof fn freed_list_gives_up_its_items<T>(
    h: HeapView<T>,
    id: HeapId,
    e: EntryView,
    item: HeapId,
    f: EntryView,
)
    requires
        id != item,
        h.entry(id) == Some(e),
        e.refs <= 1,
        e.data matches Some(DataView::List(l)) && l.items == seq![Value::Ref(item)]
            && l.contains_refs,
        h.entry(item) == Some(f),
        f.refs < usize::MAX,
        f.data matches Some(d) && (d is Str || d is LongInt),
    ensures
        h.release(Value::Ref(id)).entry(id) is None,
        f.refs <= 1 ==> h.release(Value::Ref(id)).entry(item) is None,
        f.refs > 1 ==> h.release(Value::Ref(id)).entry(item) == Some(
            EntryView { refs: (f.refs - 1) as usize, ..f },
        ),
{
    reveal_with_fuel(HeapView::release_ids, 4);
    reveal_with_fuel(refs_of, 3);
    let items = e.data->0->List_0.items;
    assert(items.drop_last() =~= Seq::empty());
    assert(released_by(e) =~= seq![item]);
    assert(seq![id].drop_last() + released_by(e) =~= seq![item]);
    assert(seq![item].drop_last() =~= Seq::empty());
    assert(seq![item].drop_last() + released_by(f) =~= Seq::empty());
}

/// A new object has the next id and is counted once; the others stay as they are.
pub proof fn new_objects_are_counted_once<T: ResourceTracker>(
    h: HeapView<T>,
    data: DataView,
    other: HeapId,
)
    requires
        h.tracker.admits(),
        h.entries.len() < usize::MAX,
    ensures
        ({
            let id = HeapId(h.entries.len() as usize);
            &&& h.next_id() matches Ok(next) && next == id
            &&& h.entry(id) is None
            &&& h.allocated(data).entry(id) == Some(EntryView { refs: 1, data: Some(data) })
            &&& other != id ==> h.allocated(data).entry(other) == h.entry(other)
            &&& h.allocated(data).tracker == h.tracker.charged()
        }),
{
}

/// An allocation that is not allowed changes nothing.
pub proof fn refused_allocation_changes_nothing<T: ResourceTracker>(h: HeapView<T>, data: DataView)
    requires
        !h.tracker.admits(),
    ensures
        h.allocated(data) == h,
        h.next_id() matches Err(e) && e == h.tracker.refusal(),
{
}

/// A fresh heap has no objects.
pub proof fn fresh_heap_is_empty<T>(tracker: T, id: HeapId)
    ensures
        HeapView::fresh(tracker).entry(id) is None,
        HeapView::fresh(tracker).entries.len() == 0,
        HeapView::fresh(tracker).tracker == tracker,
{
}

/// The references of values are to the objects they refer to.
pub proof fn references_are_listed(values: Seq<Value>, i: int, id: HeapId)
    requires
        0 <= i < values.len(),
        values[i] == Value::Ref(id),
    ensures
        refs_of(values).contains(id),
    decreases values.len(),
{
    let rest = values.drop_last();
    if i < values.len() - 1 {
        references_are_listed(rest, i, id);
        let before = refs_of(rest);
        let k = choose|k: int| 0 <= k < before.len() && before[k] == id;
        assert(refs_of(values)[k] == id);
    } else {
        let all = refs_of(values);
        assert(all[all.len() - 1] == id);
    }
}

/// A list or a tuple holds its items, and gives them up when it dies; so does a set.
pub proof fn sequences_hold_their_items(data: DataView, items: Seq<Value>, i: int, id: HeapId)
    requires
        data == DataView::Tuple(items) || data == DataView::PySet(items) || (
        data matches DataView::List(l) && l.items == items && l.contains_refs),
        0 <= i < items.len(),
        items[i] == Value::Ref(id),
    ensures
        data.references().contains(id),
        data.released_on_death().contains(id),
{
    references_are_listed(items, i, id);
}

/// A dict holds its keys and its values.
pub proof fn dicts_hold_keys_and_values(pairs: Seq<(Value, Value)>, i: int, id: HeapId)
    requires
        0 <= i < pairs.len(),
        pairs[i].0 == Value::Ref(id) || pairs[i].1 == Value::Ref(id),
    ensures
        DataView::Dict(pairs).references().contains(id),
        DataView::Dict(pairs).released_on_death().contains(id),
{
    keys_and_values_are_listed(pairs, i);
    let values = pair_values(pairs);
    if pairs[i].0 == Value::Ref(id) {
        let k = choose|k: int| 0 <= k < values.len() && values[k] == pairs[i].0;
        references_are_listed(values, k, id);
    } else {
        let k = choose|k: int| 0 <= k < values.len() && values[k] == pairs[i].1;
        references_are_listed(values, k, id);
    }
}

proof fn keys_and_values_are_listed(pairs: Seq<(Value, Value)>, i: int)
    requires
        0 <= i < pairs.len(),
    ensures
        pair_values(pairs).contains(pairs[i].0),
        pair_values(pairs).contains(pairs[i].1),
    decreases pairs.len(),
{
    let rest = pairs.drop_last();
    let all = pair_values(pairs);
    let before = pair_values(rest);
    if i < pairs.len() - 1 {
        keys_and_values_are_listed(rest, i);
        let k = choose|k: int| 0 <= k < before.len() && before[k] == pairs[i].0;
        assert(all[k] == pairs[i].0);
        let j = choose|j: int| 0 <= j < before.len() && before[j] == pairs[i].1;
        assert(all[j] == pairs[i].1);
    } else {
        assert(all[all.len() - 2] == pairs[i].0);
        assert(all[all.len() - 1] == pairs[i].1);
    }
}

/// A closure holds the cells it has captured and its defaults; a cell holds its value.
pub proof fn closures_hold_their_cells(
    f: FunctionId,
    cells: Seq<HeapId>,
    defaults: Seq<Value>,
    i: int,
    id: HeapId,
)
    ensures
        0 <= i < cells.len() ==> DataView::Closure(f, cells, defaults).references().contains(
            cells[i],
        ),
        0 <= i < defaults.len() && defaults[i] == Value::Ref(id) ==> DataView::Closure(
            f,
            cells,
            defaults,
        ).references().contains(id) && DataView::FunctionDefaults(f, defaults).references().contains(
            id,
        ),
        DataView::Cell(Value::Ref(id)).references().contains(id),
{
    let held = DataView::Closure(f, cells, defaults).references();
    if 0 <= i < cells.len() {
        assert(held[i] == cells[i]);
    }
    if 0 <= i < defaults.len() && defaults[i] == Value::Ref(id) {
        references_are_listed(defaults, i, id);
        let refs = refs_of(defaults);
        let k = choose|k: int| 0 <= k < refs.len() && refs[k] == id;
        assert(held[cells.len() + k] == id);
    }
    references_are_listed(seq![Value::Ref(id)], 0, id);
}

/// A coroutine holds its variables.
pub proof fn coroutines_hold_their_variables(c: CoroutineView, i: int, id: HeapId)
    requires
        0 <= i < c.namespace.len(),
        c.namespace[i] == Value::Ref(id),
    ensures
        DataView::Coroutine(c).references().contains(id),
        DataView::Coroutine(c).released_on_death().contains(id),
{
    references_are_listed(c.namespace, i, id);
    let refs = refs_of(c.namespace);
    let k = choose|k: int| 0 <= k < refs.len() && refs[k] == id;
    let cells = counted_cells(c.frame_cells, c.own_cells);
    assert(DataView::Coroutine(c).references()[cells.len() + k] == id);
}

} // verus!
