//! Why counted objects stay alive.
//!
//! A heap is sound for a sequence of outside references if every object has been counted
//! at least as often as it is referred to, by those references and by other objects. The
//! operations of the heap keep it so, which is why nothing that is still referred to is
//! ever freed.

use vstd::prelude::*;
use crate::heap::{dec_count, live_count, live_count_update, released_by, DataView, EntryView, HeapView};
use crate::ids::HeapId;
use crate::resource::ResourceTracker;
use crate::value::Value;

verus! {

/// How often `id` occurs among `ids`.
pub open spec fn occurrences(ids: Seq<HeapId>, id: HeapId) -> nat
    decreases ids.len(),
{
    if ids.len() == 0 {
        0
    } else {
        occurrences(ids.drop_last(), id) + (if ids.last() == id {
            1nat
        } else {
            0nat
        })
    }
}

/// The references an occupied slot holds.
pub open spec fn slot_refs(slot: Option<EntryView>) -> Seq<HeapId> {
    match slot {
        Some(EntryView { data: Some(d), .. }) => d.references(),
        _ => Seq::empty(),
    }
}

/// How often the objects in the slots refer to `id`.
pub open spec fn held(entries: Seq<Option<EntryView>>, id: HeapId) -> nat
    decreases entries.len(),
{
    if entries.len() == 0 {
        0
    } else {
        held(entries.drop_last(), id) + occurrences(slot_refs(entries.last()), id)
    }
}

/// How often `id` is referred to, by objects and by the outside references `roots`.
pub open spec fn needed<T>(h: HeapView<T>, roots: Seq<HeapId>, id: HeapId) -> nat {
    held(h.entries, id) + occurrences(roots, id)
}

/// Every object that is referred to is there, and counted often enough.
pub open spec fn sound<T>(h: HeapView<T>, roots: Seq<HeapId>) -> bool {
    forall|id: HeapId|
        needed(h, roots, id) > 0 ==> (match #[trigger] h.entry(id) {
            None => false,
            Some(e) => e.refs == usize::MAX || e.refs >= needed(h, roots, id),
        })
}

/// Occurrences in a concatenation add up.
pub proof fn occurrences_concat(a: Seq<HeapId>, b: Seq<HeapId>, id: HeapId)
    ensures
        occurrences(a + b, id) == occurrences(a, id) + occurrences(b, id),
    decreases b.len(),
{
    if b.len() == 0 {
        assert(a + b =~= a);
    } else {
        assert((a + b).drop_last() =~= a + b.drop_last());
        occurrences_concat(a, b.drop_last(), id);
    }
}

/// A reference that occurs is counted.
pub proof fn occurrences_contains(ids: Seq<HeapId>, id: HeapId)
    requires
        ids.contains(id),
    ensures
        occurrences(ids, id) > 0,
    decreases ids.len(),
{
    let i = choose|i: int| 0 <= i < ids.len() && ids[i] == id;
    if i < ids.len() - 1 {
        assert(ids.drop_last()[i] == id);
        occurrences_contains(ids.drop_last(), id);
    }
}

proof fn held_update(entries: Seq<Option<EntryView>>, i: int, slot: Option<EntryView>, id: HeapId)
    requires
        0 <= i < entries.len(),
    ensures
        held(entries.update(i, slot), id) + occurrences(slot_refs(entries[i]), id) == held(
            entries,
            id,
        ) + occurrences(slot_refs(slot), id),
    decreases entries.len(),
{
    let updated = entries.update(i, slot);
    if i == entries.len() - 1 {
        assert(updated.drop_last() =~= entries.drop_last());
    } else {
        held_update(entries.drop_last(), i, slot, id);
        assert(updated.drop_last() =~= entries.drop_last().update(i, slot));
    }
}

/// A counted reference that is held from outside is to an object that exists.
pub proof fn held_references_are_alive<T>(h: HeapView<T>, roots: Seq<HeapId>, id: HeapId)
    requires
        sound(h, roots),
        roots.contains(id),
    ensures
        h.entry(id) is Some,
{
    occurrences_contains(roots, id);
    assert(needed(h, roots, id) > 0);
}

/// An object that a live object refers to exists.
pub proof fn children_are_alive<T>(h: HeapView<T>, roots: Seq<HeapId>, parent: HeapId, child: HeapId)
    requires
        sound(h, roots),
        h.data(parent) is Some,
        h.data(parent)->0.references().contains(child),
    ensures
        h.entry(child) is Some,
{
    let i = parent.0 as int;
    let e = h.entries[i];
    occurrences_contains(slot_refs(e), child);
    held_update(h.entries, i, None, child);
    assert(occurrences(slot_refs(None), child) == 0);
    assert(needed(h, roots, child) > 0);
}

/// Counting a reference to an existing object pays for one more outside reference.
pub proof fn inc_keeps_sound<T>(h: HeapView<T>, roots: Seq<HeapId>, id: HeapId)
    requires
        sound(h, roots),
        h.entry(id) is Some,
    ensures
        sound(h.inc(id), roots.push(id)),
{
    let after = h.inc(id);
    assert(roots.push(id).drop_last() =~= roots);
    assert forall|x: HeapId| needed(after, roots.push(id), x) > 0 implies (match #[trigger] after.entry(
        x,
    ) {
        None => false,
        Some(e) => e.refs == usize::MAX || e.refs >= needed(after, roots.push(id), x),
    }) by {
        held_update(h.entries, id.0 as int, after.entries[id.0 as int], x);
        assert(slot_refs(after.entries[id.0 as int]) =~= slot_refs(h.entries[id.0 as int]));
        assert(needed(after, roots.push(id), x) == needed(h, roots, x) + (if x == id {
            1nat
        } else {
            0
        }));
        let _ = h.entry(x);
        if x != id {
            assert(after.entry(x) == h.entry(x));
        }
    }
}

/// Giving up references keeps every object that is still referred to.
pub proof fn release_keeps_sound<T>(h: HeapView<T>, roots: Seq<HeapId>, work: Seq<HeapId>)
    requires
        sound(h, roots + work),
    ensures
        sound(h.release_ids(work), roots),
    decreases live_count(h.entries), work.len(),
{
    if work.len() == 0 {
        assert(roots + work =~= roots);
    } else {
        let id = work.last();
        let rest = work.drop_last();
        assert((roots + work).last() == id);
        assert((roots + work).drop_last() =~= roots + rest);
        let all = roots + work;
        assert(needed(h, all, id) > 0);
        let e = h.entry(id)->0;
        let i = id.0 as int;
        if e.refs > 1 {
            let slot = Some(EntryView { refs: dec_count(e.refs), data: e.data });
            let after = h.set_entry(id, slot);
            live_count_update(h.entries, i, slot);
            assert forall|x: HeapId| needed(after, roots + rest, x) > 0 implies (match #[trigger] after.entry(
                x,
            ) {
                None => false,
                Some(f) => f.refs == usize::MAX || f.refs >= needed(after, roots + rest, x),
            }) by {
                held_update(h.entries, i, slot, x);
                assert(slot_refs(slot) =~= slot_refs(h.entries[i]));
                let _ = h.entry(x);
                assert(needed(h, all, x) == needed(after, roots + rest, x) + (if x == id {
                    1nat
                } else {
                    0
                }));
                if x != id {
                    assert(after.entry(x) == h.entry(x));
                }
            }
            release_keeps_sound(after, roots, rest);
        } else {
            let after = h.set_entry(id, None);
            let freed = released_by(e);
            live_count_update(h.entries, i, None);
            assert(roots + (rest + freed) =~= (roots + rest) + freed);
            assert forall|x: HeapId|
                needed(after, roots + (rest + freed), x) > 0 implies (match #[trigger] after.entry(x) {
                None => false,
                Some(f) => f.refs == usize::MAX || f.refs >= needed(
                    after,
                    roots + (rest + freed),
                    x,
                ),
            }) by {
                held_update(h.entries, i, None, x);
                assert(occurrences(slot_refs(None), x) == 0);
                occurrences_concat(roots + rest, freed, x);
                freed_are_held(e, x);
                let _ = h.entry(x);
                assert(needed(h, all, x) >= needed(after, roots + (rest + freed), x) + (if x == id {
                    1nat
                } else {
                    0
                }));
                if x != id {
                    assert(after.entry(x) == h.entry(x));
                }
            }
            release_keeps_sound(after, roots, rest + freed);
        }
    }
}

proof fn freed_are_held(e: EntryView, x: HeapId)
    ensures
        occurrences(released_by(e), x) <= occurrences(slot_refs(Some(e)), x),
{
    match e.data {
        Some(DataView::List(l)) => {
            assert(occurrences(Seq::empty(), x) == 0);
        },
        _ => {},
    }
}

/// A new object takes over the references it is built from.
pub proof fn allocate_keeps_sound<T: ResourceTracker>(
    h: HeapView<T>,
    roots: Seq<HeapId>,
    data: DataView,
)
    requires
        sound(h, roots + data.references()),
        h.tracker.admits(),
        h.entries.len() <= usize::MAX,
    ensures
        sound(h.allocated(data), roots.push(h.next_id()->Ok_0)),
{
    let after = h.allocated(data);
    let new_id = HeapId(h.entries.len() as usize);
    let paid = roots + data.references();
    assert(after.entries.drop_last() =~= h.entries);
    assert(roots.push(new_id).drop_last() =~= roots);
    assert forall|x: HeapId| needed(after, roots.push(new_id), x) > 0 implies (match #[trigger] after.entry(
        x,
    ) {
        None => false,
        Some(e) => e.refs == usize::MAX || e.refs >= needed(after, roots.push(new_id), x),
    }) by {
        occurrences_concat(roots, data.references(), x);
        let _ = h.entry(x);
        assert(h.entry(new_id) is None);
        assert(needed(after, roots.push(new_id), x) == needed(h, paid, x) + (if x == new_id {
            1nat
        } else {
            0
        }));
    }
}

/// Changing an object exchanges the references it holds for those held outside.
pub proof fn replace_keeps_sound<T>(
    h: HeapView<T>,
    roots: Seq<HeapId>,
    id: HeapId,
    data: Option<DataView>,
)
    requires
        h.entry(id) is Some,
        sound(h, roots + slot_refs(Some(EntryView { refs: 1, data }))),
    ensures
        sound(h.set_data(id, data), roots + slot_refs(h.entry(id))),
{
    let e = h.entry(id)->0;
    let slot = Some(EntryView { refs: e.refs, data });
    let fresh = slot_refs(Some(EntryView { refs: 1, data }));
    let after = h.set_data(id, data);
    assert(slot_refs(slot) =~= fresh);
    assert forall|x: HeapId|
        needed(after, roots + slot_refs(h.entry(id)), x) > 0 implies (match #[trigger] after.entry(x) {
        None => false,
        Some(f) => f.refs == usize::MAX || f.refs >= needed(
            after,
            roots + slot_refs(h.entry(id)),
            x,
        ),
    }) by {
        held_update(h.entries, id.0 as int, slot, x);
        occurrences_concat(roots, fresh, x);
        occurrences_concat(roots, slot_refs(h.entry(id)), x);
        let _ = h.entry(x);
        assert(needed(after, roots + slot_refs(h.entry(id)), x) == needed(h, roots + fresh, x));
        if x != id {
            assert(after.entry(x) == h.entry(x));
        }
    }
}

/// Giving up a value that was held from outside keeps the rest alive.
pub proof fn release_value_keeps_sound<T>(h: HeapView<T>, roots: Seq<HeapId>, v: Value)
    requires
        sound(
            h,
            match v {
                Value::Ref(id) => roots.push(id),
                _ => roots,
            },
        ),
    ensures
        sound(h.release(v), roots),
{
    if let Value::Ref(id) = v {
        assert(roots.push(id) =~= roots + seq![id]);
        release_keeps_sound(h, roots, seq![id]);
    }
}

/// Whether one heap has come from another by freeing objects and changing counts: what is still
/// there is as it was.
pub open spec fn only_freed<T>(h: HeapView<T>, after: HeapView<T>) -> bool {
    forall|id: HeapId|
        (#[trigger] after.entry(id)) is Some ==> h.entry(id) is Some && after.entry(id)->0.data
            == h.entry(id)->0.data
}

/// Giving up references changes no object that is still there.
pub proof fn release_only_frees<T>(h: HeapView<T>, work: Seq<HeapId>)
    ensures
        only_freed(h, h.release_ids(work)),
        h.release_ids(work).tracker == h.tracker,
    decreases live_count(h.entries), work.len(),
{
    if work.len() > 0 {
        let id = work.last();
        let rest = work.drop_last();
        match h.entry(id) {
            None => {
                release_only_frees(h, rest);
            },
            Some(e) => {
                let slot = if e.refs > 1 {
                    Some(EntryView { refs: dec_count(e.refs), data: e.data })
                } else {
                    None
                };
                let after = h.set_entry(id, slot);
                live_count_update(h.entries, id.0 as int, slot);
                assert(only_freed(h, after));
                if e.refs > 1 {
                    release_only_frees(after, rest);
                } else {
                    release_only_frees(after, rest + released_by(e));
                }
            },
        }
    }
}

/// Giving up a value changes no object that is still there.
pub proof fn release_value_only_frees<T>(h: HeapView<T>, v: Value)
    ensures
        only_freed(h, h.release(v)),
        h.release(v).tracker == h.tracker,
{
    if let Value::Ref(id) = v {
        release_only_frees(h, seq![id]);
    }
}

/// Giving up values changes no object that is still there.
pub proof fn release_values_only_frees<T>(h: HeapView<T>, values: Seq<Value>)
    ensures
        only_freed(h, h.release_values(values)),
        h.release_values(values).tracker == h.tracker,
    decreases values.len(),
{
    if values.len() > 0 {
        let rest = values.drop_last();
        release_values_only_frees(h, rest);
        release_value_only_frees(h.release_values(rest), values.last());
    }
}

/// Whether no object refers to `id`.
pub open spec fn unheld<T>(h: HeapView<T>, id: HeapId) -> bool {
    forall|i: int| 0 <= i < h.entries.len() ==> !slot_refs(#[trigger] h.entries[i]).contains(id)
}

/// Giving up references leaves an object alone that is not among them and that no other object
/// refers to.
pub proof fn release_spares<T>(h: HeapView<T>, work: Seq<HeapId>, id: HeapId)
    requires
        unheld(h, id),
        !work.contains(id),
    ensures
        h.release_ids(work).entry(id) == h.entry(id),
        unheld(h.release_ids(work), id),
    decreases live_count(h.entries), work.len(),
{
    if work.len() > 0 {
        let x = work.last();
        let rest = work.drop_last();
        assert(work.contains(x));
        assert(!rest.contains(id)) by {
            assert(forall|k: int| 0 <= k < rest.len() ==> rest[k] == work[k]);
        }
        match h.entry(x) {
            None => {
                release_spares(h, rest, id);
            },
            Some(e) => {
                let i = x.0 as int;
                if e.refs > 1 {
                    let slot = Some(EntryView { refs: dec_count(e.refs), data: e.data });
                    let after = h.set_entry(x, slot);
                    live_count_update(h.entries, i, slot);
                    assert(slot_refs(slot) == slot_refs(h.entries[i]));
                    release_spares(after, rest, id);
                } else {
                    let after = h.set_entry(x, None);
                    let freed = released_by(e);
                    live_count_update(h.entries, i, None);
                    assert(!slot_refs(h.entries[i]).contains(id));
                    assert(!(rest + freed).contains(id)) by {
                        assert(forall|k: int|
                            0 <= k < (rest + freed).len() ==> (rest + freed)[k] == (if k
                                < rest.len() {
                                rest[k]
                            } else {
                                freed[k - rest.len()]
                            }));
                    }
                    release_spares(after, rest + freed, id);
                }
            },
        }
    }
}

/// Giving up values leaves an object alone that is not among them and that no other object
/// refers to.
pub proof fn release_values_spares<T>(h: HeapView<T>, values: Seq<Value>, id: HeapId)
    requires
        unheld(h, id),
        !values.contains(Value::Ref(id)),
    ensures
        h.release_values(values).entry(id) == h.entry(id),
        unheld(h.release_values(values), id),
    decreases values.len(),
{
    if values.len() > 0 {
        let rest = values.drop_last();
        assert(values.contains(values.last()));
        assert(forall|k: int| 0 <= k < rest.len() ==> rest[k] == values[k]);
        release_values_spares(h, rest, id);
        if let Value::Ref(x) = values.last() {
            assert(x != id);
            release_spares(h.release_values(rest), seq![x], id);
        }
    }
}

/// Giving up references one by one leaves an object alone that is not among them and that no
/// other object refers to.
pub proof fn release_each_spares<T>(h: HeapView<T>, ids: Seq<HeapId>, id: HeapId)
    requires
        unheld(h, id),
        !ids.contains(id),
    ensures
        h.release_each(ids).entry(id) == h.entry(id),
        unheld(h.release_each(ids), id),
    decreases ids.len(),
{
    if ids.len() > 0 {
        let rest = ids.drop_last();
        assert(ids.contains(ids.last()));
        assert(forall|k: int| 0 <= k < rest.len() ==> rest[k] == ids[k]);
        release_each_spares(h, rest, id);
        release_spares(h.release_each(rest), seq![ids.last()], id);
    }
}

} // verus!
