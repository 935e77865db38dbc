//! Why the operations of lists keep counted objects alive.
//!
//! While a method of a list runs, the list is out of the heap, and its items are held from
//! outside, as are the arguments. Afterwards the items the list has then and the result are.

use vstd::prelude::*;
use crate::containers::noted;
use crate::equality::{first_equal, first_equal_position};
use crate::heap::HeapView;
use crate::ids::HeapId;
use crate::list::{list_assigned, ListView};
use crate::list_laws::positional;
use crate::list_methods::{append_op, clear_op, insert_op, pop_op, remove_op};
use crate::interns::Interns;
use crate::indexing::position;
use crate::ownership::{needed, occurrences, occurrences_concat, release_value_keeps_sound, sound};
use crate::resource::MAX_DATA_DEPTH;
use crate::slicing::clamped;
use crate::value::{refs_of, Value};

verus! {

/// A heap that is sound for some references is sound for fewer.
pub proof fn sound_for_fewer<T>(h: HeapView<T>, more: Seq<HeapId>, fewer: Seq<HeapId>)
    requires
        sound(h, more),
        forall|id: HeapId| #[trigger] occurrences(fewer, id) <= occurrences(more, id),
    ensures
        sound(h, fewer),
{
    assert forall|id: HeapId| needed(h, fewer, id) > 0 implies (match #[trigger] h.entry(id) {
        None => false,
        Some(e) => e.refs == usize::MAX || e.refs >= needed(h, fewer, id),
    }) by {
        assert(occurrences(fewer, id) <= occurrences(more, id));
        assert(needed(h, more, id) >= needed(h, fewer, id));
    }
}

/// The references of values that follow one another.
pub proof fn refs_concat(a: Seq<Value>, b: Seq<Value>)
    ensures
        refs_of(a + b) == refs_of(a) + refs_of(b),
    decreases b.len(),
{
    if b.len() == 0 {
        assert(a + b =~= a);
        assert(refs_of(a) + refs_of(b) =~= refs_of(a));
    } else {
        assert((a + b).drop_last() =~= a + b.drop_last());
        refs_concat(a, b.drop_last());
        assert(refs_of(a + b) =~= refs_of(a) + refs_of(b));
    }
}

/// How often values refer to an object.
pub open spec fn references(values: Seq<Value>, id: HeapId) -> nat {
    occurrences(refs_of(values), id)
}

proof fn references_concat(a: Seq<Value>, b: Seq<Value>, id: HeapId)
    ensures
        references(a + b, id) == references(a, id) + references(b, id),
{
    refs_concat(a, b);
    occurrences_concat(refs_of(a), refs_of(b), id);
}

/// Taking an item out takes its reference out.
pub proof fn references_remove(items: Seq<Value>, k: int, id: HeapId)
    requires
        0 <= k < items.len(),
    ensures
        references(items.remove(k), id) + references(seq![items[k]], id) == references(items, id),
{
    let head = items.take(k);
    let tail = items.skip(k + 1);
    assert(items =~= head + seq![items[k]] + tail);
    assert(items.remove(k) =~= head + tail);
    references_concat(head + seq![items[k]], tail, id);
    references_concat(head, seq![items[k]], id);
    references_concat(head, tail, id);
}

/// Putting an item in puts its reference in.
pub proof fn references_insert(items: Seq<Value>, k: int, v: Value, id: HeapId)
    requires
        0 <= k <= items.len(),
    ensures
        references(items.insert(k, v), id) == references(items, id) + references(seq![v], id),
{
    let more = items.insert(k, v);
    assert(more.remove(k) =~= items);
    references_remove(more, k, id);
}

/// Giving up values that were held from outside keeps the rest alive.
pub proof fn release_values_keeps_sound<T>(h: HeapView<T>, roots: Seq<HeapId>, values: Seq<Value>)
    requires
        sound(h, roots + refs_of(values)),
    ensures
        sound(h.release_values(values), roots),
    decreases values.len(),
{
    if values.len() == 0 {
        assert(roots + refs_of(values) =~= roots);
    } else {
        let v = values.last();
        let held = match v {
            Value::Ref(id) => roots.push(id),
            _ => roots,
        };
        assert forall|id: HeapId| #[trigger]
            occurrences(held + refs_of(values.drop_last()), id) <= occurrences(
                roots + refs_of(values),
                id,
            ) by {
            occurrences_concat(held, refs_of(values.drop_last()), id);
            occurrences_concat(roots, refs_of(values), id);
            if let Value::Ref(target) = v {
                assert(held.drop_last() =~= roots);
                assert(refs_of(values).drop_last() =~= refs_of(values.drop_last()));
            }
        }
        sound_for_fewer(h, roots + refs_of(values), held + refs_of(values.drop_last()));
        release_values_keeps_sound(h, held, values.drop_last());
        release_value_keeps_sound(h.release_values(values.drop_last()), roots, v);
    }
}

proof fn noting_keeps_sound<T>(h: HeapView<T>, roots: Seq<HeapId>, v: Value)
    requires
        sound(h, roots),
    ensures
        sound(noted(h, v), roots),
{
    assert(noted(h, v).entries == h.entries);
    assert forall|id: HeapId| needed(noted(h, v), roots, id) > 0 implies (match #[trigger] noted(
        h,
        v,
    ).entry(id) {
        None => false,
        Some(e) => e.refs == usize::MAX || e.refs >= needed(noted(h, v), roots, id),
    }) by {
        assert(noted(h, v).entry(id) == h.entry(id));
    }
}

proof fn sound_for<T>(
    h: HeapView<T>,
    roots: Seq<HeapId>,
    before: Seq<Value>,
    passed: Seq<Value>,
    after: Seq<Value>,
    result: Seq<Value>,
)
    requires
        sound(h, roots + refs_of(before) + refs_of(passed)),
        forall|id: HeapId| #[trigger]
            references(after, id) + references(result, id) == references(before, id) + references(
                passed,
                id,
            ),
    ensures
        sound(h, roots + refs_of(after) + refs_of(result)),
{
    let more = roots + refs_of(before) + refs_of(passed);
    let fewer = roots + refs_of(after) + refs_of(result);
    assert forall|id: HeapId| #[trigger] occurrences(fewer, id) <= occurrences(more, id) by {
        occurrences_concat(roots + refs_of(before), refs_of(passed), id);
        occurrences_concat(roots, refs_of(before), id);
        occurrences_concat(roots + refs_of(after), refs_of(result), id);
        occurrences_concat(roots, refs_of(after), id);
        assert(references(after, id) + references(result, id) == references(before, id)
            + references(passed, id));
    }
    sound_for_fewer(h, more, fewer);
}

/// Appending hands the reference of the item to the list.
pub proof fn append_keeps_alive<T>(h: HeapView<T>, roots: Seq<HeapId>, list: ListView, item: Value)
    requires
        sound(h, roots + refs_of(list.items) + refs_of(seq![item])),
    ensures
        ({
            let done = append_op(h, list, positional(seq![item]));
            sound(done.heap, roots + refs_of(done.list.items) + refs_of(Seq::empty()))
        }),
{
    let after = list.items.push(item);
    assert forall|id: HeapId| #[trigger]
        references(after, id) + references(Seq::empty(), id) == references(list.items, id)
            + references(seq![item], id) by {
        assert(after =~= list.items + seq![item]);
        references_concat(list.items, seq![item], id);
    }
    sound_for(h, roots, list.items, seq![item], after, Seq::empty());
    noting_keeps_sound(h, roots + refs_of(after) + refs_of(Seq::empty()), item);
}

/// Inserting hands the reference of the item to the list.
pub proof fn insert_keeps_alive<T>(
    h: HeapView<T>,
    roots: Seq<HeapId>,
    list: ListView,
    index: i64,
    item: Value,
)
    requires
        sound(h, roots + refs_of(list.items) + refs_of(seq![item])),
    ensures
        ({
            let done = insert_op(h, list, positional(seq![Value::Int(index), item]));
            sound(done.heap, roots + refs_of(done.list.items) + refs_of(Seq::empty()))
        }),
{
    let n = list.items.len() as int;
    let at = clamped(index as int, n, 0, n);
    let after = list.inserted(at, item).items;
    assert(after =~= list.items.insert(at, item));
    assert forall|id: HeapId| #[trigger]
        references(after, id) + references(Seq::empty(), id) == references(list.items, id)
            + references(seq![item], id) by {
        references_insert(list.items, at, item, id);
    }
    sound_for(h, roots, list.items, seq![item], after, Seq::empty());
    noting_keeps_sound(h, roots + refs_of(after) + refs_of(Seq::empty()), item);
}

/// Popping hands the reference of the item to the caller.
pub proof fn pop_keeps_alive<T>(h: HeapView<T>, roots: Seq<HeapId>, list: ListView, index: i64)
    requires
        sound(h, roots + refs_of(list.items) + refs_of(Seq::empty())),
        pop_op(h, list, positional(seq![Value::Int(index)])).result is Ok,
    ensures
        ({
            let done = pop_op(h, list, positional(seq![Value::Int(index)]));
            sound(
                done.heap,
                roots + refs_of(done.list.items) + refs_of(seq![done.result->Ok_0]),
            )
        }),
{
    let p = position(index, list.items.len() as int)->0;
    let after = list.items.remove(p);
    assert forall|id: HeapId| #[trigger]
        references(after, id) + references(seq![list.items[p]], id) == references(list.items, id)
            + references(Seq::empty(), id) by {
        references_remove(list.items, p, id);
    }
    sound_for(h, roots, list.items, Seq::empty(), after, seq![list.items[p]]);
}

/// Removing gives up the argument and the item it equals, and nothing else.
pub proof fn remove_keeps_alive<T>(
    h: HeapView<T>,
    interns: Interns,
    roots: Seq<HeapId>,
    list: ListView,
    value: Value,
)
    requires
        sound(h, roots + refs_of(list.items) + refs_of(seq![value])),
        remove_op(h, interns, list, positional(seq![value])).result is Ok,
    ensures
        ({
            let done = remove_op(h, interns, list, positional(seq![value]));
            sound(done.heap, roots + refs_of(done.list.items))
        }),
{
    let n = list.items.len() as int;
    let room = MAX_DATA_DEPTH as nat;
    first_equal_position(h, interns, value, list.items, n, room);
    let k = first_equal(h, interns, value, list.items, n, room)->Ok_0->0;
    let after = list.items.remove(k);
    let given = seq![value, list.items[k]];
    let kept = roots + refs_of(after);
    assert forall|id: HeapId| #[trigger]
        occurrences(kept + refs_of(given), id) <= occurrences(
            roots + refs_of(list.items) + refs_of(seq![value]),
            id,
        ) by {
        occurrences_concat(kept, refs_of(given), id);
        occurrences_concat(roots, refs_of(after), id);
        occurrences_concat(roots + refs_of(list.items), refs_of(seq![value]), id);
        occurrences_concat(roots, refs_of(list.items), id);
        assert(given =~= seq![value] + seq![list.items[k]]);
        references_concat(seq![value], seq![list.items[k]], id);
        references_remove(list.items, k, id);
    }
    sound_for_fewer(
        h,
        roots + refs_of(list.items) + refs_of(seq![value]),
        kept + refs_of(given),
    );
    release_values_keeps_sound(h, kept, given);
    assert(given.drop_last() =~= seq![value]);
    assert(given.drop_last().drop_last() =~= Seq::empty());
    assert(h.release_values(given.drop_last()) == h.release_values(
        given.drop_last().drop_last(),
    ).release(value));
    assert(h.release_values(given) == h.release(value).release(list.items[k]));
}

/// Clearing gives up the items, and nothing else.
pub proof fn clear_keeps_alive<T>(h: HeapView<T>, roots: Seq<HeapId>, list: ListView)
    requires
        sound(h, roots + refs_of(list.items)),
    ensures
        ({
            let done = clear_op(h, list, positional(Seq::empty()));
            sound(done.heap, roots + refs_of(done.list.items))
        }),
{
    release_values_keeps_sound(h, roots, list.items);
    assert(roots + refs_of(Seq::empty()) =~= roots);
}

/// Assigning hands the reference of the value to the list and gives up that of the item it
/// replaces.
pub proof fn assignment_keeps_alive<T>(
    h: HeapView<T>,
    roots: Seq<HeapId>,
    list: ListView,
    index: i64,
    value: Value,
)
    requires
        sound(h, roots + refs_of(list.items) + refs_of(seq![value])),
        list_assigned(h, list, Value::Int(index), value).result is Ok,
    ensures
        ({
            let done = list_assigned(h, list, Value::Int(index), value);
            sound(done.heap, roots + refs_of(done.list.items))
        }),
{
    let p = position(index, list.items.len() as int)->0;
    let old_item = list.items[p];
    let after = list.items.update(p, value);
    let kept = roots + refs_of(after);
    assert forall|id: HeapId| #[trigger]
        occurrences(kept + refs_of(seq![old_item]), id) <= occurrences(
            roots + refs_of(list.items) + refs_of(seq![value]),
            id,
        ) by {
        occurrences_concat(kept, refs_of(seq![old_item]), id);
        occurrences_concat(roots, refs_of(after), id);
        occurrences_concat(roots + refs_of(list.items), refs_of(seq![value]), id);
        occurrences_concat(roots, refs_of(list.items), id);
        references_remove(list.items, p, id);
        references_remove(after, p, id);
        assert(after.remove(p) =~= list.items.remove(p));
    }
    sound_for_fewer(
        h,
        roots + refs_of(list.items) + refs_of(seq![value]),
        kept + refs_of(seq![old_item]),
    );
    release_values_keeps_sound(h, kept, seq![old_item]);
    assert(seq![old_item].drop_last() =~= Seq::empty());
    assert(h.release_values(seq![old_item]) == h.release_values(
        seq![old_item].drop_last(),
    ).release(old_item));
    noting_keeps_sound(h.release(old_item), kept, value);
}

} // verus!
