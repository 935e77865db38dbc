//! What holds of the instructions that build collections.

use vstd::prelude::*;
use crate::equality::keys_of;
use crate::heap::{pair_values, DataView, EntryView, HeapView};
use crate::ids::HeapId;
use crate::iteration::{produced, Produced};
use crate::list::ListView;
use crate::list_laws::additions_keep_flag;
use crate::list_methods::noted_all;
use crate::list_ownership::{refs_concat, sound_for_fewer};
use crate::ownership::{
    allocate_keeps_sound, children_are_alive, held_references_are_alive, inc_keeps_sound, needed,
    occurrences, occurrences_concat, only_freed, release_value_keeps_sound,
    release_value_only_frees, replace_keeps_sound, slot_refs, sound,
};
use crate::resource::{ResourceError, ResourceTracker};
use crate::value::{refs_of, refs_of_push, Value};
use crate::vm::async_exec::counting_keeps_data;
use crate::vm::VmView;

verus! {

/// Whether the objects that values refer to exist.
pub open spec fn all_alive<T>(h: HeapView<T>, values: Seq<Value>) -> bool {
    forall|i: int|
        0 <= i < values.len() ==> (#[trigger] values[i] matches Value::Ref(id) ==> h.entry(
            id,
        ) is Some)
}

proof fn refs_contain(values: Seq<Value>, id: HeapId)
    requires
        values.contains(Value::Ref(id)),
    ensures
        refs_of(values).contains(id),
    decreases values.len(),
{
    let k = choose|k: int| 0 <= k < values.len() && values[k] == Value::Ref(id);
    let rest = values.drop_last();
    if k == rest.len() {
        assert(refs_of(values)[refs_of(rest).len() as int] == id);
    } else {
        assert(rest[k] == Value::Ref(id));
        refs_contain(rest, id);
        let j = choose|j: int| 0 <= j < refs_of(rest).len() && refs_of(rest)[j] == id;
        assert(refs_of(values)[j] == id);
    }
}

proof fn keys_are_held(pairs: Seq<(Value, Value)>, k: int)
    requires
        0 <= k < pairs.len(),
    ensures
        pair_values(pairs).contains(pairs[k].0),
    decreases pairs.len(),
{
    let rest = pairs.drop_last();
    let before = pair_values(rest);
    if k == rest.len() {
        assert(pair_values(pairs)[before.len() as int] == pairs[k].0);
    } else {
        keys_are_held(rest, k);
        let j = choose|j: int| 0 <= j < before.len() && before[j] == rest[k].0;
        assert(pair_values(pairs)[j] == pairs[k].0);
    }
}

/// What iterating over a live value produces is alive.
proof fn produced_are_alive<T: ResourceTracker>(
    vm: VmView<T>,
    roots: Seq<HeapId>,
    iterable: Value,
    items: Seq<Value>,
)
    requires
        sound(vm.heap, roots),
        produced(vm.heap, vm.interns, iterable) == Some(Produced::Values(items)),
    ensures
        all_alive(vm.heap, items),
{
    assert forall|i: int| 0 <= i < items.len() implies (#[trigger] items[i] matches Value::Ref(id)
        ==> vm.heap.entry(id) is Some) by {
        if let Value::Ref(id) = items[i] {
            let parent = iterable->Ref_0;
            let d = vm.heap.data(parent)->0;
            if let DataView::Dict(pairs) = d {
                keys_are_held(pairs, i);
                assert(keys_of(pairs)[i] == pairs[i].0);
                refs_contain(pair_values(pairs), id);
            } else {
                assert(items.contains(Value::Ref(id)));
                refs_contain(items, id);
            }
            children_are_alive(vm.heap, roots, parent, id);
        }
    }
}

/// Counting values whose objects exist pays for holding them from outside.
proof fn counting_keeps_sound<T>(h: HeapView<T>, roots: Seq<HeapId>, values: Seq<Value>)
    requires
        sound(h, roots),
        all_alive(h, values),
    ensures
        sound(h.inc_values(values), roots + refs_of(values)),
        forall|id: HeapId| h.entry(id) is Some ==> (#[trigger] h.inc_values(values).entry(
            id,
        )) is Some,
    decreases values.len(),
{
    if values.len() == 0 {
        assert(roots + refs_of(values) =~= roots);
    } else {
        let rest = values.drop_last();
        assert(forall|i: int| 0 <= i < rest.len() ==> rest[i] == values[i]);
        counting_keeps_sound(h, roots, rest);
        assert forall|id: HeapId| h.entry(id) is Some implies (#[trigger] h.inc_values(
            values,
        ).entry(id)) is Some by {
            assert(h.inc_values(rest).entry(id) is Some);
        }
        if let Value::Ref(id) = values.last() {
            assert(values[values.len() - 1] == Value::Ref(id));
            inc_keeps_sound(h.inc_values(rest), roots + refs_of(rest), id);
            assert((roots + refs_of(rest)).push(id) =~= roots + refs_of(values));
        }
    }
}

proof fn marking_keeps_sound<T>(h: HeapView<T>, roots: Seq<HeapId>)
    requires
        sound(h, roots),
    ensures
        sound(h.cycle_marked(), roots),
{
    let after = h.cycle_marked();
    assert forall|id: HeapId| needed(after, roots, id) > 0 implies (match #[trigger] after.entry(
        id,
    ) {
        None => false,
        Some(e) => e.refs == usize::MAX || e.refs >= needed(after, roots, id),
    }) by {
        assert(after.entry(id) == h.entry(id));
    }
}

/// Handing counted items to a list in the heap keeps what is referred to alive.
proof fn handing_over_keeps_sound<T>(
    h: HeapView<T>,
    roots: Seq<HeapId>,
    id: HeapId,
    l: ListView,
    items: Seq<Value>,
)
    requires
        sound(h, roots + refs_of(items)),
        h.data(id) == Some(DataView::List(l)),
    ensures
        sound(h.set_data(id, Some(DataView::List(l.extended(items)))), roots),
{
    let paid = roots + refs_of(items);
    let none = slot_refs(Some(EntryView { refs: 1, data: None }));
    assert(paid + none =~= paid);
    replace_keeps_sound(h, paid, id, None);
    let taken = h.set_data(id, None);
    let all = refs_of(l.items + items);
    assert(slot_refs(h.entry(id)) == refs_of(l.items));
    assert forall|x: HeapId| #[trigger] occurrences(roots + all, x) <= occurrences(
        paid + refs_of(l.items),
        x,
    ) by {
        refs_concat(l.items, items);
        occurrences_concat(roots, all, x);
        occurrences_concat(refs_of(l.items), refs_of(items), x);
        occurrences_concat(paid, refs_of(l.items), x);
        occurrences_concat(roots, refs_of(items), x);
    }
    sound_for_fewer(taken, paid + refs_of(l.items), roots + all);
    let data = Some(DataView::List(l.extended(items)));
    replace_keeps_sound(taken, roots, id, data);
    assert(roots + slot_refs(taken.entry(id)) =~= roots);
    assert(taken.set_data(id, data).entries =~= h.set_data(id, data).entries);
    assert(taken.set_data(id, data) == h.set_data(id, data));
}

/// What extending a list by live values leads to: the list has them behind its own items, and
/// what is referred to stays alive.
proof fn extension_keeps_alive<T: ResourceTracker>(
    vm: VmView<T>,
    roots: Seq<HeapId>,
    iterable: Value,
    id: HeapId,
    l: ListView,
    items: Seq<Value>,
)
    requires
        vm.heap.data(id) == Some(DataView::List(l)),
        sound(vm.heap, roots + refs_of(seq![Value::Ref(id), iterable])),
        all_alive(vm.heap, items),
    ensures
        ({
            let done = vm.extension_ended(iterable, Value::Ref(id), items).vm.heap;
            &&& done.data(id) == Some(DataView::List(l.extended(items)))
            &&& sound(done, roots.push(id))
            &&& only_freed(
                vm.heap.inc_values(items).set_data(id, Some(DataView::List(l.extended(items)))),
                done,
            )
        }),
{
    let counted = vm.heap.inc_values(items);
    let outside = roots + refs_of(seq![Value::Ref(id), iterable]);
    counting_keeps_sound(vm.heap, outside, items);
    counting_keeps_data(vm.heap, items, Seq::empty(), id);
    assert(counted.inc_ids(Seq::empty()) == counted);
    handing_over_keeps_sound(counted, outside, id, l, items);
    let extended = counted.set_data(id, Some(DataView::List(l.extended(items))));
    marking_keeps_sound(extended, outside);
    let marked = noted_all(extended, items);
    let held = match iterable {
        Value::Ref(x) => roots.push(id).push(x),
        _ => roots.push(id),
    };
    assert(seq![Value::Ref(id), iterable] =~= Seq::empty().push(Value::Ref(id)).push(iterable));
    refs_of_push(Seq::empty(), Value::Ref(id));
    refs_of_push(Seq::empty().push(Value::Ref(id)), iterable);
    assert(held =~= outside);
    release_value_keeps_sound(marked, roots.push(id), iterable);
    release_value_only_frees(marked, iterable);
    assert(roots.push(id)[roots.len() as int] == id);
    held_references_are_alive(marked.release(iterable), roots.push(id), id);
    assert(forall|x: HeapId| marked.entry(x) == extended.entry(x));
}

/// Extending a list by a list, tuple, set, dict, range or bytes succeeds. The list stays on the
/// stack and has the items that iterating over the other value produces behind its own; its flag
/// allows for them. The list itself may be that value.
///
/// The references on the stack are counted; `roots` are those held elsewhere.
pub proof fn list_is_extended<T: ResourceTracker>(
    vm: VmView<T>,
    roots: Seq<HeapId>,
    id: HeapId,
    l: ListView,
    items: Seq<Value>,
)
    requires
        vm.stack.len() >= 2,
        vm.top(1) == Value::Ref(id),
        vm.heap.data(id) == Some(DataView::List(l)),
        produced(vm.heap, vm.interns, vm.top(0)) == Some(Produced::Values(items)),
        sound(vm.heap, roots + refs_of(seq![vm.top(1), vm.top(0)])),
    ensures
        ({
            let done = vm.list_extended();
            &&& done.result is Ok
            &&& done.vm.stack == vm.stack.drop_last()
            &&& done.vm.heap.data(id) == Some(DataView::List(l.extended(items)))
            &&& sound(done.vm.heap, roots.push(id))
        }),
        l.extended(items).items == l.items + items,
        l.flag_ok() ==> l.extended(items).flag_ok(),
        l.contains_refs ==> l.extended(items).contains_refs,
{
    let outside = roots + refs_of(seq![vm.top(1), vm.top(0)]);
    produced_are_alive(vm, outside, vm.top(0), items);
    extension_keeps_alive(vm.popped(2), roots, vm.top(0), id, l, items);
    assert(vm.list_extended().vm.stack =~= vm.stack.drop_last());
    if l.flag_ok() {
        additions_keep_flag(l, 0, Value::PyNone, items);
    }
}

proof fn chars_keep_sound<T: ResourceTracker>(
    h: HeapView<T>,
    roots: Seq<HeapId>,
    chars: Seq<char>,
    n: int,
)
    requires
        sound(h, roots),
        0 <= n <= chars.len(),
        h.entries.len() + n <= usize::MAX,
        h.made_chars(chars, n).result is Ok,
    ensures
        ({
            let made = h.made_chars(chars, n);
            let items = made.result->Ok_0;
            &&& sound(made.heap, roots)
            &&& made.heap.entries.len() == h.entries.len() + n
            &&& items.len() == n
            &&& forall|k: int|
                0 <= k < n ==> (#[trigger] items[k]) is Ref && made.heap.data(items[k]->Ref_0)
                    == Some(DataView::Str(seq![chars[k]]))
            &&& forall|id: HeapId| h.entry(id) is Some ==> made.heap.entry(id) == h.entry(id)
        }),
    decreases n,
{
    if n > 0 {
        chars_keep_sound(h, roots, chars, n - 1);
        let before = h.made_chars(chars, n - 1);
        let data = DataView::Str(seq![chars[n - 1]]);
        assert(roots + data.references() =~= roots);
        allocate_keeps_sound(before.heap, roots, data);
        let id = before.heap.next_id()->Ok_0;
        assert forall|x: HeapId| #[trigger] occurrences(roots, x) <= occurrences(
            roots.push(id),
            x,
        ) by {
            assert(roots.push(id).drop_last() =~= roots);
        }
        sound_for_fewer(before.heap.allocated(data), roots.push(id), roots);
        assert(before.heap.data(id) is None);
        assert forall|x: HeapId| before.heap.entry(x) is Some implies before.heap.allocated(
            data,
        ).entry(x) == before.heap.entry(x) by {}
    }
}

/// Extending a list by a string, unless memory runs out, puts a string for each character behind
/// the items of the list; its flag allows for them.
///
/// The references on the stack are counted; `roots` are those held elsewhere.
pub proof fn list_is_extended_by_chars<T: ResourceTracker>(
    vm: VmView<T>,
    roots: Seq<HeapId>,
    id: HeapId,
    l: ListView,
    chars: Seq<char>,
    items: Seq<Value>,
)
    requires
        vm.stack.len() >= 2,
        vm.top(1) == Value::Ref(id),
        vm.heap.data(id) == Some(DataView::List(l)),
        produced(vm.heap, vm.interns, vm.top(0)) == Some(Produced::Chars(chars)),
        vm.heap.made_chars(chars, chars.len() as int).result == Ok::<Seq<Value>, ResourceError>(
            items,
        ),
        vm.heap.entries.len() + chars.len() <= usize::MAX,
        sound(vm.heap, roots + refs_of(seq![vm.top(1), vm.top(0)])),
    ensures
        ({
            let done = vm.list_extended();
            &&& done.result is Ok
            &&& done.vm.stack == vm.stack.drop_last()
            &&& done.vm.heap.data(id) == Some(DataView::List(l.extended(items)))
            &&& sound(done.vm.heap, roots.push(id))
            &&& items.len() == chars.len()
            &&& forall|k: int|
                0 <= k < items.len() ==> (#[trigger] items[k]) is Ref && done.vm.heap.data(
                    items[k]->Ref_0,
                ) == Some(DataView::Str(seq![chars[k]]))
        }),
        l.extended(items).items == l.items + items,
        l.flag_ok() ==> l.extended(items).flag_ok(),
        l.contains_refs ==> l.extended(items).contains_refs,
{
    let n = chars.len() as int;
    let outside = roots + refs_of(seq![vm.top(1), vm.top(0)]);
    chars_keep_sound(vm.heap, outside, chars, n);
    let made = vm.heap.made_chars(chars, n).heap;
    let ready = vm.popped(2).with_heap(made);
    assert(made.entry(id) == vm.heap.entry(id));
    extension_keeps_alive(ready, roots, vm.top(0), id, l, items);
    let done = vm.list_extended().vm;
    assert(done.stack =~= vm.stack.drop_last());
    let extended = made.inc_values(items).set_data(id, Some(DataView::List(l.extended(items))));
    assert forall|k: int| 0 <= k < items.len() implies (#[trigger] items[k]) is Ref
        && done.heap.data(items[k]->Ref_0) == Some(DataView::Str(seq![chars[k]])) by {
        let x = items[k]->Ref_0;
        counting_keeps_data(made, items, Seq::empty(), x);
        assert(made.inc_values(items).inc_ids(Seq::empty()) == made.inc_values(items));
        assert(extended.data(x) == made.data(x));
        assert((l.items + items)[l.items.len() + k] == Value::Ref(x));
        refs_contain(l.items + items, x);
        children_are_alive(done.heap, roots.push(id), id, x);
        assert(done.heap.entry(x) is Some);
    }
    if l.flag_ok() {
        additions_keep_flag(l, 0, Value::PyNone, items);
    }
}

} // verus!
