//! What goes into a program comes out of it again.

use vstd::prelude::*;
use crate::containers::dict_set;
use crate::equality_laws::is_text;
use crate::error::InvalidInputError;
use crate::heap::{DataView, HeapView};
use crate::ids::HeapId;
use crate::interns::Interns;
use crate::list::ListView;
use crate::object::{all_exported, each_object_becomes_a_value, exported, imported, imported_items, imported_pairs, pairs_exported, MontyObject};
use crate::resource::{ResourceTracker, MAX_DATA_DEPTH};
use crate::value::Value;
use crate::vm::collection_results::{keyed_by, text_is_not_among};
use crate::vm::operator_results::releasing_keeps_slots;

verus! {

/// Whether two objects are the same, piece by piece; an integer may be kept either way.
pub open spec fn same_object(a: MontyObject, b: MontyObject) -> bool
    decreases a,
{
    match (a, b) {
        (MontyObject::PyNone, MontyObject::PyNone) => true,
        (MontyObject::Ellipsis, MontyObject::Ellipsis) => true,
        (MontyObject::Bool(x), MontyObject::Bool(y)) => x == y,
        (MontyObject::Int(x), MontyObject::Int(y)) => x == y,
        (MontyObject::BigInt(x), MontyObject::Int(y)) => x@ == y,
        (MontyObject::BigInt(x), MontyObject::BigInt(y)) => x@ == y@,
        (MontyObject::Text(x), MontyObject::Text(y)) => x@ == y@,
        (MontyObject::Bytes(x), MontyObject::Bytes(y)) => x@ == y@,
        (MontyObject::Exception(c, x), MontyObject::Exception(d, y)) => c == d && match (x, y) {
            (None, None) => true,
            (Some(s), Some(t)) => s@ == t@,
            _ => false,
        },
        (MontyObject::Type(x), MontyObject::Type(y)) => x == y,
        (MontyObject::BuiltinFunction(x), MontyObject::BuiltinFunction(y)) => x == y,
        (MontyObject::List(x), MontyObject::List(y)) => x@.len() == y@.len() && forall|i: int|
            0 <= i < x@.len() ==> same_object(#[trigger] x@[i], y@[i]),
        (MontyObject::Tuple(x), MontyObject::Tuple(y)) => x@.len() == y@.len() && forall|i: int|
            0 <= i < x@.len() ==> same_object(#[trigger] x@[i], y@[i]),
        _ => false,
    }
}

/// Whether an object is nested less deeply than `room` and is made of everything but dicts and
/// printed forms.
pub open spec fn fits(o: MontyObject, room: nat) -> bool
    decreases o,
{
    match o {
        MontyObject::List(items) => room > 0 && forall|i: int|
            0 <= i < items@.len() ==> fits(#[trigger] items@[i], (room - 1) as nat),
        MontyObject::Tuple(items) => room > 0 && forall|i: int|
            0 <= i < items@.len() ==> fits(#[trigger] items@[i], (room - 1) as nat),
        MontyObject::Dict(_) | MontyObject::Repr(_) => false,
        _ => true,
    }
}

/// Whether a heap has all objects of another one as they are.
pub open spec fn extends<T>(h: HeapView<T>, g: HeapView<T>) -> bool {
    &&& h.entries.len() <= g.entries.len()
    &&& forall|id: HeapId| h.data(id) is Some ==> #[trigger] g.data(id) == h.data(id)
}

/// Whether the empty tuple that a heap keeps is there.
pub open spec fn keeps_empty_tuple<T>(h: HeapView<T>) -> bool {
    h.empty_tuple matches Some(id) ==> h.data(id) == Some(DataView::Tuple(Seq::empty()))
}

proof fn parts_fit(o: MontyObject, items: Vec<MontyObject>, room: nat)
    requires
        fits(o, room),
        o == MontyObject::List(items) || o == MontyObject::Tuple(items),
    ensures
        room > 0,
        forall|i: int|
            0 <= i < items@.len() ==> fits(#[trigger] items@[i], (room - 1) as nat),
{
    reveal_with_fuel(fits, 3);
    assert forall|i: int| 0 <= i < items@.len() implies fits(
        #[trigger] items@[i],
        (room - 1) as nat,
    ) by {
        if o is List {
            assert(o->List_0@[i] == items@[i]);
        } else {
            assert(o->Tuple_0@[i] == items@[i]);
        }
    }
}

proof fn same_parts(a: MontyObject, b: MontyObject, x: Vec<MontyObject>, y: Vec<MontyObject>)
    requires
        (a == MontyObject::List(x) && b == MontyObject::List(y)) || (a == MontyObject::Tuple(x)
            && b == MontyObject::Tuple(y)),
        x@.len() == y@.len(),
        forall|i: int| 0 <= i < x@.len() ==> same_object(#[trigger] x@[i], y@[i]),
    ensures
        same_object(a, b),
{
    reveal_with_fuel(same_object, 2);
}

proof fn list_comes_out<T>(
    h: HeapView<T>,
    interns: Interns,
    id: HeapId,
    values: Seq<Value>,
    seen: Set<usize>,
    room: nat,
    out: MontyObject,
)
    requires
        exported(h, interns, Value::Ref(id), seen, room, out),
        h.data(id) matches Some(DataView::List(l)) && l.items == values,
        !seen.contains(id.0),
        room > 0,
    ensures
        out is List,
        out->List_0@.len() == values.len(),
        forall|i: int|
            0 <= i < values.len() ==> exported(
                h,
                interns,
                #[trigger] values[i],
                seen.insert(id.0),
                (room - 1) as nat,
                out->List_0@[i],
            ),
{
    reveal_with_fuel(exported, 2);
}

proof fn tuple_comes_out<T>(
    h: HeapView<T>,
    interns: Interns,
    id: HeapId,
    values: Seq<Value>,
    seen: Set<usize>,
    room: nat,
    out: MontyObject,
)
    requires
        exported(h, interns, Value::Ref(id), seen, room, out),
        h.data(id) == Some(DataView::Tuple(values)),
        !seen.contains(id.0),
        room > 0,
    ensures
        out is Tuple,
        out->Tuple_0@.len() == values.len(),
        forall|i: int|
            0 <= i < values.len() ==> exported(
                h,
                interns,
                #[trigger] values[i],
                seen.insert(id.0),
                (room - 1) as nat,
                out->Tuple_0@[i],
            ),
{
    reveal_with_fuel(exported, 2);
}

proof fn importing_extends<T: ResourceTracker>(
    h: HeapView<T>,
    interns: Interns,
    o: MontyObject,
    room: nat,
)
    requires
        fits(o, room),
        keeps_empty_tuple(h),
        imported(h, interns, o).heap.entries.len() < usize::MAX,
    ensures
        extends(h, imported(h, interns, o).heap),
        keeps_empty_tuple(imported(h, interns, o).heap),
    decreases o, 0int,
{
    match o {
        MontyObject::List(items) => {
            parts_fit(o, items, room);
            let n = items@.len() as int;
            let got = imported_items(h, interns, items@, n);
            assert(got.heap.entries.len() <= imported(h, interns, o).heap.entries.len());
            importing_items_extends(h, interns, items@, n, (room - 1) as nat);
            let taken = imported(h, interns, o);
            assert forall|id: HeapId| h.data(id) is Some implies #[trigger] taken.heap.data(id)
                == h.data(id) by {
                assert(got.heap.data(id) == h.data(id));
                assert(id.0 < got.heap.entries.len());
            }
            assert(h.entries.len() <= taken.heap.entries.len());
            assert(extends(h, taken.heap));
        },
        MontyObject::Tuple(items) => {
            parts_fit(o, items, room);
            let n = items@.len() as int;
            let got = imported_items(h, interns, items@, n);
            assert(got.heap.entries.len() <= imported(h, interns, o).heap.entries.len());
            importing_items_extends(h, interns, items@, n, (room - 1) as nat);
            if got.result is Ok {
                each_object_becomes_a_value(h, interns, items@, n);
                assert(got.result->Ok_0.len() == 0 ==> got.result->Ok_0 =~= Seq::empty());
            }
            let taken = imported(h, interns, o);
            assert forall|id: HeapId| h.data(id) is Some implies #[trigger] taken.heap.data(id)
                == h.data(id) by {
                assert(got.heap.data(id) == h.data(id));
            }
            assert(extends(h, taken.heap));
        },
        _ => {
            assert(extends(h, imported(h, interns, o).heap));
        },
    }
}

proof fn importing_items_extends<T: ResourceTracker>(
    h: HeapView<T>,
    interns: Interns,
    items: Seq<MontyObject>,
    n: int,
    room: nat,
)
    requires
        0 <= n <= items.len(),
        forall|i: int| 0 <= i < items.len() ==> fits(#[trigger] items[i], room),
        keeps_empty_tuple(h),
        imported_items(h, interns, items, n).heap.entries.len() < usize::MAX,
    ensures
        extends(h, imported_items(h, interns, items, n).heap),
        keeps_empty_tuple(imported_items(h, interns, items, n).heap),
    decreases items, n,
{
    if n > 0 {
        let before = imported_items(h, interns, items, n - 1);
        if before.result is Ok {
            slots_only_grow(before.heap, interns, items[n - 1], room);
            importing_items_extends(h, interns, items, n - 1, room);
            importing_extends(before.heap, interns, items[n - 1], room);
        } else {
            importing_items_extends(h, interns, items, n - 1, room);
        }
    }
}

proof fn slots_only_grow<T: ResourceTracker>(
    h: HeapView<T>,
    interns: Interns,
    o: MontyObject,
    room: nat,
)
    requires
        fits(o, room),
    ensures
        h.entries.len() <= imported(h, interns, o).heap.entries.len(),
    decreases o, 0int,
{
    match o {
        MontyObject::List(items) => {
            parts_fit(o, items, room);
            slots_only_grow_for(h, interns, items@, items@.len() as int, (room - 1) as nat);
        },
        MontyObject::Tuple(items) => {
            parts_fit(o, items, room);
            slots_only_grow_for(h, interns, items@, items@.len() as int, (room - 1) as nat);
        },
        _ => {},
    }
}

proof fn slots_only_grow_for<T: ResourceTracker>(
    h: HeapView<T>,
    interns: Interns,
    items: Seq<MontyObject>,
    n: int,
    room: nat,
)
    requires
        0 <= n <= items.len(),
        forall|i: int| 0 <= i < items.len() ==> fits(#[trigger] items[i], room),
    ensures
        h.entries.len() <= imported_items(h, interns, items, n).heap.entries.len(),
    decreases items, n,
{
    if n > 0 {
        slots_only_grow_for(h, interns, items, n - 1, room);
        let before = imported_items(h, interns, items, n - 1);
        if before.result is Ok {
            slots_only_grow(before.heap, interns, items[n - 1], room);
        }
    }
}

/// Objects are taken in one after the other, and each becomes the value in its place.
pub proof fn items_are_taken_in_turn<T: ResourceTracker>(
    h: HeapView<T>,
    interns: Interns,
    items: Seq<MontyObject>,
    n: int,
    i: int,
    room: nat,
)
    requires
        0 <= i < n <= items.len(),
        forall|k: int| 0 <= k < items.len() ==> fits(#[trigger] items[k], room),
        keeps_empty_tuple(h),
        imported_items(h, interns, items, n).result is Ok,
        imported_items(h, interns, items, n).heap.entries.len() < usize::MAX,
    ensures
        ({
            let start = imported_items(h, interns, items, i);
            let one = imported(start.heap, interns, items[i]);
            let all = imported_items(h, interns, items, n);
            &&& start.result is Ok
            &&& keeps_empty_tuple(start.heap)
            &&& one.result == Ok::<Value, InvalidInputError>(all.result->Ok_0[i])
            &&& extends(one.heap, all.heap)
            &&& all.result->Ok_0.len() == n
        }),
    decreases n,
{
    let before = imported_items(h, interns, items, n - 1);
    each_object_becomes_a_value(h, interns, items, n);
    each_object_becomes_a_value(h, interns, items, n - 1);
    slots_only_grow(before.heap, interns, items[n - 1], room);
    importing_items_extends(h, interns, items, n - 1, room);
    importing_extends(before.heap, interns, items[n - 1], room);
    if i < n - 1 {
        items_are_taken_in_turn(h, interns, items, n - 1, i, room);
        let start = imported_items(h, interns, items, i);
        let one = imported(start.heap, interns, items[i]);
        let all = imported_items(h, interns, items, n);
        assert forall|id: HeapId| one.heap.data(id) is Some implies #[trigger] all.heap.data(id)
            == one.heap.data(id) by {
            assert(before.heap.data(id) == one.heap.data(id));
        }
    }
}

/// An object that a program was given is the same object when the program hands it out again,
/// whatever has been made in the meantime: every item in its place.
#[verifier::rlimit(40)]
pub proof fn objects_come_out_again<T: ResourceTracker>(
    h: HeapView<T>,
    interns: Interns,
    o: MontyObject,
    later: HeapView<T>,
    seen: Set<usize>,
    room: nat,
    out: MontyObject,
)
    requires
        fits(o, room),
        keeps_empty_tuple(h),
        imported(h, interns, o).result is Ok,
        imported(h, interns, o).heap.entries.len() < usize::MAX,
        extends(imported(h, interns, o).heap, later),
        forall|x: usize|
            #[trigger] seen.contains(x) ==> x >= imported(h, interns, o).heap.entries.len(),
        exported(later, interns, imported(h, interns, o).result->Ok_0, seen, room, out),
    ensures
        same_object(o, out),
    decreases o,
{
    let taken = imported(h, interns, o);
    let v = taken.result->Ok_0;
    match o {
        MontyObject::List(items) => {
            parts_fit(o, items, room);
            let n = items@.len() as int;
            let got = imported_items(h, interns, items@, n);
            let values = got.result->Ok_0;
            let id = HeapId(got.heap.entries.len() as usize);
            each_object_becomes_a_value(h, interns, items@, n);
            assert(taken.heap.data(id) == Some(DataView::List(ListView::of(values))));
            assert(later.data(id) == taken.heap.data(id));
            list_comes_out(later, interns, id, values, seen, room, out);
            assert forall|i: int| 0 <= i < n implies same_object(
                #[trigger] items@[i],
                out->List_0@[i],
            ) by {
                items_are_taken_in_turn(h, interns, items@, n, i, (room - 1) as nat);
                let start = imported_items(h, interns, items@, i);
                let one = imported(start.heap, interns, items@[i]);
                assert(values[i] == one.result->Ok_0);
                assert forall|x: HeapId| one.heap.data(x) is Some implies #[trigger] later.data(x)
                    == one.heap.data(x) by {
                    assert(got.heap.data(x) == one.heap.data(x));
                    assert(taken.heap.data(x) == got.heap.data(x));
                }
                objects_come_out_again(
                    start.heap,
                    interns,
                    items@[i],
                    later,
                    seen.insert(id.0),
                    (room - 1) as nat,
                    out->List_0@[i],
                );
            }
            same_parts(o, out, items, out->List_0);
        },
        MontyObject::Tuple(items) => {
            parts_fit(o, items, room);
            let n = items@.len() as int;
            let got = imported_items(h, interns, items@, n);
            let values = got.result->Ok_0;
            each_object_becomes_a_value(h, interns, items@, n);
            assert(got.heap.entries.len() <= taken.heap.entries.len());
            importing_items_extends(h, interns, items@, n, (room - 1) as nat);
            importing_extends(h, interns, o, room);
            assert(n == 0 ==> values =~= Seq::empty());
            let id = v->Ref_0;
            assert(taken.heap.data(id) == Some(DataView::Tuple(values)));
            assert(id.0 < taken.heap.entries.len());
            assert(later.data(id) == taken.heap.data(id));
            assert(!seen.contains(id.0));
            tuple_comes_out(later, interns, id, values, seen, room, out);
            assert forall|i: int| 0 <= i < n implies same_object(
                #[trigger] items@[i],
                out->Tuple_0@[i],
            ) by {
                items_are_taken_in_turn(h, interns, items@, n, i, (room - 1) as nat);
                let start = imported_items(h, interns, items@, i);
                let one = imported(start.heap, interns, items@[i]);
                assert(values[i] == one.result->Ok_0);
                assert forall|x: HeapId| one.heap.data(x) is Some implies #[trigger] later.data(x)
                    == one.heap.data(x) by {
                    assert(got.heap.data(x) == one.heap.data(x));
                    assert(taken.heap.data(x) == got.heap.data(x));
                }
                objects_come_out_again(
                    start.heap,
                    interns,
                    items@[i],
                    later,
                    seen.insert(id.0),
                    (room - 1) as nat,
                    out->Tuple_0@[i],
                );
            }
            same_parts(o, out, items, out->Tuple_0);
        },
        _ => {
            if let Value::Ref(id) = v {
                assert(taken.heap.data(id) is Some);
                assert(later.data(id) == taken.heap.data(id));
            }
        },
    }
}

/// Whether the keys of entries are these texts, no two of them the same, and their values fit.
pub open spec fn named_entries(
    pairs: Seq<(MontyObject, MontyObject)>,
    texts: Seq<Seq<char>>,
    room: nat,
) -> bool {
    &&& texts.len() == pairs.len()
    &&& forall|i: int|
        0 <= i < pairs.len() ==> ((#[trigger] pairs[i]).0 matches MontyObject::Text(t) && t@
            == texts[i]) && fits(pairs[i].1, room)
    &&& forall|i: int, j: int|
        0 <= i < j < texts.len() ==> #[trigger] texts[i] != #[trigger] texts[j]
}

proof fn setting_keeps_slots<T>(
    h: HeapView<T>,
    interns: Interns,
    entries: Seq<(Value, Value)>,
    key: Value,
    value: Value,
)
    ensures
        dict_set(h, interns, entries, key, value).heap.entries.len() == h.entries.len(),
{
    releasing_keeps_slots(h, key);
    releasing_keeps_slots(h.release(key), value);
}

proof fn entries_are_taken_in_turn<T: ResourceTracker>(
    h: HeapView<T>,
    interns: Interns,
    pairs: Seq<(MontyObject, MontyObject)>,
    texts: Seq<Seq<char>>,
    n: int,
    room: nat,
)
    requires
        0 <= n <= pairs.len(),
        named_entries(pairs, texts, room),
        keeps_empty_tuple(h),
        imported_pairs(h, interns, pairs, n).result is Ok,
        imported_pairs(h, interns, pairs, n).heap.entries.len() < usize::MAX,
    ensures
        ({
            let all = imported_pairs(h, interns, pairs, n);
            &&& keyed_by(all.heap, interns, all.result->Ok_0, texts.take(n))
            &&& keeps_empty_tuple(all.heap)
            &&& extends(h, all.heap)
            &&& h.entries.len() + n <= all.heap.entries.len()
            &&& n > 0 ==> {
                let before = imported_pairs(h, interns, pairs, n - 1);
                let key = imported(before.heap, interns, pairs[n - 1].0);
                let value = imported(key.heap, interns, pairs[n - 1].1);
                &&& all.heap.entries == value.heap.entries
                &&& all.result->Ok_0 == before.result->Ok_0.push(
                    (key.result->Ok_0, value.result->Ok_0),
                )
            }
        }),
    decreases n,
{
    let all = imported_pairs(h, interns, pairs, n);
    if n > 0 {
        let before = imported_pairs(h, interns, pairs, n - 1);
        let entries = before.result->Ok_0;
        let key = imported(before.heap, interns, pairs[n - 1].0);
        let k = key.result->Ok_0;
        let value = imported(key.heap, interns, pairs[n - 1].1);
        let v = value.result->Ok_0;
        assert(pairs[n - 1].0 is Text && fits(pairs[n - 1].1, room));
        slots_only_grow(key.heap, interns, pairs[n - 1].1, room);
        setting_keeps_slots(value.heap, interns, entries, k, v);
        entries_are_taken_in_turn(h, interns, pairs, texts, n - 1, room);
        importing_extends(key.heap, interns, pairs[n - 1].1, room);
        let id = HeapId(before.heap.entries.len() as usize);
        assert(k == Value::Ref(id));
        assert(key.heap.data(id) == Some(DataView::Str(texts[n - 1])));
        assert(value.heap.data(id) == key.heap.data(id));
        let first = texts.take(n - 1);
        assert(keyed_by(value.heap, interns, entries, first)) by {
            assert forall|i: int| 0 <= i < entries.len() implies is_text(
                value.heap,
                interns,
                (#[trigger] entries[i]).0,
                first[i],
            ) by {
                assert(is_text(before.heap, interns, entries[i].0, first[i]));
                if let Value::Ref(x) = entries[i].0 {
                    assert(key.heap.data(x) == before.heap.data(x));
                    assert(value.heap.data(x) == key.heap.data(x));
                }
            }
        }
        assert(!first.contains(texts[n - 1])) by {
            assert forall|i: int| 0 <= i < first.len() implies first[i] != texts[n - 1] by {
                assert(texts[i] != texts[n - 1]);
            }
        }
        text_is_not_among(value.heap, interns, entries, first, k, texts[n - 1]);
        assert(all.result->Ok_0 == entries.push((k, v)));
        assert(all.heap.entries == value.heap.entries);
        assert forall|i: int| 0 <= i < n implies is_text(
            all.heap,
            interns,
            (#[trigger] all.result->Ok_0[i]).0,
            texts.take(n)[i],
        ) by {
            if i < n - 1 {
                assert(all.result->Ok_0[i] == entries[i]);
                assert(is_text(value.heap, interns, entries[i].0, first[i]));
            }
            if let Value::Ref(x) = all.result->Ok_0[i].0 {
                assert(all.heap.data(x) == value.heap.data(x));
            }
        }
        assert forall|x: HeapId| h.data(x) is Some implies #[trigger] all.heap.data(x) == h.data(
            x,
        ) by {
            assert(before.heap.data(x) == h.data(x));
            assert(key.heap.data(x) == before.heap.data(x));
            assert(value.heap.data(x) == key.heap.data(x));
            assert(all.heap.data(x) == value.heap.data(x));
        }
        if let Some(e) = all.heap.empty_tuple {
            assert(all.heap.data(e) == value.heap.data(e));
        }
    }
}

proof fn entry_is_taken<T: ResourceTracker>(
    h: HeapView<T>,
    interns: Interns,
    pairs: Seq<(MontyObject, MontyObject)>,
    texts: Seq<Seq<char>>,
    n: int,
    i: int,
    room: nat,
)
    requires
        0 <= i < n <= pairs.len(),
        named_entries(pairs, texts, room),
        keeps_empty_tuple(h),
        imported_pairs(h, interns, pairs, n).result is Ok,
        imported_pairs(h, interns, pairs, n).heap.entries.len() < usize::MAX,
    ensures
        ({
            let start = imported_pairs(h, interns, pairs, i);
            let key = imported(start.heap, interns, pairs[i].0);
            let one = imported(key.heap, interns, pairs[i].1);
            let all = imported_pairs(h, interns, pairs, n);
            &&& keeps_empty_tuple(key.heap)
            &&& all.result->Ok_0.len() == n
            &&& one.result == Ok::<Value, InvalidInputError>(all.result->Ok_0[i].1)
            &&& extends(one.heap, all.heap)
        }),
    decreases n,
{
    entries_are_taken_in_turn(h, interns, pairs, texts, n, room);
    let all = imported_pairs(h, interns, pairs, n);
    let before = imported_pairs(h, interns, pairs, n - 1);
    let entries = before.result->Ok_0;
    let key = imported(before.heap, interns, pairs[n - 1].0);
    let k = key.result->Ok_0;
    let value = imported(key.heap, interns, pairs[n - 1].1);
    let v = value.result->Ok_0;
    assert(pairs[n - 1].0 is Text && fits(pairs[n - 1].1, room));
    slots_only_grow(key.heap, interns, pairs[n - 1].1, room);
    setting_keeps_slots(value.heap, interns, entries, k, v);
    entries_are_taken_in_turn(h, interns, pairs, texts, n - 1, room);
    importing_extends(key.heap, interns, pairs[n - 1].1, room);
    if i < n - 1 {
        entry_is_taken(h, interns, pairs, texts, n - 1, i, room);
        let start = imported_pairs(h, interns, pairs, i);
        let one = imported(imported(start.heap, interns, pairs[i].0).heap, interns, pairs[i].1);
        assert forall|x: HeapId| one.heap.data(x) is Some implies #[trigger] all.heap.data(x)
            == one.heap.data(x) by {
            assert(before.heap.data(x) == one.heap.data(x));
            assert(key.heap.data(x) == before.heap.data(x));
            assert(value.heap.data(x) == key.heap.data(x));
            assert(all.heap.data(x) == value.heap.data(x));
        }
    } else {
        assert forall|x: HeapId| value.heap.data(x) is Some implies #[trigger] all.heap.data(x)
            == value.heap.data(x) by {}
    }
}

/// A dict with different names as its keys that a program was given comes out with the same names
/// in the same order, each with its value.
pub proof fn named_values_come_out_again<T: ResourceTracker>(
    h: HeapView<T>,
    interns: Interns,
    pairs: Vec<(MontyObject, MontyObject)>,
    texts: Seq<Seq<char>>,
    later: HeapView<T>,
    room: nat,
    out: MontyObject,
)
    requires
        room > 0,
        named_entries(pairs@, texts, (room - 1) as nat),
        keeps_empty_tuple(h),
        imported(h, interns, MontyObject::Dict(pairs)).result is Ok,
        imported(h, interns, MontyObject::Dict(pairs)).heap.entries.len() < usize::MAX,
        extends(imported(h, interns, MontyObject::Dict(pairs)).heap, later),
        exported(
            later,
            interns,
            imported(h, interns, MontyObject::Dict(pairs)).result->Ok_0,
            Set::empty(),
            room,
            out,
        ),
    ensures
        out matches MontyObject::Dict(seen) && seen@.len() == pairs@.len() && forall|i: int|
            0 <= i < pairs@.len() ==> ((#[trigger] seen@[i]).0 matches MontyObject::Text(t) && t@
                == texts[i]) && same_object(pairs@[i].1, seen@[i].1),
{
    let n = pairs@.len() as int;
    let got = imported_pairs(h, interns, pairs@, n);
    let taken = imported(h, interns, MontyObject::Dict(pairs));
    let entries = got.result->Ok_0;
    let id = HeapId(got.heap.entries.len() as usize);
    let none = Set::<usize>::empty();
    entries_are_taken_in_turn(h, interns, pairs@, texts, n, (room - 1) as nat);
    assert(taken.heap.data(id) == Some(DataView::Dict(entries)));
    assert(later.data(id) == taken.heap.data(id));
    dict_comes_out(later, interns, id, entries, none, room, out);
    let seen = out->Dict_0;
    assert forall|i: int| 0 <= i < n implies ((#[trigger] seen@[i]).0 matches MontyObject::Text(t)
        && t@ == texts[i]) && same_object(pairs@[i].1, seen@[i].1) by {
        entry_is_taken(h, interns, pairs@, texts, n, i, (room - 1) as nat);
        assert(is_text(got.heap, interns, entries[i].0, texts.take(n)[i]));
        if let Value::Ref(x) = entries[i].0 {
            assert(taken.heap.data(x) == got.heap.data(x));
            assert(later.data(x) == taken.heap.data(x));
        }
        let start = imported_pairs(h, interns, pairs@, i);
        let key = imported(start.heap, interns, pairs@[i].0);
        let one = imported(key.heap, interns, pairs@[i].1);
        assert forall|x: HeapId| one.heap.data(x) is Some implies #[trigger] later.data(x)
            == one.heap.data(x) by {
            assert(got.heap.data(x) == one.heap.data(x));
            assert(taken.heap.data(x) == got.heap.data(x));
        }
        assert(fits(pairs@[i].1, (room - 1) as nat));
        objects_come_out_again(
            key.heap,
            interns,
            pairs@[i].1,
            later,
            none.insert(id.0),
            (room - 1) as nat,
            seen@[i].1,
        );
    }
}

proof fn dict_comes_out<T>(
    h: HeapView<T>,
    interns: Interns,
    id: HeapId,
    entries: Seq<(Value, Value)>,
    seen: Set<usize>,
    room: nat,
    out: MontyObject,
)
    requires
        exported(h, interns, Value::Ref(id), seen, room, out),
        h.data(id) == Some(DataView::Dict(entries)),
        !seen.contains(id.0),
        room > 0,
    ensures
        out is Dict,
        out->Dict_0@.len() == entries.len(),
        forall|i: int|
            0 <= i < entries.len() ==> exported(
                h,
                interns,
                (#[trigger] entries[i]).0,
                seen.insert(id.0),
                (room - 1) as nat,
                out->Dict_0@[i].0,
            ) && exported(
                h,
                interns,
                entries[i].1,
                seen.insert(id.0),
                (room - 1) as nat,
                out->Dict_0@[i].1,
            ),
{
    reveal_with_fuel(exported, 2);
}

/// The arguments of a call reach the host in their order.
pub proof fn host_gets_arguments_in_order<T>(
    h: HeapView<T>,
    interns: Interns,
    values: Seq<Value>,
    objects: Seq<MontyObject>,
    i: int,
)
    requires
        all_exported(h, interns, values, objects),
        0 <= i < values.len(),
    ensures
        objects.len() == values.len(),
        values[i] matches Value::Int(x) ==> objects[i] == MontyObject::Int(x),
        values[i] matches Value::Bool(x) ==> objects[i] == MontyObject::Bool(x),
        values[i] is PyNone ==> objects[i] is PyNone,
        values[i] matches Value::InternString(id) ==> (objects[i] matches MontyObject::Text(t) && t@
            == interns.text(id)),
{
    assert(exported(
        h.release_values(values.take(i)),
        interns,
        values[i],
        Set::empty(),
        MAX_DATA_DEPTH as nat,
        objects[i],
    ));
}

/// The keyword arguments of a call reach the host in their order, each name with its value.
pub proof fn host_gets_named_arguments_in_order<T>(
    h: HeapView<T>,
    interns: Interns,
    pairs: Seq<(Value, Value)>,
    objects: Seq<(MontyObject, MontyObject)>,
    i: int,
)
    requires
        pairs_exported(h, interns, pairs, objects),
        0 <= i < pairs.len(),
    ensures
        objects.len() == pairs.len(),
        pairs[i].0 matches Value::InternString(id) ==> (objects[i].0 matches MontyObject::Text(t)
            && t@ == interns.text(id)),
        pairs[i].1 matches Value::Int(x) ==> objects[i].1 == MontyObject::Int(x),
        pairs[i].1 matches Value::Bool(x) ==> objects[i].1 == MontyObject::Bool(x),
        pairs[i].1 is PyNone ==> objects[i].1 is PyNone,
        pairs[i].1 matches Value::InternString(id) ==> (objects[i].1 matches MontyObject::Text(t)
            && t@ == interns.text(id)),
{
    assert(objects.len() == pairs.len());
    let _ = pairs[i];
}

} // verus!
