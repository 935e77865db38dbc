//! What holds of comparing values.

use vstd::prelude::*;
use crate::containers::{first_unhashable, unhashable, Range};
use crate::equality::{
    all_among, entries_among, equal, first_equal, items_equal, keys_of, order,
    range_len, ranges_equal, sequences_equal, text_order_from, truth,
};
use crate::heap::{DataView, HeapView};
use crate::ids::HeapId;
use crate::interns::Interns;
use crate::long_int::Order;
use crate::resource::ResourceError;
use crate::value::Value;

verus! {

/// Comparing looks at the objects and at nothing else of a heap.
pub proof fn equal_sees_objects_only<T>(
    h: HeapView<T>,
    g: HeapView<T>,
    interns: Interns,
    a: Value,
    b: Value,
    room: nat,
)
    requires
        forall|id: HeapId| #[trigger] h.data(id) == g.data(id),
    ensures
        equal(h, interns, a, b, room) == equal(g, interns, a, b, room),
    decreases room, 1int, 0int,
{
    if let (Value::Ref(x), Value::Ref(y)) = (a, b) {
        assert(h.data(x) == g.data(x) && h.data(y) == g.data(y));
        match (h.data(x), h.data(y)) {
            (Some(DataView::List(l)), Some(DataView::List(m))) => {
                sequences_see_objects_only(h, g, interns, l.items, m.items, room);
            },
            (Some(DataView::Tuple(l)), Some(DataView::Tuple(m))) => {
                sequences_see_objects_only(h, g, interns, l, m, room);
            },
            (Some(DataView::PySet(l)), Some(DataView::PySet(m))) => {
                if room > 0 {
                    all_among_see_objects_only(
                        h,
                        g,
                        interns,
                        l,
                        m,
                        l.len() as int,
                        (room - 1) as nat,
                    );
                }
            },
            (Some(DataView::Dict(l)), Some(DataView::Dict(m))) => {
                if room > 0 {
                    entries_see_objects_only(
                        h,
                        g,
                        interns,
                        l,
                        m,
                        l.len() as int,
                        (room - 1) as nat,
                    );
                }
            },
            _ => {},
        }
    }
    if let Value::Ref(x) = a {
        assert(h.data(x) == g.data(x));
    }
    if let Value::Ref(y) = b {
        assert(h.data(y) == g.data(y));
    }
}

proof fn sequences_see_objects_only<T>(
    h: HeapView<T>,
    g: HeapView<T>,
    interns: Interns,
    xs: Seq<Value>,
    ys: Seq<Value>,
    room: nat,
)
    requires
        forall|id: HeapId| #[trigger] h.data(id) == g.data(id),
    ensures
        sequences_equal(h, interns, xs, ys, room) == sequences_equal(g, interns, xs, ys, room),
    decreases room, 0int, 0int,
{
    if xs.len() == ys.len() && room > 0 {
        items_see_objects_only(h, g, interns, xs, ys, xs.len() as int, (room - 1) as nat);
    }
}

proof fn items_see_objects_only<T>(
    h: HeapView<T>,
    g: HeapView<T>,
    interns: Interns,
    xs: Seq<Value>,
    ys: Seq<Value>,
    n: int,
    room: nat,
)
    requires
        forall|id: HeapId| #[trigger] h.data(id) == g.data(id),
    ensures
        items_equal(h, interns, xs, ys, n, room) == items_equal(g, interns, xs, ys, n, room),
    decreases room, 2int, n,
{
    if n > 0 {
        items_see_objects_only(h, g, interns, xs, ys, n - 1, room);
        equal_sees_objects_only(h, g, interns, xs[n - 1], ys[n - 1], room);
    }
}

/// So does looking for a value.
pub proof fn search_sees_objects_only<T>(
    h: HeapView<T>,
    g: HeapView<T>,
    interns: Interns,
    v: Value,
    items: Seq<Value>,
    n: int,
    room: nat,
)
    requires
        forall|id: HeapId| #[trigger] h.data(id) == g.data(id),
    ensures
        first_equal(h, interns, v, items, n, room) == first_equal(g, interns, v, items, n, room),
    decreases room, 2int, n,
{
    if n > 0 {
        search_sees_objects_only(h, g, interns, v, items, n - 1, room);
        equal_sees_objects_only(h, g, interns, v, items[n - 1], room);
    }
}

proof fn all_among_see_objects_only<T>(
    h: HeapView<T>,
    g: HeapView<T>,
    interns: Interns,
    xs: Seq<Value>,
    ys: Seq<Value>,
    n: int,
    room: nat,
)
    requires
        forall|id: HeapId| #[trigger] h.data(id) == g.data(id),
    ensures
        all_among(h, interns, xs, ys, n, room) == all_among(g, interns, xs, ys, n, room),
    decreases room, 3int, n,
{
    if n > 0 {
        all_among_see_objects_only(h, g, interns, xs, ys, n - 1, room);
        search_sees_objects_only(h, g, interns, xs[n - 1], ys, ys.len() as int, room);
    }
}

proof fn entries_see_objects_only<T>(
    h: HeapView<T>,
    g: HeapView<T>,
    interns: Interns,
    xs: Seq<(Value, Value)>,
    ys: Seq<(Value, Value)>,
    n: int,
    room: nat,
)
    requires
        forall|id: HeapId| #[trigger] h.data(id) == g.data(id),
    ensures
        entries_among(h, interns, xs, ys, n, room) == entries_among(g, interns, xs, ys, n, room),
    decreases room, 3int, n,
{
    if n > 0 {
        entries_see_objects_only(h, g, interns, xs, ys, n - 1, room);
        search_sees_objects_only(h, g, interns, xs[n - 1].0, keys_of(ys), ys.len() as int, room);
        match first_equal(h, interns, xs[n - 1].0, keys_of(ys), ys.len() as int, room) {
            Ok(Some(k)) => {
                equal_sees_objects_only(h, g, interns, xs[n - 1].1, ys[k].1, room);
            },
            _ => {},
        }
    }
}

/// So does asking whether a value can be hashed.
pub proof fn hashing_sees_objects_only<T>(h: HeapView<T>, g: HeapView<T>, v: Value, room: nat)
    requires
        forall|id: HeapId| #[trigger] h.data(id) == g.data(id),
    ensures
        unhashable(h, v, room) == unhashable(g, v, room),
    decreases room, 0int, 0int,
{
    if let Value::Ref(id) = v {
        assert(h.data(id) == g.data(id));
        if let Some(DataView::Tuple(items)) = h.data(id) {
            if room > 0 {
                hashing_items_sees_objects_only(
                    h,
                    g,
                    items,
                    items.len() as int,
                    (room - 1) as nat,
                );
            }
        }
    }
}

proof fn hashing_items_sees_objects_only<T>(
    h: HeapView<T>,
    g: HeapView<T>,
    items: Seq<Value>,
    n: int,
    room: nat,
)
    requires
        forall|id: HeapId| #[trigger] h.data(id) == g.data(id),
    ensures
        first_unhashable(h, items, n, room) == first_unhashable(g, items, n, room),
    decreases room, 1int, n,
{
    if n > 0 {
        hashing_items_sees_objects_only(h, g, items, n - 1, room);
        hashing_sees_objects_only(h, g, items[n - 1], room);
    }
}

/// Whether a value is this integer: a small one, a large one in the heap or among the literals,
/// or a boolean, which counts as 0 or 1.
pub open spec fn is_integer<T>(h: HeapView<T>, interns: Interns, v: Value, i: int) -> bool {
    match v {
        Value::Int(x) => x == i,
        Value::Bool(b) => i == (if b {
            1int
        } else {
            0int
        }),
        Value::InternLongInt(id) => id.0 < interns.long_ints@.len()
            && interns.long_ints@[id.0 as int]@ == i,
        Value::Ref(id) => h.data(id) == Some(DataView::LongInt(i)),
        _ => false,
    }
}

/// Whether a value is this text: that of a literal, or that of an object.
pub open spec fn is_text<T>(h: HeapView<T>, interns: Interns, v: Value, text: Seq<char>) -> bool {
    match v {
        Value::InternString(id) => interns.text(id) == text,
        Value::Ref(id) => h.data(id) == Some(DataView::Str(text)),
        _ => false,
    }
}

/// Integers are compared as numbers, whatever way they are kept.
pub proof fn integers_are_compared<T>(
    h: HeapView<T>,
    interns: Interns,
    a: Value,
    b: Value,
    x: int,
    y: int,
    room: nat,
)
    requires
        is_integer(h, interns, a, x),
        is_integer(h, interns, b, y),
    ensures
        equal(h, interns, a, b, room) == Ok::<bool, ResourceError>(x == y),
        x < y ==> order(h, interns, a, b) == Some(Order::Less),
        x == y ==> order(h, interns, a, b) == Some(Order::Equal),
        x > y ==> order(h, interns, a, b) == Some(Order::Greater),
        truth(h, interns, a) == (x != 0),
{
}

/// Texts are equal if they have the same characters.
pub proof fn texts_are_equal<T>(
    h: HeapView<T>,
    interns: Interns,
    a: Value,
    b: Value,
    s: Seq<char>,
    t: Seq<char>,
    room: nat,
)
    requires
        is_text(h, interns, a, s),
        is_text(h, interns, b, t),
    ensures
        equal(h, interns, a, b, room) == Ok::<bool, ResourceError>(s == t),
        truth(h, interns, a) == (s.len() != 0),
{
}

/// Of two texts that differ, the one with the smaller character at the first difference comes
/// first.
pub proof fn texts_are_ordered_by_difference<T>(
    h: HeapView<T>,
    interns: Interns,
    a: Value,
    b: Value,
    s: Seq<char>,
    t: Seq<char>,
    k: int,
)
    requires
        is_text(h, interns, a, s),
        is_text(h, interns, b, t),
        0 <= k < s.len(),
        k < t.len(),
        forall|i: int| 0 <= i < k ==> s[i] == t[i],
        (s[k] as int) < (t[k] as int),
    ensures
        order(h, interns, a, b) == Some(Order::Less),
        order(h, interns, b, a) == Some(Order::Greater),
{
    agreeing_texts(s, t, 0, k as nat);
    agreeing_texts(t, s, 0, k as nat);
}

proof fn agreeing_texts(s: Seq<char>, t: Seq<char>, from: nat, k: nat)
    requires
        from <= k,
        k <= s.len(),
        k <= t.len(),
        forall|i: int| 0 <= i < k ==> s[i] == t[i],
    ensures
        text_order_from(s, t, from) == text_order_from(s, t, k),
    decreases k - from,
{
    if from < k {
        agreeing_texts(s, t, from + 1, k);
    }
}

/// A text that another one begins with comes before it.
pub proof fn shorter_text_comes_first<T>(
    h: HeapView<T>,
    interns: Interns,
    a: Value,
    b: Value,
    s: Seq<char>,
    t: Seq<char>,
)
    requires
        is_text(h, interns, a, s),
        is_text(h, interns, b, t),
        s.len() <= t.len(),
        forall|i: int| 0 <= i < s.len() ==> s[i] == t[i],
    ensures
        s.len() < t.len() ==> order(h, interns, a, b) == Some(Order::Less) && order(
            h,
            interns,
            b,
            a,
        ) == Some(Order::Greater),
        s.len() == t.len() ==> order(h, interns, a, b) == Some(Order::Equal),
{
    agreeing_texts(s, t, 0, s.len());
    agreeing_texts(t, s, 0, s.len());
}

/// A number and a text are neither equal nor ordered, and nothing else is ordered with either.
pub proof fn different_kinds_are_unequal<T>(
    h: HeapView<T>,
    interns: Interns,
    a: Value,
    b: Value,
    i: int,
    s: Seq<char>,
    room: nat,
)
    requires
        is_integer(h, interns, a, i),
        is_text(h, interns, b, s) || b is PyNone || b is Ellipsis || b is InternBytes
            || b is Builtin || b is DefFunction,
    ensures
        equal(h, interns, a, b, room) == Ok::<bool, ResourceError>(false),
        equal(h, interns, b, a, room) == Ok::<bool, ResourceError>(false),
        order(h, interns, a, b) is None,
        order(h, interns, b, a) is None,
{
}

/// `None` equals itself and counts as false; it has no order.
pub proof fn none_is_none<T>(h: HeapView<T>, interns: Interns, b: Value, room: nat)
    ensures
        equal(h, interns, Value::PyNone, b, room) == Ok::<bool, ResourceError>(b is PyNone),
        equal(h, interns, b, Value::PyNone, room) == Ok::<bool, ResourceError>(b is PyNone),
        order(h, interns, Value::PyNone, b) is None,
        !truth(h, interns, Value::PyNone),
{
}

/// The items of a list or of a tuple.
pub open spec fn sequence_of(data: Option<DataView>, tuple: bool) -> Option<Seq<Value>> {
    match data {
        Some(DataView::List(l)) => if tuple {
            None
        } else {
            Some(l.items)
        },
        Some(DataView::Tuple(t)) => if tuple {
            Some(t)
        } else {
            None
        },
        _ => None,
    }
}

/// Two lists, or two tuples, are equal if they have the same length and equal items in the same
/// places; they are unequal if the lengths differ or, after equal items, two items do.
pub proof fn sequences_are_compared<T>(
    h: HeapView<T>,
    interns: Interns,
    x: HeapId,
    y: HeapId,
    xs: Seq<Value>,
    ys: Seq<Value>,
    tuple: bool,
    room: nat,
)
    requires
        x != y,
        sequence_of(h.data(x), tuple) == Some(xs),
        sequence_of(h.data(y), tuple) == Some(ys),
        room > 0,
    ensures
        ({
            let same = equal(h, interns, Value::Ref(x), Value::Ref(y), room);
            &&& xs.len() != ys.len() ==> same == Ok::<bool, ResourceError>(false)
            &&& same == Ok::<bool, ResourceError>(true) ==> xs.len() == ys.len() && forall|i: int|
                0 <= i < xs.len() ==> equal(
                    h,
                    interns,
                    #[trigger] xs[i],
                    ys[i],
                    (room - 1) as nat,
                ) == Ok::<bool, ResourceError>(true)
            &&& (xs.len() == ys.len() && forall|i: int|
                0 <= i < xs.len() ==> equal(
                    h,
                    interns,
                    #[trigger] xs[i],
                    ys[i],
                    (room - 1) as nat,
                ) == Ok::<bool, ResourceError>(true)) ==> same == Ok::<bool, ResourceError>(true)
            &&& same == Ok::<bool, ResourceError>(false) && xs.len() == ys.len() ==> exists|i: int|
                0 <= i < xs.len() && equal(
                    h,
                    interns,
                    #[trigger] xs[i],
                    ys[i],
                    (room - 1) as nat,
                ) == Ok::<bool, ResourceError>(false)
        }),
{
    if xs.len() == ys.len() {
        items_are_compared(h, interns, xs, ys, xs.len() as int, (room - 1) as nat);
    }
}

proof fn items_are_compared<T>(
    h: HeapView<T>,
    interns: Interns,
    xs: Seq<Value>,
    ys: Seq<Value>,
    n: int,
    room: nat,
)
    requires
        0 <= n <= xs.len(),
        xs.len() == ys.len(),
    ensures
        ({
            let same = items_equal(h, interns, xs, ys, n, room);
            &&& same == Ok::<bool, ResourceError>(true) <==> forall|i: int|
                0 <= i < n ==> equal(h, interns, #[trigger] xs[i], ys[i], room) == Ok::<
                    bool,
                    ResourceError,
                >(true)
            &&& same == Ok::<bool, ResourceError>(false) ==> exists|i: int|
                0 <= i < n && equal(h, interns, #[trigger] xs[i], ys[i], room) == Ok::<
                    bool,
                    ResourceError,
                >(false)
        }),
    decreases n,
{
    if n > 0 {
        items_are_compared(h, interns, xs, ys, n - 1, room);
        let last = equal(h, interns, xs[n - 1], ys[n - 1], room);
        if items_equal(h, interns, xs, ys, n, room) == Ok::<bool, ResourceError>(true) {
            assert forall|i: int| 0 <= i < n implies equal(h, interns, #[trigger] xs[i], ys[i], room)
                == Ok::<bool, ResourceError>(true) by {
                if i == n - 1 {
                    assert(last == Ok::<bool, ResourceError>(true));
                }
            }
        }
    }
}

/// A list never equals a tuple.
pub proof fn lists_are_no_tuples<T>(h: HeapView<T>, interns: Interns, x: HeapId, y: HeapId, room: nat)
    requires
        sequence_of(h.data(x), false) is Some,
        sequence_of(h.data(y), true) is Some,
    ensures
        equal(h, interns, Value::Ref(x), Value::Ref(y), room) == Ok::<bool, ResourceError>(false),
        equal(h, interns, Value::Ref(y), Value::Ref(x), room) == Ok::<bool, ResourceError>(false),
{
}

/// A container counts as true if it holds something.
pub proof fn empty_containers_are_false<T>(h: HeapView<T>, interns: Interns, id: HeapId)
    ensures
        match h.data(id) {
            Some(DataView::List(l)) => truth(h, interns, Value::Ref(id)) == (l.items.len() > 0),
            Some(DataView::Tuple(t)) => truth(h, interns, Value::Ref(id)) == (t.len() > 0),
            Some(DataView::Dict(d)) => truth(h, interns, Value::Ref(id)) == (d.len() > 0),
            Some(DataView::PySet(s)) => truth(h, interns, Value::Ref(id)) == (s.len() > 0),
            Some(DataView::Bytes(b)) => truth(h, interns, Value::Ref(id)) == (b.len() > 0),
            _ => true,
        },
{
}

/// Ranges are equal if they count through the same integers.
pub proof fn ranges_are_compared(a: Range, b: Range)
    ensures
        a == b ==> ranges_equal(a, b),
        ranges_equal(a, b) ==> range_len(a) == range_len(b) && forall|i: int|
            0 <= i < range_len(a) ==> a.start + #[trigger] (i * a.step) == b.start + i * b.step,
{
    if ranges_equal(a, b) && range_len(a) > 0 {
        assert forall|i: int| 0 <= i < range_len(a) implies a.start + #[trigger] (i * a.step)
            == b.start + i * b.step by {
            if range_len(a) == 1 {
                assert(i == 0);
                assert(0 * a.step == 0 && 0 * b.step == 0) by (nonlinear_arith);
            }
        }
    }
}

} // verus!
