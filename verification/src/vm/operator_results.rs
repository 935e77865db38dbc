//! What the operators leave on the stack.

use vstd::prelude::*;
use crate::equality::{order, text_order_from};
use crate::equality_laws::{integers_are_compared, is_integer, is_text, texts_are_equal};
use crate::error::{BinaryOp, ErrorView};
use crate::heap::{dec_count, live_count, live_count_update, released_by, DataView, EntryView, HeapView};
use crate::ids::HeapId;
use crate::list::{list_iadded, ListView};
use crate::list_results::raises;
use crate::ordering::{text_order_flips, text_order_of_same};
use crate::ownership::{release_value_only_frees, only_freed};
use crate::resource::{ResourceError, ResourceTracker, MAX_DATA_DEPTH};
use crate::sort_results::{comes_first, first_difference};
use crate::types::ExcType;
use crate::value::Value;
use crate::vm::async_exec::counting_keeps_data;
use crate::vm::collection_results::replaced_top;
use crate::vm::compare::{floor_mod, OrderCheck};
use crate::vm::VmView;

verus! {

/// Whether the two operands of a comparison are gone and its answer is in their place.
pub open spec fn answers<T>(vm: VmView<T>, after: VmView<T>, answer: bool) -> bool {
    &&& replaced_top(vm.stack, after.stack, 2)
    &&& after.stack.last() == Value::Bool(answer)
    &&& after.frames == vm.frames
    &&& after.heap.entries.len() == vm.heap.entries.len()
    &&& only_freed(vm.heap, after.heap)
}

proof fn comparing_answers<T: ResourceTracker>(vm: VmView<T>, answer: bool)
    requires
        vm.stack.len() >= 2,
    ensures
        answers(vm, vm.compared(answer), answer),
{
    let lhs = vm.top(1);
    let rhs = vm.top(0);
    let once = vm.heap.release(lhs);
    release_value_only_frees(vm.heap, lhs);
    release_value_only_frees(once, rhs);
    releasing_keeps_slots(vm.heap, lhs);
    releasing_keeps_slots(once, rhs);
    let after = vm.compared(answer);
    assert(after.heap == once.release(rhs));
    assert forall|id: HeapId| (#[trigger] after.heap.entry(id)) is Some implies vm.heap.entry(
        id,
    ) is Some && after.heap.entry(id)->0.data == vm.heap.entry(id)->0.data by {
        assert(once.entry(id) is Some);
    }
}

proof fn releasing_ids_keeps_slots<T>(h: HeapView<T>, work: Seq<HeapId>)
    ensures
        h.release_ids(work).entries.len() == h.entries.len(),
    decreases live_count(h.entries), work.len(),
{
    if work.len() > 0 {
        let id = work.last();
        let rest = work.drop_last();
        match h.entry(id) {
            None => {
                releasing_ids_keeps_slots(h, rest);
            },
            Some(e) => {
                if e.refs > 1 {
                    let slot = Some(EntryView { refs: dec_count(e.refs), ..e });
                    live_count_update(h.entries, id.0 as int, slot);
                    releasing_ids_keeps_slots(h.set_entry(id, slot), rest);
                } else {
                    live_count_update(h.entries, id.0 as int, None);
                    releasing_ids_keeps_slots(
                        h.set_entry(id, None),
                        rest + released_by(e),
                    );
                }
            },
        }
    }
}

/// Giving up a value makes no new object.
pub proof fn releasing_keeps_slots<T>(h: HeapView<T>, v: Value)
    ensures
        h.release(v).entries.len() == h.entries.len(),
{
    if let Value::Ref(id) = v {
        releasing_ids_keeps_slots(h, seq![id]);
    }
}

/// `==` and `!=` of integers compare the numbers.
pub proof fn integers_are_equal_or_not<T: ResourceTracker>(
    vm: VmView<T>,
    x: int,
    y: int,
    negated: bool,
)
    requires
        vm.stack.len() >= 2,
        is_integer(vm.heap, vm.interns, vm.stack[vm.stack.len() - 2], x),
        is_integer(vm.heap, vm.interns, vm.stack[vm.stack.len() - 1], y),
    ensures
        vm.compared_eq(negated).result is Ok,
        answers(vm, vm.compared_eq(negated).vm, if negated {
            x != y
        } else {
            x == y
        }),
{
    integers_are_compared(
        vm.heap,
        vm.interns,
        vm.top(1),
        vm.top(0),
        x,
        y,
        MAX_DATA_DEPTH as nat,
    );
    comparing_answers(vm, (x == y) != negated);
}

/// `==` and `!=` of texts compare the characters.
pub proof fn texts_are_equal_or_not<T: ResourceTracker>(
    vm: VmView<T>,
    s: Seq<char>,
    t: Seq<char>,
    negated: bool,
)
    requires
        vm.stack.len() >= 2,
        is_text(vm.heap, vm.interns, vm.stack[vm.stack.len() - 2], s),
        is_text(vm.heap, vm.interns, vm.stack[vm.stack.len() - 1], t),
    ensures
        vm.compared_eq(negated).result is Ok,
        answers(vm, vm.compared_eq(negated).vm, if negated {
            s != t
        } else {
            s == t
        }),
{
    texts_are_equal(
        vm.heap,
        vm.interns,
        vm.top(1),
        vm.top(0),
        s,
        t,
        MAX_DATA_DEPTH as nat,
    );
    comparing_answers(vm, (s == t) != negated);
}

/// `<`, `<=`, `>` and `>=` of integers compare the left number with the right one.
pub proof fn integers_are_in_order_or_not<T: ResourceTracker>(vm: VmView<T>, x: int, y: int)
    requires
        vm.stack.len() >= 2,
        is_integer(vm.heap, vm.interns, vm.stack[vm.stack.len() - 2], x),
        is_integer(vm.heap, vm.interns, vm.stack[vm.stack.len() - 1], y),
    ensures
        answers(vm, vm.compared_order(OrderCheck::Lt), x < y),
        answers(vm, vm.compared_order(OrderCheck::Le), x <= y),
        answers(vm, vm.compared_order(OrderCheck::Gt), x > y),
        answers(vm, vm.compared_order(OrderCheck::Ge), x >= y),
{
    integers_are_compared(
        vm.heap,
        vm.interns,
        vm.top(1),
        vm.top(0),
        x,
        y,
        MAX_DATA_DEPTH as nat,
    );
    comparing_answers(vm, true);
    comparing_answers(vm, false);
}

/// `<`, `<=`, `>` and `>=` of texts compare them character by character.
pub proof fn texts_are_in_order_or_not<T: ResourceTracker>(
    vm: VmView<T>,
    s: Seq<char>,
    t: Seq<char>,
    k: int,
)
    requires
        vm.stack.len() >= 2,
        is_text(vm.heap, vm.interns, vm.stack[vm.stack.len() - 2], s),
        is_text(vm.heap, vm.interns, vm.stack[vm.stack.len() - 1], t),
    ensures
        comes_first(s, t, k) ==> {
            &&& answers(vm, vm.compared_order(OrderCheck::Lt), true)
            &&& answers(vm, vm.compared_order(OrderCheck::Le), true)
            &&& answers(vm, vm.compared_order(OrderCheck::Gt), false)
            &&& answers(vm, vm.compared_order(OrderCheck::Ge), false)
        },
        comes_first(t, s, k) ==> {
            &&& answers(vm, vm.compared_order(OrderCheck::Lt), false)
            &&& answers(vm, vm.compared_order(OrderCheck::Le), false)
            &&& answers(vm, vm.compared_order(OrderCheck::Gt), true)
            &&& answers(vm, vm.compared_order(OrderCheck::Ge), true)
        },
        s == t ==> {
            &&& answers(vm, vm.compared_order(OrderCheck::Lt), false)
            &&& answers(vm, vm.compared_order(OrderCheck::Le), true)
            &&& answers(vm, vm.compared_order(OrderCheck::Gt), false)
            &&& answers(vm, vm.compared_order(OrderCheck::Ge), true)
        },
{
    assert(order(vm.heap, vm.interns, vm.top(1), vm.top(0)) == Some(text_order_from(s, t, 0)));
    text_order_flips(s, t, 0);
    if comes_first(s, t, k) {
        first_difference(s, t, 0, k);
    }
    if comes_first(t, s, k) {
        first_difference(t, s, 0, k);
    }
    if s == t {
        text_order_of_same(s, 0);
    }
    comparing_answers(vm, true);
    comparing_answers(vm, false);
}

/// An integer and a text have no order: none of the comparisons holds.
pub proof fn other_operands_have_no_order<T: ResourceTracker>(
    vm: VmView<T>,
    x: int,
    s: Seq<char>,
    check: OrderCheck,
)
    requires
        vm.stack.len() >= 2,
        ({
            let lhs = vm.stack[vm.stack.len() - 2];
            let rhs = vm.stack[vm.stack.len() - 1];
            ||| is_integer(vm.heap, vm.interns, lhs, x) && is_text(vm.heap, vm.interns, rhs, s)
            ||| is_text(vm.heap, vm.interns, lhs, s) && is_integer(vm.heap, vm.interns, rhs, x)
        }),
    ensures
        answers(vm, vm.compared_order(check), false),
{
    comparing_answers(vm, false);
}

/// `is` holds of two references exactly if they are to one object, and of plain values exactly if
/// they are the same.
pub proof fn identity_is_of_objects<T: ResourceTracker>(vm: VmView<T>)
    requires
        vm.stack.len() >= 2,
    ensures
        ({
            let lhs = vm.stack[vm.stack.len() - 2];
            let rhs = vm.stack[vm.stack.len() - 1];
            &&& lhs matches Value::Ref(a) ==> (rhs matches Value::Ref(b) ==> answers(
                vm,
                vm.compared_is(false),
                a == b,
            ) && answers(vm, vm.compared_is(true), a != b))
            &&& lhs is PyNone ==> answers(vm, vm.compared_is(false), rhs is PyNone) && answers(
                vm,
                vm.compared_is(true),
                !(rhs is PyNone),
            )
            &&& lhs matches Value::Int(a) ==> (rhs matches Value::Int(b) ==> answers(
                vm,
                vm.compared_is(false),
                a == b,
            ))
            &&& lhs matches Value::Bool(a) ==> (rhs matches Value::Bool(b) ==> answers(
                vm,
                vm.compared_is(false),
                a == b,
            ))
        }),
{
    comparing_answers(vm, true);
    comparing_answers(vm, false);
}

/// `in` gives what looking for the item came to, `not in` the opposite; an error is passed on.
pub proof fn membership_is_what_was_found<T: ResourceTracker>(
    vm: VmView<T>,
    found: bool,
    error: ErrorView,
)
    requires
        vm.stack.len() >= 2,
    ensures
        vm.compared_in(false, Ok(found)).result is Ok,
        answers(vm, vm.compared_in(false, Ok(found)).vm, found),
        vm.compared_in(true, Ok(found)).result is Ok,
        answers(vm, vm.compared_in(true, Ok(found)).vm, !found),
        vm.compared_in(false, Err(error)).result == Err::<(), ErrorView>(error),
        vm.compared_in(true, Err(error)).result == Err::<(), ErrorView>(error),
        vm.compared_in(false, Err(error)).vm.stack.len() == vm.stack.len() - 2,
{
    comparing_answers(vm, true);
    comparing_answers(vm, false);
}

proof fn floor_mod_is_the_remainder(a: int, b: int)
    requires
        b != 0,
    ensures
        b > 0 ==> 0 <= floor_mod(a, b) < b,
        b < 0 ==> b < floor_mod(a, b) <= 0,
        exists|q: int| #[trigger] divides_into(a, b, q, floor_mod(a, b)),
{
    if b > 0 {
        assert(0 <= a % b < b && a == b * (a / b) + a % b) by (nonlinear_arith)
            requires
                b > 0,
        ;
        assert(divides_into(a, b, a / b, floor_mod(a, b)));
    } else {
        let q = (-a) / (-b);
        assert(0 <= (-a) % (-b) < -b && -a == (-b) * q + (-a) % (-b)) by (nonlinear_arith)
            requires
                b < 0,
                q == (-a) / (-b),
        ;
        assert(a == b * (-(-q)) + floor_mod(a, b)) by (nonlinear_arith)
            requires
                -a == (-b) * q + (-a) % (-b),
                floor_mod(a, b) == -((-a) % (-b)),
        ;
        assert(divides_into(a, b, q, floor_mod(a, b)));
    }
}

/// Whether a number is so many times another one and something more.
pub open spec fn divides_into(a: int, b: int, q: int, r: int) -> bool {
    a == b * q + r
}

proof fn remainder_is_unique(a: int, b: int, q: int, r: int, p: int, s: int)
    requires
        b != 0,
        divides_into(a, b, q, r),
        divides_into(a, b, p, s),
        b > 0 ==> 0 <= r < b && 0 <= s < b,
        b < 0 ==> b < r <= 0 && b < s <= 0,
    ensures
        r == s,
{
    assert(b * (q - p) == s - r) by (nonlinear_arith)
        requires
            b * q + r == b * p + s,
    ;
    let d = q - p;
    if d >= 1 {
        assert(b > 0 ==> b * d >= b) by (nonlinear_arith)
            requires
                d >= 1,
        ;
        assert(b < 0 ==> b * d <= b) by (nonlinear_arith)
            requires
                d >= 1,
        ;
    } else if d <= -1 {
        assert(b > 0 ==> b * d <= -b) by (nonlinear_arith)
            requires
                d <= -1,
        ;
        assert(b < 0 ==> b * d >= -b) by (nonlinear_arith)
            requires
                d <= -1,
        ;
    } else {
        assert(b * d == 0) by (nonlinear_arith)
            requires
                d == 0,
        ;
    }
}

/// `a % b == k` of small integers holds exactly if `k` is what is left of `a` once `b` is taken
/// away as often as it goes, rounded down: it lies between zero and `b`.
pub proof fn remainders_are_compared<T: ResourceTracker>(
    vm: VmView<T>,
    a: i64,
    b: i64,
    k: i64,
    q: int,
    elsewhere: Result<Option<Value>, ErrorView>,
)
    requires
        vm.stack.len() >= 2,
        vm.stack[vm.stack.len() - 2] == Value::Int(a),
        vm.stack[vm.stack.len() - 1] == Value::Int(b),
        b != 0,
    ensures
        ({
            let done = vm.compared_mod(Value::Int(k), elsewhere);
            &&& done.result is Ok
            &&& answers(vm, done.vm, true) || answers(vm, done.vm, false)
            &&& answers(vm, done.vm, true) ==> (b > 0 ==> 0 <= k < b) && (b < 0 ==> b < k <= 0)
                && exists|n: int| #[trigger] divides_into(a as int, b as int, n, k as int)
            &&& divides_into(a as int, b as int, q, k as int) && (b > 0 ==> 0 <= k < b) && (b < 0
                ==> b < k <= 0) ==> answers(vm, done.vm, true)
        }),
{
    let r = floor_mod(a as int, b as int);
    floor_mod_is_the_remainder(a as int, b as int);
    comparing_answers(vm, r == k);
    if divides_into(a as int, b as int, q, k as int) && (b > 0 ==> 0 <= k < b) && (b < 0 ==> b < k
        <= 0) {
        let p = choose|p: int| #[trigger] divides_into(a as int, b as int, p, r);
        remainder_is_unique(a as int, b as int, q, k as int, p, r);
    }
}

/// A binary operator puts its result in the place of its operands. Operands it is not for are a
/// type error, and any other error is passed on.
pub proof fn operators_leave_their_result<T: ResourceTracker>(
    vm: VmView<T>,
    op: BinaryOp,
    v: Value,
    error: ErrorView,
)
    requires
        vm.stack.len() >= 2,
    ensures
        ({
            let done = vm.operated(op, Ok(Some(v)));
            &&& done.result is Ok
            &&& replaced_top(vm.stack, done.vm.stack, 2)
            &&& done.vm.stack.last() == v
        }),
        raises(vm.operated(op, Ok(None)).result, ExcType::TypeError),
        vm.operated(op, Ok(None)).vm.stack.len() == vm.stack.len() - 2,
        vm.operated(op, Err(error)).result == Err::<(), ErrorView>(error),
        vm.operated(op, Err(error)).vm.stack.len() == vm.stack.len() - 2,
{
}

/// `+` of two lists gives a new list with the items of the left one and then those of the right
/// one. The operands stay as they are.
pub proof fn adding_lists_gives_both<T: ResourceTracker>(
    vm: VmView<T>,
    left: HeapId,
    a: ListView,
    right: HeapId,
    b: ListView,
    elsewhere: Result<Option<Value>, ErrorView>,
)
    requires
        vm.stack.len() >= 2,
        vm.stack[vm.stack.len() - 2] == Value::Ref(left),
        vm.stack[vm.stack.len() - 1] == Value::Ref(right),
        vm.heap.data(left) == Some(DataView::List(a)),
        vm.heap.data(right) == Some(DataView::List(b)),
        vm.heap.tracker.admits(),
        vm.heap.entries.len() < usize::MAX,
    ensures
        ({
            let done = vm.added(elsewhere);
            let sum = HeapId(vm.heap.entries.len() as usize);
            &&& done.result is Ok
            &&& replaced_top(vm.stack, done.vm.stack, 2)
            &&& done.vm.stack.last() == Value::Ref(sum)
            &&& done.vm.heap.data(sum) matches Some(d) ==> (d matches DataView::List(l)
                && l.items.len() == a.items.len() + b.items.len() && (forall|i: int|
                0 <= i < a.items.len() ==> (#[trigger] l.items[i]) == a.items[i]) && (forall|i: int|
                a.items.len() <= i < l.items.len() ==> (#[trigger] l.items[i])
                    == b.items[i - a.items.len()]))
            &&& done.vm.heap.data(left) matches Some(d) ==> d == DataView::List(a)
            &&& done.vm.heap.data(right) matches Some(d) ==> d == DataView::List(b)
        }),
{
    let counted = vm.heap.inc_values(a.items).inc_values(b.items);
    counting_keeps_slots(vm.heap, a.items);
    counting_keeps_slots(vm.heap.inc_values(a.items), b.items);
    let made = counted.made(DataView::List(ListView::of(a.items + b.items)));
    let sum = HeapId(vm.heap.entries.len() as usize);
    assert(made.result == Ok::<Value, ResourceError>(Value::Ref(sum)));
    let once = made.heap.release(Value::Ref(left));
    release_value_only_frees(made.heap, Value::Ref(left));
    release_value_only_frees(once, Value::Ref(right));
    let done = vm.added(elsewhere);
    assert(done.vm.heap == once.release(Value::Ref(right)));
    let _ = (done.vm.heap.entry(sum), once.entry(sum), made.heap.entry(sum));
    let _ = (done.vm.heap.entry(left), once.entry(left), made.heap.entry(left));
    let _ = (done.vm.heap.entry(right), once.entry(right), made.heap.entry(right));
    counting_values_keeps_data(vm.heap, a.items, left);
    counting_values_keeps_data(vm.heap, a.items, right);
    counting_values_keeps_data(vm.heap.inc_values(a.items), b.items, left);
    counting_values_keeps_data(vm.heap.inc_values(a.items), b.items, right);
}

proof fn counting_keeps_slots<T>(h: HeapView<T>, values: Seq<Value>)
    ensures
        h.inc_values(values).entries.len() == h.entries.len(),
        h.inc_values(values).tracker == h.tracker,
    decreases values.len(),
{
    if values.len() > 0 {
        counting_keeps_slots(h, values.drop_last());
    }
}

proof fn counting_values_keeps_data<T>(h: HeapView<T>, values: Seq<Value>, id: HeapId)
    ensures
        h.inc_values(values).data(id) == h.data(id),
{
    counting_keeps_data(h, values, Seq::empty(), id);
}

/// `+=` of two lists leaves the left one on the stack, with the items of the right one behind its
/// own; a list can be added to itself.
pub proof fn adding_in_place_extends<T: ResourceTracker>(
    vm: VmView<T>,
    left: HeapId,
    a: ListView,
    right: HeapId,
    b: ListView,
    elsewhere: Result<Option<Value>, ErrorView>,
)
    requires
        vm.stack.len() >= 2,
        vm.stack[vm.stack.len() - 2] == Value::Ref(left),
        vm.stack[vm.stack.len() - 1] == Value::Ref(right),
        vm.heap.data(left) == Some(DataView::List(a)),
        vm.heap.data(right) == Some(DataView::List(b)),
    ensures
        ({
            let done = vm.added_inplace(elsewhere);
            &&& done.result is Ok
            &&& replaced_top(vm.stack, done.vm.stack, 2)
            &&& done.vm.stack.last() == Value::Ref(left)
            &&& done.vm.heap.data(left) matches Some(d) ==> (d matches DataView::List(l)
                && l.items.len() == a.items.len() + b.items.len() && (forall|i: int|
                0 <= i < a.items.len() ==> (#[trigger] l.items[i]) == a.items[i]) && (forall|i: int|
                a.items.len() <= i < l.items.len() ==> (#[trigger] l.items[i])
                    == b.items[i - a.items.len()]))
        }),
{
    let copied = vm.heap.inc_value(Value::Ref(right));
    assert(copied.data(left) == Some(DataView::List(a)));
    assert(copied.data(right) == Some(DataView::List(b)));
    let emptied = copied.set_data(left, None);
    if right != left {
        assert(emptied.data(right) == Some(DataView::List(b)));
    }
    let (list, heap) = list_iadded(emptied, a, Value::Ref(right), Some(left))->0;
    assert(list.items == a.items + b.items);
    let put = heap.set_data(left, Some(DataView::List(list)));
    release_value_only_frees(put, Value::Ref(right));
    let done = vm.added_inplace(elsewhere);
    assert(done.vm.heap == put.release(Value::Ref(right)));
    let _ = (done.vm.heap.entry(left), put.entry(left));
}

} // verus!
