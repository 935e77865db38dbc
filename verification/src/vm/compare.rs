//! Comparisons.

use vstd::prelude::*;
use vstd::arithmetic::div_mod::lemma_fundamental_div_mod_converse;
use crate::equality::{equal, order};
use crate::error::{outcome, BinaryOp, ErrorView, Fault, RunError, RunResult};
use crate::heap::{DataView, Heap, HeapData, HeapView};
use crate::iteration::Made;
use crate::long_int::{fits_i64, LongInt, Order};
use crate::resource::{DepthGuard, ResourceError, ResourceTracker, MAX_DATA_DEPTH};
use crate::types::ExcType;
use crate::value::Value;
use crate::vm::{fails, VmStep, VmView, VM};

verus! {

/// The four order comparisons.
#[derive(Debug, Clone, Copy, PartialEq, Eq, Structural)]
pub enum OrderCheck {
    Lt,
    Le,
    Gt,
    Ge,
}

impl OrderCheck {
    /// Whether the comparison holds of two things in the given order.
    pub open spec fn accepts(self, order: Order) -> bool {
        match self {
            OrderCheck::Lt => order == Order::Less,
            OrderCheck::Le => order != Order::Greater,
            OrderCheck::Gt => order == Order::Greater,
            OrderCheck::Ge => order != Order::Less,
        }
    }

    /// Whether the comparison holds of two things in the given order.
    pub fn check(self, order: Order) -> (r: bool)
        ensures
            r == self.accepts(order),
    {
        match self {
            OrderCheck::Lt => order == Order::Less,
            OrderCheck::Le => order != Order::Greater,
            OrderCheck::Gt => order == Order::Greater,
            OrderCheck::Ge => order != Order::Less,
        }
    }
}

/// The remainder of a division that rounds down: it has the sign of the divisor.
pub open spec fn floor_mod(a: int, b: int) -> int {
    if b > 0 {
        a % b
    } else {
        -((-a) % (-b))
    }
}

/// Whether `lhs % rhs == k`, for small integers that can be divided.
pub open spec fn quick_mod_eq(lhs: Value, rhs: Value, k: Value) -> Option<bool> {
    match (lhs, rhs, k) {
        (Value::Int(a), Value::Int(b), Value::Int(n)) => if b != 0 {
            Some(floor_mod(a as int, b as int) == n)
        } else {
            None
        },
        _ => None,
    }
}

/// What a large integer literal leads to as a value of its own.
pub open spec fn long_made<T: ResourceTracker>(h: HeapView<T>, i: int) -> Made<Value, T> {
    if fits_i64(i) {
        Made { heap: h, result: Ok(Value::Int(i as i64)) }
    } else {
        h.made(DataView::LongInt(i))
    }
}

impl<T: ResourceTracker> VmView<T> {
    /// The end of a comparison: the operands are given up, the left one first, and the
    /// answer is pushed.
    pub open spec fn compared(self, answer: bool) -> VmView<T> {
        self.popped(2).release(self.top(1)).release(self.top(0)).pushed(Value::Bool(answer))
    }

    /// `a == b`, or `a != b` if negated; operands that are nested too deeply stay counted.
    pub open spec fn compared_eq(self, negated: bool) -> VmStep<(), T> {
        match equal(self.heap, self.interns, self.top(1), self.top(0), MAX_DATA_DEPTH as nat) {
            Err(e) => fails(self.popped(2), ErrorView::resource(e)),
            Ok(same) => VmStep { vm: self.compared(same != negated), result: Ok(()) },
        }
    }

    /// `a < b` and the like; false of operands that have no order.
    pub open spec fn compared_order(self, check: OrderCheck) -> VmView<T> {
        self.compared(
            match order(self.heap, self.interns, self.top(1), self.top(0)) {
                None => false,
                Some(o) => check.accepts(o),
            },
        )
    }

    /// `a is b`, or `a is not b` if negated.
    pub open spec fn compared_is(self, negated: bool) -> VmView<T> {
        self.compared((self.top(1) == self.top(0)) != negated)
    }

    /// `a in b`, or `a not in b` if negated, where `found` is what looking for the item came
    /// to.
    pub open spec fn compared_in(self, negated: bool, found: Result<bool, ErrorView>) -> VmStep<
        (),
        T,
    > {
        match found {
            Err(e) => fails(self.popped(2).release(self.top(1)).release(self.top(0)), e),
            Ok(is_in) => VmStep { vm: self.compared(is_in != negated), result: Ok(()) },
        }
    }

    /// The end of `a % b == k` once the remainder is known to be `v`.
    pub open spec fn remainder_compared(self, v: Value, k: Value) -> VmStep<(), T> {
        let made = match k {
            Value::InternLongInt(id) => long_made(self.heap, self.interns.long_int(id)),
            _ => Made { heap: self.heap, result: Ok(k) },
        };
        match made.result {
            Err(e) => fails(self.with_heap(made.heap), ErrorView::resource(e)),
            Ok(wanted) => {
                let vm = self.with_heap(made.heap);
                match equal(vm.heap, vm.interns, v, wanted, MAX_DATA_DEPTH as nat) {
                    Err(e) => fails(vm, ErrorView::resource(e)),
                    Ok(same) => {
                        let after = vm.release(v);
                        VmStep {
                            vm: (if k is InternLongInt {
                                after.release(wanted)
                            } else {
                                after
                            }).pushed(Value::Bool(same)),
                            result: Ok(()),
                        }
                    },
                }
            },
        }
    }

    /// `a % b == k`, where `elsewhere` is what the remainder comes to for operands that are
    /// not both small integers.
    pub open spec fn compared_mod(self, k: Value, elsewhere: Result<Option<Value>, ErrorView>) -> VmStep<
        (),
        T,
    > {
        let rhs = self.top(0);
        let lhs = self.top(1);
        match quick_mod_eq(lhs, rhs, k) {
            Some(same) => VmStep { vm: self.compared(same), result: Ok(()) },
            None => {
                let vm = self.popped(2).release(lhs).release(rhs);
                match elsewhere {
                    Ok(Some(v)) => vm.remainder_compared(v, k),
                    Ok(None) => fails(
                        vm,
                        ErrorView::fault(ExcType::TypeError, Fault::ModOperands),
                    ),
                    Err(e) => fails(vm, e),
                }
            },
        }
    }
}

/// The absolute value of an integer.
fn size_of_int(a: i64) -> (r: u64)
    ensures
        r == (if a < 0 {
            -(a as int)
        } else {
            a as int
        }),
{
    if a == i64::MIN {
        0x8000_0000_0000_0000
    } else if a < 0 {
        (-a) as u64
    } else {
        a as u64
    }
}

/// The remainder of a division that rounds down.
fn py_mod(a: i64, b: i64) -> (r: i128)
    requires
        b != 0,
    ensures
        r == floor_mod(a as int, b as int),
{
    let x: u64 = size_of_int(a);
    let y: u64 = size_of_int(b);
    let m: i128 = (x % y) as i128;
    let q: i128 = (x / y) as i128;
    let z: i128 = y as i128;
    assert(x == q * y + m && 0 <= m < y) by (nonlinear_arith)
        requires
            m == x % y,
            q == x / y,
            y > 0,
    ;
    if (a >= 0) == (b > 0) {
        proof {
            lemma_fundamental_div_mod_converse(x as int, y as int, q as int, m as int);
        }
        if b > 0 {
            m
        } else {
            -m
        }
    } else if m == 0 {
        proof {
            assert(-(x as int) == (-q) * y) by (nonlinear_arith)
                requires
                    x == q * y,
            ;
            lemma_fundamental_div_mod_converse(-(x as int), y as int, -(q as int), 0);
        }
        0
    } else {
        proof {
            assert(-(x as int) == (-q - 1) * y + (y - m)) by (nonlinear_arith)
                requires
                    x == q * y + m,
            ;
            lemma_fundamental_div_mod_converse(-(x as int), y as int, -q - 1, y - m);
        }
        if b > 0 {
            z - m
        } else {
            m - z
        }
    }
}

impl LongInt {
    /// The integer as a value: small if it fits, otherwise on the heap.
    pub fn into_value<T: ResourceTracker>(self, heap: &mut Heap<T>) -> (r: Result<
        Value,
        ResourceError,
    >)
        ensures
            ({
                let said = long_made(old(heap)@, self@);
                r == said.result && final(heap)@ == said.heap
            }),
    {
        match self.to_i64() {
            Some(i) => Ok(Value::Int(i)),
            None => match heap.allocate(HeapData::LongInt(self)) {
                Ok(id) => Ok(Value::Ref(id)),
                Err(e) => Err(e),
            },
        }
    }
}

impl<'a, T: ResourceTracker> VM<'a, T> {
    fn finish_compare(&mut self, answer: bool)
        requires
            old(self)@.stack.len() >= 2,
        ensures
            final(self)@ == old(self)@.compared(answer),
    {
        let rhs: Value = self.pop();
        let lhs: Value = self.pop();
        assert(self@.stack =~= old(self)@.popped(2).stack);
        lhs.drop_with_heap(&mut self.heap);
        rhs.drop_with_heap(&mut self.heap);
        self.push(Value::Bool(answer));
    }

    fn compare_equality(&mut self, negated: bool) -> (r: RunResult<()>)
        requires
            old(self)@.stack.len() >= 2,
        ensures
            old(self)@.compared_eq(negated).matches(r, final(self)@),
    {
        let rhs: Value = self.stack[self.stack.len() - 1];
        let lhs: Value = self.stack[self.stack.len() - 2];
        let mut guard: DepthGuard = DepthGuard::default();
        match lhs.py_eq(&rhs, &self.heap, &mut guard, self.interns) {
            Err(e) => {
                let _ = self.pop();
                let _ = self.pop();
                assert(self@.stack =~= old(self)@.popped(2).stack);
                Err(RunError::resource(e))
            },
            Ok(same) => {
                self.finish_compare(same != negated);
                Ok(())
            },
        }
    }

    /// `a == b`.
    pub fn compare_eq(&mut self) -> (r: RunResult<()>)
        requires
            old(self)@.stack.len() >= 2,
        ensures
            old(self)@.compared_eq(false).matches(r, final(self)@),
    {
        self.compare_equality(false)
    }

    /// `a != b`.
    pub fn compare_ne(&mut self) -> (r: RunResult<()>)
        requires
            old(self)@.stack.len() >= 2,
        ensures
            old(self)@.compared_eq(true).matches(r, final(self)@),
    {
        self.compare_equality(true)
    }

    /// `a < b` and the like.
    pub fn compare_ord(&mut self, check: OrderCheck) -> (r: RunResult<()>)
        requires
            old(self)@.stack.len() >= 2,
        ensures
            r is Ok,
            final(self)@ == old(self)@.compared_order(check),
    {
        let rhs: Value = self.stack[self.stack.len() - 1];
        let lhs: Value = self.stack[self.stack.len() - 2];
        let answer: bool = match lhs.py_order(&rhs, &self.heap, self.interns) {
            None => false,
            Some(o) => check.check(o),
        };
        self.finish_compare(answer);
        Ok(())
    }

    /// `a is b`, or `a is not b` if negated.
    pub fn compare_is(&mut self, negate: bool)
        requires
            old(self)@.stack.len() >= 2,
        ensures
            final(self)@ == old(self)@.compared_is(negate),
    {
        let rhs: Value = self.stack[self.stack.len() - 1];
        let lhs: Value = self.stack[self.stack.len() - 2];
        self.finish_compare((lhs == rhs) != negate);
    }

    /// `a in b`, or `a not in b` if negated, where `found` is what looking for the item came
    /// to.
    pub fn compare_in(&mut self, negate: bool, found: RunResult<bool>) -> (r: RunResult<()>)
        requires
            old(self)@.stack.len() >= 2,
        ensures
            old(self)@.compared_in(negate, outcome(found)).matches(r, final(self)@),
    {
        match found {
            Ok(is_in) => {
                self.finish_compare(is_in != negate);
                Ok(())
            },
            Err(e) => {
                let container: Value = self.pop();
                let item: Value = self.pop();
                assert(self@.stack =~= old(self)@.popped(2).stack);
                item.drop_with_heap(&mut self.heap);
                container.drop_with_heap(&mut self.heap);
                Err(e)
            },
        }
    }

    fn compare_remainder(&mut self, v: Value, k: &Value) -> (r: RunResult<()>)
        ensures
            old(self)@.remainder_compared(v, *k).matches(r, final(self)@),
    {
        let (wanted, made): (Value, bool) = match *k {
            Value::InternLongInt(id) => match self.interns.get_long_int(id).into_value(
                &mut self.heap,
            ) {
                Err(e) => {
                    return Err(RunError::resource(e));
                },
                Ok(wanted) => (wanted, true),
            },
            _ => (k.copy_for_extend(), false),
        };
        let mut guard: DepthGuard = DepthGuard::default();
        match v.py_eq(&wanted, &self.heap, &mut guard, self.interns) {
            Err(e) => Err(RunError::resource(e)),
            Ok(same) => {
                v.drop_with_heap(&mut self.heap);
                if made {
                    wanted.drop_with_heap(&mut self.heap);
                }
                self.push(Value::Bool(same));
                Ok(())
            },
        }
    }

    /// `a % b == k` in one instruction.
    pub fn compare_mod_eq(&mut self, k: &Value, elsewhere: RunResult<Option<Value>>) -> (r: RunResult<
        (),
    >)
        requires
            old(self)@.stack.len() >= 2,
        ensures
            old(self)@.compared_mod(*k, outcome(elsewhere)).matches(r, final(self)@),
    {
        let rhs: Value = self.stack[self.stack.len() - 1];
        let lhs: Value = self.stack[self.stack.len() - 2];
        if let (Value::Int(a), Value::Int(b), Value::Int(n)) = (lhs, rhs, *k) {
            if b != 0 {
                self.finish_compare(py_mod(a, b) == n as i128);
                return Ok(());
            }
        }
        let _ = self.pop();
        let _ = self.pop();
        assert(self@.stack =~= old(self)@.popped(2).stack);
        lhs.drop_with_heap(&mut self.heap);
        rhs.drop_with_heap(&mut self.heap);
        match elsewhere {
            Ok(Some(v)) => self.compare_remainder(v, k),
            Ok(None) => Err(RunError::type_error(Fault::ModOperands)),
            Err(e) => Err(e),
        }
    }
}

/// `a != b` is always the opposite of `a == b`.
pub proof fn ne_is_not_eq<T: ResourceTracker>(vm: VmView<T>)
    ensures
        vm.compared_eq(true).result == vm.compared_eq(false).result,
        vm.compared_eq(true).result is Ok ==> exists|same: bool| #[trigger]
            vm.compared(same) == vm.compared_eq(false).vm && vm.compared(!same) == vm.compared_eq(
                true,
            ).vm,
{
    if let Ok(same) = equal(vm.heap, vm.interns, vm.top(1), vm.top(0), MAX_DATA_DEPTH as nat) {
        assert(vm.compared(same) == vm.compared_eq(false).vm);
        assert(vm.compared(!same) == vm.compared_eq(true).vm);
    }
}

/// Whether two errors are of the same class.
pub open spec fn same_class(a: ErrorView, b: ErrorView) -> bool {
    match (a, b) {
        (ErrorView::Exc(x), ErrorView::Exc(y)) => x.exc.exc_type == y.exc.exc_type,
        _ => a == b,
    }
}

proof fn floor_mod_fits(a: i64, b: i64)
    requires
        b != 0,
    ensures
        i64::MIN <= floor_mod(a as int, b as int) <= i64::MAX,
{
    if b > 0 {
        assert(0 <= (a as int) % (b as int) < b as int) by (nonlinear_arith)
            requires
                b > 0,
        ;
    } else {
        let x = -(a as int);
        let y = -(b as int);
        assert(0 <= x % y < y) by (nonlinear_arith)
            requires
                y > 0,
        ;
    }
}

/// `a % b == k` in one instruction agrees with `%` followed by `==`: the stack is the same, and
/// an error is of the same class.
///
/// `result` is what `a % b` comes to; for small integers that is the remainder of a division
/// that rounds down.
pub proof fn mod_eq_is_mod_and_eq<T: ResourceTracker>(
    vm: VmView<T>,
    k: Value,
    result: Result<Option<Value>, ErrorView>,
)
    requires
        vm.stack.len() >= 2,
        !(k is InternLongInt),
        match (vm.top(1), vm.top(0)) {
            (Value::Int(a), Value::Int(b)) => b != 0 ==> result == Ok::<Option<Value>, ErrorView>(
                Some(Value::Int(floor_mod(a as int, b as int) as i64)),
            ),
            _ => true,
        },
    ensures
        ({
            let divided = vm.operated(BinaryOp::Mod, result);
            let compared = divided.vm.pushed(k).compared_eq(false);
            let at_once = vm.compared_mod(k, result);
            match divided.result {
                Err(e) => {
                    &&& at_once.result matches Err(f)
                    &&& same_class(e, f)
                    &&& at_once.vm == divided.vm
                    &&& at_once.vm.stack == vm.stack.take(vm.stack.len() - 2)
                },
                Ok(()) => {
                    &&& at_once.result == compared.result
                    &&& at_once.vm.stack == compared.vm.stack
                    &&& !(k is Ref) ==> at_once.vm.heap == compared.vm.heap
                },
            }
        }),
{
    let divided = vm.operated(BinaryOp::Mod, result);
    if let Ok(Some(v)) = result {
        let there = divided.vm.pushed(k);
        assert(there.top(0) == k && there.top(1) == v);
        assert(there.popped(2).stack =~= vm.popped(2).stack);
        if let (Value::Int(a), Value::Int(b)) = (vm.top(1), vm.top(0)) {
            if b != 0 {
                floor_mod_fits(a, b);
            }
        }
    }
}

} // verus!
