//! Binary and in-place operators.
//!
//! Adding lists is done here. What other operands come to is up to their types: the
//! instructions take that result, with the operands still on the stack.

use vstd::prelude::*;
use crate::error::{outcome, BinaryOp, ErrorView, Fault, RunError, RunResult};
use crate::heap::{DataView, HeapData, HeapView};
use crate::iteration::Made;
use crate::list::{list_iadded, List, ListView};
use crate::resource::{ResourceError, ResourceTracker};
use crate::types::ExcType;
use crate::value::{copy_values, Value};
use crate::vm::{fails, VmStep, VmView, VM};

verus! {

/// What adding two lists leads to; nothing if one of the values is no list.
pub open spec fn lists_added<T: ResourceTracker>(h: HeapView<T>, lhs: Value, rhs: Value) -> Option<
    Made<Value, T>,
> {
    match (h.data_of(lhs), h.data_of(rhs)) {
        (Some(DataView::List(a)), Some(DataView::List(b))) => Some(
            h.inc_values(a.items).inc_values(b.items).made(
                DataView::List(ListView::of(a.items + b.items)),
            ),
        ),
        _ => None,
    }
}

/// What adding in place leads to, if the left operand is a list and the right one too.
pub open spec fn added_in_place<T>(h: HeapView<T>, lhs: Value, rhs: Value) -> Option<HeapView<T>> {
    match lhs {
        Value::Ref(id) => match h.data(id) {
            Some(DataView::List(l)) => match list_iadded(
                h.set_data(id, None),
                l,
                rhs,
                Some(id),
            ) {
                None => None,
                Some((list, heap)) => Some(heap.set_data(id, Some(DataView::List(list)))),
            },
            _ => None,
        },
        _ => None,
    }
}

impl<T: ResourceTracker> VmView<T> {
    /// The end of a binary operator: the result is pushed, or the error names the types of
    /// the operands, and then the operands are given up, the left one first.
    pub open spec fn operated(self, op: BinaryOp, result: Result<Option<Value>, ErrorView>) -> VmStep<
        (),
        T,
    > {
        let rhs = self.top(0);
        let lhs = self.top(1);
        let vm = self.popped(2);
        match result {
            Ok(Some(v)) => VmStep {
                vm: vm.pushed(v).release(lhs).release(rhs),
                result: Ok(()),
            },
            Ok(None) => fails(
                vm.release(lhs).release(rhs),
                ErrorView::fault(
                    ExcType::TypeError,
                    Fault::Operands(op, self.heap.type_of(lhs), self.heap.type_of(rhs)),
                ),
            ),
            Err(e) => fails(vm.release(lhs).release(rhs), e),
        }
    }

    /// `a + b`, where `elsewhere` is what operands come to that are not both lists.
    pub open spec fn added(self, elsewhere: Result<Option<Value>, ErrorView>) -> VmStep<(), T> {
        match lists_added(self.heap, self.top(1), self.top(0)) {
            None => self.operated(BinaryOp::Add, elsewhere),
            Some(made) => self.with_heap(made.heap).operated(
                BinaryOp::Add,
                match made.result {
                    Ok(v) => Ok(Some(v)),
                    Err(e) => Err(ErrorView::resource(e)),
                },
            ),
        }
    }

    /// `a += b`, where `elsewhere` is what operands come to that cannot be added in place.
    ///
    /// A list that is on the left stays on the stack. If a list meets something that is no
    /// list, the copy of the right operand stays counted.
    pub open spec fn added_inplace(self, elsewhere: Result<Option<Value>, ErrorView>) -> VmStep<
        (),
        T,
    > {
        let rhs = self.top(0);
        let lhs = self.top(1);
        let copied = self.heap.inc_value(rhs);
        match self.heap.data_of(lhs) {
            Some(DataView::List(_)) => match added_in_place(copied, lhs, rhs) {
                Some(heap) => VmStep {
                    vm: self.popped(2).with_heap(heap).pushed(lhs).release(rhs),
                    result: Ok(()),
                },
                None => self.with_heap(copied).operated(BinaryOp::InplaceAdd, elsewhere),
            },
            _ => self.operated(BinaryOp::InplaceAdd, elsewhere),
        }
    }
}

impl<'a, T: ResourceTracker> VM<'a, T> {
    fn finish_binary(&mut self, op: BinaryOp, result: RunResult<Option<Value>>) -> (r: RunResult<()>)
        requires
            old(self)@.stack.len() >= 2,
        ensures
            old(self)@.operated(op, outcome(result)).matches(r, final(self)@),
    {
        let rhs: Value = self.pop();
        let lhs: Value = self.pop();
        assert(self@.stack =~= old(self)@.popped(2).stack);
        let done: RunResult<()> = match result {
            Ok(Some(v)) => {
                self.push(v);
                Ok(())
            },
            Ok(None) => Err(
                RunError::type_error(
                    Fault::Operands(op, lhs.py_type(&self.heap), rhs.py_type(&self.heap)),
                ),
            ),
            Err(e) => Err(e),
        };
        lhs.drop_with_heap(&mut self.heap);
        rhs.drop_with_heap(&mut self.heap);
        done
    }

    /// A list with the same items as the one a value refers to, which do not count.
    fn copied_list(&self, v: Value) -> (r: Option<List>)
        ensures
            r is Some <==> (self@.heap.data_of(v) matches Some(DataView::List(_))),
            r matches Some(l) ==> (self@.heap.data_of(v) matches Some(DataView::List(m))
                && l@.items == m.items),
    {
        match v {
            Value::Ref(id) => match self.heap.get(id) {
                Some(HeapData::List(l)) => Some(List::new(copy_values(l.items.as_slice()))),
                _ => None,
            },
            _ => None,
        }
    }

    /// `a + b`.
    pub fn binary_add(&mut self, elsewhere: RunResult<Option<Value>>) -> (r: RunResult<()>)
        requires
            old(self)@.stack.len() >= 2,
        ensures
            old(self)@.added(outcome(elsewhere)).matches(r, final(self)@),
    {
        let rhs: Value = self.stack[self.stack.len() - 1];
        let lhs: Value = self.stack[self.stack.len() - 2];
        match (self.copied_list(lhs), self.copied_list(rhs)) {
            (Some(a), Some(b)) => {
                let sum: Result<Option<Value>, ResourceError> = a.py_add(&b, &mut self.heap);
                let result: RunResult<Option<Value>> = match sum {
                    Ok(v) => Ok(v),
                    Err(e) => Err(RunError::resource(e)),
                };
                self.finish_binary(BinaryOp::Add, result)
            },
            _ => self.finish_binary(BinaryOp::Add, elsewhere),
        }
    }

    /// `a - b`.
    pub fn binary_sub(&mut self, result: RunResult<Option<Value>>) -> (r: RunResult<()>)
        requires
            old(self)@.stack.len() >= 2,
        ensures
            old(self)@.operated(BinaryOp::Sub, outcome(result)).matches(r, final(self)@),
    {
        self.finish_binary(BinaryOp::Sub, result)
    }

    /// `a * b`.
    pub fn binary_mult(&mut self, result: RunResult<Option<Value>>) -> (r: RunResult<()>)
        requires
            old(self)@.stack.len() >= 2,
        ensures
            old(self)@.operated(BinaryOp::Mult, outcome(result)).matches(r, final(self)@),
    {
        self.finish_binary(BinaryOp::Mult, result)
    }

    /// `a / b`.
    pub fn binary_div(&mut self, result: RunResult<Option<Value>>) -> (r: RunResult<()>)
        requires
            old(self)@.stack.len() >= 2,
        ensures
            old(self)@.operated(BinaryOp::Div, outcome(result)).matches(r, final(self)@),
    {
        self.finish_binary(BinaryOp::Div, result)
    }

    /// `a // b`.
    pub fn binary_floordiv(&mut self, result: RunResult<Option<Value>>) -> (r: RunResult<()>)
        requires
            old(self)@.stack.len() >= 2,
        ensures
            old(self)@.operated(BinaryOp::FloorDiv, outcome(result)).matches(r, final(self)@),
    {
        self.finish_binary(BinaryOp::FloorDiv, result)
    }

    /// `a % b`.
    pub fn binary_mod(&mut self, result: RunResult<Option<Value>>) -> (r: RunResult<()>)
        requires
            old(self)@.stack.len() >= 2,
        ensures
            old(self)@.operated(BinaryOp::Mod, outcome(result)).matches(r, final(self)@),
    {
        self.finish_binary(BinaryOp::Mod, result)
    }

    /// `a ** b`.
    pub fn binary_pow(&mut self, result: RunResult<Option<Value>>) -> (r: RunResult<()>)
        requires
            old(self)@.stack.len() >= 2,
        ensures
            old(self)@.operated(BinaryOp::Pow, outcome(result)).matches(r, final(self)@),
    {
        self.finish_binary(BinaryOp::Pow, result)
    }

    /// A bitwise operator, whose result is a value or an error.
    pub fn binary_bitwise(&mut self, result: RunResult<Value>) -> (r: RunResult<()>)
        requires
            old(self)@.stack.len() >= 2,
        ensures
            ({
                let rhs = old(self)@.top(0);
                let lhs = old(self)@.top(1);
                let vm = old(self)@.popped(2);
                match result {
                    Ok(v) => r is Ok && final(self)@ == vm.pushed(v).release(lhs).release(rhs),
                    Err(e) => (r matches Err(f) && f == e) && final(self)@ == vm.release(
                        lhs,
                    ).release(rhs),
                }
            }),
    {
        let rhs: Value = self.pop();
        let lhs: Value = self.pop();
        assert(self@.stack =~= old(self)@.popped(2).stack);
        let done: RunResult<()> = match result {
            Ok(v) => {
                self.push(v);
                Ok(())
            },
            Err(e) => Err(e),
        };
        lhs.drop_with_heap(&mut self.heap);
        rhs.drop_with_heap(&mut self.heap);
        done
    }

    /// `a += b`: a list is extended in place, anything else is added.
    pub fn inplace_add(&mut self, elsewhere: RunResult<Option<Value>>) -> (r: RunResult<()>)
        requires
            old(self)@.stack.len() >= 2,
        ensures
            old(self)@.added_inplace(outcome(elsewhere)).matches(r, final(self)@),
    {
        let rhs: Value = self.stack[self.stack.len() - 1];
        let lhs: Value = self.stack[self.stack.len() - 2];
        if let Value::Ref(id) = lhs {
            let on_list: bool = match self.heap.get(id) {
                Some(HeapData::List(_)) => true,
                _ => false,
            };
            if on_list {
                let copy: Value = rhs.clone_with_heap(&mut self.heap);
                let ghost copied = self.heap@;
                assert(copied.data(id) == old(self)@.heap.data(id));
                if let Some(HeapData::List(l)) = self.heap.take_data(id) {
                    let mut l: List = l;
                    let added: Result<bool, ResourceError> = l.py_iadd(
                        copy,
                        &mut self.heap,
                        Some(id),
                    );
                    self.heap.put_data(id, HeapData::List(l));
                    if let Ok(true) = added {
                        let _ = self.pop();
                        let _ = self.pop();
                        self.push(lhs);
                        rhs.drop_with_heap(&mut self.heap);
                        assert(self@.stack =~= old(self)@.popped(2).pushed(lhs).stack);
                        return Ok(());
                    }
                    assert(self.heap@.entries =~= copied.entries);
                }
            }
        }
        self.finish_binary(BinaryOp::InplaceAdd, elsewhere)
    }

    /// `a @ b`, which no type supports.
    pub fn binary_matmul(&mut self) -> (r: RunResult<()>)
        requires
            old(self)@.stack.len() >= 2,
        ensures
            final(self)@ == old(self)@.popped(2).release(old(self)@.top(1)).release(
                old(self)@.top(0),
            ),
            outcome(r) == Err::<(), ErrorView>(
                ErrorView::fault(ExcType::NotImplementedError, Fault::MatMul),
            ),
    {
        let rhs: Value = self.pop();
        let lhs: Value = self.pop();
        assert(self@.stack =~= old(self)@.popped(2).stack);
        lhs.drop_with_heap(&mut self.heap);
        rhs.drop_with_heap(&mut self.heap);
        Err(RunError::fault(ExcType::NotImplementedError, Fault::MatMul))
    }
}

} // verus!
