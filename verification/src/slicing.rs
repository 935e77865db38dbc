//! Slices of sequences.

use vstd::prelude::*;
use vstd::arithmetic::div_mod::lemma_fundamental_div_mod_converse;
use crate::containers::Slice;
use crate::heap::{inc_values_push, Heap};
use crate::value::Value;

verus! {

/// How many steps of size `step` lead from `start` to before `stop`.
pub open spec fn step_count(start: int, stop: int, step: int) -> nat {
    if step > 0 && start < stop {
        ((stop - start + step - 1) / step) as nat
    } else if step < 0 && stop < start {
        ((start - stop - step - 1) / -step) as nat
    } else {
        0
    }
}

/// The items at `start`, `start + step` and so on, before `stop`.
pub open spec fn stepped<A>(items: Seq<A>, start: int, stop: int, step: int) -> Seq<A> {
    Seq::new(step_count(start, stop, step), |k: int| items[start + k * step])
}

/// A bound of a slice, counted from the end if it is negative and brought into the range
/// from `low` to `high`.
pub open spec fn clamped(bound: int, len: int, low: int, high: int) -> int {
    let b = if bound < 0 {
        bound + len
    } else {
        bound
    };
    if b < low {
        low
    } else if b > high {
        high
    } else {
        b
    }
}

impl Slice {
    /// The step; one if it is left open.
    pub open spec fn step_or_one(self) -> int {
        match self.step {
            None => 1,
            Some(s) => s as int,
        }
    }

    /// Where the slice of a sequence of length `len` starts.
    pub open spec fn first(self, len: int) -> int {
        if self.step_or_one() > 0 {
            match self.start {
                None => 0,
                Some(b) => clamped(b as int, len, 0, len),
            }
        } else {
            match self.start {
                None => len - 1,
                Some(b) => clamped(b as int, len, -1, len - 1),
            }
        }
    }

    /// Where the slice of a sequence of length `len` ends; the position itself is left out.
    pub open spec fn past(self, len: int) -> int {
        if self.step_or_one() > 0 {
            match self.stop {
                None => len,
                Some(b) => clamped(b as int, len, 0, len),
            }
        } else {
            match self.stop {
                None => -1,
                Some(b) => clamped(b as int, len, -1, len - 1),
            }
        }
    }

    /// The items a slice selects.
    pub open spec fn select<A>(self, items: Seq<A>) -> Seq<A> {
        stepped(items, self.first(items.len() as int), self.past(items.len() as int), self.step_or_one())
    }
}

fn clamp(bound: i64, len: usize, low: i128, high: i128) -> (r: i128)
    requires
        -1 <= low <= 0,
        -1 <= high <= len,
    ensures
        r == clamped(bound as int, len as int, low as int, high as int),
{
    let b: i128 = if bound < 0 {
        bound as i128 + len as i128
    } else {
        bound as i128
    };
    if b < low {
        low
    } else if b > high {
        high
    } else {
        b
    }
}

/// The bound of a backward walk that `stop` stands for: a `stop` behind the end of the
/// sequence, or the largest one there is, means that the walk goes to the beginning.
pub open spec fn backward_stop(stop: int, len: int) -> int {
    if stop > len || stop == usize::MAX {
        -1
    } else {
        stop
    }
}

impl Slice {
    /// Where the slice of a sequence of length `len` starts and ends, and its step; nothing
    /// if the step is zero.
    ///
    /// For a negative step, an end behind the sequence stands for going to its beginning.
    pub fn indices(&self, len: usize) -> (r: Result<(usize, usize, i64), ()>)
        ensures
            r is Ok <==> self.step_or_one() != 0,
            r matches Ok((start, stop, step)) ==> {
                &&& step == self.step_or_one()
                &&& step > 0 ==> start == self.first(len as int) && stop == self.past(len as int)
                &&& step < 0 && self.first(len as int) >= 0 ==> start == self.first(len as int)
                    && backward_stop(stop as int, len as int) == self.past(len as int)
                &&& step < 0 && self.first(len as int) < 0 ==> start == 0 && stop == 0
            },
    {
        let step: i64 = match self.step {
            None => 1,
            Some(s) => s,
        };
        if step == 0 {
            return Err(());
        }
        let n: i128 = len as i128;
        if step > 0 {
            let start: i128 = match self.start {
                None => 0,
                Some(b) => clamp(b, len, 0, n),
            };
            let stop: i128 = match self.stop {
                None => n,
                Some(b) => clamp(b, len, 0, n),
            };
            Ok((start as usize, stop as usize, step))
        } else {
            let start: i128 = match self.start {
                None => n - 1,
                Some(b) => clamp(b, len, -1, n - 1),
            };
            let stop: i128 = match self.stop {
                None => -1,
                Some(b) => clamp(b, len, -1, n - 1),
            };
            if start < 0 {
                Ok((0, 0, step))
            } else if stop < 0 {
                Ok((start as usize, usize::MAX, step))
            } else {
                Ok((start as usize, stop as usize, step))
            }
        }
    }
}

/// The number of steps is the number of multiples that stay below the distance.
proof fn step_count_is(d: int, size: int, k: int)
    requires
        size > 0,
        k >= 1,
        (k - 1) * size < d <= k * size,
    ensures
        (d + size - 1) / size == k,
{
    let r = d + size - 1 - k * size;
    assert((k - 1) * size == k * size - size) by (nonlinear_arith);
    assert(d + size - 1 == k * size + r);
    lemma_fundamental_div_mod_converse(d + size - 1, size, k, r);
}

/// The items a walk visits: forward up to `stop` and the end of the sequence, backward
/// down to what `stop` stands for.
pub open spec fn walk(items: Seq<Value>, start: usize, stop: usize, step: i64) -> Seq<Value> {
    let len = items.len() as int;
    if step > 0 {
        stepped(
            items,
            start as int,
            if stop < len {
                stop as int
            } else {
                len
            },
            step as int,
        )
    } else if start < len {
        stepped(items, start as int, backward_stop(stop as int, len), step as int)
    } else {
        Seq::empty()
    }
}

/// The items a walk visits, counted on the heap.
pub fn get_slice_items<T>(
    items: &[Value],
    start: usize,
    stop: usize,
    step: i64,
    heap: &mut Heap<T>,
) -> (r: Vec<Value>)
    requires
        step != 0,
    ensures
        r@ == walk(items@, start, stop, step),
        final(heap)@ == old(heap)@.inc_values(walk(items@, start, stop, step)),
{
    let mut result: Vec<Value> = Vec::new();
    let n: i128 = items.len() as i128;
    let size: i128 = step as i128;
    let mut i: i128 = start as i128;
    if step > 0 {
        let limit: i128 = if stop < items.len() {
            stop as i128
        } else {
            n
        };
        let ghost mut k: int = 0;
        while i < limit
            invariant
                n == items@.len(),
                limit <= n,
                0 <= start <= i,
                i <= n + size || i == start,
                size == step,
                size > 0,
                k >= 0,
                i == start + k * size,
                k > 0 ==> start + (k - 1) * size < limit,
                result@.len() == k,
                forall|j: int| 0 <= j < k ==> #[trigger] result@[j] == items@[start + j * size],
                heap@ == old(heap)@.inc_values(result@),
            decreases limit - i + size,
        {
            let v: Value = items[i as usize];
            proof {
                inc_values_push(old(heap)@, result@, v);
                assert((k + 1) * size == k * size + size) by (nonlinear_arith);
                k = k + 1;
            }
            result.push(v.clone_with_heap(heap));
            i = i + size;
        }
        proof {
            let w = walk(items@, start, stop, step);
            if k > 0 {
                assert((k - 1) * size == k * size - size) by (nonlinear_arith);
                assert(0 <= (k - 1) * size) by (nonlinear_arith)
                    requires
                        k >= 1,
                        size > 0,
                ;
                step_count_is(limit - start, size as int, k);
            }
            assert(w.len() == k);
            assert(result@ =~= w);
        }
    } else {
        let below: i128 = if stop > items.len() || stop == usize::MAX {
            -1
        } else {
            stop as i128
        };
        let ghost mut k: int = 0;
        while 0 <= i && i < n && i > below
            invariant
                n == items@.len(),
                -1 <= below <= n,
                below == backward_stop(stop as int, n as int),
                size - 1 < i <= start,
                size == step,
                size < 0,
                k >= 0,
                i == start + k * size,
                k > 0 ==> start < n && start + (k - 1) * size > below,
                result@.len() == k,
                forall|j: int| 0 <= j < k ==> #[trigger] result@[j] == items@[start + j * size],
                heap@ == old(heap)@.inc_values(result@),
            decreases i - below - size,
        {
            let v: Value = items[i as usize];
            proof {
                inc_values_push(old(heap)@, result@, v);
                assert((k + 1) * size == k * size + size) by (nonlinear_arith);
                k = k + 1;
            }
            result.push(v.clone_with_heap(heap));
            i = i + size;
        }
        proof {
            let w = walk(items@, start, stop, step);
            if k > 0 {
                let z = -size;
                assert((k - 1) * z == -((k - 1) * size)) by (nonlinear_arith)
                    requires
                        z == -size,
                ;
                assert(k * z == -(k * size)) by (nonlinear_arith)
                    requires
                        z == -size,
                ;
                assert((k - 1) * size == k * size - size) by (nonlinear_arith);
                assert(0 <= (k - 1) * z) by (nonlinear_arith)
                    requires
                        k >= 1,
                        z > 0,
                ;
                step_count_is(start - below, z as int, k);
            }
            assert(w.len() == k);
            assert(result@ =~= w);
        }
    }
    result
}

/// Walking along the indices of a slice visits the items the slice selects.
pub proof fn walk_selects(slice: Slice, items: Seq<Value>, start: usize, stop: usize, step: i64)
    requires
        step == slice.step_or_one(),
        step != 0,
        step > 0 ==> start == slice.first(items.len() as int) && stop == slice.past(
            items.len() as int,
        ),
        step < 0 && slice.first(items.len() as int) >= 0 ==> start == slice.first(
            items.len() as int,
        ) && backward_stop(stop as int, items.len() as int) == slice.past(items.len() as int),
        step < 0 && slice.first(items.len() as int) < 0 ==> start == 0 && stop == 0,
    ensures
        walk(items, start, stop, step) == slice.select(items),
{
    assert(walk(items, start, stop, step) =~= slice.select(items));
}

/// A slice with open ends selects everything.
pub proof fn full_slice_selects_all(items: Seq<Value>)
    ensures
        (Slice { start: None, stop: None, step: None }).select(items) == items,
{
    let s = Slice { start: None, stop: None, step: None };
    let len = items.len() as int;
    if len > 0 {
        step_count_is(len, 1, len);
    }
    assert(s.select(items) =~= items);
}

/// A slice with open ends and step minus one selects everything backwards.
pub proof fn backward_slice_reverses(items: Seq<Value>)
    ensures
        (Slice { start: None, stop: None, step: Some(-1i64) }).select(items) == items.reverse(),
{
    let s = Slice { start: None, stop: None, step: Some(-1i64) };
    let len = items.len() as int;
    if len > 0 {
        step_count_is(len, 1, len);
    }
    assert(s.select(items) =~= items.reverse());
}

} // verus!
