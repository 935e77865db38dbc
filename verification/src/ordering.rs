//! Sorting positions by the values at them.

use vstd::prelude::*;
use vstd::set_lib::{lemma_int_range, lemma_subset_equality, set_int_range};
use crate::equality::{number, order, string, text_order_from};
use crate::heap::{Heap, HeapView};
use crate::interns::Interns;
use crate::long_int::Order;
use crate::value::Value;

verus! {

/// What to sort by: the values, and the direction.
pub struct SortBy<T> {
    pub heap: HeapView<T>,
    pub interns: Interns,
    pub values: Seq<Value>,
    pub reverse: bool,
}

impl<T> SortBy<T> {
    /// Whether every value can be compared with every other: all numbers, or all strings.
    pub open spec fn sortable(self) -> bool {
        ||| self.values.len() <= 1
        ||| forall|i: int|
            0 <= i < self.values.len() ==> number(
                self.heap,
                self.interns,
                #[trigger] self.values[i],
            ) is Some
        ||| forall|i: int|
            0 <= i < self.values.len() ==> string(
                self.heap,
                self.interns,
                #[trigger] self.values[i],
            ) is Some
    }

    /// The order of the values at two positions, in the direction of the sort.
    pub open spec fn direction(self, a: int, b: int) -> Option<Order> {
        match order(self.heap, self.interns, self.values[a], self.values[b]) {
            None => None,
            Some(o) => Some(
                if self.reverse {
                    o.flipped()
                } else {
                    o
                },
            ),
        }
    }

    /// Whether the value at `a` has to come before the value at `b`; equal values keep
    /// their order.
    pub open spec fn before(self, a: int, b: int) -> bool {
        self.direction(a, b) == Some(Order::Less) || (self.direction(a, b) == Some(Order::Equal)
            && a < b)
    }

    /// Whether positions are all different, inside the values, and in the order of the sort.
    pub open spec fn arranged(self, positions: Seq<usize>) -> bool {
        forall|i: int, j: int|
            0 <= i < j < positions.len() ==> self.before(
                (#[trigger] positions[i]) as int,
                (#[trigger] positions[j]) as int,
            )
    }

    /// Whether positions are the stable sorted arrangement of the values.
    pub open spec fn sorts(self, positions: Seq<usize>) -> bool {
        &&& positions.len() == self.values.len()
        &&& forall|i: int|
            0 <= i < positions.len() ==> (#[trigger] positions[i]) < self.values.len()
        &&& self.arranged(positions)
    }
}

/// Swapping two texts turns their order round.
pub proof fn text_order_flips(a: Seq<char>, b: Seq<char>, k: nat)
    ensures
        text_order_from(b, a, k) == text_order_from(a, b, k).flipped(),
    decreases a.len() - k,
{
    if k < a.len() && k < b.len() && a[k as int] == b[k as int] {
        text_order_flips(a, b, k + 1);
    }
}

/// The order of texts is transitive.
pub proof fn text_order_chains(a: Seq<char>, b: Seq<char>, c: Seq<char>, k: nat)
    requires
        text_order_from(a, b, k) != Order::Greater,
        text_order_from(b, c, k) != Order::Greater,
    ensures
        text_order_from(a, c, k) != Order::Greater,
        text_order_from(a, c, k) == Order::Equal ==> text_order_from(a, b, k) == Order::Equal
            && text_order_from(b, c, k) == Order::Equal,
    decreases a.len() - k,
{
    if k < a.len() && k < b.len() && k < c.len() && a[k as int] == b[k as int] && b[k as int]
        == c[k as int] {
        text_order_chains(a, b, c, k + 1);
    }
}

/// Texts that agree everywhere are ordered as equal.
pub proof fn text_order_of_same(a: Seq<char>, k: nat)
    ensures
        text_order_from(a, a, k) == Order::Equal,
    decreases a.len() - k,
{
    if k < a.len() {
        text_order_of_same(a, k + 1);
    }
}

/// The order of a sort is transitive.
pub proof fn before_is_transitive<T>(s: SortBy<T>, a: int, b: int, c: int)
    requires
        s.sortable(),
        0 <= a < s.values.len(),
        0 <= b < s.values.len(),
        0 <= c < s.values.len(),
        s.before(a, b),
        s.before(b, c),
    ensures
        s.before(a, c),
{
    let x = s.values[a];
    let y = s.values[b];
    let z = s.values[c];
    if number(s.heap, s.interns, x) is Some && number(s.heap, s.interns, y) is Some && number(
        s.heap,
        s.interns,
        z,
    ) is Some {
    } else if string(s.heap, s.interns, x) is Some && string(s.heap, s.interns, y) is Some
        && string(s.heap, s.interns, z) is Some {
        let p = string(s.heap, s.interns, x)->0;
        let q = string(s.heap, s.interns, y)->0;
        let r = string(s.heap, s.interns, z)->0;
        text_order_flips(p, q, 0);
        text_order_flips(q, r, 0);
        text_order_flips(p, r, 0);
        if s.reverse {
            text_order_chains(r, q, p, 0);
        } else {
            text_order_chains(p, q, r, 0);
        }
    }
}

/// Of two positions one comes before the other.
pub proof fn before_is_total<T>(s: SortBy<T>, a: int, b: int)
    requires
        s.sortable(),
        0 <= a < s.values.len(),
        0 <= b < s.values.len(),
        a != b,
    ensures
        s.before(a, b) || s.before(b, a),
        !(s.before(a, b) && s.before(b, a)),
        s.direction(a, b) is Some,
{
    let x = s.values[a];
    let y = s.values[b];
    if string(s.heap, s.interns, x) is Some && string(s.heap, s.interns, y) is Some {
        text_order_flips(
            string(s.heap, s.interns, x)->0,
            string(s.heap, s.interns, y)->0,
            0,
        );
    }
}

/// As many different positions as there are leave nothing out.
pub proof fn different_positions_are_all(p: Seq<usize>, x: int)
    requires
        p.no_duplicates(),
        forall|i: int| 0 <= i < p.len() ==> (#[trigger] p[i]) < p.len(),
        0 <= x < p.len(),
    ensures
        exists|k: int| 0 <= k < p.len() && (#[trigger] p[k]) == x,
{
    let n = p.len() as int;
    let ints = p.map_values(|u: usize| u as int);
    assert(ints.no_duplicates());
    ints.unique_seq_to_set();
    lemma_int_range(0, n);
    assert(ints.to_set().subset_of(set_int_range(0, n))) by {
        assert forall|y: int| ints.to_set().contains(y) implies set_int_range(0, n).contains(
            y,
        ) by {
            let k = choose|k: int| 0 <= k < ints.len() && ints[k] == y;
            assert(p[k] < p.len());
        }
    }
    lemma_subset_equality(ints.to_set(), set_int_range(0, n));
    assert(ints.to_set().contains(x));
    let k = choose|k: int| 0 <= k < ints.len() && ints[k] == x;
    assert(p[k] == x);
}

/// A sorted arrangement has no position twice.
pub proof fn arrangement_has_no_duplicates<T>(s: SortBy<T>, p: Seq<usize>)
    requires
        s.sorts(p),
    ensures
        p.no_duplicates(),
{
    assert forall|i: int, j: int|
        0 <= i < p.len() && 0 <= j < p.len() && i != j implies p[i] != p[j] by {
        let (lo, hi) = if i < j {
            (i, j)
        } else {
            (j, i)
        };
        assert(s.before(p[lo] as int, p[hi] as int));
        if p[lo] == p[hi] {
            same_is_not_before(s, p[lo] as int);
        }
    }
}

/// A sorted arrangement leaves nothing out.
pub proof fn arrangement_is_complete<T>(s: SortBy<T>, p: Seq<usize>, x: int)
    requires
        s.sorts(p),
        0 <= x < s.values.len(),
    ensures
        exists|k: int| 0 <= k < p.len() && (#[trigger] p[k]) == x,
{
    arrangement_has_no_duplicates(s, p);
    different_positions_are_all(p, x);
}

proof fn same_is_not_before<T>(s: SortBy<T>, a: int)
    ensures
        !s.before(a, a),
{
    let x = s.values[a];
    if string(s.heap, s.interns, x) is Some {
        text_order_of_same(string(s.heap, s.interns, x)->0, 0);
    }
}

/// There is only one stable sorted arrangement.
pub proof fn arrangement_is_unique<T>(s: SortBy<T>, p: Seq<usize>, q: Seq<usize>)
    requires
        s.sortable(),
        s.sorts(p),
        s.sorts(q),
    ensures
        p == q,
{
    let n = s.values.len() as int;
    prefixes_agree(s, p, q, n);
    assert(p =~= q);
}

proof fn prefixes_agree<T>(s: SortBy<T>, p: Seq<usize>, q: Seq<usize>, n: int)
    requires
        s.sortable(),
        s.sorts(p),
        s.sorts(q),
        0 <= n <= p.len(),
    ensures
        forall|i: int| 0 <= i < n ==> p[i] == q[i],
    decreases n,
{
    if n > 0 {
        prefixes_agree(s, p, q, n - 1);
        let i = n - 1;
        assert(p[i] < s.values.len() && q[i] < s.values.len());
        arrangement_is_complete(s, q, p[i] as int);
        arrangement_is_complete(s, p, q[i] as int);
        let k = choose|k: int| 0 <= k < q.len() && (#[trigger] q[k]) == p[i] as int;
        let j = choose|j: int| 0 <= j < p.len() && (#[trigger] p[j]) == q[i] as int;
        if k < i {
            assert(p[k] == q[k]);
            assert(s.before(p[k] as int, p[i] as int));
            same_is_not_before(s, p[i] as int);
        }
        if j < i {
            assert(p[j] == q[j]);
            assert(s.before(q[j] as int, q[i] as int));
            same_is_not_before(s, q[i] as int);
        }
        if p[i] != q[i] {
            assert(s.before(q[i] as int, q[k] as int));
            assert(s.before(p[i] as int, p[j] as int));
            before_is_total(s, p[i] as int, q[i] as int);
        }
    }
}

/// The positions from `lo` to `hi`, sorted by the values at them.
fn sort_positions<T>(
    lo: usize,
    hi: usize,
    values: &Vec<Value>,
    reverse: bool,
    heap: &Heap<T>,
    interns: &Interns,
) -> (r: Vec<usize>)
    requires
        lo <= hi <= values@.len(),
        (SortBy { heap: heap@, interns: *interns, values: values@, reverse }).sortable(),
    ensures
        r@.len() == hi - lo,
        forall|i: int| 0 <= i < r@.len() ==> lo <= (#[trigger] r@[i]) < hi,
        (SortBy { heap: heap@, interns: *interns, values: values@, reverse }).arranged(r@),
    decreases hi - lo,
{
    let ghost s = SortBy { heap: heap@, interns: *interns, values: values@, reverse };
    let mut out: Vec<usize> = Vec::new();
    if hi - lo == 0 {
        return out;
    }
    if hi - lo == 1 {
        out.push(lo);
        return out;
    }
    let mid: usize = lo + (hi - lo) / 2;
    let left: Vec<usize> = sort_positions(lo, mid, values, reverse, heap, interns);
    let right: Vec<usize> = sort_positions(mid, hi, values, reverse, heap, interns);
    let mut i: usize = 0;
    let mut j: usize = 0;
    while i < left.len() || j < right.len()
        invariant
            s == (SortBy { heap: heap@, interns: *interns, values: values@, reverse }),
            s.sortable(),
            lo < mid < hi <= values@.len(),
            left@.len() == mid - lo,
            right@.len() == hi - mid,
            forall|k: int| 0 <= k < left@.len() ==> lo <= (#[trigger] left@[k]) < mid,
            forall|k: int| 0 <= k < right@.len() ==> mid <= (#[trigger] right@[k]) < hi,
            s.arranged(left@),
            s.arranged(right@),
            0 <= i <= left@.len(),
            0 <= j <= right@.len(),
            out@.len() == i + j,
            forall|k: int| 0 <= k < out@.len() ==> lo <= (#[trigger] out@[k]) < hi,
            s.arranged(out@),
            forall|k: int, l: int|
                0 <= k < out@.len() && i <= l < left@.len() ==> s.before(
                    (#[trigger] out@[k]) as int,
                    (#[trigger] left@[l]) as int,
                ),
            forall|k: int, l: int|
                0 <= k < out@.len() && j <= l < right@.len() ==> s.before(
                    (#[trigger] out@[k]) as int,
                    (#[trigger] right@[l]) as int,
                ),
        decreases left@.len() - i + right@.len() - j,
    {
        let take_right: bool = if i >= left.len() {
            true
        } else if j >= right.len() {
            false
        } else {
            let a: usize = left[i];
            let b: usize = right[j];
            let o: Option<Order> = values[b].py_order(&values[a], heap, interns);
            proof {
                before_is_total(s, a as int, b as int);
                before_is_total(s, b as int, a as int);
            }
            match o {
                Some(o) => (if reverse {
                    o.reverse()
                } else {
                    o
                }) == Order::Less,
                None => false,
            }
        };
        let ghost done = out@;
        if take_right {
            let b: usize = right[j];
            proof {
                if i < left@.len() {
                    assert(s.before(b as int, left@[i as int] as int));
                    assert forall|l: int| i < l < left@.len() implies s.before(
                        b as int,
                        (#[trigger] left@[l]) as int,
                    ) by {
                        before_is_transitive(s, b as int, left@[i as int] as int, left@[l] as int);
                    }
                }
            }
            out.push(b);
            j = j + 1;
        } else {
            let a: usize = left[i];
            proof {
                if j < right@.len() {
                    assert(s.before(a as int, right@[j as int] as int));
                    assert forall|l: int| j < l < right@.len() implies s.before(
                        a as int,
                        (#[trigger] right@[l]) as int,
                    ) by {
                        before_is_transitive(
                            s,
                            a as int,
                            right@[j as int] as int,
                            right@[l] as int,
                        );
                    }
                }
            }
            out.push(a);
            i = i + 1;
        }
        assert(out@ =~= done.push(out@[done.len() as int]));
    }
    out
}

/// The stable sorted arrangement of values, or two positions whose values cannot be
/// compared.
pub fn arrange<T>(values: &Vec<Value>, reverse: bool, heap: &Heap<T>, interns: &Interns) -> (r:
    Result<Vec<usize>, (usize, usize)>)
    ensures
        ({
            let s = SortBy { heap: heap@, interns: *interns, values: values@, reverse };
            &&& r is Ok <==> s.sortable()
            &&& r matches Ok(p) ==> s.sorts(p@)
            &&& r matches Err((a, b)) ==> a < values@.len() && b < values@.len() && a != b
                && s.direction(a as int, b as int) is None
        }),
{
    let n: usize = values.len();
    let ghost s = SortBy { heap: heap@, interns: *interns, values: values@, reverse };
    if n > 1 {
        let mut i: usize = 1;
        while i < n
            invariant
                n == values@.len(),
                s == (SortBy { heap: heap@, interns: *interns, values: values@, reverse }),
                1 <= i <= n,
                i > 1 ==> (forall|k: int|
                    0 <= k < i ==> number(heap@, *interns, #[trigger] values@[k]) is Some) || (
                forall|k: int|
                    0 <= k < i ==> string(heap@, *interns, #[trigger] values@[k]) is Some),
            decreases n - i,
        {
            if values[i].py_order(&values[0], heap, interns).is_none() {
                proof {
                    assert(!s.sortable()) by {
                        let x = s.values[i as int];
                        let y = s.values[0];
                    }
                }
                return Err((i, 0));
            }
            i = i + 1;
        }
    }
    Ok(sort_positions(0, n, values, reverse, heap, interns))
}

} // verus!
