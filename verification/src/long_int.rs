//! Integers of any size.

use vstd::prelude::*;
use crate::text::{decimal, decimal_digit, digit_char, int_text};

verus! {

/// The number a little-endian sequence of base 2^32 digits stands for.
pub open spec fn magnitude(digits: Seq<u32>) -> nat
    decreases digits.len(),
{
    if digits.len() == 0 {
        0
    } else {
        digits[0] as nat + 0x1_0000_0000 * magnitude(digits.skip(1))
    }
}

proof fn magnitude_of_zeros(digits: Seq<u32>)
    requires
        forall|i: int| 0 <= i < digits.len() ==> digits[i] == 0,
    ensures
        magnitude(digits) == 0,
    decreases digits.len(),
{
    if digits.len() > 0 {
        magnitude_of_zeros(digits.skip(1));
    }
}

proof fn magnitude_is_positive(digits: Seq<u32>, i: int)
    requires
        0 <= i < digits.len(),
        digits[i] != 0,
    ensures
        magnitude(digits) > 0,
    decreases digits.len(),
{
    if i > 0 {
        assert(digits.skip(1)[i - 1] == digits[i]);
        magnitude_is_positive(digits.skip(1), i - 1);
    }
}

/// The digits from position `k` on.
spec fn upper(digits: Seq<u32>, k: int) -> Seq<u32> {
    if k < digits.len() {
        digits.skip(k)
    } else {
        Seq::empty()
    }
}

/// The digit at position `k`; missing digits are zero.
spec fn digit(digits: Seq<u32>, k: int) -> u32 {
    if k < digits.len() {
        digits[k]
    } else {
        0
    }
}

proof fn magnitude_step(digits: Seq<u32>, k: int)
    requires
        0 <= k,
    ensures
        magnitude(upper(digits, k)) == digit(digits, k) as nat + 0x1_0000_0000 * magnitude(
            upper(digits, k + 1),
        ),
{
    if k < digits.len() {
        assert(digits.skip(k).skip(1) =~= upper(digits, k + 1));
    }
}

/// How two things compare.
#[derive(Debug, Clone, Copy, PartialEq, Eq, Structural)]
pub enum Order {
    Less,
    Equal,
    Greater,
}

impl Order {
    /// The order of two integers.
    pub open spec fn of(a: int, b: int) -> Order {
        if a < b {
            Order::Less
        } else if a == b {
            Order::Equal
        } else {
            Order::Greater
        }
    }

    /// The order of the same two things the other way round.
    pub open spec fn flipped(self) -> Order {
        match self {
            Order::Less => Order::Greater,
            Order::Equal => Order::Equal,
            Order::Greater => Order::Less,
        }
    }

    /// The order of the same two things the other way round.
    pub fn reverse(self) -> (r: Self)
        ensures
            r == self.flipped(),
    {
        match self {
            Order::Less => Order::Greater,
            Order::Equal => Order::Equal,
            Order::Greater => Order::Less,
        }
    }
}

fn order_of_digits(a: &Vec<u32>, b: &Vec<u32>) -> (r: Order)
    ensures
        r == Order::of(magnitude(a@) as int, magnitude(b@) as int),
{
    let n: usize = if a.len() < b.len() {
        b.len()
    } else {
        a.len()
    };
    let mut order: Order = Order::Equal;
    let mut k: usize = n;
    while k > 0
        invariant
            k <= n,
            order == Order::of(magnitude(upper(a@, k as int)) as int, magnitude(upper(b@, k as int)) as int),
        decreases k,
    {
        k = k - 1;
        proof {
            magnitude_step(a@, k as int);
            magnitude_step(b@, k as int);
        }
        if order == Order::Equal {
            let x: u32 = if k < a.len() {
                a[k]
            } else {
                0
            };
            let y: u32 = if k < b.len() {
                b[k]
            } else {
                0
            };
            order = if x < y {
                Order::Less
            } else if x == y {
                Order::Equal
            } else {
                Order::Greater
            };
        }
    }
    proof {
        assert(upper(a@, 0) =~= a@);
        assert(upper(b@, 0) =~= b@);
    }
    order
}

/// An integer of any size, as a sign and base 2^32 digits, least significant first.
#[derive(Debug)]
pub struct LongInt {
    pub negative: bool,
    pub digits: Vec<u32>,
}

impl View for LongInt {
    type V = int;

    open spec fn view(&self) -> int {
        if self.negative {
            -(magnitude(self.digits@) as int)
        } else {
            magnitude(self.digits@) as int
        }
    }
}

/// Whether an integer can be held in an `i64`.
pub open spec fn fits_i64(value: int) -> bool {
    i64::MIN <= value <= i64::MAX
}

impl LongInt {
    pub fn new(negative: bool, digits: Vec<u32>) -> (r: Self)
        ensures
            r == (LongInt { negative, digits }),
    {
        LongInt { negative, digits }
    }

    /// The integer as an `i64`, if it fits.
    pub fn to_i64(&self) -> (r: Option<i64>)
        ensures
            r is Some <==> fits_i64(self@),
            r matches Some(i) ==> i == self@,
    {
        let n: usize = self.digits.len();
        let ghost ds = self.digits@;
        let mut k: usize = 2;
        while k < n
            invariant
                n == self.digits@.len(),
                ds == self.digits@,
                2 <= k,
                forall|i: int| 2 <= i < k && i < n ==> ds[i] == 0,
            decreases n - k,
        {
            if self.digits[k] != 0 {
                proof {
                    let upper = ds.skip(1).skip(1);
                    assert(upper[k - 2] == ds[k as int]);
                    magnitude_is_positive(upper, k - 2);
                    assert(magnitude(ds.skip(1)) == ds.skip(1)[0] as nat + 0x1_0000_0000 * magnitude(
                        upper,
                    ));
                    assert(magnitude(ds) >= 0x1_0000_0000_0000_0000);
                }
                return None;
            }
            k = k + 1;
        }
        let low: u64 = if n > 0 { self.digits[0] as u64 } else { 0 };
        let high: u64 = if n > 1 { self.digits[1] as u64 } else { 0 };
        let m: u64 = low + high * 0x1_0000_0000;
        proof {
            if n > 0 {
                if n > 1 {
                    let upper = ds.skip(1).skip(1);
                    assert forall|i: int| 0 <= i < upper.len() implies upper[i] == 0 by {
                        assert(upper[i] == ds[i + 2]);
                    }
                    magnitude_of_zeros(upper);
                    assert(magnitude(ds.skip(1)) == ds.skip(1)[0] as nat + 0x1_0000_0000 * magnitude(
                        upper,
                    ));
                    assert(magnitude(ds.skip(1)) == high);
                } else {
                    assert(ds.skip(1).len() == 0);
                    assert(magnitude(ds.skip(1)) == 0);
                }
            }
            assert(magnitude(ds) == m);
        }
        if self.negative {
            if m < 0x8000_0000_0000_0000 {
                Some(-(m as i64))
            } else if m == 0x8000_0000_0000_0000 {
                Some(i64::MIN)
            } else {
                None
            }
        } else if m < 0x8000_0000_0000_0000 {
            Some(m as i64)
        } else {
            None
        }
    }

    /// The integer `value`.
    pub fn from_i64(value: i64) -> (r: Self)
        ensures
            r@ == value,
    {
        let negative: bool = value < 0;
        let m: u64 = if value == i64::MIN {
            0x8000_0000_0000_0000
        } else if negative {
            (-value) as u64
        } else {
            value as u64
        };
        let mut digits: Vec<u32> = Vec::new();
        digits.push((m % 0x1_0000_0000) as u32);
        digits.push((m / 0x1_0000_0000) as u32);
        proof {
            let ds = digits@;
            assert(ds.skip(1).skip(1).len() == 0);
            assert(magnitude(ds.skip(1).skip(1)) == 0);
            assert(magnitude(ds.skip(1)) == ds[1] as nat);
            assert(magnitude(ds) == m);
        }
        LongInt { negative, digits }
    }

    /// The order of two integers.
    pub fn order(&self, other: &LongInt) -> (r: Order)
        ensures
            r == Order::of(self@, other@),
    {
        let zero: Vec<u32> = Vec::new();
        let sizes: Order = order_of_digits(&self.digits, &other.digits);
        let left_zero: bool = order_of_digits(&self.digits, &zero) == Order::Equal;
        let right_zero: bool = order_of_digits(&other.digits, &zero) == Order::Equal;
        assert(magnitude(zero@) == 0);
        let left_below: bool = self.negative && !left_zero;
        let right_below: bool = other.negative && !right_zero;
        if left_below {
            if right_below {
                sizes.reverse()
            } else {
                Order::Less
            }
        } else if right_below {
            Order::Greater
        } else {
            sizes
        }
    }

    /// A copy of the integer.
    pub fn duplicate(&self) -> (r: Self)
        ensures
            r@ == self@,
    {
        let digits: Vec<u32> = self.digits.clone();
        assert(digits@ =~= self.digits@);
        LongInt { negative: self.negative, digits }
    }
}

/// Divides by ten.
fn div_ten(digits: &Vec<u32>) -> (r: (Vec<u32>, u8))
    ensures
        r.1 < 10,
        magnitude(digits@) == magnitude(r.0@) * 10 + r.1,
{
    let n: usize = digits.len();
    let mut quotient: Vec<u32> = Vec::new();
    let mut i: usize = 0;
    while i < n
        invariant
            i <= n,
            quotient@.len() == i,
        decreases n - i,
    {
        quotient.push(0);
        i = i + 1;
    }
    let mut rem: u64 = 0;
    let mut k: usize = n;
    while k > 0
        invariant
            k <= n,
            n == digits@.len(),
            quotient@.len() == n,
            rem < 10,
            magnitude(upper(digits@, k as int)) == magnitude(upper(quotient@, k as int)) * 10 + rem,
        decreases k,
    {
        let ghost before = quotient@;
        k = k - 1;
        let cur: u64 = rem * 0x1_0000_0000 + digits[k] as u64;
        quotient[k] = (cur / 10) as u32;
        rem = cur % 10;
        proof {
            magnitude_step(digits@, k as int);
            magnitude_step(quotient@, k as int);
            assert(upper(quotient@, k + 1) =~= upper(before, k + 1));
        }
    }
    proof {
        assert(upper(digits@, 0) =~= digits@);
        assert(upper(quotient@, 0) =~= quotient@);
    }
    (quotient, rem as u8)
}

impl LongInt {
    /// The integer in decimal notation.
    pub fn to_text(&self) -> (r: String)
        ensures
            r@ == int_text(self@),
    {
        let none: Vec<u32> = Vec::new();
        let ghost all = magnitude(self.digits@);
        let mut reversed: Vec<char> = Vec::new();
        let (mut rest, last): (Vec<u32>, u8) = div_ten(&self.digits);
        let mut low: u8 = last;
        assert(magnitude(none@) == 0);
        assert(reversed@.reverse() =~= Seq::<char>::empty());
        assert(decimal(all) =~= decimal(all) + reversed@.reverse());
        while order_of_digits(&rest, &none) != Order::Equal
            invariant
                none@.len() == 0,
                magnitude(none@) == 0,
                low < 10,
                decimal(all) == decimal(magnitude(rest@) * 10 + low as nat) + reversed@.reverse(),
            decreases magnitude(rest@),
        {
            let ghost shown = magnitude(rest@) * 10 + low as nat;
            let ghost tail = reversed@.reverse();
            reversed.push(decimal_digit(low));
            assert(shown / 10 == magnitude(rest@) && shown % 10 == low as nat);
            assert(reversed@.reverse() =~= seq![digit_char(low as nat)] + tail);
            let (next, next_low): (Vec<u32>, u8) = div_ten(&rest);
            rest = next;
            low = next_low;
            assert(decimal(all) =~= decimal(magnitude(rest@) * 10 + low as nat) + reversed@.reverse());
        }
        reversed.push(decimal_digit(low));
        assert(magnitude(rest@) == 0);
        let mut out: String = String::new();
        if self.negative && is_nonzero(&self.digits) {
            out.push('-');
        }
        let ghost sign = out@;
        proof {
            let tail = reversed@.drop_last().reverse();
            assert(reversed@.reverse() =~= seq![digit_char(low as nat)] + tail);
            assert(decimal(all) =~= reversed@.reverse());
        }
        let mut i: usize = reversed.len();
        let ghost shown = reversed@.reverse();
        assert(out@ =~= sign + shown.take(0));
        while i > 0
            invariant
                i <= reversed@.len(),
                shown == reversed@.reverse(),
                out@ == sign + shown.take(reversed@.len() - i),
            decreases i,
        {
            i = i - 1;
            out.push(reversed[i]);
            assert(out@ =~= sign + shown.take(reversed@.len() - i));
        }
        assert(shown.take(shown.len() as int) =~= shown);
        assert(out@ =~= int_text(self@));
        out
    }
}

fn is_nonzero(digits: &Vec<u32>) -> (r: bool)
    ensures
        r == (magnitude(digits@) != 0),
{
    let none: Vec<u32> = Vec::new();
    assert(magnitude(none@) == 0);
    order_of_digits(digits, &none) != Order::Equal
}

} // verus!
