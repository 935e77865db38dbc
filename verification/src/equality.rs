//! Equality, ordering and truth of Python values.

use vstd::prelude::*;
use crate::containers::Range;
use crate::heap::{DataView, Heap, HeapData, HeapView};
use crate::interns::Interns;
use crate::long_int::{LongInt, Order};
use crate::resource::{DepthGuard, ResourceError, MAX_DATA_DEPTH};
use crate::value::Value;

verus! {

/// The number of integers in a range.
pub open spec fn range_len(r: Range) -> int {
    if r.step > 0 && r.start < r.stop {
        (r.stop - r.start + r.step - 1) / (r.step as int)
    } else if r.step < 0 && r.stop < r.start {
        (r.start - r.stop - r.step - 1) / -(r.step as int)
    } else {
        0
    }
}

/// Whether two ranges produce the same integers.
pub open spec fn ranges_equal(a: Range, b: Range) -> bool {
    &&& range_len(a) == range_len(b)
    &&& range_len(a) == 0 || a.start == b.start
    &&& range_len(a) <= 1 || a.step == b.step
}

impl Range {
    /// The number of integers in the range.
    pub fn count(&self) -> (r: i128)
        ensures
            r == range_len(*self),
            0 <= r <= u64::MAX,
    {
        let start: i128 = self.start as i128;
        let stop: i128 = self.stop as i128;
        let step: i128 = self.step as i128;
        if step > 0 && start < stop {
            let n: i128 = (stop - start + step - 1) / step;
            proof {
                let x = stop - start + step - 1;
                assert(0 <= n && n <= x - step + 1) by (nonlinear_arith)
                    requires
                        n == x / (step as int),
                        step >= 1,
                        x >= step,
                ;
            }
            n
        } else if step < 0 && stop < start {
            let n: i128 = (start - stop - step - 1) / (-step);
            proof {
                let x = start - stop - step - 1;
                let d = -step;
                assert(0 <= n && n <= x - d + 1) by (nonlinear_arith)
                    requires
                        n == x / d,
                        d >= 1,
                        x >= d,
                ;
            }
            n
        } else {
            0
        }
    }
}

/// The integer a value is, if it is a number; booleans count as 0 and 1.
pub open spec fn number<T>(h: HeapView<T>, interns: Interns, v: Value) -> Option<int> {
    match v {
        Value::Bool(b) => Some(
            if b {
                1
            } else {
                0
            },
        ),
        Value::Int(i) => Some(i as int),
        Value::InternLongInt(id) => Some(interns.long_int(id)),
        Value::Ref(id) => match h.data(id) {
            Some(DataView::LongInt(i)) => Some(i),
            _ => None,
        },
        _ => None,
    }
}

/// The characters of a value, if it is a string.
pub open spec fn string<T>(h: HeapView<T>, interns: Interns, v: Value) -> Option<Seq<char>> {
    match v {
        Value::InternString(id) => Some(interns.text(id)),
        Value::Ref(id) => match h.data(id) {
            Some(DataView::Str(s)) => Some(s),
            _ => None,
        },
        _ => None,
    }
}

/// The content of a value, if it is a bytes object.
pub open spec fn byte_string<T>(h: HeapView<T>, interns: Interns, v: Value) -> Option<Seq<u8>> {
    match v {
        Value::InternBytes(id) => Some(interns.bytes_text(id)),
        Value::Ref(id) => match h.data(id) {
            Some(DataView::Bytes(s)) => Some(s),
            _ => None,
        },
        _ => None,
    }
}

/// The recursion limit on nested data.
pub open spec fn too_deep() -> ResourceError {
    ResourceError::Recursion { limit: MAX_DATA_DEPTH }
}

/// Whether two values are equal, if `room` more levels of nesting may be entered.
///
/// Numbers, strings and bytes are compared by content, containers item by item, other
/// objects by identity.
pub open spec fn equal<T>(
    h: HeapView<T>,
    interns: Interns,
    a: Value,
    b: Value,
    room: nat,
) -> Result<bool, ResourceError>
    decreases room, 1int, 0int,
{
    if number(h, interns, a) is Some && number(h, interns, b) is Some {
        Ok(number(h, interns, a) == number(h, interns, b))
    } else if string(h, interns, a) is Some && string(h, interns, b) is Some {
        Ok(string(h, interns, a) == string(h, interns, b))
    } else if byte_string(h, interns, a) is Some && byte_string(h, interns, b) is Some {
        Ok(byte_string(h, interns, a) == byte_string(h, interns, b))
    } else if a == b {
        Ok(true)
    } else {
        match (a, b) {
            (Value::Ref(x), Value::Ref(y)) => match (h.data(x), h.data(y)) {
                (Some(DataView::List(l)), Some(DataView::List(m))) => sequences_equal(
                    h,
                    interns,
                    l.items,
                    m.items,
                    room,
                ),
                (Some(DataView::Tuple(l)), Some(DataView::Tuple(m))) => sequences_equal(
                    h,
                    interns,
                    l,
                    m,
                    room,
                ),
                (Some(DataView::PySet(l)), Some(DataView::PySet(m))) => if l.len() != m.len() {
                    Ok(false)
                } else if room == 0 {
                    Err(too_deep())
                } else {
                    all_among(h, interns, l, m, l.len() as int, (room - 1) as nat)
                },
                (Some(DataView::Dict(l)), Some(DataView::Dict(m))) => if l.len() != m.len() {
                    Ok(false)
                } else if room == 0 {
                    Err(too_deep())
                } else {
                    entries_among(h, interns, l, m, l.len() as int, (room - 1) as nat)
                },
                (Some(DataView::Range(l)), Some(DataView::Range(m))) => Ok(ranges_equal(l, m)),
                (Some(DataView::Slice(l)), Some(DataView::Slice(m))) => Ok(l == m),
                _ => Ok(false),
            },
            _ => Ok(false),
        }
    }
}

/// Whether two sequences have the same length and equal items.
pub open spec fn sequences_equal<T>(
    h: HeapView<T>,
    interns: Interns,
    xs: Seq<Value>,
    ys: Seq<Value>,
    room: nat,
) -> Result<bool, ResourceError>
    decreases room, 0int, 0int,
{
    if xs.len() != ys.len() {
        Ok(false)
    } else if room == 0 {
        Err(too_deep())
    } else {
        items_equal(h, interns, xs, ys, xs.len() as int, (room - 1) as nat)
    }
}

/// Whether the first `n` items of two sequences are equal, compared from the front.
pub open spec fn items_equal<T>(
    h: HeapView<T>,
    interns: Interns,
    xs: Seq<Value>,
    ys: Seq<Value>,
    n: int,
    room: nat,
) -> Result<bool, ResourceError>
    decreases room, 2int, n,
{
    if n <= 0 {
        Ok(true)
    } else {
        match items_equal(h, interns, xs, ys, n - 1, room) {
            Ok(true) => equal(h, interns, xs[n - 1], ys[n - 1], room),
            other => other,
        }
    }
}

/// The position of the first of the first `n` items that `v` equals.
pub open spec fn first_equal<T>(
    h: HeapView<T>,
    interns: Interns,
    v: Value,
    items: Seq<Value>,
    n: int,
    room: nat,
) -> Result<Option<int>, ResourceError>
    decreases room, 2int, n,
{
    if n <= 0 {
        Ok(None)
    } else {
        match first_equal(h, interns, v, items, n - 1, room) {
            Ok(None) => match equal(h, interns, v, items[n - 1], room) {
                Ok(true) => Ok(Some(n - 1)),
                Ok(false) => Ok(None),
                Err(e) => Err(e),
            },
            other => other,
        }
    }
}

/// Whether each of the first `n` items of `xs` equals some item of `ys`.
pub open spec fn all_among<T>(
    h: HeapView<T>,
    interns: Interns,
    xs: Seq<Value>,
    ys: Seq<Value>,
    n: int,
    room: nat,
) -> Result<bool, ResourceError>
    decreases room, 3int, n,
{
    if n <= 0 {
        Ok(true)
    } else {
        match all_among(h, interns, xs, ys, n - 1, room) {
            Ok(true) => match first_equal(h, interns, xs[n - 1], ys, ys.len() as int, room) {
                Ok(found) => Ok(found is Some),
                Err(e) => Err(e),
            },
            other => other,
        }
    }
}

/// The keys of a dict.
pub open spec fn keys_of(pairs: Seq<(Value, Value)>) -> Seq<Value> {
    pairs.map_values(|p: (Value, Value)| p.0)
}

/// Whether each of the first `n` entries of `xs` has an equal entry in `ys`.
pub open spec fn entries_among<T>(
    h: HeapView<T>,
    interns: Interns,
    xs: Seq<(Value, Value)>,
    ys: Seq<(Value, Value)>,
    n: int,
    room: nat,
) -> Result<bool, ResourceError>
    decreases room, 3int, n,
{
    if n <= 0 {
        Ok(true)
    } else {
        match entries_among(h, interns, xs, ys, n - 1, room) {
            Ok(true) => match first_equal(h, interns, xs[n - 1].0, keys_of(ys), ys.len() as int, room) {
                Ok(Some(k)) => equal(h, interns, xs[n - 1].1, ys[k].1, room),
                Ok(None) => Ok(false),
                Err(e) => Err(e),
            },
            other => other,
        }
    }
}

/// A match is found inside the part that was searched, and nothing before it matches.
pub proof fn first_equal_position<T>(
    h: HeapView<T>,
    interns: Interns,
    v: Value,
    items: Seq<Value>,
    n: int,
    room: nat,
)
    requires
        0 <= n <= items.len(),
    ensures
        first_equal(h, interns, v, items, n, room) matches Ok(Some(k)) ==> 0 <= k < n && equal(
            h,
            interns,
            v,
            items[k],
            room,
        ) == Ok::<bool, ResourceError>(true) && forall|j: int|
            0 <= j < k ==> (#[trigger] equal(h, interns, v, items[j], room)) == Ok::<
                bool,
                ResourceError,
            >(false),
        first_equal(h, interns, v, items, n, room) == Ok::<Option<int>, ResourceError>(None)
            ==> forall|j: int|
            0 <= j < n ==> (#[trigger] equal(h, interns, v, items[j], room)) == Ok::<
                bool,
                ResourceError,
            >(false),
    decreases n,
{
    if n > 0 {
        first_equal_position(h, interns, v, items, n - 1, room);
    }
}

/// A search looks only at the part it searches.
pub proof fn first_equal_of_longer<T>(
    h: HeapView<T>,
    interns: Interns,
    v: Value,
    items: Seq<Value>,
    longer: Seq<Value>,
    n: int,
    room: nat,
)
    requires
        0 <= n <= items.len() <= longer.len(),
        forall|j: int| 0 <= j < n ==> items[j] == longer[j],
    ensures
        first_equal(h, interns, v, items, n, room) == first_equal(h, interns, v, longer, n, room),
    decreases n,
{
    if n > 0 {
        first_equal_of_longer(h, interns, v, items, longer, n - 1, room);
    }
}

/// Every value equals itself, if comparing it does not run too deep.
pub proof fn equal_is_reflexive<T>(h: HeapView<T>, interns: Interns, v: Value, room: nat)
    ensures
        equal(h, interns, v, v, room) == Ok::<bool, ResourceError>(true),
{
}

/// The integer a value is, if it is a number.
fn as_number<T>(v: Value, heap: &Heap<T>, interns: &Interns) -> (r: Option<Number>)
    ensures
        r is Some <==> number(heap@, *interns, v) is Some,
        r matches Some(n) ==> number(heap@, *interns, v) == Some(n@),
{
    match v {
        Value::Bool(b) => Some(
            Number::Small(
                if b {
                    1
                } else {
                    0
                },
            ),
        ),
        Value::Int(i) => Some(Number::Small(i)),
        Value::InternLongInt(id) => Some(Number::Long(interns.get_long_int(id))),
        Value::Ref(id) => match heap.get(id) {
            Some(HeapData::LongInt(i)) => Some(Number::Long(i.duplicate())),
            _ => None,
        },
        _ => None,
    }
}

/// A number read from a value.
enum Number {
    Small(i64),
    Long(LongInt),
}

impl View for Number {
    type V = int;

    closed spec fn view(&self) -> int {
        match self {
            Number::Small(i) => *i as int,
            Number::Long(i) => i@,
        }
    }
}

impl Number {
    fn to_long(self) -> (r: LongInt)
        ensures
            r@ == self@,
    {
        match self {
            Number::Small(i) => LongInt::from_i64(i),
            Number::Long(i) => i,
        }
    }

    fn order(self, other: Number) -> (r: Order)
        ensures
            r == Order::of(self@, other@),
    {
        if let Number::Small(a) = self {
            if let Number::Small(b) = other {
                return if a < b {
                    Order::Less
                } else if a == b {
                    Order::Equal
                } else {
                    Order::Greater
                };
            }
        }
        self.to_long().order(&other.to_long())
    }
}

/// The text of a value, if it is a string.
pub fn as_string<T>(v: Value, heap: &Heap<T>, interns: &Interns) -> (r: Option<String>)
    ensures
        r is Some <==> string(heap@, *interns, v) is Some,
        r matches Some(s) ==> string(heap@, *interns, v) == Some(s@),
{
    match v {
        Value::InternString(id) => Some(interns.get_str(id).to_owned()),
        Value::Ref(id) => match heap.get(id) {
            Some(HeapData::Str(s)) => Some(s.clone()),
            _ => None,
        },
        _ => None,
    }
}

/// The content of a value, if it is a bytes object.
pub fn as_bytes<T>(v: Value, heap: &Heap<T>, interns: &Interns) -> (r: Option<Vec<u8>>)
    ensures
        r is Some <==> byte_string(heap@, *interns, v) is Some,
        r matches Some(s) ==> byte_string(heap@, *interns, v) == Some(s@),
{
    match v {
        Value::InternBytes(id) => Some(interns.get_bytes(id)),
        Value::Ref(id) => match heap.get(id) {
            Some(HeapData::Bytes(b)) => {
                let copy: Vec<u8> = b.clone();
                assert(copy@ =~= b@);
                Some(copy)
            },
            _ => None,
        },
        _ => None,
    }
}

fn same_bytes(a: &Vec<u8>, b: &Vec<u8>) -> (r: bool)
    ensures
        r == (a@ == b@),
{
    if a.len() != b.len() {
        return false;
    }
    let mut i: usize = 0;
    while i < a.len()
        invariant
            a@.len() == b@.len(),
            0 <= i <= a@.len(),
            forall|j: int| 0 <= j < i ==> a@[j] == b@[j],
        decreases a@.len() - i,
    {
        if a[i] != b[i] {
            return false;
        }
        i = i + 1;
    }
    assert(a@ =~= b@);
    true
}

impl Value {
    /// Whether two values are equal.
    ///
    /// When nested data runs too deep the guard is left where that was found out, so that
    /// it has no room any more.
    pub fn py_eq<T>(
        &self,
        other: &Value,
        heap: &Heap<T>,
        guard: &mut DepthGuard,
        interns: &Interns,
    ) -> (r: Result<bool, ResourceError>)
        ensures
            r == equal(heap@, *interns, *self, *other, old(guard).room()),
            r is Ok ==> *final(guard) == *old(guard),
            r is Err ==> final(guard).room() == 0,
        decreases old(guard).room(), 2int,
    {
        let a: Value = *self;
        let b: Value = *other;
        if let Some(x) = as_number(a, heap, interns) {
            if let Some(y) = as_number(b, heap, interns) {
                return Ok(x.order(y) == Order::Equal);
            }
        }
        if let Some(x) = as_string(a, heap, interns) {
            if let Some(y) = as_string(b, heap, interns) {
                return Ok(x == y);
            }
        }
        if let Some(x) = as_bytes(a, heap, interns) {
            if let Some(y) = as_bytes(b, heap, interns) {
                return Ok(same_bytes(&x, &y));
            }
        }
        if a == b {
            return Ok(true);
        }
        if let Value::Ref(x) = a {
            if let Value::Ref(y) = b {
                return match (heap.get(x), heap.get(y)) {
                    (Some(HeapData::List(l)), Some(HeapData::List(m))) => l.py_eq(
                        m,
                        heap,
                        guard,
                        interns,
                    ),
                    (Some(HeapData::Tuple(l)), Some(HeapData::Tuple(m))) => sequence_eq(
                        l.as_slice(),
                        m.as_slice(),
                        heap,
                        guard,
                        interns,
                    ),
                    (Some(HeapData::PySet(l)), Some(HeapData::PySet(m))) => set_eq(
                        l.items.as_slice(),
                        m.items.as_slice(),
                        heap,
                        guard,
                        interns,
                    ),
                    (Some(HeapData::Dict(l)), Some(HeapData::Dict(m))) => dict_eq(
                        l.entries.as_slice(),
                        m.entries.as_slice(),
                        heap,
                        guard,
                        interns,
                    ),
                    (Some(HeapData::Range(l)), Some(HeapData::Range(m))) => {
                        let n: i128 = l.count();
                        Ok(
                            n == m.count() && (n == 0 || l.start == m.start) && (n <= 1 || l.step
                                == m.step),
                        )
                    },
                    (Some(HeapData::Slice(l)), Some(HeapData::Slice(m))) => Ok(*l == *m),
                    _ => Ok(false),
                };
            }
        }
        Ok(false)
    }

    /// The order of two values: numbers by size, strings by their characters, and no order
    /// between anything else.
    pub fn py_order<T>(&self, other: &Value, heap: &Heap<T>, interns: &Interns) -> (r: Option<Order>)
        ensures
            r == order(heap@, *interns, *self, *other),
    {
        if let Some(x) = as_number(*self, heap, interns) {
            if let Some(y) = as_number(*other, heap, interns) {
                return Some(x.order(y));
            }
        }
        if let Some(x) = as_string(*self, heap, interns) {
            if let Some(y) = as_string(*other, heap, interns) {
                return Some(text_order(&x, &y));
            }
        }
        None
    }

    /// Whether the value counts as true.
    pub fn py_bool<T>(&self, heap: &Heap<T>, interns: &Interns) -> (r: bool)
        ensures
            r == truth(heap@, *interns, *self),
    {
        match *self {
            Value::PyNone => false,
            Value::Bool(b) => b,
            Value::Int(i) => i != 0,
            Value::InternLongInt(id) => interns.get_long_int(id).order(&LongInt::from_i64(0))
                != Order::Equal,
            Value::InternString(id) => !interns.get_str(id).is_empty(),
            Value::InternBytes(id) => interns.get_bytes(id).len() != 0,
            Value::Ref(id) => match heap.get(id) {
                Some(HeapData::List(l)) => l.items.len() != 0,
                Some(HeapData::Tuple(t)) => t.items.len() != 0,
                Some(HeapData::Dict(d)) => d.entries.len() != 0,
                Some(HeapData::PySet(s)) => s.items.len() != 0,
                Some(HeapData::Str(s)) => !s.as_str().is_empty(),
                Some(HeapData::Bytes(b)) => b.len() != 0,
                Some(HeapData::Range(r)) => r.count() != 0,
                Some(HeapData::LongInt(i)) => i.order(&LongInt::from_i64(0)) != Order::Equal,
                _ => true,
            },
            _ => true,
        }
    }
}

/// Whether a value counts as true: zero, `None` and empty containers do not.
pub open spec fn truth<T>(h: HeapView<T>, interns: Interns, v: Value) -> bool {
    match v {
        Value::PyNone => false,
        Value::Bool(b) => b,
        Value::Int(i) => i != 0,
        Value::InternLongInt(id) => interns.long_int(id) != 0,
        Value::InternString(id) => interns.text(id).len() != 0,
        Value::InternBytes(id) => interns.bytes_text(id).len() != 0,
        Value::Ref(id) => match h.data(id) {
            Some(DataView::List(l)) => l.items.len() != 0,
            Some(DataView::Tuple(t)) => t.len() != 0,
            Some(DataView::Dict(d)) => d.len() != 0,
            Some(DataView::PySet(s)) => s.len() != 0,
            Some(DataView::Str(s)) => s.len() != 0,
            Some(DataView::Bytes(b)) => b.len() != 0,
            Some(DataView::Range(r)) => range_len(r) != 0,
            Some(DataView::LongInt(i)) => i != 0,
            _ => true,
        },
        _ => true,
    }
}

/// The order of two texts from position `k` on, by their characters.
pub open spec fn text_order_from(a: Seq<char>, b: Seq<char>, k: nat) -> Order
    decreases a.len() - k,
{
    if k >= a.len() {
        if k >= b.len() {
            Order::Equal
        } else {
            Order::Less
        }
    } else if k >= b.len() {
        Order::Greater
    } else if a[k as int] != b[k as int] {
        Order::of(a[k as int] as int, b[k as int] as int)
    } else {
        text_order_from(a, b, k + 1)
    }
}

/// The order of two values, if they have one.
pub open spec fn order<T>(h: HeapView<T>, interns: Interns, a: Value, b: Value) -> Option<Order> {
    match (number(h, interns, a), number(h, interns, b)) {
        (Some(x), Some(y)) => Some(Order::of(x, y)),
        _ => match (string(h, interns, a), string(h, interns, b)) {
            (Some(x), Some(y)) => Some(text_order_from(x, y, 0)),
            _ => None,
        },
    }
}

/// The characters of a text.
pub fn chars_of(s: &str) -> (r: Vec<char>)
    ensures
        r@ == s@,
{
    let mut out: Vec<char> = Vec::new();
    let chars = s.chars();
    for c in it: chars
        invariant
            out@ == s@.take(it.index() as int),
            it.seq() == s@,
    {
        out.push(c);
        assert(out@ =~= s@.take(it.index() + 1));
    }
    assert(out@ =~= s@);
    out
}

fn text_order(a: &String, b: &String) -> (r: Order)
    ensures
        r == text_order_from(a@, b@, 0),
{
    let x: Vec<char> = chars_of(a.as_str());
    let y: Vec<char> = chars_of(b.as_str());
    let mut k: usize = 0;
    while k < x.len() && k < y.len()
        invariant
            x@ == a@,
            y@ == b@,
            0 <= k <= x@.len(),
            k <= y@.len(),
            text_order_from(a@, b@, 0) == text_order_from(a@, b@, k as nat),
        decreases x@.len() - k,
    {
        if x[k] != y[k] {
            return if x[k] < y[k] {
                Order::Less
            } else {
                Order::Greater
            };
        }
        k = k + 1;
    }
    if k < x.len() {
        Order::Greater
    } else if k < y.len() {
        Order::Less
    } else {
        Order::Equal
    }
}

/// Whether two sequences have the same length and equal items.
pub fn sequence_eq<T>(
    xs: &[Value],
    ys: &[Value],
    heap: &Heap<T>,
    guard: &mut DepthGuard,
    interns: &Interns,
) -> (r: Result<bool, ResourceError>)
    ensures
        r == sequences_equal(heap@, *interns, xs@, ys@, old(guard).room()),
        r is Ok ==> *final(guard) == *old(guard),
        r is Err ==> final(guard).room() == 0,
    decreases old(guard).room(), 0int,
{
    if xs.len() != ys.len() {
        return Ok(false);
    }
    match guard.increase_err() {
        Err(e) => {
            return Err(e);
        },
        Ok(()) => {},
    }
    let ghost entered = *guard;
    let ghost room = guard.room();
    let mut i: usize = 0;
    while i < xs.len()
        invariant
            xs@.len() == ys@.len(),
            0 <= i <= xs@.len(),
            *guard == entered,
            room == entered.room(),
            entered.depth == old(guard).depth + 1,
            old(guard).room() == room + 1,
            items_equal(heap@, *interns, xs@, ys@, i as int, room) == Ok::<bool, ResourceError>(
                true,
            ),
        decreases xs@.len() - i,
    {
        let same: Result<bool, ResourceError> = xs[i].py_eq(&ys[i], heap, guard, interns);
        proof {
            if same != Ok::<bool, ResourceError>(true) {
                settled_items(heap@, *interns, xs@, ys@, i + 1, xs@.len() as int, room);
            }
        }
        match same {
            Err(e) => {
                return Err(e);
            },
            Ok(false) => {
                guard.decrease();
                return Ok(false);
            },
            Ok(true) => {},
        }
        i = i + 1;
    }
    guard.decrease();
    Ok(true)
}

/// Once a comparison from the front is settled, the items behind do not matter.
proof fn settled_items<T>(
    h: HeapView<T>,
    interns: Interns,
    xs: Seq<Value>,
    ys: Seq<Value>,
    k: int,
    n: int,
    room: nat,
)
    requires
        0 <= k <= n,
        items_equal(h, interns, xs, ys, k, room) != Ok::<bool, ResourceError>(true),
    ensures
        items_equal(h, interns, xs, ys, n, room) == items_equal(h, interns, xs, ys, k, room),
    decreases n - k,
{
    if k < n {
        settled_items(h, interns, xs, ys, k, n - 1, room);
    }
}

proof fn settled_search<T>(
    h: HeapView<T>,
    interns: Interns,
    v: Value,
    items: Seq<Value>,
    k: int,
    n: int,
    room: nat,
)
    requires
        0 <= k <= n,
        first_equal(h, interns, v, items, k, room) != Ok::<Option<int>, ResourceError>(None),
    ensures
        first_equal(h, interns, v, items, n, room) == first_equal(h, interns, v, items, k, room),
    decreases n - k,
{
    if k < n {
        settled_search(h, interns, v, items, k, n - 1, room);
    }
}

/// The position of the first item that `v` equals.
pub fn find_equal<T>(
    v: &Value,
    items: &[Value],
    heap: &Heap<T>,
    guard: &mut DepthGuard,
    interns: &Interns,
) -> (r: Result<Option<usize>, ResourceError>)
    ensures
        position_matches(r, first_equal(
            heap@,
            *interns,
            *v,
            items@,
            items@.len() as int,
            old(guard).room(),
        )),
        r matches Ok(Some(k)) ==> k < items@.len(),
        r is Ok ==> *final(guard) == *old(guard),
        r is Err ==> final(guard).room() == 0,
    decreases old(guard).room(), 3int,
{
    let ghost room = guard.room();
    let mut i: usize = 0;
    while i < items.len()
        invariant
            0 <= i <= items@.len(),
            *guard == *old(guard),
            room == old(guard).room(),
            first_equal(heap@, *interns, *v, items@, i as int, room) == Ok::<
                Option<int>,
                ResourceError,
            >(None),
        decreases items@.len() - i,
    {
        let same: Result<bool, ResourceError> = v.py_eq(&items[i], heap, guard, interns);
        proof {
            if same != Ok::<bool, ResourceError>(false) {
                settled_search(heap@, *interns, *v, items@, i + 1, items@.len() as int, room);
            }
        }
        match same {
            Err(e) => {
                return Err(e);
            },
            Ok(true) => {
                return Ok(Some(i));
            },
            Ok(false) => {},
        }
        i = i + 1;
    }
    Ok(None)
}

/// Whether a search that was carried out gives the position a search is said to have.
pub open spec fn position_matches(
    r: Result<Option<usize>, ResourceError>,
    said: Result<Option<int>, ResourceError>,
) -> bool {
    match (r, said) {
        (Ok(None), Ok(None)) => true,
        (Ok(Some(i)), Ok(Some(k))) => i == k,
        (Err(e), Err(f)) => e == f,
        _ => false,
    }
}

/// The position of the first entry whose key `v` equals.
pub fn find_key<T>(
    v: &Value,
    entries: &[(Value, Value)],
    heap: &Heap<T>,
    guard: &mut DepthGuard,
    interns: &Interns,
) -> (r: Result<Option<usize>, ResourceError>)
    ensures
        position_matches(r, first_equal(
            heap@,
            *interns,
            *v,
            keys_of(entries@),
            entries@.len() as int,
            old(guard).room(),
        )),
        r matches Ok(Some(k)) ==> k < entries@.len(),
        r is Ok ==> *final(guard) == *old(guard),
        r is Err ==> final(guard).room() == 0,
    decreases old(guard).room(), 3int,
{
    let ghost room = guard.room();
    let ghost keys = keys_of(entries@);
    let mut i: usize = 0;
    while i < entries.len()
        invariant
            0 <= i <= entries@.len(),
            keys == keys_of(entries@),
            *guard == *old(guard),
            room == old(guard).room(),
            first_equal(heap@, *interns, *v, keys, i as int, room) == Ok::<
                Option<int>,
                ResourceError,
            >(None),
        decreases entries@.len() - i,
    {
        let same: Result<bool, ResourceError> = v.py_eq(&entries[i].0, heap, guard, interns);
        proof {
            assert(keys[i as int] == entries@[i as int].0);
            if same != Ok::<bool, ResourceError>(false) {
                settled_search(heap@, *interns, *v, keys, i + 1, entries@.len() as int, room);
            }
        }
        match same {
            Err(e) => {
                return Err(e);
            },
            Ok(true) => {
                return Ok(Some(i));
            },
            Ok(false) => {},
        }
        i = i + 1;
    }
    Ok(None)
}

proof fn settled_among<T>(
    h: HeapView<T>,
    interns: Interns,
    xs: Seq<Value>,
    ys: Seq<Value>,
    k: int,
    n: int,
    room: nat,
)
    requires
        0 <= k <= n,
        all_among(h, interns, xs, ys, k, room) != Ok::<bool, ResourceError>(true),
    ensures
        all_among(h, interns, xs, ys, n, room) == all_among(h, interns, xs, ys, k, room),
    decreases n - k,
{
    if k < n {
        settled_among(h, interns, xs, ys, k, n - 1, room);
    }
}

proof fn settled_entries<T>(
    h: HeapView<T>,
    interns: Interns,
    xs: Seq<(Value, Value)>,
    ys: Seq<(Value, Value)>,
    k: int,
    n: int,
    room: nat,
)
    requires
        0 <= k <= n,
        entries_among(h, interns, xs, ys, k, room) != Ok::<bool, ResourceError>(true),
    ensures
        entries_among(h, interns, xs, ys, n, room) == entries_among(h, interns, xs, ys, k, room),
    decreases n - k,
{
    if k < n {
        settled_entries(h, interns, xs, ys, k, n - 1, room);
    }
}

fn set_eq<T>(
    xs: &[Value],
    ys: &[Value],
    heap: &Heap<T>,
    guard: &mut DepthGuard,
    interns: &Interns,
) -> (r: Result<bool, ResourceError>)
    ensures
        r == (if xs@.len() != ys@.len() {
            Ok(false)
        } else if old(guard).room() == 0 {
            Err(too_deep())
        } else {
            all_among(
                heap@,
                *interns,
                xs@,
                ys@,
                xs@.len() as int,
                (old(guard).room() - 1) as nat,
            )
        }),
        r is Ok ==> *final(guard) == *old(guard),
        r is Err ==> final(guard).room() == 0,
    decreases old(guard).room(), 0int,
{
    if xs.len() != ys.len() {
        return Ok(false);
    }
    match guard.increase_err() {
        Err(e) => {
            return Err(e);
        },
        Ok(()) => {},
    }
    let ghost entered = *guard;
    let ghost room = guard.room();
    let mut i: usize = 0;
    while i < xs.len()
        invariant
            xs@.len() == ys@.len(),
            0 <= i <= xs@.len(),
            *guard == entered,
            room == entered.room(),
            entered.depth == old(guard).depth + 1,
            old(guard).room() == room + 1,
            all_among(heap@, *interns, xs@, ys@, i as int, room) == Ok::<bool, ResourceError>(true),
        decreases xs@.len() - i,
    {
        let found: Result<Option<usize>, ResourceError> = find_equal(
            &xs[i],
            ys,
            heap,
            guard,
            interns,
        );
        proof {
            if !(found matches Ok(Some(_))) {
                settled_among(heap@, *interns, xs@, ys@, i + 1, xs@.len() as int, room);
            }
        }
        match found {
            Err(e) => {
                return Err(e);
            },
            Ok(None) => {
                guard.decrease();
                return Ok(false);
            },
            Ok(Some(_)) => {},
        }
        i = i + 1;
    }
    guard.decrease();
    Ok(true)
}

fn dict_eq<T>(
    xs: &[(Value, Value)],
    ys: &[(Value, Value)],
    heap: &Heap<T>,
    guard: &mut DepthGuard,
    interns: &Interns,
) -> (r: Result<bool, ResourceError>)
    ensures
        r == (if xs@.len() != ys@.len() {
            Ok(false)
        } else if old(guard).room() == 0 {
            Err(too_deep())
        } else {
            entries_among(
                heap@,
                *interns,
                xs@,
                ys@,
                xs@.len() as int,
                (old(guard).room() - 1) as nat,
            )
        }),
        r is Ok ==> *final(guard) == *old(guard),
        r is Err ==> final(guard).room() == 0,
    decreases old(guard).room(), 0int,
{
    if xs.len() != ys.len() {
        return Ok(false);
    }
    match guard.increase_err() {
        Err(e) => {
            return Err(e);
        },
        Ok(()) => {},
    }
    let ghost entered = *guard;
    let ghost room = guard.room();
    let mut i: usize = 0;
    while i < xs.len()
        invariant
            xs@.len() == ys@.len(),
            0 <= i <= xs@.len(),
            *guard == entered,
            room == entered.room(),
            entered.depth == old(guard).depth + 1,
            old(guard).room() == room + 1,
            entries_among(heap@, *interns, xs@, ys@, i as int, room) == Ok::<bool, ResourceError>(
                true,
            ),
        decreases xs@.len() - i,
    {
        let found: Result<Option<usize>, ResourceError> = find_key(
            &xs[i].0,
            ys,
            heap,
            guard,
            interns,
        );
        let same: Result<bool, ResourceError> = match found {
            Err(e) => Err(e),
            Ok(None) => Ok(false),
            Ok(Some(k)) => xs[i].1.py_eq(&ys[k].1, heap, guard, interns),
        };
        proof {
            if same != Ok::<bool, ResourceError>(true) {
                settled_entries(heap@, *interns, xs@, ys@, i + 1, xs@.len() as int, room);
            }
        }
        match same {
            Err(e) => {
                return Err(e);
            },
            Ok(false) => {
                guard.decrease();
                return Ok(false);
            },
            Ok(true) => {},
        }
        i = i + 1;
    }
    guard.decrease();
    Ok(true)
}

} // verus!
