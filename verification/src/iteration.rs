//! Iterating over values, and allocating what iteration produces.

use vstd::prelude::*;
use crate::containers::{Range, Tuple};
use crate::equality::{chars_of, keys_of, range_len};
use crate::error::{ErrorView, Fault, RunError, RunResult};
use crate::heap::{DataView, Heap, HeapData, HeapView};
use crate::interns::Interns;
use crate::resource::{ResourceError, ResourceTracker};
use crate::small_values::{small_items, SmallValues};
use crate::text::char_text;
use crate::types::{ExcType, Type};
use crate::value::{copy_values, Value};

verus! {

/// What an operation that may run out of memory leads to.
pub struct Made<R, T> {
    pub heap: HeapView<T>,
    pub result: Result<R, ResourceError>,
}

impl<T: ResourceTracker> HeapView<T> {
    /// What allocating an object and referring to it leads to.
    pub open spec fn made(self, data: DataView) -> Made<Value, T> {
        Made {
            heap: self.allocated(data),
            result: match self.next_id() {
                Ok(id) => Ok(Value::Ref(id)),
                Err(e) => Err(e),
            },
        }
    }

    /// What allocating a one-character string for each of the first `n` characters leads
    /// to; it ends with the first allocation that is refused.
    pub open spec fn made_chars(self, chars: Seq<char>, n: int) -> Made<Seq<Value>, T>
        decreases n,
    {
        if n <= 0 {
            Made { heap: self, result: Ok(Seq::empty()) }
        } else {
            let before = self.made_chars(chars, n - 1);
            match before.result {
                Err(_) => before,
                Ok(items) => {
                    let one = before.heap.made(DataView::Str(seq![chars[n - 1]]));
                    Made {
                        heap: one.heap,
                        result: match one.result {
                            Err(e) => Err(e),
                            Ok(v) => Ok(items.push(v)),
                        },
                    }
                },
            }
        }
    }

    /// What making a tuple leads to. There is only one empty tuple, which the heap keeps
    /// a reference to.
    pub open spec fn made_tuple(self, items: Seq<Value>) -> Made<Value, T> {
        if items.len() != 0 {
            self.made(DataView::Tuple(items))
        } else {
            match self.empty_tuple {
                Some(id) => Made { heap: self.inc(id), result: Ok(Value::Ref(id)) },
                None => {
                    let one = self.made(DataView::Tuple(items));
                    match self.next_id() {
                        Err(_) => one,
                        Ok(id) => Made {
                            heap: HeapView { empty_tuple: Some(id), ..one.heap }.inc(id),
                            result: one.result,
                        },
                    }
                },
            }
        }
    }
}

/// Allocates a string of one character.
pub fn allocate_char<T: ResourceTracker>(c: char, heap: &mut Heap<T>) -> (r: Result<
    Value,
    ResourceError,
>)
    ensures
        ({
            let said = old(heap)@.made(DataView::Str(seq![c]));
            r == said.result && final(heap)@ == said.heap
        }),
{
    match heap.allocate(HeapData::Str(char_text(c))) {
        Ok(id) => Ok(Value::Ref(id)),
        Err(e) => Err(e),
    }
}

proof fn settled_chars<T: ResourceTracker>(h: HeapView<T>, chars: Seq<char>, k: int, n: int)
    requires
        0 <= k <= n,
        h.made_chars(chars, k).result is Err,
    ensures
        h.made_chars(chars, n) == h.made_chars(chars, k),
    decreases n - k,
{
    if k < n {
        settled_chars(h, chars, k, n - 1);
    }
}

/// Whether a vector was made as it is said to be made.
pub open spec fn values_match(
    r: Result<Vec<Value>, ResourceError>,
    said: Result<Seq<Value>, ResourceError>,
) -> bool {
    match (r, said) {
        (Ok(v), Ok(s)) => v@ == s,
        (Err(e), Err(f)) => e == f,
        _ => false,
    }
}

/// Allocates a string for each character.
pub fn allocate_chars<T: ResourceTracker>(chars: &Vec<char>, heap: &mut Heap<T>) -> (r: Result<
    Vec<Value>,
    ResourceError,
>)
    ensures
        ({
            let said = old(heap)@.made_chars(chars@, chars@.len() as int);
            values_match(r, said.result) && final(heap)@ == said.heap
        }),
{
    let mut items: Vec<Value> = Vec::new();
    let mut i: usize = 0;
    while i < chars.len()
        invariant
            0 <= i <= chars@.len(),
            ({
                let said = old(heap)@.made_chars(chars@, i as int);
                said.result == Ok::<Seq<Value>, ResourceError>(items@) && heap@ == said.heap
            }),
        decreases chars@.len() - i,
    {
        match allocate_char(chars[i], heap) {
            Err(e) => {
                proof {
                    settled_chars(old(heap)@, chars@, i + 1, chars@.len() as int);
                }
                return Err(e);
            },
            Ok(v) => {
                items.push(v);
            },
        }
        i = i + 1;
    }
    Ok(items)
}

/// Makes a tuple of the items, whose references it takes over.
pub fn allocate_tuple<T: ResourceTracker>(items: SmallValues, heap: &mut Heap<T>) -> (r: Result<
    Value,
    ResourceError,
>)
    ensures
        ({
            let said = old(heap)@.made_tuple(small_items(items));
            r == said.result && final(heap)@ == said.heap
        }),
{
    let items: Vec<Value> = items.into_vec();
    if items.len() != 0 {
        return match heap.allocate(HeapData::Tuple(Tuple::new(items))) {
            Ok(id) => Ok(Value::Ref(id)),
            Err(e) => Err(e),
        };
    }
    match heap.empty_tuple {
        Some(id) => {
            heap.inc_ref(id);
            Ok(Value::Ref(id))
        },
        None => match heap.allocate(HeapData::Tuple(Tuple::new(items))) {
            Err(e) => Err(e),
            Ok(id) => {
                heap.empty_tuple = Some(id);
                heap.inc_ref(id);
                Ok(Value::Ref(id))
            },
        },
    }
}

/// What iterating over a value produces.
pub enum Produced {
    /// These values, each counted once more.
    Values(Seq<Value>),
    /// A new string for each of these characters.
    Chars(Seq<char>),
}

/// The integers of a range.
pub open spec fn range_items(r: Range) -> Seq<Value> {
    Seq::new(range_len(r) as nat, |k: int| Value::Int((r.start + k * r.step) as i64))
}

/// Bytes as integers.
pub open spec fn byte_items(bytes: Seq<u8>) -> Seq<Value> {
    bytes.map_values(|b: u8| Value::Int(b as i64))
}

/// What iterating over a value produces, if it can be iterated over.
pub open spec fn produced<T>(h: HeapView<T>, interns: Interns, v: Value) -> Option<Produced> {
    match v {
        Value::InternString(id) => Some(Produced::Chars(interns.text(id))),
        Value::InternBytes(id) => Some(Produced::Values(byte_items(interns.bytes_text(id)))),
        Value::Ref(id) => match h.data(id) {
            Some(DataView::List(l)) => Some(Produced::Values(l.items)),
            Some(DataView::Tuple(t)) => Some(Produced::Values(t)),
            Some(DataView::PySet(s)) => Some(Produced::Values(s)),
            Some(DataView::Dict(d)) => Some(Produced::Values(keys_of(d))),
            Some(DataView::Str(s)) => Some(Produced::Chars(s)),
            Some(DataView::Bytes(b)) => Some(Produced::Values(byte_items(b))),
            Some(DataView::Range(r)) => Some(Produced::Values(range_items(r))),
            _ => None,
        },
        _ => None,
    }
}

/// What collecting the items of a value leads to.
pub struct Collected<T> {
    pub heap: HeapView<T>,
    pub result: Result<Seq<Value>, ErrorView>,
}

/// What collecting the items of a value leads to; the value itself is given up.
///
/// If an allocation is refused on the way, what was made so far and the value stay counted.
pub open spec fn collected<T: ResourceTracker>(
    h: HeapView<T>,
    interns: Interns,
    v: Value,
) -> Collected<T> {
    match produced(h, interns, v) {
        None => Collected {
            heap: h.release(v),
            result: Err(
                ErrorView::fault(ExcType::TypeError, Fault::NotIterable(h.type_of(v))),
            ),
        },
        Some(Produced::Values(items)) => Collected {
            heap: h.inc_values(items).release(v),
            result: Ok(items),
        },
        Some(Produced::Chars(chars)) => {
            let made = h.made_chars(chars, chars.len() as int);
            match made.result {
                Err(e) => Collected { heap: made.heap, result: Err(ErrorView::resource(e)) },
                Ok(items) => Collected { heap: made.heap.release(v), result: Ok(items) },
            }
        },
    }
}

/// Whether a vector was collected as it is said to be collected.
pub open spec fn collection_matches(
    r: RunResult<Vec<Value>>,
    said: Result<Seq<Value>, ErrorView>,
) -> bool {
    match (r, said) {
        (Ok(v), Ok(s)) => v@ == s,
        (Err(e), Err(f)) => e@ == f,
        _ => false,
    }
}

/// The keys of a dict.
pub fn copy_keys(entries: &[(Value, Value)]) -> (r: Vec<Value>)
    ensures
        r@ == keys_of(entries@),
{
    let mut out: Vec<Value> = Vec::new();
    let mut i: usize = 0;
    while i < entries.len()
        invariant
            0 <= i <= entries@.len(),
            out@.len() == i,
            forall|j: int| 0 <= j < i ==> #[trigger] out@[j] == entries@[j].0,
        decreases entries@.len() - i,
    {
        out.push(entries[i].0);
        i = i + 1;
    }
    assert(out@ =~= keys_of(entries@));
    out
}

fn bytes_as_values(bytes: &Vec<u8>) -> (r: Vec<Value>)
    ensures
        r@ == byte_items(bytes@),
{
    let mut out: Vec<Value> = Vec::new();
    let mut i: usize = 0;
    while i < bytes.len()
        invariant
            0 <= i <= bytes@.len(),
            out@.len() == i,
            forall|j: int| 0 <= j < i ==> #[trigger] out@[j] == Value::Int(bytes@[j] as i64),
        decreases bytes@.len() - i,
    {
        out.push(Value::Int(bytes[i] as i64));
        i = i + 1;
    }
    assert(out@ =~= byte_items(bytes@));
    out
}

impl Range {
    /// Every integer of a range is between its bounds.
    proof fn within(self, k: int)
        requires
            0 <= k < range_len(self),
        ensures
            i64::MIN <= self.start + k * self.step <= i64::MAX,
    {
        let step = self.step as int;
        if step > 0 {
            let d = self.stop - self.start;
            assert(k * step < d && 0 <= k * step) by (nonlinear_arith)
                requires
                    0 <= k < (d + step - 1) / step,
                    step > 0,
                    d > 0,
            ;
        } else {
            let d = self.start - self.stop;
            let z = -step;
            assert(k * z < d && 0 <= k * z) by (nonlinear_arith)
                requires
                    0 <= k < (d + z - 1) / z,
                    z > 0,
                    d > 0,
            ;
            assert(k * z == -(k * step)) by (nonlinear_arith)
                requires
                    z == -step,
            ;
        }
    }

    fn as_values(&self) -> (r: Vec<Value>)
        ensures
            r@ == range_items(*self),
    {
        let n: i128 = self.count();
        let step: i128 = self.step as i128;
        let mut out: Vec<Value> = Vec::new();
        let mut k: i128 = 0;
        let mut next: i128 = self.start as i128;
        while k < n
            invariant
                n == range_len(*self),
                step == self.step,
                0 <= k <= n <= u64::MAX,
                out@.len() == k,
                next == self.start + k * step,
                forall|j: int|
                    0 <= j < k ==> #[trigger] out@[j] == Value::Int(
                        (self.start + j * self.step) as i64,
                    ),
            decreases n - k,
        {
            proof {
                self.within(k as int);
                assert((k + 1) * step == k * step + step) by (nonlinear_arith);
            }
            out.push(Value::Int(next as i64));
            next = next + step;
            k = k + 1;
        }
        assert(out@ =~= range_items(*self));
        out
    }
}

/// The items of a value: values that are there, or characters to make strings of.
#[derive(Debug)]
pub enum Source {
    Values(Vec<Value>),
    Chars(Vec<char>),
}

/// Whether the items of a value were read as they are said to be.
pub open spec fn source_matches(r: Option<Source>, said: Option<Produced>) -> bool {
    match (r, said) {
        (None, None) => true,
        (Some(Source::Values(v)), Some(Produced::Values(w))) => v@ == w,
        (Some(Source::Chars(c)), Some(Produced::Chars(d))) => c@ == d,
        _ => false,
    }
}

/// What iterating over a value produces; values are not counted.
pub fn read_source<T>(v: Value, heap: &Heap<T>, interns: &Interns) -> (r: Option<Source>)
    ensures
        source_matches(r, produced(heap@, *interns, v)),
{
    match v {
        Value::InternString(id) => Some(Source::Chars(chars_of(interns.get_str(id)))),
        Value::InternBytes(id) => Some(Source::Values(bytes_as_values(&interns.get_bytes(id)))),
        Value::Ref(id) => match heap.get(id) {
            Some(HeapData::List(l)) => Some(Source::Values(copy_values(l.items.as_slice()))),
            Some(HeapData::Tuple(t)) => Some(Source::Values(copy_values(t.items.as_slice()))),
            Some(HeapData::PySet(s)) => Some(Source::Values(copy_values(s.items.as_slice()))),
            Some(HeapData::Dict(d)) => Some(Source::Values(copy_keys(d.entries.as_slice()))),
            Some(HeapData::Str(s)) => Some(Source::Chars(chars_of(s.as_str()))),
            Some(HeapData::Bytes(b)) => Some(Source::Values(bytes_as_values(b))),
            Some(HeapData::Range(r)) => Some(Source::Values(r.as_values())),
            _ => None,
        },
        _ => None,
    }
}

/// The items of a value, counted, with the value itself given up.
pub fn collect<T: ResourceTracker>(v: Value, heap: &mut Heap<T>, interns: &Interns) -> (r: RunResult<
    Vec<Value>,
>)
    ensures
        ({
            let said = collected(old(heap)@, *interns, v);
            collection_matches(r, said.result) && final(heap)@ == said.heap
        }),
{
    match read_source(v, heap, interns) {
        Some(Source::Values(items)) => {
            heap.inc_values(items.as_slice());
            v.drop_with_heap(heap);
            Ok(items)
        },
        Some(Source::Chars(chars)) => match allocate_chars(&chars, heap) {
            Err(e) => Err(RunError::resource(e)),
            Ok(items) => {
                v.drop_with_heap(heap);
                Ok(items)
            },
        },
        None => {
            let t: Type = v.py_type(heap);
            v.drop_with_heap(heap);
            Err(RunError::type_error(Fault::NotIterable(t)))
        },
    }
}

} // verus!
