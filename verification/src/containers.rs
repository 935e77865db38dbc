//! Container objects other than lists.

use vstd::prelude::*;
use crate::equality::{
    equal_is_reflexive, find_equal, find_key, first_equal, first_equal_of_longer,
    first_equal_position, keys_of, too_deep,
};
use crate::error::{outcome, ErrorView, Fault, RunError, RunResult};
use crate::heap::{DataView, Heap, HeapData, HeapView};
use crate::interns::Interns;
use crate::resource::{DepthGuard, ResourceError, MAX_DATA_DEPTH};
use crate::types::{ExcType, Type};
use crate::value::Value;

verus! {

/// A Python tuple.
#[derive(Debug)]
pub struct Tuple {
    pub items: Vec<Value>,
}

impl Tuple {
    pub fn new(items: Vec<Value>) -> (r: Self)
        ensures
            r.items@ == items@,
    {
        Tuple { items }
    }

    pub fn as_slice(&self) -> (r: &[Value])
        ensures
            r@ == self.items@,
    {
        self.items.as_slice()
    }
}

/// A Python dict: its entries in the order in which their keys were first set.
#[derive(Debug)]
pub struct Dict {
    pub entries: Vec<(Value, Value)>,
}

impl Dict {
    pub fn new() -> (r: Self)
        ensures
            r.entries@ == Seq::<(Value, Value)>::empty(),
    {
        Dict { entries: Vec::new() }
    }
}

/// A Python set: its items in the order in which they were added.
#[derive(Debug)]
pub struct PySet {
    pub items: Vec<Value>,
}

impl PySet {
    pub fn new() -> (r: Self)
        ensures
            r.items@ == Seq::<Value>::empty(),
    {
        PySet { items: Vec::new() }
    }
}

/// A Python range.
#[derive(Debug, Clone, Copy, PartialEq, Eq, Structural)]
pub struct Range {
    pub start: i64,
    pub stop: i64,
    pub step: i64,
}

/// A Python slice; a missing bound is open.
#[derive(Debug, Clone, Copy, PartialEq, Eq, Structural)]
pub struct Slice {
    pub start: Option<i64>,
    pub stop: Option<i64>,
    pub step: Option<i64>,
}

impl Slice {
    pub fn new(start: Option<i64>, stop: Option<i64>, step: Option<i64>) -> (r: Self)
        ensures
            r == (Slice { start, stop, step }),
    {
        Slice { start, stop, step }
    }
}

/// The type that keeps a value from being hashed, if any; `room` bounds how deep tuples nest.
pub open spec fn unhashable<T>(h: HeapView<T>, v: Value, room: nat) -> Result<Option<Type>, ResourceError>
    decreases room, 0int, 0int,
{
    match v {
        Value::Ref(id) => match h.data(id) {
            Some(DataView::List(_)) => Ok(Some(Type::List)),
            Some(DataView::Dict(_)) => Ok(Some(Type::Dict)),
            Some(DataView::PySet(_)) => Ok(Some(Type::PySet)),
            Some(DataView::Tuple(items)) => if room == 0 {
                Err(too_deep())
            } else {
                first_unhashable(h, items, items.len() as int, (room - 1) as nat)
            },
            _ => Ok(None),
        },
        _ => Ok(None),
    }
}

/// The first type among the first `n` items that cannot be hashed.
pub open spec fn first_unhashable<T>(
    h: HeapView<T>,
    items: Seq<Value>,
    n: int,
    room: nat,
) -> Result<Option<Type>, ResourceError>
    decreases room, 1int, n,
{
    if n <= 0 {
        Ok(None)
    } else {
        match first_unhashable(h, items, n - 1, room) {
            Ok(None) => unhashable(h, items[n - 1], room),
            other => other,
        }
    }
}

proof fn settled_hash<T>(h: HeapView<T>, items: Seq<Value>, k: int, n: int, room: nat)
    requires
        0 <= k <= n,
        first_unhashable(h, items, k, room) != Ok::<Option<Type>, ResourceError>(None),
    ensures
        first_unhashable(h, items, n, room) == first_unhashable(h, items, k, room),
    decreases n - k,
{
    if k < n {
        settled_hash(h, items, k, n - 1, room);
    }
}

/// The type that keeps a value from being hashed, if any.
pub fn hash_obstacle<T>(v: Value, heap: &Heap<T>, room: usize) -> (r: Result<
    Option<Type>,
    ResourceError,
>)
    ensures
        r == unhashable(heap@, v, room as nat),
    decreases room,
{
    match v {
        Value::Ref(id) => match heap.get(id) {
            Some(HeapData::List(_)) => Ok(Some(Type::List)),
            Some(HeapData::Dict(_)) => Ok(Some(Type::Dict)),
            Some(HeapData::PySet(_)) => Ok(Some(Type::PySet)),
            Some(HeapData::Tuple(t)) => {
                if room == 0 {
                    return Err(ResourceError::Recursion { limit: MAX_DATA_DEPTH });
                }
                let ghost items = t.items@;
                let mut i: usize = 0;
                while i < t.items.len()
                    invariant
                        items == t.items@,
                        0 <= i <= items.len(),
                        room > 0,
                        unhashable(heap@, v, room as nat) == first_unhashable(
                            heap@,
                            items,
                            items.len() as int,
                            (room - 1) as nat,
                        ),
                        first_unhashable(heap@, items, i as int, (room - 1) as nat) == Ok::<
                            Option<Type>,
                            ResourceError,
                        >(None),
                    decreases items.len() - i,
                {
                    let found: Result<Option<Type>, ResourceError> = hash_obstacle(
                        t.items[i],
                        heap,
                        room - 1,
                    );
                    match found {
                        Ok(None) => {},
                        _ => {
                            proof {
                                settled_hash(
                                    heap@,
                                    items,
                                    i + 1,
                                    items.len() as int,
                                    (room - 1) as nat,
                                );
                            }
                            return found;
                        },
                    }
                    i = i + 1;
                }
                Ok(None)
            },
            _ => Ok(None),
        },
        _ => Ok(None),
    }
}

/// Why a value cannot be looked up among `keys`, or the position at which it is found.
pub open spec fn lookup<T>(
    h: HeapView<T>,
    interns: Interns,
    v: Value,
    keys: Seq<Value>,
) -> Result<Option<int>, ErrorView> {
    match unhashable(h, v, MAX_DATA_DEPTH as nat) {
        Err(e) => Err(ErrorView::resource(e)),
        Ok(Some(t)) => Err(ErrorView::fault(ExcType::TypeError, Fault::Unhashable(t))),
        Ok(None) => match first_equal(
            h,
            interns,
            v,
            keys,
            keys.len() as int,
            MAX_DATA_DEPTH as nat,
        ) {
            Err(e) => Err(ErrorView::resource(e)),
            Ok(found) => Ok(found),
        },
    }
}

/// The heap once a container may have come to refer to itself through a new value.
pub open spec fn noted<T>(h: HeapView<T>, v: Value) -> HeapView<T> {
    if v is Ref {
        h.cycle_marked()
    } else {
        h
    }
}

/// What setting an entry of a dict leads to: the entries, the heap, and the value that was
/// replaced or the error.
pub struct Stored<C, R, T> {
    pub content: C,
    pub heap: HeapView<T>,
    pub result: Result<R, ErrorView>,
}

/// What setting an entry of a dict leads to.
///
/// An existing entry keeps its key. Without an entry the new one comes last. A key that
/// cannot be looked up is given up together with the value.
pub open spec fn dict_set<T>(
    h: HeapView<T>,
    interns: Interns,
    entries: Seq<(Value, Value)>,
    key: Value,
    value: Value,
) -> Stored<Seq<(Value, Value)>, Option<Value>, T> {
    match lookup(h, interns, key, keys_of(entries)) {
        Err(e) => Stored {
            content: entries,
            heap: h.release(key).release(value),
            result: Err(e),
        },
        Ok(Some(k)) => Stored {
            content: entries.update(k, (entries[k].0, value)),
            heap: noted(h.release(key), value),
            result: Ok(Some(entries[k].1)),
        },
        Ok(None) => Stored {
            content: entries.push((key, value)),
            heap: noted(noted(h, key), value),
            result: Ok(None),
        },
    }
}

/// What adding an item to a set leads to; the result says whether the item is new.
pub open spec fn set_add<T>(
    h: HeapView<T>,
    interns: Interns,
    items: Seq<Value>,
    value: Value,
) -> Stored<Seq<Value>, bool, T> {
    match lookup(h, interns, value, items) {
        Err(e) => Stored { content: items, heap: h.release(value), result: Err(e) },
        Ok(Some(_)) => Stored { content: items, heap: h.release(value), result: Ok(false) },
        Ok(None) => Stored {
            content: items.push(value),
            heap: noted(h, value),
            result: Ok(true),
        },
    }
}

fn note<T>(heap: &mut Heap<T>, v: Value)
    ensures
        final(heap)@ == noted(old(heap)@, v),
{
    if let Value::Ref(_) = v {
        heap.mark_potential_cycle();
    }
}

/// Why a value cannot be hashed.
fn hash_check<T>(v: Value, heap: &Heap<T>) -> (r: RunResult<()>)
    ensures
        outcome(r) == (match unhashable(heap@, v, MAX_DATA_DEPTH as nat) {
            Err(e) => Err(ErrorView::resource(e)),
            Ok(Some(t)) => Err(ErrorView::fault(ExcType::TypeError, Fault::Unhashable(t))),
            Ok(None) => Ok(()),
        }),
{
    match hash_obstacle(v, heap, MAX_DATA_DEPTH) {
        Err(e) => Err(RunError::resource(e)),
        Ok(Some(t)) => Err(RunError::type_error(Fault::Unhashable(t))),
        Ok(None) => Ok(()),
    }
}

impl Dict {
    /// Sets an entry; hands out the value it replaces.
    pub fn set<T>(
        &mut self,
        key: Value,
        value: Value,
        heap: &mut Heap<T>,
        interns: &Interns,
    ) -> (r: RunResult<Option<Value>>)
        ensures
            ({
                let said = dict_set(old(heap)@, *interns, old(self).entries@, key, value);
                &&& final(self).entries@ == said.content
                &&& final(heap)@ == said.heap
                &&& outcome(r) == said.result
            }),
    {
        match hash_check(key, heap) {
            Err(e) => {
                key.drop_with_heap(heap);
                value.drop_with_heap(heap);
                return Err(e);
            },
            Ok(()) => {},
        }
        let mut guard: DepthGuard = DepthGuard::default();
        match find_key(&key, self.entries.as_slice(), heap, &mut guard, interns) {
            Err(e) => {
                key.drop_with_heap(heap);
                value.drop_with_heap(heap);
                Err(RunError::resource(e))
            },
            Ok(Some(k)) => {
                let (kept, old_value): (Value, Value) = self.entries[k];
                self.entries[k] = (kept, value);
                key.drop_with_heap(heap);
                note(heap, value);
                Ok(Some(old_value))
            },
            Ok(None) => {
                self.entries.push((key, value));
                note(heap, key);
                note(heap, value);
                Ok(None)
            },
        }
    }
}

/// What making a dict of the first `n` pairs leads to; it ends with the first key that cannot
/// be one. Values that are replaced or not reached stay counted.
pub open spec fn dict_from<T>(
    h: HeapView<T>,
    interns: Interns,
    pairs: Seq<(Value, Value)>,
    n: int,
) -> Stored<Seq<(Value, Value)>, (), T>
    decreases n,
{
    if n <= 0 {
        Stored { content: Seq::empty(), heap: h, result: Ok(()) }
    } else {
        let before = dict_from(h, interns, pairs, n - 1);
        match before.result {
            Err(_) => before,
            Ok(()) => {
                let set = dict_set(
                    before.heap,
                    interns,
                    before.content,
                    pairs[n - 1].0,
                    pairs[n - 1].1,
                );
                Stored {
                    content: set.content,
                    heap: set.heap,
                    result: match set.result {
                        Ok(_) => Ok(()),
                        Err(e) => Err(e),
                    },
                }
            },
        }
    }
}

proof fn settled_dict<T>(
    h: HeapView<T>,
    interns: Interns,
    pairs: Seq<(Value, Value)>,
    k: int,
    n: int,
)
    requires
        0 <= k <= n,
        dict_from(h, interns, pairs, k).result is Err,
    ensures
        dict_from(h, interns, pairs, n) == dict_from(h, interns, pairs, k),
    decreases n - k,
{
    if k < n {
        settled_dict(h, interns, pairs, k, n - 1);
    }
}

impl Dict {
    /// A dict of the given pairs.
    pub fn from_pairs<T>(pairs: &Vec<(Value, Value)>, heap: &mut Heap<T>, interns: &Interns) -> (r:
        RunResult<Dict>)
        ensures
            ({
                let said = dict_from(old(heap)@, *interns, pairs@, pairs@.len() as int);
                &&& final(heap)@ == said.heap
                &&& match (r, said.result) {
                    (Ok(d), Ok(_)) => d.entries@ == said.content,
                    (Err(e), Err(f)) => e@ == f,
                    _ => false,
                }
            }),
    {
        let mut dict: Dict = Dict::new();
        let mut i: usize = 0;
        while i < pairs.len()
            invariant
                0 <= i <= pairs@.len(),
                dict_from(old(heap)@, *interns, pairs@, i as int) == (Stored {
                    content: dict.entries@,
                    heap: heap@,
                    result: Ok::<(), ErrorView>(()),
                }),
            decreases pairs@.len() - i,
        {
            let (key, value): (Value, Value) = pairs[i];
            if let Err(e) = dict.set(key, value, heap, interns) {
                proof {
                    settled_dict(old(heap)@, *interns, pairs@, i + 1, pairs@.len() as int);
                }
                return Err(e);
            }
            i = i + 1;
        }
        Ok(dict)
    }
}

impl PySet {
    /// Adds an item; says whether it is new.
    pub fn add<T>(&mut self, value: Value, heap: &mut Heap<T>, interns: &Interns) -> (r: RunResult<
        bool,
    >)
        ensures
            ({
                let said = set_add(old(heap)@, *interns, old(self).items@, value);
                &&& final(self).items@ == said.content
                &&& final(heap)@ == said.heap
                &&& outcome(r) == said.result
            }),
    {
        match hash_check(value, heap) {
            Err(e) => {
                value.drop_with_heap(heap);
                return Err(e);
            },
            Ok(()) => {},
        }
        let mut guard: DepthGuard = DepthGuard::default();
        match find_equal(&value, self.items.as_slice(), heap, &mut guard, interns) {
            Err(e) => {
                value.drop_with_heap(heap);
                Err(RunError::resource(e))
            },
            Ok(Some(_)) => {
                value.drop_with_heap(heap);
                Ok(false)
            },
            Ok(None) => {
                self.items.push(value);
                note(heap, value);
                Ok(true)
            },
        }
    }
}

/// A key that was set is found again, with the value it was set to.
pub proof fn set_key_is_found<T>(
    h: HeapView<T>,
    interns: Interns,
    entries: Seq<(Value, Value)>,
    key: Value,
    value: Value,
)
    requires
        dict_set(h, interns, entries, key, value).result is Ok,
    ensures
        ({
            let after = dict_set(h, interns, entries, key, value).content;
            let found = lookup(h, interns, key, keys_of(after));
            found matches Ok(Some(k)) && 0 <= k < after.len() && after[k].1 == value
        }),
{
    let room = MAX_DATA_DEPTH as nat;
    let after = dict_set(h, interns, entries, key, value).content;
    let keys = keys_of(entries);
    first_equal_position(h, interns, key, keys, keys.len() as int, room);
    match lookup(h, interns, key, keys) {
        Ok(Some(k)) => {
            assert(keys_of(after) =~= keys);
        },
        Ok(None) => {
            assert(keys_of(after) =~= keys.push(key));
            first_equal_of_longer(h, interns, key, keys, keys.push(key), keys.len() as int, room);
            equal_is_reflexive(h, interns, key, room);
        },
        Err(_) => {},
    }
}

} // verus!
