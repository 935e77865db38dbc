//! Values as the host sees them.

use vstd::prelude::*;
use vstd::set::Set;
use ahash::AHashSet;
use crate::args::{ArgValues, ArgsView, KwargsValues};
use crate::builtins::{Builtins, BuiltinsFunctions};
use crate::containers::{dict_set, Dict};
use crate::error::{ExceptionView, InvalidInputError, Message, MessageView, SimpleException};
use crate::heap::{
    pair_values, pair_values_push, release_values_push, DataView, Heap, HeapData, HeapView,
};
use crate::interns::Interns;
use crate::iteration::{allocate_tuple, Made};
use crate::list::{allocate_list, ListView};
use crate::long_int::LongInt;
use crate::repr::repr;
use crate::resource::{DepthGuard, ResourceTracker, MAX_DATA_DEPTH};
use crate::small_values::SmallValues;
use crate::types::{ExcType, Type};
use crate::value::Value;
use crate::visited::{new_set, set_insert, set_items, set_remove};
use crate::vm::compare::long_made;

verus! {

/// A Python object outside the program.
#[derive(Debug)]
pub enum MontyObject {
    PyNone,
    Ellipsis,
    Bool(bool),
    Int(i64),
    BigInt(LongInt),
    Text(String),
    Bytes(Vec<u8>),
    List(Vec<MontyObject>),
    Tuple(Vec<MontyObject>),
    Dict(Vec<(MontyObject, MontyObject)>),
    Exception(ExcType, Option<String>),
    Type(Type),
    BuiltinFunction(BuiltinsFunctions),
    /// How an object is printed that has no other form outside the program; it cannot go
    /// back in.
    Repr(String),
}

/// What taking an object into the program leads to.
pub struct Imported<R, T> {
    pub heap: HeapView<T>,
    pub result: Result<R, InvalidInputError>,
}

/// What is made on the heap, as an object that is taken in.
pub open spec fn made_import<T>(made: Made<Value, T>) -> Imported<Value, T> {
    Imported {
        heap: made.heap,
        result: match made.result {
            Ok(v) => Ok(v),
            Err(e) => Err(InvalidInputError::Resource(e)),
        },
    }
}

/// The exception an object stands for.
pub open spec fn exception_of(exc_type: ExcType, text: Option<String>) -> ExceptionView {
    ExceptionView {
        exc_type,
        message: match text {
            None => None,
            Some(t) => Some(MessageView::Text(t@)),
        },
    }
}

/// The value of a type.
pub open spec fn type_value(t: Type) -> Value {
    match t {
        Type::Exception(e) => Value::Builtin(Builtins::ExcType(e)),
        _ => Value::Builtin(Builtins::Type(t)),
    }
}

/// What taking an object into the program leads to.
///
/// Items are taken in from left to right; with the first one that cannot be, the whole
/// object is refused.
pub open spec fn imported<T: ResourceTracker>(
    h: HeapView<T>,
    interns: Interns,
    o: MontyObject,
) -> Imported<Value, T>
    decreases o, 0int,
{
    match o {
        MontyObject::PyNone => Imported { heap: h, result: Ok(Value::PyNone) },
        MontyObject::Ellipsis => Imported { heap: h, result: Ok(Value::Ellipsis) },
        MontyObject::Bool(b) => Imported { heap: h, result: Ok(Value::Bool(b)) },
        MontyObject::Int(i) => Imported { heap: h, result: Ok(Value::Int(i)) },
        MontyObject::BigInt(i) => made_import(long_made(h, i@)),
        MontyObject::Text(s) => made_import(h.made(DataView::Str(s@))),
        MontyObject::Bytes(b) => made_import(h.made(DataView::Bytes(b@))),
        MontyObject::Exception(e, text) => made_import(
            h.made(DataView::Exception(exception_of(e, text))),
        ),
        MontyObject::Type(t) => Imported { heap: h, result: Ok(type_value(t)) },
        MontyObject::BuiltinFunction(b) => Imported {
            heap: h,
            result: Ok(Value::Builtin(Builtins::Function(b))),
        },
        MontyObject::Repr(_) => Imported { heap: h, result: Err(InvalidInputError::OutputOnly) },
        MontyObject::List(items) => {
            let got = imported_items(h, interns, items@, items@.len() as int);
            match got.result {
                Err(e) => Imported { heap: got.heap, result: Err(e) },
                Ok(values) => made_import(got.heap.made(DataView::List(ListView::of(values)))),
            }
        },
        MontyObject::Tuple(items) => {
            let got = imported_items(h, interns, items@, items@.len() as int);
            match got.result {
                Err(e) => Imported { heap: got.heap, result: Err(e) },
                Ok(values) => made_import(got.heap.made_tuple(values)),
            }
        },
        MontyObject::Dict(pairs) => {
            let got = imported_pairs(h, interns, pairs@, pairs@.len() as int);
            match got.result {
                Err(e) => Imported { heap: got.heap, result: Err(e) },
                Ok(entries) => made_import(got.heap.made(DataView::Dict(entries))),
            }
        },
    }
}

/// What taking the first `n` objects into the program leads to.
pub open spec fn imported_items<T: ResourceTracker>(
    h: HeapView<T>,
    interns: Interns,
    items: Seq<MontyObject>,
    n: int,
) -> Imported<Seq<Value>, T>
    decreases items, n,
{
    if n <= 0 || n > items.len() {
        Imported { heap: h, result: Ok(Seq::empty()) }
    } else {
        let before = imported_items(h, interns, items, n - 1);
        match before.result {
            Err(_) => before,
            Ok(values) => {
                let one = imported(before.heap, interns, items[n - 1]);
                Imported {
                    heap: one.heap,
                    result: match one.result {
                        Err(e) => Err(e),
                        Ok(v) => Ok(values.push(v)),
                    },
                }
            },
        }
    }
}

/// What taking the first `n` entries into the program leads to; a key that is there already
/// gets the new value, and the old one stays counted.
pub open spec fn imported_pairs<T: ResourceTracker>(
    h: HeapView<T>,
    interns: Interns,
    pairs: Seq<(MontyObject, MontyObject)>,
    n: int,
) -> Imported<Seq<(Value, Value)>, T>
    decreases pairs, n,
{
    if n <= 0 || n > pairs.len() {
        Imported { heap: h, result: Ok(Seq::empty()) }
    } else {
        let before = imported_pairs(h, interns, pairs, n - 1);
        match before.result {
            Err(_) => before,
            Ok(entries) => {
                let key = imported(before.heap, interns, pairs[n - 1].0);
                match key.result {
                    Err(e) => Imported { heap: key.heap, result: Err(e) },
                    Ok(k) => {
                        let value = imported(key.heap, interns, pairs[n - 1].1);
                        match value.result {
                            Err(e) => Imported { heap: value.heap, result: Err(e) },
                            Ok(v) => {
                                let set = dict_set(value.heap, interns, entries, k, v);
                                Imported {
                                    heap: set.heap,
                                    result: match set.result {
                                        Ok(_) => Ok(set.content),
                                        Err(_) => Err(InvalidInputError::DictKey),
                                    },
                                }
                            },
                        }
                    },
                }
            },
        }
    }
}

proof fn settled_items<T: ResourceTracker>(
    h: HeapView<T>,
    interns: Interns,
    items: Seq<MontyObject>,
    k: int,
    n: int,
)
    requires
        0 <= k <= n <= items.len(),
        imported_items(h, interns, items, k).result is Err,
    ensures
        imported_items(h, interns, items, n) == imported_items(h, interns, items, k),
    decreases n - k,
{
    if k < n {
        settled_items(h, interns, items, k, n - 1);
    }
}

/// Each object that is taken in becomes one value.
pub proof fn each_object_becomes_a_value<T: ResourceTracker>(
    h: HeapView<T>,
    interns: Interns,
    items: Seq<MontyObject>,
    n: int,
)
    requires
        0 <= n <= items.len(),
        imported_items(h, interns, items, n).result is Ok,
    ensures
        imported_items(h, interns, items, n).result->Ok_0.len() == n,
    decreases n,
{
    if n > 0 {
        each_object_becomes_a_value(h, interns, items, n - 1);
    }
}

proof fn settled_pairs<T: ResourceTracker>(
    h: HeapView<T>,
    interns: Interns,
    pairs: Seq<(MontyObject, MontyObject)>,
    k: int,
    n: int,
)
    requires
        0 <= k <= n <= pairs.len(),
        imported_pairs(h, interns, pairs, k).result is Err,
    ensures
        imported_pairs(h, interns, pairs, n) == imported_pairs(h, interns, pairs, k),
    decreases n - k,
{
    if k < n {
        settled_pairs(h, interns, pairs, k, n - 1);
    }
}

/// Values of the program for objects, in order.
pub fn import_items<T: ResourceTracker>(
    items: &Vec<MontyObject>,
    heap: &mut Heap<T>,
    interns: &Interns,
) -> (r: Result<Vec<Value>, InvalidInputError>)
    ensures
        ({
            let said = imported_items(old(heap)@, *interns, items@, items@.len() as int);
            &&& final(heap)@ == said.heap
            &&& match (r, said.result) {
                (Ok(v), Ok(s)) => v@ == s,
                (Err(e), Err(f)) => e == f,
                _ => false,
            }
        }),
    decreases items@, items@.len(),
{
    let ghost start = heap@;
    let mut values: Vec<Value> = Vec::new();
    let mut i: usize = 0;
    while i < items.len()
        invariant
            0 <= i <= items@.len(),
            start == old(heap)@,
            imported_items(start, *interns, items@, i as int) == (Imported {
                heap: heap@,
                result: Ok(values@),
            }),
        decreases items@.len() - i,
    {
        match items[i].import(heap, interns) {
            Err(e) => {
                proof {
                    assert(imported_items(start, *interns, items@, i + 1).result is Err);
                    settled_items(start, *interns, items@, i + 1, items@.len() as int);
                }
                return Err(e);
            },
            Ok(v) => {
                values.push(v);
                i = i + 1;
            },
        }
    }
    Ok(values)
}

fn import_pairs<T: ResourceTracker>(
    pairs: &Vec<(MontyObject, MontyObject)>,
    heap: &mut Heap<T>,
    interns: &Interns,
) -> (r: Result<Dict, InvalidInputError>)
    ensures
        ({
            let said = imported_pairs(old(heap)@, *interns, pairs@, pairs@.len() as int);
            &&& final(heap)@ == said.heap
            &&& match (r, said.result) {
                (Ok(d), Ok(s)) => d.entries@ == s,
                (Err(e), Err(f)) => e == f,
                _ => false,
            }
        }),
    decreases pairs@, pairs@.len(),
{
    let ghost start = heap@;
    let mut dict: Dict = Dict::new();
    let mut i: usize = 0;
    while i < pairs.len()
        invariant
            0 <= i <= pairs@.len(),
            start == old(heap)@,
            imported_pairs(start, *interns, pairs@, i as int) == (Imported {
                heap: heap@,
                result: Ok(dict.entries@),
            }),
        decreases pairs@.len() - i,
    {
        assert(decreases_to!(pairs@ => pairs@[i as int]));
        assert(decreases_to!(pairs@[i as int] => pairs@[i as int].0));
        assert(decreases_to!(pairs@[i as int] => pairs@[i as int].1));
        let step: Result<(), InvalidInputError> = match pairs[i].0.import(heap, interns) {
            Err(e) => Err(e),
            Ok(k) => match pairs[i].1.import(heap, interns) {
                Err(e) => Err(e),
                Ok(v) => match dict.set(k, v, heap, interns) {
                    Err(_) => Err(InvalidInputError::DictKey),
                    Ok(_) => Ok(()),
                },
            },
        };
        if let Err(e) = step {
            proof {
                assert(imported_pairs(start, *interns, pairs@, i + 1).result is Err);
                settled_pairs(start, *interns, pairs@, i + 1, pairs@.len() as int);
            }
            return Err(e);
        }
        i = i + 1;
    }
    Ok(dict)
}

/// Allocates an object that is taken in.
fn import_data<T: ResourceTracker>(data: HeapData, heap: &mut Heap<T>) -> (r: Result<
    Value,
    InvalidInputError,
>)
    ensures
        ({
            let said = made_import(old(heap)@.made(data@));
            r == said.result && final(heap)@ == said.heap
        }),
{
    match heap.allocate(data) {
        Ok(id) => Ok(Value::Ref(id)),
        Err(e) => Err(InvalidInputError::Resource(e)),
    }
}

impl MontyObject {
    /// A value of the program for the object.
    fn import<T: ResourceTracker>(&self, heap: &mut Heap<T>, interns: &Interns) -> (r: Result<
        Value,
        InvalidInputError,
    >)
        ensures
            ({
                let said = imported(old(heap)@, *interns, *self);
                r == said.result && final(heap)@ == said.heap
            }),
        decreases self, 0int,
    {
        match self {
            MontyObject::PyNone => Ok(Value::PyNone),
            MontyObject::Ellipsis => Ok(Value::Ellipsis),
            MontyObject::Bool(b) => Ok(Value::Bool(*b)),
            MontyObject::Int(i) => Ok(Value::Int(*i)),
            MontyObject::BigInt(i) => match i.duplicate().into_value(heap) {
                Ok(v) => Ok(v),
                Err(e) => Err(InvalidInputError::Resource(e)),
            },
            MontyObject::Text(s) => import_data(HeapData::Str(s.clone()), heap),
            MontyObject::Bytes(b) => {
                let copy: Vec<u8> = b.clone();
                assert(copy@ =~= b@);
                import_data(HeapData::Bytes(copy), heap)
            },
            MontyObject::Exception(e, text) => {
                let message: Option<Message> = match text {
                    None => None,
                    Some(t) => Some(Message::Text(t.clone())),
                };
                import_data(
                    HeapData::Exception(SimpleException { exc_type: *e, message }),
                    heap,
                )
            },
            MontyObject::Type(t) => match *t {
                Type::Exception(e) => Ok(Value::Builtin(Builtins::ExcType(e))),
                _ => Ok(Value::Builtin(Builtins::Type(*t))),
            },
            MontyObject::BuiltinFunction(b) => Ok(Value::Builtin(Builtins::Function(*b))),
            MontyObject::Repr(_) => Err(InvalidInputError::OutputOnly),
            MontyObject::List(items) => match import_items(items, heap, interns) {
                Err(e) => Err(e),
                Ok(values) => match allocate_list(values, heap) {
                    Ok(v) => Ok(v),
                    Err(e) => Err(InvalidInputError::Resource(e)),
                },
            },
            MontyObject::Tuple(items) => match import_items(items, heap, interns) {
                Err(e) => Err(e),
                Ok(values) => match allocate_tuple(SmallValues::from_vec(values), heap) {
                    Ok(v) => Ok(v),
                    Err(e) => Err(InvalidInputError::Resource(e)),
                },
            },
            MontyObject::Dict(pairs) => match import_pairs(pairs, heap, interns) {
                Err(e) => Err(e),
                Ok(dict) => import_data(HeapData::Dict(dict), heap),
            },
        }
    }

    /// A value of the program for the object.
    pub fn to_value<T: ResourceTracker>(self, heap: &mut Heap<T>, interns: &Interns) -> (r: Result<
        Value,
        InvalidInputError,
    >)
        ensures
            ({
                let said = imported(old(heap)@, *interns, self);
                r == said.result && final(heap)@ == said.heap
            }),
    {
        self.import(heap, interns)
    }
}

/// Whether an object is how the host sees a value.
///
/// `seen` are the containers around the value and `room` is how many levels of nesting are
/// still looked at; a container that is met again, or too deep, is printed in brief. Values
/// without a form of their own are printed.
pub open spec fn exported<T>(
    h: HeapView<T>,
    interns: Interns,
    v: Value,
    seen: Set<usize>,
    room: nat,
    o: MontyObject,
) -> bool
    decreases room,
{
    match v {
        Value::PyNone => o is PyNone,
        Value::Ellipsis => o is Ellipsis,
        Value::Bool(b) => o == MontyObject::Bool(b),
        Value::Int(i) => o == MontyObject::Int(i),
        Value::InternString(id) => o matches MontyObject::Text(t) && t@ == interns.text(id),
        Value::InternBytes(id) => o matches MontyObject::Bytes(b) && b@ == interns.bytes_text(id),
        Value::InternLongInt(id) => o matches MontyObject::BigInt(i) && i@ == interns.long_int(id),
        Value::Builtin(Builtins::Function(b)) => o == MontyObject::BuiltinFunction(b),
        Value::Builtin(Builtins::ExcType(e)) => o == MontyObject::Type(Type::Exception(e)),
        Value::Builtin(Builtins::Type(t)) => o == MontyObject::Type(t),
        Value::Ref(id) => match h.data(id) {
            Some(DataView::Str(s)) => o matches MontyObject::Text(t) && t@ == s,
            Some(DataView::Bytes(s)) => o matches MontyObject::Bytes(b) && b@ == s,
            Some(DataView::LongInt(n)) => o matches MontyObject::BigInt(i) && i@ == n,
            Some(DataView::Exception(e)) => o matches MontyObject::Exception(class, text)
                && class == e.exc_type && (match (text, e.message) {
                (None, None) => true,
                (Some(t), Some(m)) => t@ == m.text(interns),
                _ => false,
            }),
            Some(DataView::List(l)) => if seen.contains(id.0) || room == 0 {
                is_repr(h, interns, v, seen, room, o)
            } else {
                &&& o matches MontyObject::List(items)
                &&& items@.len() == l.items.len()
                &&& forall|i: int|
                    0 <= i < l.items.len() ==> exported(
                        h,
                        interns,
                        #[trigger] l.items[i],
                        seen.insert(id.0),
                        (room - 1) as nat,
                        items@[i],
                    )
            },
            Some(DataView::Tuple(values)) => if seen.contains(id.0) || room == 0 {
                is_repr(h, interns, v, seen, room, o)
            } else {
                &&& o matches MontyObject::Tuple(items)
                &&& items@.len() == values.len()
                &&& forall|i: int|
                    0 <= i < values.len() ==> exported(
                        h,
                        interns,
                        #[trigger] values[i],
                        seen.insert(id.0),
                        (room - 1) as nat,
                        items@[i],
                    )
            },
            Some(DataView::Dict(entries)) => if seen.contains(id.0) || room == 0 {
                is_repr(h, interns, v, seen, room, o)
            } else {
                &&& o matches MontyObject::Dict(pairs)
                &&& pairs@.len() == entries.len()
                &&& forall|i: int|
                    0 <= i < entries.len() ==> exported(
                        h,
                        interns,
                        (#[trigger] entries[i]).0,
                        seen.insert(id.0),
                        (room - 1) as nat,
                        pairs@[i].0,
                    ) && exported(
                        h,
                        interns,
                        entries[i].1,
                        seen.insert(id.0),
                        (room - 1) as nat,
                        pairs@[i].1,
                    )
            },
            _ => is_repr(h, interns, v, seen, room, o),
        },
        _ => is_repr(h, interns, v, seen, room, o),
    }
}

/// Whether an object is the printed form of a value.
pub open spec fn is_repr<T>(
    h: HeapView<T>,
    interns: Interns,
    v: Value,
    seen: Set<usize>,
    room: nat,
    o: MontyObject,
) -> bool {
    o matches MontyObject::Repr(t) && t@ == repr(h, interns, v, seen, room)
}

fn print_object<T>(
    v: &Value,
    heap: &Heap<T>,
    seen: &mut AHashSet<usize>,
    guard: &mut DepthGuard,
    interns: &Interns,
) -> (r: MontyObject)
    ensures
        is_repr(heap@, *interns, *v, set_items(*old(seen)), old(guard).room(), r),
        set_items(*final(seen)) == set_items(*old(seen)),
        *final(guard) == *old(guard),
{
    let mut text: String = "".to_owned();
    proof {
        reveal_strlit("");
    }
    v.py_repr_fmt(&mut text, heap, seen, guard, interns);
    assert(text@ =~= repr(heap@, *interns, *v, set_items(*old(seen)), old(guard).room()));
    MontyObject::Repr(text)
}

fn export_items<T>(
    values: &[Value],
    heap: &Heap<T>,
    seen: &mut AHashSet<usize>,
    guard: &mut DepthGuard,
    interns: &Interns,
) -> (r: Vec<MontyObject>)
    ensures
        r@.len() == values@.len(),
        forall|i: int|
            0 <= i < values@.len() ==> exported(
                heap@,
                *interns,
                #[trigger] values@[i],
                set_items(*old(seen)),
                old(guard).room(),
                r@[i],
            ),
        set_items(*final(seen)) == set_items(*old(seen)),
        *final(guard) == *old(guard),
    decreases old(guard).room(), 1int,
{
    let mut items: Vec<MontyObject> = Vec::new();
    let mut i: usize = 0;
    while i < values.len()
        invariant
            0 <= i <= values@.len(),
            items@.len() == i,
            forall|k: int|
                0 <= k < i ==> exported(
                    heap@,
                    *interns,
                    #[trigger] values@[k],
                    set_items(*old(seen)),
                    old(guard).room(),
                    items@[k],
                ),
            set_items(*seen) == set_items(*old(seen)),
            *guard == *old(guard),
        decreases values@.len() - i,
    {
        let item: MontyObject = export(&values[i], heap, seen, guard, interns);
        items.push(item);
        i = i + 1;
    }
    items
}

fn export_pairs<T>(
    entries: &Vec<(Value, Value)>,
    heap: &Heap<T>,
    seen: &mut AHashSet<usize>,
    guard: &mut DepthGuard,
    interns: &Interns,
) -> (r: Vec<(MontyObject, MontyObject)>)
    ensures
        r@.len() == entries@.len(),
        forall|i: int|
            0 <= i < entries@.len() ==> exported(
                heap@,
                *interns,
                (#[trigger] entries@[i]).0,
                set_items(*old(seen)),
                old(guard).room(),
                r@[i].0,
            ) && exported(
                heap@,
                *interns,
                entries@[i].1,
                set_items(*old(seen)),
                old(guard).room(),
                r@[i].1,
            ),
        set_items(*final(seen)) == set_items(*old(seen)),
        *final(guard) == *old(guard),
    decreases old(guard).room(), 1int,
{
    let mut pairs: Vec<(MontyObject, MontyObject)> = Vec::new();
    let mut i: usize = 0;
    while i < entries.len()
        invariant
            0 <= i <= entries@.len(),
            pairs@.len() == i,
            forall|k: int|
                0 <= k < i ==> exported(
                    heap@,
                    *interns,
                    (#[trigger] entries@[k]).0,
                    set_items(*old(seen)),
                    old(guard).room(),
                    pairs@[k].0,
                ) && exported(
                    heap@,
                    *interns,
                    entries@[k].1,
                    set_items(*old(seen)),
                    old(guard).room(),
                    pairs@[k].1,
                ),
            set_items(*seen) == set_items(*old(seen)),
            *guard == *old(guard),
        decreases entries@.len() - i,
    {
        let (k, v): (Value, Value) = entries[i];
        let key: MontyObject = export(&k, heap, seen, guard, interns);
        let value: MontyObject = export(&v, heap, seen, guard, interns);
        pairs.push((key, value));
        i = i + 1;
    }
    pairs
}

fn export<T>(
    v: &Value,
    heap: &Heap<T>,
    seen: &mut AHashSet<usize>,
    guard: &mut DepthGuard,
    interns: &Interns,
) -> (r: MontyObject)
    ensures
        exported(heap@, *interns, *v, set_items(*old(seen)), old(guard).room(), r),
        set_items(*final(seen)) == set_items(*old(seen)),
        *final(guard) == *old(guard),
    decreases old(guard).room(), 0int,
{
    match *v {
        Value::PyNone => MontyObject::PyNone,
        Value::Ellipsis => MontyObject::Ellipsis,
        Value::Bool(b) => MontyObject::Bool(b),
        Value::Int(i) => MontyObject::Int(i),
        Value::InternString(id) => MontyObject::Text(interns.get_str(id).to_owned()),
        Value::InternBytes(id) => MontyObject::Bytes(interns.get_bytes(id)),
        Value::InternLongInt(id) => MontyObject::BigInt(interns.get_long_int(id)),
        Value::Builtin(b) => match b {
            Builtins::Function(f) => MontyObject::BuiltinFunction(f),
            Builtins::ExcType(e) => MontyObject::Type(Type::Exception(e)),
            Builtins::Type(t) => MontyObject::Type(t),
        },
        Value::Ref(id) => {
            match heap.get(id) {
                Some(HeapData::Str(s)) => MontyObject::Text(s.clone()),
                Some(HeapData::Bytes(b)) => {
                    let copy: Vec<u8> = b.clone();
                    assert(copy@ =~= b@);
                    MontyObject::Bytes(copy)
                },
                Some(HeapData::LongInt(i)) => MontyObject::BigInt(i.duplicate()),
                Some(HeapData::Exception(e)) => {
                    let text: Option<String> = match &e.message {
                        None => None,
                        Some(m) => Some(m.to_text(interns)),
                    };
                    MontyObject::Exception(e.exc_type, text)
                },
                Some(HeapData::List(l)) => {
                    if guard.depth < MAX_DATA_DEPTH && set_insert(seen, id.0) {
                        guard.depth = guard.depth + 1;
                        let items: Vec<MontyObject> = export_items(l.as_slice(), heap, seen, guard, interns);
                        guard.depth = guard.depth - 1;
                        set_remove(seen, id.0);
                        MontyObject::List(items)
                    } else {
                        print_object(v, heap, seen, guard, interns)
                    }
                },
                Some(HeapData::Tuple(t)) => {
                    if guard.depth < MAX_DATA_DEPTH && set_insert(seen, id.0) {
                        guard.depth = guard.depth + 1;
                        let items: Vec<MontyObject> = export_items(t.as_slice(), heap, seen, guard, interns);
                        guard.depth = guard.depth - 1;
                        set_remove(seen, id.0);
                        MontyObject::Tuple(items)
                    } else {
                        print_object(v, heap, seen, guard, interns)
                    }
                },
                Some(HeapData::Dict(d)) => {
                    if guard.depth < MAX_DATA_DEPTH && set_insert(seen, id.0) {
                        guard.depth = guard.depth + 1;
                        let pairs: Vec<(MontyObject, MontyObject)> = export_pairs(
                            &d.entries,
                            heap,
                            seen,
                            guard,
                            interns,
                        );
                        guard.depth = guard.depth - 1;
                        set_remove(seen, id.0);
                        MontyObject::Dict(pairs)
                    } else {
                        print_object(v, heap, seen, guard, interns)
                    }
                },
                _ => print_object(v, heap, seen, guard, interns),
            }
        },
        _ => print_object(v, heap, seen, guard, interns),
    }
}

impl MontyObject {
    /// How the host sees a value, which is given up.
    pub fn new<T>(value: Value, heap: &mut Heap<T>, interns: &Interns) -> (r: Self)
        ensures
            exported(old(heap)@, *interns, value, Set::empty(), MAX_DATA_DEPTH as nat, r),
            final(heap)@ == old(heap)@.release(value),
    {
        let mut seen: AHashSet<usize> = new_set();
        let mut guard: DepthGuard = DepthGuard::default();
        let object: MontyObject = export(&value, heap, &mut seen, &mut guard, interns);
        value.drop_with_heap(heap);
        object
    }
}

/// Whether objects are how the host sees values that are given up one after the other.
pub open spec fn all_exported<T>(
    h: HeapView<T>,
    interns: Interns,
    values: Seq<Value>,
    objects: Seq<MontyObject>,
) -> bool {
    &&& objects.len() == values.len()
    &&& forall|i: int|
        0 <= i < values.len() ==> exported(
            h.release_values(values.take(i)),
            interns,
            #[trigger] values[i],
            Set::empty(),
            MAX_DATA_DEPTH as nat,
            objects[i],
        )
}

/// Whether objects are how the host sees names and values that are given up one after the
/// other.
pub open spec fn pairs_exported<T>(
    h: HeapView<T>,
    interns: Interns,
    pairs: Seq<(Value, Value)>,
    objects: Seq<(MontyObject, MontyObject)>,
) -> bool {
    &&& objects.len() == pairs.len()
    &&& forall|i: int|
        0 <= i < pairs.len() ==> exported(
            h.release_pairs(pairs.take(i)),
            interns,
            (#[trigger] pairs[i]).0,
            Set::empty(),
            MAX_DATA_DEPTH as nat,
            objects[i].0,
        ) && exported(
            h.release_pairs(pairs.take(i)).release(pairs[i].0),
            interns,
            pairs[i].1,
            Set::empty(),
            MAX_DATA_DEPTH as nat,
            objects[i].1,
        )
}

/// Whether objects are how the host sees the arguments of a call.
pub open spec fn args_exported<T>(
    h: HeapView<T>,
    interns: Interns,
    args: ArgsView,
    pos: Seq<MontyObject>,
    kwargs: Seq<(MontyObject, MontyObject)>,
) -> bool {
    &&& all_exported(h, interns, args.pos, pos)
    &&& pairs_exported(h.release_values(args.pos), interns, args.pairs, kwargs)
}

impl ArgValues {
    /// How the host sees the arguments, which are given up.
    pub fn into_py_objects<T>(self, heap: &mut Heap<T>, interns: &Interns) -> (r: (
        Vec<MontyObject>,
        Vec<(MontyObject, MontyObject)>,
    ))
        ensures
            args_exported(old(heap)@, *interns, self@, r.0@, r.1@),
            final(heap)@ == old(heap)@.release_args(self@),
    {
        let ghost start = heap@;
        let ghost said = self@;
        let (pos, kwargs): (Vec<Value>, KwargsValues) = self.into_parts();
        let pairs: Vec<(Value, Value)> = kwargs.into_pairs();
        let mut objects: Vec<MontyObject> = Vec::new();
        let mut i: usize = 0;
        assert(pos@.take(0) =~= Seq::empty());
        while i < pos.len()
            invariant
                0 <= i <= pos@.len(),
                objects@.len() == i,
                heap@ == start.release_values(pos@.take(i as int)),
                forall|k: int|
                    0 <= k < i ==> exported(
                        start.release_values(pos@.take(k)),
                        *interns,
                        #[trigger] pos@[k],
                        Set::empty(),
                        MAX_DATA_DEPTH as nat,
                        objects@[k],
                    ),
            decreases pos@.len() - i,
        {
            let object: MontyObject = MontyObject::new(pos[i], heap, interns);
            objects.push(object);
            proof {
                release_values_push(start, pos@.take(i as int), pos@[i as int]);
                assert(pos@.take(i + 1) =~= pos@.take(i as int).push(pos@[i as int]));
            }
            i = i + 1;
        }
        assert(pos@.take(i as int) =~= pos@);
        let ghost middle = heap@;
        let mut named: Vec<(MontyObject, MontyObject)> = Vec::new();
        let mut k: usize = 0;
        assert(pairs@.take(0) =~= Seq::empty());
        while k < pairs.len()
            invariant
                0 <= k <= pairs@.len(),
                named@.len() == k,
                heap@ == middle.release_pairs(pairs@.take(k as int)),
                forall|j: int|
                    0 <= j < k ==> exported(
                        middle.release_pairs(pairs@.take(j)),
                        *interns,
                        (#[trigger] pairs@[j]).0,
                        Set::empty(),
                        MAX_DATA_DEPTH as nat,
                        named@[j].0,
                    ) && exported(
                        middle.release_pairs(pairs@.take(j)).release(pairs@[j].0),
                        *interns,
                        pairs@[j].1,
                        Set::empty(),
                        MAX_DATA_DEPTH as nat,
                        named@[j].1,
                    ),
            decreases pairs@.len() - k,
        {
            let (name, value): (Value, Value) = pairs[k];
            let name_object: MontyObject = MontyObject::new(name, heap, interns);
            let value_object: MontyObject = MontyObject::new(value, heap, interns);
            named.push((name_object, value_object));
            proof {
                let flat = pair_values(pairs@.take(k as int));
                release_values_push(middle, flat, name);
                release_values_push(middle, flat.push(name), value);
                pair_values_push(pairs@.take(k as int), (name, value));
                assert(pairs@.take(k + 1) =~= pairs@.take(k as int).push((name, value)));
            }
            k = k + 1;
        }
        assert(pairs@.take(k as int) =~= pairs@);
        (objects, named)
    }
}

} // verus!
