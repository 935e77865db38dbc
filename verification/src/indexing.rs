//! Integers taken from values, and positions in sequences.

use vstd::prelude::*;
use crate::error::{outcome, ErrorView, Fault, RunError, RunResult};
use crate::heap::{DataView, Heap, HeapData, HeapView};
use crate::long_int::fits_i64;
use crate::types::ExcType;
use crate::value::Value;

verus! {

/// What a value is as an integer.
pub enum IntReading {
    /// This integer.
    Fits(i64),
    /// An integer, but too large for an `i64`.
    TooLarge,
    /// No integer at all.
    NotInt,
}

/// What a value is as an integer; booleans count as 0 and 1.
///
/// Integer literals that are kept aside because of their size count as too large.
pub open spec fn int_reading<T>(h: HeapView<T>, v: Value) -> IntReading {
    match v {
        Value::Int(i) => IntReading::Fits(i),
        Value::Bool(b) => IntReading::Fits(
            if b {
                1
            } else {
                0
            },
        ),
        Value::InternLongInt(_) => IntReading::TooLarge,
        Value::Ref(id) => match h.data(id) {
            Some(DataView::LongInt(i)) => if fits_i64(i) {
                IntReading::Fits(i as i64)
            } else {
                IntReading::TooLarge
            },
            _ => IntReading::NotInt,
        },
        _ => IntReading::NotInt,
    }
}

/// A value as an index, or why it cannot be one.
pub open spec fn as_index<T>(h: HeapView<T>, v: Value) -> Result<i64, ErrorView> {
    match int_reading(h, v) {
        IntReading::Fits(i) => Ok(i),
        IntReading::TooLarge => Err(ErrorView::fault(ExcType::IndexError, Fault::IndexTooLarge)),
        IntReading::NotInt => Err(
            ErrorView::fault(ExcType::TypeError, Fault::ListIndices(h.type_of(v))),
        ),
    }
}

/// A value as an integer argument, or why it cannot be one.
pub open spec fn as_int<T>(h: HeapView<T>, v: Value) -> Result<i64, ErrorView> {
    match int_reading(h, v) {
        IntReading::Fits(i) => Ok(i),
        IntReading::TooLarge => Err(ErrorView::fault(ExcType::OverflowError, Fault::IntTooLarge)),
        IntReading::NotInt => Err(
            ErrorView::fault(ExcType::TypeError, Fault::NotAnInteger(h.type_of(v))),
        ),
    }
}

/// The position an index stands for; a negative index counts from the end.
pub open spec fn position(index: i64, len: int) -> Option<int> {
    if 0 <= index < len {
        Some(index as int)
    } else if -len <= index < 0 {
        Some(index + len)
    } else {
        None
    }
}

/// The position an index stands for.
pub fn find_position(index: i64, len: usize) -> (r: Option<usize>)
    ensures
        r is Some <==> position(index, len as int) is Some,
        r matches Some(p) ==> position(index, len as int) == Some(p as int) && p < len,
{
    let n: i128 = len as i128;
    let p: i128 = if index < 0 {
        index as i128 + n
    } else {
        index as i128
    };
    if p < 0 || p >= n {
        None
    } else {
        Some(p as usize)
    }
}

impl Value {
    fn read_int<T>(&self, heap: &Heap<T>) -> (r: IntReading)
        ensures
            r == int_reading(heap@, *self),
    {
        match *self {
            Value::Int(i) => IntReading::Fits(i),
            Value::Bool(b) => IntReading::Fits(
                if b {
                    1
                } else {
                    0
                },
            ),
            Value::InternLongInt(_) => IntReading::TooLarge,
            Value::Ref(id) => match heap.get(id) {
                Some(HeapData::LongInt(l)) => match l.to_i64() {
                    Some(i) => IntReading::Fits(i),
                    None => IntReading::TooLarge,
                },
                _ => IntReading::NotInt,
            },
            _ => IntReading::NotInt,
        }
    }

    /// The value as an index.
    pub fn as_index<T>(&self, heap: &Heap<T>) -> (r: RunResult<i64>)
        ensures
            outcome(r) == as_index(heap@, *self),
    {
        match self.read_int(heap) {
            IntReading::Fits(i) => Ok(i),
            IntReading::TooLarge => Err(RunError::fault(ExcType::IndexError, Fault::IndexTooLarge)),
            IntReading::NotInt => Err(RunError::type_error(Fault::ListIndices(self.py_type(heap)))),
        }
    }

    /// The value as an integer argument.
    pub fn as_int<T>(&self, heap: &Heap<T>) -> (r: RunResult<i64>)
        ensures
            outcome(r) == as_int(heap@, *self),
    {
        match self.read_int(heap) {
            IntReading::Fits(i) => Ok(i),
            IntReading::TooLarge => Err(RunError::fault(ExcType::OverflowError, Fault::IntTooLarge)),
            IntReading::NotInt => Err(RunError::type_error(Fault::NotAnInteger(self.py_type(heap)))),
        }
    }
}

} // verus!
