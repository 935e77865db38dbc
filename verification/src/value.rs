//! Python values.

use vstd::prelude::*;
use crate::builtins::Builtins;
use crate::ids::{
    BytesId, CallId, ExtFunctionId, FunctionId, HeapId, LongIntId, ModuleFunctionId, StringId,
};

verus! {

/// A Python value: an immediate, or a counted reference to an object on the heap.
///
/// Copying a `Value` copies the reference without counting it; whoever keeps the copy
/// has to count it on the heap.
#[derive(Debug, Clone, Copy, PartialEq, Eq, Structural)]
pub enum Value {
    /// A variable that has not been assigned yet.
    Undefined,
    Ellipsis,
    PyNone,
    Bool(bool),
    Int(i64),
    InternString(StringId),
    InternBytes(BytesId),
    InternLongInt(LongIntId),
    Builtin(Builtins),
    ModuleFunction(ModuleFunctionId),
    DefFunction(FunctionId),
    ExtFunction(ExtFunctionId),
    ExternalFuture(CallId),
    Ref(HeapId),
}

impl Value {
    /// The object the value refers to.
    pub open spec fn target(self) -> Option<HeapId> {
        match self {
            Value::Ref(id) => Some(id),
            _ => None,
        }
    }

    /// The object the value refers to.
    pub fn ref_id(&self) -> (r: Option<HeapId>)
        ensures
            r == self.target(),
    {
        match self {
            Value::Ref(id) => Some(*id),
            _ => None,
        }
    }

    /// A copy that is not counted on the heap.
    pub fn copy_for_extend(&self) -> (r: Value)
        ensures
            r == *self,
    {
        *self
    }
}

/// The objects a sequence of values refers to, in order.
pub open spec fn refs_of(values: Seq<Value>) -> Seq<HeapId>
    decreases values.len(),
{
    if values.len() == 0 {
        Seq::empty()
    } else {
        let before = refs_of(values.drop_last());
        match values.last() {
            Value::Ref(id) => before.push(id),
            _ => before,
        }
    }
}

/// Whether any of the values refers to the heap.
pub open spec fn has_refs(values: Seq<Value>) -> bool {
    exists|i: int| 0 <= i < values.len() && (#[trigger] values[i]) is Ref
}

/// Values without references contribute no objects.
pub proof fn no_refs_no_targets(values: Seq<Value>)
    requires
        !has_refs(values),
    ensures
        refs_of(values) == Seq::<HeapId>::empty(),
    decreases values.len(),
{
    if values.len() > 0 {
        let before = values.drop_last();
        assert(!has_refs(before)) by {
            assert forall|i: int| 0 <= i < before.len() implies !((#[trigger] before[i]) is Ref) by {
                assert(before[i] == values[i]);
            }
        }
        no_refs_no_targets(before);
        assert(!(values[values.len() - 1] is Ref));
    }
}

/// The targets of a longer sequence are those of its parts.
pub proof fn refs_of_push(values: Seq<Value>, v: Value)
    ensures
        refs_of(values.push(v)) == (match v {
            Value::Ref(id) => refs_of(values).push(id),
            _ => refs_of(values),
        }),
{
    assert(values.push(v).drop_last() =~= values);
}

/// Whether any of the values refers to the heap.
pub fn any_ref(values: &[Value]) -> (r: bool)
    ensures
        r == has_refs(values@),
{
    let mut i: usize = 0;
    while i < values.len()
        invariant
            0 <= i <= values@.len(),
            forall|j: int| 0 <= j < i ==> !((#[trigger] values@[j]) is Ref),
        decreases values@.len() - i,
    {
        if let Value::Ref(_) = values[i] {
            return true;
        }
        i = i + 1;
    }
    false
}

/// Appends the objects the values refer to.
pub fn push_refs(values: &[Value], ids: &mut Vec<HeapId>)
    ensures
        final(ids)@ == old(ids)@ + refs_of(values@),
{
    let mut i: usize = 0;
    let ghost start = ids@;
    assert(ids@ =~= start + refs_of(values@.take(0)));
    while i < values.len()
        invariant
            0 <= i <= values@.len(),
            ids@ == start + refs_of(values@.take(i as int)),
        decreases values@.len() - i,
    {
        let v: Value = values[i];
        proof {
            assert(values@.take(i + 1) =~= values@.take(i as int).push(v));
            refs_of_push(values@.take(i as int), v);
        }
        if let Value::Ref(id) = v {
            ids.push(id);
            assert(ids@ =~= start + refs_of(values@.take(i + 1)));
        }
        i = i + 1;
    }
    assert(values@.take(i as int) =~= values@);
}

/// A copy of the values that is not counted on the heap.
pub fn copy_values(values: &[Value]) -> (r: Vec<Value>)
    ensures
        r@ == values@,
{
    let mut out: Vec<Value> = Vec::new();
    let mut i: usize = 0;
    while i < values.len()
        invariant
            0 <= i <= values@.len(),
            out@ == values@.take(i as int),
        decreases values@.len() - i,
    {
        out.push(values[i]);
        assert(out@ =~= values@.take(i + 1));
        i = i + 1;
    }
    assert(out@ =~= values@);
    out
}

} // verus!
