//! What the contents of values are, and what it means that something was carried out.

use vstd::prelude::*;
use crate::args::{ArgValues, KwargsValues};
use crate::asyncio::{Coroutine, GatherFuture};
use crate::equality::position_matches;
use crate::error::{ErrorView, RunError, RunResult};
use crate::heap::{DataView, Heap, HeapData, HeapView};
use crate::ids::{HeapId, StringId};
use crate::iteration::{collection_matches, source_matches, values_match, Produced, Source};
use crate::list::{List, ListOp, ListView};
use crate::list_methods::op_matches;
use crate::resource::ResourceError;
use crate::value::Value;
use crate::vm::async_exec::{await_matches, AwaitResult, AwaitView};
use crate::vm::call_result::{call_outcome, CallResult, CallResultView};
use crate::vm::{VmStep, VmView, VM};

verus! {

/// Arguments are in the order in which they are passed, whatever their shape.
pub proof fn arguments_are_what_is_passed(
    a: Value,
    b: Value,
    args: Vec<Value>,
    named: Vec<(StringId, Value)>,
    i: int,
)
    ensures
        ArgValues::Empty@.pos.len() == 0 && ArgValues::Empty@.pairs.len() == 0,
        ArgValues::One(a)@.pos.len() == 1 && ArgValues::One(a)@.pos[0] == a,
        ArgValues::One(a)@.pairs.len() == 0,
        ArgValues::Two(a, b)@.pos.len() == 2 && ArgValues::Two(a, b)@.pos[0] == a
            && ArgValues::Two(a, b)@.pos[1] == b,
        ArgValues::Two(a, b)@.pairs.len() == 0,
        (ArgValues::ArgsKargs { args, kwargs: KwargsValues::Inline(named) })@.pos == args@,
        (ArgValues::ArgsKargs { args, kwargs: KwargsValues::Empty })@.pairs.len() == 0,
        ArgValues::Kwargs(KwargsValues::Inline(named))@.pos.len() == 0,
        KwargsValues::Inline(named)@.len() == named@.len(),
        0 <= i < named@.len() ==> KwargsValues::Inline(named)@[i] == (
            Value::InternString(named@[i].0),
            named@[i].1,
        ),
        ArgValues::Kwargs(KwargsValues::Inline(named))@.pairs == KwargsValues::Inline(named)@,
{
}

/// The content of an object on the heap is what it holds, in its order.
pub proof fn objects_are_what_they_hold<T>(heap: Heap<T>, id: HeapId)
    requires
        id.0 < heap.entries@.len(),
        heap.entries@[id.0 as int] is Some,
    ensures
        ({
            let e = heap.entries@[id.0 as int]->0;
            &&& heap@.count(id) == e.refs
            &&& e.data matches Some(HeapData::List(l)) ==> (heap@.data(id) matches Some(
                DataView::List(shown),
            ) && shown.items == l.items@)
            &&& e.data matches Some(HeapData::Tuple(t)) ==> heap@.data(id) == Some(
                DataView::Tuple(t.items@),
            )
            &&& e.data matches Some(HeapData::Dict(d)) ==> heap@.data(id) == Some(
                DataView::Dict(d.entries@),
            )
            &&& e.data matches Some(HeapData::PySet(s)) ==> heap@.data(id) == Some(
                DataView::PySet(s.items@),
            )
            &&& e.data matches Some(HeapData::Str(s)) ==> heap@.data(id) == Some(DataView::Str(s@))
            &&& e.data matches Some(HeapData::Bytes(b)) ==> heap@.data(id) == Some(
                DataView::Bytes(b@),
            )
            &&& e.data matches Some(HeapData::LongInt(i)) ==> heap@.data(id) == Some(
                DataView::LongInt(i@),
            )
            &&& e.data matches Some(HeapData::Cell(v)) ==> heap@.data(id) == Some(DataView::Cell(v))
            &&& e.data matches Some(HeapData::Range(r)) ==> heap@.data(id) == Some(
                DataView::Range(r),
            )
            &&& e.data matches Some(HeapData::Slice(s)) ==> heap@.data(id) == Some(
                DataView::Slice(s),
            )
        }),
{
}

/// The content of a coroutine and of a gather is what they hold, in its order.
pub proof fn coroutines_and_gathers_are_what_they_hold(c: Coroutine, g: GatherFuture)
    ensures
        c@.func_id == c.func_id,
        c@.namespace == c.namespace@,
        c@.frame_cells == c.frame_cells@,
        c@.state == c.state,
        g@.items == g.items@,
        g@.task_ids == g.task_ids@,
        g@.results == g.results@,
        g@.waiter == g.waiter,
        g@.pending_calls == g.pending_calls@,
{
}

/// The content of a machine is what it holds.
pub proof fn machines_are_what_they_hold<'a, T>(vm: VM<'a, T>, i: int)
    ensures
        vm@.stack == vm.stack@,
        vm@.heap == vm.heap@,
        vm@.exception_stack == vm.exception_stack@,
        vm@.instruction_ip == vm.instruction_ip,
        vm@.frames.len() == vm.frames@.len(),
        0 <= i < vm.frames@.len() ==> vm@.frames[i].ip == vm.frames@[i].ip && vm@.frames[i].stack_base
            == vm.frames@[i].stack_base && vm@.frames[i].namespace_idx
            == vm.frames@[i].namespace_idx,
        vm@.interns == *vm.interns,
{
}

/// An instruction that was carried out as it is said to be leaves the machine that is said and
/// ends as it is said.
pub proof fn steps_are_carried_out<R, T>(step: VmStep<R, T>, r: RunResult<R>, after: VmView<T>)
    requires
        step.matches(r, after),
    ensures
        after == step.vm,
        r is Ok <==> step.result is Ok,
        r matches Ok(x) ==> step.result == Ok::<R, ErrorView>(x),
        r matches Err(e) ==> step.result == Err::<R, ErrorView>(e@),
{
}

/// An await that was carried out as it is said to be leaves the machine that is said and ends as
/// it is said.
pub proof fn awaits_are_carried_out<T>(
    said: VmStep<AwaitView, T>,
    r: RunResult<AwaitResult>,
    after: VmView<T>,
)
    requires
        await_matches(said, r, after),
    ensures
        after == said.vm,
        said.result is Ok <==> r is Ok,
        said.result matches Ok(AwaitView::ValueReady(v)) ==> r == Ok::<
            AwaitResult,
            RunError,
        >(AwaitResult::ValueReady(v)),
        said.result matches Ok(AwaitView::Yield(calls)) ==> (r matches Ok(AwaitResult::Yield(asked))
            && asked@ == calls),
        said.result matches Ok(AwaitView::FramePushed) ==> r matches Ok(AwaitResult::FramePushed),
        said.result matches Err(e) ==> (r matches Err(f) && f@ == e),
{
}

/// An operation on a list that was carried out as it is said to be leaves the list and the heap
/// that are said and ends as it is said.
pub proof fn list_operations_are_carried_out<R, T>(
    r: RunResult<R>,
    list: ListView,
    heap: HeapView<T>,
    said: ListOp<R, T>,
)
    requires
        op_matches(r, list, heap, said),
    ensures
        list == said.list,
        heap == said.heap,
        r matches Ok(x) ==> said.result == Ok::<R, ErrorView>(x),
        r matches Err(e) ==> said.result == Err::<R, ErrorView>(e@),
{
}

/// Items that were read or collected as they are said to be are those that are said.
pub proof fn items_are_those_that_are_said(
    read: Option<Source>,
    produced: Option<Produced>,
    r: RunResult<Vec<Value>>,
    collected: Result<Seq<Value>, ErrorView>,
    made: Result<Vec<Value>, ResourceError>,
    values: Result<Seq<Value>, ResourceError>,
)
    requires
        source_matches(read, produced),
        collection_matches(r, collected),
        values_match(made, values),
    ensures
        read is Some <==> produced is Some,
        produced matches Some(Produced::Values(v)) ==> (read matches Some(Source::Values(w)) && w@
            == v),
        produced matches Some(Produced::Chars(c)) ==> (read matches Some(Source::Chars(d)) && d@
            == c),
        collected matches Ok(v) ==> (r matches Ok(w) && w@ == v),
        collected matches Err(e) ==> (r matches Err(f) && f@ == e),
        values matches Ok(v) ==> (made matches Ok(w) && w@ == v),
        values matches Err(e) ==> made == Err::<Vec<Value>, ResourceError>(e),
{
}

/// A position that was found as it is said to be is the one that is said.
pub proof fn positions_are_those_that_are_said(
    r: Result<Option<usize>, ResourceError>,
    said: Result<Option<int>, ResourceError>,
)
    requires
        position_matches(r, said),
    ensures
        said matches Ok(Some(k)) ==> (r matches Ok(Some(i)) && i == k),
        said matches Ok(None) ==> r == Ok::<Option<usize>, ResourceError>(None),
        said matches Err(e) ==> r == Err::<Option<usize>, ResourceError>(e),
{
}

/// The outcome of a call is what it comes to, with the arguments that are handed out.
pub proof fn outcomes_are_what_a_call_comes_to(r: RunResult<CallResult>)
    ensures
        r matches Ok(CallResult::Push(v)) ==> call_outcome(r) == Ok::<CallResultView, ErrorView>(
            CallResultView::Push(v),
        ),
        r matches Ok(CallResult::FramePushed) ==> call_outcome(r) == Ok::<
            CallResultView,
            ErrorView,
        >(CallResultView::FramePushed),
        r matches Ok(CallResult::External(f, args)) ==> call_outcome(r) == Ok::<
            CallResultView,
            ErrorView,
        >(CallResultView::External(f, args@)),
        r matches Ok(CallResult::OsCall(f, args)) ==> call_outcome(r) == Ok::<
            CallResultView,
            ErrorView,
        >(CallResultView::OsCall(f, args@)),
        r matches Err(e) ==> call_outcome(r) == Err::<CallResultView, ErrorView>(e@),
{
}

/// A list starts with the items it is given, and says whether any of them refers to an object.
pub proof fn lists_start_with_their_items(list: List, items: Seq<Value>)
    ensures
        list@.items == list.items@,
        ListView::of(items).items == items,
        ListView::of(items).contains_refs <==> exists|i: int|
            0 <= i < items.len() && (#[trigger] items[i]) is Ref,
{
}

} // verus!
