//! What is called, and with which arguments.

use vstd::prelude::*;
use crate::args::ArgsView;
use crate::containers::dict_from;
use crate::equality_laws::is_text;
use crate::error::ErrorView;
use crate::heap::{pair_values, DataView, HeapView};
use crate::ids::{ExtFunctionId, FunctionId, HeapId, NamespaceId, StringId};
use crate::interns::{Interns, StaticStrings};
use crate::list::ListView;
use crate::list_results::raises;
use crate::ownership::release_value_only_frees;
use crate::print::PrintWriter;
use crate::resource::ResourceTracker;
use crate::sort::SortStep;
use crate::types::ExcType;
use crate::value::Value;
use crate::vm::async_exec::counting_keeps_data;
use crate::vm::attr::attr_outcome;
use crate::vm::call::{
    as_refs, attr_called, called_attr, cells_follow_parameters, cells_made, filled_up, function_called, sort_call, unpackable,
};
use crate::vm::call_result::{AttrCallResult, BindingView, CallResult, CallResultView, CallingView};
use crate::vm::collection_results::{is_new, keyed_by, text_is_not_among};
use crate::vm::VmView;

verus! {

/// The arguments of a call come off the stack in the order in which they were pushed: the
/// positional ones first, then one value for each name.
pub proof fn arguments_are_in_order<T: ResourceTracker>(vm: VmView<T>, pos: int, names: Seq<StringId>)
    requires
        0 <= pos,
        pos + names.len() <= vm.stack.len(),
    ensures
        ({
            let args = vm.args_on_stack(pos, names);
            let n = vm.stack.len() - names.len();
            &&& args.pos.len() == pos
            &&& args.pairs.len() == names.len()
            &&& forall|i: int| 0 <= i < pos ==> (#[trigger] args.pos[i]) == vm.stack[n - pos + i]
            &&& forall|i: int|
                0 <= i < names.len() ==> (#[trigger] args.pairs[i]) == (
                    Value::InternString(names[i]),
                    vm.stack[n + i],
                )
        }),
{
}

/// `f(*args)` passes on the items of the tuple in their order.
pub proof fn packed_arguments_are_in_order<T: ResourceTracker>(
    vm: VmView<T>,
    id: HeapId,
    items: Seq<Value>,
)
    requires
        vm.stack.len() >= 1,
        vm.stack.last() == Value::Ref(id),
        vm.heap.data(id) == Some(DataView::Tuple(items)),
    ensures
        unpackable(vm.heap, vm.packed_args(false).0, vm.packed_args(false).1),
        vm.call_unpacked(false).result matches Ok(args) && args.pos == items && args.pairs.len()
            == 0,
{
}

/// `f(*args, **kwargs)` passes on the items of the tuple in their order.
pub proof fn packed_arguments_precede_named_ones<T: ResourceTracker>(
    vm: VmView<T>,
    id: HeapId,
    items: Seq<Value>,
)
    requires
        vm.stack.len() >= 2,
        vm.stack[vm.stack.len() - 2] == Value::Ref(id),
        vm.heap.data(id) == Some(DataView::Tuple(items)),
        vm.call_unpacked(true).result is Ok,
    ensures
        vm.call_unpacked(true).result matches Ok(args) && args.pos == items,
{
}

/// Calling a function of the program asks for its arguments to be bound, those that were passed;
/// it has neither captured cells nor defaults.
pub proof fn functions_bind_their_arguments<W: PrintWriter, T: ResourceTracker>(
    vm: VmView<T>,
    state: W::State,
    f: FunctionId,
    args: ArgsView,
    r: CallingView,
    after: VmView<T>,
    state_after: W::State,
)
    requires
        function_called::<W, T>(
            vm,
            state,
            Value::DefFunction(f),
            args,
            r,
            after,
            state_after,
        ),
    ensures
        state_after == state,
        after.stack == vm.stack,
        after.frames == vm.frames,
        after.heap == vm.heap,
        r is Bind || r is Done,
        r matches CallingView::Bind(call, passed) ==> {
            &&& call.func_id == f
            &&& call.cells.len() == 0
            &&& call.defaults.len() == 0
            &&& passed == args
            &&& call.frame is Some == !vm.interns.function(f).is_async
            &&& call.frame matches Some(frame) ==> frame.1 == vm.position()
        },
        r is Done ==> !vm.interns.function(f).is_async && r->Done_0 is Err,
{
}

/// Calling a closure binds the arguments to its function, with the cells it has captured and its
/// defaults.
pub proof fn closures_bind_their_arguments<W: PrintWriter, T: ResourceTracker>(
    vm: VmView<T>,
    state: W::State,
    id: HeapId,
    f: FunctionId,
    cells: Seq<HeapId>,
    defaults: Seq<Value>,
    args: ArgsView,
    r: CallingView,
    after: VmView<T>,
    state_after: W::State,
)
    requires
        vm.heap.data(id) == Some(DataView::Closure(f, cells, defaults)) || (cells == Seq::<
            HeapId,
        >::empty() && vm.heap.data(id) == Some(DataView::FunctionDefaults(f, defaults))),
        function_called::<W, T>(vm, state, Value::Ref(id), args, r, after, state_after),
    ensures
        r is Bind || r is Done,
        r matches CallingView::Bind(call, passed) ==> {
            &&& call.func_id == f
            &&& call.cells == cells
            &&& call.defaults == defaults
            &&& passed == args
        },
        r is Done ==> r->Done_0 is Err,
{
}

/// Calling a function of the host hands it out with the arguments that were passed.
pub proof fn host_functions_are_handed_out<W: PrintWriter, T: ResourceTracker>(
    vm: VmView<T>,
    state: W::State,
    f: ExtFunctionId,
    args: ArgsView,
    r: CallingView,
    after: VmView<T>,
    state_after: W::State,
)
    requires
        function_called::<W, T>(
            vm,
            state,
            Value::ExtFunction(f),
            args,
            r,
            after,
            state_after,
        ),
    ensures
        r matches CallingView::Done(Ok(CallResultView::External(asked, passed))) && asked == f
            && passed == args,
        after == vm,
{
}

/// Numbers, texts and objects that are no functions cannot be called.
pub proof fn other_values_cannot_be_called<W: PrintWriter, T: ResourceTracker>(
    vm: VmView<T>,
    state: W::State,
    callable: Value,
    args: ArgsView,
    r: CallingView,
    after: VmView<T>,
    state_after: W::State,
)
    requires
        match callable {
            Value::Ref(id) => !(vm.heap.data(id) matches Some(d) && (d is Closure
                || d is FunctionDefaults)),
            Value::PyNone | Value::Bool(_) | Value::Int(_) | Value::InternString(_) => true,
            _ => false,
        },
        function_called::<W, T>(vm, state, callable, args, r, after, state_after),
    ensures
        r matches CallingView::Done(result) && raises(result, ExcType::TypeError),
{
}

/// The cells of a call hold the arguments that inner functions use; a cell that is for no
/// parameter holds nothing yet.
pub proof fn cells_hold_arguments<T: ResourceTracker>(
    h: HeapView<T>,
    bound: Seq<Value>,
    params: Seq<Option<usize>>,
    n: int,
    k: int,
)
    requires
        0 <= k < n <= params.len(),
        params[k] matches Some(p) ==> p < bound.len(),
        cells_made(h, bound, params, n).error is None,
        h.entries.len() + n < usize::MAX,
    ensures
        ({
            let run = cells_made(h, bound, params, n);
            &&& run.cells.len() == n
            &&& run.heap.entries.len() == h.entries.len() + n
            &&& run.heap.data(run.cells[k]) == Some(
                DataView::Cell(
                    match params[k] {
                        Some(p) => bound[p as int],
                        None => Value::Undefined,
                    },
                ),
            )
        }),
    decreases n,
{
    cells_follow_parameters(h, bound, params, n);
    cells_follow_parameters(h, bound, params, n - 1);
    cells_are_new(h, bound, params, n - 1);
    let before = cells_made(h, bound, params, n - 1);
    let run = cells_made(h, bound, params, n);
    let v = match params[n - 1] {
        Some(p) => before.namespace[p as int],
        None => Value::Undefined,
    };
    let counted = before.heap.inc_value(v);
    if k < n - 1 {
        cells_hold_arguments(h, bound, params, n - 1, k);
        cells_are_new_at(h, bound, params, n - 1, k);
        assert(run.cells[k] == before.cells[k]);
        assert(counted.data(before.cells[k]) == before.heap.data(before.cells[k]));
    } else if let Some(p) = params[k] {
        assert(before.namespace[p as int] == bound[p as int]);
    }
}

proof fn cells_are_new<T: ResourceTracker>(
    h: HeapView<T>,
    bound: Seq<Value>,
    params: Seq<Option<usize>>,
    n: int,
)
    requires
        0 <= n <= params.len(),
        cells_made(h, bound, params, n).error is None,
    ensures
        cells_made(h, bound, params, n).heap.entries.len() == h.entries.len() + n,
    decreases n,
{
    if n > 0 {
        cells_are_new(h, bound, params, n - 1);
    }
}

proof fn cells_are_new_at<T: ResourceTracker>(
    h: HeapView<T>,
    bound: Seq<Value>,
    params: Seq<Option<usize>>,
    n: int,
    k: int,
)
    requires
        0 <= k < n <= params.len(),
        cells_made(h, bound, params, n).error is None,
        h.entries.len() + n < usize::MAX,
    ensures
        cells_made(h, bound, params, n).cells.len() == n,
        cells_made(h, bound, params, n).cells[k].0 == h.entries.len() + k,
    decreases n,
{
    cells_follow_parameters(h, bound, params, n);
    cells_follow_parameters(h, bound, params, n - 1);
    cells_are_new(h, bound, params, n - 1);
    if k < n - 1 {
        cells_are_new_at(h, bound, params, n - 1, k);
    }
}

/// A call of a function whose arguments are bound goes on at the start of the function, in a
/// frame of its own that begins where the stack ends.
pub proof fn called_function_starts<T: ResourceTracker>(
    vm: VmView<T>,
    call: BindingView,
    bound: Seq<Value>,
    id: NamespaceId,
)
    requires
        call.frame matches Some(frame) && frame.0 == id,
        vm.stack.len() <= usize::MAX,
        vm.binding_done(call, bound).calling == CallingView::Done(Ok(CallResultView::FramePushed)),
    ensures
        ({
            let after = vm.binding_done(call, bound).vm;
            &&& after.stack == vm.stack
            &&& after.frames.len() == vm.frames.len() + 1
            &&& forall|i: int|
                0 <= i < vm.frames.len() ==> (#[trigger] after.frames[i]) == vm.frames[i]
            &&& after.frames.last().function_id == Some(call.func_id)
            &&& after.frames.last().ip == 0
            &&& after.frames.last().stack_base == vm.stack.len()
            &&& after.frames.last().namespace_idx == id
        }),
{
}

/// A call of an async function whose arguments are bound gives a new coroutine that has not run,
/// with the arguments first in its namespace.
pub proof fn async_call_gives_a_coroutine<T: ResourceTracker>(
    vm: VmView<T>,
    call: BindingView,
    bound: Seq<Value>,
    v: Value,
)
    requires
        call.frame is None,
        vm.interns.function(call.func_id).slots_fit(call.cells.len()),
        bound.len() == vm.interns.function(call.func_id).param_count,
        vm.binding_done(call, bound).calling == CallingView::Done(Ok(CallResultView::Push(v))),
    ensures
        ({
            let after = vm.binding_done(call, bound).vm;
            &&& after.frames == vm.frames
            &&& after.stack == vm.stack
            &&& after.heap.entries.last()->0.data matches Some(DataView::Coroutine(c))
            &&& is_new(after.heap, v, DataView::Coroutine(c))
            &&& c.func_id == call.func_id
            &&& c.state is New
            &&& c.namespace.len() == vm.interns.function(call.func_id).namespace_size
            &&& forall|i: int| 0 <= i < bound.len() ==> (#[trigger] c.namespace[i]) == bound[i]
            &&& c.frame_cells.skip(c.own_cells as int) == call.cells
        }),
{
    let f = vm.interns.function(call.func_id);
    let params = f.cell_param_indices@;
    let h = vm.heap.release_values(call.defaults);
    let run = cells_made(h, bound, params, params.len() as int);
    if run.error is None {
        cells_follow_parameters(h, bound, params, params.len() as int);
        let after = vm.binding_done(call, bound).vm;
        let c = after.heap.entries.last()->0.data->0->Coroutine_0;
        assert(c.namespace == filled_up(
            run.namespace + as_refs(call.cells),
            f.namespace_size as nat,
        ));
        assert(c.frame_cells.skip(c.own_cells as int) =~= call.cells);
    }
}

/// A method of a list that is called on a list changes that list; `append` puts the item behind
/// the others.
pub proof fn append_is_called_on_the_list<W: PrintWriter, T: ResourceTracker>(
    vm: VmView<T>,
    state: W::State,
    id: HeapId,
    list: ListView,
    name: StringId,
    item: Value,
    r: CallingView,
    after: VmView<T>,
    state_after: W::State,
)
    requires
        vm.heap.data(id) == Some(DataView::List(list)),
        name == StaticStrings::Append.id(),
        attr_called::<W, T>(
            vm,
            state,
            Value::Ref(id),
            name,
            (ArgsView { pos: seq![item], pairs: Seq::empty() }),
            r,
            after,
            state_after,
        ),
    ensures
        r == CallingView::Done(Ok(CallResultView::Push(Value::PyNone))),
        after.stack == vm.stack,
        after.heap.data(id) matches Some(d) ==> (d matches DataView::List(now) && now.items.len()
            == list.items.len() + 1 && now.items.last() == item && now.items.drop_last()
            == list.items),
{
    let args = ArgsView { pos: seq![item], pairs: Seq::empty() };
    let taken = vm.heap.set_data(id, None);
    let op = crate::vm::call::list_attr_op(taken, vm.interns, list, name, args);
    crate::list_results::append_adds_at_the_end(taken, vm.interns, list, item);
    let put = op.heap.set_data(id, Some(DataView::List(op.list)));
    release_value_only_frees(put, Value::Ref(id));
    assert(after.heap == put.release(Value::Ref(id)));
    let _ = (after.heap.entry(id), put.entry(id));
    assert(op.list.items.drop_last() =~= list.items);
}

/// Numbers and the like have no methods.
pub proof fn plain_values_have_no_methods<W: PrintWriter, T: ResourceTracker>(
    vm: VmView<T>,
    state: W::State,
    obj: Value,
    name: StringId,
    args: ArgsView,
    r: CallingView,
    after: VmView<T>,
    state_after: W::State,
)
    requires
        obj is PyNone || obj is Int || obj is Bool || obj is DefFunction,
        attr_called::<W, T>(vm, state, obj, name, args, r, after, state_after),
    ensures
        r matches CallingView::Done(result) && raises(result, ExcType::AttributeError),
{
}

/// Methods of strings and of objects other than lists are called elsewhere, on the object and
/// with the arguments that were passed.
pub proof fn other_methods_are_called_elsewhere<W: PrintWriter, T: ResourceTracker>(
    vm: VmView<T>,
    state: W::State,
    obj: Value,
    name: StringId,
    args: ArgsView,
    r: CallingView,
    after: VmView<T>,
    state_after: W::State,
)
    requires
        match obj {
            Value::Ref(id) => !(vm.heap.data(id) matches Some(DataView::List(_))),
            Value::InternString(_) | Value::InternBytes(_) => true,
            _ => false,
        },
        attr_called::<W, T>(vm, state, obj, name, args, r, after, state_after),
    ensures
        r matches CallingView::Method(on, called, passed) && on == obj && called == name && passed
            == args,
        after == vm,
{
}

/// A sort that is done gives `None`; one that failed passes its error on; one that needs a key
/// asks for it.
pub proof fn sort_gives_none(obj: Value, step: SortStep)
    ensures
        step matches SortStep::Done(r) ==> match r {
            Ok(_) => sort_call(obj, step) == CallingView::Done(
                Ok(CallResultView::Push(Value::PyNone)),
            ),
            Err(e) => sort_call(obj, step) == CallingView::Done(
                Err::<CallResultView, ErrorView>(e@),
            ),
        },
        step matches SortStep::NeedsKey(job, callee, args) ==> sort_call(obj, step)
            == CallingView::SortKey(obj, job@, callee, args@),
{
}

proof fn named_entries_stay<T>(
    h: HeapView<T>,
    interns: Interns,
    entries: Seq<(Value, Value)>,
    texts: Seq<Seq<char>>,
    n: int,
)
    requires
        0 <= n <= entries.len(),
        texts.len() == entries.len(),
        forall|i: int|
            0 <= i < entries.len() ==> ((#[trigger] entries[i]).0 matches Value::InternString(id)
                && interns.text(id) == texts[i]),
        forall|i: int, j: int|
            0 <= i < j < texts.len() ==> #[trigger] texts[i] != #[trigger] texts[j],
    ensures
        ({
            let made = dict_from(h, interns, entries, n);
            made.result is Ok && made.content == entries.take(n)
        }),
    decreases n,
{
    if n > 0 {
        named_entries_stay(h, interns, entries, texts, n - 1);
        let before = dict_from(h, interns, entries, n - 1);
        let first = entries.take(n - 1);
        let first_texts = texts.take(n - 1);
        assert(keyed_by(before.heap, interns, first, first_texts)) by {
            assert forall|i: int| 0 <= i < first.len() implies is_text(
                before.heap,
                interns,
                (#[trigger] first[i]).0,
                first_texts[i],
            ) by {
                assert(first[i] == entries[i]);
            }
        }
        assert(!first_texts.contains(texts[n - 1])) by {
            assert forall|i: int| 0 <= i < first_texts.len() implies first_texts[i] != texts[n
                - 1] by {
                assert(texts[i] != texts[n - 1]);
            }
        }
        assert(is_text(before.heap, interns, entries[n - 1].0, texts[n - 1]));
        text_is_not_among(
            before.heap,
            interns,
            first,
            first_texts,
            entries[n - 1].0,
            texts[n - 1],
        );
        assert(entries.take(n - 1).push(entries[n - 1]) =~= entries.take(n));
    } else {
        assert(entries.take(0) =~= Seq::empty());
    }
}

/// `f(*args, **kwargs)` passes on the entries of the dict as keyword arguments, in their order.
pub proof fn named_arguments_keep_their_order<T: ResourceTracker>(
    vm: VmView<T>,
    tuple: HeapId,
    items: Seq<Value>,
    dict: HeapId,
    entries: Seq<(Value, Value)>,
    texts: Seq<Seq<char>>,
)
    requires
        vm.stack.len() >= 2,
        vm.stack[vm.stack.len() - 2] == Value::Ref(tuple),
        vm.stack[vm.stack.len() - 1] == Value::Ref(dict),
        vm.heap.data(tuple) == Some(DataView::Tuple(items)),
        vm.heap.data(dict) == Some(DataView::Dict(entries)),
        texts.len() == entries.len(),
        forall|i: int|
            0 <= i < entries.len() ==> ((#[trigger] entries[i]).0 matches Value::InternString(id)
                && vm.interns.text(id) == texts[i]),
        forall|i: int, j: int|
            0 <= i < j < texts.len() ==> #[trigger] texts[i] != #[trigger] texts[j],
    ensures
        vm.call_unpacked(true).result matches Ok(args) && args.pos == items && args.pairs == entries,
{
    let counted = vm.heap.inc_values(items);
    counting_keeps_data(vm.heap, items, Seq::empty(), dict);
    let copied = counted.inc_values(pair_values(entries)).release(Value::Ref(dict));
    named_entries_stay(copied, vm.interns, entries, texts, entries.len() as int);
    assert(entries.take(entries.len() as int) =~= entries);
}

/// What getting or calling an attribute came to is what the instruction comes to: a value, a call of
/// the host, or a call of the operating system, with its arguments.
pub proof fn attribute_results_are_passed_on(result: AttrCallResult)
    ensures
        result matches AttrCallResult::Value(v) ==> called_attr(result) == CallResult::Push(v),
        result matches AttrCallResult::OsCall(f, args) ==> called_attr(result)
            == CallResult::OsCall(f, args),
        result matches AttrCallResult::ExternalCall(f, args) ==> called_attr(result)
            == CallResult::External(f, args),
        attr_outcome(Ok(result)) == Ok::<CallResult, ErrorView>(called_attr(result)),
{
}

/// A binding that fails raises the error, and the function is not called.
pub proof fn failed_binding_raises<T: ResourceTracker>(
    vm: VmView<T>,
    call: BindingView,
    bound: Seq<Value>,
    error: ErrorView,
)
    ensures
        vm.binding_failed(call, bound, error).calling == CallingView::Done(
            Err::<CallResultView, ErrorView>(error),
        ),
        vm.binding_failed(call, bound, error).vm.frames == vm.frames,
        vm.binding_failed(call, bound, error).vm.stack == vm.stack,
{
}

} // verus!
