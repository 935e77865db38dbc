//! What values are: their types, how they compare, what they show, and what they count as.

use vstd::prelude::*;
use crate::args::{positional_error, ArgsView};
use crate::builtins::{Builtins, BuiltinsFunctions};
use crate::containers::{Range, Slice};
use crate::equality::{all_among, entries_among, equal, first_equal, keys_of, range_len, truth};
use crate::equality_laws::{integers_are_compared, is_integer};
use crate::error::{Callee, ErrorView, ExceptionView};
use crate::heap::{DataView, HeapView};
use crate::ids::{ExtFunctionId, FunctionId, HeapId};
use crate::indexing::{as_index, as_int, position};
use crate::interns::Interns;
use crate::list_results::raises;
use crate::repr::{bytes_escaped, hex_char, hex_escape, repr, str_of, string_repr};
use crate::resource::{LimitedTracker, NoLimitTracker, ResourceError, ResourceTracker, MAX_DATA_DEPTH};
use crate::text::int_text;
use crate::types::{ExcType, Type};
use crate::value::Value;

verus! {

/// Every value has the type it has in Python.
pub proof fn values_have_their_types<T>(h: HeapView<T>, v: Value)
    ensures
        v is PyNone ==> h.type_of(v) == Type::NoneType,
        v is Bool ==> h.type_of(v) == Type::Bool,
        v is Int || v is InternLongInt ==> h.type_of(v) == Type::Int,
        v is InternString ==> h.type_of(v) == Type::Str,
        v is InternBytes ==> h.type_of(v) == Type::Bytes,
        v is DefFunction || v is ExtFunction ==> h.type_of(v) == Type::Function,
        v is ModuleFunction ==> h.type_of(v) == Type::BuiltinFunction,
        v is ExternalFuture ==> h.type_of(v) == Type::Coroutine,
        v matches Value::Builtin(b) ==> {
            &&& b is Function ==> h.type_of(v) == Type::BuiltinFunction
            &&& b is ExcType || b is Type ==> h.type_of(v) == Type::Type
        },
        v matches Value::Ref(id) ==> (h.data(id) matches Some(d) ==> {
            &&& d is List ==> h.type_of(v) == Type::List
            &&& d is Tuple ==> h.type_of(v) == Type::Tuple
            &&& d is Dict ==> h.type_of(v) == Type::Dict
            &&& d is PySet ==> h.type_of(v) == Type::PySet
            &&& d is Str ==> h.type_of(v) == Type::Str
            &&& d is Bytes ==> h.type_of(v) == Type::Bytes
            &&& d is Range ==> h.type_of(v) == Type::Range
            &&& d is Slice ==> h.type_of(v) == Type::Slice
            &&& d is LongInt ==> h.type_of(v) == Type::Int
            &&& d matches DataView::Exception(e) ==> h.type_of(v) == Type::Exception(e.exc_type)
            &&& d is Closure || d is FunctionDefaults ==> h.type_of(v) == Type::Function
            &&& d is Coroutine ==> h.type_of(v) == Type::Coroutine
            &&& d is GatherFuture ==> h.type_of(v) == Type::Future
            &&& d is Cell ==> h.type_of(v) == Type::Cell
        }),
{
}

/// Whether a value is these bytes: those of a literal, or those of an object.
pub open spec fn is_bytes<T>(h: HeapView<T>, interns: Interns, v: Value, bytes: Seq<u8>) -> bool {
    match v {
        Value::InternBytes(id) => id.0 < interns.bytes@.len() && interns.bytes@[id.0 as int]@
            == bytes,
        Value::Ref(id) => h.data(id) == Some(DataView::Bytes(bytes)),
        _ => false,
    }
}

/// Bytes are equal if they are the same one by one, and count as true unless there are none.
pub proof fn bytes_are_compared<T>(
    h: HeapView<T>,
    interns: Interns,
    a: Value,
    b: Value,
    x: Seq<u8>,
    y: Seq<u8>,
    room: nat,
)
    requires
        is_bytes(h, interns, a, x),
        is_bytes(h, interns, b, y),
    ensures
        equal(h, interns, a, b, room) == Ok::<bool, ResourceError>(x == y),
        truth(h, interns, a) == (x.len() != 0),
{
}

/// Slices are equal if their bounds and steps are.
pub proof fn slices_are_compared<T>(
    h: HeapView<T>,
    interns: Interns,
    x: HeapId,
    y: HeapId,
    a: Slice,
    b: Slice,
    room: nat,
)
    requires
        h.data(x) == Some(DataView::Slice(a)),
        h.data(y) == Some(DataView::Slice(b)),
    ensures
        equal(h, interns, Value::Ref(x), Value::Ref(y), room) == Ok::<bool, ResourceError>(
            a.start == b.start && a.stop == b.stop && a.step == b.step,
        ),
{
}

/// Whether values are these integers, one by one.
pub open spec fn are_integers<T>(
    h: HeapView<T>,
    interns: Interns,
    values: Seq<Value>,
    numbers: Seq<int>,
) -> bool {
    values.len() == numbers.len() && forall|i: int|
        0 <= i < values.len() ==> is_integer(h, interns, #[trigger] values[i], numbers[i])
}

proof fn integer_is_found<T>(
    h: HeapView<T>,
    interns: Interns,
    v: Value,
    x: int,
    items: Seq<Value>,
    numbers: Seq<int>,
    n: int,
    room: nat,
)
    requires
        0 <= n <= items.len(),
        is_integer(h, interns, v, x),
        are_integers(h, interns, items, numbers),
    ensures
        match first_equal(h, interns, v, items, n, room) {
            Ok(Some(k)) => 0 <= k < n && numbers[k] == x,
            Ok(None) => forall|j: int| 0 <= j < n ==> (#[trigger] numbers[j]) != x,
            Err(_) => false,
        },
    decreases n,
{
    if n > 0 {
        integer_is_found(h, interns, v, x, items, numbers, n - 1, room);
        assert(is_integer(h, interns, items[n - 1], numbers[n - 1]));
        integers_are_compared(h, interns, v, items[n - 1], x, numbers[n - 1], room);
    }
}

proof fn integers_are_among<T>(
    h: HeapView<T>,
    interns: Interns,
    l: Seq<Value>,
    xs: Seq<int>,
    m: Seq<Value>,
    ys: Seq<int>,
    n: int,
    room: nat,
)
    requires
        0 <= n <= l.len(),
        are_integers(h, interns, l, xs),
        are_integers(h, interns, m, ys),
    ensures
        all_among(h, interns, l, m, n, room) == Ok::<bool, ResourceError>(
            forall|i: int| 0 <= i < n ==> ys.contains(#[trigger] xs[i]),
        ),
    decreases n,
{
    if n > 0 {
        integers_are_among(h, interns, l, xs, m, ys, n - 1, room);
        assert(is_integer(h, interns, l[n - 1], xs[n - 1]));
        integer_is_found(h, interns, l[n - 1], xs[n - 1], m, ys, m.len() as int, room);
        let last = xs[n - 1];
        match first_equal(h, interns, l[n - 1], m, m.len() as int, room) {
            Ok(Some(k)) => {
                assert(ys[k] == last);
                assert(ys.contains(last));
            },
            _ => {
                assert(!ys.contains(last));
            },
        }
    }
}

/// Sets of integers are equal if they are as large as one another and every integer of the one is
/// in the other, in whatever order.
pub proof fn sets_are_compared<T>(
    h: HeapView<T>,
    interns: Interns,
    x: HeapId,
    y: HeapId,
    l: Seq<Value>,
    xs: Seq<int>,
    m: Seq<Value>,
    ys: Seq<int>,
    room: nat,
)
    requires
        x != y,
        h.data(x) == Some(DataView::PySet(l)),
        h.data(y) == Some(DataView::PySet(m)),
        are_integers(h, interns, l, xs),
        are_integers(h, interns, m, ys),
        room > 0,
    ensures
        equal(h, interns, Value::Ref(x), Value::Ref(y), room) == Ok::<bool, ResourceError>(
            xs.len() == ys.len() && forall|i: int|
                0 <= i < xs.len() ==> ys.contains(#[trigger] xs[i]),
        ),
{
    reveal_with_fuel(equal, 2);
    integers_are_among(h, interns, l, xs, m, ys, l.len() as int, (room - 1) as nat);
}

/// Whether an entry of a dict is among those of another one: the first one with its key has its
/// value.
pub open spec fn entry_is_among(x: int, v: int, ys: Seq<int>, ws: Seq<int>) -> bool {
    exists|j: int|
        0 <= j < ys.len() && (#[trigger] ys[j]) == x && ws[j] == v && forall|i: int|
            0 <= i < j ==> (#[trigger] ys[i]) != x
}

/// The values of a dict.
pub open spec fn values_of(pairs: Seq<(Value, Value)>) -> Seq<Value> {
    pairs.map_values(|p: (Value, Value)| p.1)
}

proof fn integer_entries_are_among<T>(
    h: HeapView<T>,
    interns: Interns,
    l: Seq<(Value, Value)>,
    xs: Seq<int>,
    vs: Seq<int>,
    m: Seq<(Value, Value)>,
    ys: Seq<int>,
    ws: Seq<int>,
    n: int,
    room: nat,
)
    requires
        0 <= n <= l.len(),
        are_integers(h, interns, keys_of(l), xs),
        are_integers(h, interns, values_of(l), vs),
        are_integers(h, interns, keys_of(m), ys),
        are_integers(h, interns, values_of(m), ws),
        forall|i: int, j: int| 0 <= i < j < ys.len() ==> #[trigger] ys[i] != #[trigger] ys[j],
    ensures
        entries_among(h, interns, l, m, n, room) == Ok::<bool, ResourceError>(
            forall|i: int|
                0 <= i < n ==> entry_is_among(#[trigger] xs[i], vs[i], ys, ws),
        ),
    decreases n,
{
    if n > 0 {
        integer_entries_are_among(h, interns, l, xs, vs, m, ys, ws, n - 1, room);
        let keys = keys_of(m);
        let key = l[n - 1].0;
        let x = xs[n - 1];
        let v = vs[n - 1];
        assert(keys_of(l)[n - 1] == key && values_of(l)[n - 1] == l[n - 1].1);
        assert(is_integer(h, interns, key, x));
        assert(is_integer(h, interns, l[n - 1].1, v));
        integer_is_found(h, interns, key, x, keys, ys, keys.len() as int, room);
        match first_equal(h, interns, key, keys, keys.len() as int, room) {
            Ok(Some(k)) => {
                assert(values_of(m)[k] == m[k].1);
                assert(is_integer(h, interns, m[k].1, ws[k]));
                integers_are_compared(h, interns, l[n - 1].1, m[k].1, v, ws[k], room);
                assert(ys[k] == x);
                assert forall|i: int| 0 <= i < k implies (#[trigger] ys[i]) != x by {}
                if entry_is_among(x, v, ys, ws) {
                    let j = choose|j: int|
                        0 <= j < ys.len() && (#[trigger] ys[j]) == x && ws[j] == v && forall|i: int|
                            0 <= i < j ==> (#[trigger] ys[i]) != x;
                    assert(j == k) by {
                        if j < k {
                            assert(ys[j] != x);
                        } else if j > k {
                            assert(ys[k] != x);
                        }
                    }
                }
            },
            _ => {
                assert(!entry_is_among(x, v, ys, ws));
            },
        }
    }
}

/// Dicts with integers as their keys and values are equal if they are as large as one another and
/// every entry of the one is an entry of the other.
pub proof fn dicts_are_compared<T>(
    h: HeapView<T>,
    interns: Interns,
    x: HeapId,
    y: HeapId,
    l: Seq<(Value, Value)>,
    xs: Seq<int>,
    vs: Seq<int>,
    m: Seq<(Value, Value)>,
    ys: Seq<int>,
    ws: Seq<int>,
    room: nat,
)
    requires
        x != y,
        h.data(x) == Some(DataView::Dict(l)),
        h.data(y) == Some(DataView::Dict(m)),
        are_integers(h, interns, keys_of(l), xs),
        are_integers(h, interns, values_of(l), vs),
        are_integers(h, interns, keys_of(m), ys),
        are_integers(h, interns, values_of(m), ws),
        forall|i: int, j: int| 0 <= i < j < ys.len() ==> #[trigger] ys[i] != #[trigger] ys[j],
        room > 0,
    ensures
        equal(h, interns, Value::Ref(x), Value::Ref(y), room) == Ok::<bool, ResourceError>(
            xs.len() == ys.len() && forall|i: int|
                0 <= i < xs.len() ==> entry_is_among(#[trigger] xs[i], vs[i], ys, ws),
        ),
{
    reveal_with_fuel(equal, 2);
    integer_entries_are_among(
        h,
        interns,
        l,
        xs,
        vs,
        m,
        ys,
        ws,
        l.len() as int,
        (room - 1) as nat,
    );
}

/// A range has as many numbers as there are steps from its start that stay before its stop.
pub proof fn ranges_are_counted(r: Range)
    ensures
        range_len(r) >= 0,
        r.step > 0 ==> r.start + range_len(r) * r.step >= r.stop,
        r.step > 0 && range_len(r) > 0 ==> r.start + (range_len(r) - 1) * r.step < r.stop,
        r.step < 0 ==> r.start + range_len(r) * r.step <= r.stop,
        r.step < 0 && range_len(r) > 0 ==> r.start + (range_len(r) - 1) * r.step > r.stop,
        r.step > 0 && r.start >= r.stop ==> range_len(r) == 0,
        r.step < 0 && r.start <= r.stop ==> range_len(r) == 0,
{
    let a = r.start as int;
    let b = r.stop as int;
    let s = r.step as int;
    if s > 0 && a < b {
        let n = (b - a + s - 1) / s;
        assert(n >= 0 && a + n * s >= b && a + (n - 1) * s < b) by (nonlinear_arith)
            requires
                s > 0,
                a < b,
                n == (b - a + s - 1) / s,
        ;
    } else if s < 0 && b < a {
        let t = -s;
        let n = (a - b + t - 1) / t;
        assert(n >= 0 && a - n * t <= b && a - (n - 1) * t > b) by (nonlinear_arith)
            requires
                t > 0,
                b < a,
                n == (a - b + t - 1) / t,
        ;
        assert(n * s == -(n * t) && (n - 1) * s == -((n - 1) * t)) by (nonlinear_arith)
            requires
                t == -s,
        ;
    }
}

/// An index is an integer or a boolean; an integer that is too large is out of range, and nothing
/// else is an index.
pub proof fn what_is_an_index<T>(h: HeapView<T>, v: Value)
    ensures
        v matches Value::Int(i) ==> as_index(h, v) == Ok::<i64, ErrorView>(i) && as_int(h, v)
            == Ok::<i64, ErrorView>(i),
        v == Value::Bool(true) ==> as_index(h, v) == Ok::<i64, ErrorView>(1) && as_int(h, v)
            == Ok::<i64, ErrorView>(1),
        v == Value::Bool(false) ==> as_index(h, v) == Ok::<i64, ErrorView>(0) && as_int(h, v)
            == Ok::<i64, ErrorView>(0),
        v matches Value::Ref(id) ==> (h.data(id) matches Some(DataView::LongInt(i)) ==> {
            &&& i > i64::MAX || i < i64::MIN ==> raises(as_index(h, v), ExcType::IndexError)
                && raises(as_int(h, v), ExcType::OverflowError)
            &&& i64::MIN <= i <= i64::MAX ==> as_index(h, v) == Ok::<i64, ErrorView>(i as i64)
        }),
        v is PyNone || v is InternString || v is InternBytes ==> raises(
            as_index(h, v),
            ExcType::TypeError,
        ) && raises(as_int(h, v), ExcType::TypeError),
{
}

/// An index below zero counts from the end; one beyond either end stands for nothing.
pub proof fn indices_count_from_either_end(index: i64, len: int)
    requires
        len >= 0,
    ensures
        0 <= index < len ==> position(index, len) == Some(index as int),
        index < 0 && index + len >= 0 ==> position(index, len) == Some(index + len),
        index >= len || index + len < 0 ==> position(index, len) is None,
{
}

/// Too few, too many and named arguments of a function that takes so many are type errors.
pub proof fn arguments_are_counted(args: ArgsView, callee: Callee, min: usize, max: usize)
    requires
        min <= max,
        args.pos.len() <= usize::MAX,
    ensures
        positional_error(args, callee, min, max) is None <==> args.pairs.len() == 0 && min
            <= args.pos.len() <= max,
        positional_error(args, callee, min, max) matches Some(e) ==> raises(
            Err::<(), ErrorView>(e),
            ExcType::TypeError,
        ),
{
}

/// A limited tracker allows as many allocations as it says, one after the other, and no more.
pub proof fn allocations_are_limited(t: LimitedTracker)
    ensures
        t.allocations < t.max_allocations ==> t.admits() && t.charged().allocations
            == t.allocations + 1 && t.charged().max_allocations == t.max_allocations
            && t.charged().max_depth == t.max_depth,
        t.allocations >= t.max_allocations ==> !t.admits(),
        t.refusal() == (ResourceError::Allocation { limit: t.max_allocations }),
        t.depth_limit() == Some(t.max_depth),
{
}

/// Without limits everything is allowed.
pub proof fn no_limit_allows_everything(t: NoLimitTracker)
    ensures
        t.admits(),
        t.depth_limit() is None,
{
}

/// Running out of memory and nesting too deeply are errors that programs cannot catch.
pub proof fn limits_cannot_be_caught(limit: usize)
    ensures
        ErrorView::resource(ResourceError::Allocation { limit }) matches ErrorView::UncatchableExc(e)
            && e.exc.exc_type == ExcType::MemoryError,
        ErrorView::resource(ResourceError::Recursion { limit }) matches ErrorView::UncatchableExc(e)
            && e.exc.exc_type == ExcType::RecursionError,
{
}

/// Ranges and slices are shown with their bounds; a step of one is left out of a range.
pub proof fn ranges_and_slices_are_shown<T>(
    h: HeapView<T>,
    interns: Interns,
    id: HeapId,
    seen: Set<usize>,
    room: nat,
)
    ensures
        h.data(id) matches Some(DataView::Range(r)) ==> repr(
            h,
            interns,
            Value::Ref(id),
            seen,
            room,
        ) == "range("@ + int_text(r.start as int) + ", "@ + int_text(r.stop as int) + (if r.step
            == 1 {
            ")"@
        } else {
            ", "@ + int_text(r.step as int) + ")"@
        }),
        h.data(id) matches Some(DataView::Slice(s)) ==> {
            let shown = repr(h, interns, Value::Ref(id), seen, room);
            &&& s.start matches Some(a) ==> (s.stop matches Some(b) ==> (s.step matches Some(c)
                ==> shown == "slice("@ + int_text(a as int) + ", "@ + int_text(b as int) + ", "@
                + int_text(c as int) + ")"@))
            &&& s.start is None && s.stop is None && s.step is None ==> shown == "slice("@
                + "None"@ + ", "@ + "None"@ + ", "@ + "None"@ + ")"@
        },
{
    if let Some(DataView::Range(r)) = h.data(id) {
        let ends = "range("@ + int_text(r.start as int) + ", "@ + int_text(r.stop as int);
        let step = ", "@ + int_text(r.step as int) + ")"@;
        assert(ends + ", "@ + int_text(r.step as int) + ")"@ =~= ends + step);
    }
}

/// An exception is shown with its class and its text; `str` gives the text alone.
pub proof fn exceptions_are_shown<T>(
    h: HeapView<T>,
    interns: Interns,
    id: HeapId,
    e: ExceptionView,
    seen: Set<usize>,
    room: nat,
)
    requires
        h.data(id) == Some(DataView::Exception(e)),
    ensures
        e.message is None ==> repr(h, interns, Value::Ref(id), seen, room) == e.exc_type.text()
            + "()"@ && str_of(h, interns, Value::Ref(id), room) == ""@,
        e.message matches Some(m) ==> repr(h, interns, Value::Ref(id), seen, room)
            == e.exc_type.text() + "("@ + string_repr(m.text(interns)) + ")"@ && str_of(
            h,
            interns,
            Value::Ref(id),
            room,
        ) == m.text(interns),
{
}

/// Functions and classes are shown with their names.
pub proof fn callables_are_shown<T>(
    h: HeapView<T>,
    interns: Interns,
    f: FunctionId,
    x: ExtFunctionId,
    b: BuiltinsFunctions,
    e: ExcType,
    t: Type,
    seen: Set<usize>,
    room: nat,
)
    ensures
        f.0 < interns.functions@.len() ==> repr(h, interns, Value::DefFunction(f), seen, room)
            == "<function "@ + interns.text(interns.functions@[f.0 as int].name) + ">"@,
        x.0 < interns.external_functions@.len() ==> repr(
            h,
            interns,
            Value::ExtFunction(x),
            seen,
            room,
        ) == "<function "@ + interns.external_functions@[x.0 as int]@ + ">"@,
        repr(h, interns, Value::Builtin(Builtins::Function(b)), seen, room)
            == "<built-in function "@ + b.text() + ">"@,
        repr(h, interns, Value::Builtin(Builtins::ExcType(e)), seen, room) == "<class '"@
            + e.text() + "'>"@,
        repr(h, interns, Value::Builtin(Builtins::Type(t)), seen, room) == "<class '"@ + t.text()
            + "'>"@,
{
}

/// A code is escaped with the two digits it has to the base of sixteen.
pub proof fn hex_digits_stand_for_the_code(code: nat, d: nat)
    requires
        code < 256,
    ensures
        hex_escape(code).len() == 4,
        hex_escape(code)[0] == '\\',
        hex_escape(code)[1] == 'x',
        hex_escape(code)[2] == hex_char(code / 16),
        hex_escape(code)[3] == hex_char(code % 16),
        (code / 16) * 16 + code % 16 == code,
        d < 10 ==> hex_char(d) as int == '0' as int + d,
        10 <= d < 16 ==> hex_char(d) as int == 'a' as int + d - 10,
{
}

/// Bytes that are plain characters are shown as these, after a `b` and between quotes.
pub proof fn plain_bytes_are_shown<T>(
    h: HeapView<T>,
    interns: Interns,
    v: Value,
    bytes: Seq<u8>,
    seen: Set<usize>,
    room: nat,
)
    requires
        is_bytes(h, interns, v, bytes),
        forall|i: int|
            0 <= i < bytes.len() ==> 32 <= (#[trigger] bytes[i]) < 127 && bytes[i] != 39
                && bytes[i] != 92,
    ensures
        ({
            let shown = repr(h, interns, v, seen, room);
            &&& shown.len() == bytes.len() + 3
            &&& shown[0] == 'b'
            &&& shown[1] == '\''
            &&& shown.last() == '\''
            &&& forall|i: int| 0 <= i < bytes.len() ==> shown[i + 2] == (#[trigger] bytes[i]) as char
        }),
{
    assert(!bytes.contains(39));
    plain_bytes_stay(bytes, bytes.len() as int);
}

proof fn plain_bytes_stay(bytes: Seq<u8>, n: int)
    requires
        0 <= n <= bytes.len(),
        forall|i: int|
            0 <= i < bytes.len() ==> 32 <= (#[trigger] bytes[i]) < 127 && bytes[i] != 39
                && bytes[i] != 92,
    ensures
        bytes_escaped(bytes, n, '\'').len() == n,
        forall|i: int|
            0 <= i < n ==> bytes_escaped(bytes, n, '\'')[i] == (#[trigger] bytes[i]) as char,
    decreases n,
{
    if n > 0 {
        plain_bytes_stay(bytes, n - 1);
        assert(32 <= bytes[n - 1] < 127);
    }
}

/// Bytes that are no characters are shown as escapes.
pub proof fn other_bytes_are_escaped(bytes: Seq<u8>, n: int, quote: char)
    requires
        0 < n <= bytes.len(),
        bytes[n - 1] >= 128,
    ensures
        bytes_escaped(bytes, n, quote) == bytes_escaped(bytes, n - 1, quote) + hex_escape(
            bytes[n - 1] as nat,
        ),
{
}

/// Comparing containers that are nested too deeply is an error, not an answer.
pub proof fn deep_containers_are_not_compared<T>(
    h: HeapView<T>,
    interns: Interns,
    x: HeapId,
    y: HeapId,
)
    requires
        x != y,
        ({
            ||| h.data(x) matches Some(DataView::List(l)) && (h.data(y) matches Some(
                DataView::List(m),
            ) && l.items.len() == m.items.len())
            ||| h.data(x) matches Some(DataView::Tuple(l)) && (h.data(y) matches Some(
                DataView::Tuple(m),
            ) && l.len() == m.len())
            ||| h.data(x) matches Some(DataView::Dict(l)) && (h.data(y) matches Some(
                DataView::Dict(m),
            ) && l.len() == m.len())
            ||| h.data(x) matches Some(DataView::PySet(l)) && (h.data(y) matches Some(
                DataView::PySet(m),
            ) && l.len() == m.len())
        }),
    ensures
        equal(h, interns, Value::Ref(x), Value::Ref(y), 0) matches Err(
            ResourceError::Recursion { limit },
        ) && limit == MAX_DATA_DEPTH,
{
}

} // verus!
