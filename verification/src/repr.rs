//! Printed forms of values.

use vstd::prelude::*;
use vstd::set::Set;
use ahash::AHashSet;
use crate::builtins::Builtins;
use crate::containers::{Range, Slice};
use crate::equality::chars_of;
use crate::error::{ExceptionView, SimpleException};
use crate::heap::{DataView, Heap, HeapData, HeapView};
use crate::ids::{ExtFunctionId, FunctionId, HeapId};
use crate::interns::Interns;
use crate::resource::DepthGuard;
use crate::text::{decimal, i64_text, int_text, number_text};
use crate::value::Value;
use crate::visited::{new_set, set_insert, set_items, set_remove};

verus! {

/// The hexadecimal digit for a number below sixteen.
pub open spec fn hex_char(d: nat) -> char {
    if d < 10 {
        (48 + d) as char
    } else {
        (87 + d) as char
    }
}

/// An escape for a character code below 256.
pub open spec fn hex_escape(code: nat) -> Seq<char> {
    seq!['\\', 'x', hex_char(code / 16), hex_char(code % 16)]
}

/// The quote a text is shown in: double quotes only if that saves escaping.
pub open spec fn quote_of(text: Seq<char>) -> char {
    if text.contains('\'') && !text.contains('"') {
        '"'
    } else {
        '\''
    }
}

/// A character as it is shown inside quotes.
pub open spec fn escaped(c: char, quote: char) -> Seq<char> {
    if c == '\\' || c == quote {
        seq!['\\', c]
    } else if c == '\n' {
        seq!['\\', 'n']
    } else if c == '\r' {
        seq!['\\', 'r']
    } else if c == '\t' {
        seq!['\\', 't']
    } else if (c as nat) < 32 || (c as nat) == 127 {
        hex_escape(c as nat)
    } else {
        seq![c]
    }
}

/// The first `n` characters as they are shown inside quotes.
pub open spec fn all_escaped(text: Seq<char>, n: int, quote: char) -> Seq<char>
    decreases n,
{
    if n <= 0 {
        Seq::empty()
    } else {
        all_escaped(text, n - 1, quote) + escaped(text[n - 1], quote)
    }
}

/// A string as it is shown in Python source.
pub open spec fn string_repr(text: Seq<char>) -> Seq<char> {
    let q = quote_of(text);
    seq![q] + all_escaped(text, text.len() as int, q) + seq![q]
}

/// A byte as it is shown inside quotes.
pub open spec fn byte_escaped(b: u8, quote: char) -> Seq<char> {
    if b < 128 {
        escaped(b as char, quote)
    } else {
        hex_escape(b as nat)
    }
}

/// The first `n` bytes as they are shown inside quotes.
pub open spec fn bytes_escaped(bytes: Seq<u8>, n: int, quote: char) -> Seq<char>
    decreases n,
{
    if n <= 0 {
        Seq::empty()
    } else {
        bytes_escaped(bytes, n - 1, quote) + byte_escaped(bytes[n - 1], quote)
    }
}

/// The quote bytes are shown in.
pub open spec fn byte_quote(bytes: Seq<u8>) -> char {
    if bytes.contains(39) && !bytes.contains(34) {
        '"'
    } else {
        '\''
    }
}

/// Bytes as they are shown in Python source.
pub open spec fn bytes_repr(bytes: Seq<u8>) -> Seq<char> {
    let q = byte_quote(bytes);
    seq!['b', q] + bytes_escaped(bytes, bytes.len() as int, q) + seq![q]
}

impl Builtins {
    /// The printed form of the builtin.
    pub open spec fn repr(self) -> Seq<char> {
        match self {
            Builtins::Function(b) => "<built-in function "@ + b.text() + ">"@,
            Builtins::ExcType(e) => "<class '"@ + e.text() + "'>"@,
            Builtins::Type(t) => "<class '"@ + t.text() + "'>"@,
        }
    }

    /// Writes the printed form of the builtin.
    pub fn py_repr_fmt(self, f: &mut String)
        ensures
            final(f)@ == old(f)@ + self.repr(),
    {
        let shown: String = match self {
            Builtins::Function(b) => "<built-in function ".to_owned().concat(b.name()).concat(">"),
            Builtins::ExcType(e) => "<class '".to_owned().concat(e.name()).concat("'>"),
            Builtins::Type(t) => "<class '".to_owned().concat(t.name()).concat("'>"),
        };
        f.append(shown.as_str());
    }
}

/// The printed form of a function.
pub open spec fn function_repr(interns: Interns, id: FunctionId) -> Seq<char> {
    if interns.has_function(id) {
        "<function "@ + interns.text(interns.function(id).name) + ">"@
    } else {
        "<function>"@
    }
}

/// The printed form of a host function.
pub open spec fn ext_function_repr(interns: Interns, id: ExtFunctionId) -> Seq<char> {
    if id.0 < interns.external_functions@.len() {
        "<function "@ + interns.external_functions@[id.0 as int]@ + ">"@
    } else {
        "<function>"@
    }
}

/// The printed form of a bound of a slice.
pub open spec fn bound_repr(bound: Option<i64>) -> Seq<char> {
    match bound {
        None => "None"@,
        Some(i) => int_text(i as int),
    }
}

/// The printed form of a range; a step of one is left out.
pub open spec fn range_repr(r: Range) -> Seq<char> {
    let ends = "range("@ + int_text(r.start as int) + ", "@ + int_text(r.stop as int);
    if r.step == 1 {
        ends + ")"@
    } else {
        ends + ", "@ + int_text(r.step as int) + ")"@
    }
}

/// The printed form of a slice.
pub open spec fn slice_repr(s: Slice) -> Seq<char> {
    "slice("@ + bound_repr(s.start) + ", "@ + bound_repr(s.stop) + ", "@ + bound_repr(s.step)
        + ")"@
}

/// The text of an exception; empty if it has none.
pub open spec fn exception_text(e: ExceptionView, interns: Interns) -> Seq<char> {
    match e.message {
        None => ""@,
        Some(m) => m.text(interns),
    }
}

/// The printed form of an exception.
pub open spec fn exception_repr(e: ExceptionView, interns: Interns) -> Seq<char> {
    match e.message {
        None => e.exc_type.text() + "()"@,
        Some(m) => e.exc_type.text() + "("@ + string_repr(m.text(interns)) + ")"@,
    }
}

/// The printed form of a value.
///
/// `seen` are the containers that are being printed around the value; one of them is not
/// printed again. `room` is how many levels of nesting are still printed.
pub open spec fn repr<T>(
    h: HeapView<T>,
    interns: Interns,
    v: Value,
    seen: Set<usize>,
    room: nat,
) -> Seq<char>
    decreases room, 1int, 0int,
{
    match v {
        Value::Undefined => "Undefined"@,
        Value::Ellipsis => "Ellipsis"@,
        Value::PyNone => "None"@,
        Value::Bool(b) => if b {
            "True"@
        } else {
            "False"@
        },
        Value::Int(i) => int_text(i as int),
        Value::InternString(id) => string_repr(interns.text(id)),
        Value::InternBytes(id) => bytes_repr(interns.bytes_text(id)),
        Value::InternLongInt(id) => int_text(interns.long_int(id)),
        Value::Builtin(b) => b.repr(),
        Value::ModuleFunction(_) => "<built-in function>"@,
        Value::DefFunction(id) => function_repr(interns, id),
        Value::ExtFunction(id) => ext_function_repr(interns, id),
        Value::ExternalFuture(id) => "<coroutine external_future("@ + decimal(id.0 as nat) + ")>"@,
        Value::Ref(id) => match h.data(id) {
            None => "None"@,
            Some(DataView::List(l)) => if seen.contains(id.0) {
                "[...]"@
            } else {
                sequence_repr(h, interns, '[', ']', l.items, seen.insert(id.0), room)
            },
            Some(DataView::Tuple(items)) => if seen.contains(id.0) {
                "(...)"@
            } else if items.len() == 1 {
                if room == 0 {
                    "..."@
                } else {
                    "("@ + repr(h, interns, items[0], seen.insert(id.0), (room - 1) as nat) + ",)"@
                }
            } else {
                sequence_repr(h, interns, '(', ')', items, seen.insert(id.0), room)
            },
            Some(DataView::PySet(items)) => if seen.contains(id.0) {
                "{...}"@
            } else if items.len() == 0 {
                "set()"@
            } else {
                sequence_repr(h, interns, '{', '}', items, seen.insert(id.0), room)
            },
            Some(DataView::Dict(pairs)) => if seen.contains(id.0) {
                "{...}"@
            } else if room == 0 {
                "..."@
            } else {
                "{"@ + joined_pairs(
                    h,
                    interns,
                    pairs,
                    pairs.len() as int,
                    seen.insert(id.0),
                    (room - 1) as nat,
                ) + "}"@
            },
            Some(DataView::Str(s)) => string_repr(s),
            Some(DataView::Bytes(b)) => bytes_repr(b),
            Some(DataView::Range(r)) => range_repr(r),
            Some(DataView::Slice(s)) => slice_repr(s),
            Some(DataView::LongInt(i)) => int_text(i),
            Some(DataView::Exception(e)) => exception_repr(e, interns),
            Some(DataView::Cell(_)) => "<cell>"@,
            Some(DataView::Closure(f, _, _)) => function_repr(interns, f),
            Some(DataView::FunctionDefaults(f, _)) => function_repr(interns, f),
            Some(DataView::Coroutine(_)) => "<coroutine object>"@,
            Some(DataView::GatherFuture(_)) => "<_GatheringFuture>"@,
        },
    }
}

/// The printed form of a sequence between two brackets; dots if there is no room for it.
pub open spec fn sequence_repr<T>(
    h: HeapView<T>,
    interns: Interns,
    start: char,
    end: char,
    items: Seq<Value>,
    seen: Set<usize>,
    room: nat,
) -> Seq<char>
    decreases room, 0int, 0int,
{
    if room == 0 {
        "..."@
    } else {
        seq![start] + joined(h, interns, items, items.len() as int, seen, (room - 1) as nat)
            + seq![end]
    }
}

/// The printed forms of the first `n` items, separated by commas.
pub open spec fn joined<T>(
    h: HeapView<T>,
    interns: Interns,
    items: Seq<Value>,
    n: int,
    seen: Set<usize>,
    room: nat,
) -> Seq<char>
    decreases room, 2int, n,
{
    if n <= 0 {
        Seq::empty()
    } else if n == 1 {
        repr(h, interns, items[0], seen, room)
    } else {
        joined(h, interns, items, n - 1, seen, room) + ", "@ + repr(
            h,
            interns,
            items[n - 1],
            seen,
            room,
        )
    }
}

/// The printed forms of the first `n` entries, separated by commas.
pub open spec fn joined_pairs<T>(
    h: HeapView<T>,
    interns: Interns,
    pairs: Seq<(Value, Value)>,
    n: int,
    seen: Set<usize>,
    room: nat,
) -> Seq<char>
    decreases room, 2int, n,
{
    if n <= 0 {
        Seq::empty()
    } else {
        let before = if n == 1 {
            Seq::empty()
        } else {
            joined_pairs(h, interns, pairs, n - 1, seen, room) + ", "@
        };
        before + repr(h, interns, pairs[n - 1].0, seen, room) + ": "@ + repr(
            h,
            interns,
            pairs[n - 1].1,
            seen,
            room,
        )
    }
}

/// What `str` makes of a value: strings and the texts of exceptions as they are, everything
/// else as it is printed.
pub open spec fn str_of<T>(h: HeapView<T>, interns: Interns, v: Value, room: nat) -> Seq<char> {
    match v {
        Value::InternString(id) => interns.text(id),
        Value::Ref(id) => match h.data(id) {
            Some(DataView::Str(s)) => s,
            Some(DataView::Exception(e)) => exception_text(e, interns),
            _ => repr(h, interns, v, Set::empty(), room),
        },
        _ => repr(h, interns, v, Set::empty(), room),
    }
}

fn hex_digit(d: u8) -> (r: char)
    requires
        d < 16,
    ensures
        r == hex_char(d as nat),
{
    match d {
        0 => '0',
        1 => '1',
        2 => '2',
        3 => '3',
        4 => '4',
        5 => '5',
        6 => '6',
        7 => '7',
        8 => '8',
        9 => '9',
        10 => 'a',
        11 => 'b',
        12 => 'c',
        13 => 'd',
        14 => 'e',
        _ => 'f',
    }
}

fn push_hex(f: &mut String, code: u8)
    ensures
        final(f)@ == old(f)@ + hex_escape(code as nat),
{
    f.push('\\');
    f.push('x');
    f.push(hex_digit(code / 16));
    f.push(hex_digit(code % 16));
    assert(f@ =~= old(f)@ + hex_escape(code as nat));
}

fn push_escaped(f: &mut String, c: char, quote: char)
    ensures
        final(f)@ == old(f)@ + escaped(c, quote),
{
    if c == '\\' || c == quote {
        f.push('\\');
        f.push(c);
    } else if c == '\n' {
        f.push('\\');
        f.push('n');
    } else if c == '\r' {
        f.push('\\');
        f.push('r');
    } else if c == '\t' {
        f.push('\\');
        f.push('t');
    } else {
        let code: u32 = c as u32;
        if code < 32 || code == 127 {
            push_hex(f, code as u8);
        } else {
            f.push(c);
        }
    }
    assert(f@ =~= old(f)@ + escaped(c, quote));
}

fn has_char(chars: &Vec<char>, c: char) -> (r: bool)
    ensures
        r == chars@.contains(c),
{
    let mut i: usize = 0;
    while i < chars.len()
        invariant
            0 <= i <= chars@.len(),
            forall|j: int| 0 <= j < i ==> chars@[j] != c,
        decreases chars@.len() - i,
    {
        if chars[i] == c {
            return true;
        }
        i = i + 1;
    }
    false
}

fn has_byte(bytes: &Vec<u8>, b: u8) -> (r: bool)
    ensures
        r == bytes@.contains(b),
{
    let mut i: usize = 0;
    while i < bytes.len()
        invariant
            0 <= i <= bytes@.len(),
            forall|j: int| 0 <= j < i ==> bytes@[j] != b,
        decreases bytes@.len() - i,
    {
        if bytes[i] == b {
            return true;
        }
        i = i + 1;
    }
    false
}

/// Writes a string as it is shown in Python source.
pub fn string_repr_fmt(text: &str, f: &mut String)
    ensures
        final(f)@ == old(f)@ + string_repr(text@),
{
    let chars: Vec<char> = chars_of(text);
    let quote: char = if has_char(&chars, '\'') && !has_char(&chars, '"') {
        '"'
    } else {
        '\''
    };
    let ghost start = f@;
    f.push(quote);
    let mut i: usize = 0;
    assert(f@ =~= start + (seq![quote] + all_escaped(chars@, 0, quote)));
    while i < chars.len()
        invariant
            0 <= i <= chars@.len(),
            f@ == start + (seq![quote] + all_escaped(chars@, i as int, quote)),
        decreases chars@.len() - i,
    {
        push_escaped(f, chars[i], quote);
        i = i + 1;
        assert(f@ =~= start + (seq![quote] + all_escaped(chars@, i as int, quote)));
    }
    f.push(quote);
    assert(f@ =~= start + string_repr(text@));
}

/// Writes bytes as they are shown in Python source.
pub fn bytes_repr_fmt(bytes: &Vec<u8>, f: &mut String)
    ensures
        final(f)@ == old(f)@ + bytes_repr(bytes@),
{
    let quote: char = if has_byte(bytes, 39) && !has_byte(bytes, 34) {
        '"'
    } else {
        '\''
    };
    let ghost start = f@;
    f.push('b');
    f.push(quote);
    let mut i: usize = 0;
    assert(f@ =~= start + (seq!['b', quote] + bytes_escaped(bytes@, 0, quote)));
    while i < bytes.len()
        invariant
            0 <= i <= bytes@.len(),
            f@ == start + (seq!['b', quote] + bytes_escaped(bytes@, i as int, quote)),
        decreases bytes@.len() - i,
    {
        let b: u8 = bytes[i];
        if b < 128 {
            push_escaped(f, b as char, quote);
        } else {
            push_hex(f, b);
        }
        i = i + 1;
        assert(f@ =~= start + (seq!['b', quote] + bytes_escaped(bytes@, i as int, quote)));
    }
    f.push(quote);
    assert(f@ =~= start + bytes_repr(bytes@));
}

fn function_text(interns: &Interns, id: FunctionId) -> (r: String)
    ensures
        r@ == function_repr(*interns, id),
{
    if id.0 < interns.functions.len() {
        let name: &str = interns.get_str(interns.functions[id.0].name);
        "<function ".to_owned().concat(name).concat(">")
    } else {
        "<function>".to_owned()
    }
}

fn ext_function_text(interns: &Interns, id: ExtFunctionId) -> (r: String)
    ensures
        r@ == ext_function_repr(*interns, id),
{
    if id.0 < interns.external_functions.len() {
        "<function ".to_owned().concat(interns.external_functions[id.0].as_str()).concat(">")
    } else {
        "<function>".to_owned()
    }
}

fn bound_text(bound: Option<i64>) -> (r: String)
    ensures
        r@ == bound_repr(bound),
{
    match bound {
        None => "None".to_owned(),
        Some(i) => i64_text(i),
    }
}

fn range_text(r: &Range) -> (s: String)
    ensures
        s@ == range_repr(*r),
{
    let ends: String = "range(".to_owned().concat(i64_text(r.start).as_str()).concat(", ").concat(
        i64_text(r.stop).as_str(),
    );
    if r.step == 1 {
        ends.concat(")")
    } else {
        ends.concat(", ").concat(i64_text(r.step).as_str()).concat(")")
    }
}

fn slice_text(s: &Slice) -> (r: String)
    ensures
        r@ == slice_repr(*s),
{
    "slice(".to_owned().concat(bound_text(s.start).as_str()).concat(", ").concat(
        bound_text(s.stop).as_str(),
    ).concat(", ").concat(bound_text(s.step).as_str()).concat(")")
}

impl SimpleException {
    /// The text of the exception; empty if it has none.
    pub fn to_text(&self, interns: &Interns) -> (r: String)
        ensures
            r@ == exception_text(self@, *interns),
    {
        match &self.message {
            None => "".to_owned(),
            Some(m) => m.to_text(interns),
        }
    }

    /// The printed form of the exception.
    pub fn to_repr(&self, interns: &Interns) -> (r: String)
        ensures
            r@ == exception_repr(self@, *interns),
    {
        match &self.message {
            None => self.exc_type.name().to_owned().concat("()"),
            Some(m) => {
                let mut out: String = self.exc_type.name().to_owned().concat("(");
                string_repr_fmt(m.to_text(interns).as_str(), &mut out);
                out.concat(")")
            },
        }
    }
}

impl Value {
    /// Writes the printed form of the value.
    pub fn py_repr_fmt<T>(
        &self,
        f: &mut String,
        heap: &Heap<T>,
        heap_ids: &mut AHashSet<usize>,
        guard: &mut DepthGuard,
        interns: &Interns,
    )
        ensures
            final(f)@ == old(f)@ + repr(
                heap@,
                *interns,
                *self,
                set_items(*old(heap_ids)),
                old(guard).room(),
            ),
            set_items(*final(heap_ids)) == set_items(*old(heap_ids)),
            *final(guard) == *old(guard),
        decreases old(guard).room(), 3int,
    {
        match *self {
            Value::Undefined => f.append("Undefined"),
            Value::Ellipsis => f.append("Ellipsis"),
            Value::PyNone => f.append("None"),
            Value::Bool(b) => if b {
                f.append("True")
            } else {
                f.append("False")
            },
            Value::Int(i) => f.append(i64_text(i).as_str()),
            Value::InternString(id) => string_repr_fmt(interns.get_str(id), f),
            Value::InternBytes(id) => bytes_repr_fmt(&interns.get_bytes(id), f),
            Value::InternLongInt(id) => f.append(interns.get_long_int(id).to_text().as_str()),
            Value::Builtin(b) => b.py_repr_fmt(f),
            Value::ModuleFunction(_) => f.append("<built-in function>"),
            Value::DefFunction(id) => f.append(function_text(interns, id).as_str()),
            Value::ExtFunction(id) => f.append(ext_function_text(interns, id).as_str()),
            Value::ExternalFuture(id) => {
                let shown: String = "<coroutine external_future(".to_owned().concat(
                    number_text(id.0 as u64).as_str(),
                ).concat(")>");
                f.append(shown.as_str());
            },
            Value::Ref(id) => match heap.get(id) {
                None => f.append("None"),
                Some(HeapData::Str(s)) => string_repr_fmt(s.as_str(), f),
                Some(HeapData::Bytes(b)) => bytes_repr_fmt(b, f),
                Some(HeapData::Range(r)) => f.append(range_text(r).as_str()),
                Some(HeapData::Slice(s)) => f.append(slice_text(s).as_str()),
                Some(HeapData::LongInt(i)) => f.append(i.to_text().as_str()),
                Some(HeapData::Exception(e)) => f.append(e.to_repr(interns).as_str()),
                Some(HeapData::Cell(_)) => f.append("<cell>"),
                Some(HeapData::Closure(func, _, _)) => f.append(
                    function_text(interns, *func).as_str(),
                ),
                Some(HeapData::FunctionDefaults(func, _)) => f.append(
                    function_text(interns, *func).as_str(),
                ),
                Some(HeapData::Coroutine(_)) => f.append("<coroutine object>"),
                Some(HeapData::GatherFuture(_)) => f.append("<_GatheringFuture>"),
                Some(data) => container_repr_fmt(id, data, f, heap, heap_ids, guard, interns),
            },
        }
    }

    /// What `str` makes of the value.
    pub fn py_str<T>(&self, heap: &Heap<T>, guard: &mut DepthGuard, interns: &Interns) -> (r: String)
        ensures
            r@ == str_of(heap@, *interns, *self, old(guard).room()),
            *final(guard) == *old(guard),
    {
        match *self {
            Value::InternString(id) => {
                return interns.get_str(id).to_owned();
            },
            Value::Ref(id) => match heap.get(id) {
                Some(HeapData::Str(s)) => {
                    return s.clone();
                },
                Some(HeapData::Exception(e)) => {
                    return e.to_text(interns);
                },
                _ => {},
            },
            _ => {},
        }
        let mut out: String = String::new();
        let mut ids: AHashSet<usize> = new_set();
        self.py_repr_fmt(&mut out, heap, &mut ids, guard, interns);
        assert(out@ =~= str_of(heap@, *interns, *self, old(guard).room()));
        out
    }
}

/// Writes the printed form of a list, tuple, set or dict.
fn container_repr_fmt<T>(
    id: HeapId,
    data: &HeapData,
    f: &mut String,
    heap: &Heap<T>,
    heap_ids: &mut AHashSet<usize>,
    guard: &mut DepthGuard,
    interns: &Interns,
)
    requires
        heap@.data(id) == Some(data@),
        data@ is List || data@ is Tuple || data@ is PySet || data@ is Dict,
    ensures
        final(f)@ == old(f)@ + repr(
            heap@,
            *interns,
            Value::Ref(id),
            set_items(*old(heap_ids)),
            old(guard).room(),
        ),
        set_items(*final(heap_ids)) == set_items(*old(heap_ids)),
        *final(guard) == *old(guard),
    decreases old(guard).room(), 2int,
{
    let ghost seen = set_items(*heap_ids);
    let ghost start = f@;
    let ghost said = repr(heap@, *interns, Value::Ref(id), seen, guard.room());
    if !set_insert(heap_ids, id.0) {
        assert(set_items(*heap_ids) =~= seen);
        match data {
            HeapData::List(_) => f.append("[...]"),
            HeapData::Tuple(_) => f.append("(...)"),
            _ => f.append("{...}"),
        }
        return;
    }
    match data {
        HeapData::List(l) => {
            l.py_repr_fmt(f, heap, heap_ids, guard, interns);
        },
        HeapData::Tuple(t) => if t.items.len() == 1 {
            if guard.increase() {
                f.append("(");
                t.items[0].py_repr_fmt(f, heap, heap_ids, guard, interns);
                f.append(",)");
                guard.decrease();
                assert(f@ =~= start + said);
            } else {
                f.append("...");
            }
        } else {
            repr_sequence_fmt('(', ')', t.items.as_slice(), f, heap, heap_ids, guard, interns);
        },
        HeapData::PySet(s) => if s.items.len() == 0 {
            f.append("set()");
        } else {
            repr_sequence_fmt('{', '}', s.items.as_slice(), f, heap, heap_ids, guard, interns);
        },
        HeapData::Dict(d) => if guard.increase() {
            let ghost room = guard.room();
            let ghost inner = seen.insert(id.0);
            let ghost entered = *guard;
            f.append("{");
            let mut i: usize = 0;
            assert(f@ =~= start + ("{"@ + joined_pairs(
                heap@,
                *interns,
                d.entries@,
                0,
                inner,
                room,
            )));
            while i < d.entries.len()
                invariant
                    0 <= i <= d.entries@.len(),
                    *guard == entered,
                    room == entered.room(),
                    old(guard).room() == room + 1,
                    set_items(*heap_ids) == inner,
                    f@ == start + ("{"@ + joined_pairs(
                        heap@,
                        *interns,
                        d.entries@,
                        i as int,
                        inner,
                        room,
                    )),
                decreases d.entries@.len() - i,
            {
                let (key, value): (Value, Value) = d.entries[i];
                if i > 0 {
                    f.append(", ");
                }
                key.py_repr_fmt(f, heap, heap_ids, guard, interns);
                f.append(": ");
                value.py_repr_fmt(f, heap, heap_ids, guard, interns);
                i = i + 1;
                assert(f@ =~= start + ("{"@ + joined_pairs(
                    heap@,
                    *interns,
                    d.entries@,
                    i as int,
                    inner,
                    room,
                )));
            }
            f.append("}");
            guard.decrease();
            assert(f@ =~= start + said);
        } else {
            f.append("...");
        },
        _ => {},
    }
    let _ = set_remove(heap_ids, id.0);
    assert(set_items(*heap_ids) =~= seen);
}

/// Writes the printed form of a sequence between two brackets.
pub fn repr_sequence_fmt<T>(
    start: char,
    end: char,
    items: &[Value],
    f: &mut String,
    heap: &Heap<T>,
    heap_ids: &mut AHashSet<usize>,
    guard: &mut DepthGuard,
    interns: &Interns,
)
    ensures
        final(f)@ == old(f)@ + sequence_repr(
            heap@,
            *interns,
            start,
            end,
            items@,
            set_items(*old(heap_ids)),
            old(guard).room(),
        ),
        set_items(*final(heap_ids)) == set_items(*old(heap_ids)),
        *final(guard) == *old(guard),
    decreases old(guard).room(), 0int,
{
    if !guard.increase() {
        f.append("...");
        return;
    }
    let ghost before = f@;
    let ghost room = guard.room();
    let ghost seen = set_items(*heap_ids);
    let ghost entered = *guard;
    f.push(start);
    let mut i: usize = 0;
    assert(f@ =~= before + (seq![start] + joined(heap@, *interns, items@, 0, seen, room)));
    while i < items.len()
        invariant
            0 <= i <= items@.len(),
            *guard == entered,
            room == entered.room(),
            old(guard).room() == room + 1,
            set_items(*heap_ids) == seen,
            f@ == before + (seq![start] + joined(heap@, *interns, items@, i as int, seen, room)),
        decreases items@.len() - i,
    {
        if i > 0 {
            f.append(", ");
        }
        items[i].py_repr_fmt(f, heap, heap_ids, guard, interns);
        i = i + 1;
        assert(f@ =~= before + (seq![start] + joined(
            heap@,
            *interns,
            items@,
            i as int,
            seen,
            room,
        )));
    }
    f.push(end);
    guard.decrease();
    assert(f@ =~= before + sequence_repr(heap@, *interns, start, end, items@, seen, room + 1));
}

} // verus!
