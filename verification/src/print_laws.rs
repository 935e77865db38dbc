//! What printed text looks like, and what `print` prints.

use vstd::prelude::*;
use crate::args::ArgsView;
use crate::equality_laws::{is_integer, is_text};
use crate::error_results::says;
use crate::heap::{DataView, HeapView};
use crate::ids::{HeapId, StringId};
use crate::interns::Interns;
use crate::list_results::raises;
use crate::print::{
    print_called, print_options, printed_values, text_or, CollectStringPrint,
};
use crate::repr::{
    all_escaped, escaped, joined, joined_pairs, quote_of, repr, sequence_repr, str_of,
    string_repr,
};
use crate::resource::MAX_DATA_DEPTH;
use crate::text::{decimal, int_text};
use crate::types::ExcType;
use crate::value::Value;

verus! {

/// Texts one after the other with a separator between them.
pub open spec fn join(parts: Seq<Seq<char>>, sep: Seq<char>) -> Seq<char>
    decreases parts.len(),
{
    if parts.len() == 0 {
        Seq::empty()
    } else if parts.len() == 1 {
        parts[0]
    } else {
        join(parts.drop_last(), sep) + sep + parts.last()
    }
}

/// The number that decimal digits stand for.
pub open spec fn digits_value(digits: Seq<char>) -> int
    decreases digits.len(),
{
    if digits.len() == 0 {
        0
    } else {
        10 * digits_value(digits.drop_last()) + (digits.last() as int - '0' as int)
    }
}

/// The decimal notation of a number consists of digits that stand for it, without a zero in
/// front.
pub proof fn decimal_stands_for_the_number(n: nat)
    ensures
        decimal(n).len() > 0,
        digits_value(decimal(n)) == n,
        forall|i: int|
            0 <= i < decimal(n).len() ==> '0' as int <= (#[trigger] decimal(n)[i]) as int
                <= '9' as int,
        n > 0 ==> decimal(n)[0] != '0',
    decreases n,
{
    reveal_with_fuel(digits_value, 2);
    if n >= 10 {
        decimal_stands_for_the_number(n / 10);
        let rest = decimal(n / 10);
        assert(decimal(n).drop_last() =~= rest);
    } else {
        assert(decimal(n).drop_last() =~= Seq::empty());
    }
}

/// A negative number has a minus sign before its digits.
pub proof fn minus_sign_comes_first(i: int)
    ensures
        i >= 0 ==> int_text(i) == decimal(i as nat),
        i < 0 ==> int_text(i).len() > 0 && int_text(i)[0] == '-' && int_text(i).skip(1) == decimal(
            (-i) as nat,
        ),
{
    if i < 0 {
        assert(int_text(i).skip(1) =~= decimal((-i) as nat));
    }
}

/// A string is printed as it is, an integer in decimal notation, and `None`, `True` and `False`
/// by their names.
pub proof fn plain_values_are_printed<T>(
    h: HeapView<T>,
    interns: Interns,
    v: Value,
    text: Seq<char>,
    i: int,
    room: nat,
)
    ensures
        is_text(h, interns, v, text) ==> str_of(h, interns, v, room) == text,
        is_integer(h, interns, v, i) && !(v is Bool) ==> str_of(h, interns, v, room) == int_text(i)
            && forall|seen: Set<usize>| #[trigger] repr(h, interns, v, seen, room) == int_text(i),
        v is PyNone ==> str_of(h, interns, v, room) == "None"@,
        v == Value::Bool(true) ==> str_of(h, interns, v, room) == "True"@,
        v == Value::Bool(false) ==> str_of(h, interns, v, room) == "False"@,
        v is Ellipsis ==> str_of(h, interns, v, room) == "Ellipsis"@,
{
}

proof fn joined_is_join<T>(
    h: HeapView<T>,
    interns: Interns,
    items: Seq<Value>,
    parts: Seq<Seq<char>>,
    n: int,
    seen: Set<usize>,
    room: nat,
)
    requires
        0 <= n <= items.len(),
        parts.len() == items.len(),
        forall|i: int|
            0 <= i < items.len() ==> (#[trigger] parts[i]) == repr(
                h,
                interns,
                items[i],
                seen,
                room,
            ),
    ensures
        joined(h, interns, items, n, seen, room) == join(parts.take(n), ", "@),
    decreases n,
{
    if n > 1 {
        joined_is_join(h, interns, items, parts, n - 1, seen, room);
        assert(parts.take(n).drop_last() =~= parts.take(n - 1));
        assert(parts.take(n).last() == parts[n - 1]);
    } else if n == 1 {
        assert(parts.take(1)[0] == parts[0]);
    }
}

/// A list is shown as its items in brackets, a tuple in parentheses and a set in braces, with
/// commas between them. A tuple of one item has a comma behind it, and an empty set is `set()`.
pub proof fn sequences_are_shown<T>(
    h: HeapView<T>,
    interns: Interns,
    id: HeapId,
    items: Seq<Value>,
    parts: Seq<Seq<char>>,
    seen: Set<usize>,
    room: nat,
)
    requires
        room > 0,
        !seen.contains(id.0),
        parts.len() == items.len(),
        forall|i: int|
            0 <= i < items.len() ==> (#[trigger] parts[i]) == repr(
                h,
                interns,
                items[i],
                seen.insert(id.0),
                (room - 1) as nat,
            ),
    ensures
        ({
            let shown = repr(h, interns, Value::Ref(id), seen, room);
            let inside = join(parts, ", "@);
            &&& (h.data(id) matches Some(DataView::List(l)) && l.items == items) ==> shown
                == seq!['['] + inside + seq![']']
            &&& h.data(id) == Some(DataView::Tuple(items)) && items.len() != 1 ==> shown
                == seq!['('] + inside + seq![')']
            &&& h.data(id) == Some(DataView::Tuple(items)) && items.len() == 1 ==> shown
                == seq!['('] + parts[0] + seq![',', ')']
            &&& h.data(id) == Some(DataView::PySet(items)) && items.len() != 0 ==> shown
                == seq!['{'] + inside + seq!['}']
            &&& h.data(id) == Some(DataView::PySet(items)) && items.len() == 0 ==> shown
                == "set()"@
        }),
{
    joined_is_join(
        h,
        interns,
        items,
        parts,
        items.len() as int,
        seen.insert(id.0),
        (room - 1) as nat,
    );
    assert(parts.take(items.len() as int) =~= parts);
    reveal_with_fuel(repr, 2);
    reveal_with_fuel(sequence_repr, 2);
    if h.data(id) == Some(DataView::Tuple(items)) && items.len() == 1 {
        reveal_strlit("(");
        reveal_strlit(",)");
        assert("("@ =~= seq!['(']);
        assert(",)"@ =~= seq![',', ')']);
        assert(parts[0] == repr(h, interns, items[0], seen.insert(id.0), (room - 1) as nat));
    }
}

/// A container is not shown again inside itself.
pub proof fn containers_are_shown_once<T>(
    h: HeapView<T>,
    interns: Interns,
    id: HeapId,
    seen: Set<usize>,
    room: nat,
)
    requires
        seen.contains(id.0),
    ensures
        h.data(id) matches Some(DataView::List(_)) ==> repr(h, interns, Value::Ref(id), seen, room)
            == "[...]"@,
        h.data(id) matches Some(DataView::Tuple(_)) ==> repr(h, interns, Value::Ref(id), seen, room)
            == "(...)"@,
        h.data(id) matches Some(DataView::Dict(_)) ==> repr(h, interns, Value::Ref(id), seen, room)
            == "{...}"@,
        h.data(id) matches Some(DataView::PySet(_)) ==> repr(h, interns, Value::Ref(id), seen, room)
            == "{...}"@,
{
}

proof fn joined_pairs_is_join<T>(
    h: HeapView<T>,
    interns: Interns,
    pairs: Seq<(Value, Value)>,
    parts: Seq<Seq<char>>,
    n: int,
    seen: Set<usize>,
    room: nat,
)
    requires
        0 <= n <= pairs.len(),
        parts.len() == pairs.len(),
        forall|i: int|
            0 <= i < pairs.len() ==> (#[trigger] parts[i]) == repr(
                h,
                interns,
                pairs[i].0,
                seen,
                room,
            ) + seq![':', ' '] + repr(h, interns, pairs[i].1, seen, room),
    ensures
        joined_pairs(h, interns, pairs, n, seen, room) == join(parts.take(n), ", "@),
    decreases n,
{
    reveal_strlit(": ");
    assert(": "@ =~= seq![':', ' ']);
    if n > 1 {
        joined_pairs_is_join(h, interns, pairs, parts, n - 1, seen, room);
        assert(parts.take(n).drop_last() =~= parts.take(n - 1));
        assert(parts.take(n).last() == parts[n - 1]);
        assert(joined_pairs(h, interns, pairs, n, seen, room) =~= join(parts.take(n), ", "@));
    } else if n == 1 {
        assert(parts.take(1)[0] == parts[0]);
        assert(joined_pairs(h, interns, pairs, n, seen, room) =~= parts[0]);
    }
}

/// A dict is shown as its entries in braces, each as its key, a colon and its value.
pub proof fn dicts_are_shown<T>(
    h: HeapView<T>,
    interns: Interns,
    id: HeapId,
    pairs: Seq<(Value, Value)>,
    parts: Seq<Seq<char>>,
    seen: Set<usize>,
    room: nat,
)
    requires
        room > 0,
        !seen.contains(id.0),
        h.data(id) == Some(DataView::Dict(pairs)),
        parts.len() == pairs.len(),
        forall|i: int|
            0 <= i < pairs.len() ==> (#[trigger] parts[i]) == repr(
                h,
                interns,
                pairs[i].0,
                seen.insert(id.0),
                (room - 1) as nat,
            ) + seq![':', ' '] + repr(
                h,
                interns,
                pairs[i].1,
                seen.insert(id.0),
                (room - 1) as nat,
            ),
    ensures
        repr(h, interns, Value::Ref(id), seen, room) == seq!['{'] + join(parts, ", "@) + seq!['}'],
{
    joined_pairs_is_join(
        h,
        interns,
        pairs,
        parts,
        pairs.len() as int,
        seen.insert(id.0),
        (room - 1) as nat,
    );
    assert(parts.take(pairs.len() as int) =~= parts);
    reveal_strlit("{");
    reveal_strlit("}");
    assert("{"@ =~= seq!['{']);
    assert("}"@ =~= seq!['}']);
}

/// Inside a container a string is shown in quotes; text without quotes, backslashes and control
/// characters stands between single quotes as it is.
pub proof fn plain_text_is_quoted(text: Seq<char>)
    requires
        forall|i: int|
            0 <= i < text.len() ==> (#[trigger] text[i]) != '\\' && text[i] != '\'' && text[i]
                as nat >= 32 && text[i] as nat != 127,
    ensures
        string_repr(text) == seq!['\''] + text + seq!['\''],
{
    unchanged_text(text, text.len() as int);
    assert(text.take(text.len() as int) =~= text);
}

proof fn unchanged_text(text: Seq<char>, n: int)
    requires
        0 <= n <= text.len(),
        forall|i: int|
            0 <= i < text.len() ==> (#[trigger] text[i]) != '\\' && text[i] != '\'' && text[i]
                as nat >= 32 && text[i] as nat != 127,
    ensures
        all_escaped(text, n, '\'') == text.take(n),
    decreases n,
{
    if n > 0 {
        unchanged_text(text, n - 1);
        assert(text.take(n) =~= text.take(n - 1) + seq![text[n - 1]]);
    }
}

/// Text with single quotes and no double quotes is shown in double quotes; otherwise single
/// quotes are used, and those inside are escaped, as are backslashes, line breaks and tabs.
pub proof fn quotes_and_escapes(text: Seq<char>, c: char, quote: char)
    ensures
        text.contains('\'') && !text.contains('"') ==> quote_of(text) == '"',
        !text.contains('\'') || text.contains('"') ==> quote_of(text) == '\'',
        string_repr(text).len() >= 2,
        string_repr(text)[0] == quote_of(text),
        string_repr(text).last() == quote_of(text),
        escaped('\\', quote) == seq!['\\', '\\'],
        escaped(quote, quote) == seq!['\\', quote],
        quote != '\n' && quote != '\\' ==> escaped('\n', quote) == seq!['\\', 'n'],
        quote != '\r' && quote != '\\' ==> escaped('\r', quote) == seq!['\\', 'r'],
        quote != '\t' && quote != '\\' ==> escaped('\t', quote) == seq!['\\', 't'],
        c as nat >= 32 && c as nat != 127 && c != '\\' && c != quote ==> escaped(c, quote)
            == seq![c],
{
}

/// Each character of a text is shown in its turn.
pub proof fn characters_are_escaped_in_turn(text: Seq<char>, n: int, quote: char)
    requires
        0 <= n < text.len(),
    ensures
        all_escaped(text, n + 1, quote) == all_escaped(text, n, quote) + escaped(text[n], quote),
        all_escaped(text, 0, quote).len() == 0,
{
}

proof fn printed_in_turn<T>(
    state: Seq<char>,
    h: HeapView<T>,
    interns: Interns,
    sep: Seq<char>,
    values: Seq<Value>,
    parts: Seq<Seq<char>>,
    n: int,
)
    requires
        0 <= n <= values.len(),
        parts.len() == values.len(),
        forall|i: int| 0 <= i < values.len() ==> !((#[trigger] values[i]) is Ref),
        forall|i: int|
            0 <= i < values.len() ==> (#[trigger] parts[i]) == str_of(
                h,
                interns,
                values[i],
                MAX_DATA_DEPTH as nat,
            ),
    ensures
        ({
            let done = printed_values::<CollectStringPrint, T>(state, h, interns, sep, values, n);
            &&& done.result is Ok
            &&& done.heap == h
            &&& done.state == state + join(parts.take(n), sep)
        }),
    decreases n,
{
    if n > 0 {
        printed_in_turn(state, h, interns, sep, values, parts, n - 1);
        assert(!(values[n - 1] is Ref));
        assert(parts.take(n).drop_last() =~= parts.take(n - 1));
        assert(parts.take(n).last() == parts[n - 1]);
        let done = printed_values::<CollectStringPrint, T>(state, h, interns, sep, values, n);
        if n == 1 {
            assert(parts.take(0) =~= Seq::empty());
            assert(done.state =~= state + join(parts.take(n), sep));
        } else {
            assert(done.state =~= state + join(parts.take(n), sep));
        }
    } else {
        assert(parts.take(0) =~= Seq::empty());
        assert(state + join(parts.take(0), sep) =~= state);
    }
}

/// What keyword arguments of `print` set.
pub open spec fn sets_options<T>(
    h: HeapView<T>,
    interns: Interns,
    pairs: Seq<(Value, Value)>,
    sep: Seq<char>,
    end: Seq<char>,
) -> bool {
    ||| pairs.len() == 0 && sep == seq![' '] && end == seq!['\n']
    ||| pairs.len() == 1 && is_text(h, interns, pairs[0].0, "sep"@) && is_text(
        h,
        interns,
        pairs[0].1,
        sep,
    ) && end == seq!['\n']
    ||| pairs.len() == 1 && is_text(h, interns, pairs[0].0, "end"@) && is_text(
        h,
        interns,
        pairs[0].1,
        end,
    ) && sep == seq![' ']
}

proof fn option_names_differ()
    ensures
        "sep"@ != "end"@,
        "sep"@ != "flush"@,
        "sep"@ != "file"@,
        "end"@ != "flush"@,
        "end"@ != "file"@,
        "flush"@ != "file"@,
{
    reveal_strlit("sep");
    reveal_strlit("end");
    reveal_strlit("flush");
    reveal_strlit("file");
    assert("sep"@[0] != "end"@[0]);
    assert("flush"@[1] != "file"@[1]);
    assert("sep"@.len() != "flush"@.len() && "sep"@.len() != "file"@.len());
    assert("end"@.len() != "flush"@.len() && "end"@.len() != "file"@.len());
}

proof fn options_are_read<T>(
    h: HeapView<T>,
    interns: Interns,
    pairs: Seq<(Value, Value)>,
    sep: Seq<char>,
    end: Seq<char>,
)
    requires
        sets_options(h, interns, pairs, sep, end),
    ensures
        ({
            let read = print_options(h, interns, pairs, pairs.len() as int);
            &&& read.error is None
            &&& text_or(read.sep, seq![' ']) == sep
            &&& text_or(read.end, seq!['\n']) == end
            &&& pairs.len() == 0 ==> read.heap == h
            &&& pairs.len() == 1 ==> read.heap == h.release(pairs[0].0).release(pairs[0].1)
        }),
{
    option_names_differ();
    reveal_with_fuel(print_options, 2);
}

/// `print` writes the values with a space, or the text given as `sep`, between them, and a line
/// break, or the text given as `end`, behind them. The texts may be literals or objects.
///
/// The values are such that nothing in the heap has to be looked at for them.
pub proof fn print_writes_values<T>(
    state: Seq<char>,
    h: HeapView<T>,
    interns: Interns,
    values: Seq<Value>,
    parts: Seq<Seq<char>>,
    pairs: Seq<(Value, Value)>,
    sep: Seq<char>,
    end: Seq<char>,
)
    requires
        sets_options(h, interns, pairs, sep, end),
        parts.len() == values.len(),
        forall|i: int| 0 <= i < values.len() ==> !((#[trigger] values[i]) is Ref),
        forall|i: int|
            0 <= i < values.len() ==> (#[trigger] parts[i]) == str_of(
                h,
                interns,
                values[i],
                MAX_DATA_DEPTH as nat,
            ),
    ensures
        ({
            let args = ArgsView { pos: values, pairs };
            let done = print_called::<CollectStringPrint, T>(state, h, args, interns);
            done.result is Ok && done.state == state + join(parts, sep) + end
        }),
{
    options_are_read(h, interns, pairs, sep, end);
    let read = print_options(h, interns, pairs, pairs.len() as int);
    assert forall|i: int| 0 <= i < values.len() implies (#[trigger] parts[i]) == str_of(
        read.heap,
        interns,
        values[i],
        MAX_DATA_DEPTH as nat,
    ) by {
        assert(!(values[i] is Ref));
    }
    printed_in_turn(state, read.heap, interns, sep, values, parts, values.len() as int);
    assert(parts.take(values.len() as int) =~= parts);
}

/// `print(a, b)` writes the texts of any two values in their order, with the separator between
/// them and the end behind them. A value is given up once it is written.
pub proof fn print_writes_two_values<T>(
    state: Seq<char>,
    h: HeapView<T>,
    interns: Interns,
    a: Value,
    b: Value,
    pairs: Seq<(Value, Value)>,
    sep: Seq<char>,
    end: Seq<char>,
)
    requires
        sets_options(h, interns, pairs, sep, end),
    ensures
        ({
            let args = ArgsView { pos: seq![a, b], pairs };
            let done = print_called::<CollectStringPrint, T>(state, h, args, interns);
            let room = MAX_DATA_DEPTH as nat;
            let left = if pairs.len() == 0 {
                h
            } else {
                h.release(pairs[0].0).release(pairs[0].1)
            };
            &&& done.result is Ok
            &&& done.state == state + str_of(left, interns, a, room) + sep + str_of(
                left.release(a),
                interns,
                b,
                room,
            ) + end
        }),
{
    options_are_read(h, interns, pairs, sep, end);
    reveal_with_fuel(printed_values, 3);
}

/// `print(a)` writes the text of any value and the end.
pub proof fn print_writes_one_value<T>(
    state: Seq<char>,
    h: HeapView<T>,
    interns: Interns,
    a: Value,
    pairs: Seq<(Value, Value)>,
    sep: Seq<char>,
    end: Seq<char>,
)
    requires
        sets_options(h, interns, pairs, sep, end),
    ensures
        ({
            let args = ArgsView { pos: seq![a], pairs };
            let done = print_called::<CollectStringPrint, T>(state, h, args, interns);
            let left = if pairs.len() == 0 {
                h
            } else {
                h.release(pairs[0].0).release(pairs[0].1)
            };
            done.result is Ok && done.state == state + str_of(
                left,
                interns,
                a,
                MAX_DATA_DEPTH as nat,
            ) + end
        }),
{
    options_are_read(h, interns, pairs, sep, end);
    reveal_with_fuel(printed_values, 2);
}

/// Both options may be given, in either order; `None` stands for an empty text.
pub proof fn print_takes_both_options<T>(
    state: Seq<char>,
    h: HeapView<T>,
    interns: Interns,
    a: Value,
    b: Value,
    pairs: Seq<(Value, Value)>,
    s: int,
    sep: Seq<char>,
    end: Seq<char>,
)
    requires
        !(a is Ref) && !(b is Ref),
        pairs.len() == 2,
        s == 0 || s == 1,
        is_text(h, interns, pairs[s].0, "sep"@),
        is_text(h, interns, pairs[1 - s].0, "end"@),
        !(pairs[0].0 is Ref) && !(pairs[0].1 is Ref) && !(pairs[1].0 is Ref) && !(
        pairs[1].1 is Ref),
        is_text(h, interns, pairs[s].1, sep) || (pairs[s].1 is PyNone && sep.len() == 0),
        is_text(h, interns, pairs[1 - s].1, end) || (pairs[1 - s].1 is PyNone && end.len() == 0),
    ensures
        ({
            let args = ArgsView { pos: seq![a, b], pairs };
            let done = print_called::<CollectStringPrint, T>(state, h, args, interns);
            let room = MAX_DATA_DEPTH as nat;
            done.result is Ok && done.state == state + str_of(h, interns, a, room) + sep + str_of(
                h,
                interns,
                b,
                room,
            ) + end
        }),
{
    option_names_differ();
    reveal_with_fuel(print_options, 3);
    reveal_with_fuel(printed_values, 3);
    assert(Seq::<char>::empty() =~= sep || sep.len() != 0);
    assert(Seq::<char>::empty() =~= end || end.len() != 0);
}

/// A separator or end that is no string, and an option that `print` does not have, are
/// `TypeError`s, and nothing is written.
pub proof fn print_refuses_options<T>(
    state: Seq<char>,
    h: HeapView<T>,
    interns: Interns,
    values: Seq<Value>,
    key: Value,
    name: Seq<char>,
    value: Value,
)
    requires
        is_text(h, interns, key, name),
        ((name == "sep"@ || name == "end"@) && (value is Int || value is Bool)) || (name != "sep"@
            && name != "end"@ && name != "flush"@),
    ensures
        ({
            let args = ArgsView { pos: values, pairs: seq![(key, value)] };
            let done = print_called::<CollectStringPrint, T>(state, h, args, interns);
            raises(done.result, ExcType::TypeError) && done.state == state
        }),
{
    option_names_differ();
    reveal_with_fuel(print_options, 2);
}

/// `flush` changes nothing, `None` for the separator or the end stands for an empty text, and
/// `file` and other names are refused.
pub proof fn print_reads_each_option<T>(
    state: Seq<char>,
    h: HeapView<T>,
    interns: Interns,
    name: StringId,
    value: Value,
    x: i64,
    y: i64,
)
    ensures
        ({
            let pairs = seq![(Value::InternString(name), value)];
            let args = ArgsView { pos: seq![Value::Int(x), Value::Int(y)], pairs };
            let done = print_called::<CollectStringPrint, T>(state, h, args, interns);
            let a = int_text(x as int);
            let b = int_text(y as int);
            &&& interns.text(name) == "flush"@ ==> done.result is Ok && done.state == state + a
                + seq![' '] + b + seq!['\n']
            &&& interns.text(name) == "sep"@ && value is PyNone ==> done.result is Ok && done.state
                == state + a + Seq::<char>::empty() + b + seq!['\n']
            &&& interns.text(name) == "end"@ && value is PyNone ==> done.result is Ok && done.state
                == state + a + seq![' '] + b + Seq::<char>::empty()
            &&& interns.text(name) == "file"@ ==> says(
                done.result,
                ExcType::TypeError,
                "print() 'file' argument is not supported"@,
                interns,
            ) && done.state == state
            &&& interns.text(name) != "flush"@ && interns.text(name) != "sep"@ && interns.text(name)
                != "end"@ && interns.text(name) != "file"@ ==> says(
                done.result,
                ExcType::TypeError,
                "print"@ + "() got an unexpected keyword argument '"@ + interns.text(name) + "'"@,
                interns,
            ) && done.state == state
            &&& interns.text(name) == "sep"@ && value is Int ==> says(
                done.result,
                ExcType::TypeError,
                "sep"@ + " must be None or a string, not "@ + "int"@,
                interns,
            )
        }),
{
    option_names_differ();
    reveal_with_fuel(print_options, 2);
    reveal_with_fuel(printed_values, 3);
    let none = Seq::<char>::empty();
    assert(state + int_text(x as int) + none =~= state + int_text(x as int));
}

} // verus!
