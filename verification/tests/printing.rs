use monty::args::{ArgValues, KwargsValues};
use monty::builtins::{BuiltinCall, Builtins, BuiltinsFunctions};
use monty::containers::{Dict, PySet, Range, Slice, Tuple};
use monty::error::{Message, RunError, SimpleException};
use monty::heap::{Heap, HeapData};
use monty::ids::{BytesId, CallId, ExtFunctionId, LongIntId, StringId};
use monty::interns::{Interns, StaticStrings};
use monty::list::List;
use monty::long_int::LongInt;
use monty::print::{builtin_print, CollectStringPrint, NoPrint};
use monty::resource::{DepthGuard, NoLimitTracker};
use monty::types::{ExcType, Type};
use monty::value::Value;

/// Interned names; their ids follow those of the interpreter's own names.
const NAMES: [&str; 6] = ["sep", "end", "flush", "file", "bogus", "text"];

fn interns() -> Interns {
    Interns::new(
        NAMES.iter().map(|s| (*s).to_owned()).collect(),
        vec![vec![65, 0, 200]],
        vec![LongInt::new(true, vec![1, 2])],
        vec![],
        vec!["fetch".to_owned()],
    )
}

fn own(k: usize) -> StringId {
    let first = (0..1000).map(StringId).find(|id| StaticStrings::from_string_id(*id).is_none()).unwrap();
    StringId(first.0 + k)
}

fn heap() -> Heap<NoLimitTracker> {
    Heap::new(8, NoLimitTracker)
}

fn text(heap: &mut Heap<NoLimitTracker>, s: &str) -> Value {
    Value::Ref(heap.allocate(HeapData::Str(s.to_owned())).unwrap())
}

fn list(heap: &mut Heap<NoLimitTracker>, items: Vec<Value>) -> Value {
    Value::Ref(heap.allocate(HeapData::List(List::new(items))).unwrap())
}

fn shown(v: Value, heap: &Heap<NoLimitTracker>) -> String {
    let holder = List::new(vec![v]);
    let mut f = String::new();
    let mut seen = ahash::AHashSet::new();
    let mut guard = DepthGuard::default();
    holder.py_repr_fmt(&mut f, heap, &mut seen, &mut guard, &interns());
    f
}

fn message(e: RunError) -> (ExcType, String) {
    let x = e.into_python_exception(&interns(), "");
    (x.exc_type, x.message.unwrap())
}

fn keywords(pos: Vec<Value>, pairs: Vec<(usize, Value)>) -> ArgValues {
    let pairs = pairs.into_iter().map(|(k, v)| (own(k), v)).collect();
    ArgValues::ArgsKargs { args: pos, kwargs: KwargsValues::Inline(pairs) }
}

#[test]
fn print_joins_by_spaces() {
    let mut h = heap();
    let s = text(&mut h, "it's");
    let l = list(&mut h, vec![Value::Int(1), Value::PyNone]);
    let mut out = CollectStringPrint::new();
    let args = ArgValues::ArgsKargs { args: vec![s, l, Value::Bool(true)], kwargs: KwargsValues::Empty };
    let r = builtin_print(&mut h, args, &interns(), &mut out);
    assert!(matches!(r, Ok(Value::PyNone)));
    assert_eq!(out.output(), "it's [1, None] True\n");
    assert_eq!(h.entry_count(), 0);
}

#[test]
fn print_without_arguments_ends_a_line() {
    let mut h = heap();
    let mut out = CollectStringPrint::new();
    builtin_print(&mut h, ArgValues::Empty, &interns(), &mut out).unwrap();
    assert_eq!(out.output(), "\n");
}

#[test]
fn print_with_separator_and_end() {
    let mut h = heap();
    let sep = text(&mut h, "-");
    let end = text(&mut h, "!");
    let mut out = CollectStringPrint::new();
    let args = keywords(
        vec![Value::Int(1), Value::Int(2)],
        vec![(0, sep), (1, end), (2, Value::Bool(true))],
    );
    builtin_print(&mut h, args, &interns(), &mut out).unwrap();
    assert_eq!(out.output(), "1-2!");
    assert_eq!(h.entry_count(), 0);
}

#[test]
fn print_with_none_as_options() {
    let mut h = heap();
    let mut out = CollectStringPrint::new();
    let args = keywords(vec![Value::Int(1), Value::Int(2)], vec![(0, Value::PyNone), (1, Value::PyNone)]);
    builtin_print(&mut h, args, &interns(), &mut out).unwrap();
    assert_eq!(out.output(), "12");
}

#[test]
fn print_option_errors() {
    let mut h = heap();
    let mut out = NoPrint;
    let args = keywords(vec![], vec![(0, Value::Int(1))]);
    let e = builtin_print(&mut h, args, &interns(), &mut out).unwrap_err();
    assert_eq!(message(e), (ExcType::TypeError, "sep must be None or a string, not int".to_owned()));
    let args = keywords(vec![], vec![(1, Value::Int(1))]);
    let e = builtin_print(&mut h, args, &interns(), &mut out).unwrap_err();
    assert_eq!(message(e), (ExcType::TypeError, "end must be None or a string, not int".to_owned()));
    let args = keywords(vec![], vec![(3, Value::Int(1))]);
    let e = builtin_print(&mut h, args, &interns(), &mut out).unwrap_err();
    assert_eq!(message(e), (ExcType::TypeError, "print() 'file' argument is not supported".to_owned()));
    let args = keywords(vec![], vec![(4, Value::Int(1))]);
    let e = builtin_print(&mut h, args, &interns(), &mut out).unwrap_err();
    assert_eq!(
        message(e),
        (ExcType::TypeError, "print() got an unexpected keyword argument 'bogus'".to_owned())
    );
}

#[test]
fn builtins_that_are_carried_out_here() {
    let mut h = heap();
    let mut out = CollectStringPrint::new();
    let call = Builtins::Function(BuiltinsFunctions::Print).call(
        &mut h,
        ArgValues::One(Value::Int(7)),
        &interns(),
        &mut out,
    );
    assert!(matches!(call, BuiltinCall::Done(Ok(Value::PyNone))));
    assert_eq!(out.output(), "7\n");
    let call = Builtins::Type(Type::List).call(&mut h, ArgValues::Empty, &interns(), &mut out);
    assert!(matches!(call, BuiltinCall::Done(Ok(Value::Ref(_)))));
    let call = BuiltinsFunctions::Len.call(&mut h, ArgValues::One(Value::Int(7)), &interns(), &mut out);
    match call {
        BuiltinCall::Elsewhere(b, ArgValues::One(v)) => {
            assert_eq!(b, Builtins::Function(BuiltinsFunctions::Len));
            assert_eq!(v, Value::Int(7));
        }
        _ => panic!("expected a call elsewhere"),
    }
}

#[test]
fn printed_forms() {
    let mut h = heap();
    let quoted = text(&mut h, "it's");
    let both = text(&mut h, "'\"\\\n\t\u{7}");
    let one = Value::Ref(h.allocate(HeapData::Tuple(Tuple::new(vec![Value::Int(1)]))).unwrap());
    let none = Value::Ref(h.allocate(HeapData::Tuple(Tuple::new(vec![]))).unwrap());
    let mut d = Dict::new();
    d.set(Value::Int(1), quoted, &mut h, &interns()).unwrap();
    let d = Value::Ref(h.allocate(HeapData::Dict(d)).unwrap());
    let empty_set = Value::Ref(h.allocate(HeapData::PySet(PySet::new())).unwrap());
    let r = Value::Ref(h.allocate(HeapData::Range(Range { start: 0, stop: 5, step: 1 })).unwrap());
    let r2 = Value::Ref(h.allocate(HeapData::Range(Range { start: 0, stop: 5, step: -2 })).unwrap());
    let s = Value::Ref(h.allocate(HeapData::Slice(Slice::new(None, Some(2), None))).unwrap());
    let e = SimpleException::new_msg(ExcType::ValueError, Message::Text("no".to_owned()));
    assert_eq!(e.to_text(&interns()), "no");
    assert_eq!(e.to_repr(&interns()), "ValueError('no')");
    let e = Value::Ref(h.allocate(HeapData::Exception(e)).unwrap());
    for (v, expected) in [
        (Value::Ellipsis, "[Ellipsis]"),
        (Value::PyNone, "[None]"),
        (Value::Bool(false), "[False]"),
        (Value::Int(-12), "[-12]"),
        (Value::InternString(own(5)), "['text']"),
        (Value::InternBytes(BytesId(0)), "[b'A\\x00\\xc8']"),
        (Value::InternLongInt(LongIntId(0)), "[-8589934593]"),
        (Value::ExtFunction(ExtFunctionId::new(0)), "[<function fetch>]"),
        (Value::ExternalFuture(CallId::new(4)), "[<coroutine external_future(4)>]"),
        (quoted, "[\"it's\"]"),
        (both, "['\\'\"\\\\\\n\\t\\x07']"),
        (one, "[(1,)]"),
        (none, "[()]"),
        (d, "[{1: \"it's\"}]"),
        (empty_set, "[set()]"),
        (r, "[range(0, 5)]"),
        (r2, "[range(0, 5, -2)]"),
        (s, "[slice(None, 2, None)]"),
        (e, "[ValueError('no')]"),
    ] {
        assert_eq!(shown(v, &h), expected);
    }
}

#[test]
fn a_list_inside_itself() {
    let mut h = heap();
    let l = list(&mut h, vec![Value::Int(1)]);
    let id = l.ref_id().unwrap();
    match h.take_data(id) {
        Some(HeapData::List(mut data)) => {
            h.inc_ref(id);
            data.append(&mut h, l);
            h.put_data(id, HeapData::List(data));
        }
        _ => panic!("expected list"),
    }
    assert_eq!(shown(l, &h), "[[1, [...]]]");
}

#[test]
fn strings_are_printed_without_quotes() {
    let mut h = heap();
    let s = text(&mut h, "plain");
    let mut guard = DepthGuard::default();
    assert_eq!(s.py_str(&h, &mut guard, &interns()), "plain");
}
