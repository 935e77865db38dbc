//! Copies of compiled programs.

use vstd::prelude::*;
use ahash::AHashMap;
use crate::error::CodeRange;
use crate::ids::ExtFunctionId;
use crate::interns::{Code, ExceptionEntry, Function, Interns};
use crate::long_int::LongInt;
use crate::name_map::{map_clone, map_items};
use crate::run::{Executor, MontyRun};

verus! {

/// Whether two pieces of code have the same content.
pub open spec fn same_code(a: Code, b: Code) -> bool {
    &&& a.bytecode@ == b.bytecode@
    &&& a.handlers@ == b.handlers@
    &&& a.locations@ == b.locations@
}

/// Whether two functions have the same content.
pub open spec fn same_function(a: Function, b: Function) -> bool {
    &&& a.name == b.name
    &&& a.param_count == b.param_count
    &&& a.namespace_size == b.namespace_size
    &&& a.cell_param_indices@ == b.cell_param_indices@
    &&& a.is_async == b.is_async
    &&& same_code(a.code, b.code)
}

/// Whether two programs refer to the same things by id.
pub open spec fn same_interns(a: Interns, b: Interns) -> bool {
    &&& texts(a.strings@) == texts(b.strings@)
    &&& bytes_texts(a.bytes@) == bytes_texts(b.bytes@)
    &&& numbers(a.long_ints@) == numbers(b.long_ints@)
    &&& a.functions@.len() == b.functions@.len()
    &&& forall|i: int|
        0 <= i < a.functions@.len() ==> same_function(#[trigger] a.functions@[i], b.functions@[i])
    &&& texts(a.external_functions@) == texts(b.external_functions@)
}

/// Whether two programs have the same content.
pub open spec fn same_program(a: Executor, b: Executor) -> bool {
    &&& a.namespace_size == b.namespace_size
    &&& a.input_count == b.input_count
    &&& map_items(a.name_map) == map_items(b.name_map)
    &&& same_code(a.module_code, b.module_code)
    &&& same_interns(a.interns, b.interns)
    &&& a.external_function_ids@ == b.external_function_ids@
    &&& a.code@ == b.code@
    &&& a.heap_capacity == b.heap_capacity
}

/// The contents of strings.
pub open spec fn texts(strings: Seq<String>) -> Seq<Seq<char>> {
    strings.map_values(|s: String| s@)
}

/// The contents of bytes literals.
pub open spec fn bytes_texts(bytes: Seq<Vec<u8>>) -> Seq<Seq<u8>> {
    bytes.map_values(|b: Vec<u8>| b@)
}

/// The numbers integer literals stand for.
pub open spec fn numbers(long_ints: Seq<LongInt>) -> Seq<int> {
    long_ints.map_values(|i: LongInt| i@)
}

fn clone_strings(strings: &Vec<String>) -> (r: Vec<String>)
    ensures
        texts(r@) == texts(strings@),
{
    let mut out: Vec<String> = Vec::new();
    let mut i: usize = 0;
    while i < strings.len()
        invariant
            0 <= i <= strings@.len(),
            texts(out@) == texts(strings@.take(i as int)),
        decreases strings@.len() - i,
    {
        let ghost before = out@;
        let s: String = strings[i].clone();
        out.push(s);
        i = i + 1;
        assert(texts(out@) =~= texts(before).push(s@));
        assert(texts(strings@.take(i as int)) =~= texts(strings@.take(i - 1)).push(s@));
    }
    assert(strings@.take(i as int) =~= strings@);
    out
}

fn clone_bytes(bytes: &Vec<Vec<u8>>) -> (r: Vec<Vec<u8>>)
    ensures
        bytes_texts(r@) == bytes_texts(bytes@),
{
    let mut out: Vec<Vec<u8>> = Vec::new();
    let mut i: usize = 0;
    while i < bytes.len()
        invariant
            0 <= i <= bytes@.len(),
            bytes_texts(out@) == bytes_texts(bytes@.take(i as int)),
        decreases bytes@.len() - i,
    {
        let ghost before = out@;
        let b: Vec<u8> = bytes[i].clone();
        assert(b@ =~= bytes@[i as int]@);
        out.push(b);
        i = i + 1;
        assert(bytes_texts(out@) =~= bytes_texts(before).push(b@));
        assert(bytes_texts(bytes@.take(i as int)) =~= bytes_texts(bytes@.take(i - 1)).push(b@));
    }
    assert(bytes@.take(i as int) =~= bytes@);
    out
}

fn clone_long_ints(long_ints: &Vec<LongInt>) -> (r: Vec<LongInt>)
    ensures
        numbers(r@) == numbers(long_ints@),
{
    let mut out: Vec<LongInt> = Vec::new();
    let mut i: usize = 0;
    while i < long_ints.len()
        invariant
            0 <= i <= long_ints@.len(),
            numbers(out@) == numbers(long_ints@.take(i as int)),
        decreases long_ints@.len() - i,
    {
        let ghost before = out@;
        let n: LongInt = long_ints[i].duplicate();
        out.push(n);
        i = i + 1;
        assert(numbers(out@) =~= numbers(before).push(n@));
        assert(numbers(long_ints@.take(i as int)) =~= numbers(long_ints@.take(i - 1)).push(n@));
    }
    assert(long_ints@.take(i as int) =~= long_ints@);
    out
}

/// A copy of items that are copied bit by bit.
fn copy_items<X: Copy>(items: &Vec<X>) -> (r: Vec<X>)
    ensures
        r@ == items@,
{
    let mut out: Vec<X> = Vec::new();
    let mut i: usize = 0;
    while i < items.len()
        invariant
            0 <= i <= items@.len(),
            out@ == items@.take(i as int),
        decreases items@.len() - i,
    {
        out.push(items[i]);
        i = i + 1;
        assert(out@ =~= items@.take(i as int));
    }
    assert(items@.take(i as int) =~= items@);
    out
}

impl Clone for Code {
    fn clone(&self) -> (r: Self)
        ensures
            same_code(r, *self),
    {
        let bytecode: Vec<u8> = copy_items(&self.bytecode);
        let handlers: Vec<ExceptionEntry> = copy_items(&self.handlers);
        let locations: Vec<(usize, CodeRange)> = copy_items(&self.locations);
        Code { bytecode, handlers, locations }
    }
}

impl Clone for Function {
    fn clone(&self) -> (r: Self)
        ensures
            same_function(r, *self),
    {
        Function {
            name: self.name,
            param_count: self.param_count,
            namespace_size: self.namespace_size,
            cell_param_indices: copy_items(&self.cell_param_indices),
            is_async: self.is_async,
            code: self.code.clone(),
        }
    }
}

impl Clone for Interns {
    fn clone(&self) -> (r: Self)
        ensures
            same_interns(r, *self),
    {
        let mut functions: Vec<Function> = Vec::new();
        let mut i: usize = 0;
        while i < self.functions.len()
            invariant
                0 <= i <= self.functions@.len(),
                functions@.len() == i,
                forall|k: int|
                    0 <= k < i ==> same_function(#[trigger] functions@[k], self.functions@[k]),
            decreases self.functions@.len() - i,
        {
            functions.push(self.functions[i].clone());
            i = i + 1;
        }
        Interns {
            strings: clone_strings(&self.strings),
            bytes: clone_bytes(&self.bytes),
            long_ints: clone_long_ints(&self.long_ints),
            functions,
            external_functions: clone_strings(&self.external_functions),
        }
    }
}

impl Clone for Executor {
    fn clone(&self) -> (r: Self)
        ensures
            same_program(r, *self),
    {
        let name_map: AHashMap<String, usize> = map_clone(&self.name_map);
        let external_function_ids: Vec<ExtFunctionId> = copy_items(&self.external_function_ids);
        Executor {
            namespace_size: self.namespace_size,
            input_count: self.input_count,
            name_map,
            module_code: self.module_code.clone(),
            interns: self.interns.clone(),
            external_function_ids,
            code: self.code.clone(),
            heap_capacity: self.heap_capacity,
        }
    }
}

impl Clone for MontyRun {
    fn clone(&self) -> (r: Self)
        ensures
            same_program(r.executor, self.executor),
    {
        MontyRun { executor: self.executor.clone() }
    }
}

} // verus!
