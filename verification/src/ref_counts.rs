//! How often the objects that variables refer to are counted, once a program has run.

use vstd::prelude::*;
use vstd::set::Set;
use ahash::{AHashMap, AHashSet};
use crate::error::RunResult;
use crate::exception::MontyException;
use crate::heap::{live_count, Heap, HeapView};
use crate::ids::{HeapId, NamespaceId};
use crate::name_map::{map_entries, map_insert, map_items, new_map};
use crate::namespaces::{Namespaces, GLOBAL_NS_IDX};
use crate::object::MontyObject;
use crate::resource::NoLimitTracker;
use crate::run::{
    call_known, exit_seen, frame_exit_to_object, fresh_machine, FrameExit, MontyRun,
};
use crate::value::{copy_values, Value};
use crate::visited::{new_set, set_insert, set_items};
use crate::vm::snapshot::VMSnapshot;
use crate::vm::VM;

verus! {

/// The result of a program, and how its objects are counted.
#[derive(Debug)]
pub struct RefCountOutput {
    pub py_object: MontyObject,
    /// For each variable that refers to an object, how often the object is counted.
    pub counts: AHashMap<String, usize>,
    /// The number of objects that variables refer to.
    pub unique_refs: usize,
    /// The number of objects there are.
    pub heap_count: usize,
    /// The number of objects made since garbage was last collected.
    pub allocations_since_gc: u32,
}

/// The object a variable refers to.
pub open spec fn named_object(values: Seq<Value>, slot: usize) -> Option<HeapId> {
    if slot < values.len() {
        values[slot as int].target()
    } else {
        None
    }
}

/// For each variable that refers to an object, how often the object is counted.
pub open spec fn named_counts<T>(
    h: HeapView<T>,
    values: Seq<Value>,
    names: Map<Seq<char>, usize>,
) -> Map<Seq<char>, usize> {
    Map::new(
        |name: Seq<char>|
            names.dom().contains(name) && named_object(values, names[name]) is Some,
        |name: Seq<char>| h.count(named_object(values, names[name])->0) as usize,
    )
}

/// The objects that variables refer to.
pub open spec fn named_objects(values: Seq<Value>, names: Map<Seq<char>, usize>) -> Set<usize> {
    Set::new(
        |id: usize|
            exists|name: Seq<char>| #[trigger]
                names.dom().contains(name) && named_object(values, names[name]) == Some(HeapId(id)),
    )
}

proof fn one_more_name<T>(
    h: HeapView<T>,
    values: Seq<Value>,
    names: Map<Seq<char>, usize>,
    name: Seq<char>,
    slot: usize,
)
    requires
        names.dom().contains(name) ==> names[name] == slot,
    ensures
        ({
            let more = names.insert(name, slot);
            match named_object(values, slot) {
                None => named_counts(h, values, more) == named_counts(h, values, names)
                    && named_objects(values, more) == named_objects(values, names),
                Some(id) => named_counts(h, values, more) == named_counts(h, values, names).insert(
                    name,
                    h.count(id) as usize,
                ) && named_objects(values, more) == named_objects(values, names).insert(id.0),
            }
        }),
{
    let more = names.insert(name, slot);
    assert forall|id: usize| named_objects(values, more).contains(id) implies named_objects(
        values,
        names,
    ).contains(id) || named_object(values, slot) == Some(HeapId(id)) by {
        let n = choose|n: Seq<char>| #[trigger]
            more.dom().contains(n) && named_object(values, more[n]) == Some(HeapId(id));
        if n != name {
            assert(names.dom().contains(n));
        }
    }
    assert forall|id: usize| named_objects(values, names).contains(id) implies named_objects(
        values,
        more,
    ).contains(id) by {
        let n = choose|n: Seq<char>| #[trigger]
            names.dom().contains(n) && named_object(values, names[n]) == Some(HeapId(id));
        assert(more.dom().contains(n));
    }
    assert(more.dom().contains(name));
    match named_object(values, slot) {
        None => {
            assert(named_counts(h, values, more) =~= named_counts(h, values, names));
            assert(named_objects(values, more) =~= named_objects(values, names));
        },
        Some(id) => {
            assert(named_counts(h, values, more) =~= named_counts(h, values, names).insert(
                name,
                h.count(id) as usize,
            ));
            assert(named_objects(values, more) =~= named_objects(values, names).insert(id.0));
        },
    }
}

/// Counts how often the objects that variables refer to are counted, and how many there are.
pub fn count_references<T>(names: &AHashMap<String, usize>, values: &Vec<Value>, heap: &Heap<T>) -> (r:
    (AHashMap<String, usize>, usize))
    ensures
        map_items(r.0) == named_counts(heap@, values@, map_items(*names)),
        named_objects(values@, map_items(*names)).finite(),
        r.1 == named_objects(values@, map_items(*names)).len(),
{
    let entries: Vec<(String, usize)> = map_entries(names);
    let mut counts: AHashMap<String, usize> = new_map();
    let mut seen: AHashSet<usize> = new_set();
    let mut unique: usize = 0;
    let ghost all = map_items(*names);
    let ghost mut done: Map<Seq<char>, usize> = Map::empty();
    assert(map_items(counts) =~= named_counts(heap@, values@, done));
    assert(set_items(seen) =~= named_objects(values@, done));
    let mut i: usize = 0;
    while i < entries.len()
        invariant
            0 <= i <= entries@.len(),
            all == map_items(*names),
            forall|k: int|
                0 <= k < entries@.len() ==> all.contains_pair(
                    (#[trigger] entries@[k]).0@,
                    entries@[k].1,
                ),
            forall|k: int|
                0 <= k < i ==> done.dom().contains((#[trigger] entries@[k]).0@),
            forall|name: Seq<char>| #[trigger]
                done.dom().contains(name) ==> all.contains_pair(name, done[name]),
            map_items(counts) == named_counts(heap@, values@, done),
            set_items(seen) == named_objects(values@, done),
            set_items(seen).finite(),
            unique == set_items(seen).len(),
            unique <= i,
        decreases entries@.len() - i,
    {
        let slot: usize = entries[i].1;
        let ghost name = entries@[i as int].0@;
        proof {
            one_more_name(heap@, values@, done, name, slot);
            done = done.insert(name, slot);
        }
        if slot < values.len() {
            if let Value::Ref(id) = values[slot] {
                map_insert(&mut counts, entries[i].0.clone(), heap.get_refcount(id));
                if set_insert(&mut seen, id.0) {
                    unique = unique + 1;
                }
            }
        }
        i = i + 1;
    }
    proof {
        assert forall|name: Seq<char>| #[trigger] all.dom().contains(name) implies done.dom().contains(
            name,
        ) by {
            let k = choose|k: int| 0 <= k < entries@.len() && (#[trigger] entries@[k]).0@ == name;
            assert(done.dom().contains(entries@[k].0@));
        }
        assert(done =~= all);
    }
    (counts, unique)
}

impl MontyRun {
    /// Gets ready to run the program to its end without limits, so that its objects can be
    /// counted.
    pub fn run_ref_counts(&self, inputs: Vec<MontyObject>) -> (r: Result<
        VM<'_, NoLimitTracker>,
        MontyException,
    >)
        ensures
            ({
                let said = self.executor.prepared(HeapView::fresh(NoLimitTracker), inputs@);
                match (r, said.result) {
                    (Ok(vm), Ok(n)) => vm@ == fresh_machine(said.heap, n, self.executor),
                    (Err(e), Err(f)) => e@ == f,
                    _ => false,
                }
            }),
    {
        self.run(inputs, NoLimitTracker)
    }

    /// Ends a run of the program and counts its objects, while the result is still there.
    ///
    /// After that the variables are given up, and the result is handed to the host.
    pub fn finish_ref_counts<T>(
        &self,
        vm: VM<'_, T>,
        frame_exit_result: RunResult<FrameExit>,
        allocations_since_gc: u32,
    ) -> (r: Result<RefCountOutput, MontyException>)
        requires
            call_known(frame_exit_result, self.executor.interns),
            vm@.namespaces.get(NamespaceId(GLOBAL_NS_IDX)) is Some,
        ensures
            ({
                let values = vm@.namespaces.get(NamespaceId(GLOBAL_NS_IDX))->0;
                let names = map_items(self.executor.name_map);
                exists|seen: RunResult<MontyObject>, after: HeapView<T>| #[trigger]
                    exit_seen(
                        vm@.heap.release_values(values),
                        self.executor.interns,
                        frame_exit_result,
                        seen,
                        after,
                    ) && match (seen, r) {
                        (Ok(a), Ok(b)) => {
                            &&& b.py_object == a
                            &&& map_items(b.counts) == named_counts(vm@.heap, values, names)
                            &&& b.unique_refs == named_objects(values, names).len()
                            &&& b.heap_count == live_count(vm@.heap.entries)
                            &&& b.allocations_since_gc == allocations_since_gc
                        },
                        (Err(e), Err(x)) => x@ == e@.info(self.executor.interns, self.executor.code@),
                        _ => false,
                    }
            }),
    {
        let (_state, heap, namespaces): (VMSnapshot, Heap<T>, Namespaces) = vm.snapshot();
        let mut heap: Heap<T> = heap;
        let mut values: Vec<Value> = Vec::new();
        if let Some(global) = namespaces.get(NamespaceId(GLOBAL_NS_IDX)) {
            values = copy_values(global.as_slice());
        }
        let (counts, unique_refs): (AHashMap<String, usize>, usize) = count_references(
            &self.executor.name_map,
            &values,
            &heap,
        );
        let heap_count: usize = heap.entry_count();
        heap.drop_values(values.as_slice());
        let ghost before = heap@;
        let seen: RunResult<MontyObject> = frame_exit_to_object(
            frame_exit_result,
            &mut heap,
            &self.executor.interns,
        );
        assert(exit_seen(before, self.executor.interns, frame_exit_result, seen, heap@));
        match seen {
            Err(e) => Err(e.into_python_exception(&self.executor.interns, self.executor.code.as_str())),
            Ok(py_object) => Ok(
                RefCountOutput { py_object, counts, unique_refs, heap_count, allocations_since_gc },
            ),
        }
    }
}

} // verus!
