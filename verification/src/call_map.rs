//! Tables of calls to the host, in the order in which the calls were entered.

use vstd::prelude::*;
use crate::ids::CallId;

verus! {

/// What is known of a call: the entry for it, if there is one.
pub open spec fn find_call<X>(entries: Seq<(CallId, X)>, id: CallId) -> Option<X>
    decreases entries.len(),
{
    if entries.len() == 0 {
        None
    } else if entries.last().0 == id {
        Some(entries.last().1)
    } else {
        find_call(entries.drop_last(), id)
    }
}

/// The entries for other calls.
pub open spec fn without_call<X>(entries: Seq<(CallId, X)>, id: CallId) -> Seq<(CallId, X)>
    decreases entries.len(),
{
    if entries.len() == 0 {
        Seq::empty()
    } else {
        let before = without_call(entries.drop_last(), id);
        if entries.last().0 == id {
            before
        } else {
            before.push(entries.last())
        }
    }
}

/// The entries with one for a call; an older one is replaced.
pub open spec fn with_call<X>(entries: Seq<(CallId, X)>, id: CallId, x: X) -> Seq<(CallId, X)> {
    without_call(entries, id).push((id, x))
}

/// The calls there are entries for.
pub open spec fn calls_of<X>(entries: Seq<(CallId, X)>) -> Seq<CallId> {
    entries.map_values(|e: (CallId, X)| e.0)
}

/// A call that was removed is not found, and others are found as before.
pub proof fn removed_call_is_gone<X>(entries: Seq<(CallId, X)>, id: CallId, other: CallId)
    ensures
        find_call(without_call(entries, id), id) is None,
        other != id ==> find_call(without_call(entries, id), other) == find_call(entries, other),
    decreases entries.len(),
{
    if entries.len() > 0 {
        removed_call_is_gone(entries.drop_last(), id, other);
        let before = without_call(entries.drop_last(), id);
        if entries.last().0 != id {
            assert(before.push(entries.last()).drop_last() =~= before);
        }
    }
}

/// A call that was entered is found, and others are found as before.
pub proof fn entered_call_is_found<X>(entries: Seq<(CallId, X)>, id: CallId, x: X, other: CallId)
    ensures
        find_call(with_call(entries, id, x), id) == Some(x),
        other != id ==> find_call(with_call(entries, id, x), other) == find_call(entries, other),
        calls_of(with_call(entries, id, x)).contains(id),
{
    let kept = without_call(entries, id);
    let all = with_call(entries, id, x);
    assert(all.drop_last() =~= kept);
    removed_call_is_gone(entries, id, other);
    assert(calls_of(all)[kept.len() as int] == id);
}

/// A call has an entry exactly if it is among the calls there are entries for.
pub proof fn found_means_listed<X>(entries: Seq<(CallId, X)>, id: CallId)
    ensures
        find_call(entries, id) is Some <==> calls_of(entries).contains(id),
    decreases entries.len(),
{
    if entries.len() > 0 {
        let before = entries.drop_last();
        found_means_listed(before, id);
        if calls_of(entries).contains(id) {
            let k = choose|k: int| 0 <= k < calls_of(entries).len() && calls_of(entries)[k] == id;
            if k < before.len() {
                assert(calls_of(before)[k] == id);
            }
        }
        if calls_of(before).contains(id) {
            let k = choose|k: int| 0 <= k < calls_of(before).len() && calls_of(before)[k] == id;
            assert(calls_of(entries)[k] == id);
        }
        if entries.last().0 == id {
            assert(calls_of(entries)[entries.len() - 1] == id);
        }
    }
}

/// The entry for a call, if there is one.
pub fn lookup_call<X: Copy>(entries: &Vec<(CallId, X)>, id: CallId) -> (r: Option<X>)
    ensures
        r == find_call(entries@, id),
{
    let mut i: usize = entries.len();
    assert(entries@.take(i as int) =~= entries@);
    while i > 0
        invariant
            0 <= i <= entries@.len(),
            find_call(entries@, id) == find_call(entries@.take(i as int), id),
        decreases i,
    {
        if entries[i - 1].0 == id {
            return Some(entries[i - 1].1);
        }
        assert(entries@.take(i as int).drop_last() =~= entries@.take(i - 1));
        i = i - 1;
    }
    None
}

/// Removes the entry for a call.
pub fn remove_call<X: Copy>(entries: &mut Vec<(CallId, X)>, id: CallId)
    ensures
        final(entries)@ == without_call(old(entries)@, id),
{
    let mut kept: Vec<(CallId, X)> = Vec::new();
    let ghost all = entries@;
    let mut i: usize = 0;
    while i < entries.len()
        invariant
            entries@ == all,
            0 <= i <= all.len(),
            kept@ == without_call(all.take(i as int), id),
        decreases all.len() - i,
    {
        assert(all.take(i + 1).drop_last() =~= all.take(i as int));
        let entry: (CallId, X) = entries[i];
        if entry.0 != id {
            kept.push(entry);
        }
        i = i + 1;
    }
    assert(all.take(i as int) =~= all);
    *entries = kept;
}

/// Enters a call, replacing an older entry for it.
pub fn enter_call<X: Copy>(entries: &mut Vec<(CallId, X)>, id: CallId, x: X)
    ensures
        final(entries)@ == with_call(old(entries)@, id, x),
{
    remove_call(entries, id);
    entries.push((id, x));
}

/// The calls there are entries for.
pub fn list_calls<X: Copy>(entries: &Vec<(CallId, X)>) -> (r: Vec<CallId>)
    ensures
        r@ == calls_of(entries@),
{
    let mut out: Vec<CallId> = Vec::new();
    let mut i: usize = 0;
    while i < entries.len()
        invariant
            0 <= i <= entries@.len(),
            out@.len() == i,
            forall|j: int| 0 <= j < i ==> #[trigger] out@[j] == entries@[j].0,
        decreases entries@.len() - i,
    {
        out.push(entries[i].0);
        i = i + 1;
    }
    assert(out@ =~= calls_of(entries@));
    out
}

} // verus!
