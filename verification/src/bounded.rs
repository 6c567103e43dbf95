//! Histories that keep only their newest entries.
use vstd::prelude::*;

verus! {

/// The newest `limit` entries of `s`, oldest first.
pub open spec fn newest<T>(s: Seq<T>, limit: nat) -> Seq<T> {
    if s.len() <= limit {
        s
    } else {
        s.skip(s.len() - limit)
    }
}

/// A history after one entry is added under a limit.
pub open spec fn retained<T>(history: Seq<T>, entry: T, limit: nat) -> Seq<T> {
    newest(history.push(entry), limit)
}

/// A history after several entries are added, one by one.
pub open spec fn retained_all<T>(history: Seq<T>, entries: Seq<T>, limit: nat) -> Seq<T>
    decreases entries.len(),
{
    if entries.len() == 0 {
        history
    } else {
        retained(retained_all(history, entries.drop_last(), limit), entries.last(), limit)
    }
}

/// However many entries are added, a history holds the newest ones up to its
/// limit, in the order in which they came.
pub proof fn law_history_keeps_the_newest<T>(history: Seq<T>, entries: Seq<T>, limit: nat)
    requires
        history.len() <= limit,
    ensures
        retained_all(history, entries, limit) == newest(history + entries, limit),
        retained_all(history, entries, limit).len() <= limit,
    decreases entries.len(),
{
    if entries.len() == 0 {
        assert(history + entries =~= history);
    } else {
        law_history_keeps_the_newest(history, entries.drop_last(), limit);
        let before = history + entries.drop_last();
        assert(history + entries =~= before.push(entries.last()));
        assert(retained_all(history, entries, limit) =~= newest(history + entries, limit));
    }
}

/// Adds an entry and drops the oldest ones beyond `limit`.
pub fn retain_with_limit<T>(history: &mut Vec<T>, entry: T, limit: usize)
    ensures
        final(history)@ == retained(old(history)@, entry, limit as nat),
{
    let ghost before = history@;
    history.push(entry);
    let ghost all = history@;
    while history.len() > limit
        invariant
            all == before.push(entry),
            history@.len() <= all.len(),
            history@ == all.skip(all.len() - history@.len()),
            history@.len() >= limit || history@ == all,
        decreases history.len(),
    {
        let ghost now = history@;
        let _ = history.remove(0);
        assert(history@ =~= now.skip(1));
        assert(history@ =~= all.skip(all.len() - history@.len()));
    }
    assert(all.skip(0) =~= all);
}

/// Makes room for an entry by dropping the oldest one, then adds it.
pub fn push_with_limit<T>(history: &mut Vec<T>, entry: T, limit: usize)
    ensures
        final(history)@ == (if old(history)@.len() >= limit && old(history)@.len() > 0 {
            old(history)@.drop_first()
        } else {
            old(history)@
        }).push(entry),
        0 < limit && old(history)@.len() <= limit ==> final(history)@ == retained(
            old(history)@,
            entry,
            limit as nat,
        ),
{
    let ghost before = history@;
    if history.len() >= limit && history.len() > 0 {
        let _ = history.remove(0);
        assert(history@ =~= before.drop_first());
    }
    history.push(entry);
    proof {
        if 0 < limit && before.len() <= limit {
            assert(history@ =~= retained(before, entry, limit as nat));
        }
    }
}

/// Where the newest `limit` of `len` entries start.
pub fn newest_from(len: usize, limit: usize) -> (r: usize)
    ensures
        r == if len <= limit {
            0
        } else {
            len - limit
        },
{
    if len <= limit {
        0
    } else {
        len - limit
    }
}

/// The newest entries are the last ones, as many as the limit allows.
pub proof fn law_newest_are_the_last<T>(s: Seq<T>, limit: nat, i: int)
    ensures
        newest(s, limit).len() == if s.len() <= limit {
            s.len()
        } else {
            limit
        },
        0 <= i < newest(s, limit).len() ==> newest(s, limit)[i] == s[s.len() - newest(
            s,
            limit,
        ).len() + i],
        limit > 0 ==> retained(s, s[i], limit).last() == s[i],
{
}

} // verus!
