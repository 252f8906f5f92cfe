//! The delayed-callback scheduler: one hardware compare channel multiplexed
//! across an arbitrary number of pending callbacks.
//!
//! The scheduler owns the due-time-ordered collection of not-yet-run
//! callbacks, decides what value the compare register must be armed with, and
//! carries the claim/done cursor protocol that lets the interrupt handler
//! take exactly one entry per firing without ever touching an entry twice.
//! The hardware actions themselves (writing the compare register,
//! acknowledging the match flag, running the callback) are returned as plain
//! values for the platform shim to carry out.

use vstd::prelude::*;

verus! {

/// One pending unit of work: a due time (microseconds, the key) and a slot
/// holding the callback until the handler extracts it. The slot is emptied
/// exactly once, when the entry's ordinal is claimed.
pub struct Entry<C> {
    pub due: u64,
    pub callback: Option<C>,
}

/// Entries stand in strictly increasing due-time order.
pub open spec fn entries_sorted<C>(entries: Seq<Entry<C>>) -> bool {
    forall|i: int, j: int|
        0 <= i < j < entries.len() ==> entries[i].due < entries[j].due
}

/// Whether some entry already carries this due time.
pub open spec fn has_due<C>(entries: Seq<Entry<C>>, due: u64) -> bool {
    exists|i: int| 0 <= i < entries.len() && entries[i].due == due
}

/// The ordinal position a new due time lands at in a sorted sequence: the
/// number of entries strictly earlier than it.
pub open spec fn insert_pos<C>(entries: Seq<Entry<C>>, due: u64) -> int
    decreases entries.len(),
{
    if entries.len() == 0 {
        0
    } else if entries[0].due < due {
        1 + insert_pos(entries.drop_first(), due)
    } else {
        0
    }
}

proof fn lemma_insert_pos_at<C>(entries: Seq<Entry<C>>, due: u64, i: int)
    requires
        entries_sorted(entries),
        0 <= i <= entries.len(),
        forall|k: int| 0 <= k < i ==> entries[k].due < due,
        i < entries.len() ==> entries[i].due >= due,
    ensures
        insert_pos(entries, due) == i,
    decreases i,
{
    if i == 0 {
        assert(entries.len() > 0 ==> entries[0].due >= due);
    } else {
        assert(entries[0].due < due);
        let rest = entries.drop_first();
        assert(forall|p: int, q: int| 0 <= p < q < rest.len() ==> rest[p].due < rest[q].due);
        assert(forall|k: int| 0 <= k < i - 1 ==> rest[k].due < due);
        assert(i - 1 < rest.len() ==> rest[i - 1].due >= due);
        lemma_insert_pos_at(rest, due, i - 1);
    }
}

proof fn lemma_has_due_at<C>(entries: Seq<Entry<C>>, due: u64, i: int)
    requires
        entries_sorted(entries),
        0 <= i <= entries.len(),
        forall|k: int| 0 <= k < i ==> entries[k].due < due,
        i < entries.len() ==> entries[i].due >= due,
    ensures
        has_due(entries, due) <==> (i < entries.len() && entries[i].due == due),
{
    if i < entries.len() && entries[i].due == due {
        assert(has_due(entries, due));
    } else {
        assert forall|k: int| 0 <= k < entries.len() implies entries[k].due != due by {
            if k < i {
                assert(entries[k].due < due);
            } else if k == i {
                assert(entries[k].due > due);
            } else {
                assert(entries[i].due < entries[k].due);
            }
        }
    }
}

proof fn lemma_replace_at<C>(s: Seq<Entry<C>>, i: int, e: Entry<C>)
    requires
        0 <= i < s.len(),
    ensures
        s.remove(i).insert(i, e) == s.update(i, e),
{
    assert(s.remove(i).insert(i, e) =~= s.update(i, e));
}

/// What the interrupt handler asks the platform shim to do after one firing:
/// whether to acknowledge the channel's match flag, the callback to invoke
/// (already extracted, to be run exactly once), and the due time to write
/// into the compare register, if any.
pub struct Dispatch<C> {
    pub acknowledge: bool,
    pub fired: Option<C>,
    pub rearm: Option<u64>,
}

/// The scheduler state: the sorted pending entries, the value currently
/// armed in the compare register (`0` is the sentinel for "nothing armed"),
/// and the two cursors of the dispatch protocol.
///
/// `claim_cursor` is the next ordinal the handler is entitled to claim; it
/// only ever grows, one claim per firing. `done_cursor` is the ordinal of
/// the last entry whose callback has finished; `any_done` records whether
/// any entry has finished at all since the sequence was last cleared.
pub struct Scheduler<C> {
    pub next_armed: u64,
    pub pending: Vec<Entry<C>>,
    pub claim_cursor: usize,
    pub done_cursor: usize,
    pub any_done: bool,
}

impl<C> Scheduler<C> {
    /// Well-formedness: entries are sorted by due time with no duplicates;
    /// every entry at or beyond the claim cursor still holds its callback;
    /// and the done cursor trails the claim cursor once anything has run.
    pub open spec fn wf(self) -> bool {
        &&& entries_sorted(self.pending@)
        &&& forall|i: int|
            self.claim_cursor <= i < self.pending@.len() ==> self.pending@[i].callback is Some
        &&& (self.any_done ==> self.done_cursor < self.claim_cursor)
        &&& (!self.any_done ==> self.done_cursor == 0)
    }

    /// The sequence may be cleared only when the entry just before the claim
    /// cursor has fully completed: no claimed-but-unfinished entry exists.
    pub open spec fn shrink_eligible(self) -> bool {
        self.any_done && self.claim_cursor == self.done_cursor + 1
    }

    /// A fresh scheduler: nothing pending, nothing armed, cursors at their
    /// initial state.
    pub fn new() -> (s: Scheduler<C>)
        ensures
            s.wf(),
            s.pending@ == Seq::<Entry<C>>::empty(),
            s.next_armed == 0,
            s.claim_cursor == 0,
            s.done_cursor == 0,
            !s.any_done,
    {
        Scheduler {
            next_armed: 0,
            pending: Vec::new(),
            claim_cursor: 0,
            done_cursor: 0,
            any_done: false,
        }
    }

    /// Clear the whole sequence and reset the cursors and the armed value
    /// to their initial state. Legal only when no claimed entry is still
    /// running, which the precondition states; the producer calls this
    /// right before adding a new entry, so memory growth is bounded by the
    /// callbacks not yet drained, not by all callbacks ever scheduled.
    pub fn shrink(&mut self)
        requires
            old(self).wf(),
            old(self).shrink_eligible(),
        ensures
            final(self).wf(),
            final(self).pending@ == Seq::<Entry<C>>::empty(),
            final(self).next_armed == 0,
            final(self).claim_cursor == 0,
            final(self).done_cursor == 0,
            !final(self).any_done,
    {
        self.pending.clear();
        self.next_armed = 0;
        self.claim_cursor = 0;
        self.done_cursor = 0;
        self.any_done = false;
    }

    /// Everything `schedule` does, stated over the state before and after
    /// the call. `base` is the state the insertion works on: the old state,
    /// or the cleared one if the sequence was eligible for reclamation. The
    /// new entry lands at its sorted position, replacing a prior entry that
    /// carries the identical due time; the compare register is re-armed iff
    /// nothing is armed, the new due time is earlier than the armed one, or
    /// the armed one is already in the past.
    pub open spec fn schedule_post(
        pre: Self,
        post: Self,
        now: u64,
        delay: u64,
        callback: C,
        armed: Option<u64>,
    ) -> bool {
        let due = (now + delay) as u64;
        let base = if pre.shrink_eligible() {
            Seq::<Entry<C>>::empty()
        } else {
            pre.pending@
        };
        let base_armed = if pre.shrink_eligible() {
            0u64
        } else {
            pre.next_armed
        };
        let pos = insert_pos(base, due);
        let entry = Entry { due, callback: Some(callback) };
        let arm = base_armed == 0 || due < base_armed || base_armed < now;
        &&& post.pending@ == (if has_due(base, due) {
            base.update(pos, entry)
        } else {
            base.insert(pos, entry)
        })
        &&& post.claim_cursor == (if pre.shrink_eligible() {
            0
        } else {
            pre.claim_cursor as int
        })
        &&& post.done_cursor == (if pre.shrink_eligible() {
            0
        } else {
            pre.done_cursor as int
        })
        &&& post.any_done == (!pre.shrink_eligible() && pre.any_done)
        &&& post.next_armed == (if arm {
            due
        } else {
            base_armed
        })
        &&& armed == (if arm {
            Some(due)
        } else {
            None::<u64>
        })
    }

    /// Register a callback to run once the counter reaches `now + delay`.
    ///
    /// This is the producer path, run under exclusive access from normal
    /// context. It reclaims the sequence first when that is safe, inserts
    /// the new entry at its due-time position (a collision on the exact due
    /// time replaces the earlier callback), and returns the due time to
    /// write into the hardware compare register, or `None` when the armed
    /// value can stay.
    ///
    /// A newly computed due time is never earlier than one the handler has
    /// already claimed (the counter is monotone and claimed entries are in
    /// the past), which the precondition states: it keeps claimed ordinals
    /// stable underneath the handler.
    pub fn schedule(&mut self, now: u64, delay: u64, callback: C) -> (armed: Option<u64>)
        requires
            old(self).wf(),
            now + delay <= u64::MAX,
            forall|i: int|
                0 <= i < old(self).claim_cursor && i < old(self).pending@.len()
                    ==> old(self).pending@[i].due <= now + delay,
        ensures
            final(self).wf(),
            Self::schedule_post(*old(self), *final(self), now, delay, callback, armed),
    {
        let due = now + delay;
        if self.any_done && self.claim_cursor == self.done_cursor + 1 {
            self.shrink();
        }
        let ghost base = self.pending@;
        let ghost base_claim = self.claim_cursor as int;
        // find the sorted position: the first entry whose due time is not
        // below the new one
        let mut i: usize = 0;
        while i < self.pending.len() && self.pending[i].due < due
            invariant
                0 <= i <= self.pending@.len(),
                forall|k: int| 0 <= k < i ==> self.pending@[k].due < due,
                self.pending@ == base,
            decreases self.pending@.len() - i,
        {
            i = i + 1;
        }
        proof {
            lemma_insert_pos_at(base, due, i as int);
            lemma_has_due_at(base, due, i as int);
        }
        if i < self.pending.len() && self.pending[i].due == due {
            // collision: the later registration replaces the earlier one
            let _replaced = self.pending.remove(i);
            self.pending.insert(i, Entry { due, callback: Some(callback) });
            proof {
                lemma_replace_at(base, i as int, Entry { due, callback: Some(callback) });
            }
        } else {
            self.pending.insert(i, Entry { due, callback: Some(callback) });
            proof {
                if i < base_claim && (i as int) < base.len() {
                    // an entry below the claim cursor carries a due time no
                    // later than the new one, yet not equal to it here; the
                    // scan would have passed it, so the position is at or
                    // beyond the claim cursor
                    assert(old(self).pending@[i as int].due <= now + delay);
                    assert(false);
                }
            }
        }
        if self.next_armed == 0 || due < self.next_armed || self.next_armed < now {
            self.next_armed = due;
            Some(due)
        } else {
            None
        }
    }

    /// Everything `on_interrupt` does, stated over the state before and
    /// after the call. A firing for another channel changes nothing. A
    /// firing for this channel always claims one ordinal; past the end of
    /// the sequence that claim is spurious and nothing else moves. A claim
    /// inside the sequence extracts that entry's callback, arms the compare
    /// register for the following entry when there is one, and marks the
    /// claimed ordinal done.
    pub open spec fn dispatch_post(pre: Self, post: Self, matched: bool, r: Dispatch<C>) -> bool {
        if !matched {
            &&& post.pending@ == pre.pending@
            &&& post.next_armed == pre.next_armed
            &&& post.claim_cursor == pre.claim_cursor
            &&& post.done_cursor == pre.done_cursor
            &&& post.any_done == pre.any_done
            &&& !r.acknowledge
            &&& r.fired is None
            &&& r.rearm is None
        } else {
            let idx = pre.claim_cursor as int;
            &&& r.acknowledge
            &&& post.claim_cursor == idx + 1
            &&& if idx >= pre.pending@.len() {
                &&& post.pending@ == pre.pending@
                &&& post.next_armed == pre.next_armed
                &&& post.done_cursor == pre.done_cursor
                &&& post.any_done == pre.any_done
                &&& r.fired is None
                &&& r.rearm is None
            } else {
                &&& r.fired == pre.pending@[idx].callback
                &&& post.pending@ == pre.pending@.update(
                    idx,
                    (Entry { due: pre.pending@[idx].due, callback: None::<C> }),
                )
                &&& post.done_cursor == idx
                &&& post.any_done
                &&& if idx + 1 < pre.pending@.len() {
                    &&& r.rearm == Some(pre.pending@[idx + 1].due)
                    &&& post.next_armed == pre.pending@[idx + 1].due
                } else {
                    &&& r.rearm is None
                    &&& post.next_armed == pre.next_armed
                }
            }
        }
    }

    /// One firing of the timer interrupt: the consumer path, run in
    /// interrupt context without any lock.
    ///
    /// `channel_matched` is the hardware match flag for this channel; the
    /// register can report matches of unrelated channels, and those are
    /// ignored. Otherwise the handler acknowledges the flag first, claims
    /// the next ordinal, and — unless the claim landed past the end, which
    /// happens when the interrupt fired for a stale armed value — hands the
    /// claimed callback out to be run, re-arms for the following entry when
    /// one exists, and records the claimed ordinal as done. A callback is
    /// handed out exactly when the flag was set and an entry was left to
    /// claim.
    pub fn on_interrupt(&mut self, channel_matched: bool) -> (r: Dispatch<C>)
        requires
            old(self).wf(),
            old(self).claim_cursor < usize::MAX,
        ensures
            final(self).wf(),
            Self::dispatch_post(*old(self), *final(self), channel_matched, r),
            (r.fired is Some) <==> (channel_matched && (old(self).claim_cursor as int) < old(
                self,
            ).pending@.len()),
    {
        if !channel_matched {
            return Dispatch { acknowledge: false, fired: None, rearm: None };
        }
        let idx = self.claim_cursor;
        self.claim_cursor = idx + 1;
        if idx >= self.pending.len() {
            // spurious: claimed past the end; nothing to run, nothing to arm
            return Dispatch { acknowledge: true, fired: None, rearm: None };
        }
        // the claim is unique, so this slot still holds its callback;
        // extract it, leaving the slot empty
        let entry = self.pending.remove(idx);
        self.pending.insert(idx, Entry { due: entry.due, callback: None });
        proof {
            lemma_replace_at(
                old(self).pending@,
                idx as int,
                Entry { due: old(self).pending@[idx as int].due, callback: None::<C> },
            );
        }
        let rearm: Option<u64> = if idx + 1 < self.pending.len() {
            let next_due = self.pending[idx + 1].due;
            self.next_armed = next_due;
            Some(next_due)
        } else {
            None
        };
        self.done_cursor = idx;
        self.any_done = true;
        Dispatch { acknowledge: true, fired: entry.callback, rearm }
    }
}

/// Law: pending entries stand in non-decreasing (indeed increasing) due-time
/// order, so the handler, which claims ordinals in increasing order, invokes
/// callbacks in non-decreasing due-time order.
pub proof fn lemma_dispatch_order<C>(s: Scheduler<C>, i: int, j: int)
    requires
        s.wf(),
        0 <= i <= j < s.pending@.len(),
    ensures
        s.pending@[i].due <= s.pending@[j].due,
{
}

/// Law: no two pending entries carry the same due time, so at most one
/// callback is ever held — and invoked — per due time.
pub proof fn lemma_due_distinct<C>(s: Scheduler<C>, i: int, j: int)
    requires
        s.wf(),
        0 <= i < s.pending@.len(),
        0 <= j < s.pending@.len(),
        i != j,
    ensures
        s.pending@[i].due != s.pending@[j].due,
{
}

/// Law: across two consecutive firings for this channel, the handler claims
/// two distinct ordinals in increasing order — no entry is ever invoked
/// twice — and when both firings hand a callback out, the second one's due
/// time is strictly the later.
pub proof fn lemma_consecutive_dispatch<C>(
    s0: Scheduler<C>,
    s1: Scheduler<C>,
    s2: Scheduler<C>,
    r1: Dispatch<C>,
    r2: Dispatch<C>,
)
    requires
        s0.wf(),
        Scheduler::dispatch_post(s0, s1, true, r1),
        Scheduler::dispatch_post(s1, s2, true, r2),
    ensures
        s1.claim_cursor > s0.claim_cursor,
        r1.fired is Some && r2.fired is Some ==> s0.pending@[s0.claim_cursor as int].due < s1.pending@[
            s1.claim_cursor as int
        ].due,
{
}

/// Law: a registration that collides on an identical computed due time does
/// not grow the sequence; only the later of the two callbacks survives at
/// that due time.
pub proof fn lemma_collision_replaces<C>(
    pre: Scheduler<C>,
    post: Scheduler<C>,
    now: u64,
    delay: u64,
    callback: C,
    armed: Option<u64>,
)
    requires
        pre.wf(),
        !pre.shrink_eligible(),
        now + delay <= u64::MAX,
        has_due(pre.pending@, (now + delay) as u64),
        Scheduler::schedule_post(pre, post, now, delay, callback, armed),
    ensures
        post.pending@.len() == pre.pending@.len(),
        post.pending@[insert_pos(pre.pending@, (now + delay) as u64)].callback == Some(callback),
{
    let due = (now + delay) as u64;
    let w = choose|k: int| 0 <= k < pre.pending@.len() && pre.pending@[k].due == due;
    lemma_insert_pos_at(pre.pending@, due, w);
}

/// Law: reclamation happens only when no claimed-but-unfinished entry
/// exists, and it resets the sequence: the entry scheduled right after it
/// stands alone at ordinal 0, with both cursors back at their initial state.
pub proof fn lemma_reclaim_resets<C>(
    pre: Scheduler<C>,
    post: Scheduler<C>,
    now: u64,
    delay: u64,
    callback: C,
    armed: Option<u64>,
)
    requires
        pre.wf(),
        pre.shrink_eligible(),
        now + delay <= u64::MAX,
        Scheduler::schedule_post(pre, post, now, delay, callback, armed),
    ensures
        post.pending@.len() == 1,
        post.pending@[0].due == now + delay,
        post.pending@[0].callback == Some(callback),
        post.claim_cursor == 0,
        post.done_cursor == 0,
        armed == Some((now + delay) as u64),
{
    let due = (now + delay) as u64;
    assert(!has_due(Seq::<Entry<C>>::empty(), due));
    assert(insert_pos(Seq::<Entry<C>>::empty(), due) == 0);
}

} // verus!
