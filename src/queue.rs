//! The queue's state: pending entries in arrival order, the sequence-id
//! counter and the batch-id counter, and the extraction of a batch.

use vstd::prelude::*;
use tokio::sync::mpsc::UnboundedSender;
use crate::model::{requests_view, ClientBatch, HttpRequest, TextReplyRequest, TextReplyResponse};
use crate::sink::sink_is_closed;
use crate::dispatch::keyed;

verus! {

/// A pending request and the channel on which its caller waits.
pub struct QueueEntry {
    pub request: TextReplyRequest,
    pub response_tx: UnboundedSender<TextReplyResponse>,
}

/// What one extraction hands the dispatcher: the batch for the backend and,
/// for each of its requests, the entry that asked for it, keyed by id.
pub struct NextBatch {
    pub entries: Vec<(u64, QueueEntry)>,
    pub batch: ClientBatch,
}

/// Ids strictly increase along the sequence.
pub open spec fn ids_increasing(s: Seq<(u64, QueueEntry)>) -> bool {
    forall|i: int, j: int| 0 <= i < j < s.len() ==> s[i].0 < s[j].0
}

/// The entries that an extraction keeps: those whose flag says the caller
/// has not gone away, in their order.
pub open spec fn surviving(s: Seq<(u64, QueueEntry)>, closed: Seq<bool>) -> Seq<(u64, QueueEntry)>
    decreases s.len(),
{
    if s.len() == 0 {
        Seq::empty()
    } else {
        let rest = surviving(s.drop_last(), closed);
        if closed[s.len() - 1] {
            rest
        } else {
            rest.push(s.last())
        }
    }
}

/// The (id, message) pairs that a batch of these entries carries.
pub open spec fn batch_requests_of(s: Seq<(u64, QueueEntry)>) -> Seq<(u64, Seq<char>)> {
    s.map_values(|e: (u64, QueueEntry)| (e.0, e.1.request.message@))
}

pub proof fn lemma_surviving_from(s: Seq<(u64, QueueEntry)>, closed: Seq<bool>)
    ensures
        surviving(s, closed).len() <= s.len(),
        forall|k: int| 0 <= k < surviving(s, closed).len() ==>
            exists|i: int| 0 <= i < s.len() && #[trigger] surviving(s, closed)[k] == s[i] && !closed[i],
        ids_increasing(s) ==> ids_increasing(surviving(s, closed)),
    decreases s.len(),
{
    if s.len() > 0 {
        let p = s.drop_last();
        lemma_surviving_from(p, closed);
        let rest = surviving(p, closed);
        let r = surviving(s, closed);
        assert forall|k: int| 0 <= k < r.len() implies
            exists|i: int| 0 <= i < s.len() && #[trigger] r[k] == s[i] && !closed[i] by {
            if k < rest.len() {
                let i = choose|i: int| 0 <= i < p.len() && rest[k] == p[i] && !closed[i];
                assert(r[k] == s[i]);
            } else {
                assert(r[k] == s[s.len() - 1]);
            }
        }
        if ids_increasing(s) {
            assert forall|a: int, b: int| 0 <= a < b < r.len() implies r[a].0 < r[b].0 by {
                let ib = choose|i: int| 0 <= i < s.len() && r[b] == s[i] && !closed[i];
                let ia = choose|i: int| 0 <= i < s.len() && r[a] == s[i] && !closed[i];
                if b < rest.len() {
                    assert(rest[a] == r[a] && rest[b] == r[b]);
                } else {
                    assert(r[b] == s[s.len() - 1]);
                    assert(r[a] == rest[a]);
                    let ip = choose|i: int| 0 <= i < p.len() && rest[a] == p[i] && !closed[i];
                    assert(r[a] == s[ip]);
                }
            }
        }
    }
}

/// How many of the flags say the caller is still there.
pub open spec fn live_count(closed: Seq<bool>) -> nat
    decreases closed.len(),
{
    if closed.len() == 0 {
        0
    } else {
        live_count(closed.drop_last()) + if closed.last() { 0nat } else { 1nat }
    }
}

/// Batch totality: an extraction keeps exactly as many entries as have a
/// caller still waiting; none when no caller is.
pub proof fn lemma_batch_totality(s: Seq<(u64, QueueEntry)>, closed: Seq<bool>)
    requires
        closed.len() == s.len(),
    ensures
        surviving(s, closed).len() == live_count(closed),
    decreases s.len(),
{
    if s.len() > 0 {
        let c = closed.drop_last();
        lemma_batch_totality(s.drop_last(), c);
        assert forall|i: int| 0 <= i < c.len() implies c[i] == closed[i] by {}
        lemma_surviving_prefix_flags(s.drop_last(), closed, c);
    }
}

/// Only the first `s.len()` flags matter to `surviving`.
proof fn lemma_surviving_prefix_flags(s: Seq<(u64, QueueEntry)>, a: Seq<bool>, b: Seq<bool>)
    requires
        s.len() <= a.len(),
        s.len() <= b.len(),
        forall|i: int| 0 <= i < s.len() ==> a[i] == b[i],
    ensures
        surviving(s, a) == surviving(s, b),
    decreases s.len(),
{
    if s.len() > 0 {
        lemma_surviving_prefix_flags(s.drop_last(), a, b);
    }
}

/// Pruning: an entry whose caller has gone away is not among those an
/// extraction keeps, so it is in no batch, and no id of the batch's
/// correlation is its id: no reply is routed to it.
pub proof fn lemma_pruned_absent(s: Seq<(u64, QueueEntry)>, closed: Seq<bool>)
    requires
        ids_increasing(s),
        closed.len() == s.len(),
    ensures
        forall|i: int, k: int| 0 <= i < s.len() && closed[i] && 0 <= k < surviving(s, closed).len()
            ==> #[trigger] surviving(s, closed)[k].0 != #[trigger] s[i].0,
        forall|i: int| 0 <= i < s.len() && #[trigger] closed[i] ==> !keyed(surviving(s, closed), s[i].0),
{
    lemma_surviving_from(s, closed);
    assert forall|i: int, k: int| 0 <= i < s.len() && closed[i] && 0 <= k < surviving(s, closed).len()
        implies #[trigger] surviving(s, closed)[k].0 != #[trigger] s[i].0 by {
        let i2 = choose|i2: int| 0 <= i2 < s.len() && surviving(s, closed)[k] == s[i2] && !closed[i2];
        assert(i2 != i);
    }
    assert forall|i: int| 0 <= i < s.len() && #[trigger] closed[i] implies !keyed(surviving(s, closed), s[i].0) by {
        if keyed(surviving(s, closed), s[i].0) {
            let k = choose|k: int| 0 <= k < surviving(s, closed).len() && #[trigger] surviving(s, closed)[k].0 == s[i].0;
            let i2 = choose|i2: int| 0 <= i2 < s.len() && surviving(s, closed)[k] == s[i2] && !closed[i2];
            assert(i2 != i);
        }
    }
}

/// The queue's own state, mutated one command at a time.
pub struct QueueState {
    entries: Vec<(u64, QueueEntry)>,
    next_id: u64,
    next_batch_id: u64,
}

impl QueueState {
    pub closed spec fn entries_spec(&self) -> Seq<(u64, QueueEntry)> {
        self.entries@
    }

    pub closed spec fn next_id_spec(&self) -> u64 {
        self.next_id
    }

    pub closed spec fn next_batch_id_spec(&self) -> u64 {
        self.next_batch_id
    }

    /// Entries are held in increasing id order, every id was handed out
    /// already, and the counters start at one.
    pub open spec fn wf(&self) -> bool {
        &&& ids_increasing(self.entries_spec())
        &&& forall|i: int| 0 <= i < self.entries_spec().len()
            ==> #[trigger] self.entries_spec()[i].0 < self.next_id_spec()
        &&& self.next_id_spec() >= 1
        &&& self.next_batch_id_spec() >= 1
    }

    /// Sequence ids are pairwise distinct and increase in enqueue order; the
    /// next id handed out exceeds every id queued.
    pub proof fn lemma_sequence_ids_unique(&self)
        requires
            self.wf(),
        ensures
            forall|i: int, j: int| 0 <= i < self.entries_spec().len() && 0 <= j < self.entries_spec().len() && i != j
                ==> #[trigger] self.entries_spec()[i].0 != #[trigger] self.entries_spec()[j].0,
            forall|i: int, j: int| 0 <= i < j < self.entries_spec().len()
                ==> #[trigger] self.entries_spec()[i].0 < #[trigger] self.entries_spec()[j].0,
            forall|i: int| 0 <= i < self.entries_spec().len()
                ==> #[trigger] self.entries_spec()[i].0 < self.next_id_spec(),
    {
    }

    pub fn new() -> (r: Self)
        ensures
            r.wf(),
            r.entries_spec() == Seq::<(u64, QueueEntry)>::empty(),
            r.next_id_spec() == 1,
            r.next_batch_id_spec() == 1,
    {
        QueueState { entries: Vec::new(), next_id: 1, next_batch_id: 1 }
    }

    pub fn len(&self) -> (r: usize)
        ensures
            r == self.entries_spec().len(),
    {
        self.entries.len()
    }

    pub fn next_id(&self) -> (r: u64)
        ensures
            r == self.next_id_spec(),
    {
        self.next_id
    }

    pub fn next_batch_id(&self) -> (r: u64)
        ensures
            r == self.next_batch_id_spec(),
    {
        self.next_batch_id
    }

    /// Enqueues an entry under the next sequence id.
    pub fn append(&mut self, entry: QueueEntry)
        requires
            old(self).wf(),
            old(self).next_id_spec() < u64::MAX,
        ensures
            final(self).wf(),
            final(self).entries_spec() == old(self).entries_spec().push((old(self).next_id_spec(), entry)),
            final(self).next_id_spec() == old(self).next_id_spec() + 1,
            final(self).next_batch_id_spec() == old(self).next_batch_id_spec(),
    {
        self.entries.push((self.next_id, entry));
        self.next_id = self.next_id + 1;
    }

    /// Whether each entry's caller has gone away, as tokio reports it now.
    fn closed_flags(&self) -> (r: Vec<bool>)
        ensures
            r@.len() == self.entries_spec().len(),
    {
        let mut flags: Vec<bool> = Vec::new();
        let mut i: usize = 0;
        while i < self.entries.len()
            invariant
                i <= self.entries@.len(),
                flags@.len() == i,
            decreases self.entries@.len() - i,
        {
            flags.push(sink_is_closed(&self.entries[i].1.response_tx));
            i += 1;
        }
        flags
    }

    /// What an extraction does, given for each queued entry whether its
    /// caller has gone away: every entry leaves the queue; those whose caller
    /// is gone are dropped, the others form the batch in queue order.
    pub open spec fn extracted(old_q: QueueState, new_q: QueueState, r: Option<NextBatch>, closed: Seq<bool>) -> bool {
        let kept = surviving(old_q.entries_spec(), closed);
        &&& closed.len() == old_q.entries_spec().len()
        &&& new_q.wf()
        &&& new_q.entries_spec() == Seq::<(u64, QueueEntry)>::empty()
        &&& new_q.next_id_spec() == old_q.next_id_spec()
        &&& kept.len() == live_count(closed)
        &&& (r is None <==> kept.len() == 0)
        &&& (r is None ==> new_q.next_batch_id_spec() == old_q.next_batch_id_spec())
        &&& (r matches Some(nb) ==> {
            &&& nb.entries@ == kept
            &&& ids_increasing(nb.entries@)
            &&& nb.batch.wf()
            &&& nb.batch@ == (old_q.next_batch_id_spec(), kept.len() as u32, batch_requests_of(kept))
            &&& new_q.next_batch_id_spec() == old_q.next_batch_id_spec() + 1
        })
    }

    /// Extracts a batch, given for each queued entry whether its caller has
    /// gone away.
    pub fn next_batch_with(&mut self, closed: &Vec<bool>) -> (r: Option<NextBatch>)
        requires
            old(self).wf(),
            closed@.len() == old(self).entries_spec().len(),
            old(self).entries_spec().len() <= u32::MAX,
            old(self).next_batch_id_spec() < u64::MAX,
        ensures
            Self::extracted(*old(self), *final(self), r, closed@),
    {
        let ghost old_entries = self.entries@;
        let mut pending = self.entries.split_off(0);
        let mut kept: Vec<(u64, QueueEntry)> = Vec::new();
        let mut requests: Vec<HttpRequest> = Vec::new();
        let mut i: usize = 0;
        proof {
            assert(old_entries.take(0) =~= Seq::<(u64, QueueEntry)>::empty());
            assert(pending@ =~= old_entries.skip(0));
        }
        while pending.len() > 0
            invariant
                i + pending@.len() == old_entries.len(),
                pending@ == old_entries.skip(i as int),
                closed@.len() == old_entries.len(),
                kept@ == surviving(old_entries.take(i as int), closed@),
                requests_view(requests@) == batch_requests_of(kept@),
                kept@.len() <= i,
                requests@.len() == kept@.len(),
                old_entries.len() <= u32::MAX,
            decreases pending@.len(),
        {
            let e = pending.remove(0);
            proof {
                lemma_surviving_from(old_entries.take(i as int), closed@);
                assert(old_entries.take(i + 1).drop_last() =~= old_entries.take(i as int));
                assert(old_entries.take(i + 1).last() == e);
                assert(pending@ =~= old_entries.skip(i + 1));
            }
            if !closed[i] {
                let request = HttpRequest::new(e.0, e.1.request.message.clone());
                let ghost req_before = requests@;
                let ghost kept_before = kept@;
                requests.push(request);
                kept.push(e);
                proof {
                    assert forall|k: int| 0 <= k < requests@.len() implies
                        requests_view(requests@)[k] == batch_requests_of(kept@)[k] by {
                        if k < req_before.len() {
                            assert(k < kept_before.len());
                            assert(requests@[k] == req_before[k]);
                            assert(kept@[k] == kept_before[k]);
                            assert(requests_view(req_before)[k] == batch_requests_of(kept_before)[k]);
                        }
                    }
                    assert(requests_view(requests@) =~= batch_requests_of(kept@));
                }
            }
            i += 1;
        }
        proof {
            assert(old_entries.take(i as int) =~= old_entries);
            lemma_surviving_from(old_entries, closed@);
            lemma_batch_totality(old_entries, closed@);
        }
        if kept.len() == 0 {
            return None;
        }
        assert(requests@.len() == kept@.len());
        let size = requests.len() as u32;
        let batch = ClientBatch::new(self.next_batch_id, size, requests);
        self.next_batch_id = self.next_batch_id + 1;
        Some(NextBatch { entries: kept, batch })
    }

    /// Extracts a batch: asks each entry's channel whether its caller is
    /// still there, then proceeds as `next_batch_with` does on the answers.
    pub fn next_batch(&mut self) -> (r: Option<NextBatch>)
        requires
            old(self).wf(),
            old(self).entries_spec().len() <= u32::MAX,
            old(self).next_batch_id_spec() < u64::MAX,
        ensures
            exists|closed: Seq<bool>| #[trigger] Self::extracted(*old(self), *final(self), r, closed),
    {
        let flags = self.closed_flags();
        let r = self.next_batch_with(&flags);
        assert(Self::extracted(*old(self), *self, r, flags@));
        r
    }
}

} // verus!
