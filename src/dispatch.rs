//! Routing a backend answer back to the callers of a batch, by request id.

use vstd::prelude::*;
use crate::model::{ReplyResponse, Response, TextReplyResponse};
use crate::queue::{ids_increasing, QueueEntry};
use crate::sink::sink_send;

verus! {

/// Some entry of the correlation carries this id.
pub open spec fn keyed(corr: Seq<(u64, QueueEntry)>, id: u64) -> bool {
    exists|k: int| 0 <= k < corr.len() && #[trigger] corr[k].0 == id
}

/// No earlier reply carries the same request id as reply `j`.
pub open spec fn first_with_id(replies: Seq<Response>, j: int) -> bool {
    forall|i: int| 0 <= i < j ==> #[trigger] replies[i].request_id != replies[j].request_id
}

/// The replies, among the first `n`, that are delivered: those that answer
/// an entry of the batch and are the first reply for their id.
pub open spec fn delivered_indices(corr: Seq<(u64, QueueEntry)>, replies: Seq<Response>, n: int) -> Seq<int>
    decreases n,
{
    if n <= 0 {
        Seq::empty()
    } else {
        let prev = delivered_indices(corr, replies, n - 1);
        if keyed(corr, replies[n - 1].request_id) && first_with_id(replies, n - 1) {
            prev.push(n - 1)
        } else {
            prev
        }
    }
}

pub open spec fn messages_of(replies: Seq<Response>) -> Seq<Seq<char>> {
    replies.map_values(|r: Response| r.message@)
}

pub open spec fn strings_view(v: Seq<String>) -> Seq<Seq<char>> {
    v.map_values(|s: String| s@)
}

/// The response a caller receives for `reply`, one of `all`, in batch
/// `batch_id`, whose backend reported `elapsed_bits`.
pub open spec fn describes(resp: TextReplyResponse, reply: Response, batch_id: u64, all: Seq<Response>, elapsed_bits: u32) -> bool {
    &&& resp.message@ == reply.message@
    &&& resp.batch_id == #[verifier::truncate] (batch_id as u32)
    &&& resp.request_id == #[verifier::truncate] (reply.request_id as u32)
    &&& resp.batch_size == #[verifier::truncate] (all.len() as u32)
    &&& resp.processing_time_bits == elapsed_bits
    &&& strings_view(resp.other_responses@) == messages_of(all)
}

/// Each delivered index names a reply among the first `n` that answers an
/// entry and is the first for its id; indices increase; and every such reply
/// is among them.
pub proof fn lemma_delivered_indices(corr: Seq<(u64, QueueEntry)>, replies: Seq<Response>, n: int)
    requires
        0 <= n <= replies.len(),
    ensures
        forall|t: int| 0 <= t < delivered_indices(corr, replies, n).len() ==> {
            let j = #[trigger] delivered_indices(corr, replies, n)[t];
            &&& 0 <= j < n
            &&& keyed(corr, replies[j].request_id)
            &&& first_with_id(replies, j)
        },
        forall|a: int, b: int| 0 <= a < b < delivered_indices(corr, replies, n).len()
            ==> delivered_indices(corr, replies, n)[a] < delivered_indices(corr, replies, n)[b],
        forall|j: int| 0 <= j < n && keyed(corr, replies[j].request_id) && first_with_id(replies, j)
            ==> exists|t: int| 0 <= t < delivered_indices(corr, replies, n).len()
                && #[trigger] delivered_indices(corr, replies, n)[t] == j,
    decreases n,
{
    if n > 0 {
        lemma_delivered_indices(corr, replies, n - 1);
        let prev = delivered_indices(corr, replies, n - 1);
        let d = delivered_indices(corr, replies, n);
        assert forall|j: int| 0 <= j < n && keyed(corr, replies[j].request_id) && first_with_id(replies, j)
            implies exists|t: int| 0 <= t < d.len() && #[trigger] d[t] == j by {
            if j < n - 1 {
                let t = choose|t: int| 0 <= t < prev.len() && #[trigger] prev[t] == j;
                assert(d[t] == j);
            } else {
                assert(d[prev.len() as int] == j);
            }
        }
        assert forall|t: int| 0 <= t < d.len() implies {
            let j = #[trigger] d[t];
            &&& 0 <= j < n
            &&& keyed(corr, replies[j].request_id)
            &&& first_with_id(replies, j)
        } by {
            if t < prev.len() {
                assert(d[t] == prev[t]);
            }
        }
        assert forall|a: int, b: int| 0 <= a < b < d.len() implies d[a] < d[b] by {
            if b < prev.len() {
                assert(d[a] == prev[a] && d[b] == prev[b]);
            } else {
                assert(d[a] == prev[a]);
            }
        }
    }
}

/// Some reply at or before `j` carries reply `j`'s id and is the first to.
pub proof fn lemma_first_occurrence(replies: Seq<Response>, j: int)
    requires
        0 <= j < replies.len(),
    ensures
        exists|i: int| 0 <= i <= j && replies[i].request_id == replies[j].request_id
            && #[trigger] first_with_id(replies, i),
    decreases j,
{
    if !first_with_id(replies, j) {
        let i = choose|i: int| 0 <= i < j && #[trigger] replies[i].request_id == replies[j].request_id;
        lemma_first_occurrence(replies, i);
    } else {
        assert(first_with_id(replies, j));
    }
}

/// At-most-once delivery: no two routed replies carry the same request id,
/// so no entry is answered twice; and every reply whose id belongs to an
/// entry of the batch has a routed reply with that id, so each such entry
/// is answered exactly once.
pub proof fn lemma_at_most_once_delivery(corr: Seq<(u64, QueueEntry)>, replies: Seq<Response>)
    ensures
        forall|a: int, b: int| 0 <= a < b < delivered_indices(corr, replies, replies.len() as int).len() ==>
            replies[delivered_indices(corr, replies, replies.len() as int)[a]].request_id
                != replies[delivered_indices(corr, replies, replies.len() as int)[b]].request_id,
        forall|j: int| 0 <= j < replies.len() && #[trigger] keyed(corr, replies[j].request_id) ==>
            exists|t: int| 0 <= t < delivered_indices(corr, replies, replies.len() as int).len()
                && replies[#[trigger] delivered_indices(corr, replies, replies.len() as int)[t]].request_id
                    == replies[j].request_id,
{
    let n = replies.len() as int;
    let d = delivered_indices(corr, replies, n);
    lemma_delivered_indices(corr, replies, n);
    assert forall|a: int, b: int| 0 <= a < b < d.len() implies
        replies[d[a]].request_id != replies[d[b]].request_id by {
        assert(d[a] < d[b]);
        assert(first_with_id(replies, d[b]));
        assert(0 <= d[a]);
    }
    assert forall|j: int| 0 <= j < n && #[trigger] keyed(corr, replies[j].request_id) implies
        exists|t: int| 0 <= t < d.len() && replies[#[trigger] d[t]].request_id == replies[j].request_id by {
        lemma_first_occurrence(replies, j);
        let i = choose|i: int| 0 <= i <= j && replies[i].request_id == replies[j].request_id
            && #[trigger] first_with_id(replies, i);
        let t = choose|t: int| 0 <= t < d.len() && #[trigger] d[t] == i;
        assert(replies[d[t]].request_id == replies[j].request_id);
    }
}

fn copy_strings(v: &Vec<String>) -> (r: Vec<String>)
    ensures
        r@ == v@,
{
    let mut out: Vec<String> = Vec::new();
    let mut i: usize = 0;
    while i < v.len()
        invariant
            i <= v@.len(),
            out@ == v@.take(i as int),
        decreases v@.len() - i,
    {
        out.push(v[i].clone());
        i += 1;
        proof {
            assert(out@ =~= v@.take(i as int));
        }
    }
    proof {
        assert(v@.take(i as int) =~= v@);
    }
    out
}

fn reply_messages(replies: &Vec<Response>) -> (r: Vec<String>)
    ensures
        strings_view(r@) == messages_of(replies@),
{
    let mut out: Vec<String> = Vec::new();
    let mut i: usize = 0;
    while i < replies.len()
        invariant
            i <= replies@.len(),
            out@.len() == i,
            forall|k: int| 0 <= k < i ==> (#[trigger] out@[k])@ == replies@[k].message@,
        decreases replies@.len() - i,
    {
        out.push(replies[i].message.clone());
        i += 1;
    }
    proof {
        assert(strings_view(out@) =~= messages_of(replies@));
    }
    out
}

/// Where `id` stands in the correlation, if anywhere.
fn position_of(corr: &Vec<(u64, QueueEntry)>, id: u64) -> (r: Option<usize>)
    ensures
        r matches Some(k) ==> k < corr@.len() && corr@[k as int].0 == id,
        r is None ==> !keyed(corr@, id),
{
    let mut k: usize = 0;
    while k < corr.len()
        invariant
            k <= corr@.len(),
            forall|i: int| 0 <= i < k ==> (#[trigger] corr@[i]).0 != id,
        decreases corr@.len() - k,
    {
        if corr[k].0 == id {
            return Some(k);
        }
        k += 1;
    }
    None
}

/// Whether no reply before `j` carries reply `j`'s id.
fn is_first_with_id(replies: &Vec<Response>, j: usize) -> (r: bool)
    requires
        j < replies@.len(),
    ensures
        r == first_with_id(replies@, j as int),
{
    let mut i: usize = 0;
    while i < j
        invariant
            i <= j < replies@.len(),
            forall|a: int| 0 <= a < i ==> #[trigger] replies@[a].request_id != replies@[j as int].request_id,
        decreases j - i,
    {
        if replies[i].request_id == replies[j].request_id {
            return false;
        }
        i += 1;
    }
    true
}

/// Pairs each delivered reply with the position of the entry it answers and
/// the response that entry's caller receives. A reply whose id is not in the
/// batch, or whose id an earlier reply already answered, is passed over.
pub fn route_replies(corr: &Vec<(u64, QueueEntry)>, batch_id: u64, answer: &ReplyResponse) -> (r: Vec<(usize, TextReplyResponse)>)
    requires
        ids_increasing(corr@),
    ensures
        r@.len() == delivered_indices(corr@, answer.responses@, answer.responses@.len() as int).len(),
        forall|t: int| 0 <= t < r@.len() ==> {
            let j = delivered_indices(corr@, answer.responses@, answer.responses@.len() as int)[t];
            &&& 0 <= j
            &&& j < answer.responses@.len()
            &&& (#[trigger] r@[t]).0 < corr@.len()
            &&& corr@[r@[t].0 as int].0 == answer.responses@[j].request_id
            &&& describes(r@[t].1, answer.responses@[j], batch_id, answer.responses@, answer.elapsed_bits)
        },
        forall|a: int, b: int| 0 <= a < b < r@.len() ==> r@[a].0 != r@[b].0,
        forall|j: int| 0 <= j < answer.responses@.len() && keyed(corr@, #[trigger] answer.responses@[j].request_id)
            ==> exists|t: int| 0 <= t < r@.len() && corr@[(#[trigger] r@[t]).0 as int].0 == answer.responses@[j].request_id,
{
    let replies = &answer.responses;
    let all = reply_messages(replies);
    let size = #[verifier::truncate] (replies.len() as u32);
    let mut out: Vec<(usize, TextReplyResponse)> = Vec::new();
    let mut j: usize = 0;
    while j < replies.len()
        invariant
            j <= replies@.len(),
            replies == &answer.responses,
            strings_view(all@) == messages_of(replies@),
            size == #[verifier::truncate] (replies@.len() as u32),
            out@.len() == delivered_indices(corr@, replies@, j as int).len(),
            forall|t: int| 0 <= t < out@.len() ==> {
                let d = delivered_indices(corr@, replies@, j as int)[t];
                &&& (#[trigger] out@[t]).0 < corr@.len()
                &&& corr@[out@[t].0 as int].0 == replies@[d].request_id
                &&& describes(out@[t].1, replies@[d], batch_id, replies@, answer.elapsed_bits)
            },
        decreases replies@.len() - j,
    {
        let reply = &replies[j];
        let first = is_first_with_id(replies, j);
        let found = position_of(corr, reply.request_id);
        let ghost out_before = out@;
        let ghost dprev = delivered_indices(corr@, replies@, j as int);
        let ghost dnext = delivered_indices(corr@, replies@, j + 1);
        proof {
            assert(found is Some ==> keyed(corr@, replies@[j as int].request_id));
            if keyed(corr@, replies@[j as int].request_id) && first_with_id(replies@, j as int) {
                assert(dnext == dprev.push(j as int));
            } else {
                assert(dnext == dprev);
            }
        }
        if first {
            if let Some(k) = found {
                let response = TextReplyResponse {
                    message: reply.message.clone(),
                    batch_id: #[verifier::truncate] (batch_id as u32),
                    request_id: #[verifier::truncate] (reply.request_id as u32),
                    batch_size: size,
                    processing_time_bits: answer.elapsed_bits,
                    other_responses: copy_strings(&all),
                };
                out.push((k, response));
                proof {
                    assert(dnext == dprev.push(j as int));
                    assert forall|t: int| 0 <= t < out@.len() implies {
                        let d = dnext[t];
                                &&& (#[trigger] out@[t]).0 < corr@.len()
                        &&& corr@[out@[t].0 as int].0 == replies@[d].request_id
                        &&& describes(out@[t].1, replies@[d], batch_id, replies@, answer.elapsed_bits)
                    } by {
                        if t < out_before.len() {
                            assert(out@[t] == out_before[t]);
                            assert(dnext[t] == dprev[t]);
                        } else {
                            assert(dnext[t] == j as int);
                        }
                    }
                }
            }
        }
        proof {
            if out@.len() == out_before.len() {
                assert(out@ == out_before);
                assert(dnext == dprev);
            }
            assert forall|t: int| 0 <= t < out@.len() implies {
                let d = dnext[t];
                &&& (#[trigger] out@[t]).0 < corr@.len()
                &&& corr@[out@[t].0 as int].0 == replies@[d].request_id
                &&& describes(out@[t].1, replies@[d], batch_id, replies@, answer.elapsed_bits)
            } by {
                if t < out_before.len() {
                    assert(out@[t] == out_before[t]);
                    assert(dnext[t] == dprev[t]);
                }
            }
        }
        j += 1;
    }
    proof {
        let n = replies@.len() as int;
        let d = delivered_indices(corr@, replies@, n);
        lemma_delivered_indices(corr@, replies@, n);
        lemma_at_most_once_delivery(corr@, replies@);
        assert forall|a: int, b: int| 0 <= a < b < out@.len() implies out@[a].0 != out@[b].0 by {
            assert(replies@[d[a]].request_id != replies@[d[b]].request_id);
        }
        assert forall|j: int| 0 <= j < replies@.len() && keyed(corr@, #[trigger] replies@[j].request_id)
            implies exists|t: int| 0 <= t < out@.len() && corr@[(#[trigger] out@[t]).0 as int].0 == replies@[j].request_id by {
            assert(keyed(corr@, replies@[j].request_id));
            let t = choose|t: int| 0 <= t < d.len()
                && replies@[#[trigger] d[t]].request_id == replies@[j].request_id;
            assert(corr@[out@[t].0 as int].0 == replies@[j].request_id);
        }
    }
    out
}

/// Sends each planned response on the channel of the entry it is meant for.
/// Whether a send is accepted depends on the caller still listening; the
/// result counts the accepted ones.
pub fn deliver(corr: &Vec<(u64, QueueEntry)>, plan: Vec<(usize, TextReplyResponse)>) -> (r: usize)
    requires
        forall|t: int| 0 <= t < plan@.len() ==> (#[trigger] plan@[t]).0 < corr@.len(),
    ensures
        r <= plan@.len(),
{
    let mut plan = plan;
    let n0: usize = plan.len();
    let ghost n = plan@.len();
    let mut accepted: usize = 0;
    let mut sent: usize = 0;
    while plan.len() > 0
        invariant
            forall|t: int| 0 <= t < plan@.len() ==> (#[trigger] plan@[t]).0 < corr@.len(),
            accepted <= sent,
            sent + plan@.len() == n,
            n == n0,
        decreases plan@.len(),
    {
        let ghost before = plan@;
        let (k, response) = plan.remove(0);
        assert(before[0].0 < corr@.len());
        assert forall|t: int| 0 <= t < plan@.len() implies (#[trigger] plan@[t]).0 < corr@.len() by {
            assert(plan@[t] == before[t + 1]);
        }
        if sink_send(&corr[k].1.response_tx, response) {
            accepted += 1;
        }
        sent += 1;
    }
    accepted
}

/// Fans a backend answer out to the callers of a batch, then lets the
/// batch's entries go: an entry with no routed reply gets no response.
/// Returns how many of the routed responses their callers accepted.
pub fn dispatch_answer(entries: Vec<(u64, QueueEntry)>, batch_id: u64, answer: &ReplyResponse) -> (r: usize)
    requires
        ids_increasing(entries@),
    ensures
        r <= delivered_indices(entries@, answer.responses@, answer.responses@.len() as int).len(),
{
    let plan = route_replies(&entries, batch_id, answer);
    deliver(&entries, plan)
}

} // verus!
