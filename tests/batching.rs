use batch_router::backend::echo_replies;
use batch_router::dispatch::{dispatch_answer, route_replies};
use batch_router::dispatcher::{dispatch_step, DispatchAction, DispatchEvent, DispatchPhase};
use batch_router::{
    ClientBatch, HttpRequest, QueueEntry, QueueState, ReplyResponse, Response, TextReplyRequest,
    TextReplyResponse,
};
use tokio::sync::mpsc::{unbounded_channel, UnboundedReceiver};

fn entry(message: &str) -> (QueueEntry, UnboundedReceiver<TextReplyResponse>) {
    let (tx, rx) = unbounded_channel();
    let e = QueueEntry {
        request: TextReplyRequest { message: message.to_string() },
        response_tx: tx,
    };
    (e, rx)
}

fn ids_and_messages(batch: &ClientBatch) -> Vec<(u64, String)> {
    batch.requests().iter().map(|r| (r.id(), r.message().clone())).collect()
}

#[test]
fn three_requests_form_one_batch() {
    let mut q = QueueState::new();
    let mut receivers = Vec::new();
    for m in ["a", "b", "c"] {
        let (e, rx) = entry(m);
        q.append(e);
        receivers.push(rx);
    }
    let nb = q.next_batch().expect("a batch");
    assert_eq!(nb.batch.size(), 3);
    assert_eq!(nb.batch.id(), 1);
    assert_eq!(
        ids_and_messages(&nb.batch),
        vec![(1, "a".to_string()), (2, "b".to_string()), (3, "c".to_string())]
    );
    assert_eq!(q.len(), 0);

    let wire = nb.batch.to_grpc_batch();
    assert_eq!(wire.size, 3);
    let answer = ReplyResponse { responses: echo_replies(&wire), elapsed_bits: 0.5f32.to_bits() };
    let accepted = dispatch_answer(nb.entries, nb.batch.id(), &answer);
    assert_eq!(accepted, 3);
    for (rx, m) in receivers.iter_mut().zip(["a", "b", "c"]) {
        let resp = rx.try_recv().expect("one response");
        assert_eq!(resp.message, format!("Response for [{}]", m));
        assert_eq!(resp.other_responses.len(), 3);
        assert_eq!(resp.batch_size, 3);
        assert_eq!(resp.batch_id, 1);
        assert_eq!(f32::from_bits(resp.processing_time_bits), 0.5);
        assert!(rx.try_recv().is_err());
    }
}

#[test]
fn abandoned_single_request_gives_no_batch() {
    let mut q = QueueState::new();
    let (e, rx) = entry("only");
    q.append(e);
    drop(rx);
    assert!(q.next_batch().is_none());
    assert_eq!(q.len(), 0);
}

#[test]
fn abandoned_then_live_request() {
    let mut q = QueueState::new();
    let (x, rx_x) = entry("x");
    q.append(x);
    drop(rx_x);
    let (y, _rx_y) = entry("y");
    q.append(y);
    let nb = q.next_batch().expect("a batch");
    assert_eq!(nb.batch.size(), 1);
    assert_eq!(ids_and_messages(&nb.batch), vec![(2, "y".to_string())]);
    assert_eq!(nb.entries.len(), 1);
    assert_eq!(nb.entries[0].0, 2);
}

#[test]
fn backend_failure_leaves_callers_without_reply() {
    let mut q = QueueState::new();
    let (a, mut rx_a) = entry("a");
    let (b, mut rx_b) = entry("b");
    q.append(a);
    q.append(b);
    let nb = q.next_batch().expect("a batch");
    assert_eq!(nb.batch.size(), 2);
    let (phase, action) = dispatch_step(DispatchPhase::Calling, DispatchEvent::BackendDone { ok: false });
    assert_eq!(action, DispatchAction::DropBatch);
    assert_eq!(phase, DispatchPhase::Draining);
    drop(nb);
    assert!(rx_a.try_recv().is_err());
    assert!(rx_b.try_recv().is_err());
}

#[test]
fn sequence_ids_increase_across_batches() {
    let mut q = QueueState::new();
    let mut keep = Vec::new();
    for m in ["p", "q"] {
        let (e, rx) = entry(m);
        q.append(e);
        keep.push(rx);
    }
    let first = q.next_batch().expect("first batch");
    for m in ["r", "s", "t"] {
        let (e, rx) = entry(m);
        q.append(e);
        keep.push(rx);
    }
    let second = q.next_batch().expect("second batch");
    let ids: Vec<u64> = ids_and_messages(&first.batch)
        .into_iter()
        .chain(ids_and_messages(&second.batch))
        .map(|(id, _)| id)
        .collect();
    assert_eq!(ids, vec![1, 2, 3, 4, 5]);
    assert_eq!(first.batch.id(), 1);
    assert_eq!(second.batch.id(), 2);
}

#[test]
fn empty_extraction_keeps_batch_counter() {
    let mut q = QueueState::new();
    assert!(q.next_batch().is_none());
    let (e, _rx) = entry("z");
    q.append(e);
    let nb = q.next_batch().expect("a batch");
    assert_eq!(nb.batch.id(), 1);
    assert!(q.next_batch().is_none());
}

#[test]
fn extraction_with_flags_prunes_exactly_the_flagged() {
    let mut q = QueueState::new();
    let mut keep = Vec::new();
    for m in ["a", "b", "c", "d"] {
        let (e, rx) = entry(m);
        q.append(e);
        keep.push(rx);
    }
    let nb = q.next_batch_with(&vec![false, true, false, true]).expect("a batch");
    assert_eq!(nb.batch.size(), 2);
    assert_eq!(ids_and_messages(&nb.batch), vec![(1, "a".to_string()), (3, "c".to_string())]);
    assert_eq!(q.len(), 0);

    let (e, _rx) = entry("e");
    q.append(e);
    assert!(q.next_batch_with(&vec![true]).is_none());
    assert_eq!(q.len(), 0);
}

fn batch_of(messages: &[&str]) -> (QueueState, Vec<UnboundedReceiver<TextReplyResponse>>) {
    let mut q = QueueState::new();
    let mut rxs = Vec::new();
    for m in messages {
        let (e, rx) = entry(m);
        q.append(e);
        rxs.push(rx);
    }
    (q, rxs)
}

#[test]
fn replies_correlate_by_id_not_position() {
    let (mut q, _rxs) = batch_of(&["a", "b", "c"]);
    let nb = q.next_batch().expect("a batch");
    let answer = ReplyResponse {
        responses: vec![
            Response { request_id: 3, message: "C".to_string() },
            Response { request_id: 1, message: "A".to_string() },
            Response { request_id: 2, message: "B".to_string() },
        ],
        elapsed_bits: 7,
    };
    let plan = route_replies(&nb.entries, 9, &answer);
    let routed: Vec<(u64, String, u32)> = plan
        .iter()
        .map(|(k, r)| (nb.entries[*k].0, r.message.clone(), r.request_id))
        .collect();
    assert_eq!(
        routed,
        vec![(3, "C".to_string(), 3), (1, "A".to_string(), 1), (2, "B".to_string(), 2)]
    );
    for (_, r) in &plan {
        assert_eq!(r.batch_id, 9);
        assert_eq!(r.batch_size, 3);
        assert_eq!(r.processing_time_bits, 7);
        assert_eq!(r.other_responses, vec!["C".to_string(), "A".to_string(), "B".to_string()]);
    }
}

#[test]
fn duplicate_and_unknown_replies_are_passed_over() {
    let (mut q, mut rxs) = batch_of(&["a", "b"]);
    let nb = q.next_batch().expect("a batch");
    let answer = ReplyResponse {
        responses: vec![
            Response { request_id: 1, message: "first".to_string() },
            Response { request_id: 1, message: "again".to_string() },
            Response { request_id: 42, message: "stray".to_string() },
        ],
        elapsed_bits: 0,
    };
    let plan = route_replies(&nb.entries, 1, &answer);
    assert_eq!(plan.len(), 1);
    assert_eq!(plan[0].0, 0);
    assert_eq!(plan[0].1.message, "first");
    assert_eq!(plan[0].1.batch_size, 3);
    assert_eq!(dispatch_answer(nb.entries, 1, &answer), 1);
    assert_eq!(rxs[0].try_recv().expect("one response").message, "first");
    assert!(rxs[0].try_recv().is_err());
    assert!(rxs[1].try_recv().is_err());
}

#[test]
fn response_for_abandoned_caller_is_not_accepted() {
    let (mut q, mut rxs) = batch_of(&["a", "b"]);
    let nb = q.next_batch().expect("a batch");
    drop(rxs.remove(1));
    let answer = ReplyResponse {
        responses: vec![
            Response { request_id: 1, message: "A".to_string() },
            Response { request_id: 2, message: "B".to_string() },
        ],
        elapsed_bits: 0,
    };
    assert_eq!(dispatch_answer(nb.entries, 1, &answer), 1);
    assert_eq!(rxs[0].try_recv().expect("one response").message, "A");
}

#[test]
fn echo_backend_frames_each_message() {
    let batch = ClientBatch::new(
        4,
        2,
        vec![HttpRequest::new(10, "hi".to_string()), HttpRequest::new(11, String::new())],
    );
    let wire = batch.to_grpc_batch();
    assert_eq!(wire.id, 4);
    assert_eq!(wire.size, 2);
    assert_eq!(wire.requests[0].id, 10);
    assert_eq!(wire.requests[1].message, "");
    let replies = echo_replies(&wire);
    assert_eq!(replies.len(), 2);
    assert_eq!(replies[0].request_id, 10);
    assert_eq!(replies[0].message, "Response for [hi]");
    assert_eq!(replies[1].request_id, 11);
    assert_eq!(replies[1].message, "Response for []");
}

#[test]
fn http_request_keeps_its_fields() {
    let r = HttpRequest::new(7, "msg".to_string());
    assert_eq!(r.id(), 7);
    assert_eq!(r.message(), "msg");
    let b = ClientBatch::new(3, 1, vec![r]);
    assert_eq!(b.id(), 3);
    assert_eq!(b.size(), 1);
    assert_eq!(b.requests().len(), 1);
}

#[test]
fn dispatcher_cycle() {
    let (p, a) = dispatch_step(DispatchPhase::Idle, DispatchEvent::Woken);
    assert_eq!((p, a), (DispatchPhase::Accumulating, DispatchAction::Sleep { seconds: 2 }));
    let (p, a) = dispatch_step(DispatchPhase::Accumulating, DispatchEvent::Woken);
    assert_eq!((p, a), (DispatchPhase::Accumulating, DispatchAction::Ignore));
    let (p, a) = dispatch_step(DispatchPhase::Accumulating, DispatchEvent::WindowElapsed);
    assert_eq!((p, a), (DispatchPhase::Draining, DispatchAction::Extract));
    let (p, a) = dispatch_step(DispatchPhase::Draining, DispatchEvent::Extracted { found: true });
    assert_eq!((p, a), (DispatchPhase::Calling, DispatchAction::CallBackend));
    let (p, a) = dispatch_step(DispatchPhase::Calling, DispatchEvent::BackendDone { ok: true });
    assert_eq!((p, a), (DispatchPhase::Draining, DispatchAction::DeliverReplies));
    let (p, a) = dispatch_step(DispatchPhase::Draining, DispatchEvent::Settled);
    assert_eq!((p, a), (DispatchPhase::Draining, DispatchAction::Extract));
    let (p, a) = dispatch_step(DispatchPhase::Draining, DispatchEvent::Extracted { found: false });
    assert_eq!((p, a), (DispatchPhase::Idle, DispatchAction::AwaitWake));
}
