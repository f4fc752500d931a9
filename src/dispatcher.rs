//! The dispatcher's decisions. The loop that runs them waits for wake-ups,
//! sleeps through the accumulation window, calls the backend and sends the
//! responses; each time it reports what happened and is told what to do next.

use vstd::prelude::*;

verus! {

/// How long, after a wake-up, the dispatcher lets requests accumulate.
pub const ACCUMULATION_WINDOW_SECS: u64 = 2;

#[derive(Debug, PartialEq, Eq, Structural)]
pub enum DispatchPhase {
    /// Waiting for a wake-up.
    Idle,
    /// Letting requests accumulate.
    Accumulating,
    /// Extracting batches until there is none.
    Draining,
    /// Waiting for the backend's answer to a batch.
    Calling,
}

#[derive(Debug, PartialEq, Eq, Structural)]
pub enum DispatchEvent {
    /// An enqueue signalled that work may be there.
    Woken,
    /// The accumulation window is over.
    WindowElapsed,
    /// An extraction returned a batch, or none.
    Extracted { found: bool },
    /// The backend answered the batch, or failed.
    BackendDone { ok: bool },
    /// The responses of the last batch were handed out or let go.
    Settled,
}

#[derive(Debug, PartialEq, Eq, Structural)]
pub enum DispatchAction {
    /// Wait for the next wake-up.
    AwaitWake,
    /// Sleep this many seconds.
    Sleep { seconds: u64 },
    /// Extract the next batch.
    Extract,
    /// Send the extracted batch to the backend.
    CallBackend,
    /// Route the backend's replies to the batch's callers.
    DeliverReplies,
    /// Let the batch go: none of its callers receives a response.
    DropBatch,
    /// Nothing to do for this event.
    Ignore,
}

/// The dispatcher's transition table.
pub open spec fn dispatch_next(phase: DispatchPhase, event: DispatchEvent) -> (DispatchPhase, DispatchAction) {
    match (phase, event) {
        (DispatchPhase::Idle, DispatchEvent::Woken) =>
            (DispatchPhase::Accumulating, DispatchAction::Sleep { seconds: ACCUMULATION_WINDOW_SECS }),
        (DispatchPhase::Accumulating, DispatchEvent::WindowElapsed) =>
            (DispatchPhase::Draining, DispatchAction::Extract),
        (DispatchPhase::Draining, DispatchEvent::Extracted { found }) =>
            if found {
                (DispatchPhase::Calling, DispatchAction::CallBackend)
            } else {
                (DispatchPhase::Idle, DispatchAction::AwaitWake)
            },
        (DispatchPhase::Calling, DispatchEvent::BackendDone { ok }) =>
            if ok {
                (DispatchPhase::Draining, DispatchAction::DeliverReplies)
            } else {
                (DispatchPhase::Draining, DispatchAction::DropBatch)
            },
        (DispatchPhase::Draining, DispatchEvent::Settled) =>
            (DispatchPhase::Draining, DispatchAction::Extract),
        (p, _) => (p, DispatchAction::Ignore),
    }
}

/// One step of the dispatcher. A wake-up while it is busy is ignored: it
/// drains until an extraction finds nothing, so no queued work is missed.
pub fn dispatch_step(phase: DispatchPhase, event: DispatchEvent) -> (r: (DispatchPhase, DispatchAction))
    ensures
        r == dispatch_next(phase, event),
{
    match (phase, event) {
        (DispatchPhase::Idle, DispatchEvent::Woken) =>
            (DispatchPhase::Accumulating, DispatchAction::Sleep { seconds: ACCUMULATION_WINDOW_SECS }),
        (DispatchPhase::Accumulating, DispatchEvent::WindowElapsed) =>
            (DispatchPhase::Draining, DispatchAction::Extract),
        (DispatchPhase::Draining, DispatchEvent::Extracted { found }) => {
            if found {
                (DispatchPhase::Calling, DispatchAction::CallBackend)
            } else {
                (DispatchPhase::Idle, DispatchAction::AwaitWake)
            }
        },
        (DispatchPhase::Calling, DispatchEvent::BackendDone { ok }) => {
            if ok {
                (DispatchPhase::Draining, DispatchAction::DeliverReplies)
            } else {
                (DispatchPhase::Draining, DispatchAction::DropBatch)
            }
        },
        (DispatchPhase::Draining, DispatchEvent::Settled) =>
            (DispatchPhase::Draining, DispatchAction::Extract),
        (p, _) => (p, DispatchAction::Ignore),
    }
}

/// Draining ends only on an extraction that finds nothing, and a failed
/// backend call abandons its batch without a response to anyone.
pub proof fn lemma_dispatch_drains(phase: DispatchPhase, event: DispatchEvent)
    ensures
        dispatch_next(phase, event).0 is Idle && !(phase is Idle)
            ==> phase is Draining && event == (DispatchEvent::Extracted { found: false }),
        phase is Calling && event == (DispatchEvent::BackendDone { ok: false })
            ==> dispatch_next(phase, event).1 is DropBatch,
{
}

} // verus!
