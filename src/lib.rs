//! A micro-batching layer in front of a reply backend: requests are queued,
//! coalesced into batches, and the backend's replies are routed back to the
//! callers that asked for them.

pub mod backend;
pub mod dispatch;
pub mod dispatcher;
pub mod launcher;
pub mod model;
pub mod queue;
pub mod sink;

pub use model::{
    Batch, ClientBatch, HttpRequest, ReplyResponse, Request, Response, TextReplyRequest,
    TextReplyResponse,
};
pub use queue::{NextBatch, QueueEntry, QueueState};
