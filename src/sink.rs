//! The callers' private reply channels are tokio unbounded senders. Whether a
//! caller still listens, and whether a send is accepted, depend on the other
//! task: the wrappers below promise nothing about their results.

use vstd::prelude::*;
use tokio::sync::mpsc::UnboundedSender;
use crate::model::TextReplyResponse;

verus! {

#[verifier::external_type_specification]
#[verifier::external_body]
#[verifier::reject_recursive_types(T)]
pub struct ExUnboundedSender<T>(UnboundedSender<T>);

/// Relies on tokio's `UnboundedSender::is_closed`: true once the receiving
/// half has been dropped or closed.
#[verifier::external_body]
pub(crate) fn sink_is_closed(tx: &UnboundedSender<TextReplyResponse>) -> (r: bool) {
    tx.is_closed()
}

/// Relies on tokio's `UnboundedSender::send`: hands the response to the
/// receiver without blocking; false where the receiver is gone.
#[verifier::external_body]
pub(crate) fn sink_send(tx: &UnboundedSender<TextReplyResponse>, response: TextReplyResponse) -> (r: bool) {
    tx.send(response).is_ok()
}

} // verus!
