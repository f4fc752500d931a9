//! The stub backend: it answers each request of a batch with its message
//! framed as `Response for [...]`, tagged with the request's id.

use vstd::prelude::*;
use crate::model::{Batch, Response};

verus! {

pub open spec fn echo_text(message: Seq<char>) -> Seq<char> {
    "Response for ["@ + message + "]"@
}

pub fn echo_replies(batch: &Batch) -> (r: Vec<Response>)
    ensures
        r@.len() == batch.requests@.len(),
        forall|i: int| 0 <= i < r@.len() ==> (#[trigger] r@[i]).request_id == batch.requests@[i].id
            && r@[i].message@ == echo_text(batch.requests@[i].message@),
{
    let mut out: Vec<Response> = Vec::new();
    let mut i: usize = 0;
    while i < batch.requests.len()
        invariant
            i <= batch.requests@.len(),
            out@.len() == i,
            forall|k: int| 0 <= k < i ==> (#[trigger] out@[k]).request_id == batch.requests@[k].id
                && out@[k].message@ == echo_text(batch.requests@[k].message@),
        decreases batch.requests@.len() - i,
    {
        let request = &batch.requests[i];
        let mut text = String::from_str("Response for [");
        text.append(request.message.as_str());
        text.append("]");
        out.push(Response { request_id: request.id, message: text });
        i += 1;
    }
    out
}

} // verus!
