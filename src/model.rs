//! Value types: requests and replies as the callers see them, and batches as
//! the backend sees them.

use vstd::prelude::*;

verus! {

/// What a caller submits.
pub struct TextReplyRequest {
    pub message: String,
}

/// What a caller receives for its request.
///
/// `processing_time_bits` is the bit pattern of the backend's reported
/// elapsed seconds (an IEEE-754 single), carried through unchanged.
pub struct TextReplyResponse {
    pub message: String,
    pub batch_id: u32,
    pub request_id: u32,
    pub batch_size: u32,
    pub processing_time_bits: u32,
    pub other_responses: Vec<String>,
}

/// One request of a batch: the queue's sequence id and the caller's message.
pub struct HttpRequest {
    id: u64,
    message: String,
}

impl View for HttpRequest {
    type V = (u64, Seq<char>);

    closed spec fn view(&self) -> (u64, Seq<char>) {
        (self.id, self.message@)
    }
}

impl HttpRequest {
    pub fn new(id: u64, message: String) -> (r: Self)
        ensures
            r@ == (id, message@),
    {
        Self { id, message }
    }

    pub fn id(&self) -> (r: u64)
        ensures
            r == self@.0,
    {
        self.id
    }

    pub fn message(&self) -> (r: &String)
        ensures
            r@ == self@.1,
    {
        &self.message
    }
}

/// A batch as the queue assembles it. Its declared size always equals the
/// number of requests it holds.
pub struct ClientBatch {
    id: u64,
    size: u32,
    requests: Vec<HttpRequest>,
}

/// The requests of a batch as (id, message) pairs.
pub open spec fn requests_view(v: Seq<HttpRequest>) -> Seq<(u64, Seq<char>)> {
    v.map_values(|r: HttpRequest| r@)
}

/// A batch is viewed as its id, its declared size and its (id, message) pairs.
impl View for ClientBatch {
    type V = (u64, u32, Seq<(u64, Seq<char>)>);

    closed spec fn view(&self) -> (u64, u32, Seq<(u64, Seq<char>)>) {
        (self.id, self.size, requests_view(self.requests@))
    }
}

impl ClientBatch {
    /// The declared size equals the number of requests.
    pub open spec fn wf(&self) -> bool {
        self@.1 as nat == self@.2.len()
    }

    pub fn new(id: u64, size: u32, requests: Vec<HttpRequest>) -> (r: Self)
        requires
            size as nat == requests@.len(),
        ensures
            r.wf(),
            r@ == (id, size, requests_view(requests@)),
    {
        Self { id, size, requests }
    }

    pub fn id(&self) -> (r: u64)
        ensures
            r == self@.0,
    {
        self.id
    }

    pub fn size(&self) -> (r: u32)
        ensures
            r == self@.1,
    {
        self.size
    }

    pub fn requests(&self) -> (r: &Vec<HttpRequest>)
        ensures
            requests_view(r@) == self@.2,
    {
        &self.requests
    }

    /// The wire shape of this batch; its size is recomputed from the requests.
    pub fn to_grpc_batch(&self) -> (r: Batch)
        requires
            self@.2.len() <= u32::MAX,
        ensures
            r.id == self@.0,
            r.size as nat == r.requests@.len(),
            wire_requests_view(r.requests@) == self@.2,
    {
        let mut requests: Vec<Request> = Vec::new();
        let mut i: usize = 0;
        while i < self.requests.len()
            invariant
                i <= self.requests@.len(),
                self.requests@.len() <= u32::MAX,
                requests@.len() == i,
                forall|k: int| 0 <= k < i ==> (#[trigger] requests@[k])@ == self.requests@[k]@,
            decreases self.requests@.len() - i,
        {
            let request = &self.requests[i];
            requests.push(Request { id: request.id, message: request.message.clone() });
            i += 1;
        }
        proof {
            assert(wire_requests_view(requests@) =~= self@.2);
        }
        let size = requests.len() as u32;
        Batch { id: self.id, size, requests }
    }
}

/// One request as the backend receives it.
pub struct Request {
    pub id: u64,
    pub message: String,
}

impl View for Request {
    type V = (u64, Seq<char>);

    open spec fn view(&self) -> (u64, Seq<char>) {
        (self.id, self.message@)
    }
}

/// A batch as the backend receives it.
pub struct Batch {
    pub id: u64,
    pub size: u32,
    pub requests: Vec<Request>,
}

pub open spec fn wire_requests_view(v: Seq<Request>) -> Seq<(u64, Seq<char>)> {
    v.map_values(|r: Request| r@)
}

/// One reply of the backend, tagged with the request id it answers.
pub struct Response {
    pub request_id: u64,
    pub message: String,
}

/// The backend's answer to a batch; `elapsed_bits` is the bit pattern of the
/// elapsed seconds it reports.
pub struct ReplyResponse {
    pub responses: Vec<Response>,
    pub elapsed_bits: u32,
}

} // verus!
