use vstd::prelude::*;

verus! {

/// Wire-level payload describing one inbound HTTP request, delivered to the
/// external consumer as a JSON event.
pub struct OutboundRequestEvent {
    pub method: String,
    pub path: String,
    pub headers: Vec<(String, String)>,
    pub body: String,
    pub request_id: u64,
}

/// Wire-level payload sent back by the consumer: which request it answers,
/// the HTTP status to return, and the response body.
pub struct InboundResponseMessage {
    pub request_id: u64,
    pub status: u16,
    pub body: String,
}

} // verus!
