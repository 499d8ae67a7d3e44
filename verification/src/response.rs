use vstd::prelude::*;
use crate::msg::InboundResponseMessage;

verus! {

/// The response handed back to the transport for one request: HTTP status,
/// header pairs (in order), and body text.
pub struct HttpReply {
    pub status: u16,
    pub headers: Vec<(String, String)>,
    pub body: String,
}

/// View of a header list as character sequences.
pub open spec fn header_views(h: Seq<(String, String)>) -> Seq<(Seq<char>, Seq<char>)> {
    h.map_values(|p: (String, String)| (p.0@, p.1@))
}

/// The five CORS headers that every reply produced by the bridge carries.
pub open spec fn cors_header_views() -> Seq<(Seq<char>, Seq<char>)> {
    seq![
        ("Access-Control-Allow-Origin"@, "*"@),
        ("Access-Control-Allow-Headers"@, "*"@),
        ("Access-Control-Allow-Methods"@, "*"@),
        ("Access-Control-Expose-Headers"@, "*"@),
        ("Access-Control-Allow-Private-Network"@, "true"@),
    ]
}

/// A status code the transport can represent; anything else falls back to 200.
pub open spec fn normalized_status_spec(s: u16) -> u16 {
    if 100 <= s && s <= 999 {
        s
    } else {
        200
    }
}

/// A reply to a preflight request: 200, empty body, the CORS header set.
pub open spec fn is_preflight_reply(r: HttpReply) -> bool {
    &&& r.status == 200
    &&& r.body@ == Seq::<char>::empty()
    &&& header_views(r.headers@) == cors_header_views()
}

/// A reply for a request whose event could not be delivered: 500 with the
/// CORS header set.
pub open spec fn is_dispatch_failure_reply(r: HttpReply) -> bool {
    &&& r.status == 500
    &&& r.body@ == "Internal Server Error"@
    &&& header_views(r.headers@) == cors_header_views()
}

/// A reply for a request whose completion channel closed without a value:
/// 504 with the CORS header set.
pub open spec fn is_await_failure_reply(r: HttpReply) -> bool {
    &&& r.status == 504
    &&& r.body@ == "Gateway Timeout"@
    &&& header_views(r.headers@) == cors_header_views()
}

/// The reply produced from a consumer response: the consumer's status when it
/// is a representable code (falling back to 200), the consumer's body, and
/// the CORS header set.
pub open spec fn is_resolved_reply(r: HttpReply, status: u16, body: Seq<char>) -> bool {
    &&& r.status == normalized_status_spec(status)
    &&& r.body@ == body
    &&& header_views(r.headers@) == cors_header_views()
}

/// Builds the fixed CORS header set attached to every reply.
pub fn cors_headers() -> (h: Vec<(String, String)>)
    ensures
        header_views(h@) == cors_header_views(),
{
    let mut h: Vec<(String, String)> = Vec::new();
    h.push(("Access-Control-Allow-Origin".to_owned(), "*".to_owned()));
    h.push(("Access-Control-Allow-Headers".to_owned(), "*".to_owned()));
    h.push(("Access-Control-Allow-Methods".to_owned(), "*".to_owned()));
    h.push(("Access-Control-Expose-Headers".to_owned(), "*".to_owned()));
    h.push(("Access-Control-Allow-Private-Network".to_owned(), "true".to_owned()));
    proof {
        assert(header_views(h@) =~~= cors_header_views());
    }
    h
}

/// Clamps a consumer-supplied status code to one the transport can
/// represent, falling back to 200 for anything outside that range.
pub fn normalized_status(s: u16) -> (r: u16)
    ensures
        r == normalized_status_spec(s),
{
    if 100 <= s && s <= 999 {
        s
    } else {
        200
    }
}

/// The immediate answer to a CORS preflight request.
pub fn preflight_reply() -> (r: HttpReply)
    ensures
        is_preflight_reply(r),
{
    HttpReply { status: 200, headers: cors_headers(), body: String::new() }
}

/// The answer when the request event could not be serialized or delivered.
pub fn dispatch_failure_reply() -> (r: HttpReply)
    ensures
        is_dispatch_failure_reply(r),
{
    HttpReply { status: 500, headers: cors_headers(), body: "Internal Server Error".to_owned() }
}

/// The answer when the completion channel closed without a response.
pub fn await_failure_reply() -> (r: HttpReply)
    ensures
        is_await_failure_reply(r),
{
    HttpReply { status: 504, headers: cors_headers(), body: "Gateway Timeout".to_owned() }
}

/// The answer built from the consumer's response message.
pub fn resolved_reply(m: &InboundResponseMessage) -> (r: HttpReply)
    ensures
        is_resolved_reply(r, m.status, m.body@),
{
    HttpReply { status: normalized_status(m.status), headers: cors_headers(), body: m.body.clone() }
}

} // verus!
