use vstd::prelude::*;
use tokio::sync::oneshot::{Receiver, Sender};
use crate::codec::{encode_event, encode_event_spec};
use crate::idgen::IdentifierGenerator;
use crate::msg::{InboundResponseMessage, OutboundRequestEvent};
use crate::parse::{parse_response, parse_response_spec};
use crate::response::{
    dispatch_failure_reply, header_views, is_dispatch_failure_reply, is_preflight_reply,
    preflight_reply, HttpReply,
};
use crate::table::CorrelationTable;

verus! {

/// Declares tokio's oneshot sender: the write-once half of a completion
/// channel, opaque to the verifier.
#[verifier::external_type_specification]
#[verifier::external_body]
#[verifier::reject_recursive_types(T)]
pub struct ExSender<T>(Sender<T>);

/// Declares tokio's oneshot receiver: the awaiting half of a completion
/// channel, opaque to the verifier.
#[verifier::external_type_specification]
#[verifier::external_body]
#[verifier::reject_recursive_types(T)]
pub struct ExReceiver<T>(Receiver<T>);

/// Declares the error a dropped oneshot sender produces on the awaiting
/// side; the bridge itself never constructs or reads one.
#[verifier::external_type_specification]
#[verifier::external_body]
pub struct ExRecvError(tokio::sync::oneshot::error::RecvError);

/// Relies on tokio::sync::oneshot::channel: a fresh single-use channel; the
/// two halves are paired with each other and with no other channel.
#[verifier::external_body]
fn completion_channel() -> (Sender<InboundResponseMessage>, Receiver<InboundResponseMessage>) {
    tokio::sync::oneshot::channel()
}

/// Relies on tokio::sync::oneshot::Sender::send: consumes the sender, and
/// either delivers the message to the paired receiver or, when that receiver
/// is already gone, hands the message back unchanged.
#[verifier::external_body]
fn resolve_completion(tx: Sender<InboundResponseMessage>, m: InboundResponseMessage) -> (r: Result<
    (),
    InboundResponseMessage,
>)
    ensures
        r matches Err(back) ==> back == m,
{
    tx.send(m)
}

/// The method whose requests are answered immediately, without engaging the
/// correlation machinery.
pub open spec fn is_preflight_method(m: Seq<char>) -> bool {
    m == "OPTIONS"@
}

/// What `begin_request` decided for one inbound request.
pub enum BeginOutcome {
    /// A preflight request: answer at once, nothing was registered.
    Preflight { reply: HttpReply },
    /// A registered request: emit `payload` to the consumer, then either
    /// await `completion` or, if delivery failed, roll back via
    /// `dispatch_failed`.
    Dispatch { id: u64, payload: String, completion: Receiver<InboundResponseMessage> },
}

/// What `handle_response_payload` did with one inbound response payload.
pub enum IntakeOutcome {
    /// The payload was not a well-formed response message; it was discarded.
    Malformed,
    /// The payload named a correlation id with no pending entry; it was
    /// discarded.
    Unknown { id: u64 },
    /// The pending entry was removed and its completion handle resolved.
    Resolved { id: u64 },
    /// The pending entry was removed, but the awaiting side had already
    /// gone away; ignored.
    CompletionDropped { id: u64 },
}

/// The request/response correlation bridge: the pending-request table and
/// the identifier generator, with the decisions a request or response moves
/// through. The transport drives it: it calls `begin_request` per inbound
/// request, delivers the returned payload to the consumer, and hands every
/// consumer payload to `handle_response_payload`.
pub struct Bridge {
    table: CorrelationTable<Sender<InboundResponseMessage>>,
    ids: IdentifierGenerator,
}

impl Bridge {
    /// The pending entries: correlation id to registered completion handle.
    pub closed spec fn pending(&self) -> Map<u64, Sender<InboundResponseMessage>> {
        self.table@
    }

    /// The correlation id the next registration will use.
    pub closed spec fn next_id(&self) -> u64 {
        self.ids.next_spec()
    }

    /// Every pending id was issued before the counter's current value; this
    /// is what keeps fresh ids distinct from all pending ones.
    pub open spec fn wf(&self) -> bool {
        forall|k: u64| self.pending().contains_key(k) ==> k < self.next_id()
    }

    /// A fresh bridge: no pending requests, ids starting at one.
    pub fn new() -> (b: Self)
        ensures
            b.pending() == Map::<u64, Sender<InboundResponseMessage>>::empty(),
            b.next_id() == 1,
            b.wf(),
    {
        let b = Bridge { table: CorrelationTable::new(), ids: IdentifierGenerator::new() };
        proof {
            assert(b.wf());
        }
        b
    }

    /// The number of requests currently awaiting a response; diagnostic only.
    pub fn pending_len(&self) -> (n: usize)
        ensures
            n == self.pending().len(),
    {
        self.table.len()
    }

    /// Accepts one inbound request. A preflight request is answered at once
    /// and nothing is registered. Any other request is assigned the next
    /// correlation id, registered in the table, and serialized as an event
    /// for the consumer; the caller must deliver the payload and then await
    /// the completion handle.
    pub fn begin_request(
        &mut self,
        method: String,
        path: String,
        headers: Vec<(String, String)>,
        body: String,
    ) -> (out: BeginOutcome)
        ensures
            final(self).next_id() == if is_preflight_method(method@) {
                old(self).next_id()
            } else if old(self).next_id() == u64::MAX {
                0u64
            } else {
                (old(self).next_id() + 1) as u64
            },
            is_preflight_method(method@) ==> {
                &&& out matches BeginOutcome::Preflight { reply } && is_preflight_reply(reply)
                &&& final(self).pending() == old(self).pending()
            },
            !is_preflight_method(method@) ==> (out matches BeginOutcome::Dispatch {
                id,
                payload,
                completion,
            } ==> {
                &&& id == old(self).next_id()
                &&& payload@ == encode_event_spec(
                    method@,
                    path@,
                    header_views(headers@),
                    body@,
                    id,
                )
                &&& final(self).pending().dom() == old(self).pending().dom().insert(id)
                &&& forall|k: u64|
                    k != id && old(self).pending().contains_key(k)
                        ==> final(self).pending()[k] == old(self).pending()[k]
                &&& old(self).wf() ==> !old(self).pending().contains_key(id)
            }),
            !is_preflight_method(method@) ==> out is Dispatch,
            old(self).wf() && old(self).next_id() < u64::MAX ==> final(self).wf(),
    {
        let preflight = "OPTIONS".to_owned();
        if method == preflight {
            let reply = preflight_reply();
            return BeginOutcome::Preflight { reply };
        }
        let id = self.ids.next();
        let (tx, completion) = completion_channel();
        self.table.insert(id, tx);
        let event = OutboundRequestEvent { method, path, headers, body, request_id: id };
        let payload = encode_event(&event);
        BeginOutcome::Dispatch { id, payload, completion }
    }

    /// Rolls back a registered request whose event could not be serialized
    /// or delivered: the entry leaves the table (dropping its completion
    /// handle), and the caller gets the 500 reply to return. Safe to call
    /// even if the entry is already gone.
    pub fn dispatch_failed(&mut self, id: u64) -> (reply: HttpReply)
        ensures
            final(self).pending() == old(self).pending().remove(id),
            final(self).next_id() == old(self).next_id(),
            old(self).wf() ==> final(self).wf(),
            is_dispatch_failure_reply(reply),
    {
        let _ = self.table.take(id);
        proof {
            if old(self).wf() {
                assert forall|k: u64| self.pending().contains_key(k) implies k < self.next_id() by {
                    assert(old(self).pending().contains_key(k));
                }
            }
        }
        dispatch_failure_reply()
    }

    /// Takes one inbound response payload, out of band from any request. A
    /// payload that does not parse is discarded and nothing changes. A
    /// parsed message whose id has no pending entry is discarded and nothing
    /// changes. Otherwise the entry is atomically removed and its completion
    /// handle resolved with the message; a failure to resolve (the awaiting
    /// side already gave up) is reported but not escalated.
    pub fn handle_response_payload(&mut self, payload: &str) -> (out: IntakeOutcome)
        ensures
            final(self).next_id() == old(self).next_id(),
            old(self).wf() ==> final(self).wf(),
            match parse_response_spec(payload@) {
                None => out is Malformed && final(self).pending() == old(self).pending(),
                Some(m) => {
                    if old(self).pending().contains_key(m.0) {
                        &&& final(self).pending() == old(self).pending().remove(m.0)
                        &&& (out matches IntakeOutcome::Resolved { id } && id == m.0) || (
                        out matches IntakeOutcome::CompletionDropped { id } && id == m.0)
                    } else {
                        &&& out matches IntakeOutcome::Unknown { id } && id == m.0
                        &&& final(self).pending() == old(self).pending()
                    }
                },
            },
    {
        let chars = crate::codec::chars_of(payload);
        match parse_response(&chars) {
            None => IntakeOutcome::Malformed,
            Some(m) => {
                let id = m.request_id;
                let taken = self.table.take(id);
                proof {
                    if old(self).wf() {
                        assert forall|k: u64| self.pending().contains_key(k) implies k
                            < self.next_id() by {
                            assert(old(self).pending().contains_key(k));
                        }
                    }
                }
                match taken {
                    None => IntakeOutcome::Unknown { id },
                    Some(tx) => {
                        match resolve_completion(tx, m) {
                            Ok(_) => IntakeOutcome::Resolved { id },
                            Err(_) => IntakeOutcome::CompletionDropped { id },
                        }
                    },
                }
            },
        }
    }
}

/// Uniqueness of correlation ids: on a well-formed bridge the id that the
/// next registration will use is pending for no other request, so no two
/// concurrently pending requests are ever assigned the same id.
pub proof fn lemma_fresh_id_not_pending(b: &Bridge)
    requires
        b.wf(),
    ensures
        !b.pending().contains_key(b.next_id()),
{
}

/// At-most-once resolution: once the entry for an id has been taken, the
/// table no longer holds that id, so a second response message for the same
/// id finds no entry and (by `handle_response_payload`'s contract) is
/// discarded without any observable effect.
pub proof fn lemma_at_most_once_resolution(
    pending: Map<u64, Sender<InboundResponseMessage>>,
    id: u64,
)
    ensures
        !pending.remove(id).contains_key(id),
{
}

/// Independence of distinct requests: taking the entry for one id, whether
/// on resolution or on dispatch-failure cleanup, leaves the entry of every
/// other id present and unchanged; responses may therefore arrive in any
/// order, and each pending request keeps exactly the handle registered for
/// it.
pub proof fn lemma_resolution_independence(
    pending: Map<u64, Sender<InboundResponseMessage>>,
    taken: u64,
    other: u64,
)
    requires
        taken != other,
        pending.contains_key(other),
    ensures
        pending.remove(taken).contains_key(other),
        pending.remove(taken)[other] == pending[other],
{
}

} // verus!
