use correlation_bridge::bridge::{BeginOutcome, Bridge, IntakeOutcome};
use correlation_bridge::response::{await_failure_reply, resolved_reply};

fn expected_cors() -> Vec<(String, String)> {
    vec![
        ("Access-Control-Allow-Origin".to_string(), "*".to_string()),
        ("Access-Control-Allow-Headers".to_string(), "*".to_string()),
        ("Access-Control-Allow-Methods".to_string(), "*".to_string()),
        ("Access-Control-Expose-Headers".to_string(), "*".to_string()),
        (
            "Access-Control-Allow-Private-Network".to_string(),
            "true".to_string(),
        ),
    ]
}

fn begin(
    b: &mut Bridge,
    method: &str,
    path: &str,
) -> (u64, String, tokio::sync::oneshot::Receiver<correlation_bridge::msg::InboundResponseMessage>)
{
    match b.begin_request(
        method.to_string(),
        path.to_string(),
        Vec::new(),
        String::new(),
    ) {
        BeginOutcome::Dispatch {
            id,
            payload,
            completion,
        } => (id, payload, completion),
        BeginOutcome::Preflight { .. } => panic!("unexpected preflight"),
    }
}

#[test]
fn preflight_short_circuit() {
    let mut b = Bridge::new();
    let out = b.begin_request(
        "OPTIONS".to_string(),
        "/any/path?q=1".to_string(),
        vec![("Origin".to_string(), "http://x".to_string())],
        "ignored".to_string(),
    );
    match out {
        BeginOutcome::Preflight { reply } => {
            assert_eq!(reply.status, 200);
            assert_eq!(reply.body, "");
            assert_eq!(reply.headers, expected_cors());
        }
        BeginOutcome::Dispatch { .. } => panic!("preflight must not dispatch"),
    }
    // nothing was registered
    assert_eq!(b.pending_len(), 0);
}

#[test]
fn round_trip_delivers_status_and_body() {
    let mut b = Bridge::new();
    let (id, _payload, mut completion) = begin(&mut b, "POST", "/api");
    assert_eq!(b.pending_len(), 1);
    let payload = format!("{{\"request_id\":{},\"status\":201,\"body\":\"ok\"}}", id);
    match b.handle_response_payload(&payload) {
        IntakeOutcome::Resolved { id: rid } => assert_eq!(rid, id),
        other => panic!("expected resolution, got {:?}", kind(&other)),
    }
    assert_eq!(b.pending_len(), 0);
    let msg = completion.try_recv().expect("completion must hold the message");
    assert_eq!(msg.request_id, id);
    assert_eq!(msg.status, 201);
    assert_eq!(msg.body, "ok");
    let reply = resolved_reply(&msg);
    assert_eq!(reply.status, 201);
    assert_eq!(reply.body, "ok");
    assert_eq!(reply.headers, expected_cors());
}

fn kind(o: &IntakeOutcome) -> &'static str {
    match o {
        IntakeOutcome::Malformed => "malformed",
        IntakeOutcome::Unknown { .. } => "unknown",
        IntakeOutcome::Resolved { .. } => "resolved",
        IntakeOutcome::CompletionDropped { .. } => "completion dropped",
    }
}

#[test]
fn unknown_id_is_tolerated() {
    let mut b = Bridge::new();
    let (id, _p, mut completion) = begin(&mut b, "GET", "/pending");
    assert_eq!(b.pending_len(), 1);
    match b.handle_response_payload("{\"request_id\":424242,\"status\":200,\"body\":\"x\"}") {
        IntakeOutcome::Unknown { id: uid } => assert_eq!(uid, 424242),
        other => panic!("expected unknown id, got {}", kind(&other)),
    }
    // the pending entry is untouched and still resolvable
    assert_eq!(b.pending_len(), 1);
    let payload = format!("{{\"request_id\":{},\"status\":200,\"body\":\"late\"}}", id);
    assert!(matches!(
        b.handle_response_payload(&payload),
        IntakeOutcome::Resolved { .. }
    ));
    assert_eq!(completion.try_recv().unwrap().body, "late");
}

#[test]
fn malformed_payload_is_tolerated() {
    let mut b = Bridge::new();
    let (_id, _p, _completion) = begin(&mut b, "GET", "/pending");
    for bad in [
        "",
        "not json",
        "{}",
        "{\"request_id\":1}",
        "{\"request_id\":1,\"status\":200}",
        "{\"request_id\":1,\"status\":200,\"body\":\"x\"",
        "{\"request_id\":1,\"status\":200,\"body\":\"x\"} trailing",
        "{\"request_id\":1,\"status\":70000,\"body\":\"x\"}",
        "{\"request_id\":99999999999999999999999,\"status\":200,\"body\":\"x\"}",
        "{\"request_id\":1,\"request_id\":1,\"status\":200,\"body\":\"x\"}",
        "{\"request_id\":1,\"status\":200,\"body\":\"x\",\"extra\":true}",
    ] {
        assert!(
            matches!(b.handle_response_payload(bad), IntakeOutcome::Malformed),
            "payload should be malformed: {}",
            bad
        );
    }
    assert_eq!(b.pending_len(), 1);
}

#[test]
fn dispatch_failure_cleans_table() {
    let mut b = Bridge::new();
    let (id, _p, _completion) = begin(&mut b, "PUT", "/x");
    assert_eq!(b.pending_len(), 1);
    let reply = b.dispatch_failed(id);
    assert_eq!(reply.status, 500);
    assert_eq!(reply.body, "Internal Server Error");
    assert_eq!(reply.headers, expected_cors());
    assert_eq!(b.pending_len(), 0);
    // a late, spurious response for that id is now treated as unknown
    let payload = format!("{{\"request_id\":{},\"status\":200,\"body\":\"late\"}}", id);
    assert!(matches!(
        b.handle_response_payload(&payload),
        IntakeOutcome::Unknown { .. }
    ));
}

#[test]
fn second_delivery_has_no_effect() {
    let mut b = Bridge::new();
    let (id, _p, mut completion) = begin(&mut b, "GET", "/once");
    let payload = format!("{{\"request_id\":{},\"status\":200,\"body\":\"first\"}}", id);
    assert!(matches!(
        b.handle_response_payload(&payload),
        IntakeOutcome::Resolved { .. }
    ));
    let again = format!("{{\"request_id\":{},\"status\":500,\"body\":\"second\"}}", id);
    assert!(matches!(
        b.handle_response_payload(&again),
        IntakeOutcome::Unknown { .. }
    ));
    // the awaiting side sees exactly the first message
    let msg = completion.try_recv().unwrap();
    assert_eq!(msg.body, "first");
    assert!(completion.try_recv().is_err());
}

#[test]
fn unordered_delivery_matches_each_caller() {
    let mut b = Bridge::new();
    let (id1, _p1, mut c1) = begin(&mut b, "GET", "/one");
    let (id2, _p2, mut c2) = begin(&mut b, "GET", "/two");
    let (id3, _p3, mut c3) = begin(&mut b, "GET", "/three");
    assert_eq!((id1, id2, id3), (1, 2, 3));
    for (id, status, body) in [(id3, 203u16, "three"), (id1, 201u16, "one"), (id2, 202u16, "two")]
    {
        let payload = format!(
            "{{\"request_id\":{},\"status\":{},\"body\":\"{}\"}}",
            id, status, body
        );
        assert!(matches!(
            b.handle_response_payload(&payload),
            IntakeOutcome::Resolved { .. }
        ));
    }
    let m1 = c1.try_recv().unwrap();
    let m2 = c2.try_recv().unwrap();
    let m3 = c3.try_recv().unwrap();
    assert_eq!((m1.status, m1.body.as_str()), (201, "one"));
    assert_eq!((m2.status, m2.body.as_str()), (202, "two"));
    assert_eq!((m3.status, m3.body.as_str()), (203, "three"));
}

#[test]
fn unanswered_request_does_not_block_others() {
    let mut b = Bridge::new();
    let (_stuck, _p, _c_stuck) = begin(&mut b, "GET", "/never-answered");
    // later requests still get ids, dispatch, and resolve
    let (id2, _p2, mut c2) = begin(&mut b, "GET", "/alive");
    let payload = format!("{{\"request_id\":{},\"status\":200,\"body\":\"fine\"}}", id2);
    assert!(matches!(
        b.handle_response_payload(&payload),
        IntakeOutcome::Resolved { .. }
    ));
    assert_eq!(c2.try_recv().unwrap().body, "fine");
    // the unanswered entry is still pending, on its own
    assert_eq!(b.pending_len(), 1);
}

#[test]
fn correlation_ids_are_unique_and_increasing() {
    let mut b = Bridge::new();
    let mut seen = Vec::new();
    for _ in 0..10 {
        let (id, _p, _c) = begin(&mut b, "GET", "/id");
        assert!(!seen.contains(&id));
        if let Some(last) = seen.last() {
            assert!(id > *last);
        }
        seen.push(id);
    }
}

#[test]
fn dropped_receiver_is_reported_not_escalated() {
    let mut b = Bridge::new();
    let (id, _p, completion) = begin(&mut b, "GET", "/gone");
    drop(completion);
    let payload = format!("{{\"request_id\":{},\"status\":200,\"body\":\"x\"}}", id);
    match b.handle_response_payload(&payload) {
        IntakeOutcome::CompletionDropped { id: rid } => assert_eq!(rid, id),
        other => panic!("expected dropped completion, got {}", kind(&other)),
    }
    assert_eq!(b.pending_len(), 0);
}

#[test]
fn await_failure_reply_is_504() {
    let reply = await_failure_reply();
    assert_eq!(reply.status, 504);
    assert_eq!(reply.body, "Gateway Timeout");
    assert_eq!(reply.headers, expected_cors());
}
