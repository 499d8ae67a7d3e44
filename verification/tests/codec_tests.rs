use correlation_bridge::codec::encode_event;
use correlation_bridge::msg::OutboundRequestEvent;
use correlation_bridge::parse::parse_response;
use correlation_bridge::response::normalized_status;
use correlation_bridge::savename::{numbered_candidate, split_filename};

fn chars(s: &str) -> Vec<char> {
    s.chars().collect()
}

#[test]
fn event_wire_format_is_exact() {
    let e = OutboundRequestEvent {
        method: "GET".to_string(),
        path: "/a?b=1".to_string(),
        headers: vec![
            ("host".to_string(), "localhost:3321".to_string()),
            ("x".to_string(), "y".to_string()),
        ],
        body: "hi".to_string(),
        request_id: 7,
    };
    assert_eq!(
        encode_event(&e),
        "{\"method\":\"GET\",\"path\":\"/a?b=1\",\"headers\":[[\"host\",\"localhost:3321\"],[\"x\",\"y\"]],\"body\":\"hi\",\"request_id\":7}"
    );
}

#[test]
fn event_encoding_agrees_with_a_json_parser() {
    let e = OutboundRequestEvent {
        method: "POST".to_string(),
        path: "/p\"ath\\x".to_string(),
        headers: vec![("a\nb".to_string(), "c\td".to_string())],
        body: "line1\nline2 \"quoted\" \\ \u{1}end \u{263a}".to_string(),
        request_id: u64::MAX,
    };
    let v: serde_json::Value = serde_json::from_str(&encode_event(&e)).expect("well-formed JSON");
    assert_eq!(v["method"], "POST");
    assert_eq!(v["path"], "/p\"ath\\x");
    assert_eq!(v["headers"][0][0], "a\nb");
    assert_eq!(v["headers"][0][1], "c\td");
    assert_eq!(v["body"], "line1\nline2 \"quoted\" \\ \u{1}end \u{263a}");
    assert_eq!(v["request_id"], u64::MAX);
}

#[test]
fn empty_header_list_encodes_as_empty_array() {
    let e = OutboundRequestEvent {
        method: "GET".to_string(),
        path: "/".to_string(),
        headers: Vec::new(),
        body: String::new(),
        request_id: 1,
    };
    assert_eq!(
        encode_event(&e),
        "{\"method\":\"GET\",\"path\":\"/\",\"headers\":[],\"body\":\"\",\"request_id\":1}"
    );
}

#[test]
fn parses_canonical_response() {
    let m = parse_response(&chars("{\"request_id\":12,\"status\":201,\"body\":\"ok\"}")).unwrap();
    assert_eq!(m.request_id, 12);
    assert_eq!(m.status, 201);
    assert_eq!(m.body, "ok");
}

#[test]
fn parses_any_field_order_and_whitespace() {
    let m = parse_response(&chars(
        " {\n\t\"body\" : \"b\" ,\r\n \"status\" : 404 , \"request_id\" : 3 } ",
    ))
    .unwrap();
    assert_eq!(m.request_id, 3);
    assert_eq!(m.status, 404);
    assert_eq!(m.body, "b");
}

#[test]
fn parses_escapes_in_body() {
    let m = parse_response(&chars(
        "{\"request_id\":1,\"status\":200,\"body\":\"a\\\"b\\\\c\\/d\\b\\f\\n\\r\\te\\u0041\\u00e9\"}",
    ))
    .unwrap();
    assert_eq!(m.body, "a\"b\\c/d\u{8}\u{c}\n\r\teA\u{e9}");
}

#[test]
fn parses_extreme_numbers() {
    let m = parse_response(&chars(
        "{\"request_id\":18446744073709551615,\"status\":0,\"body\":\"\"}",
    ))
    .unwrap();
    assert_eq!(m.request_id, u64::MAX);
    assert_eq!(m.status, 0);
    assert_eq!(m.body, "");
}

#[test]
fn rejects_out_of_grammar_payloads() {
    for bad in [
        "",
        "   ",
        "null",
        "[1,2]",
        "{\"request_id\":01,\"status\":200,\"body\":\"x\"}",
        "{\"request_id\":-1,\"status\":200,\"body\":\"x\"}",
        "{\"request_id\":18446744073709551616,\"status\":200,\"body\":\"x\"}",
        "{\"request_id\":1,\"status\":65536,\"body\":\"x\"}",
        "{\"request_id\":1,\"status\":\"200\",\"body\":\"x\"}",
        "{\"request_id\":1,\"status\":200,\"body\":\"\\ud800\"}",
        "{\"request_id\":1,\"status\":200,\"body\":\"\\q\"}",
        "{\"request_id\":1,\"status\":200,\"body\":\"\u{1}\"}",
        "{\"request_id\":1,\"status\":200,\"body\":3}",
        "{\"request_id\":1,\"status\":200}",
        "{request_id:1,\"status\":200,\"body\":\"x\"}",
    ] {
        assert!(parse_response(&chars(bad)).is_none(), "should reject: {}", bad);
    }
}

#[test]
fn unicode_escape_matches_parser_in_serde() {
    // cross-check one unescaping against a reference JSON parser
    let payload = "{\"request_id\":1,\"status\":200,\"body\":\"caf\\u00e9 \\u2028ok\"}";
    let ours = parse_response(&chars(payload)).unwrap();
    let theirs: serde_json::Value = serde_json::from_str(payload).unwrap();
    assert_eq!(ours.body, theirs["body"].as_str().unwrap());
}

#[test]
fn status_normalization_bounds() {
    assert_eq!(normalized_status(0), 200);
    assert_eq!(normalized_status(99), 200);
    assert_eq!(normalized_status(100), 100);
    assert_eq!(normalized_status(201), 201);
    assert_eq!(normalized_status(999), 999);
    assert_eq!(normalized_status(1000), 200);
    assert_eq!(normalized_status(u16::MAX), 200);
}

#[test]
fn filename_split_rules() {
    assert_eq!(
        split_filename(&"report.pdf".to_string()),
        ("report".to_string(), "pdf".to_string())
    );
    assert_eq!(
        split_filename(&"archive.tar.gz".to_string()),
        ("archive.tar".to_string(), "gz".to_string())
    );
    assert_eq!(
        split_filename(&".bashrc".to_string()),
        (".bashrc".to_string(), "".to_string())
    );
    assert_eq!(
        split_filename(&"noext".to_string()),
        ("noext".to_string(), "".to_string())
    );
    assert_eq!(
        split_filename(&"".to_string()),
        ("".to_string(), "".to_string())
    );
    assert_eq!(
        split_filename(&"dot.".to_string()),
        ("dot".to_string(), "".to_string())
    );
}

#[test]
fn numbered_candidates_follow_the_naming_rule() {
    assert_eq!(
        numbered_candidate(&"report".to_string(), &"pdf".to_string(), 2),
        "report (2).pdf"
    );
    // a name without an extension still gets the trailing dot
    assert_eq!(
        numbered_candidate(&"file".to_string(), &"".to_string(), 1),
        "file (1)."
    );
    assert_eq!(
        numbered_candidate(&"a".to_string(), &"txt".to_string(), 10),
        "a (10).txt"
    );
}
