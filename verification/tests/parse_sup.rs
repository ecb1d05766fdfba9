use kai_bridge::protocol::ServerFrame;
use kai_bridge::kai_conn::parse_sup;
use kai_bridge::sup::{split_sup, sup_frame_at, sup_frame_from};
use serde_json::Value;

fn json(text: &str) -> Value {
    serde_json::from_str(text).unwrap()
}

fn sup_addr_and_state(line: &str) -> Option<(String, Value)> {
    match parse_sup(line)? {
        ServerFrame::Sup { addr, state, .. } => Some((addr, state)),
        _ => None,
    }
}

#[test]
fn parses_simple_sup() {
    let (addr, state) = sup_addr_and_state(r#"SUP 1:0:42 {"x":1}"#).unwrap();
    assert_eq!(addr, "1:0:42");
    assert_eq!(state, json(r#"{"x": 1}"#));
}

#[test]
fn parses_nested_json_state() {
    let line = r#"SUP node1:reg2:7 {"pos":{"x":1.0,"y":2.0},"health":100}"#;
    let (addr, state) = sup_addr_and_state(line).unwrap();
    assert_eq!(addr, "node1:reg2:7");
    assert_eq!(state["pos"]["x"], Value::from(1.0));
    assert_eq!(state["health"], Value::from(100));
}

#[test]
fn parses_array_state() {
    let line = r#"SUP 0:0:1 [1,2,3]"#;
    let (addr, state) = sup_addr_and_state(line).unwrap();
    assert_eq!(addr, "0:0:1");
    assert_eq!(state, json("[1, 2, 3]"));
}

#[test]
fn parses_empty_object_state() {
    let line = r#"SUP a:b:c {}"#;
    let (addr, state) = sup_addr_and_state(line).unwrap();
    assert_eq!(addr, "a:b:c");
    assert_eq!(state, json("{}"));
}

#[test]
fn preserves_addr_with_colons() {
    let line = r#"SUP 127:255:0 {"v":true}"#;
    let (addr, _) = sup_addr_and_state(line).unwrap();
    assert_eq!(addr, "127:255:0");
}

#[test]
fn timestamp_is_nonzero() {
    let line = r#"SUP 1:0:0 {"k":"v"}"#;
    match parse_sup(line).unwrap() {
        ServerFrame::Sup { ts, .. } => assert!(ts > 0),
        _ => panic!("wrong variant"),
    }
}

#[test]
fn rejects_empty_string() {
    assert!(parse_sup("").is_none());
}

#[test]
fn rejects_non_sup_prefix() {
    assert!(parse_sup("RESULT 3").is_none());
    assert!(parse_sup("ERROR bad").is_none());
    assert!(parse_sup("READY kai-webconsole").is_none());
}

#[test]
fn rejects_sup_without_addr() {
    assert!(parse_sup("SUP ").is_none());
}

#[test]
fn rejects_sup_without_json() {
    assert!(parse_sup("SUP 1:0:42").is_none());
}

#[test]
fn rejects_sup_with_invalid_json() {
    assert!(parse_sup(r#"SUP 1:0:42 {not json}"#).is_none());
}

#[test]
fn rejects_lowercase_sup() {
    assert!(parse_sup(r#"sup 1:0:0 {}"#).is_none());
}

#[test]
fn rejects_whitespace_only() {
    assert!(parse_sup("   ").is_none());
}

#[test]
fn split_at_first_space_after_prefix() {
    let (addr, rest) = split_sup("SUP a:b:c {\"k\": \"x y\"}").unwrap();
    assert_eq!(addr, "a:b:c");
    assert_eq!(rest, "{\"k\": \"x y\"}");
}

#[test]
fn split_rejects_empty_address() {
    assert!(split_sup("SUP  {}").is_none());
    assert!(parse_sup("SUP  {}").is_none());
    assert!(parse_sup("SUP  a {}").is_none());
}

#[test]
fn sup_frame_from_parsed_document() {
    match sup_frame_from("7:7:7".to_string(), Some(json("[true]")), 3).unwrap() {
        ServerFrame::Sup { addr, state, ts } => {
            assert_eq!(addr, "7:7:7");
            assert_eq!(state, json("[true]"));
            assert_eq!(ts, 3);
        }
        _ => panic!("wrong variant"),
    }
    assert!(sup_frame_from("7:7:7".to_string(), None, 3).is_none());
}

#[test]
fn split_handles_non_ascii() {
    let (addr, rest) = split_sup("SUP é:ü:1 \"ß\"").unwrap();
    assert_eq!(addr, "é:ü:1");
    assert_eq!(rest, "\"ß\"");
}

#[test]
fn split_rejects_short_and_wrong_prefix() {
    assert!(split_sup("SUP").is_none());
    assert!(split_sup("SUPX a {}").is_none());
    assert!(split_sup(" SUP a {}").is_none());
}

#[test]
fn sup_frame_carries_given_timestamp() {
    match sup_frame_at("SUP 1:2:3 null", 77).unwrap() {
        ServerFrame::Sup { addr, state, ts } => {
            assert_eq!(addr, "1:2:3");
            assert_eq!(state, Value::Null);
            assert_eq!(ts, 77);
        }
        _ => panic!("wrong variant"),
    }
}

#[test]
fn sup_frame_rejects_trailing_garbage_and_empty_json() {
    assert!(sup_frame_at("SUP 1:2:3 {} x", 1).is_none());
    assert!(sup_frame_at("SUP 1:2:3 ", 1).is_none());
}
