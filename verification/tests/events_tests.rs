use engine_bridge::events::{log_event, overlay_filter, recording_status, route_stdout_lines};

#[test]
fn overlay_filter_matches_tagged_lines() {
    assert!(!overlay_filter(b"hello"));
    assert!(overlay_filter(b"STATUS:x"));
    assert!(overlay_filter(b"RESULT:y"));
    assert!(overlay_filter(b"PARTIAL_RESULT: he said"));
    assert!(overlay_filter(b"prefix RESULT suffix"));
    assert!(!overlay_filter(b"noise"));
    assert!(!overlay_filter(b"resultat"));
    assert!(!overlay_filter(b""));
}

#[test]
fn synthetic_stream_routes_to_both_channels_in_order() {
    let lines: Vec<Vec<u8>> = vec![
        b"hello".to_vec(),
        b"STATUS:x".to_vec(),
        b"RESULT:y".to_vec(),
        b"noise".to_vec(),
    ];
    let routed = route_stdout_lines(&lines);
    assert_eq!(routed.general, lines);
    assert_eq!(
        routed.overlay,
        vec![b"STATUS:x".to_vec(), b"RESULT:y".to_vec()]
    );
}

#[test]
fn stderr_line_becomes_log_event() {
    let event = log_event(b"engine warmed up");
    assert_eq!(
        event,
        b"{\"type\": \"LOG\", \"data\": \"engine warmed up\"}".to_vec()
    );
}

#[test]
fn stderr_log_event_escapes_payload() {
    let event = log_event(b"bad \"value\"\n");
    let text = String::from_utf8(event).unwrap();
    let value: serde_json::Value = serde_json::from_str(&text).unwrap();
    assert_eq!(value.get("type").unwrap().as_str().unwrap(), "LOG");
    assert_eq!(
        value.get("data").unwrap().as_str().unwrap(),
        "bad \"value\"\n"
    );
}

#[test]
fn recording_status_event_bytes() {
    assert_eq!(
        recording_status(),
        b"{\"type\": \"STATUS\", \"data\": \"RECORDING\"}".to_vec()
    );
}
