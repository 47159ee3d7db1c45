use engine_bridge::codec::{decode, encode, Action};

#[test]
fn encode_start_recording_line() {
    let line = encode(&Action::StartRecording);
    assert_eq!(line, b"START_RECORDING\n".to_vec());
}

#[test]
fn encode_stop_recording_line() {
    let line = encode(&Action::StopRecording);
    assert_eq!(line, b"STOP_RECORDING\n".to_vec());
}

#[test]
fn encode_ping_line() {
    let line = encode(&Action::Ping);
    assert_eq!(line, b"PING\n".to_vec());
}

#[test]
fn encode_set_config_exact_bytes() {
    let line = encode(&Action::SetConfig {
        api_key: b"sk-abc".to_vec(),
        mode: b"raw".to_vec(),
    });
    assert_eq!(
        line,
        b"{\"type\":\"SET_CONFIG\",\"data\":{\"api_key\":\"sk-abc\",\"mode\":\"raw\"}}\n".to_vec()
    );
}

#[test]
fn round_trip_simple_actions() {
    for action in [Action::StartRecording, Action::StopRecording, Action::Ping] {
        let line = encode(&action);
        assert_eq!(decode(&line), Some(action));
    }
}

#[test]
fn round_trip_set_config_plain_values() {
    let action = Action::SetConfig {
        api_key: b"sk-or-v1-0123456789".to_vec(),
        mode: b"polished".to_vec(),
    };
    let line = encode(&action);
    assert_eq!(decode(&line), Some(action));
}

#[test]
fn round_trip_set_config_empty_strings() {
    let action = Action::SetConfig {
        api_key: Vec::new(),
        mode: Vec::new(),
    };
    let line = encode(&action);
    assert_eq!(decode(&line), Some(action));
}

#[test]
fn round_trip_set_config_punctuation_and_escapes() {
    let action = Action::SetConfig {
        api_key: b"a\"b\\c,{}:[]'`~!@#$%^&*()".to_vec(),
        mode: b"line\nbreak\tand \"quotes\"".to_vec(),
    };
    let line = encode(&action);
    assert_eq!(decode(&line), Some(action));
}

#[test]
fn set_config_parses_as_real_json() {
    let key = "sk-\"quoted\"\\slash\nnewline";
    let mode = "super,mode:{weird}";
    let line = encode(&Action::SetConfig {
        api_key: key.as_bytes().to_vec(),
        mode: mode.as_bytes().to_vec(),
    });
    let text = String::from_utf8(line).expect("command line is valid UTF-8");
    let value: serde_json::Value =
        serde_json::from_str(text.trim_end()).expect("command line is valid JSON");
    assert_eq!(value.get("type").unwrap().as_str().unwrap(), "SET_CONFIG");
    let data = value.get("data").unwrap();
    assert_eq!(data.get("api_key").unwrap().as_str().unwrap(), key);
    assert_eq!(data.get("mode").unwrap().as_str().unwrap(), mode);
}

#[test]
fn every_command_is_one_newline_terminated_line() {
    let actions = [
        Action::StartRecording,
        Action::StopRecording,
        Action::Ping,
        Action::SetConfig {
            api_key: b"key with\nnewline and \"quote\"".to_vec(),
            mode: b"raw\r\n".to_vec(),
        },
    ];
    for action in actions {
        let line = encode(&action);
        assert_eq!(line.iter().filter(|b| **b == b'\n').count(), 1);
        assert_eq!(*line.last().unwrap(), b'\n');
    }
}

#[test]
fn decode_rejects_unknown_lines() {
    assert_eq!(decode(b"NONSENSE\n"), None);
    assert_eq!(decode(b""), None);
    assert_eq!(decode(b"START_RECORDING"), None);
    assert_eq!(decode(b"{\"type\":\"SET_CONFIG\"}\n"), None);
    assert_eq!(
        decode(b"{\"type\":\"SET_CONFIG\",\"data\":{\"api_key\":\"unterminated"),
        None
    );
}

#[test]
fn round_trip_set_config_control_bytes() {
    let action = Action::SetConfig {
        api_key: (0u8..0x20).collect(),
        mode: vec![0x01, 0x1f, b'a'],
    };
    let line = encode(&action);
    assert_eq!(decode(&line), Some(action));
}

#[test]
fn set_config_control_bytes_parse_as_real_json() {
    let key = "tab\there\u{1}and\u{1f}";
    let line = encode(&Action::SetConfig {
        api_key: key.as_bytes().to_vec(),
        mode: b"raw".to_vec(),
    });
    let text = String::from_utf8(line).unwrap();
    let value: serde_json::Value = serde_json::from_str(text.trim_end()).unwrap();
    assert_eq!(
        value.get("data").unwrap().get("api_key").unwrap().as_str().unwrap(),
        key
    );
}

#[test]
fn set_config_multibyte_text_passes_through() {
    let key = "h\u{e9}llo w\u{f6}rld \u{263a}";
    let line = encode(&Action::SetConfig {
        api_key: key.as_bytes().to_vec(),
        mode: b"raw".to_vec(),
    });
    let text = String::from_utf8(line).unwrap();
    let value: serde_json::Value = serde_json::from_str(text.trim_end()).unwrap();
    assert_eq!(
        value.get("data").unwrap().get("api_key").unwrap().as_str().unwrap(),
        key
    );
}

#[test]
fn decode_is_not_fooled_by_embedded_quotes() {
    let action = Action::SetConfig {
        api_key: b"\",\"mode\":\"fake".to_vec(),
        mode: b"real".to_vec(),
    };
    let line = encode(&action);
    assert_eq!(decode(&line), Some(action));
}
