use wsbench::frames::{InboundEvent, decode_frame, heartbeat_frame, identify_frame};

#[test]
fn heartbeat_frame_is_exact() {
    assert_eq!(heartbeat_frame(), "{\"op\":1,\"d\":{}}");
}

#[test]
fn identify_frame_carries_connection_label() {
    assert_eq!(
        identify_frame(17),
        "{\"op\":2,\"d\":{\"username\":\"benchmark_user_17\",\"isVoiceChat\":false}}"
    );
}

#[test]
fn outbound_frames_decode_as_their_own_schema() {
    // the identification frame is an op-2 frame without a uuid: control noise
    let ev = decode_frame(&identify_frame(3));
    assert!(matches!(ev, InboundEvent::ControlNoise));
    // the heartbeat decodes as an op-1 frame: a candidate response with no id
    let ev = decode_frame(&heartbeat_frame());
    assert!(matches!(ev, InboundEvent::Response { benchmark_id: None }));
}

#[test]
fn hello_frame_yields_heartbeat_interval() {
    let ev = decode_frame("{\"op\":10,\"d\":{\"heartbeat_interval\":41250}}");
    match ev {
        InboundEvent::Hello { heartbeat_interval_ms } => assert_eq!(heartbeat_interval_ms, 41250),
        other => panic!("expected a hello event, got {:?}", other),
    }
    // a hello without the interval is ignored, not an error
    let ev = decode_frame("{\"op\":10,\"d\":{}}");
    assert!(matches!(ev, InboundEvent::ControlNoise));
}

#[test]
fn auth_frame_needs_a_uuid_string() {
    let ev = decode_frame("{\"op\":2,\"d\":{\"uuid\":\"abc-123\"}}");
    assert!(matches!(ev, InboundEvent::AuthSuccess));
    let ev = decode_frame("{\"op\":2,\"d\":{\"uuid\":7}}");
    assert!(matches!(ev, InboundEvent::ControlNoise));
}

#[test]
fn unparseable_text_is_malformed() {
    assert!(matches!(decode_frame("not json"), InboundEvent::Malformed));
    assert!(matches!(decode_frame(""), InboundEvent::Malformed));
    // json without an op code is a candidate response (op defaults to 0)
    assert!(matches!(
        decode_frame("{\"d\":{}}"),
        InboundEvent::Response { benchmark_id: None }
    ));
}

#[test]
fn request_frame_embeds_and_echoes_its_identifier() {
    let mut engine = wsbench::engine::BenchEngine::new();
    let out = wsbench::worker::prepare_request(&mut engine, 4, 7, "load_user", "hello there", 50);
    assert_eq!(out.benchmark_id, "4_0");
    // the rendered frame is real JSON carrying the identifier and payload
    let v: serde_json::Value = serde_json::from_str(&out.frame).expect("frame must be JSON");
    assert_eq!(v["op"].as_i64(), Some(7));
    assert_eq!(v["d"]["benchmarkId"].as_str(), Some("4_0"));
    assert_eq!(v["d"]["user"].as_str(), Some("load_user"));
    assert_eq!(v["d"]["text"].as_str(), Some("hello there"));
    assert_eq!(v["d"]["timestamp"].as_i64(), Some(out.timestamp_ms));
    // an echoed request frame classifies as a response carrying the id
    match decode_frame(&out.frame) {
        InboundEvent::Response { benchmark_id: Some(id) } => assert_eq!(id, "4_0"),
        other => panic!("expected an echoed response, got {:?}", other),
    }
    // and that echo resolves the pending request it came from
    assert_eq!(engine.process_response("4_0", 51), Some(1));
}

#[test]
fn payload_text_is_escaped_not_pasted() {
    let mut engine = wsbench::engine::BenchEngine::new();
    let out = wsbench::worker::prepare_request(
        &mut engine,
        0,
        7,
        "quo\"ter",
        "line\nbreak \\ backslash",
        0,
    );
    let v: serde_json::Value = serde_json::from_str(&out.frame).expect("frame must be JSON");
    assert_eq!(v["d"]["user"].as_str(), Some("quo\"ter"));
    assert_eq!(v["d"]["text"].as_str(), Some("line\nbreak \\ backslash"));
}

#[test]
fn config_accepts_only_wellformed_urls() {
    let mut cfg = wsbench::config::BenchmarkConfig {
        url: "wss://example.test/".to_string(),
        connections: 1,
        requests_per_connection: 1,
        request_interval_ms: 0,
        message_type: 7,
        message_user: "u".to_string(),
        message_text: "t".to_string(),
        ramp_up_time_ms: 0,
    };
    assert!(cfg.validate().is_ok());
    cfg.url = "not a url".to_string();
    assert_eq!(cfg.validate(), Err(wsbench::config::ConfigError::InvalidUrl));
}
