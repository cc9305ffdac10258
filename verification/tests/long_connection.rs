use feishu_bot::model::FeishuBot;
use feishu_bot::long_connection::{
    long_connection_start, LongConnectionStart,
    classify_frame, connect_info_from_response, extract_message_event, extract_service_id, frame_header_value,
    handle_control_frame, ping_frame, ping_interval_secs, response_frame, service_id_from_query,
    unsupported_method_message, ConnectClientConfig, ConnectConfigData, ConnectConfigResponse, ConnectionEvent,
    ConnectionStep, EventBody, EventMessage, Frame, FrameHeader, FrameKind, InboundEventPayload,
    IncomingTextMessage, LongConnectionSession, MergeOutcome, MessageChunkCache,
};

fn header(key: &str, value: &str) -> FrameHeader {
    FrameHeader { key: key.to_string(), value: value.to_string() }
}

fn frame(method: i32, headers: Vec<FrameHeader>, payload: &[u8]) -> Frame {
    Frame {
        seq_id: 1,
        log_id: 1,
        service: 1,
        method,
        headers,
        payload_encoding: String::new(),
        payload_type: String::new(),
        payload: payload.to_vec(),
        log_id_new: String::new(),
    }
}

fn chunk(message_id: &str, sum: &str, seq: &str, payload: &[u8]) -> Frame {
    frame(
        1,
        vec![header("type", "event"), header("message_id", message_id), header("sum", sum), header("seq", seq)],
        payload,
    )
}

fn empty_body() -> EventBody {
    EventBody { event_type: None, sender_type: None, message: None }
}

fn text_message(message_id: &str, chat_id: &str, content: &str) -> EventMessage {
    EventMessage {
        message_id: Some(message_id.to_string()),
        chat_id: Some(chat_id.to_string()),
        message_type: Some("text".to_string()),
        content: Some(content.to_string()),
    }
}

#[test]
fn extracts_text_message_event_from_schema_payload() {
    let payload = InboundEventPayload {
        header_event_type: Some("im.message.receive_v1".to_string()),
        header_event_id: Some("evt_123".to_string()),
        event_type: None,
        event_id: None,
        event: Some(EventBody {
            event_type: None,
            sender_type: None,
            message: Some(text_message("om_123", "oc_chat_123", "{\"text\":\"/vk status\"}")),
        }),
        top_level: empty_body(),
    };

    let event = extract_message_event(&payload).expect("message event extracts");

    assert_eq!(
        event,
        IncomingTextMessage {
            event_id: "evt_123".into(),
            message_id: "om_123".into(),
            chat_id: "oc_chat_123".into(),
            text: "/vk status".into(),
        }
    );
}

#[test]
fn ignores_non_user_text_messages() {
    let payload = InboundEventPayload {
        header_event_type: Some("im.message.receive_v1".to_string()),
        header_event_id: Some("evt_bot".to_string()),
        event_type: None,
        event_id: None,
        event: Some(EventBody {
            event_type: None,
            sender_type: Some("app".to_string()),
            message: Some(text_message("om_bot_123", "oc_chat_123", "{\"text\":\"bot self message\"}")),
        }),
        top_level: empty_body(),
    };

    assert!(extract_message_event(&payload).is_none());
}

#[test]
fn merges_chunked_event_payloads() {
    let mut cache = MessageChunkCache::new();
    let payload: &[u8] = br#"{"schema":"2.0","header":{"event_type":"im.message.receive_v1","event_id":"evt_1"},"event":{"message":{"chat_id":"chat_1","message_type":"text","content":"{\"text\":\"/vk status\"}"}}}"#;
    let split_index = payload.len() / 2;
    let first = chunk("msg_1", "2", "0", &payload[..split_index]);
    let second = chunk("msg_1", "2", "1", &payload[split_index..]);

    assert!(matches!(cache.merge(&first, 1_000), MergeOutcome::Pending));
    let merged = match cache.merge(&second, 1_000) {
        MergeOutcome::Complete(bytes) => bytes,
        MergeOutcome::Pending => panic!("merged payload"),
    };
    let merged: serde_json::Value = serde_json::from_slice(&merged).expect("second merge");

    assert_eq!(merged["header"]["event_id"], "evt_1");
    assert_eq!(merged["event"]["message"]["chat_id"], "chat_1");
}

#[test]
fn chunks_arriving_out_of_order_are_joined_in_index_order() {
    let mut cache = MessageChunkCache::new();
    assert!(matches!(cache.merge(&chunk("m", "3", "2", b"C"), 0), MergeOutcome::Pending));
    assert!(matches!(cache.merge(&chunk("m", "3", "0", b"A"), 10), MergeOutcome::Pending));
    match cache.merge(&chunk("m", "3", "1", b"B"), 20) {
        MergeOutcome::Complete(bytes) => assert_eq!(bytes, b"ABC".to_vec()),
        MergeOutcome::Pending => panic!("all chunks arrived"),
    }
    // nothing is kept once the payload was handed back
    assert!(matches!(cache.merge(&chunk("m", "3", "0", b"A"), 30), MergeOutcome::Pending));
}

#[test]
fn stale_chunks_are_dropped_after_ten_seconds() {
    let mut cache = MessageChunkCache::new();
    assert!(matches!(cache.merge(&chunk("m", "2", "0", b"A"), 0), MergeOutcome::Pending));
    assert!(matches!(cache.merge(&chunk("m", "2", "1", b"B"), 10_001), MergeOutcome::Pending));
    match cache.merge(&chunk("m", "2", "0", b"A"), 10_002) {
        MergeOutcome::Complete(bytes) => assert_eq!(bytes, b"AB".to_vec()),
        MergeOutcome::Pending => panic!("both chunks are fresh"),
    }
}

#[test]
fn chunk_at_ttl_boundary_is_still_fresh() {
    let mut cache = MessageChunkCache::new();
    assert!(matches!(cache.merge(&chunk("m", "2", "1", b"Y"), 5), MergeOutcome::Pending));
    match cache.merge(&chunk("m", "2", "0", b"X"), 10_005) {
        MergeOutcome::Complete(bytes) => assert_eq!(bytes, b"XY".to_vec()),
        MergeOutcome::Pending => panic!("the first chunk is exactly ten seconds old"),
    }
}

#[test]
fn unchunked_frames_are_complete_by_themselves() {
    let mut cache = MessageChunkCache::new();
    let plain = frame(1, vec![header("type", "event")], b"{}");
    match cache.merge(&plain, 0) {
        MergeOutcome::Complete(bytes) => assert_eq!(bytes, b"{}".to_vec()),
        MergeOutcome::Pending => panic!("no message id"),
    }
    let single = chunk("m", "1", "0", b"[1]");
    match cache.merge(&single, 0) {
        MergeOutcome::Complete(bytes) => assert_eq!(bytes, b"[1]".to_vec()),
        MergeOutcome::Pending => panic!("sum is one"),
    }
    let unreadable_sum = chunk("m", "two", "0", b"[2]");
    match cache.merge(&unreadable_sum, 0) {
        MergeOutcome::Complete(bytes) => assert_eq!(bytes, b"[2]".to_vec()),
        MergeOutcome::Pending => panic!("an unreadable sum counts as one"),
    }
}

#[test]
fn a_changed_chunk_count_restarts_the_message() {
    let mut cache = MessageChunkCache::new();
    assert!(matches!(cache.merge(&chunk("m", "2", "0", b"A"), 0), MergeOutcome::Pending));
    assert!(matches!(cache.merge(&chunk("m", "3", "1", b"B"), 1), MergeOutcome::Pending));
    assert!(matches!(cache.merge(&chunk("m", "3", "2", b"C"), 2), MergeOutcome::Pending));
    match cache.merge(&chunk("m", "3", "0", b"a"), 3) {
        MergeOutcome::Complete(bytes) => assert_eq!(bytes, b"aBC".to_vec()),
        MergeOutcome::Pending => panic!("three chunks arrived"),
    }
}

#[test]
fn out_of_range_chunk_index_is_ignored() {
    let mut cache = MessageChunkCache::new();
    assert!(matches!(cache.merge(&chunk("m", "2", "5", b"Z"), 0), MergeOutcome::Pending));
    assert!(matches!(cache.merge(&chunk("m", "2", "0", b"A"), 0), MergeOutcome::Pending));
    match cache.merge(&chunk("m", "2", "1", b"B"), 0) {
        MergeOutcome::Complete(bytes) => assert_eq!(bytes, b"AB".to_vec()),
        MergeOutcome::Pending => panic!("both slots filled"),
    }
}

#[test]
fn event_id_falls_back_to_top_level_then_message_id() {
    let mut payload = InboundEventPayload {
        header_event_type: None,
        header_event_id: None,
        event_type: Some("im.message.receive_v1".to_string()),
        event_id: Some("evt_top".to_string()),
        event: None,
        top_level: EventBody {
            event_type: None,
            sender_type: Some("user".to_string()),
            message: Some(text_message("om_9", "oc_9", "{\"text\":\"  hello  \"}")),
        },
    };
    let event = extract_message_event(&payload).expect("top-level message");
    assert_eq!(event.event_id, "evt_top");
    assert_eq!(event.text, "hello");
    payload.event_id = None;
    let event = extract_message_event(&payload).expect("message id as event id");
    assert_eq!(event.event_id, "om_9");
}

#[test]
fn event_type_comes_from_the_event_object_when_the_header_has_none() {
    let payload = InboundEventPayload {
        header_event_type: None,
        header_event_id: Some("evt_2".to_string()),
        event_type: Some("something.else".to_string()),
        event_id: None,
        event: Some(EventBody {
            event_type: Some("im.message.receive_v1".to_string()),
            sender_type: None,
            message: Some(text_message("om_2", "oc_2", "{\"text\":\"hi\"}")),
        }),
        top_level: empty_body(),
    };
    assert_eq!(extract_message_event(&payload).expect("event type from event.type").chat_id, "oc_2");
}

#[test]
fn rejects_other_events_blank_texts_and_bad_contents() {
    let base = |event_type: &str, message_type: &str, content: &str| InboundEventPayload {
        header_event_type: Some(event_type.to_string()),
        header_event_id: Some("evt".to_string()),
        event_type: None,
        event_id: None,
        event: Some(EventBody {
            event_type: None,
            sender_type: None,
            message: Some(EventMessage {
                message_id: Some("om".to_string()),
                chat_id: Some("oc".to_string()),
                message_type: Some(message_type.to_string()),
                content: Some(content.to_string()),
            }),
        }),
        top_level: empty_body(),
    };
    assert!(extract_message_event(&base("im.chat.member.bot.added_v1", "text", "{\"text\":\"x\"}")).is_none());
    assert!(extract_message_event(&base("im.message.receive_v1", "image", "{\"text\":\"x\"}")).is_none());
    assert!(extract_message_event(&base("im.message.receive_v1", "text", "{\"text\":\"   \"}")).is_none());
    assert!(extract_message_event(&base("im.message.receive_v1", "text", "not json")).is_none());
    assert!(extract_message_event(&base("im.message.receive_v1", "text", "{\"title\":\"x\"}")).is_none());
    assert!(extract_message_event(&base("im.message.receive_v1", "text", "{\"text\":\"ok\"}")).is_some());
}

#[test]
fn frame_header_value_finds_the_first_matching_header() {
    let f = frame(1, vec![header("type", "event"), header("sum", "2"), header("type", "ping")], b"");
    assert_eq!(frame_header_value(&f, "type"), Some("event"));
    assert_eq!(frame_header_value(&f, "sum"), Some("2"));
    assert_eq!(frame_header_value(&f, "seq"), None);
}

#[test]
fn frames_are_classified_by_method_and_type() {
    assert_eq!(classify_frame(&frame(0, vec![header("type", "pong")], b"")), FrameKind::Control);
    assert_eq!(classify_frame(&frame(1, vec![header("type", "event")], b"")), FrameKind::Event);
    assert_eq!(classify_frame(&frame(1, vec![header("type", "card")], b"")), FrameKind::Ignored);
    assert_eq!(classify_frame(&frame(1, vec![], b"")), FrameKind::Ignored);
    assert_eq!(classify_frame(&frame(7, vec![], b"")), FrameKind::Unsupported(7));
    assert_eq!(unsupported_method_message(7), "Unsupported Feishu websocket frame method: 7");
    assert_eq!(unsupported_method_message(-3), "Unsupported Feishu websocket frame method: -3");
}

#[test]
fn pong_frames_set_the_ping_interval() {
    let pong = |payload: &[u8]| frame(0, vec![header("type", "pong")], payload);
    assert_eq!(handle_control_frame(&pong(b"{\"PingInterval\":30}")), Ok(Some(30)));
    assert_eq!(handle_control_frame(&pong(b"{\"PingInterval\":0}")), Ok(Some(1)));
    assert_eq!(handle_control_frame(&pong(b"{}")), Ok(Some(120)));
    assert_eq!(handle_control_frame(&pong(b"{\"PingInterval\":\"30\"}")), Ok(Some(120)));
    assert_eq!(handle_control_frame(&pong(b"")), Ok(None));
    assert_eq!(handle_control_frame(&pong(b"nope")), Err("Invalid Feishu pong payload".to_string()));
    assert_eq!(handle_control_frame(&frame(0, vec![header("type", "ping")], b"{\"PingInterval\":3}")), Ok(None));
    assert_eq!(handle_control_frame(&frame(0, vec![], b"{\"PingInterval\":3}")), Ok(None));
    assert_eq!(ping_interval_secs(None), 120);
    assert_eq!(ping_interval_secs(Some(0)), 1);
    assert_eq!(ping_interval_secs(Some(45)), 45);
}

#[test]
fn event_frames_are_answered_with_their_headers_and_a_code() {
    let mut f = frame(1, vec![header("type", "event"), header("message_id", "m")], b"{}");
    f.seq_id = 9;
    f.log_id = 8;
    f.service = 77;
    f.payload_type = "json".to_string();
    f.log_id_new = "log".to_string();
    let reply = response_frame(&f, 15, true);
    assert_eq!((reply.seq_id, reply.log_id, reply.service, reply.method), (9, 8, 77, 1));
    let headers: Vec<(String, String)> = reply.headers.iter().map(|h| (h.key.clone(), h.value.clone())).collect();
    assert_eq!(
        headers,
        vec![
            ("type".to_string(), "event".to_string()),
            ("message_id".to_string(), "m".to_string()),
            ("biz_rt".to_string(), "15".to_string()),
        ]
    );
    assert_eq!(reply.payload_type, "json");
    assert_eq!(reply.log_id_new, "log");
    let ok: serde_json::Value = serde_json::from_str("{\"code\":200}").unwrap();
    assert_eq!(reply.payload, serde_json::to_vec(&ok).unwrap());
    let failed: serde_json::Value = serde_json::from_str("{\"code\":500}").unwrap();
    assert_eq!(response_frame(&f, 0, false).payload, serde_json::to_vec(&failed).unwrap());
}

#[test]
fn ping_frames_carry_the_service_id() {
    let ping = ping_frame(33);
    assert_eq!((ping.seq_id, ping.log_id, ping.service, ping.method), (0, 0, 33, 0));
    assert_eq!(ping.headers.len(), 1);
    assert_eq!((ping.headers[0].key.as_str(), ping.headers[0].value.as_str()), ("type", "ping"));
    assert!(ping.payload.is_empty() && ping.payload_type.is_empty() && ping.payload_encoding.is_empty());
}

#[test]
fn service_id_is_read_from_the_websocket_url() {
    assert_eq!(
        extract_service_id("wss://msg-frontier.feishu.cn/ws/v2?fpid=493&aid=552564&service_id=33554678&ticket=abc"),
        Ok(33554678)
    );
    assert_eq!(extract_service_id("wss://example.com/ws?service_id=-5"), Ok(-5));
    assert_eq!(
        extract_service_id("wss://example.com/ws?device_id=1"),
        Err("Feishu websocket URL missing service_id".to_string())
    );
    assert_eq!(extract_service_id("not a url"), Err("Invalid Feishu websocket URL".to_string()));
    assert_eq!(
        extract_service_id("wss://example.com/ws?service_id=abc"),
        Err("Invalid Feishu websocket service_id".to_string())
    );
    let pairs = vec![("service_id".to_string(), "12".to_string()), ("service_id".to_string(), "13".to_string())];
    assert_eq!(service_id_from_query(Some(&pairs)), Ok(12));
    assert_eq!(service_id_from_query(None), Err("Invalid Feishu websocket URL".to_string()));
}

#[test]
fn connect_config_replies_become_connection_info() {
    let reply = |code: i32, url: Option<&str>, ping: u64| ConnectConfigResponse {
        code,
        msg: "bad app".to_string(),
        data: url.map(|u| ConnectConfigData {
            url: u.to_string(),
            client_config: ConnectClientConfig { ping_interval: ping },
        }),
    };
    let info = connect_info_from_response(reply(0, Some("wss://x.test/ws?service_id=5"), 0)).expect("valid config");
    assert_eq!((info.url.as_str(), info.service_id, info.ping_interval_secs), ("wss://x.test/ws?service_id=5", 5, 1));
    let info = connect_info_from_response(reply(0, Some("wss://x.test/ws?service_id=5"), 90)).expect("valid config");
    assert_eq!(info.ping_interval_secs, 90);
    assert_eq!(
        connect_info_from_response(reply(1, None, 0)).err(),
        Some("Feishu long connection config failed: bad app".to_string())
    );
    assert_eq!(
        connect_info_from_response(reply(0, None, 0)).err(),
        Some("Feishu long connection config response missing data".to_string())
    );
    assert_eq!(
        connect_info_from_response(reply(0, Some("wss://x.test/ws"), 10)).err(),
        Some("Feishu websocket URL missing service_id".to_string())
    );
}

#[test]
fn the_connection_loop_pings_reassembles_and_fails_as_the_protocol_says() {
    let mut session = LongConnectionSession::new(21);
    match session.on_event(ConnectionEvent::PingDue, 0) {
        ConnectionStep::SendFrame(f) => assert_eq!((f.service, f.method), (21, 0)),
        _ => panic!("a ping is sent"),
    }
    assert!(matches!(session.on_event(ConnectionEvent::Frame(chunk("m", "2", "0", b"{\"a\":")), 0), ConnectionStep::Nothing));
    match session.on_event(ConnectionEvent::Frame(chunk("m", "2", "1", b"1}")), 5) {
        ConnectionStep::HandleEvent { frame, payload } => {
            assert_eq!(payload, b"{\"a\":1}".to_vec());
            assert_eq!(frame_header_value(&frame, "seq"), Some("1"));
        }
        _ => panic!("the payload is complete"),
    }
    match session.on_event(ConnectionEvent::Frame(frame(0, vec![header("type", "pong")], b"{\"PingInterval\":60}")), 6) {
        ConnectionStep::SetPingInterval(secs) => assert_eq!(secs, 60),
        _ => panic!("a pong resets the interval"),
    }
    match session.on_event(ConnectionEvent::WebSocketPing(vec![1, 2]), 7) {
        ConnectionStep::SendPong(p) => assert_eq!(p, vec![1, 2]),
        _ => panic!("a websocket ping is answered"),
    }
    assert!(matches!(session.on_event(ConnectionEvent::Other, 8), ConnectionStep::Nothing));
    assert!(matches!(session.on_event(ConnectionEvent::Frame(frame(1, vec![header("type", "card")], b"")), 8), ConnectionStep::Nothing));
    let failure = |step: ConnectionStep| match step {
        ConnectionStep::Fail(m) => m,
        _ => panic!("the connection ends"),
    };
    assert_eq!(failure(session.on_event(ConnectionEvent::Frame(frame(4, vec![], b"")), 9)), "Unsupported Feishu websocket frame method: 4");
    assert_eq!(failure(session.on_event(ConnectionEvent::UndecodableFrame, 9)), "Failed to decode Feishu websocket frame");
    assert_eq!(failure(session.on_event(ConnectionEvent::Closed("None".to_string()), 9)), "Feishu long connection closed: None");
    assert_eq!(failure(session.on_event(ConnectionEvent::ReceiveFailed, 9)), "Feishu long connection websocket receive failed");
    assert_eq!(failure(session.on_event(ConnectionEvent::StreamEnded, 9)), "Feishu long connection stream ended unexpectedly");
    assert_eq!(
        failure(session.on_event(ConnectionEvent::Frame(frame(0, vec![header("type", "pong")], b"{oops")), 9)),
        "Invalid Feishu pong payload"
    );
}

#[test]
fn long_connections_need_an_enabled_bot() {
    let mut bot = FeishuBot {
        id: 1,
        name: "Bot".to_string(),
        app_id: "cli".to_string(),
        app_secret_ref: "feishu_secret_x".to_string(),
        encrypt_key_ref: None,
        verification_token_ref: None,
        tenant_mode: "self_built".to_string(),
        enabled: true,
        last_health_status: "healthy".to_string(),
        last_error: None,
    };
    assert_eq!(long_connection_start(Some(&bot)), Ok(LongConnectionStart::Connect));
    bot.enabled = false;
    assert_eq!(long_connection_start(Some(&bot)), Ok(LongConnectionStart::Skip));
    assert_eq!(long_connection_start(None), Err("Feishu bot not found for long connection".to_string()));
}
