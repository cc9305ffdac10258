use feishu_bot::client::{
    discovered_targets_from_chats, endpoint_url, send_message_request, text_message_request, FeishuChat,
    FeishuEndpoint, SendMessageRequestError, FEISHU_API_BASE,
    announcement_upsert_plan, check_api_code, check_http_status, create_announcement_request,
    discovered_target_from_chat, find_text_announcement_block_ids, message_receiver, tenant_token_endpoint,
    token_from_reply, update_announcement_requests, AnnouncementBlockInfo, AnnouncementUpsert, FeishuCall,
    FEISHU_ANNOUNCEMENT_ROOT_BLOCK_TYPE,
};
use feishu_bot::model::FeishuBotTarget;

fn block(id: &str, has_text: bool) -> AnnouncementBlockInfo {
    AnnouncementBlockInfo { block_id: Some(id.to_string()), has_text }
}

#[test]
fn finds_all_text_announcement_blocks_in_order() {
    let blocks = vec![
        block("idle-block", true),
        block("running-block", true),
        block("human-block", true),
        block("image-block", false),
    ];

    assert_eq!(
        find_text_announcement_block_ids(&blocks),
        vec!["idle-block".to_string(), "running-block".to_string(), "human-block".to_string()]
    );
}

#[test]
fn blocks_without_an_id_are_skipped() {
    let blocks = vec![AnnouncementBlockInfo { block_id: None, has_text: true }, block("b", true)];
    assert_eq!(find_text_announcement_block_ids(&blocks), vec!["b".to_string()]);
}

#[test]
fn the_status_goes_into_the_first_paragraph_and_the_rest_is_blanked() {
    match announcement_upsert_plan(&vec!["a".to_string(), "b".to_string(), "c".to_string()], "status") {
        AnnouncementUpsert::Update(updates) => assert_eq!(
            updates,
            vec![
                ("a".to_string(), "status".to_string()),
                ("b".to_string(), String::new()),
                ("c".to_string(), String::new()),
            ]
        ),
        AnnouncementUpsert::Create(_) => panic!("paragraphs exist"),
    }
    match announcement_upsert_plan(&vec![], "status") {
        AnnouncementUpsert::Create(content) => assert_eq!(content, "status"),
        AnnouncementUpsert::Update(_) => panic!("no paragraph"),
    }
    let requests = update_announcement_requests(&vec![("a".to_string(), "x".to_string())]);
    assert_eq!(requests.len(), 1);
    assert_eq!(requests[0].block_id, "a");
    assert_eq!(requests[0].update_text_elements.elements[0].text_run.content, "x");
    let create = create_announcement_request("hello");
    assert_eq!(create.index, 0);
    assert_eq!(create.children[0].block_type, FEISHU_ANNOUNCEMENT_ROOT_BLOCK_TYPE);
    assert_eq!(create.children[0].text.elements[0].text_run.content, "hello");
}

#[test]
fn messages_go_to_the_open_chat_id_first() {
    let mut t = FeishuBotTarget {
        id: 1,
        bot_id: 2,
        target_type: "chat".to_string(),
        open_chat_id: Some("oc_1".to_string()),
        chat_id: Some("c_1".to_string()),
        name: "Eng".to_string(),
        source: "discovery".to_string(),
        is_active: true,
    };
    assert_eq!(message_receiver(&t), Ok(("open_chat_id", "oc_1".to_string())));
    t.open_chat_id = None;
    assert_eq!(message_receiver(&t), Ok(("chat_id", "c_1".to_string())));
    t.chat_id = None;
    assert_eq!(message_receiver(&t), Err("Feishu target is missing both open_chat_id and chat_id"));
}

#[test]
fn open_api_replies_are_checked() {
    assert_eq!(tenant_token_endpoint("self_built"), Ok("auth/v3/tenant_access_token/internal"));
    assert_eq!(tenant_token_endpoint("internal"), Ok("auth/v3/tenant_access_token/internal"));
    assert_eq!(tenant_token_endpoint("store"), Err("Unsupported Feishu tenant mode: store".to_string()));
    assert_eq!(check_http_status(FeishuCall::SendMessage, true, "200 OK", ""), Ok(()));
    assert_eq!(
        check_http_status(FeishuCall::SendMessage, false, "400 Bad Request", "{}"),
        Err("Feishu send message failed with status 400 Bad Request: {}".to_string())
    );
    assert_eq!(check_api_code(FeishuCall::ListChats, 0, "ok"), Ok(()));
    assert_eq!(check_api_code(FeishuCall::ListChats, 99991663, "token invalid"), Err("Feishu chat list failed: token invalid".to_string()));
    assert_eq!(token_from_reply(0, "ok", Some("t-1".to_string())), Ok("t-1".to_string()));
    assert_eq!(
        token_from_reply(0, "ok", None),
        Err("Feishu token response missing tenant_access_token".to_string())
    );
    assert_eq!(token_from_reply(10003, "invalid app", None), Err("Feishu token request failed: invalid app".to_string()));
}

#[test]
fn listed_chats_become_discovered_targets() {
    let t = discovered_target_from_chat(Some("c".to_string()), Some("oc".to_string()), None);
    assert_eq!(t.name, "Unnamed chat");
    assert_eq!(t.target_type, "chat");
    assert_eq!(t.source, "discovery");
    assert_eq!(t.open_chat_id, Some("oc".to_string()));
    let named = discovered_target_from_chat(None, Some("oc".to_string()), Some("Eng".to_string()));
    assert_eq!(named.name, "Eng");
    assert_eq!(named.chat_id, None);
}

fn target(open_chat_id: Option<&str>, chat_id: Option<&str>) -> FeishuBotTarget {
    FeishuBotTarget {
        id: 1,
        bot_id: 2,
        target_type: "chat".to_string(),
        open_chat_id: open_chat_id.map(str::to_string),
        chat_id: chat_id.map(str::to_string),
        name: "Eng".to_string(),
        source: "discovery".to_string(),
        is_active: true,
    }
}

#[test]
fn endpoints_live_under_open_apis() {
    assert_eq!(
        endpoint_url(FEISHU_API_BASE, &FeishuEndpoint::TenantToken { path: "auth/v3/tenant_access_token/internal".to_string() }),
        "https://open.feishu.cn/open-apis/auth/v3/tenant_access_token/internal"
    );
    assert_eq!(endpoint_url("http://h", &FeishuEndpoint::ListChats), "http://h/open-apis/im/v1/chats");
    assert_eq!(
        endpoint_url("http://h", &FeishuEndpoint::AnnouncementChildren { chat_id: "oc_1".to_string() }),
        "http://h/open-apis/docx/v1/chats/oc_1/announcement/blocks/oc_1/children"
    );
    assert_eq!(
        endpoint_url("http://h", &FeishuEndpoint::AnnouncementBatchUpdate { chat_id: "oc_1".to_string() }),
        "http://h/open-apis/docx/v1/chats/oc_1/announcement/blocks/batch_update"
    );
    assert_eq!(
        endpoint_url("http://h", &FeishuEndpoint::SendMessage { receive_id_type: "chat_id".to_string() }),
        "http://h/open-apis/im/v1/messages?receive_id_type=chat_id"
    );
    assert_eq!(
        endpoint_url("http://h", &FeishuEndpoint::MessageReactions { message_id: "om_1".to_string() }),
        "http://h/open-apis/im/v1/messages/om_1/reactions"
    );
}

#[test]
fn chat_lists_become_targets_in_order() {
    let chats = vec![
        FeishuChat { chat_id: Some("c1".to_string()), open_chat_id: Some("oc1".to_string()), name: Some("One".to_string()) },
        FeishuChat { chat_id: None, open_chat_id: Some("oc2".to_string()), name: None },
    ];
    let targets = discovered_targets_from_chats(Some(chats));
    assert_eq!(targets.len(), 2);
    assert_eq!((targets[0].name.as_str(), targets[0].chat_id.as_deref()), ("One", Some("c1")));
    assert_eq!((targets[1].name.as_str(), targets[1].open_chat_id.as_deref()), ("Unnamed chat", Some("oc2")));
    assert!(discovered_targets_from_chats(None).is_empty());
}

#[test]
fn text_messages_are_sent_as_json_content() {
    let message = "say \"hi\"\nnow";
    let (kind, request) = send_message_request(&target(Some("oc_1"), Some("c_1")), message).expect("request");
    assert_eq!(kind, "open_chat_id");
    assert_eq!(request.receive_id, "oc_1");
    assert_eq!(request.msg_type, "text");
    let mut expected = serde_json::Map::new();
    expected.insert("text".to_string(), serde_json::Value::String(message.to_string()));
    assert_eq!(request.content, serde_json::to_string(&serde_json::Value::Object(expected)).unwrap());
    let (kind, request) = send_message_request(&target(None, Some("c_1")), "x").expect("request");
    assert_eq!((kind, request.receive_id.as_str(), request.content.as_str()), ("chat_id", "c_1", "{\"text\":\"x\"}"));
    assert!(matches!(send_message_request(&target(None, None), "x"), Err(SendMessageRequestError::MissingReceiver)));
    assert!(matches!(text_message_request(&target(Some("o"), None), None), Err(None)));
}

#[test]
fn message_content_escapes_as_json_does() {
    for message in ["plain", "quote \" and \\ back", "tab\tline\nfeed\rcr", "bell\u{7}esc\u{1b}del\u{7f}", "中文 ✓", ""] {
        let (_, request) = send_message_request(&target(Some("oc"), None), message).expect("request");
        let mut expected = serde_json::Map::new();
        expected.insert("text".to_string(), serde_json::Value::String(message.to_string()));
        assert_eq!(request.content, serde_json::to_string(&serde_json::Value::Object(expected)).unwrap());
    }
    let (_, request) = send_message_request(&target(Some("oc"), None), "\u{1}\u{8}\u{c}").expect("request");
    assert_eq!(request.content, "{\"text\":\"\\u0001\\b\\f\"}");
}
