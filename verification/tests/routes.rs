use feishu_bot::model::{Workspace, WorkspaceFeishuBinding};
use feishu_bot::routes::workspaces::{
    find_workspace_binding, map_feishu_error as map_binding_error, workspace_test_message,
    UpdateWorkspaceFeishuBindingRequest,
};
use feishu_bot::routes::{
    bot_or_not_found, map_feishu_error, runtime_action_after_update, ApiError, CreateFeishuBotRequest,
    UpdateFeishuBotRequest,
};
use feishu_bot::runtime::RuntimeAction;

fn conflict(e: ApiError) -> Option<String> {
    match e {
        ApiError::Conflict(m) => Some(m),
        ApiError::BadRequest(_) => None,
    }
}

fn bad_request(e: ApiError) -> Option<String> {
    match e {
        ApiError::BadRequest(m) => Some(m),
        ApiError::Conflict(_) => None,
    }
}

fn binding(id: u128) -> WorkspaceFeishuBinding {
    WorkspaceFeishuBinding {
        id,
        workspace_id: 1,
        bot_id: 2,
        target_id: 3,
        enabled: true,
        notify_on_status: true,
        notify_on_agent_reply: true,
        notify_on_pr: true,
        allow_commands: false,
        allow_chat_messages: false,
        allow_cards: true,
        ack_reaction_enabled: true,
        ack_reaction_emoji_type: "Typing".to_string(),
        sync_group_announcement: true,
    }
}

#[test]
fn uniqueness_violations_are_conflicts() {
    let m = "error returned from database: UNIQUE constraint failed: feishu_bots.name";
    assert_eq!(conflict(map_feishu_error(m)), Some(m.to_string()));
    assert_eq!(bad_request(map_feishu_error("Feishu bot name is required")), Some("Feishu bot name is required".to_string()));
    assert_eq!(bad_request(map_feishu_error("Group is already bound to workspace Demo")), Some("Group is already bound to workspace Demo".to_string()));
}

#[test]
fn binding_errors_for_an_already_bound_group_are_conflicts() {
    assert!(conflict(map_binding_error("Group Eng is already bound to workspace Demo")).is_some());
    assert!(conflict(map_binding_error("UNIQUE constraint failed: workspace_feishu_bindings")).is_some());
    assert_eq!(bad_request(map_binding_error("Feishu target not found")), Some("Feishu target not found".to_string()));
}

#[test]
fn bot_requests_become_service_inputs() {
    let create = CreateFeishuBotRequest {
        name: "bot".to_string(),
        app_id: "cli_1".to_string(),
        app_secret: "secret".to_string(),
        encrypt_key: None,
        verification_token: Some("token".to_string()),
        tenant_mode: "self_built".to_string(),
    };
    let input = create.into_input();
    assert_eq!(input.app_secret, Some("secret".to_string()));
    assert_eq!(input.verification_token, Some("token".to_string()));
    assert_eq!(input.encrypt_key, None);
    let update = UpdateFeishuBotRequest {
        name: "bot".to_string(),
        app_id: "cli_1".to_string(),
        app_secret: None,
        encrypt_key: None,
        verification_token: None,
        tenant_mode: "self_built".to_string(),
        enabled: false,
    };
    let input = update.into_input();
    assert_eq!(input.app_secret, None);
    assert!(!input.enabled);
}

#[test]
fn missing_bots_and_bindings_are_bad_requests() {
    assert_eq!(bot_or_not_found(Some(5)).ok(), Some(5));
    assert_eq!(bad_request(bot_or_not_found::<u8>(None).unwrap_err()), Some("Feishu bot not found".to_string()));
    let bindings = vec![binding(4), binding(7), binding(7)];
    assert_eq!(find_workspace_binding(&bindings, 7).ok(), Some(1));
    assert_eq!(bad_request(find_workspace_binding(&bindings, 8).unwrap_err()), Some("Feishu binding not found".to_string()));
}

#[test]
fn updated_bots_start_or_stop_their_runtime() {
    assert_eq!(runtime_action_after_update(true), RuntimeAction::Start);
    assert_eq!(runtime_action_after_update(false), RuntimeAction::Stop);
}

#[test]
fn binding_update_requests_keep_every_field() {
    let request = UpdateWorkspaceFeishuBindingRequest {
        enabled: true,
        notify_on_status: false,
        notify_on_agent_reply: true,
        notify_on_pr: false,
        allow_commands: true,
        allow_chat_messages: false,
        allow_cards: true,
        ack_reaction_enabled: false,
        ack_reaction_emoji_type: "OK".to_string(),
        sync_group_announcement: false,
    };
    let update = request.into_update();
    assert!(update.enabled && !update.notify_on_status && update.notify_on_agent_reply && !update.notify_on_pr);
    assert!(update.allow_commands && !update.allow_chat_messages && update.allow_cards && !update.ack_reaction_enabled);
    assert_eq!(update.ack_reaction_emoji_type, "OK");
    assert!(!update.sync_group_announcement);
}

#[test]
fn workspace_test_message_defaults_to_the_workspace_label() {
    let named = Workspace { id: 1, name: Some("Demo".to_string()), branch: "vk/demo".to_string(), archived: false, pinned: false };
    let unnamed = Workspace { id: 2, name: None, branch: "vk/feature".to_string(), archived: false, pinned: false };
    assert_eq!(workspace_test_message(None, &named), "Vibe Kanban test message for workspace Demo");
    assert_eq!(workspace_test_message(None, &unnamed), "Vibe Kanban test message for workspace vk/feature");
    assert_eq!(workspace_test_message(Some("hi".to_string()), &named), "hi");
}
