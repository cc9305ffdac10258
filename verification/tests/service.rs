use feishu_bot::model::{FeishuBot, FeishuBotTarget, FeishuConversation, Workspace, WorkspaceFeishuBinding};
use feishu_bot::secret_store::SecretVault;
use feishu_bot::service::{
    announcement_chat_id, binding_conflict_message, chat_identity_known, commands_disabled_update,
    conflict_workspace_label, conversation_needs_session_update, conversation_session_id, disabled_binding_update,
    failed_delivery_log, first_conflicting_binding, is_unique_violation, prepare_bot_creation, prepare_bot_update,
    resolve_bot_secrets, sent_delivery_log, single_active_plan, stale_target_updates, target_upsert,
    validate_create_bot_input, validation_result, BotInputError, TargetUpsert,
    delivery_attempt, plan_chat_session, updated_bot, ChatSessionPlan, DeliveryStep, MAX_DELIVERY_ATTEMPTS,
};
use feishu_bot::types::{binding_defaults, CreateFeishuBotInput, DiscoveredFeishuTarget, UpdateFeishuBotInput};

fn create_input(secret: Option<&str>) -> CreateFeishuBotInput {
    CreateFeishuBotInput {
        name: "Bot One".to_string(),
        app_id: "cli_one".to_string(),
        app_secret: secret.map(str::to_string),
        encrypt_key: None,
        verification_token: None,
        tenant_mode: "self_built".to_string(),
    }
}

fn binding(id: u128, bot_id: u128, enabled: bool) -> WorkspaceFeishuBinding {
    WorkspaceFeishuBinding {
        id,
        workspace_id: id + 100,
        bot_id,
        target_id: 3,
        enabled,
        notify_on_status: true,
        notify_on_agent_reply: false,
        notify_on_pr: true,
        allow_commands: true,
        allow_chat_messages: false,
        allow_cards: true,
        ack_reaction_enabled: true,
        ack_reaction_emoji_type: "OK".to_string(),
        sync_group_announcement: false,
    }
}

fn target(id: u128, chat_id: Option<&str>, active: bool) -> FeishuBotTarget {
    FeishuBotTarget {
        id,
        bot_id: 1,
        target_type: "chat".to_string(),
        open_chat_id: Some(format!("oc_{id}")),
        chat_id: chat_id.map(str::to_string),
        name: format!("Group {id}"),
        source: "discovery".to_string(),
        is_active: active,
    }
}

#[test]
fn incomplete_credentials_are_rejected_in_order() {
    assert_eq!(validate_create_bot_input(&create_input(Some("secret"))), Ok(()));
    assert_eq!(validate_create_bot_input(&create_input(None)), Err(BotInputError::AppSecretRequired));
    assert_eq!(validate_create_bot_input(&create_input(Some("   "))), Err(BotInputError::AppSecretRequired));
    let mut input = create_input(None);
    input.name = " ".to_string();
    assert_eq!(validate_create_bot_input(&input), Err(BotInputError::NameRequired));
    let mut input = create_input(Some("secret"));
    input.app_id = String::new();
    assert_eq!(validate_create_bot_input(&input), Err(BotInputError::AppIdRequired));
    let mut input = create_input(Some("secret"));
    input.tenant_mode = String::new();
    assert_eq!(validate_create_bot_input(&input), Err(BotInputError::TenantModeRequired));
    let mut input = create_input(Some("secret"));
    input.encrypt_key = Some("".to_string());
    assert_eq!(validate_create_bot_input(&input), Err(BotInputError::EncryptKeyEmpty));
    let mut input = create_input(Some("secret"));
    input.verification_token = Some(" \t".to_string());
    assert_eq!(validate_create_bot_input(&input), Err(BotInputError::VerificationTokenEmpty));
    assert_eq!(BotInputError::AppSecretRequired.message(), "Feishu app secret is required");
    assert_eq!(BotInputError::NameRequired.message(), "Feishu bot name is required");
}

#[test]
fn created_bots_hold_secret_references_not_values() {
    let mut vault = SecretVault::new();
    let mut input = create_input(Some("app-secret"));
    input.encrypt_key = Some("encrypt".to_string());
    let bot = prepare_bot_creation(input, &mut vault).expect("valid input");
    assert!(bot.app_secret_ref.starts_with("feishu_secret_"));
    assert_ne!(bot.app_secret_ref, "app-secret");
    assert_eq!(bot.app_secret_ref.len(), "feishu_secret_".len() + 36);
    assert_eq!(vault.get(&bot.app_secret_ref).ok(), Some("app-secret".to_string()));
    let key_ref = bot.encrypt_key_ref.clone().expect("encrypt key stored");
    assert_eq!(vault.get(&key_ref).ok(), Some("encrypt".to_string()));
    assert_eq!(bot.verification_token_ref, None);
    assert_eq!(vault.entries().len(), 2);
}

#[test]
fn refused_creations_store_nothing() {
    let mut vault = SecretVault::new();
    let mut input = create_input(Some("app-secret"));
    input.tenant_mode = String::new();
    assert_eq!(prepare_bot_creation(input, &mut vault).err(), Some(BotInputError::TenantModeRequired));
    assert!(vault.entries().is_empty());
}

fn stored_bot(vault: &mut SecretVault) -> FeishuBot {
    let app_secret_ref = vault.put("old-secret".to_string());
    FeishuBot {
        id: 1,
        name: "Bot One".to_string(),
        app_id: "cli_one".to_string(),
        app_secret_ref,
        encrypt_key_ref: None,
        verification_token_ref: None,
        tenant_mode: "self_built".to_string(),
        enabled: true,
        last_health_status: "healthy".to_string(),
        last_error: None,
    }
}

#[test]
fn updates_keep_secrets_left_out_and_store_new_ones() {
    let mut vault = SecretVault::new();
    let bot = stored_bot(&mut vault);
    let keep = UpdateFeishuBotInput {
        name: "Renamed".to_string(),
        app_id: "cli_one".to_string(),
        app_secret: None,
        encrypt_key: None,
        verification_token: Some("token".to_string()),
        tenant_mode: "self_built".to_string(),
        enabled: false,
    };
    let update = prepare_bot_update(Some(&bot), keep, &mut vault).expect("valid update");
    assert_eq!(update.app_secret_ref, bot.app_secret_ref);
    assert_eq!(update.name, "Renamed");
    assert!(!update.enabled);
    let token_ref = update.verification_token_ref.expect("token stored");
    assert_eq!(vault.get(&token_ref).ok(), Some("token".to_string()));

    let blank = UpdateFeishuBotInput {
        name: "Renamed".to_string(),
        app_id: "cli_one".to_string(),
        app_secret: Some(" ".to_string()),
        encrypt_key: None,
        verification_token: None,
        tenant_mode: "self_built".to_string(),
        enabled: true,
    };
    assert_eq!(prepare_bot_update(Some(&bot), blank, &mut vault).err(), Some(BotInputError::AppSecretRequired));
}

#[test]
fn bot_secrets_resolve_through_their_references() {
    let mut vault = SecretVault::new();
    let mut bot = stored_bot(&mut vault);
    let secrets = resolve_bot_secrets(&bot, &vault).expect("stored secret");
    assert_eq!(secrets.app_secret, "old-secret");
    assert_eq!(secrets.encrypt_key, None);
    bot.encrypt_key_ref = Some("feishu_secret_missing".to_string());
    let missing = resolve_bot_secrets(&bot, &vault).err().expect("missing reference");
    assert_eq!(missing.message(), "Feishu secret reference not found: feishu_secret_missing");
}

#[test]
fn new_bindings_start_with_safe_defaults() {
    let d = binding_defaults();
    assert!(d.enabled && d.notify_on_status && d.notify_on_agent_reply && d.notify_on_pr);
    assert!(!d.allow_commands && !d.allow_chat_messages);
    assert!(d.allow_cards && d.ack_reaction_enabled && d.sync_group_announcement);
    assert_eq!(d.ack_reaction_emoji_type, "Typing");
}

#[test]
fn a_group_bound_elsewhere_is_refused_with_its_owner() {
    let bindings = vec![binding(1, 9, true), binding(2, 9, true), binding(3, 8, true)];
    assert_eq!(first_conflicting_binding(&bindings, None), Some(0));
    assert_eq!(first_conflicting_binding(&bindings, Some(1)), Some(1));
    assert_eq!(first_conflicting_binding(&vec![binding(1, 9, true)], Some(1)), None);
    let w = Workspace { id: 5, name: None, branch: "vk/x".to_string(), archived: false, pinned: false };
    assert_eq!(conflict_workspace_label(Some(&w), 5), "vk/x");
    assert_eq!(conflict_workspace_label(None, 5), "00000000-0000-0000-0000-000000000005");
    assert_eq!(
        binding_conflict_message("Eng", "Demo"),
        "Current Feishu group \"Eng\" is already bound to workspace \"Demo\". Unbind it before binding again."
    );
    assert!(chat_identity_known(Some("oc"), None));
    assert!(!chat_identity_known(None, None));
}

#[test]
fn one_binding_per_bot_stays_active_on_a_target() {
    let bindings = vec![binding(1, 9, true), binding(2, 9, true), binding(3, 9, false), binding(4, 8, true)];
    let plan = single_active_plan(&bindings, 9, 2);
    assert_eq!(plan.disable, vec![0]);
    assert_eq!(plan.retained, vec![1, 2]);
    let off = disabled_binding_update(&bindings[0]);
    assert!(!off.enabled && off.allow_commands && off.ack_reaction_emoji_type == "OK");
    let no_commands = commands_disabled_update(&bindings[1]);
    assert!(no_commands.enabled && !no_commands.allow_commands);
}

#[test]
fn discovery_refreshes_known_targets_and_retires_vanished_ones() {
    let discovered = DiscoveredFeishuTarget {
        target_type: "chat".to_string(),
        open_chat_id: Some("oc_1".to_string()),
        chat_id: None,
        name: "Renamed".to_string(),
        source: "discovery".to_string(),
    };
    let known = target(1, Some("c1"), false);
    match target_upsert(1, Some(&known), &discovered) {
        TargetUpsert::Update { id, update } => {
            assert_eq!(id, 1);
            assert!(update.is_active);
            assert_eq!(update.name, "Renamed");
        }
        TargetUpsert::Create(_) => panic!("the target is known"),
    }
    match target_upsert(1, None, &discovered) {
        TargetUpsert::Create(c) => assert_eq!((c.bot_id, c.name.as_str()), (1, "Renamed")),
        TargetUpsert::Update { .. } => panic!("the target is new"),
    }
    let existing = vec![target(1, None, true), target(2, None, true), target(3, None, false)];
    let updates = stale_target_updates(&existing, &vec![1]);
    assert_eq!(updates.len(), 1);
    assert_eq!(updates[0].0, 2);
    assert!(!updates[0].1.is_active);
    assert_eq!(updates[0].1.name, "Group 2");
}

#[test]
fn deliveries_are_logged_with_their_outcome() {
    let sent = sent_delivery_log(Some(4), 1, 2, "command_reply", "hi", Some("om_1".to_string()));
    assert_eq!((sent.status.as_str(), sent.retry_count), ("sent", 0));
    assert_eq!(sent.payload_summary, Some("hi".to_string()));
    assert_eq!(sent.message_id, Some("om_1".to_string()));
    let failed = failed_delivery_log(None, 1, 2, "manual_test_message", "hi", "timeout");
    assert_eq!(failed.status, "failed");
    assert_eq!(failed.error_message, Some("timeout".to_string()));
    assert_eq!(failed.message_id, None);
}

#[test]
fn announcements_need_a_chat_id() {
    assert_eq!(announcement_chat_id(&target(1, Some("c1"), true)), Ok("c1"));
    assert_eq!(
        announcement_chat_id(&target(1, None, true)),
        Err("Feishu target is missing chat_id for group announcement")
    );
}

#[test]
fn conversations_keep_their_fixed_session() {
    assert_eq!(conversation_session_id(Some(7), 9), 7);
    assert_eq!(conversation_session_id(None, 9), 9);
    assert!(!conversation_needs_session_update(Some(7), 7));
    assert!(conversation_needs_session_update(None, 9));
}

#[test]
fn validation_reports_and_unique_violations() {
    let v = validation_result(3);
    assert!(v.ok);
    assert_eq!(v.message, "Bot validated successfully");
    assert_eq!(v.chat_count, 3);
    assert!(is_unique_violation("UNIQUE constraint failed: feishu_bots.name"));
    assert!(!is_unique_violation("FOREIGN KEY constraint failed"));
}

#[test]
fn updating_a_missing_bot_is_refused_after_the_field_checks() {
    let mut vault = SecretVault::new();
    let input = |name: &str| UpdateFeishuBotInput {
        name: name.to_string(),
        app_id: "cli_one".to_string(),
        app_secret: Some("new".to_string()),
        encrypt_key: None,
        verification_token: None,
        tenant_mode: "self_built".to_string(),
        enabled: true,
    };
    assert_eq!(prepare_bot_update(None, input("Bot"), &mut vault).err(), Some(BotInputError::BotNotFound));
    assert_eq!(prepare_bot_update(None, input(" "), &mut vault).err(), Some(BotInputError::NameRequired));
    assert!(vault.entries().is_empty());
    assert_eq!(BotInputError::BotNotFound.message(), "Feishu bot not found");
}

#[test]
fn disabling_a_bot_marks_its_health_disabled() {
    let mut vault = SecretVault::new();
    let bot = stored_bot(&mut vault);
    let mut input = UpdateFeishuBotInput {
        name: "Bot One".to_string(),
        app_id: "cli_one".to_string(),
        app_secret: None,
        encrypt_key: None,
        verification_token: None,
        tenant_mode: "self_built".to_string(),
        enabled: false,
    };
    let update = prepare_bot_update(Some(&bot), input.clone(), &mut vault).expect("valid update");
    let stored = updated_bot(&bot, &update);
    assert_eq!(stored.last_health_status, "disabled");
    assert!(!stored.enabled);
    assert_eq!(stored.id, bot.id);
    input.enabled = true;
    let update = prepare_bot_update(Some(&bot), input, &mut vault).expect("valid update");
    assert_eq!(updated_bot(&bot, &update).last_health_status, "healthy");
}

#[test]
fn failed_deliveries_are_logged_and_retried_a_bounded_number_of_times() {
    let (log, step) = delivery_attempt(Some(4), 1, 2, "agent_reply", "hi", 1, Err("timeout".to_string()));
    assert_eq!((log.status.as_str(), log.retry_count), ("failed", 0));
    assert_eq!(log.error_message, Some("timeout".to_string()));
    assert_eq!(step, DeliveryStep::Retry(2));
    let (log, step) = delivery_attempt(Some(4), 1, 2, "agent_reply", "hi", MAX_DELIVERY_ATTEMPTS, Err("timeout".to_string()));
    assert_eq!(log.retry_count, (MAX_DELIVERY_ATTEMPTS - 1) as i64);
    assert_eq!(step, DeliveryStep::GiveUp);
    let (log, step) = delivery_attempt(None, 1, 2, "agent_reply", "hi", 2, Ok(Some("om_1".to_string())));
    assert_eq!((log.status.as_str(), log.retry_count, log.message_id.as_deref()), ("sent", 1, Some("om_1")));
    assert_eq!(step, DeliveryStep::Delivered);
}

fn chat_conversation(session_id: Option<u128>) -> FeishuConversation {
    FeishuConversation {
        id: 70,
        bot_id: 1,
        target_id: 2,
        workspace_id: 3,
        session_id,
        feishu_user_id: None,
        last_message_at: None,
        last_card_context: None,
    }
}

#[test]
fn chat_session_lookup_creates_repoints_and_then_reuses() {
    assert_eq!(plan_chat_session(None, 500), ChatSessionPlan::Create { session_id: 500 });
    let bare = chat_conversation(None);
    assert_eq!(plan_chat_session(Some(&bare), 501), ChatSessionPlan::Repoint { conversation_id: 70, session_id: 501 });
    let fixed = chat_conversation(Some(501));
    assert_eq!(plan_chat_session(Some(&fixed), 502), ChatSessionPlan::Reuse { conversation_id: 70, session_id: 501 });
    assert_eq!(plan_chat_session(Some(&fixed), 503), ChatSessionPlan::Reuse { conversation_id: 70, session_id: 501 });
}

#[test]
fn stale_targets_are_switched_off_once_each_in_stored_order() {
    let existing = vec![
        target(5, None, true),
        target(2, None, true),
        target(9, None, false),
        target(4, None, true),
        target(7, None, true),
    ];
    let updates = stale_target_updates(&existing, &vec![4]);
    let ids: Vec<u128> = updates.iter().map(|u| u.0).collect();
    assert_eq!(ids, vec![5, 2, 7]);
    assert!(updates.iter().all(|u| !u.1.is_active));
}
