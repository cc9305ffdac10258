use feishu_bot::dispatcher::{
    after_forward, after_reply_delivery, conversation_binding_keys, execution_announcements, plan_execution_reply,
    plan_inbound_chat_message, DispatcherMemory, FeishuAnnouncementState, InboundAction, ReplyRound, ReplyStep,
    EXECUTION_REPLY_POLL_ATTEMPTS,
};
use feishu_bot::model::{
    ExecutionProcessInfo, ExecutionProcessStatus, FeishuBotTarget, FeishuConversation, Workspace, WorkspaceFeishuBinding,
};

fn binding(id: u128, bot_id: u128, target_id: u128) -> WorkspaceFeishuBinding {
    WorkspaceFeishuBinding {
        id,
        workspace_id: 100 + id,
        bot_id,
        target_id,
        enabled: true,
        notify_on_status: true,
        notify_on_agent_reply: true,
        notify_on_pr: true,
        allow_commands: true,
        allow_chat_messages: true,
        allow_cards: true,
        ack_reaction_enabled: true,
        ack_reaction_emoji_type: "HEART".to_string(),
        sync_group_announcement: true,
    }
}

fn target() -> FeishuBotTarget {
    FeishuBotTarget {
        id: 3,
        bot_id: 9,
        target_type: "chat".to_string(),
        open_chat_id: Some("oc_3".to_string()),
        chat_id: None,
        name: "Eng".to_string(),
        source: "discovery".to_string(),
        is_active: true,
    }
}

fn workspace(id: u128) -> Workspace {
    Workspace { id, name: Some("Demo".to_string()), branch: "vk/demo".to_string(), archived: false, pinned: false }
}

#[test]
fn plain_chat_messages_are_forwarded_into_the_bound_workspace() {
    let mut memory = DispatcherMemory::new();
    let t = target();
    let bindings = vec![binding(1, 9, 3)];
    let plan = plan_inbound_chat_message(&mut memory, 9, "evt_1", Some(" om_1 "), Some(&t), &bindings, None, "  fix the bug  ");
    assert!(plan.disable.is_empty());
    assert_eq!(plan.reaction, Some(("om_1".to_string(), "Typing".to_string())));
    match plan.action {
        InboundAction::Forward { binding_id, workspace_id, prompt } => {
            assert_eq!((binding_id, workspace_id, prompt.as_str()), (1, 101, "fix the bug"));
        }
        _ => panic!("chat mode forwards"),
    }
    let ok = after_forward(&Ok(()));
    assert_eq!((ok.error_reply, ok.announcement), (None, FeishuAnnouncementState::Running));
    let failed = after_forward(&Err("busy".to_string()));
    assert_eq!(failed.error_reply, Some("Failed to forward message into workspace chat: busy".to_string()));
    assert_eq!(failed.announcement, FeishuAnnouncementState::NeedsAttention);
}

#[test]
fn duplicate_events_and_messages_are_dropped() {
    let mut memory = DispatcherMemory::new();
    let t = target();
    let bindings = vec![binding(1, 9, 3)];
    let first = plan_inbound_chat_message(&mut memory, 9, "evt_1", Some("om_1"), Some(&t), &bindings, None, "hi");
    assert!(matches!(first.action, InboundAction::Forward { .. }));
    let again = plan_inbound_chat_message(&mut memory, 9, "evt_1", Some("om_2"), Some(&t), &bindings, None, "hi");
    assert!(matches!(again.action, InboundAction::Ignore) && again.reaction.is_none());
    let same_message = plan_inbound_chat_message(&mut memory, 9, "evt_2", Some("om_1"), Some(&t), &bindings, None, "hi");
    assert!(matches!(same_message.action, InboundAction::Ignore));
    // the message id of the dropped duplicate event was not recorded
    let fresh = plan_inbound_chat_message(&mut memory, 9, "evt_3", Some("om_2"), Some(&t), &bindings, None, "hi");
    assert!(matches!(fresh.action, InboundAction::Forward { .. }));
    let unknown_chat = plan_inbound_chat_message(&mut memory, 9, "evt_4", None, None, &bindings, None, "hi");
    assert!(matches!(unknown_chat.action, InboundAction::Ignore));
}

#[test]
fn commands_are_answered_for_the_first_active_binding_and_duplicates_are_switched_off() {
    let mut memory = DispatcherMemory::new();
    let t = target();
    let mut disabled = binding(1, 9, 3);
    disabled.enabled = false;
    let mut quiet = binding(4, 9, 3);
    quiet.ack_reaction_enabled = false;
    let bindings = vec![disabled, binding(2, 8, 3), quiet, binding(5, 9, 3)];
    let w = workspace(104);
    let plan = plan_inbound_chat_message(&mut memory, 9, "evt_1", Some("om_1"), Some(&t), &bindings, Some(&w), "@bot /vk archive");
    assert_eq!(plan.disable, vec![3]);
    assert_eq!(plan.reaction, None);
    match plan.action {
        InboundAction::Reply { workspace_id, event_type, text, archive_workspace } => {
            assert_eq!(workspace_id, Some(104));
            assert_eq!(event_type, "command_reply");
            assert_eq!(text, "Archived workspace 00000000-0000-0000-0000-000000000068");
            assert_eq!(archive_workspace, Some(104));
        }
        _ => panic!("a command is answered"),
    }
    let missing = plan_inbound_chat_message(&mut memory, 9, "evt_2", None, Some(&t), &bindings, None, "/vk status");
    match missing.action {
        InboundAction::Fail(m) => assert_eq!(m, "Workspace not found"),
        _ => panic!("the workspace is gone"),
    }
}

#[test]
fn chat_mode_can_be_switched_off_and_unbound_chats_are_ignored() {
    let mut memory = DispatcherMemory::new();
    let t = target();
    let mut b = binding(1, 9, 3);
    b.allow_chat_messages = false;
    let plan = plan_inbound_chat_message(&mut memory, 9, "evt_1", Some("om_1"), Some(&t), &vec![b], None, "hello");
    assert!(matches!(plan.action, InboundAction::Ignore));
    assert!(plan.reaction.is_some());
    let other_bot = plan_inbound_chat_message(&mut memory, 9, "evt_2", Some("om_2"), Some(&t), &vec![binding(1, 8, 3)], None, "hello");
    assert!(matches!(other_bot.action, InboundAction::Ignore) && other_bot.reaction.is_none());
}

fn process(status: ExecutionProcessStatus) -> ExecutionProcessInfo {
    ExecutionProcessInfo { id: 77, session_id: 5, status, is_coding_agent: true, dropped: false }
}

#[test]
fn a_run_gets_one_final_reply() {
    let mut memory = DispatcherMemory::new();
    let mut second = binding(2, 9, 3);
    second.workspace_id = 101;
    let bindings = vec![binding(1, 9, 3), second, binding(3, 9, 4)];
    assert!(matches!(plan_execution_reply(&mut memory, &process(ExecutionProcessStatus::Running), &bindings, Some("x"), 1), ReplyStep::Skip));
    assert!(matches!(plan_execution_reply(&mut memory, &process(ExecutionProcessStatus::Completed), &bindings, None, 1), ReplyStep::WaitForSummary));
    assert!(matches!(plan_execution_reply(&mut memory, &process(ExecutionProcessStatus::Completed), &bindings, None, EXECUTION_REPLY_POLL_ATTEMPTS), ReplyStep::Skip));
    match plan_execution_reply(&mut memory, &process(ExecutionProcessStatus::Completed), &bindings, Some(" Done. "), 1) {
        ReplyStep::Send { recipients, text } => {
            assert_eq!(recipients, vec![0, 2]);
            assert_eq!(text, "Done.");
        }
        _ => panic!("the summary is sent"),
    }
    assert!(matches!(plan_execution_reply(&mut memory, &process(ExecutionProcessStatus::Completed), &bindings, Some("Done."), 1), ReplyStep::Skip));
    after_reply_delivery(&mut memory, 77, false);
    assert!(matches!(plan_execution_reply(&mut memory, &process(ExecutionProcessStatus::Completed), &bindings, Some("Done."), 1), ReplyStep::Send { .. }));
    after_reply_delivery(&mut memory, 77, true);
    assert!(matches!(plan_execution_reply(&mut memory, &process(ExecutionProcessStatus::Completed), &bindings, Some("Done."), 1), ReplyStep::Skip));
}

#[test]
fn failed_runs_without_summary_get_a_notice_and_dropped_runs_nothing() {
    let mut memory = DispatcherMemory::new();
    let bindings = vec![binding(1, 9, 3)];
    match plan_execution_reply(&mut memory, &process(ExecutionProcessStatus::Failed), &bindings, None, 1) {
        ReplyStep::Send { text, .. } => assert_eq!(text, "The workspace run failed before a final assistant reply was produced."),
        _ => panic!("a failed run is reported"),
    }
    let mut dropped = process(ExecutionProcessStatus::Killed);
    dropped.id = 78;
    dropped.dropped = true;
    assert!(matches!(plan_execution_reply(&mut memory, &dropped, &bindings, Some("x"), 1), ReplyStep::Skip));
    assert!(execution_announcements(&dropped, &bindings).0.is_empty());
    let mut off = binding(2, 9, 3);
    off.enabled = false;
    let (indices, state) = execution_announcements(&process(ExecutionProcessStatus::Killed), &vec![off, binding(3, 9, 4)]);
    assert_eq!(indices, vec![1]);
    assert_eq!(state, Some(FeishuAnnouncementState::NeedsAttention));
}

#[test]
fn session_bindings_keep_first_occurrence_order() {
    let conversation = |workspace_id: u128, target_id: u128| FeishuConversation {
        id: 0,
        bot_id: 9,
        target_id,
        workspace_id,
        session_id: Some(1),
        feishu_user_id: None,
        last_message_at: None,
        last_card_context: None,
    };
    let keys = conversation_binding_keys(&vec![conversation(2, 5), conversation(1, 4), conversation(2, 5), conversation(1, 6)]);
    assert_eq!(keys, vec![(2, 5), (1, 4), (1, 6)]);
}

#[test]
fn a_completed_run_is_watched_for_its_summary_up_to_the_last_lookup() {
    let bindings = vec![binding(1, 10, 20)];
    let mut memory = DispatcherMemory::new();
    let completed = process(ExecutionProcessStatus::Completed);
    assert_eq!(EXECUTION_REPLY_POLL_ATTEMPTS, 150);
    assert!(matches!(
        plan_execution_reply(&mut memory, &completed, &bindings, None, EXECUTION_REPLY_POLL_ATTEMPTS - 1),
        ReplyStep::WaitForSummary
    ));
    assert!(matches!(
        plan_execution_reply(&mut memory, &completed, &bindings, None, EXECUTION_REPLY_POLL_ATTEMPTS),
        ReplyStep::Skip
    ));
}

#[test]
fn a_failed_delivery_does_not_stop_the_reply_round() {
    let mut round = ReplyRound::new(vec![4, 7, 9]);
    assert_eq!(round.next_recipient(), Some(4));
    round.record(&Ok(()));
    assert_eq!(round.next_recipient(), Some(7));
    round.record(&Err("send failed".to_string()));
    assert_eq!(round.next_recipient(), Some(9));
    round.record(&Err("second failure".to_string()));
    assert_eq!(round.next_recipient(), None);
    assert!(!round.all_delivered());
    assert_eq!(round.outcome(), Err("send failed".to_string()));

    let mut clean = ReplyRound::new(vec![1, 2]);
    while clean.next_recipient().is_some() {
        clean.record(&Ok(()));
    }
    assert!(clean.all_delivered());
    assert_eq!(clean.outcome(), Ok(2));
}
