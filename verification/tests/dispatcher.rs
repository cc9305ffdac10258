use feishu_bot::dispatcher::{
    ack_binding, active_binding_indices, bridge_route, card_action_outcome, execute_command, extract_command,
    fallback_reply, format_group_announcement_content, inbound_route, keep_polling_for_summary,
    normalized_ack_reaction_emoji_type, process_announcement_override, reply_recipients, status_delivery,
    summary_reply, workspace_status_message, workspace_status_signature, BridgeRoute, CardEffect, DispatcherMemory,
    FeishuAnnouncementState, InboundRoute, PatchOpKind, WorkspaceStatusSignatures,
};
use feishu_bot::model::{ExecutionProcessStatus, Workspace, WorkspaceFeishuBinding, WorkspaceWithStatus};

fn workspace(name: Option<&str>) -> Workspace {
    Workspace { id: 0x0123456789abcdef0123456789abcdef, name: name.map(str::to_string), branch: "vk/demo".to_string(), archived: false, pinned: true }
}

fn binding(id: u128, bot_id: u128, target_id: u128) -> WorkspaceFeishuBinding {
    WorkspaceFeishuBinding {
        id,
        workspace_id: 100 + id,
        bot_id,
        target_id,
        enabled: true,
        notify_on_status: true,
        notify_on_agent_reply: true,
        notify_on_pr: true,
        allow_commands: true,
        allow_chat_messages: true,
        allow_cards: true,
        ack_reaction_enabled: false,
        ack_reaction_emoji_type: "Typing".to_string(),
        sync_group_announcement: true,
    }
}

#[test]
fn commands_start_at_the_first_vk_marker() {
    assert_eq!(extract_command("/vk status"), Some("/vk status"));
    assert_eq!(extract_command("@bot please /vk stop  "), Some("/vk stop"));
    assert_eq!(extract_command("hello there"), None);
    assert_eq!(extract_command("/v k"), None);
    assert_eq!(extract_command("a /vk b /vk c"), Some("/vk b /vk c"));
}

#[test]
fn unsupported_reactions_fall_back_to_typing() {
    assert_eq!(normalized_ack_reaction_emoji_type("OK"), "OK");
    assert_eq!(normalized_ack_reaction_emoji_type("CheckMark"), "CheckMark");
    assert_eq!(normalized_ack_reaction_emoji_type("HEART"), "Typing");
    assert_eq!(normalized_ack_reaction_emoji_type(""), "Typing");
}

#[test]
fn group_announcement_mirrors_the_workspace() {
    let w = WorkspaceWithStatus { workspace: workspace(Some("Demo")), is_running: false, is_errored: true };
    assert_eq!(
        format_group_announcement_content(&w, None),
        "Vibe Kanban | 需要注意 | 工作区：Demo | 分支：vk/demo | 已归档：否 | 已置顶：是"
    );
    assert_eq!(
        format_group_announcement_content(&w, Some(FeishuAnnouncementState::Running)),
        "Vibe Kanban | 运行中 | 工作区：Demo | 分支：vk/demo | 已归档：否 | 已置顶：是"
    );
    let idle = WorkspaceWithStatus { workspace: workspace(None), is_running: false, is_errored: false };
    assert_eq!(
        format_group_announcement_content(&idle, None),
        "Vibe Kanban | 空闲 | 工作区：vk/demo | 分支：vk/demo | 已归档：否 | 已置顶：是"
    );
}

#[test]
fn status_messages_and_signatures() {
    let w = workspace(Some("Demo"));
    assert_eq!(workspace_status_message(&w), "Workspace Demo status updated. Archived: false. Pinned: true. Branch: vk/demo.");
    assert_eq!(workspace_status_signature(&w), "false|true|vk/demo|Demo");
    assert_eq!(workspace_status_signature(&workspace(None)), "false|true|vk/demo|");
}

#[test]
fn commands_answer_per_binding_permissions() {
    let w = workspace(Some("Demo"));
    assert_eq!(execute_command(&w, false, "/vk status").reply, "Workspace Demo — archived=false, pinned=true, branch=vk/demo");
    assert_eq!(
        execute_command(&w, false, "/vk help").reply,
        "Available commands: /vk help, /vk status, /vk open, /vk stop, /vk archive, /vk new"
    );
    let rejected = execute_command(&w, false, "/vk archive");
    assert_eq!(rejected.reply, "Commands are disabled for this binding. Rejected command: /vk archive");
    assert!(!rejected.archive);
    let archived = execute_command(&w, true, " /vk archive ");
    assert_eq!(archived.reply, "Archived workspace 01234567-89ab-cdef-0123-456789abcdef");
    assert!(archived.archive);
    assert_eq!(execute_command(&w, true, "/vk open").reply, "Open workspace 01234567-89ab-cdef-0123-456789abcdef");
    assert_eq!(execute_command(&w, true, "/vk dance").reply, "Unsupported command: /vk dance");
    assert_eq!(
        execute_command(&w, true, "/vk new").reply,
        "Workspace creation from Feishu requires a saved template in Vibe Kanban."
    );
}

#[test]
fn card_actions_answer_per_binding_permissions() {
    let disabled = card_action_outcome(false, 1, "archive_workspace");
    assert_eq!(disabled.reply, "Card interactions are disabled for this binding");
    assert_eq!(disabled.effect, CardEffect::ReplyOnly);
    let archive = card_action_outcome(true, 1, "archive_workspace");
    assert_eq!(archive.reply, "Archived workspace 00000000-0000-0000-0000-000000000001");
    assert_eq!(archive.effect, CardEffect::ArchiveWorkspace);
    assert_eq!(card_action_outcome(true, 1, "disable_commands").effect, CardEffect::DisableCommands);
    assert_eq!(card_action_outcome(true, 1, "wave").reply, "Unsupported card action: wave");
}

#[test]
fn inbound_messages_are_routed_by_binding_count() {
    let one = vec![binding(1, 9, 3)];
    let two = vec![binding(1, 9, 3), binding(2, 9, 3)];
    let none: Vec<WorkspaceFeishuBinding> = vec![];
    assert_eq!(inbound_route(&none, true), InboundRoute::Ignore);
    assert_eq!(inbound_route(&one, true), InboundRoute::ExecuteCommand { binding: 0 });
    assert_eq!(inbound_route(&two, true), InboundRoute::RejectCommandMultiple);
    assert_eq!(inbound_route(&one, false), InboundRoute::ForwardChat { binding: 0 });
    assert_eq!(inbound_route(&two, false), InboundRoute::RejectChatMultiple);
    let mut quiet = binding(1, 9, 3);
    quiet.allow_chat_messages = false;
    assert_eq!(inbound_route(&vec![quiet], false), InboundRoute::Ignore);
}

#[test]
fn receipt_is_acknowledged_by_the_first_binding_that_wants_it() {
    let mut bindings = vec![binding(1, 9, 3), binding(2, 9, 3), binding(3, 9, 3)];
    assert_eq!(ack_binding(&bindings), None);
    bindings[1].ack_reaction_enabled = true;
    bindings[2].ack_reaction_enabled = true;
    assert_eq!(ack_binding(&bindings), Some(1));
}

#[test]
fn status_changes_go_to_announcement_or_notice() {
    let mut b = binding(1, 9, 3);
    let d = status_delivery(&b);
    assert!(d.sync_announcement && !d.send_notice);
    b.sync_group_announcement = false;
    let d = status_delivery(&b);
    assert!(!d.sync_announcement && d.send_notice);
    b.enabled = false;
    let d = status_delivery(&b);
    assert!(!d.sync_announcement && !d.send_notice);
}

#[test]
fn active_bindings_of_a_bot_in_order() {
    let mut bindings = vec![binding(1, 9, 3), binding(2, 8, 3), binding(3, 9, 4), binding(4, 9, 5)];
    bindings[2].enabled = false;
    assert_eq!(active_binding_indices(&bindings, 9), vec![0, 3]);
}

#[test]
fn agent_replies_go_once_to_each_chat_target() {
    let mut bindings = vec![binding(1, 9, 3), binding(2, 9, 3), binding(3, 9, 4), binding(4, 8, 3)];
    bindings[0].notify_on_agent_reply = false;
    assert_eq!(reply_recipients(&bindings), vec![1, 2, 3]);
}

#[test]
fn run_outcomes_decide_replies_and_announcements() {
    assert_eq!(summary_reply(Some("  All done \n")), Some("All done".to_string()));
    assert_eq!(summary_reply(Some("   ")), None);
    assert_eq!(summary_reply(None), None);
    assert_eq!(
        fallback_reply(ExecutionProcessStatus::Failed),
        Some("The workspace run failed before a final assistant reply was produced.".to_string())
    );
    assert_eq!(
        fallback_reply(ExecutionProcessStatus::Killed),
        Some("The workspace run was stopped before a final assistant reply was produced.".to_string())
    );
    assert_eq!(fallback_reply(ExecutionProcessStatus::Completed), None);
    assert!(keep_polling_for_summary(ExecutionProcessStatus::Completed));
    assert!(!keep_polling_for_summary(ExecutionProcessStatus::Running));
    assert_eq!(process_announcement_override(ExecutionProcessStatus::Running), Some(FeishuAnnouncementState::Running));
    assert_eq!(process_announcement_override(ExecutionProcessStatus::Failed), Some(FeishuAnnouncementState::NeedsAttention));
    assert_eq!(process_announcement_override(ExecutionProcessStatus::Completed), None);
}

#[test]
fn duplicate_inbound_events_and_messages_are_ignored() {
    let mut memory = DispatcherMemory::new();
    assert!(!memory.is_duplicate_event("evt_1"));
    assert!(memory.is_duplicate_event("evt_1"));
    assert!(!memory.is_duplicate_event("evt_2"));
    assert!(!memory.is_duplicate_message(Some("om_1")));
    assert!(memory.is_duplicate_message(Some(" om_1 ")));
    assert!(!memory.is_duplicate_message(None));
    assert!(!memory.is_duplicate_message(Some("  ")));
    assert!(!memory.is_duplicate_message(Some("  ")));
}

#[test]
fn a_run_reply_is_claimed_once_until_released() {
    let mut memory = DispatcherMemory::new();
    assert!(memory.claim_execution_reply(5));
    assert!(!memory.claim_execution_reply(5));
    memory.release_execution_reply(5);
    assert!(memory.claim_execution_reply(5));
}

#[test]
fn the_same_announcement_is_pushed_once() {
    let mut memory = DispatcherMemory::new();
    assert!(!memory.announcement_is_current(1, "A"));
    memory.record_announcement(1, "A".to_string());
    assert!(memory.announcement_is_current(1, "A"));
    assert!(!memory.announcement_is_current(1, "B"));
    assert!(!memory.announcement_is_current(2, "A"));
}

#[test]
fn workspace_status_is_dispatched_once_per_change() {
    let w = workspace(Some("Demo"));
    let mut signatures = WorkspaceStatusSignatures::load(&vec![w.clone()]);
    assert!(!signatures.should_dispatch_workspace_status(&w));
    let mut changed = w.clone();
    changed.archived = true;
    assert!(signatures.should_dispatch_workspace_status(&changed));
    assert!(!signatures.should_dispatch_workspace_status(&changed));
    let mut fresh = workspace(None);
    fresh.id = 7;
    assert!(!signatures.should_dispatch_workspace_status(&fresh));
}

#[test]
fn event_stream_patches_are_routed_by_path() {
    assert_eq!(bridge_route(PatchOpKind::Replace, "/workspaces/abc"), BridgeRoute::WorkspaceStatus);
    assert_eq!(bridge_route(PatchOpKind::Add, "/execution_processes/1"), BridgeRoute::ExecutionProcessReply);
    assert_eq!(bridge_route(PatchOpKind::Add, "/coding_agent_turn_summaries/1"), BridgeRoute::TurnSummaryReply);
    assert_eq!(bridge_route(PatchOpKind::Other, "/workspaces/abc"), BridgeRoute::Ignore);
    assert_eq!(bridge_route(PatchOpKind::Add, "/scratch/1"), BridgeRoute::Ignore);
}
