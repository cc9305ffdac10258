//! The HTTP API of a workspace's Feishu bindings.
use vstd::prelude::*;

use crate::model::{spec_workspace_label, FeishuBot, FeishuBotTarget, UpdateWorkspaceFeishuBinding, Workspace, WorkspaceFeishuBinding};
use crate::routes::{api_error_view, ApiError};
use crate::text::{contains_seq, str_contains};

verus! {

/// An error of the binding service is a conflict when the storage reports a
/// uniqueness violation or the target is already bound, a bad request
/// otherwise; its message is kept.
pub fn map_feishu_error(message: &str) -> (r: ApiError)
    ensures
        api_error_view(r) == (contains_seq(message@, "UNIQUE constraint failed"@) || contains_seq(message@, "already bound"@), message@),
{
    if str_contains(message, "UNIQUE constraint failed") || str_contains(message, "already bound") {
        ApiError::Conflict(message.to_string())
    } else {
        ApiError::BadRequest(message.to_string())
    }
}

/// The body of a binding creation.
#[derive(Debug, Clone, Copy, PartialEq, Eq, Structural)]
pub struct CreateWorkspaceFeishuBindingRequest {
    pub bot_id: u128,
    pub target_id: u128,
}

/// The body of a binding update.
#[derive(Debug, Clone)]
pub struct UpdateWorkspaceFeishuBindingRequest {
    pub enabled: bool,
    pub notify_on_status: bool,
    pub notify_on_agent_reply: bool,
    pub notify_on_pr: bool,
    pub allow_commands: bool,
    pub allow_chat_messages: bool,
    pub allow_cards: bool,
    pub ack_reaction_enabled: bool,
    pub ack_reaction_emoji_type: String,
    pub sync_group_announcement: bool,
}

impl UpdateWorkspaceFeishuBindingRequest {
    /// The update as the service takes it: every field as sent.
    pub fn into_update(self) -> (r: UpdateWorkspaceFeishuBinding)
        ensures
            r.enabled == self.enabled,
            r.notify_on_status == self.notify_on_status,
            r.notify_on_agent_reply == self.notify_on_agent_reply,
            r.notify_on_pr == self.notify_on_pr,
            r.allow_commands == self.allow_commands,
            r.allow_chat_messages == self.allow_chat_messages,
            r.allow_cards == self.allow_cards,
            r.ack_reaction_enabled == self.ack_reaction_enabled,
            r.ack_reaction_emoji_type@ == self.ack_reaction_emoji_type@,
            r.sync_group_announcement == self.sync_group_announcement,
    {
        UpdateWorkspaceFeishuBinding {
            enabled: self.enabled,
            notify_on_status: self.notify_on_status,
            notify_on_agent_reply: self.notify_on_agent_reply,
            notify_on_pr: self.notify_on_pr,
            allow_commands: self.allow_commands,
            allow_chat_messages: self.allow_chat_messages,
            allow_cards: self.allow_cards,
            ack_reaction_enabled: self.ack_reaction_enabled,
            ack_reaction_emoji_type: self.ack_reaction_emoji_type,
            sync_group_announcement: self.sync_group_announcement,
        }
    }
}

/// A bot with the targets a workspace can bind to.
#[derive(Debug, Clone)]
pub struct WorkspaceFeishuBindTarget {
    pub bot: FeishuBot,
    pub targets: Vec<FeishuBotTarget>,
}

/// The body of a workspace test message; without a message a default one is sent.
#[derive(Debug, Clone)]
pub struct SendWorkspaceFeishuTestMessageRequest {
    pub bot_id: u128,
    pub target_id: u128,
    pub message: Option<String>,
}

/// The first of the workspace's bindings with the requested id.
pub open spec fn spec_binding_position(bindings: Seq<WorkspaceFeishuBinding>, binding_id: u128) -> Option<int>
    decreases bindings.len(),
{
    if bindings.len() == 0 {
        None
    } else if bindings.last().id == binding_id {
        match spec_binding_position(bindings.drop_last(), binding_id) {
            Some(i) => Some(i),
            None => Some(bindings.len() - 1),
        }
    } else {
        spec_binding_position(bindings.drop_last(), binding_id)
    }
}

/// The position of the requested binding among the workspace's bindings,
/// or the answer when the workspace has no such binding.
pub fn find_workspace_binding(bindings: &Vec<WorkspaceFeishuBinding>, binding_id: u128) -> (r: Result<usize, ApiError>)
    ensures
        match r {
            Ok(i) => spec_binding_position(bindings@, binding_id) == Some(i as int),
            Err(e) => spec_binding_position(bindings@, binding_id) is None && api_error_view(e) == (false, "Feishu binding not found"@),
        },
{
    let mut i: usize = 0;
    while i < bindings.len()
        invariant
            i <= bindings@.len(),
            spec_binding_position(bindings@.take(i as int), binding_id) is None,
        decreases bindings@.len() - i,
    {
        assert(bindings@.take(i + 1).drop_last() =~= bindings@.take(i as int));
        if bindings[i].id == binding_id {
            proof {
                lemma_position_extends(bindings@, i as int, binding_id);
            }
            return Ok(i);
        }
        i = i + 1;
    }
    assert(bindings@.take(i as int) =~= bindings@);
    Err(ApiError::BadRequest("Feishu binding not found".to_string()))
}

/// Once the first match is at `i`, no later element changes the answer.
proof fn lemma_position_extends(bindings: Seq<WorkspaceFeishuBinding>, i: int, binding_id: u128)
    requires
        0 <= i < bindings.len(),
        bindings[i].id == binding_id,
        spec_binding_position(bindings.take(i), binding_id) is None,
    ensures
        spec_binding_position(bindings, binding_id) == Some(i),
    decreases bindings.len() - i,
{
    if bindings.len() == i + 1 {
        assert(bindings.drop_last() =~= bindings.take(i));
    } else {
        let shorter = bindings.drop_last();
        assert(shorter.take(i) =~= bindings.take(i));
        lemma_position_extends(shorter, i, binding_id);
    }
}

/// The test message: the one sent, else the default naming the workspace.
pub fn workspace_test_message(message: Option<String>, workspace: &Workspace) -> (r: String)
    ensures
        message matches Some(m) ==> r@ == m@,
        message is None ==> r@ == "Vibe Kanban test message for workspace "@ + spec_workspace_label(*workspace),
{
    match message {
        Some(m) => m,
        None => {
            let mut m = String::new();
            m.append("Vibe Kanban test message for workspace ");
            m.append(workspace.label());
            m
        },
    }
}

} // verus!
