//! The records the bot works with: bots, their chat targets, workspace
//! bindings, conversations, delivery logs, and the workspace and execution
//! facts the dispatcher reads. Identifiers are the 128 bits of a UUID.
use vstd::prelude::*;

verus! {

/// A registered Feishu application bot. Secrets are held by reference only.
#[derive(Debug, Clone)]
pub struct FeishuBot {
    pub id: u128,
    pub name: String,
    pub app_id: String,
    pub app_secret_ref: String,
    pub encrypt_key_ref: Option<String>,
    pub verification_token_ref: Option<String>,
    pub tenant_mode: String,
    pub enabled: bool,
    pub last_health_status: String,
    pub last_error: Option<String>,
}

/// The fields of a new bot row.
#[derive(Debug, Clone)]
pub struct CreateFeishuBot {
    pub name: String,
    pub app_id: String,
    pub app_secret_ref: String,
    pub encrypt_key_ref: Option<String>,
    pub verification_token_ref: Option<String>,
    pub tenant_mode: String,
}

/// The fields written by a bot update.
#[derive(Debug, Clone)]
pub struct UpdateFeishuBot {
    pub name: String,
    pub app_id: String,
    pub app_secret_ref: String,
    pub encrypt_key_ref: Option<String>,
    pub verification_token_ref: Option<String>,
    pub tenant_mode: String,
    pub enabled: bool,
}

/// A chat that a bot can post to.
#[derive(Debug, Clone)]
pub struct FeishuBotTarget {
    pub id: u128,
    pub bot_id: u128,
    pub target_type: String,
    pub open_chat_id: Option<String>,
    pub chat_id: Option<String>,
    pub name: String,
    pub source: String,
    pub is_active: bool,
}

/// The fields of a new target row.
#[derive(Debug, Clone)]
pub struct CreateFeishuBotTarget {
    pub bot_id: u128,
    pub target_type: String,
    pub open_chat_id: Option<String>,
    pub chat_id: Option<String>,
    pub name: String,
    pub source: String,
}

/// The fields written by a target update.
#[derive(Debug, Clone)]
pub struct UpdateFeishuBotTarget {
    pub target_type: String,
    pub open_chat_id: Option<String>,
    pub chat_id: Option<String>,
    pub name: String,
    pub source: String,
    pub is_active: bool,
}

/// A binding between one workspace and one bot target, with its permissions.
#[derive(Debug, Clone)]
pub struct WorkspaceFeishuBinding {
    pub id: u128,
    pub workspace_id: u128,
    pub bot_id: u128,
    pub target_id: u128,
    pub enabled: bool,
    pub notify_on_status: bool,
    pub notify_on_agent_reply: bool,
    pub notify_on_pr: bool,
    pub allow_commands: bool,
    pub allow_chat_messages: bool,
    pub allow_cards: bool,
    pub ack_reaction_enabled: bool,
    pub ack_reaction_emoji_type: String,
    pub sync_group_announcement: bool,
}

/// The fields of a new binding row.
#[derive(Debug, Clone, Copy, PartialEq, Eq, Structural)]
pub struct CreateWorkspaceFeishuBinding {
    pub workspace_id: u128,
    pub bot_id: u128,
    pub target_id: u128,
}

/// The fields written by a binding update.
#[derive(Debug, Clone)]
pub struct UpdateWorkspaceFeishuBinding {
    pub enabled: bool,
    pub notify_on_status: bool,
    pub notify_on_agent_reply: bool,
    pub notify_on_pr: bool,
    pub allow_commands: bool,
    pub allow_chat_messages: bool,
    pub allow_cards: bool,
    pub ack_reaction_enabled: bool,
    pub ack_reaction_emoji_type: String,
    pub sync_group_announcement: bool,
}

/// The conversation that ties a bound chat to the workspace session it feeds.
#[derive(Debug, Clone)]
pub struct FeishuConversation {
    pub id: u128,
    pub bot_id: u128,
    pub target_id: u128,
    pub workspace_id: u128,
    pub session_id: Option<u128>,
    pub feishu_user_id: Option<String>,
    pub last_message_at: Option<String>,
    pub last_card_context: Option<String>,
}

/// The fields of a new conversation row.
#[derive(Debug, Clone)]
pub struct CreateFeishuConversation {
    pub bot_id: u128,
    pub target_id: u128,
    pub workspace_id: u128,
    pub session_id: Option<u128>,
    pub feishu_user_id: Option<String>,
    pub last_message_at: Option<String>,
    pub last_card_context: Option<String>,
}

/// The fields of a delivery log row, written after each outbound message.
#[derive(Debug, Clone)]
pub struct CreateFeishuDeliveryLog {
    pub workspace_id: Option<u128>,
    pub bot_id: u128,
    pub target_id: u128,
    pub event_type: String,
    pub payload_summary: Option<String>,
    pub status: String,
    pub retry_count: i64,
    pub message_id: Option<String>,
    pub error_message: Option<String>,
}

/// The workspace facts that replies and announcements mention.
#[derive(Debug, Clone)]
pub struct Workspace {
    pub id: u128,
    pub name: Option<String>,
    pub branch: String,
    pub archived: bool,
    pub pinned: bool,
}

/// A workspace with its live run status.
#[derive(Debug, Clone)]
pub struct WorkspaceWithStatus {
    pub workspace: Workspace,
    pub is_running: bool,
    pub is_errored: bool,
}

/// The state of an execution process.
#[derive(Debug, Clone, Copy, PartialEq, Eq, Structural)]
pub enum ExecutionProcessStatus {
    Running,
    Completed,
    Failed,
    Killed,
}

/// The execution process facts that reply delivery reads.
#[derive(Debug, Clone, Copy, PartialEq, Eq, Structural)]
pub struct ExecutionProcessInfo {
    pub id: u128,
    pub session_id: u128,
    pub status: ExecutionProcessStatus,
    /// Whether the process ran a coding agent (rather than a setup or cleanup script).
    pub is_coding_agent: bool,
    pub dropped: bool,
}

/// The name a workspace is shown under: its name, or its branch when unnamed.
pub open spec fn spec_workspace_label(w: Workspace) -> Seq<char> {
    match w.name {
        Some(n) => n@,
        None => w.branch@,
    }
}

impl Workspace {
    /// The workspace's name, or its branch when it has none.
    pub fn label(&self) -> (r: &str)
        ensures
            r@ == spec_workspace_label(*self),
    {
        match &self.name {
            Some(n) => n.as_str(),
            None => self.branch.as_str(),
        }
    }
}

} // verus!
