//! Inputs and results exchanged with the bot service, and the safe defaults
//! of a new workspace binding.
use vstd::prelude::*;

verus! {

/// Registration of a bot. Secrets arrive as plain text and are stored by the
/// service under references.
#[derive(Debug, Clone)]
pub struct CreateFeishuBotInput {
    pub name: String,
    pub app_id: String,
    pub app_secret: Option<String>,
    pub encrypt_key: Option<String>,
    pub verification_token: Option<String>,
    pub tenant_mode: String,
}

/// Update of a bot; a secret left `None` keeps the stored one.
#[derive(Debug, Clone)]
pub struct UpdateFeishuBotInput {
    pub name: String,
    pub app_id: String,
    pub app_secret: Option<String>,
    pub encrypt_key: Option<String>,
    pub verification_token: Option<String>,
    pub tenant_mode: String,
    pub enabled: bool,
}

/// The secrets of a bot, resolved from their references.
#[derive(Debug, Clone)]
pub struct ResolvedFeishuSecrets {
    pub app_secret: String,
    pub encrypt_key: Option<String>,
    pub verification_token: Option<String>,
}

/// A chat found by target discovery.
#[derive(Debug, Clone)]
pub struct DiscoveredFeishuTarget {
    pub target_type: String,
    pub open_chat_id: Option<String>,
    pub chat_id: Option<String>,
    pub name: String,
    pub source: String,
}

/// Outcome of validating a bot's credentials.
#[derive(Debug, Clone)]
pub struct FeishuValidationResult {
    pub ok: bool,
    pub message: String,
    pub chat_count: usize,
}

/// A message to send to a target.
#[derive(Debug, Clone)]
pub struct SendFeishuMessageInput {
    pub message: String,
}

/// The id Feishu gave a sent message, when it gave one.
#[derive(Debug, Clone)]
pub struct SendFeishuMessageResult {
    pub message_id: Option<String>,
}

/// The state of one bot runtime, as reported to the settings screen.
#[derive(Debug, Clone, Copy, PartialEq, Eq, Structural)]
pub struct FeishuRuntimeSnapshot {
    pub bot_id: u128,
    pub running: bool,
    pub generation: u64,
}

/// The permissions a new workspace binding starts with.
#[derive(Debug, Clone)]
pub struct FeishuBindingDefaults {
    pub enabled: bool,
    pub notify_on_status: bool,
    pub notify_on_agent_reply: bool,
    pub notify_on_pr: bool,
    pub allow_commands: bool,
    pub allow_chat_messages: bool,
    pub allow_cards: bool,
    pub ack_reaction_enabled: bool,
    pub ack_reaction_emoji_type: String,
    pub sync_group_announcement: bool,
}

/// The safe defaults: notifications and cards on, commands and chat
/// forwarding off, receipt acknowledged with the `Typing` reaction, group
/// announcement kept in sync.
pub open spec fn spec_safe_defaults(d: FeishuBindingDefaults) -> bool {
    &&& d.enabled
    &&& d.notify_on_status
    &&& d.notify_on_agent_reply
    &&& d.notify_on_pr
    &&& !d.allow_commands
    &&& !d.allow_chat_messages
    &&& d.allow_cards
    &&& d.ack_reaction_enabled
    &&& d.ack_reaction_emoji_type@ == "Typing"@
    &&& d.sync_group_announcement
}

impl Default for FeishuBindingDefaults {
    fn default() -> (r: Self)
        ensures
            spec_safe_defaults(r),
    {
        FeishuBindingDefaults {
            enabled: true,
            notify_on_status: true,
            notify_on_agent_reply: true,
            notify_on_pr: true,
            allow_commands: false,
            allow_chat_messages: false,
            allow_cards: true,
            ack_reaction_enabled: true,
            ack_reaction_emoji_type: "Typing".to_string(),
            sync_group_announcement: true,
        }
    }
}

/// The defaults the service hands out for new bindings.
pub fn binding_defaults() -> (r: FeishuBindingDefaults)
    ensures
        spec_safe_defaults(r),
{
    FeishuBindingDefaults::default()
}

} // verus!
