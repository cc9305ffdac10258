//! What the dispatcher decides for inbound chat messages, commands, card
//! actions, workspace status changes and finished agent runs, and the
//! memory it keeps to ignore duplicates.
use vstd::prelude::*;
use vstd::string::*;

use crate::model::{spec_workspace_label, Workspace, WorkspaceFeishuBinding, WorkspaceWithStatus};
use crate::text::{
    bool_text, chars_of, id_text, spec_bool_text, spec_id_text, spec_trim, str_eq, trim_str,
};

verus! {

/// The reactions a binding may use to acknowledge receipt.
pub open spec fn spec_supported_emoji(s: Seq<char>) -> bool {
    ||| s == "Typing"@
    ||| s == "OnIt"@
    ||| s == "OK"@
    ||| s == "THUMBSUP"@
    ||| s == "CheckMark"@
}

/// The reaction to send: the binding's choice when supported, `Typing` otherwise.
pub fn normalized_ack_reaction_emoji_type(value: &str) -> (r: &str)
    ensures
        r@ == (if spec_supported_emoji(value@) {
            value@
        } else {
            "Typing"@
        }),
{
    if str_eq(value, "Typing") || str_eq(value, "OnIt") || str_eq(value, "OK") || str_eq(value, "THUMBSUP")
        || str_eq(value, "CheckMark") {
        value
    } else {
        "Typing"
    }
}

/// `pat` starts at position `i` of `s`.
pub open spec fn occurs_at(s: Seq<char>, pat: Seq<char>, i: int) -> bool {
    0 <= i && i + pat.len() <= s.len() && s.subrange(i, i + pat.len()) == pat
}

/// The first position of `/vk` in `s`, if any.
pub open spec fn spec_command_start(s: Seq<char>) -> Option<int> {
    if exists|i: int| occurs_at(s, "/vk"@, i) {
        Some(choose|i: int| occurs_at(s, "/vk"@, i) && forall|j: int| 0 <= j < i ==> !occurs_at(s, "/vk"@, j))
    } else {
        None
    }
}

/// The command in a chat message: everything from the first `/vk` on, trimmed.
pub open spec fn spec_extract_command(s: Seq<char>) -> Option<Seq<char>> {
    match spec_command_start(s) {
        Some(i) => {
            let c = spec_trim(s.skip(i));
            if c.len() == 0 {
                None
            } else {
                Some(c)
            }
        },
        None => None,
    }
}

proof fn lemma_vk_literal()
    ensures
        "/vk"@ =~= seq!['/', 'v', 'k'],
{
    reveal_strlit("/vk");
}

/// Finds the command a chat message carries, if it carries one.
pub fn extract_command(text: &str) -> (r: Option<&str>)
    ensures
        match r {
            Some(c) => spec_extract_command(text@) == Some(c@),
            None => spec_extract_command(text@) is None,
        },
{
    proof {
        lemma_vk_literal();
    }
    let chars = chars_of(text);
    let n = chars.len();
    let mut i: usize = 0;
    while n >= 3 && i <= n - 3
        invariant
            "/vk"@ =~= seq!['/', 'v', 'k'],
            chars@ == text@,
            n == chars@.len(),
            forall|j: int| 0 <= j < i ==> !occurs_at(text@, "/vk"@, j),
        decreases n - i,
    {
        if chars[i] == '/' && chars[i + 1] == 'v' && chars[i + 2] == 'k' {
            assert(text@.subrange(i as int, i + 3) =~= "/vk"@);
            assert(occurs_at(text@, "/vk"@, i as int));
            let ghost start = spec_command_start(text@);
            proof {
                let k = start->0;
                if k < i {
                } else if k > i {
                }
                assert(start == Some(i as int));
            }
            let rest = text.substring_char(i, n);
            assert(rest@ =~= text@.skip(i as int));
            let command = trim_str(rest);
            if command.is_empty() {
                return None;
            } else {
                return Some(command);
            }
        }
        assert(!occurs_at(text@, "/vk"@, i as int)) by {
            if occurs_at(text@, "/vk"@, i as int) {
                assert(text@.subrange(i as int, i + 3)[0] == chars@[i as int]);
                assert(text@.subrange(i as int, i + 3)[1] == chars@[i + 1]);
                assert(text@.subrange(i as int, i + 3)[2] == chars@[i + 2]);
            }
        }
        i = i + 1;
    }
    assert forall|j: int| !occurs_at(text@, "/vk"@, j) by {
        if j >= i && occurs_at(text@, "/vk"@, j) {
            assert(j + 3 <= n);
        }
    }
    None
}

} // verus!

verus! {

/// The fields whose change makes a workspace status worth announcing.
pub open spec fn spec_workspace_status_signature(w: Workspace) -> Seq<char> {
    spec_bool_text(w.archived) + "|"@ + spec_bool_text(w.pinned) + "|"@ + w.branch@ + "|"@ + match w.name {
        Some(n) => n@,
        None => Seq::empty(),
    }
}

/// `archived|pinned|branch|name`, the fingerprint compared between events.
pub fn workspace_status_signature(workspace: &Workspace) -> (r: String)
    ensures
        r@ == spec_workspace_status_signature(*workspace),
{
    let mut s = String::new();
    s.append(bool_text(workspace.archived));
    s.append("|");
    s.append(bool_text(workspace.pinned));
    s.append("|");
    s.append(workspace.branch.as_str());
    s.append("|");
    match &workspace.name {
        Some(n) => s.append(n.as_str()),
        None => {},
    }
    assert(s@ =~= spec_workspace_status_signature(*workspace));
    s
}

/// The status a group announcement shows.
#[derive(Debug, Clone, Copy, PartialEq, Eq, Structural)]
pub enum FeishuAnnouncementState {
    Running,
    Idle,
    NeedsAttention,
}

/// The state shown: the forced one when given, otherwise running, errored or idle.
pub open spec fn spec_announcement_state(
    w: WorkspaceWithStatus,
    override_state: Option<FeishuAnnouncementState>,
) -> FeishuAnnouncementState {
    match override_state {
        Some(s) => s,
        None => if w.is_running {
            FeishuAnnouncementState::Running
        } else if w.is_errored {
            FeishuAnnouncementState::NeedsAttention
        } else {
            FeishuAnnouncementState::Idle
        },
    }
}

pub open spec fn spec_state_label(s: FeishuAnnouncementState) -> Seq<char> {
    match s {
        FeishuAnnouncementState::Running => "运行中"@,
        FeishuAnnouncementState::Idle => "空闲"@,
        FeishuAnnouncementState::NeedsAttention => "需要注意"@,
    }
}

pub open spec fn spec_yes_no(b: bool) -> Seq<char> {
    if b {
        "是"@
    } else {
        "否"@
    }
}

/// The text of the group announcement that mirrors a workspace's state.
pub open spec fn spec_group_announcement(
    w: WorkspaceWithStatus,
    override_state: Option<FeishuAnnouncementState>,
) -> Seq<char> {
    "Vibe Kanban | "@ + spec_state_label(spec_announcement_state(w, override_state)) + " | 工作区："@
        + spec_workspace_label(w.workspace) + " | 分支："@ + w.workspace.branch@ + " | 已归档："@
        + spec_yes_no(w.workspace.archived) + " | 已置顶："@ + spec_yes_no(w.workspace.pinned)
}

fn state_label(s: FeishuAnnouncementState) -> (r: &'static str)
    ensures
        r@ == spec_state_label(s),
{
    match s {
        FeishuAnnouncementState::Running => "运行中",
        FeishuAnnouncementState::Idle => "空闲",
        FeishuAnnouncementState::NeedsAttention => "需要注意",
    }
}

fn yes_no(b: bool) -> (r: &'static str)
    ensures
        r@ == spec_yes_no(b),
{
    if b {
        "是"
    } else {
        "否"
    }
}

/// Builds the group announcement for a workspace, optionally forcing the state.
pub fn format_group_announcement_content(
    workspace_with_status: &WorkspaceWithStatus,
    override_state: Option<FeishuAnnouncementState>,
) -> (r: String)
    ensures
        r@ == spec_group_announcement(*workspace_with_status, override_state),
{
    let state = match override_state {
        Some(s) => s,
        None => if workspace_with_status.is_running {
            FeishuAnnouncementState::Running
        } else if workspace_with_status.is_errored {
            FeishuAnnouncementState::NeedsAttention
        } else {
            FeishuAnnouncementState::Idle
        },
    };
    let w = &workspace_with_status.workspace;
    let mut s = String::new();
    s.append("Vibe Kanban | ");
    s.append(state_label(state));
    s.append(" | 工作区：");
    s.append(w.label());
    s.append(" | 分支：");
    s.append(w.branch.as_str());
    s.append(" | 已归档：");
    s.append(yes_no(w.archived));
    s.append(" | 已置顶：");
    s.append(yes_no(w.pinned));
    assert(s@ =~= spec_group_announcement(*workspace_with_status, override_state));
    s
}

/// The plain status notice sent to bindings that do not mirror status in the announcement.
pub open spec fn spec_workspace_status_message(w: Workspace) -> Seq<char> {
    "Workspace "@ + spec_workspace_label(w) + " status updated. Archived: "@ + spec_bool_text(w.archived)
        + ". Pinned: "@ + spec_bool_text(w.pinned) + ". Branch: "@ + w.branch@ + "."@
}

pub fn workspace_status_message(workspace: &Workspace) -> (r: String)
    ensures
        r@ == spec_workspace_status_message(*workspace),
{
    let mut s = String::new();
    s.append("Workspace ");
    s.append(workspace.label());
    s.append(" status updated. Archived: ");
    s.append(bool_text(workspace.archived));
    s.append(". Pinned: ");
    s.append(bool_text(workspace.pinned));
    s.append(". Branch: ");
    s.append(workspace.branch.as_str());
    s.append(".");
    assert(s@ =~= spec_workspace_status_message(*workspace));
    s
}

} // verus!

verus! {

/// The answer to a chat command, and whether it archives the workspace.
#[derive(Debug, Clone)]
pub struct CommandOutcome {
    pub reply: String,
    pub archive: bool,
}

pub open spec fn spec_help_reply() -> Seq<char> {
    "Available commands: /vk help, /vk status, /vk open, /vk stop, /vk archive, /vk new"@
}

pub open spec fn spec_new_reply() -> Seq<char> {
    "Workspace creation from Feishu requires a saved template in Vibe Kanban."@
}

/// The reply to `/vk status`.
pub open spec fn spec_status_reply(w: Workspace) -> Seq<char> {
    "Workspace "@ + spec_workspace_label(w) + " — archived="@ + spec_bool_text(w.archived) + ", pinned="@
        + spec_bool_text(w.pinned) + ", branch="@ + w.branch@
}

/// The reply to a command on a bound workspace. `help` and `status` are
/// always answered; everything else needs the binding to allow commands.
pub open spec fn spec_command_reply(w: Workspace, allow_commands: bool, command: Seq<char>) -> Seq<char> {
    let c = spec_trim(command);
    if c == "/vk help"@ {
        spec_help_reply()
    } else if c == "/vk status"@ {
        spec_status_reply(w)
    } else if !allow_commands {
        "Commands are disabled for this binding. Rejected command: "@ + c
    } else if c == "/vk open"@ {
        "Open workspace "@ + spec_id_text(w.id)
    } else if c == "/vk stop"@ {
        "Stop requested for workspace "@ + spec_id_text(w.id)
    } else if c == "/vk archive"@ {
        "Archived workspace "@ + spec_id_text(w.id)
    } else if c == "/vk new"@ {
        spec_new_reply()
    } else {
        "Unsupported command: "@ + c
    }
}

/// Only an allowed `/vk archive` archives the workspace.
pub open spec fn spec_command_archives(allow_commands: bool, command: Seq<char>) -> bool {
    allow_commands && spec_trim(command) == "/vk archive"@
}

fn prefixed(prefix: &str, rest: &str) -> (r: String)
    ensures
        r@ == prefix@ + rest@,
{
    let mut s = String::new();
    s.append(prefix);
    s.append(rest);
    s
}

fn prefixed_id(prefix: &str, id: u128) -> (r: String)
    ensures
        r@ == prefix@ + spec_id_text(id),
{
    let t = id_text(id);
    prefixed(prefix, t.as_str())
}

fn status_reply(w: &Workspace) -> (r: String)
    ensures
        r@ == spec_status_reply(*w),
{
    let mut s = String::new();
    s.append("Workspace ");
    s.append(w.label());
    s.append(" — archived=");
    s.append(bool_text(w.archived));
    s.append(", pinned=");
    s.append(bool_text(w.pinned));
    s.append(", branch=");
    s.append(w.branch.as_str());
    assert(s@ =~= spec_status_reply(*w));
    s
}

/// Answers a `/vk` command for a binding of `workspace`.
pub fn execute_command(workspace: &Workspace, allow_commands: bool, command: &str) -> (r: CommandOutcome)
    ensures
        r.reply@ == spec_command_reply(*workspace, allow_commands, command@),
        r.archive == spec_command_archives(allow_commands, command@),
{
    proof {
        reveal_strlit("/vk help");
        reveal_strlit("/vk status");
        reveal_strlit("/vk open");
        reveal_strlit("/vk stop");
        reveal_strlit("/vk archive");
        reveal_strlit("/vk new");
        assert("/vk help"@.len() == 8);
        assert("/vk archive"@.len() == 11);
    }
    let c = trim_str(command);
    if str_eq(c, "/vk help") {
        CommandOutcome {
            reply: "Available commands: /vk help, /vk status, /vk open, /vk stop, /vk archive, /vk new".to_string(),
            archive: false,
        }
    } else if str_eq(c, "/vk status") {
        CommandOutcome { reply: status_reply(workspace), archive: false }
    } else if !allow_commands {
        CommandOutcome {
            reply: prefixed("Commands are disabled for this binding. Rejected command: ", c),
            archive: false,
        }
    } else if str_eq(c, "/vk open") {
        CommandOutcome { reply: prefixed_id("Open workspace ", workspace.id), archive: false }
    } else if str_eq(c, "/vk stop") {
        CommandOutcome { reply: prefixed_id("Stop requested for workspace ", workspace.id), archive: false }
    } else if str_eq(c, "/vk archive") {
        CommandOutcome { reply: prefixed_id("Archived workspace ", workspace.id), archive: true }
    } else if str_eq(c, "/vk new") {
        CommandOutcome {
            reply: "Workspace creation from Feishu requires a saved template in Vibe Kanban.".to_string(),
            archive: false,
        }
    } else {
        CommandOutcome { reply: prefixed("Unsupported command: ", c), archive: false }
    }
}

/// What a card action does.
#[derive(Debug, Clone, Copy, PartialEq, Eq, Structural)]
pub enum CardEffect {
    /// Nothing changes; only the reply is returned.
    ReplyOnly,
    /// The workspace is archived.
    ArchiveWorkspace,
    /// Commands are switched off on the binding.
    DisableCommands,
}

/// The answer to a card action, and its effect.
#[derive(Debug, Clone)]
pub struct CardOutcome {
    pub reply: String,
    pub effect: CardEffect,
}

pub open spec fn spec_card_reply(allow_cards: bool, workspace_id: u128, action: Seq<char>) -> Seq<char> {
    if !allow_cards {
        "Card interactions are disabled for this binding"@
    } else if action == "open_workspace"@ {
        "Open workspace "@ + spec_id_text(workspace_id)
    } else if action == "archive_workspace"@ {
        "Archived workspace "@ + spec_id_text(workspace_id)
    } else if action == "disable_commands"@ {
        "Disabled commands for this binding"@
    } else {
        "Unsupported card action: "@ + action
    }
}

pub open spec fn spec_card_effect(allow_cards: bool, action: Seq<char>) -> CardEffect {
    if !allow_cards {
        CardEffect::ReplyOnly
    } else if action == "archive_workspace"@ {
        CardEffect::ArchiveWorkspace
    } else if action == "disable_commands"@ {
        CardEffect::DisableCommands
    } else {
        CardEffect::ReplyOnly
    }
}

/// Answers a card action on a binding that may or may not allow cards.
pub fn card_action_outcome(allow_cards: bool, workspace_id: u128, action: &str) -> (r: CardOutcome)
    ensures
        r.reply@ == spec_card_reply(allow_cards, workspace_id, action@),
        r.effect == spec_card_effect(allow_cards, action@),
{
    proof {
        reveal_strlit("open_workspace");
        reveal_strlit("archive_workspace");
        reveal_strlit("disable_commands");
        assert("open_workspace"@.len() == 14);
        assert("archive_workspace"@.len() == 17);
        assert("disable_commands"@.len() == 16);
    }
    if !allow_cards {
        CardOutcome {
            reply: "Card interactions are disabled for this binding".to_string(),
            effect: CardEffect::ReplyOnly,
        }
    } else if str_eq(action, "open_workspace") {
        CardOutcome { reply: prefixed_id("Open workspace ", workspace_id), effect: CardEffect::ReplyOnly }
    } else if str_eq(action, "archive_workspace") {
        CardOutcome { reply: prefixed_id("Archived workspace ", workspace_id), effect: CardEffect::ArchiveWorkspace }
    } else if str_eq(action, "disable_commands") {
        CardOutcome {
            reply: "Disabled commands for this binding".to_string(),
            effect: CardEffect::DisableCommands,
        }
    } else {
        CardOutcome { reply: prefixed("Unsupported card action: ", action), effect: CardEffect::ReplyOnly }
    }
}

} // verus!

verus! {

/// What happens to an inbound chat message once its chat's active bindings are known.
#[derive(Debug, Clone, Copy, PartialEq, Eq, Structural)]
pub enum InboundRoute {
    /// No reply and no forwarding.
    Ignore,
    /// Run the command against the binding at this index and reply with the answer.
    ExecuteCommand { binding: usize },
    /// Several workspaces share the chat: reply that commands need one active binding.
    RejectCommandMultiple,
    /// Forward the trimmed text into the workspace session of the binding at this index.
    ForwardChat { binding: usize },
    /// Several workspaces share the chat: reply that chat mode needs one active binding.
    RejectChatMultiple,
}

pub open spec fn spec_inbound_route(bindings: Seq<WorkspaceFeishuBinding>, has_command: bool) -> InboundRoute {
    if bindings.len() == 0 {
        InboundRoute::Ignore
    } else if has_command {
        if bindings.len() == 1 {
            InboundRoute::ExecuteCommand { binding: 0 }
        } else {
            InboundRoute::RejectCommandMultiple
        }
    } else if bindings.len() == 1 {
        if bindings[0].allow_chat_messages {
            InboundRoute::ForwardChat { binding: 0 }
        } else {
            InboundRoute::Ignore
        }
    } else {
        InboundRoute::RejectChatMultiple
    }
}

/// Routes an inbound message by the active bindings of its chat: a lone
/// binding runs commands, and forwards plain text only when chat mode is on;
/// several bindings get a refusal.
pub fn inbound_route(bindings: &Vec<WorkspaceFeishuBinding>, has_command: bool) -> (r: InboundRoute)
    ensures
        r == spec_inbound_route(bindings@, has_command),
{
    if bindings.len() == 0 {
        InboundRoute::Ignore
    } else if has_command {
        if bindings.len() == 1 {
            InboundRoute::ExecuteCommand { binding: 0 }
        } else {
            InboundRoute::RejectCommandMultiple
        }
    } else if bindings.len() == 1 {
        if bindings[0].allow_chat_messages {
            InboundRoute::ForwardChat { binding: 0 }
        } else {
            InboundRoute::Ignore
        }
    } else {
        InboundRoute::RejectChatMultiple
    }
}

/// The refusal for commands in a chat bound to several workspaces.
pub fn multiple_bindings_command_reply() -> (r: String)
    ensures
        r@ == "Multiple workspaces are bound to this Feishu chat. Keep one active binding per target before using chat commands."@,
{
    "Multiple workspaces are bound to this Feishu chat. Keep one active binding per target before using chat commands.".to_string()
}

/// The refusal for chat mode in a chat bound to several workspaces.
pub fn multiple_bindings_chat_reply() -> (r: String)
    ensures
        r@ == "Multiple workspaces are bound to this Feishu chat. Keep one active binding per target before using chat mode."@,
{
    "Multiple workspaces are bound to this Feishu chat. Keep one active binding per target before using chat mode.".to_string()
}

/// The reply when forwarding into the workspace session failed.
pub fn chat_forward_error_reply(error: &str) -> (r: String)
    ensures
        r@ == "Failed to forward message into workspace chat: "@ + error@,
{
    prefixed("Failed to forward message into workspace chat: ", error)
}

/// The index of the first binding that acknowledges receipt with a reaction.
pub fn ack_binding(bindings: &Vec<WorkspaceFeishuBinding>) -> (r: Option<usize>)
    ensures
        match r {
            Some(i) => i < bindings@.len() && bindings@[i as int].ack_reaction_enabled
                && forall|j: int| 0 <= j < i ==> !(#[trigger] bindings@[j]).ack_reaction_enabled,
            None => forall|j: int| 0 <= j < bindings@.len() ==> !(#[trigger] bindings@[j]).ack_reaction_enabled,
        },
{
    let mut i: usize = 0;
    while i < bindings.len()
        invariant
            i <= bindings@.len(),
            forall|j: int| 0 <= j < i ==> !(#[trigger] bindings@[j]).ack_reaction_enabled,
        decreases bindings@.len() - i,
    {
        if bindings[i].ack_reaction_enabled {
            return Some(i);
        }
        i = i + 1;
    }
    None
}

/// What a workspace status change does on one binding.
#[derive(Debug, Clone, Copy, PartialEq, Eq, Structural)]
pub struct StatusDelivery {
    /// Refresh the group announcement (when the workspace's live status is known).
    pub sync_announcement: bool,
    /// Send the plain status notice.
    pub send_notice: bool,
}

/// Enabled bindings either mirror status in the announcement or, when they
/// do not and want status notifications, get a notice; never both.
pub fn status_delivery(binding: &WorkspaceFeishuBinding) -> (r: StatusDelivery)
    ensures
        r.sync_announcement == (binding.enabled && binding.sync_group_announcement),
        r.send_notice == (binding.enabled && binding.notify_on_status && !binding.sync_group_announcement),
{
    StatusDelivery {
        sync_announcement: binding.enabled && binding.sync_group_announcement,
        send_notice: binding.enabled && binding.notify_on_status && !binding.sync_group_announcement,
    }
}

/// The live workspace status is looked up only when some binding mirrors it.
pub fn needs_live_status(bindings: &Vec<WorkspaceFeishuBinding>) -> (r: bool)
    ensures
        r == exists|j: int| 0 <= j < bindings@.len() && (#[trigger] bindings@[j]).sync_group_announcement,
{
    let mut i: usize = 0;
    while i < bindings.len()
        invariant
            i <= bindings@.len(),
            forall|j: int| 0 <= j < i ==> !(#[trigger] bindings@[j]).sync_group_announcement,
        decreases bindings@.len() - i,
    {
        if bindings[i].sync_group_announcement {
            return true;
        }
        i = i + 1;
    }
    false
}

/// The enabled bindings of one bot, in order.
pub open spec fn spec_is_active_for(b: WorkspaceFeishuBinding, bot_id: u128) -> bool {
    b.enabled && b.bot_id == bot_id
}

/// The indices of the enabled bindings of `bot_id`, in order.
pub fn active_binding_indices(bindings: &Vec<WorkspaceFeishuBinding>, bot_id: u128) -> (r: Vec<usize>)
    ensures
        forall|k: int| 0 <= k < r@.len() ==> (#[trigger] r@[k]) < bindings@.len() && spec_is_active_for(bindings@[r@[k] as int], bot_id),
        forall|k1: int, k2: int| 0 <= k1 < k2 < r@.len() ==> r@[k1] < r@[k2],
        forall|j: int| 0 <= j < bindings@.len() && spec_is_active_for(#[trigger] bindings@[j], bot_id) ==> r@.contains(j as usize),
{
    let mut r: Vec<usize> = Vec::new();
    let mut i: usize = 0;
    while i < bindings.len()
        invariant
            i <= bindings@.len(),
            forall|k: int| 0 <= k < r@.len() ==> (#[trigger] r@[k]) < i && spec_is_active_for(bindings@[r@[k] as int], bot_id),
            forall|k1: int, k2: int| 0 <= k1 < k2 < r@.len() ==> r@[k1] < r@[k2],
            forall|j: int| 0 <= j < i && spec_is_active_for(#[trigger] bindings@[j], bot_id) ==> r@.contains(j as usize),
        decreases bindings@.len() - i,
    {
        let ghost prev = r@;
        if bindings[i].enabled && bindings[i].bot_id == bot_id {
            r.push(i);
            assert(r@[r@.len() - 1] == i);
        }
        assert forall|j: int| 0 <= j < i + 1 && spec_is_active_for(#[trigger] bindings@[j], bot_id) implies r@.contains(j as usize) by {
            if j < i {
                let k = choose|k: int| 0 <= k < prev.len() && prev[k] == j as usize;
                assert(r@[k] == j as usize);
            } else {
                assert(r@[r@.len() - 1] == i);
            }
        }
        i = i + 1;
    }
    r
}

/// The index of the binding with this id, if the list holds it.
pub fn find_binding(bindings: &Vec<WorkspaceFeishuBinding>, binding_id: u128) -> (r: Option<usize>)
    ensures
        match r {
            Some(i) => i < bindings@.len() && bindings@[i as int].id == binding_id
                && forall|j: int| 0 <= j < i ==> (#[trigger] bindings@[j]).id != binding_id,
            None => forall|j: int| 0 <= j < bindings@.len() ==> (#[trigger] bindings@[j]).id != binding_id,
        },
{
    let mut i: usize = 0;
    while i < bindings.len()
        invariant
            i <= bindings@.len(),
            forall|j: int| 0 <= j < i ==> (#[trigger] bindings@[j]).id != binding_id,
        decreases bindings@.len() - i,
    {
        if bindings[i].id == binding_id {
            return Some(i);
        }
        i = i + 1;
    }
    None
}

} // verus!

verus! {

use crate::model::{ExecutionProcessInfo, ExecutionProcessStatus, FeishuConversation};
use crate::text::{meaningful, opt_str_view, spec_meaningful};

/// Only coding-agent runs that were not dropped are answered in chat.
pub fn is_reply_candidate(process: &ExecutionProcessInfo) -> (r: bool)
    ensures
        r == (!process.dropped && process.is_coding_agent),
{
    !process.dropped && process.is_coding_agent
}

/// The announcement state a process status forces: running while it runs,
/// needs-attention when it failed or was stopped, the workspace's own state
/// once it completed.
pub fn process_announcement_override(status: ExecutionProcessStatus) -> (r: Option<FeishuAnnouncementState>)
    ensures
        r == (match status {
            ExecutionProcessStatus::Running => Some(FeishuAnnouncementState::Running),
            ExecutionProcessStatus::Failed => Some(FeishuAnnouncementState::NeedsAttention),
            ExecutionProcessStatus::Killed => Some(FeishuAnnouncementState::NeedsAttention),
            ExecutionProcessStatus::Completed => None,
        }),
{
    match status {
        ExecutionProcessStatus::Running => Some(FeishuAnnouncementState::Running),
        ExecutionProcessStatus::Failed => Some(FeishuAnnouncementState::NeedsAttention),
        ExecutionProcessStatus::Killed => Some(FeishuAnnouncementState::NeedsAttention),
        ExecutionProcessStatus::Completed => None,
    }
}

/// The reply taken from a turn summary: the trimmed summary, when not empty.
pub fn summary_reply(summary: Option<&str>) -> (r: Option<String>)
    ensures
        match r {
            Some(s) => spec_meaningful(opt_str_view(summary)) == Some(s@),
            None => spec_meaningful(opt_str_view(summary)) is None,
        },
{
    match meaningful(summary) {
        Some(t) => Some(t.to_string()),
        None => None,
    }
}

/// Only a completed process keeps being polled for a late summary; any
/// other state is decided on the first look.
pub fn keep_polling_for_summary(status: ExecutionProcessStatus) -> (r: bool)
    ensures
        r == (status == ExecutionProcessStatus::Completed),
{
    match status {
        ExecutionProcessStatus::Completed => true,
        _ => false,
    }
}

/// The reply when no summary was found: a failure or stop notice; nothing
/// for a completed or still running process.
pub fn fallback_reply(status: ExecutionProcessStatus) -> (r: Option<String>)
    ensures
        match status {
            ExecutionProcessStatus::Failed => r matches Some(s)
                && s@ == "The workspace run failed before a final assistant reply was produced."@,
            ExecutionProcessStatus::Killed => r matches Some(s)
                && s@ == "The workspace run was stopped before a final assistant reply was produced."@,
            _ => r is None,
        },
{
    match status {
        ExecutionProcessStatus::Failed => Some(
            "The workspace run failed before a final assistant reply was produced.".to_string(),
        ),
        ExecutionProcessStatus::Killed => Some(
            "The workspace run was stopped before a final assistant reply was produced.".to_string(),
        ),
        _ => None,
    }
}

/// A binding that wants agent replies.
pub open spec fn spec_wants_reply(b: WorkspaceFeishuBinding) -> bool {
    b.enabled && b.notify_on_agent_reply
}

/// The binding at `i` wants the reply and is the first such binding for its chat target.
pub open spec fn spec_first_for_target(s: Seq<WorkspaceFeishuBinding>, i: int) -> bool {
    &&& spec_wants_reply(s[i])
    &&& forall|j: int| 0 <= j < i && spec_wants_reply(#[trigger] s[j]) ==> (s[j].bot_id, s[j].target_id) != (s[i].bot_id, s[i].target_id)
}

fn contains_pair(pairs: &Vec<(u128, u128)>, pair: (u128, u128)) -> (r: bool)
    ensures
        r == pairs@.contains(pair),
{
    let mut i: usize = 0;
    while i < pairs.len()
        invariant
            i <= pairs@.len(),
            forall|j: int| 0 <= j < i ==> pairs@[j] != pair,
        decreases pairs@.len() - i,
    {
        if pairs[i].0 == pair.0 && pairs[i].1 == pair.1 {
            assert(pairs@[i as int] == pair);
            return true;
        }
        i = i + 1;
    }
    false
}

/// The bindings a finished run's reply goes to: those that want replies,
/// each chat target once, in order.
pub fn reply_recipients(bindings: &Vec<WorkspaceFeishuBinding>) -> (r: Vec<usize>)
    ensures
        forall|k: int| 0 <= k < r@.len() ==> (#[trigger] r@[k]) < bindings@.len() && spec_first_for_target(bindings@, r@[k] as int),
        forall|k1: int, k2: int| 0 <= k1 < k2 < r@.len() ==> r@[k1] < r@[k2],
        forall|i: int| 0 <= i < bindings@.len() && spec_first_for_target(bindings@, i) ==> r@.contains(i as usize),
{
    let mut r: Vec<usize> = Vec::new();
    let mut sent: Vec<(u128, u128)> = Vec::new();
    let mut i: usize = 0;
    while i < bindings.len()
        invariant
            i <= bindings@.len(),
            forall|k: int| 0 <= k < r@.len() ==> (#[trigger] r@[k]) < i && spec_first_for_target(bindings@, r@[k] as int),
            forall|k1: int, k2: int| 0 <= k1 < k2 < r@.len() ==> r@[k1] < r@[k2],
            forall|j: int| 0 <= j < i && spec_first_for_target(bindings@, j) ==> r@.contains(j as usize),
            forall|p: (u128, u128)| sent@.contains(p) <==> exists|j: int| 0 <= j < i && spec_wants_reply(#[trigger] bindings@[j])
                && p == (bindings@[j].bot_id, bindings@[j].target_id),
        decreases bindings@.len() - i,
    {
        let b = &bindings[i];
        let ghost prev = r@;
        let ghost prev_sent = sent@;
        if b.enabled && b.notify_on_agent_reply {
            let pair = (b.bot_id, b.target_id);
            if !contains_pair(&sent, pair) {
                assert(spec_first_for_target(bindings@, i as int)) by {
                    assert forall|j: int| 0 <= j < i && spec_wants_reply(#[trigger] bindings@[j]) implies
                        (bindings@[j].bot_id, bindings@[j].target_id) != pair by {
                        if (bindings@[j].bot_id, bindings@[j].target_id) == pair {
                            assert(prev_sent.contains(pair));
                        }
                    }
                }
                r.push(i);
                sent.push(pair);
                assert(r@[r@.len() - 1] == i);
            } else {
                assert(!spec_first_for_target(bindings@, i as int));
            }
        }
        assert forall|p: (u128, u128)| sent@.contains(p) <==> exists|j: int| 0 <= j < i + 1 && spec_wants_reply(#[trigger] bindings@[j])
            && p == (bindings@[j].bot_id, bindings@[j].target_id) by {
            if sent@.contains(p) {
                if prev_sent.contains(p) {
                } else {
                    assert(p == (bindings@[i as int].bot_id, bindings@[i as int].target_id));
                }
            }
            if exists|j: int| 0 <= j < i + 1 && spec_wants_reply(#[trigger] bindings@[j]) && p == (bindings@[j].bot_id, bindings@[j].target_id) {
                let j = choose|j: int| 0 <= j < i + 1 && spec_wants_reply(#[trigger] bindings@[j]) && p == (bindings@[j].bot_id, bindings@[j].target_id);
                if j < i {
                    assert(prev_sent.contains(p));
                    let k = choose|k: int| 0 <= k < prev_sent.len() && prev_sent[k] == p;
                    assert(sent@[k] == p);
                } else {
                    if !prev_sent.contains(p) {
                        assert(sent@[sent@.len() - 1] == p);
                    } else {
                        let k = choose|k: int| 0 <= k < prev_sent.len() && prev_sent[k] == p;
                        assert(sent@[k] == p);
                    }
                }
            }
        }
        assert forall|j: int| 0 <= j < i + 1 && spec_first_for_target(bindings@, j) implies r@.contains(j as usize) by {
            if j < i {
                let k = choose|k: int| 0 <= k < prev.len() && prev[k] == j as usize;
                assert(r@[k] == j as usize);
            } else {
                assert(r@[r@.len() - 1] == i);
            }
        }
        i = i + 1;
    }
    r
}

/// The (workspace, target) pair of each conversation, in order.
pub open spec fn spec_conversation_keys(conversations: Seq<FeishuConversation>) -> Seq<(u128, u128)> {
    conversations.map_values(|c: FeishuConversation| (c.workspace_id, c.target_id))
}

/// The pairs of a list without repeats, each at its first occurrence.
pub open spec fn spec_first_occurrences(keys: Seq<(u128, u128)>) -> Seq<(u128, u128)>
    decreases keys.len(),
{
    if keys.len() == 0 {
        Seq::empty()
    } else {
        let rest = spec_first_occurrences(keys.drop_last());
        if rest.contains(keys.last()) {
            rest
        } else {
            rest.push(keys.last())
        }
    }
}

proof fn lemma_first_occurrences(keys: Seq<(u128, u128)>)
    ensures
        forall|p: (u128, u128)| spec_first_occurrences(keys).contains(p) <==> keys.contains(p),
        spec_first_occurrences(keys).no_duplicates(),
    decreases keys.len(),
{
    if keys.len() > 0 {
        let init = keys.drop_last();
        lemma_first_occurrences(init);
        let rest = spec_first_occurrences(init);
        let last = keys.last();
        assert(keys =~= init.push(last));
        assert forall|p: (u128, u128)| keys.contains(p) <==> (init.contains(p) || p == last) by {
            if keys.contains(p) {
                let j = choose|j: int| 0 <= j < keys.len() && keys[j] == p;
                if j < init.len() {
                    assert(init[j] == p);
                }
            }
            if init.contains(p) {
                let j = choose|j: int| 0 <= j < init.len() && init[j] == p;
                assert(keys[j] == p);
            }
            if p == last {
                assert(keys[keys.len() - 1] == p);
            }
        }
        if !rest.contains(last) {
            assert forall|p: (u128, u128)| rest.push(last).contains(p) <==> (rest.contains(p) || p == last) by {
                if rest.push(last).contains(p) {
                    let j = choose|j: int| 0 <= j < rest.len() + 1 && rest.push(last)[j] == p;
                    if j < rest.len() {
                        assert(rest[j] == p);
                    }
                }
                if rest.contains(p) {
                    let j = choose|j: int| 0 <= j < rest.len() && rest[j] == p;
                    assert(rest.push(last)[j] == p);
                }
                if p == last {
                    assert(rest.push(last)[rest.len() as int] == p);
                }
            }
        }
    }
}

/// The distinct (workspace, target) pairs of the conversations on a session, first occurrence first.
pub fn conversation_binding_keys(conversations: &Vec<FeishuConversation>) -> (r: Vec<(u128, u128)>)
    ensures
        r@ == spec_first_occurrences(spec_conversation_keys(conversations@)),
        forall|p: (u128, u128)| r@.contains(p) <==> exists|j: int| 0 <= j < conversations@.len()
            && p == ((#[trigger] conversations@[j]).workspace_id, conversations@[j].target_id),
        r@.no_duplicates(),
{
    let ghost keys = spec_conversation_keys(conversations@);
    let mut r: Vec<(u128, u128)> = Vec::new();
    let mut i: usize = 0;
    while i < conversations.len()
        invariant
            i <= conversations@.len(),
            keys == spec_conversation_keys(conversations@),
            r@ == spec_first_occurrences(keys.take(i as int)),
        decreases conversations@.len() - i,
    {
        let key = (conversations[i].workspace_id, conversations[i].target_id);
        assert(keys.take(i + 1).drop_last() =~= keys.take(i as int));
        assert(keys.take(i + 1).last() == key);
        if !contains_pair(&r, key) {
            r.push(key);
        }
        i = i + 1;
    }
    assert(keys.take(i as int) =~= keys);
    proof {
        lemma_first_occurrences(keys);
        assert forall|p: (u128, u128)| r@.contains(p) <==> exists|j: int| 0 <= j < conversations@.len()
            && p == ((#[trigger] conversations@[j]).workspace_id, conversations@[j].target_id) by {
            if keys.contains(p) {
                let j = choose|j: int| 0 <= j < keys.len() && keys[j] == p;
                assert(p == (conversations@[j].workspace_id, conversations@[j].target_id));
            }
            if exists|j: int| 0 <= j < conversations@.len()
                && p == ((#[trigger] conversations@[j]).workspace_id, conversations@[j].target_id) {
                let j = choose|j: int| 0 <= j < conversations@.len()
                    && p == ((#[trigger] conversations@[j]).workspace_id, conversations@[j].target_id);
                assert(keys[j] == p);
            }
        }
    }
    r
}

} // verus!

verus! {

use std::collections::{HashMap, HashSet};

broadcast use vstd::std_specs::hash::group_hash_axioms;

/// The views of a list of strings, as a set.
pub open spec fn string_set(v: Seq<String>) -> Set<Seq<char>> {
    Set::new(|x: Seq<char>| exists|i: int| 0 <= i < v.len() && (#[trigger] v[i])@ == x)
}

fn contains_string(v: &Vec<String>, s: &str) -> (r: bool)
    ensures
        r == string_set(v@).contains(s@),
{
    let mut i: usize = 0;
    while i < v.len()
        invariant
            i <= v@.len(),
            forall|j: int| 0 <= j < i ==> (#[trigger] v@[j])@ != s@,
        decreases v@.len() - i,
    {
        if str_eq(v[i].as_str(), s) {
            assert(v@[i as int]@ == s@);
            return true;
        }
        i = i + 1;
    }
    false
}

/// Records `s` in `v`; returns whether it was already there.
fn check_and_record(v: &mut Vec<String>, s: &str) -> (r: bool)
    ensures
        r == string_set(old(v)@).contains(s@),
        string_set(final(v)@) == string_set(old(v)@).insert(s@),
{
    let seen = contains_string(v, s);
    if !seen {
        let ghost before = v@;
        v.push(s.to_string());
        assert(string_set(v@) =~= string_set(before).insert(s@)) by {
            assert forall|x: Seq<char>| string_set(v@).contains(x) implies string_set(before).insert(s@).contains(x) by {
                let i = choose|i: int| 0 <= i < v@.len() && (#[trigger] v@[i])@ == x;
                if i < before.len() {
                    assert(before[i] == v@[i]);
                }
            }
            assert forall|x: Seq<char>| string_set(before).insert(s@).contains(x) implies string_set(v@).contains(x) by {
                if x == s@ {
                    assert(v@[v@.len() - 1]@ == x);
                } else {
                    let i = choose|i: int| 0 <= i < before.len() && (#[trigger] before[i])@ == x;
                    assert(v@[i] == before[i]);
                }
            }
        }
    } else {
        assert(string_set(v@) =~= string_set(v@).insert(s@));
    }
    seen
}

/// One id noted in a set of handled ids: the set afterwards, and whether
/// the id was there already.
pub open spec fn spec_note(seen: Set<Seq<char>>, id: Seq<char>) -> (Set<Seq<char>>, bool) {
    (seen.insert(id), seen.contains(id))
}

/// A message id noted in the handled message ids: only its trimmed form,
/// and only when it is not blank, counts.
pub open spec fn spec_note_message(seen: Set<Seq<char>>, message_id: Option<Seq<char>>) -> (Set<Seq<char>>, bool) {
    match spec_meaningful(message_id) {
        Some(m) => spec_note(seen, m),
        None => (seen, false),
    }
}

/// The claimed runs after a claim of `execution_process_id`, and whether the
/// claim succeeded (the run was not claimed yet).
pub open spec fn spec_claim(delivered: Set<u128>, execution_process_id: u128) -> (Set<u128>, bool) {
    (delivered.insert(execution_process_id), !delivered.contains(execution_process_id))
}

/// A run's reply is delivered once: a second claim of a claimed run fails,
/// and only a release after a failed delivery lets a later claim retry.
pub proof fn law_execution_reply_claimed_once(delivered: Set<u128>, execution_process_id: u128)
    ensures
        !spec_claim(spec_claim(delivered, execution_process_id).0, execution_process_id).1,
        spec_claim(spec_claim(delivered, execution_process_id).0.remove(execution_process_id), execution_process_id).1,
{
}

/// Pushing an announcement text that is already the one last pushed for the
/// binding is skipped; any other text is pushed.
pub proof fn law_announcement_pushed_once(signatures: Map<u128, Seq<char>>, binding_id: u128, content: Seq<char>, other: Seq<char>)
    ensures
        ({
            let after = signatures.insert(binding_id, content);
            &&& after.contains_key(binding_id) && after[binding_id] == content
            &&& other != content ==> !(after.contains_key(binding_id) && after[binding_id] == other)
        }),
{
}

/// What the dispatcher remembers between calls: the inbound event and
/// message ids already handled, the runs already answered, and the last
/// announcement text pushed for each binding.
pub struct DispatcherMemory {
    processed_event_ids: Vec<String>,
    processed_message_ids: Vec<String>,
    delivered_execution_replies: HashSet<u128>,
    announcement_signatures: HashMap<u128, String>,
}

impl DispatcherMemory {
    /// Event ids already handled.
    pub closed spec fn seen_events(&self) -> Set<Seq<char>> {
        string_set(self.processed_event_ids@)
    }

    /// Message ids already handled.
    pub closed spec fn seen_messages(&self) -> Set<Seq<char>> {
        string_set(self.processed_message_ids@)
    }

    /// Runs whose reply is delivered or being delivered.
    pub closed spec fn delivered(&self) -> Set<u128> {
        self.delivered_execution_replies@
    }

    /// The last announcement text pushed for each binding.
    pub closed spec fn signatures(&self) -> Map<u128, Seq<char>> {
        self.announcement_signatures@.map_values(|s: String| s@)
    }

    pub fn new() -> (r: Self)
        ensures
            r.seen_events() == Set::<Seq<char>>::empty(),
            r.seen_messages() == Set::<Seq<char>>::empty(),
            r.delivered() == Set::<u128>::empty(),
            r.signatures() == Map::<u128, Seq<char>>::empty(),
    {
        let r = DispatcherMemory {
            processed_event_ids: Vec::new(),
            processed_message_ids: Vec::new(),
            delivered_execution_replies: HashSet::new(),
            announcement_signatures: HashMap::new(),
        };
        assert(r.seen_events() =~= Set::<Seq<char>>::empty());
        assert(r.seen_messages() =~= Set::<Seq<char>>::empty());
        assert(r.signatures() =~= Map::<u128, Seq<char>>::empty());
        r
    }

    /// Whether this inbound event id was handled before; it counts as handled from now on.
    pub fn is_duplicate_event(&mut self, event_id: &str) -> (r: bool)
        ensures
            (final(self).seen_events(), r) == spec_note(old(self).seen_events(), event_id@),
            final(self).seen_messages() == old(self).seen_messages(),
            final(self).delivered() == old(self).delivered(),
            final(self).signatures() == old(self).signatures(),
    {
        check_and_record(&mut self.processed_event_ids, event_id)
    }

    /// Whether this message id (trimmed) was handled before; it counts as
    /// handled from now on. A missing or blank id is never a duplicate.
    pub fn is_duplicate_message(&mut self, message_id: Option<&str>) -> (r: bool)
        ensures
            (final(self).seen_messages(), r) == spec_note_message(old(self).seen_messages(), opt_str_view(message_id)),
            final(self).seen_events() == old(self).seen_events(),
            final(self).delivered() == old(self).delivered(),
            final(self).signatures() == old(self).signatures(),
    {
        match meaningful(message_id) {
            Some(m) => check_and_record(&mut self.processed_message_ids, m),
            None => false,
        }
    }

    /// Claims the reply of a run for delivery; false when it was claimed already.
    pub fn claim_execution_reply(&mut self, execution_process_id: u128) -> (r: bool)
        ensures
            (final(self).delivered(), r) == spec_claim(old(self).delivered(), execution_process_id),
            final(self).seen_events() == old(self).seen_events(),
            final(self).seen_messages() == old(self).seen_messages(),
            final(self).signatures() == old(self).signatures(),
    {
        self.delivered_execution_replies.insert(execution_process_id)
    }

    /// Gives a claim back after a failed delivery, so a later event can retry.
    pub fn release_execution_reply(&mut self, execution_process_id: u128)
        ensures
            final(self).delivered() == old(self).delivered().remove(execution_process_id),
            final(self).seen_events() == old(self).seen_events(),
            final(self).seen_messages() == old(self).seen_messages(),
            final(self).signatures() == old(self).signatures(),
    {
        self.delivered_execution_replies.remove(&execution_process_id);
    }

    /// Whether `content` is already the announcement last pushed for the binding.
    pub fn announcement_is_current(&self, binding_id: u128, content: &str) -> (r: bool)
        ensures
            r == (self.signatures().contains_key(binding_id) && self.signatures()[binding_id] == content@),
    {
        match self.announcement_signatures.get(&binding_id) {
            Some(previous) => str_eq(previous.as_str(), content),
            None => false,
        }
    }

    /// Remembers `content` as the announcement pushed for the binding.
    pub fn record_announcement(&mut self, binding_id: u128, content: String)
        ensures
            final(self).signatures() == old(self).signatures().insert(binding_id, content@),
            final(self).seen_events() == old(self).seen_events(),
            final(self).seen_messages() == old(self).seen_messages(),
            final(self).delivered() == old(self).delivered(),
    {
        let ghost c = content@;
        self.announcement_signatures.insert(binding_id, content);
        assert(self.signatures() =~= old(self).signatures().insert(binding_id, c));
    }
}

/// An inbound event is handled at most once: whatever was handled before,
/// once an event id has been noted every later arrival of it is a
/// duplicate, and noting never forgets an id. The same holds of message ids,
/// where ids that differ only in surrounding whitespace are one id.
pub proof fn law_inbound_event_handled_once(
    seen: Set<Seq<char>>,
    event_id: Seq<char>,
    seen_messages: Set<Seq<char>>,
    message_id: Seq<char>,
    again: Seq<char>,
)
    ensures
        spec_note(spec_note(seen, event_id).0, event_id).1,
        forall|x: Seq<char>| seen.contains(x) ==> spec_note(seen, event_id).0.contains(x),
        spec_trim(message_id).len() > 0 && spec_trim(again) == spec_trim(message_id)
            ==> spec_note_message(spec_note_message(seen_messages, Some(message_id)).0, Some(again)).1,
{
}

} // verus!

verus! {

use crate::text::str_starts_with;

/// The operation of a JSON patch entry on the workspace event stream.
#[derive(Debug, Clone, Copy, PartialEq, Eq, Structural)]
pub enum PatchOpKind {
    Add,
    Replace,
    Other,
}

/// What the workspace event bridge does with one patch operation.
#[derive(Debug, Clone, Copy, PartialEq, Eq, Structural)]
pub enum BridgeRoute {
    /// The value is a workspace with status: check its signature and maybe dispatch its status.
    WorkspaceStatus,
    /// The value is an execution process: dispatch its reply.
    ExecutionProcessReply,
    /// The value names the execution process whose turn summary changed: dispatch its reply.
    TurnSummaryReply,
    Ignore,
}

pub open spec fn spec_bridge_route(op: PatchOpKind, path: Seq<char>) -> BridgeRoute {
    if op == PatchOpKind::Other {
        BridgeRoute::Ignore
    } else if "/workspaces/"@.is_prefix_of(path) {
        BridgeRoute::WorkspaceStatus
    } else if "/execution_processes/"@.is_prefix_of(path) {
        BridgeRoute::ExecutionProcessReply
    } else if "/coding_agent_turn_summaries/"@.is_prefix_of(path) {
        BridgeRoute::TurnSummaryReply
    } else {
        BridgeRoute::Ignore
    }
}

/// Routes an `add` or `replace` patch by the collection its path points into.
pub fn bridge_route(op: PatchOpKind, path: &str) -> (r: BridgeRoute)
    ensures
        r == spec_bridge_route(op, path@),
{
    match op {
        PatchOpKind::Other => BridgeRoute::Ignore,
        _ => {
            if str_starts_with(path, "/workspaces/") {
                BridgeRoute::WorkspaceStatus
            } else if str_starts_with(path, "/execution_processes/") {
                BridgeRoute::ExecutionProcessReply
            } else if str_starts_with(path, "/coding_agent_turn_summaries/") {
                BridgeRoute::TurnSummaryReply
            } else {
                BridgeRoute::Ignore
            }
        },
    }
}

/// What receiving from the workspace event stream gave.
#[derive(Debug, Clone, Copy, PartialEq, Eq, Structural)]
pub enum BroadcastReceive {
    /// A message.
    Message,
    /// Messages were skipped because the bridge fell behind.
    Lagged,
    /// The stream is closed.
    Closed,
}

/// What the bridge does next.
#[derive(Debug, Clone, Copy, PartialEq, Eq, Structural)]
pub enum BridgeStep {
    /// Handle the message received.
    Handle,
    /// Receive again: falling behind only loses the skipped messages.
    ReceiveAgain,
    /// End the bridge.
    Stop,
}

/// The bridge keeps running after it fell behind and stops only when the
/// stream is closed.
pub fn bridge_step(received: BroadcastReceive) -> (r: BridgeStep)
    ensures
        r == match received {
            BroadcastReceive::Message => BridgeStep::Handle,
            BroadcastReceive::Lagged => BridgeStep::ReceiveAgain,
            BroadcastReceive::Closed => BridgeStep::Stop,
        },
{
    match received {
        BroadcastReceive::Message => BridgeStep::Handle,
        BroadcastReceive::Lagged => BridgeStep::ReceiveAgain,
        BroadcastReceive::Closed => BridgeStep::Stop,
    }
}

/// The recorded signatures after a workspace is seen with `signature`, and
/// whether its status is dispatched: only when a different signature was
/// recorded for it before.
pub open spec fn spec_status_step(signatures: Map<u128, Seq<char>>, workspace_id: u128, signature: Seq<char>) -> (Map<u128, Seq<char>>, bool) {
    (
        signatures.insert(workspace_id, signature),
        signatures.contains_key(workspace_id) && signatures[workspace_id] != signature,
    )
}

/// A workspace status is dispatched once per change: seeing the same status
/// again right after dispatches nothing, and a status that differs from the
/// recorded one is dispatched.
pub proof fn law_status_dispatched_once_per_change(signatures: Map<u128, Seq<char>>, workspace_id: u128, signature: Seq<char>, next: Seq<char>)
    ensures
        !spec_status_step(spec_status_step(signatures, workspace_id, signature).0, workspace_id, signature).1,
        next != signature ==> spec_status_step(spec_status_step(signatures, workspace_id, signature).0, workspace_id, next).1,
{
}

/// The last status signature seen for each workspace, so that only real
/// status changes are dispatched.
pub struct WorkspaceStatusSignatures {
    signatures: HashMap<u128, String>,
}

impl WorkspaceStatusSignatures {
    pub closed spec fn view(&self) -> Map<u128, Seq<char>> {
        self.signatures@.map_values(|s: String| s@)
    }

    /// Starts from the signatures of all known workspaces (a later entry for
    /// the same id replaces an earlier one).
    pub fn load(workspaces: &Vec<Workspace>) -> (r: Self)
        ensures
            forall|id: u128| #[trigger] r.view().contains_key(id) <==> exists|j: int| 0 <= j < workspaces@.len() && workspaces@[j].id == id,
            forall|j: int| 0 <= j < workspaces@.len() && (forall|k: int| j < k < workspaces@.len() ==> workspaces@[k].id != workspaces@[j].id)
                ==> r.view()[(#[trigger] workspaces@[j]).id] == spec_workspace_status_signature(workspaces@[j]),
    {
        let mut signatures: HashMap<u128, String> = HashMap::new();
        let mut i: usize = 0;
        while i < workspaces.len()
            invariant
                i <= workspaces@.len(),
                forall|id: u128| #[trigger] signatures@.contains_key(id) <==> exists|j: int| 0 <= j < i && workspaces@[j].id == id,
                forall|j: int| 0 <= j < i && (forall|k: int| j < k < i ==> workspaces@[k].id != workspaces@[j].id)
                    ==> signatures@[(#[trigger] workspaces@[j]).id]@ == spec_workspace_status_signature(workspaces@[j]),
            decreases workspaces@.len() - i,
        {
            let w = &workspaces[i];
            let sig = workspace_status_signature(w);
            signatures.insert(w.id, sig);
            i = i + 1;
        }
        let r = WorkspaceStatusSignatures { signatures };
        r
    }

    /// Records the workspace's current signature; true exactly when a
    /// different signature was recorded before (a first sighting is not a change).
    pub fn should_dispatch_workspace_status(&mut self, workspace: &Workspace) -> (r: bool)
        ensures
            (final(self).view(), r) == spec_status_step(old(self).view(), workspace.id, spec_workspace_status_signature(*workspace)),
    {
        let signature = workspace_status_signature(workspace);
        let ghost sig = signature@;
        let copy = signature.clone();
        let previous = self.signatures.insert(workspace.id, signature);
        assert(self.view() =~= old(self).view().insert(workspace.id, sig));
        match previous {
            Some(p) => !str_eq(p.as_str(), copy.as_str()),
            None => false,
        }
    }
}

} // verus!

verus! {

use crate::model::FeishuBotTarget;
use crate::service::single_active_plan;

// ---------------------------------------------------------------------------
// An inbound chat message, from its arrival to what is done about it
// ---------------------------------------------------------------------------

/// The first enabled binding of the bot, if any.
pub open spec fn spec_first_active(bindings: Seq<WorkspaceFeishuBinding>, bot_id: u128) -> Option<int>
    decreases bindings.len(),
{
    if bindings.len() == 0 {
        None
    } else {
        match spec_first_active(bindings.drop_last(), bot_id) {
            Some(i) => Some(i),
            None => if spec_is_active_for(bindings.last(), bot_id) {
                Some(bindings.len() - 1)
            } else {
                None
            },
        }
    }
}

proof fn lemma_first_active_extends(bindings: Seq<WorkspaceFeishuBinding>, n: int, bot_id: u128)
    requires
        0 <= n <= bindings.len(),
        spec_first_active(bindings.take(n), bot_id) is Some,
    ensures
        spec_first_active(bindings, bot_id) == spec_first_active(bindings.take(n), bot_id),
    decreases bindings.len() - n,
{
    if n < bindings.len() {
        let shorter = bindings.drop_last();
        assert(shorter.take(n) =~= bindings.take(n));
        lemma_first_active_extends(shorter, n, bot_id);
    } else {
        assert(bindings.take(n) =~= bindings);
    }
}

proof fn lemma_first_active_none(bindings: Seq<WorkspaceFeishuBinding>, bot_id: u128)
    requires
        forall|j: int| 0 <= j < bindings.len() ==> !spec_is_active_for(#[trigger] bindings[j], bot_id),
    ensures
        spec_first_active(bindings, bot_id) is None,
    decreases bindings.len(),
{
    if bindings.len() > 0 {
        let init = bindings.drop_last();
        assert forall|j: int| 0 <= j < init.len() implies !spec_is_active_for(#[trigger] init[j], bot_id) by {
            assert(init[j] == bindings[j]);
        }
        lemma_first_active_none(init, bot_id);
        assert(bindings[bindings.len() - 1] == bindings.last());
    }
}

fn first_active_binding(bindings: &Vec<WorkspaceFeishuBinding>, bot_id: u128) -> (r: Option<usize>)
    ensures
        match r {
            Some(i) => i < bindings@.len() && spec_first_active(bindings@, bot_id) == Some(i as int),
            None => spec_first_active(bindings@, bot_id) is None,
        },
{
    let mut i: usize = 0;
    while i < bindings.len()
        invariant
            i <= bindings@.len(),
            forall|j: int| 0 <= j < i ==> !spec_is_active_for(#[trigger] bindings@[j], bot_id),
        decreases bindings@.len() - i,
    {
        if bindings[i].enabled && bindings[i].bot_id == bot_id {
            proof {
                let t = bindings@.take(i + 1);
                assert forall|j: int| 0 <= j < t.drop_last().len() implies !spec_is_active_for(#[trigger] t.drop_last()[j], bot_id) by {
                    assert(t.drop_last()[j] == bindings@[j]);
                }
                lemma_first_active_none(t.drop_last(), bot_id);
                assert(t.last() == bindings@[i as int]);
                lemma_first_active_extends(bindings@, i + 1, bot_id);
            }
            return Some(i);
        }
        i = i + 1;
    }
    proof {
        lemma_first_active_none(bindings@, bot_id);
    }
    None
}

/// The reaction a binding acknowledges receipt with.
pub open spec fn spec_normalized_emoji(value: Seq<char>) -> Seq<char> {
    if spec_supported_emoji(value) {
        value
    } else {
        "Typing"@
    }
}

/// What is done about an inbound chat message.
#[derive(Debug, Clone)]
pub enum InboundAction {
    /// Nothing.
    Ignore,
    /// Send this reply to the chat and log it under `event_type`; archive
    /// the workspace first when `archive_workspace` is given.
    Reply { workspace_id: Option<u128>, event_type: String, text: String, archive_workspace: Option<u128> },
    /// Submit `prompt` to the fixed chat session of the binding's workspace.
    Forward { binding_id: u128, workspace_id: u128, prompt: String },
    /// Handling failed with this error.
    Fail(String),
}

/// The plan for an inbound chat message: the legacy duplicate bindings to
/// switch off first (indices into the target's bindings), the receipt
/// reaction to add (message id and emoji), and the action.
#[derive(Debug, Clone)]
pub struct InboundPlan {
    pub disable: Vec<usize>,
    pub reaction: Option<(String, String)>,
    pub action: InboundAction,
}

/// The message is dropped before any work: its event or message id was
/// handled before, or its chat is no known target.
pub open spec fn spec_inbound_dropped(
    seen_events: Set<Seq<char>>,
    seen_messages: Set<Seq<char>>,
    event_id: Seq<char>,
    message_id: Option<Seq<char>>,
    target_known: bool,
) -> bool {
    seen_events.contains(event_id) || spec_note_message(seen_messages, message_id).1 || !target_known
}

/// `disable` lists exactly the bot's enabled bindings other than `preferred`, in order.
pub open spec fn spec_disables_others(bindings: Seq<WorkspaceFeishuBinding>, bot_id: u128, preferred: u128, disable: Seq<usize>) -> bool {
    &&& forall|k: int| 0 <= k < disable.len() ==> {
        let b = bindings[(#[trigger] disable[k]) as int];
        &&& disable[k] < bindings.len()
        &&& b.bot_id == bot_id && b.id != preferred && b.enabled
    }
    &&& forall|j: int| 0 <= j < bindings.len() && (#[trigger] bindings[j]).bot_id == bot_id && bindings[j].id != preferred
        && bindings[j].enabled ==> disable.contains(j as usize)
}

/// Handles an inbound chat message of `bot_id` from the chat `target`
/// (`None` when no target of the bot has its identity), whose bindings are
/// `bindings`. `workspace` is the workspace of the bot's first enabled
/// binding there. Duplicates are dropped; the bot's first enabled binding is
/// the one that counts (its other enabled bindings are switched off); a
/// `/vk` command is answered for that binding, and any other text is
/// forwarded into its workspace when the binding allows chat messages.
pub fn plan_inbound_chat_message(
    memory: &mut DispatcherMemory,
    bot_id: u128,
    event_id: &str,
    message_id: Option<&str>,
    target: Option<&FeishuBotTarget>,
    bindings: &Vec<WorkspaceFeishuBinding>,
    workspace: Option<&Workspace>,
    text: &str,
) -> (r: InboundPlan)
    ensures
        final(memory).seen_events() == spec_note(old(memory).seen_events(), event_id@).0,
        final(memory).seen_messages() == (if old(memory).seen_events().contains(event_id@) {
            old(memory).seen_messages()
        } else {
            spec_note_message(old(memory).seen_messages(), opt_str_view(message_id)).0
        }),
        final(memory).delivered() == old(memory).delivered(),
        final(memory).signatures() == old(memory).signatures(),
        spec_inbound_dropped(old(memory).seen_events(), old(memory).seen_messages(), event_id@, opt_str_view(message_id), target is Some)
            || spec_first_active(bindings@, bot_id) is None
            ==> r.action is Ignore && r.disable@.len() == 0 && r.reaction is None,
        !spec_inbound_dropped(old(memory).seen_events(), old(memory).seen_messages(), event_id@, opt_str_view(message_id), target is Some)
            ==> (spec_first_active(bindings@, bot_id) matches Some(i) ==> {
            let b = bindings@[i];
            &&& spec_disables_others(bindings@, bot_id, b.id, r.disable@)
            &&& (if b.ack_reaction_enabled && spec_meaningful(opt_str_view(message_id)) is Some {
                r.reaction matches Some((m, e)) && Some(m@) == spec_meaningful(opt_str_view(message_id))
                    && e@ == spec_normalized_emoji(b.ack_reaction_emoji_type@)
            } else {
                r.reaction is None
            })
            &&& match spec_extract_command(text@) {
                Some(c) => match workspace {
                    None => r.action matches InboundAction::Fail(m) && m@ == "Workspace not found"@,
                    Some(w) => r.action matches InboundAction::Reply { workspace_id, event_type, text: reply, archive_workspace }
                        && workspace_id == Some(b.workspace_id) && event_type@ == "command_reply"@
                        && reply@ == spec_command_reply(*w, b.allow_commands, c)
                        && archive_workspace == (if spec_command_archives(b.allow_commands, c) { Some(w.id) } else { None }),
                },
                None => if b.allow_chat_messages {
                    r.action matches InboundAction::Forward { binding_id, workspace_id, prompt }
                        && binding_id == b.id && workspace_id == b.workspace_id && prompt@ == spec_trim(text@)
                } else {
                    r.action is Ignore
                },
            }
        }),
{
    if memory.is_duplicate_event(event_id) {
        return InboundPlan { disable: Vec::new(), reaction: None, action: InboundAction::Ignore };
    }
    if memory.is_duplicate_message(message_id) {
        return InboundPlan { disable: Vec::new(), reaction: None, action: InboundAction::Ignore };
    }
    if target.is_none() {
        return InboundPlan { disable: Vec::new(), reaction: None, action: InboundAction::Ignore };
    }
    let i = match first_active_binding(bindings, bot_id) {
        Some(i) => i,
        None => {
            return InboundPlan { disable: Vec::new(), reaction: None, action: InboundAction::Ignore };
        },
    };
    let b = &bindings[i];
    let plan = single_active_plan(bindings, bot_id, b.id);
    let reaction = if b.ack_reaction_enabled {
        match meaningful(message_id) {
            Some(m) => Some((m.to_string(), normalized_ack_reaction_emoji_type(b.ack_reaction_emoji_type.as_str()).to_string())),
            None => None,
        }
    } else {
        None
    };
    let action = match extract_command(text) {
        Some(c) => match workspace {
            None => InboundAction::Fail("Workspace not found".to_string()),
            Some(w) => {
                let outcome = execute_command(w, b.allow_commands, c);
                InboundAction::Reply {
                    workspace_id: Some(b.workspace_id),
                    event_type: "command_reply".to_string(),
                    text: outcome.reply,
                    archive_workspace: if outcome.archive { Some(w.id) } else { None },
                }
            },
        },
        None => if b.allow_chat_messages {
            InboundAction::Forward { binding_id: b.id, workspace_id: b.workspace_id, prompt: trim_str(text).to_string() }
        } else {
            InboundAction::Ignore
        },
    };
    InboundPlan { disable: plan.disable, reaction, action }
}

/// What follows forwarding a chat message into the workspace session.
#[derive(Debug, Clone)]
pub struct ForwardOutcome {
    /// The reply to send (logged as `chat_forward_error`) when forwarding failed.
    pub error_reply: Option<String>,
    /// The state the group announcement shows afterwards.
    pub announcement: FeishuAnnouncementState,
}

/// A forwarded message makes the workspace run; a failed forward is
/// answered with its error and flags the workspace as needing attention.
pub fn after_forward(result: &Result<(), String>) -> (r: ForwardOutcome)
    ensures
        match result {
            Ok(()) => r.error_reply is None && r.announcement == FeishuAnnouncementState::Running,
            Err(e) => (r.error_reply matches Some(m) && m@ == "Failed to forward message into workspace chat: "@ + e@)
                && r.announcement == FeishuAnnouncementState::NeedsAttention,
        },
{
    match result {
        Ok(()) => ForwardOutcome { error_reply: None, announcement: FeishuAnnouncementState::Running },
        Err(e) => ForwardOutcome {
            error_reply: Some(chat_forward_error_reply(e.as_str())),
            announcement: FeishuAnnouncementState::NeedsAttention,
        },
    }
}


// ---------------------------------------------------------------------------
// The final reply of an agent run
// ---------------------------------------------------------------------------

/// `r` lists, in order, the bindings that are the first to want the reply
/// for their chat target: each chat gets the reply once.
pub open spec fn spec_reply_recipients_are(bindings: Seq<WorkspaceFeishuBinding>, r: Seq<usize>) -> bool {
    &&& forall|k: int| 0 <= k < r.len() ==> (#[trigger] r[k]) < bindings.len() && spec_first_for_target(bindings, r[k] as int)
    &&& forall|k1: int, k2: int| 0 <= k1 < k2 < r.len() ==> r[k1] < r[k2]
    &&& forall|i: int| 0 <= i < bindings.len() && spec_first_for_target(bindings, i) ==> r.contains(i as usize)
}

/// `r` lists, in order, the enabled bindings.
pub open spec fn spec_enabled_indices_are(bindings: Seq<WorkspaceFeishuBinding>, r: Seq<usize>) -> bool {
    &&& forall|k: int| 0 <= k < r.len() ==> (#[trigger] r[k]) < bindings.len() && bindings[r[k] as int].enabled
    &&& forall|k1: int, k2: int| 0 <= k1 < k2 < r.len() ==> r[k1] < r[k2]
    &&& forall|j: int| 0 <= j < bindings.len() && (#[trigger] bindings[j]).enabled ==> r.contains(j as usize)
}

/// A run answered in chat: a coding-agent run that was not dropped.
pub open spec fn spec_reply_candidate(process: ExecutionProcessInfo) -> bool {
    !process.dropped && process.is_coding_agent
}

/// How a run changes the announcements of its session's bindings: the
/// enabled bindings are refreshed with the state the run forces (none for a
/// run that is not answered in chat).
pub fn execution_announcements(process: &ExecutionProcessInfo, bindings: &Vec<WorkspaceFeishuBinding>) -> (r: (Vec<usize>, Option<FeishuAnnouncementState>))
    ensures
        !spec_reply_candidate(*process) ==> r.0@.len() == 0,
        spec_reply_candidate(*process) ==> spec_enabled_indices_are(bindings@, r.0@),
        r.1 == (match process.status {
            ExecutionProcessStatus::Running => Some(FeishuAnnouncementState::Running),
            ExecutionProcessStatus::Failed => Some(FeishuAnnouncementState::NeedsAttention),
            ExecutionProcessStatus::Killed => Some(FeishuAnnouncementState::NeedsAttention),
            ExecutionProcessStatus::Completed => None,
        }),
{
    let state = process_announcement_override(process.status);
    let mut r: Vec<usize> = Vec::new();
    if !is_reply_candidate(process) {
        return (r, state);
    }
    let mut i: usize = 0;
    while i < bindings.len()
        invariant
            i <= bindings@.len(),
            forall|k: int| 0 <= k < r@.len() ==> (#[trigger] r@[k]) < i && bindings@[r@[k] as int].enabled,
            forall|k1: int, k2: int| 0 <= k1 < k2 < r@.len() ==> r@[k1] < r@[k2],
            forall|j: int| 0 <= j < i && (#[trigger] bindings@[j]).enabled ==> r@.contains(j as usize),
        decreases bindings@.len() - i,
    {
        let ghost prev = r@;
        if bindings[i].enabled {
            r.push(i);
        }
        assert forall|j: int| 0 <= j < i + 1 && (#[trigger] bindings@[j]).enabled implies r@.contains(j as usize) by {
            if j < i {
                let k = choose|k: int| 0 <= k < prev.len() && prev[k] == j as usize;
                assert(r@[k] == j as usize);
            } else {
                assert(r@[r@.len() - 1] == i);
            }
        }
        i = i + 1;
    }
    (r, state)
}

/// The reply a finished run calls for: `None` while a completed run may
/// still get its summary, `Some(None)` when there is nothing to say, and
/// `Some(Some(text))` for the trimmed summary or, without one, the notice
/// for a failed or stopped run; `polls_left` tells whether another lookup
/// of the summary is allowed.
pub open spec fn spec_reply_text(status: ExecutionProcessStatus, summary: Option<Seq<char>>, polls_left: bool) -> Option<Option<Seq<char>>> {
    match spec_meaningful(summary) {
        Some(t) => Some(Some(t)),
        None => if status == ExecutionProcessStatus::Completed && polls_left {
            None
        } else {
            Some(match status {
                ExecutionProcessStatus::Failed => Some("The workspace run failed before a final assistant reply was produced."@),
                ExecutionProcessStatus::Killed => Some("The workspace run was stopped before a final assistant reply was produced."@),
                _ => None,
            })
        },
    }
}

/// What to do about the final reply of a run.
#[derive(Debug, Clone)]
pub enum ReplyStep {
    /// No reply (now or ever).
    Skip,
    /// Look for the run's summary again later.
    WaitForSummary,
    /// Send `text` to the bindings at these indices; the run is claimed.
    Send { recipients: Vec<usize>, text: String },
}

/// How many times a completed run's summary is looked up before giving up.
pub const EXECUTION_REPLY_POLL_ATTEMPTS: u32 = 150;

/// The pause between two lookups of a completed run's summary.
pub const EXECUTION_REPLY_POLL_INTERVAL_MS: u64 = 200;

/// Decides the final reply of a run from its turn summary (`None` when it
/// has none yet) found by the `lookups`-th lookup; a completed run without a
/// summary is looked at again until `EXECUTION_REPLY_POLL_ATTEMPTS` lookups
/// were made. A run is answered once: sending claims it, and a run already
/// claimed is skipped.
pub fn plan_execution_reply(
    memory: &mut DispatcherMemory,
    process: &ExecutionProcessInfo,
    bindings: &Vec<WorkspaceFeishuBinding>,
    summary: Option<&str>,
    lookups: u32,
) -> (r: ReplyStep)
    ensures
        final(memory).seen_events() == old(memory).seen_events(),
        final(memory).seen_messages() == old(memory).seen_messages(),
        final(memory).signatures() == old(memory).signatures(),
        !spec_reply_candidate(*process) || process.status == ExecutionProcessStatus::Running ==> r is Skip
            && final(memory).delivered() == old(memory).delivered(),
        spec_reply_candidate(*process) && process.status != ExecutionProcessStatus::Running ==> match spec_reply_text(
            process.status,
            opt_str_view(summary),
            lookups < EXECUTION_REPLY_POLL_ATTEMPTS,
        ) {
            None => r is WaitForSummary && final(memory).delivered() == old(memory).delivered(),
            Some(None) => r is Skip && final(memory).delivered() == old(memory).delivered(),
            Some(Some(t)) => if old(memory).delivered().contains(process.id) {
                r is Skip && final(memory).delivered() == old(memory).delivered()
            } else {
                (r matches ReplyStep::Send { recipients, text } && text@ == t && spec_reply_recipients_are(bindings@, recipients@))
                    && final(memory).delivered() == old(memory).delivered().insert(process.id)
            },
        },
{
    if !is_reply_candidate(process) {
        return ReplyStep::Skip;
    }
    if process.status == ExecutionProcessStatus::Running {
        return ReplyStep::Skip;
    }
    let text = match summary_reply(summary) {
        Some(t) => t,
        None => {
            if keep_polling_for_summary(process.status) && lookups < EXECUTION_REPLY_POLL_ATTEMPTS {
                return ReplyStep::WaitForSummary;
            }
            match fallback_reply(process.status) {
                Some(t) => t,
                None => {
                    return ReplyStep::Skip;
                },
            }
        },
    };
    if !memory.claim_execution_reply(process.id) {
        return ReplyStep::Skip;
    }
    ReplyStep::Send { recipients: reply_recipients(bindings), text }
}

/// After the reply of a run was sent to every recipient (a failing target
/// does not stop the others): when some delivery failed, the claim is given
/// back so that a later event can retry; otherwise the run stays answered.
pub fn after_reply_delivery(memory: &mut DispatcherMemory, execution_process_id: u128, all_delivered: bool)
    ensures
        final(memory).delivered() == (if all_delivered {
            old(memory).delivered()
        } else {
            old(memory).delivered().remove(execution_process_id)
        }),
        final(memory).seen_events() == old(memory).seen_events(),
        final(memory).seen_messages() == old(memory).seen_messages(),
        final(memory).signatures() == old(memory).signatures(),
{
    if !all_delivered {
        memory.release_execution_reply(execution_process_id);
    }
}


/// Where the sending of a run's reply stands: its recipients, how many of
/// them were attempted, and the errors of the failed deliveries, in order.
pub struct ReplyRoundView {
    pub recipients: Seq<usize>,
    pub attempted: nat,
    pub errors: Seq<Seq<char>>,
}

/// The sending of a run's reply to its recipients, one after the other; a
/// failed delivery is noted and the round goes on with the next recipient.
pub struct ReplyRound {
    recipients: Vec<usize>,
    attempted: usize,
    errors: Vec<String>,
}

impl View for ReplyRound {
    type V = ReplyRoundView;

    closed spec fn view(&self) -> ReplyRoundView {
        ReplyRoundView {
            recipients: self.recipients@,
            attempted: self.attempted as nat,
            errors: self.errors@.map_values(|e: String| e@),
        }
    }
}

/// At most every recipient was attempted, and each error belongs to an attempt.
pub open spec fn spec_round_wf(v: ReplyRoundView) -> bool {
    v.attempted <= v.recipients.len() && v.errors.len() <= v.attempted
}

/// The recipient to send to next, if any is left.
pub open spec fn spec_round_next(v: ReplyRoundView) -> Option<usize> {
    if v.attempted < v.recipients.len() {
        Some(v.recipients[v.attempted as int])
    } else {
        None
    }
}

/// The round after one more delivery, which failed with `error` or succeeded (`None`).
pub open spec fn spec_round_record(v: ReplyRoundView, error: Option<Seq<char>>) -> ReplyRoundView {
    ReplyRoundView {
        recipients: v.recipients,
        attempted: v.attempted + 1,
        errors: match error {
            Some(e) => v.errors.push(e),
            None => v.errors,
        },
    }
}

/// The round after deliveries with these outcomes, one after the other.
pub open spec fn spec_round_run(v: ReplyRoundView, outcomes: Seq<Option<Seq<char>>>) -> ReplyRoundView
    decreases outcomes.len(),
{
    if outcomes.len() == 0 {
        v
    } else {
        spec_round_record(spec_round_run(v, outcomes.drop_last()), outcomes.last())
    }
}

/// The errors among these outcomes, in order.
pub open spec fn spec_failures(outcomes: Seq<Option<Seq<char>>>) -> Seq<Seq<char>>
    decreases outcomes.len(),
{
    if outcomes.len() == 0 {
        Seq::empty()
    } else {
        let rest = spec_failures(outcomes.drop_last());
        match outcomes.last() {
            Some(e) => rest.push(e),
            None => rest,
        }
    }
}

impl ReplyRound {
    /// A round over `recipients` with nothing attempted yet.
    pub fn new(recipients: Vec<usize>) -> (r: ReplyRound)
        ensures
            r@.recipients == recipients@,
            r@.attempted == 0,
            r@.errors.len() == 0,
            spec_round_wf(r@),
    {
        let r = ReplyRound { recipients, attempted: 0, errors: Vec::new() };
        assert(r@.errors =~= Seq::<Seq<char>>::empty());
        r
    }

    /// The recipient to send to next: the one after the last attempted,
    /// whether that delivery succeeded or failed.
    pub fn next_recipient(&self) -> (r: Option<usize>)
        requires
            spec_round_wf(self@),
        ensures
            r == spec_round_next(self@),
    {
        if self.attempted < self.recipients.len() {
            Some(self.recipients[self.attempted])
        } else {
            None
        }
    }

    /// Notes the outcome of the delivery to the next recipient.
    pub fn record(&mut self, outcome: &Result<(), String>)
        requires
            spec_round_wf(old(self)@),
            spec_round_next(old(self)@) is Some,
        ensures
            final(self)@ == spec_round_record(old(self)@, match outcome {
                Ok(()) => None,
                Err(e) => Some(e@),
            }),
            spec_round_wf(final(self)@),
    {
        if let Err(e) = outcome {
            self.errors.push(e.clone());
        }
        let total = self.recipients.len();
        assert(self.attempted < total);
        self.attempted = self.attempted + 1;
        proof {
            assert(self@.errors =~= spec_round_record(old(self)@, match outcome {
                Ok(()) => None,
                Err(e) => Some(e@),
            }).errors);
        }
    }

    /// Every delivery succeeded.
    pub fn all_delivered(&self) -> (r: bool)
        requires
            spec_round_wf(self@),
        ensures
            r == (self@.errors.len() == 0),
    {
        self.errors.len() == 0
    }

    /// What the round comes to: the number of recipients reached when every
    /// delivery succeeded, else the error of the first failed one.
    pub fn outcome(&self) -> (r: Result<usize, String>)
        requires
            spec_round_wf(self@),
        ensures
            match r {
                Ok(n) => self@.errors.len() == 0 && n == self@.attempted,
                Err(e) => self@.errors.len() > 0 && e@ == self@.errors[0],
            },
    {
        if self.errors.len() == 0 {
            Ok(self.attempted)
        } else {
            Err(self.errors[0].clone())
        }
    }
}

/// A failed delivery does not stop the reply: after any run of outcomes,
/// failed or not, the round asks for the next recipient in order, so every
/// recipient is attempted; once all were, the errors are exactly those of
/// the failed deliveries, in order.
pub proof fn law_reply_round_attempts_every_recipient(recipients: Seq<usize>, outcomes: Seq<Option<Seq<char>>>)
    requires
        outcomes.len() <= recipients.len(),
    ensures
        ({
            let start = ReplyRoundView { recipients, attempted: 0, errors: Seq::empty() };
            let v = spec_round_run(start, outcomes);
            &&& spec_round_wf(v)
            &&& v.recipients == recipients
            &&& v.attempted == outcomes.len()
            &&& v.errors == spec_failures(outcomes)
            &&& spec_round_next(v) == if outcomes.len() < recipients.len() {
                Some(recipients[outcomes.len() as int])
            } else {
                None
            }
        }),
    decreases outcomes.len(),
{
    let start = ReplyRoundView { recipients, attempted: 0, errors: Seq::empty() };
    if outcomes.len() > 0 {
        law_reply_round_attempts_every_recipient(recipients, outcomes.drop_last());
        let v0 = spec_round_run(start, outcomes.drop_last());
        assert(spec_round_run(start, outcomes) == spec_round_record(v0, outcomes.last()));
    } else {
        assert(spec_round_run(start, outcomes) == start);
        assert(spec_failures(outcomes) =~= Seq::<Seq<char>>::empty());
    }
}

} // verus!

verus! {

// ---------------------------------------------------------------------------
// What commands, card actions, announcements, run replies and the event
// bridge do, stated over their inputs
// ---------------------------------------------------------------------------

/// Only an allowed `/vk archive` archives the workspace: any other command
/// text (`/vk stop` among them), or any command on a binding that does not
/// allow commands, leaves it as it is. `/vk stop` only answers that a stop
/// was requested, and `/vk help` and `/vk status` are answered whatever the
/// binding allows.
pub proof fn law_only_archive_command_archives(w: Workspace, allow_commands: bool, command: Seq<char>)
    ensures
        spec_command_archives(allow_commands, command) ==> allow_commands && spec_trim(command) == "/vk archive"@,
        allow_commands && spec_trim(command) == "/vk archive"@ ==> spec_command_archives(allow_commands, command)
            && spec_command_reply(w, allow_commands, command) == "Archived workspace "@ + spec_id_text(w.id),
        spec_trim(command) == "/vk stop"@ ==> !spec_command_archives(allow_commands, command),
        allow_commands && spec_trim(command) == "/vk stop"@ ==> spec_command_reply(w, allow_commands, command)
            == "Stop requested for workspace "@ + spec_id_text(w.id),
        allow_commands && spec_trim(command) == "/vk open"@ ==> spec_command_reply(w, allow_commands, command)
            == "Open workspace "@ + spec_id_text(w.id),
        spec_trim(command) == "/vk help"@ ==> spec_command_reply(w, allow_commands, command)
            == "Available commands: /vk help, /vk status, /vk open, /vk stop, /vk archive, /vk new"@,
        !allow_commands && spec_trim(command) != "/vk help"@ && spec_trim(command) != "/vk status"@
            ==> spec_command_reply(w, allow_commands, command)
            == "Commands are disabled for this binding. Rejected command: "@ + spec_trim(command),
        spec_trim(command) == "/vk status"@ ==> spec_command_reply(w, allow_commands, command)
            == "Workspace "@ + spec_workspace_label(w) + " — archived="@ + (if w.archived { "true"@ } else { "false"@ })
            + ", pinned="@ + (if w.pinned { "true"@ } else { "false"@ }) + ", branch="@ + w.branch@,
        allow_commands && spec_trim(command) == "/vk new"@ ==> spec_command_reply(w, allow_commands, command)
            == "Workspace creation from Feishu requires a saved template in Vibe Kanban."@,
        allow_commands && spec_trim(command) != "/vk help"@ && spec_trim(command) != "/vk status"@
            && spec_trim(command) != "/vk open"@ && spec_trim(command) != "/vk stop"@
            && spec_trim(command) != "/vk archive"@ && spec_trim(command) != "/vk new"@
            ==> spec_command_reply(w, allow_commands, command) == "Unsupported command: "@ + spec_trim(command),
{
    reveal_strlit("/vk help");
    reveal_strlit("/vk status");
    reveal_strlit("/vk open");
    reveal_strlit("/vk stop");
    reveal_strlit("/vk archive");
    reveal_strlit("/vk new");
    assert("/vk new"@.len() == 7);
    assert("/vk help"@.len() == 8 && "/vk open"@.len() == 8);
    assert("/vk stop"@.len() != "/vk archive"@.len());
    assert("/vk stop"@.len() != "/vk status"@.len());
    assert("/vk stop"@[5] != "/vk help"@[5]);
    assert("/vk stop"@[5] != "/vk open"@[5]);
    assert("/vk open"@[5] != "/vk help"@[5]);
    assert("/vk open"@.len() != "/vk status"@.len());
    assert("/vk archive"@.len() != "/vk help"@.len());
    assert("/vk archive"@.len() != "/vk status"@.len());
    assert("/vk archive"@.len() != "/vk open"@.len());
    assert("/vk archive"@.len() != "/vk stop"@.len());
}

/// Only the `archive_workspace` action of a binding that allows cards
/// archives, and only its `disable_commands` action switches commands off;
/// every other action (`open_workspace` among them), and every action on a
/// binding that does not allow cards, changes nothing.
pub proof fn law_only_archive_card_archives(allow_cards: bool, workspace_id: u128, action: Seq<char>)
    ensures
        spec_card_effect(allow_cards, action) == CardEffect::ArchiveWorkspace <==> allow_cards && action == "archive_workspace"@,
        spec_card_effect(allow_cards, action) == CardEffect::DisableCommands <==> allow_cards && action == "disable_commands"@,
        action != "archive_workspace"@ && action != "disable_commands"@ ==> spec_card_effect(allow_cards, action)
            == CardEffect::ReplyOnly,
        allow_cards && action == "open_workspace"@ ==> spec_card_reply(allow_cards, workspace_id, action)
            == "Open workspace "@ + spec_id_text(workspace_id),
        !allow_cards ==> spec_card_reply(allow_cards, workspace_id, action) == "Card interactions are disabled for this binding"@,
        allow_cards && action == "archive_workspace"@ ==> spec_card_reply(allow_cards, workspace_id, action)
            == "Archived workspace "@ + spec_id_text(workspace_id),
        allow_cards && action == "disable_commands"@ ==> spec_card_reply(allow_cards, workspace_id, action)
            == "Disabled commands for this binding"@,
        allow_cards && action != "open_workspace"@ && action != "archive_workspace"@ && action != "disable_commands"@
            ==> spec_card_reply(allow_cards, workspace_id, action) == "Unsupported card action: "@ + action,
{
    reveal_strlit("open_workspace");
    reveal_strlit("archive_workspace");
    reveal_strlit("disable_commands");
    assert("open_workspace"@.len() == 14);
    assert("archive_workspace"@.len() == 17);
    assert("disable_commands"@.len() == 16);
}

/// The announcement of a workspace without a forced state shows it running
/// whenever it runs, errored or not; needing attention when it errored and
/// does not run; idle otherwise. A forced state is shown whatever the
/// workspace's run flags are.
pub proof fn law_announcement_shows_the_run_state(w: WorkspaceWithStatus, other: WorkspaceWithStatus, forced: FeishuAnnouncementState)
    ensures
        w.is_running ==> ("Vibe Kanban | "@ + "运行中"@).is_prefix_of(spec_group_announcement(w, None)),
        !w.is_running && w.is_errored ==> ("Vibe Kanban | "@ + "需要注意"@).is_prefix_of(spec_group_announcement(w, None)),
        !w.is_running && !w.is_errored ==> ("Vibe Kanban | "@ + "空闲"@).is_prefix_of(spec_group_announcement(w, None)),
        other.workspace == w.workspace ==> spec_group_announcement(w, Some(forced)) == spec_group_announcement(other, Some(forced)),
        spec_group_announcement(w, None) == "Vibe Kanban | "@
            + (if w.is_running { "运行中"@ } else if w.is_errored { "需要注意"@ } else { "空闲"@ })
            + " | 工作区："@ + spec_workspace_label(w.workspace) + " | 分支："@ + w.workspace.branch@
            + " | 已归档："@ + (if w.workspace.archived { "是"@ } else { "否"@ })
            + " | 已置顶："@ + (if w.workspace.pinned { "是"@ } else { "否"@ }),
{
    let text = spec_group_announcement(w, None);
    let label = spec_state_label(spec_announcement_state(w, None));
    let head = "Vibe Kanban | "@ + label;
    let tail = " | 工作区："@ + spec_workspace_label(w.workspace) + " | 分支："@ + w.workspace.branch@ + " | 已归档："@
        + spec_yes_no(w.workspace.archived) + " | 已置顶："@ + spec_yes_no(w.workspace.pinned);
    assert(text =~= head + tail);
    assert(head.is_prefix_of(text)) by {
        assert(text.subrange(0, head.len() as int) =~= head);
    }
}

/// The reply owed for a finished run: its trimmed summary when it has one;
/// without one, the failure notice for a failed run and the stop notice for
/// a stopped run, however many lookups are left; for a completed run,
/// another lookup while one is left, and nothing once none is.
pub proof fn law_run_reply_text(status: ExecutionProcessStatus, summary: Option<Seq<char>>, polls_left: bool)
    ensures
        spec_meaningful(summary) matches Some(t) ==> spec_reply_text(status, summary, polls_left) == Some(Some(t)),
        spec_meaningful(summary) is None && status == ExecutionProcessStatus::Killed ==> spec_reply_text(status, summary, polls_left)
            == Some(Some("The workspace run was stopped before a final assistant reply was produced."@)),
        spec_meaningful(summary) is None && status == ExecutionProcessStatus::Failed ==> spec_reply_text(status, summary, polls_left)
            == Some(Some("The workspace run failed before a final assistant reply was produced."@)),
        spec_meaningful(summary) is None && status == ExecutionProcessStatus::Completed ==> spec_reply_text(status, summary, polls_left)
            == if polls_left { None::<Option<Seq<char>>> } else { Some(None::<Seq<char>>) },
{
}

/// The event bridge routes an `add` and a `replace` patch alike, by the
/// collection its path points into: workspaces to a status check, execution
/// processes (a run that started, completed, failed or was stopped) and
/// turn summaries to the run's reply; any other operation is ignored.
pub proof fn law_bridge_routes_by_path(op: PatchOpKind, path: Seq<char>)
    ensures
        spec_bridge_route(PatchOpKind::Add, path) == spec_bridge_route(PatchOpKind::Replace, path),
        op == PatchOpKind::Other ==> spec_bridge_route(op, path) == BridgeRoute::Ignore,
        op != PatchOpKind::Other && "/workspaces/"@.is_prefix_of(path) ==> spec_bridge_route(op, path) == BridgeRoute::WorkspaceStatus,
        op != PatchOpKind::Other && "/execution_processes/"@.is_prefix_of(path) ==> spec_bridge_route(op, path)
            == BridgeRoute::ExecutionProcessReply,
        op != PatchOpKind::Other && "/coding_agent_turn_summaries/"@.is_prefix_of(path) ==> spec_bridge_route(op, path)
            == BridgeRoute::TurnSummaryReply,
        !"/workspaces/"@.is_prefix_of(path) && !"/execution_processes/"@.is_prefix_of(path)
            && !"/coding_agent_turn_summaries/"@.is_prefix_of(path) ==> spec_bridge_route(op, path) == BridgeRoute::Ignore,
{
    reveal_strlit("/workspaces/");
    reveal_strlit("/execution_processes/");
    reveal_strlit("/coding_agent_turn_summaries/");
    if "/execution_processes/"@.is_prefix_of(path) && "/workspaces/"@.is_prefix_of(path) {
        assert(path[1] == "/execution_processes/"@[1]);
        assert(path[1] == "/workspaces/"@[1]);
    }
    if "/coding_agent_turn_summaries/"@.is_prefix_of(path) && "/workspaces/"@.is_prefix_of(path) {
        assert(path[1] == "/coding_agent_turn_summaries/"@[1]);
        assert(path[1] == "/workspaces/"@[1]);
    }
    if "/coding_agent_turn_summaries/"@.is_prefix_of(path) && "/execution_processes/"@.is_prefix_of(path) {
        assert(path[1] == "/coding_agent_turn_summaries/"@[1]);
        assert(path[1] == "/execution_processes/"@[1]);
    }
}

/// A run is answered in chat exactly when it is a coding-agent run that
/// was not dropped; its reply goes only to enabled bindings that want agent
/// replies, and never twice to the same chat of the same bot.
pub proof fn law_run_reply_reaches_each_chat_once(process: ExecutionProcessInfo, bindings: Seq<WorkspaceFeishuBinding>, recipients: Seq<usize>)
    requires
        spec_reply_recipients_are(bindings, recipients),
    ensures
        spec_reply_candidate(process) <==> process.is_coding_agent && !process.dropped,
        forall|k: int| 0 <= k < recipients.len() ==> (#[trigger] recipients[k]) < bindings.len()
            && bindings[recipients[k] as int].enabled && bindings[recipients[k] as int].notify_on_agent_reply,
        forall|k1: int, k2: int| 0 <= k1 < k2 < recipients.len() ==> {
            let a = bindings[#[trigger] recipients[k1] as int];
            let b = bindings[#[trigger] recipients[k2] as int];
            (a.bot_id, a.target_id) != (b.bot_id, b.target_id)
        },
{
    assert forall|k1: int, k2: int| 0 <= k1 < k2 < recipients.len() implies {
        let a = bindings[#[trigger] recipients[k1] as int];
        let b = bindings[#[trigger] recipients[k2] as int];
        (a.bot_id, a.target_id) != (b.bot_id, b.target_id)
    } by {
        let i = recipients[k1] as int;
        let j = recipients[k2] as int;
        assert(spec_first_for_target(bindings, i));
        assert(spec_first_for_target(bindings, j));
        assert(spec_wants_reply(bindings[i]));
        assert(i < j);
    }
}

} // verus!
