//! The bot service's rules: credential validation, secrets stored by
//! reference, one active workspace per chat group, target discovery and
//! delivery logging.
use vstd::prelude::*;
use vstd::string::*;

use crate::model::{CreateFeishuBot, FeishuBot, FeishuConversation, UpdateFeishuBot};
use crate::secret_store::{spec_secret_reference, MissingSecret, SecretVault};
use crate::text::{id_text, spec_id_text, spec_trim, trim_str};
use crate::types::{
    CreateFeishuBotInput, FeishuValidationResult, ResolvedFeishuSecrets, UpdateFeishuBotInput,
};

verus! {

/// Why bot input was refused.
#[derive(Debug, Clone, Copy, PartialEq, Eq, Structural)]
pub enum BotInputError {
    NameRequired,
    AppIdRequired,
    TenantModeRequired,
    AppSecretRequired,
    EncryptKeyEmpty,
    VerificationTokenEmpty,
    BotNotFound,
}

pub open spec fn spec_bot_input_message(e: BotInputError) -> Seq<char> {
    match e {
        BotInputError::NameRequired => "Feishu bot name is required"@,
        BotInputError::AppIdRequired => "Feishu app id is required"@,
        BotInputError::TenantModeRequired => "Feishu tenant mode is required"@,
        BotInputError::AppSecretRequired => "Feishu app secret is required"@,
        BotInputError::EncryptKeyEmpty => "Feishu encrypt key cannot be empty"@,
        BotInputError::VerificationTokenEmpty => "Feishu verification token cannot be empty"@,
        BotInputError::BotNotFound => "Feishu bot not found"@,
    }
}

impl BotInputError {
    pub fn message(&self) -> (r: &'static str)
        ensures
            r@ == spec_bot_input_message(*self),
    {
        match self {
            BotInputError::NameRequired => "Feishu bot name is required",
            BotInputError::AppIdRequired => "Feishu app id is required",
            BotInputError::TenantModeRequired => "Feishu tenant mode is required",
            BotInputError::AppSecretRequired => "Feishu app secret is required",
            BotInputError::EncryptKeyEmpty => "Feishu encrypt key cannot be empty",
            BotInputError::VerificationTokenEmpty => "Feishu verification token cannot be empty",
            BotInputError::BotNotFound => "Feishu bot not found",
        }
    }
}

/// A text holds something besides whitespace.
pub open spec fn spec_filled(s: Seq<char>) -> bool {
    spec_trim(s).len() > 0
}

fn filled(s: &str) -> (r: bool)
    ensures
        r == spec_filled(s@),
{
    !trim_str(s).is_empty()
}

/// An optional secret is acceptable when absent or filled.
pub open spec fn spec_optional_ok(s: Option<String>) -> bool {
    match s {
        Some(v) => spec_filled(v@),
        None => true,
    }
}

/// The first problem with a registration, checked in this order: name,
/// app id, tenant mode, app secret (required and filled), encrypt key and
/// verification token (filled when given).
pub open spec fn spec_create_input_error(input: CreateFeishuBotInput) -> Option<BotInputError> {
    if !spec_filled(input.name@) {
        Some(BotInputError::NameRequired)
    } else if !spec_filled(input.app_id@) {
        Some(BotInputError::AppIdRequired)
    } else if !spec_filled(input.tenant_mode@) {
        Some(BotInputError::TenantModeRequired)
    } else if !(input.app_secret matches Some(s) && spec_filled(s@)) {
        Some(BotInputError::AppSecretRequired)
    } else if !spec_optional_ok(input.encrypt_key) {
        Some(BotInputError::EncryptKeyEmpty)
    } else if !spec_optional_ok(input.verification_token) {
        Some(BotInputError::VerificationTokenEmpty)
    } else {
        None
    }
}

fn optional_ok(s: &Option<String>) -> (r: bool)
    ensures
        r == spec_optional_ok(*s),
{
    match s {
        Some(v) => filled(v.as_str()),
        None => true,
    }
}

/// Checks a registration before anything is stored.
pub fn validate_create_bot_input(input: &CreateFeishuBotInput) -> (r: Result<(), BotInputError>)
    ensures
        match spec_create_input_error(*input) {
            Some(e) => r == Err::<(), BotInputError>(e),
            None => r is Ok,
        },
{
    if !filled(input.name.as_str()) {
        return Err(BotInputError::NameRequired);
    }
    if !filled(input.app_id.as_str()) {
        return Err(BotInputError::AppIdRequired);
    }
    if !filled(input.tenant_mode.as_str()) {
        return Err(BotInputError::TenantModeRequired);
    }
    match &input.app_secret {
        Some(s) => {
            if !filled(s.as_str()) {
                return Err(BotInputError::AppSecretRequired);
            }
        },
        None => {
            return Err(BotInputError::AppSecretRequired);
        },
    }
    if !optional_ok(&input.encrypt_key) {
        return Err(BotInputError::EncryptKeyEmpty);
    }
    if !optional_ok(&input.verification_token) {
        return Err(BotInputError::VerificationTokenEmpty);
    }
    Ok(())
}

fn put_optional(vault: &mut SecretVault, value: Option<String>) -> (r: Option<String>)
    requires
        old(vault).wf(),
    ensures
        final(vault).wf(),
        match value {
            Some(v) => r matches Some(reference) && final(vault).view() == old(vault).view().insert(reference@, v@)
                && exists|id: u128| reference@ == spec_secret_reference(id),
            None => r is None && final(vault).view() == old(vault).view(),
        },
{
    match value {
        Some(v) => Some(vault.put(v)),
        None => None,
    }
}

/// The secrets of a registration are stored in the vault and the record
/// holds their references: each reference resolves to the secret given.
pub open spec fn spec_refs_hold(
    vault: Map<Seq<char>, Seq<char>>,
    bot: CreateFeishuBot,
    input: CreateFeishuBotInput,
) -> bool {
    &&& vault.contains_key(bot.app_secret_ref@)
    &&& input.app_secret matches Some(s) && vault[bot.app_secret_ref@] == s@
    &&& match (input.encrypt_key, bot.encrypt_key_ref) {
        (Some(k), Some(r)) => vault.contains_key(r@) && vault[r@] == k@,
        (None, None) => true,
        _ => false,
    }
    &&& match (input.verification_token, bot.verification_token_ref) {
        (Some(k), Some(r)) => vault.contains_key(r@) && vault[r@] == k@,
        (None, None) => true,
        _ => false,
    }
}

/// The vault after a secret, when one is given, is stored under `reference`.
pub open spec fn spec_store_optional(
    vault: Map<Seq<char>, Seq<char>>,
    given: Option<String>,
    reference: Option<String>,
) -> Map<Seq<char>, Seq<char>> {
    match (given, reference) {
        (Some(v), Some(r)) => vault.insert(r@, v@),
        _ => vault,
    }
}

/// The references of a record are distinct from one another.
pub open spec fn spec_distinct_refs(bot: CreateFeishuBot) -> bool {
    &&& (bot.encrypt_key_ref matches Some(e) ==> e@ != bot.app_secret_ref@)
    &&& (bot.verification_token_ref matches Some(t) ==> t@ != bot.app_secret_ref@)
    &&& (bot.encrypt_key_ref matches Some(e) && bot.verification_token_ref matches Some(t) ==> e@ != t@)
}

/// Validates a registration, stores its secrets and returns the record to
/// insert, which holds only the references. Nothing is stored when the
/// input is refused.
pub fn prepare_bot_creation(input: CreateFeishuBotInput, vault: &mut SecretVault) -> (r: Result<CreateFeishuBot, BotInputError>)
    requires
        old(vault).wf(),
    ensures
        final(vault).wf(),
        match spec_create_input_error(input) {
            Some(e) => r == Err::<CreateFeishuBot, BotInputError>(e) && final(vault).view() == old(vault).view(),
            None => r matches Ok(bot) && {
                &&& bot.name@ == input.name@
                &&& bot.app_id@ == input.app_id@
                &&& bot.tenant_mode@ == input.tenant_mode@
                &&& exists|id: u128| bot.app_secret_ref@ == spec_secret_reference(id)
                &&& (input.encrypt_key is Some <==> bot.encrypt_key_ref is Some)
                &&& (bot.encrypt_key_ref matches Some(e) ==> exists|id: u128| e@ == spec_secret_reference(id))
                &&& (input.verification_token is Some <==> bot.verification_token_ref is Some)
                &&& (bot.verification_token_ref matches Some(t) ==> exists|id: u128| t@ == spec_secret_reference(id))
                &&& final(vault).view() == spec_store_optional(
                    spec_store_optional(
                        old(vault).view().insert(bot.app_secret_ref@, input.app_secret.unwrap()@),
                        input.encrypt_key,
                        bot.encrypt_key_ref,
                    ),
                    input.verification_token,
                    bot.verification_token_ref,
                )
                &&& (spec_distinct_refs(bot) ==> spec_refs_hold(final(vault).view(), bot, input))
                &&& forall|k: Seq<char>| old(vault).view().contains_key(k) && !final(vault).view().contains_key(k) ==> false
            },
        },
{
    match validate_create_bot_input(&input) {
        Err(e) => return Err(e),
        Ok(()) => {},
    }
    let ghost in_copy = input;
    let CreateFeishuBotInput { name, app_id, app_secret, encrypt_key, verification_token, tenant_mode } = input;
    let secret = match app_secret {
        Some(s) => s,
        None => {
            return Err(BotInputError::AppSecretRequired);
        },
    };
    let ghost v0 = vault.view();
    let ghost sv = secret@;
    let app_secret_ref = vault.put(secret);
    let ghost v1 = vault.view();
    let encrypt_key_ref = put_optional(vault, encrypt_key);
    let ghost v2 = vault.view();
    let verification_token_ref = put_optional(vault, verification_token);
    let bot = CreateFeishuBot {
        name,
        app_id,
        app_secret_ref,
        encrypt_key_ref,
        verification_token_ref,
        tenant_mode,
    };
    proof {
        if spec_distinct_refs(bot) {
            assert(spec_refs_hold(vault.view(), bot, in_copy));
        }
    }
    Ok(bot)
}

/// Keeps the stored reference when no new secret is given; otherwise the new
/// secret must be filled and is stored under a new reference.
fn replace_secret(
    vault: &mut SecretVault,
    new_value: Option<String>,
    current: Option<String>,
    error: BotInputError,
) -> (r: Result<Option<String>, BotInputError>)
    requires
        old(vault).wf(),
    ensures
        final(vault).wf(),
        match new_value {
            Some(v) => if spec_filled(v@) {
                r matches Ok(Some(reference)) && final(vault).view() == old(vault).view().insert(reference@, v@)
                    && exists|id: u128| reference@ == spec_secret_reference(id)
            } else {
                r == Err::<Option<String>, BotInputError>(error) && final(vault).view() == old(vault).view()
            },
            None => r == Ok::<Option<String>, BotInputError>(current) && final(vault).view() == old(vault).view(),
        },
{
    match new_value {
        Some(v) => {
            if !filled(v.as_str()) {
                return Err(error);
            }
            Ok(Some(vault.put(v)))
        },
        None => Ok(current),
    }
}

/// The first problem with the plain fields of a bot update.
pub open spec fn spec_update_fields_error(input: UpdateFeishuBotInput) -> Option<BotInputError> {
    if !spec_filled(input.name@) {
        Some(BotInputError::NameRequired)
    } else if !spec_filled(input.app_id@) {
        Some(BotInputError::AppIdRequired)
    } else if !spec_filled(input.tenant_mode@) {
        Some(BotInputError::TenantModeRequired)
    } else {
        None
    }
}

/// The secret a bot update offers is refused when it is given but blank.
pub open spec fn spec_blank(s: Option<String>) -> bool {
    s matches Some(v) && !spec_filled(v@)
}

/// The first problem with a bot update, in the order the service checks.
pub open spec fn spec_update_input_error(input: UpdateFeishuBotInput) -> Option<BotInputError> {
    match spec_update_fields_error(input) {
        Some(e) => Some(e),
        None => if spec_blank(input.app_secret) {
            Some(BotInputError::AppSecretRequired)
        } else if spec_blank(input.encrypt_key) {
            Some(BotInputError::EncryptKeyEmpty)
        } else if spec_blank(input.verification_token) {
            Some(BotInputError::VerificationTokenEmpty)
        } else {
            None
        },
    }
}

/// A reference of the update: the new secret's reference when one was
/// given (it then resolves to that secret), the current reference otherwise.
pub open spec fn spec_updated_ref(
    vault: Map<Seq<char>, Seq<char>>,
    given: Option<String>,
    current: Option<String>,
    result: Option<String>,
) -> bool {
    match given {
        Some(v) => result matches Some(r) && (exists|id: u128| r@ == spec_secret_reference(id)),
        None => result == current,
    }
}

/// An optional reference that, when present, differs from `r`.
pub open spec fn spec_ref_differs(o: Option<String>, r: String) -> bool {
    o matches Some(x) ==> x@ != r@
}

/// The first problem with a bot update, in the order the service checks:
/// the plain fields, then that the bot exists, then the secrets offered.
pub open spec fn spec_update_error(input: UpdateFeishuBotInput, found: bool) -> Option<BotInputError> {
    match spec_update_fields_error(input) {
        Some(e) => Some(e),
        None => if !found {
            Some(BotInputError::BotNotFound)
        } else {
            spec_update_input_error(input)
        },
    }
}

/// Validates a bot update against the current record (`None` when the bot
/// does not exist), storing each new secret as it is accepted, and returns
/// the fields to write. A secret left out keeps its current reference. The
/// checks run in order, so a secret accepted before a later refusal stays
/// stored.
pub fn prepare_bot_update(current: Option<&FeishuBot>, input: UpdateFeishuBotInput, vault: &mut SecretVault) -> (r: Result<UpdateFeishuBot, BotInputError>)
    requires
        old(vault).wf(),
    ensures
        final(vault).wf(),
        match spec_update_error(input, current is Some) {
            Some(e) => r == Err::<UpdateFeishuBot, BotInputError>(e),
            None => r matches Ok(u) && {
                let c = current.unwrap();
                &&& u.name@ == input.name@
                &&& u.app_id@ == input.app_id@
                &&& u.tenant_mode@ == input.tenant_mode@
                &&& u.enabled == input.enabled
                &&& spec_updated_ref(final(vault).view(), input.app_secret, Some(c.app_secret_ref), Some(u.app_secret_ref))
                &&& spec_updated_ref(final(vault).view(), input.encrypt_key, c.encrypt_key_ref, u.encrypt_key_ref)
                &&& spec_updated_ref(final(vault).view(), input.verification_token, c.verification_token_ref, u.verification_token_ref)
                &&& final(vault).view() == spec_store_optional(
                    spec_store_optional(
                        spec_store_optional(old(vault).view(), input.app_secret, Some(u.app_secret_ref)),
                        input.encrypt_key,
                        u.encrypt_key_ref,
                    ),
                    input.verification_token,
                    u.verification_token_ref,
                )
            },
        },
        spec_update_fields_error(input) is Some || current is None ==> final(vault).view() == old(vault).view(),
{
    if !filled(input.name.as_str()) {
        return Err(BotInputError::NameRequired);
    }
    if !filled(input.app_id.as_str()) {
        return Err(BotInputError::AppIdRequired);
    }
    if !filled(input.tenant_mode.as_str()) {
        return Err(BotInputError::TenantModeRequired);
    }
    let current = match current {
        Some(c) => c,
        None => return Err(BotInputError::BotNotFound),
    };
    let ghost in_copy = input;
    let UpdateFeishuBotInput { name, app_id, app_secret, encrypt_key, verification_token, tenant_mode, enabled } = input;
    let app_ref = match replace_secret(vault, app_secret, Some(current.app_secret_ref.clone()), BotInputError::AppSecretRequired) {
        Ok(r) => r,
        Err(e) => return Err(e),
    };
    let ghost after_app = vault.view();
    let encrypt_key_ref = match replace_secret(vault, encrypt_key, current.encrypt_key_ref.clone(), BotInputError::EncryptKeyEmpty) {
        Ok(r) => r,
        Err(e) => return Err(e),
    };
    let verification_token_ref = match replace_secret(
        vault,
        verification_token,
        current.verification_token_ref.clone(),
        BotInputError::VerificationTokenEmpty,
    ) {
        Ok(r) => r,
        Err(e) => return Err(e),
    };
    let app_secret_ref = match app_ref {
        Some(r) => r,
        None => current.app_secret_ref.clone(),
    };
    Ok(UpdateFeishuBot { name, app_id, app_secret_ref, encrypt_key_ref, verification_token_ref, tenant_mode, enabled })
}

/// The stored record after an update: the written fields, the health
/// status `disabled` when the bot is disabled (kept as it was otherwise),
/// and the id and last error as they were.
pub fn updated_bot(current: &FeishuBot, update: &UpdateFeishuBot) -> (r: FeishuBot)
    ensures
        r.id == current.id,
        r.name@ == update.name@,
        r.app_id@ == update.app_id@,
        r.app_secret_ref@ == update.app_secret_ref@,
        crate::text::opt_string_view(r.encrypt_key_ref) == crate::text::opt_string_view(update.encrypt_key_ref),
        crate::text::opt_string_view(r.verification_token_ref) == crate::text::opt_string_view(update.verification_token_ref),
        r.tenant_mode@ == update.tenant_mode@,
        r.enabled == update.enabled,
        r.last_health_status@ == (if update.enabled { current.last_health_status@ } else { "disabled"@ }),
        crate::text::opt_string_view(r.last_error) == crate::text::opt_string_view(current.last_error),
{
    FeishuBot {
        id: current.id,
        name: update.name.clone(),
        app_id: update.app_id.clone(),
        app_secret_ref: update.app_secret_ref.clone(),
        encrypt_key_ref: clone_opt_string(&update.encrypt_key_ref),
        verification_token_ref: clone_opt_string(&update.verification_token_ref),
        tenant_mode: update.tenant_mode.clone(),
        enabled: update.enabled,
        last_health_status: if update.enabled { current.last_health_status.clone() } else { "disabled".to_string() },
        last_error: clone_opt_string(&current.last_error),
    }
}

fn clone_opt_string(o: &Option<String>) -> (r: Option<String>)
    ensures
        crate::text::opt_string_view(r) == crate::text::opt_string_view(*o),
{
    match o {
        Some(s) => Some(s.clone()),
        None => None,
    }
}

/// Resolves the secrets a bot record refers to.
pub fn resolve_bot_secrets(bot: &FeishuBot, vault: &SecretVault) -> (r: Result<ResolvedFeishuSecrets, MissingSecret>)
    requires
        vault.wf(),
    ensures
        match r {
            Ok(s) => {
                &&& vault.view().contains_key(bot.app_secret_ref@)
                &&& s.app_secret@ == vault.view()[bot.app_secret_ref@]
                &&& match bot.encrypt_key_ref {
                    Some(k) => s.encrypt_key matches Some(v) && vault.view().contains_key(k@) && v@ == vault.view()[k@],
                    None => s.encrypt_key is None,
                }
                &&& match bot.verification_token_ref {
                    Some(k) => s.verification_token matches Some(v) && vault.view().contains_key(k@) && v@ == vault.view()[k@],
                    None => s.verification_token is None,
                }
            },
            Err(e) => {
                ||| !vault.view().contains_key(bot.app_secret_ref@) && e.reference@ == bot.app_secret_ref@
                ||| bot.encrypt_key_ref matches Some(k) && !vault.view().contains_key(k@) && e.reference@ == k@
                ||| bot.verification_token_ref matches Some(k) && !vault.view().contains_key(k@) && e.reference@ == k@
            },
        },
        r is Err <==> (!vault.view().contains_key(bot.app_secret_ref@)
            || (bot.encrypt_key_ref matches Some(k) && !vault.view().contains_key(k@))
            || (bot.verification_token_ref matches Some(k) && !vault.view().contains_key(k@))),
{
    let app_secret = match vault.get(bot.app_secret_ref.as_str()) {
        Ok(v) => v,
        Err(e) => return Err(e),
    };
    let encrypt_key = match &bot.encrypt_key_ref {
        Some(reference) => match vault.get(reference.as_str()) {
            Ok(v) => Some(v),
            Err(e) => return Err(e),
        },
        None => None,
    };
    let verification_token = match &bot.verification_token_ref {
        Some(reference) => match vault.get(reference.as_str()) {
            Ok(v) => Some(v),
            Err(e) => return Err(e),
        },
        None => None,
    };
    Ok(ResolvedFeishuSecrets { app_secret, encrypt_key, verification_token })
}

/// The report of a successful credential check.
pub fn validation_result(chat_count: usize) -> (r: FeishuValidationResult)
    ensures
        r.ok,
        r.message@ == "Bot validated successfully"@,
        r.chat_count == chat_count,
{
    FeishuValidationResult { ok: true, message: "Bot validated successfully".to_string(), chat_count }
}

} // verus!

verus! {

use crate::model::{
    CreateFeishuBotTarget, CreateFeishuDeliveryLog, FeishuBotTarget, UpdateFeishuBotTarget,
    UpdateWorkspaceFeishuBinding, Workspace, WorkspaceFeishuBinding,
};
use crate::model::spec_workspace_label;
use crate::types::DiscoveredFeishuTarget;
use crate::text::str_contains;

/// A chat group can be looked up only by an id it has.
pub fn chat_identity_known(open_chat_id: Option<&str>, chat_id: Option<&str>) -> (r: bool)
    ensures
        r == (open_chat_id is Some || chat_id is Some),
{
    open_chat_id.is_some() || chat_id.is_some()
}

/// Two targets name the same chat group when they share an open chat id or a chat id.
pub open spec fn spec_same_group(a: FeishuBotTarget, b: FeishuBotTarget) -> bool {
    ||| (a.open_chat_id matches Some(x) && b.open_chat_id matches Some(y) && x@ == y@)
    ||| (a.chat_id matches Some(x) && b.chat_id matches Some(y) && x@ == y@)
}

/// The first binding, among the enabled bindings of a chat group, that is not
/// the one being re-enabled: the workspace that already owns the group.
pub fn first_conflicting_binding(bindings: &Vec<WorkspaceFeishuBinding>, ignored_binding_id: Option<u128>) -> (r: Option<usize>)
    ensures
        match r {
            Some(i) => i < bindings@.len() && Some(bindings@[i as int].id) != ignored_binding_id
                && forall|j: int| 0 <= j < i ==> Some((#[trigger] bindings@[j]).id) == ignored_binding_id,
            None => forall|j: int| 0 <= j < bindings@.len() ==> Some((#[trigger] bindings@[j]).id) == ignored_binding_id,
        },
{
    let mut i: usize = 0;
    while i < bindings.len()
        invariant
            i <= bindings@.len(),
            forall|j: int| 0 <= j < i ==> Some((#[trigger] bindings@[j]).id) == ignored_binding_id,
        decreases bindings@.len() - i,
    {
        let is_ignored = match ignored_binding_id {
            Some(id) => bindings[i].id == id,
            None => false,
        };
        if !is_ignored {
            return Some(i);
        }
        i = i + 1;
    }
    None
}

/// The workspace named in a conflict: its name or branch, or its id when it is gone.
pub open spec fn spec_conflict_label(workspace: Option<Workspace>, workspace_id: u128) -> Seq<char> {
    match workspace {
        Some(w) => spec_workspace_label(w),
        None => spec_id_text(workspace_id),
    }
}

pub fn conflict_workspace_label(workspace: Option<&Workspace>, workspace_id: u128) -> (r: String)
    ensures
        r@ == spec_conflict_label(match workspace { Some(w) => Some(*w), None => None }, workspace_id),
{
    match workspace {
        Some(w) => w.label().to_string(),
        None => id_text(workspace_id),
    }
}

/// The refusal when a chat group already belongs to another workspace.
pub open spec fn spec_conflict_message(target_name: Seq<char>, workspace_label: Seq<char>) -> Seq<char> {
    "Current Feishu group \""@ + target_name + "\" is already bound to workspace \""@ + workspace_label
        + "\". Unbind it before binding again."@
}

pub fn binding_conflict_message(target_name: &str, workspace_label: &str) -> (r: String)
    ensures
        r@ == spec_conflict_message(target_name@, workspace_label@),
{
    let mut s = String::new();
    s.append("Current Feishu group \"");
    s.append(target_name);
    s.append("\" is already bound to workspace \"");
    s.append(workspace_label);
    s.append("\". Unbind it before binding again.");
    assert(s@ =~= spec_conflict_message(target_name@, workspace_label@));
    s
}

/// A binding with its target, as the uniqueness rule sees it.
pub struct BoundTarget {
    pub binding: WorkspaceFeishuBinding,
    pub target: FeishuBotTarget,
}

/// The enabled bindings whose target is the chat group of `group`.
pub open spec fn spec_group_bindings(all: Seq<BoundTarget>, group: FeishuBotTarget) -> Seq<BoundTarget> {
    all.filter(|e: BoundTarget| e.binding.enabled && spec_same_group(e.target, group))
}

/// One active workspace per chat group: when the check before binding finds
/// no enabled binding on the group, the group has exactly the new binding
/// enabled afterwards.
pub proof fn law_binding_keeps_group_unique(all: Seq<BoundTarget>, group: FeishuBotTarget, new_binding: BoundTarget)
    requires
        spec_group_bindings(all, group).len() == 0,
        new_binding.binding.enabled,
        spec_same_group(new_binding.target, group),
    ensures
        spec_group_bindings(all.push(new_binding), group) == seq![new_binding],
{
    let pred = |e: BoundTarget| e.binding.enabled && spec_same_group(e.target, group);
    assert(all.push(new_binding).drop_last() =~= all);
    reveal(Seq::filter);
    assert(spec_group_bindings(all.push(new_binding), group) =~= all.filter(pred).push(new_binding));
}

/// Which bindings of a chat target `ensure_single_active_binding_for_target`
/// switches off, and which it keeps.
pub struct SingleActivePlan {
    /// Indices of the bindings to disable: the bot's other enabled bindings.
    pub disable: Vec<usize>,
    /// Indices of the bot's bindings that stay as they are (the preferred one
    /// and the already disabled ones), in order.
    pub retained: Vec<usize>,
}

/// Keeps the preferred binding of `bot_id` on a target and disables the
/// bot's other enabled bindings there; other bots' bindings are untouched.
pub fn single_active_plan(bindings: &Vec<WorkspaceFeishuBinding>, bot_id: u128, preferred_binding_id: u128) -> (r: SingleActivePlan)
    ensures
        forall|k: int| 0 <= k < r.disable@.len() ==> {
            let b = bindings@[(#[trigger] r.disable@[k]) as int];
            &&& r.disable@[k] < bindings@.len()
            &&& b.bot_id == bot_id && b.id != preferred_binding_id && b.enabled
        },
        forall|k: int| 0 <= k < r.retained@.len() ==> {
            let b = bindings@[(#[trigger] r.retained@[k]) as int];
            &&& r.retained@[k] < bindings@.len()
            &&& b.bot_id == bot_id && !(b.id != preferred_binding_id && b.enabled)
        },
        forall|j: int| 0 <= j < bindings@.len() && (#[trigger] bindings@[j]).bot_id == bot_id ==>
            (if bindings@[j].id != preferred_binding_id && bindings@[j].enabled {
                r.disable@.contains(j as usize)
            } else {
                r.retained@.contains(j as usize)
            }),
        forall|k1: int, k2: int| 0 <= k1 < k2 < r.retained@.len() ==> r.retained@[k1] < r.retained@[k2],
{
    let mut disable: Vec<usize> = Vec::new();
    let mut retained: Vec<usize> = Vec::new();
    let mut i: usize = 0;
    while i < bindings.len()
        invariant
            i <= bindings@.len(),
            forall|k: int| 0 <= k < disable@.len() ==> {
                let b = bindings@[(#[trigger] disable@[k]) as int];
                &&& disable@[k] < i
                &&& b.bot_id == bot_id && b.id != preferred_binding_id && b.enabled
            },
            forall|k: int| 0 <= k < retained@.len() ==> {
                let b = bindings@[(#[trigger] retained@[k]) as int];
                &&& retained@[k] < i
                &&& b.bot_id == bot_id && !(b.id != preferred_binding_id && b.enabled)
            },
            forall|j: int| 0 <= j < i && (#[trigger] bindings@[j]).bot_id == bot_id ==>
                (if bindings@[j].id != preferred_binding_id && bindings@[j].enabled {
                    disable@.contains(j as usize)
                } else {
                    retained@.contains(j as usize)
                }),
            forall|k1: int, k2: int| 0 <= k1 < k2 < retained@.len() ==> retained@[k1] < retained@[k2],
        decreases bindings@.len() - i,
    {
        let ghost pd = disable@;
        let ghost pr = retained@;
        let b = &bindings[i];
        if b.bot_id == bot_id {
            if b.id != preferred_binding_id && b.enabled {
                disable.push(i);
                assert(disable@[disable@.len() - 1] == i);
            } else {
                retained.push(i);
                assert(retained@[retained@.len() - 1] == i);
            }
        }
        assert forall|j: int| 0 <= j < i + 1 && (#[trigger] bindings@[j]).bot_id == bot_id implies
            (if bindings@[j].id != preferred_binding_id && bindings@[j].enabled {
                disable@.contains(j as usize)
            } else {
                retained@.contains(j as usize)
            }) by {
            if j < i {
                if bindings@[j].id != preferred_binding_id && bindings@[j].enabled {
                    let k = choose|k: int| 0 <= k < pd.len() && pd[k] == j as usize;
                    assert(disable@[k] == j as usize);
                } else {
                    let k = choose|k: int| 0 <= k < pr.len() && pr[k] == j as usize;
                    assert(retained@[k] == j as usize);
                }
            }
        }
        i = i + 1;
    }
    SingleActivePlan { disable, retained }
}

/// The update that switches a binding off and keeps all its other settings.
pub fn disabled_binding_update(binding: &WorkspaceFeishuBinding) -> (r: UpdateWorkspaceFeishuBinding)
    ensures
        !r.enabled,
        r.notify_on_status == binding.notify_on_status,
        r.notify_on_agent_reply == binding.notify_on_agent_reply,
        r.notify_on_pr == binding.notify_on_pr,
        r.allow_commands == binding.allow_commands,
        r.allow_chat_messages == binding.allow_chat_messages,
        r.allow_cards == binding.allow_cards,
        r.ack_reaction_enabled == binding.ack_reaction_enabled,
        r.ack_reaction_emoji_type@ == binding.ack_reaction_emoji_type@,
        r.sync_group_announcement == binding.sync_group_announcement,
{
    UpdateWorkspaceFeishuBinding {
        enabled: false,
        notify_on_status: binding.notify_on_status,
        notify_on_agent_reply: binding.notify_on_agent_reply,
        notify_on_pr: binding.notify_on_pr,
        allow_commands: binding.allow_commands,
        allow_chat_messages: binding.allow_chat_messages,
        allow_cards: binding.allow_cards,
        ack_reaction_enabled: binding.ack_reaction_enabled,
        ack_reaction_emoji_type: binding.ack_reaction_emoji_type.clone(),
        sync_group_announcement: binding.sync_group_announcement,
    }
}

/// The update that switches commands off and keeps all other settings.
pub fn commands_disabled_update(binding: &WorkspaceFeishuBinding) -> (r: UpdateWorkspaceFeishuBinding)
    ensures
        !r.allow_commands,
        r.enabled == binding.enabled,
        r.notify_on_status == binding.notify_on_status,
        r.notify_on_agent_reply == binding.notify_on_agent_reply,
        r.notify_on_pr == binding.notify_on_pr,
        r.allow_chat_messages == binding.allow_chat_messages,
        r.allow_cards == binding.allow_cards,
        r.ack_reaction_enabled == binding.ack_reaction_enabled,
        r.ack_reaction_emoji_type@ == binding.ack_reaction_emoji_type@,
        r.sync_group_announcement == binding.sync_group_announcement,
{
    UpdateWorkspaceFeishuBinding {
        enabled: binding.enabled,
        notify_on_status: binding.notify_on_status,
        notify_on_agent_reply: binding.notify_on_agent_reply,
        notify_on_pr: binding.notify_on_pr,
        allow_commands: false,
        allow_chat_messages: binding.allow_chat_messages,
        allow_cards: binding.allow_cards,
        ack_reaction_enabled: binding.ack_reaction_enabled,
        ack_reaction_emoji_type: binding.ack_reaction_emoji_type.clone(),
        sync_group_announcement: binding.sync_group_announcement,
    }
}

/// Whether a binding of the bot on the target stays enabled once the plan is applied.
pub open spec fn spec_enabled_after(b: WorkspaceFeishuBinding, bot_id: u128, preferred: u128) -> bool {
    b.enabled && !(b.bot_id == bot_id && b.id != preferred)
}

/// After the plan is applied, the preferred binding is the only enabled
/// binding of the bot on the target.
pub proof fn law_single_active_binding(bindings: Seq<WorkspaceFeishuBinding>, bot_id: u128, preferred: u128, i: int)
    requires
        0 <= i < bindings.len(),
        bindings[i].bot_id == bot_id,
        spec_enabled_after(bindings[i], bot_id, preferred),
    ensures
        bindings[i].id == preferred,
{
}

/// What target discovery does with one discovered chat.
pub enum TargetUpsert {
    /// Refresh the stored target with this id and mark it active.
    Update { id: u128, update: UpdateFeishuBotTarget },
    /// Store a new target.
    Create(CreateFeishuBotTarget),
}

/// A discovered chat refreshes the stored target with the same identity, or
/// becomes a new target of the bot.
pub fn target_upsert(bot_id: u128, existing: Option<&FeishuBotTarget>, discovered: &DiscoveredFeishuTarget) -> (r: TargetUpsert)
    ensures
        match existing {
            Some(t) => r matches TargetUpsert::Update { id, update } && id == t.id && update.is_active
                && update.target_type == discovered.target_type && update.open_chat_id == discovered.open_chat_id
                && update.chat_id == discovered.chat_id && update.name == discovered.name && update.source == discovered.source,
            None => r matches TargetUpsert::Create(c) && c.bot_id == bot_id
                && c.target_type == discovered.target_type && c.open_chat_id == discovered.open_chat_id
                && c.chat_id == discovered.chat_id && c.name == discovered.name && c.source == discovered.source,
        },
{
    match existing {
        Some(t) => TargetUpsert::Update {
            id: t.id,
            update: UpdateFeishuBotTarget {
                target_type: discovered.target_type.clone(),
                open_chat_id: discovered.open_chat_id.clone(),
                chat_id: discovered.chat_id.clone(),
                name: discovered.name.clone(),
                source: discovered.source.clone(),
                is_active: true,
            },
        },
        None => TargetUpsert::Create(CreateFeishuBotTarget {
            bot_id,
            target_type: discovered.target_type.clone(),
            open_chat_id: discovered.open_chat_id.clone(),
            chat_id: discovered.chat_id.clone(),
            name: discovered.name.clone(),
            source: discovered.source.clone(),
        }),
    }
}

/// `e` switches `t` off: `t` is active, was not refreshed, and `e` keeps its fields.
pub open spec fn spec_deactivates(t: FeishuBotTarget, e: (u128, UpdateFeishuBotTarget), retained: Seq<u128>) -> bool {
    &&& e.0 == t.id
    &&& t.is_active && !retained.contains(t.id)
    &&& !e.1.is_active && e.1.name == t.name && e.1.open_chat_id == t.open_chat_id
    &&& e.1.chat_id == t.chat_id && e.1.target_type == t.target_type && e.1.source == t.source
}

/// The stored targets a discovery leaves stale: the active ones whose id no
/// discovered chat refreshed, in stored order.
pub open spec fn spec_stale_targets(existing: Seq<FeishuBotTarget>, retained: Seq<u128>) -> Seq<FeishuBotTarget>
    decreases existing.len(),
{
    if existing.len() == 0 {
        Seq::empty()
    } else {
        let rest = spec_stale_targets(existing.drop_last(), retained);
        let t = existing.last();
        if t.is_active && !retained.contains(t.id) {
            rest.push(t)
        } else {
            rest
        }
    }
}

/// The deactivations that end a discovery: one for each stale target, in
/// stored order, switching it off with its other fields unchanged.
pub fn stale_target_updates(existing: &Vec<FeishuBotTarget>, retained_ids: &Vec<u128>) -> (r: Vec<(u128, UpdateFeishuBotTarget)>)
    ensures
        r@.len() == spec_stale_targets(existing@, retained_ids@).len(),
        forall|k: int| 0 <= k < r@.len() ==> spec_deactivates(spec_stale_targets(existing@, retained_ids@)[k], #[trigger] r@[k], retained_ids@),
{
    let mut r: Vec<(u128, UpdateFeishuBotTarget)> = Vec::new();
    let mut i: usize = 0;
    while i < existing.len()
        invariant
            i <= existing@.len(),
            r@.len() == spec_stale_targets(existing@.take(i as int), retained_ids@).len(),
            forall|k: int| 0 <= k < r@.len() ==> spec_deactivates(spec_stale_targets(existing@.take(i as int), retained_ids@)[k], #[trigger] r@[k], retained_ids@),
        decreases existing@.len() - i,
    {
        let t = &existing[i];
        let ghost prev = r@;
        let ghost before = spec_stale_targets(existing@.take(i as int), retained_ids@);
        proof {
            assert(existing@.take(i + 1).drop_last() =~= existing@.take(i as int));
            assert(existing@.take(i + 1).last() == *t);
        }
        let mut kept = false;
        let mut m: usize = 0;
        while m < retained_ids.len()
            invariant
                m <= retained_ids@.len(),
                kept == (exists|q: int| 0 <= q < m && retained_ids@[q] == t.id),
            decreases retained_ids@.len() - m,
        {
            if retained_ids[m] == t.id {
                kept = true;
            }
            m = m + 1;
        }
        assert(kept == retained_ids@.contains(t.id));
        if t.is_active && !kept {
            r.push((
                t.id,
                UpdateFeishuBotTarget {
                    target_type: t.target_type.clone(),
                    open_chat_id: t.open_chat_id.clone(),
                    chat_id: t.chat_id.clone(),
                    name: t.name.clone(),
                    source: t.source.clone(),
                    is_active: false,
                },
            ));
        }
        proof {
            let after = spec_stale_targets(existing@.take(i + 1), retained_ids@);
            assert forall|k: int| 0 <= k < r@.len() implies spec_deactivates(after[k], #[trigger] r@[k], retained_ids@) by {
                if k < prev.len() {
                    assert(r@[k] == prev[k]);
                    assert(after[k] == before[k]);
                }
            }
        }
        i = i + 1;
    }
    proof {
        assert(existing@.take(existing@.len() as int) =~= existing@);
    }
    r
}

/// The delivery log of a sent message.
pub fn sent_delivery_log(
    workspace_id: Option<u128>,
    bot_id: u128,
    target_id: u128,
    event_type: &str,
    message: &str,
    message_id: Option<String>,
) -> (r: CreateFeishuDeliveryLog)
    ensures
        r.workspace_id == workspace_id && r.bot_id == bot_id && r.target_id == target_id,
        r.event_type@ == event_type@,
        r.payload_summary matches Some(p) && p@ == message@,
        r.status@ == "sent"@,
        r.retry_count == 0,
        r.message_id == message_id,
        r.error_message is None,
{
    CreateFeishuDeliveryLog {
        workspace_id,
        bot_id,
        target_id,
        event_type: event_type.to_string(),
        payload_summary: Some(message.to_string()),
        status: "sent".to_string(),
        retry_count: 0,
        message_id,
        error_message: None,
    }
}

/// The delivery log of a message that failed to send.
pub fn failed_delivery_log(
    workspace_id: Option<u128>,
    bot_id: u128,
    target_id: u128,
    event_type: &str,
    message: &str,
    error: &str,
) -> (r: CreateFeishuDeliveryLog)
    ensures
        r.workspace_id == workspace_id && r.bot_id == bot_id && r.target_id == target_id,
        r.event_type@ == event_type@,
        r.payload_summary matches Some(p) && p@ == message@,
        r.status@ == "failed"@,
        r.retry_count == 0,
        r.message_id is None,
        r.error_message matches Some(e) && e@ == error@,
{
    CreateFeishuDeliveryLog {
        workspace_id,
        bot_id,
        target_id,
        event_type: event_type.to_string(),
        payload_summary: Some(message.to_string()),
        status: "failed".to_string(),
        retry_count: 0,
        message_id: None,
        error_message: Some(error.to_string()),
    }
}

/// How many times a message is attempted before its delivery is given up.
pub const MAX_DELIVERY_ATTEMPTS: u32 = 3;

/// What follows one delivery attempt.
#[derive(Debug, Clone, Copy, PartialEq, Eq, Structural)]
pub enum DeliveryStep {
    /// The message was delivered.
    Delivered,
    /// The attempt failed; try again as this attempt.
    Retry(u32),
    /// The last allowed attempt failed; the failure is reported.
    GiveUp,
}

/// The step after attempt `attempt` (counted from 1) succeeded or failed.
pub open spec fn spec_delivery_step(attempt: u32, delivered: bool) -> DeliveryStep {
    if delivered {
        DeliveryStep::Delivered
    } else if attempt < MAX_DELIVERY_ATTEMPTS {
        DeliveryStep::Retry((attempt + 1) as u32)
    } else {
        DeliveryStep::GiveUp
    }
}

/// One delivery attempt of a message to a target: every attempt is logged
/// with the number of attempts made before it, a successful one as `sent`
/// with the message id, a failed one as `failed` with its error; a failed
/// attempt is retried until the bounded number of attempts is used up.
pub fn delivery_attempt(
    workspace_id: Option<u128>,
    bot_id: u128,
    target_id: u128,
    event_type: &str,
    message: &str,
    attempt: u32,
    outcome: Result<Option<String>, String>,
) -> (r: (CreateFeishuDeliveryLog, DeliveryStep))
    requires
        1 <= attempt <= MAX_DELIVERY_ATTEMPTS,
    ensures
        r.0.workspace_id == workspace_id && r.0.bot_id == bot_id && r.0.target_id == target_id,
        r.0.event_type@ == event_type@,
        r.0.payload_summary matches Some(p) && p@ == message@,
        r.0.retry_count == attempt - 1,
        r.1 == spec_delivery_step(attempt, outcome is Ok),
        match outcome {
            Ok(message_id) => r.0.status@ == "sent"@ && r.0.message_id == message_id && r.0.error_message is None,
            Err(e) => r.0.status@ == "failed"@ && r.0.message_id is None
                && (r.0.error_message matches Some(m) && m@ == e@),
        },
{
    let retries: i64 = (attempt - 1) as i64;
    match outcome {
        Ok(message_id) => {
            let mut log = sent_delivery_log(workspace_id, bot_id, target_id, event_type, message, message_id);
            log.retry_count = retries;
            (log, DeliveryStep::Delivered)
        },
        Err(e) => {
            let mut log = failed_delivery_log(workspace_id, bot_id, target_id, event_type, message, e.as_str());
            log.retry_count = retries;
            let step = if attempt < MAX_DELIVERY_ATTEMPTS { DeliveryStep::Retry(attempt + 1) } else { DeliveryStep::GiveUp };
            (log, step)
        },
    }
}

/// Deliveries are retried a bounded number of times: a failed attempt is
/// followed by a later attempt that is still within the bound, or by giving
/// up at the last attempt; a delivered message is not sent again.
pub proof fn law_delivery_retries_are_bounded(attempt: u32)
    requires
        1 <= attempt <= MAX_DELIVERY_ATTEMPTS,
    ensures
        spec_delivery_step(attempt, true) == DeliveryStep::Delivered,
        spec_delivery_step(attempt, false) matches DeliveryStep::Retry(next) ==> attempt < next <= MAX_DELIVERY_ATTEMPTS,
        attempt == MAX_DELIVERY_ATTEMPTS ==> spec_delivery_step(attempt, false) == DeliveryStep::GiveUp,
{
}

/// The chat id a group announcement is written to; an announcement needs
/// the target's chat id.
pub fn announcement_chat_id(target: &FeishuBotTarget) -> (r: Result<&str, &'static str>)
    ensures
        match target.chat_id {
            Some(c) => r matches Ok(s) && s@ == c@,
            None => r matches Err(m) && m@ == "Feishu target is missing chat_id for group announcement"@,
        },
{
    match &target.chat_id {
        Some(c) => Ok(c.as_str()),
        None => Err("Feishu target is missing chat_id for group announcement"),
    }
}

/// The session a conversation uses: its own, or `fresh` when it has none.
pub fn conversation_session_id(session_id: Option<u128>, fresh: u128) -> (r: u128)
    ensures
        r == match session_id {
            Some(s) => s,
            None => fresh,
        },
{
    match session_id {
        Some(s) => s,
        None => fresh,
    }
}

/// Whether the conversation must be repointed at `chosen`.
pub fn conversation_needs_session_update(session_id: Option<u128>, chosen: u128) -> (r: bool)
    ensures
        r == (session_id != Some(chosen)),
{
    match session_id {
        Some(s) => s != chosen,
        None => true,
    }
}

/// How a binding's chat conversation gets its fixed session.
#[derive(Debug, Clone, Copy, PartialEq, Eq, Structural)]
pub enum ChatSessionPlan {
    /// The conversation exists with its session: use both as they are.
    Reuse { conversation_id: u128, session_id: u128 },
    /// The conversation exists without a session: give it this one.
    Repoint { conversation_id: u128, session_id: u128 },
    /// There is no conversation yet: create one with this session.
    Create { session_id: u128 },
}

/// The plan for a binding whose conversation is `existing` (`None` when
/// there is none, its id and session otherwise); `fresh` is the session to
/// use when none is recorded.
pub open spec fn spec_chat_session_plan(existing: Option<(u128, Option<u128>)>, fresh: u128) -> ChatSessionPlan {
    match existing {
        Some((c, Some(s))) => ChatSessionPlan::Reuse { conversation_id: c, session_id: s },
        Some((c, None)) => ChatSessionPlan::Repoint { conversation_id: c, session_id: fresh },
        None => ChatSessionPlan::Create { session_id: fresh },
    }
}

/// The session a plan settles on.
pub open spec fn spec_planned_session(plan: ChatSessionPlan) -> u128 {
    match plan {
        ChatSessionPlan::Reuse { session_id, .. } => session_id,
        ChatSessionPlan::Repoint { session_id, .. } => session_id,
        ChatSessionPlan::Create { session_id } => session_id,
    }
}

/// The conversation a plan keeps; `None` when it creates one.
pub open spec fn spec_planned_conversation(plan: ChatSessionPlan) -> Option<u128> {
    match plan {
        ChatSessionPlan::Reuse { conversation_id, .. } => Some(conversation_id),
        ChatSessionPlan::Repoint { conversation_id, .. } => Some(conversation_id),
        ChatSessionPlan::Create { .. } => None,
    }
}

/// A binding's conversation keeps one fixed session: an existing
/// conversation is kept with its session, one without a session gets
/// `fresh`, and a missing one is created with `fresh`.
pub fn plan_chat_session(existing: Option<&FeishuConversation>, fresh: u128) -> (r: ChatSessionPlan)
    ensures
        r == spec_chat_session_plan(
            match existing {
                Some(c) => Some((c.id, c.session_id)),
                None => None,
            },
            fresh,
        ),
{
    match existing {
        Some(c) => match c.session_id {
            Some(s) => ChatSessionPlan::Reuse { conversation_id: c.id, session_id: s },
            None => ChatSessionPlan::Repoint { conversation_id: c.id, session_id: fresh },
        },
        None => ChatSessionPlan::Create { session_id: fresh },
    }
}

/// Looking up a binding's chat session twice gives the same conversation
/// and the same session: once a plan is carried out (a created conversation
/// getting the id `created_id`), the conversation holds the planned session,
/// and the next lookup reuses both whatever fresh session it is offered; an
/// existing conversation is never replaced, nor an existing session.
pub proof fn law_chat_session_is_fixed(
    existing: Option<(u128, Option<u128>)>,
    fresh: u128,
    created_id: u128,
    later_fresh: u128,
)
    ensures
        ({
            let first = spec_chat_session_plan(existing, fresh);
            let row = match spec_planned_conversation(first) {
                Some(c) => c,
                None => created_id,
            };
            let session = spec_planned_session(first);
            let second = spec_chat_session_plan(Some((row, Some(session))), later_fresh);
            &&& second == ChatSessionPlan::Reuse { conversation_id: row, session_id: session }
            &&& existing matches Some((c, _)) ==> row == c
            &&& existing matches Some((_, Some(s))) ==> session == s
        }),
{
}

/// A storage error that reports a uniqueness violation (a concurrent insert
/// of the same row, or a duplicate name).
pub fn is_unique_violation(error_message: &str) -> (r: bool)
    ensures
        r == crate::text::contains_seq(error_message@, "UNIQUE constraint failed"@),
{
    str_contains(error_message, "UNIQUE constraint failed")
}

} // verus!
