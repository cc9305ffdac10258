//! The HTTP API of the bot settings: request bodies, what they become, and
//! how errors of the service are answered.
use vstd::prelude::*;

use crate::runtime::RuntimeAction;
use crate::text::{contains_seq, opt_string_view, str_contains};
use crate::types::{CreateFeishuBotInput, FeishuValidationResult, UpdateFeishuBotInput};

pub mod workspaces;

verus! {

/// How a failed request is answered.
#[derive(Debug, Clone)]
pub enum ApiError {
    /// 409: the request collides with existing data.
    Conflict(String),
    /// 400: the request cannot be served.
    BadRequest(String),
}

/// The view of an API error: `true` for a conflict, with its message.
pub open spec fn api_error_view(e: ApiError) -> (bool, Seq<char>) {
    match e {
        ApiError::Conflict(m) => (true, m@),
        ApiError::BadRequest(m) => (false, m@),
    }
}

/// An error of the bot service is a conflict when the storage reports a
/// uniqueness violation, a bad request otherwise; its message is kept.
pub fn map_feishu_error(message: &str) -> (r: ApiError)
    ensures
        api_error_view(r) == (contains_seq(message@, "UNIQUE constraint failed"@), message@),
{
    if str_contains(message, "UNIQUE constraint failed") {
        ApiError::Conflict(message.to_string())
    } else {
        ApiError::BadRequest(message.to_string())
    }
}

/// The body of a bot creation.
#[derive(Debug, Clone)]
pub struct CreateFeishuBotRequest {
    pub name: String,
    pub app_id: String,
    pub app_secret: String,
    pub encrypt_key: Option<String>,
    pub verification_token: Option<String>,
    pub tenant_mode: String,
}

impl CreateFeishuBotRequest {
    /// The service input: every field as sent, the app secret always given.
    pub fn into_input(self) -> (r: CreateFeishuBotInput)
        ensures
            r.name@ == self.name@,
            r.app_id@ == self.app_id@,
            opt_string_view(r.app_secret) == Some(self.app_secret@),
            opt_string_view(r.encrypt_key) == opt_string_view(self.encrypt_key),
            opt_string_view(r.verification_token) == opt_string_view(self.verification_token),
            r.tenant_mode@ == self.tenant_mode@,
    {
        CreateFeishuBotInput {
            name: self.name,
            app_id: self.app_id,
            app_secret: Some(self.app_secret),
            encrypt_key: self.encrypt_key,
            verification_token: self.verification_token,
            tenant_mode: self.tenant_mode,
        }
    }
}

/// The body of a bot update; a secret left out keeps the stored one.
#[derive(Debug, Clone)]
pub struct UpdateFeishuBotRequest {
    pub name: String,
    pub app_id: String,
    pub app_secret: Option<String>,
    pub encrypt_key: Option<String>,
    pub verification_token: Option<String>,
    pub tenant_mode: String,
    pub enabled: bool,
}

impl UpdateFeishuBotRequest {
    /// The service input: every field as sent.
    pub fn into_input(self) -> (r: UpdateFeishuBotInput)
        ensures
            r.name@ == self.name@,
            r.app_id@ == self.app_id@,
            opt_string_view(r.app_secret) == opt_string_view(self.app_secret),
            opt_string_view(r.encrypt_key) == opt_string_view(self.encrypt_key),
            opt_string_view(r.verification_token) == opt_string_view(self.verification_token),
            r.tenant_mode@ == self.tenant_mode@,
            r.enabled == self.enabled,
    {
        UpdateFeishuBotInput {
            name: self.name,
            app_id: self.app_id,
            app_secret: self.app_secret,
            encrypt_key: self.encrypt_key,
            verification_token: self.verification_token,
            tenant_mode: self.tenant_mode,
            enabled: self.enabled,
        }
    }
}

/// The answer to a bot validation.
#[derive(Debug, Clone)]
pub struct ValidateFeishuBotResponse {
    pub validation: FeishuValidationResult,
}

/// A command sent to a workspace through one of its bindings.
#[derive(Debug, Clone)]
pub struct FeishuInboundCommandRequest {
    pub event_id: String,
    pub workspace_id: u128,
    pub binding_id: u128,
    pub command: String,
}

/// A card action sent to a workspace through one of its bindings.
#[derive(Debug, Clone)]
pub struct FeishuInboundCardActionRequest {
    pub event_id: String,
    pub workspace_id: u128,
    pub binding_id: u128,
    pub action: String,
}

/// The answer to an inbound command or card action.
#[derive(Debug, Clone)]
pub struct FeishuInboundActionResponse {
    pub message: String,
}

/// A requested bot, or the answer when it does not exist.
pub fn bot_or_not_found<T>(bot: Option<T>) -> (r: Result<T, ApiError>)
    ensures
        bot matches Some(b) ==> r == Ok::<T, ApiError>(b),
        bot is None ==> (r matches Err(e) && api_error_view(e) == (false, "Feishu bot not found"@)),
{
    match bot {
        Some(b) => Ok(b),
        None => Err(ApiError::BadRequest("Feishu bot not found".to_string())),
    }
}

/// After an update an enabled bot's runtime is (re)started and a disabled
/// bot's runtime is stopped.
pub fn runtime_action_after_update(enabled: bool) -> (r: RuntimeAction)
    ensures
        r == (if enabled { RuntimeAction::Start } else { RuntimeAction::Stop }),
{
    if enabled {
        RuntimeAction::Start
    } else {
        RuntimeAction::Stop
    }
}

} // verus!
