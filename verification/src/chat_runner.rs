//! Handing chat messages from Feishu to a workspace's coding agent.
use vstd::prelude::*;

verus! {

/// Submits a chat message to the coding agent of a workspace session.
pub trait FeishuChatRunner {
    fn submit_workspace_chat_message(&self, session_id: u128, workspace_id: u128, prompt: &str) -> Result<(), String>;
}

/// A runner that accepts every message and does nothing with it.
#[derive(Debug, Default)]
pub struct NoopFeishuChatRunner;

impl FeishuChatRunner for NoopFeishuChatRunner {
    fn submit_workspace_chat_message(&self, session_id: u128, workspace_id: u128, prompt: &str) -> (r: Result<(), String>)
        ensures
            r is Ok,
    {
        Ok(())
    }
}

/// A chat message may go to a session only when the session exists and
/// belongs to the workspace the message is for. `session_workspace_id` is
/// the workspace of the session, `None` when there is no such session.
pub fn check_chat_session(session_workspace_id: Option<u128>, workspace_id: u128) -> (r: Result<(), String>)
    ensures
        session_workspace_id is None ==> (r matches Err(m) && m@ == "Feishu chat session not found"@),
        session_workspace_id matches Some(w) && w != workspace_id ==> (r matches Err(m)
            && m@ == "Feishu chat session does not belong to workspace"@),
        session_workspace_id == Some(workspace_id) ==> r is Ok,
{
    match session_workspace_id {
        None => Err("Feishu chat session not found".to_string()),
        Some(w) => if w == workspace_id {
            Ok(())
        } else {
            Err("Feishu chat session does not belong to workspace".to_string())
        },
    }
}

} // verus!
