//! Starting a follow-up turn of a coding-agent session: the checks and the
//! choice of the action the executor runs.
use vstd::prelude::*;

use crate::text::{opt_string_view, str_eq};

verus! {

/// A follow-up prompt for a session. `executor` names the executor of the
/// configuration the prompt is to run with.
#[derive(Debug, Clone)]
pub struct SessionFollowUpRequest {
    pub prompt: String,
    pub executor: String,
    pub retry_process_id: Option<u128>,
    pub force_when_dirty: Option<bool>,
    pub perform_git_reset: Option<bool>,
}

/// What the session is known to have run so far.
#[derive(Debug, Clone)]
pub struct SessionHistory {
    /// The executor recorded on the session, if any.
    pub session_executor: Option<String>,
    /// The executor of the session's latest execution process, if any.
    pub latest_process_executor: Option<String>,
    /// The agent's session id and last message id of its latest turn, if any.
    pub latest_turn: Option<(String, Option<String>)>,
    /// The working directory configured for the agent.
    pub agent_working_dir: Option<String>,
}

/// Why a follow-up cannot start.
#[derive(Debug, Clone)]
pub enum SessionFollowUpError {
    /// The session's workspace does not exist.
    WorkspaceNotFound,
    /// The session runs with another executor than the one requested.
    ExecutorMismatch { expected: String, actual: String },
}

/// The action the coding agent runs.
#[derive(Debug, Clone)]
pub enum CodingAgentAction {
    /// Continue the agent's session.
    FollowUp { prompt: String, session_id: String, reset_to_message_id: Option<String>, working_dir: Option<String> },
    /// Start the agent afresh.
    Initial { prompt: String, working_dir: Option<String> },
}

/// The process to reset the session to before the follow-up runs, with
/// whether to reset git (default yes) and whether to force a dirty tree
/// (default no).
#[derive(Debug, Clone, Copy, PartialEq, Eq, Structural)]
pub struct RetryReset {
    pub process_id: u128,
    pub perform_git_reset: bool,
    pub force_when_dirty: bool,
}

/// What starting the follow-up does.
#[derive(Debug, Clone)]
pub struct FollowUpPlan {
    /// The executor to record on the session, when it had none.
    pub record_executor: Option<String>,
    pub reset: Option<RetryReset>,
    pub action: CodingAgentAction,
}

/// The executor the session is bound to: that of its latest process, else the one recorded on it.
pub open spec fn spec_expected_executor(h: SessionHistory) -> Option<Seq<char>> {
    match opt_string_view(h.latest_process_executor) {
        Some(e) => Some(e),
        None => opt_string_view(h.session_executor),
    }
}

/// A configured working directory is used when it is not empty.
pub open spec fn spec_working_dir(h: SessionHistory) -> Option<Seq<char>> {
    match opt_string_view(h.agent_working_dir) {
        Some(d) => if d.len() > 0 { Some(d) } else { None },
        None => None,
    }
}

pub open spec fn spec_reset(r: SessionFollowUpRequest) -> Option<RetryReset> {
    match r.retry_process_id {
        Some(p) => Some(RetryReset {
            process_id: p,
            perform_git_reset: match r.perform_git_reset { Some(b) => b, None => true },
            force_when_dirty: match r.force_when_dirty { Some(b) => b, None => false },
        }),
        None => None,
    }
}

/// The action as plain values: `Ok((session_id, reset_to_message_id))` for a
/// follow-up, `Err(())` for an initial request; prompt and working dir apart.
pub open spec fn spec_action_shape(a: CodingAgentAction) -> (Seq<char>, Option<Seq<char>>, Result<(Seq<char>, Option<Seq<char>>), ()>) {
    match a {
        CodingAgentAction::FollowUp { prompt, session_id, reset_to_message_id, working_dir } => (prompt@, opt_string_view(working_dir), Ok((session_id@, opt_string_view(reset_to_message_id)))),
        CodingAgentAction::Initial { prompt, working_dir } => (prompt@, opt_string_view(working_dir), Err(())),
    }
}

/// The action the session's history calls for: a follow-up of its latest
/// turn (reset to that turn's message when retrying), else an initial request.
pub open spec fn spec_action(h: SessionHistory, r: SessionFollowUpRequest) -> (Seq<char>, Option<Seq<char>>, Result<(Seq<char>, Option<Seq<char>>), ()>) {
    match h.latest_turn {
        Some(t) => (r.prompt@, spec_working_dir(h), Ok((t.0@, if r.retry_process_id is Some { opt_string_view(t.1) } else { None }))),
        None => (r.prompt@, spec_working_dir(h), Err(())),
    }
}

fn clone_opt(o: &Option<String>) -> (r: Option<String>)
    ensures
        opt_string_view(r) == opt_string_view(*o),
{
    match o {
        Some(s) => Some(s.clone()),
        None => None,
    }
}

/// Plans a follow-up: the requested executor must be the session's, the
/// session records the executor when it had none, a retry resets the session
/// first, and the agent follows up on its latest turn or starts afresh.
pub fn plan_session_follow_up(history: &SessionHistory, request: &SessionFollowUpRequest) -> (r: Result<FollowUpPlan, SessionFollowUpError>)
    ensures
        match spec_expected_executor(*history) {
            Some(e) => e != request.executor@ ==> (r matches Err(SessionFollowUpError::ExecutorMismatch { expected, actual })
                && expected@ == e && actual@ == request.executor@),
            None => true,
        },
        (spec_expected_executor(*history) matches Some(e) ==> e == request.executor@) ==> (r matches Ok(plan)
            && opt_string_view(plan.record_executor) == (if history.session_executor is None { Some(request.executor@) } else { None })
            && plan.reset == spec_reset(*request)
            && spec_action_shape(plan.action) == spec_action(*history, *request)),
{
    let expected = match &history.latest_process_executor {
        Some(e) => Some(e),
        None => match &history.session_executor {
            Some(e) => Some(e),
            None => None,
        },
    };
    if let Some(e) = expected {
        if !str_eq(e.as_str(), request.executor.as_str()) {
            return Err(SessionFollowUpError::ExecutorMismatch { expected: e.clone(), actual: request.executor.clone() });
        }
    }
    let record_executor = match &history.session_executor {
        Some(_) => None,
        None => Some(request.executor.clone()),
    };
    let reset = match request.retry_process_id {
        Some(p) => Some(RetryReset {
            process_id: p,
            perform_git_reset: match request.perform_git_reset { Some(b) => b, None => true },
            force_when_dirty: match request.force_when_dirty { Some(b) => b, None => false },
        }),
        None => None,
    };
    let working_dir = match &history.agent_working_dir {
        Some(d) => if d.as_str().is_empty() { None } else { Some(d.clone()) },
        None => None,
    };
    let action = match &history.latest_turn {
        Some(t) => CodingAgentAction::FollowUp {
            prompt: request.prompt.clone(),
            session_id: t.0.clone(),
            reset_to_message_id: if request.retry_process_id.is_some() { clone_opt(&t.1) } else { None },
            working_dir,
        },
        None => CodingAgentAction::Initial { prompt: request.prompt.clone(), working_dir },
    };
    Ok(FollowUpPlan { record_executor, reset, action })
}

} // verus!
