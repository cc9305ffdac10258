use feishu_bot::session_follow_up::{
    plan_session_follow_up, CodingAgentAction, RetryReset, SessionFollowUpError, SessionFollowUpRequest,
    SessionHistory,
};

fn request(executor: &str, retry: Option<u128>) -> SessionFollowUpRequest {
    SessionFollowUpRequest {
        prompt: "continue".to_string(),
        executor: executor.to_string(),
        retry_process_id: retry,
        force_when_dirty: None,
        perform_git_reset: None,
    }
}

fn history(session_executor: Option<&str>, latest: Option<&str>, turn: Option<(&str, Option<&str>)>, dir: Option<&str>) -> SessionHistory {
    SessionHistory {
        session_executor: session_executor.map(str::to_string),
        latest_process_executor: latest.map(str::to_string),
        latest_turn: turn.map(|(s, m)| (s.to_string(), m.map(str::to_string))),
        agent_working_dir: dir.map(str::to_string),
    }
}

#[test]
fn follow_up_of_a_fresh_session_starts_the_agent_and_records_the_executor() {
    let plan = plan_session_follow_up(&history(None, None, None, Some("")), &request("CLAUDE_CODE", None)).expect("plan");
    assert_eq!(plan.record_executor, Some("CLAUDE_CODE".to_string()));
    assert_eq!(plan.reset, None);
    match plan.action {
        CodingAgentAction::Initial { prompt, working_dir } => {
            assert_eq!(prompt, "continue");
            assert_eq!(working_dir, None);
        }
        CodingAgentAction::FollowUp { .. } => panic!("no earlier turn"),
    }
}

#[test]
fn follow_up_continues_the_latest_turn() {
    let h = history(Some("CODEX"), None, Some(("agent-session", Some("msg-4"))), Some("repo"));
    let plan = plan_session_follow_up(&h, &request("CODEX", None)).expect("plan");
    assert_eq!(plan.record_executor, None);
    match plan.action {
        CodingAgentAction::FollowUp { session_id, reset_to_message_id, working_dir, .. } => {
            assert_eq!(session_id, "agent-session");
            assert_eq!(reset_to_message_id, None);
            assert_eq!(working_dir, Some("repo".to_string()));
        }
        CodingAgentAction::Initial { .. } => panic!("there is a turn to follow"),
    }
}

#[test]
fn retry_resets_the_session_with_default_options() {
    let h = history(Some("CODEX"), Some("CODEX"), Some(("s", Some("msg-1"))), None);
    let plan = plan_session_follow_up(&h, &request("CODEX", Some(99))).expect("plan");
    assert_eq!(plan.reset, Some(RetryReset { process_id: 99, perform_git_reset: true, force_when_dirty: false }));
    match plan.action {
        CodingAgentAction::FollowUp { reset_to_message_id, .. } => assert_eq!(reset_to_message_id, Some("msg-1".to_string())),
        CodingAgentAction::Initial { .. } => panic!("there is a turn to follow"),
    }
    let mut r = request("CODEX", Some(99));
    r.force_when_dirty = Some(true);
    r.perform_git_reset = Some(false);
    let plan = plan_session_follow_up(&h, &r).expect("plan");
    assert_eq!(plan.reset, Some(RetryReset { process_id: 99, perform_git_reset: false, force_when_dirty: true }));
}

#[test]
fn another_executor_than_the_sessions_is_refused() {
    match plan_session_follow_up(&history(Some("CODEX"), Some("CLAUDE_CODE"), None, None), &request("CODEX", None)) {
        Err(SessionFollowUpError::ExecutorMismatch { expected, actual }) => {
            assert_eq!(expected, "CLAUDE_CODE");
            assert_eq!(actual, "CODEX");
        }
        _ => panic!("the latest process decides the executor"),
    }
    assert!(plan_session_follow_up(&history(Some("CODEX"), None, None, None), &request("GEMINI", None)).is_err());
}
