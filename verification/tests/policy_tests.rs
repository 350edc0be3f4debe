use yoakore::hook::HookResult;
use yoakore::policy::{approval_hook_result, record_answer, ApprovalPolicy, Decision, SessionApprovals};

#[test]
fn tools_without_rules_are_approved() {
    let policy = ApprovalPolicy::require_approval(vec!["shell".to_string()]);
    let approvals = SessionApprovals::new();
    assert_eq!(policy.decide("read_file", &approvals), Decision::Approve);
    assert_eq!(policy.decide("shell", &approvals), Decision::AskEachTime);
}

#[test]
fn session_approval_is_remembered() {
    let policy = ApprovalPolicy::builder().require("shell").require_session("write").build();
    let mut approvals = SessionApprovals::new();
    assert_eq!(policy.decide("write", &approvals), Decision::AskOnce);
    assert!(!record_answer(Decision::AskOnce, "write", false, &mut approvals));
    assert_eq!(policy.decide("write", &approvals), Decision::AskOnce);
    assert!(record_answer(Decision::AskOnce, "write", true, &mut approvals));
    assert_eq!(policy.decide("write", &approvals), Decision::Approve);
    // A per-call tool is asked about every time, even after a yes.
    assert!(record_answer(Decision::AskEachTime, "shell", true, &mut approvals));
    assert_eq!(policy.decide("shell", &approvals), Decision::AskEachTime);
    assert!(!approvals.contains("shell"));
}

#[test]
fn first_rule_wins() {
    let policy = ApprovalPolicy::builder().require_session("x").require("x").build();
    let mut approvals = SessionApprovals::new();
    approvals.insert("x");
    assert_eq!(policy.decide("x", &approvals), Decision::Approve);
    let all_session = ApprovalPolicy::require_session_approval(vec!["a".to_string(), "b".to_string()]);
    assert_eq!(all_session.decide("b", &SessionApprovals::new()), Decision::AskOnce);
}

#[test]
fn hook_results() {
    assert!(matches!(approval_hook_result(true, "shell"), HookResult::Continue));
    match approval_hook_result(false, "shell") {
        HookResult::Denied(m) => assert_eq!(m, "Tool 'shell' denied by user"),
        _ => panic!("expected a denial"),
    }
}

#[test]
fn approved_calls_proceed_and_remember_nothing() {
    let mut approvals = SessionApprovals::new();
    assert!(record_answer(Decision::Approve, "read", false, &mut approvals));
    assert!(!approvals.contains("read"));
    assert!(!record_answer(Decision::AskEachTime, "shell", false, &mut approvals));
    assert!(!approvals.contains("shell"));
}
