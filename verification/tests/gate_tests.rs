use vida::access::{AccessAction, AccessResource, ActorRole};
use vida::json::JsonValue;
use vida::permissions::{PermissionResult, PermissionType};
use vida::tool_gate::{
    access_outcome, approval_outcome, classify_tool_resource, extract_tool_path,
    infer_tool_permission, no_longer_waiting, permission_outcome, ApprovalAnswer, GateOutcome,
    PendingApprovals,
};

#[test]
fn test_infer_tool_permission_read() {
    assert_eq!(infer_tool_permission("read_file"), PermissionType::FileRead);
}

#[test]
fn test_infer_tool_permission_write() {
    assert_eq!(infer_tool_permission("write_file"), PermissionType::FileWrite);
}

#[test]
fn test_infer_tool_permission_network() {
    assert_eq!(infer_tool_permission("fetch_url"), PermissionType::NetworkAccess);
}

#[test]
fn permission_fallback_is_shell() {
    assert_eq!(infer_tool_permission("do_it"), PermissionType::ShellExecute);
    assert_eq!(infer_tool_permission("LIST_DIR"), PermissionType::FileRead);
}

#[test]
fn tool_paths() {
    let j = |t: &str| JsonValue::parse(t).unwrap();
    assert_eq!(extract_tool_path(&j(r#"{"file":"a","path":"b"}"#)).as_deref(), Some("b"));
    assert_eq!(extract_tool_path(&j(r#"{"filepath":"c"}"#)).as_deref(), Some("c"));
    assert_eq!(extract_tool_path(&j(r#"{"path":1,"file":"a"}"#)), None);
    assert_eq!(extract_tool_path(&j("[]")), None);
}

#[test]
fn tool_resources() {
    assert_eq!(classify_tool_resource(Some("/w"), "/tmp", None), AccessResource::ProjectFiles);
    assert_eq!(classify_tool_resource(Some("/w"), "/tmp", Some("src/a.rs")), AccessResource::CriticalCode);
    assert_eq!(classify_tool_resource(Some("/w"), "/tmp", Some("notes.md")), AccessResource::ProjectFiles);
    assert_eq!(classify_tool_resource(None, "/tmp", Some("/etc/passwd")), AccessResource::SystemFiles);
    assert_eq!(
        classify_tool_resource(None, "/tmp", Some("/tmp/vida-manual-access/x")),
        AccessResource::ProjectFiles
    );
}

#[test]
fn gate_outcomes() {
    assert!(matches!(access_outcome(None, AccessAction::Read, AccessResource::ProjectFiles),
        GateOutcome::Refuse(m) if m == "Authentication required"));
    assert!(matches!(
        access_outcome(Some(ActorRole::Operator), AccessAction::Modify, AccessResource::IaConfig),
        GateOutcome::Refuse(m) if m == "Access denied for Modify IaConfig by Operator"
    ));
    assert!(matches!(
        access_outcome(Some(ActorRole::SuperAdmin), AccessAction::Delete, AccessResource::CriticalCode),
        GateOutcome::AskHuman
    ));
    assert!(matches!(permission_outcome(PermissionResult::Denied, "call_mcp_tool"),
        GateOutcome::Refuse(m) if m == "Permission denied for action 'call_mcp_tool'"));
    assert_eq!(
        approval_outcome(ApprovalAnswer::TimedOut, "r1", "x").unwrap_err(),
        "Permission request 'r1' timed out after 120s"
    );
    assert!(approval_outcome(ApprovalAnswer::Approved, "r1", "x").is_ok());
}

#[test]
fn pending_approvals_answered_once() {
    let mut pending: PendingApprovals<u32> = PendingApprovals::new();
    pending.add("r1", 7);
    pending.add("r2", 9);
    assert_eq!(pending.answer("r1"), Ok(7));
    assert_eq!(pending.answer("r1"), Err("Unknown permission request: r1".to_string()));
    pending.expire("r2");
    assert_eq!(pending.answer("r2"), Err("Unknown permission request: r2".to_string()));
    assert_eq!(no_longer_waiting("r3"), "Permission request r3 is no longer waiting");
}
