use vida::access::{
    authorize_agent_tool_call, classify_path, evaluate_access, infer_tool_action, AccessAction,
    AccessDecision, AccessRequest, AccessResource, ActorRole, AgentToolContext,
};
use vida::fspath::FsPath;
use vida::json::JsonValue;

fn context() -> AgentToolContext {
    AgentToolContext {
        workspace_root: Some(FsPath::parse("/workspace")),
        sandbox_root: FsPath::parse("/workspace/.vida/sandboxes/team-a"),
    }
}

fn json(text: &str) -> JsonValue {
    JsonValue::parse(text).unwrap()
}

#[test]
fn test_super_admin_needs_approval_for_team_config() {
    let decision = evaluate_access(&AccessRequest {
        actor: ActorRole::SuperAdmin,
        action: AccessAction::Modify,
        resource: AccessResource::TeamConfig,
    });
    assert_eq!(decision, AccessDecision::RequireHumanApproval);
}

#[test]
fn test_operator_denied_ia_config() {
    let decision = evaluate_access(&AccessRequest {
        actor: ActorRole::Operator,
        action: AccessAction::Modify,
        resource: AccessResource::IaConfig,
    });
    assert_eq!(decision, AccessDecision::Deny);
}

#[test]
fn test_agent_denied_shell() {
    let result = authorize_agent_tool_call("exec_shell", &json(r#"{"command":"ls"}"#), &context());
    assert!(result.is_err());
}

#[test]
fn test_agent_write_must_stay_in_sandbox() {
    let result = authorize_agent_tool_call(
        "write_file",
        &json(r#"{"path":"src/main.rs","content":"fn main() {}"}"#),
        &context(),
    );
    assert!(result.is_err());
}

#[test]
fn test_agent_write_in_sandbox_allowed() {
    let result = authorize_agent_tool_call(
        "write_file",
        &json(r#"{"path":"/workspace/.vida/sandboxes/team-a/output.txt","content":"ok"}"#),
        &context(),
    );
    assert!(result.is_ok());
}

#[test]
fn shell_refusal_message() {
    let result = authorize_agent_tool_call("run_script", &json("{}"), &context());
    assert_eq!(result.unwrap_err(), "Agent shell escalation is forbidden");
}

#[test]
fn write_without_path_is_refused() {
    let result = authorize_agent_tool_call("write_file", &json(r#"{"content":"x"}"#), &context());
    assert_eq!(
        result.unwrap_err(),
        "Agent write operation 'write_file' is missing an explicit path and was denied"
    );
}

#[test]
fn write_outside_sandbox_message_names_the_path() {
    let result = authorize_agent_tool_call(
        "write_file",
        &json(r#"{"path":"src/main.rs"}"#),
        &context(),
    );
    assert_eq!(
        result.unwrap_err(),
        "Agent write outside the sandbox is forbidden: /workspace/src/main.rs"
    );
}

#[test]
fn read_outside_scope_is_refused() {
    let result = authorize_agent_tool_call("read_file", &json(r#"{"path":"/etc/passwd"}"#), &context());
    assert_eq!(
        result.unwrap_err(),
        "Agent read outside the project scope is forbidden: /etc/passwd"
    );
}

#[test]
fn read_without_workspace_is_refused() {
    let ctx = AgentToolContext {
        workspace_root: None,
        sandbox_root: FsPath::parse("/tmp/vida-ai/sandboxes/s1"),
    };
    let result = authorize_agent_tool_call("read_file", &json(r#"{"path":"notes.txt"}"#), &ctx);
    assert_eq!(
        result.unwrap_err(),
        "Agent read operation 'read_file' requires an open workspace"
    );
}

#[test]
fn read_of_critical_code_is_denied() {
    let result = authorize_agent_tool_call("read_file", &json(r#"{"path":"src/main.rs"}"#), &context());
    assert_eq!(
        result.unwrap_err(),
        "Agent access denied for CriticalCode on /workspace/src/main.rs"
    );
}

#[test]
fn read_of_plain_project_file_is_allowed() {
    let result = authorize_agent_tool_call("read_file", &json(r#"{"path":"notes.txt"}"#), &context());
    assert!(result.is_ok());
}

#[test]
fn read_of_logs_is_denied_with_resource() {
    let result =
        authorize_agent_tool_call("read_file", &json(r#"{"path":"logs/app.txt"}"#), &context());
    assert_eq!(
        result.unwrap_err(),
        "Agent access denied for LogsAudit on /workspace/logs/app.txt"
    );
}

#[test]
fn paths_in_nested_arrays_are_checked() {
    let result = authorize_agent_tool_call(
        "write_files",
        &json(r#"{"files":[{"path":"/workspace/.vida/sandboxes/team-a/a.txt"},{"path":"/etc/x"}]}"#),
        &context(),
    );
    assert_eq!(result.unwrap_err(), "Agent write outside the sandbox is forbidden: /etc/x");
}

#[test]
fn tool_actions_follow_name_words() {
    assert_eq!(infer_tool_action("Run_Command"), AccessAction::Execute);
    assert_eq!(infer_tool_action("remove_file"), AccessAction::Delete);
    assert_eq!(infer_tool_action("new_note"), AccessAction::Create);
    assert_eq!(infer_tool_action("rename_file"), AccessAction::Modify);
    assert_eq!(infer_tool_action("read_file"), AccessAction::Read);
}

#[test]
fn classify_paths() {
    let ctx = context();
    assert_eq!(
        classify_path(&FsPath::parse("/workspace/.vida/sandboxes/team-a/x.rs"), &ctx),
        AccessResource::ProjectFiles
    );
    assert_eq!(classify_path(&FsPath::parse("/workspace/src/lib.rs"), &ctx), AccessResource::CriticalCode);
    assert_eq!(classify_path(&FsPath::parse("/workspace/Cargo.toml"), &ctx), AccessResource::CriticalCode);
    assert_eq!(classify_path(&FsPath::parse("/workspace/notes.txt"), &ctx), AccessResource::ProjectFiles);
    assert_eq!(classify_path(&FsPath::parse("/var/log/syslog"), &ctx), AccessResource::LogsAudit);
    assert_eq!(classify_path(&FsPath::parse("/etc/hosts"), &ctx), AccessResource::SystemFiles);
}

#[test]
fn agent_policy_table() {
    for action in [AccessAction::Read, AccessAction::Create, AccessAction::Modify, AccessAction::Delete] {
        assert_eq!(
            evaluate_access(&AccessRequest { actor: ActorRole::Agent, action, resource: AccessResource::ProjectFiles }),
            AccessDecision::Allow
        );
    }
    assert_eq!(
        evaluate_access(&AccessRequest {
            actor: ActorRole::Agent,
            action: AccessAction::Execute,
            resource: AccessResource::ProjectFiles
        }),
        AccessDecision::Deny
    );
    assert_eq!(
        evaluate_access(&AccessRequest {
            actor: ActorRole::Architect,
            action: AccessAction::Execute,
            resource: AccessResource::ShellEscalation
        }),
        AccessDecision::RequireHumanApproval
    );
    assert_eq!(
        evaluate_access(&AccessRequest {
            actor: ActorRole::SuperAdmin,
            action: AccessAction::Execute,
            resource: AccessResource::ShellEscalation
        }),
        AccessDecision::Allow
    );
}
