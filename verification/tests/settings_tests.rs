use vida::chat::{reply_row, streamed_reply_row, user_message_row};
use vida::agent_loop::AgentLoopResult;
use vida::chat::{loop_reply, send_mode, whole_reply_events, with_member_prompt, SendMode};
use vida::providers::{ChatMessage, CompletionResponse};
use vida::chat::{build_conversation, StreamCollector};
use vida::models::MessageRow;
use vida::permissions::{PermissionMode, PermissionResult, PermissionType};
use vida::providers::{ChatRole, StreamEvent};
use vida::settings::{agent_tool_context, workspace_config_file, AppConfig, WorkspaceConfig, WorkspaceState};

#[test]
fn test_default_config() {
    let config = AppConfig::default();
    assert_eq!(config.language, "en");
    assert_eq!(config.theme, "dark");
}

#[test]
fn default_workspace_config() {
    let config = WorkspaceConfig::default();
    assert_eq!(config.name, "Untitled");
    assert_eq!(config.permission_mode, PermissionMode::Ask);
    assert!(config.default_provider.is_none());
    assert!(config.permissions.file_read);
    assert!(!config.permissions.file_write);
}

#[test]
fn workspace_paths() {
    assert_eq!(workspace_config_file("/home/u/proj").display(), "/home/u/proj/.vida/config.json");
    let ctx = agent_tool_context(Some("/home/u/proj"), "/tmp", "team-1");
    assert_eq!(ctx.sandbox_root.display(), "/home/u/proj/.vida/sandboxes/team-1");
    let ctx = agent_tool_context(None, "/tmp", "s1");
    assert_eq!(ctx.sandbox_root.display(), "/tmp/vida-ai/sandboxes/s1");
    assert!(ctx.workspace_root.is_none());
}

#[test]
fn set_permission_mode_updates_settings() {
    let mut ws = WorkspaceState::new();
    assert!(!ws.set_permission_mode(PermissionMode::Yolo));
    assert_eq!(ws.permission_mode(), PermissionMode::Yolo);
    assert_eq!(ws.config().permission_mode, PermissionMode::Yolo);
    assert_eq!(ws.check_permission(PermissionType::ShellExecute), PermissionResult::Allowed);
    ws.open("/p", WorkspaceConfig::default());
    assert_eq!(ws.check_permission(PermissionType::ShellExecute), PermissionResult::NeedsApproval);
    assert!(ws.set_permission_mode(PermissionMode::Sandbox));
    assert_eq!(ws.check_permission(PermissionType::ShellExecute), PermissionResult::Denied);
}

fn stored(role: &str, content: &str) -> MessageRow {
    MessageRow {
        id: "m".to_string(),
        session_id: "s".to_string(),
        role: role.to_string(),
        content: content.to_string(),
        token_count: None,
        created_at: String::new(),
        agent_id: None,
        agent_name: None,
        agent_color: None,
    }
}

#[test]
fn conversations_from_history() {
    let history = vec![stored("user", "q"), stored("assistant", "a"), stored("tool", "t")];
    let msgs = build_conversation(&Some("sys".to_string()), &Some(String::new()), &history, "next");
    assert_eq!(msgs.len(), 5);
    assert_eq!(msgs[0].role, ChatRole::System);
    assert_eq!(msgs[1].role, ChatRole::User);
    assert_eq!(msgs[3].role, ChatRole::Assistant);
    assert_eq!(msgs[4].content, "next");
    let msgs = build_conversation(&None, &Some("team".to_string()), &[], "x");
    assert_eq!(msgs.len(), 2);
    assert_eq!(msgs[0].content, "team");
}

#[test]
fn stream_collection() {
    let mut c = StreamCollector::new();
    assert!(c.take(&StreamEvent::Token { content: "he".to_string() }));
    c.take(&StreamEvent::Error { error: "x".to_string() });
    c.take(&StreamEvent::Token { content: "llo".to_string() });
    assert!(!c.is_done());
    c.take(&StreamEvent::Done);
    assert!(c.is_done());
    assert_eq!(c.text(), "hello");
}

fn named_config(name: &str, mode: PermissionMode) -> WorkspaceConfig {
    let mut c = WorkspaceConfig::default();
    c.name = name.to_string();
    c.default_model = Some("llama3".to_string());
    c.permission_mode = mode;
    c
}

#[test]
fn workspace_settings_put_in_force() {
    let mut ws = WorkspaceState::new();
    assert_eq!(ws.config().name, "Untitled");
    ws.open("/p", named_config("Original", PermissionMode::Ask));
    assert_eq!(ws.config().name, "Original");
    assert!(ws.set_config(named_config("Updated", PermissionMode::Yolo)));
    assert_eq!(ws.config().name, "Updated");
    assert_eq!(ws.config().default_model.as_deref(), Some("llama3"));
    assert_eq!(ws.permission_mode(), PermissionMode::Yolo);
}

#[test]
fn sending_decisions() {
    assert_eq!(send_mode(0), SendMode::Direct);
    assert_eq!(send_mode(3), SendMode::WithTools);
    let result = AgentLoopResult {
        response: CompletionResponse {
            content: "  Final  ".to_string(),
            model: "mock".to_string(),
            prompt_tokens: 5,
            completion_tokens: 2,
            total_tokens: 7,
            tool_calls: vec![],
        },
        records: vec![],
    };
    let r = loop_reply(result);
    assert_eq!(r.content, "Final");
    assert_eq!(r.model, "mock");
    assert_eq!((r.prompt_tokens, r.completion_tokens, r.total_tokens), (5, 2, 7));
    let events = whole_reply_events(&"hi".to_string());
    assert_eq!(events.len(), 2);
    assert!(matches!(&events[0], StreamEvent::Token { content } if content == "hi"));
    assert!(matches!(events[1], StreamEvent::Done));
    assert_eq!(whole_reply_events(&String::new()).len(), 1);
    let mut c = StreamCollector::new();
    assert!(c.reply_to_store().is_none());
    c.take(&StreamEvent::Token { content: "ab".to_string() });
    assert_eq!(c.reply_to_store().as_deref(), Some("ab"));
    let msgs = vec![ChatMessage {
        role: ChatRole::Tool,
        content: "r".to_string(),
        tool_call_id: Some("call_1".to_string()),
        name: Some("read_file".to_string()),
    }];
    let out = with_member_prompt(&msgs, &Some("be brief".to_string()));
    assert_eq!(out.len(), 2);
    assert_eq!(out[0].tool_call_id.as_deref(), Some("call_1"));
    assert_eq!(out[0].name.as_deref(), Some("read_file"));
    assert_eq!(out[1].role, ChatRole::System);
}

#[test]
fn stored_rows() {
    let u = user_message_row("m1".to_string(), "s1", "hello");
    assert_eq!((u.id.as_str(), u.session_id.as_str(), u.role.as_str(), u.content.as_str()), ("m1", "s1", "user", "hello"));
    assert!(u.token_count.is_none() && u.agent_id.is_none());
    let response = CompletionResponse {
        content: "answer".to_string(),
        model: "mock".to_string(),
        prompt_tokens: 5,
        completion_tokens: 2,
        total_tokens: 7,
        tool_calls: vec![],
    };
    let r = reply_row("m2".to_string(), "s1", &response);
    assert_eq!((r.role.as_str(), r.content.as_str(), r.token_count), ("assistant", "answer", Some(7)));
    let a = streamed_reply_row(
        "m3".to_string(),
        "s1",
        "streamed".to_string(),
        Some(("agent1".to_string(), "Llama".to_string(), "#fff".to_string())),
    );
    assert_eq!(a.agent_id.as_deref(), Some("agent1"));
    assert_eq!(a.agent_name.as_deref(), Some("Llama"));
    assert_eq!(a.agent_color.as_deref(), Some("#fff"));
    assert_eq!(a.content, "streamed");
    assert!(streamed_reply_row("m4".to_string(), "s1", "x".to_string(), None).agent_id.is_none());
}
