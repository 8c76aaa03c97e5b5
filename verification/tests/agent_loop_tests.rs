use vida::agent_loop::{
    build_fallback_tool_prompt, flatten_tool_result, format_tool_call_tag, format_tool_result_tag,
    parse_tagged_tool_calls, strip_tool_markup, AgentLoop, AgentLoopResult, AgentStep,
    ToolExecutionRecord, MAX_TOOL_ITERATIONS, TOOL_CALL_TIMEOUT_SECS,
};
use vida::json::JsonValue;
use vida::mcp::{McpError, McpTool, McpToolResult, McpToolResultContent};
use vida::providers::{ChatMessage, ChatRole, CompletionResponse, ToolCall};

fn json(text: &str) -> JsonValue {
    JsonValue::parse(text).unwrap()
}

fn reply(content: &str) -> CompletionResponse {
    CompletionResponse {
        content: content.to_string(),
        model: "mock".to_string(),
        prompt_tokens: 1,
        completion_tokens: 1,
        total_tokens: 2,
        tool_calls: vec![],
    }
}

fn text_result(text: &str, is_error: bool) -> McpToolResult {
    McpToolResult {
        content: vec![McpToolResultContent { content_type: "text".to_string(), text: text.to_string() }],
        is_error,
    }
}

fn read_file_tool() -> McpTool {
    McpTool {
        name: "read_file".to_string(),
        description: "Read a file".to_string(),
        input_schema: json(r#"{"type":"object","properties":{"path":{"type":"string"}},"required":["path"]}"#),
        server_name: "fs".to_string(),
    }
}

fn user(text: &str) -> ChatMessage {
    ChatMessage { role: ChatRole::User, content: text.to_string(), tool_call_id: None, name: None }
}

#[test]
fn test_parse_tagged_tool_calls() {
    let content = r#"<tool_call>{"id":"call_1","name":"read_file","arguments":{"path":"/tmp/a"}}</tool_call>"#;
    let calls = parse_tagged_tool_calls(content).unwrap();
    assert_eq!(calls.len(), 1);
    assert_eq!(calls[0].name, "read_file");
    assert_eq!(calls[0].arguments.get_str("path").unwrap(), "/tmp/a");
}

#[test]
fn test_tool_call_timeout_constant() {
    assert_eq!(TOOL_CALL_TIMEOUT_SECS, 30);
}

#[test]
fn test_rendered_content_contains_tool_blocks() {
    let result = AgentLoopResult {
        response: reply("Final answer"),
        records: vec![ToolExecutionRecord {
            call: ToolCall {
                id: "call_1".to_string(),
                name: "read_file".to_string(),
                arguments: json(r#"{"path":"/tmp/a"}"#),
            },
            result: text_result("hello", false),
        }],
    };

    let rendered = result.rendered_content();
    assert!(rendered.contains("<tool_call>"));
    assert!(rendered.contains("<tool_result"));
    assert!(rendered.contains("Final answer"));
}

#[test]
fn rendered_content_exact() {
    let result = AgentLoopResult {
        response: reply("  before <tool_call>{}</tool_call> after  "),
        records: vec![ToolExecutionRecord {
            call: ToolCall {
                id: "c".to_string(),
                name: "t".to_string(),
                arguments: json(r#"{"b":1,"a":2}"#),
            },
            result: text_result("out", true),
        }],
    };
    assert_eq!(
        result.rendered_content(),
        "<tool_call>{\"arguments\":{\"a\":2,\"b\":1},\"id\":\"c\",\"name\":\"t\"}</tool_call>\n<tool_result name=\"t\" error=\"true\">out</tool_result>\nbefore  after"
    );
}

#[test]
fn parse_tagged_calls_numbers_calls_without_id() {
    let content = "x <tool_call>{\"name\":\"a\"}</tool_call> y <tool_call> {\"name\":\"b\",\"args\":{\"k\":1}} </tool_call><tool_call>{\"name\":\"c\"";
    let calls = parse_tagged_tool_calls(content).unwrap();
    assert_eq!(calls.len(), 2);
    assert_eq!(calls[0].id, "call_1");
    assert_eq!(calls[0].arguments, JsonValue::empty_object());
    assert_eq!(calls[1].id, "call_2");
    assert_eq!(calls[1].name, "b");
    assert_eq!(calls[1].arguments, json(r#"{"k":1}"#));
}

#[test]
fn parse_tagged_calls_errors() {
    let missing = parse_tagged_tool_calls("<tool_call>{\"id\":\"1\"}</tool_call>").unwrap_err();
    assert_eq!(missing, "Tool call missing 'name'");
    let bad = parse_tagged_tool_calls("<tool_call>not json</tool_call>").unwrap_err();
    assert!(bad.starts_with("Invalid <tool_call> payload: "));
    assert!(parse_tagged_tool_calls("no calls here").unwrap().is_empty());
}

#[test]
fn strip_markup_cases() {
    assert_eq!(strip_tool_markup("a<tool_call>x</tool_call>b"), "ab");
    assert_eq!(strip_tool_markup("a<tool_call>unclosed"), "a");
    assert_eq!(strip_tool_markup("plain"), "plain");
}

#[test]
fn result_tags() {
    let r = McpToolResult {
        content: vec![
            McpToolResultContent { content_type: "text".to_string(), text: "one".to_string() },
            McpToolResultContent { content_type: "text".to_string(), text: "two".to_string() },
        ],
        is_error: false,
    };
    assert_eq!(flatten_tool_result(&r), "one\ntwo");
    assert_eq!(
        format_tool_result_tag("read", &r),
        "<tool_result name=\"read\" error=\"false\">one\ntwo</tool_result>"
    );
    assert_eq!(flatten_tool_result(&McpToolResult { content: vec![], is_error: false }), "");
}

#[test]
fn call_tag_sorts_members() {
    let call = ToolCall { id: "call_9".to_string(), name: "n".to_string(), arguments: json(r#"{"x":[1,2]}"#) };
    assert_eq!(
        format_tool_call_tag(&call),
        "<tool_call>{\"arguments\":{\"x\":[1,2]},\"id\":\"call_9\",\"name\":\"n\"}</tool_call>"
    );
}

#[test]
fn fallback_prompt_text() {
    let p = build_fallback_tool_prompt("[]");
    assert!(p.starts_with("You can use tools. Available tools are:\n[]\nIf you need a tool"));
    assert!(p.ends_with("continue normally."));
}

#[test]
fn loop_without_tools_passes_reply_through() {
    let (mut l, step) = AgentLoop::start(vec![user("hi")], &[], "[]", None);
    assert!(matches!(step, AgentStep::Complete));
    assert_eq!(l.messages().len(), 1);
    match l.on_reply(reply("Direct answer")) {
        AgentStep::Finished(res) => {
            assert_eq!(res.response.content, "Direct answer");
            assert!(res.records.is_empty());
        }
        other => panic!("unexpected step {:?}", other),
    }
}

#[test]
fn loop_runs_tool_then_finishes() {
    let (mut l, _) = AgentLoop::start(vec![user("read it")], &[read_file_tool()], "[]", None);
    assert_eq!(l.messages().len(), 2);
    assert_eq!(l.messages()[1].role, ChatRole::System);
    let step = l.on_reply(reply(
        r#"Let me look. <tool_call>{"id":"call_1","name":"read_file","arguments":{"path":"/tmp/a"}}</tool_call>"#,
    ));
    match step {
        AgentStep::RunTool { name, arguments } => {
            assert_eq!(name, "read_file");
            assert_eq!(arguments.get_str("path").unwrap(), "/tmp/a");
        }
        other => panic!("unexpected step {:?}", other),
    }
    let step = l.tool_finished(Ok(text_result("contents", false)));
    assert!(matches!(step, AgentStep::Complete));
    assert_eq!(l.messages().len(), 5);
    assert_eq!(l.messages()[4].role, ChatRole::Tool);
    assert_eq!(l.messages()[4].content, "contents");
    match l.on_reply(reply("Done")) {
        AgentStep::Finished(res) => {
            assert_eq!(res.records.len(), 1);
            assert_eq!(res.response.content, "Done");
        }
        other => panic!("unexpected step {:?}", other),
    }
}

#[test]
fn loop_unknown_tool_fails_validation() {
    let (mut l, _) = AgentLoop::start(vec![user("x")], &[read_file_tool()], "[]", None);
    match l.on_reply(reply(r#"<tool_call>{"name":"unknown_tool","arguments":{}}</tool_call>"#)) {
        AgentStep::Failed(e) => assert_eq!(
            e.message(),
            "Config: Tool 'unknown_tool' not found in available tools"
        ),
        other => panic!("unexpected step {:?}", other),
    }
}

#[test]
fn loop_records_tool_errors() {
    let (mut l, _) = AgentLoop::start(vec![user("x")], &[read_file_tool()], "[]", None);
    let _ = l.on_reply(reply(r#"<tool_call>{"name":"read_file","arguments":{"path":"a"}}</tool_call>"#));
    let _ = l.tool_finished(Err(McpError::ToolNotFound("read_file".to_string())));
    assert_eq!(l.messages().last().unwrap().content, "Tool execution error: Tool not found: read_file");
}

#[test]
fn loop_gives_up_after_max_iterations() {
    let (mut l, _) = AgentLoop::start(vec![user("x")], &[read_file_tool()], "[]", None);
    let call = r#"<tool_call>{"name":"read_file","arguments":{"path":"a"}}</tool_call>"#;
    let mut last = None;
    for _ in 0..MAX_TOOL_ITERATIONS {
        let step = l.on_reply(reply(call));
        assert!(matches!(step, AgentStep::RunTool { .. }));
        last = Some(l.tool_finished(Ok(text_result("r", false))));
    }
    match last.unwrap() {
        AgentStep::Failed(e) => assert_eq!(e.message(), "Config: Agent loop exceeded 8 tool iterations"),
        other => panic!("unexpected step {:?}", other),
    }
}

fn direct_reply() -> CompletionResponse {
    CompletionResponse {
        content: "Direct answer".to_string(),
        model: "mock".to_string(),
        prompt_tokens: 5,
        completion_tokens: 2,
        total_tokens: 7,
        tool_calls: vec![],
    }
}

#[test]
fn test_agent_loop_no_tools_passthrough() {
    let (mut l, step) = AgentLoop::start(vec![user("Hello")], &[], "[]", None);
    assert!(matches!(step, AgentStep::Complete));
    match l.on_reply(direct_reply()) {
        AgentStep::Finished(result) => {
            assert!(result.records.is_empty());
            assert_eq!(result.response.content, "Direct answer");
            assert_eq!(result.rendered_content(), "Direct answer");
        }
        other => panic!("unexpected step {:?}", other),
    }
}

#[test]
fn test_agent_loop_unknown_tool_fails_validation() {
    let list_files = McpTool {
        name: "list_files".to_string(),
        description: "List files".to_string(),
        input_schema: json(r#"{"type": "object"}"#),
        server_name: "fs".to_string(),
    };
    let (mut l, _) = AgentLoop::start(vec![user("Do something")], &[list_files], "[]", None);
    let response = CompletionResponse {
        content: String::new(),
        model: "mock".to_string(),
        prompt_tokens: 10,
        completion_tokens: 5,
        total_tokens: 15,
        tool_calls: vec![ToolCall {
            id: "call_1".to_string(),
            name: "unknown_tool".to_string(),
            arguments: json(r#"{"key": "value"}"#),
        }],
    };
    match l.on_reply(response) {
        AgentStep::Failed(e) => {
            let err = e.message();
            assert!(err.contains("not found") || err.contains("unknown_tool"), "got: {}", err);
        }
        other => panic!("unexpected step {:?}", other),
    }
}

#[test]
fn test_agent_loop_passthrough_preserves_metadata() {
    let (mut l, _) = AgentLoop::start(vec![user("Hello")], &[], "[]", None);
    match l.on_reply(direct_reply()) {
        AgentStep::Finished(result) => {
            assert_eq!(result.response.model, "mock");
            assert_eq!(result.response.prompt_tokens, 5);
            assert_eq!(result.response.completion_tokens, 2);
            assert_eq!(result.response.total_tokens, 7);
        }
        other => panic!("unexpected step {:?}", other),
    }
}

#[test]
fn loop_with_tools_finishes_with_whole_reply() {
    let (mut l, _) = AgentLoop::start(vec![user("hi")], &[read_file_tool()], "[]", None);
    match l.on_reply(direct_reply()) {
        AgentStep::Finished(result) => {
            assert_eq!(result.response.content, "Direct answer");
            assert_eq!(result.response.model, "mock");
            assert_eq!(result.response.prompt_tokens, 5);
            assert_eq!(result.response.completion_tokens, 2);
            assert_eq!(result.response.total_tokens, 7);
            assert!(result.records.is_empty());
        }
        other => panic!("unexpected step {:?}", other),
    }
}

#[test]
fn loop_runs_native_calls_in_order_and_refuses_a_bad_one() {
    let (mut l, _) = AgentLoop::start(vec![user("x")], &[read_file_tool()], "[]", None);
    let mut response = reply("");
    response.tool_calls = vec![
        ToolCall { id: "a".to_string(), name: "read_file".to_string(), arguments: json(r#"{"path":"one"}"#) },
        ToolCall { id: "b".to_string(), name: "read_file".to_string(), arguments: json(r#"{"path":2}"#) },
    ];
    match l.on_reply(response) {
        AgentStep::RunTool { name, arguments } => {
            assert_eq!(name, "read_file");
            assert_eq!(arguments.get_str("path").unwrap(), "one");
        }
        other => panic!("unexpected step {:?}", other),
    }
    // The reply had no text, so only the call and its result joined.
    assert_eq!(l.messages().len(), 2);
    match l.tool_finished(Ok(text_result("first", false))) {
        AgentStep::Failed(e) => {
            assert!(e.message().starts_with("Config: Invalid arguments for tool 'read_file': "), "{}", e.message())
        }
        other => panic!("unexpected step {:?}", other),
    }
    assert_eq!(l.messages().len(), 4);
    assert_eq!(l.messages()[3].tool_call_id.as_deref(), Some("a"));
}

#[test]
fn loop_with_malformed_tag_fails() {
    let (mut l, _) = AgentLoop::start(vec![user("x")], &[read_file_tool()], "[]", None);
    match l.on_reply(reply("<tool_call>{not json}</tool_call>")) {
        AgentStep::Failed(e) => assert!(e.message().starts_with("Config: Invalid <tool_call> payload: ")),
        other => panic!("unexpected step {:?}", other),
    }
}

#[test]
fn loop_asks_eight_times_then_fails() {
    let (mut l, first) = AgentLoop::start(vec![user("x")], &[read_file_tool()], "[]", None);
    let call = r#"<tool_call>{"name":"read_file","arguments":{"path":"a"}}</tool_call>"#;
    let mut step = first;
    let mut asked = 0;
    loop {
        step = match step {
            AgentStep::Complete => {
                asked += 1;
                l.on_reply(reply(call))
            }
            AgentStep::RunTool { .. } => l.tool_finished(Ok(text_result("r", false))),
            AgentStep::Failed(e) => {
                assert_eq!(e.message(), "Config: Agent loop exceeded 8 tool iterations");
                break;
            }
            AgentStep::Finished(_) => panic!("the model never stopped asking"),
        };
    }
    assert_eq!(asked, 8);
}

#[test]
fn tool_messages_carry_the_call() {
    let (mut l, _) = AgentLoop::start(vec![user("x")], &[read_file_tool()], "[]", None);
    let mut response = reply("");
    response.tool_calls = vec![ToolCall {
        id: "call_7".to_string(),
        name: "read_file".to_string(),
        arguments: json(r#"{"path":"a"}"#),
    }];
    let _ = l.on_reply(response);
    let _ = l.tool_finished(Ok(text_result("body", false)));
    let n = l.messages().len();
    let call = &l.messages()[n - 2];
    let result = &l.messages()[n - 1];
    assert_eq!(call.role, ChatRole::Assistant);
    assert_eq!(call.content, r#"<tool_call>{"arguments":{"path":"a"},"id":"call_7","name":"read_file"}</tool_call>"#);
    assert_eq!(call.tool_call_id.as_deref(), Some("call_7"));
    assert_eq!(call.name.as_deref(), Some("read_file"));
    assert_eq!(result.role, ChatRole::Tool);
    assert_eq!(result.content, "body");
    assert_eq!(result.tool_call_id.as_deref(), Some("call_7"));
    assert_eq!(result.name.as_deref(), Some("read_file"));
}
