use vida::json::JsonValue;
use vida::provider_formats::{
    extract_system_and_contents, extract_system_and_messages, extract_tool_call_arguments,
    normalize_base_url, openai_content_to_text, parse_openai_tool_calls, to_function_tools,
    to_ollama_messages, to_openai_messages, GeminiPart, OpenAIMessageToolCall,
};
use vida::provider_setup::{
    api_key_env_var, api_key_name, choose_api_key, default_provider_seeds, plan_provider, ProviderKind,
};
use vida::models::ProviderConfigRow;
use vida::providers::{ChatMessage, ChatRole, ProviderError, ToolDefinition};

fn msg(role: ChatRole, content: &str) -> ChatMessage {
    ChatMessage { role, content: content.to_string(), tool_call_id: None, name: None }
}

fn json(text: &str) -> JsonValue {
    JsonValue::parse(text).unwrap()
}

#[test]
fn test_extract_system_and_contents() {
    let messages = vec![
        msg(ChatRole::System, "You are helpful."),
        msg(ChatRole::User, "Hi"),
        msg(ChatRole::Assistant, "Hello!"),
    ];
    let (system, contents) = extract_system_and_contents(&messages);
    assert!(system.is_some());
    assert_eq!(contents.len(), 2);
    assert_eq!(contents[0].role, Some("user".to_string()));
    assert_eq!(contents[1].role, Some("model".to_string()));
}

#[test]
fn gemini_system_parts() {
    let (system, contents) =
        extract_system_and_contents(&[msg(ChatRole::System, "a"), msg(ChatRole::System, "b")]);
    let system = system.unwrap();
    assert_eq!(system.role, None);
    assert_eq!(system.parts.len(), 2);
    assert!(matches!(&system.parts[1], GeminiPart::Text { text } if text == "b"));
    assert!(contents.is_empty());
    let (none, _) = extract_system_and_contents(&[msg(ChatRole::User, "u")]);
    assert!(none.is_none());
}

#[test]
fn test_extract_system_and_messages() {
    let messages = vec![
        msg(ChatRole::System, "You are helpful."),
        msg(ChatRole::User, "Hi"),
        msg(ChatRole::Assistant, "Hello!"),
    ];
    let (system, msgs) = extract_system_and_messages(&messages);
    assert_eq!(system, Some("You are helpful.".to_string()));
    assert_eq!(msgs.len(), 2);
    assert_eq!(msgs[0].role, "user");
    assert_eq!(msgs[1].role, "assistant");
}

#[test]
fn anthropic_joins_system_messages() {
    let (system, msgs) =
        extract_system_and_messages(&[msg(ChatRole::System, "a"), msg(ChatRole::User, "u"), msg(ChatRole::System, "b")]);
    assert_eq!(system, Some("a\nb".to_string()));
    assert_eq!(msgs[0].content, JsonValue::from_str("u"));
}

#[test]
fn test_to_ollama_messages() {
    let messages = vec![msg(ChatRole::System, "Be helpful."), msg(ChatRole::User, "Hello")];
    let ollama_msgs = to_ollama_messages(&messages);
    assert_eq!(ollama_msgs.len(), 2);
    assert_eq!(ollama_msgs[0].role, "system");
    assert_eq!(ollama_msgs[1].role, "user");
}

#[test]
fn test_to_ollama_tools() {
    let tools = vec![ToolDefinition {
        name: "read_file".to_string(),
        description: "Read a file".to_string(),
        parameters: json(r#"{"type": "object", "properties": {"path": {"type": "string"}}, "required": ["path"]}"#),
    }];
    let defs = to_function_tools(Some(&tools)).unwrap();
    assert_eq!(defs.len(), 1);
    assert_eq!(defs[0].name, "read_file");
    assert_eq!(defs[0].tool_type, "function");
    assert!(to_function_tools(None).is_none());
}

#[test]
fn test_to_openai_messages() {
    let messages = vec![msg(ChatRole::User, "Hi")];
    let oai_msgs = to_openai_messages(&messages);
    assert_eq!(oai_msgs.len(), 1);
    assert_eq!(oai_msgs[0].role, "user");
    assert_eq!(oai_msgs[0].content, Some(JsonValue::Str("Hi".to_string())));
}

#[test]
fn test_to_openai_messages_with_tool_call() {
    let messages = vec![ChatMessage {
        role: ChatRole::Assistant,
        content: r#"<tool_call>{"id":"call_1","name":"read_file","arguments":{"path":"/tmp/demo.txt"}}</tool_call>"#.to_string(),
        tool_call_id: Some("call_1".to_string()),
        name: Some("read_file".to_string()),
    }];

    let oai_msgs = to_openai_messages(&messages);
    assert_eq!(oai_msgs.len(), 1);
    assert_eq!(oai_msgs[0].role, "assistant");
    assert!(oai_msgs[0].content.is_none());
    assert_eq!(oai_msgs[0].tool_calls.as_ref().map(Vec::len), Some(1));
    let call = &oai_msgs[0].tool_calls.as_ref().unwrap()[0];
    assert_eq!(call.arguments, r#"{"path":"/tmp/demo.txt"}"#);
    assert_eq!(call.name, "read_file");
}

#[test]
fn openai_tool_result_names_its_call() {
    let m = ChatMessage {
        role: ChatRole::Tool,
        content: "out".to_string(),
        tool_call_id: Some("call_1".to_string()),
        name: Some("read_file".to_string()),
    };
    let out = to_openai_messages(&[m]);
    assert_eq!(out[0].role, "tool");
    assert_eq!(out[0].tool_call_id, Some("call_1".to_string()));
    assert!(out[0].name.is_none());
}

#[test]
fn test_parse_openai_tool_calls() {
    let parsed = parse_openai_tool_calls(&[OpenAIMessageToolCall {
        id: "call_1".to_string(),
        call_type: "function".to_string(),
        name: "read_file".to_string(),
        arguments: r#"{"path":"/tmp/demo.txt"}"#.to_string(),
    }])
    .unwrap();

    assert_eq!(parsed.len(), 1);
    assert_eq!(parsed[0].name, "read_file");
    assert_eq!(parsed[0].arguments.get_str("path").unwrap(), "/tmp/demo.txt");
}

#[test]
fn openai_tool_calls_skip_other_types_and_fail_on_bad_json() {
    let calls = [
        OpenAIMessageToolCall {
            id: "a".to_string(),
            call_type: "retrieval".to_string(),
            name: "x".to_string(),
            arguments: "not json".to_string(),
        },
        OpenAIMessageToolCall {
            id: "b".to_string(),
            call_type: "function".to_string(),
            name: "y".to_string(),
            arguments: "{}".to_string(),
        },
    ];
    let parsed = parse_openai_tool_calls(&calls).unwrap();
    assert_eq!(parsed.len(), 1);
    assert_eq!(parsed[0].id, "b");
    let bad = [OpenAIMessageToolCall {
        id: "c".to_string(),
        call_type: "function".to_string(),
        name: "z".to_string(),
        arguments: "{".to_string(),
    }];
    assert!(matches!(parse_openai_tool_calls(&bad), Err(ProviderError::Serialization(_))));
}

#[test]
fn tool_call_arguments_from_tags() {
    assert_eq!(
        extract_tool_call_arguments(r#"x<tool_call> {"arguments":{"a":1}} </tool_call>"#),
        Some(json(r#"{"a":1}"#))
    );
    assert_eq!(extract_tool_call_arguments("<tool_call>{}</tool_call>"), None);
    assert_eq!(extract_tool_call_arguments("<tool_call>{}"), None);
}

#[test]
fn content_text_forms() {
    assert_eq!(openai_content_to_text(Some(&json(r#""hi""#))), "hi");
    assert_eq!(
        openai_content_to_text(Some(&json(r#"[{"text":"a"},{"image":1},{"text":"b"}]"#))),
        "ab"
    );
    assert_eq!(openai_content_to_text(Some(&json("3"))), "");
    assert_eq!(openai_content_to_text(None), "");
}

#[test]
fn base_urls_lose_trailing_slashes() {
    assert_eq!(normalize_base_url("https://custom-proxy.example.com/"), "https://custom-proxy.example.com");
    assert_eq!(normalize_base_url("https://api.groq.com/openai"), "https://api.groq.com/openai");
    assert_eq!(normalize_base_url("x//"), "x");
}

fn config(id: &str, kind: &str, url: Option<&str>, model: Option<&str>) -> ProviderConfigRow {
    ProviderConfigRow {
        id: id.to_string(),
        provider_type: kind.to_string(),
        base_url: url.map(str::to_string),
        default_model: model.map(str::to_string),
        enabled: 1,
        config_json: None,
        created_at: String::new(),
    }
}

#[test]
fn provider_plans() {
    let p = plan_provider(&config("Groq", "cloud", None, None), "m-a").unwrap();
    assert_eq!(p.kind, ProviderKind::OpenAI);
    assert_eq!(p.base_url, "https://api.groq.com/openai");
    assert_eq!(p.key_id, Some("groq".to_string()));
    assert_eq!(p.named, Some(("groq".to_string(), "Groq".to_string())));
    let o = plan_provider(&config("ollama", "ollama", Some("http://h:1"), None), "m-a").unwrap();
    assert_eq!(o.kind, ProviderKind::Ollama);
    assert_eq!(o.base_url, "http://h:1");
    assert_eq!(o.key_id, None);
    let custom = plan_provider(&config("MyLLM", "OpenAI-compatible", None, Some("m1")), "m-a").unwrap();
    assert_eq!(custom.kind, ProviderKind::OpenAI);
    assert_eq!(custom.key_id, Some("MyLLM".to_string()));
    assert_eq!(custom.default_model, Some("m1".to_string()));
    assert_eq!(plan_provider(&config("gem", "Gemini", None, None), "m-a").unwrap().kind, ProviderKind::Google);
    assert!(plan_provider(&config("x", "unknown", None, None), "m-a").is_none());
    assert_eq!(default_provider_seeds("m-a").len(), 13);
    assert_eq!(default_provider_seeds("m-a")[2].default_model, "m-a");
    let a = plan_provider(&config("anthropic", "anthropic", None, None), "m-a").unwrap();
    assert_eq!(a.kind, ProviderKind::Anthropic);
    assert_eq!(a.default_model, Some("m-a".to_string()));
    assert_eq!(default_provider_seeds("m-a")[4].provider_type, "cloud");
}

#[test]
fn api_key_lookup_names_and_order() {
    assert_eq!(api_key_name("openai"), "openai-api-key");
    assert_eq!(api_key_env_var("deepseek"), "DEEPSEEK_API_KEY");
    assert_eq!(api_key_env_var("straße"), "STRASSE_API_KEY");
    assert_eq!(choose_api_key(Some(String::new()), Some("env".to_string()), None), "env");
    assert_eq!(choose_api_key(Some("k".to_string()), Some("env".to_string()), None), "k");
    assert_eq!(choose_api_key(None, None, Some("alt".to_string())), "alt");
    assert_eq!(choose_api_key(None, Some(String::new()), None), "");
}
