use vida::json::JsonValue;
use vida::error::VidaError;
use vida::mcp::{
    find_server_config, initialize_request, parse_tool_call_response, parse_tools_response,
    server_args, server_env, tool_call_request, tools_list_request, McpError, McpManager, McpTool,
};
use vida::models::McpServerConfigRow;

fn json(text: &str) -> JsonValue {
    JsonValue::parse(text).unwrap()
}

fn tool(name: &str) -> McpTool {
    McpTool {
        name: name.to_string(),
        description: String::new(),
        input_schema: JsonValue::empty_object(),
        server_name: "fs".to_string(),
    }
}

#[test]
fn test_mcp_manager_new() {
    let manager = McpManager::new();
    assert_eq!(manager.running_count(), 0);
    assert!(manager.list_servers().is_empty());
    assert!(manager.list_tools().is_empty());
}

#[test]
fn test_mcp_manager_default() {
    let manager = McpManager::default();
    assert_eq!(manager.running_count(), 0);
}

#[test]
fn test_stop_nonexistent_server() {
    let mut manager = McpManager::new();
    let result = manager.stop_server("nonexistent");
    assert!(result.is_err());
    match result.unwrap_err() {
        McpError::ServerNotFound(name) => assert_eq!(name, "nonexistent"),
        other => panic!("Expected ServerNotFound, got {:?}", other),
    }
}

#[test]
fn test_call_tool_no_servers() {
    let mut manager = McpManager::new();
    let result = manager.route_tool_call("some_tool", json("{}"));
    assert!(result.is_err());
    match result.unwrap_err() {
        McpError::ToolNotFound(name) => assert_eq!(name, "some_tool"),
        other => panic!("Expected ToolNotFound, got {:?}", other),
    }
}

#[test]
fn test_is_running() {
    let manager = McpManager::new();
    assert!(!manager.is_running("test"));
}

#[test]
fn test_parse_tools_response_valid() {
    let response = json(
        r#"{
            "jsonrpc": "2.0",
            "id": 2,
            "result": {
                "tools": [
                    {
                        "name": "read_file",
                        "description": "Read a file from the filesystem",
                        "inputSchema": {
                            "type": "object",
                            "properties": {"path": {"type": "string"}},
                            "required": ["path"]
                        }
                    },
                    {
                        "name": "write_file",
                        "description": "Write content to a file",
                        "inputSchema": {
                            "type": "object",
                            "properties": {"path": {"type": "string"}, "content": {"type": "string"}},
                            "required": ["path", "content"]
                        }
                    }
                ]
            }
        }"#,
    );

    let tools = parse_tools_response(&response, "filesystem").unwrap();
    assert_eq!(tools.len(), 2);
    assert_eq!(tools[0].name, "read_file");
    assert_eq!(tools[0].description, "Read a file from the filesystem");
    assert_eq!(tools[0].server_name, "filesystem");
    assert_eq!(tools[1].name, "write_file");
    assert_eq!(tools[1].server_name, "filesystem");
}

#[test]
fn test_parse_tools_response_empty() {
    let response = json(r#"{"jsonrpc": "2.0", "id": 2, "result": {"tools": []}}"#);
    let tools = parse_tools_response(&response, "test").unwrap();
    assert!(tools.is_empty());
}

#[test]
fn test_parse_tools_response_invalid() {
    let response = json(r#"{"jsonrpc": "2.0", "id": 2, "result": {}}"#);
    let result = parse_tools_response(&response, "test");
    assert!(result.is_err());
}

#[test]
fn tools_without_fields_get_defaults() {
    let response = json(r#"{"result": {"tools": [{}]}}"#);
    let tools = parse_tools_response(&response, "s").unwrap();
    assert_eq!(tools[0].name, "unknown");
    assert_eq!(tools[0].description, "");
    assert_eq!(tools[0].input_schema, JsonValue::empty_object());
}

#[test]
fn test_parse_tool_call_response_success() {
    let response = json(
        r#"{"jsonrpc": "2.0", "id": 3, "result": {"content": [{"type": "text", "text": "Hello, world!"}], "isError": false}}"#,
    );
    let result = parse_tool_call_response(&response).unwrap();
    assert!(!result.is_error);
    assert_eq!(result.content.len(), 1);
    assert_eq!(result.content[0].text, "Hello, world!");
    assert_eq!(result.content[0].content_type, "text");
}

#[test]
fn test_parse_tool_call_response_error() {
    let response = json(
        r#"{"jsonrpc": "2.0", "id": 3, "error": {"code": -32600, "message": "Invalid request"}}"#,
    );
    let result = parse_tool_call_response(&response);
    assert!(result.is_err());
    match result.unwrap_err() {
        McpError::ToolError(msg) => assert_eq!(msg, "Invalid request"),
        other => panic!("Expected ToolError, got {:?}", other),
    }
}

#[test]
fn test_parse_tool_call_response_is_error_flag() {
    let response = json(
        r#"{"jsonrpc": "2.0", "id": 3, "result": {"content": [{"type": "text", "text": "File not found"}], "isError": true}}"#,
    );
    let result = parse_tool_call_response(&response).unwrap();
    assert!(result.is_error);
    assert_eq!(result.content[0].text, "File not found");
}

#[test]
fn tool_call_response_without_result_is_a_protocol_error() {
    match parse_tool_call_response(&json(r#"{"id": 3}"#)).unwrap_err() {
        McpError::Protocol(m) => assert_eq!(m, "No result in tool call response"),
        other => panic!("unexpected {:?}", other),
    }
    match parse_tool_call_response(&json(r#"{"error": {}}"#)).unwrap_err() {
        McpError::ToolError(m) => assert_eq!(m, "Unknown error"),
        other => panic!("unexpected {:?}", other),
    }
}

#[test]
fn request_texts() {
    assert_eq!(
        initialize_request(1).to_text(),
        r#"{"id":1,"jsonrpc":"2.0","method":"initialize","params":{"capabilities":{},"clientInfo":{"name":"vida-ai","version":"0.5.0"},"protocolVersion":"2024-11-05"}}"#
    );
    assert_eq!(
        tools_list_request(2).to_text(),
        r#"{"id":2,"jsonrpc":"2.0","method":"tools/list","params":{}}"#
    );
    assert_eq!(
        tool_call_request(7, "read_file", json(r#"{"path":"a"}"#)).to_text(),
        r#"{"id":7,"jsonrpc":"2.0","method":"tools/call","params":{"arguments":{"path":"a"},"name":"read_file"}}"#
    );
}

#[test]
fn manager_routes_calls_to_the_offering_server() {
    let mut manager = McpManager::new();
    manager.add_server("fs", "npx fs", vec![tool("read_file")]).unwrap();
    manager.add_server("web", "npx web", vec![tool("fetch")]).unwrap();
    assert!(manager.check_can_start("fs").is_err());
    assert!(manager.add_server("fs", "again", vec![]).is_err());
    assert_eq!(manager.running_count(), 2);
    assert_eq!(manager.list_tools().len(), 2);
    let (server, request) = manager.route_tool_call("fetch", json("{}")).unwrap();
    assert_eq!(server, "web");
    assert_eq!(request.get("id").unwrap(), &JsonValue::from_u64(3));
    let (_, request) = manager.route_tool_call("fetch", json("{}")).unwrap();
    assert_eq!(request.get("id").unwrap(), &JsonValue::from_u64(4));
    manager.stop_server("web").unwrap();
    assert!(!manager.is_running("web"));
    assert!(manager.is_running("fs"));
    let infos = manager.list_servers();
    assert_eq!(infos.len(), 1);
    assert_eq!(infos[0].tool_count, 1);
    assert!(infos[0].running);
}

fn config(name: &str, command: &str, args: Option<&str>, env: Option<&str>) -> McpServerConfigRow {
    McpServerConfigRow {
        id: format!("id-{name}"),
        workspace_path: None,
        name: name.to_string(),
        command: command.to_string(),
        args_json: args.map(str::to_string),
        env_json: env.map(str::to_string),
        enabled: 1,
        created_at: String::new(),
    }
}

#[test]
fn saved_servers_listed_with_running_state() {
    let mut m = McpManager::new();
    m.add_server("fs", "mcp-fs --live", vec![tool("read_file"), tool("write_file")]).unwrap();
    let configs = vec![config("fs", "mcp-fs", None, None), config("web", "mcp-web", None, None)];
    let listed = m.list_configured(&configs);
    assert_eq!(listed.len(), 2);
    assert!(listed[0].running);
    assert_eq!(listed[0].command, "mcp-fs --live");
    assert_eq!(listed[0].tool_count, 2);
    assert_eq!(listed[0].tools[1].name, "write_file");
    assert!(!listed[1].running);
    assert_eq!(listed[1].name, "web");
    assert_eq!(listed[1].command, "mcp-web");
    assert_eq!(listed[1].tool_count, 0);
    assert!(listed[1].tools.is_empty());
}

#[test]
fn saved_server_settings() {
    let configs = vec![
        config("fs", "mcp-fs", Some("[\"--root\", \"/tmp\"]"), Some("{\"A\":\"1\",\"B\":\"2\"}")),
        config("bad", "x", Some("[1, \"a\"]"), Some("{\"A\":1}")),
    ];
    let c = find_server_config(&configs, "fs").unwrap();
    assert_eq!(c.command, "mcp-fs");
    assert!(matches!(find_server_config(&configs, "nope"), Err(VidaError::Config(m)) if m == "MCP server config not found: nope"));
    assert_eq!(server_args(c.args_json.as_ref()), vec!["--root".to_string(), "/tmp".to_string()]);
    assert_eq!(
        server_env(c.env_json.as_ref()),
        vec![("A".to_string(), "1".to_string()), ("B".to_string(), "2".to_string())]
    );
    let bad = &configs[1];
    assert!(server_args(bad.args_json.as_ref()).is_empty());
    assert!(server_env(bad.env_json.as_ref()).is_empty());
    assert!(server_args(None).is_empty());
    assert!(server_args(Some(&"not json".to_string())).is_empty());
}

#[test]
fn listed_tools_are_the_stored_tools() {
    let mut manager = McpManager::new();
    let read = McpTool {
        name: "read_file".to_string(),
        description: "Read a file".to_string(),
        input_schema: json(r#"{"type":"object","properties":{"path":{"type":"string"}}}"#),
        server_name: "fs".to_string(),
    };
    let fetch = McpTool {
        name: "fetch".to_string(),
        description: "Fetch a page".to_string(),
        input_schema: json(r#"{"type":"object"}"#),
        server_name: "web".to_string(),
    };
    manager.add_server("fs", "npx fs", vec![read]).unwrap();
    manager.add_server("web", "npx web", vec![fetch]).unwrap();
    let tools = manager.list_tools();
    assert_eq!(tools.len(), 2);
    assert_eq!(tools[0].name, "read_file");
    assert_eq!(tools[0].description, "Read a file");
    assert_eq!(tools[0].server_name, "fs");
    assert_eq!(tools[0].input_schema.to_text(), r#"{"properties":{"path":{"type":"string"}},"type":"object"}"#);
    assert_eq!(tools[1].description, "Fetch a page");
    assert_eq!(tools[1].server_name, "web");
    let servers = manager.list_servers();
    assert_eq!(servers[1].tools[0].description, "Fetch a page");
}
