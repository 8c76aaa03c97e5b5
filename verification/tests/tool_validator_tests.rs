use vida::json::JsonValue;
use vida::providers::{ToolCall, ToolDefinition};
use vida::tool_validator::{validate_against_schema, validate_tool_call, ValidationError};

fn json(text: &str) -> JsonValue {
    JsonValue::parse(text).unwrap()
}

fn write_file_tool() -> ToolDefinition {
    ToolDefinition {
        name: "write_file".to_string(),
        description: "Write a file".to_string(),
        parameters: json(
            r#"{"type": "object", "properties": {"path": {"type": "string"}, "content": {"type": "string"}}, "required": ["path", "content"]}"#,
        ),
    }
}

#[test]
fn test_validate_valid_tool_call() {
    let call = ToolCall {
        id: "1".to_string(),
        name: "write_file".to_string(),
        arguments: json(r#"{"path": "/tmp/test.txt", "content": "hello"}"#),
    };
    assert!(validate_tool_call(&call, &[write_file_tool()]).is_ok());
}

#[test]
fn test_validate_missing_required_field() {
    let call = ToolCall {
        id: "1".to_string(),
        name: "write_file".to_string(),
        arguments: json(r#"{"path": "/tmp/test.txt"}"#),
    };
    let err = validate_tool_call(&call, &[write_file_tool()]).unwrap_err();
    assert!(matches!(err, ValidationError::InvalidArguments { .. }));
    assert_eq!(
        err.message(),
        "Invalid arguments for tool 'write_file': missing required field 'content'"
    );
}

#[test]
fn test_validate_unknown_tool() {
    let call = ToolCall { id: "1".to_string(), name: "unknown".to_string(), arguments: json("{}") };
    let err = validate_tool_call(&call, &[write_file_tool()]).unwrap_err();
    assert!(matches!(err, ValidationError::ToolNotFound(_)));
    assert_eq!(err.message(), "Tool 'unknown' not found in available tools");
}

#[test]
fn schema_type_errors() {
    let s = json(r#"{"type":"object","properties":{"n":{"type":"integer"},"xs":{"type":"array","items":{"type":"boolean"}}}}"#);
    assert_eq!(
        validate_against_schema(&json(r#"{"n": 1.5}"#), &s).unwrap_err(),
        "field 'n' expected integer"
    );
    assert_eq!(
        validate_against_schema(&json(r#"{"xs": [true, 3]}"#), &s).unwrap_err(),
        "field 'xs' item 1 expected boolean"
    );
    assert!(validate_against_schema(&json(r#"{"n": -4, "xs": [false]}"#), &s).is_ok());
    assert_eq!(validate_against_schema(&json("[]"), &s).unwrap_err(), "expected object");
    assert_eq!(
        validate_against_schema(&json("1"), &json(r#"{"type":"array"}"#)).unwrap_err(),
        "expected array"
    );
    assert_eq!(
        validate_against_schema(&json("1"), &json(r#"{"type":"null"}"#)).unwrap_err(),
        "expected null"
    );
    assert_eq!(
        validate_against_schema(&json("true"), &json(r#"{"type":"number"}"#)).unwrap_err(),
        "expected number"
    );
    assert!(validate_against_schema(&json("1"), &json(r#"{"type":"weird"}"#)).is_ok());
    assert!(validate_against_schema(&json("1"), &json("{}")).is_ok());
}
