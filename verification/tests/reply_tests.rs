use vida::json::JsonValue;
use vida::provider_formats::{GeminiContent, GeminiPart, OpenAIMessageToolCall};
use vida::providers::ProviderError;
use vida::replies::{
    anthropic_reply, api_error, gemini_chat_reply, gemini_model_names, gemini_vision_reply,
    health_outcome, is_success, ollama_api_error, ollama_chat_reply, ollama_vision_reply,
    openai_chat_reply, openai_vision_reply, AnthropicChatResponse, AnthropicContentBlock,
    AnthropicUsage, GeminiCandidate, GeminiModelEntry, GeminiResponse, GeminiUsageMetadata,
    OllamaChatResponse, OllamaResponseFunction, OllamaResponseMessage, OllamaResponseToolCall,
    OpenAIChatResponse, OpenAIChoice, OpenAIResponseMessage, OpenAIUsage,
};

fn json(text: &str) -> JsonValue {
    JsonValue::parse(text).unwrap()
}

fn openai(choices: Vec<OpenAIChoice>, usage: Option<OpenAIUsage>) -> OpenAIChatResponse {
    OpenAIChatResponse { choices, model: "gpt-4o".to_string(), usage }
}

fn call(id: &str, kind: &str, name: &str, args: &str) -> OpenAIMessageToolCall {
    OpenAIMessageToolCall {
        id: id.to_string(),
        call_type: kind.to_string(),
        name: name.to_string(),
        arguments: args.to_string(),
    }
}

#[test]
fn status_codes() {
    assert!(is_success(200) && is_success(299));
    assert!(!is_success(199) && !is_success(300) && !is_success(401));
    assert!(matches!(health_outcome(401, &[401], false), Err(ProviderError::Unauthorized)));
    assert!(matches!(health_outcome(403, &[401, 403], false), Err(ProviderError::Unauthorized)));
    assert!(matches!(health_outcome(403, &[401], false), Err(ProviderError::Unavailable)));
    assert!(health_outcome(204, &[401], false).is_ok());
    assert!(health_outcome(500, &[401], true).is_ok());
    assert!(matches!(health_outcome(500, &[], false), Err(ProviderError::Unavailable)));
}

#[test]
fn refused_requests() {
    assert!(matches!(api_error("raw".to_string(), Some("nice".to_string())), ProviderError::Api(m) if m == "nice"));
    assert!(matches!(api_error("raw".to_string(), None), ProviderError::Api(m) if m == "raw"));
    assert!(matches!(ollama_api_error("500 Internal Server Error", "x"), ProviderError::Api(m) if m == "Ollama 500 Internal Server Error: x"));
}

#[test]
fn openai_reply_reads_first_choice() {
    let resp = openai(
        vec![OpenAIChoice {
            message: OpenAIResponseMessage {
                content: Some(json("[{\"type\":\"text\",\"text\":\"Hel\"},{\"text\":\"lo\"}]")),
                tool_calls: vec![
                    call("call_1", "function", "read_file", "{\"path\":\"/tmp/demo.txt\"}"),
                    call("x", "other", "ignored", "not json"),
                ],
            },
        }],
        Some(OpenAIUsage { prompt_tokens: 3, completion_tokens: 4, total_tokens: 7 }),
    );
    let r = openai_chat_reply(&resp).unwrap();
    assert_eq!(r.content, "Hello");
    assert_eq!(r.model, "gpt-4o");
    assert_eq!((r.prompt_tokens, r.completion_tokens, r.total_tokens), (3, 4, 7));
    assert_eq!(r.tool_calls.len(), 1);
    assert_eq!(r.tool_calls[0].name, "read_file");
    assert_eq!(r.tool_calls[0].arguments.get_str("path").map(|s| s.as_str()), Some("/tmp/demo.txt"));
}

#[test]
fn openai_reply_errors() {
    let r = openai_chat_reply(&openai(vec![], None));
    assert!(matches!(r, Err(ProviderError::Internal(m)) if m == "No choices in response"));
    let r = openai_vision_reply(&openai(vec![], None));
    assert!(matches!(r, Err(ProviderError::Internal(m)) if m == "No choices"));
    let bad = openai(
        vec![OpenAIChoice {
            message: OpenAIResponseMessage {
                content: None,
                tool_calls: vec![call("c", "function", "f", "{oops")],
            },
        }],
        None,
    );
    assert!(matches!(openai_chat_reply(&bad), Err(ProviderError::Serialization(_))));
    let empty = openai(
        vec![OpenAIChoice { message: OpenAIResponseMessage { content: None, tool_calls: vec![] } }],
        None,
    );
    let r = openai_vision_reply(&empty).unwrap();
    assert_eq!(r.content, "");
    assert_eq!((r.prompt_tokens, r.completion_tokens, r.total_tokens), (0, 0, 0));
}

#[test]
fn anthropic_reply_joins_text_blocks() {
    let resp = AnthropicChatResponse {
        content: vec![
            AnthropicContentBlock { block_type: "text".to_string(), text: Some("Hello ".to_string()) },
            AnthropicContentBlock { block_type: "tool_use".to_string(), text: Some("skip".to_string()) },
            AnthropicContentBlock { block_type: "text".to_string(), text: None },
            AnthropicContentBlock { block_type: "text".to_string(), text: Some("world".to_string()) },
        ],
        model: "sonnet".to_string(),
        usage: Some(AnthropicUsage { input_tokens: 10, output_tokens: 5 }),
    };
    let r = anthropic_reply(&resp);
    assert_eq!(r.content, "Hello world");
    assert_eq!(r.model, "sonnet");
    assert_eq!((r.prompt_tokens, r.completion_tokens, r.total_tokens), (10, 5, 15));
    assert!(r.tool_calls.is_empty());
    let r = anthropic_reply(&AnthropicChatResponse { content: vec![], model: "m".to_string(), usage: None });
    assert_eq!((r.prompt_tokens, r.completion_tokens, r.total_tokens), (0, 0, 0));
}

fn gemini(parts: Vec<GeminiPart>, version: Option<&str>, usage: Option<GeminiUsageMetadata>) -> GeminiResponse {
    GeminiResponse {
        candidates: vec![GeminiCandidate { content: GeminiContent { role: None, parts } }],
        usage_metadata: usage,
        model_version: version.map(str::to_string),
    }
}

#[test]
fn gemini_reply_reads_first_candidate() {
    let resp = gemini(
        vec![
            GeminiPart::Text { text: "a".to_string() },
            GeminiPart::InlineData { mime_type: "image/png".to_string(), data: "zz".to_string() },
            GeminiPart::Text { text: "b".to_string() },
        ],
        None,
        Some(GeminiUsageMetadata { prompt_token_count: 1, candidates_token_count: 2, total_token_count: 3 }),
    );
    let r = gemini_chat_reply(&resp, "gemini-2.0-flash").unwrap();
    assert_eq!(r.content, "ab");
    assert_eq!(r.model, "gemini-2.0-flash");
    assert_eq!((r.prompt_tokens, r.completion_tokens, r.total_tokens), (1, 2, 3));
    let r = gemini_vision_reply(&gemini(vec![], Some("v2"), None), "m").unwrap();
    assert_eq!(r.model, "v2");
    assert_eq!(r.content, "");
    let none = GeminiResponse { candidates: vec![], usage_metadata: None, model_version: None };
    assert!(matches!(gemini_chat_reply(&none, "m"), Err(ProviderError::Internal(m)) if m == "No candidates in response"));
    assert!(matches!(gemini_vision_reply(&none, "m"), Err(ProviderError::Internal(m)) if m == "No candidates"));
}

#[test]
fn gemini_models_that_generate_content() {
    let models = vec![
        GeminiModelEntry {
            name: "models/gemini-2.0-flash".to_string(),
            supported_generation_methods: vec!["countTokens".to_string(), "generateContent".to_string()],
        },
        GeminiModelEntry {
            name: "models/embedding-001".to_string(),
            supported_generation_methods: vec!["embedContent".to_string()],
        },
        GeminiModelEntry {
            name: "tuned".to_string(),
            supported_generation_methods: vec!["generateContent".to_string()],
        },
    ];
    assert_eq!(gemini_model_names(&models), vec!["gemini-2.0-flash".to_string(), "tuned".to_string()]);
}

#[test]
fn ollama_replies() {
    let resp = OllamaChatResponse {
        message: OllamaResponseMessage {
            content: "done".to_string(),
            tool_calls: vec![
                OllamaResponseToolCall {
                    function: OllamaResponseFunction { name: "a".to_string(), arguments: json("{\"x\":1}") },
                },
                OllamaResponseToolCall {
                    function: OllamaResponseFunction { name: "b".to_string(), arguments: json("{}") },
                },
            ],
        },
        model: "llama3".to_string(),
        prompt_eval_count: 7,
        eval_count: 8,
        done: true,
    };
    let r = ollama_chat_reply(&resp);
    assert_eq!(r.content, "done");
    assert_eq!(r.model, "llama3");
    assert_eq!((r.prompt_tokens, r.completion_tokens, r.total_tokens), (7, 8, 15));
    assert_eq!(r.tool_calls.len(), 2);
    assert_eq!(r.tool_calls[0].id, "call_1");
    assert_eq!(r.tool_calls[1].id, "call_2");
    assert_eq!(r.tool_calls[1].name, "b");
    let v = ollama_vision_reply(&resp);
    assert!(v.tool_calls.is_empty());
    assert_eq!(v.total_tokens, 15);
}
