use vida::provider_formats::GeminiPart;
use vida::provider_formats::GeminiContent;
use vida::providers::{ProviderError, StreamEvent};
use vida::replies::{
    GeminiCandidate, GeminiResponse, OllamaChatResponse, OllamaResponseMessage,
};
use vida::streaming::{
    anthropic_stream_event, end_events, failure_events, gemini_stream_chunk, ollama_stream_chunk,
    ollama_stream_line, ollama_stream_refusal, sse_data, stream_event_text, AnthropicStreamDelta,
    AnthropicStreamEvent, LineBuffer, LineStep, OpenAIStream, OpenAIStreamChoice,
    OpenAIStreamChunk, OpenAIStreamDelta, OpenAIStreamFunctionDelta, OpenAIStreamToolCallDelta,
};

fn token(e: &StreamEvent) -> Option<&str> {
    match e {
        StreamEvent::Token { content } => Some(content.as_str()),
        _ => None,
    }
}

fn error(e: &StreamEvent) -> Option<&str> {
    match e {
        StreamEvent::Error { error } => Some(error.as_str()),
        _ => None,
    }
}

fn is_done(e: &StreamEvent) -> bool {
    matches!(e, StreamEvent::Done)
}

fn chunk(content: Option<&str>, deltas: Vec<OpenAIStreamToolCallDelta>, finish: Option<&str>) -> OpenAIStreamChunk {
    OpenAIStreamChunk {
        choices: vec![OpenAIStreamChoice {
            delta: OpenAIStreamDelta { content: content.map(str::to_string), tool_calls: deltas },
            finish_reason: finish.map(str::to_string),
        }],
    }
}

fn delta(index: usize, id: Option<&str>, name: Option<&str>, args: Option<&str>) -> OpenAIStreamToolCallDelta {
    OpenAIStreamToolCallDelta {
        index,
        id: id.map(str::to_string),
        function: Some(OpenAIStreamFunctionDelta {
            name: name.map(str::to_string),
            arguments: args.map(str::to_string),
        }),
    }
}

#[test]
fn line_buffer_keeps_partial_lines() {
    let mut buf = LineBuffer::new();
    let lines = buf.push_text("data: a\ndata: b");
    assert_eq!(lines, vec!["data: a".to_string()]);
    let lines = buf.push_text("c\n\nrest");
    assert_eq!(lines, vec!["data: bc".to_string(), "".to_string()]);
    let lines = buf.push_text("\n");
    assert_eq!(lines, vec!["rest".to_string()]);
}

#[test]
fn line_buffer_chunking_does_not_matter() {
    let text = "one\ntwo\r\nthree\nfour";
    let mut whole = LineBuffer::new();
    let all = whole.push_text(text);
    for cut in 0..text.len() {
        let mut pieces = LineBuffer::new();
        let mut got = pieces.push_text(&text[..cut]);
        got.extend(pieces.push_text(&text[cut..]));
        assert_eq!(got, all);
    }
    assert_eq!(all, vec!["one".to_string(), "two\r".to_string(), "three".to_string()]);
}

#[test]
fn sse_data_lines() {
    assert_eq!(sse_data("  data: {\"a\":1}  "), Some("{\"a\":1}".to_string()));
    assert_eq!(sse_data("event: ping"), None);
    assert_eq!(sse_data(""), None);
    assert_eq!(sse_data("data: "), None);
    assert_eq!(sse_data("data: [DONE]"), Some("[DONE]".to_string()));
}

#[test]
fn openai_stream_tokens_and_done_marker() {
    let mut s = OpenAIStream::new();
    assert!(matches!(s.on_line(": keep-alive"), LineStep::Skip));
    match s.on_line("data: {\"choices\":[]}") {
        LineStep::Parse(d) => assert_eq!(d, "{\"choices\":[]}"),
        _ => panic!("expected a payload"),
    }
    let step = s.on_chunk(Ok(chunk(Some("Hel"), vec![], None)));
    assert!(!step.finished);
    assert_eq!(step.events.len(), 1);
    assert_eq!(token(&step.events[0]), Some("Hel"));
    let step = s.on_chunk(Ok(chunk(Some(""), vec![], None)));
    assert!(step.events.is_empty());
    match s.on_line("data: [DONE]") {
        LineStep::Finish(events) => {
            assert_eq!(events.len(), 1);
            assert!(is_done(&events[0]));
        }
        _ => panic!("expected the end"),
    }
}

#[test]
fn openai_stream_assembles_tool_calls() {
    let mut s = OpenAIStream::new();
    let step = s.on_chunk(Ok(chunk(None, vec![delta(0, Some("call_1"), Some("read_file"), Some("{\"path\":"))], None)));
    assert!(step.events.is_empty());
    let step = s.on_chunk(Ok(chunk(None, vec![delta(0, None, None, Some("\"/tmp/a\"}"))], None)));
    assert!(step.events.is_empty());
    let step = s.on_chunk(Ok(chunk(None, vec![], Some("tool_calls"))));
    assert!(step.finished);
    assert_eq!(step.events.len(), 2);
    assert_eq!(
        token(&step.events[0]),
        Some("<tool_call>{\"id\":\"call_1\",\"name\":\"read_file\",\"arguments\":{\"path\":\"/tmp/a\"}}</tool_call>")
    );
    assert!(is_done(&step.events[1]));
}

#[test]
fn openai_stream_gaps_and_bad_arguments() {
    let mut s = OpenAIStream::new();
    s.on_chunk(Ok(chunk(None, vec![delta(1, Some("b"), Some("t"), Some("not json"))], None)));
    let events = s.closing();
    assert_eq!(events.len(), 3);
    assert_eq!(token(&events[0]), Some("<tool_call>{\"id\":\"\",\"name\":\"\",\"arguments\":{}}</tool_call>"));
    assert_eq!(token(&events[1]), Some("<tool_call>{\"id\":\"b\",\"name\":\"t\",\"arguments\":{}}</tool_call>"));
    assert!(is_done(&events[2]));
}

#[test]
fn openai_stream_parse_error() {
    let mut s = OpenAIStream::new();
    let step = s.on_chunk(Err("expected value".to_string()));
    assert!(!step.finished);
    assert_eq!(error(&step.events[0]), Some("expected value"));
    let step = s.on_chunk(Ok(OpenAIStreamChunk { choices: vec![] }));
    assert!(step.events.is_empty() && !step.finished);
}

fn anthropic(event_type: &str, text: Option<&str>, stop: Option<&str>) -> AnthropicStreamEvent {
    AnthropicStreamEvent {
        event_type: event_type.to_string(),
        delta: Some(AnthropicStreamDelta {
            delta_type: None,
            text: text.map(str::to_string),
            stop_reason: stop.map(str::to_string),
        }),
    }
}

#[test]
fn anthropic_stream_events() {
    let step = anthropic_stream_event(Ok(anthropic("content_block_delta", Some("Hi"), None)));
    assert_eq!(token(&step.events[0]), Some("Hi"));
    assert!(!step.finished);
    let step = anthropic_stream_event(Ok(anthropic("message_delta", None, None)));
    assert!(step.events.is_empty() && !step.finished);
    let step = anthropic_stream_event(Ok(anthropic("message_delta", None, Some("end_turn"))));
    assert!(step.finished && is_done(&step.events[0]));
    let step = anthropic_stream_event(Ok(anthropic("message_stop", None, None)));
    assert!(step.finished && step.events.len() == 1);
    let step = anthropic_stream_event(Ok(anthropic("ping", Some("x"), None)));
    assert!(step.events.is_empty() && !step.finished);
    let step = anthropic_stream_event(Err("bad".to_string()));
    assert!(step.events.is_empty() && !step.finished);
}

#[test]
fn gemini_stream_chunks() {
    let resp = GeminiResponse {
        candidates: vec![GeminiCandidate {
            content: GeminiContent {
                role: Some("model".to_string()),
                parts: vec![
                    GeminiPart::Text { text: "a".to_string() },
                    GeminiPart::InlineData { mime_type: "image/png".to_string(), data: "x".to_string() },
                    GeminiPart::Text { text: "".to_string() },
                    GeminiPart::Text { text: "b".to_string() },
                ],
            },
        }],
        usage_metadata: None,
        model_version: None,
    };
    let events = gemini_stream_chunk(Ok(resp));
    assert_eq!(events.len(), 2);
    assert_eq!(token(&events[0]), Some("a"));
    assert_eq!(token(&events[1]), Some("b"));
    let events = gemini_stream_chunk(Err("oops".to_string()));
    assert_eq!(error(&events[0]), Some("oops"));
}

fn ollama(content: &str, done: bool) -> OllamaChatResponse {
    OllamaChatResponse {
        message: OllamaResponseMessage { content: content.to_string(), tool_calls: vec![] },
        model: "llama3".to_string(),
        prompt_eval_count: 0,
        eval_count: 0,
        done,
    }
}

#[test]
fn ollama_stream_lines() {
    assert_eq!(ollama_stream_line("   "), None);
    assert_eq!(ollama_stream_line(" {\"done\":true} "), Some(" {\"done\":true} ".to_string()));
    let step = ollama_stream_chunk(Ok(ollama("tok", false)));
    assert_eq!(token(&step.events[0]), Some("tok"));
    let step = ollama_stream_chunk(Ok(ollama("ignored", true)));
    assert!(step.finished && is_done(&step.events[0]) && step.events.len() == 1);
    let step = ollama_stream_chunk(Err("bad line".to_string()));
    assert_eq!(error(&step.events[0]), Some("bad line"));
    let (events, err) = ollama_stream_refusal("404 Not Found", "missing");
    assert_eq!(error(&events[0]), Some("Ollama 404 Not Found: missing"));
    assert!(is_done(&events[1]));
    assert!(matches!(err, ProviderError::Api(m) if m == "Ollama 404 Not Found"));
}

#[test]
fn failure_and_end_events() {
    let events = failure_events("boom".to_string());
    assert_eq!(events.len(), 2);
    assert_eq!(error(&events[0]), Some("boom"));
    assert!(is_done(&events[1]));
    let events = end_events();
    assert!(events.len() == 1 && is_done(&events[0]));
}

#[test]
fn stream_events_as_json_text() {
    let t = stream_event_text(&StreamEvent::Token { content: "hi \"x\"".to_string() });
    assert_eq!(t, "{\"content\":\"hi \\\"x\\\"\",\"type\":\"token\"}");
    let e = stream_event_text(&StreamEvent::Error { error: "bad".to_string() });
    assert_eq!(e, "{\"error\":\"bad\",\"type\":\"error\"}");
    let d = stream_event_text(&StreamEvent::Done);
    assert_eq!(d, "{\"type\":\"done\"}");
}

#[test]
fn openai_refusal_sends_error_then_end() {
    let (events, error) = vida::streaming::openai_stream_refusal("quota exceeded".to_string());
    assert_eq!(events.len(), 2);
    assert!(matches!(&events[0], vida::providers::StreamEvent::Error { error } if error == "quota exceeded"));
    assert!(matches!(events[1], vida::providers::StreamEvent::Done));
    assert_eq!(error.message(), vida::providers::ProviderError::Api("quota exceeded".to_string()).message());
}

#[test]
fn openai_stream_ends_once() {
    let mut s = OpenAIStream::new();
    s.on_chunk(Ok(chunk(None, vec![delta(0, Some("c1"), Some("t"), Some("{}"))], None)));
    let step = s.on_chunk(Ok(chunk(Some("bye"), vec![], Some("stop"))));
    assert!(step.finished);
    let n = step.events.len();
    assert!(matches!(step.events[n - 1], vida::providers::StreamEvent::Done));
    assert!(matches!(&step.events[n - 2], vida::providers::StreamEvent::Token { content } if content.starts_with("<tool_call>")));
    // Nothing more once the reply is over.
    assert!(matches!(s.on_line("data: [DONE]"), LineStep::Skip));
    let step = s.on_chunk(Ok(chunk(Some("late"), vec![], None)));
    assert!(step.events.is_empty() && step.finished);
    assert!(s.end().is_empty());
    assert!(s.fail("late failure".to_string()).is_empty());
}

#[test]
fn openai_stream_end_and_failure() {
    let mut s = OpenAIStream::new();
    s.on_chunk(Ok(chunk(None, vec![delta(0, Some("c1"), Some("t"), Some("{\"a\":1}"))], None)));
    let events = s.end();
    assert_eq!(events.len(), 2);
    assert!(matches!(&events[0], vida::providers::StreamEvent::Token { content } if content == "<tool_call>{\"id\":\"c1\",\"name\":\"t\",\"arguments\":{\"a\":1}}</tool_call>"));
    assert!(matches!(events[1], vida::providers::StreamEvent::Done));
    let mut f = OpenAIStream::new();
    let events = f.fail("reset".to_string());
    assert_eq!(events.len(), 2);
    assert!(matches!(&events[0], vida::providers::StreamEvent::Error { error } if error == "reset"));
    assert!(f.end().is_empty());
}
