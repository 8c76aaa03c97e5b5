use vida::provider_formats::GeminiPart;
use vida::vision::{
    anthropic_vision_request, gemini_vision_contents, ollama_vision_message, openai_vision_request,
    VISION_MAX_TOKENS,
};

#[test]
fn openai_vision_body() {
    let body = openai_vision_request("gpt-4o", "What is this?", &[1, 2, 3], None);
    assert_eq!(
        body.to_text(),
        "{\"max_tokens\":1024,\"messages\":[{\"content\":[{\"text\":\"What is this?\",\"type\":\"text\"},{\"image_url\":{\"url\":\"data:image/png;base64,AQID\"},\"type\":\"image_url\"}],\"role\":\"user\"}],\"model\":\"gpt-4o\"}"
    );
    let body = openai_vision_request("m", "p", &[], Some(77));
    assert!(body.to_text().starts_with("{\"max_tokens\":77,"));
    assert_eq!(VISION_MAX_TOKENS, 1024);
}

#[test]
fn anthropic_vision_body() {
    let body = anthropic_vision_request("sonnet", "Describe", b"hi", Some(10));
    assert_eq!(
        body.to_text(),
        "{\"max_tokens\":10,\"messages\":[{\"content\":[{\"source\":{\"data\":\"aGk=\",\"media_type\":\"image/png\",\"type\":\"base64\"},\"type\":\"image\"},{\"text\":\"Describe\",\"type\":\"text\"}],\"role\":\"user\"}],\"model\":\"sonnet\"}"
    );
}

#[test]
fn gemini_and_ollama_vision_parts() {
    let contents = gemini_vision_contents("Look", &[0xff]);
    assert_eq!(contents.len(), 1);
    assert_eq!(contents[0].role.as_deref(), Some("user"));
    assert!(matches!(&contents[0].parts[0], GeminiPart::Text { text } if text == "Look"));
    assert!(matches!(&contents[0].parts[1], GeminiPart::InlineData { mime_type, data } if mime_type == "image/png" && data == "/w=="));
    let m = ollama_vision_message("Look", b"abc");
    assert_eq!(m.role, "user");
    assert_eq!(m.content, "Look");
    assert_eq!(m.images, Some(vec!["YWJj".to_string()]));
}
