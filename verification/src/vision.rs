//! The requests that ask a provider about an image: the image goes as
//! standard base64 of its PNG bytes, beside the prompt.
use vstd::prelude::*;
use crate::json::{Json, JsonValue, NumberKind, number_kind};
use crate::mcp::{is_number, member, object_of};
use crate::provider_formats::{GeminiContent, GeminiPart, OllamaMessage};
use crate::security::{base64_encode, base64_text};
use crate::text::{append_str, owned};

verus! {

/// How many tokens a reply about an image may take where the caller sets
/// no limit.
pub const VISION_MAX_TOKENS: u32 = 1024;

/// The limit asked for, or the default one.
pub open spec fn vision_limit(max_tokens: Option<u32>) -> u32 {
    match max_tokens {
        Some(m) => m,
        None => VISION_MAX_TOKENS,
    }
}

/// The data URL of a PNG image.
pub open spec fn png_data_url(image: Seq<u8>) -> Seq<char> {
    "data:image/png;base64,"@ + base64_text(image)
}

/// `j` is OpenAI's request about `image`: the model, one user message made
/// of the prompt and the image's data URL, and the token limit; members by
/// name.
pub open spec fn is_openai_vision_request(
    j: Json,
    model: Seq<char>,
    prompt: Seq<char>,
    image: Seq<u8>,
    limit: u32,
) -> bool {
    j matches Json::Object(m) && m.len() == 3 && m[0].0 == "max_tokens"@ && is_number(
        m[0].1,
        limit as u64,
    ) && m[1] == ("messages"@, Json::Array(
        seq![
            Json::Object(
                seq![
                    ("content"@, Json::Array(
                        seq![
                            Json::Object(
                                seq![("text"@, Json::Str(prompt)), ("type"@, Json::Str("text"@))],
                            ),
                            Json::Object(
                                seq![
                                    ("image_url"@, Json::Object(
                                        seq![("url"@, Json::Str(png_data_url(image)))],
                                    )),
                                    ("type"@, Json::Str("image_url"@)),
                                ],
                            ),
                        ],
                    )),
                    ("role"@, Json::Str("user"@)),
                ],
            ),
        ],
    )) && m[2] == ("model"@, Json::Str(model))
}

/// `j` is Anthropic's request about `image`: the model, the token limit,
/// and one user message made of the base64 image and the prompt; members
/// by name.
pub open spec fn is_anthropic_vision_request(
    j: Json,
    model: Seq<char>,
    prompt: Seq<char>,
    image: Seq<u8>,
    limit: u32,
) -> bool {
    j matches Json::Object(m) && m.len() == 3 && m[0].0 == "max_tokens"@ && is_number(
        m[0].1,
        limit as u64,
    ) && m[1] == ("messages"@, Json::Array(
        seq![
            Json::Object(
                seq![
                    ("content"@, Json::Array(
                        seq![
                            Json::Object(
                                seq![
                                    ("source"@, Json::Object(
                                        seq![
                                            ("data"@, Json::Str(base64_text(image))),
                                            ("media_type"@, Json::Str("image/png"@)),
                                            ("type"@, Json::Str("base64"@)),
                                        ],
                                    )),
                                    ("type"@, Json::Str("image"@)),
                                ],
                            ),
                            Json::Object(
                                seq![("text"@, Json::Str(prompt)), ("type"@, Json::Str("text"@))],
                            ),
                        ],
                    )),
                    ("role"@, Json::Str("user"@)),
                ],
            ),
        ],
    )) && m[2] == ("model"@, Json::Str(model))
}

fn text_part(prompt: &str) -> (r: JsonValue)
    ensures
        r@ == Json::Object(seq![("text"@, Json::Str(prompt@)), ("type"@, Json::Str("text"@))]),
{
    let r = object_of(vec![member("text", JsonValue::from_str(prompt)), member("type", JsonValue::from_str("text"))]);
    assert(r@->Object_0 =~= seq![("text"@, Json::Str(prompt@)), ("type"@, Json::Str("text"@))]);
    r
}

fn user_message(content: Vec<JsonValue>) -> (r: JsonValue)
    ensures
        r@ == Json::Object(
            seq![
                ("content"@, Json::Array(Seq::new(content@.len(), |i: int| content@[i]@))),
                ("role"@, Json::Str("user"@)),
            ],
        ),
{
    proof {
        crate::json::lemma_array_view(content);
    }
    let ghost items = Seq::new(content@.len(), |i: int| content@[i]@);
    let array = JsonValue::Array(content);
    let r = object_of(vec![member("content", array), member("role", JsonValue::from_str("user"))]);
    assert(r@->Object_0 =~= seq![("content"@, Json::Array(items)), ("role"@, Json::Str("user"@))]);
    r
}

fn vision_body(model: &str, message: JsonValue, limit: u32) -> (r: JsonValue)
    ensures
        r@ matches Json::Object(m) && m.len() == 3 && m[0].0 == "max_tokens"@ && is_number(
            m[0].1,
            limit as u64,
        ) && m[1] == ("messages"@, Json::Array(seq![message@])) && m[2] == ("model"@, Json::Str(
            model@,
        )),
{
    let mut messages: Vec<JsonValue> = Vec::new();
    messages.push(message);
    proof {
        crate::json::lemma_array_view(messages);
    }
    let ghost ms = Seq::new(messages@.len(), |i: int| messages@[i]@);
    assert(ms =~= seq![message@]);
    let r = object_of(
        vec![
            member("max_tokens", JsonValue::from_u64(limit as u64)),
            member("messages", JsonValue::Array(messages)),
            member("model", JsonValue::from_str(model)),
        ],
    );
    r
}

/// OpenAI's request about a PNG image.
pub fn openai_vision_request(model: &str, prompt: &str, image: &[u8], max_tokens: Option<u32>) -> (r:
    JsonValue)
    ensures
        is_openai_vision_request(r@, model@, prompt@, image@, vision_limit(max_tokens)),
{
    let b64 = base64_encode(image);
    let mut url = owned("data:image/png;base64,");
    append_str(&mut url, b64.as_str());
    let ghost url_text = url@;
    assert(url_text == png_data_url(image@));
    let image_url = object_of(vec![member("url", JsonValue::Str(url))]);
    let ghost image_url_json = Json::Object(seq![("url"@, Json::Str(png_data_url(image@)))]);
    assert(image_url@->Object_0 =~= image_url_json->Object_0);
    let image_part = object_of(
        vec![member("image_url", image_url), member("type", JsonValue::from_str("image_url"))],
    );
    let ghost image_json = Json::Object(
        seq![("image_url"@, image_url_json), ("type"@, Json::Str("image_url"@))],
    );
    assert(image_part@->Object_0 =~= image_json->Object_0);
    let text = text_part(prompt);
    let ghost text_json = text@;
    let mut content: Vec<JsonValue> = Vec::new();
    content.push(text);
    content.push(image_part);
    assert(Seq::new(content@.len(), |i: int| content@[i]@) =~= seq![text_json, image_json]);
    let message = user_message(content);
    let limit = match max_tokens {
        Some(m) => m,
        None => VISION_MAX_TOKENS,
    };
    vision_body(model, message, limit)
}

/// Anthropic's request about a PNG image.
pub fn anthropic_vision_request(model: &str, prompt: &str, image: &[u8], max_tokens: Option<u32>) -> (r:
    JsonValue)
    ensures
        is_anthropic_vision_request(r@, model@, prompt@, image@, vision_limit(max_tokens)),
{
    let b64 = base64_encode(image);
    let ghost data = b64@;
    let source = object_of(
        vec![
            member("data", JsonValue::Str(b64)),
            member("media_type", JsonValue::from_str("image/png")),
            member("type", JsonValue::from_str("base64")),
        ],
    );
    let ghost source_json = Json::Object(
        seq![
            ("data"@, Json::Str(base64_text(image@))),
            ("media_type"@, Json::Str("image/png"@)),
            ("type"@, Json::Str("base64"@)),
        ],
    );
    assert(source@->Object_0 =~= source_json->Object_0);
    let image_part = object_of(vec![member("source", source), member("type", JsonValue::from_str("image"))]);
    let ghost image_json = Json::Object(
        seq![("source"@, source_json), ("type"@, Json::Str("image"@))],
    );
    assert(image_part@->Object_0 =~= image_json->Object_0);
    let text = text_part(prompt);
    let ghost text_json = text@;
    let mut content: Vec<JsonValue> = Vec::new();
    content.push(image_part);
    content.push(text);
    assert(Seq::new(content@.len(), |i: int| content@[i]@) =~= seq![image_json, text_json]);
    let message = user_message(content);
    let limit = match max_tokens {
        Some(m) => m,
        None => VISION_MAX_TOKENS,
    };
    vision_body(model, message, limit)
}

/// The Gemini contents of a request about a PNG image: one user message
/// made of the prompt and the inline image.
pub fn gemini_vision_contents(prompt: &str, image: &[u8]) -> (r: Vec<GeminiContent>)
    ensures
        r@.len() == 1,
        r@[0].role matches Some(role) && role@ == "user"@,
        r@[0].parts@.len() == 2,
        r@[0].parts@[0] matches GeminiPart::Text { text } && text@ == prompt@,
        r@[0].parts@[1] matches GeminiPart::InlineData { mime_type, data } && mime_type@
            == "image/png"@ && data@ == base64_text(image@),
{
    let mut parts: Vec<GeminiPart> = Vec::new();
    parts.push(GeminiPart::Text { text: owned(prompt) });
    parts.push(GeminiPart::InlineData { mime_type: owned("image/png"), data: base64_encode(image) });
    let mut out: Vec<GeminiContent> = Vec::new();
    out.push(GeminiContent { role: Some(owned("user")), parts });
    out
}

/// The Ollama message of a request about a PNG image: the prompt, from the
/// user, with the image attached.
pub fn ollama_vision_message(prompt: &str, image: &[u8]) -> (r: OllamaMessage)
    ensures
        r.role@ == "user"@,
        r.content@ == prompt@,
        r.images matches Some(imgs) && imgs@.len() == 1 && imgs@[0]@ == base64_text(image@),
{
    let mut images: Vec<String> = Vec::new();
    images.push(base64_encode(image));
    OllamaMessage { role: owned("user"), content: owned(prompt), images: Some(images) }
}

} // verus!
