//! Reading a provider's complete reply, and what a refused request or a
//! health check is answered.
use vstd::prelude::*;
use crate::json::{Json, JsonValue, json_error_text, json_parse};
use crate::providers::{CompletionResponse, ProviderError, ToolCall};
use crate::provider_formats::{
    GeminiContent, GeminiPart, OpenAIMessageToolCall, content_text, function_calls,
    first_unparsed, openai_content_to_text, parse_openai_tool_calls,
};
use crate::streaming::opt_text;
use crate::text::{
    append_str, chars_of, decimal, occurs_at, owned, push_decimal, slice_chars, starts_with_chars,
    str_is, string_of,
};

verus! {

// ── Status codes ──
/// A status in the 2xx range.
pub open spec fn success_status(status: u16) -> bool {
    200 <= status <= 299
}

/// Whether the status reports success.
pub fn is_success(status: u16) -> (r: bool)
    ensures
        r == success_status(status),
{
    200 <= status && status <= 299
}

/// The outcome of a health check answered with `status`: a status among
/// `refusals` means the credentials were refused; otherwise a success
/// status, or any answer at all where `any_answer` is set, means the
/// provider is up; anything else means it is unavailable.
pub fn health_outcome(status: u16, refusals: &[u16], any_answer: bool) -> (r: Result<
    (),
    ProviderError,
>)
    ensures
        (exists|i: int| 0 <= i < refusals@.len() && refusals@[i] == status) ==> r matches Err(
            ProviderError::Unauthorized,
        ),
        !(exists|i: int| 0 <= i < refusals@.len() && refusals@[i] == status) ==> if any_answer
            || success_status(status) {
            r is Ok
        } else {
            r matches Err(ProviderError::Unavailable)
        },
{
    let mut i: usize = 0;
    while i < refusals.len()
        invariant
            i <= refusals@.len(),
            forall|k: int| 0 <= k < i ==> refusals@[k] != status,
        decreases refusals@.len() - i,
    {
        if refusals[i] == status {
            return Err(ProviderError::Unauthorized);
        }
        i = i + 1;
    }
    if any_answer || is_success(status) {
        Ok(())
    } else {
        Err(ProviderError::Unavailable)
    }
}

/// The error for a refused request: the message of the provider's error
/// body where the body was one, else the body as received.
pub fn api_error(body: String, error_message: Option<String>) -> (r: ProviderError)
    ensures
        r matches ProviderError::Api(m) && m@ == match error_message {
            Some(e) => e@,
            None => body@,
        },
{
    match error_message {
        Some(e) => ProviderError::Api(e),
        None => ProviderError::Api(body),
    }
}

/// The text of a refusal by Ollama: its status, then the body.
pub open spec fn ollama_refusal_text(status: Seq<char>, body: Seq<char>) -> Seq<char> {
    "Ollama "@ + status + ": "@ + body
}

/// The error for a request that Ollama refused with `status`.
pub fn ollama_api_error(status: &str, body: &str) -> (r: ProviderError)
    ensures
        r matches ProviderError::Api(m) && m@ == ollama_refusal_text(status@, body@),
{
    let mut m = owned("Ollama ");
    append_str(&mut m, status);
    append_str(&mut m, ": ");
    append_str(&mut m, body);
    ProviderError::Api(m)
}

// ── OpenAI ──
/// Token counts of an OpenAI reply.
pub struct OpenAIUsage {
    pub prompt_tokens: u32,
    pub completion_tokens: u32,
    pub total_tokens: u32,
}

/// The message of an OpenAI choice.
pub struct OpenAIResponseMessage {
    pub content: Option<JsonValue>,
    pub tool_calls: Vec<OpenAIMessageToolCall>,
}

/// One choice of an OpenAI reply.
pub struct OpenAIChoice {
    pub message: OpenAIResponseMessage,
}

/// An OpenAI chat reply.
pub struct OpenAIChatResponse {
    pub choices: Vec<OpenAIChoice>,
    pub model: String,
    pub usage: Option<OpenAIUsage>,
}

/// The document an optional value holds.
pub open spec fn json_opt(c: Option<JsonValue>) -> Option<Json> {
    match c {
        Some(j) => Some(j@),
        None => None,
    }
}

/// `out` lists the function calls `fs` with their arguments parsed.
pub open spec fn calls_read(out: Seq<ToolCall>, fs: Seq<OpenAIMessageToolCall>) -> bool {
    &&& out.len() == fs.len()
    &&& forall|i: int|
        0 <= i < fs.len() ==> (#[trigger] out[i]).id@ == fs[i].id@ && out[i].name@ == fs[i].name@
            && json_parse(fs[i].arguments@) == Some(out[i].arguments@)
}

/// What an OpenAI reply with at least one choice gives.
pub open spec fn openai_reply_ok(resp: OpenAIChatResponse, c: CompletionResponse) -> bool {
    let msg = resp.choices@[0].message;
    &&& c.content@ == content_text(json_opt(msg.content))
    &&& c.model@ == resp.model@
    &&& match resp.usage {
        Some(u) => c.prompt_tokens == u.prompt_tokens && c.completion_tokens == u.completion_tokens
            && c.total_tokens == u.total_tokens,
        None => c.prompt_tokens == 0 && c.completion_tokens == 0 && c.total_tokens == 0,
    }
    &&& calls_read(c.tool_calls@, function_calls(msg.tool_calls@))
}

/// What an OpenAI reply gives, with `missing` as the complaint about a reply
/// without choices.
pub open spec fn openai_reply_spec(
    resp: OpenAIChatResponse,
    missing: Seq<char>,
    r: Result<CompletionResponse, ProviderError>,
) -> bool {
    if resp.choices@.len() == 0 {
        r matches Err(ProviderError::Internal(m)) && m@ == missing
    } else {
        let fs = function_calls(resp.choices@[0].message.tool_calls@);
        &&& (r is Ok <==> forall|i: int| 0 <= i < fs.len() ==> json_parse(#[trigger] fs[i].arguments@) is Some)
        &&& r matches Ok(c) ==> openai_reply_ok(resp, c)
        &&& r matches Err(e) ==> exists|i: int|
            0 <= i < fs.len() && first_unparsed(fs, i) && (e matches ProviderError::Serialization(m)
                && m@ == json_error_text(fs[i].arguments@))
    }
}

fn openai_reply(resp: &OpenAIChatResponse, missing: &str) -> (r: Result<
    CompletionResponse,
    ProviderError,
>)
    ensures
        openai_reply_spec(*resp, missing@, r),
{
    if resp.choices.len() == 0 {
        return Err(ProviderError::Internal(owned(missing)));
    }
    let choice = &resp.choices[0];
    let (prompt_tokens, completion_tokens, total_tokens) = match &resp.usage {
        Some(u) => (u.prompt_tokens, u.completion_tokens, u.total_tokens),
        None => (0, 0, 0),
    };
    let ghost fs = function_calls(choice.message.tool_calls@);
    match parse_openai_tool_calls(choice.message.tool_calls.as_slice()) {
        Ok(tool_calls) => {
            assert forall|i: int| 0 <= i < fs.len() implies json_parse(
                #[trigger] fs[i].arguments@,
            ) is Some by {
                assert(json_parse(fs[i].arguments@) == Some(tool_calls@[i].arguments@));
            }
            let content = openai_content_to_text(
                match &choice.message.content {
                    Some(c) => Some(c),
                    None => None,
                },
            );
            Ok(
                CompletionResponse {
                    content,
                    model: resp.model.clone(),
                    prompt_tokens,
                    completion_tokens,
                    total_tokens,
                    tool_calls,
                },
            )
        },
        Err(e) => Err(e),
    }
}

/// Reads an OpenAI chat reply: the first choice's text and tool calls, the
/// model, and the token counts (zero where the reply gives none).
pub fn openai_chat_reply(resp: &OpenAIChatResponse) -> (r: Result<CompletionResponse, ProviderError>)
    ensures
        openai_reply_spec(*resp, "No choices in response"@, r),
{
    openai_reply(resp, "No choices in response")
}

/// Reads an OpenAI reply to a request about an image.
pub fn openai_vision_reply(resp: &OpenAIChatResponse) -> (r: Result<
    CompletionResponse,
    ProviderError,
>)
    ensures
        openai_reply_spec(*resp, "No choices"@, r),
{
    openai_reply(resp, "No choices")
}

// ── Anthropic ──
/// A block of an Anthropic reply.
pub struct AnthropicContentBlock {
    pub block_type: String,
    pub text: Option<String>,
}

/// Token counts of an Anthropic reply.
pub struct AnthropicUsage {
    pub input_tokens: u32,
    pub output_tokens: u32,
}

/// An Anthropic reply.
pub struct AnthropicChatResponse {
    pub content: Vec<AnthropicContentBlock>,
    pub model: String,
    pub usage: Option<AnthropicUsage>,
}

/// The texts of the `text` blocks, joined.
pub open spec fn blocks_text(blocks: Seq<AnthropicContentBlock>) -> Seq<char>
    decreases blocks.len(),
{
    if blocks.len() == 0 {
        Seq::empty()
    } else {
        blocks_text(blocks.drop_last()) + if blocks.last().block_type@ == "text"@ {
            opt_text(blocks.last().text)
        } else {
            Seq::empty()
        }
    }
}

/// The input and output token counts of an Anthropic reply; zero where it
/// gives none.
pub open spec fn anthropic_counts(usage: Option<AnthropicUsage>) -> (u32, u32) {
    match usage {
        Some(u) => (u.input_tokens, u.output_tokens),
        None => (0, 0),
    }
}

/// Reads an Anthropic reply: the `text` blocks joined, the model, and the
/// token counts, whose total is their sum.
pub fn anthropic_reply(resp: &AnthropicChatResponse) -> (r: CompletionResponse)
    requires
        anthropic_counts(resp.usage).0 + anthropic_counts(resp.usage).1 <= u32::MAX,
    ensures
        r.content@ == blocks_text(resp.content@),
        r.model@ == resp.model@,
        r.prompt_tokens == anthropic_counts(resp.usage).0,
        r.completion_tokens == anthropic_counts(resp.usage).1,
        r.total_tokens == r.prompt_tokens + r.completion_tokens,
        r.tool_calls@.len() == 0,
{
    let mut content = String::new();
    let mut i: usize = 0;
    while i < resp.content.len()
        invariant
            i <= resp.content@.len(),
            content@ == blocks_text(resp.content@.take(i as int)),
        decreases resp.content@.len() - i,
    {
        let b = &resp.content[i];
        assert(resp.content@.take(i + 1).drop_last() =~= resp.content@.take(i as int));
        assert(resp.content@.take(i + 1).last() == *b);
        if str_is(b.block_type.as_str(), "text") {
            match &b.text {
                Some(t) => append_str(&mut content, t.as_str()),
                None => {
                    assert(content@ + opt_text(b.text) =~= content@);
                },
            }
        } else {
            assert(content@ + Seq::<char>::empty() =~= content@);
        }
        i = i + 1;
    }
    assert(resp.content@.take(resp.content@.len() as int) =~= resp.content@);
    let (input, output) = match &resp.usage {
        Some(u) => (u.input_tokens, u.output_tokens),
        None => (0, 0),
    };
    CompletionResponse {
        content,
        model: resp.model.clone(),
        prompt_tokens: input,
        completion_tokens: output,
        total_tokens: input + output,
        tool_calls: Vec::new(),
    }
}

// ── Gemini ──
/// One candidate of a Gemini reply.
pub struct GeminiCandidate {
    pub content: GeminiContent,
}

/// Token counts of a Gemini reply.
pub struct GeminiUsageMetadata {
    pub prompt_token_count: u32,
    pub candidates_token_count: u32,
    pub total_token_count: u32,
}

/// A Gemini reply, complete or one chunk of a stream.
pub struct GeminiResponse {
    pub candidates: Vec<GeminiCandidate>,
    pub usage_metadata: Option<GeminiUsageMetadata>,
    pub model_version: Option<String>,
}

/// The texts of the text parts, joined.
pub open spec fn parts_text(parts: Seq<GeminiPart>) -> Seq<char>
    decreases parts.len(),
{
    if parts.len() == 0 {
        Seq::empty()
    } else {
        parts_text(parts.drop_last()) + match parts.last() {
            GeminiPart::Text { text } => text@,
            _ => Seq::empty(),
        }
    }
}

/// What a Gemini reply gives, for a request to `model`, with `missing` as
/// the complaint about a reply without candidates.
pub open spec fn gemini_reply_spec(
    resp: GeminiResponse,
    model: Seq<char>,
    missing: Seq<char>,
    r: Result<CompletionResponse, ProviderError>,
) -> bool {
    if resp.candidates@.len() == 0 {
        r matches Err(ProviderError::Internal(m)) && m@ == missing
    } else {
        r matches Ok(c) && {
            &&& c.content@ == parts_text(resp.candidates@[0].content.parts@)
            &&& c.model@ == match resp.model_version {
                Some(v) => v@,
                None => model,
            }
            &&& match resp.usage_metadata {
                Some(u) => c.prompt_tokens == u.prompt_token_count && c.completion_tokens
                    == u.candidates_token_count && c.total_tokens == u.total_token_count,
                None => c.prompt_tokens == 0 && c.completion_tokens == 0 && c.total_tokens == 0,
            }
            &&& c.tool_calls@.len() == 0
        }
    }
}

/// The texts of the text parts, joined.
pub fn gemini_parts_text(parts: &Vec<GeminiPart>) -> (r: String)
    ensures
        r@ == parts_text(parts@),
{
    let mut out = String::new();
    let mut i: usize = 0;
    while i < parts.len()
        invariant
            i <= parts@.len(),
            out@ == parts_text(parts@.take(i as int)),
        decreases parts@.len() - i,
    {
        assert(parts@.take(i + 1).drop_last() =~= parts@.take(i as int));
        assert(parts@.take(i + 1).last() == parts@[i as int]);
        match &parts[i] {
            GeminiPart::Text { text } => append_str(&mut out, text.as_str()),
            _ => {
                assert(out@ + Seq::<char>::empty() =~= out@);
            },
        }
        i = i + 1;
    }
    assert(parts@.take(parts@.len() as int) =~= parts@);
    out
}

fn gemini_reply(resp: &GeminiResponse, model: &str, missing: &str) -> (r: Result<
    CompletionResponse,
    ProviderError,
>)
    ensures
        gemini_reply_spec(*resp, model@, missing@, r),
{
    if resp.candidates.len() == 0 {
        return Err(ProviderError::Internal(owned(missing)));
    }
    let content = gemini_parts_text(&resp.candidates[0].content.parts);
    let (p, c, t) = match &resp.usage_metadata {
        Some(u) => (u.prompt_token_count, u.candidates_token_count, u.total_token_count),
        None => (0, 0, 0),
    };
    let model_name = match &resp.model_version {
        Some(v) => v.clone(),
        None => owned(model),
    };
    Ok(
        CompletionResponse {
            content,
            model: model_name,
            prompt_tokens: p,
            completion_tokens: c,
            total_tokens: t,
            tool_calls: Vec::new(),
        },
    )
}

/// Reads a Gemini chat reply to a request to `model`: the first candidate's
/// text parts joined, the model version the reply names or else `model`, and
/// the token counts (zero where the reply gives none).
pub fn gemini_chat_reply(resp: &GeminiResponse, model: &str) -> (r: Result<
    CompletionResponse,
    ProviderError,
>)
    ensures
        gemini_reply_spec(*resp, model@, "No candidates in response"@, r),
{
    gemini_reply(resp, model, "No candidates in response")
}

/// Reads a Gemini reply to a request about an image.
pub fn gemini_vision_reply(resp: &GeminiResponse, model: &str) -> (r: Result<
    CompletionResponse,
    ProviderError,
>)
    ensures
        gemini_reply_spec(*resp, model@, "No candidates"@, r),
{
    gemini_reply(resp, model, "No candidates")
}

/// A model that Gemini lists.
pub struct GeminiModelEntry {
    pub name: String,
    pub supported_generation_methods: Vec<String>,
}

/// The model can generate content.
pub open spec fn generates_content(m: GeminiModelEntry) -> bool {
    exists|k: int|
        0 <= k < m.supported_generation_methods@.len()
            && (#[trigger] m.supported_generation_methods@[k])@ == "generateContent"@
}

/// A model's name without its `models/` prefix.
pub open spec fn short_model_name(name: Seq<char>) -> Seq<char> {
    if occurs_at(name, "models/"@, 0) {
        name.skip(7)
    } else {
        name
    }
}

/// The names of the listed models that can generate content, in order and
/// without their `models/` prefix.
pub open spec fn content_model_names(models: Seq<GeminiModelEntry>) -> Seq<Seq<char>>
    decreases models.len(),
{
    if models.len() == 0 {
        Seq::empty()
    } else if generates_content(models.last()) {
        content_model_names(models.drop_last()).push(short_model_name(models.last().name@))
    } else {
        content_model_names(models.drop_last())
    }
}

/// Whether the model can generate content.
fn can_generate(m: &GeminiModelEntry) -> (r: bool)
    ensures
        r == generates_content(*m),
{
    let mut k: usize = 0;
    while k < m.supported_generation_methods.len()
        invariant
            k <= m.supported_generation_methods@.len(),
            forall|j: int|
                0 <= j < k ==> (#[trigger] m.supported_generation_methods@[j])@
                    != "generateContent"@,
        decreases m.supported_generation_methods@.len() - k,
    {
        if str_is(m.supported_generation_methods[k].as_str(), "generateContent") {
            return true;
        }
        k = k + 1;
    }
    false
}

/// The names of the listed models that can generate content, without their
/// `models/` prefix.
pub fn gemini_model_names(models: &[GeminiModelEntry]) -> (r: Vec<String>)
    ensures
        r@.map_values(|s: String| s@) == content_model_names(models@),
{
    let prefix = chars_of("models/");
    proof {
        reveal_strlit("models/");
    }
    let mut out: Vec<String> = Vec::new();
    let mut i: usize = 0;
    while i < models.len()
        invariant
            i <= models@.len(),
            prefix@ == "models/"@,
            prefix@.len() == 7,
            out@.map_values(|s: String| s@) == content_model_names(models@.take(i as int)),
        decreases models@.len() - i,
    {
        let m = &models[i];
        assert(models@.take(i + 1).drop_last() =~= models@.take(i as int));
        assert(models@.take(i + 1).last() == *m);
        if can_generate(m) {
            let name = chars_of(m.name.as_str());
            let short = if starts_with_chars(&name, &prefix) {
                let rest = slice_chars(&name, 7, name.len());
                assert(rest@ =~= name@.skip(7));
                string_of(&rest)
            } else {
                m.name.clone()
            };
            let ghost before = out@.map_values(|s: String| s@);
            let ghost sv = short@;
            out.push(short);
            assert(out@.map_values(|s: String| s@) =~= before.push(sv));
        }
        i = i + 1;
    }
    assert(models@.take(models@.len() as int) =~= models@);
    out
}

// ── Ollama ──
/// A function call in an Ollama reply.
pub struct OllamaResponseFunction {
    pub name: String,
    pub arguments: JsonValue,
}

/// A tool call in an Ollama reply.
pub struct OllamaResponseToolCall {
    pub function: OllamaResponseFunction,
}

/// The message of an Ollama reply.
pub struct OllamaResponseMessage {
    pub content: String,
    pub tool_calls: Vec<OllamaResponseToolCall>,
}

/// An Ollama reply, complete or one line of a stream.
pub struct OllamaChatResponse {
    pub message: OllamaResponseMessage,
    pub model: String,
    pub prompt_eval_count: u32,
    pub eval_count: u32,
    pub done: bool,
}

/// The identifier given to the call at position `i` of an Ollama reply.
pub open spec fn ollama_call_id(i: int) -> Seq<char> {
    "call_"@ + decimal((i + 1) as nat)
}

/// `out` lists the calls of an Ollama reply, numbered from one.
pub open spec fn ollama_calls_read(out: Seq<ToolCall>, calls: Seq<OllamaResponseToolCall>) -> bool {
    &&& out.len() == calls.len()
    &&& forall|i: int|
        0 <= i < calls.len() ==> (#[trigger] out[i]).id@ == ollama_call_id(i) && out[i].name@
            == calls[i].function.name@ && out[i].arguments@ == calls[i].function.arguments@
}

/// Reads an Ollama chat reply: its text, model and counts, whose total is
/// their sum, and its tool calls numbered `call_1`, `call_2`, ...
pub fn ollama_chat_reply(resp: &OllamaChatResponse) -> (r: CompletionResponse)
    requires
        resp.prompt_eval_count + resp.eval_count <= u32::MAX,
    ensures
        r.content@ == resp.message.content@,
        r.model@ == resp.model@,
        r.prompt_tokens == resp.prompt_eval_count,
        r.completion_tokens == resp.eval_count,
        r.total_tokens == resp.prompt_eval_count + resp.eval_count,
        ollama_calls_read(r.tool_calls@, resp.message.tool_calls@),
{
    let mut tool_calls: Vec<ToolCall> = Vec::new();
    let calls = &resp.message.tool_calls;
    let mut i: usize = 0;
    while i < calls.len()
        invariant
            i <= calls@.len(),
            ollama_calls_read(tool_calls@, calls@.take(i as int)),
        decreases calls@.len() - i,
    {
        let mut id = owned("call_");
        push_decimal(&mut id, (i as u64) + 1);
        let c = &calls[i];
        tool_calls.push(
            ToolCall {
                id,
                name: c.function.name.clone(),
                arguments: c.function.arguments.deep_copy(),
            },
        );
        assert(calls@.take(i + 1)[i as int] == *c);
        assert(ollama_calls_read(tool_calls@, calls@.take(i + 1)));
        i = i + 1;
    }
    assert(calls@.take(calls@.len() as int) =~= calls@);
    CompletionResponse {
        content: resp.message.content.clone(),
        model: resp.model.clone(),
        prompt_tokens: resp.prompt_eval_count,
        completion_tokens: resp.eval_count,
        total_tokens: resp.prompt_eval_count + resp.eval_count,
        tool_calls,
    }
}

/// Reads an Ollama reply to a request about an image, which offers no tools.
pub fn ollama_vision_reply(resp: &OllamaChatResponse) -> (r: CompletionResponse)
    requires
        resp.prompt_eval_count + resp.eval_count <= u32::MAX,
    ensures
        r.content@ == resp.message.content@,
        r.model@ == resp.model@,
        r.prompt_tokens == resp.prompt_eval_count,
        r.completion_tokens == resp.eval_count,
        r.total_tokens == resp.prompt_eval_count + resp.eval_count,
        r.tool_calls@.len() == 0,
{
    CompletionResponse {
        content: resp.message.content.clone(),
        model: resp.model.clone(),
        prompt_tokens: resp.prompt_eval_count,
        completion_tokens: resp.eval_count,
        total_tokens: resp.prompt_eval_count + resp.eval_count,
        tool_calls: Vec::new(),
    }
}

} // verus!
