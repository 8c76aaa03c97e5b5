//! How conversations and tools are written for each model provider's API.
use vstd::prelude::*;
use crate::agent_loop::{call_end, call_start, lemma_tag_lengths};
use crate::json::{Json, JsonValue, json_error_text, json_get, json_parse, json_text, canonical};
use crate::providers::{ChatMessage, ChatRole, ProviderError, ToolCall, ToolDefinition};
use crate::text::{chars_of, find_first, find_text, lemma_find_first, owned, append_str, slice_chars, string_of, str_is, trim_chars, trim_seq};

verus! {

// ── Google Gemini ──
/// One part of a Gemini message: text, or an inline image.
#[derive(Debug, Clone)]
pub enum GeminiPart {
    Text { text: String },
    InlineData { mime_type: String, data: String },
}

/// A Gemini message: its role (none for the system instruction) and parts.
#[derive(Debug, Clone)]
pub struct GeminiContent {
    pub role: Option<String>,
    pub parts: Vec<GeminiPart>,
}

/// The Gemini role of a message: a model writes as `model`; users and tool
/// results are written as `user`.
pub open spec fn gemini_role(role: ChatRole) -> Seq<char> {
    if role == ChatRole::Assistant {
        "model"@
    } else {
        "user"@
    }
}

/// The messages of `messages` other than system messages.
pub open spec fn non_system(messages: Seq<ChatMessage>) -> Seq<ChatMessage>
    decreases messages.len(),
{
    if messages.len() == 0 {
        Seq::empty()
    } else if messages.last().role == ChatRole::System {
        non_system(messages.drop_last())
    } else {
        non_system(messages.drop_last()).push(messages.last())
    }
}

/// The system messages of `messages`.
pub open spec fn system_only(messages: Seq<ChatMessage>) -> Seq<ChatMessage>
    decreases messages.len(),
{
    if messages.len() == 0 {
        Seq::empty()
    } else if messages.last().role == ChatRole::System {
        system_only(messages.drop_last()).push(messages.last())
    } else {
        system_only(messages.drop_last())
    }
}

/// A Gemini text part holding `text`.
pub open spec fn is_text_part(p: GeminiPart, text: Seq<char>) -> bool {
    p matches GeminiPart::Text { text: t } && t@ == text
}

/// `c` is a Gemini message with role `role` and the single text part `text`.
pub open spec fn is_content(c: GeminiContent, role: Seq<char>, text: Seq<char>) -> bool {
    &&& c.role matches Some(r) && r@ == role
    &&& c.parts@.len() == 1
    &&& is_text_part(c.parts@[0], text)
}

/// Splits a conversation for Gemini: the system messages become the parts
/// of the system instruction (none if there are none), the others become
/// contents with their Gemini roles, in order.
pub fn extract_system_and_contents(messages: &[ChatMessage]) -> (r: (
    Option<GeminiContent>,
    Vec<GeminiContent>,
))
    ensures
        ({
            let sys = system_only(messages@);
            let rest = non_system(messages@);
            &&& (sys.len() == 0 <==> r.0 is None)
            &&& (r.0 matches Some(s) ==> s.role is None && s.parts@.len() == sys.len() && forall|
                i: int,
            | 0 <= i < sys.len() ==> is_text_part(#[trigger] s.parts@[i], sys[i].content@))
            &&& r.1@.len() == rest.len()
            &&& forall|i: int|
                0 <= i < rest.len() ==> is_content(
                    #[trigger] r.1@[i],
                    gemini_role(rest[i].role),
                    rest[i].content@,
                )
        }),
{
    let mut system_parts: Vec<GeminiPart> = Vec::new();
    let mut contents: Vec<GeminiContent> = Vec::new();
    let mut i: usize = 0;
    while i < messages.len()
        invariant
            i <= messages@.len(),
            ({
                let sys = system_only(messages@.take(i as int));
                let rest = non_system(messages@.take(i as int));
                &&& system_parts@.len() == sys.len()
                &&& forall|k: int|
                    0 <= k < sys.len() ==> is_text_part(#[trigger] system_parts@[k], sys[k].content@)
                &&& contents@.len() == rest.len()
                &&& forall|k: int|
                    0 <= k < rest.len() ==> is_content(
                        #[trigger] contents@[k],
                        gemini_role(rest[k].role),
                        rest[k].content@,
                    )
            }),
        decreases messages@.len() - i,
    {
        let m = &messages[i];
        assert(messages@.take(i + 1).drop_last() =~= messages@.take(i as int));
        assert(messages@.take(i + 1).last() == messages@[i as int]);
        match m.role {
            ChatRole::System => {
                system_parts.push(GeminiPart::Text { text: m.content.clone() });
            },
            ChatRole::Assistant => {
                contents.push(
                    GeminiContent {
                        role: Some(owned("model")),
                        parts: vec![GeminiPart::Text { text: m.content.clone() }],
                    },
                );
            },
            _ => {
                contents.push(
                    GeminiContent {
                        role: Some(owned("user")),
                        parts: vec![GeminiPart::Text { text: m.content.clone() }],
                    },
                );
            },
        }
        i = i + 1;
    }
    assert(messages@.take(messages@.len() as int) =~= messages@);
    let system = if system_parts.len() == 0 {
        None
    } else {
        Some(GeminiContent { role: None, parts: system_parts })
    };
    (system, contents)
}

// ── Ollama ──
/// A message in Ollama's chat API.
#[derive(Debug, Clone)]
pub struct OllamaMessage {
    pub role: String,
    pub content: String,
    pub images: Option<Vec<String>>,
}

/// How a role is written in Ollama's and OpenAI's APIs.
pub open spec fn role_name(role: ChatRole) -> Seq<char> {
    match role {
        ChatRole::System => "system"@,
        ChatRole::User => "user"@,
        ChatRole::Assistant => "assistant"@,
        ChatRole::Tool => "tool"@,
    }
}

/// How a role is written in Ollama's and OpenAI's APIs.
pub fn role_text(role: ChatRole) -> (r: String)
    ensures
        r@ == role_name(role),
{
    match role {
        ChatRole::System => owned("system"),
        ChatRole::User => owned("user"),
        ChatRole::Assistant => owned("assistant"),
        ChatRole::Tool => owned("tool"),
    }
}

/// The conversation for Ollama: each message with its role's name and text,
/// without images.
pub fn to_ollama_messages(messages: &[ChatMessage]) -> (r: Vec<OllamaMessage>)
    ensures
        r@.len() == messages@.len(),
        forall|i: int|
            0 <= i < messages@.len() ==> (#[trigger] r@[i]).role@ == role_name(messages@[i].role)
                && r@[i].content@ == messages@[i].content@ && r@[i].images is None,
{
    let mut out: Vec<OllamaMessage> = Vec::new();
    let mut i: usize = 0;
    while i < messages.len()
        invariant
            i <= messages@.len(),
            out@.len() == i,
            forall|k: int|
                0 <= k < i ==> (#[trigger] out@[k]).role@ == role_name(messages@[k].role)
                    && out@[k].content@ == messages@[k].content@ && out@[k].images is None,
        decreases messages@.len() - i,
    {
        out.push(
            OllamaMessage {
                role: role_text(messages[i].role),
                content: messages[i].content.clone(),
                images: None,
            },
        );
        i = i + 1;
    }
    out
}

/// A tool offered through a function-calling API (Ollama's and OpenAI's).
#[derive(Debug)]
pub struct FunctionToolDefinition {
    pub tool_type: String,
    pub name: String,
    pub description: String,
    pub parameters: JsonValue,
}

/// The tools on offer, as function definitions; none where no tools are given.
pub fn to_function_tools(tools: Option<&Vec<ToolDefinition>>) -> (r: Option<
    Vec<FunctionToolDefinition>,
>)
    ensures
        tools is None <==> r is None,
        r matches Some(defs) ==> (tools matches Some(ts) && defs@.len() == ts@.len() && forall|
            i: int,
        | 0 <= i < ts@.len() ==> (#[trigger] defs@[i]).tool_type@ == "function"@ && defs@[i].name@
            == ts@[i].name@ && defs@[i].description@ == ts@[i].description@ && defs@[i].parameters@
            == ts@[i].parameters@),
{
    let ts = match tools {
        Some(ts) => ts,
        None => {
            return None;
        },
    };
    let mut out: Vec<FunctionToolDefinition> = Vec::new();
    let mut i: usize = 0;
    while i < ts.len()
        invariant
            i <= ts@.len(),
            out@.len() == i,
            forall|k: int|
                0 <= k < i ==> (#[trigger] out@[k]).tool_type@ == "function"@ && out@[k].name@
                    == ts@[k].name@ && out@[k].description@ == ts@[k].description@
                    && out@[k].parameters@ == ts@[k].parameters@,
        decreases ts@.len() - i,
    {
        out.push(
            FunctionToolDefinition {
                tool_type: owned("function"),
                name: ts[i].name.clone(),
                description: ts[i].description.clone(),
                parameters: ts[i].parameters.deep_copy(),
            },
        );
        i = i + 1;
    }
    Some(out)
}

// ── Anthropic ──
/// A message in Anthropic's API.
#[derive(Debug)]
pub struct AnthropicMessage {
    pub role: String,
    pub content: JsonValue,
}

/// The Anthropic role of a message: a model writes as `assistant`; users and
/// tool results are written as `user`.
pub open spec fn anthropic_role(role: ChatRole) -> Seq<char> {
    if role == ChatRole::Assistant {
        "assistant"@
    } else {
        "user"@
    }
}

/// The texts of `messages`, one per line.
pub open spec fn joined_texts(messages: Seq<ChatMessage>) -> Seq<char>
    decreases messages.len(),
{
    if messages.len() == 0 {
        Seq::empty()
    } else if messages.len() == 1 {
        messages[0].content@
    } else {
        joined_texts(messages.drop_last()) + "\n"@ + messages.last().content@
    }
}

/// Splits a conversation for Anthropic: the system messages, one per line,
/// become the system prompt (none if there are none); the others become
/// messages with their Anthropic roles and their text as a JSON string.
pub fn extract_system_and_messages(messages: &[ChatMessage]) -> (r: (
    Option<String>,
    Vec<AnthropicMessage>,
))
    ensures
        ({
            let sys = system_only(messages@);
            let rest = non_system(messages@);
            &&& (sys.len() == 0 <==> r.0 is None)
            &&& (r.0 matches Some(s) ==> s@ == joined_texts(sys))
            &&& r.1@.len() == rest.len()
            &&& forall|i: int|
                0 <= i < rest.len() ==> (#[trigger] r.1@[i]).role@ == anthropic_role(rest[i].role)
                    && r.1@[i].content@ == Json::Str(rest[i].content@)
        }),
{
    let mut system = owned("");
    proof {
        reveal_strlit("");
    }
    let mut system_count: usize = 0;
    let mut out: Vec<AnthropicMessage> = Vec::new();
    let mut i: usize = 0;
    while i < messages.len()
        invariant
            i <= messages@.len(),
            ({
                let sys = system_only(messages@.take(i as int));
                let rest = non_system(messages@.take(i as int));
                &&& system_count == sys.len()
                &&& system@ == joined_texts(sys)
                &&& out@.len() == rest.len()
                &&& forall|k: int|
                    0 <= k < rest.len() ==> (#[trigger] out@[k]).role@ == anthropic_role(
                        rest[k].role,
                    ) && out@[k].content@ == Json::Str(rest[k].content@)
            }),
            system_count <= i,
        decreases messages@.len() - i,
    {
        let m = &messages[i];
        assert(messages@.take(i + 1).drop_last() =~= messages@.take(i as int));
        assert(messages@.take(i + 1).last() == messages@[i as int]);
        match m.role {
            ChatRole::System => {
                let ghost before = system_only(messages@.take(i as int));
                if system_count > 0 {
                    append_str(&mut system, "\n");
                }
                append_str(&mut system, m.content.as_str());
                system_count = system_count + 1;
                proof {
                    let after = system_only(messages@.take(i + 1));
                    assert(after == before.push(messages@[i as int]));
                    assert(after.drop_last() =~= before);
                    if before.len() == 0 {
                        assert(system@ =~= joined_texts(after));
                    }
                }
            },
            ChatRole::Assistant => {
                out.push(
                    AnthropicMessage {
                        role: owned("assistant"),
                        content: JsonValue::Str(m.content.clone()),
                    },
                );
            },
            _ => {
                out.push(
                    AnthropicMessage {
                        role: owned("user"),
                        content: JsonValue::Str(m.content.clone()),
                    },
                );
            },
        }
        i = i + 1;
    }
    assert(messages@.take(messages@.len() as int) =~= messages@);
    let system = if system_count == 0 {
        None
    } else {
        Some(system)
    };
    (system, out)
}

// ── OpenAI ──
/// A tool call as OpenAI writes it: the function's arguments are a JSON text.
#[derive(Debug, Clone)]
pub struct OpenAIMessageToolCall {
    pub id: String,
    pub call_type: String,
    pub name: String,
    pub arguments: String,
}

/// A message in OpenAI's chat API.
#[derive(Debug)]
pub struct OpenAIMessage {
    pub role: String,
    pub content: Option<JsonValue>,
    pub tool_call_id: Option<String>,
    pub name: Option<String>,
    pub tool_calls: Option<Vec<OpenAIMessageToolCall>>,
}

/// The arguments written in the first complete tool-call tag of `content`:
/// the `arguments` member of the JSON object in the tag.
pub open spec fn tagged_arguments(content: Seq<char>) -> Option<Json> {
    match find_first(content, call_start(), 0) {
        None => None,
        Some(st) => match find_first(content, call_end(), st + 11) {
            None => None,
            Some(en) => match json_parse(trim_seq(content.subrange(st + 11, en))) {
                None => None,
                Some(v) => json_get(v, "arguments"@),
            },
        },
    }
}

/// The arguments of the first tool-call tag in a message's text.
pub fn extract_tool_call_arguments(content: &str) -> (r: Option<JsonValue>)
    ensures
        match r {
            Some(a) => tagged_arguments(content@) == Some(a@),
            None => tagged_arguments(content@) is None,
        },
{
    let s = chars_of(content);
    let start = chars_of("<tool_call>");
    let end = chars_of("</tool_call>");
    proof {
        lemma_tag_lengths();
        lemma_find_first(s@, start@, 0);
    }
    let n = s.len();
    let st = match find_text(&s, &start, 0) {
        Some(st) => st,
        None => {
            return None;
        },
    };
    assert(st + 11 <= n);
    proof {
        lemma_find_first(s@, end@, st + 11);
    }
    let en = match find_text(&s, &end, st + 11) {
        Some(en) => en,
        None => {
            return None;
        },
    };
    let inner = slice_chars(&s, st + 11, en);
    let blob = string_of(&trim_chars(&inner));
    match JsonValue::parse(blob.as_str()) {
        None => None,
        Some(v) => match v.get("arguments") {
            Some(a) => Some(a.deep_copy()),
            None => None,
        },
    }
}

/// The text of OpenAI message content: a string as is, the `text` members of
/// an array of parts joined together, anything else as empty.
pub open spec fn content_text(content: Option<Json>) -> Seq<char> {
    match content {
        Some(Json::Str(t)) => t,
        Some(Json::Array(parts)) => part_texts(parts, parts.len() as int),
        _ => Seq::empty(),
    }
}

/// The `text` members of the first `n` parts that have a string one, joined.
pub open spec fn part_texts(parts: Seq<Json>, n: int) -> Seq<char>
    decreases n,
{
    if n <= 0 || n > parts.len() {
        Seq::empty()
    } else {
        part_texts(parts, n - 1) + match crate::json::member_str(parts[n - 1], "text"@) {
            Some(t) => t,
            None => Seq::empty(),
        }
    }
}

/// The text of OpenAI message content.
pub fn openai_content_to_text(content: Option<&JsonValue>) -> (r: String)
    ensures
        r@ == content_text(
            match content {
                Some(c) => Some(c@),
                None => None,
            },
        ),
{
    proof {
        reveal_strlit("");
    }
    match content {
        Some(JsonValue::Str(t)) => t.clone(),
        Some(JsonValue::Array(parts)) => {
            proof {
                crate::json::lemma_array_view(*parts);
            }
            let ghost ps = Seq::new(parts@.len(), |k: int| parts@[k]@);
            let mut out = owned("");
            let mut i: usize = 0;
            while i < parts.len()
                invariant
                    i <= parts@.len(),
                    ps == Seq::new(parts@.len(), |k: int| parts@[k]@),
                    out@ == part_texts(ps, i as int),
                decreases parts@.len() - i,
            {
                assert(ps[i as int] == parts@[i as int]@);
                match parts[i].get_str("text") {
                    Some(t) => append_str(&mut out, t.as_str()),
                    None => {
                        assert(out@ + Seq::<char>::empty() =~= out@);
                    },
                }
                i = i + 1;
            }
            out
        },
        _ => owned(""),
    }
}

/// How a message goes to OpenAI: a model's message that records a tool call
/// (it names the call and the tool) becomes a tool call with the arguments
/// written in its tag (an empty object if none can be read); any other
/// message keeps its role and text, and a tool result names the call it answers.
pub open spec fn openai_message(m: ChatMessage, out: OpenAIMessage) -> bool {
    if m.role == ChatRole::Assistant && m.tool_call_id is Some && m.name is Some {
        &&& out.role@ == "assistant"@
        &&& out.content is None
        &&& out.tool_call_id is None
        &&& out.name is None
        &&& out.tool_calls matches Some(calls) && calls@.len() == 1 && calls@[0].id@
            == m.tool_call_id->0@ && calls@[0].call_type@ == "function"@ && calls@[0].name@
            == m.name->0@ && (canonical(
            match tagged_arguments(m.content@) {
                Some(a) => a,
                None => Json::Object(Seq::empty()),
            },
        ) ==> calls@[0].arguments@ == json_text(
            match tagged_arguments(m.content@) {
                Some(a) => a,
                None => Json::Object(Seq::empty()),
            },
        ))
    } else {
        &&& out.role@ == role_name(m.role)
        &&& out.content matches Some(c) && c@ == Json::Str(m.content@)
        &&& out.name is None
        &&& out.tool_calls is None
        &&& if m.role == ChatRole::Tool {
            match m.tool_call_id {
                Some(id) => out.tool_call_id matches Some(o) && o@ == id@,
                None => out.tool_call_id is None,
            }
        } else {
            out.tool_call_id is None
        }
    }
}

/// The conversation for OpenAI.
pub fn to_openai_messages(messages: &[ChatMessage]) -> (r: Vec<OpenAIMessage>)
    ensures
        r@.len() == messages@.len(),
        forall|i: int| 0 <= i < messages@.len() ==> openai_message(messages@[i], #[trigger] r@[i]),
{
    let mut out: Vec<OpenAIMessage> = Vec::new();
    let mut i: usize = 0;
    while i < messages.len()
        invariant
            i <= messages@.len(),
            out@.len() == i,
            forall|k: int| 0 <= k < i ==> openai_message(messages@[k], #[trigger] out@[k]),
        decreases messages@.len() - i,
    {
        let m = &messages[i];
        let is_call_record = match (&m.tool_call_id, &m.name) {
            (Some(_), Some(_)) => m.role == ChatRole::Assistant,
            _ => false,
        };
        if is_call_record {
            let arguments = match extract_tool_call_arguments(m.content.as_str()) {
                Some(a) => a,
                None => JsonValue::empty_object(),
            };
            let id = match &m.tool_call_id {
                Some(id) => id.clone(),
                None => owned(""),
            };
            let name = match &m.name {
                Some(n) => n.clone(),
                None => owned(""),
            };
            let call = OpenAIMessageToolCall {
                id,
                call_type: owned("function"),
                name,
                arguments: arguments.to_text(),
            };
            out.push(
                OpenAIMessage {
                    role: owned("assistant"),
                    content: None,
                    tool_call_id: None,
                    name: None,
                    tool_calls: Some(vec![call]),
                },
            );
        } else {
            let tool_call_id = if m.role == ChatRole::Tool {
                match &m.tool_call_id {
                    Some(id) => Some(id.clone()),
                    None => None,
                }
            } else {
                None
            };
            out.push(
                OpenAIMessage {
                    role: role_text(m.role),
                    content: Some(JsonValue::Str(m.content.clone())),
                    tool_call_id,
                    name: None,
                    tool_calls: None,
                },
            );
        }
        i = i + 1;
    }
    out
}

/// The calls among `calls` of type `function`, in order.
pub open spec fn function_calls(calls: Seq<OpenAIMessageToolCall>) -> Seq<OpenAIMessageToolCall>
    decreases calls.len(),
{
    if calls.len() == 0 {
        Seq::empty()
    } else if calls.last().call_type@ == "function"@ {
        function_calls(calls.drop_last()).push(calls.last())
    } else {
        function_calls(calls.drop_last())
    }
}

/// Call `i` is the first whose arguments do not parse.
pub open spec fn first_unparsed(fs: Seq<OpenAIMessageToolCall>, i: int) -> bool {
    &&& json_parse(fs[i].arguments@) is None
    &&& forall|j: int| 0 <= j < i ==> json_parse(#[trigger] fs[j].arguments@) is Some
}

/// Reads the tool calls of an OpenAI reply: the function calls, in order,
/// each with its arguments parsed; the first that does not parse fails the
/// whole reading.
pub fn parse_openai_tool_calls(calls: &[OpenAIMessageToolCall]) -> (r: Result<
    Vec<ToolCall>,
    ProviderError,
>)
    ensures
        ({
            let fs = function_calls(calls@);
            match r {
                Ok(out) => out@.len() == fs.len() && forall|i: int|
                    0 <= i < fs.len() ==> (#[trigger] out@[i]).id@ == fs[i].id@ && out@[i].name@
                        == fs[i].name@ && json_parse(fs[i].arguments@) == Some(out@[i].arguments@),
                Err(e) => exists|i: int|
                    0 <= i < fs.len() && first_unparsed(fs, i) && (e matches ProviderError::Serialization(
                        m,
                    ) && m@ == json_error_text(fs[i].arguments@)),
            }
        }),
{
    let mut out: Vec<ToolCall> = Vec::new();
    let mut i: usize = 0;
    while i < calls.len()
        invariant
            i <= calls@.len(),
            ({
                let fs = function_calls(calls@.take(i as int));
                out@.len() == fs.len() && forall|k: int|
                    0 <= k < fs.len() ==> (#[trigger] out@[k]).id@ == fs[k].id@ && out@[k].name@
                        == fs[k].name@ && json_parse(fs[k].arguments@) == Some(out@[k].arguments@)
            }),
        decreases calls@.len() - i,
    {
        let c = &calls[i];
        assert(calls@.take(i + 1).drop_last() =~= calls@.take(i as int));
        assert(calls@.take(i + 1).last() == calls@[i as int]);
        if str_is(c.call_type.as_str(), "function") {
            match JsonValue::parse_or_error(c.arguments.as_str()) {
                Ok(arguments) => {
                    out.push(ToolCall { id: c.id.clone(), name: c.name.clone(), arguments });
                },
                Err(m) => {
                    proof {
                        lemma_function_calls_prefix(calls@, i + 1);
                        let fs = function_calls(calls@);
                        let k = function_calls(calls@.take(i as int)).len() as int;
                        assert(function_calls(calls@.take(i + 1)) == function_calls(
                            calls@.take(i as int),
                        ).push(*c));
                        assert(fs[k] == *c);
                        assert(json_parse(fs[k].arguments@) is None);
                        assert forall|j: int| 0 <= j < k implies json_parse(
                            #[trigger] fs[j].arguments@,
                        ) is Some by {
                            assert(fs[j] == function_calls(calls@.take(i as int))[j]);
                            assert(json_parse(fs[j].arguments@) == Some(out@[j].arguments@));
                        }
                        assert(first_unparsed(fs, k));
                    }
                    return Err(ProviderError::Serialization(m));
                },
            }
        }
        i = i + 1;
    }
    assert(calls@.take(calls@.len() as int) =~= calls@);
    Ok(out)
}

/// The function calls of a prefix are a prefix of the function calls.
proof fn lemma_function_calls_prefix(calls: Seq<OpenAIMessageToolCall>, n: int)
    requires
        0 <= n <= calls.len(),
    ensures
        function_calls(calls.take(n)).len() <= function_calls(calls).len(),
        forall|k: int|
            0 <= k < function_calls(calls.take(n)).len() ==> function_calls(calls)[k]
                == function_calls(calls.take(n))[k],
    decreases calls.len() - n,
{
    if n < calls.len() {
        lemma_function_calls_prefix(calls, n + 1);
        assert(calls.take(n + 1).drop_last() =~= calls.take(n));
    } else {
        assert(calls.take(n) =~= calls);
    }
}

// ── Endpoints ──
/// `url` without trailing slashes.
pub open spec fn trimmed_url(url: Seq<char>) -> Seq<char>
    decreases url.len(),
{
    if url.len() > 0 && url.last() == '/' {
        trimmed_url(url.drop_last())
    } else {
        url
    }
}

/// A provider's base URL without trailing slashes.
pub fn normalize_base_url(url: &str) -> (r: String)
    ensures
        r@ == trimmed_url(url@),
{
    let s = chars_of(url);
    let mut end: usize = s.len();
    assert(s@.take(end as int) =~= s@);
    while end > 0 && s[end - 1] == '/'
        invariant
            end <= s@.len(),
            trimmed_url(s@) == trimmed_url(s@.take(end as int)),
        decreases end,
    {
        assert(s@.take(end as int).drop_last() =~= s@.take(end - 1));
        end = end - 1;
    }
    let kept = slice_chars(&s, 0, end);
    assert(kept@ =~= s@.take(end as int));
    string_of(&kept)
}

} // verus!
