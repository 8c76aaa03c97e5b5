//! The tool-using conversation of an agent: how tool calls are read out of a
//! model's reply, how calls and results are written back into the
//! conversation, and the steps of the loop that alternates model replies and
//! tool runs.
use vstd::prelude::*;
use crate::json::{Json, JsonValue, canonical, json_get, json_parse, json_text, json_error_text, key_lt, keys_ascending, lemma_canonical_parts, lemma_object_view, member_str};
use crate::access::{AgentToolContext, ContextModel, agent_call_denial, authorize_agent_tool_call, denial_message};
use crate::chat::{opt_text, plain_message};
use crate::error::VidaError;
use crate::mcp::{McpError, McpTool, McpToolResult, McpToolResultContent, mcp_error_text};
use crate::providers::{ChatMessage, ChatRole};
use crate::tool_validator::{call_valid, first_tool_named, schema_error, validate_tool_call};
use crate::providers::{ToolCall, ToolDefinition, CompletionResponse};
use crate::text::{
    chars_of, decimal, find_first, find_text, lemma_find_first, owned, append_str, push_chars,
    push_decimal, slice_chars, string_of, trim_chars, trim_seq,
};

verus! {

/// The most model replies that one run of the loop asks for while tools are
/// on offer.
pub const MAX_TOOL_ITERATIONS: usize = 8;

/// How long, in seconds, one tool call may take.
pub const TOOL_CALL_TIMEOUT_SECS: u64 = 30;

/// The tag that opens a tool call written in a reply.
pub open spec fn call_start() -> Seq<char> {
    "<tool_call>"@
}

/// The tag that closes a tool call written in a reply.
pub open spec fn call_end() -> Seq<char> {
    "</tool_call>"@
}

pub proof fn lemma_tag_lengths()
    ensures
        call_start().len() == 11,
        call_end().len() == 12,
{
    reveal_strlit("<tool_call>");
    reveal_strlit("</tool_call>");
}

/// A tool call that the loop ran, with what it produced.
#[derive(Debug)]
pub struct ToolExecutionRecord {
    pub call: ToolCall,
    pub result: McpToolResult,
}

/// The final reply of a loop run, and the tool calls run on the way.
#[derive(Debug)]
pub struct AgentLoopResult {
    pub response: CompletionResponse,
    pub records: Vec<ToolExecutionRecord>,
}

// ── Tool results as text ──
/// The texts of the first `n` parts, one per line.
pub open spec fn joined_lines(parts: Seq<McpToolResultContent>, n: int) -> Seq<char>
    decreases n,
{
    if n <= 0 || n > parts.len() {
        Seq::empty()
    } else if n == 1 {
        parts[0].text@
    } else {
        joined_lines(parts, n - 1) + "\n"@ + parts[n - 1].text@
    }
}

/// The text of a tool result: the texts of its parts, one per line.
pub open spec fn result_text(result: McpToolResult) -> Seq<char> {
    joined_lines(result.content@, result.content@.len() as int)
}

/// The text of a tool result.
pub fn flatten_tool_result(result: &McpToolResult) -> (r: String)
    ensures
        r@ == result_text(*result),
{
    let mut out = owned("");
    proof {
        reveal_strlit("");
    }
    let mut i: usize = 0;
    while i < result.content.len()
        invariant
            i <= result.content@.len(),
            out@ == joined_lines(result.content@, i as int),
        decreases result.content@.len() - i,
    {
        if i > 0 {
            append_str(&mut out, "\n");
        }
        append_str(&mut out, result.content[i].text.as_str());
        i = i + 1;
    }
    out
}

/// How a flag is written: `true` or `false`.
pub open spec fn flag_text(b: bool) -> Seq<char> {
    if b {
        "true"@
    } else {
        "false"@
    }
}

/// The tag that reports a tool's result to the model.
pub open spec fn result_tag(name: Seq<char>, result: McpToolResult) -> Seq<char> {
    "<tool_result name=\""@ + name + "\" error=\""@ + flag_text(result.is_error) + "\">"@
        + result_text(result) + "</tool_result>"@
}

/// The tag that reports a tool's result to the model.
pub fn format_tool_result_tag(name: &str, result: &McpToolResult) -> (r: String)
    ensures
        r@ == result_tag(name@, *result),
{
    let mut out = owned("<tool_result name=\"");
    append_str(&mut out, name);
    append_str(&mut out, "\" error=\"");
    if result.is_error {
        append_str(&mut out, "true");
    } else {
        append_str(&mut out, "false");
    }
    append_str(&mut out, "\">");
    let text = flatten_tool_result(result);
    append_str(&mut out, text.as_str());
    append_str(&mut out, "</tool_result>");
    out
}

// ── Tool calls as text ──
/// The JSON object that stands for a call: its arguments, id and name.
pub open spec fn call_json(call: ToolCall) -> Json {
    Json::Object(
        seq![
            ("arguments"@, call.arguments@),
            ("id"@, Json::Str(call.id@)),
            ("name"@, Json::Str(call.name@)),
        ],
    )
}

/// The tag in which a call is written back into the conversation.
pub open spec fn call_tag(call: ToolCall) -> Seq<char> {
    call_start() + json_text(call_json(call)) + call_end()
}

proof fn lemma_call_json_canonical(call: ToolCall)
    requires
        canonical(call.arguments@),
    ensures
        canonical(call_json(call)),
{
    reveal_strlit("arguments");
    reveal_strlit("id");
    reveal_strlit("name");
    let m = call_json(call)->Object_0;
    assert(key_lt("arguments"@, "id"@)) by {
        assert(("arguments"@).take(0) =~= ("id"@).take(0));
    }
    assert(key_lt("id"@, "name"@)) by {
        assert(("id"@).take(0) =~= ("name"@).take(0));
    }
    assert(key_lt("arguments"@, "name"@)) by {
        assert(("arguments"@).take(0) =~= ("name"@).take(0));
    }
    assert(keys_ascending(m));
    lemma_canonical_parts(call_json(call));
    assert forall|i: int| 0 <= i < m.len() implies #[trigger] canonical(m[i].1) by {
        if i == 0 {
        } else {
        }
    }
}

/// The tag in which a call is written back into the conversation; exact
/// where the arguments list object members by ascending name, as parsed
/// documents do.
pub fn format_tool_call_tag(call: &ToolCall) -> (r: String)
    ensures
        canonical(call.arguments@) ==> r@ == call_tag(*call),
{
    let entries: Vec<(String, JsonValue)> = vec![
        (owned("arguments"), call.arguments.deep_copy()),
        (owned("id"), JsonValue::Str(call.id.clone())),
        (owned("name"), JsonValue::Str(call.name.clone())),
    ];
    proof {
        lemma_object_view(entries);
    }
    let object = JsonValue::Object(entries);
    assert(object@->Object_0 =~= call_json(*call)->Object_0);
    proof {
        if canonical(call.arguments@) {
            lemma_call_json_canonical(*call);
        }
    }
    let text = object.to_text();
    let mut out = owned("<tool_call>");
    append_str(&mut out, text.as_str());
    append_str(&mut out, "</tool_call>");
    out
}

// ── Reading tool calls out of a reply ──
/// `s` from position `i` on, with every complete tool-call tag taken out and
/// everything from an unclosed one on dropped.
pub open spec fn strip_from(s: Seq<char>, i: int) -> Seq<char>
    decreases s.len() - i,
{
    if i < 0 || i > s.len() {
        Seq::empty()
    } else {
        match find_first(s, call_start(), i) {
            None => s.subrange(i, s.len() as int),
            Some(st) => {
                proof {
                    lemma_find_first(s, call_start(), i);
                    lemma_find_first(s, call_end(), st + call_start().len());
                    lemma_tag_lengths();
                }
                s.subrange(i, st) + match find_first(s, call_end(), st + call_start().len()) {
                    None => Seq::empty(),
                    Some(en) => strip_from(s, en + call_end().len()),
                }
            },
        }
    }
}

/// A reply's text without its tool-call tags.
pub fn strip_tool_markup(content: &str) -> (r: String)
    ensures
        r@ == strip_from(content@, 0),
{
    let s = chars_of(content);
    let start = chars_of("<tool_call>");
    let end = chars_of("</tool_call>");
    proof {
        lemma_tag_lengths();
    }
    let mut out = owned("");
    proof {
        reveal_strlit("");
    }
    let mut cursor: usize = 0;
    let n = s.len();
    loop
        invariant
            cursor <= s@.len(),
            n == s@.len(),
            s@ == content@,
            start@ == call_start(),
            end@ == call_end(),
            out@ + strip_from(s@, cursor as int) == strip_from(s@, 0),
        decreases s@.len() - cursor,
    {
        proof {
            lemma_tag_lengths();
            lemma_find_first(s@, start@, cursor as int);
        }
        match find_text(&s, &start, cursor) {
            None => {
                let rest = slice_chars(&s, cursor, s.len());
                push_chars(&mut out, &rest);
                return out;
            },
            Some(st) => {
                assert(st + 11 <= s@.len());
                let after_start: usize = st + 11;
                let head = slice_chars(&s, cursor, st);
                push_chars(&mut out, &head);
                proof {
                    lemma_find_first(s@, end@, after_start as int);
                }
                match find_text(&s, &end, after_start) {
                    None => {
                        assert(out@ == strip_from(s@, 0));
                        return out;
                    },
                    Some(en) => {
                        assert(en + 12 <= s@.len());
                        assert(strip_from(s@, cursor as int) == head@ + strip_from(s@, en + 12));
                        cursor = en + 12;
                    },
                }
            },
        }
    }
}

/// A call read from a reply: its id, its name and its arguments.
pub struct CallModel {
    pub id: Seq<char>,
    pub name: Seq<char>,
    pub arguments: Json,
}

/// The arguments of a written call: its `arguments` member, else its `args`
/// member, else an empty object.
pub open spec fn written_arguments(v: Json) -> Json {
    match json_get(v, "arguments"@) {
        Some(a) => a,
        None => match json_get(v, "args"@) {
            Some(a) => a,
            None => Json::Object(Seq::empty()),
        },
    }
}

/// The calls written in `s` from position `i` on, where calls without an id
/// are numbered from `next`: each complete tag must hold a JSON object with a
/// `name`; reading stops at an unclosed tag.
pub open spec fn calls_from(s: Seq<char>, i: int, next: nat) -> Result<Seq<CallModel>, Seq<char>>
    decreases s.len() - i,
{
    if i < 0 || i > s.len() {
        Ok(Seq::empty())
    } else {
        match find_first(s, call_start(), i) {
            None => Ok(Seq::empty()),
            Some(st) => {
                proof {
                    lemma_find_first(s, call_start(), i);
                    lemma_find_first(s, call_end(), st + call_start().len());
                    lemma_tag_lengths();
                }
                match find_first(s, call_end(), st + call_start().len()) {
                    None => Ok(Seq::empty()),
                    Some(en) => {
                        let blob = trim_seq(s.subrange(st + call_start().len(), en));
                        match json_parse(blob) {
                            None => Err("Invalid <tool_call> payload: "@ + json_error_text(blob)),
                            Some(v) => match member_str(v, "name"@) {
                                None => Err("Tool call missing 'name'"@),
                                Some(name) => {
                                    let (id, after) = match member_str(v, "id"@) {
                                        Some(id) => (id, next),
                                        None => ("call_"@ + decimal(next), next + 1),
                                    };
                                    match calls_from(s, en + call_end().len(), after) {
                                        Ok(rest) => Ok(
                                            seq![
                                                CallModel {
                                                    id,
                                                    name,
                                                    arguments: written_arguments(v),
                                                },
                                            ] + rest,
                                        ),
                                        Err(e) => Err(e),
                                    }
                                },
                            },
                        }
                    },
                }
            },
        }
    }
}

/// `call` is the call that `m` describes.
pub open spec fn call_matches(call: ToolCall, m: CallModel) -> bool {
    call.id@ == m.id && call.name@ == m.name && call.arguments@ == m.arguments
}

/// The calls in `calls` are those that `models` describe.
pub open spec fn calls_match(calls: Seq<ToolCall>, models: Seq<CallModel>) -> bool {
    calls.len() == models.len() && forall|k: int|
        0 <= k < calls.len() ==> call_matches(#[trigger] calls[k], models[k])
}

/// Reads the tool calls that a reply writes as `<tool_call>` tags.
pub fn parse_tagged_tool_calls(content: &str) -> (r: Result<Vec<ToolCall>, String>)
    ensures
        match r {
            Ok(calls) => calls_from(content@, 0, 1) matches Ok(models) && calls_match(
                calls@,
                models,
            ),
            Err(m) => calls_from(content@, 0, 1) == Err::<Seq<CallModel>, Seq<char>>(m@),
        },
{
    let s = chars_of(content);
    let start = chars_of("<tool_call>");
    let end = chars_of("</tool_call>");
    proof {
        lemma_tag_lengths();
    }
    let mut calls: Vec<ToolCall> = Vec::new();
    let mut cursor: usize = 0;
    let mut next: usize = 1;
    let ghost mut done: Seq<CallModel> = Seq::empty();
    let n = s.len();
    loop
        invariant
            cursor <= s@.len(),
            n == s@.len(),
            next <= cursor + 1,
            s@ == content@,
            start@ == call_start(),
            end@ == call_end(),
            calls_match(calls@, done),
            calls_from(s@, 0, 1) == match calls_from(s@, cursor as int, next as nat) {
                Ok(rest) => Ok(done + rest),
                Err(e) => Err::<Seq<CallModel>, Seq<char>>(e),
            },
        decreases s@.len() - cursor,
    {
        proof {
            lemma_tag_lengths();
            lemma_find_first(s@, start@, cursor as int);
        }
        let st = match find_text(&s, &start, cursor) {
            None => {
                assert(done + Seq::<CallModel>::empty() =~= done);
                return Ok(calls);
            },
            Some(st) => st,
        };
        proof {
            lemma_find_first(s@, end@, st + 11);
        }
        let en = match find_text(&s, &end, st + 11) {
            None => {
                assert(done + Seq::<CallModel>::empty() =~= done);
                return Ok(calls);
            },
            Some(en) => en,
        };
        let inner = slice_chars(&s, st + 11, en);
        let blob = string_of(&trim_chars(&inner));
        let value = match JsonValue::parse_or_error(blob.as_str()) {
            Ok(v) => v,
            Err(e) => {
                let mut m = owned("Invalid <tool_call> payload: ");
                append_str(&mut m, e.as_str());
                return Err(m);
            },
        };
        let name = match value.get_str("name") {
            Some(n) => n.clone(),
            None => {
                return Err(owned("Tool call missing 'name'"));
            },
        };
        let ghost next_before = next;
        let id = match value.get_str("id") {
            Some(id) => id.clone(),
            None => {
                let mut id = owned("call_");
                push_decimal(&mut id, next as u64);
                next = next + 1;
                id
            },
        };
        let arguments = match value.get("arguments") {
            Some(a) => a.deep_copy(),
            None => match value.get("args") {
                Some(a) => a.deep_copy(),
                None => JsonValue::empty_object(),
            },
        };
        let ghost model = CallModel { id: id@, name: name@, arguments: arguments@ };
        assert(model.arguments == written_arguments(value@));
        calls.push(ToolCall { id, name, arguments });
        proof {
            assert(calls_from(s@, cursor as int, next_before as nat) == match calls_from(
                s@,
                en + 12,
                next as nat,
            ) {
                Ok(rest) => Ok(seq![model] + rest),
                Err(e) => Err::<Seq<CallModel>, Seq<char>>(e),
            });
            match calls_from(s@, en + 12, next as nat) {
                Ok(rest) => {
                    assert(done + (seq![model] + rest) =~= done.push(model) + rest);
                },
                Err(e) => {},
            }
            done = done.push(model);
            assert forall|k: int| 0 <= k < calls@.len() implies call_matches(
                #[trigger] calls@[k],
                done[k],
            ) by {
                if k < calls@.len() - 1 {
                    assert(calls@[k] == old_calls_at(calls@, k));
                }
            }
        }
        cursor = en + 12;
    }
}

spec fn old_calls_at(calls: Seq<ToolCall>, k: int) -> ToolCall {
    calls[k]
}

// ── The rendered transcript of a run ──
/// The tags of the first `n` records: each call, then its result, one per line.
pub open spec fn records_text(records: Seq<ToolExecutionRecord>, n: int) -> Seq<char>
    decreases n,
{
    if n <= 0 || n > records.len() {
        Seq::empty()
    } else {
        records_text(records, n - 1) + call_tag(records[n - 1].call) + "\n"@ + result_tag(
            records[n - 1].call.name@,
            records[n - 1].result,
        ) + "\n"@
    }
}

/// What a run shows the user: the tags of the calls it made and their
/// results, then the final reply without tool-call tags, all trimmed.
pub open spec fn rendered(result: AgentLoopResult) -> Seq<char> {
    trim_seq(
        records_text(result.records@, result.records@.len() as int) + trim_seq(
            strip_from(result.response.content@, 0),
        ),
    )
}

/// Every call of `records` has arguments that list object members by
/// ascending name, as parsed documents do.
pub open spec fn records_canonical(records: Seq<ToolExecutionRecord>) -> bool {
    forall|i: int| 0 <= i < records.len() ==> canonical(#[trigger] records[i].call.arguments@)
}

impl AgentLoopResult {
    /// What the run shows the user.
    pub fn rendered_content(&self) -> (r: String)
        ensures
            records_canonical(self.records@) ==> r@ == rendered(*self),
    {
        let mut out = owned("");
        proof {
            reveal_strlit("");
        }
        let mut i: usize = 0;
        while i < self.records.len()
            invariant
                i <= self.records@.len(),
                records_canonical(self.records@) ==> out@ == records_text(self.records@, i as int),
            decreases self.records@.len() - i,
        {
            let record = &self.records[i];
            let call = format_tool_call_tag(&record.call);
            append_str(&mut out, call.as_str());
            append_str(&mut out, "\n");
            let result = format_tool_result_tag(record.call.name.as_str(), &record.result);
            append_str(&mut out, result.as_str());
            append_str(&mut out, "\n");
            i = i + 1;
        }
        let stripped = strip_tool_markup(self.response.content.as_str());
        let final_content = trim_chars(&chars_of(stripped.as_str()));
        if final_content.len() > 0 {
            push_chars(&mut out, &final_content);
        } else {
            assert(out@ + final_content@ =~= out@);
        }
        string_of(&trim_chars(&chars_of(out.as_str())))
    }
}

// ── Offering tools ──
/// The prompt that tells a model without native tool calling how to call
/// the tools listed in `tool_json`.
pub open spec fn fallback_prompt(tool_json: Seq<char>) -> Seq<char> {
    "You can use tools. Available tools are:\n"@ + tool_json
        + "\nIf you need a tool, answer with only one tag in this exact format:\n<tool_call>{\"id\":\"call_1\",\"name\":\"tool_name\",\"arguments\":{...}}</tool_call>\nDo not add explanation around the tag. After receiving tool results, continue normally."@
}

/// The prompt that tells a model without native tool calling how to call
/// tools, given the pretty-printed JSON list of their definitions.
pub fn build_fallback_tool_prompt(tool_json: &str) -> (r: String)
    ensures
        r@ == fallback_prompt(tool_json@),
{
    let mut out = owned("You can use tools. Available tools are:\n");
    append_str(&mut out, tool_json);
    append_str(
        &mut out,
        "\nIf you need a tool, answer with only one tag in this exact format:\n<tool_call>{\"id\":\"call_1\",\"name\":\"tool_name\",\"arguments\":{...}}</tool_call>\nDo not add explanation around the tag. After receiving tool results, continue normally.",
    );
    out
}

/// `def` offers the MCP tool `tool` to a model.
pub open spec fn defines(def: ToolDefinition, tool: McpTool) -> bool {
    def.name@ == tool.name@ && def.description@ == tool.description@ && def.parameters@
        == tool.input_schema@
}

/// The definitions under which MCP tools are offered to a model.
pub fn to_tool_definitions(tools: &[McpTool]) -> (r: Vec<ToolDefinition>)
    ensures
        r@.len() == tools@.len(),
        forall|i: int| 0 <= i < tools@.len() ==> defines(#[trigger] r@[i], tools@[i]),
{
    let mut out: Vec<ToolDefinition> = Vec::new();
    let mut i: usize = 0;
    while i < tools.len()
        invariant
            i <= tools@.len(),
            out@.len() == i,
            forall|k: int| 0 <= k < i ==> defines(#[trigger] out@[k], tools@[k]),
        decreases tools@.len() - i,
    {
        out.push(
            ToolDefinition {
                name: tools[i].name.clone(),
                description: tools[i].description.clone(),
                parameters: tools[i].input_schema.deep_copy(),
            },
        );
        i = i + 1;
    }
    out
}

// ── The loop ──
/// What the application does next for a running loop.
#[derive(Debug)]
pub enum AgentStep {
    /// Ask the provider for a reply to the loop's messages (offering the
    /// loop's tool definitions, if it has any), and hand the reply to
    /// `on_reply`.
    Complete,
    /// Run the named tool with these arguments on the MCP server that offers
    /// it, and hand the outcome to `tool_finished`.
    RunTool { name: String, arguments: JsonValue },
    /// The run is over.
    Finished(AgentLoopResult),
    /// The run failed.
    Failed(VidaError),
}

/// The model of an optional working area.
pub open spec fn context_model(c: Option<AgentToolContext>) -> Option<ContextModel> {
    match c {
        Some(ctx) => Some(ctx@),
        None => None,
    }
}

/// A call of `name` with `args` may run: it is valid against the tools on
/// offer, and, where the agent works in an area, the access policy lets it
/// make the call.
pub open spec fn call_may_run(
    name: Seq<char>,
    args: Json,
    defs: Seq<ToolDefinition>,
    ctx: Option<ContextModel>,
) -> bool {
    call_valid(name, args, defs) && match ctx {
        Some(c) => agent_call_denial(name, args, c) is None,
        None => true,
    }
}

/// The call that `call` is, as read from a reply.
pub open spec fn call_model(call: ToolCall) -> CallModel {
    CallModel { id: call.id@, name: call.name@, arguments: call.arguments@ }
}

/// The calls a reply asks for: its tool calls where it has any, else those
/// written as `<tool_call>` tags in its text.
pub open spec fn reply_calls(response: CompletionResponse) -> Result<Seq<CallModel>, Seq<char>> {
    if response.tool_calls@.len() > 0 {
        Ok(Seq::new(response.tool_calls@.len(), |k: int| call_model(response.tool_calls@[k])))
    } else {
        calls_from(response.content@, 0, 1)
    }
}

/// Why a call of `name` with `args` may not run: no tool of that name is on
/// offer, or its arguments do not fit the first such tool's schema, or the
/// access policy of the working area refuses it.
pub open spec fn refusal_text(
    name: Seq<char>,
    args: Json,
    defs: Seq<ToolDefinition>,
    ctx: Option<ContextModel>,
) -> Seq<char> {
    if !call_valid(name, args, defs) {
        if exists|i: int| first_tool_named(defs, name, i) {
            let i = choose|i: int| first_tool_named(defs, name, i);
            match schema_error(args, defs[i].parameters@) {
                Some(m) => "Invalid arguments for tool '"@ + name + "': "@ + m,
                None => Seq::empty(),
            }
        } else {
            "Tool '"@ + name + "' not found in available tools"@
        }
    } else {
        match ctx {
            Some(c) => match agent_call_denial(name, args, c) {
                Some(d) => denial_message(d),
                None => Seq::empty(),
            },
            None => Seq::empty(),
        }
    }
}

/// The message of a run whose model kept asking for tools after its last
/// allowed reply.
pub open spec fn exceeded_text() -> Seq<char> {
    "Agent loop exceeded "@ + decimal(MAX_TOOL_ITERATIONS as nat) + " tool iterations"@
}

/// `r` is the step that the state of `l` calls for: the first waiting call,
/// if it may run, else its refusal; with no call waiting, another reply,
/// unless the model has given all the replies it may, which fails the run.
pub open spec fn next_step(l: AgentLoop, r: AgentStep) -> bool {
    if l.calls_left() > 0 {
        let c = l.current_call();
        if call_may_run(c.name@, c.arguments@, l.offered(), l.area()) {
            r matches AgentStep::RunTool { name, arguments } && name@ == c.name@ && arguments@
                == c.arguments@
        } else {
            r matches AgentStep::Failed(e) && (e matches VidaError::Config(m) && m@ == refusal_text(
                c.name@,
                c.arguments@,
                l.offered(),
                l.area(),
            ))
        }
    } else if l.replies() >= MAX_TOOL_ITERATIONS {
        r matches AgentStep::Failed(e) && (e matches VidaError::Config(m) && m@ == exceeded_text())
    } else {
        r is Complete
    }
}

/// A run asks the model for another reply only while it has given fewer
/// than the most it may; once it has given that many and no call of its last
/// reply is waiting, the run fails with the iteration error; while calls
/// wait, the next one runs or is refused.
pub proof fn law_replies_bounded(l: AgentLoop, r: AgentStep)
    requires
        l.wf(),
        next_step(l, r),
    ensures
        r is Complete ==> l.replies() < MAX_TOOL_ITERATIONS,
        l.calls_left() == 0 && l.replies() >= MAX_TOOL_ITERATIONS ==> (r matches AgentStep::Failed(
            e,
        ) && (e matches VidaError::Config(m) && m@ == exceeded_text())),
        l.calls_left() == 0 && l.replies() < MAX_TOOL_ITERATIONS ==> r is Complete,
        l.calls_left() > 0 ==> (r is RunTool || r is Failed),
{
}

/// Some tool on offer is named `name`, so a first one is.
proof fn lemma_first_named(tools: Seq<ToolDefinition>, name: Seq<char>, k: int)
    requires
        0 <= k < tools.len(),
        tools[k].name@ == name,
    ensures
        exists|i: int| first_tool_named(tools, name, i),
    decreases k,
{
    if exists|j: int| 0 <= j < k && tools[j].name@ == name {
        let j = choose|j: int| 0 <= j < k && tools[j].name@ == name;
        lemma_first_named(tools, name, j);
    } else {
        assert(first_tool_named(tools, name, k));
    }
}

/// The text recorded for a tool call that failed with `e`.
pub open spec fn tool_failure_text(e: McpError) -> Seq<char> {
    "Tool execution error: "@ + mcp_error_text(e)
}

/// A conversation in which a model may call tools, run one step at a time:
/// the application asks the model and runs the tools; the loop decides.
pub struct AgentLoop {
    messages: Vec<ChatMessage>,
    definitions: Vec<ToolDefinition>,
    context: Option<AgentToolContext>,
    records: Vec<ToolExecutionRecord>,
    pending: Vec<ToolCall>,
    next_pending: usize,
    completions: usize,
}

impl AgentLoop {
    /// The conversation so far.
    pub closed spec fn conversation(&self) -> Seq<ChatMessage> {
        self.messages@
    }

    /// The tools on offer.
    pub closed spec fn offered(&self) -> Seq<ToolDefinition> {
        self.definitions@
    }

    /// The agent's working area, if it has one.
    pub closed spec fn area(&self) -> Option<ContextModel> {
        context_model(self.context)
    }

    /// How many replies the model has given.
    pub closed spec fn replies(&self) -> nat {
        self.completions as nat
    }

    /// How many tool calls have been run.
    pub closed spec fn runs(&self) -> nat {
        self.records@.len()
    }

    /// How many calls of the last reply are still to run.
    pub closed spec fn calls_left(&self) -> int {
        self.pending@.len() - self.next_pending
    }

    /// The calls of the last reply still to run, in order.
    pub closed spec fn waiting(&self) -> Seq<ToolCall> {
        self.pending@.subrange(self.next_pending as int, self.pending@.len() as int)
    }

    /// The call of the last reply that runs next.
    pub closed spec fn current_call(&self) -> ToolCall {
        self.pending@[self.next_pending as int]
    }

    /// The tool calls run so far, with their results.
    pub closed spec fn executed(&self) -> Seq<ToolExecutionRecord> {
        self.records@
    }

    /// The loop's bookkeeping is consistent: replies stay within the bound.
    pub closed spec fn wf(&self) -> bool {
        &&& self.completions <= MAX_TOOL_ITERATIONS
        &&& self.next_pending <= self.pending@.len()
    }

    /// Starts a run on `messages`, offering `tools`. With tools on offer, a
    /// system message that explains how to call them (listed in `tool_json`,
    /// the pretty-printed JSON of their definitions) ends the conversation.
    pub fn start(
        messages: Vec<ChatMessage>,
        tools: &[McpTool],
        tool_json: &str,
        context: Option<AgentToolContext>,
    ) -> (r: (AgentLoop, AgentStep))
        ensures
            r.0.wf(),
            r.1 is Complete,
            r.0.replies() == 0,
            r.0.runs() == 0,
            r.0.calls_left() == 0,
            r.0.area() == context_model(context),
            r.0.offered().len() == tools@.len(),
            forall|i: int| 0 <= i < tools@.len() ==> defines(#[trigger] r.0.offered()[i], tools@[i]),
            tools@.len() == 0 ==> r.0.conversation() == messages@,
            tools@.len() > 0 ==> r.0.conversation().len() == messages@.len() + 1
                && r.0.conversation().take(messages@.len() as int) == messages@
                && r.0.conversation().last().role == ChatRole::System
                && r.0.conversation().last().content@ == fallback_prompt(tool_json@),
    {
        let definitions = to_tool_definitions(tools);
        let mut messages = messages;
        let ghost given = messages@;
        if tools.len() > 0 {
            messages.push(
                ChatMessage {
                    role: ChatRole::System,
                    content: build_fallback_tool_prompt(tool_json),
                    tool_call_id: None,
                    name: None,
                },
            );
            assert(messages@.take(given.len() as int) =~= given);
        }
        let l = AgentLoop {
            messages,
            definitions,
            context,
            records: Vec::new(),
            pending: Vec::new(),
            next_pending: 0,
            completions: 0,
        };
        (l, AgentStep::Complete)
    }

    /// The conversation to send to the model.
    pub fn messages(&self) -> (r: &Vec<ChatMessage>)
        ensures
            r@ == self.conversation(),
    {
        &self.messages
    }

    /// The tool definitions to offer the model.
    pub fn tool_definitions(&self) -> (r: &Vec<ToolDefinition>)
        ensures
            r@ == self.offered(),
    {
        &self.definitions
    }

    /// The next pending call, checked, or the end of this round of calls.
    fn next_call(&self) -> (r: AgentStep)
        requires
            self.wf(),
        ensures
            next_step(*self, r),
    {
        if self.next_pending < self.pending.len() {
            let call = &self.pending[self.next_pending];
            match validate_tool_call(call, self.definitions.as_slice()) {
                Ok(()) => {},
                Err(e) => {
                    proof {
                        let defs = self.definitions@;
                        if exists|k: int| 0 <= k < defs.len() && defs[k].name@ == call.name@ {
                            let k = choose|k: int| 0 <= k < defs.len() && defs[k].name@ == call.name@;
                            lemma_first_named(defs, call.name@, k);
                            let i = choose|i: int| first_tool_named(defs, call.name@, i);
                            assert(first_tool_named(defs, call.name@, i));
                        }
                    }
                    return AgentStep::Failed(VidaError::Config(e.message()));
                },
            }
            if let Some(context) = &self.context {
                match authorize_agent_tool_call(call.name.as_str(), &call.arguments, context) {
                    Ok(()) => {},
                    Err(m) => {
                        return AgentStep::Failed(VidaError::Config(m));
                    },
                }
            }
            AgentStep::RunTool { name: call.name.clone(), arguments: call.arguments.deep_copy() }
        } else if self.completions >= MAX_TOOL_ITERATIONS {
            let mut m = owned("Agent loop exceeded ");
            push_decimal(&mut m, MAX_TOOL_ITERATIONS as u64);
            append_str(&mut m, " tool iterations");
            AgentStep::Failed(VidaError::Config(m))
        } else {
            AgentStep::Complete
        }
    }

    /// Takes the model's reply. Without tools on offer, or when the reply
    /// calls no tool, the run is over with this reply. Otherwise the reply's
    /// text, if any, joins the conversation and its calls are run in order.
    pub fn on_reply(&mut self, response: CompletionResponse) -> (r: AgentStep)
        requires
            old(self).wf(),
            old(self).replies() < MAX_TOOL_ITERATIONS,
        ensures
            final(self).wf(),
            final(self).offered() == old(self).offered(),
            final(self).area() == old(self).area(),
            !(r is Finished) ==> final(self).runs() == old(self).runs(),
            old(self).offered().len() == 0 ==> (r matches AgentStep::Finished(res) && res.response
                == response && res.records@.len() == 0),
            old(self).offered().len() > 0 ==> final(self).replies() == old(self).replies() + 1,
            old(self).offered().len() > 0 ==> match reply_calls(response) {
                Err(m) => r matches AgentStep::Failed(e) && (e matches VidaError::Config(t) && t@
                    == m),
                Ok(calls) => if calls.len() == 0 {
                    r matches AgentStep::Finished(res) && res.response == response && res.records@
                        == old(self).executed()
                } else {
                    &&& calls_match(final(self).waiting(), calls)
                    &&& final(self).executed() == old(self).executed()
                    &&& trim_seq(response.content@).len() == 0 ==> final(self).conversation()
                        == old(self).conversation()
                    &&& trim_seq(response.content@).len() > 0 ==> final(self).conversation().len()
                        == old(self).conversation().len() + 1 && final(self).conversation().take(
                        old(self).conversation().len() as int,
                    ) == old(self).conversation() && plain_message(
                        final(self).conversation().last(),
                        ChatRole::Assistant,
                        response.content@,
                    )
                    &&& next_step(*final(self), r)
                },
            },
            r matches AgentStep::RunTool { name, arguments } ==> call_may_run(
                name@,
                arguments@,
                final(self).offered(),
                final(self).area(),
            ),
            r is Complete ==> final(self).replies() < MAX_TOOL_ITERATIONS,
            r is RunTool ==> final(self).calls_left() > 0,
    {
        if self.definitions.len() == 0 {
            return AgentStep::Finished(AgentLoopResult { response, records: Vec::new() });
        }
        self.completions = self.completions + 1;
        let mut response = response;
        let calls = if response.tool_calls.len() > 0 {
            let mut taken: Vec<ToolCall> = Vec::new();
            std::mem::swap(&mut taken, &mut response.tool_calls);
            taken
        } else {
            match parse_tagged_tool_calls(response.content.as_str()) {
                Ok(calls) => calls,
                Err(m) => {
                    return AgentStep::Failed(VidaError::Config(m));
                },
            }
        };
        if calls.len() == 0 {
            let mut records: Vec<ToolExecutionRecord> = Vec::new();
            std::mem::swap(&mut records, &mut self.records);
            return AgentStep::Finished(AgentLoopResult { response, records });
        }
        let ghost before = self.messages@;
        let trimmed = trim_chars(&chars_of(response.content.as_str()));
        if trimmed.len() > 0 {
            self.messages.push(
                ChatMessage {
                    role: ChatRole::Assistant,
                    content: response.content.clone(),
                    tool_call_id: None,
                    name: None,
                },
            );
            assert(self.messages@.take(before.len() as int) =~= before);
        }
        self.pending = calls;
        self.next_pending = 0;
        assert(self.waiting() =~= self.pending@);
        self.next_call()
    }

    /// Takes the outcome of the tool call last asked for: the call and its
    /// result (an error result where the call could not be run) join the
    /// conversation and the record, and the next call, if any, follows.
    pub fn tool_finished(&mut self, outcome: Result<McpToolResult, McpError>) -> (r: AgentStep)
        requires
            old(self).wf(),
            old(self).calls_left() > 0,
        ensures
            final(self).wf(),
            final(self).offered() == old(self).offered(),
            final(self).area() == old(self).area(),
            final(self).replies() == old(self).replies(),
            final(self).runs() == old(self).runs() + 1,
            final(self).conversation().len() == old(self).conversation().len() + 2,
            final(self).conversation().take(old(self).conversation().len() as int) == old(
                self,
            ).conversation(),
            final(self).conversation()[old(self).conversation().len() as int].role
                == ChatRole::Assistant,
            canonical(old(self).current_call().arguments@) ==> final(self).conversation()[old(
                self,
            ).conversation().len() as int].content@ == call_tag(old(self).current_call()),
            final(self).conversation()[old(self).conversation().len() as int + 1].role == ChatRole::Tool,
            forall|k: int|
                old(self).conversation().len() <= k < old(self).conversation().len() + 2 ==> opt_text(
                    #[trigger] final(self).conversation()[k].tool_call_id,
                ) == Some(old(self).current_call().id@) && opt_text(final(self).conversation()[k].name)
                    == Some(old(self).current_call().name@),
            outcome matches Ok(res) ==> final(self).conversation()[old(self).conversation().len()
                as int + 1].content@ == result_text(res),
            outcome matches Err(e) ==> final(self).conversation()[old(self).conversation().len()
                as int + 1].content@ == tool_failure_text(e),
            r matches AgentStep::RunTool { name, arguments } ==> call_may_run(
                name@,
                arguments@,
                final(self).offered(),
                final(self).area(),
            ),
            r is Complete ==> final(self).replies() < MAX_TOOL_ITERATIONS,
            r is RunTool ==> final(self).calls_left() > 0,
            (old(self).replies() == MAX_TOOL_ITERATIONS && old(self).calls_left() == 1) ==> (r matches AgentStep::Failed(e) && (e matches VidaError::Config(
                m,
            ) && m@ == exceeded_text())),
            !(r is Finished),
            final(self).executed().len() == old(self).executed().len() + 1,
            final(self).executed().take(old(self).executed().len() as int) == old(self).executed(),
            final(self).executed().last().call == old(self).current_call(),
            outcome matches Ok(res) ==> final(self).executed().last().result == res,
            final(self).waiting() == old(self).waiting().drop_first(),
            next_step(*final(self), r),
    {
        let result = match outcome {
            Ok(res) => res,
            Err(e) => {
                let mut text = owned("Tool execution error: ");
                let m = e.message();
                append_str(&mut text, m.as_str());
                let ghost tv = text@;
                let mut content: Vec<McpToolResultContent> = Vec::new();
                content.push(McpToolResultContent { content_type: owned("text"), text });
                let r = McpToolResult { content, is_error: true };
                assert(result_text(r) == tv);
                r
            },
        };
        let i = self.next_pending;
        let mut pending: Vec<ToolCall> = Vec::new();
        std::mem::swap(&mut pending, &mut self.pending);
        let placeholder = ToolCall {
            id: owned(""),
            name: owned(""),
            arguments: JsonValue::empty_object(),
        };
        let call = pending.remove(i);
        pending.insert(i, placeholder);
        self.pending = pending;
        let count = self.pending.len();
        assert(i < count);
        let ghost before = self.messages@;
        self.messages.push(
            ChatMessage {
                role: ChatRole::Assistant,
                content: format_tool_call_tag(&call),
                tool_call_id: Some(call.id.clone()),
                name: Some(call.name.clone()),
            },
        );
        self.messages.push(
            ChatMessage {
                role: ChatRole::Tool,
                content: flatten_tool_result(&result),
                tool_call_id: Some(call.id.clone()),
                name: Some(call.name.clone()),
            },
        );
        assert(self.messages@.take(before.len() as int) =~= before);
        let ghost recs = self.records@;
        self.records.push(ToolExecutionRecord { call, result });
        assert(self.records@.take(recs.len() as int) =~= recs);
        self.next_pending = i + 1;
        assert(self.waiting() =~= old(self).waiting().drop_first());
        self.next_call()
    }
}

} // verus!
