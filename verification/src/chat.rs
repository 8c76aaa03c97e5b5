//! Conversations sent to models: how a session's history becomes the
//! messages of a request, how streamed replies are collected, and how the
//! replies of a team's agents are reported.
use vstd::prelude::*;
use crate::agent_loop::{AgentLoopResult, records_canonical, rendered};
use crate::error::VidaError;
use crate::models::{MessageRow, TeamMemberRow};
use crate::providers::{ChatMessage, ChatRole, CompletionResponse, StreamEvent, StreamEventView, events_view};
use crate::streaming::{push_token, token_events};
use crate::text::{chars_of, owned, append_str, str_is};

verus! {

/// The role of a stored message: `system` and `user` as named, anything else
/// written by a model.
pub open spec fn stored_role(role: Seq<char>) -> ChatRole {
    if role == "system"@ {
        ChatRole::System
    } else if role == "user"@ {
        ChatRole::User
    } else {
        ChatRole::Assistant
    }
}

/// The role of a stored message.
pub fn role_of_stored(role: &str) -> (r: ChatRole)
    ensures
        r == stored_role(role@),
{
    if str_is(role, "system") {
        ChatRole::System
    } else if str_is(role, "user") {
        ChatRole::User
    } else {
        ChatRole::Assistant
    }
}

/// `m` is a plain message (no tool call) with role `role` and text `text`.
pub open spec fn plain_message(m: ChatMessage, role: ChatRole, text: Seq<char>) -> bool {
    m.role == role && m.content@ == text && m.tool_call_id is None && m.name is None
}

/// A plain message.
pub fn message(role: ChatRole, content: &str) -> (r: ChatMessage)
    ensures
        plain_message(r, role, content@),
{
    ChatMessage { role, content: owned(content), tool_call_id: None, name: None }
}

/// The system prompts that open a conversation: the session's, then the
/// team's if it is not empty.
pub open spec fn prompt_texts(session_prompt: Option<Seq<char>>, team_prompt: Option<Seq<char>>) -> Seq<
    Seq<char>,
> {
    (match session_prompt {
        Some(p) => seq![p],
        None => Seq::empty(),
    }) + (match team_prompt {
        Some(p) => if p.len() > 0 {
            seq![p]
        } else {
            Seq::empty()
        },
        None => Seq::empty(),
    })
}

/// The messages of a request: the session's system prompt (if any), then a
/// team's system prompt (if any and not empty), then the stored history with
/// its roles, then the new user message.
pub open spec fn conversation_ok(
    out: Seq<ChatMessage>,
    session_prompt: Option<Seq<char>>,
    team_prompt: Option<Seq<char>>,
    history: Seq<MessageRow>,
    content: Seq<char>,
) -> bool {
    let prompts = prompt_texts(session_prompt, team_prompt);
    &&& out.len() == prompts.len() + history.len() + 1
    &&& forall|i: int|
        0 <= i < prompts.len() ==> plain_message(#[trigger] out[i], ChatRole::System, prompts[i])
    &&& forall|i: int|
        0 <= i < history.len() ==> plain_message(
            #[trigger] out[prompts.len() + i],
            stored_role(history[i].role@),
            history[i].content@,
        )
    &&& plain_message(out[out.len() - 1], ChatRole::User, content)
}

/// The model of an optional text.
pub open spec fn opt_text(s: Option<String>) -> Option<Seq<char>> {
    match s {
        Some(t) => Some(t@),
        None => None,
    }
}

/// Builds the messages of a request from a session's prompt, a team's prompt,
/// the stored history and the new user message.
pub fn build_conversation(
    session_prompt: &Option<String>,
    team_prompt: &Option<String>,
    history: &[MessageRow],
    content: &str,
) -> (r: Vec<ChatMessage>)
    ensures
        conversation_ok(r@, opt_text(*session_prompt), opt_text(*team_prompt), history@, content@),
{
    let mut out: Vec<ChatMessage> = Vec::new();
    if let Some(p) = session_prompt {
        out.push(message(ChatRole::System, p.as_str()));
    }
    if let Some(p) = team_prompt {
        if chars_of(p.as_str()).len() > 0 {
            out.push(message(ChatRole::System, p.as_str()));
        }
    }
    let ghost prompts = prompt_texts(opt_text(*session_prompt), opt_text(*team_prompt));
    assert(out@.len() == prompts.len());
    assert(forall|i: int|
        0 <= i < prompts.len() ==> plain_message(#[trigger] out@[i], ChatRole::System, prompts[i]));
    let base = out.len();
    let mut i: usize = 0;
    while i < history.len()
        invariant
            i <= history@.len(),
            base == prompts.len(),
            out@.len() == base + i,
            forall|k: int|
                0 <= k < prompts.len() ==> plain_message(#[trigger] out@[k], ChatRole::System, prompts[k]),
            forall|k: int|
                0 <= k < i ==> plain_message(
                    #[trigger] out@[base + k],
                    stored_role(history@[k].role@),
                    history@[k].content@,
                ),
        decreases history@.len() - i,
    {
        let m = &history[i];
        out.push(message(role_of_stored(m.role.as_str()), m.content.as_str()));
        i = i + 1;
    }
    out.push(message(ChatRole::User, content));
    out
}

/// `a` carries what `b` carries: role, text, call id and tool name.
pub open spec fn same_message(a: ChatMessage, b: ChatMessage) -> bool {
    a.role == b.role && a.content@ == b.content@ && opt_text(a.tool_call_id) == opt_text(
        b.tool_call_id,
    ) && opt_text(a.name) == opt_text(b.name)
}

/// A copy of an optional text.
fn copy_text(s: &Option<String>) -> (r: Option<String>)
    ensures
        opt_text(r) == opt_text(*s),
{
    match s {
        Some(t) => Some(t.clone()),
        None => None,
    }
}

/// Adds an agent's own system prompt, if it has a non-empty one.
pub fn with_member_prompt(messages: &Vec<ChatMessage>, prompt: &Option<String>) -> (r: Vec<
    ChatMessage,
>)
    ensures
        (prompt matches Some(p) && p@.len() > 0) ==> r@.len() == messages@.len() + 1 && plain_message(
            r@.last(),
            ChatRole::System,
            prompt->0@,
        ),
        !(prompt matches Some(p) && p@.len() > 0) ==> r@.len() == messages@.len(),
        forall|i: int| 0 <= i < messages@.len() ==> same_message(#[trigger] r@[i], messages@[i]),
{
    let mut out: Vec<ChatMessage> = Vec::new();
    let mut i: usize = 0;
    while i < messages.len()
        invariant
            i <= messages@.len(),
            out@.len() == i,
            forall|k: int| 0 <= k < i ==> same_message(#[trigger] out@[k], messages@[k]),
        decreases messages@.len() - i,
    {
        let m = &messages[i];
        out.push(
            ChatMessage {
                role: m.role,
                content: m.content.clone(),
                tool_call_id: copy_text(&m.tool_call_id),
                name: copy_text(&m.name),
            },
        );
        i = i + 1;
    }
    if let Some(p) = prompt {
        if chars_of(p.as_str()).len() > 0 {
            out.push(message(ChatRole::System, p.as_str()));
        }
    }
    out
}

/// The system message that tells an agent where it may read and write.
pub fn agent_policy_message(sandbox: &str) -> (r: ChatMessage)
    ensures
        plain_message(
            r,
            ChatRole::System,
            "Agent execution policy: read only within the project workspace and write only inside the sandbox at "@
                + sandbox@
                + ". Never modify team configuration, critical source code, or use shell tools."@,
        ),
{
    let mut text = owned(
        "Agent execution policy: read only within the project workspace and write only inside the sandbox at ",
    );
    append_str(&mut text, sandbox);
    append_str(
        &mut text,
        ". Never modify team configuration, critical source code, or use shell tools.",
    );
    ChatMessage { role: ChatRole::System, content: text, tool_call_id: None, name: None }
}

// ── Streams ──
/// The text a stream has delivered so far, and whether it is over.
pub struct StreamCollector {
    text: String,
    done: bool,
}

impl StreamCollector {
    /// The text collected.
    pub closed spec fn collected(&self) -> Seq<char> {
        self.text@
    }

    /// Whether the stream has ended.
    pub closed spec fn finished(&self) -> bool {
        self.done
    }

    pub fn new() -> (r: StreamCollector)
        ensures
            r.collected() == Seq::<char>::empty(),
            !r.finished(),
    {
        proof {
            reveal_strlit("");
        }
        StreamCollector { text: owned(""), done: false }
    }

    /// Takes one event: a token adds to the text, the end of the stream ends
    /// it, an error changes nothing. Every event is passed on.
    pub fn take(&mut self, event: &StreamEvent) -> (forward: bool)
        ensures
            forward,
            match event {
                StreamEvent::Token { content } => final(self).collected() == old(self).collected()
                    + content@ && final(self).finished() == old(self).finished(),
                StreamEvent::Done => final(self).finished() && final(self).collected() == old(
                    self,
                ).collected(),
                StreamEvent::Error { .. } => final(self).collected() == old(self).collected()
                    && final(self).finished() == old(self).finished(),
            },
    {
        match event {
            StreamEvent::Token { content } => {
                append_str(&mut self.text, content.as_str());
            },
            StreamEvent::Done => {
                self.done = true;
            },
            StreamEvent::Error { .. } => {},
        }
        true
    }

    /// The text collected.
    pub fn text(&self) -> (r: &String)
        ensures
            r@ == self.collected(),
    {
        &self.text
    }

    /// Whether the stream has ended.
    pub fn is_done(&self) -> (r: bool)
        ensures
            r == self.finished(),
    {
        self.done
    }
}

// ── Team replies ──
/// What a team session reports while its agents reply.
#[derive(Debug, Clone)]
pub enum TeamStreamEvent {
    AgentToken { agent_id: String, agent_name: String, agent_color: String, content: String },
    AgentDone { agent_id: String },
    AgentError { agent_id: String, error: String },
    AllDone,
}

/// The name under which an agent's replies are shown: its display name, else
/// `provider/model`.
pub fn agent_name(member: &TeamMemberRow) -> (r: String)
    ensures
        r@ == match member.display_name {
            Some(n) => n@,
            None => member.provider_id@ + "/"@ + member.model@,
        },
{
    match &member.display_name {
        Some(n) => n.clone(),
        None => {
            let mut r = member.provider_id.clone();
            append_str(&mut r, "/");
            append_str(&mut r, member.model.as_str());
            r
        },
    }
}

/// The team event for an agent's stream event: a token goes out under the
/// agent's name and color, an error under its id; the end of its stream
/// reports nothing here.
pub fn agent_event(
    event: StreamEvent,
    agent_id: &str,
    agent_name: &str,
    agent_color: &str,
) -> (r: Option<TeamStreamEvent>)
    ensures
        match event {
            StreamEvent::Token { content } => r matches Some(
                TeamStreamEvent::AgentToken { agent_id: a, agent_name: n, agent_color: c, content: t },
            ) && a@ == agent_id@ && n@ == agent_name@ && c@ == agent_color@ && t@ == content@,
            StreamEvent::Error { error } => r matches Some(TeamStreamEvent::AgentError { agent_id: a, error: e })
                && a@ == agent_id@ && e@ == error@,
            StreamEvent::Done => r is None,
        },
{
    match event {
        StreamEvent::Token { content } => Some(
            TeamStreamEvent::AgentToken {
                agent_id: owned(agent_id),
                agent_name: owned(agent_name),
                agent_color: owned(agent_color),
                content,
            },
        ),
        StreamEvent::Error { error } => Some(
            TeamStreamEvent::AgentError { agent_id: owned(agent_id), error },
        ),
        StreamEvent::Done => None,
    }
}

/// Counts the agents of a team that have finished replying.
pub struct TeamProgress {
    done: usize,
    total: usize,
}

impl TeamProgress {
    /// How many agents have finished.
    pub closed spec fn finished_count(&self) -> nat {
        self.done as nat
    }

    /// How many agents reply.
    pub closed spec fn agent_count(&self) -> nat {
        self.total as nat
    }

    pub fn new(total: usize) -> (r: TeamProgress)
        ensures
            r.finished_count() == 0,
            r.agent_count() == total,
    {
        TeamProgress { done: 0, total }
    }

    /// Records that one more agent has finished; says whether that was the
    /// last one, when the whole reply is done.
    pub fn agent_finished(&mut self) -> (all_done: bool)
        requires
            old(self).finished_count() < old(self).agent_count(),
        ensures
            final(self).finished_count() == old(self).finished_count() + 1,
            final(self).agent_count() == old(self).agent_count(),
            all_done == (final(self).finished_count() == final(self).agent_count()),
    {
        self.done = self.done + 1;
        self.done == self.total
    }
}

// ── Sending a message ──
/// How a message is answered: by the provider directly, or by the agent loop
/// where MCP tools are on offer.
#[derive(Debug, Clone, Copy, PartialEq, Eq, Structural)]
pub enum SendMode {
    Direct,
    WithTools,
}

/// How a message is answered while `tool_count` MCP tools are on offer.
pub fn send_mode(tool_count: usize) -> (r: SendMode)
    ensures
        r == (if tool_count == 0 {
            SendMode::Direct
        } else {
            SendMode::WithTools
        }),
{
    if tool_count == 0 {
        SendMode::Direct
    } else {
        SendMode::WithTools
    }
}

/// The reply that an agent loop's run gives: the run rendered as text, with
/// the model, token counts and tool calls of its final reply.
pub fn loop_reply(result: AgentLoopResult) -> (r: CompletionResponse)
    ensures
        records_canonical(result.records@) ==> r.content@ == rendered(result),
        r.model == result.response.model,
        r.prompt_tokens == result.response.prompt_tokens,
        r.completion_tokens == result.response.completion_tokens,
        r.total_tokens == result.response.total_tokens,
        r.tool_calls == result.response.tool_calls,
{
    let content = result.rendered_content();
    let response = result.response;
    CompletionResponse {
        content,
        model: response.model,
        prompt_tokens: response.prompt_tokens,
        completion_tokens: response.completion_tokens,
        total_tokens: response.total_tokens,
        tool_calls: response.tool_calls,
    }
}

/// The events by which a reply given whole is streamed: its text, unless it
/// is empty, then the end.
pub fn whole_reply_events(content: &String) -> (r: Vec<StreamEvent>)
    ensures
        events_view(r@) == token_events(content@).push(StreamEventView::Done),
{
    let mut out: Vec<StreamEvent> = Vec::new();
    push_token(&mut out, content);
    let ghost before = events_view(out@);
    out.push(StreamEvent::Done);
    assert(events_view(out@) =~= before.push(StreamEventView::Done));
    out
}

impl StreamCollector {
    /// The reply to store once the stream is over: the text collected,
    /// unless none was.
    pub fn reply_to_store(&self) -> (r: Option<String>)
        ensures
            r is Some <==> self.collected().len() > 0,
            r matches Some(t) ==> t@ == self.collected(),
    {
        if chars_of(self.text.as_str()).len() > 0 {
            Some(self.text.clone())
        } else {
            None
        }
    }
}

/// The team of a session that a team message is sent in: the session must
/// belong to one.
pub fn session_team(team_id: &Option<String>) -> (r: Result<String, VidaError>)
    ensures
        match team_id {
            Some(t) => r matches Ok(x) && x@ == t@,
            None => r matches Err(VidaError::Config(m)) && m@ == "Session has no team_id"@,
        },
{
    match team_id {
        Some(t) => Ok(t.clone()),
        None => Err(VidaError::Config(owned("Session has no team_id"))),
    }
}

/// The team looked up under `team_id`, which must exist.
pub fn found_team<T>(team: Option<T>, team_id: &str) -> (r: Result<T, VidaError>)
    ensures
        match team {
            Some(t) => r == Ok::<T, VidaError>(t),
            None => r matches Err(VidaError::Config(m)) && m@ == "Team not found: "@ + team_id@,
        },
{
    match team {
        Some(t) => Ok(t),
        None => {
            let mut m = owned("Team not found: ");
            append_str(&mut m, team_id);
            Err(VidaError::Config(m))
        },
    }
}

/// The members of a team that answer a message: all of them, in order; a
/// team without members cannot answer.
pub fn answering_members(members: Vec<TeamMemberRow>) -> (r: Result<Vec<TeamMemberRow>, VidaError>)
    ensures
        match r {
            Ok(v) => v@ == members@ && v@.len() > 0,
            Err(e) => members@.len() == 0 && (e matches VidaError::Config(t) && t@
                == "Team has no member with execution access"@),
        },
{
    if members.len() == 0 {
        Err(VidaError::Config(owned("Team has no member with execution access")))
    } else {
        Ok(members)
    }
}

/// `r` is a stored message of `session_id` under identifier `id`, with this
/// role and text, not yet stamped with a time.
pub open spec fn stored_message(
    r: MessageRow,
    id: Seq<char>,
    session_id: Seq<char>,
    role: Seq<char>,
    content: Seq<char>,
) -> bool {
    &&& r.id@ == id
    &&& r.session_id@ == session_id
    &&& r.role@ == role
    &&& r.content@ == content
    &&& r.created_at@.len() == 0
}

/// The row that stores the user's message `content` in a session.
pub fn user_message_row(id: String, session_id: &str, content: &str) -> (r: MessageRow)
    ensures
        stored_message(r, id@, session_id@, "user"@, content@),
        r.token_count is None,
        r.agent_id is None && r.agent_name is None && r.agent_color is None,
{
    MessageRow {
        id,
        session_id: owned(session_id),
        role: owned("user"),
        content: owned(content),
        token_count: None,
        created_at: String::new(),
        agent_id: None,
        agent_name: None,
        agent_color: None,
    }
}

/// The row that stores a reply given whole, with its total token count.
pub fn reply_row(id: String, session_id: &str, response: &CompletionResponse) -> (r: MessageRow)
    ensures
        stored_message(r, id@, session_id@, "assistant"@, response.content@),
        r.token_count == Some(response.total_tokens as i32),
        r.agent_id is None && r.agent_name is None && r.agent_color is None,
{
    MessageRow {
        id,
        session_id: owned(session_id),
        role: owned("assistant"),
        content: response.content.clone(),
        token_count: Some(response.total_tokens as i32),
        created_at: String::new(),
        agent_id: None,
        agent_name: None,
        agent_color: None,
    }
}

/// The row that stores a streamed reply, or an agent's streamed reply in a
/// team session under the agent's id, name and color.
pub fn streamed_reply_row(
    id: String,
    session_id: &str,
    content: String,
    agent: Option<(String, String, String)>,
) -> (r: MessageRow)
    ensures
        stored_message(r, id@, session_id@, "assistant"@, content@),
        r.token_count is None,
        match agent {
            Some((a, n, c)) => opt_text(r.agent_id) == Some(a@) && opt_text(r.agent_name) == Some(
                n@,
            ) && opt_text(r.agent_color) == Some(c@),
            None => r.agent_id is None && r.agent_name is None && r.agent_color is None,
        },
{
    let (agent_id, agent_name, agent_color) = match agent {
        Some((a, n, c)) => (Some(a), Some(n), Some(c)),
        None => (None, None, None),
    };
    MessageRow {
        id,
        session_id: owned(session_id),
        role: owned("assistant"),
        content,
        token_count: None,
        created_at: String::new(),
        agent_id,
        agent_name,
        agent_color,
    }
}

/// What a team session reports for a member whose provider is not set up:
/// an error under the member's id.
pub fn missing_provider_event(member: &TeamMemberRow) -> (r: TeamStreamEvent)
    ensures
        r matches TeamStreamEvent::AgentError { agent_id, error } && agent_id@ == member.id@ && error@
            == "Provider not found: "@ + member.provider_id@,
{
    let mut error = owned("Provider not found: ");
    append_str(&mut error, member.provider_id.as_str());
    TeamStreamEvent::AgentError { agent_id: member.id.clone(), error }
}

} // verus!
