//! Reading a provider's streamed reply: the text that arrives is cut into
//! lines, each line is read as the provider's protocol says, and what it
//! carries becomes stream events.
use vstd::prelude::*;
use crate::json::{Json, JsonValue, canonical, json_parse, json_text, key_lt, keys_ascending, lemma_canonical_parts, lemma_object_view};
use crate::provider_formats::GeminiPart;
use crate::providers::{ProviderError, StreamEvent, StreamEventView, events_view};
use crate::replies::{GeminiResponse, OllamaChatResponse, ollama_refusal_text};
use crate::text::{
    chars_of, string_of, trim_chars, starts_with_chars, slice_chars, str_is, occurs_at, trim_seq,
    owned, append_str,
};

verus! {

// ── Cutting text into lines ──
/// No line break occurs in `s`.
pub open spec fn no_newline(s: Seq<char>) -> bool {
    forall|i: int| 0 <= i < s.len() ==> s[i] != '\n'
}

/// The lines written one after the other, each ended by a line break.
pub open spec fn joined_lines(lines: Seq<Seq<char>>) -> Seq<char>
    decreases lines.len(),
{
    if lines.len() == 0 {
        Seq::empty()
    } else {
        joined_lines(lines.drop_last()) + lines.last().push('\n')
    }
}

/// The texts held by a list of strings.
pub open spec fn strings_view(v: Seq<String>) -> Seq<Seq<char>> {
    v.map_values(|s: String| s@)
}

/// The text of a stream that has not yet been ended by a line break.
pub struct LineBuffer {
    pending: String,
}

impl LineBuffer {
    /// The text received since the last line break.
    pub closed spec fn pending(&self) -> Seq<char> {
        self.pending@
    }

    /// A buffer that holds nothing yet.
    pub fn new() -> (r: LineBuffer)
        ensures
            r.pending() == Seq::<char>::empty(),
    {
        LineBuffer { pending: String::new() }
    }

    /// Adds newly received text and hands out every line it completes, in
    /// order and without their line breaks; what follows the last line
    /// break waits for more text.
    pub fn push_text(&mut self, text: &str) -> (lines: Vec<String>)
        ensures
            old(self).pending() + text@ == joined_lines(strings_view(lines@))
                + final(self).pending(),
            lines_clean(strings_view(lines@)),
            no_newline(final(self).pending()),
    {
        let mut all = chars_of(self.pending.as_str());
        let added = chars_of(text);
        let ghost whole = self.pending@ + text@;
        let mut k: usize = 0;
        while k < added.len()
            invariant
                k <= added@.len(),
                all@ == self.pending@ + added@.take(k as int),
            decreases added@.len() - k,
        {
            all.push(added[k]);
            assert(self.pending@ + added@.take(k + 1) =~= (self.pending@ + added@.take(
                k as int,
            )).push(added@[k as int]));
            k = k + 1;
        }
        assert(added@.take(added@.len() as int) =~= added@);
        assert(all@ == whole);
        let mut lines: Vec<String> = Vec::new();
        let mut cur: Vec<char> = Vec::new();
        let mut i: usize = 0;
        assert(all@.take(0) =~= joined_lines(strings_view(lines@)) + cur@);
        while i < all.len()
            invariant
                i <= all@.len(),
                all@.take(i as int) == joined_lines(strings_view(lines@)) + cur@,
                no_newline(cur@),
                forall|j: int| 0 <= j < lines@.len() ==> no_newline(#[trigger] lines@[j]@),
            decreases all@.len() - i,
        {
            let c = all[i];
            assert(all@.take(i + 1) =~= all@.take(i as int).push(c));
            if c == '\n' {
                let line = string_of(&cur);
                let ghost before = strings_view(lines@);
                lines.push(line);
                proof {
                    let after = strings_view(lines@);
                    assert(after.drop_last() =~= before);
                    assert(after.last() == cur@);
                    assert(joined_lines(after) == joined_lines(before) + cur@.push('\n'));
                    assert(all@.take(i + 1) =~= joined_lines(after) + Seq::<char>::empty());
                }
                cur = Vec::new();
            } else {
                cur.push(c);
                assert(all@.take(i + 1) =~= joined_lines(strings_view(lines@)) + cur@);
            }
            i = i + 1;
        }
        assert(all@.take(all@.len() as int) =~= all@);
        assert(lines_clean(strings_view(lines@))) by {
            assert forall|j: int| 0 <= j < strings_view(lines@).len() implies no_newline(
                #[trigger] strings_view(lines@)[j],
            ) by {
                assert(strings_view(lines@)[j] == lines@[j]@);
            }
        }
        self.pending = string_of(&cur);
        lines
    }
}

/// Every line of the list is free of line breaks.
pub open spec fn lines_clean(lines: Seq<Seq<char>>) -> bool {
    forall|i: int| 0 <= i < lines.len() ==> no_newline(#[trigger] lines[i])
}

proof fn lemma_joined_concat(a: Seq<Seq<char>>, b: Seq<Seq<char>>)
    ensures
        joined_lines(a + b) == joined_lines(a) + joined_lines(b),
    decreases b.len(),
{
    if b.len() == 0 {
        assert(a + b =~= a);
        assert(joined_lines(a) + joined_lines(b) =~= joined_lines(a));
    } else {
        assert((a + b).drop_last() =~= a + b.drop_last());
        assert((a + b).last() == b.last());
        lemma_joined_concat(a, b.drop_last());
        assert(joined_lines(a + b) =~= joined_lines(a) + joined_lines(b));
    }
}

proof fn lemma_joined_ends_with_newline(x: Seq<Seq<char>>)
    requires
        x.len() > 0,
    ensures
        joined_lines(x).len() > 0,
        joined_lines(x)[joined_lines(x).len() - 1] == '\n',
{
}

/// A text splits into complete lines and a rest in only one way.
proof fn lemma_lines_unique(x: Seq<Seq<char>>, q: Seq<char>, y: Seq<Seq<char>>, r: Seq<char>)
    requires
        joined_lines(x) + q == joined_lines(y) + r,
        lines_clean(x),
        lines_clean(y),
        no_newline(q),
        no_newline(r),
    ensures
        x == y,
        q == r,
    decreases x.len() + y.len(),
{
    let t = joined_lines(x) + q;
    let a = joined_lines(x).len() as int;
    let b = joined_lines(y).len() as int;
    assert(t.len() == a + q.len());
    assert(t.len() == b + r.len());
    assert(forall|k: int| a <= k < t.len() ==> t[k] == q[k - a]);
    assert(forall|k: int| b <= k < t.len() ==> t[k] == (joined_lines(y) + r)[k]);
    assert(forall|k: int| b <= k < t.len() ==> (joined_lines(y) + r)[k] == r[k - b]);
    if x.len() > 0 {
        lemma_joined_ends_with_newline(x);
        assert(t[a - 1] == '\n');
    }
    if y.len() > 0 {
        lemma_joined_ends_with_newline(y);
        assert(t[b - 1] == '\n');
    }
    if x.len() == 0 && y.len() > 0 {
        assert(t[b - 1] == q[b - 1]);
        assert(q[b - 1] != '\n');
    } else if y.len() == 0 && x.len() > 0 {
        assert(t[a - 1] == r[a - 1]);
        assert(r[a - 1] != '\n');
    } else if x.len() == 0 && y.len() == 0 {
        assert(q =~= t);
        assert(r =~= t);
        assert(x =~= y);
    } else {
        if a < b {
            assert(t[b - 1] == q[b - 1 - a]);
            assert(q[b - 1 - a] != '\n');
        } else if b < a {
            assert(t[a - 1] == r[a - 1 - b]);
            assert(r[a - 1 - b] != '\n');
        }
        assert(a == b);
        assert(joined_lines(x) =~= t.take(a));
        assert(joined_lines(y) =~= t.take(b));
        assert(q =~= t.skip(a));
        assert(r =~= t.skip(b));
        let jx = joined_lines(x.drop_last()) + x.last();
        let jy = joined_lines(y.drop_last()) + y.last();
        assert(jx =~= joined_lines(x).drop_last());
        assert(jy =~= joined_lines(y).drop_last());
        assert(lines_clean(x.drop_last()));
        assert(lines_clean(y.drop_last()));
        assert(no_newline(x.last()) && no_newline(y.last())) by {
            assert(no_newline(x[x.len() - 1]));
            assert(no_newline(y[y.len() - 1]));
        }
        lemma_lines_unique(x.drop_last(), x.last(), y.drop_last(), y.last());
        assert(x =~= x.drop_last().push(x.last()));
        assert(y =~= y.drop_last().push(y.last()));
    }
}

/// The lines of a stream do not depend on how its text was cut into
/// pieces: text that arrives as `a`, then `b`, yields the lines that `a`
/// and `b` arriving at once would yield, and leaves the same rest waiting.
pub proof fn law_lines_independent_of_chunking(
    pending: Seq<char>,
    a: Seq<char>,
    b: Seq<char>,
    first: Seq<Seq<char>>,
    middle: Seq<char>,
    second: Seq<Seq<char>>,
    rest: Seq<char>,
    whole: Seq<Seq<char>>,
    whole_rest: Seq<char>,
)
    requires
        pending + a == joined_lines(first) + middle,
        lines_clean(first),
        no_newline(middle),
        middle + b == joined_lines(second) + rest,
        lines_clean(second),
        no_newline(rest),
        pending + (a + b) == joined_lines(whole) + whole_rest,
        lines_clean(whole),
        no_newline(whole_rest),
    ensures
        whole == first + second,
        whole_rest == rest,
{
    lemma_joined_concat(first, second);
    assert(pending + (a + b) =~= (pending + a) + b);
    assert((joined_lines(first) + middle) + b =~= joined_lines(first) + (middle + b));
    assert(joined_lines(first) + (joined_lines(second) + rest) =~= (joined_lines(first)
        + joined_lines(second)) + rest);
    assert(joined_lines(whole) + whole_rest == joined_lines(first + second) + rest);
    assert(lines_clean(first + second)) by {
        assert forall|i: int| 0 <= i < (first + second).len() implies no_newline(
            #[trigger] (first + second)[i],
        ) by {
            if i < first.len() {
                assert((first + second)[i] == first[i]);
            } else {
                assert((first + second)[i] == second[i - first.len()]);
            }
        }
    }
    lemma_lines_unique(whole, whole_rest, first + second, rest);
}

// ── Server-sent events ──
/// The payload of a server-sent-event line: what follows `data: ` once the
/// line is trimmed; other lines carry none.
pub open spec fn sse_payload(line: Seq<char>) -> Option<Seq<char>> {
    let t = trim_seq(line);
    if occurs_at(t, "data: "@, 0) {
        Some(t.skip(6))
    } else {
        None
    }
}

/// The payload of a server-sent-event line, if it is a `data: ` line.
pub fn sse_data(line: &str) -> (r: Option<String>)
    ensures
        match r {
            Some(d) => sse_payload(line@) == Some(d@),
            None => sse_payload(line@) is None,
        },
{
    let t = trim_chars(&chars_of(line));
    let prefix = chars_of("data: ");
    proof {
        reveal_strlit("data: ");
    }
    if starts_with_chars(&t, &prefix) {
        let rest = slice_chars(&t, 6, t.len());
        assert(rest@ =~= t@.skip(6));
        Some(string_of(&rest))
    } else {
        None
    }
}

// ── What a line or a parsed chunk asks for ──
/// What to do with one line of a streamed reply.
pub enum LineStep {
    /// The line carries nothing.
    Skip,
    /// The payload is to be parsed and handed back.
    Parse(String),
    /// The reply is over: send these events and stop reading.
    Finish(Vec<StreamEvent>),
}

/// What a parsed chunk of a streamed reply gives: events to send, and
/// whether the reply is over.
pub struct ChunkStep {
    pub events: Vec<StreamEvent>,
    pub finished: bool,
}

/// One event, as a one-element list.
pub fn single_event(e: StreamEvent) -> (r: Vec<StreamEvent>)
    ensures
        events_view(r@) == seq![e@],
{
    let mut out: Vec<StreamEvent> = Vec::new();
    out.push(e);
    assert(events_view(out@) =~= seq![e@]);
    out
}

/// The events of a text token: one, unless the text is empty.
pub open spec fn token_events(text: Seq<char>) -> Seq<StreamEventView> {
    if text.len() > 0 {
        seq![StreamEventView::Token(text)]
    } else {
        Seq::empty()
    }
}

/// Appends the token event of `text` unless `text` is empty.
pub fn push_token(out: &mut Vec<StreamEvent>, text: &String)
    ensures
        events_view(final(out)@) == events_view(old(out)@) + token_events(text@),
{
    let n = chars_of(text.as_str()).len();
    if n > 0 {
        out.push(StreamEvent::Token { content: text.clone() });
        assert(events_view(out@) =~= events_view(old(out)@) + token_events(text@));
    } else {
        assert(events_view(out@) =~= events_view(old(out)@) + token_events(text@));
    }
}

/// The events sent when the connection fails while a reply streams in, or
/// when the provider refuses the request: the error, then the end.
pub fn failure_events(error: String) -> (r: Vec<StreamEvent>)
    ensures
        events_view(r@) == seq![StreamEventView::Error(error@), StreamEventView::Done],
{
    let mut out: Vec<StreamEvent> = Vec::new();
    let ghost m = error@;
    out.push(StreamEvent::Error { error });
    out.push(StreamEvent::Done);
    assert(events_view(out@) =~= seq![StreamEventView::Error(m), StreamEventView::Done]);
    out
}

/// The single end event, sent when a reply's stream runs out.
pub fn end_events() -> (r: Vec<StreamEvent>)
    ensures
        events_view(r@) == seq![StreamEventView::Done],
{
    single_event(StreamEvent::Done)
}

// ── OpenAI ──
/// A piece of a streamed function call.
pub struct OpenAIStreamFunctionDelta {
    pub name: Option<String>,
    pub arguments: Option<String>,
}

/// A piece of the streamed tool call at position `index`.
pub struct OpenAIStreamToolCallDelta {
    pub index: usize,
    pub id: Option<String>,
    pub function: Option<OpenAIStreamFunctionDelta>,
}

/// What one chunk adds to a choice.
pub struct OpenAIStreamDelta {
    pub content: Option<String>,
    pub tool_calls: Vec<OpenAIStreamToolCallDelta>,
}

/// One choice of a streamed chunk.
pub struct OpenAIStreamChoice {
    pub delta: OpenAIStreamDelta,
    pub finish_reason: Option<String>,
}

/// One chunk of an OpenAI streamed reply.
pub struct OpenAIStreamChunk {
    pub choices: Vec<OpenAIStreamChoice>,
}

/// A tool call being assembled from the pieces streamed so far.
pub struct PendingCall {
    pub id: String,
    pub name: String,
    pub arguments: String,
}

/// Identifier, name and argument text of a call being assembled.
pub open spec fn call_parts(calls: Seq<PendingCall>) -> Seq<(Seq<char>, Seq<char>, Seq<char>)> {
    calls.map_values(|c: PendingCall| (c.id@, c.name@, c.arguments@))
}

/// A call of which nothing has arrived yet.
pub open spec fn blank_call() -> (Seq<char>, Seq<char>, Seq<char>) {
    (Seq::empty(), Seq::empty(), Seq::empty())
}

/// The calls, extended by blank ones until position `index` exists.
pub open spec fn grown(calls: Seq<(Seq<char>, Seq<char>, Seq<char>)>, index: int) -> Seq<
    (Seq<char>, Seq<char>, Seq<char>),
> {
    if index < calls.len() {
        calls
    } else {
        calls + Seq::new((index + 1 - calls.len()) as nat, |k: int| blank_call())
    }
}

/// The text of an optional piece; nothing where there is none.
pub open spec fn opt_text(o: Option<String>) -> Seq<char> {
    match o {
        Some(s) => s@,
        None => Seq::empty(),
    }
}

/// A call with a piece added: a given identifier or name replaces the one
/// held, argument text is appended.
pub open spec fn merged(c: (Seq<char>, Seq<char>, Seq<char>), d: OpenAIStreamToolCallDelta) -> (
    Seq<char>,
    Seq<char>,
    Seq<char>,
) {
    let id = match d.id {
        Some(s) => s@,
        None => c.0,
    };
    match d.function {
        Some(f) => (
            id,
            match f.name {
                Some(n) => n@,
                None => c.1,
            },
            c.2 + opt_text(f.arguments),
        ),
        None => (id, c.1, c.2),
    }
}

/// The calls after one piece arrived.
pub open spec fn with_delta(
    calls: Seq<(Seq<char>, Seq<char>, Seq<char>)>,
    d: OpenAIStreamToolCallDelta,
) -> Seq<(Seq<char>, Seq<char>, Seq<char>)> {
    let g = grown(calls, d.index as int);
    g.update(d.index as int, merged(g[d.index as int], d))
}

/// The calls after the pieces arrived in order.
pub open spec fn with_deltas(
    calls: Seq<(Seq<char>, Seq<char>, Seq<char>)>,
    ds: Seq<OpenAIStreamToolCallDelta>,
) -> Seq<(Seq<char>, Seq<char>, Seq<char>)>
    decreases ds.len(),
{
    if ds.len() == 0 {
        calls
    } else {
        with_delta(with_deltas(calls, ds.drop_last()), ds.last())
    }
}

/// Every piece names a position that a list can hold.
pub open spec fn indices_fit(ds: Seq<OpenAIStreamToolCallDelta>) -> bool {
    forall|k: int| 0 <= k < ds.len() ==> (#[trigger] ds[k]).index < usize::MAX
}

/// The JSON text written for assembled argument text: the document it
/// parses to, or an empty object where it does not parse.
pub open spec fn arguments_text(a: Seq<char>) -> Seq<char> {
    match json_parse(a) {
        Some(j) => json_text(j),
        None => "{}"@,
    }
}

/// The tag in which an assembled call is handed on as a token.
pub open spec fn stream_call_tag(c: (Seq<char>, Seq<char>, Seq<char>)) -> Seq<char> {
    "<tool_call>{\"id\":\""@ + c.0 + "\",\"name\":\""@ + c.1 + "\",\"arguments\":"@
        + arguments_text(c.2) + "}</tool_call>"@
}

/// The events that end a reply: one token per assembled call, then the end.
pub open spec fn closing_events(calls: Seq<(Seq<char>, Seq<char>, Seq<char>)>) -> Seq<
    StreamEventView,
> {
    Seq::new(calls.len(), |i: int| StreamEventView::Token(stream_call_tag(calls[i]))).push(
        StreamEventView::Done,
    )
}

/// The events of a chunk's text: a token unless there is none or it is empty.
pub open spec fn content_events(content: Option<String>) -> Seq<StreamEventView> {
    match content {
        Some(c) => token_events(c@),
        None => Seq::empty(),
    }
}

/// The tag of an assembled call.
fn pending_call_tag(c: &PendingCall) -> (r: String)
    ensures
        r@ == stream_call_tag((c.id@, c.name@, c.arguments@)),
{
    let mut out = owned("<tool_call>{\"id\":\"");
    append_str(&mut out, c.id.as_str());
    append_str(&mut out, "\",\"name\":\"");
    append_str(&mut out, c.name.as_str());
    append_str(&mut out, "\",\"arguments\":");
    match JsonValue::parse(c.arguments.as_str()) {
        Some(j) => {
            let t = j.to_text();
            append_str(&mut out, t.as_str());
        },
        None => {
            append_str(&mut out, "{}");
        },
    }
    append_str(&mut out, "}</tool_call>");
    out
}

/// Whether `events` hold an end event.
pub open spec fn has_end(events: Seq<StreamEventView>) -> bool {
    exists|k: int| 0 <= k < events.len() && #[trigger] events[k] is Done
}

/// One step of a stream that ends once: a stream already over sends nothing
/// and stays over; otherwise an end event, if sent, comes last, and the
/// stream is over after the step exactly when it was sent.
pub open spec fn ends_once(before: bool, events: Seq<StreamEventView>, after: bool) -> bool {
    &&& before ==> events.len() == 0 && after
    &&& !before ==> (after <==> has_end(events))
    &&& forall|k: int| 0 <= k < events.len() && #[trigger] events[k] is Done ==> k == events.len() - 1
}

/// The events of a run of steps, one batch after another.
pub open spec fn all_events(batches: Seq<Seq<StreamEventView>>) -> Seq<StreamEventView>
    decreases batches.len(),
{
    if batches.len() == 0 {
        Seq::empty()
    } else {
        all_events(batches.drop_last()) + batches.last()
    }
}

/// A stream made of steps that each end once, starting unfinished, sends at
/// most one end event, as its very last event, and is over exactly when it
/// has sent it.
pub proof fn law_stream_ends_once(states: Seq<bool>, batches: Seq<Seq<StreamEventView>>)
    requires
        states.len() == batches.len() + 1,
        !states[0],
        forall|i: int|
            0 <= i < batches.len() ==> ends_once(states[i], #[trigger] batches[i], states[i + 1]),
    ensures
        forall|k: int|
            0 <= k < all_events(batches).len() && #[trigger] all_events(batches)[k] is Done ==> k
                == all_events(batches).len() - 1,
        states.last() <==> has_end(all_events(batches)),
    decreases batches.len(),
{
    if batches.len() > 0 {
        let n = batches.len() - 1;
        let ps = states.drop_last();
        let pb = batches.drop_last();
        assert forall|i: int| 0 <= i < pb.len() implies ends_once(ps[i], #[trigger] pb[i], ps[i + 1]) by {
            assert(pb[i] == batches[i]);
            assert(ends_once(states[i], batches[i], states[i + 1]));
        }
        law_stream_ends_once(ps, pb);
        let before = all_events(pb);
        let last = batches[n];
        assert(ends_once(states[n], last, states[n + 1]));
        assert(all_events(batches) == before + last);
        let all = all_events(batches);
        if states[n] {
            assert(last.len() == 0);
            assert(all =~= before);
        } else {
            assert(!has_end(before));
            assert forall|k: int| 0 <= k < all.len() && #[trigger] all[k] is Done implies k == all.len()
                - 1 by {
                if k < before.len() {
                    assert(all[k] == before[k]);
                } else {
                    assert(all[k] == last[k - before.len()]);
                }
            }
            if has_end(last) {
                let j = choose|j: int| 0 <= j < last.len() && #[trigger] last[j] is Done;
                assert(all[before.len() + j] == last[j]);
            }
            if has_end(all) {
                let j = choose|j: int| 0 <= j < all.len() && #[trigger] all[j] is Done;
                if j < before.len() {
                    assert(all[j] == before[j]);
                } else {
                    assert(all[j] == last[j - before.len()]);
                }
            }
        }
    }
}

/// The end is sent last in the closing events, and they hold it.
proof fn lemma_closing_ends(calls: Seq<(Seq<char>, Seq<char>, Seq<char>)>)
    ensures
        ends_once(false, closing_events(calls), true),
{
    let es = closing_events(calls);
    assert(es[es.len() - 1] is Done);
}

/// Assembles the tool calls of an OpenAI streamed reply from their pieces;
/// once the reply is over, it sends nothing more.
pub struct OpenAIStream {
    calls: Vec<PendingCall>,
    done: bool,
}

impl OpenAIStream {
    /// The calls assembled so far.
    pub closed spec fn calls(&self) -> Seq<(Seq<char>, Seq<char>, Seq<char>)> {
        call_parts(self.calls@)
    }

    /// Whether the reply is over: its end has been sent.
    pub closed spec fn finished(&self) -> bool {
        self.done
    }

    /// A stream of which nothing has arrived.
    pub fn new() -> (r: OpenAIStream)
        ensures
            r.calls() == Seq::<(Seq<char>, Seq<char>, Seq<char>)>::empty(),
            !r.finished(),
    {
        let r = OpenAIStream { calls: Vec::new(), done: false };
        assert(r.calls() =~= Seq::<(Seq<char>, Seq<char>, Seq<char>)>::empty());
        r
    }

    /// The events that end the reply: each assembled call as a tag, then the
    /// end.
    pub fn closing(&self) -> (r: Vec<StreamEvent>)
        ensures
            events_view(r@) == closing_events(self.calls()),
    {
        let mut out: Vec<StreamEvent> = Vec::new();
        let mut i: usize = 0;
        while i < self.calls.len()
            invariant
                i <= self.calls@.len(),
                events_view(out@) == Seq::new(
                    i as nat,
                    |k: int| StreamEventView::Token(stream_call_tag(self.calls()[k])),
                ),
            decreases self.calls@.len() - i,
        {
            let tag = pending_call_tag(&self.calls[i]);
            assert(self.calls()[i as int] == (
                self.calls@[i as int].id@,
                self.calls@[i as int].name@,
                self.calls@[i as int].arguments@,
            ));
            let ghost tv = tag@;
            let ghost prev = events_view(out@);
            out.push(StreamEvent::Token { content: tag });
            assert(events_view(out@) =~= prev.push(StreamEventView::Token(tv)));
            assert(events_view(out@) =~= Seq::new(
                (i + 1) as nat,
                |k: int| StreamEventView::Token(stream_call_tag(self.calls()[k])),
            ));
            i = i + 1;
        }
        out.push(StreamEvent::Done);
        assert(events_view(out@) =~= closing_events(self.calls()));
        out
    }

    /// Reads one line of the reply: a `data: ` line carries a chunk to parse,
    /// or `[DONE]`, which ends the reply.
    pub fn on_line(&mut self, line: &str) -> (r: LineStep)
        ensures
            final(self).calls() == old(self).calls(),
            old(self).finished() ==> r is Skip && final(self).finished(),
            !old(self).finished() ==> match sse_payload(line@) {
                None => r is Skip && !final(self).finished(),
                Some(d) => if d == "[DONE]"@ {
                    r matches LineStep::Finish(es) && events_view(es@) == closing_events(
                        old(self).calls(),
                    ) && final(self).finished()
                } else {
                    r matches LineStep::Parse(p) && p@ == d && !final(self).finished()
                },
            },
            r matches LineStep::Finish(es) ==> ends_once(
                old(self).finished(),
                events_view(es@),
                final(self).finished(),
            ),
    {
        if self.done {
            return LineStep::Skip;
        }
        match sse_data(line) {
            None => LineStep::Skip,
            Some(d) => {
                if str_is(d.as_str(), "[DONE]") {
                    let es = self.closing();
                    self.done = true;
                    proof {
                        lemma_closing_ends(old(self).calls());
                    }
                    LineStep::Finish(es)
                } else {
                    LineStep::Parse(d)
                }
            },
        }
    }

    /// The events sent when the reply's source runs out: the assembled calls
    /// and the end, unless the reply is already over.
    pub fn end(&mut self) -> (r: Vec<StreamEvent>)
        ensures
            final(self).calls() == old(self).calls(),
            final(self).finished(),
            old(self).finished() ==> r@.len() == 0,
            !old(self).finished() ==> events_view(r@) == closing_events(old(self).calls()),
            ends_once(old(self).finished(), events_view(r@), final(self).finished()),
    {
        if self.done {
            return Vec::new();
        }
        let es = self.closing();
        self.done = true;
        proof {
            lemma_closing_ends(old(self).calls());
        }
        es
    }

    /// The events sent when the connection fails while the reply streams in:
    /// the error and the end, unless the reply is already over.
    pub fn fail(&mut self, error: String) -> (r: Vec<StreamEvent>)
        ensures
            final(self).calls() == old(self).calls(),
            final(self).finished(),
            old(self).finished() ==> r@.len() == 0,
            !old(self).finished() ==> events_view(r@) == seq![
                StreamEventView::Error(error@),
                StreamEventView::Done,
            ],
            ends_once(old(self).finished(), events_view(r@), final(self).finished()),
    {
        if self.done {
            return Vec::new();
        }
        let ghost m = error@;
        let es = failure_events(error);
        self.done = true;
        proof {
            let v = events_view(es@);
            assert(v[1] is Done);
            assert(!(v[0] is Done));
        }
        es
    }

    /// Adds one piece of a tool call.
    fn apply_delta(&mut self, d: &OpenAIStreamToolCallDelta)
        requires
            d.index < usize::MAX,
        ensures
            final(self).calls() == with_delta(old(self).calls(), *d),
            final(self).finished() == old(self).finished(),
    {
        let idx = d.index;
        let ghost before = self.calls();
        while self.calls.len() <= idx
            invariant
                before.len() <= self.calls@.len(),
                self.calls@.len() <= before.len() || self.calls@.len() <= idx + 1,
                self.calls() == before + Seq::new(
                    (self.calls@.len() - before.len()) as nat,
                    |k: int| blank_call(),
                ),
                before == call_parts(old(self).calls@),
                self.done == old(self).done,
                idx == d.index,
                d.index < usize::MAX,
            decreases idx + 1 - self.calls@.len(),
        {
            let ghost prev = self.calls();
            self.calls.push(
                PendingCall { id: String::new(), name: String::new(), arguments: String::new() },
            );
            assert(self.calls() =~= prev.push(blank_call()));
            assert(self.calls() =~= before + Seq::new(
                (self.calls@.len() - before.len()) as nat,
                |k: int| blank_call(),
            ));
        }
        assert(self.calls() =~= grown(before, idx as int));
        let cur = &self.calls[idx];
        let id = match &d.id {
            Some(s) => s.clone(),
            None => cur.id.clone(),
        };
        let (name, arguments) = match &d.function {
            Some(f) => {
                let name = match &f.name {
                    Some(n) => n.clone(),
                    None => cur.name.clone(),
                };
                let mut arguments = cur.arguments.clone();
                match &f.arguments {
                    Some(a) => append_str(&mut arguments, a.as_str()),
                    None => {
                        proof {
                            reveal_strlit("");
                        }
                        assert(arguments@ + opt_text(f.arguments) =~= arguments@);
                    },
                }
                (name, arguments)
            },
            None => (cur.name.clone(), cur.arguments.clone()),
        };
        let ghost g = self.calls();
        self.calls.set(idx, PendingCall { id, name, arguments });
        assert(self.calls() =~= g.update(idx as int, merged(g[idx as int], *d)));
    }

    /// Reads one parsed chunk: its text becomes a token, its tool-call
    /// pieces are assembled, and a finish reason ends the reply with the
    /// assembled calls; a chunk that did not parse is reported as an error.
    pub fn on_chunk(&mut self, parsed: Result<OpenAIStreamChunk, String>) -> (r: ChunkStep)
        requires
            parsed matches Ok(c) ==> (c.choices@.len() > 0 ==> indices_fit(
                c.choices@[0].delta.tool_calls@,
            )),
        ensures
            old(self).finished() ==> r.events@.len() == 0 && r.finished && final(self).calls()
                == old(self).calls(),
            final(self).finished() == (old(self).finished() || r.finished),
            ends_once(old(self).finished(), events_view(r.events@), final(self).finished()),
            !old(self).finished() ==> match parsed {
                Err(m) => events_view(r.events@) == seq![StreamEventView::Error(m@)]
                    && !r.finished && final(self).calls() == old(self).calls(),
                Ok(c) => if c.choices@.len() == 0 {
                    r.events@.len() == 0 && !r.finished && final(self).calls() == old(
                        self,
                    ).calls()
                } else {
                    let ch = c.choices@[0];
                    let after = with_deltas(old(self).calls(), ch.delta.tool_calls@);
                    &&& final(self).calls() == after
                    &&& r.finished == ch.finish_reason is Some
                    &&& events_view(r.events@) == content_events(ch.delta.content) + if r.finished {
                        closing_events(after)
                    } else {
                        Seq::empty()
                    }
                },
            },
    {
        if self.done {
            return ChunkStep { events: Vec::new(), finished: true };
        }
        match parsed {
            Err(m) => {
                let events = single_event(StreamEvent::Error { error: m });
                let r = ChunkStep { events, finished: false };
                proof {
                    let v = events_view(r.events@);
                    assert(v.len() == 1 && !(v[0] is Done));
                    assert(!has_end(v));
                }
                return r;
            },
            Ok(c) => {
                if c.choices.len() == 0 {
                    return ChunkStep { events: Vec::new(), finished: false };
                }
                let ch = &c.choices[0];
                let mut events: Vec<StreamEvent> = Vec::new();
                match &ch.delta.content {
                    Some(text) => push_token(&mut events, text),
                    None => {},
                }
                assert(events_view(events@) =~= content_events(ch.delta.content));
                let ds = &ch.delta.tool_calls;
                let ghost start = self.calls();
                let mut k: usize = 0;
                while k < ds.len()
                    invariant
                        k <= ds@.len(),
                        indices_fit(ds@),
                        !self.done,
                        self.calls() == with_deltas(start, ds@.take(k as int)),
                    decreases ds@.len() - k,
                {
                    assert(ds@.take(k + 1).drop_last() =~= ds@.take(k as int));
                    assert(ds@.take(k + 1).last() == ds@[k as int]);
                    assert(ds@[k as int].index < usize::MAX);
                    self.apply_delta(&ds[k]);
                    k = k + 1;
                }
                assert(ds@.take(ds@.len() as int) =~= ds@);
                let finished = ch.finish_reason.is_some();
                let ghost e0 = events_view(events@);
                assert(e0.len() <= 1 && (e0.len() == 1 ==> e0[0] is Token));
                if finished {
                    let closing = self.closing();
                    let mut closing = closing;
                    events.append(&mut closing);
                    assert(events_view(events@) =~= e0 + closing_events(self.calls()));
                    self.done = true;
                    proof {
                        let all = events_view(events@);
                        let cl = closing_events(self.calls());
                        lemma_closing_ends(self.calls());
                        assert(all[all.len() - 1] is Done);
                        assert forall|k: int| 0 <= k < all.len() && #[trigger] all[k] is Done implies k
                            == all.len() - 1 by {
                            if k >= e0.len() {
                                assert(all[k] == cl[k - e0.len()]);
                            }
                        }
                    }
                } else {
                    assert(events_view(events@) =~= events_view(events@) + Seq::<
                        StreamEventView,
                    >::empty());
                }
                ChunkStep { events, finished }
            },
        }
    }
}

// ── Anthropic ──
/// What an Anthropic stream event adds.
pub struct AnthropicStreamDelta {
    pub delta_type: Option<String>,
    pub text: Option<String>,
    pub stop_reason: Option<String>,
}

/// One event of an Anthropic streamed reply.
pub struct AnthropicStreamEvent {
    pub event_type: String,
    pub delta: Option<AnthropicStreamDelta>,
}

/// What an Anthropic stream event gives: a text delta's text as a token,
/// the end at `message_stop` or at a `message_delta` with a stop reason,
/// nothing otherwise; a payload that did not parse is passed over.
pub open spec fn anthropic_step(parsed: Result<AnthropicStreamEvent, String>) -> (
    Seq<StreamEventView>,
    bool,
) {
    match parsed {
        Err(_) => (Seq::empty(), false),
        Ok(ev) => if ev.event_type@ == "content_block_delta"@ {
            (
                match ev.delta {
                    Some(d) => content_events(d.text),
                    None => Seq::empty(),
                },
                false,
            )
        } else if ev.event_type@ == "message_stop"@ {
            (seq![StreamEventView::Done], true)
        } else if ev.event_type@ == "message_delta"@ && (ev.delta matches Some(d)
            && d.stop_reason is Some) {
            (seq![StreamEventView::Done], true)
        } else {
            (Seq::empty(), false)
        },
    }
}

/// Reads one parsed event of an Anthropic streamed reply.
pub fn anthropic_stream_event(parsed: Result<AnthropicStreamEvent, String>) -> (r: ChunkStep)
    ensures
        (events_view(r.events@), r.finished) == anthropic_step(parsed),
{
    let mut events: Vec<StreamEvent> = Vec::new();
    match &parsed {
        Err(_) => {
            assert(events_view(events@) =~= Seq::<StreamEventView>::empty());
            ChunkStep { events, finished: false }
        },
        Ok(ev) => {
            if str_is(ev.event_type.as_str(), "content_block_delta") {
                match &ev.delta {
                    Some(d) => match &d.text {
                        Some(t) => push_token(&mut events, t),
                        None => {},
                    },
                    None => {},
                }
                assert(events_view(events@) =~= anthropic_step(parsed).0);
                ChunkStep { events, finished: false }
            } else if str_is(ev.event_type.as_str(), "message_stop") {
                ChunkStep { events: end_events(), finished: true }
            } else if str_is(ev.event_type.as_str(), "message_delta") && match &ev.delta {
                Some(d) => d.stop_reason.is_some(),
                None => false,
            } {
                ChunkStep { events: end_events(), finished: true }
            } else {
                assert(events_view(events@) =~= Seq::<StreamEventView>::empty());
                ChunkStep { events, finished: false }
            }
        },
    }
}

// ── Gemini ──
/// The tokens of the non-empty text parts, in order.
pub open spec fn part_tokens(parts: Seq<GeminiPart>) -> Seq<StreamEventView>
    decreases parts.len(),
{
    if parts.len() == 0 {
        Seq::empty()
    } else {
        part_tokens(parts.drop_last()) + match parts.last() {
            GeminiPart::Text { text } => token_events(text@),
            _ => Seq::empty(),
        }
    }
}

/// What a chunk of a Gemini streamed reply gives: a token for each non-empty
/// text part of its first candidate; a chunk that did not parse is
/// reported as an error.
pub open spec fn gemini_chunk_events(parsed: Result<GeminiResponse, String>) -> Seq<
    StreamEventView,
> {
    match parsed {
        Err(m) => seq![StreamEventView::Error(m@)],
        Ok(resp) => if resp.candidates@.len() == 0 {
            Seq::empty()
        } else {
            part_tokens(resp.candidates@[0].content.parts@)
        },
    }
}

/// Reads one parsed chunk of a Gemini streamed reply.
pub fn gemini_stream_chunk(parsed: Result<GeminiResponse, String>) -> (r: Vec<StreamEvent>)
    ensures
        events_view(r@) == gemini_chunk_events(parsed),
{
    match parsed {
        Err(m) => single_event(StreamEvent::Error { error: m }),
        Ok(resp) => {
            let mut events: Vec<StreamEvent> = Vec::new();
            if resp.candidates.len() == 0 {
                assert(events_view(events@) =~= Seq::<StreamEventView>::empty());
                return events;
            }
            let parts = &resp.candidates[0].content.parts;
            let mut i: usize = 0;
            while i < parts.len()
                invariant
                    i <= parts@.len(),
                    events_view(events@) == part_tokens(parts@.take(i as int)),
                decreases parts@.len() - i,
            {
                assert(parts@.take(i + 1).drop_last() =~= parts@.take(i as int));
                assert(parts@.take(i + 1).last() == parts@[i as int]);
                match &parts[i] {
                    GeminiPart::Text { text } => push_token(&mut events, text),
                    _ => {
                        assert(events_view(events@) + Seq::<StreamEventView>::empty()
                            =~= events_view(events@));
                    },
                }
                i = i + 1;
            }
            assert(parts@.take(parts@.len() as int) =~= parts@);
            events
        },
    }
}

// ── Ollama ──
/// A line of Ollama's stream carries a document unless it is blank; the
/// line is parsed as it came.
pub fn ollama_stream_line(line: &str) -> (r: Option<String>)
    ensures
        match r {
            Some(l) => l@ == line@ && trim_seq(line@).len() > 0,
            None => trim_seq(line@).len() == 0,
        },
{
    let t = trim_chars(&chars_of(line));
    if t.len() == 0 {
        None
    } else {
        Some(owned(line))
    }
}

/// What a line of an Ollama streamed reply gives: the end once the reply
/// says it is done, else its text as a token; a line that did not parse is
/// reported as an error.
pub open spec fn ollama_step(parsed: Result<OllamaChatResponse, String>) -> (
    Seq<StreamEventView>,
    bool,
) {
    match parsed {
        Err(m) => (seq![StreamEventView::Error(m@)], false),
        Ok(resp) => if resp.done {
            (seq![StreamEventView::Done], true)
        } else {
            (token_events(resp.message.content@), false)
        },
    }
}

/// Reads one parsed line of an Ollama streamed reply.
pub fn ollama_stream_chunk(parsed: Result<OllamaChatResponse, String>) -> (r: ChunkStep)
    ensures
        (events_view(r.events@), r.finished) == ollama_step(parsed),
{
    match parsed {
        Err(m) => ChunkStep { events: single_event(StreamEvent::Error { error: m }), finished: false },
        Ok(resp) => {
            if resp.done {
                ChunkStep { events: end_events(), finished: true }
            } else {
                let mut events: Vec<StreamEvent> = Vec::new();
                push_token(&mut events, &resp.message.content);
                assert(events_view(events@) =~= token_events(resp.message.content@));
                ChunkStep { events, finished: false }
            }
        },
    }
}

/// What OpenAI's refusal of a streamed request gives: an error event with the
/// body of the answer, the end, and an error that carries the body.
pub fn openai_stream_refusal(body: String) -> (r: (Vec<StreamEvent>, ProviderError))
    ensures
        events_view(r.0@) == seq![StreamEventView::Error(body@), StreamEventView::Done],
        r.1 matches ProviderError::Api(m) && m@ == body@,
{
    let m = body.clone();
    (failure_events(body), ProviderError::Api(m))
}

/// What Ollama's refusal of a streamed request gives: an error event with
/// the status and body, the end, and an error that names the status.
pub fn ollama_stream_refusal(status: &str, body: &str) -> (r: (Vec<StreamEvent>, ProviderError))
    ensures
        events_view(r.0@) == seq![
            StreamEventView::Error(ollama_refusal_text(status@, body@)),
            StreamEventView::Done,
        ],
        r.1 matches ProviderError::Api(m) && m@ == "Ollama "@ + status@,
{
    let mut text = owned("Ollama ");
    append_str(&mut text, status);
    let mut m = owned("Ollama ");
    append_str(&mut m, status);
    append_str(&mut text, ": ");
    append_str(&mut text, body);
    (failure_events(text), ProviderError::Api(m))
}

// ── Passing events on as JSON ──
/// The JSON document in which an event is passed on to a remote client.
pub open spec fn event_json(e: StreamEventView) -> Json {
    match e {
        StreamEventView::Token(c) => Json::Object(
            seq![("content"@, Json::Str(c)), ("type"@, Json::Str("token"@))],
        ),
        StreamEventView::Error(m) => Json::Object(
            seq![("error"@, Json::Str(m)), ("type"@, Json::Str("error"@))],
        ),
        StreamEventView::Done => Json::Object(seq![("type"@, Json::Str("done"@))]),
    }
}

proof fn lemma_event_json_canonical(e: StreamEventView)
    ensures
        canonical(event_json(e)),
{
    reveal_strlit("content");
    reveal_strlit("error");
    reveal_strlit("type");
    let j = event_json(e);
    let m = j->Object_0;
    assert(key_lt("content"@, "type"@)) by {
        assert(("content"@).take(0) =~= ("type"@).take(0));
    }
    assert(key_lt("error"@, "type"@)) by {
        assert(("error"@).take(0) =~= ("type"@).take(0));
    }
    assert(keys_ascending(m));
    lemma_canonical_parts(j);
    assert forall|i: int| 0 <= i < m.len() implies #[trigger] canonical(m[i].1) by {}
}

/// The text in which an event is passed on to a remote client.
pub fn stream_event_text(e: &StreamEvent) -> (r: String)
    ensures
        r@ == json_text(event_json(e@)),
{
    let entries: Vec<(String, JsonValue)> = match e {
        StreamEvent::Token { content } => vec![
            (owned("content"), JsonValue::Str(content.clone())),
            (owned("type"), JsonValue::Str(owned("token"))),
        ],
        StreamEvent::Error { error } => vec![
            (owned("error"), JsonValue::Str(error.clone())),
            (owned("type"), JsonValue::Str(owned("error"))),
        ],
        StreamEvent::Done => vec![(owned("type"), JsonValue::Str(owned("done")))],
    };
    proof {
        lemma_object_view(entries);
        lemma_event_json_canonical(e@);
    }
    let object = JsonValue::Object(entries);
    assert(object@->Object_0 =~= event_json(e@)->Object_0);
    object.to_text()
}

} // verus!
