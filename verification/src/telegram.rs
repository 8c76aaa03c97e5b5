//! The chat bot's decisions: which chats may use it, what each command
//! does, what its reports say, and how a long reply is cut to fit one
//! message.
use vstd::prelude::*;
use std::collections::HashSet;
use crate::accounts::{char_utf8_len, utf8_len};
use crate::providers::{ProviderInfo, ProviderType};
use crate::text::{append_str, chars_of, owned, push_chars, slice_chars};

verus! {

broadcast use vstd::std_specs::hash::group_hash_axioms;

/// How the bot is set up.
pub struct TelegramConfig {
    /// The bot's token.
    pub bot_token: String,
    /// The chats that may use the bot; none listed means every chat may.
    pub allowed_chat_ids: HashSet<i64>,
    /// The session that chat messages go to; without one, a session is
    /// opened on the first provider.
    pub default_session_id: Option<String>,
}

/// The bot and whether it runs.
pub struct TelegramBot {
    config: TelegramConfig,
    running: bool,
}

impl TelegramBot {
    /// Whether the bot runs.
    pub closed spec fn running(&self) -> bool {
        self.running
    }

    /// How the bot is set up.
    pub closed spec fn settings(&self) -> TelegramConfig {
        self.config
    }

    /// A bot that does not run yet.
    pub fn new(config: TelegramConfig) -> (r: TelegramBot)
        ensures
            !r.running(),
            r.settings() == config,
    {
        TelegramBot { config, running: false }
    }

    /// Whether the bot runs.
    pub fn is_running(&self) -> (r: bool)
        ensures
            r == self.running(),
    {
        self.running
    }

    /// How the bot is set up.
    pub fn config(&self) -> (r: &TelegramConfig)
        ensures
            *r == self.settings(),
    {
        &self.config
    }

    /// Marks the bot as running; says whether it has to be launched, which
    /// it has not where it already runs.
    pub fn start(&mut self) -> (launch: bool)
        ensures
            launch == !old(self).running(),
            final(self).running(),
            final(self).settings() == old(self).settings(),
    {
        if self.running {
            return false;
        }
        self.running = true;
        true
    }

    /// Marks the bot as stopped; says whether a running bot has to be told
    /// to shut down.
    pub fn stop(&mut self) -> (signal: bool)
        ensures
            signal == old(self).running(),
            !final(self).running(),
            final(self).settings() == old(self).settings(),
    {
        let was = self.running;
        self.running = false;
        was
    }
}

/// Whether the chat may use the bot: every chat may where none is listed.
pub fn is_allowed(chat_id: i64, allowed: &HashSet<i64>) -> (r: bool)
    ensures
        r == (allowed@.is_empty() || allowed@.contains(chat_id)),
{
    allowed.is_empty() || allowed.contains(&chat_id)
}

/// A command sent to the bot.
pub enum TelegramCommand {
    Help,
    Chat(String),
    Models,
    Health,
}

/// What the bot does about a message.
pub enum BotAction {
    /// Answer with this text.
    Reply(String),
    /// Send this text to the assistant and answer with its reply.
    Chat(String),
    /// Answer with the list of commands.
    Help,
    /// Answer with the available models.
    ListModels,
    /// Answer with the providers' health.
    CheckHealth,
    /// Do nothing.
    Ignore,
}

/// The answer to a chat that may not use the bot.
pub open spec fn unauthorized_text() -> Seq<char> {
    "⛔ Unauthorized. Your chat ID is not in the allowed list."@
}

/// The answer to a chat command without text.
pub open spec fn chat_usage_text() -> Seq<char> {
    "Usage: /chat <your message>"@
}

/// What a command from `chat_id` leads to: a chat that may not use the bot
/// is told so; a chat command without text is told how to use it.
pub fn command_action(chat_id: i64, allowed: &HashSet<i64>, cmd: TelegramCommand) -> (r: BotAction)
    ensures
        !(allowed@.is_empty() || allowed@.contains(chat_id)) ==> (r matches BotAction::Reply(t)
            && t@ == unauthorized_text()),
        (allowed@.is_empty() || allowed@.contains(chat_id)) ==> match cmd {
            TelegramCommand::Help => r is Help,
            TelegramCommand::Chat(t) => if t@.len() == 0 {
                r matches BotAction::Reply(u) && u@ == chat_usage_text()
            } else {
                r matches BotAction::Chat(u) && u@ == t@
            },
            TelegramCommand::Models => r is ListModels,
            TelegramCommand::Health => r is CheckHealth,
        },
{
    if !is_allowed(chat_id, allowed) {
        return BotAction::Reply(owned("⛔ Unauthorized. Your chat ID is not in the allowed list."));
    }
    match cmd {
        TelegramCommand::Help => BotAction::Help,
        TelegramCommand::Chat(t) => {
            if chars_of(t.as_str()).len() == 0 {
                BotAction::Reply(owned("Usage: /chat <your message>"))
            } else {
                BotAction::Chat(t)
            }
        },
        TelegramCommand::Models => BotAction::ListModels,
        TelegramCommand::Health => BotAction::CheckHealth,
    }
}

/// What a plain message from `chat_id` leads to: its text goes to the
/// assistant; messages from chats that may not use the bot, and messages
/// without text, are passed over in silence.
pub fn plain_message_action(chat_id: i64, allowed: &HashSet<i64>, text: Option<String>) -> (r:
    BotAction)
    ensures
        !(allowed@.is_empty() || allowed@.contains(chat_id)) ==> r is Ignore,
        (allowed@.is_empty() || allowed@.contains(chat_id)) ==> match text {
            Some(t) => r matches BotAction::Chat(u) && u@ == t@,
            None => r is Ignore,
        },
{
    if !is_allowed(chat_id, allowed) {
        return BotAction::Ignore;
    }
    match text {
        Some(t) => BotAction::Chat(t),
        None => BotAction::Ignore,
    }
}

// ── Reports ──
/// How a provider type is written.
pub open spec fn provider_type_text(t: ProviderType) -> Seq<char> {
    match t {
        ProviderType::Local => "Local"@,
        ProviderType::Cloud => "Cloud"@,
    }
}

/// One line per model.
pub open spec fn model_lines(models: Seq<String>) -> Seq<char>
    decreases models.len(),
{
    if models.len() == 0 {
        Seq::empty()
    } else {
        model_lines(models.drop_last()) + "  • `"@ + models.last()@ + "`\n"@
    }
}

/// A provider's entry in the models report.
pub open spec fn provider_entry(p: ProviderInfo) -> Seq<char> {
    "*"@ + p.name@ + "* ("@ + provider_type_text(p.provider_type) + ")\n"@ + model_lines(p.models@)
        + "\n"@
}

/// The entries of the providers, in order.
pub open spec fn provider_entries(ps: Seq<ProviderInfo>) -> Seq<char>
    decreases ps.len(),
{
    if ps.len() == 0 {
        Seq::empty()
    } else {
        provider_entries(ps.drop_last()) + provider_entry(ps.last())
    }
}

/// The report of the available models.
pub open spec fn models_report_text(ps: Seq<ProviderInfo>) -> Seq<char> {
    "📋 *Available Models*\n\n"@ + provider_entries(ps)
}

/// The report of the available models, provider by provider.
pub fn models_report(providers: &[ProviderInfo]) -> (r: String)
    ensures
        r@ == models_report_text(providers@),
{
    let mut out = owned("📋 *Available Models*\n\n");
    let mut i: usize = 0;
    while i < providers.len()
        invariant
            i <= providers@.len(),
            out@ == models_report_text(providers@.take(i as int)),
        decreases providers@.len() - i,
    {
        let p = &providers[i];
        let ghost before = out@;
        append_str(&mut out, "*");
        append_str(&mut out, p.name.as_str());
        append_str(&mut out, "* (");
        match p.provider_type {
            ProviderType::Local => append_str(&mut out, "Local"),
            ProviderType::Cloud => append_str(&mut out, "Cloud"),
        }
        append_str(&mut out, ")\n");
        let ghost head = out@;
        let mut k: usize = 0;
        while k < p.models.len()
            invariant
                k <= p.models@.len(),
                out@ == head + model_lines(p.models@.take(k as int)),
            decreases p.models@.len() - k,
        {
            assert(p.models@.take(k + 1).drop_last() =~= p.models@.take(k as int));
            assert(p.models@.take(k + 1).last() == p.models@[k as int]);
            append_str(&mut out, "  • `");
            append_str(&mut out, p.models[k].as_str());
            append_str(&mut out, "`\n");
            k = k + 1;
        }
        assert(p.models@.take(p.models@.len() as int) =~= p.models@);
        append_str(&mut out, "\n");
        assert(providers@.take(i + 1).drop_last() =~= providers@.take(i as int));
        assert(providers@.take(i + 1).last() == *p);
        assert(out@ =~= before + provider_entry(*p));
        i = i + 1;
    }
    assert(providers@.take(providers@.len() as int) =~= providers@);
    out
}

/// The mark of a health result.
pub open spec fn health_icon(ok: bool) -> Seq<char> {
    if ok {
        "✅"@
    } else {
        "❌"@
    }
}

/// One line per checked provider.
pub open spec fn health_lines(checks: Seq<(String, bool)>) -> Seq<char>
    decreases checks.len(),
{
    if checks.len() == 0 {
        Seq::empty()
    } else {
        health_lines(checks.drop_last()) + health_icon(checks.last().1) + " "@ + checks.last().0@
            + "\n"@
    }
}

/// The health report, a line per provider.
pub fn health_report(checks: &[(String, bool)]) -> (r: String)
    ensures
        r@ == "🏥 Health Check\n\n"@ + health_lines(checks@),
{
    let mut out = owned("🏥 Health Check\n\n");
    let ghost head = out@;
    let mut i: usize = 0;
    while i < checks.len()
        invariant
            i <= checks@.len(),
            out@ == head + health_lines(checks@.take(i as int)),
        decreases checks@.len() - i,
    {
        assert(checks@.take(i + 1).drop_last() =~= checks@.take(i as int));
        assert(checks@.take(i + 1).last() == checks@[i as int]);
        if checks[i].1 {
            append_str(&mut out, "✅");
        } else {
            append_str(&mut out, "❌");
        }
        append_str(&mut out, " ");
        append_str(&mut out, checks[i].0.as_str());
        append_str(&mut out, "\n");
        i = i + 1;
    }
    assert(checks@.take(checks@.len() as int) =~= checks@);
    out
}

// ── Chat replies ──
/// Where a chat message goes.
pub enum ChatSession {
    /// The configured session.
    Existing(String),
    /// A new session on this provider and model.
    Create { provider: String, model: String },
    /// There is no provider to open a session on; the answer says so.
    NoProviders(String),
}

/// The answer where there is no provider to chat with.
pub open spec fn no_providers_text() -> Seq<char> {
    "❌ No providers configured."@
}

/// Where a chat message goes: the configured session, else a new one on
/// the first provider with its first model (or none).
pub fn chat_session(default_session_id: &Option<String>, providers: &[ProviderInfo]) -> (r:
    ChatSession)
    ensures
        match default_session_id {
            Some(s) => r matches ChatSession::Existing(t) && t@ == s@,
            None => if providers@.len() == 0 {
                r matches ChatSession::NoProviders(t) && t@ == no_providers_text()
            } else {
                r matches ChatSession::Create { provider, model } && provider@
                    == providers@[0].name@ && model@ == if providers@[0].models@.len() > 0 {
                    providers@[0].models@[0]@
                } else {
                    Seq::empty()
                }
            },
        },
{
    match default_session_id {
        Some(s) => ChatSession::Existing(s.clone()),
        None => {
            if providers.len() == 0 {
                return ChatSession::NoProviders(owned("❌ No providers configured."));
            }
            let p = &providers[0];
            let model = if p.models.len() > 0 {
                p.models[0].clone()
            } else {
                String::new()
            };
            ChatSession::Create { provider: p.name.clone(), model }
        },
    }
}

/// The longest reply sent as it is, in bytes of UTF-8.
pub const REPLY_LIMIT: usize = 4000;

/// A prefix of `s` whose UTF-8 encoding takes exactly `bytes` bytes.
pub open spec fn prefix_of_bytes(s: Seq<char>, bytes: nat) -> int {
    choose|n: int| 0 <= n <= s.len() && utf8_len(s.take(n)) == bytes
}

/// A character boundary lies `bytes` bytes into the text.
pub open spec fn has_boundary(s: Seq<char>, bytes: nat) -> bool {
    exists|n: int| 0 <= n <= s.len() && utf8_len(s.take(n)) == bytes
}

/// A reply as sent: one longer than the limit is cut at the limit and
/// marked as cut.
pub open spec fn fitted_reply(content: Seq<char>) -> Seq<char> {
    if utf8_len(content) > 4000 {
        content.take(prefix_of_bytes(content, 4000)) + "…\n\n_(truncated)_"@
    } else {
        content
    }
}

/// Longer prefixes take more bytes.
pub proof fn lemma_utf8_prefix_grows(s: Seq<char>, a: int, b: int)
    requires
        0 <= a < b <= s.len(),
    ensures
        utf8_len(s.take(a)) < utf8_len(s.take(b)),
    decreases b,
{
    assert(s.take(b).drop_last() =~= s.take(b - 1));
    if a < b - 1 {
        lemma_utf8_prefix_grows(s, a, b - 1);
    }
}

/// Whether a reply can be cut at the limit: it is no longer than the limit,
/// or the limit falls between two of its characters.
pub fn cut_falls_between_chars(content: &str) -> (r: bool)
    ensures
        r == (utf8_len(content@) > 4000 ==> has_boundary(content@, 4000)),
{
    let s = chars_of(content);
    let mut total: usize = 0;
    let mut i: usize = 0;
    while i < s.len() && total < 4000
        invariant
            i <= s@.len(),
            total == utf8_len(s@.take(i as int)),
            total <= 4003,
            i > 0 ==> utf8_len(s@.take(i - 1)) < 4000,
        decreases s@.len() - i,
    {
        let c = s[i];
        let n: usize = if (c as u32) < 0x80 {
            1
        } else if (c as u32) < 0x800 {
            2
        } else if (c as u32) < 0x10000 {
            3
        } else {
            4
        };
        assert(n == char_utf8_len(c));
        assert(s@.take(i + 1).drop_last() =~= s@.take(i as int));
        total = total + n;
        i = i + 1;
    }
    proof {
        assert(s@.take(s@.len() as int) =~= s@);
        if i < s@.len() {
            lemma_utf8_prefix_grows(s@, i as int, s@.len() as int);
        }
    }
    if total < 4000 {
        true
    } else if total == 4000 {
        assert(utf8_len(s@.take(i as int)) == 4000);
        true
    } else {
        proof {
            assert forall|n: int| 0 <= n <= s@.len() implies utf8_len(s@.take(n)) != 4000 by {
                if n < i - 1 {
                    lemma_utf8_prefix_grows(s@, n, i - 1);
                } else if n > i {
                    lemma_utf8_prefix_grows(s@, i as int, n);
                }
            }
        }
        false
    }
}

/// The reply as sent, where it can be cut at the limit; `None` where the
/// limit falls inside a character.
pub fn try_fit_reply(content: &str) -> (r: Option<String>)
    ensures
        r is Some <==> (utf8_len(content@) > 4000 ==> has_boundary(content@, 4000)),
        r matches Some(t) ==> t@ == fitted_reply(content@),
{
    if cut_falls_between_chars(content) {
        Some(fit_reply(content))
    } else {
        None
    }
}

/// The reply as sent: cut at the limit where it is longer. The cut must
/// fall between two characters.
pub fn fit_reply(content: &str) -> (r: String)
    requires
        utf8_len(content@) > 4000 ==> has_boundary(content@, 4000),
    ensures
        r@ == fitted_reply(content@),
{
    let s = chars_of(content);
    let mut total: usize = 0;
    let mut i: usize = 0;
    while i < s.len() && total < 4000
        invariant
            i <= s@.len(),
            total == utf8_len(s@.take(i as int)),
            total <= 4003,
            i > 0 ==> utf8_len(s@.take(i - 1)) < 4000,
        decreases s@.len() - i,
    {
        let c = s[i];
        let n: usize = if (c as u32) < 0x80 {
            1
        } else if (c as u32) < 0x800 {
            2
        } else if (c as u32) < 0x10000 {
            3
        } else {
            4
        };
        assert(n == char_utf8_len(c));
        assert(s@.take(i + 1).drop_last() =~= s@.take(i as int));
        total = total + n;
        i = i + 1;
    }
    proof {
        assert(s@.take(s@.len() as int) =~= s@);
        if i < s@.len() {
            lemma_utf8_prefix_grows(s@, i as int, s@.len() as int);
        }
        if total > 4000 {
            let n = choose|n: int| 0 <= n <= s@.len() && utf8_len(s@.take(n)) == 4000;
            if n < i {
                if n < i - 1 {
                    lemma_utf8_prefix_grows(s@, n, i - 1);
                }
            } else if n > i {
                lemma_utf8_prefix_grows(s@, i as int, n);
            }
            assert(false);
        }
    }
    if i < s.len() {
        let ghost cut = prefix_of_bytes(s@, 4000);
        proof {
            assert(has_boundary(s@, 4000));
            if cut < i {
                lemma_utf8_prefix_grows(s@, cut, i as int);
            } else if cut > i {
                lemma_utf8_prefix_grows(s@, i as int, cut);
            }
        }
        let head = slice_chars(&s, 0, i);
        assert(head@ =~= s@.take(i as int));
        let mut out = String::new();
        push_chars(&mut out, &head);
        append_str(&mut out, "…\n\n_(truncated)_");
        out
    } else {
        owned(content)
    }
}

/// The answer where the assistant failed.
pub fn chat_error_reply(error: &str) -> (r: String)
    ensures
        r@ == "❌ Error: "@ + error@,
{
    let mut out = owned("❌ Error: ");
    append_str(&mut out, error);
    out
}

/// The answer where no session could be opened.
pub fn session_error_reply(error: &str) -> (r: String)
    ensures
        r@ == "❌ "@ + error@,
{
    let mut out = owned("❌ ");
    append_str(&mut out, error);
    out
}

} // verus!
