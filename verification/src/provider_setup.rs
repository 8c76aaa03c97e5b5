//! Which model providers exist and how each is set up: the built-in
//! providers with their default endpoints and models, how a stored provider
//! configuration becomes a provider, and where its API key is looked up.
use vstd::prelude::*;
use crate::models::ProviderConfigRow;
use crate::text::{chars_of, has_infix, lower_chars, lower_seq, contains_chars, owned, append_str, str_is, string_of};

verus! {

/// The API a provider speaks.
#[derive(Debug, Clone, Copy, PartialEq, Eq, Structural)]
pub enum ProviderKind {
    Ollama,
    OpenAI,
    Anthropic,
    Google,
}

/// A built-in provider: its id, the API it speaks, its default endpoint and
/// model, and, for OpenAI-compatible services, the name it is shown under.
pub struct BuiltinProvider {
    pub id: Seq<char>,
    pub kind: ProviderKind,
    pub url: Seq<char>,
    pub model: Seq<char>,
    pub display: Option<Seq<char>>,
}

/// The built-in providers, in the order they are seeded; the Anthropic
/// provider's default model is given.
pub open spec fn builtin_providers(anthropic_model: Seq<char>) -> Seq<BuiltinProvider> {
    seq![
        BuiltinProvider { id: "ollama"@, kind: ProviderKind::Ollama, url: "http://localhost:11434"@, model: "qwen3:14b"@, display: None },
        BuiltinProvider { id: "openai"@, kind: ProviderKind::OpenAI, url: "https://api.openai.com"@, model: "gpt-4o-mini"@, display: None },
        BuiltinProvider { id: "anthropic"@, kind: ProviderKind::Anthropic, url: "https://api.anthropic.com"@, model: anthropic_model, display: None },
        BuiltinProvider { id: "google"@, kind: ProviderKind::Google, url: "https://generativelanguage.googleapis.com"@, model: "gemini-2.0-flash"@, display: None },
        BuiltinProvider { id: "groq"@, kind: ProviderKind::OpenAI, url: "https://api.groq.com/openai"@, model: "llama-3.3-70b-versatile"@, display: Some("Groq"@) },
        BuiltinProvider { id: "mistral"@, kind: ProviderKind::OpenAI, url: "https://api.mistral.ai"@, model: "mistral-large-latest"@, display: Some("Mistral"@) },
        BuiltinProvider { id: "deepseek"@, kind: ProviderKind::OpenAI, url: "https://api.deepseek.com"@, model: "deepseek-chat"@, display: Some("DeepSeek"@) },
        BuiltinProvider { id: "cerebras"@, kind: ProviderKind::OpenAI, url: "https://api.cerebras.ai"@, model: "qwen-3-235b"@, display: Some("Cerebras"@) },
        BuiltinProvider { id: "nvidia"@, kind: ProviderKind::OpenAI, url: "https://integrate.api.nvidia.com"@, model: "meta/llama-4-maverick-17b-128e-instruct"@, display: Some("NVIDIA NIM"@) },
        BuiltinProvider { id: "sambanova"@, kind: ProviderKind::OpenAI, url: "https://api.sambanova.ai"@, model: "Meta-Llama-3.3-70B-Instruct"@, display: Some("SambaNova"@) },
        BuiltinProvider { id: "openrouter"@, kind: ProviderKind::OpenAI, url: "https://openrouter.ai/api"@, model: "google/gemini-2.5-flash-preview"@, display: Some("OpenRouter"@) },
        BuiltinProvider { id: "zhipuai"@, kind: ProviderKind::OpenAI, url: "https://open.bigmodel.cn/api/paas"@, model: "glm-4-plus"@, display: Some("ZhipuAI"@) },
        BuiltinProvider { id: "dashscope"@, kind: ProviderKind::OpenAI, url: "https://dashscope.aliyuncs.com/compatible-mode"@, model: "qwen-max"@, display: Some("DashScope"@) },
    ]
}

/// The built-in provider with id `id`, if there is one.
pub open spec fn builtin(id: Seq<char>, anthropic_model: Seq<char>) -> Option<BuiltinProvider> {
    if id == "ollama"@ {
        Some(builtin_providers(anthropic_model)[0])
    }
    else if id == "openai"@ {
        Some(builtin_providers(anthropic_model)[1])
    }
    else if id == "anthropic"@ {
        Some(builtin_providers(anthropic_model)[2])
    }
    else if id == "google"@ {
        Some(builtin_providers(anthropic_model)[3])
    }
    else if id == "groq"@ {
        Some(builtin_providers(anthropic_model)[4])
    }
    else if id == "mistral"@ {
        Some(builtin_providers(anthropic_model)[5])
    }
    else if id == "deepseek"@ {
        Some(builtin_providers(anthropic_model)[6])
    }
    else if id == "cerebras"@ {
        Some(builtin_providers(anthropic_model)[7])
    }
    else if id == "nvidia"@ {
        Some(builtin_providers(anthropic_model)[8])
    }
    else if id == "sambanova"@ {
        Some(builtin_providers(anthropic_model)[9])
    }
    else if id == "openrouter"@ {
        Some(builtin_providers(anthropic_model)[10])
    }
    else if id == "zhipuai"@ {
        Some(builtin_providers(anthropic_model)[11])
    }
    else if id == "dashscope"@ {
        Some(builtin_providers(anthropic_model)[12])
    } else {
        None
    }
}

/// How a provider is to be made: the API it speaks, its endpoint, the id
/// under which its API key is kept (none for a local Ollama), its default
/// model (none for Ollama), and, for a named OpenAI-compatible service, its
/// id and shown name.
#[derive(Debug, Clone)]
pub struct ProviderPlan {
    pub kind: ProviderKind,
    pub base_url: String,
    pub key_id: Option<String>,
    pub default_model: Option<String>,
    pub named: Option<(String, String)>,
}

/// The model of an optional text.
pub open spec fn opt(s: Option<String>) -> Option<Seq<char>> {
    match s {
        Some(t) => Some(t@),
        None => None,
    }
}

/// `s`, or `d` where there is none.
pub open spec fn or_default(s: Option<Seq<char>>, d: Seq<char>) -> Seq<char> {
    match s {
        Some(t) => t,
        None => d,
    }
}

/// The plan's parts are as given.
pub open spec fn plan_is(
    p: ProviderPlan,
    kind: ProviderKind,
    url: Seq<char>,
    key_id: Option<Seq<char>>,
    model: Option<Seq<char>>,
    named: Option<(Seq<char>, Seq<char>)>,
) -> bool {
    &&& p.kind == kind
    &&& p.base_url@ == url
    &&& opt(p.key_id) == key_id
    &&& opt(p.default_model) == model
    &&& match named {
        Some((i, d)) => p.named matches Some(n) && n.0@ == i && n.1@ == d,
        None => p.named is None,
    }
}

/// What a stored configuration makes. A built-in id (ASCII case ignored)
/// makes that provider, with the configured endpoint and model over its
/// defaults; another id makes a provider by the configured type (ASCII case
/// ignored): one mentioning `ollama`; then `openai` or `cloud`, named by its
/// id; then `anthropic`; then `google` or `gemini`; any other makes none.
pub open spec fn provider_plan(
    anthropic_model: Seq<char>,
    id: Seq<char>,
    kind: Seq<char>,
    url: Option<Seq<char>>,
    model: Option<Seq<char>>,
    p: Option<ProviderPlan>,
) -> bool {
    let lid = lower_seq(id);
    let lkind = lower_seq(kind);
    match builtin(lid, anthropic_model) {
        Some(b) => p matches Some(plan) && plan_is(
            plan,
            b.kind,
            or_default(url, b.url),
            if b.kind == ProviderKind::Ollama {
                None
            } else {
                Some(b.id)
            },
            if b.kind == ProviderKind::Ollama {
                None
            } else {
                Some(or_default(model, b.model))
            },
            match b.display {
                Some(d) => Some((b.id, d)),
                None => None,
            },
        ),
        None => if has_infix(lkind, "ollama"@) {
            p matches Some(plan) && plan_is(
                plan,
                ProviderKind::Ollama,
                or_default(url, "http://localhost:11434"@),
                None,
                None,
                None,
            )
        } else if has_infix(lkind, "openai"@) || has_infix(lkind, "cloud"@) {
            p matches Some(plan) && plan_is(
                plan,
                ProviderKind::OpenAI,
                or_default(url, "https://api.openai.com"@),
                Some(id),
                Some(or_default(model, "gpt-4o-mini"@)),
                Some((id, id)),
            )
        } else if has_infix(lkind, "anthropic"@) {
            p matches Some(plan) && plan_is(
                plan,
                ProviderKind::Anthropic,
                or_default(url, "https://api.anthropic.com"@),
                Some(id),
                Some(or_default(model, anthropic_model)),
                None,
            )
        } else if has_infix(lkind, "google"@) || has_infix(lkind, "gemini"@) {
            p matches Some(plan) && plan_is(
                plan,
                ProviderKind::Google,
                or_default(url, "https://generativelanguage.googleapis.com"@),
                Some(id),
                Some(or_default(model, "gemini-2.0-flash"@)),
                None,
            )
        } else {
            p is None
        },
    }
}

/// `s` when given, else `d`.
fn text_or(s: &Option<String>, d: &str) -> (r: String)
    ensures
        r@ == or_default(opt(*s), d@),
{
    match s {
        Some(t) => t.clone(),
        None => owned(d),
    }
}

fn has(hay: &[char], needle: &str) -> (r: bool)
    ensures
        r == has_infix(hay@, needle@),
{
    let n = chars_of(needle);
    contains_chars(hay, &n)
}

/// How a stored provider configuration becomes a provider, if it does; the
/// Anthropic provider's default model is given.
pub fn plan_provider(config: &ProviderConfigRow, anthropic_model: &str) -> (r: Option<ProviderPlan>)
    ensures
        provider_plan(anthropic_model@, config.id@, config.provider_type@, opt(config.base_url), opt(config.default_model), r),
{
    let lid = string_of(&lower_chars(&chars_of(config.id.as_str())));
    let id = lid.as_str();
    let url = &config.base_url;
    let model = &config.default_model;
    if str_is(id, "ollama") {
        Some(ProviderPlan { kind: ProviderKind::Ollama, base_url: text_or(url, "http://localhost:11434"), key_id: None, default_model: None, named: None })
    } else if str_is(id, "openai") {
        Some(ProviderPlan { kind: ProviderKind::OpenAI, base_url: text_or(url, "https://api.openai.com"), key_id: Some(owned("openai")), default_model: Some(text_or(model, "gpt-4o-mini")), named: None })
    } else if str_is(id, "anthropic") {
        Some(ProviderPlan { kind: ProviderKind::Anthropic, base_url: text_or(url, "https://api.anthropic.com"), key_id: Some(owned("anthropic")), default_model: Some(text_or(model, anthropic_model)), named: None })
    } else if str_is(id, "google") {
        Some(ProviderPlan { kind: ProviderKind::Google, base_url: text_or(url, "https://generativelanguage.googleapis.com"), key_id: Some(owned("google")), default_model: Some(text_or(model, "gemini-2.0-flash")), named: None })
    } else if str_is(id, "groq") {
        Some(ProviderPlan { kind: ProviderKind::OpenAI, base_url: text_or(url, "https://api.groq.com/openai"), key_id: Some(owned("groq")), default_model: Some(text_or(model, "llama-3.3-70b-versatile")), named: Some((owned("groq"), owned("Groq"))) })
    } else if str_is(id, "mistral") {
        Some(ProviderPlan { kind: ProviderKind::OpenAI, base_url: text_or(url, "https://api.mistral.ai"), key_id: Some(owned("mistral")), default_model: Some(text_or(model, "mistral-large-latest")), named: Some((owned("mistral"), owned("Mistral"))) })
    } else if str_is(id, "deepseek") {
        Some(ProviderPlan { kind: ProviderKind::OpenAI, base_url: text_or(url, "https://api.deepseek.com"), key_id: Some(owned("deepseek")), default_model: Some(text_or(model, "deepseek-chat")), named: Some((owned("deepseek"), owned("DeepSeek"))) })
    } else if str_is(id, "cerebras") {
        Some(ProviderPlan { kind: ProviderKind::OpenAI, base_url: text_or(url, "https://api.cerebras.ai"), key_id: Some(owned("cerebras")), default_model: Some(text_or(model, "qwen-3-235b")), named: Some((owned("cerebras"), owned("Cerebras"))) })
    } else if str_is(id, "nvidia") {
        Some(ProviderPlan { kind: ProviderKind::OpenAI, base_url: text_or(url, "https://integrate.api.nvidia.com"), key_id: Some(owned("nvidia")), default_model: Some(text_or(model, "meta/llama-4-maverick-17b-128e-instruct")), named: Some((owned("nvidia"), owned("NVIDIA NIM"))) })
    } else if str_is(id, "sambanova") {
        Some(ProviderPlan { kind: ProviderKind::OpenAI, base_url: text_or(url, "https://api.sambanova.ai"), key_id: Some(owned("sambanova")), default_model: Some(text_or(model, "Meta-Llama-3.3-70B-Instruct")), named: Some((owned("sambanova"), owned("SambaNova"))) })
    } else if str_is(id, "openrouter") {
        Some(ProviderPlan { kind: ProviderKind::OpenAI, base_url: text_or(url, "https://openrouter.ai/api"), key_id: Some(owned("openrouter")), default_model: Some(text_or(model, "google/gemini-2.5-flash-preview")), named: Some((owned("openrouter"), owned("OpenRouter"))) })
    } else if str_is(id, "zhipuai") {
        Some(ProviderPlan { kind: ProviderKind::OpenAI, base_url: text_or(url, "https://open.bigmodel.cn/api/paas"), key_id: Some(owned("zhipuai")), default_model: Some(text_or(model, "glm-4-plus")), named: Some((owned("zhipuai"), owned("ZhipuAI"))) })
    } else if str_is(id, "dashscope") {
        Some(ProviderPlan { kind: ProviderKind::OpenAI, base_url: text_or(url, "https://dashscope.aliyuncs.com/compatible-mode"), key_id: Some(owned("dashscope")), default_model: Some(text_or(model, "qwen-max")), named: Some((owned("dashscope"), owned("DashScope"))) })
    } else {
        let kind = lower_chars(&chars_of(config.provider_type.as_str()));
        if has(&kind, "ollama") {
            Some(ProviderPlan { kind: ProviderKind::Ollama, base_url: text_or(url, "http://localhost:11434"), key_id: None, default_model: None, named: None })
        } else if has(&kind, "openai") || has(&kind, "cloud") {
            Some(ProviderPlan { kind: ProviderKind::OpenAI, base_url: text_or(url, "https://api.openai.com"), key_id: Some(config.id.clone()), default_model: Some(text_or(model, "gpt-4o-mini")), named: Some((config.id.clone(), config.id.clone())) })
        } else if has(&kind, "anthropic") {
            Some(ProviderPlan { kind: ProviderKind::Anthropic, base_url: text_or(url, "https://api.anthropic.com"), key_id: Some(config.id.clone()), default_model: Some(text_or(model, anthropic_model)), named: None })
        } else if has(&kind, "google") || has(&kind, "gemini") {
            Some(ProviderPlan { kind: ProviderKind::Google, base_url: text_or(url, "https://generativelanguage.googleapis.com"), key_id: Some(config.id.clone()), default_model: Some(text_or(model, "gemini-2.0-flash")), named: None })
        } else {
            None
        }
    }
}

/// A configuration to store when none exists: id, type, endpoint and model.
#[derive(Debug, Clone)]
pub struct ProviderSeed {
    pub id: String,
    pub provider_type: String,
    pub base_url: String,
    pub default_model: String,
}

/// The type under which a built-in provider is stored: its own id for the
/// four native APIs, `cloud` for the OpenAI-compatible services.
pub open spec fn seed_type(b: BuiltinProvider) -> Seq<char> {
    if b.display is None {
        b.id
    } else {
        "cloud"@
    }
}

/// The configurations stored when none exist: one per built-in provider, in
/// order; the Anthropic provider's default model is given.
pub fn default_provider_seeds(anthropic_model: &str) -> (r: Vec<ProviderSeed>)
    ensures
        r@.len() == builtin_providers(anthropic_model@).len(),
        forall|i: int|
            0 <= i < r@.len() ==> (#[trigger] r@[i]).id@ == builtin_providers(anthropic_model@)[i].id
                && r@[i].provider_type@ == seed_type(builtin_providers(anthropic_model@)[i]) && r@[i].base_url@
                == builtin_providers(anthropic_model@)[i].url && r@[i].default_model@ == builtin_providers(anthropic_model@)[i].model,
{
    let mut v: Vec<ProviderSeed> = Vec::new();
    v.push(ProviderSeed { id: owned("ollama"), provider_type: owned("ollama"), base_url: owned("http://localhost:11434"), default_model: owned("qwen3:14b") });
    v.push(ProviderSeed { id: owned("openai"), provider_type: owned("openai"), base_url: owned("https://api.openai.com"), default_model: owned("gpt-4o-mini") });
    v.push(ProviderSeed { id: owned("anthropic"), provider_type: owned("anthropic"), base_url: owned("https://api.anthropic.com"), default_model: owned(anthropic_model) });
    v.push(ProviderSeed { id: owned("google"), provider_type: owned("google"), base_url: owned("https://generativelanguage.googleapis.com"), default_model: owned("gemini-2.0-flash") });
    v.push(ProviderSeed { id: owned("groq"), provider_type: owned("cloud"), base_url: owned("https://api.groq.com/openai"), default_model: owned("llama-3.3-70b-versatile") });
    v.push(ProviderSeed { id: owned("mistral"), provider_type: owned("cloud"), base_url: owned("https://api.mistral.ai"), default_model: owned("mistral-large-latest") });
    v.push(ProviderSeed { id: owned("deepseek"), provider_type: owned("cloud"), base_url: owned("https://api.deepseek.com"), default_model: owned("deepseek-chat") });
    v.push(ProviderSeed { id: owned("cerebras"), provider_type: owned("cloud"), base_url: owned("https://api.cerebras.ai"), default_model: owned("qwen-3-235b") });
    v.push(ProviderSeed { id: owned("nvidia"), provider_type: owned("cloud"), base_url: owned("https://integrate.api.nvidia.com"), default_model: owned("meta/llama-4-maverick-17b-128e-instruct") });
    v.push(ProviderSeed { id: owned("sambanova"), provider_type: owned("cloud"), base_url: owned("https://api.sambanova.ai"), default_model: owned("Meta-Llama-3.3-70B-Instruct") });
    v.push(ProviderSeed { id: owned("openrouter"), provider_type: owned("cloud"), base_url: owned("https://openrouter.ai/api"), default_model: owned("google/gemini-2.5-flash-preview") });
    v.push(ProviderSeed { id: owned("zhipuai"), provider_type: owned("cloud"), base_url: owned("https://open.bigmodel.cn/api/paas"), default_model: owned("glm-4-plus") });
    v.push(ProviderSeed { id: owned("dashscope"), provider_type: owned("cloud"), base_url: owned("https://dashscope.aliyuncs.com/compatible-mode"), default_model: owned("qwen-max") });
    v
}

/// The name under which a provider's API key is kept in the secret store.
pub fn api_key_name(provider_id: &str) -> (r: String)
    ensures
        r@ == provider_id@ + "-api-key"@,
{
    let mut r = owned(provider_id);
    append_str(&mut r, "-api-key");
    r
}

/// The environment variable that may hold a provider's API key: its id in
/// The upper-case form of a text, as Unicode defines it (`str::to_uppercase`).
pub uninterp spec fn unicode_upper(s: Seq<char>) -> Seq<char>;

/// The upper-case form of a text (`str::to_uppercase`); the result depends
/// on the text alone.
#[verifier::external_body]
fn to_upper(s: &str) -> (r: String)
    ensures
        r@ == unicode_upper(s@),
{
    s.to_uppercase()
}

/// The provider's identifier in upper case, followed by `_API_KEY`.
pub open spec fn api_key_variable(provider_id: Seq<char>) -> Seq<char> {
    unicode_upper(provider_id) + "_API_KEY"@
}

/// The environment variable that may hold a provider's API key.
pub fn api_key_env_var(provider_id: &str) -> (r: String)
    ensures
        r@ == api_key_variable(provider_id@),
{
    let mut r = to_upper(provider_id);
    append_str(&mut r, "_API_KEY");
    r
}

/// The other environment variable that some providers' keys are known under.
pub open spec fn alternate_key_variable(provider_id: Seq<char>) -> Option<Seq<char>> {
    if provider_id == "google"@ {
        Some("GEMINI_API_KEY"@)
    } else if provider_id == "nvidia"@ {
        Some("NVIDIA_API_KEY"@)
    } else if provider_id == "dashscope"@ {
        Some("DASHSCOPE_API_KEY"@)
    } else if provider_id == "zhipuai"@ {
        Some("ZHIPUAI_API_KEY"@)
    } else {
        None
    }
}

/// The other environment variable that some providers' keys are known under.
pub fn alternate_key_env_var(provider_id: &str) -> (r: Option<&'static str>)
    ensures
        match r {
            Some(v) => alternate_key_variable(provider_id@) == Some(v@),
            None => alternate_key_variable(provider_id@) is None,
        },
{
    if str_is(provider_id, "google") {
        Some("GEMINI_API_KEY")
    } else if str_is(provider_id, "nvidia") {
        Some("NVIDIA_API_KEY")
    } else if str_is(provider_id, "dashscope") {
        Some("DASHSCOPE_API_KEY")
    } else if str_is(provider_id, "zhipuai") {
        Some("ZHIPUAI_API_KEY")
    } else {
        None
    }
}

/// The first non-empty key among those found, in order: the secret store's,
/// the primary environment variable's, the alternate one's; else empty.
pub open spec fn chosen_key(
    stored: Option<Seq<char>>,
    primary: Option<Seq<char>>,
    alternate: Option<Seq<char>>,
) -> Seq<char> {
    if stored matches Some(k) && k.len() > 0 {
        stored->0
    } else if primary matches Some(k) && k.len() > 0 {
        primary->0
    } else if alternate matches Some(k) && k.len() > 0 {
        alternate->0
    } else {
        Seq::empty()
    }
}

/// Chooses a provider's API key among the places it may be found.
pub fn choose_api_key(stored: Option<String>, primary: Option<String>, alternate: Option<String>) -> (r:
    String)
    ensures
        r@ == chosen_key(opt(stored), opt(primary), opt(alternate)),
{
    if let Some(k) = stored {
        if chars_of(k.as_str()).len() > 0 {
            return k;
        }
    }
    if let Some(k) = primary {
        if chars_of(k.as_str()).len() > 0 {
            return k;
        }
    }
    if let Some(k) = alternate {
        if chars_of(k.as_str()).len() > 0 {
            return k;
        }
    }
    proof {
        reveal_strlit("");
    }
    owned("")
}

} // verus!
