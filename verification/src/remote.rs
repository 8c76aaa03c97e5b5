//! The decisions of the remote-access server: reading tokens from requests,
//! issuing session tokens, checking roles, and slowing down failed sign-ins.
use vstd::prelude::*;
use crate::access::ActorRole;
use crate::auth::AuthSession;
use crate::keyed::{KeyedList, pairs_map, distinct_keys};
use crate::models::{TeamRow, TeamMemberRow};
use crate::tool_gate::RemoteStatus;
use crate::text::{append_str, decimal, push_decimal, chars_of, find_first, find_text, lemma_find_first, lower_chars, lower_seq, owned, str_is, push_char, push_chars, slice_chars, string_of, trim_chars, trim_seq, chars_eq, occurs_at, starts_with_chars};

verus! {

// ── Requests and replies ──
/// A chat message sent to a session.
#[derive(Debug, Clone)]
pub struct ChatSendRequest {
    pub session_id: String,
    pub content: String,
}

/// A new session with a provider's model.
#[derive(Debug, Clone)]
pub struct CreateSessionRequest {
    pub provider_id: String,
    pub model: String,
}

/// How many sessions to list.
#[derive(Debug, Clone)]
pub struct SessionQuery {
    pub limit: Option<u32>,
}

/// The session whose messages to list.
#[derive(Debug, Clone)]
pub struct SessionMessagesQuery {
    pub session_id: String,
}

/// The team to show.
#[derive(Debug, Clone)]
pub struct TeamQuery {
    pub team_id: String,
}

/// A new team: its name and its members as (provider, model) pairs.
#[derive(Debug, Clone)]
pub struct TeamCreateRequest {
    pub name: String,
    pub members: Vec<(String, String)>,
    pub description: Option<String>,
    pub system_prompt: Option<String>,
}

/// A user name and password.
#[derive(Debug, Clone)]
pub struct AuthRequest {
    pub username: String,
    pub password: String,
}

/// A password change.
#[derive(Debug, Clone)]
pub struct ChangePasswordRequest {
    pub current_password: String,
    pub new_password: String,
}

/// A new user with a role.
#[derive(Debug, Clone)]
pub struct RemoteCreateUserRequest {
    pub username: String,
    pub password: String,
    pub role: ActorRole,
}

/// The public health report.
#[derive(Debug, Clone)]
pub struct HealthResponse {
    pub status: String,
    pub version: String,
    pub uptime_seconds: u64,
    pub remote_session_ttl_seconds: u64,
}

/// An error reply.
#[derive(Debug, Clone)]
pub struct ErrorResponse {
    pub error: String,
}

/// A new remote session.
#[derive(Debug, Clone)]
pub struct RemoteAuthResponse {
    pub session_token: String,
    pub actor: AuthSession,
}

/// Tokens given as query parameters.
#[derive(Debug, Clone)]
pub struct AuthQuery {
    pub service_token: Option<String>,
    pub session_token: Option<String>,
}

/// Filters of the audit listing.
#[derive(Debug, Clone)]
pub struct AuditQuery {
    pub limit: Option<u32>,
    pub actor_username: Option<String>,
    pub event_type: Option<String>,
    pub created_after: Option<String>,
}

/// The administrators' health report.
#[derive(Debug, Clone)]
pub struct AdminHealthResponse {
    pub status: String,
    pub version: String,
    pub uptime_seconds: u64,
    pub has_users: bool,
    pub active_sessions: usize,
    pub rate_limited_users: usize,
    pub audit_event_count: i64,
    pub latest_audit_at: Option<String>,
    pub provider_count: usize,
    pub mcp_tool_count: usize,
}

/// A team with its members.
#[derive(Debug, Clone)]
pub struct TeamDetailResponse {
    pub team: TeamRow,
    pub members: Vec<TeamMemberRow>,
}

/// The HTTP status of a request refused for the caller's role.
pub const FORBIDDEN: u16 = 403;

/// The HTTP status of a sign-in refused because the name is blocked.
pub const TOO_MANY_REQUESTS: u16 = 429;

/// The status of a request whose content is refused.
pub const BAD_REQUEST: u16 = 400;

/// How long, in seconds, a remote session lasts.
pub const REMOTE_SESSION_TTL_SECS: u64 = 43200;

// ── Query strings ──
/// The value of parameter `key` in the query `q` from position `i` on:
/// parameters are separated by `&` and split at their first `=`; a parameter
/// without `=` ends the search with nothing found.
pub open spec fn query_value_from(q: Seq<char>, key: Seq<char>, i: int) -> Option<Seq<char>>
    decreases q.len() - i,
{
    if i < 0 || i > q.len() {
        None
    } else {
        let end = match find_first(q, seq!['&'], i) {
            Some(e) => e,
            None => q.len() as int,
        };
        let piece = q.subrange(i, end);
        match find_first(piece, seq!['='], 0) {
            None => None,
            Some(e) => if piece.take(e) == key {
                Some(piece.skip(e + 1))
            } else if end >= q.len() {
                None
            } else {
                proof {
                    lemma_find_first(q, seq!['&'], i);
                }
                query_value_from(q, key, end + 1)
            },
        }
    }
}

/// The value of parameter `key` in a query string, if it has one.
pub open spec fn query_value(query: Option<Seq<char>>, key: Seq<char>) -> Option<Seq<char>> {
    match query {
        Some(q) => query_value_from(q, key, 0),
        None => None,
    }
}

/// The value of parameter `key` in a query string.
pub fn parse_query_param(query: Option<&str>, key: &str) -> (r: Option<String>)
    ensures
        match r {
            Some(v) => query_value(
                match query {
                    Some(q) => Some(q@),
                    None => None,
                },
                key@,
            ) == Some(v@),
            None => query_value(
                match query {
                    Some(q) => Some(q@),
                    None => None,
                },
                key@,
            ) is None,
        },
{
    let q = match query {
        Some(q) => chars_of(q),
        None => {
            return None;
        },
    };
    let k = chars_of(key);
    let amp = vec!['&'];
    let eq = vec!['='];
    let mut i: usize = 0;
    let n = q.len();
    assert(amp@ =~= seq!['&']);
    assert(eq@ =~= seq!['=']);
    loop
        invariant
            i <= q@.len(),
            n == q@.len(),
            opt_view(query) == Some(q@),
            k@ == key@,
            amp@ == seq!['&'],
            eq@ == seq!['='],
            query_value_from(q@, key@, 0) == query_value_from(q@, key@, i as int),
        decreases q@.len() - i,
    {
        proof {
            lemma_find_first(q@, amp@, i as int);
        }
        let end = match find_text(&q, &amp, i) {
            Some(e) => e,
            None => n,
        };
        let piece = slice_chars(&q, i, end);
        match find_text(&piece, &eq, 0) {
            None => {
                return None;
            },
            Some(e) => {
                proof {
                    lemma_find_first(piece@, eq@, 0);
                }
                let name = slice_chars(&piece, 0, e);
                assert(name@ =~= piece@.take(e as int));
                if chars_eq(&name, &k) {
                    let value = slice_chars(&piece, e + 1, piece.len());
                    assert(value@ =~= piece@.skip(e + 1));
                    return Some(string_of(&value));
                }
                if end >= n {
                    return None;
                }
                i = end + 1;
            },
        }
    }
}

/// The service token of a request: a `Bearer` authorization header, else the
/// service-token header, else the `service_token` query parameter.
pub open spec fn service_token(
    authorization: Option<Seq<char>>,
    service_header: Option<Seq<char>>,
    query: Option<Seq<char>>,
) -> Option<Seq<char>> {
    match authorization {
        Some(a) if a.len() >= 7 && a.take(7) == "Bearer "@ => Some(a.skip(7)),
        _ => match service_header {
            Some(t) => Some(t),
            None => query_value(query, "service_token"@),
        },
    }
}

/// The model of an optional text.
pub open spec fn opt_view(s: Option<&str>) -> Option<Seq<char>> {
    match s {
        Some(t) => Some(t@),
        None => None,
    }
}

/// Reads the service token of a request from its authorization header, its
/// service-token header and its query string (each as text, if present).
pub fn extract_service_token(
    authorization: Option<&str>,
    service_header: Option<&str>,
    query: Option<&str>,
) -> (r: Option<String>)
    ensures
        match r {
            Some(t) => service_token(opt_view(authorization), opt_view(service_header), opt_view(query))
                == Some(t@),
            None => service_token(opt_view(authorization), opt_view(service_header), opt_view(query))
                is None,
        },
{
    proof {
        reveal_strlit("Bearer ");
    }
    if let Some(a) = authorization {
        let cs = chars_of(a);
        let prefix = chars_of("Bearer ");
        if starts_with_chars(&cs, &prefix) {
            let rest = slice_chars(&cs, 7, cs.len());
            assert(rest@ =~= a@.skip(7));
            assert(cs@.subrange(0, 7) =~= cs@.take(7));
            return Some(string_of(&rest));
        }
        assert(!(a@.len() >= 7 && a@.take(7) == "Bearer "@)) by {
            if a@.len() >= 7 && a@.take(7) == "Bearer "@ {
                assert(cs@.subrange(0, 7) =~= a@.take(7));
            }
        }
    }
    if let Some(t) = service_header {
        return Some(owned(t));
    }
    parse_query_param(query, "service_token")
}

/// The session token of a request: the session header, else the query's
/// `session_token` field, else the `session_token` parameter of the URI's query.
pub open spec fn session_token(
    session_header: Option<Seq<char>>,
    query_token: Option<Seq<char>>,
    uri_query: Option<Seq<char>>,
) -> Option<Seq<char>> {
    match session_header {
        Some(t) => Some(t),
        None => match query_token {
            Some(t) => Some(t),
            None => query_value(uri_query, "session_token"@),
        },
    }
}

/// The path that every client may reach without the service token.
pub open spec fn public_path() -> Seq<char> {
    "/api/health"@
}

/// Whether a request to `path` passes the server's gate, where `token` is
/// the service token the server holds: the health path is open to all; any
/// other path needs the request to carry that token.
pub fn passes_service_gate(
    path: &str,
    authorization: Option<&str>,
    service_header: Option<&str>,
    query: Option<&str>,
    token: &str,
) -> (r: bool)
    ensures
        r == (path@ == public_path() || service_token(
            opt_view(authorization),
            opt_view(service_header),
            opt_view(query),
        ) == Some(token@)),
{
    proof {
        reveal_strlit("/api/health");
    }
    if str_is(path, "/api/health") {
        return true;
    }
    match extract_service_token(authorization, service_header, query) {
        Some(t) => str_is(t.as_str(), token),
        None => false,
    }
}

/// Reads the session token of a request.
pub fn extract_session_token(
    session_header: Option<&str>,
    query_token: Option<&str>,
    uri_query: Option<&str>,
) -> (r: Option<String>)
    ensures
        match r {
            Some(t) => session_token(opt_view(session_header), opt_view(query_token), opt_view(uri_query))
                == Some(t@),
            None => session_token(opt_view(session_header), opt_view(query_token), opt_view(uri_query))
                is None,
        },
{
    if let Some(t) = session_header {
        return Some(owned(t));
    }
    if let Some(t) = query_token {
        return Some(owned(t));
    }
    parse_query_param(uri_query, "session_token")
}

/// Lets a request through when the caller's role is among `allowed`; refuses
/// it as forbidden otherwise.
pub fn authorize_remote_role(actor: &AuthSession, allowed: &[ActorRole]) -> (r: Result<(), u16>)
    ensures
        r is Ok <==> allowed@.contains(actor.role),
        r matches Err(s) ==> s == FORBIDDEN,
{
    let mut i: usize = 0;
    while i < allowed.len()
        invariant
            i <= allowed@.len(),
            forall|k: int| 0 <= k < i ==> allowed@[k] != actor.role,
        decreases allowed@.len() - i,
    {
        if allowed[i] == actor.role {
            assert(allowed@[i as int] == actor.role);
            return Ok(());
        }
        i = i + 1;
    }
    Err(FORBIDDEN)
}

/// The remote API's endpoints that need a role.
#[derive(Debug, Clone, Copy, PartialEq, Eq, Structural)]
pub enum RemoteEndpoint {
    AdminHealth,
    AuditEvents,
    ListUsers,
    CreateUser,
    ListProviders,
    ListSessions,
    GetMessages,
    DeleteSession,
    CreateSession,
    ChatSend,
    ListTeams,
    GetTeam,
    CreateTeam,
    CreateTeamSession,
    ChatStream,
}

/// Who may call an endpoint: the administrative ones are kept to super
/// admins, creating teams also to architects, the working ones to super
/// admins, architects and operators; agents may call none.
pub open spec fn endpoint_allows(endpoint: RemoteEndpoint, role: ActorRole) -> bool {
    match endpoint {
        RemoteEndpoint::AdminHealth | RemoteEndpoint::AuditEvents | RemoteEndpoint::ListUsers
        | RemoteEndpoint::CreateUser => role == ActorRole::SuperAdmin,
        RemoteEndpoint::CreateTeam => role == ActorRole::SuperAdmin || role == ActorRole::Architect,
        _ => role == ActorRole::SuperAdmin || role == ActorRole::Architect || role
            == ActorRole::Operator,
    }
}

/// Lets a call of `endpoint` through when the caller's role may call it;
/// refuses it as forbidden otherwise.
pub fn authorize_endpoint(actor: &AuthSession, endpoint: RemoteEndpoint) -> (r: Result<(), u16>)
    ensures
        r is Ok <==> endpoint_allows(endpoint, actor.role),
        r matches Err(s) ==> s == FORBIDDEN,
{
    let allowed: Vec<ActorRole> = match endpoint {
        RemoteEndpoint::AdminHealth | RemoteEndpoint::AuditEvents | RemoteEndpoint::ListUsers
        | RemoteEndpoint::CreateUser => vec![ActorRole::SuperAdmin],
        RemoteEndpoint::CreateTeam => vec![ActorRole::SuperAdmin, ActorRole::Architect],
        _ => vec![ActorRole::SuperAdmin, ActorRole::Architect, ActorRole::Operator],
    };
    let r = authorize_remote_role(actor, allowed.as_slice());
    proof {
        if endpoint_allows(endpoint, actor.role) {
            let k: int = match actor.role {
                ActorRole::SuperAdmin => 0,
                ActorRole::Architect => 1,
                _ => 2,
            };
            assert(allowed@[k] == actor.role);
        }
    }
    r
}

/// No endpoint of the remote API lets an agent through, and the
/// administrative ones let only super admins through.
pub proof fn law_remote_access_by_role(endpoint: RemoteEndpoint, role: ActorRole)
    ensures
        !endpoint_allows(endpoint, ActorRole::Agent),
        endpoint_allows(endpoint, ActorRole::SuperAdmin),
        (endpoint == RemoteEndpoint::AdminHealth || endpoint == RemoteEndpoint::AuditEvents
            || endpoint == RemoteEndpoint::ListUsers || endpoint == RemoteEndpoint::CreateUser)
            ==> (endpoint_allows(endpoint, role) <==> role == ActorRole::SuperAdmin),
{
}

/// The working endpoints of the remote API (providers, sessions, messages,
/// chat, teams and team sessions) let super admins, architects and operators
/// through; making a team is kept to super admins and architects.
pub proof fn law_working_endpoints_by_role(endpoint: RemoteEndpoint, role: ActorRole)
    ensures
        (endpoint == RemoteEndpoint::ListProviders || endpoint == RemoteEndpoint::ListSessions
            || endpoint == RemoteEndpoint::GetMessages || endpoint == RemoteEndpoint::DeleteSession
            || endpoint == RemoteEndpoint::CreateSession || endpoint == RemoteEndpoint::ChatSend
            || endpoint == RemoteEndpoint::ChatStream || endpoint == RemoteEndpoint::ListTeams
            || endpoint == RemoteEndpoint::GetTeam || endpoint == RemoteEndpoint::CreateTeamSession)
            ==> (endpoint_allows(endpoint, role) <==> (role == ActorRole::SuperAdmin || role
            == ActorRole::Architect || role == ActorRole::Operator)),
        endpoint == RemoteEndpoint::CreateTeam ==> (endpoint_allows(endpoint, role) <==> (role
            == ActorRole::SuperAdmin || role == ActorRole::Architect)),
{
}

/// The roles a super admin may give to a user made over the remote API:
/// architects and operators only.
pub open spec fn remote_creatable(role: ActorRole) -> bool {
    role == ActorRole::Architect || role == ActorRole::Operator
}

/// Checks the role asked for a user made over the remote API; any other is
/// a bad request.
pub fn check_remote_user_role(role: ActorRole) -> (r: Result<(), u16>)
    ensures
        r is Ok <==> remote_creatable(role),
        r matches Err(s) ==> s == BAD_REQUEST,
{
    match role {
        ActorRole::Architect | ActorRole::Operator => Ok(()),
        _ => Err(BAD_REQUEST),
    }
}

/// How many sessions or events a listing shows: 50 unless asked, and never
/// fewer than 1 or more than 200.
pub fn listing_limit(limit: Option<u32>) -> (r: u32)
    ensures
        r == match limit {
            None => 50,
            Some(l) => if l < 1 {
                1
            } else if l > 200 {
                200
            } else {
                l
            },
        },
{
    match limit {
        None => 50,
        Some(l) => if l < 1 {
            1
        } else if l > 200 {
            200
        } else {
            l
        },
    }
}

// ── Tokens ──
/// The lower-case hexadecimal digit for `d < 16`.
pub open spec fn hex_digit(d: nat) -> char {
    if d < 10 {
        (('0' as u32) + d) as char
    } else {
        (('a' as u32) + d - 10) as char
    }
}

/// Each byte of `bytes` as two lower-case hexadecimal digits.
pub open spec fn hex_text(bytes: Seq<u8>) -> Seq<char>
    decreases bytes.len(),
{
    if bytes.len() == 0 {
        Seq::empty()
    } else {
        hex_text(bytes.drop_last()) + seq![
            hex_digit((bytes.last() / 16) as nat),
            hex_digit((bytes.last() % 16) as nat),
        ]
    }
}

proof fn lemma_hex_text_len(bytes: Seq<u8>)
    ensures
        hex_text(bytes).len() == 2 * bytes.len(),
    decreases bytes.len(),
{
    if bytes.len() > 0 {
        lemma_hex_text_len(bytes.drop_last());
    }
}

/// Thirty-two bytes from the operating system's random source
/// (`getrandom::fill`). It panics only if that source fails, which no
/// argument can cause; nothing is claimed of the bytes' values.
#[verifier::external_body]
fn random_token_bytes() -> (r: Vec<u8>)
    ensures
        r@.len() == 32,
{
    let mut bytes = vec![0u8; 32];
    getrandom::fill(&mut bytes).expect("Failed to generate random bytes");
    bytes
}

/// The hexadecimal digit for `d < 16`.
fn hex_char(d: u8) -> (r: char)
    requires
        d < 16,
    ensures
        r == hex_digit(d as nat),
{
    if d < 10 {
        (d + 48) as char
    } else {
        (d + 87) as char
    }
}

/// A fresh random token: `vida_` followed by 32 random bytes in lower-case
/// hexadecimal, 69 characters in all.
pub fn generate_token() -> (r: String)
    ensures
        exists|bytes: Seq<u8>| bytes.len() == 32 && r@ == "vida_"@ + hex_text(bytes),
        r@.len() == 69,
{
    let bytes = random_token_bytes();
    let mut token = owned("vida_");
    let ghost start = token@;
    let mut i: usize = 0;
    while i < bytes.len()
        invariant
            i <= bytes@.len(),
            token@ == start + hex_text(bytes@.take(i as int)),
        decreases bytes@.len() - i,
    {
        let b = bytes[i];
        push_char(&mut token, hex_char(b / 16));
        push_char(&mut token, hex_char(b % 16));
        assert(bytes@.take(i + 1).drop_last() =~= bytes@.take(i as int));
        assert(token@ =~= start + hex_text(bytes@.take(i + 1)));
        i = i + 1;
    }
    assert(bytes@.take(bytes@.len() as int) =~= bytes@);
    proof {
        reveal_strlit("vida_");
        lemma_hex_text_len(bytes@);
    }
    token
}

// ── Slowing down failed remote sign-ins ──
/// The failures counted for a user name, and until when it is blocked.
#[derive(Debug, Clone, Copy, PartialEq, Eq, Structural)]
pub struct LoginRateLimitState {
    pub window_started_at: u64,
    pub attempts: u32,
    pub blocked_until: Option<u64>,
}

/// How long, in seconds, failed remote sign-ins are counted together.
pub const REMOTE_LOGIN_WINDOW_SECS: u64 = 300;

/// How many failed remote sign-ins block a user name.
pub const REMOTE_LOGIN_MAX_ATTEMPTS: u32 = 5;

/// How long, in seconds, a blocked user name stays blocked.
pub const REMOTE_LOGIN_BLOCK_SECS: u64 = 900;

/// The key under which a user name's failures are counted: trimmed and in
/// ASCII lower case.
pub open spec fn login_key(username: Seq<char>) -> Seq<char> {
    lower_seq(trim_seq(username))
}

/// The state after a failed sign-in at time `now`. A window that has run out
/// starts afresh; a name still blocked stays as it is; an expired block is
/// lifted and counting starts afresh; the failure that reaches the limit
/// blocks the name for the block time.
pub open spec fn failure_state(entry: Option<LoginRateLimitState>, now: u64) -> LoginRateLimitState {
    let e0 = match entry {
        Some(e) => e,
        None => LoginRateLimitState { window_started_at: now, attempts: 0, blocked_until: None },
    };
    let e1 = if now > e0.window_started_at && now - e0.window_started_at > REMOTE_LOGIN_WINDOW_SECS {
        LoginRateLimitState { window_started_at: now, attempts: 0, blocked_until: None }
    } else {
        e0
    };
    if e1.blocked_until matches Some(b) && b > now {
        e1
    } else {
        let e2 = if e1.blocked_until is Some {
            LoginRateLimitState { window_started_at: now, attempts: 0, blocked_until: None }
        } else {
            e1
        };
        let a = (e2.attempts + 1) as u32;
        LoginRateLimitState {
            window_started_at: e2.window_started_at,
            attempts: a,
            blocked_until: if a >= REMOTE_LOGIN_MAX_ATTEMPTS {
                Some((now + REMOTE_LOGIN_BLOCK_SECS) as u64)
            } else {
                e2.blocked_until
            },
        }
    }
}

/// The name is blocked at time `now`.
pub open spec fn blocked_at(entry: Option<LoginRateLimitState>, now: u64) -> bool {
    entry matches Some(e) && e.blocked_until matches Some(b) && b > now
}

/// Failed remote sign-ins by user name.
pub struct RemoteLoginLimits {
    limits: KeyedList<LoginRateLimitState>,
}

/// The key under which a user name's failures are counted.
fn key_of(username: &str) -> (r: String)
    ensures
        r@ == login_key(username@),
{
    let k = lower_chars(&trim_chars(&chars_of(username)));
    string_of(&k)
}

impl RemoteLoginLimits {
    /// The state kept per key.
    pub closed spec fn states(&self) -> Map<Seq<char>, LoginRateLimitState> {
        self.limits.map()
    }

    pub fn new() -> (r: RemoteLoginLimits)
        ensures
            r.states() == Map::<Seq<char>, LoginRateLimitState>::empty(),
    {
        RemoteLoginLimits { limits: KeyedList::new() }
    }

    /// Whether `username` may try to sign in at time `now`: refused while blocked.
    pub fn check(&self, username: &str, now: u64) -> (r: Result<(), u16>)
        ensures
            r is Ok <==> !blocked_at(self.states().get(login_key(username@)), now),
            r matches Err(s) ==> s == TOO_MANY_REQUESTS,
    {
        let key = key_of(username);
        match self.limits.get(key.as_str()) {
            None => Ok(()),
            Some(e) => match e.blocked_until {
                Some(b) => if b > now {
                    Err(TOO_MANY_REQUESTS)
                } else {
                    Ok(())
                },
                None => Ok(()),
            },
        }
    }

    /// Counts a failed sign-in of `username` at time `now`.
    pub fn record_failure(&mut self, username: &str, now: u64)
        requires
            now <= u64::MAX - REMOTE_LOGIN_BLOCK_SECS,
            old(self).states().get(login_key(username@)) matches Some(e) ==> e.attempts < u32::MAX,
        ensures
            final(self).states() == old(self).states().insert(
                login_key(username@),
                failure_state(old(self).states().get(login_key(username@)), now),
            ),
    {
        let key = key_of(username);
        let e0 = match self.limits.get(key.as_str()) {
            Some(e) => *e,
            None => LoginRateLimitState { window_started_at: now, attempts: 0, blocked_until: None },
        };
        let e1 = if now > e0.window_started_at && now - e0.window_started_at
            > REMOTE_LOGIN_WINDOW_SECS {
            LoginRateLimitState { window_started_at: now, attempts: 0, blocked_until: None }
        } else {
            e0
        };
        let still_blocked = match e1.blocked_until {
            Some(b) => b > now,
            None => false,
        };
        let next = if still_blocked {
            e1
        } else {
            let e2 = if e1.blocked_until.is_some() {
                LoginRateLimitState { window_started_at: now, attempts: 0, blocked_until: None }
            } else {
                e1
            };
            let a = e2.attempts + 1;
            LoginRateLimitState {
                window_started_at: e2.window_started_at,
                attempts: a,
                blocked_until: if a >= REMOTE_LOGIN_MAX_ATTEMPTS {
                    Some(now + REMOTE_LOGIN_BLOCK_SECS)
                } else {
                    e2.blocked_until
                },
            }
        };
        self.limits.insert(key.as_str(), next);
    }

    /// Forgets the failures of a user name that signed in.
    pub fn clear(&mut self, username: &str)
        ensures
            final(self).states() == old(self).states().remove(login_key(username@)),
    {
        let key = key_of(username);
        self.limits.remove(key.as_str());
    }

    /// How many user names are blocked at time `now`.
    pub fn rate_limited_count(&self, now: u64) -> (r: usize)
        ensures
            r == blocked_count(self.states(), self.keys(), now),
    {
        let n = self.limits.len();
        let mut count: usize = 0;
        let mut i: usize = 0;
        while i < n
            invariant
                i <= n,
                n == self.limits.pairs().len(),
                count <= i,
                count == blocked_prefix(self.limits.pairs(), now, i as int),
            decreases n - i,
        {
            let (_, e) = self.limits.at(i);
            let blocked = match e.blocked_until {
                Some(b) => b > now,
                None => false,
            };
            if blocked {
                count = count + 1;
            }
            i = i + 1;
        }
        proof {
            lemma_blocked_prefix(self.limits.pairs(), now, n as int);
        }
        count
    }

    /// The keys kept, each once.
    pub closed spec fn keys(&self) -> Seq<Seq<char>> {
        Seq::new(self.limits.pairs().len(), |i: int| self.limits.pairs()[i].0@)
    }
}

/// How many of the first `n` states are blocked at `now`.
spec fn blocked_prefix(pairs: Seq<(String, LoginRateLimitState)>, now: u64, n: int) -> nat
    decreases n,
{
    if n <= 0 || n > pairs.len() {
        0
    } else {
        blocked_prefix(pairs, now, n - 1) + if blocked_at(Some(pairs[n - 1].1), now) {
            1nat
        } else {
            0nat
        }
    }
}

/// How many of the keys `keys` name a state of `states` blocked at `now`.
pub open spec fn blocked_count(
    states: Map<Seq<char>, LoginRateLimitState>,
    keys: Seq<Seq<char>>,
    now: u64,
) -> nat
    decreases keys.len(),
{
    if keys.len() == 0 {
        0
    } else {
        blocked_count(states, keys.drop_last(), now) + if blocked_at(
            states.get(keys.last()),
            now,
        ) {
            1nat
        } else {
            0nat
        }
    }
}

proof fn lemma_blocked_prefix(pairs: Seq<(String, LoginRateLimitState)>, now: u64, n: int)
    requires
        0 <= n <= pairs.len(),
        distinct_keys(pairs),
    ensures
        blocked_prefix(pairs, now, n) == blocked_count(
            pairs_map(pairs),
            Seq::new(n as nat, |i: int| pairs[i].0@),
            now,
        ),
    decreases n,
{
    if n > 0 {
        lemma_blocked_prefix(pairs, now, n - 1);
        let ks = Seq::new(n as nat, |i: int| pairs[i].0@);
        assert(ks.drop_last() =~= Seq::new((n - 1) as nat, |i: int| pairs[i].0@));
        crate::keyed::lemma_pairs_lookup(pairs, n - 1);
    }
}

/// Five failed sign-ins at one moment block the name at that moment.
pub proof fn law_five_failures_block(now: u64)
    requires
        now <= u64::MAX - REMOTE_LOGIN_BLOCK_SECS,
    ensures
        ({
            let s1 = failure_state(None, now);
            let s2 = failure_state(Some(s1), now);
            let s3 = failure_state(Some(s2), now);
            let s4 = failure_state(Some(s3), now);
            let s5 = failure_state(Some(s4), now);
            !blocked_at(Some(s4), now) && blocked_at(Some(s5), now)
        }),
{
}

// ── Remote sessions ──
/// A signed-in remote session: who acts, and until when.
#[derive(Debug)]
pub struct RemoteSessionState {
    pub actor: AuthSession,
    pub expires_at: u64,
}

/// A session has run out at time `now`.
pub open spec fn expired(s: RemoteSessionState, now: u64) -> bool {
    s.expires_at <= now
}

/// The sessions of a map that have run out at `now`.
pub open spec fn expired_keys(m: Map<Seq<char>, RemoteSessionState>, now: u64) -> Set<Seq<char>> {
    Set::new(|k: Seq<char>| m.dom().contains(k) && expired(m[k], now))
}

/// A session issued at `issued` is found again, with its actor, at every
/// time before it runs out; clean-ups keep it until then, and drop it from
/// then on.
pub proof fn law_session_lives_until_expiry(
    m: Map<Seq<char>, RemoteSessionState>,
    token: Seq<char>,
    issued: u64,
    t: u64,
)
    requires
        m.dom().contains(token),
        m[token].expires_at == issued + REMOTE_SESSION_TTL_SECS,
    ensures
        t < issued + REMOTE_SESSION_TTL_SECS ==> m.remove_keys(expired_keys(m, t)).dom().contains(
            token,
        ) && m.remove_keys(expired_keys(m, t))[token] == m[token],
        t >= issued + REMOTE_SESSION_TTL_SECS ==> !m.remove_keys(
            expired_keys(m, t),
        ).dom().contains(token),
{
    assert(expired_keys(m, t).contains(token) <==> t >= issued + REMOTE_SESSION_TTL_SECS);
}

/// The signed-in remote sessions, by session token.
pub struct RemoteSessions {
    sessions: KeyedList<RemoteSessionState>,
}

impl RemoteSessions {
    /// The sessions kept, by token.
    pub closed spec fn sessions(&self) -> Map<Seq<char>, RemoteSessionState> {
        self.sessions.map()
    }

    pub fn new() -> (r: RemoteSessions)
        ensures
            r.sessions() == Map::<Seq<char>, RemoteSessionState>::empty(),
    {
        RemoteSessions { sessions: KeyedList::new() }
    }

    /// Drops the sessions that have run out at time `now`.
    pub fn cleanup(&mut self, now: u64)
        ensures
            final(self).sessions() == old(self).sessions().remove_keys(
                expired_keys(old(self).sessions(), now),
            ),
    {
        let n = self.sessions.len();
        let ghost old_pairs = self.sessions.pairs();
        let ghost old_map = self.sessions.map();
        let ghost mut gone: Set<Seq<char>> = Set::empty();
        let mut i: usize = n;
        while i > 0
            invariant
                i <= n,
                n == old_pairs.len(),
                distinct_keys(old_pairs),
                old_map == pairs_map(old_pairs),
                self.sessions.pairs().len() >= i,
                self.sessions.pairs().take(i as int) == old_pairs.take(i as int),
                self.sessions.map() == old_map.remove_keys(gone),
                forall|k: Seq<char>|
                    gone.contains(k) <==> exists|j: int|
                        i <= j < n && old_pairs[j].0@ == k && expired(old_pairs[j].1, now),
            decreases i,
        {
            let j = i - 1;
            assert(self.sessions.pairs()[j as int] == old_pairs.take(i as int)[j as int]);
            let (_, state) = self.sessions.at(j);
            if state.expires_at <= now {
                let ghost k = old_pairs[j as int].0@;
                self.sessions.remove_at(j);
                proof {
                    assert(self.sessions.map() =~= old_map.remove_keys(gone.insert(k)));
                    gone = gone.insert(k);
                    assert(self.sessions.pairs().take(j as int) =~= old_pairs.take(j as int));
                }
            } else {
                proof {
                    assert(self.sessions.pairs().take(j as int) =~= old_pairs.take(j as int));
                    assert forall|k: Seq<char>| gone.contains(k) <==> exists|m: int|
                        j <= m < n && old_pairs[m].0@ == k && expired(old_pairs[m].1, now) by {
                        if exists|m: int| j <= m < n && old_pairs[m].0@ == k && expired(old_pairs[m].1, now) {
                            let m = choose|m: int| j <= m < n && old_pairs[m].0@ == k && expired(
                                old_pairs[m].1,
                                now,
                            );
                            assert(m != j);
                        }
                    }
                }
            }
            i = j;
        }
        proof {
            assert(gone =~= expired_keys(old_map, now)) by {
                assert forall|k: Seq<char>| gone.contains(k) == expired_keys(old_map, now).contains(k) by {
                    if gone.contains(k) {
                        let m = choose|m: int| 0 <= m < n && old_pairs[m].0@ == k && expired(old_pairs[m].1, now);
                        crate::keyed::lemma_pairs_lookup(old_pairs, m);
                    }
                    if expired_keys(old_map, now).contains(k) {
                        let m = choose|m: int| 0 <= m < old_pairs.len() && old_pairs[m].0@ == k;
                        crate::keyed::lemma_pairs_lookup(old_pairs, m);
                        assert(0 <= m < n && old_pairs[m].0@ == k && expired(old_pairs[m].1, now));
                    }
                }
            }
        }
    }

    /// Opens a session for `actor` until `now` plus the session lifetime,
    /// after dropping the sessions that have run out; gives its fresh token.
    pub fn issue(&mut self, actor: AuthSession, now: u64) -> (r: RemoteAuthResponse)
        requires
            now <= u64::MAX - REMOTE_SESSION_TTL_SECS,
        ensures
            r.session_token@.len() == 69,
            r.actor.user_id@ == actor.user_id@ && r.actor.username@ == actor.username@
                && r.actor.role == actor.role,
            final(self).sessions().dom().contains(r.session_token@),
            final(self).sessions()[r.session_token@].expires_at == now + REMOTE_SESSION_TTL_SECS,
            final(self).sessions()[r.session_token@].actor.role == actor.role,
            final(self).sessions()[r.session_token@].actor.user_id@ == actor.user_id@,
            final(self).sessions()[r.session_token@].actor.username@ == actor.username@,
            forall|k: Seq<char>|
                k != r.session_token@ ==> (final(self).sessions().dom().contains(k) <==> (old(
                    self,
                ).sessions().dom().contains(k) && !expired(old(self).sessions()[k], now))),
    {
        self.cleanup(now);
        let token = generate_token();
        let copy = actor.duplicate();
        self.sessions.insert(
            token.as_str(),
            RemoteSessionState { actor: copy, expires_at: now + REMOTE_SESSION_TTL_SECS },
        );
        RemoteAuthResponse { session_token: token, actor }
    }

    /// The actor of a live session, after dropping the sessions that have run out.
    pub fn lookup(&mut self, token: &str, now: u64) -> (r: Option<AuthSession>)
        ensures
            final(self).sessions() == old(self).sessions().remove_keys(
                expired_keys(old(self).sessions(), now),
            ),
            match r {
                Some(a) => final(self).sessions().dom().contains(token@) && a.role
                    == final(self).sessions()[token@].actor.role
                    && a.user_id@ == final(self).sessions()[token@].actor.user_id@
                    && a.username@ == final(self).sessions()[token@].actor.username@,
                None => !final(self).sessions().dom().contains(token@),
            },
    {
        self.cleanup(now);
        match self.sessions.get(token) {
            Some(s) => Some(s.actor.duplicate()),
            None => None,
        }
    }

    /// Ends the session of `token`, giving it back if there was one.
    pub fn remove(&mut self, token: &str) -> (r: Option<AuthSession>)
        ensures
            final(self).sessions() == old(self).sessions().remove(token@),
            r is Some <==> old(self).sessions().dom().contains(token@),
            r matches Some(a) ==> a.role == old(self).sessions()[token@].actor.role
                && a.user_id@ == old(self).sessions()[token@].actor.user_id@
                && a.username@ == old(self).sessions()[token@].actor.username@,
    {
        let found = match self.sessions.get(token) {
            Some(s) => Some(s.actor.duplicate()),
            None => None,
        };
        self.sessions.remove(token);
        found
    }

    /// How many sessions are live at `now`, after dropping those that have run out.
    pub fn active_count(&mut self, now: u64) -> (r: usize)
        ensures
            final(self).sessions() == old(self).sessions().remove_keys(
                expired_keys(old(self).sessions(), now),
            ),
            r == final(self).sessions().dom().len(),
    {
        self.cleanup(now);
        let n = self.sessions.len();
        proof {
            lemma_distinct_keys_count(self.sessions.pairs());
        }
        n
    }
}

/// A list with distinct names holds as many names as pairs.
proof fn lemma_distinct_keys_count<V>(s: Seq<(String, V)>)
    requires
        distinct_keys(s),
    ensures
        pairs_map(s).dom().len() == s.len(),
        pairs_map(s).dom().finite(),
    decreases s.len(),
{
    if s.len() == 0 {
        assert(pairs_map(s).dom() =~= Set::<Seq<char>>::empty());
    } else {
        let p = s.drop_last();
        assert(distinct_keys(p));
        lemma_distinct_keys_count(p);
        let k = s.last().0@;
        assert(pairs_map(s).dom() =~= pairs_map(p).dom().insert(k)) by {
            assert forall|x: Seq<char>| pairs_map(s).dom().contains(x) == pairs_map(p).dom().insert(
                k,
            ).contains(x) by {
                if pairs_map(s).dom().contains(x) {
                    let j = choose|j: int| 0 <= j < s.len() && s[j].0@ == x;
                    if j < p.len() {
                        assert(p[j].0@ == x);
                    }
                }
                if pairs_map(p).dom().contains(x) {
                    let j = choose|j: int| 0 <= j < p.len() && p[j].0@ == x;
                    assert(s[j].0@ == x);
                }
                if x == k {
                    assert(s[s.len() - 1].0@ == x);
                }
            }
        }
        assert(!pairs_map(p).dom().contains(k)) by {
            if pairs_map(p).dom().contains(k) {
                let j = choose|j: int| 0 <= j < p.len() && p[j].0@ == k;
                assert(s[j].0@ != s[s.len() - 1].0@);
            }
        }
    }
}

// ── The server ──
/// Where the remote server listens, and whether it runs.
pub struct RemoteServer {
    port: u16,
    bind_addr: String,
    running: bool,
}

/// The `address:port` that a server binds to.
pub open spec fn bind_target(bind_addr: Seq<char>, port: u16) -> Seq<char> {
    bind_addr + ":"@ + decimal(port as nat)
}

impl RemoteServer {
    /// The port.
    pub closed spec fn port_spec(&self) -> u16 {
        self.port
    }

    /// The address.
    pub closed spec fn address(&self) -> Seq<char> {
        self.bind_addr@
    }

    /// Whether the server runs.
    pub closed spec fn running(&self) -> bool {
        self.running
    }

    /// A stopped server on `port`, on every interface.
    pub fn new(port: u16) -> (r: RemoteServer)
        ensures
            r.port_spec() == port,
            r.address() == "0.0.0.0"@,
            !r.running(),
    {
        RemoteServer { port, bind_addr: owned("0.0.0.0"), running: false }
    }

    /// A stopped server on `port` at `bind_addr`.
    pub fn with_bind_addr(port: u16, bind_addr: String) -> (r: RemoteServer)
        ensures
            r.port_spec() == port,
            r.address() == bind_addr@,
            !r.running(),
    {
        RemoteServer { port, bind_addr, running: false }
    }

    /// The port.
    pub fn port(&self) -> (r: u16)
        ensures
            r == self.port_spec(),
    {
        self.port
    }

    /// Whether the server runs.
    pub fn is_running(&self) -> (r: bool)
        ensures
            r == self.running(),
    {
        self.running
    }

    /// Whether the server runs, and its port, as shown to the user.
    pub fn status(&self) -> (r: RemoteStatus)
        ensures
            r.enabled == self.running(),
            r.port == self.port_spec(),
    {
        RemoteStatus { enabled: self.running, port: self.port }
    }

    /// What to bind to before the server starts; a running server is not
    /// started twice.
    pub fn bind_target(&self) -> (r: Result<String, String>)
        ensures
            self.running() ==> (r matches Err(m) && m@ == "Remote server is already running"@),
            !self.running() ==> (r matches Ok(t) && t@ == bind_target(self.address(), self.port_spec())),
    {
        if self.running {
            return Err(owned("Remote server is already running"));
        }
        let mut t = self.bind_addr.clone();
        append_str(&mut t, ":");
        push_decimal(&mut t, self.port as u64);
        Ok(t)
    }

    /// Records that the server started.
    pub fn started(&mut self)
        ensures
            final(self).running(),
            final(self).port_spec() == old(self).port_spec(),
            final(self).address() == old(self).address(),
    {
        self.running = true;
    }

    /// Records that the server stops; says whether it ran and has to be
    /// told to shut down.
    pub fn stop(&mut self) -> (signal: bool)
        ensures
            signal == old(self).running(),
            !final(self).running(),
            final(self).port_spec() == old(self).port_spec(),
            final(self).address() == old(self).address(),
    {
        let was = self.running;
        self.running = false;
        was
    }
}

/// The complaint about an address the server could not bind to.
pub fn bind_error(target: &str, error: &str) -> (r: String)
    ensures
        r@ == "Failed to bind to "@ + target@ + ": "@ + error@,
{
    let mut m = owned("Failed to bind to ");
    append_str(&mut m, target);
    append_str(&mut m, ": ");
    append_str(&mut m, error);
    m
}

} // verus!
