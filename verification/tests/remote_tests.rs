use vida::access::ActorRole;
use vida::auth::AuthSession;
use vida::remote::{
    authorize_endpoint, authorize_remote_role, check_remote_user_role, RemoteEndpoint,
    extract_service_token, extract_session_token, generate_token,
    listing_limit, parse_query_param, RemoteLoginLimits, RemoteSessions, FORBIDDEN,
    REMOTE_SESSION_TTL_SECS, TOO_MANY_REQUESTS,
};

fn actor(role: ActorRole) -> AuthSession {
    AuthSession { user_id: "u1".to_string(), username: "alice".to_string(), role }
}

#[test]
fn test_generate_token_format() {
    let token = generate_token();
    assert!(token.starts_with("vida_"));
    assert_eq!(token.len(), 69);
    assert!(token[5..].chars().all(|c| c.is_ascii_hexdigit() && !c.is_ascii_uppercase()));
}

#[test]
fn test_generate_token_uniqueness() {
    let t1 = generate_token();
    let t2 = generate_token();
    assert_ne!(t1, t2);
}

#[test]
fn test_extract_service_token_prefers_headers() {
    assert_eq!(
        extract_service_token(None, Some("via-header"), Some("service_token=via-query")).as_deref(),
        Some("via-header")
    );
}

#[test]
fn service_token_sources_in_order() {
    assert_eq!(
        extract_service_token(Some("Bearer abc"), Some("h"), Some("service_token=q")).as_deref(),
        Some("abc")
    );
    assert_eq!(
        extract_service_token(Some("Basic xyz"), None, Some("a=1&service_token=q")).as_deref(),
        Some("q")
    );
    assert_eq!(extract_service_token(None, None, None), None);
}

#[test]
fn session_token_sources_in_order() {
    assert_eq!(extract_session_token(Some("h"), Some("q"), None).as_deref(), Some("h"));
    assert_eq!(extract_session_token(None, Some("q"), Some("session_token=u")).as_deref(), Some("q"));
    assert_eq!(extract_session_token(None, None, Some("session_token=u")).as_deref(), Some("u"));
}

#[test]
fn query_parameters() {
    assert_eq!(parse_query_param(Some("a=1&b=2=3"), "b").as_deref(), Some("2=3"));
    assert_eq!(parse_query_param(Some("a=1&b"), "b"), None);
    assert_eq!(parse_query_param(Some("flag&a=1"), "a"), None);
    assert_eq!(parse_query_param(Some("a=1&"), "x"), None);
    assert_eq!(parse_query_param(Some("a="), "a").as_deref(), Some(""));
    assert_eq!(parse_query_param(None, "a"), None);
}

#[test]
fn remote_roles() {
    assert!(authorize_remote_role(&actor(ActorRole::SuperAdmin), &[ActorRole::SuperAdmin]).is_ok());
    assert_eq!(
        authorize_remote_role(&actor(ActorRole::Operator), &[ActorRole::SuperAdmin, ActorRole::Architect]),
        Err(FORBIDDEN)
    );
}

#[test]
fn listing_limits() {
    assert_eq!(listing_limit(None), 50);
    assert_eq!(listing_limit(Some(0)), 1);
    assert_eq!(listing_limit(Some(500)), 200);
    assert_eq!(listing_limit(Some(20)), 20);
}

#[test]
fn remote_login_rate_limit_blocks_after_five_failures() {
    let mut limits = RemoteLoginLimits::new();
    let now = 1000;
    for _ in 0..4 {
        limits.record_failure(" Alice ", now);
        assert!(limits.check("alice", now).is_ok());
    }
    limits.record_failure("ALICE", now);
    assert_eq!(limits.check("alice", now), Err(TOO_MANY_REQUESTS));
    assert_eq!(limits.rate_limited_count(now), 1);
    assert!(limits.check("alice", now + 901).is_ok());
    assert_eq!(limits.rate_limited_count(now + 901), 0);
    limits.clear("alice");
    assert!(limits.check("alice", now).is_ok());
}

#[test]
fn remote_failures_outside_window_start_over() {
    let mut limits = RemoteLoginLimits::new();
    for i in 0..4 {
        limits.record_failure("bob", 100 + i);
    }
    limits.record_failure("bob", 100 + 301);
    assert!(limits.check("bob", 401).is_ok());
}

#[test]
fn remote_sessions_expire() {
    let mut sessions = RemoteSessions::new();
    let issued = sessions.issue(actor(ActorRole::Operator), 10);
    assert_eq!(issued.session_token.len(), 69);
    assert_eq!(issued.actor.username, "alice");
    let found = sessions.lookup(&issued.session_token, 11).unwrap();
    assert_eq!(found.role, ActorRole::Operator);
    assert_eq!(sessions.active_count(11), 1);
    assert!(sessions.lookup(&issued.session_token, 10 + REMOTE_SESSION_TTL_SECS).is_none());
    assert_eq!(sessions.active_count(10 + REMOTE_SESSION_TTL_SECS), 0);
}

#[test]
fn remote_logout_removes_session() {
    let mut sessions = RemoteSessions::new();
    let issued = sessions.issue(actor(ActorRole::Agent), 0);
    assert!(sessions.remove(&issued.session_token).is_some());
    assert!(sessions.remove(&issued.session_token).is_none());
}

#[test]
fn remote_server_state() {
    let mut server = vida::remote::RemoteServer::new(3690);
    assert_eq!(server.port(), 3690);
    assert!(!server.is_running());
    assert_eq!(server.bind_target(), Ok("0.0.0.0:3690".to_string()));
    server.started();
    assert!(server.is_running());
    assert_eq!(server.bind_target(), Err("Remote server is already running".to_string()));
    assert!(server.stop());
    assert!(!server.stop());
    let local = vida::remote::RemoteServer::with_bind_addr(80, "127.0.0.1".to_string());
    assert_eq!(local.bind_target(), Ok("127.0.0.1:80".to_string()));
    assert_eq!(
        vida::remote::bind_error("127.0.0.1:80", "address in use"),
        "Failed to bind to 127.0.0.1:80: address in use"
    );
}

#[test]
fn remote_endpoint_roles() {
    let session = |role| AuthSession { user_id: "u".to_string(), username: "n".to_string(), role };
    let endpoints = [
        RemoteEndpoint::AdminHealth,
        RemoteEndpoint::AuditEvents,
        RemoteEndpoint::ListUsers,
        RemoteEndpoint::CreateUser,
        RemoteEndpoint::ListProviders,
        RemoteEndpoint::ChatStream,
        RemoteEndpoint::CreateTeam,
    ];
    for e in endpoints {
        assert_eq!(authorize_endpoint(&session(ActorRole::Agent), e), Err(403));
        assert_eq!(authorize_endpoint(&session(ActorRole::SuperAdmin), e), Ok(()));
    }
    assert_eq!(authorize_endpoint(&session(ActorRole::Operator), RemoteEndpoint::AdminHealth), Err(403));
    assert_eq!(authorize_endpoint(&session(ActorRole::Operator), RemoteEndpoint::ChatStream), Ok(()));
    assert_eq!(authorize_endpoint(&session(ActorRole::Operator), RemoteEndpoint::CreateTeam), Err(403));
    assert_eq!(authorize_endpoint(&session(ActorRole::Architect), RemoteEndpoint::CreateTeam), Ok(()));
    assert_eq!(check_remote_user_role(ActorRole::Operator), Ok(()));
    assert_eq!(check_remote_user_role(ActorRole::SuperAdmin), Err(400));
    assert_eq!(check_remote_user_role(ActorRole::Agent), Err(400));
}

#[test]
fn test_remote_server_new() {
    let server = vida::remote::RemoteServer::new(3690);
    assert_eq!(server.port(), 3690);
    assert!(!server.is_running());
}

#[test]
fn remote_server_status() {
    let mut server = vida::remote::RemoteServer::new(4000);
    let s = server.status();
    assert!(!s.enabled);
    assert_eq!(s.port, 4000);
    server.started();
    assert!(server.status().enabled);
}

#[test]
fn service_gate_decisions() {
    let gate = vida::remote::passes_service_gate;
    assert!(gate("/api/health", None, None, None, "secret"));
    assert!(gate("/api/sessions", Some("Bearer secret"), None, None, "secret"));
    assert!(gate("/api/sessions", None, Some("secret"), None, "secret"));
    assert!(gate("/api/sessions", None, None, Some("service_token=secret"), "secret"));
    assert!(!gate("/api/sessions", Some("Bearer wrong"), None, None, "secret"));
    assert!(!gate("/api/sessions", None, None, None, "secret"));
    assert!(!gate("/api/health/extra", None, None, None, "secret"));
}
