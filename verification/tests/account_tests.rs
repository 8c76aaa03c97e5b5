use vida::accounts::plan_bootstrap_admin;
use vida::accounts::plan_password_change;
use vida::access::ActorRole;
use vida::accounts::{
    authenticate, check_bootstrap, check_current_password, hash_auth_password, plan_new_user,
    validate_password, validate_username, LoginLimiter,
};
use vida::auth::{actor_role_storage, parse_actor_role, AuthSession, AuthUser};
use vida::error::VidaError;
use vida::models::UserRow;
use vida::security::PinManager;

fn row(role: &str) -> UserRow {
    UserRow {
        id: "id1".to_string(),
        username: "alice".to_string(),
        password_hash: "h".to_string(),
        role: role.to_string(),
        active: 1,
        created_at: "now".to_string(),
    }
}

#[test]
fn role_names_round_trip() {
    for role in [ActorRole::SuperAdmin, ActorRole::Architect, ActorRole::Operator, ActorRole::Agent] {
        assert_eq!(parse_actor_role(actor_role_storage(role)).unwrap(), role);
    }
    assert_eq!(parse_actor_role("  Super_Admin ").unwrap(), ActorRole::SuperAdmin);
    assert_eq!(parse_actor_role(" Boss ").unwrap_err(), "Unknown actor role 'boss'");
}

#[test]
fn sessions_and_users_from_rows() {
    let s = AuthSession::try_from(&row("architect")).unwrap();
    assert_eq!(s.role, ActorRole::Architect);
    assert_eq!(s.user_id, "id1");
    let mut r = row("agent");
    r.active = 0;
    let u = AuthUser::try_from(r).unwrap();
    assert!(!u.active);
    assert_eq!(u.created_at, "now");
    assert!(AuthUser::try_from(row("nobody")).is_err());
}

fn auth_message(r: Result<(), VidaError>) -> String {
    match r {
        Err(VidaError::Authentication(m)) => m,
        other => panic!("unexpected {:?}", other),
    }
}

#[test]
fn usernames() {
    assert!(validate_username("  bob.smith-1_ ").is_ok());
    assert_eq!(auth_message(validate_username(" ab ")), "Username must be at least 3 characters");
    assert_eq!(
        auth_message(validate_username("bad name")),
        "Username may contain only letters, numbers, '.', '_' and '-'"
    );
    // Two characters of two bytes each are four bytes, enough for the length rule.
    assert_eq!(
        auth_message(validate_username("éé")),
        "Username may contain only letters, numbers, '.', '_' and '-'"
    );
}

#[test]
fn passwords() {
    assert!(validate_password("12345678").is_ok());
    assert_eq!(auth_message(validate_password("1234567")), "Password must be at least 8 characters");
    assert!(validate_password("ééééé").is_ok());
}

#[test]
fn hashed_passwords_verify() {
    let h = hash_auth_password("correct horse").unwrap();
    assert!(PinManager::verify_password("correct horse", &h).unwrap());
}

#[test]
fn local_login_blocks_after_five_failures() {
    let mut limiter = LoginLimiter::new();
    for t in 0..5 {
        assert!(limiter.check("alice", 100 + t).is_ok());
        limiter.record_failure("alice", 100 + t);
    }
    match limiter.check("alice", 200) {
        Err(VidaError::Authentication(m)) => assert_eq!(m, "Too many login attempts. Try again later."),
        other => panic!("unexpected {:?}", other),
    }
    assert!(limiter.check("alice", 104 + 900).is_ok());
    assert!(limiter.check("alice", 200).is_ok());
}

#[test]
fn local_login_success_resets_failures() {
    let mut limiter = LoginLimiter::new();
    for t in 0..4 {
        limiter.record_failure("bob", t);
    }
    limiter.record_success("bob");
    limiter.record_failure("bob", 5);
    assert!(limiter.check("bob", 6).is_ok());
}

fn refusal_text(r: Result<AuthSession, VidaError>) -> String {
    match r {
        Err(VidaError::Authentication(m)) => m,
        _ => panic!("expected a refusal"),
    }
}

fn new_user() -> UserRow {
    plan_new_user("u1".to_string(), "  alice  ", "correct horse", ActorRole::Operator, false).unwrap()
}

#[test]
fn new_account_signs_in() {
    let user = new_user();
    assert_eq!(user.id, "u1");
    assert_eq!(user.username, "alice");
    assert_eq!(user.role, "operator");
    assert_eq!(user.active, 1);
    assert_ne!(user.password_hash, "correct horse");
    let session = authenticate(Some(&user), "correct horse").unwrap();
    assert_eq!(session.user_id, "u1");
    assert_eq!(session.username, "alice");
    assert_eq!(session.role, ActorRole::Operator);
    assert_eq!(refusal_text(authenticate(None, "whatever")), "Invalid username or password");
    let mut disabled = user.clone();
    disabled.active = 0;
    assert_eq!(refusal_text(authenticate(Some(&disabled), "correct horse")), "User account is disabled");
}

#[test]
fn wrong_password_is_refused() {
    let user = new_user();
    assert_eq!(refusal_text(authenticate(Some(&user), "wrong password")), "Invalid username or password");
}

#[test]
fn current_password_is_checked() {
    let user = new_user();
    assert!(check_current_password(Some(&user), "correct horse").is_ok());
    assert!(matches!(check_current_password(None, "x"), Err(VidaError::Authentication(m)) if m == "User not found"));
}

#[test]
fn wrong_current_password_is_refused() {
    let user = new_user();
    assert!(matches!(check_current_password(Some(&user), "nope nope"), Err(VidaError::Authentication(m)) if m == "Current password is invalid"));
}

#[test]
fn new_account_checks() {
    let short = plan_new_user("u".to_string(), "al", "long enough", ActorRole::Agent, false);
    assert!(matches!(short, Err(VidaError::Authentication(m)) if m == "Username must be at least 3 characters"));
    let weak = plan_new_user("u".to_string(), "alice", "short", ActorRole::Agent, false);
    assert!(matches!(weak, Err(VidaError::Authentication(m)) if m == "Password must be at least 8 characters"));
    let taken = plan_new_user("u".to_string(), "alice", "long enough", ActorRole::Agent, true);
    assert!(matches!(taken, Err(VidaError::Authentication(m)) if m == "User 'alice' already exists"));
    assert!(check_bootstrap(false).is_ok());
    assert!(matches!(check_bootstrap(true), Err(VidaError::Authentication(m)) if m == "Local admin bootstrap is only allowed when no users exist"));
}

#[test]
fn unreadable_stored_hash_is_refused() {
    let mut user = row("operator");
    user.active = 1;
    user.password_hash = "not a phc string".to_string();
    assert!(matches!(authenticate(Some(&user), "password1"), Err(VidaError::Authentication(_))));
}

#[test]
fn bootstrapped_admin_signs_in() {
    let admin = plan_bootstrap_admin(false, "u1".to_string(), " admin ", "longpassword").unwrap();
    assert_eq!(admin.username, "admin");
    assert_eq!(admin.role, "super_admin");
    let session = authenticate(Some(&admin), "longpassword").unwrap();
    assert_eq!(session.role, ActorRole::SuperAdmin);
    match plan_bootstrap_admin(true, "u2".to_string(), "admin", "longpassword") {
        Err(VidaError::Authentication(m)) => {
            assert_eq!(m, "Local admin bootstrap is only allowed when no users exist")
        }
        other => panic!("unexpected {:?}", other),
    }
}

#[test]
fn password_change_stores_a_new_hash() {
    let user = plan_new_user("u1".to_string(), "alice", "oldpassword", ActorRole::Operator, false).unwrap();
    let new_hash = plan_password_change(Some(&user), "oldpassword", "newpassword").unwrap();
    assert!(new_hash.starts_with("$argon2id$"));
    assert_ne!(new_hash, user.password_hash);
}

#[test]
fn password_change_refusals() {
    let mut user = row("operator");
    user.active = 1;
    user.password_hash = "not a phc string".to_string();
    assert!(matches!(plan_password_change(Some(&user), "x", "another1"), Err(VidaError::Authentication(_))));
    match plan_password_change(None, "x", "another1") {
        Err(VidaError::Authentication(m)) => assert_eq!(m, "User not found"),
        other => panic!("unexpected {:?}", other),
    }
}
