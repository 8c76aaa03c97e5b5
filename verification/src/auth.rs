//! Signed-in users and how roles are written in storage.
use vstd::prelude::*;
use crate::access::ActorRole;
use crate::models::UserRow;
use crate::text::{lower_seq, trim_seq, chars_of, lower_chars, trim_chars, chars_eq, string_of, owned, append_str, push_chars};

verus! {

/// The user acting in a session.
#[derive(Debug, Clone)]
pub struct AuthSession {
    pub user_id: String,
    pub username: String,
    pub role: ActorRole,
}

impl AuthSession {
    /// A copy of the session.
    pub fn duplicate(&self) -> (r: AuthSession)
        ensures
            r.user_id@ == self.user_id@,
            r.username@ == self.username@,
            r.role == self.role,
    {
        AuthSession {
            user_id: self.user_id.clone(),
            username: self.username.clone(),
            role: self.role,
        }
    }
}

/// Whether any user exists, and who is signed in.
#[derive(Debug, Clone)]
pub struct AuthStatus {
    pub has_users: bool,
    pub actor: Option<AuthSession>,
}

/// A user account as shown to administrators.
#[derive(Debug, Clone)]
pub struct AuthUser {
    pub id: String,
    pub username: String,
    pub role: ActorRole,
    pub active: bool,
    pub created_at: String,
}

/// How a role is written in storage.
pub open spec fn role_text(role: ActorRole) -> Seq<char> {
    match role {
        ActorRole::SuperAdmin => "super_admin"@,
        ActorRole::Architect => "architect"@,
        ActorRole::Operator => "operator"@,
        ActorRole::Agent => "agent"@,
    }
}

/// The role that a stored text names, read without surrounding white space
/// and with ASCII case ignored.
pub open spec fn role_of_text(text: Seq<char>) -> Option<ActorRole> {
    let t = lower_seq(trim_seq(text));
    if t == "super_admin"@ {
        Some(ActorRole::SuperAdmin)
    } else if t == "architect"@ {
        Some(ActorRole::Architect)
    } else if t == "operator"@ {
        Some(ActorRole::Operator)
    } else if t == "agent"@ {
        Some(ActorRole::Agent)
    } else {
        None
    }
}

/// The message for a text that names no role.
pub open spec fn unknown_role_message(text: Seq<char>) -> Seq<char> {
    "Unknown actor role '"@ + lower_seq(trim_seq(text)) + "'"@
}

/// Reads a stored role.
pub fn parse_actor_role(role: &str) -> (r: Result<ActorRole, String>)
    ensures
        match r {
            Ok(a) => role_of_text(role@) == Some(a),
            Err(m) => role_of_text(role@) is None && m@ == unknown_role_message(role@),
        },
{
    let t = lower_chars(&trim_chars(&chars_of(role)));
    let super_admin = chars_of("super_admin");
    let architect = chars_of("architect");
    let operator = chars_of("operator");
    let agent = chars_of("agent");
    if chars_eq(&t, &super_admin) {
        Ok(ActorRole::SuperAdmin)
    } else if chars_eq(&t, &architect) {
        Ok(ActorRole::Architect)
    } else if chars_eq(&t, &operator) {
        Ok(ActorRole::Operator)
    } else if chars_eq(&t, &agent) {
        Ok(ActorRole::Agent)
    } else {
        let mut m = owned("Unknown actor role '");
        push_chars(&mut m, &t);
        append_str(&mut m, "'");
        Err(m)
    }
}

/// How a role is written in storage.
pub fn actor_role_storage(role: ActorRole) -> (r: &'static str)
    ensures
        r@ == role_text(role),
{
    match role {
        ActorRole::SuperAdmin => "super_admin",
        ActorRole::Architect => "architect",
        ActorRole::Operator => "operator",
        ActorRole::Agent => "agent",
    }
}

/// A role written for storage reads back as the same role.
pub proof fn law_role_storage_round_trip(role: ActorRole)
    ensures
        role_of_text(role_text(role)) == Some(role),
{
    reveal_strlit("super_admin");
    reveal_strlit("architect");
    reveal_strlit("operator");
    reveal_strlit("agent");
    let t = role_text(role);
    assert(leading_space_free(t));
    assert(trim_seq(t) =~= t) by {
        lemma_trim_of_unspaced(t);
    }
    assert(lower_seq(t) =~= t);
}

spec fn leading_space_free(t: Seq<char>) -> bool {
    t.len() > 0 && !crate::text::is_space(t[0]) && !crate::text::is_space(t.last())
}

proof fn lemma_trim_of_unspaced(t: Seq<char>)
    requires
        leading_space_free(t),
    ensures
        trim_seq(t) =~= t,
{
    assert(crate::text::leading_space(t) == 0);
    assert(t.skip(0) =~= t);
    assert(crate::text::trailing_space(t) == 0);
}

impl AuthSession {
    /// The session of a stored user; fails when the stored role names no role.
    pub fn try_from(value: &UserRow) -> (r: Result<AuthSession, String>)
        ensures
            match r {
                Ok(s) => role_of_text(value.role@) == Some(s.role) && s.user_id@ == value.id@
                    && s.username@ == value.username@,
                Err(m) => role_of_text(value.role@) is None && m@ == unknown_role_message(
                    value.role@,
                ),
            },
    {
        let role = parse_actor_role(value.role.as_str())?;
        Ok(AuthSession { user_id: value.id.clone(), username: value.username.clone(), role })
    }
}

impl AuthUser {
    /// The account view of a stored user; fails when the stored role names no role.
    pub fn try_from(value: UserRow) -> (r: Result<AuthUser, String>)
        ensures
            match r {
                Ok(u) => role_of_text(value.role@) == Some(u.role) && u.id@ == value.id@
                    && u.username@ == value.username@ && u.active == (value.active != 0)
                    && u.created_at@ == value.created_at@,
                Err(m) => role_of_text(value.role@) is None && m@ == unknown_role_message(
                    value.role@,
                ),
            },
    {
        let role = parse_actor_role(value.role.as_str())?;
        Ok(
            AuthUser {
                id: value.id,
                username: value.username,
                role,
                active: value.active != 0,
                created_at: value.created_at,
            },
        )
    }
}

} // verus!
