//! Local user accounts: what a valid user name and password are, how
//! passwords are hashed, and how repeated failed sign-ins are slowed down.
use vstd::prelude::*;
use crate::error::VidaError;
use crate::keyed::KeyedList;
use crate::security::{
    ARGON2_LANES, ARGON2_MAX_PASSWORD, ARGON2_MEMORY_KIB, ARGON2_PASSES, PinManager, phc_verify,
    argon2id_phc,
    security_error_text,
};
use crate::text::{append_str, chars_of, owned, string_of, trim_chars, trim_seq};
use crate::access::ActorRole;
use crate::auth::{AuthSession, actor_role_storage, role_of_text, role_text, unknown_role_message};
use crate::models::UserRow;

verus! {

/// How many bytes the UTF-8 encoding of `c` takes.
pub open spec fn char_utf8_len(c: char) -> nat {
    if (c as u32) < 0x80 {
        1
    } else if (c as u32) < 0x800 {
        2
    } else if (c as u32) < 0x10000 {
        3
    } else {
        4
    }
}

/// How many bytes the UTF-8 encoding of `s` takes.
pub open spec fn utf8_len(s: Seq<char>) -> nat
    decreases s.len(),
{
    if s.len() == 0 {
        0
    } else {
        utf8_len(s.drop_last()) + char_utf8_len(s.last())
    }
}

/// Whether the UTF-8 encoding of `s` is shorter than `bound` bytes.
fn utf8_shorter_than(s: &[char], bound: usize) -> (r: bool)
    requires
        0 < bound <= 1024,
    ensures
        r == (utf8_len(s@) < bound),
{
    let mut total: usize = 0;
    let mut i: usize = 0;
    while i < s.len()
        invariant
            i <= s@.len(),
            bound <= 1024,
            total == utf8_len(s@.take(i as int)),
            total < bound,
        decreases s@.len() - i,
    {
        let c = s[i];
        let n: usize = if (c as u32) < 0x80 {
            1
        } else if (c as u32) < 0x800 {
            2
        } else if (c as u32) < 0x10000 {
            3
        } else {
            4
        };
        assert(s@.take(i + 1).drop_last() =~= s@.take(i as int));
        total = total + n;
        if total >= bound {
            proof {
                lemma_utf8_len_prefix(s@, i + 1);
            }
            return false;
        }
        i = i + 1;
    }
    assert(s@.take(s@.len() as int) =~= s@);
    true
}

proof fn lemma_utf8_len_prefix(s: Seq<char>, n: int)
    requires
        0 <= n <= s.len(),
    ensures
        utf8_len(s.take(n)) <= utf8_len(s),
    decreases s.len() - n,
{
    if n < s.len() {
        lemma_utf8_len_prefix(s, n + 1);
        assert(s.take(n + 1).drop_last() =~= s.take(n));
    } else {
        assert(s.take(n) =~= s);
    }
}

/// A character allowed in a user name: an ASCII letter or digit, `.`, `_` or `-`.
pub open spec fn username_char(c: char) -> bool {
    ('a' <= c <= 'z') || ('A' <= c <= 'Z') || ('0' <= c <= '9') || c == '_' || c == '-' || c
        == '.'
}

/// Why a user name is refused, if it is: without surrounding white space it
/// must take at least 3 bytes and use only allowed characters.
pub open spec fn username_error(name: Seq<char>) -> Option<Seq<char>> {
    let t = trim_seq(name);
    if utf8_len(t) < 3 {
        Some("Username must be at least 3 characters"@)
    } else if exists|i: int| 0 <= i < t.len() && !username_char(t[i]) {
        Some("Username may contain only letters, numbers, '.', '_' and '-'"@)
    } else {
        None
    }
}

/// A user name is accepted exactly when, without surrounding white space, it
/// takes at least three bytes and every character is an ASCII letter (either
/// case), an ASCII digit, `.`, `_` or `-`; a short name is refused as short
/// before its characters are looked at.
pub proof fn law_username_rule(name: Seq<char>)
    ensures
        (username_error(name) is None) <==> (utf8_len(trim_seq(name)) >= 3 && forall|i: int|
            0 <= i < trim_seq(name).len() ==> {
                let c = #[trigger] trim_seq(name)[i];
                ('a' <= c && c <= 'z') || ('A' <= c && c <= 'Z') || ('0' <= c && c <= '9') || c
                    == '.' || c == '_' || c == '-'
            }),
        utf8_len(trim_seq(name)) < 3 ==> username_error(name) == Some(
            "Username must be at least 3 characters"@,
        ),
        utf8_len(trim_seq(name)) >= 3 && username_error(name) is Some ==> username_error(name)
            == Some("Username may contain only letters, numbers, '.', '_' and '-'"@),
{
    let t = trim_seq(name);
    if utf8_len(t) >= 3 && username_error(name) is Some {
        let i = choose|i: int| 0 <= i < t.len() && !username_char(t[i]);
        assert(!username_char(t[i]));
    }
}

/// A password is accepted exactly when it takes at least eight bytes.
pub proof fn law_password_rule(password: Seq<char>)
    ensures
        (password_error(password) is None) <==> utf8_len(password) >= 8,
        utf8_len(password) < 8 ==> password_error(password) == Some(
            "Password must be at least 8 characters"@,
        ),
{
}

/// Checks a new user name.
pub fn validate_username(username: &str) -> (r: Result<(), VidaError>)
    ensures
        match username_error(username@) {
            None => r is Ok,
            Some(m) => r matches Err(VidaError::Authentication(e)) && e@ == m,
        },
{
    let t = trim_chars(&chars_of(username));
    if utf8_shorter_than(&t, 3) {
        return Err(VidaError::Authentication(owned("Username must be at least 3 characters")));
    }
    let mut i: usize = 0;
    while i < t.len()
        invariant
            i <= t@.len(),
            t@ == trim_seq(username@),
            utf8_len(t@) >= 3,
            forall|k: int| 0 <= k < i ==> username_char(t@[k]),
        decreases t@.len() - i,
    {
        let c = t[i];
        let ok = ('a' <= c && c <= 'z') || ('A' <= c && c <= 'Z') || ('0' <= c && c <= '9') || c
            == '_' || c == '-' || c == '.';
        if !ok {
            assert(!username_char(t@[i as int]));
            return Err(
                VidaError::Authentication(
                    owned("Username may contain only letters, numbers, '.', '_' and '-'"),
                ),
            );
        }
        i = i + 1;
    }
    Ok(())
}

/// Why a password is refused, if it is: it must take at least 8 bytes.
pub open spec fn password_error(password: Seq<char>) -> Option<Seq<char>> {
    if utf8_len(password) < 8 {
        Some("Password must be at least 8 characters"@)
    } else {
        None
    }
}

/// Checks a new password.
pub fn validate_password(password: &str) -> (r: Result<(), VidaError>)
    ensures
        match password_error(password@) {
            None => r is Ok,
            Some(m) => r matches Err(VidaError::Authentication(e)) && e@ == m,
        },
{
    let p = chars_of(password);
    if utf8_shorter_than(&p, 8) {
        return Err(VidaError::Authentication(owned("Password must be at least 8 characters")));
    }
    Ok(())
}

/// Hashes a password for storage; the hash verifies against the password.
pub fn hash_auth_password(password: &str) -> (r: Result<String, VidaError>)
    ensures
        utf8_len(password@) <= ARGON2_MAX_PASSWORD ==> r is Ok,
        match r {
            Ok(h) => phc_verify(password@, h@) == Some(true) && exists|salt: Seq<char>|
                h@ == argon2id_phc(password@, salt, ARGON2_MEMORY_KIB, ARGON2_PASSES, ARGON2_LANES),
            Err(e) => e is Authentication,
        },
{
    match PinManager::hash_password(password) {
        Ok(h) => Ok(h),
        Err(e) => Err(VidaError::Authentication(e.message())),
    }
}

// ── Slowing down failed sign-ins ──
/// How many failed sign-ins in a row, within the window, block a user name.
pub const LOGIN_MAX_ATTEMPTS: u32 = 5;

/// How long, in seconds, failed sign-ins are counted together.
pub const LOGIN_WINDOW_SECS: u64 = 300;

/// How long, in seconds, a blocked user name stays blocked.
pub const LOGIN_BLOCK_SECS: u64 = 900;

/// The failures counted for a user name, and when counting started.
#[derive(Debug, Clone, Copy, PartialEq, Eq, Structural)]
pub struct FailureCount {
    pub failures: u32,
    pub since: u64,
}

/// The count of failures after one more at time `now`, and whether that
/// failure blocks the name. Failures are counted within a window that starts
/// at the first one; a failure after the window starts a new count.
pub open spec fn after_failure(count: Option<FailureCount>, now: u64) -> (FailureCount, bool) {
    let c = match count {
        Some(c) => c,
        None => FailureCount { failures: 0, since: now },
    };
    if now > c.since && now - c.since > LOGIN_WINDOW_SECS {
        (FailureCount { failures: 1, since: now }, false)
    } else {
        let n = (c.failures + 1) as u32;
        (FailureCount { failures: n, since: c.since }, n >= LOGIN_MAX_ATTEMPTS)
    }
}

/// Failed local sign-ins by user name, and the names blocked for now.
pub struct LoginLimiter {
    attempts: KeyedList<FailureCount>,
    blocked: KeyedList<u64>,
}

impl LoginLimiter {
    /// The failures counted per user name.
    pub closed spec fn counts(&self) -> Map<Seq<char>, FailureCount> {
        self.attempts.map()
    }

    /// Until when each blocked user name is blocked.
    pub closed spec fn blocks(&self) -> Map<Seq<char>, u64> {
        self.blocked.map()
    }

    pub fn new() -> (r: LoginLimiter)
        ensures
            r.counts() == Map::<Seq<char>, FailureCount>::empty(),
            r.blocks() == Map::<Seq<char>, u64>::empty(),
    {
        LoginLimiter { attempts: KeyedList::new(), blocked: KeyedList::new() }
    }

    /// Whether `username` may try to sign in at time `now`. A block that has
    /// run out is lifted.
    pub fn check(&mut self, username: &str, now: u64) -> (r: Result<(), VidaError>)
        ensures
            final(self).counts() == old(self).counts(),
            match old(self).blocks().get(username@) {
                Some(until) => if now < until {
                    r matches Err(VidaError::Authentication(m)) && m@
                        == "Too many login attempts. Try again later."@ && final(self).blocks()
                        == old(self).blocks()
                } else {
                    r is Ok && final(self).blocks() == old(self).blocks().remove(username@)
                },
                None => r is Ok && final(self).blocks() == old(self).blocks(),
            },
    {
        match self.blocked.get(username) {
            Some(until) => {
                if now < *until {
                    return Err(
                        VidaError::Authentication(owned("Too many login attempts. Try again later.")),
                    );
                }
                self.blocked.remove(username);
                Ok(())
            },
            None => Ok(()),
        }
    }

    /// Forgets the failures of a user name that signed in.
    pub fn record_success(&mut self, username: &str)
        ensures
            final(self).counts() == old(self).counts().remove(username@),
            final(self).blocks() == old(self).blocks(),
    {
        self.attempts.remove(username);
    }

    /// Counts a failed sign-in of `username` at time `now`; the failure that
    /// reaches the limit within the window blocks the name until
    /// `now + LOGIN_BLOCK_SECS` and starts the count afresh.
    pub fn record_failure(&mut self, username: &str, now: u64)
        requires
            now <= u64::MAX - LOGIN_BLOCK_SECS,
            old(self).counts().get(username@) matches Some(c) ==> c.failures < u32::MAX,
        ensures
            ({
                let (c, blocks_now) = after_failure(old(self).counts().get(username@), now);
                if blocks_now {
                    final(self).counts() == old(self).counts().remove(username@)
                        && final(self).blocks() == old(self).blocks().insert(
                        username@,
                        (now + LOGIN_BLOCK_SECS) as u64,
                    )
                } else {
                    final(self).counts() == old(self).counts().insert(username@, c)
                        && final(self).blocks() == old(self).blocks()
                }
            }),
    {
        let c = match self.attempts.get(username) {
            Some(c) => *c,
            None => FailureCount { failures: 0, since: now },
        };
        if now > c.since && now - c.since > LOGIN_WINDOW_SECS {
            self.attempts.insert(username, FailureCount { failures: 1, since: now });
        } else {
            let n = c.failures + 1;
            if n >= LOGIN_MAX_ATTEMPTS {
                self.blocked.insert(username, now + LOGIN_BLOCK_SECS);
                self.attempts.remove(username);
            } else {
                self.attempts.insert(username, FailureCount { failures: n, since: c.since });
            }
        }
    }
}

/// Within one window, the fifth failure in a row blocks the name: counting
/// from no failures, five failures at times that stay within the window leave
/// the name blocked.
pub proof fn law_fifth_failure_blocks(t: Seq<u64>)
    requires
        t.len() == 5,
        forall|i: int| 0 <= i < 5 ==> t[0] <= #[trigger] t[i] <= t[0] + LOGIN_WINDOW_SECS,
    ensures
        ({
            let (c1, b1) = after_failure(None, t[0]);
            let (c2, b2) = after_failure(Some(c1), t[1]);
            let (c3, b3) = after_failure(Some(c2), t[2]);
            let (c4, b4) = after_failure(Some(c3), t[3]);
            let (c5, b5) = after_failure(Some(c4), t[4]);
            !b1 && !b2 && !b3 && !b4 && b5
        }),
{
    assert(t[0] <= t[1] <= t[0] + LOGIN_WINDOW_SECS);
    assert(t[0] <= t[2] <= t[0] + LOGIN_WINDOW_SECS);
    assert(t[0] <= t[3] <= t[0] + LOGIN_WINDOW_SECS);
    assert(t[0] <= t[4] <= t[0] + LOGIN_WINDOW_SECS);
}

// ── Signing in ──
/// How a sign-in ends.
pub enum SignIn {
    /// The password matches an active account, which acts in this role.
    Accepted(ActorRole),
    /// The sign-in is refused with this message.
    Refused(Seq<char>),
    /// The stored hash could not be checked.
    HashFailure,
}

/// How signing in as `user` (none where no account has the name) with
/// `password` ends: an unknown name and a wrong password are refused alike,
/// a disabled account is refused as such.
pub open spec fn sign_in(user: Option<UserRow>, password: Seq<char>) -> SignIn {
    match user {
        None => SignIn::Refused("Invalid username or password"@),
        Some(u) => if u.active == 0 {
            SignIn::Refused("User account is disabled"@)
        } else {
            match phc_verify(password, u.password_hash@) {
                None => SignIn::HashFailure,
                Some(false) => SignIn::Refused("Invalid username or password"@),
                Some(true) => match role_of_text(u.role@) {
                    Some(role) => SignIn::Accepted(role),
                    None => SignIn::Refused(unknown_role_message(u.role@)),
                },
            }
        },
    }
}

/// Signs in as `user`, found by name (none where no account has it), with
/// `password`.
pub fn authenticate(user: Option<&UserRow>, password: &str) -> (r: Result<AuthSession, VidaError>)
    ensures
        match sign_in(
            match user {
                Some(u) => Some(*u),
                None => None,
            },
            password@,
        ) {
            SignIn::Accepted(role) => r matches Ok(s) && s.role == role && s.user_id@ == user->0.id@
                && s.username@ == user->0.username@,
            SignIn::Refused(m) => r matches Err(VidaError::Authentication(e)) && e@ == m,
            SignIn::HashFailure => r matches Err(VidaError::Authentication(_)),
        },
{
    let u = match user {
        Some(u) => u,
        None => return Err(VidaError::Authentication(owned("Invalid username or password"))),
    };
    if u.active == 0 {
        return Err(VidaError::Authentication(owned("User account is disabled")));
    }
    match PinManager::verify_password(password, u.password_hash.as_str()) {
        Err(e) => Err(VidaError::Authentication(e.message())),
        Ok(false) => Err(VidaError::Authentication(owned("Invalid username or password"))),
        Ok(true) => match AuthSession::try_from(u) {
            Ok(s) => Ok(s),
            Err(m) => Err(VidaError::Authentication(m)),
        },
    }
}

/// A new account signs in with the password it was made with, in the role
/// it was made for: its stored hash verifies against that password, it is
/// active, and its stored role reads back as that role.
pub proof fn law_new_account_signs_in(user: UserRow, password: Seq<char>, role: ActorRole)
    requires
        user.active == 1,
        phc_verify(password, user.password_hash@) == Some(true),
        user.role@ == role_text(role),
    ensures
        sign_in(Some(user), password) == SignIn::Accepted(role),
{
    crate::auth::law_role_storage_round_trip(role);
}

/// Checks the current password before it is changed: the account must
/// exist and the password must match its stored hash.
pub fn check_current_password(user: Option<&UserRow>, current: &str) -> (r: Result<(), VidaError>)
    ensures
        match user {
            None => r matches Err(VidaError::Authentication(e)) && e@ == "User not found"@,
            Some(u) => match phc_verify(current@, u.password_hash@) {
                Some(true) => r is Ok,
                Some(false) => r matches Err(VidaError::Authentication(e)) && e@
                    == "Current password is invalid"@,
                None => r matches Err(VidaError::Authentication(_)),
            },
        },
{
    let u = match user {
        Some(u) => u,
        None => return Err(VidaError::Authentication(owned("User not found"))),
    };
    match PinManager::verify_password(current, u.password_hash.as_str()) {
        Err(e) => Err(VidaError::Authentication(e.message())),
        Ok(false) => Err(VidaError::Authentication(owned("Current password is invalid"))),
        Ok(true) => Ok(()),
    }
}

// ── Creating accounts ──
/// The first account may only be made while there is none.
pub fn check_bootstrap(has_users: bool) -> (r: Result<(), VidaError>)
    ensures
        !has_users <==> r is Ok,
        r matches Err(e) ==> (e matches VidaError::Authentication(m) && m@
            == "Local admin bootstrap is only allowed when no users exist"@),
{
    if has_users {
        Err(
            VidaError::Authentication(
                owned("Local admin bootstrap is only allowed when no users exist"),
            ),
        )
    } else {
        Ok(())
    }
}

/// The account to store for a new user `username` (`taken` where an account
/// of that name exists) with `password` and `role`, under identifier `id`:
/// the name must be valid and free and the password long enough; the name
/// is stored without surrounding white space, the password only as a hash
/// that verifies against it.
pub fn plan_new_user(id: String, username: &str, password: &str, role: ActorRole, taken: bool) -> (r:
    Result<UserRow, VidaError>)
    ensures
        username_error(username@) matches Some(m) ==> (r matches Err(VidaError::Authentication(e))
            && e@ == m),
        username_error(username@) is None ==> (password_error(password@) matches Some(m) ==> (
        r matches Err(VidaError::Authentication(e)) && e@ == m)),
        username_error(username@) is None && password_error(password@) is None && taken ==> (
        r matches Err(VidaError::Authentication(e)) && e@ == "User '"@ + username@
            + "' already exists"@),
        r matches Err(e) ==> e is Authentication,
        username_error(username@) is None && password_error(password@) is None && !taken
            && utf8_len(password@) <= ARGON2_MAX_PASSWORD ==> r is Ok,
        r matches Ok(u) ==> {
            &&& username_error(username@) is None
            &&& password_error(password@) is None
            &&& !taken
            &&& u.id@ == id@
            &&& u.username@ == trim_seq(username@)
            &&& phc_verify(password@, u.password_hash@) == Some(true)
            &&& u.role@ == role_text(role)
            &&& u.active == 1
            &&& u.created_at@.len() == 0
        },
{
    validate_username(username)?;
    validate_password(password)?;
    if taken {
        let mut m = owned("User '");
        append_str(&mut m, username);
        append_str(&mut m, "' already exists");
        return Err(VidaError::Authentication(m));
    }
    let password_hash = hash_auth_password(password)?;
    Ok(
        UserRow {
            id,
            username: string_of(&trim_chars(&chars_of(username))),
            password_hash,
            role: owned(actor_role_storage(role)),
            active: 1,
            created_at: String::new(),
        },
    )
}

/// The first account, an administrator's, to store when there is none yet
/// (`has_users` where accounts exist) for `username` with `password`.
pub fn plan_bootstrap_admin(has_users: bool, id: String, username: &str, password: &str) -> (r:
    Result<UserRow, VidaError>)
    ensures
        has_users ==> (r matches Err(VidaError::Authentication(e)) && e@
            == "Local admin bootstrap is only allowed when no users exist"@),
        !has_users ==> (username_error(username@) matches Some(m) ==> (r matches Err(
            VidaError::Authentication(e),
        ) && e@ == m)),
        !has_users && username_error(username@) is None ==> (password_error(password@) matches Some(
            m,
        ) ==> (r matches Err(VidaError::Authentication(e)) && e@ == m)),
        r matches Err(e) ==> e is Authentication,
        !has_users && username_error(username@) is None && password_error(password@) is None
            && utf8_len(password@) <= ARGON2_MAX_PASSWORD ==> r is Ok,
        r matches Ok(u) ==> {
            &&& !has_users
            &&& username_error(username@) is None
            &&& password_error(password@) is None
            &&& u.id@ == id@
            &&& u.username@ == trim_seq(username@)
            &&& phc_verify(password@, u.password_hash@) == Some(true)
            &&& u.role@ == role_text(ActorRole::SuperAdmin)
            &&& u.active == 1
        },
{
    check_bootstrap(has_users)?;
    plan_new_user(id, username, password, ActorRole::SuperAdmin, false)
}

/// The administrator made when there was no account signs in with the
/// password it was made with, as a super administrator.
pub proof fn law_bootstrapped_admin_signs_in(admin: UserRow, password: Seq<char>)
    requires
        admin.active == 1,
        phc_verify(password, admin.password_hash@) == Some(true),
        admin.role@ == role_text(ActorRole::SuperAdmin),
    ensures
        sign_in(Some(admin), password) == SignIn::Accepted(ActorRole::SuperAdmin),
{
    law_new_account_signs_in(admin, password, ActorRole::SuperAdmin);
}

/// The hash to store when `user` (none where the account is gone) changes
/// its password from `current` to `new_password`: the current password must
/// match; the new hash verifies against the new password.
pub fn plan_password_change(user: Option<&UserRow>, current: &str, new_password: &str) -> (r: Result<
    String,
    VidaError,
>)
    ensures
        match user {
            None => r matches Err(VidaError::Authentication(e)) && e@ == "User not found"@,
            Some(u) => match phc_verify(current@, u.password_hash@) {
                Some(true) => (utf8_len(new_password@) <= ARGON2_MAX_PASSWORD ==> r is Ok) && match r {
                    Ok(h) => phc_verify(new_password@, h@) == Some(true),
                    Err(e) => e is Authentication,
                },
                Some(false) => r matches Err(VidaError::Authentication(e)) && e@
                    == "Current password is invalid"@,
                None => r matches Err(VidaError::Authentication(_)),
            },
        },
{
    check_current_password(user, current)?;
    hash_auth_password(new_password)
}

/// After a password change, the account signs in with the new password, in
/// the role it had: the stored hash is the one that verifies against it.
pub proof fn law_changed_password_signs_in(
    user: UserRow,
    new_password: Seq<char>,
    new_hash: String,
    role: ActorRole,
)
    requires
        user.active == 1,
        user.role@ == role_text(role),
        phc_verify(new_password, new_hash@) == Some(true),
    ensures
        sign_in(Some(UserRow { password_hash: new_hash, ..user }), new_password) == SignIn::Accepted(
            role,
        ),
{
    law_new_account_signs_in(UserRow { password_hash: new_hash, ..user }, new_password, role);
}

} // verus!
