//! Teams of agents: member roles, who may run, member colors, and the rule
//! that a team always keeps an owner.
use vstd::prelude::*;
use crate::error::VidaError;
use crate::models::{TeamMemberRow, TeamRow};
use crate::text::{chars_of, chars_eq, lower_chars, lower_seq, owned, append_str, push_chars, str_is, trim_chars, trim_seq};

verus! {

/// The colors given to team members, in turn.
pub open spec fn team_colors() -> Seq<Seq<char>> {
    seq![
        "#6366f1"@,
        "#ec4899"@,
        "#14b8a6"@,
        "#f59e0b"@,
        "#8b5cf6"@,
        "#06b6d4"@,
        "#f97316"@,
        "#10b981"@,
    ]
}

/// The color of the member at position `index`: the palette in turn.
pub fn team_color(index: usize) -> (r: &'static str)
    ensures
        r@ == team_colors()[(index % 8) as int],
{
    let k = index % 8;
    if k == 0 {
        "#6366f1"
    } else if k == 1 {
        "#ec4899"
    } else if k == 2 {
        "#14b8a6"
    } else if k == 3 {
        "#f59e0b"
    } else if k == 4 {
        "#8b5cf6"
    } else if k == 5 {
        "#06b6d4"
    } else if k == 6 {
        "#f97316"
    } else {
        "#10b981"
    }
}

/// The role a new member gets: the first member owns the team.
pub fn default_team_role(index: usize) -> (r: &'static str)
    ensures
        r@ == if index == 0 {
            "owner"@
        } else {
            "member"@
        },
{
    if index == 0 {
        "owner"
    } else {
        "member"
    }
}

/// A team role's name.
pub open spec fn is_team_role(r: Seq<char>) -> bool {
    r == "owner"@ || r == "admin"@ || r == "member"@ || r == "viewer"@
}

/// The role a text names, read without surrounding white space and in lower case.
pub open spec fn normalized_role(role: Seq<char>) -> Seq<char> {
    lower_seq(trim_seq(role))
}

/// The message for a text that names no team role.
pub open spec fn invalid_role_message(role: Seq<char>) -> Seq<char> {
    "Invalid team role '"@ + role + "'. Expected one of: owner, admin, member, viewer"@
}

/// Reads a team role.
pub fn normalize_team_role(role: &str) -> (r: Result<String, VidaError>)
    ensures
        is_team_role(normalized_role(role@)) ==> (r matches Ok(n) && n@ == normalized_role(role@)),
        !is_team_role(normalized_role(role@)) ==> (r matches Err(VidaError::Config(m)) && m@
            == invalid_role_message(role@)),
{
    let t = lower_chars(&trim_chars(&chars_of(role)));
    let owner = chars_of("owner");
    let admin = chars_of("admin");
    let member = chars_of("member");
    let viewer = chars_of("viewer");
    if chars_eq(&t, &owner) || chars_eq(&t, &admin) || chars_eq(&t, &member) || chars_eq(
        &t,
        &viewer,
    ) {
        let mut n = owned("");
        proof {
            reveal_strlit("");
        }
        push_chars(&mut n, &t);
        Ok(n)
    } else {
        let mut m = owned("Invalid team role '");
        append_str(&mut m, role);
        append_str(&mut m, "'. Expected one of: owner, admin, member, viewer");
        Err(VidaError::Config(m))
    }
}

/// A member's role; a member without one is a plain member.
pub open spec fn role_of(m: TeamMemberRow) -> Seq<char> {
    match m.role {
        Some(r) => r@,
        None => "member"@,
    }
}

/// A member's role.
pub fn team_member_role(member: &TeamMemberRow) -> (r: &str)
    ensures
        r@ == role_of(*member),
{
    match &member.role {
        Some(r) => r.as_str(),
        None => "member",
    }
}

/// Whether a role lets a member run: owners, admins and members may; viewers
/// and unknown roles may not.
pub fn team_role_can_execute(role: &str) -> (r: bool)
    ensures
        r == (role@ == "owner"@ || role@ == "admin"@ || role@ == "member"@),
{
    str_is(role, "owner") || str_is(role, "admin") || str_is(role, "member")
}

/// How many of the first `n` members own the team.
pub open spec fn owner_count(members: Seq<TeamMemberRow>, n: int) -> nat
    decreases n,
{
    if n <= 0 || n > members.len() {
        0
    } else {
        owner_count(members, n - 1) + if role_of(members[n - 1]) == "owner"@ {
            1nat
        } else {
            0nat
        }
    }
}

/// Some member owns the team.
pub open spec fn has_owner(roles: Seq<Seq<char>>) -> bool {
    exists|i: int| 0 <= i < roles.len() && roles[i] == "owner"@
}

/// The roles of the members.
pub open spec fn roles_of(members: Seq<TeamMemberRow>) -> Seq<Seq<char>> {
    Seq::new(members.len(), |i: int| role_of(members[i]))
}

/// `t` is the first member with id `id`.
pub open spec fn first_member(members: Seq<TeamMemberRow>, id: Seq<char>, t: int) -> bool {
    &&& 0 <= t < members.len()
    &&& members[t].id@ == id
    &&& forall|k: int| 0 <= k < t ==> members[k].id@ != id
}

/// The outcome of giving member `member_id` the role `role`: the normalized
/// role, or why the change is refused (an unknown role, an unknown member, or
/// the team's last owner giving up ownership).
pub open spec fn role_change(members: Seq<TeamMemberRow>, member_id: Seq<char>, role: Seq<char>) -> Result<
    Seq<char>,
    Seq<char>,
> {
    let nr = normalized_role(role);
    if !is_team_role(nr) {
        Err(invalid_role_message(role))
    } else if !exists|t: int| first_member(members, member_id, t) {
        Err("Team member not found: "@ + member_id)
    } else {
        let t = choose|t: int| first_member(members, member_id, t);
        if role_of(members[t]) == "owner"@ && nr != "owner"@ && owner_count(
            members,
            members.len() as int,
        ) <= 1 {
            Err("Team must keep at least one owner"@)
        } else {
            Ok(nr)
        }
    }
}

/// Decides whether member `member_id` of a team with `members` may take the
/// role `role`; gives the normalized role to store.
pub fn check_team_role_change(members: &[TeamMemberRow], member_id: &str, role: &str) -> (r: Result<
    String,
    VidaError,
>)
    ensures
        match role_change(members@, member_id@, role@) {
            Ok(nr) => r matches Ok(n) && n@ == nr,
            Err(m) => r matches Err(VidaError::Config(e)) && e@ == m,
        },
{
    let normalized = normalize_team_role(role)?;
    let mut t: usize = 0;
    while t < members.len() && !str_is(members[t].id.as_str(), member_id)
        invariant
            t <= members@.len(),
            forall|k: int| 0 <= k < t ==> members@[k].id@ != member_id@,
        decreases members@.len() - t,
    {
        t = t + 1;
    }
    if t == members.len() {
        let mut m = owned("Team member not found: ");
        append_str(&mut m, member_id);
        return Err(VidaError::Config(m));
    }
    assert(first_member(members@, member_id@, t as int));
    let ghost chosen = choose|c: int| first_member(members@, member_id@, c);
    assert(chosen == t) by {
        if chosen < t {
            assert(members@[chosen].id@ != member_id@);
        } else if chosen > t {
            assert(members@[t as int].id@ == member_id@);
        }
    }
    let mut owners: usize = 0;
    let mut i: usize = 0;
    while i < members.len()
        invariant
            i <= members@.len(),
            owners == owner_count(members@, i as int),
            owners <= i,
        decreases members@.len() - i,
    {
        if str_is(team_member_role(&members[i]), "owner") {
            owners = owners + 1;
        }
        i = i + 1;
    }
    if str_is(team_member_role(&members[t]), "owner") && !str_is(normalized.as_str(), "owner")
        && owners <= 1 {
        return Err(VidaError::Config(owned("Team must keep at least one owner")));
    }
    Ok(normalized)
}

proof fn lemma_two_owners(members: Seq<TeamMemberRow>, n: int, t: int)
    requires
        0 <= t < n <= members.len(),
        owner_count(members, n) >= 2,
    ensures
        exists|j: int| 0 <= j < n && j != t && role_of(members[j]) == "owner"@,
    decreases n,
{
    if role_of(members[n - 1]) == "owner"@ && n - 1 != t {
        assert(0 <= n - 1 < n && n - 1 != t && role_of(members[n - 1]) == "owner"@);
    } else if role_of(members[n - 1]) == "owner"@ {
        lemma_some_owner(members, n - 1);
        let j = choose|j: int| 0 <= j < n - 1 && role_of(members[j]) == "owner"@;
        assert(0 <= j < n && j != t && role_of(members[j]) == "owner"@);
    } else if t == n - 1 {
        lemma_some_owner(members, n - 1);
        let j = choose|j: int| 0 <= j < n - 1 && role_of(members[j]) == "owner"@;
        assert(0 <= j < n && j != t && role_of(members[j]) == "owner"@);
    } else {
        lemma_two_owners(members, n - 1, t);
        let j = choose|j: int| 0 <= j < n - 1 && j != t && role_of(members[j]) == "owner"@;
        assert(0 <= j < n && j != t && role_of(members[j]) == "owner"@);
    }
}

proof fn lemma_some_owner(members: Seq<TeamMemberRow>, n: int)
    requires
        0 <= n <= members.len(),
        owner_count(members, n) >= 1,
    ensures
        exists|j: int| 0 <= j < n && role_of(members[j]) == "owner"@,
    decreases n,
{
    if role_of(members[n - 1]) == "owner"@ {
        assert(0 <= n - 1 < n && role_of(members[n - 1]) == "owner"@);
    } else {
        lemma_some_owner(members, n - 1);
        let j = choose|j: int| 0 <= j < n - 1 && role_of(members[j]) == "owner"@;
        assert(0 <= j < n && role_of(members[j]) == "owner"@);
    }
}

proof fn lemma_owner_counted(members: Seq<TeamMemberRow>, n: int, j: int)
    requires
        0 <= j < n <= members.len(),
        role_of(members[j]) == "owner"@,
    ensures
        owner_count(members, n) >= 1,
    decreases n,
{
    if j < n - 1 {
        lemma_owner_counted(members, n - 1, j);
    }
}

/// A team that has an owner keeps one through every role change that is
/// allowed.
pub proof fn law_role_change_keeps_an_owner(
    members: Seq<TeamMemberRow>,
    member_id: Seq<char>,
    role: Seq<char>,
    t: int,
)
    requires
        has_owner(roles_of(members)),
        role_change(members, member_id, role) is Ok,
        first_member(members, member_id, t),
    ensures
        has_owner(roles_of(members).update(t, role_change(members, member_id, role)->Ok_0)),
{
    let nr = normalized_role(role);
    let roles = roles_of(members);
    let after = roles.update(t, nr);
    let c = choose|c: int| first_member(members, member_id, c);
    assert(c == t) by {
        if c < t {
            assert(members[c].id@ != member_id);
        } else if c > t {
            assert(members[t].id@ == member_id);
        }
    }
    if nr == "owner"@ {
        assert(after[t] == "owner"@);
    } else if role_of(members[t]) == "owner"@ {
        assert(owner_count(members, members.len() as int) >= 2);
        lemma_two_owners(members, members.len() as int, t);
        let j = choose|j: int| 0 <= j < members.len() && j != t && role_of(members[j]) == "owner"@;
        assert(after[j] == "owner"@);
    } else {
        let j = choose|j: int| 0 <= j < roles.len() && roles[j] == "owner"@;
        assert(j != t);
        assert(after[j] == "owner"@);
    }
}

/// The member whose provider and model a team session uses: the first
/// member of the team. A team without members cannot hold a session.
pub fn team_session_member(team_name: &str, members: &[TeamMemberRow]) -> (r: Result<
    usize,
    VidaError,
>)
    ensures
        members@.len() > 0 <==> r is Ok,
        match r {
            Ok(i) => i == 0,
            Err(e) => e matches VidaError::Config(m) && m@ == "Team '"@ + team_name@
                + "' has no member with execution access"@,
        },
{
    if members.len() > 0 {
        Ok(0)
    } else {
        let mut m = owned("Team '");
        append_str(&mut m, team_name);
        append_str(&mut m, "' has no member with execution access");
        Err(VidaError::Config(m))
    }
}

/// The title of a team's session.
pub fn team_session_title(team_name: &str) -> (r: String)
    ensures
        r@ == "Team: "@ + team_name@,
{
    let mut r = owned("Team: ");
    append_str(&mut r, team_name);
    r
}

/// A new team needs at least one member.
pub fn check_team_members(count: usize) -> (r: Result<(), VidaError>)
    ensures
        count > 0 <==> r is Ok,
        r matches Err(e) ==> (e matches VidaError::Config(m) && m@
            == "Team must contain at least one member"@),
{
    if count == 0 {
        Err(VidaError::Config(owned("Team must contain at least one member")))
    } else {
        Ok(())
    }
}

/// How a member is named: its model, then the provider in parentheses.
pub fn member_display_name(model: &str, provider_label: &str) -> (r: String)
    ensures
        r@ == model@ + " ("@ + provider_label@ + ")"@,
{
    let mut r = owned(model);
    append_str(&mut r, " (");
    append_str(&mut r, provider_label);
    append_str(&mut r, ")");
    r
}

/// How the provider of a new member is named: by its display name where the
/// provider is known, else by its identifier.
pub open spec fn provider_label(label: Option<String>, provider_id: Seq<char>) -> Seq<char> {
    match label {
        Some(l) => l@,
        None => provider_id,
    }
}

/// Row `m` is the new member at position `i`, with identifier `id`, of
/// team `team_id`, on `provider_id` and `model`, whose provider is named
/// `label`.
pub open spec fn new_member_row(
    m: TeamMemberRow,
    i: int,
    id: Seq<char>,
    team_id: Seq<char>,
    provider_id: Seq<char>,
    model: Seq<char>,
    label: Seq<char>,
) -> bool {
    &&& m.id@ == id
    &&& m.team_id@ == team_id
    &&& m.provider_id@ == provider_id
    &&& m.model@ == model
    &&& m.display_name matches Some(d) && d@ == model + " ("@ + label + ")"@
    &&& m.color@ == team_colors()[i % 8]
    &&& m.role matches Some(r) && r@ == if i == 0 {
        "owner"@
    } else {
        "member"@
    }
    &&& m.department is None
    &&& m.system_prompt is None
    &&& m.created_at@.len() == 0
}

/// A new team and its members: each member in turn gets the next color,
/// the first one owns the team, and each is named by model and provider. A
/// team without members is refused.
pub fn plan_team(
    team_id: &str,
    name: &str,
    members: &[(String, String)],
    labels: &[Option<String>],
    member_ids: &[String],
) -> (r: Result<(TeamRow, Vec<TeamMemberRow>), VidaError>)
    requires
        labels@.len() == members@.len(),
        member_ids@.len() == members@.len(),
    ensures
        members@.len() == 0 ==> (r matches Err(VidaError::Config(m)) && m@
            == "Team must contain at least one member"@),
        members@.len() > 0 ==> (r matches Ok((team, rows)) && {
            &&& team.id@ == team_id@
            &&& team.name@ == name@
            &&& team.mode@ == "parallel"@
            &&& team.description is None
            &&& team.system_prompt is None
            &&& team.created_at@.len() == 0
            &&& rows@.len() == members@.len()
            &&& forall|i: int|
                0 <= i < rows@.len() ==> new_member_row(
                    #[trigger] rows@[i],
                    i,
                    member_ids@[i]@,
                    team_id@,
                    members@[i].0@,
                    members@[i].1@,
                    provider_label(labels@[i], members@[i].0@),
                )
        }),
{
    if let Err(e) = check_team_members(members.len()) {
        return Err(e);
    }
    let team = TeamRow {
        id: owned(team_id),
        name: owned(name),
        mode: owned("parallel"),
        description: None,
        system_prompt: None,
        created_at: String::new(),
    };
    let mut rows: Vec<TeamMemberRow> = Vec::new();
    let mut i: usize = 0;
    while i < members.len()
        invariant
            i <= members@.len(),
            labels@.len() == members@.len(),
            member_ids@.len() == members@.len(),
            rows@.len() == i,
            forall|k: int|
                0 <= k < i ==> new_member_row(
                    #[trigger] rows@[k],
                    k,
                    member_ids@[k]@,
                    team_id@,
                    members@[k].0@,
                    members@[k].1@,
                    provider_label(labels@[k], members@[k].0@),
                ),
        decreases members@.len() - i,
    {
        let (provider_id, model) = &members[i];
        let label = match &labels[i] {
            Some(l) => l.as_str(),
            None => provider_id.as_str(),
        };
        let display_name = member_display_name(model.as_str(), label);
        let role = default_team_role(i);
        let color = team_color(i);
        rows.push(
            TeamMemberRow {
                id: member_ids[i].clone(),
                team_id: owned(team_id),
                provider_id: provider_id.clone(),
                model: model.clone(),
                display_name: Some(display_name),
                color: owned(color),
                role: Some(owned(role)),
                department: None,
                system_prompt: None,
                created_at: String::new(),
            },
        );
        i = i + 1;
    }
    Ok((team, rows))
}

/// A prefix of the new members, from the first on, holds one owner.
proof fn lemma_new_members_one_owner(
    rows: Seq<TeamMemberRow>,
    ids: Seq<Seq<char>>,
    team_id: Seq<char>,
    providers: Seq<Seq<char>>,
    models: Seq<Seq<char>>,
    labels: Seq<Seq<char>>,
    n: int,
)
    requires
        1 <= n <= rows.len(),
        forall|i: int|
            0 <= i < rows.len() ==> new_member_row(
                #[trigger] rows[i],
                i,
                ids[i],
                team_id,
                providers[i],
                models[i],
                labels[i],
            ),
    ensures
        owner_count(rows, n) == 1,
    decreases n,
{
    reveal_strlit("owner");
    reveal_strlit("member");
    assert(new_member_row(rows[n - 1], n - 1, ids[n - 1], team_id, providers[n - 1], models[n - 1], labels[n - 1]));
    if n == 1 {
        assert(owner_count(rows, 0) == 0);
    } else {
        lemma_new_members_one_owner(rows, ids, team_id, providers, models, labels, n - 1);
        assert("member"@ != "owner"@) by {
            assert("member"@[0] != "owner"@[0]);
        }
    }
}

/// A new team has exactly one owner: its first member.
pub proof fn law_new_team_has_one_owner(
    rows: Seq<TeamMemberRow>,
    ids: Seq<Seq<char>>,
    team_id: Seq<char>,
    providers: Seq<Seq<char>>,
    models: Seq<Seq<char>>,
    labels: Seq<Seq<char>>,
)
    requires
        rows.len() > 0,
        forall|i: int|
            0 <= i < rows.len() ==> new_member_row(
                #[trigger] rows[i],
                i,
                ids[i],
                team_id,
                providers[i],
                models[i],
                labels[i],
            ),
    ensures
        owner_count(rows, rows.len() as int) == 1,
        role_of(rows[0]) == "owner"@,
{
    assert(new_member_row(rows[0], 0, ids[0], team_id, providers[0], models[0], labels[0]));
    lemma_new_members_one_owner(rows, ids, team_id, providers, models, labels, rows.len() as int);
}

} // verus!
