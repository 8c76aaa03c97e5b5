use vida::chat::{answering_members, found_team, missing_provider_event, session_team};
use vida::chat::{agent_event, agent_name, TeamProgress, TeamStreamEvent};
use vida::error::VidaError;
use vida::models::TeamMemberRow;
use vida::providers::StreamEvent;
use vida::teams::{
    check_team_members, check_team_role_change, default_team_role, member_display_name,
    normalize_team_role, plan_team, team_color, team_member_role, team_role_can_execute,
    team_session_member,
};

fn member(id: &str, role: Option<&str>) -> TeamMemberRow {
    TeamMemberRow {
        id: id.to_string(),
        team_id: "t1".to_string(),
        provider_id: "ollama".to_string(),
        model: "llama3".to_string(),
        display_name: None,
        color: "#6366f1".to_string(),
        role: role.map(str::to_string),
        department: None,
        system_prompt: None,
        created_at: String::new(),
    }
}

fn config_message<T: std::fmt::Debug>(r: Result<T, VidaError>) -> String {
    match r {
        Err(VidaError::Config(m)) => m,
        other => panic!("unexpected {:?}", other),
    }
}

#[test]
fn colors_and_default_roles() {
    assert_eq!(team_color(0), "#6366f1");
    assert_eq!(team_color(9), "#ec4899");
    assert_eq!(default_team_role(0), "owner");
    assert_eq!(default_team_role(3), "member");
    assert_eq!(member_display_name("llama3", "Ollama"), "llama3 (Ollama)");
}

#[test]
fn team_roles() {
    assert_eq!(normalize_team_role(" Admin ").unwrap(), "admin");
    assert_eq!(
        config_message(normalize_team_role("boss")),
        "Invalid team role 'boss'. Expected one of: owner, admin, member, viewer"
    );
    assert_eq!(team_member_role(&member("m", None)), "member");
    assert!(team_role_can_execute("admin"));
    assert!(!team_role_can_execute("viewer"));
}

#[test]
fn set_team_member_role_rejects_last_owner_demotion() {
    let members = vec![member("a", Some("owner")), member("b", Some("member"))];
    assert_eq!(
        config_message(check_team_role_change(&members, "a", "member")),
        "Team must keep at least one owner"
    );
    assert_eq!(check_team_role_change(&members, "b", "OWNER").unwrap(), "owner");
    assert_eq!(config_message(check_team_role_change(&members, "zz", "member")), "Team member not found: zz");
    let two = vec![member("a", Some("owner")), member("b", Some("owner"))];
    assert_eq!(check_team_role_change(&two, "a", "viewer").unwrap(), "viewer");
}

#[test]
fn team_sessions_use_the_first_member() {
    let members = vec![member("a", Some("viewer")), member("b", None)];
    assert_eq!(team_session_member("T", &members).unwrap(), 0);
    let runnable_first = vec![member("a", Some("member")), member("b", Some("viewer"))];
    assert_eq!(team_session_member("T", &runnable_first).unwrap(), 0);
    assert_eq!(team_session_member("T", &[member("a", Some("viewer"))]).unwrap(), 0);
    assert_eq!(config_message(team_session_member("T", &[])), "Team 'T' has no member with execution access");
    assert_eq!(vida::teams::team_session_title("Research"), "Team: Research");
    assert_eq!(config_message(check_team_members(0)), "Team must contain at least one member");
    assert!(check_team_members(2).is_ok());
}

#[test]
fn agent_events_and_progress() {
    let m = member("a", None);
    assert_eq!(agent_name(&m), "ollama/llama3");
    match agent_event(StreamEvent::Token { content: "hi".to_string() }, "a", "A", "#fff").unwrap() {
        TeamStreamEvent::AgentToken { agent_id, agent_name, agent_color, content } => {
            assert_eq!((agent_id.as_str(), agent_name.as_str(), agent_color.as_str(), content.as_str()), ("a", "A", "#fff", "hi"));
        }
        other => panic!("unexpected {:?}", other),
    }
    assert!(agent_event(StreamEvent::Done, "a", "A", "#fff").is_none());
    let mut p = TeamProgress::new(2);
    assert!(!p.agent_finished());
    assert!(p.agent_finished());
}

#[test]
fn planned_team_members() {
    let members = vec![
        ("ollama".to_string(), "llama3".to_string()),
        ("openai".to_string(), "gpt-4o".to_string()),
    ];
    let labels = vec![Some("Ollama".to_string()), None];
    let ids = vec!["m1".to_string(), "m2".to_string()];
    let (team, rows) = plan_team("t1", "Crew", &members, &labels, &ids).unwrap();
    assert_eq!(team.id, "t1");
    assert_eq!(team.name, "Crew");
    assert_eq!(team.mode, "parallel");
    assert_eq!(rows.len(), 2);
    assert_eq!(rows[0].id, "m1");
    assert_eq!(rows[0].team_id, "t1");
    assert_eq!(rows[0].display_name.as_deref(), Some("llama3 (Ollama)"));
    assert_eq!(rows[1].display_name.as_deref(), Some("gpt-4o (openai)"));
    assert_eq!(rows[0].color, "#6366f1");
    assert_eq!(rows[1].color, "#ec4899");
    assert_eq!(rows[0].role.as_deref(), Some("owner"));
    assert_eq!(rows[1].role.as_deref(), Some("member"));
    let empty = plan_team("t2", "Nobody", &[], &[], &[]);
    assert!(matches!(empty, Err(VidaError::Config(m)) if m == "Team must contain at least one member"));
}

#[test]
fn team_message_decisions() {
    assert_eq!(session_team(&Some("t1".to_string())).unwrap(), "t1");
    assert_eq!(config_message(session_team(&None)), "Session has no team_id");
    assert_eq!(found_team(Some(3), "t1").unwrap(), 3);
    assert_eq!(config_message(found_team::<u8>(None, "t9")), "Team not found: t9");
    let members = vec![member("a", Some("viewer")), member("b", None), member("c", Some("owner"))];
    let answering = answering_members(members).unwrap();
    let ids: Vec<&str> = answering.iter().map(|m| m.id.as_str()).collect();
    assert_eq!(ids, vec!["a", "b", "c"]);
    assert_eq!(config_message(answering_members(vec![])), "Team has no member with execution access");
    match missing_provider_event(&member("a", None)) {
        TeamStreamEvent::AgentError { agent_id, error } => {
            assert_eq!(agent_id, "a");
            assert_eq!(error, "Provider not found: ollama");
        }
        other => panic!("unexpected {:?}", other),
    }
}
