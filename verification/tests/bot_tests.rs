use vida::telegram::{cut_falls_between_chars, try_fit_reply};
use std::collections::HashSet;
use vida::providers::{ProviderInfo, ProviderType};
use vida::registry::ProviderRegistry;
use vida::telegram::{
    chat_error_reply, chat_session, command_action, fit_reply, health_report, is_allowed,
    models_report, plain_message_action, session_error_reply, BotAction, ChatSession,
    TelegramBot, TelegramCommand, TelegramConfig,
};

struct FakeProvider {
    name: String,
    healthy: bool,
}

fn fake(name: &str, healthy: bool) -> FakeProvider {
    FakeProvider { name: name.to_string(), healthy }
}

#[test]
fn test_registry_add_and_get() {
    let mut reg = ProviderRegistry::new();
    let provider = fake("test", true);
    assert!(reg.add("test".to_string(), provider).is_ok());
    assert!(reg.get("test").is_some());
    assert!(reg.get("nonexistent").is_none());
}

#[test]
fn test_registry_duplicate_add_fails() {
    let mut reg = ProviderRegistry::new();
    let p1 = fake("test", true);
    let p2 = fake("test", true);
    assert!(reg.add("test".to_string(), p1).is_ok());
    assert!(reg.add("test".to_string(), p2).is_err());
}

#[test]
fn test_registry_list() {
    let mut reg = ProviderRegistry::new();
    reg.add("a".to_string(), fake("A", true)).unwrap();
    reg.add("b".to_string(), fake("B", true)).unwrap();
    let list = reg.list();
    assert_eq!(list.len(), 2);
}

#[test]
fn registry_keeps_first_provider_and_order() {
    let mut reg = ProviderRegistry::new();
    reg.add("x".to_string(), fake("first", true)).unwrap();
    let err = reg.add("x".to_string(), fake("second", false)).unwrap_err();
    assert_eq!(err, "Provider 'x' already registered");
    assert_eq!(reg.get("x").map(|p| p.name.as_str()), Some("first"));
    reg.add("y".to_string(), fake("other", false)).unwrap();
    assert_eq!(reg.names(), vec!["x".to_string(), "y".to_string()]);
    assert_eq!(reg.len(), 2);
    assert!(reg.list().iter().map(|p| p.healthy).eq([true, false]));
}

#[test]
fn test_telegram_config_creation() {
    let config = TelegramConfig {
        bot_token: "123:ABC".to_string(),
        allowed_chat_ids: HashSet::from([12345, 67890]),
        default_session_id: None,
    };
    assert_eq!(config.bot_token, "123:ABC");
    assert!(config.allowed_chat_ids.contains(&12345));
    assert_eq!(config.allowed_chat_ids.len(), 2);
}

#[test]
fn test_telegram_bot_new() {
    let config = TelegramConfig {
        bot_token: "test".to_string(),
        allowed_chat_ids: HashSet::new(),
        default_session_id: Some("session-1".to_string()),
    };
    let bot = TelegramBot::new(config);
    assert!(!bot.is_running());
}

#[test]
fn bot_start_and_stop() {
    let mut bot = TelegramBot::new(TelegramConfig {
        bot_token: "t".to_string(),
        allowed_chat_ids: HashSet::new(),
        default_session_id: None,
    });
    assert!(bot.start());
    assert!(bot.is_running());
    assert!(!bot.start());
    assert!(bot.stop());
    assert!(!bot.is_running());
    assert!(!bot.stop());
}

#[test]
fn allowed_chats() {
    let empty: HashSet<i64> = HashSet::new();
    assert!(is_allowed(42, &empty));
    let allowed = HashSet::from([111i64, 222]);
    assert!(is_allowed(111, &allowed));
    assert!(!is_allowed(333, &allowed));
}

#[test]
fn commands() {
    let allowed = HashSet::from([1i64]);
    match command_action(2, &allowed, TelegramCommand::Help) {
        BotAction::Reply(t) => assert_eq!(t, "⛔ Unauthorized. Your chat ID is not in the allowed list."),
        _ => panic!("expected a refusal"),
    }
    assert!(matches!(command_action(1, &allowed, TelegramCommand::Help), BotAction::Help));
    assert!(matches!(command_action(1, &allowed, TelegramCommand::Models), BotAction::ListModels));
    assert!(matches!(command_action(1, &allowed, TelegramCommand::Health), BotAction::CheckHealth));
    match command_action(1, &allowed, TelegramCommand::Chat(String::new())) {
        BotAction::Reply(t) => assert_eq!(t, "Usage: /chat <your message>"),
        _ => panic!("expected usage"),
    }
    match command_action(1, &allowed, TelegramCommand::Chat("hi".to_string())) {
        BotAction::Chat(t) => assert_eq!(t, "hi"),
        _ => panic!("expected a chat"),
    }
    assert!(matches!(plain_message_action(2, &allowed, Some("x".to_string())), BotAction::Ignore));
    assert!(matches!(plain_message_action(1, &allowed, None), BotAction::Ignore));
    assert!(matches!(plain_message_action(1, &allowed, Some("x".to_string())), BotAction::Chat(t) if t == "x"));
}

#[test]
fn reports() {
    let providers = vec![
        ProviderInfo {
            name: "ollama".to_string(),
            provider_type: ProviderType::Local,
            models: vec!["llama3".to_string(), "mistral".to_string()],
        },
        ProviderInfo { name: "openai".to_string(), provider_type: ProviderType::Cloud, models: vec![] },
    ];
    assert_eq!(
        models_report(&providers),
        "📋 *Available Models*\n\n*ollama* (Local)\n  • `llama3`\n  • `mistral`\n\n*openai* (Cloud)\n\n"
    );
    let checks = vec![("ollama".to_string(), true), ("openai".to_string(), false)];
    assert_eq!(health_report(&checks), "🏥 Health Check\n\n✅ ollama\n❌ openai\n");
    assert_eq!(health_report(&[]), "🏥 Health Check\n\n");
}

#[test]
fn chat_sessions() {
    let providers = vec![ProviderInfo {
        name: "ollama".to_string(),
        provider_type: ProviderType::Local,
        models: vec!["llama3".to_string()],
    }];
    assert!(matches!(chat_session(&Some("s1".to_string()), &providers), ChatSession::Existing(s) if s == "s1"));
    assert!(matches!(chat_session(&None, &[]), ChatSession::NoProviders(t) if t == "❌ No providers configured."));
    match chat_session(&None, &providers) {
        ChatSession::Create { provider, model } => {
            assert_eq!(provider, "ollama");
            assert_eq!(model, "llama3");
        }
        _ => panic!("expected a new session"),
    }
    let bare = vec![ProviderInfo { name: "p".to_string(), provider_type: ProviderType::Cloud, models: vec![] }];
    assert!(matches!(chat_session(&None, &bare), ChatSession::Create { model, .. } if model.is_empty()));
}

#[test]
fn long_replies_are_cut() {
    let short = "a".repeat(4000);
    assert_eq!(fit_reply(&short), short);
    let long = "b".repeat(4001);
    assert_eq!(fit_reply(&long), format!("{}…\n\n_(truncated)_", "b".repeat(4000)));
    let wide = format!("{}{}", "é".repeat(2000), "tail");
    assert_eq!(fit_reply(&wide), format!("{}…\n\n_(truncated)_", "é".repeat(2000)));
    assert_eq!(chat_error_reply("down"), "❌ Error: down");
    assert_eq!(session_error_reply("no"), "❌ no");
}

#[test]
fn test_allowed_chat_ids_empty_allows_all() {
    let allowed: HashSet<i64> = HashSet::new();
    assert!(allowed.is_empty());
    assert!(is_allowed(987, &allowed));
}

#[test]
fn test_allowed_chat_ids_restricts() {
    let allowed = HashSet::from([111i64, 222]);
    assert!(allowed.contains(&111));
    assert!(!allowed.contains(&333));
    assert!(is_allowed(111, &allowed));
    assert!(!is_allowed(333, &allowed));
}

#[test]
fn replies_cut_only_between_characters() {
    assert!(cut_falls_between_chars("short"));
    let wide = "é".repeat(2500);
    assert!(cut_falls_between_chars(&wide));
    let odd = format!("a{}", "é".repeat(2500));
    assert!(!cut_falls_between_chars(&odd));
    assert!(try_fit_reply(&odd).is_none());
    assert_eq!(try_fit_reply(&wide).unwrap(), format!("{}…\n\n_(truncated)_", "é".repeat(2000)));
}
