use aethos::crypto::CryptoService;
use aethos::error::ConfigError;
use aethos::paths::ConfigPaths;
use aethos::records::PreferencesUpdate;
use aethos::records::ProviderUpsertPayload;
use aethos::service::ConfigService;

const T1: &str = "2024-05-01 10:00:00";
const T2: &str = "2024-05-01 10:00:01";
const T3: &str = "2024-05-01 10:00:02";
const T4: &str = "2024-05-01 10:00:03";

fn service() -> ConfigService {
    let paths = ConfigPaths {
        base_dir: "/data".to_string(),
        db_path: "/data/aethos.db3".to_string(),
        key_path: "/data/master.key".to_string(),
    };
    ConfigService::new(paths, CryptoService::new([42u8; 32]).unwrap())
}

fn payload(provider: &str, display_name: &str, api_key: &str, make_default: bool) -> ProviderUpsertPayload {
    ProviderUpsertPayload {
        provider: provider.into(),
        display_name: display_name.into(),
        api_key: api_key.into(),
        default_model: None,
        make_default,
    }
}

fn defaults(service: &ConfigService) -> Vec<String> {
    service
        .list_providers()
        .unwrap()
        .into_iter()
        .filter(|p| p.is_default)
        .map(|p| p.provider)
        .collect()
}

#[test]
fn secret_roundtrip() {
    let mut service = service();
    service.set_setting("openai_key", "sk-test-secret", true, T1).unwrap();
    let value = service.get_setting("openai_key").unwrap();
    assert_eq!(value.unwrap(), "sk-test-secret");
}

#[test]
fn plain_setting_roundtrip() {
    let mut service = service();
    service.set_setting("language", "en", false, T1).unwrap();
    let value = service.get_setting("language").unwrap();
    assert_eq!(value.unwrap(), "en");
}

#[test]
fn provider_upsert_sets_default_when_first_entry() {
    let mut service = service();
    let result = service
        .upsert_provider(ProviderUpsertPayload {
            provider: "openai".into(),
            display_name: "OpenAI".into(),
            api_key: "sk-test".into(),
            default_model: Some("gpt-4o-mini".into()),
            make_default: false,
        })
        .unwrap();
    assert!(result.is_default);
}

#[test]
fn provider_switches_default_when_requested() {
    let mut service = service();
    service
        .upsert_provider(ProviderUpsertPayload {
            provider: "openai".into(),
            display_name: "OpenAI".into(),
            api_key: "sk-test".into(),
            default_model: None,
            make_default: true,
        })
        .unwrap();
    service
        .upsert_provider(ProviderUpsertPayload {
            provider: "anthropic".into(),
            display_name: "Anthropic".into(),
            api_key: "ak-test".into(),
            default_model: None,
            make_default: true,
        })
        .unwrap();

    let providers = service.list_providers().unwrap();
    let openai = providers.iter().find(|p| p.provider == "openai").unwrap();
    let anthropic = providers.iter().find(|p| p.provider == "anthropic").unwrap();
    assert!(!openai.is_default);
    assert!(anthropic.is_default);
}

#[test]
fn preferences_roundtrip() {
    let mut service = service();
    service
        .save_preferences(
            PreferencesUpdate {
                language: Some("zh-CN".into()),
                theme: Some("dark".into()),
                system_prompt: Some("You are Aethos".into()),
            },
            T1,
        )
        .unwrap();
    let prefs = service.get_preferences().unwrap();
    assert_eq!(prefs.language.as_deref(), Some("zh-CN"));
    assert_eq!(prefs.theme.as_deref(), Some("dark"));
    assert_eq!(prefs.system_prompt.as_deref(), Some("You are Aethos"));
}

#[test]
fn can_fetch_default_provider_credentials() {
    let mut service = service();
    service
        .upsert_provider(ProviderUpsertPayload {
            provider: "openai".into(),
            display_name: "OpenAI".into(),
            api_key: "sk-secret-123".into(),
            default_model: Some("gpt-4o-mini".into()),
            make_default: true,
        })
        .unwrap();

    let creds = service.default_provider_credentials().unwrap();
    assert_eq!(creds.provider, "openai");
    assert_eq!(creds.display_name, "OpenAI");
    assert_eq!(creds.default_model.as_deref(), Some("gpt-4o-mini"));
    assert_eq!(creds.api_key, "sk-secret-123");
}

#[test]
fn conversation_lifecycle_and_messages() {
    let mut service = service();
    let convo = service.create_conversation(Some("First chat".into()), T1).unwrap();
    assert_eq!(convo.title, "First chat");

    let renamed = service.rename_conversation(&convo.id, "Renamed chat", T1).unwrap();
    assert_eq!(renamed.title, "Renamed chat");

    let pinned = service.set_conversation_pin(&convo.id, true, T1).unwrap();
    assert!(pinned.pinned);

    service.record_message(&convo.id, "user", "Hello there", T1).unwrap();
    service.record_message(&convo.id, "assistant", "Hi!", T1).unwrap();

    let messages = service.get_conversation_messages(&convo.id, None).unwrap();
    assert_eq!(messages.len(), 2);
    assert_eq!(messages[0].role, "user");
    assert_eq!(messages[1].role, "assistant");

    service.delete_conversation(&convo.id).unwrap();
    let list = service.list_conversations().unwrap();
    assert!(list.is_empty());
}

#[test]
fn an_unknown_setting_is_absent() {
    let service = service();
    assert_eq!(service.get_setting("nothing").unwrap(), None);
    let prefs = service.get_preferences().unwrap();
    assert_eq!(prefs.language, None);
    assert_eq!(prefs.theme, None);
    assert_eq!(prefs.system_prompt, None);
}

#[test]
fn a_setting_is_replaced_under_its_key() {
    let mut service = service();
    service.set_setting("k", "one", false, T1).unwrap();
    service.set_setting("other", "x", false, T1).unwrap();
    service.set_setting("k", "two", true, T2).unwrap();
    assert_eq!(service.get_setting("k").unwrap().unwrap(), "two");
    assert_eq!(service.get_setting("other").unwrap().unwrap(), "x");
    service.set_setting("k", "three", false, T3).unwrap();
    assert_eq!(service.get_setting("k").unwrap().unwrap(), "three");
}

#[test]
fn a_stored_value_that_is_no_token_does_not_open() {
    let mut service = service();
    service.store_setting("k", "plain, not a token".to_string(), true, T1);
    assert!(matches!(service.get_setting("k"), Err(ConfigError::Encryption(_))));
    service.store_setting("ui.theme", "###".to_string(), true, T1);
    assert!(matches!(service.get_preferences(), Err(ConfigError::Encryption(_))));
}

#[test]
fn a_secret_is_kept_sealed() {
    let mut service = service();
    service.set_setting("k", "sk-plain", true, T1).unwrap();
    let cipher = CryptoService::new([42u8; 32]).unwrap();
    let other = CryptoService::new([43u8; 32]).unwrap();
    let token = service.crypto().encrypt("sk-plain").unwrap();
    assert_eq!(cipher.decrypt(&token).unwrap(), "sk-plain");
    assert!(other.decrypt(&token).is_err());
}

#[test]
fn absent_preferences_stay_as_they_are() {
    let mut service = service();
    service
        .save_preferences(
            PreferencesUpdate { language: Some("en".into()), theme: Some("dark".into()), system_prompt: None },
            T1,
        )
        .unwrap();
    service
        .save_preferences(PreferencesUpdate { language: None, theme: Some("light".into()), system_prompt: None }, T2)
        .unwrap();
    let prefs = service.get_preferences().unwrap();
    assert_eq!(prefs.language.as_deref(), Some("en"));
    assert_eq!(prefs.theme.as_deref(), Some("light"));
    assert_eq!(prefs.system_prompt, None);
    assert_eq!(service.get_setting("ui.language").unwrap().as_deref(), Some("en"));
    assert_eq!(service.get_setting("chat.systemPrompt").unwrap(), None);
}

#[test]
fn without_a_provider_there_is_no_credential() {
    let service = service();
    assert!(!service.has_any_provider().unwrap());
    assert!(matches!(service.default_provider_credentials(), Err(ConfigError::MissingDefaultProvider)));
    assert!(service.list_providers().unwrap().is_empty());
}

#[test]
fn only_the_first_of_many_upserts_is_the_default() {
    let mut service = service();
    service.upsert_provider(payload("openai", "OpenAI", "k1", true)).unwrap();
    for i in 0..5 {
        service.upsert_provider(payload(&format!("p{i}"), &format!("P{i}"), "k", false)).unwrap();
        assert_eq!(defaults(&service), vec!["openai".to_string()]);
    }
    assert!(service.has_any_provider().unwrap());
    assert_eq!(service.list_providers().unwrap().len(), 6);
}

#[test]
fn set_default_marks_exactly_that_provider() {
    let mut service = service();
    service.upsert_provider(payload("openai", "OpenAI", "k1", false)).unwrap();
    service.upsert_provider(payload("anthropic", "Anthropic", "k2", false)).unwrap();
    service.upsert_provider(payload("mistral", "Mistral", "k3", false)).unwrap();
    service.set_default_provider("mistral").unwrap();
    assert_eq!(defaults(&service), vec!["mistral".to_string()]);
    service.set_default_provider("anthropic").unwrap();
    assert_eq!(defaults(&service), vec!["anthropic".to_string()]);
    assert_eq!(service.default_provider_credentials().unwrap().api_key, "k2");
}

#[test]
fn an_unknown_default_leaves_none_and_the_first_row_is_used() {
    let mut service = service();
    service.upsert_provider(payload("openai", "OpenAI", "k1", false)).unwrap();
    service.upsert_provider(payload("anthropic", "Anthropic", "k2", true)).unwrap();
    service.set_default_provider("nobody").unwrap();
    assert!(defaults(&service).is_empty());
    let credential = service.default_provider_credentials().unwrap();
    assert_eq!(credential.provider, "openai");
    assert_eq!(credential.api_key, "k1");
    service.upsert_provider(payload("mistral", "Mistral", "k3", false)).unwrap();
    assert!(defaults(&service).is_empty());
    service.upsert_provider(payload("mistral", "Mistral", "k3", true)).unwrap();
    assert_eq!(defaults(&service), vec!["mistral".to_string()]);
}

#[test]
fn an_update_keeps_the_id_and_does_not_take_the_default_away() {
    let mut service = service();
    let first = service.upsert_provider(payload("openai", "OpenAI", "k1", false)).unwrap();
    let second = service.upsert_provider(payload("anthropic", "Anthropic", "k2", false)).unwrap();
    assert_eq!(first.id, 1);
    assert_eq!(second.id, 2);
    assert!(first.is_default);
    assert!(!second.is_default);
    assert!(first.has_api_key);

    let updated = service
        .upsert_provider(ProviderUpsertPayload {
            provider: "openai".into(),
            display_name: "OpenAI (work)".into(),
            api_key: "k1-new".into(),
            default_model: Some("gpt-4o".into()),
            make_default: false,
        })
        .unwrap();
    assert_eq!(updated.id, 1);
    assert_eq!(updated.display_name, "OpenAI (work)");
    assert_eq!(updated.default_model.as_deref(), Some("gpt-4o"));
    assert!(updated.is_default);
    assert_eq!(service.list_providers().unwrap().len(), 2);
    let credential = service.default_provider_credentials().unwrap();
    assert_eq!(credential.api_key, "k1-new");
    assert_eq!(credential.display_name, "OpenAI (work)");

    let third = service.upsert_provider(payload("mistral", "Mistral", "k3", false)).unwrap();
    assert_eq!(third.id, 3);
}

#[test]
fn providers_are_listed_by_display_name() {
    let mut service = service();
    service.upsert_provider(payload("c", "beta", "k", false)).unwrap();
    service.upsert_provider(payload("a", "Zeta", "k", false)).unwrap();
    service.upsert_provider(payload("b", "Alpha", "k", false)).unwrap();
    service.upsert_provider(payload("d", "Alpha", "k", false)).unwrap();
    let names: Vec<(String, String)> =
        service.list_providers().unwrap().into_iter().map(|p| (p.display_name, p.provider)).collect();
    assert_eq!(
        names,
        vec![
            ("Alpha".to_string(), "b".to_string()),
            ("Alpha".to_string(), "d".to_string()),
            ("Zeta".to_string(), "a".to_string()),
            ("beta".to_string(), "c".to_string()),
        ]
    );
}

#[test]
fn an_empty_key_shows_as_no_key() {
    let mut service = service();
    let summary = service.upsert_sealed_provider(payload("local", "Local", "", false), String::new()).unwrap();
    assert!(!summary.has_api_key);
    assert!(matches!(service.default_provider_credentials(), Err(ConfigError::Encryption(_))));
}

#[test]
fn a_new_conversation_has_the_default_title_and_a_fresh_id() {
    let mut service = service();
    let first = service.create_conversation(None, T1).unwrap();
    let second = service.create_conversation(None, T1).unwrap();
    assert_eq!(first.title, "New chat");
    assert!(!first.pinned);
    assert_eq!(first.last_message_preview, None);
    assert_eq!(first.last_message_at, None);
    assert_eq!(first.created_at, T1);
    assert_eq!(first.updated_at, T1);
    assert_eq!(first.id.len(), 21);
    assert!(first.id.chars().all(|c| c.is_ascii_alphanumeric()));
    assert_ne!(first.id, second.id);
    assert_eq!(service.get_conversation(&first.id).unwrap().title, "New chat");
}

#[test]
fn a_taken_conversation_id_is_refused() {
    let mut service = service();
    service.insert_conversation("c1".into(), None, T1).unwrap();
    match service.insert_conversation("c1".into(), Some("again".into()), T2) {
        Err(ConfigError::Database(words)) => assert_eq!(words, "UNIQUE constraint failed: conversations.id"),
        _ => panic!("a second conversation took the id"),
    }
    assert_eq!(service.list_conversations().unwrap().len(), 1);
    assert_eq!(service.get_conversation("c1").unwrap().title, "New chat");
}

#[test]
fn a_missing_conversation_is_a_row_that_is_not_there() {
    let mut service = service();
    let words = "no rows returned by a query that expected to return at least one row";
    assert!(matches!(service.get_conversation("x"), Err(ConfigError::Database(w)) if w == words));
    assert!(matches!(service.rename_conversation("x", "t", T1), Err(ConfigError::Database(w)) if w == words));
    assert!(matches!(service.set_conversation_pin("x", true, T1), Err(ConfigError::Database(w)) if w == words));
    service.delete_conversation("x").unwrap();
}

#[test]
fn recording_a_message_updates_its_conversation_in_the_same_step() {
    let mut service = service();
    service.insert_conversation("c1".into(), None, T1).unwrap();
    service.insert_conversation("c2".into(), None, T1).unwrap();
    let message = service.record_message("c1", "user", "Hello there", T2).unwrap();
    assert_eq!(message.conversation_id, "c1");
    assert_eq!(message.role, "user");
    assert_eq!(message.content, "Hello there");
    assert_eq!(message.created_at, T2);
    assert_eq!(message.id.len(), 21);

    let row = service.get_conversation("c1").unwrap();
    assert_eq!(row.last_message_preview.as_deref(), Some("Hello there"));
    assert_eq!(row.last_message_at.as_deref(), Some(T2));
    assert_eq!(row.updated_at, T2);
    assert_eq!(row.created_at, T1);
    let other = service.get_conversation("c2").unwrap();
    assert_eq!(other.last_message_preview, None);
    assert_eq!(other.last_message_at, None);
    assert_eq!(other.updated_at, T1);
}

#[test]
fn a_refused_message_changes_nothing() {
    let mut service = service();
    service.insert_conversation("c1".into(), None, T1).unwrap();
    service.insert_message("m1".into(), "c1", "user", "first", T2).unwrap();

    match service.record_message("nowhere", "user", "lost", T3) {
        Err(ConfigError::Database(words)) => assert_eq!(words, "FOREIGN KEY constraint failed"),
        _ => panic!("a message was recorded without a conversation"),
    }
    match service.record_message("c1", "system", "odd", T3) {
        Err(ConfigError::Database(words)) => assert_eq!(words, "CHECK constraint failed: role"),
        _ => panic!("a message was recorded under an unknown role"),
    }
    match service.insert_message("m1".into(), "c1", "assistant", "twice", T3) {
        Err(ConfigError::Database(words)) => assert_eq!(words, "UNIQUE constraint failed: messages.id"),
        _ => panic!("a second message took the id"),
    }
    let row = service.get_conversation("c1").unwrap();
    assert_eq!(row.last_message_preview.as_deref(), Some("first"));
    assert_eq!(row.last_message_at.as_deref(), Some(T2));
    assert_eq!(row.updated_at, T2);
    assert_eq!(service.get_conversation_messages("c1", None).unwrap().len(), 1);
    assert!(service.get_conversation_messages("nowhere", None).unwrap().is_empty());
}

#[test]
fn the_preview_is_the_first_200_characters() {
    let mut service = service();
    service.insert_conversation("c1".into(), None, T1).unwrap();
    let content: String = "é".repeat(150) + &"鍵".repeat(100);
    service.record_message("c1", "assistant", &content, T2).unwrap();
    let preview = service.get_conversation("c1").unwrap().last_message_preview.unwrap();
    assert_eq!(preview.chars().count(), 200);
    assert_eq!(preview, "é".repeat(150) + &"鍵".repeat(50));
    service.record_message("c1", "user", "short", T3).unwrap();
    assert_eq!(service.get_conversation("c1").unwrap().last_message_preview.as_deref(), Some("short"));
}

#[test]
fn deleting_a_conversation_takes_its_messages_along() {
    let mut service = service();
    service.insert_conversation("c1".into(), None, T1).unwrap();
    service.insert_conversation("c2".into(), None, T1).unwrap();
    service.record_message("c1", "user", "a", T2).unwrap();
    service.record_message("c2", "user", "b", T2).unwrap();
    service.record_message("c1", "assistant", "c", T3).unwrap();
    service.delete_conversation("c1").unwrap();
    assert!(service.get_conversation("c1").is_err());
    assert!(service.get_conversation_messages("c1", None).unwrap().is_empty());
    let kept = service.get_conversation_messages("c2", None).unwrap();
    assert_eq!(kept.len(), 1);
    assert_eq!(kept[0].content, "b");
    service.insert_conversation("c1".into(), None, T4).unwrap();
    assert!(service.get_conversation_messages("c1", None).unwrap().is_empty());
}

#[test]
fn conversations_are_listed_pinned_first_then_by_latest_activity() {
    let mut service = service();
    service.insert_conversation("old".into(), None, T1).unwrap();
    service.insert_conversation("quiet".into(), None, T2).unwrap();
    service.insert_conversation("pinned".into(), None, T1).unwrap();
    service.insert_conversation("busy".into(), None, T1).unwrap();
    service.insert_conversation("twin".into(), None, T2).unwrap();
    service.record_message("busy", "user", "hi", T4).unwrap();
    service.record_message("old", "user", "hi", T3).unwrap();
    service.set_conversation_pin("pinned", true, T1).unwrap();
    let order: Vec<String> = service.list_conversations().unwrap().into_iter().map(|c| c.id).collect();
    assert_eq!(order, vec!["pinned", "busy", "old", "quiet", "twin"]);

    service.set_conversation_pin("old", true, T4).unwrap();
    let order: Vec<String> = service.list_conversations().unwrap().into_iter().map(|c| c.id).collect();
    assert_eq!(order, vec!["old", "pinned", "busy", "quiet", "twin"]);

    service.set_conversation_pin("pinned", false, T2).unwrap();
    let order: Vec<String> = service.list_conversations().unwrap().into_iter().map(|c| c.id).collect();
    assert_eq!(order, vec!["old", "busy", "quiet", "twin", "pinned"]);
}

#[test]
fn equal_activity_is_listed_by_latest_creation() {
    let mut service = service();
    service.insert_conversation("a".into(), None, T1).unwrap();
    service.insert_conversation("b".into(), None, T2).unwrap();
    service.insert_conversation("c".into(), None, T3).unwrap();
    service.rename_conversation("a", "A", T4).unwrap();
    service.rename_conversation("b", "B", T4).unwrap();
    service.rename_conversation("c", "C", T4).unwrap();
    let order: Vec<String> = service.list_conversations().unwrap().into_iter().map(|c| c.id).collect();
    assert_eq!(order, vec!["c", "b", "a"]);
}

#[test]
fn messages_are_listed_oldest_first_and_limited() {
    let mut service = service();
    service.insert_conversation("c1".into(), None, T1).unwrap();
    service.insert_conversation("c2".into(), None, T1).unwrap();
    service.insert_message("m3".into(), "c1", "user", "third", T3).unwrap();
    service.insert_message("m1".into(), "c1", "user", "first", T1).unwrap();
    service.insert_message("x".into(), "c2", "user", "elsewhere", T1).unwrap();
    service.insert_message("m2a".into(), "c1", "user", "second", T2).unwrap();
    service.insert_message("m2b".into(), "c1", "assistant", "second too", T2).unwrap();
    let contents = |limit: Option<i64>, service: &ConfigService| -> Vec<String> {
        service.get_conversation_messages("c1", limit).unwrap().into_iter().map(|m| m.content).collect()
    };
    assert_eq!(contents(None, &service), vec!["first", "second", "second too", "third"]);
    assert_eq!(contents(Some(2), &service), vec!["first", "second"]);
    assert_eq!(contents(Some(0), &service), Vec::<String>::new());
    assert_eq!(contents(Some(4), &service), vec!["first", "second", "second too", "third"]);
    assert_eq!(contents(Some(100), &service), vec!["first", "second", "second too", "third"]);
    assert_eq!(contents(Some(-1), &service), vec!["first", "second", "second too", "third"]);
}

#[test]
fn the_store_keeps_its_paths() {
    let service = service();
    assert_eq!(service.paths().key_path, "/data/master.key");
    assert_eq!(service.paths().db_path, "/data/aethos.db3");
    assert_eq!(service.paths().base_dir, "/data");
    assert_eq!(service.paths().duplicate().base_dir, "/data");
}
