use ai_translate::app_state::{AppState, PersistedAppConfig, PersistedProviderConfig};
use ai_translate::config::{ConfigError, ProviderConfig, RuntimeSettings};
use ai_translate::popup::PopupPayload;

fn custom(id: &str, key: Option<&str>) -> ProviderConfig {
    ProviderConfig {
        id: id.to_string(),
        name: format!("{} name", id),
        protocol: "openai".to_string(),
        base_url: "https://example.com/".to_string(),
        model: "m".to_string(),
        agent_prompt: String::new(),
        api_key: key.map(|k| k.to_string()),
    }
}

fn persisted(id: &str, name: &str) -> PersistedProviderConfig {
    PersistedProviderConfig {
        id: id.to_string(),
        name: name.to_string(),
        protocol: "openai".to_string(),
        base_url: "https://p.example".to_string(),
        model: "pm".to_string(),
        agent_prompt: "prompt".to_string(),
    }
}

#[test]
fn fresh_state() {
    let state = AppState::new();
    assert_eq!(state.provider_config().id, "mymemory");
    let view = state.provider_state_view();
    assert_eq!(view.active_provider_id, "mymemory");
    assert_eq!(view.providers.len(), 2);
    assert_eq!(view.providers[1].id, "deepseek");
    assert!(!view.providers[1].api_key_configured);
    assert_eq!(state.settings().shortcut, "Alt+D");
    assert!(state.popup_payload().is_none());
}

#[test]
fn debounce_refuses_quick_repeats() {
    let mut state = AppState::new();
    assert!(state.should_accept_trigger(1_000, 200));
    assert!(!state.should_accept_trigger(1_000, 200));
    assert!(!state.should_accept_trigger(1_199, 200));
    assert!(state.should_accept_trigger(1_200, 200));
    assert!(!state.should_accept_trigger(500, 200));
    assert!(state.should_accept_trigger(500, 0));
}

#[test]
fn set_active_provider_trims_and_checks() {
    let mut state = AppState::new();
    let view = state.set_active_provider(" deepseek ".to_string()).unwrap();
    assert_eq!(view.active_provider_id, "deepseek");
    assert_eq!(state.provider_config().id, "deepseek");
    let err = state.set_active_provider("nope".to_string()).unwrap_err();
    assert_eq!(err, ConfigError::ProviderNotFound);
    assert_eq!(state.provider_config().id, "deepseek");
}

#[test]
fn deepseek_needs_only_a_key() {
    let mut state = AppState::new();
    let mut deepseek = state.provider_state_view().providers[1].clone_for_edit();
    deepseek.api_key = Some("sk-test".to_string());
    let view = state.save_provider_config(deepseek).unwrap();
    assert!(view.providers[1].api_key_configured);
    state.set_active_provider("deepseek".to_string()).unwrap();
    let config = state.provider_config();
    assert_eq!(config.api_key.as_deref(), Some("sk-test"));
    assert_eq!(config.base_url, "https://api.deepseek.com");
}

trait CloneForEdit {
    fn clone_for_edit(&self) -> ProviderConfig;
}

impl CloneForEdit for ai_translate::config::ProviderConfigView {
    fn clone_for_edit(&self) -> ProviderConfig {
        ProviderConfig {
            id: self.id.clone(),
            name: self.name.clone(),
            protocol: self.protocol.clone(),
            base_url: self.base_url.clone(),
            model: self.model.clone(),
            agent_prompt: self.agent_prompt.clone(),
            api_key: None,
        }
    }
}

#[test]
fn saving_a_chat_provider_without_key_is_refused() {
    let mut state = AppState::new();
    assert_eq!(state.save_provider_config(custom("c1", None)).unwrap_err(), ConfigError::ApiKeyRequired);
    assert_eq!(state.provider_state_view().providers.len(), 2);
}

#[test]
fn saving_a_new_provider_appends_it() {
    let mut state = AppState::new();
    let view = state.save_provider_config(custom("c1", Some(" k1 "))).unwrap();
    assert_eq!(view.providers.len(), 3);
    assert_eq!(view.providers[2].id, "c1");
    assert_eq!(view.providers[2].base_url, "https://example.com");
    assert!(view.providers[2].api_key_configured);
}

#[test]
fn saving_without_key_keeps_the_stored_key() {
    let mut state = AppState::new();
    state.save_provider_config(custom("c1", Some("k1"))).unwrap();
    let mut edited = custom("c1", None);
    edited.model = "m2".to_string();
    let view = state.save_provider_config(edited).unwrap();
    assert_eq!(view.providers.len(), 3);
    state.set_active_provider("c1".to_string()).unwrap();
    let c = state.provider_config();
    assert_eq!(c.model, "m2");
    assert_eq!(c.api_key.as_deref(), Some("k1"));
}

#[test]
fn check_then_commit_is_save() {
    let mut state = AppState::new();
    let checked = state.check_provider_config(custom(" c2 ", Some("k"))).unwrap();
    assert_eq!(checked.id, "c2");
    let view = state.commit_provider_config(checked);
    assert_eq!(view.providers[2].id, "c2");
}

#[test]
fn update_settings_then_read() {
    let mut state = AppState::new();
    let chosen = RuntimeSettings {
        shortcut: "Ctrl+E".to_string(),
        main_shortcut: "Shift+Q".to_string(),
        startup_mode: "tray".to_string(),
        theme: "light".to_string(),
    };
    let saved = state.update_settings(chosen).unwrap();
    assert_eq!(saved.shortcut, "Ctrl+E");
    let read = state.settings();
    assert_eq!(read.main_shortcut, "Shift+Q");
    assert_eq!(read.startup_mode, "tray");
    assert_eq!(read.theme, "light");
    let bad = RuntimeSettings { theme: "blue".to_string(), ..state.settings() };
    assert_eq!(state.update_settings(bad).unwrap_err(), ConfigError::UnsupportedTheme);
    assert_eq!(state.settings().theme, "light");
}

#[test]
fn popup_payload_is_kept() {
    let mut state = AppState::new();
    state.set_popup_payload(PopupPayload::selection_error("msg".to_string(), "Alt+D".to_string()));
    let p = state.popup_payload().unwrap();
    assert_eq!(p.target, "msg");
    assert_eq!(p.provider, "selection");
    assert_eq!(p.shortcut.as_deref(), Some("Alt+D"));
}

#[test]
fn persisted_config_reads_back() {
    let mut state = AppState::new();
    state.save_provider_config(custom("c1", Some("k1"))).unwrap();
    state.set_active_provider("c1".to_string()).unwrap();
    let chosen = RuntimeSettings {
        shortcut: "Ctrl+E".to_string(),
        main_shortcut: "Shift+Q".to_string(),
        startup_mode: "tray".to_string(),
        theme: "compact".to_string(),
    };
    state.update_settings(chosen).unwrap();
    let file = state.persisted_config();
    assert_eq!(file.providers.len(), 3);
    let mut fresh = AppState::new();
    fresh.load_config(file);
    let view = fresh.provider_state_view();
    assert_eq!(view.active_provider_id, "c1");
    assert_eq!(view.providers.len(), 3);
    assert_eq!(view.providers[2].model, "m");
    assert!(!view.providers[2].api_key_configured);
    assert_eq!(fresh.settings().theme, "compact");
    assert_eq!(fresh.settings().shortcut, "Ctrl+E");
}

#[test]
fn load_config_merges_and_falls_back() {
    let mut state = AppState::new();
    let file = PersistedAppConfig {
        active_provider_id: "gone".to_string(),
        settings: RuntimeSettings {
            shortcut: "Alt+Q".to_string(),
            main_shortcut: String::new(),
            startup_mode: "tray".to_string(),
            theme: "neon".to_string(),
        },
        providers: vec![persisted("extra", "Extra"), persisted("deepseek", "DS2"), persisted("extra", "Extra2")],
    };
    state.load_config(file);
    let view = state.provider_state_view();
    assert_eq!(view.active_provider_id, "mymemory");
    assert_eq!(view.providers.len(), 3);
    assert_eq!(view.providers[0].id, "mymemory");
    assert_eq!(view.providers[1].name, "DS2");
    assert_eq!(view.providers[2].name, "Extra2");
    let s = state.settings();
    assert_eq!(s.shortcut, "Alt+D");
    assert_eq!(s.main_shortcut, "Ctrl+D");
    assert_eq!(s.startup_mode, "tray");
    assert_eq!(s.theme, "dark");
}

#[test]
fn keys_are_read_and_written_apart() {
    let mut state = AppState::new();
    let requests = state.key_requests();
    assert_eq!(requests, vec![None, Some("deepseek".to_string())]);
    state.hydrate_provider_keys(vec![Some("ignored".to_string()), Some("dk".to_string())]);
    assert!(state.provider_state_view().providers[1].api_key_configured);
    assert!(!state.provider_state_view().providers[0].api_key_configured);
    state.save_provider_config(custom("c1", Some(" k1 "))).unwrap();
    assert_eq!(
        state.keys_to_persist(),
        vec![("deepseek".to_string(), "dk".to_string()), ("c1".to_string(), "k1".to_string())]
    );
}

#[test]
fn persisted_provider_conversions() {
    let p = custom("c1", Some("k"));
    let q = PersistedProviderConfig::from_provider(&p);
    assert_eq!(q.id, "c1");
    let back = q.into_provider();
    assert_eq!(back.base_url, "https://example.com/");
    assert!(back.api_key.is_none());
}

#[test]
fn configuration_and_keys_reload_together() {
    let mut state = AppState::new();
    state.save_provider_config(custom("c1", Some(" k1 "))).unwrap();
    let mut deepseek = custom("deepseek", Some("dk"));
    deepseek.name = "DeepSeek".to_string();
    state.save_provider_config(deepseek).unwrap();
    state.set_active_provider("c1".to_string()).unwrap();

    let mut store = std::collections::HashMap::new();
    for (id, key) in state.keys_to_persist() {
        store.insert(id, key);
    }
    let file = state.persisted_config();

    let mut reloaded = AppState::new();
    reloaded.load_config(file);
    let keys: Vec<Option<String>> = reloaded
        .key_requests()
        .into_iter()
        .map(|request| request.and_then(|id| store.get(&id).cloned()))
        .collect();
    reloaded.hydrate_provider_keys(keys);

    assert_eq!(reloaded.provider_config().api_key.as_deref(), Some("k1"));
    reloaded.set_active_provider("deepseek".to_string()).unwrap();
    assert_eq!(reloaded.provider_config().api_key.as_deref(), Some("dk"));
    let a = format!("{:?}", state.provider_state_view().providers);
    let b = format!("{:?}", reloaded.provider_state_view().providers);
    assert_eq!(a, b);
}
