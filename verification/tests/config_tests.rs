use ai_translate::config::{
    check_settings, clean_key, default_agent_prompt, default_main_shortcut, default_providers,
    default_selection_shortcut, default_theme, migrate_runtime_settings, normalize_provider_config,
    provider_key_account, provider_view, ConfigError, ProviderConfig, RuntimeSettings,
    KEYRING_SERVICE,
};

fn provider(id: &str, name: &str, protocol: &str, base_url: &str, model: &str) -> ProviderConfig {
    ProviderConfig {
        id: id.to_string(),
        name: name.to_string(),
        protocol: protocol.to_string(),
        base_url: base_url.to_string(),
        model: model.to_string(),
        agent_prompt: String::new(),
        api_key: None,
    }
}

fn settings(shortcut: &str, main_shortcut: &str, startup_mode: &str, theme: &str) -> RuntimeSettings {
    RuntimeSettings {
        shortcut: shortcut.to_string(),
        main_shortcut: main_shortcut.to_string(),
        startup_mode: startup_mode.to_string(),
        theme: theme.to_string(),
    }
}

#[test]
fn default_provider_is_mymemory() {
    let p = ProviderConfig::default();
    assert_eq!(p.id, "mymemory");
    assert_eq!(p.name, "MyMemory 公共接口");
    assert_eq!(p.protocol, "mymemory");
    assert_eq!(p.base_url, "");
    assert_eq!(p.model, "");
    assert_eq!(p.agent_prompt, default_agent_prompt());
    assert!(p.api_key.is_none());
}

#[test]
fn default_providers_are_mymemory_then_deepseek() {
    let ps = default_providers();
    assert_eq!(ps.len(), 2);
    assert_eq!(ps[0].id, "mymemory");
    assert_eq!(ps[1].id, "deepseek");
    assert_eq!(ps[1].name, "DeepSeek");
    assert_eq!(ps[1].protocol, "openai");
    assert_eq!(ps[1].base_url, "https://api.deepseek.com");
    assert_eq!(ps[1].model, "deepseek-v4-flash");
    assert!(ps[1].api_key.is_none());
}

#[test]
fn default_prompt_asks_for_the_translation_only() {
    let prompt = default_agent_prompt();
    assert!(prompt.starts_with("You are a professional translation engine."));
    assert!(prompt.ends_with("Return only the translated text."));
}

#[test]
fn default_settings() {
    let s = RuntimeSettings::default();
    assert_eq!(s.shortcut, "Alt+D");
    assert_eq!(s.main_shortcut, "Ctrl+D");
    assert_eq!(s.startup_mode, "main");
    assert_eq!(s.theme, "dark");
    assert_eq!(default_selection_shortcut(), "Alt+D");
    assert_eq!(default_main_shortcut(), "Ctrl+D");
    assert_eq!(default_theme(), "dark");
    assert!(check_settings(&s).is_ok());
}

#[test]
fn normalize_trims_every_field() {
    let mut p = provider("  custom ", " My AI ", " openai ", " https://x.example/v1/// ", " m1 ");
    p.agent_prompt = "  Be brief.  ".to_string();
    p.api_key = Some("  sk-1  ".to_string());
    let n = normalize_provider_config(p).unwrap();
    assert_eq!(n.id, "custom");
    assert_eq!(n.name, "My AI");
    assert_eq!(n.protocol, "openai");
    assert_eq!(n.base_url, "https://x.example/v1");
    assert_eq!(n.model, "m1");
    assert_eq!(n.agent_prompt, "Be brief.");
    assert_eq!(n.api_key.as_deref(), Some("sk-1"));
}

#[test]
fn normalize_fills_blank_prompt_and_drops_blank_key() {
    let mut p = provider("mm", "Mem", "mymemory", "", "");
    p.agent_prompt = "   ".to_string();
    p.api_key = Some("   ".to_string());
    let n = normalize_provider_config(p).unwrap();
    assert_eq!(n.agent_prompt, default_agent_prompt());
    assert!(n.api_key.is_none());
}

#[test]
fn normalize_errors_in_order() {
    assert_eq!(normalize_provider_config(provider(" ", "", "x", "", "")).unwrap_err(), ConfigError::ProviderIdRequired);
    assert_eq!(normalize_provider_config(provider("a", " ", "x", "", "")).unwrap_err(), ConfigError::ProviderNameRequired);
    assert_eq!(normalize_provider_config(provider("a", "b", "x", "", "")).unwrap_err(), ConfigError::UnsupportedProtocol);
    assert_eq!(normalize_provider_config(provider("a", "b", "openai", "///", "m")).unwrap_err(), ConfigError::BaseUrlRequired);
    assert_eq!(normalize_provider_config(provider("a", "b", "anthropic", "u", " ")).unwrap_err(), ConfigError::ModelRequired);
    assert!(normalize_provider_config(provider("a", "b", "mymemory", "", "")).is_ok());
}

#[test]
fn normalize_is_stable_on_its_output() {
    let mut p = provider(" x ", " y ", "anthropic", "https://api.example.com//", " model-x ");
    p.api_key = Some(" k ".to_string());
    let once = normalize_provider_config(p).unwrap();
    let twice = normalize_provider_config(once.clone()).unwrap();
    assert_eq!(format!("{:?}", once), format!("{:?}", twice));
}

#[test]
fn normalize_keeps_space_uncovered_by_trailing_slashes() {
    let n = normalize_provider_config(provider("a", "b", "openai", "x /", "m")).unwrap();
    assert_eq!(n.base_url, "x ");
}

#[test]
fn config_error_messages() {
    assert_eq!(ConfigError::ProviderIdRequired.message(), "provider id is required");
    assert_eq!(ConfigError::ProviderNameRequired.message(), "provider name is required");
    assert_eq!(ConfigError::UnsupportedProtocol.message(), "unsupported provider protocol");
    assert_eq!(ConfigError::BaseUrlRequired.message(), "base url is required");
    assert_eq!(ConfigError::ModelRequired.message(), "model is required");
    assert_eq!(ConfigError::ApiKeyRequired.message(), "api key is required");
    assert_eq!(ConfigError::ProviderNotFound.message(), "provider not found");
    assert_eq!(ConfigError::ShortcutRequired.message(), "shortcut is required");
    assert_eq!(ConfigError::MainShortcutRequired.message(), "main window shortcut is required");
    assert_eq!(
        ConfigError::SameShortcuts.message(),
        "translate shortcut and main window shortcut cannot be the same"
    );
    assert_eq!(ConfigError::UnsupportedStartupMode.message(), "unsupported startup mode");
    assert_eq!(ConfigError::UnsupportedTheme.message(), "unsupported theme");
}

#[test]
fn migrate_replaces_retired_and_blank_values() {
    let m = migrate_runtime_settings(settings(" alt+q ", "  ", "tray", "neon"));
    assert_eq!(m.shortcut, "Alt+D");
    assert_eq!(m.main_shortcut, "Ctrl+D");
    assert_eq!(m.startup_mode, "tray");
    assert_eq!(m.theme, "dark");
    let m = migrate_runtime_settings(settings("", "Ctrl+E", "main", "compact"));
    assert_eq!(m.shortcut, "Alt+D");
    assert_eq!(m.main_shortcut, "Ctrl+E");
    assert_eq!(m.theme, "compact");
}

#[test]
fn migrate_keeps_valid_settings_and_is_stable() {
    let s = settings("Shift+Q", "Ctrl+E", "tray", "light");
    let m = migrate_runtime_settings(s.clone());
    assert_eq!(format!("{:?}", m), format!("{:?}", s));
    let again = migrate_runtime_settings(m.clone());
    assert_eq!(format!("{:?}", again), format!("{:?}", m));
}

#[test]
fn check_settings_errors() {
    assert_eq!(check_settings(&settings(" ", "Ctrl+D", "main", "dark")), Err(ConfigError::ShortcutRequired));
    assert_eq!(check_settings(&settings("Alt+D", "", "main", "dark")), Err(ConfigError::MainShortcutRequired));
    assert_eq!(check_settings(&settings("Alt+D", "Alt+D", "main", "dark")), Err(ConfigError::SameShortcuts));
    assert_eq!(check_settings(&settings("Alt+D", "Ctrl+D", "hidden", "dark")), Err(ConfigError::UnsupportedStartupMode));
    assert_eq!(check_settings(&settings("Alt+D", "Ctrl+D", "tray", "blue")), Err(ConfigError::UnsupportedTheme));
    assert_eq!(check_settings(&settings("Alt+D", "Ctrl+D", "tray", "compact")), Ok(()));
}

#[test]
fn provider_view_hides_the_key() {
    let mut p = provider("a", "b", "openai", "u", "m");
    assert!(!provider_view(&p).api_key_configured);
    p.api_key = Some("  ".to_string());
    assert!(!provider_view(&p).api_key_configured);
    p.api_key = Some("k".to_string());
    let v = provider_view(&p);
    assert!(v.api_key_configured);
    assert_eq!(v.id, "a");
    assert_eq!(v.base_url, "u");
}

#[test]
fn key_store_names() {
    assert_eq!(KEYRING_SERVICE, "ai-translate");
    assert_eq!(provider_key_account("deepseek"), "provider:deepseek:api-key");
    assert_eq!(clean_key(Some(" k \n".to_string())).as_deref(), Some("k"));
    assert_eq!(clean_key(Some(" \n".to_string())), None);
    assert_eq!(clean_key(None), None);
}
