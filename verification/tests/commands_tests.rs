use ai_translate::app_state::AppState;
use ai_translate::commands::{
    app_status, autostart_already_off, normalize_settings_form, parse_window_action,
    shows_main_window_on_start, text_to_copy, tray_menu_action, CommandError, TrayAction,
    WindowAction,
};
use ai_translate::config::{ProviderConfig, RuntimeSettings};
use ai_translate::popup::PopupPayload;
use ai_translate::shortcut::ShortcutError;
use ai_translate::translation::TranslationPayload;

#[test]
fn status_of_a_fresh_state() {
    let state = AppState::new();
    let s = app_status(true, &state);
    assert!(s.autostart_enabled);
    assert_eq!(s.shortcut, "Alt+D");
    assert_eq!(s.main_shortcut, "Ctrl+D");
    assert_eq!(s.startup_mode, "main");
    assert_eq!(s.theme, "dark");
    assert_eq!(s.provider, "MyMemory 公共接口");
    assert!(!s.ai_configured);
}

#[test]
fn status_reports_a_configured_key() {
    let mut state = AppState::new();
    let deepseek = ProviderConfig {
        id: "deepseek".to_string(),
        name: "DeepSeek".to_string(),
        protocol: "openai".to_string(),
        base_url: "https://api.deepseek.com".to_string(),
        model: "deepseek-v4-flash".to_string(),
        agent_prompt: String::new(),
        api_key: Some("k".to_string()),
    };
    state.save_provider_config(deepseek).unwrap();
    state.set_active_provider("deepseek".to_string()).unwrap();
    let s = app_status(false, &state);
    assert_eq!(s.provider, "DeepSeek");
    assert!(s.ai_configured);
}

#[test]
fn window_actions() {
    assert_eq!(parse_window_action("minimize"), Ok(WindowAction::Minimize));
    assert_eq!(parse_window_action("toggleMaximize"), Ok(WindowAction::ToggleMaximize));
    assert_eq!(parse_window_action("close"), Ok(WindowAction::Close));
    assert_eq!(parse_window_action("Close"), Err(CommandError::UnsupportedWindowAction));
    assert_eq!(CommandError::UnsupportedWindowAction.message(), "unsupported window action");
}

#[test]
fn copying_trims_and_refuses_blank() {
    assert_eq!(text_to_copy("  译文 \n").unwrap(), "译文");
    assert_eq!(text_to_copy("   "), Err(CommandError::NothingToCopy));
    assert_eq!(CommandError::NothingToCopy.message(), "没有可复制的译文");
}

#[test]
fn autostart_missing_entry_is_not_an_error() {
    assert!(autostart_already_off("No such file or directory (os error 2)"));
    assert!(autostart_already_off("系统找不到指定的文件。"));
    assert!(!autostart_already_off("permission denied (os error 13)"));
}

#[test]
fn settings_form_is_normalized() {
    let form = RuntimeSettings {
        shortcut: "alt+d".to_string(),
        main_shortcut: "shift+ctrl+e".to_string(),
        startup_mode: "tray".to_string(),
        theme: "light".to_string(),
    };
    let n = normalize_settings_form(form).unwrap();
    assert_eq!(n.shortcut, "Alt+D");
    assert_eq!(n.main_shortcut, "Ctrl+Shift+E");
    assert_eq!(n.startup_mode, "tray");
    let bad = RuntimeSettings { shortcut: "d".to_string(), ..n.clone() };
    assert_eq!(normalize_settings_form(bad).unwrap_err(), ShortcutError::MissingModifier);
}

#[test]
fn start_up_and_tray() {
    assert!(shows_main_window_on_start(&RuntimeSettings::default()));
    let tray = RuntimeSettings { startup_mode: "tray".to_string(), ..RuntimeSettings::default() };
    assert!(!shows_main_window_on_start(&tray));
    assert_eq!(tray_menu_action("show_main"), Some(TrayAction::ShowMain));
    assert_eq!(tray_menu_action("hide_popup"), Some(TrayAction::HidePopup));
    assert_eq!(tray_menu_action("quit"), Some(TrayAction::Quit));
    assert_eq!(tray_menu_action("other"), None);
}

#[test]
fn popup_records() {
    let p = PopupPayload::pending("src".to_string(), "DeepSeek".to_string(), None);
    assert_eq!(p.surface, "popup");
    assert_eq!(p.target, "翻译中...");
    assert_eq!(p.latency, 0);
    assert!(p.shortcut.is_none());
    assert_eq!(p.source_lang, "auto");
    assert_eq!(p.target_lang, "zh-CN");
    let e = PopupPayload::translation_error("boom".to_string(), "X".to_string(), "Alt+D".to_string());
    assert_eq!(e.source, "");
    assert_eq!(e.target, "boom");
    let t = TranslationPayload {
        source: "a".to_string(),
        target: "b".to_string(),
        latency: 9,
        provider: "p".to_string(),
        source_lang: "en".to_string(),
        target_lang: "zh-CN".to_string(),
    };
    let r = PopupPayload::translated(&t, "Alt+D".to_string());
    assert_eq!(r.latency, 9);
    assert_eq!(r.source_lang, "en");
    assert_eq!(r.shortcut.as_deref(), Some("Alt+D"));
}
