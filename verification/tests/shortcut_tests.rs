use ai_translate::config::RuntimeSettings;
use ai_translate::shortcut::{
    copy_attempt_delay_ms, copy_sentinel, empty_selection_message, is_fresh_clipboard_text,
    key_to_code, normalize_shortcut, parse_shortcut_parts, parse_user_shortcut, popup_position,
    release_keys, sample_text, shortcuts_to_register, KeyCode, Modifiers, ReleaseKey, Shortcut,
    ShortcutError, DEBOUNCE_MS, POPUP_OFFSET_Y,
};

fn settings(shortcut: &str, main_shortcut: &str) -> RuntimeSettings {
    RuntimeSettings {
        shortcut: shortcut.to_string(),
        main_shortcut: main_shortcut.to_string(),
        startup_mode: "main".to_string(),
        theme: "dark".to_string(),
    }
}

#[test]
fn readme_shortcut_examples_are_accepted() {
    assert_eq!(normalize_shortcut("Alt+D").unwrap(), "Alt+D");
    assert_eq!(normalize_shortcut("Ctrl+E").unwrap(), "Ctrl+E");
    assert_eq!(normalize_shortcut("Shift+Q").unwrap(), "Shift+Q");
}

#[test]
fn normalize_orders_modifiers_and_upper_cases_the_key() {
    assert_eq!(normalize_shortcut(" shift + ctrl + a ").unwrap(), "Ctrl+Shift+A");
    assert_eq!(normalize_shortcut("option+control+5").unwrap(), "Ctrl+Alt+5");
    assert_eq!(normalize_shortcut("z+SHIFT+ALT+CTRL").unwrap(), "Ctrl+Alt+Shift+Z");
}

#[test]
fn normalize_skips_blank_parts_and_repeated_modifiers() {
    assert_eq!(normalize_shortcut("Alt++D").unwrap(), "Alt+D");
    assert_eq!(normalize_shortcut("Alt+Alt+d+").unwrap(), "Alt+D");
    assert_eq!(normalize_shortcut("\tCtrl\n+ 7").unwrap(), "Ctrl+7");
}

#[test]
fn normalize_is_stable() {
    for input in ["alt+d", " shift+ctrl+x ", "option+9", "Ctrl+Alt+Shift+K"] {
        let once = normalize_shortcut(input).unwrap();
        let twice = normalize_shortcut(&once).unwrap();
        assert_eq!(once, twice);
        assert_eq!(parse_user_shortcut(&once), parse_user_shortcut(input));
    }
}

#[test]
fn shortcut_errors() {
    assert_eq!(normalize_shortcut("Alt+A+B"), Err(ShortcutError::MultipleMainKeys));
    assert_eq!(normalize_shortcut("D"), Err(ShortcutError::MissingModifier));
    assert_eq!(normalize_shortcut(""), Err(ShortcutError::MissingModifier));
    assert_eq!(normalize_shortcut("Ctrl+Alt"), Err(ShortcutError::MissingMainKey));
    assert_eq!(normalize_shortcut("Alt+F1"), Err(ShortcutError::UnsupportedMainKey));
    assert_eq!(normalize_shortcut("Alt+é"), Err(ShortcutError::UnsupportedMainKey));
    assert_eq!(normalize_shortcut("Meta+D"), Err(ShortcutError::MultipleMainKeys));
    assert_eq!(normalize_shortcut("A+B"), Err(ShortcutError::MultipleMainKeys));
}

#[test]
fn shortcut_error_messages() {
    assert_eq!(ShortcutError::MultipleMainKeys.message(), "快捷键只能包含一个主键");
    assert_eq!(ShortcutError::MissingModifier.message(), "快捷键至少需要包含 Alt、Ctrl 或 Shift 之一");
    assert_eq!(ShortcutError::MissingMainKey.message(), "快捷键需要一个字母或数字");
    assert_eq!(ShortcutError::UnsupportedMainKey.message(), "快捷键主键只支持 A-Z 或 0-9");
}

#[test]
fn parse_shortcut_parts_reports_modifiers_and_key() {
    let (mods, key) = parse_shortcut_parts("shift+ctrl+q").unwrap();
    assert_eq!(mods, Modifiers { ctrl: true, alt: false, shift: true });
    assert_eq!(key, "Q");
}

#[test]
fn key_codes() {
    assert_eq!(key_to_code("A"), Ok(KeyCode::KeyA));
    assert_eq!(key_to_code("Z"), Ok(KeyCode::KeyZ));
    assert_eq!(key_to_code("0"), Ok(KeyCode::Digit0));
    assert_eq!(key_to_code("9"), Ok(KeyCode::Digit9));
    assert_eq!(key_to_code("a"), Err(ShortcutError::UnsupportedMainKey));
    assert_eq!(key_to_code("AB"), Err(ShortcutError::UnsupportedMainKey));
    assert_eq!(key_to_code(""), Err(ShortcutError::UnsupportedMainKey));
}

#[test]
fn parse_user_shortcut_gives_the_shortcut() {
    assert_eq!(
        parse_user_shortcut("Ctrl+D"),
        Ok(Shortcut { modifiers: Modifiers { ctrl: true, alt: false, shift: false }, code: KeyCode::KeyD })
    );
    assert_eq!(parse_user_shortcut("Ctrl"), Err(ShortcutError::MissingMainKey));
}

#[test]
fn shortcuts_to_register_lists_distinct_shortcuts() {
    let both = shortcuts_to_register(&settings("Alt+D", "Ctrl+D")).unwrap();
    assert_eq!(both.len(), 2);
    assert_eq!(both[0].code, KeyCode::KeyD);
    assert!(both[0].modifiers.alt);
    assert!(both[1].modifiers.ctrl);
    let one = shortcuts_to_register(&settings("Alt+D", "alt+d")).unwrap();
    assert_eq!(one.len(), 1);
    assert_eq!(shortcuts_to_register(&settings("Alt+D", "Ctrl")), Err(ShortcutError::MissingMainKey));
    assert_eq!(shortcuts_to_register(&settings("D", "Ctrl+D")), Err(ShortcutError::MissingModifier));
}

#[test]
fn release_keys_follow_the_shortcut() {
    assert_eq!(
        release_keys("Ctrl+Alt+D"),
        vec![ReleaseKey::Alt, ReleaseKey::Control, ReleaseKey::Layout('d')]
    );
    assert_eq!(release_keys("shift+7"), vec![ReleaseKey::Shift, ReleaseKey::Layout('7')]);
    assert!(release_keys("nonsense").is_empty());
}

#[test]
fn clipboard_helpers() {
    assert_eq!(copy_sentinel(123), "__AI_TRANSLATE_COPY_SENTINEL_123__");
    assert_eq!(copy_sentinel(0), "__AI_TRANSLATE_COPY_SENTINEL_0__");
    let s = copy_sentinel(1_700_000_000_123_456_789);
    assert_eq!(s, "__AI_TRANSLATE_COPY_SENTINEL_1700000000123456789__");
    assert!(is_fresh_clipboard_text("hello", &s));
    assert!(!is_fresh_clipboard_text(&s, &s));
    assert!(!is_fresh_clipboard_text("  \n", &s));
    assert_eq!(copy_attempt_delay_ms(0), 35);
    assert_eq!(copy_attempt_delay_ms(1), 75);
    assert_eq!(copy_attempt_delay_ms(2), 115);
}

#[test]
fn popup_sits_below_the_pointer() {
    assert_eq!(popup_position(10, 20), (10, 42));
    assert_eq!(POPUP_OFFSET_Y, 22);
    assert_eq!(DEBOUNCE_MS, 200);
}

#[test]
fn fixed_texts() {
    assert_eq!(sample_text(), "within a few milliseconds after the shortcut is pressed.");
    assert!(empty_selection_message().starts_with("未读取到选中文本。"));
}
