use ai_translate::config::ProviderConfig;
use ai_translate::translation::{
    anthropic_endpoint, anthropic_text, contains_cjk, finish_translation, is_cjk, mymemory_text,
    openai_endpoint, openai_text, prepare_translation, resolve_langpair, split_langpair,
    user_prompt, ContentBlock, TranslationError, TranslationRoute,
};

fn chat(protocol: &str, base_url: &str, key: Option<&str>) -> ProviderConfig {
    ProviderConfig {
        id: "x".to_string(),
        name: "X".to_string(),
        protocol: protocol.to_string(),
        base_url: base_url.to_string(),
        model: "m1".to_string(),
        agent_prompt: "sys".to_string(),
        api_key: key.map(|k| k.to_string()),
    }
}

#[test]
fn cjk_ranges() {
    assert!(is_cjk('中'));
    assert!(is_cjk('\u{3400}'));
    assert!(is_cjk('\u{FAFF}'));
    assert!(!is_cjk('a'));
    assert!(!is_cjk('\u{4DC0}'));
    assert!(!is_cjk('あ'));
    assert!(contains_cjk("hello 世界"));
    assert!(!contains_cjk("hello"));
}

#[test]
fn langpair_table() {
    assert_eq!(resolve_langpair("x", "en", "zh-CN"), "en|zh-CN");
    assert_eq!(resolve_langpair("x", "zh-CN", "en"), "zh-CN|en");
    assert_eq!(resolve_langpair("x", "ja", "zh-CN"), "ja|zh-CN");
    assert_eq!(resolve_langpair("x", "zh-CN", "ja"), "zh-CN|ja");
    assert_eq!(resolve_langpair("x", "ko", "zh-CN"), "ko|zh-CN");
    assert_eq!(resolve_langpair("x", "zh-CN", "ko"), "zh-CN|ko");
}

#[test]
fn langpair_detects_chinese_otherwise() {
    assert_eq!(resolve_langpair("你好", "auto", "en"), "zh-CN|en");
    assert_eq!(resolve_langpair("hello", "auto", "zh-CN"), "en|zh-CN");
    assert_eq!(resolve_langpair("你好", "fr", "de"), "zh-CN|en");
    assert_eq!(resolve_langpair("hello", "en", "ja"), "en|zh-CN");
}

#[test]
fn split_langpair_cases() {
    assert_eq!(split_langpair("en|zh-CN"), ("en".to_string(), "zh-CN".to_string()));
    assert_eq!(split_langpair("abc"), ("abc".to_string(), "zh-CN".to_string()));
    assert_eq!(split_langpair("a|b|c"), ("a".to_string(), "b".to_string()));
    assert_eq!(split_langpair("|"), (String::new(), String::new()));
}

#[test]
fn endpoints() {
    assert_eq!(openai_endpoint("https://api.deepseek.com/"), "https://api.deepseek.com/chat/completions");
    assert_eq!(anthropic_endpoint("https://api.anthropic.com"), "https://api.anthropic.com/v1/messages");
    assert_eq!(anthropic_endpoint("https://api.anthropic.com/v1//"), "https://api.anthropic.com/v1/messages");
}

#[test]
fn prompt_text() {
    assert_eq!(user_prompt("en", "zh-CN", "hi"), ["Translate", " from en to zh-CN. Text:\nhi"].concat());
}

#[test]
fn prepare_refuses_blank_text() {
    let p = ProviderConfig::default();
    assert_eq!(prepare_translation(" \n ", "auto", "zh-CN", &p).unwrap_err(), TranslationError::EmptySource);
}

#[test]
fn prepare_mymemory() {
    let p = ProviderConfig::default();
    let req = prepare_translation("  hello ", "auto", "zh-CN", &p).unwrap();
    assert_eq!(req.source, "hello");
    assert_eq!(req.langpair, "en|zh-CN");
    assert_eq!(req.provider_label, "mymemory:en|zh-CN");
    match req.route {
        TranslationRoute::MyMemory { endpoint, machine_translation, timeout_secs } => {
            assert_eq!(endpoint, "https://api.mymemory.translated.net/get");
            assert!(machine_translation);
            assert_eq!(timeout_secs, 8);
        }
        _ => panic!("expected the MyMemory route"),
    }
}

#[test]
fn prepare_chat_needs_a_key() {
    assert_eq!(
        prepare_translation("hello", "auto", "zh-CN", &chat("openai", "https://a.b", None)).unwrap_err(),
        TranslationError::ApiKeyMissing
    );
    assert_eq!(
        prepare_translation("hello", "auto", "zh-CN", &chat("openai", "https://a.b", Some("  "))).unwrap_err(),
        TranslationError::ApiKeyMissing
    );
}

#[test]
fn prepare_openai_and_anthropic() {
    let req = prepare_translation("你好", "auto", "en", &chat("openai", "https://a.b/", Some(" k "))).unwrap();
    assert_eq!(req.provider_label, "X:m1");
    match req.route {
        TranslationRoute::OpenAi {
            endpoint,
            api_key,
            model,
            system_prompt,
            user_prompt,
            stream,
            thinking,
            timeout_secs,
        } => {
            assert_eq!(endpoint, "https://a.b/chat/completions");
            assert_eq!(api_key, " k ");
            assert_eq!(model, "m1");
            assert_eq!(system_prompt, "sys");
            assert_eq!(user_prompt, ["Translate", " from zh-CN to en. Text:\n你好"].concat());
            assert!(!stream);
            assert_eq!(thinking, "disabled");
            assert_eq!(timeout_secs, 20);
        }
        _ => panic!("expected the OpenAI-compatible route"),
    }
    let req = prepare_translation("hi", "en", "zh-CN", &chat("anthropic", "https://c.d/v1", Some("k"))).unwrap();
    match req.route {
        TranslationRoute::Anthropic { endpoint, api_key, max_tokens, api_version, timeout_secs, .. } => {
            assert_eq!(endpoint, "https://c.d/v1/messages");
            assert_eq!(api_key, "k");
            assert_eq!(max_tokens, 2048);
            assert_eq!(api_version, "2023-06-01");
            assert_eq!(timeout_secs, 20);
        }
        _ => panic!("expected the Anthropic route"),
    }
}

#[test]
fn finish_builds_the_payload() {
    let req = prepare_translation("hello", "auto", "zh-CN", &ProviderConfig::default()).unwrap();
    let t = finish_translation(&req, "你好".to_string(), 42);
    assert_eq!(t.source, "hello");
    assert_eq!(t.target, "你好");
    assert_eq!(t.latency, 42);
    assert_eq!(t.provider, "mymemory:en|zh-CN");
    assert_eq!(t.source_lang, "en");
    assert_eq!(t.target_lang, "zh-CN");
}

#[test]
fn reading_answers() {
    assert_eq!(mymemory_text(200, " 你好 ").unwrap(), "你好");
    assert_eq!(mymemory_text(403, "x").unwrap_err(), TranslationError::ProviderStatus(403));
    assert_eq!(mymemory_text(200, "  ").unwrap_err(), TranslationError::EmptyMyMemoryResult);
    assert_eq!(openai_text(Some(" a ".to_string())).unwrap(), "a");
    assert_eq!(openai_text(Some(" ".to_string())).unwrap_err(), TranslationError::EmptyChatResult);
    assert_eq!(openai_text(None).unwrap_err(), TranslationError::EmptyChatResult);
    let blocks = vec![
        ContentBlock { kind: "text".to_string(), text: Some(" Hel".to_string()) },
        ContentBlock { kind: "thinking".to_string(), text: Some("no".to_string()) },
        ContentBlock { kind: "text".to_string(), text: None },
        ContentBlock { kind: "text".to_string(), text: Some("lo ".to_string()) },
    ];
    assert_eq!(anthropic_text(&blocks).unwrap(), "Hello");
    assert_eq!(anthropic_text(&Vec::new()).unwrap_err(), TranslationError::EmptyChatResult);
}

#[test]
fn translation_error_messages() {
    assert_eq!(TranslationError::EmptySource.message(), "empty source text");
    assert_eq!(TranslationError::ApiKeyMissing.message(), "AI provider api key is not configured");
    assert_eq!(TranslationError::EmptyChatResult.message(), "AI provider returned empty text");
    assert_eq!(TranslationError::ProviderStatus(403).message(), "translation provider returned status 403");
    assert_eq!(TranslationError::ProviderStatus(-7).message(), "translation provider returned status -7");
    assert_eq!(
        TranslationError::ProviderStatus(i32::MIN).message(),
        format!("translation provider returned status {}", i32::MIN)
    );
    assert_eq!(TranslationError::EmptyMyMemoryResult.message(), "translation provider returned empty text");
}
