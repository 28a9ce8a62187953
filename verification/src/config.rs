//! Provider and runtime settings records, their defaults, and the rules that
//! clean and validate them.
use vstd::prelude::*;
use crate::text::{
    eq_ignore_case, eq_ignore_case_str, is_blank, is_blank_str, str_eq, trim, trim_end_char,
    trim_str,
};

verus! {

broadcast use vstd::string::group_string_axioms;

/// One translation provider: how to reach it and the key it needs.
#[derive(Debug)]
pub struct ProviderConfig {
    pub id: String,
    pub name: String,
    pub protocol: String,
    pub base_url: String,
    pub model: String,
    pub agent_prompt: String,
    pub api_key: Option<String>,
}

/// The character view of a provider record.
pub struct ProviderModel {
    pub id: Seq<char>,
    pub name: Seq<char>,
    pub protocol: Seq<char>,
    pub base_url: Seq<char>,
    pub model: Seq<char>,
    pub agent_prompt: Seq<char>,
    pub api_key: Option<Seq<char>>,
}

/// The character view of an optional string.
pub open spec fn opt_view(o: Option<String>) -> Option<Seq<char>> {
    match o {
        Some(s) => Some(s@),
        None => None,
    }
}

impl View for ProviderConfig {
    type V = ProviderModel;

    open spec fn view(&self) -> ProviderModel {
        ProviderModel {
            id: self.id@,
            name: self.name@,
            protocol: self.protocol@,
            base_url: self.base_url@,
            model: self.model@,
            agent_prompt: self.agent_prompt@,
            api_key: opt_view(self.api_key),
        }
    }
}

/// A copy of an optional string.
pub fn clone_opt_string(o: &Option<String>) -> (r: Option<String>)
    ensures
        opt_view(r) == opt_view(*o),
{
    match o {
        Some(s) => Some(s.clone()),
        None => None,
    }
}

impl Clone for ProviderConfig {
    fn clone(&self) -> (r: Self)
        ensures
            r@ == self@,
    {
        ProviderConfig {
            id: self.id.clone(),
            name: self.name.clone(),
            protocol: self.protocol.clone(),
            base_url: self.base_url.clone(),
            model: self.model.clone(),
            agent_prompt: self.agent_prompt.clone(),
            api_key: clone_opt_string(&self.api_key),
        }
    }
}

/// The instruction that asks a chat model for a bare translation.
pub open spec fn spec_default_agent_prompt() -> Seq<char> {
    "You are a professional translation engine. Translate the user's text into the requested target language. Preserve meaning, tone, formatting, numbers, code, URLs, and proper nouns. Do not add explanations, alternatives, quotes, markdown fences, or commentary. Return only the translated text."@
}

/// The instruction that asks a chat model for a bare translation.
pub fn default_agent_prompt() -> (r: String)
    ensures
        r@ == spec_default_agent_prompt(),
{
    "You are a professional translation engine. Translate the user's text into the requested target language. Preserve meaning, tone, formatting, numbers, code, URLs, and proper nouns. Do not add explanations, alternatives, quotes, markdown fences, or commentary. Return only the translated text.".to_string()
}

/// The public MyMemory provider, which needs no key.
pub open spec fn spec_mymemory_provider() -> ProviderModel {
    ProviderModel {
        id: "mymemory"@,
        name: "MyMemory 公共接口"@,
        protocol: "mymemory"@,
        base_url: Seq::<char>::empty(),
        model: Seq::<char>::empty(),
        agent_prompt: spec_default_agent_prompt(),
        api_key: None,
    }
}

/// The DeepSeek provider, ready but for its key.
pub open spec fn spec_deepseek_provider() -> ProviderModel {
    ProviderModel {
        id: "deepseek"@,
        name: "DeepSeek"@,
        protocol: "openai"@,
        base_url: "https://api.deepseek.com"@,
        model: "deepseek-v4-flash"@,
        agent_prompt: spec_default_agent_prompt(),
        api_key: None,
    }
}

impl Default for ProviderConfig {
    fn default() -> (r: Self)
        ensures
            r@ == spec_mymemory_provider(),
    {
        ProviderConfig {
            id: "mymemory".to_string(),
            name: "MyMemory 公共接口".to_string(),
            protocol: "mymemory".to_string(),
            base_url: String::new(),
            model: String::new(),
            agent_prompt: default_agent_prompt(),
            api_key: None,
        }
    }
}

/// The DeepSeek provider, ready but for its key.
pub fn deepseek_provider() -> (r: ProviderConfig)
    ensures
        r@ == spec_deepseek_provider(),
{
    ProviderConfig {
        id: "deepseek".to_string(),
        name: "DeepSeek".to_string(),
        protocol: "openai".to_string(),
        base_url: "https://api.deepseek.com".to_string(),
        model: "deepseek-v4-flash".to_string(),
        agent_prompt: default_agent_prompt(),
        api_key: None,
    }
}

/// The providers that every configuration starts from: MyMemory, then DeepSeek.
pub open spec fn spec_default_providers() -> Seq<ProviderModel> {
    seq![spec_mymemory_provider(), spec_deepseek_provider()]
}

/// The character views of a list of providers.
pub open spec fn providers_view(v: Seq<ProviderConfig>) -> Seq<ProviderModel> {
    v.map_values(|p: ProviderConfig| p@)
}

/// The providers that every configuration starts from: MyMemory, then DeepSeek.
pub fn default_providers() -> (r: Vec<ProviderConfig>)
    ensures
        providers_view(r@) == spec_default_providers(),
{
    let mut r: Vec<ProviderConfig> = Vec::new();
    r.push(ProviderConfig::default());
    r.push(deepseek_provider());
    assert(providers_view(r@) =~= spec_default_providers());
    r
}

/// Shortcuts, start-up behaviour and theme.
#[derive(Debug)]
pub struct RuntimeSettings {
    pub shortcut: String,
    pub main_shortcut: String,
    pub startup_mode: String,
    pub theme: String,
}

/// The character view of the runtime settings.
pub struct SettingsModel {
    pub shortcut: Seq<char>,
    pub main_shortcut: Seq<char>,
    pub startup_mode: Seq<char>,
    pub theme: Seq<char>,
}

impl View for RuntimeSettings {
    type V = SettingsModel;

    open spec fn view(&self) -> SettingsModel {
        SettingsModel {
            shortcut: self.shortcut@,
            main_shortcut: self.main_shortcut@,
            startup_mode: self.startup_mode@,
            theme: self.theme@,
        }
    }
}

impl Clone for RuntimeSettings {
    fn clone(&self) -> (r: Self)
        ensures
            r@ == self@,
    {
        RuntimeSettings {
            shortcut: self.shortcut.clone(),
            main_shortcut: self.main_shortcut.clone(),
            startup_mode: self.startup_mode.clone(),
            theme: self.theme.clone(),
        }
    }
}

/// The shortcut that translates the selection unless the user picks another.
pub fn default_selection_shortcut() -> (r: String)
    ensures
        r@ == "Alt+D"@,
{
    "Alt+D".to_string()
}

/// The shortcut that shows the main window unless the user picks another.
pub fn default_main_shortcut() -> (r: String)
    ensures
        r@ == "Ctrl+D"@,
{
    "Ctrl+D".to_string()
}

/// The theme used unless the user picks another.
pub fn default_theme() -> (r: String)
    ensures
        r@ == "dark"@,
{
    "dark".to_string()
}

/// The settings of a fresh installation.
pub open spec fn spec_default_settings() -> SettingsModel {
    SettingsModel {
        shortcut: "Alt+D"@,
        main_shortcut: "Ctrl+D"@,
        startup_mode: "main"@,
        theme: "dark"@,
    }
}

impl Default for RuntimeSettings {
    fn default() -> (r: Self)
        ensures
            r@ == spec_default_settings(),
    {
        RuntimeSettings {
            shortcut: default_selection_shortcut(),
            main_shortcut: default_main_shortcut(),
            startup_mode: "main".to_string(),
            theme: default_theme(),
        }
    }
}

/// The themes the interface knows.
pub open spec fn is_known_theme(theme: Seq<char>) -> bool {
    theme == "dark"@ || theme == "compact"@ || theme == "light"@
}

/// The start-up modes the application knows.
pub open spec fn is_known_startup_mode(mode: Seq<char>) -> bool {
    mode == "main"@ || mode == "tray"@
}

/// The protocols a provider can speak.
pub open spec fn is_known_protocol(protocol: Seq<char>) -> bool {
    protocol == "mymemory"@ || protocol == "openai"@ || protocol == "anthropic"@
}

/// Whether a theme is one the interface knows.
pub fn known_theme(theme: &str) -> (r: bool)
    ensures
        r == is_known_theme(theme@),
{
    str_eq(theme, "dark") || str_eq(theme, "compact") || str_eq(theme, "light")
}

/// Settings read from an older file, repaired: a blank selection shortcut,
/// or the retired `Alt+Q`, becomes `Alt+D`; a blank main-window shortcut becomes
/// `Ctrl+D`; an unknown theme becomes `dark`.
pub open spec fn spec_migrate_settings(s: SettingsModel) -> SettingsModel {
    SettingsModel {
        shortcut: if is_blank(s.shortcut) || eq_ignore_case(trim(s.shortcut), "Alt+Q"@) {
            "Alt+D"@
        } else {
            s.shortcut
        },
        main_shortcut: if is_blank(s.main_shortcut) {
            "Ctrl+D"@
        } else {
            s.main_shortcut
        },
        startup_mode: s.startup_mode,
        theme: if is_known_theme(s.theme) {
            s.theme
        } else {
            "dark"@
        },
    }
}

/// Repairs settings read from an older file (see `spec_migrate_settings`).
pub fn migrate_runtime_settings(settings: RuntimeSettings) -> (r: RuntimeSettings)
    ensures
        r@ == spec_migrate_settings(settings@),
{
    let mut settings = settings;
    let trimmed = trim_str(settings.shortcut.as_str());
    if is_blank_str(settings.shortcut.as_str()) || eq_ignore_case_str(trimmed.as_str(), "Alt+Q") {
        settings.shortcut = default_selection_shortcut();
    }
    if is_blank_str(settings.main_shortcut.as_str()) {
        settings.main_shortcut = default_main_shortcut();
    }
    if !known_theme(settings.theme.as_str()) {
        settings.theme = default_theme();
    }
    settings
}


/// Why a request on the configuration is refused.
#[derive(Clone, Copy, Debug, PartialEq, Eq, Structural)]
pub enum ConfigError {
    ProviderIdRequired,
    ProviderNameRequired,
    UnsupportedProtocol,
    BaseUrlRequired,
    ModelRequired,
    ApiKeyRequired,
    ProviderNotFound,
    ShortcutRequired,
    MainShortcutRequired,
    SameShortcuts,
    UnsupportedStartupMode,
    UnsupportedTheme,
}

/// The message of each configuration error.
pub open spec fn spec_config_error_message(e: ConfigError) -> Seq<char> {
    match e {
        ConfigError::ProviderIdRequired => "provider id is required"@,
        ConfigError::ProviderNameRequired => "provider name is required"@,
        ConfigError::UnsupportedProtocol => "unsupported provider protocol"@,
        ConfigError::BaseUrlRequired => "base url is required"@,
        ConfigError::ModelRequired => "model is required"@,
        ConfigError::ApiKeyRequired => "api key is required"@,
        ConfigError::ProviderNotFound => "provider not found"@,
        ConfigError::ShortcutRequired => "shortcut is required"@,
        ConfigError::MainShortcutRequired => "main window shortcut is required"@,
        ConfigError::SameShortcuts => "translate shortcut and main window shortcut cannot be the same"@,
        ConfigError::UnsupportedStartupMode => "unsupported startup mode"@,
        ConfigError::UnsupportedTheme => "unsupported theme"@,
    }
}

impl ConfigError {
    /// The message shown to the user.
    pub fn message(&self) -> (r: String)
        ensures
            r@ == spec_config_error_message(*self),
    {
        match self {
            ConfigError::ProviderIdRequired => "provider id is required".to_string(),
            ConfigError::ProviderNameRequired => "provider name is required".to_string(),
            ConfigError::UnsupportedProtocol => "unsupported provider protocol".to_string(),
            ConfigError::BaseUrlRequired => "base url is required".to_string(),
            ConfigError::ModelRequired => "model is required".to_string(),
            ConfigError::ApiKeyRequired => "api key is required".to_string(),
            ConfigError::ProviderNotFound => "provider not found".to_string(),
            ConfigError::ShortcutRequired => "shortcut is required".to_string(),
            ConfigError::MainShortcutRequired => "main window shortcut is required".to_string(),
            ConfigError::SameShortcuts => "translate shortcut and main window shortcut cannot be the same".to_string(),
            ConfigError::UnsupportedStartupMode => "unsupported startup mode".to_string(),
            ConfigError::UnsupportedTheme => "unsupported theme".to_string(),
        }
    }
}

/// A key as it is kept: trimmed, and absent when blank.
pub open spec fn spec_clean_key(key: Option<Seq<char>>) -> Option<Seq<char>> {
    match key {
        Some(k) => if trim(k).len() > 0 {
            Some(trim(k))
        } else {
            None
        },
        None => None,
    }
}

/// Trims a key, and drops it when nothing is left.
pub fn clean_key(key: Option<String>) -> (r: Option<String>)
    ensures
        opt_view(r) == spec_clean_key(opt_view(key)),
{
    match key {
        Some(k) => {
            let t = trim_str(k.as_str());
            if !t.as_str().is_empty() {
                Some(t)
            } else {
                None
            }
        },
        None => None,
    }
}

/// The fields of a provider as they are kept: trimmed, the base URL without
/// trailing `/`, a blank prompt replaced by the default one, a blank key dropped.
pub open spec fn spec_normalize_fields(c: ProviderModel) -> ProviderModel {
    ProviderModel {
        id: trim(c.id),
        name: trim(c.name),
        protocol: trim(c.protocol),
        base_url: trim_end_char(trim(c.base_url), '/'),
        model: trim(c.model),
        agent_prompt: if trim(c.agent_prompt).len() == 0 {
            spec_default_agent_prompt()
        } else {
            trim(c.agent_prompt)
        },
        api_key: spec_clean_key(c.api_key),
    }
}

/// A provider record cleaned, or the first rule it breaks: an id and a name
/// are required, the protocol must be known, and a provider other than
/// MyMemory needs a base URL and a model.
pub open spec fn spec_normalize_provider(c: ProviderModel) -> Result<ProviderModel, ConfigError> {
    let n = spec_normalize_fields(c);
    if n.id.len() == 0 {
        Err(ConfigError::ProviderIdRequired)
    } else if n.name.len() == 0 {
        Err(ConfigError::ProviderNameRequired)
    } else if !is_known_protocol(n.protocol) {
        Err(ConfigError::UnsupportedProtocol)
    } else if n.protocol != "mymemory"@ && n.base_url.len() == 0 {
        Err(ConfigError::BaseUrlRequired)
    } else if n.protocol != "mymemory"@ && n.model.len() == 0 {
        Err(ConfigError::ModelRequired)
    } else {
        Ok(n)
    }
}

/// `s.trim().trim_end_matches(c)`.
pub fn trim_then_strip_end(s: &str, c: char) -> (r: String)
    ensures
        r@ == trim_end_char(trim(s@), c),
{
    let t = trim_str(s);
    let v = crate::text::chars_of(t.as_str());
    let hi = crate::text::trim_end_char_vec(&v, c);
    crate::text::string_of_range(&v, 0, hi)
}

/// Cleans a provider record and checks it (see `spec_normalize_provider`).
pub fn normalize_provider_config(config: ProviderConfig) -> (r: Result<ProviderConfig, ConfigError>)
    ensures
        match r {
            Ok(c) => spec_normalize_provider(config@) == Ok::<ProviderModel, ConfigError>(c@),
            Err(e) => spec_normalize_provider(config@) == Err::<ProviderModel, ConfigError>(e),
        },
{
    let id = trim_str(config.id.as_str());
    let name = trim_str(config.name.as_str());
    let protocol = trim_str(config.protocol.as_str());
    let base_url = trim_then_strip_end(config.base_url.as_str(), '/');
    let model = trim_str(config.model.as_str());
    let prompt = trim_str(config.agent_prompt.as_str());
    let api_key = clean_key(config.api_key);
    if id.as_str().is_empty() {
        return Err(ConfigError::ProviderIdRequired);
    }
    if name.as_str().is_empty() {
        return Err(ConfigError::ProviderNameRequired);
    }
    let is_mymemory = str_eq(protocol.as_str(), "mymemory");
    if !(is_mymemory || str_eq(protocol.as_str(), "openai") || str_eq(protocol.as_str(), "anthropic")) {
        return Err(ConfigError::UnsupportedProtocol);
    }
    if !is_mymemory {
        if base_url.as_str().is_empty() {
            return Err(ConfigError::BaseUrlRequired);
        }
        if model.as_str().is_empty() {
            return Err(ConfigError::ModelRequired);
        }
    }
    let agent_prompt = if prompt.as_str().is_empty() {
        default_agent_prompt()
    } else {
        prompt
    };
    Ok(ProviderConfig { id, name, protocol, base_url, model, agent_prompt, api_key })
}


proof fn lemma_default_prompt_trimmed()
    ensures
        trim(spec_default_agent_prompt()) == spec_default_agent_prompt(),
        spec_default_agent_prompt().len() > 0,
{
    reveal_strlit(
        "You are a professional translation engine. Translate the user's text into the requested target language. Preserve meaning, tone, formatting, numbers, code, URLs, and proper nouns. Do not add explanations, alternatives, quotes, markdown fences, or commentary. Return only the translated text.",
    );
    crate::text::lemma_trim_no_ws(spec_default_agent_prompt());
}

/// Cleaning a key twice is cleaning it once.
pub proof fn lemma_clean_key_idempotent(key: Option<Seq<char>>)
    ensures
        spec_clean_key(spec_clean_key(key)) == spec_clean_key(key),
{
    if let Some(k) = key {
        crate::text::lemma_trim_idempotent(k);
    }
}

/// Cleaning an accepted provider record again changes nothing, unless the
/// base URL was left ending in whitespace once its trailing `/` were dropped
/// (as `"x /"` becomes `"x "`).
pub proof fn lemma_normalize_provider_idempotent(c: ProviderModel)
    requires
        spec_normalize_provider(c) is Ok,
        spec_normalize_provider(c)->Ok_0.base_url.len() > 0 ==> !crate::text::is_whitespace(
            spec_normalize_provider(c)->Ok_0.base_url.last(),
        ),
    ensures
        spec_normalize_provider(spec_normalize_provider(c)->Ok_0) == spec_normalize_provider(c),
{
    let n = spec_normalize_provider(c)->Ok_0;
    crate::text::lemma_trim_idempotent(c.id);
    crate::text::lemma_trim_idempotent(c.name);
    crate::text::lemma_trim_idempotent(c.protocol);
    crate::text::lemma_trim_idempotent(c.model);
    crate::text::lemma_trim_idempotent(c.agent_prompt);
    lemma_default_prompt_trimmed();
    lemma_clean_key_idempotent(c.api_key);
    let t = trim(c.base_url);
    crate::text::lemma_trim_shape(c.base_url);
    crate::text::lemma_trim_end_char_shape(t, '/');
    if n.base_url.len() > 0 {
        assert(n.base_url[0] == t[0]);
        crate::text::lemma_trim_no_ws(n.base_url);
    } else {
        assert(n.base_url =~= Seq::<char>::empty());
    }
    assert(spec_normalize_fields(n) == n);
}


/// The first rule that settings chosen by the user break, if any: both
/// shortcuts are required and must differ, and the start-up mode and the
/// theme must be known ones.
pub open spec fn spec_settings_error(s: SettingsModel) -> Option<ConfigError> {
    if is_blank(s.shortcut) {
        Some(ConfigError::ShortcutRequired)
    } else if is_blank(s.main_shortcut) {
        Some(ConfigError::MainShortcutRequired)
    } else if s.shortcut == s.main_shortcut {
        Some(ConfigError::SameShortcuts)
    } else if !is_known_startup_mode(s.startup_mode) {
        Some(ConfigError::UnsupportedStartupMode)
    } else if !is_known_theme(s.theme) {
        Some(ConfigError::UnsupportedTheme)
    } else {
        None
    }
}

/// Checks settings chosen by the user (see `spec_settings_error`).
pub fn check_settings(settings: &RuntimeSettings) -> (r: Result<(), ConfigError>)
    ensures
        match r {
            Ok(()) => spec_settings_error(settings@) is None,
            Err(e) => spec_settings_error(settings@) == Some(e),
        },
{
    if is_blank_str(settings.shortcut.as_str()) {
        return Err(ConfigError::ShortcutRequired);
    }
    if is_blank_str(settings.main_shortcut.as_str()) {
        return Err(ConfigError::MainShortcutRequired);
    }
    if str_eq(settings.shortcut.as_str(), settings.main_shortcut.as_str()) {
        return Err(ConfigError::SameShortcuts);
    }
    if !(str_eq(settings.startup_mode.as_str(), "main") || str_eq(
        settings.startup_mode.as_str(),
        "tray",
    )) {
        return Err(ConfigError::UnsupportedStartupMode);
    }
    if !known_theme(settings.theme.as_str()) {
        return Err(ConfigError::UnsupportedTheme);
    }
    Ok(())
}

proof fn lemma_default_shortcuts_kept()
    ensures
        !is_blank("Alt+D"@),
        !eq_ignore_case(trim("Alt+D"@), "Alt+Q"@),
        !is_blank("Ctrl+D"@),
        is_known_theme("dark"@),
{
    reveal_strlit("Alt+D");
    reveal_strlit("Alt+Q");
    reveal_strlit("Ctrl+D");
    crate::text::lemma_trim_no_ws("Alt+D"@);
    crate::text::lemma_trim_no_ws("Ctrl+D"@);
    assert(crate::text::lower("Alt+D"@)[4] != crate::text::lower("Alt+Q"@)[4]);
}

/// Repairing settings twice is repairing them once.
pub proof fn lemma_migrate_settings_idempotent(s: SettingsModel)
    ensures
        spec_migrate_settings(spec_migrate_settings(s)) == spec_migrate_settings(s),
{
    lemma_default_shortcuts_kept();
}

/// Settings that the user could choose come back unchanged from the repair
/// made on load, unless the selection shortcut is the retired `Alt+Q`.
pub proof fn lemma_valid_settings_survive_migration(s: SettingsModel)
    requires
        spec_settings_error(s) is None,
        !eq_ignore_case(trim(s.shortcut), "Alt+Q"@),
    ensures
        spec_migrate_settings(s) == s,
{
}

/// The settings of a fresh installation are settings the user could choose.
pub proof fn lemma_default_settings_valid()
    ensures
        spec_settings_error(spec_default_settings()) is None,
        spec_migrate_settings(spec_default_settings()) == spec_default_settings(),
{
    lemma_default_shortcuts_kept();
    reveal_strlit("main");
    reveal_strlit("Alt+D");
    reveal_strlit("Ctrl+D");
    assert(("Alt+D"@).len() != ("Ctrl+D"@).len());
}


/// A provider as the settings screen shows it: the key itself is left out,
/// only whether one is configured.
#[derive(Debug)]
pub struct ProviderConfigView {
    pub id: String,
    pub name: String,
    pub protocol: String,
    pub base_url: String,
    pub model: String,
    pub agent_prompt: String,
    pub api_key_configured: bool,
}

/// The character view of a provider as the settings screen shows it.
pub struct ProviderScreenModel {
    pub id: Seq<char>,
    pub name: Seq<char>,
    pub protocol: Seq<char>,
    pub base_url: Seq<char>,
    pub model: Seq<char>,
    pub agent_prompt: Seq<char>,
    pub api_key_configured: bool,
}

impl View for ProviderConfigView {
    type V = ProviderScreenModel;

    open spec fn view(&self) -> ProviderScreenModel {
        ProviderScreenModel {
            id: self.id@,
            name: self.name@,
            protocol: self.protocol@,
            base_url: self.base_url@,
            model: self.model@,
            agent_prompt: self.agent_prompt@,
            api_key_configured: self.api_key_configured,
        }
    }
}

/// Whether a key is configured: present and not blank.
pub open spec fn key_configured(key: Option<Seq<char>>) -> bool {
    match key {
        Some(k) => !is_blank(k),
        None => false,
    }
}

/// How the settings screen shows a provider.
pub open spec fn spec_provider_view(c: ProviderModel) -> ProviderScreenModel {
    ProviderScreenModel {
        id: c.id,
        name: c.name,
        protocol: c.protocol,
        base_url: c.base_url,
        model: c.model,
        agent_prompt: c.agent_prompt,
        api_key_configured: key_configured(c.api_key),
    }
}

/// Whether an optional key is configured (present and not blank).
pub fn has_configured_key(key: &Option<String>) -> (r: bool)
    ensures
        r == key_configured(opt_view(*key)),
{
    match key {
        Some(k) => !is_blank_str(k.as_str()),
        None => false,
    }
}

/// How the settings screen shows a provider.
pub fn provider_view(config: &ProviderConfig) -> (r: ProviderConfigView)
    ensures
        r@ == spec_provider_view(config@),
{
    ProviderConfigView {
        id: config.id.clone(),
        name: config.name.clone(),
        protocol: config.protocol.clone(),
        base_url: config.base_url.clone(),
        model: config.model.clone(),
        agent_prompt: config.agent_prompt.clone(),
        api_key_configured: has_configured_key(&config.api_key),
    }
}

/// All providers as the settings screen shows them, and the active one.
#[derive(Debug)]
pub struct ProviderStateView {
    pub active_provider_id: String,
    pub providers: Vec<ProviderConfigView>,
}


/// The service under which provider keys are kept in the system key store.
pub const KEYRING_SERVICE: &'static str = "ai-translate";

/// The key-store account of a provider's key: `provider:{id}:api-key`.
pub fn provider_key_account(provider_id: &str) -> (r: String)
    ensures
        r@ == "provider:"@ + provider_id@ + ":api-key"@,
{
    let mut r = "provider:".to_string();
    r.append(provider_id);
    r.append(":api-key");
    r
}

} // verus!
