//! The decisions behind the commands that the interface calls: the status
//! summary, window actions, copying, start-up and tray behaviour, and the
//! settings form.
use vstd::prelude::*;
use crate::app_state::{spec_provider_config, AppState};
use crate::config::{key_configured, opt_view, RuntimeSettings, SettingsModel};
use crate::shortcut::{spec_normalize_shortcut, ShortcutError};

verus! {

broadcast use vstd::string::group_string_axioms;

/// The summary the main window shows.
#[derive(Debug)]
pub struct AppStatus {
    pub autostart_enabled: bool,
    pub shortcut: String,
    pub main_shortcut: String,
    pub startup_mode: String,
    pub theme: String,
    pub provider: String,
    pub ai_configured: bool,
}

/// The summary for a state: its settings, the name of the provider in use,
/// and whether that provider has a key.
pub fn app_status(autostart_enabled: bool, state: &AppState) -> (r: AppStatus)
    ensures
        r.autostart_enabled == autostart_enabled,
        r.shortcut@ == state@.settings.shortcut,
        r.main_shortcut@ == state@.settings.main_shortcut,
        r.startup_mode@ == state@.settings.startup_mode,
        r.theme@ == state@.settings.theme,
        r.provider@ == spec_provider_config(state@).name,
        r.ai_configured == key_configured(spec_provider_config(state@).api_key),
{
    let provider = state.provider_config();
    let settings = state.settings();
    AppStatus {
        autostart_enabled,
        shortcut: settings.shortcut,
        main_shortcut: settings.main_shortcut,
        startup_mode: settings.startup_mode,
        theme: settings.theme,
        ai_configured: crate::config::has_configured_key(&provider.api_key),
        provider: provider.name,
    }
}

/// Why a command is refused before any outside work.
#[derive(Clone, Copy, Debug, PartialEq, Eq, Structural)]
pub enum CommandError {
    /// Nothing but whitespace to copy.
    NothingToCopy,
    /// The window action is not one the main window knows.
    UnsupportedWindowAction,
}

impl CommandError {
    /// The message shown to the user.
    pub fn message(&self) -> (r: String)
        ensures
            r@ == (match *self {
                CommandError::NothingToCopy => "没有可复制的译文"@,
                CommandError::UnsupportedWindowAction => "unsupported window action"@,
            }),
    {
        match self {
            CommandError::NothingToCopy => "没有可复制的译文".to_string(),
            CommandError::UnsupportedWindowAction => "unsupported window action".to_string(),
        }
    }
}

/// What a window action asks of the main window.
#[derive(Clone, Copy, Debug, PartialEq, Eq, Structural)]
pub enum WindowAction {
    Minimize,
    /// Maximize, or restore when already maximized.
    ToggleMaximize,
    /// Hide the window (the application stays in the tray).
    Close,
}

/// The window action a name stands for: `minimize`, `toggleMaximize`, `close`.
pub open spec fn spec_window_action(action: Seq<char>) -> Option<WindowAction> {
    if action == "minimize"@ {
        Some(WindowAction::Minimize)
    } else if action == "toggleMaximize"@ {
        Some(WindowAction::ToggleMaximize)
    } else if action == "close"@ {
        Some(WindowAction::Close)
    } else {
        None
    }
}

/// Reads the name of a window action.
pub fn parse_window_action(action: &str) -> (r: Result<WindowAction, CommandError>)
    ensures
        match spec_window_action(action@) {
            Some(a) => r == Ok::<WindowAction, CommandError>(a),
            None => r == Err::<WindowAction, CommandError>(CommandError::UnsupportedWindowAction),
        },
{
    if crate::text::str_eq(action, "minimize") {
        Ok(WindowAction::Minimize)
    } else if crate::text::str_eq(action, "toggleMaximize") {
        Ok(WindowAction::ToggleMaximize)
    } else if crate::text::str_eq(action, "close") {
        Ok(WindowAction::Close)
    } else {
        Err(CommandError::UnsupportedWindowAction)
    }
}

/// The text to put on the clipboard: the given text trimmed, which must not
/// be empty.
pub fn text_to_copy(text: &str) -> (r: Result<String, CommandError>)
    ensures
        crate::text::trim(text@).len() == 0 ==> r == Err::<String, CommandError>(
            CommandError::NothingToCopy,
        ),
        crate::text::trim(text@).len() > 0 ==> (r matches Ok(t) && t@ == crate::text::trim(text@)),
{
    let t = crate::text::trim_str(text);
    if t.as_str().is_empty() {
        Err(CommandError::NothingToCopy)
    } else {
        Ok(t)
    }
}

/// Whether a failure to switch autostart off only means that it was already
/// off (the launcher entry does not exist).
pub fn autostart_already_off(message: &str) -> (r: bool)
    ensures
        r == (crate::text::contains(message@, "os error 2"@) || crate::text::contains(
            message@,
            "找不到指定的文件"@,
        )),
{
    crate::text::contains_str(message, "os error 2") || crate::text::contains_str(
        message,
        "找不到指定的文件",
    )
}

/// Settings from the settings form with both shortcuts in canonical spelling,
/// or why a shortcut is refused (the selection shortcut is read first).
pub open spec fn spec_normalize_settings_form(s: SettingsModel) -> Result<SettingsModel, ShortcutError> {
    match spec_normalize_shortcut(s.shortcut) {
        Err(e) => Err(e),
        Ok(shortcut) => match spec_normalize_shortcut(s.main_shortcut) {
            Err(e) => Err(e),
            Ok(main_shortcut) => Ok(SettingsModel { shortcut, main_shortcut, ..s }),
        },
    }
}

/// Puts both shortcuts of the settings form in canonical spelling.
pub fn normalize_settings_form(settings: RuntimeSettings) -> (r: Result<RuntimeSettings, ShortcutError>)
    ensures
        match r {
            Ok(s) => spec_normalize_settings_form(settings@) == Ok::<SettingsModel, ShortcutError>(s@),
            Err(e) => spec_normalize_settings_form(settings@) == Err::<SettingsModel, ShortcutError>(e),
        },
{
    let mut settings = settings;
    settings.shortcut = match crate::shortcut::normalize_shortcut(settings.shortcut.as_str()) {
        Ok(s) => s,
        Err(e) => return Err(e),
    };
    settings.main_shortcut = match crate::shortcut::normalize_shortcut(settings.main_shortcut.as_str()) {
        Ok(s) => s,
        Err(e) => return Err(e),
    };
    Ok(settings)
}

/// Whether the main window is shown at start-up (start-up mode `main`).
pub fn shows_main_window_on_start(settings: &RuntimeSettings) -> (r: bool)
    ensures
        r == (settings@.startup_mode == "main"@),
{
    crate::text::str_eq(settings.startup_mode.as_str(), "main")
}

/// What an entry of the tray menu does.
#[derive(Clone, Copy, Debug, PartialEq, Eq, Structural)]
pub enum TrayAction {
    ShowMain,
    HidePopup,
    Quit,
}

/// The tray action of a menu entry id: `show_main`, `hide_popup`, `quit`.
pub fn tray_menu_action(id: &str) -> (r: Option<TrayAction>)
    ensures
        r == (if id@ == "show_main"@ {
            Some(TrayAction::ShowMain)
        } else if id@ == "hide_popup"@ {
            Some(TrayAction::HidePopup)
        } else if id@ == "quit"@ {
            Some(TrayAction::Quit)
        } else {
            None
        }),
{
    if crate::text::str_eq(id, "show_main") {
        Some(TrayAction::ShowMain)
    } else if crate::text::str_eq(id, "hide_popup") {
        Some(TrayAction::HidePopup)
    } else if crate::text::str_eq(id, "quit") {
        Some(TrayAction::Quit)
    } else {
        None
    }
}


/// Reading the settings form changes only the two shortcuts, each to its
/// canonical spelling; the start-up mode and the theme are kept as chosen. It
/// fails exactly when one of the shortcuts is refused.
pub proof fn lemma_settings_form_keeps_choices(s: SettingsModel)
    ensures
        spec_normalize_settings_form(s) is Ok <==> (spec_normalize_shortcut(s.shortcut) is Ok
            && spec_normalize_shortcut(s.main_shortcut) is Ok),
        spec_normalize_settings_form(s) matches Ok(r) ==> {
            &&& r.startup_mode == s.startup_mode
            &&& r.theme == s.theme
            &&& spec_normalize_shortcut(s.shortcut) == Ok::<Seq<char>, ShortcutError>(r.shortcut)
            &&& spec_normalize_shortcut(s.main_shortcut) == Ok::<Seq<char>, ShortcutError>(
                r.main_shortcut,
            )
        },
{
}

} // verus!
