# ai_translate

The core of a desktop translator: shortcut parsing, provider configuration,
translation requests, and the application state kept on disk, written in Verus
with its behaviour stated in contracts and proved.

- `src/` is the verified library:
  - `text.rs`: trimming, ASCII case folding, splitting and searching on the
    character view of strings;
  - `shortcut.rs`: shortcut strings (`Alt+D`, `ctrl+shift+e`), their
    canonical spelling, and the keys and shortcuts derived from them;
  - `config.rs`: provider records and runtime settings, defaults, cleaning
    and validation;
  - `hex.rs`: the hexadecimal text that encrypted keys are stored in;
  - `app_state.rs`: the application state, its invariant, and the
    configuration file it is saved to and loaded from;
  - `translation.rs`: language pairs, provider routes, request contents and
    reading provider answers;
  - `selection.rs`: copying the selected text, as a step function from
    state and event to next state and action that `app/` runs against the
    clipboard, and the check on the copied text;
  - `popup.rs`: the records the translation popup shows;
  - `commands.rs`: the decisions behind the interface's commands.
- `tests/` runs the library on concrete values.
- `app/` is the desktop program around the library: windows, tray, global
  shortcuts, clipboard, files, the system key store and HTTP.
