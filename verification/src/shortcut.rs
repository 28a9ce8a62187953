//! Global shortcut strings: parsing, validation and the canonical spelling.
//!
//! A shortcut is written as parts joined by `+`: modifier names (`Ctrl` or
//! `Control`, `Alt` or `Option`, `Shift`, in any case) and exactly one main key,
//! a letter `A`-`Z` or a digit `0`-`9`.
use vstd::prelude::*;
use crate::text::{chars_of, join_plus, join_with_plus, lemma_split_join_plus, lemma_trim_no_ws, lower, lower_vec, split, trim, trim_bounds, upper, upper_vec, vec_eq_str};

verus! {

broadcast use vstd::string::group_string_axioms;

/// The modifier keys held in a shortcut.
#[derive(Clone, Copy, Debug, PartialEq, Eq, Structural)]
pub struct Modifiers {
    pub ctrl: bool,
    pub alt: bool,
    pub shift: bool,
}

impl Modifiers {
    /// No modifier held.
    pub fn empty() -> (r: Modifiers)
        ensures
            !r.ctrl && !r.alt && !r.shift,
    {
        Modifiers { ctrl: false, alt: false, shift: false }
    }

    /// Whether at least one modifier is held.
    pub open spec fn any(self) -> bool {
        self.ctrl || self.alt || self.shift
    }
}

/// The main key of a shortcut: a letter or a digit of the main keyboard.
#[derive(Clone, Copy, Debug, PartialEq, Eq, Structural)]
pub enum KeyCode {
    KeyA,
    KeyB,
    KeyC,
    KeyD,
    KeyE,
    KeyF,
    KeyG,
    KeyH,
    KeyI,
    KeyJ,
    KeyK,
    KeyL,
    KeyM,
    KeyN,
    KeyO,
    KeyP,
    KeyQ,
    KeyR,
    KeyS,
    KeyT,
    KeyU,
    KeyV,
    KeyW,
    KeyX,
    KeyY,
    KeyZ,
    Digit0,
    Digit1,
    Digit2,
    Digit3,
    Digit4,
    Digit5,
    Digit6,
    Digit7,
    Digit8,
    Digit9,
}

/// A parsed shortcut: its modifiers and its main key.
#[derive(Clone, Copy, Debug, PartialEq, Eq, Structural)]
pub struct Shortcut {
    pub modifiers: Modifiers,
    pub code: KeyCode,
}

/// Why a shortcut string is refused.
#[derive(Clone, Copy, Debug, PartialEq, Eq, Structural)]
pub enum ShortcutError {
    /// Two or more parts are neither modifiers nor blank.
    MultipleMainKeys,
    /// None of Ctrl, Alt and Shift is held.
    MissingModifier,
    /// No main key.
    MissingMainKey,
    /// The main key is not a single letter or digit.
    UnsupportedMainKey,
}

impl ShortcutError {
    /// The message shown to the user.
    pub fn message(&self) -> (r: String)
        ensures
            r@ == spec_shortcut_error_message(*self),
    {
        match self {
            ShortcutError::MultipleMainKeys => "快捷键只能包含一个主键".to_string(),
            ShortcutError::MissingModifier => "快捷键至少需要包含 Alt、Ctrl 或 Shift 之一".to_string(),
            ShortcutError::MissingMainKey => "快捷键需要一个字母或数字".to_string(),
            ShortcutError::UnsupportedMainKey => "快捷键主键只支持 A-Z 或 0-9".to_string(),
        }
    }
}

/// The message of each shortcut error.
pub open spec fn spec_shortcut_error_message(e: ShortcutError) -> Seq<char> {
    match e {
        ShortcutError::MultipleMainKeys => "快捷键只能包含一个主键"@,
        ShortcutError::MissingModifier => "快捷键至少需要包含 Alt、Ctrl 或 Shift 之一"@,
        ShortcutError::MissingMainKey => "快捷键需要一个字母或数字"@,
        ShortcutError::UnsupportedMainKey => "快捷键主键只支持 A-Z 或 0-9"@,
    }
}

/// The key code that a one-character main key names.
pub open spec fn code_of_char(c: char) -> Option<KeyCode> {
    if c == 'A' { Some(KeyCode::KeyA) }
    else if c == 'B' { Some(KeyCode::KeyB) }
    else if c == 'C' { Some(KeyCode::KeyC) }
    else if c == 'D' { Some(KeyCode::KeyD) }
    else if c == 'E' { Some(KeyCode::KeyE) }
    else if c == 'F' { Some(KeyCode::KeyF) }
    else if c == 'G' { Some(KeyCode::KeyG) }
    else if c == 'H' { Some(KeyCode::KeyH) }
    else if c == 'I' { Some(KeyCode::KeyI) }
    else if c == 'J' { Some(KeyCode::KeyJ) }
    else if c == 'K' { Some(KeyCode::KeyK) }
    else if c == 'L' { Some(KeyCode::KeyL) }
    else if c == 'M' { Some(KeyCode::KeyM) }
    else if c == 'N' { Some(KeyCode::KeyN) }
    else if c == 'O' { Some(KeyCode::KeyO) }
    else if c == 'P' { Some(KeyCode::KeyP) }
    else if c == 'Q' { Some(KeyCode::KeyQ) }
    else if c == 'R' { Some(KeyCode::KeyR) }
    else if c == 'S' { Some(KeyCode::KeyS) }
    else if c == 'T' { Some(KeyCode::KeyT) }
    else if c == 'U' { Some(KeyCode::KeyU) }
    else if c == 'V' { Some(KeyCode::KeyV) }
    else if c == 'W' { Some(KeyCode::KeyW) }
    else if c == 'X' { Some(KeyCode::KeyX) }
    else if c == 'Y' { Some(KeyCode::KeyY) }
    else if c == 'Z' { Some(KeyCode::KeyZ) }
    else if c == '0' { Some(KeyCode::Digit0) }
    else if c == '1' { Some(KeyCode::Digit1) }
    else if c == '2' { Some(KeyCode::Digit2) }
    else if c == '3' { Some(KeyCode::Digit3) }
    else if c == '4' { Some(KeyCode::Digit4) }
    else if c == '5' { Some(KeyCode::Digit5) }
    else if c == '6' { Some(KeyCode::Digit6) }
    else if c == '7' { Some(KeyCode::Digit7) }
    else if c == '8' { Some(KeyCode::Digit8) }
    else if c == '9' { Some(KeyCode::Digit9) }
    else { None }
}

/// The key code that a main key names: one upper-case letter or one digit.
pub open spec fn spec_key_code(key: Seq<char>) -> Option<KeyCode> {
    if key.len() == 1 {
        code_of_char(key[0])
    } else {
        None
    }
}

/// The key code of a main key, or `UnsupportedMainKey`.
pub fn key_to_code(key: &str) -> (r: Result<KeyCode, ShortcutError>)
    ensures
        r == (match spec_key_code(key@) {
            Some(code) => Ok(code),
            None => Err(ShortcutError::UnsupportedMainKey),
        }),
{
    let v = chars_of(key);
    if v.len() != 1 {
        return Err(ShortcutError::UnsupportedMainKey);
    }
    match v[0] {
        'A' => Ok(KeyCode::KeyA),
        'B' => Ok(KeyCode::KeyB),
        'C' => Ok(KeyCode::KeyC),
        'D' => Ok(KeyCode::KeyD),
        'E' => Ok(KeyCode::KeyE),
        'F' => Ok(KeyCode::KeyF),
        'G' => Ok(KeyCode::KeyG),
        'H' => Ok(KeyCode::KeyH),
        'I' => Ok(KeyCode::KeyI),
        'J' => Ok(KeyCode::KeyJ),
        'K' => Ok(KeyCode::KeyK),
        'L' => Ok(KeyCode::KeyL),
        'M' => Ok(KeyCode::KeyM),
        'N' => Ok(KeyCode::KeyN),
        'O' => Ok(KeyCode::KeyO),
        'P' => Ok(KeyCode::KeyP),
        'Q' => Ok(KeyCode::KeyQ),
        'R' => Ok(KeyCode::KeyR),
        'S' => Ok(KeyCode::KeyS),
        'T' => Ok(KeyCode::KeyT),
        'U' => Ok(KeyCode::KeyU),
        'V' => Ok(KeyCode::KeyV),
        'W' => Ok(KeyCode::KeyW),
        'X' => Ok(KeyCode::KeyX),
        'Y' => Ok(KeyCode::KeyY),
        'Z' => Ok(KeyCode::KeyZ),
        '0' => Ok(KeyCode::Digit0),
        '1' => Ok(KeyCode::Digit1),
        '2' => Ok(KeyCode::Digit2),
        '3' => Ok(KeyCode::Digit3),
        '4' => Ok(KeyCode::Digit4),
        '5' => Ok(KeyCode::Digit5),
        '6' => Ok(KeyCode::Digit6),
        '7' => Ok(KeyCode::Digit7),
        '8' => Ok(KeyCode::Digit8),
        '9' => Ok(KeyCode::Digit9),
        _ => Err(ShortcutError::UnsupportedMainKey),
    }
}


/// What the scan of a shortcut's parts has found so far.
pub struct ScanState {
    pub modifiers: Modifiers,
    pub key: Option<Seq<char>>,
    pub repeated: bool,
}

/// The state before any part is read.
pub open spec fn scan_start() -> ScanState {
    ScanState {
        modifiers: Modifiers { ctrl: false, alt: false, shift: false },
        key: None,
        repeated: false,
    }
}

/// Reads one `+`-separated part: blank parts are skipped, modifier names
/// (any ASCII case) set their modifier, anything else is the main key,
/// upper-cased; a second main key marks the shortcut as refused.
pub open spec fn scan_step(st: ScanState, part: Seq<char>) -> ScanState {
    let p = lower(trim(part));
    if st.repeated || trim(part).len() == 0 {
        st
    } else if p == "ctrl"@ || p == "control"@ {
        ScanState {
            modifiers: Modifiers { ctrl: true, alt: st.modifiers.alt, shift: st.modifiers.shift },
            key: st.key,
            repeated: st.repeated,
        }
    } else if p == "alt"@ || p == "option"@ {
        ScanState {
            modifiers: Modifiers { ctrl: st.modifiers.ctrl, alt: true, shift: st.modifiers.shift },
            key: st.key,
            repeated: st.repeated,
        }
    } else if p == "shift"@ {
        ScanState {
            modifiers: Modifiers { ctrl: st.modifiers.ctrl, alt: st.modifiers.alt, shift: true },
            key: st.key,
            repeated: st.repeated,
        }
    } else if st.key is Some {
        ScanState { modifiers: st.modifiers, key: st.key, repeated: true }
    } else {
        ScanState { modifiers: st.modifiers, key: Some(upper(p)), repeated: st.repeated }
    }
}

/// The scan state after reading `parts` in order.
pub open spec fn scan_parts(parts: Seq<Seq<char>>) -> ScanState
    decreases parts.len(),
{
    if parts.len() == 0 {
        scan_start()
    } else {
        scan_step(scan_parts(parts.drop_last()), parts.last())
    }
}

/// The modifiers and the main key that a shortcut string names, or why it
/// is refused.
pub open spec fn spec_parse_shortcut_parts(input: Seq<char>) -> Result<
    (Modifiers, Seq<char>),
    ShortcutError,
> {
    let st = scan_parts(split(input, '+'));
    if st.repeated {
        Err(ShortcutError::MultipleMainKeys)
    } else if !st.modifiers.any() {
        Err(ShortcutError::MissingModifier)
    } else {
        match st.key {
            None => Err(ShortcutError::MissingMainKey),
            Some(key) => if spec_key_code(key) is Some {
                Ok((st.modifiers, key))
            } else {
                Err(ShortcutError::UnsupportedMainKey)
            },
        }
    }
}

/// The shortcut that a string names, or why it is refused.
pub open spec fn spec_parse_user_shortcut(input: Seq<char>) -> Result<Shortcut, ShortcutError> {
    match spec_parse_shortcut_parts(input) {
        Ok((modifiers, key)) => Ok(Shortcut { modifiers, code: spec_key_code(key).unwrap() }),
        Err(e) => Err(e),
    }
}

/// The names of the modifiers held, in the order Ctrl, Alt, Shift.
pub open spec fn modifier_names(modifiers: Modifiers) -> Seq<Seq<char>> {
    let with_ctrl = if modifiers.ctrl {
        seq!["Ctrl"@]
    } else {
        Seq::<Seq<char>>::empty()
    };
    let with_alt = if modifiers.alt {
        with_ctrl.push("Alt"@)
    } else {
        with_ctrl
    };
    if modifiers.shift {
        with_alt.push("Shift"@)
    } else {
        with_alt
    }
}

/// The canonical spelling: the names of the modifiers held, then the main
/// key, joined by `+`.
pub open spec fn canonical_shortcut(modifiers: Modifiers, key: Seq<char>) -> Seq<char> {
    join_plus(modifier_names(modifiers).push(key))
}

/// The canonical spelling of a shortcut string, or why it is refused.
pub open spec fn spec_normalize_shortcut(input: Seq<char>) -> Result<Seq<char>, ShortcutError> {
    match spec_parse_shortcut_parts(input) {
        Ok((modifiers, key)) => Ok(canonical_shortcut(modifiers, key)),
        Err(e) => Err(e),
    }
}

struct Scan {
    modifiers: Modifiers,
    key: Option<Vec<char>>,
    repeated: bool,
}

impl Scan {
    closed spec fn state(&self) -> ScanState {
        ScanState {
            modifiers: self.modifiers,
            key: match self.key {
                Some(k) => Some(k@),
                None => None,
            },
            repeated: self.repeated,
        }
    }

    fn step(&mut self, part: &Vec<char>)
        ensures
            final(self).state() == scan_step(old(self).state(), part@),
    {
        let (lo, hi) = trim_bounds(part);
        if self.repeated || lo == hi {
            return;
        }
        let mut trimmed: Vec<char> = Vec::new();
        let mut i = lo;
        while i < hi
            invariant
                lo <= i <= hi <= part.len(),
                trimmed@ == part@.subrange(lo as int, i as int),
            decreases hi - i,
        {
            trimmed.push(part[i]);
            assert(part@.subrange(lo as int, i + 1) == part@.subrange(lo as int, i as int).push(
                part@[i as int],
            ));
            i = i + 1;
        }
        let p = lower_vec(&trimmed);
        if vec_eq_str(&p, "ctrl") || vec_eq_str(&p, "control") {
            self.modifiers.ctrl = true;
        } else if vec_eq_str(&p, "alt") || vec_eq_str(&p, "option") {
            self.modifiers.alt = true;
        } else if vec_eq_str(&p, "shift") {
            self.modifiers.shift = true;
        } else if self.key.is_some() {
            self.repeated = true;
        } else {
            self.key = Some(upper_vec(&p));
        }
    }
}

/// Splits a shortcut string into its modifiers and its main key (upper-cased).
pub fn parse_shortcut_parts(input: &str) -> (r: Result<(Modifiers, String), ShortcutError>)
    ensures
        match r {
            Ok((modifiers, key)) => spec_parse_shortcut_parts(input@) == Ok::<
                (Modifiers, Seq<char>),
                ShortcutError,
            >((modifiers, key@)),
            Err(e) => spec_parse_shortcut_parts(input@) == Err::<
                (Modifiers, Seq<char>),
                ShortcutError,
            >(e),
        },
{
    let chars = chars_of(input);
    let mut scan = Scan { modifiers: Modifiers::empty(), key: None, repeated: false };
    let mut current: Vec<char> = Vec::new();
    let mut i: usize = 0;
    assert(chars@.take(0) == Seq::<char>::empty());
    while i < chars.len()
        invariant
            i <= chars.len(),
            chars@ == input@,
            current@ == split(chars@.take(i as int), '+').last(),
            scan.state() == scan_parts(split(chars@.take(i as int), '+').drop_last()),
        decreases chars.len() - i,
    {
        let c = chars[i];
        let ghost before = chars@.take(i as int);
        assert(chars@.take(i + 1).drop_last() == before);
        assert(chars@.take(i + 1).last() == c);
        proof {
            crate::text::lemma_split_len(before, '+');
        }
        if c == '+' {
            scan.step(&current);
            current = Vec::new();
            assert(split(chars@.take(i + 1), '+').drop_last() == split(before, '+'));
        } else {
            current.push(c);
            assert(split(chars@.take(i + 1), '+').drop_last() == split(before, '+').drop_last());
        }
        i = i + 1;
    }
    assert(chars@.take(chars.len() as int) == chars@);
    proof {
        crate::text::lemma_split_len(chars@, '+');
    }
    scan.step(&current);
    assert(scan.state() == scan_parts(split(chars@, '+')));
    if scan.repeated {
        return Err(ShortcutError::MultipleMainKeys);
    }
    if !(scan.modifiers.ctrl || scan.modifiers.alt || scan.modifiers.shift) {
        return Err(ShortcutError::MissingModifier);
    }
    match scan.key {
        None => Err(ShortcutError::MissingMainKey),
        Some(key) => {
            let key = crate::text::string_of(&key);
            match key_to_code(key.as_str()) {
                Ok(_) => Ok((scan.modifiers, key)),
                Err(e) => Err(e),
            }
        },
    }
}


/// Parses a shortcut string into the shortcut it names.
pub fn parse_user_shortcut(input: &str) -> (r: Result<Shortcut, ShortcutError>)
    ensures
        r == spec_parse_user_shortcut(input@),
{
    match parse_shortcut_parts(input) {
        Ok((modifiers, key)) => match key_to_code(key.as_str()) {
            Ok(code) => Ok(Shortcut { modifiers, code }),
            Err(e) => Err(e),
        },
        Err(e) => Err(e),
    }
}

/// The canonical spelling of a shortcut string: the modifiers held as `Ctrl`,
/// `Alt`, `Shift` in that order, then the upper-case main key, joined by `+`.
pub fn normalize_shortcut(input: &str) -> (r: Result<String, ShortcutError>)
    ensures
        match r {
            Ok(s) => spec_normalize_shortcut(input@) == Ok::<Seq<char>, ShortcutError>(s@),
            Err(e) => spec_normalize_shortcut(input@) == Err::<Seq<char>, ShortcutError>(e),
        },
{
    let (modifiers, key) = match parse_shortcut_parts(input) {
        Ok(parts) => parts,
        Err(e) => return Err(e),
    };
    let mut parts: Vec<String> = Vec::new();
    if modifiers.ctrl {
        parts.push("Ctrl".to_string());
    }
    if modifiers.alt {
        parts.push("Alt".to_string());
    }
    if modifiers.shift {
        parts.push("Shift".to_string());
    }
    parts.push(key);
    assert(parts@.map_values(|p: String| p@) == modifier_names(modifiers).push(key@));
    let out = join_with_plus(&parts);
    Ok(out)
}


proof fn lemma_scan_names(modifiers: Modifiers)
    ensures
        scan_parts(modifier_names(modifiers)) == (ScanState {
            modifiers,
            key: None,
            repeated: false,
        }),
        forall|k: int, i: int|
            0 <= k < modifier_names(modifiers).len() && 0 <= i < modifier_names(
                modifiers,
            )[k].len() ==> #[trigger] modifier_names(modifiers)[k][i] != '+',
{
    reveal_strlit("Ctrl");
    reveal_strlit("Alt");
    reveal_strlit("Shift");
    reveal_strlit("ctrl");
    reveal_strlit("control");
    reveal_strlit("alt");
    reveal_strlit("option");
    reveal_strlit("shift");
    lemma_trim_no_ws("Ctrl"@);
    lemma_trim_no_ws("Alt"@);
    lemma_trim_no_ws("Shift"@);
    assert(lower("Ctrl"@) =~= "ctrl"@);
    assert(lower("Alt"@) =~= "alt"@);
    assert(lower("Shift"@) =~= "shift"@);
    let e = Seq::<Seq<char>>::empty();
    let c = if modifiers.ctrl {
        seq!["Ctrl"@]
    } else {
        e
    };
    let a = if modifiers.alt {
        c.push("Alt"@)
    } else {
        c
    };
    assert(seq!["Ctrl"@] == e.push("Ctrl"@));
    assert(e.push("Ctrl"@).drop_last() == e);
    assert(c.push("Alt"@).drop_last() == c);
    assert(a.push("Shift"@).drop_last() == a);
    let s0 = scan_start();
    assert(scan_parts(e) == s0);
    if modifiers.ctrl {
        assert(c.drop_last() == e);
        assert(c.last() == "Ctrl"@);
        assert(scan_parts(c) == scan_step(s0, "Ctrl"@));
    }
    let sc = scan_parts(c);
    assert(sc == ScanState {
        modifiers: Modifiers { ctrl: modifiers.ctrl, alt: false, shift: false },
        key: None,
        repeated: false,
    });
    let sa = scan_parts(a);
    assert(sa == ScanState {
        modifiers: Modifiers { ctrl: modifiers.ctrl, alt: modifiers.alt, shift: false },
        key: None,
        repeated: false,
    });
}

/// The canonical spelling of a shortcut reads back as that shortcut.
pub proof fn lemma_canonical_shortcut_parses(modifiers: Modifiers, key: Seq<char>)
    requires
        modifiers.any(),
        spec_key_code(key) is Some,
    ensures
        spec_parse_shortcut_parts(canonical_shortcut(modifiers, key)) == Ok::<
            (Modifiers, Seq<char>),
            ShortcutError,
        >((modifiers, key)),
{
    reveal_strlit("ctrl");
    reveal_strlit("control");
    reveal_strlit("alt");
    reveal_strlit("option");
    reveal_strlit("shift");
    let names = modifier_names(modifiers);
    let parts = names.push(key);
    lemma_scan_names(modifiers);
    let c = key[0];
    assert(key == seq![c]);
    assert forall|k: int, i: int|
        0 <= k < parts.len() && 0 <= i < parts[k].len() implies #[trigger] parts[k][i] != '+' by {
        if k < names.len() {
            assert(parts[k] == names[k]);
        }
    }
    lemma_split_join_plus(parts);
    assert(parts.drop_last() == names);
    lemma_trim_no_ws(key);
    assert(lower(key).len() == 1);
    assert(upper(lower(key)) =~= key);
    assert(scan_parts(parts) == ScanState { modifiers, key: Some(key), repeated: false });
}

/// Normalizing is stable: the canonical spelling of an accepted shortcut is
/// accepted, names the same modifiers and main key, and is its own canonical
/// spelling.
pub proof fn lemma_normalize_shortcut_idempotent(input: Seq<char>)
    requires
        spec_normalize_shortcut(input) is Ok,
    ensures
        spec_parse_shortcut_parts(spec_normalize_shortcut(input)->Ok_0)
            == spec_parse_shortcut_parts(input),
        spec_parse_user_shortcut(spec_normalize_shortcut(input)->Ok_0) == spec_parse_user_shortcut(
            input,
        ),
        spec_normalize_shortcut(spec_normalize_shortcut(input)->Ok_0) == spec_normalize_shortcut(
            input,
        ),
{
    let (modifiers, key) = spec_parse_shortcut_parts(input)->Ok_0;
    lemma_canonical_shortcut_parses(modifiers, key);
}


/// Milliseconds within which a second press of the selection shortcut is ignored.
pub const DEBOUNCE_MS: u64 = 200;

/// Pixels between the mouse pointer and the top of the popup.
pub const POPUP_OFFSET_Y: i32 = 22;

/// The shortcuts to register for given settings: the selection shortcut, and
/// the main-window one when it differs.
pub open spec fn spec_shortcuts_to_register(shortcut: Seq<char>, main_shortcut: Seq<char>) -> Result<Seq<Shortcut>, ShortcutError> {
    match spec_parse_user_shortcut(shortcut) {
        Err(e) => Err(e),
        Ok(s) => match spec_parse_user_shortcut(main_shortcut) {
            Err(e) => Err(e),
            Ok(m) => if s == m {
                Ok(seq![s])
            } else {
                Ok(seq![s, m])
            },
        },
    }
}

/// Parses both shortcuts of the settings and lists the ones to register.
pub fn shortcuts_to_register(settings: &crate::config::RuntimeSettings) -> (r: Result<Vec<Shortcut>, ShortcutError>)
    ensures
        match r {
            Ok(v) => spec_shortcuts_to_register(settings@.shortcut, settings@.main_shortcut) == Ok::<
                Seq<Shortcut>,
                ShortcutError,
            >(v@),
            Err(e) => spec_shortcuts_to_register(settings@.shortcut, settings@.main_shortcut)
                == Err::<Seq<Shortcut>, ShortcutError>(e),
        },
{
    let shortcut = match parse_user_shortcut(settings.shortcut.as_str()) {
        Ok(s) => s,
        Err(e) => return Err(e),
    };
    let main_shortcut = match parse_user_shortcut(settings.main_shortcut.as_str()) {
        Ok(s) => s,
        Err(e) => return Err(e),
    };
    let mut r: Vec<Shortcut> = Vec::new();
    r.push(shortcut);
    if shortcut != main_shortcut {
        r.push(main_shortcut);
    }
    assert(r@ == (if shortcut == main_shortcut {
        seq![shortcut]
    } else {
        seq![shortcut, main_shortcut]
    }));
    Ok(r)
}

/// A key to release before the copy keystroke is simulated.
#[derive(Clone, Copy, Debug, PartialEq, Eq, Structural)]
pub enum ReleaseKey {
    Alt,
    Control,
    Shift,
    /// The main key, by its lower-case character.
    Layout(char),
}

/// The keys of the selection shortcut that may still be held: Alt, Control,
/// Shift when the shortcut holds them, then its main key in lower case;
/// nothing when the shortcut does not parse.
pub open spec fn spec_release_keys(shortcut: Seq<char>) -> Seq<ReleaseKey> {
    match spec_parse_shortcut_parts(shortcut) {
        Err(_) => Seq::empty(),
        Ok((m, key)) => {
            let a = if m.alt {
                seq![ReleaseKey::Alt]
            } else {
                Seq::empty()
            };
            let c = if m.ctrl {
                a.push(ReleaseKey::Control)
            } else {
                a
            };
            let s = if m.shift {
                c.push(ReleaseKey::Shift)
            } else {
                c
            };
            if key.len() > 0 {
                s.push(ReleaseKey::Layout(crate::text::lower_char(key[0])))
            } else {
                s
            }
        },
    }
}

/// The keys to release before simulating the copy keystroke.
pub fn release_keys(shortcut: &str) -> (r: Vec<ReleaseKey>)
    ensures
        r@ == spec_release_keys(shortcut@),
{
    let mut r: Vec<ReleaseKey> = Vec::new();
    let (modifiers, key) = match parse_shortcut_parts(shortcut) {
        Ok(parts) => parts,
        Err(_) => return r,
    };
    if modifiers.alt {
        r.push(ReleaseKey::Alt);
    }
    if modifiers.ctrl {
        r.push(ReleaseKey::Control);
    }
    if modifiers.shift {
        r.push(ReleaseKey::Shift);
    }
    let chars = chars_of(key.as_str());
    if chars.len() > 0 {
        r.push(ReleaseKey::Layout(crate::text::lower_char_exec(chars[0])));
    }
    r
}

/// The text translated by the sample command.
pub fn sample_text() -> (r: &'static str)
    ensures
        r@ == "within a few milliseconds after the shortcut is pressed."@,
{
    "within a few milliseconds after the shortcut is pressed."
}

/// The message shown when no selected text could be read.
pub fn empty_selection_message() -> (r: String)
    ensures
        r@ == "未读取到选中文本。Alt+D 在浏览器中可能会先聚焦地址栏；请确认文字仍被选中，或在设置中改用不冲突的快捷键。"@,
{
    "未读取到选中文本。Alt+D 在浏览器中可能会先聚焦地址栏；请确认文字仍被选中，或在设置中改用不冲突的快捷键。".to_string()
}

/// Whether the clipboard holds newly copied text: not blank, and not the
/// sentinel written before the copy.
pub fn is_fresh_clipboard_text(text: &str, sentinel: &str) -> (r: bool)
    ensures
        r == (!crate::text::is_blank(text@) && text@ != sentinel@),
{
    !crate::text::is_blank_str(text) && !crate::text::str_eq(text, sentinel)
}

/// The sentinel written to the clipboard before the copy keystroke, made
/// unique by the time in nanoseconds.
pub fn copy_sentinel(nanos: u128) -> (r: String)
    ensures
        r@ == "__AI_TRANSLATE_COPY_SENTINEL_"@ + crate::text::decimal(nanos as nat) + "__"@,
{
    let mut r = "__AI_TRANSLATE_COPY_SENTINEL_".to_string();
    let digits = crate::text::decimal_u128(nanos);
    r.append(digits.as_str());
    r.append("__");
    r
}

/// Milliseconds to wait before the copy keystroke of the given attempt
/// (counted from 0): 35, then 40 more for each further attempt.
pub fn copy_attempt_delay_ms(attempt: u64) -> (r: u64)
    requires
        attempt <= (u64::MAX - 35) / 40,
    ensures
        r == 35 + attempt * 40,
{
    35 + attempt * 40
}

/// Where the popup goes: under the mouse pointer, `POPUP_OFFSET_Y` pixels lower.
pub fn popup_position(mouse_x: i32, mouse_y: i32) -> (r: (i32, i32))
    requires
        mouse_y <= i32::MAX - POPUP_OFFSET_Y,
    ensures
        r == (mouse_x, (mouse_y + POPUP_OFFSET_Y) as i32),
{
    (mouse_x, mouse_y + POPUP_OFFSET_Y)
}


/// What a global shortcut event leads to.
#[derive(Clone, Copy, Debug, PartialEq, Eq, Structural)]
pub enum ShortcutAction {
    /// Translate the selected text.
    TranslateSelection,
    /// Show the main window.
    ShowMainWindow,
}

/// What a global shortcut event leads to: nothing unless the key went down;
/// then the selection shortcut translates, else the main-window shortcut
/// shows the main window.
pub fn shortcut_dispatch(pressed: bool, is_selection: bool, is_main: bool) -> (r: Option<ShortcutAction>)
    ensures
        r == (if !pressed {
            None
        } else if is_selection {
            Some(ShortcutAction::TranslateSelection)
        } else if is_main {
            Some(ShortcutAction::ShowMainWindow)
        } else {
            None
        }),
{
    if !pressed {
        None
    } else if is_selection {
        Some(ShortcutAction::TranslateSelection)
    } else if is_main {
        Some(ShortcutAction::ShowMainWindow)
    } else {
        None
    }
}


/// The letter or digit printed on a key.
pub open spec fn key_code_char(code: KeyCode) -> char {
    match code {
        KeyCode::KeyA => 'A',
        KeyCode::KeyB => 'B',
        KeyCode::KeyC => 'C',
        KeyCode::KeyD => 'D',
        KeyCode::KeyE => 'E',
        KeyCode::KeyF => 'F',
        KeyCode::KeyG => 'G',
        KeyCode::KeyH => 'H',
        KeyCode::KeyI => 'I',
        KeyCode::KeyJ => 'J',
        KeyCode::KeyK => 'K',
        KeyCode::KeyL => 'L',
        KeyCode::KeyM => 'M',
        KeyCode::KeyN => 'N',
        KeyCode::KeyO => 'O',
        KeyCode::KeyP => 'P',
        KeyCode::KeyQ => 'Q',
        KeyCode::KeyR => 'R',
        KeyCode::KeyS => 'S',
        KeyCode::KeyT => 'T',
        KeyCode::KeyU => 'U',
        KeyCode::KeyV => 'V',
        KeyCode::KeyW => 'W',
        KeyCode::KeyX => 'X',
        KeyCode::KeyY => 'Y',
        KeyCode::KeyZ => 'Z',
        KeyCode::Digit0 => '0',
        KeyCode::Digit1 => '1',
        KeyCode::Digit2 => '2',
        KeyCode::Digit3 => '3',
        KeyCode::Digit4 => '4',
        KeyCode::Digit5 => '5',
        KeyCode::Digit6 => '6',
        KeyCode::Digit7 => '7',
        KeyCode::Digit8 => '8',
        KeyCode::Digit9 => '9',
    }
}

/// Main keys are exactly the upper-case letters and the digits, and each
/// names the key printed with that same letter or digit: the key code of a
/// main key is the key labelled with it, so different main keys have
/// different codes.
pub proof fn lemma_key_code_names_key(key: Seq<char>)
    ensures
        spec_key_code(key) is Some <==> key.len() == 1 && (('A' <= key[0] <= 'Z') || ('0' <= key[0]
            <= '9')),
        spec_key_code(key) matches Some(code) ==> key == seq![key_code_char(code)],
{
    if key.len() == 1 {
        assert(key =~= seq![key[0]]);
    }
}

/// Two main keys with the same key code are the same key.
pub proof fn lemma_key_code_injective(a: Seq<char>, b: Seq<char>)
    requires
        spec_key_code(a) is Some,
        spec_key_code(a) == spec_key_code(b),
    ensures
        a == b,
{
    lemma_key_code_names_key(a);
    lemma_key_code_names_key(b);
}


/// A shortcut string is accepted as a shortcut exactly when it has a
/// canonical spelling, and the key registered for it is the one labelled
/// with the main key of that spelling, under the same modifiers.
pub proof fn lemma_parsed_shortcut_matches_spelling(input: Seq<char>)
    ensures
        spec_parse_user_shortcut(input) is Ok <==> spec_normalize_shortcut(input) is Ok,
        spec_parse_user_shortcut(input) matches Ok(sc) ==> spec_normalize_shortcut(input) == Ok::<
            Seq<char>,
            ShortcutError,
        >(canonical_shortcut(sc.modifiers, seq![key_code_char(sc.code)])),
{
    if let Ok((modifiers, key)) = spec_parse_shortcut_parts(input) {
        lemma_key_code_names_key(key);
    }
}

} // verus!
