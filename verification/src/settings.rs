//! Settings of the desktop application and its global shortcut.

use vstd::prelude::*;
use crate::text::{concat, owned, str_eq, split_char, split_spec, unicode_upper, uppercased};

verus! {

/// The application's settings.
pub struct AppSettings {
    pub shortcut: String,
    pub first_run_complete: bool,
    pub welcome_shown: bool,
    pub cli_in_path: bool,
    pub accent_color: String,
}

impl Default for AppSettings {
    fn default() -> (r: Self)
        ensures
            r.shortcut@ == Seq::<char>::empty(),
            !r.first_run_complete && !r.welcome_shown && !r.cli_in_path,
            r.accent_color@ == Seq::<char>::empty(),
    {
        AppSettings {
            shortcut: String::new(),
            first_run_complete: false,
            welcome_shown: false,
            cli_in_path: false,
            accent_color: String::new(),
        }
    }
}

impl AppSettings {
    /// The shortcut used until one is configured.
    pub fn default_shortcut() -> (r: String)
        ensures
            r@ == "Control+P"@,
    {
        owned("Control+P")
    }

    /// The accent colour used until one is configured.
    pub fn default_accent_color() -> (r: String)
        ensures
            r@ == "#20b2aa"@,
    {
        owned("#20b2aa")
    }

    /// The settings from the values found in the settings store; a missing
    /// value takes its default.
    pub fn from_stored(
        shortcut: Option<String>,
        first_run_complete: Option<bool>,
        welcome_shown: Option<bool>,
        cli_in_path: Option<bool>,
        accent_color: Option<String>,
    ) -> (r: AppSettings)
        ensures
            r.shortcut@ == match shortcut {
                Some(s) => s@,
                None => "Control+P"@,
            },
            r.first_run_complete == (first_run_complete == Some(true)),
            r.welcome_shown == (welcome_shown == Some(true)),
            r.cli_in_path == (cli_in_path == Some(true)),
            r.accent_color@ == match accent_color {
                Some(c) => c@,
                None => "#20b2aa"@,
            },
    {
        AppSettings {
            shortcut: match shortcut {
                Some(s) => s,
                None => AppSettings::default_shortcut(),
            },
            first_run_complete: match first_run_complete {
                Some(b) => b,
                None => false,
            },
            welcome_shown: match welcome_shown {
                Some(b) => b,
                None => false,
            },
            cli_in_path: match cli_in_path {
                Some(b) => b,
                None => false,
            },
            accent_color: match accent_color {
                Some(c) => c,
                None => AppSettings::default_accent_color(),
            },
        }
    }
}

/// The keys a shortcut can end in.
#[derive(Clone, Copy, Debug, PartialEq, Eq, Structural)]
pub enum KeyCode {
    KeyA,
    KeyB,
    KeyC,
    KeyD,
    KeyE,
    KeyF,
    KeyG,
    KeyH,
    KeyI,
    KeyJ,
    KeyK,
    KeyL,
    KeyM,
    KeyN,
    KeyO,
    KeyP,
    KeyQ,
    KeyR,
    KeyS,
    KeyT,
    KeyU,
    KeyV,
    KeyW,
    KeyX,
    KeyY,
    KeyZ,
    Digit0,
    Digit1,
    Digit2,
    Digit3,
    Digit4,
    Digit5,
    Digit6,
    Digit7,
    Digit8,
    Digit9,
    F1,
    F2,
    F3,
    F4,
    F5,
    F6,
    F7,
    F8,
    F9,
    F10,
    F11,
    F12,
    Escape,
    Backspace,
    Tab,
    Enter,
    Space,
    ArrowUp,
    ArrowDown,
    ArrowLeft,
    ArrowRight,
    Delete,
    Home,
    End,
    PageUp,
    PageDown,
}

/// The modifier keys held with a shortcut.
#[derive(Clone, Copy, Debug, PartialEq, Eq, Structural)]
pub struct Modifiers {
    pub control: bool,
    pub alt: bool,
    pub shift: bool,
    pub meta: bool,
}

/// A global shortcut: modifiers (none when empty) and a key.
#[derive(Clone, Copy, Debug, PartialEq, Eq, Structural)]
pub struct Shortcut {
    pub mods: Option<Modifiers>,
    pub key: KeyCode,
}

/// The key named by an upper-cased key name.
pub open spec fn code_for(u: Seq<char>) -> Option<KeyCode> {
    if u == "A"@ {
        Some(KeyCode::KeyA)
    } else
    if u == "B"@ {
        Some(KeyCode::KeyB)
    } else
    if u == "C"@ {
        Some(KeyCode::KeyC)
    } else
    if u == "D"@ {
        Some(KeyCode::KeyD)
    } else
    if u == "E"@ {
        Some(KeyCode::KeyE)
    } else
    if u == "F"@ {
        Some(KeyCode::KeyF)
    } else
    if u == "G"@ {
        Some(KeyCode::KeyG)
    } else
    if u == "H"@ {
        Some(KeyCode::KeyH)
    } else
    if u == "I"@ {
        Some(KeyCode::KeyI)
    } else
    if u == "J"@ {
        Some(KeyCode::KeyJ)
    } else
    if u == "K"@ {
        Some(KeyCode::KeyK)
    } else
    if u == "L"@ {
        Some(KeyCode::KeyL)
    } else
    if u == "M"@ {
        Some(KeyCode::KeyM)
    } else
    if u == "N"@ {
        Some(KeyCode::KeyN)
    } else
    if u == "O"@ {
        Some(KeyCode::KeyO)
    } else
    if u == "P"@ {
        Some(KeyCode::KeyP)
    } else
    if u == "Q"@ {
        Some(KeyCode::KeyQ)
    } else
    if u == "R"@ {
        Some(KeyCode::KeyR)
    } else
    if u == "S"@ {
        Some(KeyCode::KeyS)
    } else
    if u == "T"@ {
        Some(KeyCode::KeyT)
    } else
    if u == "U"@ {
        Some(KeyCode::KeyU)
    } else
    if u == "V"@ {
        Some(KeyCode::KeyV)
    } else
    if u == "W"@ {
        Some(KeyCode::KeyW)
    } else
    if u == "X"@ {
        Some(KeyCode::KeyX)
    } else
    if u == "Y"@ {
        Some(KeyCode::KeyY)
    } else
    if u == "Z"@ {
        Some(KeyCode::KeyZ)
    } else
    if u == "0"@ || u == "DIGIT0"@ {
        Some(KeyCode::Digit0)
    } else
    if u == "1"@ || u == "DIGIT1"@ {
        Some(KeyCode::Digit1)
    } else
    if u == "2"@ || u == "DIGIT2"@ {
        Some(KeyCode::Digit2)
    } else
    if u == "3"@ || u == "DIGIT3"@ {
        Some(KeyCode::Digit3)
    } else
    if u == "4"@ || u == "DIGIT4"@ {
        Some(KeyCode::Digit4)
    } else
    if u == "5"@ || u == "DIGIT5"@ {
        Some(KeyCode::Digit5)
    } else
    if u == "6"@ || u == "DIGIT6"@ {
        Some(KeyCode::Digit6)
    } else
    if u == "7"@ || u == "DIGIT7"@ {
        Some(KeyCode::Digit7)
    } else
    if u == "8"@ || u == "DIGIT8"@ {
        Some(KeyCode::Digit8)
    } else
    if u == "9"@ || u == "DIGIT9"@ {
        Some(KeyCode::Digit9)
    } else
    if u == "F1"@ {
        Some(KeyCode::F1)
    } else
    if u == "F2"@ {
        Some(KeyCode::F2)
    } else
    if u == "F3"@ {
        Some(KeyCode::F3)
    } else
    if u == "F4"@ {
        Some(KeyCode::F4)
    } else
    if u == "F5"@ {
        Some(KeyCode::F5)
    } else
    if u == "F6"@ {
        Some(KeyCode::F6)
    } else
    if u == "F7"@ {
        Some(KeyCode::F7)
    } else
    if u == "F8"@ {
        Some(KeyCode::F8)
    } else
    if u == "F9"@ {
        Some(KeyCode::F9)
    } else
    if u == "F10"@ {
        Some(KeyCode::F10)
    } else
    if u == "F11"@ {
        Some(KeyCode::F11)
    } else
    if u == "F12"@ {
        Some(KeyCode::F12)
    } else
    if u == "ESCAPE"@ || u == "ESC"@ {
        Some(KeyCode::Escape)
    } else
    if u == "BACKSPACE"@ {
        Some(KeyCode::Backspace)
    } else
    if u == "TAB"@ {
        Some(KeyCode::Tab)
    } else
    if u == "ENTER"@ || u == "RETURN"@ {
        Some(KeyCode::Enter)
    } else
    if u == "SPACE"@ {
        Some(KeyCode::Space)
    } else
    if u == "ARROWUP"@ {
        Some(KeyCode::ArrowUp)
    } else
    if u == "ARROWDOWN"@ {
        Some(KeyCode::ArrowDown)
    } else
    if u == "ARROWLEFT"@ {
        Some(KeyCode::ArrowLeft)
    } else
    if u == "ARROWRIGHT"@ {
        Some(KeyCode::ArrowRight)
    } else
    if u == "DELETE"@ {
        Some(KeyCode::Delete)
    } else
    if u == "HOME"@ {
        Some(KeyCode::Home)
    } else
    if u == "END"@ {
        Some(KeyCode::End)
    } else
    if u == "PAGEUP"@ {
        Some(KeyCode::PageUp)
    } else
    if u == "PAGEDOWN"@ {
        Some(KeyCode::PageDown)
    } else {
        None
    }
}

fn code_for_upper(u: &str) -> (r: Option<KeyCode>)
    ensures
        r == code_for(u@),
{
    if str_eq(u, "A") {
        Some(KeyCode::KeyA)
    } else
    if str_eq(u, "B") {
        Some(KeyCode::KeyB)
    } else
    if str_eq(u, "C") {
        Some(KeyCode::KeyC)
    } else
    if str_eq(u, "D") {
        Some(KeyCode::KeyD)
    } else
    if str_eq(u, "E") {
        Some(KeyCode::KeyE)
    } else
    if str_eq(u, "F") {
        Some(KeyCode::KeyF)
    } else
    if str_eq(u, "G") {
        Some(KeyCode::KeyG)
    } else
    if str_eq(u, "H") {
        Some(KeyCode::KeyH)
    } else
    if str_eq(u, "I") {
        Some(KeyCode::KeyI)
    } else
    if str_eq(u, "J") {
        Some(KeyCode::KeyJ)
    } else
    if str_eq(u, "K") {
        Some(KeyCode::KeyK)
    } else
    if str_eq(u, "L") {
        Some(KeyCode::KeyL)
    } else
    if str_eq(u, "M") {
        Some(KeyCode::KeyM)
    } else
    if str_eq(u, "N") {
        Some(KeyCode::KeyN)
    } else
    if str_eq(u, "O") {
        Some(KeyCode::KeyO)
    } else
    if str_eq(u, "P") {
        Some(KeyCode::KeyP)
    } else
    if str_eq(u, "Q") {
        Some(KeyCode::KeyQ)
    } else
    if str_eq(u, "R") {
        Some(KeyCode::KeyR)
    } else
    if str_eq(u, "S") {
        Some(KeyCode::KeyS)
    } else
    if str_eq(u, "T") {
        Some(KeyCode::KeyT)
    } else
    if str_eq(u, "U") {
        Some(KeyCode::KeyU)
    } else
    if str_eq(u, "V") {
        Some(KeyCode::KeyV)
    } else
    if str_eq(u, "W") {
        Some(KeyCode::KeyW)
    } else
    if str_eq(u, "X") {
        Some(KeyCode::KeyX)
    } else
    if str_eq(u, "Y") {
        Some(KeyCode::KeyY)
    } else
    if str_eq(u, "Z") {
        Some(KeyCode::KeyZ)
    } else
    if str_eq(u, "0") || str_eq(u, "DIGIT0") {
        Some(KeyCode::Digit0)
    } else
    if str_eq(u, "1") || str_eq(u, "DIGIT1") {
        Some(KeyCode::Digit1)
    } else
    if str_eq(u, "2") || str_eq(u, "DIGIT2") {
        Some(KeyCode::Digit2)
    } else
    if str_eq(u, "3") || str_eq(u, "DIGIT3") {
        Some(KeyCode::Digit3)
    } else
    if str_eq(u, "4") || str_eq(u, "DIGIT4") {
        Some(KeyCode::Digit4)
    } else
    if str_eq(u, "5") || str_eq(u, "DIGIT5") {
        Some(KeyCode::Digit5)
    } else
    if str_eq(u, "6") || str_eq(u, "DIGIT6") {
        Some(KeyCode::Digit6)
    } else
    if str_eq(u, "7") || str_eq(u, "DIGIT7") {
        Some(KeyCode::Digit7)
    } else
    if str_eq(u, "8") || str_eq(u, "DIGIT8") {
        Some(KeyCode::Digit8)
    } else
    if str_eq(u, "9") || str_eq(u, "DIGIT9") {
        Some(KeyCode::Digit9)
    } else
    if str_eq(u, "F1") {
        Some(KeyCode::F1)
    } else
    if str_eq(u, "F2") {
        Some(KeyCode::F2)
    } else
    if str_eq(u, "F3") {
        Some(KeyCode::F3)
    } else
    if str_eq(u, "F4") {
        Some(KeyCode::F4)
    } else
    if str_eq(u, "F5") {
        Some(KeyCode::F5)
    } else
    if str_eq(u, "F6") {
        Some(KeyCode::F6)
    } else
    if str_eq(u, "F7") {
        Some(KeyCode::F7)
    } else
    if str_eq(u, "F8") {
        Some(KeyCode::F8)
    } else
    if str_eq(u, "F9") {
        Some(KeyCode::F9)
    } else
    if str_eq(u, "F10") {
        Some(KeyCode::F10)
    } else
    if str_eq(u, "F11") {
        Some(KeyCode::F11)
    } else
    if str_eq(u, "F12") {
        Some(KeyCode::F12)
    } else
    if str_eq(u, "ESCAPE") || str_eq(u, "ESC") {
        Some(KeyCode::Escape)
    } else
    if str_eq(u, "BACKSPACE") {
        Some(KeyCode::Backspace)
    } else
    if str_eq(u, "TAB") {
        Some(KeyCode::Tab)
    } else
    if str_eq(u, "ENTER") || str_eq(u, "RETURN") {
        Some(KeyCode::Enter)
    } else
    if str_eq(u, "SPACE") {
        Some(KeyCode::Space)
    } else
    if str_eq(u, "ARROWUP") {
        Some(KeyCode::ArrowUp)
    } else
    if str_eq(u, "ARROWDOWN") {
        Some(KeyCode::ArrowDown)
    } else
    if str_eq(u, "ARROWLEFT") {
        Some(KeyCode::ArrowLeft)
    } else
    if str_eq(u, "ARROWRIGHT") {
        Some(KeyCode::ArrowRight)
    } else
    if str_eq(u, "DELETE") {
        Some(KeyCode::Delete)
    } else
    if str_eq(u, "HOME") {
        Some(KeyCode::Home)
    } else
    if str_eq(u, "END") {
        Some(KeyCode::End)
    } else
    if str_eq(u, "PAGEUP") {
        Some(KeyCode::PageUp)
    } else
    if str_eq(u, "PAGEDOWN") {
        Some(KeyCode::PageDown)
    } else {
        None
    }
}

/// The key a name stands for, compared upper-cased (`to_uppercase`).
pub open spec fn key_for(name: Seq<char>) -> Option<KeyCode> {
    code_for(unicode_upper(name))
}

/// The key a shortcut part names, or the error for an unknown one.
pub fn string_to_code(key: &str) -> (r: Result<KeyCode, String>)
    ensures
        r matches Ok(c) ==> key_for(key@) == Some(c),
        r matches Err(e) ==> key_for(key@) is None && e@ == "Unknown key: "@ + key@,
{
    let upper = uppercased(key);
    match code_for_upper(upper.as_str()) {
        Some(c) => Ok(c),
        None => Err(concat("Unknown key: ", key)),
    }
}

/// No modifier held.
pub open spec fn no_mods() -> Modifiers {
    Modifiers { control: false, alt: false, shift: false, meta: false }
}

/// The state after reading one part of a shortcut: modifiers and the key
/// named so far, or the first error.
pub open spec fn shortcut_step(
    acc: Result<(Modifiers, Option<KeyCode>), Seq<char>>,
    part: Seq<char>,
) -> Result<(Modifiers, Option<KeyCode>), Seq<char>> {
    match acc {
        Err(e) => Err(e),
        Ok((m, k)) => if part == "Control"@ || part == "Ctrl"@ {
            Ok((Modifiers { control: true, ..m }, k))
        } else if part == "Alt"@ || part == "Option"@ {
            Ok((Modifiers { alt: true, ..m }, k))
        } else if part == "Shift"@ {
            Ok((Modifiers { shift: true, ..m }, k))
        } else if part == "Meta"@ || part == "Cmd"@ || part == "Command"@ || part == "Super"@ {
            Ok((Modifiers { meta: true, ..m }, k))
        } else {
            match key_for(part) {
                Some(c) => Ok((m, Some(c))),
                None => Err("Unknown key: "@ + part),
            }
        },
    }
}

/// The state after reading the parts in order.
pub open spec fn shortcut_fold(parts: Seq<Seq<char>>) -> Result<(Modifiers, Option<KeyCode>), Seq<char>>
    decreases parts.len(),
{
    if parts.len() == 0 {
        Ok((no_mods(), None))
    } else {
        shortcut_step(shortcut_fold(parts.drop_last()), parts.last())
    }
}

/// The shortcut a string like `"Control+Shift+P"` describes: its `+`
/// separated parts are modifiers and keys; the last key named counts.
pub open spec fn shortcut_spec(s: Seq<char>) -> Result<Shortcut, Seq<char>> {
    match shortcut_fold(split_spec(s, '+')) {
        Err(e) => Err(e),
        Ok((m, None)) => Err("No key specified in shortcut"@),
        Ok((m, Some(k))) => Ok(
            Shortcut {
                mods: if m == no_mods() {
                    None
                } else {
                    Some(m)
                },
                key: k,
            },
        ),
    }
}

/// Reads a shortcut description.
pub fn parse_shortcut(shortcut_str: &str) -> (r: Result<Shortcut, String>)
    ensures
        r matches Ok(sc) ==> shortcut_spec(shortcut_str@) == Ok::<Shortcut, Seq<char>>(sc),
        r matches Err(e) ==> shortcut_spec(shortcut_str@) == Err::<Shortcut, Seq<char>>(e@),
{
    let parts = split_char(shortcut_str, '+');
    let ghost ps = crate::model::strs(parts@);
    let mut mods = Modifiers { control: false, alt: false, shift: false, meta: false };
    let mut key: Option<KeyCode> = None;
    let mut i: usize = 0;
    while i < parts.len()
        invariant
            i <= parts.len(),
            ps == crate::model::strs(parts@),
            ps == split_spec(shortcut_str@, '+'),
            shortcut_fold(ps.take(i as int)) == Ok::<(Modifiers, Option<KeyCode>), Seq<char>>(
                (mods, key),
            ),
        decreases parts.len() - i,
    {
        assert(ps.take(i + 1).drop_last() =~= ps.take(i as int));
        assert(ps.take(i + 1).last() == parts@[i as int]@);
        let part = parts[i].as_str();
        if str_eq(part, "Control") || str_eq(part, "Ctrl") {
            mods.control = true;
        } else if str_eq(part, "Alt") || str_eq(part, "Option") {
            mods.alt = true;
        } else if str_eq(part, "Shift") {
            mods.shift = true;
        } else if str_eq(part, "Meta") || str_eq(part, "Cmd") || str_eq(part, "Command") || str_eq(
            part,
            "Super",
        ) {
            mods.meta = true;
        } else {
            match string_to_code(part) {
                Ok(c) => {
                    key = Some(c);
                },
                Err(e) => {
                    proof {
                        lemma_fold_error_sticks(ps, (i + 1) as nat);
                    }
                    return Err(e);
                },
            }
        }
        i = i + 1;
    }
    assert(ps.take(parts.len() as int) =~= ps);
    match key {
        None => Err(owned("No key specified in shortcut")),
        Some(k) => {
            let none_held = !mods.control && !mods.alt && !mods.shift && !mods.meta;
            Ok(Shortcut { mods: if none_held { None } else { Some(mods) }, key: k })
        },
    }
}

proof fn lemma_fold_error_sticks(ps: Seq<Seq<char>>, n: nat)
    requires
        n <= ps.len(),
        shortcut_fold(ps.take(n as int)) is Err,
    ensures
        shortcut_fold(ps) == shortcut_fold(ps.take(n as int)),
    decreases ps.len() - n,
{
    if n < ps.len() {
        assert(ps.take((n + 1) as int).drop_last() =~= ps.take(n as int));
        lemma_fold_error_sticks(ps, n + 1);
    } else {
        assert(ps.take(n as int) =~= ps);
    }
}

} // verus!
