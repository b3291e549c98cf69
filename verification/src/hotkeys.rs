//! Hotkey bindings: parsing of key chords such as "Ctrl+Shift+1", "F5" or "Alt+K",
//! the chord text that a key capture produces, and the binding table that turns
//! keyboard snapshots into edge-triggered sound triggers.

use vstd::prelude::*;
use crate::models::{SoundFile, SoundView};
use crate::store::sound_views;
use crate::text::{
    ascii_lower, ascii_upper, chars_eq_str, chars_of, decimal_digits, decimal_text, decimal_value, digit_value, is_ascii_digit,
    is_white_space, lemma_split_nonempty, parse_u8, parse_u8_spec, push_str, split_chars,
    split_on, str_eq, string_views, to_ascii_lower, to_ascii_upper, trim, trimmed, views,
};

verus! {

/// A physical key, as the keyboard poller reports it.
#[derive(Clone, Copy, PartialEq, Eq, Hash, Debug, Structural)]
pub enum Keycode {
    Key0,
    Key1,
    Key2,
    Key3,
    Key4,
    Key5,
    Key6,
    Key7,
    Key8,
    Key9,
    A,
    B,
    C,
    D,
    E,
    F,
    G,
    H,
    I,
    J,
    K,
    L,
    M,
    N,
    O,
    P,
    Q,
    R,
    S,
    T,
    U,
    V,
    W,
    X,
    Y,
    Z,
    F1,
    F2,
    F3,
    F4,
    F5,
    F6,
    F7,
    F8,
    F9,
    F10,
    F11,
    F12,
    F13,
    F14,
    F15,
    F16,
    F17,
    F18,
    F19,
    F20,
    Numpad0,
    Numpad1,
    Numpad2,
    Numpad3,
    Numpad4,
    Numpad5,
    Numpad6,
    Numpad7,
    Numpad8,
    Numpad9,
    Space,
    Tab,
    Enter,
    Backspace,
    Escape,
    Delete,
    Insert,
    Home,
    End,
    PageUp,
    PageDown,
    Up,
    Down,
    Left,
    Right,
    CapsLock,
    LControl,
    RControl,
    LShift,
    RShift,
    LAlt,
    RAlt,
}

/// A parsed binding: optional modifiers and one non-modifier key.
#[derive(Clone, Copy, PartialEq, Eq, Hash, Debug, Structural)]
pub struct ParsedHotkey {
    pub ctrl: bool,
    pub shift: bool,
    pub alt: bool,
    pub key: Keycode,
}

// ───────────────────────── key names ─────────────────────────

/// The function key with number `n` (1 to 20).
pub open spec fn function_key(n: u8) -> Keycode {
    match n {
        1 => Keycode::F1,
        2 => Keycode::F2,
        3 => Keycode::F3,
        4 => Keycode::F4,
        5 => Keycode::F5,
        6 => Keycode::F6,
        7 => Keycode::F7,
        8 => Keycode::F8,
        9 => Keycode::F9,
        10 => Keycode::F10,
        11 => Keycode::F11,
        12 => Keycode::F12,
        13 => Keycode::F13,
        14 => Keycode::F14,
        15 => Keycode::F15,
        16 => Keycode::F16,
        17 => Keycode::F17,
        18 => Keycode::F18,
        19 => Keycode::F19,
        _ => Keycode::F20,
    }
}

/// The letter key for an uppercase ASCII letter.
pub open spec fn letter_key(c: char) -> Keycode {
    match c {
        'A' => Keycode::A,
        'B' => Keycode::B,
        'C' => Keycode::C,
        'D' => Keycode::D,
        'E' => Keycode::E,
        'F' => Keycode::F,
        'G' => Keycode::G,
        'H' => Keycode::H,
        'I' => Keycode::I,
        'J' => Keycode::J,
        'K' => Keycode::K,
        'L' => Keycode::L,
        'M' => Keycode::M,
        'N' => Keycode::N,
        'O' => Keycode::O,
        'P' => Keycode::P,
        'Q' => Keycode::Q,
        'R' => Keycode::R,
        'S' => Keycode::S,
        'T' => Keycode::T,
        'U' => Keycode::U,
        'V' => Keycode::V,
        'W' => Keycode::W,
        'X' => Keycode::X,
        'Y' => Keycode::Y,
        _ => Keycode::Z,
    }
}

/// The top-row digit key for an ASCII digit.
pub open spec fn digit_key(c: char) -> Keycode {
    match c {
        '0' => Keycode::Key0,
        '1' => Keycode::Key1,
        '2' => Keycode::Key2,
        '3' => Keycode::Key3,
        '4' => Keycode::Key4,
        '5' => Keycode::Key5,
        '6' => Keycode::Key6,
        '7' => Keycode::Key7,
        '8' => Keycode::Key8,
        _ => Keycode::Key9,
    }
}

/// The numpad digit key with number `n` (0 to 9).
pub open spec fn numpad_key(n: u8) -> Keycode {
    match n {
        0 => Keycode::Numpad0,
        1 => Keycode::Numpad1,
        2 => Keycode::Numpad2,
        3 => Keycode::Numpad3,
        4 => Keycode::Numpad4,
        5 => Keycode::Numpad5,
        6 => Keycode::Numpad6,
        7 => Keycode::Numpad7,
        8 => Keycode::Numpad8,
        _ => Keycode::Numpad9,
    }
}

/// Keys that are known by a name (the text is already uppercase).
pub open spec fn named_key(p: Seq<char>) -> Option<Keycode> {
    if p == "SPACE"@ {
        Some(Keycode::Space)
    } else if p == "TAB"@ {
        Some(Keycode::Tab)
    } else if p == "ENTER"@ || p == "RETURN"@ {
        Some(Keycode::Enter)
    } else if p == "BACKSPACE"@ {
        Some(Keycode::Backspace)
    } else if p == "ESC"@ || p == "ESCAPE"@ {
        Some(Keycode::Escape)
    } else if p == "DELETE"@ || p == "DEL"@ {
        Some(Keycode::Delete)
    } else if p == "INSERT"@ || p == "INS"@ {
        Some(Keycode::Insert)
    } else if p == "HOME"@ {
        Some(Keycode::Home)
    } else if p == "END"@ {
        Some(Keycode::End)
    } else if p == "PAGEUP"@ {
        Some(Keycode::PageUp)
    } else if p == "PAGEDOWN"@ {
        Some(Keycode::PageDown)
    } else if p == "UP"@ || p == "ARROWUP"@ {
        Some(Keycode::Up)
    } else if p == "DOWN"@ || p == "ARROWDOWN"@ {
        Some(Keycode::Down)
    } else if p == "LEFT"@ || p == "ARROWLEFT"@ {
        Some(Keycode::Left)
    } else if p == "RIGHT"@ || p == "ARROWRIGHT"@ {
        Some(Keycode::Right)
    } else if p == "CAPSLOCK"@ {
        Some(Keycode::CapsLock)
    } else {
        None
    }
}

/// The uppercase names that denote key `k` in chord text: each named key has its
/// name and, for Enter, Esc, Delete, Insert and the arrows, one alias.
pub open spec fn is_name_of(p: Seq<char>, k: Keycode) -> bool {
    match k {
        Keycode::Space => p == "SPACE"@,
        Keycode::Tab => p == "TAB"@,
        Keycode::Enter => p == "ENTER"@ || p == "RETURN"@,
        Keycode::Backspace => p == "BACKSPACE"@,
        Keycode::Escape => p == "ESC"@ || p == "ESCAPE"@,
        Keycode::Delete => p == "DELETE"@ || p == "DEL"@,
        Keycode::Insert => p == "INSERT"@ || p == "INS"@,
        Keycode::Home => p == "HOME"@,
        Keycode::End => p == "END"@,
        Keycode::PageUp => p == "PAGEUP"@,
        Keycode::PageDown => p == "PAGEDOWN"@,
        Keycode::Up => p == "UP"@ || p == "ARROWUP"@,
        Keycode::Down => p == "DOWN"@ || p == "ARROWDOWN"@,
        Keycode::Left => p == "LEFT"@ || p == "ARROWLEFT"@,
        Keycode::Right => p == "RIGHT"@ || p == "ARROWRIGHT"@,
        Keycode::CapsLock => p == "CAPSLOCK"@,
        _ => false,
    }
}

/// The named keys are told apart: an uppercase text names key `k` exactly when it
/// is one of `k`'s documented names. So no two keys share a name, and aliases
/// (ENTER/RETURN, ESC/ESCAPE, DEL/DELETE, INS/INSERT, ARROWx/x) name one key.
pub proof fn law_named_keys_are_exact(p: Seq<char>, k: Keycode)
    ensures
        named_key(p) == Some(k) <==> is_name_of(p, k),
{
    if p == "SPACE"@ {
        lemma_named_space();
    }
    if p == "TAB"@ {
        lemma_named_tab();
    }
    if p == "ENTER"@ {
        lemma_named_enter();
    }
    if p == "RETURN"@ {
        lemma_named_return();
    }
    if p == "BACKSPACE"@ {
        lemma_named_backspace();
    }
    if p == "ESC"@ {
        lemma_named_esc();
    }
    if p == "ESCAPE"@ {
        lemma_named_escape();
    }
    if p == "DELETE"@ {
        lemma_named_delete();
    }
    if p == "DEL"@ {
        lemma_named_del();
    }
    if p == "INSERT"@ {
        lemma_named_insert();
    }
    if p == "INS"@ {
        lemma_named_ins();
    }
    if p == "HOME"@ {
        lemma_named_home();
    }
    if p == "END"@ {
        lemma_named_end();
    }
    if p == "PAGEUP"@ {
        lemma_named_pageup();
    }
    if p == "PAGEDOWN"@ {
        lemma_named_pagedown();
    }
    if p == "UP"@ {
        lemma_named_up();
    }
    if p == "ARROWUP"@ {
        lemma_named_arrowup();
    }
    if p == "DOWN"@ {
        lemma_named_down();
    }
    if p == "ARROWDOWN"@ {
        lemma_named_arrowdown();
    }
    if p == "LEFT"@ {
        lemma_named_left();
    }
    if p == "ARROWLEFT"@ {
        lemma_named_arrowleft();
    }
    if p == "RIGHT"@ {
        lemma_named_right();
    }
    if p == "ARROWRIGHT"@ {
        lemma_named_arrowright();
    }
    if p == "CAPSLOCK"@ {
        lemma_named_capslock();
    }
}

proof fn lemma_named_space()
    ensures
        named_key("SPACE"@) == Some(Keycode::Space),
{
    reveal_strlit("SPACE");
}

proof fn lemma_named_tab()
    ensures
        named_key("TAB"@) == Some(Keycode::Tab),
{
    reveal_strlit("TAB");
    reveal_strlit("SPACE");
    assert("TAB"@.len() != "SPACE"@.len());
}

proof fn lemma_named_enter()
    ensures
        named_key("ENTER"@) == Some(Keycode::Enter),
{
    reveal_strlit("ENTER");
    reveal_strlit("SPACE");
    assert("ENTER"@[0] != "SPACE"@[0]);
    reveal_strlit("TAB");
    assert("ENTER"@.len() != "TAB"@.len());
}

proof fn lemma_named_return()
    ensures
        named_key("RETURN"@) == Some(Keycode::Enter),
{
    reveal_strlit("RETURN");
    reveal_strlit("SPACE");
    assert("RETURN"@.len() != "SPACE"@.len());
    reveal_strlit("TAB");
    assert("RETURN"@.len() != "TAB"@.len());
    reveal_strlit("ENTER");
    assert("RETURN"@.len() != "ENTER"@.len());
}

proof fn lemma_named_backspace()
    ensures
        named_key("BACKSPACE"@) == Some(Keycode::Backspace),
{
    reveal_strlit("BACKSPACE");
    reveal_strlit("SPACE");
    assert("BACKSPACE"@.len() != "SPACE"@.len());
    reveal_strlit("TAB");
    assert("BACKSPACE"@.len() != "TAB"@.len());
    reveal_strlit("ENTER");
    assert("BACKSPACE"@.len() != "ENTER"@.len());
    reveal_strlit("RETURN");
    assert("BACKSPACE"@.len() != "RETURN"@.len());
}

proof fn lemma_named_esc()
    ensures
        named_key("ESC"@) == Some(Keycode::Escape),
{
    reveal_strlit("ESC");
    reveal_strlit("SPACE");
    assert("ESC"@.len() != "SPACE"@.len());
    reveal_strlit("TAB");
    assert("ESC"@[0] != "TAB"@[0]);
    reveal_strlit("ENTER");
    assert("ESC"@.len() != "ENTER"@.len());
    reveal_strlit("RETURN");
    assert("ESC"@.len() != "RETURN"@.len());
    reveal_strlit("BACKSPACE");
    assert("ESC"@.len() != "BACKSPACE"@.len());
}

proof fn lemma_named_escape()
    ensures
        named_key("ESCAPE"@) == Some(Keycode::Escape),
{
    reveal_strlit("ESCAPE");
    reveal_strlit("SPACE");
    assert("ESCAPE"@.len() != "SPACE"@.len());
    reveal_strlit("TAB");
    assert("ESCAPE"@.len() != "TAB"@.len());
    reveal_strlit("ENTER");
    assert("ESCAPE"@.len() != "ENTER"@.len());
    reveal_strlit("RETURN");
    assert("ESCAPE"@[0] != "RETURN"@[0]);
    reveal_strlit("BACKSPACE");
    assert("ESCAPE"@.len() != "BACKSPACE"@.len());
    reveal_strlit("ESC");
    assert("ESCAPE"@.len() != "ESC"@.len());
}

proof fn lemma_named_delete()
    ensures
        named_key("DELETE"@) == Some(Keycode::Delete),
{
    reveal_strlit("DELETE");
    reveal_strlit("SPACE");
    assert("DELETE"@.len() != "SPACE"@.len());
    reveal_strlit("TAB");
    assert("DELETE"@.len() != "TAB"@.len());
    reveal_strlit("ENTER");
    assert("DELETE"@.len() != "ENTER"@.len());
    reveal_strlit("RETURN");
    assert("DELETE"@[0] != "RETURN"@[0]);
    reveal_strlit("BACKSPACE");
    assert("DELETE"@.len() != "BACKSPACE"@.len());
    reveal_strlit("ESC");
    assert("DELETE"@.len() != "ESC"@.len());
    reveal_strlit("ESCAPE");
    assert("DELETE"@[0] != "ESCAPE"@[0]);
}

proof fn lemma_named_del()
    ensures
        named_key("DEL"@) == Some(Keycode::Delete),
{
    reveal_strlit("DEL");
    reveal_strlit("SPACE");
    assert("DEL"@.len() != "SPACE"@.len());
    reveal_strlit("TAB");
    assert("DEL"@[0] != "TAB"@[0]);
    reveal_strlit("ENTER");
    assert("DEL"@.len() != "ENTER"@.len());
    reveal_strlit("RETURN");
    assert("DEL"@.len() != "RETURN"@.len());
    reveal_strlit("BACKSPACE");
    assert("DEL"@.len() != "BACKSPACE"@.len());
    reveal_strlit("ESC");
    assert("DEL"@[0] != "ESC"@[0]);
    reveal_strlit("ESCAPE");
    assert("DEL"@.len() != "ESCAPE"@.len());
    reveal_strlit("DELETE");
    assert("DEL"@.len() != "DELETE"@.len());
}

proof fn lemma_named_insert()
    ensures
        named_key("INSERT"@) == Some(Keycode::Insert),
{
    reveal_strlit("INSERT");
    reveal_strlit("SPACE");
    assert("INSERT"@.len() != "SPACE"@.len());
    reveal_strlit("TAB");
    assert("INSERT"@.len() != "TAB"@.len());
    reveal_strlit("ENTER");
    assert("INSERT"@.len() != "ENTER"@.len());
    reveal_strlit("RETURN");
    assert("INSERT"@[0] != "RETURN"@[0]);
    reveal_strlit("BACKSPACE");
    assert("INSERT"@.len() != "BACKSPACE"@.len());
    reveal_strlit("ESC");
    assert("INSERT"@.len() != "ESC"@.len());
    reveal_strlit("ESCAPE");
    assert("INSERT"@[0] != "ESCAPE"@[0]);
    reveal_strlit("DELETE");
    assert("INSERT"@[0] != "DELETE"@[0]);
    reveal_strlit("DEL");
    assert("INSERT"@.len() != "DEL"@.len());
}

proof fn lemma_named_ins()
    ensures
        named_key("INS"@) == Some(Keycode::Insert),
{
    reveal_strlit("INS");
    reveal_strlit("SPACE");
    assert("INS"@.len() != "SPACE"@.len());
    reveal_strlit("TAB");
    assert("INS"@[0] != "TAB"@[0]);
    reveal_strlit("ENTER");
    assert("INS"@.len() != "ENTER"@.len());
    reveal_strlit("RETURN");
    assert("INS"@.len() != "RETURN"@.len());
    reveal_strlit("BACKSPACE");
    assert("INS"@.len() != "BACKSPACE"@.len());
    reveal_strlit("ESC");
    assert("INS"@[0] != "ESC"@[0]);
    reveal_strlit("ESCAPE");
    assert("INS"@.len() != "ESCAPE"@.len());
    reveal_strlit("DELETE");
    assert("INS"@.len() != "DELETE"@.len());
    reveal_strlit("DEL");
    assert("INS"@[0] != "DEL"@[0]);
    reveal_strlit("INSERT");
    assert("INS"@.len() != "INSERT"@.len());
}

proof fn lemma_named_home()
    ensures
        named_key("HOME"@) == Some(Keycode::Home),
{
    reveal_strlit("HOME");
    reveal_strlit("SPACE");
    assert("HOME"@.len() != "SPACE"@.len());
    reveal_strlit("TAB");
    assert("HOME"@.len() != "TAB"@.len());
    reveal_strlit("ENTER");
    assert("HOME"@.len() != "ENTER"@.len());
    reveal_strlit("RETURN");
    assert("HOME"@.len() != "RETURN"@.len());
    reveal_strlit("BACKSPACE");
    assert("HOME"@.len() != "BACKSPACE"@.len());
    reveal_strlit("ESC");
    assert("HOME"@.len() != "ESC"@.len());
    reveal_strlit("ESCAPE");
    assert("HOME"@.len() != "ESCAPE"@.len());
    reveal_strlit("DELETE");
    assert("HOME"@.len() != "DELETE"@.len());
    reveal_strlit("DEL");
    assert("HOME"@.len() != "DEL"@.len());
    reveal_strlit("INSERT");
    assert("HOME"@.len() != "INSERT"@.len());
    reveal_strlit("INS");
    assert("HOME"@.len() != "INS"@.len());
}

proof fn lemma_named_end()
    ensures
        named_key("END"@) == Some(Keycode::End),
{
    reveal_strlit("END");
    reveal_strlit("SPACE");
    assert("END"@.len() != "SPACE"@.len());
    reveal_strlit("TAB");
    assert("END"@[0] != "TAB"@[0]);
    reveal_strlit("ENTER");
    assert("END"@.len() != "ENTER"@.len());
    reveal_strlit("RETURN");
    assert("END"@.len() != "RETURN"@.len());
    reveal_strlit("BACKSPACE");
    assert("END"@.len() != "BACKSPACE"@.len());
    reveal_strlit("ESC");
    assert("END"@[1] != "ESC"@[1]);
    reveal_strlit("ESCAPE");
    assert("END"@.len() != "ESCAPE"@.len());
    reveal_strlit("DELETE");
    assert("END"@.len() != "DELETE"@.len());
    reveal_strlit("DEL");
    assert("END"@[0] != "DEL"@[0]);
    reveal_strlit("INSERT");
    assert("END"@.len() != "INSERT"@.len());
    reveal_strlit("INS");
    assert("END"@[0] != "INS"@[0]);
    reveal_strlit("HOME");
    assert("END"@.len() != "HOME"@.len());
}

proof fn lemma_named_pageup()
    ensures
        named_key("PAGEUP"@) == Some(Keycode::PageUp),
{
    reveal_strlit("PAGEUP");
    reveal_strlit("SPACE");
    assert("PAGEUP"@.len() != "SPACE"@.len());
    reveal_strlit("TAB");
    assert("PAGEUP"@.len() != "TAB"@.len());
    reveal_strlit("ENTER");
    assert("PAGEUP"@.len() != "ENTER"@.len());
    reveal_strlit("RETURN");
    assert("PAGEUP"@[0] != "RETURN"@[0]);
    reveal_strlit("BACKSPACE");
    assert("PAGEUP"@.len() != "BACKSPACE"@.len());
    reveal_strlit("ESC");
    assert("PAGEUP"@.len() != "ESC"@.len());
    reveal_strlit("ESCAPE");
    assert("PAGEUP"@[0] != "ESCAPE"@[0]);
    reveal_strlit("DELETE");
    assert("PAGEUP"@[0] != "DELETE"@[0]);
    reveal_strlit("DEL");
    assert("PAGEUP"@.len() != "DEL"@.len());
    reveal_strlit("INSERT");
    assert("PAGEUP"@[0] != "INSERT"@[0]);
    reveal_strlit("INS");
    assert("PAGEUP"@.len() != "INS"@.len());
    reveal_strlit("HOME");
    assert("PAGEUP"@.len() != "HOME"@.len());
    reveal_strlit("END");
    assert("PAGEUP"@.len() != "END"@.len());
}

proof fn lemma_named_pagedown()
    ensures
        named_key("PAGEDOWN"@) == Some(Keycode::PageDown),
{
    reveal_strlit("PAGEDOWN");
    reveal_strlit("SPACE");
    assert("PAGEDOWN"@.len() != "SPACE"@.len());
    reveal_strlit("TAB");
    assert("PAGEDOWN"@.len() != "TAB"@.len());
    reveal_strlit("ENTER");
    assert("PAGEDOWN"@.len() != "ENTER"@.len());
    reveal_strlit("RETURN");
    assert("PAGEDOWN"@.len() != "RETURN"@.len());
    reveal_strlit("BACKSPACE");
    assert("PAGEDOWN"@.len() != "BACKSPACE"@.len());
    reveal_strlit("ESC");
    assert("PAGEDOWN"@.len() != "ESC"@.len());
    reveal_strlit("ESCAPE");
    assert("PAGEDOWN"@.len() != "ESCAPE"@.len());
    reveal_strlit("DELETE");
    assert("PAGEDOWN"@.len() != "DELETE"@.len());
    reveal_strlit("DEL");
    assert("PAGEDOWN"@.len() != "DEL"@.len());
    reveal_strlit("INSERT");
    assert("PAGEDOWN"@.len() != "INSERT"@.len());
    reveal_strlit("INS");
    assert("PAGEDOWN"@.len() != "INS"@.len());
    reveal_strlit("HOME");
    assert("PAGEDOWN"@.len() != "HOME"@.len());
    reveal_strlit("END");
    assert("PAGEDOWN"@.len() != "END"@.len());
    reveal_strlit("PAGEUP");
    assert("PAGEDOWN"@.len() != "PAGEUP"@.len());
}

proof fn lemma_named_up()
    ensures
        named_key("UP"@) == Some(Keycode::Up),
{
    reveal_strlit("UP");
    reveal_strlit("SPACE");
    assert("UP"@.len() != "SPACE"@.len());
    reveal_strlit("TAB");
    assert("UP"@.len() != "TAB"@.len());
    reveal_strlit("ENTER");
    assert("UP"@.len() != "ENTER"@.len());
    reveal_strlit("RETURN");
    assert("UP"@.len() != "RETURN"@.len());
    reveal_strlit("BACKSPACE");
    assert("UP"@.len() != "BACKSPACE"@.len());
    reveal_strlit("ESC");
    assert("UP"@.len() != "ESC"@.len());
    reveal_strlit("ESCAPE");
    assert("UP"@.len() != "ESCAPE"@.len());
    reveal_strlit("DELETE");
    assert("UP"@.len() != "DELETE"@.len());
    reveal_strlit("DEL");
    assert("UP"@.len() != "DEL"@.len());
    reveal_strlit("INSERT");
    assert("UP"@.len() != "INSERT"@.len());
    reveal_strlit("INS");
    assert("UP"@.len() != "INS"@.len());
    reveal_strlit("HOME");
    assert("UP"@.len() != "HOME"@.len());
    reveal_strlit("END");
    assert("UP"@.len() != "END"@.len());
    reveal_strlit("PAGEUP");
    assert("UP"@.len() != "PAGEUP"@.len());
    reveal_strlit("PAGEDOWN");
    assert("UP"@.len() != "PAGEDOWN"@.len());
}

proof fn lemma_named_arrowup()
    ensures
        named_key("ARROWUP"@) == Some(Keycode::Up),
{
    reveal_strlit("ARROWUP");
    reveal_strlit("SPACE");
    assert("ARROWUP"@.len() != "SPACE"@.len());
    reveal_strlit("TAB");
    assert("ARROWUP"@.len() != "TAB"@.len());
    reveal_strlit("ENTER");
    assert("ARROWUP"@.len() != "ENTER"@.len());
    reveal_strlit("RETURN");
    assert("ARROWUP"@.len() != "RETURN"@.len());
    reveal_strlit("BACKSPACE");
    assert("ARROWUP"@.len() != "BACKSPACE"@.len());
    reveal_strlit("ESC");
    assert("ARROWUP"@.len() != "ESC"@.len());
    reveal_strlit("ESCAPE");
    assert("ARROWUP"@.len() != "ESCAPE"@.len());
    reveal_strlit("DELETE");
    assert("ARROWUP"@.len() != "DELETE"@.len());
    reveal_strlit("DEL");
    assert("ARROWUP"@.len() != "DEL"@.len());
    reveal_strlit("INSERT");
    assert("ARROWUP"@.len() != "INSERT"@.len());
    reveal_strlit("INS");
    assert("ARROWUP"@.len() != "INS"@.len());
    reveal_strlit("HOME");
    assert("ARROWUP"@.len() != "HOME"@.len());
    reveal_strlit("END");
    assert("ARROWUP"@.len() != "END"@.len());
    reveal_strlit("PAGEUP");
    assert("ARROWUP"@.len() != "PAGEUP"@.len());
    reveal_strlit("PAGEDOWN");
    assert("ARROWUP"@.len() != "PAGEDOWN"@.len());
    reveal_strlit("UP");
    assert("ARROWUP"@.len() != "UP"@.len());
}

proof fn lemma_named_down()
    ensures
        named_key("DOWN"@) == Some(Keycode::Down),
{
    reveal_strlit("DOWN");
    reveal_strlit("SPACE");
    assert("DOWN"@.len() != "SPACE"@.len());
    reveal_strlit("TAB");
    assert("DOWN"@.len() != "TAB"@.len());
    reveal_strlit("ENTER");
    assert("DOWN"@.len() != "ENTER"@.len());
    reveal_strlit("RETURN");
    assert("DOWN"@.len() != "RETURN"@.len());
    reveal_strlit("BACKSPACE");
    assert("DOWN"@.len() != "BACKSPACE"@.len());
    reveal_strlit("ESC");
    assert("DOWN"@.len() != "ESC"@.len());
    reveal_strlit("ESCAPE");
    assert("DOWN"@.len() != "ESCAPE"@.len());
    reveal_strlit("DELETE");
    assert("DOWN"@.len() != "DELETE"@.len());
    reveal_strlit("DEL");
    assert("DOWN"@.len() != "DEL"@.len());
    reveal_strlit("INSERT");
    assert("DOWN"@.len() != "INSERT"@.len());
    reveal_strlit("INS");
    assert("DOWN"@.len() != "INS"@.len());
    reveal_strlit("HOME");
    assert("DOWN"@[0] != "HOME"@[0]);
    reveal_strlit("END");
    assert("DOWN"@.len() != "END"@.len());
    reveal_strlit("PAGEUP");
    assert("DOWN"@.len() != "PAGEUP"@.len());
    reveal_strlit("PAGEDOWN");
    assert("DOWN"@.len() != "PAGEDOWN"@.len());
    reveal_strlit("UP");
    assert("DOWN"@.len() != "UP"@.len());
    reveal_strlit("ARROWUP");
    assert("DOWN"@.len() != "ARROWUP"@.len());
}

proof fn lemma_named_arrowdown()
    ensures
        named_key("ARROWDOWN"@) == Some(Keycode::Down),
{
    reveal_strlit("ARROWDOWN");
    reveal_strlit("SPACE");
    assert("ARROWDOWN"@.len() != "SPACE"@.len());
    reveal_strlit("TAB");
    assert("ARROWDOWN"@.len() != "TAB"@.len());
    reveal_strlit("ENTER");
    assert("ARROWDOWN"@.len() != "ENTER"@.len());
    reveal_strlit("RETURN");
    assert("ARROWDOWN"@.len() != "RETURN"@.len());
    reveal_strlit("BACKSPACE");
    assert("ARROWDOWN"@[0] != "BACKSPACE"@[0]);
    reveal_strlit("ESC");
    assert("ARROWDOWN"@.len() != "ESC"@.len());
    reveal_strlit("ESCAPE");
    assert("ARROWDOWN"@.len() != "ESCAPE"@.len());
    reveal_strlit("DELETE");
    assert("ARROWDOWN"@.len() != "DELETE"@.len());
    reveal_strlit("DEL");
    assert("ARROWDOWN"@.len() != "DEL"@.len());
    reveal_strlit("INSERT");
    assert("ARROWDOWN"@.len() != "INSERT"@.len());
    reveal_strlit("INS");
    assert("ARROWDOWN"@.len() != "INS"@.len());
    reveal_strlit("HOME");
    assert("ARROWDOWN"@.len() != "HOME"@.len());
    reveal_strlit("END");
    assert("ARROWDOWN"@.len() != "END"@.len());
    reveal_strlit("PAGEUP");
    assert("ARROWDOWN"@.len() != "PAGEUP"@.len());
    reveal_strlit("PAGEDOWN");
    assert("ARROWDOWN"@.len() != "PAGEDOWN"@.len());
    reveal_strlit("UP");
    assert("ARROWDOWN"@.len() != "UP"@.len());
    reveal_strlit("ARROWUP");
    assert("ARROWDOWN"@.len() != "ARROWUP"@.len());
    reveal_strlit("DOWN");
    assert("ARROWDOWN"@.len() != "DOWN"@.len());
}

proof fn lemma_named_left()
    ensures
        named_key("LEFT"@) == Some(Keycode::Left),
{
    reveal_strlit("LEFT");
    reveal_strlit("SPACE");
    assert("LEFT"@.len() != "SPACE"@.len());
    reveal_strlit("TAB");
    assert("LEFT"@.len() != "TAB"@.len());
    reveal_strlit("ENTER");
    assert("LEFT"@.len() != "ENTER"@.len());
    reveal_strlit("RETURN");
    assert("LEFT"@.len() != "RETURN"@.len());
    reveal_strlit("BACKSPACE");
    assert("LEFT"@.len() != "BACKSPACE"@.len());
    reveal_strlit("ESC");
    assert("LEFT"@.len() != "ESC"@.len());
    reveal_strlit("ESCAPE");
    assert("LEFT"@.len() != "ESCAPE"@.len());
    reveal_strlit("DELETE");
    assert("LEFT"@.len() != "DELETE"@.len());
    reveal_strlit("DEL");
    assert("LEFT"@.len() != "DEL"@.len());
    reveal_strlit("INSERT");
    assert("LEFT"@.len() != "INSERT"@.len());
    reveal_strlit("INS");
    assert("LEFT"@.len() != "INS"@.len());
    reveal_strlit("HOME");
    assert("LEFT"@[0] != "HOME"@[0]);
    reveal_strlit("END");
    assert("LEFT"@.len() != "END"@.len());
    reveal_strlit("PAGEUP");
    assert("LEFT"@.len() != "PAGEUP"@.len());
    reveal_strlit("PAGEDOWN");
    assert("LEFT"@.len() != "PAGEDOWN"@.len());
    reveal_strlit("UP");
    assert("LEFT"@.len() != "UP"@.len());
    reveal_strlit("ARROWUP");
    assert("LEFT"@.len() != "ARROWUP"@.len());
    reveal_strlit("DOWN");
    assert("LEFT"@[0] != "DOWN"@[0]);
    reveal_strlit("ARROWDOWN");
    assert("LEFT"@.len() != "ARROWDOWN"@.len());
}

proof fn lemma_named_arrowleft()
    ensures
        named_key("ARROWLEFT"@) == Some(Keycode::Left),
{
    reveal_strlit("ARROWLEFT");
    reveal_strlit("SPACE");
    assert("ARROWLEFT"@.len() != "SPACE"@.len());
    reveal_strlit("TAB");
    assert("ARROWLEFT"@.len() != "TAB"@.len());
    reveal_strlit("ENTER");
    assert("ARROWLEFT"@.len() != "ENTER"@.len());
    reveal_strlit("RETURN");
    assert("ARROWLEFT"@.len() != "RETURN"@.len());
    reveal_strlit("BACKSPACE");
    assert("ARROWLEFT"@[0] != "BACKSPACE"@[0]);
    reveal_strlit("ESC");
    assert("ARROWLEFT"@.len() != "ESC"@.len());
    reveal_strlit("ESCAPE");
    assert("ARROWLEFT"@.len() != "ESCAPE"@.len());
    reveal_strlit("DELETE");
    assert("ARROWLEFT"@.len() != "DELETE"@.len());
    reveal_strlit("DEL");
    assert("ARROWLEFT"@.len() != "DEL"@.len());
    reveal_strlit("INSERT");
    assert("ARROWLEFT"@.len() != "INSERT"@.len());
    reveal_strlit("INS");
    assert("ARROWLEFT"@.len() != "INS"@.len());
    reveal_strlit("HOME");
    assert("ARROWLEFT"@.len() != "HOME"@.len());
    reveal_strlit("END");
    assert("ARROWLEFT"@.len() != "END"@.len());
    reveal_strlit("PAGEUP");
    assert("ARROWLEFT"@.len() != "PAGEUP"@.len());
    reveal_strlit("PAGEDOWN");
    assert("ARROWLEFT"@.len() != "PAGEDOWN"@.len());
    reveal_strlit("UP");
    assert("ARROWLEFT"@.len() != "UP"@.len());
    reveal_strlit("ARROWUP");
    assert("ARROWLEFT"@.len() != "ARROWUP"@.len());
    reveal_strlit("DOWN");
    assert("ARROWLEFT"@.len() != "DOWN"@.len());
    reveal_strlit("ARROWDOWN");
    assert("ARROWLEFT"@[5] != "ARROWDOWN"@[5]);
    reveal_strlit("LEFT");
    assert("ARROWLEFT"@.len() != "LEFT"@.len());
}

proof fn lemma_named_right()
    ensures
        named_key("RIGHT"@) == Some(Keycode::Right),
{
    reveal_strlit("RIGHT");
    reveal_strlit("SPACE");
    assert("RIGHT"@[0] != "SPACE"@[0]);
    reveal_strlit("TAB");
    assert("RIGHT"@.len() != "TAB"@.len());
    reveal_strlit("ENTER");
    assert("RIGHT"@[0] != "ENTER"@[0]);
    reveal_strlit("RETURN");
    assert("RIGHT"@.len() != "RETURN"@.len());
    reveal_strlit("BACKSPACE");
    assert("RIGHT"@.len() != "BACKSPACE"@.len());
    reveal_strlit("ESC");
    assert("RIGHT"@.len() != "ESC"@.len());
    reveal_strlit("ESCAPE");
    assert("RIGHT"@.len() != "ESCAPE"@.len());
    reveal_strlit("DELETE");
    assert("RIGHT"@.len() != "DELETE"@.len());
    reveal_strlit("DEL");
    assert("RIGHT"@.len() != "DEL"@.len());
    reveal_strlit("INSERT");
    assert("RIGHT"@.len() != "INSERT"@.len());
    reveal_strlit("INS");
    assert("RIGHT"@.len() != "INS"@.len());
    reveal_strlit("HOME");
    assert("RIGHT"@.len() != "HOME"@.len());
    reveal_strlit("END");
    assert("RIGHT"@.len() != "END"@.len());
    reveal_strlit("PAGEUP");
    assert("RIGHT"@.len() != "PAGEUP"@.len());
    reveal_strlit("PAGEDOWN");
    assert("RIGHT"@.len() != "PAGEDOWN"@.len());
    reveal_strlit("UP");
    assert("RIGHT"@.len() != "UP"@.len());
    reveal_strlit("ARROWUP");
    assert("RIGHT"@.len() != "ARROWUP"@.len());
    reveal_strlit("DOWN");
    assert("RIGHT"@.len() != "DOWN"@.len());
    reveal_strlit("ARROWDOWN");
    assert("RIGHT"@.len() != "ARROWDOWN"@.len());
    reveal_strlit("LEFT");
    assert("RIGHT"@.len() != "LEFT"@.len());
    reveal_strlit("ARROWLEFT");
    assert("RIGHT"@.len() != "ARROWLEFT"@.len());
}

proof fn lemma_named_arrowright()
    ensures
        named_key("ARROWRIGHT"@) == Some(Keycode::Right),
{
    reveal_strlit("ARROWRIGHT");
    reveal_strlit("SPACE");
    assert("ARROWRIGHT"@.len() != "SPACE"@.len());
    reveal_strlit("TAB");
    assert("ARROWRIGHT"@.len() != "TAB"@.len());
    reveal_strlit("ENTER");
    assert("ARROWRIGHT"@.len() != "ENTER"@.len());
    reveal_strlit("RETURN");
    assert("ARROWRIGHT"@.len() != "RETURN"@.len());
    reveal_strlit("BACKSPACE");
    assert("ARROWRIGHT"@.len() != "BACKSPACE"@.len());
    reveal_strlit("ESC");
    assert("ARROWRIGHT"@.len() != "ESC"@.len());
    reveal_strlit("ESCAPE");
    assert("ARROWRIGHT"@.len() != "ESCAPE"@.len());
    reveal_strlit("DELETE");
    assert("ARROWRIGHT"@.len() != "DELETE"@.len());
    reveal_strlit("DEL");
    assert("ARROWRIGHT"@.len() != "DEL"@.len());
    reveal_strlit("INSERT");
    assert("ARROWRIGHT"@.len() != "INSERT"@.len());
    reveal_strlit("INS");
    assert("ARROWRIGHT"@.len() != "INS"@.len());
    reveal_strlit("HOME");
    assert("ARROWRIGHT"@.len() != "HOME"@.len());
    reveal_strlit("END");
    assert("ARROWRIGHT"@.len() != "END"@.len());
    reveal_strlit("PAGEUP");
    assert("ARROWRIGHT"@.len() != "PAGEUP"@.len());
    reveal_strlit("PAGEDOWN");
    assert("ARROWRIGHT"@.len() != "PAGEDOWN"@.len());
    reveal_strlit("UP");
    assert("ARROWRIGHT"@.len() != "UP"@.len());
    reveal_strlit("ARROWUP");
    assert("ARROWRIGHT"@.len() != "ARROWUP"@.len());
    reveal_strlit("DOWN");
    assert("ARROWRIGHT"@.len() != "DOWN"@.len());
    reveal_strlit("ARROWDOWN");
    assert("ARROWRIGHT"@.len() != "ARROWDOWN"@.len());
    reveal_strlit("LEFT");
    assert("ARROWRIGHT"@.len() != "LEFT"@.len());
    reveal_strlit("ARROWLEFT");
    assert("ARROWRIGHT"@.len() != "ARROWLEFT"@.len());
    reveal_strlit("RIGHT");
    assert("ARROWRIGHT"@.len() != "RIGHT"@.len());
}

proof fn lemma_named_capslock()
    ensures
        named_key("CAPSLOCK"@) == Some(Keycode::CapsLock),
{
    reveal_strlit("CAPSLOCK");
    reveal_strlit("SPACE");
    assert("CAPSLOCK"@.len() != "SPACE"@.len());
    reveal_strlit("TAB");
    assert("CAPSLOCK"@.len() != "TAB"@.len());
    reveal_strlit("ENTER");
    assert("CAPSLOCK"@.len() != "ENTER"@.len());
    reveal_strlit("RETURN");
    assert("CAPSLOCK"@.len() != "RETURN"@.len());
    reveal_strlit("BACKSPACE");
    assert("CAPSLOCK"@.len() != "BACKSPACE"@.len());
    reveal_strlit("ESC");
    assert("CAPSLOCK"@.len() != "ESC"@.len());
    reveal_strlit("ESCAPE");
    assert("CAPSLOCK"@.len() != "ESCAPE"@.len());
    reveal_strlit("DELETE");
    assert("CAPSLOCK"@.len() != "DELETE"@.len());
    reveal_strlit("DEL");
    assert("CAPSLOCK"@.len() != "DEL"@.len());
    reveal_strlit("INSERT");
    assert("CAPSLOCK"@.len() != "INSERT"@.len());
    reveal_strlit("INS");
    assert("CAPSLOCK"@.len() != "INS"@.len());
    reveal_strlit("HOME");
    assert("CAPSLOCK"@.len() != "HOME"@.len());
    reveal_strlit("END");
    assert("CAPSLOCK"@.len() != "END"@.len());
    reveal_strlit("PAGEUP");
    assert("CAPSLOCK"@.len() != "PAGEUP"@.len());
    reveal_strlit("PAGEDOWN");
    assert("CAPSLOCK"@[0] != "PAGEDOWN"@[0]);
    reveal_strlit("UP");
    assert("CAPSLOCK"@.len() != "UP"@.len());
    reveal_strlit("ARROWUP");
    assert("CAPSLOCK"@.len() != "ARROWUP"@.len());
    reveal_strlit("DOWN");
    assert("CAPSLOCK"@.len() != "DOWN"@.len());
    reveal_strlit("ARROWDOWN");
    assert("CAPSLOCK"@.len() != "ARROWDOWN"@.len());
    reveal_strlit("LEFT");
    assert("CAPSLOCK"@.len() != "LEFT"@.len());
    reveal_strlit("ARROWLEFT");
    assert("CAPSLOCK"@.len() != "ARROWLEFT"@.len());
    reveal_strlit("RIGHT");
    assert("CAPSLOCK"@.len() != "RIGHT"@.len());
    reveal_strlit("ARROWRIGHT");
    assert("CAPSLOCK"@.len() != "ARROWRIGHT"@.len());
}

/// The key that an uppercase key name denotes: "F1" to "F20" (the number as
/// `u8::from_str` reads it), a named key, a single letter or digit, or "NUM0" to
/// "NUM9". A longer name that starts with `F` is a function key or nothing; "F"
/// alone is the letter F.
pub open spec fn key_of_upper(p: Seq<char>) -> Option<Keycode> {
    if p.len() > 1 && p[0] == 'F' {
        match parse_u8_spec(p.drop_first()) {
            Some(n) => if 1 <= n && n <= 20 {
                Some(function_key(n))
            } else {
                None
            },
            None => None,
        }
    } else if named_key(p) is Some {
        named_key(p)
    } else if p.len() == 1 && 'A' <= p[0] && p[0] <= 'Z' {
        Some(letter_key(p[0]))
    } else if p.len() == 1 && is_ascii_digit(p[0]) {
        Some(digit_key(p[0]))
    } else if p.len() >= 3 && p.take(3) == seq!['N', 'U', 'M'] {
        match parse_u8_spec(p.skip(3)) {
            Some(n) => if n <= 9 {
                Some(numpad_key(n))
            } else {
                None
            },
            None => None,
        }
    } else {
        None
    }
}

/// The key that one (trimmed) part of a chord names, ignoring ASCII case.
pub open spec fn key_of_part(part: Seq<char>) -> Option<Keycode> {
    key_of_upper(ascii_upper(part))
}

fn function_code(n: u8) -> (k: Keycode)
    ensures
        k == function_key(n),
{
    match n {
        1 => Keycode::F1,
        2 => Keycode::F2,
        3 => Keycode::F3,
        4 => Keycode::F4,
        5 => Keycode::F5,
        6 => Keycode::F6,
        7 => Keycode::F7,
        8 => Keycode::F8,
        9 => Keycode::F9,
        10 => Keycode::F10,
        11 => Keycode::F11,
        12 => Keycode::F12,
        13 => Keycode::F13,
        14 => Keycode::F14,
        15 => Keycode::F15,
        16 => Keycode::F16,
        17 => Keycode::F17,
        18 => Keycode::F18,
        19 => Keycode::F19,
        _ => Keycode::F20,
    }
}

fn letter_code(c: char) -> (k: Keycode)
    ensures
        k == letter_key(c),
{
    match c {
        'A' => Keycode::A,
        'B' => Keycode::B,
        'C' => Keycode::C,
        'D' => Keycode::D,
        'E' => Keycode::E,
        'F' => Keycode::F,
        'G' => Keycode::G,
        'H' => Keycode::H,
        'I' => Keycode::I,
        'J' => Keycode::J,
        'K' => Keycode::K,
        'L' => Keycode::L,
        'M' => Keycode::M,
        'N' => Keycode::N,
        'O' => Keycode::O,
        'P' => Keycode::P,
        'Q' => Keycode::Q,
        'R' => Keycode::R,
        'S' => Keycode::S,
        'T' => Keycode::T,
        'U' => Keycode::U,
        'V' => Keycode::V,
        'W' => Keycode::W,
        'X' => Keycode::X,
        'Y' => Keycode::Y,
        _ => Keycode::Z,
    }
}

fn digit_code(c: char) -> (k: Keycode)
    ensures
        k == digit_key(c),
{
    match c {
        '0' => Keycode::Key0,
        '1' => Keycode::Key1,
        '2' => Keycode::Key2,
        '3' => Keycode::Key3,
        '4' => Keycode::Key4,
        '5' => Keycode::Key5,
        '6' => Keycode::Key6,
        '7' => Keycode::Key7,
        '8' => Keycode::Key8,
        _ => Keycode::Key9,
    }
}

fn numpad_code(n: u8) -> (k: Keycode)
    ensures
        k == numpad_key(n),
{
    match n {
        0 => Keycode::Numpad0,
        1 => Keycode::Numpad1,
        2 => Keycode::Numpad2,
        3 => Keycode::Numpad3,
        4 => Keycode::Numpad4,
        5 => Keycode::Numpad5,
        6 => Keycode::Numpad6,
        7 => Keycode::Numpad7,
        8 => Keycode::Numpad8,
        _ => Keycode::Numpad9,
    }
}

fn named_code(p: &Vec<char>) -> (res: Option<Keycode>)
    ensures
        res == named_key(p@),
{
    if chars_eq_str(p, "SPACE") {
        Some(Keycode::Space)
    } else if chars_eq_str(p, "TAB") {
        Some(Keycode::Tab)
    } else if chars_eq_str(p, "ENTER") || chars_eq_str(p, "RETURN") {
        Some(Keycode::Enter)
    } else if chars_eq_str(p, "BACKSPACE") {
        Some(Keycode::Backspace)
    } else if chars_eq_str(p, "ESC") || chars_eq_str(p, "ESCAPE") {
        Some(Keycode::Escape)
    } else if chars_eq_str(p, "DELETE") || chars_eq_str(p, "DEL") {
        Some(Keycode::Delete)
    } else if chars_eq_str(p, "INSERT") || chars_eq_str(p, "INS") {
        Some(Keycode::Insert)
    } else if chars_eq_str(p, "HOME") {
        Some(Keycode::Home)
    } else if chars_eq_str(p, "END") {
        Some(Keycode::End)
    } else if chars_eq_str(p, "PAGEUP") {
        Some(Keycode::PageUp)
    } else if chars_eq_str(p, "PAGEDOWN") {
        Some(Keycode::PageDown)
    } else if chars_eq_str(p, "UP") || chars_eq_str(p, "ARROWUP") {
        Some(Keycode::Up)
    } else if chars_eq_str(p, "DOWN") || chars_eq_str(p, "ARROWDOWN") {
        Some(Keycode::Down)
    } else if chars_eq_str(p, "LEFT") || chars_eq_str(p, "ARROWLEFT") {
        Some(Keycode::Left)
    } else if chars_eq_str(p, "RIGHT") || chars_eq_str(p, "ARROWRIGHT") {
        Some(Keycode::Right)
    } else if chars_eq_str(p, "CAPSLOCK") {
        Some(Keycode::CapsLock)
    } else {
        None
    }
}

/// The key that one trimmed part of a chord names ("F5", "k", "Space", "num3", ...).
pub fn parse_code(part: &Vec<char>) -> (res: Option<Keycode>)
    ensures
        res == key_of_part(part@),
{
    let p = to_ascii_upper(part);
    if p.len() > 1 && p[0] == 'F' {
        return match parse_u8(&p, 1) {
            Some(n) => if 1 <= n && n <= 20 {
                Some(function_code(n))
            } else {
                None
            },
            None => None,
        };
    }
    let named = named_code(&p);
    if named.is_some() {
        return named;
    }
    if p.len() == 1 && 'A' <= p[0] && p[0] <= 'Z' {
        return Some(letter_code(p[0]));
    }
    if p.len() == 1 && '0' <= p[0] && p[0] <= '9' {
        return Some(digit_code(p[0]));
    }
    if p.len() >= 3 && p[0] == 'N' && p[1] == 'U' && p[2] == 'M' {
        assert(p@.take(3) =~= seq!['N', 'U', 'M']);
        return match parse_u8(&p, 3) {
            Some(n) => if n <= 9 {
                Some(numpad_code(n))
            } else {
                None
            },
            None => None,
        };
    }
    if p.len() >= 3 {
        assert(p@.take(3)[0] == p@[0] && p@.take(3)[1] == p@[1] && p@.take(3)[2] == p@[2]);
    }
    None
}

// ───────────────────────── chords ─────────────────────────

/// Words (in ASCII lowercase) that set the Ctrl modifier; Meta, Super, Win and Cmd
/// count as Ctrl because the Windows key is not polled.
pub open spec fn is_ctrl_word(w: Seq<char>) -> bool {
    w == "ctrl"@ || w == "control"@ || w == "meta"@ || w == "super"@ || w == "win"@ || w
        == "cmd"@
}

/// The partial result of reading a chord: Ctrl, Shift, Alt and the key read so far.
pub type ChordDraft = (bool, bool, bool, Option<Keycode>);

/// Reads one part of a chord into the draft; `None` when the part is neither a
/// modifier nor a key name.
pub open spec fn read_part(d: ChordDraft, part: Seq<char>) -> Option<ChordDraft> {
    let t = trim(part);
    let w = ascii_lower(t);
    if is_ctrl_word(w) {
        Some((true, d.1, d.2, d.3))
    } else if w == "shift"@ {
        Some((d.0, true, d.2, d.3))
    } else if w == "alt"@ {
        Some((d.0, d.1, true, d.3))
    } else {
        match key_of_part(t) {
            Some(k) => Some((d.0, d.1, d.2, Some(k))),
            None => None,
        }
    }
}

/// Reads the parts of a chord from left to right; the last key named wins.
pub open spec fn read_parts(parts: Seq<Seq<char>>) -> Option<ChordDraft>
    decreases parts.len(),
{
    if parts.len() == 0 {
        Some((false, false, false, None))
    } else {
        match read_parts(parts.drop_last()) {
            Some(d) => read_part(d, parts.last()),
            None => None,
        }
    }
}

/// The binding that a chord text denotes: the parts between `+` signs, each
/// trimmed, are modifiers or key names; a chord needs exactly one key in the end.
pub open spec fn parse_hotkey_spec(s: Seq<char>) -> Option<ParsedHotkey> {
    match read_parts(split_on(s, '+')) {
        Some(d) => match d.3 {
            Some(k) => Some(ParsedHotkey { ctrl: d.0, shift: d.1, alt: d.2, key: k }),
            None => None,
        },
        None => None,
    }
}

proof fn lemma_read_parts_failure_sticks(parts: Seq<Seq<char>>, i: int)
    requires
        0 <= i <= parts.len(),
        read_parts(parts.take(i)) is None,
    ensures
        read_parts(parts) is None,
    decreases parts.len() - i,
{
    if i < parts.len() {
        assert(parts.take(i + 1).drop_last() =~= parts.take(i));
        lemma_read_parts_failure_sticks(parts, i + 1);
    } else {
        assert(parts.take(i) =~= parts);
    }
}

fn is_ctrl_name(w: &Vec<char>) -> (res: bool)
    ensures
        res == is_ctrl_word(w@),
{
    chars_eq_str(w, "ctrl") || chars_eq_str(w, "control") || chars_eq_str(w, "meta")
        || chars_eq_str(w, "super") || chars_eq_str(w, "win") || chars_eq_str(w, "cmd")
}

/// Parses "Ctrl+Shift+1" / "F5" / "Alt+K" into a `ParsedHotkey`.
pub fn parse_hotkey(s: &str) -> (res: Option<ParsedHotkey>)
    ensures
        res == parse_hotkey_spec(s@),
{
    let chars = chars_of(s);
    let parts = split_chars(&chars, '+');
    let ghost ps = views(parts@);
    let mut ctrl = false;
    let mut shift = false;
    let mut alt = false;
    let mut key: Option<Keycode> = None;
    let mut i: usize = 0;
    assert(ps.take(0) =~= Seq::<Seq<char>>::empty());
    while i < parts.len()
        invariant
            i <= parts.len(),
            ps == views(parts@),
            ps == split_on(s@, '+'),
            read_parts(ps.take(i as int)) == Some((ctrl, shift, alt, key)),
        decreases parts.len() - i,
    {
        assert(ps.take(i + 1).drop_last() =~= ps.take(i as int));
        assert(ps.take(i + 1).last() == parts@[i as int]@);
        let part = trimmed(&parts[i]);
        let word = to_ascii_lower(&part);
        if is_ctrl_name(&word) {
            ctrl = true;
        } else if chars_eq_str(&word, "shift") {
            shift = true;
        } else if chars_eq_str(&word, "alt") {
            alt = true;
        } else {
            match parse_code(&part) {
                Some(k) => {
                    key = Some(k);
                },
                None => {
                    proof {
                        lemma_read_parts_failure_sticks(ps, i + 1);
                    }
                    return None;
                },
            }
        }
        i += 1;
    }
    assert(ps.take(parts.len() as int) =~= ps);
    match key {
        Some(k) => Some(ParsedHotkey { ctrl, shift, alt, key: k }),
        None => None,
    }
}

/// Display form of a hotkey: the chord text as it was given.
pub fn hotkey_to_string(s: &str) -> (res: String)
    ensures
        res@ == s@,
{
    s.to_owned()
}

// ───────────────────────── keyboard snapshots ─────────────────────────

/// Whether `k` is one of the modifier keys (either side of Ctrl, Shift or Alt).
pub open spec fn is_modifier_key(k: Keycode) -> bool {
    k == Keycode::LControl || k == Keycode::RControl || k == Keycode::LShift || k
        == Keycode::RShift || k == Keycode::LAlt || k == Keycode::RAlt
}

pub open spec fn ctrl_down(keys: Seq<Keycode>) -> bool {
    keys.contains(Keycode::LControl) || keys.contains(Keycode::RControl)
}

pub open spec fn shift_down(keys: Seq<Keycode>) -> bool {
    keys.contains(Keycode::LShift) || keys.contains(Keycode::RShift)
}

pub open spec fn alt_down(keys: Seq<Keycode>) -> bool {
    keys.contains(Keycode::LAlt) || keys.contains(Keycode::RAlt)
}

/// Every modifier of `hk` is held (left or right side); other modifiers may be
/// held too, so a bound key still fires while, say, Shift is down.
pub open spec fn modifiers_match(keys: Seq<Keycode>, hk: ParsedHotkey) -> bool {
    &&& hk.ctrl ==> ctrl_down(keys)
    &&& hk.shift ==> shift_down(keys)
    &&& hk.alt ==> alt_down(keys)
}

/// The binding `hk` is pressed in the snapshot `keys`: its key is down (a modifier
/// key never counts as the main key) and the modifiers match.
pub open spec fn chord_down(keys: Seq<Keycode>, hk: ParsedHotkey) -> bool {
    !is_modifier_key(hk.key) && keys.contains(hk.key) && modifiers_match(keys, hk)
}

/// Whether `k` is in the snapshot.
pub fn key_held(keys: &Vec<Keycode>, k: Keycode) -> (res: bool)
    ensures
        res == keys@.contains(k),
{
    let mut i: usize = 0;
    while i < keys.len()
        invariant
            i <= keys.len(),
            forall|m: int| 0 <= m < i ==> keys@[m] != k,
        decreases keys.len() - i,
    {
        if keys[i] == k {
            return true;
        }
        i += 1;
    }
    false
}

/// True if every modifier of `hk` is currently held (left or right side).
pub fn modifiers_held(keys: &Vec<Keycode>, hk: &ParsedHotkey) -> (res: bool)
    ensures
        res == modifiers_match(keys@, *hk),
{
    let ctrl = key_held(keys, Keycode::LControl) || key_held(keys, Keycode::RControl);
    let shift = key_held(keys, Keycode::LShift) || key_held(keys, Keycode::RShift);
    let alt = key_held(keys, Keycode::LAlt) || key_held(keys, Keycode::RAlt);
    (!hk.ctrl || ctrl) && (!hk.shift || shift) && (!hk.alt || alt)
}

/// Whether the binding `hk` is pressed in the snapshot `keys`.
pub fn is_chord_down(keys: &Vec<Keycode>, hk: &ParsedHotkey) -> (res: bool)
    ensures
        res == chord_down(keys@, *hk),
{
    let k = hk.key;
    let is_mod_key = k == Keycode::LControl || k == Keycode::RControl || k == Keycode::LShift
        || k == Keycode::RShift || k == Keycode::LAlt || k == Keycode::RAlt;
    !is_mod_key && key_held(keys, k) && modifiers_held(keys, hk)
}

} // verus!

verus! {

// ───────────────────────── the binding table ─────────────────────────

/// Why a hotkey could not be bound.
#[derive(Clone, Copy, PartialEq, Eq, Debug, Structural)]
pub enum HotkeyError {
    /// The text does not name a key chord.
    UnrecognizedKey,
    /// The same chord is bound to another sound.
    AlreadyAssigned,
}

/// One bound chord: the parsed chord, the sound it plays, the text it was bound
/// with, and whether it was held at the previous poll (for edge detection).
#[derive(Clone, Debug)]
pub struct Binding {
    pub hotkey: ParsedHotkey,
    pub sound_id: String,
    pub text: String,
    pub was_down: bool,
}

/// The mathematical content of a `Binding`.
pub struct BindingView {
    pub hotkey: ParsedHotkey,
    pub sound_id: Seq<char>,
    pub text: Seq<char>,
    pub was_down: bool,
}

impl View for Binding {
    type V = BindingView;

    open spec fn view(&self) -> BindingView {
        BindingView {
            hotkey: self.hotkey,
            sound_id: self.sound_id@,
            text: self.text@,
            was_down: self.was_down,
        }
    }
}

impl Binding {
    /// A copy of this binding.
    pub fn duplicate(&self) -> (res: Binding)
        ensures
            res@ == self@,
    {
        Binding {
            hotkey: self.hotkey,
            sound_id: self.sound_id.clone(),
            text: self.text.clone(),
            was_down: self.was_down,
        }
    }
}

/// The views of a vector of bindings.
pub open spec fn binding_views(bs: Seq<Binding>) -> Seq<BindingView> {
    bs.map_values(|b: Binding| b@)
}

/// Two entries bind different chords and different sounds.
pub open spec fn entries_disjoint(a: BindingView, b: BindingView) -> bool {
    a.hotkey != b.hotkey && a.sound_id != b.sound_id
}

/// An entry's text parses to its chord.
pub open spec fn entry_consistent(b: BindingView) -> bool {
    parse_hotkey_spec(b.text) == Some(b.hotkey)
}

/// A well-formed table binds each chord to at most one sound and each sound to at
/// most one chord, and every entry's text parses to its chord.
pub open spec fn table_wf(t: Seq<BindingView>) -> bool {
    &&& forall|i: int, j: int|
        0 <= i < j < t.len() ==> entries_disjoint(#[trigger] t[i], #[trigger] t[j])
    &&& forall|i: int| 0 <= i < t.len() ==> entry_consistent(#[trigger] t[i])
}

/// The table without the entries of sound `id`.
pub open spec fn without_sound(t: Seq<BindingView>, id: Seq<char>) -> Seq<BindingView>
    decreases t.len(),
{
    if t.len() == 0 {
        t
    } else {
        let rest = without_sound(t.drop_last(), id);
        if t.last().sound_id == id {
            rest
        } else {
            rest.push(t.last())
        }
    }
}

/// Some entry of the table binds chord `hk`.
pub open spec fn binds_chord(t: Seq<BindingView>, hk: ParsedHotkey) -> bool {
    exists|i: int| 0 <= i < t.len() && #[trigger] t[i].hotkey == hk
}

/// The sound that chord `hk` plays, if any.
pub open spec fn sound_for(t: Seq<BindingView>, hk: ParsedHotkey) -> Option<Seq<char>> {
    if binds_chord(t, hk) {
        Some(t[choose|i: int| 0 <= i < t.len() && #[trigger] t[i].hotkey == hk].sound_id)
    } else {
        None
    }
}

/// Binding `text` to sound `id`: the text must parse; the sound's previous binding
/// is dropped first; then the chord must be free, or the call fails with the
/// sound left unbound.
pub open spec fn bind_result(t: Seq<BindingView>, text: Seq<char>, id: Seq<char>) -> (
    Seq<BindingView>,
    Result<(), HotkeyError>,
) {
    match parse_hotkey_spec(text) {
        None => (t, Err(HotkeyError::UnrecognizedKey)),
        Some(hk) => {
            let kept = without_sound(t, id);
            if binds_chord(kept, hk) {
                (kept, Err(HotkeyError::AlreadyAssigned))
            } else {
                (kept.push(BindingView { hotkey: hk, sound_id: id, text, was_down: false }), Ok(()))
            }
        },
    }
}

/// A binding fires on a rising edge: pressed now, not pressed at the previous poll.
pub open spec fn rising(b: BindingView, keys: Seq<Keycode>) -> bool {
    chord_down(keys, b.hotkey) && !b.was_down
}

/// The sounds that a poll with snapshot `keys` triggers, in table order.
pub open spec fn fired(t: Seq<BindingView>, keys: Seq<Keycode>) -> Seq<Seq<char>>
    decreases t.len(),
{
    if t.len() == 0 {
        Seq::empty()
    } else {
        let rest = fired(t.drop_last(), keys);
        if rising(t.last(), keys) {
            rest.push(t.last().sound_id)
        } else {
            rest
        }
    }
}

/// The table after a poll: each entry remembers whether it is pressed now.
pub open spec fn polled(t: Seq<BindingView>, keys: Seq<Keycode>) -> Seq<BindingView> {
    Seq::new(
        t.len(),
        |i: int|
            BindingView {
                hotkey: t[i].hotkey,
                sound_id: t[i].sound_id,
                text: t[i].text,
                was_down: chord_down(keys, t[i].hotkey),
            },
    )
}

pub proof fn lemma_without_sound_members(t: Seq<BindingView>, id: Seq<char>)
    ensures
        forall|b: BindingView| #[trigger]
            without_sound(t, id).contains(b) <==> (t.contains(b) && b.sound_id != id),
        without_sound(t, id).len() <= t.len(),
    decreases t.len(),
{
    if t.len() > 0 {
        let p = t.drop_last();
        lemma_without_sound_members(p, id);
        let r = without_sound(p, id);
        assert forall|b: BindingView| #[trigger]
            without_sound(t, id).contains(b) <==> (t.contains(b) && b.sound_id != id) by {
            if t.contains(b) && b.sound_id != id {
                let k = choose|k: int| 0 <= k < t.len() && t[k] == b;
                if k < t.len() - 1 {
                    assert(p[k] == b);
                    assert(p.contains(b));
                    assert(r.contains(b));
                    if t.last().sound_id != id {
                        assert(r.push(t.last())[r.len() - 1 + 0] == r[r.len() - 1 + 0] || r.len() == 0);
                        let m = choose|m: int| 0 <= m < r.len() && r[m] == b;
                        assert(r.push(t.last())[m] == b);
                    }
                } else {
                    assert(t.last() == b);
                    assert(r.push(t.last())[r.len() as int] == b);
                }
            }
            if without_sound(t, id).contains(b) {
                if t.last().sound_id != id && b == t.last() {
                    assert(t[t.len() - 1] == b);
                } else {
                    if t.last().sound_id != id {
                        let m = choose|m: int| 0 <= m < r.len() + 1 && r.push(t.last())[m] == b;
                        assert(m < r.len());
                        assert(r[m] == b);
                    }
                    assert(r.contains(b));
                    assert(p.contains(b));
                    let k = choose|k: int| 0 <= k < p.len() && p[k] == b;
                    assert(t[k] == b);
                }
            }
        }
    }
}

pub proof fn lemma_without_sound_wf(t: Seq<BindingView>, id: Seq<char>)
    requires
        table_wf(t),
    ensures
        table_wf(without_sound(t, id)),
    decreases t.len(),
{
    if t.len() > 0 {
        let p = t.drop_last();
        assert forall|i: int, j: int| 0 <= i < j < p.len() implies entries_disjoint(
            #[trigger] p[i],
            #[trigger] p[j],
        ) by {
            assert(p[i] == t[i] && p[j] == t[j]);
        }
        assert forall|i: int| 0 <= i < p.len() implies entry_consistent(#[trigger] p[i]) by {
            assert(p[i] == t[i]);
        }
        lemma_without_sound_wf(p, id);
        lemma_without_sound_members(p, id);
        let r = without_sound(p, id);
        if t.last().sound_id != id {
            let r2 = r.push(t.last());
            assert forall|i: int, j: int| 0 <= i < j < r2.len() implies entries_disjoint(
                #[trigger] r2[i],
                #[trigger] r2[j],
            ) by {
                if j < r2.len() - 1 {
                    assert(r2[i] == r[i] && r2[j] == r[j]);
                } else {
                    assert(r2[i] == r[i]);
                    assert(r.contains(r2[i]));
                    let k = choose|k: int| 0 <= k < p.len() && p[k] == r2[i];
                    assert(t[k] == r2[i]);
                    assert(t[t.len() - 1] == r2[j]);
                }
            }
            assert forall|i: int| 0 <= i < r2.len() implies entry_consistent(#[trigger] r2[i]) by {
                if i < r2.len() - 1 {
                    assert(r2[i] == r[i]);
                } else {
                    assert(r2[i] == t[t.len() - 1]);
                }
            }
        }
    }
}

pub proof fn lemma_bind_wf(t: Seq<BindingView>, text: Seq<char>, id: Seq<char>)
    requires
        table_wf(t),
    ensures
        table_wf(bind_result(t, text, id).0),
{
    lemma_without_sound_wf(t, id);
    if let Some(hk) = parse_hotkey_spec(text) {
        let kept = without_sound(t, id);
        lemma_without_sound_members(t, id);
        if !binds_chord(kept, hk) {
            let nb = BindingView { hotkey: hk, sound_id: id, text, was_down: false };
            let r = kept.push(nb);
            assert forall|i: int, j: int| 0 <= i < j < r.len() implies entries_disjoint(
                #[trigger] r[i],
                #[trigger] r[j],
            ) by {
                if j < r.len() - 1 {
                    assert(r[i] == kept[i] && r[j] == kept[j]);
                } else {
                    assert(kept[i] == r[i]);
                    assert(kept.contains(r[i]));
                }
            }
            assert forall|i: int| 0 <= i < r.len() implies entry_consistent(#[trigger] r[i]) by {
                if i < r.len() - 1 {
                    assert(r[i] == kept[i]);
                }
            }
        }
    }
}

pub proof fn lemma_polled_wf(t: Seq<BindingView>, keys: Seq<Keycode>)
    requires
        table_wf(t),
    ensures
        table_wf(polled(t, keys)),
{
    let r = polled(t, keys);
    assert forall|i: int, j: int| 0 <= i < j < r.len() implies entries_disjoint(
        #[trigger] r[i],
        #[trigger] r[j],
    ) by {
        assert(entries_disjoint(t[i], t[j]));
    }
    assert forall|i: int| 0 <= i < r.len() implies entry_consistent(#[trigger] r[i]) by {
        assert(entry_consistent(t[i]));
    }
}

/// Manages global hotkey bindings: chord -> sound id, with edge detection.
///
/// The caller polls the keyboard and hands each snapshot to [`Self::poll_triggered`];
/// a binding fires exactly once per physical press, not repeatedly while held.
///
/// The bindings are one table, a `Vec` of rows (chord, sound id, the text it was
/// bound with, and whether the chord was down at the last poll), kept well formed
/// as the type's invariant: no chord and no sound occurs twice. A table is used
/// rather than maps keyed by chord and by sound id because Verus specifies std's
/// `HashMap` only for keys whose hashing it knows, which excludes `String` and
/// the library's own key types, so a map-based manager could state nothing about
/// its contents. The per-binding "was down" flag is the edge detector's state.
pub struct HotkeyManager {
    bindings: Vec<Binding>,
    available: bool,
}

impl View for HotkeyManager {
    type V = Seq<BindingView>;

    closed spec fn view(&self) -> Seq<BindingView> {
        binding_views(self.bindings@)
    }
}

impl HotkeyManager {
    /// Whether the keyboard can be queried at all.
    pub closed spec fn available(&self) -> bool {
        self.available
    }

    /// The manager's table is well formed: each sound has at most one binding and
    /// no chord is bound twice. Every manager keeps this; its methods state it of
    /// the table they leave.
    pub open spec fn wf(&self) -> bool {
        table_wf(self@)
    }

    #[verifier::type_invariant]
    spec fn table_is_wf(self) -> bool {
        table_wf(binding_views(self.bindings@))
    }

    /// An empty table.
    pub fn new() -> (m: Self)
        ensures
            m@ == Seq::<BindingView>::empty(),
            m.wf(),
            m.available(),
    {
        let m = HotkeyManager { bindings: Vec::new(), available: true };
        assert(m@ =~= Seq::<BindingView>::empty());
        m
    }

    pub fn is_available(&self) -> (res: bool)
        ensures
            res == self.available(),
    {
        self.available
    }

    /// Drops the bindings of sound `id`.
    fn drop_sound(&mut self, id: &str)
        ensures
            final(self)@ == without_sound(old(self)@, id@),
            final(self).available() == old(self).available(),
    {
        proof {
            use_type_invariant(&*self);
            lemma_without_sound_wf(self@, id@);
        }
        let mut kept: Vec<Binding> = Vec::new();
        let mut i: usize = 0;
        let ghost t = self@;
        assert(t.take(0) =~= Seq::<BindingView>::empty());
        while i < self.bindings.len()
            invariant
                i <= self.bindings.len(),
                t == binding_views(self.bindings@),
                binding_views(kept@) == without_sound(t.take(i as int), id@),
            decreases self.bindings.len() - i,
        {
            assert(t.take(i + 1).drop_last() =~= t.take(i as int));
            let same = str_eq(self.bindings[i].sound_id.as_str(), id);
            if !same {
                let b = self.bindings[i].duplicate();
                kept.push(b);
                assert(binding_views(kept@) =~= without_sound(t.take(i + 1), id@));
            }
            i += 1;
        }
        assert(t.take(self.bindings.len() as int) =~= t);
        self.bindings = kept;
    }

    /// Whether some binding uses chord `hk`.
    fn has_chord(&self, hk: &ParsedHotkey) -> (res: bool)
        ensures
            res == binds_chord(self@, *hk),
    {
        let mut i: usize = 0;
        while i < self.bindings.len()
            invariant
                i <= self.bindings.len(),
                forall|k: int| 0 <= k < i ==> self@[k].hotkey != *hk,
            decreases self.bindings.len() - i,
        {
            if self.bindings[i].hotkey == *hk {
                assert(self@[i as int].hotkey == *hk);
                return true;
            }
            i += 1;
        }
        false
    }

    /// Binds a hotkey text to a sound id. A sound's previous hotkey is replaced.
    pub fn bind(&mut self, hotkey_str: &str, sound_id: &str) -> (res: Result<(), HotkeyError>)
        ensures
            final(self).wf(),
            (final(self)@, res) == bind_result(old(self)@, hotkey_str@, sound_id@),
            final(self).available() == old(self).available(),
    {
        proof {
            use_type_invariant(&*self);
            lemma_bind_wf(self@, hotkey_str@, sound_id@);
        }
        let hk = match parse_hotkey(hotkey_str) {
            Some(hk) => hk,
            None => return Err(HotkeyError::UnrecognizedKey),
        };
        self.drop_sound(sound_id);
        if self.has_chord(&hk) {
            return Err(HotkeyError::AlreadyAssigned);
        }
        let ghost before = self@;
        let mut table: Vec<Binding> = Vec::new();
        assert(binding_views(table@) =~= Seq::<BindingView>::empty());
        std::mem::swap(&mut table, &mut self.bindings);
        table.push(
            Binding {
                hotkey: hk,
                sound_id: sound_id.to_owned(),
                text: hotkey_str.to_owned(),
                was_down: false,
            },
        );
        assert(binding_views(table@) =~= before.push(
            BindingView { hotkey: hk, sound_id: sound_id@, text: hotkey_str@, was_down: false },
        ));
        self.bindings = table;
        Ok(())
    }

    /// Removes the hotkey of a sound, if it has one.
    pub fn unbind(&mut self, sound_id: &str)
        ensures
            final(self).wf(),
            final(self)@ == without_sound(old(self)@, sound_id@),
            final(self).available() == old(self).available(),
    {
        proof {
            use_type_invariant(&*self);
            lemma_without_sound_wf(self@, sound_id@);
        }
        self.drop_sound(sound_id);
    }

    /// Removes every binding.
    pub fn unbind_all(&mut self)
        ensures
            final(self).wf(),
            final(self)@ == Seq::<BindingView>::empty(),
            final(self).available() == old(self).available(),
    {
        self.bindings = Vec::new();
        assert(self@ =~= Seq::<BindingView>::empty());
    }

    /// Takes a keyboard snapshot and returns the sound ids whose binding was just
    /// pressed (edge-triggered: once per physical press, even if the key is held).
    pub fn poll_triggered(&mut self, keys: &Vec<Keycode>) -> (out: Vec<String>)
        ensures
            final(self).wf(),
            final(self)@ == polled(old(self)@, keys@),
            string_views(out@) == fired(old(self)@, keys@),
            final(self).available() == old(self).available(),
    {
        proof {
            use_type_invariant(&*self);
            lemma_polled_wf(self@, keys@);
        }
        let ghost t = self@;
        let mut out: Vec<String> = Vec::new();
        let mut next: Vec<Binding> = Vec::new();
        let mut i: usize = 0;
        assert(t.take(0) =~= Seq::<BindingView>::empty());
        while i < self.bindings.len()
            invariant
                i <= self.bindings.len(),
                t == binding_views(self.bindings@),
                string_views(out@) == fired(t.take(i as int), keys@),
                binding_views(next@) == polled(t, keys@).take(i as int),
            decreases self.bindings.len() - i,
        {
            assert(t.take(i + 1).drop_last() =~= t.take(i as int));
            let b = &self.bindings[i];
            assert(t[i as int] == self.bindings@[i as int]@);
            let down = is_chord_down(keys, &b.hotkey);
            if down && !b.was_down {
                out.push(b.sound_id.clone());
            }
            assert(string_views(out@) =~= fired(t.take(i + 1), keys@));
            let nb = Binding {
                hotkey: b.hotkey,
                sound_id: b.sound_id.clone(),
                text: b.text.clone(),
                was_down: down,
            };
            assert(nb@ == polled(t, keys@)[i as int]);
            let ghost prev = next@;
            next.push(nb);
            assert(next@ == prev.push(nb));
            assert(binding_views(next@) =~= binding_views(prev).push(nb@));
            assert(binding_views(next@) =~= polled(t, keys@).take(i + 1));
            i += 1;
        }
        assert(t.take(self.bindings.len() as int) =~= t);
        assert(polled(t, keys@).take(self.bindings.len() as int) =~= polled(t, keys@));
        self.bindings = next;
        out
    }
}

} // verus!

verus! {

// ───────────────────────── key capture ─────────────────────────

/// The name that a captured key gets in chord text: F1 to F12, letters, top-row
/// digits and Space; other keys are not captured.
pub open spec fn capture_label_spec(k: Keycode) -> Option<Seq<char>> {
    match k {
        Keycode::F1 => Some("F1"@),
        Keycode::F2 => Some("F2"@),
        Keycode::F3 => Some("F3"@),
        Keycode::F4 => Some("F4"@),
        Keycode::F5 => Some("F5"@),
        Keycode::F6 => Some("F6"@),
        Keycode::F7 => Some("F7"@),
        Keycode::F8 => Some("F8"@),
        Keycode::F9 => Some("F9"@),
        Keycode::F10 => Some("F10"@),
        Keycode::F11 => Some("F11"@),
        Keycode::F12 => Some("F12"@),
        Keycode::A => Some("A"@),
        Keycode::B => Some("B"@),
        Keycode::C => Some("C"@),
        Keycode::D => Some("D"@),
        Keycode::E => Some("E"@),
        Keycode::F => Some("F"@),
        Keycode::G => Some("G"@),
        Keycode::H => Some("H"@),
        Keycode::I => Some("I"@),
        Keycode::J => Some("J"@),
        Keycode::K => Some("K"@),
        Keycode::L => Some("L"@),
        Keycode::M => Some("M"@),
        Keycode::N => Some("N"@),
        Keycode::O => Some("O"@),
        Keycode::P => Some("P"@),
        Keycode::Q => Some("Q"@),
        Keycode::R => Some("R"@),
        Keycode::S => Some("S"@),
        Keycode::T => Some("T"@),
        Keycode::U => Some("U"@),
        Keycode::V => Some("V"@),
        Keycode::W => Some("W"@),
        Keycode::X => Some("X"@),
        Keycode::Y => Some("Y"@),
        Keycode::Z => Some("Z"@),
        Keycode::Key0 => Some("0"@),
        Keycode::Key1 => Some("1"@),
        Keycode::Key2 => Some("2"@),
        Keycode::Key3 => Some("3"@),
        Keycode::Key4 => Some("4"@),
        Keycode::Key5 => Some("5"@),
        Keycode::Key6 => Some("6"@),
        Keycode::Key7 => Some("7"@),
        Keycode::Key8 => Some("8"@),
        Keycode::Key9 => Some("9"@),
        Keycode::Space => Some("Space"@),
        _ => None,
    }
}

/// The chord-text name of a captured key.
pub fn capture_label(k: Keycode) -> (res: Option<&'static str>)
    ensures
        match res {
            Some(t) => capture_label_spec(k) == Some(t@),
            None => capture_label_spec(k) is None,
        },
{
    match k {
        Keycode::F1 => Some("F1"),
        Keycode::F2 => Some("F2"),
        Keycode::F3 => Some("F3"),
        Keycode::F4 => Some("F4"),
        Keycode::F5 => Some("F5"),
        Keycode::F6 => Some("F6"),
        Keycode::F7 => Some("F7"),
        Keycode::F8 => Some("F8"),
        Keycode::F9 => Some("F9"),
        Keycode::F10 => Some("F10"),
        Keycode::F11 => Some("F11"),
        Keycode::F12 => Some("F12"),
        Keycode::A => Some("A"),
        Keycode::B => Some("B"),
        Keycode::C => Some("C"),
        Keycode::D => Some("D"),
        Keycode::E => Some("E"),
        Keycode::F => Some("F"),
        Keycode::G => Some("G"),
        Keycode::H => Some("H"),
        Keycode::I => Some("I"),
        Keycode::J => Some("J"),
        Keycode::K => Some("K"),
        Keycode::L => Some("L"),
        Keycode::M => Some("M"),
        Keycode::N => Some("N"),
        Keycode::O => Some("O"),
        Keycode::P => Some("P"),
        Keycode::Q => Some("Q"),
        Keycode::R => Some("R"),
        Keycode::S => Some("S"),
        Keycode::T => Some("T"),
        Keycode::U => Some("U"),
        Keycode::V => Some("V"),
        Keycode::W => Some("W"),
        Keycode::X => Some("X"),
        Keycode::Y => Some("Y"),
        Keycode::Z => Some("Z"),
        Keycode::Key0 => Some("0"),
        Keycode::Key1 => Some("1"),
        Keycode::Key2 => Some("2"),
        Keycode::Key3 => Some("3"),
        Keycode::Key4 => Some("4"),
        Keycode::Key5 => Some("5"),
        Keycode::Key6 => Some("6"),
        Keycode::Key7 => Some("7"),
        Keycode::Key8 => Some("8"),
        Keycode::Key9 => Some("9"),
        Keycode::Space => Some("Space"),
        _ => None,
    }
}

/// The text a capture writes for a key with the given modifiers held:
/// "Ctrl+", "Shift+", "Alt+" and "Meta+" as held, in that order, then the key.
pub open spec fn chord_text(ctrl: bool, shift: bool, alt: bool, meta: bool, label: Seq<char>) -> Seq<
    char,
> {
    (if ctrl {
        "Ctrl+"@
    } else {
        Seq::empty()
    }) + (if shift {
        "Shift+"@
    } else {
        Seq::empty()
    }) + (if alt {
        "Alt+"@
    } else {
        Seq::empty()
    }) + (if meta {
        "Meta+"@
    } else {
        Seq::empty()
    }) + label
}

/// The chord text for a key press with its modifiers ("Ctrl+Shift+1"); `None`
/// when the key is not one that a capture takes. Meta is written for the Mac
/// Command key and for the platform command modifier.
pub fn capture_chord(ctrl: bool, shift: bool, alt: bool, mac_cmd: bool, command: bool, key: Keycode) -> (res:
    Option<String>)
    ensures
        match res {
            Some(t) => capture_label_spec(key) matches Some(l) && t@ == chord_text(
                ctrl,
                shift,
                alt,
                mac_cmd || command,
                l,
            ),
            None => capture_label_spec(key) is None,
        },
{
    let label = match capture_label(key) {
        Some(l) => l,
        None => return None,
    };
    let mut out = String::new();
    if ctrl {
        push_str(&mut out, "Ctrl+");
    }
    if shift {
        push_str(&mut out, "Shift+");
    }
    if alt {
        push_str(&mut out, "Alt+");
    }
    if mac_cmd || command {
        push_str(&mut out, "Meta+");
    }
    push_str(&mut out, label);
    assert(out@ =~= chord_text(ctrl, shift, alt, mac_cmd || command, label@));
    Some(out)
}

// ───────────────────────── restoring the table ─────────────────────────

/// A binding that could not be restored.
#[derive(Clone, Debug)]
pub struct BindFailure {
    pub hotkey: String,
    pub sound_id: String,
    pub error: HotkeyError,
}

/// Whether a sound asks for a global hotkey: it has one and it is enabled.
pub open spec fn wants_hotkey(s: SoundView) -> bool {
    s.hotkey is Some && s.hotkey_enabled
}

/// Binding the enabled hotkeys of `sounds` in order, starting from `t`.
pub open spec fn bind_all(t: Seq<BindingView>, sounds: Seq<SoundView>) -> (
    Seq<BindingView>,
    Seq<(Seq<char>, Seq<char>, HotkeyError)>,
)
    decreases sounds.len(),
{
    if sounds.len() == 0 {
        (t, Seq::empty())
    } else {
        let prev = bind_all(t, sounds.drop_last());
        let s = sounds.last();
        if wants_hotkey(s) {
            let (t2, r) = bind_result(prev.0, s.hotkey.unwrap(), s.id);
            match r {
                Ok(_) => (t2, prev.1),
                Err(e) => (t2, prev.1.push((s.hotkey.unwrap(), s.id, e))),
            }
        } else {
            prev
        }
    }
}

pub open spec fn failure_views(v: Seq<BindFailure>) -> Seq<(Seq<char>, Seq<char>, HotkeyError)> {
    v.map_values(|f: BindFailure| (f.hotkey@, f.sound_id@, f.error))
}

proof fn lemma_bind_all_wf(t: Seq<BindingView>, sounds: Seq<SoundView>)
    requires
        table_wf(t),
    ensures
        table_wf(bind_all(t, sounds).0),
    decreases sounds.len(),
{
    if sounds.len() > 0 {
        lemma_bind_all_wf(t, sounds.drop_last());
        let prev = bind_all(t, sounds.drop_last());
        let s = sounds.last();
        if wants_hotkey(s) {
            lemma_bind_wf(prev.0, s.hotkey.unwrap(), s.id);
        }
    }
}

impl HotkeyManager {
    /// (Re-)registers every saved hotkey: clears the table and, when hotkeys are
    /// enabled, binds each sound that has an enabled hotkey, in library order.
    /// Returns the bindings that failed.
    pub fn rebind_all(&mut self, sounds: &Vec<SoundFile>, enabled: bool) -> (failures: Vec<BindFailure>)
        ensures
            final(self).wf(),
            !enabled ==> final(self)@ == Seq::<BindingView>::empty() && failures@.len() == 0,
            enabled ==> (final(self)@, failure_views(failures@)) == bind_all(
                Seq::<BindingView>::empty(),
                sound_views(sounds@),
            ),
            final(self).available() == old(self).available(),
    {
        self.unbind_all();
        let mut failures: Vec<BindFailure> = Vec::new();
        if !enabled {
            return failures;
        }
        let ghost sv = sound_views(sounds@);
        let mut i: usize = 0;
        assert(sv.take(0) =~= Seq::<SoundView>::empty());
        while i < sounds.len()
            invariant
                i <= sounds.len(),
                sv == sound_views(sounds@),
                self.wf(),
                (self@, failure_views(failures@)) == bind_all(
                    Seq::<BindingView>::empty(),
                    sv.take(i as int),
                ),
                self.available() == old(self).available(),
            decreases sounds.len() - i,
        {
            assert(sv.take(i + 1).drop_last() =~= sv.take(i as int));
            assert(sv.take(i + 1).last() == sounds@[i as int]@);
            let s = &sounds[i];
            if s.hotkey_enabled {
                match &s.hotkey {
                    Some(hk) => {
                        let r = self.bind(hk.as_str(), s.id.as_str());
                        match r {
                            Ok(_) => {},
                            Err(e) => {
                                let ghost prev = failures@;
                                failures.push(
                                    BindFailure {
                                        hotkey: hk.clone(),
                                        sound_id: s.id.clone(),
                                        error: e,
                                    },
                                );
                                assert(failure_views(failures@) =~= failure_views(prev).push(
                                    (hk@, s.id@, e),
                                ));
                            },
                        }
                    },
                    None => {},
                }
            }
            i += 1;
        }
        assert(sv.take(sounds.len() as int) =~= sv);
        failures
    }
}

} // verus!

verus! {

// ───────────────────────── laws of the binding table ─────────────────────────

proof fn lemma_fired_members(t: Seq<BindingView>, keys: Seq<Keycode>)
    ensures
        forall|id: Seq<char>| #[trigger]
            fired(t, keys).contains(id) <==> exists|i: int|
                0 <= i < t.len() && #[trigger] t[i].sound_id == id && rising(t[i], keys),
    decreases t.len(),
{
    if t.len() > 0 {
        let p = t.drop_last();
        lemma_fired_members(p, keys);
        let r = fired(p, keys);
        assert forall|id: Seq<char>| #[trigger]
            fired(t, keys).contains(id) <==> exists|i: int|
                0 <= i < t.len() && #[trigger] t[i].sound_id == id && rising(t[i], keys) by {
            if fired(t, keys).contains(id) {
                if r.contains(id) {
                    let i = choose|i: int|
                        0 <= i < p.len() && #[trigger] p[i].sound_id == id && rising(p[i], keys);
                    assert(t[i] == p[i]);
                } else {
                    let m = choose|m: int| 0 <= m < fired(t, keys).len() && fired(t, keys)[m] == id;
                    assert(rising(t.last(), keys));
                    if m < r.len() {
                        assert(r[m] == id);
                    }
                    assert(t[t.len() - 1].sound_id == id);
                }
            }
            if exists|i: int| 0 <= i < t.len() && #[trigger] t[i].sound_id == id && rising(t[i], keys) {
                let i = choose|i: int|
                    0 <= i < t.len() && #[trigger] t[i].sound_id == id && rising(t[i], keys);
                if i < t.len() - 1 {
                    assert(p[i] == t[i]);
                    assert(r.contains(id));
                    let m = choose|m: int| 0 <= m < r.len() && r[m] == id;
                    if rising(t.last(), keys) {
                        assert(r.push(t.last().sound_id)[m] == id);
                    }
                } else {
                    assert(r.push(t.last().sound_id)[r.len() as int] == id);
                }
            }
        }
    }
}

/// Edge-triggered firing: polling the same keyboard snapshot again fires nothing,
/// however long the keys are held.
pub proof fn law_held_chord_fires_once(t: Seq<BindingView>, keys: Seq<Keycode>)
    ensures
        fired(polled(t, keys), keys) == Seq::<Seq<char>>::empty(),
    decreases t.len(),
{
    if t.len() > 0 {
        law_held_chord_fires_once(t.drop_last(), keys);
        assert(polled(t, keys).drop_last() =~= polled(t.drop_last(), keys));
    } else {
        assert(polled(t, keys).len() == 0);
    }
}

/// Holding more modifiers than a chord names does not stop it: if the chord is
/// pressed, it stays pressed when any other keys are held as well.
pub proof fn law_extra_keys_keep_chord_down(keys: Seq<Keycode>, more: Seq<Keycode>, hk: ParsedHotkey)
    requires
        chord_down(keys, hk),
    ensures
        chord_down(keys + more, hk),
{
    let all = keys + more;
    assert forall|k: Keycode| keys.contains(k) implies all.contains(k) by {
        let i = choose|i: int| 0 <= i < keys.len() && keys[i] == k;
        assert(all[i] == k);
    }
}

/// A snapshot holding a chord's key and, for each modifier the chord asks for,
/// that modifier's left key (`left`) or its right key.
pub open spec fn one_side_snapshot(hk: ParsedHotkey, left: bool) -> Seq<Keycode> {
    seq![
        hk.key,
        if !hk.ctrl {
            hk.key
        } else if left {
            Keycode::LControl
        } else {
            Keycode::RControl
        },
        if !hk.shift {
            hk.key
        } else if left {
            Keycode::LShift
        } else {
            Keycode::RShift
        },
        if !hk.alt {
            hk.key
        } else if left {
            Keycode::LAlt
        } else {
            Keycode::RAlt
        },
    ]
}

proof fn lemma_push_contains(keys: Seq<Keycode>, x: Keycode, y: Keycode)
    ensures
        keys.push(x).contains(y) == (keys.contains(y) || x == y),
{
    let p = keys.push(x);
    if keys.contains(y) {
        let i = choose|i: int| 0 <= i < keys.len() && keys[i] == y;
        assert(p[i] == y);
    }
    if x == y {
        assert(p[keys.len() as int] == y);
    }
    if p.contains(y) {
        let i = choose|i: int| 0 <= i < p.len() && p[i] == y;
        if i < keys.len() {
            assert(keys[i] == y);
        }
    }
}

/// Either side's key satisfies a modifier. A chord is pressed when its key and,
/// for each of its modifiers, the left or the right key is held (left Alt + K
/// presses Alt+K); swapping a held left modifier key for the right one never
/// changes whether a chord is pressed; and a chord is not pressed while its key,
/// or both keys of one of its modifiers, are up.
pub proof fn law_either_side_satisfies_modifiers(hk: ParsedHotkey, left: bool, keys: Seq<Keycode>)
    ensures
        !is_modifier_key(hk.key) ==> chord_down(one_side_snapshot(hk, left), hk),
        chord_down(keys.push(Keycode::LControl), hk) == chord_down(
            keys.push(Keycode::RControl),
            hk,
        ),
        chord_down(keys.push(Keycode::LShift), hk) == chord_down(keys.push(Keycode::RShift), hk),
        chord_down(keys.push(Keycode::LAlt), hk) == chord_down(keys.push(Keycode::RAlt), hk),
        !keys.contains(hk.key) ==> !chord_down(keys, hk),
        hk.ctrl && !keys.contains(Keycode::LControl) && !keys.contains(Keycode::RControl)
            ==> !chord_down(keys, hk),
        hk.shift && !keys.contains(Keycode::LShift) && !keys.contains(Keycode::RShift)
            ==> !chord_down(keys, hk),
        hk.alt && !keys.contains(Keycode::LAlt) && !keys.contains(Keycode::RAlt) ==> !chord_down(
            keys,
            hk,
        ),
{
    let snap = one_side_snapshot(hk, left);
    assert(snap[0] == hk.key);
    assert(hk.ctrl ==> snap.contains(snap[1]));
    assert(hk.shift ==> snap.contains(snap[2]));
    assert(hk.alt ==> snap.contains(snap[3]));
    lemma_push_contains(keys, Keycode::LControl, hk.key);
    lemma_push_contains(keys, Keycode::RControl, hk.key);
    lemma_push_contains(keys, Keycode::LShift, hk.key);
    lemma_push_contains(keys, Keycode::RShift, hk.key);
    lemma_push_contains(keys, Keycode::LAlt, hk.key);
    lemma_push_contains(keys, Keycode::RAlt, hk.key);
    lemma_push_contains(keys, Keycode::LControl, Keycode::LControl);
    lemma_push_contains(keys, Keycode::LControl, Keycode::RControl);
    lemma_push_contains(keys, Keycode::LControl, Keycode::LShift);
    lemma_push_contains(keys, Keycode::LControl, Keycode::RShift);
    lemma_push_contains(keys, Keycode::LControl, Keycode::LAlt);
    lemma_push_contains(keys, Keycode::LControl, Keycode::RAlt);
    lemma_push_contains(keys, Keycode::RControl, Keycode::LControl);
    lemma_push_contains(keys, Keycode::RControl, Keycode::RControl);
    lemma_push_contains(keys, Keycode::RControl, Keycode::LShift);
    lemma_push_contains(keys, Keycode::RControl, Keycode::RShift);
    lemma_push_contains(keys, Keycode::RControl, Keycode::LAlt);
    lemma_push_contains(keys, Keycode::RControl, Keycode::RAlt);
    lemma_push_contains(keys, Keycode::LShift, Keycode::LControl);
    lemma_push_contains(keys, Keycode::LShift, Keycode::RControl);
    lemma_push_contains(keys, Keycode::LShift, Keycode::LShift);
    lemma_push_contains(keys, Keycode::LShift, Keycode::RShift);
    lemma_push_contains(keys, Keycode::LShift, Keycode::LAlt);
    lemma_push_contains(keys, Keycode::LShift, Keycode::RAlt);
    lemma_push_contains(keys, Keycode::RShift, Keycode::LControl);
    lemma_push_contains(keys, Keycode::RShift, Keycode::RControl);
    lemma_push_contains(keys, Keycode::RShift, Keycode::LShift);
    lemma_push_contains(keys, Keycode::RShift, Keycode::RShift);
    lemma_push_contains(keys, Keycode::RShift, Keycode::LAlt);
    lemma_push_contains(keys, Keycode::RShift, Keycode::RAlt);
    lemma_push_contains(keys, Keycode::LAlt, Keycode::LControl);
    lemma_push_contains(keys, Keycode::LAlt, Keycode::RControl);
    lemma_push_contains(keys, Keycode::LAlt, Keycode::LShift);
    lemma_push_contains(keys, Keycode::LAlt, Keycode::RShift);
    lemma_push_contains(keys, Keycode::LAlt, Keycode::LAlt);
    lemma_push_contains(keys, Keycode::LAlt, Keycode::RAlt);
    lemma_push_contains(keys, Keycode::RAlt, Keycode::LControl);
    lemma_push_contains(keys, Keycode::RAlt, Keycode::RControl);
    lemma_push_contains(keys, Keycode::RAlt, Keycode::LShift);
    lemma_push_contains(keys, Keycode::RAlt, Keycode::RShift);
    lemma_push_contains(keys, Keycode::RAlt, Keycode::LAlt);
    lemma_push_contains(keys, Keycode::RAlt, Keycode::RAlt);
}

/// A poll fires exactly the sounds whose chord is pressed now and was not pressed
/// at the previous poll.
pub proof fn law_poll_fires_rising_chords(t: Seq<BindingView>, keys: Seq<Keycode>, id: Seq<char>)
    ensures
        fired(t, keys).contains(id) <==> exists|i: int|
            0 <= i < t.len() && #[trigger] t[i].sound_id == id && chord_down(keys, t[i].hotkey)
                && !t[i].was_down,
{
    lemma_fired_members(t, keys);
}

/// Releasing a chord and pressing it again fires its sound again.
pub proof fn law_press_after_release_fires(
    t: Seq<BindingView>,
    released: Seq<Keycode>,
    pressed: Seq<Keycode>,
    i: int,
)
    requires
        0 <= i < t.len(),
        !chord_down(released, t[i].hotkey),
        chord_down(pressed, t[i].hotkey),
    ensures
        fired(polled(t, released), pressed).contains(t[i].sound_id),
{
    let p = polled(t, released);
    lemma_fired_members(p, pressed);
    assert(p[i].sound_id == t[i].sound_id && rising(p[i], pressed));
}

/// A successful bind makes the chord play the sound, and the sound has no other chord.
pub proof fn law_bind_then_lookup(t: Seq<BindingView>, text: Seq<char>, id: Seq<char>)
    requires
        table_wf(t),
        bind_result(t, text, id).1 is Ok,
    ensures
        parse_hotkey_spec(text) is Some,
        sound_for(bind_result(t, text, id).0, parse_hotkey_spec(text).unwrap()) == Some(id),
        forall|i: int|
            0 <= i < bind_result(t, text, id).0.len() && #[trigger] bind_result(t, text, id).0[i].sound_id
                == id ==> bind_result(t, text, id).0[i].hotkey == parse_hotkey_spec(text).unwrap(),
{
    let hk = parse_hotkey_spec(text).unwrap();
    let r = bind_result(t, text, id).0;
    lemma_bind_wf(t, text, id);
    let last = r.len() - 1;
    assert(r[last].hotkey == hk);
    assert(binds_chord(r, hk));
    let k = choose|k: int| 0 <= k < r.len() && #[trigger] r[k].hotkey == hk;
    if k != last {
        assert(entries_disjoint(r[k], r[last]));
    }
    assert forall|i: int| 0 <= i < r.len() && #[trigger] r[i].sound_id == id implies r[i].hotkey
        == hk by {
        if i != last {
            if i < last {
                assert(entries_disjoint(r[i], r[last]));
            }
        }
    }
}

/// A chord bound to another sound is refused, and that sound keeps its chord.
pub proof fn law_bind_rejects_taken_chord(
    t: Seq<BindingView>,
    text: Seq<char>,
    id: Seq<char>,
    j: int,
)
    requires
        table_wf(t),
        0 <= j < t.len(),
        parse_hotkey_spec(text) == Some(t[j].hotkey),
        t[j].sound_id != id,
    ensures
        bind_result(t, text, id).1 == Err::<(), HotkeyError>(HotkeyError::AlreadyAssigned),
        bind_result(t, text, id).0.contains(t[j]),
{
    lemma_without_sound_members(t, id);
    assert(t.contains(t[j]));
    let kept = without_sound(t, id);
    assert(kept.contains(t[j]));
    let k = choose|k: int| 0 <= k < kept.len() && kept[k] == t[j];
    assert(kept[k].hotkey == t[j].hotkey);
}

/// Unbinding a sound leaves it no chord and keeps every other binding.
pub proof fn law_unbind_removes_only_that_sound(t: Seq<BindingView>, id: Seq<char>, b: BindingView)
    ensures
        without_sound(t, id).contains(b) <==> (t.contains(b) && b.sound_id != id),
        forall|i: int|
            0 <= i < without_sound(t, id).len() ==> #[trigger] without_sound(t, id)[i].sound_id
                != id,
{
    lemma_without_sound_members(t, id);
    assert forall|i: int|
        0 <= i < without_sound(t, id).len() implies #[trigger] without_sound(t, id)[i].sound_id
        != id by {
        assert(without_sound(t, id).contains(without_sound(t, id)[i]));
    }
}

} // verus!

verus! {

// ───────────────────────── captured chords parse back ─────────────────────────

proof fn lemma_split_single(w: Seq<char>)
    requires
        forall|i: int| 0 <= i < w.len() ==> #[trigger] w[i] != '+',
    ensures
        split_on(w, '+') == seq![w],
    decreases w.len(),
{
    if w.len() > 0 {
        lemma_split_single(w.drop_last());
        assert(w[w.len() - 1] != '+');
        assert(w.drop_last().push(w.last()) =~= w);
        assert(seq![w.drop_last()].update(0, w.drop_last().push(w.last())) =~= seq![w]);
    } else {
        assert(w =~= Seq::<char>::empty());
    }
}

proof fn lemma_split_after_word(w: Seq<char>, t: Seq<char>)
    requires
        forall|i: int| 0 <= i < w.len() ==> #[trigger] w[i] != '+',
    ensures
        split_on(w + seq!['+'] + t, '+') == seq![w] + split_on(t, '+'),
    decreases t.len(),
{
    let u = w + seq!['+'] + t;
    if t.len() == 0 {
        lemma_split_single(w);
        assert(u.drop_last() =~= w);
        assert(split_on(u, '+') =~= seq![w] + split_on(t, '+'));
    } else {
        lemma_split_after_word(w, t.drop_last());
        assert(u.drop_last() =~= w + seq!['+'] + t.drop_last());
        lemma_split_nonempty(t.drop_last(), '+');
        let x = split_on(t.drop_last(), '+');
        if t.last() == '+' {
            assert(split_on(u, '+') =~= seq![w] + split_on(t, '+'));
        } else {
            assert((seq![w] + x).update(x.len() as int, x.last().push(t.last())) =~= seq![w] + x.update(
                x.len() - 1,
                x.last().push(t.last()),
            ));
            assert(split_on(u, '+') =~= seq![w] + split_on(t, '+'));
        }
    }
}

/// The text with a modifier word in front when `present`.
pub open spec fn with_word(present: bool, word: Seq<char>, rest: Seq<char>) -> Seq<char> {
    if present {
        word + seq!['+'] + rest
    } else {
        rest
    }
}

/// The parts with a modifier word in front when `present`.
pub open spec fn with_part(present: bool, word: Seq<char>, rest: Seq<Seq<char>>) -> Seq<Seq<char>> {
    if present {
        seq![word] + rest
    } else {
        rest
    }
}

proof fn lemma_split_with_word(present: bool, word: Seq<char>, rest: Seq<char>)
    requires
        forall|i: int| 0 <= i < word.len() ==> #[trigger] word[i] != '+',
    ensures
        split_on(with_word(present, word, rest), '+') == with_part(present, word, split_on(rest, '+')),
{
    if present {
        lemma_split_after_word(word, rest);
    }
}

proof fn lemma_trim_plain(l: Seq<char>)
    requires
        l.len() > 0,
        !is_white_space(l[0]),
        !is_white_space(l.last()),
    ensures
        trim(l) == l,
{
}

/// `read_parts` started from draft `d` instead of the empty draft.
pub open spec fn read_parts_from(d: ChordDraft, parts: Seq<Seq<char>>) -> Option<ChordDraft>
    decreases parts.len(),
{
    if parts.len() == 0 {
        Some(d)
    } else {
        match read_parts_from(d, parts.drop_last()) {
            Some(e) => read_part(e, parts.last()),
            None => None,
        }
    }
}

proof fn lemma_read_from_front(d: ChordDraft, w: Seq<char>, rest: Seq<Seq<char>>, e: ChordDraft)
    requires
        read_part(d, w) == Some(e),
    ensures
        read_parts_from(d, seq![w] + rest) == read_parts_from(e, rest),
    decreases rest.len(),
{
    if rest.len() == 0 {
        assert(seq![w] + rest =~= seq![w]);
        assert(seq![w].drop_last() =~= Seq::<Seq<char>>::empty());
        assert(read_parts_from(d, Seq::<Seq<char>>::empty()) == Some(d));
        assert(read_parts_from(e, rest) == Some(e));
    } else {
        lemma_read_from_front(d, w, rest.drop_last(), e);
        assert((seq![w] + rest).drop_last() =~= seq![w] + rest.drop_last());
        assert((seq![w] + rest).last() == rest.last());
    }
}

proof fn lemma_read_parts_is_from_empty(parts: Seq<Seq<char>>)
    ensures
        read_parts(parts) == read_parts_from((false, false, false, None), parts),
    decreases parts.len(),
{
    if parts.len() > 0 {
        lemma_read_parts_is_from_empty(parts.drop_last());
    }
}

proof fn lemma_named_key_needs_two_chars(p: Seq<char>)
    requires
        p.len() < 2,
    ensures
        named_key(p) is None,
{
    reveal_strlit("SPACE");
    reveal_strlit("TAB");
    reveal_strlit("ENTER");
    reveal_strlit("RETURN");
    reveal_strlit("BACKSPACE");
    reveal_strlit("ESC");
    reveal_strlit("ESCAPE");
    reveal_strlit("DELETE");
    reveal_strlit("DEL");
    reveal_strlit("INSERT");
    reveal_strlit("INS");
    reveal_strlit("HOME");
    reveal_strlit("END");
    reveal_strlit("PAGEUP");
    reveal_strlit("PAGEDOWN");
    reveal_strlit("UP");
    reveal_strlit("ARROWUP");
    reveal_strlit("DOWN");
    reveal_strlit("ARROWDOWN");
    reveal_strlit("LEFT");
    reveal_strlit("ARROWLEFT");
    reveal_strlit("RIGHT");
    reveal_strlit("ARROWRIGHT");
    reveal_strlit("CAPSLOCK");
}

proof fn lemma_short_word_is_no_modifier(w: Seq<char>)
    requires
        w.len() < 3,
    ensures
        !is_ctrl_word(w),
        w != "shift"@,
        w != "alt"@,
{
    reveal_strlit("ctrl");
    reveal_strlit("control");
    reveal_strlit("meta");
    reveal_strlit("super");
    reveal_strlit("win");
    reveal_strlit("cmd");
    reveal_strlit("shift");
    reveal_strlit("alt");
}

/// What reading a captured key's label does to a draft: it sets the key.
pub open spec fn label_reads_as(k: Keycode, l: Seq<char>) -> bool {
    forall|d: ChordDraft| #[trigger] read_part(d, l) == Some((d.0, d.1, d.2, Some(k)))
}

proof fn lemma_label_reads_as_key(k: Keycode)
    requires
        capture_label_spec(k) is Some,
    ensures
        label_reads_as(k, capture_label_spec(k).unwrap()),
        forall|i: int|
            0 <= i < capture_label_spec(k).unwrap().len() ==> #[trigger] capture_label_spec(
                k,
            ).unwrap()[i] != '+',
{
    let l = capture_label_spec(k).unwrap();
    match k {
        Keycode::F1 => {
            reveal_strlit("F1");
            assert(l == seq!['F', '1']);
            lemma_trim_plain(l);
            assert(ascii_upper(l) =~= l);
            assert(ascii_upper(l).drop_first() =~= seq!['1']);
            assert(seq!['1'].drop_last() =~= Seq::<char>::empty());
            assert(decimal_value(Seq::<char>::empty()) == 0);
            assert(digit_value('1') == 1);
            assert(decimal_value(seq!['1']) == 1);
            lemma_short_word_is_no_modifier(ascii_lower(l));
        },
        Keycode::F2 => {
            reveal_strlit("F2");
            assert(l == seq!['F', '2']);
            lemma_trim_plain(l);
            assert(ascii_upper(l) =~= l);
            assert(ascii_upper(l).drop_first() =~= seq!['2']);
            assert(seq!['2'].drop_last() =~= Seq::<char>::empty());
            assert(decimal_value(Seq::<char>::empty()) == 0);
            assert(digit_value('2') == 2);
            assert(decimal_value(seq!['2']) == 2);
            lemma_short_word_is_no_modifier(ascii_lower(l));
        },
        Keycode::F3 => {
            reveal_strlit("F3");
            assert(l == seq!['F', '3']);
            lemma_trim_plain(l);
            assert(ascii_upper(l) =~= l);
            assert(ascii_upper(l).drop_first() =~= seq!['3']);
            assert(seq!['3'].drop_last() =~= Seq::<char>::empty());
            assert(decimal_value(Seq::<char>::empty()) == 0);
            assert(digit_value('3') == 3);
            assert(decimal_value(seq!['3']) == 3);
            lemma_short_word_is_no_modifier(ascii_lower(l));
        },
        Keycode::F4 => {
            reveal_strlit("F4");
            assert(l == seq!['F', '4']);
            lemma_trim_plain(l);
            assert(ascii_upper(l) =~= l);
            assert(ascii_upper(l).drop_first() =~= seq!['4']);
            assert(seq!['4'].drop_last() =~= Seq::<char>::empty());
            assert(decimal_value(Seq::<char>::empty()) == 0);
            assert(digit_value('4') == 4);
            assert(decimal_value(seq!['4']) == 4);
            lemma_short_word_is_no_modifier(ascii_lower(l));
        },
        Keycode::F5 => {
            reveal_strlit("F5");
            assert(l == seq!['F', '5']);
            lemma_trim_plain(l);
            assert(ascii_upper(l) =~= l);
            assert(ascii_upper(l).drop_first() =~= seq!['5']);
            assert(seq!['5'].drop_last() =~= Seq::<char>::empty());
            assert(decimal_value(Seq::<char>::empty()) == 0);
            assert(digit_value('5') == 5);
            assert(decimal_value(seq!['5']) == 5);
            lemma_short_word_is_no_modifier(ascii_lower(l));
        },
        Keycode::F6 => {
            reveal_strlit("F6");
            assert(l == seq!['F', '6']);
            lemma_trim_plain(l);
            assert(ascii_upper(l) =~= l);
            assert(ascii_upper(l).drop_first() =~= seq!['6']);
            assert(seq!['6'].drop_last() =~= Seq::<char>::empty());
            assert(decimal_value(Seq::<char>::empty()) == 0);
            assert(digit_value('6') == 6);
            assert(decimal_value(seq!['6']) == 6);
            lemma_short_word_is_no_modifier(ascii_lower(l));
        },
        Keycode::F7 => {
            reveal_strlit("F7");
            assert(l == seq!['F', '7']);
            lemma_trim_plain(l);
            assert(ascii_upper(l) =~= l);
            assert(ascii_upper(l).drop_first() =~= seq!['7']);
            assert(seq!['7'].drop_last() =~= Seq::<char>::empty());
            assert(decimal_value(Seq::<char>::empty()) == 0);
            assert(digit_value('7') == 7);
            assert(decimal_value(seq!['7']) == 7);
            lemma_short_word_is_no_modifier(ascii_lower(l));
        },
        Keycode::F8 => {
            reveal_strlit("F8");
            assert(l == seq!['F', '8']);
            lemma_trim_plain(l);
            assert(ascii_upper(l) =~= l);
            assert(ascii_upper(l).drop_first() =~= seq!['8']);
            assert(seq!['8'].drop_last() =~= Seq::<char>::empty());
            assert(decimal_value(Seq::<char>::empty()) == 0);
            assert(digit_value('8') == 8);
            assert(decimal_value(seq!['8']) == 8);
            lemma_short_word_is_no_modifier(ascii_lower(l));
        },
        Keycode::F9 => {
            reveal_strlit("F9");
            assert(l == seq!['F', '9']);
            lemma_trim_plain(l);
            assert(ascii_upper(l) =~= l);
            assert(ascii_upper(l).drop_first() =~= seq!['9']);
            assert(seq!['9'].drop_last() =~= Seq::<char>::empty());
            assert(decimal_value(Seq::<char>::empty()) == 0);
            assert(digit_value('9') == 9);
            assert(decimal_value(seq!['9']) == 9);
            lemma_short_word_is_no_modifier(ascii_lower(l));
        },
        Keycode::F10 => {
            reveal_strlit("F10");
            assert(l == seq!['F', '1', '0']);
            lemma_trim_plain(l);
            assert(ascii_upper(l) =~= l);
            assert(ascii_upper(l).drop_first() =~= seq!['1', '0']);
            assert(seq!['1', '0'].drop_last() =~= seq!['1']);
            assert(seq!['1'].drop_last() =~= Seq::<char>::empty());
            assert(decimal_value(Seq::<char>::empty()) == 0);
            assert(digit_value('1') == 1);
            assert(digit_value('0') == 0);
            assert(decimal_value(seq!['1']) == 1);
            assert(decimal_value(seq!['1', '0']) == 10);
            lemma_short_word_is_no_modifier(ascii_lower(l).take(2));
            reveal_strlit("ctrl");
            reveal_strlit("control");
            reveal_strlit("meta");
            reveal_strlit("super");
            reveal_strlit("win");
            reveal_strlit("cmd");
            reveal_strlit("shift");
            reveal_strlit("alt");
            assert(ascii_lower(l)[0] == 'f');
        },
        Keycode::F11 => {
            reveal_strlit("F11");
            assert(l == seq!['F', '1', '1']);
            lemma_trim_plain(l);
            assert(ascii_upper(l) =~= l);
            assert(ascii_upper(l).drop_first() =~= seq!['1', '1']);
            assert(seq!['1', '1'].drop_last() =~= seq!['1']);
            assert(seq!['1'].drop_last() =~= Seq::<char>::empty());
            assert(decimal_value(Seq::<char>::empty()) == 0);
            assert(digit_value('1') == 1);
            assert(digit_value('1') == 1);
            assert(decimal_value(seq!['1']) == 1);
            assert(decimal_value(seq!['1', '1']) == 11);
            lemma_short_word_is_no_modifier(ascii_lower(l).take(2));
            reveal_strlit("ctrl");
            reveal_strlit("control");
            reveal_strlit("meta");
            reveal_strlit("super");
            reveal_strlit("win");
            reveal_strlit("cmd");
            reveal_strlit("shift");
            reveal_strlit("alt");
            assert(ascii_lower(l)[0] == 'f');
        },
        Keycode::F12 => {
            reveal_strlit("F12");
            assert(l == seq!['F', '1', '2']);
            lemma_trim_plain(l);
            assert(ascii_upper(l) =~= l);
            assert(ascii_upper(l).drop_first() =~= seq!['1', '2']);
            assert(seq!['1', '2'].drop_last() =~= seq!['1']);
            assert(seq!['1'].drop_last() =~= Seq::<char>::empty());
            assert(decimal_value(Seq::<char>::empty()) == 0);
            assert(digit_value('1') == 1);
            assert(digit_value('2') == 2);
            assert(decimal_value(seq!['1']) == 1);
            assert(decimal_value(seq!['1', '2']) == 12);
            lemma_short_word_is_no_modifier(ascii_lower(l).take(2));
            reveal_strlit("ctrl");
            reveal_strlit("control");
            reveal_strlit("meta");
            reveal_strlit("super");
            reveal_strlit("win");
            reveal_strlit("cmd");
            reveal_strlit("shift");
            reveal_strlit("alt");
            assert(ascii_lower(l)[0] == 'f');
        },
        Keycode::A => {
            reveal_strlit("A");
            assert(l == seq!['A']);
            lemma_trim_plain(l);
            lemma_short_word_is_no_modifier(ascii_lower(l));
            assert(ascii_upper(l) =~= l);
            lemma_named_key_needs_two_chars(l);
        },
        Keycode::B => {
            reveal_strlit("B");
            assert(l == seq!['B']);
            lemma_trim_plain(l);
            lemma_short_word_is_no_modifier(ascii_lower(l));
            assert(ascii_upper(l) =~= l);
            lemma_named_key_needs_two_chars(l);
        },
        Keycode::C => {
            reveal_strlit("C");
            assert(l == seq!['C']);
            lemma_trim_plain(l);
            lemma_short_word_is_no_modifier(ascii_lower(l));
            assert(ascii_upper(l) =~= l);
            lemma_named_key_needs_two_chars(l);
        },
        Keycode::D => {
            reveal_strlit("D");
            assert(l == seq!['D']);
            lemma_trim_plain(l);
            lemma_short_word_is_no_modifier(ascii_lower(l));
            assert(ascii_upper(l) =~= l);
            lemma_named_key_needs_two_chars(l);
        },
        Keycode::E => {
            reveal_strlit("E");
            assert(l == seq!['E']);
            lemma_trim_plain(l);
            lemma_short_word_is_no_modifier(ascii_lower(l));
            assert(ascii_upper(l) =~= l);
            lemma_named_key_needs_two_chars(l);
        },
        Keycode::F => {
            reveal_strlit("F");
            assert(l == seq!['F']);
            lemma_trim_plain(l);
            lemma_short_word_is_no_modifier(ascii_lower(l));
            assert(ascii_upper(l) =~= l);
            lemma_named_key_needs_two_chars(l);
        },
        Keycode::G => {
            reveal_strlit("G");
            assert(l == seq!['G']);
            lemma_trim_plain(l);
            lemma_short_word_is_no_modifier(ascii_lower(l));
            assert(ascii_upper(l) =~= l);
            lemma_named_key_needs_two_chars(l);
        },
        Keycode::H => {
            reveal_strlit("H");
            assert(l == seq!['H']);
            lemma_trim_plain(l);
            lemma_short_word_is_no_modifier(ascii_lower(l));
            assert(ascii_upper(l) =~= l);
            lemma_named_key_needs_two_chars(l);
        },
        Keycode::I => {
            reveal_strlit("I");
            assert(l == seq!['I']);
            lemma_trim_plain(l);
            lemma_short_word_is_no_modifier(ascii_lower(l));
            assert(ascii_upper(l) =~= l);
            lemma_named_key_needs_two_chars(l);
        },
        Keycode::J => {
            reveal_strlit("J");
            assert(l == seq!['J']);
            lemma_trim_plain(l);
            lemma_short_word_is_no_modifier(ascii_lower(l));
            assert(ascii_upper(l) =~= l);
            lemma_named_key_needs_two_chars(l);
        },
        Keycode::K => {
            reveal_strlit("K");
            assert(l == seq!['K']);
            lemma_trim_plain(l);
            lemma_short_word_is_no_modifier(ascii_lower(l));
            assert(ascii_upper(l) =~= l);
            lemma_named_key_needs_two_chars(l);
        },
        Keycode::L => {
            reveal_strlit("L");
            assert(l == seq!['L']);
            lemma_trim_plain(l);
            lemma_short_word_is_no_modifier(ascii_lower(l));
            assert(ascii_upper(l) =~= l);
            lemma_named_key_needs_two_chars(l);
        },
        Keycode::M => {
            reveal_strlit("M");
            assert(l == seq!['M']);
            lemma_trim_plain(l);
            lemma_short_word_is_no_modifier(ascii_lower(l));
            assert(ascii_upper(l) =~= l);
            lemma_named_key_needs_two_chars(l);
        },
        Keycode::N => {
            reveal_strlit("N");
            assert(l == seq!['N']);
            lemma_trim_plain(l);
            lemma_short_word_is_no_modifier(ascii_lower(l));
            assert(ascii_upper(l) =~= l);
            lemma_named_key_needs_two_chars(l);
        },
        Keycode::O => {
            reveal_strlit("O");
            assert(l == seq!['O']);
            lemma_trim_plain(l);
            lemma_short_word_is_no_modifier(ascii_lower(l));
            assert(ascii_upper(l) =~= l);
            lemma_named_key_needs_two_chars(l);
        },
        Keycode::P => {
            reveal_strlit("P");
            assert(l == seq!['P']);
            lemma_trim_plain(l);
            lemma_short_word_is_no_modifier(ascii_lower(l));
            assert(ascii_upper(l) =~= l);
            lemma_named_key_needs_two_chars(l);
        },
        Keycode::Q => {
            reveal_strlit("Q");
            assert(l == seq!['Q']);
            lemma_trim_plain(l);
            lemma_short_word_is_no_modifier(ascii_lower(l));
            assert(ascii_upper(l) =~= l);
            lemma_named_key_needs_two_chars(l);
        },
        Keycode::R => {
            reveal_strlit("R");
            assert(l == seq!['R']);
            lemma_trim_plain(l);
            lemma_short_word_is_no_modifier(ascii_lower(l));
            assert(ascii_upper(l) =~= l);
            lemma_named_key_needs_two_chars(l);
        },
        Keycode::S => {
            reveal_strlit("S");
            assert(l == seq!['S']);
            lemma_trim_plain(l);
            lemma_short_word_is_no_modifier(ascii_lower(l));
            assert(ascii_upper(l) =~= l);
            lemma_named_key_needs_two_chars(l);
        },
        Keycode::T => {
            reveal_strlit("T");
            assert(l == seq!['T']);
            lemma_trim_plain(l);
            lemma_short_word_is_no_modifier(ascii_lower(l));
            assert(ascii_upper(l) =~= l);
            lemma_named_key_needs_two_chars(l);
        },
        Keycode::U => {
            reveal_strlit("U");
            assert(l == seq!['U']);
            lemma_trim_plain(l);
            lemma_short_word_is_no_modifier(ascii_lower(l));
            assert(ascii_upper(l) =~= l);
            lemma_named_key_needs_two_chars(l);
        },
        Keycode::V => {
            reveal_strlit("V");
            assert(l == seq!['V']);
            lemma_trim_plain(l);
            lemma_short_word_is_no_modifier(ascii_lower(l));
            assert(ascii_upper(l) =~= l);
            lemma_named_key_needs_two_chars(l);
        },
        Keycode::W => {
            reveal_strlit("W");
            assert(l == seq!['W']);
            lemma_trim_plain(l);
            lemma_short_word_is_no_modifier(ascii_lower(l));
            assert(ascii_upper(l) =~= l);
            lemma_named_key_needs_two_chars(l);
        },
        Keycode::X => {
            reveal_strlit("X");
            assert(l == seq!['X']);
            lemma_trim_plain(l);
            lemma_short_word_is_no_modifier(ascii_lower(l));
            assert(ascii_upper(l) =~= l);
            lemma_named_key_needs_two_chars(l);
        },
        Keycode::Y => {
            reveal_strlit("Y");
            assert(l == seq!['Y']);
            lemma_trim_plain(l);
            lemma_short_word_is_no_modifier(ascii_lower(l));
            assert(ascii_upper(l) =~= l);
            lemma_named_key_needs_two_chars(l);
        },
        Keycode::Z => {
            reveal_strlit("Z");
            assert(l == seq!['Z']);
            lemma_trim_plain(l);
            lemma_short_word_is_no_modifier(ascii_lower(l));
            assert(ascii_upper(l) =~= l);
            lemma_named_key_needs_two_chars(l);
        },
        Keycode::Key0 => {
            reveal_strlit("0");
            assert(l == seq!['0']);
            lemma_trim_plain(l);
            lemma_short_word_is_no_modifier(ascii_lower(l));
            assert(ascii_upper(l) =~= l);
            lemma_named_key_needs_two_chars(l);
        },
        Keycode::Key1 => {
            reveal_strlit("1");
            assert(l == seq!['1']);
            lemma_trim_plain(l);
            lemma_short_word_is_no_modifier(ascii_lower(l));
            assert(ascii_upper(l) =~= l);
            lemma_named_key_needs_two_chars(l);
        },
        Keycode::Key2 => {
            reveal_strlit("2");
            assert(l == seq!['2']);
            lemma_trim_plain(l);
            lemma_short_word_is_no_modifier(ascii_lower(l));
            assert(ascii_upper(l) =~= l);
            lemma_named_key_needs_two_chars(l);
        },
        Keycode::Key3 => {
            reveal_strlit("3");
            assert(l == seq!['3']);
            lemma_trim_plain(l);
            lemma_short_word_is_no_modifier(ascii_lower(l));
            assert(ascii_upper(l) =~= l);
            lemma_named_key_needs_two_chars(l);
        },
        Keycode::Key4 => {
            reveal_strlit("4");
            assert(l == seq!['4']);
            lemma_trim_plain(l);
            lemma_short_word_is_no_modifier(ascii_lower(l));
            assert(ascii_upper(l) =~= l);
            lemma_named_key_needs_two_chars(l);
        },
        Keycode::Key5 => {
            reveal_strlit("5");
            assert(l == seq!['5']);
            lemma_trim_plain(l);
            lemma_short_word_is_no_modifier(ascii_lower(l));
            assert(ascii_upper(l) =~= l);
            lemma_named_key_needs_two_chars(l);
        },
        Keycode::Key6 => {
            reveal_strlit("6");
            assert(l == seq!['6']);
            lemma_trim_plain(l);
            lemma_short_word_is_no_modifier(ascii_lower(l));
            assert(ascii_upper(l) =~= l);
            lemma_named_key_needs_two_chars(l);
        },
        Keycode::Key7 => {
            reveal_strlit("7");
            assert(l == seq!['7']);
            lemma_trim_plain(l);
            lemma_short_word_is_no_modifier(ascii_lower(l));
            assert(ascii_upper(l) =~= l);
            lemma_named_key_needs_two_chars(l);
        },
        Keycode::Key8 => {
            reveal_strlit("8");
            assert(l == seq!['8']);
            lemma_trim_plain(l);
            lemma_short_word_is_no_modifier(ascii_lower(l));
            assert(ascii_upper(l) =~= l);
            lemma_named_key_needs_two_chars(l);
        },
        Keycode::Key9 => {
            reveal_strlit("9");
            assert(l == seq!['9']);
            lemma_trim_plain(l);
            lemma_short_word_is_no_modifier(ascii_lower(l));
            assert(ascii_upper(l) =~= l);
            lemma_named_key_needs_two_chars(l);
        },
        Keycode::Space => {
            reveal_strlit("Space");
            reveal_strlit("SPACE");
            reveal_strlit("super");
            reveal_strlit("shift");
            reveal_strlit("ctrl");
            reveal_strlit("control");
            reveal_strlit("meta");
            reveal_strlit("win");
            reveal_strlit("cmd");
            reveal_strlit("alt");
            assert(l == seq!['S', 'p', 'a', 'c', 'e']);
            lemma_trim_plain(l);
            assert(ascii_upper(l) =~= "SPACE"@);
            assert(ascii_lower(l)[1] == 'p');
        },
        _ => {},
    }
}

proof fn lemma_modifier_words_differ()
    ensures
        is_ctrl_word("ctrl"@),
        is_ctrl_word("meta"@),
        !is_ctrl_word("shift"@),
        !is_ctrl_word("alt"@),
        "alt"@ != "shift"@,
{
    reveal_strlit("ctrl");
    reveal_strlit("control");
    reveal_strlit("meta");
    reveal_strlit("super");
    reveal_strlit("win");
    reveal_strlit("cmd");
    reveal_strlit("shift");
    reveal_strlit("alt");
    assert("shift"@[1] != "super"@[1]);
    assert("alt"@[0] != "win"@[0]);
    assert("alt"@[0] != "cmd"@[0]);
}

proof fn lemma_read_modifier_words(d: ChordDraft)
    ensures
        read_part(d, "Ctrl"@) == Some((true, d.1, d.2, d.3)),
        read_part(d, "Shift"@) == Some((d.0, true, d.2, d.3)),
        read_part(d, "Alt"@) == Some((d.0, d.1, true, d.3)),
        read_part(d, "Meta"@) == Some((true, d.1, d.2, d.3)),
{
    lemma_modifier_words_differ();
    reveal_strlit("Ctrl");
    reveal_strlit("Shift");
    reveal_strlit("Alt");
    reveal_strlit("Meta");
    reveal_strlit("ctrl");
    reveal_strlit("meta");
    reveal_strlit("shift");
    reveal_strlit("alt");
    lemma_trim_plain("Ctrl"@);
    lemma_trim_plain("Shift"@);
    lemma_trim_plain("Alt"@);
    lemma_trim_plain("Meta"@);
    assert(ascii_lower("Ctrl"@) =~= "ctrl"@);
    assert(ascii_lower("Shift"@) =~= "shift"@);
    assert(ascii_lower("Alt"@) =~= "alt"@);
    assert(ascii_lower("Meta"@) =~= "meta"@);
}

proof fn lemma_read_with_part(d: ChordDraft, present: bool, w: Seq<char>, e: ChordDraft, rest: Seq<
    Seq<char>,
>)
    requires
        read_part(d, w) == Some(e),
    ensures
        read_parts_from(d, with_part(present, w, rest)) == read_parts_from(
            if present {
                e
            } else {
                d
            },
            rest,
        ),
{
    if present {
        lemma_read_from_front(d, w, rest, e);
    }
}

/// The parts of a captured chord: its modifier words, then the key's label.
pub open spec fn chord_parts(ctrl: bool, shift: bool, alt: bool, meta: bool, l: Seq<char>) -> Seq<
    Seq<char>,
> {
    with_part(
        ctrl,
        "Ctrl"@,
        with_part(shift, "Shift"@, with_part(alt, "Alt"@, with_part(meta, "Meta"@, seq![l]))),
    )
}

proof fn lemma_chord_split(ctrl: bool, shift: bool, alt: bool, meta: bool, l: Seq<char>)
    requires
        forall|i: int| 0 <= i < l.len() ==> #[trigger] l[i] != '+',
    ensures
        split_on(chord_text(ctrl, shift, alt, meta, l), '+') == chord_parts(ctrl, shift, alt, meta, l),
{
    reveal_strlit("Ctrl+");
    reveal_strlit("Shift+");
    reveal_strlit("Alt+");
    reveal_strlit("Meta+");
    reveal_strlit("Ctrl");
    reveal_strlit("Shift");
    reveal_strlit("Alt");
    reveal_strlit("Meta");
    let t4 = with_word(meta, "Meta"@, l);
    let t3 = with_word(alt, "Alt"@, t4);
    let t2 = with_word(shift, "Shift"@, t3);
    let t1 = with_word(ctrl, "Ctrl"@, t2);
    assert(chord_text(ctrl, shift, alt, meta, l) =~= t1);
    lemma_split_single(l);
    lemma_split_with_word(meta, "Meta"@, l);
    lemma_split_with_word(alt, "Alt"@, t4);
    lemma_split_with_word(shift, "Shift"@, t3);
    lemma_split_with_word(ctrl, "Ctrl"@, t2);
}

proof fn lemma_chord_read(ctrl: bool, shift: bool, alt: bool, meta: bool, l: Seq<char>)
    ensures
        read_parts(chord_parts(ctrl, shift, alt, meta, l)) == read_part(
            (ctrl || meta, shift, alt, None),
            l,
        ),
{
    let p4 = with_part(meta, "Meta"@, seq![l]);
    let p3 = with_part(alt, "Alt"@, p4);
    let p2 = with_part(shift, "Shift"@, p3);
    let p1 = with_part(ctrl, "Ctrl"@, p2);
    lemma_read_parts_is_from_empty(p1);
    let d0: ChordDraft = (false, false, false, None);
    let d1: ChordDraft = if ctrl {
        (true, false, false, None)
    } else {
        d0
    };
    let d2: ChordDraft = if shift {
        (d1.0, true, d1.2, d1.3)
    } else {
        d1
    };
    let d3: ChordDraft = if alt {
        (d2.0, d2.1, true, d2.3)
    } else {
        d2
    };
    let d4: ChordDraft = if meta {
        (true, d3.1, d3.2, d3.3)
    } else {
        d3
    };
    lemma_read_modifier_words(d0);
    lemma_read_modifier_words(d1);
    lemma_read_modifier_words(d2);
    lemma_read_modifier_words(d3);
    lemma_read_with_part(d0, ctrl, "Ctrl"@, (true, false, false, None), p2);
    lemma_read_with_part(d1, shift, "Shift"@, (d1.0, true, d1.2, d1.3), p3);
    lemma_read_with_part(d2, alt, "Alt"@, (d2.0, d2.1, true, d2.3), p4);
    lemma_read_with_part(d3, meta, "Meta"@, (true, d3.1, d3.2, d3.3), seq![l]);
    assert(seq![l].drop_last() =~= Seq::<Seq<char>>::empty());
    assert(read_parts_from(d4, Seq::<Seq<char>>::empty()) == Some(d4));
    assert(d4 == (ctrl || meta, shift, alt, None::<Keycode>));
}

proof fn lemma_ctrl_word_then_key(w: Seq<char>, k: Keycode)
    requires
        capture_label_spec(k) is Some,
        forall|i: int| 0 <= i < w.len() ==> #[trigger] w[i] != '+',
        read_part((false, false, false, None), w) == Some((true, false, false, None::<Keycode>)),
    ensures
        parse_hotkey_spec(w + seq!['+'] + capture_label_spec(k).unwrap()) == Some(
            ParsedHotkey { ctrl: true, shift: false, alt: false, key: k },
        ),
{
    let l = capture_label_spec(k).unwrap();
    lemma_label_reads_as_key(k);
    lemma_split_after_word(w, l);
    lemma_split_single(l);
    let parts = seq![w] + seq![l];
    assert(parts =~= seq![w, l]);
    assert(parts.drop_last() =~= seq![w]);
    assert(seq![w].drop_last() =~= Seq::<Seq<char>>::empty());
    assert(read_parts(Seq::<Seq<char>>::empty()) == Some((false, false, false, None::<Keycode>)));
    assert(read_parts(seq![w]) == read_part((false, false, false, None), w));
    assert(read_part((true, false, false, None), l) == Some((true, false, false, Some(k))));
    assert(read_parts(parts) == read_part((true, false, false, None), l));
    assert(split_on(w + seq!['+'] + l, '+') == parts);
}

/// Every word that the chord syntax takes for Ctrl sets Ctrl and nothing else:
/// "Ctrl", "Control", "Meta", "Super", "Win" and "Cmd" in front of a key give
/// that key with Ctrl held.
pub proof fn law_ctrl_words_set_ctrl(k: Keycode)
    requires
        capture_label_spec(k) is Some,
    ensures
        parse_hotkey_spec("Ctrl"@ + seq!['+'] + capture_label_spec(k).unwrap()) == Some(
            ParsedHotkey { ctrl: true, shift: false, alt: false, key: k },
        ),
        parse_hotkey_spec("Control"@ + seq!['+'] + capture_label_spec(k).unwrap()) == Some(
            ParsedHotkey { ctrl: true, shift: false, alt: false, key: k },
        ),
        parse_hotkey_spec("Meta"@ + seq!['+'] + capture_label_spec(k).unwrap()) == Some(
            ParsedHotkey { ctrl: true, shift: false, alt: false, key: k },
        ),
        parse_hotkey_spec("Super"@ + seq!['+'] + capture_label_spec(k).unwrap()) == Some(
            ParsedHotkey { ctrl: true, shift: false, alt: false, key: k },
        ),
        parse_hotkey_spec("Win"@ + seq!['+'] + capture_label_spec(k).unwrap()) == Some(
            ParsedHotkey { ctrl: true, shift: false, alt: false, key: k },
        ),
        parse_hotkey_spec("Cmd"@ + seq!['+'] + capture_label_spec(k).unwrap()) == Some(
            ParsedHotkey { ctrl: true, shift: false, alt: false, key: k },
        ),
{
    lemma_ctrl_word_sets_ctrl(k);
    lemma_control_word_sets_ctrl(k);
    lemma_meta_word_sets_ctrl(k);
    lemma_super_word_sets_ctrl(k);
    lemma_win_word_sets_ctrl(k);
    lemma_cmd_word_sets_ctrl(k);
}

proof fn lemma_ctrl_word_sets_ctrl(k: Keycode)
    requires
        capture_label_spec(k) is Some,
    ensures
        parse_hotkey_spec("Ctrl"@ + seq!['+'] + capture_label_spec(k).unwrap()) == Some(
            ParsedHotkey { ctrl: true, shift: false, alt: false, key: k },
        ),
{
    reveal_strlit("Ctrl");
    reveal_strlit("ctrl");
    assert("Ctrl"@ =~= seq!['C', 't', 'r', 'l']);
    lemma_trim_plain("Ctrl"@);
    assert(ascii_lower("Ctrl"@) =~= "ctrl"@);
    assert(read_part((false, false, false, None), "Ctrl"@) == Some((true, false, false, None::<Keycode>)));
    lemma_ctrl_word_then_key("Ctrl"@, k);
}

proof fn lemma_control_word_sets_ctrl(k: Keycode)
    requires
        capture_label_spec(k) is Some,
    ensures
        parse_hotkey_spec("Control"@ + seq!['+'] + capture_label_spec(k).unwrap()) == Some(
            ParsedHotkey { ctrl: true, shift: false, alt: false, key: k },
        ),
{
    reveal_strlit("Control");
    reveal_strlit("control");
    assert("Control"@ =~= seq!['C', 'o', 'n', 't', 'r', 'o', 'l']);
    lemma_trim_plain("Control"@);
    assert(ascii_lower("Control"@) =~= "control"@);
    assert(read_part((false, false, false, None), "Control"@) == Some((true, false, false, None::<Keycode>)));
    lemma_ctrl_word_then_key("Control"@, k);
}

proof fn lemma_meta_word_sets_ctrl(k: Keycode)
    requires
        capture_label_spec(k) is Some,
    ensures
        parse_hotkey_spec("Meta"@ + seq!['+'] + capture_label_spec(k).unwrap()) == Some(
            ParsedHotkey { ctrl: true, shift: false, alt: false, key: k },
        ),
{
    reveal_strlit("Meta");
    reveal_strlit("meta");
    assert("Meta"@ =~= seq!['M', 'e', 't', 'a']);
    lemma_trim_plain("Meta"@);
    assert(ascii_lower("Meta"@) =~= "meta"@);
    assert(read_part((false, false, false, None), "Meta"@) == Some((true, false, false, None::<Keycode>)));
    lemma_ctrl_word_then_key("Meta"@, k);
}

proof fn lemma_super_word_sets_ctrl(k: Keycode)
    requires
        capture_label_spec(k) is Some,
    ensures
        parse_hotkey_spec("Super"@ + seq!['+'] + capture_label_spec(k).unwrap()) == Some(
            ParsedHotkey { ctrl: true, shift: false, alt: false, key: k },
        ),
{
    reveal_strlit("Super");
    reveal_strlit("super");
    assert("Super"@ =~= seq!['S', 'u', 'p', 'e', 'r']);
    lemma_trim_plain("Super"@);
    assert(ascii_lower("Super"@) =~= "super"@);
    assert(read_part((false, false, false, None), "Super"@) == Some((true, false, false, None::<Keycode>)));
    lemma_ctrl_word_then_key("Super"@, k);
}

proof fn lemma_win_word_sets_ctrl(k: Keycode)
    requires
        capture_label_spec(k) is Some,
    ensures
        parse_hotkey_spec("Win"@ + seq!['+'] + capture_label_spec(k).unwrap()) == Some(
            ParsedHotkey { ctrl: true, shift: false, alt: false, key: k },
        ),
{
    reveal_strlit("Win");
    reveal_strlit("win");
    assert("Win"@ =~= seq!['W', 'i', 'n']);
    lemma_trim_plain("Win"@);
    assert(ascii_lower("Win"@) =~= "win"@);
    assert(read_part((false, false, false, None), "Win"@) == Some((true, false, false, None::<Keycode>)));
    lemma_ctrl_word_then_key("Win"@, k);
}

proof fn lemma_cmd_word_sets_ctrl(k: Keycode)
    requires
        capture_label_spec(k) is Some,
    ensures
        parse_hotkey_spec("Cmd"@ + seq!['+'] + capture_label_spec(k).unwrap()) == Some(
            ParsedHotkey { ctrl: true, shift: false, alt: false, key: k },
        ),
{
    reveal_strlit("Cmd");
    reveal_strlit("cmd");
    assert("Cmd"@ =~= seq!['C', 'm', 'd']);
    lemma_trim_plain("Cmd"@);
    assert(ascii_lower("Cmd"@) =~= "cmd"@);
    assert(read_part((false, false, false, None), "Cmd"@) == Some((true, false, false, None::<Keycode>)));
    lemma_ctrl_word_then_key("Cmd"@, k);
}

/// A chord written by a key capture parses back to the captured key, with Ctrl
/// set for Ctrl or Meta, for every key that a capture takes.
pub proof fn law_captured_chord_parses_back(ctrl: bool, shift: bool, alt: bool, meta: bool, k: Keycode)
    requires
        capture_label_spec(k) is Some,
    ensures
        parse_hotkey_spec(chord_text(ctrl, shift, alt, meta, capture_label_spec(k).unwrap()))
            == Some(ParsedHotkey { ctrl: ctrl || meta, shift, alt, key: k }),
{
    let l = capture_label_spec(k).unwrap();
    lemma_label_reads_as_key(k);
    lemma_chord_split(ctrl, shift, alt, meta, l);
    lemma_chord_read(ctrl, shift, alt, meta, l);
    let d: ChordDraft = (ctrl || meta, shift, alt, None);
    assert(read_part(d, l) == Some((d.0, d.1, d.2, Some(k))));
}

/// A capture takes F1 to F12, every letter, every top-row digit and Space, and
/// writes each by its name: "F" and the number for a function key, the letter or
/// digit itself, and "Space".
pub proof fn law_capture_takes_documented_keys()
    ensures
        forall|n: u8|
            1 <= n <= 12 ==> #[trigger] capture_label_spec(function_key(n)) == Some(
                seq!['F'] + decimal_text(n as int),
            ),
        forall|c: char|
            'A' <= c <= 'Z' ==> #[trigger] capture_label_spec(letter_key(c)) == Some(seq![c]),
        forall|c: char|
            '0' <= c <= '9' ==> #[trigger] capture_label_spec(digit_key(c)) == Some(seq![c]),
        capture_label_spec(Keycode::Space) == Some(seq!['S', 'p', 'a', 'c', 'e']),
{
    assert forall|n: u8| 1 <= n <= 12 implies #[trigger] capture_label_spec(function_key(n))
        == Some(seq!['F'] + decimal_text(n as int)) by {
        if n == 1 {
            reveal_strlit("F1");
            assert("F1"@ =~= seq!['F', '1']);
            assert(decimal_text(1) =~= seq!['1']);
            assert(seq!['F'] + decimal_text(1) =~= seq!['F', '1']);
        } else if n == 2 {
            reveal_strlit("F2");
            assert("F2"@ =~= seq!['F', '2']);
            assert(decimal_text(2) =~= seq!['2']);
            assert(seq!['F'] + decimal_text(2) =~= seq!['F', '2']);
        } else if n == 3 {
            reveal_strlit("F3");
            assert("F3"@ =~= seq!['F', '3']);
            assert(decimal_text(3) =~= seq!['3']);
            assert(seq!['F'] + decimal_text(3) =~= seq!['F', '3']);
        } else if n == 4 {
            reveal_strlit("F4");
            assert("F4"@ =~= seq!['F', '4']);
            assert(decimal_text(4) =~= seq!['4']);
            assert(seq!['F'] + decimal_text(4) =~= seq!['F', '4']);
        } else if n == 5 {
            reveal_strlit("F5");
            assert("F5"@ =~= seq!['F', '5']);
            assert(decimal_text(5) =~= seq!['5']);
            assert(seq!['F'] + decimal_text(5) =~= seq!['F', '5']);
        } else if n == 6 {
            reveal_strlit("F6");
            assert("F6"@ =~= seq!['F', '6']);
            assert(decimal_text(6) =~= seq!['6']);
            assert(seq!['F'] + decimal_text(6) =~= seq!['F', '6']);
        } else if n == 7 {
            reveal_strlit("F7");
            assert("F7"@ =~= seq!['F', '7']);
            assert(decimal_text(7) =~= seq!['7']);
            assert(seq!['F'] + decimal_text(7) =~= seq!['F', '7']);
        } else if n == 8 {
            reveal_strlit("F8");
            assert("F8"@ =~= seq!['F', '8']);
            assert(decimal_text(8) =~= seq!['8']);
            assert(seq!['F'] + decimal_text(8) =~= seq!['F', '8']);
        } else if n == 9 {
            reveal_strlit("F9");
            assert("F9"@ =~= seq!['F', '9']);
            assert(decimal_text(9) =~= seq!['9']);
            assert(seq!['F'] + decimal_text(9) =~= seq!['F', '9']);
        } else if n == 10 {
            reveal_strlit("F10");
            assert("F10"@ =~= seq!['F', '1', '0']);
            assert(decimal_digits(1) == seq!['1']);
            assert(decimal_digits(10nat) =~= seq!['1', '0']);
            assert(decimal_text(10) =~= seq!['1', '0']);
            assert(seq!['F'] + decimal_text(10) =~= seq!['F', '1', '0']);
        } else if n == 11 {
            reveal_strlit("F11");
            assert("F11"@ =~= seq!['F', '1', '1']);
            assert(decimal_digits(1) == seq!['1']);
            assert(decimal_digits(11nat) =~= seq!['1', '1']);
            assert(decimal_text(11) =~= seq!['1', '1']);
            assert(seq!['F'] + decimal_text(11) =~= seq!['F', '1', '1']);
        } else if n == 12 {
            reveal_strlit("F12");
            assert("F12"@ =~= seq!['F', '1', '2']);
            assert(decimal_digits(1) == seq!['1']);
            assert(decimal_digits(12nat) =~= seq!['1', '2']);
            assert(decimal_text(12) =~= seq!['1', '2']);
            assert(seq!['F'] + decimal_text(12) =~= seq!['F', '1', '2']);
        }
    }
    assert forall|c: char| 'A' <= c <= 'Z' implies #[trigger] capture_label_spec(letter_key(c))
        == Some(seq![c]) by {
        if c == 'A' {
            reveal_strlit("A");
        } else if c == 'B' {
            reveal_strlit("B");
        } else if c == 'C' {
            reveal_strlit("C");
        } else if c == 'D' {
            reveal_strlit("D");
        } else if c == 'E' {
            reveal_strlit("E");
        } else if c == 'F' {
            reveal_strlit("F");
        } else if c == 'G' {
            reveal_strlit("G");
        } else if c == 'H' {
            reveal_strlit("H");
        } else if c == 'I' {
            reveal_strlit("I");
        } else if c == 'J' {
            reveal_strlit("J");
        } else if c == 'K' {
            reveal_strlit("K");
        } else if c == 'L' {
            reveal_strlit("L");
        } else if c == 'M' {
            reveal_strlit("M");
        } else if c == 'N' {
            reveal_strlit("N");
        } else if c == 'O' {
            reveal_strlit("O");
        } else if c == 'P' {
            reveal_strlit("P");
        } else if c == 'Q' {
            reveal_strlit("Q");
        } else if c == 'R' {
            reveal_strlit("R");
        } else if c == 'S' {
            reveal_strlit("S");
        } else if c == 'T' {
            reveal_strlit("T");
        } else if c == 'U' {
            reveal_strlit("U");
        } else if c == 'V' {
            reveal_strlit("V");
        } else if c == 'W' {
            reveal_strlit("W");
        } else if c == 'X' {
            reveal_strlit("X");
        } else if c == 'Y' {
            reveal_strlit("Y");
        } else if c == 'Z' {
            reveal_strlit("Z");
        }
    }
    assert forall|c: char| '0' <= c <= '9' implies #[trigger] capture_label_spec(digit_key(c))
        == Some(seq![c]) by {
        if c == '0' {
            reveal_strlit("0");
        } else if c == '1' {
            reveal_strlit("1");
        } else if c == '2' {
            reveal_strlit("2");
        } else if c == '3' {
            reveal_strlit("3");
        } else if c == '4' {
            reveal_strlit("4");
        } else if c == '5' {
            reveal_strlit("5");
        } else if c == '6' {
            reveal_strlit("6");
        } else if c == '7' {
            reveal_strlit("7");
        } else if c == '8' {
            reveal_strlit("8");
        } else if c == '9' {
            reveal_strlit("9");
        }
    }
    reveal_strlit("Space");
    assert("Space"@ =~= seq!['S', 'p', 'a', 'c', 'e']);
}

/// A chord of one key and no modifier.
pub open spec fn plain_hotkey(k: Keycode) -> ParsedHotkey {
    ParsedHotkey { ctrl: false, shift: false, alt: false, key: k }
}

/// How a key is written in chord text: "F1" to "F20", the letter, the digit,
/// "Num0" to "Num9", or its name ("PageUp", "Esc", "CapsLock"). Modifier keys
/// are written as modifier words and have no name of their own.
pub open spec fn written_name(k: Keycode) -> Option<Seq<char>> {
    match k {
        Keycode::F1 => Some("F1"@),
        Keycode::F2 => Some("F2"@),
        Keycode::F3 => Some("F3"@),
        Keycode::F4 => Some("F4"@),
        Keycode::F5 => Some("F5"@),
        Keycode::F6 => Some("F6"@),
        Keycode::F7 => Some("F7"@),
        Keycode::F8 => Some("F8"@),
        Keycode::F9 => Some("F9"@),
        Keycode::F10 => Some("F10"@),
        Keycode::F11 => Some("F11"@),
        Keycode::F12 => Some("F12"@),
        Keycode::A => Some("A"@),
        Keycode::B => Some("B"@),
        Keycode::C => Some("C"@),
        Keycode::D => Some("D"@),
        Keycode::E => Some("E"@),
        Keycode::F => Some("F"@),
        Keycode::G => Some("G"@),
        Keycode::H => Some("H"@),
        Keycode::I => Some("I"@),
        Keycode::J => Some("J"@),
        Keycode::K => Some("K"@),
        Keycode::L => Some("L"@),
        Keycode::M => Some("M"@),
        Keycode::N => Some("N"@),
        Keycode::O => Some("O"@),
        Keycode::P => Some("P"@),
        Keycode::Q => Some("Q"@),
        Keycode::R => Some("R"@),
        Keycode::S => Some("S"@),
        Keycode::T => Some("T"@),
        Keycode::U => Some("U"@),
        Keycode::V => Some("V"@),
        Keycode::W => Some("W"@),
        Keycode::X => Some("X"@),
        Keycode::Y => Some("Y"@),
        Keycode::Z => Some("Z"@),
        Keycode::Key0 => Some("0"@),
        Keycode::Key1 => Some("1"@),
        Keycode::Key2 => Some("2"@),
        Keycode::Key3 => Some("3"@),
        Keycode::Key4 => Some("4"@),
        Keycode::Key5 => Some("5"@),
        Keycode::Key6 => Some("6"@),
        Keycode::Key7 => Some("7"@),
        Keycode::Key8 => Some("8"@),
        Keycode::Key9 => Some("9"@),
        Keycode::F13 => Some("F13"@),
        Keycode::F14 => Some("F14"@),
        Keycode::F15 => Some("F15"@),
        Keycode::F16 => Some("F16"@),
        Keycode::F17 => Some("F17"@),
        Keycode::F18 => Some("F18"@),
        Keycode::F19 => Some("F19"@),
        Keycode::F20 => Some("F20"@),
        Keycode::Numpad0 => Some("Num0"@),
        Keycode::Numpad1 => Some("Num1"@),
        Keycode::Numpad2 => Some("Num2"@),
        Keycode::Numpad3 => Some("Num3"@),
        Keycode::Numpad4 => Some("Num4"@),
        Keycode::Numpad5 => Some("Num5"@),
        Keycode::Numpad6 => Some("Num6"@),
        Keycode::Numpad7 => Some("Num7"@),
        Keycode::Numpad8 => Some("Num8"@),
        Keycode::Numpad9 => Some("Num9"@),
        Keycode::Space => Some("Space"@),
        Keycode::Tab => Some("Tab"@),
        Keycode::Enter => Some("Enter"@),
        Keycode::Backspace => Some("Backspace"@),
        Keycode::Escape => Some("Esc"@),
        Keycode::Delete => Some("Delete"@),
        Keycode::Insert => Some("Insert"@),
        Keycode::Home => Some("Home"@),
        Keycode::End => Some("End"@),
        Keycode::PageUp => Some("PageUp"@),
        Keycode::PageDown => Some("PageDown"@),
        Keycode::Up => Some("Up"@),
        Keycode::Down => Some("Down"@),
        Keycode::Left => Some("Left"@),
        Keycode::Right => Some("Right"@),
        Keycode::CapsLock => Some("CapsLock"@),
        _ => None,
    }
}

proof fn lemma_plain_name_parses(l: Seq<char>, k: Keycode)
    requires
        l.len() > 0,
        !is_white_space(l[0]),
        !is_white_space(l.last()),
        forall|i: int| 0 <= i < l.len() ==> #[trigger] l[i] != '+',
        !is_ctrl_word(ascii_lower(l)),
        ascii_lower(l) != "shift"@,
        ascii_lower(l) != "alt"@,
        key_of_part(l) == Some(k),
    ensures
        parse_hotkey_spec(l) == Some(plain_hotkey(k)),
{
    lemma_trim_plain(l);
    assert forall|d: ChordDraft| #[trigger] read_part(d, l) == Some((d.0, d.1, d.2, Some(k))) by {}
    lemma_chord_split(false, false, false, false, l);
    lemma_chord_read(false, false, false, false, l);
    assert(chord_text(false, false, false, false, l) =~= l);
}

/// Every key other than a modifier has a written name, and that name, as chord
/// text on its own, parses to the key itself: "PageUp" is PageUp and not
/// PageDown, "F13" is F13, "Num7" is Numpad7, "7" is the top-row 7, "Esc" is
/// Escape. So different keys are never parsed from one another's names.
pub proof fn law_written_names_parse_to_their_keys(k: Keycode)
    ensures
        !is_modifier_key(k) ==> written_name(k) is Some,
        written_name(k) matches Some(n) ==> parse_hotkey_spec(n) == Some(plain_hotkey(k)),
{
    match k {
        Keycode::F1 => lemma_captured_written_parses(k),
        Keycode::F2 => lemma_captured_written_parses(k),
        Keycode::F3 => lemma_captured_written_parses(k),
        Keycode::F4 => lemma_captured_written_parses(k),
        Keycode::F5 => lemma_captured_written_parses(k),
        Keycode::F6 => lemma_captured_written_parses(k),
        Keycode::F7 => lemma_captured_written_parses(k),
        Keycode::F8 => lemma_captured_written_parses(k),
        Keycode::F9 => lemma_captured_written_parses(k),
        Keycode::F10 => lemma_captured_written_parses(k),
        Keycode::F11 => lemma_captured_written_parses(k),
        Keycode::F12 => lemma_captured_written_parses(k),
        Keycode::A => lemma_captured_written_parses(k),
        Keycode::B => lemma_captured_written_parses(k),
        Keycode::C => lemma_captured_written_parses(k),
        Keycode::D => lemma_captured_written_parses(k),
        Keycode::E => lemma_captured_written_parses(k),
        Keycode::F => lemma_captured_written_parses(k),
        Keycode::G => lemma_captured_written_parses(k),
        Keycode::H => lemma_captured_written_parses(k),
        Keycode::I => lemma_captured_written_parses(k),
        Keycode::J => lemma_captured_written_parses(k),
        Keycode::K => lemma_captured_written_parses(k),
        Keycode::L => lemma_captured_written_parses(k),
        Keycode::M => lemma_captured_written_parses(k),
        Keycode::N => lemma_captured_written_parses(k),
        Keycode::O => lemma_captured_written_parses(k),
        Keycode::P => lemma_captured_written_parses(k),
        Keycode::Q => lemma_captured_written_parses(k),
        Keycode::R => lemma_captured_written_parses(k),
        Keycode::S => lemma_captured_written_parses(k),
        Keycode::T => lemma_captured_written_parses(k),
        Keycode::U => lemma_captured_written_parses(k),
        Keycode::V => lemma_captured_written_parses(k),
        Keycode::W => lemma_captured_written_parses(k),
        Keycode::X => lemma_captured_written_parses(k),
        Keycode::Y => lemma_captured_written_parses(k),
        Keycode::Z => lemma_captured_written_parses(k),
        Keycode::Key0 => lemma_captured_written_parses(k),
        Keycode::Key1 => lemma_captured_written_parses(k),
        Keycode::Key2 => lemma_captured_written_parses(k),
        Keycode::Key3 => lemma_captured_written_parses(k),
        Keycode::Key4 => lemma_captured_written_parses(k),
        Keycode::Key5 => lemma_captured_written_parses(k),
        Keycode::Key6 => lemma_captured_written_parses(k),
        Keycode::Key7 => lemma_captured_written_parses(k),
        Keycode::Key8 => lemma_captured_written_parses(k),
        Keycode::Key9 => lemma_captured_written_parses(k),
        Keycode::Space => lemma_captured_written_parses(k),
        Keycode::Tab => lemma_written_tab_parses(),
        Keycode::Enter => lemma_written_enter_parses(),
        Keycode::Backspace => lemma_written_backspace_parses(),
        Keycode::Escape => lemma_written_esc_parses(),
        Keycode::Delete => lemma_written_delete_parses(),
        Keycode::Insert => lemma_written_insert_parses(),
        Keycode::Home => lemma_written_home_parses(),
        Keycode::End => lemma_written_end_parses(),
        Keycode::PageUp => lemma_written_pageup_parses(),
        Keycode::PageDown => lemma_written_pagedown_parses(),
        Keycode::Up => lemma_written_up_parses(),
        Keycode::Down => lemma_written_down_parses(),
        Keycode::Left => lemma_written_left_parses(),
        Keycode::Right => lemma_written_right_parses(),
        Keycode::CapsLock => lemma_written_capslock_parses(),
        Keycode::F13 => lemma_written_f13_parses(),
        Keycode::F14 => lemma_written_f14_parses(),
        Keycode::F15 => lemma_written_f15_parses(),
        Keycode::F16 => lemma_written_f16_parses(),
        Keycode::F17 => lemma_written_f17_parses(),
        Keycode::F18 => lemma_written_f18_parses(),
        Keycode::F19 => lemma_written_f19_parses(),
        Keycode::F20 => lemma_written_f20_parses(),
        Keycode::Numpad0 => lemma_written_num0_parses(),
        Keycode::Numpad1 => lemma_written_num1_parses(),
        Keycode::Numpad2 => lemma_written_num2_parses(),
        Keycode::Numpad3 => lemma_written_num3_parses(),
        Keycode::Numpad4 => lemma_written_num4_parses(),
        Keycode::Numpad5 => lemma_written_num5_parses(),
        Keycode::Numpad6 => lemma_written_num6_parses(),
        Keycode::Numpad7 => lemma_written_num7_parses(),
        Keycode::Numpad8 => lemma_written_num8_parses(),
        Keycode::Numpad9 => lemma_written_num9_parses(),
        _ => {},
    }
}

proof fn lemma_captured_written_parses(k: Keycode)
    requires
        capture_label_spec(k) is Some,
    ensures
        written_name(k) matches Some(n) && parse_hotkey_spec(n) == Some(plain_hotkey(k)),
{
    let l = capture_label_spec(k).unwrap();
    lemma_captured_name_is_written_name(k);
    law_captured_chord_parses_back(false, false, false, false, k);
    assert(chord_text(false, false, false, false, l) =~= l);
}

proof fn lemma_captured_name_is_written_name(k: Keycode)
    requires
        capture_label_spec(k) is Some,
    ensures
        capture_label_spec(k) == written_name(k),
{
    reveal_strlit("F1");
    reveal_strlit("F2");
    reveal_strlit("F3");
    reveal_strlit("F4");
    reveal_strlit("F5");
    reveal_strlit("F6");
    reveal_strlit("F7");
    reveal_strlit("F8");
    reveal_strlit("F9");
    reveal_strlit("F10");
    reveal_strlit("F11");
    reveal_strlit("F12");
    reveal_strlit("A");
    reveal_strlit("B");
    reveal_strlit("C");
    reveal_strlit("D");
    reveal_strlit("E");
    reveal_strlit("F");
    reveal_strlit("G");
    reveal_strlit("H");
    reveal_strlit("I");
    reveal_strlit("J");
    reveal_strlit("K");
    reveal_strlit("L");
    reveal_strlit("M");
    reveal_strlit("N");
    reveal_strlit("O");
    reveal_strlit("P");
    reveal_strlit("Q");
    reveal_strlit("R");
    reveal_strlit("S");
    reveal_strlit("T");
    reveal_strlit("U");
    reveal_strlit("V");
    reveal_strlit("W");
    reveal_strlit("X");
    reveal_strlit("Y");
    reveal_strlit("Z");
    reveal_strlit("0");
    reveal_strlit("1");
    reveal_strlit("2");
    reveal_strlit("3");
    reveal_strlit("4");
    reveal_strlit("5");
    reveal_strlit("6");
    reveal_strlit("7");
    reveal_strlit("8");
    reveal_strlit("9");
    reveal_strlit("Space");
}

proof fn lemma_written_f13_parses()
    ensures
        parse_hotkey_spec("F13"@) == Some(plain_hotkey(Keycode::F13)),
{
    reveal_strlit("F13");
    let l = "F13"@;
    assert(l =~= seq!['F', '1', '3']);
    assert(ascii_upper(l) =~= l);
    assert(ascii_lower(l) =~= seq!['f', '1', '3']);
    reveal_strlit("ctrl");
    assert("ctrl"@.len() != ascii_lower(l).len());
    reveal_strlit("control");
    assert("control"@.len() != ascii_lower(l).len());
    reveal_strlit("meta");
    assert("meta"@.len() != ascii_lower(l).len());
    reveal_strlit("super");
    assert("super"@.len() != ascii_lower(l).len());
    reveal_strlit("win");
    assert("win"@[0] != ascii_lower(l)[0]);
    reveal_strlit("cmd");
    assert("cmd"@[0] != ascii_lower(l)[0]);
    reveal_strlit("shift");
    assert("shift"@.len() != ascii_lower(l).len());
    reveal_strlit("alt");
    assert("alt"@[0] != ascii_lower(l)[0]);
    assert(ascii_upper(l).drop_first() =~= seq!['1', '3']);
    assert(seq!['1', '3'].drop_last() =~= seq!['1']);
    assert(seq!['1'].drop_last() =~= Seq::<char>::empty());
    assert(decimal_value(Seq::<char>::empty()) == 0);
    assert(digit_value('1') == 1);
    assert(digit_value('3') == 3);
    assert(decimal_value(seq!['1']) == 1);
    assert(decimal_value(seq!['1', '3']) == 13);
    assert(parse_u8_spec(seq!['1', '3']) == Some(13u8));
    assert(key_of_part(l) == Some(Keycode::F13));
    lemma_plain_name_parses(l, Keycode::F13);
}

proof fn lemma_written_f14_parses()
    ensures
        parse_hotkey_spec("F14"@) == Some(plain_hotkey(Keycode::F14)),
{
    reveal_strlit("F14");
    let l = "F14"@;
    assert(l =~= seq!['F', '1', '4']);
    assert(ascii_upper(l) =~= l);
    assert(ascii_lower(l) =~= seq!['f', '1', '4']);
    reveal_strlit("ctrl");
    assert("ctrl"@.len() != ascii_lower(l).len());
    reveal_strlit("control");
    assert("control"@.len() != ascii_lower(l).len());
    reveal_strlit("meta");
    assert("meta"@.len() != ascii_lower(l).len());
    reveal_strlit("super");
    assert("super"@.len() != ascii_lower(l).len());
    reveal_strlit("win");
    assert("win"@[0] != ascii_lower(l)[0]);
    reveal_strlit("cmd");
    assert("cmd"@[0] != ascii_lower(l)[0]);
    reveal_strlit("shift");
    assert("shift"@.len() != ascii_lower(l).len());
    reveal_strlit("alt");
    assert("alt"@[0] != ascii_lower(l)[0]);
    assert(ascii_upper(l).drop_first() =~= seq!['1', '4']);
    assert(seq!['1', '4'].drop_last() =~= seq!['1']);
    assert(seq!['1'].drop_last() =~= Seq::<char>::empty());
    assert(decimal_value(Seq::<char>::empty()) == 0);
    assert(digit_value('1') == 1);
    assert(digit_value('4') == 4);
    assert(decimal_value(seq!['1']) == 1);
    assert(decimal_value(seq!['1', '4']) == 14);
    assert(parse_u8_spec(seq!['1', '4']) == Some(14u8));
    assert(key_of_part(l) == Some(Keycode::F14));
    lemma_plain_name_parses(l, Keycode::F14);
}

proof fn lemma_written_f15_parses()
    ensures
        parse_hotkey_spec("F15"@) == Some(plain_hotkey(Keycode::F15)),
{
    reveal_strlit("F15");
    let l = "F15"@;
    assert(l =~= seq!['F', '1', '5']);
    assert(ascii_upper(l) =~= l);
    assert(ascii_lower(l) =~= seq!['f', '1', '5']);
    reveal_strlit("ctrl");
    assert("ctrl"@.len() != ascii_lower(l).len());
    reveal_strlit("control");
    assert("control"@.len() != ascii_lower(l).len());
    reveal_strlit("meta");
    assert("meta"@.len() != ascii_lower(l).len());
    reveal_strlit("super");
    assert("super"@.len() != ascii_lower(l).len());
    reveal_strlit("win");
    assert("win"@[0] != ascii_lower(l)[0]);
    reveal_strlit("cmd");
    assert("cmd"@[0] != ascii_lower(l)[0]);
    reveal_strlit("shift");
    assert("shift"@.len() != ascii_lower(l).len());
    reveal_strlit("alt");
    assert("alt"@[0] != ascii_lower(l)[0]);
    assert(ascii_upper(l).drop_first() =~= seq!['1', '5']);
    assert(seq!['1', '5'].drop_last() =~= seq!['1']);
    assert(seq!['1'].drop_last() =~= Seq::<char>::empty());
    assert(decimal_value(Seq::<char>::empty()) == 0);
    assert(digit_value('1') == 1);
    assert(digit_value('5') == 5);
    assert(decimal_value(seq!['1']) == 1);
    assert(decimal_value(seq!['1', '5']) == 15);
    assert(parse_u8_spec(seq!['1', '5']) == Some(15u8));
    assert(key_of_part(l) == Some(Keycode::F15));
    lemma_plain_name_parses(l, Keycode::F15);
}

proof fn lemma_written_f16_parses()
    ensures
        parse_hotkey_spec("F16"@) == Some(plain_hotkey(Keycode::F16)),
{
    reveal_strlit("F16");
    let l = "F16"@;
    assert(l =~= seq!['F', '1', '6']);
    assert(ascii_upper(l) =~= l);
    assert(ascii_lower(l) =~= seq!['f', '1', '6']);
    reveal_strlit("ctrl");
    assert("ctrl"@.len() != ascii_lower(l).len());
    reveal_strlit("control");
    assert("control"@.len() != ascii_lower(l).len());
    reveal_strlit("meta");
    assert("meta"@.len() != ascii_lower(l).len());
    reveal_strlit("super");
    assert("super"@.len() != ascii_lower(l).len());
    reveal_strlit("win");
    assert("win"@[0] != ascii_lower(l)[0]);
    reveal_strlit("cmd");
    assert("cmd"@[0] != ascii_lower(l)[0]);
    reveal_strlit("shift");
    assert("shift"@.len() != ascii_lower(l).len());
    reveal_strlit("alt");
    assert("alt"@[0] != ascii_lower(l)[0]);
    assert(ascii_upper(l).drop_first() =~= seq!['1', '6']);
    assert(seq!['1', '6'].drop_last() =~= seq!['1']);
    assert(seq!['1'].drop_last() =~= Seq::<char>::empty());
    assert(decimal_value(Seq::<char>::empty()) == 0);
    assert(digit_value('1') == 1);
    assert(digit_value('6') == 6);
    assert(decimal_value(seq!['1']) == 1);
    assert(decimal_value(seq!['1', '6']) == 16);
    assert(parse_u8_spec(seq!['1', '6']) == Some(16u8));
    assert(key_of_part(l) == Some(Keycode::F16));
    lemma_plain_name_parses(l, Keycode::F16);
}

proof fn lemma_written_f17_parses()
    ensures
        parse_hotkey_spec("F17"@) == Some(plain_hotkey(Keycode::F17)),
{
    reveal_strlit("F17");
    let l = "F17"@;
    assert(l =~= seq!['F', '1', '7']);
    assert(ascii_upper(l) =~= l);
    assert(ascii_lower(l) =~= seq!['f', '1', '7']);
    reveal_strlit("ctrl");
    assert("ctrl"@.len() != ascii_lower(l).len());
    reveal_strlit("control");
    assert("control"@.len() != ascii_lower(l).len());
    reveal_strlit("meta");
    assert("meta"@.len() != ascii_lower(l).len());
    reveal_strlit("super");
    assert("super"@.len() != ascii_lower(l).len());
    reveal_strlit("win");
    assert("win"@[0] != ascii_lower(l)[0]);
    reveal_strlit("cmd");
    assert("cmd"@[0] != ascii_lower(l)[0]);
    reveal_strlit("shift");
    assert("shift"@.len() != ascii_lower(l).len());
    reveal_strlit("alt");
    assert("alt"@[0] != ascii_lower(l)[0]);
    assert(ascii_upper(l).drop_first() =~= seq!['1', '7']);
    assert(seq!['1', '7'].drop_last() =~= seq!['1']);
    assert(seq!['1'].drop_last() =~= Seq::<char>::empty());
    assert(decimal_value(Seq::<char>::empty()) == 0);
    assert(digit_value('1') == 1);
    assert(digit_value('7') == 7);
    assert(decimal_value(seq!['1']) == 1);
    assert(decimal_value(seq!['1', '7']) == 17);
    assert(parse_u8_spec(seq!['1', '7']) == Some(17u8));
    assert(key_of_part(l) == Some(Keycode::F17));
    lemma_plain_name_parses(l, Keycode::F17);
}

proof fn lemma_written_f18_parses()
    ensures
        parse_hotkey_spec("F18"@) == Some(plain_hotkey(Keycode::F18)),
{
    reveal_strlit("F18");
    let l = "F18"@;
    assert(l =~= seq!['F', '1', '8']);
    assert(ascii_upper(l) =~= l);
    assert(ascii_lower(l) =~= seq!['f', '1', '8']);
    reveal_strlit("ctrl");
    assert("ctrl"@.len() != ascii_lower(l).len());
    reveal_strlit("control");
    assert("control"@.len() != ascii_lower(l).len());
    reveal_strlit("meta");
    assert("meta"@.len() != ascii_lower(l).len());
    reveal_strlit("super");
    assert("super"@.len() != ascii_lower(l).len());
    reveal_strlit("win");
    assert("win"@[0] != ascii_lower(l)[0]);
    reveal_strlit("cmd");
    assert("cmd"@[0] != ascii_lower(l)[0]);
    reveal_strlit("shift");
    assert("shift"@.len() != ascii_lower(l).len());
    reveal_strlit("alt");
    assert("alt"@[0] != ascii_lower(l)[0]);
    assert(ascii_upper(l).drop_first() =~= seq!['1', '8']);
    assert(seq!['1', '8'].drop_last() =~= seq!['1']);
    assert(seq!['1'].drop_last() =~= Seq::<char>::empty());
    assert(decimal_value(Seq::<char>::empty()) == 0);
    assert(digit_value('1') == 1);
    assert(digit_value('8') == 8);
    assert(decimal_value(seq!['1']) == 1);
    assert(decimal_value(seq!['1', '8']) == 18);
    assert(parse_u8_spec(seq!['1', '8']) == Some(18u8));
    assert(key_of_part(l) == Some(Keycode::F18));
    lemma_plain_name_parses(l, Keycode::F18);
}

proof fn lemma_written_f19_parses()
    ensures
        parse_hotkey_spec("F19"@) == Some(plain_hotkey(Keycode::F19)),
{
    reveal_strlit("F19");
    let l = "F19"@;
    assert(l =~= seq!['F', '1', '9']);
    assert(ascii_upper(l) =~= l);
    assert(ascii_lower(l) =~= seq!['f', '1', '9']);
    reveal_strlit("ctrl");
    assert("ctrl"@.len() != ascii_lower(l).len());
    reveal_strlit("control");
    assert("control"@.len() != ascii_lower(l).len());
    reveal_strlit("meta");
    assert("meta"@.len() != ascii_lower(l).len());
    reveal_strlit("super");
    assert("super"@.len() != ascii_lower(l).len());
    reveal_strlit("win");
    assert("win"@[0] != ascii_lower(l)[0]);
    reveal_strlit("cmd");
    assert("cmd"@[0] != ascii_lower(l)[0]);
    reveal_strlit("shift");
    assert("shift"@.len() != ascii_lower(l).len());
    reveal_strlit("alt");
    assert("alt"@[0] != ascii_lower(l)[0]);
    assert(ascii_upper(l).drop_first() =~= seq!['1', '9']);
    assert(seq!['1', '9'].drop_last() =~= seq!['1']);
    assert(seq!['1'].drop_last() =~= Seq::<char>::empty());
    assert(decimal_value(Seq::<char>::empty()) == 0);
    assert(digit_value('1') == 1);
    assert(digit_value('9') == 9);
    assert(decimal_value(seq!['1']) == 1);
    assert(decimal_value(seq!['1', '9']) == 19);
    assert(parse_u8_spec(seq!['1', '9']) == Some(19u8));
    assert(key_of_part(l) == Some(Keycode::F19));
    lemma_plain_name_parses(l, Keycode::F19);
}

proof fn lemma_written_f20_parses()
    ensures
        parse_hotkey_spec("F20"@) == Some(plain_hotkey(Keycode::F20)),
{
    reveal_strlit("F20");
    let l = "F20"@;
    assert(l =~= seq!['F', '2', '0']);
    assert(ascii_upper(l) =~= l);
    assert(ascii_lower(l) =~= seq!['f', '2', '0']);
    reveal_strlit("ctrl");
    assert("ctrl"@.len() != ascii_lower(l).len());
    reveal_strlit("control");
    assert("control"@.len() != ascii_lower(l).len());
    reveal_strlit("meta");
    assert("meta"@.len() != ascii_lower(l).len());
    reveal_strlit("super");
    assert("super"@.len() != ascii_lower(l).len());
    reveal_strlit("win");
    assert("win"@[0] != ascii_lower(l)[0]);
    reveal_strlit("cmd");
    assert("cmd"@[0] != ascii_lower(l)[0]);
    reveal_strlit("shift");
    assert("shift"@.len() != ascii_lower(l).len());
    reveal_strlit("alt");
    assert("alt"@[0] != ascii_lower(l)[0]);
    assert(ascii_upper(l).drop_first() =~= seq!['2', '0']);
    assert(seq!['2', '0'].drop_last() =~= seq!['2']);
    assert(seq!['2'].drop_last() =~= Seq::<char>::empty());
    assert(decimal_value(Seq::<char>::empty()) == 0);
    assert(digit_value('2') == 2);
    assert(digit_value('0') == 0);
    assert(decimal_value(seq!['2']) == 2);
    assert(decimal_value(seq!['2', '0']) == 20);
    assert(parse_u8_spec(seq!['2', '0']) == Some(20u8));
    assert(key_of_part(l) == Some(Keycode::F20));
    lemma_plain_name_parses(l, Keycode::F20);
}

proof fn lemma_written_num0_parses()
    ensures
        parse_hotkey_spec("Num0"@) == Some(plain_hotkey(Keycode::Numpad0)),
{
    reveal_strlit("Num0");
    let l = "Num0"@;
    assert(l =~= seq!['N', 'u', 'm', '0']);
    let u = seq!['N', 'U', 'M', '0'];
    assert(ascii_upper(l) =~= u);
    assert(ascii_lower(l) =~= seq!['n', 'u', 'm', '0']);
    reveal_strlit("ctrl");
    assert("ctrl"@[0] != ascii_lower(l)[0]);
    reveal_strlit("control");
    assert("control"@.len() != ascii_lower(l).len());
    reveal_strlit("meta");
    assert("meta"@[0] != ascii_lower(l)[0]);
    reveal_strlit("super");
    assert("super"@.len() != ascii_lower(l).len());
    reveal_strlit("win");
    assert("win"@.len() != ascii_lower(l).len());
    reveal_strlit("cmd");
    assert("cmd"@.len() != ascii_lower(l).len());
    reveal_strlit("shift");
    assert("shift"@.len() != ascii_lower(l).len());
    reveal_strlit("alt");
    assert("alt"@.len() != ascii_lower(l).len());
    reveal_strlit("SPACE");
    assert(u.len() != "SPACE"@.len());
    reveal_strlit("TAB");
    assert(u.len() != "TAB"@.len());
    reveal_strlit("ENTER");
    assert(u.len() != "ENTER"@.len());
    reveal_strlit("RETURN");
    assert(u.len() != "RETURN"@.len());
    reveal_strlit("BACKSPACE");
    assert(u.len() != "BACKSPACE"@.len());
    reveal_strlit("ESC");
    assert(u.len() != "ESC"@.len());
    reveal_strlit("ESCAPE");
    assert(u.len() != "ESCAPE"@.len());
    reveal_strlit("DELETE");
    assert(u.len() != "DELETE"@.len());
    reveal_strlit("DEL");
    assert(u.len() != "DEL"@.len());
    reveal_strlit("INSERT");
    assert(u.len() != "INSERT"@.len());
    reveal_strlit("INS");
    assert(u.len() != "INS"@.len());
    reveal_strlit("HOME");
    assert(u[0] != "HOME"@[0]);
    reveal_strlit("END");
    assert(u.len() != "END"@.len());
    reveal_strlit("PAGEUP");
    assert(u.len() != "PAGEUP"@.len());
    reveal_strlit("PAGEDOWN");
    assert(u.len() != "PAGEDOWN"@.len());
    reveal_strlit("UP");
    assert(u.len() != "UP"@.len());
    reveal_strlit("ARROWUP");
    assert(u.len() != "ARROWUP"@.len());
    reveal_strlit("DOWN");
    assert(u[0] != "DOWN"@[0]);
    reveal_strlit("ARROWDOWN");
    assert(u.len() != "ARROWDOWN"@.len());
    reveal_strlit("LEFT");
    assert(u[0] != "LEFT"@[0]);
    reveal_strlit("ARROWLEFT");
    assert(u.len() != "ARROWLEFT"@.len());
    reveal_strlit("RIGHT");
    assert(u.len() != "RIGHT"@.len());
    reveal_strlit("ARROWRIGHT");
    assert(u.len() != "ARROWRIGHT"@.len());
    reveal_strlit("CAPSLOCK");
    assert(u.len() != "CAPSLOCK"@.len());
    assert(named_key(u) is None);
    assert(u.take(3) =~= seq!['N', 'U', 'M']);
    assert(u.skip(3) =~= seq!['0']);
    assert(seq!['0'].drop_last() =~= Seq::<char>::empty());
    assert(decimal_value(Seq::<char>::empty()) == 0);
    assert(digit_value('0') == 0);
    assert(decimal_value(seq!['0']) == 0);
    assert(parse_u8_spec(seq!['0']) == Some(0u8));
    assert(key_of_part(l) == Some(Keycode::Numpad0));
    lemma_plain_name_parses(l, Keycode::Numpad0);
}

proof fn lemma_written_num1_parses()
    ensures
        parse_hotkey_spec("Num1"@) == Some(plain_hotkey(Keycode::Numpad1)),
{
    reveal_strlit("Num1");
    let l = "Num1"@;
    assert(l =~= seq!['N', 'u', 'm', '1']);
    let u = seq!['N', 'U', 'M', '1'];
    assert(ascii_upper(l) =~= u);
    assert(ascii_lower(l) =~= seq!['n', 'u', 'm', '1']);
    reveal_strlit("ctrl");
    assert("ctrl"@[0] != ascii_lower(l)[0]);
    reveal_strlit("control");
    assert("control"@.len() != ascii_lower(l).len());
    reveal_strlit("meta");
    assert("meta"@[0] != ascii_lower(l)[0]);
    reveal_strlit("super");
    assert("super"@.len() != ascii_lower(l).len());
    reveal_strlit("win");
    assert("win"@.len() != ascii_lower(l).len());
    reveal_strlit("cmd");
    assert("cmd"@.len() != ascii_lower(l).len());
    reveal_strlit("shift");
    assert("shift"@.len() != ascii_lower(l).len());
    reveal_strlit("alt");
    assert("alt"@.len() != ascii_lower(l).len());
    reveal_strlit("SPACE");
    assert(u.len() != "SPACE"@.len());
    reveal_strlit("TAB");
    assert(u.len() != "TAB"@.len());
    reveal_strlit("ENTER");
    assert(u.len() != "ENTER"@.len());
    reveal_strlit("RETURN");
    assert(u.len() != "RETURN"@.len());
    reveal_strlit("BACKSPACE");
    assert(u.len() != "BACKSPACE"@.len());
    reveal_strlit("ESC");
    assert(u.len() != "ESC"@.len());
    reveal_strlit("ESCAPE");
    assert(u.len() != "ESCAPE"@.len());
    reveal_strlit("DELETE");
    assert(u.len() != "DELETE"@.len());
    reveal_strlit("DEL");
    assert(u.len() != "DEL"@.len());
    reveal_strlit("INSERT");
    assert(u.len() != "INSERT"@.len());
    reveal_strlit("INS");
    assert(u.len() != "INS"@.len());
    reveal_strlit("HOME");
    assert(u[0] != "HOME"@[0]);
    reveal_strlit("END");
    assert(u.len() != "END"@.len());
    reveal_strlit("PAGEUP");
    assert(u.len() != "PAGEUP"@.len());
    reveal_strlit("PAGEDOWN");
    assert(u.len() != "PAGEDOWN"@.len());
    reveal_strlit("UP");
    assert(u.len() != "UP"@.len());
    reveal_strlit("ARROWUP");
    assert(u.len() != "ARROWUP"@.len());
    reveal_strlit("DOWN");
    assert(u[0] != "DOWN"@[0]);
    reveal_strlit("ARROWDOWN");
    assert(u.len() != "ARROWDOWN"@.len());
    reveal_strlit("LEFT");
    assert(u[0] != "LEFT"@[0]);
    reveal_strlit("ARROWLEFT");
    assert(u.len() != "ARROWLEFT"@.len());
    reveal_strlit("RIGHT");
    assert(u.len() != "RIGHT"@.len());
    reveal_strlit("ARROWRIGHT");
    assert(u.len() != "ARROWRIGHT"@.len());
    reveal_strlit("CAPSLOCK");
    assert(u.len() != "CAPSLOCK"@.len());
    assert(named_key(u) is None);
    assert(u.take(3) =~= seq!['N', 'U', 'M']);
    assert(u.skip(3) =~= seq!['1']);
    assert(seq!['1'].drop_last() =~= Seq::<char>::empty());
    assert(decimal_value(Seq::<char>::empty()) == 0);
    assert(digit_value('1') == 1);
    assert(decimal_value(seq!['1']) == 1);
    assert(parse_u8_spec(seq!['1']) == Some(1u8));
    assert(key_of_part(l) == Some(Keycode::Numpad1));
    lemma_plain_name_parses(l, Keycode::Numpad1);
}

proof fn lemma_written_num2_parses()
    ensures
        parse_hotkey_spec("Num2"@) == Some(plain_hotkey(Keycode::Numpad2)),
{
    reveal_strlit("Num2");
    let l = "Num2"@;
    assert(l =~= seq!['N', 'u', 'm', '2']);
    let u = seq!['N', 'U', 'M', '2'];
    assert(ascii_upper(l) =~= u);
    assert(ascii_lower(l) =~= seq!['n', 'u', 'm', '2']);
    reveal_strlit("ctrl");
    assert("ctrl"@[0] != ascii_lower(l)[0]);
    reveal_strlit("control");
    assert("control"@.len() != ascii_lower(l).len());
    reveal_strlit("meta");
    assert("meta"@[0] != ascii_lower(l)[0]);
    reveal_strlit("super");
    assert("super"@.len() != ascii_lower(l).len());
    reveal_strlit("win");
    assert("win"@.len() != ascii_lower(l).len());
    reveal_strlit("cmd");
    assert("cmd"@.len() != ascii_lower(l).len());
    reveal_strlit("shift");
    assert("shift"@.len() != ascii_lower(l).len());
    reveal_strlit("alt");
    assert("alt"@.len() != ascii_lower(l).len());
    reveal_strlit("SPACE");
    assert(u.len() != "SPACE"@.len());
    reveal_strlit("TAB");
    assert(u.len() != "TAB"@.len());
    reveal_strlit("ENTER");
    assert(u.len() != "ENTER"@.len());
    reveal_strlit("RETURN");
    assert(u.len() != "RETURN"@.len());
    reveal_strlit("BACKSPACE");
    assert(u.len() != "BACKSPACE"@.len());
    reveal_strlit("ESC");
    assert(u.len() != "ESC"@.len());
    reveal_strlit("ESCAPE");
    assert(u.len() != "ESCAPE"@.len());
    reveal_strlit("DELETE");
    assert(u.len() != "DELETE"@.len());
    reveal_strlit("DEL");
    assert(u.len() != "DEL"@.len());
    reveal_strlit("INSERT");
    assert(u.len() != "INSERT"@.len());
    reveal_strlit("INS");
    assert(u.len() != "INS"@.len());
    reveal_strlit("HOME");
    assert(u[0] != "HOME"@[0]);
    reveal_strlit("END");
    assert(u.len() != "END"@.len());
    reveal_strlit("PAGEUP");
    assert(u.len() != "PAGEUP"@.len());
    reveal_strlit("PAGEDOWN");
    assert(u.len() != "PAGEDOWN"@.len());
    reveal_strlit("UP");
    assert(u.len() != "UP"@.len());
    reveal_strlit("ARROWUP");
    assert(u.len() != "ARROWUP"@.len());
    reveal_strlit("DOWN");
    assert(u[0] != "DOWN"@[0]);
    reveal_strlit("ARROWDOWN");
    assert(u.len() != "ARROWDOWN"@.len());
    reveal_strlit("LEFT");
    assert(u[0] != "LEFT"@[0]);
    reveal_strlit("ARROWLEFT");
    assert(u.len() != "ARROWLEFT"@.len());
    reveal_strlit("RIGHT");
    assert(u.len() != "RIGHT"@.len());
    reveal_strlit("ARROWRIGHT");
    assert(u.len() != "ARROWRIGHT"@.len());
    reveal_strlit("CAPSLOCK");
    assert(u.len() != "CAPSLOCK"@.len());
    assert(named_key(u) is None);
    assert(u.take(3) =~= seq!['N', 'U', 'M']);
    assert(u.skip(3) =~= seq!['2']);
    assert(seq!['2'].drop_last() =~= Seq::<char>::empty());
    assert(decimal_value(Seq::<char>::empty()) == 0);
    assert(digit_value('2') == 2);
    assert(decimal_value(seq!['2']) == 2);
    assert(parse_u8_spec(seq!['2']) == Some(2u8));
    assert(key_of_part(l) == Some(Keycode::Numpad2));
    lemma_plain_name_parses(l, Keycode::Numpad2);
}

proof fn lemma_written_num3_parses()
    ensures
        parse_hotkey_spec("Num3"@) == Some(plain_hotkey(Keycode::Numpad3)),
{
    reveal_strlit("Num3");
    let l = "Num3"@;
    assert(l =~= seq!['N', 'u', 'm', '3']);
    let u = seq!['N', 'U', 'M', '3'];
    assert(ascii_upper(l) =~= u);
    assert(ascii_lower(l) =~= seq!['n', 'u', 'm', '3']);
    reveal_strlit("ctrl");
    assert("ctrl"@[0] != ascii_lower(l)[0]);
    reveal_strlit("control");
    assert("control"@.len() != ascii_lower(l).len());
    reveal_strlit("meta");
    assert("meta"@[0] != ascii_lower(l)[0]);
    reveal_strlit("super");
    assert("super"@.len() != ascii_lower(l).len());
    reveal_strlit("win");
    assert("win"@.len() != ascii_lower(l).len());
    reveal_strlit("cmd");
    assert("cmd"@.len() != ascii_lower(l).len());
    reveal_strlit("shift");
    assert("shift"@.len() != ascii_lower(l).len());
    reveal_strlit("alt");
    assert("alt"@.len() != ascii_lower(l).len());
    reveal_strlit("SPACE");
    assert(u.len() != "SPACE"@.len());
    reveal_strlit("TAB");
    assert(u.len() != "TAB"@.len());
    reveal_strlit("ENTER");
    assert(u.len() != "ENTER"@.len());
    reveal_strlit("RETURN");
    assert(u.len() != "RETURN"@.len());
    reveal_strlit("BACKSPACE");
    assert(u.len() != "BACKSPACE"@.len());
    reveal_strlit("ESC");
    assert(u.len() != "ESC"@.len());
    reveal_strlit("ESCAPE");
    assert(u.len() != "ESCAPE"@.len());
    reveal_strlit("DELETE");
    assert(u.len() != "DELETE"@.len());
    reveal_strlit("DEL");
    assert(u.len() != "DEL"@.len());
    reveal_strlit("INSERT");
    assert(u.len() != "INSERT"@.len());
    reveal_strlit("INS");
    assert(u.len() != "INS"@.len());
    reveal_strlit("HOME");
    assert(u[0] != "HOME"@[0]);
    reveal_strlit("END");
    assert(u.len() != "END"@.len());
    reveal_strlit("PAGEUP");
    assert(u.len() != "PAGEUP"@.len());
    reveal_strlit("PAGEDOWN");
    assert(u.len() != "PAGEDOWN"@.len());
    reveal_strlit("UP");
    assert(u.len() != "UP"@.len());
    reveal_strlit("ARROWUP");
    assert(u.len() != "ARROWUP"@.len());
    reveal_strlit("DOWN");
    assert(u[0] != "DOWN"@[0]);
    reveal_strlit("ARROWDOWN");
    assert(u.len() != "ARROWDOWN"@.len());
    reveal_strlit("LEFT");
    assert(u[0] != "LEFT"@[0]);
    reveal_strlit("ARROWLEFT");
    assert(u.len() != "ARROWLEFT"@.len());
    reveal_strlit("RIGHT");
    assert(u.len() != "RIGHT"@.len());
    reveal_strlit("ARROWRIGHT");
    assert(u.len() != "ARROWRIGHT"@.len());
    reveal_strlit("CAPSLOCK");
    assert(u.len() != "CAPSLOCK"@.len());
    assert(named_key(u) is None);
    assert(u.take(3) =~= seq!['N', 'U', 'M']);
    assert(u.skip(3) =~= seq!['3']);
    assert(seq!['3'].drop_last() =~= Seq::<char>::empty());
    assert(decimal_value(Seq::<char>::empty()) == 0);
    assert(digit_value('3') == 3);
    assert(decimal_value(seq!['3']) == 3);
    assert(parse_u8_spec(seq!['3']) == Some(3u8));
    assert(key_of_part(l) == Some(Keycode::Numpad3));
    lemma_plain_name_parses(l, Keycode::Numpad3);
}

proof fn lemma_written_num4_parses()
    ensures
        parse_hotkey_spec("Num4"@) == Some(plain_hotkey(Keycode::Numpad4)),
{
    reveal_strlit("Num4");
    let l = "Num4"@;
    assert(l =~= seq!['N', 'u', 'm', '4']);
    let u = seq!['N', 'U', 'M', '4'];
    assert(ascii_upper(l) =~= u);
    assert(ascii_lower(l) =~= seq!['n', 'u', 'm', '4']);
    reveal_strlit("ctrl");
    assert("ctrl"@[0] != ascii_lower(l)[0]);
    reveal_strlit("control");
    assert("control"@.len() != ascii_lower(l).len());
    reveal_strlit("meta");
    assert("meta"@[0] != ascii_lower(l)[0]);
    reveal_strlit("super");
    assert("super"@.len() != ascii_lower(l).len());
    reveal_strlit("win");
    assert("win"@.len() != ascii_lower(l).len());
    reveal_strlit("cmd");
    assert("cmd"@.len() != ascii_lower(l).len());
    reveal_strlit("shift");
    assert("shift"@.len() != ascii_lower(l).len());
    reveal_strlit("alt");
    assert("alt"@.len() != ascii_lower(l).len());
    reveal_strlit("SPACE");
    assert(u.len() != "SPACE"@.len());
    reveal_strlit("TAB");
    assert(u.len() != "TAB"@.len());
    reveal_strlit("ENTER");
    assert(u.len() != "ENTER"@.len());
    reveal_strlit("RETURN");
    assert(u.len() != "RETURN"@.len());
    reveal_strlit("BACKSPACE");
    assert(u.len() != "BACKSPACE"@.len());
    reveal_strlit("ESC");
    assert(u.len() != "ESC"@.len());
    reveal_strlit("ESCAPE");
    assert(u.len() != "ESCAPE"@.len());
    reveal_strlit("DELETE");
    assert(u.len() != "DELETE"@.len());
    reveal_strlit("DEL");
    assert(u.len() != "DEL"@.len());
    reveal_strlit("INSERT");
    assert(u.len() != "INSERT"@.len());
    reveal_strlit("INS");
    assert(u.len() != "INS"@.len());
    reveal_strlit("HOME");
    assert(u[0] != "HOME"@[0]);
    reveal_strlit("END");
    assert(u.len() != "END"@.len());
    reveal_strlit("PAGEUP");
    assert(u.len() != "PAGEUP"@.len());
    reveal_strlit("PAGEDOWN");
    assert(u.len() != "PAGEDOWN"@.len());
    reveal_strlit("UP");
    assert(u.len() != "UP"@.len());
    reveal_strlit("ARROWUP");
    assert(u.len() != "ARROWUP"@.len());
    reveal_strlit("DOWN");
    assert(u[0] != "DOWN"@[0]);
    reveal_strlit("ARROWDOWN");
    assert(u.len() != "ARROWDOWN"@.len());
    reveal_strlit("LEFT");
    assert(u[0] != "LEFT"@[0]);
    reveal_strlit("ARROWLEFT");
    assert(u.len() != "ARROWLEFT"@.len());
    reveal_strlit("RIGHT");
    assert(u.len() != "RIGHT"@.len());
    reveal_strlit("ARROWRIGHT");
    assert(u.len() != "ARROWRIGHT"@.len());
    reveal_strlit("CAPSLOCK");
    assert(u.len() != "CAPSLOCK"@.len());
    assert(named_key(u) is None);
    assert(u.take(3) =~= seq!['N', 'U', 'M']);
    assert(u.skip(3) =~= seq!['4']);
    assert(seq!['4'].drop_last() =~= Seq::<char>::empty());
    assert(decimal_value(Seq::<char>::empty()) == 0);
    assert(digit_value('4') == 4);
    assert(decimal_value(seq!['4']) == 4);
    assert(parse_u8_spec(seq!['4']) == Some(4u8));
    assert(key_of_part(l) == Some(Keycode::Numpad4));
    lemma_plain_name_parses(l, Keycode::Numpad4);
}

proof fn lemma_written_num5_parses()
    ensures
        parse_hotkey_spec("Num5"@) == Some(plain_hotkey(Keycode::Numpad5)),
{
    reveal_strlit("Num5");
    let l = "Num5"@;
    assert(l =~= seq!['N', 'u', 'm', '5']);
    let u = seq!['N', 'U', 'M', '5'];
    assert(ascii_upper(l) =~= u);
    assert(ascii_lower(l) =~= seq!['n', 'u', 'm', '5']);
    reveal_strlit("ctrl");
    assert("ctrl"@[0] != ascii_lower(l)[0]);
    reveal_strlit("control");
    assert("control"@.len() != ascii_lower(l).len());
    reveal_strlit("meta");
    assert("meta"@[0] != ascii_lower(l)[0]);
    reveal_strlit("super");
    assert("super"@.len() != ascii_lower(l).len());
    reveal_strlit("win");
    assert("win"@.len() != ascii_lower(l).len());
    reveal_strlit("cmd");
    assert("cmd"@.len() != ascii_lower(l).len());
    reveal_strlit("shift");
    assert("shift"@.len() != ascii_lower(l).len());
    reveal_strlit("alt");
    assert("alt"@.len() != ascii_lower(l).len());
    reveal_strlit("SPACE");
    assert(u.len() != "SPACE"@.len());
    reveal_strlit("TAB");
    assert(u.len() != "TAB"@.len());
    reveal_strlit("ENTER");
    assert(u.len() != "ENTER"@.len());
    reveal_strlit("RETURN");
    assert(u.len() != "RETURN"@.len());
    reveal_strlit("BACKSPACE");
    assert(u.len() != "BACKSPACE"@.len());
    reveal_strlit("ESC");
    assert(u.len() != "ESC"@.len());
    reveal_strlit("ESCAPE");
    assert(u.len() != "ESCAPE"@.len());
    reveal_strlit("DELETE");
    assert(u.len() != "DELETE"@.len());
    reveal_strlit("DEL");
    assert(u.len() != "DEL"@.len());
    reveal_strlit("INSERT");
    assert(u.len() != "INSERT"@.len());
    reveal_strlit("INS");
    assert(u.len() != "INS"@.len());
    reveal_strlit("HOME");
    assert(u[0] != "HOME"@[0]);
    reveal_strlit("END");
    assert(u.len() != "END"@.len());
    reveal_strlit("PAGEUP");
    assert(u.len() != "PAGEUP"@.len());
    reveal_strlit("PAGEDOWN");
    assert(u.len() != "PAGEDOWN"@.len());
    reveal_strlit("UP");
    assert(u.len() != "UP"@.len());
    reveal_strlit("ARROWUP");
    assert(u.len() != "ARROWUP"@.len());
    reveal_strlit("DOWN");
    assert(u[0] != "DOWN"@[0]);
    reveal_strlit("ARROWDOWN");
    assert(u.len() != "ARROWDOWN"@.len());
    reveal_strlit("LEFT");
    assert(u[0] != "LEFT"@[0]);
    reveal_strlit("ARROWLEFT");
    assert(u.len() != "ARROWLEFT"@.len());
    reveal_strlit("RIGHT");
    assert(u.len() != "RIGHT"@.len());
    reveal_strlit("ARROWRIGHT");
    assert(u.len() != "ARROWRIGHT"@.len());
    reveal_strlit("CAPSLOCK");
    assert(u.len() != "CAPSLOCK"@.len());
    assert(named_key(u) is None);
    assert(u.take(3) =~= seq!['N', 'U', 'M']);
    assert(u.skip(3) =~= seq!['5']);
    assert(seq!['5'].drop_last() =~= Seq::<char>::empty());
    assert(decimal_value(Seq::<char>::empty()) == 0);
    assert(digit_value('5') == 5);
    assert(decimal_value(seq!['5']) == 5);
    assert(parse_u8_spec(seq!['5']) == Some(5u8));
    assert(key_of_part(l) == Some(Keycode::Numpad5));
    lemma_plain_name_parses(l, Keycode::Numpad5);
}

proof fn lemma_written_num6_parses()
    ensures
        parse_hotkey_spec("Num6"@) == Some(plain_hotkey(Keycode::Numpad6)),
{
    reveal_strlit("Num6");
    let l = "Num6"@;
    assert(l =~= seq!['N', 'u', 'm', '6']);
    let u = seq!['N', 'U', 'M', '6'];
    assert(ascii_upper(l) =~= u);
    assert(ascii_lower(l) =~= seq!['n', 'u', 'm', '6']);
    reveal_strlit("ctrl");
    assert("ctrl"@[0] != ascii_lower(l)[0]);
    reveal_strlit("control");
    assert("control"@.len() != ascii_lower(l).len());
    reveal_strlit("meta");
    assert("meta"@[0] != ascii_lower(l)[0]);
    reveal_strlit("super");
    assert("super"@.len() != ascii_lower(l).len());
    reveal_strlit("win");
    assert("win"@.len() != ascii_lower(l).len());
    reveal_strlit("cmd");
    assert("cmd"@.len() != ascii_lower(l).len());
    reveal_strlit("shift");
    assert("shift"@.len() != ascii_lower(l).len());
    reveal_strlit("alt");
    assert("alt"@.len() != ascii_lower(l).len());
    reveal_strlit("SPACE");
    assert(u.len() != "SPACE"@.len());
    reveal_strlit("TAB");
    assert(u.len() != "TAB"@.len());
    reveal_strlit("ENTER");
    assert(u.len() != "ENTER"@.len());
    reveal_strlit("RETURN");
    assert(u.len() != "RETURN"@.len());
    reveal_strlit("BACKSPACE");
    assert(u.len() != "BACKSPACE"@.len());
    reveal_strlit("ESC");
    assert(u.len() != "ESC"@.len());
    reveal_strlit("ESCAPE");
    assert(u.len() != "ESCAPE"@.len());
    reveal_strlit("DELETE");
    assert(u.len() != "DELETE"@.len());
    reveal_strlit("DEL");
    assert(u.len() != "DEL"@.len());
    reveal_strlit("INSERT");
    assert(u.len() != "INSERT"@.len());
    reveal_strlit("INS");
    assert(u.len() != "INS"@.len());
    reveal_strlit("HOME");
    assert(u[0] != "HOME"@[0]);
    reveal_strlit("END");
    assert(u.len() != "END"@.len());
    reveal_strlit("PAGEUP");
    assert(u.len() != "PAGEUP"@.len());
    reveal_strlit("PAGEDOWN");
    assert(u.len() != "PAGEDOWN"@.len());
    reveal_strlit("UP");
    assert(u.len() != "UP"@.len());
    reveal_strlit("ARROWUP");
    assert(u.len() != "ARROWUP"@.len());
    reveal_strlit("DOWN");
    assert(u[0] != "DOWN"@[0]);
    reveal_strlit("ARROWDOWN");
    assert(u.len() != "ARROWDOWN"@.len());
    reveal_strlit("LEFT");
    assert(u[0] != "LEFT"@[0]);
    reveal_strlit("ARROWLEFT");
    assert(u.len() != "ARROWLEFT"@.len());
    reveal_strlit("RIGHT");
    assert(u.len() != "RIGHT"@.len());
    reveal_strlit("ARROWRIGHT");
    assert(u.len() != "ARROWRIGHT"@.len());
    reveal_strlit("CAPSLOCK");
    assert(u.len() != "CAPSLOCK"@.len());
    assert(named_key(u) is None);
    assert(u.take(3) =~= seq!['N', 'U', 'M']);
    assert(u.skip(3) =~= seq!['6']);
    assert(seq!['6'].drop_last() =~= Seq::<char>::empty());
    assert(decimal_value(Seq::<char>::empty()) == 0);
    assert(digit_value('6') == 6);
    assert(decimal_value(seq!['6']) == 6);
    assert(parse_u8_spec(seq!['6']) == Some(6u8));
    assert(key_of_part(l) == Some(Keycode::Numpad6));
    lemma_plain_name_parses(l, Keycode::Numpad6);
}

proof fn lemma_written_num7_parses()
    ensures
        parse_hotkey_spec("Num7"@) == Some(plain_hotkey(Keycode::Numpad7)),
{
    reveal_strlit("Num7");
    let l = "Num7"@;
    assert(l =~= seq!['N', 'u', 'm', '7']);
    let u = seq!['N', 'U', 'M', '7'];
    assert(ascii_upper(l) =~= u);
    assert(ascii_lower(l) =~= seq!['n', 'u', 'm', '7']);
    reveal_strlit("ctrl");
    assert("ctrl"@[0] != ascii_lower(l)[0]);
    reveal_strlit("control");
    assert("control"@.len() != ascii_lower(l).len());
    reveal_strlit("meta");
    assert("meta"@[0] != ascii_lower(l)[0]);
    reveal_strlit("super");
    assert("super"@.len() != ascii_lower(l).len());
    reveal_strlit("win");
    assert("win"@.len() != ascii_lower(l).len());
    reveal_strlit("cmd");
    assert("cmd"@.len() != ascii_lower(l).len());
    reveal_strlit("shift");
    assert("shift"@.len() != ascii_lower(l).len());
    reveal_strlit("alt");
    assert("alt"@.len() != ascii_lower(l).len());
    reveal_strlit("SPACE");
    assert(u.len() != "SPACE"@.len());
    reveal_strlit("TAB");
    assert(u.len() != "TAB"@.len());
    reveal_strlit("ENTER");
    assert(u.len() != "ENTER"@.len());
    reveal_strlit("RETURN");
    assert(u.len() != "RETURN"@.len());
    reveal_strlit("BACKSPACE");
    assert(u.len() != "BACKSPACE"@.len());
    reveal_strlit("ESC");
    assert(u.len() != "ESC"@.len());
    reveal_strlit("ESCAPE");
    assert(u.len() != "ESCAPE"@.len());
    reveal_strlit("DELETE");
    assert(u.len() != "DELETE"@.len());
    reveal_strlit("DEL");
    assert(u.len() != "DEL"@.len());
    reveal_strlit("INSERT");
    assert(u.len() != "INSERT"@.len());
    reveal_strlit("INS");
    assert(u.len() != "INS"@.len());
    reveal_strlit("HOME");
    assert(u[0] != "HOME"@[0]);
    reveal_strlit("END");
    assert(u.len() != "END"@.len());
    reveal_strlit("PAGEUP");
    assert(u.len() != "PAGEUP"@.len());
    reveal_strlit("PAGEDOWN");
    assert(u.len() != "PAGEDOWN"@.len());
    reveal_strlit("UP");
    assert(u.len() != "UP"@.len());
    reveal_strlit("ARROWUP");
    assert(u.len() != "ARROWUP"@.len());
    reveal_strlit("DOWN");
    assert(u[0] != "DOWN"@[0]);
    reveal_strlit("ARROWDOWN");
    assert(u.len() != "ARROWDOWN"@.len());
    reveal_strlit("LEFT");
    assert(u[0] != "LEFT"@[0]);
    reveal_strlit("ARROWLEFT");
    assert(u.len() != "ARROWLEFT"@.len());
    reveal_strlit("RIGHT");
    assert(u.len() != "RIGHT"@.len());
    reveal_strlit("ARROWRIGHT");
    assert(u.len() != "ARROWRIGHT"@.len());
    reveal_strlit("CAPSLOCK");
    assert(u.len() != "CAPSLOCK"@.len());
    assert(named_key(u) is None);
    assert(u.take(3) =~= seq!['N', 'U', 'M']);
    assert(u.skip(3) =~= seq!['7']);
    assert(seq!['7'].drop_last() =~= Seq::<char>::empty());
    assert(decimal_value(Seq::<char>::empty()) == 0);
    assert(digit_value('7') == 7);
    assert(decimal_value(seq!['7']) == 7);
    assert(parse_u8_spec(seq!['7']) == Some(7u8));
    assert(key_of_part(l) == Some(Keycode::Numpad7));
    lemma_plain_name_parses(l, Keycode::Numpad7);
}

proof fn lemma_written_num8_parses()
    ensures
        parse_hotkey_spec("Num8"@) == Some(plain_hotkey(Keycode::Numpad8)),
{
    reveal_strlit("Num8");
    let l = "Num8"@;
    assert(l =~= seq!['N', 'u', 'm', '8']);
    let u = seq!['N', 'U', 'M', '8'];
    assert(ascii_upper(l) =~= u);
    assert(ascii_lower(l) =~= seq!['n', 'u', 'm', '8']);
    reveal_strlit("ctrl");
    assert("ctrl"@[0] != ascii_lower(l)[0]);
    reveal_strlit("control");
    assert("control"@.len() != ascii_lower(l).len());
    reveal_strlit("meta");
    assert("meta"@[0] != ascii_lower(l)[0]);
    reveal_strlit("super");
    assert("super"@.len() != ascii_lower(l).len());
    reveal_strlit("win");
    assert("win"@.len() != ascii_lower(l).len());
    reveal_strlit("cmd");
    assert("cmd"@.len() != ascii_lower(l).len());
    reveal_strlit("shift");
    assert("shift"@.len() != ascii_lower(l).len());
    reveal_strlit("alt");
    assert("alt"@.len() != ascii_lower(l).len());
    reveal_strlit("SPACE");
    assert(u.len() != "SPACE"@.len());
    reveal_strlit("TAB");
    assert(u.len() != "TAB"@.len());
    reveal_strlit("ENTER");
    assert(u.len() != "ENTER"@.len());
    reveal_strlit("RETURN");
    assert(u.len() != "RETURN"@.len());
    reveal_strlit("BACKSPACE");
    assert(u.len() != "BACKSPACE"@.len());
    reveal_strlit("ESC");
    assert(u.len() != "ESC"@.len());
    reveal_strlit("ESCAPE");
    assert(u.len() != "ESCAPE"@.len());
    reveal_strlit("DELETE");
    assert(u.len() != "DELETE"@.len());
    reveal_strlit("DEL");
    assert(u.len() != "DEL"@.len());
    reveal_strlit("INSERT");
    assert(u.len() != "INSERT"@.len());
    reveal_strlit("INS");
    assert(u.len() != "INS"@.len());
    reveal_strlit("HOME");
    assert(u[0] != "HOME"@[0]);
    reveal_strlit("END");
    assert(u.len() != "END"@.len());
    reveal_strlit("PAGEUP");
    assert(u.len() != "PAGEUP"@.len());
    reveal_strlit("PAGEDOWN");
    assert(u.len() != "PAGEDOWN"@.len());
    reveal_strlit("UP");
    assert(u.len() != "UP"@.len());
    reveal_strlit("ARROWUP");
    assert(u.len() != "ARROWUP"@.len());
    reveal_strlit("DOWN");
    assert(u[0] != "DOWN"@[0]);
    reveal_strlit("ARROWDOWN");
    assert(u.len() != "ARROWDOWN"@.len());
    reveal_strlit("LEFT");
    assert(u[0] != "LEFT"@[0]);
    reveal_strlit("ARROWLEFT");
    assert(u.len() != "ARROWLEFT"@.len());
    reveal_strlit("RIGHT");
    assert(u.len() != "RIGHT"@.len());
    reveal_strlit("ARROWRIGHT");
    assert(u.len() != "ARROWRIGHT"@.len());
    reveal_strlit("CAPSLOCK");
    assert(u.len() != "CAPSLOCK"@.len());
    assert(named_key(u) is None);
    assert(u.take(3) =~= seq!['N', 'U', 'M']);
    assert(u.skip(3) =~= seq!['8']);
    assert(seq!['8'].drop_last() =~= Seq::<char>::empty());
    assert(decimal_value(Seq::<char>::empty()) == 0);
    assert(digit_value('8') == 8);
    assert(decimal_value(seq!['8']) == 8);
    assert(parse_u8_spec(seq!['8']) == Some(8u8));
    assert(key_of_part(l) == Some(Keycode::Numpad8));
    lemma_plain_name_parses(l, Keycode::Numpad8);
}

proof fn lemma_written_num9_parses()
    ensures
        parse_hotkey_spec("Num9"@) == Some(plain_hotkey(Keycode::Numpad9)),
{
    reveal_strlit("Num9");
    let l = "Num9"@;
    assert(l =~= seq!['N', 'u', 'm', '9']);
    let u = seq!['N', 'U', 'M', '9'];
    assert(ascii_upper(l) =~= u);
    assert(ascii_lower(l) =~= seq!['n', 'u', 'm', '9']);
    reveal_strlit("ctrl");
    assert("ctrl"@[0] != ascii_lower(l)[0]);
    reveal_strlit("control");
    assert("control"@.len() != ascii_lower(l).len());
    reveal_strlit("meta");
    assert("meta"@[0] != ascii_lower(l)[0]);
    reveal_strlit("super");
    assert("super"@.len() != ascii_lower(l).len());
    reveal_strlit("win");
    assert("win"@.len() != ascii_lower(l).len());
    reveal_strlit("cmd");
    assert("cmd"@.len() != ascii_lower(l).len());
    reveal_strlit("shift");
    assert("shift"@.len() != ascii_lower(l).len());
    reveal_strlit("alt");
    assert("alt"@.len() != ascii_lower(l).len());
    reveal_strlit("SPACE");
    assert(u.len() != "SPACE"@.len());
    reveal_strlit("TAB");
    assert(u.len() != "TAB"@.len());
    reveal_strlit("ENTER");
    assert(u.len() != "ENTER"@.len());
    reveal_strlit("RETURN");
    assert(u.len() != "RETURN"@.len());
    reveal_strlit("BACKSPACE");
    assert(u.len() != "BACKSPACE"@.len());
    reveal_strlit("ESC");
    assert(u.len() != "ESC"@.len());
    reveal_strlit("ESCAPE");
    assert(u.len() != "ESCAPE"@.len());
    reveal_strlit("DELETE");
    assert(u.len() != "DELETE"@.len());
    reveal_strlit("DEL");
    assert(u.len() != "DEL"@.len());
    reveal_strlit("INSERT");
    assert(u.len() != "INSERT"@.len());
    reveal_strlit("INS");
    assert(u.len() != "INS"@.len());
    reveal_strlit("HOME");
    assert(u[0] != "HOME"@[0]);
    reveal_strlit("END");
    assert(u.len() != "END"@.len());
    reveal_strlit("PAGEUP");
    assert(u.len() != "PAGEUP"@.len());
    reveal_strlit("PAGEDOWN");
    assert(u.len() != "PAGEDOWN"@.len());
    reveal_strlit("UP");
    assert(u.len() != "UP"@.len());
    reveal_strlit("ARROWUP");
    assert(u.len() != "ARROWUP"@.len());
    reveal_strlit("DOWN");
    assert(u[0] != "DOWN"@[0]);
    reveal_strlit("ARROWDOWN");
    assert(u.len() != "ARROWDOWN"@.len());
    reveal_strlit("LEFT");
    assert(u[0] != "LEFT"@[0]);
    reveal_strlit("ARROWLEFT");
    assert(u.len() != "ARROWLEFT"@.len());
    reveal_strlit("RIGHT");
    assert(u.len() != "RIGHT"@.len());
    reveal_strlit("ARROWRIGHT");
    assert(u.len() != "ARROWRIGHT"@.len());
    reveal_strlit("CAPSLOCK");
    assert(u.len() != "CAPSLOCK"@.len());
    assert(named_key(u) is None);
    assert(u.take(3) =~= seq!['N', 'U', 'M']);
    assert(u.skip(3) =~= seq!['9']);
    assert(seq!['9'].drop_last() =~= Seq::<char>::empty());
    assert(decimal_value(Seq::<char>::empty()) == 0);
    assert(digit_value('9') == 9);
    assert(decimal_value(seq!['9']) == 9);
    assert(parse_u8_spec(seq!['9']) == Some(9u8));
    assert(key_of_part(l) == Some(Keycode::Numpad9));
    lemma_plain_name_parses(l, Keycode::Numpad9);
}

proof fn lemma_written_tab_parses()
    ensures
        parse_hotkey_spec("Tab"@) == Some(plain_hotkey(Keycode::Tab)),
{
    reveal_strlit("Tab");
    reveal_strlit("TAB");
    let l = "Tab"@;
    assert(l =~= seq!['T', 'a', 'b']);
    assert(ascii_upper(l) =~= "TAB"@);
    assert(ascii_lower(l) =~= seq!['t', 'a', 'b']);
    reveal_strlit("ctrl");
    assert("ctrl"@.len() != ascii_lower(l).len());
    reveal_strlit("control");
    assert("control"@.len() != ascii_lower(l).len());
    reveal_strlit("meta");
    assert("meta"@.len() != ascii_lower(l).len());
    reveal_strlit("super");
    assert("super"@.len() != ascii_lower(l).len());
    reveal_strlit("win");
    assert("win"@[0] != ascii_lower(l)[0]);
    reveal_strlit("cmd");
    assert("cmd"@[0] != ascii_lower(l)[0]);
    reveal_strlit("shift");
    assert("shift"@.len() != ascii_lower(l).len());
    reveal_strlit("alt");
    assert("alt"@[0] != ascii_lower(l)[0]);
    lemma_named_tab();
    assert(key_of_part(l) == Some(Keycode::Tab));
    lemma_plain_name_parses(l, Keycode::Tab);
}

proof fn lemma_written_enter_parses()
    ensures
        parse_hotkey_spec("Enter"@) == Some(plain_hotkey(Keycode::Enter)),
{
    reveal_strlit("Enter");
    reveal_strlit("ENTER");
    let l = "Enter"@;
    assert(l =~= seq!['E', 'n', 't', 'e', 'r']);
    assert(ascii_upper(l) =~= "ENTER"@);
    assert(ascii_lower(l) =~= seq!['e', 'n', 't', 'e', 'r']);
    reveal_strlit("ctrl");
    assert("ctrl"@.len() != ascii_lower(l).len());
    reveal_strlit("control");
    assert("control"@.len() != ascii_lower(l).len());
    reveal_strlit("meta");
    assert("meta"@.len() != ascii_lower(l).len());
    reveal_strlit("super");
    assert("super"@[0] != ascii_lower(l)[0]);
    reveal_strlit("win");
    assert("win"@.len() != ascii_lower(l).len());
    reveal_strlit("cmd");
    assert("cmd"@.len() != ascii_lower(l).len());
    reveal_strlit("shift");
    assert("shift"@[0] != ascii_lower(l)[0]);
    reveal_strlit("alt");
    assert("alt"@.len() != ascii_lower(l).len());
    lemma_named_enter();
    assert(key_of_part(l) == Some(Keycode::Enter));
    lemma_plain_name_parses(l, Keycode::Enter);
}

proof fn lemma_written_backspace_parses()
    ensures
        parse_hotkey_spec("Backspace"@) == Some(plain_hotkey(Keycode::Backspace)),
{
    reveal_strlit("Backspace");
    reveal_strlit("BACKSPACE");
    let l = "Backspace"@;
    assert(l =~= seq!['B', 'a', 'c', 'k', 's', 'p', 'a', 'c', 'e']);
    assert(ascii_upper(l) =~= "BACKSPACE"@);
    assert(ascii_lower(l) =~= seq!['b', 'a', 'c', 'k', 's', 'p', 'a', 'c', 'e']);
    reveal_strlit("ctrl");
    assert("ctrl"@.len() != ascii_lower(l).len());
    reveal_strlit("control");
    assert("control"@.len() != ascii_lower(l).len());
    reveal_strlit("meta");
    assert("meta"@.len() != ascii_lower(l).len());
    reveal_strlit("super");
    assert("super"@.len() != ascii_lower(l).len());
    reveal_strlit("win");
    assert("win"@.len() != ascii_lower(l).len());
    reveal_strlit("cmd");
    assert("cmd"@.len() != ascii_lower(l).len());
    reveal_strlit("shift");
    assert("shift"@.len() != ascii_lower(l).len());
    reveal_strlit("alt");
    assert("alt"@.len() != ascii_lower(l).len());
    lemma_named_backspace();
    assert(key_of_part(l) == Some(Keycode::Backspace));
    lemma_plain_name_parses(l, Keycode::Backspace);
}

proof fn lemma_written_esc_parses()
    ensures
        parse_hotkey_spec("Esc"@) == Some(plain_hotkey(Keycode::Escape)),
{
    reveal_strlit("Esc");
    reveal_strlit("ESC");
    let l = "Esc"@;
    assert(l =~= seq!['E', 's', 'c']);
    assert(ascii_upper(l) =~= "ESC"@);
    assert(ascii_lower(l) =~= seq!['e', 's', 'c']);
    reveal_strlit("ctrl");
    assert("ctrl"@.len() != ascii_lower(l).len());
    reveal_strlit("control");
    assert("control"@.len() != ascii_lower(l).len());
    reveal_strlit("meta");
    assert("meta"@.len() != ascii_lower(l).len());
    reveal_strlit("super");
    assert("super"@.len() != ascii_lower(l).len());
    reveal_strlit("win");
    assert("win"@[0] != ascii_lower(l)[0]);
    reveal_strlit("cmd");
    assert("cmd"@[0] != ascii_lower(l)[0]);
    reveal_strlit("shift");
    assert("shift"@.len() != ascii_lower(l).len());
    reveal_strlit("alt");
    assert("alt"@[0] != ascii_lower(l)[0]);
    lemma_named_esc();
    assert(key_of_part(l) == Some(Keycode::Escape));
    lemma_plain_name_parses(l, Keycode::Escape);
}

proof fn lemma_written_delete_parses()
    ensures
        parse_hotkey_spec("Delete"@) == Some(plain_hotkey(Keycode::Delete)),
{
    reveal_strlit("Delete");
    reveal_strlit("DELETE");
    let l = "Delete"@;
    assert(l =~= seq!['D', 'e', 'l', 'e', 't', 'e']);
    assert(ascii_upper(l) =~= "DELETE"@);
    assert(ascii_lower(l) =~= seq!['d', 'e', 'l', 'e', 't', 'e']);
    reveal_strlit("ctrl");
    assert("ctrl"@.len() != ascii_lower(l).len());
    reveal_strlit("control");
    assert("control"@.len() != ascii_lower(l).len());
    reveal_strlit("meta");
    assert("meta"@.len() != ascii_lower(l).len());
    reveal_strlit("super");
    assert("super"@.len() != ascii_lower(l).len());
    reveal_strlit("win");
    assert("win"@.len() != ascii_lower(l).len());
    reveal_strlit("cmd");
    assert("cmd"@.len() != ascii_lower(l).len());
    reveal_strlit("shift");
    assert("shift"@.len() != ascii_lower(l).len());
    reveal_strlit("alt");
    assert("alt"@.len() != ascii_lower(l).len());
    lemma_named_delete();
    assert(key_of_part(l) == Some(Keycode::Delete));
    lemma_plain_name_parses(l, Keycode::Delete);
}

proof fn lemma_written_insert_parses()
    ensures
        parse_hotkey_spec("Insert"@) == Some(plain_hotkey(Keycode::Insert)),
{
    reveal_strlit("Insert");
    reveal_strlit("INSERT");
    let l = "Insert"@;
    assert(l =~= seq!['I', 'n', 's', 'e', 'r', 't']);
    assert(ascii_upper(l) =~= "INSERT"@);
    assert(ascii_lower(l) =~= seq!['i', 'n', 's', 'e', 'r', 't']);
    reveal_strlit("ctrl");
    assert("ctrl"@.len() != ascii_lower(l).len());
    reveal_strlit("control");
    assert("control"@.len() != ascii_lower(l).len());
    reveal_strlit("meta");
    assert("meta"@.len() != ascii_lower(l).len());
    reveal_strlit("super");
    assert("super"@.len() != ascii_lower(l).len());
    reveal_strlit("win");
    assert("win"@.len() != ascii_lower(l).len());
    reveal_strlit("cmd");
    assert("cmd"@.len() != ascii_lower(l).len());
    reveal_strlit("shift");
    assert("shift"@.len() != ascii_lower(l).len());
    reveal_strlit("alt");
    assert("alt"@.len() != ascii_lower(l).len());
    lemma_named_insert();
    assert(key_of_part(l) == Some(Keycode::Insert));
    lemma_plain_name_parses(l, Keycode::Insert);
}

proof fn lemma_written_home_parses()
    ensures
        parse_hotkey_spec("Home"@) == Some(plain_hotkey(Keycode::Home)),
{
    reveal_strlit("Home");
    reveal_strlit("HOME");
    let l = "Home"@;
    assert(l =~= seq!['H', 'o', 'm', 'e']);
    assert(ascii_upper(l) =~= "HOME"@);
    assert(ascii_lower(l) =~= seq!['h', 'o', 'm', 'e']);
    reveal_strlit("ctrl");
    assert("ctrl"@[0] != ascii_lower(l)[0]);
    reveal_strlit("control");
    assert("control"@.len() != ascii_lower(l).len());
    reveal_strlit("meta");
    assert("meta"@[0] != ascii_lower(l)[0]);
    reveal_strlit("super");
    assert("super"@.len() != ascii_lower(l).len());
    reveal_strlit("win");
    assert("win"@.len() != ascii_lower(l).len());
    reveal_strlit("cmd");
    assert("cmd"@.len() != ascii_lower(l).len());
    reveal_strlit("shift");
    assert("shift"@.len() != ascii_lower(l).len());
    reveal_strlit("alt");
    assert("alt"@.len() != ascii_lower(l).len());
    lemma_named_home();
    assert(key_of_part(l) == Some(Keycode::Home));
    lemma_plain_name_parses(l, Keycode::Home);
}

proof fn lemma_written_end_parses()
    ensures
        parse_hotkey_spec("End"@) == Some(plain_hotkey(Keycode::End)),
{
    reveal_strlit("End");
    reveal_strlit("END");
    let l = "End"@;
    assert(l =~= seq!['E', 'n', 'd']);
    assert(ascii_upper(l) =~= "END"@);
    assert(ascii_lower(l) =~= seq!['e', 'n', 'd']);
    reveal_strlit("ctrl");
    assert("ctrl"@.len() != ascii_lower(l).len());
    reveal_strlit("control");
    assert("control"@.len() != ascii_lower(l).len());
    reveal_strlit("meta");
    assert("meta"@.len() != ascii_lower(l).len());
    reveal_strlit("super");
    assert("super"@.len() != ascii_lower(l).len());
    reveal_strlit("win");
    assert("win"@[0] != ascii_lower(l)[0]);
    reveal_strlit("cmd");
    assert("cmd"@[0] != ascii_lower(l)[0]);
    reveal_strlit("shift");
    assert("shift"@.len() != ascii_lower(l).len());
    reveal_strlit("alt");
    assert("alt"@[0] != ascii_lower(l)[0]);
    lemma_named_end();
    assert(key_of_part(l) == Some(Keycode::End));
    lemma_plain_name_parses(l, Keycode::End);
}

proof fn lemma_written_pageup_parses()
    ensures
        parse_hotkey_spec("PageUp"@) == Some(plain_hotkey(Keycode::PageUp)),
{
    reveal_strlit("PageUp");
    reveal_strlit("PAGEUP");
    let l = "PageUp"@;
    assert(l =~= seq!['P', 'a', 'g', 'e', 'U', 'p']);
    assert(ascii_upper(l) =~= "PAGEUP"@);
    assert(ascii_lower(l) =~= seq!['p', 'a', 'g', 'e', 'u', 'p']);
    reveal_strlit("ctrl");
    assert("ctrl"@.len() != ascii_lower(l).len());
    reveal_strlit("control");
    assert("control"@.len() != ascii_lower(l).len());
    reveal_strlit("meta");
    assert("meta"@.len() != ascii_lower(l).len());
    reveal_strlit("super");
    assert("super"@.len() != ascii_lower(l).len());
    reveal_strlit("win");
    assert("win"@.len() != ascii_lower(l).len());
    reveal_strlit("cmd");
    assert("cmd"@.len() != ascii_lower(l).len());
    reveal_strlit("shift");
    assert("shift"@.len() != ascii_lower(l).len());
    reveal_strlit("alt");
    assert("alt"@.len() != ascii_lower(l).len());
    lemma_named_pageup();
    assert(key_of_part(l) == Some(Keycode::PageUp));
    lemma_plain_name_parses(l, Keycode::PageUp);
}

proof fn lemma_written_pagedown_parses()
    ensures
        parse_hotkey_spec("PageDown"@) == Some(plain_hotkey(Keycode::PageDown)),
{
    reveal_strlit("PageDown");
    reveal_strlit("PAGEDOWN");
    let l = "PageDown"@;
    assert(l =~= seq!['P', 'a', 'g', 'e', 'D', 'o', 'w', 'n']);
    assert(ascii_upper(l) =~= "PAGEDOWN"@);
    assert(ascii_lower(l) =~= seq!['p', 'a', 'g', 'e', 'd', 'o', 'w', 'n']);
    reveal_strlit("ctrl");
    assert("ctrl"@.len() != ascii_lower(l).len());
    reveal_strlit("control");
    assert("control"@.len() != ascii_lower(l).len());
    reveal_strlit("meta");
    assert("meta"@.len() != ascii_lower(l).len());
    reveal_strlit("super");
    assert("super"@.len() != ascii_lower(l).len());
    reveal_strlit("win");
    assert("win"@.len() != ascii_lower(l).len());
    reveal_strlit("cmd");
    assert("cmd"@.len() != ascii_lower(l).len());
    reveal_strlit("shift");
    assert("shift"@.len() != ascii_lower(l).len());
    reveal_strlit("alt");
    assert("alt"@.len() != ascii_lower(l).len());
    lemma_named_pagedown();
    assert(key_of_part(l) == Some(Keycode::PageDown));
    lemma_plain_name_parses(l, Keycode::PageDown);
}

proof fn lemma_written_up_parses()
    ensures
        parse_hotkey_spec("Up"@) == Some(plain_hotkey(Keycode::Up)),
{
    reveal_strlit("Up");
    reveal_strlit("UP");
    let l = "Up"@;
    assert(l =~= seq!['U', 'p']);
    assert(ascii_upper(l) =~= "UP"@);
    assert(ascii_lower(l) =~= seq!['u', 'p']);
    reveal_strlit("ctrl");
    assert("ctrl"@.len() != ascii_lower(l).len());
    reveal_strlit("control");
    assert("control"@.len() != ascii_lower(l).len());
    reveal_strlit("meta");
    assert("meta"@.len() != ascii_lower(l).len());
    reveal_strlit("super");
    assert("super"@.len() != ascii_lower(l).len());
    reveal_strlit("win");
    assert("win"@.len() != ascii_lower(l).len());
    reveal_strlit("cmd");
    assert("cmd"@.len() != ascii_lower(l).len());
    reveal_strlit("shift");
    assert("shift"@.len() != ascii_lower(l).len());
    reveal_strlit("alt");
    assert("alt"@.len() != ascii_lower(l).len());
    lemma_named_up();
    assert(key_of_part(l) == Some(Keycode::Up));
    lemma_plain_name_parses(l, Keycode::Up);
}

proof fn lemma_written_down_parses()
    ensures
        parse_hotkey_spec("Down"@) == Some(plain_hotkey(Keycode::Down)),
{
    reveal_strlit("Down");
    reveal_strlit("DOWN");
    let l = "Down"@;
    assert(l =~= seq!['D', 'o', 'w', 'n']);
    assert(ascii_upper(l) =~= "DOWN"@);
    assert(ascii_lower(l) =~= seq!['d', 'o', 'w', 'n']);
    reveal_strlit("ctrl");
    assert("ctrl"@[0] != ascii_lower(l)[0]);
    reveal_strlit("control");
    assert("control"@.len() != ascii_lower(l).len());
    reveal_strlit("meta");
    assert("meta"@[0] != ascii_lower(l)[0]);
    reveal_strlit("super");
    assert("super"@.len() != ascii_lower(l).len());
    reveal_strlit("win");
    assert("win"@.len() != ascii_lower(l).len());
    reveal_strlit("cmd");
    assert("cmd"@.len() != ascii_lower(l).len());
    reveal_strlit("shift");
    assert("shift"@.len() != ascii_lower(l).len());
    reveal_strlit("alt");
    assert("alt"@.len() != ascii_lower(l).len());
    lemma_named_down();
    assert(key_of_part(l) == Some(Keycode::Down));
    lemma_plain_name_parses(l, Keycode::Down);
}

proof fn lemma_written_left_parses()
    ensures
        parse_hotkey_spec("Left"@) == Some(plain_hotkey(Keycode::Left)),
{
    reveal_strlit("Left");
    reveal_strlit("LEFT");
    let l = "Left"@;
    assert(l =~= seq!['L', 'e', 'f', 't']);
    assert(ascii_upper(l) =~= "LEFT"@);
    assert(ascii_lower(l) =~= seq!['l', 'e', 'f', 't']);
    reveal_strlit("ctrl");
    assert("ctrl"@[0] != ascii_lower(l)[0]);
    reveal_strlit("control");
    assert("control"@.len() != ascii_lower(l).len());
    reveal_strlit("meta");
    assert("meta"@[0] != ascii_lower(l)[0]);
    reveal_strlit("super");
    assert("super"@.len() != ascii_lower(l).len());
    reveal_strlit("win");
    assert("win"@.len() != ascii_lower(l).len());
    reveal_strlit("cmd");
    assert("cmd"@.len() != ascii_lower(l).len());
    reveal_strlit("shift");
    assert("shift"@.len() != ascii_lower(l).len());
    reveal_strlit("alt");
    assert("alt"@.len() != ascii_lower(l).len());
    lemma_named_left();
    assert(key_of_part(l) == Some(Keycode::Left));
    lemma_plain_name_parses(l, Keycode::Left);
}

proof fn lemma_written_right_parses()
    ensures
        parse_hotkey_spec("Right"@) == Some(plain_hotkey(Keycode::Right)),
{
    reveal_strlit("Right");
    reveal_strlit("RIGHT");
    let l = "Right"@;
    assert(l =~= seq!['R', 'i', 'g', 'h', 't']);
    assert(ascii_upper(l) =~= "RIGHT"@);
    assert(ascii_lower(l) =~= seq!['r', 'i', 'g', 'h', 't']);
    reveal_strlit("ctrl");
    assert("ctrl"@.len() != ascii_lower(l).len());
    reveal_strlit("control");
    assert("control"@.len() != ascii_lower(l).len());
    reveal_strlit("meta");
    assert("meta"@.len() != ascii_lower(l).len());
    reveal_strlit("super");
    assert("super"@[0] != ascii_lower(l)[0]);
    reveal_strlit("win");
    assert("win"@.len() != ascii_lower(l).len());
    reveal_strlit("cmd");
    assert("cmd"@.len() != ascii_lower(l).len());
    reveal_strlit("shift");
    assert("shift"@[0] != ascii_lower(l)[0]);
    reveal_strlit("alt");
    assert("alt"@.len() != ascii_lower(l).len());
    lemma_named_right();
    assert(key_of_part(l) == Some(Keycode::Right));
    lemma_plain_name_parses(l, Keycode::Right);
}

proof fn lemma_written_capslock_parses()
    ensures
        parse_hotkey_spec("CapsLock"@) == Some(plain_hotkey(Keycode::CapsLock)),
{
    reveal_strlit("CapsLock");
    reveal_strlit("CAPSLOCK");
    let l = "CapsLock"@;
    assert(l =~= seq!['C', 'a', 'p', 's', 'L', 'o', 'c', 'k']);
    assert(ascii_upper(l) =~= "CAPSLOCK"@);
    assert(ascii_lower(l) =~= seq!['c', 'a', 'p', 's', 'l', 'o', 'c', 'k']);
    reveal_strlit("ctrl");
    assert("ctrl"@.len() != ascii_lower(l).len());
    reveal_strlit("control");
    assert("control"@.len() != ascii_lower(l).len());
    reveal_strlit("meta");
    assert("meta"@.len() != ascii_lower(l).len());
    reveal_strlit("super");
    assert("super"@.len() != ascii_lower(l).len());
    reveal_strlit("win");
    assert("win"@.len() != ascii_lower(l).len());
    reveal_strlit("cmd");
    assert("cmd"@.len() != ascii_lower(l).len());
    reveal_strlit("shift");
    assert("shift"@.len() != ascii_lower(l).len());
    reveal_strlit("alt");
    assert("alt"@.len() != ascii_lower(l).len());
    lemma_named_capslock();
    assert(key_of_part(l) == Some(Keycode::CapsLock));
    lemma_plain_name_parses(l, Keycode::CapsLock);
}

} // verus!

verus! {

// ───────────────────────── picking the captured key press ─────────────────────────

/// One key event of a frame, as the window reports it: the key (if it is one the
/// library knows), whether it is a press, whether it is an auto-repeat, and the
/// modifiers held.
#[derive(Clone, Copy, Debug)]
pub struct KeyPress {
    pub key: Option<Keycode>,
    pub pressed: bool,
    pub repeat: bool,
    pub ctrl: bool,
    pub shift: bool,
    pub alt: bool,
    pub mac_cmd: bool,
    pub command: bool,
}

/// The chord text an event gives: a fresh press (not a repeat) of a key that a
/// capture takes; nothing for other events.
pub open spec fn chord_of_press(p: KeyPress) -> Option<Seq<char>> {
    if p.pressed && !p.repeat && p.key is Some && capture_label_spec(p.key.unwrap()) is Some {
        Some(
            chord_text(
                p.ctrl,
                p.shift,
                p.alt,
                p.mac_cmd || p.command,
                capture_label_spec(p.key.unwrap()).unwrap(),
            ),
        )
    } else {
        None
    }
}

/// The chord of the first event of a frame that gives one.
pub open spec fn first_chord(ps: Seq<KeyPress>) -> Option<Seq<char>>
    decreases ps.len(),
{
    if ps.len() == 0 {
        None
    } else {
        match chord_of_press(ps[0]) {
            Some(c) => Some(c),
            None => first_chord(ps.drop_first()),
        }
    }
}

/// A frame's events give a chord exactly when one of them is a fresh press (a
/// press, not an auto-repeat) of a key that a capture takes; the chord is then
/// the one of the first such event, its label after the event's modifiers, with
/// Meta for either command modifier. Releases, repeats and unknown keys before it
/// are passed over.
pub proof fn law_capture_takes_the_first_fresh_press(ps: Seq<KeyPress>)
    ensures
        first_chord(ps) is None <==> forall|i: int|
            0 <= i < ps.len() ==> !(#[trigger] ps[i].pressed && !ps[i].repeat && ps[i].key is Some
                && capture_label_spec(ps[i].key.unwrap()) is Some),
        first_chord(ps) matches Some(c) ==> exists|i: int|
            0 <= i < ps.len() && #[trigger] ps[i].pressed && !ps[i].repeat && ps[i].key is Some
                && capture_label_spec(ps[i].key.unwrap()) is Some && (forall|j: int|
                0 <= j < i ==> !(#[trigger] ps[j].pressed && !ps[j].repeat && ps[j].key is Some
                && capture_label_spec(ps[j].key.unwrap()) is Some)) && c == chord_text(
                ps[i].ctrl,
                ps[i].shift,
                ps[i].alt,
                ps[i].mac_cmd || ps[i].command,
                capture_label_spec(ps[i].key.unwrap()).unwrap(),
            ),
    decreases ps.len(),
{
    if ps.len() > 0 {
        let rest = ps.drop_first();
        law_capture_takes_the_first_fresh_press(rest);
        let p = ps[0];
        if p.pressed && !p.repeat && p.key is Some && capture_label_spec(p.key.unwrap()) is Some {
            assert(first_chord(ps) == chord_of_press(p));
            assert(forall|j: int| 0 <= j < 0 ==> !(#[trigger] ps[j].pressed && !ps[j].repeat
                && ps[j].key is Some && capture_label_spec(ps[j].key.unwrap()) is Some));
        } else {
            assert(first_chord(ps) == first_chord(rest));
            assert forall|i: int| 0 <= i < rest.len() implies rest[i] == ps[i + 1] by {}
            if first_chord(rest) is None {
                assert forall|i: int| 0 <= i < ps.len() implies !(#[trigger] ps[i].pressed
                    && !ps[i].repeat && ps[i].key is Some && capture_label_spec(
                    ps[i].key.unwrap(),
                ) is Some) by {
                    if i > 0 {
                        assert(ps[i] == rest[i - 1]);
                    }
                }
            } else {
                let c = first_chord(rest).unwrap();
                let i = choose|i: int|
                    0 <= i < rest.len() && #[trigger] rest[i].pressed && !rest[i].repeat
                        && rest[i].key is Some && capture_label_spec(rest[i].key.unwrap()) is Some
                        && (forall|j: int|
                        0 <= j < i ==> !(#[trigger] rest[j].pressed && !rest[j].repeat
                        && rest[j].key is Some && capture_label_spec(rest[j].key.unwrap()) is Some))
                        && c == chord_text(
                        rest[i].ctrl,
                        rest[i].shift,
                        rest[i].alt,
                        rest[i].mac_cmd || rest[i].command,
                        capture_label_spec(rest[i].key.unwrap()).unwrap(),
                    );
                assert(ps[i + 1] == rest[i]);
                assert forall|j: int| 0 <= j < i + 1 implies !(#[trigger] ps[j].pressed
                    && !ps[j].repeat && ps[j].key is Some && capture_label_spec(
                    ps[j].key.unwrap(),
                ) is Some) by {
                    if j > 0 {
                        assert(ps[j] == rest[j - 1]);
                    }
                }
                assert(ps[i + 1].pressed);
            }
        }
    }
}

/// The chord captured from a frame's key events: the first fresh press of a key
/// that a capture takes, with its modifiers ("Ctrl+Shift+1").
pub fn first_captured_chord(presses: &Vec<KeyPress>) -> (res: Option<String>)
    ensures
        match res {
            Some(t) => first_chord(presses@) == Some(t@),
            None => first_chord(presses@) is None,
        },
{
    let mut i: usize = 0;
    assert(presses@.skip(0) =~= presses@);
    while i < presses.len()
        invariant
            i <= presses.len(),
            first_chord(presses@) == first_chord(presses@.skip(i as int)),
        decreases presses.len() - i,
    {
        let p = presses[i];
        assert(presses@.skip(i as int)[0] == p);
        assert(presses@.skip(i as int).drop_first() =~= presses@.skip(i + 1));
        if p.pressed && !p.repeat {
            match p.key {
                Some(k) => {
                    let c = capture_chord(p.ctrl, p.shift, p.alt, p.mac_cmd, p.command, k);
                    if c.is_some() {
                        return c;
                    }
                },
                None => {},
            }
        }
        i += 1;
    }
    None
}

// ───────────────────────── the hotkey part of the edit dialog ─────────────────────────

/// The hotkey part of the sound edit dialog: the chord chosen so far, whether the
/// hotkey box is ticked, and whether the dialog is waiting for a key chord.
#[derive(Clone, Debug)]
pub struct HotkeyEdit {
    pub hotkey: Option<String>,
    pub enabled: bool,
    pub capturing: bool,
}

/// What happens in the hotkey part of the edit dialog during a frame.
#[derive(Clone, Debug)]
pub enum HotkeyEditEvent {
    /// "Bind" or "Rebind" was clicked.
    BindClicked,
    /// A key chord was captured from the keyboard.
    Captured(String),
    /// The "✕" next to the chord was clicked.
    ClearClicked,
    /// The hotkey box was ticked or unticked.
    EnabledToggled(bool),
    /// Esc was pressed.
    EscapePressed,
    /// The dialog's "Cancel" was clicked.
    CancelClicked,
    /// A frame passed with nothing of the above.
    Frame,
}

impl HotkeyEdit {
    /// The dialog's state when it opens for a sound with this hotkey: the box is
    /// ticked when there is one, and no capture is running.
    pub fn for_sound(hotkey: Option<String>) -> (s: HotkeyEdit)
        ensures
            s.enabled == hotkey.is_some(),
            s.hotkey == hotkey,
            !s.capturing,
    {
        let enabled = hotkey.is_some();
        HotkeyEdit { hotkey, enabled, capturing: false }
    }
}

/// The state after one event: Bind starts a capture; a captured chord, while a
/// capture runs, becomes the hotkey and ends it; "✕" drops the hotkey; the box sets
/// `enabled`, and unticking it ends a capture; Esc and Cancel end a capture; a frame
/// changes nothing.
pub open spec fn hotkey_edit_next(s: HotkeyEdit, e: HotkeyEditEvent) -> HotkeyEdit {
    match e {
        HotkeyEditEvent::BindClicked => HotkeyEdit { capturing: true, ..s },
        HotkeyEditEvent::Captured(c) => if s.capturing {
            HotkeyEdit { hotkey: Some(c), capturing: false, ..s }
        } else {
            s
        },
        HotkeyEditEvent::ClearClicked => HotkeyEdit { hotkey: None, ..s },
        HotkeyEditEvent::EnabledToggled(b) => HotkeyEdit {
            enabled: b,
            capturing: b && s.capturing,
            ..s
        },
        HotkeyEditEvent::EscapePressed => HotkeyEdit { capturing: false, ..s },
        HotkeyEditEvent::CancelClicked => HotkeyEdit { capturing: false, ..s },
        HotkeyEditEvent::Frame => s,
    }
}

/// The state after a run of events, one step per event.
pub open spec fn hotkey_edit_run(s: HotkeyEdit, es: Seq<HotkeyEditEvent>) -> HotkeyEdit
    decreases es.len(),
{
    if es.len() == 0 {
        s
    } else {
        hotkey_edit_run(hotkey_edit_next(s, es[0]), es.drop_first())
    }
}

/// The events that end a running capture: a captured chord, Esc, Cancel and
/// unticking the hotkey box.
pub open spec fn ends_capture(e: HotkeyEditEvent) -> bool {
    ||| e is Captured
    ||| e is EscapePressed
    ||| e is CancelClicked
    ||| e == HotkeyEditEvent::EnabledToggled(false)
}

/// One step of the hotkey part of the edit dialog. A capture, once started, runs
/// until a chord is captured or it is left with Esc, Cancel or by unticking the
/// box; frames in between leave it running.
pub fn hotkey_edit_step(s: &mut HotkeyEdit, e: HotkeyEditEvent)
    ensures
        *final(s) == hotkey_edit_next(*old(s), e),
        e is BindClicked ==> final(s).capturing && final(s).hotkey == old(s).hotkey,
        e matches HotkeyEditEvent::Captured(c) ==> (old(s).capturing ==> !final(s).capturing
            && final(s).hotkey == Some(c)),
        (e is EscapePressed || e is CancelClicked || e == HotkeyEditEvent::EnabledToggled(false))
            ==> !final(s).capturing,
        e is ClearClicked ==> final(s).hotkey is None,
        e is Frame ==> *final(s) == *old(s),
{
    match e {
        HotkeyEditEvent::BindClicked => {
            s.capturing = true;
        },
        HotkeyEditEvent::Captured(c) => {
            if s.capturing {
                s.hotkey = Some(c);
                s.capturing = false;
            }
        },
        HotkeyEditEvent::ClearClicked => {
            s.hotkey = None;
        },
        HotkeyEditEvent::EnabledToggled(b) => {
            s.enabled = b;
            if !b {
                s.capturing = false;
            }
        },
        HotkeyEditEvent::EscapePressed => {
            s.capturing = false;
        },
        HotkeyEditEvent::CancelClicked => {
            s.capturing = false;
        },
        HotkeyEditEvent::Frame => {},
    }
}

/// A running capture survives any run of events that holds none that ends it
/// (frames, clicks on Bind or "✕", ticking the box): the prompt stays up.
pub proof fn law_capture_survives_frames(s: HotkeyEdit, es: Seq<HotkeyEditEvent>)
    requires
        s.capturing,
        forall|i: int| 0 <= i < es.len() ==> !ends_capture(#[trigger] es[i]),
    ensures
        hotkey_edit_run(s, es).capturing,
    decreases es.len(),
{
    if es.len() > 0 {
        let n = hotkey_edit_next(s, es[0]);
        assert(!ends_capture(es[0]));
        assert forall|i: int| 0 <= i < es.drop_first().len() implies !ends_capture(
            #[trigger] es.drop_first()[i],
        ) by {
            assert(es.drop_first()[i] == es[i + 1]);
        }
        law_capture_survives_frames(n, es.drop_first());
    }
}

/// A run of events that starts a capture and then captures a chord, with only
/// frames in between, leaves that chord as the hotkey and the capture ended.
pub proof fn law_bind_then_capture(s: HotkeyEdit, frames: nat, c: String)
    ensures
        ({
            let es = seq![HotkeyEditEvent::BindClicked].add(
                Seq::new(frames, |i: int| HotkeyEditEvent::Frame),
            ).push(HotkeyEditEvent::Captured(c));
            let t = hotkey_edit_run(s, es);
            t.hotkey == Some(c) && !t.capturing && t.enabled == s.enabled
        }),
{
    let b = hotkey_edit_next(s, HotkeyEditEvent::BindClicked);
    let fs = Seq::new(frames, |i: int| HotkeyEditEvent::Frame);
    let es = seq![HotkeyEditEvent::BindClicked].add(fs).push(HotkeyEditEvent::Captured(c));
    assert(es[0] == HotkeyEditEvent::BindClicked);
    assert(es.drop_first() =~= fs.push(HotkeyEditEvent::Captured(c)));
    lemma_frames_then(b, frames, HotkeyEditEvent::Captured(c));
}

/// Frames leave the state as it is, so a run of frames and then one event ends as
/// that event alone would.
proof fn lemma_frames_then(s: HotkeyEdit, frames: nat, e: HotkeyEditEvent)
    ensures
        hotkey_edit_run(
            s,
            Seq::new(frames, |i: int| HotkeyEditEvent::Frame).push(e),
        ) == hotkey_edit_next(s, e),
    decreases frames,
{
    let es = Seq::new(frames, |i: int| HotkeyEditEvent::Frame).push(e);
    if frames == 0 {
        assert(es =~= seq![e]);
        assert(es.drop_first() =~= Seq::<HotkeyEditEvent>::empty());
        assert(hotkey_edit_run(hotkey_edit_next(s, e), es.drop_first()) == hotkey_edit_next(s, e));
    } else {
        let m = (frames - 1) as nat;
        assert(es[0] == HotkeyEditEvent::Frame);
        assert(es.drop_first() =~= Seq::new(m, |i: int| HotkeyEditEvent::Frame).push(e));
        lemma_frames_then(s, m, e);
        assert(hotkey_edit_next(s, HotkeyEditEvent::Frame) == s);
    }
}

} // verus!
