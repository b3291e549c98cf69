use soundpad::hotkeys::{
    capture_chord, capture_label, first_captured_chord, hotkey_edit_step, hotkey_to_string,
    modifiers_held, parse_hotkey, HotkeyEdit, HotkeyEditEvent, HotkeyError, HotkeyManager,
    KeyPress, Keycode, ParsedHotkey,
};
use soundpad::models::SoundFile;

#[test]
fn parses_fkeys() {
    let hk = parse_hotkey("F5").unwrap();
    assert_eq!(hk.key, Keycode::F5);
    assert!(!hk.ctrl && !hk.shift && !hk.alt);
}

#[test]
fn parses_modifiers() {
    let hk = parse_hotkey("Ctrl+Shift+1").unwrap();
    assert!(hk.ctrl);
    assert!(hk.shift);
    assert_eq!(hk.key, Keycode::Key1);
}

#[test]
fn parses_letters() {
    let hk = parse_hotkey("Alt+K").unwrap();
    assert!(hk.alt);
    assert_eq!(hk.key, Keycode::K);
}

#[test]
fn rejects_unknown() {
    assert!(parse_hotkey("NotAKey").is_none());
}

#[test]
fn roundtrip_display() {
    assert_eq!(hotkey_to_string("Ctrl+F2"), "Ctrl+F2");
}

fn hk(ctrl: bool, shift: bool, alt: bool, key: Keycode) -> ParsedHotkey {
    ParsedHotkey { ctrl, shift, alt, key }
}

#[test]
fn parse_ignores_case_and_spaces() {
    assert_eq!(parse_hotkey(" ctrl + shift + f12 "), Some(hk(true, true, false, Keycode::F12)));
    assert_eq!(parse_hotkey("cOnTrOl+a"), Some(hk(true, false, false, Keycode::A)));
    assert_eq!(parse_hotkey("\u{3000}Alt\t+\u{A0}Space"), Some(hk(false, false, true, Keycode::Space)));
}

#[test]
fn parse_meta_words_count_as_ctrl() {
    for w in ["Meta", "Super", "Win", "Cmd", "CTRL"] {
        assert_eq!(parse_hotkey(&format!("{}+Q", w)), Some(hk(true, false, false, Keycode::Q)));
    }
}

#[test]
fn parse_function_key_numbers() {
    assert_eq!(parse_hotkey("F20"), Some(hk(false, false, false, Keycode::F20)));
    assert_eq!(parse_hotkey("f05"), Some(hk(false, false, false, Keycode::F5)));
    assert_eq!(parse_hotkey("F21"), None);
    assert_eq!(parse_hotkey("F0"), None);
    assert_eq!(parse_hotkey("F256"), None);
    assert_eq!(parse_hotkey("F-1"), None);
    // "F" alone is the letter F.
    assert_eq!(parse_hotkey("F"), Some(hk(false, false, false, Keycode::F)));
    assert_eq!(parse_hotkey("Ctrl+f"), Some(hk(true, false, false, Keycode::F)));
    assert_eq!(parse_hotkey("Foo"), None);
}

#[test]
fn parse_named_and_numpad_keys() {
    assert_eq!(parse_hotkey("Return"), Some(hk(false, false, false, Keycode::Enter)));
    assert_eq!(parse_hotkey("esc"), Some(hk(false, false, false, Keycode::Escape)));
    assert_eq!(parse_hotkey("ArrowLeft"), Some(hk(false, false, false, Keycode::Left)));
    assert_eq!(parse_hotkey("PageDown"), Some(hk(false, false, false, Keycode::PageDown)));
    assert_eq!(parse_hotkey("CapsLock"), Some(hk(false, false, false, Keycode::CapsLock)));
    assert_eq!(parse_hotkey("Num7"), Some(hk(false, false, false, Keycode::Numpad7)));
    assert_eq!(parse_hotkey("num10"), None);
    assert_eq!(parse_hotkey("NUM"), None);
    assert_eq!(parse_hotkey("9"), Some(hk(false, false, false, Keycode::Key9)));
    assert_eq!(parse_hotkey("é"), None);
}

#[test]
fn parse_needs_exactly_a_key() {
    assert_eq!(parse_hotkey(""), None);
    assert_eq!(parse_hotkey("Ctrl"), None);
    assert_eq!(parse_hotkey("Ctrl+"), None);
    assert_eq!(parse_hotkey("Ctrl++A"), None);
    // the last key named wins
    assert_eq!(parse_hotkey("A+B"), Some(hk(false, false, false, Keycode::B)));
}

#[test]
fn modifiers_of_the_chord_must_be_held() {
    let chord = hk(true, false, false, Keycode::A);
    assert!(modifiers_held(&vec![Keycode::A, Keycode::RControl], &chord));
    assert!(!modifiers_held(&vec![Keycode::A], &chord));
    // extra modifiers do not stop a chord
    assert!(modifiers_held(&vec![Keycode::A, Keycode::LControl, Keycode::LShift], &chord));
    let plain = hk(false, false, false, Keycode::W);
    assert!(modifiers_held(&vec![Keycode::W, Keycode::LShift, Keycode::RAlt], &plain));
    let both = hk(true, true, false, Keycode::Key1);
    assert!(!modifiers_held(&vec![Keycode::Key1, Keycode::LShift], &both));
}

#[test]
fn capture_writes_chord_text() {
    assert_eq!(capture_label(Keycode::Space), Some("Space"));
    assert_eq!(capture_label(Keycode::Tab), None);
    assert_eq!(capture_label(Keycode::F13), None);
    assert_eq!(
        capture_chord(true, true, false, false, false, Keycode::Key1),
        Some("Ctrl+Shift+1".to_string())
    );
    assert_eq!(
        capture_chord(true, false, true, false, true, Keycode::F2),
        Some("Ctrl+Alt+Meta+F2".to_string())
    );
    assert_eq!(capture_chord(false, false, false, true, false, Keycode::Escape), None);
}

#[test]
fn captured_chord_parses_back() {
    let text = capture_chord(false, true, true, true, false, Keycode::Z).unwrap();
    assert_eq!(parse_hotkey(&text), Some(hk(true, true, true, Keycode::Z)));
    let f = capture_chord(true, false, false, false, false, Keycode::F).unwrap();
    assert_eq!(f, "Ctrl+F");
    assert_eq!(parse_hotkey(&f), Some(hk(true, false, false, Keycode::F)));
}

#[test]
fn bind_and_fire_once_per_press() {
    let mut m = HotkeyManager::new();
    assert!(m.is_available());
    assert_eq!(m.bind("Ctrl+F1", "s1"), Ok(()));
    let pressed = vec![Keycode::LControl, Keycode::F1];
    assert_eq!(m.poll_triggered(&pressed), vec!["s1".to_string()]);
    // still held: nothing new
    assert!(m.poll_triggered(&pressed).is_empty());
    // released, then pressed again
    assert!(m.poll_triggered(&vec![]).is_empty());
    assert_eq!(m.poll_triggered(&pressed), vec!["s1".to_string()]);
    // an extra modifier held with the chord still fires it
    assert!(m.poll_triggered(&vec![]).is_empty());
    assert_eq!(
        m.poll_triggered(&vec![Keycode::LControl, Keycode::LAlt, Keycode::F1]),
        vec!["s1".to_string()]
    );
    // without Ctrl it is not the chord
    assert!(m.poll_triggered(&vec![]).is_empty());
    assert!(m.poll_triggered(&vec![Keycode::F1]).is_empty());
}

#[test]
fn bind_errors() {
    let mut m = HotkeyManager::new();
    assert_eq!(m.bind("Hyper+X", "s1"), Err(HotkeyError::UnrecognizedKey));
    assert_eq!(m.bind("Alt+K", "s1"), Ok(()));
    assert_eq!(m.bind("alt + k", "s2"), Err(HotkeyError::AlreadyAssigned));
    // the first sound keeps its chord
    assert_eq!(m.poll_triggered(&vec![Keycode::RAlt, Keycode::K]), vec!["s1".to_string()]);
}

#[test]
fn rebinding_replaces_and_unbinding_removes() {
    let mut m = HotkeyManager::new();
    assert_eq!(m.bind("F3", "s1"), Ok(()));
    assert_eq!(m.bind("F4", "s1"), Ok(()));
    assert!(m.poll_triggered(&vec![Keycode::F3]).is_empty());
    assert_eq!(m.poll_triggered(&vec![Keycode::F4]), vec!["s1".to_string()]);
    // a freed chord can go to another sound
    assert_eq!(m.bind("F3", "s2"), Ok(()));
    m.unbind("s1");
    assert_eq!(m.poll_triggered(&vec![Keycode::F3, Keycode::F4]), vec!["s2".to_string()]);
    m.unbind_all();
    assert!(m.poll_triggered(&vec![]).is_empty());
    assert!(m.poll_triggered(&vec![Keycode::F3]).is_empty());
}

#[test]
fn modifier_keys_never_fire_alone() {
    let mut m = HotkeyManager::new();
    assert_eq!(m.bind("Q", "s1"), Ok(()));
    assert!(m.poll_triggered(&vec![Keycode::LShift]).is_empty());
    assert_eq!(m.poll_triggered(&vec![Keycode::Q, Keycode::W]), vec!["s1".to_string()]);
}

#[test]
fn plain_binding_fires_while_a_modifier_is_held() {
    let mut m = HotkeyManager::new();
    assert_eq!(m.bind("W", "walk"), Ok(()));
    assert_eq!(
        m.poll_triggered(&vec![Keycode::LShift, Keycode::W]),
        vec!["walk".to_string()]
    );
}

fn sound(id: &str, hotkey: Option<&str>, enabled: bool) -> SoundFile {
    let mut s = SoundFile::new("n", "p.wav", "default");
    s.id = id.to_string();
    s.hotkey = hotkey.map(|h| h.to_string());
    s.hotkey_enabled = enabled;
    s
}

#[test]
fn rebind_all_restores_enabled_hotkeys() {
    let mut m = HotkeyManager::new();
    assert_eq!(m.bind("F9", "old"), Ok(()));
    let sounds = vec![
        sound("a", Some("F1"), true),
        sound("b", Some("F2"), false),
        sound("c", None, true),
        sound("d", Some("f1"), true),
        sound("e", Some("Bogus"), true),
    ];
    let failures = m.rebind_all(&sounds, true);
    assert_eq!(failures.len(), 2);
    assert_eq!(failures[0].sound_id, "d");
    assert_eq!(failures[0].error, HotkeyError::AlreadyAssigned);
    assert_eq!(failures[1].hotkey, "Bogus");
    assert_eq!(failures[1].error, HotkeyError::UnrecognizedKey);
    assert_eq!(m.poll_triggered(&vec![Keycode::F1, Keycode::F2, Keycode::F9]), vec!["a".to_string()]);
    let none = m.rebind_all(&sounds, false);
    assert!(none.is_empty());
    assert!(m.poll_triggered(&vec![]).is_empty());
    assert!(m.poll_triggered(&vec![Keycode::F1]).is_empty());
}

fn press(key: Option<Keycode>, pressed: bool, repeat: bool, ctrl: bool, shift: bool) -> KeyPress {
    KeyPress { key, pressed, repeat, ctrl, shift, alt: false, mac_cmd: false, command: false }
}

#[test]
fn capture_picks_first_fresh_press() {
    let events = vec![
        press(Some(Keycode::A), true, true, false, false),
        press(None, true, false, false, false),
        press(Some(Keycode::B), false, false, false, false),
        press(Some(Keycode::Key1), true, false, true, true),
        press(Some(Keycode::C), true, false, false, false),
    ];
    assert_eq!(first_captured_chord(&events), Some("Ctrl+Shift+1".to_string()));
}

#[test]
fn capture_of_no_fresh_press_is_none() {
    let events = vec![
        press(Some(Keycode::A), true, true, false, false),
        press(Some(Keycode::B), false, false, true, false),
    ];
    assert_eq!(first_captured_chord(&events), None);
    assert_eq!(first_captured_chord(&Vec::new()), None);
}

#[test]
fn capture_prompt_stays_up_across_frames() {
    let mut s = HotkeyEdit::for_sound(None);
    assert!(!s.enabled && !s.capturing);
    hotkey_edit_step(&mut s, HotkeyEditEvent::EnabledToggled(true));
    hotkey_edit_step(&mut s, HotkeyEditEvent::BindClicked);
    for _ in 0..5 {
        hotkey_edit_step(&mut s, HotkeyEditEvent::Frame);
        assert!(s.capturing);
    }
    hotkey_edit_step(&mut s, HotkeyEditEvent::Captured("F5".to_string()));
    assert!(!s.capturing);
    assert_eq!(s.hotkey, Some("F5".to_string()));
    assert!(s.enabled);
}

#[test]
fn capture_ends_on_escape_cancel_or_untick() {
    let mut s = HotkeyEdit::for_sound(Some("F1".to_string()));
    assert!(s.enabled);
    hotkey_edit_step(&mut s, HotkeyEditEvent::BindClicked);
    hotkey_edit_step(&mut s, HotkeyEditEvent::EscapePressed);
    assert!(!s.capturing);
    assert_eq!(s.hotkey, Some("F1".to_string()));

    hotkey_edit_step(&mut s, HotkeyEditEvent::BindClicked);
    hotkey_edit_step(&mut s, HotkeyEditEvent::CancelClicked);
    assert!(!s.capturing);

    hotkey_edit_step(&mut s, HotkeyEditEvent::BindClicked);
    hotkey_edit_step(&mut s, HotkeyEditEvent::EnabledToggled(false));
    assert!(!s.capturing && !s.enabled);
    assert_eq!(s.hotkey, Some("F1".to_string()));
}

#[test]
fn chord_outside_capture_is_ignored_and_clear_drops_hotkey() {
    let mut s = HotkeyEdit::for_sound(Some("F1".to_string()));
    hotkey_edit_step(&mut s, HotkeyEditEvent::Captured("F2".to_string()));
    assert_eq!(s.hotkey, Some("F1".to_string()));
    hotkey_edit_step(&mut s, HotkeyEditEvent::BindClicked);
    hotkey_edit_step(&mut s, HotkeyEditEvent::ClearClicked);
    assert!(s.capturing);
    assert_eq!(s.hotkey, None);
}

#[test]
fn manager_keeps_one_binding_per_sound_without_preconditions() {
    let mut m = HotkeyManager::new();
    assert!(m.bind("F1", "a").is_ok());
    assert!(m.bind("F2", "a").is_ok());
    assert_eq!(m.bind("F2", "b"), Err(HotkeyError::AlreadyAssigned));
    let fired = m.poll_triggered(&vec![Keycode::F2]);
    assert_eq!(fired, vec!["a".to_string()]);
    let fired = m.poll_triggered(&vec![Keycode::F1]);
    assert!(fired.is_empty());
}
