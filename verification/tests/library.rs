use soundpad::interface::{
    builtin_icon, dialog_step, filter_sounds, format_clock, new_category, sidebar_categories,
    sounds_in_category, trimmed_input, Dialog, DialogAction, DialogEvent, DialogState,
};
use soundpad::models::{
    default_category, default_color, default_icon, gen_id, now_ms, timestamp_from_millis,
    AppSettings, PlaybackState, SoundCategory, SoundFile, DEFAULT_CATEGORY_COLOR,
    DEFAULT_MASTER_VOLUME_BITS, UNIT_VOLUME_BITS,
};
use soundpad::playback::{
    device_names, is_playing_state, needs_restart, output_device_choice, playback_state,
};
use soundpad::store::{
    app_dir_for, default_categories, portable_file_name, presets_dir_for, portable_file_name_at, preset_file_name, preset_names,
    sanitize, Store,
};

#[test]
fn sanitize_replaces_special_chars() {
    assert_eq!(sanitize("My Preset! v2"), "my_preset__v2");
}

#[test]
fn sound_file_extension_uppercases() {
    let s = SoundFile::new("test", "foo/bar.mp3", "default");
    assert_eq!(s.extension(), "MP3");
}

#[test]
fn formats_time() {
    assert_eq!(format_clock(0.0f32.max(0.0) as u64), "0:00");
    assert_eq!(format_clock(65.0f32.max(0.0) as u64), "1:05");
    assert_eq!(format_clock(600.5f32.max(0.0) as u64), "10:00");
}

#[test]
fn icon_names_map() {
    assert_eq!(builtin_icon("music"), "🎵");
    assert_eq!(builtin_icon("unknown"), "📁");
}

#[test]
fn playback_state_default_is_stopped() {
    let s = PlaybackState::Stopped;
    assert_ne!(s, PlaybackState::Playing);
}

#[test]
fn icon_names_cover_every_glyph() {
    assert_eq!(builtin_icon("emoji"), "😀");
    assert_eq!(builtin_icon("notifications"), "🔔");
    assert_eq!(builtin_icon("music_note"), "🎵");
    assert_eq!(builtin_icon("star"), "⭐");
    assert_eq!(builtin_icon("voice"), "🎙");
    assert_eq!(builtin_icon("sfx"), "🔊");
    assert_eq!(builtin_icon("Music"), "📁");
}

#[test]
fn clock_pads_seconds() {
    assert_eq!(format_clock(9), "0:09");
    assert_eq!(format_clock(3599), "59:59");
    assert_eq!(format_clock(3600), "60:00");
}

#[test]
fn new_sound_defaults() {
    let s = SoundFile::new("Boom", "C:/x/boom.wav", "memes");
    assert_eq!(s.id.len(), 36);
    assert_eq!(s.id.chars().nth(14), Some('4'));
    assert_eq!(s.name, "Boom");
    assert_eq!(s.file_path, "C:/x/boom.wav");
    assert_eq!(s.category_id, "memes");
    assert_eq!(f32::from_bits(s.volume_bits), 1.0);
    assert_eq!(f32::from_bits(s.duration_bits), 0.0);
    assert!(s.hotkey.is_none() && !s.looped && !s.hotkey_enabled);
    assert!(s.created_at > 0);
    let t = SoundFile::new("Boom", "C:/x/boom.wav", "memes");
    assert_ne!(s.id, t.id);
}

#[test]
fn ids_are_v4_uuids() {
    let id = gen_id();
    assert_eq!(id.len(), 36);
    for (i, c) in id.chars().enumerate() {
        if i == 8 || i == 13 || i == 18 || i == 23 {
            assert_eq!(c, '-');
        } else {
            assert!(c.is_ascii_hexdigit() && !c.is_ascii_uppercase());
        }
    }
    assert_eq!(id.chars().nth(14), Some('4'));
    assert!("89ab".contains(id.chars().nth(19).unwrap()));
}

#[test]
fn timestamps() {
    assert_eq!(timestamp_from_millis(None), 0);
    assert_eq!(timestamp_from_millis(Some(1_700_000_000_123)), 1_700_000_000_123);
    assert_eq!(timestamp_from_millis(Some(1u128 << 64)), 0);
    assert!(now_ms() > 1_600_000_000_000);
}

#[test]
fn extensions_follow_path_rules() {
    let mut s = SoundFile::new("x", "dir.d/noext", "default");
    assert_eq!(s.extension(), "");
    s.file_path = ".hidden".to_string();
    assert_eq!(s.extension(), "");
    s.file_path = "a/b.tar.gz".to_string();
    assert_eq!(s.extension(), "GZ");
    s.file_path = "song.straße".to_string();
    assert_eq!(s.extension(), "STRASSE");
    s.file_path = "a/..".to_string();
    assert_eq!(s.extension(), "");
    s.file_path = "trailing.".to_string();
    assert_eq!(s.extension(), "");
}

#[test]
fn category_and_settings_defaults() {
    let c = SoundCategory::new("memes", "Memes", "emoji", 1);
    assert_eq!(c.color, 0xFF6750A4);
    assert_eq!(c.order, 1);
    assert!(c.custom_icon_path.is_none());
    assert_eq!(default_category(), "default");
    assert_eq!(default_icon(), "folder");
    assert_eq!(default_color(), DEFAULT_CATEGORY_COLOR);
    let s = AppSettings::default();
    assert_eq!(s.output_device, "default");
    assert_eq!(f32::from_bits(s.master_volume_bits), 0.8);
    assert_eq!(f32::from_bits(DEFAULT_MASTER_VOLUME_BITS), 0.8);
    assert_eq!(f32::from_bits(UNIT_VOLUME_BITS), 1.0);
    assert!(s.dark_theme && s.hotkeys_enabled);
    assert!(!s.minimize_to_tray && !s.auto_start && !s.virtual_cable_enabled);
    assert_eq!(s.grid_columns, 4);
}

#[test]
fn default_category_set() {
    let cats = default_categories();
    let ids: Vec<&str> = cats.iter().map(|c| c.id.as_str()).collect();
    assert_eq!(ids, vec!["default", "memes", "alerts", "music", "voice", "sfx", "custom"]);
    assert_eq!(cats[5].name, "Sound Effects");
    assert_eq!(cats[2].icon, "notifications");
    assert_eq!(cats[6].order, 6);
}

fn sound(id: &str, name: &str, path: &str, cat: &str) -> SoundFile {
    let mut s = SoundFile::new(name, path, cat);
    s.id = id.to_string();
    s
}

fn store_with(sounds: Vec<SoundFile>) -> Store {
    Store::init(sounds, Vec::new(), AppSettings::default())
}

#[test]
fn init_seeds_categories_only_when_empty() {
    let s = store_with(vec![]);
    assert_eq!(s.categories.len(), 7);
    let t = Store::init(vec![], vec![SoundCategory::new("x", "X", "star", 0)], AppSettings::default());
    assert_eq!(t.categories.len(), 1);
    assert_eq!(t.categories[0].id, "x");
}

#[test]
fn store_sound_operations() {
    let mut st = store_with(vec![sound("a", "A", "a.wav", "default")]);
    st.add_sound(sound("b", "B", "b.wav", "memes"));
    assert_eq!(st.get_sound("b").unwrap().name, "B");
    assert!(st.get_sound("zz").is_none());
    st.update_sound(sound("b", "B2", "b.wav", "music"));
    assert_eq!(st.get_sound("b").unwrap().name, "B2");
    assert_eq!(st.sounds.len(), 2);
    // an update for an unknown id changes nothing
    st.update_sound(sound("q", "Q", "q.wav", "music"));
    assert_eq!(st.sounds.len(), 2);
    assert!(st.get_sound("q").is_none());
    st.add_sound(sound("a", "A-dup", "c.wav", "default"));
    assert_eq!(st.get_sound("a").unwrap().name, "A");
    st.remove_sound("a");
    assert!(st.get_sound("a").is_none());
    assert_eq!(st.sounds.len(), 1);
}

#[test]
fn removing_a_category_moves_its_sounds() {
    let mut st = store_with(vec![
        sound("a", "A", "a.wav", "memes"),
        sound("b", "B", "b.wav", "music"),
    ]);
    st.remove_category("memes");
    assert!(st.categories.iter().all(|c| c.id != "memes"));
    assert_eq!(st.categories.len(), 6);
    assert_eq!(st.get_sound("a").unwrap().category_id, "default");
    assert_eq!(st.get_sound("b").unwrap().category_id, "music");
    st.add_category(SoundCategory::new("new", "New", "star", 6));
    assert_eq!(st.categories.last().unwrap().id, "new");
}

#[test]
fn presets_snapshot_and_load() {
    let mut st = store_with(vec![sound("a", "A", "a.wav", "memes")]);
    let p = st.preset_snapshot("Mine", "desc");
    assert_eq!(p.name, "Mine");
    assert_eq!(p.description, "desc");
    assert_eq!(p.sounds.len(), 1);
    assert_eq!(p.categories.len(), 7);
    assert_eq!(p.id.len(), 36);
    st.remove_sound("a");
    st.remove_category("memes");
    st.load_preset(p);
    assert_eq!(st.sounds.len(), 1);
    assert_eq!(st.categories.len(), 7);
    // a preset without categories keeps the current ones
    let mut empty = st.preset_snapshot("x", "");
    empty.categories = Vec::new();
    empty.sounds = Vec::new();
    st.load_preset(empty);
    assert!(st.sounds.is_empty());
    assert_eq!(st.categories.len(), 7);
}

#[test]
fn sanitize_turns_dots_into_underscores() {
    assert_eq!(sanitize("name.json"), "name_json");
}

#[test]
fn preset_files_and_listing() {
    assert_eq!(preset_file_name("My Preset! v2"), "my_preset__v2.json");
    assert_eq!(sanitize("ÄbC-1_ü"), "_bc-1__");
    let files = vec![
        "zeta.json".to_string(),
        "notes.txt".to_string(),
        ".json".to_string(),
        "alpha.json".to_string(),
        "a.b.json".to_string(),
        "Beta.json".to_string(),
        "json".to_string(),
    ];
    assert_eq!(preset_names(&files), vec!["Beta", "a.b", "alpha", "zeta"]);
    let saved = preset_file_name("Road Trip");
    let names = preset_names(&vec![saved]);
    assert_eq!(names, vec![sanitize("Road Trip")]);
    assert_eq!(sanitize(&sanitize("Road Trip")), sanitize("Road Trip"));
}

#[test]
fn portable_names() {
    assert_eq!(portable_file_name_at(123, 5, Some("boom.wav")), "123_boom.wav");
    assert_eq!(portable_file_name_at(-7, 5, None), "-7_sound_5");
    assert_eq!(portable_file_name_at(i64::MIN, 0, None), "-9223372036854775808_sound_0");
    let n = portable_file_name("/drop/here/x.mp3");
    assert!(n.ends_with("_x.mp3"));
    assert!(!n.contains('/'));
    let bare = portable_file_name("/");
    assert!(bare.contains("_sound_"));
    assert!(n.split('_').next().unwrap().parse::<i64>().is_ok());
}

#[test]
fn grid_filter_and_counts() {
    let sounds = vec![
        sound("a", "Airhorn", "sounds/horn.mp3", "memes"),
        sound("b", "Bell", "sounds/DING.wav", "alerts"),
        sound("c", "ÉCHO", "sounds/echo.ogg", "memes"),
    ];
    let all = filter_sounds(&sounds, None, "");
    assert_eq!(all.len(), 3);
    let memes = filter_sounds(&sounds, Some("memes"), "");
    assert_eq!(memes.iter().map(|s| s.id.as_str()).collect::<Vec<_>>(), vec!["a", "c"]);
    let ding = filter_sounds(&sounds, None, "ding");
    assert_eq!(ding.len(), 1);
    assert_eq!(ding[0].id, "b");
    let echo = filter_sounds(&sounds, Some("memes"), "éch");
    assert_eq!(echo.len(), 1);
    assert_eq!(echo[0].id, "c");
    assert!(filter_sounds(&sounds, Some("alerts"), "horn").is_empty());
    assert_eq!(sounds_in_category(&sounds, "memes"), 2);
    assert_eq!(sounds_in_category(&sounds, "none"), 0);
}

#[test]
fn dialog_inputs() {
    assert_eq!(trimmed_input("  Quotes \n"), Some("Quotes".to_string()));
    assert_eq!(trimmed_input(" \t "), None);
    let c = new_category("  Big Laughs ", "star", 7).unwrap();
    assert_eq!(c.id, "big_laughs");
    assert_eq!(c.name, "Big Laughs");
    assert_eq!(c.icon, "star");
    assert_eq!(c.order, 7);
    assert!(new_category("   ", "star", 7).is_none());
    let cats = default_categories();
    let side = sidebar_categories(&cats);
    assert_eq!(side.len(), 6);
    assert_eq!(side[0].id, "memes");
}

#[test]
fn playback_decisions() {
    assert_eq!(playback_state(false, false, false), PlaybackState::Stopped);
    assert_eq!(playback_state(true, true, false), PlaybackState::Stopped);
    assert_eq!(playback_state(true, false, true), PlaybackState::Paused);
    assert_eq!(playback_state(true, false, false), PlaybackState::Playing);
    assert!(is_playing_state(PlaybackState::Playing));
    assert!(!is_playing_state(PlaybackState::Paused));
    assert_eq!(output_device_choice("DeFaUlT"), None);
    assert_eq!(output_device_choice("Speakers"), Some("Speakers".to_string()));
    let found = vec!["Speakers".to_string(), "default".to_string(), "Headset".to_string(), "Speakers".to_string()];
    assert_eq!(device_names(&found), vec!["default", "Speakers", "Headset"]);
    assert!(needs_restart(true, true));
    assert!(!needs_restart(true, false));
    assert!(!needs_restart(false, true));
}

#[test]
fn app_dir_is_exe_dir_in_release() {
    assert_eq!(app_dir_for(Some("/opt/soundpad"), Some("/home/u")), "/opt/soundpad");
    assert_eq!(app_dir_for(Some("/opt/soundpad"), None), "/opt/soundpad");
}

#[test]
fn app_dir_is_cwd_under_cargo_build_dirs() {
    assert_eq!(app_dir_for(Some("/src/sp/target/debug"), Some("/src/sp")), "/src/sp");
    assert_eq!(app_dir_for(Some("/src/sp/target/release"), Some("/src/sp")), "/src/sp");
    assert_eq!(app_dir_for(Some("/src/sp/target/debug/deps"), Some("/src/sp")), "/src/sp");
    assert_eq!(app_dir_for(Some("/src/sp/target/debug"), None), "/src/sp/target/debug");
    assert_eq!(app_dir_for(Some("/x/debugger"), Some("/src/sp")), "/x/debugger");
}

#[test]
fn app_dir_without_exe_dir() {
    assert_eq!(app_dir_for(None, Some("/home/u")), "/home/u");
    assert_eq!(app_dir_for(None, None), ".");
}

#[test]
fn presets_dir_is_under_home() {
    assert_eq!(presets_dir_for(Some("/home/u")), "/home/u/.soundpad-rs/presets");
    assert_eq!(presets_dir_for(None), "./.soundpad-rs/presets");
}

fn dialogs() -> DialogState {
    DialogState::new()
}

#[test]
fn deleting_a_sound_stops_unbinds_and_removes_it() {
    let mut d = dialogs();
    assert!(dialog_step(&mut d, DialogEvent::Open(Dialog::DeleteSound("s1".into()))).is_empty());
    let acts = dialog_step(&mut d, DialogEvent::Confirmed);
    assert!(matches!(d.dialog, Dialog::Closed));
    assert_eq!(acts.len(), 3);
    assert!(matches!(&acts[0], DialogAction::StopSound(id) if id == "s1"));
    assert!(matches!(&acts[1], DialogAction::UnbindSound(id) if id == "s1"));
    assert!(matches!(&acts[2], DialogAction::RemoveSound(id) if id == "s1"));
}

#[test]
fn deleting_the_selected_category_clears_the_selection() {
    let mut d = dialogs();
    d.selected_category = Some("memes".into());
    dialog_step(&mut d, DialogEvent::Open(Dialog::DeleteCategory("memes".into())));
    let acts = dialog_step(&mut d, DialogEvent::Confirmed);
    assert!(matches!(&acts[..], [DialogAction::RemoveCategory(id)] if id == "memes"));
    assert_eq!(d.selected_category, None);

    d.selected_category = Some("sfx".into());
    dialog_step(&mut d, DialogEvent::Open(Dialog::DeleteCategory("memes".into())));
    dialog_step(&mut d, DialogEvent::Confirmed);
    assert_eq!(d.selected_category, Some("sfx".to_string()));
}

#[test]
fn dismissing_a_dialog_does_nothing_else() {
    let mut d = dialogs();
    dialog_step(&mut d, DialogEvent::Open(Dialog::DeleteSound("s1".into())));
    assert!(dialog_step(&mut d, DialogEvent::Dismissed).is_empty());
    assert!(matches!(d.dialog, Dialog::Closed));
    assert!(dialog_step(&mut d, DialogEvent::Confirmed).is_empty());
}

#[test]
fn creating_a_category_adds_it_and_resets_the_inputs() {
    let mut d = dialogs();
    dialog_step(&mut d, DialogEvent::Open(Dialog::NewCategory));
    d.new_cat_name = "   ".into();
    assert!(dialog_step(&mut d, DialogEvent::CreateCategory { existing: 3 }).is_empty());
    assert!(matches!(d.dialog, Dialog::NewCategory));
    d.new_cat_name = "  My Memes ".into();
    d.new_cat_icon = "star".into();
    let acts = dialog_step(&mut d, DialogEvent::CreateCategory { existing: 3 });
    match &acts[..] {
        [DialogAction::AddCategory(c)] => {
            assert_eq!(c.id, "my_memes");
            assert_eq!(c.name, "My Memes");
            assert_eq!(c.icon, "star");
            assert_eq!(c.order, 3);
        }
        _ => panic!("expected one category"),
    }
    assert!(matches!(d.dialog, Dialog::Closed));
    assert_eq!(d.new_cat_name, "");
    assert_eq!(d.new_cat_icon, "folder");
}

#[test]
fn preset_dialog_passes_trimmed_names_on() {
    let mut d = dialogs();
    dialog_step(&mut d, DialogEvent::Open(Dialog::Presets));
    d.preset_name = "  gaming ".into();
    let acts = dialog_step(&mut d, DialogEvent::SavePreset);
    assert!(matches!(&acts[..], [DialogAction::SavePreset(n)] if n == "gaming"));
    assert_eq!(d.preset_name, "");
    assert!(dialog_step(&mut d, DialogEvent::SavePreset).is_empty());
    let acts = dialog_step(&mut d, DialogEvent::LoadPreset("gaming".into()));
    assert!(matches!(&acts[..], [DialogAction::LoadPreset(n)] if n == "gaming"));
    let acts = dialog_step(&mut d, DialogEvent::DeletePreset("old".into()));
    assert!(matches!(&acts[..], [DialogAction::DeletePreset(n)] if n == "old"));
    dialog_step(&mut d, DialogEvent::Dismissed);
    assert!(dialog_step(&mut d, DialogEvent::LoadPreset("gaming".into())).is_empty());
}
