//! Core data models: sounds, categories, presets, settings and playback state,
//! with their identifiers and timestamps.
//!
//! Volumes and durations are `f32` values in the application; the library keeps
//! them as their IEEE-754 bit patterns (`f32::to_bits`), which it stores and copies
//! but never computes with.

use vstd::prelude::*;
use crate::text::{chars_of, unicode_uppercase, to_uppercase};

verus! {

// ───────────────────────── identifiers ─────────────────────────

pub open spec fn is_lower_hex_digit(c: char) -> bool {
    ('0' <= c && c <= '9') || ('a' <= c && c <= 'f')
}

/// The text of a random (version 4) UUID in hyphenated lowercase form, e.g.
/// `67e55044-10b1-426f-9247-bb680e5fe0c8`.
pub open spec fn is_uuid_v4_text(s: Seq<char>) -> bool {
    &&& s.len() == 36
    &&& forall|i: int|
        0 <= i < 36 ==> (if i == 8 || i == 13 || i == 18 || i == 23 {
            #[trigger] s[i] == '-'
        } else {
            is_lower_hex_digit(s[i])
        })
    &&& s[14] == '4'
    &&& (s[19] == '8' || s[19] == '9' || s[19] == 'a' || s[19] == 'b')
}

/// A fresh random identifier: `uuid::Uuid::new_v4()` written with its `Display`
/// impl. Trusted: the uuid crate sets the version nibble to 4 and the variant bits
/// to `10`, and `Display` writes the 16 bytes as lowercase hex in 8-4-4-4-12 groups;
/// which random value comes out is not stated.
#[verifier::external_body]
fn new_uuid_text() -> (res: String)
    ensures
        is_uuid_v4_text(res@),
{
    uuid::Uuid::new_v4().to_string()
}

/// A fresh random id for a sound, category or preset.
pub fn gen_id() -> (res: String)
    ensures
        is_uuid_v4_text(res@),
{
    new_uuid_text()
}

// ───────────────────────── time ─────────────────────────

/// std's `SystemTime`, carried through opaquely from the clock to the epoch check.
#[verifier::external_type_specification]
#[verifier::external_body]
pub struct ExSystemTime(std::time::SystemTime);

/// std's `SystemTime::now`. Trusted, with nothing stated: the clock decides.
#[verifier::external_body]
fn system_now() -> std::time::SystemTime {
    std::time::SystemTime::now()
}

/// std's `SystemTime::duration_since(UNIX_EPOCH)`, with its error turned into
/// `None` (a clock set before 1970). Trusted, with nothing stated of the duration.
#[verifier::external_body]
fn since_unix_epoch(t: &std::time::SystemTime) -> Option<std::time::Duration> {
    t.duration_since(std::time::UNIX_EPOCH).ok()
}

/// std's `Duration::as_millis`. Trusted, with nothing stated: the duration is
/// opaque here, so no clause can relate the count to it.
#[verifier::external_body]
fn duration_millis(d: &std::time::Duration) -> u128 {
    d.as_millis()
}

/// The timestamp for a number of milliseconds since the epoch: the count cast to
/// `i64` (wrapping, as `as` does), or 0 when the clock is before the epoch.
pub fn timestamp_from_millis(ms: Option<u128>) -> (t: i64)
    ensures
        t == match ms {
            Some(m) => m as i64,
            None => 0i64,
        },
{
    match ms {
        Some(m) => m as i64,
        None => 0,
    }
}

/// Timestamp in milliseconds since the Unix epoch (0 if the clock is before it).
pub fn now_ms() -> i64 {
    let now = system_now();
    let ms = match since_unix_epoch(&now) {
        Some(d) => Some(duration_millis(&d)),
        None => None,
    };
    timestamp_from_millis(ms)
}

// ───────────────────────── volumes ─────────────────────────

/// `1.0f32.to_bits()`: full volume.
pub const UNIT_VOLUME_BITS: u32 = 0x3F80_0000u32;

/// `0.8f32.to_bits()`: the default master volume.
pub const DEFAULT_MASTER_VOLUME_BITS: u32 = 0x3F4C_CCCDu32;

/// The color that categories get unless one is chosen (ARGB).
pub const DEFAULT_CATEGORY_COLOR: u32 = 0xFF67_50A4u32;

// ───────────────────────── sounds ─────────────────────────

/// A single sound file in the soundpad.
#[derive(Clone, Debug)]
pub struct SoundFile {
    pub id: String,
    pub name: String,
    pub file_path: String,
    /// Duration in seconds, as `f32` bits.
    pub duration_bits: u32,
    /// Per-sound volume 0.0..=1.0, as `f32` bits.
    pub volume_bits: u32,
    /// e.g. "F1", "Ctrl+Shift+1".
    pub hotkey: Option<String>,
    pub category_id: String,
    pub looped: bool,
    pub created_at: i64,
    pub hotkey_enabled: bool,
}

/// The mathematical content of a `SoundFile`.
pub struct SoundView {
    pub id: Seq<char>,
    pub name: Seq<char>,
    pub file_path: Seq<char>,
    pub duration_bits: u32,
    pub volume_bits: u32,
    pub hotkey: Option<Seq<char>>,
    pub category_id: Seq<char>,
    pub looped: bool,
    pub created_at: i64,
    pub hotkey_enabled: bool,
}

pub open spec fn opt_view(o: Option<String>) -> Option<Seq<char>> {
    match o {
        Some(s) => Some(s@),
        None => None,
    }
}

impl View for SoundFile {
    type V = SoundView;

    open spec fn view(&self) -> SoundView {
        SoundView {
            id: self.id@,
            name: self.name@,
            file_path: self.file_path@,
            duration_bits: self.duration_bits,
            volume_bits: self.volume_bits,
            hotkey: opt_view(self.hotkey),
            category_id: self.category_id@,
            looped: self.looped,
            created_at: self.created_at,
            hotkey_enabled: self.hotkey_enabled,
        }
    }
}

impl DeepView for SoundFile {
    type V = SoundView;

    open spec fn deep_view(&self) -> SoundView {
        self@
    }
}

/// A copy of an optional text.
pub fn copy_opt(o: &Option<String>) -> (res: Option<String>)
    ensures
        res == *o,
{
    match o {
        Some(s) => Some(s.clone()),
        None => None,
    }
}

/// What `Path::file_name` gives back for a path: its last component, or nothing
/// when the path ends in `..` or has no components.
pub uninterp spec fn path_file_name(path: Seq<char>) -> Option<Seq<char>>;

/// std's `Path::file_name`, the name converted back to a `String`. Trusted: the
/// result is the name `path_file_name` applied to the path; the component rules
/// (which differ between platforms) are not restated.
#[verifier::external_body]
pub(crate) fn file_name_of(path: &str) -> (res: Option<String>)
    ensures
        opt_view(res) == path_file_name(path@),
{
    std::path::Path::new(path).file_name().map(|n| n.to_string_lossy().into_owned())
}

/// Index of the last `.` in `s`, or -1.
pub open spec fn last_dot(s: Seq<char>) -> int
    decreases s.len(),
{
    if s.len() == 0 {
        -1
    } else if s.last() == '.' {
        s.len() - 1
    } else {
        last_dot(s.drop_last())
    }
}

pub proof fn lemma_last_dot(s: Seq<char>)
    ensures
        -1 <= last_dot(s) < s.len(),
        last_dot(s) >= 0 ==> s[last_dot(s)] == '.',
        forall|k: int| last_dot(s) < k < s.len() ==> s[k] != '.',
    decreases s.len(),
{
    if s.len() > 0 && s.last() != '.' {
        lemma_last_dot(s.drop_last());
        assert forall|k: int| last_dot(s) < k < s.len() implies s[k] != '.' by {
            if k < s.len() - 1 {
                assert(s.drop_last()[k] == s[k]);
            }
        }
    }
}

/// The extension of a file name, as `Path::extension` documents it: nothing for
/// `..`, for a name without a `.`, or for a name whose only `.` is its first
/// character; otherwise the text after the last `.`.
pub open spec fn extension_of_name(name: Seq<char>) -> Option<Seq<char>> {
    if name == seq!['.', '.'] || last_dot(name) <= 0 {
        None
    } else {
        Some(name.skip(last_dot(name) + 1))
    }
}

/// The extension of a file name.
pub fn name_extension(name: &Vec<char>) -> (res: Option<Vec<char>>)
    ensures
        match res {
            Some(e) => extension_of_name(name@) == Some(e@),
            None => extension_of_name(name@) is None,
        },
{
    proof {
        lemma_last_dot(name@);
    }
    if name.len() == 2 && name[0] == '.' && name[1] == '.' {
        assert(name@ =~= seq!['.', '.']);
        return None;
    }
    let mut i: usize = name.len();
    while i > 0 && name[i - 1] != '.'
        invariant
            i <= name.len(),
            forall|k: int| i <= k < name.len() ==> name@[k] != '.',
        decreases i,
    {
        i -= 1;
    }
    // `i - 1` is the last dot, if `i > 0`.
    proof {
        lemma_last_dot(name@);
        if i > 0 {
            assert(last_dot(name@) == i - 1) by {
                if last_dot(name@) != i - 1 {
                    if last_dot(name@) > i - 1 {
                        assert(name@[last_dot(name@)] != '.');
                    } else {
                        assert(name@[i - 1] == '.');
                    }
                }
            }
        } else {
            assert(last_dot(name@) == -1) by {
                if last_dot(name@) >= 0 {
                    assert(name@[last_dot(name@)] != '.');
                }
            }
        }
    }
    if i <= 1 {
        return None;
    }
    let mut ext: Vec<char> = Vec::new();
    let mut k: usize = i;
    while k < name.len()
        invariant
            i <= k <= name.len(),
            ext@ == name@.subrange(i as int, k as int),
        decreases name.len() - k,
    {
        ext.push(name[k]);
        k += 1;
        assert(ext@ =~= name@.subrange(i as int, k as int));
    }
    assert(ext@ =~= name@.skip(i as int));
    Some(ext)
}

/// The uppercase extension shown for a sound's file: empty when the path has
/// no file name or the name no extension.
pub open spec fn shown_extension(path: Seq<char>) -> Seq<char> {
    match path_file_name(path) {
        Some(n) => match extension_of_name(n) {
            Some(e) => unicode_uppercase(e),
            None => Seq::empty(),
        },
        None => Seq::empty(),
    }
}

impl SoundFile {
    /// A new sound in a category: fresh id, full volume, no hotkey, not looped,
    /// duration 0, created now.
    pub fn new(name: &str, path: &str, category_id: &str) -> (s: SoundFile)
        ensures
            is_uuid_v4_text(s.id@),
            s.name@ == name@,
            s.file_path@ == path@,
            s.duration_bits == 0,
            s.volume_bits == UNIT_VOLUME_BITS,
            s.hotkey is None,
            s.category_id@ == category_id@,
            !s.looped,
            !s.hotkey_enabled,
    {
        SoundFile {
            id: gen_id(),
            name: name.to_owned(),
            file_path: path.to_owned(),
            duration_bits: 0,
            volume_bits: UNIT_VOLUME_BITS,
            hotkey: None,
            category_id: category_id.to_owned(),
            looped: false,
            created_at: now_ms(),
            hotkey_enabled: false,
        }
    }

    /// Uppercase file extension, e.g. "MP3".
    pub fn extension(&self) -> (res: String)
        ensures
            res@ == shown_extension(self.file_path@),
    {
        match file_name_of(self.file_path.as_str()) {
            Some(n) => {
                let chars = chars_of(n.as_str());
                match name_extension(&chars) {
                    Some(e) => {
                        let text = crate::text::string_of(&e);
                        to_uppercase(text.as_str())
                    },
                    None => String::new(),
                }
            },
            None => String::new(),
        }
    }

    /// Applies the edit dialog's choices: the volume, and the hotkey, which is
    /// enabled exactly when one is set.
    pub fn apply_edit(&mut self, volume_bits: u32, hotkey: Option<String>)
        ensures
            final(self).volume_bits == volume_bits,
            final(self).hotkey == hotkey,
            final(self).hotkey_enabled == hotkey.is_some(),
            final(self).id == old(self).id,
            final(self).name == old(self).name,
            final(self).file_path == old(self).file_path,
            final(self).duration_bits == old(self).duration_bits,
            final(self).category_id == old(self).category_id,
            final(self).looped == old(self).looped,
            final(self).created_at == old(self).created_at,
    {
        self.volume_bits = volume_bits;
        self.hotkey_enabled = hotkey.is_some();
        self.hotkey = hotkey;
    }

    /// A copy of this sound.
    pub fn duplicate(&self) -> (res: SoundFile)
        ensures
            res == *self,
    {
        SoundFile {
            id: self.id.clone(),
            name: self.name.clone(),
            file_path: self.file_path.clone(),
            duration_bits: self.duration_bits,
            volume_bits: self.volume_bits,
            hotkey: copy_opt(&self.hotkey),
            category_id: self.category_id.clone(),
            looped: self.looped,
            created_at: self.created_at,
            hotkey_enabled: self.hotkey_enabled,
        }
    }
}

// ───────────────────────── categories ─────────────────────────

/// Category for organizing sounds.
#[derive(Clone, Debug)]
pub struct SoundCategory {
    pub id: String,
    pub name: String,
    /// Built-in icon name ("folder", "emoji", "notifications", "music", "star", ...).
    pub icon: String,
    pub color: u32,
    pub order: i32,
    /// Path to a custom icon image.
    pub custom_icon_path: Option<String>,
}

/// The mathematical content of a `SoundCategory`.
pub struct CategoryView {
    pub id: Seq<char>,
    pub name: Seq<char>,
    pub icon: Seq<char>,
    pub color: u32,
    pub order: i32,
    pub custom_icon_path: Option<Seq<char>>,
}

impl View for SoundCategory {
    type V = CategoryView;

    open spec fn view(&self) -> CategoryView {
        CategoryView {
            id: self.id@,
            name: self.name@,
            icon: self.icon@,
            color: self.color,
            order: self.order,
            custom_icon_path: opt_view(self.custom_icon_path),
        }
    }
}

impl DeepView for SoundCategory {
    type V = CategoryView;

    open spec fn deep_view(&self) -> CategoryView {
        self@
    }
}

/// A category as `SoundCategory::new` makes it.
pub open spec fn category_spec(id: Seq<char>, name: Seq<char>, icon: Seq<char>, order: i32) -> CategoryView {
    CategoryView {
        id,
        name,
        icon,
        color: DEFAULT_CATEGORY_COLOR,
        order,
        custom_icon_path: None,
    }
}

impl SoundCategory {
    /// A category with the default color and no custom icon.
    pub fn new(id: &str, name: &str, icon: &str, order: i32) -> (c: SoundCategory)
        ensures
            c@ == category_spec(id@, name@, icon@, order),
    {
        SoundCategory {
            id: id.to_owned(),
            name: name.to_owned(),
            icon: icon.to_owned(),
            color: DEFAULT_CATEGORY_COLOR,
            order,
            custom_icon_path: None,
        }
    }

    /// A copy of this category.
    pub fn duplicate(&self) -> (res: SoundCategory)
        ensures
            res == *self,
    {
        SoundCategory {
            id: self.id.clone(),
            name: self.name.clone(),
            icon: self.icon.clone(),
            color: self.color,
            order: self.order,
            custom_icon_path: copy_opt(&self.custom_icon_path),
        }
    }
}

/// Default category of a sound: "default".
pub fn default_category() -> (res: String)
    ensures
        res@ == "default"@,
{
    "default".to_owned()
}

/// Default icon of a category: "folder".
pub fn default_icon() -> (res: String)
    ensures
        res@ == "folder"@,
{
    "folder".to_owned()
}

/// Default color of a category.
pub fn default_color() -> (res: u32)
    ensures
        res == DEFAULT_CATEGORY_COLOR,
{
    DEFAULT_CATEGORY_COLOR
}

// ───────────────────────── presets and settings ─────────────────────────

/// A saved collection of sounds and categories.
#[derive(Clone, Debug)]
pub struct Preset {
    pub id: String,
    pub name: String,
    pub description: String,
    pub sounds: Vec<SoundFile>,
    pub categories: Vec<SoundCategory>,
    pub created_at: i64,
    pub updated_at: i64,
}

/// Application settings.
#[derive(Clone, Debug)]
pub struct AppSettings {
    /// "default" or an output device name.
    pub output_device: String,
    /// Master volume, as `f32` bits.
    pub master_volume_bits: u32,
    pub dark_theme: bool,
    pub hotkeys_enabled: bool,
    pub minimize_to_tray: bool,
    pub auto_start: bool,
    pub virtual_cable_enabled: bool,
    pub grid_columns: usize,
}

impl AppSettings {
    /// A copy of these settings.
    pub fn duplicate(&self) -> (res: AppSettings)
        ensures
            res == *self,
    {
        AppSettings {
            output_device: self.output_device.clone(),
            master_volume_bits: self.master_volume_bits,
            dark_theme: self.dark_theme,
            hotkeys_enabled: self.hotkeys_enabled,
            minimize_to_tray: self.minimize_to_tray,
            auto_start: self.auto_start,
            virtual_cable_enabled: self.virtual_cable_enabled,
            grid_columns: self.grid_columns,
        }
    }
}

impl Default for AppSettings {
    fn default() -> (s: AppSettings)
        ensures
            s.output_device@ == "default"@,
            s.master_volume_bits == DEFAULT_MASTER_VOLUME_BITS,
            s.dark_theme,
            s.hotkeys_enabled,
            !s.minimize_to_tray,
            !s.auto_start,
            !s.virtual_cable_enabled,
            s.grid_columns == 4,
    {
        AppSettings {
            output_device: "default".to_owned(),
            master_volume_bits: DEFAULT_MASTER_VOLUME_BITS,
            dark_theme: true,
            hotkeys_enabled: true,
            minimize_to_tray: false,
            auto_start: false,
            virtual_cable_enabled: false,
            grid_columns: 4,
        }
    }
}

/// Playback state of a sound.
#[derive(Clone, Copy, PartialEq, Eq, Debug, Structural)]
pub enum PlaybackState {
    Stopped,
    Playing,
    Paused,
}

} // verus!
