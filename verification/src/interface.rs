//! What the user interface shows and accepts: category icons, time labels, the
//! sound grid filter, category counts, the input rules of the dialogs and what
//! each dialog does with a click.

use vstd::prelude::*;
use crate::models::{category_spec, opt_view, CategoryView, SoundCategory, SoundFile, SoundView};
use crate::store::{category_views, opt_str_view, sound_views, str_eq_string};
use crate::text::{
    chars_of, contains_chars, decimal_digits, has_substring, push_char, push_decimal,
    push_two_digits, string_of, to_lowercase, trim, trimmed, two_digit_text, unicode_lowercase,
};

verus! {

/// The glyph shown for a built-in icon name.
pub open spec fn icon_glyph(name: Seq<char>) -> Seq<char> {
    if name == "emoji"@ {
        "😀"@
    } else if name == "notifications"@ {
        "🔔"@
    } else if name == "music"@ || name == "music_note"@ {
        "🎵"@
    } else if name == "star"@ {
        "⭐"@
    } else if name == "voice"@ {
        "🎙"@
    } else if name == "sfx"@ {
        "🔊"@
    } else {
        "📁"@
    }
}

/// The glyph for a category icon name (a folder for unknown names).
pub fn builtin_icon(name: &str) -> (res: &'static str)
    ensures
        res@ == icon_glyph(name@),
{
    let n = chars_of(name);
    if crate::text::chars_eq_str(&n, "emoji") {
        "😀"
    } else if crate::text::chars_eq_str(&n, "notifications") {
        "🔔"
    } else if crate::text::chars_eq_str(&n, "music") || crate::text::chars_eq_str(&n, "music_note") {
        "🎵"
    } else if crate::text::chars_eq_str(&n, "star") {
        "⭐"
    } else if crate::text::chars_eq_str(&n, "voice") {
        "🎙"
    } else if crate::text::chars_eq_str(&n, "sfx") {
        "🔊"
    } else {
        "📁"
    }
}

/// "m:ss" for a whole number of seconds.
pub open spec fn clock_text(secs: nat) -> Seq<char> {
    decimal_digits(secs / 60) + seq![':'] + two_digit_text(secs % 60)
}

/// Formats whole seconds as minutes and two-digit seconds ("1:05").
pub fn format_clock(secs: u64) -> (res: String)
    ensures
        res@ == clock_text(secs as nat),
{
    let mut out = String::new();
    push_decimal(&mut out, secs / 60);
    push_char(&mut out, ':');
    push_two_digits(&mut out, secs % 60);
    assert(out@ =~= clock_text(secs as nat));
    out
}

/// A sound is shown for the selected category (all sounds when none is selected).
pub open spec fn in_selection(s: SoundView, selected: Option<Seq<char>>) -> bool {
    match selected {
        None => true,
        Some(id) => s.category_id == id,
    }
}

/// A sound matches a lowercased search text: the text is empty, or it occurs in
/// the lowercased name or the lowercased file path.
pub open spec fn matches_search(s: SoundView, q: Seq<char>) -> bool {
    q.len() == 0 || has_substring(unicode_lowercase(s.name), q) || has_substring(
        unicode_lowercase(s.file_path),
        q,
    )
}

/// The sounds shown in the grid, in library order.
pub open spec fn shown_sounds(v: Seq<SoundView>, selected: Option<Seq<char>>, q: Seq<char>) -> Seq<
    SoundView,
>
    decreases v.len(),
{
    if v.len() == 0 {
        v
    } else {
        let rest = shown_sounds(v.drop_last(), selected, q);
        if in_selection(v.last(), selected) && matches_search(v.last(), q) {
            rest.push(v.last())
        } else {
            rest
        }
    }
}

/// The sounds of the selected category (or all) whose name or path contains the
/// search text, ignoring case.
pub fn filter_sounds(sounds: &Vec<SoundFile>, selected: Option<&str>, search: &str) -> (res: Vec<
    SoundFile,
>)
    ensures
        sound_views(res@) == shown_sounds(
            sound_views(sounds@),
            opt_str_view(selected),
            unicode_lowercase(search@),
        ),
{
    let q_text = to_lowercase(search);
    let q = chars_of(q_text.as_str());
    let ghost v = sound_views(sounds@);
    let ghost sel = opt_str_view(selected);
    let mut out: Vec<SoundFile> = Vec::new();
    let mut i: usize = 0;
    assert(v.take(0) =~= Seq::<SoundView>::empty());
    while i < sounds.len()
        invariant
            i <= sounds.len(),
            v == sound_views(sounds@),
            sel == opt_str_view(selected),
            q@ == unicode_lowercase(search@),
            sound_views(out@) == shown_sounds(v.take(i as int), sel, q@),
        decreases sounds.len() - i,
    {
        assert(v.take(i + 1).drop_last() =~= v.take(i as int));
        assert(v.take(i + 1).last() == sounds@[i as int]@);
        let s = &sounds[i];
        let cat_ok = match selected {
            None => true,
            Some(id) => str_eq_string(&s.category_id, id),
        };
        let search_ok = if q.len() == 0 {
            true
        } else {
            let name = to_lowercase(s.name.as_str());
            let name_chars = chars_of(name.as_str());
            if contains_chars(&name_chars, &q) {
                true
            } else {
                let path = to_lowercase(s.file_path.as_str());
                let path_chars = chars_of(path.as_str());
                contains_chars(&path_chars, &q)
            }
        };
        if cat_ok && search_ok {
            let c = s.duplicate();
            let ghost prev = out@;
            out.push(c);
            assert(out@ == prev.push(c));
            assert(sound_views(out@) =~= sound_views(prev).push(c@));
        }
        i += 1;
    }
    assert(v.take(sounds.len() as int) =~= v);
    out
}

/// With a category selected, the grid shows exactly the sounds of that category
/// whose lowercased name or path contains the (lowercased) search text, or all of
/// them for an empty search: every shown sound is one of the
/// library, belongs to the category and matches the search, and every such sound
/// of the library is shown. With none selected, every sound that matches is shown.
pub proof fn law_filter_shows_the_selected_category(
    v: Seq<SoundView>,
    selected: Option<Seq<char>>,
    q: Seq<char>,
)
    ensures
        forall|j: int|
            0 <= j < shown_sounds(v, selected, q).len() ==> v.contains(
                #[trigger] shown_sounds(v, selected, q)[j],
            ) && (q.len() == 0 || has_substring(
                unicode_lowercase(shown_sounds(v, selected, q)[j].name),
                q,
            ) || has_substring(unicode_lowercase(shown_sounds(v, selected, q)[j].file_path), q)) && (selected matches Some(
                id,
            ) ==> shown_sounds(v, selected, q)[j].category_id == id),
        forall|j: int|
            0 <= j < v.len() && (selected matches Some(id) ==> (#[trigger] v[j]).category_id == id)
                && (q.len() == 0 || has_substring(unicode_lowercase(v[j].name), q) || has_substring(
                unicode_lowercase(v[j].file_path),
                q,
            )) ==> shown_sounds(v, selected, q).contains(v[j]),
    decreases v.len(),
{
    if v.len() > 0 {
        let rest = v.drop_last();
        law_filter_shows_the_selected_category(rest, selected, q);
        let r = shown_sounds(rest, selected, q);
        let out = shown_sounds(v, selected, q);
        assert forall|j: int| 0 <= j < out.len() implies v.contains(#[trigger] out[j])
            && matches_search(out[j], q) && (selected matches Some(id) ==> out[j].category_id
            == id) by {
            if j < r.len() {
                assert(out[j] == r[j]);
                let k = choose|k: int| 0 <= k < rest.len() && rest[k] == r[j];
                assert(v[k] == r[j]);
            } else {
                assert(out[j] == v.last());
                assert(v[v.len() - 1] == v.last());
            }
        }
        assert forall|j: int|
            0 <= j < v.len() && (selected matches Some(id) ==> (#[trigger] v[j]).category_id == id)
                && matches_search(v[j], q) implies out.contains(v[j]) by {
            if j < v.len() - 1 {
                assert(rest[j] == v[j]);
                assert(selected matches Some(id) ==> rest[j].category_id == id);
                assert(r.contains(v[j]));
                let k = choose|k: int| 0 <= k < r.len() && r[k] == v[j];
                assert(out[k] == r[k]);
            } else {
                assert(v[j] == v.last());
                assert(out[out.len() - 1] == v.last());
            }
        }
    }
}

/// How many sounds are in a category.
pub open spec fn count_in_category(v: Seq<SoundView>, id: Seq<char>) -> nat
    decreases v.len(),
{
    if v.len() == 0 {
        0
    } else {
        count_in_category(v.drop_last(), id) + if v.last().category_id == id {
            1nat
        } else {
            0nat
        }
    }
}

proof fn lemma_count_bounded(v: Seq<SoundView>, id: Seq<char>)
    ensures
        count_in_category(v, id) <= v.len(),
    decreases v.len(),
{
    if v.len() > 0 {
        lemma_count_bounded(v.drop_last(), id);
    }
}

/// The number shown next to a category in the sidebar.
pub fn sounds_in_category(sounds: &Vec<SoundFile>, category_id: &str) -> (n: usize)
    ensures
        n == count_in_category(sound_views(sounds@), category_id@),
{
    let ghost v = sound_views(sounds@);
    let mut n: usize = 0;
    let mut i: usize = 0;
    assert(v.take(0) =~= Seq::<SoundView>::empty());
    while i < sounds.len()
        invariant
            i <= sounds.len(),
            v == sound_views(sounds@),
            n == count_in_category(v.take(i as int), category_id@),
        decreases sounds.len() - i,
    {
        assert(v.take(i + 1).drop_last() =~= v.take(i as int));
        proof {
            lemma_count_bounded(v.take(i as int), category_id@);
        }
        if str_eq_string(&sounds[i].category_id, category_id) {
            n = n + 1;
        }
        i += 1;
    }
    assert(v.take(sounds.len() as int) =~= v);
    n
}

/// A name typed into a dialog, trimmed; nothing when only whitespace is left.
pub fn trimmed_input(input: &str) -> (res: Option<String>)
    ensures
        match res {
            Some(t) => t@ == trim(input@) && t@.len() > 0,
            None => trim(input@).len() == 0,
        },
{
    let chars = chars_of(input);
    let t = trimmed(&chars);
    if t.len() == 0 {
        None
    } else {
        Some(string_of(&t))
    }
}

/// The id of a category created with a name: the name lowercased, spaces as `_`.
pub open spec fn category_id_for(name: Seq<char>) -> Seq<char> {
    unicode_lowercase(name).map_values(|c: char| if c == ' ' { '_' } else { c })
}

/// The category that the "New Category" dialog creates from the typed name: the
/// trimmed name, an id derived from it, the chosen icon and the next position;
/// nothing when the name is blank.
pub fn new_category(name_input: &str, icon: &str, existing: usize) -> (res: Option<SoundCategory>)
    ensures
        match res {
            Some(c) => trim(name_input@).len() > 0 && c@ == category_spec(
                category_id_for(trim(name_input@)),
                trim(name_input@),
                icon@,
                existing as i32,
            ),
            None => trim(name_input@).len() == 0,
        },
{
    let name = match trimmed_input(name_input) {
        Some(n) => n,
        None => return None,
    };
    let lower = to_lowercase(name.as_str());
    let lower_chars = chars_of(lower.as_str());
    let mut id_chars: Vec<char> = Vec::new();
    let mut i: usize = 0;
    while i < lower_chars.len()
        invariant
            i <= lower_chars.len(),
            id_chars@ == lower_chars@.take(i as int).map_values(
                |c: char|
                    if c == ' ' {
                        '_'
                    } else {
                        c
                    },
            ),
        decreases lower_chars.len() - i,
    {
        let c = lower_chars[i];
        id_chars.push(
            if c == ' ' {
                '_'
            } else {
                c
            },
        );
        i += 1;
        assert(id_chars@ =~= lower_chars@.take(i as int).map_values(
            |c: char|
                if c == ' ' {
                    '_'
                } else {
                    c
                },
        ));
    }
    assert(lower_chars@.take(lower_chars.len() as int) =~= lower_chars@);
    let id = string_of(&id_chars);
    Some(SoundCategory::new(id.as_str(), name.as_str(), icon, existing as i32))
}

/// The categories listed under "All Sounds" in the sidebar: all but "default".
pub open spec fn listed_categories(v: Seq<CategoryView>) -> Seq<CategoryView>
    decreases v.len(),
{
    if v.len() == 0 {
        v
    } else {
        let rest = listed_categories(v.drop_last());
        if v.last().id == "default"@ {
            rest
        } else {
            rest.push(v.last())
        }
    }
}

/// The categories listed in the sidebar below "All Sounds", in order.
pub fn sidebar_categories(categories: &Vec<SoundCategory>) -> (res: Vec<SoundCategory>)
    ensures
        category_views(res@) == listed_categories(category_views(categories@)),
{
    let ghost cv = category_views(categories@);
    let mut out: Vec<SoundCategory> = Vec::new();
    let mut i: usize = 0;
    assert(cv.take(0) =~= Seq::<CategoryView>::empty());
    while i < categories.len()
        invariant
            i <= categories.len(),
            cv == category_views(categories@),
            category_views(out@) == listed_categories(cv.take(i as int)),
        decreases categories.len() - i,
    {
        assert(cv.take(i + 1).drop_last() =~= cv.take(i as int));
        assert(cv.take(i + 1).last() == categories@[i as int]@);
        if !str_eq_string(&categories[i].id, "default") {
            let c = categories[i].duplicate();
            let ghost prev = out@;
            out.push(c);
            assert(out@ == prev.push(c));
            assert(category_views(out@) =~= category_views(prev).push(c@));
        }
        i += 1;
    }
    assert(cv.take(categories.len() as int) =~= cv);
    out
}

} // verus!

verus! {

// ───────────────────────── the dialogs ─────────────────────────

/// The dialog on screen, or `Closed`; the sound and category dialogs carry the id they
/// are about.
#[derive(Clone, Debug)]
pub enum Dialog {
    Closed,
    Settings,
    EditSound(String),
    DeleteSound(String),
    DeleteCategory(String),
    NewCategory,
    Presets,
}

/// What the dialogs remember between frames: the open dialog, the category selected
/// in the sidebar, and the text typed into the "New Category" and "Presets" dialogs.
#[derive(Clone, Debug)]
pub struct DialogState {
    pub dialog: Dialog,
    pub selected_category: Option<String>,
    pub new_cat_name: String,
    pub new_cat_icon: String,
    pub preset_name: String,
}

/// What the user did in a dialog during a frame.
#[derive(Clone, Debug)]
pub enum DialogEvent {
    /// A dialog was opened.
    Open(Dialog),
    /// "Delete" was clicked in a delete dialog.
    Confirmed,
    /// "Cancel" was clicked or the window was closed.
    Dismissed,
    /// "Create" was clicked in the "New Category" dialog; `existing` categories
    /// are in the library.
    CreateCategory { existing: usize },
    /// "Save current" was clicked in the "Presets" dialog.
    SavePreset,
    /// "Load" was clicked on a listed preset.
    LoadPreset(String),
    /// "🗑" was clicked on a listed preset.
    DeletePreset(String),
}

/// What the application does to the library, the player and the hotkeys after a
/// dialog event, in order.
#[derive(Clone, Debug)]
pub enum DialogAction {
    StopSound(String),
    UnbindSound(String),
    RemoveSound(String),
    RemoveCategory(String),
    AddCategory(SoundCategory),
    SavePreset(String),
    LoadPreset(String),
    DeletePreset(String),
}

impl DialogState {
    /// Nothing open, nothing selected, empty inputs and the "folder" icon.
    pub fn new() -> (s: DialogState)
        ensures
            s.dialog is Closed,
            s.selected_category is None,
            s.new_cat_name@ == Seq::<char>::empty(),
            s.new_cat_icon@ == "folder"@,
            s.preset_name@ == Seq::<char>::empty(),
    {
        DialogState {
            dialog: Dialog::Closed,
            selected_category: None,
            new_cat_name: String::new(),
            new_cat_icon: "folder".to_owned(),
            preset_name: String::new(),
        }
    }
}

/// The fields other than the open dialog are as they were.
pub open spec fn inputs_kept(a: DialogState, b: DialogState) -> bool {
    &&& a.selected_category == b.selected_category
    &&& a.new_cat_name == b.new_cat_name
    &&& a.new_cat_icon == b.new_cat_icon
    &&& a.preset_name == b.preset_name
}

/// One event in the dialogs. Deleting a sound stops it, drops its hotkey and
/// removes it; deleting a category removes it and clears the sidebar selection
/// when it was the selected one; creating a category adds it, closes the dialog
/// and resets the inputs; saving a preset takes the trimmed name and clears the
/// input; loading and deleting a preset pass the name on. Events that do not fit
/// the open dialog, and a blank name, change nothing.
pub fn dialog_step(d: &mut DialogState, e: DialogEvent) -> (a: Vec<DialogAction>)
    ensures
        e matches DialogEvent::Open(k) ==> final(d).dialog == k && inputs_kept(
            *final(d),
            *old(d),
        ) && a@.len() == 0,
        e is Dismissed ==> final(d).dialog is Closed && inputs_kept(*final(d), *old(d)) && a@.len()
            == 0,
        e is Confirmed ==> match old(d).dialog {
            Dialog::DeleteSound(id) => {
                &&& final(d).dialog is Closed
                &&& inputs_kept(*final(d), *old(d))
                &&& a@ == seq![
                    DialogAction::StopSound(id),
                    DialogAction::UnbindSound(id),
                    DialogAction::RemoveSound(id),
                ]
            },
            Dialog::DeleteCategory(id) => {
                &&& final(d).dialog is Closed
                &&& opt_view(final(d).selected_category) == if opt_view(old(d).selected_category)
                    == Some(id@) {
                    None
                } else {
                    opt_view(old(d).selected_category)
                }
                &&& final(d).new_cat_name == old(d).new_cat_name
                &&& final(d).new_cat_icon == old(d).new_cat_icon
                &&& final(d).preset_name == old(d).preset_name
                &&& a@ == seq![DialogAction::RemoveCategory(id)]
            },
            _ => *final(d) == *old(d) && a@.len() == 0,
        },
        e matches DialogEvent::CreateCategory { existing } ==> if old(d).dialog is NewCategory
            && trim(old(d).new_cat_name@).len() > 0 {
            &&& final(d).dialog is Closed
            &&& final(d).new_cat_name@ == Seq::<char>::empty()
            &&& final(d).new_cat_icon@ == "folder"@
            &&& final(d).selected_category == old(d).selected_category
            &&& final(d).preset_name == old(d).preset_name
            &&& a@.len() == 1
            &&& a@[0] matches DialogAction::AddCategory(c) && c@ == category_spec(
                category_id_for(trim(old(d).new_cat_name@)),
                trim(old(d).new_cat_name@),
                old(d).new_cat_icon@,
                existing as i32,
            )
        } else {
            *final(d) == *old(d) && a@.len() == 0
        },
        e is SavePreset ==> if old(d).dialog is Presets && trim(old(d).preset_name@).len() > 0 {
            &&& final(d).dialog == old(d).dialog
            &&& final(d).preset_name@ == Seq::<char>::empty()
            &&& final(d).selected_category == old(d).selected_category
            &&& final(d).new_cat_name == old(d).new_cat_name
            &&& final(d).new_cat_icon == old(d).new_cat_icon
            &&& a@.len() == 1
            &&& a@[0] matches DialogAction::SavePreset(n) && n@ == trim(old(d).preset_name@)
        } else {
            *final(d) == *old(d) && a@.len() == 0
        },
        e matches DialogEvent::LoadPreset(n) ==> *final(d) == *old(d) && if old(d).dialog is Presets {
            a@ == seq![DialogAction::LoadPreset(n)]
        } else {
            a@.len() == 0
        },
        e matches DialogEvent::DeletePreset(n) ==> *final(d) == *old(d) && if old(
            d,
        ).dialog is Presets {
            a@ == seq![DialogAction::DeletePreset(n)]
        } else {
            a@.len() == 0
        },
{
    let mut acts: Vec<DialogAction> = Vec::new();
    match e {
        DialogEvent::Open(k) => {
            d.dialog = k;
        },
        DialogEvent::Dismissed => {
            d.dialog = Dialog::Closed;
        },
        DialogEvent::Confirmed => {
            let sound_id = match &d.dialog {
                Dialog::DeleteSound(id) => Some(id.clone()),
                _ => None,
            };
            let category_id = match &d.dialog {
                Dialog::DeleteCategory(id) => Some(id.clone()),
                _ => None,
            };
            match (sound_id, category_id) {
                (Some(id), _) => {
                    acts.push(DialogAction::StopSound(id.clone()));
                    acts.push(DialogAction::UnbindSound(id.clone()));
                    acts.push(DialogAction::RemoveSound(id));
                    d.dialog = Dialog::Closed;
                },
                (None, Some(id)) => {
                    let was_selected = match &d.selected_category {
                        Some(sel) => str_eq_string(sel, id.as_str()),
                        None => false,
                    };
                    if was_selected {
                        d.selected_category = None;
                    }
                    acts.push(DialogAction::RemoveCategory(id));
                    d.dialog = Dialog::Closed;
                },
                (None, None) => {},
            }
        },
        DialogEvent::CreateCategory { existing } => {
            if matches!(d.dialog, Dialog::NewCategory) {
                match new_category(d.new_cat_name.as_str(), d.new_cat_icon.as_str(), existing) {
                    Some(c) => {
                        acts.push(DialogAction::AddCategory(c));
                        d.new_cat_name = String::new();
                        d.new_cat_icon = "folder".to_owned();
                        d.dialog = Dialog::Closed;
                    },
                    None => {},
                }
            }
        },
        DialogEvent::SavePreset => {
            if matches!(d.dialog, Dialog::Presets) {
                match trimmed_input(d.preset_name.as_str()) {
                    Some(n) => {
                        acts.push(DialogAction::SavePreset(n));
                        d.preset_name = String::new();
                    },
                    None => {},
                }
            }
        },
        DialogEvent::LoadPreset(n) => {
            if matches!(d.dialog, Dialog::Presets) {
                acts.push(DialogAction::LoadPreset(n));
            }
        },
        DialogEvent::DeletePreset(n) => {
            if matches!(d.dialog, Dialog::Presets) {
                acts.push(DialogAction::DeletePreset(n));
            }
        },
    }
    acts
}

} // verus!
