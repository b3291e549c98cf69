//! The sound library held in memory: sounds, categories and settings, with the
//! operations that the application persists after each change, the preset
//! snapshot, and the naming rules for preset and sound files.
//!
//! Reading and writing the JSON files is the application's part; this module
//! decides what is written and under which name.

use vstd::prelude::*;
use vstd::relations::{sorted_by, total_ordering};
use crate::models::{
    category_spec, file_name_of, last_dot, path_file_name, gen_id, is_uuid_v4_text, name_extension, extension_of_name, now_ms,
    AppSettings, CategoryView, Preset, SoundCategory, SoundFile, SoundView,
};
use crate::text::{
    str_eq, ascii_lower_char, chars_eq_str, chars_of, decimal_text, lower_char, push_char, push_chars,
    push_i64, push_str, string_of, string_views, views,
};

verus! {

broadcast use vstd::seq_lib::group_to_multiset_ensures, vstd::multiset::group_multiset_axioms;

// ───────────────────────── file names ─────────────────────────

/// Characters kept in a file name: ASCII letters and digits, `-` and `_`.
pub open spec fn is_safe_char(c: char) -> bool {
    ('a' <= c && c <= 'z') || ('A' <= c && c <= 'Z') || ('0' <= c && c <= '9') || c == '-' || c
        == '_'
}

/// A preset name made safe for a file name: unsafe characters become `_`, and
/// the text is lowercased.
pub open spec fn sanitized(name: Seq<char>) -> Seq<char> {
    name.map_values(
        |c: char|
            if is_safe_char(c) {
                ascii_lower_char(c)
            } else {
                '_'
            },
    )
}

/// `name` → a safe, lowercase file name stem ("My Preset! v2" → "my_preset__v2").
///
/// Lowercasing happens after the replacement, so the text is ASCII by then and
/// its Unicode lowercase is its ASCII lowercase.
pub fn sanitize(name: &str) -> (res: String)
    ensures
        res@ == sanitized(name@),
{
    let chars = chars_of(name);
    let mut out = String::new();
    let mut i: usize = 0;
    while i < chars.len()
        invariant
            i <= chars.len(),
            chars@ == name@,
            out@ == sanitized(name@).take(i as int),
        decreases chars.len() - i,
    {
        let c = chars[i];
        let safe = ('a' <= c && c <= 'z') || ('A' <= c && c <= 'Z') || ('0' <= c && c <= '9') || c
            == '-' || c == '_';
        let d = if safe {
            lower_char(c)
        } else {
            '_'
        };
        push_char(&mut out, d);
        i += 1;
        assert(out@ =~= sanitized(name@).take(i as int));
    }
    assert(sanitized(name@).take(chars.len() as int) =~= sanitized(name@));
    out
}

/// The file that holds the preset called `name`: its sanitized name plus ".json".
pub open spec fn preset_file(name: Seq<char>) -> Seq<char> {
    sanitized(name) + ".json"@
}

/// The file name under which the preset `name` is saved, loaded and deleted.
pub fn preset_file_name(name: &str) -> (res: String)
    ensures
        res@ == preset_file(name@),
{
    let mut out = sanitize(name);
    push_str(&mut out, ".json");
    out
}

/// The preset that a file in the presets folder holds: files whose extension is
/// "json", named without that suffix.
pub open spec fn preset_of_file(file: Seq<char>) -> Option<Seq<char>> {
    if extension_of_name(file) == Some("json"@) {
        Some(file.take(file.len() - 5))
    } else {
        None
    }
}

/// The presets that a folder listing holds, in listing order.
pub open spec fn listed_presets(files: Seq<Seq<char>>) -> Seq<Seq<char>>
    decreases files.len(),
{
    if files.len() == 0 {
        Seq::empty()
    } else {
        let rest = listed_presets(files.drop_last());
        match preset_of_file(files.last()) {
            Some(n) => rest.push(n),
            None => rest,
        }
    }
}

/// Lexicographic order of texts by character (for UTF-8 text this is the byte
/// order that `String`'s `Ord` uses).
pub open spec fn lex_le(a: Seq<char>, b: Seq<char>) -> bool
    decreases a.len(),
{
    if a.len() == 0 {
        true
    } else if b.len() == 0 {
        false
    } else if a[0] != b[0] {
        a[0] < b[0]
    } else {
        lex_le(a.drop_first(), b.drop_first())
    }
}

pub open spec fn lex_order() -> spec_fn(Seq<char>, Seq<char>) -> bool {
    |a: Seq<char>, b: Seq<char>| lex_le(a, b)
}

proof fn lemma_lex_reflexive(a: Seq<char>)
    ensures
        lex_le(a, a),
    decreases a.len(),
{
    if a.len() > 0 {
        lemma_lex_reflexive(a.drop_first());
    }
}

proof fn lemma_lex_antisymmetric(a: Seq<char>, b: Seq<char>)
    requires
        lex_le(a, b),
        lex_le(b, a),
    ensures
        a == b,
    decreases a.len(),
{
    if a.len() > 0 && b.len() > 0 {
        lemma_lex_antisymmetric(a.drop_first(), b.drop_first());
        assert(a =~= seq![a[0]] + a.drop_first());
        assert(b =~= seq![b[0]] + b.drop_first());
    } else {
        assert(a =~= b);
    }
}

proof fn lemma_lex_transitive(a: Seq<char>, b: Seq<char>, c: Seq<char>)
    requires
        lex_le(a, b),
        lex_le(b, c),
    ensures
        lex_le(a, c),
    decreases a.len(),
{
    if a.len() > 0 && b.len() > 0 && c.len() > 0 {
        if a[0] == b[0] && b[0] == c[0] {
            lemma_lex_transitive(a.drop_first(), b.drop_first(), c.drop_first());
        }
    }
}

proof fn lemma_lex_total(a: Seq<char>, b: Seq<char>)
    ensures
        lex_le(a, b) || lex_le(b, a),
    decreases a.len(),
{
    if a.len() > 0 && b.len() > 0 && a[0] == b[0] {
        lemma_lex_total(a.drop_first(), b.drop_first());
    }
}

/// Texts ordered by `lex_le` form a total order.
pub proof fn lemma_lex_total_ordering()
    ensures
        total_ordering(lex_order()),
{
    assert forall|a: Seq<char>| #[trigger] lex_order()(a, a) by {
        lemma_lex_reflexive(a);
    }
    assert forall|a: Seq<char>, b: Seq<char>| #[trigger]
        lex_order()(a, b) && #[trigger] lex_order()(b, a) implies a == b by {
        lemma_lex_antisymmetric(a, b);
    }
    assert forall|a: Seq<char>, b: Seq<char>, c: Seq<char>| #[trigger]
        lex_order()(a, b) && #[trigger] lex_order()(b, c) implies lex_order()(a, c) by {
        lemma_lex_transitive(a, b, c);
    }
    assert forall|a: Seq<char>, b: Seq<char>| #[trigger]
        lex_order()(a, b) || #[trigger] lex_order()(b, a) by {
        lemma_lex_total(a, b);
    }
}

fn lex_le_chars(a: &Vec<char>, b: &Vec<char>) -> (res: bool)
    ensures
        res == lex_le(a@, b@),
{
    let mut i: usize = 0;
    assert(a@.skip(0) =~= a@ && b@.skip(0) =~= b@);
    loop
        invariant
            i <= a.len(),
            i <= b.len(),
            lex_le(a@, b@) == lex_le(a@.skip(i as int), b@.skip(i as int)),
        decreases a.len() - i,
    {
        if i == a.len() {
            return true;
        }
        if i == b.len() {
            return false;
        }
        if a[i] != b[i] {
            return a[i] < b[i];
        }
        assert(a@.skip(i as int).drop_first() =~= a@.skip(i + 1));
        assert(b@.skip(i as int).drop_first() =~= b@.skip(i + 1));
        i += 1;
    }
}

/// The preset name that a file name stands for, if it is a preset file.
fn preset_from_file(file: &String) -> (res: Option<Vec<char>>)
    ensures
        match res {
            Some(n) => preset_of_file(file@) == Some(n@),
            None => preset_of_file(file@) is None,
        },
{
    let chars = chars_of(file.as_str());
    match name_extension(&chars) {
        Some(e) => {
            if chars_eq_str(&e, "json") {
                proof {
                    reveal_strlit("json");
                    crate::models::lemma_last_dot(chars@);
                    let ld = last_dot(chars@);
                    assert("json"@.len() == 4);
                    assert(e@ == chars@.skip(ld + 1));
                    assert(ld > 0);
                    assert(chars@.len() == ld + 5);
                }
                // the extension follows the last dot, so the name ends with ".json"
                let keep = chars.len() - 5;
                let mut out: Vec<char> = Vec::new();
                let mut k: usize = 0;
                while k < keep
                    invariant
                        k <= keep,
                        keep + 5 == chars.len(),
                        out@ == chars@.take(k as int),
                    decreases keep - k,
                {
                    out.push(chars[k]);
                    k += 1;
                    assert(out@ =~= chars@.take(k as int));
                }
                Some(out)
            } else {
                None
            }
        },
        None => None,
    }
}

/// Preset names from a listing of the presets folder: the ".json" files, named
/// without the suffix, sorted.
pub fn preset_names(files: &Vec<String>) -> (res: Vec<String>)
    ensures
        sorted_by(string_views(res@), lex_order()),
        string_views(res@).to_multiset() == listed_presets(string_views(files@)).to_multiset(),
{
    proof {
        lemma_lex_total_ordering();
    }
    let ghost fs = string_views(files@);
    let mut sorted: Vec<Vec<char>> = Vec::new();
    let mut i: usize = 0;
    assert(fs.take(0) =~= Seq::<Seq<char>>::empty());
    while i < files.len()
        invariant
            i <= files.len(),
            fs == string_views(files@),
            total_ordering(lex_order()),
            sorted_by(views(sorted@), lex_order()),
            views(sorted@).to_multiset() == listed_presets(fs.take(i as int)).to_multiset(),
        decreases files.len() - i,
    {
        assert(fs.take(i + 1).drop_last() =~= fs.take(i as int));
        assert(fs.take(i + 1).last() == files@[i as int]@);
        match preset_from_file(&files[i]) {
            Some(n) => {
                let mut p: usize = 0;
                while p < sorted.len() && lex_le_chars(&sorted[p], &n)
                    invariant
                        p <= sorted.len(),
                        forall|k: int| 0 <= k < p ==> lex_le(#[trigger] views(sorted@)[k], n@),
                    decreases sorted.len() - p,
                {
                    p += 1;
                }
                let ghost before = views(sorted@);
                sorted.insert(p, n);
                assert(views(sorted@) =~= before.insert(p as int, n@));
                proof {
                    let after = views(sorted@);
                    assert forall|a: int, b: int| 0 <= a < b < after.len() implies #[trigger] lex_order()(
                        after[a],
                        after[b],
                    ) by {
                        if a < p && b == p {
                        } else if a < p && b > p {
                            assert(after[b] == before[b - 1]);
                            assert(lex_order()(before[a], before[b - 1]));
                        } else if a == p {
                            assert(after[b] == before[b - 1]);
                            if p < before.len() {
                                assert(!lex_le(before[p as int], n@));
                                lemma_lex_total(before[p as int], n@);
                                if b - 1 > p {
                                    assert(lex_order()(before[p as int], before[b - 1]));
                                    lemma_lex_transitive(n@, before[p as int], before[b - 1]);
                                }
                            }
                        } else if a > p {
                            assert(after[a] == before[a - 1]);
                            assert(after[b] == before[b - 1]);
                            assert(lex_order()(before[a - 1], before[b - 1]));
                        } else {
                            assert(after[a] == before[a] && after[b] == before[b]);
                            assert(lex_order()(before[a], before[b]));
                        }
                    }
                    vstd::seq_lib::to_multiset_insert(before, p as int, n@);
                    vstd::seq_lib::to_multiset_build(listed_presets(fs.take(i as int)), n@);
                }
            },
            None => {},
        }
        i += 1;
    }
    assert(fs.take(files.len() as int) =~= fs);
    let mut out: Vec<String> = Vec::new();
    let mut k: usize = 0;
    while k < sorted.len()
        invariant
            k <= sorted.len(),
            string_views(out@) == views(sorted@).take(k as int),
        decreases sorted.len() - k,
    {
        let s = string_of(&sorted[k]);
        let ghost prev = out@;
        out.push(s);
        assert(out@ == prev.push(s));
        assert(string_views(out@) =~= string_views(prev).push(s@));
        k += 1;
        assert(string_views(out@) =~= views(sorted@).take(k as int));
    }
    assert(views(sorted@).take(sorted.len() as int) =~= views(sorted@));
    out
}

/// The name under which a dropped audio file is kept in the portable sounds folder:
/// `{stamp}_{file name}`, or `{stamp}_sound_{fallback stamp}` when the source path
/// has no file name.
pub open spec fn portable_name(stamp: i64, fallback_stamp: i64, file_name: Option<Seq<char>>) -> Seq<
    char,
> {
    decimal_text(stamp as int) + seq!['_'] + match file_name {
        Some(n) => n,
        None => "sound_"@ + decimal_text(fallback_stamp as int),
    }
}

/// The view of an optional text.
pub open spec fn opt_str_view(o: Option<&str>) -> Option<Seq<char>> {
    match o {
        Some(n) => Some(n@),
        None => None,
    }
}

/// Builds the portable file name from the two timestamps.
pub fn portable_file_name_at(stamp: i64, fallback_stamp: i64, file_name: Option<&str>) -> (res:
    String)
    ensures
        res@ == portable_name(stamp, fallback_stamp, opt_str_view(file_name)),
{
    let mut out = String::new();
    push_i64(&mut out, stamp);
    push_char(&mut out, '_');
    match file_name {
        Some(n) => push_str(&mut out, n),
        None => {
            push_str(&mut out, "sound_");
            push_i64(&mut out, fallback_stamp);
        },
    }
    let ghost tail = match file_name {
        Some(n) => n@,
        None => "sound_"@ + decimal_text(fallback_stamp as int),
    };
    assert(out@ =~= decimal_text(stamp as int) + seq!['_'] + tail);
    out
}

/// The portable file name for a dropped file at `source_path`, named after the
/// path's file name and stamped with the current time.
pub fn portable_file_name(source_path: &str) -> (res: String)
    ensures
        exists|t1: i64, t2: i64|
            res@ == #[trigger] portable_name(t1, t2, path_file_name(source_path@)),
{
    let name = file_name_of(source_path);
    let fallback = now_ms();
    let stamp = now_ms();
    match &name {
        Some(n) => portable_file_name_at(stamp, fallback, Some(n.as_str())),
        None => portable_file_name_at(stamp, fallback, None),
    }
}

// ───────────────────────── default categories ─────────────────────────

/// The category set a new library starts with.
pub open spec fn default_categories_spec() -> Seq<CategoryView> {
    seq![
        category_spec("default"@, "All Sounds"@, "folder"@, 0),
        category_spec("memes"@, "Memes"@, "emoji"@, 1),
        category_spec("alerts"@, "Alerts"@, "notifications"@, 2),
        category_spec("music"@, "Music"@, "music"@, 3),
        category_spec("voice"@, "Voice"@, "star"@, 4),
        category_spec("sfx"@, "Sound Effects"@, "sfx"@, 5),
        category_spec("custom"@, "Custom"@, "star"@, 6),
    ]
}

/// The views of a vector of categories.
pub open spec fn category_views(v: Seq<SoundCategory>) -> Seq<CategoryView> {
    v.map_values(|c: SoundCategory| c@)
}

/// The views of a vector of sounds.
pub open spec fn sound_views(v: Seq<SoundFile>) -> Seq<SoundView> {
    v.map_values(|s: SoundFile| s@)
}

/// The default category set.
pub fn default_categories() -> (res: Vec<SoundCategory>)
    ensures
        category_views(res@) == default_categories_spec(),
{
    let mut v: Vec<SoundCategory> = Vec::new();
    v.push(SoundCategory::new("default", "All Sounds", "folder", 0));
    v.push(SoundCategory::new("memes", "Memes", "emoji", 1));
    v.push(SoundCategory::new("alerts", "Alerts", "notifications", 2));
    v.push(SoundCategory::new("music", "Music", "music", 3));
    v.push(SoundCategory::new("voice", "Voice", "star", 4));
    v.push(SoundCategory::new("sfx", "Sound Effects", "sfx", 5));
    v.push(SoundCategory::new("custom", "Custom", "star", 6));
    assert(category_views(v@) =~= default_categories_spec());
    v
}

// ───────────────────────── the store ─────────────────────────

/// `i` is the first position of a sound with id `id`.
pub open spec fn first_with_id(v: Seq<SoundView>, id: Seq<char>, i: int) -> bool {
    &&& 0 <= i < v.len()
    &&& v[i].id == id
    &&& forall|j: int| 0 <= j < i ==> v[j].id != id
}

/// No sound has id `id`.
pub open spec fn no_sound_with_id(v: Seq<SoundView>, id: Seq<char>) -> bool {
    forall|j: int| 0 <= j < v.len() ==> v[j].id != id
}

/// The sounds without those whose id is `id`, in order.
pub open spec fn without_sound_id(v: Seq<SoundView>, id: Seq<char>) -> Seq<SoundView>
    decreases v.len(),
{
    if v.len() == 0 {
        v
    } else {
        let rest = without_sound_id(v.drop_last(), id);
        if v.last().id == id {
            rest
        } else {
            rest.push(v.last())
        }
    }
}

/// The categories without those whose id is `id`, in order.
pub open spec fn without_category_id(v: Seq<CategoryView>, id: Seq<char>) -> Seq<CategoryView>
    decreases v.len(),
{
    if v.len() == 0 {
        v
    } else {
        let rest = without_category_id(v.drop_last(), id);
        if v.last().id == id {
            rest
        } else {
            rest.push(v.last())
        }
    }
}

/// A sound of a removed category moves to "default"; other sounds stay.
pub open spec fn moved_out_of(s: SoundView, category_id: Seq<char>) -> SoundView {
    if s.category_id == category_id {
        SoundView { category_id: "default"@, ..s }
    } else {
        s
    }
}

/// The sounds after a category is removed.
pub open spec fn moved_sounds(v: Seq<SoundView>, category_id: Seq<char>) -> Seq<SoundView> {
    v.map_values(|s: SoundView| moved_out_of(s, category_id))
}

/// The in-memory sound library.
pub struct Store {
    pub sounds: Vec<SoundFile>,
    pub categories: Vec<SoundCategory>,
    pub settings: AppSettings,
}

/// A copy of a list of sounds.
pub fn copy_sounds(v: &Vec<SoundFile>) -> (res: Vec<SoundFile>)
    ensures
        res@ == v@,
{
    let mut out: Vec<SoundFile> = Vec::new();
    let mut i: usize = 0;
    while i < v.len()
        invariant
            i <= v.len(),
            out@ == v@.take(i as int),
        decreases v.len() - i,
    {
        out.push(v[i].duplicate());
        i += 1;
        assert(out@ =~= v@.take(i as int));
    }
    assert(v@.take(v.len() as int) =~= v@);
    out
}

/// A copy of a list of categories.
pub fn copy_categories(v: &Vec<SoundCategory>) -> (res: Vec<SoundCategory>)
    ensures
        res@ == v@,
{
    let mut out: Vec<SoundCategory> = Vec::new();
    let mut i: usize = 0;
    while i < v.len()
        invariant
            i <= v.len(),
            out@ == v@.take(i as int),
        decreases v.len() - i,
    {
        out.push(v[i].duplicate());
        i += 1;
        assert(out@ =~= v@.take(i as int));
    }
    assert(v@.take(v.len() as int) =~= v@);
    out
}

impl Store {
    /// Opens a library from what was read from disk; a library without categories
    /// is seeded with the default set (the caller then saves the categories).
    pub fn init(sounds: Vec<SoundFile>, categories: Vec<SoundCategory>, settings: AppSettings) -> (s:
        Store)
        ensures
            s.sounds == sounds,
            s.settings == settings,
            categories@.len() > 0 ==> s.categories == categories,
            categories@.len() == 0 ==> category_views(s.categories@) == default_categories_spec(),
    {
        if categories.len() == 0 {
            Store { sounds, categories: default_categories(), settings }
        } else {
            Store { sounds, categories, settings }
        }
    }

    /// Position of the first sound with id `id`.
    fn find_sound(&self, id: &str) -> (res: Option<usize>)
        ensures
            match res {
                Some(i) => first_with_id(sound_views(self.sounds@), id@, i as int),
                None => no_sound_with_id(sound_views(self.sounds@), id@),
            },
    {
        let mut i: usize = 0;
        while i < self.sounds.len()
            invariant
                i <= self.sounds.len(),
                forall|j: int| 0 <= j < i ==> sound_views(self.sounds@)[j].id != id@,
            decreases self.sounds.len() - i,
        {
            if str_eq_string(&self.sounds[i].id, id) {
                return Some(i);
            }
            i += 1;
        }
        None
    }

    pub fn add_sound(&mut self, sound: SoundFile)
        ensures
            final(self).sounds@ == old(self).sounds@.push(sound),
            final(self).categories == old(self).categories,
            final(self).settings == old(self).settings,
    {
        self.sounds.push(sound);
    }

    /// Replaces the first sound with the same id; nothing changes when there is none.
    pub fn update_sound(&mut self, updated: SoundFile)
        ensures
            forall|i: int|
                first_with_id(sound_views(old(self).sounds@), updated.id@, i)
                    ==> final(self).sounds@ == old(self).sounds@.update(i, updated),
            no_sound_with_id(sound_views(old(self).sounds@), updated.id@) ==> final(self).sounds
                == old(self).sounds,
            final(self).categories == old(self).categories,
            final(self).settings == old(self).settings,
    {
        match self.find_sound(updated.id.as_str()) {
            Some(i) => {
                self.sounds.set(i, updated);
            },
            None => {},
        }
    }

    /// Removes every sound with id `sound_id`.
    pub fn remove_sound(&mut self, sound_id: &str)
        ensures
            sound_views(final(self).sounds@) == without_sound_id(
                sound_views(old(self).sounds@),
                sound_id@,
            ),
            final(self).categories == old(self).categories,
            final(self).settings == old(self).settings,
    {
        let ghost v = sound_views(self.sounds@);
        let mut kept: Vec<SoundFile> = Vec::new();
        let mut i: usize = 0;
        assert(v.take(0) =~= Seq::<SoundView>::empty());
        while i < self.sounds.len()
            invariant
                i <= self.sounds.len(),
                v == sound_views(self.sounds@),
                sound_views(kept@) == without_sound_id(v.take(i as int), sound_id@),
            decreases self.sounds.len() - i,
        {
            assert(v.take(i + 1).drop_last() =~= v.take(i as int));
            if !str_eq_string(&self.sounds[i].id, sound_id) {
                let s = self.sounds[i].duplicate();
                kept.push(s);
                assert(sound_views(kept@) =~= without_sound_id(v.take(i + 1), sound_id@));
            }
            i += 1;
        }
        assert(v.take(self.sounds.len() as int) =~= v);
        self.sounds = kept;
    }

    /// The first sound with id `sound_id`.
    pub fn get_sound(&self, sound_id: &str) -> (res: Option<&SoundFile>)
        ensures
            match res {
                Some(s) => exists|i: int|
                    first_with_id(sound_views(self.sounds@), sound_id@, i) && *s == self.sounds@[i],
                None => no_sound_with_id(sound_views(self.sounds@), sound_id@),
            },
    {
        match self.find_sound(sound_id) {
            Some(i) => Some(&self.sounds[i]),
            None => None,
        }
    }

    pub fn add_category(&mut self, category: SoundCategory)
        ensures
            final(self).categories@ == old(self).categories@.push(category),
            final(self).sounds == old(self).sounds,
            final(self).settings == old(self).settings,
    {
        self.categories.push(category);
    }

    /// Removes a category; its sounds move to "default".
    pub fn remove_category(&mut self, category_id: &str)
        ensures
            category_views(final(self).categories@) == without_category_id(
                category_views(old(self).categories@),
                category_id@,
            ),
            sound_views(final(self).sounds@) == moved_sounds(sound_views(old(self).sounds@), category_id@),
            final(self).settings == old(self).settings,
    {
        let ghost cv = category_views(self.categories@);
        let mut kept: Vec<SoundCategory> = Vec::new();
        let mut i: usize = 0;
        assert(cv.take(0) =~= Seq::<CategoryView>::empty());
        while i < self.categories.len()
            invariant
                i <= self.categories.len(),
                cv == category_views(self.categories@),
                category_views(kept@) == without_category_id(cv.take(i as int), category_id@),
            decreases self.categories.len() - i,
        {
            assert(cv.take(i + 1).drop_last() =~= cv.take(i as int));
            if !str_eq_string(&self.categories[i].id, category_id) {
                let c = self.categories[i].duplicate();
                kept.push(c);
                assert(category_views(kept@) =~= without_category_id(
                    cv.take(i + 1),
                    category_id@,
                ));
            }
            i += 1;
        }
        assert(cv.take(self.categories.len() as int) =~= cv);
        self.categories = kept;

        let ghost sv = sound_views(self.sounds@);
        let mut moved: Vec<SoundFile> = Vec::new();
        let mut k: usize = 0;
        while k < self.sounds.len()
            invariant
                k <= self.sounds.len(),
                sv == sound_views(self.sounds@),
                sound_views(moved@) == sv.take(k as int).map_values(
                    |s: SoundView| moved_out_of(s, category_id@),
                ),
            decreases self.sounds.len() - k,
        {
            let mut s = self.sounds[k].duplicate();
            assert(sv[k as int] == s@);
            if str_eq_string(&s.category_id, category_id) {
                s.category_id = "default".to_owned();
            }
            assert(s@ == moved_out_of(sv[k as int], category_id@));
            let ghost prev = moved@;
            moved.push(s);
            assert(moved@ == prev.push(s));
            assert(sound_views(moved@) =~= sound_views(prev).push(s@));
            k += 1;
            assert(sound_views(moved@) =~= sv.take(k as int).map_values(
                |s: SoundView| moved_out_of(s, category_id@),
            ));
        }
        assert(sv.take(self.sounds.len() as int) =~= sv);
        assert(sound_views(moved@) =~= moved_sounds(sv, category_id@));
        self.sounds = moved;
    }

    /// Replaces the library with a preset's sounds, and its categories when the
    /// preset has any.
    pub fn load_preset(&mut self, preset: Preset)
        ensures
            final(self).sounds == preset.sounds,
            preset.categories@.len() > 0 ==> final(self).categories == preset.categories,
            preset.categories@.len() == 0 ==> final(self).categories == old(self).categories,
            final(self).settings == old(self).settings,
    {
        self.sounds = preset.sounds;
        if preset.categories.len() > 0 {
            self.categories = preset.categories;
        }
    }

    /// A preset holding the current sounds and categories, with a fresh id.
    pub fn preset_snapshot(&self, name: &str, description: &str) -> (p: Preset)
        ensures
            is_uuid_v4_text(p.id@),
            p.name@ == name@,
            p.description@ == description@,
            p.sounds@ == self.sounds@,
            p.categories@ == self.categories@,
    {
        Preset {
            id: gen_id(),
            name: name.to_owned(),
            description: description.to_owned(),
            sounds: copy_sounds(&self.sounds),
            categories: copy_categories(&self.categories),
            created_at: now_ms(),
            updated_at: now_ms(),
        }
    }
}

/// Whether a `String` holds the text `s`.
pub fn str_eq_string(a: &String, s: &str) -> (res: bool)
    ensures
        res == (a@ == s@),
{
    crate::text::str_eq(a.as_str(), s)
}

} // verus!

verus! {

// ───────────────────────── laws of the store ─────────────────────────

/// Removing a category moves its sounds to "default": afterwards no sound is in
/// the removed category (unless that category is "default" itself), no sound is
/// lost, and nothing but the category of a sound changes.
pub proof fn law_removed_category_is_empty(v: Seq<SoundView>, id: Seq<char>)
    ensures
        moved_sounds(v, id).len() == v.len(),
        forall|i: int|
            0 <= i < v.len() ==> (#[trigger] moved_sounds(v, id)[i]).category_id
                != id || id == "default"@,
        forall|i: int|
            0 <= i < v.len() ==> {
                let m = #[trigger] moved_sounds(v, id)[i];
                m.id == v[i].id && m.name == v[i].name && m.file_path == v[i].file_path
                    && m.hotkey == v[i].hotkey && m.looped == v[i].looped
            },
{
}

/// An added sound with a new id is the one found under that id.
pub proof fn law_added_sound_is_found(v: Seq<SoundView>, s: SoundView)
    requires
        no_sound_with_id(v, s.id),
    ensures
        first_with_id(v.push(s), s.id, v.len() as int),
{
}

/// After an update, the sound is found under its id with the new contents.
pub proof fn law_updated_sound_is_found(v: Seq<SoundView>, i: int, u: SoundView)
    requires
        first_with_id(v, u.id, i),
    ensures
        first_with_id(v.update(i, u), u.id, i),
        v.update(i, u)[i] == u,
{
}

proof fn lemma_without_sound_id_members(v: Seq<SoundView>, id: Seq<char>)
    ensures
        forall|s: SoundView| #[trigger]
            without_sound_id(v, id).contains(s) <==> (v.contains(s) && s.id != id),
    decreases v.len(),
{
    if v.len() > 0 {
        let p = v.drop_last();
        lemma_without_sound_id_members(p, id);
        let r = without_sound_id(p, id);
        assert forall|s: SoundView| #[trigger]
            without_sound_id(v, id).contains(s) <==> (v.contains(s) && s.id != id) by {
            if v.contains(s) && s.id != id {
                let k = choose|k: int| 0 <= k < v.len() && v[k] == s;
                if k < v.len() - 1 {
                    assert(p[k] == s);
                    assert(r.contains(s));
                    let m = choose|m: int| 0 <= m < r.len() && r[m] == s;
                    if v.last().id != id {
                        assert(r.push(v.last())[m] == s);
                    }
                } else {
                    assert(r.push(v.last())[r.len() as int] == s);
                }
            }
            if without_sound_id(v, id).contains(s) {
                if v.last().id != id && s == v.last() {
                    assert(v[v.len() - 1] == s);
                } else {
                    if v.last().id != id {
                        let m = choose|m: int| 0 <= m < r.len() + 1 && r.push(v.last())[m] == s;
                        assert(m < r.len());
                        assert(r[m] == s);
                    }
                    assert(r.contains(s));
                    let k = choose|k: int| 0 <= k < p.len() && p[k] == s;
                    assert(v[k] == s);
                }
            }
        }
    }
}

/// After a sound is removed none is found under its id, and every other sound is kept.
pub proof fn law_removed_sound_is_gone(v: Seq<SoundView>, id: Seq<char>, s: SoundView)
    ensures
        no_sound_with_id(without_sound_id(v, id), id),
        (v.contains(s) && s.id != id) ==> without_sound_id(v, id).contains(s),
{
    lemma_without_sound_id_members(v, id);
    assert forall|j: int|
        0 <= j < without_sound_id(v, id).len() implies without_sound_id(v, id)[j].id != id by {
        assert(without_sound_id(v, id).contains(without_sound_id(v, id)[j]));
    }
}

/// Sanitizing maps each character in place: an ASCII lowercase letter, a digit,
/// `-` and `_` stay as they are, an ASCII uppercase letter becomes its lowercase
/// letter, and every other character becomes `_`. So the stem keeps the name's
/// length, every letter and digit where it was, and holds nothing but
/// `a`-`z`, `0`-`9`, `-` and `_`.
pub proof fn law_sanitize_keeps_letters_and_digits(name: Seq<char>)
    ensures
        sanitized(name).len() == name.len(),
        forall|i: int|
            0 <= i < name.len() && (('a' <= #[trigger] name[i] && name[i] <= 'z') || ('0'
                <= name[i] && name[i] <= '9') || name[i] == '-' || name[i] == '_')
                ==> sanitized(name)[i] == name[i],
        forall|i: int|
            0 <= i < name.len() && 'A' <= #[trigger] name[i] && name[i] <= 'Z' ==> sanitized(
                name,
            )[i] as u32 == name[i] as u32 + 32,
        forall|i: int|
            0 <= i < name.len() && !('a' <= #[trigger] name[i] && name[i] <= 'z') && !('A'
                <= name[i] && name[i] <= 'Z') && !('0' <= name[i] && name[i] <= '9') && name[i]
                != '-' && name[i] != '_' ==> sanitized(name)[i] == '_',
        forall|i: int|
            0 <= i < name.len() ==> ('a' <= #[trigger] sanitized(name)[i] && sanitized(name)[i]
                <= 'z') || ('0' <= sanitized(name)[i] && sanitized(name)[i] <= '9') || sanitized(
                name,
            )[i] == '-' || sanitized(name)[i] == '_',
{
    assert forall|i: int| 0 <= i < name.len() && 'A' <= #[trigger] name[i] && name[i] <= 'Z'
        implies sanitized(name)[i] as u32 == name[i] as u32 + 32 by {
        let c = name[i];
        assert(sanitized(name)[i] == ((c as u32) + 32) as char);
        assert((c as u32) + 32 < 0xD800);
    }
    assert forall|i: int| 0 <= i < name.len() implies ('a' <= #[trigger] sanitized(name)[i]
        && sanitized(name)[i] <= 'z') || ('0' <= sanitized(name)[i] && sanitized(name)[i] <= '9')
        || sanitized(name)[i] == '-' || sanitized(name)[i] == '_' by {
        let c = name[i];
        if 'A' <= c && c <= 'Z' {
            assert((c as u32) + 32 < 0xD800);
            assert(sanitized(name)[i] as u32 == (c as u32) + 32);
        }
    }
}

/// Sanitizing is idempotent: a listed preset name leads back to the same file.
pub proof fn law_sanitize_idempotent(name: Seq<char>)
    ensures
        sanitized(sanitized(name)) == sanitized(name),
        preset_file(sanitized(name)) == preset_file(name),
{
    assert(sanitized(sanitized(name)) =~= sanitized(name));
}

proof fn lemma_sanitized_has_no_dot(name: Seq<char>)
    ensures
        forall|i: int| 0 <= i < sanitized(name).len() ==> #[trigger] sanitized(name)[i] != '.',
{
}

/// A preset saved under a non-empty name is listed under its sanitized name.
pub proof fn law_saved_preset_is_listed(name: Seq<char>)
    requires
        name.len() > 0,
    ensures
        preset_of_file(preset_file(name)) == Some(sanitized(name)),
{
    reveal_strlit(".json");
    reveal_strlit("json");
    let x = sanitized(name);
    let f = preset_file(name);
    lemma_sanitized_has_no_dot(name);
    assert(f.len() == x.len() + 5);
    assert(f.drop_last() =~= x + ".jso"@) by {
        reveal_strlit(".jso");
    }
    assert(f.drop_last().drop_last() =~= x + ".js"@) by {
        reveal_strlit(".js");
    }
    assert(f.drop_last().drop_last().drop_last() =~= x + ".j"@) by {
        reveal_strlit(".j");
    }
    assert(f.drop_last().drop_last().drop_last().drop_last() =~= x + "."@) by {
        reveal_strlit(".");
    }
    assert(last_dot(x + "."@) == x.len()) by {
        reveal_strlit(".");
    }
    let f1 = f.drop_last();
    let f2 = f1.drop_last();
    let f3 = f2.drop_last();
    assert(f.last() == 'n' && f1.last() == 'o' && f2.last() == 's' && f3.last() == 'j');
    assert(last_dot(f3) == x.len());
    assert(last_dot(f2) == x.len());
    assert(last_dot(f1) == x.len());
    assert(last_dot(f) == x.len());
    assert(f != seq!['.', '.']);
    assert(f.skip(x.len() + 1int) =~= "json"@);
    assert(f.take(f.len() - 5) =~= x);
}

/// A preset file in the folder listing shows up among the listed presets.
pub proof fn law_listing_shows_saved_preset(files: Seq<Seq<char>>, name: Seq<char>)
    requires
        name.len() > 0,
        files.contains(preset_file(name)),
    ensures
        listed_presets(files).contains(sanitized(name)),
    decreases files.len(),
{
    law_saved_preset_is_listed(name);
    let p = files.drop_last();
    if files.last() == preset_file(name) {
        assert(listed_presets(files) == listed_presets(p).push(sanitized(name)));
        assert(listed_presets(files)[listed_presets(p).len() as int] == sanitized(name));
    } else {
        let k = choose|k: int| 0 <= k < files.len() && files[k] == preset_file(name);
        assert(p[k] == preset_file(name));
        law_listing_shows_saved_preset(p, name);
        let r = listed_presets(p);
        let m = choose|m: int| 0 <= m < r.len() && r[m] == sanitized(name);
        match preset_of_file(files.last()) {
            Some(n) => {
                assert(r.push(n)[m] == sanitized(name));
            },
            None => {},
        }
    }
}

} // verus!

verus! {

// ───────────────────────── where the data lives ─────────────────────────

/// A build directory of cargo: the executable runs from `target/debug`,
/// `target/release` or a `deps` folder under them.
pub open spec fn dev_dir(name: Option<Seq<char>>) -> bool {
    ||| name == Some("debug"@)
    ||| name == Some("release"@)
    ||| name == Some("deps"@)
}

/// The directory the application keeps its data in (portable mode): the
/// executable's directory in a release; the current directory when the executable
/// runs from a cargo build directory and the current directory is known; the
/// current directory, or ".", when the executable's directory is not known.
pub fn app_dir_for(exe_dir: Option<&str>, cwd: Option<&str>) -> (r: String)
    ensures
        r@ == match exe_dir {
            Some(d) => if dev_dir(path_file_name(d@)) && cwd is Some {
                cwd.unwrap()@
            } else {
                d@
            },
            None => match cwd {
                Some(c) => c@,
                None => "."@,
            },
        },
{
    match exe_dir {
        Some(d) => {
            let dev = match file_name_of(d) {
                Some(n) => str_eq(n.as_str(), "debug") || str_eq(n.as_str(), "release") || str_eq(
                    n.as_str(),
                    "deps",
                ),
                None => false,
            };
            match cwd {
                Some(c) => if dev {
                    c.to_owned()
                } else {
                    d.to_owned()
                },
                None => d.to_owned(),
            }
        },
        None => match cwd {
            Some(c) => c.to_owned(),
            None => ".".to_owned(),
        },
    }
}

/// What std's `Path::join` gives for `part` joined onto `base`, as text: a
/// function of the two texts and of the platform's path rules.
pub uninterp spec fn path_joined(base: Seq<char>, part: Seq<char>) -> Seq<char>;

/// std's `Path::join`, the joined path converted back to a `String` (lossless, as
/// both parts are valid UTF-8). Trusted: the result is the name `path_joined`
/// applied to the two texts; the platform's rules for separators, absolute parts
/// and prefixes are not restated.
#[verifier::external_body]
fn join_path(base: &str, part: &str) -> (r: String)
    ensures
        r@ == path_joined(base@, part@),
{
    std::path::Path::new(base).join(part).to_string_lossy().into_owned()
}

/// The folder of preset files: `presets` in the `.soundpad-rs` folder of the
/// user's home directory, or of the current directory (".") when there is no home.
pub fn presets_dir_for(home: Option<&str>) -> (r: String)
    ensures
        r@ == path_joined(
            path_joined(
                match home {
                    Some(h) => h@,
                    None => "."@,
                },
                ".soundpad-rs"@,
            ),
            "presets"@,
        ),
{
    let base = match home {
        Some(h) => h,
        None => ".",
    };
    let dir = join_path(base, ".soundpad-rs");
    join_path(dir.as_str(), "presets")
}

} // verus!
