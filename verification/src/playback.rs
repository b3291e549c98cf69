//! Playback decisions of the audio engine: the state shown for a sound, the
//! output device choice, the device list offered in the settings, and which
//! looped sounds are restarted.
//!
//! The engine itself (decoding, device streams, volumes and clocks) lives in the
//! application; it asks these functions what to do.

use vstd::prelude::*;
use crate::models::PlaybackState;
use crate::text::{ascii_lower, chars_of, string_views, str_eq, to_ascii_lower, chars_eq_str};

verus! {

/// The state shown for a sound: stopped unless it is active with audio queued;
/// then paused or playing as its player is.
pub open spec fn state_of_player(active: bool, queue_empty: bool, paused: bool) -> PlaybackState {
    if active && !queue_empty {
        if paused {
            PlaybackState::Paused
        } else {
            PlaybackState::Playing
        }
    } else {
        PlaybackState::Stopped
    }
}

/// The playback state of a sound, from what its player reports.
pub fn playback_state(active: bool, queue_empty: bool, paused: bool) -> (res: PlaybackState)
    ensures
        res == state_of_player(active, queue_empty, paused),
{
    if active && !queue_empty {
        if paused {
            PlaybackState::Paused
        } else {
            PlaybackState::Playing
        }
    } else {
        PlaybackState::Stopped
    }
}

/// Whether a state counts as playing.
pub fn is_playing_state(s: PlaybackState) -> (res: bool)
    ensures
        res == (s == PlaybackState::Playing),
{
    s == PlaybackState::Playing
}

/// The device that playback opens: `None` (the OS default) for "default" in any
/// ASCII case, otherwise the named device.
pub open spec fn chosen_device(name: Seq<char>) -> Option<Seq<char>> {
    if ascii_lower(name) == "default"@ {
        None
    } else {
        Some(name)
    }
}

/// Selects the output device ("default" → OS default).
pub fn output_device_choice(device: &str) -> (res: Option<String>)
    ensures
        match res {
            Some(d) => chosen_device(device@) == Some(d@),
            None => chosen_device(device@) is None,
        },
{
    let chars = chars_of(device);
    let lower = to_ascii_lower(&chars);
    if chars_eq_str(&lower, "default") {
        None
    } else {
        Some(device.to_owned())
    }
}

/// The names in `found` added to `names` in order, skipping those already there.
pub open spec fn with_new_names(names: Seq<Seq<char>>, found: Seq<Seq<char>>) -> Seq<Seq<char>>
    decreases found.len(),
{
    if found.len() == 0 {
        names
    } else {
        let r = with_new_names(names, found.drop_last());
        if r.contains(found.last()) {
            r
        } else {
            r.push(found.last())
        }
    }
}

fn has_name(names: &Vec<String>, n: &String) -> (res: bool)
    ensures
        res == string_views(names@).contains(n@),
{
    let mut i: usize = 0;
    while i < names.len()
        invariant
            i <= names.len(),
            forall|k: int| 0 <= k < i ==> string_views(names@)[k] != n@,
        decreases names.len() - i,
    {
        if str_eq(names[i].as_str(), n.as_str()) {
            assert(string_views(names@)[i as int] == n@);
            return true;
        }
        i += 1;
    }
    false
}

/// The output device names offered: "default" first, then each device name found,
/// once, in the order found.
pub fn device_names(found: &Vec<String>) -> (res: Vec<String>)
    ensures
        string_views(res@) == with_new_names(seq!["default"@], string_views(found@)),
{
    let ghost fv = string_views(found@);
    let mut names: Vec<String> = Vec::new();
    names.push("default".to_owned());
    assert(string_views(names@) =~= seq!["default"@]);
    assert(fv.take(0) =~= Seq::<Seq<char>>::empty());
    let mut i: usize = 0;
    while i < found.len()
        invariant
            i <= found.len(),
            fv == string_views(found@),
            string_views(names@) == with_new_names(seq!["default"@], fv.take(i as int)),
        decreases found.len() - i,
    {
        assert(fv.take(i + 1).drop_last() =~= fv.take(i as int));
        assert(fv.take(i + 1).last() == found@[i as int]@);
        if !has_name(&names, &found[i]) {
            let ghost prev = names@;
            let n = found[i].clone();
            names.push(n);
            assert(string_views(names@) =~= string_views(prev).push(n@));
        }
        i += 1;
    }
    assert(fv.take(found.len() as int) =~= fv);
    names
}

/// Whether an active sound is restarted by the periodic tick: it loops and its
/// player has run out of audio.
pub fn needs_restart(looped: bool, queue_empty: bool) -> (res: bool)
    ensures
        res == (looped && queue_empty),
{
    looped && queue_empty
}

} // verus!
