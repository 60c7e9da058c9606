//! What a key press asks of the application outside the prompts.

use vstd::prelude::*;
use crate::playback::PlaybackIntent;
use crate::prompts::key_is;
use crate::textinput::{TextInputId, TextInputShortcut};
use crate::time::MediaTime;

verus! {

/// The modifier keys held with a key press.
#[derive(Clone, Copy, Debug, PartialEq, Eq, Structural)]
pub struct KeyModifiers {
    pub control: bool,
    pub alt: bool,
    pub shift: bool,
    pub platform: bool,
    pub function: bool,
}

impl KeyModifiers {
    /// Whether any modifier is held.
    pub open spec fn any_held(self) -> bool {
        self.control || self.alt || self.shift || self.platform || self.function
    }

    /// Whether any modifier is held.
    pub fn modified(&self) -> (r: bool)
        ensures
            r == self.any_held(),
    {
        self.control || self.alt || self.shift || self.platform || self.function
    }
}

/// What a key press asks of the application.
#[derive(Debug, PartialEq, Eq)]
pub enum AppIntent {
    StartSearch,
    TextInput(TextInputId, TextInputShortcut),
    Playback(PlaybackIntent),
}

/// The step of a seek by the arrow keys: ten seconds.
pub open spec fn keyboard_seek_step() -> nat {
    10_000_000_000
}

/// Whether Enter in a field starts a search: in the search field, with no
/// modifier, with Shift, or with the platform's primary shortcut modifier.
pub open spec fn starts_search(key: Seq<char>, modifiers: KeyModifiers, primary: bool, input: TextInputId) -> bool {
    input is Query && key == "enter"@ && (!modifiers.any_held() || modifiers.shift || primary)
}

/// What a key press asks for. With no field focused, a bare Space toggles
/// playback and the bare arrow keys seek ten seconds back or forward. In a
/// field, Enter may start a search (see `starts_search`); otherwise the key
/// is the field's editing command `shortcut`, if the platform's key map
/// gives one for it.
pub fn key_down_intent(
    key: &str,
    modifiers: KeyModifiers,
    primary: bool,
    focused_input: Option<TextInputId>,
    shortcut: Option<TextInputShortcut>,
) -> (r: Option<AppIntent>)
    ensures
        focused_input is None ==> {
            &&& (key@ == "space"@ && !modifiers.any_held()) ==> r == Some(AppIntent::Playback(PlaybackIntent::Toggle))
            &&& (key@ == "left"@ && !modifiers.any_held()) ==> (r matches Some(AppIntent::Playback(PlaybackIntent::SeekBackward(t)))
                && t@ == keyboard_seek_step())
            &&& (key@ == "right"@ && !modifiers.any_held()) ==> (r matches Some(AppIntent::Playback(PlaybackIntent::SeekForward(t)))
                && t@ == keyboard_seek_step())
            &&& (modifiers.any_held() || (key@ != "space"@ && key@ != "left"@ && key@ != "right"@)) ==> r is None
        },
        focused_input matches Some(id) ==> r == if starts_search(key@, modifiers, primary, id) {
            Some(AppIntent::StartSearch)
        } else {
            match shortcut {
                Some(s) => Some(AppIntent::TextInput(id, s)),
                None => None,
            }
        },
{
    proof {
        reveal_strlit("space");
        reveal_strlit("left");
        reveal_strlit("right");
        reveal_strlit("enter");
        assert("space"@.len() == 5 && "left"@.len() == 4 && "right"@.len() == 5);
        assert("space"@[0] == 's' && "right"@[0] == 'r');
    }
    match focused_input {
        None => {
            if modifiers.modified() {
                None
            } else if key_is(key, "space") {
                Some(AppIntent::Playback(PlaybackIntent::Toggle))
            } else if key_is(key, "left") {
                Some(AppIntent::Playback(PlaybackIntent::SeekBackward(MediaTime::from_secs(10))))
            } else if key_is(key, "right") {
                Some(AppIntent::Playback(PlaybackIntent::SeekForward(MediaTime::from_secs(10))))
            } else {
                None
            }
        },
        Some(id) => {
            let in_query = match id { TextInputId::Query => true, _ => false };
            if in_query && key_is(key, "enter") && (!modifiers.modified() || modifiers.shift || primary) {
                Some(AppIntent::StartSearch)
            } else {
                match shortcut {
                    Some(s) => Some(AppIntent::TextInput(id, s)),
                    None => None,
                }
            }
        },
    }
}

} // verus!
