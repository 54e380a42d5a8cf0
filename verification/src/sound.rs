//! The sound record shared by the whole library.

use vstd::prelude::*;

verus! {

/// IEEE-754 single-precision bit pattern of the default linear volume, one half.
pub const DEFAULT_VOLUME_BITS: u32 = 0x3f00_0000u32;

/// One playable sound of the library.
///
/// The linear volume is a floating-point quantity; the library never computes
/// with it and carries it as the bit pattern of the `f32` value
/// (`f32::to_bits`), so every operation here preserves it exactly.
#[derive(Clone, Debug)]
pub struct Sound {
    pub id: String,
    pub name: String,
    pub category: String,
    pub file_path: String,
    pub volume_bits: u32,
    pub icon: String,
    pub url: Option<String>,
    pub error_state: bool,
}

/// The mathematical value of a [`Sound`].
pub struct SoundView {
    pub id: Seq<char>,
    pub name: Seq<char>,
    pub category: Seq<char>,
    pub file_path: Seq<char>,
    pub volume_bits: u32,
    pub icon: Seq<char>,
    pub url: Option<Seq<char>>,
    pub error_state: bool,
}

/// The view of an optional string.
pub open spec fn opt_view(o: Option<String>) -> Option<Seq<char>> {
    match o {
        Some(s) => Some(s@),
        None => None,
    }
}

impl View for Sound {
    type V = SoundView;

    open spec fn view(&self) -> SoundView {
        SoundView {
            id: self.id@,
            name: self.name@,
            category: self.category@,
            file_path: self.file_path@,
            volume_bits: self.volume_bits,
            icon: self.icon@,
            url: opt_view(self.url),
            error_state: self.error_state,
        }
    }
}

/// The views of a sequence of sounds.
pub open spec fn views(s: Seq<Sound>) -> Seq<SoundView> {
    s.map_values(|x: Sound| x@)
}

/// The views of a sequence of strings.
pub open spec fn str_views(s: Seq<String>) -> Seq<Seq<char>> {
    s.map_values(|x: String| x@)
}

/// The icon a sound gets when its entry names none: a single musical note.
pub fn default_icon() -> (s: String)
    ensures
        s@ == seq!['\u{1F3B5}'],
{
    let r = "\u{1F3B5}".to_string();
    proof {
        reveal_strlit("\u{1F3B5}");
        broadcast use vstd::string::group_string_axioms;
    }
    r
}

} // verus!
