//! Where the sound files and sounds files live.

use vstd::prelude::*;
use crate::paths::{joined_path, path_join};

verus! {

/// The repository that the sound assets are downloaded from.
pub const REPO_URL_BASE: &'static str = "https://raw.githubusercontent.com/AnonMiraj/Tanin/main/";

/// The text of a string literal as a `String`.
fn owned_literal(s: &'static str) -> (r: String)
    ensures
        r@ == s@,
{
    let r = s.to_string();
    proof {
        broadcast use vstd::string::group_string_axioms;
    }
    r
}

/// The places a bundled sounds file is looked for, in order: next to the
/// program, in the user's data directory (when there is one), and in the
/// system-wide share directory.
pub fn asset_path_candidates(user_data_dir: Option<String>) -> (r: Vec<String>)
    ensures
        r@.len() == if user_data_dir is Some { 3nat } else { 2nat },
        r@[0]@ == "assets/sounds.toml"@,
        r@[r@.len() - 1]@ == "/usr/share/tanin/assets/sounds.toml"@,
        user_data_dir matches Some(d) ==> r@[1]@ == joined_path(
            joined_path(d@, "assets"@),
            "sounds.toml"@,
        ),
{
    let mut r: Vec<String> = Vec::new();
    r.push(owned_literal("assets/sounds.toml"));
    if let Some(d) = user_data_dir {
        let assets = path_join(d.as_str(), "assets");
        r.push(path_join(assets.as_str(), "sounds.toml"));
    }
    r.push(owned_literal("/usr/share/tanin/assets/sounds.toml"));
    r
}

/// The first candidate that exists (`exists[i]` tells whether candidate `i` does).
pub fn first_existing(exists: &Vec<bool>) -> (r: Option<usize>)
    ensures
        match r {
            Some(i) => i < exists@.len() && exists@[i as int] && forall|j: int|
                0 <= j < i ==> !exists@[j],
            None => forall|j: int| 0 <= j < exists@.len() ==> !exists@[j],
        },
{
    for i in 0..exists.len()
        invariant
            forall|j: int| 0 <= j < i ==> !exists@[j],
    {
        if exists[i] {
            return Some(i);
        }
    }
    None
}

/// The file holding the user's own sounds: `sounds.toml` in the user's
/// configuration directory, or `custom_sounds.toml` when there is none.
pub fn custom_sounds_path(config_dir: Option<String>) -> (r: String)
    ensures
        match config_dir {
            Some(d) => r@ == joined_path(d@, "sounds.toml"@),
            None => r@ == "custom_sounds.toml"@,
        },
{
    match config_dir {
        Some(d) => path_join(d.as_str(), "sounds.toml"),
        None => owned_literal("custom_sounds.toml"),
    }
}

/// Where the sounds file is downloaded from.
pub fn config_download_url() -> (r: String)
    ensures
        r@ == REPO_URL_BASE@ + "assets/sounds.toml"@,
{
    let mut r = owned_literal(REPO_URL_BASE);
    let tail = owned_literal("assets/sounds.toml");
    let tail_chars = crate::text::chars_of(tail.as_str());
    for i in 0..tail_chars.len()
        invariant
            tail_chars@ == "assets/sounds.toml"@,
            r@ == REPO_URL_BASE@ + tail_chars@.take(i as int),
    {
        crate::text::push_char(&mut r, tail_chars[i]);
        assert(tail_chars@.take(i + 1) =~= tail_chars@.take(i as int).push(tail_chars@[i as int]));
    }
    assert(tail_chars@.take(tail_chars.len() as int) =~= tail_chars@);
    r
}

} // verus!
