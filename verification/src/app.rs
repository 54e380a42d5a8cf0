//! The application state and the operations on its sound library.

use vstd::prelude::*;
use vstd::utf8::encode_utf8;
use crate::order::{display_sorted, sort_in_display_order};
use crate::sound::{default_icon, str_views, views, Sound, SoundView, DEFAULT_VOLUME_BITS};
use crate::catalog::{id_for, sound_id};
use crate::text::{
    chars_of, contains_chars, has_infix, is_prefix, lowercase, replace_char, starts_with, to_lowercase, utf8_len,
};
use crate::downloads::{
    disconnected_message, disconnected_text, missing_tasks, task_views, DownloadTask,
};

verus! {

/// What the main loop should do after an event.
#[derive(Clone, Copy, Debug, PartialEq, Eq, Structural)]
pub enum Action {
    Continue,
    Quit,
}

/// The screen that is shown.
#[derive(Clone, Copy, Debug, PartialEq, Eq, Structural)]
pub enum CurrentView {
    Main,
    Presets,
    Help,
    Downloads,
    AssetMissing,
    DownloadingAssets,
}

/// What the asset downloader reports back.
pub enum AssetDownloadEvent {
    /// The sounds file was downloaded; these are its sounds.
    ConfigDownloaded(Vec<Sound>),
    Error(String),
}

/// The user settings that the library logic reads.
pub struct Config {
    /// Categories that are never listed.
    pub hidden_categories: Vec<String>,
    /// Categories listed first, in this order.
    pub category_order: Vec<String>,
    /// Whether the bundled sound set is loaded.
    pub enable_bundled_sounds: bool,
    /// Ids of sounds whose own settings hide them.
    pub hidden_sounds: Vec<String>,
}

/// The saved state of one sound.
pub struct SoundState {
    pub id: String,
    pub enabled: bool,
    /// Bit pattern of the `f32` linear volume.
    pub volume_bits: u32,
}

/// The state saved between runs.
pub struct Session {
    /// Bit pattern of the `f32` master volume.
    pub global_volume_bits: u32,
    /// One entry per sound id; recording keeps it so
    /// (`session::law_recorded_ids_distinct`).
    pub sounds: Vec<SoundState>,
}

/// Everything the application's decisions read and change.
pub struct App {
    pub sounds: Vec<Sound>,
    pub cursor_pos: usize,
    pub view: CurrentView,
    pub config: Config,
    pub session: Session,
    /// Number of saved presets.
    pub preset_count: usize,
    pub quitting: bool,
    pub grid_cols: u16,
    pub width: u16,
    pub height: u16,
    pub muted: bool,
    pub grid_scroll: u16,
    pub preset_cursor_pos: usize,
    pub preset_input_mode: bool,
    pub preset_input_buffer: String,
    pub preset_rename_target: Option<usize>,
    pub active_preset: Option<String>,
    pub add_sound_name: String,
    pub add_sound_category: String,
    pub add_sound_icon: String,
    pub add_sound_url: String,
    /// 0: name, 1: category, 2: icon, 3: URL.
    pub add_sound_focus_index: usize,
    pub add_sound_status: String,
    pub add_sound_suggestion: Option<String>,
    pub search_query: String,
    pub search_mode: bool,
    pub yt_dlp_available: bool,
    pub download_queue: Vec<DownloadTask>,
    pub active_download_index: Option<usize>,
    pub asset_download_error: Option<String>,
}

/// Whether a sound is listed: its category and the sound itself are not
/// hidden, and a non-empty query occurs, ignoring case, in its name or category.
pub open spec fn is_listed(
    s: SoundView,
    hidden_categories: Seq<Seq<char>>,
    hidden_sounds: Seq<Seq<char>>,
    query: Seq<char>,
) -> bool {
    &&& !hidden_categories.contains(s.category)
    &&& !hidden_sounds.contains(s.id)
    &&& (query.len() == 0 || has_infix(lowercase(s.name), lowercase(query)) || has_infix(
        lowercase(s.category),
        lowercase(query),
    ))
}

/// The indices below `n` of the listed sounds, in increasing order.
pub open spec fn listed_indices(
    s: Seq<SoundView>,
    hidden_categories: Seq<Seq<char>>,
    hidden_sounds: Seq<Seq<char>>,
    query: Seq<char>,
    n: int,
) -> Seq<int>
    decreases n,
{
    if n <= 0 {
        seq![]
    } else {
        let before = listed_indices(s, hidden_categories, hidden_sounds, query, n - 1);
        if is_listed(s[n - 1], hidden_categories, hidden_sounds, query) {
            before.push(n - 1)
        } else {
            before
        }
    }
}

/// Whether `category` completes the typed text `input`: it starts with it,
/// ignoring case, and is longer in bytes.
pub open spec fn completes(category: Seq<char>, input: Seq<char>) -> bool {
    is_prefix(lowercase(input), lowercase(category)) && encode_utf8(category).len() > encode_utf8(
        lowercase(input),
    ).len()
}

/// The first category of `categories` that completes `input`.
pub open spec fn first_completion(categories: Seq<Seq<char>>, input: Seq<char>) -> Option<
    Seq<char>,
>
    decreases categories.len(),
{
    if categories.len() == 0 {
        None
    } else if completes(categories[0], input) {
        Some(categories[0])
    } else {
        first_completion(categories.drop_first(), input)
    }
}

/// The category suggested while `input` is typed: none for empty input,
/// otherwise the first category of the library that completes it.
pub open spec fn suggestion_for(sounds: Seq<SoundView>, input: Seq<char>) -> Option<Seq<char>> {
    if input.len() == 0 {
        None
    } else {
        first_completion(sounds.map_values(|s: SoundView| s.category), input)
    }
}

/// The view of an optional string.
pub open spec fn opt_str(o: Option<String>) -> Option<Seq<char>> {
    match o {
        Some(s) => Some(s@),
        None => None,
    }
}

/// Whether some string of `v` equals `s`.
pub fn contains_string(v: &Vec<String>, s: &String) -> (r: bool)
    ensures
        r == str_views(v@).contains(s@),
{
    for i in 0..v.len()
        invariant
            forall|j: int| 0 <= j < i ==> str_views(v@)[j] != s@,
    {
        if v[i] == *s {
            assert(str_views(v@)[i as int] == s@);
            return true;
        }
    }
    false
}

impl App {
    /// A fresh application state: main view, empty library, empty forms,
    /// the default icon in the add-sound form.
    pub fn new(config: Config, session: Session, preset_count: usize, yt_dlp_available: bool) -> (app: App)
        ensures
            app.sounds@.len() == 0,
            app.cursor_pos == 0,
            app.view == CurrentView::Main,
            app.config == config,
            app.session == session,
            app.preset_count == preset_count,
            !app.quitting,
            app.grid_cols == 1,
            app.width == 80,
            app.height == 24,
            !app.muted,
            app.grid_scroll == 0,
            app.preset_cursor_pos == 0,
            !app.preset_input_mode,
            app.preset_input_buffer@.len() == 0,
            app.preset_rename_target is None,
            app.active_preset is None,
            app.add_sound_name@.len() == 0,
            app.add_sound_category@.len() == 0,
            app.add_sound_icon@ == seq!['\u{1F3B5}'],
            app.add_sound_url@.len() == 0,
            app.add_sound_focus_index == 0,
            app.add_sound_status@.len() == 0,
            app.add_sound_suggestion is None,
            app.search_query@.len() == 0,
            !app.search_mode,
            app.yt_dlp_available == yt_dlp_available,
            app.download_queue@.len() == 0,
            app.active_download_index is None,
            app.asset_download_error is None,
    {
        App {
            sounds: Vec::new(),
            cursor_pos: 0,
            view: CurrentView::Main,
            config,
            session,
            preset_count,
            quitting: false,
            grid_cols: 1,
            width: 80,
            height: 24,
            muted: false,
            grid_scroll: 0,
            preset_cursor_pos: 0,
            preset_input_mode: false,
            preset_input_buffer: String::new(),
            preset_rename_target: None,
            active_preset: None,
            add_sound_name: String::new(),
            add_sound_category: String::new(),
            add_sound_icon: default_icon(),
            add_sound_url: String::new(),
            add_sound_focus_index: 0,
            add_sound_status: String::new(),
            add_sound_suggestion: None,
            search_query: String::new(),
            search_mode: false,
            yt_dlp_available,
            download_queue: Vec::new(),
            active_download_index: None,
            asset_download_error: None,
        }
    }

    /// Stably sorts the library into display order (see [`crate::order`]).
    pub fn sort_sounds(&mut self)
        ensures
            views(final(self).sounds@) == display_sorted(
                str_views(old(self).config.category_order@),
                views(old(self).sounds@),
            ),
            *final(self) == (App { sounds: final(self).sounds, ..*old(self) }),
    {
        sort_in_display_order(&self.config.category_order, &mut self.sounds);
    }

    /// The listed sounds with their positions in the library, in library order.
    pub fn get_filtered_sounds(&self) -> (r: Vec<(usize, &Sound)>)
        ensures
            r@.len() == filtered_indices(*self).len(),
            forall|k: int|
                0 <= k < r@.len() ==> (#[trigger] r@[k]).0 == filtered_indices(*self)[k] && r@[k].0
                    < self.sounds@.len() && *r@[k].1 == self.sounds@[r@[k].0 as int],
    {
        let ghost s = views(self.sounds@);
        let ghost hc = str_views(self.config.hidden_categories@);
        let ghost hs = str_views(self.config.hidden_sounds@);
        let ghost q = self.search_query@;
        let query_empty = self.search_query.as_str().is_empty();
        let query = chars_of(to_lowercase(self.search_query.as_str()).as_str());
        let mut r: Vec<(usize, &Sound)> = Vec::new();
        for i in 0..self.sounds.len()
            invariant
                s == views(self.sounds@),
                hc == str_views(self.config.hidden_categories@),
                hs == str_views(self.config.hidden_sounds@),
                q == self.search_query@,
                query_empty == (q.len() == 0),
                query@ == lowercase(q),
                r@.len() == listed_indices(s, hc, hs, q, i as int).len(),
                forall|k: int|
                    0 <= k < r@.len() ==> (#[trigger] r@[k]).0 == listed_indices(
                        s,
                        hc,
                        hs,
                        q,
                        i as int,
                    )[k] && r@[k].0 < self.sounds@.len() && *r@[k].1 == self.sounds@[r@[k].0 as int],
        {
            let snd = &self.sounds[i];
            assert(s[i as int] == snd@);
            let mut listed = !contains_string(&self.config.hidden_categories, &snd.category)
                && !contains_string(&self.config.hidden_sounds, &snd.id);
            if listed && !query_empty {
                let name = chars_of(to_lowercase(snd.name.as_str()).as_str());
                let category = chars_of(to_lowercase(snd.category.as_str()).as_str());
                listed = contains_chars(&name, &query) || contains_chars(&category, &query);
            }
            assert(listed == is_listed(s[i as int], hc, hs, q));
            let ghost prev = r@;
            if listed {
                r.push((i, snd));
            }
            assert forall|k: int|
                0 <= k < r@.len() implies (#[trigger] r@[k]).0 == listed_indices(
                    s,
                    hc,
                    hs,
                    q,
                    i + 1,
                )[k] && r@[k].0 < self.sounds@.len() && *r@[k].1 == self.sounds@[r@[k].0 as int] by {
                if k < prev.len() {
                    assert(r@[k] == prev[k]);
                }
            }
        }
        r
    }

    /// Recomputes the category suggestion for the add-sound form.
    pub fn update_suggestion(&mut self)
        ensures
            opt_str(final(self).add_sound_suggestion) == suggestion_for(
                views(old(self).sounds@),
                old(self).add_sound_category@,
            ),
            *final(self) == (App { add_sound_suggestion: final(self).add_sound_suggestion, ..*old(self) }),
    {
        if self.add_sound_category.as_str().is_empty() {
            self.add_sound_suggestion = None;
            return;
        }
        let input = to_lowercase(self.add_sound_category.as_str());
        let input_chars = chars_of(input.as_str());
        let input_len = utf8_len(&input_chars);
        let ghost cats = views(self.sounds@).map_values(|s: SoundView| s.category);
        let mut found: Option<String> = None;
        let mut i: usize = 0;
        assert(cats.skip(0) =~= cats);
        while i < self.sounds.len() && found.is_none()
            invariant
                i <= self.sounds.len(),
                cats == views(self.sounds@).map_values(|s: SoundView| s.category),
                input@ == lowercase(self.add_sound_category@),
                input_chars@ == input@,
                input_len == encode_utf8(input@).len(),
                self.add_sound_category@.len() > 0,
                found is None ==> first_completion(cats, self.add_sound_category@)
                    == first_completion(cats.skip(i as int), self.add_sound_category@),
                found is Some ==> opt_str(found) == first_completion(
                    cats,
                    self.add_sound_category@,
                ),
            decreases self.sounds.len() - i,
        {
            let cat = &self.sounds[i].category;
            assert(cats.skip(i as int)[0] == cat@);
            let lower = chars_of(to_lowercase(cat.as_str()).as_str());
            if starts_with(&lower, &input_chars) && utf8_len(&chars_of(cat.as_str())) > input_len {
                found = Some(cat.clone());
            }
            assert(cats.skip(i as int).drop_first() =~= cats.skip(i + 1));
            i = i + 1;
        }
        self.add_sound_suggestion = found;
    }

    /// Adds the bundled sounds (or, when there are none to load, shows the
    /// missing-assets prompt) and then the custom sounds, and sorts the library.
    pub fn load_library(&mut self, bundled: Option<Vec<Sound>>, custom: Vec<Sound>)
        ensures
            views(final(self).sounds@) == display_sorted(
                str_views(old(self).config.category_order@),
                views(
                    match bundled {
                        Some(b) => old(self).sounds@ + b@,
                        None => old(self).sounds@,
                    } + custom@,
                ),
            ),
            final(self).view == (if bundled is None {
                CurrentView::AssetMissing
            } else {
                old(self).view
            }),
            *final(self) == (App { sounds: final(self).sounds, view: final(self).view, ..*old(self) }),
    {
        let ghost start = self.sounds@;
        match bundled {
            Some(b) => {
                let mut b = b;
                self.sounds.append(&mut b);
            },
            None => {
                self.view = CurrentView::AssetMissing;
            },
        }
        let mut custom = custom;
        self.sounds.append(&mut custom);
        self.sort_sounds();
    }

    /// After the sounds file was downloaded: queues downloads for the sounds
    /// whose files are missing, reloads the library (the bundled sounds
    /// replace it when they are enabled and were loaded; the custom sounds
    /// are added), sorts it, and shows the downloads view.
    pub fn on_config_downloaded(
        &mut self,
        downloaded: &Vec<Sound>,
        file_exists: &Vec<bool>,
        bundled: Option<Vec<Sound>>,
        custom: Vec<Sound>,
    )
        requires
            downloaded@.len() == file_exists@.len(),
        ensures
            task_views(final(self).download_queue@) == task_views(old(self).download_queue@)
                + missing_tasks(views(downloaded@), file_exists@, downloaded@.len() as int),
            views(final(self).sounds@) == display_sorted(
                str_views(old(self).config.category_order@),
                views(
                    (if old(self).config.enable_bundled_sounds && bundled is Some {
                        bundled->0@
                    } else {
                        old(self).sounds@
                    }) + custom@,
                ),
            ),
            final(self).view == CurrentView::Downloads,
            *final(self) == (App {
                sounds: final(self).sounds,
                view: final(self).view,
                download_queue: final(self).download_queue,
                ..*old(self)
            }),
    {
        self.queue_missing_downloads(downloaded, file_exists);
        if self.config.enable_bundled_sounds {
            if let Some(b) = bundled {
                self.sounds = b;
            }
        }
        let mut custom = custom;
        self.sounds.append(&mut custom);
        self.sort_sounds();
        self.view = CurrentView::Downloads;
    }

    /// The asset download failed with `message`.
    pub fn on_asset_download_error(&mut self, message: String)
        ensures
            final(self).asset_download_error == Some(message),
            *final(self) == (App { asset_download_error: final(self).asset_download_error, ..*old(self) }),
    {
        self.asset_download_error = Some(message);
    }

    /// The asset downloader went away without an answer.
    pub fn on_asset_channel_closed(&mut self)
        ensures
            opt_str(final(self).asset_download_error) == Some(disconnected_message()),
            *final(self) == (App { asset_download_error: final(self).asset_download_error, ..*old(self) }),
    {
        self.asset_download_error = Some(disconnected_text());
    }

    /// Records a downloaded sound in the library: a sound with the same id
    /// gets the new file and URL and loses its error mark; otherwise a new
    /// sound with the default volume is added. The library is then sorted.
    pub fn register_downloaded_sound(
        &mut self,
        name: String,
        category: String,
        path: String,
        icon: String,
        url: String,
    )
        ensures
            views(final(self).sounds@) == display_sorted(
                str_views(old(self).config.category_order@),
                with_downloaded(views(old(self).sounds@), name@, category@, path@, icon@, url@),
            ),
            *final(self) == (App { sounds: final(self).sounds, ..*old(self) }),
    {
        let id = sound_id(name.as_str());
        let ghost s = views(self.sounds@);
        let mut found: Option<usize> = None;
        let mut i: usize = 0;
        assert(s.skip(0) =~= s);
        while i < self.sounds.len() && found.is_none()
            invariant
                i <= self.sounds.len(),
                s == views(self.sounds@),
                id@ == id_for(name@),
                found is None ==> first_with_id(s, id@) == match first_with_id(s.skip(i as int), id@) {
                    Some(k) => Some(k + i),
                    None => None,
                },
                found matches Some(k) ==> first_with_id(s, id@) == Some(k as int) && k < self.sounds.len(),
            decreases self.sounds.len() - i,
        {
            assert(s.skip(i as int)[0] == self.sounds@[i as int]@);
            if self.sounds[i].id == id {
                found = Some(i);
            } else {
                assert(s.skip(i as int).drop_first() =~= s.skip(i + 1));
            }
            i = i + 1;
        }
        match found {
            Some(k) => {
                let mut sounds: Vec<Sound> = Vec::new();
                std::mem::swap(&mut sounds, &mut self.sounds);
                let mut snd = sounds.remove(k);
                snd.file_path = path;
                snd.url = Some(url);
                snd.error_state = false;
                sounds.insert(k, snd);
                self.sounds = sounds;
                assert(views(self.sounds@) =~= with_downloaded(s, name@, category@, path@, icon@, url@));
            },
            None => {
                self.sounds.push(
                    Sound {
                        id,
                        name,
                        category,
                        file_path: path,
                        volume_bits: DEFAULT_VOLUME_BITS,
                        icon,
                        url: Some(url),
                        error_state: false,
                    },
                );
                assert(views(self.sounds@) =~= with_downloaded(s, name@, category@, path@, icon@, url@));
            },
        }
        self.sort_sounds();
    }

    /// Marks the sound at `index` as failing to play.
    pub fn mark_sound_error(&mut self, index: usize)
        ensures
            index < old(self).sounds@.len() ==> views(final(self).sounds@) == views(old(self).sounds@).update(
                index as int,
                SoundView { error_state: true, ..views(old(self).sounds@)[index as int] },
            ),
            index >= old(self).sounds@.len() ==> final(self).sounds == old(self).sounds,
            *final(self) == (App { sounds: final(self).sounds, ..*old(self) }),
    {
        if index < self.sounds.len() {
            let ghost s = views(self.sounds@);
            let mut sounds: Vec<Sound> = Vec::new();
            std::mem::swap(&mut sounds, &mut self.sounds);
            let mut snd = sounds.remove(index);
            snd.error_state = true;
            sounds.insert(index, snd);
            self.sounds = sounds;
            assert(views(self.sounds@) =~= s.update(index as int, SoundView { error_state: true, ..s[index as int] }));
        }
    }
}

/// Index of the first sound with id `id`.
pub open spec fn first_with_id(s: Seq<SoundView>, id: Seq<char>) -> Option<int>
    decreases s.len(),
{
    if s.len() == 0 {
        None
    } else if s[0].id == id {
        Some(0)
    } else {
        match first_with_id(s.drop_first(), id) {
            Some(i) => Some(i + 1),
            None => None,
        }
    }
}

/// The library after a download of a sound named `name` finished.
pub open spec fn with_downloaded(
    s: Seq<SoundView>,
    name: Seq<char>,
    category: Seq<char>,
    path: Seq<char>,
    icon: Seq<char>,
    url: Seq<char>,
) -> Seq<SoundView> {
    match first_with_id(s, id_for(name)) {
        Some(i) => s.update(i, SoundView { file_path: path, url: Some(url), error_state: false, ..s[i] }),
        None => s.push(
            SoundView {
                id: id_for(name),
                name,
                category,
                file_path: path,
                volume_bits: DEFAULT_VOLUME_BITS,
                icon,
                url: Some(url),
                error_state: false,
            },
        ),
    }
}

/// The listed indices are exactly the positions below `n` of the listed
/// sounds, in increasing order.
pub proof fn law_listed_indices(
    s: Seq<SoundView>,
    hidden_categories: Seq<Seq<char>>,
    hidden_sounds: Seq<Seq<char>>,
    query: Seq<char>,
    n: int,
)
    requires
        0 <= n <= s.len(),
    ensures
        ({
            let r = listed_indices(s, hidden_categories, hidden_sounds, query, n);
            &&& forall|k: int|
                0 <= k < r.len() ==> 0 <= #[trigger] r[k] < n && is_listed(
                    s[r[k]],
                    hidden_categories,
                    hidden_sounds,
                    query,
                )
            &&& forall|a: int, b: int| 0 <= a < b < r.len() ==> r[a] < r[b]
            &&& forall|i: int|
                0 <= i < n && is_listed(#[trigger] s[i], hidden_categories, hidden_sounds, query)
                    ==> r.contains(i)
        }),
    decreases n,
{
    if n > 0 {
        law_listed_indices(s, hidden_categories, hidden_sounds, query, n - 1);
        let prev = listed_indices(s, hidden_categories, hidden_sounds, query, n - 1);
        let r = listed_indices(s, hidden_categories, hidden_sounds, query, n);
        assert forall|i: int|
            0 <= i < n && is_listed(#[trigger] s[i], hidden_categories, hidden_sounds, query)
                implies r.contains(i) by {
            if i < n - 1 {
                let k = choose|k: int| 0 <= k < prev.len() && prev[k] == i;
                assert(r[k] == i);
            } else {
                assert(r[r.len() - 1] == i);
            }
        }
    }
}

/// A search only narrows the list: every sound listed while a query is
/// typed is listed with an empty query too.
pub proof fn law_search_narrows(
    s: Seq<SoundView>,
    hidden_categories: Seq<Seq<char>>,
    hidden_sounds: Seq<Seq<char>>,
    query: Seq<char>,
    n: int,
)
    requires
        0 <= n <= s.len(),
    ensures
        forall|k: int|
            0 <= k < listed_indices(s, hidden_categories, hidden_sounds, query, n).len()
                ==> listed_indices(s, hidden_categories, hidden_sounds, seq![], n).contains(
                #[trigger] listed_indices(s, hidden_categories, hidden_sounds, query, n)[k],
            ),
{
    law_listed_indices(s, hidden_categories, hidden_sounds, query, n);
    law_listed_indices(s, hidden_categories, hidden_sounds, seq![], n);
    let r = listed_indices(s, hidden_categories, hidden_sounds, query, n);
    assert forall|k: int| 0 <= k < r.len() implies listed_indices(
        s,
        hidden_categories,
        hidden_sounds,
        seq![],
        n,
    ).contains(#[trigger] r[k]) by {
        assert(is_listed(s[r[k]], hidden_categories, hidden_sounds, seq![]));
    }
}

/// The positions of the sounds that `app` lists.
pub open spec fn filtered_indices(app: App) -> Seq<int> {
    listed_indices(
        views(app.sounds@),
        str_views(app.config.hidden_categories@),
        str_views(app.config.hidden_sounds@),
        app.search_query@,
        app.sounds@.len() as int,
    )
}

/// Of two apps that differ only in their query, `a`'s being empty: every
/// position that `get_filtered_sounds` returns for `b` (`rb`) is among
/// those it returns for `a` (`ra`).
pub proof fn law_filtered_sounds_narrow(a: App, b: App, ra: Seq<usize>, rb: Seq<usize>)
    requires
        a == (App { search_query: a.search_query, ..b }),
        a.search_query@.len() == 0,
        ra.len() == filtered_indices(a).len(),
        forall|k: int| 0 <= k < ra.len() ==> ra[k] == filtered_indices(a)[k],
        rb.len() == filtered_indices(b).len(),
        forall|k: int| 0 <= k < rb.len() ==> rb[k] == filtered_indices(b)[k],
    ensures
        forall|k: int| 0 <= k < rb.len() ==> ra.contains(#[trigger] rb[k]),
{
    let s = views(b.sounds@);
    let hc = str_views(b.config.hidden_categories@);
    let hs = str_views(b.config.hidden_sounds@);
    let n = b.sounds@.len() as int;
    law_search_narrows(s, hc, hs, b.search_query@, n);
    assert(a.search_query@ =~= seq![]);
    assert forall|k: int| 0 <= k < rb.len() implies ra.contains(#[trigger] rb[k]) by {
        let fa = filtered_indices(a);
        assert(fa.contains(filtered_indices(b)[k]));
        let j = choose|j: int| 0 <= j < fa.len() && fa[j] == filtered_indices(b)[k];
        assert(ra[j] == rb[k]);
    }
}

/// A sound that nothing hides is listed whenever the lowercased query occurs
/// anywhere in its lowercased category or name, and it is listed with an
/// empty query.
pub proof fn law_query_found_anywhere(app: App, i: int, before: Seq<char>, after: Seq<char>)
    requires
        0 <= i < app.sounds@.len(),
        !str_views(app.config.hidden_categories@).contains(app.sounds@[i].category@),
        !str_views(app.config.hidden_sounds@).contains(app.sounds@[i].id@),
        app.search_query@.len() == 0
            || lowercase(app.sounds@[i].category@) == before + lowercase(app.search_query@) + after
            || lowercase(app.sounds@[i].name@) == before + lowercase(app.search_query@) + after,
    ensures
        filtered_indices(app).contains(i),
{
    let s = views(app.sounds@);
    let q = lowercase(app.search_query@);
    assert(s[i] == app.sounds@[i]@);
    let k = before.len() as int;
    if app.search_query@.len() != 0 {
        if lowercase(app.sounds@[i].category@) == before + q + after {
            assert(lowercase(s[i].category).subrange(k, k + q.len()) =~= q);
        } else {
            assert(lowercase(s[i].name).subrange(k, k + q.len()) =~= q);
        }
    }
    law_listed_indices(
        s,
        str_views(app.config.hidden_categories@),
        str_views(app.config.hidden_sounds@),
        app.search_query@,
        app.sounds@.len() as int,
    );
}

/// Only such sounds are listed: a listed sound is hidden neither by its
/// category nor by itself, and a non-empty lowercased query occurs in its
/// lowercased category or name.
pub proof fn law_listed_only_matching(app: App, i: int)
    requires
        filtered_indices(app).contains(i),
    ensures
        0 <= i < app.sounds@.len(),
        !str_views(app.config.hidden_categories@).contains(app.sounds@[i].category@),
        !str_views(app.config.hidden_sounds@).contains(app.sounds@[i].id@),
        app.search_query@.len() == 0 || exists|before: Seq<char>, after: Seq<char>|
            lowercase(app.sounds@[i].category@) == before + lowercase(app.search_query@) + after
                || lowercase(app.sounds@[i].name@) == before + lowercase(app.search_query@) + after,
{
    let s = views(app.sounds@);
    let q = lowercase(app.search_query@);
    law_listed_indices(
        s,
        str_views(app.config.hidden_categories@),
        str_views(app.config.hidden_sounds@),
        app.search_query@,
        app.sounds@.len() as int,
    );
    let r = filtered_indices(app);
    let k = choose|k: int| 0 <= k < r.len() && r[k] == i;
    assert(0 <= r[k] < app.sounds@.len());
    assert(s[i] == app.sounds@[i]@);
    if app.search_query@.len() != 0 {
        let c = lowercase(s[i].category);
        let nm = lowercase(s[i].name);
        if has_infix(c, q) {
            let j = choose|j: int| 0 <= j && j + q.len() <= c.len() && #[trigger] c.subrange(j, j + q.len()) == q;
            assert(c =~= c.subrange(0, j) + q + c.subrange(j + q.len(), c.len() as int));
        } else {
            let j = choose|j: int| 0 <= j && j + q.len() <= nm.len() && #[trigger] nm.subrange(j, j + q.len()) == q;
            assert(nm =~= nm.subrange(0, j) + q + nm.subrange(j + q.len(), nm.len() as int));
        }
    }
}

/// No sound of `s` has id `id`, so none is found.
proof fn lemma_no_id_not_found(s: Seq<SoundView>, id: Seq<char>)
    requires
        forall|j: int| 0 <= j < s.len() ==> #[trigger] s[j].id != id,
    ensures
        first_with_id(s, id) is None,
    decreases s.len(),
{
    if s.len() > 0 {
        assert forall|j: int| 0 <= j < s.drop_first().len() implies #[trigger] s.drop_first()[j].id != id by {
            assert(s.drop_first()[j] == s[j + 1]);
        }
        lemma_no_id_not_found(s.drop_first(), id);
    }
}

/// A finished download of a sound whose id the library lacks adds exactly
/// one sound, in display order: it has that id, the name, category, icon,
/// file path and URL of the download, and the default volume; every other
/// sound stays.
pub proof fn law_download_adds_sound(
    order: Seq<Seq<char>>,
    s: Seq<SoundView>,
    name: Seq<char>,
    category: Seq<char>,
    path: Seq<char>,
    icon: Seq<char>,
    url: Seq<char>,
)
    requires
        forall|j: int| 0 <= j < s.len() ==> #[trigger] s[j].id != replace_char(lowercase(name), ' ', '_'),
    ensures
        ({
            let after = display_sorted(order, with_downloaded(s, name, category, path, icon, url));
            let added = SoundView {
                id: replace_char(lowercase(name), ' ', '_'),
                name,
                category,
                file_path: path,
                volume_bits: DEFAULT_VOLUME_BITS,
                icon,
                url: Some(url),
                error_state: false,
            };
            &&& after.len() == s.len() + 1
            &&& after.to_multiset() == s.to_multiset().insert(added)
            &&& after.contains(added)
        }),
{
    broadcast use vstd::seq_lib::group_seq_properties;

    lemma_no_id_not_found(s, id_for(name));
    let w = with_downloaded(s, name, category, path, icon, url);
    crate::order::lemma_display_sorted(order, w);
    let after = display_sorted(order, w);
    let added = w.last();
    assert(w =~= s.push(added));
    assert(after.to_multiset().count(added) > 0);
}

/// The first sound with id `id` is found.
proof fn lemma_first_id_found(s: Seq<SoundView>, id: Seq<char>, i: int)
    requires
        0 <= i < s.len(),
        s[i].id == id,
        forall|j: int| 0 <= j < i ==> #[trigger] s[j].id != id,
    ensures
        first_with_id(s, id) == Some(i),
    decreases i,
{
    if i > 0 {
        assert forall|j: int| 0 <= j < i - 1 implies #[trigger] s.drop_first()[j].id != id by {
            assert(s.drop_first()[j] == s[j + 1]);
        }
        lemma_first_id_found(s.drop_first(), id, i - 1);
    }
}

/// A finished download of a sound the library already has (by id) keeps
/// the library's size and points the first such sound at the downloaded
/// file and URL, clearing its error, with its name, category, icon and
/// volume unchanged.
pub proof fn law_download_updates_sound(
    order: Seq<Seq<char>>,
    s: Seq<SoundView>,
    name: Seq<char>,
    category: Seq<char>,
    path: Seq<char>,
    icon: Seq<char>,
    url: Seq<char>,
    i: int,
)
    requires
        0 <= i < s.len(),
        s[i].id == replace_char(lowercase(name), ' ', '_'),
        forall|j: int| 0 <= j < i ==> #[trigger] s[j].id != replace_char(lowercase(name), ' ', '_'),
    ensures
        ({
            let after = display_sorted(order, with_downloaded(s, name, category, path, icon, url));
            let updated = SoundView {
                id: s[i].id,
                name: s[i].name,
                category: s[i].category,
                file_path: path,
                volume_bits: s[i].volume_bits,
                icon: s[i].icon,
                url: Some(url),
                error_state: false,
            };
            &&& after.len() == s.len()
            &&& after.to_multiset() == s.to_multiset().insert(updated).remove(s[i])
            &&& after.contains(updated)
        }),
{
    broadcast use vstd::seq_lib::group_seq_properties;

    lemma_first_id_found(s, id_for(name), i);
    let w = with_downloaded(s, name, category, path, icon, url);
    crate::order::lemma_display_sorted(order, w);
    let after = display_sorted(order, w);
    let updated = w[i];
    vstd::seq_lib::to_multiset_update(s, i, updated);
    assert(after.to_multiset().count(updated) > 0);
}

} // verus!
