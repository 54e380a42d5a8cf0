//! The keyboard state machine: what each key does in each view and mode.
//!
//! A key changes the interface state held by [`App`] and may ask the caller
//! for one further operation, a [`Command`], such as moving the cursor in
//! the sound grid or starting a download.

use vstd::prelude::*;
use crate::app::{opt_str, suggestion_for, Action, App, CurrentView};
use crate::sound::{views, SoundView};
use crate::text::{pop_char, push_char};

verus! {

/// The key that was pressed.
#[derive(Clone, Copy, Debug, PartialEq, Eq, Structural)]
pub enum KeyCode {
    Char(char),
    Enter,
    Esc,
    Backspace,
    Tab,
    Up,
    Down,
    Left,
    Right,
    /// Any key the application gives no meaning to.
    Other,
}

/// A key press, with whether Control was held.
#[derive(Clone, Copy, Debug, PartialEq, Eq, Structural)]
pub struct KeyEvent {
    pub code: KeyCode,
    pub ctrl: bool,
}

/// A terminal event that the state machine handles.
#[derive(Clone, Copy, Debug, PartialEq, Eq, Structural)]
pub enum Event {
    Key(KeyEvent),
    Resize(u16, u16),
    /// Focus changes, pastes and the like.
    Other,
}

/// A further operation the caller performs after a key was handled.
#[derive(Debug)]
pub enum Command {
    Nothing,
    /// Save the preset input: create a preset named `name`, or rename the
    /// preset at `rename_target`.
    ConfirmPresetInput { name: String, rename_target: Option<usize> },
    ScrollIntoView,
    ValidateCursorPosition,
    ToggleMute,
    MoveLeft,
    MoveRight,
    MoveUp,
    MoveDown,
    ToggleCurrentSound,
    /// Raise the volume of the sound under the cursor by a tenth.
    RaiseVolume,
    /// Lower the volume of the sound under the cursor by a tenth.
    LowerVolume,
    /// Set the volume of the sound under the cursor from a digit:
    /// 0 means full volume, 1 to 9 mean that many tenths.
    QuickVolume(u32),
    LowerMasterVolume,
    RaiseMasterVolume,
    StopAll,
    LoadPreset(usize),
    StartRenamingPreset,
    UpdatePresetSounds,
    DeletePreset(usize),
    StartDownload,
    StartAssetDownload,
    UpdateGridCols { width: u16, height: u16 },
}

/// The mathematical value of a [`Command`].
pub enum Effect {
    Nothing,
    ConfirmPresetInput { name: Seq<char>, rename_target: Option<usize> },
    ScrollIntoView,
    ValidateCursorPosition,
    ToggleMute,
    MoveLeft,
    MoveRight,
    MoveUp,
    MoveDown,
    ToggleCurrentSound,
    RaiseVolume,
    LowerVolume,
    QuickVolume(u32),
    LowerMasterVolume,
    RaiseMasterVolume,
    StopAll,
    LoadPreset(usize),
    StartRenamingPreset,
    UpdatePresetSounds,
    DeletePreset(usize),
    StartDownload,
    StartAssetDownload,
    UpdateGridCols { width: u16, height: u16 },
}

impl View for Command {
    type V = Effect;

    open spec fn view(&self) -> Effect {
        match self {
            Command::Nothing => Effect::Nothing,
            Command::ConfirmPresetInput { name, rename_target } => Effect::ConfirmPresetInput {
                name: name@,
                rename_target: *rename_target,
            },
            Command::ScrollIntoView => Effect::ScrollIntoView,
            Command::ValidateCursorPosition => Effect::ValidateCursorPosition,
            Command::ToggleMute => Effect::ToggleMute,
            Command::MoveLeft => Effect::MoveLeft,
            Command::MoveRight => Effect::MoveRight,
            Command::MoveUp => Effect::MoveUp,
            Command::MoveDown => Effect::MoveDown,
            Command::ToggleCurrentSound => Effect::ToggleCurrentSound,
            Command::RaiseVolume => Effect::RaiseVolume,
            Command::LowerVolume => Effect::LowerVolume,
            Command::QuickVolume(d) => Effect::QuickVolume(*d),
            Command::LowerMasterVolume => Effect::LowerMasterVolume,
            Command::RaiseMasterVolume => Effect::RaiseMasterVolume,
            Command::StopAll => Effect::StopAll,
            Command::LoadPreset(i) => Effect::LoadPreset(*i),
            Command::StartRenamingPreset => Effect::StartRenamingPreset,
            Command::UpdatePresetSounds => Effect::UpdatePresetSounds,
            Command::DeletePreset(i) => Effect::DeletePreset(*i),
            Command::StartDownload => Effect::StartDownload,
            Command::StartAssetDownload => Effect::StartAssetDownload,
            Command::UpdateGridCols { width, height } => Effect::UpdateGridCols {
                width: *width,
                height: *height,
            },
        }
    }
}

/// The answer to an event: whether to go on, and what else to do.
#[derive(Debug)]
pub struct Reaction {
    pub action: Action,
    pub command: Command,
}

/// The part of the application state that keys change.
pub struct UiModel {
    pub view: CurrentView,
    pub quitting: bool,
    pub preset_cursor_pos: usize,
    pub preset_input_mode: bool,
    pub preset_input_buffer: Seq<char>,
    pub preset_rename_target: Option<usize>,
    pub search_query: Seq<char>,
    pub search_mode: bool,
    pub add_sound_name: Seq<char>,
    pub add_sound_category: Seq<char>,
    pub add_sound_icon: Seq<char>,
    pub add_sound_url: Seq<char>,
    pub add_sound_focus_index: usize,
    pub add_sound_status: Seq<char>,
    pub add_sound_suggestion: Option<Seq<char>>,
    pub asset_download_error: Option<Seq<char>>,
}

/// The part of the application state that keys read but never change.
pub struct UiEnv {
    pub sounds: Seq<SoundView>,
    pub cursor_pos: usize,
    pub preset_count: usize,
    pub yt_dlp_available: bool,
}

impl App {
    /// The state that keys change.
    pub open spec fn ui(&self) -> UiModel {
        UiModel {
            view: self.view,
            quitting: self.quitting,
            preset_cursor_pos: self.preset_cursor_pos,
            preset_input_mode: self.preset_input_mode,
            preset_input_buffer: self.preset_input_buffer@,
            preset_rename_target: self.preset_rename_target,
            search_query: self.search_query@,
            search_mode: self.search_mode,
            add_sound_name: self.add_sound_name@,
            add_sound_category: self.add_sound_category@,
            add_sound_icon: self.add_sound_icon@,
            add_sound_url: self.add_sound_url@,
            add_sound_focus_index: self.add_sound_focus_index,
            add_sound_status: self.add_sound_status@,
            add_sound_suggestion: opt_str(self.add_sound_suggestion),
            asset_download_error: opt_str(self.asset_download_error),
        }
    }

    /// The state that keys read.
    pub open spec fn env(&self) -> UiEnv {
        UiEnv {
            sounds: views(self.sounds@),
            cursor_pos: self.cursor_pos,
            preset_count: self.preset_count,
            yt_dlp_available: self.yt_dlp_available,
        }
    }

    /// Everything outside the interface state is the same in `self` and `other`.
    pub open spec fn same_context(&self, other: &App) -> bool {
        &&& self.sounds == other.sounds
        &&& self.cursor_pos == other.cursor_pos
        &&& self.config == other.config
        &&& self.session == other.session
        &&& self.preset_count == other.preset_count
        &&& self.grid_cols == other.grid_cols
        &&& self.width == other.width
        &&& self.height == other.height
        &&& self.muted == other.muted
        &&& self.grid_scroll == other.grid_scroll
        &&& self.active_preset == other.active_preset
        &&& self.yt_dlp_available == other.yt_dlp_available
        &&& self.download_queue == other.download_queue
        &&& self.active_download_index == other.active_download_index
    }
}

/// `s` without its last character, or `s` itself when it is empty.
pub open spec fn pop_last(s: Seq<char>) -> Seq<char> {
    if s.len() == 0 {
        s
    } else {
        s.drop_last()
    }
}

/// The form field that has focus, edited by `edit`; for the category field
/// the suggestion is recomputed. Focus beyond the last field edits nothing.
pub open spec fn edit_focused_field(
    m: UiModel,
    env: UiEnv,
    edit: spec_fn(Seq<char>) -> Seq<char>,
) -> UiModel {
    if m.add_sound_focus_index == 0 {
        UiModel { add_sound_name: edit(m.add_sound_name), ..m }
    } else if m.add_sound_focus_index == 1 {
        let category = edit(m.add_sound_category);
        UiModel {
            add_sound_category: category,
            add_sound_suggestion: suggestion_for(env.sounds, category),
            ..m
        }
    } else if m.add_sound_focus_index == 2 {
        UiModel { add_sound_icon: edit(m.add_sound_icon), ..m }
    } else if m.add_sound_focus_index == 3 {
        UiModel { add_sound_url: edit(m.add_sound_url), ..m }
    } else {
        m
    }
}

/// Whether a key in the add-sound form would move the focus past the
/// largest index (Down and Enter add one to it).
pub open spec fn form_key_overflows(m: UiModel, code: KeyCode) -> bool {
    m.add_sound_focus_index == usize::MAX && (code == KeyCode::Down || code == KeyCode::Enter)
}

/// Whether a key reaches the add-sound form with a focus index it cannot advance.
pub open spec fn key_overflows(m: UiModel, key: KeyEvent) -> bool {
    &&& m.view == CurrentView::Downloads
    &&& !m.preset_input_mode
    &&& !m.search_mode
    &&& key.code != KeyCode::Tab
    &&& form_key_overflows(m, key.code)
}

/// What a key does in the add-sound form.
pub open spec fn add_sound_step(m: UiModel, code: KeyCode, env: UiEnv) -> (UiModel, Effect) {
    match code {
        KeyCode::Esc => (
            UiModel {
                view: CurrentView::Main,
                add_sound_name: seq![],
                add_sound_category: seq![],
                add_sound_url: seq![],
                add_sound_status: seq![],
                add_sound_suggestion: None,
                ..m
            },
            Effect::Nothing,
        ),
        KeyCode::Down => (
            UiModel { add_sound_focus_index: ((m.add_sound_focus_index + 1) % 4) as usize, ..m },
            Effect::Nothing,
        ),
        KeyCode::Up => (
            UiModel {
                add_sound_focus_index: if m.add_sound_focus_index == 0 {
                    3
                } else {
                    (m.add_sound_focus_index - 1) as usize
                },
                ..m
            },
            Effect::Nothing,
        ),
        KeyCode::Right => if m.add_sound_focus_index == 1 && m.add_sound_suggestion is Some {
            (
                UiModel {
                    add_sound_category: m.add_sound_suggestion->0,
                    add_sound_suggestion: None,
                    ..m
                },
                Effect::Nothing,
            )
        } else {
            (m, Effect::Nothing)
        },
        KeyCode::Enter => if m.add_sound_focus_index == 3 {
            (m, Effect::StartDownload)
        } else {
            (
                UiModel { add_sound_focus_index: (m.add_sound_focus_index + 1) as usize, ..m },
                Effect::Nothing,
            )
        },
        KeyCode::Backspace => (
            edit_focused_field(m, env, |s: Seq<char>| pop_last(s)),
            Effect::Nothing,
        ),
        KeyCode::Char(c) => (edit_focused_field(m, env, |s: Seq<char>| s.push(c)), Effect::Nothing),
        _ => (m, Effect::Nothing),
    }
}

/// What a key does in the presets view.
pub open spec fn presets_step(m: UiModel, code: KeyCode, env: UiEnv) -> (UiModel, Effect) {
    let last = if env.preset_count == 0 {
        0
    } else {
        env.preset_count - 1
    };
    match code {
        KeyCode::Up | KeyCode::Char('k') => if m.preset_cursor_pos > 0 {
            (UiModel { preset_cursor_pos: (m.preset_cursor_pos - 1) as usize, ..m }, Effect::Nothing)
        } else {
            (m, Effect::Nothing)
        },
        KeyCode::Down | KeyCode::Char('j') => if m.preset_cursor_pos < last {
            (UiModel { preset_cursor_pos: (m.preset_cursor_pos + 1) as usize, ..m }, Effect::Nothing)
        } else {
            (m, Effect::Nothing)
        },
        KeyCode::Enter => (m, Effect::LoadPreset(m.preset_cursor_pos)),
        KeyCode::Char('n') => (UiModel { preset_input_mode: true, ..m }, Effect::Nothing),
        KeyCode::Char('r') => (m, Effect::StartRenamingPreset),
        KeyCode::Char('u') => (m, Effect::UpdatePresetSounds),
        KeyCode::Char('d') => (m, Effect::DeletePreset(m.preset_cursor_pos)),
        _ => (m, Effect::Nothing),
    }
}

/// Whether `c` is one of the ASCII digits.
pub open spec fn is_digit(c: char) -> bool {
    '0' <= c && c <= '9'
}

/// What a key does in the main view.
pub open spec fn main_step(m: UiModel, code: KeyCode, env: UiEnv) -> (UiModel, Effect) {
    let has_current = env.cursor_pos < env.sounds.len();
    match code {
        KeyCode::Char('/') => (UiModel { search_mode: true, search_query: seq![], ..m }, Effect::Nothing),
        KeyCode::Left | KeyCode::Char('h') => (m, Effect::MoveLeft),
        KeyCode::Right | KeyCode::Char('l') => (m, Effect::MoveRight),
        KeyCode::Up | KeyCode::Char('k') => (m, Effect::MoveUp),
        KeyCode::Down | KeyCode::Char('j') => (m, Effect::MoveDown),
        KeyCode::Enter | KeyCode::Char(' ') => (m, Effect::ToggleCurrentSound),
        KeyCode::Char('+') | KeyCode::Char('=') => (
            m,
            if has_current {
                Effect::RaiseVolume
            } else {
                Effect::Nothing
            },
        ),
        KeyCode::Char('-') | KeyCode::Char('_') => (
            m,
            if has_current {
                Effect::LowerVolume
            } else {
                Effect::Nothing
            },
        ),
        KeyCode::Char('<') | KeyCode::Char(',') => (m, Effect::LowerMasterVolume),
        KeyCode::Char('>') | KeyCode::Char('.') => (m, Effect::RaiseMasterVolume),
        KeyCode::Char('s') => (m, Effect::StopAll),
        KeyCode::Char(c) => if is_digit(c) {
            (m, Effect::QuickVolume(((c as u32) - ('0' as u32)) as u32))
        } else {
            (m, Effect::Nothing)
        },
        _ => (m, Effect::Nothing),
    }
}

/// What a key does, by view and mode, in the order the modes take precedence:
/// the help screen, preset name entry, search entry, the add-sound form,
/// then the global keys, then the keys of the current view.
pub open spec fn key_step(m: UiModel, key: KeyEvent, env: UiEnv) -> (UiModel, Action, Effect) {
    let ctrl_c = key.code == KeyCode::Char('c') && key.ctrl;
    if m.view == CurrentView::Help {
        if key.code == KeyCode::Char('q') || ctrl_c {
            (m, Action::Quit, Effect::Nothing)
        } else {
            (UiModel { view: CurrentView::Main, ..m }, Action::Continue, Effect::Nothing)
        }
    } else if m.preset_input_mode {
        match key.code {
            KeyCode::Enter => (
                UiModel { preset_input_mode: false, preset_input_buffer: seq![], ..m },
                Action::Continue,
                Effect::ConfirmPresetInput {
                    name: m.preset_input_buffer,
                    rename_target: m.preset_rename_target,
                },
            ),
            KeyCode::Esc => (
                UiModel {
                    preset_input_mode: false,
                    preset_rename_target: None,
                    preset_input_buffer: seq![],
                    ..m
                },
                Action::Continue,
                Effect::Nothing,
            ),
            KeyCode::Backspace => (
                UiModel { preset_input_buffer: pop_last(m.preset_input_buffer), ..m },
                Action::Continue,
                Effect::Nothing,
            ),
            KeyCode::Char(c) => (
                UiModel { preset_input_buffer: m.preset_input_buffer.push(c), ..m },
                Action::Continue,
                Effect::Nothing,
            ),
            _ => (m, Action::Continue, Effect::Nothing),
        }
    } else if m.search_mode {
        match key.code {
            KeyCode::Enter => (UiModel { search_mode: false, ..m }, Action::Continue, Effect::Nothing),
            KeyCode::Esc => (
                UiModel { search_mode: false, search_query: seq![], ..m },
                Action::Continue,
                Effect::ScrollIntoView,
            ),
            KeyCode::Backspace => (
                UiModel { search_query: pop_last(m.search_query), ..m },
                Action::Continue,
                Effect::ValidateCursorPosition,
            ),
            KeyCode::Char(c) => (
                UiModel { search_query: m.search_query.push(c), ..m },
                Action::Continue,
                Effect::ValidateCursorPosition,
            ),
            _ => (m, Action::Continue, Effect::Nothing),
        }
    } else if m.view == CurrentView::Downloads {
        if key.code == KeyCode::Tab {
            (UiModel { view: CurrentView::Main, ..m }, Action::Continue, Effect::Nothing)
        } else {
            let (m2, e) = add_sound_step(m, key.code, env);
            (m2, Action::Continue, e)
        }
    } else if key.code == KeyCode::Char('q') {
        (UiModel { quitting: true, ..m }, Action::Quit, Effect::Nothing)
    } else if key.code == KeyCode::Esc {
        if m.search_query.len() > 0 {
            (UiModel { search_query: seq![], ..m }, Action::Continue, Effect::ScrollIntoView)
        } else {
            (UiModel { quitting: true, ..m }, Action::Quit, Effect::Nothing)
        }
    } else if ctrl_c {
        (UiModel { quitting: true, ..m }, Action::Quit, Effect::Nothing)
    } else if key.code == KeyCode::Tab {
        let next = match m.view {
            CurrentView::Main => CurrentView::Presets,
            CurrentView::Presets => if env.yt_dlp_available {
                CurrentView::Downloads
            } else {
                CurrentView::Main
            },
            _ => CurrentView::Main,
        };
        (UiModel { view: next, ..m }, Action::Continue, Effect::Nothing)
    } else if key.code == KeyCode::Char('?') {
        (UiModel { view: CurrentView::Help, ..m }, Action::Continue, Effect::Nothing)
    } else if key.code == KeyCode::Char('a') && m.view == CurrentView::Main {
        if env.yt_dlp_available {
            (
                UiModel {
                    view: CurrentView::Downloads,
                    add_sound_name: seq![],
                    add_sound_category: seq![],
                    add_sound_url: seq![],
                    add_sound_status: seq![],
                    add_sound_focus_index: 0,
                    add_sound_suggestion: None,
                    ..m
                },
                Action::Continue,
                Effect::Nothing,
            )
        } else {
            (m, Action::Continue, Effect::Nothing)
        }
    } else if key.code == KeyCode::Char('m') {
        (m, Action::Continue, Effect::ToggleMute)
    } else {
        match m.view {
            CurrentView::Main => {
                let (m2, e) = main_step(m, key.code, env);
                (m2, Action::Continue, e)
            },
            CurrentView::Presets => {
                let (m2, e) = presets_step(m, key.code, env);
                (m2, Action::Continue, e)
            },
            CurrentView::AssetMissing => if key.code == KeyCode::Enter {
                (
                    UiModel {
                        view: CurrentView::DownloadingAssets,
                        asset_download_error: None,
                        ..m
                    },
                    Action::Continue,
                    Effect::StartAssetDownload,
                )
            } else if key.code == KeyCode::Char('n') {
                (UiModel { view: CurrentView::Main, ..m }, Action::Continue, Effect::Nothing)
            } else {
                (m, Action::Continue, Effect::Nothing)
            },
            _ => (m, Action::Continue, Effect::Nothing),
        }
    }
}

/// Empties a text field.
fn clear_text(s: &mut String)
    ensures
        final(s)@ == Seq::<char>::empty(),
{
    *s = String::new();
}

/// Deletes the last character of a text field, if any.
fn pop_text(s: &mut String)
    ensures
        final(s)@ == pop_last(old(s)@),
{
    let _ = pop_char(s);
}

impl App {
    /// Handles a key in the add-sound form.
    pub fn handle_add_sound_keys(&mut self, key: KeyEvent) -> (c: Command)
        requires
            !form_key_overflows(old(self).ui(), key.code),
        ensures
            form_key_outcome(*old(self), key.code, *final(self), c@),
    {
        match key.code {
            KeyCode::Esc => {
                self.view = CurrentView::Main;
                clear_text(&mut self.add_sound_name);
                clear_text(&mut self.add_sound_category);
                clear_text(&mut self.add_sound_url);
                clear_text(&mut self.add_sound_status);
                self.add_sound_suggestion = None;
                Command::Nothing
            },
            KeyCode::Down => {
                self.add_sound_focus_index = (self.add_sound_focus_index + 1) % 4;
                Command::Nothing
            },
            KeyCode::Up => {
                if self.add_sound_focus_index == 0 {
                    self.add_sound_focus_index = 3;
                } else {
                    self.add_sound_focus_index = self.add_sound_focus_index - 1;
                }
                Command::Nothing
            },
            KeyCode::Right => {
                if self.add_sound_focus_index == 1 {
                    if let Some(suggestion) = self.add_sound_suggestion.take() {
                        self.add_sound_category = suggestion;
                    }
                }
                Command::Nothing
            },
            KeyCode::Enter => {
                if self.add_sound_focus_index == 3 {
                    Command::StartDownload
                } else {
                    self.add_sound_focus_index = self.add_sound_focus_index + 1;
                    Command::Nothing
                }
            },
            KeyCode::Backspace => {
                if self.add_sound_focus_index == 0 {
                    pop_text(&mut self.add_sound_name);
                } else if self.add_sound_focus_index == 1 {
                    pop_text(&mut self.add_sound_category);
                    self.update_suggestion();
                } else if self.add_sound_focus_index == 2 {
                    pop_text(&mut self.add_sound_icon);
                } else if self.add_sound_focus_index == 3 {
                    pop_text(&mut self.add_sound_url);
                }
                Command::Nothing
            },
            KeyCode::Char(c) => {
                if self.add_sound_focus_index == 0 {
                    push_char(&mut self.add_sound_name, c);
                } else if self.add_sound_focus_index == 1 {
                    push_char(&mut self.add_sound_category, c);
                    self.update_suggestion();
                } else if self.add_sound_focus_index == 2 {
                    push_char(&mut self.add_sound_icon, c);
                } else if self.add_sound_focus_index == 3 {
                    push_char(&mut self.add_sound_url, c);
                }
                Command::Nothing
            },
            _ => Command::Nothing,
        }
    }

    /// Handles a key in the presets view.
    pub fn handle_presets_keys(&mut self, code: KeyCode) -> (c: Command)
        ensures
            ({
                let (m, e) = presets_step(old(self).ui(), code, old(self).env());
                final(self).ui() == m && c@ == e
            }),
            final(self).same_context(old(self)),
    {
        let last = if self.preset_count == 0 {
            0
        } else {
            self.preset_count - 1
        };
        match code {
            KeyCode::Up | KeyCode::Char('k') => {
                if self.preset_cursor_pos > 0 {
                    self.preset_cursor_pos = self.preset_cursor_pos - 1;
                }
                Command::Nothing
            },
            KeyCode::Down | KeyCode::Char('j') => {
                if self.preset_cursor_pos < last {
                    self.preset_cursor_pos = self.preset_cursor_pos + 1;
                }
                Command::Nothing
            },
            KeyCode::Enter => Command::LoadPreset(self.preset_cursor_pos),
            KeyCode::Char('n') => {
                self.preset_input_mode = true;
                Command::Nothing
            },
            KeyCode::Char('r') => Command::StartRenamingPreset,
            KeyCode::Char('u') => Command::UpdatePresetSounds,
            KeyCode::Char('d') => Command::DeletePreset(self.preset_cursor_pos),
            _ => Command::Nothing,
        }
    }

    /// Handles a key in the main view.
    pub fn handle_main_keys(&mut self, code: KeyCode) -> (c: Command)
        ensures
            ({
                let (m, e) = main_step(old(self).ui(), code, old(self).env());
                final(self).ui() == m && c@ == e
            }),
            final(self).same_context(old(self)),
    {
        let has_current = self.cursor_pos < self.sounds.len();
        proof {
            assert(views(self.sounds@).len() == self.sounds@.len());
        }
        match code {
            KeyCode::Char('/') => {
                self.search_mode = true;
                clear_text(&mut self.search_query);
                Command::Nothing
            },
            KeyCode::Left | KeyCode::Char('h') => Command::MoveLeft,
            KeyCode::Right | KeyCode::Char('l') => Command::MoveRight,
            KeyCode::Up | KeyCode::Char('k') => Command::MoveUp,
            KeyCode::Down | KeyCode::Char('j') => Command::MoveDown,
            KeyCode::Enter | KeyCode::Char(' ') => Command::ToggleCurrentSound,
            KeyCode::Char('+') | KeyCode::Char('=') => if has_current {
                Command::RaiseVolume
            } else {
                Command::Nothing
            },
            KeyCode::Char('-') | KeyCode::Char('_') => if has_current {
                Command::LowerVolume
            } else {
                Command::Nothing
            },
            KeyCode::Char('<') | KeyCode::Char(',') => Command::LowerMasterVolume,
            KeyCode::Char('>') | KeyCode::Char('.') => Command::RaiseMasterVolume,
            KeyCode::Char('s') => Command::StopAll,
            KeyCode::Char(c) => if '0' <= c && c <= '9' {
                Command::QuickVolume((c as u32) - ('0' as u32))
            } else {
                Command::Nothing
            },
            _ => Command::Nothing,
        }
    }

    /// Whether handling `event` would advance the add-sound focus past the
    /// largest index, which the handlers leave out.
    pub fn event_overflows(&self, event: Event) -> (r: bool)
        ensures
            r == (event matches Event::Key(key) && key_overflows(self.ui(), key)),
    {
        match event {
            Event::Key(key) => {
                self.view == CurrentView::Downloads && !self.preset_input_mode && !self.search_mode
                    && key.code != KeyCode::Tab && self.add_sound_focus_index == usize::MAX && (
                key.code == KeyCode::Down || key.code == KeyCode::Enter)
            },
            _ => false,
        }
    }

    /// Leaves the missing-assets prompt for the asset download screen.
    pub fn start_asset_download(&mut self)
        ensures
            final(self).view == CurrentView::DownloadingAssets,
            final(self).asset_download_error is None,
            final(self).ui() == (UiModel {
                view: CurrentView::DownloadingAssets,
                asset_download_error: None,
                ..old(self).ui()
            }),
            final(self).same_context(old(self)),
    {
        self.view = CurrentView::DownloadingAssets;
        self.asset_download_error = None;
    }

    /// Handles a key press.
    pub fn handle_key_event(&mut self, key: KeyEvent) -> (r: Reaction)
        requires
            !key_overflows(old(self).ui(), key),
        ensures
            ({
                let (m, a, e) = key_step(old(self).ui(), key, old(self).env());
                final(self).ui() == m && r.action == a && r.command@ == e
            }),
            final(self).same_context(old(self)),
    {
        let ctrl_c = key.code == KeyCode::Char('c') && key.ctrl;
        if self.view == CurrentView::Help {
            if key.code == KeyCode::Char('q') || ctrl_c {
                return Reaction { action: Action::Quit, command: Command::Nothing };
            }
            self.view = CurrentView::Main;
            return Reaction { action: Action::Continue, command: Command::Nothing };
        }
        if self.preset_input_mode {
            let command = match key.code {
                KeyCode::Enter => {
                    let mut name = String::new();
                    std::mem::swap(&mut name, &mut self.preset_input_buffer);
                    self.preset_input_mode = false;
                    Command::ConfirmPresetInput { name, rename_target: self.preset_rename_target }
                },
                KeyCode::Esc => {
                    self.preset_input_mode = false;
                    self.preset_rename_target = None;
                    clear_text(&mut self.preset_input_buffer);
                    Command::Nothing
                },
                KeyCode::Backspace => {
                    pop_text(&mut self.preset_input_buffer);
                    Command::Nothing
                },
                KeyCode::Char(c) => {
                    push_char(&mut self.preset_input_buffer, c);
                    Command::Nothing
                },
                _ => Command::Nothing,
            };
            return Reaction { action: Action::Continue, command };
        }
        if self.search_mode {
            let command = match key.code {
                KeyCode::Enter => {
                    self.search_mode = false;
                    Command::Nothing
                },
                KeyCode::Esc => {
                    self.search_mode = false;
                    clear_text(&mut self.search_query);
                    Command::ScrollIntoView
                },
                KeyCode::Backspace => {
                    pop_text(&mut self.search_query);
                    Command::ValidateCursorPosition
                },
                KeyCode::Char(c) => {
                    push_char(&mut self.search_query, c);
                    Command::ValidateCursorPosition
                },
                _ => Command::Nothing,
            };
            return Reaction { action: Action::Continue, command };
        }
        if self.view == CurrentView::Downloads {
            if key.code == KeyCode::Tab {
                self.view = CurrentView::Main;
                return Reaction { action: Action::Continue, command: Command::Nothing };
            }
            let command = self.handle_add_sound_keys(key);
            return Reaction { action: Action::Continue, command };
        }
        if key.code == KeyCode::Char('q') {
            self.quitting = true;
            return Reaction { action: Action::Quit, command: Command::Nothing };
        }
        if key.code == KeyCode::Esc {
            if !self.search_query.as_str().is_empty() {
                clear_text(&mut self.search_query);
                return Reaction { action: Action::Continue, command: Command::ScrollIntoView };
            }
            self.quitting = true;
            return Reaction { action: Action::Quit, command: Command::Nothing };
        }
        if ctrl_c {
            self.quitting = true;
            return Reaction { action: Action::Quit, command: Command::Nothing };
        }
        if key.code == KeyCode::Tab {
            self.view = match self.view {
                CurrentView::Main => CurrentView::Presets,
                CurrentView::Presets => if self.yt_dlp_available {
                    CurrentView::Downloads
                } else {
                    CurrentView::Main
                },
                _ => CurrentView::Main,
            };
            return Reaction { action: Action::Continue, command: Command::Nothing };
        }
        if key.code == KeyCode::Char('?') {
            self.view = CurrentView::Help;
            return Reaction { action: Action::Continue, command: Command::Nothing };
        }
        if key.code == KeyCode::Char('a') && self.view == CurrentView::Main {
            if self.yt_dlp_available {
                self.view = CurrentView::Downloads;
                clear_text(&mut self.add_sound_name);
                clear_text(&mut self.add_sound_category);
                clear_text(&mut self.add_sound_url);
                clear_text(&mut self.add_sound_status);
                self.add_sound_focus_index = 0;
                self.add_sound_suggestion = None;
            }
            return Reaction { action: Action::Continue, command: Command::Nothing };
        }
        if key.code == KeyCode::Char('m') {
            return Reaction { action: Action::Continue, command: Command::ToggleMute };
        }
        let command = match self.view {
            CurrentView::Main => self.handle_main_keys(key.code),
            CurrentView::Presets => self.handle_presets_keys(key.code),
            CurrentView::AssetMissing => {
                if key.code == KeyCode::Enter {
                    self.start_asset_download();
                    Command::StartAssetDownload
                } else if key.code == KeyCode::Char('n') {
                    self.view = CurrentView::Main;
                    Command::Nothing
                } else {
                    Command::Nothing
                }
            },
            _ => Command::Nothing,
        };
        Reaction { action: Action::Continue, command }
    }

    /// Handles a terminal event. A resize asks the caller to recompute the grid.
    pub fn handle_event(&mut self, event: Event) -> (r: Reaction)
        requires
            event matches Event::Key(key) ==> !key_overflows(old(self).ui(), key),
        ensures
            match event {
                Event::Key(key) => {
                    let (m, a, e) = key_step(old(self).ui(), key, old(self).env());
                    final(self).ui() == m && r.action == a && r.command@ == e
                },
                Event::Resize(width, height) => *final(self) == *old(self) && r.action
                    == Action::Continue && r.command@ == (Effect::UpdateGridCols { width, height }),
                Event::Other => *final(self) == *old(self) && r.action == Action::Continue
                    && r.command@ == Effect::Nothing,
            },
            final(self).same_context(old(self)),
    {
        match event {
            Event::Key(key) => self.handle_key_event(key),
            Event::Resize(width, height) => Reaction {
                action: Action::Continue,
                command: Command::UpdateGridCols { width, height },
            },
            Event::Other => Reaction { action: Action::Continue, command: Command::Nothing },
        }
    }
}

/// On the help screen every key but `q` and Ctrl-C goes back to the main
/// view and changes nothing else; those two quit.
pub proof fn law_help_screen_keys(m: UiModel, key: KeyEvent, env: UiEnv)
    requires
        m.view == CurrentView::Help,
    ensures
        (key.code == KeyCode::Char('q') || (key.code == KeyCode::Char('c') && key.ctrl)) ==> key_step(
            m,
            key,
            env,
        ) == (m, Action::Quit, Effect::Nothing),
        !(key.code == KeyCode::Char('q') || (key.code == KeyCode::Char('c') && key.ctrl))
            ==> key_step(m, key, env) == (UiModel { view: CurrentView::Main, ..m }, Action::Continue, Effect::Nothing),
{
}

/// Outside text entry and the add-sound form, `q`, Ctrl-C, and Esc with no
/// search text all quit, marking the application as quitting.
pub proof fn law_quit_keys(m: UiModel, key: KeyEvent, env: UiEnv)
    requires
        m.view != CurrentView::Help,
        m.view != CurrentView::Downloads,
        !m.preset_input_mode,
        !m.search_mode,
        key.code == KeyCode::Char('q') || (key.code == KeyCode::Char('c') && key.ctrl) || (key.code
            == KeyCode::Esc && m.search_query.len() == 0),
    ensures
        key_step(m, key, env) == (UiModel { quitting: true, ..m }, Action::Quit, Effect::Nothing),
{
}

/// Tab cycles main, presets and (when the downloader is available) the
/// add-sound form, and comes back to the main view.
pub proof fn law_tab_cycles_views(m: UiModel, env: UiEnv, ctrl: bool)
    requires
        m.view == CurrentView::Main,
        !m.preset_input_mode,
        !m.search_mode,
    ensures
        ({
            let tab = KeyEvent { code: KeyCode::Tab, ctrl };
            let s1 = key_step(m, tab, env).0;
            let s2 = key_step(s1, tab, env).0;
            let s3 = key_step(s2, tab, env).0;
            &&& s1.view == CurrentView::Presets
            &&& env.yt_dlp_available ==> s2.view == CurrentView::Downloads && s3 == m
            &&& !env.yt_dlp_available ==> s2 == m
        }),
{
    let tab = KeyEvent { code: KeyCode::Tab, ctrl };
    let s1 = key_step(m, tab, env).0;
    assert(s1 == UiModel { view: CurrentView::Presets, ..m });
    let s2 = key_step(s1, tab, env).0;
    if env.yt_dlp_available {
        assert(s2 == UiModel { view: CurrentView::Downloads, ..m });
    }
}

/// While a preset name is typed, a character followed by Backspace leaves
/// the whole interface state as it was.
pub proof fn law_preset_typing_undone(m: UiModel, env: UiEnv, c: char, ctrl1: bool, ctrl2: bool)
    requires
        m.view != CurrentView::Help,
        m.preset_input_mode,
    ensures
        key_step(
            key_step(m, KeyEvent { code: KeyCode::Char(c), ctrl: ctrl1 }, env).0,
            KeyEvent { code: KeyCode::Backspace, ctrl: ctrl2 },
            env,
        ).0 == m,
{
    assert(m.preset_input_buffer.push(c).drop_last() =~= m.preset_input_buffer);
}

/// While searching, a character followed by Backspace leaves the whole
/// interface state as it was.
pub proof fn law_search_typing_undone(m: UiModel, env: UiEnv, c: char, ctrl1: bool, ctrl2: bool)
    requires
        m.view != CurrentView::Help,
        !m.preset_input_mode,
        m.search_mode,
    ensures
        key_step(
            key_step(m, KeyEvent { code: KeyCode::Char(c), ctrl: ctrl1 }, env).0,
            KeyEvent { code: KeyCode::Backspace, ctrl: ctrl2 },
            env,
        ).0 == m,
{
    assert(m.search_query.push(c).drop_last() =~= m.search_query);
}

/// In the add-sound form, a character followed by Backspace restores the
/// focused field; for the category field the suggestion is then the one
/// for the restored text.
pub proof fn law_form_typing_undone(m: UiModel, env: UiEnv, c: char, ctrl1: bool, ctrl2: bool)
    requires
        m.view == CurrentView::Downloads,
        !m.preset_input_mode,
        !m.search_mode,
        m.add_sound_focus_index < 4,
    ensures
        ({
            let after = key_step(
                key_step(m, KeyEvent { code: KeyCode::Char(c), ctrl: ctrl1 }, env).0,
                KeyEvent { code: KeyCode::Backspace, ctrl: ctrl2 },
                env,
            ).0;
            &&& m.add_sound_focus_index != 1 ==> after == m
            &&& m.add_sound_focus_index == 1 ==> after == UiModel {
                add_sound_suggestion: suggestion_for(env.sounds, m.add_sound_category),
                ..m
            }
        }),
{
    assert(m.add_sound_name.push(c).drop_last() =~= m.add_sound_name);
    assert(m.add_sound_category.push(c).drop_last() =~= m.add_sound_category);
    assert(m.add_sound_icon.push(c).drop_last() =~= m.add_sound_icon);
    assert(m.add_sound_url.push(c).drop_last() =~= m.add_sound_url);
}

/// The focus of the add-sound form never leaves its four fields.
pub proof fn law_form_focus_in_range(m: UiModel, key: KeyEvent, env: UiEnv)
    requires
        m.add_sound_focus_index < 4,
    ensures
        key_step(m, key, env).0.add_sound_focus_index < 4,
{
}

/// In the add-sound form, Down then Up returns the focus to where it was.
pub proof fn law_form_down_up(m: UiModel, env: UiEnv, ctrl1: bool, ctrl2: bool)
    requires
        m.view == CurrentView::Downloads,
        !m.preset_input_mode,
        !m.search_mode,
        m.add_sound_focus_index < 4,
    ensures
        key_step(
            key_step(m, KeyEvent { code: KeyCode::Down, ctrl: ctrl1 }, env).0,
            KeyEvent { code: KeyCode::Up, ctrl: ctrl2 },
            env,
        ).0 == m,
{
}

/// The preset cursor stays on a preset (or at 0 when there are none).
pub proof fn law_preset_cursor_in_range(m: UiModel, key: KeyEvent, env: UiEnv)
    requires
        m.preset_cursor_pos == 0 || m.preset_cursor_pos < env.preset_count,
    ensures
        ({
            let p = key_step(m, key, env).0.preset_cursor_pos;
            p == 0 || p < env.preset_count
        }),
{
}

/// Esc while typing a preset name abandons it: entry ends, the text and the
/// rename target are cleared.
pub proof fn law_preset_entry_escape(m: UiModel, env: UiEnv, ctrl: bool)
    requires
        m.view != CurrentView::Help,
        m.preset_input_mode,
    ensures
        ({
            let (m2, a, e) = key_step(m, KeyEvent { code: KeyCode::Esc, ctrl }, env);
            &&& !m2.preset_input_mode
            &&& m2.preset_input_buffer.len() == 0
            &&& m2.preset_rename_target is None
            &&& a == Action::Continue
            &&& e == Effect::Nothing
        }),
{
}

/// Two states agree in every field, texts by their characters.
pub open spec fn same_state(a: App, b: App) -> bool {
    a.ui() == b.ui() && a.same_context(&b)
}

/// What `App::handle_add_sound_keys` promises of a key: `after` and the
/// command `e` are the outcome of `key` in the form from `before`.
pub open spec fn form_key_outcome(before: App, key: KeyCode, after: App, e: Effect) -> bool {
    let (m, e2) = add_sound_step(before.ui(), key, before.env());
    &&& after.ui() == m
    &&& e == e2
    &&& after.same_context(&before)
}

/// The add-sound form depends on the state and the key alone: from two
/// states that agree, the same key leads to states that agree and to the
/// same command.
pub proof fn law_form_key_deterministic(
    a1: App,
    a2: App,
    key: KeyCode,
    after1: App,
    after2: App,
    e1: Effect,
    e2: Effect,
)
    requires
        same_state(a1, a2),
        form_key_outcome(a1, key, after1, e1),
        form_key_outcome(a2, key, after2, e2),
    ensures
        same_state(after1, after2),
        e1 == e2,
{
}

/// In the main view, outside search and preset entry, with or without Ctrl:
/// `-` and `_` lower the volume of the sound under the cursor and `+` and
/// `=` raise it, changing nothing else; with no sound under the cursor they
/// do nothing.
pub proof fn law_volume_keys(m: UiModel, env: UiEnv, c: char, ctrl: bool)
    requires
        m.view == CurrentView::Main,
        !m.preset_input_mode,
        !m.search_mode,
        c == '-' || c == '_' || c == '+' || c == '=',
    ensures
        ({
            let (m2, a, e) = key_step(m, KeyEvent { code: KeyCode::Char(c), ctrl }, env);
            &&& m2 == m
            &&& a == Action::Continue
            &&& env.cursor_pos < env.sounds.len() && (c == '-' || c == '_') ==> e == Effect::LowerVolume
            &&& env.cursor_pos < env.sounds.len() && (c == '+' || c == '=') ==> e == Effect::RaiseVolume
            &&& env.cursor_pos >= env.sounds.len() ==> e == Effect::Nothing
        }),
{
}

} // verus!
