use tanin::app::{Action, App, Config, CurrentView, Session};
use tanin::input::{Command, Event, KeyCode, KeyEvent};
use tanin::sound::{default_icon, Sound, DEFAULT_VOLUME_BITS};

fn key(code: KeyCode) -> KeyEvent {
    KeyEvent { code, ctrl: false }
}

fn ch(c: char) -> KeyEvent {
    key(KeyCode::Char(c))
}

fn new_app(yt_dlp: bool) -> App {
    let config = Config {
        hidden_categories: Vec::new(),
        category_order: Vec::new(),
        enable_bundled_sounds: true,
        hidden_sounds: Vec::new(),
    };
    let session = Session { global_volume_bits: 1.0f32.to_bits(), sounds: Vec::new() };
    App::new(config, session, 3, yt_dlp)
}

fn sound(category: &str) -> Sound {
    Sound {
        id: category.to_lowercase(),
        name: category.to_string(),
        category: category.to_string(),
        file_path: String::new(),
        volume_bits: DEFAULT_VOLUME_BITS,
        icon: default_icon(),
        url: None,
        error_state: false,
    }
}

#[test]
fn help_screen_returns_to_main_on_any_key() {
    let mut app = new_app(true);
    app.view = CurrentView::Help;
    let r = app.handle_key_event(ch('x'));
    assert_eq!(r.action, Action::Continue);
    assert_eq!(app.view, CurrentView::Main);
    app.view = CurrentView::Help;
    let r = app.handle_key_event(ch('q'));
    assert_eq!(r.action, Action::Quit);
    assert_eq!(app.view, CurrentView::Help);
    assert!(!app.quitting);
    let r = app.handle_key_event(KeyEvent { code: KeyCode::Char('c'), ctrl: true });
    assert_eq!(r.action, Action::Quit);
}

#[test]
fn q_ctrl_c_and_esc_quit_from_main() {
    for k in [ch('q'), KeyEvent { code: KeyCode::Char('c'), ctrl: true }, key(KeyCode::Esc)] {
        let mut app = new_app(true);
        let r = app.handle_key_event(k);
        assert_eq!(r.action, Action::Quit);
        assert!(app.quitting);
    }
    let mut app = new_app(true);
    let r = app.handle_key_event(ch('c'));
    assert_eq!(r.action, Action::Continue);
    assert!(!app.quitting);
}

#[test]
fn esc_with_search_text_clears_it_instead_of_quitting() {
    let mut app = new_app(true);
    app.search_query = "rain".to_string();
    let r = app.handle_key_event(key(KeyCode::Esc));
    assert_eq!(r.action, Action::Continue);
    assert!(matches!(r.command, Command::ScrollIntoView));
    assert!(app.search_query.is_empty());
    assert!(!app.quitting);
}

#[test]
fn tab_cycles_views() {
    let mut app = new_app(true);
    app.handle_key_event(key(KeyCode::Tab));
    assert_eq!(app.view, CurrentView::Presets);
    app.handle_key_event(key(KeyCode::Tab));
    assert_eq!(app.view, CurrentView::Downloads);
    app.handle_key_event(key(KeyCode::Tab));
    assert_eq!(app.view, CurrentView::Main);
    let mut app = new_app(false);
    app.handle_key_event(key(KeyCode::Tab));
    app.handle_key_event(key(KeyCode::Tab));
    assert_eq!(app.view, CurrentView::Main);
}

#[test]
fn preset_name_entry() {
    let mut app = new_app(true);
    app.view = CurrentView::Presets;
    app.handle_key_event(ch('n'));
    assert!(app.preset_input_mode);
    for c in "Calm q".chars() {
        let r = app.handle_key_event(ch(c));
        assert_eq!(r.action, Action::Continue);
    }
    assert_eq!(app.preset_input_buffer, "Calm q");
    app.handle_key_event(key(KeyCode::Backspace));
    app.handle_key_event(key(KeyCode::Backspace));
    assert_eq!(app.preset_input_buffer, "Calm");
    let r = app.handle_key_event(key(KeyCode::Enter));
    match r.command {
        Command::ConfirmPresetInput { name, rename_target } => {
            assert_eq!(name, "Calm");
            assert_eq!(rename_target, None);
        }
        other => panic!("unexpected command {:?}", other),
    }
    assert!(!app.preset_input_mode);
    assert!(app.preset_input_buffer.is_empty());
}

#[test]
fn preset_entry_escape_clears_everything() {
    let mut app = new_app(true);
    app.preset_input_mode = true;
    app.preset_rename_target = Some(1);
    app.preset_input_buffer = "x".to_string();
    app.handle_key_event(key(KeyCode::Esc));
    assert!(!app.preset_input_mode);
    assert_eq!(app.preset_rename_target, None);
    assert!(app.preset_input_buffer.is_empty());
}

#[test]
fn typing_then_backspace_in_search_restores_query() {
    let mut app = new_app(true);
    app.handle_key_event(ch('/'));
    assert!(app.search_mode);
    app.handle_key_event(ch('a'));
    let r = app.handle_key_event(ch('b'));
    assert!(matches!(r.command, Command::ValidateCursorPosition));
    app.handle_key_event(key(KeyCode::Backspace));
    assert_eq!(app.search_query, "a");
    app.handle_key_event(key(KeyCode::Enter));
    assert!(!app.search_mode);
    assert_eq!(app.search_query, "a");
}

#[test]
fn presets_cursor_stays_in_range() {
    let mut app = new_app(true);
    app.view = CurrentView::Presets;
    app.handle_key_event(key(KeyCode::Up));
    assert_eq!(app.preset_cursor_pos, 0);
    for _ in 0..5 {
        app.handle_key_event(ch('j'));
    }
    assert_eq!(app.preset_cursor_pos, 2);
    app.handle_key_event(ch('k'));
    assert_eq!(app.preset_cursor_pos, 1);
    let r = app.handle_key_event(key(KeyCode::Enter));
    assert!(matches!(r.command, Command::LoadPreset(1)));
    let r = app.handle_key_event(ch('d'));
    assert!(matches!(r.command, Command::DeletePreset(1)));
    let r = app.handle_key_event(ch('r'));
    assert!(matches!(r.command, Command::StartRenamingPreset));
    let r = app.handle_key_event(ch('u'));
    assert!(matches!(r.command, Command::UpdatePresetSounds));
}

#[test]
fn main_view_keys_ask_for_commands() {
    let mut app = new_app(true);
    assert!(matches!(app.handle_key_event(ch('h')).command, Command::MoveLeft));
    assert!(matches!(app.handle_key_event(key(KeyCode::Right)).command, Command::MoveRight));
    assert!(matches!(app.handle_key_event(ch('k')).command, Command::MoveUp));
    assert!(matches!(app.handle_key_event(key(KeyCode::Down)).command, Command::MoveDown));
    assert!(matches!(app.handle_key_event(ch(' ')).command, Command::ToggleCurrentSound));
    assert!(matches!(app.handle_key_event(ch('+')).command, Command::Nothing));
    app.sounds.push(sound("Rain"));
    assert!(matches!(app.handle_key_event(ch('+')).command, Command::RaiseVolume));
    assert!(matches!(app.handle_key_event(ch('_')).command, Command::LowerVolume));
    assert!(matches!(app.handle_key_event(ch('0')).command, Command::QuickVolume(0)));
    assert!(matches!(app.handle_key_event(ch('7')).command, Command::QuickVolume(7)));
    assert!(matches!(app.handle_key_event(ch(',')).command, Command::LowerMasterVolume));
    assert!(matches!(app.handle_key_event(ch('>')).command, Command::RaiseMasterVolume));
    assert!(matches!(app.handle_key_event(ch('s')).command, Command::StopAll));
    assert!(matches!(app.handle_key_event(ch('m')).command, Command::ToggleMute));
    assert!(matches!(app.handle_key_event(ch('x')).command, Command::Nothing));
    app.handle_key_event(ch('?'));
    assert_eq!(app.view, CurrentView::Help);
}

#[test]
fn add_sound_form_opens_only_with_downloader() {
    let mut app = new_app(false);
    app.handle_key_event(ch('a'));
    assert_eq!(app.view, CurrentView::Main);
    let mut app = new_app(true);
    app.add_sound_name = "old".to_string();
    app.add_sound_focus_index = 2;
    app.handle_key_event(ch('a'));
    assert_eq!(app.view, CurrentView::Downloads);
    assert!(app.add_sound_name.is_empty());
    assert_eq!(app.add_sound_focus_index, 0);
    assert_eq!(app.add_sound_icon, "🎵");
}

#[test]
fn add_sound_form_editing() {
    let mut app = new_app(true);
    app.sounds.push(sound("Nature"));
    app.handle_key_event(ch('a'));
    for c in "Rain q".chars() {
        app.handle_key_event(ch(c));
    }
    assert_eq!(app.add_sound_name, "Rain q");
    assert_eq!(app.view, CurrentView::Downloads);
    app.handle_key_event(key(KeyCode::Down));
    assert_eq!(app.add_sound_focus_index, 1);
    app.handle_key_event(ch('n'));
    assert_eq!(app.add_sound_suggestion.as_deref(), Some("Nature"));
    app.handle_key_event(ch('x'));
    assert_eq!(app.add_sound_suggestion, None);
    app.handle_key_event(key(KeyCode::Backspace));
    assert_eq!(app.add_sound_category, "n");
    assert_eq!(app.add_sound_suggestion.as_deref(), Some("Nature"));
    app.handle_key_event(key(KeyCode::Right));
    assert_eq!(app.add_sound_category, "Nature");
    assert_eq!(app.add_sound_suggestion, None);
    app.handle_key_event(key(KeyCode::Enter));
    app.handle_key_event(key(KeyCode::Enter));
    assert_eq!(app.add_sound_focus_index, 3);
    let r = app.handle_key_event(key(KeyCode::Enter));
    assert!(matches!(r.command, Command::StartDownload));
    app.handle_key_event(key(KeyCode::Down));
    assert_eq!(app.add_sound_focus_index, 0);
    app.handle_key_event(key(KeyCode::Up));
    assert_eq!(app.add_sound_focus_index, 3);
    app.handle_key_event(key(KeyCode::Esc));
    assert_eq!(app.view, CurrentView::Main);
    assert!(app.add_sound_name.is_empty());
    assert!(app.add_sound_category.is_empty());
    assert_eq!(app.add_sound_icon, "🎵");
}

#[test]
fn tab_leaves_add_sound_form() {
    let mut app = new_app(true);
    app.view = CurrentView::Downloads;
    let r = app.handle_key_event(ch('q'));
    assert_eq!(r.action, Action::Continue);
    assert_eq!(app.add_sound_name, "q");
    app.handle_key_event(key(KeyCode::Tab));
    assert_eq!(app.view, CurrentView::Main);
}

#[test]
fn missing_assets_prompt() {
    let mut app = new_app(true);
    app.view = CurrentView::AssetMissing;
    app.asset_download_error = Some("old".to_string());
    let r = app.handle_key_event(key(KeyCode::Enter));
    assert!(matches!(r.command, Command::StartAssetDownload));
    assert_eq!(app.view, CurrentView::DownloadingAssets);
    assert_eq!(app.asset_download_error, None);
    app.view = CurrentView::AssetMissing;
    app.handle_key_event(ch('n'));
    assert_eq!(app.view, CurrentView::Main);
}

#[test]
fn resize_and_other_events() {
    let mut app = new_app(true);
    let r = app.handle_event(Event::Resize(100, 40));
    assert!(matches!(r.command, Command::UpdateGridCols { width: 100, height: 40 }));
    assert_eq!(r.action, Action::Continue);
    let r = app.handle_event(Event::Other);
    assert!(matches!(r.command, Command::Nothing));
    let r = app.handle_event(Event::Key(ch('q')));
    assert_eq!(r.action, Action::Quit);
}

#[test]
fn focus_beyond_the_form_edits_nothing() {
    let mut app = new_app(true);
    app.view = CurrentView::Downloads;
    app.add_sound_focus_index = 5;
    app.handle_key_event(ch('x'));
    app.handle_key_event(key(KeyCode::Backspace));
    assert!(app.add_sound_name.is_empty() && app.add_sound_url.is_empty());
    assert_eq!(app.add_sound_icon, "🎵");
    app.handle_key_event(key(KeyCode::Up));
    assert_eq!(app.add_sound_focus_index, 4);
    app.handle_key_event(key(KeyCode::Down));
    assert_eq!(app.add_sound_focus_index, 1);
}

#[test]
fn overflowing_focus_is_detected() {
    let mut app = new_app(true);
    app.view = CurrentView::Downloads;
    app.add_sound_focus_index = usize::MAX;
    assert!(app.event_overflows(Event::Key(key(KeyCode::Down))));
    assert!(app.event_overflows(Event::Key(key(KeyCode::Enter))));
    assert!(!app.event_overflows(Event::Key(key(KeyCode::Tab))));
    assert!(!app.event_overflows(Event::Resize(1, 1)));
    app.view = CurrentView::Main;
    assert!(!app.event_overflows(Event::Key(key(KeyCode::Down))));
}

#[test]
fn form_keys_from_equal_states_give_equal_states() {
    let build = || {
        let mut app = new_app(true);
        app.sounds = vec![sound("Nature"), sound("Noise")];
        app.view = CurrentView::Downloads;
        app.add_sound_focus_index = 1;
        app.add_sound_category = "N".to_string();
        app
    };
    let mut a = build();
    let mut b = build();
    for k in [ch('a'), key(KeyCode::Backspace), key(KeyCode::Down), ch('z'), key(KeyCode::Up)] {
        a.handle_key_event(k);
        b.handle_key_event(k);
        assert_eq!(a.add_sound_focus_index, b.add_sound_focus_index);
        assert_eq!(a.add_sound_category, b.add_sound_category);
        assert_eq!(a.add_sound_icon, b.add_sound_icon);
        assert_eq!(a.add_sound_suggestion, b.add_sound_suggestion);
        assert_eq!(a.view, b.view);
    }
    assert_eq!(a.add_sound_category, "N");
    assert_eq!(a.add_sound_suggestion, Some("Nature".to_string()));
}
