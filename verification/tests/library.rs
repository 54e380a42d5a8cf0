use tanin::app::{App, Config, CurrentView, Session, SoundState};
use tanin::sound::{default_icon, Sound, DEFAULT_VOLUME_BITS};

fn sound(id: &str, name: &str, category: &str) -> Sound {
    Sound {
        id: id.to_string(),
        name: name.to_string(),
        category: category.to_string(),
        file_path: format!("/sounds/{}.ogg", id),
        volume_bits: DEFAULT_VOLUME_BITS,
        icon: default_icon(),
        url: None,
        error_state: false,
    }
}

fn config(order: &[&str]) -> Config {
    Config {
        hidden_categories: Vec::new(),
        category_order: order.iter().map(|s| s.to_string()).collect(),
        enable_bundled_sounds: true,
        hidden_sounds: Vec::new(),
    }
}

fn empty_session() -> Session {
    Session { global_volume_bits: 1.0f32.to_bits(), sounds: Vec::new() }
}

fn app_with(order: &[&str], sounds: Vec<Sound>) -> App {
    let mut app = App::new(config(order), empty_session(), 0, true);
    app.sounds = sounds;
    app
}

fn ids(app: &App) -> Vec<String> {
    app.sounds.iter().map(|s| s.id.clone()).collect()
}

#[test]
fn default_icon_is_a_musical_note() {
    assert_eq!(default_icon(), "🎵");
    assert_eq!(f32::from_bits(DEFAULT_VOLUME_BITS), 0.5);
}

#[test]
fn new_app_starts_in_main_view_with_empty_forms() {
    let app = App::new(config(&[]), empty_session(), 3, false);
    assert_eq!(app.view, CurrentView::Main);
    assert!(app.sounds.is_empty());
    assert_eq!(app.add_sound_icon, "🎵");
    assert_eq!(app.grid_cols, 1);
    assert_eq!((app.width, app.height), (80, 24));
    assert_eq!(app.preset_count, 3);
    assert!(!app.yt_dlp_available);
}

#[test]
fn sort_puts_configured_categories_first_in_configured_order() {
    let mut app = app_with(
        &["Rain", "Fire"],
        vec![
            sound("wind", "Wind", "Air"),
            sound("campfire", "Campfire", "Fire"),
            sound("storm", "Storm", "Rain"),
            sound("drizzle", "Drizzle", "Rain"),
            sound("birds", "Birds", "Animals"),
        ],
    );
    app.sort_sounds();
    assert_eq!(ids(&app), vec!["drizzle", "storm", "campfire", "wind", "birds"]);
}

#[test]
fn sort_is_idempotent_and_groups_categories() {
    let mut app = app_with(
        &["B"],
        vec![
            sound("z", "Z", "A"),
            sound("a", "A", "C"),
            sound("m", "M", "A"),
            sound("b", "B", "B"),
            sound("c", "C", "C"),
        ],
    );
    app.sort_sounds();
    let once = ids(&app);
    app.sort_sounds();
    assert_eq!(ids(&app), once);
    let cats: Vec<String> = app.sounds.iter().map(|s| s.category.clone()).collect();
    assert_eq!(cats, vec!["B", "A", "A", "C", "C"]);
    assert_eq!(once, vec!["b", "m", "z", "a", "c"]);
}

#[test]
fn sort_is_stable_for_equal_keys() {
    let mut first = sound("same", "First", "X");
    first.file_path = "/one".to_string();
    let mut second = sound("same", "Second", "X");
    second.file_path = "/two".to_string();
    let mut app = app_with(&[], vec![first, sound("aaa", "A", "X"), second]);
    app.sort_sounds();
    let names: Vec<String> = app.sounds.iter().map(|s| s.name.clone()).collect();
    assert_eq!(names, vec!["A", "First", "Second"]);
}

#[test]
fn filter_hides_categories_and_sounds() {
    let mut app = app_with(
        &[],
        vec![sound("rain", "Rain", "Weather"), sound("fire", "Fire", "Home"), sound("cat", "Cat", "Home")],
    );
    app.config.hidden_categories.push("Weather".to_string());
    app.config.hidden_sounds.push("cat".to_string());
    let listed: Vec<usize> = app.get_filtered_sounds().iter().map(|(i, _)| *i).collect();
    assert_eq!(listed, vec![1]);
    assert_eq!(app.get_filtered_sounds()[0].1.id, "fire");
}

#[test]
fn filter_matches_query_in_name_or_category_ignoring_case() {
    let mut app = app_with(
        &[],
        vec![
            sound("rain", "Heavy Rain", "Weather"),
            sound("fire", "Fire", "Home"),
            sound("kettle", "Kettle", "Kitchen"),
        ],
    );
    app.search_query = "RAIN".to_string();
    let listed: Vec<usize> = app.get_filtered_sounds().iter().map(|(i, _)| *i).collect();
    assert_eq!(listed, vec![0]);
    app.search_query = "ki".to_string();
    let listed: Vec<usize> = app.get_filtered_sounds().iter().map(|(i, _)| *i).collect();
    assert_eq!(listed, vec![2]);
    app.search_query = String::new();
    assert_eq!(app.get_filtered_sounds().len(), 3);
}

#[test]
fn suggestion_is_first_longer_category_with_typed_prefix() {
    let mut app = app_with(
        &[],
        vec![sound("a", "A", "Nature"), sound("b", "B", "Noise"), sound("c", "C", "Nat")],
    );
    app.add_sound_category = "na".to_string();
    app.update_suggestion();
    assert_eq!(app.add_sound_suggestion.as_deref(), Some("Nature"));
    app.add_sound_category = "NOI".to_string();
    app.update_suggestion();
    assert_eq!(app.add_sound_suggestion.as_deref(), Some("Noise"));
    app.add_sound_category = "nature".to_string();
    app.update_suggestion();
    assert_eq!(app.add_sound_suggestion, None);
    app.add_sound_category = String::new();
    app.update_suggestion();
    assert_eq!(app.add_sound_suggestion, None);
}

#[test]
fn load_library_adds_bundled_then_custom_and_sorts() {
    let mut app = app_with(&[], Vec::new());
    app.load_library(Some(vec![sound("b", "B", "Z")]), vec![sound("a", "A", "Z")]);
    assert_eq!(ids(&app), vec!["a", "b"]);
    assert_eq!(app.view, CurrentView::Main);
}

#[test]
fn load_library_without_bundled_sounds_asks_for_assets() {
    let mut app = app_with(&[], Vec::new());
    app.load_library(None, vec![sound("a", "A", "Z")]);
    assert_eq!(app.view, CurrentView::AssetMissing);
    assert_eq!(ids(&app), vec!["a"]);
}

#[test]
fn registering_a_download_adds_or_updates_the_sound() {
    let mut app = app_with(&[], vec![sound("old_one", "Old One", "X")]);
    app.register_downloaded_sound(
        "New Sound".to_string(),
        "X".to_string(),
        "/p/new.ogg".to_string(),
        "*".to_string(),
        "http://u".to_string(),
    );
    assert_eq!(ids(&app), vec!["new_sound", "old_one"]);
    let added = &app.sounds[0];
    assert_eq!(added.name, "New Sound");
    assert_eq!(added.volume_bits, DEFAULT_VOLUME_BITS);
    assert_eq!(added.url.as_deref(), Some("http://u"));
    app.sounds[1].error_state = true;
    app.register_downloaded_sound(
        "Old One".to_string(),
        "Y".to_string(),
        "/p/old.ogg".to_string(),
        "?".to_string(),
        "http://v".to_string(),
    );
    assert_eq!(app.sounds.len(), 2);
    let updated = &app.sounds[1];
    assert_eq!(updated.file_path, "/p/old.ogg");
    assert_eq!(updated.url.as_deref(), Some("http://v"));
    assert!(!updated.error_state);
    assert_eq!(updated.category, "X");
    assert_eq!(updated.name, "Old One");
}

#[test]
fn marking_a_sound_error() {
    let mut app = app_with(&[], vec![sound("a", "A", "X")]);
    app.mark_sound_error(0);
    assert!(app.sounds[0].error_state);
    app.mark_sound_error(5);
    assert_eq!(app.sounds.len(), 1);
}

#[test]
fn session_volumes_are_applied_and_enabled_sounds_listed() {
    let mut app = app_with(&[], vec![sound("a", "A", "X"), sound("b", "B", "X"), sound("c", "C", "X")]);
    app.session.sounds.push(SoundState { id: "c".to_string(), enabled: true, volume_bits: 0.25f32.to_bits() });
    app.session.sounds.push(SoundState { id: "a".to_string(), enabled: false, volume_bits: 0.75f32.to_bits() });
    let play = app.apply_session_volumes();
    assert_eq!(play, vec![2]);
    assert_eq!(f32::from_bits(app.sounds[0].volume_bits), 0.75);
    assert_eq!(app.sounds[1].volume_bits, DEFAULT_VOLUME_BITS);
    assert_eq!(f32::from_bits(app.sounds[2].volume_bits), 0.25);
}

#[test]
fn session_round_trip_restores_volumes_and_playing_sounds() {
    let mut a = sound("a", "A", "X");
    a.volume_bits = 0.3f32.to_bits();
    let mut b = sound("b", "B", "X");
    b.volume_bits = 0.9f32.to_bits();
    let mut app = app_with(&[], vec![a, b]);
    app.session.sounds.push(SoundState { id: "b".to_string(), enabled: false, volume_bits: 0 });
    app.record_session(&vec![true, true]);
    assert_eq!(app.session.sounds.len(), 2);
    app.sounds[0].volume_bits = 0;
    app.sounds[1].volume_bits = 0;
    let play = app.apply_session_volumes();
    assert_eq!(play, vec![0, 1]);
    assert_eq!(f32::from_bits(app.sounds[0].volume_bits), 0.3);
    assert_eq!(f32::from_bits(app.sounds[1].volume_bits), 0.9);
}


#[test]
fn search_only_narrows_the_list() {
    let mut app = app_with(
        &[],
        vec![
            sound("rain", "Heavy Rain", "Weather"),
            sound("fire", "Fire", "Home"),
            sound("train", "Train", "Travel"),
        ],
    );
    app.config.hidden_sounds.push("fire".to_string());
    let all: Vec<usize> = app.get_filtered_sounds().iter().map(|(i, _)| *i).collect();
    for q in ["rain", "r", "zzz", "HOME", "t"] {
        app.search_query = q.to_string();
        let some: Vec<usize> = app.get_filtered_sounds().iter().map(|(i, _)| *i).collect();
        assert!(some.iter().all(|i| all.contains(i)));
    }
    app.search_query = "rain".to_string();
    let some: Vec<usize> = app.get_filtered_sounds().iter().map(|(i, _)| *i).collect();
    assert_eq!(some, vec![0, 2]);
}

#[test]
fn recording_twice_keeps_one_state_per_id() {
    let mut app = app_with(&[], vec![sound("a", "A", "X"), sound("b", "B", "X")]);
    app.record_session(&vec![true, false]);
    app.record_session(&vec![false, true]);
    let ids: Vec<String> = app.session.sounds.iter().map(|s| s.id.clone()).collect();
    assert_eq!(ids, vec!["a".to_string(), "b".to_string()]);
    assert!(!app.session.sounds[0].enabled);
    assert!(app.session.sounds[1].enabled);
}
