use tanin::app::{App, Config, Session};
use tanin::assets::{asset_path_candidates, config_download_url, custom_sounds_path, first_existing, REPO_URL_BASE};
use tanin::audio::{is_opus_path, AudioEngine, PlayStart, FADE_NANOS, FULL_VOLUME_BITS};
use tanin::catalog::{load_sounds_from_catalog, sound_id, Catalog, CatalogCategory, CatalogEntry};
use tanin::downloads::{DownloadEvent, DownloadPoll, DownloadStatus, DownloadTask, PollOutcome};
use tanin::layout::{center_rect, Area};
use tanin::sound::{default_icon, Sound, DEFAULT_VOLUME_BITS};

fn entry(key: &str) -> CatalogEntry {
    CatalogEntry {
        key: key.to_string(),
        name: None,
        file: None,
        volume_bits: DEFAULT_VOLUME_BITS,
        icon: default_icon(),
        url: None,
    }
}

fn category(name: &str, entries: Vec<CatalogEntry>) -> CatalogCategory {
    CatalogCategory { name: name.to_string(), entries: Some(entries) }
}

#[test]
fn catalog_entries_get_default_names_files_and_ids() {
    let mut named = entry("Big Fire");
    named.name = Some("Big Fire".to_string());
    let catalog = Catalog {
        base_path: None,
        categories: vec![category("Weather", vec![entry("light_rain")]), category("Home", vec![named])],
    };
    let sounds = load_sounds_from_catalog("assets/sounds.toml", &catalog);
    assert_eq!(sounds.len(), 2);
    assert_eq!(sounds[0].category, "Home");
    assert_eq!(sounds[0].id, "big_fire");
    assert_eq!(sounds[0].file_path, "assets/sounds/big_fire.ogg");
    assert_eq!(sounds[1].name, "light rain");
    assert_eq!(sounds[1].id, "light_rain");
    assert_eq!(sounds[1].file_path, "assets/sounds/light_rain.ogg");
    assert!(!sounds[1].error_state);
}

#[test]
fn catalog_base_path_applies_only_when_absolute() {
    let mut with_file = entry("b");
    with_file.file = Some("/abs/b.mp3".to_string());
    let catalog = Catalog {
        base_path: Some("/opt/sounds//".to_string()),
        categories: vec![
            category("C", vec![entry("a"), with_file]),
            CatalogCategory { name: "base_path".to_string(), entries: Some(vec![entry("zzz")]) },
            CatalogCategory { name: "other".to_string(), entries: None },
        ],
    };
    let sounds = load_sounds_from_catalog("sounds.toml", &catalog);
    assert_eq!(sounds.len(), 2);
    assert_eq!(sounds[0].file_path, "/opt/sounds/a.ogg");
    assert_eq!(sounds[1].file_path, "/abs/b.mp3");
    let relative = Catalog { base_path: Some("rel".to_string()), categories: vec![category("C", vec![entry("a")])] };
    let sounds = load_sounds_from_catalog("dir/sounds.toml", &relative);
    assert_eq!(sounds[0].file_path, "dir/sounds/a.ogg");
}

#[test]
fn catalog_is_sorted_by_category_then_id() {
    let catalog = Catalog {
        base_path: None,
        categories: vec![category("b", vec![entry("z"), entry("A")]), category("a", vec![entry("m")])],
    };
    let sounds = load_sounds_from_catalog("/x/sounds.toml", &catalog);
    let ids: Vec<&str> = sounds.iter().map(|s| s.id.as_str()).collect();
    assert_eq!(ids, vec!["m", "a", "z"]);
    assert_eq!(sounds[0].file_path, "/x/sounds/m.ogg");
}

#[test]
fn sound_ids_are_lowercase_with_underscores() {
    assert_eq!(sound_id("Heavy Rain Storm"), "heavy_rain_storm");
    assert_eq!(sound_id("ÉTÉ"), "été");
}

fn new_app() -> App {
    let config = Config {
        hidden_categories: Vec::new(),
        category_order: Vec::new(),
        enable_bundled_sounds: true,
        hidden_sounds: Vec::new(),
    };
    App::new(config, Session { global_volume_bits: 0, sounds: Vec::new() }, 0, true)
}

fn sound(id: &str, url: Option<&str>) -> Sound {
    Sound {
        id: id.to_string(),
        name: id.to_uppercase(),
        category: "Cat".to_string(),
        file_path: format!("/data/sounds/{}.ogg", id),
        volume_bits: DEFAULT_VOLUME_BITS,
        icon: default_icon(),
        url: url.map(|u| u.to_string()),
        error_state: false,
    }
}

#[test]
fn missing_files_with_urls_are_queued() {
    let mut app = new_app();
    let sounds = vec![sound("a", Some("http://a")), sound("b", None), sound("c", Some("http://c"))];
    app.queue_missing_downloads(&sounds, &vec![false, false, true]);
    assert_eq!(app.download_queue.len(), 1);
    let task = &app.download_queue[0];
    assert_eq!(task.name, "A");
    assert_eq!(task.url, "http://a");
    assert_eq!(task.target_filename.as_deref(), Some("a.ogg"));
    assert!(matches!(task.status, DownloadStatus::Pending));
}

fn task(name: &str, status: DownloadStatus) -> DownloadTask {
    DownloadTask {
        name: name.to_string(),
        category: "C".to_string(),
        url: "http://x".to_string(),
        status,
        icon: String::new(),
        target_filename: None,
    }
}

#[test]
fn next_download_is_first_pending_when_idle() {
    let mut app = new_app();
    app.download_queue.push(task("a", DownloadStatus::Done));
    app.download_queue.push(task("b", DownloadStatus::Pending));
    app.download_queue.push(task("c", DownloadStatus::Pending));
    assert_eq!(app.next_download_to_start(), Some(1));
    app.active_download_index = Some(1);
    assert_eq!(app.next_download_to_start(), None);
}

#[test]
fn download_polls_move_the_active_task() {
    let mut app = new_app();
    app.download_queue.push(task("a", DownloadStatus::Pending));
    app.active_download_index = Some(0);
    let r = app.apply_download_poll(DownloadPoll::Event(DownloadEvent::Progress(0.5f32.to_bits())));
    assert!(matches!(r, PollOutcome::Continue));
    assert!(matches!(app.download_queue[0].status, DownloadStatus::Downloading(b) if b == 0.5f32.to_bits()));
    let r = app.apply_download_poll(DownloadPoll::Empty);
    assert!(matches!(r, PollOutcome::Idle));
    assert_eq!(app.active_download_index, Some(0));
    let r = app.apply_download_poll(DownloadPoll::Event(DownloadEvent::Success(
        "N".to_string(),
        "C".to_string(),
        "/p".to_string(),
        "i".to_string(),
        "u".to_string(),
    )));
    assert!(matches!(r, PollOutcome::Downloaded { ref name, .. } if name == "N"));
    assert!(matches!(app.download_queue[0].status, DownloadStatus::Done));
    assert_eq!(app.active_download_index, None);
}

#[test]
fn download_errors_and_disconnects_end_the_active_task() {
    let mut app = new_app();
    app.download_queue.push(task("a", DownloadStatus::Pending));
    app.active_download_index = Some(0);
    let r = app.apply_download_poll(DownloadPoll::Event(DownloadEvent::Error("boom".to_string())));
    assert!(matches!(r, PollOutcome::Closed));
    assert!(matches!(&app.download_queue[0].status, DownloadStatus::Error(e) if e == "boom"));
    assert_eq!(app.active_download_index, None);
    app.active_download_index = Some(0);
    let r = app.apply_download_poll(DownloadPoll::Disconnected);
    assert!(matches!(r, PollOutcome::Closed));
    assert!(matches!(&app.download_queue[0].status, DownloadStatus::Error(e) if e == "Thread disconnected"));
    app.active_download_index = Some(7);
    app.apply_download_poll(DownloadPoll::Event(DownloadEvent::Progress(1)));
    assert!(matches!(&app.download_queue[0].status, DownloadStatus::Error(_)));
}

#[test]
fn config_download_queues_and_reloads() {
    let mut app = new_app();
    app.sounds.push(sound("stale", None));
    let downloaded = vec![sound("a", Some("http://a")), sound("b", Some("http://b"))];
    app.on_config_downloaded(&downloaded, &vec![true, false], Some(vec![sound("z", None)]), vec![sound("y", None)]);
    assert_eq!(app.download_queue.len(), 1);
    assert_eq!(app.download_queue[0].name, "B");
    let ids: Vec<&str> = app.sounds.iter().map(|s| s.id.as_str()).collect();
    assert_eq!(ids, vec!["y", "z"]);
    assert_eq!(app.view, tanin::app::CurrentView::Downloads);
    app.config.enable_bundled_sounds = false;
    app.on_config_downloaded(&Vec::new(), &Vec::new(), Some(vec![sound("q", None)]), vec![sound("x", None)]);
    let ids: Vec<&str> = app.sounds.iter().map(|s| s.id.as_str()).collect();
    assert_eq!(ids, vec!["x", "y", "z"]);
}

#[test]
fn asset_download_failures_are_reported() {
    let mut app = new_app();
    app.on_asset_download_error("no network".to_string());
    assert_eq!(app.asset_download_error.as_deref(), Some("no network"));
    app.on_asset_channel_closed();
    assert_eq!(app.asset_download_error.as_deref(), Some("Thread disconnected"));
}

#[test]
fn engine_play_stop_and_fade() {
    let mut engine: AudioEngine<u32> = AudioEngine::new();
    assert_eq!(engine.master_volume_bits, FULL_VOLUME_BITS);
    assert!(matches!(engine.begin_play("rain"), PlayStart::Start { restarted: None }));
    engine.finish_play("rain", 1, 0.5f32.to_bits());
    assert!(engine.is_playing("rain"));
    assert!(matches!(engine.begin_play("rain"), PlayStart::AlreadyPlaying));
    engine.stop("rain", 0.5f32.to_bits());
    assert!(!engine.is_playing("rain"));
    assert!(engine.is_fading("rain"));
    assert!(matches!(engine.begin_play("rain"), PlayStart::Start { restarted: Some(1) }));
    assert!(!engine.is_fading("rain"));
    engine.finish_play("rain", 2, 0.5f32.to_bits());
    engine.stop("rain", 0);
    assert!(engine.can_advance(FADE_NANOS));
    let done = engine.update(FADE_NANOS / 2);
    assert!(done.is_empty());
    assert_eq!(engine.fading_sinks[0].elapsed_nanos, FADE_NANOS / 2);
    let done = engine.update(FADE_NANOS / 2);
    assert_eq!(done, vec![2]);
    assert!(engine.fading_sinks.is_empty());
}

#[test]
fn engine_update_removes_finished_fades_largest_index_first() {
    let mut engine: AudioEngine<u32> = AudioEngine::new();
    for (id, sink) in [("a", 10u32), ("b", 11), ("c", 12), ("d", 13)] {
        engine.begin_play(id);
        engine.finish_play(id, sink, 0);
    }
    engine.stop("a", 0);
    engine.update(FADE_NANOS / 2);
    engine.stop("b", 0);
    engine.stop("c", 0);
    engine.update(FADE_NANOS / 4);
    engine.stop("d", 0);
    let done = engine.update(FADE_NANOS / 4);
    assert_eq!(done, vec![10]);
    let ids: Vec<&str> = engine.fading_sinks.iter().map(|f| f.id.as_str()).collect();
    assert_eq!(ids, vec!["d", "b", "c"]);
    assert!(!engine.can_advance(u128::MAX));
}

#[test]
fn engine_volumes() {
    let mut engine: AudioEngine<u32> = AudioEngine::new();
    assert_eq!(engine.set_volume("a", 3), None);
    engine.begin_play("b");
    engine.finish_play("b", 7, 4);
    engine.begin_play("c");
    engine.finish_play("c", 8, 5);
    assert_eq!(engine.set_volume("b", 6), Some(&7));
    let targets = engine.set_master_volume(9);
    assert_eq!(targets, vec![(&7, 6), (&8, 5)]);
    assert_eq!(engine.master_volume_bits, 9);
    engine.stop_all();
    assert!(engine.sinks.is_empty());
    assert!(engine.fading_sinks.is_empty());
    assert!(!engine.is_playing("b"));
}

#[test]
fn opus_files_are_recognised_by_extension() {
    assert!(is_opus_path("/a/b.OPUS"));
    assert!(is_opus_path("clip.webm"));
    assert!(!is_opus_path("rain.ogg"));
    assert!(!is_opus_path("opus"));
}

#[test]
fn asset_locations() {
    let c = asset_path_candidates(Some("/home/u/.local/share/tanin".to_string()));
    assert_eq!(
        c,
        vec![
            "assets/sounds.toml".to_string(),
            "/home/u/.local/share/tanin/assets/sounds.toml".to_string(),
            "/usr/share/tanin/assets/sounds.toml".to_string(),
        ]
    );
    assert_eq!(asset_path_candidates(None).len(), 2);
    assert_eq!(first_existing(&vec![false, true, true]), Some(1));
    assert_eq!(first_existing(&vec![false, false]), None);
    assert_eq!(custom_sounds_path(Some("/cfg".to_string())), "/cfg/sounds.toml");
    assert_eq!(custom_sounds_path(None), "custom_sounds.toml");
    assert_eq!(config_download_url(), format!("{}assets/sounds.toml", REPO_URL_BASE));
}

#[test]
fn popups_are_centred() {
    let area = Area { x: 0, y: 0, width: 80, height: 24 };
    assert_eq!(center_rect(area, 60, 10), Area { x: 10, y: 7, width: 60, height: 10 });
    let small = Area { x: 2, y: 1, width: 40, height: 8 };
    let c = center_rect(small, 60, 10);
    assert_eq!((c.x, c.y), (2, 1));
}
