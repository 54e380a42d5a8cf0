use tanin::catalog::catalog_entries;
use tanin::layout::{center_rect, centring, Area, Span};
use tanin::user_sounds::{
    add_sound_entry, parse_sounds_table, render_sounds_table, sounds_file_with_sound,
    sounds_table_or_empty, ADDED_VOLUME_TEXT,
};

fn parsed(text: &str) -> toml::Table {
    toml::from_str(text).expect("the library wrote TOML")
}

fn sound<'a>(root: &'a toml::Table, category: &str, id: &str) -> &'a toml::Table {
    root.get(category)
        .and_then(|c| c.as_table())
        .and_then(|c| c.get(id))
        .and_then(|s| s.as_table())
        .expect("the sound's table")
}

#[test]
fn new_file_gets_category_and_sound() {
    let out = sounds_file_with_sound(None, "Rain Storm", "Nature", "/m/rain.ogg", "R", None)
        .expect("written");
    let root = parsed(&out);
    assert_eq!(root.len(), 1);
    let s = sound(&root, "Nature", "rain_storm");
    assert_eq!(s.get("file").and_then(|v| v.as_str()), Some("/m/rain.ogg"));
    assert_eq!(s.get("icon").and_then(|v| v.as_str()), Some("R"));
    assert_eq!(s.get("volume").and_then(|v| v.as_float()), Some(0.5));
    assert!(s.get("url").is_none());
    assert_eq!(s.len(), 3);
}

#[test]
fn url_is_written_when_given() {
    let out = sounds_file_with_sound(
        None,
        "Fire",
        "Home",
        "/m/fire.ogg",
        "F",
        Some("https://example.com/v"),
    )
    .expect("written");
    let root = parsed(&out);
    let s = sound(&root, "Home", "fire");
    assert_eq!(s.get("url").and_then(|v| v.as_str()), Some("https://example.com/v"));
    assert_eq!(s.len(), 4);
}

#[test]
fn existing_entries_are_kept_and_same_id_replaced() {
    let before = "top = 7\n\n[Nature.birds]\nfile = \"b.ogg\"\n\n[Nature.rain]\nfile = \"old.ogg\"\n\n[Other.x]\nicon = \"X\"\n";
    let out = sounds_file_with_sound(Some(before), "Rain", "Nature", "new.ogg", "N", None)
        .expect("written");
    let root = parsed(&out);
    assert_eq!(root.get("top").and_then(|v| v.as_integer()), Some(7));
    assert_eq!(sound(&root, "Nature", "birds").get("file").and_then(|v| v.as_str()), Some("b.ogg"));
    assert_eq!(sound(&root, "Other", "x").get("icon").and_then(|v| v.as_str()), Some("X"));
    let rain = sound(&root, "Nature", "rain");
    assert_eq!(rain.get("file").and_then(|v| v.as_str()), Some("new.ogg"));
    assert_eq!(rain.get("icon").and_then(|v| v.as_str()), Some("N"));
    assert_eq!(root.get("Nature").and_then(|c| c.as_table()).map(|c| c.len()), Some(2));
}

#[test]
fn unparsable_file_counts_as_empty() {
    let out = sounds_file_with_sound(Some("this is [ not toml"), "Wind", "Air", "w.ogg", "W", None)
        .expect("written");
    let root = parsed(&out);
    assert_eq!(root.len(), 1);
    assert_eq!(sound(&root, "Air", "wind").get("file").and_then(|v| v.as_str()), Some("w.ogg"));
}

#[test]
fn category_that_is_not_a_table_is_left_alone() {
    let out = sounds_file_with_sound(Some("Air = \"plain\"\n"), "Wind", "Air", "w.ogg", "W", None)
        .expect("written");
    let root = parsed(&out);
    assert_eq!(root.len(), 1);
    assert_eq!(root.get("Air").and_then(|v| v.as_str()), Some("plain"));
}

#[test]
fn parse_sounds_table_reports_bad_text() {
    assert!(parse_sounds_table("a = ").is_none());
    let t = parse_sounds_table("a = 1\n[b]\nc = \"d\"\n").expect("parsed");
    assert_eq!(t.len(), 2);
    assert_eq!(sounds_table_or_empty(Some("][")).len(), 0);
    assert_eq!(sounds_table_or_empty(None).len(), 0);
    assert_eq!(sounds_table_or_empty(Some("k = true")).len(), 1);
}

#[test]
fn added_entry_renders_as_toml() {
    let mut root = sounds_table_or_empty(None);
    add_sound_entry(&mut root, "Soft Rain", "Nature", "rain.ogg", "R", None);
    let text = render_sounds_table(&root).expect("written");
    assert!(text.contains("[Nature.soft_rain]"));
    assert!(text.contains("file = \"rain.ogg\""));
    assert!(text.contains("icon = \"R\""));
    assert!(text.contains("volume = 0.5"));
    assert_eq!(ADDED_VOLUME_TEXT, "0.5");
}

#[test]
fn centring_spans_split_the_free_room() {
    assert_eq!(centring(80, 60), vec![Span::Length(10), Span::Length(60), Span::Min(0)]);
    assert_eq!(centring(24, 10), vec![Span::Length(7), Span::Length(10), Span::Min(0)]);
    assert_eq!(centring(8, 10), vec![Span::Length(0), Span::Length(10), Span::Min(0)]);
}

#[test]
fn catalog_entries_lists_keys_in_order() {
    let text = "base_path = \"/opt/s/\"\nvolume = 3\n\n[Weather.rain]\nfile = \"r.ogg\"\n\n[Home.fire]\nicon = \"F\"\n\n[Home.cat]\n";
    let (base, keys) = catalog_entries(text).expect("parsed");
    assert_eq!(base, Some("/opt/s/".to_string()));
    let names: Vec<&str> = keys.iter().map(|(k, _)| k.as_str()).collect();
    assert_eq!(names, vec!["Home", "Weather", "base_path", "volume"]);
    let home: Vec<&str> = keys[0].1.as_ref().expect("a table").iter().map(|(k, _)| k.as_str()).collect();
    assert_eq!(home, vec!["cat", "fire"]);
    let weather = keys[1].1.as_ref().expect("a table");
    assert_eq!(weather.len(), 1);
    assert_eq!(
        weather[0].1.as_table().and_then(|t| t.get("file")).and_then(|v| v.as_str()),
        Some("r.ogg")
    );
    assert!(keys[2].1.is_none());
    assert!(keys[3].1.is_none());
}

#[test]
fn catalog_entries_base_path_only_as_text() {
    let (base, keys) = catalog_entries("base_path = 5\n").expect("parsed");
    assert_eq!(base, None);
    assert!(keys[0].1.is_none());
    let (base, keys) = catalog_entries("[base_path.x]\nfile = \"a\"\n").expect("parsed");
    assert_eq!(base, None);
    assert_eq!(keys.len(), 1);
    assert!(keys[0].1.is_none());
    assert!(catalog_entries("[unclosed").is_none());
    let (base, keys) = catalog_entries("").expect("parsed");
    assert_eq!(base, None);
    assert!(keys.is_empty());
}

#[test]
fn centred_box_lies_inside_the_area() {
    let areas = [
        Area { x: 0, y: 0, width: 80, height: 24 },
        Area { x: 5, y: 3, width: 30, height: 7 },
        Area { x: 2, y: 1, width: 1, height: 1 },
    ];
    for r in areas {
        for (w, h) in [(60u16, 10u16), (10, 3), (0, 0), (200, 50)] {
            let c = center_rect(r, w, h);
            assert!(c.x >= r.x && c.x + c.width <= r.x + r.width);
            assert!(c.y >= r.y && c.y + c.height <= r.y + r.height);
        }
    }
    assert_eq!(
        center_rect(Area { x: 5, y: 3, width: 30, height: 7 }, 10, 3),
        Area { x: 15, y: 5, width: 10, height: 3 }
    );
    assert_eq!(
        center_rect(Area { x: 2, y: 1, width: 41, height: 9 }, 40, 9),
        Area { x: 2, y: 1, width: 40, height: 9 }
    );
    assert_eq!(
        center_rect(Area { x: 0, y: 0, width: 80, height: 24 }, 0, 0),
        Area { x: 40, y: 12, width: 0, height: 0 }
    );
}
