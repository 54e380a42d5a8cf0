//! The sound catalog: how the entries of a sounds file become sounds.
//!
//! A sounds file has one table per category, each holding one table per
//! sound; an optional top-level `base_path` string names an absolute
//! directory for the sound files. This module lists the keys of a file's
//! text in order ([`catalog_entries`]); the caller decodes each sound's
//! table into a [`CatalogEntry`], and [`load_sounds_from_catalog`]
//! resolves names, ids and file paths.

use vstd::prelude::*;
use crate::order::{display_sorted, sort_in_display_order};
use crate::paths::{
    is_absolute_path, joined_path, parent_of, path_is_absolute, path_join, path_parent,
};
use crate::sound::{opt_view, views, Sound, SoundView};
use crate::user_sounds::{
    entry_listing, into_table, into_text, key_listing, parse_sounds_table, parsed_toml,
    table_entries, table_items, toml_item, TomlItem,
};
use crate::text::{
    chars_lt, lemma_chars_lt_irreflexive,
    lowercase, push_char, replace_char, replace_char_in, to_lowercase, trim_end_char,
    trim_trailing,
};

verus! {

/// One sound entry of a category table, as written in the file; missing
/// `volume` and `icon` already carry their defaults.
pub struct CatalogEntry {
    /// The key of the entry in its category table.
    pub key: String,
    pub name: Option<String>,
    pub file: Option<String>,
    /// Bit pattern of the `f32` volume.
    pub volume_bits: u32,
    pub icon: String,
    pub url: Option<String>,
}

/// One top-level key of the file; `entries` is `None` when its value is not a table.
pub struct CatalogCategory {
    pub name: String,
    pub entries: Option<Vec<CatalogEntry>>,
}

/// A decoded sounds file, its top-level keys in file order.
pub struct Catalog {
    /// The value of the top-level `base_path` key, when it is a string.
    pub base_path: Option<String>,
    pub categories: Vec<CatalogCategory>,
}

/// The mathematical value of a [`CatalogEntry`].
pub struct EntryView {
    pub key: Seq<char>,
    pub name: Option<Seq<char>>,
    pub file: Option<Seq<char>>,
    pub volume_bits: u32,
    pub icon: Seq<char>,
    pub url: Option<Seq<char>>,
}

impl View for CatalogEntry {
    type V = EntryView;

    open spec fn view(&self) -> EntryView {
        EntryView {
            key: self.key@,
            name: opt_view(self.name),
            file: opt_view(self.file),
            volume_bits: self.volume_bits,
            icon: self.icon@,
            url: opt_view(self.url),
        }
    }
}

/// The mathematical value of a [`CatalogCategory`].
pub struct CategoryView {
    pub name: Seq<char>,
    pub entries: Option<Seq<EntryView>>,
}

impl View for CatalogCategory {
    type V = CategoryView;

    open spec fn view(&self) -> CategoryView {
        CategoryView {
            name: self.name@,
            entries: match self.entries {
                Some(v) => Some(v@.map_values(|e: CatalogEntry| e@)),
                None => None,
            },
        }
    }
}

/// The key that holds the base path rather than a category.
pub open spec fn base_path_key() -> Seq<char> {
    seq!['b', 'a', 's', 'e', '_', 'p', 'a', 't', 'h']
}

/// The id of a sound named `name`: lowercase, with spaces turned into underscores.
pub open spec fn id_for(name: Seq<char>) -> Seq<char> {
    replace_char(lowercase(name), ' ', '_')
}

/// The display name of an entry: its `name`, or its key with underscores
/// turned into spaces.
pub open spec fn entry_name(e: EntryView) -> Seq<char> {
    match e.name {
        Some(n) => n,
        None => replace_char(e.key, '_', ' '),
    }
}

/// The file name of an entry: its `file`, or the id of its name followed by `.ogg`.
pub open spec fn entry_file(e: EntryView) -> Seq<char> {
    match e.file {
        Some(f) => f,
        None => id_for(entry_name(e)) + seq!['.', 'o', 'g', 'g'],
    }
}

/// Where an entry's file is: an absolute file name as it is; otherwise in
/// an absolute base directory when one is given, else in the `sounds`
/// directory next to the sounds file.
pub open spec fn entry_path(e: EntryView, base: Option<Seq<char>>, dir: Seq<char>) -> Seq<char> {
    let f = entry_file(e);
    if is_absolute_path(f) {
        f
    } else if base is Some && is_absolute_path(base->0) {
        joined_path(base->0, f)
    } else {
        joined_path(joined_path(dir, seq!['s', 'o', 'u', 'n', 'd', 's']), f)
    }
}

/// The sound an entry of `category` describes.
pub open spec fn entry_sound(
    e: EntryView,
    category: Seq<char>,
    base: Option<Seq<char>>,
    dir: Seq<char>,
) -> SoundView {
    SoundView {
        id: id_for(e.key),
        name: entry_name(e),
        category,
        file_path: entry_path(e, base, dir),
        volume_bits: e.volume_bits,
        icon: e.icon,
        url: e.url,
        error_state: false,
    }
}

/// The sounds of one top-level key: none for `base_path` or a non-table value.
pub open spec fn category_sounds(c: CategoryView, base: Option<Seq<char>>, dir: Seq<char>) -> Seq<
    SoundView,
> {
    if c.name == base_path_key() || c.entries is None {
        seq![]
    } else {
        c.entries->0.map_values(|e: EntryView| entry_sound(e, c.name, base, dir))
    }
}

/// The sounds of all categories, category after category, in file order.
pub open spec fn catalog_sounds(cs: Seq<CategoryView>, base: Option<Seq<char>>, dir: Seq<char>) -> Seq<
    SoundView,
>
    decreases cs.len(),
{
    if cs.len() == 0 {
        seq![]
    } else {
        catalog_sounds(cs.drop_last(), base, dir) + category_sounds(cs.last(), base, dir)
    }
}

/// The directory that relative sound paths start from: the parent of the
/// sounds file, or `.`.
pub open spec fn catalog_dir(path: Seq<char>) -> Seq<char> {
    match parent_of(path) {
        Some(p) => p,
        None => seq!['.'],
    }
}

/// The base directory given by the file, without trailing slashes.
pub open spec fn catalog_base(base_path: Option<Seq<char>>) -> Option<Seq<char>> {
    match base_path {
        Some(b) => Some(trim_trailing(b, '/')),
        None => None,
    }
}

/// The id of a sound named `name`.
pub fn sound_id(name: &str) -> (r: String)
    ensures
        r@ == id_for(name@),
{
    let lower = to_lowercase(name);
    replace_char_in(lower.as_str(), ' ', '_')
}

/// A string holding the given characters.
fn text_of(cs: Vec<char>) -> (s: String)
    ensures
        s@ == cs@,
{
    crate::text::string_from_chars(&cs)
}

/// Whether a top-level key is `base_path`.
fn is_base_path_key(s: &String) -> (r: bool)
    ensures
        r == (s@ == base_path_key()),
{
    let key = text_of(vec!['b', 'a', 's', 'e', '_', 'p', 'a', 't', 'h']);
    *s == key
}

/// The sound described by entry `e` of `category`.
fn resolve_entry(e: &CatalogEntry, category: &String, base: &Option<String>, dir: &String) -> (s: Sound)
    ensures
        s@ == entry_sound(e@, category@, opt_view(*base), dir@),
{
    let name = match &e.name {
        Some(n) => n.clone(),
        None => replace_char_in(e.key.as_str(), '_', ' '),
    };
    let file = match &e.file {
        Some(f) => f.clone(),
        None => {
            let mut f = sound_id(name.as_str());
            push_char(&mut f, '.');
            push_char(&mut f, 'o');
            push_char(&mut f, 'g');
            push_char(&mut f, 'g');
            assert(f@ =~= id_for(name@) + seq!['.', 'o', 'g', 'g']);
            f
        },
    };
    let file_path = if path_is_absolute(file.as_str()) {
        file
    } else {
        let absolute_base = match base {
            Some(b) => path_is_absolute(b.as_str()),
            None => false,
        };
        if absolute_base {
            match base {
                Some(b) => path_join(b.as_str(), file.as_str()),
                None => file,
            }
        } else {
            let sounds_name = text_of(vec!['s', 'o', 'u', 'n', 'd', 's']);
            let sounds_dir = path_join(dir.as_str(), sounds_name.as_str());
            path_join(sounds_dir.as_str(), file.as_str())
        }
    };
    Sound {
        id: sound_id(e.key.as_str()),
        name,
        category: category.clone(),
        file_path,
        volume_bits: e.volume_bits,
        icon: e.icon.clone(),
        url: match &e.url {
            Some(u) => Some(u.clone()),
            None => None,
        },
        error_state: false,
    }
}

/// The sounds listed in the sounds file at `path`, decoded into `catalog`,
/// sorted by category and then id.
pub fn load_sounds_from_catalog(path: &str, catalog: &Catalog) -> (r: Vec<Sound>)
    ensures
        views(r@) == display_sorted(
            Seq::empty(),
            catalog_sounds(
                catalog.categories@.map_values(|c: CatalogCategory| c@),
                catalog_base(opt_view(catalog.base_path)),
                catalog_dir(path@),
            ),
        ),
{
    let dir = match path_parent(path) {
        Some(p) => p,
        None => text_of(vec!['.']),
    };
    let base = match &catalog.base_path {
        Some(b) => Some(trim_end_char(b.as_str(), '/')),
        None => None,
    };
    let ghost gbase = catalog_base(opt_view(catalog.base_path));
    assert(opt_view(base) == gbase);
    let ghost cs = catalog.categories@.map_values(|c: CatalogCategory| c@);
    let mut sounds: Vec<Sound> = Vec::new();
    for i in 0..catalog.categories.len()
        invariant
            cs == catalog.categories@.map_values(|c: CatalogCategory| c@),
            opt_view(base) == gbase,
            dir@ == catalog_dir(path@),
            views(sounds@) == catalog_sounds(cs.take(i as int), gbase, dir@),
    {
        let category = &catalog.categories[i];
        assert(cs.take(i + 1).drop_last() =~= cs.take(i as int));
        assert(cs.take(i + 1).last() == category@);
        if !is_base_path_key(&category.name) {
            if let Some(entries) = &category.entries {
                let ghost start = views(sounds@);
                let ghost es = entries@.map_values(|e: CatalogEntry| e@);
                for j in 0..entries.len()
                    invariant
                        es == entries@.map_values(|e: CatalogEntry| e@),
                        opt_view(base) == gbase,
                        views(sounds@) == start + es.take(j as int).map_values(
                            |e: EntryView| entry_sound(e, category.name@, gbase, dir@),
                        ),
                {
                    let s = resolve_entry(&entries[j], &category.name, &base, &dir);
                    let ghost prev = sounds@;
                    sounds.push(s);
                    assert(views(sounds@) =~= views(prev).push(s@));
                    assert(es.take(j + 1) =~= es.take(j as int).push(es[j as int]));
                    assert(es.take(j + 1).map_values(
                        |e: EntryView| entry_sound(e, category.name@, gbase, dir@),
                    ) =~= es.take(j as int).map_values(
                        |e: EntryView| entry_sound(e, category.name@, gbase, dir@),
                    ).push(entry_sound(es[j as int], category.name@, gbase, dir@)));
                }
                assert(es.take(entries.len() as int) =~= es);
            }
        }
        assert(views(sounds@) =~= catalog_sounds(cs.take(i + 1), gbase, dir@));
    }
    assert(cs.take(catalog.categories.len() as int) =~= cs);
    let no_order: Vec<String> = Vec::new();
    sort_in_display_order(&no_order, &mut sounds);
    assert(crate::sound::str_views(no_order@) =~= Seq::<Seq<char>>::empty());
    sounds
}

/// The top-level `base_path` of a sounds file, when it holds a string.
pub open spec fn base_path_text(items: Map<Seq<char>, TomlItem>) -> Option<Seq<char>> {
    if items.dom().contains(base_path_key()) {
        match items[base_path_key()] {
            TomlItem::Text(s) => Some(s),
            _ => None,
        }
    } else {
        None
    }
}

/// One top-level key of a sounds file with the entries of its table, or
/// `None` for `base_path` and for a key whose value is not a table.
pub type TopLevelKey = (String, Option<Vec<(String, toml::Value)>>);

/// The names of top-level keys.
pub open spec fn top_names(cats: Seq<TopLevelKey>) -> Seq<Seq<char>> {
    cats.map_values(|c: TopLevelKey| c.0@)
}

/// `cats` lists the top-level keys of `items` in increasing order, each
/// with the entries of its table in increasing key order, or `None` for
/// `base_path` and for a key whose value is not a table.
pub open spec fn category_listing(items: Map<Seq<char>, TomlItem>, cats: Seq<TopLevelKey>) -> bool {
    &&& key_listing(items, top_names(cats))
    &&& forall|i: int|
        0 <= i < cats.len() ==> match (#[trigger] cats[i]).1 {
            Some(es) => cats[i].0@ != base_path_key() && items[cats[i].0@] is Table
                && entry_listing(items[cats[i].0@]->Table_0, es@),
            None => cats[i].0@ == base_path_key() || !(items[cats[i].0@] is Table),
        }
}

/// The keys of a sounds file's text, in order: its `base_path` when that is
/// a string, and every top-level key with the entries of its table. `None`
/// when the text is not TOML.
pub fn catalog_entries(content: &str) -> (r: Option<(Option<String>, Vec<TopLevelKey>)>)
    ensures
        r is None <==> parsed_toml(content@) is None,
        r matches Some((base, cats)) ==> ({
            let items = parsed_toml(content@)->0;
            &&& opt_view(base) == base_path_text(items)
            &&& category_listing(items, cats@)
        }),
{
    let root = match parse_sounds_table(content) {
        Some(t) => t,
        None => {
            return None;
        },
    };
    let ghost items = table_items(root);
    let pairs = table_entries(root);
    let ghost ps = pairs@;
    let mut base: Option<String> = None;
    let mut cats: Vec<TopLevelKey> = Vec::new();
    for p in it: pairs.into_iter()
        invariant
            it.seq() == ps,
            entry_listing(items, ps),
            cats@.len() == it.index(),
            forall|j: int| 0 <= j < cats@.len() ==> (#[trigger] cats@[j]).0@ == ps[j].0@,
            forall|j: int|
                0 <= j < cats@.len() ==> match (#[trigger] cats@[j]).1 {
                    Some(es) => cats@[j].0@ != base_path_key() && items[cats@[j].0@] is Table
                        && entry_listing(items[cats@[j].0@]->Table_0, es@),
                    None => cats@[j].0@ == base_path_key() || !(items[cats@[j].0@] is Table),
                },
            (exists|j: int| 0 <= j < it.index() && #[trigger] ps[j].0@ == base_path_key())
                ==> opt_view(base) == base_path_text(items),
            !(exists|j: int| 0 <= j < it.index() && #[trigger] ps[j].0@ == base_path_key())
                ==> base is None,
    {
        let ghost i = cats@.len() as int;
        let (k, v) = p;
        assert(k@ == ps[i].0@ && v == ps[i].1);
        assert(pair_key_at(ps, i) == k@);
        let is_base = is_base_path_key(&k);
        match into_table(v) {
            Ok(t) => {
                if is_base {
                    cats.push((k, None));
                } else {
                    let es = table_entries(t);
                    cats.push((k, Some(es)));
                }
            },
            Err(w) => {
                if is_base {
                    if let Ok(text) = into_text(w) {
                        base = Some(text);
                    }
                }
                cats.push((k, None));
            },
        }
        proof {
            if exists|j: int| 0 <= j < i + 1 && #[trigger] ps[j].0@ == base_path_key() {
                let j = choose|j: int| 0 <= j < i + 1 && #[trigger] ps[j].0@ == base_path_key();
                if j < i {
                    assert(chars_lt(pair_key_at(ps, j), pair_key_at(ps, i)));
                    lemma_chars_lt_irreflexive(pair_key_at(ps, j));
                }
            }
        }
    }
    proof {
        assert(top_names(cats@) =~= crate::user_sounds::pair_keys(ps));
        if items.dom().contains(base_path_key()) {
            assert(crate::user_sounds::pair_keys(ps).contains(base_path_key()));
            let j = choose|j: int| 0 <= j < ps.len() && crate::user_sounds::pair_keys(ps)[j] == base_path_key();
            assert(ps[j].0@ == base_path_key());
        }
    }
    Some((base, cats))
}

/// The key of pair `i`.
spec fn pair_key_at(ps: Seq<(String, toml::Value)>, i: int) -> Seq<char> {
    crate::user_sounds::pair_keys(ps)[i]
}

/// A joined path ends with the part joined on.
proof fn lemma_joined_ends_with(base: Seq<char>, tail: Seq<char>)
    ensures
        exists|pre: Seq<char>| joined_path(base, tail) == pre + tail,
{
    if is_absolute_path(tail) {
        assert(joined_path(base, tail) == Seq::<char>::empty() + tail);
    } else if base.len() == 0 || base.last() == '/' {
        assert(joined_path(base, tail) == base + tail);
    } else {
        assert(joined_path(base, tail) == (base + seq!['/']) + tail);
    }
}

/// An entry without a `file` names its file after the sound's display name:
/// the file path ends in that name, lowercased, with spaces turned into
/// underscores, followed by `.ogg`. The display name is the entry's `name`
/// when it has one, whatever its key; otherwise its key with underscores
/// turned into spaces. An entry with a `file` keeps it at the end of its path.
pub proof fn law_entry_file_follows_name(
    e: EntryView,
    category: Seq<char>,
    base: Option<Seq<char>>,
    dir: Seq<char>,
)
    ensures
        e.file is None && e.name is Some ==> exists|pre: Seq<char>|
            entry_sound(e, category, base, dir).file_path == pre + replace_char(
                lowercase(e.name->0),
                ' ',
                '_',
            ) + seq!['.', 'o', 'g', 'g'],
        e.file is None && e.name is None ==> exists|pre: Seq<char>|
            entry_sound(e, category, base, dir).file_path == pre + replace_char(
                lowercase(replace_char(e.key, '_', ' ')),
                ' ',
                '_',
            ) + seq!['.', 'o', 'g', 'g'],
        e.file matches Some(f) ==> exists|pre: Seq<char>|
            entry_sound(e, category, base, dir).file_path == pre + f,
        e.name matches Some(n) ==> entry_sound(e, category, base, dir).name == n,
{
    let f = entry_file(e);
    let p = entry_sound(e, category, base, dir).file_path;
    if is_absolute_path(f) {
        assert(p == Seq::<char>::empty() + f);
    } else if base is Some && is_absolute_path(base->0) {
        lemma_joined_ends_with(base->0, f);
    } else {
        lemma_joined_ends_with(joined_path(dir, seq!['s', 'o', 'u', 'n', 'd', 's']), f);
    }
    let pre = choose|pre: Seq<char>| p == pre + f;
    if e.file is None {
        let stem = replace_char(lowercase(entry_name(e)), ' ', '_');
        assert(f == stem + seq!['.', 'o', 'g', 'g']);
        assert(p == pre + stem + seq!['.', 'o', 'g', 'g']);
    }
}

} // verus!
