//! The user's own sounds file: a TOML document with one table per
//! category, each mapping a sound's id to a table holding its `file`,
//! `icon`, `volume` and, for a downloaded sound, its `url`.
//!
//! Reading and writing the file is the caller's part; this module parses
//! its text, adds a sound to it and renders it again.

use vstd::prelude::*;
use crate::catalog::{id_for, sound_id};
use crate::text::chars_lt;

verus! {

/// toml's map type; `toml::Table` is its instance from strings to values.
#[verifier::external_type_specification]
#[verifier::external_body]
#[verifier::reject_recursive_types(K)]
#[verifier::reject_recursive_types(V)]
pub struct ExTomlMap<K, V>(toml::map::Map<K, V>);

/// A TOML value.
#[verifier::external_type_specification]
#[verifier::external_body]
pub struct ExTomlValue(toml::Value);

/// What `toml::from_str` reports for text that is not TOML.
#[verifier::external_type_specification]
#[verifier::external_body]
pub struct ExTomlParseError(toml::de::Error);

/// What `toml::to_string_pretty` reports for a value TOML cannot express.
#[verifier::external_type_specification]
#[verifier::external_body]
pub struct ExTomlWriteError(toml::ser::Error);

/// What a TOML value holds, as plain values.
pub enum TomlItem {
    Text(Seq<char>),
    Integer(i64),
    /// A float, by the bit pattern of its `f64`.
    Float(u64),
    Boolean(bool),
    /// A date-time, by its TOML text.
    Datetime(Seq<char>),
    Array(Seq<TomlItem>),
    Table(Map<Seq<char>, TomlItem>),
}

/// What a TOML table holds: each key with what its value holds.
pub uninterp spec fn table_items(t: toml::map::Map<String, toml::Value>) -> Map<Seq<char>, TomlItem>;

/// What a TOML value holds.
pub uninterp spec fn toml_item(v: toml::Value) -> TomlItem;

/// What `toml::from_str` makes of a document's text as a table: `None`
/// where it reports an error.
pub uninterp spec fn parsed_toml(text: Seq<char>) -> Option<Map<Seq<char>, TomlItem>>;

/// The text `toml::to_string_pretty` writes for a table holding `items`:
/// `None` where it reports an error.
pub uninterp spec fn pretty_toml(items: Map<Seq<char>, TomlItem>) -> Option<Seq<char>>;

/// The bit pattern of the `f64` that std's `str::parse` reads from a
/// decimal text.
pub uninterp spec fn decimal_float_bits(text: Seq<char>) -> u64;

/// An empty table (`toml::map::Map::new`).
#[verifier::external_body]
fn new_table() -> (r: toml::Table)
    ensures
        table_items(r) =~= Map::empty(),
{
    toml::Table::new()
}

/// Puts `v` under `key`, in place of any value there
/// (`toml::map::Map::insert`).
#[verifier::external_body]
fn table_insert(t: &mut toml::Table, key: String, v: toml::Value)
    ensures
        table_items(*final(t)) == table_items(*old(t)).insert(key@, toml_item(v)),
{
    t.insert(key, v);
}

/// Takes the value under `key` out of the table (`toml::map::Map::remove`).
#[verifier::external_body]
fn table_remove(t: &mut toml::Table, key: &str) -> (r: Option<toml::Value>)
    ensures
        table_items(*final(t)) == table_items(*old(t)).remove(key@),
        match r {
            Some(v) => table_items(*old(t)).dom().contains(key@) && toml_item(v)
                == table_items(*old(t))[key@],
            None => !table_items(*old(t)).dom().contains(key@),
        },
{
    t.remove(key)
}

/// A TOML string value (`toml::Value::String`).
#[verifier::external_body]
fn text_value(s: String) -> (v: toml::Value)
    ensures
        toml_item(v) == TomlItem::Text(s@),
{
    toml::Value::String(s)
}

/// A TOML table value (`toml::Value::Table`).
#[verifier::external_body]
fn table_value(t: toml::Table) -> (v: toml::Value)
    ensures
        toml_item(v) == TomlItem::Table(table_items(t)),
{
    toml::Value::Table(t)
}

/// The table a value holds, or the value itself back when it holds
/// something else.
#[verifier::external_body]
pub(crate) fn into_table(v: toml::Value) -> (r: Result<toml::Table, toml::Value>)
    ensures
        match r {
            Ok(t) => toml_item(v) == TomlItem::Table(table_items(t)),
            Err(w) => w == v && !(toml_item(v) is Table),
        },
{
    match v {
        toml::Value::Table(t) => Ok(t),
        other => Err(other),
    }
}

/// The string a value holds, or the value itself back when it holds
/// something else.
#[verifier::external_body]
pub(crate) fn into_text(v: toml::Value) -> (r: Result<String, toml::Value>)
    ensures
        match r {
            Ok(s) => toml_item(v) == TomlItem::Text(s@),
            Err(w) => w == v && !(toml_item(v) is Text),
        },
{
    match v {
        toml::Value::String(s) => Ok(s),
        other => Err(other),
    }
}

/// `keys` lists the keys of `m`, each once, in increasing order.
pub open spec fn key_listing(m: Map<Seq<char>, TomlItem>, keys: Seq<Seq<char>>) -> bool {
    &&& forall|i: int| 0 <= i < keys.len() ==> m.dom().contains(#[trigger] keys[i])
    &&& forall|k: Seq<char>| m.dom().contains(k) ==> keys.contains(k)
    &&& forall|i: int, j: int| 0 <= i < j < keys.len() ==> chars_lt(#[trigger] keys[i], #[trigger] keys[j])
}

/// The keys of key-value pairs.
pub open spec fn pair_keys(pairs: Seq<(String, toml::Value)>) -> Seq<Seq<char>> {
    pairs.map_values(|p: (String, toml::Value)| p.0@)
}

/// `pairs` lists the keys of `m` in increasing order, each with its value.
pub open spec fn entry_listing(m: Map<Seq<char>, TomlItem>, pairs: Seq<(String, toml::Value)>) -> bool {
    &&& key_listing(m, pair_keys(pairs))
    &&& forall|i: int| 0 <= i < pairs.len() ==> toml_item(#[trigger] pairs[i].1) == m[pairs[i].0@]
}

/// The keys of a table with their values, in increasing key order
/// (iterating `toml::map::Map`, a `BTreeMap` ordered by `String`'s byte
/// order, which is the order of the characters).
#[verifier::external_body]
pub(crate) fn table_entries(t: toml::Table) -> (r: Vec<(String, toml::Value)>)
    ensures
        entry_listing(table_items(t), r@),
{
    t.into_iter().collect()
}

/// A decimal digit.
pub open spec fn is_digit(c: char) -> bool {
    '0' <= c <= '9'
}

/// `t` is digits, the point at `p`, and digits, with at least one digit
/// on each side.
pub open spec fn is_plain_decimal_at(t: Seq<char>, p: int) -> bool {
    &&& 0 < p < t.len() - 1
    &&& t[p] == '.'
    &&& forall|j: int| 0 <= j < t.len() && j != p ==> #[trigger] is_digit(t[j])
}

/// `t` is a plain decimal such as `0.5`.
pub open spec fn is_plain_decimal(t: Seq<char>) -> bool {
    exists|p: int| is_plain_decimal_at(t, p)
}

/// The TOML float written as the plain decimal `text` (std's `str::parse`,
/// which its documentation shows accepting every plain decimal and
/// returning the nearest `f64`, then `toml::Value::Float`). One half is
/// exact in binary, so `0.5` gives exactly its bit pattern.
#[verifier::external_body]
fn decimal_value(text: &str) -> (v: toml::Value)
    requires
        is_plain_decimal(text@),
    ensures
        toml_item(v) == TomlItem::Float(decimal_float_bits(text@)),
        text@ == seq!['0', '.', '5'] ==> toml_item(v) == TomlItem::Float(HALF_FLOAT_BITS),
{
    toml::Value::Float(text.parse().unwrap_or_default())
}

/// Parses a TOML document (`toml::from_str`).
#[verifier::external_body]
fn parse_toml(text: &str) -> (r: Result<toml::Table, toml::de::Error>)
    ensures
        match r {
            Ok(t) => parsed_toml(text@) == Some(table_items(t)),
            Err(_) => parsed_toml(text@) is None,
        },
{
    toml::from_str(text)
}

/// Writes a table as a TOML document (`toml::to_string_pretty`).
#[verifier::external_body]
fn write_toml(t: &toml::Table) -> (r: Result<String, toml::ser::Error>)
    ensures
        match r {
            Ok(s) => pretty_toml(table_items(*t)) == Some(s@),
            Err(_) => pretty_toml(table_items(*t)) is None,
        },
{
    toml::to_string_pretty(t)
}

/// Why a sounds file could not be written.
#[derive(Clone, Copy, Debug, PartialEq, Eq, Structural)]
pub enum SoundsFileError {
    /// The table holds something that TOML cannot express.
    Unwritable,
}

/// The volume a newly added sound gets, as written in the file.
pub const ADDED_VOLUME_TEXT: &'static str = "0.5";

/// The bit pattern of the `f64` one half.
pub const HALF_FLOAT_BITS: u64 = 0x3FE0_0000_0000_0000;

/// The view of an optional string.
pub open spec fn opt_text(s: Option<&str>) -> Option<Seq<char>> {
    match s {
        Some(t) => Some(t@),
        None => None,
    }
}

/// The table of a newly added sound: its file, its icon, the volume one
/// half, and its url when it has one.
pub open spec fn sound_entry_item(file: Seq<char>, icon: Seq<char>, url: Option<Seq<char>>) -> TomlItem {
    let base = Map::<Seq<char>, TomlItem>::empty()
        .insert("file"@, TomlItem::Text(file))
        .insert("icon"@, TomlItem::Text(icon))
        .insert("volume"@, TomlItem::Float(HALF_FLOAT_BITS));
    TomlItem::Table(
        match url {
            Some(u) => base.insert("url"@, TomlItem::Text(u)),
            None => base,
        },
    )
}

/// `root` with `entry` under `id` in the table of `category`: that table
/// is made when the category is missing, and a category whose value is not
/// a table is left as it is.
pub open spec fn with_sound_entry(
    root: Map<Seq<char>, TomlItem>,
    category: Seq<char>,
    id: Seq<char>,
    entry: TomlItem,
) -> Map<Seq<char>, TomlItem> {
    if !root.dom().contains(category) {
        root.insert(category, TomlItem::Table(Map::empty().insert(id, entry)))
    } else {
        match root[category] {
            TomlItem::Table(cat) => root.insert(category, TomlItem::Table(cat.insert(id, entry))),
            _ => root,
        }
    }
}

/// Adding a sound reads back: when the category is missing or holds a
/// table, it then holds a table mapping the sound's id to exactly the new
/// entry, every other sound of that table is unchanged, and so is every
/// other key of the file.
pub proof fn law_added_sound_read_back(
    root: Map<Seq<char>, TomlItem>,
    category: Seq<char>,
    id: Seq<char>,
    entry: TomlItem,
)
    requires
        !root.dom().contains(category) || root[category] is Table,
    ensures
        ({
            let after = with_sound_entry(root, category, id, entry);
            &&& after.dom() == root.dom().insert(category)
            &&& forall|k: Seq<char>| k != category && root.dom().contains(k) ==> after[k] == root[k]
            &&& after[category] matches TomlItem::Table(cat) && cat.dom().contains(id) && cat[id]
                == entry && (root.dom().contains(category) ==> forall|other: Seq<char>|
                other != id ==> (cat.dom().contains(other) <==> root[category]->Table_0.dom().contains(other))
                    && (cat.dom().contains(other) ==> cat[other] == root[category]->Table_0[other]))
        }),
{
    let after = with_sound_entry(root, category, id, entry);
    if root.dom().contains(category) {
        assert(root.dom().insert(category) =~= root.dom());
    }
    assert(after.dom() =~= root.dom().insert(category));
}

/// What a sounds file's text holds as a table: `None` when it is not TOML.
pub fn parse_sounds_table(content: &str) -> (r: Option<toml::Table>)
    ensures
        match r {
            Some(t) => parsed_toml(content@) == Some(table_items(t)),
            None => parsed_toml(content@) is None,
        },
{
    match parse_toml(content) {
        Ok(t) => Some(t),
        Err(_) => None,
    }
}

/// What a sounds file holds before a sound is added to it: an empty table
/// when there is no file or its text is not TOML.
pub open spec fn starting_items(content: Option<Seq<char>>) -> Map<Seq<char>, TomlItem> {
    match content {
        Some(text) => match parsed_toml(text) {
            Some(items) => items,
            None => Map::empty(),
        },
        None => Map::empty(),
    }
}

/// The table to add a sound to, from the file's text when there is a file.
pub fn sounds_table_or_empty(content: Option<&str>) -> (t: toml::Table)
    ensures
        table_items(t) == starting_items(opt_text(content)),
{
    match content {
        Some(text) => match parse_sounds_table(text) {
            Some(t) => t,
            None => new_table(),
        },
        None => new_table(),
    }
}

/// A copy of `s`.
fn owned(s: &str) -> (r: String)
    ensures
        r@ == s@,
{
    s.to_owned()
}

/// The table of a newly added sound.
fn sound_entry(file_path: &str, icon: &str, url: Option<&str>) -> (v: toml::Value)
    ensures
        toml_item(v) == sound_entry_item(file_path@, icon@, opt_text(url)),
{
    let mut entry = new_table();
    table_insert(&mut entry, owned("file"), text_value(owned(file_path)));
    table_insert(&mut entry, owned("icon"), text_value(owned(icon)));
    proof {
        reveal_strlit("0.5");
        assert(is_plain_decimal_at(ADDED_VOLUME_TEXT@, 1));
        assert(ADDED_VOLUME_TEXT@ =~= seq!['0', '.', '5']);
    }
    table_insert(&mut entry, owned("volume"), decimal_value(ADDED_VOLUME_TEXT));
    if let Some(u) = url {
        table_insert(&mut entry, owned("url"), text_value(owned(u)));
    }
    table_value(entry)
}

/// Adds the sound `name` to the table of `category` in `root`, under the
/// sound's id, replacing any sound with that id there. A missing category
/// table is made; a category whose value is not a table is left alone.
pub fn add_sound_entry(
    root: &mut toml::Table,
    name: &str,
    category: &str,
    file_path: &str,
    icon: &str,
    url: Option<&str>,
)
    ensures
        table_items(*final(root)) == with_sound_entry(
            table_items(*old(root)),
            category@,
            id_for(name@),
            sound_entry_item(file_path@, icon@, opt_text(url)),
        ),
{
    let ghost before = table_items(*root);
    let entry = sound_entry(file_path, icon, url);
    let id = sound_id(name);
    match table_remove(root, category) {
        None => {
            let mut cat = new_table();
            table_insert(&mut cat, id, entry);
            let cat_value = table_value(cat);
            table_insert(root, owned(category), cat_value);
            assert(before.remove(category@).insert(category@, toml_item(cat_value))
                =~= with_sound_entry(before, category@, id_for(name@), toml_item(entry)));
        },
        Some(existing) => match into_table(existing) {
            Ok(mut cat) => {
                table_insert(&mut cat, id, entry);
                table_insert(root, owned(category), table_value(cat));
            },
            Err(other) => {
                table_insert(root, owned(category), other);
                assert(before.remove(category@).insert(category@, before[category@]) =~= before);
            },
        },
    }
}

/// The text of a sounds file holding `root`.
pub fn render_sounds_table(root: &toml::Table) -> (r: Result<String, SoundsFileError>)
    ensures
        match r {
            Ok(s) => pretty_toml(table_items(*root)) == Some(s@),
            Err(_) => pretty_toml(table_items(*root)) is None,
        },
{
    match write_toml(root) {
        Ok(s) => Ok(s),
        Err(_) => Err(SoundsFileError::Unwritable),
    }
}

/// The new text of the user's sounds file after adding a sound to it:
/// `content` is the file's text, `None` when there is no file yet; text
/// that is not TOML counts as an empty file.
pub fn sounds_file_with_sound(
    content: Option<&str>,
    name: &str,
    category: &str,
    file_path: &str,
    icon: &str,
    url: Option<&str>,
) -> (r: Result<String, SoundsFileError>)
    ensures
        ({
            let items = with_sound_entry(
                starting_items(opt_text(content)),
                category@,
                id_for(name@),
                sound_entry_item(file_path@, icon@, opt_text(url)),
            );
            match r {
                Ok(s) => pretty_toml(items) == Some(s@),
                Err(_) => pretty_toml(items) is None,
            }
        }),
{
    let mut root = sounds_table_or_empty(content);
    add_sound_entry(&mut root, name, category, file_path, icon, url);
    render_sounds_table(&root)
}

} // verus!
