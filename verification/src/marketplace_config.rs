//! Registering local plugin marketplaces (and enabling their plugins) in
//! Codex's `config.toml`, and checking that a registration points to a root.
use vstd::prelude::*;

use toml_edit::{DocumentMut, Table, TomlError};

use crate::text::{
    chars_from, chars_of, chars_eq, push_all, seq_starts_with, starts_with, string_from_chars,
    trim_spec, trim_start_char, trim_start_matches_char, trim_str,
};
use crate::toml_model::{
    bool_item, empty_entries, new_document, new_table, parse_document, render_document,
    set_document_entry, set_table_entry, string_item, table_item, toml_document_entries,
    toml_document_text, toml_parse_entries, toml_table_entries, TomlValue,
};

verus! {

/// The `\\?\` prefix of Windows extended-length paths.
pub open spec fn extended_path_prefix() -> Seq<char> {
    seq!['\\', '\\', '?', '\\']
}

/// `path` with the extended-length prefix, added where it is missing.
pub open spec fn windows_extended_path_spec(path: Seq<char>) -> Seq<char> {
    if seq_starts_with(path, extended_path_prefix()) {
        path
    } else {
        extended_path_prefix() + path
    }
}

/// `value` without a leading extended-length prefix.
pub open spec fn normalize_windows_extended_path_spec(value: Seq<char>) -> Seq<char> {
    if seq_starts_with(value, extended_path_prefix()) {
        value.subrange(4, value.len() as int)
    } else {
        value
    }
}

/// `s` ending in a newline: unchanged where it already does, else with one added.
pub open spec fn with_trailing_newline(s: Seq<char>) -> Seq<char> {
    if s.len() > 0 && s.last() == '\n' {
        s
    } else {
        s.push('\n')
    }
}

/// The byte-order mark that a config file may start with.
pub open spec fn byte_order_mark() -> char {
    '\u{feff}'
}

/// The views of a list of strings.
pub open spec fn string_views(v: Seq<String>) -> Seq<Seq<char>> {
    v.map_values(|s: String| s@)
}

/// The entries of the table under `key`, or none where `entries` holds no table there.
pub open spec fn table_or_empty(entries: Map<Seq<char>, TomlValue>, key: Seq<char>) -> Map<
    Seq<char>,
    TomlValue,
> {
    if entries.contains_key(key) {
        match entries[key] {
            TomlValue::Nested(m) => m,
            _ => empty_entries(),
        }
    } else {
        empty_entries()
    }
}

/// The string under `key`, or the empty string where `entries` holds no string there.
pub open spec fn text_or_empty(entries: Map<Seq<char>, TomlValue>, key: Seq<char>) -> Seq<char> {
    if entries.contains_key(key) {
        match entries[key] {
            TomlValue::Text(s) => s,
            _ => Seq::empty(),
        }
    } else {
        Seq::empty()
    }
}

/// A marketplace entry registered as a local source at `source`; its other keys stay.
pub open spec fn registered_marketplace(existing: Map<Seq<char>, TomlValue>, source: Seq<char>) -> Map<
    Seq<char>,
    TomlValue,
> {
    existing.insert("source_type"@, TomlValue::Text("local"@)).insert(
        "source"@,
        TomlValue::Text(source),
    )
}

/// The `[marketplaces]` table after each of `names` is registered, in order, at `source`.
pub open spec fn with_marketplaces(
    table: Map<Seq<char>, TomlValue>,
    names: Seq<Seq<char>>,
    source: Seq<char>,
) -> Map<Seq<char>, TomlValue>
    decreases names.len(),
{
    if names.len() == 0 {
        table
    } else {
        let t = with_marketplaces(table, names.drop_last(), source);
        t.insert(
            names.last(),
            TomlValue::Nested(registered_marketplace(table_or_empty(t, names.last()), source)),
        )
    }
}

/// A plugin entry that is enabled unless it already holds an `enabled` flag.
pub open spec fn enabled_plugin(existing: Map<Seq<char>, TomlValue>) -> Map<Seq<char>, TomlValue> {
    if existing.contains_key("enabled"@) && existing["enabled"@] is Flag {
        existing
    } else {
        existing.insert("enabled"@, TomlValue::Flag(true))
    }
}

/// The `[plugins]` table after each of `ids` is given an entry, in order.
pub open spec fn with_plugins(table: Map<Seq<char>, TomlValue>, ids: Seq<Seq<char>>) -> Map<
    Seq<char>,
    TomlValue,
>
    decreases ids.len(),
{
    if ids.len() == 0 {
        table
    } else {
        let t = with_plugins(table, ids.drop_last());
        t.insert(ids.last(), TomlValue::Nested(enabled_plugin(table_or_empty(t, ids.last()))))
    }
}

/// The root entries of a config after the marketplaces `names` are registered at
/// `source` and, where there are any, the plugins `ids` are given entries.
pub open spec fn merged_config_entries(
    doc: Map<Seq<char>, TomlValue>,
    names: Seq<Seq<char>>,
    source: Seq<char>,
    ids: Seq<Seq<char>>,
) -> Map<Seq<char>, TomlValue> {
    let d = doc.insert(
        "marketplaces"@,
        TomlValue::Nested(with_marketplaces(table_or_empty(doc, "marketplaces"@), names, source)),
    );
    if ids.len() == 0 {
        d
    } else {
        d.insert("plugins"@, TomlValue::Nested(with_plugins(table_or_empty(d, "plugins"@), ids)))
    }
}

/// The root entries that a config text starts from: none for a text that is
/// blank after its byte-order marks, else what `toml_edit` parses (`None` on a
/// syntax error).
pub open spec fn initial_config_entries(text: Seq<char>) -> Option<Map<Seq<char>, TomlValue>> {
    let c = trim_start_char(text, byte_order_mark());
    if trim_spec(c).len() == 0 {
        Some(empty_entries())
    } else {
        toml_parse_entries(c)
    }
}

/// `out` is the text of a document whose entries are those of `text` after the
/// merge (rendered by `toml_edit`, with a trailing newline).
pub open spec fn is_merged_config_text(
    out: Seq<char>,
    text: Seq<char>,
    names: Seq<Seq<char>>,
    root: Seq<char>,
    ids: Seq<Seq<char>>,
) -> bool {
    exists|doc: DocumentMut|
        #![trigger toml_document_text(doc)]
        {
            &&& initial_config_entries(text) is Some
            &&& toml_document_entries(doc) == merged_config_entries(
                initial_config_entries(text)->0,
                names,
                windows_extended_path_spec(root),
                ids,
            )
            &&& out == with_trailing_newline(toml_document_text(doc))
        }
}

/// Whether config entries register marketplace `name` as a local source at `root`.
pub open spec fn config_points_to_root(
    entries: Map<Seq<char>, TomlValue>,
    name: Seq<char>,
    root: Seq<char>,
) -> bool {
    let marketplaces = table_or_empty(entries, "marketplaces"@);
    &&& marketplaces.contains_key(name)
    &&& marketplaces[name] is Nested
    &&& text_or_empty(table_or_empty(marketplaces, name), "source_type"@) == "local"@
    &&& normalize_windows_extended_path_spec(
        text_or_empty(table_or_empty(marketplaces, name), "source"@),
    ) == root
}

/// Whether the config text registers marketplace `name` at `root`: the text is
/// read with its byte-order marks removed; an unreadable or invalid config
/// registers nothing.
pub open spec fn config_text_points_to_root(
    config_text: Option<Seq<char>>,
    name: Seq<char>,
    root: Seq<char>,
) -> bool {
    match config_text {
        None => false,
        Some(t) => match toml_parse_entries(trim_start_char(t, byte_order_mark())) {
            None => false,
            Some(entries) => config_points_to_root(entries, name, root),
        },
    }
}

fn extended_prefix_chars() -> (res: Vec<char>)
    ensures
        res@ == extended_path_prefix(),
{
    let v = vec!['\\', '\\', '?', '\\'];
    assert(v@ =~= extended_path_prefix());
    v
}

/// The extended-length form (`\\?\C:\...`) of a path, as Codex expects marketplace sources.
pub fn windows_extended_path(path: &str) -> (res: String)
    ensures
        res@ == windows_extended_path_spec(path@),
{
    let chars = chars_of(path);
    let prefix = extended_prefix_chars();
    if starts_with(&chars, &prefix) {
        string_from_chars(&chars)
    } else {
        let mut out = prefix;
        push_all(&mut out, &chars);
        string_from_chars(&out)
    }
}

/// A path with a leading extended-length prefix removed.
pub fn normalize_windows_extended_path(value: &str) -> (res: String)
    ensures
        res@ == normalize_windows_extended_path_spec(value@),
{
    let chars = chars_of(value);
    let prefix = extended_prefix_chars();
    if starts_with(&chars, &prefix) {
        string_from_chars(&chars_from(&chars, 4))
    } else {
        string_from_chars(&chars)
    }
}

/// `contents` ending in a newline.
pub fn ensure_trailing_newline(contents: String) -> (res: String)
    ensures
        res@ == with_trailing_newline(contents@),
{
    let mut chars = chars_of(contents.as_str());
    if chars.len() > 0 && chars[chars.len() - 1] == '\n' {
        contents
    } else {
        chars.push('\n');
        string_from_chars(&chars)
    }
}

/// The table under `key` in `t`, or a new empty table where `t` holds no table there.
fn table_at_or_new(t: &Table, key: &str) -> (res: Table)
    ensures
        toml_table_entries(res) == table_or_empty(toml_table_entries(*t), key@),
{
    match t.get(key) {
        Some(item) => match item.as_table() {
            Some(inner) => inner.clone(),
            None => new_table(),
        },
        None => new_table(),
    }
}

/// Registers each of `names` in `doc` as a local marketplace at `source` and,
/// where `plugin_ids` is not empty, gives each plugin an entry that is enabled
/// unless the config already says whether it is.
pub fn merge_marketplace_configs_into_document(
    doc: &mut DocumentMut,
    names: &Vec<String>,
    source: &str,
    plugin_ids: &Vec<String>,
)
    ensures
        toml_document_entries(*final(doc)) == merged_config_entries(
            toml_document_entries(*old(doc)),
            string_views(names@),
            source@,
            string_views(plugin_ids@),
        ),
{
    let ghost d0 = toml_document_entries(*doc);
    let ghost nv = string_views(names@);
    let mut marketplaces = table_at_or_new(doc.as_table(), "marketplaces");
    let ghost m0 = toml_table_entries(marketplaces);
    let mut i: usize = 0;
    while i < names.len()
        invariant
            i <= names.len(),
            nv == string_views(names@),
            toml_table_entries(marketplaces) == with_marketplaces(m0, nv.take(i as int), source@),
        decreases names.len() - i,
    {
        let name: &str = names[i].as_str();
        let mut entry = table_at_or_new(&marketplaces, name);
        set_table_entry(&mut entry, "source_type", string_item("local"));
        set_table_entry(&mut entry, "source", string_item(source));
        set_table_entry(&mut marketplaces, name, table_item(entry));
        assert(nv.take(i + 1).drop_last() =~= nv.take(i as int));
        i = i + 1;
    }
    assert(nv.take(names.len() as int) =~= nv);
    set_document_entry(doc, "marketplaces", table_item(marketplaces));
    if plugin_ids.len() > 0 {
        let ghost iv = string_views(plugin_ids@);
        let mut plugins = table_at_or_new(doc.as_table(), "plugins");
        let ghost p0 = toml_table_entries(plugins);
        let mut k: usize = 0;
        while k < plugin_ids.len()
            invariant
                k <= plugin_ids.len(),
                iv == string_views(plugin_ids@),
                toml_table_entries(plugins) == with_plugins(p0, iv.take(k as int)),
            decreases plugin_ids.len() - k,
        {
            let id: &str = plugin_ids[k].as_str();
            let mut entry = table_at_or_new(&plugins, id);
            let has_flag = match entry.get("enabled") {
                Some(item) => item.as_bool().is_some(),
                None => false,
            };
            if !has_flag {
                set_table_entry(&mut entry, "enabled", bool_item(true));
            }
            set_table_entry(&mut plugins, id, table_item(entry));
            assert(iv.take(k + 1).drop_last() =~= iv.take(k as int));
            k = k + 1;
        }
        assert(iv.take(plugin_ids.len() as int) =~= iv);
        set_document_entry(doc, "plugins", table_item(plugins));
    }
}

/// The document a config text starts from: an empty one where the text is
/// blank after its byte-order marks, else the parsed text.
pub fn parse_toml_document(contents: &str) -> (res: Result<DocumentMut, TomlError>)
    ensures
        res is Ok <==> initial_config_entries(contents@) is Some,
        res matches Ok(doc) ==> initial_config_entries(contents@) == Some(
            toml_document_entries(doc),
        ),
{
    let contents = trim_start_matches_char(contents, '\u{feff}');
    if trim_str(contents.as_str()).as_str().is_empty() {
        Ok(new_document())
    } else {
        parse_document(contents.as_str())
    }
}

/// Merges the marketplace registrations (and plugin entries) into a config text.
/// Fails exactly where the text is not blank and `toml_edit` cannot parse it.
pub fn merge_marketplace_configs_and_plugins_into_text(
    config_text: &str,
    marketplace_names: &Vec<String>,
    marketplace_root: &str,
    plugin_ids: &Vec<String>,
) -> (res: Result<String, TomlError>)
    ensures
        res is Ok <==> initial_config_entries(config_text@) is Some,
        res matches Ok(s) ==> is_merged_config_text(
            s@,
            config_text@,
            string_views(marketplace_names@),
            marketplace_root@,
            string_views(plugin_ids@),
        ),
{
    let mut doc = match parse_toml_document(config_text) {
        Ok(doc) => doc,
        Err(e) => return Err(e),
    };
    let source = windows_extended_path(marketplace_root);
    merge_marketplace_configs_into_document(&mut doc, marketplace_names, source.as_str(), plugin_ids);
    let out = ensure_trailing_newline(render_document(&doc));
    assert(toml_document_text(doc) == toml_document_text(doc));
    Ok(out)
}

/// Merges the marketplace registrations into a config text, without plugin entries.
pub fn merge_marketplace_configs_into_text(
    config_text: &str,
    marketplace_names: &Vec<String>,
    marketplace_root: &str,
) -> (res: Result<String, TomlError>)
    ensures
        res is Ok <==> initial_config_entries(config_text@) is Some,
        res matches Ok(s) ==> is_merged_config_text(
            s@,
            config_text@,
            string_views(marketplace_names@),
            marketplace_root@,
            Seq::empty(),
        ),
{
    let no_plugins: Vec<String> = Vec::new();
    assert(string_views(no_plugins@) =~= Seq::<Seq<char>>::empty());
    merge_marketplace_configs_and_plugins_into_text(
        config_text,
        marketplace_names,
        marketplace_root,
        &no_plugins,
    )
}

/// Whether the config (`None` where it could not be read) registers marketplace
/// `marketplace_name` as a local source at `root`.
pub fn marketplace_config_points_to_root(
    config_text: Option<&str>,
    marketplace_name: &str,
    root: &str,
) -> (res: bool)
    ensures
        res == config_text_points_to_root(
            match config_text {
                Some(t) => Some(t@),
                None => None,
            },
            marketplace_name@,
            root@,
        ),
{
    let text = match config_text {
        Some(t) => t,
        None => return false,
    };
    let doc = match parse_document(trim_start_matches_char(text, '\u{feff}').as_str()) {
        Ok(doc) => doc,
        Err(_) => return false,
    };
    document_points_to_root(&doc, marketplace_name, root)
}

/// Whether a config document registers marketplace `marketplace_name` as a
/// local source at `root`.
pub fn document_points_to_root(doc: &DocumentMut, marketplace_name: &str, root: &str) -> (res: bool)
    ensures
        res == config_points_to_root(toml_document_entries(*doc), marketplace_name@, root@),
{
    let marketplaces = table_at_or_new(doc.as_table(), "marketplaces");
    let is_table = match marketplaces.get(marketplace_name) {
        Some(item) => item.as_table().is_some(),
        None => false,
    };
    if !is_table {
        return false;
    }
    let entry = table_at_or_new(&marketplaces, marketplace_name);
    let source_type = text_at_or_empty(&entry, "source_type");
    let source = text_at_or_empty(&entry, "source");
    let local = chars_of("local");
    proof {
        reveal_strlit("local");
    }
    chars_eq(&chars_of(source_type.as_str()), &local) && chars_eq(
        &chars_of(normalize_windows_extended_path(source.as_str()).as_str()),
        &chars_of(root),
    )
}

/// The string under `key` in `t`, or the empty string where `t` holds no string there.
fn text_at_or_empty(t: &Table, key: &str) -> (res: String)
    ensures
        res@ == text_or_empty(toml_table_entries(*t), key@),
{
    match t.get(key) {
        Some(item) => match item.as_str() {
            Some(s) => s.to_string(),
            None => String::new(),
        },
        None => String::new(),
    }
}

} // verus!
