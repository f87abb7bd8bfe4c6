//! Local plugin marketplaces: where they live, when a snapshot on disk counts
//! as installed, which archive entries may be extracted, and how the Codex
//! config is brought to register them.
use vstd::prelude::*;

use toml_edit::TomlError;

use crate::marketplace_config::{
    byte_order_mark, config_text_points_to_root, initial_config_entries, is_merged_config_text,
    marketplace_config_points_to_root, merge_marketplace_configs_and_plugins_into_text,
    string_views,
};
use crate::json_model::{
    json_array_at, json_array_field, json_parse, json_str_at, json_str_field, json_value,
    json_values, parse_json_text, JsonModel,
};
use crate::paths::{components_of, join_path, path_components, path_join, PathComponent};
use crate::text::{concat_str, str_eq, trim_spec, trim_start_char, trim_start_matches_char, trim_str};

verus! {

pub const OPENAI_CURATED_MARKETPLACE: &'static str = "openai-curated";

pub const OPENAI_API_CURATED_MARKETPLACE: &'static str = "openai-api-curated";

pub const OPENAI_CURATED_REMOTE_MARKETPLACE: &'static str = "openai-curated-remote";

pub const ROLE_SPECIFIC_PLUGINS_MARKETPLACE: &'static str = "role-specific-plugins";

// ---------------------------------------------------------------------------
// Archive entries
// ---------------------------------------------------------------------------

/// The path formed by pushing the normal components of `comps` in order
/// (skipping `.`), or `None` where a component would leave the destination
/// (`..`, a root or a prefix).
pub open spec fn relative_from_components(comps: Seq<PathComponent>) -> Option<Seq<char>>
    decreases comps.len(),
{
    if comps.len() == 0 {
        Some(Seq::empty())
    } else {
        match relative_from_components(comps.drop_last()) {
            None => None,
            Some(acc) => match comps.last() {
                PathComponent::Normal(v) => Some(path_join(acc, v@)),
                PathComponent::CurDir => Some(acc),
                _ => None,
            },
        }
    }
}

/// Where an entry of the downloaded `openai/plugins` archive goes below the
/// destination: its path without the archive's top directory, or `None` for an
/// entry that is the top directory itself or would leave the destination.
pub open spec fn zip_entry_relative_path_spec(name: Seq<char>) -> Option<Seq<char>> {
    entry_relative_path_spec(path_components(name))
}

/// The path below the archive's top directory of an entry with components `comps`.
pub open spec fn entry_relative_path_spec(comps: Seq<PathComponent>) -> Option<Seq<char>> {
    if comps.len() == 0 || !(comps[0] is Normal) {
        None
    } else {
        match relative_from_components(comps.skip(1)) {
            Some(r) => if r.len() > 0 {
                Some(r)
            } else {
                None
            },
            None => None,
        }
    }
}

/// Why an archive entry of the embedded snapshot is refused.
#[derive(Clone, Copy, Debug, PartialEq, Eq)]
pub enum ZipPathError {
    /// The entry would leave the destination (`..`, an absolute path or a prefix).
    EscapesDestination,
    /// The entry names no file or directory.
    EmptyPath,
}

/// Pushes the components `comps[from..]` onto `acc`, as `relative_from_components` says.
fn push_components(comps: &Vec<PathComponent>, from: usize) -> (res: Option<String>)
    requires
        from <= comps.len(),
    ensures
        res matches Some(r) ==> relative_from_components(comps@.skip(from as int)) == Some(r@),
        res is None ==> relative_from_components(comps@.skip(from as int)) is None,
{
    let ghost rest = comps@.skip(from as int);
    let mut acc = String::new();
    let mut i: usize = from;
    while i < comps.len()
        invariant
            from <= i <= comps.len(),
            rest == comps@.skip(from as int),
            relative_from_components(comps@.subrange(from as int, i as int)) == Some(acc@),
        decreases comps.len() - i,
    {
        assert(comps@.subrange(from as int, i + 1).drop_last() =~= comps@.subrange(
            from as int,
            i as int,
        ));
        match &comps[i] {
            PathComponent::Normal(v) => {
                acc = join_path(acc.as_str(), v.as_str());
            },
            PathComponent::CurDir => {},
            _ => {
                proof {
                    assert(relative_from_components(comps@.subrange(from as int, i + 1)) is None);
                    assert(comps@.skip(from as int).take(i - from + 1) =~= comps@.subrange(
                        from as int,
                        i + 1,
                    ));
                    lemma_refused_prefix_stays_refused(comps@.skip(from as int), i - from + 1);
                }
                return None;
            },
        }
        i = i + 1;
    }
    assert(comps@.subrange(from as int, comps.len() as int) =~= comps@.skip(from as int));
    Some(acc)
}

proof fn lemma_refused_prefix_stays_refused(comps: Seq<PathComponent>, n: int)
    requires
        0 <= n <= comps.len(),
        relative_from_components(comps.take(n)) is None,
    ensures
        relative_from_components(comps) is None,
    decreases comps.len() - n,
{
    if n < comps.len() {
        assert(comps.take(n + 1).drop_last() =~= comps.take(n));
        lemma_refused_prefix_stays_refused(comps, n + 1);
    } else {
        assert(comps.take(n) =~= comps);
    }
}

/// Every entry of the downloaded archive whose path is a top directory
/// followed by names (and `.`s) is extracted, at that path without its top
/// directory, whatever its names look like (`.agents/...` too); the only
/// entries skipped are the top directory itself, an entry whose first
/// component is not a name, and one that would leave the destination.
pub proof fn archive_entry_below_its_top_directory_is_extracted(name: Seq<char>)
    ensures
        match relative_from_components(path_components(name).skip(1)) {
            Some(r) => (path_components(name).len() > 0 && path_components(name)[0] is Normal && r.len()
                > 0) ==> zip_entry_relative_path_spec(name) == Some(r),
            None => zip_entry_relative_path_spec(name) is None,
        },
        zip_entry_relative_path_spec(name) matches Some(r) ==> (path_components(name)[0] is Normal
            && relative_from_components(path_components(name).skip(1)) == Some(r) && r.len() > 0),
{
}

/// Where an entry of the downloaded `openai/plugins` archive is extracted:
/// below the archive's top directory, never outside the destination.
pub fn zip_entry_relative_path(name: &str) -> (res: Option<String>)
    ensures
        res matches Some(r) ==> zip_entry_relative_path_spec(name@) == Some(r@),
        res is None ==> zip_entry_relative_path_spec(name@) is None,
        match relative_from_components(path_components(name@).skip(1)) {
            Some(r) => (path_components(name@).len() > 0 && path_components(name@)[0] is Normal
                && r.len() > 0) ==> (res matches Some(x) && x@ == r),
            None => res is None,
        },
{
    proof {
        archive_entry_below_its_top_directory_is_extracted(name@);
    }
    let comps = components_of(name);
    entry_relative_path(&comps)
}

/// The path below the archive's top directory of an entry with components
/// `comps`, or `None` where it has none or would leave the destination.
pub fn entry_relative_path(comps: &Vec<PathComponent>) -> (res: Option<String>)
    ensures
        res matches Some(r) ==> entry_relative_path_spec(comps@) == Some(r@),
        res is None ==> entry_relative_path_spec(comps@) is None,
{
    if comps.len() == 0 {
        return None;
    }
    match &comps[0] {
        PathComponent::Normal(_) => {},
        _ => return None,
    }
    match push_components(comps, 1) {
        Some(r) => {
            if r.as_str().is_empty() {
                None
            } else {
                Some(r)
            }
        },
        None => None,
    }
}

/// Why `safe_zip_path` refuses an entry name, or `None` where it accepts it.
pub open spec fn zip_path_error(name: Seq<char>) -> Option<ZipPathError> {
    match relative_from_components(path_components(name)) {
        None => Some(ZipPathError::EscapesDestination),
        Some(r) => if r.len() == 0 {
            Some(ZipPathError::EmptyPath)
        } else {
            None
        },
    }
}

/// Entry `k` is the first whose name `safe_zip_path` refuses.
pub open spec fn first_refused_entry(entries: Seq<ZipEntryInfo>, k: int) -> bool {
    &&& zip_path_error(entries[k].name@) is Some
    &&& forall|j: int| 0 <= j < k ==> zip_path_error(#[trigger] entries[j].name@) is None
}

/// Where an entry of the embedded snapshot is extracted: its whole path, which
/// must stay inside the destination and name something.
pub fn safe_zip_path(name: &str) -> (res: Result<String, ZipPathError>)
    ensures
        res matches Ok(r) ==> relative_from_components(path_components(name@)) == Some(r@)
            && r@.len() > 0,
        (res is Err && res->Err_0 is EscapesDestination) <==> relative_from_components(
            path_components(name@),
        ) is None,
        (res is Err && res->Err_0 is EmptyPath) <==> relative_from_components(
            path_components(name@),
        ) == Some(Seq::<char>::empty()),
{
    let comps = components_of(name);
    assert(comps@.skip(0) =~= comps@);
    match push_components(&comps, 0) {
        None => Err(ZipPathError::EscapesDestination),
        Some(r) => {
            if r.as_str().is_empty() {
                assert(r@ =~= Seq::<char>::empty());
                Err(ZipPathError::EmptyPath)
            } else {
                Ok(r)
            }
        },
    }
}

proof fn lemma_escaping_component_is_refused(comps: Seq<PathComponent>, k: int)
    requires
        0 <= k < comps.len(),
        !(comps[k] is Normal),
        !(comps[k] is CurDir),
    ensures
        relative_from_components(comps) is None,
{
    let t = comps.take(k + 1);
    assert(t.last() == comps[k]);
    lemma_refused_prefix_stays_refused(comps, k + 1);
}

/// No archive entry is extracted outside the destination: an entry of the
/// downloaded archive whose path, below its top directory, holds a `..`, a root
/// or a prefix is skipped, and so is one whose top component is not a name.
pub proof fn zip_entry_never_escapes(name: Seq<char>, k: int)
    requires
        0 <= k < path_components(name).len(),
        !(path_components(name)[k] is Normal),
        k == 0 || !(path_components(name)[k] is CurDir),
    ensures
        zip_entry_relative_path_spec(name) is None,
{
    let comps = path_components(name);
    if k > 0 {
        assert(comps.skip(1)[k - 1] == comps[k]);
        lemma_escaping_component_is_refused(comps.skip(1), k - 1);
    }
}

/// No entry of the embedded snapshot is extracted outside the destination: one
/// whose path holds a `..`, a root or a prefix is refused.
pub proof fn safe_zip_path_never_escapes(name: Seq<char>, k: int)
    requires
        0 <= k < path_components(name).len(),
        !(path_components(name)[k] is Normal),
        !(path_components(name)[k] is CurDir),
    ensures
        relative_from_components(path_components(name)) is None,
{
    lemma_escaping_component_is_refused(path_components(name), k);
}

// ---------------------------------------------------------------------------
// Marketplace snapshots on disk
// ---------------------------------------------------------------------------

/// A plugin listed in a marketplace's `.agents/plugins/marketplace.json`.
#[derive(Clone, Debug, PartialEq, Eq)]
pub struct MarketplacePluginEntry {
    /// The plugin's `name`, where the entry holds it as a string.
    pub name: Option<String>,
}

/// What this library reads of a marketplace's `marketplace.json`.
#[derive(Clone, Debug, PartialEq, Eq)]
pub struct MarketplaceManifest {
    /// The top-level `name`, where it is a string.
    pub name: Option<String>,
    /// The top-level `plugins`, where it is an array.
    pub plugins: Option<Vec<MarketplacePluginEntry>>,
}

/// A manifest could not be used.
#[derive(Clone, Copy, Debug, PartialEq, Eq)]
pub enum ManifestError {
    /// `marketplace.json` is not valid JSON.
    InvalidJson,
}

pub open spec fn owned_opt_view(o: Option<String>) -> Option<Seq<char>> {
    match o {
        Some(s) => Some(s@),
        None => None,
    }
}

/// The `name` of each plugin entry, where it is a string.
pub open spec fn manifest_entry_names(entries: Seq<MarketplacePluginEntry>) -> Seq<Option<Seq<char>>> {
    entries.map_values(|e: MarketplacePluginEntry| owned_opt_view(e.name))
}

/// The `name` string of each item of a JSON array, where it has one.
pub open spec fn json_entry_names(items: Seq<JsonModel>) -> Seq<Option<Seq<char>>> {
    items.map_values(|x: JsonModel| json_str_field(x, "name"@))
}

/// `m` holds what the JSON document `j` says: its `name` string, and, where
/// `plugins` is an array, the `name` string of each of its items.
pub open spec fn manifest_reads_json(m: MarketplaceManifest, j: JsonModel) -> bool {
    &&& owned_opt_view(m.name) == json_str_field(j, "name"@)
    &&& match m.plugins {
        Some(p) => json_array_field(j, "plugins"@) matches Some(items) && manifest_entry_names(p@)
            == json_entry_names(items),
        None => json_array_field(j, "plugins"@) is None,
    }
}

/// The fields of a parsed `marketplace.json` that this library reads.
pub fn manifest_from_json(v: &serde_json::Value) -> (res: MarketplaceManifest)
    ensures
        manifest_reads_json(res, json_value(*v)),
{
    let name = match json_str_at(v, "name") {
        Some(n) => Some(n.to_string()),
        None => None,
    };
    let plugins = match json_array_at(v, "plugins") {
        None => None,
        Some(items) => {
            let mut entries: Vec<MarketplacePluginEntry> = Vec::new();
            let mut i: usize = 0;
            while i < items.len()
                invariant
                    i <= items.len(),
                    manifest_entry_names(entries@) == json_entry_names(json_values(items@)).take(
                        i as int,
                    ),
                decreases items.len() - i,
            {
                let entry_name = match json_str_at(&items[i], "name") {
                    Some(n) => Some(n.to_string()),
                    None => None,
                };
                assert(json_values(items@)[i as int] == json_value(items@[i as int]));
                assert(owned_opt_view(entry_name) == json_str_field(json_values(items@)[i as int], "name"@));
                let ghost prev = entries@;
                let ghost new_name = owned_opt_view(entry_name);
                entries.push(MarketplacePluginEntry { name: entry_name });
                assert(manifest_entry_names(entries@) =~= manifest_entry_names(prev).push(new_name));
                assert(json_entry_names(json_values(items@)).take(i + 1) =~= json_entry_names(
                    json_values(items@),
                ).take(i as int).push(new_name));
                assert(manifest_entry_names(entries@) =~= json_entry_names(json_values(items@)).take(
                    i + 1,
                ));
                i = i + 1;
            }
            assert(json_entry_names(json_values(items@)).take(items.len() as int)
                =~= json_entry_names(json_values(items@)));
            Some(entries)
        },
    };
    MarketplaceManifest { name, plugins }
}

/// Parses the text of a `marketplace.json`: an error exactly where it is not
/// valid JSON, else the fields this library reads.
pub fn marketplace_manifest_from_text(text: &str) -> (res: Result<MarketplaceManifest, ManifestError>)
    ensures
        res is Ok <==> json_parse(text@) is Some,
        res matches Ok(m) ==> json_parse(text@) matches Some(j) && manifest_reads_json(m, j),
{
    match parse_json_text(text) {
        Ok(v) => Ok(manifest_from_json(&v)),
        Err(_) => Err(ManifestError::InvalidJson),
    }
}

/// A manifest names marketplace `expected` and lists at least one plugin.
pub open spec fn manifest_lists_marketplace(m: MarketplaceManifest, expected: Seq<char>) -> bool {
    &&& m.name matches Some(n) && n@ == expected
    &&& m.plugins matches Some(p) && p@.len() > 0
}

/// A JSON manifest has `name` equal to `expected` and a non-empty `plugins` array.
pub open spec fn json_lists_marketplace(j: JsonModel, expected: Seq<char>) -> bool {
    &&& json_str_field(j, "name"@) == Some(expected)
    &&& json_array_field(j, "plugins"@) matches Some(items) && items.len() > 0
}

proof fn lemma_manifest_lists_iff_json(m: MarketplaceManifest, j: JsonModel, expected: Seq<char>)
    requires
        manifest_reads_json(m, j),
    ensures
        manifest_lists_marketplace(m, expected) <==> json_lists_marketplace(j, expected),
{
    if let Some(p) = m.plugins {
        assert(manifest_entry_names(p@).len() == p@.len());
    }
}

pub open spec fn dot_tmp_dir(home: Seq<char>) -> Seq<char> {
    path_join(home, ".tmp"@)
}

/// Where the `openai-curated` snapshot lives: `<home>/.tmp/plugins`.
pub open spec fn openai_curated_marketplace_dir_spec(home: Seq<char>) -> Seq<char> {
    path_join(dot_tmp_dir(home), "plugins"@)
}

/// Where the `openai-curated-remote` snapshot lives: `<home>/.tmp/plugins-remote`.
pub open spec fn openai_curated_remote_marketplace_dir_spec(home: Seq<char>) -> Seq<char> {
    path_join(dot_tmp_dir(home), "plugins-remote"@)
}

/// Where the role-specific snapshot lives: `<home>/.tmp/marketplaces/role-specific-plugins`.
pub open spec fn role_specific_plugins_marketplace_dir_spec(home: Seq<char>) -> Seq<char> {
    path_join(path_join(dot_tmp_dir(home), "marketplaces"@), "role-specific-plugins"@)
}

/// The manifest of a marketplace root: `<root>/.agents/plugins/marketplace.json`.
pub open spec fn marketplace_manifest_path_spec(root: Seq<char>) -> Seq<char> {
    path_join(path_join(path_join(root, ".agents"@), "plugins"@), "marketplace.json"@)
}

/// The plugin directory of a marketplace root: `<root>/plugins`.
pub open spec fn marketplace_plugins_dir_spec(root: Seq<char>) -> Seq<char> {
    path_join(root, "plugins"@)
}

/// `<home>/.tmp/plugins`.
pub fn openai_curated_marketplace_dir(home: &str) -> (res: String)
    ensures
        res@ == openai_curated_marketplace_dir_spec(home@),
{
    join_path(join_path(home, ".tmp").as_str(), "plugins")
}

/// `<home>/.tmp/plugins-remote`.
pub fn openai_curated_remote_marketplace_dir(home: &str) -> (res: String)
    ensures
        res@ == openai_curated_remote_marketplace_dir_spec(home@),
{
    join_path(join_path(home, ".tmp").as_str(), "plugins-remote")
}

/// `<home>/.tmp/marketplaces/role-specific-plugins`.
pub fn role_specific_plugins_marketplace_dir(home: &str) -> (res: String)
    ensures
        res@ == role_specific_plugins_marketplace_dir_spec(home@),
{
    let marketplaces = join_path(join_path(home, ".tmp").as_str(), "marketplaces");
    join_path(marketplaces.as_str(), ROLE_SPECIFIC_PLUGINS_MARKETPLACE)
}

/// `<root>/.agents/plugins/marketplace.json`.
pub fn marketplace_manifest_path(root: &str) -> (res: String)
    ensures
        res@ == marketplace_manifest_path_spec(root@),
{
    let agents = join_path(root, ".agents");
    let plugins = join_path(agents.as_str(), "plugins");
    join_path(plugins.as_str(), "marketplace.json")
}

/// `<root>/plugins`.
pub fn marketplace_plugins_dir(root: &str) -> (res: String)
    ensures
        res@ == marketplace_plugins_dir_spec(root@),
{
    join_path(root, "plugins")
}

/// Whether `manifest` names marketplace `expected` and lists at least one plugin.
pub fn manifest_names_marketplace_with_plugins(
    manifest: &MarketplaceManifest,
    expected: &str,
) -> (res: bool)
    ensures
        res == manifest_lists_marketplace(*manifest, expected@),
{
    let named = match &manifest.name {
        Some(n) => str_eq(n.as_str(), expected),
        None => false,
    };
    let has_plugins = match &manifest.plugins {
        Some(p) => p.len() > 0,
        None => false,
    };
    named && has_plugins
}

/// The snapshot at `root` counts as installed marketplace `marketplace_name`
/// when its manifest (`None`: there is no manifest file) names that marketplace,
/// lists at least one plugin, and the root holds a `plugins` directory.
pub fn marketplace_root_from_manifest(
    root: &str,
    manifest: Option<&MarketplaceManifest>,
    marketplace_name: &str,
    plugins_dir_exists: bool,
) -> (res: Option<String>)
    ensures
        res is Some <==> (manifest matches Some(m) && manifest_lists_marketplace(
            *m,
            marketplace_name@,
        ) && plugins_dir_exists),
        res matches Some(r) ==> r@ == root@,
{
    match manifest {
        None => None,
        Some(m) => {
            if manifest_names_marketplace_with_plugins(m, marketplace_name) && plugins_dir_exists {
                Some(root.to_string())
            } else {
                None
            }
        },
    }
}

/// Whether the snapshot at a root counts as installed marketplace `expected`,
/// given the text of its manifest (`None`: there is no manifest file) and
/// whether it holds a `plugins` directory.
pub open spec fn snapshot_is_marketplace(
    manifest_text: Option<&str>,
    expected: Seq<char>,
    plugins_dir_exists: bool,
) -> bool {
    &&& manifest_text matches Some(t) && json_parse(t@) matches Some(j) && json_lists_marketplace(
        j,
        expected,
    )
    &&& plugins_dir_exists
}

/// The manifest text is there and is not valid JSON.
pub open spec fn manifest_text_invalid(manifest_text: Option<&str>) -> bool {
    manifest_text matches Some(t) && json_parse(t@) is None
}

/// The snapshot at `root`, where it is installed marketplace `marketplace_name`:
/// its manifest (`None`: there is no manifest file) is a JSON document whose
/// `name` is that marketplace and whose `plugins` is a non-empty array, and
/// the root holds a `plugins` directory. A manifest that is not valid JSON is
/// an error.
pub fn local_marketplace_root_from_root(
    root: &str,
    manifest_text: Option<&str>,
    marketplace_name: &str,
    plugins_dir_exists: bool,
) -> (res: Result<Option<String>, ManifestError>)
    ensures
        res is Err <==> manifest_text_invalid(manifest_text),
        res matches Ok(r) ==> (r is Some <==> snapshot_is_marketplace(
            manifest_text,
            marketplace_name@,
            plugins_dir_exists,
        )),
        res matches Ok(Some(r)) ==> r@ == root@,
{
    match manifest_text {
        None => Ok(None),
        Some(t) => match marketplace_manifest_from_text(t) {
            Err(e) => Err(e),
            Ok(m) => {
                proof {
                    let j = json_parse(t@)->0;
                    lemma_manifest_lists_iff_json(m, j, marketplace_name@);
                }
                Ok(marketplace_root_from_manifest(root, Some(&m), marketplace_name, plugins_dir_exists))
            },
        },
    }
}

/// The `openai-curated` snapshot under `home` (`<home>/.tmp/plugins`), where it is installed.
pub fn local_openai_curated_marketplace_root(
    home: &str,
    manifest_text: Option<&str>,
    plugins_dir_exists: bool,
) -> (res: Result<Option<String>, ManifestError>)
    ensures
        res is Err <==> manifest_text_invalid(manifest_text),
        res matches Ok(r) ==> (r is Some <==> snapshot_is_marketplace(
            manifest_text,
            OPENAI_CURATED_MARKETPLACE@,
            plugins_dir_exists,
        )),
        res matches Ok(Some(r)) ==> r@ == openai_curated_marketplace_dir_spec(home@),
{
    let root = openai_curated_marketplace_dir(home);
    local_marketplace_root_from_root(
        root.as_str(),
        manifest_text,
        OPENAI_CURATED_MARKETPLACE,
        plugins_dir_exists,
    )
}

/// The `openai-curated-remote` snapshot under `home` (`<home>/.tmp/plugins-remote`),
/// where it is installed.
pub fn local_openai_curated_remote_marketplace_root(
    home: &str,
    manifest_text: Option<&str>,
    plugins_dir_exists: bool,
) -> (res: Result<Option<String>, ManifestError>)
    ensures
        res is Err <==> manifest_text_invalid(manifest_text),
        res matches Ok(r) ==> (r is Some <==> snapshot_is_marketplace(
            manifest_text,
            OPENAI_CURATED_REMOTE_MARKETPLACE@,
            plugins_dir_exists,
        )),
        res matches Ok(Some(r)) ==> r@ == openai_curated_remote_marketplace_dir_spec(home@),
{
    let root = openai_curated_remote_marketplace_dir(home);
    local_marketplace_root_from_root(
        root.as_str(),
        manifest_text,
        OPENAI_CURATED_REMOTE_MARKETPLACE,
        plugins_dir_exists,
    )
}

/// The role-specific plugins snapshot under `home`, where it is installed.
pub fn local_role_specific_plugins_marketplace_root(
    home: &str,
    manifest_text: Option<&str>,
    plugins_dir_exists: bool,
) -> (res: Result<Option<String>, ManifestError>)
    ensures
        res is Err <==> manifest_text_invalid(manifest_text),
        res matches Ok(r) ==> (r is Some <==> snapshot_is_marketplace(
            manifest_text,
            ROLE_SPECIFIC_PLUGINS_MARKETPLACE@,
            plugins_dir_exists,
        )),
        res matches Ok(Some(r)) ==> r@ == role_specific_plugins_marketplace_dir_spec(home@),
{
    let root = role_specific_plugins_marketplace_dir(home);
    local_marketplace_root_from_root(
        root.as_str(),
        manifest_text,
        ROLE_SPECIFIC_PLUGINS_MARKETPLACE,
        plugins_dir_exists,
    )
}

/// The trimmed, non-blank names among `names`, in order (an entry without a
/// string name is left out).
pub open spec fn plugin_names_of(names: Seq<Option<Seq<char>>>) -> Seq<Seq<char>>
    decreases names.len(),
{
    if names.len() == 0 {
        Seq::empty()
    } else {
        let rest = plugin_names_of(names.drop_last());
        match names.last() {
            Some(n) => if trim_spec(n).len() > 0 {
                rest.push(trim_spec(n))
            } else {
                rest
            },
            None => rest,
        }
    }
}

/// The plugin names a manifest lists for marketplace `expected`: none where it
/// names another marketplace or has no `plugins` array.
pub open spec fn manifest_plugin_names(m: MarketplaceManifest, expected: Seq<char>) -> Seq<Seq<char>> {
    if m.name matches Some(n) && n@ == expected {
        match m.plugins {
            Some(p) => plugin_names_of(manifest_entry_names(p@)),
            None => Seq::empty(),
        }
    } else {
        Seq::empty()
    }
}

/// The plugin names a JSON manifest lists for marketplace `expected`.
pub open spec fn json_plugin_names(j: JsonModel, expected: Seq<char>) -> Seq<Seq<char>> {
    if json_str_field(j, "name"@) == Some(expected) {
        match json_array_field(j, "plugins"@) {
            Some(items) => plugin_names_of(json_entry_names(items)),
            None => Seq::empty(),
        }
    } else {
        Seq::empty()
    }
}

/// The names of the plugins that the manifest of `marketplace_name` lists,
/// trimmed, blank ones left out.
pub fn plugin_names_in_manifest(manifest: &MarketplaceManifest, marketplace_name: &str) -> (res: Vec<
    String,
>)
    ensures
        string_views(res@) == manifest_plugin_names(*manifest, marketplace_name@),
{
    let mut res: Vec<String> = Vec::new();
    let named = match &manifest.name {
        Some(n) => str_eq(n.as_str(), marketplace_name),
        None => false,
    };
    if !named {
        assert(string_views(res@) =~= Seq::<Seq<char>>::empty());
        return res;
    }
    match &manifest.plugins {
        None => {
            assert(string_views(res@) =~= Seq::<Seq<char>>::empty());
            res
        },
        Some(plugins) => {
            let mut i: usize = 0;
            assert(manifest_entry_names(plugins@).take(0) =~= Seq::<Option<Seq<char>>>::empty());
            assert(string_views(res@) =~= plugin_names_of(manifest_entry_names(plugins@).take(0)));
            while i < plugins.len()
                invariant
                    i <= plugins.len(),
                    string_views(res@) == plugin_names_of(manifest_entry_names(plugins@).take(i as int)),
                decreases plugins.len() - i,
            {
                let ghost names = manifest_entry_names(plugins@);
                assert(names.take(i + 1).drop_last() =~= names.take(i as int));
                assert(names.take(i + 1).last() == owned_opt_view(plugins@[i as int].name));
                if let Some(n) = &plugins[i].name {
                    let trimmed = trim_str(n.as_str());
                    if !trimmed.as_str().is_empty() {
                        res.push(trimmed);
                        assert(string_views(res@) =~= plugin_names_of(names.take(i + 1)));
                    }
                }
                i = i + 1;
            }
            assert(manifest_entry_names(plugins@).take(plugins.len() as int) =~= manifest_entry_names(
                plugins@,
            ));
            res
        },
    }
}

/// The names of the plugins that the manifest text of `marketplace_name` lists,
/// trimmed, with blank and non-string names left out, in order; none where
/// it names another marketplace. A manifest that is not valid JSON is an error.
pub fn local_marketplace_plugin_names(manifest_text: &str, marketplace_name: &str) -> (res: Result<
    Vec<String>,
    ManifestError,
>)
    ensures
        res is Err <==> json_parse(manifest_text@) is None,
        res matches Ok(names) ==> json_parse(manifest_text@) matches Some(j) && string_views(names@)
            == json_plugin_names(j, marketplace_name@),
{
    match marketplace_manifest_from_text(manifest_text) {
        Err(e) => Err(e),
        Ok(m) => Ok(plugin_names_in_manifest(&m, marketplace_name)),
    }
}

/// The config id of a plugin of a marketplace: `<name>@<marketplace>`.
pub open spec fn plugin_id_spec(name: Seq<char>, marketplace: Seq<char>) -> Seq<char> {
    name + "@"@ + marketplace
}

/// The config ids of the plugins of the role-specific marketplace.
pub fn role_specific_plugin_ids(names: &Vec<String>) -> (res: Vec<String>)
    ensures
        res@.len() == names@.len(),
        forall|k: int|
            0 <= k < names@.len() ==> #[trigger] res@[k]@ == plugin_id_spec(
                names@[k]@,
                ROLE_SPECIFIC_PLUGINS_MARKETPLACE@,
            ),
{
    let mut res: Vec<String> = Vec::new();
    let mut i: usize = 0;
    while i < names.len()
        invariant
            i <= names.len(),
            res@.len() == i,
            forall|k: int|
                0 <= k < i ==> #[trigger] res@[k]@ == plugin_id_spec(
                    names@[k]@,
                    ROLE_SPECIFIC_PLUGINS_MARKETPLACE@,
                ),
        decreases names.len() - i,
    {
        let with_at = concat_str(names[i].as_str(), "@");
        res.push(concat_str(with_at.as_str(), ROLE_SPECIFIC_PLUGINS_MARKETPLACE));
        i = i + 1;
    }
    res
}

// ---------------------------------------------------------------------------
// Config registration
// ---------------------------------------------------------------------------

/// Whether a marketplace is installed and registered in the config.
#[derive(Clone, Debug, PartialEq, Eq)]
pub struct MarketplaceStatus {
    pub marketplace_root: Option<String>,
    pub config_registered: bool,
}

impl MarketplaceStatus {
    /// The marketplace must be installed or registered again.
    pub fn needs_repair(&self) -> (res: bool)
        ensures
            res == (self.marketplace_root is None || !self.config_registered),
    {
        self.marketplace_root.is_none() || !self.config_registered
    }
}

/// What ensuring a marketplace did: installed a snapshot, and changed the config.
#[derive(Clone, Copy, Debug, PartialEq, Eq)]
pub struct MarketplaceEnsureResult {
    pub initialized: bool,
    pub configured: bool,
}

/// The config after an edit: its contents, and whether they differ from before
/// (and so must be written back).
#[derive(Clone, Debug)]
pub struct ConfigEdit {
    pub changed: bool,
    pub contents: String,
}

/// An edit that failed part way: what the config holds after the steps that
/// succeeded, and the parse error of the step that failed.
#[derive(Debug)]
pub struct PartialConfigEdit {
    pub saved: ConfigEdit,
    pub error: TomlError,
}

/// One merge step takes the config text `before` to `after`: where the merged text
/// differs from `before` without its byte-order marks it is the new text;
/// otherwise the config stays as it was.
pub open spec fn is_config_step(
    before: Seq<char>,
    after: Seq<char>,
    changed: bool,
    names: Seq<Seq<char>>,
    root: Seq<char>,
    ids: Seq<Seq<char>>,
) -> bool {
    let c = trim_start_char(before, byte_order_mark());
    if changed {
        after != c && is_merged_config_text(after, before, names, root, ids)
    } else {
        after == before && is_merged_config_text(c, before, names, root, ids)
    }
}

/// Two merge steps in a row take `before` to `after`.
pub open spec fn is_two_config_steps(
    before: Seq<char>,
    after: Seq<char>,
    changed: bool,
    names1: Seq<Seq<char>>,
    root1: Seq<char>,
    names2: Seq<Seq<char>>,
    root2: Seq<char>,
) -> bool {
    exists|mid: Seq<char>, c1: bool, c2: bool|
        #![trigger is_config_step(before, mid, c1, names1, root1, Seq::empty()), is_config_step(mid, after, c2, names2, root2, Seq::empty())]
        {
            &&& is_config_step(before, mid, c1, names1, root1, Seq::empty())
            &&& is_config_step(mid, after, c2, names2, root2, Seq::empty())
            &&& changed == (c1 || c2)
        }
}

/// The first of two steps succeeded and took `before` to `saved`; the second
/// step's text could not be parsed.
pub open spec fn is_failed_second_step(
    before: Seq<char>,
    saved: Seq<char>,
    changed: bool,
    names1: Seq<Seq<char>>,
    root1: Seq<char>,
) -> bool {
    &&& is_config_step(before, saved, changed, names1, root1, Seq::empty())
    &&& initial_config_entries(saved) is None
}

proof fn lemma_trim_start_char_idempotent(s: Seq<char>, c: char)
    ensures
        trim_start_char(trim_start_char(s, c), c) == trim_start_char(s, c),
    decreases s.len(),
{
    if s.len() > 0 && s[0] == c {
        lemma_trim_start_char_idempotent(s.drop_first(), c);
    }
}

/// One merge step on the config text `existing`: registers `names` at `root`
/// (and gives the plugins `ids` entries); fails where the config cannot be parsed.
pub fn ensure_marketplace_configs_with_plugins(
    existing: &str,
    marketplace_names: &Vec<String>,
    marketplace_root: &str,
    plugin_ids: &Vec<String>,
) -> (res: Result<ConfigEdit, TomlError>)
    ensures
        res is Ok <==> initial_config_entries(existing@) is Some,
        res matches Ok(e) ==> is_config_step(
            existing@,
            e.contents@,
            e.changed,
            string_views(marketplace_names@),
            marketplace_root@,
            string_views(plugin_ids@),
        ),
{
    let without_bom = trim_start_matches_char(existing, '\u{feff}');
    proof {
        lemma_trim_start_char_idempotent(existing@, byte_order_mark());
    }
    let updated = match merge_marketplace_configs_and_plugins_into_text(
        without_bom.as_str(),
        marketplace_names,
        marketplace_root,
        plugin_ids,
    ) {
        Ok(t) => t,
        Err(e) => return Err(e),
    };
    if str_eq(updated.as_str(), without_bom.as_str()) {
        Ok(ConfigEdit { changed: false, contents: existing.to_string() })
    } else {
        Ok(ConfigEdit { changed: true, contents: updated })
    }
}

/// A merge step without plugin entries.
pub fn ensure_marketplace_configs(
    existing: &str,
    marketplace_names: &Vec<String>,
    marketplace_root: &str,
) -> (res: Result<ConfigEdit, TomlError>)
    ensures
        res is Ok <==> initial_config_entries(existing@) is Some,
        res matches Ok(e) ==> is_config_step(
            existing@,
            e.contents@,
            e.changed,
            string_views(marketplace_names@),
            marketplace_root@,
            Seq::empty(),
        ),
{
    let no_plugins: Vec<String> = Vec::new();
    assert(string_views(no_plugins@) =~= Seq::<Seq<char>>::empty());
    ensure_marketplace_configs_with_plugins(existing, marketplace_names, marketplace_root, &no_plugins)
}

fn one_name(name: &str) -> (res: Vec<String>)
    ensures
        string_views(res@) == seq![name@],
{
    let mut v: Vec<String> = Vec::new();
    v.push(name.to_string());
    assert(string_views(v@) =~= seq![name@]);
    v
}

/// The names registered for the `openai-curated` snapshot.
pub open spec fn curated_marketplace_names() -> Seq<Seq<char>> {
    seq![OPENAI_CURATED_MARKETPLACE@, OPENAI_API_CURATED_MARKETPLACE@]
}

/// The name registered for the `openai-curated-remote` snapshot.
pub open spec fn remote_marketplace_names() -> Seq<Seq<char>> {
    seq![OPENAI_CURATED_REMOTE_MARKETPLACE@]
}

/// Registers the installed `openai-curated` snapshot in the config (under both
/// `openai-curated` and `openai-api-curated`), then the remote snapshot where it
/// is installed. Without an installed snapshot the config is left alone.
pub fn ensure_openai_curated_marketplace_config(
    config_text: &str,
    marketplace_root: Option<&str>,
    remote_marketplace_root: Option<&str>,
) -> (res: Result<ConfigEdit, PartialConfigEdit>)
    ensures
        marketplace_root is None ==> (res matches Ok(e) && !e.changed && e.contents@
            == config_text@),
        marketplace_root matches Some(r) ==> {
            &&& (res is Err && !res->Err_0.saved.changed) <==> initial_config_entries(
                config_text@,
            ) is None
            &&& res matches Ok(e) ==> match remote_marketplace_root {
                None => is_config_step(
                    config_text@,
                    e.contents@,
                    e.changed,
                    curated_marketplace_names(),
                    r@,
                    Seq::empty(),
                ),
                Some(rr) => is_two_config_steps(
                    config_text@,
                    e.contents@,
                    e.changed,
                    curated_marketplace_names(),
                    r@,
                    remote_marketplace_names(),
                    rr@,
                ),
            }
            &&& res matches Err(p) ==> (p.saved.changed ==> remote_marketplace_root is Some
                && is_failed_second_step(
                config_text@,
                p.saved.contents@,
                true,
                curated_marketplace_names(),
                r@,
            ))
        },
{
    let root = match marketplace_root {
        None => return Ok(ConfigEdit { changed: false, contents: config_text.to_string() }),
        Some(r) => r,
    };
    let mut names: Vec<String> = Vec::new();
    names.push(OPENAI_CURATED_MARKETPLACE.to_string());
    names.push(OPENAI_API_CURATED_MARKETPLACE.to_string());
    assert(string_views(names@) =~= curated_marketplace_names());
    let first = match ensure_marketplace_configs(config_text, &names, root) {
        Ok(e) => e,
        Err(error) => {
            return Err(
                PartialConfigEdit {
                    saved: ConfigEdit { changed: false, contents: config_text.to_string() },
                    error,
                },
            )
        },
    };
    let remote_root = match remote_marketplace_root {
        None => return Ok(first),
        Some(rr) => rr,
    };
    let remote_names = one_name(OPENAI_CURATED_REMOTE_MARKETPLACE);
    match ensure_marketplace_configs(first.contents.as_str(), &remote_names, remote_root) {
        Ok(second) => {
            let changed = first.changed || second.changed;
            assert(is_config_step(
                config_text@,
                first.contents@,
                first.changed,
                curated_marketplace_names(),
                root@,
                Seq::empty(),
            ));
            assert(is_config_step(
                first.contents@,
                second.contents@,
                second.changed,
                remote_marketplace_names(),
                remote_root@,
                Seq::empty(),
            ));
            Ok(ConfigEdit { changed, contents: second.contents })
        },
        Err(error) => {
            proof {
                if !first.changed {
                    assert(first.contents@ == config_text@);
                }
            }
            Err(PartialConfigEdit { saved: first, error })
        },
    }
}

/// Registers the installed `openai-curated-remote` snapshot in the config;
/// without one the config is left alone.
pub fn ensure_openai_curated_remote_marketplace_config(
    config_text: &str,
    remote_marketplace_root: Option<&str>,
) -> (res: Result<ConfigEdit, TomlError>)
    ensures
        remote_marketplace_root is None ==> (res matches Ok(e) && !e.changed && e.contents@
            == config_text@),
        remote_marketplace_root matches Some(r) ==> {
            &&& res is Ok <==> initial_config_entries(config_text@) is Some
            &&& res matches Ok(e) ==> is_config_step(
                config_text@,
                e.contents@,
                e.changed,
                remote_marketplace_names(),
                r@,
                Seq::empty(),
            )
        },
{
    match remote_marketplace_root {
        None => Ok(ConfigEdit { changed: false, contents: config_text.to_string() }),
        Some(r) => ensure_marketplace_configs(
            config_text,
            &one_name(OPENAI_CURATED_REMOTE_MARKETPLACE),
            r,
        ),
    }
}

/// Registers the installed role-specific snapshot in the config and gives each
/// of its plugins (`plugin_names`, from its manifest) an entry, enabled unless
/// the config already says whether it is; without a snapshot the config is
/// left alone.
pub fn ensure_role_specific_plugins_marketplace_config(
    config_text: &str,
    marketplace_root: Option<&str>,
    plugin_names: &Vec<String>,
) -> (res: Result<ConfigEdit, TomlError>)
    ensures
        marketplace_root is None ==> (res matches Ok(e) && !e.changed && e.contents@
            == config_text@),
        marketplace_root matches Some(r) ==> {
            &&& res is Ok <==> initial_config_entries(config_text@) is Some
            &&& res matches Ok(e) ==> exists|ids: Seq<Seq<char>>|
                #![trigger is_config_step(config_text@, e.contents@, e.changed, seq![ROLE_SPECIFIC_PLUGINS_MARKETPLACE@], r@, ids)]
                {
                    &&& ids.len() == plugin_names@.len()
                    &&& forall|k: int|
                        0 <= k < ids.len() ==> #[trigger] ids[k] == plugin_id_spec(
                            plugin_names@[k]@,
                            ROLE_SPECIFIC_PLUGINS_MARKETPLACE@,
                        )
                    &&& is_config_step(
                        config_text@,
                        e.contents@,
                        e.changed,
                        seq![ROLE_SPECIFIC_PLUGINS_MARKETPLACE@],
                        r@,
                        ids,
                    )
                }
        },
{
    match marketplace_root {
        None => Ok(ConfigEdit { changed: false, contents: config_text.to_string() }),
        Some(r) => {
            let ids = role_specific_plugin_ids(plugin_names);
            let res = ensure_marketplace_configs_with_plugins(
                config_text,
                &one_name(ROLE_SPECIFIC_PLUGINS_MARKETPLACE),
                r,
                &ids,
            );
            assert(string_views(ids@).len() == plugin_names@.len());
            res
        },
    }
}

/// Makes sure the remote snapshot is installed and registered: `was_installed`
/// says whether a snapshot was already in place (otherwise the embedded one has
/// just been installed); the result says whether one was installed and whether
/// the config changed.
pub fn ensure_openai_curated_remote_marketplace_available(
    was_installed: bool,
    config_text: &str,
    remote_marketplace_root: Option<&str>,
) -> (res: Result<(MarketplaceEnsureResult, ConfigEdit), TomlError>)
    ensures
        res matches Ok((r, e)) ==> r.initialized == !was_installed && r.configured == e.changed,
        remote_marketplace_root is None ==> (res matches Ok((_r, e)) && !e.changed
            && e.contents@ == config_text@),
        remote_marketplace_root matches Some(root) ==> {
            &&& res is Ok <==> initial_config_entries(config_text@) is Some
            &&& res matches Ok((_r, e)) ==> is_config_step(
                config_text@,
                e.contents@,
                e.changed,
                remote_marketplace_names(),
                root@,
                Seq::empty(),
            )
        },
{
    match ensure_openai_curated_remote_marketplace_config(config_text, remote_marketplace_root) {
        Ok(e) => Ok((MarketplaceEnsureResult { initialized: !was_installed, configured: e.changed }, e)),
        Err(error) => Err(error),
    }
}

/// Keeps the remote snapshot registered in a config text about to be written;
/// without an installed remote snapshot the text is returned as it is.
pub fn preserve_openai_curated_remote_marketplace_config(
    config_text: &str,
    remote_marketplace_root: Option<&str>,
) -> (res: Result<String, TomlError>)
    ensures
        remote_marketplace_root is None ==> (res matches Ok(s) && s@ == config_text@),
        remote_marketplace_root matches Some(r) ==> {
            &&& res is Ok <==> initial_config_entries(config_text@) is Some
            &&& res matches Ok(s) ==> is_merged_config_text(
                s@,
                config_text@,
                remote_marketplace_names(),
                r@,
                Seq::empty(),
            )
        },
{
    match remote_marketplace_root {
        None => Ok(config_text.to_string()),
        Some(r) => {
            let no_plugins: Vec<String> = Vec::new();
            assert(string_views(no_plugins@) =~= Seq::<Seq<char>>::empty());
            merge_marketplace_configs_and_plugins_into_text(
                config_text,
                &one_name(OPENAI_CURATED_REMOTE_MARKETPLACE),
                r,
                &no_plugins,
            )
        },
    }
}

/// The text view of an optional config text.
pub open spec fn opt_view(t: Option<&str>) -> Option<Seq<char>> {
    match t {
        Some(s) => Some(s@),
        None => None,
    }
}

/// Whether the `openai-curated` snapshot is installed and registered: registered
/// means both `openai-curated` and `openai-api-curated` point to it and, where
/// the remote snapshot is installed, `openai-curated-remote` points to that.
pub fn openai_curated_marketplace_status(
    config_text: Option<&str>,
    marketplace_root: Option<String>,
    remote_marketplace_root: Option<String>,
) -> (res: MarketplaceStatus)
    ensures
        res.marketplace_root == marketplace_root,
        res.config_registered == match marketplace_root {
            None => false,
            Some(r) => {
                &&& config_text_points_to_root(
                    opt_view(config_text),
                    OPENAI_CURATED_MARKETPLACE@,
                    r@,
                )
                &&& config_text_points_to_root(
                    opt_view(config_text),
                    OPENAI_API_CURATED_MARKETPLACE@,
                    r@,
                )
                &&& match remote_marketplace_root {
                    None => true,
                    Some(rr) => config_text_points_to_root(
                        opt_view(config_text),
                        OPENAI_CURATED_REMOTE_MARKETPLACE@,
                        rr@,
                    ),
                }
            },
        },
{
    let config_registered = match &marketplace_root {
        None => false,
        Some(root) => {
            marketplace_config_points_to_root(config_text, OPENAI_CURATED_MARKETPLACE, root.as_str())
                && marketplace_config_points_to_root(
                config_text,
                OPENAI_API_CURATED_MARKETPLACE,
                root.as_str(),
            ) && match &remote_marketplace_root {
                None => true,
                Some(remote) => marketplace_config_points_to_root(
                    config_text,
                    OPENAI_CURATED_REMOTE_MARKETPLACE,
                    remote.as_str(),
                ),
            }
        },
    };
    MarketplaceStatus { marketplace_root, config_registered }
}

/// Whether the `openai-curated-remote` snapshot is installed and registered.
pub fn openai_curated_remote_marketplace_status(
    config_text: Option<&str>,
    marketplace_root: Option<String>,
) -> (res: MarketplaceStatus)
    ensures
        res.marketplace_root == marketplace_root,
        res.config_registered == match marketplace_root {
            None => false,
            Some(r) => config_text_points_to_root(
                opt_view(config_text),
                OPENAI_CURATED_REMOTE_MARKETPLACE@,
                r@,
            ),
        },
{
    let config_registered = match &marketplace_root {
        None => false,
        Some(root) => marketplace_config_points_to_root(
            config_text,
            OPENAI_CURATED_REMOTE_MARKETPLACE,
            root.as_str(),
        ),
    };
    MarketplaceStatus { marketplace_root, config_registered }
}

// ---------------------------------------------------------------------------
// Installing snapshots
// ---------------------------------------------------------------------------

/// The largest `openai/plugins` download accepted, in bytes.
pub const OPENAI_PLUGINS_DOWNLOAD_LIMIT_BYTES: usize = 128 * 1024 * 1024;

/// A download is accepted up to the limit; a larger one is refused with its size.
pub fn check_download_size(len: usize) -> (res: Result<(), usize>)
    ensures
        res is Ok <==> len <= OPENAI_PLUGINS_DOWNLOAD_LIMIT_BYTES,
        res matches Err(n) ==> n == len,
{
    if len > OPENAI_PLUGINS_DOWNLOAD_LIMIT_BYTES {
        Err(len)
    } else {
        Ok(())
    }
}

/// An entry of a plugin archive: its name and whether it is a directory.
#[derive(Clone, Debug, PartialEq, Eq)]
pub struct ZipEntryInfo {
    pub name: String,
    pub is_dir: bool,
}

/// What to do with one archive entry: create the directory at `output_path`,
/// or write the entry's contents (entry `index`) there.
#[derive(Clone, Debug, PartialEq, Eq)]
pub struct ExtractionStep {
    pub index: usize,
    pub output_path: String,
    pub is_dir: bool,
}

/// `step` extracts entry `index` (`entry`) to `relative` below `destination`.
pub open spec fn is_step_for(
    step: ExtractionStep,
    index: int,
    entry: ZipEntryInfo,
    destination: Seq<char>,
    relative: Seq<char>,
) -> bool {
    &&& step.index == index
    &&& step.output_path@ == path_join(destination, relative)
    &&& step.is_dir == entry.is_dir
}

/// The steps that extract the downloaded `openai/plugins` archive below
/// `destination`: every entry that has a place below the archive's top
/// directory, in archive order; the others are skipped.
pub fn openai_plugins_extraction_plan(destination: &str, entries: &Vec<ZipEntryInfo>) -> (res: Vec<
    ExtractionStep,
>)
    ensures
        forall|k: int|
            0 <= k < res@.len() ==> ({
                let i = #[trigger] res@[k].index as int;
                &&& 0 <= i < entries@.len()
                &&& zip_entry_relative_path_spec(entries@[i].name@) matches Some(r)
                    && is_step_for(res@[k], i, entries@[i], destination@, r)
            }),
        forall|k: int, l: int| 0 <= k < l < res@.len() ==> res@[k].index < res@[l].index,
        forall|i: int|
            0 <= i < entries@.len() && zip_entry_relative_path_spec(#[trigger] entries@[i].name@)
                is Some ==> exists|k: int| 0 <= k < res@.len() && res@[k].index == i,
{
    let mut res: Vec<ExtractionStep> = Vec::new();
    let mut i: usize = 0;
    while i < entries.len()
        invariant
            i <= entries.len(),
            forall|k: int|
                0 <= k < res@.len() ==> ({
                    let j = #[trigger] res@[k].index as int;
                    &&& 0 <= j < i
                    &&& zip_entry_relative_path_spec(entries@[j].name@) matches Some(r)
                        && is_step_for(res@[k], j, entries@[j], destination@, r)
                }),
            forall|k: int, l: int| 0 <= k < l < res@.len() ==> res@[k].index < res@[l].index,
            forall|j: int|
                0 <= j < i && zip_entry_relative_path_spec(#[trigger] entries@[j].name@) is Some
                    ==> exists|k: int| 0 <= k < res@.len() && res@[k].index == j,
        decreases entries.len() - i,
    {
        let entry = &entries[i];
        match zip_entry_relative_path(entry.name.as_str()) {
            Some(relative) => {
                let output_path = join_path(destination, relative.as_str());
                let ghost before = res@;
                res.push(ExtractionStep { index: i, output_path, is_dir: entry.is_dir });
                assert forall|j: int|
                    0 <= j < i + 1 && zip_entry_relative_path_spec(
                        #[trigger] entries@[j].name@,
                    ) is Some implies exists|k: int| 0 <= k < res@.len() && res@[k].index == j by {
                    if j < i {
                        let k = choose|k: int| 0 <= k < before.len() && before[k].index == j;
                        assert(res@[k] == before[k]);
                    } else {
                        assert(res@[res@.len() - 1].index == i);
                    }
                }
            },
            None => {},
        }
        i = i + 1;
    }
    res
}

/// The steps that extract the embedded snapshot below `destination`: every
/// entry at its whole path, in archive order; fails at the first entry that
/// would leave the destination or names nothing.
pub fn exact_extraction_plan(destination: &str, entries: &Vec<ZipEntryInfo>) -> (res: Result<
    Vec<ExtractionStep>,
    ZipPathError,
>)
    ensures
        res is Ok <==> forall|i: int|
            0 <= i < entries@.len() ==> (relative_from_components(
                path_components(#[trigger] entries@[i].name@),
            ) matches Some(r) && r.len() > 0),
        res matches Ok(steps) ==> steps@.len() == entries@.len() && forall|k: int|
            0 <= k < steps@.len() ==> (relative_from_components(
                path_components(entries@[k].name@),
            ) matches Some(r) && is_step_for(#[trigger] steps@[k], k, entries@[k], destination@, r)),
        res matches Err(e) ==> exists|k: int|
            0 <= k < entries@.len() && first_refused_entry(entries@, k) && zip_path_error(
                entries@[k].name@,
            ) == Some(e),
{
    let mut res: Vec<ExtractionStep> = Vec::new();
    let mut i: usize = 0;
    while i < entries.len()
        invariant
            i <= entries.len(),
            res@.len() == i,
            forall|j: int|
                0 <= j < i ==> (relative_from_components(
                    path_components(#[trigger] entries@[j].name@),
                ) matches Some(r) && r.len() > 0),
            forall|k: int|
                0 <= k < i ==> (relative_from_components(path_components(entries@[k].name@)) matches Some(
                    r,
                ) && is_step_for(#[trigger] res@[k], k, entries@[k], destination@, r)),
        decreases entries.len() - i,
    {
        let entry = &entries[i];
        match safe_zip_path(entry.name.as_str()) {
            Ok(relative) => {
                let output_path = join_path(destination, relative.as_str());
                res.push(ExtractionStep { index: i, output_path, is_dir: entry.is_dir });
            },
            Err(e) => {
                assert(first_refused_entry(entries@, i as int));
                return Err(e);
            },
        }
        i = i + 1;
    }
    Ok(res)
}

/// Why a freshly extracted snapshot is refused.
#[derive(Clone, Copy, Debug, PartialEq, Eq)]
pub enum SnapshotError {
    /// Its manifest is not valid JSON.
    InvalidManifest,
    /// It has no manifest, its manifest does not name the marketplace or lists
    /// no plugin, or the snapshot has no `plugins` directory.
    Invalid,
}

/// A freshly extracted snapshot at `root` must be a complete marketplace
/// `marketplace_name` before it replaces the installed one.
pub fn validate_marketplace_snapshot(
    root: &str,
    manifest_text: Option<&str>,
    marketplace_name: &str,
    plugins_dir_exists: bool,
) -> (res: Result<(), SnapshotError>)
    ensures
        res is Ok <==> snapshot_is_marketplace(manifest_text, marketplace_name@, plugins_dir_exists),
        res == Err::<(), SnapshotError>(SnapshotError::InvalidManifest) <==> manifest_text_invalid(
            manifest_text,
        ),
{
    match local_marketplace_root_from_root(root, manifest_text, marketplace_name, plugins_dir_exists) {
        Ok(Some(_)) => Ok(()),
        Ok(None) => Err(SnapshotError::Invalid),
        Err(_) => Err(SnapshotError::InvalidManifest),
    }
}

} // verus!
