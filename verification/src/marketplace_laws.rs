//! What the marketplace merge guarantees of a config, for every config.
use vstd::prelude::*;

use crate::marketplace_config::{
    config_points_to_root, enabled_plugin, extended_path_prefix, merged_config_entries,
    normalize_windows_extended_path_spec, registered_marketplace, table_or_empty, text_or_empty,
    windows_extended_path_spec, with_marketplaces, with_plugins,
};
use crate::text::seq_starts_with;
use crate::toml_model::TomlValue;

verus! {

/// A marketplace entry that is a table registering a local source at `source`.
pub open spec fn is_registered_entry(v: TomlValue, source: Seq<char>) -> bool {
    &&& v is Nested
    &&& v->Nested_0.contains_key("source_type"@)
    &&& v->Nested_0["source_type"@] == TomlValue::Text("local"@)
    &&& v->Nested_0.contains_key("source"@)
    &&& v->Nested_0["source"@] == TomlValue::Text(source)
}

/// Every entry of `t` named in `names` is a table registering a local source at `source`.
pub open spec fn all_registered(
    t: Map<Seq<char>, TomlValue>,
    names: Seq<Seq<char>>,
    source: Seq<char>,
) -> bool {
    forall|k: int|
        0 <= k < names.len() ==> #[trigger] t.contains_key(names[k]) && is_registered_entry(
            t[names[k]],
            source,
        )
}

/// Every entry of `t` named in `ids` is a table holding an `enabled` flag.
pub open spec fn all_flagged(t: Map<Seq<char>, TomlValue>, ids: Seq<Seq<char>>) -> bool {
    forall|k: int|
        0 <= k < ids.len() ==> {
            &&& #[trigger] t.contains_key(ids[k])
            &&& t[ids[k]] is Nested
            &&& table_or_empty(t, ids[k]).contains_key("enabled"@)
            &&& table_or_empty(t, ids[k])["enabled"@] is Flag
        }
}

proof fn lemma_registered_has_source(m: Map<Seq<char>, TomlValue>, source: Seq<char>)
    ensures
        is_registered_entry(TomlValue::Nested(registered_marketplace(m, source)), source),
        text_or_empty(registered_marketplace(m, source), "source_type"@) == "local"@,
        text_or_empty(registered_marketplace(m, source), "source"@) == source,
{
    reveal_strlit("source_type");
    reveal_strlit("source");
    assert("source_type"@.len() != "source"@.len());
}

proof fn lemma_with_marketplaces_registers(
    t: Map<Seq<char>, TomlValue>,
    names: Seq<Seq<char>>,
    source: Seq<char>,
)
    ensures
        all_registered(with_marketplaces(t, names, source), names, source),
        forall|key: Seq<char>|
            !names.contains(key) ==> (#[trigger] with_marketplaces(t, names, source).contains_key(
                key,
            ) == t.contains_key(key)) && (t.contains_key(key) ==> with_marketplaces(
                t,
                names,
                source,
            )[key] == t[key]),
    decreases names.len(),
{
    if names.len() > 0 {
        let prev = names.drop_last();
        lemma_with_marketplaces_registers(t, prev, source);
        let w = with_marketplaces(t, prev, source);
        lemma_registered_has_source(table_or_empty(w, names.last()), source);
        let r = with_marketplaces(t, names, source);
        assert forall|k: int| 0 <= k < names.len() implies #[trigger] r.contains_key(names[k])
            && is_registered_entry(r[names[k]], source) by {
            if names[k] != names.last() {
                assert(prev[k] == names[k]);
            }
        }
        assert forall|key: Seq<char>| !names.contains(key) implies (#[trigger] r.contains_key(key)
            == t.contains_key(key)) && (t.contains_key(key) ==> r[key] == t[key]) by {
            if prev.contains(key) {
                let j = choose|j: int| 0 <= j < prev.len() && prev[j] == key;
                assert(names[j] == key);
            }
            assert(key != names.last()) by {
                assert(names[names.len() - 1] == names.last());
            }
        }
    }
}

proof fn lemma_enabled_plugin_flagged(m: Map<Seq<char>, TomlValue>)
    ensures
        enabled_plugin(m).contains_key("enabled"@),
        enabled_plugin(m)["enabled"@] is Flag,
        m.contains_key("enabled"@) && m["enabled"@] is Flag ==> enabled_plugin(m) == m,
        !(m.contains_key("enabled"@) && m["enabled"@] is Flag) ==> enabled_plugin(m)["enabled"@]
            == TomlValue::Flag(true),
        forall|key: Seq<char>|
            key != "enabled"@ ==> (#[trigger] enabled_plugin(m).contains_key(key) == m.contains_key(
                key,
            )) && (m.contains_key(key) ==> enabled_plugin(m)[key] == m[key]),
{
}

proof fn lemma_with_plugins_flags(t: Map<Seq<char>, TomlValue>, ids: Seq<Seq<char>>)
    ensures
        all_flagged(with_plugins(t, ids), ids),
        forall|k: int|
            0 <= k < ids.len() ==> #[trigger] with_plugins(t, ids)[ids[k]] == TomlValue::Nested(
                enabled_plugin(table_or_empty(t, ids[k])),
            ),
        forall|key: Seq<char>|
            !ids.contains(key) ==> (#[trigger] with_plugins(t, ids).contains_key(key)
                == t.contains_key(key)) && (t.contains_key(key) ==> with_plugins(t, ids)[key]
                == t[key]),
    decreases ids.len(),
{
    if ids.len() > 0 {
        let prev = ids.drop_last();
        lemma_with_plugins_flags(t, prev);
        let w = with_plugins(t, prev);
        let last = ids.last();
        let r = with_plugins(t, ids);
        // The entry of `last` before this step: either untouched or already enabled.
        if prev.contains(last) {
            let j = choose|j: int| 0 <= j < prev.len() && prev[j] == last;
            assert(w[prev[j]] == TomlValue::Nested(enabled_plugin(table_or_empty(t, prev[j]))));
            lemma_enabled_plugin_flagged(table_or_empty(t, last));
            assert(table_or_empty(w, last) == enabled_plugin(table_or_empty(t, last)));
            lemma_enabled_plugin_flagged(enabled_plugin(table_or_empty(t, last)));
        } else {
            assert(w.contains_key(last) == t.contains_key(last));
            assert(table_or_empty(w, last) == table_or_empty(t, last));
        }
        lemma_enabled_plugin_flagged(table_or_empty(w, last));
        assert(r[last] == TomlValue::Nested(enabled_plugin(table_or_empty(t, last))));
        assert forall|k: int| 0 <= k < ids.len() implies #[trigger] r[ids[k]]
            == TomlValue::Nested(enabled_plugin(table_or_empty(t, ids[k]))) by {
            if ids[k] != last {
                assert(prev[k] == ids[k]);
            }
        }
        assert forall|k: int| 0 <= k < ids.len() implies {
            &&& #[trigger] r.contains_key(ids[k])
            &&& r[ids[k]] is Nested
            &&& table_or_empty(r, ids[k]).contains_key("enabled"@)
            &&& table_or_empty(r, ids[k])["enabled"@] is Flag
        } by {
            lemma_enabled_plugin_flagged(table_or_empty(t, ids[k]));
            if ids[k] != last {
                assert(prev[k] == ids[k]);
            }
        }
        assert forall|key: Seq<char>| !ids.contains(key) implies (#[trigger] r.contains_key(key)
            == t.contains_key(key)) && (t.contains_key(key) ==> r[key] == t[key]) by {
            if prev.contains(key) {
                let j = choose|j: int| 0 <= j < prev.len() && prev[j] == key;
                assert(ids[j] == key);
            }
            assert(key != last) by {
                assert(ids[ids.len() - 1] == last);
            }
        }
    }
}

/// After the merge, each marketplace in `names` is registered at `root`: the
/// config points every one of them to `root` (for a root that is not itself
/// written in extended-length form).
pub proof fn merge_registers_every_marketplace(
    doc: Map<Seq<char>, TomlValue>,
    names: Seq<Seq<char>>,
    root: Seq<char>,
    ids: Seq<Seq<char>>,
)
    requires
        !seq_starts_with(root, extended_path_prefix()),
    ensures
        forall|k: int|
            0 <= k < names.len() ==> config_points_to_root(
                merged_config_entries(doc, names, windows_extended_path_spec(root), ids),
                #[trigger] names[k],
                root,
            ),
{
    let source = windows_extended_path_spec(root);
    let merged = merged_config_entries(doc, names, source, ids);
    let w = with_marketplaces(table_or_empty(doc, "marketplaces"@), names, source);
    lemma_with_marketplaces_registers(table_or_empty(doc, "marketplaces"@), names, source);
    reveal_strlit("marketplaces");
    reveal_strlit("plugins");
    assert("marketplaces"@.len() != "plugins"@.len());
    assert(table_or_empty(merged, "marketplaces"@) == w);
    assert(seq_starts_with(source, extended_path_prefix())) by {
        assert(source.subrange(0, 4) =~= extended_path_prefix());
    }
    assert(normalize_windows_extended_path_spec(source) == root) by {
        assert(source.subrange(4, source.len() as int) =~= root);
    }
    assert forall|k: int| 0 <= k < names.len() implies config_points_to_root(
        merged,
        #[trigger] names[k],
        root,
    ) by {
        assert(w.contains_key(names[k]));
        reveal_strlit("source_type");
        reveal_strlit("source");
    }
}

/// The merge leaves every top-level key other than `marketplaces` (and, where
/// plugins are given, `plugins`) exactly as it was; so a provider's key or token
/// in the config survives it.
pub proof fn merge_keeps_other_settings(
    doc: Map<Seq<char>, TomlValue>,
    names: Seq<Seq<char>>,
    source: Seq<char>,
    ids: Seq<Seq<char>>,
    key: Seq<char>,
)
    requires
        key != "marketplaces"@,
        ids.len() == 0 || key != "plugins"@,
    ensures
        merged_config_entries(doc, names, source, ids).contains_key(key) == doc.contains_key(key),
        doc.contains_key(key) ==> merged_config_entries(doc, names, source, ids)[key] == doc[key],
{
}

/// The merge gives each plugin in `ids` an `enabled` flag: the one the config
/// already held for it, or `true` where it held none; other marketplaces and
/// other plugins are left as they were.
pub proof fn merge_enables_plugins_keeping_choices(
    doc: Map<Seq<char>, TomlValue>,
    names: Seq<Seq<char>>,
    source: Seq<char>,
    ids: Seq<Seq<char>>,
    id: Seq<char>,
)
    requires
        ids.contains(id),
    ensures
        ({
            let before = table_or_empty(table_or_empty(doc, "plugins"@), id);
            let after = table_or_empty(
                table_or_empty(merged_config_entries(doc, names, source, ids), "plugins"@),
                id,
            );
            &&& after.contains_key("enabled"@)
            &&& (before.contains_key("enabled"@) && before["enabled"@] is Flag) ==> after["enabled"@]
                == before["enabled"@]
            &&& !(before.contains_key("enabled"@) && before["enabled"@] is Flag) ==> after["enabled"@]
                == TomlValue::Flag(true)
        }),
{
    reveal_strlit("marketplaces");
    reveal_strlit("plugins");
    let d = doc.insert(
        "marketplaces"@,
        TomlValue::Nested(
            with_marketplaces(table_or_empty(doc, "marketplaces"@), names, source),
        ),
    );
    assert("marketplaces"@.len() != "plugins"@.len());
    assert(table_or_empty(d, "plugins"@) == table_or_empty(doc, "plugins"@));
    let p0 = table_or_empty(doc, "plugins"@);
    lemma_with_plugins_flags(p0, ids);
    let j = choose|j: int| 0 <= j < ids.len() && ids[j] == id;
    assert(with_plugins(p0, ids)[ids[j]] == TomlValue::Nested(enabled_plugin(table_or_empty(p0, ids[j]))));
    lemma_enabled_plugin_flagged(table_or_empty(p0, id));
}

proof fn lemma_registering_again_changes_nothing(
    t: Map<Seq<char>, TomlValue>,
    names: Seq<Seq<char>>,
    source: Seq<char>,
)
    requires
        all_registered(t, names, source),
    ensures
        with_marketplaces(t, names, source) == t,
    decreases names.len(),
{
    if names.len() > 0 {
        let prev = names.drop_last();
        assert(all_registered(t, prev, source)) by {
            assert forall|k: int| 0 <= k < prev.len() implies #[trigger] t.contains_key(prev[k])
                && is_registered_entry(t[prev[k]], source) by {
                assert(names[k] == prev[k]);
            }
        }
        lemma_registering_again_changes_nothing(t, prev, source);
        let last = names.last();
        assert(t.contains_key(names[names.len() - 1]));
        let m = t[last]->Nested_0;
        assert(registered_marketplace(m, source) =~= m);
        assert(t.insert(last, TomlValue::Nested(m)) =~= t);
    }
}

proof fn lemma_enabling_again_changes_nothing(t: Map<Seq<char>, TomlValue>, ids: Seq<Seq<char>>)
    requires
        all_flagged(t, ids),
    ensures
        with_plugins(t, ids) == t,
    decreases ids.len(),
{
    if ids.len() > 0 {
        let prev = ids.drop_last();
        assert(all_flagged(t, prev)) by {
            assert forall|k: int| 0 <= k < prev.len() implies {
                &&& #[trigger] t.contains_key(prev[k])
                &&& t[prev[k]] is Nested
                &&& table_or_empty(t, prev[k]).contains_key("enabled"@)
                &&& table_or_empty(t, prev[k])["enabled"@] is Flag
            } by {
                assert(ids[k] == prev[k]);
            }
        }
        lemma_enabling_again_changes_nothing(t, prev);
        let last = ids.last();
        assert(t.contains_key(ids[ids.len() - 1]));
        assert(t.insert(last, TomlValue::Nested(enabled_plugin(table_or_empty(t, last)))) =~= t);
    }
}

/// Merging a second time changes nothing: once the marketplaces are registered
/// and the plugins have entries, the same merge leaves the config as it is.
pub proof fn merge_twice_is_merge_once(
    doc: Map<Seq<char>, TomlValue>,
    names: Seq<Seq<char>>,
    source: Seq<char>,
    ids: Seq<Seq<char>>,
)
    ensures
        merged_config_entries(merged_config_entries(doc, names, source, ids), names, source, ids)
            == merged_config_entries(doc, names, source, ids),
{
    reveal_strlit("marketplaces");
    reveal_strlit("plugins");
    assert("marketplaces"@.len() != "plugins"@.len());
    let once = merged_config_entries(doc, names, source, ids);
    let w = with_marketplaces(table_or_empty(doc, "marketplaces"@), names, source);
    lemma_with_marketplaces_registers(table_or_empty(doc, "marketplaces"@), names, source);
    assert(table_or_empty(once, "marketplaces"@) == w);
    lemma_registering_again_changes_nothing(w, names, source);
    let d1 = once.insert("marketplaces"@, TomlValue::Nested(w));
    assert(d1 =~= once);
    if ids.len() > 0 {
        let d = doc.insert("marketplaces"@, TomlValue::Nested(w));
        let p = with_plugins(table_or_empty(d, "plugins"@), ids);
        lemma_with_plugins_flags(table_or_empty(d, "plugins"@), ids);
        assert(table_or_empty(once, "plugins"@) == p);
        lemma_enabling_again_changes_nothing(p, ids);
        assert(d1.insert("plugins"@, TomlValue::Nested(p)) =~= once);
    }
}

/// Normalizing undoes the extended-length form: a path that is not itself in
/// that form comes back unchanged.
pub proof fn normalize_undoes_extended_path(path: Seq<char>)
    requires
        !seq_starts_with(path, extended_path_prefix()),
    ensures
        normalize_windows_extended_path_spec(windows_extended_path_spec(path)) == path,
{
    let e = windows_extended_path_spec(path);
    assert(e.subrange(0, 4) =~= extended_path_prefix());
    assert(e.subrange(4, e.len() as int) =~= path);
}

} // verus!
