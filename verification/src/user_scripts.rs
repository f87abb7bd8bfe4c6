//! User scripts: which are switched on, in what order they are found, and the
//! bundle that is injected into Codex.
use vstd::prelude::*;

use crate::paths::{extension_of, file_name_of, path_extension, path_file_name};
use crate::sort_order::{
    chars_less, chars_lt, lemma_chars_less_irreflexive, lemma_chars_less_total,
    lemma_chars_less_transitive,
};
use crate::text::{
    chars_of, concat_str, str_eq, string_from_chars, to_lowercase, unicode_lowercase,
};

verus! {

/// The per-script switches: script key and whether it is enabled, keys in
/// increasing order, each key once.
pub open spec fn keys_increasing(s: Seq<(String, bool)>) -> bool {
    forall|i: int, j: int| 0 <= i < j < s.len() ==> chars_less(#[trigger] s[i].0@, #[trigger] s[j].0@)
}

/// The switch recorded for `key`, if any (the last entry for it wins).
pub open spec fn switch_of(s: Seq<(String, bool)>, key: Seq<char>) -> Option<bool>
    decreases s.len(),
{
    if s.len() == 0 {
        None
    } else if s.last().0@ == key {
        Some(s.last().1)
    } else {
        switch_of(s.drop_last(), key)
    }
}

/// The user script configuration: the global switch and the per-script ones.
#[derive(Clone, Debug, PartialEq, Eq)]
pub struct UserScriptConfig {
    pub enabled: bool,
    /// Script key (`<source>:<file name>`) and whether it is enabled, ordered by key.
    pub scripts: Vec<(String, bool)>,
}

impl UserScriptConfig {
    /// The per-script switches are ordered by key, each key once.
    pub open spec fn well_formed(&self) -> bool {
        keys_increasing(self.scripts@)
    }

    /// Whether the script with `key` is enabled: as switched, else enabled.
    pub open spec fn script_enabled_spec(&self, key: Seq<char>) -> bool {
        match switch_of(self.scripts@, key) {
            Some(b) => b,
            None => true,
        }
    }

    /// Whether the script with `key` is enabled: as switched, else enabled.
    pub fn script_enabled(&self, key: &str) -> (res: bool)
        ensures
            res == self.script_enabled_spec(key@),
    {
        let ghost s = self.scripts@;
        let mut i: usize = self.scripts.len();
        assert(s.take(i as int) =~= s);
        while i > 0
            invariant
                i <= self.scripts.len(),
                s == self.scripts@,
                switch_of(s, key@) == switch_of(s.take(i as int), key@),
            decreases i,
        {
            assert(s.take(i as int).drop_last() =~= s.take(i - 1));
            assert(s.take(i as int).last() == s[i - 1]);
            if str_eq(self.scripts[i - 1].0.as_str(), key) {
                return self.scripts[i - 1].1;
            }
            i = i - 1;
        }
        assert(s.take(0) =~= Seq::<(String, bool)>::empty());
        true
    }
}

impl Default for UserScriptConfig {
    /// Scripts are enabled, and no script is switched.
    fn default() -> (res: Self)
        ensures
            res.enabled,
            res.scripts@.len() == 0,
    {
        UserScriptConfig { enabled: true, scripts: Vec::new() }
    }
}

/// Whether scripts are enabled when the configuration does not say.
pub fn default_enabled() -> (res: bool)
    ensures
        res,
{
    true
}

proof fn lemma_switch_of_unique(s: Seq<(String, bool)>, key: Seq<char>)
    requires
        keys_increasing(s),
    ensures
        switch_of(s, key) is None <==> forall|i: int| 0 <= i < s.len() ==> #[trigger] s[i].0@ != key,
        forall|i: int| 0 <= i < s.len() && #[trigger] s[i].0@ == key ==> switch_of(s, key) == Some(
            s[i].1,
        ),
    decreases s.len(),
{
    if s.len() > 0 {
        let p = s.drop_last();
        assert(keys_increasing(p)) by {
            assert forall|i: int, j: int| 0 <= i < j < p.len() implies chars_less(
                #[trigger] p[i].0@,
                #[trigger] p[j].0@,
            ) by {
                assert(p[i] == s[i] && p[j] == s[j]);
            }
        }
        lemma_switch_of_unique(p, key);
        assert forall|i: int| 0 <= i < s.len() && #[trigger] s[i].0@ == key implies switch_of(
            s,
            key,
        ) == Some(s[i].1) by {
            if i < s.len() - 1 {
                assert(p[i] == s[i]);
                if s.last().0@ == key {
                    assert(chars_less(s[i].0@, s[s.len() - 1].0@));
                    lemma_chars_less_irreflexive(key);
                }
            }
        }
        if switch_of(s, key) is None {
            assert forall|i: int| 0 <= i < s.len() implies #[trigger] s[i].0@ != key by {
                if i < s.len() - 1 {
                    assert(p[i] == s[i]);
                }
            }
        }
    }
}

/// Where a key goes among increasing keys: before the first key that is not less.
fn switch_position(scripts: &Vec<(String, bool)>, key: &Vec<char>) -> (res: usize)
    ensures
        res <= scripts.len(),
        forall|i: int| 0 <= i < res ==> chars_less(#[trigger] scripts@[i].0@, key@),
        res < scripts.len() ==> !chars_less(scripts@[res as int].0@, key@),
{
    let mut i: usize = 0;
    while i < scripts.len()
        invariant
            i <= scripts.len(),
            forall|k: int| 0 <= k < i ==> chars_less(#[trigger] scripts@[k].0@, key@),
        decreases scripts.len() - i,
    {
        if !chars_lt(&chars_of(scripts[i].0.as_str()), key) {
            return i;
        }
        i = i + 1;
    }
    i
}

impl UserScriptConfig {
    /// Records whether the script with `key` is enabled; other switches stay.
    pub fn set_switch(&mut self, key: &str, enabled: bool)
        requires
            old(self).well_formed(),
        ensures
            final(self).well_formed(),
            final(self).enabled == old(self).enabled,
            forall|k: Seq<char>|
                #![trigger switch_of(final(self).scripts@, k)]
                switch_of(final(self).scripts@, k) == if k == key@ {
                    Some(enabled)
                } else {
                    switch_of(old(self).scripts@, k)
                },
    {
        let ghost s0 = self.scripts@;
        let key_chars = chars_of(key);
        let p = switch_position(&self.scripts, &key_chars);
        let replace = p < self.scripts.len() && str_eq(self.scripts[p].0.as_str(), key);
        proof {
            lemma_switch_of_unique(s0, key@);
        }
        if replace {
            self.scripts.set(p, (key.to_string(), enabled));
            let ghost s1 = self.scripts@;
            assert(keys_increasing(s1)) by {
                assert forall|i: int, j: int| 0 <= i < j < s1.len() implies chars_less(
                    #[trigger] s1[i].0@,
                    #[trigger] s1[j].0@,
                ) by {
                    assert(s0[i].0@ == s1[i].0@ || i == p);
                    assert(s0[j].0@ == s1[j].0@ || j == p);
                    assert(s0[p as int].0@ == key@);
                }
            }
            proof {
                lemma_switch_of_unique(s1, key@);
                assert forall|k: Seq<char>| #![trigger switch_of(s1, k)] switch_of(s1, k) == if k
                    == key@ {
                    Some(enabled)
                } else {
                    switch_of(s0, k)
                } by {
                    lemma_switch_of_unique(s1, k);
                    lemma_switch_of_unique(s0, k);
                    if k != key@ {
                        if switch_of(s0, k) is Some {
                            let i = choose|i: int| 0 <= i < s0.len() && s0[i].0@ == k;
                            assert(s1[i] == s0[i]);
                        } else if switch_of(s1, k) is Some {
                            let i = choose|i: int| 0 <= i < s1.len() && s1[i].0@ == k;
                            assert(s1[i] == s0[i]);
                        }
                    } else {
                        assert(s1[p as int].0@ == key@);
                    }
                }
            }
        } else {
            self.scripts.insert(p, (key.to_string(), enabled));
            let ghost s1 = self.scripts@;
            assert(keys_increasing(s1)) by {
                assert forall|i: int, j: int| 0 <= i < j < s1.len() implies chars_less(
                    #[trigger] s1[i].0@,
                    #[trigger] s1[j].0@,
                ) by {
                    if j < p {
                        assert(s1[i] == s0[i] && s1[j] == s0[j]);
                    } else if j == p {
                        assert(s1[i] == s0[i]);
                    } else if i < p {
                        assert(s1[i] == s0[i] && s1[j] == s0[j - 1]);
                        assert(chars_less(s0[i].0@, key@));
                        lemma_chars_less_total(key@, s0[p as int].0@);
                        if p < j - 1 {
                            assert(chars_less(s0[p as int].0@, s0[j - 1].0@));
                            lemma_chars_less_transitive(s0[i].0@, key@, s0[p as int].0@);
                            lemma_chars_less_transitive(s0[i].0@, s0[p as int].0@, s0[j - 1].0@);
                        } else {
                            lemma_chars_less_transitive(s0[i].0@, key@, s0[p as int].0@);
                        }
                    } else if i == p {
                        assert(s1[j] == s0[j - 1]);
                        lemma_chars_less_total(key@, s0[p as int].0@);
                        if p < j - 1 {
                            assert(chars_less(s0[p as int].0@, s0[j - 1].0@));
                            lemma_chars_less_transitive(key@, s0[p as int].0@, s0[j - 1].0@);
                        }
                    } else {
                        assert(s1[i] == s0[i - 1] && s1[j] == s0[j - 1]);
                    }
                }
            }
            proof {
                assert forall|k: Seq<char>| #![trigger switch_of(s1, k)] switch_of(s1, k) == if k
                    == key@ {
                    Some(enabled)
                } else {
                    switch_of(s0, k)
                } by {
                    lemma_switch_of_unique(s1, k);
                    lemma_switch_of_unique(s0, k);
                    if k != key@ {
                        if switch_of(s0, k) is Some {
                            let i = choose|i: int| 0 <= i < s0.len() && s0[i].0@ == k;
                            if i < p {
                                assert(s1[i] == s0[i]);
                            } else {
                                assert(s1[i + 1] == s0[i]);
                            }
                        } else if switch_of(s1, k) is Some {
                            let i = choose|i: int| 0 <= i < s1.len() && s1[i].0@ == k;
                            if i < p {
                                assert(s1[i] == s0[i]);
                            } else if i > p {
                                assert(s1[i] == s0[i - 1]);
                            }
                        }
                    } else {
                        assert(s1[p as int].0@ == key@);
                    }
                }
            }
        }
    }
}

/// Where the scripts live and where their configuration is kept.
#[derive(Clone, Debug)]
pub struct UserScriptManager {
    builtin_dir: String,
    user_dir: String,
    config_path: String,
}

/// A script found in one of the script directories.
#[derive(Clone, Debug, PartialEq, Eq)]
pub struct UserScriptFile {
    /// `<source>:<file name>`, the key of its switch.
    pub key: String,
    /// Its file name.
    pub name: String,
    /// `builtin` or `user`.
    pub source: String,
    pub path: String,
    pub enabled: bool,
}

impl UserScriptManager {
    pub closed spec fn builtin_dir_spec(&self) -> Seq<char> {
        self.builtin_dir@
    }

    pub closed spec fn user_dir_spec(&self) -> Seq<char> {
        self.user_dir@
    }

    pub closed spec fn config_path_spec(&self) -> Seq<char> {
        self.config_path@
    }

    pub fn new(builtin_dir: String, user_dir: String, config_path: String) -> (res: Self)
        ensures
            res.builtin_dir_spec() == builtin_dir@,
            res.user_dir_spec() == user_dir@,
            res.config_path_spec() == config_path@,
    {
        UserScriptManager { builtin_dir, user_dir, config_path }
    }

    /// The directory of the scripts that ship with Codex++.
    pub fn builtin_dir(&self) -> (res: &str)
        ensures
            res@ == self.builtin_dir_spec(),
    {
        self.builtin_dir.as_str()
    }

    /// The directory of the user's own scripts.
    pub fn user_dir(&self) -> (res: &str)
        ensures
            res@ == self.user_dir_spec(),
    {
        self.user_dir.as_str()
    }

    /// The file that keeps the configuration.
    pub fn config_path(&self) -> (res: &str)
        ensures
            res@ == self.config_path_spec(),
    {
        self.config_path.as_str()
    }

    /// The configuration with every script switched on or off as a whole; the
    /// per-script switches stay.
    pub fn set_global_enabled(&self, config: UserScriptConfig, enabled: bool) -> (res: UserScriptConfig)
        ensures
            res.enabled == enabled,
            res.scripts@ == config.scripts@,
    {
        let mut config = config;
        config.enabled = enabled;
        config
    }

    /// The configuration with the script `key` switched on or off; the global
    /// switch and the other scripts' switches stay.
    pub fn set_script_enabled(&self, config: UserScriptConfig, key: &str, enabled: bool) -> (res:
        UserScriptConfig)
        requires
            config.well_formed(),
        ensures
            res.well_formed(),
            res.enabled == config.enabled,
            res.script_enabled_spec(key@) == enabled,
            forall|k: Seq<char>|
                #![trigger switch_of(res.scripts@, k)]
                switch_of(res.scripts@, k) == if k == key@ {
                    Some(enabled)
                } else {
                    switch_of(config.scripts@, k)
                },
    {
        let mut config = config;
        config.set_switch(key, enabled);
        assert(switch_of(config.scripts@, key@) == Some(enabled));
        config
    }
}

/// A directory entry that is a script: its extension is exactly `js`.
pub open spec fn is_js_script(path: Seq<char>) -> bool {
    path_extension(path) == Some("js"@)
}

/// The file name of a script, or the empty string where the path has none.
pub open spec fn script_name(path: Seq<char>) -> Seq<char> {
    match path_file_name(path) {
        Some(n) => n,
        None => Seq::empty(),
    }
}

/// Scripts are ordered by their lowercased file name.
pub open spec fn script_sort_key(path: Seq<char>) -> Seq<char> {
    match path_file_name(path) {
        Some(n) => unicode_lowercase(n),
        None => Seq::empty(),
    }
}

/// The scripts of a directory listing, in listing order.
pub open spec fn js_scripts(listing: Seq<Seq<char>>) -> Seq<Seq<char>>
    decreases listing.len(),
{
    if listing.len() == 0 {
        Seq::empty()
    } else if is_js_script(listing.last()) {
        js_scripts(listing.drop_last()).push(listing.last())
    } else {
        js_scripts(listing.drop_last())
    }
}

/// A script path with the key it is ordered by.
pub type KeyedPath = (Seq<char>, Seq<char>);

/// Where a stable insertion puts `x`: before the first entry whose key sorts after its key.
pub open spec fn keyed_insert_position(s: Seq<KeyedPath>, x: KeyedPath) -> int
    decreases s.len(),
{
    if s.len() == 0 {
        0
    } else if chars_less(x.1, s[0].1) {
        0
    } else {
        1 + keyed_insert_position(s.drop_first(), x)
    }
}

/// The entries sorted stably by key (as `sort_by_key` does).
pub open spec fn sorted_keyed(s: Seq<KeyedPath>) -> Seq<KeyedPath>
    decreases s.len(),
{
    if s.len() == 0 {
        Seq::empty()
    } else {
        let sorted = sorted_keyed(s.drop_last());
        sorted.insert(keyed_insert_position(sorted, s.last()), s.last())
    }
}

/// No entry is listed after one whose key sorts after its key.
pub open spec fn keys_in_order(s: Seq<KeyedPath>) -> bool {
    forall|i: int, j: int| 0 <= i < j < s.len() ==> !chars_less(#[trigger] s[j].1, #[trigger] s[i].1)
}

proof fn lemma_keyed_insert_position_bounds(s: Seq<KeyedPath>, x: KeyedPath)
    ensures
        0 <= keyed_insert_position(s, x) <= s.len(),
        forall|i: int| 0 <= i < keyed_insert_position(s, x) ==> !chars_less(x.1, #[trigger] s[i].1),
        keyed_insert_position(s, x) < s.len() ==> chars_less(x.1, s[keyed_insert_position(s, x)].1),
    decreases s.len(),
{
    if s.len() > 0 && !chars_less(x.1, s[0].1) {
        lemma_keyed_insert_position_bounds(s.drop_first(), x);
        let p = keyed_insert_position(s, x);
        assert forall|i: int| 0 <= i < p implies !chars_less(x.1, #[trigger] s[i].1) by {
            if i > 0 {
                assert(s[i] == s.drop_first()[i - 1]);
            }
        }
        if p < s.len() {
            assert(s[p] == s.drop_first()[p - 1]);
        }
    }
}

proof fn lemma_keyed_insert_keeps_order(s: Seq<KeyedPath>, x: KeyedPath)
    requires
        keys_in_order(s),
    ensures
        keys_in_order(s.insert(keyed_insert_position(s, x), x)),
{
    lemma_keyed_insert_position_bounds(s, x);
    let p = keyed_insert_position(s, x);
    let t = s.insert(p, x);
    assert forall|i: int, j: int| 0 <= i < j < t.len() implies !chars_less(
        #[trigger] t[j].1,
        #[trigger] t[i].1,
    ) by {
        if i < p && j < p {
            assert(t[i] == s[i] && t[j] == s[j]);
        } else if i < p && j == p {
            assert(t[i] == s[i]);
        } else if i < p {
            assert(t[i] == s[i] && t[j] == s[j - 1]);
        } else if i == p {
            assert(t[j] == s[j - 1]);
            if chars_less(s[j - 1].1, x.1) {
                lemma_chars_less_transitive(s[j - 1].1, x.1, s[p].1);
                if j - 1 == p {
                    lemma_chars_less_irreflexive(s[p].1);
                } else {
                    assert(!chars_less(s[j - 1].1, s[p].1));
                }
            }
        } else {
            assert(t[i] == s[i - 1] && t[j] == s[j - 1]);
        }
    }
}

/// Sorting by key (the lowercased file name) puts the entries in order of
/// their keys, and neither loses nor adds an entry: the result is a
/// permutation of the entries in which no entry comes after one whose key
/// sorts after its key.
pub proof fn sorted_scripts_are_ordered_by_key(s: Seq<KeyedPath>)
    ensures
        forall|i: int, j: int|
            0 <= i < j < sorted_keyed(s).len() ==> !chars_less(
                #[trigger] sorted_keyed(s)[j].1,
                #[trigger] sorted_keyed(s)[i].1,
            ),
        sorted_keyed(s).to_multiset() == s.to_multiset(),
    decreases s.len(),
{
    broadcast use vstd::seq_lib::group_to_multiset_ensures;

    if s.len() > 0 {
        sorted_scripts_are_ordered_by_key(s.drop_last());
        let sorted = sorted_keyed(s.drop_last());
        assert(keys_in_order(sorted));
        lemma_keyed_insert_keeps_order(sorted, s.last());
        lemma_keyed_insert_position_bounds(sorted, s.last());
        assert(s.drop_last().push(s.last()) =~= s);
        assert(keys_in_order(sorted_keyed(s)));
    } else {
        assert(sorted_keyed(s) =~= s);
    }
}

/// Each script path with its lowercased file name.
pub open spec fn keyed_scripts(paths: Seq<Seq<char>>) -> Seq<KeyedPath> {
    paths.map_values(|p: Seq<char>| (p, script_sort_key(p)))
}

/// The scripts sorted stably by lowercased file name.
pub open spec fn sorted_scripts(paths: Seq<Seq<char>>) -> Seq<Seq<char>> {
    sorted_keyed(keyed_scripts(paths)).map_values(|e: KeyedPath| e.0)
}

/// The switch key of a script: `<source>:<file name>`.
pub open spec fn script_key(source: Seq<char>, path: Seq<char>) -> Seq<char> {
    source + ":"@ + script_name(path)
}

/// `f` is the script at `path` from `source`, enabled as the configuration says.
pub open spec fn describes_script(
    f: UserScriptFile,
    source: Seq<char>,
    path: Seq<char>,
    config: UserScriptConfig,
) -> bool {
    &&& f.key@ == script_key(source, path)
    &&& f.name@ == script_name(path)
    &&& f.source@ == source
    &&& f.path@ == path
    &&& f.enabled == config.script_enabled_spec(script_key(source, path))
}

/// The views of a list of strings.
pub open spec fn path_views(v: Seq<String>) -> Seq<Seq<char>> {
    v.map_values(|s: String| s@)
}

/// Whether an extension marks a script: exactly `js`.
pub fn is_js_extension(extension: Option<&str>) -> (res: bool)
    ensures
        res == (extension matches Some(e) && e@ == "js"@),
{
    match extension {
        Some(e) => str_eq(e, "js"),
        None => false,
    }
}

fn is_js(path: &str) -> (res: bool)
    ensures
        res == is_js_script(path@),
{
    let extension = extension_of(path);
    let res = match &extension {
        Some(e) => is_js_extension(Some(e.as_str())),
        None => is_js_extension(None),
    };
    proof {
        reveal_strlit("js");
    }
    res
}

fn sort_key_of(path: &str) -> (res: String)
    ensures
        res@ == script_sort_key(path@),
{
    match file_name_of(path) {
        Some(n) => to_lowercase(n.as_str()),
        None => String::new(),
    }
}

fn name_of(path: &str) -> (res: String)
    ensures
        res@ == script_name(path@),
{
    match file_name_of(path) {
        Some(n) => n,
        None => String::new(),
    }
}

pub open spec fn keyed_views(v: Seq<(String, String)>) -> Seq<KeyedPath> {
    v.map_values(|e: (String, String)| (e.0@, e.1@))
}

/// Where `x` goes among the sorted entries: before the first whose key sorts after its key.
fn keyed_position(sorted: &Vec<(String, String)>, x: &(String, String)) -> (res: usize)
    ensures
        res <= sorted@.len(),
        res as int == keyed_insert_position(keyed_views(sorted@), (x.0@, x.1@)),
{
    let ghost bv = keyed_views(sorted@);
    let ghost kx = (x.0@, x.1@);
    let key_chars = chars_of(x.1.as_str());
    let mut p: usize = 0;
    assert(bv.skip(0) =~= bv);
    while p < sorted.len()
        invariant
            p <= sorted.len(),
            bv == keyed_views(sorted@),
            kx == (x.0@, x.1@),
            key_chars@ == x.1@,
            keyed_insert_position(bv, kx) == p + keyed_insert_position(bv.skip(p as int), kx),
        decreases sorted.len() - p,
    {
        assert(bv.skip(p as int)[0] == bv[p as int]);
        assert(bv[p as int] == (sorted@[p as int].0@, sorted@[p as int].1@));
        if chars_lt(&key_chars, &chars_of(sorted[p].1.as_str())) {
            return p;
        }
        assert(bv.skip(p as int).drop_first() =~= bv.skip(p + 1));
        p = p + 1;
    }
    p
}

/// Script paths (with the key each is ordered by) in order: a stable sort by key.
pub fn order_scripts_by_key(scripts: &Vec<(String, String)>) -> (res: Vec<String>)
    ensures
        path_views(res@) == sorted_keyed(keyed_views(scripts@)).map_values(|e: KeyedPath| e.0),
{
    let ghost kv = keyed_views(scripts@);
    let mut sorted: Vec<(String, String)> = Vec::new();
    let mut i: usize = 0;
    while i < scripts.len()
        invariant
            i <= scripts.len(),
            kv == keyed_views(scripts@),
            keyed_views(sorted@) == sorted_keyed(kv.take(i as int)),
        decreases scripts.len() - i,
    {
        assert(kv.take(i + 1).drop_last() =~= kv.take(i as int));
        assert(kv.take(i + 1).last() == (scripts@[i as int].0@, scripts@[i as int].1@));
        let x = (scripts[i].0.clone(), scripts[i].1.clone());
        let ghost before = keyed_views(sorted@);
        let p = keyed_position(&sorted, &x);
        sorted.insert(p, x);
        assert(keyed_views(sorted@) =~= before.insert(p as int, (x.0@, x.1@)));
        i = i + 1;
    }
    assert(kv.take(scripts.len() as int) =~= kv);
    let mut res: Vec<String> = Vec::new();
    let mut k: usize = 0;
    while k < sorted.len()
        invariant
            k <= sorted.len(),
            res@.len() == k,
            forall|j: int| 0 <= j < k ==> #[trigger] res@[j]@ == sorted@[j].0@,
        decreases sorted.len() - k,
    {
        res.push(sorted[k].0.clone());
        k = k + 1;
    }
    assert(path_views(res@) =~= keyed_views(sorted@).map_values(|e: KeyedPath| e.0));
    res
}

/// The scripts of a directory listing, ordered by lowercased file name.
fn sorted_js_paths(listing: &Vec<String>) -> (res: Vec<String>)
    ensures
        path_views(res@) == sorted_scripts(js_scripts(path_views(listing@))),
{
    let ghost lv = path_views(listing@);
    let mut keyed: Vec<(String, String)> = Vec::new();
    let mut i: usize = 0;
    while i < listing.len()
        invariant
            i <= listing.len(),
            lv == path_views(listing@),
            keyed_views(keyed@) == keyed_scripts(js_scripts(lv.take(i as int))),
        decreases listing.len() - i,
    {
        assert(lv.take(i + 1).drop_last() =~= lv.take(i as int));
        assert(lv.take(i + 1).last() == listing@[i as int]@);
        let path = &listing[i];
        if is_js(path.as_str()) {
            let key = sort_key_of(path.as_str());
            let ghost before = keyed_views(keyed@);
            keyed.push((path.clone(), key));
            assert(keyed_views(keyed@) =~= before.push((path@, script_sort_key(path@))));
            assert(js_scripts(lv.take(i + 1)) == js_scripts(lv.take(i as int)).push(path@));
            assert(keyed_scripts(js_scripts(lv.take(i + 1))) =~= keyed_scripts(
                js_scripts(lv.take(i as int)),
            ).push((path@, script_sort_key(path@))));
        } else {
            assert(js_scripts(lv.take(i + 1)) == js_scripts(lv.take(i as int)));
        }
        i = i + 1;
    }
    assert(lv.take(listing.len() as int) =~= lv);
    order_scripts_by_key(&keyed)
}

/// The scripts of a directory, in order, as found from `source`.
pub open spec fn listed_scripts(listing: Option<Seq<Seq<char>>>) -> Seq<Seq<char>> {
    match listing {
        Some(l) => sorted_scripts(js_scripts(l)),
        None => Seq::empty(),
    }
}

/// Appends the scripts of a directory listing to `scripts`, ordered by
/// lowercased file name; a directory that could not be read adds none.
pub fn append_scripts(
    source: &str,
    listing: Option<&Vec<String>>,
    config: &UserScriptConfig,
    scripts: &mut Vec<UserScriptFile>,
)
    ensures
        ({
            let found = listed_scripts(
                match listing {
                    Some(l) => Some(path_views(l@)),
                    None => None,
                },
            );
            &&& final(scripts)@.len() == old(scripts)@.len() + found.len()
            &&& forall|k: int| 0 <= k < old(scripts)@.len() ==> #[trigger] final(scripts)@[k] == old(scripts)@[k]
            &&& forall|k: int|
                0 <= k < found.len() ==> describes_script(
                    #[trigger] final(scripts)@[old(scripts)@.len() + k],
                    source@,
                    found[k],
                    *config,
                )
        }),
{
    let listing = match listing {
        Some(l) => l,
        None => return,
    };
    let paths = sorted_js_paths(listing);
    let ghost start = scripts@;
    let mut i: usize = 0;
    while i < paths.len()
        invariant
            i <= paths.len(),
            path_views(paths@) == sorted_scripts(js_scripts(path_views(listing@))),
            scripts@.len() == start.len() + i,
            forall|k: int| 0 <= k < start.len() ==> #[trigger] scripts@[k] == start[k],
            forall|k: int|
                0 <= k < i ==> describes_script(
                    #[trigger] scripts@[start.len() + k],
                    source@,
                    paths@[k]@,
                    *config,
                ),
        decreases paths.len() - i,
    {
        let path = &paths[i];
        let name = name_of(path.as_str());
        let with_colon = concat_str(source, ":");
        let key = concat_str(with_colon.as_str(), name.as_str());
        let enabled = config.script_enabled(key.as_str());
        scripts.push(
            UserScriptFile { key, name, source: source.to_string(), path: path.clone(), enabled },
        );
        assert(path_views(paths@)[i as int] == paths@[i as int]@);
        i = i + 1;
    }
    proof {
        let found = sorted_scripts(js_scripts(path_views(listing@)));
        assert forall|k: int| 0 <= k < found.len() implies describes_script(
            #[trigger] scripts@[start.len() + k],
            source@,
            found[k],
            *config,
        ) by {
            assert(path_views(paths@)[k] == paths@[k]@);
        }
    }
}

impl UserScriptManager {
    /// The scripts of both directories: the built-in ones first, then the
    /// user's (`None`: that directory could not be read).
    pub fn scan_script_files(
        &self,
        config: &UserScriptConfig,
        builtin_listing: Option<&Vec<String>>,
        user_listing: Option<&Vec<String>>,
    ) -> (res: Vec<UserScriptFile>)
        ensures
            ({
                let builtin = listed_scripts(
                    match builtin_listing {
                        Some(l) => Some(path_views(l@)),
                        None => None,
                    },
                );
                let user = listed_scripts(
                    match user_listing {
                        Some(l) => Some(path_views(l@)),
                        None => None,
                    },
                );
                &&& res@.len() == builtin.len() + user.len()
                &&& forall|k: int|
                    0 <= k < builtin.len() ==> describes_script(
                        #[trigger] res@[k],
                        "builtin"@,
                        builtin[k],
                        *config,
                    )
                &&& forall|k: int|
                    0 <= k < user.len() ==> describes_script(
                        #[trigger] res@[builtin.len() + k],
                        "user"@,
                        user[k],
                        *config,
                    )
            }),
    {
        let mut scripts: Vec<UserScriptFile> = Vec::new();
        append_scripts("builtin", builtin_listing, config, &mut scripts);
        let ghost first = scripts@;
        append_scripts("user", user_listing, config, &mut scripts);
        proof {
            let builtin = listed_scripts(
                match builtin_listing {
                    Some(l) => Some(path_views(l@)),
                    None => None,
                },
            );
            assert forall|k: int| 0 <= k < builtin.len() implies describes_script(
                #[trigger] scripts@[k],
                "builtin"@,
                builtin[k],
                *config,
            ) by {
                assert(scripts@[k] == first[k]);
                assert(first[0 + k] == first[k]);
            }
        }
        scripts
    }
}

/// How a script is shown before Codex has loaded it: `disabled` where scripts
/// are off as a whole or this one is, else `not_loaded`.
pub fn script_status(scripts_enabled: bool, script_enabled: bool) -> (res: &'static str)
    ensures
        res@ == if !scripts_enabled || !script_enabled {
            "disabled"@
        } else {
            "not_loaded"@
        },
{
    if !scripts_enabled || !script_enabled {
        "disabled"
    } else {
        "not_loaded"
    }
}

/// The lowercase hexadecimal digits.
pub open spec fn hex_digits() -> Seq<char> {
    seq!['0', '1', '2', '3', '4', '5', '6', '7', '8', '9', 'a', 'b', 'c', 'd', 'e', 'f']
}

/// How `serde_json` writes one character inside a string literal: `"` and
/// `\` behind a backslash; backspace, form feed, line feed, carriage return
/// and tab as `\b`, `\f`, `\n`, `\r`, `\t`; the other control characters
/// below U+0020 as `\u00` and two lowercase hex digits; anything else as it is.
pub open spec fn json_escaped_char(c: char) -> Seq<char> {
    if c == '"' {
        seq!['\\', '"']
    } else if c == '\\' {
        seq!['\\', '\\']
    } else if c == '\u{8}' {
        seq!['\\', 'b']
    } else if c == '\u{c}' {
        seq!['\\', 'f']
    } else if c == '\n' {
        seq!['\\', 'n']
    } else if c == '\r' {
        seq!['\\', 'r']
    } else if c == '\t' {
        seq!['\\', 't']
    } else if (c as int) < 0x20 {
        seq!['\\', 'u', '0', '0', hex_digits()[(c as int) / 16], hex_digits()[(c as int) % 16]]
    } else {
        seq![c]
    }
}

/// The characters of `s`, each written as `json_escaped_char` says.
pub open spec fn json_escaped(s: Seq<char>) -> Seq<char>
    decreases s.len(),
{
    if s.len() == 0 {
        Seq::empty()
    } else {
        json_escaped(s.drop_last()) + json_escaped_char(s.last())
    }
}

/// The JSON string literal that `serde_json` writes for `s` (`json!(s).to_string()`,
/// its `format_escaped_str`): `s` escaped,
/// between double quotes.
pub open spec fn json_string_literal(s: Seq<char>) -> Seq<char> {
    seq!['"'] + json_escaped(s) + seq!['"']
}

/// Appends `c` as it is written inside a JSON string literal.
fn push_escaped_char(out: &mut Vec<char>, c: char)
    ensures
        final(out)@ == old(out)@ + json_escaped_char(c),
{
    let ghost start = out@;
    if c == '"' {
        out.push('\\');
        out.push('"');
    } else if c == '\\' {
        out.push('\\');
        out.push('\\');
    } else if c == '\u{8}' {
        out.push('\\');
        out.push('b');
    } else if c == '\u{c}' {
        out.push('\\');
        out.push('f');
    } else if c == '\n' {
        out.push('\\');
        out.push('n');
    } else if c == '\r' {
        out.push('\\');
        out.push('r');
    } else if c == '\t' {
        out.push('\\');
        out.push('t');
    } else if (c as u32) < 0x20 {
        let n = c as u32;
        out.push('\\');
        out.push('u');
        out.push('0');
        out.push('0');
        out.push(hex_digit(n / 16));
        out.push(hex_digit(n % 16));
    } else {
        out.push(c);
    }
    assert(out@ =~= start + json_escaped_char(c));
}

/// The lowercase hexadecimal digit of `n`.
fn hex_digit(n: u32) -> (res: char)
    requires
        n < 16,
    ensures
        res == hex_digits()[n as int],
{
    if n == 0 {
        '0'
    } else if n == 1 {
        '1'
    } else if n == 2 {
        '2'
    } else if n == 3 {
        '3'
    } else if n == 4 {
        '4'
    } else if n == 5 {
        '5'
    } else if n == 6 {
        '6'
    } else if n == 7 {
        '7'
    } else if n == 8 {
        '8'
    } else if n == 9 {
        '9'
    } else if n == 10 {
        'a'
    } else if n == 11 {
        'b'
    } else if n == 12 {
        'c'
    } else if n == 13 {
        'd'
    } else if n == 14 {
        'e'
    } else {
        'f'
    }
}

/// `s` as a JSON string literal, as `serde_json` writes it
/// (`json!(s).to_string()`): quoted, each character escaped as
/// `json_escaped_char` says.
fn json_quote(s: &str) -> (res: String)
    ensures
        res@ == json_string_literal(s@),
{
    let chars = chars_of(s);
    let mut out: Vec<char> = Vec::new();
    out.push('"');
    let mut i: usize = 0;
    assert(out@ =~= seq!['"'] + json_escaped(chars@.take(0)));
    while i < chars.len()
        invariant
            i <= chars.len(),
            out@ == seq!['"'] + json_escaped(chars@.take(i as int)),
        decreases chars.len() - i,
    {
        assert(chars@.take(i + 1).drop_last() =~= chars@.take(i as int));
        push_escaped_char(&mut out, chars[i]);
        assert(out@ =~= seq!['"'] + json_escaped(chars@.take(i + 1)));
        i = i + 1;
    }
    out.push('"');
    assert(chars@.take(chars.len() as int) =~= chars@);
    assert(out@ =~= json_string_literal(s@));
    string_from_chars(&out)
}

pub const SCRIPT_WRAPPER_HEAD: &'static str = "\n(() => {\n  window.__codexPlusUserScripts = window.__codexPlusUserScripts || { scripts: {} };\n  const key = ";

pub const SCRIPT_WRAPPER_BEFORE_NAME: &'static str = ";\n  window.__codexPlusUserScripts.scripts[key] = { key, name: ";

pub const SCRIPT_WRAPPER_BEFORE_SOURCE_NAME: &'static str = ", source: ";

pub const SCRIPT_WRAPPER_BEFORE_SOURCE: &'static str = ", status: \"loading\", error: \"\", loadedAt: new Date().toISOString() };\n  try {\n";

pub const SCRIPT_WRAPPER_TAIL: &'static str = "\n    window.__codexPlusUserScripts.scripts[key].status = \"loaded\";\n    window.__codexPlusUserScripts.scripts[key].loadedAt = new Date().toISOString();\n  } catch (error) {\n    window.__codexPlusUserScripts.scripts[key].status = \"failed\";\n    window.__codexPlusUserScripts.scripts[key].error = String(error && (error.stack || error.message) || error);\n  }\n})();\n";

/// The wrapper code around a script, given its key, name and source name as
/// JavaScript string literals.
pub open spec fn wrap_quoted_spec(
    quoted_key: Seq<char>,
    quoted_name: Seq<char>,
    quoted_source_name: Seq<char>,
    source: Seq<char>,
) -> Seq<char> {
    SCRIPT_WRAPPER_HEAD@ + quoted_key + SCRIPT_WRAPPER_BEFORE_NAME@ + quoted_name
        + SCRIPT_WRAPPER_BEFORE_SOURCE_NAME@ + quoted_source_name + SCRIPT_WRAPPER_BEFORE_SOURCE@
        + source + SCRIPT_WRAPPER_TAIL@
}

/// The code that loads one script into Codex, recording its status under its key.
pub open spec fn wrap_script_spec(
    key: Seq<char>,
    name: Seq<char>,
    source_name: Seq<char>,
    source: Seq<char>,
) -> Seq<char> {
    wrap_quoted_spec(
        json_string_literal(key),
        json_string_literal(name),
        json_string_literal(source_name),
        source,
    )
}

/// Wraps the code of a script, given its key, name and source name already
/// written as JavaScript string literals.
pub fn wrap_quoted_script(
    quoted_key: &str,
    quoted_name: &str,
    quoted_source_name: &str,
    source: &str,
) -> (res: String)
    ensures
        res@ == wrap_quoted_spec(quoted_key@, quoted_name@, quoted_source_name@, source@),
{
    let mut out = concat_str(SCRIPT_WRAPPER_HEAD, quoted_key);
    out = concat_str(out.as_str(), SCRIPT_WRAPPER_BEFORE_NAME);
    out = concat_str(out.as_str(), quoted_name);
    out = concat_str(out.as_str(), SCRIPT_WRAPPER_BEFORE_SOURCE_NAME);
    out = concat_str(out.as_str(), quoted_source_name);
    out = concat_str(out.as_str(), SCRIPT_WRAPPER_BEFORE_SOURCE);
    out = concat_str(out.as_str(), source);
    concat_str(out.as_str(), SCRIPT_WRAPPER_TAIL)
}

/// Wraps the code of a script so that Codex records whether it loaded.
pub fn wrap_script(script: &UserScriptFile, source: &str) -> (res: String)
    ensures
        res@ == wrap_script_spec(script.key@, script.name@, script.source@, source@),
{
    let key = json_quote(script.key.as_str());
    let name = json_quote(script.name.as_str());
    let source_name = json_quote(script.source.as_str());
    wrap_quoted_script(key.as_str(), name.as_str(), source_name.as_str(), source)
}

/// The code that throws an error, given its message as a JavaScript string literal.
pub open spec fn throw_quoted_spec(quoted_error: Seq<char>) -> Seq<char> {
    "throw new Error("@ + quoted_error + ");"@
}

/// The code a script runs when its file cannot be read: it throws the read error.
pub open spec fn unreadable_script_spec(error: Seq<char>) -> Seq<char> {
    throw_quoted_spec(json_string_literal(error))
}

/// The code that throws an error whose message is already a string literal.
pub fn throw_quoted_error(quoted_error: &str) -> (res: String)
    ensures
        res@ == throw_quoted_spec(quoted_error@),
{
    let head = concat_str("throw new Error(", quoted_error);
    concat_str(head.as_str(), ");")
}

/// The code of a script whose file could not be read (`error` is the reason).
pub fn unreadable_script_source(error: &str) -> (res: String)
    ensures
        res@ == unreadable_script_spec(error@),
{
    throw_quoted_error(json_quote(error).as_str())
}

/// Blocks joined by `sep` (`[String]::join`).
pub open spec fn join_blocks(blocks: Seq<Seq<char>>, sep: Seq<char>) -> Seq<char>
    decreases blocks.len(),
{
    if blocks.len() == 0 {
        Seq::empty()
    } else if blocks.len() == 1 {
        blocks[0]
    } else {
        join_blocks(blocks.drop_last(), sep) + sep + blocks.last()
    }
}

/// The wrapped code of the enabled scripts, in order.
pub open spec fn enabled_blocks(scripts: Seq<UserScriptFile>, sources: Seq<String>) -> Seq<Seq<char>>
    decreases scripts.len(),
{
    if scripts.len() == 0 || sources.len() == 0 {
        Seq::empty()
    } else {
        let rest = enabled_blocks(scripts.drop_last(), sources.drop_last());
        let s = scripts.last();
        if s.enabled {
            rest.push(wrap_script_spec(s.key@, s.name@, s.source@, sources.last()@))
        } else {
            rest
        }
    }
}

impl UserScriptManager {
    /// The bundle injected into Codex: nothing while scripts are off as a whole,
    /// else the wrapped code of each enabled script (`sources[k]`: the code of
    /// `scripts[k]`), joined by newlines.
    pub fn build_enabled_bundle(
        &self,
        config: &UserScriptConfig,
        scripts: &Vec<UserScriptFile>,
        sources: &Vec<String>,
    ) -> (res: String)
        requires
            scripts.len() == sources.len(),
        ensures
            res@ == if !config.enabled {
                Seq::empty()
            } else {
                join_blocks(enabled_blocks(scripts@, sources@), "\n"@)
            },
    {
        if !config.enabled {
            return String::new();
        }
        let mut out = String::new();
        let mut count: usize = 0;
        let mut i: usize = 0;
        while i < scripts.len()
            invariant
                i <= scripts.len() == sources.len(),
                count <= i,
                count == enabled_blocks(scripts@.take(i as int), sources@.take(i as int)).len(),
                out@ == join_blocks(
                    enabled_blocks(scripts@.take(i as int), sources@.take(i as int)),
                    "\n"@,
                ),
            decreases scripts.len() - i,
        {
            assert(scripts@.take(i + 1).drop_last() =~= scripts@.take(i as int));
            assert(sources@.take(i + 1).drop_last() =~= sources@.take(i as int));
            let ghost prev = enabled_blocks(scripts@.take(i as int), sources@.take(i as int));
            if scripts[i].enabled {
                let block = wrap_script(&scripts[i], sources[i].as_str());
                if count > 0 {
                    out = concat_str(out.as_str(), "\n");
                    out = concat_str(out.as_str(), block.as_str());
                } else {
                    out = block;
                }
                let ghost now = prev.push(block@);
                assert(now.drop_last() =~= prev);
                count = count + 1;
            }
            i = i + 1;
        }
        assert(scripts@.take(scripts.len() as int) =~= scripts@);
        assert(sources@.take(sources.len() as int) =~= sources@);
        out
    }
}

} // verus!
