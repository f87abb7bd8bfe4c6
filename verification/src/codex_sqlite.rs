//! Where Codex keeps its SQLite databases, which of them hold sessions or thread
//! references, and what a model-suffix cleanup counted.
use vstd::prelude::*;

use crate::paths::{
    extension_of, file_name_of, join_path, path_components, path_extension, path_file_name, path_join,
    strip_path_prefix, path_strip_prefix,
};
use crate::sort_order::{
    chars_less, chars_lt, lemma_chars_less_irreflexive, lemma_chars_less_transitive,
};
use crate::model_suffix::{digits_start, model_suffix_slug, model_suffix_slug_of};
use crate::text::{chars_of, concat_str, str_eq};

verus! {

broadcast use vstd::seq_lib::group_to_multiset_ensures;

/// The session database that Codex has always used, directly in its home.
pub const LEGACY_STATE_DB_FILE_NAME: &'static str = "state_5.sqlite";

/// The client log database, directly in the SQLite home.
pub const LOGS_DB_FILE_NAME: &'static str = "logs_2.sqlite";

/// The database of the `sqlite` directory that is tried first.
pub const PREFERRED_DB_FILE_NAME: &'static str = "codex-dev.db";

/// The tables of which a database in the `sqlite` directory needs one to hold sessions.
pub const SESSION_DB_TABLES: [&'static str; 3] = ["threads", "automation_runs", "inbox_items"];

/// The tables of which a database in the `sqlite` directory needs one to hold
/// thread references.
pub const THREAD_REFERENCE_DB_TABLES: [&'static str; 11] = [
    "threads",
    "local_thread_catalog",
    "automation_runs",
    "inbox_items",
    "sessions",
    "messages",
    "thread_dynamic_tools",
    "thread_goals",
    "thread_spawn_edges",
    "stage1_outputs",
    "agent_job_items",
];

/// `<home>/state_5.sqlite`.
pub open spec fn legacy_state_db_path_spec(home: Seq<char>) -> Seq<char> {
    path_join(home, LEGACY_STATE_DB_FILE_NAME@)
}

/// The legacy session database of a home.
pub fn legacy_state_db_path(home: &str) -> (res: String)
    ensures
        res@ == legacy_state_db_path_spec(home@),
{
    join_path(home, LEGACY_STATE_DB_FILE_NAME)
}

/// The `sqlite` directory of a home, where newer databases live.
pub fn codex_sqlite_dir(home: &str) -> (res: String)
    ensures
        res@ == path_join(home@, "sqlite"@),
{
    join_path(home, "sqlite")
}

/// The `CODEX_SQLITE_HOME` override: used where it is set, not empty, and a
/// directory (`value_is_dir`).
pub fn resolve_sqlite_home(value: Option<&str>, value_is_dir: bool) -> (res: Option<String>)
    ensures
        res is Some <==> (value matches Some(v) && v@.len() > 0 && value_is_dir),
        res matches Some(r) ==> value matches Some(v) && r@ == v@,
{
    match value {
        Some(v) => {
            if !v.is_empty() && value_is_dir {
                Some(v.to_string())
            } else {
                None
            }
        },
        None => None,
    }
}

/// The SQLite home: the override where there is a usable one, else the Codex home.
pub open spec fn sqlite_home_spec(home: Seq<char>, sqlite_home_override: Option<String>) -> Seq<
    char,
> {
    match sqlite_home_override {
        Some(o) => o@,
        None => home,
    }
}

/// The SQLite home of a Codex home, given the resolved override.
pub fn resolve_sqlite_home_home_or_default(home: &str, sqlite_home_override: Option<String>) -> (res:
    String)
    ensures
        res@ == sqlite_home_spec(home@, sqlite_home_override),
{
    match sqlite_home_override {
        Some(o) => o,
        None => home.to_string(),
    }
}

/// The client log database (a fixed file name in the SQLite home).
pub fn codex_logs_db_path_from_home(home: &str, sqlite_home_override: Option<String>) -> (res:
    String)
    ensures
        res@ == path_join(sqlite_home_spec(home@, sqlite_home_override), LOGS_DB_FILE_NAME@),
{
    let sqlite_home = resolve_sqlite_home_home_or_default(home, sqlite_home_override);
    join_path(sqlite_home.as_str(), LOGS_DB_FILE_NAME)
}

/// A database file and its write-ahead-log and shared-memory companions.
pub fn codex_sqlite_sidecar_paths(db_path: &str) -> (res: [String; 3])
    ensures
        res[0]@ == db_path@,
        res[1]@ == db_path@ + "-wal"@,
        res[2]@ == db_path@ + "-shm"@,
{
    [db_path.to_string(), concat_str(db_path, "-wal"), concat_str(db_path, "-shm")]
}

/// `path` relative to the Codex home, or `path` itself where it lies elsewhere.
/// Where it is made relative, joining the home and the result gives `path`
/// back (component-wise).
pub fn relative_to_codex_home(home: &str, path: &str) -> (res: String)
    ensures
        res@ == match path_strip_prefix(path@, home@) {
            Some(r) => r,
            None => path@,
        },
        path_strip_prefix(path@, home@) is Some ==> path_components(path_join(home@, res@))
            == path_components(path@),
{
    match strip_path_prefix(path, home) {
        Some(r) => r,
        None => path.to_string(),
    }
}

/// The database file extensions Codex uses.
pub open spec fn is_sqlite_candidate_spec(path: Seq<char>) -> bool {
    path_extension(path) matches Some(e) && (e == "db"@ || e == "sqlite"@ || e == "sqlite3"@)
}

/// Whether an extension is one of the database file extensions.
pub fn is_sqlite_extension(extension: Option<&str>) -> (res: bool)
    ensures
        res == (extension matches Some(e) && (e@ == "db"@ || e@ == "sqlite"@ || e@
            == "sqlite3"@)),
{
    match extension {
        Some(e) => str_eq(e, "db") || str_eq(e, "sqlite") || str_eq(e, "sqlite3"),
        None => false,
    }
}

/// Whether `path` has one of the database file extensions (`db`, `sqlite`, `sqlite3`).
pub fn is_sqlite_candidate(path: &str) -> (res: bool)
    ensures
        res == is_sqlite_candidate_spec(path@),
{
    let extension = extension_of(path);
    match &extension {
        Some(e) => is_sqlite_extension(Some(e.as_str())),
        None => is_sqlite_extension(None),
    }
}

/// Whether a database holds any of the tables asked for (`table_present[k]` says
/// whether it holds the `k`-th).
pub fn has_any_table(table_present: &Vec<bool>) -> (res: bool)
    ensures
        res == exists|k: int| 0 <= k < table_present@.len() && table_present@[k],
{
    let mut i: usize = 0;
    while i < table_present.len()
        invariant
            i <= table_present.len(),
            forall|k: int| 0 <= k < i ==> !table_present@[k],
        decreases table_present.len() - i,
    {
        if table_present[i] {
            return true;
        }
        i = i + 1;
    }
    false
}

/// An entry of a home's `sqlite` directory, as listed from disk.
#[derive(Clone, Debug)]
pub struct SqliteDirEntry {
    pub path: String,
    pub is_file: bool,
    /// Whether the database holds one of the tables asked for.
    pub has_listed_table: bool,
}

/// A database that qualifies: its path and its file name.
pub type DbCandidate = (Seq<char>, Option<Seq<char>>);

/// An entry qualifies when it is a file with a database extension that holds
/// one of the tables asked for.
pub open spec fn entry_qualifies(e: SqliteDirEntry) -> bool {
    e.is_file && is_sqlite_candidate_spec(e.path@) && e.has_listed_table
}

/// The qualifying entries, in listing order.
pub open spec fn qualifying_candidates(entries: Seq<SqliteDirEntry>) -> Seq<DbCandidate>
    decreases entries.len(),
{
    if entries.len() == 0 {
        Seq::empty()
    } else {
        let rest = qualifying_candidates(entries.drop_last());
        let e = entries.last();
        if entry_qualifies(e) {
            rest.push((e.path@, path_file_name(e.path@)))
        } else {
            rest
        }
    }
}

/// Whether a file name is not the preferred database (so it sorts after it).
pub open spec fn not_preferred(name: Option<Seq<char>>) -> bool {
    name != Some(PREFERRED_DB_FILE_NAME@)
}

/// The order of databases: the preferred file first, then by file name (a
/// missing name first).
pub open spec fn db_key_less(a: Option<Seq<char>>, b: Option<Seq<char>>) -> bool {
    if not_preferred(a) != not_preferred(b) {
        !not_preferred(a)
    } else {
        match (a, b) {
            (None, Some(_)) => true,
            (Some(x), Some(y)) => chars_less(x, y),
            _ => false,
        }
    }
}

/// Where a stable insertion puts `x`: before the first element that sorts after it.
pub open spec fn insert_position(s: Seq<DbCandidate>, x: DbCandidate) -> int
    decreases s.len(),
{
    if s.len() == 0 {
        0
    } else if db_key_less(x.1, s[0].1) {
        0
    } else {
        1 + insert_position(s.drop_first(), x)
    }
}

/// The candidates sorted stably by `db_key_less` (as `sort_by_key` does).
pub open spec fn sorted_candidates(s: Seq<DbCandidate>) -> Seq<DbCandidate>
    decreases s.len(),
{
    if s.len() == 0 {
        Seq::empty()
    } else {
        let sorted = sorted_candidates(s.drop_last());
        sorted.insert(insert_position(sorted, s.last()), s.last())
    }
}

/// The databases of a `sqlite` directory that qualify, in the order they are tried.
pub open spec fn selected_databases(entries: Seq<SqliteDirEntry>) -> Seq<Seq<char>> {
    sorted_candidates(qualifying_candidates(entries)).map_values(|c: DbCandidate| c.0)
}

/// The view of an optional string.
pub open spec fn opt_string_view(o: Option<String>) -> Option<Seq<char>> {
    match o {
        Some(n) => Some(n@),
        None => None,
    }
}

pub open spec fn candidate_view(c: (String, Option<String>)) -> DbCandidate {
    (c.0@, opt_string_view(c.1))
}

pub open spec fn candidate_views(v: Seq<(String, Option<String>)>) -> Seq<DbCandidate> {
    v.map_values(|c: (String, Option<String>)| candidate_view(c))
}

fn is_preferred_name(name: &Option<String>) -> (res: bool)
    ensures
        res == !not_preferred(opt_string_view(*name)),
{
    match name {
        Some(n) => str_eq(n.as_str(), PREFERRED_DB_FILE_NAME),
        None => false,
    }
}

fn db_key_lt(a: &Option<String>, b: &Option<String>) -> (res: bool)
    ensures
        res == db_key_less(opt_string_view(*a), opt_string_view(*b)),
{
    let pa = is_preferred_name(a);
    let pb = is_preferred_name(b);
    if pa != pb {
        pa
    } else {
        match (a, b) {
            (None, Some(_)) => true,
            (Some(x), Some(y)) => chars_lt(&chars_of(x.as_str()), &chars_of(y.as_str())),
            _ => false,
        }
    }
}

fn find_insert_position(sorted: &Vec<(String, Option<String>)>, x: &(String, Option<String>)) -> (res:
    usize)
    ensures
        res as int == insert_position(candidate_views(sorted@), candidate_view(*x)),
        res <= sorted@.len(),
{
    let ghost s = candidate_views(sorted@);
    let ghost cx = candidate_view(*x);
    let mut i: usize = 0;
    assert(s.skip(0) =~= s);
    while i < sorted.len()
        invariant
            i <= sorted.len(),
            s == candidate_views(sorted@),
            cx == candidate_view(*x),
            insert_position(s, cx) == i + insert_position(s.skip(i as int), cx),
        decreases sorted.len() - i,
    {
        assert(s.skip(i as int)[0] == s[i as int]);
        assert(s[i as int] == candidate_view(sorted@[i as int]));
        if db_key_lt(&x.1, &sorted[i].1) {
            return i;
        }
        assert(s.skip(i as int).drop_first() =~= s.skip(i + 1));
        i = i + 1;
    }
    i
}

/// The databases (path and file name) in the order they are tried:
/// `codex-dev.db` first, then by file name; a stable sort.
pub fn order_database_candidates(candidates: &Vec<(String, Option<String>)>) -> (res: Vec<String>)
    ensures
        string_views_of(res@) == sorted_candidates(candidate_views(candidates@)).map_values(
            |c: DbCandidate| c.0,
        ),
{
    let ghost cv = candidate_views(candidates@);
    let mut sorted: Vec<(String, Option<String>)> = Vec::new();
    let mut i: usize = 0;
    while i < candidates.len()
        invariant
            i <= candidates.len(),
            cv == candidate_views(candidates@),
            candidate_views(sorted@) == sorted_candidates(cv.take(i as int)),
        decreases candidates.len() - i,
    {
        assert(cv.take(i + 1).drop_last() =~= cv.take(i as int));
        assert(cv.take(i + 1).last() == candidate_view(candidates@[i as int]));
        let name = match &candidates[i].1 {
            Some(n) => Some(n.clone()),
            None => None,
        };
        let cand = (candidates[i].0.clone(), name);
        let ghost before = candidate_views(sorted@);
        let p = find_insert_position(&sorted, &cand);
        sorted.insert(p, cand);
        assert(candidate_views(sorted@) =~= before.insert(p as int, candidate_view(cand)));
        i = i + 1;
    }
    assert(cv.take(candidates.len() as int) =~= cv);
    let mut res: Vec<String> = Vec::new();
    let mut k: usize = 0;
    while k < sorted.len()
        invariant
            k <= sorted.len(),
            res@.len() == k,
            string_views_of(res@) == candidate_views(sorted@).take(k as int).map_values(
                |c: DbCandidate| c.0,
            ),
        decreases sorted.len() - k,
    {
        let ghost before = res@;
        res.push(sorted[k].0.clone());
        assert(candidate_views(sorted@)[k as int] == candidate_view(sorted@[k as int]));
        assert(res@[k as int]@ == sorted@[k as int].0@);
        let ghost lhs = string_views_of(res@);
        let ghost rhs = candidate_views(sorted@).take(k + 1).map_values(|c: DbCandidate| c.0);
        let ghost prev = candidate_views(sorted@).take(k as int).map_values(|c: DbCandidate| c.0);
        assert forall|j: int| 0 <= j < k + 1 implies lhs[j] == rhs[j] by {
            if j < k {
                assert(lhs[j] == string_views_of(before)[j]);
                assert(rhs[j] == prev[j]);
            }
        }
        assert(lhs =~= rhs);
        k = k + 1;
    }
    assert(candidate_views(sorted@).take(sorted.len() as int) =~= candidate_views(sorted@));
    res
}

/// The databases of a home's `sqlite` directory that hold one of the tables
/// asked for: files with a database extension, `codex-dev.db` first, the rest
/// by file name.
pub fn codex_sqlite_dir_dbs_with_tables(entries: &Vec<SqliteDirEntry>) -> (res: Vec<String>)
    ensures
        string_views_of(res@) == selected_databases(entries@),
{
    let mut candidates: Vec<(String, Option<String>)> = Vec::new();
    let mut i: usize = 0;
    while i < entries.len()
        invariant
            i <= entries.len(),
            candidate_views(candidates@) == qualifying_candidates(entries@.take(i as int)),
        decreases entries.len() - i,
    {
        assert(entries@.take(i + 1).drop_last() =~= entries@.take(i as int));
        let e = &entries[i];
        if e.is_file && is_sqlite_candidate(e.path.as_str()) && e.has_listed_table {
            let cand = (e.path.clone(), file_name_of(e.path.as_str()));
            let ghost before = candidate_views(candidates@);
            candidates.push(cand);
            assert(candidate_views(candidates@) =~= before.push(candidate_view(cand)));
        }
        i = i + 1;
    }
    assert(entries@.take(entries.len() as int) =~= entries@);
    order_database_candidates(&candidates)
}

/// The views of a list of strings.
pub open spec fn string_views_of(v: Seq<String>) -> Seq<Seq<char>> {
    v.map_values(|s: String| s@)
}

proof fn lemma_db_key_less_irreflexive(a: Option<Seq<char>>)
    ensures
        !db_key_less(a, a),
{
    if let Some(x) = a {
        lemma_chars_less_irreflexive(x);
    }
}

proof fn lemma_db_key_less_transitive(a: Option<Seq<char>>, b: Option<Seq<char>>, c: Option<Seq<char>>)
    requires
        db_key_less(a, b),
        db_key_less(b, c),
    ensures
        db_key_less(a, c),
{
    if not_preferred(a) == not_preferred(b) && not_preferred(b) == not_preferred(c) {
        if let (Some(x), Some(y), Some(z)) = (a, b, c) {
            lemma_chars_less_transitive(x, y, z);
        }
    }
}

/// No database is listed after one that sorts after it.
pub open spec fn candidates_in_order(s: Seq<DbCandidate>) -> bool {
    forall|i: int, j: int| 0 <= i < j < s.len() ==> !db_key_less(#[trigger] s[j].1, #[trigger] s[i].1)
}

proof fn lemma_insert_position_bounds(s: Seq<DbCandidate>, x: DbCandidate)
    ensures
        0 <= insert_position(s, x) <= s.len(),
        forall|i: int| 0 <= i < insert_position(s, x) ==> !db_key_less(x.1, #[trigger] s[i].1),
        insert_position(s, x) < s.len() ==> db_key_less(x.1, s[insert_position(s, x)].1),
    decreases s.len(),
{
    if s.len() > 0 && !db_key_less(x.1, s[0].1) {
        lemma_insert_position_bounds(s.drop_first(), x);
        let p = insert_position(s, x);
        assert forall|i: int| 0 <= i < p implies !db_key_less(x.1, #[trigger] s[i].1) by {
            if i > 0 {
                assert(s[i] == s.drop_first()[i - 1]);
            }
        }
        if p < s.len() {
            assert(s[p] == s.drop_first()[p - 1]);
        }
    }
}

proof fn lemma_insert_keeps_order(s: Seq<DbCandidate>, x: DbCandidate)
    requires
        candidates_in_order(s),
    ensures
        candidates_in_order(s.insert(insert_position(s, x), x)),
{
    lemma_insert_position_bounds(s, x);
    let p = insert_position(s, x);
    let t = s.insert(p, x);
    assert forall|i: int, j: int| 0 <= i < j < t.len() implies !db_key_less(
        #[trigger] t[j].1,
        #[trigger] t[i].1,
    ) by {
        if i < p && j < p {
            assert(t[i] == s[i] && t[j] == s[j]);
        } else if i < p && j == p {
            assert(t[i] == s[i]);
        } else if i < p {
            assert(t[i] == s[i] && t[j] == s[j - 1]);
        } else if i == p {
            assert(t[j] == s[j - 1]);
            if db_key_less(s[j - 1].1, x.1) {
                lemma_db_key_less_transitive(s[j - 1].1, x.1, s[p].1);
                if j - 1 == p {
                    lemma_db_key_less_irreflexive(s[p].1);
                } else {
                    assert(!db_key_less(s[j - 1].1, s[p].1));
                }
            }
        } else {
            assert(t[i] == s[i - 1] && t[j] == s[j - 1]);
        }
    }
}

proof fn lemma_sorted_candidates(s: Seq<DbCandidate>)
    ensures
        candidates_in_order(sorted_candidates(s)),
        sorted_candidates(s).to_multiset() == s.to_multiset(),
    decreases s.len(),
{
    if s.len() > 0 {
        lemma_sorted_candidates(s.drop_last());
        let sorted = sorted_candidates(s.drop_last());
        lemma_insert_keeps_order(sorted, s.last());
        lemma_insert_position_bounds(sorted, s.last());
        assert(s.drop_last().push(s.last()) =~= s);
    } else {
        assert(sorted_candidates(s) =~= s);
    }
}

/// The databases of a `sqlite` directory are tried in order: `codex-dev.db`
/// first, then by file name; none is listed after one that sorts after it.
pub proof fn selected_databases_are_in_order(entries: Seq<SqliteDirEntry>)
    ensures
        candidates_in_order(sorted_candidates(qualifying_candidates(entries))),
{
    lemma_sorted_candidates(qualifying_candidates(entries));
}

/// Sorting neither loses nor adds a database: the databases tried are exactly
/// the qualifying entries of the directory.
pub proof fn selected_databases_are_the_qualifying_entries(entries: Seq<SqliteDirEntry>)
    ensures
        sorted_candidates(qualifying_candidates(entries)).to_multiset() == qualifying_candidates(
            entries,
        ).to_multiset(),
{
    lemma_sorted_candidates(qualifying_candidates(entries));
}

/// The session databases of a SQLite home: those found in its `sqlite`
/// directory, then the legacy database where it is not already among them.
pub open spec fn with_legacy_db(found: Seq<Seq<char>>, home: Seq<char>) -> Seq<Seq<char>> {
    if found.contains(legacy_state_db_path_spec(home)) {
        found
    } else {
        found.push(legacy_state_db_path_spec(home))
    }
}

/// The session (and thread-reference) databases of a SQLite home always include
/// its legacy database, once it is added: it is listed after the databases found
/// in the `sqlite` directory, which keep their order.
pub proof fn legacy_database_is_always_listed(found: Seq<Seq<char>>, home: Seq<char>)
    ensures
        with_legacy_db(found, home).contains(legacy_state_db_path_spec(home)),
        with_legacy_db(found, home).subrange(0, found.len() as int) == found,
{
    let r = with_legacy_db(found, home);
    if !found.contains(legacy_state_db_path_spec(home)) {
        assert(r[found.len() as int] == legacy_state_db_path_spec(home));
    }
    assert(r.subrange(0, found.len() as int) =~= found);
}

fn contains_string(v: &Vec<String>, s: &str) -> (res: bool)
    ensures
        res == string_views_of(v@).contains(s@),
{
    let mut i: usize = 0;
    while i < v.len()
        invariant
            i <= v.len(),
            forall|k: int| 0 <= k < i ==> v@[k]@ != s@,
        decreases v.len() - i,
    {
        if str_eq(v[i].as_str(), s) {
            assert(string_views_of(v@)[i as int] == s@);
            return true;
        }
        i = i + 1;
    }
    proof {
        if string_views_of(v@).contains(s@) {
            let k = choose|k: int| 0 <= k < v@.len() && string_views_of(v@)[k] == s@;
            assert(v@[k]@ == s@);
        }
    }
    false
}

/// The session databases of a SQLite home, from the listing of its `sqlite`
/// directory (`has_listed_table`: the database holds one of `SESSION_DB_TABLES`).
pub fn codex_session_db_paths_in_home(home: &str, sqlite_dir_entries: &Vec<SqliteDirEntry>) -> (res:
    Vec<String>)
    ensures
        string_views_of(res@) == with_legacy_db(selected_databases(sqlite_dir_entries@), home@),
{
    let mut paths = codex_sqlite_dir_dbs_with_tables(sqlite_dir_entries);
    let legacy = legacy_state_db_path(home);
    if !contains_string(&paths, legacy.as_str()) {
        let ghost before = paths@;
        paths.push(legacy);
        assert(string_views_of(paths@) =~= string_views_of(before).push(legacy@));
    }
    paths
}

/// The session databases of a Codex home: those of its SQLite home (the usable
/// `CODEX_SQLITE_HOME` override, else the Codex home itself).
pub fn codex_session_db_paths_from_home(
    home: &str,
    sqlite_home_override: Option<String>,
    sqlite_dir_entries: &Vec<SqliteDirEntry>,
) -> (res: Vec<String>)
    ensures
        string_views_of(res@) == with_legacy_db(
            selected_databases(sqlite_dir_entries@),
            sqlite_home_spec(home@, sqlite_home_override),
        ),
{
    let sqlite_home = resolve_sqlite_home_home_or_default(home, sqlite_home_override);
    codex_session_db_paths_in_home(sqlite_home.as_str(), sqlite_dir_entries)
}

/// The databases that may reference threads: those of the SQLite home's
/// `sqlite` directory holding one of `THREAD_REFERENCE_DB_TABLES`, then the
/// legacy database where it is not already among them.
pub fn codex_thread_reference_db_paths_from_home(
    home: &str,
    sqlite_home_override: Option<String>,
    sqlite_dir_entries: &Vec<SqliteDirEntry>,
) -> (res: Vec<String>)
    ensures
        string_views_of(res@) == with_legacy_db(
            selected_databases(sqlite_dir_entries@),
            sqlite_home_spec(home@, sqlite_home_override),
        ),
{
    let sqlite_home = resolve_sqlite_home_home_or_default(home, sqlite_home_override);
    codex_session_db_paths_in_home(sqlite_home.as_str(), sqlite_dir_entries)
}

/// The first index whose flag is set, if any.
pub open spec fn first_set(flags: Seq<bool>) -> Option<int>
    decreases flags.len(),
{
    if flags.len() == 0 {
        None
    } else if flags[0] {
        Some(0)
    } else {
        match first_set(flags.drop_first()) {
            Some(k) => Some(k + 1),
            None => None,
        }
    }
}

proof fn lemma_first_set(flags: Seq<bool>)
    ensures
        match first_set(flags) {
            Some(k) => 0 <= k < flags.len() && flags[k] && forall|j: int|
                0 <= j < k ==> !#[trigger] flags[j],
            None => forall|j: int| 0 <= j < flags.len() ==> !#[trigger] flags[j],
        },
    decreases flags.len(),
{
    if flags.len() > 0 && !flags[0] {
        let rest = flags.drop_first();
        lemma_first_set(rest);
        assert forall|j: int| 0 < j < flags.len() implies flags[j] == rest[j - 1] by {}
    }
}

/// The session database is the first candidate that holds a `threads` table:
/// where candidate `k` holds one and none before it does, it is candidate `k`;
/// where none holds one, it is the first candidate, or the legacy database of
/// the home where there is no candidate.
pub proof fn session_database_is_first_with_threads_table(
    home: Seq<char>,
    paths: Seq<Seq<char>>,
    has_threads_table: Seq<bool>,
    k: int,
)
    requires
        paths.len() == has_threads_table.len(),
    ensures
        0 <= k < paths.len() && has_threads_table[k] && (forall|j: int|
            0 <= j < k ==> !#[trigger] has_threads_table[j]) ==> session_db_choice(
            home,
            paths,
            has_threads_table,
        ) == paths[k],
        (forall|j: int| 0 <= j < paths.len() ==> !#[trigger] has_threads_table[j]) ==> session_db_choice(
            home,
            paths,
            has_threads_table,
        ) == if paths.len() > 0 {
            paths[0]
        } else {
            legacy_state_db_path_spec(home)
        },
{
    lemma_first_set(has_threads_table);
    if 0 <= k < paths.len() && has_threads_table[k] && (forall|j: int|
        0 <= j < k ==> !#[trigger] has_threads_table[j]) {
        match first_set(has_threads_table) {
            Some(f) => {
                if f < k {
                    assert(!has_threads_table[f]);
                } else if f > k {
                    assert(!has_threads_table[k]);
                }
            },
            None => {
                assert(!has_threads_table[k]);
            },
        }
    }
    if forall|j: int| 0 <= j < paths.len() ==> !#[trigger] has_threads_table[j] {
        match first_set(has_threads_table) {
            Some(f) => {
                assert(has_threads_table[f]);
            },
            None => {},
        }
    }
}

/// The session database to use: the first candidate holding a `threads` table,
/// else the first candidate, else the legacy database.
pub open spec fn session_db_choice(
    home: Seq<char>,
    paths: Seq<Seq<char>>,
    has_threads_table: Seq<bool>,
) -> Seq<char> {
    match first_set(has_threads_table) {
        Some(k) => paths[k],
        None => if paths.len() > 0 {
            paths[0]
        } else {
            legacy_state_db_path_spec(home)
        },
    }
}

/// The session database of a Codex home, from its candidates (`paths`, as
/// `codex_session_db_paths_from_home` lists them) and whether each holds a
/// `threads` table.
pub fn codex_session_db_path_from_home(
    home: &str,
    paths: &Vec<String>,
    has_threads_table: &Vec<bool>,
) -> (res: String)
    requires
        paths.len() == has_threads_table.len(),
    ensures
        res@ == session_db_choice(home@, string_views_of(paths@), has_threads_table@),
        forall|k: int|
            0 <= k < paths.len() && #[trigger] has_threads_table@[k] && (forall|j: int|
                0 <= j < k ==> !#[trigger] has_threads_table@[j]) ==> res@ == paths@[k]@,
        (forall|j: int| 0 <= j < paths.len() ==> !#[trigger] has_threads_table@[j]) ==> res@ == if paths.len()
            > 0 {
            paths@[0]@
        } else {
            legacy_state_db_path_spec(home@)
        },
{
    proof {
        assert forall|k: int|
            0 <= k < paths.len() && #[trigger] has_threads_table@[k] && (forall|j: int|
                0 <= j < k ==> !#[trigger] has_threads_table@[j]) implies session_db_choice(
            home@,
            string_views_of(paths@),
            has_threads_table@,
        ) == paths@[k]@ by {
            session_database_is_first_with_threads_table(
                home@,
                string_views_of(paths@),
                has_threads_table@,
                k,
            );
        }
        session_database_is_first_with_threads_table(
            home@,
            string_views_of(paths@),
            has_threads_table@,
            0,
        );
    }
    let ghost flags = has_threads_table@;
    let mut i: usize = 0;
    assert(flags.skip(0) =~= flags);
    while i < has_threads_table.len()
        invariant
            i <= has_threads_table.len() == paths.len(),
            flags == has_threads_table@,
            forall|k: int| 0 <= k < i ==> !flags[k],
            first_set(flags) == match first_set(flags.skip(i as int)) {
                Some(k) => Some(k + i),
                None => None,
            },
        decreases has_threads_table.len() - i,
    {
        assert(flags.skip(i as int)[0] == flags[i as int]);
        if has_threads_table[i] {
            return paths[i].clone();
        }
        assert(flags.skip(i as int).drop_first() =~= flags.skip(i + 1));
        i = i + 1;
    }
    assert(flags.skip(i as int).len() == 0);
    if paths.len() > 0 {
        paths[0].clone()
    } else {
        legacy_state_db_path(home)
    }
}

/// What a model-suffix cleanup of the thread databases counted: the rows it
/// looked at and the rows it rewrote.
#[derive(Clone, Copy, Debug, PartialEq, Eq)]
pub struct SanitizeModelSuffixResult {
    pub scanned: usize,
    pub updated: usize,
}

impl Default for SanitizeModelSuffixResult {
    fn default() -> (res: Self)
        ensures
            res.scanned == 0 && res.updated == 0,
    {
        SanitizeModelSuffixResult { scanned: 0, updated: 0 }
    }
}

/// The total of the first counts.
pub open spec fn total_scanned(counts: Seq<(usize, usize)>) -> int
    decreases counts.len(),
{
    if counts.len() == 0 {
        0
    } else {
        total_scanned(counts.drop_last()) + counts.last().0
    }
}

/// The total of the second counts.
pub open spec fn total_updated(counts: Seq<(usize, usize)>) -> int
    decreases counts.len(),
{
    if counts.len() == 0 {
        0
    } else {
        total_updated(counts.drop_last()) + counts.last().1
    }
}

proof fn lemma_totals_grow(counts: Seq<(usize, usize)>, i: int)
    requires
        0 <= i <= counts.len(),
    ensures
        total_scanned(counts.take(i)) <= total_scanned(counts),
        total_updated(counts.take(i)) <= total_updated(counts),
    decreases counts.len() - i,
{
    if i < counts.len() {
        lemma_totals_grow(counts, i + 1);
        assert(counts.take(i + 1).drop_last() =~= counts.take(i));
    } else {
        assert(counts.take(i) =~= counts);
    }
}

/// Each database's rewrites are no more than its scanned rows.
pub open spec fn counts_bounded(counts: Seq<(usize, usize)>) -> bool {
    forall|i: int| 0 <= i < counts.len() ==> (#[trigger] counts[i]).1 <= counts[i].0
}

proof fn lemma_bounded_totals(counts: Seq<(usize, usize)>)
    requires
        counts_bounded(counts),
    ensures
        total_updated(counts) <= total_scanned(counts),
    decreases counts.len(),
{
    if counts.len() > 0 {
        assert(counts_bounded(counts.drop_last())) by {
            assert forall|i: int| 0 <= i < counts.drop_last().len() implies (
            #[trigger] counts.drop_last()[i]).1 <= counts.drop_last()[i].0 by {
                assert(counts.drop_last()[i] == counts[i]);
            }
        }
        lemma_bounded_totals(counts.drop_last());
        assert(counts[counts.len() - 1] == counts.last());
    }
}

/// The cleanup's result over the databases cleaned, from the `(scanned,
/// updated)` counts of each: their totals, the rewrites never more than the
/// rows scanned.
pub fn sanitize_thread_model_suffixes(per_database: &Vec<(usize, usize)>) -> (res:
    SanitizeModelSuffixResult)
    requires
        total_scanned(per_database@) <= usize::MAX,
        total_updated(per_database@) <= usize::MAX,
        counts_bounded(per_database@),
    ensures
        res.scanned == total_scanned(per_database@),
        res.updated == total_updated(per_database@),
        res.updated <= res.scanned,
{
    proof {
        lemma_bounded_totals(per_database@);
    }
    let mut result = SanitizeModelSuffixResult::default();
    let mut i: usize = 0;
    while i < per_database.len()
        invariant
            i <= per_database.len(),
            total_scanned(per_database@) <= usize::MAX,
            total_updated(per_database@) <= usize::MAX,
            result.scanned == total_scanned(per_database@.take(i as int)),
            result.updated == total_updated(per_database@.take(i as int)),
        decreases per_database.len() - i,
    {
        assert(per_database@.take(i + 1).drop_last() =~= per_database@.take(i as int));
        proof {
            lemma_totals_grow(per_database@, i + 1);
        }
        let (scanned, updated) = per_database[i];
        result.scanned = result.scanned + scanned;
        result.updated = result.updated + updated;
        i = i + 1;
    }
    assert(per_database@.take(per_database.len() as int) =~= per_database@);
    result
}


/// A `threads` row as the cleanup reads it: its `id` and its `model`.
pub open spec fn row_view(row: (String, String)) -> (Seq<char>, Seq<char>) {
    (row.0@, row.1@)
}

pub open spec fn row_views(rows: Seq<(String, String)>) -> Seq<(Seq<char>, Seq<char>)> {
    rows.map_values(|r: (String, String)| row_view(r))
}

/// The number of rows whose model holds a `[`: the rows the cleanup scans.
pub open spec fn scanned_rows(rows: Seq<(Seq<char>, Seq<char>)>) -> nat
    decreases rows.len(),
{
    if rows.len() == 0 {
        0
    } else {
        scanned_rows(rows.drop_last()) + if rows.last().1.contains('[') {
            1nat
        } else {
            0nat
        }
    }
}

/// The rows the cleanup rewrites, in order, each as its id and its new model:
/// those whose model ends in a window suffix get the model's slug.
pub open spec fn planned_updates(rows: Seq<(Seq<char>, Seq<char>)>) -> Seq<(Seq<char>, Seq<char>)>
    decreases rows.len(),
{
    if rows.len() == 0 {
        Seq::empty()
    } else {
        let rest = planned_updates(rows.drop_last());
        match model_suffix_slug(rows.last().1) {
            Some(slug) => rest.push((rows.last().0, slug)),
            None => rest,
        }
    }
}

/// A plan never rewrites more rows than it scans: every row it rewrites has a
/// model that ends in a window suffix, so holds a `[`.
pub proof fn plan_rewrites_never_outnumber_scanned_rows(rows: Seq<(Seq<char>, Seq<char>)>)
    ensures
        planned_updates(rows).len() <= scanned_rows(rows),
    decreases rows.len(),
{
    if rows.len() > 0 {
        plan_rewrites_never_outnumber_scanned_rows(rows.drop_last());
        let m = rows.last().1;
        if let Some(slug) = model_suffix_slug(m) {
            let d = digits_start(m, m.len() - 2);
            assert(m[d - 1] == '[');
            assert(m.contains('['));
        }
    }
}

/// What the cleanup does to the `threads` rows of one session database.
pub struct ThreadModelPlan {
    /// How many rows hold a `[` in their model.
    pub scanned: usize,
    /// The rows to rewrite, in order: each row's `id` and its new `model`.
    pub updates: Vec<(String, String)>,
}

fn contains_open_bracket(s: &str) -> (res: bool)
    ensures
        res == s@.contains('['),
{
    let chars = chars_of(s);
    let mut i: usize = 0;
    while i < chars.len()
        invariant
            i <= chars.len(),
            chars@ == s@,
            forall|k: int| 0 <= k < i ==> chars@[k] != '[',
        decreases chars.len() - i,
    {
        if chars[i] == '[' {
            assert(s@[i as int] == '[');
            return true;
        }
        i = i + 1;
    }
    false
}

/// The plan for the `(id, model)` rows of a database's `threads` table: the
/// rows scanned are those whose model holds a `[`; each whose model ends in a
/// window suffix (`glm-5.2[1M]`) is rewritten to the model's slug
/// (`glm-5.2`), and every other row is left alone.
pub fn plan_thread_model_updates(rows: &Vec<(String, String)>) -> (res: ThreadModelPlan)
    ensures
        res.scanned == scanned_rows(row_views(rows@)),
        row_views(res.updates@) == planned_updates(row_views(rows@)),
        res.updates@.len() <= res.scanned,
{
    proof {
        plan_rewrites_never_outnumber_scanned_rows(row_views(rows@));
    }
    let mut scanned: usize = 0;
    let mut updates: Vec<(String, String)> = Vec::new();
    let mut i: usize = 0;
    while i < rows.len()
        invariant
            i <= rows.len(),
            scanned == scanned_rows(row_views(rows@).take(i as int)),
            scanned <= i,
            row_views(updates@) == planned_updates(row_views(rows@).take(i as int)),
        decreases rows.len() - i,
    {
        let ghost done = row_views(rows@).take(i as int);
        let ghost next = row_views(rows@).take(i + 1);
        assert(next.drop_last() =~= done);
        assert(next.last() == row_view(rows@[i as int]));
        let (id, model) = &rows[i];
        if contains_open_bracket(model.as_str()) {
            scanned = scanned + 1;
        }
        match model_suffix_slug_of(model.as_str()) {
            Some(slug) => {
                let ghost before = updates@;
                updates.push((id.clone(), slug));
                assert(row_views(updates@) =~= row_views(before).push((id@, slug@)));
            },
            None => {},
        }
        i = i + 1;
    }
    assert(row_views(rows@).take(rows.len() as int) =~= row_views(rows@));
    ThreadModelPlan { scanned, updates }
}

} // verus!
