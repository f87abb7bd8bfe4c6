use std::path::PathBuf;

use codex_plus_core::codex_sqlite::{
    codex_logs_db_path_from_home, codex_session_db_path_from_home, codex_session_db_paths_from_home,
    codex_session_db_paths_in_home, codex_sqlite_dir_dbs_with_tables, codex_sqlite_sidecar_paths,
    codex_thread_reference_db_paths_from_home, has_any_table, is_sqlite_candidate,
    legacy_state_db_path, plan_thread_model_updates, relative_to_codex_home, resolve_sqlite_home,
    resolve_sqlite_home_home_or_default, sanitize_thread_model_suffixes, SanitizeModelSuffixResult,
    SqliteDirEntry,
};
use codex_plus_core::model_suffix::{
    model_suffix_slug_of, sanitize_model_suffixes_in_text, sanitized_log_body,
};

fn path(p: PathBuf) -> String {
    p.to_string_lossy().into_owned()
}

fn entry(p: &str, is_file: bool, has_listed_table: bool) -> SqliteDirEntry {
    SqliteDirEntry { path: p.to_string(), is_file, has_listed_table }
}

#[test]
fn strips_trailing_suffix_from_model_names() {
    assert_eq!(
        sanitize_model_suffixes_in_text("model=deepseek-v4-flash[1M]"),
        "model=deepseek-v4-flash"
    );
    assert_eq!(
        sanitize_model_suffixes_in_text("nvidia/nemotron-3-super-120b-a12b:free[1M]"),
        "nvidia/nemotron-3-super-120b-a12b:free"
    );
    assert_eq!(sanitize_model_suffixes_in_text("glm-5.2[1M]"), "glm-5.2");
}

#[test]
fn leaves_non_model_brackets_unchanged() {
    assert_eq!(
        sanitize_model_suffixes_in_text("array[0] and foo[bar]"),
        "array[0] and foo[bar]"
    );
    assert_eq!(
        sanitize_model_suffixes_in_text("some [placeholder] text"),
        "some [placeholder] text"
    );
}

#[test]
fn leaves_text_without_brackets_unchanged() {
    let text = "no suffix here";
    assert_eq!(sanitize_model_suffixes_in_text(text), text);
}

#[test]
fn strips_every_window_suffix_in_a_log_line() {
    assert_eq!(
        sanitize_model_suffixes_in_text("switch from glm-5.2[200k] to kimi_k2[1m] done"),
        "switch from glm-5.2 to kimi_k2 done"
    );
    // A suffix that follows another suffix is not preceded by a model id.
    assert_eq!(sanitize_model_suffixes_in_text("a[1M][2K]"), "a[2K]");
    // A suffix without a model id in front of it stays.
    assert_eq!(sanitize_model_suffixes_in_text("[1M] alone"), "[1M] alone");
    // Digits without a unit, or a unit without digits, stay.
    assert_eq!(sanitize_model_suffixes_in_text("m[12]"), "m[12]");
    assert_eq!(sanitize_model_suffixes_in_text("m[K]"), "m[K]");
    assert_eq!(sanitize_model_suffixes_in_text("m[1G]"), "m[1G]");
    assert_eq!(sanitize_model_suffixes_in_text("m[1M"), "m[1M");
    assert_eq!(sanitize_model_suffixes_in_text(""), "");
    // Only a model id character right before the bracket lets the suffix go.
    assert_eq!(sanitize_model_suffixes_in_text("a-b [1M]"), "a-b [1M]");
    assert_eq!(sanitize_model_suffixes_in_text("(x)[1M]"), "(x)[1M]");
    assert_eq!(sanitize_model_suffixes_in_text("模型[1M]"), "模型");
    let long = "text with qwen3[32k] inside";
    assert!(sanitize_model_suffixes_in_text(long).len() <= long.len());
}

#[test]
fn log_body_is_rewritten_only_when_it_changes() {
    assert_eq!(sanitized_log_body("model=glm-5.2[1M]"), Some("model=glm-5.2".to_string()));
    assert_eq!(sanitized_log_body("array[0]"), None);
}

#[test]
fn resolves_existing_sqlite_home() {
    assert_eq!(
        resolve_sqlite_home(Some("/data/codex-sqlite"), true),
        Some("/data/codex-sqlite".to_string())
    );
}

#[test]
fn ignores_missing_sqlite_home() {
    assert_eq!(resolve_sqlite_home(Some("/data/missing"), false), None);
    assert_eq!(resolve_sqlite_home(Some(""), true), None);
    assert_eq!(resolve_sqlite_home(None, true), None);
}

#[test]
fn resolves_sqlite_home_override_from_env_before_home() {
    let override_home = resolve_sqlite_home(Some("/tmp/sqlite-override"), true);
    assert_eq!(
        resolve_sqlite_home_home_or_default("/tmp/home", override_home),
        "/tmp/sqlite-override"
    );
    assert_eq!(resolve_sqlite_home_home_or_default("/tmp/home", None), "/tmp/home");
}

#[test]
fn finds_session_databases_relative_to_sqlite_home() {
    let home = PathBuf::from("/tmp/codex-home");
    let database = home.join("sqlite").join("codex-dev.db");
    let entries = vec![entry(&path(database.clone()), true, true)];
    let paths = codex_session_db_paths_in_home(&path(home.clone()), &entries);
    assert_eq!(paths, vec![path(database), path(home.join("state_5.sqlite"))]);
}

#[test]
fn session_thread_reference_and_logs_paths_share_sqlite_home_override() {
    let home = PathBuf::from("/tmp/t/home");
    let sqlite_home = PathBuf::from("/tmp/t/sqlite-override");
    let thread_reference_db = sqlite_home.join("sqlite").join("threads-reference.db");
    let session_db = sqlite_home.join("state_5.sqlite");
    let legacy_session = home.join("state_5.sqlite");
    let override_home = Some(path(sqlite_home.clone()));

    let session_entries: Vec<SqliteDirEntry> =
        vec![entry(&path(thread_reference_db.clone()), true, true)];
    let session_paths =
        codex_session_db_paths_from_home(&path(home.clone()), override_home.clone(), &session_entries);
    let thread_reference_paths = codex_thread_reference_db_paths_from_home(
        &path(home.clone()),
        override_home.clone(),
        &session_entries,
    );
    let logs_path = codex_logs_db_path_from_home(&path(home.clone()), override_home);

    assert!(session_paths.contains(&path(session_db)));
    assert!(!session_paths.iter().any(|p| p == &path(legacy_session.clone())));
    assert_eq!(logs_path, path(sqlite_home.join("logs_2.sqlite")));
    assert!(thread_reference_paths.contains(&path(thread_reference_db)));
    assert!(!thread_reference_paths.iter().any(|p| p == &path(legacy_session.clone())));
}

#[test]
fn missing_override_falls_back_to_codex_home() {
    let home = PathBuf::from("/tmp/t2/home");
    let home_db = home.join("sqlite").join("codex-dev.db");
    let override_home = resolve_sqlite_home(Some("/tmp/t2/missing-sqlite-home"), false);
    let entries = vec![entry(&path(home_db.clone()), true, true)];
    let session_paths = codex_session_db_paths_from_home(&path(home.clone()), override_home.clone(), &entries);
    assert!(session_paths.contains(&path(home_db)));
    assert_eq!(
        codex_logs_db_path_from_home(&path(home.clone()), override_home),
        path(home.join("logs_2.sqlite"))
    );
}

#[test]
fn sqlite_directory_prefers_codex_dev_then_sorts_by_name() {
    let dir = PathBuf::from("/h/sqlite");
    let entries = vec![
        entry(&path(dir.join("zeta.sqlite")), true, true),
        entry(&path(dir.join("alpha.db")), true, true),
        entry(&path(dir.join("codex-dev.db")), true, true),
        entry(&path(dir.join("notes.txt")), true, true),
        entry(&path(dir.join("empty.sqlite3")), true, false),
        entry(&path(dir.join("folder.db")), false, true),
        entry(&path(dir.join("beta.sqlite3")), true, true),
    ];
    assert_eq!(
        codex_sqlite_dir_dbs_with_tables(&entries),
        vec![
            path(dir.join("codex-dev.db")),
            path(dir.join("alpha.db")),
            path(dir.join("beta.sqlite3")),
            path(dir.join("zeta.sqlite")),
        ]
    );
}

#[test]
fn legacy_database_is_not_listed_twice() {
    let home = PathBuf::from("/h");
    let legacy = path(home.join("state_5.sqlite"));
    let entries = vec![entry(&legacy, true, true)];
    assert_eq!(legacy_state_db_path("/h"), legacy);
    // The legacy database does not live in the `sqlite` directory, but if a
    // listing names it, it is kept once.
    let paths = codex_session_db_paths_in_home("/h", &entries);
    assert_eq!(paths, vec![legacy]);
}

#[test]
fn session_database_prefers_one_with_threads() {
    let paths = vec!["/h/sqlite/a.db".to_string(), "/h/state_5.sqlite".to_string()];
    assert_eq!(codex_session_db_path_from_home("/h", &paths, &vec![false, true]), "/h/state_5.sqlite");
    assert_eq!(codex_session_db_path_from_home("/h", &paths, &vec![false, false]), "/h/sqlite/a.db");
    assert_eq!(codex_session_db_path_from_home("/h", &vec![], &vec![]), "/h/state_5.sqlite");
}

#[test]
fn sidecar_and_relative_paths() {
    let [db, wal, shm] = codex_sqlite_sidecar_paths("/h/state_5.sqlite");
    assert_eq!(db, "/h/state_5.sqlite");
    assert_eq!(wal, "/h/state_5.sqlite-wal");
    assert_eq!(shm, "/h/state_5.sqlite-shm");
    assert_eq!(relative_to_codex_home("/h", "/h/sqlite/a.db"), "sqlite/a.db");
    assert_eq!(relative_to_codex_home("/h", "/elsewhere/a.db"), "/elsewhere/a.db");
}

#[test]
fn database_extensions_and_tables() {
    assert!(is_sqlite_candidate("/h/a.db"));
    assert!(is_sqlite_candidate("/h/a.sqlite"));
    assert!(is_sqlite_candidate("/h/a.sqlite3"));
    assert!(!is_sqlite_candidate("/h/a.txt"));
    assert!(!is_sqlite_candidate("/h/.db"));
    assert!(has_any_table(&vec![false, true]));
    assert!(!has_any_table(&vec![false, false]));
    assert!(!has_any_table(&vec![]));
}

#[test]
fn cleanup_counts_add_up() {
    let result = sanitize_thread_model_suffixes(&vec![(3, 1), (4, 2)]);
    assert_eq!(result, SanitizeModelSuffixResult { scanned: 7, updated: 3 });
    assert_eq!(sanitize_thread_model_suffixes(&vec![]), SanitizeModelSuffixResult::default());
}

#[test]
fn thread_model_slug_strips_a_trailing_window_suffix() {
    assert_eq!(model_suffix_slug_of("glm-5.2[1M]"), Some("glm-5.2".to_string()));
    assert_eq!(model_suffix_slug_of("deepseek-v4[200k]"), Some("deepseek-v4".to_string()));
    assert_eq!(model_suffix_slug_of("nvidia/nemotron:free[32K]"), Some("nvidia/nemotron:free".to_string()));
    assert_eq!(model_suffix_slug_of("glm-5.2"), None);
    assert_eq!(model_suffix_slug_of("[1M]"), None);
    assert_eq!(model_suffix_slug_of("glm [1M]"), None);
    assert_eq!(model_suffix_slug_of("glm[M]"), None);
    assert_eq!(model_suffix_slug_of("glm[1G]"), None);
    assert_eq!(model_suffix_slug_of("glm[1M] x"), None);
    assert_eq!(model_suffix_slug_of("a[1M][2K]"), None);
}

#[test]
fn thread_model_plan_rewrites_only_suffixed_models() {
    let rows = vec![
        ("t1".to_string(), "glm-5.2[1M]".to_string()),
        ("t2".to_string(), "gpt-5".to_string()),
        ("t3".to_string(), "array[0]".to_string()),
        ("t4".to_string(), "kimi[128k]".to_string()),
    ];
    let plan = plan_thread_model_updates(&rows);
    assert_eq!(plan.scanned, 3);
    assert_eq!(
        plan.updates,
        vec![("t1".to_string(), "glm-5.2".to_string()), ("t4".to_string(), "kimi".to_string())]
    );
    let empty = plan_thread_model_updates(&Vec::new());
    assert_eq!(empty.scanned, 0);
    assert!(empty.updates.is_empty());
}

#[test]
fn window_suffix_after_a_space_is_left_alone() {
    assert_eq!(sanitize_model_suffixes_in_text("a b [2K] c"), "a b [2K] c");
    assert_eq!(sanitize_model_suffixes_in_text("x=[1M] and glm[1M]"), "x=[1M] and glm");
}
