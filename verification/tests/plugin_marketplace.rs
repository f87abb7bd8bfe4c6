use std::path::{Path, PathBuf};

use codex_plus_core::marketplace_config::{
    marketplace_config_points_to_root, merge_marketplace_configs_into_text,
    normalize_windows_extended_path, windows_extended_path,
};
use codex_plus_core::plugin_marketplace::{
    ensure_marketplace_configs, ensure_openai_curated_marketplace_config,
    ensure_openai_curated_remote_marketplace_available,
    ensure_openai_curated_remote_marketplace_config, ensure_role_specific_plugins_marketplace_config,
    local_marketplace_plugin_names, local_openai_curated_marketplace_root,
    local_openai_curated_remote_marketplace_root, local_role_specific_plugins_marketplace_root,
    openai_curated_marketplace_status, openai_curated_remote_marketplace_status,
    preserve_openai_curated_remote_marketplace_config, safe_zip_path, zip_entry_relative_path,
    marketplace_manifest_from_text, plugin_names_in_manifest, validate_marketplace_snapshot,
    ManifestError, MarketplaceManifest, MarketplacePluginEntry, SnapshotError, ZipPathError,
    OPENAI_CURATED_MARKETPLACE,
};
use toml_edit::{DocumentMut, Item};

fn s(p: PathBuf) -> String {
    p.to_string_lossy().into_owned()
}

fn manifest(name: &str, plugins: &[&str]) -> String {
    let entries: Vec<String> = plugins.iter().map(|p| format!("{{\"name\": \"{p}\"}}")).collect();
    format!("{{\"name\": \"{name}\", \"plugins\": [{}]}}", entries.join(", "))
}

fn curated_root(home: &Path) -> String {
    let m = manifest("openai-curated", &["gmail"]);
    local_openai_curated_marketplace_root(&s(home.to_path_buf()), Some(m.as_str()), true).unwrap().unwrap()
}

fn remote_root(home: &Path) -> String {
    let m = manifest("openai-curated-remote", &["product-design"]);
    local_openai_curated_remote_marketplace_root(&s(home.to_path_buf()), Some(m.as_str()), true).unwrap().unwrap()
}

fn role_specific(home: &Path) -> (String, Vec<String>) {
    let m = manifest(
        "role-specific-plugins",
        &["sales", "data-analytics", "product-design", "financial-markets", "customer-support"],
    );
    let root = local_role_specific_plugins_marketplace_root(&s(home.to_path_buf()), Some(m.as_str()), true)
        .unwrap()
        .unwrap();
    (root, local_marketplace_plugin_names(&m, "role-specific-plugins").unwrap())
}

#[test]
fn ensure_openai_curated_marketplace_config_registers_local_marketplace() {
    let home = Path::new("/tmp/curated-home");
    let root = curated_root(home);
    let remote = remote_root(home);

    let edit = ensure_openai_curated_marketplace_config("", Some(&root), Some(&remote)).unwrap();

    assert!(edit.changed);
    let parsed = edit.contents.parse::<DocumentMut>().unwrap();
    assert_eq!(parsed["marketplaces"]["openai-curated"]["source_type"].as_str(), Some("local"));
    assert_eq!(
        parsed["marketplaces"]["openai-curated"]["source"].as_str(),
        Some(format!(r"\\?\{}", home.join(".tmp").join("plugins").display()).as_str())
    );
    assert_eq!(parsed["marketplaces"]["openai-api-curated"]["source_type"].as_str(), Some("local"));
    assert_eq!(
        parsed["marketplaces"]["openai-api-curated"]["source"].as_str(),
        Some(format!(r"\\?\{}", home.join(".tmp").join("plugins").display()).as_str())
    );
    assert_eq!(
        parsed["marketplaces"]["openai-curated-remote"]["source_type"].as_str(),
        Some("local")
    );
    assert_eq!(
        parsed["marketplaces"]["openai-curated-remote"]["source"].as_str(),
        Some(format!(r"\\?\{}", home.join(".tmp").join("plugins-remote").display()).as_str())
    );
}

#[test]
fn ensure_openai_curated_marketplace_config_skips_when_snapshot_missing() {
    let edit = ensure_openai_curated_marketplace_config("", None, None).unwrap();

    assert!(!edit.changed);
    assert_eq!(edit.contents, "");
}

#[test]
fn ensure_role_specific_plugins_marketplace_config_repairs_installed_plugin_entries() {
    let home = Path::new("/tmp/role-home");
    let (root, names) = role_specific(home);
    let config = "model_provider = \"custom\"\nexperimental_bearer_token = \"sk-redacted\"\n";

    let edit = ensure_role_specific_plugins_marketplace_config(config, Some(&root), &names).unwrap();

    assert!(edit.changed);
    let parsed = edit.contents.parse::<DocumentMut>().unwrap();
    assert_eq!(
        parsed["marketplaces"]["role-specific-plugins"]["source_type"].as_str(),
        Some("local")
    );
    assert_eq!(
        parsed["marketplaces"]["role-specific-plugins"]["source"].as_str(),
        Some(
            format!(
                r"\\?\{}",
                home.join(".tmp").join("marketplaces").join("role-specific-plugins").display()
            )
            .as_str()
        )
    );
    for plugin in [
        "sales@role-specific-plugins",
        "data-analytics@role-specific-plugins",
        "product-design@role-specific-plugins",
        "financial-markets@role-specific-plugins",
        "customer-support@role-specific-plugins",
    ] {
        assert_eq!(parsed["plugins"][plugin]["enabled"].as_bool(), Some(true));
    }
    assert_eq!(parsed["experimental_bearer_token"].as_str(), Some("sk-redacted"));
}

#[test]
fn ensure_role_specific_plugins_marketplace_config_preserves_disabled_plugin_choice() {
    let home = Path::new("/tmp/role-home-2");
    let (root, names) = role_specific(home);
    let config = "[plugins.\"sales@role-specific-plugins\"]\nenabled = false\n";

    let edit = ensure_role_specific_plugins_marketplace_config(config, Some(&root), &names).unwrap();

    assert!(edit.changed);
    let parsed = edit.contents.parse::<DocumentMut>().unwrap();
    assert_eq!(parsed["plugins"]["sales@role-specific-plugins"]["enabled"].as_bool(), Some(false));
    assert_eq!(
        parsed["plugins"]["customer-support@role-specific-plugins"]["enabled"].as_bool(),
        Some(true)
    );
}

#[test]
fn openai_curated_marketplace_status_detects_missing_config() {
    let home = Path::new("/tmp/status-home");
    let root = curated_root(home);

    let status = openai_curated_marketplace_status(None, Some(root), None);

    assert!(status.marketplace_root.is_some());
    assert!(!status.config_registered);
    assert!(status.needs_repair());
}

#[test]
fn openai_curated_marketplace_status_requires_api_marketplace_config() {
    let home = Path::new("/tmp/status-home-2");
    let root = curated_root(home);
    let remote = remote_root(home);
    let config = ensure_marketplace_configs("", &vec![OPENAI_CURATED_MARKETPLACE.to_string()], &root)
        .unwrap()
        .contents;

    let status = openai_curated_marketplace_status(Some(&config), Some(root), Some(remote));

    assert!(status.marketplace_root.is_some());
    assert!(!status.config_registered);
    assert!(status.needs_repair());
}

#[test]
fn openai_curated_remote_marketplace_status_detects_cached_marketplace() {
    let home = Path::new("/tmp/status-home-3");
    let root = remote_root(home);

    let status = openai_curated_remote_marketplace_status(None, Some(root));

    assert_eq!(
        status.marketplace_root,
        Some(s(home.join(".tmp").join("plugins-remote")))
    );
    assert!(!status.config_registered);
    assert!(status.needs_repair());
}

#[test]
fn ensure_openai_curated_remote_marketplace_config_registers_remote_only() {
    let home = Path::new("/tmp/remote-home");
    let remote = remote_root(home);

    let edit = ensure_openai_curated_remote_marketplace_config("", Some(&remote)).unwrap();

    assert!(edit.changed);
    let parsed = edit.contents.parse::<DocumentMut>().unwrap();
    assert!(parsed
        .get("marketplaces")
        .and_then(Item::as_table)
        .and_then(|marketplaces| marketplaces.get("openai-curated"))
        .is_none());
    assert_eq!(
        parsed["marketplaces"]["openai-curated-remote"]["source_type"].as_str(),
        Some("local")
    );
    assert_eq!(
        parsed["marketplaces"]["openai-curated-remote"]["source"].as_str(),
        Some(format!(r"\\?\{}", home.join(".tmp").join("plugins-remote").display()).as_str())
    );
}

#[test]
fn zip_entry_relative_path_strips_archive_root_and_rejects_escape() {
    assert_eq!(
        zip_entry_relative_path("plugins-main/plugins/gmail/file.txt").map(PathBuf::from),
        Some(PathBuf::from("plugins").join("gmail").join("file.txt"))
    );
    assert_eq!(zip_entry_relative_path("plugins-main/../evil.txt"), None);
    assert_eq!(zip_entry_relative_path("../evil.txt"), None);
}

#[test]
fn zip_entry_paths_skip_the_archive_root_itself() {
    assert_eq!(zip_entry_relative_path("plugins-main/"), None);
    assert_eq!(zip_entry_relative_path("plugins-main/./a.txt"), Some("a.txt".to_string()));
    assert_eq!(zip_entry_relative_path("/etc/passwd"), None);
    assert_eq!(zip_entry_relative_path(""), None);
}

#[test]
fn safe_zip_path_keeps_whole_path_and_rejects_escape() {
    assert_eq!(safe_zip_path("plugins/a/b.json"), Ok("plugins/a/b.json".to_string()));
    assert_eq!(safe_zip_path("./plugins/x"), Ok("plugins/x".to_string()));
    assert_eq!(safe_zip_path("plugins/../../x"), Err(ZipPathError::EscapesDestination));
    assert_eq!(safe_zip_path("/abs"), Err(ZipPathError::EscapesDestination));
    assert_eq!(safe_zip_path("."), Err(ZipPathError::EmptyPath));
}

#[test]
fn registering_twice_changes_nothing_the_second_time() {
    let home = Path::new("/tmp/twice-home");
    let root = remote_root(home);
    let first = ensure_openai_curated_remote_marketplace_config("model = \"x\"\n", Some(&root)).unwrap();
    assert!(first.changed);
    let second = ensure_openai_curated_remote_marketplace_config(&first.contents, Some(&root)).unwrap();
    assert!(!second.changed);
    assert_eq!(second.contents, first.contents);
    assert!(marketplace_config_points_to_root(
        Some(&first.contents),
        "openai-curated-remote",
        &root
    ));
}

#[test]
fn config_points_to_root_reads_registration() {
    let config = "\u{feff}[marketplaces.openai-curated]\nsource_type = \"local\"\nsource = '\\\\?\\/r'\n";
    assert!(marketplace_config_points_to_root(Some(config), "openai-curated", "/r"));
    assert!(!marketplace_config_points_to_root(Some(config), "openai-curated", "/other"));
    assert!(!marketplace_config_points_to_root(Some(config), "openai-api-curated", "/r"));
    assert!(!marketplace_config_points_to_root(None, "openai-curated", "/r"));
    assert!(!marketplace_config_points_to_root(Some("not = [valid"), "openai-curated", "/r"));
    let remote_type = "[marketplaces.openai-curated]\nsource_type = \"git\"\nsource = \"/r\"\n";
    assert!(!marketplace_config_points_to_root(Some(remote_type), "openai-curated", "/r"));
}

#[test]
fn windows_extended_paths_round_trip() {
    assert_eq!(windows_extended_path("C:\\codex"), "\\\\?\\C:\\codex");
    assert_eq!(windows_extended_path("\\\\?\\C:\\codex"), "\\\\?\\C:\\codex");
    assert_eq!(normalize_windows_extended_path("\\\\?\\C:\\codex"), "C:\\codex");
    assert_eq!(normalize_windows_extended_path("/plain"), "/plain");
}

#[test]
fn invalid_config_is_an_error_and_blank_config_is_empty() {
    let names = vec!["openai-curated".to_string()];
    assert!(merge_marketplace_configs_into_text("not = [valid", &names, "/r").is_err());
    let merged = merge_marketplace_configs_into_text("\u{feff}  \n", &names, "/r").unwrap();
    assert!(merged.ends_with('\n'));
    let parsed = merged.parse::<DocumentMut>().unwrap();
    assert_eq!(parsed["marketplaces"]["openai-curated"]["source"].as_str(), Some("\\\\?\\/r"));
}

#[test]
fn marketplace_manifest_must_name_marketplace_and_list_plugins() {
    let home = "/tmp/m-home";
    let good = manifest("openai-curated", &["gmail"]);
    let other = manifest("another", &["gmail"]);
    let empty = manifest("openai-curated", &[]);
    let no_array = "{\"name\": \"openai-curated\", \"plugins\": {\"a\": 1}}";
    let ok = |m: Option<&str>, dir: bool| local_openai_curated_marketplace_root(home, m, dir).unwrap();
    assert_eq!(ok(Some(good.as_str()), true), Some(s(Path::new(home).join(".tmp").join("plugins"))));
    assert!(ok(Some(good.as_str()), false).is_none());
    assert!(ok(Some(other.as_str()), true).is_none());
    assert!(ok(Some(empty.as_str()), true).is_none());
    assert!(ok(Some(no_array), true).is_none());
    assert!(ok(None, true).is_none());
}

#[test]
fn marketplace_manifest_that_is_not_json_is_an_error() {
    let home = "/tmp/m-home";
    assert_eq!(
        local_openai_curated_marketplace_root(home, Some("{\"name\": "), true),
        Err(ManifestError::InvalidJson)
    );
    assert_eq!(
        local_marketplace_plugin_names("not json", "role-specific-plugins"),
        Err(ManifestError::InvalidJson)
    );
    assert_eq!(
        validate_marketplace_snapshot("/r", Some("[1,"), "openai-curated", true),
        Err(SnapshotError::InvalidManifest)
    );
    assert_eq!(
        validate_marketplace_snapshot("/r", None, "openai-curated", true),
        Err(SnapshotError::Invalid)
    );
    assert_eq!(
        validate_marketplace_snapshot("/r", Some(manifest("openai-curated", &["a"]).as_str()), "openai-curated", true),
        Ok(())
    );
}

#[test]
fn manifest_fields_are_read_from_json() {
    let text = "{\"name\": \"x\", \"plugins\": [{\"name\": \"a\"}, {\"name\": 3}, {}], \"extra\": null}";
    let m = marketplace_manifest_from_text(text).unwrap();
    assert_eq!(m.name, Some("x".to_string()));
    assert_eq!(
        m.plugins,
        Some(vec![
            MarketplacePluginEntry { name: Some("a".to_string()) },
            MarketplacePluginEntry { name: None },
            MarketplacePluginEntry { name: None },
        ])
    );
    let m = marketplace_manifest_from_text("{\"name\": 7}").unwrap();
    assert_eq!(m, MarketplaceManifest { name: None, plugins: None });
    assert_eq!(marketplace_manifest_from_text("{} x"), Err(ManifestError::InvalidJson));
}

#[test]
fn plugin_names_are_trimmed_and_blank_ones_dropped() {
    let text = "{\"name\": \"role-specific-plugins\", \"plugins\": [{\"name\": \"  sales \"}, {\"name\": \"   \"}, {\"name\": false}, {\"id\": \"x\"}, {\"name\": \"design\"}, {\"name\": \"design\"}]}";
    assert_eq!(
        local_marketplace_plugin_names(text, "role-specific-plugins").unwrap(),
        vec!["sales".to_string(), "design".to_string(), "design".to_string()]
    );
    assert!(local_marketplace_plugin_names(text, "other").unwrap().is_empty());
    let m = MarketplaceManifest {
        name: Some("role-specific-plugins".to_string()),
        plugins: Some(vec![
            MarketplacePluginEntry { name: Some("  sales ".to_string()) },
            MarketplacePluginEntry { name: None },
        ]),
    };
    assert_eq!(plugin_names_in_manifest(&m, "role-specific-plugins"), vec!["sales".to_string()]);
}

#[test]
fn remote_marketplace_available_reports_install_and_config() {
    let home = Path::new("/tmp/avail-home");
    let remote = remote_root(home);
    let (result, edit) =
        ensure_openai_curated_remote_marketplace_available(false, "", Some(&remote)).unwrap();
    assert!(result.initialized);
    assert!(result.configured);
    assert!(edit.changed);
    let (again, _) =
        ensure_openai_curated_remote_marketplace_available(true, &edit.contents, Some(&remote)).unwrap();
    assert!(!again.initialized);
    assert!(!again.configured);
}

#[test]
fn preserve_keeps_remote_registration() {
    let home = Path::new("/tmp/preserve-home");
    let remote = remote_root(home);
    let text = "model = \"gpt\"\n";
    assert_eq!(preserve_openai_curated_remote_marketplace_config(text, None).unwrap(), text);
    let kept = preserve_openai_curated_remote_marketplace_config(text, Some(&remote)).unwrap();
    let parsed = kept.parse::<DocumentMut>().unwrap();
    assert_eq!(parsed["model"].as_str(), Some("gpt"));
    assert_eq!(
        parsed["marketplaces"]["openai-curated-remote"]["source_type"].as_str(),
        Some("local")
    );
}
