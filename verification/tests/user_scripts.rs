use codex_plus_core::user_scripts::{
    default_enabled, script_status, unreadable_script_source, wrap_script, UserScriptConfig,
    UserScriptFile, UserScriptManager,
};

fn manager() -> UserScriptManager {
    UserScriptManager::new(
        "/app/user_scripts".to_string(),
        "/cfg/Codex++/user_scripts".to_string(),
        "/cfg/Codex++/user_scripts.json".to_string(),
    )
}

fn listing(paths: &[&str]) -> Vec<String> {
    paths.iter().map(|p| p.to_string()).collect()
}

#[test]
fn new_manager_keeps_its_paths() {
    let m = manager();
    assert_eq!(m.builtin_dir(), "/app/user_scripts");
    assert_eq!(m.user_dir(), "/cfg/Codex++/user_scripts");
    assert_eq!(m.config_path(), "/cfg/Codex++/user_scripts.json");
}

#[test]
fn default_configuration_enables_everything() {
    let config = UserScriptConfig::default();
    assert!(config.enabled);
    assert!(config.scripts.is_empty());
    assert!(default_enabled());
    assert!(config.script_enabled("user:any.js"));
}

#[test]
fn switching_scripts_keeps_other_switches_in_key_order() {
    let m = manager();
    let config = UserScriptConfig::default();
    let config = m.set_script_enabled(config, "user:b.js", false);
    let config = m.set_script_enabled(config, "builtin:a.js", true);
    let config = m.set_script_enabled(config, "user:b.js", true);
    let config = m.set_script_enabled(config, "user:c.js", false);
    assert_eq!(
        config.scripts,
        vec![
            ("builtin:a.js".to_string(), true),
            ("user:b.js".to_string(), true),
            ("user:c.js".to_string(), false),
        ]
    );
    assert!(!config.script_enabled("user:c.js"));
    assert!(config.script_enabled("user:b.js"));
    let off = m.set_global_enabled(config.clone(), false);
    assert!(!off.enabled);
    assert_eq!(off.scripts, config.scripts);
}

#[test]
fn scripts_are_found_builtin_first_sorted_by_lowercase_name() {
    let m = manager();
    let config = m.set_script_enabled(UserScriptConfig::default(), "user:Beta.js", false);
    let builtin = listing(&["/app/user_scripts/zed.js", "/app/user_scripts/readme.md", "/app/user_scripts/Alpha.js"]);
    let user = listing(&["/u/gamma.js", "/u/Beta.js", "/u/skip.JS"]);
    let scripts = m.scan_script_files(&config, Some(&builtin), Some(&user));
    let keys: Vec<&str> = scripts.iter().map(|s| s.key.as_str()).collect();
    assert_eq!(keys, vec!["builtin:Alpha.js", "builtin:zed.js", "user:Beta.js", "user:gamma.js"]);
    assert_eq!(scripts[0].name, "Alpha.js");
    assert_eq!(scripts[0].source, "builtin");
    assert_eq!(scripts[0].path, "/app/user_scripts/Alpha.js");
    assert!(scripts[0].enabled);
    assert!(!scripts[2].enabled);
    assert!(m.scan_script_files(&config, None, None).is_empty());
}

#[test]
fn script_order_ignores_case() {
    let m = manager();
    let config = UserScriptConfig::default();
    let user = listing(&["/u/Zeta.js", "/u/alpha.js", "/u/Mid.js"]);
    let scripts = m.scan_script_files(&config, None, Some(&user));
    let names: Vec<&str> = scripts.iter().map(|s| s.name.as_str()).collect();
    assert_eq!(names, vec!["alpha.js", "Mid.js", "Zeta.js"]);
}

#[test]
fn status_of_scripts() {
    assert_eq!(script_status(true, true), "not_loaded");
    assert_eq!(script_status(false, true), "disabled");
    assert_eq!(script_status(true, false), "disabled");
}

fn expected_wrap(script: &UserScriptFile, source: &str) -> String {
    format!(
        r#"
(() => {{
  window.__codexPlusUserScripts = window.__codexPlusUserScripts || {{ scripts: {{}} }};
  const key = {key};
  window.__codexPlusUserScripts.scripts[key] = {{ key, name: {name}, source: {source_name}, status: "loading", error: "", loadedAt: new Date().toISOString() }};
  try {{
{source}
    window.__codexPlusUserScripts.scripts[key].status = "loaded";
    window.__codexPlusUserScripts.scripts[key].loadedAt = new Date().toISOString();
  }} catch (error) {{
    window.__codexPlusUserScripts.scripts[key].status = "failed";
    window.__codexPlusUserScripts.scripts[key].error = String(error && (error.stack || error.message) || error);
  }}
}})();
"#,
        key = serde_json::Value::String(script.key.clone()),
        name = serde_json::Value::String(script.name.clone()),
        source_name = serde_json::Value::String(script.source.clone()),
        source = source
    )
}

fn file(key: &str, name: &str, enabled: bool) -> UserScriptFile {
    UserScriptFile {
        key: key.to_string(),
        name: name.to_string(),
        source: "user".to_string(),
        path: format!("/u/{name}"),
        enabled,
    }
}

#[test]
fn wrapped_script_records_its_status() {
    let script = file("user:a \"q\".js", "a \"q\".js", true);
    assert_eq!(wrap_script(&script, "console.log(1);"), expected_wrap(&script, "console.log(1);"));
}

#[test]
fn bundle_joins_enabled_scripts() {
    let m = manager();
    let a = file("user:a.js", "a.js", true);
    let b = file("user:b.js", "b.js", false);
    let c = file("user:c.js", "c.js", true);
    let scripts = vec![a.clone(), b, c.clone()];
    let sources = vec!["A".to_string(), "B".to_string(), "C".to_string()];
    let config = UserScriptConfig::default();
    assert_eq!(
        m.build_enabled_bundle(&config, &scripts, &sources),
        format!("{}\n{}", expected_wrap(&a, "A"), expected_wrap(&c, "C"))
    );
    let off = m.set_global_enabled(config, false);
    assert_eq!(m.build_enabled_bundle(&off, &scripts, &sources), "");
}

#[test]
fn unreadable_script_throws_its_error() {
    assert_eq!(
        unreadable_script_source("No such file (os error 2)"),
        "throw new Error(\"No such file (os error 2)\");"
    );
}

#[test]
fn script_names_are_written_as_escaped_json_strings() {
    let script = file("user:t\u{1}\\\n\t.js", "é\u{7f}\u{c}\u{8}\r.js", true);
    let wrapped = wrap_script(&script, "x");
    assert!(wrapped.contains("const key = \"user:t\\u0001\\\\\\n\\t.js\";"));
    assert!(wrapped.contains("name: \"é\u{7f}\\f\\b\\r.js\""));
    assert_eq!(wrapped, expected_wrap(&script, "x"));
}

#[test]
fn every_control_character_is_escaped_as_serde_json_does() {
    let name: String = (0u32..0x80).filter_map(char::from_u32).chain("é\u{2028}".chars()).collect();
    let script = file("user:k.js", &name, true);
    assert_eq!(wrap_script(&script, ""), expected_wrap(&script, ""));
}
