# codex-plus-core (verified)

The core logic of the Codex++ launcher, written in Verus and proved against
its contracts:

- `model_suffix`: removing context-window suffixes (`glm-5.2[1M]` → `glm-5.2`):
  from the end of a thread's model name, and after every model id in a log body.
- `codex_sqlite`: where Codex keeps its SQLite databases (the
  `CODEX_SQLITE_HOME` override, the `sqlite` directory and its ordering, the
  legacy `state_5.sqlite`), which `threads` rows the model cleanup rewrites,
  and what it counted.
- `toml_model`, `marketplace_config`, `marketplace_laws`: registering local
  plugin marketplaces in Codex's `config.toml` through `toml_edit`, and what
  every registration guarantees (each marketplace points to its root, other
  settings and plugin choices stay, a second registration changes nothing);
  these laws are proved of the config's entries, not of its text.
- `plugin_marketplace`: where marketplace snapshots live, when one counts as
  installed, which archive entries may be extracted and where, and the config
  edits that register the snapshots.
- `user_scripts`, `launcher`: user-script switches, the order scripts are
  found in, and the bundle injected into Codex.
- `ads`, `http_client`: the recommended-content filter and user agents.
- `json_model`, `zip_archive`: marketplace manifests and plugin archives as
  `serde_json` and `zip` read them.
- `paths`, `text`, `sort_order`: the std operations these rest on.

`app/` holds the launcher's file, database and network work around the library.
