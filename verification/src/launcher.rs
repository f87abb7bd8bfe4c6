//! Where the launcher finds its user scripts and the Codex database, and what
//! it injects into a new page.
use vstd::prelude::*;

use crate::paths::{join_path, path_join};
use crate::user_scripts::UserScriptManager;

verus! {

/// The directory that holds the Codex++ user-script configuration: on Windows
/// `%APPDATA%\\Codex++` (else `<home>\\AppData\\Roaming\\Codex++`); elsewhere, or
/// where neither is known, `$XDG_CONFIG_HOME/Codex++`, else
/// `<home>/.config/Codex++`, else `.config/Codex++`.
pub open spec fn user_scripts_config_dir_spec(
    is_windows: bool,
    appdata: Option<Seq<char>>,
    home: Option<Seq<char>>,
    xdg_config_home: Option<Seq<char>>,
) -> Seq<char> {
    if is_windows && appdata is Some {
        path_join(appdata->0, "Codex++"@)
    } else if is_windows && home is Some {
        path_join(path_join(path_join(home->0, "AppData"@), "Roaming"@), "Codex++"@)
    } else {
        let base = match xdg_config_home {
            Some(x) => x,
            None => match home {
                Some(h) => path_join(h, ".config"@),
                None => ".config"@,
            },
        };
        path_join(base, "Codex++"@)
    }
}

pub open spec fn opt_view(o: Option<String>) -> Option<Seq<char>> {
    match o {
        Some(s) => Some(s@),
        None => None,
    }
}

/// The user-script configuration directory, from the platform and the
/// environment (`APPDATA`, the home directory, `XDG_CONFIG_HOME`).
pub fn default_user_scripts_config_dir(
    is_windows: bool,
    appdata: Option<String>,
    home: Option<String>,
    xdg_config_home: Option<String>,
) -> (res: String)
    ensures
        res@ == user_scripts_config_dir_spec(
            is_windows,
            opt_view(appdata),
            opt_view(home),
            opt_view(xdg_config_home),
        ),
{
    if is_windows {
        if let Some(roaming) = &appdata {
            return join_path(roaming.as_str(), "Codex++");
        }
        if let Some(h) = &home {
            let app_data = join_path(h.as_str(), "AppData");
            let roaming = join_path(app_data.as_str(), "Roaming");
            return join_path(roaming.as_str(), "Codex++");
        }
    }
    let base = match xdg_config_home {
        Some(x) => x,
        None => match &home {
            Some(h) => join_path(h.as_str(), ".config"),
            None => ".config".to_string(),
        },
    };
    join_path(base.as_str(), "Codex++")
}

/// The built-in scripts ship next to the launcher: `<exe dir>/user_scripts`, or
/// `user_scripts` where the launcher's directory is unknown.
pub fn builtin_user_scripts_dir(exe_dir: Option<&str>) -> (res: String)
    ensures
        res@ == match exe_dir {
            Some(d) => path_join(d@, "user_scripts"@),
            None => "user_scripts"@,
        },
{
    match exe_dir {
        Some(d) => join_path(d, "user_scripts"),
        None => "user_scripts".to_string(),
    }
}

/// The user-script manager of the launcher: built-in scripts next to it, the
/// user's scripts and their configuration in the configuration directory.
pub fn default_user_script_manager(builtin_dir: String, config_dir: &str) -> (res: UserScriptManager)
    ensures
        res.builtin_dir_spec() == builtin_dir@,
        res.user_dir_spec() == path_join(config_dir@, "user_scripts"@),
        res.config_path_spec() == path_join(config_dir@, "user_scripts.json"@),
{
    UserScriptManager::new(
        builtin_dir,
        join_path(config_dir, "user_scripts"),
        join_path(config_dir, "user_scripts.json"),
    )
}

/// The Codex database the launcher's data service opens: `<home>/.codex/state_5.sqlite`.
pub fn default_codex_db_path(home: &str) -> (res: String)
    ensures
        res@ == path_join(path_join(home@, ".codex"@), "state_5.sqlite"@),
{
    let codex = join_path(home, ".codex");
    join_path(codex.as_str(), "state_5.sqlite")
}

/// The scripts installed into every new Codex page: the injection script, then
/// the user-script bundle where it is not empty.
pub fn new_document_scripts(injection_script: String, user_bundle: String) -> (res: Vec<String>)
    ensures
        user_bundle@.len() == 0 ==> res@ == seq![injection_script],
        user_bundle@.len() > 0 ==> res@ == seq![injection_script, user_bundle],
{
    let mut scripts: Vec<String> = Vec::new();
    let empty = user_bundle.as_str().is_empty();
    scripts.push(injection_script);
    if !empty {
        scripts.push(user_bundle);
    }
    scripts
}

} // verus!
