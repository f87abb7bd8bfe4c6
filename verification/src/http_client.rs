//! The user agent that Codex++ announces to the services it calls.
use vstd::prelude::*;

use crate::text::{concat_str, trim_spec, trim_str};

verus! {

/// The user agent used where none is asked for.
pub open spec fn default_user_agent(package_version: Seq<char>) -> Seq<char> {
    "CodexPlusPlus/"@ + package_version
}

/// The user agent of an HTTP client: the requested one without surrounding
/// white space, or `CodexPlusPlus/<version>` where it is blank.
pub fn client_user_agent(requested: &str, package_version: &str) -> (res: String)
    ensures
        res@ == if trim_spec(requested@).len() == 0 {
            default_user_agent(package_version@)
        } else {
            trim_spec(requested@)
        },
{
    let trimmed = trim_str(requested);
    if trimmed.as_str().is_empty() {
        concat_str("CodexPlusPlus/", package_version)
    } else {
        trimmed
    }
}

/// The user agent of the VLM client: `CodexPlusPlus-VLM/<version>`.
pub fn vlm_user_agent(package_version: &str) -> (res: String)
    ensures
        res@ == "CodexPlusPlus-VLM/"@ + package_version@,
{
    concat_str("CodexPlusPlus-VLM/", package_version)
}

} // verus!
