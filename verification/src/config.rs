//! Paths inside the router's home directory.
//!
//! Resolving the home directory itself reads the process environment and
//! happens outside the library; these functions build the well-known
//! paths beneath a resolved home.

use vstd::prelude::*;
use vstd::string::StringExecFns;

verus! {

/// The user agent sent upstream when no override is configured.
pub const DEFAULT_USER_AGENT: &'static str = "codex-cli";

fn joined(home: &str, rest: &str) -> (r: String)
    ensures
        r@ == home@ + rest@,
{
    let mut out = String::new();
    out.append(home);
    out.append(rest);
    out
}

/// The official command-line client's credential file under its own home.
pub fn get_official_auth_file(official_home: &str) -> (r: String)
    ensures
        r@ == official_home@ + "/auth.json"@,
{
    joined(official_home, "/auth.json")
}

/// The directory holding one subdirectory per saved profile.
pub fn get_profiles_dir(home: &str) -> (r: String)
    ensures
        r@ == home@ + "/profiles"@,
{
    joined(home, "/profiles")
}

/// The active credential file.
pub fn get_auth_file(home: &str) -> (r: String)
    ensures
        r@ == home@ + "/auth.json"@,
{
    joined(home, "/auth.json")
}

/// The marker file naming the current profile.
pub fn get_current_profile_file(home: &str) -> (r: String)
    ensures
        r@ == home@ + "/.current_profile"@,
{
    joined(home, "/.current_profile")
}

/// The router's own configuration directory.
pub fn get_router_config_dir(home: &str) -> (r: String)
    ensures
        r@ == home@ + "/router"@,
{
    joined(home, "/router")
}

/// The router's persisted-settings file.
pub fn get_router_state_file(home: &str) -> (r: String)
    ensures
        r@ == home@ + "/router/state.json"@,
{
    let r = joined(home, "/router/state.json");
    assert(r@ =~= home@ + "/router/state.json"@);
    r
}

/// The credential file of one saved profile.
pub fn get_profile_auth_file(home: &str, profile_name: &str) -> (r: String)
    ensures
        r@ == home@ + "/profiles/"@ + profile_name@ + "/auth.json"@,
{
    let mut out = String::new();
    out.append(home);
    out.append("/profiles/");
    out.append(profile_name);
    out.append("/auth.json");
    assert(out@ =~= home@ + "/profiles/"@ + profile_name@ + "/auth.json"@);
    out
}

} // verus!
