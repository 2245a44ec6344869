//! Where the per-user files live, as plain path text under a given home
//! directory. The shell supplies the home directory and does the I/O;
//! these functions only say which file is which.

use vstd::prelude::*;

verus! {

/// The tool's configuration directory under `home_dir`.
pub fn get_codex_config_dir(home_dir: &str) -> (r: String)
    ensures
        r@ == home_dir@ + "/.codex"@,
{
    let mut p = home_dir.to_owned();
    p.append("/.codex");
    p
}

/// The credentials file.
pub fn get_codex_auth_path(home_dir: &str) -> (r: String)
    ensures
        r@ == home_dir@ + "/.codex/auth.json"@,
{
    let mut p = home_dir.to_owned();
    p.append("/.codex/auth.json");
    proof {
        assert(p@ =~= home_dir@ + "/.codex/auth.json"@);
    }
    p
}

/// The configuration file.
pub fn get_codex_config_path(home_dir: &str) -> (r: String)
    ensures
        r@ == home_dir@ + "/.codex/config.toml"@,
{
    let mut p = home_dir.to_owned();
    p.append("/.codex/config.toml");
    proof {
        assert(p@ =~= home_dir@ + "/.codex/config.toml"@);
    }
    p
}

/// The custom provider presets file.
pub fn get_codex_providers_path(home_dir: &str) -> (r: String)
    ensures
        r@ == home_dir@ + "/.codex/providers.json"@,
{
    let mut p = home_dir.to_owned();
    p.append("/.codex/providers.json");
    proof {
        assert(p@ =~= home_dir@ + "/.codex/providers.json"@);
    }
    p
}

/// The directory of per-session git-checkpoint files.
pub fn get_codex_git_records_dir(home_dir: &str) -> (r: String)
    ensures
        r@ == home_dir@ + "/.codex/git-records"@,
{
    let mut p = home_dir.to_owned();
    p.append("/.codex/git-records");
    proof {
        assert(p@ =~= home_dir@ + "/.codex/git-records"@);
    }
    p
}

/// The checkpoint file of one session.
pub fn get_codex_git_records_path(home_dir: &str, session_id: &str) -> (r: String)
    ensures
        r@ == home_dir@ + "/.codex/git-records/"@ + session_id@ + ".json"@,
{
    let mut p = home_dir.to_owned();
    p.append("/.codex/git-records/");
    p.append(session_id);
    p.append(".json");
    proof {
        assert(p@ =~= home_dir@ + "/.codex/git-records/"@ + session_id@ + ".json"@);
    }
    p
}

/// The directory the external tool writes conversation logs into.
pub fn get_codex_sessions_dir(home_dir: &str) -> (r: String)
    ensures
        r@ == home_dir@ + "/.codex/sessions"@,
{
    let mut p = home_dir.to_owned();
    p.append("/.codex/sessions");
    proof {
        assert(p@ =~= home_dir@ + "/.codex/sessions"@);
    }
    p
}

} // verus!
