//! Execution options and the command line they produce. Building the
//! argument list is pure and verified; the shell turns it into a process
//! with piped stdio, writes the prompt to stdin concurrently with reading
//! both output streams, and registers the child under a fresh session id.

use vstd::prelude::*;

verus! {

/// How much the tool may touch: read-only (the default), file edits, or
/// full access including network.
#[derive(Clone, Copy, PartialEq, Eq, Structural, Debug)]
pub enum CodexExecutionMode {
    ReadOnly,
    FullAuto,
    DangerFullAccess,
}

impl Default for CodexExecutionMode {
    fn default() -> (r: Self)
        ensures
            r is ReadOnly,
    {
        CodexExecutionMode::ReadOnly
    }
}

/// Everything one execution needs: where, what, and under which switches.
#[derive(Debug)]
pub struct CodexExecutionOptions {
    pub project_path: String,
    pub prompt: String,
    pub mode: CodexExecutionMode,
    pub model: Option<String>,
    pub json: bool,
    pub output_schema: Option<String>,
    pub output_file: Option<String>,
    pub skip_git_repo_check: bool,
    pub api_key: Option<String>,
    pub session_id: Option<String>,
    pub resume_last: bool,
}

/// Whether JSON output mode is on when an execution request does not say.
pub fn default_json_mode() -> (r: bool)
    ensures
        r == true,
{
    true
}

/// The arguments a mode contributes to a fresh (non-resume) run.
pub open spec fn mode_args_view(mode: CodexExecutionMode) -> Seq<Seq<char>> {
    match mode {
        CodexExecutionMode::ReadOnly => Seq::empty(),
        CodexExecutionMode::FullAuto => seq!["--full-auto"@],
        CodexExecutionMode::DangerFullAccess => seq!["--sandbox"@, "danger-full-access"@],
    }
}

/// A flag with its value, when the value is given.
pub open spec fn opt_arg_view(flag: Seq<char>, value: Option<Seq<char>>) -> Seq<Seq<char>> {
    match value {
        Some(v) => seq![flag, v],
        None => Seq::empty(),
    }
}

/// The view of an optional owned string.
pub open spec fn opt_string_view(o: Option<String>) -> Option<Seq<char>> {
    match o {
        Some(s) => Some(s@),
        None => None,
    }
}

/// The full argument list of one run. `--json` must come before `resume`;
/// a resumed session keeps its original mode, model and output switches;
/// the final `-` asks the tool to read the prompt from stdin.
pub open spec fn codex_args_view(
    options: CodexExecutionOptions,
    is_resume: bool,
    session_id: Option<Seq<char>>,
) -> Seq<Seq<char>> {
    seq!["exec"@] + (if options.json {
        seq!["--json"@]
    } else {
        Seq::empty()
    }) + (if is_resume {
        seq!["resume"@] + (match session_id {
            Some(s) => seq![s],
            None => Seq::empty(),
        })
    } else {
        mode_args_view(options.mode) + opt_arg_view("--model"@, opt_string_view(options.model))
            + opt_arg_view("--output-schema"@, opt_string_view(options.output_schema))
            + opt_arg_view("-o"@, opt_string_view(options.output_file)) + (
        if options.skip_git_repo_check {
            seq!["--skip-git-repo-check"@]
        } else {
            Seq::empty()
        })
    }) + seq!["-"@]
}

/// Appends one argument.
fn push_arg(args: &mut Vec<String>, s: &str)
    ensures
        final(args).deep_view() == old(args).deep_view().push(s@),
{
    args.push(s.to_owned());
    proof {
        assert(args.deep_view() =~= old(args).deep_view().push(s@));
    }
}

/// The argument list and the stdin payload of one run: exactly
/// `codex_args_view`, and the prompt, which always travels via stdin to
/// dodge command-line length limits and quoting.
#[verifier::rlimit(60)]
pub fn build_codex_args(
    options: &CodexExecutionOptions,
    is_resume: bool,
    session_id: Option<&str>,
) -> (r: (Vec<String>, Option<String>))
    ensures
        r.0.deep_view() == codex_args_view(
            *options,
            is_resume,
            match session_id {
                Some(s) => Some(s@),
                None => None,
            },
        ),
        r.1 matches Some(p) && p@ == options.prompt@,
{
    let mut args: Vec<String> = Vec::new();
    push_arg(&mut args, "exec");
    if options.json {
        push_arg(&mut args, "--json");
    }
    if is_resume {
        push_arg(&mut args, "resume");
        match session_id {
            Some(s) => push_arg(&mut args, s),
            None => {},
        }
    } else {
        match options.mode {
            CodexExecutionMode::ReadOnly => {},
            CodexExecutionMode::FullAuto => {
                push_arg(&mut args, "--full-auto");
            },
            CodexExecutionMode::DangerFullAccess => {
                push_arg(&mut args, "--sandbox");
                push_arg(&mut args, "danger-full-access");
            },
        }
        match &options.model {
            Some(m) => {
                push_arg(&mut args, "--model");
                push_arg(&mut args, m.as_str());
            },
            None => {},
        }
        match &options.output_schema {
            Some(s) => {
                push_arg(&mut args, "--output-schema");
                push_arg(&mut args, s.as_str());
            },
            None => {},
        }
        match &options.output_file {
            Some(f) => {
                push_arg(&mut args, "-o");
                push_arg(&mut args, f.as_str());
            },
            None => {},
        }
        if options.skip_git_repo_check {
            push_arg(&mut args, "--skip-git-repo-check");
        }
    }
    push_arg(&mut args, "-");
    proof {
        assert(args.deep_view() =~= codex_args_view(
            *options,
            is_resume,
            match session_id {
                Some(s) => Some(s@),
                None => None,
            },
        ));
    }
    (args, Some(options.prompt.clone()))
}

/// Whether the tool is installed, under which version, and why not.
#[derive(Debug)]
pub struct CodexAvailability {
    pub available: bool,
    pub version: Option<String>,
    pub error: Option<String>,
}

/// The version string a probe run yields: its stdout when non-empty, else
/// its stderr when non-empty, else the fallback the detector recorded, else
/// a fixed marker.
pub fn pick_version_string(stdout_trimmed: &str, stderr_trimmed: &str, fallback: Option<String>)
    -> (r: String)
    ensures
        r@ == if stdout_trimmed@.len() > 0 {
            stdout_trimmed@
        } else if stderr_trimmed@.len() > 0 {
            stderr_trimmed@
        } else {
            match fallback {
                Some(f) => f@,
                None => "Unknown version"@,
            }
        },
{
    if !stdout_trimmed.is_empty() {
        stdout_trimmed.to_owned()
    } else if !stderr_trimmed.is_empty() {
        stderr_trimmed.to_owned()
    } else {
        match fallback {
            Some(f) => f,
            None => "Unknown version".to_owned(),
        }
    }
}

/// Where the tool itself runs: picked automatically, natively, or inside
/// a WSL distribution.
#[derive(Clone, Copy, PartialEq, Eq, Structural, Debug)]
pub enum CodexMode {
    Auto,
    Native,
    Wsl,
}

/// What the mode-configuration report shows the host.
#[derive(Debug)]
pub struct CodexModeInfo {
    pub mode: String,
    pub wsl_distro: Option<String>,
    pub actual_mode: String,
    pub native_available: bool,
    pub wsl_available: bool,
    pub available_distros: Vec<String>,
}

/// The word each mode goes by.
pub open spec fn mode_word(m: CodexMode) -> Seq<char> {
    match m {
        CodexMode::Auto => "auto"@,
        CodexMode::Native => "native"@,
        CodexMode::Wsl => "wsl"@,
    }
}

/// "Invalid mode: <word>. Use 'auto', 'native', or 'wsl'"
pub open spec fn msg_invalid_mode(word: Seq<char>) -> Seq<char> {
    "Invalid mode: "@ + word + ". Use 'auto', 'native', or 'wsl'"@
}

/// Reads a mode word, case-insensitively; any other word is refused by
/// name.
pub fn parse_codex_mode(word: &str) -> (r: Result<CodexMode, crate::errors::CoreError>)
    ensures
        match r {
            Ok(m) => crate::enhance::lower_of(word@) == mode_word(m),
            Err(e) => {
                &&& e is InvalidState
                &&& e.message_view() == msg_invalid_mode(word@)
                &&& crate::enhance::lower_of(word@) != "auto"@
                &&& crate::enhance::lower_of(word@) != "native"@
                &&& crate::enhance::lower_of(word@) != "wsl"@
            },
        },
{
    let lowered = crate::enhance::lowercase(word);
    if crate::textops::str_eq(lowered.as_str(), "auto") {
        Ok(CodexMode::Auto)
    } else if crate::textops::str_eq(lowered.as_str(), "native") {
        Ok(CodexMode::Native)
    } else if crate::textops::str_eq(lowered.as_str(), "wsl") {
        Ok(CodexMode::Wsl)
    } else {
        let mut m = "Invalid mode: ".to_owned();
        m.append(word);
        m.append(". Use 'auto', 'native', or 'wsl'");
        proof {
            assert(m@ =~= msg_invalid_mode(word@));
        }
        Err(crate::errors::CoreError::InvalidState(m))
    }
}

/// Assembles the mode-configuration report: the configured mode's word,
/// the distribution it names, the mode actually in effect (WSL exactly
/// when WSL execution is enabled), and the availability the probes found.
pub fn make_codex_mode_info(
    mode: CodexMode,
    wsl_distro: Option<String>,
    wsl_enabled: bool,
    native_available: bool,
    wsl_available: bool,
    available_distros: Vec<String>,
) -> (r: CodexModeInfo)
    ensures
        r.mode@ == mode_word(mode),
        r.wsl_distro == wsl_distro,
        r.actual_mode@ == if wsl_enabled {
            "wsl"@
        } else {
            "native"@
        },
        r.native_available == native_available,
        r.wsl_available == wsl_available,
        r.available_distros == available_distros,
{
    let mode_str: String = match mode {
        CodexMode::Auto => "auto".to_owned(),
        CodexMode::Native => "native".to_owned(),
        CodexMode::Wsl => "wsl".to_owned(),
    };
    let actual: String = if wsl_enabled {
        "wsl".to_owned()
    } else {
        "native".to_owned()
    };
    CodexModeInfo {
        mode: mode_str,
        wsl_distro,
        actual_mode: actual,
        native_available,
        wsl_available,
        available_distros,
    }
}

/// Relies on `uuid::Uuid::new_v4` and its `Display` form: a fresh random
/// UUID, hyphenated, 36 characters. Nothing else can be promised of a
/// random value.
#[verifier::external_body]
fn new_uuid_string() -> (r: String)
    ensures
        r@.len() == 36,
{
    uuid::Uuid::new_v4().to_string()
}

/// A fresh session id for an in-app-spawned process: the `codex-` prefix
/// and a random UUID.
pub fn fresh_session_id() -> (r: String)
    ensures
        r@.len() == 42,
        r@.subrange(0, 6) == "codex-"@,
{
    let mut s = "codex-".to_owned();
    s.append(new_uuid_string().as_str());
    proof {
        reveal_strlit("codex-");
        assert(s@.subrange(0, 6) =~= "codex-"@);
    }
    s
}

/// Whether a raw stdout line is forwarded to the host: every non-blank
/// line is, in production order; blank lines are dropped.
pub fn should_forward_output_line(line: &str) -> (r: bool)
    ensures
        r == !crate::textops::is_blank(line@),
{
    !crate::textops::str_is_blank(line)
}

} // verus!
