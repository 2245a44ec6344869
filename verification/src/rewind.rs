//! The rewind engine: what a rewind to a given prompt can do, and the exact
//! plan for doing it. Truncating the conversation log never needs git;
//! rewinding code needs a checkpoint with a recorded commit and the global
//! git switch on. Planning is pure: the shell executes the plan (stash,
//! hard reset, file rewrite) and owns every side effect.

use vstd::prelude::*;
use crate::checkpoints::{
    CodexGitRecords, CodexPromptGitRecord, find_record, has_record, truncate_codex_git_records,
    truncated_records,
};
use crate::decstr::{dec_str, u64_to_dec};
use crate::errors::CoreError;
use crate::logmodel::{line_prompt, scan_line};
use crate::prompts::{
    PromptRecord, lemma_prompt_entries_concat, lemma_prompt_entries_len, lemma_prompt_entries_push,
    line_entry, prompt_count, prompt_entries,
};

verus! {

/// What a rewind discards: conversation history, code changes, or both.
#[derive(Clone, Copy, PartialEq, Eq, Structural, Debug)]
pub enum RewindMode {
    ConversationOnly,
    CodeOnly,
    Both,
}

/// Modes that touch the working tree, and so need git.
pub open spec fn mode_needs_git(m: RewindMode) -> bool {
    m is CodeOnly || m is Both
}

/// Modes that truncate the conversation log and the checkpoints.
pub open spec fn mode_truncates(m: RewindMode) -> bool {
    m is ConversationOnly || m is Both
}

/// What `checkCapabilities` reports for one prompt.
#[derive(Debug)]
pub struct RewindCapabilities {
    pub conversation: bool,
    pub code: bool,
    pub both: bool,
    pub warning: Option<String>,
    pub source: String,
}

/// The view of an optional owned string.
pub open spec fn opt_str_view(o: Option<String>) -> Option<Seq<char>> {
    match o {
        Some(s) => Some(s@),
        None => None,
    }
}

/// A code rewind is possible at `i`: a checkpoint exists there and its
/// recorded commit-before is non-empty.
pub open spec fn code_possible(records: Seq<CodexPromptGitRecord>, i: int) -> bool {
    match find_record(records, i) {
        Some(rec) => rec.commit_before@.len() > 0,
        None => false,
    }
}

/// The warning that explains why code cannot be rewound, `None` when it can.
pub open spec fn capability_warning(
    git_disabled: bool,
    records: Seq<CodexPromptGitRecord>,
    i: int,
) -> Option<Seq<char>> {
    if git_disabled {
        Some(
            "git operations are disabled in the configuration; only conversation history can be rewound"@,
        )
    } else {
        match find_record(records, i) {
            Some(rec) => if rec.commit_before@.len() > 0 {
                None
            } else {
                Some(
                    "this prompt has no recorded git state; only conversation history can be rewound"@,
                )
            },
            None => Some(
                "this prompt has no associated git record; only conversation history can be rewound"@,
            ),
        }
    }
}

/// "Prompt #<k> not found in session"
pub open spec fn msg_prompt_not_found(k: nat) -> Seq<char> {
    "Prompt #"@ + dec_str(k) + " not found in session"@
}

/// "cannot rewind code: git operations are disabled in the configuration"
pub open spec fn msg_git_disabled() -> Seq<char> {
    "cannot rewind code: git operations are disabled in the configuration"@
}

/// "cannot rewind code: no git record for prompt #<k>"
pub open spec fn msg_no_git_record(k: nat) -> Seq<char> {
    "cannot rewind code: no git record for prompt #"@ + dec_str(k)
}

/// "cannot rewind code: prompt #<k> has no recorded git state"
pub open spec fn msg_no_git_state(k: nat) -> Seq<char> {
    "cannot rewind code: prompt #"@ + dec_str(k) + " has no recorded git state"@
}

/// Builds "Prompt #<k> not found in session".
fn prompt_not_found_message(k: usize) -> (r: String)
    ensures
        r@ == msg_prompt_not_found(k as nat),
{
    let mut m = "Prompt #".to_owned();
    m.append(u64_to_dec(k as u64).as_str());
    m.append(" not found in session");
    m
}

/// Finds the line index of the `k`-th qualifying user turn, and its prompt
/// text. `None` when the log holds at most `k` prompts.
fn find_kth_qualifying(lines: &Vec<String>, k: usize) -> (r: Option<(usize, String)>)
    ensures
        match r {
            Some(p) => {
                &&& p.0 < lines@.len()
                &&& (k as nat) < prompt_count(lines.deep_view())
                &&& line_prompt(lines.deep_view()[p.0 as int]) == Some(p.1@)
                &&& forall|now: int| #![auto]
                    prompt_entries(lines.deep_view().take(p.0 as int), now) == prompt_entries(
                        lines.deep_view(),
                        now,
                    ).take(k as int)
                &&& forall|now: int| #![auto]
                    prompt_entries(lines.deep_view(), now)[k as int].0 == p.1@
            },
            None => prompt_count(lines.deep_view()) <= k as nat,
        },
{
    let ghost ld = lines.deep_view();
    let n = lines.len();
    let mut count: usize = 0;
    let mut j: usize = 0;
    proof {
        assert(ld.take(0) =~= Seq::<Seq<char>>::empty());
    }
    while j < n
        invariant
            n == lines@.len(),
            ld == lines.deep_view(),
            j <= n,
            count <= j,
            count <= k,
            count == prompt_entries(ld.take(j as int), 0).len(),
        decreases n - j,
    {
        proof {
            assert(ld.take(j as int + 1) =~= ld.take(j as int).push(ld[j as int]));
            assert(ld[j as int] == lines@[j as int]@);
            lemma_prompt_entries_push(ld.take(j as int), ld[j as int], 0);
        }
        match scan_line(lines[j].as_str(), 0) {
            Some(p) => {
                if count == k {
                    let (text, _ts) = p;
                    proof {
                        assert forall|now: int|
                            #![trigger prompt_entries(ld, now)]
                            prompt_entries(ld, now).len() > k as int && prompt_entries(
                                ld.take(j as int),
                                now,
                            ) == prompt_entries(ld, now).take(k as int) && prompt_entries(
                                ld,
                                now,
                            )[k as int].0 == text@ by {
                            lemma_prompt_entries_len(ld.take(j as int), now);
                            lemma_prompt_entries_push(ld.take(j as int), ld[j as int], now);
                            lemma_prompt_entries_concat(
                                ld.take(j as int + 1),
                                ld.skip(j as int + 1),
                                now,
                            );
                            assert(ld.take(j as int + 1) + ld.skip(j as int + 1) =~= ld);
                            assert(prompt_entries(ld.take(j as int + 1), now) == prompt_entries(
                                ld.take(j as int),
                                now,
                            ).push(line_entry(ld[j as int], now)));
                            assert(prompt_entries(ld, now)[k as int] == line_entry(
                                ld[j as int],
                                now,
                            ));
                            assert(prompt_entries(ld, now).take(k as int) =~= prompt_entries(
                                ld.take(j as int),
                                now,
                            ));
                        }
                        assert(prompt_entries(ld, 0).len() > k as int);
                        assert((k as nat) < prompt_count(ld));
                        assert(forall|now: int| #![auto]
                            (k as int) < prompt_entries(lines.deep_view(), now).len());
                        assert(forall|now: int| #![auto]
                            prompt_entries(lines.deep_view().take(j as int), now) == prompt_entries(
                                lines.deep_view(),
                                now,
                            ).take(k as int));
                        assert(forall|now: int| #![auto]
                            prompt_entries(lines.deep_view(), now)[k as int].0 == text@);
                    }
                    return Some((j, text));
                }
                count += 1;
            },
            None => {
            },
        }
        j += 1;
    }
    proof {
        assert(ld.take(n as int) =~= ld);
    }
    None
}

/// The first `t` lines of the log, as an owned copy.
fn copy_prefix(lines: &Vec<String>, t: usize) -> (r: Vec<String>)
    requires
        t <= lines@.len(),
    ensures
        r.deep_view() == lines.deep_view().take(t as int),
{
    let ghost ld = lines.deep_view();
    let mut kept: Vec<String> = Vec::new();
    let mut i: usize = 0;
    while i < t
        invariant
            t <= lines@.len(),
            ld == lines.deep_view(),
            i <= t,
            kept@.len() == i,
            forall|q: int| 0 <= q < i ==> (#[trigger] kept@[q])@ == ld[q],
        decreases t - i,
    {
        kept.push(lines[i].clone());
        proof {
            assert(kept@[i as int] == lines@[i as int]);
        }
        i += 1;
    }
    proof {
        assert forall|q: int| 0 <= q < t implies kept.deep_view()[q] == ld.take(t as int)[q] by {
            assert(kept.deep_view()[q] == kept@[q]@);
            assert(kept@[q]@ == ld[q]);
        }
        assert(kept.deep_view() =~= ld.take(t as int));
    }
    kept
}

/// The log after a rewind to `prompt_index`: every line at or after the
/// qualifying turn with that rank is dropped (synthetic content on those
/// lines included), every line strictly before it is kept. Re-extraction of
/// the result yields exactly the first `prompt_index` prompts. `NotFound`
/// when the log holds no prompt of that rank.
pub fn truncate_codex_session_to_prompt(lines: &Vec<String>, prompt_index: usize) -> (r: Result<
    Vec<String>,
    CoreError,
>)
    ensures
        match r {
            Ok(kept) => {
                &&& (prompt_index as nat) < prompt_count(lines.deep_view())
                &&& forall|now: int| #![auto]
                    prompt_entries(kept.deep_view(), now) == prompt_entries(
                        lines.deep_view(),
                        now,
                    ).take(prompt_index as int)
                &&& exists|t: int|
                    0 <= t <= lines@.len() && kept.deep_view() == lines.deep_view().take(t)
            },
            Err(e) => {
                &&& e is NotFound
                &&& e.message_view() == msg_prompt_not_found(prompt_index as nat)
                &&& prompt_count(lines.deep_view()) <= prompt_index as nat
            },
        },
{
    match find_kth_qualifying(lines, prompt_index) {
        Some(p) => {
            let (t, _text) = p;
            let kept = copy_prefix(lines, t);
            proof {
                assert(0 <= t as int <= lines@.len() && kept.deep_view()
                    == lines.deep_view().take(t as int));
            }
            Ok(kept)
        },
        None => Err(CoreError::NotFound(prompt_not_found_message(prompt_index))),
    }
}

/// The prompt text of the qualifying turn of rank `prompt_index`, straight
/// from the log.
pub fn get_codex_prompt_text(lines: &Vec<String>, prompt_index: usize) -> (r: Result<
    String,
    CoreError,
>)
    ensures
        match r {
            Ok(text) => (prompt_index as nat) < prompt_count(lines.deep_view()) && forall|now: int|
                #![auto]
                prompt_entries(lines.deep_view(), now)[prompt_index as int].0 == text@,
            Err(e) => {
                &&& e is NotFound
                &&& e.message_view() == msg_prompt_not_found(prompt_index as nat)
                &&& prompt_count(lines.deep_view()) <= prompt_index as nat
            },
        },
{
    match find_kth_qualifying(lines, prompt_index) {
        Some(p) => Ok(p.1),
        None => Err(CoreError::NotFound(prompt_not_found_message(prompt_index))),
    }
}

/// What a rewind to `prompt_index` can do. Truncating conversation is
/// always possible; `code` and `both` hold exactly when git operations are
/// enabled and a checkpoint with a non-empty commit-before exists at that
/// index, and the warning names the specific obstacle otherwise.
/// `NotFound` when the prompt list has no such index.
pub fn check_codex_rewind_capabilities(
    git_disabled: bool,
    prompts: &Vec<PromptRecord>,
    records: &CodexGitRecords,
    prompt_index: usize,
) -> (r: Result<RewindCapabilities, CoreError>)
    ensures
        match r {
            Ok(c) => {
                &&& (prompt_index as int) < prompts@.len()
                &&& c.conversation == true
                &&& c.code == (!git_disabled && code_possible(
                    records.records@,
                    prompt_index as int,
                ))
                &&& c.both == c.code
                &&& opt_str_view(c.warning) == capability_warning(
                    git_disabled,
                    records.records@,
                    prompt_index as int,
                )
                &&& c.source@ == if !git_disabled && has_record(
                    records.records@,
                    prompt_index as int,
                ) {
                    "project"@
                } else {
                    prompts@[prompt_index as int].source@
                }
            },
            Err(e) => {
                &&& e is NotFound
                &&& e.message_view() == msg_prompt_not_found(prompt_index as nat)
                &&& (prompt_index as int) >= prompts@.len()
            },
        },
{
    if prompt_index >= prompts.len() {
        return Err(CoreError::NotFound(prompt_not_found_message(prompt_index)));
    }
    if git_disabled {
        return Ok(
            RewindCapabilities {
                conversation: true,
                code: false,
                both: false,
                warning: Some(
                    "git operations are disabled in the configuration; only conversation history can be rewound".to_owned(),
                ),
                source: prompts[prompt_index].source.clone(),
            },
        );
    }
    match records.find(prompt_index) {
        Some(rec) => {
            let has_valid_commit = !rec.commit_before.as_str().is_empty();
            Ok(
                RewindCapabilities {
                    conversation: true,
                    code: has_valid_commit,
                    both: has_valid_commit,
                    warning: if has_valid_commit {
                        None
                    } else {
                        Some(
                            "this prompt has no recorded git state; only conversation history can be rewound".to_owned(),
                        )
                    },
                    source: "project".to_owned(),
                },
            )
        },
        None => Ok(
            RewindCapabilities {
                conversation: true,
                code: false,
                both: false,
                warning: Some(
                    "this prompt has no associated git record; only conversation history can be rewound".to_owned(),
                ),
                source: prompts[prompt_index].source.clone(),
            },
        ),
    }
}

/// The plan a revert executes: the commit to hard-reset to (after a safety
/// stash), the truncated log to write back, and the truncated checkpoint
/// set, each present exactly when the mode calls for it. The prompt text of
/// the reverted-to turn rides along for resubmission.
#[derive(Debug)]
pub struct RevertPlan {
    pub reset_to: Option<String>,
    pub new_log: Option<Vec<String>>,
    pub new_records: Option<CodexGitRecords>,
    pub prompt_text: String,
}

/// Plans a revert of the session to `prompt_index` under `mode`. Fails with
/// `NotFound` when the log has no prompt of that rank, and with
/// `InvalidState` when the mode needs git but git is disabled, no
/// checkpoint exists at the index, or the checkpoint has no recorded
/// commit; the mode is never silently downgraded.
pub fn plan_revert_to_prompt(
    lines: &Vec<String>,
    records: &CodexGitRecords,
    git_disabled: bool,
    prompt_index: usize,
    mode: RewindMode,
) -> (r: Result<RevertPlan, CoreError>)
    ensures
        match r {
            Ok(p) => {
                &&& (prompt_index as nat) < prompt_count(lines.deep_view())
                &&& mode_needs_git(mode) ==> !git_disabled && code_possible(
                    records.records@,
                    prompt_index as int,
                )
                &&& opt_str_view(p.reset_to) == if mode_needs_git(mode) {
                    Some(find_record(records.records@, prompt_index as int).unwrap().commit_before@)
                } else {
                    None
                }
                &&& if mode_truncates(mode) {
                    &&& p.new_log matches Some(nl) && forall|now: int| #![auto]
                        prompt_entries(nl.deep_view(), now) == prompt_entries(
                            lines.deep_view(),
                            now,
                        ).take(prompt_index as int)
                    &&& p.new_records matches Some(nr) && nr.records@ == truncated_records(
                        records.records@,
                        prompt_index as int,
                    ) && nr.session_id == records.session_id && nr.project_path
                        == records.project_path
                } else {
                    p.new_log is None && p.new_records is None
                }
                &&& forall|now: int| #![auto]
                    prompt_entries(lines.deep_view(), now)[prompt_index as int].0
                        == p.prompt_text@
            },
            Err(e) => {
                &&& if prompt_count(lines.deep_view()) <= prompt_index as nat {
                    e is NotFound && e.message_view() == msg_prompt_not_found(prompt_index as nat)
                } else {
                    &&& e is InvalidState
                    &&& mode_needs_git(mode)
                    &&& git_disabled || !code_possible(records.records@, prompt_index as int)
                    &&& e.message_view() == if git_disabled {
                        msg_git_disabled()
                    } else if !has_record(records.records@, prompt_index as int) {
                        msg_no_git_record(prompt_index as nat)
                    } else {
                        msg_no_git_state(prompt_index as nat)
                    }
                }
            },
        },
{
    let found = match find_kth_qualifying(lines, prompt_index) {
        Some(p) => p,
        None => {
            return Err(CoreError::NotFound(prompt_not_found_message(prompt_index)));
        },
    };
    let (t, text) = found;
    let needs_git = match mode {
        RewindMode::CodeOnly => true,
        RewindMode::Both => true,
        RewindMode::ConversationOnly => false,
    };
    let mut reset_to: Option<String> = None;
    if needs_git {
        if git_disabled {
            return Err(
                CoreError::InvalidState(
                    "cannot rewind code: git operations are disabled in the configuration".to_owned(),
                ),
            );
        }
        match records.find(prompt_index) {
            Some(rec) => {
                if rec.commit_before.as_str().is_empty() {
                    let mut m = "cannot rewind code: prompt #".to_owned();
                    m.append(u64_to_dec(prompt_index as u64).as_str());
                    m.append(" has no recorded git state");
                    return Err(CoreError::InvalidState(m));
                }
                reset_to = Some(rec.commit_before.clone());
            },
            None => {
                let mut m = "cannot rewind code: no git record for prompt #".to_owned();
                m.append(u64_to_dec(prompt_index as u64).as_str());
                return Err(CoreError::InvalidState(m));
            },
        }
    }
    let truncates = match mode {
        RewindMode::ConversationOnly => true,
        RewindMode::Both => true,
        RewindMode::CodeOnly => false,
    };
    let (new_log, new_records): (Option<Vec<String>>, Option<CodexGitRecords>) = if truncates {
        (Some(copy_prefix(lines, t)), Some(truncate_codex_git_records(records, prompt_index)))
    } else {
        (None, None)
    };
    Ok(RevertPlan { reset_to, new_log, new_records, prompt_text: text })
}

} // verus!
