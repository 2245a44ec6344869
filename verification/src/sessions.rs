//! Session metadata read from a conversation log: the `session_meta` first
//! line gives id, start time and project directory; the remaining lines are
//! folded — stopping early once both a first user message and a model name
//! are known — for the session list. The shell walks the log directory and
//! reads files; everything that interprets their lines is here, verified.

use vstd::prelude::*;
use vstd::multiset::Multiset;
use crate::jsonval::{Jv, json_of, jv, jv_get, parse_json_value, v_as_str, v_get};
use crate::logmodel::{
    jv_prompt, payload_of, rfc3339_secs, rfc3339_to_unix_seconds, value_prompt_text,
};
use crate::spawn::{CodexExecutionMode, opt_string_view};
use crate::textops::{str_eq, str_is_blank};

verus! {

/// One session as the list shows it.
#[derive(Debug)]
pub struct CodexSession {
    pub id: String,
    pub project_path: String,
    pub created_at: u64,
    pub updated_at: u64,
    pub mode: CodexExecutionMode,
    pub model: Option<String>,
    pub status: String,
    pub first_message: Option<String>,
    pub last_message_timestamp: Option<String>,
}

/// The session id a `session_meta` line carries.
pub open spec fn meta_id_of(s: Seq<char>) -> Option<Seq<char>> {
    match json_of(s) {
        Some(j) => if jv_get(j, "type"@) == Some(Jv::Str("session_meta"@)) {
            match payload_of(j) {
                Some(p) => match jv_get(p, "id"@) {
                    Some(Jv::Str(id)) => Some(id),
                    _ => None,
                },
                None => None,
            }
        } else {
            None
        },
        None => None,
    }
}

/// Whether a log's first line identifies the session `session_id` — the
/// test the session-file search applies to each candidate file.
pub fn line_matches_session(first_line: &str, session_id: &str) -> (r: bool)
    ensures
        r == (meta_id_of(first_line@) == Some(session_id@)),
{
    let v = match parse_json_value(first_line) {
        Some(v) => v,
        None => {
            return false;
        },
    };
    let tstr = match v_get(&v, "type") {
        Some(t) => match v_as_str(t) {
            Some(s) => s,
            None => {
                return false;
            },
        },
        None => {
            return false;
        },
    };
    if !str_eq(tstr, "session_meta") {
        return false;
    }
    let payload = match v_get(&v, "payload") {
        Some(p) => p,
        None => {
            return false;
        },
    };
    match v_get(payload, "id") {
        Some(idv) => match v_as_str(idv) {
            Some(id) => str_eq(id, session_id),
            None => false,
        },
        None => false,
    }
}

/// What a `session_meta` first line must carry: the id, the RFC 3339
/// timestamp text, and the working directory (empty when absent).
pub open spec fn session_meta_of(s: Seq<char>) -> Option<(Seq<char>, Seq<char>, Seq<char>)> {
    match json_of(s) {
        Some(j) => if jv_get(j, "type"@) == Some(Jv::Str("session_meta"@)) {
            match payload_of(j) {
                Some(p) => match (jv_get(p, "id"@), jv_get(p, "timestamp"@)) {
                    (Some(Jv::Str(id)), Some(Jv::Str(ts))) => Some(
                        (
                            id,
                            ts,
                            match jv_get(p, "cwd"@) {
                                Some(Jv::Str(c)) => c,
                                _ => Seq::empty(),
                            },
                        ),
                    ),
                    _ => None,
                },
                None => None,
            }
        } else {
            None
        },
        None => None,
    }
}

/// Unix seconds, which the log stores signed, as the session list's
/// unsigned field holds them: a plain bit-pattern cast.
pub open spec fn secs_as_u64(n: int) -> u64 {
    (n as i64) as u64
}

/// The fold state of the metadata scan.
pub struct MetaScan {
    pub first_message: Option<Seq<char>>,
    pub last_ts: Option<Seq<char>>,
    pub model: Option<Seq<char>>,
}

/// The scan before any line: nothing known.
pub open spec fn init_scan() -> MetaScan {
    MetaScan { first_message: None, last_ts: None, model: None }
}

/// One line's contribution: any string `timestamp` member updates the last
/// timestamp; a `session_meta` line with a string `payload.model` updates
/// the model; the first qualifying user turn fixes the first message.
pub open spec fn scan_step(st: MetaScan, s: Seq<char>) -> MetaScan {
    match json_of(s) {
        None => st,
        Some(j) => MetaScan {
            first_message: if st.first_message is None {
                match jv_prompt(j) {
                    Some(t) => Some(t),
                    None => None,
                }
            } else {
                st.first_message
            },
            last_ts: match jv_get(j, "timestamp"@) {
                Some(Jv::Str(t)) => Some(t),
                _ => st.last_ts,
            },
            model: if jv_get(j, "type"@) == Some(Jv::Str("session_meta"@)) {
                match payload_of(j) {
                    Some(p) => match jv_get(p, "model"@) {
                        Some(Jv::Str(m)) => Some(m),
                        _ => st.model,
                    },
                    None => st.model,
                }
            } else {
                st.model
            },
        },
    }
}

/// The fold over the remaining lines, stopping early once both the first
/// message and the model are known — later timestamps then go unseen,
/// exactly as the scan behaves.
pub open spec fn scan_rest(lines: Seq<Seq<char>>, st: MetaScan) -> MetaScan
    decreases lines.len(),
{
    if lines.len() == 0 || (st.first_message is Some && st.model is Some) {
        st
    } else {
        scan_rest(lines.drop_first(), scan_step(st, lines.first()))
    }
}

/// The scan state three optional owned strings stand for.
pub open spec fn scan_view(
    fm: Option<String>,
    ts: Option<String>,
    model: Option<String>,
) -> MetaScan {
    MetaScan {
        first_message: opt_string_view(fm),
        last_ts: opt_string_view(ts),
        model: opt_string_view(model),
    }
}

/// Reads a session's metadata from its log lines: `None` unless the first
/// line is a `session_meta` record with a string id and a timestamp that
/// parses as RFC 3339. The rest of the log contributes the first user
/// message, the last seen timestamp and the model, by the `scan_rest`
/// fold; the session is reported completed and read-only, as a log alone
/// shows no live process.
pub fn parse_codex_session_file(lines: &Vec<String>) -> (r: Option<CodexSession>)
    ensures
        match r {
            Some(sess) => {
                &&& lines@.len() > 0
                &&& match session_meta_of(lines.deep_view()[0]) {
                    Some(meta) => {
                        &&& sess.id@ == meta.0
                        &&& sess.project_path@ == meta.2
                        &&& match rfc3339_secs(meta.1) {
                            Some(c) => sess.created_at == secs_as_u64(c),
                            None => false,
                        }
                        &&& match scan_rest(lines.deep_view().skip(1), init_scan()).last_ts {
                            Some(t) => match rfc3339_secs(t) {
                                Some(u) => sess.updated_at == secs_as_u64(u),
                                None => sess.updated_at == sess.created_at,
                            },
                            None => sess.updated_at == sess.created_at,
                        }
                    },
                    None => false,
                }
                &&& ({
                    let st = scan_rest(lines.deep_view().skip(1), init_scan());
                    &&& opt_string_view(sess.first_message) == st.first_message
                    &&& opt_string_view(sess.last_message_timestamp) == st.last_ts
                    &&& opt_string_view(sess.model) == st.model
                })
                &&& sess.mode is ReadOnly
                &&& sess.status@ == "completed"@
            },
            None => lines@.len() == 0 || session_meta_of(lines.deep_view()[0]) is None || (
            match session_meta_of(lines.deep_view()[0]) {
                Some(meta) => rfc3339_secs(meta.1) is None,
                None => true,
            }),
        },
{
    let ghost ld = lines.deep_view();
    if lines.len() == 0 {
        return None;
    }
    let v = match parse_json_value(lines[0].as_str()) {
        Some(v) => v,
        None => {
            return None;
        },
    };
    let tstr = match v_get(&v, "type") {
        Some(t) => match v_as_str(t) {
            Some(s) => s,
            None => {
                return None;
            },
        },
        None => {
            return None;
        },
    };
    if !str_eq(tstr, "session_meta") {
        return None;
    }
    let payload = match v_get(&v, "payload") {
        Some(p) => p,
        None => {
            return None;
        },
    };
    let session_id = match v_get(payload, "id") {
        Some(idv) => match v_as_str(idv) {
            Some(id) => id.to_owned(),
            None => {
                return None;
            },
        },
        None => {
            return None;
        },
    };
    let timestamp_str = match v_get(payload, "timestamp") {
        Some(tv) => match v_as_str(tv) {
            Some(t) => t,
            None => {
                return None;
            },
        },
        None => {
            return None;
        },
    };
    let created_at_secs = match rfc3339_to_unix_seconds(timestamp_str) {
        Some(n) => n,
        None => {
            return None;
        },
    };
    let created_at = created_at_secs as u64;
    let cwd = match v_get(payload, "cwd") {
        Some(cv) => match v_as_str(cv) {
            Some(c) => c.to_owned(),
            None => String::new(),
        },
        None => String::new(),
    };
    let n = lines.len();
    let mut fm: Option<String> = None;
    let mut last_ts: Option<String> = None;
    let mut model: Option<String> = None;
    let mut j: usize = 1;
    proof {
        assert(ld.skip(1) =~= ld.skip(1));
    }
    while j < n
        invariant
            n == lines@.len(),
            ld == lines.deep_view(),
            1 <= j <= n,
            scan_rest(ld.skip(1), init_scan()) == scan_rest(
                ld.skip(j as int),
                scan_view(fm, last_ts, model),
            ),
        decreases n - j,
    {
        let ghost st = scan_view(fm, last_ts, model);
        proof {
            assert(ld.skip(j as int).first() == ld[j as int]);
            assert(ld.skip(j as int).drop_first() =~= ld.skip(j as int + 1));
            assert(ld[j as int] == lines@[j as int]@);
        }
        let saturated = fm.is_some() && model.is_some();
        if !saturated {
            match parse_json_value(lines[j].as_str()) {
                Some(ev) => {
                    match v_get(&ev, "timestamp") {
                        Some(tsv) => match v_as_str(tsv) {
                            Some(t) => {
                                last_ts = Some(t.to_owned());
                            },
                            None => {},
                        },
                        None => {},
                    }
                    let is_meta = match v_get(&ev, "type") {
                        Some(t) => match v_as_str(t) {
                            Some(s) => str_eq(s, "session_meta"),
                            None => false,
                        },
                        None => false,
                    };
                    if is_meta {
                        match v_get(&ev, "payload") {
                            Some(p) => match v_get(p, "model") {
                                Some(mv) => match v_as_str(mv) {
                                    Some(m) => {
                                        model = Some(m.to_owned());
                                    },
                                    None => {},
                                },
                                None => {},
                            },
                            None => {},
                        }
                    }
                    if fm.is_none() {
                        fm = value_prompt_text(&ev);
                    }
                    proof {
                        assert(scan_view(fm, last_ts, model) == scan_step(st, ld[j as int]));
                    }
                },
                None => {
                    proof {
                        assert(scan_view(fm, last_ts, model) == scan_step(st, ld[j as int]));
                    }
                },
            }
        }
        j += 1;
    }
    proof {
        assert(ld.skip(n as int) =~= Seq::<Seq<char>>::empty());
    }
    let updated_at = match &last_ts {
        Some(t) => match rfc3339_to_unix_seconds(t.as_str()) {
            Some(u) => u as u64,
            None => created_at,
        },
        None => created_at,
    };
    Some(
        CodexSession {
            id: session_id,
            project_path: cwd,
            created_at,
            updated_at,
            mode: CodexExecutionMode::ReadOnly,
            model,
            status: "completed".to_owned(),
            first_message: fm,
            last_message_timestamp: last_ts,
        },
    )
}

/// Orders sessions newest first: by creation time, descending. The result
/// holds exactly the given sessions.
pub fn sort_sessions_by_created_desc(sessions: Vec<CodexSession>) -> (r: Vec<CodexSession>)
    ensures
        r@.len() == sessions@.len(),
        forall|i: int, j: int|
            0 <= i < j < r@.len() ==> (#[trigger] r@[i]).created_at >= (#[trigger] r@[j]).created_at,
        r@.to_multiset() == sessions@.to_multiset(),
{
    let ghost orig = sessions@;
    let mut remaining = sessions;
    let mut out: Vec<CodexSession> = Vec::new();
    proof {
        broadcast use vstd::seq_lib::group_to_multiset_ensures;

        assert(out@.to_multiset().add(remaining@.to_multiset()) =~= orig.to_multiset());
    }
    while remaining.len() > 0
        invariant
            out@.to_multiset().add(remaining@.to_multiset()) == orig.to_multiset(),
            out@.len() + remaining@.len() == orig.len(),
            forall|i: int, j: int|
                0 <= i < j < out@.len() ==> (#[trigger] out@[i]).created_at >= (
                #[trigger] out@[j]).created_at,
            forall|q: int|
                0 <= q < remaining@.len() ==> out@.len() > 0 ==> (
                #[trigger] remaining@[q]).created_at <= out@[out@.len() - 1].created_at,
        decreases remaining@.len(),
    {
        let n = remaining.len();
        let mut best: usize = 0;
        let mut k: usize = 1;
        while k < n
            invariant
                n == remaining@.len(),
                best < k <= n,
                forall|q: int|
                    0 <= q < k ==> (#[trigger] remaining@[q]).created_at
                        <= remaining@[best as int].created_at,
            decreases n - k,
        {
            if remaining[k].created_at > remaining[best].created_at {
                best = k;
            }
            k += 1;
        }
        let ghost out_prev = out@;
        let ghost rem_prev = remaining@;
        let picked = remaining.remove(best);
        out.push(picked);
        proof {
            broadcast use vstd::seq_lib::group_to_multiset_ensures;

            assert(rem_prev.contains(rem_prev[best as int]));
            assert(out@.to_multiset() =~= out_prev.to_multiset().insert(rem_prev[best as int]));
            assert(remaining@.to_multiset() =~= rem_prev.to_multiset().remove(
                rem_prev[best as int],
            ));
            assert(out@.to_multiset().add(remaining@.to_multiset()) =~= orig.to_multiset());
            assert(forall|i: int|
                0 <= i < out_prev.len() ==> (#[trigger] out@[i]) == out_prev[i]);
            assert(out@[out@.len() - 1] == rem_prev[best as int]);
            assert(forall|q: int|
                0 <= q < remaining@.len() ==> (#[trigger] remaining@[q]).created_at
                    <= rem_prev[best as int].created_at) by {
                assert(forall|q: int|
                    0 <= q < remaining@.len() ==> remaining@[q] == (if q < best as int {
                        rem_prev[q]
                    } else {
                        rem_prev[q + 1]
                    }));
            }
        }
    }
    proof {
        broadcast use vstd::seq_lib::group_to_multiset_ensures;

        assert(remaining@.to_multiset() =~= Multiset::<CodexSession>::empty());
        assert(out@.to_multiset() =~= orig.to_multiset());
        assert(out@.to_multiset().len() == out@.len());
        assert(orig.to_multiset().len() == orig.len());
    }
    out
}

/// The parsed trees of the lines a history read keeps: blank lines are
/// skipped, lines that do not parse are skipped and counted.
pub open spec fn events_of(lines: Seq<Seq<char>>) -> Seq<Jv>
    decreases lines.len(),
{
    if lines.len() == 0 {
        Seq::empty()
    } else {
        events_of(lines.drop_last()) + (if !crate::textops::is_blank(lines.last()) {
            match json_of(lines.last()) {
                Some(j) => seq![j],
                None => Seq::empty(),
            }
        } else {
            Seq::empty()
        })
    }
}

/// How many non-blank lines fail to parse.
pub open spec fn parse_error_count(lines: Seq<Seq<char>>) -> nat
    decreases lines.len(),
{
    if lines.len() == 0 {
        0
    } else {
        parse_error_count(lines.drop_last()) + (if !crate::textops::is_blank(lines.last())
            && json_of(lines.last()) is None {
            1nat
        } else {
            0nat
        })
    }
}

/// Loads a session history from its log lines: every non-blank line that
/// parses, as a JSON tree, in order, plus the count of non-blank lines
/// that did not parse. A malformed line never fails the read.
pub fn collect_session_events(lines: &Vec<String>) -> (r: (Vec<serde_json::Value>, usize))
    ensures
        Seq::new(r.0@.len() as nat, |i: int| jv(r.0@[i])) == events_of(lines.deep_view()),
        r.1 as nat == parse_error_count(lines.deep_view()),
{
    let ghost ld = lines.deep_view();
    let n = lines.len();
    let mut events: Vec<serde_json::Value> = Vec::new();
    let mut errors: usize = 0;
    let mut j: usize = 0;
    proof {
        assert(ld.take(0) =~= Seq::<Seq<char>>::empty());
        assert(Seq::new(events@.len() as nat, |i: int| jv(events@[i])) =~= events_of(ld.take(0)));
    }
    while j < n
        invariant
            n == lines@.len(),
            ld == lines.deep_view(),
            j <= n,
            errors <= j,
            Seq::new(events@.len() as nat, |i: int| jv(events@[i])) == events_of(ld.take(j as int)),
            errors as nat == parse_error_count(ld.take(j as int)),
        decreases n - j,
    {
        let ghost evs_prev = events@;
        proof {
            assert(ld.take(j as int + 1).drop_last() =~= ld.take(j as int));
            assert(ld.take(j as int + 1).last() == ld[j as int]);
            assert(ld[j as int] == lines@[j as int]@);
        }
        if !str_is_blank(lines[j].as_str()) {
            match parse_json_value(lines[j].as_str()) {
                Some(ev) => {
                    events.push(ev);
                    proof {
                        assert(events@.drop_last() == evs_prev);
                        assert(Seq::new(events@.len() as nat, |i: int| jv(events@[i]))
                            =~= events_of(ld.take(j as int + 1)));
                    }
                },
                None => {
                    errors += 1;
                    proof {
                        assert(Seq::new(events@.len() as nat, |i: int| jv(events@[i]))
                            =~= events_of(ld.take(j as int + 1)));
                    }
                },
            }
        } else {
            proof {
                assert(Seq::new(events@.len() as nat, |i: int| jv(events@[i])) =~= events_of(
                    ld.take(j as int + 1),
                ));
            }
        }
        j += 1;
    }
    proof {
        assert(ld.take(n as int) =~= ld);
    }
    (events, errors)
}

} // verus!
