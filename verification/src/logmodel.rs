//! The model of one conversation-log line. A log is newline-delimited JSON:
//! a `session_meta` record first, then `response_item` records whose
//! `payload.content` holds typed blocks. A user turn qualifies as a prompt
//! when some `input_text` block carries text that is neither synthetic
//! (environment-context or agents-instructions injection) nor blank.
//!
//! Every spec here is phrased over `Jv`, the mathematical JSON tree; the
//! executable scanners walk a parsed `serde_json::Value` through the trusted
//! accessors and are proved to compute exactly these specs.

use vstd::prelude::*;
use crate::jsonval::{Jv, json_of, jv, jv_get, parse_json_value, v_as_array, v_as_str, v_get};
use crate::textops::{contains_seq, is_blank, str_contains, str_eq, str_is_blank};

verus! {

/// Text that is injected context rather than a user's own words.
pub open spec fn is_synthetic_text(t: Seq<char>) -> bool {
    contains_seq(t, "<environment_context>"@) || contains_seq(t, "# AGENTS.md instructions"@)
}

/// Text that makes a block a real prompt: not synthetic, not blank.
pub open spec fn is_prompt_text(t: Seq<char>) -> bool {
    !is_synthetic_text(t) && !is_blank(t)
}

/// The text of a content block, when the block is `input_text`.
pub open spec fn block_text(b: Jv) -> Option<Seq<char>> {
    if jv_get(b, "type"@) == Some(Jv::Str("input_text"@)) {
        match jv_get(b, "text"@) {
            Some(Jv::Str(t)) => Some(t),
            _ => None,
        }
    } else {
        None
    }
}

/// The first block whose text is a real prompt, scanning left to right.
pub open spec fn first_prompt_text(blocks: Seq<Jv>) -> Option<Seq<char>>
    decreases blocks.len(),
{
    if blocks.len() == 0 {
        None
    } else {
        match block_text(blocks.first()) {
            Some(t) => if is_prompt_text(t) {
                Some(t)
            } else {
                first_prompt_text(blocks.drop_first())
            },
            None => first_prompt_text(blocks.drop_first()),
        }
    }
}

/// The `payload` member of a record.
pub open spec fn payload_of(j: Jv) -> Option<Jv> {
    jv_get(j, "payload"@)
}

/// A record of a turn spoken by the user.
pub open spec fn is_user_turn(j: Jv) -> bool {
    &&& jv_get(j, "type"@) == Some(Jv::Str("response_item"@))
    &&& match payload_of(j) {
        Some(p) => jv_get(p, "role"@) == Some(Jv::Str("user"@)),
        None => false,
    }
}

/// The prompt text a parsed record carries, if it is a qualifying user turn.
pub open spec fn jv_prompt(j: Jv) -> Option<Seq<char>> {
    if is_user_turn(j) {
        match payload_of(j) {
            Some(p) => match jv_get(p, "content"@) {
                Some(Jv::Arr(blocks)) => first_prompt_text(blocks),
                _ => None,
            },
            None => None,
        }
    } else {
        None
    }
}

/// The prompt text one raw log line carries. `None` for malformed lines,
/// non-user records, and user turns with only synthetic or blank blocks.
pub open spec fn line_prompt(s: Seq<char>) -> Option<Seq<char>> {
    match json_of(s) {
        Some(j) => jv_prompt(j),
        None => None,
    }
}

/// A line that consumes a prompt index.
pub open spec fn is_qualifying_line(s: Seq<char>) -> bool {
    line_prompt(s) is Some
}

/// Unix seconds of an RFC 3339 timestamp text, or `None` when the text is
/// not a valid RFC 3339 date-time.
pub uninterp spec fn rfc3339_secs(s: Seq<char>) -> Option<int>;

/// Relies on chrono's `DateTime::parse_from_rfc3339` and
/// `DateTime::timestamp`: whether a text parses, and its Unix seconds,
/// depend on the text alone.
#[verifier::external_body]
pub(crate) fn rfc3339_to_unix_seconds(s: &str) -> (r: Option<i64>)
    ensures
        match r {
            Some(n) => rfc3339_secs(s@) == Some(n as int),
            None => rfc3339_secs(s@) is None,
        },
{
    match chrono::DateTime::parse_from_rfc3339(s) {
        Ok(dt) => Some(dt.timestamp()),
        Err(_) => None,
    }
}

/// The Unix seconds recorded on a parsed record, with `now` standing in when
/// the record has no parseable `timestamp` field.
pub open spec fn jv_timestamp_or(j: Jv, now: int) -> int {
    match jv_get(j, "timestamp"@) {
        Some(Jv::Str(t)) => match rfc3339_secs(t) {
            Some(n) => n,
            None => now,
        },
        _ => now,
    }
}

/// The text of the first block of `blocks` that is a real prompt, walking a
/// parsed array.
fn blocks_first_prompt(blocks: &Vec<serde_json::Value>) -> (r: Option<String>)
    ensures
        ({
            let bseq = Seq::new(blocks@.len() as nat, |i: int| jv(blocks@[i]));
            match r {
                Some(t) => first_prompt_text(bseq) == Some(t@),
                None => first_prompt_text(bseq) is None,
            }
        }),
{
    let ghost bseq = Seq::new(blocks@.len() as nat, |i: int| jv(blocks@[i]));
    let n = blocks.len();
    let mut i: usize = 0;
    proof {
        assert(bseq.skip(0) =~= bseq);
    }
    while i < n
        invariant
            n == blocks@.len(),
            i <= n,
            bseq == Seq::new(blocks@.len() as nat, |k: int| jv(blocks@[k])),
            first_prompt_text(bseq) == first_prompt_text(bseq.skip(i as int)),
        decreases n - i,
    {
        let b = &blocks[i];
        proof {
            assert(bseq.skip(i as int).first() == jv(blocks@[i as int]));
            assert(bseq.skip(i as int).drop_first() =~= bseq.skip(i as int + 1));
        }
        let found: Option<String> = match v_get(b, "type") {
            Some(tval) => match v_as_str(tval) {
                Some(tstr) => {
                    if str_eq(tstr, "input_text") {
                        match v_get(b, "text") {
                            Some(txtval) => match v_as_str(txtval) {
                                Some(txt) => {
                                    let synthetic = str_contains(txt, "<environment_context>")
                                        || str_contains(txt, "# AGENTS.md instructions");
                                    if !synthetic && !str_is_blank(txt) {
                                        Some(txt.to_owned())
                                    } else {
                                        None
                                    }
                                },
                                None => None,
                            },
                            None => None,
                        }
                    } else {
                        None
                    }
                },
                None => None,
            },
            None => None,
        };
        match found {
            Some(t) => {
                return Some(t);
            },
            None => {
                proof {
                    assert(match block_text(bseq.skip(i as int).first()) {
                        Some(t) => !is_prompt_text(t),
                        None => true,
                    });
                }
            },
        }
        i += 1;
    }
    proof {
        assert(bseq.skip(i as int) =~= Seq::<Jv>::empty());
    }
    None
}

/// The prompt text a parsed record carries, per `jv_prompt`.
pub fn value_prompt_text(v: &serde_json::Value) -> (r: Option<String>)
    ensures
        match r {
            Some(t) => jv_prompt(jv(*v)) == Some(t@),
            None => jv_prompt(jv(*v)) is None,
        },
{
    let tval = match v_get(v, "type") {
        Some(t) => t,
        None => {
            return None;
        },
    };
    let tstr = match v_as_str(tval) {
        Some(s) => s,
        None => {
            return None;
        },
    };
    if !str_eq(tstr, "response_item") {
        return None;
    }
    let payload = match v_get(v, "payload") {
        Some(p) => p,
        None => {
            return None;
        },
    };
    let role = match v_get(payload, "role") {
        Some(r) => r,
        None => {
            return None;
        },
    };
    let rolestr = match v_as_str(role) {
        Some(s) => s,
        None => {
            return None;
        },
    };
    if !str_eq(rolestr, "user") {
        return None;
    }
    let content = match v_get(payload, "content") {
        Some(c) => c,
        None => {
            return None;
        },
    };
    let blocks = match v_as_array(content) {
        Some(b) => b,
        None => {
            return None;
        },
    };
    blocks_first_prompt(blocks)
}

/// The Unix seconds recorded on a parsed record, with `now` as fallback,
/// per `jv_timestamp_or`.
pub fn value_timestamp_or(v: &serde_json::Value, now: i64) -> (r: i64)
    ensures
        r as int == jv_timestamp_or(jv(*v), now as int),
{
    match v_get(v, "timestamp") {
        Some(tsval) => match v_as_str(tsval) {
            Some(ts) => match rfc3339_to_unix_seconds(ts) {
                Some(n) => n,
                None => now,
            },
            None => now,
        },
        None => now,
    }
}

/// Scans one raw log line: the prompt text and timestamp of a qualifying
/// user turn, or `None` for every other line.
pub fn scan_line(line: &str, now: i64) -> (r: Option<(String, i64)>)
    ensures
        match r {
            Some(p) => line_prompt(line@) == Some(p.0@) && p.1 as int == match json_of(line@) {
                Some(j) => jv_timestamp_or(j, now as int),
                None => now as int,
            },
            None => line_prompt(line@) is None,
        },
{
    let v = match parse_json_value(line) {
        Some(v) => v,
        None => {
            return None;
        },
    };
    match value_prompt_text(&v) {
        Some(t) => {
            let ts = value_timestamp_or(&v, now);
            Some((t, ts))
        },
        None => None,
    }
}

} // verus!
