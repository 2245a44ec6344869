//! Prompt extraction: the top-to-bottom scan that assigns each qualifying
//! user turn the next index, joined against the checkpoint store. The spec
//! `extract_spec` is the whole story: the executable extractor is proved to
//! return exactly it, so two scans of an unmodified log agree, and indices
//! are the positions `0..n`.

use vstd::prelude::*;
use crate::checkpoints::{CodexGitRecords, CodexPromptGitRecord, find_record};
use crate::logmodel::{is_qualifying_line, jv_timestamp_or, line_prompt, rfc3339_secs, scan_line};
use crate::jsonval::json_of;

verus! {

/// A prompt as shown to the caller: its rank among qualifying turns, its
/// text, the git commits recorded around it, and whether a checkpoint backs
/// it (`"project"`) or it was only observed in the log (`"cli"`).
#[derive(Debug)]
pub struct PromptRecord {
    pub index: usize,
    pub text: String,
    pub git_commit_before: String,
    pub git_commit_after: Option<String>,
    pub timestamp: i64,
    pub source: String,
}

/// A prompt as the history display shows it: rank, time and text only.
/// Kept beside the richer `PromptRecord` for callers that need no git
/// state.
#[derive(Debug)]
pub struct CodexPromptRecord {
    pub index: usize,
    pub timestamp: String,
    pub text: String,
}

/// The mathematical content of a `PromptRecord`.
pub struct PromptRec {
    pub index: int,
    pub text: Seq<char>,
    pub git_commit_before: Seq<char>,
    pub git_commit_after: Option<Seq<char>>,
    pub timestamp: int,
    pub source: Seq<char>,
}

impl View for PromptRecord {
    type V = PromptRec;

    open spec fn view(&self) -> PromptRec {
        PromptRec {
            index: self.index as int,
            text: self.text@,
            git_commit_before: self.git_commit_before@,
            git_commit_after: match self.git_commit_after {
                Some(c) => Some(c@),
                None => None,
            },
            timestamp: self.timestamp as int,
            source: self.source@,
        }
    }
}

/// The views of a vector of prompt records.
pub open spec fn prompt_views(s: Seq<PromptRecord>) -> Seq<PromptRec> {
    s.map_values(|p: PromptRecord| p@)
}

/// What the scan takes from one qualifying line: its prompt text and its
/// timestamp, with `now` standing in where the line has none.
pub open spec fn line_entry(s: Seq<char>, now: int) -> (Seq<char>, int) {
    (
        match line_prompt(s) {
            Some(t) => t,
            None => Seq::empty(),
        },
        match json_of(s) {
            Some(j) => jv_timestamp_or(j, now),
            None => now,
        },
    )
}

/// The entries of all qualifying lines, in file order.
pub open spec fn prompt_entries(lines: Seq<Seq<char>>, now: int) -> Seq<(Seq<char>, int)>
    decreases lines.len(),
{
    if lines.len() == 0 {
        Seq::empty()
    } else {
        prompt_entries(lines.drop_last(), now) + if is_qualifying_line(lines.last()) {
            seq![line_entry(lines.last(), now)]
        } else {
            Seq::empty()
        }
    }
}

/// The scan of a log split in two parts is the two scans, one after the
/// other: prompt entries distribute over concatenation.
pub proof fn lemma_prompt_entries_concat(a: Seq<Seq<char>>, b: Seq<Seq<char>>, now: int)
    ensures
        prompt_entries(a + b, now) == prompt_entries(a, now) + prompt_entries(b, now),
    decreases b.len(),
{
    if b.len() == 0 {
        assert(a + b =~= a);
        assert(prompt_entries(b, now) =~= Seq::<(Seq<char>, int)>::empty());
        assert(prompt_entries(a, now) + prompt_entries(b, now) =~= prompt_entries(a, now));
    } else {
        lemma_prompt_entries_concat(a, b.drop_last(), now);
        assert((a + b).drop_last() =~= a + b.drop_last());
        assert((a + b).last() == b.last());
        assert(prompt_entries(a + b, now) =~= prompt_entries(a, now) + prompt_entries(b, now));
    }
}

/// Appending one line extends the scan by that line's entry, when it
/// qualifies, and by nothing otherwise.
pub proof fn lemma_prompt_entries_push(s: Seq<Seq<char>>, x: Seq<char>, now: int)
    ensures
        prompt_entries(s.push(x), now) == prompt_entries(s, now) + if is_qualifying_line(x) {
            seq![line_entry(x, now)]
        } else {
            Seq::<(Seq<char>, int)>::empty()
        },
{
    assert(s.push(x).drop_last() =~= s);
    assert(s.push(x).last() == x);
}

/// How many prompts a log holds. The entries' timestamps depend on the
/// clock fallback, but how many lines qualify does not.
pub open spec fn prompt_count(lines: Seq<Seq<char>>) -> nat {
    prompt_entries(lines, 0).len()
}

/// The number of entries is independent of the clock fallback.
pub proof fn lemma_prompt_entries_len(lines: Seq<Seq<char>>, now: int)
    ensures
        prompt_entries(lines, now).len() == prompt_count(lines),
    decreases lines.len(),
{
    if lines.len() > 0 {
        lemma_prompt_entries_len(lines.drop_last(), now);
    }
}

/// The record the extractor returns at index `i` for entry `e`: the line's
/// text and timestamp, joined against the checkpoint at `i`.
pub open spec fn joined_record(
    i: int,
    e: (Seq<char>, int),
    records: Seq<CodexPromptGitRecord>,
) -> PromptRec {
    match find_record(records, i) {
        Some(rec) => PromptRec {
            index: i,
            text: e.0,
            git_commit_before: rec.commit_before@,
            git_commit_after: match rec.commit_after {
                Some(c) => Some(c@),
                None => None,
            },
            timestamp: if e.1 != 0 {
                e.1
            } else {
                match rfc3339_secs(rec.timestamp@) {
                    Some(n) => n,
                    None => e.1,
                }
            },
            source: "project"@,
        },
        None => PromptRec {
            index: i,
            text: e.0,
            git_commit_before: Seq::empty(),
            git_commit_after: None,
            timestamp: e.1,
            source: "cli"@,
        },
    }
}

/// The full extraction: one record per qualifying line, indexed by rank.
pub open spec fn extract_spec(
    lines: Seq<Seq<char>>,
    records: Seq<CodexPromptGitRecord>,
    now: int,
) -> Seq<PromptRec> {
    let entries = prompt_entries(lines, now);
    Seq::new(entries.len(), |i: int| joined_record(i, entries[i], records))
}

/// Extraction is a function of the log, the checkpoint records and the
/// clock reading alone: two results of it over the same inputs are the same
/// list. (The executable extractor below returns `extract_spec` exactly, so
/// two calls over an unmodified log agree element for element.)
pub proof fn lemma_extract_idempotent(
    r1: Seq<PromptRec>,
    r2: Seq<PromptRec>,
    lines: Seq<Seq<char>>,
    records: Seq<CodexPromptGitRecord>,
    now: int,
)
    requires
        r1 == extract_spec(lines, records, now),
        r2 == extract_spec(lines, records, now),
    ensures
        r1 == r2,
{
}

/// Prompt indices are exactly `0 .. n`, with no gaps and no duplicates:
/// the record at position `i` carries index `i`, however synthetic turns
/// are interleaved among the qualifying ones.
pub proof fn lemma_extract_indices_sequential(
    lines: Seq<Seq<char>>,
    records: Seq<CodexPromptGitRecord>,
    now: int,
)
    ensures
        forall|i: int|
            0 <= i < extract_spec(lines, records, now).len()
                ==> (#[trigger] extract_spec(lines, records, now)[i]).index == i,
{
}

/// Truncating a log to prompt `k` and re-extracting yields exactly `k`
/// prompts, indexed `0 .. k-1`, carrying the texts of the first `k` prompts
/// of the original log. `trunc` is any log whose scan is the first `k`
/// entries of the original's scan, which is what the truncation returns.
pub proof fn lemma_truncate_then_extract(
    orig: Seq<Seq<char>>,
    trunc: Seq<Seq<char>>,
    records: Seq<CodexPromptGitRecord>,
    now: int,
    k: int,
)
    requires
        0 <= k <= prompt_entries(orig, now).len(),
        prompt_entries(trunc, now) == prompt_entries(orig, now).take(k),
    ensures
        extract_spec(trunc, records, now).len() == k,
        forall|i: int|
            0 <= i < k ==> (#[trigger] extract_spec(trunc, records, now)[i]).index == i,
        forall|i: int|
            0 <= i < k ==> (#[trigger] extract_spec(trunc, records, now)[i]).text == extract_spec(
                orig,
                records,
                now,
            )[i].text,
{
    assert(prompt_entries(trunc, now).len() == k);
    assert forall|i: int| 0 <= i < k implies (#[trigger] extract_spec(trunc, records, now)[i]).text
        == extract_spec(orig, records, now)[i].text by {
        assert(prompt_entries(trunc, now)[i] == prompt_entries(orig, now)[i]);
    }
}

/// One prompt record per qualifying user turn of the log, in file order,
/// indexed `0..`, each joined against the checkpoint store: commits and
/// `"project"` source where a checkpoint exists at its index, empty commit
/// and `"cli"` source where none does. Malformed lines never abort the
/// scan: they simply yield no record.
pub fn extract_codex_prompts(
    lines: &Vec<String>,
    records: &CodexGitRecords,
    now: i64,
) -> (r: Vec<PromptRecord>)
    ensures
        prompt_views(r@) == extract_spec(lines.deep_view(), records.records@, now as int),
{
    let ghost ld = lines.deep_view();
    let n = lines.len();
    let mut out: Vec<PromptRecord> = Vec::new();
    let mut count: usize = 0;
    let mut j: usize = 0;
    proof {
        assert(ld.take(0) =~= Seq::<Seq<char>>::empty());
        assert(prompt_views(out@) =~= extract_spec(ld.take(0), records.records@, now as int));
    }
    while j < n
        invariant
            n == lines@.len(),
            ld == lines.deep_view(),
            j <= n,
            count == prompt_entries(ld.take(j as int), now as int).len(),
            count <= j,
            prompt_views(out@) == extract_spec(ld.take(j as int), records.records@, now as int),
        decreases n - j,
    {
        proof {
            assert(ld.take(j as int + 1) =~= ld.take(j as int).push(ld[j as int]));
            lemma_prompt_entries_push(ld.take(j as int), ld[j as int], now as int);
            assert(ld[j as int] == lines@[j as int]@);
        }
        let ghost out_prev = out@;
        let ghost count_prev = count as int;
        let ghost entries_prev = prompt_entries(ld.take(j as int), now as int);
        let ghost entries_now = prompt_entries(ld.take(j as int + 1), now as int);
        match scan_line(lines[j].as_str(), now) {
            Some(entry) => {
                let (text, ts) = entry;
                let rec = match records.find(count) {
                    Some(cp) => PromptRecord {
                        index: count,
                        text,
                        git_commit_before: cp.commit_before.clone(),
                        git_commit_after: match &cp.commit_after {
                            Some(c) => Some(c.clone()),
                            None => None,
                        },
                        timestamp: if ts != 0 {
                            ts
                        } else {
                            match rfc3339_to_unix_seconds_of(&cp.timestamp) {
                                Some(n) => n,
                                None => ts,
                            }
                        },
                        source: "project".to_owned(),
                    },
                    None => PromptRecord {
                        index: count,
                        text,
                        git_commit_before: String::new(),
                        git_commit_after: None,
                        timestamp: ts,
                        source: "cli".to_owned(),
                    },
                };
                proof {
                    let e = line_entry(ld[j as int], now as int);
                    assert(entries_now == entries_prev + seq![e]);
                    assert(entries_now.len() == entries_prev.len() + 1);
                    assert(forall|i: int|
                        0 <= i < entries_prev.len() ==> entries_now[i] == entries_prev[i]);
                    assert(entries_now[count_prev] == e);
                    assert(e.0 == rec.text@);
                    assert(e.1 == ts as int);
                    assert(rec@ == joined_record(count_prev, e, records.records@));
                }
                let ghost recg = rec;
                out.push(rec);
                count += 1;
                proof {
                    assert(out@ == out_prev.push(recg));
                    assert(prompt_views(out_prev).len() == out_prev.len());
                    assert(out@.len() == count_prev + 1);
                    assert(forall|i: int| 0 <= i < count_prev ==> out@[i] == out_prev[i]);
                    assert(prompt_views(out@)[count_prev] == recg@);
                    assert(prompt_views(out_prev) == Seq::new(
                        entries_prev.len(),
                        |i: int| joined_record(i, entries_prev[i], records.records@),
                    ));
                    assert(forall|i: int|
                        0 <= i < count_prev ==> prompt_views(out_prev)[i] == joined_record(
                            i,
                            entries_prev[i],
                            records.records@,
                        ));
                    assert(forall|i: int|
                        0 <= i < count_prev ==> prompt_views(out@)[i] == prompt_views(out_prev)[i]);
                    assert(prompt_views(out@).len() == out@.len());
                    let e = line_entry(ld[j as int], now as int);
                    assert forall|i: int| 0 <= i < count_prev + 1 implies prompt_views(out@)[i]
                        == joined_record(i, entries_now[i], records.records@) by {
                        if i < count_prev {
                            assert(prompt_views(out@)[i] == prompt_views(out_prev)[i]);
                            assert(prompt_views(out_prev)[i] == joined_record(
                                i,
                                entries_prev[i],
                                records.records@,
                            ));
                            assert(entries_now[i] == entries_prev[i]);
                        } else {
                            assert(i == count_prev);
                            assert(prompt_views(out@)[i] == recg@);
                            assert(entries_now[i] == e);
                            assert(recg@ == joined_record(count_prev, e, records.records@));
                        }
                    }
                    assert(prompt_views(out@) =~= Seq::new(
                        entries_now.len(),
                        |i: int| joined_record(i, entries_now[i], records.records@),
                    ));
                }
            },
            None => {
                proof {
                    assert(entries_now =~= entries_prev);
                    assert(prompt_views(out@) =~= Seq::new(
                        entries_now.len(),
                        |i: int| joined_record(i, entries_now[i], records.records@),
                    ));
                }
            },
        }
        j += 1;
    }
    proof {
        assert(ld.take(n as int) =~= ld);
    }
    out
}

/// The timestamp of a checkpoint record as Unix seconds, when it parses.
fn rfc3339_to_unix_seconds_of(s: &String) -> (r: Option<i64>)
    ensures
        match r {
            Some(n) => rfc3339_secs(s@) == Some(n as int),
            None => rfc3339_secs(s@) is None,
        },
{
    crate::logmodel::rfc3339_to_unix_seconds(s.as_str())
}

} // verus!
