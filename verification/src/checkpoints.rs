//! The checkpoint store: per-session git records, one per prompt index.
//! A checkpoint is appended when a prompt is about to be sent (capturing the
//! commit before), completed when the tool finishes (capturing the commit
//! after), and truncated by a rewind. Reading and writing the side-car file
//! is the caller's concern; every operation here is a pure function from the
//! record collection to the new one.

use vstd::prelude::*;

verus! {

/// Git state recorded around one prompt.
#[derive(Debug)]
pub struct CodexPromptGitRecord {
    pub prompt_index: usize,
    pub commit_before: String,
    pub commit_after: Option<String>,
    pub timestamp: String,
}

impl Clone for CodexPromptGitRecord {
    fn clone(&self) -> (r: Self)
        ensures
            r == *self,
    {
        CodexPromptGitRecord {
            prompt_index: self.prompt_index,
            commit_before: self.commit_before.clone(),
            commit_after: match &self.commit_after {
                Some(c) => Some(c.clone()),
                None => None,
            },
            timestamp: self.timestamp.clone(),
        }
    }
}

/// All git records of one session, with the project they belong to.
#[derive(Debug)]
pub struct CodexGitRecords {
    pub session_id: String,
    pub project_path: String,
    pub records: Vec<CodexPromptGitRecord>,
}

impl Clone for CodexGitRecords {
    fn clone(&self) -> (r: Self)
        ensures
            r.session_id == self.session_id,
            r.project_path == self.project_path,
            r.records@ == self.records@,
    {
        let n = self.records.len();
        let mut records: Vec<CodexPromptGitRecord> = Vec::new();
        let mut j: usize = 0;
        while j < n
            invariant
                n == self.records@.len(),
                j <= n,
                records@ == self.records@.take(j as int),
            decreases n - j,
        {
            records.push(self.records[j].clone());
            proof {
                assert(records@ =~= self.records@.take(j as int + 1));
            }
            j += 1;
        }
        proof {
            assert(self.records@.take(n as int) =~= self.records@);
        }
        CodexGitRecords {
            session_id: self.session_id.clone(),
            project_path: self.project_path.clone(),
            records,
        }
    }
}

/// The first record for prompt index `i`, if any.
pub open spec fn find_record(records: Seq<CodexPromptGitRecord>, i: int) -> Option<
    CodexPromptGitRecord,
>
    decreases records.len(),
{
    if records.len() == 0 {
        None
    } else if records.first().prompt_index == i {
        Some(records.first())
    } else {
        find_record(records.drop_first(), i)
    }
}

/// There is a record for prompt index `i`.
pub open spec fn has_record(records: Seq<CodexPromptGitRecord>, i: int) -> bool {
    find_record(records, i) is Some
}

impl CodexGitRecords {
    /// An empty record collection for a session, as the store yields when no
    /// side-car file exists yet.
    pub fn empty(session_id: String) -> (r: CodexGitRecords)
        ensures
            r.session_id == session_id,
            r.project_path@ == Seq::<char>::empty(),
            r.records@ == Seq::<CodexPromptGitRecord>::empty(),
    {
        CodexGitRecords { session_id, project_path: String::new(), records: Vec::new() }
    }

    /// The first record for prompt index `i`, if any.
    pub fn find(&self, i: usize) -> (r: Option<&CodexPromptGitRecord>)
        ensures
            match r {
                Some(rec) => find_record(self.records@, i as int) == Some(*rec),
                None => find_record(self.records@, i as int) is None,
            },
    {
        let n = self.records.len();
        let mut j: usize = 0;
        proof {
            assert(self.records@.skip(0) =~= self.records@);
        }
        while j < n
            invariant
                n == self.records@.len(),
                j <= n,
                find_record(self.records@, i as int) == find_record(
                    self.records@.skip(j as int),
                    i as int,
                ),
            decreases n - j,
        {
            proof {
                assert(self.records@.skip(j as int).first() == self.records@[j as int]);
                assert(self.records@.skip(j as int).drop_first() =~= self.records@.skip(
                    j as int + 1,
                ));
            }
            if self.records[j].prompt_index == i {
                return Some(&self.records[j]);
            }
            j += 1;
        }
        proof {
            assert(self.records@.skip(n as int) =~= Seq::<CodexPromptGitRecord>::empty());
        }
        None
    }

    /// Appends the checkpoint for the prompt about to be sent: its index is
    /// the current record count, `commit_before` is the commit the caller
    /// read from the repository's head, and `commit_after` is still open.
    /// Adopts `project_path` when none is recorded yet.
    pub fn append_checkpoint(
        &mut self,
        project_path: &str,
        commit_before: String,
        timestamp: String,
    ) -> (idx: usize)
        requires
            old(self).records@.len() < usize::MAX,
        ensures
            idx == old(self).records@.len(),
            final(self).records@ == old(self).records@.push(
                CodexPromptGitRecord {
                    prompt_index: idx,
                    commit_before: commit_before,
                    commit_after: None,
                    timestamp: timestamp,
                },
            ),
            final(self).session_id == old(self).session_id,
            final(self).project_path@ == if old(self).project_path@.len() == 0 {
                project_path@
            } else {
                old(self).project_path@
            },
    {
        if self.project_path.as_str().is_empty() {
            self.project_path = project_path.to_owned();
        }
        let idx = self.records.len();
        self.records.push(
            CodexPromptGitRecord {
                prompt_index: idx,
                commit_before,
                commit_after: None,
                timestamp,
            },
        );
        idx
    }

    /// Closes the checkpoint at `prompt_index` with the commit the caller
    /// read after the tool finished. When no record exists at that index the
    /// collection is unchanged and `false` comes back: completion of a
    /// prompt never sent through this store is a no-op, not an error.
    pub fn complete_checkpoint(&mut self, prompt_index: usize, commit_after: String) -> (updated:
        bool)
        ensures
            updated == has_record(old(self).records@, prompt_index as int),
            final(self).session_id == old(self).session_id,
            final(self).project_path == old(self).project_path,
            !updated ==> final(self).records@ == old(self).records@,
            updated ==> exists|p: int|
                {
                    &&& 0 <= p < old(self).records@.len()
                    &&& old(self).records@[p].prompt_index == prompt_index as int
                    &&& (forall|k: int|
                        0 <= k < p ==> (#[trigger] old(self).records@[k]).prompt_index
                            != prompt_index as int)
                    &&& final(self).records@ == old(self).records@.update(
                        p,
                        CodexPromptGitRecord {
                            prompt_index: old(self).records@[p].prompt_index,
                            commit_before: old(self).records@[p].commit_before,
                            commit_after: Some(commit_after),
                            timestamp: old(self).records@[p].timestamp,
                        },
                    )
                },
    {
        let n = self.records.len();
        let mut j: usize = 0;
        proof {
            assert(self.records@.skip(0) =~= self.records@);
        }
        while j < n
            invariant
                n == self.records@.len(),
                j <= n,
                self == old(self),
                forall|k: int|
                    0 <= k < j ==> (#[trigger] self.records@[k]).prompt_index
                        != prompt_index as int,
                find_record(self.records@, prompt_index as int) == find_record(
                    self.records@.skip(j as int),
                    prompt_index as int,
                ),
            decreases n - j,
        {
            proof {
                assert(self.records@.skip(j as int).first() == self.records@[j as int]);
                assert(self.records@.skip(j as int).drop_first() =~= self.records@.skip(
                    j as int + 1,
                ));
            }
            if self.records[j].prompt_index == prompt_index {
                let rec = CodexPromptGitRecord {
                    prompt_index: self.records[j].prompt_index,
                    commit_before: self.records[j].commit_before.clone(),
                    commit_after: Some(commit_after),
                    timestamp: self.records[j].timestamp.clone(),
                };
                self.records.set(j, rec);
                return true;
            }
            j += 1;
        }
        proof {
            assert(self.records@.skip(n as int) =~= Seq::<CodexPromptGitRecord>::empty());
        }
        false
    }
}

/// The records that survive a rewind to `prompt_index`: exactly those whose
/// index is strictly below it, in their original order.
pub open spec fn truncated_records(
    records: Seq<CodexPromptGitRecord>,
    prompt_index: int,
) -> Seq<CodexPromptGitRecord> {
    records.filter(|r: CodexPromptGitRecord| r.prompt_index < prompt_index)
}

/// The record collection after a rewind to `prompt_index`: every record at
/// or past that index is dropped, the rest stay in order.
pub fn truncate_codex_git_records(records: &CodexGitRecords, prompt_index: usize) -> (r:
    CodexGitRecords)
    ensures
        r.session_id == records.session_id,
        r.project_path == records.project_path,
        r.records@ == truncated_records(records.records@, prompt_index as int),
{
    let ghost pred = |rec: CodexPromptGitRecord| rec.prompt_index < prompt_index as int;
    let n = records.records.len();
    let mut kept: Vec<CodexPromptGitRecord> = Vec::new();
    let mut j: usize = 0;
    proof {
        assert(records.records@.take(0) =~= Seq::<CodexPromptGitRecord>::empty());
        reveal_with_fuel(Seq::filter, 1);
    }
    while j < n
        invariant
            n == records.records@.len(),
            j <= n,
            kept@ == records.records@.take(j as int).filter(pred),
            pred == (|rec: CodexPromptGitRecord| rec.prompt_index < prompt_index as int),
        decreases n - j,
    {
        proof {
            assert(records.records@.take(j as int + 1).drop_last() =~= records.records@.take(
                j as int,
            ));
            assert(records.records@.take(j as int + 1).last() == records.records@[j as int]);
            reveal_with_fuel(Seq::filter, 2);
        }
        if records.records[j].prompt_index < prompt_index {
            kept.push(records.records[j].clone());
        }
        j += 1;
    }
    proof {
        assert(records.records@.take(n as int) =~= records.records@);
    }
    CodexGitRecords {
        session_id: records.session_id.clone(),
        project_path: records.project_path.clone(),
        records: kept,
    }
}

} // verus!
