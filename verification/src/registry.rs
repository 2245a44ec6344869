//! The registry that owns running tool processes. Each handle is owned by
//! exactly one party: it sits here from spawn until either an explicit
//! cancel or the natural-exit reaper takes it out, and removal is
//! first-remover-wins — whichever of the two acts first gets the handle,
//! the other observes absence and no-ops. The handle type is a parameter:
//! the shell instantiates it with its child-process type, and nothing here
//! ever runs or kills a process.

use vstd::prelude::*;

verus! {

/// The id-to-handle map, as a vector of pairs with pairwise-distinct ids.
pub struct ProcessRegistry<H> {
    entries: Vec<(String, H)>,
}

impl<H> ProcessRegistry<H> {
    /// The registered (id, handle) pairs.
    pub closed spec fn entries_view(&self) -> Seq<(Seq<char>, H)> {
        self.entries@.map_values(|e: (String, H)| (e.0@, e.1))
    }

    /// No id occurs twice.
    pub open spec fn wf(&self) -> bool {
        forall|i: int, j: int|
            0 <= i < j < self.entries_view().len() ==> (#[trigger] self.entries_view()[i]).0 != (
            #[trigger] self.entries_view()[j]).0
    }

    /// A handle is registered under `id`.
    pub open spec fn spec_contains(&self, id: Seq<char>) -> bool {
        exists|i: int|
            0 <= i < self.entries_view().len() && (#[trigger] self.entries_view()[i]).0 == id
    }

    /// How many processes are registered.
    pub open spec fn spec_len(&self) -> nat {
        self.entries_view().len()
    }

    /// An empty registry.
    pub fn new() -> (r: ProcessRegistry<H>)
        ensures
            r.entries_view() == Seq::<(Seq<char>, H)>::empty(),
            r.wf(),
    {
        let r = ProcessRegistry { entries: Vec::new() };
        proof {
            assert(r.entries_view() =~= Seq::<(Seq<char>, H)>::empty());
        }
        r
    }

    /// How many processes are registered.
    pub fn len(&self) -> (n: usize)
        ensures
            n == self.spec_len(),
    {
        self.entries.len()
    }

    /// The position of `id`, when registered.
    fn position_of(&self, id: &str) -> (r: Option<usize>)
        ensures
            match r {
                Some(i) => i < self.entries_view().len() && self.entries_view()[i as int].0 == id@,
                None => !self.spec_contains(id@),
            },
    {
        let n = self.entries.len();
        let mut j: usize = 0;
        while j < n
            invariant
                n == self.entries@.len(),
                j <= n,
                forall|q: int| 0 <= q < j ==> (#[trigger] self.entries_view()[q]).0 != id@,
        decreases n - j,
        {
            if crate::textops::str_eq(self.entries[j].0.as_str(), id) {
                return Some(j);
            }
            j += 1;
        }
        None
    }

    /// Registers `h` under `id`. A handle already registered under the same
    /// id is replaced in place, so no id ever has two owners.
    pub fn insert(&mut self, id: String, h: H)
        requires
            old(self).wf(),
        ensures
            final(self).wf(),
            final(self).spec_contains(id@),
            match crate::registry::position_in(old(self).entries_view(), id@) {
                Some(i) => final(self).entries_view() == old(self).entries_view().update(
                    i,
                    (id@, h),
                ),
                None => final(self).entries_view() == old(self).entries_view().push((id@, h)),
            },
    {
        match self.position_of(id.as_str()) {
            Some(i) => {
                proof {
                    position_in_present(old(self).entries_view(), id@, i as int);
                }
                self.entries.set(i, (id, h));
                proof {
                    assert(self.entries_view() =~= old(self).entries_view().update(
                        position_in(old(self).entries_view(), id@).unwrap(),
                        (id@, h),
                    ));
                    assert(self.entries_view()[i as int].0 == id@);
                    assert(self.wf()) by {
                        assert(forall|q: int|
                            0 <= q < self.entries_view().len() && q != i as int
                                ==> (#[trigger] self.entries_view()[q]) == old(
                                self,
                            ).entries_view()[q]);
                        assert(old(self).entries_view()[i as int].0 == id@);
                    }
                }
            },
            None => {
                proof {
                    position_in_absent(old(self).entries_view(), id@);
                }
                self.entries.push((id, h));
                proof {
                    assert(self.entries_view() =~= old(self).entries_view().push((id@, h)));
                    let n = old(self).entries_view().len() as int;
                    assert(self.entries_view()[n].0 == id@);
                    assert(self.wf()) by {
                        assert(forall|q: int|
                            0 <= q < n ==> (#[trigger] self.entries_view()[q]) == old(
                            self,
                        ).entries_view()[q]);
                        assert(forall|q: int|
                            0 <= q < n ==> (#[trigger] old(self).entries_view()[q]).0 != id@);
                    }
                }
            },
        }
    }

    /// Takes the handle registered under `id` out, if any party still holds
    /// it here. Removal is idempotent: when the other party (cancel or
    /// reaper) was first, the result is `None` and the registry is
    /// untouched — expected, not an error.
    pub fn remove(&mut self, id: &str) -> (r: Option<H>)
        requires
            old(self).wf(),
        ensures
            final(self).wf(),
            !final(self).spec_contains(id@),
            match r {
                Some(h) => {
                    &&& old(self).spec_contains(id@)
                    &&& exists|i: int|
                        0 <= i < old(self).entries_view().len() && old(self).entries_view()[i] == (
                        id@,
                        h,
                        ) && final(self).entries_view() == old(self).entries_view().remove(i)
                },
                None => !old(self).spec_contains(id@) && final(self).entries_view() == old(
                    self,
                ).entries_view(),
            },
    {
        match self.position_of(id) {
            Some(i) => {
                let entry = self.entries.remove(i);
                proof {
                    assert(self.entries_view() =~= old(self).entries_view().remove(i as int));
                    assert(!self.spec_contains(id@)) by {
                        if self.spec_contains(id@) {
                            let q = choose|q: int|
                                0 <= q < self.entries_view().len() && (
                                #[trigger] self.entries_view()[q]).0 == id@;
                            if q < i as int {
                                assert(old(self).entries_view()[q].0 == id@);
                            } else {
                                assert(old(self).entries_view()[q + 1].0 == id@);
                            }
                        }
                    }
                }
                Some(entry.1)
            },
            None => None,
        }
    }

    /// Takes every handle out, leaving the registry empty: the cancel-all
    /// path drains the whole map.
    pub fn drain(&mut self) -> (r: Vec<(String, H)>)
        requires
            old(self).wf(),
        ensures
            final(self).wf(),
            final(self).spec_len() == 0,
            r@.map_values(|e: (String, H)| (e.0@, e.1)) == old(self).entries_view(),
    {
        let mut out: Vec<(String, H)> = Vec::new();
        core::mem::swap(&mut out, &mut self.entries);
        proof {
            assert(self.entries_view() =~= Seq::<(Seq<char>, H)>::empty());
        }
        out
    }
}

/// The position of the first pair keyed `id`, if any.
pub open spec fn position_in<H>(s: Seq<(Seq<char>, H)>, id: Seq<char>) -> Option<int> {
    if exists|i: int| 0 <= i < s.len() && (#[trigger] s[i]).0 == id {
        Some(
            choose|i: int|
                0 <= i < s.len() && (#[trigger] s[i]).0 == id && forall|q: int|
                    0 <= q < i ==> (#[trigger] s[q]).0 != id,
        )
    } else {
        None
    }
}

/// When position `i` holds `id` and no earlier one does, `position_in`
/// picks exactly `i`.
proof fn position_in_present<H>(s: Seq<(Seq<char>, H)>, id: Seq<char>, i: int)
    requires
        0 <= i < s.len(),
        s[i].0 == id,
        forall|q: int| 0 <= q < i ==> (#[trigger] s[q]).0 != id,
    ensures
        position_in(s, id) == Some(i),
{
    assert(exists|q: int| 0 <= q < s.len() && (#[trigger] s[q]).0 == id);
    let c = choose|q: int|
        0 <= q < s.len() && (#[trigger] s[q]).0 == id && forall|p: int|
            0 <= p < q ==> (#[trigger] s[p]).0 != id;
    assert(c == i) by {
        if c < i {
            assert(s[c].0 != id);
        }
        if i < c {
            assert(s[i].0 != id);
        }
    }
}

/// When no position holds `id`, `position_in` is `None`.
proof fn position_in_absent<H>(s: Seq<(Seq<char>, H)>, id: Seq<char>)
    requires
        forall|q: int| 0 <= q < s.len() ==> (#[trigger] s[q]).0 != id,
    ensures
        position_in(s, id) is None,
{
}

} // verus!
