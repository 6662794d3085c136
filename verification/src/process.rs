//! Registry of the child processes that long-running tool tasks spawned.

use vstd::prelude::*;

use crate::text::str_eq;

verus! {

/// Maps the run id of a long task to the pid of its child process.
///
/// `take` hands an entry out and removes it, so a run id can be killed at
/// most once; `drain` empties the registry when the application exits.
pub struct ProcessRegistry {
    entries: Vec<(String, u32)>,
}

pub open spec fn distinct_keys(entries: Seq<(Seq<char>, u32)>) -> bool {
    forall|i: int, j: int|
        0 <= i < entries.len() && 0 <= j < entries.len() && i != j ==> entries[i].0 != entries[j].0
}

/// The run id registered under `key`, if any, as a map lookup.
pub open spec fn lookup(entries: Seq<(Seq<char>, u32)>, key: Seq<char>) -> Option<u32>
    decreases entries.len(),
{
    if entries.len() == 0 {
        None
    } else if entries.last().0 == key {
        Some(entries.last().1)
    } else {
        lookup(entries.drop_last(), key)
    }
}

impl ProcessRegistry {
    /// Entries in registration order, run ids taken by their characters.
    pub closed spec fn entries(&self) -> Seq<(Seq<char>, u32)> {
        self.entries@.map_values(|e: (String, u32)| (e.0@, e.1))
    }

    #[verifier::type_invariant]
    closed spec fn wf(&self) -> bool {
        distinct_keys(self.entries())
    }

    /// The pid registered for `run_id`.
    pub open spec fn get(&self, run_id: Seq<char>) -> Option<u32> {
        lookup(self.entries(), run_id)
    }

    /// All registered pids, in registration order.
    pub open spec fn pids(&self) -> Seq<u32> {
        self.entries().map_values(|e: (Seq<char>, u32)| e.1)
    }

    pub fn new() -> (r: Self)
        ensures
            r.entries() == Seq::<(Seq<char>, u32)>::empty(),
    {
        let r = ProcessRegistry { entries: Vec::new() };
        assert(r.entries() =~= Seq::<(Seq<char>, u32)>::empty());
        r
    }

    fn position(&self, run_id: &str) -> (r: Option<usize>)
        ensures
            match r {
                Some(i) => i < self.entries().len() && self.entries()[i as int].0 == run_id@,
                None => forall|i: int|
                    0 <= i < self.entries().len() ==> self.entries()[i].0 != run_id@,
            },
    {
        let mut i: usize = 0;
        while i < self.entries.len()
            invariant
                i <= self.entries@.len(),
                self.entries().len() == self.entries@.len(),
                forall|j: int| 0 <= j < i ==> self.entries()[j].0 != run_id@,
            decreases self.entries@.len() - i,
        {
            if str_eq(self.entries[i].0.as_str(), run_id) {
                return Some(i);
            }
            i += 1;
        }
        None
    }

    /// Registers `pid` under `run_id`, replacing an earlier pid of that run.
    pub fn register(&mut self, run_id: &str, pid: u32)
        ensures
            forall|k: Seq<char>|
                #[trigger] final(self).get(k) == (if k == run_id@ {
                    Some(pid)
                } else {
                    old(self).get(k)
                }),
            old(self).get(run_id@) is None ==> final(self).entries() == old(self).entries().push(
                (run_id@, pid),
            ),
            old(self).get(run_id@) is Some ==> final(self).entries().len()
                == old(self).entries().len(),
    {
        proof {
            use_type_invariant(&*self);
        }
        let ghost old_entries = self.entries();
        match self.position(run_id) {
            Some(i) => {
                let mut entries: Vec<(String, u32)> = Vec::new();
                std::mem::swap(&mut entries, &mut self.entries);
                entries.set(i, (run_id.to_owned(), pid));
                assert(entries@.map_values(|e: (String, u32)| (e.0@, e.1)) =~= old_entries.update(i as int, (run_id@, pid)));
                assert(distinct_keys(entries@.map_values(|e: (String, u32)| (e.0@, e.1))));
                self.entries = entries;
                assert(self.entries() =~= old_entries.update(i as int, (run_id@, pid)));
                proof {
                    lemma_lookup_at(old_entries, run_id@, i as int);
                    assert forall|k: Seq<char>| #[trigger] lookup(self.entries(), k) == (if k
                        == run_id@ {
                        Some(pid)
                    } else {
                        lookup(old_entries, k)
                    }) by {
                        lemma_lookup_update(old_entries, i as int, pid, k);
                    }
                }
            },
            None => {
                let mut entries: Vec<(String, u32)> = Vec::new();
                std::mem::swap(&mut entries, &mut self.entries);
                entries.push((run_id.to_owned(), pid));
                assert(entries@.map_values(|e: (String, u32)| (e.0@, e.1)) =~= old_entries.push((run_id@, pid)));
                assert(distinct_keys(entries@.map_values(|e: (String, u32)| (e.0@, e.1))));
                self.entries = entries;
                assert(self.entries() =~= old_entries.push((run_id@, pid)));
                proof {
                    lemma_lookup_none(old_entries, run_id@);
                    assert forall|k: Seq<char>| #[trigger] lookup(self.entries(), k) == (if k
                        == run_id@ {
                        Some(pid)
                    } else {
                        lookup(old_entries, k)
                    }) by {
                        assert(self.entries().drop_last() =~= old_entries);
                    }
                }
            },
        }
    }

    /// Hands out the pid of `run_id` and removes it, so that a second call
    /// for the same run gives nothing.
    pub fn take(&mut self, run_id: &str) -> (r: Option<u32>)
        ensures
            r == old(self).get(run_id@),
            forall|k: Seq<char>|
                #[trigger] final(self).get(k) == (if k == run_id@ {
                    None
                } else {
                    old(self).get(k)
                }),
    {
        proof {
            use_type_invariant(&*self);
        }
        let ghost old_entries = self.entries();
        match self.position(run_id) {
            Some(i) => {
                let mut entries: Vec<(String, u32)> = Vec::new();
                std::mem::swap(&mut entries, &mut self.entries);
                let (_, pid) = entries.remove(i);
                assert(entries@.map_values(|e: (String, u32)| (e.0@, e.1)) =~= old_entries.remove(i as int));
                assert(distinct_keys(entries@.map_values(|e: (String, u32)| (e.0@, e.1))));
                self.entries = entries;
                assert(self.entries() =~= old_entries.remove(i as int));
                proof {
                    lemma_lookup_at(old_entries, run_id@, i as int);
                    assert forall|k: Seq<char>| #[trigger] lookup(self.entries(), k) == (if k
                        == run_id@ {
                        None
                    } else {
                        lookup(old_entries, k)
                    }) by {
                        lemma_lookup_remove(old_entries, i as int, k);
                    }
                }
                Some(pid)
            },
            None => {
                proof {
                    lemma_lookup_none(old_entries, run_id@);
                }
                None
            },
        }
    }

    /// Hands out every registered pid, in registration order, and empties
    /// the registry.
    pub fn drain(&mut self) -> (r: Vec<u32>)
        ensures
            r@ == old(self).pids(),
            final(self).entries() == Seq::<(Seq<char>, u32)>::empty(),
    {
        let mut r: Vec<u32> = Vec::new();
        let mut i: usize = 0;
        while i < self.entries.len()
            invariant
                i <= self.entries@.len(),
                r@ == self.pids().take(i as int),
            decreases self.entries@.len() - i,
        {
            r.push(self.entries[i].1);
            i += 1;
            assert(r@ =~= self.pids().take(i as int));
        }
        assert(r@ =~= self.pids());
        self.entries = Vec::new();
        assert(self.entries() =~= Seq::<(Seq<char>, u32)>::empty());
        r
    }
}

impl Default for ProcessRegistry {
    fn default() -> (r: Self)
        ensures
            r.entries() == Seq::<(Seq<char>, u32)>::empty(),
    {
        ProcessRegistry::new()
    }
}

proof fn lemma_lookup_none(e: Seq<(Seq<char>, u32)>, key: Seq<char>)
    requires
        forall|i: int| 0 <= i < e.len() ==> e[i].0 != key,
    ensures
        lookup(e, key) is None,
    decreases e.len(),
{
    if e.len() > 0 {
        lemma_lookup_none(e.drop_last(), key);
    }
}

proof fn lemma_lookup_at(e: Seq<(Seq<char>, u32)>, key: Seq<char>, i: int)
    requires
        distinct_keys(e),
        0 <= i < e.len(),
        e[i].0 == key,
    ensures
        lookup(e, key) == Some(e[i].1),
    decreases e.len(),
{
    if i != e.len() - 1 {
        lemma_lookup_at(e.drop_last(), key, i);
    }
}

proof fn lemma_lookup_update(e: Seq<(Seq<char>, u32)>, i: int, pid: u32, k: Seq<char>)
    requires
        distinct_keys(e),
        0 <= i < e.len(),
    ensures
        lookup(e.update(i, (e[i].0, pid)), k) == (if k == e[i].0 {
            Some(pid)
        } else {
            lookup(e, k)
        }),
    decreases e.len(),
{
    let u = e.update(i, (e[i].0, pid));
    if i == e.len() - 1 {
        assert(u.drop_last() =~= e.drop_last());
        if k == e[i].0 {
        } else {
        }
    } else {
        assert(u.drop_last() =~= e.drop_last().update(i, (e[i].0, pid)));
        lemma_lookup_update(e.drop_last(), i, pid, k);
    }
}

proof fn lemma_lookup_remove(e: Seq<(Seq<char>, u32)>, i: int, k: Seq<char>)
    requires
        distinct_keys(e),
        0 <= i < e.len(),
    ensures
        lookup(e.remove(i), k) == (if k == e[i].0 {
            None
        } else {
            lookup(e, k)
        }),
    decreases e.len(),
{
    let r = e.remove(i);
    if i == e.len() - 1 {
        assert(r =~= e.drop_last());
        if k == e[i].0 {
            lemma_lookup_none(e.drop_last(), k);
        }
    } else {
        assert(r.drop_last() =~= e.drop_last().remove(i));
        assert(r.last() == e.last());
        lemma_lookup_remove(e.drop_last(), i, k);
    }
}

} // verus!
