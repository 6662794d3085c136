//! The background jobs running per channel (syncs, date checks), each
//! with the token by which it is cancelled.

use vstd::prelude::*;

use crate::keys::{distinct, has_key, key_index, lemma_insert_key, lemma_key_index, lemma_key_index_found};
use crate::text::{concat, owned, str_eq};

verus! {

/// At most one job per channel id.
pub struct ActiveJobs<T> {
    entries: Vec<(String, T)>,
}

impl<T> ActiveJobs<T> {
    /// The channel ids with a running job, in the order the jobs started.
    pub closed spec fn ids(&self) -> Seq<Seq<char>> {
        self.entries@.map_values(|e: (String, T)| e.0@)
    }

    /// The token of the job of `id`.
    pub closed spec fn token(&self, id: Seq<char>) -> Option<T> {
        if has_key(self.ids(), id) {
            Some(self.entries@[key_index(self.ids(), id)].1)
        } else {
            None
        }
    }

    #[verifier::type_invariant]
    closed spec fn wf(&self) -> bool {
        distinct(self.ids())
    }

    pub fn new() -> (r: Self)
        ensures
            r.ids() == Seq::<Seq<char>>::empty(),
            forall|k: Seq<char>| #[trigger] r.token(k) is None,
    {
        let r = ActiveJobs { entries: Vec::new() };
        assert(r.ids() =~= Seq::<Seq<char>>::empty());
        r
    }

    fn position(&self, id: &str) -> (r: Option<usize>)
        ensures
            match r {
                Some(i) => i < self.ids().len() && self.ids()[i as int] == id@,
                None => !has_key(self.ids(), id@),
            },
    {
        let n = self.entries.len();
        let mut i: usize = 0;
        while i < n
            invariant
                n == self.entries@.len(),
                i <= n,
                forall|j: int| 0 <= j < i ==> self.ids()[j] != id@,
            decreases n - i,
        {
            if str_eq(self.entries[i].0.as_str(), id) {
                return Some(i);
            }
            i += 1;
        }
        None
    }

    /// Whether `id` has a running job.
    pub fn is_active(&self, id: &str) -> (r: bool)
        ensures
            r == self.token(id@) is Some,
    {
        self.position(id).is_some()
    }

    /// Registers the job of `id` with `token`; refused with
    /// `err_channel_already_syncing` while `id` has one.
    pub fn begin(&mut self, id: &str, token: T) -> (r: Result<(), String>)
        ensures
            old(self).token(id@) is Some ==> (r matches Err(e) && e@ == "err_channel_already_syncing"@)
                && final(self).ids() == old(self).ids() && final(self).token(id@) == old(
                self,
            ).token(id@),
            old(self).token(id@) is None ==> r is Ok && final(self).ids() == old(self).ids().push(
                id@,
            ) && final(self).token(id@) == Some(token),
            forall|k: Seq<char>|
                k != id@ ==> #[trigger] final(self).token(k) == old(self).token(k),
    {
        proof {
            use_type_invariant(&*self);
        }
        let ghost old_ids = self.ids();
        match self.position(id) {
            Some(_) => Err(owned("err_channel_already_syncing")),
            None => {
                proof {
                    lemma_insert_key(old_ids, old_ids.len() as int, id@);
                }
                let mut entries: Vec<(String, T)> = Vec::new();
                std::mem::swap(&mut entries, &mut self.entries);
                entries.push((owned(id), token));
                assert(entries@.map_values(|e: (String, T)| e.0@) =~= old_ids.insert(
                    old_ids.len() as int,
                    id@,
                ));
                self.entries = entries;
                assert(self.ids() =~= old_ids.push(id@));
                proof {
                    assert forall|k: Seq<char>| k != id@ implies #[trigger] self.token(k) == old(
                        self,
                    ).token(k) by {
                        if has_key(old_ids, k) {
                            lemma_key_index_found(old_ids, k);
                        }
                    }
                }
                Ok(())
            },
        }
    }

    /// Ends the job of `id` and hands out its token (to cancel it); nothing
    /// when `id` has no job.
    pub fn take(&mut self, id: &str) -> (r: Option<T>)
        ensures
            r == old(self).token(id@),
            final(self).token(id@) is None,
            forall|k: Seq<char>|
                k != id@ ==> #[trigger] final(self).token(k) == old(self).token(k),
    {
        proof {
            use_type_invariant(&*self);
        }
        let ghost old_ids = self.ids();
        match self.position(id) {
            None => None,
            Some(i) => {
                proof {
                    lemma_key_index(old_ids, i as int);
                }
                let mut entries: Vec<(String, T)> = Vec::new();
                std::mem::swap(&mut entries, &mut self.entries);
                let (_, token) = entries.remove(i);
                let ghost new_ids = entries@.map_values(|e: (String, T)| e.0@);
                assert(new_ids =~= old_ids.remove(i as int));
                assert(distinct(new_ids));
                self.entries = entries;
                proof {
                    assert(self.ids() =~= old_ids.remove(i as int));
                    assert(!has_key(self.ids(), id@));
                    assert forall|k: Seq<char>| k != id@ implies #[trigger] self.token(k) == old(
                        self,
                    ).token(k) by {
                        if has_key(old_ids, k) {
                            lemma_key_index_found(old_ids, k);
                            let j = key_index(old_ids, k);
                            let nj = if j < i {
                                j
                            } else {
                                j - 1
                            };
                            assert(self.ids()[nj] == k);
                            lemma_key_index(self.ids(), nj);
                        }
                        if has_key(self.ids(), k) {
                            lemma_key_index_found(self.ids(), k);
                            let j = key_index(self.ids(), k);
                            if j < i {
                                assert(old_ids[j] == k);
                            } else {
                                assert(old_ids[j + 1] == k);
                            }
                        }
                    }
                }
                Some(token)
            },
        }
    }

    /// The channel ids with a running job.
    pub fn active_ids(&self) -> (r: Vec<String>)
        ensures
            r@.map_values(|s: String| s@) == self.ids(),
    {
        let n = self.entries.len();
        let mut r: Vec<String> = Vec::new();
        let mut i: usize = 0;
        while i < n
            invariant
                n == self.entries@.len(),
                i <= n,
                r@.map_values(|s: String| s@) == self.ids().take(i as int),
            decreases n - i,
        {
            let ghost before = r@;
            let x = owned(self.entries[i].0.as_str());
            r.push(x);
            assert(r@ == before.push(x));
            assert(r@.map_values(|s: String| s@) =~= before.map_values(|s: String| s@).push(x@));
            assert(self.ids().take(i + 1) =~= self.ids().take(i as int).push(x@));
            i += 1;
        }
        assert(self.ids().take(n as int) =~= self.ids());
        r
    }
}

/// The checks that come before a channel sync starts: refused with
/// `err_channel_not_found:<id>` when no channel has `channel_id` (the table
/// is left as it was), and otherwise registered as `begin` does it.
pub fn sync_start<T>(jobs: &mut ActiveJobs<T>, channel_id: &str, channel_found: bool, token: T) -> (r:
    Result<(), String>)
    ensures
        !channel_found ==> (r matches Err(e) && e@ == "err_channel_not_found:"@ + channel_id@)
            && *final(jobs) == *old(jobs),
        channel_found && old(jobs).token(channel_id@) is Some ==> (r matches Err(e) && e@
            == "err_channel_already_syncing"@) && final(jobs).ids() == old(jobs).ids()
            && final(jobs).token(channel_id@) == old(jobs).token(channel_id@),
        channel_found && old(jobs).token(channel_id@) is None ==> r is Ok && final(jobs).ids()
            == old(jobs).ids().push(channel_id@) && final(jobs).token(channel_id@) == Some(token),
        forall|k: Seq<char>|
            k != channel_id@ ==> #[trigger] final(jobs).token(k) == old(jobs).token(k),
{
    if !channel_found {
        return Err(concat("err_channel_not_found:", channel_id));
    }
    jobs.begin(channel_id, token)
}

/// The checks that come before a date check starts, given the number of
/// videos that still need an exact date (or the error of reading them):
/// refused with `err_channel_already_syncing` while the channel has a job;
/// otherwise the read error is handed on, and `Ok(n)` is returned with the
/// job registered only when there is something to check (`n > 0`).
pub fn enrich_start<T>(
    jobs: &mut ActiveJobs<T>,
    channel_id: &str,
    targets: Result<usize, String>,
    token: T,
) -> (r: Result<usize, String>)
    ensures
        old(jobs).token(channel_id@) is Some ==> (r matches Err(e) && e@
            == "err_channel_already_syncing"@) && *final(jobs) == *old(jobs),
        old(jobs).token(channel_id@) is None ==> match targets {
            Err(e) => r == Err::<usize, String>(e) && *final(jobs) == *old(jobs),
            Ok(n) => r == Ok::<usize, String>(n) && (n == 0 ==> *final(jobs) == *old(jobs)) && (n
                > 0 ==> final(jobs).ids() == old(jobs).ids().push(channel_id@) && final(jobs).token(
                channel_id@,
            ) == Some(token) && forall|k: Seq<char>|
                k != channel_id@ ==> #[trigger] final(jobs).token(k) == old(jobs).token(k)),
        },
{
    if jobs.is_active(channel_id) {
        return Err(owned("err_channel_already_syncing"));
    }
    match targets {
        Err(e) => Err(e),
        Ok(n) => {
            if n > 0 {
                let started = jobs.begin(channel_id, token);
                assert(started is Ok);
            }
            Ok(n)
        },
    }
}

} // verus!
