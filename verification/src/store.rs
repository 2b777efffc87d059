//! Vote store: durable records keyed by (session, candidate), with batch
//! pruning by session floor and batch application of the timeout rule.
//!
//! The store is a list of records with pairwise distinct keys; its
//! mathematical model is the finite map from keys to record models.

use vstd::prelude::*;

use crate::statemachine::timeout_entry;
use crate::types::DisputeStatus;
use crate::types::CandidateHash;
use crate::types::EntryModel;
use crate::types::SessionIndex;
use crate::types::StoredEntry;

verus! {

/// The key of a stored record.
pub open spec fn entry_key(e: StoredEntry) -> (SessionIndex, CandidateHash) {
    (e.session, e.candidate)
}

/// Pairwise distinct keys.
pub open spec fn unique_keys(s: Seq<StoredEntry>) -> bool {
    forall|i: int, j: int|
        0 <= i < j < s.len() ==> entry_key(#[trigger] s[i]) != entry_key(#[trigger] s[j])
}

/// The map from keys to record models that a record list denotes (on duplicate
/// keys the later record wins; the store keeps keys unique, so this never
/// matters).
pub open spec fn store_map(s: Seq<StoredEntry>) -> Map<(SessionIndex, CandidateHash), EntryModel>
    decreases s.len(),
{
    if s.len() == 0 {
        Map::empty()
    } else {
        store_map(s.drop_last()).insert(entry_key(s.last()), s.last()@)
    }
}

/// With unique keys, the denoted map contains exactly the keys of the list's
/// records, each bound to the model of its record.
pub proof fn lemma_store_map_characterize(s: Seq<StoredEntry>, k: (SessionIndex, CandidateHash))
    requires
        unique_keys(s),
    ensures
        store_map(s).contains_key(k) <==> (exists|i: int|
            0 <= i < s.len() && entry_key(#[trigger] s[i]) == k),
        forall|i: int|
            0 <= i < s.len() && entry_key(#[trigger] s[i]) == k ==> store_map(s)[k] == s[i]@,
    decreases s.len(),
{
    if s.len() == 0 {
    } else {
        let t = s.drop_last();
        assert(unique_keys(t)) by {
            assert(forall|i: int, j: int|
                0 <= i < j < t.len() ==> entry_key(#[trigger] t[i]) != entry_key(
                    #[trigger] t[j],
                )) by {
                assert(forall|i: int| 0 <= i < t.len() ==> t[i] == s[i]);
            }
        }
        lemma_store_map_characterize(t, k);
        let last = s.last();
        if entry_key(last) == k {
            assert(entry_key(s[s.len() - 1]) == k);
            assert forall|i: int| 0 <= i < s.len() && entry_key(#[trigger] s[i]) == k implies
                store_map(s)[k] == s[i]@ by {
                if i < s.len() - 1 {
                    assert(entry_key(s[i]) != entry_key(s[s.len() - 1]));
                }
            }
        } else {
            assert forall|i: int| 0 <= i < s.len() && entry_key(#[trigger] s[i]) == k implies
                store_map(s)[k] == s[i]@ by {
                assert(i < s.len() - 1);
                assert(t[i] == s[i]);
            }
            if exists|i: int| 0 <= i < s.len() && entry_key(#[trigger] s[i]) == k {
                let i = choose|i: int| 0 <= i < s.len() && entry_key(#[trigger] s[i]) == k;
                assert(t[i] == s[i]);
            }
        }
    }
}

/// Append preserves the denoted map up to inserting the new record.
pub proof fn lemma_store_map_push(s: Seq<StoredEntry>, e: StoredEntry)
    ensures
        store_map(s.push(e)) == store_map(s).insert(entry_key(e), e@),
{
    assert(s.push(e).drop_last() =~= s);
    assert(s.push(e).last() == e);
}

/// Whether `e` occurs somewhere in `s`.
pub open spec fn appears_in(e: StoredEntry, s: Seq<StoredEntry>) -> bool {
    exists|j: int| 0 <= j < s.len() && e == #[trigger] s[j]
}

/// A record list with unique keys denotes any map that binds exactly the
/// list's keys to the models of their records.
pub proof fn lemma_store_map_ext(
    s: Seq<StoredEntry>,
    m: Map<(SessionIndex, CandidateHash), EntryModel>,
)
    requires
        unique_keys(s),
        forall|j: int|
            0 <= j < s.len() ==> m.contains_key(entry_key(#[trigger] s[j])) && m[entry_key(s[j])]
                == s[j]@,
        forall|k: (SessionIndex, CandidateHash)|
            #[trigger] m.contains_key(k) ==> exists|j: int|
                0 <= j < s.len() && entry_key(#[trigger] s[j]) == k,
    ensures
        store_map(s) == m,
{
    assert forall|k: (SessionIndex, CandidateHash)| #[trigger]
        store_map(s).dom().contains(k) implies m.dom().contains(k) && store_map(s)[k] == m[k] by {
        lemma_store_map_characterize(s, k);
        assert(store_map(s).contains_key(k));
        let j = choose|j: int| 0 <= j < s.len() && entry_key(#[trigger] s[j]) == k;
        assert(m.contains_key(entry_key(s[j])));
    }
    assert forall|k: (SessionIndex, CandidateHash)| #[trigger]
        m.dom().contains(k) implies store_map(s).dom().contains(k) by {
        assert(m.contains_key(k));
        let j = choose|j: int| 0 <= j < s.len() && entry_key(#[trigger] s[j]) == k;
        lemma_store_map_characterize(s, k);
        assert(store_map(s).contains_key(k));
    }
    assert(store_map(s) =~= m);
}

/// The persistent store of per-(session, candidate) vote records.
pub struct VoteStore {
    pub entries: Vec<StoredEntry>,
}

impl View for VoteStore {
    type V = Map<(SessionIndex, CandidateHash), EntryModel>;

    open spec fn view(&self) -> Map<(SessionIndex, CandidateHash), EntryModel> {
        store_map(self.entries@)
    }
}

impl VoteStore {
    /// The store's records have pairwise distinct keys.
    pub open spec fn wf(&self) -> bool {
        unique_keys(self.entries@)
    }

    /// An empty store.
    pub fn new() -> (s: VoteStore)
        ensures
            s.wf(),
            s@ == Map::<(SessionIndex, CandidateHash), EntryModel>::empty(),
            s.entries@.len() == 0,
    {
        VoteStore { entries: Vec::new() }
    }

    /// Position of the record for this key, if one is stored.
    fn find_index(&self, session: SessionIndex, candidate: CandidateHash) -> (r: Option<usize>)
        ensures
            match r {
                Option::Some(i) => i < self.entries@.len() && entry_key(self.entries@[i as int])
                    == (session, candidate),
                Option::None => forall|i: int|
                    0 <= i < self.entries@.len() ==> entry_key(#[trigger] self.entries@[i]) != (
                    session,
                    candidate,
                ),
            },
    {
        let mut i: usize = 0;
        while i < self.entries.len()
            invariant
                i <= self.entries@.len(),
                forall|j: int|
                    0 <= j < i ==> entry_key(#[trigger] self.entries@[j]) != (session, candidate),
            decreases self.entries@.len() - i,
        {
            let e = &self.entries[i];
            if e.session == session && e.candidate == candidate {
                return Some(i);
            }
            i = i + 1;
        }
        None
    }

    /// Looks the record for `(session, candidate)` up.
    pub fn get(&self, session: SessionIndex, candidate: CandidateHash) -> (r: Option<&StoredEntry>)
        requires
            self.wf(),
        ensures
            match r {
                Option::Some(e) => {
                    &&& self@.contains_key((session, candidate))
                    &&& e@ == self@[(session, candidate)]
                    &&& e.session == session
                    &&& e.candidate == candidate
                },
                Option::None => !self@.contains_key((session, candidate)),
            },
    {
        proof {
            lemma_store_map_characterize(self.entries@, (session, candidate));
        }
        match self.find_index(session, candidate) {
            Some(i) => Some(&self.entries[i]),
            None => None,
        }
    }

    /// Removes and returns the record for `(session, candidate)`, if stored.
    pub fn take(&mut self, session: SessionIndex, candidate: CandidateHash) -> (r: Option<
        StoredEntry,
    >)
        requires
            old(self).wf(),
        ensures
            final(self).wf(),
            match r {
                Option::Some(e) => {
                    &&& old(self)@.contains_key((session, candidate))
                    &&& e@ == old(self)@[(session, candidate)]
                    &&& e.session == session
                    &&& e.candidate == candidate
                    &&& final(self)@ == old(self)@.remove((session, candidate))
                    &&& !final(self)@.contains_key((session, candidate))
                },
                Option::None => {
                    &&& !old(self)@.contains_key((session, candidate))
                    &&& *final(self) == *old(self)
                },
            },
    {
        proof {
            lemma_store_map_characterize(self.entries@, (session, candidate));
        }
        let k = (session, candidate);
        match self.find_index(session, candidate) {
            Some(i) => {
                let ghost s0 = self.entries@;
                let e = self.entries.remove(i);
                proof {
                    let s1 = self.entries@;
                    let m = store_map(s0).remove(k);
                    assert(forall|j: int| 0 <= j < i ==> s1[j] == s0[j]);
                    assert(forall|j: int| i <= j < s1.len() ==> s1[j] == s0[j + 1]);
                    assert(unique_keys(s1));
                    assert forall|j: int| 0 <= j < s1.len() implies m.contains_key(
                        entry_key(#[trigger] s1[j]),
                    ) && m[entry_key(s1[j])] == s1[j]@ by {
                        let j0: int = if j < i {
                            j
                        } else {
                            j + 1
                        };
                        assert(s0[j0] == s1[j]);
                        assert(entry_key(s0[j0]) != entry_key(s0[i as int]));
                        lemma_store_map_characterize(s0, entry_key(s0[j0]));
                    }
                    assert forall|k2: (SessionIndex, CandidateHash)| #[trigger]
                        m.contains_key(k2) implies exists|j: int|
                        0 <= j < s1.len() && entry_key(#[trigger] s1[j]) == k2 by {
                        lemma_store_map_characterize(s0, k2);
                        let j0 = choose|j0: int|
                            0 <= j0 < s0.len() && entry_key(#[trigger] s0[j0]) == k2;
                        assert(j0 != i);
                        let j: int = if j0 < i {
                            j0
                        } else {
                            j0 - 1
                        };
                        assert(s1[j] == s0[j0]);
                        assert(entry_key(s1[j]) == k2);
                    }
                    lemma_store_map_ext(s1, m);
                }
                Some(e)
            },
            None => None,
        }
    }

    /// Stores `entry` under its key, replacing any record stored there.
    pub fn put(&mut self, entry: StoredEntry)
        requires
            old(self).wf(),
        ensures
            final(self).wf(),
            final(self)@ == old(self)@.insert((entry.session, entry.candidate), entry@),
    {
        let k = (entry.session, entry.candidate);
        let _previous = self.take(entry.session, entry.candidate);
        let ghost s1 = self.entries@;
        proof {
            lemma_store_map_characterize(s1, k);
        }
        self.entries.push(entry);
        proof {
            lemma_store_map_push(s1, entry);
            assert forall|i: int, j: int| 0 <= i < j < self.entries@.len() implies entry_key(
                #[trigger] self.entries@[i],
            ) != entry_key(#[trigger] self.entries@[j]) by {
                if j == self.entries@.len() - 1 {
                    assert(self.entries@[i] == s1[i]);
                    assert(!store_map(s1).contains_key(k));
                } else {
                    assert(self.entries@[i] == s1[i]);
                    assert(self.entries@[j] == s1[j]);
                }
            }
            assert(store_map(self.entries@) =~= old(self)@.insert(k, entry@));
        }
    }

    /// Removes, in one batch, every record whose session is strictly below
    /// `floor`.
    #[verifier::rlimit(50)]
    pub fn prune(&mut self, floor: SessionIndex)
        requires
            old(self).wf(),
        ensures
            final(self).wf(),
            final(self)@ == Map::new(
                |k: (SessionIndex, CandidateHash)| old(self)@.contains_key(k) && k.0 >= floor,
                |k: (SessionIndex, CandidateHash)| old(self)@[k],
            ),
    {
        let ghost s0 = self.entries@;
        proof {
            assert forall|j: int| 0 <= j < self.entries@.len() implies appears_in(
                #[trigger] self.entries@[j],
                s0,
            ) by {
                assert(self.entries@[j] == s0[j]);
            }
            assert forall|j0: int|
                0 <= j0 < s0.len() && (#[trigger] s0[j0]).session >= floor implies appears_in(
                s0[j0],
                self.entries@,
            ) by {
                assert(s0[j0] == self.entries@[j0]);
            }
        }
        let mut i: usize = 0;
        while i < self.entries.len()
            invariant
                unique_keys(s0),
                i <= self.entries@.len(),
                unique_keys(self.entries@),
                forall|j: int| 0 <= j < i ==> (#[trigger] self.entries@[j]).session >= floor,
                forall|j: int|
                    0 <= j < self.entries@.len() ==> appears_in(#[trigger] self.entries@[j], s0),
                forall|j0: int|
                    0 <= j0 < s0.len() && (#[trigger] s0[j0]).session >= floor ==> appears_in(
                        s0[j0],
                        self.entries@,
                    ),
            decreases self.entries@.len() - i,
        {
            if self.entries[i].session < floor {
                let ghost before = self.entries@;
                let _dropped = self.entries.swap_remove(i);
                proof {
                    let after = self.entries@;
                    assert(after =~= before.update(i as int, before.last()).drop_last());
                    assert forall|j: int| 0 <= j < after.len() implies appears_in(
                        #[trigger] after[j],
                        s0,
                    ) by {
                        if j == i {
                            assert(after[j] == before[before.len() - 1]);
                        } else {
                            assert(after[j] == before[j]);
                        }
                    }
                    assert forall|j0: int|
                        0 <= j0 < s0.len() && (#[trigger] s0[j0]).session >= floor implies
                        appears_in(s0[j0], after) by {
                        let j = choose|j: int| 0 <= j < before.len() && s0[j0] == #[trigger] before[j];
                        if j == i {
                            assert(false);
                        } else if j == before.len() - 1 {
                            assert(after[i as int] == s0[j0]);
                        } else {
                            assert(after[j] == s0[j0]);
                        }
                    }
                    assert forall|a: int, b: int| 0 <= a < b < after.len() implies entry_key(
                        #[trigger] after[a],
                    ) != entry_key(#[trigger] after[b]) by {
                        let a0: int = if a == i {
                            before.len() - 1
                        } else {
                            a
                        };
                        let b0: int = if b == i {
                            before.len() - 1
                        } else {
                            b
                        };
                        assert(after[a] == before[a0]);
                        assert(after[b] == before[b0]);
                    }
                }
            } else {
                i = i + 1;
            }
        }
        proof {
            let s1 = self.entries@;
            let target = Map::new(
                |k: (SessionIndex, CandidateHash)| store_map(s0).contains_key(k) && k.0 >= floor,
                |k: (SessionIndex, CandidateHash)| store_map(s0)[k],
            );
            assert forall|j: int| 0 <= j < s1.len() implies target.contains_key(
                entry_key(#[trigger] s1[j]),
            ) && target[entry_key(s1[j])] == s1[j]@ by {
                let j0 = choose|j0: int| 0 <= j0 < s0.len() && s1[j] == #[trigger] s0[j0];
                lemma_store_map_characterize(s0, entry_key(s0[j0]));
                assert(s1[j].session >= floor);
            }
            assert forall|k: (SessionIndex, CandidateHash)| #[trigger]
                target.contains_key(k) implies exists|j: int|
                0 <= j < s1.len() && entry_key(#[trigger] s1[j]) == k by {
                lemma_store_map_characterize(s0, k);
                let j0 = choose|j0: int| 0 <= j0 < s0.len() && entry_key(#[trigger] s0[j0]) == k;
                assert(s0[j0].session >= floor);
                assert(appears_in(s0[j0], s1));
                let j = choose|j: int| 0 <= j < s1.len() && s0[j0] == #[trigger] s1[j];
                assert(entry_key(s1[j]) == k);
            }
            lemma_store_map_ext(s1, target);
        }
    }

    /// Applies the timeout rule to every record in one batch: active disputes
    /// first observed `timeout` or more sessions before `now` become timed
    /// out; everything else is unchanged.
    pub fn apply_timeouts(&mut self, now: SessionIndex, timeout: SessionIndex)
        requires
            old(self).wf(),
            forall|k: (SessionIndex, CandidateHash)|
                old(self)@.contains_key(k) ==> (#[trigger] old(self)@[k]).first_observed <= now,
        ensures
            final(self).wf(),
            final(self)@ == Map::new(
                |k: (SessionIndex, CandidateHash)| old(self)@.contains_key(k),
                |k: (SessionIndex, CandidateHash)| timeout_entry(old(self)@[k], now, timeout),
            ),
    {
        let ghost s0 = self.entries@;
        proof {
            assert forall|j: int| 0 <= j < s0.len() implies (#[trigger] s0[j]).first_observed
                <= now by {
                let k = entry_key(s0[j]);
                lemma_store_map_characterize(s0, k);
                assert(old(self)@.contains_key(k));
                assert(old(self)@[k] == s0[j]@);
            }
        }
        let mut i: usize = 0;
        while i < self.entries.len()
            invariant
                unique_keys(s0),
                i <= self.entries@.len(),
                self.entries@.len() == s0.len(),
                forall|j: int| 0 <= j < s0.len() ==> (#[trigger] s0[j]).first_observed <= now,
                forall|j: int|
                    i <= j < s0.len() ==> #[trigger] self.entries@[j] == s0[j],
                forall|j: int|
                    0 <= j < i ==> (#[trigger] self.entries@[j])@ == timeout_entry(
                        s0[j]@,
                        now,
                        timeout,
                    ) && entry_key(self.entries@[j]) == entry_key(s0[j]),
            decreases self.entries@.len() - i,
        {
            let ghost before = self.entries@;
            let mut e = self.entries.remove(i);
            let new_status = if matches!(e.status, DisputeStatus::Active) && now
                - e.first_observed >= timeout {
                DisputeStatus::TimedOut
            } else {
                e.status
            };
            e.status = new_status;
            self.entries.insert(i, e);
            proof {
                assert(self.entries@ =~= before.update(i as int, e));
            }
            i = i + 1;
        }
        proof {
            let s1 = self.entries@;
            assert(unique_keys(s1)) by {
                assert(forall|j: int|
                    0 <= j < s1.len() ==> entry_key(#[trigger] s1[j]) == entry_key(s0[j]));
            }
            let target = Map::new(
                |k: (SessionIndex, CandidateHash)| store_map(s0).contains_key(k),
                |k: (SessionIndex, CandidateHash)| timeout_entry(store_map(s0)[k], now, timeout),
            );
            assert forall|j: int| 0 <= j < s1.len() implies target.contains_key(
                entry_key(#[trigger] s1[j]),
            ) && target[entry_key(s1[j])] == s1[j]@ by {
                assert(entry_key(s0[j]) == entry_key(s1[j]));
                lemma_store_map_characterize(s0, entry_key(s0[j]));
            }
            assert forall|k: (SessionIndex, CandidateHash)| #[trigger]
                target.contains_key(k) implies exists|j: int|
                0 <= j < s1.len() && entry_key(#[trigger] s1[j]) == k by {
                lemma_store_map_characterize(s0, k);
                let j0 = choose|j0: int| 0 <= j0 < s0.len() && entry_key(#[trigger] s0[j0]) == k;
                assert(entry_key(s1[j0]) == k);
            }
            lemma_store_map_ext(s1, target);
        }
    }
}

} // verus!
