//! The dispute coordinator: reconciles incoming votes into the store within
//! the current session window, re-evaluates dispute lifecycles, and decides
//! when the node should participate (re-validate) in a dispute it has not
//! voted on.
//!
//! Every mutating operation is specified as a transition function on the
//! coordinator's mathematical model; the executable methods are proved to
//! implement exactly those transitions.

use vstd::prelude::*;

use crate::statemachine::evaluate_status;
use crate::statemachine::is_concluded;
use crate::statemachine::status_step;
use crate::statemachine::timeout_entry;
use crate::statemachine::wf_entry;
use crate::store::entry_key;
use crate::store::lemma_store_map_characterize;
use crate::store::VoteStore;
use crate::types::add_vote;
use crate::types::equivocation_in;
use crate::types::has_local_vote;
use crate::types::has_validator;
use crate::types::opposite;
use crate::types::side;
use crate::types::signature_ok;
use crate::types::singleton_votes;
use crate::types::AdvanceError;
use crate::types::CandidateHash;
use crate::types::CandidateVotes;
use crate::types::DisputeStatus;
use crate::types::EntryModel;
use crate::types::ImportError;
use crate::types::ImportOutcome;
use crate::types::ImportSummary;
use crate::types::InfoModel;
use crate::types::Polarity;
use crate::types::SessionIndex;
use crate::types::SessionInfo;
use crate::types::Signature;
use crate::types::StoredEntry;
use crate::types::ValidatorIndex;
use crate::types::Vote;
use crate::window::floor_spec;
use crate::window::in_window_spec;
use crate::window::SessionWindow;

verus! {

/// The set of (session, candidate) pairs that a list of pairs denotes.
pub open spec fn req_set(s: Seq<(SessionIndex, CandidateHash)>) -> Set<
    (SessionIndex, CandidateHash),
>
    decreases s.len(),
{
    if s.len() == 0 {
        Set::empty()
    } else {
        req_set(s.drop_last()).insert(s.last())
    }
}

/// Whether `p` occurs in the pair list `s`.
pub open spec fn pair_in(
    p: (SessionIndex, CandidateHash),
    s: Seq<(SessionIndex, CandidateHash)>,
) -> bool {
    exists|j: int| 0 <= j < s.len() && p == #[trigger] s[j]
}

/// A pair is in the denoted set exactly when it occurs in the list.
pub proof fn lemma_req_set_characterize(
    s: Seq<(SessionIndex, CandidateHash)>,
    p: (SessionIndex, CandidateHash),
)
    ensures
        req_set(s).contains(p) <==> pair_in(p, s),
    decreases s.len(),
{
    if s.len() > 0 {
        lemma_req_set_characterize(s.drop_last(), p);
        if req_set(s.drop_last()).contains(p) {
            let i = choose|i: int| 0 <= i < s.drop_last().len() && p == #[trigger] s.drop_last()[i];
            assert(p == s[i]);
        }
        if pair_in(p, s) {
            let i = choose|i: int| 0 <= i < s.len() && p == #[trigger] s[i];
            if i < s.len() - 1 {
                assert(p == s.drop_last()[i]);
            }
        }
    }
}

/// Appending a pair inserts it into the denoted set.
pub proof fn lemma_req_set_push(
    s: Seq<(SessionIndex, CandidateHash)>,
    p: (SessionIndex, CandidateHash),
)
    ensures
        req_set(s.push(p)) == req_set(s).insert(p),
{
    assert(s.push(p).drop_last() =~= s);
    assert(s.push(p).last() == p);
}

/// The listing triple of a record: its key and its lifecycle status.
pub open spec fn entry_triple(e: EntryModel) -> (SessionIndex, CandidateHash, DisputeStatus) {
    (e.session, e.candidate, e.status)
}

/// Whether the triple `t` occurs in the listing `s`.
pub open spec fn listed(
    t: (SessionIndex, CandidateHash, DisputeStatus),
    s: Seq<(SessionIndex, CandidateHash, DisputeStatus)>,
) -> bool {
    exists|j: int| 0 <= j < s.len() && t == #[trigger] s[j]
}

/// Whether `t` is the triple of one of the first `n` records of `s`.
pub open spec fn triple_from(
    t: (SessionIndex, CandidateHash, DisputeStatus),
    s: Seq<StoredEntry>,
    n: int,
) -> bool {
    exists|j0: int| 0 <= j0 < n && j0 < s.len() && t == entry_triple(#[trigger] s[j0]@)
}

/// Mathematical model of the coordinator: window bounds, configuration, the
/// stored dispute records as a map, and the set of pairs for which a
/// participation request has already been emitted.
#[verifier::ext_equal]
pub struct CoordModel {
    pub highest: SessionIndex,
    pub retention: SessionIndex,
    pub timeout: SessionIndex,
    pub entries: Map<(SessionIndex, CandidateHash), EntryModel>,
    pub requested: Set<(SessionIndex, CandidateHash)>,
}

/// Whether `session` lies in the model's current window.
pub open spec fn in_window_model(m: CoordModel, session: SessionIndex) -> bool {
    in_window_spec(m.highest, m.retention, session)
}

/// Well-formedness of the model: every record sits under its own key, is
/// internally consistent, and lies inside the window; every pending
/// participation request points into the window.
pub open spec fn wf_model(m: CoordModel) -> bool {
    &&& forall|k: (SessionIndex, CandidateHash)| #[trigger]
        m.entries.contains_key(k) ==> {
            let e = m.entries[k];
            &&& e.session == k.0
            &&& e.candidate == k.1
            &&& wf_entry(e)
            &&& in_window_model(m, e.session)
            &&& e.first_observed <= m.highest
        }
    &&& forall|p: (SessionIndex, CandidateHash)| #[trigger]
        m.requested.contains(p) ==> in_window_model(m, p.0)
}

/// The model of a coordinator that has seen no session and holds no record.
pub open spec fn init_model(retention: SessionIndex, timeout: SessionIndex) -> CoordModel {
    CoordModel {
        highest: 0,
        retention,
        timeout,
        entries: Map::empty(),
        requested: Set::empty(),
    }
}

/// Second half of a successful import: the updated record is stored, and a
/// participation request is emitted exactly when the dispute is active, the
/// node's own validator has not voted, and no request was emitted before.
pub open spec fn record_import(
    m: CoordModel,
    k: (SessionIndex, CandidateHash),
    e: EntryModel,
    outcome: ImportOutcome,
    local: Option<ValidatorIndex>,
) -> (CoordModel, Result<ImportSummary, ImportError>) {
    let wants = e.status == DisputeStatus::Active && !has_local_vote(e.votes, local)
        && !m.requested.contains(k);
    let m1 = CoordModel {
        entries: m.entries.insert(k, e),
        requested: if wants {
            m.requested.insert(k)
        } else {
            m.requested
        },
        ..m
    };
    (m1, Ok(ImportSummary { outcome, status: e.status, participation: wants }))
}

/// The record created by the first vote for a pair: it holds that vote alone,
/// freezes the session's validator-set size, stamps the current highest
/// session as first observation, and evaluates the lifecycle on the one vote.
pub open spec fn new_entry(
    m: CoordModel,
    session: SessionIndex,
    candidate: CandidateHash,
    vote: Vote,
    info: InfoModel,
) -> EntryModel {
    let votes = singleton_votes(vote);
    EntryModel {
        session,
        candidate,
        votes,
        status: status_step(
            DisputeStatus::Active,
            votes.valid.len() as int,
            votes.invalid.len() as int,
            info.keys.len() as int,
        ),
        first_observed: m.highest,
        validator_count: info.keys.len() as u32,
    }
}

/// An existing record after a fresh (non-duplicate) vote is appended: the
/// vote joins its polarity mapping and the lifecycle is re-evaluated against
/// the record's frozen validator-set size.
pub open spec fn updated_entry(e0: EntryModel, vote: Vote) -> EntryModel {
    let votes = add_vote(e0.votes, vote);
    EntryModel {
        votes,
        status: status_step(
            e0.status,
            votes.valid.len() as int,
            votes.invalid.len() as int,
            e0.validator_count as int,
        ),
        ..e0
    }
}

/// The import transition. A vote for a session outside the window fails with
/// `OutOfWindow`; a vote whose signature does not verify fails with
/// `BadSignature`; both leave the state unchanged. Otherwise the record for
/// the pair is created or updated: a repeated vote is a duplicate no-op, a
/// vote opposite to the validator's earlier one is retained as equivocation
/// evidence, any other vote is appended and the lifecycle re-evaluated.
pub open spec fn import_step(
    m: CoordModel,
    session: SessionIndex,
    candidate: CandidateHash,
    vote: Vote,
    info: InfoModel,
) -> (CoordModel, Result<ImportSummary, ImportError>) {
    if !in_window_model(m, session) {
        (m, Err(ImportError::OutOfWindow))
    } else if !signature_ok(vote, info.keys, session, candidate) {
        (m, Err(ImportError::BadSignature))
    } else {
        let k = (session, candidate);
        if !m.entries.contains_key(k) {
            record_import(
                m,
                k,
                new_entry(m, session, candidate, vote, info),
                ImportOutcome::Imported,
                info.local,
            )
        } else {
            let e0 = m.entries[k];
            if has_validator(side(e0.votes, vote.polarity), vote.validator) {
                record_import(m, k, e0, ImportOutcome::Duplicate, info.local)
            } else {
                let equivocated = has_validator(
                    side(e0.votes, opposite(vote.polarity)),
                    vote.validator,
                );
                record_import(
                    m,
                    k,
                    updated_entry(e0, vote),
                    if equivocated {
                        ImportOutcome::Equivocation
                    } else {
                        ImportOutcome::Imported
                    },
                    info.local,
                )
            }
        }
    }
}

/// The state after importing `votes` in order for one (session, candidate)
/// pair.
pub open spec fn import_many_state(
    m: CoordModel,
    session: SessionIndex,
    candidate: CandidateHash,
    votes: Seq<Vote>,
    info: InfoModel,
) -> CoordModel
    decreases votes.len(),
{
    if votes.len() == 0 {
        m
    } else {
        import_many_state(
            import_step(m, session, candidate, votes[0], info).0,
            session,
            candidate,
            votes.drop_first(),
            info,
        )
    }
}

/// The per-vote outcomes of importing `votes` in order: one outcome for each
/// vote, a rejected vote never stopping the rest of the batch.
pub open spec fn import_many_results(
    m: CoordModel,
    session: SessionIndex,
    candidate: CandidateHash,
    votes: Seq<Vote>,
    info: InfoModel,
) -> Seq<Result<ImportSummary, ImportError>>
    decreases votes.len(),
{
    if votes.len() == 0 {
        Seq::empty()
    } else {
        seq![import_step(m, session, candidate, votes[0], info).1] + import_many_results(
            import_step(m, session, candidate, votes[0], info).0,
            session,
            candidate,
            votes.drop_first(),
            info,
        )
    }
}

/// Importing a batch and then one more vote is importing the batch extended
/// by that vote.
pub proof fn lemma_import_many_snoc(
    m: CoordModel,
    session: SessionIndex,
    candidate: CandidateHash,
    votes: Seq<Vote>,
    v: Vote,
    info: InfoModel,
)
    ensures
        import_many_state(m, session, candidate, votes.push(v), info) == import_step(
            import_many_state(m, session, candidate, votes, info),
            session,
            candidate,
            v,
            info,
        ).0,
        import_many_results(m, session, candidate, votes.push(v), info) == import_many_results(
            m,
            session,
            candidate,
            votes,
            info,
        ).push(
            import_step(import_many_state(m, session, candidate, votes, info), session, candidate, v, info).1,
        ),
    decreases votes.len(),
{
    reveal_with_fuel(import_many_state, 3);
    reveal_with_fuel(import_many_results, 3);
    if votes.len() == 0 {
        assert(votes.push(v)[0] == v);
        assert(votes.push(v).drop_first() =~= Seq::<Vote>::empty());
        let m1 = import_step(m, session, candidate, v, info).0;
        assert(import_many_state(m1, session, candidate, Seq::<Vote>::empty(), info) == m1);
        assert(import_many_state(m, session, candidate, votes, info) == m);
        assert(import_many_results(m, session, candidate, votes.push(v), info) =~= Seq::empty().push(
            import_step(m, session, candidate, v, info).1,
        ));
        assert(import_many_results(m, session, candidate, votes, info) =~= Seq::<Result<ImportSummary, ImportError>>::empty());
    } else {
        assert(votes.push(v)[0] == votes[0]);
        assert(votes.push(v).drop_first() =~= votes.drop_first().push(v));
        let m1 = import_step(m, session, candidate, votes[0], info).0;
        lemma_import_many_snoc(m1, session, candidate, votes.drop_first(), v, info);
        assert(import_many_results(m, session, candidate, votes.push(v), info) =~= import_many_results(
            m,
            session,
            candidate,
            votes,
            info,
        ).push(
            import_step(
                import_many_state(m, session, candidate, votes, info),
                session,
                candidate,
                v,
                info,
            ).1,
        ));
    }
}

/// The session-advance transition. A notification that does not raise the
/// highest session is stale and changes nothing. Otherwise the window moves
/// up; records below the new floor are pruned together with their pending
/// participation requests, and the timeout rule is applied to the records
/// that remain.
pub open spec fn advance_step(m: CoordModel, new_highest: SessionIndex) -> (
    CoordModel,
    Result<(), AdvanceError>,
) {
    if new_highest <= m.highest {
        (m, Err(AdvanceError::StaleSession))
    } else {
        let fl = floor_spec(new_highest, m.retention);
        let m1 = CoordModel {
            highest: new_highest,
            entries: Map::new(
                |k: (SessionIndex, CandidateHash)| m.entries.contains_key(k) && k.0 >= fl,
                |k: (SessionIndex, CandidateHash)| timeout_entry(
                    m.entries[k],
                    new_highest,
                    m.timeout,
                ),
            ),
            requested: m.requested.filter(|p: (SessionIndex, CandidateHash)| p.0 >= fl),
            ..m
        };
        (m1, Ok(()))
    }
}

/// The dispute coordinator.
pub struct Coordinator {
    pub window: SessionWindow,
    pub timeout: SessionIndex,
    pub store: VoteStore,
    pub requested: Vec<(SessionIndex, CandidateHash)>,
}

impl View for Coordinator {
    type V = CoordModel;

    open spec fn view(&self) -> CoordModel {
        CoordModel {
            highest: self.window.highest,
            retention: self.window.retention,
            timeout: self.timeout,
            entries: self.store@,
            requested: req_set(self.requested@),
        }
    }
}

/// Does `l` contain a vote by validator `v`?
#[verifier::loop_isolation(false)]
fn list_has(l: &Vec<(ValidatorIndex, Signature)>, v: ValidatorIndex) -> (r: bool)
    ensures
        r == has_validator(l@, v),
{
    let mut i: usize = 0;
    while i < l.len()
        invariant
            i <= l@.len(),
            forall|j: int| 0 <= j < i ==> (#[trigger] l@[j]).0 != v,
        decreases l@.len() - i,
    {
        if l[i].0 == v {
            return true;
        }
        i = i + 1;
    }
    false
}

/// Whether a vote set carries equivocation evidence.
#[verifier::loop_isolation(false)]
fn votes_equivocate(v: &CandidateVotes) -> (r: bool)
    ensures
        r == equivocation_in(v@),
{
    let mut i: usize = 0;
    while i < v.valid.len()
        invariant
            i <= v.valid@.len(),
            forall|j: int| 0 <= j < i ==> !has_validator(v.invalid@, (#[trigger] v.valid@[j]).0),
        decreases v.valid@.len() - i,
    {
        if list_has(&v.invalid, v.valid[i].0) {
            proof {
                let w = v.valid@[i as int].0;
                assert(has_validator(v@.valid, w));
                assert(has_validator(v@.invalid, w));
                assert(equivocation_in(v@));
            }
            return true;
        }
        i = i + 1;
    }
    proof {
        assert forall|vl: ValidatorIndex| #[trigger]
            has_validator(v.valid@, vl) implies !has_validator(v.invalid@, vl) by {
            let j = choose|j: int| 0 <= j < v.valid@.len() && (#[trigger] v.valid@[j]).0 == vl;
        }
    }
    false
}

/// Does the vote's signature verify for this statement?
fn check_signature(
    vote: &Vote,
    info: &SessionInfo,
    session: SessionIndex,
    candidate: CandidateHash,
) -> (r: bool)
    ensures
        r == signature_ok(*vote, info@.keys, session, candidate),
{
    if (vote.validator as usize) < info.validator_keys.len() {
        let key = info.validator_keys[vote.validator as usize];
        let expected = Signature { signer: key, session, candidate, polarity: vote.polarity };
        vote.signature == expected
    } else {
        false
    }
}

impl Coordinator {
    /// The coordinator is well-formed: its store keeps keys unique and its
    /// model satisfies the model invariants.
    pub open spec fn wf(&self) -> bool {
        &&& self.store.wf()
        &&& wf_model(self@)
    }

    /// A fresh coordinator with the given retention (window is
    /// `[highest - retention, highest]`) and dispute timeout in sessions.
    pub fn new(retention: SessionIndex, timeout: SessionIndex) -> (c: Coordinator)
        ensures
            c.wf(),
            c@ == init_model(retention, timeout),
    {
        let c = Coordinator {
            window: SessionWindow::new(retention),
            timeout,
            store: VoteStore::new(),
            requested: Vec::new(),
        };
        proof {
            assert(c@ =~= init_model(retention, timeout));
        }
        c
    }

    /// The highest session seen so far.
    pub fn highest_session(&self) -> (s: SessionIndex)
        ensures
            s == self@.highest,
    {
        self.window.highest
    }

    /// Whether `session` lies in the current window.
    pub fn in_window(&self, session: SessionIndex) -> (r: bool)
        ensures
            r == in_window_model(self@, session),
    {
        self.window.in_window(session)
    }

    /// Whether a participation request was already emitted for this pair.
    #[verifier::loop_isolation(false)]
    fn requested_contains(&self, session: SessionIndex, candidate: CandidateHash) -> (r: bool)
        ensures
            r == self@.requested.contains((session, candidate)),
    {
        proof {
            lemma_req_set_characterize(self.requested@, (session, candidate));
        }
        let mut i: usize = 0;
        while i < self.requested.len()
            invariant
                i <= self.requested@.len(),
                forall|j: int| 0 <= j < i ==> #[trigger] self.requested@[j] != (session, candidate),
            decreases self.requested@.len() - i,
        {
            let p = self.requested[i];
            if p.0 == session && p.1 == candidate {
                proof {
                    assert(pair_in((session, candidate), self.requested@));
                }
                return true;
            }
            i = i + 1;
        }
        false
    }

    /// Imports one vote for `(session, candidate)`, verified against `info`,
    /// the runtime-reported description of that session. The behaviour is
    /// exactly the `import_step` transition.
    #[verifier::rlimit(60)]
    pub fn import(
        &mut self,
        session: SessionIndex,
        candidate: CandidateHash,
        vote: Vote,
        info: &SessionInfo,
    ) -> (r: Result<ImportSummary, ImportError>)
        requires
            old(self).wf(),
            info.wf(),
        ensures
            final(self).wf(),
            final(self)@ == import_step(old(self)@, session, candidate, vote, info@).0,
            r == import_step(old(self)@, session, candidate, vote, info@).1,
    {
        let ghost m0 = self@;
        if !self.window.in_window(session) {
            return Err(ImportError::OutOfWindow);
        }
        if !check_signature(&vote, info, session, candidate) {
            return Err(ImportError::BadSignature);
        }
        let k = (session, candidate);
        let taken = self.store.take(session, candidate);
        let (entry, outcome): (StoredEntry, ImportOutcome) = match taken {
            None => {
                let mut valid: Vec<(ValidatorIndex, Signature)> = Vec::new();
                let mut invalid: Vec<(ValidatorIndex, Signature)> = Vec::new();
                match vote.polarity {
                    Polarity::Valid => valid.push((vote.validator, vote.signature)),
                    Polarity::Invalid => invalid.push((vote.validator, vote.signature)),
                }
                let n: u32 = info.validator_keys.len() as u32;
                let status = evaluate_status(DisputeStatus::Active, valid.len(), invalid.len(), n);
                let entry = StoredEntry {
                    session,
                    candidate,
                    votes: CandidateVotes { valid, invalid },
                    status,
                    first_observed: self.window.highest,
                    validator_count: n,
                };
                proof {
                    assert(entry@.votes =~= singleton_votes(vote));
                    assert(entry@ =~= new_entry(m0, session, candidate, vote, info@));
                }
                (entry, ImportOutcome::Imported)
            },
            Some(mut e) => {
                let on_same = match vote.polarity {
                    Polarity::Valid => list_has(&e.votes.valid, vote.validator),
                    Polarity::Invalid => list_has(&e.votes.invalid, vote.validator),
                };
                if on_same {
                    (e, ImportOutcome::Duplicate)
                } else {
                    let on_opposite = match vote.polarity {
                        Polarity::Valid => list_has(&e.votes.invalid, vote.validator),
                        Polarity::Invalid => list_has(&e.votes.valid, vote.validator),
                    };
                    match vote.polarity {
                        Polarity::Valid => e.votes.valid.push((vote.validator, vote.signature)),
                        Polarity::Invalid => e.votes.invalid.push((vote.validator, vote.signature)),
                    }
                    let status = evaluate_status(
                        e.status,
                        e.votes.valid.len(),
                        e.votes.invalid.len(),
                        e.validator_count,
                    );
                    e.status = status;
                    proof {
                        assert(e@.votes =~= add_vote(m0.entries[k].votes, vote));
                        assert(e@ =~= updated_entry(m0.entries[k], vote));
                    }
                    let outcome = if on_opposite {
                        ImportOutcome::Equivocation
                    } else {
                        ImportOutcome::Imported
                    };
                    (e, outcome)
                }
            },
        };
        let ghost em = entry@;
        let status = entry.status;
        let is_active = matches!(status, DisputeStatus::Active);
        let local_voted = match info.local_validator {
            None => false,
            Some(v) => list_has(&entry.votes.valid, v) || list_has(&entry.votes.invalid, v),
        };
        let already = self.requested_contains(session, candidate);
        let wants = is_active && !local_voted && !already;
        self.store.put(entry);
        if wants {
            let ghost r0 = self.requested@;
            self.requested.push((session, candidate));
            proof {
                lemma_req_set_push(r0, k);
            }
        }
        let summary = ImportSummary { outcome, status, participation: wants };
        proof {
            let step = import_step(m0, session, candidate, vote, info@);
            assert(self@.entries =~= m0.entries.insert(k, em));
            assert(self@ =~= step.0);
            assert(Ok::<ImportSummary, ImportError>(summary) == step.1);
            lemma_record_import_wf(m0, k, em, outcome, info@.local, session, candidate);
        }
        Ok(summary)
    }

    /// Imports a batch of votes for one `(session, candidate)` pair in
    /// order, returning one outcome per vote. A rejected vote never aborts
    /// the processing of the remaining batch.
    #[verifier::loop_isolation(false)]
    pub fn import_statements(
        &mut self,
        session: SessionIndex,
        candidate: CandidateHash,
        votes: &Vec<Vote>,
        info: &SessionInfo,
    ) -> (r: Vec<Result<ImportSummary, ImportError>>)
        requires
            old(self).wf(),
            info.wf(),
        ensures
            final(self).wf(),
            final(self)@ == import_many_state(old(self)@, session, candidate, votes@, info@),
            r@ == import_many_results(old(self)@, session, candidate, votes@, info@),
            r@.len() == votes@.len(),
    {
        let mut out: Vec<Result<ImportSummary, ImportError>> = Vec::new();
        let mut i: usize = 0;
        proof {
            assert(votes@.take(0) =~= Seq::<Vote>::empty());
        }
        while i < votes.len()
            invariant
                i <= votes@.len(),
                out@.len() == i,
                self.wf(),
                self@ == import_many_state(old(self)@, session, candidate, votes@.take(i as int), info@),
                out@ == import_many_results(
                    old(self)@,
                    session,
                    candidate,
                    votes@.take(i as int),
                    info@,
                ),
            decreases votes@.len() - i,
        {
            let res = self.import(session, candidate, votes[i], info);
            out.push(res);
            proof {
                assert(votes@.take(i as int + 1) =~= votes@.take(i as int).push(votes@[i as int]));
                lemma_import_many_snoc(
                    old(self)@,
                    session,
                    candidate,
                    votes@.take(i as int),
                    votes@[i as int],
                    info@,
                );
            }
            i = i + 1;
        }
        proof {
            assert(votes@.take(votes@.len() as int) =~= votes@);
        }
        out
    }

    /// Notifies the coordinator of a new session. The behaviour is exactly
    /// the `advance_step` transition: stale notifications are rejected as
    /// duplicates; otherwise the window advances, out-of-window records and
    /// pending requests are pruned, and timeouts are applied.
    #[verifier::rlimit(60)]
    pub fn note_new_session(&mut self, new_highest: SessionIndex) -> (r: Result<(), AdvanceError>)
        requires
            old(self).wf(),
        ensures
            final(self).wf(),
            final(self)@ == advance_step(old(self)@, new_highest).0,
            r == advance_step(old(self)@, new_highest).1,
    {
        let ghost m0 = self@;
        match self.window.advance(new_highest) {
            Err(e) => Err(e),
            Ok(fl) => {
                self.store.prune(fl);
                proof {
                    assert forall|k2: (SessionIndex, CandidateHash)| #[trigger]
                        self.store@.contains_key(k2) implies self.store@[k2].first_observed
                        <= new_highest by {
                        assert(m0.entries.contains_key(k2));
                    }
                }
                self.store.apply_timeouts(new_highest, self.timeout);
                self.prune_requested(fl);
                proof {
                    let step = advance_step(m0, new_highest);
                    assert(self@.entries =~= step.0.entries);
                    assert(self@.requested =~= step.0.requested);
                    assert(self@ =~= step.0);
                    lemma_advance_wf(m0, new_highest);
                }
                Ok(())
            },
        }
    }

    /// Removes every pending participation request whose session is below
    /// `fl`.
    #[verifier::rlimit(50)]
    #[verifier::loop_isolation(false)]
    fn prune_requested(&mut self, fl: SessionIndex)
        ensures
            final(self).window == old(self).window,
            final(self).timeout == old(self).timeout,
            final(self).store == old(self).store,
            final(self)@.requested == req_set(old(self).requested@).filter(
                |p: (SessionIndex, CandidateHash)| p.0 >= fl,
            ),
    {
        let ghost r0 = self.requested@;
        proof {
            assert forall|j: int| 0 <= j < self.requested@.len() implies pair_in(
                #[trigger] self.requested@[j],
                r0,
            ) by {
                assert(self.requested@[j] == r0[j]);
            }
            assert forall|j0: int|
                0 <= j0 < r0.len() && (#[trigger] r0[j0]).0 >= fl implies pair_in(
                r0[j0],
                self.requested@,
            ) by {
                assert(r0[j0] == self.requested@[j0]);
            }
        }
        let mut i: usize = 0;
        while i < self.requested.len()
            invariant
                self.window == old(self).window,
                self.timeout == old(self).timeout,
                self.store == old(self).store,
                i <= self.requested@.len(),
                forall|j: int| 0 <= j < i ==> (#[trigger] self.requested@[j]).0 >= fl,
                forall|j: int|
                    0 <= j < self.requested@.len() ==> pair_in(#[trigger] self.requested@[j], r0),
                forall|j0: int|
                    0 <= j0 < r0.len() && (#[trigger] r0[j0]).0 >= fl ==> pair_in(
                        r0[j0],
                        self.requested@,
                    ),
            decreases self.requested@.len() - i,
        {
            if self.requested[i].0 < fl {
                let ghost before = self.requested@;
                let _dropped = self.requested.swap_remove(i);
                proof {
                    let after = self.requested@;
                    assert(after =~= before.update(i as int, before.last()).drop_last());
                    assert forall|j: int| 0 <= j < after.len() implies pair_in(
                        #[trigger] after[j],
                        r0,
                    ) by {
                        if j == i {
                            assert(after[j] == before[before.len() - 1]);
                        } else {
                            assert(after[j] == before[j]);
                        }
                    }
                    assert forall|j0: int|
                        0 <= j0 < r0.len() && (#[trigger] r0[j0]).0 >= fl implies pair_in(
                        r0[j0],
                        after,
                    ) by {
                        let j = choose|j: int| 0 <= j < before.len() && r0[j0] == #[trigger] before[j];
                        if j == i {
                            assert(false);
                        } else if j == before.len() - 1 {
                            assert(after[i as int] == r0[j0]);
                        } else {
                            assert(after[j] == r0[j0]);
                        }
                    }
                }
            } else {
                i = i + 1;
            }
        }
        proof {
            let s1 = self.requested@;
            let target = req_set(r0).filter(|p: (SessionIndex, CandidateHash)| p.0 >= fl);
            assert forall|p: (SessionIndex, CandidateHash)| #[trigger]
                req_set(s1).contains(p) implies target.contains(p) by {
                lemma_req_set_characterize(s1, p);
                let j = choose|j: int| 0 <= j < s1.len() && p == #[trigger] s1[j];
                let j0 = choose|j0: int| 0 <= j0 < r0.len() && s1[j] == #[trigger] r0[j0];
                lemma_req_set_characterize(r0, p);
                assert(p.0 >= fl);
            }
            assert forall|p: (SessionIndex, CandidateHash)| #[trigger]
                target.contains(p) implies req_set(s1).contains(p) by {
                lemma_req_set_characterize(r0, p);
                let j0 = choose|j0: int| 0 <= j0 < r0.len() && p == #[trigger] r0[j0];
                assert(pair_in(r0[j0], s1));
                lemma_req_set_characterize(s1, p);
            }
            assert(req_set(s1) =~= target);
        }
    }

    /// A snapshot view of the vote set recorded for `(session, candidate)`.
    pub fn query_candidate_votes(&self, session: SessionIndex, candidate: CandidateHash) -> (r:
        Option<&CandidateVotes>)
        requires
            self.wf(),
        ensures
            match r {
                Option::Some(v) => self@.entries.contains_key((session, candidate)) && v@
                    == self@.entries[(session, candidate)].votes,
                Option::None => !self@.entries.contains_key((session, candidate)),
            },
    {
        match self.store.get(session, candidate) {
            Some(e) => Some(&e.votes),
            None => None,
        }
    }

    /// The lifecycle status recorded for `(session, candidate)`.
    pub fn dispute_status(&self, session: SessionIndex, candidate: CandidateHash) -> (r: Option<
        DisputeStatus,
    >)
        requires
            self.wf(),
        ensures
            match r {
                Option::Some(st) => self@.entries.contains_key((session, candidate)) && st
                    == self@.entries[(session, candidate)].status,
                Option::None => !self@.entries.contains_key((session, candidate)),
            },
    {
        match self.store.get(session, candidate) {
            Some(e) => Some(e.status),
            None => None,
        }
    }

    /// All records still in the window whose dispute has not concluded
    /// (active ones and timed-out ones), as (session, candidate, status).
    #[verifier::loop_isolation(false)]
    #[verifier::rlimit(50)]
    pub fn active_disputes(&self) -> (r: Vec<(SessionIndex, CandidateHash, DisputeStatus)>)
        requires
            self.wf(),
        ensures
            forall|i: int|
                0 <= i < r@.len() ==> {
                    let t = #[trigger] r@[i];
                    &&& self@.entries.contains_key((t.0, t.1))
                    &&& t.2 == self@.entries[(t.0, t.1)].status
                    &&& !is_concluded(t.2)
                },
            forall|k: (SessionIndex, CandidateHash)| #[trigger]
                self@.entries.contains_key(k) && !is_concluded(
                    self@.entries[k].status,
                ) ==> listed((k.0, k.1, self@.entries[k].status), r@),
            forall|i: int, j: int|
                0 <= i < j < r@.len() ==> ((#[trigger] r@[i]).0, r@[i].1) != ((
                #[trigger] r@[j]).0, r@[j].1),
    {
        let ghost s = self.store.entries@;
        let mut out: Vec<(SessionIndex, CandidateHash, DisputeStatus)> = Vec::new();
        let mut i: usize = 0;
        while i < self.store.entries.len()
            invariant
                i <= s.len(),
                forall|j: int|
                    0 <= j < out@.len() ==> triple_from(#[trigger] out@[j], s, i as int)
                        && !is_concluded(out@[j].2),
                forall|j0: int|
                    0 <= j0 < i && !is_concluded(
                        (#[trigger] s[j0]).status,
                    ) ==> listed(entry_triple(s[j0]@), out@),
                forall|a: int, b: int|
                    0 <= a < b < out@.len() ==> ((#[trigger] out@[a]).0, out@[a].1) != ((
                    #[trigger] out@[b]).0, out@[b].1),
            decreases s.len() - i,
        {
            let e = &self.store.entries[i];
            let concluded = matches!(
                e.status,
                DisputeStatus::ConcludedValid | DisputeStatus::ConcludedInvalid
            );
            if !concluded {
                let ghost out0 = out@;
                out.push((e.session, e.candidate, e.status));
                proof {
                    assert(out@[out@.len() - 1] == entry_triple(s[i as int]@));
                    assert(triple_from(out@[out@.len() - 1], s, i as int + 1));
                    assert forall|j0: int|
                        0 <= j0 < i + 1 && !is_concluded(
                            (#[trigger] s[j0]).status,
                        ) implies listed(entry_triple(s[j0]@), out@) by {
                        if j0 < i {
                            let j = choose|j: int|
                                0 <= j < out0.len() && entry_triple(s[j0]@) == #[trigger] out0[j];
                            assert(out@[j] == entry_triple(s[j0]@));
                        } else {
                            assert(out@[out@.len() - 1] == entry_triple(s[j0]@));
                        }
                    }
                    assert forall|a: int, b: int| 0 <= a < b < out@.len() implies ((
                    #[trigger] out@[a]).0, out@[a].1) != ((#[trigger] out@[b]).0, out@[b].1) by {
                        if b == out@.len() - 1 {
                            let j0 = choose|j0: int|
                                0 <= j0 < i && out@[a] == entry_triple(#[trigger] s[j0]@);
                            assert(entry_key(s[j0]) != entry_key(
                                s[i as int],
                            ));
                        }
                    }
                }
            }
            i = i + 1;
        }
        proof {
            assert forall|ii: int| 0 <= ii < out@.len() implies {
                let t = #[trigger] out@[ii];
                &&& self@.entries.contains_key((t.0, t.1))
                &&& t.2 == self@.entries[(t.0, t.1)].status
                &&& !is_concluded(t.2)
            } by {
                let j0 = choose|j0: int| 0 <= j0 < s.len() && out@[ii] == entry_triple(
                    #[trigger] s[j0]@,
                );
                lemma_store_map_characterize(s, entry_key(s[j0]));
            }
            assert forall|k: (SessionIndex, CandidateHash)| #[trigger]
                self@.entries.contains_key(k) && !is_concluded(
                    self@.entries[k].status,
                ) implies listed((k.0, k.1, self@.entries[k].status), out@) by {
                lemma_store_map_characterize(s, k);
                let j0 = choose|j0: int|
                    0 <= j0 < s.len() && entry_key(#[trigger] s[j0]) == k;
                assert(listed(entry_triple(s[j0]@), out@));
            }
        }
        out
    }

    /// All records still in the window, concluded ones included, as
    /// (session, candidate, status).
    #[verifier::loop_isolation(false)]
    pub fn recent_disputes(&self) -> (r: Vec<(SessionIndex, CandidateHash, DisputeStatus)>)
        requires
            self.wf(),
        ensures
            forall|i: int|
                0 <= i < r@.len() ==> {
                    let t = #[trigger] r@[i];
                    &&& self@.entries.contains_key((t.0, t.1))
                    &&& t.2 == self@.entries[(t.0, t.1)].status
                },
            forall|k: (SessionIndex, CandidateHash)| #[trigger]
                self@.entries.contains_key(k) ==> listed(
                    (k.0, k.1, self@.entries[k].status),
                    r@,
                ),
            forall|i: int, j: int|
                0 <= i < j < r@.len() ==> ((#[trigger] r@[i]).0, r@[i].1) != ((
                #[trigger] r@[j]).0, r@[j].1),
    {
        let ghost s = self.store.entries@;
        let mut out: Vec<(SessionIndex, CandidateHash, DisputeStatus)> = Vec::new();
        let mut i: usize = 0;
        while i < self.store.entries.len()
            invariant
                i <= s.len(),
                out@.len() == i,
                forall|j: int| 0 <= j < i ==> #[trigger] out@[j] == entry_triple(s[j]@),
            decreases s.len() - i,
        {
            let e = &self.store.entries[i];
            out.push((e.session, e.candidate, e.status));
            i = i + 1;
        }
        proof {
            assert forall|ii: int| 0 <= ii < out@.len() implies {
                let t = #[trigger] out@[ii];
                &&& self@.entries.contains_key((t.0, t.1))
                &&& t.2 == self@.entries[(t.0, t.1)].status
            } by {
                lemma_store_map_characterize(s, entry_key(s[ii]));
            }
            assert forall|k: (SessionIndex, CandidateHash)| #[trigger]
                self@.entries.contains_key(k) implies listed(
                (k.0, k.1, self@.entries[k].status),
                out@,
            ) by {
                lemma_store_map_characterize(s, k);
                let j0 = choose|j0: int|
                    0 <= j0 < s.len() && entry_key(#[trigger] s[j0]) == k;
                assert(out@[j0] == entry_triple(s[j0]@));
            }
        }
        out
    }

    /// Whether the record for `(session, candidate)` carries equivocation
    /// evidence: some validator voted both ways.
    pub fn has_equivocation(&self, session: SessionIndex, candidate: CandidateHash) -> (r: bool)
        requires
            self.wf(),
        ensures
            r == (self@.entries.contains_key((session, candidate)) && equivocation_in(
                self@.entries[(session, candidate)].votes,
            )),
    {
        match self.store.get(session, candidate) {
            Some(e) => votes_equivocate(&e.votes),
            None => false,
        }
    }
}

/// The import transition preserves well-formedness.
proof fn lemma_record_import_wf(
    m: CoordModel,
    k: (SessionIndex, CandidateHash),
    e: EntryModel,
    outcome: ImportOutcome,
    local: Option<ValidatorIndex>,
    session: SessionIndex,
    candidate: CandidateHash,
)
    requires
        wf_model(m),
        k == (session, candidate),
        e.session == session,
        e.candidate == candidate,
        wf_entry(e),
        in_window_model(m, session),
        e.first_observed <= m.highest,
    ensures
        wf_model(record_import(m, k, e, outcome, local).0),
{
    let m1 = record_import(m, k, e, outcome, local).0;
    assert forall|k2: (SessionIndex, CandidateHash)| #[trigger]
        m1.entries.contains_key(k2) implies {
        let e2 = m1.entries[k2];
        &&& e2.session == k2.0
        &&& e2.candidate == k2.1
        &&& wf_entry(e2)
        &&& in_window_model(m1, e2.session)
        &&& e2.first_observed <= m1.highest
    } by {
        if k2 != k {
            assert(m.entries.contains_key(k2));
        }
    }
    assert forall|p: (SessionIndex, CandidateHash)| #[trigger]
        m1.requested.contains(p) implies in_window_model(m1, p.0) by {
        if p != k {
            assert(m.requested.contains(p));
        }
    }
}

/// The session-advance transition preserves well-formedness.
proof fn lemma_advance_wf(m: CoordModel, new_highest: SessionIndex)
    requires
        wf_model(m),
    ensures
        wf_model(advance_step(m, new_highest).0),
{
    let m1 = advance_step(m, new_highest).0;
    if new_highest > m.highest {
        assert forall|k2: (SessionIndex, CandidateHash)| #[trigger]
            m1.entries.contains_key(k2) implies {
            let e2 = m1.entries[k2];
            &&& e2.session == k2.0
            &&& e2.candidate == k2.1
            &&& wf_entry(e2)
            &&& in_window_model(m1, e2.session)
            &&& e2.first_observed <= m1.highest
        } by {
            assert(m.entries.contains_key(k2));
        }
        assert forall|p: (SessionIndex, CandidateHash)| #[trigger]
            m1.requested.contains(p) implies in_window_model(m1, p.0) by {
            assert(m.requested.contains(p));
        }
    }
}

} // verus!
