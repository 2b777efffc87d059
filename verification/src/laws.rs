//! Laws of the coordinator, stated and proved over its model transitions.

use vstd::prelude::*;

use crate::coordinator::advance_step;
use crate::coordinator::import_step;
use crate::coordinator::in_window_model;
use crate::coordinator::wf_model;
use crate::coordinator::CoordModel;
use crate::statemachine::is_terminal;
use crate::statemachine::status_step;
use crate::statemachine::supermajority_threshold_spec;
use crate::types::add_vote;
use crate::types::equivocation_in;
use crate::types::has_validator;
use crate::types::opposite;
use crate::types::side;
use crate::types::signature_ok;
use crate::types::AdvanceError;
use crate::types::CandidateHash;
use crate::types::DisputeStatus;
use crate::types::ImportError;
use crate::types::ImportOutcome;
use crate::types::Polarity;
use crate::types::InfoModel;
use crate::types::SessionIndex;
use crate::types::Vote;
use crate::window::floor_spec;

verus! {

/// For any session outside the window, an import fails with `OutOfWindow`
/// and leaves the state unchanged.
pub proof fn lemma_import_out_of_window(
    m: CoordModel,
    session: SessionIndex,
    candidate: CandidateHash,
    vote: Vote,
    info: InfoModel,
)
    requires
        !in_window_model(m, session),
    ensures
        import_step(m, session, candidate, vote, info).0 == m,
        import_step(m, session, candidate, vote, info).1 == Err::<
            crate::types::ImportSummary,
            ImportError,
        >(ImportError::OutOfWindow),
{
}

/// In a well-formed state no record exists for a session outside the window,
/// so a rejected out-of-window import also finds no record to leave behind.
pub proof fn lemma_no_record_outside_window(
    m: CoordModel,
    session: SessionIndex,
    candidate: CandidateHash,
)
    requires
        wf_model(m),
        !in_window_model(m, session),
    ensures
        !m.entries.contains_key((session, candidate)),
{
    if m.entries.contains_key((session, candidate)) {
        assert(m.entries[(session, candidate)].session == session);
    }
}

/// Importing the same vote again right after a successful import is
/// idempotent: the second import returns a duplicate outcome and leaves the
/// whole state unchanged.
pub proof fn lemma_import_idempotent(
    m: CoordModel,
    session: SessionIndex,
    candidate: CandidateHash,
    vote: Vote,
    info: InfoModel,
)
    requires
        import_step(m, session, candidate, vote, info).1 is Ok,
    ensures
        ({
            let m1 = import_step(m, session, candidate, vote, info).0;
            let again = import_step(m1, session, candidate, vote, info);
            &&& again.0 == m1
            &&& again.1 is Ok
            &&& again.1->Ok_0.outcome == ImportOutcome::Duplicate
        }),
{
    let k = (session, candidate);
    let m1 = import_step(m, session, candidate, vote, info).0;
    let e1 = m1.entries[k];
    let l = side(e1.votes, vote.polarity);
    if !m.entries.contains_key(k) {
        assert(l[0].0 == vote.validator);
    } else {
        let e0 = m.entries[k];
        if has_validator(side(e0.votes, vote.polarity), vote.validator) {
            assert(e1 == e0);
        } else {
            assert(l == side(e0.votes, vote.polarity).push((vote.validator, vote.signature)));
            assert(l[l.len() - 1].0 == vote.validator);
        }
    }
    assert(has_validator(l, vote.validator));
    let again = import_step(m1, session, candidate, vote, info);
    assert(m1.entries.insert(k, e1) =~= m1.entries);
    assert(again.0 =~= m1);
}

/// Once the valid-vote count of a record that was absent or still active
/// reaches the supermajority threshold of its frozen validator-set size, the
/// import concludes the dispute as valid.
pub proof fn lemma_supermajority_concludes(
    m: CoordModel,
    session: SessionIndex,
    candidate: CandidateHash,
    vote: Vote,
    info: InfoModel,
)
    requires
        wf_model(m),
        info.keys.len() <= u32::MAX,
        import_step(m, session, candidate, vote, info).1 is Ok,
        !m.entries.contains_key((session, candidate)) || m.entries[(session, candidate)].status
            == DisputeStatus::Active,
        ({
            let e = import_step(m, session, candidate, vote, info).0.entries[(session, candidate)];
            e.votes.valid.len() >= supermajority_threshold_spec(e.validator_count as int)
        }),
    ensures
        import_step(m, session, candidate, vote, info).0.entries[(session, candidate)].status
            == DisputeStatus::ConcludedValid,
{
}

/// A concluded or timed-out record never changes its lifecycle tag on any
/// later import, whatever that import carries.
pub proof fn lemma_terminal_persists_import(
    m: CoordModel,
    session: SessionIndex,
    candidate: CandidateHash,
    vote: Vote,
    info: InfoModel,
    k0: (SessionIndex, CandidateHash),
)
    requires
        m.entries.contains_key(k0),
        is_terminal(m.entries[k0].status),
    ensures
        ({
            let m1 = import_step(m, session, candidate, vote, info).0;
            &&& m1.entries.contains_key(k0)
            &&& m1.entries[k0].status == m.entries[k0].status
        }),
{
}

/// A concluded or timed-out record keeps its lifecycle tag through any
/// sequence of later imports.
pub proof fn lemma_terminal_persists_imports(
    m: CoordModel,
    args: Seq<(SessionIndex, CandidateHash, Vote, InfoModel)>,
    k0: (SessionIndex, CandidateHash),
)
    requires
        m.entries.contains_key(k0),
        is_terminal(m.entries[k0].status),
    ensures
        ({
            let mn = apply_imports(m, args);
            &&& mn.entries.contains_key(k0)
            &&& mn.entries[k0].status == m.entries[k0].status
        }),
    decreases args.len(),
{
    if args.len() > 0 {
        let a = args[0];
        lemma_terminal_persists_import(m, a.0, a.1, a.2, a.3, k0);
        lemma_terminal_persists_imports(
            import_step(m, a.0, a.1, a.2, a.3).0,
            args.drop_first(),
            k0,
        );
    }
}

/// The state after a sequence of imports, applied first to last.
pub open spec fn apply_imports(
    m: CoordModel,
    args: Seq<(SessionIndex, CandidateHash, Vote, InfoModel)>,
) -> CoordModel
    decreases args.len(),
{
    if args.len() == 0 {
        m
    } else {
        apply_imports(
            import_step(m, args[0].0, args[0].1, args[0].2, args[0].3).0,
            args.drop_first(),
        )
    }
}

/// A concluded or timed-out record that survives a session advance keeps its
/// lifecycle tag.
pub proof fn lemma_terminal_persists_advance(
    m: CoordModel,
    new_highest: SessionIndex,
    k0: (SessionIndex, CandidateHash),
)
    requires
        m.entries.contains_key(k0),
        is_terminal(m.entries[k0].status),
    ensures
        ({
            let m1 = advance_step(m, new_highest).0;
            m1.entries.contains_key(k0) ==> m1.entries[k0].status == m.entries[k0].status
        }),
{
}

/// A vote opposite to the validator's earlier vote yields the equivocation
/// outcome; both votes are retained, and the lifecycle moves only as the raw
/// vote counts justify.
pub proof fn lemma_equivocation_marks(
    m: CoordModel,
    session: SessionIndex,
    candidate: CandidateHash,
    vote: Vote,
    info: InfoModel,
)
    requires
        in_window_model(m, session),
        signature_ok(vote, info.keys, session, candidate),
        m.entries.contains_key((session, candidate)),
        has_validator(
            side(m.entries[(session, candidate)].votes, opposite(vote.polarity)),
            vote.validator,
        ),
        !has_validator(
            side(m.entries[(session, candidate)].votes, vote.polarity),
            vote.validator,
        ),
    ensures
        ({
            let k = (session, candidate);
            let e0 = m.entries[k];
            let step = import_step(m, session, candidate, vote, info);
            let e1 = step.0.entries[k];
            &&& step.1 is Ok
            &&& step.1->Ok_0.outcome == ImportOutcome::Equivocation
            &&& equivocation_in(e1.votes)
            &&& side(e1.votes, vote.polarity) == side(e0.votes, vote.polarity).push(
                (vote.validator, vote.signature),
            )
            &&& side(e1.votes, opposite(vote.polarity)) == side(e0.votes, opposite(vote.polarity))
            &&& e1.status == status_step(
                e0.status,
                e1.votes.valid.len() as int,
                e1.votes.invalid.len() as int,
                e0.validator_count as int,
            )
        }),
{
    let k = (session, candidate);
    let e0 = m.entries[k];
    let e1 = import_step(m, session, candidate, vote, info).0.entries[k];
    assert(e1.votes == add_vote(e0.votes, vote));
    let l = side(e1.votes, vote.polarity);
    assert(l[l.len() - 1].0 == vote.validator);
    assert(has_validator(l, vote.validator));
    match vote.polarity {
        Polarity::Valid => {
            assert(has_validator(e1.votes.valid, vote.validator));
            assert(has_validator(e1.votes.invalid, vote.validator));
        },
        Polarity::Invalid => {
            assert(has_validator(e1.votes.valid, vote.validator));
            assert(has_validator(e1.votes.invalid, vote.validator));
        },
    }
}

/// At most one participation request is emitted per (session, candidate):
/// once an import reports one, no later import for the pair reports another
/// (the request set is cleared only when the record is pruned).
pub proof fn lemma_participation_requested_once(
    m: CoordModel,
    session: SessionIndex,
    candidate: CandidateHash,
    vote1: Vote,
    info1: InfoModel,
    vote2: Vote,
    info2: InfoModel,
)
    requires
        import_step(m, session, candidate, vote1, info1).1 is Ok,
        import_step(m, session, candidate, vote1, info1).1->Ok_0.participation,
    ensures
        ({
            let m1 = import_step(m, session, candidate, vote1, info1).0;
            let again = import_step(m1, session, candidate, vote2, info2);
            again.1 is Ok ==> !again.1->Ok_0.participation
        }),
{
}

/// Session advance is monotonic: after advancing to `s1`, a notification of
/// any session not above `s1` is stale and leaves the window and all records
/// unchanged.
pub proof fn lemma_advance_monotonic(m: CoordModel, s1: SessionIndex, s2: SessionIndex)
    requires
        s2 <= s1,
    ensures
        advance_step(advance_step(m, s1).0, s2).0 == advance_step(m, s1).0,
        advance_step(advance_step(m, s1).0, s2).1 == Err::<(), AdvanceError>(
            AdvanceError::StaleSession,
        ),
{
}

/// Advancing the window past a session prunes it: no record and no pending
/// participation request for that session survives.
pub proof fn lemma_advance_prunes(
    m: CoordModel,
    new_highest: SessionIndex,
    session: SessionIndex,
    candidate: CandidateHash,
)
    requires
        new_highest > m.highest,
        (session as int) < floor_spec(new_highest, m.retention),
    ensures
        !advance_step(m, new_highest).0.entries.contains_key((session, candidate)),
        !advance_step(m, new_highest).0.requested.contains((session, candidate)),
{
}

} // verus!
