use dispute_coordinator::coordinator::Coordinator;
use dispute_coordinator::statemachine::supermajority_threshold;
use dispute_coordinator::types::DisputeStatus;
use dispute_coordinator::types::ImportError;
use dispute_coordinator::types::ImportOutcome;
use dispute_coordinator::types::Polarity;
use dispute_coordinator::types::SessionInfo;
use dispute_coordinator::types::Signature;
use dispute_coordinator::types::Vote;

/// A session of `n` validators whose keys are 100, 101, ...; the node
/// controls `local` if given.
fn session_info(n: u32, local: Option<u32>) -> SessionInfo {
    let mut keys: Vec<u64> = Vec::new();
    let mut i: u64 = 0;
    while i < n as u64 {
        keys.push(100 + i);
        i += 1;
    }
    SessionInfo { validator_keys: keys, local_validator: local }
}

/// A correctly signed vote by validator `validator` of `info`.
fn signed_vote(
    info: &SessionInfo,
    validator: u32,
    session: u32,
    candidate: u64,
    polarity: Polarity,
) -> Vote {
    let signer = info.validator_keys[validator as usize];
    Vote {
        validator,
        signature: Signature { signer, session, candidate, polarity },
        polarity,
    }
}

#[test]
fn import_out_of_window_rejected() {
    // Window size 3: retention 2 keeps [8, 10] once session 10 is seen.
    let mut c = Coordinator::new(2, 100);
    c.note_new_session(10).unwrap();
    let info = session_info(7, None);
    let low = signed_vote(&info, 0, 7, 0xC, Polarity::Valid);
    assert_eq!(c.import(7, 0xC, low, &info), Err(ImportError::OutOfWindow));
    let high = signed_vote(&info, 0, 11, 0xC, Polarity::Valid);
    assert_eq!(c.import(11, 0xC, high, &info), Err(ImportError::OutOfWindow));
    // No record was created.
    assert!(c.query_candidate_votes(7, 0xC).is_none());
    assert!(c.query_candidate_votes(11, 0xC).is_none());
}

#[test]
fn bad_signature_rejected() {
    let mut c = Coordinator::new(2, 100);
    c.note_new_session(10).unwrap();
    let info = session_info(7, None);
    // Signed with the wrong key.
    let mut vote = signed_vote(&info, 0, 10, 0xC, Polarity::Valid);
    vote.signature.signer = 999;
    assert_eq!(c.import(10, 0xC, vote, &info), Err(ImportError::BadSignature));
    // Claimed validator index outside the validator set.
    let vote = Vote {
        validator: 7,
        signature: Signature { signer: 107, session: 10, candidate: 0xC, polarity: Polarity::Valid },
        polarity: Polarity::Valid,
    };
    assert_eq!(c.import(10, 0xC, vote, &info), Err(ImportError::BadSignature));
    // A signature over a different statement does not verify either.
    let mut vote = signed_vote(&info, 0, 10, 0xC, Polarity::Valid);
    vote.signature.polarity = Polarity::Invalid;
    assert_eq!(c.import(10, 0xC, vote, &info), Err(ImportError::BadSignature));
    assert!(c.query_candidate_votes(10, 0xC).is_none());
}

#[test]
fn duplicate_import_is_idempotent() {
    let mut c = Coordinator::new(2, 100);
    c.note_new_session(10).unwrap();
    let info = session_info(7, None);
    let vote = signed_vote(&info, 3, 10, 0xC, Polarity::Valid);
    let first = c.import(10, 0xC, vote, &info).unwrap();
    assert_eq!(first.outcome, ImportOutcome::Imported);
    let second = c.import(10, 0xC, vote, &info).unwrap();
    assert_eq!(second.outcome, ImportOutcome::Duplicate);
    assert_eq!(second.status, first.status);
    let votes = c.query_candidate_votes(10, 0xC).unwrap();
    assert_eq!(votes.valid.len(), 1);
    assert_eq!(votes.invalid.len(), 0);
}

#[test]
fn supermajority_scenario_concludes_valid() {
    // Session window size 3, threshold = 5 of 7 validators.
    let mut c = Coordinator::new(2, 100);
    c.note_new_session(10).unwrap();
    let info = session_info(7, None);
    for v in 0..4u32 {
        let vote = signed_vote(&info, v, 10, 0xC, Polarity::Valid);
        let summary = c.import(10, 0xC, vote, &info).unwrap();
        assert_eq!(summary.status, DisputeStatus::Active);
    }
    let fifth = signed_vote(&info, 4, 10, 0xC, Polarity::Valid);
    let summary = c.import(10, 0xC, fifth, &info).unwrap();
    assert_eq!(summary.status, DisputeStatus::ConcludedValid);
    let votes = c.query_candidate_votes(10, 0xC).unwrap();
    assert_eq!(votes.valid.len(), 5);
    assert_eq!(votes.invalid.len(), 0);
}

#[test]
fn concluded_valid_is_sticky() {
    let mut c = Coordinator::new(2, 100);
    c.note_new_session(10).unwrap();
    let info = session_info(7, None);
    for v in 0..5u32 {
        let vote = signed_vote(&info, v, 10, 0xC, Polarity::Valid);
        c.import(10, 0xC, vote, &info).unwrap();
    }
    assert_eq!(c.dispute_status(10, 0xC), Some(DisputeStatus::ConcludedValid));
    // Later votes are still recorded but never change the lifecycle tag.
    for v in 5..7u32 {
        let vote = signed_vote(&info, v, 10, 0xC, Polarity::Invalid);
        let summary = c.import(10, 0xC, vote, &info).unwrap();
        assert_eq!(summary.status, DisputeStatus::ConcludedValid);
    }
    assert_eq!(c.dispute_status(10, 0xC), Some(DisputeStatus::ConcludedValid));
    let votes = c.query_candidate_votes(10, 0xC).unwrap();
    assert_eq!(votes.valid.len(), 5);
    assert_eq!(votes.invalid.len(), 2);
}

#[test]
fn equivocation_marked_without_concluding() {
    let mut c = Coordinator::new(2, 100);
    c.note_new_session(10).unwrap();
    let info = session_info(7, None);
    let pro = signed_vote(&info, 2, 10, 0xC, Polarity::Valid);
    assert_eq!(c.import(10, 0xC, pro, &info).unwrap().outcome, ImportOutcome::Imported);
    assert!(!c.has_equivocation(10, 0xC));
    let contra = signed_vote(&info, 2, 10, 0xC, Polarity::Invalid);
    let summary = c.import(10, 0xC, contra, &info).unwrap();
    assert_eq!(summary.outcome, ImportOutcome::Equivocation);
    // Both votes are retained; the lifecycle moves only as counts justify.
    assert_eq!(summary.status, DisputeStatus::Active);
    assert!(c.has_equivocation(10, 0xC));
    let votes = c.query_candidate_votes(10, 0xC).unwrap();
    assert_eq!(votes.valid.len(), 1);
    assert_eq!(votes.invalid.len(), 1);
}

#[test]
fn session_advance_monotonic() {
    let mut c = Coordinator::new(2, 100);
    assert!(c.note_new_session(5).is_ok());
    assert_eq!(
        c.note_new_session(4),
        Err(dispute_coordinator::types::AdvanceError::StaleSession)
    );
    assert_eq!(
        c.note_new_session(5),
        Err(dispute_coordinator::types::AdvanceError::StaleSession)
    );
    // Window bounds are unchanged by the stale notifications.
    assert_eq!(c.highest_session(), 5);
    assert!(c.in_window(3));
    assert!(c.in_window(5));
    assert!(!c.in_window(2));
    assert!(!c.in_window(6));
}

#[test]
fn pruning_removes_old_records() {
    // `NotifyNewSession(14)` with window size 3 prunes session 10's records.
    let mut c = Coordinator::new(2, 100);
    c.note_new_session(10).unwrap();
    let info = session_info(7, None);
    let vote = signed_vote(&info, 0, 10, 0xC, Polarity::Valid);
    c.import(10, 0xC, vote, &info).unwrap();
    assert!(c.query_candidate_votes(10, 0xC).is_some());
    c.note_new_session(14).unwrap();
    assert!(c.query_candidate_votes(10, 0xC).is_none());
    assert!(c.dispute_status(10, 0xC).is_none());
    assert_eq!(c.active_disputes().len(), 0);
    // Importing for the pruned session again is out of window.
    let vote = signed_vote(&info, 1, 10, 0xC, Polarity::Valid);
    assert_eq!(c.import(10, 0xC, vote, &info), Err(ImportError::OutOfWindow));
}

#[test]
fn participation_requested_once() {
    let mut c = Coordinator::new(2, 100);
    c.note_new_session(10).unwrap();
    // The node controls validator 6 and has not voted.
    let info = session_info(7, Some(6));
    let vote = signed_vote(&info, 0, 10, 0xC, Polarity::Valid);
    let first = c.import(10, 0xC, vote, &info).unwrap();
    assert!(first.participation);
    // A second notification of the same dispute emits no additional request.
    let vote = signed_vote(&info, 1, 10, 0xC, Polarity::Invalid);
    let second = c.import(10, 0xC, vote, &info).unwrap();
    assert!(!second.participation);
    let vote = signed_vote(&info, 0, 10, 0xC, Polarity::Valid);
    let repeat = c.import(10, 0xC, vote, &info).unwrap();
    assert!(!repeat.participation);
}

#[test]
fn own_vote_suppresses_participation() {
    let mut c = Coordinator::new(2, 100);
    c.note_new_session(10).unwrap();
    let info = session_info(7, Some(3));
    // The first vote seen is the node's own: no re-validation is needed.
    let vote = signed_vote(&info, 3, 10, 0xC, Polarity::Valid);
    let summary = c.import(10, 0xC, vote, &info).unwrap();
    assert!(!summary.participation);
}

#[test]
fn timeout_after_configured_sessions() {
    // Generous window, timeout after 2 sessions without a conclusion.
    let mut c = Coordinator::new(10, 2);
    c.note_new_session(5).unwrap();
    let info = session_info(7, None);
    let vote = signed_vote(&info, 0, 5, 0xC, Polarity::Valid);
    c.import(5, 0xC, vote, &info).unwrap();
    assert_eq!(c.dispute_status(5, 0xC), Some(DisputeStatus::Active));
    c.note_new_session(6).unwrap();
    assert_eq!(c.dispute_status(5, 0xC), Some(DisputeStatus::Active));
    c.note_new_session(7).unwrap();
    assert_eq!(c.dispute_status(5, 0xC), Some(DisputeStatus::TimedOut));
    // Timed out is terminal: more votes never revive the dispute.
    let vote = signed_vote(&info, 1, 5, 0xC, Polarity::Valid);
    let summary = c.import(5, 0xC, vote, &info).unwrap();
    assert_eq!(summary.status, DisputeStatus::TimedOut);
}

#[test]
fn active_and_recent_listings() {
    let mut c = Coordinator::new(5, 100);
    c.note_new_session(10).unwrap();
    let info = session_info(3, None);
    // One dispute that concludes (threshold 3 of 3), one that stays active.
    for v in 0..3u32 {
        let vote = signed_vote(&info, v, 10, 0xA, Polarity::Invalid);
        c.import(10, 0xA, vote, &info).unwrap();
    }
    let vote = signed_vote(&info, 0, 10, 0xB, Polarity::Valid);
    c.import(10, 0xB, vote, &info).unwrap();
    assert_eq!(c.dispute_status(10, 0xA), Some(DisputeStatus::ConcludedInvalid));
    let active = c.active_disputes();
    assert_eq!(active.len(), 1);
    assert_eq!(active[0], (10, 0xB, DisputeStatus::Active));
    let recent = c.recent_disputes();
    assert_eq!(recent.len(), 2);
    assert!(recent.contains(&(10, 0xA, DisputeStatus::ConcludedInvalid)));
    assert!(recent.contains(&(10, 0xB, DisputeStatus::Active)));
}

#[test]
fn batch_import_processes_whole_batch() {
    let mut c = Coordinator::new(2, 100);
    c.note_new_session(10).unwrap();
    let info = session_info(7, None);
    let mut bad = signed_vote(&info, 1, 10, 0xC, Polarity::Valid);
    bad.signature.signer = 0;
    let batch = vec![
        signed_vote(&info, 0, 10, 0xC, Polarity::Valid),
        bad,
        signed_vote(&info, 2, 10, 0xC, Polarity::Valid),
    ];
    let results = c.import_statements(10, 0xC, &batch, &info);
    // One outcome per vote; the rejected one does not stop the rest.
    assert_eq!(results.len(), 3);
    assert!(results[0].is_ok());
    assert_eq!(results[1], Err(ImportError::BadSignature));
    assert!(results[2].is_ok());
    let votes = c.query_candidate_votes(10, 0xC).unwrap();
    assert_eq!(votes.valid.len(), 2);
}

#[test]
fn supermajority_threshold_values() {
    assert_eq!(supermajority_threshold(7), 5);
    assert_eq!(supermajority_threshold(6), 5);
    assert_eq!(supermajority_threshold(3), 3);
    assert_eq!(supermajority_threshold(1), 1);
}
