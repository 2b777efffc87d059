//! Data model: sessions, candidates, validators, votes and vote sets.

use vstd::prelude::*;

verus! {

/// Index of a consensus epoch ("session"). The coordinator only ever advances it.
pub type SessionIndex = u32;

/// A candidate is identified by a fixed-size content hash, held here as its
/// numeric value.
pub type CandidateHash = u64;

/// Index of a validator within a session's validator set.
pub type ValidatorIndex = u32;

/// Public key of a validator, held as its numeric value.
pub type ValidatorKey = u64;

/// Which way a vote goes: the candidate is valid, or it is invalid.
#[derive(Clone, Copy, PartialEq, Eq, Structural, Debug)]
pub enum Polarity {
    Valid,
    Invalid,
}

/// A signature over a dispute statement. Signing itself is done by an outside
/// collaborator; the coordinator only checks that the signed payload matches
/// the statement it accompanies, so a signature is modelled as that payload.
#[derive(Clone, Copy, PartialEq, Eq, Structural, Debug)]
pub struct Signature {
    pub signer: ValidatorKey,
    pub session: SessionIndex,
    pub candidate: CandidateHash,
    pub polarity: Polarity,
}

/// A vote: a validator's signed assertion that a candidate is valid or invalid.
#[derive(Clone, Copy, PartialEq, Eq, Structural, Debug)]
pub struct Vote {
    pub validator: ValidatorIndex,
    pub signature: Signature,
    pub polarity: Polarity,
}

/// What the runtime-state collaborator reports about one session: the keys of
/// its validator set, and which validator (if any) this node controls.
pub struct SessionInfo {
    pub validator_keys: Vec<ValidatorKey>,
    pub local_validator: Option<ValidatorIndex>,
}

/// Mathematical model of a `SessionInfo`.
#[verifier::ext_equal]
pub struct InfoModel {
    pub keys: Seq<ValidatorKey>,
    pub local: Option<ValidatorIndex>,
}

impl View for SessionInfo {
    type V = InfoModel;

    open spec fn view(&self) -> InfoModel {
        InfoModel { keys: self.validator_keys@, local: self.local_validator }
    }
}

impl SessionInfo {
    /// The validator set size must fit the width of a validator index.
    pub open spec fn wf(&self) -> bool {
        self.validator_keys@.len() <= u32::MAX
    }
}

/// Lifecycle of a dispute over one candidate.
#[derive(Clone, Copy, PartialEq, Eq, Structural, Debug)]
pub enum DisputeStatus {
    /// Votes are being collected; no quorum reached yet.
    Active,
    /// A supermajority voted that the candidate is valid.
    ConcludedValid,
    /// A supermajority voted that the candidate is invalid.
    ConcludedInvalid,
    /// The configured number of sessions elapsed without a conclusion.
    TimedOut,
}

/// How an import was handled.
#[derive(Clone, Copy, PartialEq, Eq, Structural, Debug)]
pub enum ImportOutcome {
    /// The vote was new and has been recorded.
    Imported,
    /// The validator had already cast this very vote; nothing changed.
    Duplicate,
    /// The validator had already voted the other way; both votes are retained
    /// as equivocation evidence.
    Equivocation,
}

/// Why an import was rejected.
#[derive(Clone, Copy, PartialEq, Eq, Structural, Debug)]
pub enum ImportError {
    /// The vote's session lies outside the retained session window.
    OutOfWindow,
    /// The signature does not verify against the claimed validator's key.
    BadSignature,
}

/// Why a session notification was ignored.
#[derive(Clone, Copy, PartialEq, Eq, Structural, Debug)]
pub enum AdvanceError {
    /// The notified session does not exceed the highest session already seen;
    /// the notification is treated as a duplicate and changes nothing.
    StaleSession,
}

/// The result of a successful import: how the vote was handled, the lifecycle
/// status of the dispute afterwards, and whether this import is the one that
/// asks the node to participate (re-validate the candidate itself).
#[derive(Clone, Copy, PartialEq, Eq, Structural, Debug)]
pub struct ImportSummary {
    pub outcome: ImportOutcome,
    pub status: DisputeStatus,
    pub participation: bool,
}

/// The two disjoint polarity mappings of one candidate's vote set, each a list
/// of (validator index, signature) pairs.
pub struct CandidateVotes {
    pub valid: Vec<(ValidatorIndex, Signature)>,
    pub invalid: Vec<(ValidatorIndex, Signature)>,
}

/// Mathematical model of a `CandidateVotes`.
#[verifier::ext_equal]
pub struct VotesModel {
    pub valid: Seq<(ValidatorIndex, Signature)>,
    pub invalid: Seq<(ValidatorIndex, Signature)>,
}

impl View for CandidateVotes {
    type V = VotesModel;

    open spec fn view(&self) -> VotesModel {
        VotesModel { valid: self.valid@, invalid: self.invalid@ }
    }
}

/// One durable record: the vote set for a (session, candidate) pair together
/// with its lifecycle status, when the dispute was first observed, and the
/// size of the session's validator set at that time (thresholds are always
/// evaluated against this frozen size).
pub struct StoredEntry {
    pub session: SessionIndex,
    pub candidate: CandidateHash,
    pub votes: CandidateVotes,
    pub status: DisputeStatus,
    pub first_observed: SessionIndex,
    pub validator_count: u32,
}

/// Mathematical model of a `StoredEntry`.
#[verifier::ext_equal]
pub struct EntryModel {
    pub session: SessionIndex,
    pub candidate: CandidateHash,
    pub votes: VotesModel,
    pub status: DisputeStatus,
    pub first_observed: SessionIndex,
    pub validator_count: u32,
}

impl View for StoredEntry {
    type V = EntryModel;

    open spec fn view(&self) -> EntryModel {
        EntryModel {
            session: self.session,
            candidate: self.candidate,
            votes: self.votes@,
            status: self.status,
            first_observed: self.first_observed,
            validator_count: self.validator_count,
        }
    }
}

/// Whether some validator in the list is `v`.
pub open spec fn has_validator(l: Seq<(ValidatorIndex, Signature)>, v: ValidatorIndex) -> bool {
    exists|i: int| 0 <= i < l.len() && (#[trigger] l[i]).0 == v
}

/// Each validator appears at most once in the list.
pub open spec fn unique_validators(l: Seq<(ValidatorIndex, Signature)>) -> bool {
    forall|i: int, j: int| 0 <= i < j < l.len() ==> (#[trigger] l[i]).0 != (#[trigger] l[j]).0
}

/// The polarity mapping of `votes` that `p` selects.
pub open spec fn side(votes: VotesModel, p: Polarity) -> Seq<(ValidatorIndex, Signature)> {
    match p {
        Polarity::Valid => votes.valid,
        Polarity::Invalid => votes.invalid,
    }
}

/// The polarity opposite to `p`.
pub open spec fn opposite(p: Polarity) -> Polarity {
    match p {
        Polarity::Valid => Polarity::Invalid,
        Polarity::Invalid => Polarity::Valid,
    }
}

/// The signature that `key` produces for this statement.
pub open spec fn expected_signature(
    key: ValidatorKey,
    session: SessionIndex,
    candidate: CandidateHash,
    polarity: Polarity,
) -> Signature {
    Signature { signer: key, session, candidate, polarity }
}

/// A vote's signature verifies: the claimed validator exists in the session's
/// validator set and the signed payload is exactly this statement.
pub open spec fn signature_ok(
    vote: Vote,
    keys: Seq<ValidatorKey>,
    session: SessionIndex,
    candidate: CandidateHash,
) -> bool {
    &&& (vote.validator as int) < keys.len()
    &&& vote.signature == expected_signature(
        keys[vote.validator as int],
        session,
        candidate,
        vote.polarity,
    )
}

/// A vote set carries equivocation evidence: some validator voted both ways.
pub open spec fn equivocation_in(votes: VotesModel) -> bool {
    exists|v: ValidatorIndex|
        #[trigger] has_validator(votes.valid, v) && has_validator(votes.invalid, v)
}

/// Whether the node's own validator (if it controls one) has voted either way.
pub open spec fn has_local_vote(votes: VotesModel, local: Option<ValidatorIndex>) -> bool {
    match local {
        Option::None => false,
        Option::Some(v) => has_validator(votes.valid, v) || has_validator(votes.invalid, v),
    }
}

/// `votes` with `vote` added to its own polarity mapping.
pub open spec fn add_vote(votes: VotesModel, vote: Vote) -> VotesModel {
    match vote.polarity {
        Polarity::Valid => VotesModel {
            valid: votes.valid.push((vote.validator, vote.signature)),
            ..votes
        },
        Polarity::Invalid => VotesModel {
            invalid: votes.invalid.push((vote.validator, vote.signature)),
            ..votes
        },
    }
}

/// The vote set holding exactly one vote.
pub open spec fn singleton_votes(vote: Vote) -> VotesModel {
    add_vote(VotesModel { valid: Seq::empty(), invalid: Seq::empty() }, vote)
}

} // verus!
