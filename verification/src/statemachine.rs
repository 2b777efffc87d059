//! Dispute lifecycle: supermajority thresholds and status transitions.

use vstd::prelude::*;

use crate::types::DisputeStatus;
use crate::types::EntryModel;
use crate::types::SessionIndex;

verus! {

/// The vote count that concludes a dispute in a validator set of size `n`:
/// the smallest count strictly greater than two thirds of `n`.
pub open spec fn supermajority_threshold_spec(n: int) -> int {
    2 * n / 3 + 1
}

/// Computes the supermajority threshold for a validator set of size `n`.
pub fn supermajority_threshold(n: u32) -> (t: u32)
    ensures
        t as int == supermajority_threshold_spec(n as int),
{
    let wide: u64 = 2 * (n as u64) / 3 + 1;
    proof {
        assert(2 * (n as u64) / 3 <= 2 * (u32::MAX as u64) / 3) by (nonlinear_arith)
            requires
                n as u64 <= u32::MAX as u64,
        ;
    }
    wide as u32
}

/// A status from which the lifecycle tag never changes again.
pub open spec fn is_terminal(st: DisputeStatus) -> bool {
    st != DisputeStatus::Active
}

/// A dispute concluded one way or the other (timing out is not a conclusion).
pub open spec fn is_concluded(st: DisputeStatus) -> bool {
    st == DisputeStatus::ConcludedValid || st == DisputeStatus::ConcludedInvalid
}

/// Re-evaluation of a dispute's status after its vote counts changed: an
/// active dispute concludes when either polarity reaches the supermajority
/// threshold (valid checked first), and a terminal status never changes.
pub open spec fn status_step(st: DisputeStatus, nv: int, ni: int, n: int) -> DisputeStatus {
    if st != DisputeStatus::Active {
        st
    } else if nv >= supermajority_threshold_spec(n) {
        DisputeStatus::ConcludedValid
    } else if ni >= supermajority_threshold_spec(n) {
        DisputeStatus::ConcludedInvalid
    } else {
        DisputeStatus::Active
    }
}

/// Computes `status_step` on a dispute with `nv` valid and `ni` invalid votes
/// in a validator set of size `n`.
pub fn evaluate_status(st: DisputeStatus, nv: usize, ni: usize, n: u32) -> (r: DisputeStatus)
    ensures
        r == status_step(st, nv as int, ni as int, n as int),
{
    if st != DisputeStatus::Active {
        st
    } else {
        let t = supermajority_threshold(n);
        if nv >= t as usize {
            DisputeStatus::ConcludedValid
        } else if ni >= t as usize {
            DisputeStatus::ConcludedInvalid
        } else {
            DisputeStatus::Active
        }
    }
}

/// Timing out: an active dispute first observed `timeout` or more sessions
/// before `now` becomes `TimedOut`; any other status is unchanged.
pub open spec fn timeout_step(
    st: DisputeStatus,
    first_observed: SessionIndex,
    now: SessionIndex,
    timeout: SessionIndex,
) -> DisputeStatus {
    if st == DisputeStatus::Active && now - first_observed >= timeout {
        DisputeStatus::TimedOut
    } else {
        st
    }
}

/// A stored record after the timeout rule is applied at session `now`.
pub open spec fn timeout_entry(e: EntryModel, now: SessionIndex, timeout: SessionIndex) -> EntryModel {
    EntryModel { status: timeout_step(e.status, e.first_observed, now, timeout), ..e }
}

/// Internal consistency of one stored record: validators are unique within
/// each polarity mapping, and an active dispute has both counts below the
/// supermajority threshold of its frozen validator-set size.
pub open spec fn wf_entry(e: EntryModel) -> bool {
    &&& crate::types::unique_validators(e.votes.valid)
    &&& crate::types::unique_validators(e.votes.invalid)
    &&& e.status == DisputeStatus::Active ==> {
        &&& e.votes.valid.len() < supermajority_threshold_spec(e.validator_count as int)
        &&& e.votes.invalid.len() < supermajority_threshold_spec(e.validator_count as int)
    }
}

} // verus!
