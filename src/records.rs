use vstd::prelude::*;

verus! {

/// Why an operation on the ledger was refused.
#[derive(Clone, Copy, Debug, PartialEq, Eq, Structural)]
pub enum LeaseError {
    /// The referenced lease or dispute does not exist.
    NotFound,
    /// The record exists, but its state does not allow the requested step.
    InvalidState,
}

/// The cumulative trust history of one user handle.
#[derive(Clone, Copy, Debug, PartialEq, Eq, Structural)]
pub struct Reputation {
    pub total_leases: u64,
    pub successful_returns: u64,
    pub failed_returns: u64,
    pub disputes_raised: u64,
    pub trust_score: u64,
}

/// Trust gained by an on-time return.
pub const ON_TIME_BONUS: u64 = 10;

/// Trust lost by a late or failed return (the score never drops below zero).
pub const LATE_PENALTY: u64 = 5;

impl Reputation {
    /// The reputation of a handle with no history.
    pub open spec fn zero_spec() -> Reputation {
        Reputation {
            total_leases: 0,
            successful_returns: 0,
            failed_returns: 0,
            disputes_raised: 0,
            trust_score: 0,
        }
    }

    /// Every return is counted either as a success or as a failure.
    pub open spec fn is_balanced(self) -> bool {
        self.total_leases == self.successful_returns + self.failed_returns
    }

    /// The counters touched by a return can be incremented without overflow.
    pub open spec fn has_room_for_return(self, on_time: bool) -> bool {
        &&& self.total_leases < u64::MAX
        &&& on_time ==> self.trust_score <= u64::MAX - ON_TIME_BONUS
    }

    /// The trust score after a late return: lowered by the penalty, floored at zero.
    pub open spec fn penalized_score(score: u64) -> u64 {
        if score >= LATE_PENALTY {
            (score - LATE_PENALTY) as u64
        } else {
            0
        }
    }

    /// The reputation after one more return, on time or not.
    pub open spec fn after_return(self, on_time: bool) -> Reputation {
        if on_time {
            Reputation {
                total_leases: (self.total_leases + 1) as u64,
                successful_returns: (self.successful_returns + 1) as u64,
                failed_returns: self.failed_returns,
                disputes_raised: self.disputes_raised,
                trust_score: (self.trust_score + ON_TIME_BONUS) as u64,
            }
        } else {
            Reputation {
                total_leases: (self.total_leases + 1) as u64,
                successful_returns: self.successful_returns,
                failed_returns: (self.failed_returns + 1) as u64,
                disputes_raised: self.disputes_raised,
                trust_score: Self::penalized_score(self.trust_score),
            }
        }
    }

    /// The reputation after raising one more dispute.
    pub open spec fn after_dispute(self) -> Reputation {
        Reputation { disputes_raised: (self.disputes_raised + 1) as u64, ..self }
    }

    /// The reputation of a handle with no history: every field zero.
    pub fn zero() -> (r: Reputation)
        ensures
            r == Reputation::zero_spec(),
    {
        Reputation {
            total_leases: 0,
            successful_returns: 0,
            failed_returns: 0,
            disputes_raised: 0,
            trust_score: 0,
        }
    }

    /// Counts one return: a success earns the bonus, a failure costs the
    /// penalty without taking the score below zero.
    pub fn record_return(&self, on_time: bool) -> (r: Reputation)
        requires
            self.is_balanced(),
            self.has_room_for_return(on_time),
        ensures
            r == self.after_return(on_time),
            r.is_balanced(),
    {
        if on_time {
            Reputation {
                total_leases: self.total_leases + 1,
                successful_returns: self.successful_returns + 1,
                failed_returns: self.failed_returns,
                disputes_raised: self.disputes_raised,
                trust_score: self.trust_score + ON_TIME_BONUS,
            }
        } else {
            let trust_score = if self.trust_score >= LATE_PENALTY {
                self.trust_score - LATE_PENALTY
            } else {
                0
            };
            Reputation {
                total_leases: self.total_leases + 1,
                successful_returns: self.successful_returns,
                failed_returns: self.failed_returns + 1,
                disputes_raised: self.disputes_raised,
                trust_score,
            }
        }
    }

    /// Counts one raised dispute; nothing else changes.
    pub fn record_dispute(&self) -> (r: Reputation)
        requires
            self.disputes_raised < u64::MAX,
        ensures
            r == self.after_dispute(),
    {
        Reputation { disputes_raised: self.disputes_raised + 1, ..*self }
    }
}

/// One rental agreement between an owner and a lessee.
#[derive(Clone, Debug, PartialEq, Eq)]
pub struct Lease {
    pub lease_id: u64,
    pub asset_name: String,
    pub owner: String,
    pub lessee: String,
    pub amount_paid: u64,
    pub lease_start: u64,
    pub lease_end: u64,
    pub is_returned: bool,
    pub is_active: bool,
    pub dispute: bool,
}

impl Lease {
    /// The lease may still be returned.
    pub open spec fn is_returnable(self) -> bool {
        self.is_active && !self.is_returned
    }

    /// A dispute may still be raised against the lease.
    pub open spec fn is_disputable(self) -> bool {
        self.is_active && !self.dispute
    }

    /// The lease after its asset came back.
    pub open spec fn returned_spec(self) -> Lease {
        Lease { is_returned: true, is_active: false, ..self }
    }

    /// The lease once a dispute is raised against it; it stays active.
    pub open spec fn disputed_spec(self) -> Lease {
        Lease { dispute: true, ..self }
    }

    /// The lease once its dispute is resolved.
    pub open spec fn closed_spec(self) -> Lease {
        Lease { is_active: false, ..self }
    }

    /// A new, active lease that starts at `now` and runs for `duration`.
    pub fn open(
        lease_id: u64,
        asset_name: String,
        owner: String,
        lessee: String,
        amount_paid: u64,
        duration: u64,
        now: u64,
    ) -> (r: Lease)
        requires
            now + duration <= u64::MAX,
        ensures
            r == (Lease {
                lease_id,
                asset_name,
                owner,
                lessee,
                amount_paid,
                lease_start: now,
                lease_end: (now + duration) as u64,
                is_returned: false,
                is_active: true,
                dispute: false,
            }),
    {
        Lease {
            lease_id,
            asset_name,
            owner,
            lessee,
            amount_paid,
            lease_start: now,
            lease_end: now + duration,
            is_returned: false,
            is_active: true,
            dispute: false,
        }
    }

    /// The lease after its asset came back; `InvalidState` unless it is
    /// active and not yet returned.
    pub fn mark_returned(&self) -> (r: Result<Lease, LeaseError>)
        ensures
            r == if self.is_returnable() {
                Ok(self.returned_spec())
            } else {
                Err(LeaseError::InvalidState)
            },
    {
        if !self.is_active || self.is_returned {
            return Err(LeaseError::InvalidState);
        }
        let mut lease = self.duplicate();
        lease.is_returned = true;
        lease.is_active = false;
        Ok(lease)
    }

    /// The lease marked as disputed; `InvalidState` unless it is active and
    /// not yet disputed.
    pub fn mark_disputed(&self) -> (r: Result<Lease, LeaseError>)
        ensures
            r == if self.is_disputable() {
                Ok(self.disputed_spec())
            } else {
                Err(LeaseError::InvalidState)
            },
    {
        if !self.is_active || self.dispute {
            return Err(LeaseError::InvalidState);
        }
        let mut lease = self.duplicate();
        lease.dispute = true;
        Ok(lease)
    }

    /// The lease made inactive, as a resolved dispute leaves it.
    pub fn mark_closed(&self) -> (r: Lease)
        ensures
            r == self.closed_spec(),
    {
        let mut lease = self.duplicate();
        lease.is_active = false;
        lease
    }

    /// An exact copy of the lease.
    pub fn duplicate(&self) -> (r: Lease)
        ensures
            r == *self,
    {
        Lease {
            lease_id: self.lease_id,
            asset_name: self.asset_name.clone(),
            owner: self.owner.clone(),
            lessee: self.lessee.clone(),
            amount_paid: self.amount_paid,
            lease_start: self.lease_start,
            lease_end: self.lease_end,
            is_returned: self.is_returned,
            is_active: self.is_active,
            dispute: self.dispute,
        }
    }
}

/// A contested claim against exactly one lease.
#[derive(Clone, Debug, PartialEq, Eq)]
pub struct Dispute {
    pub lease_id: u64,
    pub raised_by: String,
    pub reason: String,
    pub resolved: bool,
    pub valid: bool,
}

impl Dispute {
    /// The dispute after resolution with the given verdict.
    pub open spec fn resolved_spec(self, valid: bool) -> Dispute {
        Dispute { resolved: true, valid, ..self }
    }

    /// A new, unresolved dispute against lease `lease_id`.
    pub fn raise(lease_id: u64, raised_by: String, reason: String) -> (r: Dispute)
        ensures
            r == (Dispute { lease_id, raised_by, reason, resolved: false, valid: false }),
    {
        Dispute { lease_id, raised_by, reason, resolved: false, valid: false }
    }

    /// The dispute resolved with the verdict `valid`; `InvalidState` when it
    /// was resolved already.
    pub fn resolve(&self, valid: bool) -> (r: Result<Dispute, LeaseError>)
        ensures
            r == if self.resolved {
                Err(LeaseError::InvalidState)
            } else {
                Ok(self.resolved_spec(valid))
            },
    {
        if self.resolved {
            return Err(LeaseError::InvalidState);
        }
        let mut dispute = self.duplicate();
        dispute.resolved = true;
        dispute.valid = valid;
        Ok(dispute)
    }

    /// An exact copy of the dispute.
    pub fn duplicate(&self) -> (r: Dispute)
        ensures
            r == *self,
    {
        Dispute {
            lease_id: self.lease_id,
            raised_by: self.raised_by.clone(),
            reason: self.reason.clone(),
            resolved: self.resolved,
            valid: self.valid,
        }
    }
}

/// Storage key of a lease, namespaced by its id.
#[derive(Clone, Copy, Debug, PartialEq, Eq, Structural)]
pub enum LeaseBook {
    Lease(u64),
}

/// Storage key of a dispute, namespaced by the id of the lease it contests.
#[derive(Clone, Copy, Debug, PartialEq, Eq, Structural)]
pub enum DisputeBook {
    Dispute(u64),
}

} // verus!
