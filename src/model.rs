use vstd::prelude::*;

use crate::records::{Dispute, Lease, LeaseError, Reputation};

verus! {

/// The abstract state of the ledger.
#[verifier::ext_equal]
pub struct LedgerView {
    /// Leases in order of creation: the lease with id `k` is at index `k - 1`.
    pub leases: Seq<Lease>,
    /// Disputes, keyed by the id of the lease they contest.
    pub disputes: Map<u64, Dispute>,
    /// Reputations of the handles that have a record.
    pub reputations: Map<Seq<char>, Reputation>,
}

impl LedgerView {
    /// A ledger with no records.
    pub open spec fn empty() -> LedgerView {
        LedgerView { leases: Seq::empty(), disputes: Map::empty(), reputations: Map::empty() }
    }

    /// The id that the next created lease receives.
    pub open spec fn next_id(self) -> nat {
        self.leases.len() + 1
    }

    pub open spec fn lease(self, id: u64) -> Option<Lease> {
        if 1 <= id && id <= self.leases.len() {
            Some(self.leases[id - 1])
        } else {
            None
        }
    }

    pub open spec fn dispute(self, id: u64) -> Option<Dispute> {
        if self.disputes.contains_key(id) {
            Some(self.disputes[id])
        } else {
            None
        }
    }

    /// A handle without a record has the all-zero reputation.
    pub open spec fn reputation(self, user: Seq<char>) -> Reputation {
        if self.reputations.contains_key(user) {
            self.reputations[user]
        } else {
            Reputation::zero_spec()
        }
    }

    /// The invariants that every reachable ledger satisfies.
    pub open spec fn wf(self) -> bool {
        &&& self.leases.len() <= u64::MAX
        &&& forall|i: int| 0 <= i < self.leases.len() ==> #[trigger] self.leases[i].lease_id == i + 1
        &&& forall|id: u64| #[trigger]
            self.disputes.contains_key(id) ==> {
                &&& self.lease(id) is Some
                &&& self.lease(id).unwrap().dispute
                &&& self.disputes[id].lease_id == id
            }
        &&& forall|u: Seq<char>| #[trigger]
            self.reputations.contains_key(u) ==> self.reputations[u].is_balanced()
    }

    /// The lease that `create` adds.
    pub open spec fn new_lease(
        self,
        asset_name: String,
        owner: String,
        lessee: String,
        amount_paid: u64,
        duration: u64,
        now: u64,
    ) -> Lease {
        Lease {
            lease_id: self.next_id() as u64,
            asset_name,
            owner,
            lessee,
            amount_paid,
            lease_start: now,
            lease_end: (now + duration) as u64,
            is_returned: false,
            is_active: true,
            dispute: false,
        }
    }

    pub open spec fn after_create(
        self,
        asset_name: String,
        owner: String,
        lessee: String,
        amount_paid: u64,
        duration: u64,
        now: u64,
    ) -> LedgerView {
        LedgerView {
            leases: self.leases.push(
                self.new_lease(asset_name, owner, lessee, amount_paid, duration, now),
            ),
            ..self
        }
    }

    /// Whether a return of lease `id` is allowed, and if not, why.
    pub open spec fn check_return(self, id: u64) -> Result<(), LeaseError> {
        match self.lease(id) {
            None => Err(LeaseError::NotFound),
            Some(l) => if l.is_returnable() {
                Ok(())
            } else {
                Err(LeaseError::InvalidState)
            },
        }
    }

    /// The lessee's counters have room for the return of lease `id`.
    pub open spec fn return_fits(self, id: u64, on_time: bool) -> bool {
        self.lease(id) is Some ==> self.reputation(
            self.lease(id).unwrap().lessee@,
        ).has_room_for_return(on_time)
    }

    /// The ledger after returning lease `id`; unchanged when the return is refused.
    pub open spec fn after_return(self, id: u64, on_time: bool) -> LedgerView {
        if self.check_return(id) is Ok {
            let l = self.lease(id).unwrap();
            LedgerView {
                leases: self.leases.update(id - 1, l.returned_spec()),
                reputations: self.reputations.insert(
                    l.lessee@,
                    self.reputation(l.lessee@).after_return(on_time),
                ),
                ..self
            }
        } else {
            self
        }
    }

    /// Whether a dispute may be raised against lease `id`, and if not, why.
    pub open spec fn check_raise(self, id: u64) -> Result<(), LeaseError> {
        match self.lease(id) {
            None => Err(LeaseError::NotFound),
            Some(l) => if l.is_disputable() {
                Ok(())
            } else {
                Err(LeaseError::InvalidState)
            },
        }
    }

    /// The ledger after raising a dispute against lease `id`; unchanged when refused.
    pub open spec fn after_raise(self, id: u64, raised_by: String, reason: String) -> LedgerView {
        if self.check_raise(id) is Ok {
            let l = self.lease(id).unwrap();
            LedgerView {
                leases: self.leases.update(id - 1, l.disputed_spec()),
                disputes: self.disputes.insert(
                    id,
                    Dispute { lease_id: id, raised_by, reason, resolved: false, valid: false },
                ),
                reputations: self.reputations.insert(
                    raised_by@,
                    self.reputation(raised_by@).after_dispute(),
                ),
            }
        } else {
            self
        }
    }

    /// Whether the dispute on lease `id` may be resolved, and if not, why.
    pub open spec fn check_resolve(self, id: u64) -> Result<(), LeaseError> {
        match self.dispute(id) {
            None => Err(LeaseError::NotFound),
            Some(d) => match self.lease(id) {
                None => Err(LeaseError::NotFound),
                Some(_) => if d.resolved {
                    Err(LeaseError::InvalidState)
                } else {
                    Ok(())
                },
            },
        }
    }

    /// The ledger after resolving the dispute on lease `id` with the given
    /// verdict; unchanged when refused.
    pub open spec fn after_resolve(self, id: u64, valid: bool) -> LedgerView {
        if self.check_resolve(id) is Ok {
            let l = self.lease(id).unwrap();
            let d = self.dispute(id).unwrap();
            LedgerView {
                leases: self.leases.update(id - 1, l.closed_spec()),
                disputes: self.disputes.insert(id, d.resolved_spec(valid)),
                ..self
            }
        } else {
            self
        }
    }
}

} // verus!
