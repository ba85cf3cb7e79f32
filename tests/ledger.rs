use reputation_lease::ReputationLeaseContract;
use reputation_lease::{Dispute, Lease, LeaseError, Reputation};

fn s(text: &str) -> String {
    text.to_string()
}

fn ledger_with_one_lease() -> ReputationLeaseContract {
    let mut c = ReputationLeaseContract::new();
    let id = c.create_lease(s("bike"), s("alice"), s("bob"), 100, 3600, 1_000);
    assert_eq!(id, 1);
    c
}

fn rep(total: u64, ok: u64, failed: u64, disputes: u64, trust: u64) -> Reputation {
    Reputation {
        total_leases: total,
        successful_returns: ok,
        failed_returns: failed,
        disputes_raised: disputes,
        trust_score: trust,
    }
}

#[test]
fn bike_returned_on_time_by_bob() {
    let mut c = ReputationLeaseContract::new();
    let id = c.create_lease(s("bike"), s("alice"), s("bob"), 100, 3600, 0);
    assert_eq!(id, 1);
    assert_eq!(c.return_asset(1, true), Ok(()));
    assert_eq!(c.view_reputation(s("bob")), rep(1, 1, 0, 0, 10));
}

#[test]
fn ids_are_consecutive() {
    let mut c = ReputationLeaseContract::new();
    let mut expected: u64 = 1;
    while expected <= 5 {
        let id = c.create_lease(s("car"), s("o"), s("l"), 0, 10, 7);
        assert_eq!(id, expected);
        expected += 1;
    }
    assert_eq!(c.return_asset(2, false), Ok(()));
    assert_eq!(c.raise_dispute(3, s("o"), s("scratched")), Ok(()));
    assert_eq!(c.resolve_dispute(3, true), Ok(()));
    assert_eq!(c.create_lease(s("van"), s("o"), s("l"), 0, 10, 7), 6);
}

#[test]
fn created_lease_fields() {
    let mut c = ReputationLeaseContract::new();
    let id = c.create_lease(s("drill"), s("ann"), s("ann"), 0, 250, 40);
    let lease = c.view_lease(id).unwrap();
    assert_eq!(
        lease,
        Lease {
            lease_id: 1,
            asset_name: s("drill"),
            owner: s("ann"),
            lessee: s("ann"),
            amount_paid: 0,
            lease_start: 40,
            lease_end: 290,
            is_returned: false,
            is_active: true,
            dispute: false,
        }
    );
    assert_eq!(lease.lease_end - lease.lease_start, 250);
}

#[test]
fn zero_duration_lease() {
    let mut c = ReputationLeaseContract::new();
    let id = c.create_lease(s("pen"), s("a"), s("b"), 1, 0, 99);
    let lease = c.view_lease(id).unwrap();
    assert_eq!(lease.lease_start, 99);
    assert_eq!(lease.lease_end, 99);
}

#[test]
fn largest_end_time() {
    let mut c = ReputationLeaseContract::new();
    let id = c.create_lease(s("pen"), s("a"), s("b"), 1, 10, u64::MAX - 10);
    assert_eq!(c.view_lease(id).unwrap().lease_end, u64::MAX);
}

#[test]
fn second_return_is_invalid() {
    let mut c = ledger_with_one_lease();
    assert_eq!(c.return_asset(1, true), Ok(()));
    assert_eq!(c.return_asset(1, true), Err(LeaseError::InvalidState));
    assert_eq!(c.return_asset(1, false), Err(LeaseError::InvalidState));
    assert_eq!(c.view_reputation(s("bob")), rep(1, 1, 0, 0, 10));
    let lease = c.view_lease(1).unwrap();
    assert!(lease.is_returned);
    assert!(!lease.is_active);
}

#[test]
fn return_of_missing_lease() {
    let mut c = ledger_with_one_lease();
    assert_eq!(c.return_asset(0, true), Err(LeaseError::NotFound));
    assert_eq!(c.return_asset(2, true), Err(LeaseError::NotFound));
    assert_eq!(c.view_reputation(s("bob")), rep(0, 0, 0, 0, 0));
}

#[test]
fn late_returns_floor_trust_at_zero() {
    let mut c = ReputationLeaseContract::new();
    let mut n: u64 = 0;
    while n < 4 {
        c.create_lease(s("boat"), s("own"), s("lee"), 5, 100, 0);
        n += 1;
    }
    assert_eq!(c.return_asset(1, true), Ok(()));
    assert_eq!(c.view_reputation(s("lee")).trust_score, 10);
    assert_eq!(c.return_asset(2, false), Ok(()));
    assert_eq!(c.view_reputation(s("lee")), rep(2, 1, 1, 0, 5));
    assert_eq!(c.return_asset(3, false), Ok(()));
    assert_eq!(c.view_reputation(s("lee")), rep(3, 1, 2, 0, 0));
    assert_eq!(c.return_asset(4, false), Ok(()));
    assert_eq!(c.view_reputation(s("lee")), rep(4, 1, 3, 0, 0));
}

#[test]
fn late_return_from_three_leaves_zero() {
    let start = rep(2, 1, 1, 0, 3);
    assert_eq!(start.record_return(false), rep(3, 1, 2, 0, 0));
    assert_eq!(rep(0, 0, 0, 0, 7).record_return(false).trust_score, 2);
    assert_eq!(rep(0, 0, 0, 0, 5).record_return(false).trust_score, 0);
}

#[test]
fn on_time_return_record() {
    let start = rep(3, 1, 2, 4, 5);
    assert_eq!(start.record_return(true), rep(4, 2, 2, 4, 15));
    assert_eq!(start.record_dispute(), rep(3, 1, 2, 5, 5));
    assert_eq!(Reputation::zero(), rep(0, 0, 0, 0, 0));
}

#[test]
fn dispute_on_missing_lease() {
    let mut c = ledger_with_one_lease();
    assert_eq!(c.raise_dispute(9, s("carol"), s("why")), Err(LeaseError::NotFound));
    assert_eq!(c.view_reputation(s("carol")), rep(0, 0, 0, 0, 0));
    assert_eq!(c.view_dispute(9), Err(LeaseError::NotFound));
}

#[test]
fn dispute_twice_is_invalid() {
    let mut c = ledger_with_one_lease();
    assert_eq!(c.raise_dispute(1, s("alice"), s("damaged")), Ok(()));
    assert_eq!(c.raise_dispute(1, s("bob"), s("not damaged")), Err(LeaseError::InvalidState));
    let lease = c.view_lease(1).unwrap();
    assert!(lease.is_active);
    assert!(lease.dispute);
    assert_eq!(
        c.view_dispute(1),
        Ok(Dispute {
            lease_id: 1,
            raised_by: s("alice"),
            reason: s("damaged"),
            resolved: false,
            valid: false,
        })
    );
    assert_eq!(c.view_reputation(s("alice")), rep(0, 0, 0, 1, 0));
    assert_eq!(c.view_reputation(s("bob")), rep(0, 0, 0, 0, 0));
}

#[test]
fn dispute_after_return_is_invalid() {
    let mut c = ledger_with_one_lease();
    assert_eq!(c.return_asset(1, true), Ok(()));
    assert_eq!(c.raise_dispute(1, s("alice"), s("late")), Err(LeaseError::InvalidState));
    assert_eq!(c.view_dispute(1), Err(LeaseError::NotFound));
}

#[test]
fn return_while_disputed_is_allowed() {
    let mut c = ledger_with_one_lease();
    assert_eq!(c.raise_dispute(1, s("alice"), s("damaged")), Ok(()));
    assert_eq!(c.return_asset(1, false), Ok(()));
    let lease = c.view_lease(1).unwrap();
    assert!(lease.is_returned && !lease.is_active && lease.dispute);
    assert!(!c.view_dispute(1).unwrap().resolved);
    assert_eq!(c.resolve_dispute(1, true), Ok(()));
    assert!(c.view_dispute(1).unwrap().valid);
}

#[test]
fn resolve_without_dispute() {
    let mut c = ledger_with_one_lease();
    assert_eq!(c.resolve_dispute(1, true), Err(LeaseError::NotFound));
    assert_eq!(c.resolve_dispute(2, false), Err(LeaseError::NotFound));
    assert!(c.view_lease(1).unwrap().is_active);
}

#[test]
fn resolve_twice_is_invalid() {
    let mut c = ledger_with_one_lease();
    assert_eq!(c.raise_dispute(1, s("bob"), s("broken on delivery")), Ok(()));
    assert_eq!(c.resolve_dispute(1, false), Ok(()));
    assert_eq!(c.resolve_dispute(1, true), Err(LeaseError::InvalidState));
    assert!(!c.view_dispute(1).unwrap().valid);
}

#[test]
fn resolution_closes_lease_either_way() {
    let mut c = ReputationLeaseContract::new();
    c.create_lease(s("a"), s("o"), s("l"), 1, 1, 1);
    c.create_lease(s("b"), s("o"), s("l"), 1, 1, 1);
    assert_eq!(c.raise_dispute(1, s("o"), s("r")), Ok(()));
    assert_eq!(c.raise_dispute(2, s("o"), s("r")), Ok(()));
    assert_eq!(c.resolve_dispute(1, true), Ok(()));
    assert_eq!(c.resolve_dispute(2, false), Ok(()));
    let first = c.view_dispute(1).unwrap();
    let second = c.view_dispute(2).unwrap();
    assert!(first.resolved && first.valid);
    assert!(second.resolved && !second.valid);
    assert!(!c.view_lease(1).unwrap().is_active);
    assert!(!c.view_lease(2).unwrap().is_active);
    assert!(!c.view_lease(1).unwrap().is_returned);
    assert_eq!(c.return_asset(1, true), Err(LeaseError::InvalidState));
    assert_eq!(c.view_reputation(s("l")), rep(0, 0, 0, 0, 0));
    assert_eq!(c.view_reputation(s("o")), rep(0, 0, 0, 2, 0));
}

#[test]
fn unknown_handle_has_zero_reputation() {
    let c = ReputationLeaseContract::new();
    assert_eq!(c.view_reputation(s("nobody")), rep(0, 0, 0, 0, 0));
    assert_eq!(c.view_reputation(s("")), rep(0, 0, 0, 0, 0));
    assert_eq!(c.view_lease(1), Err(LeaseError::NotFound));
}

#[test]
fn totals_stay_balanced() {
    let mut c = ReputationLeaseContract::new();
    let users = ["ann", "ben", "cy"];
    let mut i: usize = 0;
    while i < 12 {
        let id = c.create_lease(s("x"), s("own"), s(users[i % 3]), 1, 5, 0);
        if i % 4 == 1 {
            assert_eq!(c.raise_dispute(id, s(users[(i + 1) % 3]), s("r")), Ok(()));
        }
        if i % 4 == 2 {
            assert_eq!(c.resolve_dispute(id - 1, i % 8 == 2), Ok(()));
        }
        assert_eq!(c.return_asset(id, i % 2 == 0).is_ok(), true);
        i += 1;
    }
    for user in users {
        let r = c.view_reputation(s(user));
        assert_eq!(r.total_leases, r.successful_returns + r.failed_returns);
        assert_eq!(r.total_leases, 4);
    }
}

#[test]
fn handles_are_kept_apart() {
    let mut c = ReputationLeaseContract::new();
    c.create_lease(s("a"), s("o"), s("bob"), 1, 1, 1);
    c.create_lease(s("a"), s("o"), s("Bob"), 1, 1, 1);
    assert_eq!(c.return_asset(1, true), Ok(()));
    assert_eq!(c.return_asset(2, false), Ok(()));
    assert_eq!(c.view_reputation(s("bob")), rep(1, 1, 0, 0, 10));
    assert_eq!(c.view_reputation(s("Bob")), rep(1, 0, 1, 0, 0));
}
