//! Properties of the ledger that relate several operations.
use vstd::prelude::*;

use crate::model::LedgerView;
use crate::records::{LeaseError, Reputation, LATE_PENALTY, ON_TIME_BONUS};

verus! {

/// Creating a lease mints the id `next_id`, which no existing lease holds,
/// and the lease created after it gets the id one higher.
pub proof fn lemma_create_mints_consecutive_ids(
    v: LedgerView,
    asset_name: String,
    owner: String,
    lessee: String,
    amount_paid: u64,
    duration: u64,
    now: u64,
)
    requires
        v.wf(),
        v.leases.len() < u64::MAX,
    ensures
        forall|id: u64| #[trigger] v.lease(id) is Some ==> id < v.next_id(),
        v.after_create(asset_name, owner, lessee, amount_paid, duration, now).lease(
            v.next_id() as u64,
        ) == Some(v.new_lease(asset_name, owner, lessee, amount_paid, duration, now)),
        v.new_lease(asset_name, owner, lessee, amount_paid, duration, now).lease_id
            == v.next_id(),
        v.after_create(asset_name, owner, lessee, amount_paid, duration, now).next_id()
            == v.next_id() + 1,
{
}

/// Returning, raising and resolving never change the id that the next
/// created lease receives: ids are minted by creation alone.
pub proof fn lemma_only_create_mints_ids(
    v: LedgerView,
    id: u64,
    flag: bool,
    raised_by: String,
    reason: String,
)
    ensures
        v.after_return(id, flag).next_id() == v.next_id(),
        v.after_raise(id, raised_by, reason).next_id() == v.next_id(),
        v.after_resolve(id, flag).next_id() == v.next_id(),
{
}

/// A created lease spans exactly its duration.
pub proof fn lemma_create_spans_duration(
    v: LedgerView,
    asset_name: String,
    owner: String,
    lessee: String,
    amount_paid: u64,
    duration: u64,
    now: u64,
)
    requires
        v.wf(),
        v.leases.len() < u64::MAX,
        now + duration <= u64::MAX,
    ensures
        ({
            let l = v.after_create(asset_name, owner, lessee, amount_paid, duration, now).lease(
                v.next_id() as u64,
            ).unwrap();
            l.lease_end - l.lease_start == duration
        }),
{
}

/// A freshly created lease can be returned once; a second return is refused
/// with `InvalidState`.
pub proof fn lemma_return_succeeds_once(
    v: LedgerView,
    asset_name: String,
    owner: String,
    lessee: String,
    amount_paid: u64,
    duration: u64,
    now: u64,
    first_on_time: bool,
)
    requires
        v.wf(),
        v.leases.len() < u64::MAX,
    ensures
        ({
            let created = v.after_create(asset_name, owner, lessee, amount_paid, duration, now);
            let id = v.next_id() as u64;
            &&& created.check_return(id) == Ok::<(), LeaseError>(())
            &&& created.after_return(id, first_on_time).check_return(id) == Err::<(), LeaseError>(
                LeaseError::InvalidState,
            )
        }),
{
}

/// An on-time return adds one lease and one success to the lessee's record
/// and raises the trust score by the bonus; failures stay as they were.
pub proof fn lemma_on_time_return(v: LedgerView, id: u64)
    requires
        v.wf(),
        v.check_return(id) is Ok,
        v.return_fits(id, true),
    ensures
        ({
            let user = v.lease(id).unwrap().lessee@;
            let before = v.reputation(user);
            let after = v.after_return(id, true).reputation(user);
            &&& after.total_leases == before.total_leases + 1
            &&& after.successful_returns == before.successful_returns + 1
            &&& after.trust_score == before.trust_score + ON_TIME_BONUS
            &&& after.failed_returns == before.failed_returns
        }),
{
}

/// A late return adds one lease and one failure to the lessee's record and
/// lowers the trust score by the penalty, but never below zero.
pub proof fn lemma_late_return(v: LedgerView, id: u64)
    requires
        v.wf(),
        v.check_return(id) is Ok,
        v.return_fits(id, false),
    ensures
        ({
            let user = v.lease(id).unwrap().lessee@;
            let before = v.reputation(user);
            let after = v.after_return(id, false).reputation(user);
            &&& after.total_leases == before.total_leases + 1
            &&& after.failed_returns == before.failed_returns + 1
            &&& after.successful_returns == before.successful_returns
            &&& before.trust_score >= LATE_PENALTY ==> after.trust_score == before.trust_score
                - LATE_PENALTY
            &&& before.trust_score < LATE_PENALTY ==> after.trust_score == 0
        }),
{
}

/// A dispute against a missing lease is refused with `NotFound`; against an
/// active lease that is already disputed, with `InvalidState`, in particular
/// right after a dispute was raised against it.
pub proof fn lemma_raise_refusals(v: LedgerView, id: u64, raised_by: String, reason: String)
    requires
        v.wf(),
    ensures
        v.lease(id) is None ==> v.check_raise(id) == Err::<(), LeaseError>(LeaseError::NotFound),
        v.lease(id) is Some && v.lease(id).unwrap().dispute ==> v.check_raise(id) == Err::<
            (),
            LeaseError,
        >(LeaseError::InvalidState),
        v.check_raise(id) is Ok ==> v.after_raise(id, raised_by, reason).check_raise(id) == Err::<
            (),
            LeaseError,
        >(LeaseError::InvalidState),
{
}

/// Resolving without a dispute is refused with `NotFound`, in particular on a
/// freshly created lease; resolving a dispute a second time is refused with
/// `InvalidState`.
pub proof fn lemma_resolve_refusals(
    v: LedgerView,
    id: u64,
    first_valid: bool,
    asset_name: String,
    owner: String,
    lessee: String,
    amount_paid: u64,
    duration: u64,
    now: u64,
)
    requires
        v.wf(),
        v.leases.len() < u64::MAX,
    ensures
        v.dispute(id) is None ==> v.check_resolve(id) == Err::<(), LeaseError>(
            LeaseError::NotFound,
        ),
        v.after_create(asset_name, owner, lessee, amount_paid, duration, now).check_resolve(
            v.next_id() as u64,
        ) == Err::<(), LeaseError>(LeaseError::NotFound),
        v.check_resolve(id) is Ok ==> v.after_resolve(id, first_valid).check_resolve(id) == Err::<
            (),
            LeaseError,
        >(LeaseError::InvalidState),
{
    let nid = v.next_id() as u64;
    if v.disputes.contains_key(nid) {
        assert(v.lease(nid) is Some);
    }
}

/// Whatever the verdict, resolving a dispute leaves its lease inactive and
/// the dispute resolved with exactly that verdict.
pub proof fn lemma_resolve_closes_lease(v: LedgerView, id: u64, valid: bool)
    requires
        v.wf(),
        v.check_resolve(id) is Ok,
    ensures
        !v.after_resolve(id, valid).lease(id).unwrap().is_active,
        v.after_resolve(id, valid).dispute(id).unwrap().resolved,
        v.after_resolve(id, valid).dispute(id).unwrap().valid == valid,
{
}

/// A handle without history has the all-zero reputation; in an empty ledger
/// that is every handle.
pub proof fn lemma_no_history_is_zero(v: LedgerView, user: Seq<char>)
    requires
        !v.reputations.contains_key(user),
    ensures
        v.reputation(user) == Reputation::zero_spec(),
        LedgerView::empty().reputation(user) == Reputation::zero_spec(),
{
}

} // verus!
