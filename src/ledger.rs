use vstd::prelude::*;

use crate::model::LedgerView;
use crate::records::{Dispute, DisputeBook, Lease, LeaseBook, LeaseError, Reputation};

verus! {

/// The disputes of a table with one optional slot per lease, keyed by lease id.
spec fn dispute_table(slots: Seq<Option<Dispute>>) -> Map<u64, Dispute> {
    Map::new(
        |id: u64| 1 <= id && id <= slots.len() && slots[id - 1] is Some,
        |id: u64| slots[id - 1].unwrap(),
    )
}

/// The reputations of parallel tables of handles and records.
spec fn reputation_table(users: Seq<String>, reps: Seq<Reputation>) -> Map<
    Seq<char>,
    Reputation,
> {
    Map::new(
        |u: Seq<char>| exists|i: int| 0 <= i < users.len() && #[trigger] users[i]@ == u,
        |u: Seq<char>| reps[choose|i: int| 0 <= i < users.len() && #[trigger] users[i]@ == u],
    )
}

/// No handle occurs twice.
spec fn distinct_users(users: Seq<String>) -> bool {
    forall|i: int, j: int|
        0 <= i < users.len() && 0 <= j < users.len() && i != j ==> users[i]@ != users[j]@
}

proof fn lemma_table_lookup(users: Seq<String>, reps: Seq<Reputation>, i: int)
    requires
        distinct_users(users),
        users.len() == reps.len(),
        0 <= i < users.len(),
    ensures
        reputation_table(users, reps).contains_key(users[i]@),
        reputation_table(users, reps)[users[i]@] == reps[i],
{
    let u = users[i]@;
    assert(users[i]@ == u);
    let j = choose|j: int| 0 <= j < users.len() && #[trigger] users[j]@ == u;
    assert(j == i);
}

proof fn lemma_table_update(users: Seq<String>, reps: Seq<Reputation>, i: int, r: Reputation)
    requires
        distinct_users(users),
        users.len() == reps.len(),
        0 <= i < users.len(),
    ensures
        reputation_table(users, reps.update(i, r)) == reputation_table(users, reps).insert(
            users[i]@,
            r,
        ),
{
    let reps2 = reps.update(i, r);
    let t1 = reputation_table(users, reps2);
    let t0 = reputation_table(users, reps).insert(users[i]@, r);
    assert forall|u: Seq<char>| #[trigger] t1.contains_key(u) == t0.contains_key(u) by {
        if t0.contains_key(u) && u != users[i]@ {
            let j = choose|j: int| 0 <= j < users.len() && #[trigger] users[j]@ == u;
            assert(users[j]@ == u);
        }
        if u == users[i]@ {
            assert(users[i]@ == u);
        }
    }
    assert forall|u: Seq<char>| #[trigger] t1.contains_key(u) implies t1[u] == t0[u] by {
        let j = choose|j: int| 0 <= j < users.len() && #[trigger] users[j]@ == u;
        lemma_table_lookup(users, reps2, j);
        lemma_table_lookup(users, reps, j);
    }
    assert(t1 =~= t0);
}

proof fn lemma_table_push(users: Seq<String>, reps: Seq<Reputation>, user: String, r: Reputation)
    requires
        distinct_users(users),
        users.len() == reps.len(),
        forall|i: int| 0 <= i < users.len() ==> #[trigger] users[i]@ != user@,
    ensures
        distinct_users(users.push(user)),
        reputation_table(users.push(user), reps.push(r)) == reputation_table(users, reps).insert(
            user@,
            r,
        ),
{
    let users2 = users.push(user);
    let reps2 = reps.push(r);
    assert(distinct_users(users2)) by {
        assert forall|i: int, j: int|
            0 <= i < users2.len() && 0 <= j < users2.len() && i != j implies users2[i]@
            != users2[j]@ by {
            if i < users.len() && j < users.len() {
                assert(users2[i] == users[i] && users2[j] == users[j]);
            } else if i < users.len() {
                assert(users2[i] == users[i]);
            } else {
                assert(users2[j] == users[j]);
            }
        }
    }
    let t1 = reputation_table(users2, reps2);
    let t0 = reputation_table(users, reps).insert(user@, r);
    assert forall|u: Seq<char>| #[trigger] t1.contains_key(u) == t0.contains_key(u) by {
        if t1.contains_key(u) && u != user@ {
            let j = choose|j: int| 0 <= j < users2.len() && #[trigger] users2[j]@ == u;
            assert(j < users.len());
            assert(users[j]@ == u);
        }
        if t0.contains_key(u) && u != user@ {
            let j = choose|j: int| 0 <= j < users.len() && #[trigger] users[j]@ == u;
            assert(users2[j]@ == u);
        }
        if u == user@ {
            assert(users2[users.len() as int]@ == u);
        }
    }
    assert forall|u: Seq<char>| #[trigger] t1.contains_key(u) implies t1[u] == t0[u] by {
        let j = choose|j: int| 0 <= j < users2.len() && #[trigger] users2[j]@ == u;
        lemma_table_lookup(users2, reps2, j);
        if j < users.len() {
            assert(users2[j] == users[j]);
            lemma_table_lookup(users, reps, j);
        }
    }
    assert(t1 =~= t0);
}

/// The lease ledger: leases, the disputes raised against them, and the
/// reputations of the handles involved.
pub struct ReputationLeaseContract {
    /// Number of leases issued so far; the last lease issued has this id.
    issued: u64,
    leases: Vec<Lease>,
    /// One slot per lease, holding the dispute raised against it if any.
    disputes: Vec<Option<Dispute>>,
    users: Vec<String>,
    /// The reputation of `users[i]` is `reputations[i]`.
    reputations: Vec<Reputation>,
}

impl View for ReputationLeaseContract {
    type V = LedgerView;

    closed spec fn view(&self) -> LedgerView {
        LedgerView {
            leases: self.leases@,
            disputes: dispute_table(self.disputes@),
            reputations: reputation_table(self.users@, self.reputations@),
        }
    }
}

impl ReputationLeaseContract {
    /// The tables agree with one another, handles are recorded once, and the
    /// abstract ledger satisfies its invariants.
    pub closed spec fn wf(&self) -> bool {
        &&& self@.wf()
        &&& self.issued == self.leases.len()
        &&& self.disputes.len() == self.leases.len()
        &&& self.users.len() == self.reputations.len()
        &&& distinct_users(self.users@)
    }

    /// Every operation keeps the ledger well formed, so in every reachable
    /// ledger each handle's returns split into successes and failures:
    /// `total_leases == successful_returns + failed_returns`.
    pub proof fn lemma_reputations_balanced(&self, user: Seq<char>)
        requires
            self.wf(),
        ensures
            self@.reputation(user).total_leases == self@.reputation(user).successful_returns
                + self@.reputation(user).failed_returns,
    {
    }

    /// An empty ledger.
    pub fn new() -> (r: Self)
        ensures
            r.wf(),
            r@ == LedgerView::empty(),
    {
        let r = ReputationLeaseContract {
            issued: 0,
            leases: Vec::new(),
            disputes: Vec::new(),
            users: Vec::new(),
            reputations: Vec::new(),
        };
        assert(r@.disputes =~= Map::empty());
        assert(r@.reputations =~= Map::empty());
        assert(r@ =~= LedgerView::empty());
        r
    }

    /// Position of the lease stored under `key`, if there is one.
    fn lease_slot(&self, key: LeaseBook) -> (r: Option<usize>)
        requires
            self.wf(),
        ensures
            match key {
                LeaseBook::Lease(id) => match r {
                    Some(i) => self@.lease(id) is Some && i == id - 1,
                    None => self@.lease(id) is None,
                },
            },
    {
        match key {
            LeaseBook::Lease(id) => {
                if id == 0 || id > self.issued {
                    None
                } else {
                    Some((id - 1) as usize)
                }
            },
        }
    }

    /// Position of the dispute stored under `key`, if there is one.
    fn dispute_slot(&self, key: DisputeBook) -> (r: Option<usize>)
        requires
            self.wf(),
        ensures
            match key {
                DisputeBook::Dispute(id) => match r {
                    Some(i) => {
                        &&& self@.dispute(id) is Some
                        &&& i == id - 1
                        &&& i < self.disputes.len()
                        &&& self.disputes@[i as int] == Some(self@.dispute(id).unwrap())
                    },
                    None => self@.dispute(id) is None,
                },
            },
    {
        match key {
            DisputeBook::Dispute(id) => {
                if id == 0 || id > self.issued {
                    None
                } else {
                    let i = (id - 1) as usize;
                    if self.disputes[i].is_some() {
                        Some(i)
                    } else {
                        None
                    }
                }
            },
        }
    }

    /// Position of `user` in the reputation table, if it has a record.
    fn find_user(&self, user: &String) -> (r: Option<usize>)
        requires
            self.wf(),
        ensures
            match r {
                Some(i) => i < self.users.len() && self.users@[i as int]@ == user@,
                None => forall|i: int|
                    0 <= i < self.users.len() ==> #[trigger] self.users@[i]@ != user@,
            },
    {
        let mut i: usize = 0;
        while i < self.users.len()
            invariant
                i <= self.users.len(),
                forall|k: int| 0 <= k < i ==> #[trigger] self.users@[k]@ != user@,
            decreases self.users.len() - i,
        {
            if self.users[i].eq(user) {
                return Some(i);
            }
            i = i + 1;
        }
        None
    }

    /// Position of `user`'s reputation record, adding an all-zero record
    /// first when the handle has none. The reputation it reads is unchanged.
    fn reputation_slot(&mut self, user: &String) -> (r: usize)
        requires
            old(self).wf(),
        ensures
            final(self).wf(),
            r < final(self).users.len(),
            final(self).users@[r as int]@ == user@,
            final(self).reputations@[r as int] == old(self)@.reputation(user@),
            final(self).issued == old(self).issued,
            final(self).leases == old(self).leases,
            final(self).disputes == old(self).disputes,
            final(self)@.reputations == old(self)@.reputations.insert(
                user@,
                old(self)@.reputation(user@),
            ),
    {
        match self.find_user(user) {
            Some(i) => {
                proof {
                    lemma_table_lookup(self.users@, self.reputations@, i as int);
                    assert(self@.reputations =~= self@.reputations.insert(
                        user@,
                        self@.reputation(user@),
                    ));
                }
                i
            },
            None => {
                let ghost pre = self@;
                proof {
                    assert(!pre.reputations.contains_key(user@)) by {
                        if pre.reputations.contains_key(user@) {
                            let j = choose|j: int|
                                0 <= j < self.users.len() && #[trigger] self.users@[j]@ == user@;
                            assert(self.users@[j]@ != user@);
                        }
                    }
                    lemma_table_push(self.users@, self.reputations@, *user, Reputation::zero_spec());
                }
                let i = self.users.len();
                self.users.push(user.clone());
                self.reputations.push(Reputation::zero());
                proof {
                    assert(self.users@ == old(self).users@.push(*user));
                    assert(self@.leases == pre.leases);
                    assert(self@.disputes == pre.disputes);
                    assert forall|u: Seq<char>| #[trigger] self@.reputations.contains_key(u) implies self@.reputations[u].is_balanced() by {
                        if u != user@ {
                            assert(pre.reputations.contains_key(u));
                        }
                    }
                }
                i
            },
        }
    }

    /// Stores `rep` in reputation slot `i`.
    fn store_reputation(&mut self, i: usize, rep: Reputation)
        requires
            old(self).wf(),
            i < old(self).users.len(),
            rep.is_balanced(),
        ensures
            final(self).wf(),
            final(self).issued == old(self).issued,
            final(self).leases == old(self).leases,
            final(self).disputes == old(self).disputes,
            final(self).users == old(self).users,
            final(self)@.reputations == old(self)@.reputations.insert(old(self).users@[i as int]@, rep),
    {
        proof {
            lemma_table_update(self.users@, self.reputations@, i as int, rep);
        }
        let ghost pre = self@;
        self.reputations.set(i, rep);
        proof {
            assert forall|u: Seq<char>| #[trigger] self@.reputations.contains_key(u) implies self@.reputations[u].is_balanced() by {
                if u != self.users@[i as int]@ {
                    assert(pre.reputations.contains_key(u));
                }
            }
            assert(self@.leases == pre.leases);
            assert(self@.disputes == pre.disputes);
        }
    }

    /// Returns the asset of lease `lease_id`. The lease becomes returned and
    /// inactive, and its lessee's reputation counts the return: on time, one
    /// more success and a trust bonus; late, one more failure and a penalty
    /// that never takes the trust score below zero.
    ///
    /// Refused with `NotFound` when no such lease exists, and with
    /// `InvalidState` when it is inactive or already returned; nothing is
    /// changed then.
    pub fn return_asset(&mut self, lease_id: u64, on_time: bool) -> (r: Result<(), LeaseError>)
        requires
            old(self).wf(),
            old(self)@.return_fits(lease_id, on_time),
        ensures
            final(self).wf(),
            r == old(self)@.check_return(lease_id),
            final(self)@ == old(self)@.after_return(lease_id, on_time),
    {
        let ghost pre = self@;
        let i = match self.lease_slot(LeaseBook::Lease(lease_id)) {
            Some(i) => i,
            None => return Err(LeaseError::NotFound),
        };
        let lease = match self.leases[i].mark_returned() {
            Ok(lease) => lease,
            Err(e) => return Err(e),
        };
        let slot = self.reputation_slot(&lease.lessee);
        let rep = self.reputations[slot].record_return(on_time);
        self.store_reputation(slot, rep);
        self.leases.set(i, lease);
        proof {
            let post = pre.after_return(lease_id, on_time);
            assert(self@.leases =~= post.leases);
            assert(self@.disputes == post.disputes);
            assert(self@.reputations =~= post.reputations);
            assert(self@ =~= post);
            assert forall|k: int| 0 <= k < self@.leases.len() implies #[trigger] self@.leases[k].lease_id
                == k + 1 by {
                if k != i {
                    assert(self@.leases[k] == pre.leases[k]);
                }
            }
            assert forall|id: u64| #[trigger] self@.disputes.contains_key(id) implies {
                &&& self@.lease(id) is Some
                &&& self@.lease(id).unwrap().dispute
                &&& self@.disputes[id].lease_id == id
            } by {
                assert(pre.disputes.contains_key(id));
            }
            assert forall|u: Seq<char>| #[trigger] self@.reputations.contains_key(u) implies self@.reputations[u].is_balanced() by {
                if u != lease.lessee@ {
                    assert(pre.reputations.contains_key(u));
                }
            }
        }
        Ok(())
    }

    /// Raises a dispute by `raised_by` against lease `lease_id`. The lease
    /// stays active but is marked disputed, an unresolved dispute is recorded
    /// for it, and the raiser's count of disputes grows by one.
    ///
    /// Refused with `NotFound` when no such lease exists, and with
    /// `InvalidState` when it is inactive or already disputed; nothing is
    /// changed then.
    pub fn raise_dispute(&mut self, lease_id: u64, raised_by: String, reason: String) -> (r: Result<
        (),
        LeaseError,
    >)
        requires
            old(self).wf(),
            old(self)@.reputation(raised_by@).disputes_raised < u64::MAX,
        ensures
            final(self).wf(),
            r == old(self)@.check_raise(lease_id),
            final(self)@ == old(self)@.after_raise(lease_id, raised_by, reason),
    {
        let ghost pre = self@;
        let i = match self.lease_slot(LeaseBook::Lease(lease_id)) {
            Some(i) => i,
            None => return Err(LeaseError::NotFound),
        };
        let lease = match self.leases[i].mark_disputed() {
            Ok(lease) => lease,
            Err(e) => return Err(e),
        };
        let slot = self.reputation_slot(&raised_by);
        let rep = self.reputations[slot].record_dispute();
        self.store_reputation(slot, rep);
        let ghost raiser = raised_by;
        let dispute = Dispute::raise(lease_id, raised_by, reason);
        self.leases.set(i, lease);
        self.disputes.set(i, Some(dispute));
        proof {
            let post = pre.after_raise(lease_id, raiser, reason);
            assert(self@.leases =~= post.leases);
            assert(self@.disputes =~= post.disputes);
            assert(self@.reputations =~= post.reputations);
            assert(self@ =~= post);
            assert forall|k: int| 0 <= k < self@.leases.len() implies #[trigger] self@.leases[k].lease_id
                == k + 1 by {
                if k != i {
                    assert(self@.leases[k] == pre.leases[k]);
                }
            }
            assert forall|id: u64| #[trigger] self@.disputes.contains_key(id) implies {
                &&& self@.lease(id) is Some
                &&& self@.lease(id).unwrap().dispute
                &&& self@.disputes[id].lease_id == id
            } by {
                if id != lease_id {
                    assert(pre.disputes.contains_key(id));
                }
            }
            assert forall|u: Seq<char>| #[trigger] self@.reputations.contains_key(u) implies self@.reputations[u].is_balanced() by {
                if u != raiser@ {
                    assert(pre.reputations.contains_key(u));
                }
            }
        }
        Ok(())
    }

    /// Resolves the dispute on lease `lease_id` with the verdict `valid`: the
    /// dispute becomes resolved and records the verdict, and the lease becomes
    /// inactive whatever the verdict. Reputations are not touched.
    ///
    /// Refused with `NotFound` when the lease has no dispute or does not
    /// exist, and with `InvalidState` when the dispute is already resolved;
    /// nothing is changed then.
    pub fn resolve_dispute(&mut self, lease_id: u64, valid: bool) -> (r: Result<(), LeaseError>)
        requires
            old(self).wf(),
        ensures
            final(self).wf(),
            r == old(self)@.check_resolve(lease_id),
            final(self)@ == old(self)@.after_resolve(lease_id, valid),
    {
        let ghost pre = self@;
        let d = match self.dispute_slot(DisputeBook::Dispute(lease_id)) {
            Some(d) => d,
            None => return Err(LeaseError::NotFound),
        };
        let i = match self.lease_slot(LeaseBook::Lease(lease_id)) {
            Some(i) => i,
            None => return Err(LeaseError::NotFound),
        };
        let dispute = match &self.disputes[d] {
            Some(found) => match found.resolve(valid) {
                Ok(dispute) => dispute,
                Err(e) => return Err(e),
            },
            None => return Err(LeaseError::NotFound),
        };
        let lease = self.leases[i].mark_closed();
        self.disputes.set(d, Some(dispute));
        self.leases.set(i, lease);
        proof {
            let post = pre.after_resolve(lease_id, valid);
            assert(self@.leases =~= post.leases);
            assert(self@.disputes =~= post.disputes);
            assert(self@ =~= post);
            assert forall|k: int| 0 <= k < self@.leases.len() implies #[trigger] self@.leases[k].lease_id
                == k + 1 by {
                if k != i {
                    assert(self@.leases[k] == pre.leases[k]);
                }
            }
            assert forall|id: u64| #[trigger] self@.disputes.contains_key(id) implies {
                &&& self@.lease(id) is Some
                &&& self@.lease(id).unwrap().dispute
                &&& self@.disputes[id].lease_id == id
            } by {
                assert(pre.disputes.contains_key(id));
            }
            assert forall|u: Seq<char>| #[trigger] self@.reputations.contains_key(u) implies self@.reputations[u].is_balanced() by {
                assert(pre.reputations.contains_key(u));
            }
        }
        Ok(())
    }

    /// A copy of lease `lease_id`, or `NotFound`.
    pub fn view_lease(&self, lease_id: u64) -> (r: Result<Lease, LeaseError>)
        requires
            self.wf(),
        ensures
            r == match self@.lease(lease_id) {
                Some(l) => Ok(l),
                None => Err(LeaseError::NotFound),
            },
    {
        match self.lease_slot(LeaseBook::Lease(lease_id)) {
            Some(i) => Ok(self.leases[i].duplicate()),
            None => Err(LeaseError::NotFound),
        }
    }

    /// A copy of the dispute raised against lease `lease_id`, or `NotFound`.
    pub fn view_dispute(&self, lease_id: u64) -> (r: Result<Dispute, LeaseError>)
        requires
            self.wf(),
        ensures
            r == match self@.dispute(lease_id) {
                Some(d) => Ok(d),
                None => Err(LeaseError::NotFound),
            },
    {
        match self.dispute_slot(DisputeBook::Dispute(lease_id)) {
            Some(i) => match &self.disputes[i] {
                Some(d) => Ok(d.duplicate()),
                None => Err(LeaseError::NotFound),
            },
            None => Err(LeaseError::NotFound),
        }
    }

    /// The reputation of `user`; all zero for a handle without history.
    pub fn view_reputation(&self, user: String) -> (r: Reputation)
        requires
            self.wf(),
        ensures
            r == self@.reputation(user@),
    {
        match self.find_user(&user) {
            Some(i) => {
                proof {
                    lemma_table_lookup(self.users@, self.reputations@, i as int);
                }
                self.reputations[i]
            },
            None => {
                proof {
                    if self@.reputations.contains_key(user@) {
                        let j = choose|j: int|
                            0 <= j < self.users.len() && #[trigger] self.users@[j]@ == user@;
                        assert(self.users@[j]@ != user@);
                    }
                }
                Reputation::zero()
            },
        }
    }

    /// Creates a lease for `lessee` that starts at `now` and runs for
    /// `duration_secs`, and returns its id: one more than the last id issued.
    pub fn create_lease(
        &mut self,
        asset_name: String,
        owner: String,
        lessee: String,
        amount_paid: u64,
        duration_secs: u64,
        now: u64,
    ) -> (r: u64)
        requires
            old(self).wf(),
            old(self)@.leases.len() < u64::MAX,
            now + duration_secs <= u64::MAX,
        ensures
            final(self).wf(),
            r == old(self)@.next_id(),
            final(self)@ == old(self)@.after_create(
                asset_name,
                owner,
                lessee,
                amount_paid,
                duration_secs,
                now,
            ),
    {
        let ghost pre = self@;
        let lease_id = self.issued + 1;
        let lease = Lease::open(lease_id, asset_name, owner, lessee, amount_paid, duration_secs, now);
        self.leases.push(lease);
        self.disputes.push(None);
        self.issued = lease_id;
        proof {
            assert(self@.disputes =~= pre.disputes);
            assert(self@ =~= pre.after_create(
                asset_name,
                owner,
                lessee,
                amount_paid,
                duration_secs,
                now,
            ));
            assert forall|i: int| 0 <= i < self@.leases.len() implies #[trigger] self@.leases[i].lease_id
                == i + 1 by {
                if i < pre.leases.len() {
                    assert(self@.leases[i] == pre.leases[i]);
                }
            }
        }
        lease_id
    }
}

} // verus!
