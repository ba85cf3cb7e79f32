//! A ledger of leased assets: leases, disputes raised against them, and the
//! reputation that each lessee earns by returning assets on time.

pub mod model;
pub mod records;
pub mod ledger;
pub mod laws;

pub use records::{Dispute, DisputeBook, Lease, LeaseBook, LeaseError, Reputation};
pub use ledger::ReputationLeaseContract;
pub use model::LedgerView;
