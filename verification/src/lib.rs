//! A token ledger with staking and an agent registry, a dispute engine
//! that settles grievances by vote, and a small service registry.
//!
//! Every operation takes the caller's identity, and the current time where
//! it needs one, as an explicit argument, and either applies one atomic
//! change to the state or fails and leaves the state as it was.
//!
//! - `ledger` and `dispute_resolution` hold the two state machines, each
//!   with its mathematical model; `ledger_laws` and `dispute_laws` hold what
//!   is proved of the models.
//! - `tables` holds the storage tables, the one part that is trusted rather
//!   than proved; `amounts` holds the mathematics of tables of amounts.
//! - `service` holds the service registry.
pub mod account;
pub mod amounts;
pub mod dispute_laws;
pub mod dispute_resolution;
pub mod error;
pub mod ledger;
pub mod ledger_laws;
pub mod service;
pub mod tables;

pub use account::AccountId;
pub use dispute_resolution::{Dispute, DisputeResolution, DisputeStatus};
pub use error::Error;
pub use ledger::{Agent, GaiaChain};
