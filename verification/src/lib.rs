//! Coordination over a versioned object store: a compare-and-swap update loop
//! and renewable, fenced leases.
//!
//! Every protocol is a state machine. The caller performs the store requests,
//! sleeps and clock readings that a machine asks for, and hands the replies
//! back; the decisions are made, and verified, here.

pub mod time;
pub mod store;
pub mod error;
pub mod message;
pub mod cas;
pub mod lease;
pub mod guard;
pub mod acquire;
pub mod text;
pub mod instance;
pub mod model;
pub mod world;
pub mod time_laws;
pub mod value_laws;
pub mod instance_laws;
pub mod cas_step_laws;
pub mod guard_step_laws;
pub mod acquire_step_laws;
pub mod total_laws;
pub mod cas_laws;
pub mod contention_laws;
pub mod lease_laws;
pub mod guard_laws;
pub mod renewal_laws;
