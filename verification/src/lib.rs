//! Temporal grant lifecycle manager: admission evaluation for time-bounded
//! role grants, durable grant bookkeeping with a uniqueness invariant, and
//! the decision logic of a background expiry waiter that wakes exactly when
//! the earliest active grant falls due.

pub mod admission;
pub mod config;
pub mod grant;
pub mod respond;
pub mod store;
pub mod unwrap_ext;
pub mod waiter;
