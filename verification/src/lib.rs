//! A named-mutex service core: an in-memory table of held locks keyed by a
//! client-chosen name, together with the acquisition protocol (try, then wait
//! until a deadline) and the expiry sweep that ages and evicts held locks.

pub mod laws;
pub mod protocol;
pub mod table;
pub mod token;

pub use protocol::{
    acquire_grant, acquire_poll, check_status, clamp_timeout, compute_deadline,
    release_with_token, AcquireStep, LockGrant, MutexStatus, ReleaseError, DEFAULT_TIMEOUT_SECS,
};
pub use table::{LockEntry, LockTable, ReleaseOutcome};
pub use token::owner_token_for;
