//! Account registration core: username uniqueness, salted password
//! hashing, best-effort geolocation enrichment, and persistence of the
//! finished account record.
//!
//! The library holds the decision logic of registration. Network and
//! database transports live outside it and hand the library plain
//! values: the count returned by the store's uniqueness query, the text
//! body returned by the geolocation provider, the success or failure of
//! the insert.

pub mod account;
pub mod geo;
pub mod orchestrator;
pub mod password;
pub mod store;

use vstd::prelude::*;

verus! {

/// The caller-visible result of one registration attempt.
///
/// Failures below the orchestrator never leak detail: a hashing
/// failure, a storage fault and a lost race all surface as
/// `InternalError`.
#[derive(Clone, Copy, Debug, PartialEq, Eq, Structural)]
pub enum RegistrationOutcome {
    Success,
    DuplicateUsername,
    InternalError,
}

} // verus!
