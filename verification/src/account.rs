//! The data carried through a registration: the transient request, the
//! coordinates attached to a new account, and the account records
//! themselves.
//!
//! Coordinates are held as signed microdegrees (one millionth of a
//! degree), so that the library's reasoning stays on integers; the
//! transport layer converts to whatever width its storage columns use.

use vstd::prelude::*;

verus! {

/// Transient registration input. The password is plaintext and is never
/// persisted; only its salted hash reaches the store.
pub struct RegistrationRequest {
    pub username: String,
    pub password: String,
}

/// A geographic point in microdegrees: `lat_micro == 51_500_000` stands
/// for 51.5 degrees of latitude.
#[derive(Clone, Copy, Debug, PartialEq, Eq, Structural)]
pub struct Coordinates {
    pub lat_micro: i64,
    pub lon_micro: i64,
}

/// A persisted account row. `id` is store-assigned and unique;
/// `username` is unique across all accounts; `latitude` and `longitude`
/// are either both present or both absent; `real_name` and `bio` are
/// unset at registration time and belong to later profile updates.
pub struct User {
    pub id: i32,
    pub username: String,
    pub password_hash: String,
    pub latitude: Option<i64>,
    pub longitude: Option<i64>,
    pub real_name: Option<String>,
    pub bio: Option<String>,
}

impl User {
    /// The coordinate pair is never partial.
    pub open spec fn wf(self) -> bool {
        self.latitude is Some <==> self.longitude is Some
    }
}

/// An account as handed to the store for insertion: no identity yet.
pub struct NewUser {
    pub username: String,
    pub password_hash: String,
    pub latitude: Option<i64>,
    pub longitude: Option<i64>,
}

impl NewUser {
    /// The coordinate pair is never partial.
    pub open spec fn wf(self) -> bool {
        self.latitude is Some <==> self.longitude is Some
    }
}

} // verus!
