//! The registration orchestrator: the checks, fallbacks and the single
//! commit point that turn an untrusted request into a durable account.
//!
//! The steps, in order: the uniqueness check, the caller-address and
//! location fallbacks, the credential hash, the insert. The transport
//! performs the store query, the network lookup and the insert; every
//! decision between them stands here with its contract, and `register`
//! carries the whole sequence against an `AccountStore`.

use vstd::prelude::*;
use vstd::utf8::encode_utf8;

use crate::RegistrationOutcome;
use crate::account::{Coordinates, NewUser, RegistrationRequest, User};
use crate::password::{argon2_verifies, hash_password};
use crate::store::{AccountStore, has_username};

verus! {

/// The store's count-by-username query failed; the caller has no
/// count.
#[derive(Clone, Copy, Debug, PartialEq, Eq, Structural)]
pub struct QueryError;

/// A count answer that proves the username taken: the query succeeded
/// with a positive count.
pub open spec fn duplicate_count(count: Result<i64, QueryError>) -> bool {
    count matches Ok(n) && n > 0
}

/// The uniqueness decision on the store's count: a username is taken
/// exactly when the query succeeded with a positive count. A failed
/// query counts as zero matches and lets registration proceed.
pub fn is_duplicate_count(count: Result<i64, QueryError>) -> (r: bool)
    ensures
        r == duplicate_count(count),
{
    match count {
        Ok(n) => n > 0,
        Err(_) => false,
    }
}

/// The caller's network address, or the sentinel when the transport
/// knows none.
pub fn remote_addr_or_default(addr: Option<String>) -> (r: String)
    ensures
        addr matches Some(a) ==> r@ == a@,
        addr is None ==> r@ == "0.0.0.0"@,
{
    match addr {
        Some(a) => a,
        None => {
            let d = "0.0.0.0";
            d.to_owned()
        },
    }
}

/// What a lookup result stands for: the resolved point, or the
/// default pair — zero degrees by zero degrees — when the lookup came
/// back empty.
pub open spec fn resolved_coords(location: Option<Coordinates>) -> Coordinates {
    match location {
        Option::Some(c) => c,
        Option::None => Coordinates { lat_micro: 0, lon_micro: 0 },
    }
}

/// The location fallback: an unresolved lookup becomes the default
/// pair, zero degrees by zero degrees.
pub fn coords_or_default(location: Option<Coordinates>) -> (r: Coordinates)
    ensures
        r == resolved_coords(location),
        location matches Some(c) ==> r == c,
        location is None ==> r == (Coordinates { lat_micro: 0, lon_micro: 0 }),
{
    match location {
        Some(c) => c,
        None => Coordinates { lat_micro: 0, lon_micro: 0 },
    }
}

/// The record handed to the store: the username, the hash, and both
/// coordinates present.
pub fn build_new_user(username: &str, password_hash: &str, coords: Coordinates) -> (u: NewUser)
    ensures
        u.username@ == username@,
        u.password_hash@ == password_hash@,
        u.latitude == Some(coords.lat_micro),
        u.longitude == Some(coords.lon_micro),
        u.wf(),
{
    NewUser {
        username: username.to_owned(),
        password_hash: password_hash.to_owned(),
        latitude: Some(coords.lat_micro),
        longitude: Some(coords.lon_micro),
    }
}

/// The outcome reported for the insert: success acknowledges the row,
/// every insert failure is the opaque internal error.
pub fn outcome_of_insert(insert_succeeded: bool) -> (r: RegistrationOutcome)
    ensures
        insert_succeeded ==> r == RegistrationOutcome::Success,
        !insert_succeeded ==> r == RegistrationOutcome::InternalError,
{
    if insert_succeeded {
        RegistrationOutcome::Success
    } else {
        RegistrationOutcome::InternalError
    }
}

/// What a successful registration persists: the requested username, a
/// hash that verifies against the requested password, exactly the
/// resolved coordinates — or the default pair when the lookup came
/// back empty — and no profile fields yet.
pub open spec fn registered_row(
    u: User,
    username: Seq<char>,
    password: Seq<char>,
    location: Option<Coordinates>,
) -> bool {
    &&& u.username@ == username
    &&& argon2_verifies(u.password_hash@, encode_utf8(password))
    &&& u.latitude == Some(resolved_coords(location).lat_micro)
    &&& u.longitude == Some(resolved_coords(location).lon_micro)
    &&& u.real_name is None
    &&& u.bio is None
}

/// One registration against the store.
///
/// The username is checked first: a taken name is rejected before any
/// side effect, and nothing else distinguishes the outcomes. Then the
/// resolved location — already fetched by the transport, `None` on any
/// lookup failure — falls back to the default pair, the password is
/// hashed with a fresh salt, and the finished record is inserted, the
/// one mutation of the store. A hashing or insert failure surfaces as
/// the opaque internal error and leaves the store unchanged.
pub fn register(
    store: &mut AccountStore,
    request: &RegistrationRequest,
    location: Option<Coordinates>,
) -> (outcome: RegistrationOutcome)
    requires
        old(store).wf(),
    ensures
        final(store).wf(),
        has_username(old(store)@, request.username@) ==> outcome
            == RegistrationOutcome::DuplicateUsername && final(store)@ == old(store)@,
        outcome == RegistrationOutcome::DuplicateUsername ==> has_username(
            old(store)@,
            request.username@,
        ),
        (!has_username(old(store)@, request.username@)
            && encode_utf8(request.password@).len() <= 0xFFFF_FFFFu64 && old(
            store,
        ).next_id_spec() < i32::MAX) ==> outcome == RegistrationOutcome::Success,
        outcome == RegistrationOutcome::Success ==> !has_username(
            old(store)@,
            request.username@,
        ) && old(store).next_id_spec() < i32::MAX && final(store)@.len() == old(store)@.len()
            + 1 && final(store)@.subrange(0, old(store)@.len() as int) == old(store)@
            && registered_row(
            final(store)@.last(),
            request.username@,
            request.password@,
            location,
        ) && final(store)@.last().id == old(store).next_id_spec() && final(store).next_id_spec()
            == old(store).next_id_spec() + 1,
        outcome == RegistrationOutcome::Success ==> (match location {
            Option::Some(c) => final(store)@.last().latitude == Some(c.lat_micro)
                && final(store)@.last().longitude == Some(c.lon_micro),
            Option::None => final(store)@.last().latitude == Some(0i64)
                && final(store)@.last().longitude == Some(0i64),
        }),
        outcome == RegistrationOutcome::InternalError ==> final(store)@ == old(store)@,
{
    if store.contains_username(request.username.as_str()) {
        return RegistrationOutcome::DuplicateUsername;
    }
    let coords = coords_or_default(location);
    let hash = match hash_password(request.password.as_str()) {
        Ok(h) => h,
        Err(_) => {
            return RegistrationOutcome::InternalError;
        },
    };
    let new_user = build_new_user(request.username.as_str(), hash.as_str(), coords);
    match store.insert_account(new_user) {
        Ok(_) => {
            proof {
                assert(final(store)@.subrange(0, old(store)@.len() as int) =~= old(store)@);
            }
            RegistrationOutcome::Success
        },
        Err(_) => RegistrationOutcome::InternalError,
    }
}

/// Where an in-flight registration stands.
#[derive(Clone, Copy, Debug, PartialEq, Eq, Structural)]
enum Phase {
    AwaitingCount,
    AwaitingLocation,
    AwaitingInsert,
    Finished,
}

/// The outside work a registration asks its transport to perform
/// next.
pub enum RegistrationAction {
    /// Run the store's count-by-username query.
    QueryCount { username: String },
    /// Look the caller's address up with the geolocation provider;
    /// hand back `None` on any failure.
    ResolveLocation { remote_addr: String },
    /// Hand this record to the store; report whether it was accepted.
    InsertUser { new_user: NewUser },
    /// Nothing outside is left: answer the caller.
    Report { outcome: RegistrationOutcome },
}

/// What the transport hands back after performing an action.
#[derive(Clone, Copy, Debug)]
pub enum RegistrationEvent {
    CountReturned { count: Result<i64, QueryError> },
    LocationResolved { location: Option<Coordinates> },
    InsertReturned { accepted: bool },
}

/// One registration in flight against an outside store.
///
/// The transport performs each returned action — the query, the
/// lookup, the insert — and hands the result back through `on_event`;
/// every decision in between is made and proved here. The sequence
/// mirrors `register`: uniqueness first and nothing after a rejection,
/// the location fallback, the hash, the insert as the one commit
/// point.
pub struct RegistrationFlow {
    phase: Phase,
    username: String,
    password: String,
    remote_addr: String,
}

impl RegistrationFlow {
    /// The flow still owes the store its uniqueness query.
    pub closed spec fn awaiting_count(&self) -> bool {
        self.phase == Phase::AwaitingCount
    }

    /// The flow waits for the geolocation answer.
    pub closed spec fn awaiting_location(&self) -> bool {
        self.phase == Phase::AwaitingLocation
    }

    /// The flow waits for the store to accept or refuse the insert.
    pub closed spec fn awaiting_insert(&self) -> bool {
        self.phase == Phase::AwaitingInsert
    }

    /// The attempt is over; only the report remains.
    pub closed spec fn finished(&self) -> bool {
        self.phase == Phase::Finished
    }

    /// The requested username.
    pub closed spec fn username_spec(&self) -> Seq<char> {
        self.username@
    }

    /// The requested password.
    pub closed spec fn password_spec(&self) -> Seq<char> {
        self.password@
    }

    /// The caller's network address.
    pub closed spec fn addr_spec(&self) -> Seq<char> {
        self.remote_addr@
    }

    /// The flow carries the same request and address as `other`.
    pub open spec fn same_request(&self, other: RegistrationFlow) -> bool {
        &&& self.username_spec() == other.username_spec()
        &&& self.password_spec() == other.password_spec()
        &&& self.addr_spec() == other.addr_spec()
    }

    /// The event kind the flow's phase calls for.
    pub open spec fn expects(&self, event: RegistrationEvent) -> bool {
        match event {
            RegistrationEvent::CountReturned { .. } => self.awaiting_count(),
            RegistrationEvent::LocationResolved { .. } => self.awaiting_location(),
            RegistrationEvent::InsertReturned { .. } => self.awaiting_insert(),
        }
    }

    /// Begins a registration: the first outside step is the store's
    /// uniqueness query for the requested username.
    pub fn start(request: RegistrationRequest, remote_addr: String) -> (r: (
        RegistrationFlow,
        RegistrationAction,
    ))
        ensures
            r.0.awaiting_count(),
            r.0.username_spec() == request.username@,
            r.0.password_spec() == request.password@,
            r.0.addr_spec() == remote_addr@,
            r.1 matches RegistrationAction::QueryCount { username } && username@
                == request.username@,
    {
        let username = request.username.as_str().to_owned();
        let flow = RegistrationFlow {
            phase: Phase::AwaitingCount,
            username: request.username,
            password: request.password,
            remote_addr,
        };
        (flow, RegistrationAction::QueryCount { username })
    }

    /// Takes the transport's answer to the last action and decides the
    /// next one.
    ///
    /// A positive count ends the attempt as a duplicate before any
    /// side effect; a failed count passes for zero. The resolved
    /// location — or its default — and the fresh hash make the record
    /// the insert commits; a hashing failure, a refused insert and an
    /// event out of order all end in the opaque internal error.
    pub fn on_event(&mut self, event: RegistrationEvent) -> (action: RegistrationAction)
        ensures
            (match event {
                RegistrationEvent::CountReturned { count } => old(self).awaiting_count() ==> (
                if duplicate_count(count) {
                    &&& action == (RegistrationAction::Report {
                        outcome: RegistrationOutcome::DuplicateUsername,
                    })
                    &&& final(self).finished()
                } else {
                    &&& (match action {
                        RegistrationAction::ResolveLocation { remote_addr } => remote_addr@
                            == old(self).addr_spec(),
                        _ => false,
                    })
                    &&& final(self).awaiting_location()
                    &&& final(self).same_request(*old(self))
                }),
                RegistrationEvent::LocationResolved { location } => old(self).awaiting_location()
                    ==> (match action {
                    RegistrationAction::InsertUser { new_user } => {
                        &&& new_user.username@ == old(self).username_spec()
                        &&& argon2_verifies(
                            new_user.password_hash@,
                            encode_utf8(old(self).password_spec()),
                        )
                        &&& new_user.latitude == Some(resolved_coords(location).lat_micro)
                        &&& new_user.longitude == Some(resolved_coords(location).lon_micro)
                        &&& new_user.wf()
                        &&& final(self).awaiting_insert()
                        &&& final(self).same_request(*old(self))
                    },
                    RegistrationAction::Report { outcome } => outcome
                        == RegistrationOutcome::InternalError && final(self).finished(),
                    _ => false,
                }),
                RegistrationEvent::InsertReturned { accepted } => old(self).awaiting_insert()
                    ==> {
                    &&& action == (RegistrationAction::Report {
                        outcome: if accepted {
                            RegistrationOutcome::Success
                        } else {
                            RegistrationOutcome::InternalError
                        },
                    })
                    &&& final(self).finished()
                },
            }),
            (old(self).awaiting_location() && event is LocationResolved && encode_utf8(
                old(self).password_spec(),
            ).len() <= 0xFFFF_FFFFu64) ==> action is InsertUser,
            !old(self).expects(event) ==> action == (RegistrationAction::Report {
                outcome: RegistrationOutcome::InternalError,
            }) && final(self).finished(),
    {
        let phase = self.phase;
        match (phase, event) {
            (Phase::AwaitingCount, RegistrationEvent::CountReturned { count }) => {
                if is_duplicate_count(count) {
                    self.phase = Phase::Finished;
                    RegistrationAction::Report {
                        outcome: RegistrationOutcome::DuplicateUsername,
                    }
                } else {
                    self.phase = Phase::AwaitingLocation;
                    RegistrationAction::ResolveLocation {
                        remote_addr: self.remote_addr.as_str().to_owned(),
                    }
                }
            },
            (Phase::AwaitingLocation, RegistrationEvent::LocationResolved { location }) => {
                let coords = coords_or_default(location);
                match hash_password(self.password.as_str()) {
                    Ok(h) => {
                        self.phase = Phase::AwaitingInsert;
                        let new_user = build_new_user(self.username.as_str(), h.as_str(), coords);
                        RegistrationAction::InsertUser { new_user }
                    },
                    Err(_) => {
                        self.phase = Phase::Finished;
                        RegistrationAction::Report {
                            outcome: RegistrationOutcome::InternalError,
                        }
                    },
                }
            },
            (Phase::AwaitingInsert, RegistrationEvent::InsertReturned { accepted }) => {
                self.phase = Phase::Finished;
                RegistrationAction::Report { outcome: outcome_of_insert(accepted) }
            },
            _ => {
                self.phase = Phase::Finished;
                RegistrationAction::Report { outcome: RegistrationOutcome::InternalError }
            },
        }
    }
}

} // verus!
