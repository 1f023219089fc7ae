use registration::RegistrationOutcome;
use registration::account::{Coordinates, RegistrationRequest};
use registration::geo::parse_location_payload;
use registration::orchestrator::{
    QueryError, build_new_user, coords_or_default, is_duplicate_count, outcome_of_insert,
    register, remote_addr_or_default,
};
use registration::password::verify_password;
use registration::store::AccountStore;

fn request(username: &str, password: &str) -> RegistrationRequest {
    RegistrationRequest { username: username.to_owned(), password: password.to_owned() }
}

#[test]
fn fresh_registration_persists_the_resolved_location() {
    let mut store = AccountStore::new();
    let location = Some(Coordinates { lat_micro: 51_500_000, lon_micro: -100_000 });
    let outcome = register(&mut store, &request("alice", "s3cret"), location);
    assert_eq!(outcome, RegistrationOutcome::Success);
    assert_eq!(store.len(), 1);
    let row = store.row(0);
    assert_eq!(row.username, "alice");
    assert!(!row.password_hash.is_empty());
    assert!(verify_password(&row.password_hash, "s3cret").unwrap());
    assert_eq!(row.latitude, Some(51_500_000));
    assert_eq!(row.longitude, Some(-100_000));
    assert_eq!(row.real_name, None);
    assert_eq!(row.bio, None);
}

#[test]
fn duplicate_username_is_rejected_without_side_effects() {
    let mut store = AccountStore::new();
    let first = register(
        &mut store,
        &request("alice", "s3cret"),
        Some(Coordinates { lat_micro: 1, lon_micro: 2 }),
    );
    assert_eq!(first, RegistrationOutcome::Success);
    let prior_hash = store.row(0).password_hash.clone();

    let second = register(&mut store, &request("alice", "other"), None);
    assert_eq!(second, RegistrationOutcome::DuplicateUsername);
    assert_eq!(store.len(), 1);
    assert_eq!(store.row(0).password_hash, prior_hash);
}

#[test]
fn unresolved_location_defaults_to_the_zero_pair() {
    let mut store = AccountStore::new();
    let outcome = register(&mut store, &request("bob", "pw"), None);
    assert_eq!(outcome, RegistrationOutcome::Success);
    let row = store.row(0);
    assert_eq!(row.latitude, Some(0));
    assert_eq!(row.longitude, Some(0));
}

#[test]
fn two_registrations_for_one_username_leave_one_row() {
    let mut store = AccountStore::new();
    let first = register(&mut store, &request("bob", "pw1"), None);
    let second = register(&mut store, &request("bob", "pw2"), None);
    assert_eq!(first, RegistrationOutcome::Success);
    assert_eq!(second, RegistrationOutcome::DuplicateUsername);
    assert_eq!(store.count_username("bob"), 1);
}

#[test]
fn provider_body_flows_through_to_the_stored_row() {
    let mut store = AccountStore::new();
    let body = b"{\"status\":\"success\",\"lat\":51.5,\"lon\":-0.1}";
    let location = parse_location_payload(body);
    let outcome = register(&mut store, &request("alice", "s3cret"), location);
    assert_eq!(outcome, RegistrationOutcome::Success);
    assert_eq!(store.row(0).latitude, Some(51_500_000));
    assert_eq!(store.row(0).longitude, Some(-100_000));
}

#[test]
fn failed_lookup_body_falls_back_to_the_default_pair() {
    let mut store = AccountStore::new();
    let location = parse_location_payload(b"{\"status\":\"fail\"}");
    assert!(location.is_none());
    let outcome = register(&mut store, &request("carol", "pw"), location);
    assert_eq!(outcome, RegistrationOutcome::Success);
    assert_eq!(store.row(0).latitude, Some(0));
    assert_eq!(store.row(0).longitude, Some(0));
}

#[test]
fn duplicate_decision_follows_the_count() {
    assert!(is_duplicate_count(Ok(1)));
    assert!(is_duplicate_count(Ok(7)));
    assert!(!is_duplicate_count(Ok(0)));
    // A failed count query is treated as zero matches.
    assert!(!is_duplicate_count(Err(QueryError)));
}

#[test]
fn missing_remote_address_gets_the_sentinel() {
    assert_eq!(remote_addr_or_default(Some("203.0.113.9".to_owned())), "203.0.113.9");
    assert_eq!(remote_addr_or_default(None), "0.0.0.0");
}

#[test]
fn coordinate_fallback_and_record_assembly() {
    let c = Coordinates { lat_micro: 5, lon_micro: -6 };
    assert_eq!(coords_or_default(Some(c)), c);
    assert_eq!(coords_or_default(None), Coordinates { lat_micro: 0, lon_micro: 0 });

    let u = build_new_user("alice", "$hash", c);
    assert_eq!(u.username, "alice");
    assert_eq!(u.password_hash, "$hash");
    assert_eq!(u.latitude, Some(5));
    assert_eq!(u.longitude, Some(-6));
}

#[test]
fn insert_outcome_mapping() {
    assert_eq!(outcome_of_insert(true), RegistrationOutcome::Success);
    assert_eq!(outcome_of_insert(false), RegistrationOutcome::InternalError);
}
