use registration::geo::parse_location_payload;

#[test]
fn provider_success_payload_parses_exactly() {
    let body =
        b"{\"status\":\"success\",\"country\":\"GB\",\"lat\":51.5,\"lon\":-0.1,\"query\":\"1.2.3.4\"}";
    let c = parse_location_payload(body).unwrap();
    assert_eq!(c.lat_micro, 51_500_000);
    assert_eq!(c.lon_micro, -100_000);
}

#[test]
fn integer_coordinates_parse() {
    let body = b"{\"lat\":7,\"lon\":-8}";
    let c = parse_location_payload(body).unwrap();
    assert_eq!(c.lat_micro, 7_000_000);
    assert_eq!(c.lon_micro, -8_000_000);
}

#[test]
fn whitespace_after_the_key_is_allowed() {
    let body = b"{\"lat\": 1.25,\n \"lon\":\t3}";
    let c = parse_location_payload(body).unwrap();
    assert_eq!(c.lat_micro, 1_250_000);
    assert_eq!(c.lon_micro, 3_000_000);
}

#[test]
fn long_fractions_are_cut_to_microdegrees() {
    let body = b"{\"lat\":1.2345678,\"lon\":0.0000009}";
    let c = parse_location_payload(body).unwrap();
    assert_eq!(c.lat_micro, 1_234_567);
    assert_eq!(c.lon_micro, 0);
}

#[test]
fn failure_payload_is_unknown() {
    assert!(parse_location_payload(b"{\"status\":\"fail\",\"query\":\"1.2.3.4\"}").is_none());
}

#[test]
fn empty_body_is_unknown() {
    assert!(parse_location_payload(b"").is_none());
}

#[test]
fn missing_lon_is_unknown() {
    assert!(parse_location_payload(b"{\"lat\":51.5}").is_none());
}

#[test]
fn value_without_digits_is_unknown() {
    assert!(parse_location_payload(b"{\"lat\":,\"lon\":1}").is_none());
    assert!(parse_location_payload(b"{\"lat\":null,\"lon\":1}").is_none());
}

#[test]
fn bare_point_without_fraction_digits_is_unknown() {
    assert!(parse_location_payload(b"{\"lat\":12.,\"lon\":3}").is_none());
}

#[test]
fn values_beyond_the_model_are_unknown() {
    // More integer digits than the model carries.
    assert!(parse_location_payload(b"{\"lat\":123456789012345678,\"lon\":3}").is_none());
    // Within the grammar but past the 64-bit microdegree range.
    assert!(parse_location_payload(b"{\"lat\":99999999999999,\"lon\":3}").is_none());
    assert!(parse_location_payload(b"{\"lat\":1e15,\"lon\":3}").is_none());
}

#[test]
fn exponent_forms_are_applied() {
    let c = parse_location_payload(b"{\"lat\":5e1,\"lon\":1}").unwrap();
    assert_eq!(c.lat_micro, 50_000_000);
    assert_eq!(c.lon_micro, 1_000_000);
    let c = parse_location_payload(b"{\"lat\":1.5E2,\"lon\":-2.5e-1}").unwrap();
    assert_eq!(c.lat_micro, 150_000_000);
    assert_eq!(c.lon_micro, -250_000);
    let c = parse_location_payload(b"{\"lat\":515e-1,\"lon\":5e+1}").unwrap();
    assert_eq!(c.lat_micro, 51_500_000);
    assert_eq!(c.lon_micro, 50_000_000);
}

#[test]
fn tiny_exponents_underflow_to_zero() {
    let c = parse_location_payload(b"{\"lat\":5e-30,\"lon\":1e-99}").unwrap();
    assert_eq!(c.lat_micro, 0);
    assert_eq!(c.lon_micro, 0);
}

#[test]
fn malformed_exponents_are_unknown() {
    assert!(parse_location_payload(b"{\"lat\":5e,\"lon\":1}").is_none());
    assert!(parse_location_payload(b"{\"lat\":5e+,\"lon\":1}").is_none());
    assert!(parse_location_payload(b"{\"lat\":5e1x,\"lon\":1}").is_none());
}

#[test]
fn leading_zero_integers_are_not_json() {
    assert!(parse_location_payload(b"{\"lat\":01,\"lon\":2}").is_none());
    let c = parse_location_payload(b"{\"lat\":0.5,\"lon\":0}").unwrap();
    assert_eq!(c.lat_micro, 500_000);
    assert_eq!(c.lon_micro, 0);
}

#[test]
fn the_last_member_with_a_name_wins() {
    let body = b"{\"lat\":1,\"lon\":2,\"lat\":3}";
    let c = parse_location_payload(body).unwrap();
    assert_eq!(c.lat_micro, 3_000_000);
    assert_eq!(c.lon_micro, 2_000_000);
}

#[test]
fn whitespace_before_the_colon_is_allowed() {
    let body = b"{\"lat\" : 51.5 , \"lon\" : -0.1}";
    let c = parse_location_payload(body).unwrap();
    assert_eq!(c.lat_micro, 51_500_000);
    assert_eq!(c.lon_micro, -100_000);
}

#[test]
fn trailing_garbage_after_the_digits_is_rejected() {
    assert!(parse_location_payload(b"{\"lat\":12x,\"lon\":3}").is_none());
    assert!(parse_location_payload(b"{\"lat\":1.2.3,\"lon\":3}").is_none());
}

#[test]
fn nested_members_are_not_top_level_fields() {
    assert!(parse_location_payload(b"{\"geo\":{\"lat\":1,\"lon\":2}}").is_none());
    let body = b"{\"geo\":{\"lat\":1,\"lon\":2},\"lat\":3,\"lon\":4}";
    let c = parse_location_payload(body).unwrap();
    assert_eq!(c.lat_micro, 3_000_000);
    assert_eq!(c.lon_micro, 4_000_000);
}

#[test]
fn a_string_value_is_not_taken_for_a_key() {
    let body = b"{\"name\":\"lat\",\"lat\":5,\"lon\":6}";
    let c = parse_location_payload(body).unwrap();
    assert_eq!(c.lat_micro, 5_000_000);
    assert_eq!(c.lon_micro, 6_000_000);
}

#[test]
fn escaped_quotes_inside_strings_are_honoured() {
    let body = b"{\"note\":\"a\\\"lat\\\":9,\",\"lat\":5,\"lon\":6}";
    let c = parse_location_payload(body).unwrap();
    assert_eq!(c.lat_micro, 5_000_000);
    assert_eq!(c.lon_micro, 6_000_000);
}
