use mkworld_overlay::key::GameMode;
use mkworld_overlay::upstream::{
    client_tag, details_url, is_success, push_decimal, write_status, UpstreamFailure,
    UPSTREAM_TIMEOUT_SECS,
};

#[test]
fn timeout_and_client_tag() {
    assert_eq!(UPSTREAM_TIMEOUT_SECS, 10);
    assert_eq!(client_tag(), "MKWorld-Overlay/1.0");
}

#[test]
fn url_of_a_plain_name() {
    assert_eq!(
        details_url("FooBar", GameMode::TwentyFourPlayers),
        "https://lounge.mkcentral.com/api/player/details?name=FooBar&game=mkworld24p"
    );
}

#[test]
fn url_escapes_spaces() {
    assert_eq!(
        details_url("Foo Bar-1.2_x", GameMode::TwelvePlayers),
        "https://lounge.mkcentral.com/api/player/details?name=Foo%20Bar-1.2_x&game=mkworld12p"
    );
}

#[test]
fn url_escapes_reserved_and_wide_characters() {
    assert_eq!(
        details_url("a&b=c/é~", GameMode::TwelvePlayers),
        "https://lounge.mkcentral.com/api/player/details?name=a%26b%3Dc%2F%C3%A9~&game=mkworld12p"
    );
}

#[test]
fn success_is_the_two_hundreds() {
    assert!(is_success(200));
    assert!(is_success(204));
    assert!(is_success(299));
    assert!(!is_success(199));
    assert!(!is_success(300));
    assert!(!is_success(404));
    assert!(!is_success(500));
    assert!(!is_success(0));
}

#[test]
fn decimal_numerals() {
    for n in [0u16, 7, 10, 42, 99, 100, 404, 999, 1000, 12345, u16::MAX] {
        let mut out = String::from("n=");
        push_decimal(&mut out, n);
        assert_eq!(out, format!("n={}", n));
    }
}

#[test]
fn status_is_written_with_its_phrase() {
    assert_eq!(write_status(404, Some("Not Found")), "404 Not Found");
    assert_eq!(write_status(599, None), "599 <unknown status code>");
}

#[test]
fn network_failure_message() {
    let failure = UpstreamFailure::Network { cause: "operation timed out".to_string() };
    assert_eq!(failure.message(), "Network error: operation timed out");
}

#[test]
fn status_failure_message_has_status_and_body() {
    let failure = UpstreamFailure::Status { status: 404, body: Some("no such player".to_string()) };
    assert_eq!(failure.message(), "API error 404 Not Found: no such player");
    let failure = UpstreamFailure::Status { status: 503, body: Some(String::new()) };
    assert_eq!(failure.message(), "API error 503 Service Unavailable: ");
}

#[test]
fn status_failure_message_without_readable_body() {
    let failure = UpstreamFailure::Status { status: 500, body: None };
    assert_eq!(failure.message(), "API error 500 Internal Server Error: Unknown error");
}

#[test]
fn status_failure_message_of_an_unlisted_status() {
    let failure = UpstreamFailure::Status { status: 599, body: None };
    assert_eq!(failure.message(), "API error 599 <unknown status code>: Unknown error");
    let failure = UpstreamFailure::Status { status: 42, body: Some("x".to_string()) };
    assert_eq!(failure.message(), "API error 42 <unknown status code>: x");
}

#[test]
fn decode_failure_message() {
    let failure = UpstreamFailure::Decode { cause: "missing field `name`".to_string() };
    assert_eq!(failure.message(), "JSON parse error: missing field `name`");
}
