use std::io;

use mini_http_test::duration::Duration;
use mini_http_test::error::Error;

#[test]
fn req_count_timeout_in_words() {
    let error = Error::AwaitReqCountTimeout {
        current_count: 7,
        target_count: 10,
        timeout: Duration::new(1, 0),
    };
    assert_eq!(error.report(), "req_count did not reach 10 (currently 7) within 1s");
    assert_eq!(error.message(), "req_count did not reach 10 within 1s (current count: 7)");
    assert_eq!(error.message_with_cause("ignored"), error.message());
}

#[test]
fn concurrent_req_count_timeout_in_words() {
    let error = Error::AwaitConcurrentReqCountTimeout {
        current_count: 0,
        target_count: u64::MAX,
        timeout: Duration::from_millis(1500),
    };
    assert_eq!(
        error.report(),
        "concurrent_req_count did not reach 18446744073709551615 (currently 0) within 1.5s"
    );
    assert_eq!(
        error.message(),
        "concurrent_req_count did not reach 18446744073709551615 within 1.5s (current count: 0)"
    );
}

#[test]
fn io_errors_in_words() {
    let error = Error::BindTCPListener(io::Error::new(io::ErrorKind::Other, "no luck"));
    assert_eq!(error.report(), "bind TCP listener");
    assert_eq!(error.message(), "bind TCP listener: no luck");
    assert_eq!(error.message_with_cause("x"), "bind TCP listener: x");

    let error = Error::GetTCPListenerAddress(io::Error::new(io::ErrorKind::Other, "no luck"));
    assert_eq!(error.report(), "get listener socket address");
    assert_eq!(error.message(), "get TCP listener socket address: no luck");
    assert_eq!(error.message_with_cause("x"), "get TCP listener socket address: x");
}

#[test]
fn spans_in_words() {
    assert_eq!(Duration::from_millis(10).to_text(), "10ms");
    assert_eq!(Duration::new(0, 1).to_text(), "1ns");
    assert_eq!(Duration::new(90, 0).to_text(), "90s");
}

#[test]
fn spans_are_made_and_compared() {
    assert_eq!(Duration::from_millis(12_345).parts(), (12, 345_000_000));
    assert_eq!(Duration::from_millis(u64::MAX).parts(), (18_446_744_073_709_551, 615_000_000));
    assert!(Duration::new(1, 1).exceeds(&Duration::new(1, 0)));
    assert!(Duration::new(2, 0).exceeds(&Duration::new(1, 999_999_999)));
    assert!(!Duration::new(1, 0).exceeds(&Duration::new(1, 0)));
    assert!(!Duration::new(1, 5).exceeds(&Duration::new(2, 0)));
}
