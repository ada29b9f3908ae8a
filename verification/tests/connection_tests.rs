use caller_id::connection::{enable_command_text, list_ports, OPEN_BAUD_RATE, READ_TIMEOUT_MS};
use caller_id::events::CallerIdError;
use caller_id::listener::CallerIdService;

#[test]
fn connecting_a_nonexistent_device_fails_and_leaves_nothing_open() {
    let mut svc = CallerIdService::new();
    let r = svc.connect("/dev/does-not-exist-caller-id");
    assert!(matches!(r, Err(CallerIdError::ConnectionError(_))));
    assert!(!svc.is_connected());
}

#[test]
fn failed_reconnect_also_closes_the_prior_slot() {
    // Two connect attempts in a row: each failure leaves the single handle
    // slot empty, so at no point are two handles open.
    let mut svc = CallerIdService::new();
    assert!(svc.connect("/dev/does-not-exist-a").is_err());
    assert!(!svc.is_connected());
    assert!(svc.connect("/dev/does-not-exist-b").is_err());
    assert!(!svc.is_connected());
}

#[test]
fn connect_failure_keeps_the_listening_flag() {
    let mut svc = CallerIdService::new();
    assert!(svc.start().is_ok());
    assert!(svc.connect("/dev/does-not-exist-caller-id").is_err());
    assert!(svc.is_listening());
}

#[test]
fn open_configuration_matches_the_protocol() {
    assert_eq!(OPEN_BAUD_RATE, 9600);
    assert_eq!(READ_TIMEOUT_MS, 200);
    assert_eq!(enable_command_text(), "AT+VCID=1\r");
}

#[test]
fn listing_ports_reports_names_or_a_typed_failure() {
    match list_ports() {
        Ok(names) => {
            for n in names {
                assert!(!n.is_empty());
            }
        },
        Err(e) => {
            assert!(matches!(e, CallerIdError::EnumerationError(_)));
        },
    }
}
