use caller_id::connection::ReadOutcome;
use caller_id::events::{CallerIdError, NoticeKind};
use caller_id::listener::{backoff_ms, Backoff, CallerIdService};

#[test]
fn caller_id_line_yields_exactly_one_event() {
    let mut svc = CallerIdService::new();
    let r = svc.handle_outcome(
        ReadOutcome::Data(b"RING\r\nNMBR=5551234567\r\n".to_vec()),
        "2024-01-01T00:00:00+00:00",
    );
    assert!(!r.exit);
    assert_eq!(r.events.len(), 1);
    assert_eq!(r.events[0].phone_number, "5551234567".to_string());
    assert_eq!(r.events[0].timestamp, "2024-01-01T00:00:00+00:00".to_string());
    assert!(r.notice.is_none());
    assert!(matches!(r.backoff, Backoff::NoDelay));
}

#[test]
fn ring_alone_yields_no_event() {
    let mut svc = CallerIdService::new();
    let r = svc.handle_outcome(ReadOutcome::Data(b"RING\r\n".to_vec()), "t");
    assert_eq!(r.events.len(), 0);
    assert!(r.notice.is_none());
}

#[test]
fn record_split_across_reads_is_reassembled() {
    let mut svc = CallerIdService::new();
    let r1 = svc.handle_outcome(ReadOutcome::Data(b"RING\r\nNMBR=55512".to_vec()), "t1");
    assert_eq!(r1.events.len(), 0);
    let r2 = svc.handle_outcome(ReadOutcome::Data(b"34567\r\n".to_vec()), "t2");
    assert_eq!(r2.events.len(), 1);
    assert_eq!(r2.events[0].phone_number, "5551234567".to_string());
    assert_eq!(r2.events[0].timestamp, "t2".to_string());
}

#[test]
fn ten_timeouts_produce_nothing_and_keep_listening() {
    let mut svc = CallerIdService::new();
    assert!(svc.start().is_ok());
    for _ in 0..10 {
        let r = svc.handle_outcome(ReadOutcome::TimedOut, "t");
        assert!(!r.exit);
        assert_eq!(r.events.len(), 0);
        assert!(r.notice.is_none());
        assert!(matches!(r.backoff, Backoff::IdlePoll));
    }
    assert!(svc.is_listening());
}

#[test]
fn empty_read_is_the_idle_poll_path() {
    let mut svc = CallerIdService::new();
    let r = svc.handle_outcome(ReadOutcome::Data(Vec::new()), "t");
    assert_eq!(r.events.len(), 0);
    assert!(r.notice.is_none());
    assert!(matches!(r.backoff, Backoff::IdlePoll));
}

#[test]
fn three_disconnected_reads_raise_three_notices() {
    let mut svc = CallerIdService::new();
    assert!(svc.start().is_ok());
    for _ in 0..3 {
        let r = svc.handle_outcome(ReadOutcome::Disconnected, "t");
        assert!(!r.exit);
        assert_eq!(r.events.len(), 0);
        let n = r.notice.expect("a notice is owed");
        assert!(matches!(n.kind, NoticeKind::NotConnected));
        assert!(matches!(r.backoff, Backoff::Reconnect));
    }
    assert!(svc.is_listening());
}

#[test]
fn read_fault_raises_a_read_failure_notice() {
    let mut svc = CallerIdService::new();
    let r = svc.handle_outcome(ReadOutcome::Failed("device gone".to_string()), "t");
    let n = r.notice.expect("a notice is owed");
    assert!(matches!(n.kind, NoticeKind::ReadFailure));
    assert_eq!(n.message, "device gone".to_string());
    assert!(matches!(r.backoff, Backoff::ReadFault));
}

#[test]
fn second_start_is_rejected_and_leaves_the_loop_untouched() {
    let mut svc = CallerIdService::new();
    assert!(svc.start().is_ok());
    assert!(svc.is_listening());
    let again = svc.start();
    assert!(matches!(again, Err(CallerIdError::AlreadyListening)));
    assert!(svc.is_listening());
}

#[test]
fn stop_makes_the_next_poll_exit() {
    let mut svc = CallerIdService::new();
    assert!(svc.start().is_ok());
    svc.stop();
    assert!(!svc.is_listening());
    let r = svc.poll_step();
    assert!(r.exit);
    assert_eq!(r.events.len(), 0);
    assert!(r.notice.is_none());
}

#[test]
fn poll_while_listening_without_device_reports_not_connected() {
    let mut svc = CallerIdService::new();
    assert!(svc.start().is_ok());
    let r = svc.poll_step();
    assert!(!r.exit);
    assert_eq!(r.events.len(), 0);
    let n = r.notice.expect("a notice is owed");
    assert!(matches!(n.kind, NoticeKind::NotConnected));
    assert!(matches!(r.backoff, Backoff::Reconnect));
    assert!(svc.is_listening());
}

#[test]
fn backoff_pauses_match_the_policy() {
    assert_eq!(backoff_ms(Backoff::NoDelay), 0);
    assert_eq!(backoff_ms(Backoff::IdlePoll), 20);
    assert_eq!(backoff_ms(Backoff::Reconnect), 500);
    assert_eq!(backoff_ms(Backoff::ReadFault), 100);
}

#[test]
fn stop_and_disconnect_are_idempotent() {
    let mut svc = CallerIdService::new();
    svc.stop();
    svc.disconnect();
    svc.disconnect();
    assert!(!svc.is_listening());
    assert!(!svc.is_connected());
}

#[test]
fn disconnect_leaves_the_listening_flag_alone() {
    let mut svc = CallerIdService::new();
    assert!(svc.start().is_ok());
    svc.disconnect();
    assert!(svc.is_listening());
    // The loop keeps polling and advises that the device is gone.
    let r = svc.poll_step();
    assert!(!r.exit);
    let n = r.notice.expect("a notice is owed");
    assert!(matches!(n.kind, NoticeKind::NotConnected));
    assert!(svc.is_listening());
}

#[test]
fn disconnect_keeps_the_pending_text() {
    let mut svc = CallerIdService::new();
    let r1 = svc.handle_outcome(ReadOutcome::Data(b"NMBR=55512".to_vec()), "t1");
    assert_eq!(r1.events.len(), 0);
    svc.disconnect();
    // The half-read line survives the disconnect and completes afterwards.
    let r2 = svc.handle_outcome(ReadOutcome::Data(b"34567\r\n".to_vec()), "t2");
    assert_eq!(r2.events.len(), 1);
    assert_eq!(r2.events[0].phone_number, "5551234567".to_string());
}
