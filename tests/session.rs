use webtail::error::TailError;
use webtail::frame::{decimal_string, encode_frame, frame_with_literal, Timestamp};
use webtail::session::{Action, Event, Phase, Session};

fn t(secs: u64, nanos: u32) -> Timestamp {
    Timestamp::new(secs, nanos).unwrap()
}

fn sent_text(a: Action) -> String {
    match a {
        Action::Send(f) => f,
        other => panic!("expected a frame, got {:?}", other),
    }
}

fn streaming() -> Session {
    let mut s = Session::new();
    s.step(Event::Greeted);
    s.step(Event::SnapshotRead { time: t(1, 0), offset: 0, window: b"a\n".to_vec() });
    s.step(Event::Sent);
    s
}

#[test]
fn decimal_notation() {
    assert_eq!(decimal_string(0), "0");
    assert_eq!(decimal_string(7), "7");
    assert_eq!(decimal_string(1234567890), "1234567890");
    assert_eq!(decimal_string(u64::MAX), "18446744073709551615");
}

#[test]
fn timestamp_rejects_too_many_nanos() {
    assert!(Timestamp::new(1, 1_000_000_000).is_none());
    assert_eq!(Timestamp::new(1, 999_999_999).unwrap().nanos, 999_999_999);
    assert_eq!(Timestamp::epoch(), t(0, 0));
}

#[test]
fn frame_layout() {
    assert_eq!(
        frame_with_literal(t(12, 34), "\"x\""),
        "{\"time\":{\"secs_since_epoch\":12,\"nanos_since_epoch\":34},\"text\":\"x\"}"
    );
}

#[test]
fn frame_escapes_text() {
    assert_eq!(
        encode_frame(t(1, 2), "a\"b\nc"),
        "{\"time\":{\"secs_since_epoch\":1,\"nanos_since_epoch\":2},\"text\":\"a\\\"b\\nc\"}"
    );
}

#[test]
fn snapshot_then_line() {
    let mut s = Session::new();
    assert!(matches!(s.step(Event::Greeted), Action::ReadSnapshot));
    assert_eq!(s.phase, Phase::Snapshot);
    let a = s.step(Event::SnapshotRead {
        time: t(5, 6),
        offset: 0,
        window: b"line1\nline2\nline3\n".to_vec(),
    });
    assert_eq!(
        sent_text(a),
        "{\"time\":{\"secs_since_epoch\":5,\"nanos_since_epoch\":6},\"text\":\"line1\\nline2\\nline3\\n\"}"
    );
    assert!(matches!(s.step(Event::Sent), Action::OpenWatch));
    assert_eq!(s.phase, Phase::Streaming);
    assert!(s.snapshot_sent);
    assert!(matches!(s.step(Event::WatchReady), Action::AwaitLine));
    let a = s.step(Event::Line { modified: Some(t(9, 0)), line: b"line4".to_vec() });
    assert_eq!(
        sent_text(a),
        "{\"time\":{\"secs_since_epoch\":9,\"nanos_since_epoch\":0},\"text\":\"line4\"}"
    );
    assert!(matches!(s.step(Event::Sent), Action::AwaitLine));
}

#[test]
fn line_without_time_is_stamped_at_epoch() {
    let mut s = streaming();
    let a = s.step(Event::Line { modified: None, line: b"x".to_vec() });
    assert_eq!(
        sent_text(a),
        "{\"time\":{\"secs_since_epoch\":0,\"nanos_since_epoch\":0},\"text\":\"x\"}"
    );
}

#[test]
fn undecodable_line_is_skipped() {
    let mut s = streaming();
    assert!(matches!(s.step(Event::Line { modified: None, line: vec![0xff] }), Action::AwaitLine));
    assert!(!s.sending);
}

#[test]
fn silent_client_closes_session() {
    let mut s = Session::new();
    assert!(matches!(s.step(Event::ClientGone), Action::Close(None)));
    assert!(s.is_closed());
}

#[test]
fn disconnect_while_streaming_releases_watch() {
    let mut s = streaming();
    s.step(Event::WatchReady);
    assert!(matches!(s.step(Event::ClientGone), Action::Close(None)));
    assert!(s.is_closed());
    assert!(matches!(s.step(Event::Line { modified: None, line: b"late".to_vec() }), Action::Ignore));
    assert!(matches!(s.step(Event::ClientGone), Action::Ignore));
}

#[test]
fn snapshot_read_failure_closes_without_streaming() {
    let mut s = Session::new();
    s.step(Event::Greeted);
    assert!(matches!(s.step(Event::SnapshotFailed(TailError::Open)), Action::Close(Some(TailError::Open))));
    assert!(s.is_closed());
    assert!(!s.snapshot_sent);
}

#[test]
fn snapshot_decode_failure_closes() {
    let mut s = Session::new();
    s.step(Event::Greeted);
    let a = s.step(Event::SnapshotRead { time: t(0, 0), offset: 0, window: vec![0xc3] });
    assert!(matches!(a, Action::Close(Some(TailError::Decode))));
}

#[test]
fn snapshot_send_failure_closes() {
    let mut s = Session::new();
    s.step(Event::Greeted);
    s.step(Event::SnapshotRead { time: t(0, 0), offset: 0, window: b"a\n".to_vec() });
    assert!(matches!(s.step(Event::SendFailed), Action::Close(Some(TailError::SendFailure))));
}

#[test]
fn line_send_failure_closes() {
    let mut s = streaming();
    s.step(Event::Line { modified: None, line: b"x".to_vec() });
    assert!(matches!(s.step(Event::SendFailed), Action::Close(Some(TailError::SendFailure))));
}

#[test]
fn watch_setup_failure_closes() {
    let mut s = streaming();
    assert!(matches!(s.step(Event::WatchFailed), Action::Close(Some(TailError::WatchSetup))));
}

#[test]
fn watch_fatal_closes() {
    let mut s = streaming();
    assert!(matches!(s.step(Event::WatchFatal), Action::Close(Some(TailError::WatchFatal))));
}

#[test]
fn no_line_frame_before_snapshot() {
    let mut s = Session::new();
    assert!(matches!(s.step(Event::Line { modified: None, line: b"x".to_vec() }), Action::Ignore));
    s.step(Event::Greeted);
    assert!(matches!(s.step(Event::Line { modified: None, line: b"x".to_vec() }), Action::Ignore));
}

#[test]
fn frame_escapes_control_characters() {
    assert_eq!(
        encode_frame(t(3, 4), "\u{1}\u{8}\t\u{c}\r\\\u{1f}\u{7f}\u{e9}"),
        "{\"time\":{\"secs_since_epoch\":3,\"nanos_since_epoch\":4},\"text\":\"\\u0001\\b\\t\\f\\r\\\\\\u001f\u{7f}\u{e9}\"}"
    );
}

#[test]
fn frame_of_empty_text() {
    assert_eq!(
        encode_frame(t(0, 0), ""),
        "{\"time\":{\"secs_since_epoch\":0,\"nanos_since_epoch\":0},\"text\":\"\"}"
    );
}
