use webtail::config::State;
use webtail::error::TailError;
use webtail::snapshot::{find_newline, snapshot_offset, snapshot_text, SNAPSHOT_WINDOW};

#[test]
fn offset_of_small_file_is_zero() {
    assert_eq!(snapshot_offset(0), 0);
    assert_eq!(snapshot_offset(18), 0);
    assert_eq!(snapshot_offset(SNAPSHOT_WINDOW), 0);
}

#[test]
fn offset_of_large_file_keeps_last_window() {
    assert_eq!(snapshot_offset(1025), 1);
    assert_eq!(snapshot_offset(5000), 5000 - 1024);
    assert_eq!(snapshot_offset(u64::MAX), u64::MAX - 1024);
}

#[test]
fn whole_small_file_is_the_snapshot() {
    let text = snapshot_text(0, b"line1\nline2\nline3\n").unwrap();
    assert_eq!(text, "line1\nline2\nline3\n");
}

#[test]
fn window_inside_file_drops_partial_first_line() {
    let window = b"ial line\nfoo\nbar\n";
    let text = snapshot_text(100, window).unwrap();
    assert_eq!(text, "foo\nbar\n");
    let mut back = b"ial line\n".to_vec();
    back.extend_from_slice(text.as_bytes());
    assert_eq!(back, window.to_vec());
}

#[test]
fn window_without_newline_is_kept_whole() {
    assert_eq!(snapshot_text(7, b"one long line").unwrap(), "one long line");
}

#[test]
fn window_ending_at_first_newline_is_empty() {
    assert_eq!(snapshot_text(3, b"tail\n").unwrap(), "");
}

#[test]
fn empty_window_gives_empty_snapshot() {
    assert_eq!(snapshot_text(0, b"").unwrap(), "");
}

#[test]
fn multibyte_text_after_newline_survives() {
    let window = "x\u{e9}\n\u{e9}t\u{e9}\n".as_bytes();
    assert_eq!(snapshot_text(1, window).unwrap(), "\u{e9}t\u{e9}\n");
}

#[test]
fn invalid_utf8_is_a_decode_error() {
    assert_eq!(snapshot_text(0, &[b'a', 0xff, b'\n']), Err(TailError::Decode));
}

#[test]
fn window_cut_inside_a_character_is_a_decode_error() {
    let bytes = "\u{e9}a\nb\n".as_bytes();
    assert_eq!(snapshot_text(1, &bytes[1..]), Err(TailError::Decode));
}

#[test]
fn first_newline_position() {
    assert_eq!(find_newline(b"ab\ncd\n"), Some(2));
    assert_eq!(find_newline(b"abcd"), None);
    assert_eq!(find_newline(b""), None);
}

#[test]
fn state_holds_path() {
    let s = State::new(String::from("/var/log/app.log"));
    assert_eq!(s.filepath, "/var/log/app.log");
}
