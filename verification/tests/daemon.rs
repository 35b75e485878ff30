//! Lines of a client and the daemon's socket.
use nsticky::daemon::{
    claim_socket, incoming, operation_for, unreadable_request, BoundedLine, Incoming, Takeover,
    MAX_DISCARDED_BYTES,
};
use nsticky::niri::events::NiriEvent;
use nsticky::protocol::Response;

/// Reads one line from the front of the bytes, a few of them at a time.
fn read_bounded_line(reader: &mut &[u8], max: usize) -> (String, bool) {
    let mut line = BoundedLine::new();
    while !line.is_over() && !reader.is_empty() {
        let chunk = &reader[..reader.len().min(3)];
        let used = line.feed(chunk, max);
        *reader = &reader[used..];
    }
    (line.text(), line.is_truncated())
}

#[test]
fn test_read_bounded_line_keeps_short_lines_intact() {
    let mut reader = &b"one\ntwo\n"[..];

    let (line, truncated) = read_bounded_line(&mut reader, 64);
    assert_eq!((line.as_str(), truncated), ("one", false));

    let (line, truncated) = read_bounded_line(&mut reader, 64);
    assert_eq!((line.as_str(), truncated), ("two", false));
}

#[test]
fn test_read_bounded_line_cuts_an_oversized_line_at_the_limit() {
    let mut reader = &b"aaaaaaaaaa\nnext\n"[..];

    let (line, truncated) = read_bounded_line(&mut reader, 4);
    assert!(truncated);
    assert_eq!(line, "aaaa", "at most the limit is kept");

    // The rest of the oversized line is discarded, so the reader is in step
    // with the client again.
    let (line, truncated) = read_bounded_line(&mut reader, 8);
    assert_eq!((line.as_str(), truncated), ("next", false));
}

#[test]
fn test_read_bounded_line_returns_a_last_line_without_a_newline() {
    let mut reader = &b"tail"[..];

    let (line, truncated) = read_bounded_line(&mut reader, 64);
    assert_eq!((line.as_str(), truncated), ("tail", false));
}

#[test]
fn test_read_bounded_line_reads_nothing_from_an_empty_reader() {
    let mut reader = &b""[..];

    let (line, truncated) = read_bounded_line(&mut reader, 64);
    assert_eq!((line.as_str(), truncated), ("", false));
}

#[test]
fn a_line_takes_no_bytes_behind_its_break() {
    let mut line = BoundedLine::new();

    assert_eq!(line.feed(b"ab", 64), 2);
    assert!(!line.is_over());
    assert_eq!(line.feed(b"c\nrest", 64), 2);
    assert!(line.is_over());
    assert_eq!(line.text(), "abc");
}

#[test]
fn a_line_ends_when_too_much_was_discarded() {
    let chunk = vec![b'x'; MAX_DISCARDED_BYTES];
    let mut line = BoundedLine::new();

    assert_eq!(line.feed(&chunk, 0), MAX_DISCARDED_BYTES);
    assert!(line.is_truncated());
    assert!(!line.is_over());
    assert!(!line.is_exhausted());
    assert_eq!(line.feed(b"x", 0), 1);
    assert!(line.is_over());
    assert!(line.is_exhausted());
}

#[test]
fn bytes_that_are_no_text_are_replaced() {
    let mut line = BoundedLine::new();

    line.feed(b" \xffa\xfe \n", 64);

    assert_eq!(line.text(), "\u{fffd}a\u{fffd}");
}

#[test]
fn a_blank_line_closes_the_connection() {
    let mut blank = BoundedLine::new();
    blank.feed(b"  \n", 64);
    let mut request = BoundedLine::new();
    request.feed(b" {} \n", 64);
    let mut large = BoundedLine::new();
    large.feed(b"{}\n", 1);

    assert_eq!(incoming(&BoundedLine::new()), Incoming::Close);
    assert_eq!(incoming(&blank), Incoming::Close);
    assert_eq!(incoming(&request), Incoming::Request("{}".to_string()));
    assert_eq!(
        incoming(&large),
        Incoming::Refuse(Response::Error {
            message: "Request too large: at most 65536 bytes are accepted".to_string()
        })
    );
}

#[test]
fn an_unreadable_request_is_answered_with_the_cause() {
    assert_eq!(
        unreadable_request("expected value at line 1 column 1"),
        Response::Error {
            message: "Failed to parse request: expected value at line 1 column 1".to_string()
        }
    );
}

#[test]
fn a_running_daemon_keeps_its_socket() {
    let path = "/run/nsticky/cli.sock";

    let error = claim_socket(path, true, Takeover::Refuse).unwrap_err();
    assert_eq!(
        error.message(),
        "Another nsticky daemon is already running on \"/run/nsticky/cli.sock\". Restart that \
         one, or use `nsticky --replace` to take the socket over."
    );
    assert!(claim_socket(path, true, Takeover::Replace).is_ok());
    assert!(claim_socket(path, false, Takeover::Refuse).is_ok());
    assert!(claim_socket(path, false, Takeover::Replace).is_ok());
}

#[test]
fn an_activation_without_focus_is_followed_by_nothing() {
    let event = NiriEvent::WorkspaceActivated { id: 9, focused: false };

    assert!(operation_for(event).is_none());
}
