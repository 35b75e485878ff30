//! Socket paths, answers and what the program was started as.
use nsticky::daemon::{parse_invocation, Invocation, Takeover};
use nsticky::error::Error;
use nsticky::protocol::{socket_path_in, Response};

#[test]
fn test_socket_path_follows_xdg_runtime_dir() {
    assert_eq!(socket_path_in(Some("/run/user/1000")), "/run/user/1000/nsticky/cli.sock");
}

#[test]
fn test_socket_path_falls_back_when_xdg_runtime_dir_is_missing_or_empty() {
    // An empty value is what a script that forgot to export the variable
    // leaves behind; joining it would give a relative path under the
    // daemon's working directory.
    assert_eq!(socket_path_in(None), "/tmp/niri_sticky_cli.sock");
    assert_eq!(socket_path_in(Some("")), "/tmp/niri_sticky_cli.sock");
}

#[test]
fn test_socket_path_keeps_a_relative_runtime_dir_relative() {
    assert_eq!(socket_path_in(Some("run")), "run/nsticky/cli.sock");
}

#[test]
fn test_error_renders_the_whole_context_chain() {
    let error =
        Error::new("No such file or directory").context("Failed to get active workspace ID");
    assert_eq!(
        Response::error(&error),
        Response::Error {
            message: "Failed to get active workspace ID: No such file or directory".to_string()
        }
    );
}

#[test]
fn responses_hold_what_they_were_made_from() {
    assert_eq!(Response::success("Added"), Response::Success { message: "Added".to_string() });
    assert_eq!(Response::data("[1,2]"), Response::Data { data: "[1,2]".to_string() });
    assert_eq!(
        Response::error(&Error::new("boom")),
        Response::Error { message: "boom".to_string() }
    );
}

#[test]
fn an_error_shows_its_outermost_message_first() {
    let error = Error::new("cause").context("doing").context("whole");
    assert_eq!(error.message(), "whole");
    assert_eq!(error.render(), "whole: doing: cause");
}

#[test]
fn test_no_argument_starts_the_daemon() {
    assert_eq!(parse_invocation(None), Invocation::Daemon(Takeover::Refuse));
}

#[test]
fn test_replace_starts_the_daemon_in_takeover_mode() {
    assert_eq!(parse_invocation(Some("--replace")), Invocation::Daemon(Takeover::Replace));
}

#[test]
fn test_any_other_argument_goes_to_the_cli() {
    for argument in ["sticky", "list", "--version", "--", "", "-h", "--replace-now"] {
        assert_eq!(parse_invocation(Some(argument)), Invocation::Cli, "{argument:?}");
    }
}
