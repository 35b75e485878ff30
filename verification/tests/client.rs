//! The compositor's interface: requests, replies and attempts.
use nsticky::action::{Action, Reply};
use nsticky::error::Error;
use nsticky::json::{Json, Message, Number};
use nsticky::niri::client::{
    active_window_id, active_workspace_id, answer, build_move_window_action, messages,
    parse_windows, parse_workspaces, read_reply, socket_path, Attempt, Next,
};
use nsticky::niri::{Position, Size, WindowInfo};
use serde_json::Value;

/// A JSON text as the library's value.
fn json(text: &str) -> Json {
    convert(serde_json::from_str(text).unwrap())
}

fn convert(value: Value) -> Json {
    match value {
        Value::Null => Json::Null,
        Value::Bool(b) => Json::Boolean(b),
        Value::Number(n) => Json::Number(Number {
            unsigned: n.as_u64(),
            bits: n.as_f64().unwrap().to_bits(),
            whole: n.as_f64().unwrap() as i32,
        }),
        Value::String(text) => Json::Text(text),
        Value::Array(items) => Json::List(items.into_iter().map(convert).collect()),
        Value::Object(entries) => {
            Json::Object(entries.into_iter().map(|(key, value)| (key, convert(value))).collect())
        }
    }
}

/// A request as `serde_json` writes it.
fn value(message: &Message) -> Value {
    match message {
        Message::Boolean(b) => Value::Bool(*b),
        Message::Unsigned(n) => Value::from(*n),
        Message::Integer(n) => Value::from(*n),
        Message::Double(bits) => Value::from(f64::from_bits(*bits)),
        Message::Text(text) => Value::String(text.clone()),
        Message::List(items) => Value::Array(items.iter().map(value).collect()),
        Message::Object(entries) => {
            Value::Object(entries.iter().map(|(key, entry)| (key.clone(), value(entry))).collect())
        }
    }
}

fn parsed(text: &str) -> Value {
    serde_json::from_str(text).unwrap()
}

fn position(x: f64, y: f64) -> Position {
    Position { x: x.to_bits(), y: y.to_bits() }
}

fn percent(p: f64) -> Size {
    Size::Percent(p.to_bits())
}

fn requests(actions: &[Action]) -> Vec<Value> {
    actions.iter().flat_map(|action| messages(action)).map(|message| value(&message)).collect()
}

/// A request against a compositor that answers each attempt with one of these
/// lines (empty: it closes the connection). Returns the result and the number
/// of attempts.
fn request(replies: &[&str]) -> (Result<Json, Error>, usize) {
    let mut unanswered = 0;
    loop {
        let line = replies[unanswered.min(replies.len() - 1)];
        let attempt = Attempt::received(Ok(line.to_string()));
        match attempt.next(unanswered) {
            Next::Retry => unanswered += 1,
            Next::Finish(result) => return (result, unanswered + 1),
        }
    }
}

#[test]
fn test_build_move_window_action_by_id() {
    let action = build_move_window_action(42, 7);
    let expected = parsed(r#"{ "Action": { "MoveWindowToWorkspace": { "window_id": 42, "focus": false, "reference": { "Id": 7 } } } }"#);
    assert_eq!(value(&action), expected);
}

#[test]
fn test_parse_windows_ignores_entries_without_an_id() {
    let payload = json(r#"{"Windows": [ {"id": 4, "app_id": "zen", "title": "Inbox", "workspace_id": 10}, {"title": "no id"}, {"id": 5, "app_id": null, "title": null, "workspace_id": null} ]}"#);

    let windows = parse_windows(&payload).unwrap();
    assert_eq!(windows.len(), 2);
    assert_eq!(
        windows[0],
        WindowInfo {
            id: 4,
            app_id: Some("zen".to_string()),
            title: Some("Inbox".to_string()),
            workspace_id: Some(10),
            floating: false,
            size: None,
            position: None,
        }
    );
    assert_eq!(windows[1].app_id, None);
    assert_eq!(windows[1].workspace_id, None);
}

#[test]
fn test_parse_windows_reads_geometry() {
    let payload = json(r#"{"Windows": [ {"id": 4, "app_id": "foot", "is_floating": true, "layout": {"window_size": [1100.0, 480.0], "tile_pos_in_workspace_view": [730.0, 94.0]}} ]}"#);

    let windows = parse_windows(&payload).unwrap();
    assert_eq!(windows[0].size, Some((1100, 480)));
    assert_eq!(windows[0].position, Some(position(730.0, 94.0)));
}

/// A window whose geometry cannot be read must end up with `None`, and a
/// window whose `id` cannot be read must be dropped: inventing a size or an
/// id is how a window manager starts moving the wrong window.
#[test]
fn test_parse_windows_keeps_unreadable_fields_at_none() {
    let payload = json(r#"{"Windows": [ {"id": 1}, {"id": 2, "app_id": 7, "title": ["x"], "workspace_id": "9", "is_floating": "yes"}, {"id": 3, "layout": "nope"}, {"id": 4, "layout": {}}, {"id": 5, "layout": {"window_size": "1100x480"}}, {"id": 6, "layout": {"window_size": [1100]}}, {"id": 7, "layout": {"window_size": [1100, "480"]}}, {"id": 8, "layout": {"window_size": [1100, 480], "tile_pos_in_workspace_view": [1.0]}}, {"id": 9, "layout": {"tile_pos_in_workspace_view": "1,2"}}, {"id": 10, "app_id": "foot", "workspace_id": 4, "is_floating": true, "layout": {"window_size": [1100, 480], "tile_pos_in_workspace_view": [1.0, 2.0]}}, {"id": "11", "app_id": "dropped"} ]}"#);

    let windows = parse_windows(&payload).unwrap();
    assert_eq!(
        windows.len(),
        10,
        "a window without a numeric id is dropped"
    );

    for window in &windows[..7] {
        assert_eq!(window.size, None, "window {} invented a size", window.id);
        assert_eq!(
            window.position, None,
            "window {} invented a position",
            window.id
        );
        assert!(!window.floating, "window {} invented floating", window.id);
    }
    // A size that reads fine must survive a position that does not.
    assert_eq!(windows[7].size, Some((1100, 480)));
    assert_eq!(windows[7].position, None);
    for window in &windows[7..9] {
        assert_eq!(
            window.position, None,
            "window {} invented a position",
            window.id
        );
    }
    assert_eq!(windows[8].size, None);
    assert_eq!(windows[1].app_id, None, "a non-string app_id is not copied");
    assert_eq!(windows[1].title, None);
    assert_eq!(windows[1].workspace_id, None);
    assert_eq!(windows[1].size, None);

    // Integer sizes and positions are accepted like the floats niri sends.
    assert_eq!(windows[9].size, Some((1100, 480)));
    assert_eq!(windows[9].position, Some(position(1.0, 2.0)));
    assert!(windows[9].floating);
    assert_eq!(windows[9].workspace_id, Some(4));
}

#[test]
fn test_parse_windows_rejects_an_unexpected_payload() {
    for payload in [
        json(r#"{}"#),
        json(r#"{"Windows": "nope"}"#),
        json(r#"{"Windows": {}}"#),
        json(r#"{"Windows": null}"#),
    ] {
        let error = parse_windows(&payload).unwrap_err();
        assert!(
            error
                .message()
                .contains("Windows field not found or not an array"),
            "{payload:?} -> {error:?}"
        );
    }
}

#[test]
fn test_parse_workspaces_rejects_an_unexpected_payload() {
    for payload in [
        json(r#"{}"#),
        json(r#"{"Workspaces": 3}"#),
        json(r#"{"Workspaces": {}}"#),
    ] {
        let error = parse_workspaces(&payload).unwrap_err();
        assert!(
            error
                .message()
                .contains("Workspaces field not found or not an array"),
            "{payload:?} -> {error:?}"
        );
    }
}

#[test]
fn test_parse_workspaces_defaults_and_drops() {
    let payload = json(r#"{"Workspaces": [ {"id": 3, "idx": 9, "name": null, "output": null, "is_active": "yes"}, {"id": 4, "idx": "3", "name": "stage", "output": "DP-1", "is_active": true}, {"name": "no id"}, {"id": "5", "name": "wrong id type"} ]}"#);

    let workspaces = parse_workspaces(&payload).unwrap();
    assert_eq!(
        workspaces.len(),
        2,
        "a workspace without a numeric id is dropped"
    );
    assert_eq!(workspaces[0].idx, 9);
    assert_eq!(workspaces[0].name, None);
    assert_eq!(workspaces[0].output, None, "a null output stays none");
    assert!(!workspaces[0].is_active, "a non-boolean is_active is false");
    assert_eq!(workspaces[1].idx, 0, "an unreadable idx falls back to 0");
    assert_eq!(workspaces[1].name.as_deref(), Some("stage"));
    assert_eq!(workspaces[1].output.as_deref(), Some("DP-1"));
}

#[test]
fn test_parse_workspaces_and_active_one() {
    let payload = json(r#"{"Workspaces": [ {"id": 3, "name": null, "is_active": false}, {"id": 4, "name": "main", "is_active": true} ]}"#);

    let workspaces = parse_workspaces(&payload).unwrap();
    assert_eq!(workspaces.len(), 2);
    assert_eq!(workspaces[1].name.as_deref(), Some("main"));
    assert!(workspaces[1].is_active);
    assert_eq!(active_workspace_id(&payload).unwrap(), 4);
}

#[test]
fn test_active_workspace_requires_an_active_workspace() {
    let payload = json(r#"{"Workspaces": [{"id": 3, "is_active": false}]}"#);
    let error = active_workspace_id(&payload).unwrap_err();
    assert!(
        error.message().contains("Active workspace not found"),
        "{error:?}"
    );

    // The active workspace without an id is dropped, so there is none left.
    assert!(active_workspace_id(&json(r#"{"Workspaces": [{"is_active": true}]}"#)).is_err());
    assert!(active_workspace_id(&json(r#"{}"#)).is_err());
}

#[test]
fn test_active_window_id() {
    assert_eq!(
        active_window_id(&json(r#"{"FocusedWindow": {"id": 7}}"#)).unwrap(),
        7
    );
    // No focused window (niri reports null) is an error, not a panic.
    assert!(active_window_id(&json(r#"{"FocusedWindow": null}"#)).is_err());
    assert!(active_window_id(&json(r#"{}"#)).is_err());
    assert!(active_window_id(&json(r#"{"FocusedWindow": {"id": "7"}}"#)).is_err());
    assert!(active_window_id(&json(r#"{"FocusedWindow": {"id": -1}}"#)).is_err());
}

#[test]
fn test_missing_socket_env_is_reported() {
    let error = socket_path(None).unwrap_err();
    assert!(
        error.message().contains("NIRI_SOCKET env var not set"),
        "{error:?}"
    );
}

#[test]
fn test_actions_send_the_exact_json_the_compositor_sees() {
    let sent = requests(&[
        Action::MoveWindow { window_id: 42, workspace_id: 7 },
        Action::NameWorkspace { name: "stage".to_string(), workspace_id: 7 },
        Action::UnnameWorkspace { workspace_id: 7 },
        Action::Spawn {
            command: vec!["foot".to_string(), "-e".to_string(), "htop".to_string()],
        },
        Action::FocusWindow { window_id: 11 },
        Action::FloatWindow { window_id: 11 },
        Action::MoveFloatingWindow { window_id: 11, position: position(100.0, 200.0) },
        Action::MoveWorkspaceToIndex { workspace_id: 7, index: 3 },
        Action::ResizeWindow {
            window_id: 11,
            width: Some(Size::Fixed(1200)),
            height: Some(percent(60.0)),
        },
    ]);
    let expected = vec![
        parsed(r#"{"Action": {"MoveWindowToWorkspace": {"window_id": 42, "focus": false, "reference": {"Id": 7}}}}"#),
        parsed(r#"{"Action": {"SetWorkspaceName": {"name": "stage", "workspace": {"Id": 7}}}}"#),
        parsed(r#"{"Action": {"UnsetWorkspaceName": {"reference": {"Id": 7}}}}"#),
        parsed(r#"{"Action": {"Spawn": {"command": ["foot", "-e", "htop"]}}}"#),
        parsed(r#"{"Action": {"FocusWindow": {"id": 11}}}"#),
        parsed(r#"{"Action": {"MoveWindowToFloating": {"id": 11}}}"#),
        parsed(r#"{"Action": {"MoveFloatingWindow": {"id": 11, "x": {"SetFixed": 100.0}, "y": {"SetFixed": 200.0}}}}"#),
        // By id, never by name or index: nsticky must not depend on the
        // workspace being declared in niri's configuration.
        parsed(r#"{"Action": {"MoveWorkspaceToIndex": {"index": 3, "reference": {"Id": 7}}}}"#),
        parsed(r#"{"Action": {"SetWindowWidth": {"id": 11, "change": {"SetFixed": 1200}}}}"#),
        parsed(r#"{"Action": {"SetWindowHeight": {"id": 11, "change": {"SetProportion": 60.0}}}}"#),
    ];
    assert_eq!(sent, expected);
    assert_eq!(
        serde_json::to_string(&sent[0]).unwrap(),
        r#"{"Action":{"MoveWindowToWorkspace":{"focus":false,"reference":{"Id":7},"window_id":42}}}"#
    );
}

#[test]
fn test_resize_sends_only_the_sizes_it_was_given() {
    let resize = |width: Option<Size>, height: Option<Size>| {
        requests(&[Action::ResizeWindow { window_id: 11, width, height }])
    };
    assert!(
        resize(None, None).is_empty(),
        "a size that was not given must not be sent as a default"
    );
    assert_eq!(
        resize(Some(Size::Fixed(900)), None),
        vec![parsed(r#"{"Action": {"SetWindowWidth": {"id": 11, "change": {"SetFixed": 900}}}}"#)]
    );
    assert_eq!(
        resize(None, Some(percent(50.0))),
        vec![parsed(r#"{"Action": {"SetWindowHeight": {"id": 11, "change": {"SetProportion": 50.0}}}}"#)]
    );
}

#[test]
fn test_queries_ask_for_what_they_parse() {
    let ask = |action: Action, line: &str| {
        let sent = requests(std::slice::from_ref(&action));
        (sent, answer(&action, &read_reply(line).unwrap()))
    };

    let (sent, reply) = ask(Action::Windows, r#"{"Ok":{"Windows":[{"id":4,"app_id":"zen"}]}}"#);
    assert_eq!(sent, vec![parsed(r#""Windows""#)]);
    match reply {
        Reply::Windows(windows) => {
            assert_eq!(windows.len(), 1);
            assert_eq!(windows[0].id, 4);
        }
        other => panic!("unexpected reply: {other:?}"),
    }

    let workspaces =
        r#"{"Ok":{"Workspaces":[{"id":3,"is_active":false},{"id":4,"is_active":true}]}}"#;
    let (sent, reply) = ask(Action::Workspaces, workspaces);
    assert_eq!(sent, vec![parsed(r#""Workspaces""#)]);
    assert!(matches!(reply, Reply::Workspaces(list) if list.len() == 2));

    let (sent, reply) = ask(Action::ActiveWorkspace, workspaces);
    assert_eq!(sent, vec![parsed(r#""Workspaces""#)]);
    assert_eq!(reply, Reply::Id(4));

    let (sent, reply) = ask(Action::ActiveWindow, r#"{"Ok":{"FocusedWindow":{"id":9}}}"#);
    assert_eq!(sent, vec![parsed(r#""FocusedWindow""#)]);
    assert_eq!(reply, Reply::Id(9));
}

#[test]
fn test_a_null_payload_fails_in_the_parser_not_in_the_client() {
    let payload = read_reply(r#"{"Ok":null}"#).unwrap();
    match answer(&Action::Windows, &payload) {
        Reply::Failed(error) => {
            assert_eq!(error.message(), "Windows field not found or not an array");
        }
        other => panic!("unexpected reply: {other:?}"),
    }
}

#[test]
fn test_a_lost_reply_is_retried_on_a_fresh_connection() {
    let (result, attempts) = request(&["", r#"{"Ok":{"Windows":[]}}"#]);
    assert!(parse_windows(&result.unwrap()).unwrap().is_empty());
    assert_eq!(attempts, 2);
}

#[test]
fn test_errors_from_the_compositor_are_reported() {
    let (result, _) = request(&[r#"{"Err":"no such window"}"#]);
    assert_eq!(result.unwrap_err().render(), r#"Niri IPC error: "no such window""#);
}

#[test]
fn test_a_compositor_that_never_answers_is_an_error_after_one_retry() {
    let (result, attempts) = request(&[""]);
    assert_eq!(
        result.unwrap_err().render(),
        "Niri did not answer: Niri closed the connection without answering"
    );
    assert_eq!(attempts, 2, "one attempt plus one retry, then give up");
}

#[test]
fn test_compositor_errors_are_not_retried() {
    let (result, attempts) = request(&[r#"{"Err":"no such window"}"#]);
    assert!(result.is_err());
    assert_eq!(attempts, 1, "a verdict from the compositor is final");
}

#[test]
fn test_a_reply_that_is_not_json_is_an_error_not_a_lost_one() {
    for raw in ["this is not json\n", "\n", "{\n"] {
        let (result, attempts) = request(&[raw]);
        let message = result.unwrap_err().render();
        assert!(message.contains("line 1"), "{raw:?} -> {message}");
        assert!(
            !message.contains("did not answer"),
            "{raw:?} must not look like a lost reply: {message}"
        );
        assert_eq!(attempts, 1, "{raw:?} must not be retried");
    }
}

#[test]
fn test_a_reply_that_is_neither_ok_nor_err_is_rejected() {
    for raw in [r#"{"SomethingElse": 1}"#, "[1, 2]", r#""handled""#] {
        let (result, attempts) = request(&[raw]);
        assert_eq!(
            result.unwrap_err().message(),
            format!("Unexpected Niri reply format: {raw}")
        );
        assert_eq!(attempts, 1, "{raw} must not be retried");
    }
}

#[test]
fn a_request_that_could_not_be_sent_is_repeated_once() {
    let cause = || Error::new("broken pipe");
    assert!(matches!(Attempt::unsent(cause()).next(0), Next::Retry));
    match Attempt::unsent(cause()).next(1) {
        Next::Finish(Err(error)) => assert_eq!(
            error.render(),
            "Niri did not answer: Failed to send the request to Niri: broken pipe"
        ),
        other => panic!("unexpected step: {other:?}"),
    }
    // A connection that breaks while the reply is read may have been a verdict.
    match Attempt::received(Err(cause())).next(0) {
        Next::Finish(Err(error)) => assert_eq!(error.render(), "broken pipe"),
        other => panic!("unexpected step: {other:?}"),
    }
}

#[test]
fn an_index_keeps_its_lowest_byte() {
    let payload = json(r#"{"Workspaces": [{"id": 1, "idx": 258}]}"#);
    assert_eq!(parse_workspaces(&payload).unwrap()[0].idx, 2);
}

#[test]
fn a_socket_of_the_environment_is_taken_as_it_is() {
    assert_eq!(socket_path(Some("/run/niri.sock".to_string())).unwrap(), "/run/niri.sock");
}

#[test]
fn actions_of_the_daemon_itself_ask_nothing_of_the_compositor() {
    assert!(messages(&Action::LoadState).is_empty());
    assert!(messages(&Action::ReadConfig).is_empty());
    assert_eq!(answer(&Action::FocusWindow { window_id: 1 }, &Json::Null), Reply::Done);
}
