//! The events of the compositor, from their JSON.
use nsticky::json::{Json, Number};
use nsticky::niri::events::{parse_event_line, parse_niri_event, NiriEvent};
use serde_json::Value;

/// A JSON text as the library's value.
fn json(text: &str) -> Json {
    convert(serde_json::from_str(text).unwrap())
}

fn convert(value: Value) -> Json {
    match value {
        Value::Null => Json::Null,
        Value::Bool(b) => Json::Boolean(b),
        Value::Number(n) => Json::Number(Number {
            unsigned: n.as_u64(),
            bits: n.as_f64().unwrap().to_bits(),
            whole: n.as_f64().unwrap() as i32,
        }),
        Value::String(text) => Json::Text(text),
        Value::Array(items) => Json::List(items.into_iter().map(convert).collect()),
        Value::Object(entries) => {
            Json::Object(entries.into_iter().map(|(key, value)| (key, convert(value))).collect())
        }
    }
}

#[test]
fn test_parse_workspace_activated() {
    let event =
        parse_niri_event(&json(r#"{ "WorkspaceActivated": { "id": 3, "focused": true } }"#));
    assert!(matches!(
        event,
        Some(NiriEvent::WorkspaceActivated {
            id: 3,
            focused: true
        })
    ));

    let event =
        parse_niri_event(&json(r#"{ "WorkspaceActivated": { "id": 4, "focused": false } }"#));
    assert!(matches!(
        event,
        Some(NiriEvent::WorkspaceActivated {
            id: 4,
            focused: false
        })
    ));

    // Without the flag, the activation counts as focused, as before it existed.
    let event = parse_niri_event(&json(r#"{ "WorkspaceActivated": { "id": 5 } }"#));
    assert!(matches!(
        event,
        Some(NiriEvent::WorkspaceActivated {
            id: 5,
            focused: true
        })
    ));
}

#[test]
fn test_parse_window_opened_or_changed() {
    let event = parse_niri_event(&json(r#"{ "WindowOpenedOrChanged": { "window": { "id": 7, "app_id": "firefox", "title": "Inbox" } } }"#));
    match event {
        Some(NiriEvent::WindowOpenedOrChanged {
            id,
            app_id,
            title,
            floating,
        }) => {
            assert_eq!(id, 7);
            assert_eq!(app_id.as_deref(), Some("firefox"));
            assert_eq!(title.as_deref(), Some("Inbox"));
            assert!(!floating, "is_floating was absent");
        }
        other => panic!("unexpected event: {other:?}"),
    }

    let event = parse_niri_event(&json(r#"{ "WindowOpenedOrChanged": { "window": { "id": 8, "app_id": "mpv", "is_floating": true } } }"#));
    match event {
        Some(NiriEvent::WindowOpenedOrChanged { floating, .. }) => assert!(floating),
        other => panic!("unexpected event: {other:?}"),
    }
}

#[test]
fn test_parse_window_closed() {
    let event = parse_niri_event(&json(r#"{ "WindowClosed": { "id": 9 } }"#));
    assert!(matches!(event, Some(NiriEvent::WindowClosed { id: 9 })));
}

#[test]
fn test_parse_workspaces_changed() {
    // The payload is ignored: nsticky asks for the current layout instead.
    let event = parse_niri_event(&json(r#"{ "WorkspacesChanged": { "workspaces": [ {"id": 1, "idx": 1, "name": null, "output": "DP-1", "is_active": true} ] } }"#));

    assert!(matches!(event, Some(NiriEvent::WorkspacesChanged)));
}

#[test]
fn test_parse_config_loaded() {
    let event = parse_niri_event(&json(r#"{ "ConfigLoaded": { "failed": true } }"#));
    assert!(matches!(
        event,
        Some(NiriEvent::ConfigLoaded { failed: true })
    ));
}

#[test]
fn test_parse_ignores_unrelated_events() {
    assert!(parse_niri_event(&json(r#"{ "WorkspaceActiveWindowChanged": {} }"#)).is_none());
    assert!(parse_niri_event(&json(r#"{}"#)).is_none());
    // Malformed payloads for a known event are ignored, not fatal.
    assert!(parse_niri_event(&json(r#"{ "WorkspaceActivated": {} }"#)).is_none());
}

#[test]
fn test_parse_tolerates_unknown_events_and_fields() {
    // niri adds events and fields over time; neither may stop the stream.
    assert!(parse_niri_event(&json(r#"{ "SomeFutureEvent": { "x": 1 } }"#)).is_none());
    assert!(matches!(
        parse_niri_event(&json(r#"{ "ConfigLoaded": { "failed": null, "extra": 2 } }"#)),
        Some(NiriEvent::ConfigLoaded { failed: false })
    ));
    assert!(matches!(
        parse_niri_event(&json(r#"{ "ConfigLoaded": {} }"#)),
        Some(NiriEvent::ConfigLoaded { failed: false })
    ));

    // A known event whose payload cannot be read is skipped, not fatal.
    assert!(parse_niri_event(&json(r#"{ "WindowClosed": {} }"#)).is_none());
    assert!(parse_niri_event(&json(r#"{ "WindowClosed": { "id": "9" } }"#)).is_none());
    assert!(parse_niri_event(&json(r#"{ "WindowOpenedOrChanged": { "window": {} } }"#)).is_none());
    assert!(
        parse_niri_event(&json(r#"{ "WindowOpenedOrChanged": { "window": { "id": "7" } } }"#))
            .is_none()
    );
}

/// What a stream of these lines brings.
fn events(lines: &[&str]) -> Vec<NiriEvent> {
    lines.iter().filter_map(|line| parse_event_line(line)).collect()
}

#[test]
fn test_the_stream_skips_the_handshake_and_unrelated_events() {
    let seen = events(&[
        r#"{"Ok":"Handled"}"#,
        r#"{"KeyboardLayoutsChanged":{"keyboard_layouts":{"names":["us"]}}}"#,
        r#"{"OverviewOpenedOrClosed":{"is_open":false}}"#,
        r#"{"WindowFocusChanged":{"id":12}}"#,
        r#"{"WorkspaceActivated":{"id":3,"focused":true,"is_urgent":false}}"#,
    ]);
    assert_eq!(seen, vec![NiriEvent::WorkspaceActivated { id: 3, focused: true }]);
}

#[test]
fn test_next_event_skips_lines_it_cannot_parse() {
    let seen = events(&[
        "",
        "not json at all",
        r#"{"WorkspaceActivated":{}}"#,
        r#"{"WindowOpenedOrChanged":{}}"#,
        r#"{"WindowOpenedOrChanged":{"window":{}}}"#,
        r#"{"WindowClosed":{"id":"9"}}"#,
        r#"{"WindowClosed":{"id":9}}"#,
    ]);
    assert_eq!(seen, vec![NiriEvent::WindowClosed { id: 9 }]);
}

#[test]
fn test_window_opened_or_changed_tolerates_null_fields() {
    let seen = events(&[
        r#"{"WindowOpenedOrChanged":{"window":{"id":7,"app_id":null,"title":null,"workspace_id":null,"is_floating":null}}}"#,
    ]);
    assert_eq!(
        seen,
        vec![NiriEvent::WindowOpenedOrChanged {
            id: 7,
            app_id: None,
            title: None,
            floating: false,
        }]
    );
}

#[test]
fn test_config_loaded_and_workspaces_changed_arrive_through_the_stream() {
    let seen = events(&[
        r#"{"ConfigLoaded":{"failed":"yes"}}"#,
        r#"{"ConfigLoaded":{"failed":true}}"#,
        r#"{"WorkspacesChanged":{"workspaces":[{"id":1,"idx":1,"name":null,"output":"DP-1","is_active":true}]}}"#,
        r#"{"WorkspaceActivated":{"id":1}}"#,
    ]);
    assert_eq!(
        seen,
        vec![
            NiriEvent::ConfigLoaded { failed: false },
            NiriEvent::ConfigLoaded { failed: true },
            NiriEvent::WorkspacesChanged,
            NiriEvent::WorkspaceActivated { id: 1, focused: true },
        ]
    );
}

#[test]
fn test_a_refused_handshake_is_swallowed_by_the_stream() {
    assert!(events(&[r#"{"Err":"unknown request"}"#]).is_empty());
}

#[test]
fn white_space_around_a_line_does_not_matter() {
    assert_eq!(
        events(&["  {\"WindowClosed\":{\"id\":18446744073709551615}}\r\n", " \t "]),
        vec![NiriEvent::WindowClosed { id: u64::MAX }]
    );
}
