//! The events of the compositor that matter here.
use vstd::prelude::*;
use crate::json::{bool_of, json_document, member, read_json, text_of, unsigned_of, Json, JsonModel};
use crate::text;

verus! {

/// Events the daemon reacts to.
#[derive(Debug, PartialEq, Eq)]
pub enum NiriEvent {
    WorkspaceActivated {
        id: u64,
        /// Whether this workspace also became focused. A workspace can become
        /// active on its output without taking focus, and only the focused one
        /// decides which workspace the user is looking at.
        focused: bool,
    },
    WindowOpenedOrChanged {
        id: u64,
        app_id: Option<String>,
        title: Option<String>,
        floating: bool,
    },
    WindowClosed { id: u64 },
    /// niri reloaded its configuration, so ours is read again too.
    ConfigLoaded { failed: bool },
    /// The workspace list changed: workspaces were added, removed, renamed or
    /// moved. Also arrives as the initial snapshot when the stream opens.
    ///
    /// The payload is not kept: a handler asks the compositor for the current
    /// layout, since a payload can be stale by the time it is handled.
    WorkspacesChanged,
}

/// [`NiriEvent`] as a mathematical value.
pub enum EventModel {
    WorkspaceActivated { id: u64, focused: bool },
    WindowOpenedOrChanged {
        id: u64,
        app_id: Option<Seq<char>>,
        title: Option<Seq<char>>,
        floating: bool,
    },
    WindowClosed { id: u64 },
    ConfigLoaded { failed: bool },
    WorkspacesChanged,
}

impl DeepView for NiriEvent {
    type V = EventModel;

    open spec fn deep_view(&self) -> EventModel {
        match *self {
            NiriEvent::WorkspaceActivated { id, focused } => EventModel::WorkspaceActivated {
                id,
                focused,
            },
            NiriEvent::WindowOpenedOrChanged { id, app_id, title, floating } =>
                EventModel::WindowOpenedOrChanged {
                id,
                app_id: app_id.deep_view(),
                title: title.deep_view(),
                floating,
            },
            NiriEvent::WindowClosed { id } => EventModel::WindowClosed { id },
            NiriEvent::ConfigLoaded { failed } => EventModel::ConfigLoaded { failed },
            NiriEvent::WorkspacesChanged => EventModel::WorkspacesChanged,
        }
    }
}

/// A workspace became active. A compositor that does not say whether it is
/// focused means that it is.
pub open spec fn activation_in(payload: JsonModel) -> Option<EventModel> {
    match unsigned_of(member(payload, "id"@)) {
        Some(id) => Some(
            EventModel::WorkspaceActivated {
                id,
                focused: bool_of(member(payload, "focused"@)) != Some(false),
            },
        ),
        None => None,
    }
}

/// A window opened or changed.
pub open spec fn window_in(payload: JsonModel) -> Option<EventModel> {
    match member(payload, "window"@) {
        None => None,
        Some(window) => match unsigned_of(member(window, "id"@)) {
            None => None,
            Some(id) => Some(
                EventModel::WindowOpenedOrChanged {
                    id,
                    app_id: text_of(member(window, "app_id"@)),
                    title: text_of(member(window, "title"@)),
                    floating: bool_of(member(window, "is_floating"@)) == Some(true),
                },
            ),
        },
    }
}

/// The event a value describes, if it is one that matters. A payload that
/// cannot be read is passed over.
pub open spec fn event_of(value: JsonModel) -> Option<EventModel> {
    if member(value, "WorkspaceActivated"@) is Some {
        activation_in(member(value, "WorkspaceActivated"@)->0)
    } else if member(value, "WindowOpenedOrChanged"@) is Some {
        window_in(member(value, "WindowOpenedOrChanged"@)->0)
    } else if member(value, "WorkspacesChanged"@) is Some {
        Some(EventModel::WorkspacesChanged)
    } else if member(value, "ConfigLoaded"@) is Some {
        Some(
            EventModel::ConfigLoaded {
                failed: bool_of(member(member(value, "ConfigLoaded"@)->0, "failed"@)) == Some(true),
            },
        )
    } else if member(value, "WindowClosed"@) is Some {
        match unsigned_of(member(member(value, "WindowClosed"@)->0, "id"@)) {
            Some(id) => Some(EventModel::WindowClosed { id }),
            None => None,
        }
    } else {
        None
    }
}

/// The event in one line of the stream, if there is one that matters.
pub open spec fn event_in(line: Seq<char>) -> Option<EventModel> {
    if text::trimmed(line).len() == 0 {
        None
    } else {
        match json_document(text::trimmed(line)) {
            Ok(value) => event_of(value),
            Err(_) => None,
        }
    }
}

/// The event a value describes, if it is one that matters.
pub fn parse_niri_event(value: &Json) -> (r: Option<NiriEvent>)
    ensures
        r.deep_view() == event_of(value.deep_view()),
{
    if let Some(activated) = value.get("WorkspaceActivated") {
        return match activated.unsigned_at("id") {
            // A compositor without the flag counts as focused, as before it existed.
            Some(id) => Some(
                NiriEvent::WorkspaceActivated {
                    id,
                    focused: match activated.bool_at("focused") {
                        Some(focused) => focused,
                        None => true,
                    },
                },
            ),
            None => None,
        };
    }
    if let Some(changed) = value.get("WindowOpenedOrChanged") {
        return match changed.get("window") {
            None => None,
            Some(window) => match window.unsigned_at("id") {
                None => None,
                Some(id) => Some(
                    NiriEvent::WindowOpenedOrChanged {
                        id,
                        app_id: window.text_at("app_id"),
                        title: window.text_at("title"),
                        floating: match window.bool_at("is_floating") {
                            Some(floating) => floating,
                            None => false,
                        },
                    },
                ),
            },
        };
    }
    if value.get("WorkspacesChanged").is_some() {
        return Some(NiriEvent::WorkspacesChanged);
    }
    if let Some(loaded) = value.get("ConfigLoaded") {
        let failed = match loaded.bool_at("failed") {
            Some(failed) => failed,
            None => false,
        };
        return Some(NiriEvent::ConfigLoaded { failed });
    }
    if let Some(closed) = value.get("WindowClosed") {
        return match closed.unsigned_at("id") {
            Some(id) => Some(NiriEvent::WindowClosed { id }),
            None => None,
        };
    }
    None
}

/// The event in one line of the stream. Blank lines, lines that are no JSON and
/// unrelated events are skipped.
pub fn parse_event_line(line: &str) -> (r: Option<NiriEvent>)
    ensures
        r.deep_view() == event_in(line@),
{
    let trimmed = text::trim(line);
    if trimmed.is_empty() {
        return None;
    }
    match read_json(trimmed) {
        Ok(value) => parse_niri_event(&value),
        Err(_) => None,
    }
}

} // verus!
