//! Scratchpads: windows that toggle between parked and shown.
use vstd::prelude::*;
use vstd::string::*;
use super::{ended, facts_of, find_window, paused, ran, window_with, BusinessLogic, LogicModel, Run};
use super::parking::{
    ask_geometry, ask_parking, ask_release, capture_geometry, check_window, ensure_window_exists,
    parking_workspace_for, saved, Geometry,
};
use crate::action::{
    ask_active_window, ask_active_workspace, ask_done, ask_windows, heard, position_in, Action,
    ActionModel, Conv, Conversation, Heard, Reply,
};
use crate::config::{
    niri_size, pad_matches, pad_named, pad_names, PadModel, Scratchpad, WindowFacts,
};
use crate::error::{copy_texts, failure, Chain, Error, Outcome};
use crate::lists;
use crate::niri::{Position, Size, WindowInfo, WindowModel};
use crate::state_store::RecordModel;
use crate::text;

verus! {

/// Something is asked for whose refusal is of no consequence.
pub open spec fn ask_anyway(talk: Conv, action: ActionModel) -> Heard<()> {
    let doing = ask_done(talk, action);
    Heard {
        talk: doing.talk,
        out: if doing.out is None {
            None
        } else {
            Some(())
        },
    }
}

/// A window shown by a scratchpad floats, unless the scratchpad says otherwise.
pub open spec fn ask_float(talk: Conv, pad: Option<PadModel>, id: u64) -> Heard<()> {
    if pad is None || pad->0.float {
        ask_anyway(talk, ActionModel::FloatWindow { window_id: id })
    } else {
        Heard { talk, out: Some(()) }
    }
}

/// The width a window comes back with: the remembered one, else the configured
/// one.
pub open spec fn shown_width(pad: Option<PadModel>, size: Option<(i32, i32)>) -> Option<Size> {
    match size {
        Some((width, _)) => Some(Size::Fixed(width)),
        None => match pad {
            Some(pad) => match pad.width {
                Some(width) => Some(niri_size(width)),
                None => None,
            },
            None => None,
        },
    }
}

/// The height a window comes back with.
pub open spec fn shown_height(pad: Option<PadModel>, size: Option<(i32, i32)>) -> Option<Size> {
    match size {
        Some((_, height)) => Some(Size::Fixed(height)),
        None => match pad {
            Some(pad) => match pad.height {
                Some(height) => Some(niri_size(height)),
                None => None,
            },
            None => None,
        },
    }
}

/// A window gets its size back, where there is one to give.
pub open spec fn ask_resize(
    talk: Conv,
    pad: Option<PadModel>,
    size: Option<(i32, i32)>,
    id: u64,
) -> Heard<()> {
    let width = shown_width(pad, size);
    let height = shown_height(pad, size);
    if width is Some || height is Some {
        ask_anyway(talk, ActionModel::ResizeWindow { window_id: id, width, height })
    } else {
        Heard { talk, out: Some(()) }
    }
}

/// Where a window is, if the compositor says so.
pub open spec fn position_of(windows: Seq<WindowModel>, id: u64) -> Option<Position> {
    match lists::find(windows, window_with(id)) {
        Some(w) => w.position,
        None => None,
    }
}

/// A window gets its position back. niri places floating windows relative to
/// the working area but reports them in workspace coordinates, so the window is
/// looked up again and moved once more by the difference, where there is one.
pub open spec fn ask_place(talk: Conv, position: Option<Position>, id: u64) -> Heard<()> {
    match position {
        None => Heard { talk, out: Some(()) },
        Some(wanted) => {
            let moving = ask_anyway(
                talk,
                ActionModel::MoveFloatingWindow { window_id: id, position: wanted },
            );
            match moving.out {
                None => moving,
                Some(()) => {
                    let windows = ask_windows(moving.talk);
                    match windows.out {
                        None => Heard { talk: windows.talk, out: None },
                        Some(Err(_)) => Heard { talk: windows.talk, out: Some(()) },
                        Some(Ok(ws)) => match position_of(ws, id) {
                            None => Heard { talk: windows.talk, out: Some(()) },
                            Some(actual) => ask_correct(windows.talk, wanted, actual, id),
                        },
                    }
                },
            }
        },
    }
}

/// The difference between where a window was to be and where it is is taken
/// back.
pub open spec fn ask_correct(talk: Conv, wanted: Position, actual: Position, id: u64) -> Heard<()> {
    let asked = talk.ask(ActionModel::CorrectPosition { wanted, actual });
    match talk.answer() {
        None => Heard { talk: asked, out: None },
        Some(reply) => match position_in(reply) {
            None => Heard { talk: asked, out: Some(()) },
            Some(position) => ask_anyway(
                asked,
                ActionModel::MoveFloatingWindow { window_id: id, position },
            ),
        },
    }
}

/// The window parked under a label comes back to the focused workspace:
/// floating, with the geometry it had, and focused. It stays parked where it
/// cannot be moved.
#[verifier::opaque]
pub open spec fn show_run(talk: Conv, logic: LogicModel, pad: Option<PadModel>, label: Seq<char>) -> Run<
    Outcome<()>,
> {
    let id = logic.state.pads[label].id;
    let workspace = ask_active_workspace(talk);
    match workspace.out {
        None => paused(workspace.talk, logic),
        Some(Err(e)) => ended(workspace.talk, logic, Err(e)),
        Some(Ok(workspace_id)) => {
            let moving = ask_done(
                workspace.talk,
                ActionModel::MoveWindow { window_id: id, workspace_id },
            );
            match moving.out {
                None => paused(moving.talk, logic),
                Some(Err(e)) => ended(moving.talk, logic, Err(e)),
                Some(Ok(())) => dress_run(
                    moving.talk,
                    logic.with(logic.state.unpark(label)),
                    pad,
                    logic.state.pads[label],
                ),
            }
        },
    }
}

/// A window that is back gets its looks and the focus.
pub open spec fn dress_run(
    talk: Conv,
    logic: LogicModel,
    pad: Option<PadModel>,
    record: RecordModel,
) -> Run<Outcome<()>> {
    let float = ask_float(talk, pad, record.id);
    match float.out {
        None => paused(float.talk, logic),
        Some(()) => {
            let resize = ask_resize(float.talk, pad, record.size, record.id);
            match resize.out {
                None => paused(resize.talk, logic),
                Some(()) => {
                    let place = ask_place(resize.talk, record.position, record.id);
                    match place.out {
                        None => paused(place.talk, logic),
                        Some(()) => focus_run(place.talk, logic, record.id),
                    }
                },
            }
        },
    }
}

/// A window gets the focus, and the scratchpad workspace is given back where it
/// is empty now, also where the window could not be focused.
pub open spec fn focus_run(talk: Conv, logic: LogicModel, id: u64) -> Run<Outcome<()>> {
    let focus = ask_done(talk, ActionModel::FocusWindow { window_id: id });
    match focus.out {
        None => paused(focus.talk, logic),
        Some(focused) => {
            let release = ask_release(
                focus.talk,
                logic.config,
                logic.state,
                logic.config.scratchpad_workspace,
            );
            match release.out {
                None => paused(release.talk, logic),
                Some(()) => saved(release.talk, logic, focused),
            }
        },
    }
}

/// A window is parked on the scratchpad workspace, remembering how it was. The
/// stage may have lost its last window to it. A window that cannot be parked
/// stays where it was.
#[verifier::opaque]
pub open spec fn park_run(talk: Conv, logic: LogicModel, label: Seq<char>, id: u64) -> Run<
    Outcome<()>,
> {
    let check = check_window(talk, id);
    match check.out {
        None => paused(check.talk, logic),
        Some(Err(e)) => ended(check.talk, logic, Err(e)),
        Some(Ok(())) => {
            let geometry = ask_geometry(check.talk, id);
            match geometry.out {
                None => paused(geometry.talk, logic),
                Some(shape) => {
                    let parking = ask_parking(
                        geometry.talk,
                        logic.config.scratchpad_workspace,
                        id,
                    );
                    match parking.out {
                        None => paused(parking.talk, logic),
                        Some(Err(e)) => ended(parking.talk, logic, Err(e)),
                        Some(Ok(workspace_id)) => move_to_pad_run(
                            parking.talk,
                            logic,
                            label,
                            id,
                            workspace_id,
                            shape,
                        ),
                    }
                },
            }
        },
    }
}

/// A window is moved to the scratchpad workspace.
pub open spec fn move_to_pad_run(
    talk: Conv,
    logic: LogicModel,
    label: Seq<char>,
    id: u64,
    workspace_id: u64,
    shape: Geometry,
) -> Run<Outcome<()>> {
    let moving = ask_done(talk, ActionModel::MoveWindow { window_id: id, workspace_id });
    match moving.out {
        None => paused(moving.talk, logic),
        Some(Err(e)) => ended(moving.talk, logic, Err(e)),
        Some(Ok(())) => {
            let parked = logic.with(logic.state.park(label, id, shape.0, shape.1));
            let release = ask_release(
                moving.talk,
                parked.config,
                parked.state,
                parked.config.stage_workspace,
            );
            match release.out {
                None => paused(release.talk, parked),
                Some(()) => saved(release.talk, parked, Ok(())),
            }
        },
    }
}

/// The error for a scratchpad that is not configured.
pub open spec fn unknown_pad(name: Seq<char>, known: Seq<Seq<char>>) -> Chain {
    if known.len() == 0 {
        failure("No [scratchpad."@ + name + "] is configured"@)
    } else {
        failure(
            "Unknown scratchpad "@ + text::quoted_text(name) + "; configured: "@ + text::joined(
                known,
                ", "@,
            ),
        )
    }
}

/// A window and the label of its scratchpad, in a message.
pub open spec fn pad_message(verb: Seq<char>, label: Seq<char>, id: u64) -> Seq<char> {
    verb + label + " ("@ + text::decimal(id as nat) + ")"@
}

/// The id of the window a scratchpad is for.
pub open spec fn pad_target(pad: PadModel) -> spec_fn(WindowModel) -> bool {
    |w: WindowModel| pad_matches(pad, facts_of(w))
}

/// The window a scratchpad parks: its own, or the focused one when it has none.
pub open spec fn ask_target(talk: Conv, pad: Option<PadModel>) -> Heard<Outcome<Option<u64>>> {
    match pad {
        Some(pad) if pad.matcher is Some => {
            let windows = ask_windows(talk);
            Heard {
                talk: windows.talk,
                out: match windows.out {
                    None => None,
                    Some(Err(e)) => Some(Err(e)),
                    Some(Ok(ws)) => Some(
                        Ok(
                            match lists::find(ws, pad_target(pad)) {
                                Some(w) => Some(w.id),
                                None => None,
                            },
                        ),
                    ),
                },
            }
        },
        _ => {
            let active = ask_active_window(talk);
            Heard {
                talk: active.talk,
                out: match active.out {
                    None => None,
                    Some(Err(e)) => Some(Err(e)),
                    Some(Ok(id)) => Some(Ok(Some(id))),
                },
            }
        },
    }
}

/// With nothing to show, the configured command is started.
pub open spec fn start_run(talk: Conv, logic: LogicModel, pad: Option<PadModel>, label: Seq<char>) -> Run<
    Outcome<Seq<char>>,
> {
    match pad {
        None => ended(talk, logic, Err(failure("No window is focused"@))),
        Some(pad) => match pad.spawn {
            None => ended(
                talk,
                logic,
                Err(
                    failure(
                        "Nothing matches scratchpad "@ + text::quoted_text(label)
                            + " and it has no `spawn` command configured"@,
                    ),
                ),
            ),
            Some(command) => {
                let spawning = ask_done(talk, ActionModel::Spawn { command });
                match spawning.out {
                    None => paused(spawning.talk, logic),
                    Some(Err(e)) => ended(spawning.talk, logic, Err(e)),
                    Some(Ok(())) => ended(
                        spawning.talk,
                        logic,
                        Ok("Starting "@ + label + " ("@ + text::joined(command, " "@) + ")"@),
                    ),
                }
            },
        },
    }
}

/// The same result with a message in place of nothing.
pub open spec fn worded(run: Run<Outcome<()>>, message: Seq<char>) -> Run<Outcome<Seq<char>>> {
    Run {
        talk: run.talk,
        logic: run.logic,
        out: match run.out {
            None => None,
            Some(Ok(())) => Some(Ok(message)),
            Some(Err(e)) => Some(Err(e)),
        },
    }
}

/// A scratchpad is toggled, once it is known which one.
pub open spec fn toggle_pad_run(
    talk: Conv,
    logic: LogicModel,
    pad: Option<PadModel>,
    label: Seq<char>,
) -> Run<Outcome<Seq<char>>> {
    if logic.state.pads.contains_key(label) {
        worded(
            show_run(talk, logic, pad, label),
            pad_message("Shown "@, label, logic.state.pads[label].id),
        )
    } else {
        let target = ask_target(talk, pad);
        match target.out {
            None => paused(target.talk, logic),
            Some(Err(e)) => ended(target.talk, logic, Err(e)),
            Some(Ok(Some(id))) => worded(
                park_run(target.talk, logic, label, id),
                pad_message("Hidden "@, label, id),
            ),
            Some(Ok(None)) => start_run(target.talk, logic, pad, label),
        }
    }
}

/// The label under which the focused window is parked.
pub open spec fn focused_label() -> Seq<char> {
    "focused"@
}

/// A scratchpad is toggled. A configured scratchpad toggles its own window; one
/// without matching fields, and no name at all, toggle whatever has focus.
#[verifier::opaque]
pub open spec fn scratchpad_run(talk: Conv, logic: LogicModel, name: Option<Seq<char>>) -> Run<
    Outcome<Seq<char>>,
> {
    match name {
        None => toggle_pad_run(talk, logic, None, focused_label()),
        Some(name) => match lists::find(logic.config.scratchpads, pad_named(name)) {
            None => ended(talk, logic, Err(unknown_pad(name, pad_names(logic.config)))),
            Some(pad) => toggle_pad_run(talk, logic, Some(pad), name),
        },
    }
}

fn ask_quietly(talk: &mut Conversation, action: Action) -> (r: Option<()>)
    ensures
        final(talk).deep_view() == ask_anyway(old(talk).deep_view(), action.deep_view()).talk,
        r == ask_anyway(old(talk).deep_view(), action.deep_view()).out,
{
    match talk.done(action) {
        None => None,
        Some(_) => Some(()),
    }
}

fn resize_shown(
    talk: &mut Conversation,
    pad: Option<&Scratchpad>,
    size: Option<(i32, i32)>,
    id: u64,
) -> (r: Option<()>)
    ensures
        final(talk).deep_view() == ask_resize(
            old(talk).deep_view(),
            pad.deep_view(),
            size,
            id,
        ).talk,
        r == ask_resize(old(talk).deep_view(), pad.deep_view(), size, id).out,
{
    // A remembered size wins over the configured one, so the window comes back
    // exactly as it was.
    let width: Option<Size> = match size {
        Some((width, _)) => Some(Size::Fixed(width)),
        None => match pad {
            Some(pad) => match &pad.width {
                Some(width) => Some(width.to_niri()),
                None => None,
            },
            None => None,
        },
    };
    let height: Option<Size> = match size {
        Some((_, height)) => Some(Size::Fixed(height)),
        None => match pad {
            Some(pad) => match &pad.height {
                Some(height) => Some(height.to_niri()),
                None => None,
            },
            None => None,
        },
    };
    if width.is_some() || height.is_some() {
        ask_quietly(talk, Action::ResizeWindow { window_id: id, width, height })
    } else {
        Some(())
    }
}

fn place_shown(talk: &mut Conversation, position: Option<Position>, id: u64) -> (r: Option<()>)
    ensures
        final(talk).deep_view() == ask_place(old(talk).deep_view(), position, id).talk,
        r == ask_place(old(talk).deep_view(), position, id).out,
{
    let wanted = match position {
        Some(wanted) => wanted,
        None => {
            return Some(());
        },
    };
    if ask_quietly(talk, Action::MoveFloatingWindow { window_id: id, position: wanted }).is_none() {
        return None;
    }
    let windows = match talk.windows() {
        None => {
            return None;
        },
        Some(Err(_)) => {
            return Some(());
        },
        Some(Ok(windows)) => windows,
    };
    let actual = match find_window(&windows, id) {
        Some(window) => match window.position {
            Some(actual) => actual,
            None => {
                return Some(());
            },
        },
        None => {
            return Some(());
        },
    };
    match talk.ask(Action::CorrectPosition { wanted, actual }) {
        None => None,
        Some(Reply::Position(Some(position))) => ask_quietly(
            talk,
            Action::MoveFloatingWindow { window_id: id, position },
        ),
        Some(_) => Some(()),
    }
}

fn find_target(talk: &mut Conversation, pad: Option<&Scratchpad>) -> (r: Option<
    Result<Option<u64>, Error>,
>)
    ensures
        final(talk).deep_view() == ask_target(old(talk).deep_view(), pad.deep_view()).talk,
        heard(r) == ask_target(old(talk).deep_view(), pad.deep_view()).out,
{
    if let Some(pad) = pad {
        if !pad.follows_focus() {
            return match talk.windows() {
                None => None,
                Some(Err(e)) => Some(Err(e)),
                Some(Ok(windows)) => Some(Ok(find_match(&windows, pad))),
            };
        }
    }
    match talk.active_window() {
        None => None,
        Some(Err(e)) => Some(Err(e)),
        Some(Ok(id)) => Some(Ok(Some(id))),
    }
}

fn find_match(windows: &Vec<WindowInfo>, pad: &Scratchpad) -> (r: Option<u64>)
    ensures
        r == (match lists::find(windows.deep_view(), pad_target(pad.deep_view())) {
            Some(w) => Some(w.id),
            None => None,
        }),
{
    let ghost all = windows.deep_view();
    let ghost p = pad_target(pad.deep_view());
    let mut i: usize = 0;
    proof {
        lists::find_start(all, p);
    }
    while i < windows.len()
        invariant
            i <= windows@.len(),
            all == windows.deep_view(),
            p == pad_target(pad.deep_view()),
            lists::find(all, p) == lists::find(all.skip(i as int), p),
        decreases windows.len() - i,
    {
        proof {
            lists::find_step(all, p, i as int);
        }
        let window = &windows[i];
        let facts = facts(window);
        if pad.matches(&facts) {
            return Some(window.id);
        }
        i = i + 1;
    }
    proof {
        lists::find_step(all, p, i as int);
    }
    None
}

/// What rules see of a window.
pub(crate) fn facts(window: &WindowInfo) -> (r: WindowFacts<'_>)
    ensures
        r.deep_view() == facts_of(window.deep_view()),
{
    WindowFacts {
        app_id: match &window.app_id {
            Some(app_id) => Some(app_id.as_str()),
            None => None,
        },
        title: match &window.title {
            Some(title) => Some(title.as_str()),
            None => None,
        },
        floating: window.floating,
    }
}

fn message_for(verb: &str, label: &str, id: u64) -> (r: String)
    ensures
        r@ == pad_message(verb@, label@, id),
{
    let mut message = verb.to_owned();
    message.append(label);
    message.append(" (");
    message.append(text::number(id).as_str());
    message.append(")");
    message
}

/// Start the configured command, if any.
fn start(talk: &mut Conversation, pad: Option<&Scratchpad>, label: &str) -> (r: Option<
    Result<String, Error>,
>)
    ensures
        forall|logic: LogicModel|
            {
                let run = #[trigger] start_run(
                    old(talk).deep_view(),
                    logic,
                    pad.deep_view(),
                    label@,
                );
                &&& final(talk).deep_view() == run.talk
                &&& heard(r) == run.out
                &&& run.logic == logic
            },
{
    let pad = match pad {
        Some(pad) => pad,
        None => {
            return Some(Err(Error::new("No window is focused")));
        },
    };
    let command = match &pad.spawn {
        Some(command) => command,
        None => {
            let mut message = "Nothing matches scratchpad ".to_owned();
            message.append(text::quoted(label).as_str());
            message.append(" and it has no `spawn` command configured");
            return Some(Err(Error::new(message.as_str())));
        },
    };
    match talk.done(Action::Spawn { command: copy_texts(command) }) {
        None => None,
        Some(Err(e)) => Some(Err(e)),
        Some(Ok(())) => {
            let mut message = "Starting ".to_owned();
            message.append(label);
            message.append(" (");
            let slice = command.as_slice();
            assert(slice.deep_view() =~= command.deep_view());
            message.append(text::join(slice, " ").as_str());
            message.append(")");
            Some(Ok(message))
        },
    }
}

impl BusinessLogic {
    /// Toggle a scratchpad.
    ///
    /// A configured scratchpad toggles its own window; one without matching
    /// fields, and no name at all, toggle whatever has focus. A second press
    /// brings back the window it parked, with its size and position; with
    /// nothing to show, the configured command is started.
    pub fn toggle_scratchpad(&mut self, talk: &mut Conversation, name: Option<&str>) -> (r: Option<
        Result<String, Error>,
    >)
        ensures
            ran(
                scratchpad_run(old(talk).deep_view(), old(self).deep_view(), name.deep_view()),
                *final(talk),
                *final(self),
                r,
            ),
    {
        proof {
            reveal(scratchpad_run);
        }
        let label: &str = match name {
            Some(name) => name,
            None => "focused",
        };
        let pad: Option<&Scratchpad> = match name {
            Some(name) => match self.config.scratchpad(name) {
                Some(pad) => Some(pad),
                None => {
                    return Some(Err(self.unknown_scratchpad(name)));
                },
            },
            None => None,
        };
        // A window this scratchpad parked before comes back, even when another
        // window has focus now: that is what makes it a toggle.
        if let Some(record) = self.state.scratchpad_slots.get(label) {
            let id: u64 = record.id;
            return match self.show_scratchpad(talk, name, label) {
                None => None,
                Some(Err(e)) => Some(Err(e)),
                Some(Ok(())) => Some(Ok(message_for("Shown ", label, id))),
            };
        }
        // Otherwise the configured window, or whatever is focused.
        match find_target(talk, pad) {
            None => None,
            Some(Err(e)) => Some(Err(e)),
            Some(Ok(Some(id))) => match self.hide_scratchpad(talk, label, id) {
                None => None,
                Some(Err(e)) => Some(Err(e)),
                Some(Ok(())) => Some(Ok(message_for("Hidden ", label, id))),
            },
            // Nothing to toggle: start the configured command, if any.
            Some(Ok(None)) => start(talk, pad, label),
        }
    }

    fn unknown_scratchpad(&self, name: &str) -> (r: Error)
        ensures
            r.deep_view() == unknown_pad(name@, pad_names(self.deep_view().config)),
    {
        let known = self.config.scratchpad_names();
        if known.len() == 0 {
            assert(known.deep_view().len() == 0);
            let mut message = "No [scratchpad.".to_owned();
            message.append(name);
            message.append("] is configured");
            return Error::new(message.as_str());
        }
        assert(known.deep_view().len() > 0);
        let mut message = "Unknown scratchpad ".to_owned();
        message.append(text::quoted(name).as_str());
        message.append("; configured: ");
        let slice = known.as_slice();
        assert(slice.deep_view() =~= known.deep_view());
        message.append(text::join(slice, ", ").as_str());
        Error::new(message.as_str())
    }

    /// Park a window on the scratchpad workspace, remembering how it was.
    ///
    /// A window parked on the stage by hand is taken over here: one window
    /// belongs to one parking area, and the stage would otherwise bring back a
    /// window the scratchpad owns.
    fn hide_scratchpad(&mut self, talk: &mut Conversation, label: &str, window_id: u64) -> (r:
        Option<Result<(), Error>>)
        ensures
            ran(
                park_run(old(talk).deep_view(), old(self).deep_view(), label@, window_id),
                *final(talk),
                *final(self),
                r,
            ),
    {
        proof {
            reveal(park_run);
        }
        match ensure_window_exists(talk, window_id) {
            None => {
                return None;
            },
            Some(Err(e)) => {
                return Some(Err(e));
            },
            Some(Ok(())) => {},
        }
        let shape = match capture_geometry(talk, window_id) {
            None => {
                return None;
            },
            Some(shape) => shape,
        };
        let workspace_id: u64 = match parking_workspace_for(
            talk,
            self.config.scratchpad_workspace(),
            window_id,
        ) {
            None => {
                return None;
            },
            Some(Err(e)) => {
                return Some(Err(e));
            },
            Some(Ok(id)) => id,
        };
        match talk.done(Action::MoveWindow { window_id, workspace_id }) {
            None => {
                return None;
            },
            Some(Err(e)) => {
                return Some(Err(e));
            },
            Some(Ok(())) => {},
        }
        self.state.park(label, window_id, shape.0, shape.1);
        // The stage may have lost its last window to this scratchpad.
        if self.release_parking_workspace(talk, self.config.stage_workspace()).is_none() {
            return None;
        }
        match self.persist(talk) {
            None => None,
            Some(()) => Some(Ok(())),
        }
    }

    /// Bring a parked window back to the focused workspace: floating, with the
    /// geometry it had, and focused.
    fn show_scratchpad(&mut self, talk: &mut Conversation, name: Option<&str>, label: &str) -> (r:
        Option<Result<(), Error>>)
        requires
            old(self).deep_view().state.pads.contains_key(label@),
        ensures
            ran(
                show_run(
                    old(talk).deep_view(),
                    old(self).deep_view(),
                    match name.deep_view() {
                        Some(name) => lists::find(
                            old(self).deep_view().config.scratchpads,
                            pad_named(name),
                        ),
                        None => None,
                    },
                    label@,
                ),
                *final(talk),
                *final(self),
                r,
            ),
    {
        proof {
            reveal(show_run);
        }
        let (window_id, size, position) = match self.state.scratchpad_slots.get(label) {
            Some(record) => (record.id, record.size, record.position),
            None => (0, None, None),
        };
        let workspace_id: u64 = match talk.active_workspace() {
            None => {
                return None;
            },
            Some(Err(e)) => {
                return Some(Err(e));
            },
            Some(Ok(id)) => id,
        };
        match talk.done(Action::MoveWindow { window_id, workspace_id }) {
            None => {
                return None;
            },
            Some(Err(e)) => {
                return Some(Err(e));
            },
            Some(Ok(())) => {},
        }
        self.state.unpark(label);
        let pad: Option<&Scratchpad> = match name {
            Some(name) => self.config.scratchpad(name),
            None => None,
        };
        let float = match pad {
            Some(pad) => pad.float,
            None => true,
        };
        if float {
            if ask_quietly(talk, Action::FloatWindow { window_id }).is_none() {
                return None;
            }
        }
        if resize_shown(talk, pad, size, window_id).is_none() {
            return None;
        }
        if place_shown(talk, position, window_id).is_none() {
            return None;
        }
        let focused = match talk.done(Action::FocusWindow { window_id }) {
            None => {
                return None;
            },
            Some(focused) => focused,
        };
        // The window is back, so the scratchpad workspace may be empty now.
        if self.release_parking_workspace(talk, self.config.scratchpad_workspace()).is_none() {
            return None;
        }
        match self.persist(talk) {
            None => None,
            Some(()) => Some(focused),
        }
    }
}

} // verus!
