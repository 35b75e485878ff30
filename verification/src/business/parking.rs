//! The parking areas: finding them, naming them and giving them back.
use vstd::prelude::*;
use vstd::string::*;
use super::{
    asked, find_window, has_window, occupied, occupied_by, output_of_window, window_output,
    window_with, BusinessLogic, LogicModel, Run,
};
use crate::action::{
    ask_done, ask_windows, ask_workspaces, Action, ActionModel, Conv, Conversation, Heard,
};
use crate::config::ConfigModel;
use crate::error::{failure, in_context, outcome, Error, Outcome};
use crate::lists;
use crate::niri::{Position, WindowInfo, WindowModel, WorkspaceInfo, WorkspaceModel};
use crate::pinning::{active_pair, bottom_free, named, Layout};
use crate::state::{RecordMap, StateModel};
use crate::state_store::{same_state, same_stored, StoredModel};
use crate::text;

verus! {

/// The window is looked for.
pub open spec fn check_window(talk: Conv, id: u64) -> Heard<Outcome<()>> {
    let windows = ask_windows(talk);
    Heard {
        talk: windows.talk,
        out: match windows.out {
            None => None,
            Some(Err(e)) => Some(Err(e)),
            Some(Ok(ws)) => if has_window(ws, id) {
                Some(Ok(()))
            } else {
                Some(Err(failure("Window not found in Niri"@)))
            },
        },
    }
}

/// Reject window ids the compositor does not know about.
pub(crate) fn ensure_window_exists(talk: &mut Conversation, id: u64) -> (r: Option<
    Result<(), Error>,
>)
    ensures
        asked(check_window(old(talk).deep_view(), id), *final(talk), r),
{
    match talk.windows() {
        None => None,
        Some(Err(e)) => Some(Err(e)),
        Some(Ok(windows)) => {
            if find_window(&windows, id).is_some() {
                Some(Ok(()))
            } else {
                Some(Err(Error::new("Window not found in Niri")))
            }
        },
    }
}

/// Size and position of a window.
pub type Geometry = (Option<(i32, i32)>, Option<Position>);

/// The geometry to put a window back with. Only a floating window has a
/// position, and only its size is worth restoring.
pub open spec fn geometry_in(windows: Seq<WindowModel>, id: u64) -> Geometry {
    match lists::find(windows, window_with(id)) {
        Some(w) => if w.floating {
            (w.size, w.position)
        } else {
            (None, None)
        },
        None => (None, None),
    }
}

/// The geometry of a window is looked up; a list of windows that cannot be read
/// leaves it unknown.
pub open spec fn ask_geometry(talk: Conv, id: u64) -> Heard<Geometry> {
    let windows = ask_windows(talk);
    Heard {
        talk: windows.talk,
        out: match windows.out {
            None => None,
            Some(Err(_)) => Some((None, None)),
            Some(Ok(ws)) => Some(geometry_in(ws, id)),
        },
    }
}

pub(crate) fn capture_geometry(talk: &mut Conversation, id: u64) -> (r: Option<Geometry>)
    ensures
        final(talk).deep_view() == ask_geometry(old(talk).deep_view(), id).talk,
        r == ask_geometry(old(talk).deep_view(), id).out,
{
    match talk.windows() {
        None => None,
        Some(Err(_)) => Some((None, None)),
        Some(Ok(windows)) => match find_window(&windows, id) {
            Some(window) => {
                if window.floating {
                    Some((window.size, window.position))
                } else {
                    Some((None, None))
                }
            },
            None => Some((None, None)),
        },
    }
}

/// The output a window is parked on: the one it is on, or that of the first
/// active workspace when it has none.
pub open spec fn parking_output(
    windows: Seq<WindowModel>,
    layout: Seq<WorkspaceModel>,
    id: u64,
) -> Option<Seq<char>> {
    match window_output(windows, layout, id) {
        Some(output) => Some(output),
        None => {
            let active = layout.filter_map(active_pair());
            if active.len() > 0 {
                Some(active[0].0)
            } else {
                None
            }
        },
    }
}

/// The workspace to turn into a parking area.
pub open spec fn parking_target(
    windows: Seq<WindowModel>,
    layout: Seq<WorkspaceModel>,
    name: Seq<char>,
    id: u64,
) -> Outcome<u64> {
    match parking_output(windows, layout, id) {
        None => Err(
            failure(
                "No output available to create the "@ + text::quoted_text(name)
                    + " workspace on"@,
            ),
        ),
        Some(output) => match bottom_free(layout, output, occupied_by(windows)) {
            Some(w) => Ok(w.id),
            None => Err(
                failure(
                    "No empty workspace on "@ + output + " to turn into "@ + text::quoted_text(
                        name,
                    ),
                ),
            ),
        },
    }
}

/// The workspace windows are parked on is looked up, and created if needed.
pub open spec fn ask_parking(talk: Conv, name: Seq<char>, id: u64) -> Heard<Outcome<u64>> {
    let workspaces = ask_workspaces(talk);
    match workspaces.out {
        None => Heard { talk: workspaces.talk, out: None },
        Some(Err(e)) => Heard { talk: workspaces.talk, out: Some(Err(e)) },
        Some(Ok(layout)) => match lists::find(layout, named(name)) {
            Some(w) => Heard { talk: workspaces.talk, out: Some(Ok(w.id)) },
            None => {
                let windows = ask_windows(workspaces.talk);
                match windows.out {
                    None => Heard { talk: windows.talk, out: None },
                    Some(Err(e)) => Heard { talk: windows.talk, out: Some(Err(e)) },
                    Some(Ok(ws)) => match parking_target(ws, layout, name, id) {
                        Err(e) => Heard { talk: windows.talk, out: Some(Err(e)) },
                        Ok(target) => ask_name(windows.talk, name, target),
                    },
                }
            },
        },
    }
}

/// A workspace is given the name of a parking area.
pub open spec fn ask_name(talk: Conv, name: Seq<char>, target: u64) -> Heard<Outcome<u64>> {
    let naming = ask_done(talk, ActionModel::NameWorkspace { name, workspace_id: target });
    Heard {
        talk: naming.talk,
        out: match naming.out {
            None => None,
            Some(Ok(())) => Some(Ok(target)),
            Some(Err(e)) => Some(
                Err(
                    in_context(
                        "Failed to name workspace "@ + text::decimal(target as nat) + " as "@
                            + text::quoted_text(name),
                        e,
                    ),
                ),
            ),
        },
    }
}

pub(crate) fn find_named(workspaces: &Vec<WorkspaceInfo>, name: &str) -> (r: Option<u64>)
    ensures
        r == (match lists::find(workspaces.deep_view(), named(name@)) {
            Some(w) => Some(w.id),
            None => None,
        }),
{
    let ghost all = workspaces.deep_view();
    let ghost p = named(name@);
    let mut i: usize = 0;
    proof {
        lists::find_start(all, p);
    }
    while i < workspaces.len()
        invariant
            i <= workspaces@.len(),
            all == workspaces.deep_view(),
            p == named(name@),
            lists::find(all, p) == lists::find(all.skip(i as int), p),
        decreases workspaces.len() - i,
    {
        proof {
            lists::find_step(all, p, i as int);
        }
        if let Some(found) = &workspaces[i].name {
            if text::same(found.as_str(), name) {
                return Some(workspaces[i].id);
            }
        }
        i = i + 1;
    }
    proof {
        lists::find_step(all, p, i as int);
    }
    None
}

fn find_parking_target(windows: &Vec<WindowInfo>, layout: &Layout, name: &str, id: u64) -> (r:
    Result<u64, Error>)
    ensures
        outcome(r) == parking_target(windows.deep_view(), layout.deep_view(), name@, id),
{
    let output: String = match output_of_window(windows, layout, id) {
        Some(output) => output.to_owned(),
        None => {
            let active = layout.active_workspace_of_outputs();
            if active.len() == 0 {
                assert(active.deep_view().len() == 0);
                let mut message = "No output available to create the ".to_owned();
                message.append(text::quoted(name).as_str());
                message.append(" workspace on");
                return Err(Error::new(message.as_str()));
            }
            assert(active.deep_view()[0].0 == active@[0].0@);
            active[0].0.clone()
        },
    };
    let busy = occupied(windows);
    match layout.bottom_empty_workspace(output.as_str(), &busy) {
        Some(target) => Ok(target),
        None => {
            let mut message = "No empty workspace on ".to_owned();
            message.append(output.as_str());
            message.append(" to turn into ");
            message.append(text::quoted(name).as_str());
            Err(Error::new(message.as_str()))
        },
    }
}

/// Workspace id parked windows belong on, creating it if needed.
///
/// niri has no hidden workspaces, and a named one never disappears on its
/// own: declaring it in niri's config makes it permanent and shifts the
/// dynamic workspace indices. So a parking area is only named while
/// something is parked on it: take the empty workspace at the bottom of the
/// window's output (the tail niri keeps anyway, so nothing appears in the
/// middle of the strip), name it, and give the name back when the last
/// window leaves.
pub(crate) fn parking_workspace_for(talk: &mut Conversation, name: &str, id: u64) -> (r: Option<
    Result<u64, Error>,
>)
    ensures
        asked(ask_parking(old(talk).deep_view(), name@, id), *final(talk), r),
{
    let workspaces = match talk.workspaces() {
        None => {
            return None;
        },
        Some(Err(e)) => {
            return Some(Err(e));
        },
        Some(Ok(workspaces)) => workspaces,
    };
    if let Some(existing) = find_named(&workspaces, name) {
        return Some(Ok(existing));
    }
    let windows = match talk.windows() {
        None => {
            return None;
        },
        Some(Err(e)) => {
            return Some(Err(e));
        },
        Some(Ok(windows)) => windows,
    };
    let layout = Layout::new(workspaces);
    let target = match find_parking_target(&windows, &layout, name, id) {
        Ok(target) => target,
        Err(e) => {
            return Some(Err(e));
        },
    };
    match talk.done(Action::NameWorkspace { name: name.to_owned(), workspace_id: target }) {
        None => None,
        Some(Ok(())) => Some(Ok(target)),
        Some(Err(e)) => {
            let mut doing = "Failed to name workspace ".to_owned();
            doing.append(text::number(target).as_str());
            doing.append(" as ");
            doing.append(text::quoted(name).as_str());
            Some(Err(e.context(doing.as_str())))
        },
    }
}

/// Whether a parking area may lose its name: nothing is parked on it, and it is
/// not the stage where that is to be kept.
pub open spec fn is_releasable(config: ConfigModel, state: StateModel, name: Seq<char>) -> bool {
    if name == config.stage_workspace {
        !config.stage_keep_workspace && state.staged == Map::<u64, crate::state::StagedModel>::empty()
    } else {
        state.pads == RecordMap::empty()
    }
}

/// A parking area is given back when nothing is parked on it. What the
/// compositor says to that is of no consequence.
pub open spec fn ask_release(
    talk: Conv,
    config: ConfigModel,
    state: StateModel,
    name: Seq<char>,
) -> Heard<()> {
    if !is_releasable(config, state, name) {
        Heard { talk, out: Some(()) }
    } else {
        let workspaces = ask_workspaces(talk);
        match workspaces.out {
            None => Heard { talk: workspaces.talk, out: None },
            Some(Err(_)) => Heard { talk: workspaces.talk, out: Some(()) },
            Some(Ok(layout)) => match lists::find(layout, named(name)) {
                None => Heard { talk: workspaces.talk, out: Some(()) },
                Some(w) => {
                    let unnaming = ask_done(
                        workspaces.talk,
                        ActionModel::UnnameWorkspace { workspace_id: w.id },
                    );
                    Heard {
                        talk: unnaming.talk,
                        out: if unnaming.out is None {
                            None
                        } else {
                            Some(())
                        },
                    }
                },
            },
        }
    }
}

/// What was saved last is stored like this.
pub open spec fn is_stored(persisted: Option<StoredModel>, snapshot: StoredModel) -> bool {
    persisted matches Some(stored) && same_stored(stored, snapshot)
}

/// The state is saved when it is not what was saved last. A failure to save
/// lets a later change try again.
pub open spec fn ask_persist(talk: Conv, logic: LogicModel) -> Run<()> {
    let snapshot = logic.state.snapshot();
    if is_stored(logic.persisted, snapshot) {
        super::ended(talk, logic, ())
    } else {
        let saving = ask_done(talk, ActionModel::SaveState { state: snapshot });
        match saving.out {
            None => super::paused(saving.talk, logic),
            Some(Ok(())) => super::ended(
                saving.talk,
                LogicModel { persisted: Some(snapshot), ..logic },
                (),
            ),
            Some(Err(_)) => super::ended(saving.talk, LogicModel { persisted: None, ..logic }, ()),
        }
    }
}

/// An operation is over, and what it changed is saved.
pub open spec fn saved<T>(talk: Conv, logic: LogicModel, out: T) -> Run<T> {
    let saving = ask_persist(talk, logic);
    Run {
        talk: saving.talk,
        logic: saving.logic,
        out: if saving.out is None {
            None
        } else {
            Some(out)
        },
    }
}

impl BusinessLogic {
    /// Give a parking workspace its freedom back when nothing is parked on it.
    ///
    /// The stage respects `stage-keep-workspace`; the scratchpad is always
    /// released when its window is back, since a spot holding one window has no
    /// reason to stay in the strip.
    pub(crate) fn release_parking_workspace(&self, talk: &mut Conversation, name: &str) -> (r:
        Option<()>)
        ensures
            final(talk).deep_view() == ask_release(
                old(talk).deep_view(),
                self.deep_view().config,
                self.deep_view().state,
                name@,
            ).talk,
            r == ask_release(
                old(talk).deep_view(),
                self.deep_view().config,
                self.deep_view().state,
                name@,
            ).out,
    {
        if text::same(name, self.config.stage_workspace()) {
            if self.config.stage_keep_workspace() || !self.state.staged_windows.is_empty() {
                return Some(());
            }
        } else if !self.state.scratchpad_slots.is_empty() {
            return Some(());
        }
        let workspaces = match talk.workspaces() {
            None => {
                return None;
            },
            Some(Err(_)) => {
                return Some(());
            },
            Some(Ok(workspaces)) => workspaces,
        };
        match find_named(&workspaces, name) {
            None => Some(()),
            Some(workspace_id) => match talk.done(Action::UnnameWorkspace { workspace_id }) {
                None => None,
                Some(_) => Some(()),
            },
        }
    }

    /// Persist the current state, skipping writes when nothing changed. A
    /// failure to persist is never fatal: window management keeps working on a
    /// read-only or full filesystem.
    pub(crate) fn persist(&mut self, talk: &mut Conversation) -> (r: Option<()>)
        ensures
            final(talk).deep_view() == ask_persist(
                old(talk).deep_view(),
                old(self).deep_view(),
            ).talk,
            r == ask_persist(old(talk).deep_view(), old(self).deep_view()).out,
            final(self).deep_view() == ask_persist(
                old(talk).deep_view(),
                old(self).deep_view(),
            ).logic,
    {
        let snapshot = self.state.snapshot();
        if let Some(persisted) = &self.persisted {
            if same_state(persisted, &snapshot) {
                return Some(());
            }
        }
        match talk.done(Action::SaveState { state: snapshot.clone() }) {
            None => None,
            Some(Ok(())) => {
                self.persisted = Some(snapshot);
                Some(())
            },
            Some(Err(_)) => {
                self.persisted = None;
                Some(())
            },
        }
    }
}

} // verus!
