//! The sticky list: adding, removing and toggling windows.
use vstd::prelude::*;
use vstd::string::*;
use super::{
    default_pin, default_pin_for, ended, existing, existing_ids, find_window, has_window,
    id_by_appid, id_by_title, ids_by_appid, ids_by_title, paused, ran, BatchModel, BatchOutcome,
    BusinessLogic, LogicModel, Run,
};
use super::parking::{check_window, ensure_window_exists};
use super::stage::released_run;
use crate::action::{
    ask_active_window, ask_active_workspace, ask_done, ask_windows, ask_workspaces, Action,
    ActionModel, Conv, Conversation, Heard,
};
use crate::error::{failure, outcome, Chain, Error, Outcome};
use crate::niri::{WindowInfo, WindowModel, WorkspaceModel};
use crate::pinning::Layout;
use crate::state::{is_parked, Pin, StagedModel, StateModel};
use crate::tables::sorted_ids;

verus! {

/// The window is staged, or parked by a scratchpad: it does not become sticky.
pub open spec fn is_elsewhere(state: StateModel, id: u64) -> bool {
    state.staged.contains_key(id) || is_parked(state.pads, id)
}

/// A window is made sticky, with a pin of its own, unless it is staged or parked
/// by a scratchpad; the result says whether it was added.
pub open spec fn stick_run(talk: Conv, logic: LogicModel, id: u64, pin: Pin) -> Run<Outcome<bool>> {
    if is_elsewhere(logic.state, id) {
        ended(talk, logic, Ok(false))
    } else {
        ended(
            talk,
            logic.with(logic.state.stick(id, pin)),
            Ok(!logic.state.sticky.contains_key(id)),
        )
    }
}

/// What is said of a window that is to be made sticky while it is parked.
pub open spec fn parked_failure() -> Chain {
    failure("Window is parked by a scratchpad, cannot add to sticky"@)
}

/// A window the compositor has is made sticky, pinned as the configuration
/// says. One that is staged stays there; one that a scratchpad parked is
/// refused.
#[verifier::opaque]
pub open spec fn add_run(talk: Conv, logic: LogicModel, id: u64) -> Run<Outcome<bool>> {
    let windows = ask_windows(talk);
    match windows.out {
        None => paused(windows.talk, logic),
        Some(Err(e)) => ended(windows.talk, logic, Err(e)),
        Some(Ok(ws)) => if !has_window(ws, id) {
            ended(windows.talk, logic, Err(failure("Window not found in Niri"@)))
        } else {
            let workspaces = ask_workspaces(windows.talk);
            match workspaces.out {
                None => paused(workspaces.talk, logic),
                Some(Err(e)) => ended(workspaces.talk, logic, Err(e)),
                Some(Ok(layout)) => if !logic.state.staged.contains_key(id) && is_parked(
                    logic.state.pads,
                    id,
                ) {
                    ended(workspaces.talk, logic, Err(parked_failure()))
                } else {
                    stick_run(
                        workspaces.talk,
                        logic,
                        id,
                        default_pin(logic.config.sticky_follow, ws, layout, id),
                    )
                },
            }
        },
    }
}

/// A window the compositor has is taken off the sticky list; the result says
/// whether it was on it. A staged window is refused.
#[verifier::opaque]
pub open spec fn remove_run(talk: Conv, logic: LogicModel, id: u64) -> Run<Outcome<bool>> {
    let check = check_window(talk, id);
    match check.out {
        None => paused(check.talk, logic),
        Some(Err(e)) => ended(check.talk, logic, Err(e)),
        Some(Ok(())) => if logic.state.staged.contains_key(id) {
            ended(
                check.talk,
                logic,
                Err(failure("Window is in stage, cannot remove from sticky"@)),
            )
        } else {
            ended(
                check.talk,
                logic.with(logic.state.unstick(id)),
                Ok(logic.state.sticky.contains_key(id)),
            )
        },
    }
}

/// The sticky windows that still exist, smallest id first.
#[verifier::opaque]
pub open spec fn list_run(talk: Conv, logic: LogicModel) -> Run<Outcome<Seq<u64>>> {
    let windows = ask_windows(talk);
    match windows.out {
        None => paused(windows.talk, logic),
        Some(Err(e)) => ended(windows.talk, logic, Err(e)),
        Some(Ok(ws)) => ended(
            windows.talk,
            logic,
            Ok(sorted_ids(logic.state.sticky.dom()).filter_map(existing(ws))),
        ),
    }
}

/// The focused window is toggled: a staged window moves back to the active
/// workspace and becomes sticky; otherwise the sticky state is flipped. The
/// result says whether it ended up sticky. A window that a scratchpad parked is
/// refused.
#[verifier::opaque]
pub open spec fn toggle_active_run(talk: Conv, logic: LogicModel) -> Run<Outcome<bool>> {
    let active = ask_active_window(talk);
    match active.out {
        None => paused(active.talk, logic),
        Some(Err(e)) => ended(active.talk, logic, Err(e)),
        Some(Ok(id)) => {
            let windows = ask_windows(active.talk);
            match windows.out {
                None => paused(windows.talk, logic),
                Some(Err(e)) => ended(windows.talk, logic, Err(e)),
                Some(Ok(ws)) => if !has_window(ws, id) {
                    ended(windows.talk, logic, Err(failure("Active window not found in Niri"@)))
                } else if logic.state.staged.contains_key(id) {
                    bring_back_run(windows.talk, logic, id)
                } else if logic.state.sticky.contains_key(id) {
                    ended(windows.talk, logic.with(logic.state.unstick(id)), Ok(false))
                } else {
                    add_run(windows.talk, logic, id)
                },
            }
        },
    }
}

/// A staged window moves to the active workspace and becomes sticky, with the
/// pin the stage remembers. The stage is given back where it was the last one.
pub open spec fn bring_back_run(talk: Conv, logic: LogicModel, id: u64) -> Run<Outcome<bool>> {
    let workspace = ask_active_workspace(talk);
    match workspace.out {
        None => paused(workspace.talk, logic),
        Some(Err(e)) => ended(workspace.talk, logic, Err(e)),
        Some(Ok(workspace_id)) => {
            let moving = ask_done(
                workspace.talk,
                ActionModel::MoveWindow { window_id: id, workspace_id },
            );
            match moving.out {
                None => paused(moving.talk, logic),
                Some(Err(e)) => ended(moving.talk, logic, Err(e)),
                Some(Ok(())) => released_run(
                    moving.talk,
                    logic.with(logic.state.bring_back(id)),
                    logic.config.stage_workspace,
                    Ok(true),
                ),
            }
        },
    }
}

/// A window that is not staged is toggled; one that a scratchpad parked is left
/// alone.
pub open spec fn flipped(state: StateModel, id: u64, pin: Pin) -> StateModel {
    if is_parked(state.pads, id) {
        state
    } else if state.sticky.contains_key(id) {
        state.unstick(id)
    } else {
        state.stick(id, pin)
    }
}

/// Each window is toggled: a staged one comes back, a sticky one is not sticky
/// any more, any other becomes sticky. One that a scratchpad parked is left
/// alone, and counts as failed.
pub open spec fn toggle_each_run(
    talk: Conv,
    logic: LogicModel,
    ids: Seq<u64>,
    workspace_id: u64,
    windows: Seq<WindowModel>,
    layout: Seq<WorkspaceModel>,
    done: BatchModel,
) -> Run<Outcome<BatchModel>>
    decreases ids.len(),
{
    if ids.len() == 0 {
        ended(talk, logic, Ok(done))
    } else {
        let id = ids[0];
        let rest = ids.drop_first();
        if logic.state.staged.contains_key(id) {
            let moving = ask_done(talk, ActionModel::MoveWindow { window_id: id, workspace_id });
            match moving.out {
                None => paused(moving.talk, logic),
                Some(Err(_)) => toggle_each_run(
                    moving.talk,
                    logic,
                    rest,
                    workspace_id,
                    windows,
                    layout,
                    done.failure(id),
                ),
                Some(Ok(())) => toggle_each_run(
                    moving.talk,
                    logic.with(logic.state.unstage(id)),
                    rest,
                    workspace_id,
                    windows,
                    layout,
                    done.success(id),
                ),
            }
        } else {
            let pin = default_pin(logic.config.sticky_follow, windows, layout, id);
            toggle_each_run(
                talk,
                logic.with(flipped(logic.state, id, pin)),
                rest,
                workspace_id,
                windows,
                layout,
                if is_parked(logic.state.pads, id) {
                    done.failure(id)
                } else {
                    done.success(id)
                },
            )
        }
    }
}

/// Windows were toggled, and the stage is given back where it was in use before
/// and is not any more.
pub open spec fn emptied_run(logic: LogicModel, toggled: Run<Outcome<BatchModel>>) -> Run<
    Outcome<BatchModel>,
> {
    match toggled.out {
        None => toggled,
        Some(done) => if logic.state.staged == Map::<u64, StagedModel>::empty() {
            toggled
        } else {
            released_run(
                toggled.talk,
                toggled.logic,
                toggled.logic.config.stage_workspace,
                done,
            )
        },
    }
}

/// Several windows are toggled. The stage is given back where the last window
/// left it.
pub open spec fn toggle_run(talk: Conv, logic: LogicModel, ids: Seq<u64>) -> Run<
    Outcome<BatchModel>,
> {
    let workspace = ask_active_workspace(talk);
    match workspace.out {
        None => paused(workspace.talk, logic),
        Some(Err(e)) => ended(workspace.talk, logic, Err(e)),
        Some(Ok(workspace_id)) => {
            let windows = ask_windows(workspace.talk);
            match windows.out {
                None => paused(windows.talk, logic),
                Some(Err(e)) => ended(windows.talk, logic, Err(e)),
                Some(Ok(ws)) => {
                    let workspaces = ask_workspaces(windows.talk);
                    match workspaces.out {
                        None => paused(workspaces.talk, logic),
                        Some(Err(e)) => ended(workspaces.talk, logic, Err(e)),
                        Some(Ok(layout)) => emptied_run(
                            logic,
                            toggle_each_run(
                                workspaces.talk,
                                logic,
                                ids,
                                workspace_id,
                                ws,
                                layout,
                                BatchModel::empty(),
                            ),
                        ),
                    }
                },
            }
        },
    }
}

/// The windows some property selects, or the error that there are none.
pub open spec fn select(
    talk: Conv,
    which: spec_fn(WindowModel) -> Option<u64>,
    none: Seq<char>,
) -> Heard<Outcome<Seq<u64>>> {
    let windows = ask_windows(talk);
    Heard {
        talk: windows.talk,
        out: match windows.out {
            None => None,
            Some(Err(e)) => Some(Err(e)),
            Some(Ok(ws)) => if ws.filter_map(which).len() == 0 {
                Some(Err(failure(none)))
            } else {
                Some(Ok(ws.filter_map(which)))
            },
        },
    }
}

/// The windows with this exact app id.
pub open spec fn select_appid(talk: Conv, appid: Seq<char>) -> Heard<Outcome<Seq<u64>>> {
    select(talk, id_by_appid(appid), "No window found with appid "@ + appid)
}

/// The windows whose title contains this.
pub open spec fn select_title(talk: Conv, title: Seq<char>) -> Heard<Outcome<Seq<u64>>> {
    select(talk, id_by_title(title), "No window found with title "@ + title)
}

/// What is selected is toggled.
#[verifier::opaque]
pub open spec fn toggle_selected_run(logic: LogicModel, selected: Heard<Outcome<Seq<u64>>>) -> Run<
    Outcome<BatchModel>,
> {
    match selected.out {
        None => paused(selected.talk, logic),
        Some(Err(e)) => ended(selected.talk, logic, Err(e)),
        Some(Ok(ids)) => toggle_run(selected.talk, logic, ids),
    }
}

/// Ids a question was answered with, or an error, as a mathematical value.
pub open spec fn heard_ids(r: Option<Result<Vec<u64>, Error>>) -> Option<Outcome<Seq<u64>>> {
    match r {
        Some(Ok(ids)) => Some(Ok(ids@)),
        Some(Err(e)) => Some(Err(e.deep_view())),
        None => None,
    }
}

pub(crate) fn windows_by_appid(talk: &mut Conversation, appid: &str) -> (r: Option<
    Result<Vec<u64>, Error>,
>)
    ensures
        final(talk).deep_view() == select_appid(old(talk).deep_view(), appid@).talk,
        heard_ids(r) == select_appid(old(talk).deep_view(), appid@).out,
{
    match talk.windows() {
        None => None,
        Some(Err(e)) => Some(Err(e)),
        Some(Ok(windows)) => {
            let ids = ids_by_appid(&windows, appid);
            if ids.len() == 0 {
                let mut message = "No window found with appid ".to_owned();
                message.append(appid);
                Some(Err(Error::new(message.as_str())))
            } else {
                Some(Ok(ids))
            }
        },
    }
}

pub(crate) fn windows_by_title(talk: &mut Conversation, title: &str) -> (r: Option<
    Result<Vec<u64>, Error>,
>)
    ensures
        final(talk).deep_view() == select_title(old(talk).deep_view(), title@).talk,
        heard_ids(r) == select_title(old(talk).deep_view(), title@).out,
{
    match talk.windows() {
        None => None,
        Some(Err(e)) => Some(Err(e)),
        Some(Ok(windows)) => {
            let ids = ids_by_title(&windows, title);
            if ids.len() == 0 {
                let mut message = "No window found with title ".to_owned();
                message.append(title);
                Some(Err(Error::new(message.as_str())))
            } else {
                Some(Ok(ids))
            }
        },
    }
}

impl BusinessLogic {
    /// Add a window to the sticky list, pinning it according to the
    /// configuration. Returns whether it was newly added. One that a scratchpad
    /// parked is refused.
    pub fn add_sticky_window(&mut self, talk: &mut Conversation, window_id: u64) -> (r: Option<
        Result<bool, Error>,
    >)
        ensures
            ran(
                add_run(old(talk).deep_view(), old(self).deep_view(), window_id),
                *final(talk),
                *final(self),
                r,
            ),
    {
        proof {
            reveal(add_run);
        }
        let windows = match talk.windows() {
            None => {
                return None;
            },
            Some(Err(e)) => {
                return Some(Err(e));
            },
            Some(Ok(windows)) => windows,
        };
        if find_window(&windows, window_id).is_none() {
            return Some(Err(Error::new("Window not found in Niri")));
        }
        let workspaces = match talk.workspaces() {
            None => {
                return None;
            },
            Some(Err(e)) => {
                return Some(Err(e));
            },
            Some(Ok(workspaces)) => workspaces,
        };
        if !self.state.staged_windows.contains(window_id) && self.state.is_parked(window_id) {
            return Some(Err(Error::new("Window is parked by a scratchpad, cannot add to sticky")));
        }
        let layout = Layout::new(workspaces);
        let pin = default_pin_for(self.config.sticky_follow(), &windows, &layout, window_id);
        Some(Ok(self.stick(window_id, pin)))
    }

    /// Add a window to the sticky list with an explicit output pin. A staged
    /// window is left alone, and so is one that a scratchpad parked. Returns
    /// whether it was newly added.
    pub fn stick(&mut self, window_id: u64, pin: Vec<String>) -> (r: bool)
        ensures
            r == (!is_elsewhere(old(self).deep_view().state, window_id) && !old(
                self,
            ).deep_view().state.sticky.contains_key(window_id)),
            final(self).deep_view() == (if is_elsewhere(old(self).deep_view().state, window_id) {
                old(self).deep_view()
            } else {
                old(self).deep_view().with(
                    old(self).deep_view().state.stick(window_id, pin.deep_view()),
                )
            }),
    {
        if self.state.staged_windows.contains(window_id) || self.state.is_parked(window_id) {
            return false;
        }
        let is_new = !self.state.sticky_windows.contains(window_id);
        self.state.stick(window_id, pin);
        is_new
    }

    /// Remove a window from the sticky list. Returns whether it was present.
    pub fn remove_sticky_window(&mut self, talk: &mut Conversation, window_id: u64) -> (r: Option<
        Result<bool, Error>,
    >)
        ensures
            ran(
                remove_run(old(talk).deep_view(), old(self).deep_view(), window_id),
                *final(talk),
                *final(self),
                r,
            ),
    {
        proof {
            reveal(remove_run);
        }
        match ensure_window_exists(talk, window_id) {
            None => {
                return None;
            },
            Some(Err(e)) => {
                return Some(Err(e));
            },
            Some(Ok(())) => {},
        }
        if self.state.staged_windows.contains(window_id) {
            return Some(Err(Error::new("Window is in stage, cannot remove from sticky")));
        }
        let was_present = self.state.sticky_windows.contains(window_id);
        self.state.unstick(window_id);
        Some(Ok(was_present))
    }

    /// Sticky windows that still exist.
    pub fn list_sticky_windows(&self, talk: &mut Conversation) -> (r: Option<
        Result<Vec<u64>, Error>,
    >)
        ensures
            final(talk).deep_view() == list_run(old(talk).deep_view(), self.deep_view()).talk,
            heard_ids(r) == list_run(old(talk).deep_view(), self.deep_view()).out,
            list_run(old(talk).deep_view(), self.deep_view()).logic == self.deep_view(),
    {
        proof {
            reveal(list_run);
        }
        match talk.windows() {
            None => None,
            Some(Err(e)) => Some(Err(e)),
            Some(Ok(windows)) => {
                let ids = self.state.sticky_windows.ids();
                Some(Ok(existing_ids(&ids, &windows)))
            },
        }
    }

    /// Toggle the focused window: staged windows move back to the active
    /// workspace and become sticky; otherwise sticky state is flipped. Returns
    /// whether the window ended up sticky. A window that a scratchpad parked is
    /// refused.
    pub fn toggle_active_window(&mut self, talk: &mut Conversation) -> (r: Option<
        Result<bool, Error>,
    >)
        ensures
            ran(
                toggle_active_run(old(talk).deep_view(), old(self).deep_view()),
                *final(talk),
                *final(self),
                r,
            ),
    {
        proof {
            reveal(toggle_active_run);
        }
        let window_id: u64 = match talk.active_window() {
            None => {
                return None;
            },
            Some(Err(e)) => {
                return Some(Err(e));
            },
            Some(Ok(id)) => id,
        };
        let windows = match talk.windows() {
            None => {
                return None;
            },
            Some(Err(e)) => {
                return Some(Err(e));
            },
            Some(Ok(windows)) => windows,
        };
        if find_window(&windows, window_id).is_none() {
            return Some(Err(Error::new("Active window not found in Niri")));
        }
        if self.state.staged_windows.contains(window_id) {
            return self.bring_back(talk, window_id);
        }
        if self.state.sticky_windows.contains(window_id) {
            self.state.unstick(window_id);
            return Some(Ok(false));
        }
        self.add_sticky_window(talk, window_id)
    }

    fn bring_back(&mut self, talk: &mut Conversation, window_id: u64) -> (r: Option<
        Result<bool, Error>,
    >)
        requires
            old(self).deep_view().state.staged.contains_key(window_id),
        ensures
            ran(
                bring_back_run(old(talk).deep_view(), old(self).deep_view(), window_id),
                *final(talk),
                *final(self),
                r,
            ),
    {
        let workspace_id: u64 = match talk.active_workspace() {
            None => {
                return None;
            },
            Some(Err(e)) => {
                return Some(Err(e));
            },
            Some(Ok(id)) => id,
        };
        match talk.done(Action::MoveWindow { window_id, workspace_id }) {
            None => None,
            Some(Err(e)) => Some(Err(e)),
            Some(Ok(())) => {
                let pin = match self.state.staged_windows.get(window_id) {
                    Some(staged) => crate::error::copy_texts(&staged.pin),
                    None => Vec::new(),
                };
                self.state.staged_windows.remove(window_id);
                self.state.stick(window_id, pin);
                match self.release_parking_workspace(talk, self.config.stage_workspace()) {
                    None => None,
                    Some(()) => Some(Ok(true)),
                }
            },
        }
    }

    /// Toggle sticky state of every window with this exact app id.
    pub fn toggle_by_appid(&mut self, talk: &mut Conversation, appid: &str) -> (r: Option<
        Result<BatchOutcome, Error>,
    >)
        ensures
            ran(
                toggle_selected_run(
                    old(self).deep_view(),
                    select_appid(old(talk).deep_view(), appid@),
                ),
                *final(talk),
                *final(self),
                r,
            ),
    {
        proof {
            reveal(toggle_selected_run);
        }
        match windows_by_appid(talk, appid) {
            None => None,
            Some(Err(e)) => Some(Err(e)),
            Some(Ok(ids)) => self.toggle_sticky_windows(talk, &ids),
        }
    }

    /// Toggle sticky state of every window whose title contains this string.
    pub fn toggle_by_title(&mut self, talk: &mut Conversation, title: &str) -> (r: Option<
        Result<BatchOutcome, Error>,
    >)
        ensures
            ran(
                toggle_selected_run(
                    old(self).deep_view(),
                    select_title(old(talk).deep_view(), title@),
                ),
                *final(talk),
                *final(self),
                r,
            ),
    {
        proof {
            reveal(toggle_selected_run);
        }
        match windows_by_title(talk, title) {
            None => None,
            Some(Err(e)) => Some(Err(e)),
            Some(Ok(ids)) => self.toggle_sticky_windows(talk, &ids),
        }
    }

    fn toggle_sticky_windows(&mut self, talk: &mut Conversation, ids: &Vec<u64>) -> (r: Option<
        Result<BatchOutcome, Error>,
    >)
        ensures
            ran(
                toggle_run(old(talk).deep_view(), old(self).deep_view(), ids@),
                *final(talk),
                *final(self),
                r,
            ),
    {
        let workspace_id: u64 = match talk.active_workspace() {
            None => {
                return None;
            },
            Some(Err(e)) => {
                return Some(Err(e));
            },
            Some(Ok(id)) => id,
        };
        let windows = match talk.windows() {
            None => {
                return None;
            },
            Some(Err(e)) => {
                return Some(Err(e));
            },
            Some(Ok(windows)) => windows,
        };
        let workspaces = match talk.workspaces() {
            None => {
                return None;
            },
            Some(Err(e)) => {
                return Some(Err(e));
            },
            Some(Ok(workspaces)) => workspaces,
        };
        let layout = Layout::new(workspaces);
        let was_in_use = !self.state.staged_windows.is_empty();
        let outcome = match self.toggle_each(talk, ids, workspace_id, &windows, &layout) {
            None => {
                return None;
            },
            Some(outcome) => outcome,
        };
        if was_in_use {
            if self.release_parking_workspace(talk, self.config.stage_workspace()).is_none() {
                return None;
            }
        }
        Some(outcome)
    }

    #[verifier::loop_isolation(false)]
    fn toggle_each(
        &mut self,
        talk: &mut Conversation,
        ids: &Vec<u64>,
        workspace_id: u64,
        windows: &Vec<WindowInfo>,
        layout: &Layout,
    ) -> (r: Option<Result<BatchOutcome, Error>>)
        ensures
            ran(
                toggle_each_run(
                    old(talk).deep_view(),
                    old(self).deep_view(),
                    ids@,
                    workspace_id,
                    windows.deep_view(),
                    layout.deep_view(),
                    BatchModel::empty(),
                ),
                *final(talk),
                *final(self),
                r,
            ),
    {
        let ghost ws = windows.deep_view();
        let ghost ls = layout.deep_view();
        let ghost run = toggle_each_run(
            talk.deep_view(),
            self.deep_view(),
            ids@,
            workspace_id,
            ws,
            ls,
            BatchModel::empty(),
        );
        let mut outcome = BatchOutcome::new();
        let mut i: usize = 0;
        assert(ids@.skip(0) =~= ids@);
        while i < ids.len()
            invariant
                i <= ids@.len(),
                ws == windows.deep_view(),
                ls == layout.deep_view(),
                run == toggle_each_run(
                    talk.deep_view(),
                    self.deep_view(),
                    ids@.skip(i as int),
                    workspace_id,
                    ws,
                    ls,
                    outcome.deep_view(),
                ),
            decreases ids.len() - i,
        {
            let id: u64 = ids[i];
            assert(ids@.skip(i as int)[0] == id);
            assert(ids@.skip(i as int).drop_first() =~= ids@.skip(i + 1));
            let mut moved = true;
            if self.state.staged_windows.contains(id) {
                match talk.done(Action::MoveWindow { window_id: id, workspace_id }) {
                    None => {
                        return None;
                    },
                    Some(Err(_)) => {
                        moved = false;
                    },
                    Some(Ok(())) => {
                        self.state.unstage(id);
                    },
                }
            } else if self.state.is_parked(id) {
                moved = false;
            } else if self.state.sticky_windows.contains(id) {
                self.state.unstick(id);
            } else {
                let pin = default_pin_for(self.config.sticky_follow(), windows, layout, id);
                self.state.stick(id, pin);
            }
            if moved {
                outcome.succeeded.push(id);
            } else {
                outcome.failed.push(id);
            }
            i = i + 1;
        }
        Some(Ok(outcome))
    }
}

} // verus!
