//! What the compositor reports: windows and workspaces that changed.
use vstd::prelude::*;
use super::{
    default_pin, default_pin_for, ended, find_window, has_window, occupied, occupied_by,
    output_of_window, paused, ran, window_output, BusinessLogic, LogicModel, Run,
};
use super::parking::{ask_release, saved};
use super::stage::stage_run;
use super::sticky::stick_run;
use crate::action::{
    ask_done, ask_windows, ask_workspaces, heard, Action, ActionModel, Conv, Conversation, Heard,
};
use crate::config::{match_of, FactsModel, WindowAction, WindowFacts};
use crate::error::{Error, Outcome};
use crate::niri::{WindowInfo, WindowModel, WorkspaceModel};
use crate::pinning::{parking_moves, parking_order_moves, pin_target, target_of, Layout};
use crate::state::{is_parked, Pin, StateModel};
use crate::tables::sorted_ids;

verus! {

/// The sticky windows that still exist.
pub open spec fn retained(sticky: Map<u64, Pin>, windows: Seq<WindowModel>) -> Map<u64, Pin> {
    sticky.restrict(Set::new(|id: u64| has_window(windows, id)))
}

/// Each window is moved to where it belongs once a workspace is focused. A
/// refused move does not stop the others.
pub open spec fn follow_each_run(
    talk: Conv,
    logic: LogicModel,
    ids: Seq<u64>,
    windows: Seq<WindowModel>,
    layout: Seq<WorkspaceModel>,
    focused: u64,
) -> Run<Outcome<()>>
    decreases ids.len(),
{
    if ids.len() == 0 {
        ended(talk, logic, Ok(()))
    } else {
        let id = ids[0];
        let rest = ids.drop_first();
        match target_of(
            logic.state.sticky[id],
            window_output(windows, layout, id),
            layout,
            focused,
        ) {
            None => follow_each_run(talk, logic, rest, windows, layout, focused),
            Some(workspace_id) => {
                let moving = ask_done(
                    talk,
                    ActionModel::MoveWindow { window_id: id, workspace_id },
                );
                match moving.out {
                    None => paused(moving.talk, logic),
                    Some(_) => follow_each_run(moving.talk, logic, rest, windows, layout, focused),
                }
            },
        }
    }
}

/// Every sticky window comes along when the user switches workspace; windows
/// that are gone are forgotten. A compositor that does not answer is no error.
#[verifier::opaque]
pub open spec fn activation_run(talk: Conv, logic: LogicModel, focused: u64) -> Run<Outcome<()>> {
    let windows = ask_windows(talk);
    match windows.out {
        None => paused(windows.talk, logic),
        Some(Err(_)) => ended(windows.talk, logic, Ok(())),
        Some(Ok(ws)) => {
            let workspaces = ask_workspaces(windows.talk);
            match workspaces.out {
                None => paused(workspaces.talk, logic),
                Some(Err(_)) => ended(workspaces.talk, logic, Ok(())),
                Some(Ok(layout)) => {
                    let state = StateModel {
                        sticky: retained(logic.state.sticky, ws),
                        ..logic.state
                    };
                    follow_each_run(
                        workspaces.talk,
                        logic.with(state),
                        sorted_ids(state.sticky.dom()),
                        ws,
                        layout,
                        focused,
                    )
                },
            }
        },
    }
}

/// The pin a sticky rule gives a window: its own outputs, else the default.
pub open spec fn ask_rule_pin(talk: Conv, logic: LogicModel, id: u64, outputs: Pin) -> Heard<
    Outcome<Pin>,
> {
    if outputs.len() > 0 {
        Heard { talk, out: Some(Ok(outputs)) }
    } else {
        let windows = ask_windows(talk);
        match windows.out {
            None => Heard { talk: windows.talk, out: None },
            Some(Err(e)) => Heard { talk: windows.talk, out: Some(Err(e)) },
            Some(Ok(ws)) => {
                let workspaces = ask_workspaces(windows.talk);
                Heard {
                    talk: workspaces.talk,
                    out: match workspaces.out {
                        None => None,
                        Some(Err(e)) => Some(Err(e)),
                        Some(Ok(layout)) => Some(
                            Ok(default_pin(logic.config.sticky_follow, ws, layout, id)),
                        ),
                    },
                }
            },
        }
    }
}

/// The rule that matches a window is applied. Sticky rules are declarative;
/// stage rules fire once per window and daemon run. A window that a scratchpad
/// parked is left alone.
#[verifier::opaque]
pub open spec fn changed_run(talk: Conv, logic: LogicModel, id: u64, facts: FactsModel) -> Run<
    Outcome<()>,
> {
    match match_of(logic.config, facts) {
        None => saved(talk, logic, Ok(())),
        Some(matched) => match matched.action {
            WindowAction::Sticky => {
                let pin = ask_rule_pin(talk, logic, id, matched.outputs);
                match pin.out {
                    None => paused(pin.talk, logic),
                    Some(Err(e)) => ended(pin.talk, logic, Err(e)),
                    Some(Ok(outputs)) => saved(
                        pin.talk,
                        stick_run(pin.talk, logic, id, outputs).logic,
                        Ok(()),
                    ),
                }
            },
            WindowAction::Stage => if logic.state.auto_staged.contains(id) || is_parked(
                logic.state.pads,
                id,
            ) {
                ended(talk, logic, Ok(()))
            } else {
                let staging = stage_run(talk, logic, id);
                match staging.out {
                    None => paused(staging.talk, staging.logic),
                    Some(Err(e)) => ended(staging.talk, staging.logic, Err(e)),
                    Some(Ok(())) => saved(
                        staging.talk,
                        staging.logic.with(
                            StateModel {
                                auto_staged: staging.logic.state.auto_staged.insert(id),
                                ..staging.logic.state
                            },
                        ),
                        Ok(()),
                    ),
                }
            },
        },
    }
}

/// A window closed: it is forgotten, and the parking areas it may have emptied
/// are given back.
#[verifier::opaque]
pub open spec fn closed_run(talk: Conv, logic: LogicModel, id: u64) -> Run<Outcome<()>> {
    let left = logic.with(logic.state.forget(id));
    if logic.state.staged.contains_key(id) || is_parked(logic.state.pads, id) {
        let stage = ask_release(talk, left.config, left.state, left.config.stage_workspace);
        match stage.out {
            None => paused(stage.talk, left),
            Some(()) => {
                let pads = ask_release(
                    stage.talk,
                    left.config,
                    left.state,
                    left.config.scratchpad_workspace,
                );
                match pads.out {
                    None => paused(pads.talk, left),
                    Some(()) => saved(pads.talk, left, Ok(())),
                }
            },
        }
    } else {
        saved(talk, left, Ok(()))
    }
}

/// Each workspace is moved to its position. A refused move does not stop the
/// others.
pub open spec fn move_each(talk: Conv, moves: Seq<(u64, usize)>) -> Heard<Outcome<()>>
    decreases moves.len(),
{
    if moves.len() == 0 {
        Heard { talk, out: Some(Ok(())) }
    } else {
        let moving = ask_done(
            talk,
            ActionModel::MoveWorkspaceToIndex { workspace_id: moves[0].0, index: moves[0].1 },
        );
        match moving.out {
            None => Heard { talk: moving.talk, out: None },
            Some(_) => move_each(moving.talk, moves.drop_first()),
        }
    }
}

/// The names of both parking areas, in the order they are kept at the end of an
/// output (top to bottom).
pub open spec fn parking_names(logic: LogicModel) -> Seq<Seq<char>> {
    seq![logic.config.scratchpad_workspace, logic.config.stage_workspace]
}

/// Both parking areas are brought to the end of their output.
#[verifier::opaque]
pub open spec fn ask_parking_order(talk: Conv, logic: LogicModel) -> Heard<Outcome<()>> {
    let workspaces = ask_workspaces(talk);
    match workspaces.out {
        None => Heard { talk: workspaces.talk, out: None },
        Some(Err(e)) => Heard { talk: workspaces.talk, out: Some(Err(e)) },
        Some(Ok(layout)) => {
            let windows = ask_windows(workspaces.talk);
            match windows.out {
                None => Heard { talk: windows.talk, out: None },
                Some(Err(e)) => Heard { talk: windows.talk, out: Some(Err(e)) },
                Some(Ok(ws)) => move_each(
                    windows.talk,
                    parking_moves(layout, occupied_by(ws), parking_names(logic)),
                ),
            }
        },
    }
}

impl BusinessLogic {
    /// Bring every sticky window along when the user switches workspace.
    pub fn handle_workspace_activation(&mut self, talk: &mut Conversation, ws_id: u64) -> (r:
        Option<Result<(), Error>>)
        ensures
            ran(
                activation_run(old(talk).deep_view(), old(self).deep_view(), ws_id),
                *final(talk),
                *final(self),
                r,
            ),
    {
        proof {
            reveal(activation_run);
        }
        let windows = match talk.windows() {
            None => {
                return None;
            },
            Some(Err(_)) => {
                return Some(Ok(()));
            },
            Some(Ok(windows)) => windows,
        };
        let workspaces = match talk.workspaces() {
            None => {
                return None;
            },
            Some(Err(_)) => {
                return Some(Ok(()));
            },
            Some(Ok(workspaces)) => workspaces,
        };
        let layout = Layout::new(workspaces);
        self.retain_sticky(&windows);
        let ids = self.state.sticky_windows.ids();
        self.follow_each(talk, &ids, &windows, &layout, ws_id)
    }

    fn retain_sticky(&mut self, windows: &Vec<WindowInfo>)
        ensures
            final(self).deep_view() == old(self).deep_view().with(
                StateModel {
                    sticky: retained(old(self).deep_view().state.sticky, windows.deep_view()),
                    ..old(self).deep_view().state
                },
            ),
    {
        let ghost before = self.deep_view();
        let ghost ws = windows.deep_view();
        let ids = self.state.sticky_windows.ids();
        let mut i: usize = 0;
        while i < ids.len()
            invariant
                i <= ids@.len(),
                ws == windows.deep_view(),
                forall|id: u64| ids@.contains(id) <==> before.state.sticky.contains_key(id),
                self.deep_view() == before.with(
                    StateModel { sticky: self.deep_view().state.sticky, ..before.state },
                ),
                forall|id: u64| #[trigger]
                    self.deep_view().state.sticky.contains_key(id) ==> before.state.sticky.contains_key(
                        id,
                    ) && self.deep_view().state.sticky[id] == before.state.sticky[id],
                forall|id: u64| #[trigger]
                    before.state.sticky.contains_key(id) && has_window(ws, id)
                        ==> self.deep_view().state.sticky.contains_key(id),
                forall|j: int|
                    0 <= j < i && !has_window(ws, #[trigger] ids@[j])
                        ==> !self.deep_view().state.sticky.contains_key(ids@[j]),
            decreases ids.len() - i,
        {
            let ghost sticky = self.deep_view().state.sticky;
            if find_window(windows, ids[i]).is_none() {
                self.state.unstick(ids[i]);
                assert(self.deep_view().state.sticky == sticky.remove(ids@[i as int]));
                assert forall|id: u64| #[trigger]
                    self.deep_view().state.sticky.contains_key(
                        id,
                    ) implies before.state.sticky.contains_key(id)
                    && self.deep_view().state.sticky[id] == before.state.sticky[id] by {
                    assert(sticky.contains_key(id));
                }
                assert forall|id: u64| #[trigger]
                    before.state.sticky.contains_key(id) && has_window(
                        ws,
                        id,
                    ) implies self.deep_view().state.sticky.contains_key(id) by {
                    assert(sticky.contains_key(id));
                }
            }
            i = i + 1;
        }
        proof {
            let kept = retained(before.state.sticky, ws);
            let sticky = self.deep_view().state.sticky;
            assert forall|id: u64| #[trigger]
                sticky.contains_key(id) <==> kept.contains_key(id) by {
                if sticky.contains_key(id) {
                    assert(before.state.sticky.contains_key(id));
                    assert(ids@.contains(id));
                    let j = choose|j: int| 0 <= j < ids@.len() && ids@[j] == id;
                    assert(has_window(ws, ids@[j]));
                }
                if kept.contains_key(id) {
                    assert(before.state.sticky.contains_key(id));
                }
            }
            assert(sticky =~= kept);
        }
    }

    #[verifier::loop_isolation(false)]
    fn follow_each(
        &self,
        talk: &mut Conversation,
        ids: &Vec<u64>,
        windows: &Vec<WindowInfo>,
        layout: &Layout,
        focused: u64,
    ) -> (r: Option<Result<(), Error>>)
        requires
            forall|id: u64| ids@.contains(id) ==> self.deep_view().state.sticky.contains_key(id),
        ensures
            ran(
                follow_each_run(
                    old(talk).deep_view(),
                    self.deep_view(),
                    ids@,
                    windows.deep_view(),
                    layout.deep_view(),
                    focused,
                ),
                *final(talk),
                *self,
                r,
            ),
    {
        let ghost logic = self.deep_view();
        let ghost ws = windows.deep_view();
        let ghost ls = layout.deep_view();
        let ghost run = follow_each_run(talk.deep_view(), logic, ids@, ws, ls, focused);
        let mut i: usize = 0;
        assert(ids@.skip(0) =~= ids@);
        while i < ids.len()
            invariant
                i <= ids@.len(),
                run == follow_each_run(
                    talk.deep_view(),
                    logic,
                    ids@.skip(i as int),
                    ws,
                    ls,
                    focused,
                ),
            decreases ids.len() - i,
        {
            let id: u64 = ids[i];
            assert(ids@.contains(id));
            assert(ids@.skip(i as int)[0] == id);
            assert(ids@.skip(i as int).drop_first() =~= ids@.skip(i + 1));
            let pin = self.state.pin(id);
            let slice = pin.as_slice();
            assert(slice.deep_view() =~= pin.deep_view());
            let current = output_of_window(windows, layout, id);
            if let Some(workspace_id) = pin_target(slice, current, layout, focused) {
                if talk.done(Action::MoveWindow { window_id: id, workspace_id }).is_none() {
                    return None;
                }
            }
            i = i + 1;
        }
        Some(Ok(()))
    }

    fn rule_pin(&self, talk: &mut Conversation, id: u64, outputs: Vec<String>) -> (r: Option<
        Result<Vec<String>, Error>,
    >)
        ensures
            final(talk).deep_view() == ask_rule_pin(
                old(talk).deep_view(),
                self.deep_view(),
                id,
                outputs.deep_view(),
            ).talk,
            heard(r) == ask_rule_pin(
                old(talk).deep_view(),
                self.deep_view(),
                id,
                outputs.deep_view(),
            ).out,
    {
        if outputs.len() > 0 {
            return Some(Ok(outputs));
        }
        let windows = match talk.windows() {
            None => {
                return None;
            },
            Some(Err(e)) => {
                return Some(Err(e));
            },
            Some(Ok(windows)) => windows,
        };
        match talk.workspaces() {
            None => None,
            Some(Err(e)) => Some(Err(e)),
            Some(Ok(workspaces)) => {
                let layout = Layout::new(workspaces);
                Some(Ok(default_pin_for(self.config.sticky_follow(), &windows, &layout, id)))
            },
        }
    }

    /// Apply the configured rule, if any, to a window that opened or changed.
    ///
    /// Sticky rules are declarative: a matching window is (re-)added to the
    /// sticky list whenever it changes. Stage rules fire once per window and
    /// daemon run, so restoring a parked window is not immediately undone by
    /// the next event it produces.
    pub fn handle_window_opened_or_changed(
        &mut self,
        talk: &mut Conversation,
        id: u64,
        app_id: Option<&str>,
        title: Option<&str>,
        floating: bool,
    ) -> (r: Option<Result<(), Error>>)
        ensures
            ran(
                changed_run(
                    old(talk).deep_view(),
                    old(self).deep_view(),
                    id,
                    (FactsModel { app_id: app_id.deep_view(), title: title.deep_view(), floating }),
                ),
                *final(talk),
                *final(self),
                r,
            ),
    {
        proof {
            reveal(changed_run);
        }
        let facts = WindowFacts { app_id, title, floating };
        if let Some(matched) = self.config.match_rule(&facts) {
            match matched.action {
                WindowAction::Sticky => {
                    let pin = match self.rule_pin(talk, id, matched.outputs) {
                        None => {
                            return None;
                        },
                        Some(Err(e)) => {
                            return Some(Err(e));
                        },
                        Some(Ok(pin)) => pin,
                    };
                    self.stick(id, pin);
                },
                WindowAction::Stage => {
                    if self.state.auto_staged.contains(&id) || self.state.is_parked(id) {
                        return Some(Ok(()));
                    }
                    match self.stage_window(talk, id) {
                        None => {
                            return None;
                        },
                        // A later event retries: the window is still not parked.
                        Some(Err(e)) => {
                            return Some(Err(e));
                        },
                        Some(Ok(())) => {},
                    }
                    self.state.mark_auto_staged(id);
                },
            }
        }
        match self.persist(talk) {
            None => None,
            Some(()) => Some(Ok(())),
        }
    }

    /// A window closed.
    pub fn handle_window_closed(&mut self, talk: &mut Conversation, id: u64) -> (r: Option<
        Result<(), Error>,
    >)
        ensures
            ran(
                closed_run(old(talk).deep_view(), old(self).deep_view(), id),
                *final(talk),
                *final(self),
                r,
            ),
    {
        proof {
            reveal(closed_run);
        }
        let was_staged = self.is_window_staged(id);
        let was_scratchpad = self.state.is_parked(id);
        self.remove_window_unconditionally(id);
        if was_staged || was_scratchpad {
            if self.release_parking_workspace(talk, self.config.stage_workspace()).is_none() {
                return None;
            }
            if self.release_parking_workspace(talk, self.config.scratchpad_workspace()).is_none() {
                return None;
            }
        }
        match self.persist(talk) {
            None => None,
            Some(()) => Some(Ok(())),
        }
    }

    /// Drop every trace of a window, ignoring whether it was sticky or staged.
    pub fn remove_window_unconditionally(&mut self, window_id: u64)
        ensures
            final(self).deep_view() == old(self).deep_view().with(
                old(self).deep_view().state.forget(window_id),
            ),
    {
        self.state.forget(window_id);
    }

    /// Keep both parking workspaces at the end of their output, above the empty
    /// tail, so they never mix with the workspaces the user works on.
    ///
    /// The layout comes from the compositor, never from the event that
    /// triggered this: moving the areas takes several calls, and acting on a
    /// state seen in the middle of them would make each move undo the previous
    /// one.
    pub fn ensure_parking_order(&self, talk: &mut Conversation) -> (r: Option<Result<(), Error>>)
        ensures
            final(talk).deep_view() == ask_parking_order(
                old(talk).deep_view(),
                self.deep_view(),
            ).talk,
            heard(r) == ask_parking_order(old(talk).deep_view(), self.deep_view()).out,
    {
        proof {
            reveal(ask_parking_order);
        }
        let workspaces = match talk.workspaces() {
            None => {
                return None;
            },
            Some(Err(e)) => {
                return Some(Err(e));
            },
            Some(Ok(workspaces)) => workspaces,
        };
        let windows = match talk.windows() {
            None => {
                return None;
            },
            Some(Err(e)) => {
                return Some(Err(e));
            },
            Some(Ok(windows)) => windows,
        };
        let busy = occupied(&windows);
        let names: [&str; 2] = [self.config.scratchpad_workspace(), self.config.stage_workspace()];
        assert(names.deep_view() =~= parking_names(self.deep_view()));
        let layout = workspaces.as_slice();
        assert(layout.deep_view() =~= workspaces.deep_view());
        let moves = parking_order_moves(layout, &busy, &names);
        move_workspaces(talk, &moves)
    }
}

#[verifier::loop_isolation(false)]
fn move_workspaces(talk: &mut Conversation, moves: &Vec<(u64, usize)>) -> (r: Option<
    Result<(), Error>,
>)
    ensures
        final(talk).deep_view() == move_each(old(talk).deep_view(), moves@).talk,
        heard(r) == move_each(old(talk).deep_view(), moves@).out,
{
    let ghost run = move_each(talk.deep_view(), moves@);
    let mut i: usize = 0;
    assert(moves@.skip(0) =~= moves@);
    while i < moves.len()
        invariant
            i <= moves@.len(),
            run == move_each(talk.deep_view(), moves@.skip(i as int)),
        decreases moves.len() - i,
    {
        assert(moves@.skip(i as int)[0] == moves@[i as int]);
        assert(moves@.skip(i as int).drop_first() =~= moves@.skip(i + 1));
        let (workspace_id, index) = moves[i];
        if talk.done(Action::MoveWorkspaceToIndex { workspace_id, index }).is_none() {
            return None;
        }
        i = i + 1;
    }
    Some(Ok(()))
}

} // verus!
