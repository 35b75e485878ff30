//! The stage: parking windows on it and bringing them back.
use vstd::prelude::*;
use vstd::string::*;
use super::{
    ended, existing, existing_ids, find_window, has_window, paused, ran, BatchModel, BatchOutcome,
    BusinessLogic, LogicModel, Run,
};
use super::parking::{
    ask_geometry, ask_parking, ask_release, capture_geometry, check_window, ensure_window_exists,
    parking_workspace_for, Geometry,
};
use super::sticky::{select_appid, select_title, windows_by_appid, windows_by_title};
use crate::action::{ask_done, ask_windows, Action, ActionModel, Conv, Conversation, Heard};
use crate::error::{failure, outcome, Chain, Error, Outcome};
use crate::niri::{WindowInfo, WindowModel};
use crate::state::{is_parked, StagedModel};
use crate::tables::sorted_ids;

verus! {

/// What is said of a window that is to be staged while it is parked.
pub open spec fn parked_failure() -> Chain {
    failure("Window is parked by a scratchpad, cannot stage"@)
}

/// A window is moved to the stage, remembering whether it was sticky and how
/// it looked. One that is staged already stays as it is; one that a scratchpad
/// parked is refused.
#[verifier::opaque]
pub open spec fn stage_run(talk: Conv, logic: LogicModel, id: u64) -> Run<Outcome<()>> {
    let check = check_window(talk, id);
    match check.out {
        None => paused(check.talk, logic),
        Some(Err(e)) => ended(check.talk, logic, Err(e)),
        Some(Ok(())) => {
            let geometry = ask_geometry(check.talk, id);
            match geometry.out {
                None => paused(geometry.talk, logic),
                Some(shape) => if logic.state.staged.contains_key(id) {
                    ended(geometry.talk, logic, Ok(()))
                } else if is_parked(logic.state.pads, id) {
                    ended(geometry.talk, logic, Err(parked_failure()))
                } else {
                    let parking = ask_parking(geometry.talk, logic.config.stage_workspace, id);
                    match parking.out {
                        None => paused(parking.talk, logic),
                        Some(Err(e)) => ended(parking.talk, logic, Err(e)),
                        Some(Ok(workspace_id)) => move_to_stage_run(
                            parking.talk,
                            logic,
                            id,
                            workspace_id,
                            shape,
                        ),
                    }
                },
            }
        },
    }
}

/// A window is moved to the stage workspace.
pub open spec fn move_to_stage_run(
    talk: Conv,
    logic: LogicModel,
    id: u64,
    workspace_id: u64,
    shape: Geometry,
) -> Run<Outcome<()>> {
    let moving = ask_done(talk, ActionModel::MoveWindow { window_id: id, workspace_id });
    match moving.out {
        None => paused(moving.talk, logic),
        Some(Err(e)) => ended(moving.talk, logic, Err(e)),
        Some(Ok(())) => ended(
            moving.talk,
            logic.with(logic.state.stage(id, shape.0, shape.1)),
            Ok(()),
        ),
    }
}

/// A staged window is moved back to a workspace.
#[verifier::opaque]
pub open spec fn unstage_run(talk: Conv, logic: LogicModel, id: u64, workspace_id: u64) -> Run<
    Outcome<()>,
> {
    let check = check_window(talk, id);
    match check.out {
        None => paused(check.talk, logic),
        Some(Err(e)) => ended(check.talk, logic, Err(e)),
        Some(Ok(())) => if !logic.state.staged.contains_key(id) {
            ended(check.talk, logic, Err(failure("Window is not in staged list"@)))
        } else {
            let moving = ask_done(
                check.talk,
                ActionModel::MoveWindow { window_id: id, workspace_id },
            );
            match moving.out {
                None => paused(moving.talk, logic),
                Some(Err(e)) => ended(moving.talk, logic, Err(e)),
                Some(Ok(())) => released_run(
                    moving.talk,
                    logic.with(logic.state.unstage(id)),
                    logic.config.stage_workspace,
                    Ok(()),
                ),
            }
        },
    }
}

/// An operation is over, and a parking area it may have emptied is given back.
pub open spec fn released_run<T>(talk: Conv, logic: LogicModel, name: Seq<char>, out: T) -> Run<T> {
    let release = ask_release(talk, logic.config, logic.state, name);
    Run {
        talk: release.talk,
        logic,
        out: if release.out is None {
            None
        } else {
            Some(out)
        },
    }
}

/// Each window is staged, or brought back where it is staged.
pub open spec fn toggle_staged_run(
    talk: Conv,
    logic: LogicModel,
    ids: Seq<u64>,
    workspace_id: u64,
    done: BatchModel,
) -> Run<Outcome<BatchModel>>
    decreases ids.len(),
{
    if ids.len() == 0 {
        ended(talk, logic, Ok(done))
    } else {
        let id = ids[0];
        let one = if logic.state.staged.contains_key(id) {
            unstage_run(talk, logic, id, workspace_id)
        } else {
            stage_run(talk, logic, id)
        };
        match one.out {
            None => paused(one.talk, one.logic),
            Some(Ok(())) => toggle_staged_run(
                one.talk,
                one.logic,
                ids.drop_first(),
                workspace_id,
                done.success(id),
            ),
            Some(Err(_)) => toggle_staged_run(
                one.talk,
                one.logic,
                ids.drop_first(),
                workspace_id,
                done.failure(id),
            ),
        }
    }
}

/// What is selected is staged or brought back.
#[verifier::opaque]
pub open spec fn toggle_stage_selected_run(
    logic: LogicModel,
    selected: Heard<Outcome<Seq<u64>>>,
    workspace_id: u64,
) -> Run<Outcome<BatchModel>> {
    match selected.out {
        None => paused(selected.talk, logic),
        Some(Err(e)) => ended(selected.talk, logic, Err(e)),
        Some(Ok(ids)) => toggle_staged_run(
            selected.talk,
            logic,
            ids,
            workspace_id,
            BatchModel::empty(),
        ),
    }
}

/// The stage workspace, once it was found for the first window.
pub open spec fn ask_stage(talk: Conv, name: Seq<char>, id: u64, known: Option<u64>) -> Heard<
    Outcome<u64>,
> {
    match known {
        Some(workspace_id) => Heard { talk, out: Some(Ok(workspace_id)) },
        None => ask_parking(talk, name, id),
    }
}

/// Each of these sticky windows is moved to the stage; one that cannot be moved
/// stays as it was.
pub open spec fn stage_each_run(
    talk: Conv,
    logic: LogicModel,
    ids: Seq<u64>,
    known: Option<u64>,
    done: BatchModel,
) -> Run<Outcome<BatchModel>>
    decreases ids.len(),
{
    if ids.len() == 0 {
        ended(talk, logic, Ok(done))
    } else {
        let id = ids[0];
        let rest = ids.drop_first();
        let geometry = ask_geometry(talk, id);
        match geometry.out {
            None => paused(geometry.talk, logic),
            Some(shape) => {
                let stage = ask_stage(geometry.talk, logic.config.stage_workspace, id, known);
                match stage.out {
                    None => paused(stage.talk, logic),
                    Some(Err(_)) => stage_each_run(
                        stage.talk,
                        logic,
                        rest,
                        known,
                        done.failure(id),
                    ),
                    Some(Ok(workspace_id)) => {
                        let moving = move_to_stage_run(stage.talk, logic, id, workspace_id, shape);
                        match moving.out {
                            None => paused(moving.talk, logic),
                            Some(Err(_)) => stage_each_run(
                                moving.talk,
                                logic,
                                rest,
                                Some(workspace_id),
                                done.failure(id),
                            ),
                            Some(Ok(())) => stage_each_run(
                                moving.talk,
                                moving.logic,
                                rest,
                                Some(workspace_id),
                                done.success(id),
                            ),
                        }
                    },
                }
            },
        }
    }
}

/// Every sticky window is staged.
#[verifier::opaque]
pub open spec fn stage_all_run(talk: Conv, logic: LogicModel) -> Run<Outcome<BatchModel>> {
    let windows = ask_windows(talk);
    match windows.out {
        None => paused(windows.talk, logic),
        Some(Err(e)) => ended(windows.talk, logic, Err(e)),
        Some(Ok(ws)) => stage_each_run(
            windows.talk,
            logic,
            sorted_ids(logic.state.sticky.dom()).filter_map(existing(ws)),
            None,
            BatchModel::empty(),
        ),
    }
}

/// Each of these staged windows is moved back. One that closed while staged is
/// forgotten, not failed; one that cannot be moved stays staged.
pub open spec fn unstage_each_run(
    talk: Conv,
    logic: LogicModel,
    ids: Seq<u64>,
    windows: Seq<WindowModel>,
    workspace_id: u64,
    done: BatchModel,
) -> Run<Outcome<BatchModel>>
    decreases ids.len(),
{
    if ids.len() == 0 {
        ended(talk, logic, Ok(done))
    } else {
        let id = ids[0];
        let rest = ids.drop_first();
        if !has_window(windows, id) {
            unstage_each_run(
                talk,
                logic.with(logic.state.off_stage(id)),
                rest,
                windows,
                workspace_id,
                done,
            )
        } else {
            let moving = ask_done(talk, ActionModel::MoveWindow { window_id: id, workspace_id });
            match moving.out {
                None => paused(moving.talk, logic),
                Some(Err(_)) => unstage_each_run(
                    moving.talk,
                    logic,
                    rest,
                    windows,
                    workspace_id,
                    done.failure(id),
                ),
                Some(Ok(())) => unstage_each_run(
                    moving.talk,
                    logic.with(logic.state.unstage(id)),
                    rest,
                    windows,
                    workspace_id,
                    done.success(id),
                ),
            }
        }
    }
}

/// Every staged window is moved back.
#[verifier::opaque]
pub open spec fn unstage_all_run(talk: Conv, logic: LogicModel, workspace_id: u64) -> Run<
    Outcome<BatchModel>,
> {
    if logic.state.staged == Map::<u64, StagedModel>::empty() {
        ended(talk, logic, Ok(BatchModel::empty()))
    } else {
        let windows = ask_windows(talk);
        match windows.out {
            None => paused(windows.talk, logic),
            Some(Err(e)) => ended(windows.talk, logic, Err(e)),
            Some(Ok(ws)) => {
                let all = unstage_each_run(
                    windows.talk,
                    logic,
                    sorted_ids(logic.state.staged.dom()),
                    ws,
                    workspace_id,
                    BatchModel::empty(),
                );
                match all.out {
                    None => paused(all.talk, all.logic),
                    Some(done) => released_run(
                        all.talk,
                        all.logic,
                        logic.config.stage_workspace,
                        done,
                    ),
                }
            },
        }
    }
}

impl BusinessLogic {
    /// Move a window to the stage workspace, remembering whether it was sticky.
    /// One that a scratchpad parked is refused.
    pub fn stage_window(&mut self, talk: &mut Conversation, window_id: u64) -> (r: Option<
        Result<(), Error>,
    >)
        ensures
            ran(
                stage_run(old(talk).deep_view(), old(self).deep_view(), window_id),
                *final(talk),
                *final(self),
                r,
            ),
    {
        proof {
            reveal(stage_run);
        }
        match ensure_window_exists(talk, window_id) {
            None => {
                return None;
            },
            Some(Err(e)) => {
                return Some(Err(e));
            },
            Some(Ok(())) => {},
        }
        let shape = match capture_geometry(talk, window_id) {
            None => {
                return None;
            },
            Some(shape) => shape,
        };
        if self.state.staged_windows.contains(window_id) {
            return Some(Ok(()));
        }
        if self.state.is_parked(window_id) {
            return Some(Err(Error::new("Window is parked by a scratchpad, cannot stage")));
        }
        let workspace_id: u64 = match parking_workspace_for(
            talk,
            self.config.stage_workspace(),
            window_id,
        ) {
            None => {
                return None;
            },
            Some(Err(e)) => {
                return Some(Err(e));
            },
            Some(Ok(id)) => id,
        };
        self.move_to_stage(talk, window_id, workspace_id, shape)
    }

    fn move_to_stage(
        &mut self,
        talk: &mut Conversation,
        window_id: u64,
        workspace_id: u64,
        shape: Geometry,
    ) -> (r: Option<Result<(), Error>>)
        ensures
            ran(
                move_to_stage_run(
                    old(talk).deep_view(),
                    old(self).deep_view(),
                    window_id,
                    workspace_id,
                    shape,
                ),
                *final(talk),
                *final(self),
                r,
            ),
            r is None ==> final(self).deep_view() == old(self).deep_view(),
    {
        match talk.done(Action::MoveWindow { window_id, workspace_id }) {
            None => None,
            Some(Err(e)) => Some(Err(e)),
            Some(Ok(())) => {
                self.state.stage(window_id, shape.0, shape.1);
                Some(Ok(()))
            },
        }
    }

    /// Whether a window is on the stage.
    pub fn is_window_staged(&self, window_id: u64) -> (r: bool)
        ensures
            r == self.deep_view().state.staged.contains_key(window_id),
    {
        self.state.staged_windows.contains(window_id)
    }

    /// Move a staged window back to `workspace_id`.
    pub fn unstage_window(
        &mut self,
        talk: &mut Conversation,
        window_id: u64,
        workspace_id: u64,
    ) -> (r: Option<Result<(), Error>>)
        ensures
            ran(
                unstage_run(old(talk).deep_view(), old(self).deep_view(), window_id, workspace_id),
                *final(talk),
                *final(self),
                r,
            ),
    {
        proof {
            reveal(unstage_run);
        }
        match ensure_window_exists(talk, window_id) {
            None => {
                return None;
            },
            Some(Err(e)) => {
                return Some(Err(e));
            },
            Some(Ok(())) => {},
        }
        if !self.state.staged_windows.contains(window_id) {
            return Some(Err(Error::new("Window is not in staged list")));
        }
        match talk.done(Action::MoveWindow { window_id, workspace_id }) {
            None => {
                return None;
            },
            Some(Err(e)) => {
                return Some(Err(e));
            },
            Some(Ok(())) => {},
        }
        self.state.unstage(window_id);
        match self.release_parking_workspace(talk, self.config.stage_workspace()) {
            None => None,
            Some(()) => Some(Ok(())),
        }
    }

    /// Stage or unstage every window with this exact app id.
    pub fn toggle_stage_by_appid(
        &mut self,
        talk: &mut Conversation,
        appid: &str,
        workspace_id: u64,
    ) -> (r: Option<Result<BatchOutcome, Error>>)
        ensures
            ran(
                toggle_stage_selected_run(
                    old(self).deep_view(),
                    select_appid(old(talk).deep_view(), appid@),
                    workspace_id,
                ),
                *final(talk),
                *final(self),
                r,
            ),
    {
        proof {
            reveal(toggle_stage_selected_run);
        }
        match windows_by_appid(talk, appid) {
            None => None,
            Some(Err(e)) => Some(Err(e)),
            Some(Ok(ids)) => self.toggle_staged_windows(talk, &ids, workspace_id),
        }
    }

    /// Stage or unstage every window whose title contains this string.
    pub fn toggle_stage_by_title(
        &mut self,
        talk: &mut Conversation,
        title: &str,
        workspace_id: u64,
    ) -> (r: Option<Result<BatchOutcome, Error>>)
        ensures
            ran(
                toggle_stage_selected_run(
                    old(self).deep_view(),
                    select_title(old(talk).deep_view(), title@),
                    workspace_id,
                ),
                *final(talk),
                *final(self),
                r,
            ),
    {
        proof {
            reveal(toggle_stage_selected_run);
        }
        match windows_by_title(talk, title) {
            None => None,
            Some(Err(e)) => Some(Err(e)),
            Some(Ok(ids)) => self.toggle_staged_windows(talk, &ids, workspace_id),
        }
    }

    #[verifier::loop_isolation(false)]
    fn toggle_staged_windows(
        &mut self,
        talk: &mut Conversation,
        ids: &Vec<u64>,
        workspace_id: u64,
    ) -> (r: Option<Result<BatchOutcome, Error>>)
        ensures
            ran(
                toggle_staged_run(
                    old(talk).deep_view(),
                    old(self).deep_view(),
                    ids@,
                    workspace_id,
                    BatchModel::empty(),
                ),
                *final(talk),
                *final(self),
                r,
            ),
    {
        let ghost run = toggle_staged_run(
            talk.deep_view(),
            self.deep_view(),
            ids@,
            workspace_id,
            BatchModel::empty(),
        );
        let mut outcome = BatchOutcome::new();
        let mut i: usize = 0;
        assert(ids@.skip(0) =~= ids@);
        while i < ids.len()
            invariant
                i <= ids@.len(),
                run == toggle_staged_run(
                    talk.deep_view(),
                    self.deep_view(),
                    ids@.skip(i as int),
                    workspace_id,
                    outcome.deep_view(),
                ),
            decreases ids.len() - i,
        {
            let id: u64 = ids[i];
            assert(ids@.skip(i as int)[0] == id);
            assert(ids@.skip(i as int).drop_first() =~= ids@.skip(i + 1));
            let result = if self.is_window_staged(id) {
                self.unstage_window(talk, id, workspace_id)
            } else {
                self.stage_window(talk, id)
            };
            match result {
                None => {
                    return None;
                },
                Some(Ok(())) => {
                    outcome.succeeded.push(id);
                },
                Some(Err(_)) => {
                    outcome.failed.push(id);
                },
            }
            i = i + 1;
        }
        Some(Ok(outcome))
    }

    /// Stage every sticky window.
    pub fn stage_all_windows(&mut self, talk: &mut Conversation) -> (r: Option<
        Result<BatchOutcome, Error>,
    >)
        ensures
            ran(
                stage_all_run(old(talk).deep_view(), old(self).deep_view()),
                *final(talk),
                *final(self),
                r,
            ),
    {
        proof {
            reveal(stage_all_run);
        }
        let windows = match talk.windows() {
            None => {
                return None;
            },
            Some(Err(e)) => {
                return Some(Err(e));
            },
            Some(Ok(windows)) => windows,
        };
        let sticky = self.state.sticky_windows.ids();
        let ids = existing_ids(&sticky, &windows);
        let ghost run = stage_each_run(
            talk.deep_view(),
            self.deep_view(),
            ids@,
            None,
            BatchModel::empty(),
        );
        let mut outcome = BatchOutcome::new();
        let mut known: Option<u64> = None;
        let mut i: usize = 0;
        assert(ids@.skip(0) =~= ids@);
        while i < ids.len()
            invariant
                i <= ids@.len(),
                run == stage_all_run(old(talk).deep_view(), old(self).deep_view()),
                run == stage_each_run(
                    talk.deep_view(),
                    self.deep_view(),
                    ids@.skip(i as int),
                    known,
                    outcome.deep_view(),
                ),
            decreases ids.len() - i,
        {
            let id: u64 = ids[i];
            assert(ids@.skip(i as int)[0] == id);
            assert(ids@.skip(i as int).drop_first() =~= ids@.skip(i + 1));
            let shape = match capture_geometry(talk, id) {
                None => {
                    return None;
                },
                Some(shape) => shape,
            };
            let found = match known {
                Some(workspace_id) => Ok(workspace_id),
                None => match parking_workspace_for(talk, self.config.stage_workspace(), id) {
                    None => {
                        return None;
                    },
                    Some(result) => result,
                },
            };
            match found {
                Err(_) => {
                    outcome.failed.push(id);
                },
                Ok(workspace_id) => {
                    known = Some(workspace_id);
                    match self.move_to_stage(talk, id, workspace_id, shape) {
                        None => {
                            return None;
                        },
                        Some(Ok(())) => {
                            outcome.succeeded.push(id);
                        },
                        Some(Err(_)) => {
                            outcome.failed.push(id);
                        },
                    }
                },
            }
            i = i + 1;
        }
        Some(Ok(outcome))
    }

    /// The windows on the stage.
    pub fn list_staged_windows(&self) -> (r: Vec<u64>)
        ensures
            r@ == sorted_ids(self.deep_view().state.staged.dom()),
    {
        self.state.staged_windows.ids()
    }

    /// Move every staged window back.
    pub fn unstage_all_windows(&mut self, talk: &mut Conversation, workspace_id: u64) -> (r: Option<
        Result<BatchOutcome, Error>,
    >)
        ensures
            ran(
                unstage_all_run(old(talk).deep_view(), old(self).deep_view(), workspace_id),
                *final(talk),
                *final(self),
                r,
            ),
    {
        proof {
            reveal(unstage_all_run);
        }
        if self.state.staged_windows.is_empty() {
            return Some(Ok(BatchOutcome::new()));
        }
        let windows = match talk.windows() {
            None => {
                return None;
            },
            Some(Err(e)) => {
                return Some(Err(e));
            },
            Some(Ok(windows)) => windows,
        };
        let ids = self.state.staged_windows.ids();
        assert(forall|j: int| 0 <= j < ids@.len() ==> ids@.contains(#[trigger] ids@[j]));
        let outcome = match self.unstage_each(talk, &ids, &windows, workspace_id) {
            None => {
                return None;
            },
            Some(outcome) => outcome,
        };
        match self.release_parking_workspace(talk, self.config.stage_workspace()) {
            None => None,
            Some(()) => Some(Ok(outcome)),
        }
    }

    #[verifier::loop_isolation(false)]
    fn unstage_each(
        &mut self,
        talk: &mut Conversation,
        ids: &Vec<u64>,
        windows: &Vec<WindowInfo>,
        workspace_id: u64,
    ) -> (r: Option<BatchOutcome>)
        requires
            forall|j: int|
                0 <= j < ids@.len() ==> old(self).deep_view().state.staged.contains_key(
                    #[trigger] ids@[j],
                ),
            ids@.no_duplicates(),
        ensures
            ran(
                unstage_each_run(
                    old(talk).deep_view(),
                    old(self).deep_view(),
                    ids@,
                    windows.deep_view(),
                    workspace_id,
                    BatchModel::empty(),
                ),
                *final(talk),
                *final(self),
                match r {
                    Some(outcome) => Some(Ok(outcome)),
                    None => None,
                },
            ),
            final(self).deep_view().config == old(self).deep_view().config,
    {
        let ghost ws = windows.deep_view();
        let ghost run = unstage_each_run(
            talk.deep_view(),
            self.deep_view(),
            ids@,
            ws,
            workspace_id,
            BatchModel::empty(),
        );
        let mut outcome = BatchOutcome::new();
        let mut i: usize = 0;
        assert(ids@.skip(0) =~= ids@);
        while i < ids.len()
            invariant
                i <= ids@.len(),
                ws == windows.deep_view(),
                self.deep_view().config == old(self).deep_view().config,
                ids@.no_duplicates(),
                forall|j: int|
                    i <= j < ids@.len() ==> self.deep_view().state.staged.contains_key(
                        #[trigger] ids@[j],
                    ),
                run == unstage_each_run(
                    talk.deep_view(),
                    self.deep_view(),
                    ids@.skip(i as int),
                    ws,
                    workspace_id,
                    outcome.deep_view(),
                ),
            decreases ids.len() - i,
        {
            let id: u64 = ids[i];
            assert(ids@.skip(i as int)[0] == id);
            assert(ids@.skip(i as int).drop_first() =~= ids@.skip(i + 1));
            if find_window(windows, id).is_none() {
                // A window that closed while staged is forgotten, not failed.
                self.state.staged_windows.remove(id);
            } else {
                match talk.done(Action::MoveWindow { window_id: id, workspace_id }) {
                    None => {
                        return None;
                    },
                    Some(Err(_)) => {
                        outcome.failed.push(id);
                    },
                    Some(Ok(())) => {
                        self.state.unstage(id);
                        outcome.succeeded.push(id);
                    },
                }
            }
            i = i + 1;
        }
        Some(outcome)
    }
}

} // verus!
