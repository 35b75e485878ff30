//! What the daemon's operations keep to.
use vstd::prelude::*;
use super::{default_pin, existing, has_window, window_output, BatchModel, LogicModel, Run};
use super::events::{activation_run, changed_run, closed_run, follow_each_run, retained};
use super::parking::{
    ask_geometry, ask_persist, ask_release, check_window, is_releasable, is_stored, Geometry,
};
use super::reconcile::{live_pads, on_stage, reconciled, reload_run};
use super::replay::{
    ask_active_window_is_tidy, ask_active_workspace_is_tidy, ask_done_is_tidy, ask_float_is_tidy,
    ask_geometry_is_tidy, ask_parking_is_tidy, ask_persist_is_tidy, ask_place_is_tidy,
    ask_release_is_tidy, ask_resize_is_tidy, ask_stage_is_tidy, ask_windows_is_tidy,
    ask_workspaces_is_tidy, check_window_is_tidy, move_to_stage_run_is_tidy,
    toggle_each_run_is_tidy, unstage_each_run_is_tidy,
};
use super::requests::{
    dispatch_run, request_run, stage_toggle_active_run, workspace_run, AnswerModel,
};
use super::scratchpad::{
    ask_float, ask_place, ask_resize, ask_target, focused_label, pad_message, park_run,
    scratchpad_run, show_run, toggle_pad_run, worded,
};
use super::stage::{
    ask_stage, move_to_stage_run, stage_all_run, stage_each_run, stage_run,
    toggle_stage_selected_run, toggle_staged_run, unstage_all_run, unstage_each_run, unstage_run,
};
use super::sticky::{
    add_run, flipped, is_elsewhere, list_run, remove_run, select_appid, select_title,
    toggle_active_run, toggle_each_run, toggle_run, toggle_selected_run,
};
use crate::action::{
    ask_active_window, ask_active_workspace, ask_done, ask_windows, ask_workspaces, ActionModel,
    Conv,
};
use crate::config::{match_of, pad_named, ConfigModel, FactsModel, PadModel, WindowAction};
use crate::dialogue::{goes_on, passes, staying_is_tidy, tidy, Talk};
use crate::error::Outcome;
use crate::lists::{self, any};
use crate::niri::{WindowModel, WorkspaceModel};
use crate::protocol::{RequestModel, ResponseModel};
use crate::pinning::{connected, target_of, unpinned_windows_follow_the_focus};
use crate::state::{
    holds, holds_sticky, is_parked, is_sticky_label, pads_without, parked_pin, record_of,
    same_parked_pin, showing_undoes_parking, unstaging_undoes_staging, Pin, RecordMap, StagedModel,
    StateModel,
};
use crate::state_store::{a_state_is_stored_like_itself, is_at_a_point, StoredModel};
use crate::tables::{ascending, sorted_ids, sorted_ids_are_sorted};

verus! {

// Failures.

/// Where the operation failed, it has changed nothing.
pub open spec fn leaves_nothing_to_undo<T>(logic: LogicModel, run: Run<Outcome<T>>) -> bool {
    run.out matches Some(Err(_)) ==> run.logic == logic
}

/// An operation that fails has changed nothing, so there is nothing to undo. What
/// holds of a scratchpad that is shown is said below.
pub proof fn failures_leave_nothing_to_undo(
    talk: Conv,
    logic: LogicModel,
    id: u64,
    ids: Seq<u64>,
    workspace_id: u64,
    pad: Option<PadModel>,
    label: Seq<char>,
)
    ensures
        leaves_nothing_to_undo(logic, add_run(talk, logic, id)),
        leaves_nothing_to_undo(logic, remove_run(talk, logic, id)),
        leaves_nothing_to_undo(logic, toggle_active_run(talk, logic)),
        leaves_nothing_to_undo(logic, toggle_run(talk, logic, ids)),
        leaves_nothing_to_undo(logic, stage_run(talk, logic, id)),
        leaves_nothing_to_undo(logic, unstage_run(talk, logic, id, workspace_id)),
        leaves_nothing_to_undo(logic, stage_all_run(talk, logic)),
        leaves_nothing_to_undo(logic, unstage_all_run(talk, logic, workspace_id)),
        leaves_nothing_to_undo(logic, park_run(talk, logic, label, id)),
        !logic.state.pads.contains_key(label) ==> leaves_nothing_to_undo(
            logic,
            toggle_pad_run(talk, logic, pad, label),
        ),
        leaves_nothing_to_undo(logic, reload_run(talk, logic)),
{
    reveal(add_run);
    reveal(remove_run);
    reveal(toggle_active_run);
    reveal(stage_run);
    reveal(unstage_run);
    reveal(stage_all_run);
    reveal(unstage_all_run);
    reveal(park_run);
    reveal(reload_run);
    let windows = ask_windows(talk);
    if let Some(Ok(ws)) = windows.out {
        staging_each_does_not_fail(
            windows.talk,
            logic,
            sorted_ids(logic.state.sticky.dom()).filter_map(existing(ws)),
            None,
            BatchModel::empty(),
        );
        unstaging_each_does_not_fail(
            windows.talk,
            logic,
            sorted_ids(logic.state.staged.dom()),
            ws,
            workspace_id,
            BatchModel::empty(),
        );
    }
    let workspace = ask_active_workspace(talk);
    let listed = ask_windows(workspace.talk);
    let layout = ask_workspaces(listed.talk);
    toggling_each_does_not_fail(
        layout.talk,
        logic,
        ids,
        workspace.out->0->Ok_0,
        listed.out->0->Ok_0,
        layout.out->0->Ok_0,
        BatchModel::empty(),
    );
}

proof fn staging_each_does_not_fail(
    talk: Conv,
    logic: LogicModel,
    ids: Seq<u64>,
    known: Option<u64>,
    done: BatchModel,
)
    ensures
        !(stage_each_run(talk, logic, ids, known, done).out matches Some(Err(_))),
    decreases ids.len(),
{
    if ids.len() > 0 {
        let id = ids[0];
        let rest = ids.drop_first();
        let geometry = ask_geometry(talk, id);
        let stage = ask_stage(geometry.talk, logic.config.stage_workspace, id, known);
        let workspace_id = stage.out->0->Ok_0;
        let moving = move_to_stage_run(stage.talk, logic, id, workspace_id, geometry.out->0);
        staging_each_does_not_fail(stage.talk, logic, rest, known, done.failure(id));
        staging_each_does_not_fail(
            moving.talk,
            logic,
            rest,
            Some(workspace_id),
            done.failure(id),
        );
        staging_each_does_not_fail(
            moving.talk,
            moving.logic,
            rest,
            Some(workspace_id),
            done.success(id),
        );
    }
}

proof fn unstaging_each_does_not_fail(
    talk: Conv,
    logic: LogicModel,
    ids: Seq<u64>,
    windows: Seq<WindowModel>,
    workspace_id: u64,
    done: BatchModel,
)
    ensures
        !(unstage_each_run(talk, logic, ids, windows, workspace_id, done).out matches Some(Err(_))),
    decreases ids.len(),
{
    if ids.len() > 0 {
        let id = ids[0];
        let rest = ids.drop_first();
        let moving = ask_done(talk, ActionModel::MoveWindow { window_id: id, workspace_id });
        let gone = logic.with(logic.state.off_stage(id));
        let back = logic.with(logic.state.unstage(id));
        unstaging_each_does_not_fail(talk, gone, rest, windows, workspace_id, done);
        unstaging_each_does_not_fail(
            moving.talk,
            logic,
            rest,
            windows,
            workspace_id,
            done.failure(id),
        );
        unstaging_each_does_not_fail(
            moving.talk,
            back,
            rest,
            windows,
            workspace_id,
            done.success(id),
        );
    }
}

proof fn toggling_each_does_not_fail(
    talk: Conv,
    logic: LogicModel,
    ids: Seq<u64>,
    workspace_id: u64,
    windows: Seq<WindowModel>,
    layout: Seq<WorkspaceModel>,
    done: BatchModel,
)
    ensures
        !(toggle_each_run(
            talk,
            logic,
            ids,
            workspace_id,
            windows,
            layout,
            done,
        ).out matches Some(Err(_))),
    decreases ids.len(),
{
    if ids.len() > 0 {
        let id = ids[0];
        let rest = ids.drop_first();
        let moving = ask_done(talk, ActionModel::MoveWindow { window_id: id, workspace_id });
        let back = logic.with(logic.state.unstage(id));
        let pin = default_pin(logic.config.sticky_follow, windows, layout, id);
        let flip = logic.with(flipped(logic.state, id, pin));
        toggling_each_does_not_fail(
            moving.talk,
            logic,
            rest,
            workspace_id,
            windows,
            layout,
            done.failure(id),
        );
        toggling_each_does_not_fail(
            moving.talk,
            back,
            rest,
            workspace_id,
            windows,
            layout,
            done.success(id),
        );
        toggling_each_does_not_fail(
            talk,
            flip,
            rest,
            workspace_id,
            windows,
            layout,
            if is_parked(logic.state.pads, id) {
                done.failure(id)
            } else {
                done.success(id)
            },
        );
    }
}

proof fn toggling_staged_does_not_fail(
    talk: Conv,
    logic: LogicModel,
    ids: Seq<u64>,
    workspace_id: u64,
    done: BatchModel,
)
    ensures
        !(toggle_staged_run(talk, logic, ids, workspace_id, done).out matches Some(Err(_))),
    decreases ids.len(),
{
    if ids.len() > 0 {
        let id = ids[0];
        let one = if logic.state.staged.contains_key(id) {
            unstage_run(talk, logic, id, workspace_id)
        } else {
            stage_run(talk, logic, id)
        };
        let rest = ids.drop_first();
        toggling_staged_does_not_fail(one.talk, one.logic, rest, workspace_id, done.success(id));
        toggling_staged_does_not_fail(one.talk, one.logic, rest, workspace_id, done.failure(id));
    }
}

/// The answer says what went wrong.
pub open spec fn is_refusal(answer: Option<AnswerModel>) -> bool {
    answer matches Some(AnswerModel::Response(ResponseModel::Error { .. }))
}

/// A request that is refused changes nothing of what is tracked. A scratchpad
/// that was to be shown is left out: its window may have been moved already.
pub proof fn a_refused_request_changes_nothing(
    talk: Conv,
    logic: LogicModel,
    request: RequestModel,
)
    requires
        is_refusal(request_run(talk, logic, request).out),
        request matches RequestModel::Scratchpad { name } ==> !logic.state.pads.contains_key(
            match name {
                Some(name) => name,
                None => focused_label(),
            },
        ),
    ensures
        request_run(talk, logic, request).logic.state == logic.state,
        request_run(talk, logic, request).logic.config == logic.config,
{
    reveal(dispatch_run);
    reveal(list_run);
    reveal(toggle_selected_run);
    reveal(toggle_stage_selected_run);
    reveal(stage_toggle_active_run);
    reveal(workspace_run);
    reveal(scratchpad_run);
    let active = ask_active_window(talk);
    let workspace = ask_active_workspace(talk);
    let workspace_id = workspace.out->0->Ok_0;
    match request {
        RequestModel::Add { window_id } | RequestModel::Remove { window_id }
        | RequestModel::Stage { window_id } => {
            a_failure_changes_nothing(talk, logic, window_id, 0);
        },
        RequestModel::ToggleAppid { appid } => {
            let selected = select_appid(talk, appid);
            a_failed_toggle_changes_nothing(selected.talk, logic, selected.out->0->Ok_0);
        },
        RequestModel::ToggleTitle { title } => {
            let selected = select_title(talk, title);
            a_failed_toggle_changes_nothing(selected.talk, logic, selected.out->0->Ok_0);
        },
        RequestModel::StageToggleAppid { appid } => {
            let selected = select_appid(workspace.talk, appid);
            toggling_staged_does_not_fail(
                selected.talk,
                logic,
                selected.out->0->Ok_0,
                workspace_id,
                BatchModel::empty(),
            );
        },
        RequestModel::StageToggleTitle { title } => {
            let selected = select_title(workspace.talk, title);
            toggling_staged_does_not_fail(
                selected.talk,
                logic,
                selected.out->0->Ok_0,
                workspace_id,
                BatchModel::empty(),
            );
        },
        RequestModel::Unstage { window_id } => {
            a_failure_changes_nothing(workspace.talk, logic, window_id, workspace_id);
        },
        RequestModel::UnstageAll => {
            a_failure_changes_nothing(workspace.talk, logic, 0, workspace_id);
        },
        RequestModel::StageToggleActive => {
            let id = active.out->0->Ok_0;
            let back = ask_active_workspace(active.talk);
            a_failure_changes_nothing(active.talk, logic, id, 0);
            a_failure_changes_nothing(back.talk, logic, id, back.out->0->Ok_0);
        },
        RequestModel::Scratchpad { name } => {
            let label = match name {
                Some(name) => name,
                None => focused_label(),
            };
            let pad = match name {
                Some(name) => lists::find(logic.config.scratchpads, pad_named(name)),
                None => None,
            };
            failures_leave_nothing_to_undo(talk, logic, 0, Seq::empty(), 0, pad, label);
        },
        _ => {
            a_failure_changes_nothing(talk, logic, 0, 0);
        },
    }
}

proof fn a_failure_changes_nothing(talk: Conv, logic: LogicModel, id: u64, workspace_id: u64)
    ensures
        leaves_nothing_to_undo(logic, add_run(talk, logic, id)),
        leaves_nothing_to_undo(logic, remove_run(talk, logic, id)),
        leaves_nothing_to_undo(logic, toggle_active_run(talk, logic)),
        leaves_nothing_to_undo(logic, stage_run(talk, logic, id)),
        leaves_nothing_to_undo(logic, unstage_run(talk, logic, id, workspace_id)),
        leaves_nothing_to_undo(logic, stage_all_run(talk, logic)),
        leaves_nothing_to_undo(logic, unstage_all_run(talk, logic, workspace_id)),
        leaves_nothing_to_undo(logic, reload_run(talk, logic)),
{
    failures_leave_nothing_to_undo(
        talk,
        logic,
        id,
        Seq::empty(),
        workspace_id,
        None,
        Seq::empty(),
    );
}

proof fn a_failed_toggle_changes_nothing(talk: Conv, logic: LogicModel, ids: Seq<u64>)
    ensures
        leaves_nothing_to_undo(logic, toggle_run(talk, logic, ids)),
{
    failures_leave_nothing_to_undo(talk, logic, 0, ids, 0, None, Seq::empty());
}

/// A window that cannot be hidden in a scratchpad is tracked as it was before.
pub proof fn a_window_that_cannot_be_hidden_stays_as_it_was(
    talk: Conv,
    logic: LogicModel,
    label: Seq<char>,
    id: u64,
)
    requires
        park_run(talk, logic, label, id).out matches Some(Err(_)),
    ensures
        park_run(talk, logic, label, id).logic == logic,
{
    reveal(park_run);
}

/// A scratchpad is shown once its window is moved to the focused workspace, also
/// where it could not be focused there. Where that workspace is not known, or the
/// compositor refuses the move, the window stays parked as it was.
pub proof fn a_scratchpad_is_shown_or_stays_parked(
    talk: Conv,
    logic: LogicModel,
    pad: Option<PadModel>,
    label: Seq<char>,
)
    requires
        show_run(talk, logic, pad, label).out is Some,
    ensures
        ({
            let run = show_run(talk, logic, pad, label);
            let workspace = ask_active_workspace(talk);
            let moving = ask_done(
                workspace.talk,
                ActionModel::MoveWindow {
                    window_id: logic.state.pads[label].id,
                    workspace_id: workspace.out->0->Ok_0,
                },
            );
            if workspace.out->0 is Ok && moving.out->0 is Ok {
                run.logic.state == logic.state.unpark(label)
            } else {
                run.logic == logic && run.out->0 is Err
            }
        }),
{
    reveal(show_run);
}

// There and back.

/// A window that could be staged is on the stage. One that a scratchpad parked
/// cannot, and stays where it is.
pub proof fn a_window_that_was_staged_is_on_the_stage(talk: Conv, logic: LogicModel, id: u64)
    requires
        stage_run(talk, logic, id).out is Some,
    ensures
        stage_run(talk, logic, id).out->0 is Ok ==> stage_run(
            talk,
            logic,
            id,
        ).logic.state.staged.contains_key(id),
        is_parked(logic.state.pads, id) && !logic.state.staged.contains_key(id) ==> {
            &&& stage_run(talk, logic, id).out->0 is Err
            &&& stage_run(talk, logic, id).logic == logic
        },
{
    reveal(stage_run);
}

/// A window that is staged and unstaged is tracked as it was before: sticky
/// again, with the pin it had, if it was sticky.
pub proof fn a_staged_window_comes_back_as_it_was(
    talk: Conv,
    later: Conv,
    logic: LogicModel,
    id: u64,
    workspace_id: u64,
)
    requires
        !logic.state.staged.contains_key(id),
        stage_run(talk, logic, id).out matches Some(Ok(_)),
        unstage_run(later, stage_run(talk, logic, id).logic, id, workspace_id).out matches Some(
            Ok(_),
        ),
    ensures
        unstage_run(later, stage_run(talk, logic, id).logic, id, workspace_id).logic.state
            == logic.state,
{
    reveal(stage_run);
    reveal(unstage_run);
    let check = check_window(talk, id);
    let geometry = ask_geometry(check.talk, id);
    let shape = geometry.out->0;
    unstaging_undoes_staging(logic.state, id, shape.0, shape.1);
}

/// The pin of a window that a scratchpad parks and shows again, if it is sticky
/// then: the one it has on the sticky list or on the stage, else the one that a
/// label which parked it before remembers.
pub open spec fn pin_kept(state: StateModel, id: u64) -> Option<Pin> {
    let record = state.pad_record(id, None, None);
    if record.was_sticky {
        Some(record.outputs)
    } else {
        parked_pin(state.pads, id)
    }
}

/// The state in which a window comes back out of a scratchpad: as sticky as it
/// was, and neither staged nor parked.
pub open spec fn out_again(state: StateModel, id: u64) -> StateModel {
    StateModel {
        sticky: match pin_kept(state, id) {
            Some(pin) => state.sticky.insert(id, pin),
            None => state.sticky.remove(id),
        },
        staged: state.staged.remove(id),
        pads: pads_without(state.pads, id),
        ..state
    }
}

/// A scratchpad is a way there and back, for every window, also one that another
/// label has parked: the first press parks it, the second shows it again,
/// whatever has the focus by then. Afterwards it is sticky if it was, or if it
/// was staged or parked as a sticky window, with the pin it had; it is neither
/// staged nor parked; and it was moved to the focused workspace and focused.
/// Nothing else is tracked differently.
pub proof fn a_scratchpad_is_a_way_there_and_back(
    talk: Conv,
    later: Conv,
    logic: LogicModel,
    pad: Option<PadModel>,
    label: Seq<char>,
    id: u64,
)
    requires
        !logic.state.pads.contains_key(label),
        ask_target(talk, pad).out == Some(Outcome::Ok(Some(id))),
        toggle_pad_run(talk, logic, pad, label).out matches Some(Ok(_)),
        toggle_pad_run(
            later,
            toggle_pad_run(talk, logic, pad, label).logic,
            pad,
            label,
        ).out matches Some(Ok(_)),
    ensures
        ({
            let there = toggle_pad_run(talk, logic, pad, label);
            let back = toggle_pad_run(later, there.logic, pad, label);
            let after = back.logic.state;
            let workspace = ask_active_workspace(later);
            &&& there.out == Some(Outcome::Ok(pad_message("Hidden "@, label, id)))
            &&& there.logic.state.pads.contains_key(label)
            &&& there.logic.state.pads[label].id == id
            &&& !there.logic.state.sticky.contains_key(id)
            &&& !there.logic.state.staged.contains_key(id)
            &&& back.out == Some(Outcome::Ok(pad_message("Shown "@, label, id)))
            &&& after == out_again(logic.state, id)
            &&& !logic.state.staged.contains_key(id) && !is_parked(logic.state.pads, id) ==> after
                == logic.state
            &&& logic.state.staged.contains_key(id) && logic.state.staged[id].was_sticky ==> {
                &&& after.sticky.contains_key(id)
                &&& after.sticky[id] == logic.state.staged[id].pin
            }
            &&& logic.state.staged.contains_key(id) && !logic.state.staged[id].was_sticky
                && !is_parked(logic.state.pads, id) ==> !after.sticky.contains_key(id)
            &&& !after.staged.contains_key(id)
            &&& !is_parked(after.pads, id)
            &&& workspace.out matches Some(Ok(workspace_id))
            &&& exists|i: int, j: int|
                later.asked.len() <= i < j < back.talk.asked.len() && #[trigger] back.talk.asked[i]
                    == (ActionModel::MoveWindow { window_id: id, workspace_id })
                    && #[trigger] back.talk.asked[j] == (ActionModel::FocusWindow {
                    window_id: id,
                })
        }),
{
    broadcast use {
        ask_active_workspace_is_tidy, ask_done_is_tidy, ask_float_is_tidy, ask_resize_is_tidy,
        ask_place_is_tidy, ask_release_is_tidy, ask_persist_is_tidy, passes,
    };

    reveal(park_run);
    reveal(show_run);
    let target = ask_target(talk, pad);
    let check = check_window(target.talk, id);
    let shape = ask_geometry(check.talk, id).out->0;
    let there = toggle_pad_run(talk, logic, pad, label);
    let back = toggle_pad_run(later, there.logic, pad, label);
    let after = back.logic.state;
    assert(there.logic.state == logic.state.park(label, id, shape.0, shape.1));
    assert(after == there.logic.state.unpark(label));
    let parked = there.logic.state.pads;
    if !parked[label].was_sticky {
        assert forall|other: Seq<char>| #[trigger]
            holds_sticky(parked, other, id) <==> holds_sticky(logic.state.pads, other, id) by {}
        same_parked_pin(parked, logic.state.pads, id);
    }
    assert(after.sticky =~= out_again(logic.state, id).sticky);
    assert(after.pads =~= pads_without(logic.state.pads, id));
    if !is_parked(logic.state.pads, id) {
        assert forall|other: Seq<char>| !is_sticky_label(logic.state.pads, other, id) by {
            assert(holds(logic.state.pads, other, id) ==> is_parked(logic.state.pads, id));
        }
        if !logic.state.staged.contains_key(id) {
            showing_undoes_parking(logic.state, label, id, shape.0, shape.1);
        }
    }
    let record = there.logic.state.pads[label];
    let workspace = ask_active_workspace(later);
    let workspace_id = workspace.out->0->Ok_0;
    let moving = ask_done(
        workspace.talk,
        ActionModel::MoveWindow { window_id: id, workspace_id },
    );
    let float = ask_float(moving.talk, pad, id);
    let resize = ask_resize(float.talk, pad, record.size, id);
    let place = ask_place(resize.talk, record.position, id);
    let focus = ask_done(place.talk, ActionModel::FocusWindow { window_id: id });
    assert(tidy(moving.talk, place.talk, true));
    assert(tidy(focus.talk, back.talk, true));
    assert(tidy(moving.talk, back.talk, true));
    reveal(tidy);
    reveal(goes_on);
    let i = workspace.talk.asked.len() as int;
    let j = place.talk.asked.len() as int;
    assert(moving.talk.asked[i] == back.talk.asked[i]);
    assert(focus.talk.asked[j] == back.talk.asked[j]);
}

/// The second press of a scratchpad shows the window that the first one parked,
/// whatever has the focus by then.
pub proof fn the_second_press_shows_what_the_first_parked(
    talk: Conv,
    later: Conv,
    logic: LogicModel,
    pad: Option<PadModel>,
    label: Seq<char>,
    id: u64,
)
    requires
        park_run(talk, logic, label, id).out matches Some(Ok(_)),
    ensures
        ({
            let parked = park_run(talk, logic, label, id).logic;
            &&& parked.state.pads.contains_key(label)
            &&& parked.state.pads[label].id == id
            &&& toggle_pad_run(later, parked, pad, label) == worded(
                show_run(later, parked, pad, label),
                pad_message("Shown "@, label, id),
            )
        }),
{
    reveal(park_run);
}

// Batches.

/// No window is reported twice, be it as one that worked or as one that failed.
pub open spec fn reported_at_most_once(batch: BatchModel) -> bool {
    &&& batch.succeeded.no_duplicates()
    &&& batch.failed.no_duplicates()
    &&& forall|id: u64| !(#[trigger] batch.succeeded.contains(id) && batch.failed.contains(id))
}

/// Exactly these windows are reported, each of them once.
pub open spec fn reported_once(due: Set<u64>, batch: BatchModel) -> bool {
    &&& reported_at_most_once(batch)
    &&& forall|id: u64| #[trigger]
        due.contains(id) <==> batch.succeeded.contains(id) || batch.failed.contains(id)
}

/// None of the windows still to come was handled yet, none of them comes twice,
/// and none was reported twice.
pub open spec fn is_fresh(ids: Seq<u64>, done: BatchModel) -> bool {
    &&& ids.no_duplicates()
    &&& forall|id: u64|
        #[trigger] ids.contains(id) ==> !done.succeeded.contains(id) && !done.failed.contains(id)
    &&& reported_at_most_once(done)
}

/// Every window that was to be handled is reported once, either way, with what
/// was reported before; but for those that are skipped.
pub open spec fn reports(
    ids: Seq<u64>,
    skipped: Set<u64>,
    done: BatchModel,
    batch: BatchModel,
) -> bool {
    &&& forall|id: u64|
        #[trigger] batch.succeeded.contains(id) ==> done.succeeded.contains(id) || (ids.contains(id)
            && !skipped.contains(id))
    &&& forall|id: u64|
        #[trigger] batch.failed.contains(id) ==> done.failed.contains(id) || (ids.contains(id)
            && !skipped.contains(id))
    &&& forall|id: u64| #[trigger]
        ids.contains(id) && !skipped.contains(id) ==> batch.succeeded.contains(id)
            || batch.failed.contains(id)
    &&& forall|id: u64| #[trigger] done.succeeded.contains(id) ==> batch.succeeded.contains(id)
    &&& forall|id: u64| #[trigger] done.failed.contains(id) ==> batch.failed.contains(id)
    &&& reported_at_most_once(batch)
}

proof fn one_more<T>(s: Seq<T>, x: T)
    ensures
        forall|y: T| #[trigger] s.push(x).contains(y) <==> s.contains(y) || y == x,
{
    assert forall|y: T| #[trigger] s.push(x).contains(y) <==> s.contains(y) || y == x by {
        if s.contains(y) {
            let i = choose|i: int| 0 <= i < s.len() && s[i] == y;
            assert(s.push(x)[i] == y);
        }
        if y == x {
            assert(s.push(x)[s.len() as int] == y);
        }
        if s.push(x).contains(y) {
            let i = choose|i: int| 0 <= i < s.push(x).len() && s.push(x)[i] == y;
            if i < s.len() {
                assert(s[i] == y);
            }
        }
    }
}

pub(crate) proof fn one_less(ids: Seq<u64>, done: BatchModel)
    requires
        is_fresh(ids, done),
        ids.len() > 0,
    ensures
        forall|id: u64| #[trigger]
            ids.contains(id) <==> id == ids[0] || ids.drop_first().contains(id),
        forall|id: u64| #[trigger] ids.drop_first().contains(id) ==> ids.contains(id),
        !ids.drop_first().contains(ids[0]),
        is_fresh(ids.drop_first(), done),
        is_fresh(ids.drop_first(), done.success(ids[0])),
        is_fresh(ids.drop_first(), done.failure(ids[0])),
{
    let rest = ids.drop_first();
    assert forall|id: u64| #[trigger] ids.contains(id) <==> id == ids[0] || rest.contains(id) by {
        if rest.contains(id) {
            let i = choose|i: int| 0 <= i < rest.len() && rest[i] == id;
            assert(ids[i + 1] == id);
        }
        if ids.contains(id) {
            let i = choose|i: int| 0 <= i < ids.len() && ids[i] == id;
            if i > 0 {
                assert(rest[i - 1] == id);
            }
        }
    }
    assert forall|id: u64| #[trigger] rest.contains(id) implies ids.contains(id) by {
        assert(ids.contains(id) <==> id == ids[0] || rest.contains(id));
    }
    if rest.contains(ids[0]) {
        let i = choose|i: int| 0 <= i < rest.len() && rest[i] == ids[0];
        assert(ids[i + 1] == ids[0]);
    }
    assert forall|i: int, j: int| 0 <= i < rest.len() && 0 <= j < rest.len() && i != j implies rest[i]
        != rest[j] by {
        assert(ids[i + 1] != ids[j + 1]);
    }
    one_more(done.succeeded, ids[0]);
    one_more(done.failed, ids[0]);
    assert(ids.contains(ids[0]));
}

proof fn reported_before(
    ids: Seq<u64>,
    skipped: Set<u64>,
    done: BatchModel,
    next: BatchModel,
    batch: BatchModel,
)
    requires
        ids.len() > 0,
        is_fresh(ids, done),
        if skipped.contains(ids[0]) {
            next == done
        } else {
            next == done.success(ids[0]) || next == done.failure(ids[0])
        },
        reports(ids.drop_first(), skipped, next, batch),
    ensures
        reports(ids, skipped, done, batch),
{
    let rest = ids.drop_first();
    one_less(ids, done);
    one_more(done.succeeded, ids[0]);
    one_more(done.failed, ids[0]);
    assert(ids.contains(ids[0]));
    assert forall|id: u64| #[trigger] batch.succeeded.contains(id) implies done.succeeded.contains(
        id,
    ) || (ids.contains(id) && !skipped.contains(id)) by {
        assert(next.succeeded.contains(id) || rest.contains(id));
    }
    assert forall|id: u64| #[trigger] batch.failed.contains(id) implies done.failed.contains(id)
        || (ids.contains(id) && !skipped.contains(id)) by {
        assert(next.failed.contains(id) || rest.contains(id));
    }
    assert forall|id: u64| #[trigger]
        ids.contains(id) && !skipped.contains(id) implies batch.succeeded.contains(id)
        || batch.failed.contains(id) by {
        if id == ids[0] {
            assert(next.succeeded.contains(id) || next.failed.contains(id));
        } else {
            assert(rest.contains(id));
        }
    }
    assert forall|id: u64| #[trigger] done.succeeded.contains(id) implies batch.succeeded.contains(
        id,
    ) by {
        assert(next.succeeded.contains(id));
    }
    assert forall|id: u64| #[trigger] done.failed.contains(id) implies batch.failed.contains(
        id,
    ) by {
        assert(next.failed.contains(id));
    }
}

/// The compositor was heard to give the window this geometry, in a list of its
/// windows; where the list could not be read, none.
pub open spec fn geometry_was_heard(talk: Conv, id: u64, shape: Geometry) -> bool {
    exists|asked: int|
        0 <= asked <= talk.answers.len() && #[trigger] ask_geometry(
            Talk { answers: talk.answers.skip(asked), asked: talk.asked },
            id,
        ).out == Some(shape)
}

proof fn geometry_is_heard(from: Conv, talk: Conv, id: u64)
    requires
        tidy(from, talk, true),
        ask_geometry(talk, id).out is Some,
    ensures
        geometry_was_heard(from, id, ask_geometry(talk, id).out->0),
{
    reveal(tidy);
    reveal(goes_on);
    let asked = talk.asked.len() - from.asked.len();
    let at = Talk { answers: from.answers.skip(asked), asked: from.asked };
    assert(at.answers == talk.answers);
    assert(ask_geometry(at, id).out == ask_geometry(talk, id).out);
}

/// The windows that worked are staged, with what they were as sticky windows and
/// the geometry they had; the others are tracked as they were.
pub open spec fn staged_as_reported(
    talk: Conv,
    start: StateModel,
    state: StateModel,
    batch: BatchModel,
) -> bool {
    &&& forall|id: u64|
        #[trigger] batch.succeeded.contains(id) ==> {
            &&& state.staged.contains_key(id)
            &&& state.staged[id].was_sticky == start.sticky.contains_key(id)
            &&& state.staged[id].pin == start.pin(id)
            &&& geometry_was_heard(talk, id, (state.staged[id].size, state.staged[id].position))
            &&& !state.sticky.contains_key(id)
        }
    &&& forall|id: u64|
        !#[trigger] batch.succeeded.contains(id) ==> {
            &&& state.sticky.contains_key(id) == start.sticky.contains_key(id)
            &&& state.sticky.contains_key(id) ==> state.sticky[id] == start.sticky[id]
            &&& state.staged.contains_key(id) == start.staged.contains_key(id)
            &&& state.staged.contains_key(id) ==> state.staged[id] == start.staged[id]
        }
}

proof fn staging_each_is_reported(
    from: Conv,
    talk: Conv,
    start: StateModel,
    logic: LogicModel,
    ids: Seq<u64>,
    known: Option<u64>,
    done: BatchModel,
)
    requires
        tidy(from, talk, true),
        is_fresh(ids, done),
        staged_as_reported(from, start, logic.state, done),
    ensures
        stage_each_run(talk, logic, ids, known, done).out matches Some(Ok(batch)) ==> {
            &&& staged_as_reported(
                from,
                start,
                stage_each_run(talk, logic, ids, known, done).logic.state,
                batch,
            )
            &&& reports(ids, Set::empty(), done, batch)
        },
    decreases ids.len(),
{
    broadcast use {
        ask_geometry_is_tidy, ask_stage_is_tidy, move_to_stage_run_is_tidy, passes,
    };

    if ids.len() > 0 {
        let id = ids[0];
        let rest = ids.drop_first();
        let geometry = ask_geometry(talk, id);
        let stage = ask_stage(geometry.talk, logic.config.stage_workspace, id, known);
        let workspace_id = stage.out->0->Ok_0;
        let shape = geometry.out->0;
        let moving = move_to_stage_run(stage.talk, logic, id, workspace_id, shape);
        one_less(ids, done);
        one_more(done.succeeded, id);
        one_more(done.failed, id);
        assert(ids.contains(id));
        let run = stage_each_run(talk, logic, ids, known, done);
        if geometry.out is Some && stage.out is Some {
            geometry_is_heard(from, talk, id);
            if stage.out->0 is Err {
                staging_each_is_reported(
                    from,
                    stage.talk,
                    start,
                    logic,
                    rest,
                    known,
                    done.failure(id),
                );
            } else {
                match moving.out {
                    None => {},
                    Some(Ok(())) => {
                        assert(!done.succeeded.contains(id));
                        staging_each_is_reported(
                            from,
                            moving.talk,
                            start,
                            moving.logic,
                            rest,
                            Some(workspace_id),
                            done.success(id),
                        );
                    },
                    Some(Err(_)) => {
                        staging_each_is_reported(
                            from,
                            moving.talk,
                            start,
                            logic,
                            rest,
                            Some(workspace_id),
                            done.failure(id),
                        );
                    },
                }
            }
        }
        if let Some(Ok(batch)) = run.out {
            if reports(rest, Set::empty(), done.success(id), batch) {
                reported_before(ids, Set::empty(), done, done.success(id), batch);
            }
            if reports(rest, Set::empty(), done.failure(id), batch) {
                reported_before(ids, Set::empty(), done, done.failure(id), batch);
            }
        }
    }
}

pub(crate) proof fn existing_ids_are_ascending(ids: Seq<u64>, windows: Seq<WindowModel>)
    requires
        ascending(ids),
    ensures
        ascending(ids.filter_map(existing(windows))),
        forall|id: u64| #[trigger]
            ids.filter_map(existing(windows)).contains(id) <==> ids.contains(id) && has_window(
                windows,
                id,
            ),
    decreases ids.len(),
{
    let f = existing(windows);
    let all = ids.filter_map(f);
    if ids.len() == 0 {
        assert(all =~= Seq::empty());
    } else {
        let rest = ids.drop_last();
        let last = ids.last();
        existing_ids_are_ascending(rest, windows);
        assert(ids.take(ids.len() as int) =~= ids);
        assert(ids.take(ids.len() - 1) =~= rest);
        ids.lemma_filter_map_take_succ(f, ids.len() - 1);
        let kept = rest.filter_map(f);
        one_more(rest, last);
        assert(rest.push(last) =~= ids);
        assert forall|i: int| 0 <= i < kept.len() implies kept[i] < last by {
            assert(kept.contains(kept[i]));
            let k = choose|k: int| 0 <= k < rest.len() && rest[k] == kept[i];
            assert(ids[k] < ids[ids.len() - 1]);
        }
        if has_window(windows, last) {
            one_more(kept, last);
            assert(all =~= kept.push(last));
        } else {
            assert(all =~= kept);
        }
    }
}

pub(crate) proof fn ascending_has_no_duplicates(ids: Seq<u64>)
    requires
        ascending(ids),
    ensures
        ids.no_duplicates(),
{
}

/// Staging every sticky window reports each one that is still open, once: those
/// that worked are staged, with their pin and the geometry they had, and those
/// the compositor refused are sticky as before.
pub proof fn staging_all_is_reported(talk: Conv, logic: LogicModel)
    ensures
        stage_all_run(talk, logic).out matches Some(Ok(batch)) ==> {
            let state = stage_all_run(talk, logic).logic.state;
            &&& ask_windows(talk).out matches Some(Ok(windows))
            &&& reported_once(
                Set::new(|id: u64| logic.state.sticky.contains_key(id) && has_window(windows, id)),
                batch,
            )
            &&& staged_as_reported(talk, logic.state, state, batch)
            &&& forall|id: u64| #[trigger]
                batch.failed.contains(id) ==> state.sticky.contains_key(id) && state.sticky[id]
                    == logic.state.sticky[id]
        },
{
    broadcast use ask_windows_is_tidy;

    reveal(stage_all_run);
    let windows = ask_windows(talk);
    if let Some(Ok(ws)) = windows.out {
        let all = sorted_ids(logic.state.sticky.dom());
        let ids = all.filter_map(existing(ws));
        sorted_ids_are_sorted(logic.state.sticky.dom());
        existing_ids_are_ascending(all, ws);
        ascending_has_no_duplicates(ids);
        staging_each_is_reported(
            talk,
            windows.talk,
            logic.state,
            logic,
            ids,
            None,
            BatchModel::empty(),
        );
        if let Some(Ok(batch)) = stage_all_run(talk, logic).out {
            let state = stage_all_run(talk, logic).logic.state;
            let due = Set::new(
                |id: u64| logic.state.sticky.contains_key(id) && has_window(ws, id),
            );
            assert forall|id: u64| #[trigger] due.contains(id) <==> batch.succeeded.contains(id)
                || batch.failed.contains(id) by {
                assert(all.to_set().contains(id) == logic.state.sticky.contains_key(id));
                assert(due.contains(id) == ids.contains(id));
                assert(!BatchModel::empty().succeeded.contains(id));
                assert(!BatchModel::empty().failed.contains(id));
            }
            assert forall|id: u64| #[trigger] batch.failed.contains(id) implies {
                &&& state.sticky.contains_key(id)
                &&& state.sticky[id] == logic.state.sticky[id]
            } by {
                assert(due.contains(id));
                assert(!batch.succeeded.contains(id));
            }
        }
    }
}

/// The windows that worked have left the stage, and are sticky again if they
/// were; those the compositor refused are staged as they were.
pub open spec fn unstaged_as_reported(
    start: StateModel,
    state: StateModel,
    windows: Seq<WindowModel>,
    batch: BatchModel,
) -> bool {
    &&& forall|id: u64|
        #[trigger] batch.succeeded.contains(id) ==> {
            &&& !state.staged.contains_key(id)
            &&& state.sticky.contains_key(id) == (start.staged[id].was_sticky
                || start.sticky.contains_key(id))
            &&& start.staged[id].was_sticky ==> state.sticky[id] == start.staged[id].pin
        }
    &&& forall|id: u64|
        !#[trigger] batch.succeeded.contains(id) ==> {
            &&& state.sticky.contains_key(id) == start.sticky.contains_key(id)
            &&& state.sticky.contains_key(id) ==> state.sticky[id] == start.sticky[id]
            &&& state.staged.contains_key(id) ==> {
                &&& start.staged.contains_key(id)
                &&& state.staged[id] == start.staged[id]
            }
            &&& has_window(windows, id) ==> state.staged.contains_key(id)
                == start.staged.contains_key(id)
        }
}

/// The windows that the compositor does not have.
pub open spec fn gone_from(windows: Seq<WindowModel>) -> Set<u64> {
    Set::new(|id: u64| !has_window(windows, id))
}

proof fn unstaging_each_is_reported(
    talk: Conv,
    start: StateModel,
    logic: LogicModel,
    ids: Seq<u64>,
    windows: Seq<WindowModel>,
    workspace_id: u64,
    done: BatchModel,
)
    requires
        is_fresh(ids, done),
        unstaged_as_reported(start, logic.state, windows, done),
        forall|id: u64| #[trigger] ids.contains(id) ==> start.staged.contains_key(id),
        forall|id: u64| #[trigger]
            logic.state.staged.contains_key(id) && !has_window(windows, id) ==> ids.contains(id),
    ensures
        unstage_each_run(talk, logic, ids, windows, workspace_id, done).out matches Some(
            Ok(batch),
        ) ==> {
            let state = unstage_each_run(
                talk,
                logic,
                ids,
                windows,
                workspace_id,
                done,
            ).logic.state;
            &&& unstaged_as_reported(start, state, windows, batch)
            &&& reports(ids, gone_from(windows), done, batch)
            &&& forall|id: u64| #[trigger]
                state.staged.contains_key(id) ==> has_window(windows, id)
        },
    decreases ids.len(),
{
    if ids.len() > 0 {
        let id = ids[0];
        let rest = ids.drop_first();
        let moving = ask_done(talk, ActionModel::MoveWindow { window_id: id, workspace_id });
        let gone = logic.with(logic.state.off_stage(id));
        one_less(ids, done);
        one_more(done.succeeded, id);
        one_more(done.failed, id);
        assert(ids.contains(id));
        assert(!done.succeeded.contains(id));
        if !has_window(windows, id) {
            unstaging_each_is_reported(talk, start, gone, rest, windows, workspace_id, done);
        } else {
            match moving.out {
                Some(Ok(())) => {
                    let back = logic.with(logic.state.unstage(id));
                    assert(logic.state.staged[id] == start.staged[id]);
                    unstaging_each_is_reported(
                        moving.talk,
                        start,
                        back,
                        rest,
                        windows,
                        workspace_id,
                        done.success(id),
                    );
                },
                _ => {
                    unstaging_each_is_reported(
                        moving.talk,
                        start,
                        logic,
                        rest,
                        windows,
                        workspace_id,
                        done.failure(id),
                    );
                },
            }
        }
        let run = unstage_each_run(talk, logic, ids, windows, workspace_id, done);
        let skipped = gone_from(windows);
        if let Some(Ok(batch)) = run.out {
            if !has_window(windows, id) {
                reported_before(ids, skipped, done, done, batch);
            } else if moving.out matches Some(Ok(_)) {
                reported_before(ids, skipped, done, done.success(id), batch);
            } else {
                reported_before(ids, skipped, done, done.failure(id), batch);
            }
        }
    }
}

/// Unstaging every window reports each one that is still open, once: those that
/// worked have left the stage and are sticky again if they were, and those the
/// compositor refused are staged as before. A window that is gone has left the
/// stage, and is not reported.
pub proof fn unstaging_all_is_reported(talk: Conv, logic: LogicModel, workspace_id: u64)
    requires
        logic.state.staged != Map::<u64, StagedModel>::empty(),
    ensures
        unstage_all_run(talk, logic, workspace_id).out matches Some(Ok(batch)) ==> {
            let state = unstage_all_run(talk, logic, workspace_id).logic.state;
            &&& ask_windows(talk).out matches Some(Ok(windows))
            &&& reported_once(
                Set::new(|id: u64| logic.state.staged.contains_key(id) && has_window(windows, id)),
                batch,
            )
            &&& unstaged_as_reported(logic.state, state, windows, batch)
            &&& forall|id: u64| #[trigger]
                state.staged.contains_key(id) <==> batch.failed.contains(id)
        },
{
    reveal(unstage_all_run);
    let windows = ask_windows(talk);
    if let Some(Ok(ws)) = windows.out {
        let ids = sorted_ids(logic.state.staged.dom());
        sorted_ids_are_sorted(logic.state.staged.dom());
        ascending_has_no_duplicates(ids);
        assert forall|id: u64| #[trigger] ids.contains(id) <==> logic.state.staged.contains_key(
            id,
        ) by {
            assert(ids.to_set().contains(id) == logic.state.staged.contains_key(id));
        }
        unstaging_each_is_reported(
            windows.talk,
            logic.state,
            logic,
            ids,
            ws,
            workspace_id,
            BatchModel::empty(),
        );
        if let Some(Ok(batch)) = unstage_all_run(talk, logic, workspace_id).out {
            let state = unstage_all_run(talk, logic, workspace_id).logic.state;
            assert forall|id: u64| #[trigger] state.staged.contains_key(id)
                <==> batch.failed.contains(id) by {
                if state.staged.contains_key(id) {
                    assert(!batch.succeeded.contains(id));
                    assert(ids.contains(id));
                }
                if batch.failed.contains(id) {
                    assert(!BatchModel::empty().failed.contains(id));
                    assert(!batch.succeeded.contains(id));
                    assert(ids.contains(id));
                }
            }
        }
    }
}

/// With nothing staged there is nothing to unstage: nothing is asked, nothing
/// reported, nothing changed.
pub proof fn nothing_is_unstaged_from_an_empty_stage(
    talk: Conv,
    logic: LogicModel,
    workspace_id: u64,
)
    requires
        logic.state.staged == Map::<u64, StagedModel>::empty(),
    ensures
        unstage_all_run(talk, logic, workspace_id).talk == talk,
        unstage_all_run(talk, logic, workspace_id).logic == logic,
        unstage_all_run(talk, logic, workspace_id).out == Some(Outcome::Ok(BatchModel::empty())),
{
    reveal(unstage_all_run);
}

/// The windows that worked were toggled: a staged one left the stage, and is
/// sticky again if it was; a sticky one is not sticky any more, and any other is.
/// The windows that failed are tracked as they were, and so are all others.
pub open spec fn toggled_as_reported(
    start: StateModel,
    state: StateModel,
    batch: BatchModel,
) -> bool {
    &&& state.pads == start.pads
    &&& forall|id: u64|
        #[trigger] batch.succeeded.contains(id) ==> {
            &&& start.staged.contains_key(id) || !is_parked(start.pads, id)
            &&& !state.staged.contains_key(id)
            &&& state.sticky.contains_key(id) == (if start.staged.contains_key(id) {
                start.staged[id].was_sticky || start.sticky.contains_key(id)
            } else {
                !start.sticky.contains_key(id)
            })
            &&& start.staged.contains_key(id) && start.staged[id].was_sticky ==> state.sticky[id]
                == start.staged[id].pin
        }
    &&& forall|id: u64|
        !#[trigger] batch.succeeded.contains(id) ==> {
            &&& state.sticky.contains_key(id) == start.sticky.contains_key(id)
            &&& state.sticky.contains_key(id) ==> state.sticky[id] == start.sticky[id]
            &&& state.staged.contains_key(id) == start.staged.contains_key(id)
            &&& state.staged.contains_key(id) ==> state.staged[id] == start.staged[id]
        }
}

proof fn toggling_each_is_reported(
    talk: Conv,
    start: StateModel,
    logic: LogicModel,
    ids: Seq<u64>,
    workspace_id: u64,
    windows: Seq<WindowModel>,
    layout: Seq<WorkspaceModel>,
    done: BatchModel,
)
    requires
        is_fresh(ids, done),
        toggled_as_reported(start, logic.state, done),
    ensures
        ({
            let run = toggle_each_run(talk, logic, ids, workspace_id, windows, layout, done);
            run.out matches Some(Ok(batch)) ==> {
                &&& toggled_as_reported(start, run.logic.state, batch)
                &&& reports(ids, Set::empty(), done, batch)
            }
        }),
    decreases ids.len(),
{
    if ids.len() > 0 {
        let id = ids[0];
        let rest = ids.drop_first();
        let moving = ask_done(talk, ActionModel::MoveWindow { window_id: id, workspace_id });
        one_less(ids, done);
        one_more(done.succeeded, id);
        one_more(done.failed, id);
        assert(ids.contains(id));
        assert(!done.succeeded.contains(id));
        let run = toggle_each_run(talk, logic, ids, workspace_id, windows, layout, done);
        if logic.state.staged.contains_key(id) {
            if moving.out matches Some(Ok(_)) {
                toggling_each_is_reported(
                    moving.talk,
                    start,
                    logic.with(logic.state.unstage(id)),
                    rest,
                    workspace_id,
                    windows,
                    layout,
                    done.success(id),
                );
            } else {
                toggling_each_is_reported(
                    moving.talk,
                    start,
                    logic,
                    rest,
                    workspace_id,
                    windows,
                    layout,
                    done.failure(id),
                );
            }
        } else {
            let pin = default_pin(logic.config.sticky_follow, windows, layout, id);
            toggling_each_is_reported(
                talk,
                start,
                logic.with(flipped(logic.state, id, pin)),
                rest,
                workspace_id,
                windows,
                layout,
                if is_parked(logic.state.pads, id) {
                    done.failure(id)
                } else {
                    done.success(id)
                },
            );
        }
        if let Some(Ok(batch)) = run.out {
            if reports(rest, Set::empty(), done.success(id), batch) {
                reported_before(ids, Set::empty(), done, done.success(id), batch);
            }
            if reports(rest, Set::empty(), done.failure(id), batch) {
                reported_before(ids, Set::empty(), done, done.failure(id), batch);
            }
        }
    }
}

/// Toggling several windows reports each of them once: those that worked were
/// toggled, and those that the compositor refused to move, or that a scratchpad
/// parked, are tracked as before.
pub proof fn toggling_several_is_reported(talk: Conv, logic: LogicModel, ids: Seq<u64>)
    requires
        ids.no_duplicates(),
    ensures
        toggle_run(talk, logic, ids).out matches Some(Ok(batch)) ==> {
            let state = toggle_run(talk, logic, ids).logic.state;
            &&& reported_once(ids.to_set(), batch)
            &&& toggled_as_reported(logic.state, state, batch)
        },
{
    let workspace = ask_active_workspace(talk);
    let windows = ask_windows(workspace.talk);
    let layout = ask_workspaces(windows.talk);
    toggling_each_is_reported(
        layout.talk,
        logic.state,
        logic,
        ids,
        workspace.out->0->Ok_0,
        windows.out->0->Ok_0,
        layout.out->0->Ok_0,
        BatchModel::empty(),
    );
    if let Some(Ok(batch)) = toggle_run(talk, logic, ids).out {
        assert forall|id: u64| #[trigger] ids.to_set().contains(id) <==> batch.succeeded.contains(
            id,
        ) || batch.failed.contains(id) by {
            assert(!BatchModel::empty().succeeded.contains(id));
            assert(!BatchModel::empty().failed.contains(id));
            assert(ids.to_set().contains(id) == ids.contains(id));
        }
    }
}

// Saving.

/// Every window that is staged or parked has a position that is a point, or none.
pub open spec fn is_at_points(state: StateModel) -> bool {
    &&& forall|id: u64| #[trigger]
        state.staged.contains_key(id) ==> is_at_a_point(record_of(id, state.staged[id]))
    &&& forall|label: Seq<char>| #[trigger]
        state.pads.contains_key(label) ==> is_at_a_point(state.pads[label])
}

/// A state that was saved is not written again until it changes. A position that
/// is no number never equals itself, so a state with such a one is left out.
pub proof fn an_unchanged_state_is_not_written_again(talk: Conv, later: Conv, logic: LogicModel)
    requires
        is_at_points(logic.state),
        ask_persist(talk, logic).out is Some,
        ask_persist(talk, logic).logic.persisted is Some,
    ensures
        ask_persist(later, ask_persist(talk, logic).logic).talk == later,
        ask_persist(later, ask_persist(talk, logic).logic).out is Some,
{
    let snapshot = logic.state.snapshot();
    let ids = sorted_ids(logic.state.staged.dom());
    sorted_ids_are_sorted(logic.state.staged.dom());
    assert forall|i: int| 0 <= i < snapshot.staged.len() implies is_at_a_point(
        #[trigger] snapshot.staged[i],
    ) by {
        assert(ids.to_set().contains(ids[i]));
    }
    a_state_is_stored_like_itself(snapshot);
}

/// A state that could not be saved is tried again with whatever is saved next,
/// changed or not.
pub proof fn a_failed_save_is_tried_again(
    talk: Conv,
    later: Conv,
    logic: LogicModel,
    state: StateModel,
)
    requires
        !is_stored(logic.persisted, logic.state.snapshot()),
        ask_done(talk, ActionModel::SaveState { state: logic.state.snapshot() }).out matches Some(
            Err(_),
        ),
    ensures
        ask_persist(later, ask_persist(talk, logic).logic.with(state)).talk == later.ask(
            ActionModel::SaveState { state: state.snapshot() },
        ),
{
}

/// What a request is answered, and what it changes, does not depend on whether
/// the state could be saved.
pub proof fn a_failed_save_is_no_failure(talk: Conv, logic: LogicModel, request: RequestModel)
    requires
        request_run(talk, logic, request).out is Some,
    ensures
        request_run(talk, logic, request).out == dispatch_run(talk, logic, request).out,
        request_run(talk, logic, request).logic.state == dispatch_run(
            talk,
            logic,
            request,
        ).logic.state,
{
}

/// After a request the state is on disk as it is, or the save was refused.
pub proof fn requests_are_saved(talk: Conv, logic: LogicModel, request: RequestModel)
    requires
        !(request is Reload),
        !(request is Scratchpad),
        request_run(talk, logic, request).out is Some,
    ensures
        ({
            let run = request_run(talk, logic, request);
            let snapshot = run.logic.state.snapshot();
            ||| run.logic.persisted == Some(snapshot)
            ||| is_stored(run.logic.persisted, snapshot)
            ||| run.logic.persisted is None
        }),
{
}

/// A request that only reads changes nothing.
pub proof fn reading_changes_nothing(talk: Conv, logic: LogicModel)
    ensures
        request_run(talk, logic, RequestModel::List).logic.state == logic.state,
        request_run(talk, logic, RequestModel::StageList).logic.state == logic.state,
        request_run(talk, logic, RequestModel::Windows).logic.state == logic.state,
{
    reveal(dispatch_run);
    reveal(list_run);
}

/// A request that only reads writes nothing over a file that was not read yet:
/// a daemon that tracks nothing saves nothing.
pub proof fn reading_does_not_write(talk: Conv, logic: LogicModel)
    requires
        is_stored(logic.persisted, logic.state.snapshot()),
    ensures
        request_run(talk, logic, RequestModel::StageList).talk == talk,
        request_run(talk, logic, RequestModel::List).talk == ask_windows(talk).talk,
        request_run(talk, logic, RequestModel::Windows).talk == ask_windows(talk).talk,
{
    reveal(dispatch_run);
    reveal(list_run);
}

// Events.

/// A stage rule fires once per window: after it parked one, the next events of
/// that window do nothing, so that a restore is not undone.
pub proof fn a_stage_rule_fires_once(
    talk: Conv,
    later: Conv,
    logic: LogicModel,
    id: u64,
    facts: FactsModel,
    changed: FactsModel,
)
    requires
        match_of(logic.config, facts) matches Some(matched) && matched.action
            == WindowAction::Stage,
        changed_run(talk, logic, id, facts).out matches Some(Ok(_)),
        match_of(changed_run(talk, logic, id, facts).logic.config, changed) matches Some(matched)
            && matched.action == WindowAction::Stage,
    ensures
        ({
            let after = changed_run(talk, logic, id, facts).logic;
            let again = changed_run(later, after, id, changed);
            &&& again.talk == later
            &&& again.logic == after
        }),
{
    reveal(changed_run);
}

/// A stage rule whose move was refused is tried again with the next event.
pub proof fn a_refused_stage_rule_is_tried_again(
    talk: Conv,
    logic: LogicModel,
    id: u64,
    facts: FactsModel,
)
    requires
        changed_run(talk, logic, id, facts).out matches Some(Err(_)),
    ensures
        changed_run(talk, logic, id, facts).logic == logic,
{
    reveal(changed_run);
    reveal(stage_run);
}

/// Nothing is left of a window that was closed.
pub proof fn closed_windows_are_forgotten(talk: Conv, logic: LogicModel, id: u64)
    ensures
        closed_run(talk, logic, id).logic.state == logic.state.forget(id),
{
    reveal(closed_run);
}

/// The move of a sticky window when a workspace is focused, if there is one.
pub open spec fn moves_along(
    sticky: Map<u64, Pin>,
    windows: Seq<WindowModel>,
    layout: Seq<WorkspaceModel>,
    focused: u64,
) -> spec_fn(u64) -> Option<ActionModel> {
    |id: u64|
        match target_of(sticky[id], window_output(windows, layout, id), layout, focused) {
            Some(workspace_id) => Some(ActionModel::MoveWindow { window_id: id, workspace_id }),
            None => None,
        }
}

proof fn filter_map_first<A, B>(s: Seq<A>, f: spec_fn(A) -> Option<B>)
    requires
        s.len() > 0,
    ensures
        s.filter_map(f) == (match f(s[0]) {
            Some(x) => seq![x],
            None => Seq::empty(),
        }) + s.drop_first().filter_map(f),
    decreases s.len(),
{
    if s.len() == 1 {
        Seq::lemma_filter_map_singleton(s[0], f);
        assert(s =~= seq![s[0]]);
        assert(s.drop_first() =~= Seq::empty());
        assert(s.drop_first().filter_map(f) =~= Seq::empty());
    } else {
        filter_map_first(s.drop_last(), f);
        assert(s.drop_last().drop_first() =~= s.drop_first().drop_last());
        assert(s.drop_first().last() == s.last());
    }
}

proof fn filter_map_has<A, B>(s: Seq<A>, f: spec_fn(A) -> Option<B>, i: int)
    requires
        0 <= i < s.len(),
        f(s[i]) is Some,
    ensures
        s.filter_map(f).contains(f(s[i])->0),
    decreases s.len(),
{
    filter_map_first(s, f);
    let rest = s.drop_first();
    if i == 0 {
        assert(s.filter_map(f)[0] == f(s[0])->0);
    } else {
        filter_map_has(rest, f, i - 1);
        let x = f(s[i])->0;
        let k = choose|k: int| 0 <= k < rest.filter_map(f).len() && rest.filter_map(f)[k] == x;
        let n = s.filter_map(f).len() - rest.filter_map(f).len();
        assert(s.filter_map(f)[n + k] == f(s[i])->0);
    }
}

proof fn each_moves_along(
    talk: Conv,
    logic: LogicModel,
    ids: Seq<u64>,
    windows: Seq<WindowModel>,
    layout: Seq<WorkspaceModel>,
    focused: u64,
)
    ensures
        ({
            let run = follow_each_run(talk, logic, ids, windows, layout, focused);
            let moves = ids.filter_map(moves_along(logic.state.sticky, windows, layout, focused));
            &&& run.logic == logic
            &&& run.out is Some ==> run.talk.asked == talk.asked + moves
        }),
    decreases ids.len(),
{
    let f = moves_along(logic.state.sticky, windows, layout, focused);
    if ids.len() == 0 {
        assert(talk.asked + ids.filter_map(f) =~= talk.asked);
    } else {
        let rest = ids.drop_first();
        filter_map_first(ids, f);
        match f(ids[0]) {
            None => {
                each_moves_along(talk, logic, rest, windows, layout, focused);
                assert(ids.filter_map(f) =~= rest.filter_map(f));
            },
            Some(action) => {
                let moving = ask_done(talk, action);
                each_moves_along(moving.talk, logic, rest, windows, layout, focused);
                assert(moving.talk.asked + rest.filter_map(f) =~= talk.asked + ids.filter_map(f));
            },
        }
    }
}

/// When the focus moves to another workspace, every sticky window that is open
/// is moved to where its pin wants it, one after the other, also where the
/// compositor refused to move one of them, and nothing else is moved. A window
/// without a pin, or with a pin to outputs that are not connected, comes along
/// to the focused workspace.
pub proof fn sticky_windows_follow_the_focus(
    talk: Conv,
    logic: LogicModel,
    windows: Seq<WindowModel>,
    layout: Seq<WorkspaceModel>,
    focused: u64,
)
    requires
        ask_windows(talk).out == Some(Outcome::Ok(windows)),
        ask_workspaces(ask_windows(talk).talk).out == Some(Outcome::Ok(layout)),
        activation_run(talk, logic, focused).out is Some,
    ensures
        ({
            let run = activation_run(talk, logic, focused);
            let open = retained(logic.state.sticky, windows);
            &&& run.logic.state == (StateModel { sticky: open, ..logic.state })
            &&& run.talk.asked == talk.asked + seq![ActionModel::Windows, ActionModel::Workspaces]
                + sorted_ids(open.dom()).filter_map(moves_along(open, windows, layout, focused))
            &&& forall|id: u64| #[trigger]
                open.contains_key(id) && !any(open[id], connected(layout))
                    ==> run.talk.asked.contains(
                    ActionModel::MoveWindow { window_id: id, workspace_id: focused },
                )
        }),
{
    reveal(activation_run);
    let run = activation_run(talk, logic, focused);
    let open = retained(logic.state.sticky, windows);
    let state = StateModel { sticky: open, ..logic.state };
    let ids = sorted_ids(open.dom());
    let f = moves_along(open, windows, layout, focused);
    let start = ask_workspaces(ask_windows(talk).talk).talk;
    each_moves_along(start, logic.with(state), ids, windows, layout, focused);
    let head = talk.asked + seq![ActionModel::Windows, ActionModel::Workspaces];
    assert(start.asked =~= head);
    assert forall|id: u64| #[trigger]
        open.contains_key(id) && !any(open[id], connected(layout)) implies run.talk.asked.contains(
        ActionModel::MoveWindow { window_id: id, workspace_id: focused },
    ) by {
        unpinned_windows_follow_the_focus(
            open[id],
            window_output(windows, layout, id),
            layout,
            focused,
        );
        sorted_ids_are_sorted(open.dom());
        assert(ids.to_set().contains(id));
        let i = choose|i: int| 0 <= i < ids.len() && ids[i] == id;
        filter_map_has(ids, f, i);
        let move_it = ActionModel::MoveWindow { window_id: id, workspace_id: focused };
        let k = choose|k: int| 0 <= k < ids.filter_map(f).len() && ids.filter_map(f)[k] == move_it;
        assert(run.talk.asked[head.len() + k] == move_it);
    }
}

/// A sticky rule is declarative: whenever a window it matches opens or changes,
/// the window is sticky, pinned to the rule's outputs where it has some. Only a
/// window that is staged, or parked by a scratchpad, is left there.
pub proof fn a_sticky_rule_makes_its_windows_sticky(
    talk: Conv,
    logic: LogicModel,
    id: u64,
    facts: FactsModel,
)
    requires
        match_of(logic.config, facts) matches Some(matched) && matched.action
            == WindowAction::Sticky,
        changed_run(talk, logic, id, facts).out matches Some(Ok(_)),
    ensures
        ({
            let after = changed_run(talk, logic, id, facts).logic.state;
            let outputs = match_of(logic.config, facts)->0.outputs;
            &&& is_elsewhere(logic.state, id) ==> after == logic.state
            &&& !is_elsewhere(logic.state, id) ==> after.sticky.contains_key(id)
            &&& !is_elsewhere(logic.state, id) && outputs.len() > 0 ==> after.sticky[id] == outputs
        }),
{
    reveal(changed_run);
}

/// A window that a scratchpad parked does not become sticky by a request: it is
/// refused, also as the focused window, and stays as it is.
pub proof fn a_parked_window_is_not_made_sticky(talk: Conv, logic: LogicModel, id: u64)
    requires
        is_parked(logic.state.pads, id),
        !logic.state.staged.contains_key(id),
        !logic.state.sticky.contains_key(id),
    ensures
        add_run(talk, logic, id).logic == logic,
        !(add_run(talk, logic, id).out matches Some(Ok(_))),
        ask_active_window(talk).out == Some(Outcome::Ok(id)) ==> {
            &&& toggle_active_run(talk, logic).logic == logic
            &&& !(toggle_active_run(talk, logic).out matches Some(Ok(_)))
        },
{
    reveal(add_run);
    reveal(toggle_active_run);
}

/// Toggling the focused window twice leaves everything as it was, where it was
/// neither sticky, staged nor parked.
pub proof fn toggling_twice_undoes_itself(talk: Conv, later: Conv, logic: LogicModel, id: u64)
    requires
        !logic.state.sticky.contains_key(id),
        !is_elsewhere(logic.state, id),
        ask_active_window(talk).out == Some(Outcome::Ok(id)),
        ask_active_window(later).out == Some(Outcome::Ok(id)),
        toggle_active_run(talk, logic).out matches Some(Ok(_)),
        toggle_active_run(later, toggle_active_run(talk, logic).logic).out matches Some(Ok(_)),
    ensures
        toggle_active_run(talk, logic).out == Some(Outcome::Ok(true)),
        toggle_active_run(later, toggle_active_run(talk, logic).logic).out == Some(
            Outcome::Ok(false),
        ),
        toggle_active_run(later, toggle_active_run(talk, logic).logic).logic.state == logic.state,
{
    reveal(toggle_active_run);
    reveal(add_run);
    let first = toggle_active_run(talk, logic).logic;
    assert(first.state.sticky.remove(id) =~= logic.state.sticky);
}

// Parking areas.

/// A parking area in use keeps its name, and so does the stage where it is to be
/// kept: the compositor is not even asked.
pub proof fn parking_areas_in_use_keep_their_names(
    talk: Conv,
    config: ConfigModel,
    state: StateModel,
    id: u64,
    label: Seq<char>,
)
    ensures
        config.stage_keep_workspace ==> ask_release(
            talk,
            config,
            state,
            config.stage_workspace,
        ).talk == talk,
        state.staged.contains_key(id) ==> ask_release(
            talk,
            config,
            state,
            config.stage_workspace,
        ).talk == talk,
        state.pads.contains_key(label) && config.scratchpad_workspace != config.stage_workspace
            ==> ask_release(talk, config, state, config.scratchpad_workspace).talk == talk,
{
}

/// A parking area is given back in the course of a dialogue: its workspace is
/// looked up, and loses its name where there is one.
pub open spec fn gives_back(
    from: Conv,
    to: Conv,
    config: ConfigModel,
    state: StateModel,
    name: Seq<char>,
) -> bool {
    &&& is_releasable(config, state, name)
    &&& exists|at: Conv|
        tidy(from, at, true) && goes_on(
            (#[trigger] ask_release(at, config, state, name)).talk,
            to,
        )
}

/// The stage is given back in the course of a dialogue.
pub open spec fn gives_back_the_stage(
    from: Conv,
    to: Conv,
    config: ConfigModel,
    state: StateModel,
) -> bool {
    gives_back(from, to, config, state, config.stage_workspace)
}

/// However the last window leaves the stage, the stage is given back: by a
/// toggle, by being unstaged, alone or with the others, into a scratchpad, or by
/// being closed.
pub proof fn an_emptied_stage_is_given_back(
    talk: Conv,
    logic: LogicModel,
    id: u64,
    ids: Seq<u64>,
    workspace_id: u64,
    label: Seq<char>,
)
    requires
        logic.state.staged != Map::<u64, StagedModel>::empty(),
        !logic.config.stage_keep_workspace,
    ensures
        ({
            let run = toggle_active_run(talk, logic);
            run.out matches Some(Ok(_)) && run.logic.state.staged
                == Map::<u64, StagedModel>::empty() ==> gives_back_the_stage(
                talk,
                run.talk,
                logic.config,
                run.logic.state,
            )
        }),
        ({
            let run = toggle_run(talk, logic, ids);
            run.out matches Some(Ok(_)) && run.logic.state.staged
                == Map::<u64, StagedModel>::empty() ==> gives_back_the_stage(
                talk,
                run.talk,
                logic.config,
                run.logic.state,
            )
        }),
        ({
            let run = unstage_run(talk, logic, id, workspace_id);
            run.out matches Some(Ok(_)) && run.logic.state.staged
                == Map::<u64, StagedModel>::empty() ==> gives_back_the_stage(
                talk,
                run.talk,
                logic.config,
                run.logic.state,
            )
        }),
        ({
            let run = unstage_all_run(talk, logic, workspace_id);
            run.out matches Some(Ok(_)) && run.logic.state.staged
                == Map::<u64, StagedModel>::empty() ==> gives_back_the_stage(
                talk,
                run.talk,
                logic.config,
                run.logic.state,
            )
        }),
        ({
            let run = park_run(talk, logic, label, id);
            run.out matches Some(Ok(_)) && run.logic.state.staged
                == Map::<u64, StagedModel>::empty() ==> gives_back_the_stage(
                talk,
                run.talk,
                logic.config,
                run.logic.state,
            )
        }),
        ({
            let run = closed_run(talk, logic, id);
            run.out is Some && run.logic.state.staged == Map::<u64, StagedModel>::empty()
                ==> gives_back_the_stage(talk, run.talk, logic.config, run.logic.state)
        }),
{
    toggling_gives_the_stage_back(talk, logic, ids);
    unstaging_gives_the_stage_back(talk, logic, id, workspace_id);
    parking_gives_the_stage_back(talk, logic, label, id);
    let closing = closed_run(talk, logic, id);
    closed_windows_are_forgotten(talk, logic, id);
    if closing.out is Some && closing.logic.state.staged == Map::<u64, StagedModel>::empty() {
        assert(logic.state.staged.contains_key(id)) by {
            if !logic.state.staged.contains_key(id) {
                assert(logic.state.staged =~= logic.state.staged.remove(id));
            }
        }
        closing_gives_the_areas_back(talk, logic, id);
    }
}

/// When the last scratchpad window is back or closed, the scratchpad area is
/// given back, also where the window could not be focused.
pub proof fn an_emptied_scratchpad_area_is_given_back(
    talk: Conv,
    logic: LogicModel,
    pad: Option<PadModel>,
    label: Seq<char>,
    id: u64,
)
    requires
        logic.state.pads != RecordMap::empty(),
        logic.config.scratchpad_workspace != logic.config.stage_workspace,
    ensures
        ({
            let run = show_run(talk, logic, pad, label);
            run.out is Some && run.logic.state.pads == RecordMap::empty() ==> gives_back(
                talk,
                run.talk,
                logic.config,
                run.logic.state,
                logic.config.scratchpad_workspace,
            )
        }),
        ({
            let run = closed_run(talk, logic, id);
            run.out is Some && run.logic.state.pads == RecordMap::empty() ==> gives_back(
                talk,
                run.talk,
                logic.config,
                run.logic.state,
                logic.config.scratchpad_workspace,
            )
        }),
{
    broadcast use {
        ask_active_workspace_is_tidy, ask_done_is_tidy, ask_float_is_tidy, ask_resize_is_tidy,
        ask_place_is_tidy, ask_persist_is_tidy, passes,
    };

    reveal(show_run);
    let closing = closed_run(talk, logic, id);
    closed_windows_are_forgotten(talk, logic, id);
    if closing.out is Some && closing.logic.state.pads == RecordMap::empty() {
        assert(is_parked(logic.state.pads, id)) by {
            if !is_parked(logic.state.pads, id) {
                assert(logic.state.pads =~= pads_without(logic.state.pads, id));
            }
        }
        closing_gives_the_areas_back(talk, logic, id);
    }
    reveal(tidy);
    reveal(goes_on);
}

proof fn closing_gives_the_areas_back(talk: Conv, logic: LogicModel, id: u64)
    requires
        closed_run(talk, logic, id).out is Some,
        logic.state.staged.contains_key(id) || is_parked(logic.state.pads, id),
    ensures
        ({
            let run = closed_run(talk, logic, id);
            let config = logic.config;
            &&& is_releasable(config, run.logic.state, config.stage_workspace)
                ==> gives_back_the_stage(talk, run.talk, config, run.logic.state)
            &&& is_releasable(config, run.logic.state, config.scratchpad_workspace) ==> gives_back(
                talk,
                run.talk,
                config,
                run.logic.state,
                config.scratchpad_workspace,
            )
        }),
{
    broadcast use {
        ask_release_is_tidy, ask_persist_is_tidy, passes, staying_is_tidy,
    };

    reveal(closed_run);
    reveal(tidy);
    reveal(goes_on);
}

proof fn toggling_gives_the_stage_back(talk: Conv, logic: LogicModel, ids: Seq<u64>)
    requires
        logic.state.staged != Map::<u64, StagedModel>::empty(),
        !logic.config.stage_keep_workspace,
    ensures
        ({
            let run = toggle_active_run(talk, logic);
            run.out matches Some(Ok(_)) && run.logic.state.staged
                == Map::<u64, StagedModel>::empty() ==> gives_back_the_stage(
                talk,
                run.talk,
                logic.config,
                run.logic.state,
            )
        }),
        ({
            let run = toggle_run(talk, logic, ids);
            run.out matches Some(Ok(_)) && run.logic.state.staged
                == Map::<u64, StagedModel>::empty() ==> gives_back_the_stage(
                talk,
                run.talk,
                logic.config,
                run.logic.state,
            )
        }),
{
    broadcast use {
        ask_active_window_is_tidy, ask_active_workspace_is_tidy, ask_done_is_tidy,
        ask_windows_is_tidy, ask_workspaces_is_tidy, toggle_each_run_is_tidy, passes,
        staying_is_tidy,
    };

    reveal(toggle_active_run);
    reveal(add_run);
    reveal(goes_on);
}

proof fn unstaging_gives_the_stage_back(
    talk: Conv,
    logic: LogicModel,
    id: u64,
    workspace_id: u64,
)
    requires
        logic.state.staged != Map::<u64, StagedModel>::empty(),
        !logic.config.stage_keep_workspace,
    ensures
        ({
            let run = unstage_run(talk, logic, id, workspace_id);
            run.out matches Some(Ok(_)) && run.logic.state.staged
                == Map::<u64, StagedModel>::empty() ==> gives_back_the_stage(
                talk,
                run.talk,
                logic.config,
                run.logic.state,
            )
        }),
        ({
            let run = unstage_all_run(talk, logic, workspace_id);
            run.out matches Some(Ok(_)) && run.logic.state.staged
                == Map::<u64, StagedModel>::empty() ==> gives_back_the_stage(
                talk,
                run.talk,
                logic.config,
                run.logic.state,
            )
        }),
{
    broadcast use {
        ask_done_is_tidy, ask_windows_is_tidy, check_window_is_tidy, unstage_each_run_is_tidy,
        passes, staying_is_tidy,
    };

    reveal(unstage_run);
    reveal(unstage_all_run);
    reveal(goes_on);
}

proof fn parking_gives_the_stage_back(talk: Conv, logic: LogicModel, label: Seq<char>, id: u64)
    requires
        !logic.config.stage_keep_workspace,
    ensures
        ({
            let run = park_run(talk, logic, label, id);
            run.out matches Some(Ok(_)) && run.logic.state.staged
                == Map::<u64, StagedModel>::empty() ==> gives_back_the_stage(
                talk,
                run.talk,
                logic.config,
                run.logic.state,
            )
        }),
{
    broadcast use {
        ask_done_is_tidy, ask_geometry_is_tidy, ask_parking_is_tidy, ask_persist_is_tidy,
        check_window_is_tidy, passes, staying_is_tidy,
    };

    reveal(park_run);
    reveal(tidy);
    reveal(goes_on);
}

// Starting up.

/// After a start that could see the compositor's windows, every window is
/// either sticky, staged or parked by a scratchpad, and all of them are open.
pub proof fn reconciled_windows_are_in_one_place(
    state: StateModel,
    stored: StoredModel,
    windows: Seq<WindowModel>,
    layout: Seq<WorkspaceModel>,
    name: Seq<char>,
    id: u64,
)
    ensures
        ({
            let after = reconciled(state, stored, windows, on_stage(windows, layout, name));
            &&& !(after.sticky.contains_key(id) && after.staged.contains_key(id))
            &&& !(after.sticky.contains_key(id) && is_parked(after.pads, id))
            &&& !(after.staged.contains_key(id) && is_parked(after.pads, id))
            &&& after.sticky.contains_key(id) ==> has_window(windows, id)
            &&& after.staged.contains_key(id) ==> has_window(windows, id)
            &&& is_parked(after.pads, id) ==> has_window(windows, id)
        }),
{
    if let Some(stage) = crate::lists::find(layout, crate::pinning::named(name)) {
        if crate::lists::any(windows, super::reconcile::window_on(id, stage.id)) {
            let i = choose|i: int|
                0 <= i < windows.len() && super::reconcile::window_on(id, stage.id)(
                    #[trigger] windows[i],
                );
            crate::lists::find_is_exact(windows, super::window_with(id));
            assert(super::window_with(id)(windows[i]));
        }
    }
}

/// Whatever sits on the stage workspace is adopted, so that a stale state file
/// cannot orphan the windows parked there; a window that left it is not staged
/// any more.
pub proof fn the_stage_workspace_decides_what_is_staged(
    state: StateModel,
    stored: StoredModel,
    windows: Seq<WindowModel>,
    layout: Seq<WorkspaceModel>,
    name: Seq<char>,
    id: u64,
)
    requires
        on_stage(windows, layout, name) is Some,
        !is_parked(live_pads(stored, windows), id),
    ensures
        reconciled(
            state,
            stored,
            windows,
            on_stage(windows, layout, name),
        ).staged.contains_key(id) <==> on_stage(windows, layout, name)->0.contains(id),
{
}

// Reloading.

/// A new configuration changes pins, and nothing else of what is tracked.
pub proof fn reloading_changes_pins_only(talk: Conv, logic: LogicModel)
    ensures
        ({
            let after = reload_run(talk, logic).logic.state;
            &&& after.sticky.dom() =~= logic.state.sticky.dom()
            &&& after.staged == logic.state.staged
            &&& after.pads == logic.state.pads
            &&& after.auto_staged == logic.state.auto_staged
        }),
{
    reveal(reload_run);
}

} // verus!
