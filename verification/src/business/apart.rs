//! A window is either sticky, staged or parked by a scratchpad.
use vstd::prelude::*;
use super::{default_pin, existing, window_output, BatchModel, LogicModel};
use super::events::{activation_run, changed_run, closed_run, follow_each_run, retained};
use super::operation::{operation_run, OperationModel};
use super::laws::{ascending_has_no_duplicates, existing_ids_are_ascending, one_less};
use super::parking::{ask_geometry, ask_persist, Geometry};
use super::reconcile::{reconcile_run, reload_run, repin_run};
use super::requests::{dispatch_run, request_run, stage_toggle_active_run, workspace_run};
use super::scratchpad::{
    dress_run, focus_run, move_to_pad_run, park_run, scratchpad_run, show_run, start_run,
    toggle_pad_run,
};
use super::stage::{
    ask_stage, move_to_stage_run, stage_all_run, stage_each_run, stage_run,
    toggle_stage_selected_run, toggle_staged_run, unstage_all_run, unstage_each_run, unstage_run,
};
use super::sticky::{
    add_run, bring_back_run, flipped, list_run, remove_run, toggle_active_run, toggle_each_run,
    toggle_run, toggle_selected_run,
};
use crate::action::{ask_done, ask_windows, ask_workspaces, stored_in, ActionModel, Conv};
use crate::config::{ConfigModel, FactsModel, PadModel};
use crate::niri::{WindowModel, WorkspaceModel};
use crate::pinning::target_of;
use crate::protocol::RequestModel;
use crate::state::{is_parked, StateModel};
use crate::state_store::RecordModel;
use crate::tables::{sorted_ids, sorted_ids_are_sorted};

verus! {

/// No label holds a window that is sticky or staged.
pub open spec fn parked_apart(state: StateModel) -> bool {
    forall|label: Seq<char>| #[trigger]
        state.pads.contains_key(label) ==> !state.sticky.contains_key(state.pads[label].id)
            && !state.staged.contains_key(state.pads[label].id)
}

/// Every window is sticky, staged or parked by a scratchpad, or none of these: it
/// is in one place only.
pub open spec fn apart(state: StateModel) -> bool {
    &&& forall|id: u64| !(#[trigger] state.sticky.contains_key(id) && state.staged.contains_key(id))
    &&& parked_apart(state)
}

/// A state that is read back, and cannot be held against the compositor, has
/// every window in one place only.
pub open spec fn restores_apart(talk: Conv, logic: LogicModel) -> bool {
    talk.answer() matches Some(reply) ==> stored_in(reply) matches Some(stored) ==> (ask_windows(
        talk.ask(ActionModel::LoadState),
    ).out matches Some(Err(_)) ==> apart(logic.state.restore(stored)))
}

proof fn following_changes_nothing(
    talk: Conv,
    logic: LogicModel,
    ids: Seq<u64>,
    windows: Seq<WindowModel>,
    layout: Seq<WorkspaceModel>,
    focused: u64,
)
    ensures
        follow_each_run(talk, logic, ids, windows, layout, focused).logic == logic,
    decreases ids.len(),
{
    if ids.len() > 0 {
        let target = target_of(
            logic.state.sticky[ids[0]],
            window_output(windows, layout, ids[0]),
            layout,
            focused,
        );
        let moving = ask_done(
            talk,
            ActionModel::MoveWindow { window_id: ids[0], workspace_id: target->0 },
        );
        following_changes_nothing(talk, logic, ids.drop_first(), windows, layout, focused);
        following_changes_nothing(
            moving.talk,
            logic,
            ids.drop_first(),
            windows,
            layout,
            focused,
        );
    }
}

broadcast proof fn ask_persist_keeps_apart(talk: Conv, logic: LogicModel)
    requires
        apart(logic.state),
    ensures
        apart((#[trigger] ask_persist(talk, logic)).logic.state),
{
}

broadcast proof fn add_run_keeps_apart(talk: Conv, logic: LogicModel, id: u64)
    requires
        apart(logic.state),
    ensures
        apart((#[trigger] add_run(talk, logic, id)).logic.state),
{
    reveal(add_run);
}

broadcast proof fn remove_run_keeps_apart(talk: Conv, logic: LogicModel, id: u64)
    requires
        apart(logic.state),
    ensures
        apart((#[trigger] remove_run(talk, logic, id)).logic.state),
{
    reveal(remove_run);
}

broadcast proof fn bring_back_run_keeps_apart(talk: Conv, logic: LogicModel, id: u64)
    requires
        apart(logic.state),
        logic.state.staged.contains_key(id),
    ensures
        apart((#[trigger] bring_back_run(talk, logic, id)).logic.state),
{
}

broadcast proof fn toggle_active_run_keeps_apart(talk: Conv, logic: LogicModel)
    requires
        apart(logic.state),
    ensures
        apart((#[trigger] toggle_active_run(talk, logic)).logic.state),
{
    broadcast use {
        bring_back_run_keeps_apart, add_run_keeps_apart,
    };

    reveal(toggle_active_run);
}

broadcast proof fn toggle_each_run_keeps_apart(
    talk: Conv,
    logic: LogicModel,
    ids: Seq<u64>,
    workspace_id: u64,
    windows: Seq<WindowModel>,
    layout: Seq<WorkspaceModel>,
    done: BatchModel,
)
    requires
        apart(logic.state),
    ensures
        apart(
            (#[trigger] toggle_each_run(
                talk,
                logic,
                ids,
                workspace_id,
                windows,
                layout,
                done,
            )).logic.state,
        ),
    decreases ids.len(),
{
    if ids.len() > 0 {
        let id = ids[0];
        let rest = ids.drop_first();
        let moving = ask_done(talk, ActionModel::MoveWindow { window_id: id, workspace_id });
        if logic.state.staged.contains_key(id) {
            toggle_each_run_keeps_apart(
                moving.talk,
                logic,
                rest,
                workspace_id,
                windows,
                layout,
                done.failure(id),
            );
            toggle_each_run_keeps_apart(
                moving.talk,
                logic.with(logic.state.unstage(id)),
                rest,
                workspace_id,
                windows,
                layout,
                done.success(id),
            );
        } else {
            let pin = default_pin(logic.config.sticky_follow, windows, layout, id);
            toggle_each_run_keeps_apart(
                talk,
                logic.with(flipped(logic.state, id, pin)),
                rest,
                workspace_id,
                windows,
                layout,
                if is_parked(logic.state.pads, id) {
                    done.failure(id)
                } else {
                    done.success(id)
                },
            );
        }
    }
}

broadcast proof fn toggle_run_keeps_apart(talk: Conv, logic: LogicModel, ids: Seq<u64>)
    requires
        apart(logic.state),
    ensures
        apart((#[trigger] toggle_run(talk, logic, ids)).logic.state),
{
    broadcast use {
        toggle_each_run_keeps_apart,
    };
}

broadcast proof fn move_to_stage_run_keeps_apart(
    talk: Conv,
    logic: LogicModel,
    id: u64,
    workspace_id: u64,
    shape: Geometry,
)
    requires
        apart(logic.state),
        !is_parked(logic.state.pads, id),
    ensures
        apart((#[trigger] move_to_stage_run(talk, logic, id, workspace_id, shape)).logic.state),
{
}

broadcast proof fn stage_run_keeps_apart(talk: Conv, logic: LogicModel, id: u64)
    requires
        apart(logic.state),
    ensures
        apart((#[trigger] stage_run(talk, logic, id)).logic.state),
{
    broadcast use {
        move_to_stage_run_keeps_apart,
    };

    reveal(stage_run);
}

broadcast proof fn unstage_run_keeps_apart(
    talk: Conv,
    logic: LogicModel,
    id: u64,
    workspace_id: u64,
)
    requires
        apart(logic.state),
    ensures
        apart((#[trigger] unstage_run(talk, logic, id, workspace_id)).logic.state),
{
    reveal(unstage_run);
}

broadcast proof fn toggle_staged_run_keeps_apart(
    talk: Conv,
    logic: LogicModel,
    ids: Seq<u64>,
    workspace_id: u64,
    done: BatchModel,
)
    requires
        apart(logic.state),
    ensures
        apart((#[trigger] toggle_staged_run(talk, logic, ids, workspace_id, done)).logic.state),
    decreases ids.len(),
{
    broadcast use {
        unstage_run_keeps_apart, stage_run_keeps_apart,
    };

    if ids.len() > 0 {
        let id = ids[0];
        let one = if logic.state.staged.contains_key(id) {
            unstage_run(talk, logic, id, workspace_id)
        } else {
            stage_run(talk, logic, id)
        };
        toggle_staged_run_keeps_apart(
            one.talk,
            one.logic,
            ids.drop_first(),
            workspace_id,
            done.success(id),
        );
        toggle_staged_run_keeps_apart(
            one.talk,
            one.logic,
            ids.drop_first(),
            workspace_id,
            done.failure(id),
        );
    }
}

broadcast proof fn stage_each_run_keeps_apart(
    talk: Conv,
    logic: LogicModel,
    ids: Seq<u64>,
    known: Option<u64>,
    done: BatchModel,
)
    requires
        apart(logic.state),
        ids.no_duplicates(),
        forall|id: u64| #[trigger] ids.contains(id) ==> logic.state.sticky.contains_key(id),
    ensures
        apart((#[trigger] stage_each_run(talk, logic, ids, known, done)).logic.state),
    decreases ids.len(),
{
    broadcast use {
        move_to_stage_run_keeps_apart,
    };

    if ids.len() > 0 {
        let id = ids[0];
        let rest = ids.drop_first();
        let geometry = ask_geometry(talk, id);
        let stage = ask_stage(geometry.talk, logic.config.stage_workspace, id, known);
        let workspace_id = stage.out->0->Ok_0;
        let moving = move_to_stage_run(stage.talk, logic, id, workspace_id, geometry.out->0);
        one_less(ids, BatchModel::empty());
        assert(ids.contains(id));
        stage_each_run_keeps_apart(stage.talk, logic, rest, known, done.failure(id));
        stage_each_run_keeps_apart(
            moving.talk,
            logic,
            rest,
            Some(workspace_id),
            done.failure(id),
        );
        if moving.out matches Some(Ok(_)) {
            stage_each_run_keeps_apart(
                moving.talk,
                moving.logic,
                rest,
                Some(workspace_id),
                done.success(id),
            );
        }
    }
}

broadcast proof fn stage_all_run_keeps_apart(talk: Conv, logic: LogicModel)
    requires
        apart(logic.state),
    ensures
        apart((#[trigger] stage_all_run(talk, logic)).logic.state),
{
    reveal(stage_all_run);
    let windows = ask_windows(talk);
    if let Some(Ok(ws)) = windows.out {
        let all = sorted_ids(logic.state.sticky.dom());
        let ids = all.filter_map(existing(ws));
        sorted_ids_are_sorted(logic.state.sticky.dom());
        existing_ids_are_ascending(all, ws);
        ascending_has_no_duplicates(ids);
        assert forall|id: u64| #[trigger] ids.contains(id) implies logic.state.sticky.contains_key(
            id,
        ) by {
            assert(all.to_set().contains(id));
        }
        stage_each_run_keeps_apart(windows.talk, logic, ids, None, BatchModel::empty());
    }
}

broadcast proof fn unstage_each_run_keeps_apart(
    talk: Conv,
    logic: LogicModel,
    ids: Seq<u64>,
    windows: Seq<WindowModel>,
    workspace_id: u64,
    done: BatchModel,
)
    requires
        apart(logic.state),
        ids.no_duplicates(),
        forall|id: u64| #[trigger] ids.contains(id) ==> logic.state.staged.contains_key(id),
    ensures
        apart(
            (#[trigger] unstage_each_run(
                talk,
                logic,
                ids,
                windows,
                workspace_id,
                done,
            )).logic.state,
        ),
    decreases ids.len(),
{
    if ids.len() > 0 {
        let id = ids[0];
        let rest = ids.drop_first();
        let moving = ask_done(talk, ActionModel::MoveWindow { window_id: id, workspace_id });
        let gone = logic.with(logic.state.off_stage(id));
        one_less(ids, BatchModel::empty());
        assert(ids.contains(id));
        unstage_each_run_keeps_apart(talk, gone, rest, windows, workspace_id, done);
        unstage_each_run_keeps_apart(
            moving.talk,
            logic,
            rest,
            windows,
            workspace_id,
            done.failure(id),
        );
        unstage_each_run_keeps_apart(
            moving.talk,
            logic.with(logic.state.unstage(id)),
            rest,
            windows,
            workspace_id,
            done.success(id),
        );
    }
}

broadcast proof fn unstage_all_run_keeps_apart(talk: Conv, logic: LogicModel, workspace_id: u64)
    requires
        apart(logic.state),
    ensures
        apart((#[trigger] unstage_all_run(talk, logic, workspace_id)).logic.state),
{
    reveal(unstage_all_run);
    let windows = ask_windows(talk);
    if let Some(Ok(ws)) = windows.out {
        let ids = sorted_ids(logic.state.staged.dom());
        sorted_ids_are_sorted(logic.state.staged.dom());
        ascending_has_no_duplicates(ids);
        assert forall|id: u64| #[trigger] ids.contains(id) implies logic.state.staged.contains_key(
            id,
        ) by {
            assert(ids.to_set().contains(id));
        }
        unstage_each_run_keeps_apart(
            windows.talk,
            logic,
            ids,
            ws,
            workspace_id,
            BatchModel::empty(),
        );
    }
}

broadcast proof fn activation_run_keeps_apart(talk: Conv, logic: LogicModel, focused: u64)
    requires
        apart(logic.state),
    ensures
        apart((#[trigger] activation_run(talk, logic, focused)).logic.state),
{
    reveal(activation_run);
    if let Some(Ok(ws)) = ask_windows(talk).out {
        let workspaces = ask_workspaces(ask_windows(talk).talk);
        if let Some(Ok(layout)) = workspaces.out {
            let state = StateModel { sticky: retained(logic.state.sticky, ws), ..logic.state };
            following_changes_nothing(
                workspaces.talk,
                logic.with(state),
                sorted_ids(state.sticky.dom()),
                ws,
                layout,
                focused,
            );
        }
    }
}

broadcast proof fn changed_run_keeps_apart(
    talk: Conv,
    logic: LogicModel,
    id: u64,
    facts: FactsModel,
)
    requires
        apart(logic.state),
    ensures
        apart((#[trigger] changed_run(talk, logic, id, facts)).logic.state),
{
    broadcast use {
        stage_run_keeps_apart, ask_persist_keeps_apart,
    };

    reveal(changed_run);
}

broadcast proof fn closed_run_keeps_apart(talk: Conv, logic: LogicModel, id: u64)
    requires
        apart(logic.state),
    ensures
        apart((#[trigger] closed_run(talk, logic, id)).logic.state),
{
    broadcast use {
        ask_persist_keeps_apart,
    };

    reveal(closed_run);
}

broadcast proof fn focus_run_keeps_apart(talk: Conv, logic: LogicModel, id: u64)
    requires
        apart(logic.state),
    ensures
        apart((#[trigger] focus_run(talk, logic, id)).logic.state),
{
    broadcast use {
        ask_persist_keeps_apart,
    };
}

broadcast proof fn dress_run_keeps_apart(
    talk: Conv,
    logic: LogicModel,
    pad: Option<PadModel>,
    record: RecordModel,
)
    requires
        apart(logic.state),
    ensures
        apart((#[trigger] dress_run(talk, logic, pad, record)).logic.state),
{
    broadcast use {
        focus_run_keeps_apart,
    };
}

broadcast proof fn show_run_keeps_apart(
    talk: Conv,
    logic: LogicModel,
    pad: Option<PadModel>,
    label: Seq<char>,
)
    requires
        apart(logic.state),
        logic.state.pads.contains_key(label),
    ensures
        apart((#[trigger] show_run(talk, logic, pad, label)).logic.state),
{
    broadcast use {
        dress_run_keeps_apart,
    };

    reveal(show_run);
}

broadcast proof fn move_to_pad_run_keeps_apart(
    talk: Conv,
    logic: LogicModel,
    label: Seq<char>,
    id: u64,
    workspace_id: u64,
    shape: Geometry,
)
    requires
        apart(logic.state),
    ensures
        apart(
            (#[trigger] move_to_pad_run(talk, logic, label, id, workspace_id, shape)).logic.state,
        ),
{
    broadcast use {
        ask_persist_keeps_apart,
    };
}

broadcast proof fn park_run_keeps_apart(talk: Conv, logic: LogicModel, label: Seq<char>, id: u64)
    requires
        apart(logic.state),
    ensures
        apart((#[trigger] park_run(talk, logic, label, id)).logic.state),
{
    broadcast use {
        move_to_pad_run_keeps_apart,
    };

    reveal(park_run);
}

broadcast proof fn start_run_keeps_apart(
    talk: Conv,
    logic: LogicModel,
    pad: Option<PadModel>,
    label: Seq<char>,
)
    requires
        apart(logic.state),
    ensures
        apart((#[trigger] start_run(talk, logic, pad, label)).logic.state),
{
}

broadcast proof fn toggle_pad_run_keeps_apart(
    talk: Conv,
    logic: LogicModel,
    pad: Option<PadModel>,
    label: Seq<char>,
)
    requires
        apart(logic.state),
    ensures
        apart((#[trigger] toggle_pad_run(talk, logic, pad, label)).logic.state),
{
    broadcast use {
        show_run_keeps_apart, park_run_keeps_apart, start_run_keeps_apart,
    };
}

broadcast proof fn scratchpad_run_keeps_apart(
    talk: Conv,
    logic: LogicModel,
    name: Option<Seq<char>>,
)
    requires
        apart(logic.state),
    ensures
        apart((#[trigger] scratchpad_run(talk, logic, name)).logic.state),
{
    broadcast use {
        toggle_pad_run_keeps_apart,
    };

    reveal(scratchpad_run);
}

broadcast proof fn reconcile_run_keeps_apart(talk: Conv, logic: LogicModel)
    requires
        apart(logic.state),
        restores_apart(talk, logic),
    ensures
        apart((#[trigger] reconcile_run(talk, logic)).logic.state),
{
    broadcast use {
        ask_persist_keeps_apart,
    };

    reveal(reconcile_run);
}

broadcast proof fn repin_run_keeps_apart(talk: Conv, logic: LogicModel, config: ConfigModel)
    requires
        apart(logic.state),
    ensures
        apart((#[trigger] repin_run(talk, logic, config)).logic.state),
{
    broadcast use {
        ask_persist_keeps_apart,
    };
}

broadcast proof fn reload_run_keeps_apart(talk: Conv, logic: LogicModel)
    requires
        apart(logic.state),
    ensures
        apart((#[trigger] reload_run(talk, logic)).logic.state),
{
    broadcast use {
        repin_run_keeps_apart,
    };

    reveal(reload_run);
}

broadcast proof fn stage_toggle_active_run_keeps_apart(talk: Conv, logic: LogicModel)
    requires
        apart(logic.state),
    ensures
        apart((#[trigger] stage_toggle_active_run(talk, logic)).logic.state),
{
    broadcast use {
        unstage_run_keeps_apart, stage_run_keeps_apart,
    };

    reveal(stage_toggle_active_run);
}

broadcast proof fn workspace_run_keeps_apart(talk: Conv, logic: LogicModel, request: RequestModel)
    requires
        apart(logic.state),
    ensures
        apart((#[trigger] workspace_run(talk, logic, request)).logic.state),
{
    broadcast use {
        unstage_run_keeps_apart, toggle_staged_run_keeps_apart, unstage_all_run_keeps_apart,
    };

    reveal(workspace_run);
    reveal(toggle_stage_selected_run);
}

broadcast proof fn dispatch_run_keeps_apart(talk: Conv, logic: LogicModel, request: RequestModel)
    requires
        apart(logic.state),
    ensures
        apart((#[trigger] dispatch_run(talk, logic, request)).logic.state),
{
    broadcast use {
        add_run_keeps_apart, remove_run_keeps_apart, toggle_active_run_keeps_apart,
        toggle_run_keeps_apart, stage_run_keeps_apart, stage_toggle_active_run_keeps_apart,
        stage_all_run_keeps_apart, reload_run_keeps_apart, scratchpad_run_keeps_apart,
        workspace_run_keeps_apart,
    };

    reveal(dispatch_run);
    reveal(toggle_selected_run);
    reveal(list_run);
}

broadcast proof fn request_run_keeps_apart(talk: Conv, logic: LogicModel, request: RequestModel)
    requires
        apart(logic.state),
    ensures
        apart((#[trigger] request_run(talk, logic, request)).logic.state),
{
    broadcast use {
        dispatch_run_keeps_apart, ask_persist_keeps_apart,
    };
}

broadcast proof fn operation_run_keeps_apart(
    talk: Conv,
    logic: LogicModel,
    operation: OperationModel,
)
    requires
        apart(logic.state),
        operation is Reconcile ==> restores_apart(talk, logic),
    ensures
        apart((#[trigger] operation_run(talk, logic, operation)).logic.state),
{
    broadcast use {
        reconcile_run_keeps_apart, request_run_keeps_apart, reload_run_keeps_apart,
        activation_run_keeps_apart, changed_run_keeps_apart, closed_run_keeps_apart,
    };
}

/// Every operation keeps each window in one place only: sticky, staged or parked
/// by a scratchpad. A start is left out where the state file has a window in two
/// places itself and the compositor does not set that right.
pub proof fn windows_stay_in_one_place(logic: LogicModel, operation: OperationModel, talk: Conv)
    requires
        apart(logic.state),
        operation is Reconcile ==> restores_apart(talk, logic),
    ensures
        apart(operation_run(talk, logic, operation).logic.state),
{
    operation_run_keeps_apart(talk, logic, operation);
}

/// A daemon that has just started has nothing in two places.
pub proof fn nothing_is_in_two_places_at_first()
    ensures
        apart(StateModel::empty()),
{
}

} // verus!
