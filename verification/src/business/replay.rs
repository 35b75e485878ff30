//! Starting an operation again does not change what it did.
//!
//! An operation is started over with one more answer each time it waits for
//! one. That is sound because of two facts, shown here for everything the daemon
//! does. Each question uses up one answer, and an operation waits only when it
//! has asked one question more than there were answers. And more answers never
//! change what happened before they were needed: the same questions come first,
//! and an operation that is over stays as it was.
use vstd::prelude::*;
use super::{default_pin, window_output, BatchModel, LogicModel, Run};
use super::events::{
    activation_run, ask_parking_order, ask_rule_pin, changed_run, closed_run, follow_each_run,
    move_each,
};
use super::operation::{operation_run, OperationModel};
use super::parking::{
    ask_geometry, ask_name, ask_parking, ask_persist, ask_release, check_window, Geometry,
};
use super::reconcile::{ask_on_stage, reconcile_run, reload_run, repin_run};
use super::requests::{
    dispatch_run, request_run, stage_toggle_active_run, windows_run, workspace_run,
};
use super::scratchpad::{
    ask_correct, ask_float, ask_place, ask_resize, ask_target, dress_run, focus_run,
    move_to_pad_run, park_run, scratchpad_run, show_run, start_run, toggle_pad_run,
};
use super::stage::{
    ask_stage, move_to_stage_run, stage_all_run, stage_each_run, stage_run,
    toggle_stage_selected_run, toggle_staged_run, unstage_all_run, unstage_each_run, unstage_run,
};
use super::sticky::{
    add_run, bring_back_run, flipped, list_run, remove_run, select_appid, select_title,
    toggle_active_run, toggle_each_run, toggle_run, toggle_selected_run,
};
use crate::action::{
    ask_active_window, ask_active_workspace, ask_done, ask_windows, ask_workspaces, ActionModel,
    Conv, Heard, ReplyModel,
};
use crate::config::{ConfigModel, FactsModel, PadModel};
use crate::dialogue::{
    asking_is_steady, asking_is_tidy, further, goes_on, longer, longer_from_start, passes,
    staying_is_tidy, tidy, tidy_from_start, Talk,
};
use crate::niri::{Position, WindowModel, WorkspaceModel};
use crate::pinning::target_of;
use crate::protocol::RequestModel;
use crate::state::{is_parked, Pin, StateModel};
use crate::state_store::RecordModel;

verus! {

/// More answers do not change what came of a question that had its answer, nor
/// what was asked until one was missing.
pub open spec fn steady<T>(short: Heard<T>, long: Heard<T>, more: Seq<ReplyModel>) -> bool {
    if short.out is Some {
        &&& long.out == short.out
        &&& long.talk == longer(short.talk, more)
    } else {
        goes_on(short.talk, long.talk)
    }
}

/// More answers do not change what came of an operation that is over, nor what
/// was asked until one was missing.
pub open spec fn steady_run<T>(short: Run<T>, long: Run<T>, more: Seq<ReplyModel>) -> bool {
    if short.out is Some {
        &&& long.out == short.out
        &&& long.logic == short.logic
        &&& long.talk == longer(short.talk, more)
    } else {
        goes_on(short.talk, long.talk)
    }
}

/// The two daemons run with the same configuration.
pub open spec fn same_config(a: LogicModel, b: LogicModel) -> bool {
    &&& a.config == b.config
    &&& a.config_path == b.config_path
}

pub(crate) broadcast proof fn ask_done_is_tidy(talk: Conv, action: ActionModel)
    ensures
        tidy(talk, (#[trigger] ask_done(talk, action)).talk, ask_done(talk, action).out is Some),
{
    broadcast use {
        passes, asking_is_tidy, staying_is_tidy,
    };
}

broadcast proof fn ask_done_is_steady(talk: Conv, more: Seq<ReplyModel>, action: ActionModel)
    ensures
        steady(ask_done(talk, action), #[trigger] ask_done(longer(talk, more), action), more),
{
    broadcast use {
        passes, asking_is_tidy, staying_is_tidy, asking_is_steady, further,
    };
}

pub(crate) broadcast proof fn ask_windows_is_tidy(talk: Conv)
    ensures
        tidy(talk, (#[trigger] ask_windows(talk)).talk, ask_windows(talk).out is Some),
{
    broadcast use {
        passes, asking_is_tidy, staying_is_tidy,
    };
}

broadcast proof fn ask_windows_is_steady(talk: Conv, more: Seq<ReplyModel>)
    ensures
        steady(ask_windows(talk), #[trigger] ask_windows(longer(talk, more)), more),
{
    broadcast use {
        passes, asking_is_tidy, staying_is_tidy, asking_is_steady, further,
    };
}

pub(crate) broadcast proof fn ask_workspaces_is_tidy(talk: Conv)
    ensures
        tidy(talk, (#[trigger] ask_workspaces(talk)).talk, ask_workspaces(talk).out is Some),
{
    broadcast use {
        passes, asking_is_tidy, staying_is_tidy,
    };
}

broadcast proof fn ask_workspaces_is_steady(talk: Conv, more: Seq<ReplyModel>)
    ensures
        steady(ask_workspaces(talk), #[trigger] ask_workspaces(longer(talk, more)), more),
{
    broadcast use {
        passes, asking_is_tidy, staying_is_tidy, asking_is_steady, further,
    };
}

pub(crate) broadcast proof fn ask_active_window_is_tidy(talk: Conv)
    ensures
        tidy(talk, (#[trigger] ask_active_window(talk)).talk, ask_active_window(talk).out is Some),
{
    broadcast use {
        passes, asking_is_tidy, staying_is_tidy,
    };
}

broadcast proof fn ask_active_window_is_steady(talk: Conv, more: Seq<ReplyModel>)
    ensures
        steady(ask_active_window(talk), #[trigger] ask_active_window(longer(talk, more)), more),
{
    broadcast use {
        passes, asking_is_tidy, staying_is_tidy, asking_is_steady, further,
    };
}

pub(crate) broadcast proof fn ask_active_workspace_is_tidy(talk: Conv)
    ensures
        tidy(
            talk,
            (#[trigger] ask_active_workspace(talk)).talk,
            ask_active_workspace(talk).out is Some,
        ),
{
    broadcast use {
        passes, asking_is_tidy, staying_is_tidy,
    };
}

broadcast proof fn ask_active_workspace_is_steady(talk: Conv, more: Seq<ReplyModel>)
    ensures
        steady(
            ask_active_workspace(talk),
            #[trigger] ask_active_workspace(longer(talk, more)),
            more,
        ),
{
    broadcast use {
        passes, asking_is_tidy, staying_is_tidy, asking_is_steady, further,
    };
}

pub(crate) broadcast proof fn check_window_is_tidy(talk: Conv, id: u64)
    ensures
        tidy(talk, (#[trigger] check_window(talk, id)).talk, check_window(talk, id).out is Some),
{
    broadcast use {
        ask_windows_is_tidy, passes, staying_is_tidy,
    };
}

broadcast proof fn check_window_is_steady(talk: Conv, more: Seq<ReplyModel>, id: u64)
    ensures
        steady(check_window(talk, id), #[trigger] check_window(longer(talk, more), id), more),
{
    broadcast use {
        ask_windows_is_tidy, passes, staying_is_tidy, ask_windows_is_steady, further,
    };
}

pub(crate) broadcast proof fn ask_geometry_is_tidy(talk: Conv, id: u64)
    ensures
        tidy(talk, (#[trigger] ask_geometry(talk, id)).talk, ask_geometry(talk, id).out is Some),
{
    broadcast use {
        ask_windows_is_tidy, passes, staying_is_tidy,
    };
}

broadcast proof fn ask_geometry_is_steady(talk: Conv, more: Seq<ReplyModel>, id: u64)
    ensures
        steady(ask_geometry(talk, id), #[trigger] ask_geometry(longer(talk, more), id), more),
{
    broadcast use {
        ask_windows_is_tidy, passes, staying_is_tidy, ask_windows_is_steady, further,
    };
}

pub(crate) broadcast proof fn ask_name_is_tidy(talk: Conv, name: Seq<char>, target: u64)
    ensures
        tidy(
            talk,
            (#[trigger] ask_name(talk, name, target)).talk,
            ask_name(talk, name, target).out is Some,
        ),
{
    broadcast use {
        ask_done_is_tidy, passes, staying_is_tidy,
    };
}

broadcast proof fn ask_name_is_steady(
    talk: Conv,
    more: Seq<ReplyModel>,
    name: Seq<char>,
    target: u64,
)
    ensures
        steady(
            ask_name(talk, name, target),
            #[trigger] ask_name(longer(talk, more), name, target),
            more,
        ),
{
    broadcast use {
        ask_done_is_tidy, passes, staying_is_tidy, ask_done_is_steady, further,
    };
}

pub(crate) broadcast proof fn ask_parking_is_tidy(talk: Conv, name: Seq<char>, id: u64)
    ensures
        tidy(
            talk,
            (#[trigger] ask_parking(talk, name, id)).talk,
            ask_parking(talk, name, id).out is Some,
        ),
{
    broadcast use {
        ask_workspaces_is_tidy, ask_windows_is_tidy, ask_name_is_tidy, passes, staying_is_tidy,
    };
}

broadcast proof fn ask_parking_is_steady(
    talk: Conv,
    more: Seq<ReplyModel>,
    name: Seq<char>,
    id: u64,
)
    ensures
        steady(
            ask_parking(talk, name, id),
            #[trigger] ask_parking(longer(talk, more), name, id),
            more,
        ),
{
    broadcast use {
        ask_workspaces_is_tidy, ask_windows_is_tidy, ask_name_is_tidy, passes, staying_is_tidy,
        ask_workspaces_is_steady, ask_windows_is_steady, ask_name_is_steady, further,
    };
}

pub(crate) broadcast proof fn ask_release_is_tidy(
    talk: Conv,
    config: ConfigModel,
    state: StateModel,
    name: Seq<char>,
)
    ensures
        tidy(
            talk,
            (#[trigger] ask_release(talk, config, state, name)).talk,
            ask_release(talk, config, state, name).out is Some,
        ),
{
    broadcast use {
        ask_workspaces_is_tidy, ask_done_is_tidy, passes, staying_is_tidy,
    };
}

broadcast proof fn ask_release_is_steady(
    talk: Conv,
    more: Seq<ReplyModel>,
    config: ConfigModel,
    state: StateModel,
    name: Seq<char>,
)
    ensures
        steady(
            ask_release(talk, config, state, name),
            #[trigger] ask_release(longer(talk, more), config, state, name),
            more,
        ),
{
    broadcast use {
        ask_workspaces_is_tidy, ask_done_is_tidy, passes, staying_is_tidy,
        ask_workspaces_is_steady, ask_done_is_steady, further,
    };
}

pub(crate) broadcast proof fn ask_persist_is_tidy(talk: Conv, logic: LogicModel)
    ensures
        tidy(
            talk,
            (#[trigger] ask_persist(talk, logic)).talk,
            ask_persist(talk, logic).out is Some,
        ),
        same_config(logic, ask_persist(talk, logic).logic),
{
    broadcast use {
        ask_done_is_tidy, passes, staying_is_tidy,
    };
}

broadcast proof fn ask_persist_is_steady(talk: Conv, more: Seq<ReplyModel>, logic: LogicModel)
    ensures
        steady_run(
            ask_persist(talk, logic),
            #[trigger] ask_persist(longer(talk, more), logic),
            more,
        ),
{
    broadcast use {
        ask_done_is_tidy, passes, staying_is_tidy, ask_done_is_steady, further,
    };
}

pub(crate) broadcast proof fn add_run_is_tidy(talk: Conv, logic: LogicModel, id: u64)
    ensures
        tidy(
            talk,
            (#[trigger] add_run(talk, logic, id)).talk,
            add_run(talk, logic, id).out is Some,
        ),
        same_config(logic, add_run(talk, logic, id).logic),
{
    broadcast use {
        ask_windows_is_tidy, ask_workspaces_is_tidy, passes, staying_is_tidy,
    };

    reveal(add_run);
}

broadcast proof fn add_run_is_steady(talk: Conv, more: Seq<ReplyModel>, logic: LogicModel, id: u64)
    ensures
        steady_run(
            add_run(talk, logic, id),
            #[trigger] add_run(longer(talk, more), logic, id),
            more,
        ),
{
    broadcast use {
        ask_windows_is_tidy, ask_workspaces_is_tidy, passes, staying_is_tidy,
        ask_windows_is_steady, ask_workspaces_is_steady, further,
    };

    reveal(add_run);
}

broadcast proof fn remove_run_is_tidy(talk: Conv, logic: LogicModel, id: u64)
    ensures
        tidy(
            talk,
            (#[trigger] remove_run(talk, logic, id)).talk,
            remove_run(talk, logic, id).out is Some,
        ),
        same_config(logic, remove_run(talk, logic, id).logic),
{
    broadcast use {
        check_window_is_tidy, passes, staying_is_tidy,
    };

    reveal(remove_run);
}

broadcast proof fn remove_run_is_steady(
    talk: Conv,
    more: Seq<ReplyModel>,
    logic: LogicModel,
    id: u64,
)
    ensures
        steady_run(
            remove_run(talk, logic, id),
            #[trigger] remove_run(longer(talk, more), logic, id),
            more,
        ),
{
    broadcast use {
        check_window_is_tidy, passes, staying_is_tidy, check_window_is_steady, further,
    };

    reveal(remove_run);
}

broadcast proof fn list_run_is_tidy(talk: Conv, logic: LogicModel)
    ensures
        tidy(talk, (#[trigger] list_run(talk, logic)).talk, list_run(talk, logic).out is Some),
        same_config(logic, list_run(talk, logic).logic),
{
    broadcast use {
        ask_windows_is_tidy, passes, staying_is_tidy,
    };

    reveal(list_run);
}

broadcast proof fn list_run_is_steady(talk: Conv, more: Seq<ReplyModel>, logic: LogicModel)
    ensures
        steady_run(list_run(talk, logic), #[trigger] list_run(longer(talk, more), logic), more),
{
    broadcast use {
        ask_windows_is_tidy, passes, staying_is_tidy, ask_windows_is_steady, further,
    };

    reveal(list_run);
}

pub(crate) broadcast proof fn bring_back_run_is_tidy(talk: Conv, logic: LogicModel, id: u64)
    ensures
        tidy(
            talk,
            (#[trigger] bring_back_run(talk, logic, id)).talk,
            bring_back_run(talk, logic, id).out is Some,
        ),
        same_config(logic, bring_back_run(talk, logic, id).logic),
{
    broadcast use {
        ask_active_workspace_is_tidy, ask_done_is_tidy, ask_release_is_tidy, passes,
        staying_is_tidy,
    };
}

broadcast proof fn bring_back_run_is_steady(
    talk: Conv,
    more: Seq<ReplyModel>,
    logic: LogicModel,
    id: u64,
)
    ensures
        steady_run(
            bring_back_run(talk, logic, id),
            #[trigger] bring_back_run(longer(talk, more), logic, id),
            more,
        ),
{
    broadcast use {
        ask_active_workspace_is_tidy, ask_done_is_tidy, ask_release_is_tidy, passes,
        staying_is_tidy, ask_active_workspace_is_steady, ask_done_is_steady,
        ask_release_is_steady, further,
    };
}

broadcast proof fn toggle_active_run_is_tidy(talk: Conv, logic: LogicModel)
    ensures
        tidy(
            talk,
            (#[trigger] toggle_active_run(talk, logic)).talk,
            toggle_active_run(talk, logic).out is Some,
        ),
        same_config(logic, toggle_active_run(talk, logic).logic),
{
    broadcast use {
        ask_active_window_is_tidy, ask_windows_is_tidy, bring_back_run_is_tidy, add_run_is_tidy,
        passes, staying_is_tidy,
    };

    reveal(toggle_active_run);
}

broadcast proof fn toggle_active_run_is_steady(talk: Conv, more: Seq<ReplyModel>, logic: LogicModel)
    ensures
        steady_run(
            toggle_active_run(talk, logic),
            #[trigger] toggle_active_run(longer(talk, more), logic),
            more,
        ),
{
    broadcast use {
        ask_active_window_is_tidy, ask_windows_is_tidy, bring_back_run_is_tidy, add_run_is_tidy,
        passes, staying_is_tidy, ask_active_window_is_steady, ask_windows_is_steady,
        bring_back_run_is_steady, add_run_is_steady, further,
    };

    reveal(toggle_active_run);
}

pub(crate) broadcast proof fn toggle_each_run_is_tidy(
    talk: Conv,
    logic: LogicModel,
    ids: Seq<u64>,
    workspace_id: u64,
    windows: Seq<WindowModel>,
    layout: Seq<WorkspaceModel>,
    done: BatchModel,
)
    ensures
        tidy(
            talk,
            (#[trigger] toggle_each_run(
                talk,
                logic,
                ids,
                workspace_id,
                windows,
                layout,
                done,
            )).talk,
            toggle_each_run(talk, logic, ids, workspace_id, windows, layout, done).out is Some,
        ),
        same_config(
            logic,
            toggle_each_run(talk, logic, ids, workspace_id, windows, layout, done).logic,
        ),
    decreases ids.len(),
{
    broadcast use {
        ask_done_is_tidy, passes, staying_is_tidy,
    };

    if ids.len() > 0 {
        let id = ids[0];
        let rest = ids.drop_first();
        if logic.state.staged.contains_key(id) {
            let moving = ask_done(talk, ActionModel::MoveWindow { window_id: id, workspace_id });
            toggle_each_run_is_tidy(
                moving.talk,
                logic,
                rest,
                workspace_id,
                windows,
                layout,
                done.failure(id),
            );
            toggle_each_run_is_tidy(
                moving.talk,
                logic.with(logic.state.unstage(id)),
                rest,
                workspace_id,
                windows,
                layout,
                done.success(id),
            );
        } else {
            let pin = default_pin(logic.config.sticky_follow, windows, layout, id);
            toggle_each_run_is_tidy(
                talk,
                logic.with(flipped(logic.state, id, pin)),
                rest,
                workspace_id,
                windows,
                layout,
                if is_parked(logic.state.pads, id) {
                    done.failure(id)
                } else {
                    done.success(id)
                },
            );
        }
    }
}

broadcast proof fn toggle_each_run_is_steady(
    talk: Conv,
    more: Seq<ReplyModel>,
    logic: LogicModel,
    ids: Seq<u64>,
    workspace_id: u64,
    windows: Seq<WindowModel>,
    layout: Seq<WorkspaceModel>,
    done: BatchModel,
)
    ensures
        steady_run(
            toggle_each_run(talk, logic, ids, workspace_id, windows, layout, done),
            #[trigger] toggle_each_run(
                longer(talk, more),
                logic,
                ids,
                workspace_id,
                windows,
                layout,
                done,
            ),
            more,
        ),
    decreases ids.len(),
{
    broadcast use {
        ask_done_is_tidy, passes, staying_is_tidy, toggle_each_run_is_tidy, ask_done_is_steady,
        further,
    };

    if ids.len() > 0 {
        let id = ids[0];
        let rest = ids.drop_first();
        if logic.state.staged.contains_key(id) {
            let moving = ask_done(talk, ActionModel::MoveWindow { window_id: id, workspace_id });
            toggle_each_run_is_steady(
                moving.talk,
                more,
                logic,
                rest,
                workspace_id,
                windows,
                layout,
                done.failure(id),
            );
            toggle_each_run_is_steady(
                moving.talk,
                more,
                logic.with(logic.state.unstage(id)),
                rest,
                workspace_id,
                windows,
                layout,
                done.success(id),
            );
            let far = ask_done(
                longer(talk, more),
                ActionModel::MoveWindow { window_id: id, workspace_id },
            );
            toggle_each_run_is_tidy(
                far.talk,
                logic,
                rest,
                workspace_id,
                windows,
                layout,
                done.failure(id),
            );
            toggle_each_run_is_tidy(
                far.talk,
                logic.with(logic.state.unstage(id)),
                rest,
                workspace_id,
                windows,
                layout,
                done.success(id),
            );
        } else {
            let pin = default_pin(logic.config.sticky_follow, windows, layout, id);
            toggle_each_run_is_steady(
                talk,
                more,
                logic.with(flipped(logic.state, id, pin)),
                rest,
                workspace_id,
                windows,
                layout,
                if is_parked(logic.state.pads, id) {
                    done.failure(id)
                } else {
                    done.success(id)
                },
            );
        }
    }
}

broadcast proof fn toggle_run_is_tidy(talk: Conv, logic: LogicModel, ids: Seq<u64>)
    ensures
        tidy(
            talk,
            (#[trigger] toggle_run(talk, logic, ids)).talk,
            toggle_run(talk, logic, ids).out is Some,
        ),
        same_config(logic, toggle_run(talk, logic, ids).logic),
{
    broadcast use {
        ask_active_workspace_is_tidy, ask_windows_is_tidy, ask_workspaces_is_tidy,
        toggle_each_run_is_tidy, ask_release_is_tidy, passes, staying_is_tidy,
    };
}

broadcast proof fn toggle_run_is_steady(
    talk: Conv,
    more: Seq<ReplyModel>,
    logic: LogicModel,
    ids: Seq<u64>,
)
    ensures
        steady_run(
            toggle_run(talk, logic, ids),
            #[trigger] toggle_run(longer(talk, more), logic, ids),
            more,
        ),
{
    broadcast use {
        ask_active_workspace_is_tidy, ask_windows_is_tidy, ask_workspaces_is_tidy,
        toggle_each_run_is_tidy, ask_release_is_tidy, passes, staying_is_tidy,
        ask_active_workspace_is_steady, ask_windows_is_steady, ask_workspaces_is_steady,
        toggle_each_run_is_steady, ask_release_is_steady, further,
    };
}

broadcast proof fn select_appid_is_tidy(talk: Conv, appid: Seq<char>)
    ensures
        tidy(
            talk,
            (#[trigger] select_appid(talk, appid)).talk,
            select_appid(talk, appid).out is Some,
        ),
{
    broadcast use {
        ask_windows_is_tidy, passes, staying_is_tidy,
    };
}

broadcast proof fn select_appid_is_steady(talk: Conv, more: Seq<ReplyModel>, appid: Seq<char>)
    ensures
        steady(select_appid(talk, appid), #[trigger] select_appid(longer(talk, more), appid), more),
{
    broadcast use {
        ask_windows_is_tidy, passes, staying_is_tidy, ask_windows_is_steady, further,
    };
}

broadcast proof fn select_title_is_tidy(talk: Conv, title: Seq<char>)
    ensures
        tidy(
            talk,
            (#[trigger] select_title(talk, title)).talk,
            select_title(talk, title).out is Some,
        ),
{
    broadcast use {
        ask_windows_is_tidy, passes, staying_is_tidy,
    };
}

broadcast proof fn select_title_is_steady(talk: Conv, more: Seq<ReplyModel>, title: Seq<char>)
    ensures
        steady(select_title(talk, title), #[trigger] select_title(longer(talk, more), title), more),
{
    broadcast use {
        ask_windows_is_tidy, passes, staying_is_tidy, ask_windows_is_steady, further,
    };
}

pub(crate) broadcast proof fn move_to_stage_run_is_tidy(
    talk: Conv,
    logic: LogicModel,
    id: u64,
    workspace_id: u64,
    shape: Geometry,
)
    ensures
        tidy(
            talk,
            (#[trigger] move_to_stage_run(talk, logic, id, workspace_id, shape)).talk,
            move_to_stage_run(talk, logic, id, workspace_id, shape).out is Some,
        ),
        same_config(logic, move_to_stage_run(talk, logic, id, workspace_id, shape).logic),
{
    broadcast use {
        ask_done_is_tidy, passes, staying_is_tidy,
    };
}

broadcast proof fn move_to_stage_run_is_steady(
    talk: Conv,
    more: Seq<ReplyModel>,
    logic: LogicModel,
    id: u64,
    workspace_id: u64,
    shape: Geometry,
)
    ensures
        steady_run(
            move_to_stage_run(talk, logic, id, workspace_id, shape),
            #[trigger] move_to_stage_run(longer(talk, more), logic, id, workspace_id, shape),
            more,
        ),
{
    broadcast use {
        ask_done_is_tidy, passes, staying_is_tidy, ask_done_is_steady, further,
    };
}

pub(crate) broadcast proof fn stage_run_is_tidy(talk: Conv, logic: LogicModel, id: u64)
    ensures
        tidy(
            talk,
            (#[trigger] stage_run(talk, logic, id)).talk,
            stage_run(talk, logic, id).out is Some,
        ),
        same_config(logic, stage_run(talk, logic, id).logic),
{
    broadcast use {
        check_window_is_tidy, ask_geometry_is_tidy, ask_parking_is_tidy,
        move_to_stage_run_is_tidy, passes, staying_is_tidy,
    };

    reveal(stage_run);
}

broadcast proof fn stage_run_is_steady(
    talk: Conv,
    more: Seq<ReplyModel>,
    logic: LogicModel,
    id: u64,
)
    ensures
        steady_run(
            stage_run(talk, logic, id),
            #[trigger] stage_run(longer(talk, more), logic, id),
            more,
        ),
{
    broadcast use {
        check_window_is_tidy, ask_geometry_is_tidy, ask_parking_is_tidy,
        move_to_stage_run_is_tidy, passes, staying_is_tidy, check_window_is_steady,
        ask_geometry_is_steady, ask_parking_is_steady, move_to_stage_run_is_steady, further,
    };

    reveal(stage_run);
}

pub(crate) broadcast proof fn unstage_run_is_tidy(talk: Conv, logic: LogicModel, id: u64, workspace_id: u64)
    ensures
        tidy(
            talk,
            (#[trigger] unstage_run(talk, logic, id, workspace_id)).talk,
            unstage_run(talk, logic, id, workspace_id).out is Some,
        ),
        same_config(logic, unstage_run(talk, logic, id, workspace_id).logic),
{
    broadcast use {
        check_window_is_tidy, ask_done_is_tidy, ask_release_is_tidy, passes, staying_is_tidy,
    };

    reveal(unstage_run);
}

broadcast proof fn unstage_run_is_steady(
    talk: Conv,
    more: Seq<ReplyModel>,
    logic: LogicModel,
    id: u64,
    workspace_id: u64,
)
    ensures
        steady_run(
            unstage_run(talk, logic, id, workspace_id),
            #[trigger] unstage_run(longer(talk, more), logic, id, workspace_id),
            more,
        ),
{
    broadcast use {
        check_window_is_tidy, ask_done_is_tidy, ask_release_is_tidy, passes, staying_is_tidy,
        check_window_is_steady, ask_done_is_steady, ask_release_is_steady, further,
    };

    reveal(unstage_run);
}

broadcast proof fn toggle_staged_run_is_tidy(
    talk: Conv,
    logic: LogicModel,
    ids: Seq<u64>,
    workspace_id: u64,
    done: BatchModel,
)
    ensures
        tidy(
            talk,
            (#[trigger] toggle_staged_run(talk, logic, ids, workspace_id, done)).talk,
            toggle_staged_run(talk, logic, ids, workspace_id, done).out is Some,
        ),
        same_config(logic, toggle_staged_run(talk, logic, ids, workspace_id, done).logic),
    decreases ids.len(),
{
    broadcast use {
        unstage_run_is_tidy, stage_run_is_tidy, passes, staying_is_tidy,
    };

    if ids.len() > 0 {
        let id = ids[0];
        let one = if logic.state.staged.contains_key(id) {
            unstage_run(talk, logic, id, workspace_id)
        } else {
            stage_run(talk, logic, id)
        };
        toggle_staged_run_is_tidy(
            one.talk,
            one.logic,
            ids.drop_first(),
            workspace_id,
            done.success(id),
        );
        toggle_staged_run_is_tidy(
            one.talk,
            one.logic,
            ids.drop_first(),
            workspace_id,
            done.failure(id),
        );
    }
}

broadcast proof fn toggle_staged_run_is_steady(
    talk: Conv,
    more: Seq<ReplyModel>,
    logic: LogicModel,
    ids: Seq<u64>,
    workspace_id: u64,
    done: BatchModel,
)
    ensures
        steady_run(
            toggle_staged_run(talk, logic, ids, workspace_id, done),
            #[trigger] toggle_staged_run(longer(talk, more), logic, ids, workspace_id, done),
            more,
        ),
    decreases ids.len(),
{
    broadcast use {
        unstage_run_is_tidy, stage_run_is_tidy, passes, staying_is_tidy,
        toggle_staged_run_is_tidy, unstage_run_is_steady, stage_run_is_steady, further,
    };

    if ids.len() > 0 {
        let id = ids[0];
        let one = if logic.state.staged.contains_key(id) {
            unstage_run(talk, logic, id, workspace_id)
        } else {
            stage_run(talk, logic, id)
        };
        toggle_staged_run_is_steady(
            one.talk,
            more,
            one.logic,
            ids.drop_first(),
            workspace_id,
            done.success(id),
        );
        toggle_staged_run_is_steady(
            one.talk,
            more,
            one.logic,
            ids.drop_first(),
            workspace_id,
            done.failure(id),
        );
        let far_one = if logic.state.staged.contains_key(id) {
            unstage_run(longer(talk, more), logic, id, workspace_id)
        } else {
            stage_run(longer(talk, more), logic, id)
        };
        toggle_staged_run_is_tidy(
            far_one.talk,
            far_one.logic,
            ids.drop_first(),
            workspace_id,
            done.success(id),
        );
        toggle_staged_run_is_tidy(
            far_one.talk,
            far_one.logic,
            ids.drop_first(),
            workspace_id,
            done.failure(id),
        );
    }
}

pub(crate) broadcast proof fn ask_stage_is_tidy(talk: Conv, name: Seq<char>, id: u64, known: Option<u64>)
    ensures
        tidy(
            talk,
            (#[trigger] ask_stage(talk, name, id, known)).talk,
            ask_stage(talk, name, id, known).out is Some,
        ),
{
    broadcast use {
        ask_parking_is_tidy, passes, staying_is_tidy,
    };
}

broadcast proof fn ask_stage_is_steady(
    talk: Conv,
    more: Seq<ReplyModel>,
    name: Seq<char>,
    id: u64,
    known: Option<u64>,
)
    ensures
        steady(
            ask_stage(talk, name, id, known),
            #[trigger] ask_stage(longer(talk, more), name, id, known),
            more,
        ),
{
    broadcast use {
        ask_parking_is_tidy, passes, staying_is_tidy, ask_parking_is_steady, further,
    };
}

broadcast proof fn stage_each_run_is_tidy(
    talk: Conv,
    logic: LogicModel,
    ids: Seq<u64>,
    known: Option<u64>,
    done: BatchModel,
)
    ensures
        tidy(
            talk,
            (#[trigger] stage_each_run(talk, logic, ids, known, done)).talk,
            stage_each_run(talk, logic, ids, known, done).out is Some,
        ),
        same_config(logic, stage_each_run(talk, logic, ids, known, done).logic),
    decreases ids.len(),
{
    broadcast use {
        ask_geometry_is_tidy, ask_stage_is_tidy, move_to_stage_run_is_tidy, passes,
        staying_is_tidy,
    };

    if ids.len() > 0 {
        let id = ids[0];
        let rest = ids.drop_first();
        let geometry = ask_geometry(talk, id);
        let stage = ask_stage(geometry.talk, logic.config.stage_workspace, id, known);
        let workspace_id = stage.out->0->Ok_0;
        let moving = move_to_stage_run(
            stage.talk,
            logic,
            id,
            workspace_id,
            geometry.out->0,
        );
        stage_each_run_is_tidy(stage.talk, logic, rest, known, done.failure(id));
        stage_each_run_is_tidy(
            moving.talk,
            logic,
            rest,
            Some(workspace_id),
            done.failure(id),
        );
        stage_each_run_is_tidy(
            moving.talk,
            moving.logic,
            rest,
            Some(workspace_id),
            done.success(id),
        );
    }
}

broadcast proof fn stage_each_run_is_steady(
    talk: Conv,
    more: Seq<ReplyModel>,
    logic: LogicModel,
    ids: Seq<u64>,
    known: Option<u64>,
    done: BatchModel,
)
    ensures
        steady_run(
            stage_each_run(talk, logic, ids, known, done),
            #[trigger] stage_each_run(longer(talk, more), logic, ids, known, done),
            more,
        ),
    decreases ids.len(),
{
    broadcast use {
        ask_geometry_is_tidy, ask_stage_is_tidy, move_to_stage_run_is_tidy, passes,
        staying_is_tidy, stage_each_run_is_tidy, ask_geometry_is_steady, ask_stage_is_steady,
        move_to_stage_run_is_steady, further,
    };

    if ids.len() > 0 {
        let id = ids[0];
        let rest = ids.drop_first();
        let geometry = ask_geometry(talk, id);
        let stage = ask_stage(geometry.talk, logic.config.stage_workspace, id, known);
        let workspace_id = stage.out->0->Ok_0;
        let moving = move_to_stage_run(
            stage.talk,
            logic,
            id,
            workspace_id,
            geometry.out->0,
        );
        stage_each_run_is_steady(stage.talk, more, logic, rest, known, done.failure(id));
        stage_each_run_is_steady(
            moving.talk,
            more,
            logic,
            rest,
            Some(workspace_id),
            done.failure(id),
        );
        stage_each_run_is_steady(
            moving.talk,
            more,
            moving.logic,
            rest,
            Some(workspace_id),
            done.success(id),
        );
        let far_geometry = ask_geometry(longer(talk, more), id);
        let far_stage = ask_stage(far_geometry.talk, logic.config.stage_workspace, id, known);
        let far_workspace_id = far_stage.out->0->Ok_0;
        let far_moving = move_to_stage_run(
            far_stage.talk,
            logic,
            id,
            far_workspace_id,
            far_geometry.out->0,
        );
        stage_each_run_is_tidy(far_stage.talk, logic, rest, known, done.failure(id));
        stage_each_run_is_tidy(
            far_moving.talk,
            logic,
            rest,
            Some(far_workspace_id),
            done.failure(id),
        );
        stage_each_run_is_tidy(
            far_moving.talk,
            far_moving.logic,
            rest,
            Some(far_workspace_id),
            done.success(id),
        );
    }
}

broadcast proof fn stage_all_run_is_tidy(talk: Conv, logic: LogicModel)
    ensures
        tidy(
            talk,
            (#[trigger] stage_all_run(talk, logic)).talk,
            stage_all_run(talk, logic).out is Some,
        ),
        same_config(logic, stage_all_run(talk, logic).logic),
{
    broadcast use {
        ask_windows_is_tidy, stage_each_run_is_tidy, passes, staying_is_tidy,
    };

    reveal(stage_all_run);
}

broadcast proof fn stage_all_run_is_steady(talk: Conv, more: Seq<ReplyModel>, logic: LogicModel)
    ensures
        steady_run(
            stage_all_run(talk, logic),
            #[trigger] stage_all_run(longer(talk, more), logic),
            more,
        ),
{
    broadcast use {
        ask_windows_is_tidy, stage_each_run_is_tidy, passes, staying_is_tidy,
        ask_windows_is_steady, stage_each_run_is_steady, further,
    };

    reveal(stage_all_run);
}

pub(crate) broadcast proof fn unstage_each_run_is_tidy(
    talk: Conv,
    logic: LogicModel,
    ids: Seq<u64>,
    windows: Seq<WindowModel>,
    workspace_id: u64,
    done: BatchModel,
)
    ensures
        tidy(
            talk,
            (#[trigger] unstage_each_run(talk, logic, ids, windows, workspace_id, done)).talk,
            unstage_each_run(talk, logic, ids, windows, workspace_id, done).out is Some,
        ),
        same_config(logic, unstage_each_run(talk, logic, ids, windows, workspace_id, done).logic),
    decreases ids.len(),
{
    broadcast use {
        ask_done_is_tidy, passes, staying_is_tidy,
    };

    if ids.len() > 0 {
        let id = ids[0];
        let rest = ids.drop_first();
        let moving = ask_done(talk, ActionModel::MoveWindow { window_id: id, workspace_id });
        let gone = logic.with(
            StateModel { staged: logic.state.staged.remove(id), ..logic.state },
        );
        unstage_each_run_is_tidy(talk, gone, rest, windows, workspace_id, done);
        unstage_each_run_is_tidy(moving.talk, logic, rest, windows, workspace_id, done.failure(id));
        unstage_each_run_is_tidy(
            moving.talk,
            logic.with(logic.state.unstage(id)),
            rest,
            windows,
            workspace_id,
            done.success(id),
        );
    }
}

broadcast proof fn unstage_each_run_is_steady(
    talk: Conv,
    more: Seq<ReplyModel>,
    logic: LogicModel,
    ids: Seq<u64>,
    windows: Seq<WindowModel>,
    workspace_id: u64,
    done: BatchModel,
)
    ensures
        steady_run(
            unstage_each_run(talk, logic, ids, windows, workspace_id, done),
            #[trigger] unstage_each_run(
                longer(talk, more),
                logic,
                ids,
                windows,
                workspace_id,
                done,
            ),
            more,
        ),
    decreases ids.len(),
{
    broadcast use {
        ask_done_is_tidy, passes, staying_is_tidy, unstage_each_run_is_tidy, ask_done_is_steady,
        further,
    };

    if ids.len() > 0 {
        let id = ids[0];
        let rest = ids.drop_first();
        let moving = ask_done(talk, ActionModel::MoveWindow { window_id: id, workspace_id });
        let gone = logic.with(
            StateModel { staged: logic.state.staged.remove(id), ..logic.state },
        );
        unstage_each_run_is_steady(talk, more, gone, rest, windows, workspace_id, done);
        unstage_each_run_is_steady(
            moving.talk,
            more,
            logic,
            rest,
            windows,
            workspace_id,
            done.failure(id),
        );
        unstage_each_run_is_steady(
            moving.talk,
            more,
            logic.with(logic.state.unstage(id)),
            rest,
            windows,
            workspace_id,
            done.success(id),
        );
        let far_moving = ask_done(
            longer(talk, more),
            ActionModel::MoveWindow { window_id: id, workspace_id },
        );
        unstage_each_run_is_tidy(longer(talk, more), gone, rest, windows, workspace_id, done);
        unstage_each_run_is_tidy(
            far_moving.talk,
            logic,
            rest,
            windows,
            workspace_id,
            done.failure(id),
        );
        unstage_each_run_is_tidy(
            far_moving.talk,
            logic.with(logic.state.unstage(id)),
            rest,
            windows,
            workspace_id,
            done.success(id),
        );
    }
}

broadcast proof fn unstage_all_run_is_tidy(talk: Conv, logic: LogicModel, workspace_id: u64)
    ensures
        tidy(
            talk,
            (#[trigger] unstage_all_run(talk, logic, workspace_id)).talk,
            unstage_all_run(talk, logic, workspace_id).out is Some,
        ),
        same_config(logic, unstage_all_run(talk, logic, workspace_id).logic),
{
    broadcast use {
        ask_windows_is_tidy, unstage_each_run_is_tidy, ask_release_is_tidy, passes,
        staying_is_tidy,
    };

    reveal(unstage_all_run);
}

broadcast proof fn unstage_all_run_is_steady(
    talk: Conv,
    more: Seq<ReplyModel>,
    logic: LogicModel,
    workspace_id: u64,
)
    ensures
        steady_run(
            unstage_all_run(talk, logic, workspace_id),
            #[trigger] unstage_all_run(longer(talk, more), logic, workspace_id),
            more,
        ),
{
    broadcast use {
        ask_windows_is_tidy, unstage_each_run_is_tidy, ask_release_is_tidy, passes,
        staying_is_tidy, ask_windows_is_steady, unstage_each_run_is_steady, ask_release_is_steady,
        further,
    };

    reveal(unstage_all_run);
}

pub(crate) broadcast proof fn follow_each_run_is_tidy(
    talk: Conv,
    logic: LogicModel,
    ids: Seq<u64>,
    windows: Seq<WindowModel>,
    layout: Seq<WorkspaceModel>,
    focused: u64,
)
    ensures
        tidy(
            talk,
            (#[trigger] follow_each_run(talk, logic, ids, windows, layout, focused)).talk,
            follow_each_run(talk, logic, ids, windows, layout, focused).out is Some,
        ),
        same_config(logic, follow_each_run(talk, logic, ids, windows, layout, focused).logic),
    decreases ids.len(),
{
    broadcast use {
        ask_done_is_tidy, passes, staying_is_tidy,
    };

    if ids.len() > 0 {
        let rest = ids.drop_first();
        let target = target_of(
            logic.state.sticky[ids[0]],
            window_output(windows, layout, ids[0]),
            layout,
            focused,
        );
        let moving = ask_done(
            talk,
            ActionModel::MoveWindow { window_id: ids[0], workspace_id: target->0 },
        );
        follow_each_run_is_tidy(talk, logic, rest, windows, layout, focused);
        follow_each_run_is_tidy(moving.talk, logic, rest, windows, layout, focused);
    }
}

broadcast proof fn follow_each_run_is_steady(
    talk: Conv,
    more: Seq<ReplyModel>,
    logic: LogicModel,
    ids: Seq<u64>,
    windows: Seq<WindowModel>,
    layout: Seq<WorkspaceModel>,
    focused: u64,
)
    ensures
        steady_run(
            follow_each_run(talk, logic, ids, windows, layout, focused),
            #[trigger] follow_each_run(longer(talk, more), logic, ids, windows, layout, focused),
            more,
        ),
    decreases ids.len(),
{
    broadcast use {
        ask_done_is_tidy, passes, staying_is_tidy, follow_each_run_is_tidy, ask_done_is_steady,
        further,
    };

    if ids.len() > 0 {
        let rest = ids.drop_first();
        let target = target_of(
            logic.state.sticky[ids[0]],
            window_output(windows, layout, ids[0]),
            layout,
            focused,
        );
        let moving = ask_done(
            talk,
            ActionModel::MoveWindow { window_id: ids[0], workspace_id: target->0 },
        );
        follow_each_run_is_steady(talk, more, logic, rest, windows, layout, focused);
        follow_each_run_is_steady(moving.talk, more, logic, rest, windows, layout, focused);
        let far_moving = ask_done(
            longer(talk, more),
            ActionModel::MoveWindow { window_id: ids[0], workspace_id: target->0 },
        );
        follow_each_run_is_tidy(longer(talk, more), logic, rest, windows, layout, focused);
        follow_each_run_is_tidy(far_moving.talk, logic, rest, windows, layout, focused);
    }
}

broadcast proof fn activation_run_is_tidy(talk: Conv, logic: LogicModel, focused: u64)
    ensures
        tidy(
            talk,
            (#[trigger] activation_run(talk, logic, focused)).talk,
            activation_run(talk, logic, focused).out is Some,
        ),
        same_config(logic, activation_run(talk, logic, focused).logic),
{
    broadcast use {
        ask_windows_is_tidy, ask_workspaces_is_tidy, follow_each_run_is_tidy, passes,
        staying_is_tidy,
    };

    reveal(activation_run);
}

broadcast proof fn activation_run_is_steady(
    talk: Conv,
    more: Seq<ReplyModel>,
    logic: LogicModel,
    focused: u64,
)
    ensures
        steady_run(
            activation_run(talk, logic, focused),
            #[trigger] activation_run(longer(talk, more), logic, focused),
            more,
        ),
{
    broadcast use {
        ask_windows_is_tidy, ask_workspaces_is_tidy, follow_each_run_is_tidy, passes,
        staying_is_tidy, ask_windows_is_steady, ask_workspaces_is_steady,
        follow_each_run_is_steady, further,
    };

    reveal(activation_run);
}

pub(crate) broadcast proof fn ask_rule_pin_is_tidy(talk: Conv, logic: LogicModel, id: u64, outputs: Pin)
    ensures
        tidy(
            talk,
            (#[trigger] ask_rule_pin(talk, logic, id, outputs)).talk,
            ask_rule_pin(talk, logic, id, outputs).out is Some,
        ),
{
    broadcast use {
        ask_windows_is_tidy, ask_workspaces_is_tidy, passes, staying_is_tidy,
    };
}

broadcast proof fn ask_rule_pin_is_steady(
    talk: Conv,
    more: Seq<ReplyModel>,
    logic: LogicModel,
    id: u64,
    outputs: Pin,
)
    ensures
        steady(
            ask_rule_pin(talk, logic, id, outputs),
            #[trigger] ask_rule_pin(longer(talk, more), logic, id, outputs),
            more,
        ),
{
    broadcast use {
        ask_windows_is_tidy, ask_workspaces_is_tidy, passes, staying_is_tidy,
        ask_windows_is_steady, ask_workspaces_is_steady, further,
    };
}

broadcast proof fn changed_run_is_tidy(talk: Conv, logic: LogicModel, id: u64, facts: FactsModel)
    ensures
        tidy(
            talk,
            (#[trigger] changed_run(talk, logic, id, facts)).talk,
            changed_run(talk, logic, id, facts).out is Some,
        ),
        same_config(logic, changed_run(talk, logic, id, facts).logic),
{
    broadcast use {
        ask_rule_pin_is_tidy, stage_run_is_tidy, ask_persist_is_tidy, passes, staying_is_tidy,
    };

    reveal(changed_run);
}

broadcast proof fn changed_run_is_steady(
    talk: Conv,
    more: Seq<ReplyModel>,
    logic: LogicModel,
    id: u64,
    facts: FactsModel,
)
    ensures
        steady_run(
            changed_run(talk, logic, id, facts),
            #[trigger] changed_run(longer(talk, more), logic, id, facts),
            more,
        ),
{
    broadcast use {
        ask_rule_pin_is_tidy, stage_run_is_tidy, ask_persist_is_tidy, passes, staying_is_tidy,
        ask_rule_pin_is_steady, stage_run_is_steady, ask_persist_is_steady, further,
    };

    reveal(changed_run);
}

broadcast proof fn closed_run_is_tidy(talk: Conv, logic: LogicModel, id: u64)
    ensures
        tidy(
            talk,
            (#[trigger] closed_run(talk, logic, id)).talk,
            closed_run(talk, logic, id).out is Some,
        ),
        same_config(logic, closed_run(talk, logic, id).logic),
{
    broadcast use {
        ask_release_is_tidy, ask_persist_is_tidy, passes, staying_is_tidy,
    };

    reveal(closed_run);
}

broadcast proof fn closed_run_is_steady(
    talk: Conv,
    more: Seq<ReplyModel>,
    logic: LogicModel,
    id: u64,
)
    ensures
        steady_run(
            closed_run(talk, logic, id),
            #[trigger] closed_run(longer(talk, more), logic, id),
            more,
        ),
{
    broadcast use {
        ask_release_is_tidy, ask_persist_is_tidy, passes, staying_is_tidy, ask_release_is_steady,
        ask_persist_is_steady, further,
    };

    reveal(closed_run);
}

pub(crate) broadcast proof fn move_each_is_tidy(talk: Conv, moves: Seq<(u64, usize)>)
    ensures
        tidy(talk, (#[trigger] move_each(talk, moves)).talk, move_each(talk, moves).out is Some),
    decreases moves.len(),
{
    broadcast use {
        ask_done_is_tidy, passes, staying_is_tidy,
    };

    if moves.len() > 0 {
        let moving = ask_done(
            talk,
            ActionModel::MoveWorkspaceToIndex { workspace_id: moves[0].0, index: moves[0].1 },
        );
        move_each_is_tidy(moving.talk, moves.drop_first());
    }
}

broadcast proof fn move_each_is_steady(talk: Conv, more: Seq<ReplyModel>, moves: Seq<(u64, usize)>)
    ensures
        steady(move_each(talk, moves), #[trigger] move_each(longer(talk, more), moves), more),
    decreases moves.len(),
{
    broadcast use {
        ask_done_is_tidy, passes, staying_is_tidy, move_each_is_tidy, ask_done_is_steady, further,
    };

    if moves.len() > 0 {
        let moving = ask_done(
            talk,
            ActionModel::MoveWorkspaceToIndex { workspace_id: moves[0].0, index: moves[0].1 },
        );
        move_each_is_steady(moving.talk, more, moves.drop_first());
        let far_moving = ask_done(
            longer(talk, more),
            ActionModel::MoveWorkspaceToIndex { workspace_id: moves[0].0, index: moves[0].1 },
        );
        move_each_is_tidy(far_moving.talk, moves.drop_first());
    }
}

broadcast proof fn ask_parking_order_is_tidy(talk: Conv, logic: LogicModel)
    ensures
        tidy(
            talk,
            (#[trigger] ask_parking_order(talk, logic)).talk,
            ask_parking_order(talk, logic).out is Some,
        ),
{
    broadcast use {
        ask_workspaces_is_tidy, ask_windows_is_tidy, move_each_is_tidy, passes, staying_is_tidy,
    };

    reveal(ask_parking_order);
}

broadcast proof fn ask_parking_order_is_steady(talk: Conv, more: Seq<ReplyModel>, logic: LogicModel)
    ensures
        steady(
            ask_parking_order(talk, logic),
            #[trigger] ask_parking_order(longer(talk, more), logic),
            more,
        ),
{
    broadcast use {
        ask_workspaces_is_tidy, ask_windows_is_tidy, move_each_is_tidy, passes, staying_is_tidy,
        ask_workspaces_is_steady, ask_windows_is_steady, move_each_is_steady, further,
    };

    reveal(ask_parking_order);
}

pub(crate) broadcast proof fn ask_float_is_tidy(talk: Conv, pad: Option<PadModel>, id: u64)
    ensures
        tidy(
            talk,
            (#[trigger] ask_float(talk, pad, id)).talk,
            ask_float(talk, pad, id).out is Some,
        ),
{
    broadcast use {
        ask_done_is_tidy, passes, staying_is_tidy,
    };
}

broadcast proof fn ask_float_is_steady(
    talk: Conv,
    more: Seq<ReplyModel>,
    pad: Option<PadModel>,
    id: u64,
)
    ensures
        steady(ask_float(talk, pad, id), #[trigger] ask_float(longer(talk, more), pad, id), more),
{
    broadcast use {
        ask_done_is_tidy, passes, staying_is_tidy, ask_done_is_steady, further,
    };
}

pub(crate) broadcast proof fn ask_resize_is_tidy(
    talk: Conv,
    pad: Option<PadModel>,
    size: Option<(i32, i32)>,
    id: u64,
)
    ensures
        tidy(
            talk,
            (#[trigger] ask_resize(talk, pad, size, id)).talk,
            ask_resize(talk, pad, size, id).out is Some,
        ),
{
    broadcast use {
        ask_done_is_tidy, passes, staying_is_tidy,
    };
}

broadcast proof fn ask_resize_is_steady(
    talk: Conv,
    more: Seq<ReplyModel>,
    pad: Option<PadModel>,
    size: Option<(i32, i32)>,
    id: u64,
)
    ensures
        steady(
            ask_resize(talk, pad, size, id),
            #[trigger] ask_resize(longer(talk, more), pad, size, id),
            more,
        ),
{
    broadcast use {
        ask_done_is_tidy, passes, staying_is_tidy, ask_done_is_steady, further,
    };
}

pub(crate) broadcast proof fn ask_correct_is_tidy(talk: Conv, wanted: Position, actual: Position, id: u64)
    ensures
        tidy(
            talk,
            (#[trigger] ask_correct(talk, wanted, actual, id)).talk,
            ask_correct(talk, wanted, actual, id).out is Some,
        ),
{
    broadcast use {
        ask_done_is_tidy, passes, asking_is_tidy, staying_is_tidy,
    };
}

broadcast proof fn ask_correct_is_steady(
    talk: Conv,
    more: Seq<ReplyModel>,
    wanted: Position,
    actual: Position,
    id: u64,
)
    ensures
        steady(
            ask_correct(talk, wanted, actual, id),
            #[trigger] ask_correct(longer(talk, more), wanted, actual, id),
            more,
        ),
{
    broadcast use {
        ask_done_is_tidy, passes, asking_is_tidy, staying_is_tidy, ask_done_is_steady,
        asking_is_steady, further,
    };
}

pub(crate) broadcast proof fn ask_place_is_tidy(talk: Conv, position: Option<Position>, id: u64)
    ensures
        tidy(
            talk,
            (#[trigger] ask_place(talk, position, id)).talk,
            ask_place(talk, position, id).out is Some,
        ),
{
    broadcast use {
        ask_done_is_tidy, ask_windows_is_tidy, ask_correct_is_tidy, passes, staying_is_tidy,
    };
}

broadcast proof fn ask_place_is_steady(
    talk: Conv,
    more: Seq<ReplyModel>,
    position: Option<Position>,
    id: u64,
)
    ensures
        steady(
            ask_place(talk, position, id),
            #[trigger] ask_place(longer(talk, more), position, id),
            more,
        ),
{
    broadcast use {
        ask_done_is_tidy, ask_windows_is_tidy, ask_correct_is_tidy, passes, staying_is_tidy,
        ask_done_is_steady, ask_windows_is_steady, ask_correct_is_steady, further,
    };
}

pub(crate) broadcast proof fn focus_run_is_tidy(talk: Conv, logic: LogicModel, id: u64)
    ensures
        tidy(
            talk,
            (#[trigger] focus_run(talk, logic, id)).talk,
            focus_run(talk, logic, id).out is Some,
        ),
        same_config(logic, focus_run(talk, logic, id).logic),
{
    broadcast use {
        ask_done_is_tidy, ask_release_is_tidy, ask_persist_is_tidy, passes, staying_is_tidy,
    };
}

broadcast proof fn focus_run_is_steady(
    talk: Conv,
    more: Seq<ReplyModel>,
    logic: LogicModel,
    id: u64,
)
    ensures
        steady_run(
            focus_run(talk, logic, id),
            #[trigger] focus_run(longer(talk, more), logic, id),
            more,
        ),
{
    broadcast use {
        ask_done_is_tidy, ask_release_is_tidy, ask_persist_is_tidy, passes, staying_is_tidy,
        ask_done_is_steady, ask_release_is_steady, ask_persist_is_steady, further,
    };
}

pub(crate) broadcast proof fn dress_run_is_tidy(
    talk: Conv,
    logic: LogicModel,
    pad: Option<PadModel>,
    record: RecordModel,
)
    ensures
        tidy(
            talk,
            (#[trigger] dress_run(talk, logic, pad, record)).talk,
            dress_run(talk, logic, pad, record).out is Some,
        ),
        same_config(logic, dress_run(talk, logic, pad, record).logic),
{
    broadcast use {
        ask_float_is_tidy, ask_resize_is_tidy, ask_place_is_tidy, focus_run_is_tidy, passes,
        staying_is_tidy,
    };
}

broadcast proof fn dress_run_is_steady(
    talk: Conv,
    more: Seq<ReplyModel>,
    logic: LogicModel,
    pad: Option<PadModel>,
    record: RecordModel,
)
    ensures
        steady_run(
            dress_run(talk, logic, pad, record),
            #[trigger] dress_run(longer(talk, more), logic, pad, record),
            more,
        ),
{
    broadcast use {
        ask_float_is_tidy, ask_resize_is_tidy, ask_place_is_tidy, focus_run_is_tidy, passes,
        staying_is_tidy, ask_float_is_steady, ask_resize_is_steady, ask_place_is_steady,
        focus_run_is_steady, further,
    };
}

pub(crate) broadcast proof fn show_run_is_tidy(
    talk: Conv,
    logic: LogicModel,
    pad: Option<PadModel>,
    label: Seq<char>,
)
    ensures
        tidy(
            talk,
            (#[trigger] show_run(talk, logic, pad, label)).talk,
            show_run(talk, logic, pad, label).out is Some,
        ),
        same_config(logic, show_run(talk, logic, pad, label).logic),
{
    broadcast use {
        ask_active_workspace_is_tidy, ask_done_is_tidy, dress_run_is_tidy, passes,
        staying_is_tidy,
    };

    reveal(show_run);
}

broadcast proof fn show_run_is_steady(
    talk: Conv,
    more: Seq<ReplyModel>,
    logic: LogicModel,
    pad: Option<PadModel>,
    label: Seq<char>,
)
    ensures
        steady_run(
            show_run(talk, logic, pad, label),
            #[trigger] show_run(longer(talk, more), logic, pad, label),
            more,
        ),
{
    broadcast use {
        ask_active_workspace_is_tidy, ask_done_is_tidy, dress_run_is_tidy, passes,
        staying_is_tidy, ask_active_workspace_is_steady, ask_done_is_steady, dress_run_is_steady,
        further,
    };

    reveal(show_run);
}

pub(crate) broadcast proof fn move_to_pad_run_is_tidy(
    talk: Conv,
    logic: LogicModel,
    label: Seq<char>,
    id: u64,
    workspace_id: u64,
    shape: Geometry,
)
    ensures
        tidy(
            talk,
            (#[trigger] move_to_pad_run(talk, logic, label, id, workspace_id, shape)).talk,
            move_to_pad_run(talk, logic, label, id, workspace_id, shape).out is Some,
        ),
        same_config(logic, move_to_pad_run(talk, logic, label, id, workspace_id, shape).logic),
{
    broadcast use {
        ask_done_is_tidy, ask_release_is_tidy, ask_persist_is_tidy, passes, staying_is_tidy,
    };
}

broadcast proof fn move_to_pad_run_is_steady(
    talk: Conv,
    more: Seq<ReplyModel>,
    logic: LogicModel,
    label: Seq<char>,
    id: u64,
    workspace_id: u64,
    shape: Geometry,
)
    ensures
        steady_run(
            move_to_pad_run(talk, logic, label, id, workspace_id, shape),
            #[trigger] move_to_pad_run(longer(talk, more), logic, label, id, workspace_id, shape),
            more,
        ),
{
    broadcast use {
        ask_done_is_tidy, ask_release_is_tidy, ask_persist_is_tidy, passes, staying_is_tidy,
        ask_done_is_steady, ask_release_is_steady, ask_persist_is_steady, further,
    };
}

pub(crate) broadcast proof fn park_run_is_tidy(talk: Conv, logic: LogicModel, label: Seq<char>, id: u64)
    ensures
        tidy(
            talk,
            (#[trigger] park_run(talk, logic, label, id)).talk,
            park_run(talk, logic, label, id).out is Some,
        ),
        same_config(logic, park_run(talk, logic, label, id).logic),
{
    broadcast use {
        check_window_is_tidy, ask_geometry_is_tidy, ask_parking_is_tidy, move_to_pad_run_is_tidy,
        passes, staying_is_tidy,
    };

    reveal(park_run);
}

broadcast proof fn park_run_is_steady(
    talk: Conv,
    more: Seq<ReplyModel>,
    logic: LogicModel,
    label: Seq<char>,
    id: u64,
)
    ensures
        steady_run(
            park_run(talk, logic, label, id),
            #[trigger] park_run(longer(talk, more), logic, label, id),
            more,
        ),
{
    broadcast use {
        check_window_is_tidy, ask_geometry_is_tidy, ask_parking_is_tidy, move_to_pad_run_is_tidy,
        passes, staying_is_tidy, check_window_is_steady, ask_geometry_is_steady,
        ask_parking_is_steady, move_to_pad_run_is_steady, further,
    };

    reveal(park_run);
}

pub(crate) broadcast proof fn ask_target_is_tidy(talk: Conv, pad: Option<PadModel>)
    ensures
        tidy(talk, (#[trigger] ask_target(talk, pad)).talk, ask_target(talk, pad).out is Some),
{
    broadcast use {
        ask_windows_is_tidy, ask_active_window_is_tidy, passes, staying_is_tidy,
    };
}

broadcast proof fn ask_target_is_steady(talk: Conv, more: Seq<ReplyModel>, pad: Option<PadModel>)
    ensures
        steady(ask_target(talk, pad), #[trigger] ask_target(longer(talk, more), pad), more),
{
    broadcast use {
        ask_windows_is_tidy, ask_active_window_is_tidy, passes, staying_is_tidy,
        ask_windows_is_steady, ask_active_window_is_steady, further,
    };
}

pub(crate) broadcast proof fn start_run_is_tidy(
    talk: Conv,
    logic: LogicModel,
    pad: Option<PadModel>,
    label: Seq<char>,
)
    ensures
        tidy(
            talk,
            (#[trigger] start_run(talk, logic, pad, label)).talk,
            start_run(talk, logic, pad, label).out is Some,
        ),
        same_config(logic, start_run(talk, logic, pad, label).logic),
{
    broadcast use {
        ask_done_is_tidy, passes, staying_is_tidy,
    };
}

broadcast proof fn start_run_is_steady(
    talk: Conv,
    more: Seq<ReplyModel>,
    logic: LogicModel,
    pad: Option<PadModel>,
    label: Seq<char>,
)
    ensures
        steady_run(
            start_run(talk, logic, pad, label),
            #[trigger] start_run(longer(talk, more), logic, pad, label),
            more,
        ),
{
    broadcast use {
        ask_done_is_tidy, passes, staying_is_tidy, ask_done_is_steady, further,
    };
}

broadcast proof fn toggle_pad_run_is_tidy(
    talk: Conv,
    logic: LogicModel,
    pad: Option<PadModel>,
    label: Seq<char>,
)
    ensures
        tidy(
            talk,
            (#[trigger] toggle_pad_run(talk, logic, pad, label)).talk,
            toggle_pad_run(talk, logic, pad, label).out is Some,
        ),
        same_config(logic, toggle_pad_run(talk, logic, pad, label).logic),
{
    broadcast use {
        show_run_is_tidy, ask_target_is_tidy, park_run_is_tidy, start_run_is_tidy, passes,
        staying_is_tidy,
    };
}

broadcast proof fn toggle_pad_run_is_steady(
    talk: Conv,
    more: Seq<ReplyModel>,
    logic: LogicModel,
    pad: Option<PadModel>,
    label: Seq<char>,
)
    ensures
        steady_run(
            toggle_pad_run(talk, logic, pad, label),
            #[trigger] toggle_pad_run(longer(talk, more), logic, pad, label),
            more,
        ),
{
    broadcast use {
        show_run_is_tidy, ask_target_is_tidy, park_run_is_tidy, start_run_is_tidy, passes,
        staying_is_tidy, show_run_is_steady, ask_target_is_steady, park_run_is_steady,
        start_run_is_steady, further,
    };
}

broadcast proof fn scratchpad_run_is_tidy(talk: Conv, logic: LogicModel, name: Option<Seq<char>>)
    ensures
        tidy(
            talk,
            (#[trigger] scratchpad_run(talk, logic, name)).talk,
            scratchpad_run(talk, logic, name).out is Some,
        ),
        same_config(logic, scratchpad_run(talk, logic, name).logic),
{
    broadcast use {
        toggle_pad_run_is_tidy, passes, staying_is_tidy,
    };

    reveal(scratchpad_run);
}

broadcast proof fn scratchpad_run_is_steady(
    talk: Conv,
    more: Seq<ReplyModel>,
    logic: LogicModel,
    name: Option<Seq<char>>,
)
    ensures
        steady_run(
            scratchpad_run(talk, logic, name),
            #[trigger] scratchpad_run(longer(talk, more), logic, name),
            more,
        ),
{
    broadcast use {
        toggle_pad_run_is_tidy, passes, staying_is_tidy, toggle_pad_run_is_steady, further,
    };

    reveal(scratchpad_run);
}

pub(crate) broadcast proof fn ask_on_stage_is_tidy(talk: Conv, name: Seq<char>, windows: Seq<WindowModel>)
    ensures
        tidy(
            talk,
            (#[trigger] ask_on_stage(talk, name, windows)).talk,
            ask_on_stage(talk, name, windows).out is Some,
        ),
{
    broadcast use {
        ask_workspaces_is_tidy, passes, staying_is_tidy,
    };
}

broadcast proof fn ask_on_stage_is_steady(
    talk: Conv,
    more: Seq<ReplyModel>,
    name: Seq<char>,
    windows: Seq<WindowModel>,
)
    ensures
        steady(
            ask_on_stage(talk, name, windows),
            #[trigger] ask_on_stage(longer(talk, more), name, windows),
            more,
        ),
{
    broadcast use {
        ask_workspaces_is_tidy, passes, staying_is_tidy, ask_workspaces_is_steady, further,
    };
}

broadcast proof fn reconcile_run_is_tidy(talk: Conv, logic: LogicModel)
    ensures
        tidy(
            talk,
            (#[trigger] reconcile_run(talk, logic)).talk,
            reconcile_run(talk, logic).out is Some,
        ),
        same_config(logic, reconcile_run(talk, logic).logic),
{
    broadcast use {
        ask_windows_is_tidy, ask_on_stage_is_tidy, ask_persist_is_tidy, passes, asking_is_tidy,
        staying_is_tidy,
    };

    reveal(reconcile_run);
}

broadcast proof fn reconcile_run_is_steady(talk: Conv, more: Seq<ReplyModel>, logic: LogicModel)
    ensures
        steady_run(
            reconcile_run(talk, logic),
            #[trigger] reconcile_run(longer(talk, more), logic),
            more,
        ),
{
    broadcast use {
        ask_windows_is_tidy, ask_on_stage_is_tidy, ask_persist_is_tidy, passes, asking_is_tidy,
        staying_is_tidy, ask_windows_is_steady, ask_on_stage_is_steady, ask_persist_is_steady,
        asking_is_steady, further,
    };

    reveal(reconcile_run);
}

broadcast proof fn repin_run_is_tidy(talk: Conv, logic: LogicModel, config: ConfigModel)
    ensures
        tidy(
            talk,
            (#[trigger] repin_run(talk, logic, config)).talk,
            repin_run(talk, logic, config).out is Some,
        ),
        repin_run(talk, logic, config).out is None ==>
            same_config(logic, repin_run(talk, logic, config).logic),
{
    broadcast use {
        ask_windows_is_tidy, ask_workspaces_is_tidy, ask_persist_is_tidy, passes, staying_is_tidy,
    };
}

broadcast proof fn repin_run_is_steady(
    talk: Conv,
    more: Seq<ReplyModel>,
    logic: LogicModel,
    config: ConfigModel,
)
    ensures
        steady_run(
            repin_run(talk, logic, config),
            #[trigger] repin_run(longer(talk, more), logic, config),
            more,
        ),
{
    broadcast use {
        ask_windows_is_tidy, ask_workspaces_is_tidy, ask_persist_is_tidy, passes, staying_is_tidy,
        ask_windows_is_steady, ask_workspaces_is_steady, ask_persist_is_steady, further,
    };
}

broadcast proof fn reload_run_is_tidy(talk: Conv, logic: LogicModel)
    ensures
        tidy(talk, (#[trigger] reload_run(talk, logic)).talk, reload_run(talk, logic).out is Some),
        reload_run(talk, logic).out is None ==> same_config(logic, reload_run(talk, logic).logic),
{
    broadcast use {
        repin_run_is_tidy, passes, asking_is_tidy, staying_is_tidy,
    };

    reveal(reload_run);
}

broadcast proof fn reload_run_is_steady(talk: Conv, more: Seq<ReplyModel>, logic: LogicModel)
    ensures
        steady_run(reload_run(talk, logic), #[trigger] reload_run(longer(talk, more), logic), more),
{
    broadcast use {
        repin_run_is_tidy, passes, asking_is_tidy, staying_is_tidy, repin_run_is_steady,
        asking_is_steady, further,
    };

    reveal(reload_run);
}

broadcast proof fn stage_toggle_active_run_is_tidy(talk: Conv, logic: LogicModel)
    ensures
        tidy(
            talk,
            (#[trigger] stage_toggle_active_run(talk, logic)).talk,
            stage_toggle_active_run(talk, logic).out is Some,
        ),
        same_config(logic, stage_toggle_active_run(talk, logic).logic),
{
    broadcast use {
        ask_active_window_is_tidy, ask_active_workspace_is_tidy, unstage_run_is_tidy,
        stage_run_is_tidy, passes, staying_is_tidy,
    };

    reveal(stage_toggle_active_run);
}

broadcast proof fn stage_toggle_active_run_is_steady(
    talk: Conv,
    more: Seq<ReplyModel>,
    logic: LogicModel,
)
    ensures
        steady_run(
            stage_toggle_active_run(talk, logic),
            #[trigger] stage_toggle_active_run(longer(talk, more), logic),
            more,
        ),
{
    broadcast use {
        ask_active_window_is_tidy, ask_active_workspace_is_tidy, unstage_run_is_tidy,
        stage_run_is_tidy, passes, staying_is_tidy, ask_active_window_is_steady,
        ask_active_workspace_is_steady, unstage_run_is_steady, stage_run_is_steady, further,
    };

    reveal(stage_toggle_active_run);
}

broadcast proof fn workspace_run_is_tidy(talk: Conv, logic: LogicModel, request: RequestModel)
    ensures
        tidy(
            talk,
            (#[trigger] workspace_run(talk, logic, request)).talk,
            workspace_run(talk, logic, request).out is Some,
        ),
        same_config(logic, workspace_run(talk, logic, request).logic),
{
    broadcast use {
        ask_active_workspace_is_tidy, unstage_run_is_tidy, select_appid_is_tidy,
        select_title_is_tidy, toggle_staged_run_is_tidy, unstage_all_run_is_tidy, passes,
        staying_is_tidy,
    };

    reveal(workspace_run);
    reveal(toggle_stage_selected_run);
}

broadcast proof fn workspace_run_is_steady(
    talk: Conv,
    more: Seq<ReplyModel>,
    logic: LogicModel,
    request: RequestModel,
)
    ensures
        steady_run(
            workspace_run(talk, logic, request),
            #[trigger] workspace_run(longer(talk, more), logic, request),
            more,
        ),
{
    broadcast use {
        ask_active_workspace_is_tidy, unstage_run_is_tidy, select_appid_is_tidy,
        select_title_is_tidy, toggle_staged_run_is_tidy, unstage_all_run_is_tidy, passes,
        staying_is_tidy, ask_active_workspace_is_steady, unstage_run_is_steady,
        select_appid_is_steady, select_title_is_steady, toggle_staged_run_is_steady,
        unstage_all_run_is_steady, further,
    };

    reveal(workspace_run);
    reveal(toggle_stage_selected_run);
}

broadcast proof fn windows_run_is_tidy(talk: Conv, logic: LogicModel)
    ensures
        tidy(
            talk,
            (#[trigger] windows_run(talk, logic)).talk,
            windows_run(talk, logic).out is Some,
        ),
        same_config(logic, windows_run(talk, logic).logic),
{
    broadcast use {
        ask_windows_is_tidy, passes, staying_is_tidy,
    };
}

broadcast proof fn windows_run_is_steady(talk: Conv, more: Seq<ReplyModel>, logic: LogicModel)
    ensures
        steady_run(
            windows_run(talk, logic),
            #[trigger] windows_run(longer(talk, more), logic),
            more,
        ),
{
    broadcast use {
        ask_windows_is_tidy, passes, staying_is_tidy, ask_windows_is_steady, further,
    };
}

broadcast proof fn dispatch_run_is_tidy(talk: Conv, logic: LogicModel, request: RequestModel)
    ensures
        tidy(
            talk,
            (#[trigger] dispatch_run(talk, logic, request)).talk,
            dispatch_run(talk, logic, request).out is Some,
        ),
        dispatch_run(talk, logic, request).out is None || !(request is Reload) ==>
            same_config(logic, dispatch_run(talk, logic, request).logic),
{
    broadcast use {
        add_run_is_tidy, remove_run_is_tidy, list_run_is_tidy, toggle_active_run_is_tidy,
        select_appid_is_tidy, select_title_is_tidy, toggle_run_is_tidy, stage_run_is_tidy,
        stage_toggle_active_run_is_tidy, stage_all_run_is_tidy, windows_run_is_tidy,
        reload_run_is_tidy, scratchpad_run_is_tidy, workspace_run_is_tidy, passes,
        staying_is_tidy,
    };

    reveal(dispatch_run);
    reveal(toggle_selected_run);
}

broadcast proof fn dispatch_run_is_steady(
    talk: Conv,
    more: Seq<ReplyModel>,
    logic: LogicModel,
    request: RequestModel,
)
    ensures
        steady_run(
            dispatch_run(talk, logic, request),
            #[trigger] dispatch_run(longer(talk, more), logic, request),
            more,
        ),
{
    reveal(dispatch_run);
    match request {
        RequestModel::Add { window_id } => {
            add_run_is_steady(talk, more, logic, window_id);
        },
        RequestModel::Remove { window_id } => {
            remove_run_is_steady(talk, more, logic, window_id);
        },
        RequestModel::List => {
            list_run_is_steady(talk, more, logic);
        },
        RequestModel::ToggleActive => {
            toggle_active_run_is_steady(talk, more, logic);
        },
        RequestModel::ToggleAppid { appid } => {
            broadcast use {select_appid_is_steady, toggle_run_is_tidy, toggle_run_is_steady, further};

            reveal(toggle_selected_run);
        },
        RequestModel::ToggleTitle { title } => {
            broadcast use {select_title_is_steady, toggle_run_is_tidy, toggle_run_is_steady, further};

            reveal(toggle_selected_run);
        },
        RequestModel::StageList => {},
        RequestModel::Stage { window_id } => {
            stage_run_is_steady(talk, more, logic, window_id);
        },
        RequestModel::StageToggleActive => {
            stage_toggle_active_run_is_steady(talk, more, logic);
        },
        RequestModel::StageAll => {
            stage_all_run_is_steady(talk, more, logic);
        },
        RequestModel::Windows => {
            windows_run_is_steady(talk, more, logic);
        },
        RequestModel::Reload => {
            reload_run_is_steady(talk, more, logic);
        },
        RequestModel::Scratchpad { name } => {
            scratchpad_run_is_steady(talk, more, logic, name);
        },
        _ => {
            workspace_run_is_steady(talk, more, logic, request);
        },
    }
}

broadcast proof fn request_run_is_tidy(talk: Conv, logic: LogicModel, request: RequestModel)
    ensures
        tidy(
            talk,
            (#[trigger] request_run(talk, logic, request)).talk,
            request_run(talk, logic, request).out is Some,
        ),
        request_run(talk, logic, request).out is None || !(request is Reload) ==>
            same_config(logic, request_run(talk, logic, request).logic),
{
    broadcast use {
        dispatch_run_is_tidy, ask_persist_is_tidy, passes, staying_is_tidy,
    };
}

broadcast proof fn request_run_is_steady(
    talk: Conv,
    more: Seq<ReplyModel>,
    logic: LogicModel,
    request: RequestModel,
)
    ensures
        steady_run(
            request_run(talk, logic, request),
            #[trigger] request_run(longer(talk, more), logic, request),
            more,
        ),
{
    broadcast use {
        dispatch_run_is_tidy, ask_persist_is_tidy, passes, staying_is_tidy,
        dispatch_run_is_steady, ask_persist_is_steady, further,
    };
}

pub broadcast proof fn operation_run_is_tidy(
    talk: Conv,
    logic: LogicModel,
    operation: OperationModel,
)
    ensures
        tidy(
            talk,
            (#[trigger] operation_run(talk, logic, operation)).talk,
            operation_run(talk, logic, operation).out is Some,
        ),
        operation_run(talk, logic, operation).out is None ==>
            same_config(logic, operation_run(talk, logic, operation).logic),
{
    broadcast use {
        reconcile_run_is_tidy, request_run_is_tidy, reload_run_is_tidy, activation_run_is_tidy,
        changed_run_is_tidy, closed_run_is_tidy, ask_parking_order_is_tidy, passes,
        staying_is_tidy,
    };
}

pub broadcast proof fn operation_run_is_steady(
    talk: Conv,
    more: Seq<ReplyModel>,
    logic: LogicModel,
    operation: OperationModel,
)
    ensures
        steady_run(
            operation_run(talk, logic, operation),
            #[trigger] operation_run(longer(talk, more), logic, operation),
            more,
        ),
{
    broadcast use {
        reconcile_run_is_tidy, request_run_is_tidy, reload_run_is_tidy, activation_run_is_tidy,
        changed_run_is_tidy, closed_run_is_tidy, ask_parking_order_is_tidy, passes,
        staying_is_tidy, reconcile_run_is_steady, request_run_is_steady, reload_run_is_steady,
        activation_run_is_steady, changed_run_is_steady, closed_run_is_steady,
        ask_parking_order_is_steady, further,
    };
}

/// Starting an operation again with more answers repeats what it did: each
/// question uses up one answer, an operation waits only for the answer to its
/// last question, and with more answers it asks the same questions first and,
/// once it is over, comes to the same end.
pub proof fn replay_is_stable(
    logic: LogicModel,
    operation: OperationModel,
    answers: Seq<ReplyModel>,
    more: Seq<ReplyModel>,
)
    ensures
        ({
            let short = operation_run(Talk::start(answers), logic, operation);
            let long = operation_run(Talk::start(answers + more), logic, operation);
            &&& short.out is Some ==> {
                &&& short.talk.asked.len() + short.talk.answers.len() == answers.len()
                &&& long.out == short.out
                &&& long.logic == short.logic
                &&& long.talk.asked == short.talk.asked
            }
            &&& short.out is None ==> {
                &&& short.talk.asked.len() == answers.len() + 1
                &&& short.talk.asked == long.talk.asked.take(answers.len() as int + 1)
            }
        }),
{
    let talk: Conv = Talk::start(answers);
    longer_from_start::<ActionModel, ReplyModel>(answers, more);
    operation_run_is_tidy(talk, logic, operation);
    operation_run_is_steady(talk, more, logic, operation);
    let short = operation_run(talk, logic, operation);
    tidy_from_start(answers, short.talk, short.out is Some);
}

} // verus!
