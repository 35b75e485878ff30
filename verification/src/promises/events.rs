//! What the daemon does about an event of the compositor, and which windows a
//! request for several of them goes through.
use vstd::prelude::*;
use super::requests::{is_held, is_success, releasing_keeps_what_was_asked};
use super::tracking::others_stay;
use super::windows::{is_open, windows_exist_while_they_are_listed};
use crate::action::{ActionModel, Conv, ReplyModel};
use crate::business::{default_pin, existing, BatchModel, LogicModel};
use crate::business::events::{activation_run, changed_run, closed_run, follow_each_run, retained};
use crate::business::parking::ask_release;
use crate::business::requests::{dispatch_run, stage_toggle_active_run, workspace_run};
use crate::business::stage::{
    stage_all_run, stage_each_run, stage_run, toggle_stage_selected_run, toggle_staged_run,
    unstage_all_run, unstage_each_run, unstage_run,
};
use crate::business::sticky::{
    select_appid, select_title, toggle_each_run, toggle_run, toggle_selected_run,
};
use crate::config::{match_of, FactsModel, MatchedModel, WindowAction};
use crate::error::Chain;
use crate::lists;
use crate::niri::{WindowModel, WorkspaceModel};
use crate::protocol::RequestModel;
use crate::state::StateModel;
use crate::tables::{sorted_ids, sorted_ids_are_sorted};

verus! {

/// When a workspace is focused, every sticky window that is open follows,
/// smallest id first; those that are not open any more are forgotten first.
pub proof fn all_sticky_windows_follow(
    talk: Conv,
    logic: LogicModel,
    focused: u64,
    windows: Seq<WindowModel>,
    layout: Seq<WorkspaceModel>,
)
    requires
        talk.answers.len() >= 2,
        talk.answers[0] == ReplyModel::Windows(windows),
        talk.answers[1] == ReplyModel::Workspaces(layout),
    ensures
        exists|ids: Seq<u64>, state: StateModel|
            {
                &&& activation_run(talk, logic, focused) == #[trigger] follow_each_run(
                    talk.ask(ActionModel::Windows).ask(ActionModel::Workspaces),
                    logic.with(state),
                    ids,
                    windows,
                    layout,
                    focused,
                )
                &&& forall|i: int, j: int| 0 <= i < j < ids.len() ==> ids[i] < ids[j]
                &&& forall|id: u64| #[trigger]
                    ids.contains(id) <==> logic.state.sticky.contains_key(id) && is_open(
                        windows,
                        id,
                    )
                &&& forall|id: u64| #[trigger]
                    state.sticky.contains_key(id) <==> logic.state.sticky.contains_key(id)
                        && is_open(windows, id)
                &&& forall|id: u64| #[trigger]
                    state.sticky.contains_key(id) ==> state.sticky[id] == logic.state.sticky[id]
                &&& state.staged == logic.state.staged
                &&& state.pads == logic.state.pads
                &&& state.auto_staged == logic.state.auto_staged
            },
{
    reveal(activation_run);
    let one = talk.ask(ActionModel::Windows);
    assert(one.answers[0] == talk.answers[1]);
    let state = StateModel { sticky: retained(logic.state.sticky, windows), ..logic.state };
    let ids = sorted_ids(state.sticky.dom());
    sorted_ids_are_sorted(state.sticky.dom());
    assert forall|id: u64| #[trigger]
        state.sticky.contains_key(id) <==> logic.state.sticky.contains_key(id) && is_open(
            windows,
            id,
        ) by {
        windows_exist_while_they_are_listed(windows, id);
    }
    assert forall|id: u64| #[trigger]
        ids.contains(id) <==> logic.state.sticky.contains_key(id) && is_open(windows, id) by {
        assert(ids.to_set().contains(id) <==> state.sticky.dom().contains(id));
        assert(state.sticky.contains_key(id) <==> state.sticky.dom().contains(id));
    }
    assert(activation_run(talk, logic, focused) == follow_each_run(
        one.ask(ActionModel::Workspaces),
        logic.with(state),
        ids,
        windows,
        layout,
        focused,
    ));
}

/// A window that a sticky rule with outputs matches is sticky with those
/// outputs, whether it was sticky before or not, unless it is staged or parked.
/// Nothing is asked of the compositor for it.
pub proof fn a_rule_pins_to_its_outputs(
    talk: Conv,
    logic: LogicModel,
    id: u64,
    facts: FactsModel,
    matched: MatchedModel,
)
    requires
        talk.answers.len() > 0,
        match_of(logic.config, facts) == Some(matched),
        matched.action == WindowAction::Sticky,
        matched.outputs.len() > 0,
    ensures
        ({
            let r = changed_run(talk, logic, id, facts);
            let elsewhere = logic.state.staged.contains_key(id) || is_held(logic, id);
            &&& r.out == Some(Ok::<(), Chain>(()))
            &&& elsewhere ==> r.logic.state == logic.state
            &&& !elsewhere ==> {
                &&& r.logic.state.sticky.contains_key(id)
                &&& r.logic.state.sticky[id] == matched.outputs
                &&& others_stay(logic.state, r.logic.state, id)
                &&& r.logic.state.staged == logic.state.staged
                &&& r.logic.state.pads == logic.state.pads
            }
            &&& forall|i: int|
                talk.asked.len() <= i < r.talk.asked.len() ==> #[trigger] r.talk.asked[i] == (
                ActionModel::SaveState { state: r.logic.state.snapshot() })
        }),
{
    reveal(changed_run);
}

/// A window that a sticky rule without outputs matches is sticky with the pin
/// that the configuration gives by default.
pub proof fn a_rule_without_outputs_pins_by_default(
    talk: Conv,
    logic: LogicModel,
    id: u64,
    facts: FactsModel,
    matched: MatchedModel,
    windows: Seq<WindowModel>,
    layout: Seq<WorkspaceModel>,
)
    requires
        talk.answers.len() >= 3,
        talk.answers[0] == ReplyModel::Windows(windows),
        talk.answers[1] == ReplyModel::Workspaces(layout),
        match_of(logic.config, facts) == Some(matched),
        matched.action == WindowAction::Sticky,
        matched.outputs.len() == 0,
    ensures
        ({
            let r = changed_run(talk, logic, id, facts);
            let elsewhere = logic.state.staged.contains_key(id) || is_held(logic, id);
            &&& r.out == Some(Ok::<(), Chain>(()))
            &&& elsewhere ==> r.logic.state == logic.state
            &&& !elsewhere ==> {
                &&& r.logic.state.sticky.contains_key(id)
                &&& r.logic.state.sticky[id] == default_pin(
                    logic.config.sticky_follow,
                    windows,
                    layout,
                    id,
                )
                &&& others_stay(logic.state, r.logic.state, id)
                &&& r.logic.state.staged == logic.state.staged
                &&& r.logic.state.pads == logic.state.pads
            }
        }),
{
    reveal(changed_run);
    let one = talk.ask(ActionModel::Windows);
    let two = one.ask(ActionModel::Workspaces);
    assert(one.answers[0] == talk.answers[1]);
    assert(two.answers[0] == talk.answers[2]);
}

/// A window that no rule matches is left as it is.
pub proof fn without_a_rule_nothing_changes(
    talk: Conv,
    logic: LogicModel,
    id: u64,
    facts: FactsModel,
)
    requires
        match_of(logic.config, facts) is None,
        talk.answers.len() > 0,
    ensures
        changed_run(talk, logic, id, facts).logic.state == logic.state,
        changed_run(talk, logic, id, facts).out == Some(Ok::<(), Chain>(())),
{
    reveal(changed_run);
}

/// A window that a stage rule matches is staged as on request, and remembered
/// as staged by a rule. One that a rule staged before, or that is parked, is
/// left alone, and nothing is asked.
pub proof fn a_stage_rule_stages(
    talk: Conv,
    logic: LogicModel,
    id: u64,
    facts: FactsModel,
    matched: MatchedModel,
)
    requires
        match_of(logic.config, facts) == Some(matched),
        matched.action == WindowAction::Stage,
    ensures
        ({
            let r = changed_run(talk, logic, id, facts);
            let staged = stage_run(talk, logic, id);
            let settled = logic.state.auto_staged.contains(id) || is_held(logic, id);
            &&& settled ==> r.talk == talk && r.logic == logic && r.out == Some(
                Ok::<(), Chain>(()),
            )
            &&& !settled && staged.out == Some(Ok::<(), Chain>(())) && staged.talk.answers.len() > 0
                ==> {
                &&& r.out == Some(Ok::<(), Chain>(()))
                &&& r.logic.state.staged == staged.logic.state.staged
                &&& r.logic.state.sticky == staged.logic.state.sticky
                &&& r.logic.state.pads == staged.logic.state.pads
                &&& r.logic.state.auto_staged == staged.logic.state.auto_staged.insert(id)
            }
            &&& forall|e: Chain|
                !settled && staged.out == Some(Err::<(), _>(e)) ==> r.out == Some(Err::<(), _>(e))
                    && r.logic == staged.logic && r.talk == staged.talk
        }),
{
    reveal(changed_run);
}

/// A window that closed is tracked nowhere any more, and other windows are
/// tracked as before. Where it was neither staged nor parked, nothing is asked
/// of the compositor.
pub proof fn a_closed_window_leaves_the_others_alone(talk: Conv, logic: LogicModel, id: u64)
    requires
        talk.answers.len() >= 5,
    ensures
        ({
            let r = closed_run(talk, logic, id);
            &&& r.out == Some(Ok::<(), Chain>(()))
            &&& !r.logic.state.sticky.contains_key(id)
            &&& !r.logic.state.staged.contains_key(id)
            &&& !r.logic.state.auto_staged.contains(id)
            &&& forall|label: Seq<char>| #[trigger]
                r.logic.state.pads.contains_key(label) <==> logic.state.pads.contains_key(label)
                    && logic.state.pads[label].id != id
            &&& others_stay(logic.state, r.logic.state, id)
            &&& !logic.state.staged.contains_key(id) && !is_held(logic, id) ==> forall|i: int|
                talk.asked.len() <= i < r.talk.asked.len() ==> #[trigger] r.talk.asked[i] == (
                ActionModel::SaveState { state: r.logic.state.snapshot() })
        }),
{
    reveal(closed_run);
    let left = logic.with(logic.state.forget(id));
    releasing_keeps_what_was_asked(talk, left, left.config.stage_workspace);
    let stage = ask_release(talk, left.config, left.state, left.config.stage_workspace);
    releasing_keeps_what_was_asked(stage.talk, left, left.config.scratchpad_workspace);
}

// Requests for several windows.

/// Toggling windows by app id or title looks up the focused workspace, the
/// windows and the workspaces, and goes through what was selected, in its
/// order; the stage is given back where it was in use and is not any more.
pub proof fn what_is_selected_is_toggled(
    talk: Conv,
    logic: LogicModel,
    ids: Seq<u64>,
    workspace_id: u64,
    windows: Seq<WindowModel>,
    layout: Seq<WorkspaceModel>,
)
    requires
        talk.answers.len() >= 3,
        talk.answers[0] == ReplyModel::Id(workspace_id),
        talk.answers[1] == ReplyModel::Windows(windows),
        talk.answers[2] == ReplyModel::Workspaces(layout),
    ensures
        ({
            let looked = talk.ask(ActionModel::ActiveWorkspace).ask(ActionModel::Windows).ask(
                ActionModel::Workspaces,
            );
            let each = toggle_each_run(
                looked,
                logic,
                ids,
                workspace_id,
                windows,
                layout,
                BatchModel { succeeded: Seq::empty(), failed: Seq::empty() },
            );
            let r = toggle_run(talk, logic, ids);
            let in_use = exists|id: u64| #[trigger] logic.state.staged.contains_key(id);
            &&& r.logic == each.logic
            &&& each.out is Some && !in_use ==> r == each
            &&& each.out is Some && in_use ==> r.talk == ask_release(
                each.talk,
                each.logic.config,
                each.logic.state,
                each.logic.config.stage_workspace,
            ).talk && (r.out is Some ==> r.out == each.out)
        }),
{
    let one = talk.ask(ActionModel::ActiveWorkspace);
    let two = one.ask(ActionModel::Windows);
    assert(one.answers[0] == talk.answers[1]);
    assert(two.answers[0] == talk.answers[2]);
    if exists|id: u64| #[trigger] logic.state.staged.contains_key(id) {
        assert(logic.state.staged != Map::<u64, crate::state::StagedModel>::empty());
    } else {
        assert(logic.state.staged =~= Map::<u64, crate::state::StagedModel>::empty());
    }
}

/// Which request is for what: toggling by app id and by title goes through the
/// windows that these select, on the sticky list and on the stage.
pub proof fn requests_go_through_what_they_select(
    talk: Conv,
    logic: LogicModel,
    text: Seq<char>,
    ids: Seq<u64>,
    workspace_id: u64,
)
    requires
        talk.answers.len() > 0,
        talk.answers[0] == ReplyModel::Id(workspace_id),
    ensures
        ({
            let r = dispatch_run(talk, logic, RequestModel::StageToggleAppid { appid: text });
            let selected = select_appid(talk.ask(ActionModel::ActiveWorkspace), text);
            selected.out == Some(Ok::<Seq<u64>, Chain>(ids)) ==> {
                let each = toggle_staged_run(
                    selected.talk,
                    logic,
                    ids,
                    workspace_id,
                    BatchModel { succeeded: Seq::empty(), failed: Seq::empty() },
                );
                &&& r.talk == each.talk
                &&& r.logic == each.logic
            }
        }),
        ({
            let r = dispatch_run(talk, logic, RequestModel::StageToggleTitle { title: text });
            let selected = select_title(talk.ask(ActionModel::ActiveWorkspace), text);
            selected.out == Some(Ok::<Seq<u64>, Chain>(ids)) ==> {
                let each = toggle_staged_run(
                    selected.talk,
                    logic,
                    ids,
                    workspace_id,
                    BatchModel { succeeded: Seq::empty(), failed: Seq::empty() },
                );
                &&& r.talk == each.talk
                &&& r.logic == each.logic
            }
        }),
        ({
            let r = dispatch_run(talk, logic, RequestModel::ToggleAppid { appid: text });
            let selected = select_appid(talk, text);
            selected.out == Some(Ok::<Seq<u64>, Chain>(ids)) ==> {
                let each = toggle_run(selected.talk, logic, ids);
                &&& r.talk == each.talk
                &&& r.logic == each.logic
            }
        }),
        ({
            let r = dispatch_run(talk, logic, RequestModel::ToggleTitle { title: text });
            let selected = select_title(talk, text);
            selected.out == Some(Ok::<Seq<u64>, Chain>(ids)) ==> {
                let each = toggle_run(selected.talk, logic, ids);
                &&& r.talk == each.talk
                &&& r.logic == each.logic
            }
        }),
{
    reveal(dispatch_run);
    reveal(workspace_run);
    reveal(toggle_selected_run);
    reveal(toggle_stage_selected_run);
}

/// Staging all of them goes through the sticky windows that are open, smallest
/// id first.
pub proof fn every_sticky_window_is_staged(
    talk: Conv,
    logic: LogicModel,
    windows: Seq<WindowModel>,
)
    requires
        talk.answers.len() > 0,
        talk.answers[0] == ReplyModel::Windows(windows),
    ensures
        exists|ids: Seq<u64>|
            {
                &&& dispatch_run(talk, logic, RequestModel::StageAll).talk
                    == (#[trigger] stage_each_run(
                    talk.ask(ActionModel::Windows),
                    logic,
                    ids,
                    None,
                    BatchModel { succeeded: Seq::empty(), failed: Seq::empty() },
                )).talk
                &&& dispatch_run(talk, logic, RequestModel::StageAll).logic == stage_each_run(
                    talk.ask(ActionModel::Windows),
                    logic,
                    ids,
                    None,
                    BatchModel { succeeded: Seq::empty(), failed: Seq::empty() },
                ).logic
                &&& forall|i: int, j: int| 0 <= i < j < ids.len() ==> ids[i] < ids[j]
                &&& forall|id: u64|
                    ids.contains(id) <==> logic.state.sticky.contains_key(id) && is_open(
                        windows,
                        id,
                    )
            },
{
    reveal(dispatch_run);
    reveal(stage_all_run);
    let ids = open_ids_are_listed(logic.state.sticky.dom(), windows);
    assert(dispatch_run(talk, logic, RequestModel::StageAll).talk == stage_each_run(
        talk.ask(ActionModel::Windows),
        logic,
        ids,
        None,
        BatchModel { succeeded: Seq::empty(), failed: Seq::empty() },
    ).talk);
}

proof fn open_ids_are_listed(known: Set<u64>, windows: Seq<WindowModel>) -> (ids: Seq<u64>)
    ensures
        ids == sorted_ids(known).filter_map(existing(windows)),
        forall|i: int, j: int| 0 <= i < j < ids.len() ==> ids[i] < ids[j],
        forall|id: u64| ids.contains(id) <==> known.contains(id) && is_open(windows, id),
{
    let all = sorted_ids(known);
    sorted_ids_are_sorted(known);
    let ids = all.filter_map(existing(windows));
    super::windows::tracked_windows_are_listed_while_open(windows, all);
    let p = |id: u64| is_open(windows, id);
    let taken = |id: u64| id;
    let at = choose|at: Seq<int>| #[trigger]
        lists::places_of(all, p, at) && ids.len() == at.len() && (forall|k: int|
            0 <= k < ids.len() ==> #[trigger] ids[k] == taken(all[at[k]]));
    assert forall|i: int, j: int| 0 <= i < j < ids.len() implies ids[i] < ids[j] by {
        assert(at[i] < at[j]);
        assert(ids[i] == all[at[i]] && ids[j] == all[at[j]]);
    }
    assert forall|id: u64| ids.contains(id) <==> known.contains(id) && is_open(
        windows,
        id,
    ) by {
        assert(all.to_set().contains(id) <==> known.contains(id));
        if ids.contains(id) {
            let k = choose|k: int| 0 <= k < ids.len() && ids[k] == id;
            assert(ids[k] == all[at[k]]);
            assert(p(all[at[k]]));
        }
        if all.contains(id) && is_open(windows, id) {
            let i = choose|i: int| 0 <= i < all.len() && all[i] == id;
            assert(p(all[i]));
            let k = choose|k: int| 0 <= k < at.len() && at[k] == i;
            assert(ids[k] == id);
        }
    }
    ids
}

/// Bringing all of them back goes through every staged window, smallest id
/// first, and gives the stage back at the end; with an empty stage there is
/// nothing to ask.
pub proof fn every_staged_window_is_brought_back(
    talk: Conv,
    logic: LogicModel,
    workspace_id: u64,
    windows: Seq<WindowModel>,
)
    requires
        talk.answers.len() >= 2,
        talk.answers[0] == ReplyModel::Id(workspace_id),
        talk.answers[1] == ReplyModel::Windows(windows),
    ensures
        ({
            let r = dispatch_run(talk, logic, RequestModel::UnstageAll);
            let in_use = exists|id: u64| #[trigger] logic.state.staged.contains_key(id);
            &&& !in_use ==> r.talk.asked == talk.asked.push(ActionModel::ActiveWorkspace)
                && r.logic == logic
            &&& in_use ==> exists|ids: Seq<u64>|
                {
                    let each = #[trigger] unstage_each_run(
                        talk.ask(ActionModel::ActiveWorkspace).ask(ActionModel::Windows),
                        logic,
                        ids,
                        windows,
                        workspace_id,
                        BatchModel { succeeded: Seq::empty(), failed: Seq::empty() },
                    );
                    &&& r.logic == each.logic
                    &&& each.out is Some ==> r.talk == ask_release(
                        each.talk,
                        each.logic.config,
                        each.logic.state,
                        logic.config.stage_workspace,
                    ).talk
                    &&& forall|i: int, j: int| 0 <= i < j < ids.len() ==> ids[i] < ids[j]
                    &&& forall|id: u64| ids.contains(id) <==> logic.state.staged.contains_key(id)
                }
        }),
{
    reveal(dispatch_run);
    reveal(workspace_run);
    reveal(unstage_all_run);
    let one = talk.ask(ActionModel::ActiveWorkspace);
    assert(one.answers[0] == talk.answers[1]);
    let ids = sorted_ids(logic.state.staged.dom());
    sorted_ids_are_sorted(logic.state.staged.dom());
    assert forall|id: u64| ids.contains(id) <==> logic.state.staged.contains_key(id) by {
        assert(ids.to_set().contains(id) <==> logic.state.staged.dom().contains(id));
    }
    if exists|id: u64| #[trigger] logic.state.staged.contains_key(id) {
        assert(logic.state.staged != Map::<u64, crate::state::StagedModel>::empty());
        let each = unstage_each_run(
            one.ask(ActionModel::Windows),
            logic,
            ids,
            windows,
            workspace_id,
            BatchModel { succeeded: Seq::empty(), failed: Seq::empty() },
        );
        let r = dispatch_run(talk, logic, RequestModel::UnstageAll);
        assert(r.logic == each.logic);
    } else {
        assert(logic.state.staged =~= Map::<u64, crate::state::StagedModel>::empty());
    }
}

/// Toggling the stage of the focused window brings it back to the focused
/// workspace where it is staged, and stages it where it is not.
pub proof fn the_focused_window_is_staged_or_brought_back(
    talk: Conv,
    logic: LogicModel,
    id: u64,
    workspace_id: u64,
)
    requires
        talk.answers.len() >= 2,
        talk.answers[0] == ReplyModel::Id(id),
        logic.state.staged.contains_key(id) ==> talk.answers[1] == ReplyModel::Id(workspace_id),
    ensures
        ({
            let r = dispatch_run(talk, logic, RequestModel::StageToggleActive);
            let focused = talk.ask(ActionModel::ActiveWindow);
            if logic.state.staged.contains_key(id) {
                let back = unstage_run(
                    focused.ask(ActionModel::ActiveWorkspace),
                    logic,
                    id,
                    workspace_id,
                );
                &&& r.talk == back.talk
                &&& r.logic == back.logic
                &&& back.out == Some(Ok::<(), Chain>(())) ==> is_success(
                    r.out,
                    "Unstaged active window"@,
                )
            } else {
                let staged = stage_run(focused, logic, id);
                &&& r.talk == staged.talk
                &&& r.logic == staged.logic
                &&& staged.out == Some(Ok::<(), Chain>(())) ==> is_success(
                    r.out,
                    "Staged active window"@,
                )
            }
        }),
{
    reveal(dispatch_run);
    reveal(stage_toggle_active_run);
    let one = talk.ask(ActionModel::ActiveWindow);
    assert(one.answers[0] == talk.answers[1]);
}

} // verus!
