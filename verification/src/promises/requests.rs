//! What a request asks the compositor for, what it changes, and what it is
//! answered.
use vstd::prelude::*;
use super::parking::{
    a_parking_area_is_used_again, is_first_named, the_geometry_of_floating_windows_is_remembered,
    unknown_windows_are_refused,
};
use super::tracking::{
    a_scratchpad_remembers, a_window_brought_back_is_sticky, others_stay, the_stage_gives_back,
    the_stage_remembers,
};
use super::windows::{is_first_window, is_open, windows_exist_while_they_are_listed};
use crate::action::{ActionModel, Conv, ReplyModel};
use crate::business::{default_pin, facts_of, LogicModel};
use crate::business::parking::{ask_geometry, ask_parking, ask_release, check_window};
use crate::business::replay::ask_persist_is_tidy;
use crate::business::requests::{dispatch_run, AnswerModel};
use crate::business::scratchpad::{pad_target, park_run, scratchpad_run, show_run};
use crate::business::stage::{stage_run, unstage_run};
use crate::business::sticky::{add_run, remove_run, toggle_active_run};
use crate::config::{pad_matches, pad_named, pad_names, PadModel};
use crate::error::{rendered, Chain};
use crate::lists;
use crate::niri::{WindowModel, WorkspaceModel};
use crate::protocol::{RequestModel, ResponseModel};
use crate::text;

verus! {

/// The request was carried out, and this is said of it.
pub open spec fn is_success(out: Option<AnswerModel>, message: Seq<char>) -> bool {
    out == Some(AnswerModel::Response(ResponseModel::Success { message }))
}

/// The request was refused, and this is why.
pub open spec fn is_refusal(out: Option<AnswerModel>, message: Seq<char>) -> bool {
    out == Some(AnswerModel::Response(ResponseModel::Error { message }))
}

/// Some label holds the window.
pub open spec fn is_held(logic: LogicModel, id: u64) -> bool {
    exists|label: Seq<char>| #[trigger]
        logic.state.pads.contains_key(label) && logic.state.pads[label].id == id
}

/// An error with one message is reported by that message.
pub(crate) proof fn one_message_is_said_as_it_is(message: Seq<char>)
    ensures
        rendered(seq![message]) == message,
{
}

/// Adding a window that is open, not staged and not parked makes it sticky,
/// pinned as the configuration says; the answer tells whether it was sticky
/// already. A staged window stays as it is, a parked one and one that is not
/// open are refused.
pub proof fn adding_makes_sticky(
    talk: Conv,
    logic: LogicModel,
    id: u64,
    windows: Seq<WindowModel>,
    layout: Seq<WorkspaceModel>,
)
    requires
        talk.answers.len() >= 2,
        talk.answers[0] == ReplyModel::Windows(windows),
        talk.answers[1] == ReplyModel::Workspaces(layout),
    ensures
        ({
            let r = dispatch_run(talk, logic, RequestModel::Add { window_id: id });
            let staged = logic.state.staged.contains_key(id);
            &&& !is_open(windows, id) ==> r.logic == logic && r.talk.asked == talk.asked.push(
                ActionModel::Windows,
            ) && is_refusal(r.out, "Window not found in Niri"@)
            &&& is_open(windows, id) ==> r.talk.asked == talk.asked + seq![
                ActionModel::Windows,
                ActionModel::Workspaces,
            ]
            &&& is_open(windows, id) && staged ==> r.logic == logic && is_success(
                r.out,
                "Already in sticky list"@,
            )
            &&& is_open(windows, id) && !staged && is_held(logic, id) ==> r.logic == logic
                && is_refusal(r.out, "Window is parked by a scratchpad, cannot add to sticky"@)
            &&& is_open(windows, id) && !staged && !is_held(logic, id) ==> {
                &&& r.logic.state.sticky.contains_key(id)
                &&& r.logic.state.sticky[id] == default_pin(
                    logic.config.sticky_follow,
                    windows,
                    layout,
                    id,
                )
                &&& r.logic.state.staged == logic.state.staged
                &&& others_stay(logic.state, r.logic.state, id)
                &&& logic.state.sticky.contains_key(id) ==> is_success(
                    r.out,
                    "Already in sticky list"@,
                )
                &&& !logic.state.sticky.contains_key(id) ==> is_success(r.out, "Added"@)
            }
        }),
{
    reveal(dispatch_run);
    reveal(add_run);
    windows_exist_while_they_are_listed(windows, id);
    one_message_is_said_as_it_is("Window not found in Niri"@);
    one_message_is_said_as_it_is("Window is parked by a scratchpad, cannot add to sticky"@);
    let one = talk.ask(ActionModel::Windows);
    assert(one.answers[0] == talk.answers[1]);
    assert(one.ask(ActionModel::Workspaces).asked =~= talk.asked + seq![
        ActionModel::Windows,
        ActionModel::Workspaces,
    ]);
}

/// Removing a window that is open and not staged takes it off the sticky list;
/// the answer tells whether it was on it. A staged window and one that is not
/// open are refused.
pub proof fn removing_makes_sticky_no_more(
    talk: Conv,
    logic: LogicModel,
    id: u64,
    windows: Seq<WindowModel>,
)
    requires
        talk.answers.len() >= 1,
        talk.answers[0] == ReplyModel::Windows(windows),
    ensures
        ({
            let r = dispatch_run(talk, logic, RequestModel::Remove { window_id: id });
            &&& r.talk.asked == talk.asked.push(ActionModel::Windows)
            &&& !is_open(windows, id) ==> r.logic == logic && is_refusal(
                r.out,
                "Window not found in Niri"@,
            )
            &&& is_open(windows, id) && logic.state.staged.contains_key(id) ==> r.logic == logic
                && is_refusal(r.out, "Window is in stage, cannot remove from sticky"@)
            &&& is_open(windows, id) && !logic.state.staged.contains_key(id) ==> {
                &&& !r.logic.state.sticky.contains_key(id)
                &&& others_stay(logic.state, r.logic.state, id)
                &&& r.logic.state.staged == logic.state.staged
                &&& r.logic.state.pads == logic.state.pads
                &&& logic.state.sticky.contains_key(id) ==> is_success(r.out, "Removed"@)
                &&& !logic.state.sticky.contains_key(id) ==> is_success(
                    r.out,
                    "Not in sticky list"@,
                )
            }
        }),
{
    reveal(dispatch_run);
    reveal(remove_run);
    unknown_windows_are_refused(talk, id, windows);
    one_message_is_said_as_it_is("Window not found in Niri"@);
    one_message_is_said_as_it_is("Window is in stage, cannot remove from sticky"@);
}

/// Toggling the focused window makes a sticky one not sticky, and any other
/// that is neither staged nor parked sticky, pinned as the configuration says.
pub proof fn toggling_the_focused_window_flips_it(
    talk: Conv,
    logic: LogicModel,
    id: u64,
    windows: Seq<WindowModel>,
    again: Seq<WindowModel>,
    layout: Seq<WorkspaceModel>,
)
    requires
        talk.answers.len() >= 4,
        talk.answers[0] == ReplyModel::Id(id),
        talk.answers[1] == ReplyModel::Windows(windows),
        talk.answers[2] == ReplyModel::Windows(again),
        talk.answers[3] == ReplyModel::Workspaces(layout),
        !logic.state.staged.contains_key(id),
    ensures
        ({
            let r = dispatch_run(talk, logic, RequestModel::ToggleActive);
            &&& !is_open(windows, id) ==> r.logic == logic && is_refusal(
                r.out,
                "Active window not found in Niri"@,
            )
            &&& is_open(windows, id) && logic.state.sticky.contains_key(id) ==> {
                &&& r.talk.asked == talk.asked + seq![
                    ActionModel::ActiveWindow,
                    ActionModel::Windows,
                ]
                &&& !r.logic.state.sticky.contains_key(id)
                &&& others_stay(logic.state, r.logic.state, id)
                &&& r.logic.state.staged == logic.state.staged
                &&& r.logic.state.pads == logic.state.pads
                &&& is_success(r.out, "Removed active window from sticky"@)
            }
            &&& is_open(windows, id) && is_open(again, id) && !logic.state.sticky.contains_key(id)
                && !is_held(logic, id) ==> {
                &&& r.logic.state.sticky.contains_key(id)
                &&& r.logic.state.sticky[id] == default_pin(
                    logic.config.sticky_follow,
                    again,
                    layout,
                    id,
                )
                &&& others_stay(logic.state, r.logic.state, id)
                &&& r.logic.state.staged == logic.state.staged
                &&& r.logic.state.pads == logic.state.pads
                &&& is_success(r.out, "Added active window to sticky"@)
            }
            &&& is_open(windows, id) && is_open(again, id) && !logic.state.sticky.contains_key(id)
                && is_held(logic, id) ==> r.logic == logic && is_refusal(
                r.out,
                "Window is parked by a scratchpad, cannot add to sticky"@,
            )
        }),
{
    reveal(dispatch_run);
    reveal(toggle_active_run);
    reveal(add_run);
    windows_exist_while_they_are_listed(windows, id);
    windows_exist_while_they_are_listed(again, id);
    one_message_is_said_as_it_is("Active window not found in Niri"@);
    one_message_is_said_as_it_is("Window is parked by a scratchpad, cannot add to sticky"@);
    let one = talk.ask(ActionModel::ActiveWindow);
    let two = one.ask(ActionModel::Windows);
    let three = two.ask(ActionModel::Windows);
    assert(one.answers[0] == talk.answers[1]);
    assert(two.answers[0] == talk.answers[2]);
    assert(three.answers[0] == talk.answers[3]);
    assert(two.asked =~= talk.asked + seq![ActionModel::ActiveWindow, ActionModel::Windows]);
}

/// Toggling the focused window while it is staged moves it to the focused
/// workspace and makes it sticky with the pin that the stage remembers.
pub proof fn toggling_a_staged_window_brings_it_back_sticky(
    talk: Conv,
    logic: LogicModel,
    id: u64,
    windows: Seq<WindowModel>,
    workspace_id: u64,
)
    requires
        talk.answers.len() >= 6,
        talk.answers[0] == ReplyModel::Id(id),
        talk.answers[1] == ReplyModel::Windows(windows),
        talk.answers[2] == ReplyModel::Id(workspace_id),
        talk.answers[3] == ReplyModel::Done,
        is_open(windows, id),
        logic.state.staged.contains_key(id),
    ensures
        ({
            let r = dispatch_run(talk, logic, RequestModel::ToggleActive);
            let n = talk.asked.len() as int;
            &&& r.talk.asked.len() >= n + 4
            &&& r.talk.asked[n] == ActionModel::ActiveWindow
            &&& r.talk.asked[n + 1] == ActionModel::Windows
            &&& r.talk.asked[n + 2] == ActionModel::ActiveWorkspace
            &&& r.talk.asked[n + 3] == (ActionModel::MoveWindow { window_id: id, workspace_id })
            &&& !r.logic.state.staged.contains_key(id)
            &&& r.logic.state.sticky.contains_key(id)
            &&& r.logic.state.sticky[id] == logic.state.staged[id].pin
            &&& others_stay(logic.state, r.logic.state, id)
            &&& is_success(r.out, "Added active window to sticky"@)
        }),
{
    reveal(dispatch_run);
    reveal(toggle_active_run);
    windows_exist_while_they_are_listed(windows, id);
    a_window_brought_back_is_sticky(logic.state, id);
    let one = talk.ask(ActionModel::ActiveWindow);
    let two = one.ask(ActionModel::Windows);
    let three = two.ask(ActionModel::ActiveWorkspace);
    let four = three.ask(ActionModel::MoveWindow { window_id: id, workspace_id });
    assert(one.answers[0] == talk.answers[1]);
    assert(two.answers[0] == talk.answers[2]);
    assert(three.answers[0] == talk.answers[3]);
    assert(four.answers[0] == talk.answers[4]);
    let back = logic.with(logic.state.bring_back(id));
    releasing_keeps_what_was_asked(four, back, logic.config.stage_workspace);
    let n = talk.asked.len() as int;
    assert(four.asked[n] == ActionModel::ActiveWindow);
    assert(four.asked[n + 1] == ActionModel::Windows);
    assert(four.asked[n + 2] == ActionModel::ActiveWorkspace);
    assert(four.asked[n + 3] == (ActionModel::MoveWindow { window_id: id, workspace_id }));
}

/// Giving a parking area back comes after what was asked before, and takes two
/// answers at most.
pub(crate) proof fn releasing_keeps_what_was_asked(talk: Conv, logic: LogicModel, name: Seq<char>)
    requires
        talk.answers.len() >= 2,
    ensures
        ({
            let r = ask_release(talk, logic.config, logic.state, name);
            &&& r.out is Some
            &&& r.talk.asked.len() >= talk.asked.len()
            &&& r.talk.answers.len() + 2 >= talk.answers.len()
            &&& forall|i: int|
                0 <= i < talk.asked.len() ==> #[trigger] r.talk.asked[i] == talk.asked[i]
        }),
{
    let one = talk.ask(ActionModel::Workspaces);
    assert(one.answers.len() >= 1);
}

/// Staging a window that is open, not staged and not parked moves it to the
/// stage and remembers whether it was sticky, its pin and its geometry.
pub proof fn staging_parks_and_remembers(
    talk: Conv,
    logic: LogicModel,
    id: u64,
    windows: Seq<WindowModel>,
    again: Seq<WindowModel>,
    at: int,
    layout: Seq<WorkspaceModel>,
    stage: int,
)
    requires
        talk.answers.len() >= 4,
        talk.answers[0] == ReplyModel::Windows(windows),
        talk.answers[1] == ReplyModel::Windows(again),
        talk.answers[2] == ReplyModel::Workspaces(layout),
        talk.answers[3] == ReplyModel::Done,
        is_open(windows, id),
        is_first_window(again, id, at),
        is_first_named(layout, logic.config.stage_workspace, stage),
        !logic.state.staged.contains_key(id),
        !is_held(logic, id),
    ensures
        ({
            let r = dispatch_run(talk, logic, RequestModel::Stage { window_id: id });
            let w = again[at];
            let kept = r.logic.state.staged[id];
            &&& r.talk.asked == talk.asked + seq![
                ActionModel::Windows,
                ActionModel::Windows,
                ActionModel::Workspaces,
                ActionModel::MoveWindow { window_id: id, workspace_id: layout[stage].id },
            ]
            &&& r.logic.state.staged.contains_key(id)
            &&& !r.logic.state.sticky.contains_key(id)
            &&& kept.was_sticky == logic.state.sticky.contains_key(id)
            &&& logic.state.sticky.contains_key(id) ==> kept.pin == logic.state.sticky[id]
            &&& !logic.state.sticky.contains_key(id) ==> kept.pin.len() == 0
            &&& w.floating ==> kept.size == w.size && kept.position == w.position
            &&& !w.floating ==> kept.size is None && kept.position is None
            &&& others_stay(logic.state, r.logic.state, id)
            &&& is_success(r.out, "Staged window"@)
        }),
{
    reveal(dispatch_run);
    reveal(stage_run);
    let one = talk.ask(ActionModel::Windows);
    let two = one.ask(ActionModel::Windows);
    let three = two.ask(ActionModel::Workspaces);
    assert(one.answers[0] == talk.answers[1]);
    assert(two.answers[0] == talk.answers[2]);
    assert(three.answers[0] == talk.answers[3]);
    unknown_windows_are_refused(talk, id, windows);
    assert(check_window(talk, id).talk == one);
    the_geometry_of_floating_windows_is_remembered(one, id, again, at);
    assert(ask_geometry(one, id).talk == two);
    a_parking_area_is_used_again(two, logic.config.stage_workspace, id, layout, stage);
    assert(ask_parking(two, logic.config.stage_workspace, id).talk == three);
    let w = again[at];
    if w.floating {
        the_stage_remembers(logic.state, id, w.size, w.position);
    } else {
        the_stage_remembers(logic.state, id, None, None);
    }
    let moving = ActionModel::MoveWindow { window_id: id, workspace_id: layout[stage].id };
    assert(three.ask(moving).asked =~= talk.asked + seq![
        ActionModel::Windows,
        ActionModel::Windows,
        ActionModel::Workspaces,
        moving,
    ]);
}

/// Staging a window that is staged already changes nothing and is no error; a
/// parked window and one that is not open are refused.
pub proof fn staging_what_cannot_be_staged_changes_nothing(
    talk: Conv,
    logic: LogicModel,
    id: u64,
    windows: Seq<WindowModel>,
)
    requires
        talk.answers.len() >= 2,
        talk.answers[0] == ReplyModel::Windows(windows),
        !is_open(windows, id) || logic.state.staged.contains_key(id) || is_held(logic, id),
    ensures
        ({
            let r = dispatch_run(talk, logic, RequestModel::Stage { window_id: id });
            &&& r.logic == logic
            &&& !is_open(windows, id) ==> is_refusal(r.out, "Window not found in Niri"@)
            &&& is_open(windows, id) && logic.state.staged.contains_key(id) ==> is_success(
                r.out,
                "Staged window"@,
            )
            &&& is_open(windows, id) && !logic.state.staged.contains_key(id) ==> is_refusal(
                r.out,
                "Window is parked by a scratchpad, cannot stage"@,
            )
            &&& forall|i: int|
                talk.asked.len() <= i < r.talk.asked.len() ==> #[trigger] r.talk.asked[i]
                    == ActionModel::Windows
        }),
{
    reveal(dispatch_run);
    reveal(stage_run);
    unknown_windows_are_refused(talk, id, windows);
    one_message_is_said_as_it_is("Window not found in Niri"@);
    one_message_is_said_as_it_is("Window is parked by a scratchpad, cannot stage"@);
}

/// Bringing back a staged window moves it to the focused workspace and tracks
/// it as before it was staged: sticky with its pin, or not at all. A window
/// that is not staged or not open is refused, and nothing is moved.
pub proof fn unstaging_brings_back(
    talk: Conv,
    logic: LogicModel,
    id: u64,
    workspace_id: u64,
    windows: Seq<WindowModel>,
)
    requires
        talk.answers.len() >= 5,
        talk.answers[0] == ReplyModel::Id(workspace_id),
        talk.answers[1] == ReplyModel::Windows(windows),
        talk.answers[2] == ReplyModel::Done,
    ensures
        ({
            let r = dispatch_run(talk, logic, RequestModel::Unstage { window_id: id });
            let n = talk.asked.len() as int;
            let looked = talk.asked + seq![ActionModel::ActiveWorkspace, ActionModel::Windows];
            &&& !is_open(windows, id) ==> r.logic == logic && r.talk.asked == looked && is_refusal(
                r.out,
                "Window not found in Niri"@,
            )
            &&& is_open(windows, id) && !logic.state.staged.contains_key(id) ==> r.logic == logic
                && r.talk.asked == looked && is_refusal(r.out, "Window is not in staged list"@)
            &&& is_open(windows, id) && logic.state.staged.contains_key(id) ==> {
                &&& r.talk.asked.len() >= n + 3
                &&& r.talk.asked[n] == ActionModel::ActiveWorkspace
                &&& r.talk.asked[n + 1] == ActionModel::Windows
                &&& r.talk.asked[n + 2] == (ActionModel::MoveWindow { window_id: id, workspace_id })
                &&& !r.logic.state.staged.contains_key(id)
                &&& logic.state.staged[id].was_sticky ==> r.logic.state.sticky.contains_key(id)
                    && r.logic.state.sticky[id] == logic.state.staged[id].pin
                &&& !logic.state.staged[id].was_sticky ==> r.logic.state.sticky
                    == logic.state.sticky
                &&& others_stay(logic.state, r.logic.state, id)
                &&& is_success(r.out, "Unstaged window"@)
            }
        }),
{
    reveal(dispatch_run);
    reveal(crate::business::requests::workspace_run);
    reveal(unstage_run);
    let one = talk.ask(ActionModel::ActiveWorkspace);
    let two = one.ask(ActionModel::Windows);
    let three = two.ask(ActionModel::MoveWindow { window_id: id, workspace_id });
    assert(one.answers[0] == talk.answers[1]);
    assert(two.answers[0] == talk.answers[2]);
    assert(three.answers[0] == talk.answers[3]);
    unknown_windows_are_refused(one, id, windows);
    assert(check_window(one, id).talk == two);
    assert(two.asked =~= talk.asked + seq![ActionModel::ActiveWorkspace, ActionModel::Windows]);
    one_message_is_said_as_it_is("Window not found in Niri"@);
    one_message_is_said_as_it_is("Window is not in staged list"@);
    if logic.state.staged.contains_key(id) {
        the_stage_gives_back(logic.state, id);
        let back = logic.with(logic.state.unstage(id));
        releasing_keeps_what_was_asked(three, back, logic.config.stage_workspace);
        let n = talk.asked.len() as int;
        assert(three.asked[n] == ActionModel::ActiveWorkspace);
        assert(three.asked[n + 1] == ActionModel::Windows);
    }
}

/// Listing the staged windows gives every staged id, smallest first, and asks
/// nothing.
pub proof fn staged_windows_are_listed(talk: Conv, logic: LogicModel)
    ensures
        ({
            let r = dispatch_run(talk, logic, RequestModel::StageList);
            let ids = crate::tables::sorted_ids(logic.state.staged.dom());
            &&& r.talk == talk
            &&& r.logic == logic
            &&& r.out == Some(
                AnswerModel::Response(
                    ResponseModel::Data { data: crate::business::requests::ids_json(ids) },
                ),
            )
            &&& forall|i: int, j: int| 0 <= i < j < ids.len() ==> ids[i] < ids[j]
            &&& forall|id: u64| ids.contains(id) <==> logic.state.staged.contains_key(id)
        }),
{
    reveal(dispatch_run);
    let ids = crate::tables::sorted_ids(logic.state.staged.dom());
    crate::tables::sorted_ids_are_sorted(logic.state.staged.dom());
    assert forall|id: u64| ids.contains(id) <==> logic.state.staged.contains_key(id) by {
        assert(ids.to_set().contains(id) <==> logic.state.staged.dom().contains(id));
    }
}

/// Listing the sticky windows gives those that are open, smallest id first.
pub proof fn sticky_windows_are_listed(talk: Conv, logic: LogicModel, windows: Seq<WindowModel>)
    requires
        talk.answers.len() > 0,
        talk.answers[0] == ReplyModel::Windows(windows),
    ensures
        ({
            let r = dispatch_run(talk, logic, RequestModel::List);
            exists|ids: Seq<u64>|
                {
                    &&& r.out == Some(
                        AnswerModel::Response(
                            ResponseModel::Data {
                                data: #[trigger] crate::business::requests::ids_json(ids),
                            },
                        ),
                    )
                    &&& forall|i: int, j: int| 0 <= i < j < ids.len() ==> ids[i] < ids[j]
                    &&& forall|id: u64|
                        ids.contains(id) <==> logic.state.sticky.contains_key(id) && is_open(
                            windows,
                            id,
                        )
                }
        }),
        dispatch_run(talk, logic, RequestModel::List).logic == logic,
        dispatch_run(talk, logic, RequestModel::List).talk.asked == talk.asked.push(
            ActionModel::Windows,
        ),
{
    reveal(dispatch_run);
    reveal(crate::business::sticky::list_run);
    let all = crate::tables::sorted_ids(logic.state.sticky.dom());
    crate::tables::sorted_ids_are_sorted(logic.state.sticky.dom());
    let ids = all.filter_map(crate::business::existing(windows));
    super::windows::tracked_windows_are_listed_while_open(windows, all);
    let p = |id: u64| is_open(windows, id);
    let taken = |id: u64| id;
    let at = choose|at: Seq<int>| #[trigger]
        lists::places_of(all, p, at) && ids.len() == at.len() && (forall|k: int|
            0 <= k < ids.len() ==> #[trigger] ids[k] == taken(all[at[k]]));
    assert forall|i: int, j: int| 0 <= i < j < ids.len() implies ids[i] < ids[j] by {
        assert(at[i] < at[j]);
        assert(ids[i] == all[at[i]] && ids[j] == all[at[j]]);
    }
    assert forall|id: u64|
        ids.contains(id) <==> logic.state.sticky.contains_key(id) && is_open(windows, id) by {
        assert(all.to_set().contains(id) <==> logic.state.sticky.dom().contains(id));
        if ids.contains(id) {
            let k = choose|k: int| 0 <= k < ids.len() && ids[k] == id;
            assert(ids[k] == all[at[k]]);
            assert(p(all[at[k]]));
        }
        if all.contains(id) && is_open(windows, id) {
            let i = choose|i: int| 0 <= i < all.len() && all[i] == id;
            assert(p(all[i]));
            let k = choose|k: int| 0 <= k < at.len() && at[k] == i;
            assert(ids[k] == id);
        }
    }
    assert(dispatch_run(talk, logic, RequestModel::List).out == Some(
        AnswerModel::Response(
            ResponseModel::Data { data: crate::business::requests::ids_json(ids) },
        ),
    ));
}

/// A list of the open windows is answered with the windows as the compositor
/// lists them, all of them and nothing else.
pub proof fn windows_are_listed_as_they_are(talk: Conv, logic: LogicModel, windows: Seq<WindowModel>)
    requires
        talk.answers.len() > 0,
        talk.answers[0] == ReplyModel::Windows(windows),
    ensures
        dispatch_run(talk, logic, RequestModel::Windows).out == Some(AnswerModel::Windows(windows)),
        dispatch_run(talk, logic, RequestModel::Windows).logic == logic,
        dispatch_run(talk, logic, RequestModel::Windows).talk.asked == talk.asked.push(
            ActionModel::Windows,
        ),
{
    reveal(dispatch_run);
}

// Scratchpads.

/// The scratchpad at this place has the name, and none before it has.
pub open spec fn is_first_pad(pads: Seq<PadModel>, name: Seq<char>, at: int) -> bool {
    &&& 0 <= at < pads.len()
    &&& pads[at].name == name
    &&& forall|j: int| 0 <= j < at ==> (#[trigger] pads[j]).name != name
}

pub(crate) proof fn first_pad_is_found(pads: Seq<PadModel>, name: Seq<char>, at: int)
    requires
        is_first_pad(pads, name, at),
    ensures
        lists::find(pads, pad_named(name)) == Some(pads[at]),
{
    let p = pad_named(name);
    let found = lists::a_search_finds_the_first(pads, p);
    assert(p(pads[at]));
    if found < at {
        assert(pads[found].name != name);
    }
}

/// A scratchpad that is not configured is refused: nothing is asked, nothing
/// changes, and the names that are configured are given where there are any.
pub proof fn unknown_scratchpads_are_refused(talk: Conv, logic: LogicModel, name: Seq<char>)
    requires
        forall|i: int|
            0 <= i < logic.config.scratchpads.len() ==> (
            #[trigger] logic.config.scratchpads[i]).name != name,
    ensures
        ({
            let r = scratchpad_run(talk, logic, Some(name));
            let names = Seq::new(
                logic.config.scratchpads.len(),
                |i: int| logic.config.scratchpads[i].name,
            );
            &&& r.talk == talk
            &&& r.logic == logic
            &&& names.len() == 0 ==> r.out == Some(
                Err::<Seq<char>, Chain>(
                    seq!["No [scratchpad."@ + name + "] is configured"@],
                ),
            )
            &&& names.len() > 0 ==> r.out == Some(
                Err::<Seq<char>, Chain>(
                    seq![
                        "Unknown scratchpad "@ + text::quoted_text(name) + "; configured: "@
                            + text::joined(names, ", "@),
                    ],
                ),
            )
        }),
{
    reveal(scratchpad_run);
    let p = pad_named(name);
    let pads = logic.config.scratchpads;
    let at = lists::a_search_finds_the_first(pads, p);
    if lists::find(pads, p) is Some {
        assert(pads[at].name == name);
    }
    assert(pad_names(logic.config) =~= Seq::new(pads.len(), |i: int| pads[i].name));
}

/// A scratchpad whose label holds a window shows it; the answer names the label
/// and the window. Without a name, the label is `focused`.
pub proof fn a_held_window_is_shown(talk: Conv, logic: LogicModel, name: Option<Seq<char>>, at: int)
    requires
        name matches Some(name) ==> is_first_pad(logic.config.scratchpads, name, at),
    ensures
        ({
            let label = match name {
                Some(name) => name,
                None => "focused"@,
            };
            let pad = match name {
                Some(_) => Some(logic.config.scratchpads[at]),
                None => None,
            };
            let r = scratchpad_run(talk, logic, name);
            let shown = show_run(talk, logic, pad, label);
            logic.state.pads.contains_key(label) ==> {
                &&& r.talk == shown.talk
                &&& r.logic == shown.logic
                &&& shown.out == Some(Ok::<(), Chain>(())) ==> r.out == Some(
                    Ok::<Seq<char>, Chain>(
                        "Shown "@ + label + " ("@ + text::decimal(
                            logic.state.pads[label].id as nat,
                        ) + ")"@,
                    ),
                )
                &&& forall|e: Chain| shown.out == Some(Err::<(), _>(e)) ==> r.out == Some(
                    Err::<Seq<char>, _>(e),
                )
            }
        }),
{
    reveal(scratchpad_run);
    if let Some(name) = name {
        first_pad_is_found(logic.config.scratchpads, name, at);
    }
}

/// A scratchpad that says which window is its own, and holds none, parks the
/// first window listed that matches it, under its name.
pub proof fn a_matching_window_is_parked(
    talk: Conv,
    logic: LogicModel,
    name: Seq<char>,
    at: int,
    windows: Seq<WindowModel>,
    first: int,
)
    requires
        is_first_pad(logic.config.scratchpads, name, at),
        logic.config.scratchpads[at].matcher is Some,
        !logic.state.pads.contains_key(name),
        talk.answers.len() > 0,
        talk.answers[0] == ReplyModel::Windows(windows),
        0 <= first < windows.len(),
        pad_matches(logic.config.scratchpads[at], facts_of(windows[first])),
        forall|j: int|
            0 <= j < first ==> !pad_matches(
                logic.config.scratchpads[at],
                facts_of(#[trigger] windows[j]),
            ),
    ensures
        ({
            let r = scratchpad_run(talk, logic, Some(name));
            let id = windows[first].id;
            let parked = park_run(talk.ask(ActionModel::Windows), logic, name, id);
            &&& r.talk == parked.talk
            &&& r.logic == parked.logic
            &&& parked.out == Some(Ok::<(), Chain>(())) ==> r.out == Some(
                Ok::<Seq<char>, Chain>(
                    "Hidden "@ + name + " ("@ + text::decimal(id as nat) + ")"@,
                ),
            )
            &&& forall|e: Chain| parked.out == Some(Err::<(), _>(e)) ==> r.out == Some(
                Err::<Seq<char>, _>(e),
            )
        }),
{
    reveal(scratchpad_run);
    first_pad_is_found(logic.config.scratchpads, name, at);
    let p = pad_target(logic.config.scratchpads[at]);
    let found = lists::a_search_finds_the_first(windows, p);
    assert(p(windows[first]));
    if found < first {
        assert(p(windows[found]));
    }
}

/// Where no window matches, the command of the scratchpad is started, as it is
/// configured and once; without a command, it is said that there is none. No
/// window is touched.
pub proof fn without_a_window_the_command_is_started(
    talk: Conv,
    logic: LogicModel,
    name: Seq<char>,
    at: int,
    windows: Seq<WindowModel>,
)
    requires
        is_first_pad(logic.config.scratchpads, name, at),
        logic.config.scratchpads[at].matcher is Some,
        !logic.state.pads.contains_key(name),
        talk.answers.len() > 1,
        talk.answers[0] == ReplyModel::Windows(windows),
        forall|j: int|
            0 <= j < windows.len() ==> !pad_matches(
                logic.config.scratchpads[at],
                facts_of(#[trigger] windows[j]),
            ),
    ensures
        ({
            let r = scratchpad_run(talk, logic, Some(name));
            &&& r.logic == logic
            &&& logic.config.scratchpads[at].spawn matches Some(command) ==> {
                &&& r.talk.asked == talk.asked + seq![
                    ActionModel::Windows,
                    ActionModel::Spawn { command },
                ]
                &&& talk.answers[1] == ReplyModel::Done ==> r.out == Some(
                    Ok::<Seq<char>, Chain>(
                        "Starting "@ + name + " ("@ + text::joined(command, " "@) + ")"@,
                    ),
                )
                &&& forall|e: Chain| talk.answers[1] == ReplyModel::Failed(e) ==> r.out == Some(
                    Err::<Seq<char>, _>(e),
                )
            }
            &&& logic.config.scratchpads[at].spawn is None ==> {
                &&& r.talk.asked == talk.asked.push(ActionModel::Windows)
                &&& r.out == Some(
                    Err::<Seq<char>, Chain>(
                        seq![
                            "Nothing matches scratchpad "@ + text::quoted_text(name)
                                + " and it has no `spawn` command configured"@,
                        ],
                    ),
                )
            }
        }),
{
    reveal(scratchpad_run);
    first_pad_is_found(logic.config.scratchpads, name, at);
    let p = pad_target(logic.config.scratchpads[at]);
    let found = lists::a_search_finds_the_first(windows, p);
    if lists::find(windows, p) is Some {
        assert(p(windows[found]));
    }
    let one = talk.ask(ActionModel::Windows);
    assert(one.answers[0] == talk.answers[1]);
    if let Some(command) = logic.config.scratchpads[at].spawn {
        assert(one.ask(ActionModel::Spawn { command }).asked =~= talk.asked + seq![
            ActionModel::Windows,
            ActionModel::Spawn { command },
        ]);
    }
}

/// A scratchpad that does not say which window is its own, and one without a
/// name, parks the window that has the focus.
pub proof fn the_focused_window_is_parked(
    talk: Conv,
    logic: LogicModel,
    name: Option<Seq<char>>,
    at: int,
    id: u64,
)
    requires
        name matches Some(name) ==> is_first_pad(logic.config.scratchpads, name, at)
            && logic.config.scratchpads[at].matcher is None,
        talk.answers.len() > 0,
        talk.answers[0] == ReplyModel::Id(id),
    ensures
        ({
            let label = match name {
                Some(name) => name,
                None => "focused"@,
            };
            let r = scratchpad_run(talk, logic, name);
            let parked = park_run(talk.ask(ActionModel::ActiveWindow), logic, label, id);
            !logic.state.pads.contains_key(label) ==> {
                &&& r.talk == parked.talk
                &&& r.logic == parked.logic
                &&& parked.out == Some(Ok::<(), Chain>(())) ==> r.out == Some(
                    Ok::<Seq<char>, Chain>(
                        "Hidden "@ + label + " ("@ + text::decimal(id as nat) + ")"@,
                    ),
                )
                &&& forall|e: Chain| parked.out == Some(Err::<(), _>(e)) ==> r.out == Some(
                    Err::<Seq<char>, _>(e),
                )
            }
        }),
{
    reveal(scratchpad_run);
    if let Some(name) = name {
        first_pad_is_found(logic.config.scratchpads, name, at);
    }
}

/// Parking a window that is open moves it to the scratchpad workspace and
/// remembers under the label whether it was sticky, its pin and its geometry.
/// It is neither sticky nor staged while it is parked.
pub proof fn parking_moves_and_remembers(
    talk: Conv,
    logic: LogicModel,
    label: Seq<char>,
    id: u64,
    windows: Seq<WindowModel>,
    again: Seq<WindowModel>,
    at: int,
    layout: Seq<WorkspaceModel>,
    area: int,
)
    requires
        talk.answers.len() >= 7,
        talk.answers[0] == ReplyModel::Windows(windows),
        talk.answers[1] == ReplyModel::Windows(again),
        talk.answers[2] == ReplyModel::Workspaces(layout),
        talk.answers[3] == ReplyModel::Done,
        is_open(windows, id),
        is_first_window(again, id, at),
        is_first_named(layout, logic.config.scratchpad_workspace, area),
    ensures
        ({
            let r = park_run(talk, logic, label, id);
            let n = talk.asked.len() as int;
            let w = again[at];
            let record = r.logic.state.pads[label];
            let staged = logic.state.staged.contains_key(id);
            let sticky = logic.state.sticky.contains_key(id);
            &&& r.out == Some(Ok::<(), Chain>(()))
            &&& r.talk.asked.len() >= n + 4
            &&& r.talk.asked[n] == ActionModel::Windows
            &&& r.talk.asked[n + 1] == ActionModel::Windows
            &&& r.talk.asked[n + 2] == ActionModel::Workspaces
            &&& r.talk.asked[n + 3] == (ActionModel::MoveWindow {
                window_id: id,
                workspace_id: layout[area].id,
            })
            &&& r.logic.state.pads.contains_key(label)
            &&& record.id == id
            &&& !r.logic.state.sticky.contains_key(id)
            &&& !r.logic.state.staged.contains_key(id)
            &&& !staged ==> record.was_sticky == sticky
            &&& !staged && sticky ==> record.outputs == logic.state.sticky[id]
            &&& !staged && !sticky ==> record.outputs.len() == 0
            &&& staged ==> record.was_sticky == logic.state.staged[id].was_sticky && record.outputs
                == logic.state.staged[id].pin
            &&& !staged && w.floating ==> record.size == w.size && record.position == w.position
            &&& !staged && !w.floating ==> record.size is None && record.position is None
        }),
{
    reveal(park_run);
    let one = talk.ask(ActionModel::Windows);
    let two = one.ask(ActionModel::Windows);
    let three = two.ask(ActionModel::Workspaces);
    let moving = ActionModel::MoveWindow { window_id: id, workspace_id: layout[area].id };
    let four = three.ask(moving);
    assert(one.answers[0] == talk.answers[1]);
    assert(two.answers[0] == talk.answers[2]);
    assert(three.answers[0] == talk.answers[3]);
    assert(four.answers[0] == talk.answers[4]);
    unknown_windows_are_refused(talk, id, windows);
    assert(check_window(talk, id).talk == one);
    the_geometry_of_floating_windows_is_remembered(one, id, again, at);
    assert(ask_geometry(one, id).talk == two);
    a_parking_area_is_used_again(two, logic.config.scratchpad_workspace, id, layout, area);
    assert(ask_parking(two, logic.config.scratchpad_workspace, id).talk == three);
    let w = again[at];
    let shape = ask_geometry(one, id).out->0;
    a_scratchpad_remembers(logic.state, label, id, shape.0, shape.1);
    let parked = logic.with(logic.state.park(label, id, shape.0, shape.1));
    releasing_keeps_what_was_asked(four, parked, parked.config.stage_workspace);
    let release = ask_release(
        four,
        parked.config,
        parked.state,
        parked.config.stage_workspace,
    );
    ask_persist_is_tidy(release.talk, parked);
    let r = park_run(talk, logic, label, id);
    let n = talk.asked.len() as int;
    assert(four.asked[n] == ActionModel::Windows);
    assert(four.asked[n + 1] == ActionModel::Windows);
    assert(four.asked[n + 2] == ActionModel::Workspaces);
    assert(four.asked[n + 3] == moving);
    assert(release.talk.answers.len() >= 1);
    assert forall|i: int| 0 <= i < four.asked.len() implies #[trigger] r.talk.asked[i]
        == four.asked[i] by {
        assert(release.talk.asked[i] == four.asked[i]);
    }
}

} // verus!
