//! Where windows are parked: the workspace that is found or named for it, the
//! name that is given back, and the state that is saved.
use vstd::prelude::*;
use super::pins::{is_first_with_id, may_be_taken, the_lowest_workspace_is_taken};
use super::windows::{
    first_window_is_found, is_first_window, is_open, windows_are_where_their_workspace_is,
    windows_exist_while_they_are_listed, workspaces_with_windows_are_in_use,
};
use crate::action::{ActionModel, Conv, ReplyModel};
use crate::business::{occupied_by, window_output, LogicModel};
use crate::business::parking::{
    ask_geometry, ask_parking, ask_persist, ask_release, check_window, is_releasable,
    parking_output,
};
use crate::config::ConfigModel;
use crate::error::Chain;
use crate::lists;
use crate::niri::{Position, WindowModel, WorkspaceModel};
use crate::pinning::{active_pair, bottom_free, named};
use crate::state::{RecordMap, StagedModel, StateModel};

verus! {

/// The workspace at this place has the name, and none listed before it has.
pub open spec fn is_first_named(layout: Seq<WorkspaceModel>, name: Seq<char>, at: int) -> bool {
    &&& 0 <= at < layout.len()
    &&& layout[at].name == Some(name)
    &&& forall|j: int| 0 <= j < at ==> (#[trigger] layout[j]).name != Some(name)
}

/// No workspace has the name.
pub open spec fn is_unused(layout: Seq<WorkspaceModel>, name: Seq<char>) -> bool {
    forall|i: int| 0 <= i < layout.len() ==> (#[trigger] layout[i]).name != Some(name)
}

/// Some window is on the workspace.
pub open spec fn has_windows(windows: Seq<WindowModel>, workspace_id: u64) -> bool {
    exists|i: int|
        0 <= i < windows.len() && (#[trigger] windows[i]).workspace_id == Some(workspace_id)
}

pub(crate) proof fn named_workspaces_are_found(layout: Seq<WorkspaceModel>, name: Seq<char>)
    ensures
        forall|i: int| #[trigger]
            is_first_named(layout, name, i) ==> lists::find(layout, named(name)) == Some(
                layout[i],
            ),
        is_unused(layout, name) <==> lists::find(layout, named(name)) is None,
{
    let p = named(name);
    let at = lists::a_search_finds_the_first(layout, p);
    assert forall|i: int| #[trigger] is_first_named(layout, name, i) implies lists::find(layout, p)
        == Some(layout[i]) by {
        assert(p(layout[i]));
        if at < i {
            assert(layout[at].name != Some(name));
        }
    }
    if lists::find(layout, p) is Some {
        assert(p(layout[at]));
    } else {
        assert forall|i: int| 0 <= i < layout.len() implies (#[trigger] layout[i]).name != Some(
            name,
        ) by {
            assert(!p(layout[i]));
        }
    }
}

/// A request about a window that the compositor does not list is refused; one
/// about a window that it lists goes on.
pub proof fn unknown_windows_are_refused(talk: Conv, id: u64, windows: Seq<WindowModel>)
    requires
        talk.answers.len() > 0,
        talk.answers[0] == ReplyModel::Windows(windows),
    ensures
        check_window(talk, id).talk.asked == talk.asked.push(ActionModel::Windows),
        check_window(talk, id).talk.answers == talk.answers.drop_first(),
        is_open(windows, id) ==> check_window(talk, id).out == Some(Ok::<(), Chain>(())),
        !is_open(windows, id) ==> check_window(talk, id).out == Some(
            Err::<(), Chain>(seq!["Window not found in Niri"@]),
        ),
{
    windows_exist_while_they_are_listed(windows, id);
}

/// The size and the position of a floating window are remembered as the
/// compositor reports them; of a tiled one, neither is.
pub proof fn the_geometry_of_floating_windows_is_remembered(
    talk: Conv,
    id: u64,
    windows: Seq<WindowModel>,
    at: int,
)
    requires
        talk.answers.len() > 0,
        talk.answers[0] == ReplyModel::Windows(windows),
        is_first_window(windows, id, at),
    ensures
        ask_geometry(talk, id).talk.asked == talk.asked.push(ActionModel::Windows),
        ask_geometry(talk, id).talk.answers == talk.answers.drop_first(),
        windows[at].floating ==> ask_geometry(talk, id).out == Some(
            (windows[at].size, windows[at].position),
        ),
        !windows[at].floating ==> ask_geometry(talk, id).out == Some(
            (None::<(i32, i32)>, None::<Position>),
        ),
{
    first_window_is_found(windows, id, at);
}

/// A parking area that has its name already is used as it is: nothing is asked
/// but which workspaces there are.
pub proof fn a_parking_area_is_used_again(
    talk: Conv,
    name: Seq<char>,
    id: u64,
    layout: Seq<WorkspaceModel>,
    at: int,
)
    requires
        talk.answers.len() > 0,
        talk.answers[0] == ReplyModel::Workspaces(layout),
        is_first_named(layout, name, at),
    ensures
        ask_parking(talk, name, id).talk.asked == talk.asked.push(ActionModel::Workspaces),
        ask_parking(talk, name, id).talk.answers == talk.answers.drop_first(),
        ask_parking(talk, name, id).out == Some(Ok::<u64, Chain>(layout[at].id)),
{
    named_workspaces_are_found(layout, name);
}

/// Where no workspace has the name yet, one is given it: on the output of the
/// window, unnamed, not shown, without windows, and the lowest of those. Where
/// there is none, nothing is named and nothing is parked.
pub proof fn a_parking_area_is_made_of_an_empty_workspace(
    talk: Conv,
    name: Seq<char>,
    id: u64,
    layout: Seq<WorkspaceModel>,
    windows: Seq<WindowModel>,
    at: int,
    workspace: int,
)
    requires
        talk.answers.len() > 2,
        talk.answers[0] == ReplyModel::Workspaces(layout),
        talk.answers[1] == ReplyModel::Windows(windows),
        is_unused(layout, name),
        is_first_window(windows, id, at),
        windows[at].workspace_id is Some,
        is_first_with_id(layout, windows[at].workspace_id->0, workspace),
        layout[workspace].output is Some,
    ensures
        ({
            let r = ask_parking(talk, name, id);
            let output = layout[workspace].output->0;
            let looked = talk.asked + seq![ActionModel::Workspaces, ActionModel::Windows];
            let free = |w: WorkspaceModel|
                w.output == Some(output) && w.name is None && !w.is_active && !has_windows(
                    windows,
                    w.id,
                );
            if exists|i: int| 0 <= i < layout.len() && free(#[trigger] layout[i]) {
                &&& exists|i: int|
                    0 <= i < layout.len() && free(#[trigger] layout[i]) && (forall|j: int|
                        0 <= j < layout.len() && free(#[trigger] layout[j]) ==> layout[j].idx
                            <= layout[i].idx) && r.talk.asked == looked.push(
                        ActionModel::NameWorkspace { name, workspace_id: layout[i].id },
                    ) && (talk.answers[2] == ReplyModel::Done ==> r.out == Some(
                        Ok::<u64, Chain>(layout[i].id),
                    ))
                &&& talk.answers[2] is Failed ==> r.out is Some && r.out->0 is Err
            } else {
                r.talk.asked == looked && r.out is Some && r.out->0 is Err
            }
        }),
{
    named_workspaces_are_found(layout, name);
    windows_are_where_their_workspace_is(windows, layout, id, at);
    let output = layout[workspace].output->0;
    assert(window_output(windows, layout, id) == Some(output));
    let busy = occupied_by(windows);
    the_lowest_workspace_is_taken(layout, output, busy);
    let free = |w: WorkspaceModel|
        w.output == Some(output) && w.name is None && !w.is_active && !has_windows(windows, w.id);
    assert forall|w: WorkspaceModel| #[trigger] may_be_taken(w, output, busy) == free(w) by {
        workspaces_with_windows_are_in_use(windows, w.id);
    }
    let one = talk.ask(ActionModel::Workspaces);
    let two = one.ask(ActionModel::Windows);
    assert(one.answers[0] == talk.answers[1]);
    assert(two.answers[0] == talk.answers[2]);
    assert(two.asked =~= talk.asked + seq![ActionModel::Workspaces, ActionModel::Windows]);
    let r = ask_parking(talk, name, id);
    match bottom_free(layout, output, busy) {
        Some(w) => {
            let i = choose|i: int| 0 <= i < layout.len() && layout[i] == w;
            assert(may_be_taken(layout[i], output, busy));
            assert(free(layout[i]));
            assert forall|j: int| 0 <= j < layout.len() && free(#[trigger] layout[j]) implies layout[j].idx
                <= layout[i].idx by {
                assert(may_be_taken(layout[j], output, busy));
            }
        },
        None => {
            assert forall|i: int| 0 <= i < layout.len() implies !free(#[trigger] layout[i]) by {
                assert(!may_be_taken(layout[i], output, busy));
            }
        },
    }
}

/// A window that is on no output is parked on that of the first active
/// workspace that is listed.
pub proof fn windows_without_an_output_are_parked_on_the_first_active_one(
    windows: Seq<WindowModel>,
    layout: Seq<WorkspaceModel>,
    id: u64,
)
    requires
        window_output(windows, layout, id) is None,
    ensures
        forall|i: int|
            0 <= i < layout.len() && (#[trigger] layout[i]).is_active && layout[i].output is Some
                && (forall|j: int|
                0 <= j < i ==> !((#[trigger] layout[j]).is_active && layout[j].output is Some))
                ==> parking_output(windows, layout, id) == layout[i].output,
        (forall|i: int|
            0 <= i < layout.len() ==> !((#[trigger] layout[i]).is_active && layout[i].output
                is Some)) ==> parking_output(windows, layout, id) is None,
{
    super::pins::every_active_workspace_is_listed(layout);
    let p = |w: WorkspaceModel| w.is_active && w.output is Some;
    let taken = |w: WorkspaceModel| (w.output->0, w.id);
    let r = layout.filter_map(active_pair());
    assert(lists::selects(layout, p, taken, r));
    let at = choose|at: Seq<int>| #[trigger]
        lists::places_of(layout, p, at) && r.len() == at.len() && (forall|k: int|
            0 <= k < r.len() ==> #[trigger] r[k] == taken(layout[at[k]]));
    assert forall|i: int|
        0 <= i < layout.len() && (#[trigger] layout[i]).is_active && layout[i].output is Some && (
        forall|j: int|
            0 <= j < i ==> !((#[trigger] layout[j]).is_active && layout[j].output is Some)) implies parking_output(
        windows,
        layout,
        id,
    ) == layout[i].output by {
        assert(p(layout[i]));
        let k = choose|k: int| 0 <= k < at.len() && at[k] == i;
        assert(r[0] == taken(layout[at[0]]));
        assert(p(layout[at[0]]));
        if k > 0 {
            assert(at[0] < at[k]);
            assert(layout[at[0]].is_active);
        }
    }
    if r.len() > 0 {
        assert(p(layout[at[0]]));
        assert(layout[at[0]].is_active);
    }
}

/// The name of a parking area is given back once nothing is parked there: the
/// stage when no window is staged and its workspace is not to be kept, the
/// scratchpad area when no scratchpad holds a window. In use, or kept, nothing
/// is even asked.
pub proof fn an_unused_parking_area_loses_its_name(
    talk: Conv,
    config: ConfigModel,
    state: StateModel,
    name: Seq<char>,
    layout: Seq<WorkspaceModel>,
)
    requires
        talk.answers.len() > 1,
        talk.answers[0] == ReplyModel::Workspaces(layout),
    ensures
        ({
            let r = ask_release(talk, config, state, name);
            let unused = if name == config.stage_workspace {
                !config.stage_keep_workspace && (forall|id: u64|
                    !#[trigger] state.staged.contains_key(id))
            } else {
                forall|label: Seq<char>| !#[trigger] state.pads.contains_key(label)
            };
            &&& r.out is Some
            &&& !unused ==> r.talk == talk
            &&& unused && is_unused(layout, name) ==> r.talk.asked == talk.asked.push(
                ActionModel::Workspaces,
            )
            &&& forall|i: int|
                unused && #[trigger] is_first_named(layout, name, i) ==> r.talk.asked == talk.asked
                    + seq![
                    ActionModel::Workspaces,
                    ActionModel::UnnameWorkspace { workspace_id: layout[i].id },
                ]
        }),
{
    named_workspaces_are_found(layout, name);
    let r = ask_release(talk, config, state, name);
    let one = talk.ask(ActionModel::Workspaces);
    assert(one.answers.len() > 0);
    if forall|id: u64| !#[trigger] state.staged.contains_key(id) {
        assert(state.staged =~= Map::<u64, StagedModel>::empty());
    }
    if state.staged == Map::<u64, StagedModel>::empty() {
        assert(forall|id: u64| !#[trigger] state.staged.contains_key(id));
    }
    if forall|label: Seq<char>| !#[trigger] state.pads.contains_key(label) {
        assert(state.pads =~= RecordMap::empty());
    }
    if state.pads == RecordMap::empty() {
        assert(forall|label: Seq<char>| !#[trigger] state.pads.contains_key(label));
    }
    assert forall|i: int|
        is_releasable(config, state, name) && #[trigger] is_first_named(layout, name, i) implies r.talk.asked
        == talk.asked + seq![
        ActionModel::Workspaces,
        ActionModel::UnnameWorkspace { workspace_id: layout[i].id },
    ] by {
        assert(one.ask(ActionModel::UnnameWorkspace { workspace_id: layout[i].id }).asked
            =~= talk.asked + seq![
            ActionModel::Workspaces,
            ActionModel::UnnameWorkspace { workspace_id: layout[i].id },
        ]);
    }
}

/// A state that was never saved, or whose saving failed, is written as it is,
/// and known to be saved only where it was.
pub proof fn an_unsaved_state_is_written(talk: Conv, logic: LogicModel)
    requires
        talk.answers.len() > 0,
        logic.persisted is None,
    ensures
        ({
            let r = ask_persist(talk, logic);
            &&& r.talk.asked == talk.asked.push(
                ActionModel::SaveState { state: logic.state.snapshot() },
            )
            &&& r.out is Some
            &&& r.logic.state == logic.state
            &&& talk.answers[0] == ReplyModel::Done ==> r.logic.persisted == Some(
                logic.state.snapshot(),
            )
            &&& talk.answers[0] is Failed ==> r.logic.persisted is None
        }),
{
}

} // verus!
