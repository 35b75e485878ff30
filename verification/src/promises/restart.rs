//! What is kept over a restart, and over a change of the configuration.
use vstd::prelude::*;
use super::parking::{is_first_named, is_unused, named_workspaces_are_found};
use super::windows::{
    first_window_is_found, is_first_window, is_open, windows_exist_while_they_are_listed,
};
use crate::action::{text_in, ActionModel, Conv, ReplyModel};
use crate::business::{default_pin, facts_of, has_window, window_with, LogicModel};
use crate::business::reconcile::{
    changed_ids, live_pads, live_pins, moved_pin, on_stage, placed, reconcile_run, reconciled,
    reload_run, repinned, window_on,
};
use crate::config::{loaded, match_of, ConfigModel};
use crate::error::Chain;
use crate::lists;
use crate::niri::{WindowModel, WorkspaceModel};
use crate::state::{is_parked, stored_pads, stored_pins, Pin};
use crate::state_store::{StoredModel, StoredStickyModel};
use crate::tables::{sorted_ids, sorted_ids_are_sorted};
use crate::text;

verus! {

/// The window is listed on the workspace.
pub open spec fn is_listed_on(windows: Seq<WindowModel>, id: u64, workspace_id: u64) -> bool {
    exists|i: int|
        0 <= i < windows.len() && (#[trigger] windows[i]).id == id && windows[i].workspace_id
            == Some(workspace_id)
}

/// Some window says which workspace it is on.
pub open spec fn places_are_known(windows: Seq<WindowModel>) -> bool {
    exists|i: int| 0 <= i < windows.len() && (#[trigger] windows[i]).workspace_id is Some
}

/// A label that is stored holds the window, which is open.
pub open spec fn is_kept_parked(stored: StoredModel, windows: Seq<WindowModel>, id: u64) -> bool {
    is_open(windows, id) && exists|label: Seq<char>| #[trigger]
        stored_pads(stored).contains_key(label) && stored_pads(stored)[label].id == id
}

pub(crate) proof fn the_stage_is_known(
    windows: Seq<WindowModel>,
    layout: Seq<WorkspaceModel>,
    name: Seq<char>,
)
    ensures
        forall|at: int| #[trigger]
            is_first_named(layout, name, at) && places_are_known(windows) ==> {
                &&& on_stage(windows, layout, name) is Some
                &&& forall|id: u64| #[trigger]
                    on_stage(windows, layout, name)->0.contains(id) <==> is_listed_on(
                        windows,
                        id,
                        layout[at].id,
                    )
            },
        is_unused(layout, name) || !places_are_known(windows) ==> on_stage(windows, layout, name)
            is None,
{
    named_workspaces_are_found(layout, name);
    let p = placed();
    if places_are_known(windows) {
        let i = choose|i: int|
            0 <= i < windows.len() && (#[trigger] windows[i]).workspace_id is Some;
        assert(p(windows[i]));
    }
    if lists::any(windows, p) {
        let i = choose|i: int| 0 <= i < windows.len() && p(#[trigger] windows[i]);
        assert(windows[i].workspace_id is Some);
    }
    assert forall|at: int| #[trigger]
        is_first_named(layout, name, at) && places_are_known(windows) implies {
        &&& on_stage(windows, layout, name) is Some
        &&& forall|id: u64| #[trigger]
            on_stage(windows, layout, name)->0.contains(id) <==> is_listed_on(
                windows,
                id,
                layout[at].id,
            )
    } by {
        assert forall|id: u64| #[trigger]
            on_stage(windows, layout, name)->0.contains(id) <==> is_listed_on(
                windows,
                id,
                layout[at].id,
            ) by {
            let q = window_on(id, layout[at].id);
            if lists::any(windows, q) {
                let i = choose|i: int| 0 <= i < windows.len() && q(#[trigger] windows[i]);
                assert(windows[i].id == id);
            }
            if is_listed_on(windows, id, layout[at].id) {
                let i = choose|i: int|
                    0 <= i < windows.len() && (#[trigger] windows[i]).id == id
                        && windows[i].workspace_id == Some(layout[at].id);
                assert(q(windows[i]));
            }
        }
    }
}

proof fn kept_pads_are_those_of_open_windows(stored: StoredModel, windows: Seq<WindowModel>)
    ensures
        forall|label: Seq<char>| #[trigger]
            live_pads(stored, windows).contains_key(label) <==> stored_pads(stored).contains_key(
                label,
            ) && is_open(windows, stored_pads(stored)[label].id),
        forall|label: Seq<char>| #[trigger]
            live_pads(stored, windows).contains_key(label) ==> live_pads(stored, windows)[label]
                == stored_pads(stored)[label],
        forall|id: u64| #[trigger]
            is_parked(live_pads(stored, windows), id) <==> is_kept_parked(stored, windows, id),
{
    assert forall|label: Seq<char>| #[trigger]
        live_pads(stored, windows).contains_key(label) <==> stored_pads(stored).contains_key(label)
            && is_open(windows, stored_pads(stored)[label].id) by {
        windows_exist_while_they_are_listed(windows, stored_pads(stored)[label].id);
    }
    assert forall|id: u64| #[trigger]
        is_parked(live_pads(stored, windows), id) <==> is_kept_parked(stored, windows, id) by {
        let pads = live_pads(stored, windows);
        if is_parked(pads, id) {
            let label = choose|label: Seq<char>| #[trigger]
                pads.contains_key(label) && pads[label].id == id;
            assert(stored_pads(stored).contains_key(label));
        }
        if is_kept_parked(stored, windows, id) {
            let label = choose|label: Seq<char>| #[trigger]
                stored_pads(stored).contains_key(label) && stored_pads(stored)[label].id == id;
            assert(pads.contains_key(label));
        }
    }
}

proof fn reconciling_goes_on(
    talk: Conv,
    logic: LogicModel,
    stored: StoredModel,
    windows: Seq<WindowModel>,
    layout: Seq<WorkspaceModel>,
)
    requires
        talk.answers.len() >= 4,
        talk.answers[0] == ReplyModel::Stored(Some(stored)),
        talk.answers[1] == ReplyModel::Windows(windows),
        talk.answers[2] == ReplyModel::Workspaces(layout),
    ensures
        reconcile_run(talk, logic).out == Some(Ok::<(), Chain>(())),
        reconcile_run(talk, logic).logic.state == reconciled(
            logic.state,
            stored,
            windows,
            on_stage(windows, layout, logic.config.stage_workspace),
        ),
{
    reveal(reconcile_run);
    let one = talk.ask(ActionModel::LoadState);
    let two = one.ask(ActionModel::Windows);
    assert(one.answers[0] == talk.answers[1]);
    assert(two.answers[0] == talk.answers[2]);
    assert(two.ask(ActionModel::Workspaces).answers[0] == talk.answers[3]);
}

/// After a start, a stored sticky window that is open, not on the stage and not
/// parked is sticky with exactly the outputs stored for it, and no other window
/// is sticky. Whatever is on the stage workspace is staged, with everything
/// that is stored of it, and as a window that was not sticky where nothing is.
/// A stored scratchpad window that is open is parked under its label as it was.
pub proof fn windows_are_tracked_as_stored(
    talk: Conv,
    logic: LogicModel,
    stored: StoredModel,
    windows: Seq<WindowModel>,
    layout: Seq<WorkspaceModel>,
    stage: int,
)
    requires
        talk.answers.len() >= 4,
        talk.answers[0] == ReplyModel::Stored(Some(stored)),
        talk.answers[1] == ReplyModel::Windows(windows),
        talk.answers[2] == ReplyModel::Workspaces(layout),
        is_first_named(layout, logic.config.stage_workspace, stage),
        places_are_known(windows),
    ensures
        ({
            let state = reconcile_run(talk, logic).logic.state;
            let stage_id = layout[stage].id;
            let known = logic.state.restore(stored).staged;
            &&& forall|id: u64| #[trigger]
                state.sticky.contains_key(id) <==> stored_pins(stored).contains_key(id) && is_open(
                    windows,
                    id,
                ) && !is_listed_on(windows, id, stage_id) && !is_kept_parked(stored, windows, id)
            &&& forall|id: u64| #[trigger]
                state.sticky.contains_key(id) ==> state.sticky[id] == stored_pins(stored)[id]
            &&& forall|id: u64| #[trigger]
                state.staged.contains_key(id) <==> is_listed_on(windows, id, stage_id)
                    && !is_kept_parked(stored, windows, id)
            &&& forall|id: u64| #[trigger]
                state.staged.contains_key(id) && known.contains_key(id) ==> state.staged[id]
                    == known[id]
            &&& forall|id: u64| #[trigger]
                state.staged.contains_key(id) && !known.contains_key(id) ==> {
                    &&& !state.staged[id].was_sticky
                    &&& state.staged[id].pin.len() == 0
                    &&& state.staged[id].size is None
                    &&& state.staged[id].position is None
                }
            &&& forall|label: Seq<char>| #[trigger]
                state.pads.contains_key(label) <==> stored_pads(stored).contains_key(label)
                    && is_open(windows, stored_pads(stored)[label].id)
            &&& forall|label: Seq<char>| #[trigger]
                state.pads.contains_key(label) ==> state.pads[label] == stored_pads(stored)[label]
            &&& state.auto_staged == logic.state.auto_staged
        }),
{
    reconciling_goes_on(talk, logic, stored, windows, layout);
    the_stage_is_known(windows, layout, logic.config.stage_workspace);
    kept_pads_are_those_of_open_windows(stored, windows);
    let state = reconcile_run(talk, logic).logic.state;
    let stage_id = layout[stage].id;
    assert forall|id: u64| has_window(windows, id) == is_open(windows, id) by {
        windows_exist_while_they_are_listed(windows, id);
    }
    assert forall|id: u64| is_listed_on(windows, id, stage_id) implies #[trigger] is_open(
        windows,
        id,
    ) by {
        let i = choose|i: int|
            0 <= i < windows.len() && (#[trigger] windows[i]).id == id && windows[i].workspace_id
                == Some(stage_id);
        assert(windows[i].id == id);
    }
    assert forall|id: u64| #[trigger] state.sticky.contains_key(id) implies state.sticky[id]
        == stored_pins(stored)[id] by {
        assert(live_pins(stored, windows).contains_key(id));
    }
    assert forall|id: u64| #[trigger] state.staged.contains_key(id) implies is_open(
        windows,
        id,
    ) by {
        assert(is_listed_on(windows, id, stage_id));
        assert(is_open(windows, id));
    }
}

/// An entry of the sticky list that no later one replaces is what its window is
/// pinned to after a start, where the window is open and neither on the stage
/// nor parked.
pub proof fn stored_outputs_are_kept(
    talk: Conv,
    logic: LogicModel,
    stored: StoredModel,
    windows: Seq<WindowModel>,
    layout: Seq<WorkspaceModel>,
    stage: int,
    at: int,
    id: u64,
    outputs: Pin,
)
    requires
        talk.answers.len() >= 4,
        talk.answers[0] == ReplyModel::Stored(Some(stored)),
        talk.answers[1] == ReplyModel::Windows(windows),
        talk.answers[2] == ReplyModel::Workspaces(layout),
        is_first_named(layout, logic.config.stage_workspace, stage),
        places_are_known(windows),
        0 <= at < stored.sticky.len(),
        stored.sticky[at] == (StoredStickyModel::Pinned { id, outputs }),
        forall|j: int|
            at < j < stored.sticky.len() ==> !super::tracking::sticky_entry_is_for(
                #[trigger] stored.sticky[j],
                id,
            ),
        is_open(windows, id),
        !is_listed_on(windows, id, layout[stage].id),
        !is_kept_parked(stored, windows, id),
    ensures
        reconcile_run(talk, logic).logic.state.sticky.contains_key(id),
        reconcile_run(talk, logic).logic.state.sticky[id] == outputs,
{
    windows_are_tracked_as_stored(talk, logic, stored, windows, layout, stage);
    super::tracking::sticky_entries_are_read(stored, at);
}

/// Where the stage has no workspace, or no window says where it is, stored
/// staged windows that are open stay staged as they were.
pub proof fn without_a_stage_the_stored_one_counts(
    talk: Conv,
    logic: LogicModel,
    stored: StoredModel,
    windows: Seq<WindowModel>,
    layout: Seq<WorkspaceModel>,
)
    requires
        talk.answers.len() >= 4,
        talk.answers[0] == ReplyModel::Stored(Some(stored)),
        talk.answers[1] == ReplyModel::Windows(windows),
        talk.answers[2] == ReplyModel::Workspaces(layout),
        is_unused(layout, logic.config.stage_workspace) || !places_are_known(windows),
    ensures
        ({
            let state = reconcile_run(talk, logic).logic.state;
            let known = logic.state.restore(stored).staged;
            &&& forall|id: u64| #[trigger]
                state.staged.contains_key(id) <==> known.contains_key(id) && is_open(windows, id)
                    && !is_kept_parked(stored, windows, id)
            &&& forall|id: u64| #[trigger]
                state.staged.contains_key(id) ==> state.staged[id] == known[id]
            &&& forall|id: u64| #[trigger]
                state.sticky.contains_key(id) <==> stored_pins(stored).contains_key(id) && is_open(
                    windows,
                    id,
                ) && !known.contains_key(id) && !is_kept_parked(stored, windows, id)
            &&& forall|id: u64| #[trigger]
                state.sticky.contains_key(id) ==> state.sticky[id] == stored_pins(stored)[id]
            &&& forall|label: Seq<char>| #[trigger]
                state.pads.contains_key(label) <==> stored_pads(stored).contains_key(label)
                    && is_open(windows, stored_pads(stored)[label].id)
            &&& forall|label: Seq<char>| #[trigger]
                state.pads.contains_key(label) ==> state.pads[label] == stored_pads(stored)[label]
        }),
{
    reconciling_goes_on(talk, logic, stored, windows, layout);
    the_stage_is_known(windows, layout, logic.config.stage_workspace);
    kept_pads_are_those_of_open_windows(stored, windows);
    let state = reconcile_run(talk, logic).logic.state;
    assert forall|id: u64| has_window(windows, id) == is_open(windows, id) by {
        windows_exist_while_they_are_listed(windows, id);
    }
    assert forall|id: u64| #[trigger] state.sticky.contains_key(id) implies state.sticky[id]
        == stored_pins(stored)[id] by {
        assert(live_pins(stored, windows).contains_key(id));
    }
}

/// Where the compositor does not answer, the stored state is taken as it is,
/// and nothing is written.
pub proof fn without_the_compositor_the_stored_state_is_taken(
    talk: Conv,
    logic: LogicModel,
    stored: Option<StoredModel>,
    e: Chain,
)
    requires
        talk.answers.len() >= 2,
        talk.answers[0] == ReplyModel::Stored(stored),
        talk.answers[1] == ReplyModel::Failed(e),
    ensures
        reconcile_run(talk, logic).out == Some(Ok::<(), Chain>(())),
        reconcile_run(talk, logic).talk.asked == talk.asked + seq![
            ActionModel::LoadState,
            ActionModel::Windows,
        ],
        stored matches Some(stored) ==> reconcile_run(talk, logic).logic.state
            == logic.state.restore(stored),
        stored is None ==> reconcile_run(talk, logic).logic.state == logic.state,
{
    reveal(reconcile_run);
    let one = talk.ask(ActionModel::LoadState);
    assert(one.answers[0] == talk.answers[1]);
    assert(one.ask(ActionModel::Windows).asked =~= talk.asked + seq![
        ActionModel::LoadState,
        ActionModel::Windows,
    ]);
}

// A new configuration.

/// A reload keeps which windows are sticky. A window that is not open or that
/// no rule matches keeps its pin; one that a rule matches gets the outputs of
/// that rule, or the default where the rule names none.
pub proof fn reloading_pins_as_the_rules_say(
    config: ConfigModel,
    windows: Seq<WindowModel>,
    layout: Seq<WorkspaceModel>,
    sticky: Map<u64, Pin>,
    id: u64,
)
    ensures
        ({
            let after = repinned(config, windows, layout, sticky);
            &&& after.contains_key(id) <==> sticky.contains_key(id)
            &&& sticky.contains_key(id) && !is_open(windows, id) ==> after[id] == sticky[id]
            &&& forall|at: int|
                sticky.contains_key(id) && #[trigger] is_first_window(windows, id, at) ==> match (
                match_of(config, facts_of(windows[at]))) {
                    None => after[id] == sticky[id],
                    Some(matched) => if matched.outputs.len() > 0 {
                        after[id] == matched.outputs
                    } else {
                        after[id] == default_pin(config.sticky_follow, windows, layout, id)
                    },
                }
        }),
{
    let after = repinned(config, windows, layout, sticky);
    windows_exist_while_they_are_listed(windows, id);
    lists::find_is_exact(windows, window_with(id));
    assert forall|at: int|
        sticky.contains_key(id) && #[trigger] is_first_window(windows, id, at) implies match (
    match_of(config, facts_of(windows[at]))) {
        None => after[id] == sticky[id],
        Some(matched) => if matched.outputs.len() > 0 {
            after[id] == matched.outputs
        } else {
            after[id] == default_pin(config.sticky_follow, windows, layout, id)
        },
    } by {
        first_window_is_found(windows, id, at);
    }
}

/// The number of windows re-pinned is the number of sticky windows whose pin is
/// another one now.
pub proof fn re_pinned_windows_are_counted(before: Map<u64, Pin>, after: Map<u64, Pin>)
    ensures
        lists::selects(
            sorted_ids(before.dom()),
            |id: u64| before[id] != after[id],
            |id: u64| id,
            changed_ids(before, after),
        ),
        ascending_and_exact(sorted_ids(before.dom()), before),
{
    sorted_ids_are_sorted(before.dom());
    let ids = sorted_ids(before.dom());
    assert forall|id: u64| ids.contains(id) <==> before.contains_key(id) by {
        assert(ids.to_set().contains(id) <==> before.dom().contains(id));
    }
    lists::filtering_selects(
        ids,
        moved_pin(before, after),
        |id: u64| before[id] != after[id],
        |id: u64| id,
    );
}

/// Every window of the table is listed once, smallest id first.
pub open spec fn ascending_and_exact(ids: Seq<u64>, table: Map<u64, Pin>) -> bool {
    &&& forall|i: int, j: int| 0 <= i < j < ids.len() ==> ids[i] < ids[j]
    &&& forall|id: u64| ids.contains(id) <==> table.contains_key(id)
}

/// A configuration that cannot be read changes nothing, and the error says that
/// the running one is kept, and which file it is.
pub proof fn a_bad_configuration_is_not_applied(talk: Conv, logic: LogicModel, e: Chain)
    requires
        talk.answers.len() > 0,
        loaded(logic.config_path, text_in(talk.answers[0])) == Err::<ConfigModel, Chain>(e),
    ensures
        reload_run(talk, logic).talk.asked == talk.asked.push(ActionModel::ReadConfig),
        reload_run(talk, logic).logic == logic,
        reload_run(talk, logic).out == Some(
            Err::<Seq<char>, Chain>(
                seq!["Keeping the running configuration: "@ + logic.config_path] + e,
            ),
        ),
{
    reveal(reload_run);
}

/// A configuration that can be read is the one that counts from then on,
/// whatever the compositor answers. The pins follow from the windows and the
/// workspaces it lists, and the answer says how many rules there are and how
/// many pins changed.
pub proof fn a_good_configuration_is_applied(
    talk: Conv,
    logic: LogicModel,
    config: ConfigModel,
    windows: Seq<WindowModel>,
    layout: Seq<WorkspaceModel>,
)
    requires
        talk.answers.len() >= 4,
        loaded(logic.config_path, text_in(talk.answers[0])) == Ok::<ConfigModel, Chain>(config),
        talk.answers[1] == ReplyModel::Windows(windows),
        talk.answers[2] == ReplyModel::Workspaces(layout),
    ensures
        ({
            let r = reload_run(talk, logic);
            let pins = repinned(config, windows, layout, logic.state.sticky);
            let count = changed_ids(logic.state.sticky, pins).len();
            &&& r.logic.config == config
            &&& r.logic.state.staged == logic.state.staged
            &&& r.logic.state.pads == logic.state.pads
            &&& count > 0 ==> r.logic.state.sticky == pins
            &&& count == 0 ==> r.logic.state == logic.state
            &&& r.out == Some(
                Ok::<Seq<char>, Chain>(
                    "Reloaded configuration: "@ + text::decimal(
                        config.sticky_rules.len() + config.stage_rules.len(),
                    ) + " rule(s), "@ + text::decimal(count) + " window(s) re-pinned"@,
                ),
            )
        }),
{
    reveal(reload_run);
    let one = talk.ask(ActionModel::ReadConfig);
    let two = one.ask(ActionModel::Windows);
    assert(one.answers[0] == talk.answers[1]);
    assert(two.answers[0] == talk.answers[2]);
    assert(two.ask(ActionModel::Workspaces).answers[0] == talk.answers[3]);
}

} // verus!
