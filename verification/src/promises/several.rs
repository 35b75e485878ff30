//! What becomes of several windows at once: each is dealt with on its own, one
//! after the other, and none is left out because another was refused.
use vstd::prelude::*;
use super::parking::{
    a_parking_area_is_used_again, is_first_named, the_geometry_of_floating_windows_is_remembered,
};
use super::requests::is_held;
use super::tracking::others_stay;
use super::windows::{is_first_window, is_open, windows_exist_while_they_are_listed};
use crate::action::{ActionModel, Conv, ReplyModel};
use crate::business::{batch_message, default_pin, ended, BatchModel, LogicModel};
use crate::business::events::{follow_each_run, retained};
use crate::business::stage::{
    stage_each_run, stage_run, toggle_staged_run, unstage_each_run, unstage_run,
};
use crate::business::sticky::toggle_each_run;
use crate::error::{Chain, Outcome};
use crate::niri::{WindowModel, WorkspaceModel};
use crate::pinning::target_of;
use crate::state::Pin;
use crate::text;

verus! {

/// One more window was dealt with.
pub open spec fn is_counted_as_done(before: BatchModel, after: BatchModel, id: u64) -> bool {
    after.succeeded == before.succeeded.push(id) && after.failed == before.failed
}

/// One more window was refused.
pub open spec fn is_counted_as_failed(before: BatchModel, after: BatchModel, id: u64) -> bool {
    after.succeeded == before.succeeded && after.failed == before.failed.push(id)
}

/// What several windows came to.
pub open spec fn tally(out: Option<Outcome<BatchModel>>) -> BatchModel {
    out->0->Ok_0
}

// Toggling sticky windows.

/// Toggling one window: a staged one moves to the focused workspace and is
/// tracked as before it was staged, and where it cannot be moved it stays as it
/// is and counts as failed; a parked one is left alone and counts as failed; a
/// sticky one is not sticky any more; any other becomes sticky, pinned as the
/// configuration says.
pub proof fn one_window_is_toggled(
    talk: Conv,
    logic: LogicModel,
    id: u64,
    workspace_id: u64,
    windows: Seq<WindowModel>,
    layout: Seq<WorkspaceModel>,
    done: BatchModel,
)
    requires
        talk.answers.len() > 0,
    ensures
        ({
            let r = toggle_each_run(talk, logic, seq![id], workspace_id, windows, layout, done);
            let moving = ActionModel::MoveWindow { window_id: id, workspace_id };
            &&& r.out is Some
            &&& r.out->0 is Ok
            &&& others_stay(logic.state, r.logic.state, id)
            &&& r.logic.state.pads == logic.state.pads
            &&& if logic.state.staged.contains_key(id) {
                &&& r.talk.asked == talk.asked.push(moving)
                &&& talk.answers[0] == ReplyModel::Done ==> {
                    &&& !r.logic.state.staged.contains_key(id)
                    &&& logic.state.staged[id].was_sticky ==> r.logic.state.sticky.contains_key(id)
                        && r.logic.state.sticky[id] == logic.state.staged[id].pin
                    &&& !logic.state.staged[id].was_sticky ==> r.logic.state.sticky
                        == logic.state.sticky
                    &&& is_counted_as_done(done, tally(r.out), id)
                }
                &&& talk.answers[0] is Failed ==> r.logic == logic && is_counted_as_failed(
                    done,
                    tally(r.out),
                    id,
                )
            } else if is_held(logic, id) {
                r.talk == talk && r.logic == logic && is_counted_as_failed(done, tally(r.out), id)
            } else {
                &&& r.talk == talk
                &&& r.logic.state.staged == logic.state.staged
                &&& is_counted_as_done(done, tally(r.out), id)
                &&& r.logic.state.sticky.contains_key(id) != logic.state.sticky.contains_key(id)
                &&& r.logic.state.sticky.contains_key(id) ==> r.logic.state.sticky[id]
                    == default_pin(logic.config.sticky_follow, windows, layout, id)
            }
        }),
{
    reveal_with_fuel(toggle_each_run, 2);
    let ids = seq![id];
    assert(ids.drop_first() =~= Seq::<u64>::empty());
}

/// Toggling several windows is toggling the first ones, and then the others.
pub proof fn windows_are_toggled_one_after_the_other(
    talk: Conv,
    logic: LogicModel,
    first: Seq<u64>,
    second: Seq<u64>,
    workspace_id: u64,
    windows: Seq<WindowModel>,
    layout: Seq<WorkspaceModel>,
    done: BatchModel,
)
    ensures
        ({
            let front = toggle_each_run(talk, logic, first, workspace_id, windows, layout, done);
            let all = toggle_each_run(
                talk,
                logic,
                first + second,
                workspace_id,
                windows,
                layout,
                done,
            );
            front.out matches Some(Ok(tally)) ==> all == toggle_each_run(
                front.talk,
                front.logic,
                second,
                workspace_id,
                windows,
                layout,
                tally,
            )
        }),
        toggle_each_run(talk, logic, Seq::empty(), workspace_id, windows, layout, done) == ended(
            talk,
            logic,
            Ok::<BatchModel, Chain>(done),
        ),
    decreases first.len(),
{
    let all = first + second;
    if first.len() == 0 {
        assert(all =~= second);
    } else {
        assert(all.drop_first() =~= first.drop_first() + second);
        assert(all[0] == first[0]);
        let one = toggle_each_run(talk, logic, seq![first[0]], workspace_id, windows, layout, done);
        reveal_with_fuel(toggle_each_run, 2);
        assert(seq![first[0]].drop_first() =~= Seq::<u64>::empty());
        if let Some(Ok(tally)) = one.out {
            windows_are_toggled_one_after_the_other(
                one.talk,
                one.logic,
                first.drop_first(),
                second,
                workspace_id,
                windows,
                layout,
                tally,
            );
        }
    }
}

// Staging by app id or title.

/// Toggling the stage of one window brings it back where it is staged, and
/// stages it where it is not; a refusal is counted.
pub proof fn the_stage_of_one_window_is_toggled(
    talk: Conv,
    logic: LogicModel,
    id: u64,
    workspace_id: u64,
    done: BatchModel,
)
    ensures
        ({
            let r = toggle_staged_run(talk, logic, seq![id], workspace_id, done);
            let one = if logic.state.staged.contains_key(id) {
                unstage_run(talk, logic, id, workspace_id)
            } else {
                stage_run(talk, logic, id)
            };
            &&& r.talk == one.talk
            &&& r.logic == one.logic
            &&& one.out == Some(Ok::<(), Chain>(())) ==> r.out is Some && r.out->0 is Ok
                && is_counted_as_done(done, tally(r.out), id)
            &&& one.out is Some && one.out->0 is Err ==> r.out is Some && r.out->0 is Ok
                && is_counted_as_failed(done, tally(r.out), id)
        }),
{
    reveal_with_fuel(toggle_staged_run, 2);
    let ids = seq![id];
    assert(ids.drop_first() =~= Seq::<u64>::empty());
}

/// Toggling the stage of several windows is toggling that of the first ones,
/// and then that of the others.
pub proof fn the_stage_is_toggled_one_after_the_other(
    talk: Conv,
    logic: LogicModel,
    first: Seq<u64>,
    second: Seq<u64>,
    workspace_id: u64,
    done: BatchModel,
)
    ensures
        ({
            let front = toggle_staged_run(talk, logic, first, workspace_id, done);
            let all = toggle_staged_run(talk, logic, first + second, workspace_id, done);
            front.out matches Some(Ok(tally)) ==> all == toggle_staged_run(
                front.talk,
                front.logic,
                second,
                workspace_id,
                tally,
            )
        }),
        toggle_staged_run(talk, logic, Seq::empty(), workspace_id, done) == ended(
            talk,
            logic,
            Ok::<BatchModel, Chain>(done),
        ),
    decreases first.len(),
{
    let all = first + second;
    if first.len() == 0 {
        assert(all =~= second);
    } else {
        assert(all.drop_first() =~= first.drop_first() + second);
        assert(all[0] == first[0]);
        let one = toggle_staged_run(talk, logic, seq![first[0]], workspace_id, done);
        reveal_with_fuel(toggle_staged_run, 2);
        assert(seq![first[0]].drop_first() =~= Seq::<u64>::empty());
        if let Some(Ok(tally)) = one.out {
            the_stage_is_toggled_one_after_the_other(
                one.talk,
                one.logic,
                first.drop_first(),
                second,
                workspace_id,
                tally,
            );
        }
    }
}

// Staging every sticky window.

/// Staging one of several windows, once the stage was found: its geometry is
/// looked up and it is moved there. It is remembered as it was; where it cannot
/// be moved it stays as it is and counts as failed.
pub proof fn one_of_several_is_staged(
    talk: Conv,
    logic: LogicModel,
    id: u64,
    stage: u64,
    done: BatchModel,
    windows: Seq<WindowModel>,
    at: int,
)
    requires
        talk.answers.len() >= 2,
        talk.answers[0] == ReplyModel::Windows(windows),
        is_first_window(windows, id, at),
    ensures
        ({
            let r = stage_each_run(talk, logic, seq![id], Some(stage), done);
            let w = windows[at];
            let kept = r.logic.state.staged[id];
            &&& r.out is Some
            &&& r.out->0 is Ok
            &&& r.talk.asked == talk.asked + seq![
                ActionModel::Windows,
                ActionModel::MoveWindow { window_id: id, workspace_id: stage },
            ]
            &&& talk.answers[1] == ReplyModel::Done ==> {
                &&& r.logic.state.staged.contains_key(id)
                &&& !r.logic.state.sticky.contains_key(id)
                &&& kept.was_sticky == logic.state.sticky.contains_key(id)
                &&& logic.state.sticky.contains_key(id) ==> kept.pin == logic.state.sticky[id]
                &&& w.floating ==> kept.size == w.size && kept.position == w.position
                &&& !w.floating ==> kept.size is None && kept.position is None
                &&& others_stay(logic.state, r.logic.state, id)
                &&& is_counted_as_done(done, tally(r.out), id)
            }
            &&& talk.answers[1] is Failed ==> r.logic == logic && is_counted_as_failed(
                done,
                tally(r.out),
                id,
            )
        }),
{
    reveal_with_fuel(stage_each_run, 2);
    let ids = seq![id];
    assert(ids.drop_first() =~= Seq::<u64>::empty());
    the_geometry_of_floating_windows_is_remembered(talk, id, windows, at);
    let one = talk.ask(ActionModel::Windows);
    assert(one.answers[0] == talk.answers[1]);
    let moving = ActionModel::MoveWindow { window_id: id, workspace_id: stage };
    assert(one.ask(moving).asked =~= talk.asked + seq![ActionModel::Windows, moving]);
}

/// The first of several windows is staged where the stage is: it is looked up,
/// and the windows after it go there as well without looking again.
pub proof fn the_first_of_several_finds_the_stage(
    talk: Conv,
    logic: LogicModel,
    id: u64,
    rest: Seq<u64>,
    done: BatchModel,
    windows: Seq<WindowModel>,
    at: int,
    layout: Seq<WorkspaceModel>,
    stage: int,
)
    requires
        talk.answers.len() >= 3,
        talk.answers[0] == ReplyModel::Windows(windows),
        talk.answers[1] == ReplyModel::Workspaces(layout),
        is_first_window(windows, id, at),
        is_first_named(layout, logic.config.stage_workspace, stage),
    ensures
        ({
            let looked = talk.ask(ActionModel::Windows).ask(ActionModel::Workspaces);
            let moved = looked.ask(
                ActionModel::MoveWindow { window_id: id, workspace_id: layout[stage].id },
            );
            let all = stage_each_run(talk, logic, seq![id] + rest, None, done);
            let shape = if windows[at].floating {
                (windows[at].size, windows[at].position)
            } else {
                (None, None)
            };
            &&& talk.answers[2] == ReplyModel::Done ==> all == stage_each_run(
                moved,
                logic.with(logic.state.stage(id, shape.0, shape.1)),
                rest,
                Some(layout[stage].id),
                done.success(id),
            )
            &&& talk.answers[2] is Failed ==> all == stage_each_run(
                moved,
                logic,
                rest,
                Some(layout[stage].id),
                done.failure(id),
            )
        }),
{
    let ids = seq![id] + rest;
    assert(ids[0] == id);
    assert(ids.drop_first() =~= rest);
    the_geometry_of_floating_windows_is_remembered(talk, id, windows, at);
    let one = talk.ask(ActionModel::Windows);
    let two = one.ask(ActionModel::Workspaces);
    assert(one.answers[0] == talk.answers[1]);
    assert(two.answers[0] == talk.answers[2]);
    a_parking_area_is_used_again(one, logic.config.stage_workspace, id, layout, stage);
}

/// Staging several windows, once the stage was found, is staging the first
/// ones, and then the others.
pub proof fn windows_are_staged_one_after_the_other(
    talk: Conv,
    logic: LogicModel,
    first: Seq<u64>,
    second: Seq<u64>,
    stage: u64,
    done: BatchModel,
)
    ensures
        ({
            let front = stage_each_run(talk, logic, first, Some(stage), done);
            let all = stage_each_run(talk, logic, first + second, Some(stage), done);
            front.out matches Some(Ok(tally)) ==> all == stage_each_run(
                front.talk,
                front.logic,
                second,
                Some(stage),
                tally,
            )
        }),
        stage_each_run(talk, logic, Seq::empty(), Some(stage), done) == ended(
            talk,
            logic,
            Ok::<BatchModel, Chain>(done),
        ),
    decreases first.len(),
{
    let all = first + second;
    if first.len() == 0 {
        assert(all =~= second);
    } else {
        assert(all.drop_first() =~= first.drop_first() + second);
        assert(all[0] == first[0]);
        let one = stage_each_run(talk, logic, seq![first[0]], Some(stage), done);
        reveal_with_fuel(stage_each_run, 2);
        assert(seq![first[0]].drop_first() =~= Seq::<u64>::empty());
        if let Some(Ok(tally)) = one.out {
            windows_are_staged_one_after_the_other(
                one.talk,
                one.logic,
                first.drop_first(),
                second,
                stage,
                tally,
            );
        }
    }
}

// Bringing every staged window back.

/// Bringing back one of several windows moves it to the focused workspace and
/// tracks it as before it was staged. One that is not open any more is
/// forgotten and counted neither way; one that cannot be moved stays staged and
/// counts as failed.
pub proof fn one_of_several_is_brought_back(
    talk: Conv,
    logic: LogicModel,
    id: u64,
    windows: Seq<WindowModel>,
    workspace_id: u64,
    done: BatchModel,
)
    requires
        talk.answers.len() > 0,
        logic.state.staged.contains_key(id),
    ensures
        ({
            let r = unstage_each_run(talk, logic, seq![id], windows, workspace_id, done);
            &&& r.out is Some
            &&& r.out->0 is Ok
            &&& others_stay(logic.state, r.logic.state, id)
            &&& r.logic.state.pads == logic.state.pads
            &&& !is_open(windows, id) ==> {
                &&& r.talk == talk
                &&& !r.logic.state.staged.contains_key(id)
                &&& r.logic.state.sticky == logic.state.sticky
                &&& tally(r.out) == done
            }
            &&& is_open(windows, id) ==> r.talk.asked == talk.asked.push(
                ActionModel::MoveWindow { window_id: id, workspace_id },
            )
            &&& is_open(windows, id) && talk.answers[0] == ReplyModel::Done ==> {
                &&& !r.logic.state.staged.contains_key(id)
                &&& logic.state.staged[id].was_sticky ==> r.logic.state.sticky.contains_key(id)
                    && r.logic.state.sticky[id] == logic.state.staged[id].pin
                &&& !logic.state.staged[id].was_sticky ==> r.logic.state.sticky
                    == logic.state.sticky
                &&& is_counted_as_done(done, tally(r.out), id)
            }
            &&& is_open(windows, id) && talk.answers[0] is Failed ==> r.logic == logic
                && is_counted_as_failed(done, tally(r.out), id)
        }),
{
    reveal_with_fuel(unstage_each_run, 2);
    let ids = seq![id];
    assert(ids.drop_first() =~= Seq::<u64>::empty());
    windows_exist_while_they_are_listed(windows, id);
}

/// Bringing back several windows is bringing back the first ones, and then the
/// others.
pub proof fn windows_are_brought_back_one_after_the_other(
    talk: Conv,
    logic: LogicModel,
    first: Seq<u64>,
    second: Seq<u64>,
    windows: Seq<WindowModel>,
    workspace_id: u64,
    done: BatchModel,
)
    ensures
        ({
            let front = unstage_each_run(talk, logic, first, windows, workspace_id, done);
            let all = unstage_each_run(talk, logic, first + second, windows, workspace_id, done);
            front.out matches Some(Ok(tally)) ==> all == unstage_each_run(
                front.talk,
                front.logic,
                second,
                windows,
                workspace_id,
                tally,
            )
        }),
        unstage_each_run(talk, logic, Seq::empty(), windows, workspace_id, done) == ended(
            talk,
            logic,
            Ok::<BatchModel, Chain>(done),
        ),
    decreases first.len(),
{
    let all = first + second;
    if first.len() == 0 {
        assert(all =~= second);
    } else {
        assert(all.drop_first() =~= first.drop_first() + second);
        assert(all[0] == first[0]);
        let one = unstage_each_run(talk, logic, seq![first[0]], windows, workspace_id, done);
        reveal_with_fuel(unstage_each_run, 2);
        assert(seq![first[0]].drop_first() =~= Seq::<u64>::empty());
        if let Some(Ok(tally)) = one.out {
            windows_are_brought_back_one_after_the_other(
                one.talk,
                one.logic,
                first.drop_first(),
                second,
                windows,
                workspace_id,
                tally,
            );
        }
    }
}

// Following the focus.

/// One sticky window is moved to where it belongs, or not at all where it
/// belongs where it is; the answer to that is of no consequence.
pub proof fn one_window_follows(
    talk: Conv,
    logic: LogicModel,
    id: u64,
    windows: Seq<WindowModel>,
    layout: Seq<WorkspaceModel>,
    focused: u64,
)
    requires
        talk.answers.len() > 0,
    ensures
        ({
            let r = follow_each_run(talk, logic, seq![id], windows, layout, focused);
            let target = target_of(
                logic.state.sticky[id],
                crate::business::window_output(windows, layout, id),
                layout,
                focused,
            );
            &&& r.out == Some(Ok::<(), Chain>(()))
            &&& r.logic == logic
            &&& target matches Some(workspace_id) ==> r.talk.asked == talk.asked.push(
                ActionModel::MoveWindow { window_id: id, workspace_id },
            )
            &&& target is None ==> r.talk == talk
        }),
{
    reveal_with_fuel(follow_each_run, 2);
    let ids = seq![id];
    assert(ids.drop_first() =~= Seq::<u64>::empty());
}

/// Several windows follow: the first ones, and then the others.
pub proof fn windows_follow_one_after_the_other(
    talk: Conv,
    logic: LogicModel,
    first: Seq<u64>,
    second: Seq<u64>,
    windows: Seq<WindowModel>,
    layout: Seq<WorkspaceModel>,
    focused: u64,
)
    ensures
        ({
            let front = follow_each_run(talk, logic, first, windows, layout, focused);
            let all = follow_each_run(talk, logic, first + second, windows, layout, focused);
            front.out is Some ==> all == follow_each_run(
                front.talk,
                front.logic,
                second,
                windows,
                layout,
                focused,
            )
        }),
        follow_each_run(talk, logic, Seq::empty(), windows, layout, focused) == ended(
            talk,
            logic,
            Ok::<(), Chain>(()),
        ),
    decreases first.len(),
{
    let all = first + second;
    if first.len() == 0 {
        assert(all =~= second);
    } else {
        assert(all.drop_first() =~= first.drop_first() + second);
        assert(all[0] == first[0]);
        let one = follow_each_run(talk, logic, seq![first[0]], windows, layout, focused);
        reveal_with_fuel(follow_each_run, 2);
        assert(seq![first[0]].drop_first() =~= Seq::<u64>::empty());
        if one.out is Some {
            windows_follow_one_after_the_other(
                one.talk,
                one.logic,
                first.drop_first(),
                second,
                windows,
                layout,
                focused,
            );
        }
    }
}

/// Sticky windows that are not open any more are forgotten; the others keep
/// their pins.
pub proof fn open_windows_stay_sticky(sticky: Map<u64, Pin>, windows: Seq<WindowModel>, id: u64)
    ensures
        retained(sticky, windows).contains_key(id) <==> sticky.contains_key(id) && is_open(
            windows,
            id,
        ),
        retained(sticky, windows).contains_key(id) ==> retained(sticky, windows)[id] == sticky[id],
{
    windows_exist_while_they_are_listed(windows, id);
}

/// The message for several windows counts those that were dealt with, and where
/// some were refused, counts them too and gives their ids in order.
pub proof fn both_counts_are_said(batch: BatchModel, verb: Seq<char>, noun: Seq<char>)
    ensures
        batch.failed.len() == 0 ==> batch_message(batch, verb, noun) == verb + " "@
            + text::decimal(batch.succeeded.len()) + " "@ + noun,
        batch.failed.len() > 0 ==> batch_message(batch, verb, noun) == verb + " "@ + text::decimal(
            batch.succeeded.len(),
        ) + " "@ + noun + ", "@ + text::decimal(batch.failed.len()) + " failed: "@ + text::joined(
            Seq::new(batch.failed.len(), |i: int| text::decimal(batch.failed[i] as nat)),
            ", "@,
        ),
{
    assert(crate::business::id_texts(batch.failed) =~= Seq::new(
        batch.failed.len(),
        |i: int| text::decimal(batch.failed[i] as nat),
    ));
}

} // verus!
