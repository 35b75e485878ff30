//! What a scratchpad asks the compositor for, and what it remembers.
use vstd::prelude::*;
use super::windows::{first_window_is_found, is_first_window};
use crate::action::{ActionModel, Conv, ReplyModel};
use crate::business::LogicModel;
use crate::business::replay::{
    ask_correct_is_tidy, ask_persist_is_tidy, ask_place_is_tidy, ask_release_is_tidy,
    focus_run_is_tidy,
};
use crate::business::scratchpad::{ask_float, ask_place, ask_resize, dress_run, focus_run, show_run};
use crate::config::{PadModel, SizeModel};
use crate::dialogue::{goes_on, tidy};
use crate::niri::{Position, Size, WindowModel};

verus! {

/// The configured size and the size that is asked for are the same.
pub open spec fn is_same_size(configured: SizeModel, wanted: Size) -> bool {
    match configured {
        SizeModel::Fixed(pixels) => wanted == Size::Fixed(pixels),
        SizeModel::Percent { bits, .. } => wanted == Size::Percent(bits),
    }
}

/// A measure of a window is the remembered one where there is one, else the
/// configured one where there is one, else none.
pub open spec fn is_measure(
    remembered: Option<i32>,
    configured: Option<SizeModel>,
    wanted: Option<Size>,
) -> bool {
    &&& remembered matches Some(pixels) ==> wanted == Some(Size::Fixed(pixels))
    &&& remembered is None && configured is Some ==> wanted is Some && is_same_size(
        configured->0,
        wanted->0,
    )
    &&& remembered is None && configured is None ==> wanted is None
}

/// What is configured for the width.
pub open spec fn width_of(pad: Option<PadModel>) -> Option<SizeModel> {
    match pad {
        Some(pad) => pad.width,
        None => None,
    }
}

/// What is configured for the height.
pub open spec fn height_of(pad: Option<PadModel>) -> Option<SizeModel> {
    match pad {
        Some(pad) => pad.height,
        None => None,
    }
}

/// The first part of a pair, where there is a pair.
pub open spec fn first_of(size: Option<(i32, i32)>) -> Option<i32> {
    match size {
        Some(pair) => Some(pair.0),
        None => None,
    }
}

/// The second part of a pair, where there is a pair.
pub open spec fn second_of(size: Option<(i32, i32)>) -> Option<i32> {
    match size {
        Some(pair) => Some(pair.1),
        None => None,
    }
}

/// A window is resized when its size is remembered, or when a width or a height
/// is configured: one of the two is enough. Each measure that is asked for is
/// the remembered one, else the configured one.
pub proof fn either_measure_is_enough_to_resize(
    talk: Conv,
    pad: Option<PadModel>,
    size: Option<(i32, i32)>,
    id: u64,
)
    ensures
        ({
            let asked = ask_resize(talk, pad, size, id).talk.asked;
            if size is Some || width_of(pad) is Some || height_of(pad) is Some {
                &&& asked.len() == talk.asked.len() + 1
                &&& asked.drop_last() == talk.asked
                &&& asked.last() matches ActionModel::ResizeWindow {
                    window_id,
                    width,
                    height,
                } && window_id == id && is_measure(first_of(size), width_of(pad), width)
                    && is_measure(second_of(size), height_of(pad), height)
            } else {
                ask_resize(talk, pad, size, id).talk == talk
            }
        }),
        talk.answers.len() > 0 ==> ask_resize(talk, pad, size, id).out is Some,
{
    let asked = ask_resize(talk, pad, size, id).talk.asked;
    if size is Some || width_of(pad) is Some || height_of(pad) is Some {
        assert(asked.drop_last() =~= talk.asked);
    }
}

/// A shown window floats unless its scratchpad says that it does not.
pub proof fn shown_windows_float(talk: Conv, pad: Option<PadModel>, id: u64)
    ensures
        pad is None || pad->0.float ==> ask_float(talk, pad, id).talk.asked == talk.asked.push(
            ActionModel::FloatWindow { window_id: id },
        ),
        pad is Some && !pad->0.float ==> ask_float(talk, pad, id).talk == talk,
        talk.answers.len() > 0 ==> ask_float(talk, pad, id).out is Some,
{
}

proof fn kept(from: Conv, to: Conv, over: bool, i: int)
    requires
        tidy(from, to, over),
        0 <= i < from.asked.len(),
    ensures
        i < to.asked.len(),
        to.asked[i] == from.asked[i],
{
    reveal(tidy);
    reveal(goes_on);
}

/// Showing a scratchpad moves its window to the focused workspace, lets it
/// float unless the scratchpad says otherwise, and gives it the size that is
/// remembered or else configured, the position that is remembered, and the
/// focus, in this order.
pub proof fn a_shown_window_gets_its_looks_back(
    talk: Conv,
    logic: LogicModel,
    pad: Option<PadModel>,
    label: Seq<char>,
    workspace_id: u64,
)
    requires
        logic.state.pads.contains_key(label),
        talk.answers.len() >= 5,
        talk.answers[0] == ReplyModel::Id(workspace_id),
        talk.answers[1] == ReplyModel::Done,
    ensures
        ({
            let record = logic.state.pads[label];
            let id = record.id;
            let asked = show_run(talk, logic, pad, label).talk.asked;
            let n = talk.asked.len() as int;
            let floats = pad is None || pad->0.float;
            let sized = record.size is Some || width_of(pad) is Some || height_of(pad) is Some;
            let size_at: int = if floats {
                n + 3
            } else {
                n + 2
            };
            let place_at: int = if sized {
                size_at + 1
            } else {
                size_at
            };
            &&& asked.len() > place_at
            &&& asked[n] == ActionModel::ActiveWorkspace
            &&& asked[n + 1] == (ActionModel::MoveWindow { window_id: id, workspace_id })
            &&& floats ==> asked[n + 2] == (ActionModel::FloatWindow { window_id: id })
            &&& sized ==> (asked[size_at] matches ActionModel::ResizeWindow {
                window_id,
                width,
                height,
            } && window_id == id && is_measure(first_of(record.size), width_of(pad), width)
                && is_measure(second_of(record.size), height_of(pad), height))
            &&& record.position matches Some(position) ==> asked[place_at] == (
            ActionModel::MoveFloatingWindow { window_id: id, position })
            &&& record.position is None ==> asked[place_at] == (ActionModel::FocusWindow {
                window_id: id,
            })
        }),
{
    reveal(show_run);
    let record = logic.state.pads[label];
    let id = record.id;
    let one = talk.ask(ActionModel::ActiveWorkspace);
    let two = one.ask(ActionModel::MoveWindow { window_id: id, workspace_id });
    let shown = logic.with(logic.state.unpark(label));
    let run = show_run(talk, logic, pad, label);
    assert(one.answers[0] == talk.answers[1]);
    assert(run == dress_run(two, shown, pad, record));
    let float = ask_float(two, pad, id);
    let resize = ask_resize(float.talk, pad, record.size, id);
    either_measure_is_enough_to_resize(float.talk, pad, record.size, id);
    let place = ask_place(resize.talk, record.position, id);
    let n = talk.asked.len() as int;
    let last = resize.talk.asked.len() as int;
    // What comes next is the position, or else the focus.
    let next = match record.position {
        Some(position) => resize.talk.ask(
            ActionModel::MoveFloatingWindow { window_id: id, position },
        ),
        None => resize.talk.ask(ActionModel::FocusWindow { window_id: id }),
    };
    the_next_step_is_kept(resize.talk, shown, record.position, id);
    let after = match place.out {
        None => crate::business::paused(place.talk, shown),
        Some(()) => focus_run(place.talk, shown, id),
    };
    assert(run.talk.asked == after.talk.asked);
    assert forall|i: int| 0 <= i < next.asked.len() implies run.talk.asked[i]
        == #[trigger] next.asked[i] by {}
    assert(next.asked[n] == ActionModel::ActiveWorkspace);
    assert(next.asked[n + 1] == two.asked[n + 1]);
    if last > n + 2 {
        assert(next.asked[n + 2] == resize.talk.asked[n + 2]);
    }
    if last > n + 3 {
        assert(next.asked[n + 3] == resize.talk.asked[n + 3]);
    }
    assert(next.asked[last] == next.asked.last());
}

/// After the looks, the window is placed where a position is remembered, and
/// focused right away where none is.
proof fn the_next_step_is_kept(
    talk: Conv,
    logic: LogicModel,
    position: Option<Position>,
    id: u64,
)
    ensures
        ({
            let next = match position {
                Some(position) => talk.ask(
                    ActionModel::MoveFloatingWindow { window_id: id, position },
                ),
                None => talk.ask(ActionModel::FocusWindow { window_id: id }),
            };
            let place = ask_place(talk, position, id);
            let after = match place.out {
                None => crate::business::paused(place.talk, logic),
                Some(()) => focus_run(place.talk, logic, id),
            };
            &&& next.asked.len() <= after.talk.asked.len()
            &&& forall|i: int|
                0 <= i < next.asked.len() ==> after.talk.asked[i] == #[trigger] next.asked[i]
        }),
{
    broadcast use {
        crate::business::replay::ask_done_is_tidy, crate::business::replay::ask_windows_is_tidy,
        ask_correct_is_tidy, crate::dialogue::passes, crate::dialogue::staying_is_tidy,
        crate::dialogue::asking_is_tidy, ask_release_is_tidy, ask_persist_is_tidy,
    };

    let place = ask_place(talk, position, id);
    ask_place_is_tidy(talk, position, id);
    focus_run_is_tidy(place.talk, logic, id);
    let next = match position {
        Some(position) => talk.ask(ActionModel::MoveFloatingWindow { window_id: id, position }),
        None => talk.ask(ActionModel::FocusWindow { window_id: id }),
    };
    let after = match place.out {
        None => crate::business::paused(place.talk, logic),
        Some(()) => focus_run(place.talk, logic, id),
    };
    assert(goes_on(next, place.talk) || position is None) by {
        reveal(tidy);
        reveal(goes_on);
    }
    assert(goes_on(next, after.talk)) by {
        reveal(tidy);
        reveal(goes_on);
    }
    reveal(goes_on);
    assert forall|i: int| 0 <= i < next.asked.len() implies after.talk.asked[i]
        == #[trigger] next.asked[i] by {
        assert(next.asked[i] == after.talk.asked[i]);
    }
}

/// Once a window was placed, it is looked up again. Where it is now and where
/// it was to be are compared, and the position that comes of it is asked for; a
/// window that is not where the compositor lists it is left alone.
pub proof fn a_window_is_placed_twice_at_most(
    talk: Conv,
    wanted: Position,
    id: u64,
    windows: Seq<WindowModel>,
    at: int,
)
    requires
        talk.answers.len() >= 4,
        talk.answers[1] == ReplyModel::Windows(windows),
        is_first_window(windows, id, at),
    ensures
        ({
            let r = ask_place(talk, Some(wanted), id);
            let placing = ActionModel::MoveFloatingWindow { window_id: id, position: wanted };
            let looked = talk.asked + seq![placing, ActionModel::Windows];
            &&& r.out is Some
            &&& windows[at].position is None ==> r.talk.asked == looked
            &&& windows[at].position matches Some(actual) ==> {
                let compared = looked.push(ActionModel::CorrectPosition { wanted, actual });
                match talk.answers[2] {
                    ReplyModel::Position(Some(position)) => r.talk.asked == compared.push(
                        ActionModel::MoveFloatingWindow { window_id: id, position },
                    ),
                    _ => r.talk.asked == compared,
                }
            }
        }),
{
    first_window_is_found(windows, id, at);
    let one = talk.ask(ActionModel::MoveFloatingWindow { window_id: id, position: wanted });
    let two = one.ask(ActionModel::Windows);
    assert(one.answers[0] == talk.answers[1]);
    assert(two.answers[0] == talk.answers[2]);
    let placing = ActionModel::MoveFloatingWindow { window_id: id, position: wanted };
    assert(two.asked =~= talk.asked + seq![placing, ActionModel::Windows]);
    if let Some(actual) = windows[at].position {
        assert(two.ask(ActionModel::CorrectPosition { wanted, actual }).answers[0]
            == talk.answers[3]);
    }
}

/// Without a remembered position nothing is moved.
pub proof fn without_a_position_nothing_is_placed(talk: Conv, id: u64)
    ensures
        ask_place(talk, None, id).talk == talk,
        ask_place(talk, None, id).out is Some,
{
}

/// A window that is back is focused, and what the compositor says to that is
/// what comes of showing it.
pub proof fn a_shown_window_is_focused(talk: Conv, logic: LogicModel, id: u64)
    requires
        talk.answers.len() > 0,
        focus_run(talk, logic, id).out is Some,
    ensures
        ({
            let r = focus_run(talk, logic, id);
            &&& r.talk.asked.len() > talk.asked.len()
            &&& r.talk.asked[talk.asked.len() as int] == (ActionModel::FocusWindow {
                window_id: id,
            })
            &&& talk.answers[0] == ReplyModel::Done ==> r.out == Some(
                Ok::<(), Seq<Seq<char>>>(()),
            )
            &&& forall|e: Seq<Seq<char>>|
                talk.answers[0] == ReplyModel::Failed(e) ==> r.out == Some(Err::<(), _>(e))
            &&& r.logic.state == logic.state
        }),
{
    broadcast use {ask_release_is_tidy, ask_persist_is_tidy, crate::dialogue::passes};

    let focus = talk.ask(ActionModel::FocusWindow { window_id: id });
    let release = crate::business::parking::ask_release(
        focus,
        logic.config,
        logic.state,
        logic.config.scratchpad_workspace,
    );
    ask_release_is_tidy(focus, logic.config, logic.state, logic.config.scratchpad_workspace);
    ask_persist_is_tidy(release.talk, logic);
    let r = focus_run(talk, logic, id);
    assert(tidy(focus, r.talk, true));
    kept(focus, r.talk, true, talk.asked.len() as int);
}

} // verus!
