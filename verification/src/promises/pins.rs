//! Which workspace a sticky window goes to, and which one becomes a parking
//! area.
use vstd::prelude::*;
use crate::lists;
use crate::niri::WorkspaceModel;
use crate::pinning::{
    active_on, active_pair, active_workspace_of, bottom_free, connected, on_output, output_of,
    target_of, with_id,
};

verus! {

/// An output is connected while some workspace is on it.
pub open spec fn is_plugged(layout: Seq<WorkspaceModel>, output: Seq<char>) -> bool {
    exists|i: int| 0 <= i < layout.len() && (#[trigger] layout[i]).output == Some(output)
}

/// The output at this place of a pin is connected, and none before it is.
pub open spec fn is_first_plugged(
    layout: Seq<WorkspaceModel>,
    pin: Seq<Seq<char>>,
    at: int,
) -> bool {
    &&& 0 <= at < pin.len()
    &&& is_plugged(layout, pin[at])
    &&& forall|j: int| 0 <= j < at ==> !is_plugged(layout, #[trigger] pin[j])
}

/// The workspace at this place is active on the output, and none listed before
/// it is.
pub open spec fn is_first_active(
    layout: Seq<WorkspaceModel>,
    output: Seq<char>,
    at: int,
) -> bool {
    &&& 0 <= at < layout.len()
    &&& layout[at].output == Some(output)
    &&& layout[at].is_active
    &&& forall|j: int|
        0 <= j < at ==> !((#[trigger] layout[j]).output == Some(output) && layout[j].is_active)
}

/// The workspace at this place has the id, and none listed before it has.
pub open spec fn is_first_with_id(layout: Seq<WorkspaceModel>, id: u64, at: int) -> bool {
    &&& 0 <= at < layout.len()
    &&& layout[at].id == id
    &&& forall|j: int| 0 <= j < at ==> (#[trigger] layout[j]).id != id
}

proof fn first_plugged_is_found(layout: Seq<WorkspaceModel>, pin: Seq<Seq<char>>, at: int)
    requires
        is_first_plugged(layout, pin, at),
    ensures
        lists::find(pin, connected(layout)) == Some(pin[at]),
{
    let p = connected(layout);
    let found = lists::a_search_finds_the_first(pin, p);
    assert forall|k: int| 0 <= k < pin.len() implies p(#[trigger] pin[k]) == is_plugged(
        layout,
        pin[k],
    ) by {
        let q = on_output(pin[k]);
        if is_plugged(layout, pin[k]) {
            let i = choose|i: int|
                0 <= i < layout.len() && (#[trigger] layout[i]).output == Some(pin[k]);
            assert(q(layout[i]));
        }
        if p(pin[k]) {
            let i = choose|i: int| 0 <= i < layout.len() && q(#[trigger] layout[i]);
            assert(layout[i].output == Some(pin[k]));
        }
    }
    assert(p(pin[at]));
    if found < at {
        assert(p(pin[found]));
    }
    if at < found {
        assert(!p(pin[at]));
    }
}

/// A pinned window that is not on the first connected output of its pin goes to
/// the workspace that is active there, wherever it is now, also when it is on
/// another output of the pin; it stays only where that output has no active
/// workspace.
pub proof fn a_pinned_window_goes_home(
    layout: Seq<WorkspaceModel>,
    pin: Seq<Seq<char>>,
    current: Option<Seq<char>>,
    focused: u64,
    at: int,
)
    requires
        is_first_plugged(layout, pin, at),
        current != Some(pin[at]),
    ensures
        forall|i: int| #[trigger]
            is_first_active(layout, pin[at], i) ==> target_of(pin, current, layout, focused)
                == Some(layout[i].id),
        target_of(pin, current, layout, focused) is None <==> !exists|i: int|
            0 <= i < layout.len() && (#[trigger] layout[i]).output == Some(pin[at])
                && layout[i].is_active,
{
    first_plugged_is_found(layout, pin, at);
    the_first_active_workspace_counts(layout, pin[at]);
}

/// A pinned window that is on the first connected output of its pin comes along
/// to a workspace of that output, and to no other.
pub proof fn a_pinned_window_at_home_stays(
    layout: Seq<WorkspaceModel>,
    pin: Seq<Seq<char>>,
    focused: u64,
    at: int,
)
    requires
        is_first_plugged(layout, pin, at),
    ensures
        ({
            let r = target_of(pin, Some(pin[at]), layout, focused);
            &&& r == Some(focused) || r is None
            &&& r is Some <==> exists|i: int| #[trigger]
                is_first_with_id(layout, focused, i) && layout[i].output == Some(pin[at])
        }),
{
    first_plugged_is_found(layout, pin, at);
    a_workspace_is_on_the_output_listed(layout, focused);
    assert forall|i: int| #[trigger] is_first_with_id(layout, focused, i) implies output_of(
        layout,
        focused,
    ) == layout[i].output by {}
    if output_of(layout, focused) == Some(pin[at]) {
        let i = lists::a_search_finds_the_first(layout, with_id(focused));
        assert(is_first_with_id(layout, focused, i));
    }
}

/// A window without a pin, or with no output of its pin connected, goes to the
/// workspace that is focused.
pub proof fn without_its_outputs_a_window_follows_the_focus(
    layout: Seq<WorkspaceModel>,
    pin: Seq<Seq<char>>,
    current: Option<Seq<char>>,
    focused: u64,
)
    requires
        forall|k: int| 0 <= k < pin.len() ==> !is_plugged(layout, #[trigger] pin[k]),
    ensures
        target_of(pin, current, layout, focused) == Some(focused),
{
    let p = connected(layout);
    let at = lists::a_search_finds_the_first(pin, p);
    if lists::find(pin, p) is Some {
        let q = on_output(pin[at]);
        let i = choose|i: int| 0 <= i < layout.len() && q(#[trigger] layout[i]);
        assert(layout[i].output == Some(pin[at]));
    }
}

/// The output of a workspace is the one that the first workspace with its id is
/// on; an id that no workspace has is on none.
pub proof fn a_workspace_is_on_the_output_listed(layout: Seq<WorkspaceModel>, id: u64)
    ensures
        forall|i: int| #[trigger]
            is_first_with_id(layout, id, i) ==> output_of(layout, id) == layout[i].output,
        (forall|i: int| 0 <= i < layout.len() ==> (#[trigger] layout[i]).id != id) ==> output_of(
            layout,
            id,
        ) is None,
{
    let p = with_id(id);
    let at = lists::a_search_finds_the_first(layout, p);
    assert forall|i: int| #[trigger] is_first_with_id(layout, id, i) implies output_of(layout, id)
        == layout[i].output by {
        assert(p(layout[i]));
        if at < i {
            assert(layout[at].id != id);
        }
    }
    if lists::find(layout, p) is Some {
        assert(layout[at].id == id);
    }
}

/// The active workspace of an output is the first active one listed on it;
/// there is none only where no workspace on the output is active.
pub proof fn the_first_active_workspace_counts(layout: Seq<WorkspaceModel>, output: Seq<char>)
    ensures
        forall|i: int| #[trigger]
            is_first_active(layout, output, i) ==> active_workspace_of(layout, output) == Some(
                layout[i].id,
            ),
        active_workspace_of(layout, output) is None <==> !exists|i: int|
            0 <= i < layout.len() && (#[trigger] layout[i]).output == Some(output)
                && layout[i].is_active,
{
    let p = active_on(output);
    let at = lists::a_search_finds_the_first(layout, p);
    assert forall|i: int| #[trigger] is_first_active(layout, output, i) implies active_workspace_of(
        layout,
        output,
    ) == Some(layout[i].id) by {
        assert(p(layout[i]));
        if at < i {
            assert(p(layout[at]));
        }
    }
    if lists::find(layout, p) is Some {
        assert(p(layout[at]));
    } else {
        assert forall|i: int| 0 <= i < layout.len() implies !((#[trigger] layout[i]).output == Some(
            output,
        ) && layout[i].is_active) by {
            assert(!p(layout[i]));
        }
    }
}

/// The active workspaces are those that are active and on an output, in the
/// order they are listed, each with its output and its id.
pub proof fn every_active_workspace_is_listed(layout: Seq<WorkspaceModel>)
    ensures
        lists::selects(
            layout,
            |w: WorkspaceModel| w.is_active && w.output is Some,
            |w: WorkspaceModel| (w.output->0, w.id),
            layout.filter_map(active_pair()),
        ),
{
    lists::filtering_selects(
        layout,
        active_pair(),
        |w: WorkspaceModel| w.is_active && w.output is Some,
        |w: WorkspaceModel| (w.output->0, w.id),
    );
}

/// A workspace may become a parking area: it is on the output, has no name and
/// no window, and is not the one shown.
pub open spec fn may_be_taken(w: WorkspaceModel, output: Seq<char>, busy: Set<u64>) -> bool {
    w.output == Some(output) && w.name is None && !w.is_active && !busy.contains(w.id)
}

/// A parking area is made of the lowest workspace of the output that may be
/// taken, and made wherever one may be.
pub proof fn the_lowest_workspace_is_taken(
    layout: Seq<WorkspaceModel>,
    output: Seq<char>,
    busy: Set<u64>,
)
    ensures
        bottom_free(layout, output, busy) matches Some(w) ==> layout.contains(w) && may_be_taken(
            w,
            output,
            busy,
        ) && forall|i: int|
            0 <= i < layout.len() && may_be_taken(#[trigger] layout[i], output, busy)
                ==> layout[i].idx <= w.idx,
        bottom_free(layout, output, busy) is None ==> forall|i: int|
            0 <= i < layout.len() ==> !may_be_taken(#[trigger] layout[i], output, busy),
    decreases layout.len(),
{
    if layout.len() > 0 {
        let rest = layout.drop_last();
        the_lowest_workspace_is_taken(rest, output, busy);
        assert forall|i: int| 0 <= i < rest.len() implies #[trigger] layout[i] == rest[i] by {}
        if let Some(w) = bottom_free(rest, output, busy) {
            let i = choose|i: int| 0 <= i < rest.len() && rest[i] == w;
            assert(layout[i] == w);
        }
        assert(layout[layout.len() - 1] == layout.last());
    }
}

} // verus!
