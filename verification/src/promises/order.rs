//! Where the parking areas stand on an output, and the moves that bring them
//! there.
use vstd::prelude::*;
use crate::action::{ActionModel, Conv, ReplyModel};
use crate::business::{occupied_by, LogicModel};
use crate::business::events::{ask_parking_order, move_each};
use crate::error::Chain;
use crate::lists;
use crate::niri::{WindowModel, WorkspaceModel};
use crate::pinning::{
    hosted, idx_rank, idx_rank_splits, in_parking_order, moves_of, named, on_output, ordered_on,
    ordered_on_is_exact, output_moves, outputs, outputs_are_listed_once_in_order, parking_moves,
};
use crate::text;

verus! {

/// The named workspaces are at these places, one below the other in the order of
/// the names, and every other workspace below the first of them has no name and
/// no window.
pub open spec fn are_at_the_end(
    ordered: Seq<WorkspaceModel>,
    occupied: Set<u64>,
    names: Seq<Seq<char>>,
    at: Seq<int>,
) -> bool {
    &&& at.len() == names.len()
    &&& forall|k: int| 0 <= k < at.len() ==> 0 <= #[trigger] at[k] < ordered.len()
    &&& forall|k: int| 0 <= k < at.len() ==> ordered[#[trigger] at[k]].name == Some(names[k])
    &&& forall|k: int, l: int| 0 <= k < l < at.len() ==> #[trigger] at[k] < #[trigger] at[l]
    &&& forall|i: int|
        at.len() > 0 && at[0] < i < ordered.len() && !at.contains(i) ==> (
        #[trigger] ordered[i]).name is None && !occupied.contains(ordered[i].id)
}

/// Parking areas count as in order exactly where they are at the end.
pub proof fn in_order_is_at_the_end(
    ordered: Seq<WorkspaceModel>,
    occupied: Set<u64>,
    names: Seq<Seq<char>>,
)
    ensures
        in_parking_order(ordered, occupied, names) <==> exists|at: Seq<int>| #[trigger]
            are_at_the_end(ordered, occupied, names, at),
    decreases ordered.len(),
{
    if names.len() == 0 {
        assert(are_at_the_end(ordered, occupied, names, Seq::<int>::empty()));
    } else if ordered.len() == 0 {
        assert forall|at: Seq<int>| !#[trigger] are_at_the_end(ordered, occupied, names, at) by {
            if are_at_the_end(ordered, occupied, names, at) {
                assert(0 <= at[0] < ordered.len());
            }
        }
    } else {
        let w = ordered.last();
        let n = ordered.len() - 1;
        let rest = ordered.drop_last();
        let free = w.name is None && !occupied.contains(w.id);
        let fewer = if free {
            names
        } else {
            names.drop_last()
        };
        in_order_is_at_the_end(rest, occupied, fewer);
        if in_parking_order(ordered, occupied, names) {
            let at = choose|at: Seq<int>| #[trigger] are_at_the_end(rest, occupied, fewer, at);
            let all = if free {
                at
            } else {
                at.push(n)
            };
            assert forall|k: int| 0 <= k < all.len() implies 0 <= #[trigger] all[k]
                < ordered.len() && ordered[all[k]].name == Some(names[k]) by {
                if k < at.len() {
                    assert(all[k] == at[k]);
                    assert(rest[at[k]] == ordered[at[k]]);
                }
            }
            assert forall|k: int, l: int| 0 <= k < l < all.len() implies #[trigger] all[k]
                < #[trigger] all[l] by {
                assert(all[k] == at[k]);
                if l < at.len() {
                    assert(all[l] == at[l]);
                }
            }
            assert forall|i: int|
                all.len() > 0 && all[0] < i < ordered.len() && !all.contains(i) implies (
            #[trigger] ordered[i]).name is None && !occupied.contains(ordered[i].id) by {
                if i < n {
                    assert(rest[i] == ordered[i]);
                    assert(at.len() > 0) by {
                        if at.len() == 0 {
                            assert(all[0] == n);
                        }
                    }
                    assert(all[0] == at[0]);
                    assert(!at.contains(i)) by {
                        if at.contains(i) {
                            let k = choose|k: int| 0 <= k < at.len() && at[k] == i;
                            assert(all[k] == i);
                        }
                    }
                } else if !free {
                    assert(all[at.len() as int] == n);
                }
            }
            assert(are_at_the_end(ordered, occupied, names, all));
        }
        if exists|at: Seq<int>| #[trigger] are_at_the_end(ordered, occupied, names, at) {
            let at = choose|at: Seq<int>| #[trigger] are_at_the_end(ordered, occupied, names, at);
            let last = at[at.len() - 1];
            if free {
                assert(last != n) by {
                    assert(ordered[at[at.len() - 1]].name == Some(names[at.len() - 1]));
                }
                assert forall|k: int| 0 <= k < at.len() implies 0 <= #[trigger] at[k]
                    < rest.len() && rest[at[k]].name == Some(names[k]) by {
                    if k < at.len() - 1 {
                        assert(at[k] < at[at.len() - 1]);
                    }
                    assert(rest[at[k]] == ordered[at[k]]);
                }
                assert forall|i: int|
                    at.len() > 0 && at[0] < i < rest.len() && !at.contains(i) implies (
                #[trigger] rest[i]).name is None && !occupied.contains(rest[i].id) by {
                    assert(rest[i] == ordered[i]);
                }
                assert(are_at_the_end(rest, occupied, fewer, at));
            } else {
                assert(last == n) by {
                    if last != n {
                        assert(!at.contains(n)) by {
                            if at.contains(n) {
                                let k = choose|k: int| 0 <= k < at.len() && at[k] == n;
                                if k < at.len() - 1 {
                                    assert(at[k] < at[at.len() - 1]);
                                }
                            }
                        }
                        if at.len() > 1 {
                            assert(at[0] < at[at.len() - 1]);
                        }
                        assert(ordered[n].name is None);
                    }
                }
                assert(w.name == Some(names.last()));
                let front = at.drop_last();
                assert forall|k: int| 0 <= k < front.len() implies 0 <= #[trigger] front[k]
                    < rest.len() && rest[front[k]].name == Some(fewer[k]) by {
                    assert(front[k] == at[k]);
                    assert(at[k] < at[at.len() - 1]);
                    assert(rest[at[k]] == ordered[at[k]]);
                }
                assert forall|k: int, l: int| 0 <= k < l < front.len() implies #[trigger] front[k]
                    < #[trigger] front[l] by {
                    assert(at[k] < at[l]);
                }
                assert forall|i: int|
                    front.len() > 0 && front[0] < i < rest.len() && !front.contains(i) implies (
                #[trigger] rest[i]).name is None && !occupied.contains(rest[i].id) by {
                    assert(rest[i] == ordered[i]);
                    assert(front[0] == at[0]);
                    assert(!at.contains(i)) by {
                        if at.contains(i) {
                            let k = choose|k: int| 0 <= k < at.len() && at[k] == i;
                            assert(k < at.len() - 1);
                            assert(front[k] == i);
                        }
                    }
                }
                assert(are_at_the_end(rest, occupied, fewer, front));
            }
        }
    }
}

/// The name is that of a workspace of the strip.
pub open spec fn is_on_strip(ordered: Seq<WorkspaceModel>) -> spec_fn(Seq<char>) -> bool {
    |name: Seq<char>|
        exists|i: int| 0 <= i < ordered.len() && (#[trigger] ordered[i]).name == Some(name)
}

/// Of the names, those that a workspace of the strip has.
pub open spec fn are_on_strip(
    ordered: Seq<WorkspaceModel>,
    names: Seq<Seq<char>>,
    present: Seq<Seq<char>>,
) -> bool {
    lists::selects(names, is_on_strip(ordered), |name: Seq<char>| name, present)
}

/// Nothing moves on an output whose parking areas are at the end, or that has
/// none. Otherwise each parking area that the output has is moved, in the order
/// of the names, the first to just below the last workspace and each further
/// one a place further down.
pub proof fn parking_areas_move_to_the_end(
    ordered: Seq<WorkspaceModel>,
    occupied: Set<u64>,
    names: Seq<Seq<char>>,
)
    requires
        ordered.len() + names.len() <= usize::MAX,
    ensures
        ({
            let moves = output_moves(ordered, occupied, names);
            exists|present: Seq<Seq<char>>|
                {
                    &&& #[trigger] are_on_strip(ordered, names, present)
                    &&& present.len() == 0 || (exists|at: Seq<int>| #[trigger]
                        are_at_the_end(ordered, occupied, present, at)) ==> moves.len() == 0
                    &&& present.len() > 0 && (forall|at: Seq<int>|
                        !#[trigger] are_at_the_end(ordered, occupied, present, at)) ==> {
                        &&& moves.len() == present.len()
                        &&& forall|k: int|
                            0 <= k < moves.len() ==> (#[trigger] moves[k]).1 == ordered.len() + k
                        &&& forall|k: int, i: int|
                            0 <= k < moves.len() && #[trigger] super::parking::is_first_named(
                                ordered,
                                present[k],
                                i,
                            ) ==> (#[trigger] moves[k]).0 == ordered[i].id
                    }
                }
        }),
{
    let present = names.filter_map(hosted(ordered));
    let p = is_on_strip(ordered);
    let f = hosted(ordered);
    assert forall|name: Seq<char>| #[trigger] f(name) == if p(name) {
        Some(name)
    } else {
        None
    } by {
        let q = named(name);
        if lists::any(ordered, q) {
            let i = choose|i: int| 0 <= i < ordered.len() && q(#[trigger] ordered[i]);
            assert(ordered[i].name == Some(name));
        }
        if p(name) {
            let i = choose|i: int|
                0 <= i < ordered.len() && (#[trigger] ordered[i]).name == Some(name);
            assert(q(ordered[i]));
        }
    }
    lists::filtering_selects(names, f, p, |name: Seq<char>| name);
    assert(are_on_strip(ordered, names, present));
    in_order_is_at_the_end(ordered, occupied, present);
    let moves = output_moves(ordered, occupied, names);
    assert(present.len() <= names.len()) by {
        fewer_are_selected(names, p, |name: Seq<char>| name, present);
    }
    assert forall|k: int, i: int|
        0 <= k < moves.len() && #[trigger] super::parking::is_first_named(
            ordered,
            present[k],
            i,
        ) implies (#[trigger] moves[k]).0 == ordered[i].id by {
        super::parking::named_workspaces_are_found(ordered, present[k]);
    }
}

proof fn fewer_are_selected<A, B>(
    s: Seq<A>,
    p: spec_fn(A) -> bool,
    taken: spec_fn(A) -> B,
    r: Seq<B>,
)
    requires
        lists::selects(s, p, taken, r),
    ensures
        r.len() <= s.len(),
{
    let at = choose|at: Seq<int>| #[trigger]
        lists::places_of(s, p, at) && r.len() == at.len() && (forall|k: int|
            0 <= k < r.len() ==> #[trigger] r[k] == taken(s[at[k]]));
    increasing_places_are_few(at, at.len() as int, s.len() as int);
}

proof fn increasing_places_are_few(at: Seq<int>, k: int, n: int)
    requires
        0 <= k <= at.len(),
        forall|i: int| 0 <= i < at.len() ==> 0 <= #[trigger] at[i] < n,
        forall|i: int, j: int| 0 <= i < j < at.len() ==> #[trigger] at[i] < #[trigger] at[j],
    ensures
        k > 0 ==> at[k - 1] >= k - 1,
        k == at.len() ==> at.len() <= n || at.len() == 0,
    decreases k,
{
    if k > 1 {
        increasing_places_are_few(at, k - 1, n);
        assert(at[k - 2] < at[k - 1]);
    }
    if k == 1 {
        assert(0 <= at[0]);
    }
    if k == at.len() && k > 0 {
        assert(at[k - 1] < n);
    }
}

/// The strip of an output is made of the workspaces that are on it, top to
/// bottom.
pub proof fn a_strip_is_what_is_on_the_output(layout: Seq<WorkspaceModel>, output: Seq<char>)
    ensures
        forall|w: WorkspaceModel| #[trigger]
            ordered_on(layout, output).contains(w) <==> layout.contains(w) && w.output == Some(
                output,
            ),
        forall|i: int, j: int|
            0 <= i < j < ordered_on(layout, output).len() ==> ordered_on(layout, output)[i].idx
                <= ordered_on(layout, output)[j].idx,
        ordered_on(layout, output).to_multiset() == layout.filter(
            |w: WorkspaceModel| w.output == Some(output),
        ).to_multiset(),
    decreases layout.len(),
{
    broadcast use vstd::seq_lib::group_to_multiset_ensures;

    ordered_on_is_exact(layout, output);
    let p = |w: WorkspaceModel| w.output == Some(output);
    let strip = ordered_on(layout, output);
    if layout.len() == 0 {
        reveal(Seq::filter);
        assert(layout.filter(p) =~= Seq::empty());
    } else {
        let before = layout.drop_last();
        let w = layout.last();
        let rest = ordered_on(before, output);
        a_strip_is_what_is_on_the_output(before, output);
        ordered_on_is_exact(before, output);
        idx_rank_splits(rest, w.idx);
        let at = idx_rank(rest, w.idx) as int;
        assert(layout =~= before.push(w));
        before.lemma_filter_push(w, p);
        if w.output == Some(output) {
            assert(strip == rest.insert(at, w));
        }
        assert forall|x: WorkspaceModel| #[trigger]
            strip.contains(x) <==> layout.contains(x) && x.output == Some(output) by {
            assert(layout.contains(x) <==> before.contains(x) || x == w) by {
                if before.contains(x) {
                    let k = choose|k: int| 0 <= k < before.len() && before[k] == x;
                    assert(layout[k] == x);
                }
                if layout.contains(x) {
                    let k = choose|k: int| 0 <= k < layout.len() && layout[k] == x;
                    if k < before.len() {
                        assert(before[k] == x);
                    }
                }
                assert(layout[layout.len() - 1] == w);
            }
            if w.output == Some(output) {
                assert(strip[at] == w);
                if rest.contains(x) {
                    let k = choose|k: int| 0 <= k < rest.len() && rest[k] == x;
                    if k < at {
                        assert(strip[k] == x);
                    } else {
                        assert(strip[k + 1] == x);
                    }
                }
                if strip.contains(x) {
                    let k = choose|k: int| 0 <= k < strip.len() && strip[k] == x;
                    if k < at {
                        assert(rest[k] == x);
                    } else if k > at {
                        assert(rest[k - 1] == x);
                    }
                }
            }
        }
    }
}

/// The moves of several outputs are those of the first ones, with those of the
/// others behind them; the moves of one output are those of its strip. All the
/// moves are those of every output that has a workspace, each output once, in
/// alphabetical order.
pub proof fn moves_go_output_by_output(
    layout: Seq<WorkspaceModel>,
    occupied: Set<u64>,
    names: Seq<Seq<char>>,
    first: Seq<Seq<char>>,
    second: Seq<Seq<char>>,
    output: Seq<char>,
)
    ensures
        moves_of(layout, occupied, names, first + second) == moves_of(
            layout,
            occupied,
            names,
            first,
        ) + moves_of(layout, occupied, names, second),
        moves_of(layout, occupied, names, seq![output]) == output_moves(
            ordered_on(layout, output),
            occupied,
            names,
        ),
        exists|over: Seq<Seq<char>>|
            {
                &&& parking_moves(layout, occupied, names) == #[trigger] moves_of(
                    layout,
                    occupied,
                    names,
                    over,
                )
                &&& forall|i: int, j: int|
                    0 <= i < j < over.len() ==> text::before(over[i], over[j])
                &&& forall|x: Seq<char>| #[trigger]
                    over.contains(x) <==> super::pins::is_plugged(layout, x)
            },
    decreases second.len(),
{
    let all = first + second;
    if second.len() > 0 {
        moves_go_output_by_output(layout, occupied, names, first, second.drop_last(), output);
        assert(all.drop_last() =~= first + second.drop_last());
        assert(all.last() == second.last());
        assert(moves_of(layout, occupied, names, all) =~= moves_of(layout, occupied, names, first)
            + moves_of(layout, occupied, names, second));
    } else {
        assert(all =~= first);
        assert(moves_of(layout, occupied, names, all) =~= moves_of(layout, occupied, names, first)
            + moves_of(layout, occupied, names, second));
    }
    let one = seq![output];
    assert(one.drop_last() =~= Seq::empty());
    assert(moves_of(layout, occupied, names, one) =~= output_moves(
        ordered_on(layout, output),
        occupied,
        names,
    )) by {
        reveal_with_fuel(moves_of, 2);
    }
    outputs_are_listed_once_in_order(layout);
    let over = outputs(layout);
    assert forall|x: Seq<char>| #[trigger]
        over.contains(x) <==> super::pins::is_plugged(layout, x) by {
        let p = on_output(x);
        if over.contains(x) {
            let i = choose|i: int| 0 <= i < layout.len() && p(#[trigger] layout[i]);
            assert(layout[i].output == Some(x));
        }
        if super::pins::is_plugged(layout, x) {
            let i = choose|i: int| 0 <= i < layout.len() && (#[trigger] layout[i]).output == Some(
                x,
            );
            assert(p(layout[i]));
        }
    }
    assert(parking_moves(layout, occupied, names) == moves_of(layout, occupied, names, over));
}

/// Every move is asked for, in its order, also after one that was refused.
pub proof fn every_move_is_asked_for(talk: Conv, moves: Seq<(u64, usize)>)
    requires
        talk.answers.len() >= moves.len(),
    ensures
        ({
            let r = move_each(talk, moves);
            &&& r.out == Some(Ok::<(), Chain>(()))
            &&& r.talk.asked == talk.asked + Seq::new(
                moves.len(),
                |k: int|
                    ActionModel::MoveWorkspaceToIndex {
                        workspace_id: moves[k].0,
                        index: moves[k].1,
                    },
            )
        }),
    decreases moves.len(),
{
    let wanted = Seq::new(
        moves.len(),
        |k: int|
            ActionModel::MoveWorkspaceToIndex { workspace_id: moves[k].0, index: moves[k].1 },
    );
    if moves.len() == 0 {
        assert(talk.asked + wanted =~= talk.asked);
    } else {
        let question = ActionModel::MoveWorkspaceToIndex {
            workspace_id: moves[0].0,
            index: moves[0].1,
        };
        let next = talk.ask(question);
        every_move_is_asked_for(next, moves.drop_first());
        assert(move_each(talk, moves).talk.asked =~= talk.asked + wanted);
    }
}

/// The workspaces and the windows are looked up, and both parking areas, the
/// scratchpad area above the stage, are brought to the end of their output by
/// the moves that this takes.
pub proof fn both_parking_areas_are_kept_at_the_end(
    talk: Conv,
    logic: LogicModel,
    layout: Seq<WorkspaceModel>,
    windows: Seq<WindowModel>,
)
    requires
        ({
            let moves = parking_moves(
                layout,
                occupied_by(windows),
                seq![logic.config.scratchpad_workspace, logic.config.stage_workspace],
            );
            &&& talk.answers.len() >= 2 + moves.len()
            &&& talk.answers[0] == ReplyModel::Workspaces(layout)
            &&& talk.answers[1] == ReplyModel::Windows(windows)
        }),
    ensures
        ({
            let moves = parking_moves(
                layout,
                occupied_by(windows),
                seq![logic.config.scratchpad_workspace, logic.config.stage_workspace],
            );
            let r = ask_parking_order(talk, logic);
            &&& r.out == Some(Ok::<(), Chain>(()))
            &&& r.talk.asked == talk.asked + seq![ActionModel::Workspaces, ActionModel::Windows]
                + Seq::new(
                moves.len(),
                |k: int|
                    ActionModel::MoveWorkspaceToIndex {
                        workspace_id: moves[k].0,
                        index: moves[k].1,
                    },
            )
        }),
{
    reveal(ask_parking_order);
    let moves = parking_moves(
        layout,
        occupied_by(windows),
        seq![logic.config.scratchpad_workspace, logic.config.stage_workspace],
    );
    let one = talk.ask(ActionModel::Workspaces);
    let two = one.ask(ActionModel::Windows);
    assert(one.answers[0] == talk.answers[1]);
    assert(two.asked =~= talk.asked + seq![ActionModel::Workspaces, ActionModel::Windows]);
    every_move_is_asked_for(two, moves);
}

} // verus!
