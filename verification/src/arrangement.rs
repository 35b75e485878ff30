//! What the moves of the parking areas come to over a whole layout.
use vstd::prelude::*;
use crate::lists;
use crate::niri::WorkspaceModel;
use crate::pinning::{
    brought, carried, distinct, hosted, idx_rank, idx_rank_splits, in_parking_order, in_text_order,
    moves_of, named, nothing_moves_once_in_order, on_output, ordered_on, ordered_on_is_exact,
    output_moves, output_of, output_of_member, outputs, outputs_are_listed_once_in_order,
    parking_moves, present_names, the_moves_bring_the_areas_to_the_end, with_id,
};
use crate::text;

verus! {

/// No two workspaces of an output have the same index.
pub open spec fn distinct_on_outputs(layout: Seq<WorkspaceModel>) -> bool {
    forall|i: int, j: int|
        0 <= i < j < layout.len() && layout[i].output is Some && layout[i].output
            == layout[j].output ==> layout[i].idx != layout[j].idx
}

// Sorted sequences.

proof fn same_sorted_texts(a: Seq<Seq<char>>, b: Seq<Seq<char>>)
    requires
        in_text_order(a),
        in_text_order(b),
        forall|x: Seq<char>| a.contains(x) <==> b.contains(x),
    ensures
        a == b,
    decreases a.len(),
{
    if a.len() == 0 {
        if b.len() > 0 {
            assert(b.contains(b[0]));
            assert(a.contains(b[0]));
        }
        assert(a =~= b);
    } else {
        let x = a.last();
        assert(a[a.len() - 1] == x);
        assert(a.contains(x));
        let j = choose|j: int| 0 <= j < b.len() && b[j] == x;
        let y = b.last();
        assert(b[b.len() - 1] == y);
        assert(b.contains(y));
        let i = choose|i: int| 0 <= i < a.len() && a[i] == y;
        text::before_is_irreflexive(x);
        if x != y {
            assert(text::before(b[j], b[b.len() - 1]));
            assert(text::before(a[i], a[a.len() - 1]));
            text::before_is_transitive(x, y, x);
        }
        let rest = a.drop_last();
        let others = b.drop_last();
        assert forall|z: Seq<char>| rest.contains(z) <==> others.contains(z) by {
            if rest.contains(z) {
                let k = choose|k: int| 0 <= k < rest.len() && rest[k] == z;
                assert(text::before(a[k], a[a.len() - 1]));
                assert(a.contains(a[k]));
                let m = choose|m: int| 0 <= m < b.len() && b[m] == z;
                assert(others[m] == z);
            }
            if others.contains(z) {
                let k = choose|k: int| 0 <= k < others.len() && others[k] == z;
                assert(text::before(b[k], b[b.len() - 1]));
                assert(b.contains(b[k]));
                let m = choose|m: int| 0 <= m < a.len() && a[m] == z;
                assert(rest[m] == z);
            }
        }
        same_sorted_texts(rest, others);
        assert(a =~= rest.push(x));
        assert(b =~= others.push(x));
    }
}

/// Each workspace is above those after it.
spec fn top_to_bottom(strip: Seq<WorkspaceModel>) -> bool {
    forall|i: int, j: int| 0 <= i < j < strip.len() ==> strip[i].idx < strip[j].idx
}

proof fn same_strips(a: Seq<WorkspaceModel>, b: Seq<WorkspaceModel>)
    requires
        top_to_bottom(a),
        top_to_bottom(b),
        forall|w: WorkspaceModel| a.contains(w) <==> b.contains(w),
    ensures
        a == b,
    decreases a.len(),
{
    if a.len() == 0 {
        if b.len() > 0 {
            assert(b.contains(b[0]));
            assert(a.contains(b[0]));
        }
        assert(a =~= b);
    } else {
        let x = a.last();
        assert(a[a.len() - 1] == x);
        assert(a.contains(x));
        let j = choose|j: int| 0 <= j < b.len() && b[j] == x;
        let y = b.last();
        assert(b[b.len() - 1] == y);
        assert(b.contains(y));
        let i = choose|i: int| 0 <= i < a.len() && a[i] == y;
        if x != y {
            assert(b[j].idx < b[b.len() - 1].idx);
            assert(a[i].idx < a[a.len() - 1].idx);
        }
        let rest = a.drop_last();
        let others = b.drop_last();
        assert forall|z: WorkspaceModel| rest.contains(z) <==> others.contains(z) by {
            if rest.contains(z) {
                let k = choose|k: int| 0 <= k < rest.len() && rest[k] == z;
                assert(a[k].idx < a[a.len() - 1].idx);
                assert(a.contains(a[k]));
                let m = choose|m: int| 0 <= m < b.len() && b[m] == z;
                assert(others[m] == z);
            }
            if others.contains(z) {
                let k = choose|k: int| 0 <= k < others.len() && others[k] == z;
                assert(b[k].idx < b[b.len() - 1].idx);
                assert(b.contains(b[k]));
                let m = choose|m: int| 0 <= m < a.len() && a[m] == z;
                assert(rest[m] == z);
            }
        }
        same_strips(rest, others);
        assert(a =~= rest.push(x));
        assert(b =~= others.push(x));
    }
}

// The strip of an output.

proof fn a_strip_goes_top_to_bottom(layout: Seq<WorkspaceModel>, output: Seq<char>)
    requires
        distinct_on_outputs(layout),
    ensures
        top_to_bottom(ordered_on(layout, output)),
        forall|w: WorkspaceModel| #[trigger]
            ordered_on(layout, output).contains(w) <==> layout.contains(w) && w.output == Some(
                output,
            ),
    decreases layout.len(),
{
    let strip = ordered_on(layout, output);
    if layout.len() > 0 {
        let before = layout.drop_last();
        let rest = ordered_on(before, output);
        let w = layout.last();
        let n = layout.len() - 1;
        assert(layout[n] == w);
        assert forall|i: int, j: int|
            0 <= i < j < before.len() && before[i].output is Some && before[i].output
                == before[j].output implies before[i].idx != before[j].idx by {
            assert(layout[i].idx != layout[j].idx);
        }
        a_strip_goes_top_to_bottom(before, output);
        ordered_on_is_exact(before, output);
        let at = idx_rank(rest, w.idx) as int;
        idx_rank_splits(rest, w.idx);
        if w.output == Some(output) {
            assert(strip == rest.insert(at, w));
            assert forall|i: int| 0 <= i < rest.len() implies (#[trigger] rest[i]).idx
                != w.idx by {
                assert(rest.contains(rest[i]));
                let k = choose|k: int| 0 <= k < before.len() && before[k] == rest[i];
                assert(layout[k].idx != layout[n].idx);
            }
            assert forall|i: int, j: int| 0 <= i < j < strip.len() implies strip[i].idx
                < strip[j].idx by {
                if i < at {
                    assert(strip[i] == rest[i]);
                } else if i > at {
                    assert(strip[i] == rest[i - 1]);
                }
                if j < at {
                    assert(strip[j] == rest[j]);
                } else if j > at {
                    assert(strip[j] == rest[j - 1]);
                }
            }
        }
        assert forall|x: WorkspaceModel| #[trigger] strip.contains(x) <==> layout.contains(x)
            && x.output == Some(output) by {
            assert(rest.contains(x) <==> before.contains(x) && x.output == Some(output));
            if layout.contains(x) {
                let k = choose|k: int| 0 <= k < layout.len() && layout[k] == x;
                if k < n {
                    assert(before[k] == x);
                }
            }
            if before.contains(x) {
                let k = choose|k: int| 0 <= k < before.len() && before[k] == x;
                assert(layout[k] == x);
            }
            if w.output == Some(output) {
                if rest.contains(x) {
                    let k = choose|k: int| 0 <= k < rest.len() && rest[k] == x;
                    assert(strip[if k < at {
                        k
                    } else {
                        k + 1
                    }] == x);
                }
                if x == w {
                    assert(strip[at] == x);
                }
                if strip.contains(x) && x != w {
                    let k = choose|k: int| 0 <= k < strip.len() && strip[k] == x;
                    assert(rest[if k < at {
                        k
                    } else {
                        k - 1
                    }] == x);
                }
            }
        }
    }
}

proof fn a_strip_has_distinct_ids(layout: Seq<WorkspaceModel>, output: Seq<char>)
    requires
        distinct(layout),
        distinct_on_outputs(layout),
    ensures
        distinct(ordered_on(layout, output)),
{
    let strip = ordered_on(layout, output);
    a_strip_goes_top_to_bottom(layout, output);
    assert forall|i: int, j: int| 0 <= i < j < strip.len() implies strip[i].id != strip[j].id by {
        assert(strip.contains(strip[i]) && strip.contains(strip[j]));
        let k = choose|k: int| 0 <= k < layout.len() && layout[k] == strip[i];
        let m = choose|m: int| 0 <= m < layout.len() && layout[m] == strip[j];
        assert(strip[i].idx < strip[j].idx);
        if k < m {
            assert(layout[k].id != layout[m].id);
        } else {
            assert(layout[m].id != layout[k].id);
        }
    }
}

// The order of a listing.

proof fn twice_is_counted_twice(s: Seq<WorkspaceModel>, i: int, j: int)
    requires
        0 <= i < j < s.len(),
        s[i] == s[j],
    ensures
        s.to_multiset().count(s[i]) >= 2,
{
    broadcast use vstd::multiset::group_multiset_axioms;

    s.to_multiset_ensures();
    let rest = s.remove(i);
    rest.to_multiset_ensures();
    assert(rest.to_multiset() =~= s.to_multiset().remove(s[i]));
    assert(rest[j - 1] == s[j]);
    assert(rest.contains(s[i]));
    assert(rest.to_multiset().count(s[i]) > 0);
    assert(s.contains(s[i]));
}

proof fn counted_twice_is_twice(s: Seq<WorkspaceModel>, w: WorkspaceModel)
    requires
        s.to_multiset().count(w) >= 2,
    ensures
        exists|i: int, j: int| 0 <= i < j < s.len() && #[trigger] s[i] == w && #[trigger] s[j] == w,
{
    broadcast use vstd::multiset::group_multiset_axioms;

    s.to_multiset_ensures();
    assert(s.contains(w));
    let i = choose|i: int| 0 <= i < s.len() && s[i] == w;
    let rest = s.remove(i);
    rest.to_multiset_ensures();
    assert(rest.to_multiset() =~= s.to_multiset().remove(w));
    assert(rest.to_multiset().count(w) > 0);
    assert(rest.contains(w));
    let k = choose|k: int| 0 <= k < rest.len() && rest[k] == w;
    if k < i {
        assert(s[k] == w && s[i] == w);
    } else {
        assert(s[i] == w && s[k + 1] == w);
    }
}

proof fn reordering_keeps_indices_apart(a: Seq<WorkspaceModel>, b: Seq<WorkspaceModel>)
    requires
        a.to_multiset() == b.to_multiset(),
        distinct_on_outputs(a),
    ensures
        distinct_on_outputs(b),
        forall|w: WorkspaceModel| a.contains(w) <==> b.contains(w),
{
    a.to_multiset_ensures();
    b.to_multiset_ensures();
    assert forall|i: int, j: int|
        0 <= i < j < b.len() && b[i].output is Some && b[i].output == b[j].output implies b[i].idx
        != b[j].idx by {
        if b[i] == b[j] {
            twice_is_counted_twice(b, i, j);
            counted_twice_is_twice(a, b[i]);
        } else {
            assert(b.contains(b[i]) && b.contains(b[j]));
            assert(a.to_multiset().count(b[i]) > 0 && a.to_multiset().count(b[j]) > 0);
            let k = choose|k: int| 0 <= k < a.len() && a[k] == b[i];
            let m = choose|m: int| 0 <= m < a.len() && a[m] == b[j];
            if k < m {
                assert(a[k].idx != a[m].idx);
            } else {
                assert(a[m].idx != a[k].idx);
            }
        }
    }
    assert forall|w: WorkspaceModel| a.contains(w) <==> b.contains(w) by {
        assert(a.contains(w) <==> a.to_multiset().count(w) > 0);
        assert(b.contains(w) <==> b.to_multiset().count(w) > 0);
    }
}

proof fn same_outputs(a: Seq<WorkspaceModel>, b: Seq<WorkspaceModel>)
    requires
        forall|output: Seq<char>|
            lists::any(a, #[trigger] on_output(output)) <==> lists::any(b, on_output(output)),
    ensures
        outputs(a) == outputs(b),
{
    outputs_are_listed_once_in_order(a);
    outputs_are_listed_once_in_order(b);
    assert forall|x: Seq<char>| outputs(a).contains(x) <==> outputs(b).contains(x) by {
        assert(lists::any(a, on_output(x)) <==> lists::any(b, on_output(x)));
    }
    same_sorted_texts(outputs(a), outputs(b));
}

proof fn same_moves(
    a: Seq<WorkspaceModel>,
    b: Seq<WorkspaceModel>,
    occupied: Set<u64>,
    names: Seq<Seq<char>>,
    over: Seq<Seq<char>>,
)
    requires
        forall|output: Seq<char>| #[trigger] ordered_on(a, output) == ordered_on(b, output),
    ensures
        moves_of(a, occupied, names, over) == moves_of(b, occupied, names, over),
    decreases over.len(),
{
    if over.len() > 0 {
        same_moves(a, b, occupied, names, over.drop_last());
        assert(ordered_on(a, over.last()) == ordered_on(b, over.last()));
    }
}

/// The moves depend on the layout, not on the order in which its workspaces are
/// listed.
pub proof fn the_order_of_a_listing_does_not_matter(
    layout: Seq<WorkspaceModel>,
    reordered: Seq<WorkspaceModel>,
    occupied: Set<u64>,
    names: Seq<Seq<char>>,
)
    requires
        layout.to_multiset() == reordered.to_multiset(),
        distinct_on_outputs(layout),
    ensures
        parking_moves(layout, occupied, names) == parking_moves(reordered, occupied, names),
{
    reordering_keeps_indices_apart(layout, reordered);
    assert forall|output: Seq<char>|
        lists::any(layout, #[trigger] on_output(output)) <==> lists::any(
            reordered,
            on_output(output),
        ) by {
        let p = on_output(output);
        if lists::any(layout, p) {
            let k = choose|k: int| 0 <= k < layout.len() && p(#[trigger] layout[k]);
            assert(layout.contains(layout[k]));
            let m = choose|m: int| 0 <= m < reordered.len() && reordered[m] == layout[k];
            assert(p(reordered[m]));
        }
        if lists::any(reordered, p) {
            let k = choose|k: int| 0 <= k < reordered.len() && p(#[trigger] reordered[k]);
            assert(reordered.contains(reordered[k]));
            let m = choose|m: int| 0 <= m < layout.len() && layout[m] == reordered[k];
            assert(p(layout[m]));
        }
    }
    same_outputs(layout, reordered);
    assert forall|output: Seq<char>| #[trigger] ordered_on(layout, output) == ordered_on(
        reordered,
        output,
    ) by {
        a_strip_goes_top_to_bottom(layout, output);
        a_strip_goes_top_to_bottom(reordered, output);
        same_strips(ordered_on(layout, output), ordered_on(reordered, output));
    }
    same_moves(layout, reordered, occupied, names, outputs(layout));
}

// Every move made.

/// The position of a workspace in a strip, counted from one.
pub open spec fn place(strip: Seq<WorkspaceModel>, id: u64) -> u8 {
    ((choose|k: int| 0 <= k < strip.len() && with_id(id)(#[trigger] strip[k])) + 1) as u8
}

/// The layout in which the workspaces of an output stand in the order of a strip.
pub open spec fn renumbered(
    layout: Seq<WorkspaceModel>,
    output: Seq<char>,
    strip: Seq<WorkspaceModel>,
) -> Seq<WorkspaceModel> {
    layout.map_values(
        |w: WorkspaceModel|
            if w.output == Some(output) {
                WorkspaceModel { idx: place(strip, w.id), ..w }
            } else {
                w
            },
    )
}

/// The layout after a workspace was moved to a position of its output: it is
/// taken out of the strip there and put back at that position, counted from one,
/// or at the end where the position lies behind it, and the strip is numbered
/// anew.
pub open spec fn rearranged(layout: Seq<WorkspaceModel>, id: u64, index: usize) -> Seq<
    WorkspaceModel,
> {
    match output_of(layout, id) {
        Some(output) => renumbered(
            layout,
            output,
            brought(ordered_on(layout, output), id, index),
        ),
        None => layout,
    }
}

/// The layout after some moves, one after the other.
pub open spec fn all_rearranged(layout: Seq<WorkspaceModel>, moves: Seq<(u64, usize)>) -> Seq<
    WorkspaceModel,
>
    decreases moves.len(),
{
    if moves.len() == 0 {
        layout
    } else {
        rearranged(all_rearranged(layout, moves.drop_last()), moves.last().0, moves.last().1)
    }
}

/// No output has more workspaces than there are positions.
pub open spec fn fits(layout: Seq<WorkspaceModel>) -> bool {
    forall|output: Seq<char>| (#[trigger] ordered_on(layout, output)).len() <= u8::MAX
}

/// The same workspaces on the same outputs, but for their positions.
spec fn same_but_positions(a: Seq<WorkspaceModel>, b: Seq<WorkspaceModel>) -> bool {
    &&& a.len() == b.len()
    &&& forall|i: int|
        0 <= i < a.len() ==> {
            &&& (#[trigger] a[i]).id == b[i].id
            &&& a[i].name == b[i].name
            &&& a[i].output == b[i].output
        }
}

/// A layout in which each workspace has a position of its own.
spec fn is_sound(layout: Seq<WorkspaceModel>) -> bool {
    &&& distinct(layout)
    &&& distinct_on_outputs(layout)
    &&& fits(layout)
}

/// The same workspaces one after the other.
spec fn alike(a: Seq<WorkspaceModel>, b: Seq<WorkspaceModel>) -> bool {
    &&& a.len() == b.len()
    &&& forall|i: int|
        0 <= i < a.len() ==> (#[trigger] a[i]).id == b[i].id && a[i].name == b[i].name
}

/// Some workspace of the output has this id.
spec fn hosts(layout: Seq<WorkspaceModel>, output: Seq<char>, id: u64) -> bool {
    exists|i: int|
        0 <= i < layout.len() && (#[trigger] layout[i]).id == id && layout[i].output == Some(output)
}

proof fn bringing_keeps_the_workspaces(strip: Seq<WorkspaceModel>, id: u64, index: usize)
    requires
        distinct(strip),
    ensures
        brought(strip, id, index).len() == strip.len(),
        distinct(brought(strip, id, index)),
        forall|w: WorkspaceModel| #[trigger]
            brought(strip, id, index).contains(w) <==> strip.contains(w),
{
    if lists::any(strip, with_id(id)) {
        let at = choose|at: int| 0 <= at < strip.len() && with_id(id)(#[trigger] strip[at]);
        let rest = strip.remove(at);
        let to: int = if index <= rest.len() {
            if index > 0 {
                index - 1
            } else {
                0
            }
        } else {
            rest.len() as int
        };
        let moved = brought(strip, id, index);
        assert(moved =~= rest.insert(to, strip[at]));
        let source = |i: int| -> int
            {
                if i == to {
                    at
                } else {
                    let k = if i < to {
                        i
                    } else {
                        i - 1
                    };
                    if k < at {
                        k
                    } else {
                        k + 1
                    }
                }
            };
        assert forall|i: int| 0 <= i < moved.len() implies {
            &&& 0 <= #[trigger] source(i) < strip.len()
            &&& moved[i] == strip[source(i)]
        } by {}
        assert forall|i: int, j: int| 0 <= i < j < moved.len() implies moved[i].id
            != moved[j].id by {
            let a = source(i);
            let b = source(j);
            assert(a != b);
            if a < b {
                assert(strip[a].id != strip[b].id);
            } else {
                assert(strip[b].id != strip[a].id);
            }
        }
        assert forall|w: WorkspaceModel| #[trigger] moved.contains(w) <==> strip.contains(w) by {
            if moved.contains(w) {
                let i = choose|i: int| 0 <= i < moved.len() && moved[i] == w;
                assert(strip[source(i)] == w);
            }
            if strip.contains(w) {
                let k = choose|k: int| 0 <= k < strip.len() && strip[k] == w;
                let m = if k < at {
                    k
                } else {
                    k - 1
                };
                if k == at {
                    assert(moved[to] == w);
                } else if m < to {
                    assert(moved[m] == w);
                } else {
                    assert(moved[m + 1] == w);
                }
            }
        }
    }
}

proof fn bringing_alike_strips(
    a: Seq<WorkspaceModel>,
    b: Seq<WorkspaceModel>,
    id: u64,
    index: usize,
)
    requires
        alike(a, b),
        distinct(b),
    ensures
        alike(brought(a, id, index), brought(b, id, index)),
{
    if lists::any(a, with_id(id)) {
        let i = choose|i: int| 0 <= i < a.len() && with_id(id)(#[trigger] a[i]);
        assert(with_id(id)(b[i]));
        let j = choose|j: int| 0 <= j < b.len() && with_id(id)(#[trigger] b[j]);
        if i < j {
            assert(b[i].id != b[j].id);
        } else if j < i {
            assert(b[j].id != b[i].id);
        }
    } else if lists::any(b, with_id(id)) {
        let j = choose|j: int| 0 <= j < b.len() && with_id(id)(#[trigger] b[j]);
        assert(with_id(id)(a[j]));
    }
}

proof fn placed_where_it_is(strip: Seq<WorkspaceModel>, k: int)
    requires
        distinct(strip),
        0 <= k < strip.len(),
        strip.len() <= u8::MAX,
    ensures
        place(strip, strip[k].id) == k + 1,
{
    let id = strip[k].id;
    assert(with_id(id)(strip[k]));
    let at = choose|at: int| 0 <= at < strip.len() && with_id(id)(#[trigger] strip[at]);
    if at < k {
        assert(strip[at].id != strip[k].id);
    } else if k < at {
        assert(strip[k].id != strip[at].id);
    }
}

proof fn one_rearrangement(layout: Seq<WorkspaceModel>, output: Seq<char>, id: u64, index: usize)
    requires
        is_sound(layout),
        hosts(layout, output, id),
    ensures
        is_sound(rearranged(layout, id, index)),
        same_but_positions(layout, rearranged(layout, id, index)),
        alike(
            ordered_on(rearranged(layout, id, index), output),
            brought(ordered_on(layout, output), id, index),
        ),
        forall|other: Seq<char>|
            other != output ==> #[trigger] ordered_on(rearranged(layout, id, index), other)
                == ordered_on(layout, other),
{
    let at = choose|at: int|
        0 <= at < layout.len() && (#[trigger] layout[at]).id == id && layout[at].output == Some(
            output,
        );
    output_of_member(layout, at);
    let strip = ordered_on(layout, output);
    let moved = brought(strip, id, index);
    let next = rearranged(layout, id, index);
    assert(next == renumbered(layout, output, moved));
    a_strip_goes_top_to_bottom(layout, output);
    a_strip_has_distinct_ids(layout, output);
    bringing_keeps_the_workspaces(strip, id, index);
    assert(moved.len() <= u8::MAX);
    // Where each workspace of the output goes.
    assert forall|i: int| 0 <= i < layout.len() && (#[trigger] layout[i]).output == Some(
        output,
    ) implies exists|k: int|
        0 <= k < moved.len() && #[trigger] moved[k] == layout[i] && next[i].idx == k + 1 by {
        assert(layout.contains(layout[i]));
        assert(strip.contains(layout[i]));
        assert(moved.contains(layout[i]));
        let k = choose|k: int| 0 <= k < moved.len() && moved[k] == layout[i];
        placed_where_it_is(moved, k);
    }
    assert forall|i: int, j: int| 0 <= i < j < next.len() implies next[i].id != next[j].id by {
        assert(layout[i].id != layout[j].id);
    }
    assert forall|i: int, j: int|
        0 <= i < j < next.len() && next[i].output is Some && next[i].output
            == next[j].output implies next[i].idx != next[j].idx by {
        assert(layout[i].idx != layout[j].idx);
        assert(layout[i].id != layout[j].id);
        if layout[i].output == Some(output) {
            let k = choose|k: int|
                0 <= k < moved.len() && #[trigger] moved[k] == layout[i] && next[i].idx == k + 1;
            let m = choose|m: int|
                0 <= m < moved.len() && #[trigger] moved[m] == layout[j] && next[j].idx == m + 1;
            assert(k != m);
        }
    }
    // The output itself.
    let numbered = Seq::new(
        moved.len(),
        |k: int| WorkspaceModel { idx: (k + 1) as u8, ..moved[k] },
    );
    a_strip_goes_top_to_bottom(next, output);
    assert forall|w: WorkspaceModel| ordered_on(next, output).contains(w) <==> numbered.contains(
        w,
    ) by {
        if ordered_on(next, output).contains(w) {
            assert(next.contains(w));
            let i = choose|i: int| 0 <= i < next.len() && next[i] == w;
            let k = choose|k: int|
                0 <= k < moved.len() && #[trigger] moved[k] == layout[i] && next[i].idx == k + 1;
            assert(numbered[k] == w);
        }
        if numbered.contains(w) {
            let k = choose|k: int| 0 <= k < numbered.len() && numbered[k] == w;
            assert(moved.contains(moved[k]));
            assert(strip.contains(moved[k]));
            let i = choose|i: int| 0 <= i < layout.len() && layout[i] == moved[k];
            let m = choose|m: int|
                0 <= m < moved.len() && #[trigger] moved[m] == layout[i] && next[i].idx == m + 1;
            if m < k {
                assert(moved[m].id != moved[k].id);
            } else if k < m {
                assert(moved[k].id != moved[m].id);
            }
            assert(next[i] == w);
            assert(next.contains(w));
        }
    }
    same_strips(ordered_on(next, output), numbered);
    // The other outputs.
    assert forall|other: Seq<char>| other != output implies #[trigger] ordered_on(next, other)
        == ordered_on(layout, other) by {
        a_strip_goes_top_to_bottom(next, other);
        a_strip_goes_top_to_bottom(layout, other);
        assert forall|w: WorkspaceModel| ordered_on(next, other).contains(w) <==> ordered_on(
            layout,
            other,
        ).contains(w) by {
            if w.output == Some(other) && next.contains(w) {
                let i = choose|i: int| 0 <= i < next.len() && next[i] == w;
                assert(layout[i] == w);
            }
            if w.output == Some(other) && layout.contains(w) {
                let i = choose|i: int| 0 <= i < layout.len() && layout[i] == w;
                assert(next[i] == w);
            }
        }
        same_strips(ordered_on(next, other), ordered_on(layout, other));
    }
    assert forall|other: Seq<char>| (#[trigger] ordered_on(next, other)).len() <= u8::MAX by {
        assert(ordered_on(layout, other).len() <= u8::MAX);
        if other == output {
            assert(ordered_on(next, other).len() == moved.len());
        }
    }
}

proof fn carrying_keeps_the_workspaces(strip: Seq<WorkspaceModel>, moves: Seq<(u64, usize)>)
    requires
        distinct(strip),
    ensures
        distinct(carried(strip, moves)),
        forall|w: WorkspaceModel| #[trigger]
            carried(strip, moves).contains(w) <==> strip.contains(w),
    decreases moves.len(),
{
    if moves.len() > 0 {
        carrying_keeps_the_workspaces(strip, moves.drop_last());
        bringing_keeps_the_workspaces(
            carried(strip, moves.drop_last()),
            moves.last().0,
            moves.last().1,
        );
        assert forall|w: WorkspaceModel| #[trigger]
            carried(strip, moves).contains(w) <==> strip.contains(w) by {
            assert(carried(strip, moves.drop_last()).contains(w) <==> strip.contains(w));
        }
    }
}

proof fn one_output_rearranged(
    layout: Seq<WorkspaceModel>,
    output: Seq<char>,
    moves: Seq<(u64, usize)>,
)
    requires
        is_sound(layout),
        forall|k: int| 0 <= k < moves.len() ==> hosts(layout, output, (#[trigger] moves[k]).0),
    ensures
        is_sound(all_rearranged(layout, moves)),
        same_but_positions(layout, all_rearranged(layout, moves)),
        alike(
            ordered_on(all_rearranged(layout, moves), output),
            carried(ordered_on(layout, output), moves),
        ),
        forall|other: Seq<char>|
            other != output ==> #[trigger] ordered_on(all_rearranged(layout, moves), other)
                == ordered_on(layout, other),
    decreases moves.len(),
{
    if moves.len() > 0 {
        let before = moves.drop_last();
        let (id, index) = moves.last();
        assert forall|k: int| 0 <= k < before.len() implies hosts(
            layout,
            output,
            (#[trigger] before[k]).0,
        ) by {
            assert(before[k] == moves[k]);
        }
        one_output_rearranged(layout, output, before);
        let half = all_rearranged(layout, before);
        assert(moves[moves.len() - 1] == moves.last());
        assert(hosts(half, output, id)) by {
            let i = choose|i: int|
                0 <= i < layout.len() && (#[trigger] layout[i]).id == id && layout[i].output
                    == Some(output);
            assert(half[i].id == id && half[i].output == Some(output));
        }
        one_rearrangement(half, output, id, index);
        let strip = ordered_on(layout, output);
        a_strip_has_distinct_ids(layout, output);
        carrying_keeps_the_workspaces(strip, before);
        bringing_alike_strips(ordered_on(half, output), carried(strip, before), id, index);
        let whole = all_rearranged(layout, moves);
        assert forall|i: int| 0 <= i < layout.len() implies {
            &&& (#[trigger] layout[i]).id == whole[i].id
            &&& layout[i].name == whole[i].name
            &&& layout[i].output == whole[i].output
        } by {
            assert(half[i].id == whole[i].id);
        }
        assert forall|other: Seq<char>| other != output implies #[trigger] ordered_on(whole, other)
            == ordered_on(layout, other) by {
            assert(ordered_on(half, other) == ordered_on(layout, other));
        }
    }
}

proof fn rearranged_in_two_parts(
    layout: Seq<WorkspaceModel>,
    first: Seq<(u64, usize)>,
    second: Seq<(u64, usize)>,
)
    ensures
        all_rearranged(layout, first + second) == all_rearranged(
            all_rearranged(layout, first),
            second,
        ),
    decreases second.len(),
{
    if second.len() == 0 {
        assert(first + second =~= first);
    } else {
        rearranged_in_two_parts(layout, first, second.drop_last());
        assert((first + second).drop_last() =~= first + second.drop_last());
        assert((first + second).last() == second.last());
    }
}

proof fn moves_stay_on_their_output(
    layout: Seq<WorkspaceModel>,
    occupied: Set<u64>,
    names: Seq<Seq<char>>,
    output: Seq<char>,
    k: int,
)
    requires
        names.no_duplicates(),
        0 <= k < output_moves(ordered_on(layout, output), occupied, names).len(),
    ensures
        hosts(layout, output, output_moves(ordered_on(layout, output), occupied, names)[k].0),
{
    let strip = ordered_on(layout, output);
    let present = names.filter_map(hosted(strip));
    present_names(names, strip);
    ordered_on_is_exact(layout, output);
    lists::find_is_exact(strip, named(present[k]));
    assert(lists::any(strip, named(present[k])));
    let w = lists::find(strip, named(present[k]))->0;
    let at = choose|at: int| 0 <= at < strip.len() && strip[at] == w;
    assert(layout.contains(strip[at]));
    let i = choose|i: int| 0 <= i < layout.len() && layout[i] == w;
    assert(layout[i].id == w.id && layout[i].output == Some(output));
}

/// The strip of an output after its own moves.
spec fn carried_out(
    layout: Seq<WorkspaceModel>,
    occupied: Set<u64>,
    names: Seq<Seq<char>>,
    output: Seq<char>,
) -> Seq<WorkspaceModel> {
    let strip = ordered_on(layout, output);
    carried(strip, output_moves(strip, occupied, names))
}

proof fn several_outputs_rearranged(
    layout: Seq<WorkspaceModel>,
    occupied: Set<u64>,
    names: Seq<Seq<char>>,
    over: Seq<Seq<char>>,
)
    requires
        is_sound(layout),
        names.no_duplicates(),
        over.no_duplicates(),
    ensures
        ({
            let after = all_rearranged(layout, moves_of(layout, occupied, names, over));
            &&& is_sound(after)
            &&& same_but_positions(layout, after)
            &&& forall|output: Seq<char>| #[trigger]
                over.contains(output) ==> alike(
                    ordered_on(after, output),
                    carried_out(layout, occupied, names, output),
                )
            &&& forall|output: Seq<char>|
                !over.contains(output) ==> #[trigger] ordered_on(after, output) == ordered_on(
                    layout,
                    output,
                )
        }),
    decreases over.len(),
{
    if over.len() > 0 {
        let rest = over.drop_last();
        let last = over.last();
        let n = over.len() - 1;
        assert(over[n] == last);
        assert forall|i: int, j: int|
            0 <= i < rest.len() && 0 <= j < rest.len() && i != j implies rest[i] != rest[j] by {
            assert(over[i] != over[j]);
        }
        several_outputs_rearranged(layout, occupied, names, rest);
        let first = moves_of(layout, occupied, names, rest);
        let half = all_rearranged(layout, first);
        assert(!rest.contains(last)) by {
            if rest.contains(last) {
                let i = choose|i: int| 0 <= i < rest.len() && rest[i] == last;
                assert(over[i] != over[n]);
            }
        }
        let strip = ordered_on(layout, last);
        assert(ordered_on(half, last) == strip);
        let second = output_moves(strip, occupied, names);
        assert forall|k: int| 0 <= k < second.len() implies hosts(
            half,
            last,
            (#[trigger] second[k]).0,
        ) by {
            moves_stay_on_their_output(layout, occupied, names, last, k);
            let i = choose|i: int|
                0 <= i < layout.len() && (#[trigger] layout[i]).id == second[k].0
                    && layout[i].output == Some(last);
            assert(half[i].id == second[k].0 && half[i].output == Some(last));
        }
        one_output_rearranged(half, last, second);
        rearranged_in_two_parts(layout, first, second);
        let after = all_rearranged(layout, first + second);
        assert forall|i: int| 0 <= i < layout.len() implies {
            &&& (#[trigger] layout[i]).id == after[i].id
            &&& layout[i].name == after[i].name
            &&& layout[i].output == after[i].output
        } by {
            assert(half[i].id == after[i].id);
        }
        assert forall|output: Seq<char>| #[trigger] over.contains(output) implies alike(
            ordered_on(after, output),
            carried_out(layout, occupied, names, output),
        ) by {
            if output != last {
                let i = choose|i: int| 0 <= i < over.len() && over[i] == output;
                assert(rest[i] == output);
                assert(rest.contains(output));
                assert(ordered_on(after, output) == ordered_on(half, output));
            }
        }
        assert forall|output: Seq<char>| !over.contains(output) implies #[trigger] ordered_on(
            after,
            output,
        ) == ordered_on(layout, output) by {
            assert(output != last) by {
                assert(over.contains(over[n]));
            }
            if rest.contains(output) {
                let i = choose|i: int| 0 <= i < rest.len() && rest[i] == output;
                assert(over[i] == output);
            }
            assert(ordered_on(half, output) == ordered_on(layout, output));
        }
    }
}

proof fn alike_strips_are_in_the_same_order(
    a: Seq<WorkspaceModel>,
    b: Seq<WorkspaceModel>,
    occupied: Set<u64>,
    names: Seq<Seq<char>>,
)
    requires
        alike(a, b),
    ensures
        in_parking_order(a, occupied, names) == in_parking_order(b, occupied, names),
    decreases a.len(),
{
    if a.len() > 0 && names.len() > 0 {
        assert(a[a.len() - 1].id == b[b.len() - 1].id);
        let rest = a.drop_last();
        let others = b.drop_last();
        assert forall|i: int| 0 <= i < rest.len() implies (#[trigger] rest[i]).id == others[i].id
            && rest[i].name == others[i].name by {
            assert(a[i].id == b[i].id);
        }
        alike_strips_are_in_the_same_order(rest, others, occupied, names);
        alike_strips_are_in_the_same_order(rest, others, occupied, names.drop_last());
    }
}

/// Once every move is made, over the whole layout, nothing is left to move.
pub proof fn nothing_is_left_to_move(
    layout: Seq<WorkspaceModel>,
    occupied: Set<u64>,
    names: Seq<Seq<char>>,
)
    requires
        distinct(layout),
        distinct_on_outputs(layout),
        fits(layout),
        names.no_duplicates(),
        names.len() + u8::MAX <= usize::MAX,
    ensures
        parking_moves(
            all_rearranged(layout, parking_moves(layout, occupied, names)),
            occupied,
            names,
        ) == Seq::<(u64, usize)>::empty(),
{
    let over = outputs(layout);
    outputs_are_listed_once_in_order(layout);
    assert(over.no_duplicates()) by {
        assert forall|i: int, j: int|
            0 <= i < over.len() && 0 <= j < over.len() && i != j implies over[i] != over[j] by {
            text::before_is_irreflexive(over[i]);
            if i < j {
                assert(text::before(over[i], over[j]));
            } else {
                assert(text::before(over[j], over[i]));
            }
        }
    }
    several_outputs_rearranged(layout, occupied, names, over);
    let after = all_rearranged(layout, moves_of(layout, occupied, names, over));
    assert forall|output: Seq<char>|
        lists::any(layout, #[trigger] on_output(output)) <==> lists::any(
            after,
            on_output(output),
        ) by {
        let p = on_output(output);
        if lists::any(layout, p) {
            let k = choose|k: int| 0 <= k < layout.len() && p(#[trigger] layout[k]);
            assert(p(after[k]));
        }
        if lists::any(after, p) {
            let k = choose|k: int| 0 <= k < after.len() && p(#[trigger] after[k]);
            assert(layout[k].output == after[k].output);
            assert(p(layout[k]));
        }
    }
    same_outputs(layout, after);
    assert forall|i: int| 0 <= i < over.len() implies {
        let strip = ordered_on(after, #[trigger] over[i]);
        in_parking_order(strip, occupied, names.filter_map(hosted(strip)))
    } by {
        let output = over[i];
        assert(over.contains(output));
        let before = ordered_on(layout, output);
        let strip = ordered_on(after, output);
        let wanted = carried_out(layout, occupied, names, output);
        a_strip_has_distinct_ids(layout, output);
        the_moves_bring_the_areas_to_the_end(before, occupied, names);
        carrying_keeps_the_workspaces(before, output_moves(before, occupied, names));
        alike_strips_are_in_the_same_order(
            strip,
            wanted,
            occupied,
            names.filter_map(hosted(before)),
        );
        assert(hosted(strip) =~= hosted(before)) by {
            assert forall|name: Seq<char>| #[trigger] hosted(strip)(name) == hosted(before)(
                name,
            ) by {
                let p = named(name);
                if lists::any(strip, p) {
                    let k = choose|k: int| 0 <= k < strip.len() && p(#[trigger] strip[k]);
                    assert(wanted[k].name == strip[k].name);
                    assert(wanted.contains(wanted[k]));
                    let m = choose|m: int| 0 <= m < before.len() && before[m] == wanted[k];
                    assert(p(before[m]));
                }
                if lists::any(before, p) {
                    let k = choose|k: int| 0 <= k < before.len() && p(#[trigger] before[k]);
                    assert(before.contains(before[k]));
                    assert(wanted.contains(before[k]));
                    let m = choose|m: int| 0 <= m < wanted.len() && wanted[m] == before[k];
                    assert(strip[m].name == wanted[m].name);
                    assert(p(strip[m]));
                }
            }
        }
    }
    nothing_moves_once_in_order(after, occupied, names, over);
    assert(parking_moves(after, occupied, names) =~= Seq::empty());
}

} // verus!
