//! Where a sticky window belongs when the user switches workspace.
//!
//! niri has no sticky windows: they are emulated by moving a tracked window
//! to the workspace the user focused. Which workspace that is depends on the
//! rule that matched the window:
//!
//! - no `output` pin: follow the focused workspace, wherever it is;
//! - `output = ["DP-2", "DP-1"]`: stay on `DP-2` while it is connected, fall
//!   back to `DP-1`, and keep following the focused workspace while neither is
//!   available.
use std::collections::HashSet;
use vstd::prelude::*;
use crate::lists;
use crate::niri::{WorkspaceInfo, WorkspaceModel};
use crate::text;

verus! {

broadcast use vstd::std_specs::hash::group_hash_axioms;

/// The workspace layout reported by the compositor.
#[derive(Debug, Clone, PartialEq, Eq)]
pub struct Layout {
    pub workspaces: Vec<WorkspaceInfo>,
}

impl DeepView for Layout {
    type V = Seq<WorkspaceModel>;

    open spec fn deep_view(&self) -> Seq<WorkspaceModel> {
        self.workspaces.deep_view()
    }
}

/// Workspaces with this id.
pub open spec fn with_id(id: u64) -> spec_fn(WorkspaceModel) -> bool {
    |w: WorkspaceModel| w.id == id
}

/// Workspaces with this name.
pub open spec fn named(name: Seq<char>) -> spec_fn(WorkspaceModel) -> bool {
    |w: WorkspaceModel| w.name == Some(name)
}

/// Workspaces on this output.
pub open spec fn on_output(output: Seq<char>) -> spec_fn(WorkspaceModel) -> bool {
    |w: WorkspaceModel| w.output == Some(output)
}

/// Workspaces on this output that are active there.
pub open spec fn active_on(output: Seq<char>) -> spec_fn(WorkspaceModel) -> bool {
    |w: WorkspaceModel| w.output == Some(output) && w.is_active
}

/// The output a workspace lives on.
pub open spec fn output_of(layout: Seq<WorkspaceModel>, id: u64) -> Option<Seq<char>> {
    match lists::find(layout, with_id(id)) {
        Some(w) => w.output,
        None => None,
    }
}

/// The workspace that is active on an output.
pub open spec fn active_workspace_of(layout: Seq<WorkspaceModel>, output: Seq<char>) -> Option<
    u64,
> {
    match lists::find(layout, active_on(output)) {
        Some(w) => Some(w.id),
        None => None,
    }
}

/// An active workspace with the output it is on.
pub open spec fn active_pair() -> spec_fn(WorkspaceModel) -> Option<(Seq<char>, u64)> {
    |w: WorkspaceModel|
        match w.output {
            Some(output) => if w.is_active {
                Some((output, w.id))
            } else {
                None
            },
            None => None,
        }
}

/// A workspace that may be taken over as a parking area: on the output,
/// unnamed, inactive and without windows.
pub open spec fn is_free(w: WorkspaceModel, output: Seq<char>, busy: Set<u64>) -> bool {
    &&& w.output == Some(output)
    &&& !busy.contains(w.id)
    &&& !w.is_active
    &&& w.name is None
}

/// The free workspace with the highest index on an output; of several with
/// that index, the one listed last.
pub open spec fn bottom_free(
    layout: Seq<WorkspaceModel>,
    output: Seq<char>,
    busy: Set<u64>,
) -> Option<WorkspaceModel>
    decreases layout.len(),
{
    if layout.len() == 0 {
        None
    } else {
        let above = bottom_free(layout.drop_last(), output, busy);
        let w = layout.last();
        if is_free(w, output, busy) && (above is None || above->0.idx <= w.idx) {
            Some(w)
        } else {
            above
        }
    }
}

fn has_text(value: &Option<String>, expected: &str) -> (r: bool)
    ensures
        r == (value.deep_view() == Some(expected@)),
{
    match value {
        Some(text) => text::same(text.as_str(), expected),
        None => false,
    }
}

impl Layout {
    pub fn new(workspaces: Vec<WorkspaceInfo>) -> (r: Self)
        ensures
            r.deep_view() == workspaces.deep_view(),
    {
        Layout { workspaces }
    }

    /// Output a workspace lives on.
    pub fn output_of(&self, workspace_id: u64) -> (r: Option<&str>)
        ensures
            r.deep_view() == output_of(self.deep_view(), workspace_id),
    {
        let ghost layout = self.deep_view();
        let ghost p = with_id(workspace_id);
        let mut i: usize = 0;
        proof {
            lists::find_start(layout, p);
        }
        while i < self.workspaces.len()
            invariant
                i <= self.workspaces@.len(),
                layout == self.deep_view(),
                p == with_id(workspace_id),
                lists::find(layout, p) == lists::find(layout.skip(i as int), p),
            decreases self.workspaces.len() - i,
        {
            proof {
                lists::find_step(layout, p, i as int);
            }
            let w = &self.workspaces[i];
            if w.id == workspace_id {
                return match &w.output {
                    Some(output) => Some(output.as_str()),
                    None => None,
                };
            }
            i = i + 1;
        }
        proof {
            lists::find_step(layout, p, i as int);
        }
        None
    }

    /// Whether an output is there. niri only reports workspaces of connected
    /// outputs, so their presence is what "connected" means here.
    pub fn is_connected(&self, output: &str) -> (r: bool)
        ensures
            r == lists::any(self.deep_view(), on_output(output@)),
    {
        let ghost layout = self.deep_view();
        let mut i: usize = 0;
        while i < self.workspaces.len()
            invariant
                i <= self.workspaces@.len(),
                layout == self.deep_view(),
                forall|j: int| 0 <= j < i ==> (#[trigger] layout[j]).output != Some(output@),
            decreases self.workspaces.len() - i,
        {
            if has_text(&self.workspaces[i].output, output) {
                assert(on_output(output@)(layout[i as int]));
                return true;
            }
            i = i + 1;
        }
        false
    }

    /// Active workspace of every output that has one.
    pub fn active_workspace_of_outputs(&self) -> (r: Vec<(String, u64)>)
        ensures
            r.deep_view() == self.deep_view().filter_map(active_pair()),
    {
        let ghost layout = self.deep_view();
        let mut pairs: Vec<(String, u64)> = Vec::new();
        let mut i: usize = 0;
        assert(layout.take(0).filter_map(active_pair()) =~= Seq::empty());
        while i < self.workspaces.len()
            invariant
                i <= self.workspaces@.len(),
                layout == self.deep_view(),
                pairs.deep_view() == layout.take(i as int).filter_map(active_pair()),
            decreases self.workspaces.len() - i,
        {
            proof {
                layout.lemma_filter_map_take_succ(active_pair(), i as int);
            }
            let w = &self.workspaces[i];
            let ghost before = pairs.deep_view();
            if w.is_active {
                if let Some(output) = &w.output {
                    pairs.push((output.clone(), w.id));
                    assert(pairs.deep_view() =~= before + seq![(output@, w.id)]);
                }
            }
            i = i + 1;
        }
        assert(layout.take(i as int) =~= layout);
        pairs
    }

    /// The empty workspace at the bottom of an output: niri's tail. Middle
    /// workspaces are the ones niri deletes on its own, so the tail is where a
    /// name can be parked without disturbing anything.
    ///
    /// Only an unnamed, empty, inactive workspace qualifies. A named one belongs
    /// to the user (niri keeps named workspaces on purpose) and a parking area
    /// is named while in use, so neither can be taken over by accident.
    pub fn bottom_empty_workspace(&self, output: &str, busy: &HashSet<u64>) -> (r: Option<u64>)
        ensures
            r == (match bottom_free(self.deep_view(), output@, busy@) {
                Some(w) => Some(w.id),
                None => None,
            }),
    {
        let ghost layout = self.deep_view();
        let mut found: Option<(u64, u8)> = None;
        let mut i: usize = 0;
        while i < self.workspaces.len()
            invariant
                i <= self.workspaces@.len(),
                layout == self.deep_view(),
                found == (match bottom_free(layout.take(i as int), output@, busy@) {
                    Some(w) => Some((w.id, w.idx)),
                    None => None,
                }),
            decreases self.workspaces.len() - i,
        {
            assert(layout.take(i + 1).drop_last() =~= layout.take(i as int));
            let w = &self.workspaces[i];
            assert(layout.take(i + 1).last() == w.deep_view());
            if has_text(&w.output, output) && !busy.contains(&w.id) && !w.is_active
                && w.name.is_none() {
                let lowest = match found {
                    Some((_, idx)) => idx <= w.idx,
                    None => true,
                };
                if lowest {
                    found = Some((w.id, w.idx));
                }
            }
            i = i + 1;
        }
        assert(layout.take(i as int) =~= layout);
        match found {
            Some((id, _)) => Some(id),
            None => None,
        }
    }

    /// Workspace that is active on an output.
    pub fn active_workspace_of(&self, output: &str) -> (r: Option<u64>)
        ensures
            r == active_workspace_of(self.deep_view(), output@),
    {
        let ghost layout = self.deep_view();
        let ghost p = active_on(output@);
        let mut i: usize = 0;
        proof {
            lists::find_start(layout, p);
        }
        while i < self.workspaces.len()
            invariant
                i <= self.workspaces@.len(),
                layout == self.deep_view(),
                p == active_on(output@),
                lists::find(layout, p) == lists::find(layout.skip(i as int), p),
            decreases self.workspaces.len() - i,
        {
            proof {
                lists::find_step(layout, p, i as int);
            }
            let w = &self.workspaces[i];
            if has_text(&w.output, output) && w.is_active {
                return Some(w.id);
            }
            i = i + 1;
        }
        proof {
            lists::find_step(layout, p, i as int);
        }
        None
    }
}

/// How many texts at the front come before `x`.
pub open spec fn text_rank(s: Seq<Seq<char>>, x: Seq<char>) -> nat
    decreases s.len(),
{
    if s.len() > 0 && text::before(s[0], x) {
        1 + text_rank(s.drop_first(), x)
    } else {
        0
    }
}

/// `x` at its place among sorted texts, unless it is there already.
pub open spec fn text_inserted(s: Seq<Seq<char>>, x: Seq<char>) -> Seq<Seq<char>> {
    let at = text_rank(s, x) as int;
    if at < s.len() && s[at] == x {
        s
    } else {
        s.insert(at, x)
    }
}

/// The outputs that have a workspace, sorted, each once.
pub open spec fn outputs(workspaces: Seq<WorkspaceModel>) -> Seq<Seq<char>>
    decreases workspaces.len(),
{
    if workspaces.len() == 0 {
        Seq::empty()
    } else {
        let rest = outputs(workspaces.drop_last());
        match workspaces.last().output {
            Some(output) => text_inserted(rest, output),
            None => rest,
        }
    }
}

/// How many workspaces at the front have an index of at most `idx`.
pub open spec fn idx_rank(s: Seq<WorkspaceModel>, idx: u8) -> nat
    decreases s.len(),
{
    if s.len() > 0 && s[0].idx <= idx {
        1 + idx_rank(s.drop_first(), idx)
    } else {
        0
    }
}

/// The workspaces of one output by index; equal indices keep their order.
pub open spec fn ordered_on(workspaces: Seq<WorkspaceModel>, output: Seq<char>) -> Seq<
    WorkspaceModel,
>
    decreases workspaces.len(),
{
    if workspaces.len() == 0 {
        Seq::empty()
    } else {
        let rest = ordered_on(workspaces.drop_last(), output);
        let w = workspaces.last();
        if w.output == Some(output) {
            rest.insert(idx_rank(rest, w.idx) as int, w)
        } else {
            rest
        }
    }
}

/// The name, where one of the workspaces has it.
pub open spec fn hosted(ordered: Seq<WorkspaceModel>) -> spec_fn(Seq<char>) -> Option<Seq<char>> {
    |name: Seq<char>|
        if lists::any(ordered, named(name)) {
            Some(name)
        } else {
            None
        }
}

/// Whether the named workspaces are the last ones, in this order, with only
/// empty unnamed workspaces below them.
pub open spec fn in_parking_order(
    ordered: Seq<WorkspaceModel>,
    occupied: Set<u64>,
    names: Seq<Seq<char>>,
) -> bool
    decreases ordered.len(),
{
    if names.len() == 0 {
        true
    } else if ordered.len() == 0 {
        false
    } else {
        let w = ordered.last();
        if w.name is None && !occupied.contains(w.id) {
            in_parking_order(ordered.drop_last(), occupied, names)
        } else {
            &&& w.name == Some(names.last())
            &&& in_parking_order(ordered.drop_last(), occupied, names.drop_last())
        }
    }
}

/// The position `offset` places below the last of `count` workspaces, counted
/// from one. A position that no `usize` holds is cut off.
pub open spec fn move_index(count: nat, offset: nat) -> usize {
    if count + offset <= usize::MAX {
        (count + offset) as usize
    } else {
        usize::MAX
    }
}

/// The moves one output needs.
pub open spec fn output_moves(
    ordered: Seq<WorkspaceModel>,
    occupied: Set<u64>,
    names: Seq<Seq<char>>,
) -> Seq<(u64, usize)> {
    let present = names.filter_map(hosted(ordered));
    if present.len() == 0 || in_parking_order(ordered, occupied, present) {
        Seq::empty()
    } else {
        Seq::new(
            present.len(),
            |k: int|
                (
                    lists::find(ordered, named(present[k]))->0.id,
                    move_index(ordered.len(), k as nat),
                ),
        )
    }
}

/// The moves of several outputs, one output after the other.
pub open spec fn moves_of(
    workspaces: Seq<WorkspaceModel>,
    occupied: Set<u64>,
    names: Seq<Seq<char>>,
    over: Seq<Seq<char>>,
) -> Seq<(u64, usize)>
    decreases over.len(),
{
    if over.len() == 0 {
        Seq::empty()
    } else {
        moves_of(workspaces, occupied, names, over.drop_last()) + output_moves(
            ordered_on(workspaces, over.last()),
            occupied,
            names,
        )
    }
}

/// Every move that brings the parking workspaces to the end of their output.
pub open spec fn parking_moves(
    workspaces: Seq<WorkspaceModel>,
    occupied: Set<u64>,
    names: Seq<Seq<char>>,
) -> Seq<(u64, usize)> {
    moves_of(workspaces, occupied, names, outputs(workspaces))
}

/// The outputs that have a workspace, sorted, each once.
fn sorted_outputs(workspaces: &[WorkspaceInfo]) -> (r: Vec<String>)
    ensures
        r.deep_view() == outputs(workspaces.deep_view()),
{
    let ghost all = workspaces.deep_view();
    let mut sorted: Vec<String> = Vec::new();
    let mut i: usize = 0;
    assert(sorted.deep_view() =~= outputs(all.take(0)));
    while i < workspaces.len()
        invariant
            i <= workspaces@.len(),
            all == workspaces.deep_view(),
            sorted.deep_view() == outputs(all.take(i as int)),
        decreases workspaces.len() - i,
    {
        assert(all.take(i + 1).drop_last() =~= all.take(i as int));
        assert(all.take(i + 1).last() == workspaces[i as int].deep_view());
        if let Some(output) = &workspaces[i].output {
            insert_text(&mut sorted, output);
        }
        i = i + 1;
    }
    assert(all.take(i as int) =~= all);
    sorted
}

fn insert_text(sorted: &mut Vec<String>, x: &String)
    ensures
        final(sorted).deep_view() == text_inserted(old(sorted).deep_view(), x@),
{
    let ghost s = sorted.deep_view();
    let mut at: usize = 0;
    assert(s.skip(0) =~= s);
    while at < sorted.len() && text::less(sorted[at].as_str(), x.as_str())
        invariant
            at <= sorted@.len(),
            s == sorted.deep_view(),
            text_rank(s, x@) == at + text_rank(s.skip(at as int), x@),
        decreases sorted.len() - at,
    {
        assert(s.skip(at as int)[0] == sorted[at as int]@);
        assert(s.skip(at as int).drop_first() =~= s.skip(at + 1));
        at = at + 1;
    }
    assert(at < s.len() ==> s.skip(at as int)[0] == s[at as int]);
    if at == sorted.len() || !text::same(sorted[at].as_str(), x.as_str()) {
        sorted.insert(at, x.clone());
        assert(sorted.deep_view() =~= s.insert(at as int, x@));
    }
}

/// The workspaces of one output by index; equal indices keep their order.
fn order_workspaces<'a>(workspaces: &'a [WorkspaceInfo], output: &str) -> (r: Vec<&'a WorkspaceInfo>)
    ensures
        r.deep_view() == ordered_on(workspaces.deep_view(), output@),
{
    let ghost all = workspaces.deep_view();
    let mut ordered: Vec<&'a WorkspaceInfo> = Vec::new();
    let mut i: usize = 0;
    assert(ordered.deep_view() =~= ordered_on(all.take(0), output@));
    while i < workspaces.len()
        invariant
            i <= workspaces@.len(),
            all == workspaces.deep_view(),
            ordered.deep_view() == ordered_on(all.take(i as int), output@),
        decreases workspaces.len() - i,
    {
        assert(all.take(i + 1).drop_last() =~= all.take(i as int));
        assert(all.take(i + 1).last() == workspaces[i as int].deep_view());
        let w = &workspaces[i];
        if has_text(&w.output, output) {
            let ghost s = ordered.deep_view();
            let mut at: usize = 0;
            assert(s.skip(0) =~= s);
            while at < ordered.len() && ordered[at].idx <= w.idx
                invariant
                    at <= ordered@.len(),
                    s == ordered.deep_view(),
                    idx_rank(s, w.idx) == at + idx_rank(s.skip(at as int), w.idx),
                decreases ordered.len() - at,
            {
                assert(s.skip(at as int)[0] == ordered[at as int].deep_view());
                assert(s.skip(at as int).drop_first() =~= s.skip(at + 1));
                at = at + 1;
            }
            assert(at < s.len() ==> s.skip(at as int)[0] == s[at as int]);
            ordered.insert(at, w);
            assert(ordered.deep_view() =~= s.insert(at as int, w.deep_view()));
        }
        i = i + 1;
    }
    assert(all.take(i as int) =~= all);
    ordered
}

/// The first workspace with this name.
fn find_named<'a>(ordered: &Vec<&'a WorkspaceInfo>, name: &str) -> (r: Option<&'a WorkspaceInfo>)
    ensures
        r.deep_view() == lists::find(ordered.deep_view(), named(name@)),
{
    let ghost all = ordered.deep_view();
    let ghost p = named(name@);
    let mut i: usize = 0;
    proof {
        lists::find_start(all, p);
    }
    while i < ordered.len()
        invariant
            i <= ordered@.len(),
            all == ordered.deep_view(),
            p == named(name@),
            lists::find(all, p) == lists::find(all.skip(i as int), p),
        decreases ordered.len() - i,
    {
        proof {
            lists::find_step(all, p, i as int);
        }
        if has_text(&ordered[i].name, name) {
            return Some(ordered[i]);
        }
        i = i + 1;
    }
    proof {
        lists::find_step(all, p, i as int);
    }
    None
}

/// Whether the parking workspaces are already the last ones of their output,
/// with only empty unnamed workspaces (niri's tail) below them.
fn is_parking_order(
    ordered: &Vec<&WorkspaceInfo>,
    occupied: &HashSet<u64>,
    names: &Vec<&str>,
) -> (r: bool)
    ensures
        r == in_parking_order(ordered.deep_view(), occupied@, names.deep_view()),
{
    let ghost all = ordered.deep_view();
    let ghost wanted = names.deep_view();
    let mut left: usize = ordered.len();
    let mut missing: usize = names.len();
    assert(all.take(left as int) =~= all);
    assert(wanted.take(missing as int) =~= wanted);
    while left > 0 && missing > 0
        invariant
            left <= ordered@.len(),
            missing <= names@.len(),
            all == ordered.deep_view(),
            wanted == names.deep_view(),
            in_parking_order(all, occupied@, wanted) == in_parking_order(
                all.take(left as int),
                occupied@,
                wanted.take(missing as int),
            ),
        decreases left,
    {
        let w = ordered[left - 1];
        assert(all.take(left as int).last() == w.deep_view());
        assert(all.take(left as int).drop_last() =~= all.take(left - 1));
        assert(wanted.take(missing as int).last() == names[missing - 1]@);
        assert(wanted.take(missing as int).drop_last() =~= wanted.take(missing - 1));
        if !(w.name.is_none() && !occupied.contains(&w.id)) {
            // Bottom-most parking workspace first.
            if !has_text(&w.name, names[missing - 1]) {
                return false;
            }
            missing = missing - 1;
        }
        left = left - 1;
    }
    missing == 0
}

/// The moves one output needs.
fn moves_on(
    ordered: &Vec<&WorkspaceInfo>,
    occupied: &HashSet<u64>,
    names: &[&str],
) -> (r: Vec<(u64, usize)>)
    ensures
        r@ == output_moves(ordered.deep_view(), occupied@, names.deep_view()),
{
    let ghost all = ordered.deep_view();
    let ghost wanted = names.deep_view();
    // Only the parking workspaces that exist, in the configured order.
    let mut present: Vec<&str> = Vec::new();
    let mut i: usize = 0;
    assert(present.deep_view() =~= wanted.take(0).filter_map(hosted(all)));
    while i < names.len()
        invariant
            i <= names@.len(),
            all == ordered.deep_view(),
            wanted == names.deep_view(),
            present.deep_view() == wanted.take(i as int).filter_map(hosted(all)),
            forall|k: int|
                0 <= k < present@.len() ==> lists::find(
                    all,
                    named((#[trigger] present@[k])@),
                ) is Some,
        decreases names.len() - i,
    {
        let name: &str = names[i];
        proof {
            wanted.lemma_filter_map_take_succ(hosted(all), i as int);
            lists::find_is_exact(all, named(name@));
        }
        let ghost before = present.deep_view();
        if find_named(ordered, name).is_some() {
            present.push(name);
            assert(present.deep_view() =~= before + seq![name@]);
        }
        i = i + 1;
    }
    assert(wanted.take(i as int) =~= wanted);
    let mut moves: Vec<(u64, usize)> = Vec::new();
    if present.len() == 0 || is_parking_order(ordered, occupied, &present) {
        return moves;
    }
    // Move them top to bottom, each to the end: niri keeps a fresh empty
    // workspace below every one of them.
    let mut k: usize = 0;
    while k < present.len()
        invariant
            k <= present@.len(),
            all == ordered.deep_view(),
            forall|j: int|
                0 <= j < present@.len() ==> lists::find(
                    all,
                    named((#[trigger] present@[j])@),
                ) is Some,
            moves@ =~= Seq::new(
                k as nat,
                |j: int|
                    (
                        lists::find(all, named(present.deep_view()[j]))->0.id,
                        move_index(all.len(), j as nat),
                    ),
            ),
        decreases present.len() - k,
    {
        if let Some(w) = find_named(ordered, present[k]) {
            moves.push((w.id, ordered.len().saturating_add(k)));
        }
        k = k + 1;
    }
    moves
}

/// Moves needed so the parking workspaces sit at the end of their output, on
/// top of the empty tail niri always keeps there.
///
/// `names` is ordered top to bottom (the first one ends up above the second),
/// and only outputs that actually host one of them are touched. Each move is
/// `(workspace id, target position)`, 1-based like niri's IPC.
pub fn parking_order_moves(
    workspaces: &[WorkspaceInfo],
    occupied: &HashSet<u64>,
    names: &[&str],
) -> (r: Vec<(u64, usize)>)
    ensures
        r@ == parking_moves(workspaces.deep_view(), occupied@, names.deep_view()),
{
    let sorted = sorted_outputs(workspaces);
    let ghost over = sorted.deep_view();
    let mut moves: Vec<(u64, usize)> = Vec::new();
    let mut i: usize = 0;
    assert(over.take(0) =~= Seq::empty());
    while i < sorted.len()
        invariant
            i <= sorted@.len(),
            over == sorted.deep_view(),
            moves@ == moves_of(
                workspaces.deep_view(),
                occupied@,
                names.deep_view(),
                over.take(i as int),
            ),
        decreases sorted.len() - i,
    {
        assert(over.take(i + 1).drop_last() =~= over.take(i as int));
        assert(over.take(i + 1).last() == sorted[i as int]@);
        let ordered = order_workspaces(workspaces, sorted[i].as_str());
        let mut more = moves_on(&ordered, occupied, names);
        moves.append(&mut more);
        i = i + 1;
    }
    assert(over.take(i as int) =~= over);
    moves
}

/// Outputs that are connected in a layout.
pub open spec fn connected(layout: Seq<WorkspaceModel>) -> spec_fn(Seq<char>) -> bool {
    |output: Seq<char>| lists::any(layout, on_output(output))
}

/// Where a sticky window belongs once `focused` is the focused workspace;
/// `None` leaves it where it is.
pub open spec fn target_of(
    pin: Seq<Seq<char>>,
    current: Option<Seq<char>>,
    layout: Seq<WorkspaceModel>,
    focused: u64,
) -> Option<u64> {
    match lists::find(pin, connected(layout)) {
        None => Some(focused),
        Some(target) => if current == Some(target) {
            if output_of(layout, focused) == Some(target) {
                Some(focused)
            } else {
                None
            }
        } else {
            active_workspace_of(layout, target)
        },
    }
}

/// Workspace a sticky window should be moved to when `focused_workspace` became
/// focused, or `None` to leave the window where it is.
///
/// `pin` is the output preference list of the matching rule (empty for none),
/// and `current_output` is where the window is right now.
pub fn pin_target(
    pin: &[String],
    current_output: Option<&str>,
    layout: &Layout,
    focused_workspace: u64,
) -> (r: Option<u64>)
    ensures
        r == target_of(
            pin.deep_view(),
            current_output.deep_view(),
            layout.deep_view(),
            focused_workspace,
        ),
{
    let ghost all = pin.deep_view();
    let ghost p = connected(layout.deep_view());
    let mut i: usize = 0;
    proof {
        lists::find_start(all, p);
    }
    while i < pin.len() && !layout.is_connected(pin[i].as_str())
        invariant
            i <= pin@.len(),
            all == pin.deep_view(),
            p == connected(layout.deep_view()),
            lists::find(all, p) == lists::find(all.skip(i as int), p),
        decreases pin.len() - i,
    {
        proof {
            lists::find_step(all, p, i as int);
        }
        i = i + 1;
    }
    proof {
        lists::find_step(all, p, i as int);
    }
    if i == pin.len() {
        // Nothing pinned is connected: follow the focused workspace so the
        // window stays reachable until the output returns.
        return Some(focused_workspace);
    }
    let target: &str = pin[i].as_str();
    let at_home = match current_output {
        Some(output) => text::same(output, target),
        None => false,
    };
    if at_home {
        // Already on its output: follow it only when that output is the one
        // that got the new focused workspace.
        let follows = match layout.output_of(focused_workspace) {
            Some(output) => text::same(output, target),
            None => false,
        };
        return if follows {
            Some(focused_workspace)
        } else {
            None
        };
    }
    // The window drifted (or its output was reconnected): put it back on its
    // output, on the workspace that is active there.
    layout.active_workspace_of(target)
}

// What holds of every layout.

/// No two workspaces have the same id.
pub open spec fn distinct(layout: Seq<WorkspaceModel>) -> bool {
    forall|i: int, j: int| 0 <= i < j < layout.len() ==> layout[i].id != layout[j].id
}

/// A window without a pin follows the focused workspace, and so does one whose
/// outputs are all gone, so that it stays reachable.
pub proof fn unpinned_windows_follow_the_focus(
    pin: Seq<Seq<char>>,
    current: Option<Seq<char>>,
    layout: Seq<WorkspaceModel>,
    focused: u64,
)
    requires
        !lists::any(pin, connected(layout)),
    ensures
        target_of(pin, current, layout, focused) == Some(focused),
{
    lists::find_is_exact(pin, connected(layout));
}

pub(crate) proof fn output_of_member(layout: Seq<WorkspaceModel>, at: int)
    requires
        distinct(layout),
        0 <= at < layout.len(),
    ensures
        output_of(layout, layout[at].id) == layout[at].output,
{
    let found = lists::find(layout, with_id(layout[at].id));
    lists::find_is_exact(layout, with_id(layout[at].id));
    assert(with_id(layout[at].id)(layout[at]));
    assert(lists::any(layout, with_id(layout[at].id)));
    let k = choose|k: int| 0 <= k < layout.len() && layout[k] == found->0;
    if k < at {
        assert(layout[k].id != layout[at].id);
    } else if at < k {
        assert(layout[at].id != layout[k].id);
    }
}

/// A pinned window goes nowhere but to the first of its outputs that is
/// connected.
pub proof fn pinned_windows_stay_on_their_output(
    pin: Seq<Seq<char>>,
    current: Option<Seq<char>>,
    layout: Seq<WorkspaceModel>,
    focused: u64,
)
    requires
        distinct(layout),
        lists::any(pin, connected(layout)),
    ensures
        target_of(pin, current, layout, focused) matches Some(id) ==> output_of(layout, id)
            == lists::find(pin, connected(layout)),
{
    lists::find_is_exact(pin, connected(layout));
    let target = lists::find(pin, connected(layout))->0;
    if current != Some(target) {
        lists::find_is_exact(layout, active_on(target));
        if let Some(w) = lists::find(layout, active_on(target)) {
            let at = choose|at: int| 0 <= at < layout.len() && layout[at] == w;
            output_of_member(layout, at);
        }
    }
}

/// The workspace to park on is free: no name, no window, not active. No free
/// workspace of the output is below it, and there is none only where none is
/// free.
pub proof fn parking_takes_the_bottom_free_workspace(
    layout: Seq<WorkspaceModel>,
    output: Seq<char>,
    busy: Set<u64>,
)
    ensures
        bottom_free(layout, output, busy) matches Some(w) ==> layout.contains(w) && is_free(
            w,
            output,
            busy,
        ),
        forall|i: int|
            0 <= i < layout.len() && is_free(#[trigger] layout[i], output, busy) ==> {
                &&& bottom_free(layout, output, busy) is Some
                &&& layout[i].idx <= bottom_free(layout, output, busy)->0.idx
            },
    decreases layout.len(),
{
    if layout.len() > 0 {
        let rest = layout.drop_last();
        parking_takes_the_bottom_free_workspace(rest, output, busy);
        assert(layout[layout.len() - 1] == layout.last());
        if let Some(w) = bottom_free(rest, output, busy) {
            let k = choose|k: int| 0 <= k < rest.len() && rest[k] == w;
            assert(layout[k] == w);
        }
        assert forall|i: int| 0 <= i < layout.len() && is_free(#[trigger] layout[i], output, busy) implies {
            &&& bottom_free(layout, output, busy) is Some
            &&& layout[i].idx <= bottom_free(layout, output, busy)->0.idx
        } by {
            if i < rest.len() {
                assert(rest[i] == layout[i]);
            }
        }
    }
}

pub(crate) proof fn ordered_on_is_exact(workspaces: Seq<WorkspaceModel>, output: Seq<char>)
    ensures
        forall|i: int|
            0 <= i < ordered_on(workspaces, output).len() ==> {
                &&& (#[trigger] ordered_on(workspaces, output)[i]).output == Some(output)
                &&& workspaces.contains(ordered_on(workspaces, output)[i])
            },
        forall|i: int, j: int|
            0 <= i < j < ordered_on(workspaces, output).len() ==> ordered_on(
                workspaces,
                output,
            )[i].idx <= ordered_on(workspaces, output)[j].idx,
    decreases workspaces.len(),
{
    if workspaces.len() > 0 {
        let before = workspaces.drop_last();
        let rest = ordered_on(before, output);
        let all = ordered_on(workspaces, output);
        let w = workspaces.last();
        ordered_on_is_exact(before, output);
        assert(workspaces[workspaces.len() - 1] == w);
        assert forall|x: WorkspaceModel| before.contains(x) implies workspaces.contains(x) by {
            let k = choose|k: int| 0 <= k < before.len() && before[k] == x;
            assert(workspaces[k] == x);
        }
        if w.output == Some(output) {
            let at = idx_rank(rest, w.idx) as int;
            idx_rank_splits(rest, w.idx);
            assert forall|i: int| 0 <= i < all.len() implies {
                &&& (#[trigger] all[i]).output == Some(output)
                &&& workspaces.contains(all[i])
            } by {
                if i < at {
                    assert(all[i] == rest[i]);
                } else if i > at {
                    assert(all[i] == rest[i - 1]);
                }
            }
            assert forall|i: int, j: int| 0 <= i < j < all.len() implies all[i].idx
                <= all[j].idx by {
                if i < at {
                    assert(all[i] == rest[i]);
                } else if i > at {
                    assert(all[i] == rest[i - 1]);
                }
                if j < at {
                    assert(all[j] == rest[j]);
                } else if j > at {
                    assert(all[j] == rest[j - 1]);
                }
            }
        }
    }
}

pub(crate) proof fn idx_rank_splits(s: Seq<WorkspaceModel>, idx: u8)
    requires
        forall|i: int, j: int| 0 <= i < j < s.len() ==> s[i].idx <= s[j].idx,
    ensures
        idx_rank(s, idx) <= s.len(),
        forall|i: int| 0 <= i < idx_rank(s, idx) ==> (#[trigger] s[i]).idx <= idx,
        forall|i: int| idx_rank(s, idx) <= i < s.len() ==> (#[trigger] s[i]).idx > idx,
    decreases s.len(),
{
    if s.len() > 0 && s[0].idx <= idx {
        let rest = s.drop_first();
        idx_rank_splits(rest, idx);
        assert forall|i: int| 0 <= i < idx_rank(s, idx) implies (#[trigger] s[i]).idx <= idx by {
            if i > 0 {
                assert(rest[i - 1] == s[i]);
            }
        }
        assert forall|i: int| idx_rank(s, idx) <= i < s.len() implies (#[trigger] s[i]).idx
            > idx by {
            assert(rest[i - 1] == s[i]);
        }
    }
}

/// The workspaces of an output are listed from top to bottom.
pub proof fn an_output_is_listed_top_to_bottom(
    workspaces: Seq<WorkspaceModel>,
    output: Seq<char>,
    i: int,
    j: int,
)
    requires
        0 <= i < j < ordered_on(workspaces, output).len(),
    ensures
        ordered_on(workspaces, output)[i].idx <= ordered_on(workspaces, output)[j].idx,
        ordered_on(workspaces, output)[i].output == Some(output),
{
    ordered_on_is_exact(workspaces, output);
}

/// Each text comes before those after it.
pub open spec fn in_text_order(s: Seq<Seq<char>>) -> bool {
    forall|i: int, j: int| 0 <= i < j < s.len() ==> text::before(s[i], s[j])
}

proof fn text_rank_splits(s: Seq<Seq<char>>, x: Seq<char>)
    requires
        in_text_order(s),
    ensures
        text_rank(s, x) <= s.len(),
        forall|i: int| 0 <= i < text_rank(s, x) ==> text::before(#[trigger] s[i], x),
        forall|i: int| text_rank(s, x) <= i < s.len() ==> !text::before(#[trigger] s[i], x),
    decreases s.len(),
{
    if s.len() > 0 && text::before(s[0], x) {
        let rest = s.drop_first();
        assert forall|i: int, j: int| 0 <= i < j < rest.len() implies text::before(
            rest[i],
            rest[j],
        ) by {
            assert(text::before(s[i + 1], s[j + 1]));
        }
        text_rank_splits(rest, x);
        assert forall|i: int| 0 <= i < text_rank(s, x) implies text::before(#[trigger] s[i], x) by {
            if i > 0 {
                assert(rest[i - 1] == s[i]);
            }
        }
        assert forall|i: int| text_rank(s, x) <= i < s.len() implies !text::before(
            #[trigger] s[i],
            x,
        ) by {
            assert(rest[i - 1] == s[i]);
        }
    } else {
        assert forall|i: int| 0 <= i < s.len() implies !text::before(#[trigger] s[i], x) by {
            if text::before(s[i], x) && i > 0 {
                text::before_is_transitive(s[0], s[i], x);
            }
        }
    }
}

/// Every output is listed once, in the order of their names, and nothing else
/// is.
pub proof fn outputs_are_listed_once_in_order(workspaces: Seq<WorkspaceModel>)
    ensures
        in_text_order(outputs(workspaces)),
        forall|output: Seq<char>| #[trigger]
            outputs(workspaces).contains(output) <==> lists::any(workspaces, on_output(output)),
    decreases workspaces.len(),
{
    if workspaces.len() > 0 {
        let before = workspaces.drop_last();
        let rest = outputs(before);
        let all = outputs(workspaces);
        let w = workspaces.last();
        outputs_are_listed_once_in_order(before);
        assert(workspaces[workspaces.len() - 1] == w);
        if let Some(x) = w.output {
            let at = text_rank(rest, x) as int;
            text_rank_splits(rest, x);
            if at < rest.len() && rest[at] == x {
                assert(all == rest);
            } else {
                assert(all == rest.insert(at, x));
                assert forall|i: int, j: int| 0 <= i < j < all.len() implies text::before(
                    all[i],
                    all[j],
                ) by {
                    assert forall|k: int| at <= k < rest.len() implies text::before(
                        x,
                        #[trigger] rest[k],
                    ) by {
                        text::before_is_total(x, rest[k]);
                        if rest[k] == x {
                            assert(k > at);
                            assert(text::before(rest[at], rest[k]));
                        }
                    }
                    let y = if i < at {
                        rest[i]
                    } else if i == at {
                        x
                    } else {
                        rest[i - 1]
                    };
                    let z = if j < at {
                        rest[j]
                    } else if j == at {
                        x
                    } else {
                        rest[j - 1]
                    };
                    assert(all[i] == y && all[j] == z);
                }
            }
        }
        assert forall|output: Seq<char>| #[trigger] all.contains(output) <==> lists::any(
            workspaces,
            on_output(output),
        ) by {
            assert(rest.contains(output) <==> lists::any(before, on_output(output)));
            if lists::any(before, on_output(output)) {
                let k = choose|k: int|
                    0 <= k < before.len() && on_output(output)(#[trigger] before[k]);
                assert(on_output(output)(workspaces[k]));
            }
            if lists::any(workspaces, on_output(output)) {
                let k = choose|k: int|
                    0 <= k < workspaces.len() && on_output(output)(#[trigger] workspaces[k]);
                if k < before.len() {
                    assert(on_output(output)(before[k]));
                }
            }
            match w.output {
                None => {},
                Some(x) => {
                    let at = text_rank(rest, x) as int;
                    text_rank_splits(rest, x);
                    if at < rest.len() && rest[at] == x {
                        if output == x {
                            assert(rest.contains(rest[at]));
                        }
                    } else {
                        assert(all == rest.insert(at, x));
                        if rest.contains(output) {
                            let k = choose|k: int| 0 <= k < rest.len() && rest[k] == output;
                            assert(all[if k < at {
                                k
                            } else {
                                k + 1
                            }] == output);
                        }
                        if output == x {
                            assert(all[at] == x);
                        }
                        if all.contains(output) && output != x {
                            let k = choose|k: int| 0 <= k < all.len() && all[k] == output;
                            assert(rest[if k < at {
                                k
                            } else {
                                k - 1
                            }] == output);
                        }
                    }
                },
            }
            if w.output == Some(output) {
                assert(on_output(output)(workspaces[workspaces.len() - 1]));
            }
        }
    }
}

/// A workspace is a parking area of these names.
pub open spec fn is_parking(
    workspaces: Seq<WorkspaceModel>,
    names: Seq<Seq<char>>,
    id: u64,
) -> bool {
    exists|w: WorkspaceModel| #[trigger]
        workspaces.contains(w) && w.id == id && w.name is Some && names.contains(w.name->0)
}

proof fn filter_map_members<A, B>(s: Seq<A>, f: spec_fn(A) -> Option<B>)
    ensures
        forall|k: int|
            0 <= k < s.filter_map(f).len() ==> exists|i: int|
                0 <= i < s.len() && f(#[trigger] s[i]) == Some(#[trigger] s.filter_map(f)[k]),
    decreases s.len(),
{
    if s.len() > 0 {
        let rest = s.drop_last();
        filter_map_members(rest, f);
        assert(s.take(s.len() as int) =~= s);
        assert(s.take(s.len() - 1) =~= rest);
        s.lemma_filter_map_take_succ(f, s.len() - 1);
        assert forall|k: int| 0 <= k < s.filter_map(f).len() implies exists|i: int|
            0 <= i < s.len() && f(#[trigger] s[i]) == Some(#[trigger] s.filter_map(f)[k]) by {
            if k < rest.filter_map(f).len() {
                let i = choose|i: int|
                    0 <= i < rest.len() && f(#[trigger] rest[i]) == Some(rest.filter_map(f)[k]);
                assert(f(s[i]) == Some(s.filter_map(f)[k]));
            } else {
                assert(f(s[s.len() - 1]) == Some(s.filter_map(f)[k]));
            }
        }
    }
}

proof fn output_moves_are_of_parking_areas(
    workspaces: Seq<WorkspaceModel>,
    occupied: Set<u64>,
    names: Seq<Seq<char>>,
    output: Seq<char>,
    k: int,
)
    requires
        0 <= k < output_moves(ordered_on(workspaces, output), occupied, names).len(),
    ensures
        is_parking(
            workspaces,
            names,
            output_moves(ordered_on(workspaces, output), occupied, names)[k].0,
        ),
{
    let ordered = ordered_on(workspaces, output);
    let present = names.filter_map(hosted(ordered));
    filter_map_members(names, hosted(ordered));
    ordered_on_is_exact(workspaces, output);
    let i = choose|i: int|
        0 <= i < names.len() && hosted(ordered)(#[trigger] names[i]) == Some(present[k]);
    lists::find_is_exact(ordered, named(present[k]));
    let w = lists::find(ordered, named(present[k]))->0;
    let at = choose|at: int| 0 <= at < ordered.len() && ordered[at] == w;
    assert(workspaces.contains(ordered[at]));
    assert(names.contains(names[i]));
}

/// Only the parking areas are ever moved, never a workspace the user works on.
pub proof fn only_parking_areas_are_moved(
    workspaces: Seq<WorkspaceModel>,
    occupied: Set<u64>,
    names: Seq<Seq<char>>,
    over: Seq<Seq<char>>,
    k: int,
)
    requires
        0 <= k < moves_of(workspaces, occupied, names, over).len(),
    ensures
        is_parking(workspaces, names, moves_of(workspaces, occupied, names, over)[k].0),
    decreases over.len(),
{
    if over.len() > 0 {
        let before = moves_of(workspaces, occupied, names, over.drop_last());
        if k < before.len() {
            only_parking_areas_are_moved(workspaces, occupied, names, over.drop_last(), k);
        } else {
            output_moves_are_of_parking_areas(
                workspaces,
                occupied,
                names,
                over.last(),
                k - before.len(),
            );
        }
    }
}

/// Where the parking areas of every output are at its end already, nothing is
/// moved.
pub proof fn nothing_moves_once_in_order(
    workspaces: Seq<WorkspaceModel>,
    occupied: Set<u64>,
    names: Seq<Seq<char>>,
    over: Seq<Seq<char>>,
)
    requires
        forall|i: int|
            0 <= i < over.len() ==> {
                let ordered = ordered_on(workspaces, #[trigger] over[i]);
                in_parking_order(ordered, occupied, names.filter_map(hosted(ordered)))
            },
    ensures
        moves_of(workspaces, occupied, names, over).len() == 0,
    decreases over.len(),
{
    if over.len() > 0 {
        let rest = over.drop_last();
        assert forall|i: int| 0 <= i < rest.len() implies {
            let ordered = ordered_on(workspaces, #[trigger] rest[i]);
            in_parking_order(ordered, occupied, names.filter_map(hosted(ordered)))
        } by {
            assert(rest[i] == over[i]);
        }
        nothing_moves_once_in_order(workspaces, occupied, names, rest);
        assert(over[over.len() - 1] == over.last());
    }
}

/// The workspaces of an output, top to bottom, after one of them was taken out
/// and put back at a position counted from one, or at the end where the
/// position lies behind it.
pub open spec fn brought(
    ordered: Seq<WorkspaceModel>,
    id: u64,
    index: usize,
) -> Seq<WorkspaceModel> {
    if lists::any(ordered, with_id(id)) {
        let at = choose|at: int| 0 <= at < ordered.len() && with_id(id)(#[trigger] ordered[at]);
        let rest = ordered.remove(at);
        if index <= rest.len() {
            rest.insert(
                if index > 0 {
                    index - 1
                } else {
                    0
                },
                ordered[at],
            )
        } else {
            rest.push(ordered[at])
        }
    } else {
        ordered
    }
}

/// The workspaces of an output after some moves, one after the other.
pub open spec fn carried(ordered: Seq<WorkspaceModel>, moves: Seq<(u64, usize)>) -> Seq<
    WorkspaceModel,
>
    decreases moves.len(),
{
    if moves.len() == 0 {
        ordered
    } else {
        brought(carried(ordered, moves.drop_last()), moves.last().0, moves.last().1)
    }
}

pub(crate) proof fn present_names(names: Seq<Seq<char>>, ordered: Seq<WorkspaceModel>)
    requires
        names.no_duplicates(),
    ensures
        names.filter_map(hosted(ordered)).no_duplicates(),
        names.filter_map(hosted(ordered)).len() <= names.len(),
        forall|k: int|
            0 <= k < names.filter_map(hosted(ordered)).len() ==> lists::any(
                ordered,
                named(#[trigger] names.filter_map(hosted(ordered))[k]),
            ) && names.contains(names.filter_map(hosted(ordered))[k]),
    decreases names.len(),
{
    let f = hosted(ordered);
    if names.len() > 0 {
        let rest = names.drop_last();
        assert forall|i: int, j: int|
            0 <= i < rest.len() && 0 <= j < rest.len() && i != j implies rest[i] != rest[j] by {
            assert(names[i] != names[j]);
        }
        present_names(rest, ordered);
        assert(names.take(names.len() as int) =~= names);
        assert(names.take(names.len() - 1) =~= rest);
        names.lemma_filter_map_take_succ(f, names.len() - 1);
        let before = rest.filter_map(f);
        let all = names.filter_map(f);
        assert forall|k: int| 0 <= k < before.len() implies before[k] != names.last()
            && names.contains(before[k]) by {
            let i = choose|i: int| 0 <= i < rest.len() && rest[i] == before[k];
            assert(names[i] != names[names.len() - 1]);
            assert(names[i] == before[k]);
        }
        if lists::any(ordered, named(names.last())) {
            assert(all =~= before.push(names.last()));
            assert(names[names.len() - 1] == names.last());
        } else {
            assert(all =~= before);
        }
    }
}

/// The last ones of these workspaces have these names, in this order.
spec fn ends_with(ordered: Seq<WorkspaceModel>, names: Seq<Seq<char>>) -> bool {
    &&& names.len() <= ordered.len()
    &&& forall|k: int|
        0 <= k < names.len() ==> (#[trigger] ordered[ordered.len() - names.len() + k]).name == Some(
            names[k],
        )
}

proof fn ending_is_parking_order(
    ordered: Seq<WorkspaceModel>,
    occupied: Set<u64>,
    names: Seq<Seq<char>>,
)
    requires
        ends_with(ordered, names),
    ensures
        in_parking_order(ordered, occupied, names),
    decreases names.len(),
{
    if names.len() > 0 {
        let n = ordered.len() - names.len();
        assert(ordered[n + (names.len() - 1)].name == Some(names[names.len() - 1]));
        let rest = ordered.drop_last();
        let fewer = names.drop_last();
        assert forall|k: int| 0 <= k < fewer.len() implies (#[trigger] rest[rest.len()
            - fewer.len() + k]).name == Some(fewer[k]) by {
            assert(ordered[n + k].name == Some(names[k]));
        }
        ending_is_parking_order(rest, occupied, fewer);
    }
}

/// The first `k` of the named workspaces are at the end, and none is lost.
spec fn is_under_way(
    ordered: Seq<WorkspaceModel>,
    strip: Seq<WorkspaceModel>,
    names: Seq<Seq<char>>,
    k: int,
) -> bool {
    &&& strip.len() == ordered.len()
    &&& distinct(strip)
    &&& forall|w: WorkspaceModel| ordered.contains(w) ==> #[trigger] strip.contains(w)
    &&& k <= strip.len()
    &&& forall|j: int|
        0 <= j < k ==> #[trigger] strip[strip.len() - k + j] == lists::find(
            ordered,
            named(names[j]),
        )->0
}

proof fn one_more_at_the_end(
    ordered: Seq<WorkspaceModel>,
    strip: Seq<WorkspaceModel>,
    names: Seq<Seq<char>>,
    k: int,
    index: usize,
)
    requires
        is_under_way(ordered, strip, names, k),
        0 <= k < names.len(),
        names.no_duplicates(),
        forall|j: int| 0 <= j < names.len() ==> lists::any(ordered, named(#[trigger] names[j])),
        index >= ordered.len(),
    ensures
        is_under_way(
            ordered,
            brought(strip, lists::find(ordered, named(names[k]))->0.id, index),
            names,
            k + 1,
        ),
{
    let w = lists::find(ordered, named(names[k]))->0;
    lists::find_is_exact(ordered, named(names[k]));
    assert(lists::any(ordered, named(names[k])));
    assert(strip.contains(w));
    let p = choose|p: int| 0 <= p < strip.len() && strip[p] == w;
    assert(with_id(w.id)(strip[p]));
    let at = choose|at: int| 0 <= at < strip.len() && with_id(w.id)(#[trigger] strip[at]);
    assert(at == p) by {
        if at < p {
            assert(strip[at].id != strip[p].id);
        } else if p < at {
            assert(strip[p].id != strip[at].id);
        }
    }
    let n = strip.len() as int;
    assert(p < n - k) by {
        if p >= n - k {
            let j = p - (n - k);
            assert(strip[n - k + j] == lists::find(ordered, named(names[j]))->0);
            lists::find_is_exact(ordered, named(names[j]));
            assert(lists::any(ordered, named(names[j])));
            assert(names[j] != names[k]);
        }
    }
    let moved = brought(strip, w.id, index);
    assert(moved =~= strip.remove(p).push(w));
    assert forall|x: WorkspaceModel| ordered.contains(x) implies #[trigger] moved.contains(x) by {
        assert(strip.contains(x));
        let i = choose|i: int| 0 <= i < n && strip[i] == x;
        if i < p {
            assert(moved[i] == x);
        } else if i > p {
            assert(moved[i - 1] == x);
        } else {
            assert(moved[n - 1] == x);
        }
    }
    assert forall|i: int, j: int| 0 <= i < j < moved.len() implies moved[i].id
        != moved[j].id by {
        let a = if i < p {
            i
        } else {
            i + 1
        };
        let b = if j == n - 1 {
            p
        } else if j < p {
            j
        } else {
            j + 1
        };
        assert(moved[i] == strip[a] && moved[j] == strip[b] && a != b);
        if a < b {
            assert(strip[a].id != strip[b].id);
        } else {
            assert(strip[b].id != strip[a].id);
        }
    }
    assert forall|j: int| 0 <= j < k + 1 implies #[trigger] moved[moved.len() - (k + 1) + j]
        == lists::find(ordered, named(names[j]))->0 by {
        if j < k {
            assert(moved[n - (k + 1) + j] == strip[n - k + j]);
        }
    }
}

proof fn all_are_brought_to_the_end(
    ordered: Seq<WorkspaceModel>,
    names: Seq<Seq<char>>,
    moves: Seq<(u64, usize)>,
)
    requires
        distinct(ordered),
        names.no_duplicates(),
        forall|j: int| 0 <= j < names.len() ==> lists::any(ordered, named(#[trigger] names[j])),
        moves.len() <= names.len(),
        forall|j: int|
            0 <= j < moves.len() ==> (#[trigger] moves[j]).0 == lists::find(
                ordered,
                named(names[j]),
            )->0.id && moves[j].1 >= ordered.len(),
    ensures
        is_under_way(ordered, carried(ordered, moves), names, moves.len() as int),
    decreases moves.len(),
{
    if moves.len() > 0 {
        let before = moves.drop_last();
        let k = before.len() as int;
        assert forall|j: int| 0 <= j < before.len() implies (#[trigger] before[j]).0 == lists::find(
            ordered,
            named(names[j]),
        )->0.id && before[j].1 >= ordered.len() by {
            assert(before[j] == moves[j]);
        }
        all_are_brought_to_the_end(ordered, names, before);
        assert(moves[k] == moves.last());
        one_more_at_the_end(ordered, carried(ordered, before), names, k, moves.last().1);
    }
}

/// The moves of an output do what they are for: after them the parking areas are
/// the last ones, in the order of their names, so that nothing is moved again.
pub proof fn the_moves_bring_the_areas_to_the_end(
    ordered: Seq<WorkspaceModel>,
    occupied: Set<u64>,
    names: Seq<Seq<char>>,
)
    requires
        distinct(ordered),
        names.no_duplicates(),
        ordered.len() + names.len() <= usize::MAX,
    ensures
        in_parking_order(
            carried(ordered, output_moves(ordered, occupied, names)),
            occupied,
            names.filter_map(hosted(ordered)),
        ),
{
    let present = names.filter_map(hosted(ordered));
    let moves = output_moves(ordered, occupied, names);
    present_names(names, ordered);
    if moves.len() > 0 {
        all_are_brought_to_the_end(ordered, present, moves);
        let strip = carried(ordered, moves);
        assert forall|k: int| 0 <= k < present.len() implies (#[trigger] strip[strip.len()
            - present.len() + k]).name == Some(present[k]) by {
            lists::find_is_exact(ordered, named(present[k]));
            assert(lists::any(ordered, named(present[k])));
        }
        ending_is_parking_order(strip, occupied, present);
    }
}

} // verus!
