//! Which windows are sticky, staged or parked by a scratchpad.
use std::collections::HashSet;
use vstd::prelude::*;
use vstd::std_specs::hash::spec_hash_keys_iter;
use vstd::std_specs::iter::IteratorSpec;
use crate::error::copy_texts;
use crate::niri::Position;
use crate::state_store::{
    RecordModel, ScratchpadRecord, StoredModel, StoredScratchpad, StoredScratchpadModel,
    StoredStaged, StoredState, StoredSticky, StoredStickyModel, STATE_VERSION,
};
use crate::tables::{as_map, as_map_of_ids, one_more_id, sorted_ids, IdTable, LabelTable};
use crate::text;

verus! {

broadcast use vstd::std_specs::hash::group_hash_axioms;

/// Outputs a window is pinned to, in preference order; empty means it follows
/// the focused workspace.
pub type Pin = Seq<Seq<char>>;

/// The window each scratchpad parked.
pub type RecordMap = Map<Seq<char>, RecordModel>;

/// A window kept on every workspace, with the outputs it is pinned to.
#[derive(Debug, PartialEq, Eq)]
pub struct StickyWindow {
    /// Output preference list from the matching rule; empty means follow focus.
    pub pin: Vec<String>,
}

impl DeepView for StickyWindow {
    type V = Pin;

    open spec fn deep_view(&self) -> Pin {
        self.pin.deep_view()
    }
}

/// A window parked on the stage workspace.
#[derive(Debug, PartialEq)]
pub struct StagedWindow {
    /// Whether the window was sticky before it was staged; restoring puts it back.
    pub was_sticky: bool,
    /// Output pin the window had as a sticky window, restored with it.
    pub pin: Vec<String>,
    /// Geometry the window had when it was parked, so a scratchpad brings it back.
    pub size: Option<(i32, i32)>,
    pub position: Option<Position>,
}

/// [`StagedWindow`] as a mathematical value.
#[verifier::ext_equal]
pub struct StagedModel {
    pub was_sticky: bool,
    pub pin: Pin,
    pub size: Option<(i32, i32)>,
    pub position: Option<Position>,
}

impl DeepView for StagedWindow {
    type V = StagedModel;

    open spec fn deep_view(&self) -> StagedModel {
        StagedModel {
            was_sticky: self.was_sticky,
            pin: self.pin.deep_view(),
            size: self.size,
            position: self.position,
        }
    }
}

/// The windows the daemon tracks.
#[derive(Debug)]
pub struct AppState {
    pub sticky_windows: IdTable<StickyWindow>,
    pub staged_windows: IdTable<StagedWindow>,
    /// Window each scratchpad parked, so the same key shows it again. Separate
    /// from the stage, so a dropdown terminal never shows up in `stage restore`.
    pub scratchpad_slots: LabelTable<ScratchpadRecord>,
    /// Windows a `[stage.*]` rule already parked in this daemon run, so an
    /// explicit restore is not undone by the next event the window emits.
    pub auto_staged: HashSet<u64>,
}

/// [`AppState`] as a mathematical value.
#[verifier::ext_equal]
pub struct StateModel {
    pub sticky: Map<u64, Pin>,
    pub staged: Map<u64, StagedModel>,
    pub pads: RecordMap,
    pub auto_staged: Set<u64>,
}

impl DeepView for AppState {
    type V = StateModel;

    open spec fn deep_view(&self) -> StateModel {
        StateModel {
            sticky: self.sticky_windows.deep_view(),
            staged: self.staged_windows.deep_view(),
            pads: self.scratchpad_slots.deep_view(),
            auto_staged: self.auto_staged@,
        }
    }
}

/// What a stored record says of a staged window.
pub open spec fn staged_of(record: RecordModel) -> StagedModel {
    StagedModel {
        was_sticky: record.was_sticky,
        pin: record.outputs,
        size: record.size,
        position: record.position,
    }
}

/// The record that is stored of a staged window.
pub open spec fn record_of(id: u64, staged: StagedModel) -> RecordModel {
    RecordModel {
        id,
        was_sticky: staged.was_sticky,
        outputs: staged.pin,
        size: staged.size,
        position: staged.position,
    }
}

/// Some scratchpad has parked this window.
pub open spec fn is_parked(pads: RecordMap, id: u64) -> bool {
    exists|label: Seq<char>| #[trigger] pads.contains_key(label) && pads[label].id == id
}

/// This window is parked under this label.
pub open spec fn holds(pads: RecordMap, label: Seq<char>, id: u64) -> bool {
    pads.contains_key(label) && pads[label].id == id
}

/// This window is parked under this label, and was sticky before.
pub open spec fn holds_sticky(pads: RecordMap, label: Seq<char>, id: u64) -> bool {
    holds(pads, label, id) && pads[label].was_sticky
}

/// This is the first of the labels that parked the window as a sticky one.
pub open spec fn is_sticky_label(pads: RecordMap, label: Seq<char>, id: u64) -> bool {
    &&& holds_sticky(pads, label, id)
    &&& forall|other: Seq<char>| #[trigger]
        holds_sticky(pads, other, id) ==> other == label || text::before(label, other)
}

/// The pin that is remembered by the first of the labels that parked the window
/// as a sticky one.
pub open spec fn parked_pin(pads: RecordMap, id: u64) -> Option<Pin> {
    if exists|label: Seq<char>| is_sticky_label(pads, label, id) {
        Some(pads[choose|label: Seq<char>| is_sticky_label(pads, label, id)].outputs)
    } else {
        None
    }
}

/// The pin with which the window of a scratchpad becomes sticky again: what its
/// label remembers. Where the window was not sticky any more because another
/// label had parked it, what that label remembers.
pub open spec fn pin_back(pads: RecordMap, label: Seq<char>) -> Option<Pin> {
    if pads[label].was_sticky {
        Some(pads[label].outputs)
    } else {
        parked_pin(pads, pads[label].id)
    }
}

/// The slots of other windows.
pub open spec fn pads_without(pads: RecordMap, id: u64) -> RecordMap {
    pads.restrict(
        Set::new(|label: Seq<char>| pads.contains_key(label) && pads[label].id != id),
    )
}

/// The record, with a size and a position where it has none.
pub open spec fn with_geometry(
    record: RecordModel,
    size: Option<(i32, i32)>,
    position: Option<Position>,
) -> RecordModel {
    RecordModel {
        size: if record.size is Some {
            record.size
        } else {
            size
        },
        position: if record.position is Some {
            record.position
        } else {
            position
        },
        ..record
    }
}

/// Labels that agree on who parked the window as a sticky one agree on its pin.
pub(crate) proof fn same_parked_pin(a: RecordMap, b: RecordMap, id: u64)
    requires
        forall|label: Seq<char>| #[trigger]
            holds_sticky(a, label, id) <==> holds_sticky(b, label, id),
        forall|label: Seq<char>| #[trigger] holds_sticky(a, label, id) ==> a[label] == b[label],
    ensures
        parked_pin(a, id) == parked_pin(b, id),
{
    assert forall|label: Seq<char>|
        is_sticky_label(a, label, id) <==> is_sticky_label(b, label, id) by {
        assert(holds_sticky(a, label, id) <==> holds_sticky(b, label, id));
        if is_sticky_label(a, label, id) {
            assert forall|other: Seq<char>| #[trigger] holds_sticky(b, other, id) implies other
                == label || text::before(label, other) by {
                assert(holds_sticky(a, other, id));
            }
        }
        if is_sticky_label(b, label, id) {
            assert forall|other: Seq<char>| #[trigger] holds_sticky(a, other, id) implies other
                == label || text::before(label, other) by {
                assert(holds_sticky(b, other, id));
            }
        }
    }
    if exists|label: Seq<char>| is_sticky_label(a, label, id) {
        let x = choose|label: Seq<char>| is_sticky_label(a, label, id);
        assert(is_sticky_label(b, x, id));
        let y = choose|label: Seq<char>| is_sticky_label(b, label, id);
        sticky_labels_are_unique(b, x, y, id);
        assert(holds_sticky(a, x, id));
    } else if exists|label: Seq<char>| is_sticky_label(b, label, id) {
        let y = choose|label: Seq<char>| is_sticky_label(b, label, id);
        assert(is_sticky_label(a, y, id));
    }
}

proof fn sticky_labels_are_unique(pads: RecordMap, a: Seq<char>, b: Seq<char>, id: u64)
    requires
        is_sticky_label(pads, a, id),
        is_sticky_label(pads, b, id),
    ensures
        a == b,
{
    if a != b {
        assert(holds_sticky(pads, a, id) && holds_sticky(pads, b, id));
        text::before_is_transitive(a, b, a);
        text::before_is_irreflexive(a);
    }
}

impl StateModel {
    /// Nothing is tracked.
    pub open spec fn empty() -> Self {
        StateModel {
            sticky: Map::empty(),
            staged: Map::empty(),
            pads: Map::empty(),
            auto_staged: Set::empty(),
        }
    }

    /// The pin a window has as a sticky window; empty for one that is not.
    pub open spec fn pin(self, id: u64) -> Pin {
        if self.sticky.contains_key(id) {
            self.sticky[id]
        } else {
            Seq::empty()
        }
    }

    /// The window is sticky, with this pin.
    pub open spec fn stick(self, id: u64, pin: Pin) -> Self {
        StateModel { sticky: self.sticky.insert(id, pin), ..self }
    }

    /// The window is not sticky.
    pub open spec fn unstick(self, id: u64) -> Self {
        StateModel { sticky: self.sticky.remove(id), ..self }
    }

    /// The window moved from the sticky list, where it may have been, to the
    /// stage.
    pub open spec fn stage(
        self,
        id: u64,
        size: Option<(i32, i32)>,
        position: Option<Position>,
    ) -> Self {
        StateModel {
            sticky: self.sticky.remove(id),
            staged: self.staged.insert(
                id,
                StagedModel {
                    was_sticky: self.sticky.contains_key(id),
                    pin: self.pin(id),
                    size,
                    position,
                },
            ),
            ..self
        }
    }

    /// The window left the stage; it is sticky again where it was before.
    pub open spec fn unstage(self, id: u64) -> Self {
        StateModel {
            sticky: if self.staged[id].was_sticky {
                self.sticky.insert(id, self.staged[id].pin)
            } else {
                self.sticky
            },
            staged: self.staged.remove(id),
            ..self
        }
    }

    /// The window left the stage for the sticky list, with the pin it had.
    pub open spec fn bring_back(self, id: u64) -> Self {
        StateModel {
            sticky: self.sticky.insert(id, self.staged[id].pin),
            staged: self.staged.remove(id),
            ..self
        }
    }

    /// What is remembered of a window that a scratchpad parks: what the stage
    /// knew of it, else its pin and the geometry it has now.
    pub open spec fn pad_record(
        self,
        id: u64,
        size: Option<(i32, i32)>,
        position: Option<Position>,
    ) -> RecordModel {
        if self.staged.contains_key(id) {
            with_geometry(record_of(id, self.staged[id]), size, position)
        } else {
            RecordModel {
                id,
                was_sticky: self.sticky.contains_key(id),
                outputs: self.pin(id),
                size,
                position,
            }
        }
    }

    /// The window is not staged.
    pub open spec fn off_stage(self, id: u64) -> Self {
        StateModel { staged: self.staged.remove(id), ..self }
    }

    /// The window is parked under this label, and neither sticky nor staged. A
    /// label that parked it before keeps it as well.
    pub open spec fn park(
        self,
        label: Seq<char>,
        id: u64,
        size: Option<(i32, i32)>,
        position: Option<Position>,
    ) -> Self {
        StateModel {
            sticky: self.sticky.remove(id),
            staged: self.staged.remove(id),
            pads: self.pads.insert(label, self.pad_record(id, size, position)),
            ..self
        }
    }

    /// The window parked under this label is back; it is sticky again where it
    /// was before. It is not parked any more, so no label shows it once more.
    pub open spec fn unpark(self, label: Seq<char>) -> Self {
        let id = self.pads[label].id;
        StateModel {
            sticky: match pin_back(self.pads, label) {
                Some(pin) => self.sticky.insert(id, pin),
                None => self.sticky,
            },
            pads: pads_without(self.pads, id),
            ..self
        }
    }

    /// Every trace of the window is gone.
    pub open spec fn forget(self, id: u64) -> Self {
        StateModel {
            sticky: self.sticky.remove(id),
            staged: self.staged.remove(id),
            pads: pads_without(self.pads, id),
            auto_staged: self.auto_staged.remove(id),
        }
    }

    /// The state as it is persisted.
    pub open spec fn snapshot(self) -> StoredModel {
        StoredModel {
            version: STATE_VERSION,
            sticky: sorted_ids(self.sticky.dom()).map_values(
                |id: u64| StoredStickyModel::of(id, self.sticky[id]),
            ),
            staged: sorted_ids(self.staged.dom()).map_values(
                |id: u64| record_of(id, self.staged[id]),
            ),
            scratchpads: self.pads.map_values(
                |record: RecordModel| StoredScratchpadModel::Full(record),
            ),
        }
    }

    /// A persisted state, not validated against the compositor. Which windows
    /// a rule parked in this run is not persisted.
    pub open spec fn restore(self, stored: StoredModel) -> Self {
        StateModel {
            sticky: stored_pins(stored),
            staged: as_map(
                stored.staged.map_values(|record: RecordModel| (record.id, staged_of(record))),
            ),
            pads: stored_pads(stored),
            ..self
        }
    }
}

/// The pins a file lists.
pub open spec fn stored_pins(stored: StoredModel) -> Map<u64, Pin> {
    as_map(stored.sticky.map_values(|entry: StoredStickyModel| (entry.id(), entry.outputs())))
}

/// The scratchpad windows a file lists.
pub open spec fn stored_pads(stored: StoredModel) -> Map<Seq<char>, RecordModel> {
    stored.scratchpads.map_values(|entry: StoredScratchpadModel| entry.record())
}

impl Clone for StickyWindow {
    fn clone(&self) -> (r: Self)
        ensures
            r.deep_view() == self.deep_view(),
    {
        StickyWindow { pin: copy_texts(&self.pin) }
    }
}

impl Clone for StagedWindow {
    fn clone(&self) -> (r: Self)
        ensures
            r.deep_view() == self.deep_view(),
    {
        StagedWindow {
            was_sticky: self.was_sticky,
            pin: copy_texts(&self.pin),
            size: self.size,
            position: self.position,
        }
    }
}

/// A second record of the same window.
pub fn copy_record(record: &ScratchpadRecord) -> (r: ScratchpadRecord)
    ensures
        r.deep_view() == record.deep_view(),
{
    ScratchpadRecord {
        id: record.id,
        was_sticky: record.was_sticky,
        outputs: copy_texts(&record.outputs),
        size: record.size,
        position: record.position,
    }
}

fn no_texts() -> (r: Vec<String>)
    ensures
        r.deep_view() == Seq::<Seq<char>>::empty(),
{
    let r: Vec<String> = Vec::new();
    assert(r.deep_view() =~= Seq::<Seq<char>>::empty());
    r
}

/// A second list of the same sticky windows.
fn copy_sticky(table: &IdTable<StickyWindow>) -> (r: IdTable<StickyWindow>)
    ensures
        r.deep_view() == table.deep_view(),
{
    let ids = table.ids();
    let mut out: IdTable<StickyWindow> = IdTable::new();
    let mut i: usize = 0;
    while i < ids.len()
        invariant
            i <= ids@.len(),
            forall|id: u64| ids@.contains(id) <==> table.deep_view().contains_key(id),
            out.deep_view() =~= table.deep_view().restrict(ids@.take(i as int).to_set()),
        decreases ids.len() - i,
    {
        let id: u64 = ids[i];
        let ghost seen = ids@.take(i as int);
        assert(ids@.contains(id));
        if let Some(window) = table.get(id) {
            out.insert(id, window.clone());
        }
        assert(ids@.take(i + 1) =~= seen.push(id));
        assert(seen.push(id).to_set() =~= seen.to_set().insert(id)) by {
            assert forall|x: u64| seen.push(id).to_set().contains(x) <==> seen.to_set().insert(
                id,
            ).contains(x) by {
                one_more_id(seen, id, x);
            }
        }
        i = i + 1;
    }
    assert(ids@.take(i as int) =~= ids@);
    assert forall|id: u64| ids@.to_set().contains(id) <==> table.deep_view().contains_key(id) by {}
    assert(out.deep_view() =~= table.deep_view());
    out
}

/// A second list of the same staged windows.
fn copy_staged(table: &IdTable<StagedWindow>) -> (r: IdTable<StagedWindow>)
    ensures
        r.deep_view() == table.deep_view(),
{
    let ids = table.ids();
    let mut out: IdTable<StagedWindow> = IdTable::new();
    let mut i: usize = 0;
    while i < ids.len()
        invariant
            i <= ids@.len(),
            forall|id: u64| ids@.contains(id) <==> table.deep_view().contains_key(id),
            out.deep_view() =~= table.deep_view().restrict(ids@.take(i as int).to_set()),
        decreases ids.len() - i,
    {
        let id: u64 = ids[i];
        let ghost seen = ids@.take(i as int);
        assert(ids@.contains(id));
        if let Some(window) = table.get(id) {
            out.insert(id, window.clone());
        }
        assert(ids@.take(i + 1) =~= seen.push(id));
        assert(seen.push(id).to_set() =~= seen.to_set().insert(id)) by {
            assert forall|x: u64| seen.push(id).to_set().contains(x) <==> seen.to_set().insert(
                id,
            ).contains(x) by {
                one_more_id(seen, id, x);
            }
        }
        i = i + 1;
    }
    assert(ids@.take(i as int) =~= ids@);
    assert forall|id: u64| ids@.to_set().contains(id) <==> table.deep_view().contains_key(id) by {}
    assert(out.deep_view() =~= table.deep_view());
    out
}

/// A second set of the same ids.
fn copy_ids(ids: &HashSet<u64>) -> (r: HashSet<u64>)
    ensures
        r@ == ids@,
{
    let mut out: HashSet<u64> = HashSet::new();
    for id in iter: ids.iter()
        invariant
            iter.seq().unref().to_set() == ids@,
            out@ == iter.seq().unref().take(iter.index()).to_set(),
    {
        let ghost seen = iter.seq().unref().take(iter.index());
        out.insert(*id);
        assert(iter.seq().unref().take(iter.index() + 1) =~= seen.push(*id));
        assert(out@ =~= seen.push(*id).to_set()) by {
            assert forall|x: u64| out@.contains(x) <==> seen.push(*id).to_set().contains(x) by {
                one_more_id(seen, *id, x);
            }
        }
    }
    proof {
        let all = IteratorSpec::remaining(&spec_hash_keys_iter(ids)).unref();
        assert(all.take(all.len() as int) =~= all);
    }
    out
}

impl Clone for AppState {
    fn clone(&self) -> (r: Self)
        ensures
            r.deep_view() == self.deep_view(),
    {
        let mut slots: Vec<(String, ScratchpadRecord)> = Vec::new();
        let mut k: usize = 0;
        while k < self.scratchpad_slots.entries.len()
            invariant
                k <= self.scratchpad_slots.entries@.len(),
                slots.deep_view() =~= self.scratchpad_slots.entries.deep_view().take(k as int),
            decreases self.scratchpad_slots.entries.len() - k,
        {
            let ghost before = slots.deep_view();
            let entry = &self.scratchpad_slots.entries[k];
            let record = copy_record(&entry.1);
            slots.push((entry.0.clone(), record));
            assert(slots.deep_view() =~= before.push((entry.0@, record.deep_view())));
            k = k + 1;
        }
        assert(slots.deep_view() =~= self.scratchpad_slots.entries.deep_view());
        AppState {
            sticky_windows: copy_sticky(&self.sticky_windows),
            staged_windows: copy_staged(&self.staged_windows),
            scratchpad_slots: LabelTable { entries: slots },
            auto_staged: copy_ids(&self.auto_staged),
        }
    }
}

impl AppState {
    /// The state of a daemon that has never tracked a window.
    pub fn new() -> (r: Self)
        ensures
            r.deep_view() == StateModel::empty(),
    {
        let r = AppState {
            sticky_windows: IdTable::new(),
            staged_windows: IdTable::new(),
            scratchpad_slots: LabelTable::new(),
            auto_staged: HashSet::new(),
        };
        r
    }

    /// The pin a window has as a sticky window; empty for one that is not.
    pub fn pin(&self, id: u64) -> (r: Vec<String>)
        ensures
            r.deep_view() == self.deep_view().pin(id),
    {
        match self.sticky_windows.get(id) {
            Some(window) => copy_texts(&window.pin),
            None => no_texts(),
        }
    }

    pub fn stick(&mut self, id: u64, pin: Vec<String>)
        ensures
            final(self).deep_view() == old(self).deep_view().stick(id, pin.deep_view()),
    {
        self.sticky_windows.insert(id, StickyWindow { pin });
    }

    pub fn unstick(&mut self, id: u64)
        ensures
            final(self).deep_view() == old(self).deep_view().unstick(id),
    {
        self.sticky_windows.remove(id);
    }

    pub fn stage(&mut self, id: u64, size: Option<(i32, i32)>, position: Option<Position>)
        ensures
            final(self).deep_view() == old(self).deep_view().stage(id, size, position),
    {
        let was_sticky = self.sticky_windows.contains(id);
        let pin = self.pin(id);
        self.sticky_windows.remove(id);
        self.staged_windows.insert(id, StagedWindow { was_sticky, pin, size, position });
    }

    pub fn unstage(&mut self, id: u64)
        requires
            old(self).deep_view().staged.contains_key(id),
        ensures
            final(self).deep_view() == old(self).deep_view().unstage(id),
    {
        if let Some(staged) = self.staged_windows.get(id) {
            if staged.was_sticky {
                let pin = copy_texts(&staged.pin);
                self.sticky_windows.insert(id, StickyWindow { pin });
            }
        }
        self.staged_windows.remove(id);
    }

    /// What is remembered of a window that a scratchpad parks.
    pub fn pad_record(&self, id: u64, size: Option<(i32, i32)>, position: Option<Position>) -> (r:
        ScratchpadRecord)
        ensures
            r.deep_view() == self.deep_view().pad_record(id, size, position),
    {
        if let Some(staged) = self.staged_windows.get(id) {
            return ScratchpadRecord {
                id,
                was_sticky: staged.was_sticky,
                outputs: copy_texts(&staged.pin),
                size: if staged.size.is_some() {
                    staged.size
                } else {
                    size
                },
                position: if staged.position.is_some() {
                    staged.position
                } else {
                    position
                },
            };
        }
        ScratchpadRecord {
            id,
            was_sticky: self.sticky_windows.contains(id),
            outputs: self.pin(id),
            size,
            position,
        }
    }

    /// The first of the labels that parked a window as a sticky one.
    fn sticky_label(&self, id: u64) -> (r: Option<String>)
        ensures
            match r {
                Some(label) => is_sticky_label(self.deep_view().pads, label@, id),
                None => forall|label: Seq<char>| !holds_sticky(self.deep_view().pads, label, id),
            },
    {
        let labels = self.labels_of(id);
        let ghost pads = self.deep_view().pads;
        let ghost all = labels.deep_view();
        let mut best: Option<usize> = None;
        let mut i: usize = 0;
        while i < labels.len()
            invariant
                i <= labels@.len(),
                all == labels.deep_view(),
                pads == self.deep_view().pads,
                forall|label: Seq<char>| #[trigger]
                    all.contains(label) <==> pads.contains_key(label) && pads[label].id == id,
                match best {
                    Some(k) => k < i && holds_sticky(pads, all[k as int], id) && forall|j: int|
                        0 <= j < i && holds_sticky(pads, #[trigger] all[j], id) ==> all[j]
                            == all[k as int] || text::before(all[k as int], all[j]),
                    None => forall|j: int|
                        0 <= j < i ==> !holds_sticky(pads, #[trigger] all[j], id),
                },
            decreases labels.len() - i,
        {
            let label: &str = labels[i].as_str();
            assert(all[i as int] == label@);
            assert(all.contains(label@));
            if let Some(record) = self.scratchpad_slots.get(label) {
                if record.was_sticky {
                    match best {
                        Some(k) => {
                            if text::less(label, labels[k].as_str()) {
                                proof {
                                    let old_best = all[k as int];
                                    assert forall|j: int|
                                        0 <= j < i + 1 && holds_sticky(
                                            pads,
                                            #[trigger] all[j],
                                            id,
                                        ) implies all[j] == label@ || text::before(
                                        label@,
                                        all[j],
                                    ) by {
                                        if j < i && all[j] != old_best {
                                            text::before_is_transitive(label@, old_best, all[j]);
                                        }
                                    }
                                }
                                best = Some(i);
                            } else {
                                proof {
                                    text::before_is_total(label@, all[k as int]);
                                }
                            }
                        },
                        None => {
                            best = Some(i);
                        },
                    }
                }
            }
            i = i + 1;
        }
        proof {
            assert forall|label: Seq<char>| holds_sticky(pads, label, id) implies exists|j: int|
                0 <= j < all.len() && #[trigger] all[j] == label by {
                assert(all.contains(label));
            }
        }
        match best {
            Some(k) => {
                let first = labels[k].clone();
                proof {
                    assert(all[k as int] == first@);
                    assert forall|other: Seq<char>| #[trigger]
                        holds_sticky(pads, other, id) implies other == first@ || text::before(
                        first@,
                        other,
                    ) by {
                        let j = choose|j: int| 0 <= j < all.len() && #[trigger] all[j] == other;
                        assert(holds_sticky(pads, all[j], id));
                    }
                }
                Some(first)
            },
            None => {
                proof {
                    assert forall|label: Seq<char>| !holds_sticky(pads, label, id) by {
                        if holds_sticky(pads, label, id) {
                            let j = choose|j: int| 0 <= j < all.len() && #[trigger] all[j] == label;
                            assert(!holds_sticky(pads, all[j], id));
                        }
                    }
                }
                None
            },
        }
    }

    /// The pin with which the window of a scratchpad becomes sticky again.
    fn pin_back(&self, label: &str) -> (r: Option<Vec<String>>)
        requires
            self.deep_view().pads.contains_key(label@),
        ensures
            r.deep_view() == pin_back(self.deep_view().pads, label@),
    {
        let ghost pads = self.deep_view().pads;
        let id: u64 = match self.scratchpad_slots.get(label) {
            Some(record) => {
                if record.was_sticky {
                    return Some(copy_texts(&record.outputs));
                }
                record.id
            },
            None => {
                return None;
            },
        };
        match self.sticky_label(id) {
            Some(other) => {
                proof {
                    let chosen = choose|other: Seq<char>| is_sticky_label(pads, other, id);
                    sticky_labels_are_unique(pads, chosen, other@, id);
                    assert(holds_sticky(pads, other@, id));
                }
                match self.scratchpad_slots.get(other.as_str()) {
                    Some(record) => Some(copy_texts(&record.outputs)),
                    None => None,
                }
            },
            None => {
                proof {
                    assert forall|other: Seq<char>| !is_sticky_label(pads, other, id) by {
                        assert(!holds_sticky(pads, other, id));
                    }
                }
                None
            },
        }
    }

    pub fn park(
        &mut self,
        label: &str,
        id: u64,
        size: Option<(i32, i32)>,
        position: Option<Position>,
    )
        ensures
            final(self).deep_view() == old(self).deep_view().park(label@, id, size, position),
    {
        let record = self.pad_record(id, size, position);
        self.sticky_windows.remove(id);
        self.staged_windows.remove(id);
        self.scratchpad_slots.insert(label, record);
    }

    pub fn unpark(&mut self, label: &str)
        requires
            old(self).deep_view().pads.contains_key(label@),
        ensures
            final(self).deep_view() == old(self).deep_view().unpark(label@),
    {
        let pin = self.pin_back(label);
        if let Some(record) = self.scratchpad_slots.get(label) {
            let id: u64 = record.id;
            if let Some(pin) = pin {
                self.sticky_windows.insert(id, StickyWindow { pin });
            }
            self.drop_slots(id);
        }
    }

    /// Whether a window is parked by some scratchpad.
    pub fn is_parked(&self, id: u64) -> (r: bool)
        ensures
            r == is_parked(self.deep_view().pads, id),
    {
        has_record(&self.scratchpad_slots, id)
    }
}

/// Whether some slot holds this window.
pub fn has_record(slots: &LabelTable<ScratchpadRecord>, id: u64) -> (r: bool)
    ensures
        r == is_parked(slots.deep_view(), id),
{
    let ghost pads = slots.deep_view();
    let ghost s = slots.entries.deep_view();
    let mut i: usize = 0;
    while i < slots.entries.len()
        invariant
            i <= slots.entries@.len(),
            pads == slots.deep_view(),
            s == slots.entries.deep_view(),
            forall|j: int| 0 <= j < i ==> pads[(#[trigger] s[j]).0].id != id,
        decreases slots.entries.len() - i,
    {
        let label: &str = slots.entries[i].0.as_str();
        assert(s[i as int].0 == label@);
        if let Some(record) = slots.get(label) {
            if record.id == id {
                assert(pads.contains_key(label@));
                return true;
            }
        } else {
            proof {
                crate::tables::as_map_keys(s, label@);
            }
        }
        i = i + 1;
    }
    proof {
        if is_parked(pads, id) {
            let label = choose|label: Seq<char>| #[trigger]
                pads.contains_key(label) && pads[label].id == id;
            crate::tables::as_map_keys(s, label);
            let j = choose|j: int| 0 <= j < s.len() && (#[trigger] s[j]).0 == label;
            assert(pads[s[j].0].id != id);
        }
    }
    false
}

impl AppState {
    /// Drop every trace of a window, ignoring whether it was sticky or staged.
    pub fn forget(&mut self, id: u64)
        ensures
            final(self).deep_view() == old(self).deep_view().forget(id),
    {
        self.sticky_windows.remove(id);
        self.staged_windows.remove(id);
        self.auto_staged.remove(&id);
        self.drop_slots(id);
    }

    /// The window is parked under no label.
    fn drop_slots(&mut self, id: u64)
        ensures
            final(self).deep_view() == (StateModel {
                pads: pads_without(old(self).deep_view().pads, id),
                ..old(self).deep_view()
            }),
    {
        let ghost before = self.deep_view();
        let doomed = self.labels_of(id);
        let ghost labels = doomed.deep_view();
        let mut k: usize = 0;
        while k < doomed.len()
            invariant
                k <= doomed@.len(),
                labels == doomed.deep_view(),
                self.deep_view().sticky == before.sticky,
                self.deep_view().staged == before.staged,
                self.deep_view().auto_staged == before.auto_staged,
                forall|label: Seq<char>| #[trigger]
                    self.deep_view().pads.contains_key(label) <==> before.pads.contains_key(label)
                        && !labels.take(k as int).contains(label),
                forall|label: Seq<char>| #[trigger]
                    self.deep_view().pads.contains_key(label) ==> self.deep_view().pads[label]
                        == before.pads[label],
            decreases doomed.len() - k,
        {
            let ghost label = doomed@[k as int]@;
            assert(labels.take(k + 1) =~= labels.take(k as int).push(label));
            let ghost pads = self.deep_view().pads;
            self.scratchpad_slots.remove(doomed[k].as_str());
            assert(self.deep_view().pads == pads.remove(label));
            assert forall|l: Seq<char>| #[trigger]
                self.deep_view().pads.contains_key(l) <==> before.pads.contains_key(l)
                    && !labels.take(k + 1).contains(l) by {
                assert(pads.contains_key(l) <==> before.pads.contains_key(l) && !labels.take(
                    k as int,
                ).contains(l));
                let t = labels.take(k as int);
                if t.push(label).contains(l) && l != label {
                    let i = choose|i: int| 0 <= i < t.push(label).len() && t.push(label)[i] == l;
                    assert(t[i] == l);
                }
                if t.contains(l) {
                    let i = choose|i: int| 0 <= i < t.len() && t[i] == l;
                    assert(t.push(label)[i] == l);
                }
                assert(t.push(label)[t.len() as int] == label);
            }
            assert forall|l: Seq<char>| #[trigger]
                self.deep_view().pads.contains_key(l) implies self.deep_view().pads[l]
                == before.pads[l] by {
                assert(pads.contains_key(l));
            }
            k = k + 1;
        }
        assert(labels.take(k as int) =~= labels);
        assert(self.deep_view().pads =~= pads_without(before.pads, id));
    }

    /// The labels under which a window is parked.
    fn labels_of(&self, id: u64) -> (r: Vec<String>)
        ensures
            forall|label: Seq<char>| #[trigger]
                r.deep_view().contains(label) <==> self.deep_view().pads.contains_key(label)
                    && self.deep_view().pads[label].id == id,
    {
        let ghost pads = self.deep_view().pads;
        let ghost s = self.scratchpad_slots.entries.deep_view();
        let mut found: Vec<String> = Vec::new();
        let mut i: usize = 0;
        while i < self.scratchpad_slots.entries.len()
            invariant
                i <= self.scratchpad_slots.entries@.len(),
                pads == self.deep_view().pads,
                s == self.scratchpad_slots.entries.deep_view(),
                forall|label: Seq<char>| #[trigger]
                    found.deep_view().contains(label) ==> pads.contains_key(label)
                        && pads[label].id == id,
                forall|j: int|
                    0 <= j < i && pads[(#[trigger] s[j]).0].id == id ==> found.deep_view().contains(
                        s[j].0,
                    ),
            decreases self.scratchpad_slots.entries.len() - i,
        {
            let label: &str = self.scratchpad_slots.entries[i].0.as_str();
            assert(s[i as int].0 == label@);
            proof {
                crate::tables::as_map_keys(s, label@);
            }
            if let Some(record) = self.scratchpad_slots.get(label) {
                if record.id == id {
                    let ghost before = found.deep_view();
                    found.push(label.to_owned());
                    assert(found.deep_view() =~= before.push(label@));
                    assert(found.deep_view()[before.len() as int] == label@);
                    assert forall|l: Seq<char>| before.contains(l) implies #[trigger] found.deep_view().contains(l) by {
                        let k = choose|k: int| 0 <= k < before.len() && before[k] == l;
                        assert(found.deep_view()[k] == l);
                    }
                    assert forall|l: Seq<char>| #[trigger] found.deep_view().contains(l) implies pads.contains_key(l)
                        && pads[l].id == id by {
                        let k = choose|k: int| 0 <= k < found.deep_view().len() && found.deep_view()[k] == l;
                        if k < before.len() {
                            assert(before[k] == l);
                            assert(before.contains(l));
                        }
                    }
                }
            }
            i = i + 1;
        }
        proof {
            assert forall|label: Seq<char>| #[trigger] found.deep_view().contains(label) <==> pads.contains_key(label)
                && pads[label].id == id by {
                if pads.contains_key(label) && pads[label].id == id {
                    crate::tables::as_map_keys(s, label);
                    let j = choose|j: int| 0 <= j < s.len() && (#[trigger] s[j]).0 == label;
                    assert(pads[s[j].0].id == id);
                }
            }
        }
        found
    }

    /// Remember that a rule parked this window.
    pub fn mark_auto_staged(&mut self, id: u64)
        ensures
            final(self).deep_view() == (StateModel {
                auto_staged: old(self).deep_view().auto_staged.insert(id),
                ..old(self).deep_view()
            }),
    {
        self.auto_staged.insert(id);
    }

    /// The state as it is persisted.
    pub fn snapshot(&self) -> (r: StoredState)
        ensures
            r.deep_view() == self.deep_view().snapshot(),
    {
        let ghost st = self.deep_view();
        let ghost of_sticky = |id: u64| StoredStickyModel::of(id, st.sticky[id]);
        let ghost of_staged = |id: u64| record_of(id, st.staged[id]);
        let sticky_ids = self.sticky_windows.ids();
        let mut sticky: Vec<StoredSticky> = Vec::new();
        let mut i: usize = 0;
        while i < sticky_ids.len()
            invariant
                i <= sticky_ids@.len(),
                st == self.deep_view(),
                of_sticky == (|id: u64| StoredStickyModel::of(id, st.sticky[id])),
                forall|id: u64| sticky_ids@.contains(id) <==> st.sticky.contains_key(id),
                sticky.deep_view() =~= sticky_ids@.take(i as int).map_values(of_sticky),
            decreases sticky_ids.len() - i,
        {
            let id: u64 = sticky_ids[i];
            assert(sticky_ids@.contains(id));
            let ghost before = sticky.deep_view();
            let entry = StoredSticky::new(id, self.pin(id));
            sticky.push(entry);
            assert(sticky.deep_view() =~= before.push(entry.deep_view()));
            assert(entry.deep_view() == of_sticky(id));
            i = i + 1;
        }
        assert(sticky_ids@.take(i as int) =~= sticky_ids@);
        let staged_ids = self.staged_windows.ids();
        let mut staged: Vec<StoredStaged> = Vec::new();
        let mut j: usize = 0;
        while j < staged_ids.len()
            invariant
                j <= staged_ids@.len(),
                st == self.deep_view(),
                of_staged == (|id: u64| record_of(id, st.staged[id])),
                forall|id: u64| staged_ids@.contains(id) <==> st.staged.contains_key(id),
                staged.deep_view() =~= staged_ids@.take(j as int).map_values(of_staged),
            decreases staged_ids.len() - j,
        {
            let id: u64 = staged_ids[j];
            assert(staged_ids@.contains(id));
            let ghost before = staged.deep_view();
            if let Some(window) = self.staged_windows.get(id) {
                let entry = StoredStaged {
                    id,
                    was_sticky: window.was_sticky,
                    outputs: copy_texts(&window.pin),
                    size: window.size,
                    position: window.position,
                };
                staged.push(entry);
                assert(staged.deep_view() =~= before.push(entry.deep_view()));
                assert(entry.deep_view() == of_staged(id));
            }
            j = j + 1;
        }
        assert(staged_ids@.take(j as int) =~= staged_ids@);
        let scratchpads = self.stored_slots();
        let r = StoredState { version: STATE_VERSION, sticky, staged, scratchpads };
        assert(r.deep_view() =~= st.snapshot());
        r
    }

    fn stored_slots(&self) -> (r: Vec<(String, StoredScratchpad)>)
        ensures
            as_map(r.deep_view()) == self.deep_view().snapshot().scratchpads,
    {
        let ghost s = self.scratchpad_slots.entries.deep_view();
        let ghost f = |record: RecordModel| StoredScratchpadModel::Full(record);
        let mut slots: Vec<(String, StoredScratchpad)> = Vec::new();
        let mut k: usize = 0;
        assert(slots.deep_view() =~= Seq::<(Seq<char>, StoredScratchpadModel)>::empty());
        assert(as_map(slots.deep_view()) =~= as_map(s.take(0)).map_values(f));
        while k < self.scratchpad_slots.entries.len()
            invariant
                k <= self.scratchpad_slots.entries@.len(),
                s == self.scratchpad_slots.entries.deep_view(),
                f == (|record: RecordModel| StoredScratchpadModel::Full(record)),
                as_map(slots.deep_view()) == as_map(s.take(k as int)).map_values(f),
            decreases self.scratchpad_slots.entries.len() - k,
        {
            let ghost before = slots.deep_view();
            let entry = &self.scratchpad_slots.entries[k];
            let record = copy_record(&entry.1);
            let stored = StoredScratchpad::Full {
                id: record.id,
                was_sticky: record.was_sticky,
                outputs: record.outputs,
                size: record.size,
                position: record.position,
            };
            slots.push((entry.0.clone(), stored));
            proof {
                let label = entry.0@;
                assert(stored.deep_view() == f(entry.1.deep_view()));
                assert(slots.deep_view() =~= before.push((label, stored.deep_view())));
                assert(slots.deep_view().drop_last() =~= before);
                assert(s.take(k + 1).drop_last() =~= s.take(k as int));
                assert(s.take(k + 1).last() == (label, entry.1.deep_view()));
                assert(as_map(slots.deep_view()) =~= as_map(s.take(k + 1)).map_values(f));
            }
            k = k + 1;
        }
        assert(s.take(k as int) =~= s);
        slots
    }

    /// Restore a persisted state without validating it against the compositor.
    pub fn restore(&mut self, stored: &StoredState)
        ensures
            final(self).deep_view() == old(self).deep_view().restore(stored.deep_view()),
    {
        self.sticky_windows = pins_in(stored);
        self.staged_windows = staged_in(stored);
        self.scratchpad_slots = pads_in(stored);
    }
}

/// The pins a file lists.
pub fn pins_in(stored: &StoredState) -> (r: IdTable<StickyWindow>)
    ensures
        r.deep_view() == stored_pins(stored.deep_view()),
{
    let ghost f = |entry: StoredStickyModel| (entry.id(), entry.outputs());
    let ghost all = stored.deep_view().sticky.map_values(f);
    let mut table: IdTable<StickyWindow> = IdTable::new();
    let mut i: usize = 0;
    assert(all.take(0) =~= Seq::empty());
    while i < stored.sticky.len()
        invariant
            i <= stored.sticky@.len(),
            f == (|entry: StoredStickyModel| (entry.id(), entry.outputs())),
            all == stored.deep_view().sticky.map_values(f),
            table.deep_view() == as_map(all.take(i as int)),
        decreases stored.sticky.len() - i,
    {
        assert(all.take(i + 1).drop_last() =~= all.take(i as int));
        let (id, pin) = stored.sticky[i].clone().into_parts();
        assert(all.take(i + 1).last() == (id, pin.deep_view()));
        table.insert(id, StickyWindow { pin });
        i = i + 1;
    }
    assert(all.take(i as int) =~= all);
    table
}

/// The staged windows a file lists.
pub fn staged_in(stored: &StoredState) -> (r: IdTable<StagedWindow>)
    ensures
        r.deep_view() == as_map(
            stored.deep_view().staged.map_values(
                |record: RecordModel| (record.id, staged_of(record)),
            ),
        ),
{
    let ghost f = |record: RecordModel| (record.id, staged_of(record));
    let ghost all = stored.deep_view().staged.map_values(f);
    let mut table: IdTable<StagedWindow> = IdTable::new();
    let mut i: usize = 0;
    assert(all.take(0) =~= Seq::empty());
    while i < stored.staged.len()
        invariant
            i <= stored.staged@.len(),
            f == (|record: RecordModel| (record.id, staged_of(record))),
            all == stored.deep_view().staged.map_values(f),
            table.deep_view() == as_map(all.take(i as int)),
        decreases stored.staged.len() - i,
    {
        assert(all.take(i + 1).drop_last() =~= all.take(i as int));
        let entry = stored.staged[i].clone();
        let window = StagedWindow {
            was_sticky: entry.was_sticky,
            pin: entry.outputs,
            size: entry.size,
            position: entry.position,
        };
        assert(all.take(i + 1).last() == (entry.id, window.deep_view()));
        table.insert(entry.id, window);
        i = i + 1;
    }
    assert(all.take(i as int) =~= all);
    table
}

/// The scratchpad windows a file lists.
pub fn pads_in(stored: &StoredState) -> (r: LabelTable<ScratchpadRecord>)
    ensures
        r.deep_view() == stored_pads(stored.deep_view()),
{
    let ghost f = |entry: StoredScratchpadModel| entry.record();
    let ghost s = stored.scratchpads.deep_view();
    let mut table: LabelTable<ScratchpadRecord> = LabelTable::new();
    let mut i: usize = 0;
    assert(s.take(0) =~= Seq::<(Seq<char>, StoredScratchpadModel)>::empty());
    assert(table.deep_view() =~= as_map(s.take(0)).map_values(f));
    while i < stored.scratchpads.len()
        invariant
            i <= stored.scratchpads@.len(),
            f == (|entry: StoredScratchpadModel| entry.record()),
            s == stored.scratchpads.deep_view(),
            table.deep_view() == as_map(s.take(i as int)).map_values(f),
        decreases stored.scratchpads.len() - i,
    {
        let entry = &stored.scratchpads[i];
        let record = entry.1.clone().into_record();
        proof {
            assert(s.take(i + 1).drop_last() =~= s.take(i as int));
            assert(s.take(i + 1).last() == (entry.0@, entry.1.deep_view()));
            assert(as_map(s.take(i as int)).map_values(f).insert(entry.0@, record.deep_view())
                =~= as_map(s.take(i + 1)).map_values(f));
        }
        table.insert(entry.0.as_str(), record);
        i = i + 1;
    }
    assert(s.take(i as int) =~= s);
    table
}

// What holds of every state.

/// A window that is staged and brought back is sticky again with the pin it had,
/// if it was sticky; nothing else changes.
pub proof fn unstaging_undoes_staging(
    state: StateModel,
    id: u64,
    size: Option<(i32, i32)>,
    position: Option<Position>,
)
    requires
        !state.staged.contains_key(id),
    ensures
        state.stage(id, size, position).unstage(id) == state,
{
    let back = state.stage(id, size, position).unstage(id);
    assert(back.sticky =~= state.sticky);
    assert(back.staged =~= state.staged);
}

/// A window that a scratchpad parks and shows again is sticky again with the pin
/// it had, if it was sticky; nothing else changes.
pub proof fn showing_undoes_parking(
    state: StateModel,
    label: Seq<char>,
    id: u64,
    size: Option<(i32, i32)>,
    position: Option<Position>,
)
    requires
        !state.staged.contains_key(id),
        !state.pads.contains_key(label),
        !is_parked(state.pads, id),
    ensures
        state.park(label, id, size, position).unpark(label) == state,
{
    let parked = state.park(label, id, size, position);
    let back = parked.unpark(label);
    assert(pin_back(parked.pads, label) == (if state.sticky.contains_key(id) {
        Some(state.sticky[id])
    } else {
        None
    })) by {
        assert forall|other: Seq<char>| is_sticky_label(parked.pads, other, id) implies other
            == label by {
            assert(holds(parked.pads, other, id));
            if other != label {
                assert(state.pads.contains_key(other));
            }
        }
    }
    assert(back.sticky =~= state.sticky);
    assert(back.staged =~= state.staged);
    assert(back.pads =~= state.pads);
}

/// A window that a scratchpad takes over from the stage is no longer staged, and
/// what the stage remembered of it is what the scratchpad remembers.
pub proof fn a_scratchpad_takes_over_from_the_stage(
    state: StateModel,
    label: Seq<char>,
    id: u64,
    size: Option<(i32, i32)>,
    position: Option<Position>,
)
    requires
        state.staged.contains_key(id),
    ensures
        ({
            let parked = state.park(label, id, size, position);
            &&& !parked.staged.contains_key(id)
            &&& !parked.sticky.contains_key(id)
            &&& parked.pads[label].id == id
            &&& parked.pads[label].was_sticky == state.staged[id].was_sticky
            &&& parked.pads[label].outputs == state.staged[id].pin
            &&& state.staged[id].size is Some ==> parked.pads[label].size == state.staged[id].size
            &&& state.staged[id].position is Some ==> parked.pads[label].position
                == state.staged[id].position
        }),
{
}

/// A window that a second label parks stays with the first one too: whichever is
/// pressed next brings it back, as sticky as it was, and then no label holds it.
pub proof fn any_of_its_labels_brings_a_window_back(
    state: StateModel,
    first: Seq<char>,
    second: Seq<char>,
    pressed: Seq<char>,
    id: u64,
    size: Option<(i32, i32)>,
    position: Option<Position>,
)
    requires
        !state.sticky.contains_key(id),
        !state.staged.contains_key(id),
        holds(state.pads, first, id),
        forall|other: Seq<char>| #[trigger] holds(state.pads, other, id) ==> other == first,
        !state.pads.contains_key(second),
        pressed == first || pressed == second,
    ensures
        ({
            let parked = state.park(second, id, size, position);
            let back = parked.unpark(pressed);
            &&& parked.pads[first] == state.pads[first]
            &&& holds(parked.pads, second, id)
            &&& !is_parked(back.pads, id)
            &&& back.sticky.contains_key(id) == state.pads[first].was_sticky
            &&& back.sticky.contains_key(id) ==> back.sticky[id] == state.pads[first].outputs
        }),
{
    let parked = state.park(second, id, size, position);
    assert(holds(parked.pads, first, id) && holds(parked.pads, second, id));
    assert forall|other: Seq<char>| #[trigger] holds_sticky(parked.pads, other, id) implies other
        == first by {
        if other != second {
            assert(holds(state.pads, other, id));
        }
    }
    if state.pads[first].was_sticky {
        assert(is_sticky_label(parked.pads, first, id));
        let chosen = choose|other: Seq<char>| is_sticky_label(parked.pads, other, id);
        sticky_labels_are_unique(parked.pads, chosen, first, id);
    } else {
        assert forall|other: Seq<char>| !is_sticky_label(parked.pads, other, id) by {
            assert(holds_sticky(parked.pads, other, id) ==> other == first);
        }
    }
}

/// Nothing is left of a window that is forgotten, and nothing changes for the
/// others.
pub proof fn forgetting_leaves_no_trace(state: StateModel, id: u64)
    ensures
        ({
            let left = state.forget(id);
            &&& !left.sticky.contains_key(id)
            &&& !left.staged.contains_key(id)
            &&& !is_parked(left.pads, id)
            &&& !left.auto_staged.contains(id)
            &&& forall|other: u64|
                other != id ==> {
                    &&& #[trigger] left.sticky.contains_key(other) == state.sticky.contains_key(
                        other,
                    )
                    &&& left.sticky.contains_key(other) ==> left.sticky[other]
                        == state.sticky[other]
                    &&& left.staged.contains_key(other) == state.staged.contains_key(other)
                    &&& left.staged.contains_key(other) ==> left.staged[other]
                        == state.staged[other]
                    &&& left.auto_staged.contains(other) == state.auto_staged.contains(other)
                }
            &&& forall|label: Seq<char>| #[trigger]
                state.pads.contains_key(label) && state.pads[label].id != id ==> {
                    &&& left.pads.contains_key(label)
                    &&& left.pads[label] == state.pads[label]
                }
        }),
{
}

/// What is read back from a state that was written is that state, but for which
/// windows a rule parked in this run.
pub proof fn restoring_undoes_storing(state: StateModel, fresh: StateModel)
    ensures
        fresh.restore(state.snapshot()) == (StateModel {
            auto_staged: fresh.auto_staged,
            ..state
        }),
{
    let stored = state.snapshot();
    let back = fresh.restore(stored);
    as_map_of_ids(state.sticky);
    assert forall|id: u64, pin: Pin| (#[trigger] StoredStickyModel::of(id, pin)).outputs()
        == pin by {
        assert(pin.len() == 0 ==> pin =~= Seq::empty());
    }
    assert(stored.sticky.map_values(
        |entry: StoredStickyModel| (entry.id(), entry.outputs()),
    ) =~= sorted_ids(state.sticky.dom()).map_values(|id: u64| (id, state.sticky[id])));
    as_map_of_ids(state.staged);
    assert(stored.staged.map_values(|record: RecordModel| (record.id, staged_of(record)))
        =~= sorted_ids(state.staged.dom()).map_values(|id: u64| (id, state.staged[id])));
    assert(back.pads =~= state.pads);
}

} // verus!
