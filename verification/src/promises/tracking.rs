//! What is remembered of a window while it is sticky, staged or parked, and of
//! all of them while the daemon is down.
use vstd::prelude::*;
use crate::niri::Position;
use crate::state::{
    holds_sticky, is_parked, is_sticky_label, stored_pads, stored_pins, Pin, StateModel,
};
use crate::state_store::{
    RecordModel, StoredModel, StoredScratchpadModel, StoredStickyModel, STATE_VERSION,
};
use crate::tables::{as_map, ascending, sorted_ids, sorted_ids_are_sorted};
use crate::text;

verus! {

/// Other windows are tracked as before.
pub open spec fn others_stay(before: StateModel, after: StateModel, id: u64) -> bool {
    &&& forall|other: u64|
        other != id ==> {
            &&& #[trigger] after.sticky.contains_key(other) == before.sticky.contains_key(other)
            &&& before.sticky.contains_key(other) ==> after.sticky[other] == before.sticky[other]
        }
    &&& forall|other: u64|
        other != id ==> {
            &&& #[trigger] after.staged.contains_key(other) == before.staged.contains_key(other)
            &&& before.staged.contains_key(other) ==> after.staged[other] == before.staged[other]
        }
    &&& forall|label: Seq<char>|
        before.pads.contains_key(label) && before.pads[label].id != id ==> {
            &&& #[trigger] after.pads.contains_key(label)
            &&& after.pads[label] == before.pads[label]
        }
    &&& forall|other: u64|
        other != id ==> #[trigger] after.auto_staged.contains(other) == before.auto_staged.contains(
            other,
        )
}

/// A window that becomes sticky has the pin that it is given, whether it was
/// sticky before or not; nothing else changes.
pub proof fn a_window_becomes_sticky_with_its_pin(state: StateModel, id: u64, pin: Pin)
    ensures
        state.stick(id, pin).sticky.contains_key(id),
        state.stick(id, pin).sticky[id] == pin,
        state.stick(id, pin).staged == state.staged,
        state.stick(id, pin).pads == state.pads,
        state.stick(id, pin).auto_staged == state.auto_staged,
        others_stay(state, state.stick(id, pin), id),
{
}

/// A window that is not sticky any more is off the list; nothing else changes.
pub proof fn a_window_is_sticky_no_more(state: StateModel, id: u64)
    ensures
        !state.unstick(id).sticky.contains_key(id),
        state.unstick(id).staged == state.staged,
        state.unstick(id).pads == state.pads,
        state.unstick(id).auto_staged == state.auto_staged,
        others_stay(state, state.unstick(id), id),
{
}

/// Of a window on the stage it is remembered whether it was sticky, the pin it
/// had then, and its geometry; it is not sticky while it is there.
pub proof fn the_stage_remembers(
    state: StateModel,
    id: u64,
    size: Option<(i32, i32)>,
    position: Option<Position>,
)
    ensures
        ({
            let after = state.stage(id, size, position);
            &&& after.staged.contains_key(id)
            &&& after.staged[id].size == size
            &&& after.staged[id].position == position
            &&& after.staged[id].was_sticky == state.sticky.contains_key(id)
            &&& state.sticky.contains_key(id) ==> after.staged[id].pin == state.sticky[id]
            &&& !state.sticky.contains_key(id) ==> after.staged[id].pin.len() == 0
            &&& !after.sticky.contains_key(id)
            &&& after.pads == state.pads
            &&& after.auto_staged == state.auto_staged
            &&& others_stay(state, after, id)
        }),
{
}

/// A window that leaves the stage is sticky again where it was sticky before,
/// with the pin it had; one that was not stays as it was.
pub proof fn the_stage_gives_back(state: StateModel, id: u64)
    requires
        state.staged.contains_key(id),
    ensures
        ({
            let after = state.unstage(id);
            &&& !after.staged.contains_key(id)
            &&& state.staged[id].was_sticky ==> after.sticky.contains_key(id) && after.sticky[id]
                == state.staged[id].pin
            &&& !state.staged[id].was_sticky ==> after.sticky == state.sticky
            &&& after.pads == state.pads
            &&& after.auto_staged == state.auto_staged
            &&& others_stay(state, after, id)
        }),
{
}

/// A window that is brought back from the stage as a sticky one is sticky with
/// the pin that the stage remembers, whether it was sticky before or not.
pub proof fn a_window_brought_back_is_sticky(state: StateModel, id: u64)
    requires
        state.staged.contains_key(id),
    ensures
        ({
            let after = state.bring_back(id);
            &&& !after.staged.contains_key(id)
            &&& after.sticky.contains_key(id)
            &&& after.sticky[id] == state.staged[id].pin
            &&& after.pads == state.pads
            &&& after.auto_staged == state.auto_staged
            &&& others_stay(state, after, id)
        }),
{
}

/// A window is parked while some label holds it.
pub proof fn a_window_is_parked_while_a_label_holds_it(state: StateModel, id: u64)
    ensures
        is_parked(state.pads, id) <==> exists|label: Seq<char>| #[trigger]
            state.pads.contains_key(label) && state.pads[label].id == id,
{
}

/// A scratchpad remembers of the window it parks whether it was sticky, its
/// pin, its size and its position: what the stage knew of it where it was
/// staged, and the geometry it has now where the stage knew none.
pub proof fn a_scratchpad_remembers(
    state: StateModel,
    label: Seq<char>,
    id: u64,
    size: Option<(i32, i32)>,
    position: Option<Position>,
)
    ensures
        ({
            let after = state.park(label, id, size, position);
            let record = after.pads[label];
            let staged = state.staged.contains_key(id);
            let known = state.staged[id];
            &&& after.pads.contains_key(label)
            &&& record.id == id
            &&& !after.sticky.contains_key(id)
            &&& !after.staged.contains_key(id)
            &&& staged ==> record.was_sticky == known.was_sticky && record.outputs == known.pin
            &&& !staged ==> record.was_sticky == state.sticky.contains_key(id)
            &&& !staged && state.sticky.contains_key(id) ==> record.outputs == state.sticky[id]
            &&& !staged && !state.sticky.contains_key(id) ==> record.outputs.len() == 0
            &&& staged && known.size is Some ==> record.size == known.size
            &&& staged && known.position is Some ==> record.position == known.position
            &&& !staged || known.size is None ==> record.size == size
            &&& !staged || known.position is None ==> record.position == position
            &&& after.auto_staged == state.auto_staged
            &&& forall|other: Seq<char>|
                other != label ==> {
                    &&& #[trigger] after.pads.contains_key(other) == state.pads.contains_key(other)
                    &&& state.pads.contains_key(other) ==> after.pads[other] == state.pads[other]
                }
            &&& forall|other: u64|
                other != id ==> {
                    &&& #[trigger] after.sticky.contains_key(other) == state.sticky.contains_key(
                        other,
                    )
                    &&& state.sticky.contains_key(other) ==> after.sticky[other]
                        == state.sticky[other]
                }
            &&& forall|other: u64|
                other != id ==> {
                    &&& #[trigger] after.staged.contains_key(other) == state.staged.contains_key(
                        other,
                    )
                    &&& state.staged.contains_key(other) ==> after.staged[other]
                        == state.staged[other]
                }
        }),
{
}

/// A window that a scratchpad shows is parked under no label any more. It is
/// sticky again with the pin its label remembers where it was sticky before, or
/// else with the pin of the first label that parked it as a sticky one.
pub proof fn a_scratchpad_gives_back(state: StateModel, label: Seq<char>)
    requires
        state.pads.contains_key(label),
    ensures
        ({
            let record = state.pads[label];
            let after = state.unpark(label);
            &&& forall|other: Seq<char>| #[trigger]
                after.pads.contains_key(other) <==> state.pads.contains_key(other)
                    && state.pads[other].id != record.id
            &&& record.was_sticky ==> after.sticky.contains_key(record.id)
                && after.sticky[record.id] == record.outputs
            &&& !record.was_sticky && (forall|other: Seq<char>| #[trigger]
                state.pads.contains_key(other) && state.pads[other].id == record.id
                    ==> !state.pads[other].was_sticky) ==> after.sticky == state.sticky
            &&& forall|other: Seq<char>|
                !record.was_sticky && #[trigger] state.pads.contains_key(other)
                    && state.pads[other].id == record.id && state.pads[other].was_sticky && (forall|
                    third: Seq<char>,
                | #[trigger]
                    state.pads.contains_key(third) && state.pads[third].id == record.id
                        && state.pads[third].was_sticky ==> third == other || text::before(
                        other,
                        third,
                    )) ==> after.sticky.contains_key(record.id) && after.sticky[record.id]
                    == state.pads[other].outputs
            &&& after.staged == state.staged
            &&& after.auto_staged == state.auto_staged
            &&& others_stay(state, after, record.id)
        }),
{
    let record = state.pads[label];
    let after = state.unpark(label);
    let id = record.id;
    if !record.was_sticky {
        if exists|other: Seq<char>| is_sticky_label(state.pads, other, id) {
            let other = choose|other: Seq<char>| is_sticky_label(state.pads, other, id);
            assert(holds_sticky(state.pads, other, id));
            assert(state.pads.contains_key(other));
        }
        assert forall|other: Seq<char>| #[trigger]
            state.pads.contains_key(other) && state.pads[other].id == id
                && state.pads[other].was_sticky && (forall|third: Seq<char>| #[trigger]
                state.pads.contains_key(third) && state.pads[third].id == id
                    && state.pads[third].was_sticky ==> third == other || text::before(
                    other,
                    third,
                )) implies after.sticky.contains_key(id) && after.sticky[id]
            == state.pads[other].outputs by {
            assert(holds_sticky(state.pads, other, id));
            assert forall|third: Seq<char>| #[trigger]
                holds_sticky(state.pads, third, id) implies third == other || text::before(
                other,
                third,
            ) by {
                assert(state.pads.contains_key(third));
            }
            assert(is_sticky_label(state.pads, other, id));
            let chosen = choose|l: Seq<char>| is_sticky_label(state.pads, l, id);
            assert(holds_sticky(state.pads, chosen, id));
            if chosen != other {
                text::before_is_transitive(chosen, other, chosen);
                text::before_is_irreflexive(chosen);
            }
        }
    }
}

/// A window that is gone is tracked nowhere: neither sticky, nor staged, nor
/// held by any label, nor counted as staged by a rule. Others stay as they are.
pub proof fn a_forgotten_window_is_nowhere(state: StateModel, id: u64)
    ensures
        ({
            let after = state.forget(id);
            &&& !after.sticky.contains_key(id)
            &&& !after.staged.contains_key(id)
            &&& !after.auto_staged.contains(id)
            &&& forall|label: Seq<char>| #[trigger]
                after.pads.contains_key(label) <==> state.pads.contains_key(label)
                    && state.pads[label].id != id
            &&& others_stay(state, after, id)
        }),
{
}

// What is stored.

pub(crate) proof fn the_last_entry_counts<K, V>(entries: Seq<(K, V)>, at: int)
    requires
        0 <= at < entries.len(),
        forall|j: int| at < j < entries.len() ==> (#[trigger] entries[j]).0 != entries[at].0,
    ensures
        as_map(entries).contains_key(entries[at].0),
        as_map(entries)[entries[at].0] == entries[at].1,
    decreases entries.len(),
{
    if at < entries.len() - 1 {
        let rest = entries.drop_last();
        assert forall|j: int| at < j < rest.len() implies (#[trigger] rest[j]).0 != rest[at].0 by {
            assert(entries[j].0 != entries[at].0);
        }
        the_last_entry_counts(rest, at);
        assert(entries[entries.len() - 1].0 != entries[at].0);
    }
}

pub(crate) proof fn only_entries_count<K, V>(entries: Seq<(K, V)>, key: K)
    ensures
        as_map(entries).contains_key(key) <==> exists|i: int|
            0 <= i < entries.len() && (#[trigger] entries[i]).0 == key,
    decreases entries.len(),
{
    if entries.len() > 0 {
        let rest = entries.drop_last();
        only_entries_count(rest, key);
        if as_map(rest).contains_key(key) {
            let i = choose|i: int| 0 <= i < rest.len() && (#[trigger] rest[i]).0 == key;
            assert(entries[i].0 == key);
        }
        assert(entries[entries.len() - 1] == entries.last());
        if exists|i: int| 0 <= i < entries.len() && (#[trigger] entries[i]).0 == key {
            let i = choose|i: int| 0 <= i < entries.len() && (#[trigger] entries[i]).0 == key;
            if i < rest.len() {
                assert(rest[i].0 == key);
            }
        }
    }
}

/// The window that a stored entry of the sticky list is about.
pub open spec fn sticky_entry_is_for(entry: StoredStickyModel, id: u64) -> bool {
    match entry {
        StoredStickyModel::Id(x) => x == id,
        StoredStickyModel::Pinned { id: x, .. } => x == id,
    }
}

/// A stored sticky window is read with the outputs stored with it, and with
/// none where only its id is stored. No other window is sticky.
pub proof fn sticky_entries_are_read(stored: StoredModel, at: int)
    requires
        0 <= at < stored.sticky.len(),
    ensures
        match stored.sticky[at] {
            StoredStickyModel::Id(id) => (forall|j: int|
                at < j < stored.sticky.len() ==> !sticky_entry_is_for(
                    #[trigger] stored.sticky[j],
                    id,
                )) ==> stored_pins(stored).contains_key(id) && stored_pins(stored)[id].len() == 0,
            StoredStickyModel::Pinned { id, outputs } => (forall|j: int|
                at < j < stored.sticky.len() ==> !sticky_entry_is_for(
                    #[trigger] stored.sticky[j],
                    id,
                )) ==> stored_pins(stored).contains_key(id) && stored_pins(stored)[id] == outputs,
        },
        forall|id: u64| #[trigger]
            stored_pins(stored).contains_key(id) <==> exists|i: int|
                0 <= i < stored.sticky.len() && sticky_entry_is_for(
                    #[trigger] stored.sticky[i],
                    id,
                ),
{
    let entries = stored.sticky.map_values(
        |entry: StoredStickyModel| (entry.id(), entry.outputs()),
    );
    let id = match stored.sticky[at] {
        StoredStickyModel::Id(id) => id,
        StoredStickyModel::Pinned { id, .. } => id,
    };
    if forall|j: int|
        at < j < stored.sticky.len() ==> !sticky_entry_is_for(#[trigger] stored.sticky[j], id) {
        assert forall|j: int| at < j < entries.len() implies (#[trigger] entries[j]).0
            != entries[at].0 by {
            assert(!sticky_entry_is_for(stored.sticky[j], id));
        }
        the_last_entry_counts(entries, at);
    }
    assert forall|id: u64| #[trigger]
        stored_pins(stored).contains_key(id) <==> exists|i: int|
            0 <= i < stored.sticky.len() && sticky_entry_is_for(
                #[trigger] stored.sticky[i],
                id,
            ) by {
        only_entries_count(entries, id);
        if stored_pins(stored).contains_key(id) {
            let i = choose|i: int| 0 <= i < entries.len() && (#[trigger] entries[i]).0 == id;
            assert(sticky_entry_is_for(stored.sticky[i], id));
        }
        if exists|i: int|
            0 <= i < stored.sticky.len() && sticky_entry_is_for(#[trigger] stored.sticky[i], id) {
            let i = choose|i: int|
                0 <= i < stored.sticky.len() && sticky_entry_is_for(
                    #[trigger] stored.sticky[i],
                    id,
                );
            assert(entries[i].0 == id);
        }
    }
}

/// A stored staged window is read with everything that is stored of it. No
/// other window is staged.
pub proof fn staged_entries_are_read(state: StateModel, stored: StoredModel, at: int)
    requires
        0 <= at < stored.staged.len(),
    ensures
        ({
            let record = stored.staged[at];
            let staged = state.restore(stored).staged;
            &&& (forall|j: int|
                at < j < stored.staged.len() ==> (#[trigger] stored.staged[j]).id != record.id)
                ==> {
                &&& staged.contains_key(record.id)
                &&& staged[record.id].was_sticky == record.was_sticky
                &&& staged[record.id].pin == record.outputs
                &&& staged[record.id].size == record.size
                &&& staged[record.id].position == record.position
            }
            &&& forall|id: u64| #[trigger]
                staged.contains_key(id) <==> exists|i: int|
                    0 <= i < stored.staged.len() && (#[trigger] stored.staged[i]).id == id
        }),
{
    let entries = stored.staged.map_values(
        |record: RecordModel| (record.id, crate::state::staged_of(record)),
    );
    let record = stored.staged[at];
    let staged = state.restore(stored).staged;
    if forall|j: int|
        at < j < stored.staged.len() ==> (#[trigger] stored.staged[j]).id != record.id {
        assert forall|j: int| at < j < entries.len() implies (#[trigger] entries[j]).0
            != entries[at].0 by {
            assert(stored.staged[j].id != record.id);
        }
        the_last_entry_counts(entries, at);
    }
    assert forall|id: u64| #[trigger]
        staged.contains_key(id) <==> exists|i: int|
            0 <= i < stored.staged.len() && (#[trigger] stored.staged[i]).id == id by {
        only_entries_count(entries, id);
        if staged.contains_key(id) {
            let i = choose|i: int| 0 <= i < entries.len() && (#[trigger] entries[i]).0 == id;
            assert(stored.staged[i].id == id);
        }
        if exists|i: int| 0 <= i < stored.staged.len() && (#[trigger] stored.staged[i]).id == id {
            let i = choose|i: int|
                0 <= i < stored.staged.len() && (#[trigger] stored.staged[i]).id == id;
            assert(entries[i].0 == id);
        }
    }
}

/// A stored scratchpad window is read under its label, with everything that is
/// stored of it; of one that is stored by its id alone, nothing else is known.
pub proof fn scratchpad_entries_are_read(stored: StoredModel, label: Seq<char>)
    ensures
        stored_pads(stored).contains_key(label) <==> stored.scratchpads.contains_key(label),
        stored.scratchpads.contains_key(label) ==> match stored.scratchpads[label] {
            StoredScratchpadModel::Full(record) => stored_pads(stored)[label] == record,
            StoredScratchpadModel::Id(id) => {
                &&& stored_pads(stored)[label].id == id
                &&& !stored_pads(stored)[label].was_sticky
                &&& stored_pads(stored)[label].outputs.len() == 0
                &&& stored_pads(stored)[label].size is None
                &&& stored_pads(stored)[label].position is None
            },
        },
{
}

/// What is written lists every sticky and every staged window once, by
/// ascending id, each with everything that is known of it, and every label with
/// its record.
pub proof fn everything_is_written(state: StateModel)
    ensures
        ({
            let stored = state.snapshot();
            &&& stored.version == STATE_VERSION
            &&& ascending(sorted_ids(state.sticky.dom()))
            &&& stored.sticky.len() == sorted_ids(state.sticky.dom()).len()
            &&& forall|i: int|
                0 <= i < stored.sticky.len() ==> {
                    let id = sorted_ids(state.sticky.dom())[i];
                    &&& state.sticky.contains_key(id)
                    &&& state.sticky[id].len() == 0 ==> #[trigger] stored.sticky[i]
                        == StoredStickyModel::Id(id)
                    &&& state.sticky[id].len() > 0 ==> stored.sticky[i] == (
                    StoredStickyModel::Pinned { id, outputs: state.sticky[id] })
                }
            &&& forall|id: u64| #[trigger]
                state.sticky.contains_key(id) ==> exists|i: int|
                    0 <= i < stored.sticky.len() && sticky_entry_is_for(
                        #[trigger] stored.sticky[i],
                        id,
                    )
            &&& forall|i: int, j: int|
                0 <= i < j < stored.staged.len() ==> (#[trigger] stored.staged[i]).id < (
                #[trigger] stored.staged[j]).id
            &&& forall|i: int|
                0 <= i < stored.staged.len() ==> {
                    let record = #[trigger] stored.staged[i];
                    &&& state.staged.contains_key(record.id)
                    &&& record.was_sticky == state.staged[record.id].was_sticky
                    &&& record.outputs == state.staged[record.id].pin
                    &&& record.size == state.staged[record.id].size
                    &&& record.position == state.staged[record.id].position
                }
            &&& forall|id: u64| #[trigger]
                state.staged.contains_key(id) ==> exists|i: int|
                    0 <= i < stored.staged.len() && (#[trigger] stored.staged[i]).id == id
            &&& forall|label: Seq<char>| #[trigger]
                stored.scratchpads.contains_key(label) <==> state.pads.contains_key(label)
            &&& forall|label: Seq<char>| #[trigger]
                state.pads.contains_key(label) ==> stored.scratchpads[label]
                    == StoredScratchpadModel::Full(state.pads[label])
        }),
{
    let stored = state.snapshot();
    let sticky = sorted_ids(state.sticky.dom());
    let staged = sorted_ids(state.staged.dom());
    sorted_ids_are_sorted(state.sticky.dom());
    sorted_ids_are_sorted(state.staged.dom());
    assert forall|i: int| 0 <= i < stored.sticky.len() implies {
        let id = sticky[i];
        &&& state.sticky.contains_key(id)
        &&& state.sticky[id].len() == 0 ==> #[trigger] stored.sticky[i] == StoredStickyModel::Id(id)
        &&& state.sticky[id].len() > 0 ==> stored.sticky[i] == (StoredStickyModel::Pinned {
            id,
            outputs: state.sticky[id],
        })
    } by {
        assert(sticky.to_set().contains(sticky[i]));
    }
    assert forall|id: u64| #[trigger] state.sticky.contains_key(id) implies exists|i: int|
        0 <= i < stored.sticky.len() && sticky_entry_is_for(#[trigger] stored.sticky[i], id) by {
        assert(sticky.to_set().contains(id));
        let i = choose|i: int| 0 <= i < sticky.len() && sticky[i] == id;
        assert(sticky_entry_is_for(stored.sticky[i], id));
    }
    assert forall|i: int| 0 <= i < stored.staged.len() implies state.staged.contains_key(
        (#[trigger] stored.staged[i]).id,
    ) by {
        assert(staged.to_set().contains(staged[i]));
    }
    assert forall|i: int, j: int| 0 <= i < j < stored.staged.len() implies (
    #[trigger] stored.staged[i]).id < (#[trigger] stored.staged[j]).id by {
        assert(staged[i] < staged[j]);
    }
    assert forall|id: u64| #[trigger] state.staged.contains_key(id) implies exists|i: int|
        0 <= i < stored.staged.len() && (#[trigger] stored.staged[i]).id == id by {
        assert(staged.to_set().contains(id));
        let i = choose|i: int| 0 <= i < staged.len() && staged[i] == id;
        assert(stored.staged[i].id == id);
    }
}

} // verus!
