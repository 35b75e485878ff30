//! Rebuilding the state after a start, and applying a new configuration.
use vstd::prelude::*;
use vstd::string::*;
use super::{
    default_pin, default_pin_for, empty_state, empty_stored, ended, facts_of, find_window,
    has_window, paused, ran, window_with, BusinessLogic, LogicModel, Run,
};
use super::parking::{ask_persist, find_named, saved};
use super::scratchpad::facts;
use crate::action::{
    ask_windows, ask_workspaces, stored_in, text_in, Action, ActionModel, Conv, Conversation, Heard,
    Reply,
};
use crate::config::{loaded, match_of, same_texts, Config, ConfigModel};
use crate::error::{copy_texts, in_context, outcome, Chain, Error, Outcome};
use crate::lists;
use crate::niri::{WindowInfo, WindowModel, WorkspaceInfo, WorkspaceModel};
use crate::pinning::{named, Layout};
use crate::state::{
    copy_record, has_record, is_parked, pads_in, pins_in, staged_in, staged_of, stored_pads,
    stored_pins, Pin, RecordMap, StagedModel, StagedWindow, StateModel, StickyWindow,
};
use crate::state_store::{RecordModel, ScratchpadRecord, StoredModel, StoredState};
use crate::tables::{as_map, as_map_keys, sorted_ids, IdTable, LabelTable};
use crate::text;

verus! {

/// Windows that say which workspace they are on.
pub open spec fn placed() -> spec_fn(WindowModel) -> bool {
    |w: WindowModel| w.workspace_id is Some
}

/// The window with this id, on this workspace.
pub open spec fn window_on(id: u64, workspace_id: u64) -> spec_fn(WindowModel) -> bool {
    |w: WindowModel| w.id == id && w.workspace_id == Some(workspace_id)
}

/// The windows on the stage workspace; unknown when there is none, or when no
/// window says which workspace it is on.
pub open spec fn on_stage(
    windows: Seq<WindowModel>,
    workspaces: Seq<WorkspaceModel>,
    name: Seq<char>,
) -> Option<Set<u64>> {
    match lists::find(workspaces, named(name)) {
        None => None,
        Some(stage) => if lists::any(windows, placed()) {
            Some(Set::new(|id: u64| lists::any(windows, window_on(id, stage.id))))
        } else {
            None
        },
    }
}

/// The stored pins of windows that still exist.
pub open spec fn live_pins(stored: StoredModel, windows: Seq<WindowModel>) -> Map<u64, Pin> {
    stored_pins(stored).restrict(Set::new(|id: u64| has_window(windows, id)))
}

/// The stored staged windows that still exist.
pub open spec fn live_staged(stored: StoredModel, windows: Seq<WindowModel>) -> Map<
    u64,
    StagedModel,
> {
    as_map(
        stored.staged.map_values(|record: RecordModel| (record.id, staged_of(record))),
    ).restrict(Set::new(|id: u64| has_window(windows, id)))
}

/// The stored scratchpad windows that still exist; a window that is gone takes
/// its slot with it.
pub open spec fn live_pads(stored: StoredModel, windows: Seq<WindowModel>) -> RecordMap {
    let pads = stored_pads(stored);
    pads.restrict(
        Set::new(
            |label: Seq<char>| pads.contains_key(label) && has_window(windows, pads[label].id),
        ),
    )
}

/// What is known of a window found on the stage.
pub open spec fn adopted(known: Map<u64, StagedModel>, id: u64) -> StagedModel {
    if known.contains_key(id) {
        known[id]
    } else {
        StagedModel { was_sticky: false, pin: Seq::empty(), size: None, position: None }
    }
}

/// The staged windows: whatever sits on the stage workspace, with what is
/// stored of it; where that is unknown, the stored ones.
pub open spec fn staged_now(known: Map<u64, StagedModel>, on_stage: Option<Set<u64>>) -> Map<
    u64,
    StagedModel,
> {
    match on_stage {
        Some(ids) => Map::new(|id: u64| ids.contains(id), |id: u64| adopted(known, id)),
        None => known,
    }
}

/// The state that stored records and the compositor agree on. A window is
/// either sticky, staged or parked by a scratchpad.
pub open spec fn reconciled(
    state: StateModel,
    stored: StoredModel,
    windows: Seq<WindowModel>,
    on_stage: Option<Set<u64>>,
) -> StateModel {
    let pads = live_pads(stored, windows);
    let staged = staged_now(live_staged(stored, windows), on_stage);
    StateModel {
        sticky: live_pins(stored, windows).restrict(
            Set::new(|id: u64| !staged.contains_key(id) && !is_parked(pads, id)),
        ),
        staged: staged.restrict(Set::new(|id: u64| !is_parked(pads, id))),
        pads,
        ..state
    }
}

/// The windows on the stage workspace are looked up; a layout that cannot be
/// read leaves them unknown.
pub open spec fn ask_on_stage(talk: Conv, name: Seq<char>, windows: Seq<WindowModel>) -> Heard<
    Option<Set<u64>>,
> {
    let workspaces = ask_workspaces(talk);
    Heard {
        talk: workspaces.talk,
        out: match workspaces.out {
            None => None,
            Some(Err(_)) => Some(None),
            Some(Ok(layout)) => Some(on_stage(windows, layout, name)),
        },
    }
}

/// The state is rebuilt after a start, from what is stored and what the
/// compositor says. Without the compositor the stored state is taken as it is.
#[verifier::opaque]
pub open spec fn reconcile_run(talk: Conv, logic: LogicModel) -> Run<Outcome<()>> {
    let loading = talk.ask(ActionModel::LoadState);
    match talk.answer() {
        None => paused(loading, logic),
        Some(reply) => {
            let stored = match stored_in(reply) {
                Some(stored) => stored,
                None => empty_stored(),
            };
            let known = LogicModel { persisted: Some(stored), ..logic };
            let windows = ask_windows(loading);
            match windows.out {
                None => paused(windows.talk, known),
                Some(Err(_)) => ended(
                    windows.talk,
                    if stored_in(reply) is Some {
                        known.with(logic.state.restore(stored))
                    } else {
                        known
                    },
                    Ok(()),
                ),
                Some(Ok(ws)) => {
                    let stage = ask_on_stage(windows.talk, logic.config.stage_workspace, ws);
                    match stage.out {
                        None => paused(stage.talk, known),
                        Some(ids) => saved(
                            stage.talk,
                            known.with(reconciled(logic.state, stored, ws, ids)),
                            Ok(()),
                        ),
                    }
                },
            }
        },
    }
}

// A new configuration.

/// The pin a tracked window gets from a configuration: that of the rule that
/// matches it, else the one it has. A rule without outputs gives the default.
pub open spec fn repin(
    config: ConfigModel,
    windows: Seq<WindowModel>,
    layout: Seq<WorkspaceModel>,
    id: u64,
    pin: Pin,
) -> Pin {
    match lists::find(windows, window_with(id)) {
        None => pin,
        Some(w) => match match_of(config, facts_of(w)) {
            None => pin,
            Some(matched) => if matched.outputs.len() == 0 {
                default_pin(config.sticky_follow, windows, layout, id)
            } else {
                matched.outputs
            },
        },
    }
}

/// Every sticky window with its new pin.
pub open spec fn repinned(
    config: ConfigModel,
    windows: Seq<WindowModel>,
    layout: Seq<WorkspaceModel>,
    sticky: Map<u64, Pin>,
) -> Map<u64, Pin> {
    Map::new(
        |id: u64| sticky.contains_key(id),
        |id: u64| repin(config, windows, layout, id, sticky[id]),
    )
}

/// The windows whose pin changes.
pub open spec fn moved_pin(before: Map<u64, Pin>, after: Map<u64, Pin>) -> spec_fn(u64) -> Option<
    u64,
> {
    |id: u64|
        if before[id] != after[id] {
            Some(id)
        } else {
            None
        }
}

/// The windows whose pin changes, smallest id first.
pub open spec fn changed_ids(before: Map<u64, Pin>, after: Map<u64, Pin>) -> Seq<u64> {
    sorted_ids(before.dom()).filter_map(moved_pin(before, after))
}

/// Tracked windows take their new pins; the result is how many changed. A
/// compositor that does not answer leaves them as they are.
pub open spec fn repin_run(talk: Conv, logic: LogicModel, config: ConfigModel) -> Run<nat> {
    let windows = ask_windows(talk);
    match windows.out {
        None => paused(windows.talk, logic),
        Some(Err(_)) => ended(windows.talk, LogicModel { config, ..logic }, 0),
        Some(Ok(ws)) => {
            let workspaces = ask_workspaces(windows.talk);
            match workspaces.out {
                None => paused(workspaces.talk, logic),
                Some(Err(_)) => ended(workspaces.talk, LogicModel { config, ..logic }, 0),
                Some(Ok(layout)) => {
                    let sticky = repinned(config, ws, layout, logic.state.sticky);
                    let count = changed_ids(logic.state.sticky, sticky).len();
                    if count == 0 {
                        ended(workspaces.talk, LogicModel { config, ..logic }, 0)
                    } else {
                        let saving = ask_persist(
                            workspaces.talk,
                            logic.with(StateModel { sticky, ..logic.state }),
                        );
                        match saving.out {
                            None => paused(saving.talk, logic),
                            Some(()) => ended(
                                saving.talk,
                                LogicModel { config, ..saving.logic },
                                count,
                            ),
                        }
                    }
                },
            }
        },
    }
}

/// What is said of a configuration that was applied.
pub open spec fn reload_message(config: ConfigModel, updated: nat) -> Seq<char> {
    "Reloaded configuration: "@ + text::decimal(
        config.sticky_rules.len() + config.stage_rules.len(),
    ) + " rule(s), "@ + text::decimal(updated) + " window(s) re-pinned"@
}

/// The configuration file is read again and applied. The running configuration
/// is kept when the file cannot be read or parsed.
#[verifier::opaque]
pub open spec fn reload_run(talk: Conv, logic: LogicModel) -> Run<Outcome<Seq<char>>> {
    let reading = talk.ask(ActionModel::ReadConfig);
    match talk.answer() {
        None => paused(reading, logic),
        Some(reply) => match loaded(logic.config_path, text_in(reply)) {
            Err(e) => ended(
                reading,
                logic,
                Err(in_context("Keeping the running configuration: "@ + logic.config_path, e)),
            ),
            Ok(config) => {
                let repinning = repin_run(reading, logic, config);
                Run {
                    talk: repinning.talk,
                    logic: repinning.logic,
                    out: match repinning.out {
                        None => None,
                        Some(updated) => Some(Ok(reload_message(config, updated))),
                    },
                }
            },
        },
    }
}

/// Ids that may not be known, as a mathematical value.
pub open spec fn id_set(ids: Option<Vec<u64>>) -> Option<Set<u64>> {
    match ids {
        Some(ids) => Some(ids@.to_set()),
        None => None,
    }
}

/// Ids of the windows currently sitting on the stage workspace.
fn windows_on_stage_workspace(
    windows: &Vec<WindowInfo>,
    workspaces: &Vec<WorkspaceInfo>,
    name: &str,
) -> (r: Option<Vec<u64>>)
    ensures
        id_set(r) == on_stage(windows.deep_view(), workspaces.deep_view(), name@),
{
    let ghost all = windows.deep_view();
    let stage: u64 = match find_named(workspaces, name) {
        Some(id) => id,
        None => {
            return None;
        },
    };
    let mut ids: Vec<u64> = Vec::new();
    let mut known = false;
    let mut i: usize = 0;
    while i < windows.len()
        invariant
            i <= windows@.len(),
            all == windows.deep_view(),
            known == lists::any(all.take(i as int), placed()),
            forall|id: u64| #[trigger]
                ids@.contains(id) <==> lists::any(all.take(i as int), window_on(id, stage)),
        decreases windows.len() - i,
    {
        let window = &windows[i];
        let ghost w = window.deep_view();
        let ghost before = ids@;
        proof {
            assert(all.take(i + 1) =~= all.take(i as int).push(w));
            any_push(all.take(i as int), w, placed());
        }
        if let Some(workspace_id) = window.workspace_id {
            known = true;
            if workspace_id == stage {
                ids.push(window.id);
                assert(ids@[before.len() as int] == window.id);
            }
        }
        assert forall|id: u64| #[trigger] ids@.contains(id) <==> lists::any(
            all.take(i + 1),
            window_on(id, stage),
        ) by {
            any_push(all.take(i as int), w, window_on(id, stage));
            if before.contains(id) {
                let k = choose|k: int| 0 <= k < before.len() && before[k] == id;
                assert(ids@[k] == id);
            }
            if ids@.contains(id) && !before.contains(id) {
                let k = choose|k: int| 0 <= k < ids@.len() && ids@[k] == id;
                if k < before.len() {
                    assert(before[k] == id);
                }
            }
        }
        i = i + 1;
    }
    assert(all.take(i as int) =~= all);
    // Without workspace ids on the windows there is nothing to match on.
    if !known {
        return None;
    }
    assert(ids@.to_set() =~= on_stage(all, workspaces.deep_view(), name@)->0);
    Some(ids)
}

proof fn any_push<T>(s: Seq<T>, x: T, p: spec_fn(T) -> bool)
    ensures
        lists::any(s.push(x), p) <==> lists::any(s, p) || p(x),
{
    if lists::any(s, p) {
        let i = choose|i: int| 0 <= i < s.len() && p(#[trigger] s[i]);
        assert(p(s.push(x)[i]));
    }
    if p(x) {
        assert(p(s.push(x)[s.len() as int]));
    }
    if lists::any(s.push(x), p) {
        let i = choose|i: int| 0 <= i < s.push(x).len() && p(#[trigger] s.push(x)[i]);
        if i < s.len() {
            assert(p(s[i]));
        }
    }
}

fn keep_pads(pads: &LabelTable<ScratchpadRecord>, windows: &Vec<WindowInfo>) -> (r: LabelTable<
    ScratchpadRecord,
>)
    ensures
        r.deep_view() == pads.deep_view().restrict(
            Set::new(
                |label: Seq<char>|
                    pads.deep_view().contains_key(label) && has_window(
                        windows.deep_view(),
                        pads.deep_view()[label].id,
                    ),
            ),
        ),
{
    let ghost all = pads.deep_view();
    let ghost ws = windows.deep_view();
    let ghost s = pads.entries.deep_view();
    let mut kept: LabelTable<ScratchpadRecord> = LabelTable::new();
    let mut i: usize = 0;
    while i < pads.entries.len()
        invariant
            i <= pads.entries@.len(),
            all == pads.deep_view(),
            ws == windows.deep_view(),
            s == pads.entries.deep_view(),
            forall|label: Seq<char>| #[trigger]
                kept.deep_view().contains_key(label) ==> all.contains_key(label) && has_window(
                    ws,
                    all[label].id,
                ) && kept.deep_view()[label] == all[label],
            forall|j: int|
                0 <= j < i && has_window(ws, all[(#[trigger] s[j]).0].id)
                    ==> kept.deep_view().contains_key(s[j].0),
        decreases pads.entries.len() - i,
    {
        let label: &str = pads.entries[i].0.as_str();
        assert(s[i as int].0 == label@);
        proof {
            as_map_keys(s, label@);
        }
        if let Some(record) = pads.get(label) {
            if find_window(windows, record.id).is_some() {
                kept.insert(label, copy_record(record));
            }
        }
        i = i + 1;
    }
    proof {
        let wanted = all.restrict(
            Set::new(
                |label: Seq<char>| all.contains_key(label) && has_window(ws, all[label].id),
            ),
        );
        assert forall|label: Seq<char>| #[trigger]
            kept.deep_view().contains_key(label) <==> wanted.contains_key(label) by {
            if wanted.contains_key(label) {
                as_map_keys(s, label);
                let j = choose|j: int| 0 <= j < s.len() && (#[trigger] s[j]).0 == label;
                assert(has_window(ws, all[s[j].0].id));
            }
        }
        assert(kept.deep_view() =~= wanted);
    }
    kept
}

/// The staged windows that no scratchpad parked.
fn keep_staged(
    known: &IdTable<StagedWindow>,
    windows: &Vec<WindowInfo>,
    ids: &Vec<u64>,
    adopt: bool,
    pads: &LabelTable<ScratchpadRecord>,
) -> (r: IdTable<StagedWindow>)
    ensures
        forall|id: u64| #[trigger]
            r.deep_view().contains_key(id) <==> ids@.contains(id) && (adopt || has_window(
                windows.deep_view(),
                id,
            )) && !is_parked(pads.deep_view(), id),
        forall|id: u64| #[trigger]
            r.deep_view().contains_key(id) ==> r.deep_view()[id] == adopted(
                known.deep_view().restrict(
                    Set::new(|id: u64| has_window(windows.deep_view(), id)),
                ),
                id,
            ),
{
    let ghost ws = windows.deep_view();
    let ghost live = known.deep_view().restrict(Set::new(|id: u64| has_window(ws, id)));
    let mut out: IdTable<StagedWindow> = IdTable::new();
    let mut i: usize = 0;
    while i < ids.len()
        invariant
            i <= ids@.len(),
            ws == windows.deep_view(),
            live == known.deep_view().restrict(Set::new(|id: u64| has_window(ws, id))),
            forall|id: u64| #[trigger]
                out.deep_view().contains_key(id) ==> ids@.contains(id) && (adopt || has_window(
                    ws,
                    id,
                )) && !is_parked(pads.deep_view(), id) && out.deep_view()[id] == adopted(live, id),
            forall|j: int|
                0 <= j < i && (adopt || has_window(ws, #[trigger] ids@[j])) && !is_parked(
                    pads.deep_view(),
                    ids@[j],
                ) ==> out.deep_view().contains_key(ids@[j]),
        decreases ids.len() - i,
    {
        let id: u64 = ids[i];
        assert(ids@.contains(id));
        let exists = find_window(windows, id).is_some();
        if (adopt || exists) && !has_record(pads, id) {
            let window = match known.get(id) {
                Some(window) if exists => window.clone(),
                _ => {
                    let pin: Vec<String> = Vec::new();
                    assert(pin.deep_view() =~= Seq::<Seq<char>>::empty());
                    StagedWindow { was_sticky: false, pin, size: None, position: None }
                },
            };
            out.insert(id, window);
        }
        i = i + 1;
    }
    proof {
        assert forall|id: u64| #[trigger]
            out.deep_view().contains_key(id) <==> ids@.contains(id) && (adopt || has_window(
                ws,
                id,
            )) && !is_parked(pads.deep_view(), id) by {
            if ids@.contains(id) && (adopt || has_window(ws, id)) && !is_parked(
                pads.deep_view(),
                id,
            ) {
                let j = choose|j: int| 0 <= j < ids@.len() && ids@[j] == id;
                assert(adopt || has_window(ws, ids@[j]));
            }
        }
    }
    out
}

/// The sticky windows that exist and are parked nowhere.
fn keep_sticky(
    pins: &IdTable<StickyWindow>,
    windows: &Vec<WindowInfo>,
    staged: &IdTable<StagedWindow>,
    pads: &LabelTable<ScratchpadRecord>,
) -> (r: IdTable<StickyWindow>)
    ensures
        r.deep_view() == pins.deep_view().restrict(
            Set::new(
                |id: u64|
                    has_window(windows.deep_view(), id) && !staged.deep_view().contains_key(id)
                        && !is_parked(pads.deep_view(), id),
            ),
        ),
{
    let ghost all = pins.deep_view();
    let ghost ws = windows.deep_view();
    let ghost wanted = Set::new(
        |id: u64|
            has_window(ws, id) && !staged.deep_view().contains_key(id) && !is_parked(
                pads.deep_view(),
                id,
            ),
    );
    let ids = pins.ids();
    let mut out: IdTable<StickyWindow> = IdTable::new();
    let mut i: usize = 0;
    while i < ids.len()
        invariant
            i <= ids@.len(),
            all == pins.deep_view(),
            ws == windows.deep_view(),
            wanted == Set::new(
                |id: u64|
                    has_window(ws, id) && !staged.deep_view().contains_key(id) && !is_parked(
                        pads.deep_view(),
                        id,
                    ),
            ),
            forall|id: u64| ids@.contains(id) <==> all.contains_key(id),
            forall|id: u64| #[trigger]
                out.deep_view().contains_key(id) ==> all.contains_key(id) && wanted.contains(id)
                    && out.deep_view()[id] == all[id],
            forall|j: int|
                0 <= j < i && wanted.contains(#[trigger] ids@[j])
                    ==> out.deep_view().contains_key(ids@[j]),
        decreases ids.len() - i,
    {
        let id: u64 = ids[i];
        assert(ids@.contains(id));
        if find_window(windows, id).is_some() && !staged.contains(id) && !has_record(pads, id) {
            if let Some(window) = pins.get(id) {
                out.insert(id, window.clone());
            }
        }
        i = i + 1;
    }
    proof {
        assert forall|id: u64| #[trigger]
            out.deep_view().contains_key(id) <==> all.restrict(wanted).contains_key(id) by {
            if all.restrict(wanted).contains_key(id) {
                assert(ids@.contains(id));
                let j = choose|j: int| 0 <= j < ids@.len() && ids@[j] == id;
                assert(wanted.contains(ids@[j]));
            }
        }
        assert(out.deep_view() =~= all.restrict(wanted));
    }
    out
}

impl BusinessLogic {
    /// Rebuild the in-memory state after a (re)start.
    ///
    /// The stored state is authoritative for sticky windows, the compositor for
    /// what is staged: whatever sits on the stage workspace is adopted, so a
    /// stale state file cannot orphan the windows parked there.
    pub fn reconcile(&mut self, talk: &mut Conversation) -> (r: Option<Result<(), Error>>)
        ensures
            ran(
                reconcile_run(old(talk).deep_view(), old(self).deep_view()),
                *final(talk),
                *final(self),
                r,
            ),
    {
        proof {
            reveal(reconcile_run);
        }
        let (stored, found) = match talk.ask(Action::LoadState) {
            None => {
                return None;
            },
            Some(Reply::Stored(Some(stored))) => (stored, true),
            Some(_) => (empty_state(), false),
        };
        // From here on "unchanged" means "unchanged since what is on disk":
        // the reconciled state is written whenever it differs from the file.
        self.persisted = Some(stored.clone());
        let windows = match talk.windows() {
            None => {
                return None;
            },
            Some(Err(_)) => {
                // Without the compositor the stored ids cannot be validated, so
                // keep them instead of dropping everything.
                if found {
                    self.state.restore(&stored);
                }
                return Some(Ok(()));
            },
            Some(Ok(windows)) => windows,
        };
        let ids = match talk.workspaces() {
            None => {
                return None;
            },
            Some(Err(_)) => None,
            Some(Ok(workspaces)) => windows_on_stage_workspace(
                &windows,
                &workspaces,
                self.config.stage_workspace(),
            ),
        };
        self.adopt(&stored, &windows, ids);
        match self.persist(talk) {
            None => None,
            Some(()) => Some(Ok(())),
        }
    }

    fn adopt(&mut self, stored: &StoredState, windows: &Vec<WindowInfo>, ids: Option<Vec<u64>>)
        ensures
            final(self).deep_view() == old(self).deep_view().with(
                reconciled(
                    old(self).deep_view().state,
                    stored.deep_view(),
                    windows.deep_view(),
                    id_set(ids),
                ),
            ),
    {
        let ghost st = stored.deep_view();
        let ghost ws = windows.deep_view();
        let ghost target = reconciled(self.deep_view().state, st, ws, id_set(ids));
        let ghost live = live_staged(st, ws);
        let all_pads = pads_in(stored);
        let pads = keep_pads(&all_pads, windows);
        assert(pads.deep_view() == live_pads(st, ws));
        let known = staged_in(stored);
        let no_pads: LabelTable<ScratchpadRecord> = LabelTable::new();
        // A window that left the stage workspace is not staged any more, even
        // when the stored state still lists it. Without workspace information,
        // the stored staged windows are trusted.
        let (listed, adopt) = match ids {
            Some(ids) => (ids, true),
            None => (known.ids(), false),
        };
        let on_stage = keep_staged(&known, windows, &listed, adopt, &no_pads);
        let staged = keep_staged(&known, windows, &listed, adopt, &pads);
        proof {
            let now = staged_now(live, id_set(ids));
            assert forall|id: u64| #[trigger]
                on_stage.deep_view().contains_key(id) <==> now.contains_key(id) by {
                assert(!is_parked(no_pads.deep_view(), id));
                if adopt {
                    assert(listed@.contains(id) <==> listed@.to_set().contains(id));
                }
            }
            assert(on_stage.deep_view() =~= now);
            assert forall|id: u64| #[trigger]
                staged.deep_view().contains_key(id) <==> target.staged.contains_key(id) by {
                assert(on_stage.deep_view().contains_key(id) <==> now.contains_key(id));
                assert(!is_parked(no_pads.deep_view(), id));
            }
            assert(staged.deep_view() =~= target.staged);
        }
        let pins = pins_in(stored);
        let sticky = keep_sticky(&pins, windows, &on_stage, &pads);
        assert(sticky.deep_view() =~= target.sticky);
        self.state.sticky_windows = sticky;
        self.state.staged_windows = staged;
        self.state.scratchpad_slots = pads;
    }

    /// Re-read the configuration file and apply it.
    ///
    /// The running configuration is kept when the file cannot be read or
    /// parsed, so a typo never leaves the daemon without rules.
    pub fn reload_from_disk(&mut self, talk: &mut Conversation) -> (r: Option<
        Result<String, Error>,
    >)
        ensures
            ran(
                reload_run(old(talk).deep_view(), old(self).deep_view()),
                *final(talk),
                *final(self),
                r,
            ),
    {
        proof {
            reveal(reload_run);
        }
        let content = match talk.ask(Action::ReadConfig) {
            None => {
                return None;
            },
            Some(Reply::Text(text)) => Ok(text),
            Some(Reply::Failed(e)) => Err(e),
            Some(_) => Err(Error::new("Unexpected reply")),
        };
        let config = match Config::load(self.config_path.as_str(), content) {
            Ok(config) => config,
            Err(e) => {
                let mut doing = "Keeping the running configuration: ".to_owned();
                doing.append(self.config_path.as_str());
                return Some(Err(e.context(doing.as_str())));
            },
        };
        self.apply_config(talk, config)
    }

    /// Replace the configuration and report what changed.
    fn apply_config(&mut self, talk: &mut Conversation, config: Config) -> (r: Option<
        Result<String, Error>,
    >)
        ensures
            ({
                let run = repin_run(
                    old(talk).deep_view(),
                    old(self).deep_view(),
                    config.deep_view(),
                );
                &&& final(talk).deep_view() == run.talk
                &&& r is None <==> run.out is None
                &&& r matches Some(result) ==> outcome(result) == Ok::<Seq<char>, Chain>(
                    reload_message(config.deep_view(), run.out->0),
                )
                &&& r is Some ==> final(self).deep_view() == run.logic
                &&& final(self).deep_view().config == run.logic.config
                &&& final(self).deep_view().config_path == run.logic.config_path
            }),
    {
        let all = config.rules();
        let rules = all.len();
        assert(all.deep_view().len() == rules);
        // Tracked windows keep their state but take their new pins, so editing
        // `output` only needs a reload.
        let updated: u64 = match self.reevaluate_pins(talk, &config) {
            None => {
                return None;
            },
            Some(updated) => updated as u64,
        };
        let mut message = "Reloaded configuration: ".to_owned();
        message.append(text::number(rules as u64).as_str());
        message.append(" rule(s), ");
        message.append(text::number(updated).as_str());
        message.append(" window(s) re-pinned");
        self.config = config;
        Some(Ok(message))
    }

    /// Re-apply the rules to the windows already tracked, returning how many
    /// pins changed. Windows nobody matches any more keep what they have.
    fn reevaluate_pins(&mut self, talk: &mut Conversation, config: &Config) -> (r: Option<usize>)
        ensures
            ({
                let run = repin_run(
                    old(talk).deep_view(),
                    old(self).deep_view(),
                    config.deep_view(),
                );
                &&& final(talk).deep_view() == run.talk
                &&& r is None <==> run.out is None
                &&& r matches Some(updated) ==> updated == run.out->0 && (LogicModel {
                    config: config.deep_view(),
                    ..final(self).deep_view()
                }) == run.logic
                &&& final(self).deep_view().config == old(self).deep_view().config
                &&& final(self).deep_view().config_path == old(self).deep_view().config_path
            }),
    {
        let windows = match talk.windows() {
            None => {
                return None;
            },
            Some(Err(_)) => {
                return Some(0);
            },
            Some(Ok(windows)) => windows,
        };
        let workspaces = match talk.workspaces() {
            None => {
                return None;
            },
            Some(Err(_)) => {
                return Some(0);
            },
            Some(Ok(workspaces)) => workspaces,
        };
        let layout = Layout::new(workspaces);
        let updated = self.repin_all(config, &windows, &layout);
        if updated > 0 {
            if self.persist(talk).is_none() {
                return None;
            }
        }
        Some(updated)
    }

    fn new_pin(
        config: &Config,
        windows: &Vec<WindowInfo>,
        layout: &Layout,
        id: u64,
        pin: Vec<String>,
    ) -> (r: Vec<String>)
        ensures
            r.deep_view() == repin(
                config.deep_view(),
                windows.deep_view(),
                layout.deep_view(),
                id,
                pin.deep_view(),
            ),
    {
        match find_window(windows, id) {
            None => pin,
            Some(window) => {
                let facts = facts(window);
                match config.match_rule(&facts) {
                    None => pin,
                    Some(matched) => {
                        // A rule without `output` defers to `sticky-follow`,
                        // exactly as it does when the window first becomes
                        // sticky.
                        if matched.outputs.len() == 0 {
                            default_pin_for(config.sticky_follow(), windows, layout, id)
                        } else {
                            matched.outputs
                        }
                    },
                }
            },
        }
    }

    fn repin_all(&mut self, config: &Config, windows: &Vec<WindowInfo>, layout: &Layout) -> (r:
        usize)
        ensures
            ({
                let sticky = repinned(
                    config.deep_view(),
                    windows.deep_view(),
                    layout.deep_view(),
                    old(self).deep_view().state.sticky,
                );
                &&& r == changed_ids(old(self).deep_view().state.sticky, sticky).len()
                &&& r == 0 ==> final(self).deep_view() == old(self).deep_view()
                &&& final(self).deep_view() == old(self).deep_view().with(
                    StateModel { sticky, ..old(self).deep_view().state },
                )
            }),
    {
        let ghost logic = self.deep_view();
        let ghost before = logic.state.sticky;
        let ghost cs = config.deep_view();
        let ghost ws = windows.deep_view();
        let ghost ls = layout.deep_view();
        let ghost after = repinned(cs, ws, ls, before);
        let ghost f = moved_pin(before, after);
        let ids = self.state.sticky_windows.ids();
        let mut updated: usize = 0;
        let mut i: usize = 0;
        assert(ids@.take(0).filter_map(f) =~= Seq::empty());
        while i < ids.len()
            invariant
                i <= ids@.len(),
                before == logic.state.sticky,
                cs == config.deep_view(),
                ws == windows.deep_view(),
                ls == layout.deep_view(),
                after == repinned(cs, ws, ls, before),
                f == moved_pin(before, after),
                crate::tables::ascending(ids@),
                forall|id: u64| ids@.contains(id) <==> before.contains_key(id),
                updated <= i,
                updated == 0 ==> self.deep_view() == logic,
                updated == ids@.take(i as int).filter_map(f).len(),
                self.deep_view() == logic.with(
                    StateModel { sticky: self.deep_view().state.sticky, ..logic.state },
                ),
                forall|id: u64| #[trigger]
                    self.deep_view().state.sticky.contains_key(id) <==> before.contains_key(id),
                forall|j: int|
                    0 <= j < ids@.len() ==> self.deep_view().state.sticky[#[trigger] ids@[j]] == (
                    if j < i {
                        after[ids@[j]]
                    } else {
                        before[ids@[j]]
                    }),
            decreases ids.len() - i,
        {
            let id: u64 = ids[i];
            assert(ids@.contains(id));
            let pin = self.state.pin(id);
            let new = Self::new_pin(config, windows, layout, id, copy_texts(&pin));
            proof {
                ids@.lemma_filter_map_take_succ(f, i as int);
            }
            let ghost sticky = self.deep_view().state.sticky;
            if !same_texts(&pin, &new) {
                self.state.stick(id, new);
                updated = updated + 1;
            }
            proof {
                let now = self.deep_view().state.sticky;
                assert(now == sticky || now == sticky.insert(id, after[id]));
                assert forall|x: u64| #[trigger]
                    now.contains_key(x) <==> before.contains_key(x) by {
                    assert(sticky.contains_key(x) <==> before.contains_key(x));
                }
                assert forall|j: int| 0 <= j < ids@.len() implies now[#[trigger] ids@[j]] == (
                if j < i + 1 {
                    after[ids@[j]]
                } else {
                    before[ids@[j]]
                }) by {
                    if j != i {
                        assert(ids@[j] != id);
                    }
                }
            }
            i = i + 1;
        }
        proof {
            assert(ids@.take(i as int) =~= ids@);
            let now = self.deep_view().state.sticky;
            assert forall|id: u64| #[trigger] now.contains_key(id) implies now[id] == after[id] by {
                assert(ids@.contains(id));
                let j = choose|j: int| 0 <= j < ids@.len() && ids@[j] == id;
                assert(now[ids@[j]] == after[ids@[j]]);
            }
            assert(now =~= after);
        }
        updated
    }
}

} // verus!
