//! Sticky/staged window bookkeeping and request orchestration.
//!
//! [`BusinessLogic`] owns the daemon's in-memory state: which windows are
//! sticky, which are parked on the stage workspace. Every move is asked of the
//! compositor, and state is committed only once it accepted, so a failed move
//! leaves nothing to undo.
use std::collections::HashSet;
use vstd::prelude::*;
use vstd::string::*;
use crate::action::{heard, Conv, Conversation, Heard};
use crate::config::{self, Config, ConfigModel, FactsModel, StickyFollow};
use crate::error::{failure, Error, Outcome};
use crate::lists;
use crate::niri::{WindowInfo, WindowModel, WorkspaceModel};
use crate::pinning::{self, output_of, Layout};
use crate::state::{AppState, Pin, StateModel};
use crate::state_store::{StoredModel, StoredState, STATE_VERSION};
use crate::text;

pub mod apart;
pub mod events;
pub mod laws;
pub mod operation;
pub mod parking;
pub mod reconcile;
pub mod replay;
pub mod requests;
pub mod scratchpad;
pub mod stage;
pub mod sticky;

verus! {

broadcast use vstd::std_specs::hash::group_hash_axioms;

/// Outcome of an operation that touches several windows.
#[derive(Debug, Clone, PartialEq, Eq)]
pub struct BatchOutcome {
    /// Windows the operation was applied to.
    pub succeeded: Vec<u64>,
    /// Windows that stayed as they were: the compositor refused to move them, or
    /// a scratchpad parked them.
    pub failed: Vec<u64>,
}

/// [`BatchOutcome`] as a mathematical value.
#[verifier::ext_equal]
pub struct BatchModel {
    pub succeeded: Seq<u64>,
    pub failed: Seq<u64>,
}

impl DeepView for BatchOutcome {
    type V = BatchModel;

    open spec fn deep_view(&self) -> BatchModel {
        BatchModel { succeeded: self.succeeded@, failed: self.failed@ }
    }
}

impl BatchModel {
    /// Nothing was touched.
    pub open spec fn empty() -> Self {
        BatchModel { succeeded: Seq::empty(), failed: Seq::empty() }
    }

    /// One more window was touched.
    pub open spec fn success(self, id: u64) -> Self {
        BatchModel { succeeded: self.succeeded.push(id), ..self }
    }

    /// One more window was refused.
    pub open spec fn failure(self, id: u64) -> Self {
        BatchModel { failed: self.failed.push(id), ..self }
    }
}

/// Ids in decimal.
pub open spec fn id_texts(ids: Seq<u64>) -> Seq<Seq<char>> {
    ids.map_values(|id: u64| text::decimal(id as nat))
}

/// The message for the command line: `Staged 2 windows, 1 failed: 5`.
pub open spec fn batch_message(batch: BatchModel, verb: Seq<char>, noun: Seq<char>) -> Seq<char> {
    let done = verb + " "@ + text::decimal(batch.succeeded.len()) + " "@ + noun;
    if batch.failed.len() == 0 {
        done
    } else {
        done + ", "@ + text::decimal(batch.failed.len()) + " failed: "@ + text::joined(
            id_texts(batch.failed),
            ", "@,
        )
    }
}

fn show_ids(ids: &Vec<u64>) -> (r: Vec<String>)
    ensures
        r.deep_view() == id_texts(ids@),
{
    let mut texts: Vec<String> = Vec::new();
    let mut i: usize = 0;
    while i < ids.len()
        invariant
            i <= ids@.len(),
            texts.deep_view() =~= id_texts(ids@).take(i as int),
        decreases ids.len() - i,
    {
        let ghost before = texts.deep_view();
        texts.push(text::number(ids[i]));
        assert(texts.deep_view() =~= before.push(text::decimal(ids@[i as int] as nat)));
        i = i + 1;
    }
    assert(id_texts(ids@).take(i as int) =~= id_texts(ids@));
    texts
}

impl BatchOutcome {
    fn new() -> (r: Self)
        ensures
            r.deep_view() == BatchModel::empty(),
    {
        BatchOutcome { succeeded: Vec::new(), failed: Vec::new() }
    }

    /// Windows the operation succeeded on; refused ones are in `failed`.
    pub fn count(&self) -> (r: usize)
        ensures
            r == self.deep_view().succeeded.len(),
    {
        self.succeeded.len()
    }

    /// Message for the CLI: `Staged 2 windows, 1 failed: 5`.
    pub fn message(&self, verb: &str, noun: &str) -> (r: String)
        ensures
            r@ == batch_message(self.deep_view(), verb@, noun@),
    {
        let mut message = verb.to_owned();
        message.append(" ");
        message.append(text::number(self.count() as u64).as_str());
        message.append(" ");
        message.append(noun);
        if self.failed.len() > 0 {
            message.append(", ");
            message.append(text::number(self.failed.len() as u64).as_str());
            message.append(" failed: ");
            let ids = show_ids(&self.failed);
            let slice = ids.as_slice();
            assert(slice.deep_view() =~= ids.deep_view());
            message.append(text::join(slice, ", ").as_str());
        }
        message
    }
}

// Windows.

/// Windows with this id.
pub open spec fn window_with(id: u64) -> spec_fn(WindowModel) -> bool {
    |w: WindowModel| w.id == id
}

/// The compositor has a window with this id.
pub open spec fn has_window(windows: Seq<WindowModel>, id: u64) -> bool {
    lists::any(windows, window_with(id))
}

/// The output a window is on, if any.
pub open spec fn window_output(
    windows: Seq<WindowModel>,
    layout: Seq<WorkspaceModel>,
    id: u64,
) -> Option<Seq<char>> {
    match lists::find(windows, window_with(id)) {
        Some(w) => match w.workspace_id {
            Some(workspace_id) => output_of(layout, workspace_id),
            None => None,
        },
        None => None,
    }
}

/// The pin a window with no rule pin gets: follow focus, or stay on the output
/// it currently sits on when the configuration asks for that.
pub open spec fn default_pin(
    follow: StickyFollow,
    windows: Seq<WindowModel>,
    layout: Seq<WorkspaceModel>,
    id: u64,
) -> Pin {
    match follow {
        StickyFollow::Focused => Seq::empty(),
        StickyFollow::OwnOutput => match window_output(windows, layout, id) {
            Some(output) => seq![output],
            None => Seq::empty(),
        },
    }
}

/// The workspaces that have windows.
pub open spec fn occupied_by(windows: Seq<WindowModel>) -> Set<u64>
    decreases windows.len(),
{
    if windows.len() == 0 {
        Set::empty()
    } else {
        match windows.last().workspace_id {
            Some(id) => occupied_by(windows.drop_last()).insert(id),
            None => occupied_by(windows.drop_last()),
        }
    }
}

/// The id of a window whose app id is exactly this.
pub open spec fn id_by_appid(app_id: Seq<char>) -> spec_fn(WindowModel) -> Option<u64> {
    |w: WindowModel|
        if w.app_id == Some(app_id) {
            Some(w.id)
        } else {
            None
        }
}

/// The id of a window whose title contains this.
pub open spec fn id_by_title(title: Seq<char>) -> spec_fn(WindowModel) -> Option<u64> {
    |w: WindowModel|
        match w.title {
            Some(t) => if text::occurs(t, title) {
                Some(w.id)
            } else {
                None
            },
            None => None,
        }
}

/// The ids among these that the compositor has a window for.
pub open spec fn existing(windows: Seq<WindowModel>) -> spec_fn(u64) -> Option<u64> {
    |id: u64|
        if has_window(windows, id) {
            Some(id)
        } else {
            None
        }
}

/// What rules see of a window.
pub open spec fn facts_of(w: WindowModel) -> FactsModel {
    FactsModel { app_id: w.app_id, title: w.title, floating: w.floating }
}

fn find_window(windows: &Vec<WindowInfo>, id: u64) -> (r: Option<&WindowInfo>)
    ensures
        r.deep_view() == lists::find(windows.deep_view(), window_with(id)),
        r is Some <==> has_window(windows.deep_view(), id),
{
    let ghost all = windows.deep_view();
    let ghost p = window_with(id);
    let mut i: usize = 0;
    proof {
        lists::find_start(all, p);
        lists::find_is_exact(all, p);
    }
    while i < windows.len()
        invariant
            i <= windows@.len(),
            all == windows.deep_view(),
            p == window_with(id),
            lists::find(all, p) == lists::find(all.skip(i as int), p),
            lists::find(all, p) is None <==> !has_window(all, id),
        decreases windows.len() - i,
    {
        proof {
            lists::find_step(all, p, i as int);
        }
        if windows[i].id == id {
            return Some(&windows[i]);
        }
        i = i + 1;
    }
    proof {
        lists::find_step(all, p, i as int);
    }
    None
}

fn output_of_window<'a>(windows: &Vec<WindowInfo>, layout: &'a Layout, id: u64) -> (r: Option<
    &'a str,
>)
    ensures
        r.deep_view() == window_output(windows.deep_view(), layout.deep_view(), id),
{
    match find_window(windows, id) {
        Some(window) => match window.workspace_id {
            Some(workspace_id) => layout.output_of(workspace_id),
            None => None,
        },
        None => None,
    }
}

/// Pin a window with no rule pin gets. Shared by the two paths that decide a
/// pin: a window becoming sticky, and a reload.
fn default_pin_for(
    follow: StickyFollow,
    windows: &Vec<WindowInfo>,
    layout: &Layout,
    id: u64,
) -> (r: Vec<String>)
    ensures
        r.deep_view() == default_pin(follow, windows.deep_view(), layout.deep_view(), id),
{
    let mut pin: Vec<String> = Vec::new();
    assert(pin.deep_view() =~= Seq::empty());
    if let StickyFollow::OwnOutput = follow {
        if let Some(output) = output_of_window(windows, layout, id) {
            pin.push(output.to_owned());
            assert(pin.deep_view() =~= seq![output@]);
        }
    }
    pin
}

fn occupied(windows: &Vec<WindowInfo>) -> (r: HashSet<u64>)
    ensures
        r@ == occupied_by(windows.deep_view()),
{
    let ghost all = windows.deep_view();
    let mut ids: HashSet<u64> = HashSet::new();
    let mut i: usize = 0;
    assert(all.take(0) =~= Seq::empty());
    while i < windows.len()
        invariant
            i <= windows@.len(),
            all == windows.deep_view(),
            ids@ == occupied_by(all.take(i as int)),
        decreases windows.len() - i,
    {
        assert(all.take(i + 1).drop_last() =~= all.take(i as int));
        assert(all.take(i + 1).last() == windows@[i as int].deep_view());
        if let Some(id) = windows[i].workspace_id {
            ids.insert(id);
        }
        i = i + 1;
    }
    assert(all.take(i as int) =~= all);
    ids
}

/// Ids of windows whose app id is exactly `app_id`.
pub fn ids_by_appid(windows: &Vec<WindowInfo>, app_id: &str) -> (r: Vec<u64>)
    ensures
        r@ == windows.deep_view().filter_map(id_by_appid(app_id@)),
{
    let ghost all = windows.deep_view();
    let mut ids: Vec<u64> = Vec::new();
    let mut i: usize = 0;
    assert(all.take(0).filter_map(id_by_appid(app_id@)) =~= Seq::empty());
    while i < windows.len()
        invariant
            i <= windows@.len(),
            all == windows.deep_view(),
            ids@ == all.take(i as int).filter_map(id_by_appid(app_id@)),
        decreases windows.len() - i,
    {
        proof {
            all.lemma_filter_map_take_succ(id_by_appid(app_id@), i as int);
        }
        let ghost before = ids@;
        if let Some(found) = &windows[i].app_id {
            if text::same(found.as_str(), app_id) {
                ids.push(windows[i].id);
                assert(ids@ =~= before + seq![windows@[i as int].id]);
            }
        }
        i = i + 1;
    }
    assert(all.take(i as int) =~= all);
    ids
}

/// Ids of windows whose title contains `title`.
pub fn ids_by_title(windows: &Vec<WindowInfo>, title: &str) -> (r: Vec<u64>)
    ensures
        r@ == windows.deep_view().filter_map(id_by_title(title@)),
{
    let ghost all = windows.deep_view();
    let mut ids: Vec<u64> = Vec::new();
    let mut i: usize = 0;
    assert(all.take(0).filter_map(id_by_title(title@)) =~= Seq::empty());
    while i < windows.len()
        invariant
            i <= windows@.len(),
            all == windows.deep_view(),
            ids@ == all.take(i as int).filter_map(id_by_title(title@)),
        decreases windows.len() - i,
    {
        proof {
            all.lemma_filter_map_take_succ(id_by_title(title@), i as int);
        }
        let ghost before = ids@;
        if let Some(found) = &windows[i].title {
            if text::contains(found.as_str(), title) {
                ids.push(windows[i].id);
                assert(ids@ =~= before + seq![windows@[i as int].id]);
            }
        }
        i = i + 1;
    }
    assert(all.take(i as int) =~= all);
    ids
}

fn existing_ids(ids: &Vec<u64>, windows: &Vec<WindowInfo>) -> (r: Vec<u64>)
    ensures
        r@ == ids@.filter_map(existing(windows.deep_view())),
{
    let ghost f = existing(windows.deep_view());
    let mut kept: Vec<u64> = Vec::new();
    let mut i: usize = 0;
    assert(ids@.take(0).filter_map(f) =~= Seq::empty());
    while i < ids.len()
        invariant
            i <= ids@.len(),
            f == existing(windows.deep_view()),
            kept@ == ids@.take(i as int).filter_map(f),
        decreases ids.len() - i,
    {
        proof {
            ids@.lemma_filter_map_take_succ(f, i as int);
        }
        let ghost before = kept@;
        if find_window(windows, ids[i]).is_some() {
            kept.push(ids[i]);
            assert(kept@ =~= before + seq![ids@[i as int]]);
        }
        i = i + 1;
    }
    assert(ids@.take(i as int) =~= ids@);
    kept
}

// The daemon's state and configuration.

/// The daemon's bookkeeping.
#[derive(Debug)]
pub struct BusinessLogic {
    pub state: AppState,
    /// Replaced when a new configuration is applied.
    pub config: Config,
    pub config_path: String,
    /// Last state handed to the storage, so unchanged state is not rewritten
    /// (window events fire on every title change).
    pub persisted: Option<StoredState>,
}

/// [`BusinessLogic`] as a mathematical value.
#[verifier::ext_equal]
pub struct LogicModel {
    pub state: StateModel,
    pub config: ConfigModel,
    pub config_path: Seq<char>,
    pub persisted: Option<StoredModel>,
}

impl DeepView for BusinessLogic {
    type V = LogicModel;

    open spec fn deep_view(&self) -> LogicModel {
        LogicModel {
            state: self.state.deep_view(),
            config: self.config.deep_view(),
            config_path: self.config_path@,
            persisted: self.persisted.deep_view(),
        }
    }
}

impl LogicModel {
    /// The same daemon with another state.
    pub open spec fn with(self, state: StateModel) -> Self {
        LogicModel { state, ..self }
    }
}

/// The stored state of a daemon that has never tracked a window.
pub open spec fn empty_stored() -> StoredModel {
    StoredModel {
        version: STATE_VERSION,
        sticky: Seq::empty(),
        staged: Seq::empty(),
        scratchpads: Map::empty(),
    }
}

/// The state of a daemon that has never tracked a window.
pub fn empty_state() -> (r: StoredState)
    ensures
        r.deep_view() == empty_stored(),
{
    let r = StoredState::new(Vec::new(), Vec::new());
    assert(r.deep_view() =~= empty_stored());
    r
}

/// What an operation comes to: how the dialogue goes on, the daemon after it,
/// and its result, unless it waits for an answer.
pub struct Run<T> {
    pub talk: Conv,
    pub logic: LogicModel,
    pub out: Option<T>,
}

/// The operation waits for an answer.
pub open spec fn paused<T>(talk: Conv, logic: LogicModel) -> Run<T> {
    Run { talk, logic, out: None }
}

/// The operation is over.
pub open spec fn ended<T>(talk: Conv, logic: LogicModel, out: T) -> Run<T> {
    Run { talk, logic, out: Some(out) }
}

/// An operation went as described. Where it waits for an answer, what it did to
/// the tracked windows so far is of no consequence: it starts over.
pub open spec fn ran<T: DeepView>(
    run: Run<Outcome<T::V>>,
    talk: Conversation,
    logic: BusinessLogic,
    r: Option<Result<T, Error>>,
) -> bool {
    &&& talk.deep_view() == run.talk
    &&& heard(r) == run.out
    &&& r is Some ==> logic.deep_view() == run.logic
    &&& logic.deep_view().config == run.logic.config
    &&& logic.deep_view().config_path == run.logic.config_path
}

/// A question was asked as described.
pub open spec fn asked<T: DeepView>(
    said: Heard<Outcome<T::V>>,
    talk: Conversation,
    r: Option<Result<T, Error>>,
) -> bool {
    &&& talk.deep_view() == said.talk
    &&& heard(r) == said.out
}

impl BusinessLogic {
    /// A daemon that tracks nothing yet. Until the state file was read, nothing
    /// is assumed to be stored, so a read-only request cannot overwrite the file
    /// with an empty snapshot.
    pub fn new(config: Config, config_path: String) -> (r: Self)
        ensures
            r.deep_view() == (LogicModel {
                state: StateModel::empty(),
                config: config.deep_view(),
                config_path: config_path@,
                persisted: Some(empty_stored()),
            }),
    {
        BusinessLogic {
            state: AppState::new(),
            config,
            config_path,
            persisted: Some(empty_state()),
        }
    }
}

} // verus!
