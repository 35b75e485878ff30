//! Persisted daemon state.
//!
//! Without it, restarting the daemon (or the session) forgets which windows are
//! sticky and which are parked on the stage workspace: the windows stay where
//! they were, but they are no longer tracked, so `stage restore` lists nothing.
use vstd::prelude::*;
use vstd::string::*;
use crate::config::same_texts;
use crate::error::{copy_texts, failure, Chain, Error};
use crate::niri::{is_number, same_place, Position};
use crate::tables::{as_map, as_map_keys, lookup};
use crate::text;

verus! {

/// On-disk format version, so a future change can migrate instead of guessing.
pub const STATE_VERSION: u32 = 1;

/// A sticky window as stored on disk. Files written before output pinning
/// existed list bare ids, so both shapes are accepted.
#[derive(Debug, PartialEq, Eq)]
pub enum StoredSticky {
    /// The bare window id, no pin.
    Id(u64),
    /// Window id plus the outputs it is pinned to, in preference order.
    Pinned { id: u64, outputs: Vec<String> },
}

/// [`StoredSticky`] as a mathematical value.
#[verifier::ext_equal]
pub enum StoredStickyModel {
    Id(u64),
    Pinned { id: u64, outputs: Seq<Seq<char>> },
}

impl DeepView for StoredSticky {
    type V = StoredStickyModel;

    open spec fn deep_view(&self) -> StoredStickyModel {
        match self {
            StoredSticky::Id(id) => StoredStickyModel::Id(*id),
            StoredSticky::Pinned { id, outputs } => StoredStickyModel::Pinned {
                id: *id,
                outputs: outputs.deep_view(),
            },
        }
    }
}

impl StoredStickyModel {
    /// The entry for a window and its pin.
    pub open spec fn of(id: u64, outputs: Seq<Seq<char>>) -> Self {
        if outputs.len() == 0 {
            StoredStickyModel::Id(id)
        } else {
            StoredStickyModel::Pinned { id, outputs }
        }
    }

    /// The window, whichever shape the entry has.
    pub open spec fn id(self) -> u64 {
        match self {
            StoredStickyModel::Id(id) => id,
            StoredStickyModel::Pinned { id, .. } => id,
        }
    }

    /// The output pin, whichever shape the entry has.
    pub open spec fn outputs(self) -> Seq<Seq<char>> {
        match self {
            StoredStickyModel::Id(_) => Seq::empty(),
            StoredStickyModel::Pinned { outputs, .. } => outputs,
        }
    }
}

impl StoredSticky {
    pub fn new(id: u64, outputs: Vec<String>) -> (r: Self)
        ensures
            r.deep_view() == StoredStickyModel::of(id, outputs.deep_view()),
    {
        if outputs.is_empty() {
            StoredSticky::Id(id)
        } else {
            StoredSticky::Pinned { id, outputs }
        }
    }

    /// Id and output pin, whichever shape this entry has.
    pub fn into_parts(self) -> (r: (u64, Vec<String>))
        ensures
            r.0 == self.deep_view().id(),
            r.1.deep_view() == self.deep_view().outputs(),
    {
        match self {
            StoredSticky::Id(id) => {
                let none: Vec<String> = Vec::new();
                assert(none.deep_view() =~= Seq::<Seq<char>>::empty());
                (id, none)
            },
            StoredSticky::Pinned { id, outputs } => (id, outputs),
        }
    }

    pub fn id(&self) -> (r: u64)
        ensures
            r == self.deep_view().id(),
    {
        match self {
            StoredSticky::Id(id) => *id,
            StoredSticky::Pinned { id, .. } => *id,
        }
    }
}

/// A parked scratchpad window, whatever shape the file on disk had.
#[derive(Debug, Clone, PartialEq)]
pub struct ScratchpadRecord {
    pub id: u64,
    pub was_sticky: bool,
    pub outputs: Vec<String>,
    pub size: Option<(i32, i32)>,
    pub position: Option<Position>,
}

/// [`ScratchpadRecord`] as a mathematical value.
#[verifier::ext_equal]
pub struct RecordModel {
    pub id: u64,
    pub was_sticky: bool,
    pub outputs: Seq<Seq<char>>,
    pub size: Option<(i32, i32)>,
    pub position: Option<Position>,
}

impl DeepView for ScratchpadRecord {
    type V = RecordModel;

    open spec fn deep_view(&self) -> RecordModel {
        RecordModel {
            id: self.id,
            was_sticky: self.was_sticky,
            outputs: self.outputs.deep_view(),
            size: self.size,
            position: self.position,
        }
    }
}

/// A scratchpad window as stored on disk. Files written by an earlier version
/// kept only the window id, so both shapes are accepted.
#[derive(Debug, PartialEq)]
pub enum StoredScratchpad {
    Id(u64),
    Full {
        id: u64,
        was_sticky: bool,
        outputs: Vec<String>,
        size: Option<(i32, i32)>,
        position: Option<Position>,
    },
}

/// [`StoredScratchpad`] as a mathematical value.
#[verifier::ext_equal]
pub enum StoredScratchpadModel {
    Id(u64),
    Full(RecordModel),
}

impl DeepView for StoredScratchpad {
    type V = StoredScratchpadModel;

    open spec fn deep_view(&self) -> StoredScratchpadModel {
        match self {
            StoredScratchpad::Id(id) => StoredScratchpadModel::Id(*id),
            StoredScratchpad::Full { id, was_sticky, outputs, size, position } =>
                StoredScratchpadModel::Full(
                RecordModel {
                    id: *id,
                    was_sticky: *was_sticky,
                    outputs: outputs.deep_view(),
                    size: *size,
                    position: *position,
                },
            ),
        }
    }
}

impl StoredScratchpadModel {
    /// The record an entry stands for; a bare id says nothing else.
    pub open spec fn record(self) -> RecordModel {
        match self {
            StoredScratchpadModel::Id(id) => RecordModel {
                id,
                was_sticky: false,
                outputs: Seq::empty(),
                size: None,
                position: None,
            },
            StoredScratchpadModel::Full(record) => record,
        }
    }
}

impl StoredScratchpad {
    pub fn into_record(self) -> (r: ScratchpadRecord)
        ensures
            r.deep_view() == self.deep_view().record(),
    {
        match self {
            StoredScratchpad::Id(id) => {
                let outputs: Vec<String> = Vec::new();
                assert(outputs.deep_view() =~= Seq::<Seq<char>>::empty());
                ScratchpadRecord { id, was_sticky: false, outputs, size: None, position: None }
            },
            StoredScratchpad::Full { id, was_sticky, outputs, size, position } => ScratchpadRecord {
                id,
                was_sticky,
                outputs,
                size,
                position,
            },
        }
    }

    pub fn id(&self) -> (r: u64)
        ensures
            r == self.deep_view().record().id,
    {
        match self {
            StoredScratchpad::Id(id) => *id,
            StoredScratchpad::Full { id, .. } => *id,
        }
    }
}

/// A staged window as stored on disk.
#[derive(Debug, PartialEq)]
pub struct StoredStaged {
    pub id: u64,
    /// Whether the window was sticky before it was staged.
    pub was_sticky: bool,
    /// Output pin to restore with the window.
    pub outputs: Vec<String>,
    /// Size it had when it was parked, so showing it puts it back exactly.
    pub size: Option<(i32, i32)>,
    /// Position it had when it was parked.
    pub position: Option<Position>,
}

impl DeepView for StoredStaged {
    type V = RecordModel;

    open spec fn deep_view(&self) -> RecordModel {
        RecordModel {
            id: self.id,
            was_sticky: self.was_sticky,
            outputs: self.outputs.deep_view(),
            size: self.size,
            position: self.position,
        }
    }
}

/// The daemon state as stored on disk.
#[derive(Debug, PartialEq)]
pub struct StoredState {
    pub version: u32,
    pub sticky: Vec<StoredSticky>,
    pub staged: Vec<StoredStaged>,
    /// Scratchpad name to the window it parked.
    pub scratchpads: Vec<(String, StoredScratchpad)>,
}

/// [`StoredState`] as a mathematical value.
#[verifier::ext_equal]
pub struct StoredModel {
    pub version: u32,
    pub sticky: Seq<StoredStickyModel>,
    pub staged: Seq<RecordModel>,
    pub scratchpads: Map<Seq<char>, StoredScratchpadModel>,
}

impl DeepView for StoredState {
    type V = StoredModel;

    open spec fn deep_view(&self) -> StoredModel {
        StoredModel {
            version: self.version,
            sticky: self.sticky.deep_view(),
            staged: self.staged.deep_view(),
            scratchpads: as_map(self.scratchpads.deep_view()),
        }
    }
}

impl StoredState {
    pub fn new(sticky: Vec<StoredSticky>, staged: Vec<StoredStaged>) -> (r: Self)
        ensures
            r.deep_view() == (StoredModel {
                version: STATE_VERSION,
                sticky: sticky.deep_view(),
                staged: staged.deep_view(),
                scratchpads: Map::empty(),
            }),
    {
        let r = StoredState { version: STATE_VERSION, sticky, staged, scratchpads: Vec::new() };
        assert(r.scratchpads.deep_view() =~= Seq::<(Seq<char>, StoredScratchpadModel)>::empty());
        r
    }
}

/// Where the state file lives: under the state directory, else under the data
/// directory, else under `/tmp`.
pub open spec fn state_file(state_dir: Option<Seq<char>>, data_dir: Option<Seq<char>>) -> Seq<
    char,
> {
    let base = match state_dir {
        Some(dir) => dir,
        None => match data_dir {
            Some(dir) => dir,
            None => "/tmp"@,
        },
    };
    text::path_join(text::path_join(base, "nsticky"@), "state.json"@)
}

/// Both directories are arguments so the precedence rules are testable without
/// environment variables.
pub fn state_path(state_dir: Option<&str>, data_dir: Option<&str>) -> (r: String)
    ensures
        r@ == state_file(state_dir.deep_view(), data_dir.deep_view()),
{
    let base: &str = match state_dir {
        Some(dir) => dir,
        None => match data_dir {
            Some(dir) => dir,
            None => "/tmp",
        },
    };
    text::join_path(text::join_path(base, "nsticky").as_str(), "state.json")
}

/// Storage backed by a file, which is replaced as a whole.
#[derive(Debug, Clone, PartialEq, Eq)]
pub struct FileStorage {
    pub path: String,
}

impl DeepView for FileStorage {
    type V = Seq<char>;

    open spec fn deep_view(&self) -> Seq<char> {
        self.path@
    }
}

/// What is reported of a file written in a format this version does not know.
pub open spec fn version_failure(version: u32, path: Seq<char>) -> Chain {
    failure(
        "Unsupported state version "@ + text::decimal(version as nat) + " in "@
            + text::quoted_path_text(path) + " (expected "@ + text::decimal(STATE_VERSION as nat)
            + ")"@,
    )
}

impl FileStorage {
    pub fn new(path: String) -> (r: Self)
        ensures
            r.deep_view() == path@,
    {
        FileStorage { path }
    }

    /// The file's contents, when they are in the format this version writes.
    pub fn accept(&self, state: StoredState) -> (r: Result<StoredState, Error>)
        ensures
            state.version == STATE_VERSION ==> r == Ok::<StoredState, Error>(state),
            state.version != STATE_VERSION ==> (r matches Err(e) && e.deep_view()
                == version_failure(state.version, self.deep_view())),
    {
        if state.version == STATE_VERSION {
            return Ok(state);
        }
        let mut message = "Unsupported state version ".to_owned();
        message.append(text::number(state.version as u64).as_str());
        message.append(" in ");
        message.append(text::quoted_path(self.path.as_str()).as_str());
        message.append(" (expected ");
        message.append(text::number(STATE_VERSION as u64).as_str());
        message.append(")");
        Err(Error::new(message.as_str()))
    }
}

impl Clone for StoredSticky {
    fn clone(&self) -> (r: Self)
        ensures
            r.deep_view() == self.deep_view(),
    {
        match self {
            StoredSticky::Id(id) => StoredSticky::Id(*id),
            StoredSticky::Pinned { id, outputs } => StoredSticky::Pinned {
                id: *id,
                outputs: copy_texts(outputs),
            },
        }
    }
}

impl Clone for StoredStaged {
    fn clone(&self) -> (r: Self)
        ensures
            r.deep_view() == self.deep_view(),
    {
        StoredStaged {
            id: self.id,
            was_sticky: self.was_sticky,
            outputs: copy_texts(&self.outputs),
            size: self.size,
            position: self.position,
        }
    }
}

impl Clone for StoredScratchpad {
    fn clone(&self) -> (r: Self)
        ensures
            r.deep_view() == self.deep_view(),
    {
        match self {
            StoredScratchpad::Id(id) => StoredScratchpad::Id(*id),
            StoredScratchpad::Full { id, was_sticky, outputs, size, position } =>
                StoredScratchpad::Full {
                id: *id,
                was_sticky: *was_sticky,
                outputs: copy_texts(outputs),
                size: *size,
                position: *position,
            },
        }
    }
}

impl Clone for StoredState {
    fn clone(&self) -> (r: Self)
        ensures
            r.deep_view() == self.deep_view(),
    {
        let sticky = self.sticky.clone();
        let staged = self.staged.clone();
        let mut scratchpads: Vec<(String, StoredScratchpad)> = Vec::new();
        let mut i: usize = 0;
        while i < self.scratchpads.len()
            invariant
                i <= self.scratchpads@.len(),
                scratchpads.deep_view() =~= self.scratchpads.deep_view().take(i as int),
            decreases self.scratchpads.len() - i,
        {
            let ghost before = scratchpads.deep_view();
            let entry = &self.scratchpads[i];
            let pad = entry.1.clone();
            scratchpads.push((entry.0.clone(), pad));
            assert(scratchpads.deep_view() =~= before.push((entry.0@, pad.deep_view())));
            i = i + 1;
        }
        assert(self.scratchpads.deep_view().take(i as int) =~= self.scratchpads.deep_view());
        assert(sticky.deep_view() =~= self.sticky.deep_view());
        assert(staged.deep_view() =~= self.staged.deep_view());
        StoredState { version: self.version, sticky, staged, scratchpads }
    }
}

fn same_sticky(a: &StoredSticky, b: &StoredSticky) -> (r: bool)
    ensures
        r == (a.deep_view() == b.deep_view()),
{
    match (a, b) {
        (StoredSticky::Id(x), StoredSticky::Id(y)) => *x == *y,
        (
            StoredSticky::Pinned { id: x, outputs: p },
            StoredSticky::Pinned { id: y, outputs: q },
        ) => *x == *y && same_texts(p, q),
        _ => false,
    }
}

fn same_size(a: Option<(i32, i32)>, b: Option<(i32, i32)>) -> (r: bool)
    ensures
        r == (a == b),
{
    match (a, b) {
        (Some(x), Some(y)) => x.0 == y.0 && x.1 == y.1,
        (None, None) => true,
        _ => false,
    }
}

fn same_position(a: Option<Position>, b: Option<Position>) -> (r: bool)
    ensures
        r == same_place(a, b),
{
    match (a, b) {
        (Some(x), Some(y)) => x == y,
        (None, None) => true,
        _ => false,
    }
}

/// Two records say the same of the same window.
pub open spec fn same_record(a: RecordModel, b: RecordModel) -> bool {
    &&& a.id == b.id
    &&& a.was_sticky == b.was_sticky
    &&& a.outputs == b.outputs
    &&& a.size == b.size
    &&& same_place(a.position, b.position)
}

/// Two entries of scratchpads have the same shape and say the same.
pub open spec fn same_entry(a: StoredScratchpadModel, b: StoredScratchpadModel) -> bool {
    match (a, b) {
        (StoredScratchpadModel::Id(x), StoredScratchpadModel::Id(y)) => x == y,
        (StoredScratchpadModel::Full(x), StoredScratchpadModel::Full(y)) => same_record(x, y),
        _ => false,
    }
}

/// Every label of `a` has the same entry in `b`.
pub open spec fn entries_within(
    a: Map<Seq<char>, StoredScratchpadModel>,
    b: Map<Seq<char>, StoredScratchpadModel>,
) -> bool {
    forall|label: Seq<char>| #[trigger]
        a.contains_key(label) ==> b.contains_key(label) && same_entry(a[label], b[label])
}

/// Two states are stored alike. Positions are compared as the doubles they are.
pub open spec fn same_stored(a: StoredModel, b: StoredModel) -> bool {
    &&& a.version == b.version
    &&& a.sticky == b.sticky
    &&& a.staged.len() == b.staged.len()
    &&& forall|i: int| 0 <= i < a.staged.len() ==> same_record(#[trigger] a.staged[i], b.staged[i])
    &&& entries_within(a.scratchpads, b.scratchpads)
    &&& entries_within(b.scratchpads, a.scratchpads)
}

fn same_staged(a: &StoredStaged, b: &StoredStaged) -> (r: bool)
    ensures
        r == same_record(a.deep_view(), b.deep_view()),
{
    a.id == b.id && a.was_sticky == b.was_sticky && same_texts(&a.outputs, &b.outputs)
        && same_size(a.size, b.size) && same_position(a.position, b.position)
}

fn same_pad(a: &StoredScratchpad, b: &StoredScratchpad) -> (r: bool)
    ensures
        r == same_entry(a.deep_view(), b.deep_view()),
{
    match (a, b) {
        (StoredScratchpad::Id(x), StoredScratchpad::Id(y)) => *x == *y,
        (
            StoredScratchpad::Full { id: x, was_sticky: w, outputs: p, size: s, position: l },
            StoredScratchpad::Full { id: y, was_sticky: v, outputs: q, size: t, position: m },
        ) => *x == *y && *w == *v && same_texts(p, q) && same_size(*s, *t) && same_position(*l, *m),
        _ => false,
    }
}

/// Every name of `a` has the same entry in `b`.
fn pads_within(
    a: &Vec<(String, StoredScratchpad)>,
    b: &Vec<(String, StoredScratchpad)>,
) -> (r: bool)
    ensures
        r == entries_within(as_map(a.deep_view()), as_map(b.deep_view())),
{
    let ghost x = a.deep_view();
    let ghost y = b.deep_view();
    let mut i: usize = 0;
    while i < a.len()
        invariant
            i <= a@.len(),
            x == a.deep_view(),
            y == b.deep_view(),
            forall|j: int|
                0 <= j < i ==> as_map(y).contains_key((#[trigger] x[j]).0) && same_entry(
                    as_map(x)[x[j].0],
                    as_map(y)[x[j].0],
                ),
        decreases a.len() - i,
    {
        let label: &str = a[i].0.as_str();
        assert(x[i as int].0 == label@);
        proof {
            as_map_keys(x, label@);
        }
        match (lookup(a, label), lookup(b, label)) {
            (Some(p), Some(q)) => {
                if !same_pad(p, q) {
                    assert(as_map(x).contains_key(label@));
                    return false;
                }
            },
            (_, None) => {
                assert(as_map(x).contains_key(label@));
                return false;
            },
            (None, _) => {},
        }
        i = i + 1;
    }
    proof {
        assert forall|label: Seq<char>| #[trigger] as_map(x).contains_key(label) implies as_map(
            y,
        ).contains_key(label) && same_entry(as_map(x)[label], as_map(y)[label]) by {
            as_map_keys(x, label);
            let j = choose|j: int| 0 <= j < x.len() && (#[trigger] x[j]).0 == label;
            assert(x[j].0 == label);
        }
    }
    true
}

/// Whether two states are stored alike.
pub fn same_state(a: &StoredState, b: &StoredState) -> (r: bool)
    ensures
        r == same_stored(a.deep_view(), b.deep_view()),
{
    if a.version != b.version || a.sticky.len() != b.sticky.len() || a.staged.len()
        != b.staged.len() {
        assert(a.deep_view().sticky.len() == a.sticky@.len());
        assert(b.deep_view().sticky.len() == b.sticky@.len());
        assert(a.deep_view().staged.len() == a.staged@.len());
        assert(b.deep_view().staged.len() == b.staged@.len());
        return false;
    }
    let mut i: usize = 0;
    while i < a.sticky.len()
        invariant
            i <= a.sticky@.len(),
            a.sticky@.len() == b.sticky@.len(),
            forall|j: int| 0 <= j < i ==> a.sticky@[j].deep_view() == b.sticky@[j].deep_view(),
        decreases a.sticky.len() - i,
    {
        if !same_sticky(&a.sticky[i], &b.sticky[i]) {
            assert(a.deep_view().sticky[i as int] != b.deep_view().sticky[i as int]);
            return false;
        }
        i = i + 1;
    }
    assert(a.deep_view().sticky =~= b.deep_view().sticky);
    let mut k: usize = 0;
    while k < a.staged.len()
        invariant
            k <= a.staged@.len(),
            a.staged@.len() == b.staged@.len(),
            forall|j: int|
                0 <= j < k ==> same_record(
                    #[trigger] a.deep_view().staged[j],
                    b.deep_view().staged[j],
                ),
        decreases a.staged.len() - k,
    {
        if !same_staged(&a.staged[k], &b.staged[k]) {
            assert(!same_record(a.deep_view().staged[k as int], b.deep_view().staged[k as int]));
            return false;
        }
        k = k + 1;
    }
    let there = pads_within(&a.scratchpads, &b.scratchpads);
    let back = pads_within(&b.scratchpads, &a.scratchpads);
    there && back
}

/// Every position that is stored is a point, not something that is no number.
pub open spec fn is_at_a_point(record: RecordModel) -> bool {
    record.position matches Some(p) ==> is_number(p.x) && is_number(p.y)
}

/// A state whose positions are points is stored like itself.
pub proof fn a_state_is_stored_like_itself(state: StoredModel)
    requires
        forall|i: int| 0 <= i < state.staged.len() ==> is_at_a_point(#[trigger] state.staged[i]),
        forall|label: Seq<char>| #[trigger]
            state.scratchpads.contains_key(label) ==> (state.scratchpads[label] matches
                StoredScratchpadModel::Full(record) ==> is_at_a_point(record)),
    ensures
        same_stored(state, state),
{
}

/// The window and the pin of an entry are those it was made from, whichever
/// shape the entry has.
pub proof fn sticky_entries_are_read_back(id: u64, outputs: Seq<Seq<char>>)
    ensures
        StoredStickyModel::of(id, outputs).id() == id,
        StoredStickyModel::of(id, outputs).outputs() == outputs,
{
    assert(outputs.len() == 0 ==> outputs =~= Seq::empty());
}

} // verus!
