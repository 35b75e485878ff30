//! What an operation asks of the world around it, and the answers it gets.
use vstd::prelude::*;
use crate::dialogue::{Dialogue, Talk};
use crate::error::{failure, outcome, Chain, Error, Outcome};
use crate::niri::{Position, Size, WindowInfo, WindowModel, WorkspaceInfo, WorkspaceModel};
use crate::state_store::{StoredModel, StoredState};

verus! {

/// A question to the compositor, to the state file or to the configuration
/// file.
#[derive(Debug, PartialEq)]
pub enum Action {
    /// Every open window.
    Windows,
    /// Every workspace.
    Workspaces,
    /// Id of the focused window.
    ActiveWindow,
    /// Id of the focused workspace.
    ActiveWorkspace,
    /// Move a window to a workspace without focusing it.
    MoveWindow { window_id: u64, workspace_id: u64 },
    /// Name a workspace without focusing it.
    NameWorkspace { name: String, workspace_id: u64 },
    /// Drop the name of a workspace, so niri reclaims it once it is empty.
    UnnameWorkspace { workspace_id: u64 },
    /// Start a command (argv, no shell involved).
    Spawn { command: Vec<String> },
    /// Focus a window without moving it.
    FocusWindow { window_id: u64 },
    /// Put a window in the floating layout.
    FloatWindow { window_id: u64 },
    /// Move a floating window, in logical pixels from the working area's corner.
    MoveFloatingWindow { window_id: u64, position: Position },
    /// Move a workspace to a position on its output (1-based), without focusing
    /// it.
    MoveWorkspaceToIndex { workspace_id: u64, index: usize },
    /// Resize a window, in pixels or as a proportion of the working area.
    ResizeWindow { window_id: u64, width: Option<Size>, height: Option<Size> },
    /// The position to ask for instead of `wanted`, after which the window is
    /// at `actual`; none when the two are within half a pixel.
    CorrectPosition { wanted: Position, actual: Position },
    /// The persisted state.
    LoadState,
    /// Persist this state.
    SaveState { state: StoredState },
    /// The text of the configuration file.
    ReadConfig,
}

/// [`Action`] as a mathematical value.
pub enum ActionModel {
    Windows,
    Workspaces,
    ActiveWindow,
    ActiveWorkspace,
    MoveWindow { window_id: u64, workspace_id: u64 },
    NameWorkspace { name: Seq<char>, workspace_id: u64 },
    UnnameWorkspace { workspace_id: u64 },
    Spawn { command: Seq<Seq<char>> },
    FocusWindow { window_id: u64 },
    FloatWindow { window_id: u64 },
    MoveFloatingWindow { window_id: u64, position: Position },
    MoveWorkspaceToIndex { workspace_id: u64, index: usize },
    ResizeWindow { window_id: u64, width: Option<Size>, height: Option<Size> },
    CorrectPosition { wanted: Position, actual: Position },
    LoadState,
    SaveState { state: StoredModel },
    ReadConfig,
}

impl DeepView for Action {
    type V = ActionModel;

    open spec fn deep_view(&self) -> ActionModel {
        match *self {
            Action::Windows => ActionModel::Windows,
            Action::Workspaces => ActionModel::Workspaces,
            Action::ActiveWindow => ActionModel::ActiveWindow,
            Action::ActiveWorkspace => ActionModel::ActiveWorkspace,
            Action::MoveWindow { window_id, workspace_id } => ActionModel::MoveWindow {
                window_id,
                workspace_id,
            },
            Action::NameWorkspace { name, workspace_id } => ActionModel::NameWorkspace {
                name: name@,
                workspace_id,
            },
            Action::UnnameWorkspace { workspace_id } => ActionModel::UnnameWorkspace {
                workspace_id,
            },
            Action::Spawn { command } => ActionModel::Spawn { command: command.deep_view() },
            Action::FocusWindow { window_id } => ActionModel::FocusWindow { window_id },
            Action::FloatWindow { window_id } => ActionModel::FloatWindow { window_id },
            Action::MoveFloatingWindow { window_id, position } => ActionModel::MoveFloatingWindow {
                window_id,
                position,
            },
            Action::MoveWorkspaceToIndex { workspace_id, index } =>
                ActionModel::MoveWorkspaceToIndex { workspace_id, index },
            Action::ResizeWindow { window_id, width, height } => ActionModel::ResizeWindow {
                window_id,
                width,
                height,
            },
            Action::CorrectPosition { wanted, actual } => ActionModel::CorrectPosition {
                wanted,
                actual,
            },
            Action::LoadState => ActionModel::LoadState,
            Action::SaveState { state } => ActionModel::SaveState { state: state.deep_view() },
            Action::ReadConfig => ActionModel::ReadConfig,
        }
    }
}

/// The answer to an [`Action`].
#[derive(Debug, Clone, PartialEq)]
pub enum Reply {
    /// It was done.
    Done,
    Windows(Vec<WindowInfo>),
    Workspaces(Vec<WorkspaceInfo>),
    /// The id that was asked for.
    Id(u64),
    /// The position that was asked for.
    Position(Option<Position>),
    /// The persisted state, or nothing when none was stored yet.
    Stored(Option<StoredState>),
    /// The text that was asked for.
    Text(String),
    /// It could not be done.
    Failed(Error),
}

/// [`Reply`] as a mathematical value.
pub enum ReplyModel {
    Done,
    Windows(Seq<WindowModel>),
    Workspaces(Seq<WorkspaceModel>),
    Id(u64),
    Position(Option<Position>),
    Stored(Option<StoredModel>),
    Text(Seq<char>),
    Failed(Chain),
}

impl DeepView for Reply {
    type V = ReplyModel;

    open spec fn deep_view(&self) -> ReplyModel {
        match *self {
            Reply::Done => ReplyModel::Done,
            Reply::Windows(windows) => ReplyModel::Windows(windows.deep_view()),
            Reply::Workspaces(workspaces) => ReplyModel::Workspaces(workspaces.deep_view()),
            Reply::Id(id) => ReplyModel::Id(id),
            Reply::Position(position) => ReplyModel::Position(position),
            Reply::Stored(stored) => ReplyModel::Stored(stored.deep_view()),
            Reply::Text(text) => ReplyModel::Text(text@),
            Reply::Failed(e) => ReplyModel::Failed(e.deep_view()),
        }
    }
}

/// The dialogue of an operation.
pub type Conversation = Dialogue<Action, Reply>;

/// [`Conversation`] as a mathematical value.
pub type Conv = Talk<ActionModel, ReplyModel>;

/// What a question comes to: how the dialogue goes on, and the answer, unless
/// it is not there yet.
pub struct Heard<T> {
    pub talk: Conv,
    pub out: Option<T>,
}

/// The error for an answer of the wrong kind.
pub open spec fn unexpected() -> Chain {
    failure("Unexpected reply"@)
}

/// What a reply says where something was to be done.
pub open spec fn done_in(reply: ReplyModel) -> Outcome<()> {
    match reply {
        ReplyModel::Done => Ok(()),
        ReplyModel::Failed(e) => Err(e),
        _ => Err(unexpected()),
    }
}

/// The windows in a reply.
pub open spec fn windows_in(reply: ReplyModel) -> Outcome<Seq<WindowModel>> {
    match reply {
        ReplyModel::Windows(windows) => Ok(windows),
        ReplyModel::Failed(e) => Err(e),
        _ => Err(unexpected()),
    }
}

/// The workspaces in a reply.
pub open spec fn workspaces_in(reply: ReplyModel) -> Outcome<Seq<WorkspaceModel>> {
    match reply {
        ReplyModel::Workspaces(workspaces) => Ok(workspaces),
        ReplyModel::Failed(e) => Err(e),
        _ => Err(unexpected()),
    }
}

/// The id in a reply.
pub open spec fn id_in(reply: ReplyModel) -> Outcome<u64> {
    match reply {
        ReplyModel::Id(id) => Ok(id),
        ReplyModel::Failed(e) => Err(e),
        _ => Err(unexpected()),
    }
}

/// The text in a reply.
pub open spec fn text_in(reply: ReplyModel) -> Outcome<Seq<char>> {
    match reply {
        ReplyModel::Text(text) => Ok(text),
        ReplyModel::Failed(e) => Err(e),
        _ => Err(unexpected()),
    }
}

/// The persisted state in a reply; one that cannot be read counts as none.
pub open spec fn stored_in(reply: ReplyModel) -> Option<StoredModel> {
    match reply {
        ReplyModel::Stored(stored) => stored,
        _ => None,
    }
}

/// The position in a reply.
pub open spec fn position_in(reply: ReplyModel) -> Option<Position> {
    match reply {
        ReplyModel::Position(position) => position,
        _ => None,
    }
}

/// Something is asked to be done.
pub open spec fn ask_done(talk: Conv, action: ActionModel) -> Heard<Outcome<()>> {
    Heard {
        talk: talk.ask(action),
        out: match talk.answer() {
            Some(reply) => Some(done_in(reply)),
            None => None,
        },
    }
}

/// The windows are asked for.
pub open spec fn ask_windows(talk: Conv) -> Heard<Outcome<Seq<WindowModel>>> {
    Heard {
        talk: talk.ask(ActionModel::Windows),
        out: match talk.answer() {
            Some(reply) => Some(windows_in(reply)),
            None => None,
        },
    }
}

/// The workspaces are asked for.
pub open spec fn ask_workspaces(talk: Conv) -> Heard<Outcome<Seq<WorkspaceModel>>> {
    Heard {
        talk: talk.ask(ActionModel::Workspaces),
        out: match talk.answer() {
            Some(reply) => Some(workspaces_in(reply)),
            None => None,
        },
    }
}

/// An id is asked for; its error says what was being done.
pub open spec fn ask_id(talk: Conv, action: ActionModel, doing: Seq<char>) -> Heard<Outcome<u64>> {
    Heard {
        talk: talk.ask(action),
        out: match talk.answer() {
            Some(reply) => match id_in(reply) {
                Ok(id) => Some(Ok(id)),
                Err(e) => Some(Err(crate::error::in_context(doing, e))),
            },
            None => None,
        },
    }
}

/// The focused window is asked for.
pub open spec fn ask_active_window(talk: Conv) -> Heard<Outcome<u64>> {
    ask_id(talk, ActionModel::ActiveWindow, "Failed to get active window"@)
}

/// The focused workspace is asked for.
pub open spec fn ask_active_workspace(talk: Conv) -> Heard<Outcome<u64>> {
    ask_id(talk, ActionModel::ActiveWorkspace, "Failed to get active workspace ID"@)
}

fn unexpected_error() -> (r: Error)
    ensures
        r.deep_view() == unexpected(),
{
    Error::new("Unexpected reply")
}

/// What was heard, as a mathematical value.
pub open spec fn heard<T: DeepView>(r: Option<Result<T, Error>>) -> Option<Outcome<T::V>> {
    match r {
        Some(result) => Some(outcome(result)),
        None => None,
    }
}

impl Conversation {
    /// Ask for something to be done.
    pub fn done(&mut self, action: Action) -> (r: Option<Result<(), Error>>)
        ensures
            final(self).deep_view() == ask_done(old(self).deep_view(), action.deep_view()).talk,
            heard(r) == ask_done(old(self).deep_view(), action.deep_view()).out,
    {
        match self.ask(action) {
            None => None,
            Some(Reply::Done) => Some(Ok(())),
            Some(Reply::Failed(e)) => Some(Err(e)),
            Some(_) => Some(Err(unexpected_error())),
        }
    }

    /// Every open window.
    pub fn windows(&mut self) -> (r: Option<Result<Vec<WindowInfo>, Error>>)
        ensures
            final(self).deep_view() == ask_windows(old(self).deep_view()).talk,
            heard(r) == ask_windows(old(self).deep_view()).out,
    {
        match self.ask(Action::Windows) {
            None => None,
            Some(Reply::Windows(windows)) => Some(Ok(windows)),
            Some(Reply::Failed(e)) => Some(Err(e)),
            Some(_) => Some(Err(unexpected_error())),
        }
    }

    /// Every workspace.
    pub fn workspaces(&mut self) -> (r: Option<Result<Vec<WorkspaceInfo>, Error>>)
        ensures
            final(self).deep_view() == ask_workspaces(old(self).deep_view()).talk,
            heard(r) == ask_workspaces(old(self).deep_view()).out,
    {
        match self.ask(Action::Workspaces) {
            None => None,
            Some(Reply::Workspaces(workspaces)) => Some(Ok(workspaces)),
            Some(Reply::Failed(e)) => Some(Err(e)),
            Some(_) => Some(Err(unexpected_error())),
        }
    }

    fn id(&mut self, action: Action, doing: &str) -> (r: Option<Result<u64, Error>>)
        ensures
            final(self).deep_view() == ask_id(
                old(self).deep_view(),
                action.deep_view(),
                doing@,
            ).talk,
            heard(r) == ask_id(old(self).deep_view(), action.deep_view(), doing@).out,
    {
        match self.ask(action) {
            None => None,
            Some(Reply::Id(id)) => Some(Ok(id)),
            Some(Reply::Failed(e)) => Some(Err(e.context(doing))),
            Some(_) => Some(Err(unexpected_error().context(doing))),
        }
    }

    /// Focused window id, with the message shown to CLI users on failure.
    pub fn active_window(&mut self) -> (r: Option<Result<u64, Error>>)
        ensures
            final(self).deep_view() == ask_active_window(old(self).deep_view()).talk,
            heard(r) == ask_active_window(old(self).deep_view()).out,
    {
        self.id(Action::ActiveWindow, "Failed to get active window")
    }

    /// Active workspace id, with the message shown to CLI users on failure.
    pub fn active_workspace(&mut self) -> (r: Option<Result<u64, Error>>)
        ensures
            final(self).deep_view() == ask_active_workspace(old(self).deep_view()).talk,
            heard(r) == ask_active_workspace(old(self).deep_view()).out,
    {
        self.id(Action::ActiveWorkspace, "Failed to get active workspace ID")
    }
}

} // verus!
