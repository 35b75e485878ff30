//! The daemon's operations, against a compositor and a storage in memory.
use nsticky::action::{Action, Reply};
use nsticky::business::operation::{Ending, Operation, Step};
use nsticky::business::requests::{reply, reply_json, Answer};
use nsticky::business::{ids_by_appid, ids_by_title, BatchOutcome, BusinessLogic};
use nsticky::config::{Config, WindowAction, WindowFacts};
use nsticky::daemon::{
    incoming, operation_for, unreadable_request, BoundedLine, Incoming, MAX_DISCARDED_BYTES,
    MAX_REQUEST_BYTES,
};
use nsticky::dialogue::Dialogue;
use nsticky::error::Error;
use nsticky::niri::events::NiriEvent;
use nsticky::niri::{Position, Size, WindowInfo, WorkspaceInfo};
use nsticky::protocol::{Request, Response};
use nsticky::state_store::{StoredScratchpad, StoredStaged, StoredState, StoredSticky};
use serde_json::Value;
use std::cell::RefCell;
use std::collections::{HashMap, HashSet};
use std::rc::Rc;

type Result<T> = std::result::Result<T, Error>;

fn failed<T>(message: &str) -> Result<T> {
    Err(Error::new(message))
}

fn position(x: f64, y: f64) -> Position {
    Position { x: x.to_bits(), y: y.to_bits() }
}

// A compositor in memory.

/// A kind of call, so a test can pick which one to refuse.
#[derive(Debug, Clone, Copy, PartialEq, Eq)]
enum Call {
    Windows,
    Workspaces,
    ActiveWindow,
    ActiveWorkspace,
    MoveWindow,
    NameWorkspace,
    UnnameWorkspace,
    Spawn,
    FocusWindow,
    MoveFloatingWindow,
    FloatWindow,
    MoveWorkspaceToIndex,
    ResizeWindow,
}

impl Call {
    fn name(self) -> &'static str {
        match self {
            Self::Windows => "windows",
            Self::Workspaces => "workspaces",
            Self::ActiveWindow => "active_window",
            Self::ActiveWorkspace => "active_workspace",
            Self::MoveWindow => "move_window",
            Self::NameWorkspace => "name_workspace",
            Self::UnnameWorkspace => "unname_workspace",
            Self::Spawn => "spawn",
            Self::FocusWindow => "focus_window",
            Self::MoveFloatingWindow => "move_floating_window",
            Self::FloatWindow => "float_window",
            Self::MoveWorkspaceToIndex => "move_workspace_to_index",
            Self::ResizeWindow => "resize_window",
        }
    }
}

/// After `skip` more calls of `call`, the next one is refused.
#[derive(Debug, Clone, Copy)]
struct Injection {
    call: Call,
    skip: usize,
}

/// A compositor whose reactions are fully controlled by the test: it models the
/// workspace strip per output, moves that update the window's own workspace, and
/// a log of what it was asked to do.
#[derive(Debug, Default)]
struct FakeNiri {
    windows: RefCell<Vec<WindowInfo>>,
    workspaces: RefCell<Vec<WorkspaceInfo>>,
    active_window: RefCell<u64>,
    active_workspace: RefCell<u64>,
    moves: RefCell<Vec<(u64, u64)>>,
    failing_moves: RefCell<HashSet<u64>>,
    queries_fail: RefCell<bool>,
    injections: RefCell<Vec<Injection>>,
    named_actions: RefCell<Vec<String>>,
    window_actions: RefCell<Vec<String>>,
}

fn window_list(windows: &[(u64, &str, &str)]) -> Vec<WindowInfo> {
    windows
        .iter()
        .map(|(id, app_id, title)| WindowInfo {
            id: *id,
            app_id: Some((*app_id).to_string()),
            title: Some((*title).to_string()),
            workspace_id: None,
            floating: false,
            size: None,
            position: None,
        })
        .collect()
}

impl FakeNiri {
    fn new() -> Self {
        Self {
            active_window: RefCell::new(1),
            active_workspace: RefCell::new(10),
            ..Self::default()
        }
    }

    /// Fake with the given windows: `(id, app_id, title)`.
    fn with_windows(windows: &[(u64, &str, &str)]) -> Self {
        let fake = Self::new();
        fake.set_windows(windows);
        fake
    }

    /// Workspaces as niri reports them, `(id, name, output)` in strip order.
    fn set_workspaces(&self, workspaces: &[(u64, &str, &str)]) {
        let active = *self.active_workspace.borrow();
        let mut per_output: HashMap<String, u8> = HashMap::new();

        *self.workspaces.borrow_mut() = workspaces
            .iter()
            .map(|(id, name, output)| {
                let idx = per_output.entry((*output).to_string()).or_insert(0);
                *idx += 1;
                WorkspaceInfo {
                    id: *id,
                    idx: *idx,
                    name: if name.is_empty() { None } else { Some((*name).to_string()) },
                    output: Some((*output).to_string()),
                    is_active: *id == active,
                }
            })
            .collect();
    }

    fn change_window(&self, window_id: u64, change: impl Fn(&mut WindowInfo)) {
        for window in self.windows.borrow_mut().iter_mut() {
            if window.id == window_id {
                change(window);
            }
        }
    }

    fn set_window_workspace(&self, window_id: u64, workspace_id: u64) {
        self.change_window(window_id, |window| window.workspace_id = Some(workspace_id));
    }

    fn set_active_window(&self, id: u64) {
        *self.active_window.borrow_mut() = id;
    }

    fn set_active_workspace(&self, id: u64) {
        *self.active_workspace.borrow_mut() = id;
    }

    fn set_windows(&self, windows: &[(u64, &str, &str)]) {
        *self.windows.borrow_mut() = window_list(windows);
    }

    fn named_workspaces(&self) -> Vec<(u64, String)> {
        self.workspaces
            .borrow()
            .iter()
            .filter_map(|workspace| workspace.name.clone().map(|name| (workspace.id, name)))
            .collect()
    }

    fn set_workspace_active(&self, workspace_id: u64, active: bool) {
        for workspace in self.workspaces.borrow_mut().iter_mut() {
            if workspace.id == workspace_id {
                workspace.is_active = active;
            }
        }
    }

    fn set_window_floating(&self, window_id: u64, floating: bool) {
        self.change_window(window_id, |window| window.floating = floating);
    }

    fn set_window_geometry(&self, window_id: u64, size: (i32, i32), at: (f64, f64)) {
        self.change_window(window_id, |window| {
            window.size = Some(size);
            window.position = Some(position(at.0, at.1));
        });
    }

    /// Make every move of this window fail.
    fn fail_move(&self, window_id: u64) {
        self.failing_moves.borrow_mut().insert(window_id);
    }

    /// Make every query fail, as if the compositor were unreachable.
    fn fail_queries(&self, fail: bool) {
        *self.queries_fail.borrow_mut() = fail;
    }

    /// Refuse the next call of this kind; later calls work again.
    fn fail_next(&self, call: Call) {
        self.fail_nth(call, 1);
    }

    /// Refuse the `nth` call of this kind from now on.
    fn fail_nth(&self, call: Call, nth: usize) {
        self.injections.borrow_mut().push(Injection { call, skip: nth.saturating_sub(1) });
    }

    /// Refuse a call a test asked to fail, before it has any effect.
    fn check(&self, call: Call) -> Result<()> {
        if *self.queries_fail.borrow() {
            return failed("fake niri is unreachable");
        }
        let mut injections = self.injections.borrow_mut();
        let Some(at) = injections.iter().position(|injection| injection.call == call) else {
            return Ok(());
        };
        if injections[at].skip > 0 {
            injections[at].skip -= 1;
            return Ok(());
        }
        injections.remove(at);
        failed(&format!("fake niri: injected failure for {}", call.name()))
    }

    fn moves(&self) -> Vec<(u64, u64)> {
        self.moves.borrow().clone()
    }

    fn moved_to_id(&self, workspace_id: u64) -> Vec<u64> {
        self.moves()
            .into_iter()
            .filter(|(_, destination)| *destination == workspace_id)
            .map(|(id, _)| id)
            .collect()
    }

    fn window_actions(&self) -> Vec<String> {
        self.window_actions.borrow().clone()
    }

    fn workspace_naming(&self) -> Vec<String> {
        self.named_actions.borrow().clone()
    }

    fn log_window(&self, entry: String) -> Result<()> {
        self.window_actions.borrow_mut().push(entry);
        Ok(())
    }

    fn name_workspace(&self, id: u64, name: Option<String>, entry: String) -> Result<()> {
        let mut workspaces = self.workspaces.borrow_mut();
        let Some(workspace) = workspaces.iter_mut().find(|workspace| workspace.id == id) else {
            return failed(&format!("fake niri: no workspace with id {id}"));
        };
        workspace.name = name;
        self.named_actions.borrow_mut().push(entry);
        Ok(())
    }

    fn move_window(&self, window_id: u64, workspace_id: u64) -> Result<()> {
        if self.failing_moves.borrow().contains(&window_id) {
            return failed(&format!("fake niri refused to move window {window_id}"));
        }
        self.moves.borrow_mut().push((window_id, workspace_id));
        self.set_window_workspace(window_id, workspace_id);
        Ok(())
    }

    /// Like niri: take the workspace out, put it back at the requested position,
    /// and renumber the rest.
    fn move_workspace(&self, workspace_id: u64, index: usize) -> Result<()> {
        let mut workspaces = self.workspaces.borrow_mut();
        let Some(at) = workspaces.iter().position(|workspace| workspace.id == workspace_id) else {
            return failed(&format!("fake niri: no workspace with id {workspace_id}"));
        };
        let moved = workspaces.remove(at);
        let target = index.saturating_sub(1).min(workspaces.len());
        workspaces.insert(target, moved);
        for (at, workspace) in workspaces.iter_mut().enumerate() {
            workspace.idx = (at + 1) as u8;
        }
        self.named_actions.borrow_mut().push(format!("movews {workspace_id} {index}"));
        Ok(())
    }

    fn resize(&self, id: u64, width: Option<Size>, height: Option<Size>) -> Result<()> {
        let render = |size: Option<Size>, axis: &str| match size {
            Some(Size::Fixed(pixels)) => format!("{axis}={pixels}px"),
            Some(Size::Percent(bits)) => format!("{axis}={}%", f64::from_bits(bits)),
            None => String::new(),
        };
        let parts: Vec<String> = [render(width, "width"), render(height, "height")]
            .into_iter()
            .filter(|part| !part.is_empty())
            .collect();
        if !parts.is_empty() {
            self.log_window(format!("resize {id} {}", parts.join(" ")))?;
        }
        Ok(())
    }
}

// A storage in memory.

#[derive(Debug, Default)]
struct MemoryStorage {
    state: RefCell<Option<StoredState>>,
    saves: RefCell<usize>,
    fail: RefCell<bool>,
}

impl MemoryStorage {
    fn new() -> Self {
        Self::default()
    }

    fn with_state(state: StoredState) -> Self {
        let storage = Self::new();
        *storage.state.borrow_mut() = Some(state);
        storage
    }

    fn fail(&self, fail: bool) {
        *self.fail.borrow_mut() = fail;
    }

    /// How many times state was written.
    fn saves(&self) -> usize {
        *self.saves.borrow()
    }

    fn snapshot(&self) -> Option<StoredState> {
        self.state.borrow().clone()
    }
}

/// A configuration file in memory.
#[derive(Debug, Clone, Default)]
struct TempConfig(Rc<RefCell<Option<String>>>);

impl TempConfig {
    fn new() -> Self {
        Self::default()
    }

    fn write(&self, content: &str) {
        *self.0.borrow_mut() = Some(content.to_string());
    }

    fn path(&self) -> TempConfig {
        self.clone()
    }
}

// A daemon between the two.

/// The daemon with what it talks to.
struct Daemon {
    logic: RefCell<BusinessLogic>,
    config: TempConfig,
    niri: Rc<FakeNiri>,
    storage: Rc<MemoryStorage>,
    refusals: RefCell<Vec<String>>,
}

const CONFIG_PATH: &str = "/home/x/.config/nsticky/config.toml";

fn encode(windows: &[WindowInfo]) -> String {
    let items = windows
        .iter()
        .map(|w| {
            let mut entry = serde_json::Map::new();
            entry.insert("id".to_string(), Value::from(w.id));
            entry.insert("app_id".to_string(), Value::from(w.app_id.clone()));
            entry.insert("title".to_string(), Value::from(w.title.clone()));
            entry.insert("workspace_id".to_string(), Value::from(w.workspace_id));
            Value::Object(entry)
        })
        .collect();
    Value::Array(items).to_string()
}

impl Daemon {
    fn new(
        config: Config,
        file: TempConfig,
        niri: Rc<FakeNiri>,
        storage: Rc<MemoryStorage>,
    ) -> Self {
        Daemon {
            logic: RefCell::new(BusinessLogic::new(config, CONFIG_PATH.to_string())),
            config: file,
            niri,
            storage,
            refusals: RefCell::new(Vec::new()),
        }
    }

    fn done(&self, call: Call, action: impl Fn() -> Result<()>) -> Reply {
        match self.niri.check(call).and_then(|()| action()) {
            Ok(()) => Reply::Done,
            Err(e) => Reply::Failed(e),
        }
    }

    fn perform(&self, action: &Action) -> Reply {
        let reply = self.answer(action);
        if let Reply::Failed(e) = &reply {
            self.refusals.borrow_mut().push(e.render());
        }
        reply
    }

    fn answer(&self, action: &Action) -> Reply {
        let niri = &self.niri;
        let asked = |call: Call, reply: Reply| match niri.check(call) {
            Ok(()) => reply,
            Err(e) => Reply::Failed(e),
        };
        match action {
            Action::Windows => asked(Call::Windows, Reply::Windows(niri.windows.borrow().clone())),
            Action::Workspaces => {
                asked(Call::Workspaces, Reply::Workspaces(niri.workspaces.borrow().clone()))
            }
            Action::ActiveWindow => {
                asked(Call::ActiveWindow, Reply::Id(*niri.active_window.borrow()))
            }
            Action::ActiveWorkspace => {
                asked(Call::ActiveWorkspace, Reply::Id(*niri.active_workspace.borrow()))
            }
            Action::MoveWindow { window_id, workspace_id } => {
                self.done(Call::MoveWindow, || niri.move_window(*window_id, *workspace_id))
            }
            Action::NameWorkspace { name, workspace_id } => self.done(Call::NameWorkspace, || {
                let entry = format!("name {workspace_id} {name}");
                niri.name_workspace(*workspace_id, Some(name.clone()), entry)
            }),
            Action::UnnameWorkspace { workspace_id } => self.done(Call::UnnameWorkspace, || {
                niri.name_workspace(*workspace_id, None, format!("unname {workspace_id}"))
            }),
            Action::Spawn { command } => self
                .done(Call::Spawn, || niri.log_window(format!("spawn {}", command.join(" ")))),
            Action::FocusWindow { window_id } => {
                self.done(Call::FocusWindow, || niri.log_window(format!("focus {window_id}")))
            }
            Action::FloatWindow { window_id } => {
                self.done(Call::FloatWindow, || niri.log_window(format!("float {window_id}")))
            }
            Action::MoveFloatingWindow { window_id, position } => {
                self.done(Call::MoveFloatingWindow, || {
                    let (x, y) = (f64::from_bits(position.x), f64::from_bits(position.y));
                    niri.log_window(format!("move {window_id} {x} {y}"))
                })
            }
            Action::MoveWorkspaceToIndex { workspace_id, index } => self
                .done(Call::MoveWorkspaceToIndex, || niri.move_workspace(*workspace_id, *index)),
            Action::ResizeWindow { window_id, width, height } => {
                self.done(Call::ResizeWindow, || niri.resize(*window_id, *width, *height))
            }
            Action::CorrectPosition { wanted, actual } => {
                let (x, y) = (f64::from_bits(wanted.x), f64::from_bits(wanted.y));
                let (off_x, off_y) = (f64::from_bits(actual.x) - x, f64::from_bits(actual.y) - y);
                Reply::Position(if off_x.abs() > 0.5 || off_y.abs() > 0.5 {
                    Some(position(x - off_x, y - off_y))
                } else {
                    None
                })
            }
            Action::LoadState => {
                if *self.storage.fail.borrow() {
                    Reply::Failed(Error::new("memory storage is failing"))
                } else {
                    Reply::Stored(self.storage.snapshot())
                }
            }
            Action::SaveState { state } => {
                if *self.storage.fail.borrow() {
                    Reply::Failed(Error::new("memory storage is failing"))
                } else {
                    *self.storage.saves.borrow_mut() += 1;
                    *self.storage.state.borrow_mut() = Some(state.clone());
                    Reply::Done
                }
            }
            Action::ReadConfig => match &*self.config.0.borrow() {
                Some(content) => Reply::Text(content.clone()),
                None => Reply::Failed(Error::new("No such file or directory (os error 2)")),
            },
        }
    }

    /// One piece of an operation, started again with every answer it waits for.
    fn run<T>(
        &self,
        piece: impl Fn(&mut BusinessLogic, &mut Dialogue<Action, Reply>) -> Option<T>,
    ) -> T {
        let mut answers: Vec<Reply> = Vec::new();
        loop {
            let mut logic = self.logic.borrow_mut();
            let (state, persisted) = (logic.state.clone(), logic.persisted.clone());
            let mut talk = Dialogue::new(answers.clone());
            match piece(&mut logic, &mut talk) {
                Some(out) => {
                    assert!(talk.answers.is_empty(), "every answer is used");
                    return out;
                }
                None => {
                    logic.state = state;
                    logic.persisted = persisted;
                    drop(logic);
                    let reply = self.perform(talk.asked.last().unwrap());
                    answers.push(reply);
                }
            }
        }
    }

    /// A whole operation.
    fn operate(&self, operation: Operation) -> Ending {
        let mut answers: Vec<Reply> = Vec::new();
        loop {
            let step = self.logic.borrow_mut().advance(&operation, answers.clone());
            match step {
                Step::Ask(action) => {
                    let reply = self.perform(&action);
                    answers.push(reply);
                }
                Step::End(ending) => return ending,
            }
        }
    }

    fn done_by(&self, operation: Operation) -> Result<()> {
        match self.operate(operation) {
            Ending::Done(result) => result,
            other => panic!("unexpected ending: {other:?}"),
        }
    }

    fn handle_request(&self, request: Request) -> Response {
        match self.operate(Operation::Request(request)) {
            Ending::Answered(Answer::Response(response)) => response,
            Ending::Answered(Answer::Windows(windows)) => reply_json(Ok(Ok(encode(&windows)))),
            other => panic!("unexpected ending: {other:?}"),
        }
    }

    fn reconcile(&self) -> Result<()> {
        self.done_by(Operation::Reconcile)
    }

    fn reload_from_disk(&self) -> Result<String> {
        match self.operate(Operation::Reload) {
            Ending::Reloaded(result) => result,
            other => panic!("unexpected ending: {other:?}"),
        }
    }

    fn handle_workspace_activation(&self, id: u64) -> Result<()> {
        self.done_by(Operation::WorkspaceActivated { id })
    }

    fn handle_window_opened_or_changed(
        &self,
        id: u64,
        app_id: Option<String>,
        title: Option<String>,
        floating: bool,
    ) -> Result<()> {
        self.done_by(Operation::WindowOpenedOrChanged { id, app_id, title, floating })
    }

    fn handle_window_closed(&self, id: u64) -> Result<()> {
        self.done_by(Operation::WindowClosed { id })
    }

    fn ensure_parking_order(&self) -> Result<()> {
        self.done_by(Operation::ParkingOrder)
    }

    fn toggle_scratchpad(&self, name: Option<&str>) -> Result<String> {
        self.run(|logic, talk| logic.toggle_scratchpad(talk, name))
    }

    fn stage_window(&self, id: u64) -> Result<()> {
        self.run(|logic, talk| logic.stage_window(talk, id))
    }

    fn unstage_window(&self, id: u64, workspace_id: u64) -> Result<()> {
        self.run(|logic, talk| logic.unstage_window(talk, id, workspace_id))
    }

    fn add_sticky_window(&self, id: u64) -> Result<bool> {
        self.run(|logic, talk| logic.add_sticky_window(talk, id))
    }

    fn remove_sticky_window(&self, id: u64) -> Result<bool> {
        self.run(|logic, talk| logic.remove_sticky_window(talk, id))
    }

    fn list_sticky_windows(&self) -> Result<Vec<u64>> {
        self.run(|logic, talk| logic.list_sticky_windows(talk))
    }

    fn toggle_active_window(&self) -> Result<bool> {
        self.run(|logic, talk| logic.toggle_active_window(talk))
    }

    fn toggle_by_appid(&self, appid: &str) -> Result<BatchOutcome> {
        self.run(|logic, talk| logic.toggle_by_appid(talk, appid))
    }

    fn toggle_by_title(&self, title: &str) -> Result<BatchOutcome> {
        self.run(|logic, talk| logic.toggle_by_title(talk, title))
    }

    fn toggle_stage_by_appid(&self, appid: &str, workspace_id: u64) -> Result<BatchOutcome> {
        self.run(|logic, talk| logic.toggle_stage_by_appid(talk, appid, workspace_id))
    }

    fn toggle_stage_by_title(&self, title: &str, workspace_id: u64) -> Result<BatchOutcome> {
        self.run(|logic, talk| logic.toggle_stage_by_title(talk, title, workspace_id))
    }

    fn stage_all_windows(&self) -> Result<BatchOutcome> {
        self.run(|logic, talk| logic.stage_all_windows(talk))
    }

    fn unstage_all_windows(&self, workspace_id: u64) -> Result<BatchOutcome> {
        self.run(|logic, talk| logic.unstage_all_windows(talk, workspace_id))
    }

    fn list_staged_windows(&self) -> Vec<u64> {
        self.logic.borrow().list_staged_windows()
    }

    fn stick(&self, id: u64, pin: Vec<String>) -> bool {
        self.logic.borrow_mut().stick(id, pin)
    }

    fn pin_of(&self, id: u64) -> Vec<String> {
        self.logic.borrow().state.pin(id)
    }
}

/// Two terminals, a browser and a music player.
const WINDOWS: &[(u64, &str, &str)] = &[
    (1, "foot", "Terminal"),
    (2, "foot", "Terminal"),
    (3, "firefox", "Inbox - Gmail"),
    (4, "Spotify", "Spotify Premium"),
];

fn storage() -> Rc<MemoryStorage> {
    Rc::new(MemoryStorage::new())
}

const SCRATCHPAD_CONFIG: &str = r#"
stage-workspace = "stage"

[scratchpad.term]
app-id = "foot"
title = "dropdown-terminal"
spawn = ["foot", "--app-id", "foot", "--title", "dropdown-terminal"]
width = "60%"
height = "400"
"#;

/// A compositor with one output, an active workspace and a named stage workspace.
fn with_layout() -> Rc<FakeNiri> {
    let niri = Rc::new(FakeNiri::with_windows(WINDOWS));
    niri.set_workspaces(&[(1, "one", "DP-1"), (2, "stage", "DP-1"), (3, "", "DP-1")]);
    niri.set_active_workspace(1);
    niri.set_workspace_active(1, true);
    niri.set_window_workspace(1, 1);
    niri.set_window_workspace(2, 1);
    niri.set_window_workspace(3, 1);
    niri.set_window_workspace(4, 1);
    niri
}

fn business(niri: &Rc<FakeNiri>) -> Daemon {
    Daemon::new(
        Config::default(),
        TempConfig::new(),
        niri.clone(),
        storage(),
    )
}

fn business_with_config(niri: &Rc<FakeNiri>, toml: &str) -> Daemon {
    Daemon::new(
        Config::parse_document(toml).unwrap(),
        TempConfig::new(),
        niri.clone(),
        storage(),
    )
}

/// Business logic plus the storage it writes to, so tests can inspect it.
fn business_with_storage(
    niri: &Rc<FakeNiri>,
    toml: &str,
    storage: &Rc<MemoryStorage>,
) -> Daemon {
    Daemon::new(
        Config::parse_document(toml).unwrap_or_default(),
        TempConfig::new(),
        niri.clone(),
        storage.clone(),
    )
}

fn staged(business: &Daemon, id: u64) -> bool {
    business.logic.borrow().is_window_staged(id)
}

/// Whether a scratchpad parked this window (a separate area from the stage).
fn parked(business: &Daemon, id: u64) -> bool {
    business.logic.borrow().state.is_parked(id)
}

fn sticky(business: &Daemon, id: u64) -> bool {
    business.logic.borrow().state.sticky_windows.contains(id)
}



/// Two monitors: workspace 1 is active on DP-1, workspace 2 on DP-2.
fn two_monitors() -> Rc<FakeNiri> {
    let niri = Rc::new(FakeNiri::with_windows(WINDOWS));
    niri.set_workspaces(&[(1, "one", "DP-1"), (3, "three", "DP-1"), (2, "two", "DP-2")]);
    niri.set_workspace_active(1, true);
    niri.set_workspace_active(2, true);
    niri
}

fn scratchpad_business(niri: &Rc<FakeNiri>) -> Daemon {
    business_with_config(niri, SCRATCHPAD_CONFIG)
}

/// The value a call gave and what the compositor refused meanwhile, so a test
/// can check that a best-effort failure was met on the way.
fn with_logs<T>(business: &Daemon, call: impl FnOnce() -> T) -> (T, Vec<String>) {
    business.refusals.borrow_mut().clear();
    let value = call();
    (value, business.refusals.borrow().clone())
}

/// Whether this failure was met.
fn reported(logs: &[String], message: &str) -> bool {
    logs.iter().any(|line| line.contains(message))
}

#[test]
fn test_ids_by_appid_and_title() {
    let windows: Vec<WindowInfo> = WINDOWS
        .iter()
        .map(|(id, app_id, title)| WindowInfo {
            id: *id,
            app_id: Some((*app_id).to_string()),
            title: Some((*title).to_string()),
            workspace_id: None,
            floating: false,
            size: None,
            position: None,
        })
        .collect();

    assert_eq!(ids_by_appid(&windows, "foot"), vec![1, 2]);
    assert_eq!(ids_by_appid(&windows, "Firefox"), Vec::<u64>::new());
    assert_eq!(ids_by_title(&windows, "Gmail"), vec![3]);
    assert_eq!(ids_by_title(&windows, "Terminal"), vec![1, 2]);
    assert_eq!(ids_by_title(&windows, "missing"), Vec::<u64>::new());
}

#[test]
fn test_stage_window_moves_to_stage_and_marks_staged() {
    let niri = with_layout();
    let business = business(&niri);

    business.add_sticky_window(1).unwrap();
    business.stage_window(1).unwrap();

    assert!(staged(&business, 1));
    assert!(!sticky(&business, 1));
    assert_eq!(niri.moved_to_id(2), vec![1]);
}

#[test]
fn test_staging_creates_the_configured_workspace_on_demand() {
    // The layout has a workspace in use and the empty tail niri keeps; the
    // config asks for "parking", which does not exist yet: nsticky names the
    // empty workspace at the bottom instead of requiring it in niri's config.
    let niri = with_layout();
    niri.set_workspaces(&[(1, "one", "DP-1"), (2, "", "DP-1")]);
    let business = business_with_config(&niri, "stage-workspace = \"parking\"\n");

    business.stage_window(1).unwrap();

    let names = niri.named_workspaces();
    assert_eq!(
        names,
        vec![(1, "one".to_string()), (2, "parking".to_string())],
        "the tail took the configured name and nothing else moved"
    );
    assert_eq!(niri.moved_to_id(2), vec![1], "the window moved to its id");
}

#[test]
fn test_staging_does_not_rename_an_existing_stage_workspace() {
    let niri = with_layout();
    let business = business(&niri);

    business.stage_window(1).unwrap();

    assert!(
        niri.workspace_naming().is_empty(),
        "the stage workspace was already named: nothing to do, and no focus stolen"
    );
    assert_eq!(niri.moved_to_id(2), vec![1]);
    let names = niri.named_workspaces();
    assert!(
        names.contains(&(2, "stage".to_string())),
        "the stage workspace keeps its name: {names:?}"
    );
}

#[test]
fn test_the_stage_workspace_is_released_when_the_last_window_leaves() {
    let niri = with_layout();
    let business = business(&niri);
    for id in [1, 3] {
        business.stage_window(id).unwrap();
    }

    business.unstage_window(1, 1).unwrap();
    assert!(
        niri.workspace_naming().is_empty(),
        "a window is still parked: the workspace stays"
    );

    business.unstage_window(3, 1).unwrap();
    assert_eq!(
        niri.workspace_naming().len(),
        1,
        "the name is given back once nothing is parked: {:?}",
        niri.workspace_naming()
    );
    assert!(niri.workspace_naming()[0].contains("unname"));
}

#[test]
fn test_closing_the_last_parked_window_releases_the_workspace() {
    let niri = with_layout();
    let business = business(&niri);
    business.stage_window(1).unwrap();

    business.handle_window_closed(1).unwrap();

    assert_eq!(niri.workspace_naming().len(), 1);
    assert!(niri.workspace_naming()[0].contains("unname"));
}

#[test]
fn test_stage_workspace_is_kept_when_asked_for() {
    let niri = with_layout();
    let business = business_with_config(&niri, "stage-keep-workspace = true\n");
    business.stage_window(1).unwrap();

    business.unstage_window(1, 1).unwrap();

    assert!(
        niri.workspace_naming().is_empty(),
        "the configuration asked to keep the workspace: {:?}",
        niri.workspace_naming()
    );
}

#[test]
fn test_stage_window_rolls_back_when_the_move_fails() {
    let niri = with_layout();
    let business = business(&niri);
    business.add_sticky_window(1).unwrap();
    niri.fail_move(1);

    let error = business.stage_window(1).unwrap_err();

    assert!(error.message().contains("refused"), "{error:?}");
    assert!(!staged(&business, 1), "must not stay staged");
    assert!(sticky(&business, 1), "must stay sticky");
    assert!(niri.moves().is_empty());
}

#[test]
fn test_unstage_window_restores_sticky_state() {
    let niri = with_layout();
    let business = business(&niri);
    business.add_sticky_window(1).unwrap();
    business.stage_window(1).unwrap();
    niri.set_active_workspace(42);

    business.unstage_window(1, 42).unwrap();

    assert!(!staged(&business, 1));
    assert!(sticky(&business, 1), "was sticky before staging");
    assert_eq!(niri.moves().last().unwrap().1, 42);
}

#[test]
fn test_unstage_window_keeps_plain_windows_non_sticky() {
    let niri = with_layout();
    let business = business(&niri);
    business.stage_window(2).unwrap();

    business.unstage_window(2, 42).unwrap();

    assert!(!staged(&business, 2));
    assert!(!sticky(&business, 2), "never was sticky");
}

#[test]
fn test_unstage_window_rolls_back_when_the_move_fails() {
    let niri = with_layout();
    let business = business(&niri);
    business.add_sticky_window(1).unwrap();
    business.stage_window(1).unwrap();
    niri.fail_move(1);

    assert!(business.unstage_window(1, 42).is_err());

    assert!(staged(&business, 1), "must stay staged");
    assert!(
        !sticky(&business, 1),
        "a staged window must not be sticky at the same time"
    );
}

#[test]
fn test_unstage_window_rejects_windows_that_are_not_staged() {
    let niri = with_layout();
    let business = business(&niri);

    let error = business.unstage_window(1, 42).unwrap_err();

    assert!(error.message().contains("not in staged list"), "{error:?}");
}

#[test]
fn test_stage_all_windows_counts_only_successful_moves() {
    let niri = with_layout();
    let business = business(&niri);
    for id in [1, 2, 3] {
        business.add_sticky_window(id).unwrap();
    }
    niri.fail_move(2);

    let outcome = business.stage_all_windows().unwrap();

    assert_eq!(outcome.count(), 2);
    assert_eq!(outcome.failed, vec![2], "the failed move is reported");
    assert!(staged(&business, 1));
    assert!(!staged(&business, 2), "failed move is rolled back");
    assert!(sticky(&business, 2), "failed move keeps sticky state");
    assert!(staged(&business, 3));
    assert!(!sticky(&business, 1));
    assert!(!sticky(&business, 3));
}

#[test]
fn test_unstage_all_windows_keeps_failed_windows_staged() {
    let niri = with_layout();
    let business = business(&niri);
    business.add_sticky_window(1).unwrap();
    business.add_sticky_window(2).unwrap();
    business.stage_all_windows().unwrap();
    niri.fail_move(1);

    let outcome = business.unstage_all_windows(42).unwrap();

    assert_eq!(outcome.count(), 1);
    assert_eq!(outcome.failed, vec![1]);
    assert!(staged(&business, 1), "failed unstage stays staged");
    assert!(!staged(&business, 2));
    assert!(sticky(&business, 2), "restored to sticky");
}

#[test]
fn test_unstage_all_windows_forgets_windows_that_vanished() {
    let niri = with_layout();
    let business = business(&niri);
    for id in [1, 2] {
        business.add_sticky_window(id).unwrap();
    }
    business.stage_all_windows().unwrap();
    // Window 1 closed while staged.
    niri.set_windows(&[(2, "foot", "Terminal"), (3, "firefox", "Gmail")]);

    let outcome = business.unstage_all_windows(42).unwrap();

    assert_eq!(outcome.count(), 1);
    assert!(
        outcome.failed.is_empty(),
        "a window that closed is forgotten, not failed: {:?}",
        outcome.failed
    );
    assert!(!staged(&business, 1));
    assert!(!sticky(&business, 1));
    assert_eq!(business.list_staged_windows().len(), 0);
}

#[test]
fn test_toggle_active_staged_window_returns_to_the_active_workspace() {
    let niri = with_layout();
    let business = business(&niri);
    niri.set_active_window(3);
    niri.set_active_workspace(27);
    business.stage_window(3).unwrap();

    let is_sticky = business.toggle_active_window().unwrap();

    assert!(is_sticky);
    assert!(!staged(&business, 3));
    assert!(sticky(&business, 3));
    assert_eq!(niri.moves().last().unwrap().1, 27);
}

#[test]
fn test_toggle_active_window_flips_sticky_state() {
    let niri = Rc::new(FakeNiri::with_windows(WINDOWS));
    let business = business(&niri);
    niri.set_active_window(1);

    assert!(business.toggle_active_window().unwrap());
    assert!(sticky(&business, 1));
    assert!(!business.toggle_active_window().unwrap());
    assert!(!sticky(&business, 1));
}

#[test]
fn test_toggle_by_appid_requires_a_match() {
    let niri = Rc::new(FakeNiri::with_windows(WINDOWS));
    let business = business(&niri);

    let error = business.toggle_by_appid("nope").unwrap_err();
    assert!(error.message().contains("No window found"), "{error:?}");

    assert_eq!(business.toggle_by_appid("foot").unwrap().count(), 2);
    assert!(sticky(&business, 1));
    assert!(sticky(&business, 2));
}

#[test]
fn test_toggle_by_title_matches_substrings() {
    let niri = Rc::new(FakeNiri::with_windows(WINDOWS));
    let business = business(&niri);

    assert_eq!(business.toggle_by_title("Gmail").unwrap().count(), 1);
    assert!(sticky(&business, 3));
}

#[test]
fn test_remove_sticky_window_conflicts_with_stage() {
    let niri = with_layout();
    let business = business(&niri);
    business.add_sticky_window(1).unwrap();
    business.stage_window(1).unwrap();

    let error = business.remove_sticky_window(1).unwrap_err();
    assert!(
        error.message().contains("cannot remove from sticky"),
        "{error:?}"
    );
}

#[test]
fn test_add_sticky_window_rejects_unknown_windows() {
    let niri = Rc::new(FakeNiri::with_windows(WINDOWS));
    let business = business(&niri);

    let error = business.add_sticky_window(999).unwrap_err();
    assert!(error.message().contains("not found in Niri"), "{error:?}");
}

#[test]
fn test_list_sticky_windows_drops_closed_windows() {
    let niri = Rc::new(FakeNiri::with_windows(WINDOWS));
    let business = business(&niri);
    business.add_sticky_window(1).unwrap();
    business.add_sticky_window(2).unwrap();
    niri.set_windows(&[(1, "foot", "Terminal")]);

    assert_eq!(business.list_sticky_windows().unwrap(), vec![1]);
}

#[test]
fn test_pinned_window_only_follows_its_own_output() {
    let niri = two_monitors();
    niri.set_window_workspace(1, 2); // window 1 lives on DP-2
    let business = business_with_config(
        &niri,
        r#"
[sticky.discord]
app-id = "foot"
output = "DP-2"
"#,
    );
    business
        .handle_window_opened_or_changed(1, Some("foot".into()), None, false)
        .unwrap();
    assert_eq!(business.pin_of(1), vec!["DP-2".to_string()]);

    // A workspace on the other monitor becomes focused: leave it alone.
    business.handle_workspace_activation(3).unwrap();
    assert!(
        niri.moves().is_empty(),
        "a window pinned to DP-2 must not follow DP-1"
    );

    // Its own output does move it.
    business.handle_workspace_activation(2).unwrap();
    assert_eq!(niri.moved_to_id(2), vec![1]);
}

#[test]
fn test_own_output_follow_keeps_windows_on_their_monitor() {
    let niri = two_monitors();
    niri.set_window_workspace(1, 2); // DP-2
    niri.set_window_workspace(2, 1); // DP-1
    let business = business_with_config(
        &niri,
        r#"
sticky-follow = "own-output"

[sticky.terminals]
app-id = "foot"
"#,
    );

    for id in [1, 2] {
        business
            .handle_window_opened_or_changed(id, Some("foot".into()), None, false)
            .unwrap();
    }
    assert_eq!(business.pin_of(1), vec!["DP-2".to_string()]);
    assert_eq!(business.pin_of(2), vec!["DP-1".to_string()]);

    business.handle_workspace_activation(2).unwrap();

    assert_eq!(
        niri.moved_to_id(2),
        vec![1],
        "only the window on DP-2 follows DP-2"
    );
}

#[test]
fn business_test_pinned_window_returns_to_its_output_when_it_drifted() {
    let niri = two_monitors();
    niri.set_window_workspace(1, 1); // currently on DP-1
    let business = business_with_config(
        &niri,
        r#"
[sticky.browser]
app-id = "foot"
output = "DP-2"
"#,
    );
    business
        .handle_window_opened_or_changed(1, Some("foot".into()), None, false)
        .unwrap();

    business.handle_workspace_activation(3).unwrap();

    assert_eq!(
        niri.moved_to_id(2),
        vec![1],
        "it goes back to the workspace active on DP-2"
    );
}

#[test]
fn test_pinned_window_follows_focus_while_its_output_is_disconnected() {
    let niri = Rc::new(FakeNiri::with_windows(WINDOWS));
    // Only DP-1 is connected.
    niri.set_workspaces(&[(1, "one", "DP-1")]);
    niri.set_workspace_active(1, true);
    niri.set_window_workspace(1, 1);
    let business = business_with_config(
        &niri,
        r#"
[sticky.browser]
app-id = "foot"
output = "DP-2"
"#,
    );
    business
        .handle_window_opened_or_changed(1, Some("foot".into()), None, false)
        .unwrap();

    business.handle_workspace_activation(1).unwrap();

    assert_eq!(
        niri.moved_to_id(1),
        vec![1],
        "an unplugged monitor must not make the window unreachable"
    );
}

#[test]
fn test_overlapping_output_rules_take_the_first_match() {
    let niri = two_monitors();
    niri.set_window_workspace(1, 1);
    niri.set_window_workspace(2, 2);
    let business = business_with_config(
        &niri,
        r#"
[sticky.left]
app-id = "foot"
output = "DP-1"

[sticky.right]
app-id = "foot"
output = "DP-2"
"#,
    );

    for id in [1, 2] {
        business
            .handle_window_opened_or_changed(
                id,
                Some("foot".into()),
                Some("Terminal".into()),
                false,
            )
            .unwrap();
    }

    // Both rules match both windows; sticky rules are evaluated in name
    // order, so "left" wins. Per-window pinning is what `sticky-follow =
    // "own-output"` (above) and distinct titles/apps are for.
    assert_eq!(business.pin_of(1), vec!["DP-1".to_string()]);
    assert_eq!(business.pin_of(2), vec!["DP-1".to_string()]);
}

#[test]
fn test_scratchpad_starts_the_command_when_nothing_matches() {
    let niri = with_layout();
    let business = scratchpad_business(&niri);

    let message = business.toggle_scratchpad(Some("term")).unwrap();

    assert!(message.starts_with("Starting term"), "{message}");
    assert_eq!(
        niri.window_actions(),
        vec!["spawn foot --app-id foot --title dropdown-terminal".to_string()]
    );
}

#[test]
fn test_scratchpad_hides_a_visible_window() {
    let niri = with_layout();
    let business = scratchpad_business(&niri);
    niri.set_windows(&[(1, "foot", "dropdown-terminal"), (2, "foot", "otra cosa")]);

    let message = business.toggle_scratchpad(Some("term")).unwrap();

    assert!(message.starts_with("Hidden term"), "{message}");
    assert!(parked(&business, 1));
    assert!(!parked(&business, 2), "only the matching window");
    assert!(
        !staged(&business, 1),
        "a scratchpad window is not a staged window: `stage restore` must not bring it back"
    );
    assert_eq!(
        niri.moved_to_id(3),
        vec![1],
        "the scratchpad area is the empty tail, not the stage"
    );
    assert!(niri.window_actions().is_empty(), "hiding styles nothing");
}

#[test]
fn test_a_scratchpad_parks_on_its_own_workspace() {
    let niri = with_layout();
    let business = business_with_config(
        &niri,
        r#"
stage-workspace = "parking"
scratchpad-workspace = "drop"

[scratchpad.term]
app-id = "foot"
title = "dropdown-terminal"
"#,
    );
    // A window parked on the stage, so that area is in use and stays, and a
    // window for the scratchpad to take.
    niri.set_workspaces(&[(1, "one", "DP-1"), (2, "parking", "DP-1"), (3, "", "DP-1")]);
    niri.set_windows(&[(1, "foot", "dropdown-terminal"), (2, "zen", "GitHub")]);
    niri.set_window_workspace(1, 1);
    niri.set_window_workspace(2, 1);
    business.stage_window(2).unwrap();

    let message = business.toggle_scratchpad(Some("term")).unwrap();

    assert!(message.starts_with("Hidden term"), "{message}");
    assert_eq!(
        niri.named_workspaces(),
        vec![
            (1, "one".to_string()),
            (2, "parking".to_string()),
            (3, "drop".to_string()),
        ],
        "the new area takes the empty tail, not the stage workspace"
    );
    assert_eq!(
        niri.moved_to_id(3),
        vec![1],
        "the window went to the scratchpad workspace"
    );

    // And it goes away again once the window is back.
    let message = business.toggle_scratchpad(Some("term")).unwrap();
    assert!(message.starts_with("Shown term"), "{message}");
    assert_eq!(
        niri.named_workspaces(),
        vec![(1, "one".to_string()), (2, "parking".to_string())],
        "the empty scratchpad workspace is released"
    );
}

#[test]
fn test_stage_restore_leaves_a_scratchpad_window_alone() {
    let niri = with_layout();
    let business = scratchpad_business(&niri);
    niri.set_windows(&[(1, "foot", "dropdown-terminal")]);

    business.toggle_scratchpad(Some("term")).unwrap();
    let _ = niri.moves();

    let restored = business.unstage_all_windows(1).unwrap();

    assert!(restored.succeeded.is_empty(), "{restored:?}");
    assert_eq!(
        business.list_staged_windows(),
        Vec::<u64>::new(),
        "the dropdown terminal is not a staged window"
    );
    assert!(parked(&business, 1));
}

#[test]
fn test_parking_workspaces_are_kept_at_the_end() {
    let niri = with_layout();
    niri.set_workspaces(&[
        (1, "one", "DP-1"),
        (2, "drop", "DP-1"),
        (3, "parking", "DP-1"),
        (4, "", "DP-1"),
    ]);
    niri.set_window_workspace(1, 1);
    niri.set_window_workspace(2, 2); // the parked windows really are there
    niri.set_window_workspace(3, 3);
    let business = business_with_config(
        &niri,
        r#"
stage-workspace = "parking"
scratchpad-workspace = "drop"
"#,
    );

    // The user opened a window on the tail, so a workspace appeared below
    // the parking areas.
    niri.set_workspaces(&[
        (1, "one", "DP-1"),
        (2, "drop", "DP-1"),
        (3, "parking", "DP-1"),
        (5, "five", "DP-1"),
        (6, "", "DP-1"),
    ]);
    business.ensure_parking_order().unwrap();

    assert_eq!(
        niri.workspace_naming().join("; "),
        "movews 2 5; movews 3 6",
        "both areas move below the new workspace, in order"
    );

    // Looking again changes nothing: the layout is read from the
    // compositor, so after the moves it is already the wanted one. Acting on
    // a stale view is what made the daemon move them back and forth
    // forever.
    business.ensure_parking_order().unwrap();
    assert_eq!(
        niri.workspace_naming().join("; "),
        "movews 2 5; movews 3 6",
        "the second look must be satisfied"
    );
}

#[test]
fn test_scratchpads_survive_a_restart() {
    let niri = with_layout();
    let storage = Rc::new(MemoryStorage::default());
    {
        let business = business_with_storage(&niri, SCRATCHPAD_CONFIG, &storage);
        niri.set_windows(&[(1, "foot", "dropdown-terminal")]);
        business.toggle_scratchpad(Some("term")).unwrap();
    }

    let business = business_with_storage(&niri, SCRATCHPAD_CONFIG, &storage);
    business.reconcile().unwrap();

    assert!(parked(&business, 1));
    assert!(!staged(&business, 1));
}

#[test]
fn test_scratchpad_shows_a_parked_window_centred_and_sized() {
    let niri = with_layout();
    let business = scratchpad_business(&niri);
    niri.set_windows(&[(1, "foot", "dropdown-terminal")]);
    business.stage_window(1).unwrap();

    // Adopting a window parked on the stage moves it to the scratchpad.
    let message = business.toggle_scratchpad(Some("term")).unwrap();
    assert!(message.starts_with("Hidden term"), "{message}");
    assert!(parked(&business, 1));
    assert!(!staged(&business, 1), "the stage gave it up");

    let message = business.toggle_scratchpad(Some("term")).unwrap();

    assert!(message.starts_with("Shown term"), "{message}");
    assert!(!parked(&business, 1));
    assert!(!staged(&business, 1));
    assert_eq!(
        niri.window_actions(),
        vec![
            "float 1".to_string(),
            "resize 1 width=60% height=400px".to_string(),
            "focus 1".to_string(),
        ],
        "floated, sized and focused, in that order"
    );
    assert_eq!(
        niri.moves().last().unwrap(),
        &(1, 1),
        "back to the active workspace"
    );
}

#[test]
fn test_scratchpad_toggles_back_and_forth() {
    let niri = with_layout();
    let business = scratchpad_business(&niri);
    niri.set_windows(&[(1, "foot", "dropdown-terminal")]);

    assert!(
        business
            .toggle_scratchpad(Some("term"))
            .unwrap()
            .starts_with("Hidden")
    );
    assert!(
        business
            .toggle_scratchpad(Some("term"))
            .unwrap()
            .starts_with("Shown")
    );

    let hidden = business.toggle_scratchpad(Some("term")).unwrap();
    assert!(hidden.starts_with("Hidden"), "{hidden}");
    assert!(parked(&business, 1));
    assert!(!staged(&business, 1));
}

#[test]
fn test_scratchpad_remembers_the_size_and_position_it_had() {
    let niri = with_layout();
    let business = scratchpad_business(&niri);
    // The window is already floating with a size niri gave it; the config
    // asks for 60%, which must not win over what it actually had.
    niri.set_windows(&[(1, "foot", "dropdown-terminal")]);
    niri.set_window_floating(1, true);
    niri.set_window_geometry(1, (1100, 480), (730.0, 94.0));

    business.toggle_scratchpad(Some("term")).unwrap();
    let actions_after_hide = niri.window_actions();
    assert!(
        actions_after_hide.is_empty(),
        "hiding only parks it: {actions_after_hide:?}"
    );

    business.toggle_scratchpad(Some("term")).unwrap();

    assert_eq!(
        niri.window_actions(),
        vec![
            "float 1".to_string(),
            "resize 1 width=1100px height=480px".to_string(),
            "move 1 730 94".to_string(),
            "focus 1".to_string(),
        ],
        "it comes back exactly as it was, not with the configured 60%"
    );
}

#[test]
fn test_scratchpad_follows_focus_without_a_matcher() {
    let niri = with_layout();
    let business = business_with_config(
        &niri,
        r#"
stage-workspace = "stage"

[scratchpad.any]
float = true
"#,
    );
    niri.set_active_window(3);

    let hidden = business.toggle_scratchpad(Some("any")).unwrap();
    assert!(hidden.starts_with("Hidden any (3)"), "{hidden}");
    assert!(parked(&business, 3));

    // Something else has focus now: the toggle still brings back its window.
    niri.set_active_window(1);
    let shown = business.toggle_scratchpad(Some("any")).unwrap();

    assert!(shown.starts_with("Shown any (3)"), "{shown}");
    assert!(!parked(&business, 3));
    assert!(!parked(&business, 1), "the other window is untouched");
}

#[test]
fn test_scratchpad_without_a_name_toggles_the_focused_window() {
    let niri = with_layout();
    let business = business(&niri);
    niri.set_active_window(2);

    let hidden = business.toggle_scratchpad(None).unwrap();
    assert!(hidden.starts_with("Hidden focused (2)"), "{hidden}");

    let shown = business.toggle_scratchpad(None).unwrap();
    assert!(shown.starts_with("Shown focused (2)"), "{shown}");
    assert!(!parked(&business, 2));
    assert_eq!(
        niri.window_actions(),
        vec!["float 2".to_string(), "focus 2".to_string(),],
        "no geometry was configured or remembered, so nothing is resized"
    );
}

#[test]
fn test_scratchpad_without_a_spawn_command_reports_it() {
    let niri = with_layout();
    niri.set_windows(&[(9, "zen", "Browser")]);
    let business = business_with_config(
        &niri,
        r#"
[scratchpad.term]
app-id = "foot"
"#,
    );

    let error = business.toggle_scratchpad(Some("term")).unwrap_err();
    assert!(error.message().contains("no `spawn` command"), "{error:?}");
}

#[test]
fn test_unknown_scratchpad_names_the_configured_ones() {
    let niri = with_layout();
    let business = scratchpad_business(&niri);

    let error = business.toggle_scratchpad(Some("nope")).unwrap_err();
    assert!(error.message().contains("configured: term"), "{error:?}");
}

#[test]
fn test_handle_request_scratchpad() {
    let niri = with_layout();
    let business = scratchpad_business(&niri);

    match business
        .handle_request(Request::Scratchpad {
            name: Some("term".to_string()),
        })
    {
        Response::Success { message } => assert!(message.starts_with("Starting term")),
        other => panic!("expected success, got {other:?}"),
    }
}

#[test]
fn test_entry_points_do_not_deadlock() {
    let niri = with_layout();
    let business = business_with_config(&niri, SCRATCHPAD_CONFIG);

    business.add_sticky_window(1).unwrap();
    business.stage_window(1).unwrap();
    business.unstage_window(1, 1).unwrap();
    business.stage_all_windows().unwrap();
    business.unstage_all_windows(1).unwrap();
    business.toggle_active_window().unwrap();
    business
        .handle_request(Request::Stage { window_id: 1 });
    business
        .handle_request(Request::Unstage { window_id: 1 });
    business
        .handle_window_opened_or_changed(1, Some("foot".into()), None, false)
        .unwrap();
    business.handle_window_closed(1).unwrap();
    business.reconcile().unwrap();
    business.toggle_scratchpad(Some("term")).unwrap();
    business
        .handle_request(Request::Scratchpad {
            name: Some("term".to_string()),
        });
}

#[test]
fn test_reload_re_pins_tracked_windows() {
    let config_file = TempConfig::new();
    config_file.write(
        r#"
[sticky.browser]
app-id = "foot"
"#,
    );
    let niri = two_monitors();
    niri.set_window_workspace(1, 2); // DP-2
    let business = Daemon::new(
        Config::parse_document("").unwrap(),
        config_file.path(),
        niri.clone(),
        storage(),
    );
    business.reload_from_disk().unwrap();
    business
        .handle_window_opened_or_changed(1, Some("foot".into()), None, false)
        .unwrap();
    assert!(
        business.pin_of(1).is_empty(),
        "follows focus by default"
    );

    // Adding an output pin only needs a reload.
    config_file.write(
        r#"
[sticky.browser]
app-id = "foot"
output = "DP-2"
"#,
    );
    let message = business.reload_from_disk().unwrap();

    assert!(message.contains("1 window(s) re-pinned"), "{message}");
    assert_eq!(business.pin_of(1), vec!["DP-2".to_string()]);
}

#[test]
fn test_floating_rule_re_evaluated_on_reload() {
    let config_file = TempConfig::new();
    config_file.write("\n");
    let niri = two_monitors();
    let business = Daemon::new(
        Config::parse_document("").unwrap(),
        config_file.path(),
        niri.clone(),
        storage(),
    );
    business.stick(1, Vec::new());
    niri.set_window_floating(1, true);

    config_file.write(
        r#"
[sticky.pip]
floating = true
output = "DP-2"
"#,
    );
    business.reload_from_disk().unwrap();

    assert_eq!(
        business.pin_of(1),
        vec!["DP-2".to_string()],
        "the floating window picked up the new pin"
    );
}

#[test]
fn test_sticky_windows_follow_the_focused_workspace() {
    // The watcher forwards focused activations only, which this pins down.
    let niri = Rc::new(FakeNiri::with_windows(WINDOWS));
    let business = business(&niri);
    business.add_sticky_window(1).unwrap();

    business.handle_workspace_activation(5).unwrap();

    assert_eq!(niri.moved_to_id(5), vec![1]);
}

#[test]
fn test_handle_workspace_activation_moves_sticky_windows() {
    let niri = Rc::new(FakeNiri::with_windows(WINDOWS));
    let business = business(&niri);
    business.add_sticky_window(1).unwrap();
    business.add_sticky_window(2).unwrap();

    business.handle_workspace_activation(5).unwrap();

    let mut moved = niri.moved_to_id(5);
    moved.sort_unstable();
    assert_eq!(moved, vec![1, 2]);
}

#[test]
fn test_handle_workspace_activation_reports_niri_failures_gracefully() {
    let niri = Rc::new(FakeNiri::with_windows(WINDOWS));
    let business = business(&niri);
    niri.fail_queries(true);

    // A failing compositor must not turn into a hard error for the watcher.
    business.handle_workspace_activation(5).unwrap();
}

#[test]
fn test_auto_sticky_matches_config_rules() {
    let niri = Rc::new(FakeNiri::with_windows(WINDOWS));
    let business = business_with_config(
        &niri,
        r#"
[sticky.browser]
app-id = "firefox"
exclude-title = "Gmail"
"#,
    );

    business
        .handle_window_opened_or_changed(3, Some("firefox".into()), Some("Gmail".into()), false)
        .unwrap();
    assert!(!sticky(&business, 3), "excluded by title");

    business
        .handle_window_opened_or_changed(3, Some("firefox".into()), Some("Docs".into()), false)
        .unwrap();
    assert!(sticky(&business, 3));
}

#[test]
fn test_auto_stage_parks_matching_windows() {
    let niri = with_layout();
    let business = business_with_config(
        &niri,
        r#"
[stage.games]
app-id = "steam"
"#,
    );
    assert_eq!(
        business
            .logic
            .borrow()
            .config
            .match_rule(&WindowFacts {
                app_id: Some("steam"),
                title: None,
                floating: false,
            })
            .map(|matched| matched.action),
        Some(WindowAction::Stage)
    );

    business
        .handle_window_opened_or_changed(4, Some("steam".into()), Some("Game".into()), false)
        .unwrap();

    assert!(staged(&business, 4));
    assert_eq!(niri.moved_to_id(2), vec![4]);
}

#[test]
fn test_auto_stage_fires_once_so_a_restore_wins() {
    let niri = with_layout();
    let business = business_with_config(
        &niri,
        r#"
[stage.games]
app-id = "steam"
"#,
    );

    business
        .handle_window_opened_or_changed(4, Some("steam".into()), None, false)
        .unwrap();
    business.unstage_window(4, 42).unwrap();

    // The move itself produces a WindowOpenedOrChanged event.
    business
        .handle_window_opened_or_changed(4, Some("steam".into()), None, false)
        .unwrap();

    assert!(!staged(&business, 4), "restore must win");
    assert_eq!(niri.moved_to_id(2), vec![4]);
}

#[test]
fn test_auto_stage_retries_after_a_failed_move() {
    let niri = with_layout();
    let business = business_with_config(
        &niri,
        r#"
[stage.games]
app-id = "steam"
"#,
    );
    niri.fail_move(4);

    assert!(
        business
            .handle_window_opened_or_changed(4, Some("steam".into()), None, false)
            .is_err()
    );
    assert!(!staged(&business, 4));

    // The compositor accepts the move again: a later event retries.
    let niri = with_layout();
    let business = business_with_config(
        &niri,
        r#"
[stage.games]
app-id = "steam"
"#,
    );
    business
        .handle_window_opened_or_changed(4, Some("steam".into()), None, false)
        .unwrap();
    assert!(staged(&business, 4));
}

#[test]
fn test_sticky_and_stage_rules_coexist() {
    let niri = with_layout();
    let business = business_with_config(
        &niri,
        r#"
[sticky.terminals]
app-id = "foot"

[stage.games]
app-id = "steam"
"#,
    );

    business
        .handle_window_opened_or_changed(1, Some("foot".into()), Some("Terminal".into()), false)
        .unwrap();
    business
        .handle_window_opened_or_changed(4, Some("steam".into()), Some("Game".into()), false)
        .unwrap();

    assert!(sticky(&business, 1));
    assert!(!staged(&business, 1));
    assert!(staged(&business, 4));
    assert!(!sticky(&business, 4));
}

#[test]
fn test_reload_applies_new_rules_without_a_restart() {
    let config_file = TempConfig::new();
    config_file.write("\n");
    let niri = Rc::new(FakeNiri::with_windows(WINDOWS));
    let business = Daemon::new(
        Config::parse_document("").unwrap(),
        config_file.path(),
        niri.clone(),
        storage(),
    );

    // No rule yet: the window is left alone.
    business
        .handle_window_opened_or_changed(3, Some("firefox".into()), Some("Inbox".into()), false)
        .unwrap();
    assert!(!sticky(&business, 3));

    config_file.write(
        r#"
[sticky.browser]
app-id = "firefox"
"#,
    );
    business.reload_from_disk().unwrap();

    business
        .handle_window_opened_or_changed(3, Some("firefox".into()), Some("Inbox".into()), false)
        .unwrap();
    assert!(sticky(&business, 3), "the new rule applies");
}

#[test]
fn test_reload_keeps_the_running_config_when_the_file_is_broken() {
    let config_file = TempConfig::new();
    config_file.write(
        r#"
[sticky.browser]
app-id = "firefox"
"#,
    );
    let niri = Rc::new(FakeNiri::with_windows(WINDOWS));
    let business = Daemon::new(
        Config::parse_document("").unwrap(),
        config_file.path(),
        niri.clone(),
        storage(),
    );
    business.reload_from_disk().unwrap();

    config_file.write("[sticky.broken]\napp-id = \"[\"\n");
    let error = business.reload_from_disk().unwrap_err();
    assert!(
        error.render().contains("Keeping the running configuration"),
        "{error:?}"
    );

    // The previous rules still work.
    business
        .handle_window_opened_or_changed(3, Some("firefox".into()), None, false)
        .unwrap();
    assert!(sticky(&business, 3));
}

#[test]
fn test_reload_reports_the_number_of_rules() {
    let config_file = TempConfig::new();
    config_file.write(
        r#"
[sticky.a]
app-id = "a"

[stage.b]
app-id = "b"
"#,
    );
    let niri = Rc::new(FakeNiri::with_windows(WINDOWS));
    let business = Daemon::new(
        Config::parse_document("").unwrap(),
        config_file.path(),
        niri.clone(),
        storage(),
    );

    let message = business.reload_from_disk().unwrap();
    assert_eq!(
        message,
        "Reloaded configuration: 2 rule(s), 0 window(s) re-pinned"
    );
}

#[test]
fn test_floating_rule_only_sticks_floating_windows() {
    let niri = Rc::new(FakeNiri::with_windows(WINDOWS));
    let business = business_with_config(
        &niri,
        r#"
[sticky.pip]
app-id = "mpv"
floating = true
"#,
    );

    business
        .handle_window_opened_or_changed(4, Some("mpv".into()), Some("video".into()), false)
        .unwrap();
    assert!(!sticky(&business, 4), "tiled window must not match");

    business
        .handle_window_opened_or_changed(4, Some("mpv".into()), Some("video".into()), true)
        .unwrap();
    assert!(sticky(&business, 4));
}

#[test]
fn test_auto_sticky_empty_config_does_not_sticky() {
    let niri = Rc::new(FakeNiri::with_windows(WINDOWS));
    let business = business(&niri);

    business
        .handle_window_opened_or_changed(1, Some("foot".into()), None, false)
        .unwrap();

    assert!(!sticky(&business, 1));
}

#[test]
fn test_handle_window_closed_clears_both_sets() {
    let niri = with_layout();
    let business = business(&niri);
    business.add_sticky_window(1).unwrap();
    business.stage_window(1).unwrap();

    business.handle_window_closed(1).unwrap();

    assert!(!sticky(&business, 1));
    assert!(!staged(&business, 1));
}

#[test]
fn test_handle_request_all_variants_return_valid_response() {
    let niri = Rc::new(FakeNiri::with_windows(WINDOWS));
    let business = business(&niri);
    let variants = [
        Request::Add { window_id: 1 },
        Request::Remove { window_id: 1 },
        Request::List,
        Request::ToggleActive,
        Request::ToggleAppid {
            appid: "nonexistent".into(),
        },
        Request::ToggleTitle {
            title: "nonexistent".into(),
        },
        Request::StageList,
        Request::Stage { window_id: 1 },
        Request::Unstage { window_id: 1 },
        Request::StageToggleActive,
        Request::StageToggleAppid {
            appid: "nonexistent".into(),
        },
        Request::StageToggleTitle {
            title: "nonexistent".into(),
        },
        Request::StageAll,
        Request::UnstageAll,
        Request::Windows,
    ];
    for variant in variants {
        let response = business.handle_request(variant.clone());
        assert!(
            matches!(
                response,
                Response::Success { .. } | Response::Error { .. } | Response::Data { .. }
            ),
            "Expected a valid Response variant, got {response:?}"
        );
    }
}

#[test]
fn test_handle_request_list_returns_json_ids() {
    let niri = Rc::new(FakeNiri::with_windows(WINDOWS));
    let business = business(&niri);
    business.add_sticky_window(1).unwrap();

    assert_eq!(
        business.handle_request(Request::List),
        Response::data("[1]")
    );
    assert_eq!(
        business.handle_request(Request::StageList),
        Response::data("[]")
    );
}

#[test]
fn test_handle_request_windows_serializes_the_window_list() {
    let niri = Rc::new(FakeNiri::with_windows(WINDOWS));
    let business = business(&niri);

    match business.handle_request(Request::Windows) {
        Response::Data { data } => {
            let windows: Vec<Value> = serde_json::from_str(&data).unwrap();
            assert_eq!(windows.len(), WINDOWS.len());
            assert_eq!(windows[0]["id"].as_u64(), Some(1));
        }
        other => panic!("expected data, got {other:?}"),
    }
}

#[test]
fn test_handle_request_reports_compositor_failures() {
    let niri = Rc::new(FakeNiri::with_windows(WINDOWS));
    let business = business(&niri);
    niri.fail_queries(true);

    for request in [
        Request::Add { window_id: 1 },
        Request::ToggleActive,
        Request::Stage { window_id: 1 },
    ] {
        match business.handle_request(request.clone()) {
            Response::Error { message } => assert!(!message.is_empty(), "{request:?}"),
            other => panic!("expected an error for {request:?}, got {other:?}"),
        }
    }
}

#[test]
fn test_state_is_persisted_after_a_mutation_only() {
    let niri = with_layout();
    let storage = storage();
    let business = business_with_storage(&niri, "", &storage);

    // A read-only request writes nothing.
    business.handle_request(Request::List);
    assert_eq!(storage.saves(), 0);

    business.handle_request(Request::Add { window_id: 1 });
    assert_eq!(storage.saves(), 1);
    assert_eq!(
        storage.snapshot().unwrap().sticky,
        vec![StoredSticky::Id(1)]
    );

    // Repeating the same mutation changes nothing, so it is not rewritten.
    business.handle_request(Request::Add { window_id: 1 });
    assert_eq!(storage.saves(), 1);

    // A real change is written again.
    business
        .handle_request(Request::Stage { window_id: 1 });
    assert_eq!(storage.saves(), 2);
    let stored = storage.snapshot().unwrap();
    assert!(stored.sticky.is_empty());
    assert_eq!(stored.staged.len(), 1);
    assert!(stored.staged[0].was_sticky);
}

#[test]
fn test_handle_window_closed_persists_the_removal() {
    let niri = Rc::new(FakeNiri::with_windows(WINDOWS));
    let storage = storage();
    let business = business_with_storage(&niri, "", &storage);
    business.handle_request(Request::Add { window_id: 1 });

    business.handle_window_closed(1).unwrap();

    assert!(storage.snapshot().unwrap().sticky.is_empty());
}

#[test]
fn test_persist_failures_do_not_break_window_management() {
    let niri = Rc::new(FakeNiri::with_windows(WINDOWS));
    let storage = storage();
    storage.fail(true);
    let business = business_with_storage(&niri, "", &storage);

    // The command still succeeds: a read-only filesystem must not stop
    // nsticky from managing windows.
    assert_eq!(
        business.handle_request(Request::Add { window_id: 1 }),
        Response::success("Added")
    );
    assert!(sticky(&business, 1));
}

#[test]
fn test_reconcile_restores_state_and_drops_dead_windows() {
    let niri = Rc::new(FakeNiri::with_windows(WINDOWS));
    let storage = Rc::new(MemoryStorage::with_state(StoredState::new(
        vec![StoredSticky::Id(1), StoredSticky::Id(999)],
        vec![StoredStaged {
            id: 2,
            was_sticky: true,
            outputs: Vec::new(),
            size: None,
            position: None,
        }],
    )));
    let business = business_with_storage(&niri, "", &storage);

    business.reconcile().unwrap();

    assert!(sticky(&business, 1));
    assert!(!sticky(&business, 999), "window 999 is gone");
    assert!(staged(&business, 2));
    assert_eq!(
        storage.snapshot().unwrap().sticky,
        vec![StoredSticky::Id(1)]
    );
}

#[test]
fn test_reconcile_adopts_windows_sitting_on_the_stage_workspace() {
    let niri = Rc::new(FakeNiri::with_windows(WINDOWS));
    niri.set_workspaces(&[(10, "main", "DP-1"), (20, "stage", "DP-1")]);
    niri.set_window_workspace(3, 20);
    let storage = storage();
    let business = business_with_storage(&niri, "", &storage);

    business.reconcile().unwrap();

    assert!(staged(&business, 3), "adopted from the workspace");
    assert!(!staged(&business, 1));
    assert!(!sticky(&business, 3));
}

#[test]
fn test_reconcile_uses_the_configured_stage_workspace() {
    let niri = Rc::new(FakeNiri::with_windows(WINDOWS));
    niri.set_workspaces(&[(10, "main", "DP-1"), (20, "parking", "DP-1")]);
    niri.set_window_workspace(2, 20);
    let storage = storage();
    let business = business_with_storage(&niri, "stage-workspace = \"parking\"\n", &storage);

    business.reconcile().unwrap();

    assert!(staged(&business, 2));
}

#[test]
fn test_reconcile_prefers_staged_over_sticky() {
    let niri = Rc::new(FakeNiri::with_windows(WINDOWS));
    niri.set_workspaces(&[(10, "main", "DP-1"), (20, "stage", "DP-1")]);
    niri.set_window_workspace(1, 20);
    let storage = Rc::new(MemoryStorage::with_state(StoredState::new(
        vec![StoredSticky::Id(1)],
        Vec::new(),
    )));
    let business = business_with_storage(&niri, "", &storage);

    business.reconcile().unwrap();

    assert!(staged(&business, 1));
    assert!(!sticky(&business, 1), "never both at once");
}

#[test]
fn test_reconcile_drops_windows_that_left_the_stage_workspace() {
    let niri = Rc::new(FakeNiri::with_windows(WINDOWS));
    niri.set_workspaces(&[(10, "main", "DP-1"), (20, "stage", "DP-1")]);
    // Window 3 is back on the main workspace, but the store still lists it.
    niri.set_window_workspace(3, 10);
    let storage = Rc::new(MemoryStorage::with_state(StoredState::new(
        Vec::new(),
        vec![StoredStaged {
            id: 3,
            was_sticky: true,
            outputs: Vec::new(),
            size: None,
            position: None,
        }],
    )));
    let business = business_with_storage(&niri, "", &storage);

    business.reconcile().unwrap();

    assert!(
        !staged(&business, 3),
        "the compositor says it is not parked"
    );
    assert!(
        storage.snapshot().unwrap().staged.is_empty(),
        "the stale entry is dropped from storage too"
    );
}

#[test]
fn test_reconcile_recovers_was_sticky_from_the_store() {
    let niri = Rc::new(FakeNiri::with_windows(WINDOWS));
    niri.set_workspaces(&[(10, "main", "DP-1"), (20, "stage", "DP-1")]);
    niri.set_window_workspace(1, 20);
    let storage = Rc::new(MemoryStorage::with_state(StoredState::new(
        Vec::new(),
        vec![StoredStaged {
            id: 1,
            was_sticky: true,
            outputs: Vec::new(),
            size: None,
            position: None,
        }],
    )));
    let business = business_with_storage(&niri, "", &storage);

    business.reconcile().unwrap();
    business.unstage_window(1, 10).unwrap();

    assert!(sticky(&business, 1), "it was sticky before staging");
}

#[test]
fn test_reconcile_without_a_store_still_adopts_the_stage_workspace() {
    let niri = Rc::new(FakeNiri::with_windows(WINDOWS));
    niri.set_workspaces(&[(10, "main", "DP-1"), (20, "stage", "DP-1")]);
    niri.set_window_workspace(4, 20);
    let storage = storage();
    let business = business_with_storage(&niri, "", &storage);

    business.reconcile().unwrap();

    assert!(staged(&business, 4));
    assert!(
        storage.snapshot().unwrap().staged.iter().any(|s| s.id == 4),
        "the adopted window is persisted too"
    );
}

#[test]
fn test_reconcile_keeps_stored_state_when_niri_is_unavailable() {
    let niri = Rc::new(FakeNiri::with_windows(WINDOWS));
    let storage = Rc::new(MemoryStorage::with_state(StoredState::new(
        vec![StoredSticky::Id(1), StoredSticky::Id(2)],
        vec![StoredStaged {
            id: 3,
            was_sticky: true,
            outputs: Vec::new(),
            size: None,
            position: None,
        }],
    )));
    let business = business_with_storage(&niri, "", &storage);
    niri.fail_queries(true);

    business.reconcile().unwrap();

    assert!(sticky(&business, 1), "state must not be wiped");
    assert!(sticky(&business, 2));
    assert!(staged(&business, 3));
}

#[test]
fn test_reconcile_ignores_a_broken_store() {
    let niri = Rc::new(FakeNiri::with_windows(WINDOWS));
    niri.set_workspaces(&[(10, "main", "DP-1"), (20, "stage", "DP-1")]);
    niri.set_window_workspace(1, 20);
    let storage = storage();
    storage.fail(true);
    let business = business_with_storage(&niri, "", &storage);

    business.reconcile().unwrap();

    // The compositor is still the source of truth.
    assert!(staged(&business, 1));
}

#[test]
fn test_reply_maps_results_to_responses() {
    let ok = reply(Ok::<u8, Error>(2), |count| {
        format!("Toggled {count} window(s)")
    });
    assert_eq!(ok, Response::success("Toggled 2 window(s)"));

    let outcome = BatchOutcome {
        succeeded: vec![1, 2],
        failed: vec![5],
    };
    assert_eq!(
        reply(Ok::<_, Error>(outcome), |outcome| outcome
            .message("Staged", "windows")),
        Response::success("Staged 2 windows, 1 failed: 5")
    );

    let error = reply(Err::<u8, _>(Error::new("No window found")), |count| {
        format!("{count}")
    });
    assert_eq!(error, Response::error(&Error::new("No window found")));
}

#[test]
fn test_reply_json_serializes_payloads() {
    let data = reply_json(Ok(Ok("[7,9]".to_string())));
    assert_eq!(data, Response::data("[7,9]"));

    let empty = reply_json(Ok(Ok("[]".to_string())));
    assert_eq!(empty, Response::data("[]"));
}

#[test]
fn test_reply_json_turns_failures_into_errors() {
    let failed = reply_json(Err(Error::new("No window found")));
    assert_eq!(failed, Response::error(&Error::new("No window found")));

    // A payload that cannot be encoded. Nothing in the daemon produces one,
    // but a request must still be answered instead of panicking.
    match reply_json(Ok(Err("not encodable".to_string()))) {
        Response::Error { message } => assert!(
            message.starts_with("Failed to serialize response: "),
            "{message}"
        ),
        other => panic!("expected an error, got {other:?}"),
    }
}

#[test]
fn test_scratchpad_name_without_configuration_reports_it() {
    let niri = with_layout();
    let business = business(&niri);

    match business
        .handle_request(Request::Scratchpad {
            name: Some("term".to_string()),
        })
    {
        Response::Error { message } => {
            assert_eq!(message, "No [scratchpad.term] is configured")
        }
        other => panic!("expected an error, got {other:?}"),
    }
}

#[test]
fn test_scratchpad_hide_reports_a_refused_move_and_keeps_its_state() {
    let niri = with_layout();
    let storage = storage();
    let business = business_with_storage(&niri, SCRATCHPAD_CONFIG, &storage);
    niri.set_windows(&[(1, "foot", "dropdown-terminal")]);
    business.handle_request(Request::Add { window_id: 1 });
    let before = storage.snapshot().unwrap();
    assert_eq!(before.sticky.len(), 1);

    niri.fail_move(1);
    let response = business
        .handle_request(Request::Scratchpad {
            name: Some("term".to_string()),
        });

    match response {
        Response::Error { message } => {
            assert!(message.contains("refused to move"), "{message}")
        }
        other => panic!("expected an error, got {other:?}"),
    }
    assert!(!parked(&business, 1), "it stayed where it was");
    assert!(sticky(&business, 1), "and it is still sticky");
    let after = storage.snapshot().unwrap();
    assert_eq!(after.sticky, before.sticky, "the store still has it sticky");
    assert!(
        after.scratchpads.is_empty(),
        "no pad was recorded: {after:?}"
    );
}

#[test]
fn test_scratchpad_show_reports_a_refused_move_and_stays_parked() {
    let niri = with_layout();
    let storage = storage();
    let business = business_with_storage(&niri, SCRATCHPAD_CONFIG, &storage);
    niri.set_windows(&[(1, "foot", "dropdown-terminal")]);
    business
        .handle_request(Request::Scratchpad {
            name: Some("term".to_string()),
        });
    let parked_state = storage.snapshot().unwrap();
    assert_eq!(parked_state.scratchpads.len(), 1);

    niri.fail_move(1);
    let response = business
        .handle_request(Request::Scratchpad {
            name: Some("term".to_string()),
        });

    match response {
        Response::Error { message } => {
            assert!(message.contains("refused to move"), "{message}")
        }
        other => panic!("expected an error, got {other:?}"),
    }
    assert!(parked(&business, 1), "it stays parked");
    assert_eq!(
        storage.snapshot().unwrap(),
        parked_state,
        "and so does the stored state"
    );
}

#[test]
fn test_scratchpad_puts_a_sticky_window_back_on_the_sticky_list() {
    let niri = with_layout();
    let business = scratchpad_business(&niri);
    niri.set_windows(&[(1, "foot", "dropdown-terminal")]);
    business.add_sticky_window(1).unwrap();

    business.toggle_scratchpad(Some("term")).unwrap();
    assert!(!sticky(&business, 1), "not sticky while it is parked");

    let message = business.toggle_scratchpad(Some("term")).unwrap();

    assert!(message.starts_with("Shown term"), "{message}");
    assert!(sticky(&business, 1), "sticky again, as it was");
}

#[test]
fn test_scratchpad_reports_that_it_could_not_style_the_window() {
    let niri = with_layout();
    let business = scratchpad_business(&niri);
    niri.set_windows(&[(1, "foot", "dropdown-terminal")]);
    niri.set_window_floating(1, true);
    niri.set_window_geometry(1, (1100, 480), (730.0, 94.0));
    business.toggle_scratchpad(Some("term")).unwrap();

    niri.fail_next(Call::FloatWindow);
    niri.fail_next(Call::ResizeWindow);
    niri.fail_next(Call::MoveFloatingWindow);
    let (result, logs) = with_logs(&business, || business.toggle_scratchpad(Some("term")));

    assert!(
        result.unwrap().starts_with("Shown term"),
        "the window comes back even when niri refuses to style it"
    );
    assert!(!parked(&business, 1));
    for failure in [
        "injected failure for float_window",
        "injected failure for resize_window",
        "injected failure for move_floating_window",
    ] {
        assert!(reported(&logs, failure), "{failure}: {logs:?}");
    }
}

#[test]
fn test_scratchpad_corrects_the_gap_niri_leaves_when_it_places_the_window() {
    let niri = with_layout();
    let business = scratchpad_business(&niri);
    niri.set_windows(&[(1, "foot", "dropdown-terminal")]);
    niri.set_window_floating(1, true);
    niri.set_window_geometry(1, (1100, 480), (730.0, 94.0));
    business.toggle_scratchpad(Some("term")).unwrap();

    // niri placed the window 10px lower than asked, as it does when a bar
    // takes part of the working area: the second move takes that back out.
    niri.set_window_geometry(1, (1100, 480), (730.0, 104.0));
    business.toggle_scratchpad(Some("term")).unwrap();

    assert_eq!(
        niri.window_actions(),
        vec![
            "float 1".to_string(),
            "resize 1 width=1100px height=480px".to_string(),
            "move 1 730 94".to_string(),
            "move 1 730 84".to_string(),
            "focus 1".to_string(),
        ],
        "the second move takes back out the offset niri left"
    );

    // When niri refuses that correction too, the caller is still answered.
    business.toggle_scratchpad(Some("term")).unwrap();
    niri.set_window_geometry(1, (1100, 480), (730.0, 114.0));
    niri.fail_nth(Call::MoveFloatingWindow, 2);
    let (result, logs) = with_logs(&business, || business.toggle_scratchpad(Some("term")));

    assert!(result.is_ok(), "{result:?}");
    assert!(
        reported(&logs, "injected failure for move_floating_window"),
        "{logs:?}"
    );
}

#[test]
fn test_scratchpad_skips_the_correction_when_niri_reports_no_position() {
    let niri = with_layout();
    let business = scratchpad_business(&niri);
    niri.set_windows(&[(1, "foot", "dropdown-terminal")]);
    niri.set_window_floating(1, true);
    niri.set_window_geometry(1, (1100, 480), (730.0, 94.0));
    business.toggle_scratchpad(Some("term")).unwrap();

    // The window comes back tiled, so niri reports no position for it.
    niri.set_windows(&[(1, "foot", "dropdown-terminal")]);
    niri.set_window_workspace(1, 1);
    business.toggle_scratchpad(Some("term")).unwrap();

    assert_eq!(
        niri.window_actions(),
        vec![
            "float 1".to_string(),
            "resize 1 width=1100px height=480px".to_string(),
            "move 1 730 94".to_string(),
            "focus 1".to_string(),
        ],
        "the remembered position is asked for, but there is nothing to correct"
    );
}

#[test]
fn test_scratchpad_reports_a_refused_spawn_or_focus() {
    let niri = with_layout();
    let business = scratchpad_business(&niri);

    niri.fail_next(Call::Spawn);
    let error = business.toggle_scratchpad(Some("term")).unwrap_err();
    assert!(
        error.message().contains("injected failure for spawn"),
        "{error:?}"
    );

    niri.set_windows(&[(1, "foot", "dropdown-terminal")]);
    business.toggle_scratchpad(Some("term")).unwrap();
    niri.fail_next(Call::FocusWindow);
    let error = business.toggle_scratchpad(Some("term")).unwrap_err();

    assert!(
        error
            .message()
            .contains("injected failure for focus_window"),
        "{error:?}"
    );
    assert!(
        !parked(&business, 1),
        "the window is back on screen even though it could not be focused"
    );
}

#[test]
fn test_staging_reports_an_output_with_no_empty_workspace() {
    let niri = Rc::new(FakeNiri::with_windows(WINDOWS));
    // The only workspace on the output has windows on it: niri keeps no
    // empty tail to park on.
    niri.set_workspaces(&[(1, "one", "DP-1")]);
    niri.set_workspace_active(1, true);
    for id in [1, 2] {
        niri.set_window_workspace(id, 1);
    }
    let business = business(&niri);
    business.add_sticky_window(1).unwrap();

    let error = business.stage_window(1).unwrap_err();

    assert!(
        error
            .message()
            .contains("No empty workspace on DP-1 to turn into \"stage\""),
        "{error:?}"
    );
    assert!(!staged(&business, 1), "nothing was parked");
    assert!(sticky(&business, 1), "and it stays sticky");
    assert!(niri.moves().is_empty());
    assert!(niri.workspace_naming().is_empty());
}

#[test]
fn test_staging_reports_a_workspace_it_cannot_name() {
    let niri = with_layout();
    niri.set_workspaces(&[(1, "one", "DP-1"), (2, "", "DP-1")]);
    let business = business_with_config(&niri, "stage-workspace = \"parking\"\n");
    niri.fail_next(Call::NameWorkspace);

    let error = business.stage_window(1).unwrap_err();

    assert!(
        error
            .message()
            .contains("Failed to name workspace 2 as \"parking\""),
        "{error:?}"
    );
    assert_eq!(
        business.list_staged_windows(),
        Vec::<u64>::new()
    );
    assert!(
        niri.moves().is_empty(),
        "the window was not moved onto a workspace that has no name"
    );
}

#[test]
fn test_staging_survives_a_window_list_that_cannot_be_read() {
    let niri = with_layout();
    let storage = storage();
    let business = business_with_storage(&niri, "", &storage);
    niri.set_window_floating(1, true);
    niri.set_window_geometry(1, (800, 600), (10.0, 20.0));
    business.handle_request(Request::Add { window_id: 1 });

    // The second window-list call is the geometry lookup, which then fails;
    // the window is still parked, without a remembered geometry.
    niri.fail_nth(Call::Windows, 2);
    let response = business
        .handle_request(Request::Stage { window_id: 1 });

    assert!(matches!(response, Response::Success { .. }), "{response:?}");
    let stored = storage.snapshot().unwrap();
    assert_eq!(stored.staged.len(), 1, "{stored:?}");
    assert_eq!(stored.staged[0].size, None, "no geometry could be read");

    // With the compositor answering, the same window is parked with it.
    business
        .handle_request(Request::Unstage { window_id: 1 });
    business
        .handle_request(Request::Stage { window_id: 1 });

    assert_eq!(storage.snapshot().unwrap().staged[0].size, Some((800, 600)));
}

#[test]
fn test_releasing_the_stage_reports_a_refused_unname() {
    let niri = with_layout();
    let storage = storage();
    let business = business_with_storage(&niri, "", &storage);
    business
        .handle_request(Request::Stage { window_id: 1 });

    niri.fail_next(Call::UnnameWorkspace);
    let (response, logs) =
        with_logs(&business, || business.handle_request(Request::Unstage { window_id: 1 }));

    assert!(matches!(response, Response::Success { .. }), "{response:?}");
    assert!(
        reported(&logs, "injected failure for unname_workspace"),
        "{logs:?}"
    );
    assert!(
        storage.snapshot().unwrap().staged.is_empty(),
        "the window is not staged any more"
    );
}

#[test]
fn test_releasing_the_stage_is_skipped_when_the_layout_is_unreadable() {
    let niri = with_layout();
    let business = business(&niri);
    business.stage_window(1).unwrap();

    niri.fail_next(Call::Workspaces);
    let (result, logs) = with_logs(&business, || business.unstage_window(1, 1));

    assert!(result.is_ok(), "{result:?}");
    assert!(
        reported(&logs, "injected failure for workspaces"),
        "{logs:?}"
    );
    assert_eq!(
        business.list_staged_windows(),
        Vec::<u64>::new()
    );
}

#[test]
fn test_reordering_the_parking_areas_reports_a_refused_move() {
    let niri = with_layout();
    niri.set_workspaces(&[
        (1, "one", "DP-1"),
        (2, "drop", "DP-1"),
        (3, "stage", "DP-1"),
        (5, "five", "DP-1"),
        (6, "", "DP-1"),
    ]);
    niri.set_window_workspace(1, 1);
    niri.set_window_workspace(2, 2);
    niri.set_window_workspace(3, 3);
    let business = business_with_config(&niri, "scratchpad-workspace = \"drop\"\n");

    niri.fail_next(Call::MoveWorkspaceToIndex);
    let (result, logs) = with_logs(&business, || business.ensure_parking_order());

    assert!(result.is_ok(), "{result:?}");
    assert!(
        reported(&logs, "injected failure for move_workspace_to_index"),
        "{logs:?}"
    );
    assert_eq!(
        niri.workspace_naming().join("; "),
        "movews 3 6",
        "one refused move does not stop the other area from being ordered"
    );
}

#[test]
fn test_reconcile_restores_scratchpad_slots_from_the_store() {
    let niri = with_layout();
    let storage = Rc::new(MemoryStorage::default());
    {
        let business = business_with_storage(&niri, SCRATCHPAD_CONFIG, &storage);
        niri.set_windows(&[(1, "foot", "dropdown-terminal")]);
        business.toggle_scratchpad(Some("term")).unwrap();
    }

    // The compositor is down when the daemon comes back, so the file is all
    // there is to go on.
    niri.fail_queries(true);
    let business = business_with_storage(&niri, SCRATCHPAD_CONFIG, &storage);
    business.reconcile().unwrap();
    niri.fail_queries(false);

    let message = business.toggle_scratchpad(Some("term")).unwrap();

    assert_eq!(message, "Shown term (1)", "the parked window comes back");
    assert!(
        !niri
            .window_actions()
            .iter()
            .any(|action| action.starts_with("spawn")),
        "and its command is not started again: {:?}",
        niri.window_actions()
    );
}

#[test]
fn test_reconcile_without_the_compositor_or_a_store_still_answers() {
    let niri = FakeNiri::with_windows(WINDOWS);
    niri.fail_queries(true);
    let business = business(&Rc::new(niri));

    business.reconcile().unwrap();

    assert_eq!(
        business.list_staged_windows(),
        Vec::<u64>::new()
    );
}

#[test]
fn test_reconcile_keeps_stored_staging_when_windows_report_no_workspace() {
    let niri = Rc::new(FakeNiri::with_windows(WINDOWS));
    niri.set_workspaces(&[(10, "main", "DP-1"), (20, "stage", "DP-1")]);
    // No window says which workspace it is on, so the stage workspace
    // cannot be matched against them.
    let storage = Rc::new(MemoryStorage::with_state(StoredState::new(
        Vec::new(),
        vec![StoredStaged {
            id: 1,
            was_sticky: true,
            outputs: Vec::new(),
            size: None,
            position: None,
        }],
    )));
    let business = business_with_storage(&niri, "", &storage);

    business.reconcile().unwrap();

    assert_eq!(business.list_staged_windows(), vec![1]);
}

#[test]
fn test_reconcile_falls_back_to_the_store_when_the_layout_is_unreadable() {
    let niri = Rc::new(FakeNiri::with_windows(WINDOWS));
    let storage = Rc::new(MemoryStorage::with_state(StoredState::new(
        Vec::new(),
        vec![StoredStaged {
            id: 3,
            was_sticky: false,
            outputs: Vec::new(),
            size: None,
            position: None,
        }],
    )));
    let business = business_with_storage(&niri, "", &storage);
    niri.fail_next(Call::Workspaces);

    let (result, logs) = with_logs(&business, || business.reconcile());

    assert!(result.is_ok(), "{result:?}");
    assert!(
        reported(&logs, "injected failure for workspaces"),
        "{logs:?}"
    );
    assert_eq!(business.list_staged_windows(), vec![3]);
}

#[test]
fn test_reload_re_pins_windows_and_leaves_the_others_alone() {
    let config_file = TempConfig::new();
    config_file.write(
        r#"
sticky-follow = "own-output"

[sticky.terminals]
app-id = "foot"
"#,
    );
    let niri = two_monitors();
    niri.set_window_workspace(1, 2); // DP-2
    niri.set_window_workspace(2, 1); // DP-1
    let business = Daemon::new(
        Config::parse_document("").unwrap(),
        config_file.path(),
        niri.clone(),
        storage(),
    );
    for id in [1, 2] {
        business.add_sticky_window(id).unwrap();
    }
    assert_eq!(
        business.pin_of(1),
        Vec::<String>::new(),
        "no rule yet"
    );

    // A rule with no `output` gets the pin `sticky-follow` asks for.
    let message = business.reload_from_disk().unwrap();
    assert!(message.contains("2 window(s) re-pinned"), "{message}");
    assert_eq!(business.pin_of(1), vec!["DP-2".to_string()]);
    assert_eq!(business.pin_of(2), vec!["DP-1".to_string()]);

    // A tracked window that closed has no pin to re-evaluate. The window
    // that stays keeps the workspace it is on.
    niri.set_windows(&[(2, "foot", "Terminal")]);
    niri.set_window_workspace(2, 1);
    let message = business.reload_from_disk().unwrap();
    assert!(message.contains("0 window(s) re-pinned"), "{message}");

    // And a window no rule matches any more keeps the pin it had.
    config_file.write("sticky-follow = \"own-output\"\n");
    let message = business.reload_from_disk().unwrap();
    assert!(message.contains("0 window(s) re-pinned"), "{message}");
    assert_eq!(business.pin_of(2), vec!["DP-1".to_string()]);
}

#[test]
fn test_workspace_activation_stops_when_the_layout_is_unreadable() {
    let niri = two_monitors();
    let business = business(&niri);
    business.add_sticky_window(1).unwrap();

    niri.fail_next(Call::Workspaces);
    let (result, logs) = with_logs(&business, || business.handle_workspace_activation(2));

    assert!(result.is_ok(), "{result:?}");
    assert!(
        reported(&logs, "injected failure for workspaces"),
        "{logs:?}"
    );
    assert!(niri.moves().is_empty(), "nothing moves without a layout");
}

#[test]
fn test_workspace_activation_keeps_going_when_a_move_is_refused() {
    let niri = two_monitors();
    niri.set_window_workspace(1, 1); // DP-1, but pinned to DP-2
    niri.set_window_workspace(2, 1);
    let business = business_with_config(
        &niri,
        r#"
[sticky.browser]
app-id = "foot"
output = "DP-2"
"#,
    );
    for id in [1, 2] {
        business.add_sticky_window(id).unwrap();
    }

    niri.fail_move(1);
    let (result, logs) = with_logs(&business, || business.handle_workspace_activation(2));

    assert!(result.is_ok(), "{result:?}");
    assert!(reported(&logs, "refused to move window 1"), "{logs:?}");
    assert_eq!(
        niri.moved_to_id(2),
        vec![2],
        "the other window still follows"
    );
}

#[test]
fn test_toggling_by_appid_brings_staged_windows_back() {
    let niri = with_layout();
    let business = business(&niri);
    business.add_sticky_window(1).unwrap();
    business.stage_window(1).unwrap();

    let outcome = business.toggle_by_appid("foot").unwrap();

    assert_eq!(outcome.succeeded, vec![1, 2], "both terminals toggled");
    assert!(!staged(&business, 1));
    assert!(sticky(&business, 1), "it was sticky before the stage");
    assert_eq!(niri.moved_to_id(1), vec![1], "back on the active workspace");

    let outcome = business.toggle_by_appid("foot").unwrap();

    assert_eq!(outcome.succeeded, vec![1, 2]);
    assert!(!sticky(&business, 1), "the second toggle unsticks it");
}

#[test]
fn test_toggling_by_appid_reports_windows_it_could_not_move() {
    let niri = with_layout();
    let business = business(&niri);
    business.stage_window(1).unwrap();

    niri.fail_move(1);
    let outcome = business.toggle_by_appid("foot").unwrap();

    assert_eq!(outcome.failed, vec![1], "the refused window is reported");
    assert_eq!(outcome.succeeded, vec![2]);
    assert!(staged(&business, 1), "it stays on the stage");
    assert!(!sticky(&business, 1));
}

#[test]
fn test_toggling_the_stage_by_appid_and_title() {
    let niri = with_layout();
    let business = business(&niri);

    let housed = business.toggle_stage_by_appid("foot", 1).unwrap();
    assert_eq!(housed.succeeded, vec![1, 2]);
    assert!(staged(&business, 1) && staged(&business, 2));

    let restored = business.toggle_stage_by_appid("foot", 1).unwrap();
    assert_eq!(restored.succeeded, vec![1, 2]);
    assert!(!staged(&business, 1) && !staged(&business, 2));

    let by_title = business.toggle_stage_by_title("Terminal", 1).unwrap();
    assert_eq!(
        by_title.succeeded,
        vec![1, 2],
        "both terminals match the title"
    );
    assert!(staged(&business, 1));

    niri.fail_move(2);
    let partial = business.toggle_stage_by_title("Terminal", 1).unwrap();
    assert_eq!(partial.succeeded, vec![1], "only the one that moved");
    assert_eq!(partial.failed, vec![2], "the refused one is reported");
    assert!(!staged(&business, 1));
    assert!(staged(&business, 2), "it stays parked");
}

#[test]
fn test_staging_a_window_that_is_already_staged_changes_nothing() {
    let niri = with_layout();
    let business = business(&niri);
    business.stage_window(1).unwrap();
    let moves = niri.moves();

    business.stage_window(1).unwrap();

    assert!(staged(&business, 1));
    assert_eq!(niri.moves(), moves, "no second move was needed");
}

#[test]
fn test_staging_and_unstaging_reject_windows_niri_does_not_know() {
    let niri = with_layout();
    let business = business(&niri);

    for request in [
        Request::Stage { window_id: 999 },
        Request::Unstage { window_id: 999 },
    ] {
        match business.handle_request(request.clone()) {
            Response::Error { message } => {
                assert_eq!(message, "Window not found in Niri", "{request:?}")
            }
            other => panic!("expected an error for {request:?}, got {other:?}"),
        }
    }
}

#[test]
fn test_toggling_a_window_that_is_gone_reports_it() {
    let niri = with_layout();
    let business = business(&niri);
    niri.set_active_window(999);

    let error = business.toggle_active_window().unwrap_err();

    assert_eq!(error.message(), "Active window not found in Niri");
    assert!(niri.moves().is_empty());
}

#[test]
fn test_auto_sticky_does_not_take_a_staged_window_over() {
    let niri = with_layout();
    let business = business_with_config(
        &niri,
        r#"
[sticky.terminals]
app-id = "foot"
"#,
    );
    business.stage_window(1).unwrap();

    let result = business.handle_window_opened_or_changed(
        1,
        Some("foot".into()),
        Some("Terminal".into()),
        false,
    );

    result.unwrap();
    assert!(staged(&business, 1), "the rule does not unstage it");
    assert!(!sticky(&business, 1), "a window is sticky or staged");
}

#[test]
fn test_removing_and_toggling_report_what_changed() {
    let niri = Rc::new(FakeNiri::with_windows(WINDOWS));
    let business = business(&niri);
    niri.set_active_window(1);

    assert_eq!(
        business.handle_request(Request::ToggleActive),
        Response::success("Added active window to sticky")
    );
    assert_eq!(
        business.handle_request(Request::ToggleActive),
        Response::success("Removed active window from sticky")
    );

    business.handle_request(Request::Add { window_id: 2 });
    assert_eq!(
        business
            .handle_request(Request::Remove { window_id: 2 }),
        Response::success("Removed")
    );
    assert_eq!(
        business
            .handle_request(Request::Remove { window_id: 2 }),
        Response::success("Not in sticky list")
    );
}

#[test]
fn test_toggling_by_appid_and_title_reports_the_windows() {
    let niri = Rc::new(FakeNiri::with_windows(WINDOWS));
    let business = business(&niri);

    assert_eq!(
        business
            .handle_request(Request::ToggleAppid {
                appid: "foot".into()
            }),
        Response::success("Toggled 2 window(s)")
    );
    assert_eq!(
        business
            .handle_request(Request::ToggleTitle {
                title: "Gmail".into()
            }),
        Response::success("Toggled 1 window(s)")
    );
}

#[test]
fn test_stage_toggle_requests_report_their_outcome() {
    let niri = with_layout();
    let business = business(&niri);

    assert_eq!(
        business
            .handle_request(Request::StageToggleAppid {
                appid: "foot".into()
            }),
        Response::success("Toggled 2 window(s)")
    );
    assert!(staged(&business, 1) && staged(&business, 2));

    assert_eq!(
        business
            .handle_request(Request::StageToggleTitle {
                title: "Terminal".into()
            }),
        Response::success("Toggled 2 window(s)")
    );
    assert!(!staged(&business, 1) && !staged(&business, 2));
}

#[test]
fn test_stage_toggle_active_parks_and_restores_the_active_window() {
    let niri = with_layout();
    let business = business(&niri);
    niri.set_active_window(1);

    assert_eq!(
        business.handle_request(Request::StageToggleActive),
        Response::success("Staged active window")
    );
    assert!(staged(&business, 1));

    assert_eq!(
        business.handle_request(Request::StageToggleActive),
        Response::success("Unstaged active window")
    );
    assert!(!staged(&business, 1));
}

#[test]
fn test_requests_report_a_failed_workspace_lookup() {
    let niri = with_layout();
    let business = business(&niri);
    niri.set_active_window(1);

    // These need the active workspace before they can do anything.
    for request in [
        Request::Unstage { window_id: 1 },
        Request::StageToggleAppid {
            appid: "foot".into(),
        },
        Request::StageToggleTitle {
            title: "Terminal".into(),
        },
        Request::UnstageAll,
    ] {
        niri.fail_next(Call::ActiveWorkspace);
        match business.handle_request(request.clone()) {
            Response::Error { message } => {
                assert!(
                    message.contains("Failed to get active workspace ID"),
                    "{request:?}: {message}"
                )
            }
            other => panic!("expected an error for {request:?}, got {other:?}"),
        }
    }

    // A window that is already parked needs it too.
    business.stage_window(1).unwrap();
    niri.fail_next(Call::ActiveWorkspace);
    match business.handle_request(Request::StageToggleActive) {
        Response::Error { message } => {
            assert!(
                message.contains("Failed to get active workspace ID"),
                "{message}"
            )
        }
        other => panic!("expected an error, got {other:?}"),
    }

    // And the focused window is looked up first, with its own message.
    niri.fail_next(Call::ActiveWindow);
    match business.handle_request(Request::StageToggleActive) {
        Response::Error { message } => {
            assert!(message.contains("Failed to get active window"), "{message}")
        }
        other => panic!("expected an error, got {other:?}"),
    }
}

#[test]
fn test_reload_request_applies_the_file_and_reports_a_broken_one() {
    let config_file = TempConfig::new();
    config_file.write("[sticky.terminals]\napp-id = \"foot\"\n");
    let niri = Rc::new(FakeNiri::with_windows(WINDOWS));
    let business = Daemon::new(
        Config::parse_document("").unwrap(),
        config_file.path(),
        niri,
        storage(),
    );

    match business.handle_request(Request::Reload) {
        Response::Success { message } => assert!(message.contains("1 rule(s)"), "{message}"),
        other => panic!("expected success, got {other:?}"),
    }

    config_file.write("this is not toml");
    match business.handle_request(Request::Reload) {
        Response::Error { message } => assert!(
            message.contains("Keeping the running configuration"),
            "{message}"
        ),
        other => panic!("expected an error, got {other:?}"),
    }
}

#[test]
fn an_operation_asks_the_same_again_when_it_is_started_over() {
    let mut logic = BusinessLogic::new(Config::default(), CONFIG_PATH.to_string());
    let operation = Operation::Request(Request::Add { window_id: 3 });

    let first = logic.advance(&operation, Vec::new());
    let again = logic.advance(&operation, Vec::new());

    assert!(matches!(first, Step::Ask(Action::Windows)), "{first:?}");
    assert!(matches!(again, Step::Ask(Action::Windows)), "{again:?}");
    assert!(logic.state.sticky_windows.is_empty(), "nothing happens before the answer");
}

#[test]
fn a_refused_first_question_leaves_the_state_alone() {
    let mut logic = BusinessLogic::new(Config::default(), CONFIG_PATH.to_string());
    let operation = Operation::Request(Request::Add { window_id: 3 });

    let step = logic.advance(&operation, vec![Reply::Failed(Error::new("gone"))]);

    match step {
        Step::End(Ending::Answered(Answer::Response(response))) => {
            assert_eq!(response, Response::Error { message: "gone".to_string() })
        }
        other => panic!("unexpected step: {other:?}"),
    }
    assert!(logic.state.sticky_windows.is_empty());
}

#[test]
fn staging_and_unstaging_keep_the_pin() {
    let niri = two_monitors();
    niri.set_workspaces(&[(1, "one", "DP-1"), (2, "two", "DP-2"), (5, "", "DP-2")]);
    niri.set_window_workspace(1, 2);
    let business = business_with_config(&niri, "");
    business.stick(1, vec!["DP-2".to_string()]);

    business.stage_window(1).unwrap();
    assert!(staged(&business, 1));
    assert!(!sticky(&business, 1));
    business.unstage_window(1, 2).unwrap();

    assert!(sticky(&business, 1));
    assert!(!staged(&business, 1));
    assert_eq!(business.pin_of(1), vec!["DP-2".to_string()]);
}

#[test]
fn hiding_and_showing_keep_the_pin() {
    let niri = with_layout();
    niri.set_windows(&[(1, "foot", "dropdown-terminal")]);
    niri.set_window_workspace(1, 1);
    let business = scratchpad_business(&niri);
    business.stick(1, vec!["DP-1".to_string()]);

    business.toggle_scratchpad(Some("term")).unwrap();
    assert!(parked(&business, 1));
    assert!(!sticky(&business, 1));
    business.toggle_scratchpad(Some("term")).unwrap();

    assert!(!parked(&business, 1));
    assert!(sticky(&business, 1));
    assert_eq!(business.pin_of(1), vec!["DP-1".to_string()]);
}

#[test]
fn a_request_that_changes_nothing_is_not_saved_again() {
    let niri = with_layout();
    let storage = storage();
    let business = business_with_storage(&niri, "", &storage);

    business.handle_request(Request::Add { window_id: 1 });
    assert_eq!(storage.saves(), 1);
    business.handle_request(Request::Add { window_id: 1 });
    business.handle_request(Request::List);
    assert_eq!(storage.saves(), 1);

    storage.fail(true);
    business.handle_request(Request::Add { window_id: 2 });
    assert_eq!(storage.saves(), 1);
    storage.fail(false);
    business.handle_request(Request::Add { window_id: 2 });
    assert_eq!(storage.saves(), 2, "a failed save is tried again");
}

#[test]
fn a_closed_window_is_forgotten_everywhere() {
    let niri = with_layout();
    let business = business(&niri);
    business.add_sticky_window(1).unwrap();
    business.stage_window(2).unwrap();

    business.handle_window_closed(1).unwrap();
    business.handle_window_closed(2).unwrap();

    assert_eq!(business.list_sticky_windows().unwrap(), Vec::<u64>::new());
    assert_eq!(business.list_staged_windows(), Vec::<u64>::new());
}

#[test]
fn a_scratchpad_stays_parked_when_the_focused_workspace_is_unknown() {
    let niri = with_layout();
    niri.set_windows(&[(1, "foot", "dropdown-terminal")]);
    let business = scratchpad_business(&niri);
    business.stick(1, vec!["DP-1".to_string()]);
    business.toggle_scratchpad(Some("term")).unwrap();
    assert!(parked(&business, 1));

    niri.fail_next(Call::ActiveWorkspace);
    let error = business.toggle_scratchpad(Some("term")).unwrap_err();

    assert_eq!(error.message(), "Failed to get active workspace ID");
    assert!(parked(&business, 1));
    assert!(!sticky(&business, 1));
    business.toggle_scratchpad(Some("term")).unwrap();
    assert!(!parked(&business, 1));
    assert_eq!(business.pin_of(1), vec!["DP-1".to_string()]);
}

#[test]
fn a_staged_window_that_cannot_be_hidden_stays_on_the_stage() {
    let niri = with_layout();
    niri.set_windows(&[(1, "foot", "dropdown-terminal")]);
    let business = scratchpad_business(&niri);
    business.stick(1, vec!["DP-1".to_string()]);
    business.stage_window(1).unwrap();

    niri.fail_move(1);
    business.toggle_scratchpad(Some("term")).unwrap_err();

    assert!(staged(&business, 1));
    assert!(!parked(&business, 1));
    assert!(!sticky(&business, 1));
}

#[test]
fn a_sticky_window_that_finds_no_parking_workspace_stays_sticky() {
    let niri = with_layout();
    niri.set_windows(&[(1, "foot", "dropdown-terminal")]);
    niri.set_workspaces(&[(1, "one", "DP-1")]);
    niri.set_window_workspace(1, 1);
    let business = scratchpad_business(&niri);
    business.stick(1, vec!["DP-1".to_string()]);

    let error = business.toggle_scratchpad(Some("term")).unwrap_err();

    assert!(error.message().starts_with("No empty workspace on DP-1"), "{error:?}");
    assert!(sticky(&business, 1));
    assert_eq!(business.pin_of(1), vec!["DP-1".to_string()]);
    assert!(!parked(&business, 1));
}

#[test]
fn unstaging_all_keeps_the_stage_when_the_windows_are_unknown() {
    let niri = with_layout();
    let business = business(&niri);
    business.stage_window(1).unwrap();

    niri.fail_next(Call::Windows);
    business.unstage_all_windows(1).unwrap_err();

    assert_eq!(business.list_staged_windows(), vec![1]);
    assert!(!sticky(&business, 1));
}

#[test]
fn the_stage_is_given_back_when_a_toggle_takes_its_last_window() {
    let niri = with_layout();
    niri.set_windows(&[(1, "foot", "one"), (2, "foot", "two")]);
    let business = business(&niri);
    business.stage_window(1).unwrap();
    business.stage_window(2).unwrap();

    let outcome = business.toggle_by_title("one").unwrap();
    assert_eq!(outcome.succeeded, vec![1]);
    assert!(niri.workspace_naming().is_empty(), "a window is still staged");
    let outcome = business.toggle_by_appid("foot").unwrap();

    assert_eq!(outcome.succeeded, vec![1, 2]);
    assert!(!staged(&business, 2));
    assert_eq!(niri.workspace_naming(), vec!["unname 2".to_string()]);
}

#[test]
fn the_stage_is_given_back_when_its_last_window_is_toggled_by_focus() {
    let niri = with_layout();
    let business = business(&niri);
    business.stick(1, vec!["DP-1".to_string()]);
    business.stage_window(1).unwrap();
    niri.set_active_window(1);

    assert!(business.toggle_active_window().unwrap());

    assert!(sticky(&business, 1));
    assert!(!staged(&business, 1));
    assert_eq!(business.pin_of(1), vec!["DP-1".to_string()]);
    assert_eq!(niri.workspace_naming(), vec!["unname 2".to_string()]);
}

#[test]
fn a_toggle_leaves_a_stage_alone_that_was_not_in_use() {
    let niri = with_layout();
    let business = business(&niri);
    niri.set_active_window(1);

    business.toggle_active_window().unwrap();

    assert!(niri.workspace_naming().is_empty());
}

#[test]
fn a_parked_window_is_neither_sticky_nor_staged() {
    let niri = with_layout();
    niri.set_windows(&[(1, "foot", "dropdown-terminal")]);
    let business = scratchpad_business(&niri);
    business.toggle_scratchpad(Some("term")).unwrap();
    assert!(parked(&business, 1));

    assert!(!business.stick(1, Vec::new()));
    let parked_already = "Window is parked by a scratchpad, cannot add to sticky";
    assert_eq!(business.add_sticky_window(1).unwrap_err().message(), parked_already);
    niri.set_active_window(1);
    assert_eq!(business.toggle_active_window().unwrap_err().message(), parked_already);
    assert_eq!(
        business.handle_request(Request::ToggleActive),
        Response::Error { message: parked_already.to_string() }
    );
    assert_eq!(
        business.handle_request(Request::Add { window_id: 1 }),
        Response::Error { message: parked_already.to_string() }
    );
    let outcome = business.toggle_by_appid("foot").unwrap();
    assert_eq!((outcome.succeeded, outcome.failed), (vec![], vec![1]));
    assert_eq!(
        business.stage_window(1).unwrap_err().message(),
        "Window is parked by a scratchpad, cannot stage"
    );
    let outcome = business.toggle_stage_by_appid("foot", 1).unwrap();
    assert_eq!((outcome.succeeded, outcome.failed), (vec![], vec![1]));

    assert!(parked(&business, 1));
    assert!(!sticky(&business, 1));
    assert!(!staged(&business, 1));
}

#[test]
fn a_stage_rule_leaves_a_parked_window_alone() {
    let niri = with_layout();
    niri.set_windows(&[(1, "foot", "dropdown-terminal")]);
    let config = format!("{SCRATCHPAD_CONFIG}\n[stage.quiet]\napp-id = \"foot\"\n");
    let business = business_with_config(&niri, &config);
    business.toggle_scratchpad(Some("term")).unwrap();
    assert!(parked(&business, 1));

    business
        .handle_window_opened_or_changed(
            1,
            Some("foot".to_string()),
            Some("dropdown-terminal".to_string()),
            false,
        )
        .unwrap();

    assert!(parked(&business, 1));
    assert!(!staged(&business, 1));
}

#[test]
fn a_window_that_two_labels_parked_is_brought_back_by_the_first() {
    let niri = with_layout();
    niri.set_windows(&[(1, "foot", "dropdown-terminal")]);
    let business = scratchpad_business(&niri);
    business.stick(1, vec!["DP-1".to_string()]);
    business.toggle_scratchpad(Some("term")).unwrap();
    niri.set_active_window(1);

    assert_eq!(business.toggle_scratchpad(None).unwrap(), "Hidden focused (1)");
    assert!(business.logic.borrow().state.scratchpad_slots.get("term").is_some());
    assert!(business.logic.borrow().state.scratchpad_slots.get("focused").is_some());
    assert_eq!(business.toggle_scratchpad(Some("term")).unwrap(), "Shown term (1)");

    assert!(!parked(&business, 1));
    assert!(sticky(&business, 1));
    assert_eq!(business.pin_of(1), vec!["DP-1".to_string()]);
}

#[test]
fn a_window_that_two_labels_parked_is_brought_back_by_the_second() {
    let niri = with_layout();
    niri.set_windows(&[(1, "foot", "dropdown-terminal")]);
    let business = scratchpad_business(&niri);
    business.stick(1, vec!["DP-1".to_string()]);
    business.toggle_scratchpad(Some("term")).unwrap();
    niri.set_active_window(1);
    business.toggle_scratchpad(None).unwrap();
    let naming = niri.workspace_naming().len();

    assert_eq!(business.toggle_scratchpad(None).unwrap(), "Shown focused (1)");

    assert!(!parked(&business, 1));
    assert!(sticky(&business, 1), "the first label knew that it was sticky");
    assert_eq!(business.pin_of(1), vec!["DP-1".to_string()]);
    assert_eq!(niri.workspace_naming().len(), naming + 1, "the area is given back");
    assert_eq!(business.toggle_scratchpad(Some("term")).unwrap(), "Hidden term (1)");
}

#[test]
fn a_staged_window_comes_out_of_a_scratchpad_as_sticky_as_it_was() {
    let niri = with_layout();
    niri.set_windows(&[(1, "foot", "dropdown-terminal")]);
    let business = scratchpad_business(&niri);
    business.stick(1, vec!["DP-1".to_string()]);
    business.stage_window(1).unwrap();

    assert_eq!(business.toggle_scratchpad(Some("term")).unwrap(), "Hidden term (1)");
    assert!(!staged(&business, 1));
    assert_eq!(business.toggle_scratchpad(Some("term")).unwrap(), "Shown term (1)");

    assert!(sticky(&business, 1));
    assert_eq!(business.pin_of(1), vec!["DP-1".to_string()]);
    assert!(!staged(&business, 1));
    assert!(!parked(&business, 1));
    assert_eq!(niri.moves().last(), Some(&(1, 1)));
    assert_eq!(niri.window_actions().last(), Some(&"focus 1".to_string()));
}

#[test]
fn a_scratchpad_that_cannot_be_focused_is_shown_all_the_same() {
    let niri = with_layout();
    niri.set_windows(&[(1, "foot", "dropdown-terminal")]);
    let storage = storage();
    let business = business_with_storage(&niri, SCRATCHPAD_CONFIG, &storage);
    business.toggle_scratchpad(Some("term")).unwrap();
    let naming = niri.workspace_naming().len();

    niri.fail_next(Call::FocusWindow);
    business.toggle_scratchpad(Some("term")).unwrap_err();

    assert!(!parked(&business, 1));
    assert_eq!(niri.workspace_naming().len(), naming + 1, "the area is given back");
    assert!(storage.snapshot().unwrap().scratchpads.is_empty());
}

#[test]
fn staging_all_reports_each_window_once() {
    let niri = with_layout();
    let business = business(&niri);
    business.stick(1, vec!["DP-1".to_string()]);
    business.stick(2, Vec::new());
    business.stick(99, Vec::new());
    niri.fail_move(2);

    let outcome = business.stage_all_windows().unwrap();

    assert_eq!((outcome.succeeded, outcome.failed), (vec![1], vec![2]));
    assert!(staged(&business, 1) && !sticky(&business, 1));
    assert!(sticky(&business, 2) && !staged(&business, 2));
    assert!(sticky(&business, 99), "a window that is gone is not reported");
}

#[test]
fn unstaging_all_reports_each_window_once() {
    let niri = with_layout();
    let business = business(&niri);
    business.stick(1, vec!["DP-1".to_string()]);
    business.stage_window(1).unwrap();
    business.stage_window(2).unwrap();
    business.stage_window(3).unwrap();
    niri.set_windows(&[(1, "foot", "one"), (2, "foot", "two")]);
    niri.fail_move(2);

    let outcome = business.unstage_all_windows(1).unwrap();

    assert_eq!((outcome.succeeded, outcome.failed), (vec![1], vec![2]));
    assert_eq!(business.list_staged_windows(), vec![2]);
    assert_eq!(business.pin_of(1), vec!["DP-1".to_string()]);
}

#[test]
fn a_state_with_a_negative_zero_is_not_saved_again() {
    let niri = with_layout();
    niri.set_window_floating(1, true);
    niri.set_window_geometry(1, (800, 600), (0.0, 5.0));
    let storage = storage();
    let business = business_with_storage(&niri, "", &storage);
    business.handle_request(Request::Stage { window_id: 1 });
    assert_eq!(storage.saves(), 1);

    if let Some(stored) = &mut business.logic.borrow_mut().persisted {
        stored.staged[0].position = Some(position(-0.0, 5.0));
    }
    business.handle_request(Request::StageList);
    assert_eq!(storage.saves(), 1);

    if let Some(stored) = &mut business.logic.borrow_mut().persisted {
        stored.staged[0].position = Some(position(f64::NAN, 5.0));
    }
    business.handle_request(Request::StageList);
    assert_eq!(storage.saves(), 2);
}

#[test]
fn toggling_the_focused_window_twice_leaves_it_as_it_was() {
    let niri = with_layout();
    let business = business(&niri);
    niri.set_active_window(3);

    assert!(business.toggle_active_window().unwrap());
    assert!(sticky(&business, 3));
    assert!(!business.toggle_active_window().unwrap());
    assert!(!sticky(&business, 3));
}

#[test]
fn parking_areas_that_were_brought_to_the_end_stay_there() {
    let niri = with_layout();
    let business = business_with_config(
        &niri,
        "stage-workspace = \"parking\"\nscratchpad-workspace = \"drop\"\n",
    );
    niri.set_workspaces(&[
        (1, "parking", "DP-1"),
        (2, "drop", "DP-1"),
        (3, "three", "DP-1"),
        (4, "", "DP-1"),
    ]);

    business.ensure_parking_order().unwrap();
    assert_eq!(niri.workspace_naming().join("; "), "movews 2 4; movews 1 5");
    business.ensure_parking_order().unwrap();

    assert_eq!(niri.workspace_naming().len(), 2, "nothing is moved again");
}

// Events, reloads and requests as they arrive.

fn fake_niri() -> Rc<FakeNiri> {
    Rc::new(FakeNiri::with_windows(&[(1, "fake", "Fake")]))
}

/// A daemon and its configuration file.
fn daemon_with_config(niri: &Rc<FakeNiri>, toml: &str) -> (Rc<Daemon>, TempConfig) {
    let file = TempConfig::new();
    file.write(toml);
    let config = Config::parse_document(toml).unwrap();
    let business = Daemon::new(config, file.path(), niri.clone(), storage());
    (Rc::new(business), file)
}

fn sticky_ids(business: &Daemon) -> String {
    match business.handle_request(Request::List) {
        Response::Data { data } => data,
        other => panic!("expected the sticky list, got {other:?}"),
    }
}

/// Follows events as the daemon does: a failure does not end the watching.
fn watch(business: &Daemon, events: impl IntoIterator<Item = NiriEvent>) {
    for event in events {
        if let Some(operation) = operation_for(event) {
            business.operate(operation);
        }
    }
}

/// The requests that the lines below hold.
fn parse_request(line: &str) -> std::result::Result<Request, String> {
    let value: Value = serde_json::from_str(line).map_err(|e| e.to_string())?;
    match value["command"].as_str() {
        Some("add") => match value["window_id"].as_u64() {
            Some(window_id) => Ok(Request::Add { window_id }),
            None => Err("missing field `window_id`".to_string()),
        },
        Some("list") => Ok(Request::List),
        other => Err(format!("unknown command {other:?}")),
    }
}

/// The answers to raw bytes on one connection, read in chunks.
fn replies_to(request: &[u8]) -> Vec<Response> {
    let business = business(&fake_niri());
    let mut replies = Vec::new();
    let mut rest = request;
    loop {
        let mut line = BoundedLine::new();
        while !line.is_over() && !rest.is_empty() {
            let chunk = &rest[..rest.len().min(8192)];
            let used = line.feed(chunk, MAX_REQUEST_BYTES);
            rest = &rest[used..];
        }
        match incoming(&line) {
            Incoming::Close => return replies,
            Incoming::Refuse(response) => replies.push(response),
            Incoming::Request(text) => replies.push(match parse_request(&text) {
                Ok(request) => business.handle_request(request),
                Err(cause) => unreadable_request(&cause),
            }),
        }
        if line.is_exhausted() {
            return replies;
        }
    }
}

fn message_of(response: &Response) -> &str {
    match response {
        Response::Success { message } | Response::Error { message } => message,
        Response::Data { data } => data,
    }
}

#[test]
fn test_watcher_ignores_an_activation_that_did_not_take_focus() {
    let niri = fake_niri();
    let (business, _) = daemon_with_config(&niri, "");
    business.add_sticky_window(1).unwrap();

    // A workspace becomes active on its output as soon as a window lands on
    // it; following that would drag a sticky window across monitors.
    let events = [NiriEvent::WorkspaceActivated {
        id: 9,
        focused: false,
    }];
    watch(&business, events);

    assert!(niri.moves().is_empty(), "moved: {:?}", niri.moves());
}

#[test]
fn test_watcher_follows_a_focused_workspace_activation() {
    let niri = fake_niri();
    let (business, _) = daemon_with_config(&niri, "");
    business.add_sticky_window(1).unwrap();

    let events = [NiriEvent::WorkspaceActivated {
        id: 9,
        focused: true,
    }];
    watch(&business, events);

    assert_eq!(niri.moved_to_id(9), vec![1]);
}

#[test]
fn test_watcher_keeps_the_parking_areas_at_the_end() {
    let niri = Rc::new(FakeNiri::with_windows(&[
        (1, "fake", "Fake One"),
        (2, "fake", "Fake Two"),
        (3, "fake", "Fake Three"),
    ]));
    let (business, _) = daemon_with_config(
        &niri,
        "stage-workspace = \"parking\"\nscratchpad-workspace = \"drop\"\n",
    );
    // Both areas are parked, then a window on the tail pushes them up.
    niri.set_workspaces(&[
        (1, "one", "DP-1"),
        (2, "drop", "DP-1"),
        (3, "parking", "DP-1"),
        (5, "five", "DP-1"),
        (6, "", "DP-1"),
    ]);
    niri.set_window_workspace(1, 1);
    niri.set_window_workspace(2, 2);
    niri.set_window_workspace(3, 3);

    let events = [NiriEvent::WorkspacesChanged];
    watch(&business, events);

    assert_eq!(
        niri.workspace_naming().join("; "),
        "movews 2 5; movews 3 6",
        "both areas go back below every workspace the user works on"
    );
}

#[test]
fn test_watcher_forwards_window_events() {
    let niri = fake_niri();
    let (business, _) =
        daemon_with_config(&niri, "[sticky.browser]\napp-id = \"firefox\"\n");

    watch(&business, [NiriEvent::WindowOpenedOrChanged {
            id: 1,
            app_id: Some("firefox".into()),
            title: Some("Inbox".into()),
            floating: false,
        }]);
    assert_eq!(sticky_ids(&business), "[1]");

    watch(&business, [NiriEvent::WindowClosed { id: 1 }]);
    assert_eq!(sticky_ids(&business), "[]");
}

#[test]
fn test_watcher_reloads_the_configuration_when_niri_does() {
    let niri = fake_niri();
    let (business, config_path) = daemon_with_config(&niri, "");

    // The rule appears on disk while the daemon runs: niri reloading its
    // own configuration is the cue to pick it up.
    config_path.write("[sticky.browser]\napp-id = \"firefox\"\n");
    let events = [
        NiriEvent::ConfigLoaded { failed: true },
        NiriEvent::ConfigLoaded { failed: false },
    ];
    watch(&business, events);

    business
        .handle_window_opened_or_changed(1, Some("firefox".into()), None, false)
        .unwrap();
    assert_eq!(sticky_ids(&business), "[1]");
}

#[test]
fn test_watcher_survives_a_failing_compositor() {
    let niri = fake_niri();
    let (business, _) = daemon_with_config(&niri, "");
    niri.fail_queries(true);

    // Reordering the parking areas cannot succeed with the compositor gone,
    // and that must not take the watcher down with it.
    watch(&business, [NiriEvent::WorkspacesChanged]);
    assert!(niri.moves().is_empty());

    // The compositor is back: the next event is handled as usual.
    niri.fail_queries(false);
    business.add_sticky_window(1).unwrap();
    watch(&business, [NiriEvent::WorkspaceActivated {
            id: 9,
            focused: true,
        }]);

    assert_eq!(niri.moved_to_id(9), vec![1]);
}

#[test]
fn test_watcher_keeps_going_after_a_failed_auto_stage() {
    let niri = Rc::new(FakeNiri::with_windows(&[
        (1, "game", "A Game"),
        (2, "fake", "Fake"),
    ]));
    let (business, _) =
        daemon_with_config(&niri, "[stage.games]\napp-id = \"game\"\n");
    business.add_sticky_window(2).unwrap();
    niri.fail_move(1); // niri refuses to park the game

    let events = [
        NiriEvent::WindowOpenedOrChanged {
            id: 1,
            app_id: Some("game".into()),
            title: Some("A Game".into()),
            floating: false,
        },
        NiriEvent::WorkspaceActivated {
            id: 9,
            focused: true,
        },
    ];
    watch(&business, events);

    assert_eq!(
        niri.moved_to_id(9),
        vec![2],
        "the window that was not affected still followed the workspace"
    );
}

#[test]
fn test_cli_connection_says_nothing_to_a_client_that_sends_nothing() {
    assert!(replies_to(b"").is_empty());
}

#[test]
fn test_cli_connection_reports_bytes_that_are_not_a_request() {
    let requests: [&[u8]; 3] = [
        b"not json\n",
        // Invalid UTF-8: decoding must not fail the connection.
        b"\xff\xfe\x00\n",
        b"{\"command\":\"nope\"}\n",
    ];

    for request in requests {
        let replies = replies_to(request);
        assert_eq!(replies.len(), 1, "{request:?} -> {replies:?}");
        assert!(
            message_of(&replies[0]).contains("Failed to parse request"),
            "{request:?} -> {replies:?}"
        );
    }
}

#[test]
fn test_cli_connection_answers_several_requests_in_order() {
    let replies = replies_to(
        b"{\"command\":\"add\",\"window_id\":1}\n{\"command\":\"list\"}\n{\"command\":\"bogus\"}\n",
    );

    assert_eq!(replies.len(), 3, "{replies:?}");
    assert!(matches!(replies[0], Response::Success { .. }), "{replies:?}");
    assert_eq!(replies[1], Response::data("[1]"));
    assert!(
        message_of(&replies[2]).contains("Failed to parse request"),
        "{replies:?}"
    );
}

#[test]
fn test_cli_connection_keeps_going_after_an_oversized_request() {
    let mut request = b"{\"command\":\"add\",\"window_id\":".to_vec();
    request.resize(request.len() + 200_000, b'1');
    request.extend_from_slice(b"}\n{\"command\":\"list\"}\n");

    let replies = replies_to(&request);

    assert_eq!(replies.len(), 2, "{replies:?}");
    assert!(message_of(&replies[0]).contains("Request too large"), "{replies:?}");
    assert_eq!(replies[1], Response::data("[]"));
}

#[test]
fn test_cli_connection_rejects_a_request_cut_inside_a_character() {
    // 30000 three-byte characters: the limit lands mid-character, which
    // must not panic or lose the error reply.
    let mut request = "\u{20ac}".repeat(30_000).into_bytes();
    request.push(b'\n');

    let replies = replies_to(&request);

    assert_eq!(replies.len(), 1, "{replies:?}");
    assert!(message_of(&replies[0]).contains("Request too large"), "{replies:?}");
}

#[test]
fn test_reload_reports_what_it_read() {
    let (business, config_path) = daemon_with_config(&fake_niri(), "");
    config_path.write("[sticky.a]\napp-id = \"a\"\n\n[stage.b]\napp-id = \"b\"\n");

    let message = business.reload_from_disk().unwrap();

    assert!(message.contains("2 rule(s)"), "{message}");
}

#[test]
fn test_reload_keeps_the_running_configuration_when_the_file_is_broken() {
    let (business, config_path) =
        daemon_with_config(&fake_niri(), "[sticky.good]\napp-id = \"fake\"\n");
    config_path.write("[sticky.broken]\napp-id = \"[\"\n");

    let error = business.reload_from_disk().unwrap_err();

    // The daemon is still running with the configuration it had: a typo in
    // the file must not stop it from managing windows.
    assert!(
        error.render().contains("Keeping the running configuration"),
        "{error:?}"
    );
    business
        .handle_window_opened_or_changed(1, Some("fake".into()), None, false)
        .unwrap();
    assert_eq!(sticky_ids(&business), "[1]");
}

#[test]
fn a_connection_is_dropped_when_too_much_was_discarded() {
    let mut request = vec![b'1'; MAX_REQUEST_BYTES + MAX_DISCARDED_BYTES + 1];
    request.extend_from_slice(b"\n{\"command\":\"list\"}\n");

    let replies = replies_to(&request);

    assert_eq!(replies.len(), 1, "{replies:?}");
    assert_eq!(
        message_of(&replies[0]),
        "Request too large: at most 65536 bytes are accepted"
    );
}

#[test]
fn a_connection_is_kept_up_to_the_discard_limit() {
    let mut request = vec![b'1'; MAX_REQUEST_BYTES + MAX_DISCARDED_BYTES - 1];
    request.extend_from_slice(b"\n{\"command\":\"list\"}\n");

    let replies = replies_to(&request);

    assert_eq!(replies.len(), 2, "{replies:?}");
    assert_eq!(replies[1], Response::data("[]"));
}
