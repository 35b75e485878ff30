//! The compositor's JSON interface: requests, and what their replies say.
use vstd::prelude::*;
use vstd::string::*;
use crate::action::{Action, ActionModel, Reply, ReplyModel};
use crate::error::{failure, in_context, outcome, Chain, Error, Outcome};
use crate::json::{
    bool_of, items, json_document, json_member, member, number_of, object1, object2, object3,
    read_json, show_member, take_member, text_of, unsigned_of, Json, JsonModel, Message,
    MessageModel, Number,
};
use crate::lists;
use crate::niri::{Position, Size, WindowInfo, WindowModel, WorkspaceInfo, WorkspaceModel};
use crate::text;

verus! {

// Payloads.

/// Two numbers at the front of a list.
pub open spec fn pair_at(json: JsonModel, key: Seq<char>) -> Option<(Number, Number)> {
    match member(json, "layout"@) {
        None => None,
        Some(layout) => match member(layout, key) {
            None => None,
            Some(pair) => match items(pair) {
                None => None,
                Some(list) => if list.len() >= 2 {
                    match (number_of(list[0]), number_of(list[1])) {
                        (Some(a), Some(b)) => Some((a, b)),
                        _ => None,
                    }
                } else {
                    None
                },
            },
        },
    }
}

/// The window an item describes; one without an id is none.
pub open spec fn window_of() -> spec_fn(JsonModel) -> Option<WindowModel> {
    |item: JsonModel|
        match unsigned_of(member(item, "id"@)) {
            None => None,
            Some(id) => Some(
                WindowModel {
                    id,
                    app_id: text_of(member(item, "app_id"@)),
                    title: text_of(member(item, "title"@)),
                    workspace_id: unsigned_of(member(item, "workspace_id"@)),
                    floating: bool_of(member(item, "is_floating"@)) == Some(true),
                    size: match pair_at(item, "window_size"@) {
                        Some((width, height)) => Some((width.whole, height.whole)),
                        None => None,
                    },
                    position: match pair_at(item, "tile_pos_in_workspace_view"@) {
                        Some((x, y)) => Some(Position { x: x.bits, y: y.bits }),
                        None => None,
                    },
                },
            ),
        }
}

/// The lowest eight bits of a number.
pub open spec fn low_byte(n: u64) -> u8 {
    n as u8
}

/// The workspace an item describes; one without an id is none.
pub open spec fn workspace_of() -> spec_fn(JsonModel) -> Option<WorkspaceModel> {
    |item: JsonModel|
        match unsigned_of(member(item, "id"@)) {
            None => None,
            Some(id) => Some(
                WorkspaceModel {
                    id,
                    idx: match unsigned_of(member(item, "idx"@)) {
                        Some(idx) => low_byte(idx),
                        None => 0,
                    },
                    name: text_of(member(item, "name"@)),
                    output: text_of(member(item, "output"@)),
                    is_active: bool_of(member(item, "is_active"@)) == Some(true),
                },
            ),
        }
}

/// The list under a key of a payload.
pub open spec fn list_at(payload: JsonModel, key: Seq<char>) -> Option<Seq<JsonModel>> {
    match member(payload, key) {
        Some(list) => items(list),
        None => None,
    }
}

/// The windows in a payload.
pub open spec fn windows_of(payload: JsonModel) -> Outcome<Seq<WindowModel>> {
    match list_at(payload, "Windows"@) {
        Some(list) => Ok(list.filter_map(window_of())),
        None => Err(failure("Windows field not found or not an array"@)),
    }
}

/// The workspaces in a payload.
pub open spec fn workspaces_of(payload: JsonModel) -> Outcome<Seq<WorkspaceModel>> {
    match list_at(payload, "Workspaces"@) {
        Some(list) => Ok(list.filter_map(workspace_of())),
        None => Err(failure("Workspaces field not found or not an array"@)),
    }
}

/// Workspaces that are active.
pub open spec fn active() -> spec_fn(WorkspaceModel) -> bool {
    |w: WorkspaceModel| w.is_active
}

/// The first active workspace in a payload.
pub open spec fn active_workspace_in(payload: JsonModel) -> Outcome<u64> {
    match workspaces_of(payload) {
        Err(e) => Err(e),
        Ok(workspaces) => match lists::find(workspaces, active()) {
            Some(w) => Ok(w.id),
            None => Err(failure("Active workspace not found"@)),
        },
    }
}

/// The focused window in a payload.
pub open spec fn active_window_in(payload: JsonModel) -> Outcome<u64> {
    let id = match member(payload, "FocusedWindow"@) {
        Some(window) => unsigned_of(member(window, "id"@)),
        None => None,
    };
    match id {
        Some(id) => Ok(id),
        None => Err(failure("Focused window id not found"@)),
    }
}

fn number_pair(item: &Json, key: &str) -> (r: Option<(Number, Number)>)
    ensures
        r == pair_at(item.deep_view(), key@),
{
    let layout = match item.get("layout") {
        Some(layout) => layout,
        None => {
            return None;
        },
    };
    let pair = match layout.get(key) {
        Some(pair) => pair,
        None => {
            return None;
        },
    };
    let list = match pair.as_list() {
        Some(list) => list,
        None => {
            return None;
        },
    };
    if list.len() < 2 {
        return None;
    }
    assert(list.deep_view()[0] == list@[0].deep_view());
    assert(list.deep_view()[1] == list@[1].deep_view());
    match (list[0].as_number(), list[1].as_number()) {
        (Some(a), Some(b)) => Some((a, b)),
        _ => None,
    }
}

/// Size niri reports for a window (`layout.window_size`, logical pixels).
pub fn window_size(item: &Json) -> (r: Option<(i32, i32)>)
    ensures
        r == (match pair_at(item.deep_view(), "window_size"@) {
            Some((width, height)) => Some((width.whole, height.whole)),
            None => None,
        }),
{
    match number_pair(item, "window_size") {
        Some((width, height)) => Some((width.whole, height.whole)),
        None => None,
    }
}

/// Position of a window on screen (`layout.tile_pos_in_workspace_view`).
pub fn window_position(item: &Json) -> (r: Option<Position>)
    ensures
        r == (match pair_at(item.deep_view(), "tile_pos_in_workspace_view"@) {
            Some((x, y)) => Some(Position { x: x.bits, y: y.bits }),
            None => None,
        }),
{
    match number_pair(item, "tile_pos_in_workspace_view") {
        Some((x, y)) => Some(Position { x: x.bits, y: y.bits }),
        None => None,
    }
}

fn read_window(item: &Json) -> (r: Option<WindowInfo>)
    ensures
        r.deep_view() == window_of()(item.deep_view()),
{
    match item.unsigned_at("id") {
        None => None,
        Some(id) => Some(
            WindowInfo {
                id,
                app_id: item.text_at("app_id"),
                title: item.text_at("title"),
                workspace_id: item.unsigned_at("workspace_id"),
                floating: match item.bool_at("is_floating") {
                    Some(floating) => floating,
                    None => false,
                },
                size: window_size(item),
                position: window_position(item),
            },
        ),
    }
}

fn read_workspace(item: &Json) -> (r: Option<WorkspaceInfo>)
    ensures
        r.deep_view() == workspace_of()(item.deep_view()),
{
    match item.unsigned_at("id") {
        None => None,
        Some(id) => Some(
            WorkspaceInfo {
                id,
                idx: match item.unsigned_at("idx") {
                    Some(idx) => #[verifier::truncate] (idx as u8),
                    None => 0,
                },
                name: item.text_at("name"),
                output: item.text_at("output"),
                is_active: match item.bool_at("is_active") {
                    Some(is_active) => is_active,
                    None => false,
                },
            },
        ),
    }
}

fn member_list<'a>(payload: &'a Json, key: &str) -> (r: Option<&'a Vec<Json>>)
    ensures
        r.deep_view() == list_at(payload.deep_view(), key@),
{
    match payload.get(key) {
        Some(list) => list.as_list(),
        None => None,
    }
}

/// The windows in a payload. Items without an id are skipped.
pub fn parse_windows(payload: &Json) -> (r: Result<Vec<WindowInfo>, Error>)
    ensures
        outcome(r) == windows_of(payload.deep_view()),
{
    let list = match member_list(payload, "Windows") {
        Some(list) => list,
        None => {
            return Err(Error::new("Windows field not found or not an array"));
        },
    };
    let ghost all = list.deep_view();
    let mut windows: Vec<WindowInfo> = Vec::new();
    let mut i: usize = 0;
    assert(windows.deep_view() =~= all.take(0).filter_map(window_of()));
    while i < list.len()
        invariant
            i <= list@.len(),
            all == list.deep_view(),
            windows.deep_view() == all.take(i as int).filter_map(window_of()),
        decreases list.len() - i,
    {
        proof {
            all.lemma_filter_map_take_succ(window_of(), i as int);
        }
        let ghost before = windows.deep_view();
        if let Some(window) = read_window(&list[i]) {
            windows.push(window);
            assert(windows.deep_view() =~= before + seq![window.deep_view()]);
        }
        i = i + 1;
    }
    assert(all.take(i as int) =~= all);
    Ok(windows)
}

/// The workspaces in a payload. Items without an id are skipped.
pub fn parse_workspaces(payload: &Json) -> (r: Result<Vec<WorkspaceInfo>, Error>)
    ensures
        outcome(r) == workspaces_of(payload.deep_view()),
{
    let list = match member_list(payload, "Workspaces") {
        Some(list) => list,
        None => {
            return Err(Error::new("Workspaces field not found or not an array"));
        },
    };
    let ghost all = list.deep_view();
    let mut workspaces: Vec<WorkspaceInfo> = Vec::new();
    let mut i: usize = 0;
    assert(workspaces.deep_view() =~= all.take(0).filter_map(workspace_of()));
    while i < list.len()
        invariant
            i <= list@.len(),
            all == list.deep_view(),
            workspaces.deep_view() == all.take(i as int).filter_map(workspace_of()),
        decreases list.len() - i,
    {
        proof {
            all.lemma_filter_map_take_succ(workspace_of(), i as int);
        }
        let ghost before = workspaces.deep_view();
        if let Some(workspace) = read_workspace(&list[i]) {
            workspaces.push(workspace);
            assert(workspaces.deep_view() =~= before + seq![workspace.deep_view()]);
        }
        i = i + 1;
    }
    assert(all.take(i as int) =~= all);
    Ok(workspaces)
}

/// Id of the focused workspace.
pub fn active_workspace_id(payload: &Json) -> (r: Result<u64, Error>)
    ensures
        outcome(r) == active_workspace_in(payload.deep_view()),
{
    let workspaces = match parse_workspaces(payload) {
        Ok(workspaces) => workspaces,
        Err(e) => {
            return Err(e);
        },
    };
    let ghost all = workspaces.deep_view();
    let mut i: usize = 0;
    proof {
        lists::find_start(all, active());
    }
    while i < workspaces.len()
        invariant
            i <= workspaces@.len(),
            all == workspaces.deep_view(),
            outcome(Ok::<Vec<WorkspaceInfo>, Error>(workspaces)) == workspaces_of(
                payload.deep_view(),
            ),
            lists::find(all, active()) == lists::find(all.skip(i as int), active()),
        decreases workspaces.len() - i,
    {
        proof {
            lists::find_step(all, active(), i as int);
        }
        if workspaces[i].is_active {
            return Ok(workspaces[i].id);
        }
        i = i + 1;
    }
    proof {
        lists::find_step(all, active(), i as int);
    }
    Err(Error::new("Active workspace not found"))
}

/// Id of the focused window.
pub fn active_window_id(payload: &Json) -> (r: Result<u64, Error>)
    ensures
        outcome(r) == active_window_in(payload.deep_view()),
{
    let id = match payload.get("FocusedWindow") {
        Some(window) => window.unsigned_at("id"),
        None => None,
    };
    match id {
        Some(id) => Ok(id),
        None => Err(Error::new("Focused window id not found")),
    }
}

// Requests.

/// The reference to a workspace by its id.
pub open spec fn workspace_ref(id: u64) -> MessageModel {
    object1("Id"@, MessageModel::Unsigned(id))
}

/// An action the compositor is asked for.
pub open spec fn action_message(name: Seq<char>, body: MessageModel) -> MessageModel {
    object1("Action"@, object1(name, body))
}

/// A change of one dimension of a window.
pub open spec fn size_change(size: Size) -> MessageModel {
    match size {
        Size::Fixed(pixels) => object1("SetFixed"@, MessageModel::Integer(pixels)),
        Size::Percent(bits) => object1("SetProportion"@, MessageModel::Double(bits)),
    }
}

/// The requests that resize a window in one dimension.
pub open spec fn resize_messages(name: Seq<char>, id: u64, size: Option<Size>) -> Seq<
    MessageModel,
> {
    match size {
        None => Seq::empty(),
        Some(size) => seq![
            action_message(
                name,
                object2("id"@, MessageModel::Unsigned(id), "change"@, size_change(size)),
            ),
        ],
    }
}

/// The requests to the compositor that an action stands for, in order. Actions
/// that are none of its business need none.
pub open spec fn messages_for(action: ActionModel) -> Seq<MessageModel> {
    match action {
        ActionModel::Windows => seq![MessageModel::Text("Windows"@)],
        ActionModel::Workspaces => seq![MessageModel::Text("Workspaces"@)],
        ActionModel::ActiveWindow => seq![MessageModel::Text("FocusedWindow"@)],
        ActionModel::ActiveWorkspace => seq![MessageModel::Text("Workspaces"@)],
        ActionModel::MoveWindow { window_id, workspace_id } => seq![
            action_message(
                "MoveWindowToWorkspace"@,
                object3(
                    "window_id"@,
                    MessageModel::Unsigned(window_id),
                    "focus"@,
                    MessageModel::Boolean(false),
                    "reference"@,
                    workspace_ref(workspace_id),
                ),
            ),
        ],
        ActionModel::NameWorkspace { name, workspace_id } => seq![
            action_message(
                "SetWorkspaceName"@,
                object2(
                    "name"@,
                    MessageModel::Text(name),
                    "workspace"@,
                    workspace_ref(workspace_id),
                ),
            ),
        ],
        ActionModel::UnnameWorkspace { workspace_id } => seq![
            action_message(
                "UnsetWorkspaceName"@,
                object1("reference"@, workspace_ref(workspace_id)),
            ),
        ],
        ActionModel::Spawn { command } => seq![
            action_message(
                "Spawn"@,
                object1(
                    "command"@,
                    MessageModel::List(
                        command.map_values(|word: Seq<char>| MessageModel::Text(word)),
                    ),
                ),
            ),
        ],
        ActionModel::FocusWindow { window_id } => seq![
            action_message("FocusWindow"@, object1("id"@, MessageModel::Unsigned(window_id))),
        ],
        ActionModel::FloatWindow { window_id } => seq![
            action_message(
                "MoveWindowToFloating"@,
                object1("id"@, MessageModel::Unsigned(window_id)),
            ),
        ],
        ActionModel::MoveFloatingWindow { window_id, position } => seq![
            action_message(
                "MoveFloatingWindow"@,
                object3(
                    "id"@,
                    MessageModel::Unsigned(window_id),
                    "x"@,
                    object1("SetFixed"@, MessageModel::Double(position.x)),
                    "y"@,
                    object1("SetFixed"@, MessageModel::Double(position.y)),
                ),
            ),
        ],
        ActionModel::MoveWorkspaceToIndex { workspace_id, index } => seq![
            action_message(
                "MoveWorkspaceToIndex"@,
                object2(
                    "index"@,
                    MessageModel::Unsigned(index as u64),
                    "reference"@,
                    workspace_ref(workspace_id),
                ),
            ),
        ],
        ActionModel::ResizeWindow { window_id, width, height } => resize_messages(
            "SetWindowWidth"@,
            window_id,
            width,
        ) + resize_messages("SetWindowHeight"@, window_id, height),
        ActionModel::CorrectPosition { .. } | ActionModel::LoadState | ActionModel::SaveState {
            ..
        } | ActionModel::ReadConfig => Seq::empty(),
    }
}

fn reference(workspace_id: u64) -> (r: Message)
    ensures
        r.deep_view() == workspace_ref(workspace_id),
{
    Message::object1("Id", Message::Unsigned(workspace_id))
}

fn action(name: &str, body: Message) -> (r: Message)
    ensures
        r.deep_view() == action_message(name@, body.deep_view()),
{
    Message::object1("Action", Message::object1(name, body))
}

/// The request that moves a window to a workspace without focusing it.
pub fn build_move_window_action(window_id: u64, workspace_id: u64) -> (r: Message)
    ensures
        seq![r.deep_view()] == messages_for(ActionModel::MoveWindow { window_id, workspace_id }),
{
    action(
        "MoveWindowToWorkspace",
        Message::object3(
            "window_id",
            Message::Unsigned(window_id),
            "focus",
            Message::Boolean(false),
            "reference",
            reference(workspace_id),
        ),
    )
}

fn push_resize(messages: &mut Vec<Message>, name: &str, id: u64, size: Option<Size>)
    ensures
        final(messages).deep_view() == old(messages).deep_view() + resize_messages(
            name@,
            id,
            size,
        ),
{
    let ghost before = messages.deep_view();
    if let Some(size) = size {
        let change = match size {
            Size::Fixed(pixels) => Message::object1("SetFixed", Message::Integer(pixels)),
            Size::Percent(bits) => Message::object1("SetProportion", Message::Double(bits)),
        };
        let message = action(
            name,
            Message::object2("id", Message::Unsigned(id), "change", change),
        );
        messages.push(message);
        assert(messages.deep_view() =~= before + seq![message.deep_view()]);
    }
    assert(before + Seq::empty() =~= before);
}

fn word_list(words: &Vec<String>) -> (r: Message)
    ensures
        r.deep_view() == MessageModel::List(
            words.deep_view().map_values(|word: Seq<char>| MessageModel::Text(word)),
        ),
{
    let ghost f = |word: Seq<char>| MessageModel::Text(word);
    let mut list: Vec<Message> = Vec::new();
    let mut i: usize = 0;
    while i < words.len()
        invariant
            i <= words@.len(),
            f == (|word: Seq<char>| MessageModel::Text(word)),
            list.deep_view() =~= words.deep_view().take(i as int).map_values(f),
        decreases words.len() - i,
    {
        let ghost before = list.deep_view();
        list.push(Message::text(words[i].as_str()));
        assert(list.deep_view() =~= before.push(MessageModel::Text(words.deep_view()[i as int])));
        i = i + 1;
    }
    assert(words.deep_view().take(i as int) =~= words.deep_view());
    Message::list(list)
}

/// The requests to the compositor that an action stands for, in order.
pub fn messages(what: &Action) -> (r: Vec<Message>)
    ensures
        r.deep_view() == messages_for(what.deep_view()),
{
    let mut out: Vec<Message> = Vec::new();
    assert(out.deep_view() =~= Seq::<MessageModel>::empty());
    let one = match what {
        Action::Windows => Message::text("Windows"),
        Action::Workspaces => Message::text("Workspaces"),
        Action::ActiveWindow => Message::text("FocusedWindow"),
        Action::ActiveWorkspace => Message::text("Workspaces"),
        Action::MoveWindow { window_id, workspace_id } => {
            let message = build_move_window_action(*window_id, *workspace_id);
            assert(seq![message.deep_view()][0] == messages_for(what.deep_view())[0]);
            message
        },
        Action::NameWorkspace { name, workspace_id } => action(
            "SetWorkspaceName",
            Message::object2(
                "name",
                Message::text(name.as_str()),
                "workspace",
                reference(*workspace_id),
            ),
        ),
        Action::UnnameWorkspace { workspace_id } => action(
            "UnsetWorkspaceName",
            Message::object1("reference", reference(*workspace_id)),
        ),
        Action::Spawn { command } => action(
            "Spawn",
            Message::object1("command", word_list(command)),
        ),
        Action::FocusWindow { window_id } => action(
            "FocusWindow",
            Message::object1("id", Message::Unsigned(*window_id)),
        ),
        Action::FloatWindow { window_id } => action(
            "MoveWindowToFloating",
            Message::object1("id", Message::Unsigned(*window_id)),
        ),
        Action::MoveFloatingWindow { window_id, position } => action(
            "MoveFloatingWindow",
            Message::object3(
                "id",
                Message::Unsigned(*window_id),
                "x",
                Message::object1("SetFixed", Message::Double(position.x)),
                "y",
                Message::object1("SetFixed", Message::Double(position.y)),
            ),
        ),
        Action::MoveWorkspaceToIndex { workspace_id, index } => action(
            "MoveWorkspaceToIndex",
            Message::object2(
                "index",
                Message::Unsigned(*index as u64),
                "reference",
                reference(*workspace_id),
            ),
        ),
        Action::ResizeWindow { window_id, width, height } => {
            push_resize(&mut out, "SetWindowWidth", *window_id, *width);
            push_resize(&mut out, "SetWindowHeight", *window_id, *height);
            assert(out.deep_view() =~= messages_for(what.deep_view()));
            return out;
        },
        _ => {
            return out;
        },
    };
    out.push(one);
    assert(out.deep_view() =~= seq![one.deep_view()]);
    assert(messages_for(what.deep_view()) =~= seq![one.deep_view()]);
    out
}

// Replies.

/// The payload of a reply line.
pub open spec fn payload_in(response: Seq<char>) -> Outcome<JsonModel> {
    let line = text::trimmed(response);
    match json_document(line) {
        Err(message) => Err(failure(message)),
        Ok(reply) => match json_member(line, "Err"@) {
            Some(e) => Err(failure("Niri IPC error: "@ + e)),
            None => match member(reply, "Ok"@) {
                Some(payload) => Ok(payload),
                None => Err(failure("Unexpected Niri reply format: "@ + response)),
            },
        },
    }
}

/// What a payload answers to an action.
pub open spec fn answer_in(action: ActionModel, payload: JsonModel) -> ReplyModel {
    match action {
        ActionModel::Windows => match windows_of(payload) {
            Ok(windows) => ReplyModel::Windows(windows),
            Err(e) => ReplyModel::Failed(e),
        },
        ActionModel::Workspaces => match workspaces_of(payload) {
            Ok(workspaces) => ReplyModel::Workspaces(workspaces),
            Err(e) => ReplyModel::Failed(e),
        },
        ActionModel::ActiveWindow => match active_window_in(payload) {
            Ok(id) => ReplyModel::Id(id),
            Err(e) => ReplyModel::Failed(e),
        },
        ActionModel::ActiveWorkspace => match active_workspace_in(payload) {
            Ok(id) => ReplyModel::Id(id),
            Err(e) => ReplyModel::Failed(e),
        },
        _ => ReplyModel::Done,
    }
}

/// The payload of a reply line, or the compositor's error.
pub fn read_reply(response: &str) -> (r: Result<Json, Error>)
    ensures
        outcome(r) == payload_in(response@),
{
    let line = text::trim(response);
    let reply = match read_json(line) {
        Ok(reply) => reply,
        Err(message) => {
            return Err(Error::new(message.as_str()));
        },
    };
    if let Some(e) = show_member(line, "Err") {
        let mut message = "Niri IPC error: ".to_owned();
        message.append(e.as_str());
        return Err(Error::new(message.as_str()));
    }
    match take_member(reply, "Ok") {
        Some(payload) => Ok(payload),
        None => {
            let mut message = "Unexpected Niri reply format: ".to_owned();
            message.append(response);
            Err(Error::new(message.as_str()))
        },
    }
}

/// What a payload answers to an action of the compositor.
pub fn answer(what: &Action, payload: &Json) -> (r: Reply)
    ensures
        r.deep_view() == answer_in(what.deep_view(), payload.deep_view()),
{
    match what {
        Action::Windows => match parse_windows(payload) {
            Ok(windows) => Reply::Windows(windows),
            Err(e) => Reply::Failed(e),
        },
        Action::Workspaces => match parse_workspaces(payload) {
            Ok(workspaces) => Reply::Workspaces(workspaces),
            Err(e) => Reply::Failed(e),
        },
        Action::ActiveWindow => match active_window_id(payload) {
            Ok(id) => Reply::Id(id),
            Err(e) => Reply::Failed(e),
        },
        Action::ActiveWorkspace => match active_workspace_id(payload) {
            Ok(id) => Reply::Id(id),
            Err(e) => Reply::Failed(e),
        },
        _ => Reply::Done,
    }
}

// Attempts.

/// How a single attempt at request and reply went.
#[derive(Debug)]
pub enum Attempt {
    /// The compositor answered.
    Answered(Json),
    /// No reply arrived: the request may never have been applied.
    NoReply(Error),
    /// The compositor answered with an error, or the reply was unreadable: the
    /// request may well have been applied.
    Failed(Error),
}

/// [`Attempt`] as a mathematical value.
pub enum AttemptModel {
    Answered(JsonModel),
    NoReply(Chain),
    Failed(Chain),
}

impl DeepView for Attempt {
    type V = AttemptModel;

    open spec fn deep_view(&self) -> AttemptModel {
        match *self {
            Attempt::Answered(payload) => AttemptModel::Answered(payload.deep_view()),
            Attempt::NoReply(e) => AttemptModel::NoReply(e.deep_view()),
            Attempt::Failed(e) => AttemptModel::Failed(e.deep_view()),
        }
    }
}

/// How an attempt went whose request was sent: an empty response means that the
/// connection was closed.
pub open spec fn attempt_of(response: Outcome<Seq<char>>) -> AttemptModel {
    match response {
        Err(e) => AttemptModel::Failed(e),
        Ok(text) => if text.len() == 0 {
            AttemptModel::NoReply(failure("Niri closed the connection without answering"@))
        } else {
            match payload_in(text) {
                Ok(payload) => AttemptModel::Answered(payload),
                Err(e) => AttemptModel::Failed(e),
            }
        },
    }
}

/// What to do after an attempt.
#[derive(Debug)]
pub enum Next {
    /// Connect again and send the request once more.
    Retry,
    /// The request is over.
    Finish(Result<Json, Error>),
}

/// [`Next`] as a mathematical value.
pub enum NextModel {
    Retry,
    Finish(Outcome<JsonModel>),
}

impl DeepView for Next {
    type V = NextModel;

    open spec fn deep_view(&self) -> NextModel {
        match *self {
            Next::Retry => NextModel::Retry,
            Next::Finish(result) => NextModel::Finish(outcome(result)),
        }
    }
}

/// What to do after an attempt, when `unanswered` attempts before it got no
/// reply. Every action sent is an idempotent window move, so a request without
/// a reply is repeated once, on a fresh connection; a verdict of the compositor
/// is reported instead of risking a second application.
pub open spec fn next_of(unanswered: nat, attempt: AttemptModel) -> NextModel {
    match attempt {
        AttemptModel::Answered(payload) => NextModel::Finish(Ok(payload)),
        AttemptModel::Failed(e) => NextModel::Finish(Err(e)),
        AttemptModel::NoReply(e) => if unanswered == 0 {
            NextModel::Retry
        } else {
            NextModel::Finish(Err(in_context("Niri did not answer"@, e)))
        },
    }
}

impl Attempt {
    /// An attempt whose request could not be sent.
    pub fn unsent(cause: Error) -> (r: Attempt)
        ensures
            r.deep_view() == AttemptModel::NoReply(
                in_context("Failed to send the request to Niri"@, cause.deep_view()),
            ),
    {
        Attempt::NoReply(cause.context("Failed to send the request to Niri"))
    }

    /// An attempt whose request was sent; an empty response means that the
    /// connection was closed.
    pub fn received(response: Result<String, Error>) -> (r: Attempt)
        ensures
            r.deep_view() == attempt_of(outcome(response)),
    {
        match response {
            Err(e) => Attempt::Failed(e),
            Ok(text) => {
                if text.as_str().is_empty() {
                    Attempt::NoReply(Error::new("Niri closed the connection without answering"))
                } else {
                    match read_reply(text.as_str()) {
                        Ok(payload) => Attempt::Answered(payload),
                        Err(e) => Attempt::Failed(e),
                    }
                }
            },
        }
    }

    /// What to do after this attempt.
    pub fn next(self, unanswered: usize) -> (r: Next)
        ensures
            r.deep_view() == next_of(unanswered as nat, self.deep_view()),
    {
        match self {
            Attempt::Answered(payload) => Next::Finish(Ok(payload)),
            Attempt::Failed(e) => Next::Finish(Err(e)),
            Attempt::NoReply(e) => {
                if unanswered == 0 {
                    Next::Retry
                } else {
                    Next::Finish(Err(e.context("Niri did not answer")))
                }
            },
        }
    }
}

/// A request is sent at most twice: whatever happens to the second attempt ends
/// it, and only an attempt without a reply is repeated at all.
pub proof fn at_most_two_attempts(unanswered: nat, attempt: AttemptModel)
    ensures
        next_of(unanswered, attempt) is Retry ==> attempt is NoReply && unanswered == 0,
        next_of(unanswered + 1, attempt) is Finish,
{
}

/// The path of the compositor's socket, as the environment gives it.
pub fn socket_path(given: Option<String>) -> (r: Result<String, Error>)
    ensures
        outcome(r) == (match given.deep_view() {
            Some(path) => Ok(path),
            None => Err(failure("NIRI_SOCKET env var not set"@)),
        }),
{
    match given {
        Some(path) => Ok(path),
        None => Err(Error::new("NIRI_SOCKET env var not set")),
    }
}

} // verus!
