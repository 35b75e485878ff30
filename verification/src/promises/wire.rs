//! What is read of the compositor's replies and events, and what it is sent.
use vstd::prelude::*;
use super::tracking::{only_entries_count, the_last_entry_counts};
use crate::action::{ActionModel, ReplyModel};
use crate::business::operation::OperationModel;
use crate::config::FactsModel;
use crate::daemon::{
    incoming_of, line_of, line_part, operation_of, IncomingModel, LineModel, MAX_DISCARDED_BYTES,
    MAX_REQUEST_BYTES,
};
use crate::error::Chain;
use crate::json::{json_document, json_member, member, unsigned_of, JsonModel, MessageModel, Number};
use crate::lists;
use crate::niri::{Position, Size, WindowModel, WorkspaceModel};
use crate::niri::client::{
    active, active_window_in, active_workspace_in, answer_in, attempt_of, low_byte, messages_for,
    next_of, payload_in, resize_messages, size_change, window_of, windows_of, workspace_of,
    workspaces_of, AttemptModel, NextModel,
};
use crate::niri::events::{event_in, event_of, EventModel};
use crate::protocol::ResponseModel;
use crate::text;

verus! {

/// The object has this value under the key: no later member has the key again.
pub open spec fn has(json: JsonModel, key: Seq<char>, value: JsonModel) -> bool {
    json matches JsonModel::Object(entries) && exists|at: int| #[trigger]
        is_member_at(entries, key, value, at)
}

/// The member at this place has the key and the value, and no later one has the
/// key.
pub open spec fn is_member_at(
    entries: Seq<(Seq<char>, JsonModel)>,
    key: Seq<char>,
    value: JsonModel,
    at: int,
) -> bool {
    &&& 0 <= at < entries.len()
    &&& entries[at].0 == key
    &&& entries[at].1 == value
    &&& forall|j: int| at < j < entries.len() ==> (#[trigger] entries[j]).0 != key
}

/// The value has no member with the key, or is no object.
pub open spec fn lacks(json: JsonModel, key: Seq<char>) -> bool {
    json matches JsonModel::Object(entries) ==> forall|i: int|
        0 <= i < entries.len() ==> (#[trigger] entries[i]).0 != key
}

/// A member of an object is found under its key, and nothing where there is
/// none.
pub proof fn members_are_found_by_their_key(json: JsonModel, key: Seq<char>)
    ensures
        forall|value: JsonModel| #[trigger]
            has(json, key, value) ==> member(json, key) == Some(value),
        lacks(json, key) <==> member(json, key) is None,
{
    if let JsonModel::Object(entries) = json {
        only_entries_count(entries, key);
        assert forall|value: JsonModel| #[trigger] has(json, key, value) implies member(json, key)
            == Some(value) by {
            let at = choose|at: int| #[trigger] is_member_at(entries, key, value, at);
            the_last_entry_counts(entries, at);
        }
        if member(json, key) is Some {
            let i = choose|i: int| 0 <= i < entries.len() && (#[trigger] entries[i]).0 == key;
            assert(entries[i].0 == key);
        } else {
            assert forall|i: int| 0 <= i < entries.len() implies (#[trigger] entries[i]).0
                != key by {}
        }
    }
}

/// Under the key is a natural number.
pub open spec fn has_id(json: JsonModel, key: Seq<char>, id: u64) -> bool {
    exists|n: Number| #[trigger] has(json, key, JsonModel::Number(n)) && n.unsigned == Some(id)
}

proof fn ids_are_read(json: JsonModel, key: Seq<char>)
    ensures
        forall|id: u64| #[trigger]
            has_id(json, key, id) ==> unsigned_of(member(json, key)) == Some(id),
{
    members_are_found_by_their_key(json, key);
    assert forall|id: u64| #[trigger] has_id(json, key, id) implies unsigned_of(member(json, key))
        == Some(id) by {
        let n = choose|n: Number| #[trigger]
            has(json, key, JsonModel::Number(n)) && n.unsigned == Some(id);
        assert(member(json, key) == Some(JsonModel::Number(n)));
    }
}

/// A window is read with its id and with the app id, the title and the workspace
/// that the compositor gives; it floats only where that is given as true.
/// Without an id it is no window.
pub proof fn windows_are_read_as_given(item: JsonModel, id: u64, text: Seq<char>, b: bool, ws: u64)
    ensures
        lacks(item, "id"@) ==> window_of()(item) is None,
        has_id(item, "id"@, id) ==> {
            let w = window_of()(item)->0;
            &&& window_of()(item) is Some
            &&& w.id == id
            &&& has(item, "app_id"@, JsonModel::Text(text)) ==> w.app_id == Some(text)
            &&& lacks(item, "app_id"@) ==> w.app_id is None
            &&& has(item, "title"@, JsonModel::Text(text)) ==> w.title == Some(text)
            &&& lacks(item, "title"@) ==> w.title is None
            &&& has_id(item, "workspace_id"@, ws) ==> w.workspace_id == Some(ws)
            &&& lacks(item, "workspace_id"@) ==> w.workspace_id is None
            &&& has(item, "is_floating"@, JsonModel::Boolean(b)) ==> w.floating == b
            &&& lacks(item, "is_floating"@) ==> !w.floating
        },
{
    members_are_found_by_their_key(item, "id"@);
    members_are_found_by_their_key(item, "app_id"@);
    members_are_found_by_their_key(item, "title"@);
    members_are_found_by_their_key(item, "workspace_id"@);
    members_are_found_by_their_key(item, "is_floating"@);
    ids_are_read(item, "id"@);
    ids_are_read(item, "workspace_id"@);
}

/// The size of a window is read from the first two numbers of its window size,
/// width first, and its position from the first two of its place in the
/// workspace view; where there are none, neither is known.
pub proof fn geometry_is_read_as_given(
    item: JsonModel,
    id: u64,
    layout: JsonModel,
    a: Number,
    b: Number,
    rest: Seq<JsonModel>,
)
    requires
        has_id(item, "id"@, id),
    ensures
        ({
            let w = window_of()(item)->0;
            let pair = JsonModel::List(seq![JsonModel::Number(a), JsonModel::Number(b)] + rest);
            &&& has(item, "layout"@, layout) && has(layout, "window_size"@, pair) ==> w.size
                == Some((a.whole, b.whole))
            &&& has(item, "layout"@, layout) && has(layout, "tile_pos_in_workspace_view"@, pair)
                ==> w.position == Some(Position { x: a.bits, y: b.bits })
            &&& lacks(item, "layout"@) ==> w.size is None && w.position is None
            &&& has(item, "layout"@, layout) && lacks(layout, "window_size"@) ==> w.size is None
            &&& has(item, "layout"@, layout) && lacks(layout, "tile_pos_in_workspace_view"@)
                ==> w.position is None
        }),
{
    ids_are_read(item, "id"@);
    members_are_found_by_their_key(item, "layout"@);
    members_are_found_by_their_key(layout, "window_size"@);
    members_are_found_by_their_key(layout, "tile_pos_in_workspace_view"@);
    let list = seq![JsonModel::Number(a), JsonModel::Number(b)] + rest;
    assert(list[0] == JsonModel::Number(a));
    assert(list[1] == JsonModel::Number(b));
}

/// A workspace is read with its id, its index, and the name and the output that
/// the compositor gives; it is active only where that is given as true. Without
/// an id it is no workspace.
pub proof fn workspaces_are_read_as_given(
    item: JsonModel,
    id: u64,
    text: Seq<char>,
    b: bool,
    idx: u64,
)
    ensures
        lacks(item, "id"@) ==> workspace_of()(item) is None,
        has_id(item, "id"@, id) ==> {
            let w = workspace_of()(item)->0;
            &&& workspace_of()(item) is Some
            &&& w.id == id
            &&& has(item, "name"@, JsonModel::Text(text)) ==> w.name == Some(text)
            &&& lacks(item, "name"@) ==> w.name is None
            &&& has(item, "output"@, JsonModel::Text(text)) ==> w.output == Some(text)
            &&& lacks(item, "output"@) ==> w.output is None
            &&& has_id(item, "idx"@, idx) && idx <= u8::MAX ==> w.idx == idx
            &&& lacks(item, "idx"@) ==> w.idx == 0
            &&& has(item, "is_active"@, JsonModel::Boolean(b)) ==> w.is_active == b
            &&& lacks(item, "is_active"@) ==> !w.is_active
        },
{
    members_are_found_by_their_key(item, "id"@);
    members_are_found_by_their_key(item, "name"@);
    members_are_found_by_their_key(item, "output"@);
    members_are_found_by_their_key(item, "idx"@);
    members_are_found_by_their_key(item, "is_active"@);
    ids_are_read(item, "id"@);
    ids_are_read(item, "idx"@);
}

/// An index that does not fit is cut to its lowest eight bits.
pub proof fn large_indices_are_cut(n: u64)
    ensures
        low_byte(n) == n % 256,
{
    assert(n as u8 == n % 256) by (bit_vector);
}

/// Items that a reader can read.
pub open spec fn is_read<T>(f: spec_fn(JsonModel) -> Option<T>) -> spec_fn(JsonModel) -> bool {
    |item: JsonModel| f(item) is Some
}

/// What a reader makes of an item that it can read.
pub open spec fn as_read<T>(f: spec_fn(JsonModel) -> Option<T>) -> spec_fn(JsonModel) -> T {
    |item: JsonModel| f(item)->0
}

/// The windows of a reply are those of its list, in its order; items that are no
/// windows are passed over, and a reply without the list is refused. So it is
/// with the workspaces.
pub proof fn every_listed_item_is_read(payload: JsonModel, list: Seq<JsonModel>)
    ensures
        has(payload, "Windows"@, JsonModel::List(list)) ==> windows_of(payload) is Ok
            && lists::selects(
            list,
            is_read(window_of()),
            as_read(window_of()),
            windows_of(payload)->Ok_0,
        ),
        lacks(payload, "Windows"@) ==> windows_of(payload) is Err,
        has(payload, "Workspaces"@, JsonModel::List(list)) ==> workspaces_of(payload) is Ok
            && lists::selects(
            list,
            is_read(workspace_of()),
            as_read(workspace_of()),
            workspaces_of(payload)->Ok_0,
        ),
        lacks(payload, "Workspaces"@) ==> workspaces_of(payload) is Err,
{
    members_are_found_by_their_key(payload, "Windows"@);
    members_are_found_by_their_key(payload, "Workspaces"@);
    lists::filtering_selects(list, window_of(), is_read(window_of()), as_read(window_of()));
    lists::filtering_selects(
        list,
        workspace_of(),
        is_read(workspace_of()),
        as_read(workspace_of()),
    );
}

/// The focused window is the one whose id the reply gives.
pub proof fn the_focused_window_is_the_one_given(payload: JsonModel, window: JsonModel, id: u64)
    ensures
        has(payload, "FocusedWindow"@, window) && has_id(window, "id"@, id) ==> active_window_in(
            payload,
        ) == Ok::<u64, Chain>(id),
        lacks(payload, "FocusedWindow"@) ==> active_window_in(payload) is Err,
        has(payload, "FocusedWindow"@, window) && lacks(window, "id"@) ==> active_window_in(payload)
            is Err,
{
    members_are_found_by_their_key(payload, "FocusedWindow"@);
    members_are_found_by_their_key(window, "id"@);
    ids_are_read(window, "id"@);
}

/// The focused workspace is the first active one that the reply lists.
pub proof fn the_focused_workspace_is_the_first_active_one(
    payload: JsonModel,
    workspaces: Seq<WorkspaceModel>,
)
    requires
        workspaces_of(payload) == Ok::<Seq<WorkspaceModel>, Chain>(workspaces),
    ensures
        forall|i: int|
            0 <= i < workspaces.len() && (#[trigger] workspaces[i]).is_active && (forall|j: int|
                0 <= j < i ==> !(#[trigger] workspaces[j]).is_active) ==> active_workspace_in(
                payload,
            ) == Ok::<u64, Chain>(workspaces[i].id),
        (forall|i: int| 0 <= i < workspaces.len() ==> !(#[trigger] workspaces[i]).is_active)
            ==> active_workspace_in(payload) is Err,
{
    let p = active();
    let at = lists::a_search_finds_the_first(workspaces, p);
    assert forall|i: int|
        0 <= i < workspaces.len() && (#[trigger] workspaces[i]).is_active && (forall|j: int|
            0 <= j < i ==> !(#[trigger] workspaces[j]).is_active) implies active_workspace_in(
        payload,
    ) == Ok::<u64, Chain>(workspaces[i].id) by {
        assert(p(workspaces[i]));
        if at < i {
            assert(p(workspaces[at]));
        }
    }
    if lists::find(workspaces, p) is Some {
        assert(workspaces[at].is_active);
    }
}

/// A reply says `Ok` with a payload, or `Err` with a reason; the reason is
/// reported, and anything else is refused.
pub proof fn replies_are_a_payload_or_a_reason(
    response: Seq<char>,
    reply: JsonModel,
    payload: JsonModel,
    reason: Seq<char>,
)
    requires
        json_document(text::trimmed(response)) == Ok::<JsonModel, Seq<char>>(reply),
    ensures
        json_member(text::trimmed(response), "Err"@) == Some(reason) ==> payload_in(response)
            == Err::<JsonModel, Chain>(seq!["Niri IPC error: "@ + reason]),
        json_member(text::trimmed(response), "Err"@) is None && has(reply, "Ok"@, payload)
            ==> payload_in(response) == Ok::<JsonModel, Chain>(payload),
        json_member(text::trimmed(response), "Err"@) is None && lacks(reply, "Ok"@) ==> payload_in(
            response,
        ) is Err,
{
    members_are_found_by_their_key(reply, "Ok"@);
}

/// Each question gets the kind of answer that it asks for; what is to be done is
/// answered by a payload of any kind.
pub proof fn questions_get_their_kind_of_answer(
    payload: JsonModel,
    windows: Seq<WindowModel>,
    workspaces: Seq<WorkspaceModel>,
    id: u64,
    e: Chain,
)
    ensures
        windows_of(payload) == Ok::<Seq<WindowModel>, Chain>(windows) ==> answer_in(
            ActionModel::Windows,
            payload,
        ) == ReplyModel::Windows(windows),
        windows_of(payload) == Err::<Seq<WindowModel>, Chain>(e) ==> answer_in(
            ActionModel::Windows,
            payload,
        ) == ReplyModel::Failed(e),
        workspaces_of(payload) == Ok::<Seq<WorkspaceModel>, Chain>(workspaces) ==> answer_in(
            ActionModel::Workspaces,
            payload,
        ) == ReplyModel::Workspaces(workspaces),
        workspaces_of(payload) == Err::<Seq<WorkspaceModel>, Chain>(e) ==> answer_in(
            ActionModel::Workspaces,
            payload,
        ) == ReplyModel::Failed(e),
        active_window_in(payload) == Ok::<u64, Chain>(id) ==> answer_in(
            ActionModel::ActiveWindow,
            payload,
        ) == ReplyModel::Id(id),
        active_window_in(payload) == Err::<u64, Chain>(e) ==> answer_in(
            ActionModel::ActiveWindow,
            payload,
        ) == ReplyModel::Failed(e),
        active_workspace_in(payload) == Ok::<u64, Chain>(id) ==> answer_in(
            ActionModel::ActiveWorkspace,
            payload,
        ) == ReplyModel::Id(id),
        active_workspace_in(payload) == Err::<u64, Chain>(e) ==> answer_in(
            ActionModel::ActiveWorkspace,
            payload,
        ) == ReplyModel::Failed(e),
        forall|window_id: u64, workspace_id: u64|
            answer_in(
                #[trigger] moving(window_id, workspace_id),
                payload,
            ) == ReplyModel::Done,
{
}

/// The question that moves a window.
pub open spec fn moving(window_id: u64, workspace_id: u64) -> ActionModel {
    ActionModel::MoveWindow { window_id, workspace_id }
}

// What is sent.

/// The message that asks for this action, with these arguments.
pub open spec fn asks_for(
    message: MessageModel,
    name: Seq<char>,
    arguments: Seq<(Seq<char>, MessageModel)>,
) -> bool {
    message == MessageModel::Object(
        seq![
            (
                "Action"@,
                MessageModel::Object(seq![(name, MessageModel::Object(arguments))]),
            ),
        ],
    )
}

/// The workspace with this id, as the compositor is told it.
pub open spec fn by_id(id: u64) -> MessageModel {
    MessageModel::Object(seq![("Id"@, MessageModel::Unsigned(id))])
}

/// Every question about windows and workspaces is one message.
pub proof fn questions_are_one_word()
    ensures
        messages_for(ActionModel::Windows) == seq![MessageModel::Text("Windows"@)],
        messages_for(ActionModel::Workspaces) == seq![MessageModel::Text("Workspaces"@)],
        messages_for(ActionModel::ActiveWindow) == seq![MessageModel::Text("FocusedWindow"@)],
        messages_for(ActionModel::ActiveWorkspace) == seq![MessageModel::Text("Workspaces"@)],
{
}

/// A window is moved to the workspace with the id, and the focus stays where it
/// is.
pub proof fn moving_keeps_the_focus(window_id: u64, workspace_id: u64)
    ensures
        ({
            let sent = messages_for(ActionModel::MoveWindow { window_id, workspace_id });
            &&& sent.len() == 1
            &&& asks_for(
                sent[0],
                "MoveWindowToWorkspace"@,
                seq![
                    ("window_id"@, MessageModel::Unsigned(window_id)),
                    ("focus"@, MessageModel::Boolean(false)),
                    ("reference"@, by_id(workspace_id)),
                ],
            )
        }),
{
}

/// A workspace is named, loses its name and moves by its id.
pub proof fn workspaces_are_told_by_id(workspace_id: u64, name: Seq<char>, index: usize)
    ensures
        ({
            let sent = messages_for(ActionModel::NameWorkspace { name, workspace_id });
            &&& sent.len() == 1
            &&& asks_for(
                sent[0],
                "SetWorkspaceName"@,
                seq![("name"@, MessageModel::Text(name)), ("workspace"@, by_id(workspace_id))],
            )
        }),
        ({
            let sent = messages_for(ActionModel::UnnameWorkspace { workspace_id });
            &&& sent.len() == 1
            &&& asks_for(sent[0], "UnsetWorkspaceName"@, seq![("reference"@, by_id(workspace_id))])
        }),
        ({
            let sent = messages_for(ActionModel::MoveWorkspaceToIndex { workspace_id, index });
            &&& sent.len() == 1
            &&& asks_for(
                sent[0],
                "MoveWorkspaceToIndex"@,
                seq![
                    ("index"@, MessageModel::Unsigned(index as u64)),
                    ("reference"@, by_id(workspace_id)),
                ],
            )
        }),
{
}

/// A window gets the focus, floats and moves by its id, and moves to both
/// coordinates at once.
pub proof fn windows_are_told_by_id(window_id: u64, position: Position)
    ensures
        ({
            let sent = messages_for(ActionModel::FocusWindow { window_id });
            &&& sent.len() == 1
            &&& asks_for(sent[0], "FocusWindow"@, seq![("id"@, MessageModel::Unsigned(window_id))])
        }),
        ({
            let sent = messages_for(ActionModel::FloatWindow { window_id });
            &&& sent.len() == 1
            &&& asks_for(
                sent[0],
                "MoveWindowToFloating"@,
                seq![("id"@, MessageModel::Unsigned(window_id))],
            )
        }),
        ({
            let sent = messages_for(ActionModel::MoveFloatingWindow { window_id, position });
            &&& sent.len() == 1
            &&& asks_for(
                sent[0],
                "MoveFloatingWindow"@,
                seq![
                    ("id"@, MessageModel::Unsigned(window_id)),
                    (
                        "x"@,
                        MessageModel::Object(
                            seq![("SetFixed"@, MessageModel::Double(position.x))],
                        ),
                    ),
                    (
                        "y"@,
                        MessageModel::Object(
                            seq![("SetFixed"@, MessageModel::Double(position.y))],
                        ),
                    ),
                ],
            )
        }),
{
}

/// A command is sent word by word.
pub proof fn commands_are_sent_word_by_word(command: Seq<Seq<char>>)
    ensures
        ({
            let sent = messages_for(ActionModel::Spawn { command });
            &&& sent.len() == 1
            &&& asks_for(
                sent[0],
                "Spawn"@,
                seq![
                    (
                        "command"@,
                        MessageModel::List(
                            Seq::new(command.len(), |i: int| MessageModel::Text(command[i])),
                        ),
                    ),
                ],
            )
        }),
{
    assert(command.map_values(|word: Seq<char>| MessageModel::Text(word)) =~= Seq::new(
        command.len(),
        |i: int| MessageModel::Text(command[i]),
    ));
}

/// The change to a size, in pixels or as a share of the working area.
pub open spec fn change_to(size: Size) -> MessageModel {
    match size {
        Size::Fixed(pixels) => MessageModel::Object(
            seq![("SetFixed"@, MessageModel::Integer(pixels))],
        ),
        Size::Percent(bits) => MessageModel::Object(
            seq![("SetProportion"@, MessageModel::Double(bits))],
        ),
    }
}

/// The message sets one measure of the window to the size.
pub open spec fn sets(message: MessageModel, name: Seq<char>, id: u64, size: Size) -> bool {
    asks_for(
        message,
        name,
        seq![
            ("id"@, MessageModel::Unsigned(id)),
            ("change"@, change_to(size)),
        ],
    )
}

/// A window is resized by one message for each measure that is given, the width
/// first; a measure that is not given is not touched.
pub proof fn each_measure_is_set_on_its_own(
    window_id: u64,
    width: Option<Size>,
    height: Option<Size>,
)
    ensures
        ({
            let sent = messages_for(ActionModel::ResizeWindow { window_id, width, height });
            match (width, height) {
                (None, None) => sent.len() == 0,
                (Some(w), None) => sent.len() == 1 && sets(
                    sent[0],
                    "SetWindowWidth"@,
                    window_id,
                    w,
                ),
                (None, Some(h)) => sent.len() == 1 && sets(
                    sent[0],
                    "SetWindowHeight"@,
                    window_id,
                    h,
                ),
                (Some(w), Some(h)) => sent.len() == 2 && sets(
                    sent[0],
                    "SetWindowWidth"@,
                    window_id,
                    w,
                ) && sets(sent[1], "SetWindowHeight"@, window_id, h),
            }
        }),
{
    let sent = messages_for(ActionModel::ResizeWindow { window_id, width, height });
    let first = resize_messages("SetWindowWidth"@, window_id, width);
    let second = resize_messages("SetWindowHeight"@, window_id, height);
    assert(sent == first + second);
    if let Some(w) = width {
        assert(first.len() == 1);
        assert(sent[0] == first[0]);
        assert(change_to(w) == size_change(w));
    }
    if let Some(h) = height {
        assert(second.len() == 1);
        assert(sent[first.len() as int] == second[0]);
        assert(change_to(h) == size_change(h));
    }
}

/// A request that got no reply is sent once more, and once only; one that was
/// answered, or whose reply could not be read, is over.
pub proof fn only_silence_is_asked_again(
    unanswered: nat,
    payload: JsonModel,
    e: Chain,
    response: Seq<char>,
)
    ensures
        next_of(unanswered, AttemptModel::Answered(payload)) == NextModel::Finish(Ok(payload)),
        next_of(unanswered, AttemptModel::Failed(e)) == NextModel::Finish(Err(e)),
        next_of(0, AttemptModel::NoReply(e)) is Retry,
        unanswered > 0 ==> next_of(unanswered, AttemptModel::NoReply(e)) == NextModel::Finish(
            Err(seq!["Niri did not answer"@] + e),
        ),
        attempt_of(Err(e)) == AttemptModel::Failed(e),
        response.len() == 0 ==> attempt_of(Ok(response)) is NoReply,
        response.len() > 0 && payload_in(response) == Ok::<JsonModel, Chain>(payload) ==> attempt_of(
            Ok(response),
        ) == AttemptModel::Answered(payload),
        response.len() > 0 && payload_in(response) == Err::<JsonModel, Chain>(e) ==> attempt_of(
            Ok(response),
        ) == AttemptModel::Failed(e),
{
}

// Events.

/// A workspace that became active is told by its id; it counts as focused unless
/// the compositor says that it is not.
pub proof fn activations_are_read(value: JsonModel, payload: JsonModel, id: u64, b: bool)
    requires
        has(value, "WorkspaceActivated"@, payload),
    ensures
        lacks(payload, "id"@) ==> event_of(value) is None,
        has_id(payload, "id"@, id) && has(payload, "focused"@, JsonModel::Boolean(b)) ==> event_of(
            value,
        ) == Some(EventModel::WorkspaceActivated { id, focused: b }),
        has_id(payload, "id"@, id) && lacks(payload, "focused"@) ==> event_of(value) == Some(
            EventModel::WorkspaceActivated { id, focused: true },
        ),
{
    members_are_found_by_their_key(value, "WorkspaceActivated"@);
    members_are_found_by_their_key(payload, "id"@);
    members_are_found_by_their_key(payload, "focused"@);
    ids_are_read(payload, "id"@);
}

/// A window that opened or changed is told by its id, with the app id, the title
/// and the floating state that the compositor gives.
pub proof fn changes_are_read(
    value: JsonModel,
    payload: JsonModel,
    window: JsonModel,
    id: u64,
    text: Seq<char>,
    b: bool,
)
    requires
        lacks(value, "WorkspaceActivated"@),
        has(value, "WindowOpenedOrChanged"@, payload),
    ensures
        lacks(payload, "window"@) ==> event_of(value) is None,
        has(payload, "window"@, window) && lacks(window, "id"@) ==> event_of(value) is None,
        has(payload, "window"@, window) && has_id(window, "id"@, id) ==> (event_of(value) matches
            Some(EventModel::WindowOpenedOrChanged { id: told, app_id, title, floating }) && {
            &&& told == id
            &&& has(window, "app_id"@, JsonModel::Text(text)) ==> app_id == Some(text)
            &&& lacks(window, "app_id"@) ==> app_id is None
            &&& has(window, "title"@, JsonModel::Text(text)) ==> title == Some(text)
            &&& lacks(window, "title"@) ==> title is None
            &&& has(window, "is_floating"@, JsonModel::Boolean(b)) ==> floating == b
            &&& lacks(window, "is_floating"@) ==> !floating
        }),
{
    members_are_found_by_their_key(value, "WorkspaceActivated"@);
    members_are_found_by_their_key(value, "WindowOpenedOrChanged"@);
    members_are_found_by_their_key(payload, "window"@);
    members_are_found_by_their_key(window, "id"@);
    members_are_found_by_their_key(window, "app_id"@);
    members_are_found_by_their_key(window, "title"@);
    members_are_found_by_their_key(window, "is_floating"@);
    ids_are_read(window, "id"@);
}

/// A window that closed is told by its id, a loaded configuration by whether it
/// failed, and changed workspaces by nothing else; what is none of these is no
/// event.
pub proof fn other_events_are_read(value: JsonModel, payload: JsonModel, id: u64, b: bool)
    requires
        lacks(value, "WorkspaceActivated"@),
        lacks(value, "WindowOpenedOrChanged"@),
    ensures
        has(value, "WorkspacesChanged"@, payload) ==> event_of(value) == Some(
            EventModel::WorkspacesChanged,
        ),
        lacks(value, "WorkspacesChanged"@) && has(value, "ConfigLoaded"@, payload) ==> {
            &&& has(payload, "failed"@, JsonModel::Boolean(b)) ==> event_of(value) == Some(
                EventModel::ConfigLoaded { failed: b },
            )
            &&& lacks(payload, "failed"@) ==> event_of(value) == Some(
                EventModel::ConfigLoaded { failed: false },
            )
        },
        lacks(value, "WorkspacesChanged"@) && lacks(value, "ConfigLoaded"@) && has(
            value,
            "WindowClosed"@,
            payload,
        ) ==> {
            &&& has_id(payload, "id"@, id) ==> event_of(value) == Some(
                EventModel::WindowClosed { id },
            )
            &&& lacks(payload, "id"@) ==> event_of(value) is None
        },
        lacks(value, "WorkspacesChanged"@) && lacks(value, "ConfigLoaded"@) && lacks(
            value,
            "WindowClosed"@,
        ) ==> event_of(value) is None,
{
    members_are_found_by_their_key(value, "WorkspaceActivated"@);
    members_are_found_by_their_key(value, "WindowOpenedOrChanged"@);
    members_are_found_by_their_key(value, "WorkspacesChanged"@);
    members_are_found_by_their_key(value, "ConfigLoaded"@);
    members_are_found_by_their_key(value, "WindowClosed"@);
    members_are_found_by_their_key(payload, "failed"@);
    members_are_found_by_their_key(payload, "id"@);
    ids_are_read(payload, "id"@);
}

/// A line of the stream holds the event that its document describes; a blank
/// line and one that is no document hold none.
pub proof fn lines_hold_the_event_they_describe(
    line: Seq<char>,
    value: JsonModel,
    message: Seq<char>,
)
    ensures
        text::trimmed(line).len() > 0 && json_document(text::trimmed(line)) == Ok::<
            JsonModel,
            Seq<char>,
        >(value) ==> event_in(line) == event_of(value),
        json_document(text::trimmed(line)) == Err::<JsonModel, Seq<char>>(message) ==> event_in(
            line,
        ) is None,
        (forall|i: int| 0 <= i < line.len() ==> text::white(#[trigger] line[i])) ==> event_in(line)
            is None,
{
    super::texts::trimming_takes_white_space_off_both_ends(line);
}

/// The focus moving to a workspace lets sticky windows follow, and a workspace
/// that becomes active without it does not. A window that opened or changed has
/// the rules applied to what is told of it, one that closed is forgotten,
/// changed workspaces put the parking areas back, and a configuration that the
/// compositor loaded, failed or not, has this one read again.
pub proof fn events_are_followed_up(
    id: u64,
    app_id: Option<Seq<char>>,
    title: Option<Seq<char>>,
    b: bool,
)
    ensures
        operation_of(EventModel::WorkspaceActivated { id, focused: true }) == Some(
            OperationModel::WorkspaceActivated { id },
        ),
        operation_of(EventModel::WorkspaceActivated { id, focused: false }) is None,
        operation_of(EventModel::WindowOpenedOrChanged { id, app_id, title, floating: b }) == Some(
            OperationModel::WindowOpenedOrChanged {
                id,
                facts: FactsModel { app_id, title, floating: b },
            },
        ),
        operation_of(EventModel::WindowClosed { id }) == Some(OperationModel::WindowClosed { id }),
        operation_of(EventModel::WorkspacesChanged) == Some(OperationModel::ParkingOrder),
        operation_of(EventModel::ConfigLoaded { failed: b }) == Some(OperationModel::Reload),
{
}

// Lines of a client.

/// Of what a client sends, the bytes up to the first line feed belong to the
/// line, and that with them; without one, all of them do.
pub proof fn a_line_is_read_up_to_its_line_feed(front: Seq<u8>, rest: Seq<u8>)
    requires
        forall|i: int| 0 <= i < front.len() ==> #[trigger] front[i] != 10,
    ensures
        line_part(front + seq![10u8] + rest) == front + seq![10u8],
        line_part(front) == front,
    decreases front.len(),
{
    let all = front + seq![10u8] + rest;
    if front.len() == 0 {
        assert(all[0] == 10);
        assert(line_part(all) =~= front + seq![10u8]);
    } else {
        let less = front.drop_first();
        assert forall|i: int| 0 <= i < less.len() implies #[trigger] less[i] != 10 by {
            assert(less[i] == front[i + 1]);
        }
        a_line_is_read_up_to_its_line_feed(less, rest);
        assert(all[0] == front[0]);
        assert(all.drop_first() =~= less + seq![10u8] + rest);
        assert(line_part(all) =~= front + seq![10u8]);
        assert(line_part(front) =~= front);
    }
}

/// Of a line, the first bytes are kept, as many as are allowed; the others are
/// counted. It is over at its line feed, or when more than can be discarded came
/// behind what is kept.
pub proof fn a_long_line_is_cut(read: Seq<u8>, max: int)
    requires
        max >= 0,
    ensures
        ({
            let line = line_of(read, max);
            &&& read.len() <= max ==> line.kept == read && line.discarded == 0
            &&& read.len() > max ==> line.kept == read.take(max) && line.discarded > 0
            &&& max < read.len() <= max + MAX_DISCARDED_BYTES ==> line.discarded == read.len() - max
            &&& read.len() > max + MAX_DISCARDED_BYTES ==> line.ended && line.discarded
                > MAX_DISCARDED_BYTES
            &&& (exists|i: int| 0 <= i < read.len() && #[trigger] read[i] == 10) ==> line.ended
            &&& read.len() <= max + MAX_DISCARDED_BYTES && (forall|i: int|
                0 <= i < read.len() ==> #[trigger] read[i] != 10) ==> !line.ended
        }),
        MAX_REQUEST_BYTES == 64 * 1024,
        MAX_DISCARDED_BYTES == 1024 * 1024,
{
    if read.len() <= max {
        assert(read.take(read.len() as int) =~= read);
    }
    if exists|i: int| 0 <= i < read.len() && #[trigger] read[i] == 10 {
        let i = choose|i: int| 0 <= i < read.len() && #[trigger] read[i] == 10;
        assert(read.contains(10u8));
    }
}

/// A line that was kept whole asks for what it says without the white space
/// around it; one with nothing else closes the connection, and one of which
/// something was discarded is refused.
pub proof fn a_line_asks_for_what_it_says(line: LineModel)
    ensures
        line.discarded > 0 ==> incoming_of(line) == IncomingModel::Refuse(
            ResponseModel::Error {
                message: "Request too large: at most "@ + text::decimal(64 * 1024)
                    + " bytes are accepted"@,
            },
        ),
        line.discarded <= 0 && text::trimmed(text::lossy_text(line.kept)).len() > 0 ==> incoming_of(
            line,
        ) == IncomingModel::Request(text::trimmed(text::lossy_text(line.kept))),
        line.discarded <= 0 && text::trimmed(text::lossy_text(line.kept)).len() == 0
            ==> incoming_of(line) is Close,
{
}

} // verus!
