//! What is said when something is refused, and what goes on all the same.
use vstd::prelude::*;
use super::parking::{is_first_named, is_unused, named_workspaces_are_found};
use super::requests::{is_held, is_refusal, is_success};
use super::settings::{
    are_names, holds_texts, is_set, keys_have_the_value_they_are_set_to,
    texts_are_read_in_their_order,
};
use super::windows::{is_open, windows_exist_while_they_are_listed};
use crate::action::{ActionModel, Conv, ReplyModel};
use crate::business::{batch_message, BatchModel, LogicModel};
use crate::business::events::{activation_run, ask_parking_order};
use crate::business::parking::{ask_geometry, parking_output, parking_target};
use crate::business::reconcile::{reconcile_run, reload_run};
use crate::business::requests::{dispatch_run, workspace_run, AnswerModel};
use crate::business::scratchpad::{park_run, show_run};
use crate::business::stage::{
    stage_all_run, stage_run, toggle_stage_selected_run, unstage_all_run, unstage_run,
};
use crate::business::sticky::{select_appid, select_title, toggle_selected_run};
use crate::cli::{
    daemon_status, niri_error, show_data, staged_count, status, DataView, EndpointsModel,
};
use crate::cli::report::{status_shown, DaemonStatusModel, StatusModel};
use crate::cli::restore::{fetch_windows, ids_read, response_shown, stage_restore};
use crate::cli::table::Filters;
use crate::cli::task::{OutturnModel, Sess, TaskModel};
use crate::config::{
    bool_at, collected, config_of, follow_of, keep_of, loaded, menu_of, name_at, name_of, number_in,
    pads_of, pin_at, pin_of, regex_fault, section_of, size_in, spawn_of, without_px, ConfigModel,
    PadModel, RuleModel, SizeModel, StickyFollow,
};
use crate::document::{ContentModel, EntriesModel, SettingModel};
use crate::error::{rendered, Chain};
use crate::lists;
use crate::menu::SpecModel;
use crate::niri::{Position, WindowModel, WorkspaceModel};
use crate::protocol::{RequestModel, ResponseModel};
use crate::text;

verus! {

// Settings.

/// `px` is taken off the end of a size, also more than once, and nothing else.
pub proof fn px_is_taken_off(t: Seq<char>)
    ensures
        without_px(t + seq!['p', 'x']) == without_px(t),
        t.len() < 2 || t[t.len() - 2] != 'p' || t[t.len() - 1] != 'x' ==> without_px(t) == t,
{
    let more = t + seq!['p', 'x'];
    assert(more.take(more.len() - 2) =~= t);
}

/// A size in pixels is a positive number that fits; anything else is refused,
/// and so is a percentage that is no number and a value that is neither a number
/// nor a text.
pub proof fn sizes_that_are_none_are_refused(
    value: SettingModel,
    key: Seq<char>,
    rule: Seq<char>,
    raw: Seq<char>,
    n: i64,
)
    ensures
        ({
            let r = size_in(value, key, rule);
            let t = text::trimmed(raw);
            let number = text::integer_in(text::trimmed(without_px(t)));
            let percent = t.len() > 0 && t.last() == '%';
            &&& value.content == ContentModel::Integer(n) ==> (r is Ok <==> (n as i32) > 0) && (r
                is Ok ==> r == Ok::<SizeModel, Chain>(SizeModel::Fixed(n as i32)))
            &&& value.content == ContentModel::Text(raw) && !percent ==> {
                &&& r is Ok <==> number is Some && 0 < number->0 <= i32::MAX
                &&& r is Ok ==> r == Ok::<SizeModel, Chain>(SizeModel::Fixed(number->0 as i32))
            }
            &&& value.content == ContentModel::Text(raw) && percent && number_in(
                text::trimmed(t.drop_last()),
            ) is None ==> r is Err
            &&& !(value.content is Text) && !(value.content is Integer) ==> r is Err
        }),
{
}

/// What a refused size is called by: the key, the rule, and what is wrong.
pub proof fn refused_sizes_say_why(
    value: SettingModel,
    key: Seq<char>,
    rule: Seq<char>,
    raw: Seq<char>,
    n: i64,
)
    ensures
        ({
            let doing = "Invalid "@ + key + " value"@ + (" in "@ + rule);
            let r = size_in(value, key, rule);
            let t = text::trimmed(raw);
            let expected = ": expected pixels (\"400\") or a percentage (\"60%\"), got "@;
            &&& value.content == ContentModel::Integer(n) && (n as i32) <= 0 ==> r == Err::<
                SizeModel,
                Chain,
            >(seq![doing + ": size must be positive"@])
            &&& value.content == ContentModel::Text(raw) && t.len() > 0 && t.last() == '%'
                && number_in(text::trimmed(t.drop_last())) is None ==> r == Err::<SizeModel, Chain>(
                seq![doing + ": "@ + (text::quoted_text(t) + " is not a percentage"@)],
            )
            &&& value.content == ContentModel::Text(raw) && (t.len() == 0 || t.last() != '%')
                && text::integer_in(text::trimmed(without_px(t))) is None ==> r == Err::<
                SizeModel,
                Chain,
            >(seq![doing + expected + text::quoted_text(t)])
            &&& !(value.content is Text) && !(value.content is Integer) ==> r == Err::<
                SizeModel,
                Chain,
            >(seq![doing + expected + value.shown])
        }),
{
}

/// A value of the wrong kind is refused: a truth value that is none, a name or a
/// way to follow that is no text, outputs and patterns that are neither a text
/// nor a list of texts, and a command or a menu with something else in it.
pub proof fn values_of_the_wrong_kind_are_refused(
    table: EntriesModel,
    key: Seq<char>,
    alias: Seq<char>,
    default: Seq<char>,
    rule: Seq<char>,
    value: SettingModel,
    doing: Seq<char>,
    keys: Seq<Seq<char>>,
    found: Seq<Seq<char>>,
)
    ensures
        is_set(table, key, value) && !(value.content is Text) ==> name_of(
            table,
            key,
            alias,
            default,
        ) is Err,
        is_set(table, alias, value) && !(value.content is Text) ==> name_of(
            table,
            key,
            alias,
            default,
        ) is Err,
        (forall|texts: Seq<Seq<char>>| !#[trigger] holds_texts(value, texts)) ==> {
            &&& is_set(table, "output"@, value) ==> pin_of(table, rule) is Err
            &&& is_set(table, "outputs"@, value) ==> pin_of(table, rule) is Err
            &&& is_set(table, key, value) ==> collected(table, seq![key] + keys, doing, found)
                is Err
            &&& is_set(table, "menu"@, value) ==> menu_of(table) is Err
            &&& is_set(table, "spawn"@, value) ==> spawn_of(table, rule) is Err
        },
{
    keys_have_the_value_they_are_set_to(table, key);
    keys_have_the_value_they_are_set_to(table, alias);
    keys_have_the_value_they_are_set_to(table, "output"@);
    keys_have_the_value_they_are_set_to(table, "outputs"@);
    keys_have_the_value_they_are_set_to(table, "menu"@);
    keys_have_the_value_they_are_set_to(table, "spawn"@);
    let in_rule = crate::config::in_rule(rule);
    let one = crate::config::invalid("output"@, in_rule);
    let two = crate::config::invalid("outputs"@, in_rule);
    let three = crate::config::invalid("spawn"@, in_rule);
    texts_are_read_in_their_order(value, one, one, found);
    texts_are_read_in_their_order(value, two, two, found);
    texts_are_read_in_their_order(value, three, three, found);
    texts_are_read_in_their_order(value, doing, doing, found);
    texts_are_read_in_their_order(value, "Invalid menu entry"@, "Invalid menu value"@, found);
    let all = seq![key] + keys;
    assert(all[0] == key);
    assert(all.drop_first() =~= keys);
    if let ContentModel::Text(t) = value.content {
        assert(holds_texts(value, seq![t]));
    }
}

/// What refused settings are called by: the key, and what was expected of it.
pub proof fn refused_settings_say_why(
    table: EntriesModel,
    key: Seq<char>,
    alias: Seq<char>,
    default: Seq<char>,
    value: SettingModel,
    other: SettingModel,
    a: Seq<char>,
    b: Seq<char>,
    place: Seq<char>,
)
    ensures
        is_set(table, key, value) && !(value.content is Boolean) ==> bool_at(table, key, place)
            == Err::<Option<bool>, Chain>(
            seq!["Invalid "@ + key + " value"@ + place + ": expected a boolean, got "@
                + value.shown],
        ),
        is_set(table, key, value) && !(value.content is Text) ==> name_at(table, key) == Err::<
            Option<Seq<char>>,
            Chain,
        >(seq!["Invalid "@ + key + " value"@ + ""@ + ": expected a string, got "@ + value.shown]),
        is_set(table, key, value) && value.content == ContentModel::Text(a) && text::trimmed(
            a,
        ).len() == 0 ==> name_at(table, key) == Err::<Option<Seq<char>>, Chain>(
            seq!["Invalid "@ + key + " value"@ + ""@ + ": workspace name must not be empty"@],
        ),
        is_set(table, key, value) && value.content == ContentModel::Text(a) && text::trimmed(
            a,
        ).len() > 0 && is_set(table, alias, other) && other.content == ContentModel::Text(b)
            && text::trimmed(b).len() > 0 && a != b ==> name_of(table, key, alias, default)
            == Err::<Seq<char>, Chain>(
            seq!["Conflicting "@ + alias + " values: "@ + text::quoted_text(a) + " and "@
                + text::quoted_text(b)],
        ),
        is_set(table, "sticky-follow"@, value) && value.content == ContentModel::Text(a) && a
            != "focused"@ && a != "own-output"@ ==> follow_of(table) == Err::<StickyFollow, Chain>(
            seq!["Invalid "@ + "sticky-follow"@ + " value"@ + ""@
                + ": expected \"focused\" or \"own-output\", got "@ + text::quoted_text(a)],
        ),
        is_set(table, key, value) && !(value.content is Table) ==> section_of(table, key) == Err::<
            Seq<RuleModel>,
            Chain,
        >(seq!["Invalid "@ + key + " section: expected a table, got "@ + value.shown]),
{
    keys_have_the_value_they_are_set_to(table, key);
    keys_have_the_value_they_are_set_to(table, alias);
    keys_have_the_value_they_are_set_to(table, "sticky-follow"@);
}

/// What refused outputs, patterns and commands are called by: the rule they are
/// in, and what is wrong with them.
pub proof fn refused_rules_say_why(
    table: EntriesModel,
    key: Seq<char>,
    rule: Seq<char>,
    value: SettingModel,
    other: SettingModel,
    a: Seq<Seq<char>>,
    b: Seq<Seq<char>>,
)
    requires
        holds_texts(value, a),
        holds_texts(other, b),
    ensures
        is_set(table, key, value) && (a.len() == 0 || lists::any(a, crate::config::blank()))
            ==> pin_at(table, key, rule) == Err::<Option<Seq<Seq<char>>>, Chain>(
            seq!["Invalid "@ + key + " value"@ + (" in "@ + rule)
                + ": output names must not be empty"@],
        ),
        is_set(table, "output"@, value) && is_set(table, "outputs"@, other) && are_names(a)
            && are_names(b) && a != b ==> pin_of(table, rule) == Err::<Seq<Seq<char>>, Chain>(
            seq!["Conflicting output lists in "@ + rule + ": "@ + text::quoted_list(a) + " and "@
                + text::quoted_list(b)],
        ),
        is_set(table, "spawn"@, value) && value.content is List && (a.len() == 0 || text::trimmed(
            a[0],
        ).len() == 0) ==> spawn_of(table, rule) == Err::<Option<Seq<Seq<char>>>, Chain>(
            seq!["Invalid "@ + "spawn"@ + " value"@ + (" in "@ + rule)
                + ": the command must not be empty"@],
        ),
        is_set(table, "spawn"@, value) && !(value.content is List) ==> spawn_of(table, rule)
            == Err::<Option<Seq<Seq<char>>>, Chain>(
            seq!["Invalid "@ + "spawn"@ + " value"@ + (" in "@ + rule)
                + ": expected an array of strings, got "@ + value.shown],
        ),
{
    keys_have_the_value_they_are_set_to(table, key);
    keys_have_the_value_they_are_set_to(table, "output"@);
    keys_have_the_value_they_are_set_to(table, "outputs"@);
    keys_have_the_value_they_are_set_to(table, "spawn"@);
    let in_rule = crate::config::in_rule(rule);
    let doing = crate::config::invalid(key, in_rule);
    let one = crate::config::invalid("output"@, in_rule);
    let two = crate::config::invalid("outputs"@, in_rule);
    let three = crate::config::invalid("spawn"@, in_rule);
    texts_are_read_in_their_order(value, doing, doing, a);
    texts_are_read_in_their_order(value, one, one, a);
    texts_are_read_in_their_order(other, two, two, b);
    texts_are_read_in_their_order(value, three, three, a);
    super::settings::outputs_are_read_in_their_order(table, rule, value, other, a, b);
    super::settings::names_are_not_blank(a);
    super::settings::names_are_not_blank(b);
}

/// A pattern that is no regular expression is named, with its field, its rule
/// and what is wrong with it; the first of several is.
pub proof fn the_first_faulty_pattern_is_named(
    patterns: Seq<Seq<char>>,
    field: Seq<char>,
    rule: Seq<char>,
    at: int,
    fault: Seq<char>,
)
    requires
        0 <= at < patterns.len(),
        regex_fault(patterns[at]) == Some(fault),
        forall|j: int| 0 <= j < at ==> regex_fault(#[trigger] patterns[j]) is None,
    ensures
        crate::config::compiled(patterns, field, rule) == Err::<Seq<Seq<char>>, Chain>(
            seq!["Invalid "@ + field + " regex in "@ + rule + ": "@ + text::quoted_text(
                patterns[at],
            ) + "\n"@ + fault],
        ),
{
    let p = crate::config::faulty();
    let found = lists::a_search_finds_the_first(patterns, p);
    assert(p(patterns[at]));
    if found < at {
        assert(p(patterns[found]));
    }
}

/// Of several things that are wrong with a configuration, the first is reported:
/// the menu, the names of the parking areas, their being the same, how windows
/// follow, whether the stage is kept, the sticky rules, the stage rules, and the
/// scratchpads, in this order.
pub proof fn the_first_fault_is_reported(table: EntriesModel, e: Chain)
    ensures
        ({
            let menu = menu_of(table);
            let stage = name_of(table, "stage-workspace"@, "stage_workspace"@, "stage"@);
            let area = name_of(
                table,
                "scratchpad-workspace"@,
                "scratchpad_workspace"@,
                "scratchpad"@,
            );
            let follow = follow_of(table);
            let keep = keep_of(table);
            let sticky = section_of(table, "sticky"@);
            let staging = section_of(table, "stage"@);
            let pads = pads_of(table);
            let r = config_of(table);
            let failed = Err::<ConfigModel, Chain>(e);
            let named = menu is Ok && stage is Ok && area is Ok;
            let apart = named && stage != area;
            &&& menu == Err::<Option<SpecModel>, Chain>(e) ==> r == failed
            &&& menu is Ok && stage == Err::<Seq<char>, Chain>(e) ==> r == failed
            &&& menu is Ok && stage is Ok && area == Err::<Seq<char>, Chain>(e) ==> r == failed
            &&& named && stage == area ==> r == Err::<ConfigModel, Chain>(
                seq!["stage-workspace and scratchpad-workspace cannot both be "@
                    + text::quoted_text(stage->Ok_0)
                    + ": each parking area needs a workspace of its own"@],
            )
            &&& apart && follow == Err::<StickyFollow, Chain>(e) ==> r == failed
            &&& apart && follow is Ok && keep == Err::<bool, Chain>(e) ==> r == failed
            &&& apart && follow is Ok && keep is Ok && sticky == Err::<Seq<RuleModel>, Chain>(e)
                ==> r == failed
            &&& apart && follow is Ok && keep is Ok && sticky is Ok && staging == Err::<
                Seq<RuleModel>,
                Chain,
            >(e) ==> r == failed
            &&& apart && follow is Ok && keep is Ok && sticky is Ok && staging is Ok && pads
                == Err::<Seq<PadModel>, Chain>(e) ==> r == failed
        }),
{
}

// Parking.

/// Where there is no output to park on, or no workspace of it to take, that is
/// what is said.
pub proof fn a_missing_place_to_park_is_named(
    windows: Seq<WindowModel>,
    layout: Seq<WorkspaceModel>,
    name: Seq<char>,
    id: u64,
    output: Seq<char>,
)
    ensures
        parking_output(windows, layout, id) is None ==> parking_target(windows, layout, name, id)
            == Err::<u64, Chain>(
            seq!["No output available to create the "@ + text::quoted_text(name)
                + " workspace on"@],
        ),
        parking_output(windows, layout, id) == Some(output) && crate::pinning::bottom_free(
            layout,
            output,
            crate::business::occupied_by(windows),
        ) is None ==> parking_target(windows, layout, name, id) == Err::<u64, Chain>(
            seq!["No empty workspace on "@ + output + " to turn into "@ + text::quoted_text(name)],
        ),
{
}

/// A window whose geometry cannot be looked up has none to remember, and that is
/// no failure.
pub proof fn an_unknown_geometry_is_no_failure(talk: Conv, id: u64, windows: Seq<WindowModel>)
    requires
        talk.answers.len() > 0,
        talk.answers[0] is Failed || talk.answers[0] == ReplyModel::Windows(windows) && !is_open(
            windows,
            id,
        ),
    ensures
        ask_geometry(talk, id).talk.asked == talk.asked.push(ActionModel::Windows),
        ask_geometry(talk, id).out == Some((None::<(i32, i32)>, None::<Position>)),
{
    if let ReplyModel::Windows(ws) = talk.answers[0] {
        windows_exist_while_they_are_listed(ws, id);
        lists::find_is_exact(ws, crate::business::window_with(id));
    }
}

// Requests.

/// A window that the compositor does not move stays where it is: staging,
/// bringing back, parking and showing fail with its reason, and nothing that is
/// remembered changes.
pub proof fn what_cannot_be_moved_stays(
    talk: Conv,
    logic: LogicModel,
    pad: Option<PadModel>,
    label: Seq<char>,
    id: u64,
    workspace_id: u64,
    windows: Seq<WindowModel>,
    again: Seq<WindowModel>,
    layout: Seq<WorkspaceModel>,
    at: int,
    e: Chain,
)
    requires
        talk.answers.len() >= 4,
    ensures
        talk.answers[0] == ReplyModel::Windows(windows) && talk.answers[1] == ReplyModel::Windows(
            again,
        ) && talk.answers[2] == ReplyModel::Workspaces(layout) && talk.answers[3]
            == ReplyModel::Failed(e) && is_open(windows, id) && is_first_named(
            layout,
            logic.config.stage_workspace,
            at,
        ) && !logic.state.staged.contains_key(id) && !is_held(logic, id) ==> {
            &&& stage_run(talk, logic, id).out == Some(Err::<(), Chain>(e))
            &&& stage_run(talk, logic, id).logic == logic
        },
        talk.answers[0] == ReplyModel::Windows(windows) && talk.answers[1] == ReplyModel::Windows(
            again,
        ) && talk.answers[2] == ReplyModel::Workspaces(layout) && talk.answers[3]
            == ReplyModel::Failed(e) && is_open(windows, id) && is_first_named(
            layout,
            logic.config.scratchpad_workspace,
            at,
        ) ==> {
            &&& park_run(talk, logic, label, id).out == Some(Err::<(), Chain>(e))
            &&& park_run(talk, logic, label, id).logic == logic
        },
        talk.answers[0] == ReplyModel::Windows(windows) && talk.answers[1] == ReplyModel::Failed(e)
            && is_open(windows, id) && logic.state.staged.contains_key(id) ==> {
            &&& unstage_run(talk, logic, id, workspace_id).out == Some(Err::<(), Chain>(e))
            &&& unstage_run(talk, logic, id, workspace_id).logic == logic
            &&& unstage_run(talk, logic, id, workspace_id).talk.asked == talk.asked + seq![
                ActionModel::Windows,
                ActionModel::MoveWindow { window_id: id, workspace_id },
            ]
        },
        talk.answers[0] == ReplyModel::Id(workspace_id) && talk.answers[1] == ReplyModel::Failed(e)
            ==> {
            &&& show_run(talk, logic, pad, label).out == Some(Err::<(), Chain>(e))
            &&& show_run(talk, logic, pad, label).logic == logic
            &&& show_run(talk, logic, pad, label).talk.asked == talk.asked + seq![
                ActionModel::ActiveWorkspace,
                ActionModel::MoveWindow { window_id: logic.state.pads[label].id, workspace_id },
            ]
        },
{
    reveal(stage_run);
    reveal(park_run);
    reveal(unstage_run);
    reveal(show_run);
    windows_exist_while_they_are_listed(windows, id);
    named_workspaces_are_found(layout, logic.config.stage_workspace);
    named_workspaces_are_found(layout, logic.config.scratchpad_workspace);
    let one = talk.ask(ActionModel::Windows);
    let two = one.ask(ActionModel::Windows);
    let three = two.ask(ActionModel::Workspaces);
    assert(one.answers[0] == talk.answers[1]);
    assert(two.answers[0] == talk.answers[2]);
    assert(three.answers[0] == talk.answers[3]);
    let moving = ActionModel::MoveWindow { window_id: id, workspace_id };
    assert(one.ask(moving).asked =~= talk.asked + seq![ActionModel::Windows, moving]);
    let focused = talk.ask(ActionModel::ActiveWorkspace);
    assert(focused.answers[0] == talk.answers[1]);
    let showing = ActionModel::MoveWindow { window_id: logic.state.pads[label].id, workspace_id };
    assert(focused.ask(showing).asked =~= talk.asked + seq![
        ActionModel::ActiveWorkspace,
        showing,
    ]);
}

/// A request for several windows says how many it was about, in its own words.
pub proof fn requests_for_several_say_how_many(
    talk: Conv,
    logic: LogicModel,
    text: Seq<char>,
    workspace_id: u64,
    batch: BatchModel,
)
    ensures
        stage_all_run(talk, logic).out == Some(Ok::<BatchModel, Chain>(batch)) ==> is_success(
            dispatch_run(talk, logic, RequestModel::StageAll).out,
            batch_message(batch, "Staged"@, "windows"@),
        ),
        toggle_selected_run(logic, select_appid(talk, text)).out == Some(
            Ok::<BatchModel, Chain>(batch),
        ) ==> is_success(
            dispatch_run(talk, logic, RequestModel::ToggleAppid { appid: text }).out,
            batch_message(batch, "Toggled"@, "window(s)"@),
        ),
        toggle_selected_run(logic, select_title(talk, text)).out == Some(
            Ok::<BatchModel, Chain>(batch),
        ) ==> is_success(
            dispatch_run(talk, logic, RequestModel::ToggleTitle { title: text }).out,
            batch_message(batch, "Toggled"@, "window(s)"@),
        ),
        talk.answers.len() > 0 && talk.answers[0] == ReplyModel::Id(workspace_id) ==> {
            let focused = talk.ask(ActionModel::ActiveWorkspace);
            &&& unstage_all_run(focused, logic, workspace_id).out == Some(
                Ok::<BatchModel, Chain>(batch),
            ) ==> is_success(
                dispatch_run(talk, logic, RequestModel::UnstageAll).out,
                batch_message(batch, "Unstaged"@, "windows"@),
            )
            &&& toggle_stage_selected_run(logic, select_appid(focused, text), workspace_id).out
                == Some(Ok::<BatchModel, Chain>(batch)) ==> is_success(
                dispatch_run(talk, logic, RequestModel::StageToggleAppid { appid: text }).out,
                batch_message(batch, "Toggled"@, "window(s)"@),
            )
            &&& toggle_stage_selected_run(logic, select_title(focused, text), workspace_id).out
                == Some(Ok::<BatchModel, Chain>(batch)) ==> is_success(
                dispatch_run(talk, logic, RequestModel::StageToggleTitle { title: text }).out,
                batch_message(batch, "Toggled"@, "window(s)"@),
            )
        },
{
    reveal(dispatch_run);
    reveal(workspace_run);
}

/// A request that the compositor fails is refused with its reason, and nothing
/// changes: a list of windows that does not come, a focus that is not known.
pub proof fn a_failing_compositor_refuses(talk: Conv, logic: LogicModel, id: u64, e: Chain)
    requires
        talk.answers.len() > 0,
        talk.answers[0] == ReplyModel::Failed(e),
    ensures
        ({
            let windows = |r: crate::business::Run<AnswerModel>|
                r.talk.asked == talk.asked.push(ActionModel::Windows) && r.logic == logic
                    && is_refusal(r.out, rendered(e));
            &&& windows(dispatch_run(talk, logic, RequestModel::Add { window_id: id }))
            &&& windows(dispatch_run(talk, logic, RequestModel::Remove { window_id: id }))
            &&& windows(dispatch_run(talk, logic, RequestModel::Stage { window_id: id }))
            &&& windows(dispatch_run(talk, logic, RequestModel::List))
            &&& windows(dispatch_run(talk, logic, RequestModel::StageAll))
            &&& windows(dispatch_run(talk, logic, RequestModel::Windows))
        }),
        ({
            let window = |r: crate::business::Run<AnswerModel>|
                r.talk.asked == talk.asked.push(ActionModel::ActiveWindow) && r.logic == logic
                    && is_refusal(r.out, rendered(seq!["Failed to get active window"@] + e));
            &&& window(dispatch_run(talk, logic, RequestModel::ToggleActive))
            &&& window(dispatch_run(talk, logic, RequestModel::StageToggleActive))
        }),
        ({
            let workspace = |r: crate::business::Run<AnswerModel>|
                r.talk.asked == talk.asked.push(ActionModel::ActiveWorkspace) && r.logic == logic
                    && is_refusal(r.out, rendered(seq!["Failed to get active workspace ID"@] + e));
            &&& workspace(dispatch_run(talk, logic, RequestModel::Unstage { window_id: id }))
            &&& workspace(dispatch_run(talk, logic, RequestModel::UnstageAll))
        }),
{
    reveal(dispatch_run);
    reveal(workspace_run);
    reveal(crate::business::sticky::add_run);
    reveal(crate::business::sticky::remove_run);
    reveal(crate::business::sticky::list_run);
    reveal(crate::business::sticky::toggle_active_run);
    reveal(crate::business::requests::stage_toggle_active_run);
    reveal(stage_run);
    reveal(stage_all_run);
}

/// What follows an event goes on without the compositor: where it does not list
/// its windows or its workspaces, sticky windows stay where they are, and that
/// is no failure. The parking areas are left where they are, and that is one.
pub proof fn an_event_without_the_compositor_changes_nothing(
    talk: Conv,
    logic: LogicModel,
    focused: u64,
    windows: Seq<WindowModel>,
    e: Chain,
)
    requires
        talk.answers.len() >= 2,
    ensures
        talk.answers[0] == ReplyModel::Failed(e) || talk.answers[0] == ReplyModel::Windows(windows)
            && talk.answers[1] == ReplyModel::Failed(e) ==> {
            &&& activation_run(talk, logic, focused).logic == logic
            &&& activation_run(talk, logic, focused).out == Some(Ok::<(), Chain>(()))
            &&& forall|i: int|
                talk.asked.len() <= i < activation_run(talk, logic, focused).talk.asked.len()
                    ==> !(#[trigger] activation_run(talk, logic, focused).talk.asked[i]
                    is MoveWindow)
        },
        talk.answers[0] == ReplyModel::Failed(e) ==> {
            &&& ask_parking_order(talk, logic).out == Some(Err::<(), Chain>(e))
            &&& ask_parking_order(talk, logic).talk.asked == talk.asked.push(
                ActionModel::Workspaces,
            )
        },
{
    reveal(activation_run);
    reveal(ask_parking_order);
    let one = talk.ask(ActionModel::Windows);
    assert(one.answers[0] == talk.answers[1]);
}

/// A new configuration counts also where the compositor does not answer; the
/// pins then stay as they are.
pub proof fn a_reload_without_the_compositor_keeps_the_pins(
    talk: Conv,
    logic: LogicModel,
    config: ConfigModel,
    e: Chain,
)
    requires
        talk.answers.len() >= 2,
        loaded(logic.config_path, crate::action::text_in(talk.answers[0])) == Ok::<
            ConfigModel,
            Chain,
        >(config),
        talk.answers[1] == ReplyModel::Failed(e),
    ensures
        ({
            let r = reload_run(talk, logic);
            &&& r.logic == (LogicModel { config, ..logic })
            &&& r.talk.asked == talk.asked + seq![ActionModel::ReadConfig, ActionModel::Windows]
            &&& r.out == Some(
                Ok::<Seq<char>, Chain>(
                    "Reloaded configuration: "@ + text::decimal(
                        config.sticky_rules.len() + config.stage_rules.len(),
                    ) + " rule(s), "@ + text::decimal(0) + " window(s) re-pinned"@,
                ),
            )
        }),
{
    reveal(reload_run);
    let one = talk.ask(ActionModel::ReadConfig);
    assert(one.answers[0] == talk.answers[1]);
    assert(one.ask(ActionModel::Windows).asked =~= talk.asked + seq![
        ActionModel::ReadConfig,
        ActionModel::Windows,
    ]);
}

/// A state file that cannot be read, or that is not there, counts as an empty
/// one: nothing is tracked but what sits on the stage workspace.
pub proof fn without_a_state_file_nothing_is_tracked(
    talk: Conv,
    logic: LogicModel,
    windows: Seq<WindowModel>,
    layout: Seq<WorkspaceModel>,
)
    requires
        talk.answers.len() >= 4,
        talk.answers[0] == ReplyModel::Stored(None) || talk.answers[0] is Failed,
        talk.answers[1] == ReplyModel::Windows(windows),
        talk.answers[2] == ReplyModel::Workspaces(layout),
    ensures
        ({
            let state = reconcile_run(talk, logic).logic.state;
            &&& forall|id: u64| !#[trigger] state.sticky.contains_key(id)
            &&& forall|label: Seq<char>| !#[trigger] state.pads.contains_key(label)
            &&& is_unused(layout, logic.config.stage_workspace) ==> forall|id: u64|
                !#[trigger] state.staged.contains_key(id)
            &&& forall|at: int, id: u64|
                #[trigger] is_first_named(layout, logic.config.stage_workspace, at)
                    && #[trigger] state.staged.contains_key(id) ==> super::restart::is_listed_on(
                    windows,
                    id,
                    layout[at].id,
                )
        }),
{
    reveal(reconcile_run);
    let one = talk.ask(ActionModel::LoadState);
    let two = one.ask(ActionModel::Windows);
    assert(one.answers[0] == talk.answers[1]);
    assert(two.answers[0] == talk.answers[2]);
    assert(two.ask(ActionModel::Workspaces).answers[0] == talk.answers[3]);
    super::restart::the_stage_is_known(windows, layout, logic.config.stage_workspace);
    named_workspaces_are_found(layout, logic.config.stage_workspace);
    let stored = crate::business::empty_stored();
    let state = reconcile_run(talk, logic).logic.state;
    assert(crate::state::stored_pins(stored) =~= Map::empty()) by {
        assert(stored.sticky.map_values(
            |entry: crate::state_store::StoredStickyModel| (entry.id(), entry.outputs()),
        ) =~= Seq::empty());
    }
    assert(crate::state::stored_pads(stored) =~= Map::empty());
    assert(crate::business::reconcile::live_staged(stored, windows) =~= Map::empty()) by {
        assert(stored.staged.map_values(
            |record: crate::state_store::RecordModel| (
                record.id,
                crate::state::staged_of(record),
            ),
        ) =~= Seq::empty());
    }
    assert forall|at: int, id: u64|
        #[trigger] is_first_named(layout, logic.config.stage_workspace, at)
            && #[trigger] state.staged.contains_key(id) implies super::restart::is_listed_on(
        windows,
        id,
        layout[at].id,
    ) by {
        if super::restart::places_are_known(windows) {
            assert(crate::business::reconcile::on_stage(
                windows,
                layout,
                logic.config.stage_workspace,
            )->0.contains(id));
        }
    }
}

// Commands.

/// A daemon that answers with anything but its sticky windows is not running.
/// Staged windows that are not told count as none, and a compositor that does
/// not answer is reported with the reason.
pub proof fn a_status_is_reported_all_the_same(
    talk: Sess,
    response: ResponseModel,
    message: Seq<char>,
    e: Chain,
)
    ensures
        talk.answers.len() > 0 && talk.answers[0] == OutturnModel::Response(response) && !(response
            is Data) ==> daemon_status(talk).out == Some(None::<DaemonStatusModel>),
        staged_count(Err(e)) == 0,
        !(response is Data) ==> staged_count(Ok(response)) == 0,
        niri_error(Err(e)) == Some(rendered(e)),
        niri_error(Ok(ResponseModel::Success { message })) == Some(
            "unexpected response: "@ + response_shown(ResponseModel::Success { message }),
        ),
        niri_error(Ok(ResponseModel::Error { message })) == Some(message),
        niri_error(Ok(ResponseModel::Data { data: message })) is None,
{
}

/// The status is printed whether the daemon runs or not; the command succeeds
/// only where it does.
pub proof fn the_status_is_printed(
    talk: Sess,
    endpoints: EndpointsModel,
    found: Option<DaemonStatusModel>,
)
    requires
        daemon_status(talk).out == Some(found),
        daemon_status(talk).talk.answers.len() > 0,
        daemon_status(talk).talk.answers[0] == OutturnModel::Done,
    ensures
        ({
            let r = status(talk, endpoints);
            &&& r.talk.asked == daemon_status(talk).talk.asked.push(
                TaskModel::Print(
                    status_shown(
                        StatusModel {
                            socket: endpoints.socket,
                            config: endpoints.config,
                            state: endpoints.state,
                            daemon: found,
                        },
                    ) + "\n"@,
                ),
            )
            &&& found is Some ==> r.out == Some(Ok::<(), Chain>(()))
            &&& found is None ==> r.out == Some(
                Err::<(), Chain>(seq!["The nsticky daemon is not running"@]),
            )
        }),
{
}

/// Data that cannot be read fails the command, and the error says what it was to
/// be; nothing is printed.
pub proof fn unreadable_data_fails_the_command(
    talk: Sess,
    data: Seq<char>,
    json: bool,
    filters: Filters,
    message: Seq<char>,
    e: Chain,
)
    requires
        talk.answers.len() > 0,
    ensures
        talk.answers[0] == OutturnModel::Failed(e) ==> {
            let r = show_data(talk, DataView::Windows, data, json, filters);
            &&& r.talk.asked == talk.asked.push(TaskModel::ReadWindows(data))
            &&& r.out == Some(Err::<(), Chain>(seq!["Failed to parse window list"@] + e))
        },
        ids_read(data) == Err::<Seq<u64>, Seq<char>>(message) ==> {
            let r = show_data(talk, DataView::Ids, data, json, filters);
            &&& r.talk == talk
            &&& r.out == Some(Err::<(), Chain>(seq!["Failed to parse id list"@, message]))
        },
{
    assert(seq!["Failed to parse id list"@] + seq![message] =~= seq![
        "Failed to parse id list"@,
        message,
    ]);
}

/// Restoring fails where the staged windows are not told, with the reason; where
/// the answer is of another kind, it is shown.
pub proof fn restoring_fails_where_nothing_is_told(
    talk: Sess,
    ids: Seq<u64>,
    message: Seq<char>,
    e: Chain,
)
    requires
        talk.answers.len() > 0,
    ensures
        talk.answers[0] == OutturnModel::Failed(e) ==> stage_restore(talk).out == Some(
            Err::<(), Chain>(e),
        ),
        talk.answers[0] == OutturnModel::Response(ResponseModel::Error { message })
            ==> stage_restore(talk).out == Some(Err::<(), Chain>(seq![message])),
        talk.answers[0] == OutturnModel::Response(ResponseModel::Success { message })
            ==> stage_restore(talk).out == Some(
            Err::<(), Chain>(
                seq!["Unexpected daemon response: "@ + response_shown(
                    ResponseModel::Success { message },
                )],
            ),
        ),
        talk.answers[0] == OutturnModel::Response(ResponseModel::Data { data: message })
            && ids_read(message) is Err ==> stage_restore(talk).out == Some(
            Err::<(), Chain>(seq![ids_read(message)->Err_0]),
        ),
        talk.answers[0] == OutturnModel::Response(ResponseModel::Error { message })
            ==> fetch_windows(talk, ids).out == Some(
            Err::<Seq<WindowModel>, Chain>(seq![message]),
        ),
        talk.answers[0] == OutturnModel::Failed(e) ==> fetch_windows(talk, ids).out == Some(
            Err::<Seq<WindowModel>, Chain>(e),
        ),
{
}

} // verus!
