//! What becomes of the answers: how each is taken, which operation deals with
//! it, and when the outcome is saved.
use vstd::prelude::*;
use crate::action::{
    ask_active_window, ask_active_workspace, ask_done, ask_windows, ask_workspaces, ActionModel,
    Conv, ReplyModel,
};
use crate::business::{LogicModel, Run};
use crate::business::events::{activation_run, ask_parking_order, changed_run, closed_run};
use crate::business::operation::{operation_run, step_of, EndingModel, OperationModel, StepModel};
use crate::business::parking::{ask_name, ask_persist};
use crate::business::reconcile::{reconcile_run, reload_run};
use crate::business::scratchpad::{park_run, show_run};
use crate::business::requests::{dispatch_run, request_run};
use crate::cli::{
    CommandModel, CommandStepModel, Commands, ConfigAction, DataView, StageAction, StickyAction,
};
use crate::cli::restore::{known_programs, response_shown};
use crate::cli::task::{
    choose_selector, do_task, exchange, read_windows, OutturnModel, Said, Sess, TaskModel,
};
use crate::config::{match_of, FactsModel, PadModel, WindowAction};
use crate::error::{Chain, Outcome};
use crate::menu::{candidates, SelectorModel};
use crate::niri::{WindowModel, WorkspaceModel};
use crate::protocol::{RequestModel, ResponseModel};
use crate::state_store::{same_stored, StoredModel};
use crate::text;

verus! {

// Questions to the compositor.

/// A question is noted behind those before it and takes the next answer; where
/// none is left, there is no answer yet.
pub proof fn a_question_takes_the_next_answer(talk: Conv, question: ActionModel)
    ensures
        talk.ask(question).asked == talk.asked.push(question),
        talk.answers.len() > 0 ==> talk.answer() == Some(talk.answers[0]) && talk.ask(
            question,
        ).answers == talk.answers.subrange(1, talk.answers.len() as int),
        talk.answers.len() == 0 ==> talk.answer() is None && talk.ask(question).answers.len() == 0,
{
}

/// What is to be done is done, or fails as the compositor says.
pub proof fn deeds_are_done_or_fail(talk: Conv, action: ActionModel, e: Chain)
    requires
        talk.answers.len() > 0,
    ensures
        ask_done(talk, action).talk.asked == talk.asked.push(action),
        talk.answers[0] == ReplyModel::Done ==> ask_done(talk, action).out == Some(
            Ok::<(), Chain>(()),
        ),
        talk.answers[0] == ReplyModel::Failed(e) ==> ask_done(talk, action).out == Some(
            Err::<(), Chain>(e),
        ),
        !(talk.answers[0] is Done) && !(talk.answers[0] is Failed) ==> ask_done(talk, action).out
            is Some && ask_done(talk, action).out->0 is Err,
{
}

/// The windows and the workspaces are those of the reply, and a failure is
/// passed on as it is.
pub proof fn lists_are_taken_as_they_come(
    talk: Conv,
    windows: Seq<WindowModel>,
    workspaces: Seq<WorkspaceModel>,
    e: Chain,
)
    requires
        talk.answers.len() > 0,
    ensures
        ask_windows(talk).talk.asked == talk.asked.push(ActionModel::Windows),
        talk.answers[0] == ReplyModel::Windows(windows) ==> ask_windows(talk).out == Some(
            Ok::<Seq<WindowModel>, Chain>(windows),
        ),
        talk.answers[0] == ReplyModel::Failed(e) ==> ask_windows(talk).out == Some(
            Err::<Seq<WindowModel>, Chain>(e),
        ),
        ask_workspaces(talk).talk.asked == talk.asked.push(ActionModel::Workspaces),
        talk.answers[0] == ReplyModel::Workspaces(workspaces) ==> ask_workspaces(talk).out == Some(
            Ok::<Seq<WorkspaceModel>, Chain>(workspaces),
        ),
        talk.answers[0] == ReplyModel::Failed(e) ==> ask_workspaces(talk).out == Some(
            Err::<Seq<WorkspaceModel>, Chain>(e),
        ),
{
}

/// The focused window and the focused workspace are those of the reply; a
/// failure says which of them was asked for.
pub proof fn the_focus_is_taken_as_it_comes(talk: Conv, id: u64, e: Chain)
    requires
        talk.answers.len() > 0,
    ensures
        ask_active_window(talk).talk.asked == talk.asked.push(ActionModel::ActiveWindow),
        talk.answers[0] == ReplyModel::Id(id) ==> ask_active_window(talk).out == Some(
            Ok::<u64, Chain>(id),
        ),
        talk.answers[0] == ReplyModel::Failed(e) ==> ask_active_window(talk).out == Some(
            Err::<u64, Chain>(seq!["Failed to get active window"@] + e),
        ),
        ask_active_workspace(talk).talk.asked == talk.asked.push(ActionModel::ActiveWorkspace),
        talk.answers[0] == ReplyModel::Id(id) ==> ask_active_workspace(talk).out == Some(
            Ok::<u64, Chain>(id),
        ),
        talk.answers[0] == ReplyModel::Failed(e) ==> ask_active_workspace(talk).out == Some(
            Err::<u64, Chain>(seq!["Failed to get active workspace ID"@] + e),
        ),
{
}

/// A workspace that could be named is the parking area; where it could not, the
/// error says which workspace was to have which name.
pub proof fn a_parking_area_is_named(talk: Conv, name: Seq<char>, target: u64, e: Chain)
    requires
        talk.answers.len() > 0,
    ensures
        ask_name(talk, name, target).talk.asked == talk.asked.push(
            ActionModel::NameWorkspace { name, workspace_id: target },
        ),
        talk.answers[0] == ReplyModel::Done ==> ask_name(talk, name, target).out == Some(
            Ok::<u64, Chain>(target),
        ),
        talk.answers[0] == ReplyModel::Failed(e) ==> ask_name(talk, name, target).out == Some(
            Err::<u64, Chain>(
                seq![
                    "Failed to name workspace "@ + text::decimal(target as nat) + " as "@
                        + text::quoted_text(name),
                ] + e,
            ),
        ),
{
}

// Operations.

/// Each operation is what it says: an event is dealt with by what is for it, a
/// request is answered, and a reload says what was read.
pub proof fn operations_are_what_they_say(
    talk: Conv,
    logic: LogicModel,
    id: u64,
    facts: FactsModel,
    request: RequestModel,
)
    ensures
        ({
            let r = operation_run(talk, logic, OperationModel::Reconcile);
            let run = reconcile_run(talk, logic);
            r.talk == run.talk && r.logic == run.logic && (run.out matches Some(out) ==> r.out
                == Some(EndingModel::Done(out)))
        }),
        ({
            let r = operation_run(talk, logic, OperationModel::WorkspaceActivated { id });
            let run = activation_run(talk, logic, id);
            r.talk == run.talk && r.logic == run.logic && (run.out matches Some(out) ==> r.out
                == Some(EndingModel::Done(out)))
        }),
        ({
            let r = operation_run(
                talk,
                logic,
                OperationModel::WindowOpenedOrChanged { id, facts },
            );
            let run = changed_run(talk, logic, id, facts);
            r.talk == run.talk && r.logic == run.logic && (run.out matches Some(out) ==> r.out
                == Some(EndingModel::Done(out)))
        }),
        ({
            let r = operation_run(talk, logic, OperationModel::WindowClosed { id });
            let run = closed_run(talk, logic, id);
            r.talk == run.talk && r.logic == run.logic && (run.out matches Some(out) ==> r.out
                == Some(EndingModel::Done(out)))
        }),
        ({
            let r = operation_run(talk, logic, OperationModel::ParkingOrder);
            let run = ask_parking_order(talk, logic);
            r.talk == run.talk && r.logic == logic && (run.out matches Some(out) ==> r.out == Some(
                EndingModel::Done(out),
            ))
        }),
        ({
            let r = operation_run(talk, logic, OperationModel::Reload);
            let run = reload_run(talk, logic);
            r.talk == run.talk && r.logic == run.logic && (run.out matches Some(out) ==> r.out
                == Some(EndingModel::Reloaded(out)))
        }),
        ({
            let r = operation_run(talk, logic, OperationModel::Request(request));
            let run = request_run(talk, logic, request);
            r.talk == run.talk && r.logic == run.logic && (run.out matches Some(out) ==> r.out
                == Some(EndingModel::Answered(out)))
        }),
{
}

/// An operation that is over ends with its outcome; one that is not goes on with
/// the question it asked last.
pub proof fn an_operation_goes_on_with_its_question(
    talk: Conv,
    logic: LogicModel,
    ending: EndingModel,
    said: Sess,
    out: Outcome<()>,
)
    ensures
        step_of(Run { talk, logic, out: Some(ending) }) == StepModel::End(ending),
        step_of(Run { talk, logic, out: None }) == StepModel::Ask(
            talk.asked[talk.asked.len() - 1],
        ),
        crate::cli::step_of(Said { talk: said, out: Some(out) }) == CommandStepModel::End(out),
        crate::cli::step_of(Said { talk: said, out: None }) == CommandStepModel::Ask(
            said.asked[said.asked.len() - 1],
        ),
{
}

/// After a request the state is saved, with the answer of the request as its
/// outcome. Scratchpads and reloads save on their own.
pub proof fn requests_save_what_they_did(talk: Conv, logic: LogicModel, request: RequestModel)
    ensures
        ({
            let carried = dispatch_run(talk, logic, request);
            let r = request_run(talk, logic, request);
            if request is Reload || request is Scratchpad {
                r == carried
            } else {
                carried.out matches Some(answer) ==> {
                    let saving = ask_persist(carried.talk, carried.logic);
                    &&& r.talk == saving.talk
                    &&& r.logic == saving.logic
                    &&& r.out is Some ==> r.out == Some(answer)
                    &&& r.out is Some <==> saving.out is Some
                }
            }
        }),
{
}

/// A state that is not the one saved last is written; one that is is not. Where
/// it was written, it is the one saved last from then on; where it could not be,
/// none is.
pub proof fn only_a_changed_state_is_written(talk: Conv, logic: LogicModel, before: StoredModel)
    requires
        talk.answers.len() > 0,
        logic.persisted == Some(before),
    ensures
        ({
            let r = ask_persist(talk, logic);
            let now = logic.state.snapshot();
            &&& r.out is Some
            &&& r.logic.state == logic.state
            &&& same_stored(before, now) ==> r.talk == talk && r.logic == logic
            &&& !same_stored(before, now) ==> {
                &&& r.talk.asked == talk.asked.push(ActionModel::SaveState { state: now })
                &&& talk.answers[0] == ReplyModel::Done ==> r.logic.persisted == Some(now)
                &&& talk.answers[0] is Failed ==> r.logic.persisted is None
            }
        }),
{
}

/// The state is on disk as it is, or was just to be written and could not be.
pub open spec fn is_put_on_disk<T>(run: Run<T>) -> bool {
    let now = run.logic.state.snapshot();
    ||| run.logic.persisted == Some(now)
    ||| run.logic.persisted is Some && same_stored(run.logic.persisted->0, now)
    ||| {
        &&& run.logic.persisted is None
        &&& run.talk.asked.len() > 0
        &&& run.talk.asked.last() == (ActionModel::SaveState { state: now })
    }
}

/// What a scratchpad did is on disk: the window that it parked, and the window
/// that it shows again, also where that could not be focused.
pub proof fn scratchpads_are_put_on_disk(
    talk: Conv,
    logic: LogicModel,
    pad: Option<PadModel>,
    label: Seq<char>,
    id: u64,
    workspace_id: u64,
)
    ensures
        park_run(talk, logic, label, id).out == Some(Ok::<(), Chain>(())) ==> is_put_on_disk(
            park_run(talk, logic, label, id),
        ),
        talk.answers.len() >= 2 && talk.answers[0] == ReplyModel::Id(workspace_id)
            && talk.answers[1] == ReplyModel::Done && show_run(talk, logic, pad, label).out is Some
            ==> is_put_on_disk(show_run(talk, logic, pad, label)),
{
    reveal(park_run);
    reveal(show_run);
    let focused = talk.ask(ActionModel::ActiveWorkspace);
    if talk.answers.len() >= 2 {
        assert(focused.answers[0] == talk.answers[1]);
    }
}

/// What follows an event is on disk: the window that a rule made sticky or
/// staged, and that a window is gone.
pub proof fn events_are_put_on_disk(talk: Conv, logic: LogicModel, id: u64, facts: FactsModel)
    ensures
        closed_run(talk, logic, id).out is Some ==> is_put_on_disk(closed_run(talk, logic, id)),
        changed_run(talk, logic, id, facts).out == Some(Ok::<(), Chain>(())) && (match_of(
            logic.config,
            facts,
        ) matches Some(matched) ==> matched.action == WindowAction::Sticky || (
        !logic.state.auto_staged.contains(id) && !super::requests::is_held(logic, id)))
            ==> is_put_on_disk(changed_run(talk, logic, id, facts)),
{
    reveal(closed_run);
    reveal(changed_run);
}

/// What a start, a reload or a request changed is on disk.
pub proof fn changes_are_put_on_disk(
    talk: Conv,
    logic: LogicModel,
    request: RequestModel,
    windows: Seq<WindowModel>,
)
    ensures
        talk.answers.len() >= 2 && talk.answers[1] == ReplyModel::Windows(windows)
            && reconcile_run(talk, logic).out is Some ==> is_put_on_disk(
            reconcile_run(talk, logic),
        ),
        reload_run(talk, logic).out is Some && reload_run(talk, logic).logic.state != logic.state
            ==> is_put_on_disk(reload_run(talk, logic)),
        !(request is Reload) && !(request is Scratchpad) && request_run(talk, logic, request).out
            is Some ==> is_put_on_disk(request_run(talk, logic, request)),
{
    reveal(reconcile_run);
    reveal(reload_run);
    let loading = talk.ask(ActionModel::LoadState);
    if talk.answers.len() >= 2 {
        assert(loading.answers[0] == talk.answers[1]);
    }
}

/// After a start, the state that was read is the one saved last, so that only
/// what differs from it is written.
pub proof fn what_was_read_is_what_is_saved(
    talk: Conv,
    logic: LogicModel,
    stored: StoredModel,
    windows: Seq<WindowModel>,
    layout: Seq<WorkspaceModel>,
)
    requires
        talk.answers.len() >= 4,
        talk.answers[0] == ReplyModel::Stored(Some(stored)),
        talk.answers[1] == ReplyModel::Windows(windows),
        talk.answers[2] == ReplyModel::Workspaces(layout),
    ensures
        ({
            let r = reconcile_run(talk, logic);
            let looked = talk.asked + seq![
                ActionModel::LoadState,
                ActionModel::Windows,
                ActionModel::Workspaces,
            ];
            let now = r.logic.state.snapshot();
            &&& same_stored(stored, now) ==> r.talk.asked == looked && r.logic.persisted == Some(
                stored,
            )
            &&& !same_stored(stored, now) ==> r.talk.asked == looked.push(
                ActionModel::SaveState { state: now },
            )
        }),
{
    reveal(reconcile_run);
    let one = talk.ask(ActionModel::LoadState);
    let two = one.ask(ActionModel::Windows);
    let three = two.ask(ActionModel::Workspaces);
    assert(one.answers[0] == talk.answers[1]);
    assert(two.answers[0] == talk.answers[2]);
    assert(three.answers[0] == talk.answers[3]);
    assert(three.asked =~= talk.asked + seq![
        ActionModel::LoadState,
        ActionModel::Windows,
        ActionModel::Workspaces,
    ]);
}

// Commands.

/// A command that asks the daemon for one thing, and prints what it says.
pub open spec fn asks_for(command: CommandModel, request: RequestModel) -> bool {
    command == CommandModel::Request(request, DataView::Raw, (None, None))
}

/// A command about sticky windows.
pub open spec fn about_sticky(action: StickyAction) -> CommandModel {
    (Commands::Sticky { action }).deep_view()
}

/// A command about staged windows.
pub open spec fn about_stage(action: StageAction) -> CommandModel {
    (Commands::Stage { action }).deep_view()
}

/// A command for a scratchpad.
pub open spec fn for_scratchpad(name: Option<String>) -> CommandModel {
    (Commands::Scratchpad { name }).deep_view()
}

/// A command that lists windows.
pub open spec fn listing(app_id: Option<String>, title: Option<String>) -> CommandModel {
    (Commands::Windows { app_id, title }).deep_view()
}

/// A command about the configuration.
pub open spec fn about_config(action: ConfigAction) -> CommandModel {
    (Commands::Config { action }).deep_view()
}

/// Each command about sticky windows asks for what it says.
pub proof fn sticky_commands_ask_for_what_they_say(id: u64, name: String)
    ensures
        asks_for(
            about_sticky(StickyAction::Add { window_id: id }),
            RequestModel::Add { window_id: id },
        ),
        asks_for(
            about_sticky(StickyAction::Remove { window_id: id }),
            RequestModel::Remove { window_id: id },
        ),
        about_sticky(StickyAction::List) == CommandModel::Request(
            RequestModel::List,
            DataView::Ids,
            (None, None),
        ),
        asks_for(
            about_sticky(StickyAction::ToggleActive),
            RequestModel::ToggleActive,
        ),
        asks_for(
            about_sticky(StickyAction::ToggleAppid { appid: name }),
            RequestModel::ToggleAppid { appid: name@ },
        ),
        asks_for(
            about_sticky(StickyAction::ToggleTitle { title: name }),
            RequestModel::ToggleTitle { title: name@ },
        ),
{
}

/// Each command about staged windows asks for what it says.
pub proof fn stage_commands_ask_for_what_they_say(id: u64, name: String)
    ensures
        about_stage(StageAction::List) == CommandModel::Request(
            RequestModel::StageList,
            DataView::Ids,
            (None, None),
        ),
        asks_for(
            about_stage(StageAction::Add { window_id: id }),
            RequestModel::Stage { window_id: id },
        ),
        asks_for(
            about_stage(StageAction::Remove { window_id: id }),
            RequestModel::Unstage { window_id: id },
        ),
        asks_for(
            about_stage(StageAction::ToggleActive),
            RequestModel::StageToggleActive,
        ),
        asks_for(
            about_stage(StageAction::ToggleAppid { appid: name }),
            RequestModel::StageToggleAppid { appid: name@ },
        ),
        asks_for(
            about_stage(StageAction::ToggleTitle { title: name }),
            RequestModel::StageToggleTitle { title: name@ },
        ),
        asks_for(
            about_stage(StageAction::AddAll),
            RequestModel::StageAll,
        ),
        asks_for(
            about_stage(StageAction::RemoveAll),
            RequestModel::UnstageAll,
        ),
        about_stage(StageAction::Restore) is Restore,
{
}

/// Each other command asks for what it says; the filters of a listing are those
/// that are given, each for its own field.
pub proof fn other_commands_ask_for_what_they_say(
    name: Option<String>,
    app_id: Option<String>,
    title: Option<String>,
    action: ConfigAction,
)
    ensures
        Commands::Status.deep_view() is Status,
        about_config(action) is Check,
        asks_for(Commands::Reload.deep_view(), RequestModel::Reload),
        asks_for(
            for_scratchpad(name),
            RequestModel::Scratchpad { name: name.deep_view() },
        ),
        listing(app_id, title) == CommandModel::Request(
            RequestModel::Windows,
            DataView::Windows,
            (app_id.deep_view(), title.deep_view()),
        ),
{
}

/// The steps of a command are done or fail as they turn out.
pub proof fn tasks_are_done_or_fail(
    talk: Sess,
    task: TaskModel,
    request: RequestModel,
    response: ResponseModel,
    selector: SelectorModel,
    windows: Seq<WindowModel>,
    data: Seq<char>,
    e: Chain,
)
    requires
        talk.answers.len() > 0,
    ensures
        do_task(talk, task).talk.asked == talk.asked.push(task),
        talk.answers[0] == OutturnModel::Done ==> do_task(talk, task).out == Some(
            Ok::<(), Chain>(()),
        ),
        talk.answers[0] == OutturnModel::Failed(e) ==> do_task(talk, task).out == Some(
            Err::<(), Chain>(e),
        ),
        exchange(talk, request).talk.asked == talk.asked.push(TaskModel::Exchange(request)),
        talk.answers[0] == OutturnModel::Response(response) ==> exchange(talk, request).out == Some(
            Ok::<ResponseModel, Chain>(response),
        ),
        talk.answers[0] == OutturnModel::Failed(e) ==> exchange(talk, request).out == Some(
            Err::<ResponseModel, Chain>(e),
        ),
        choose_selector(talk).talk.asked == talk.asked.push(TaskModel::ChooseSelector),
        talk.answers[0] == OutturnModel::Selector(selector) ==> choose_selector(talk).out == Some(
            Ok::<SelectorModel, Chain>(selector),
        ),
        read_windows(talk, data).talk.asked == talk.asked.push(TaskModel::ReadWindows(data)),
        talk.answers[0] == OutturnModel::Windows(windows) ==> read_windows(talk, data).out == Some(
            Ok::<Seq<WindowModel>, Chain>(windows),
        ),
{
}

/// The selectors that are looked for, and the order in which they are.
pub proof fn selectors_are_tried_in_order()
    ensures
        candidates().len() == 5,
        candidates()[0][0] == "vicinae"@,
        candidates()[1][0] == "rofi"@,
        candidates()[2][0] == "fuzzel"@,
        candidates()[3][0] == "wofi"@,
        candidates()[4][0] == "pantry"@,
        known_programs() == seq!["vicinae"@, "rofi"@, "fuzzel"@, "wofi"@, "pantry"@],
{
    assert(known_programs() =~= seq!["vicinae"@, "rofi"@, "fuzzel"@, "wofi"@, "pantry"@]);
}

/// A response of a kind that was not expected is shown with its kind and with
/// what it says.
pub proof fn responses_are_shown_with_their_kind(t: Seq<char>)
    ensures
        response_shown(ResponseModel::Success { message: t }) == "Success { message: "@
            + text::quoted_text(t) + " }"@,
        response_shown(ResponseModel::Error { message: t }) == "Error { message: "@
            + text::quoted_text(t) + " }"@,
        response_shown(ResponseModel::Data { data: t }) == "Data { data: "@ + text::quoted_text(t)
            + " }"@,
{
}

} // verus!
