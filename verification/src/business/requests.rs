//! Requests and events, one operation at a time.
use vstd::prelude::*;
use vstd::string::*;
use super::{
    batch_message, ended, id_texts, paused, BatchModel, BatchOutcome, BusinessLogic, LogicModel,
    Run,
};
use super::parking::saved;
use super::reconcile::reload_run;
use super::scratchpad::scratchpad_run;
use super::stage::{
    stage_all_run, stage_run, toggle_stage_selected_run, unstage_all_run, unstage_run,
};
use super::sticky::{
    add_run, heard_ids, list_run, remove_run, select_appid, select_title, toggle_active_run,
    toggle_selected_run,
};
use crate::action::{
    ask_active_window, ask_active_workspace, ask_windows, heard, Conv, Conversation,
};
use crate::error::{failure, Error, Outcome};
use crate::niri::{WindowInfo, WindowModel};
use crate::protocol::{error_response, Request, RequestModel, Response, ResponseModel};
use crate::tables::sorted_ids;
use crate::text;

verus! {

/// What a request is answered with. A list of windows is encoded by whoever
/// sends it.
#[derive(Debug, PartialEq)]
pub enum Answer {
    Response(Response),
    Windows(Vec<WindowInfo>),
}

/// [`Answer`] as a mathematical value.
pub enum AnswerModel {
    Response(ResponseModel),
    Windows(Seq<WindowModel>),
}

impl DeepView for Answer {
    type V = AnswerModel;

    open spec fn deep_view(&self) -> AnswerModel {
        match self {
            Answer::Response(response) => AnswerModel::Response(response.deep_view()),
            Answer::Windows(windows) => AnswerModel::Windows(windows.deep_view()),
        }
    }
}

/// A fallible operation as a protocol response, rendering the value with `message`.
pub fn reply<T, F: FnOnce(T) -> String>(result: Result<T, Error>, message: F) -> (r: Response)
    requires
        result matches Ok(value) ==> call_requires(message, (value,)),
    ensures
        match result {
            Ok(value) => exists|text: String| #[trigger]
                call_ensures(message, (value,), text) && r.deep_view() == (
                ResponseModel::Success { message: text@ }),
            Err(e) => r.deep_view() == error_response(e.deep_view()),
        },
{
    match result {
        Ok(value) => {
            let text = message(value);
            Response::success(text.as_str())
        },
        Err(e) => Response::error(&e),
    }
}

/// A fallible operation as a response whose payload is its JSON encoding, or
/// the text of the error that encoding it gave.
pub open spec fn json_response(result: Outcome<Result<Seq<char>, Seq<char>>>) -> ResponseModel {
    match result {
        Ok(Ok(data)) => ResponseModel::Data { data },
        Ok(Err(e)) => error_response(failure("Failed to serialize response: "@ + e)),
        Err(e) => error_response(e),
    }
}

/// An encoded payload or an error, as a mathematical value.
pub open spec fn encoded(result: Result<Result<String, String>, Error>) -> Outcome<
    Result<Seq<char>, Seq<char>>,
> {
    match result {
        Ok(Ok(data)) => Ok(Ok(data@)),
        Ok(Err(e)) => Ok(Err(e@)),
        Err(e) => Err(e.deep_view()),
    }
}

/// A fallible operation as a response whose payload is its JSON encoding. The
/// encoding, or what went wrong with it, comes from the caller.
pub fn reply_json(result: Result<Result<String, String>, Error>) -> (r: Response)
    ensures
        r.deep_view() == json_response(encoded(result)),
{
    match result {
        Ok(Ok(data)) => Response::data(data.as_str()),
        Ok(Err(e)) => {
            let mut message = "Failed to serialize response: ".to_owned();
            message.append(e.as_str());
            Response::error(&Error::new(message.as_str()))
        },
        Err(e) => Response::error(&e),
    }
}

/// Ids as a JSON array.
pub open spec fn ids_json(ids: Seq<u64>) -> Seq<char> {
    "["@ + text::joined(id_texts(ids), ","@) + "]"@
}

/// `serde_json::to_string` for a list of ids: a JSON array of numbers, without
/// white space. It does not fail on such a list.
#[verifier::external_body]
pub(crate) fn encode_ids(ids: &Vec<u64>) -> (r: Result<String, String>)
    ensures
        r is Ok,
        r->Ok_0@ == ids_json(ids@),
{
    serde_json::to_string(ids).map_err(|e| e.to_string())
}

/// An answer in words.
pub open spec fn said<T>(run: Run<Outcome<T>>, words: spec_fn(T) -> Seq<char>) -> Run<AnswerModel> {
    Run {
        talk: run.talk,
        logic: run.logic,
        out: match run.out {
            None => None,
            Some(Ok(value)) => Some(
                AnswerModel::Response(ResponseModel::Success { message: words(value) }),
            ),
            Some(Err(e)) => Some(AnswerModel::Response(error_response(e))),
        },
    }
}

/// One of two answers.
pub open spec fn either(yes: Seq<char>, no: Seq<char>) -> spec_fn(bool) -> Seq<char> {
    |b: bool|
        if b {
            yes
        } else {
            no
        }
}

/// Always the same answer.
pub open spec fn just(words: Seq<char>) -> spec_fn(()) -> Seq<char> {
    |u: ()| words
}

/// An answer about several windows.
pub open spec fn counted(verb: Seq<char>, noun: Seq<char>) -> spec_fn(BatchModel) -> Seq<char> {
    |batch: BatchModel| batch_message(batch, verb, noun)
}

/// The answer is the message itself.
pub open spec fn verbatim() -> spec_fn(Seq<char>) -> Seq<char> {
    |message: Seq<char>| message
}

/// An answer that lists ids.
pub open spec fn listed(run: Run<Outcome<Seq<u64>>>) -> Run<AnswerModel> {
    Run {
        talk: run.talk,
        logic: run.logic,
        out: match run.out {
            None => None,
            Some(Ok(ids)) => Some(
                AnswerModel::Response(ResponseModel::Data { data: ids_json(ids) }),
            ),
            Some(Err(e)) => Some(AnswerModel::Response(error_response(e))),
        },
    }
}

/// An answer that says what went wrong.
pub open spec fn refused(talk: Conv, logic: LogicModel, e: crate::error::Chain) -> Run<AnswerModel> {
    ended(talk, logic, AnswerModel::Response(error_response(e)))
}

/// The focused window is staged, or brought back where it is staged.
#[verifier::opaque]
pub open spec fn stage_toggle_active_run(talk: Conv, logic: LogicModel) -> Run<AnswerModel> {
    let active = ask_active_window(talk);
    match active.out {
        None => paused(active.talk, logic),
        Some(Err(e)) => refused(active.talk, logic, e),
        Some(Ok(id)) => if logic.state.staged.contains_key(id) {
            let workspace = ask_active_workspace(active.talk);
            match workspace.out {
                None => paused(workspace.talk, logic),
                Some(Err(e)) => refused(workspace.talk, logic, e),
                Some(Ok(workspace_id)) => said(
                    unstage_run(workspace.talk, logic, id, workspace_id),
                    just("Unstaged active window"@),
                ),
            }
        } else {
            said(stage_run(active.talk, logic, id), just("Staged active window"@))
        },
    }
}

/// A request that needs the active workspace first.
#[verifier::opaque]
pub open spec fn workspace_run(talk: Conv, logic: LogicModel, request: RequestModel) -> Run<
    AnswerModel,
> {
    let workspace = ask_active_workspace(talk);
    match workspace.out {
        None => paused(workspace.talk, logic),
        Some(Err(e)) => refused(workspace.talk, logic, e),
        Some(Ok(workspace_id)) => match request {
            RequestModel::Unstage { window_id } => said(
                unstage_run(workspace.talk, logic, window_id, workspace_id),
                just("Unstaged window"@),
            ),
            RequestModel::StageToggleAppid { appid } => said(
                toggle_stage_selected_run(
                    logic,
                    select_appid(workspace.talk, appid),
                    workspace_id,
                ),
                counted("Toggled"@, "window(s)"@),
            ),
            RequestModel::StageToggleTitle { title } => said(
                toggle_stage_selected_run(
                    logic,
                    select_title(workspace.talk, title),
                    workspace_id,
                ),
                counted("Toggled"@, "window(s)"@),
            ),
            _ => said(
                unstage_all_run(workspace.talk, logic, workspace_id),
                counted("Unstaged"@, "windows"@),
            ),
        },
    }
}

/// The open windows are listed.
pub open spec fn windows_run(talk: Conv, logic: LogicModel) -> Run<AnswerModel> {
    let windows = ask_windows(talk);
    match windows.out {
        None => paused(windows.talk, logic),
        Some(Err(e)) => refused(windows.talk, logic, e),
        Some(Ok(ws)) => ended(windows.talk, logic, AnswerModel::Windows(ws)),
    }
}

/// A request about windows is carried out.
#[verifier::opaque]
pub open spec fn dispatch_run(talk: Conv, logic: LogicModel, request: RequestModel) -> Run<
    AnswerModel,
> {
    match request {
        RequestModel::Add { window_id } => said(
            add_run(talk, logic, window_id),
            either("Added"@, "Already in sticky list"@),
        ),
        RequestModel::Remove { window_id } => said(
            remove_run(talk, logic, window_id),
            either("Removed"@, "Not in sticky list"@),
        ),
        RequestModel::List => listed(list_run(talk, logic)),
        RequestModel::ToggleActive => said(
            toggle_active_run(talk, logic),
            either("Added active window to sticky"@, "Removed active window from sticky"@),
        ),
        RequestModel::ToggleAppid { appid } => said(
            toggle_selected_run(logic, select_appid(talk, appid)),
            counted("Toggled"@, "window(s)"@),
        ),
        RequestModel::ToggleTitle { title } => said(
            toggle_selected_run(logic, select_title(talk, title)),
            counted("Toggled"@, "window(s)"@),
        ),
        RequestModel::StageList => listed(
            ended(talk, logic, Ok(sorted_ids(logic.state.staged.dom()))),
        ),
        RequestModel::Stage { window_id } => said(
            stage_run(talk, logic, window_id),
            just("Staged window"@),
        ),
        RequestModel::StageToggleActive => stage_toggle_active_run(talk, logic),
        RequestModel::StageAll => said(
            stage_all_run(talk, logic),
            counted("Staged"@, "windows"@),
        ),
        RequestModel::Windows => windows_run(talk, logic),
        RequestModel::Reload => said(reload_run(talk, logic), verbatim()),
        RequestModel::Scratchpad { name } => said(scratchpad_run(talk, logic, name), verbatim()),
        RequestModel::Unstage { .. } | RequestModel::StageToggleAppid { .. }
        | RequestModel::StageToggleTitle { .. } | RequestModel::UnstageAll => workspace_run(
            talk,
            logic,
            request,
        ),
    }
}

/// A request is carried out and answered. Reloading and scratchpads save what
/// they change themselves; after any other request the state is saved.
pub open spec fn request_run(talk: Conv, logic: LogicModel, request: RequestModel) -> Run<
    AnswerModel,
> {
    let carried = dispatch_run(talk, logic, request);
    match request {
        RequestModel::Reload | RequestModel::Scratchpad { .. } => carried,
        _ => match carried.out {
            None => carried,
            Some(answer) => saved(carried.talk, carried.logic, answer),
        },
    }
}

/// A request went as described.
pub open spec fn answered(
    run: Run<AnswerModel>,
    talk: Conversation,
    logic: BusinessLogic,
    r: Option<Answer>,
) -> bool {
    &&& talk.deep_view() == run.talk
    &&& r.deep_view() == run.out
    &&& r is Some ==> logic.deep_view() == run.logic
    &&& logic.deep_view().config == run.logic.config
    &&& logic.deep_view().config_path == run.logic.config_path
}

fn as_is(message: String) -> (r: String)
    ensures
        r == message,
{
    message
}

fn answer_text(r: Option<Result<String, Error>>) -> (a: Option<Answer>)
    ensures
        forall|run: Run<Outcome<Seq<char>>>|
            run.out == heard(r) ==> a.deep_view() == (#[trigger] said(run, verbatim())).out,
{
    match r {
        None => None,
        Some(result) => Some(Answer::Response(reply(result, as_is))),
    }
}

fn answer_bool(r: Option<Result<bool, Error>>, yes: &'static str, no: &'static str) -> (a: Option<
    Answer,
>)
    ensures
        forall|run: Run<Outcome<bool>>|
            run.out == heard(r) ==> a.deep_view() == (#[trigger] said(run, either(yes@, no@))).out,
{
    match r {
        None => None,
        Some(Ok(b)) => {
            let words = if b {
                yes
            } else {
                no
            };
            Some(Answer::Response(reply(Ok(words.to_owned()), as_is)))
        },
        Some(Err(e)) => Some(Answer::Response(reply(Err(e), as_is))),
    }
}

fn answer_unit(r: Option<Result<(), Error>>, words: &'static str) -> (a: Option<Answer>)
    ensures
        forall|run: Run<Outcome<()>>|
            run.out == heard(r) ==> a.deep_view() == (#[trigger] said(run, just(words@))).out,
{
    match r {
        None => None,
        Some(Ok(())) => Some(Answer::Response(reply(Ok(words.to_owned()), as_is))),
        Some(Err(e)) => Some(Answer::Response(reply(Err(e), as_is))),
    }
}

fn answer_batch(
    r: Option<Result<BatchOutcome, Error>>,
    verb: &'static str,
    noun: &'static str,
) -> (a: Option<Answer>)
    ensures
        forall|run: Run<Outcome<BatchModel>>|
            run.out == heard(r) ==> a.deep_view() == (#[trigger] said(
                run,
                counted(verb@, noun@),
            )).out,
{
    match r {
        None => None,
        Some(Ok(batch)) => Some(Answer::Response(reply(Ok(batch.message(verb, noun)), as_is))),
        Some(Err(e)) => Some(Answer::Response(reply(Err(e), as_is))),
    }
}

fn answer_ids(r: Option<Result<Vec<u64>, Error>>) -> (a: Option<Answer>)
    ensures
        forall|run: Run<Outcome<Seq<u64>>>|
            run.out == heard_ids(r) ==> a.deep_view() == (#[trigger] listed(run)).out,
{
    match r {
        None => None,
        Some(Ok(ids)) => Some(Answer::Response(reply_json(Ok(encode_ids(&ids))))),
        Some(Err(e)) => Some(Answer::Response(reply_json(Err(e)))),
    }
}

impl BusinessLogic {
    /// Carry out a request and answer it.
    pub fn handle_request(&mut self, talk: &mut Conversation, request: &Request) -> (r: Option<
        Answer,
    >)
        ensures
            answered(
                request_run(old(talk).deep_view(), old(self).deep_view(), request.deep_view()),
                *final(talk),
                *final(self),
                r,
            ),
    {
        proof {
            reveal(dispatch_run);
        }
        match request {
            Request::Reload => answer_text(self.reload_from_disk(talk)),
            Request::Scratchpad { name } => {
                let name: Option<&str> = match name {
                    Some(name) => Some(name.as_str()),
                    None => None,
                };
                answer_text(self.toggle_scratchpad(talk, name))
            },
            _ => {
                let answer = match self.dispatch(talk, request) {
                    None => {
                        return None;
                    },
                    Some(answer) => answer,
                };
                match self.persist(talk) {
                    None => None,
                    Some(()) => Some(answer),
                }
            },
        }
    }

    fn dispatch(&mut self, talk: &mut Conversation, request: &Request) -> (r: Option<Answer>)
        requires
            !(request is Reload),
            !(request is Scratchpad),
        ensures
            answered(
                dispatch_run(old(talk).deep_view(), old(self).deep_view(), request.deep_view()),
                *final(talk),
                *final(self),
                r,
            ),
    {
        proof {
            reveal(dispatch_run);
        }
        match request {
            Request::Add { window_id } => answer_bool(
                self.add_sticky_window(talk, *window_id),
                "Added",
                "Already in sticky list",
            ),
            Request::Remove { window_id } => answer_bool(
                self.remove_sticky_window(talk, *window_id),
                "Removed",
                "Not in sticky list",
            ),
            Request::List => answer_ids(self.list_sticky_windows(talk)),
            Request::ToggleActive => answer_bool(
                self.toggle_active_window(talk),
                "Added active window to sticky",
                "Removed active window from sticky",
            ),
            Request::ToggleAppid { appid } => answer_batch(
                self.toggle_by_appid(talk, appid.as_str()),
                "Toggled",
                "window(s)",
            ),
            Request::ToggleTitle { title } => answer_batch(
                self.toggle_by_title(talk, title.as_str()),
                "Toggled",
                "window(s)",
            ),
            Request::StageList => answer_ids(Some(Ok(self.list_staged_windows()))),
            Request::Stage { window_id } => answer_unit(
                self.stage_window(talk, *window_id),
                "Staged window",
            ),
            Request::StageToggleActive => self.stage_toggle_active(talk),
            Request::StageAll => answer_batch(self.stage_all_windows(talk), "Staged", "windows"),
            Request::Windows => match talk.windows() {
                None => None,
                Some(Err(e)) => Some(Answer::Response(Response::error(&e))),
                Some(Ok(windows)) => Some(Answer::Windows(windows)),
            },
            _ => self.dispatch_to_workspace(talk, request),
        }
    }

    fn stage_toggle_active(&mut self, talk: &mut Conversation) -> (r: Option<Answer>)
        ensures
            answered(
                stage_toggle_active_run(old(talk).deep_view(), old(self).deep_view()),
                *final(talk),
                *final(self),
                r,
            ),
    {
        proof {
            reveal(stage_toggle_active_run);
        }
        let window_id: u64 = match talk.active_window() {
            None => {
                return None;
            },
            Some(Err(e)) => {
                return Some(Answer::Response(Response::error(&e)));
            },
            Some(Ok(id)) => id,
        };
        if !self.is_window_staged(window_id) {
            return answer_unit(self.stage_window(talk, window_id), "Staged active window");
        }
        let workspace_id: u64 = match talk.active_workspace() {
            None => {
                return None;
            },
            Some(Err(e)) => {
                return Some(Answer::Response(Response::error(&e)));
            },
            Some(Ok(id)) => id,
        };
        answer_unit(
            self.unstage_window(talk, window_id, workspace_id),
            "Unstaged active window",
        )
    }

    fn dispatch_to_workspace(&mut self, talk: &mut Conversation, request: &Request) -> (r: Option<
        Answer,
    >)
        ensures
            answered(
                workspace_run(old(talk).deep_view(), old(self).deep_view(), request.deep_view()),
                *final(talk),
                *final(self),
                r,
            ),
    {
        proof {
            reveal(workspace_run);
        }
        let workspace_id: u64 = match talk.active_workspace() {
            None => {
                return None;
            },
            Some(Err(e)) => {
                return Some(Answer::Response(Response::error(&e)));
            },
            Some(Ok(id)) => id,
        };
        match request {
            Request::Unstage { window_id } => answer_unit(
                self.unstage_window(talk, *window_id, workspace_id),
                "Unstaged window",
            ),
            Request::StageToggleAppid { appid } => answer_batch(
                self.toggle_stage_by_appid(talk, appid.as_str(), workspace_id),
                "Toggled",
                "window(s)",
            ),
            Request::StageToggleTitle { title } => answer_batch(
                self.toggle_stage_by_title(talk, title.as_str(), workspace_id),
                "Toggled",
                "window(s)",
            ),
            _ => answer_batch(
                self.unstage_all_windows(talk, workspace_id),
                "Unstaged",
                "windows",
            ),
        }
    }
}

} // verus!
