//! Running an operation, one answer after the other.
use vstd::prelude::*;
use super::{BusinessLogic, LogicModel, Run};
use super::events::{activation_run, ask_parking_order, changed_run, closed_run};
use super::reconcile::{reconcile_run, reload_run};
use super::replay::{operation_run_is_tidy, replay_is_stable};
use super::requests::{request_run, Answer, AnswerModel};
use crate::action::{Action, ActionModel, Conv, Conversation, Reply};
use crate::config::FactsModel;
use crate::dialogue::{Dialogue, Talk};
use crate::error::{outcome, Error, Outcome};
use crate::protocol::{Request, RequestModel};

verus! {

/// Something the daemon does in one go.
#[derive(Debug, PartialEq, Eq)]
pub enum Operation {
    /// Take up the state of an earlier run.
    Reconcile,
    /// Carry out a request.
    Request(Request),
    /// Read the configuration again.
    Reload,
    /// Follow the focus to a workspace.
    WorkspaceActivated { id: u64 },
    /// Apply the rules to a window.
    WindowOpenedOrChanged {
        id: u64,
        app_id: Option<String>,
        title: Option<String>,
        floating: bool,
    },
    /// Forget a window.
    WindowClosed { id: u64 },
    /// Put the parking workspaces back where they belong.
    ParkingOrder,
}

/// [`Operation`] as a mathematical value.
pub enum OperationModel {
    Reconcile,
    Request(RequestModel),
    Reload,
    WorkspaceActivated { id: u64 },
    WindowOpenedOrChanged { id: u64, facts: FactsModel },
    WindowClosed { id: u64 },
    ParkingOrder,
}

impl DeepView for Operation {
    type V = OperationModel;

    open spec fn deep_view(&self) -> OperationModel {
        match *self {
            Operation::Reconcile => OperationModel::Reconcile,
            Operation::Request(request) => OperationModel::Request(request.deep_view()),
            Operation::Reload => OperationModel::Reload,
            Operation::WorkspaceActivated { id } => OperationModel::WorkspaceActivated { id },
            Operation::WindowOpenedOrChanged { id, app_id, title, floating } =>
                OperationModel::WindowOpenedOrChanged {
                id,
                facts: FactsModel {
                    app_id: app_id.deep_view(),
                    title: title.deep_view(),
                    floating,
                },
            },
            Operation::WindowClosed { id } => OperationModel::WindowClosed { id },
            Operation::ParkingOrder => OperationModel::ParkingOrder,
        }
    }
}

/// What an operation ends with.
#[derive(Debug, PartialEq)]
pub enum Ending {
    /// The answer to a request.
    Answered(Answer),
    /// What was read again.
    Reloaded(Result<String, Error>),
    /// Nothing to tell but whether it worked.
    Done(Result<(), Error>),
}

/// [`Ending`] as a mathematical value.
pub enum EndingModel {
    Answered(AnswerModel),
    Reloaded(Outcome<Seq<char>>),
    Done(Outcome<()>),
}

impl DeepView for Ending {
    type V = EndingModel;

    open spec fn deep_view(&self) -> EndingModel {
        match *self {
            Ending::Answered(answer) => EndingModel::Answered(answer.deep_view()),
            Ending::Reloaded(result) => EndingModel::Reloaded(outcome(result)),
            Ending::Done(result) => EndingModel::Done(outcome(result)),
        }
    }
}

/// A run that ends with whether it worked.
pub open spec fn done_run(run: Run<Outcome<()>>) -> Run<EndingModel> {
    Run {
        talk: run.talk,
        logic: run.logic,
        out: match run.out {
            None => None,
            Some(out) => Some(EndingModel::Done(out)),
        },
    }
}

/// An operation is carried out.
pub open spec fn operation_run(talk: Conv, logic: LogicModel, operation: OperationModel) -> Run<
    EndingModel,
> {
    match operation {
        OperationModel::Reconcile => done_run(reconcile_run(talk, logic)),
        OperationModel::Request(request) => {
            let run = request_run(talk, logic, request);
            Run {
                talk: run.talk,
                logic: run.logic,
                out: match run.out {
                    None => None,
                    Some(answer) => Some(EndingModel::Answered(answer)),
                },
            }
        },
        OperationModel::Reload => {
            let run = reload_run(talk, logic);
            Run {
                talk: run.talk,
                logic: run.logic,
                out: match run.out {
                    None => None,
                    Some(out) => Some(EndingModel::Reloaded(out)),
                },
            }
        },
        OperationModel::WorkspaceActivated { id } => done_run(activation_run(talk, logic, id)),
        OperationModel::WindowOpenedOrChanged { id, facts } => done_run(
            changed_run(talk, logic, id, facts),
        ),
        OperationModel::WindowClosed { id } => done_run(closed_run(talk, logic, id)),
        OperationModel::ParkingOrder => {
            let asked = ask_parking_order(talk, logic);
            Run {
                talk: asked.talk,
                logic,
                out: match asked.out {
                    None => None,
                    Some(out) => Some(EndingModel::Done(out)),
                },
            }
        },
    }
}

/// How an operation goes on.
#[derive(Debug, PartialEq)]
pub enum Step {
    /// This has to be done, and the operation started again with its answer.
    Ask(Action),
    /// The operation is over.
    End(Ending),
}

/// [`Step`] as a mathematical value.
pub enum StepModel {
    Ask(ActionModel),
    End(EndingModel),
}

impl DeepView for Step {
    type V = StepModel;

    open spec fn deep_view(&self) -> StepModel {
        match *self {
            Step::Ask(action) => StepModel::Ask(action.deep_view()),
            Step::End(ending) => StepModel::End(ending.deep_view()),
        }
    }
}

/// How an operation goes on with the answers so far.
pub open spec fn step_of(run: Run<EndingModel>) -> StepModel {
    match run.out {
        Some(ending) => StepModel::End(ending),
        None => StepModel::Ask(run.talk.asked.last()),
    }
}

fn as_text<'a>(text: &'a Option<String>) -> (r: Option<&'a str>)
    ensures
        r.deep_view() == text.deep_view(),
{
    match text {
        Some(text) => Some(text.as_str()),
        None => None,
    }
}

impl BusinessLogic {
    fn operate(&mut self, talk: &mut Conversation, operation: &Operation) -> (r: Option<Ending>)
        ensures
            ({
                let run = operation_run(
                    old(talk).deep_view(),
                    old(self).deep_view(),
                    operation.deep_view(),
                );
                &&& final(talk).deep_view() == run.talk
                &&& r.deep_view() == run.out
                &&& r is Some ==> final(self).deep_view() == run.logic
                &&& final(self).deep_view().config == run.logic.config
                &&& final(self).deep_view().config_path == run.logic.config_path
            }),
    {
        match operation {
            Operation::Reconcile => match self.reconcile(talk) {
                None => None,
                Some(result) => Some(Ending::Done(result)),
            },
            Operation::Request(request) => match self.handle_request(talk, request) {
                None => None,
                Some(answer) => Some(Ending::Answered(answer)),
            },
            Operation::Reload => match self.reload_from_disk(talk) {
                None => None,
                Some(result) => Some(Ending::Reloaded(result)),
            },
            Operation::WorkspaceActivated { id } => match self.handle_workspace_activation(
                talk,
                *id,
            ) {
                None => None,
                Some(result) => Some(Ending::Done(result)),
            },
            Operation::WindowOpenedOrChanged { id, app_id, title, floating } =>
                match self.handle_window_opened_or_changed(
                talk,
                *id,
                as_text(app_id),
                as_text(title),
                *floating,
            ) {
                None => None,
                Some(result) => Some(Ending::Done(result)),
            },
            Operation::WindowClosed { id } => match self.handle_window_closed(talk, *id) {
                None => None,
                Some(result) => Some(Ending::Done(result)),
            },
            Operation::ParkingOrder => match self.ensure_parking_order(talk) {
                None => None,
                Some(result) => Some(Ending::Done(result)),
            },
        }
    }

    /// Carry an operation as far as the answers go. Where one is missing, the
    /// daemon is as it was before, and the step says what to do to get it.
    pub fn advance(&mut self, operation: &Operation, answers: Vec<Reply>) -> (r: Step)
        ensures
            ({
                let run = operation_run(
                    Talk::start(answers.deep_view()),
                    old(self).deep_view(),
                    operation.deep_view(),
                );
                &&& r.deep_view() == step_of(run)
                &&& final(self).deep_view() == (if run.out is Some {
                    run.logic
                } else {
                    old(self).deep_view()
                })
            }),
    {
        let state = self.state.clone();
        let persisted = self.persisted.clone();
        let mut talk: Conversation = Dialogue::new(answers);
        proof {
            operation_run_is_tidy(
                Talk::start(answers.deep_view()),
                self.deep_view(),
                operation.deep_view(),
            );
            replay_is_stable(
                self.deep_view(),
                operation.deep_view(),
                answers.deep_view(),
                Seq::empty(),
            );
        }
        match self.operate(&mut talk, operation) {
            Some(ending) => Step::End(ending),
            None => {
                self.state = state;
                self.persisted = persisted;
                let n: usize = talk.asked.len();
                Step::Ask(talk.asked.remove(n - 1))
            },
        }
    }
}

} // verus!
