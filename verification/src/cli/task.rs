//! What a command asks of the terminal and of the daemon, and what it hears.
use vstd::prelude::*;
use super::report::{ConfigReport, ReportModel};
use crate::dialogue::{Dialogue, Talk};
use crate::error::{failure, outcome, Chain, Error, Outcome};
use crate::menu::{CommandModel, MenuCommand, Selector, SelectorModel};
use crate::niri::{WindowInfo, WindowModel};
use crate::protocol::{Request, RequestModel, Response, ResponseModel};

verus! {

/// Something a command needs done.
#[derive(Debug, PartialEq)]
pub enum Task {
    /// One request and response over a connection of its own.
    Exchange(Request),
    /// The text of the configuration file.
    ReadConfig,
    /// The selector to restore windows with.
    ChooseSelector,
    /// The windows in a JSON text of the daemon.
    ReadWindows(String),
    /// Print this text.
    Print(String),
    /// Print these windows as one line of JSON.
    PrintWindows(Vec<WindowInfo>),
    /// Print this report as indented JSON.
    PrintReport(ConfigReport),
    /// Print this text among the notices that must not land in a script's
    /// captured output.
    Notice(String),
    /// Print this text and read a line that the user types.
    Prompt(String),
    /// Run a selector with this text on its standard input.
    Select { command: MenuCommand, input: String },
}

/// [`Task`] as a mathematical value.
pub enum TaskModel {
    Exchange(RequestModel),
    ReadConfig,
    ChooseSelector,
    ReadWindows(Seq<char>),
    Print(Seq<char>),
    PrintWindows(Seq<WindowModel>),
    PrintReport(ReportModel),
    Notice(Seq<char>),
    Prompt(Seq<char>),
    Select { command: CommandModel, input: Seq<char> },
}

impl DeepView for Task {
    type V = TaskModel;

    open spec fn deep_view(&self) -> TaskModel {
        match *self {
            Task::Exchange(request) => TaskModel::Exchange(request.deep_view()),
            Task::ReadConfig => TaskModel::ReadConfig,
            Task::ChooseSelector => TaskModel::ChooseSelector,
            Task::ReadWindows(text) => TaskModel::ReadWindows(text@),
            Task::Print(text) => TaskModel::Print(text@),
            Task::PrintWindows(windows) => TaskModel::PrintWindows(windows.deep_view()),
            Task::PrintReport(report) => TaskModel::PrintReport(report.deep_view()),
            Task::Notice(text) => TaskModel::Notice(text@),
            Task::Prompt(text) => TaskModel::Prompt(text@),
            Task::Select { command, input } => TaskModel::Select {
                command: command.deep_view(),
                input: input@,
            },
        }
    }
}

/// What came of a selector.
#[derive(Debug, Clone, PartialEq, Eq)]
pub struct Selection {
    /// The exit status, where it tells of a failure.
    pub failed: Option<String>,
    /// What was printed.
    pub output: Vec<u8>,
}

/// [`Selection`] as a mathematical value.
pub struct SelectionModel {
    pub failed: Option<Seq<char>>,
    pub output: Seq<u8>,
}

impl DeepView for Selection {
    type V = SelectionModel;

    open spec fn deep_view(&self) -> SelectionModel {
        SelectionModel { failed: self.failed.deep_view(), output: self.output@ }
    }
}

/// What came of a [`Task`].
#[derive(Debug, Clone, PartialEq)]
pub enum Outturn {
    /// It was done.
    Done,
    /// What the daemon answered.
    Response(Response),
    /// The text that was asked for.
    Text(String),
    /// The selector that was asked for.
    Selector(Selector),
    /// The windows that were asked for.
    Windows(Vec<WindowInfo>),
    /// What the selector gave.
    Selection(Selection),
    /// It could not be done.
    Failed(Error),
}

/// [`Outturn`] as a mathematical value.
pub enum OutturnModel {
    Done,
    Response(ResponseModel),
    Text(Seq<char>),
    Selector(SelectorModel),
    Windows(Seq<WindowModel>),
    Selection(SelectionModel),
    Failed(Chain),
}

impl DeepView for Outturn {
    type V = OutturnModel;

    open spec fn deep_view(&self) -> OutturnModel {
        match *self {
            Outturn::Done => OutturnModel::Done,
            Outturn::Response(response) => OutturnModel::Response(response.deep_view()),
            Outturn::Text(text) => OutturnModel::Text(text@),
            Outturn::Selector(selector) => OutturnModel::Selector(selector.deep_view()),
            Outturn::Windows(windows) => OutturnModel::Windows(windows.deep_view()),
            Outturn::Selection(selection) => OutturnModel::Selection(selection.deep_view()),
            Outturn::Failed(e) => OutturnModel::Failed(e.deep_view()),
        }
    }
}

/// The dialogue of a command.
pub type Session = Dialogue<Task, Outturn>;

/// [`Session`] as a mathematical value.
pub type Sess = Talk<TaskModel, OutturnModel>;

/// What a step of a command comes to: how the dialogue goes on, and its result,
/// unless that is not there yet.
pub struct Said<T> {
    pub talk: Sess,
    pub out: Option<T>,
}

/// The step waits.
pub open spec fn waits<T>(talk: Sess) -> Said<T> {
    Said { talk, out: None }
}

/// The step is over.
pub open spec fn comes_to<T>(talk: Sess, out: T) -> Said<T> {
    Said { talk, out: Some(out) }
}

/// The error for an outturn of the wrong kind.
pub open spec fn mismatch() -> Chain {
    failure("Unexpected reply"@)
}

/// A step went as described.
pub open spec fn went<T: DeepView>(
    said: Said<Outcome<T::V>>,
    talk: Session,
    r: Option<Result<T, Error>>,
) -> bool {
    &&& talk.deep_view() == said.talk
    &&& (match r {
        None => said.out is None,
        Some(result) => said.out == Some(outcome(result)),
    })
}

/// A task with nothing to tell but whether it worked.
pub open spec fn do_task(talk: Sess, task: TaskModel) -> Said<Outcome<()>> {
    Said {
        talk: talk.ask(task),
        out: match talk.answer() {
            None => None,
            Some(OutturnModel::Done) => Some(Ok(())),
            Some(OutturnModel::Failed(e)) => Some(Err(e)),
            Some(_) => Some(Err(mismatch())),
        },
    }
}

/// A text is printed.
pub open spec fn print(talk: Sess, text: Seq<char>) -> Said<Outcome<()>> {
    do_task(talk, TaskModel::Print(text))
}

/// A request is sent to the daemon.
pub open spec fn exchange(talk: Sess, request: RequestModel) -> Said<Outcome<ResponseModel>> {
    Said {
        talk: talk.ask(TaskModel::Exchange(request)),
        out: match talk.answer() {
            None => None,
            Some(OutturnModel::Response(response)) => Some(Ok(response)),
            Some(OutturnModel::Failed(e)) => Some(Err(e)),
            Some(_) => Some(Err(mismatch())),
        },
    }
}

/// A text is asked for.
pub open spec fn ask_text(talk: Sess, task: TaskModel) -> Said<Outcome<Seq<char>>> {
    Said {
        talk: talk.ask(task),
        out: match talk.answer() {
            None => None,
            Some(OutturnModel::Text(text)) => Some(Ok(text)),
            Some(OutturnModel::Failed(e)) => Some(Err(e)),
            Some(_) => Some(Err(mismatch())),
        },
    }
}

/// The windows in a text are asked for.
pub open spec fn read_windows(talk: Sess, data: Seq<char>) -> Said<Outcome<Seq<WindowModel>>> {
    Said {
        talk: talk.ask(TaskModel::ReadWindows(data)),
        out: match talk.answer() {
            None => None,
            Some(OutturnModel::Windows(windows)) => Some(Ok(windows)),
            Some(OutturnModel::Failed(e)) => Some(Err(e)),
            Some(_) => Some(Err(mismatch())),
        },
    }
}

/// The selector is asked for.
pub open spec fn choose_selector(talk: Sess) -> Said<Outcome<SelectorModel>> {
    Said {
        talk: talk.ask(TaskModel::ChooseSelector),
        out: match talk.answer() {
            None => None,
            Some(OutturnModel::Selector(selector)) => Some(Ok(selector)),
            Some(OutturnModel::Failed(e)) => Some(Err(e)),
            Some(_) => Some(Err(mismatch())),
        },
    }
}

/// A selector is run.
pub open spec fn select(talk: Sess, command: CommandModel, input: Seq<char>) -> Said<
    Outcome<SelectionModel>,
> {
    Said {
        talk: talk.ask(TaskModel::Select { command, input }),
        out: match talk.answer() {
            None => None,
            Some(OutturnModel::Selection(selection)) => Some(Ok(selection)),
            Some(OutturnModel::Failed(e)) => Some(Err(e)),
            Some(_) => Some(Err(mismatch())),
        },
    }
}

fn mismatch_error() -> (r: Error)
    ensures
        r.deep_view() == mismatch(),
{
    Error::new("Unexpected reply")
}

impl Session {
    /// Have a task done.
    pub fn perform(&mut self, task: Task) -> (r: Option<Result<(), Error>>)
        ensures
            went(do_task(old(self).deep_view(), task.deep_view()), *final(self), r),
    {
        match self.ask(task) {
            None => None,
            Some(Outturn::Done) => Some(Ok(())),
            Some(Outturn::Failed(e)) => Some(Err(e)),
            Some(_) => Some(Err(mismatch_error())),
        }
    }

    /// Print a text.
    pub fn print(&mut self, text: String) -> (r: Option<Result<(), Error>>)
        ensures
            went(print(old(self).deep_view(), text@), *final(self), r),
    {
        self.perform(Task::Print(text))
    }

    /// Send a request to the daemon.
    pub fn exchange(&mut self, request: Request) -> (r: Option<Result<Response, Error>>)
        ensures
            went(exchange(old(self).deep_view(), request.deep_view()), *final(self), r),
    {
        match self.ask(Task::Exchange(request)) {
            None => None,
            Some(Outturn::Response(response)) => Some(Ok(response)),
            Some(Outturn::Failed(e)) => Some(Err(e)),
            Some(_) => Some(Err(mismatch_error())),
        }
    }

    /// Ask for a text.
    pub fn text(&mut self, task: Task) -> (r: Option<Result<String, Error>>)
        ensures
            went(ask_text(old(self).deep_view(), task.deep_view()), *final(self), r),
    {
        match self.ask(task) {
            None => None,
            Some(Outturn::Text(text)) => Some(Ok(text)),
            Some(Outturn::Failed(e)) => Some(Err(e)),
            Some(_) => Some(Err(mismatch_error())),
        }
    }

    /// Ask for the windows in a text.
    pub fn read_windows(&mut self, data: String) -> (r: Option<Result<Vec<WindowInfo>, Error>>)
        ensures
            went(read_windows(old(self).deep_view(), data@), *final(self), r),
    {
        match self.ask(Task::ReadWindows(data)) {
            None => None,
            Some(Outturn::Windows(windows)) => Some(Ok(windows)),
            Some(Outturn::Failed(e)) => Some(Err(e)),
            Some(_) => Some(Err(mismatch_error())),
        }
    }

    /// Ask for the selector.
    pub fn choose_selector(&mut self) -> (r: Option<Result<Selector, Error>>)
        ensures
            went(choose_selector(old(self).deep_view()), *final(self), r),
    {
        match self.ask(Task::ChooseSelector) {
            None => None,
            Some(Outturn::Selector(selector)) => Some(Ok(selector)),
            Some(Outturn::Failed(e)) => Some(Err(e)),
            Some(_) => Some(Err(mismatch_error())),
        }
    }

    /// Run a selector.
    pub fn select(&mut self, command: MenuCommand, input: String) -> (r: Option<
        Result<Selection, Error>,
    >)
        ensures
            went(select(old(self).deep_view(), command.deep_view(), input@), *final(self), r),
    {
        match self.ask(Task::Select { command, input }) {
            None => None,
            Some(Outturn::Selection(selection)) => Some(Ok(selection)),
            Some(Outturn::Failed(e)) => Some(Err(e)),
            Some(_) => Some(Err(mismatch_error())),
        }
    }
}

} // verus!
