//! The command line.
use vstd::pervasive::unreached;
use vstd::prelude::*;
use vstd::string::*;
use crate::business::requests::{encode_ids, ids_json};
use crate::config::{loaded, Config};
use crate::dialogue::{Dialogue, Talk};
use crate::error::{failure, in_context, outcome, rendered, Error, Outcome};
use crate::protocol::{socket_path, socket_path_in, Request, RequestModel, Response, ResponseModel};
use crate::state_store::{state_file, state_path};
use crate::text;
use report::{
    check_text, config_report, config_text, report_of, status_shown, DaemonStatus,
    DaemonStatusModel, Status, StatusModel,
};
use restore::{
    fetch_windows, fetch_windows_matching, ids_read, read_ids, response_shown, run_stage_restore,
    show_response, stage_restore,
};
use table::{by_id, filter_windows, passing, sort_by_id, table, windows_table, Filters};
use task::{
    ask_text, comes_to, do_task, exchange, print, read_windows, waits, went, Outturn, Said, Sess,
    Session, Task, TaskModel,
};

pub mod laws;
pub mod replay;
pub mod report;
pub mod restore;
pub mod table;
pub mod task;

verus! {

/// A parsed command line.
#[derive(Debug, Clone, PartialEq, Eq)]
pub struct Cli {
    pub command: Commands,
    /// Print machine-readable JSON instead of a table (list commands).
    pub json: bool,
}

/// What the command line is about.
#[derive(Debug, Clone, PartialEq, Eq)]
pub enum Commands {
    /// Manage sticky windows across all workspaces.
    Sticky { action: StickyAction },
    /// Manage staged windows (temporarily hidden in stage workspace).
    Stage { action: StageAction },
    /// Report what nsticky can see: daemon, niri, paths and counts.
    Status,
    /// Re-read config.toml and apply it without restarting the daemon.
    Reload,
    /// Toggle a scratchpad from `[scratchpad.<name>]`: hide it, show it, or
    /// start it if it is not running. Without a name, toggles the focused
    /// window.
    Scratchpad { name: Option<String> },
    /// Inspect the configuration.
    Config { action: ConfigAction },
    /// List open windows with optional filters.
    Windows { app_id: Option<String>, title: Option<String> },
}

/// Actions for sticky windows.
#[derive(Debug, Clone, PartialEq, Eq)]
pub enum StickyAction {
    /// Add a window to sticky list by window ID.
    Add { window_id: u64 },
    /// Remove a window from sticky list by window ID.
    Remove { window_id: u64 },
    /// List all sticky windows.
    List,
    /// Toggle sticky state of the currently active window.
    ToggleActive,
    /// Toggle sticky state of windows matching the given app ID.
    ToggleAppid { appid: String },
    /// Toggle sticky state of windows matching the given title.
    ToggleTitle { title: String },
}

/// Actions for the configuration.
#[derive(Debug, Clone, Copy, PartialEq, Eq, Structural)]
pub enum ConfigAction {
    /// Validate config.toml, list its rules and exit.
    Check,
}

/// Actions for staged windows.
#[derive(Debug, Clone, PartialEq, Eq)]
pub enum StageAction {
    /// List all staged windows.
    List,
    /// Stage a window by ID (move to stage workspace).
    Add { window_id: u64 },
    /// Unstage a window by ID (move back from stage workspace).
    Remove { window_id: u64 },
    /// Toggle stage state of the currently active window.
    ToggleActive,
    /// Toggle stage state of windows matching the given app ID.
    ToggleAppid { appid: String },
    /// Toggle stage state of windows matching the given title.
    ToggleTitle { title: String },
    /// Stage all sticky windows.
    AddAll,
    /// Unstage all staged windows.
    RemoveAll,
    /// Interactive restore: list staged windows with names and pick one to unstage.
    Restore,
}

/// [`Cli`] as a mathematical value: what is asked of the daemon, where one
/// request is all there is to it, and what is filtered.
pub enum CommandModel {
    /// One request, and how its data is shown.
    Request(RequestModel, DataView, Filters),
    Restore,
    Status,
    Check,
}

/// How a `Data` response should be presented.
#[derive(Debug, Clone, Copy, PartialEq, Eq, Structural)]
pub enum DataView {
    /// JSON list of windows, shown as a table unless `--json` was passed.
    Windows,
    /// JSON list of window ids, joined with window details for the table.
    Ids,
    /// Anything else: printed verbatim.
    Raw,
}

/// A command without filters whose answer is printed as it is.
pub open spec fn plain(request: RequestModel) -> CommandModel {
    CommandModel::Request(request, DataView::Raw, (None, None))
}

impl DeepView for Commands {
    type V = CommandModel;

    open spec fn deep_view(&self) -> CommandModel {
        match *self {
            Commands::Sticky { action } => match action {
                StickyAction::Add { window_id } => plain(RequestModel::Add { window_id }),
                StickyAction::Remove { window_id } => plain(RequestModel::Remove { window_id }),
                StickyAction::List => CommandModel::Request(
                    RequestModel::List,
                    DataView::Ids,
                    (None, None),
                ),
                StickyAction::ToggleActive => plain(RequestModel::ToggleActive),
                StickyAction::ToggleAppid { appid } => plain(
                    RequestModel::ToggleAppid { appid: appid@ },
                ),
                StickyAction::ToggleTitle { title } => plain(
                    RequestModel::ToggleTitle { title: title@ },
                ),
            },
            Commands::Stage { action } => match action {
                StageAction::List => CommandModel::Request(
                    RequestModel::StageList,
                    DataView::Ids,
                    (None, None),
                ),
                StageAction::Add { window_id } => plain(RequestModel::Stage { window_id }),
                StageAction::Remove { window_id } => plain(RequestModel::Unstage { window_id }),
                StageAction::ToggleActive => plain(RequestModel::StageToggleActive),
                StageAction::ToggleAppid { appid } => plain(
                    RequestModel::StageToggleAppid { appid: appid@ },
                ),
                StageAction::ToggleTitle { title } => plain(
                    RequestModel::StageToggleTitle { title: title@ },
                ),
                StageAction::AddAll => plain(RequestModel::StageAll),
                StageAction::RemoveAll => plain(RequestModel::UnstageAll),
                StageAction::Restore => CommandModel::Restore,
            },
            Commands::Status => CommandModel::Status,
            Commands::Reload => plain(RequestModel::Reload),
            Commands::Scratchpad { name } => plain(
                RequestModel::Scratchpad { name: name.deep_view() },
            ),
            Commands::Config { .. } => CommandModel::Check,
            Commands::Windows { app_id, title } => CommandModel::Request(
                RequestModel::Windows,
                DataView::Windows,
                (app_id.deep_view(), title.deep_view()),
            ),
        }
    }
}

impl Cli {
    /// The request of a command that is one request and no more.
    pub fn into_request(self) -> (r: Request)
        requires
            self.command.deep_view() is Request,
        ensures
            r.deep_view() == self.command.deep_view()->Request_0,
    {
        match self.command {
            Commands::Sticky { action } => match action {
                StickyAction::Add { window_id } => Request::Add { window_id },
                StickyAction::Remove { window_id } => Request::Remove { window_id },
                StickyAction::List => Request::List,
                StickyAction::ToggleActive => Request::ToggleActive,
                StickyAction::ToggleAppid { appid } => Request::ToggleAppid { appid },
                StickyAction::ToggleTitle { title } => Request::ToggleTitle { title },
            },
            Commands::Stage { action } => match action {
                StageAction::List => Request::StageList,
                StageAction::Add { window_id } => Request::Stage { window_id },
                StageAction::Remove { window_id } => Request::Unstage { window_id },
                StageAction::ToggleActive => Request::StageToggleActive,
                StageAction::ToggleAppid { appid } => Request::StageToggleAppid { appid },
                StageAction::ToggleTitle { title } => Request::StageToggleTitle { title },
                StageAction::AddAll => Request::StageAll,
                StageAction::RemoveAll => Request::UnstageAll,
                StageAction::Restore => unreached(),
            },
            Commands::Reload => Request::Reload,
            Commands::Scratchpad { name } => Request::Scratchpad { name },
            Commands::Windows { .. } => Request::Windows,
            Commands::Status | Commands::Config { .. } => unreached(),
        }
    }
}

/// How the data a command asks for should be presented.
pub fn data_view(command: &Commands) -> (r: DataView)
    ensures
        r == (match command.deep_view() {
            CommandModel::Request(_, view, _) => view,
            _ => DataView::Raw,
        }),
{
    match command {
        Commands::Windows { .. } => DataView::Windows,
        Commands::Sticky { action: StickyAction::List } => DataView::Ids,
        Commands::Stage { action: StageAction::List } => DataView::Ids,
        _ => DataView::Raw,
    }
}

// Where things are.

/// Sockets and files the CLI talks to.
#[derive(Debug, Clone, PartialEq, Eq)]
pub struct Endpoints {
    pub socket: String,
    pub config: String,
    pub state: String,
}

/// [`Endpoints`] as a mathematical value.
#[verifier::ext_equal]
pub struct EndpointsModel {
    pub socket: Seq<char>,
    pub config: Seq<char>,
    pub state: Seq<char>,
}

impl DeepView for Endpoints {
    type V = EndpointsModel;

    open spec fn deep_view(&self) -> EndpointsModel {
        EndpointsModel { socket: self.socket@, config: self.config@, state: self.state@ }
    }
}

impl Endpoints {
    /// The sockets and files under the directories of the environment.
    pub fn from_env(
        runtime_dir: Option<&str>,
        config_dir: Option<&str>,
        state_dir: Option<&str>,
        data_dir: Option<&str>,
    ) -> (r: Self)
        ensures
            r.deep_view() == (EndpointsModel {
                socket: socket_path(runtime_dir.deep_view()),
                config: text::path_join(
                    crate::config::config_dir(config_dir.deep_view()),
                    "config.toml"@,
                ),
                state: state_file(state_dir.deep_view(), data_dir.deep_view()),
            }),
    {
        Endpoints {
            socket: socket_path_in(runtime_dir),
            config: Config::config_path_under(config_dir),
            state: state_path(state_dir, data_dir),
        }
    }
}

// Checking the configuration.

/// The configuration is validated and shown.
pub open spec fn config_check(talk: Sess, endpoints: EndpointsModel, json: bool) -> Said<
    Outcome<()>,
> {
    let content = ask_text(talk, TaskModel::ReadConfig);
    match content.out {
        None => waits(content.talk),
        Some(read) => match loaded(endpoints.config, read) {
            Err(e) => comes_to(content.talk, Err(e)),
            Ok(config) => if json {
                do_task(
                    content.talk,
                    TaskModel::PrintReport(report_of(config, endpoints.config, endpoints.state)),
                )
            } else {
                print(content.talk, check_text(config, endpoints.config, endpoints.state))
            },
        },
    }
}

/// Validate `config.toml` and report what nsticky made of it.
pub fn run_config_check(talk: &mut Session, endpoints: &Endpoints, json: bool) -> (r: Option<
    Result<(), Error>,
>)
    ensures
        went(
            config_check(old(talk).deep_view(), endpoints.deep_view(), json),
            *final(talk),
            r,
        ),
{
    let content = match talk.text(Task::ReadConfig) {
        None => {
            return None;
        },
        Some(content) => content,
    };
    match Config::load(endpoints.config.as_str(), content) {
        Err(e) => Some(Err(e)),
        Ok(config) => {
            if json {
                let report = config_report(
                    &config,
                    endpoints.config.as_str(),
                    endpoints.state.as_str(),
                );
                talk.perform(Task::PrintReport(report))
            } else {
                let report = config_text(
                    &config,
                    endpoints.config.as_str(),
                    endpoints.state.as_str(),
                );
                talk.print(report)
            }
        },
    }
}

// Status.

/// How many ids a text lists; none where it is no list of ids.
pub open spec fn id_count(data: Seq<char>) -> nat {
    match ids_read(data) {
        Ok(ids) => ids.len(),
        Err(_) => 0,
    }
}

/// The number of staged windows; none where the daemon does not say.
pub open spec fn staged_count(response: Outcome<ResponseModel>) -> nat {
    match response {
        Ok(ResponseModel::Data { data }) => id_count(data),
        _ => 0,
    }
}

/// Why the compositor does not answer, if it does not.
pub open spec fn niri_error(response: Outcome<ResponseModel>) -> Option<Seq<char>> {
    match response {
        Ok(ResponseModel::Data { .. }) => None,
        Ok(ResponseModel::Error { message }) => Some(message),
        Ok(other) => Some("unexpected response: "@ + response_shown(other)),
        Err(e) => Some(rendered(e)),
    }
}

/// What the daemon tells about itself, if it answers.
pub open spec fn daemon_status(talk: Sess) -> Said<Option<DaemonStatusModel>> {
    let sticky = exchange(talk, RequestModel::List);
    match sticky.out {
        None => waits(sticky.talk),
        Some(Ok(ResponseModel::Data { data })) => {
            let staged = exchange(sticky.talk, RequestModel::StageList);
            match staged.out {
                None => waits(staged.talk),
                Some(staged_reply) => {
                    let windows = exchange(staged.talk, RequestModel::Windows);
                    match windows.out {
                        None => waits(windows.talk),
                        Some(windows_reply) => comes_to(
                            windows.talk,
                            Some(
                                DaemonStatusModel {
                                    sticky: id_count(data),
                                    staged: staged_count(staged_reply),
                                    niri_error: niri_error(windows_reply),
                                },
                            ),
                        ),
                    }
                },
            }
        },
        Some(_) => comes_to(sticky.talk, None),
    }
}

/// The state of the daemon, the compositor and the configuration is shown.
pub open spec fn status(talk: Sess, endpoints: EndpointsModel) -> Said<Outcome<()>> {
    let daemon = daemon_status(talk);
    match daemon.out {
        None => waits(daemon.talk),
        Some(found) => {
            let shown = print(
                daemon.talk,
                status_shown(
                    StatusModel {
                        socket: endpoints.socket,
                        config: endpoints.config,
                        state: endpoints.state,
                        daemon: found,
                    },
                ) + "\n"@,
            );
            match shown.out {
                Some(Ok(())) => if found is None {
                    comes_to(shown.talk, Err(failure("The nsticky daemon is not running"@)))
                } else {
                    shown
                },
                _ => shown,
            }
        },
    }
}

fn count_ids(data: &str) -> (r: usize)
    ensures
        r == id_count(data@),
{
    match read_ids(data) {
        Ok(ids) => ids.len(),
        Err(_) => 0,
    }
}

fn read_daemon_status(talk: &mut Session) -> (r: Option<Option<DaemonStatus>>)
    ensures
        final(talk).deep_view() == daemon_status(old(talk).deep_view()).talk,
        r.deep_view() == daemon_status(old(talk).deep_view()).out,
{
    let data = match talk.exchange(Request::List) {
        None => {
            return None;
        },
        Some(Ok(Response::Data { data })) => data,
        Some(_) => {
            return Some(None);
        },
    };
    let staged = match talk.exchange(Request::StageList) {
        None => {
            return None;
        },
        Some(Ok(Response::Data { data })) => count_ids(data.as_str()),
        Some(_) => 0,
    };
    let niri_error = match talk.exchange(Request::Windows) {
        None => {
            return None;
        },
        Some(Ok(Response::Data { .. })) => None,
        Some(Ok(Response::Error { message })) => Some(message),
        Some(Ok(other)) => {
            let mut message = "unexpected response: ".to_owned();
            message.append(show_response(&other).as_str());
            Some(message)
        },
        Some(Err(e)) => Some(e.render()),
    };
    Some(Some(DaemonStatus { sticky: count_ids(data.as_str()), staged, niri_error }))
}

/// Report the state of the daemon, the compositor and the configuration.
///
/// The report is printed even without a daemon (it names the socket that was
/// tried), but the command fails then.
pub fn run_status(talk: &mut Session, endpoints: &Endpoints) -> (r: Option<Result<(), Error>>)
    ensures
        went(status(old(talk).deep_view(), endpoints.deep_view()), *final(talk), r),
{
    let daemon = match read_daemon_status(talk) {
        None => {
            return None;
        },
        Some(daemon) => daemon,
    };
    let missing = daemon.is_none();
    let status = Status {
        socket: endpoints.socket.clone(),
        config: endpoints.config.clone(),
        state: endpoints.state.clone(),
        daemon,
    };
    let mut shown = status.render();
    shown.append("\n");
    match talk.print(shown) {
        Some(Ok(())) => {
            if missing {
                Some(Err(Error::new("The nsticky daemon is not running")))
            } else {
                Some(Ok(()))
            }
        },
        r => r,
    }
}

// Commands of one request.

/// The data of a response is shown.
pub open spec fn show_data(
    talk: Sess,
    view: DataView,
    data: Seq<char>,
    json: bool,
    filters: Filters,
) -> Said<Outcome<()>> {
    match view {
        DataView::Windows => {
            let windows = read_windows(talk, data);
            match windows.out {
                None => waits(windows.talk),
                Some(Err(e)) => comes_to(
                    windows.talk,
                    Err(in_context("Failed to parse window list"@, e)),
                ),
                Some(Ok(ws)) => {
                    let kept = by_id(ws.filter_map(passing(filters)));
                    if json {
                        do_task(windows.talk, TaskModel::PrintWindows(kept))
                    } else {
                        print(windows.talk, table(kept))
                    }
                },
            }
        },
        DataView::Ids => match ids_read(data) {
            Err(message) => comes_to(
                talk,
                Err(in_context("Failed to parse id list"@, failure(message))),
            ),
            Ok(ids) => if json {
                print(talk, ids_json(ids) + "\n"@)
            } else {
                let windows = fetch_windows(talk, ids);
                match windows.out {
                    None => waits(windows.talk),
                    Some(Err(e)) => comes_to(windows.talk, Err(e)),
                    Some(Ok(ws)) => print(windows.talk, table(by_id(ws))),
                }
            },
        },
        DataView::Raw => print(talk, data + "\n"@),
    }
}

/// A request is sent and its answer shown. A failed command fails: scripts and
/// keybindings rely on it.
pub open spec fn one_request(
    talk: Sess,
    request: RequestModel,
    view: DataView,
    json: bool,
    filters: Filters,
) -> Said<Outcome<()>> {
    let reply = exchange(talk, request);
    match reply.out {
        None => waits(reply.talk),
        Some(Err(e)) => comes_to(reply.talk, Err(e)),
        Some(Ok(ResponseModel::Success { message })) => print(reply.talk, message + "\n"@),
        Some(Ok(ResponseModel::Error { message })) => comes_to(reply.talk, Err(failure(message))),
        Some(Ok(ResponseModel::Data { data })) => show_data(reply.talk, view, data, json, filters),
    }
}

/// A command is carried out.
pub open spec fn command_said(
    talk: Sess,
    command: CommandModel,
    json: bool,
    endpoints: EndpointsModel,
) -> Said<Outcome<()>> {
    match command {
        CommandModel::Restore => stage_restore(talk),
        CommandModel::Status => status(talk, endpoints),
        CommandModel::Check => config_check(talk, endpoints, json),
        CommandModel::Request(request, view, filters) => one_request(
            talk,
            request,
            view,
            json,
            filters,
        ),
    }
}

/// Show the data of a response.
pub fn render_data(
    talk: &mut Session,
    view: DataView,
    data: String,
    json: bool,
    filters: &(Option<String>, Option<String>),
) -> (r: Option<Result<(), Error>>)
    ensures
        went(
            show_data(old(talk).deep_view(), view, data@, json, filters.deep_view()),
            *final(talk),
            r,
        ),
{
    match view {
        DataView::Windows => match talk.read_windows(data) {
            None => None,
            Some(Err(e)) => Some(Err(e.context("Failed to parse window list"))),
            Some(Ok(windows)) => {
                let windows = filter_windows(windows, filters);
                if json {
                    talk.perform(Task::PrintWindows(windows))
                } else {
                    talk.print(windows_table(&windows))
                }
            },
        },
        DataView::Ids => {
            let ids = match read_ids(data.as_str()) {
                Ok(ids) => ids,
                Err(e) => {
                    return Some(Err(e.context("Failed to parse id list")));
                },
            };
            if json {
                return match encode_ids(&ids) {
                    Ok(shown) => {
                        let mut line = shown;
                        line.append("\n");
                        talk.print(line)
                    },
                    Err(message) => Some(Err(Error::new(message.as_str()))),
                };
            }
            // The daemon reports ids alone and the table needs app ids and
            // titles, hence the extra round trip.
            match fetch_windows_matching(talk, &ids) {
                None => None,
                Some(Err(e)) => Some(Err(e)),
                Some(Ok(windows)) => {
                    let windows = sort_by_id(windows);
                    talk.print(windows_table(&windows))
                },
            }
        },
        DataView::Raw => {
            let mut line = data;
            line.append("\n");
            talk.print(line)
        },
    }
}

/// Run one parsed command.
pub fn dispatch(talk: &mut Session, cli: Cli, endpoints: &Endpoints) -> (r: Option<
    Result<(), Error>,
>)
    ensures
        went(
            command_said(
                old(talk).deep_view(),
                cli.command.deep_view(),
                cli.json,
                endpoints.deep_view(),
            ),
            *final(talk),
            r,
        ),
{
    match &cli.command {
        Commands::Stage { action: StageAction::Restore } => {
            return run_stage_restore(talk);
        },
        Commands::Config { action: ConfigAction::Check } => {
            return run_config_check(talk, endpoints, cli.json);
        },
        Commands::Status => {
            return run_status(talk, endpoints);
        },
        _ => {},
    }
    let filters: (Option<String>, Option<String>) = match &cli.command {
        Commands::Windows { app_id, title } => (app_id.clone(), title.clone()),
        _ => (None, None),
    };
    let view = data_view(&cli.command);
    let json = cli.json;
    match talk.exchange(cli.into_request()) {
        None => None,
        Some(Err(e)) => Some(Err(e)),
        Some(Ok(Response::Success { message })) => {
            let mut line = message;
            line.append("\n");
            talk.print(line)
        },
        Some(Ok(Response::Error { message })) => Some(Err(Error::new(message.as_str()))),
        Some(Ok(Response::Data { data })) => render_data(talk, view, data, json, &filters),
    }
}

/// How a command goes on.
#[derive(Debug, PartialEq)]
pub enum CommandStep {
    /// This has to be done, and the command started again with its outturn.
    Ask(Task),
    /// The command is over.
    End(Result<(), Error>),
}

/// [`CommandStep`] as a mathematical value.
pub enum CommandStepModel {
    Ask(TaskModel),
    End(Outcome<()>),
}

impl DeepView for CommandStep {
    type V = CommandStepModel;

    open spec fn deep_view(&self) -> CommandStepModel {
        match *self {
            CommandStep::Ask(task) => CommandStepModel::Ask(task.deep_view()),
            CommandStep::End(result) => CommandStepModel::End(outcome(result)),
        }
    }
}

/// How a command goes on with the outturns so far.
pub open spec fn step_of(said: Said<Outcome<()>>) -> CommandStepModel {
    match said.out {
        Some(out) => CommandStepModel::End(out),
        None => CommandStepModel::Ask(said.talk.asked.last()),
    }
}

/// Carry a command as far as the outturns go.
pub fn advance(cli: Cli, endpoints: &Endpoints, outturns: Vec<Outturn>) -> (r: CommandStep)
    ensures
        r.deep_view() == step_of(
            command_said(
                Talk::start(outturns.deep_view()),
                cli.command.deep_view(),
                cli.json,
                endpoints.deep_view(),
            ),
        ),
{
    proof {
        replay::replay_is_stable(
            cli.command.deep_view(),
            cli.json,
            endpoints.deep_view(),
            outturns.deep_view(),
            Seq::empty(),
        );
    }
    let mut talk: Session = Dialogue::new(outturns);
    match dispatch(&mut talk, cli, endpoints) {
        Some(result) => CommandStep::End(result),
        None => {
            let n: usize = talk.asked.len();
            CommandStep::Ask(talk.asked.remove(n - 1))
        },
    }
}

} // verus!
