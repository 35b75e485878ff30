//! The command line, against a daemon of given answers.
use clap::builder::RangedU64ValueParser;
use clap::error::ErrorKind;
use clap::{Arg, ArgAction, ArgMatches, Command};
use nsticky::cli::report::{
    action_label, describe_rule, ConfigReport, DaemonStatus, RuleReport, ScratchpadReport, Status,
};
use nsticky::cli::restore::{
    first_window_id, found_id, menu_text, picked_ids, prompt_text, read_ids, selected_ids,
};
use nsticky::cli::table::{filter_windows, sort_by_id, windows_table};
use nsticky::cli::task::{Outturn, Selection, Task};
use nsticky::cli::{
    advance, data_view, Cli, CommandStep, Commands, ConfigAction, DataView, Endpoints, StageAction,
    StickyAction,
};
use nsticky::config::{RuleSummary, WindowAction};
use nsticky::error::Error;
use nsticky::menu::{MenuSpec, Selector};
use nsticky::niri::WindowInfo;
use nsticky::protocol::{Request, Response};
use serde_json::Value;
use std::collections::VecDeque;

// Command lines.

fn window_id() -> Arg {
    Arg::new("window_id")
        .value_name("WINDOW_ID")
        .required(true)
        .value_parser(RangedU64ValueParser::<u64>::new())
}

fn text(id: &'static str, name: &'static str) -> Arg {
    Arg::new(id).value_name(name).required(true)
}

fn command() -> Command {
    let sub = |name: &'static str, alias: &'static str| Command::new(name).alias(alias);
    let sticky = Command::new("sticky").subcommand_required(true).subcommands([
        sub("add", "a").arg(window_id()),
        sub("remove", "r").arg(window_id()),
        sub("list", "l"),
        sub("toggle-active", "t"),
        sub("toggle-appid", "ta").arg(text("appid", "APPID")),
        sub("toggle-title", "tt").arg(text("title", "TITLE")),
    ]);
    let stage = Command::new("stage").subcommand_required(true).subcommands([
        sub("list", "l"),
        sub("add", "a").arg(window_id()),
        sub("remove", "r").arg(window_id()),
        sub("toggle-active", "t"),
        sub("toggle-appid", "ta").arg(text("appid", "APPID")),
        sub("toggle-title", "tt").arg(text("title", "TITLE")),
        sub("add-all", "aa"),
        sub("remove-all", "ra"),
        sub("restore", "rs"),
    ]);
    Command::new("nsticky")
        .subcommand_required(true)
        .arg(Arg::new("json").long("json").global(true).action(ArgAction::SetTrue))
        .subcommand(sticky)
        .subcommand(stage)
        .subcommand(Command::new("status"))
        .subcommand(Command::new("reload"))
        .subcommand(Command::new("scratchpad").arg(Arg::new("name")))
        .subcommand(
            Command::new("config")
                .subcommand_required(true)
                .subcommand(Command::new("check")),
        )
        .subcommand(
            Command::new("windows")
                .arg(Arg::new("app_id").long("app-id"))
                .arg(Arg::new("title").long("title")),
        )
}

fn string(matches: &ArgMatches, id: &str) -> Option<String> {
    matches.get_one::<String>(id).cloned()
}

fn try_parse_from<I>(args: I) -> Result<Cli, clap::Error>
where
    I: IntoIterator,
    I::Item: AsRef<str>,
{
    let args: Vec<String> = args.into_iter().map(|arg| arg.as_ref().to_string()).collect();
    let matches = command().try_get_matches_from(args)?;
    let json = matches.get_flag("json");
    let (name, sub) = matches.subcommand().unwrap();
    let command = match name {
        "sticky" => {
            let (name, sub) = sub.subcommand().unwrap();
            let id = || *sub.get_one::<u64>("window_id").unwrap();
            let action = match name {
                "add" => StickyAction::Add { window_id: id() },
                "remove" => StickyAction::Remove { window_id: id() },
                "list" => StickyAction::List,
                "toggle-active" => StickyAction::ToggleActive,
                "toggle-appid" => {
                    StickyAction::ToggleAppid { appid: string(sub, "appid").unwrap() }
                }
                _ => StickyAction::ToggleTitle { title: string(sub, "title").unwrap() },
            };
            Commands::Sticky { action }
        }
        "stage" => {
            let (name, sub) = sub.subcommand().unwrap();
            let id = || *sub.get_one::<u64>("window_id").unwrap();
            let action = match name {
                "list" => StageAction::List,
                "add" => StageAction::Add { window_id: id() },
                "remove" => StageAction::Remove { window_id: id() },
                "toggle-active" => StageAction::ToggleActive,
                "toggle-appid" => {
                    StageAction::ToggleAppid { appid: string(sub, "appid").unwrap() }
                }
                "toggle-title" => {
                    StageAction::ToggleTitle { title: string(sub, "title").unwrap() }
                }
                "add-all" => StageAction::AddAll,
                "remove-all" => StageAction::RemoveAll,
                _ => StageAction::Restore,
            };
            Commands::Stage { action }
        }
        "status" => Commands::Status,
        "reload" => Commands::Reload,
        "scratchpad" => Commands::Scratchpad { name: string(sub, "name") },
        "config" => Commands::Config { action: ConfigAction::Check },
        _ => Commands::Windows { app_id: string(sub, "app_id"), title: string(sub, "title") },
    };
    Ok(Cli { command, json })
}

// A daemon and a terminal of given answers.

fn encode(windows: &[WindowInfo]) -> String {
    let items = windows
        .iter()
        .map(|w| {
            let mut entry = serde_json::Map::new();
            entry.insert("id".to_string(), Value::from(w.id));
            entry.insert("app_id".to_string(), Value::from(w.app_id.clone()));
            entry.insert("title".to_string(), Value::from(w.title.clone()));
            Value::Object(entry)
        })
        .collect();
    Value::Array(items).to_string()
}

fn decode(data: &str) -> Result<Vec<WindowInfo>, Error> {
    let parsed: Value =
        serde_json::from_str(data).map_err(|e| Error::new(e.to_string().as_str()))?;
    let items = parsed.as_array().ok_or_else(|| Error::new("expected a sequence"))?;
    Ok(items
        .iter()
        .map(|item| WindowInfo {
            id: item["id"].as_u64().unwrap(),
            app_id: item["app_id"].as_str().map(String::from),
            title: item["title"].as_str().map(String::from),
            workspace_id: None,
            floating: false,
            size: None,
            position: None,
        })
        .collect())
}

fn texts(items: &[String]) -> Value {
    Value::Array(items.iter().map(|item| Value::from(item.as_str())).collect())
}

fn object(entries: Vec<(&str, Value)>) -> Value {
    Value::Object(entries.into_iter().map(|(key, value)| (key.to_string(), value)).collect())
}

fn pad_value(pad: &ScratchpadReport) -> Value {
    object(vec![
        ("name", Value::from(pad.name.as_str())),
        ("size", Value::from(pad.size.as_str())),
        ("float", Value::from(pad.float)),
        ("spawn", texts(&pad.spawn)),
    ])
}

fn rule_value(rule: &RuleReport) -> Value {
    object(vec![
        ("action", Value::from(rule.action.as_str())),
        ("id", Value::from(rule.id.as_str())),
        ("outputs", texts(&rule.outputs)),
        ("app_id", Value::from(rule.app_id)),
        ("title", Value::from(rule.title)),
        ("exclude_app_id", Value::from(rule.exclude_app_id)),
        ("exclude_title", Value::from(rule.exclude_title)),
    ])
}

fn report_value(report: &ConfigReport) -> Value {
    object(vec![
        ("config", Value::from(report.config.as_str())),
        ("state", Value::from(report.state.as_str())),
        ("stage_workspace", Value::from(report.stage_workspace.as_str())),
        ("stage_keep_workspace", Value::from(report.stage_keep_workspace)),
        ("scratchpad_workspace", Value::from(report.scratchpad_workspace.as_str())),
        ("sticky_follow", Value::from(report.sticky_follow.as_str())),
        ("scratchpads", Value::Array(report.scratchpads.iter().map(pad_value).collect())),
        ("menu", Value::from(report.menu.clone())),
        ("rules", Value::Array(report.rules.iter().map(rule_value).collect())),
    ])
}

/// A stand-in for the daemon and the terminal: answers the scripted replies in
/// order and records every request it saw. A request past the end of the script
/// gets an error.
struct World {
    replies: VecDeque<Result<Response, Error>>,
    seen: Vec<Request>,
    config: Result<String, Error>,
    selector: Selector,
    typed: String,
    selection: Result<Selection, String>,
    fed: Option<String>,
    out: String,
    err: String,
}

fn endpoints() -> Endpoints {
    Endpoints {
        socket: "/dir/cli.sock".to_string(),
        config: "/dir/config.toml".to_string(),
        state: "/dir/state.json".to_string(),
    }
}

impl World {
    fn start(replies: Vec<Response>) -> Self {
        Self::raw(replies.into_iter().map(Ok).collect())
    }

    /// Answer with these results, also those a healthy daemon never gives.
    fn raw(replies: Vec<Result<Response, Error>>) -> Self {
        World {
            replies: replies.into(),
            seen: Vec::new(),
            config: Err(Error::new("No such file or directory (os error 2)")),
            selector: Selector::Unavailable,
            typed: String::new(),
            selection: Ok(Selection { failed: None, output: Vec::new() }),
            fed: None,
            out: String::new(),
            err: String::new(),
        }
    }

    fn with_config(content: &str) -> Self {
        let mut world = Self::start(Vec::new());
        world.config = Ok(content.to_string());
        world
    }

    fn seen(&self) -> Vec<Request> {
        self.seen.clone()
    }

    fn perform(&mut self, task: Task) -> Outturn {
        match task {
            Task::Exchange(request) => {
                let message = format!("unscripted request: {request:?}");
                self.seen.push(request);
                match self.replies.pop_front() {
                    Some(Ok(response)) => Outturn::Response(response),
                    Some(Err(e)) => Outturn::Failed(e),
                    None => Outturn::Response(Response::Error { message }),
                }
            }
            Task::ReadConfig => match &self.config {
                Ok(text) => Outturn::Text(text.clone()),
                Err(e) => Outturn::Failed(e.clone()),
            },
            Task::ChooseSelector => Outturn::Selector(self.selector.clone()),
            Task::ReadWindows(data) => match decode(&data) {
                Ok(windows) => Outturn::Windows(windows),
                Err(e) => Outturn::Failed(e),
            },
            Task::Print(text) => {
                self.out += &text;
                Outturn::Done
            }
            Task::PrintWindows(windows) => {
                self.out += &format!("{}\n", encode(&windows));
                Outturn::Done
            }
            Task::PrintReport(report) => {
                self.out +=
                    &format!("{}\n", serde_json::to_string_pretty(&report_value(&report)).unwrap());
                Outturn::Done
            }
            Task::Notice(text) => {
                self.err += &text;
                Outturn::Done
            }
            Task::Prompt(text) => {
                self.out += &text;
                Outturn::Text(self.typed.clone())
            }
            Task::Select { command, input } => {
                self.fed = Some(input);
                match &self.selection {
                    Ok(selection) => Outturn::Selection(selection.clone()),
                    Err(cause) => Outturn::Failed(command.launch_error(cause)),
                }
            }
        }
    }

    fn run_cli(&mut self, cli: Cli) -> (Result<(), Error>, String, String) {
        let mut outturns: Vec<Outturn> = Vec::new();
        loop {
            match advance(cli.clone(), &endpoints(), outturns.clone()) {
                CommandStep::Ask(task) => {
                    let outturn = self.perform(task);
                    outturns.push(outturn);
                }
                CommandStep::End(result) => {
                    return (result, self.out.clone(), self.err.clone());
                }
            }
        }
    }

    /// Run `args` through argument parsing and the real dispatch, returning the
    /// result plus what the user would have seen on stdout and stderr.
    fn run(&mut self, args: &[&str]) -> (Result<(), Error>, String, String) {
        self.run_cli(try_parse_from(args).unwrap())
    }

    /// `stage restore` on a terminal, with `typed` on stdin.
    fn terminal_restore(&mut self, typed: &str) -> (Result<(), Error>, String, String) {
        self.selector = Selector::Terminal;
        self.typed = typed.to_string();
        self.run(&["nsticky", "stage", "restore"])
    }

    /// `stage restore` with a configured selector and no terminal.
    fn menu_restore(&mut self, spec: MenuSpec) -> (Result<(), Error>, String, String) {
        self.selector = Selector::Command(spec);
        self.run(&["nsticky", "stage", "restore"])
    }
}

fn windows_data(windows: &[WindowInfo]) -> Response {
    Response::data(encode(windows).as_str())
}

fn ids_data(ids: &[u64]) -> Response {
    Response::data(serde_json::to_string(ids).unwrap().as_str())
}

fn error_reply(message: &str) -> Response {
    Response::error(&Error::new(message))
}

/// A config exercising both parking areas, a scratchpad and multi-pattern
/// rules with exclusions.
const FULL_CONFIG: &str = r#"
menu = "rofi -dmenu"
stage-workspace = "parking"
stage-keep-workspace = true
sticky-follow = "own-output"

[scratchpad.term]
spawn = ["foot", "-a", "nsticky-term"]
width = "60%"
height = 900

[sticky.discord]
app-id = ["discord", "Vesktop"]
title = "Discord"
exclude-title = ["(muted)", "(deafened)"]

[stage.games]
app-id = ["steam"]
exclude-app-id = "steamwebhelper"
"#;

fn window(id: u64, app_id: &str, title: &str) -> WindowInfo {
    WindowInfo {
        id,
        app_id: Some(app_id.to_string()),
        title: Some(title.to_string()),
        workspace_id: None,
        floating: false,
        size: None,
        position: None,
    }
}

fn anonymous(id: u64) -> WindowInfo {
    WindowInfo {
        id,
        app_id: None,
        title: None,
        workspace_id: None,
        floating: false,
        size: None,
        position: None,
    }
}

#[test]
fn test_cli_sticky_add() {
    let cli = try_parse_from(["nsticky", "sticky", "add", "42"]).unwrap();
    assert_eq!(cli.into_request(), Request::Add { window_id: 42 });
}

#[test]
fn test_cli_sticky_remove() {
    let cli = try_parse_from(["nsticky", "sticky", "remove", "7"]).unwrap();
    assert_eq!(
        cli.into_request(),
        Request::Remove { window_id: 7 }
    );
}

#[test]
fn test_cli_sticky_list() {
    let cli = try_parse_from(["nsticky", "sticky", "list"]).unwrap();
    assert_eq!(cli.into_request(), Request::List);
}

#[test]
fn test_cli_sticky_toggle_active() {
    let cli = try_parse_from(["nsticky", "sticky", "toggle-active"]).unwrap();
    assert_eq!(cli.into_request(), Request::ToggleActive);
}

#[test]
fn test_cli_sticky_toggle_appid() {
    let cli = try_parse_from(["nsticky", "sticky", "toggle-appid", "firefox"]).unwrap();
    assert_eq!(
        cli.into_request(),
        Request::ToggleAppid {
            appid: "firefox".to_string()
        }
    );
}

#[test]
fn test_cli_sticky_toggle_title() {
    let cli = try_parse_from(["nsticky", "sticky", "toggle-title", "Gmail"]).unwrap();
    assert_eq!(
        cli.into_request(),
        Request::ToggleTitle {
            title: "Gmail".to_string()
        }
    );
}

#[test]
fn test_cli_stage_list() {
    let cli = try_parse_from(["nsticky", "stage", "list"]).unwrap();
    assert_eq!(cli.into_request(), Request::StageList);
}

#[test]
fn test_cli_stage_add() {
    let cli = try_parse_from(["nsticky", "stage", "add", "99"]).unwrap();
    assert_eq!(
        cli.into_request(),
        Request::Stage { window_id: 99 }
    );
}

#[test]
fn test_cli_stage_remove() {
    let cli = try_parse_from(["nsticky", "stage", "remove", "10"]).unwrap();
    assert_eq!(
        cli.into_request(),
        Request::Unstage { window_id: 10 }
    );
}

#[test]
fn test_cli_stage_toggle_active() {
    let cli = try_parse_from(["nsticky", "stage", "toggle-active"]).unwrap();
    assert_eq!(cli.into_request(), Request::StageToggleActive);
}

#[test]
fn test_cli_stage_toggle_appid() {
    let cli = try_parse_from(["nsticky", "stage", "toggle-appid", "chromium"]).unwrap();
    assert_eq!(
        cli.into_request(),
        Request::StageToggleAppid {
            appid: "chromium".to_string()
        }
    );
}

#[test]
fn test_cli_stage_toggle_title() {
    let cli = try_parse_from(["nsticky", "stage", "toggle-title", "Terminal"]).unwrap();
    assert_eq!(
        cli.into_request(),
        Request::StageToggleTitle {
            title: "Terminal".to_string()
        }
    );
}

#[test]
fn test_cli_stage_add_all() {
    let cli = try_parse_from(["nsticky", "stage", "add-all"]).unwrap();
    assert_eq!(cli.into_request(), Request::StageAll);
}

#[test]
fn test_cli_stage_remove_all() {
    let cli = try_parse_from(["nsticky", "stage", "remove-all"]).unwrap();
    assert_eq!(cli.into_request(), Request::UnstageAll);
}

#[test]
fn test_cli_windows() {
    let cli = try_parse_from(["nsticky", "windows"]).unwrap();
    assert_eq!(cli.into_request(), Request::Windows);
    let cli = try_parse_from(["nsticky", "windows", "--app-id", "firefox"]).unwrap();
    assert_eq!(cli.into_request(), Request::Windows);
    let cli = try_parse_from(["nsticky", "windows", "--title", "gmail"]).unwrap();
    assert_eq!(cli.into_request(), Request::Windows);
}

#[test]
fn test_cli_stage_restore() {
    let cli = try_parse_from(["nsticky", "stage", "restore"]).unwrap();
    assert!(matches!(
        cli.command,
        Commands::Stage {
            action: StageAction::Restore
        }
    ));
}

#[test]
fn test_cli_stage_restore_alias() {
    let cli = try_parse_from(["nsticky", "stage", "rs"]).unwrap();
    assert!(matches!(
        cli.command,
        Commands::Stage {
            action: StageAction::Restore
        }
    ));
}

#[test]
fn test_status_reports_a_missing_daemon() {
    let status = Status {
        socket: "/run/nsticky/cli.sock".into(),
        config: "/home/x/.config/nsticky/config.toml".into(),
        state: "/home/x/.local/state/nsticky/state.json".into(),
        daemon: None,
    };

    let rendered = status.render();
    assert!(rendered.contains("daemon: not running"), "{rendered}");
    assert!(!rendered.contains("sticky:"), "{rendered}");
}

#[test]
fn test_status_reports_counts_and_compositor_state() {
    let with_niri = Status {
        socket: "s".into(),
        config: "c".into(),
        state: "st".into(),
        daemon: Some(DaemonStatus {
            sticky: 3,
            staged: 1,
            niri_error: None,
        }),
    };
    let rendered = with_niri.render();
    assert!(rendered.contains("daemon: running"), "{rendered}");
    assert!(rendered.contains("sticky: 3 window(s)"), "{rendered}");
    assert!(rendered.contains("staged: 1 window(s)"), "{rendered}");
    assert!(rendered.contains("niri:   connected"), "{rendered}");

    let without_niri = Status {
        socket: "s".into(),
        config: "c".into(),
        state: "st".into(),
        daemon: Some(DaemonStatus {
            sticky: 0,
            staged: 0,
            niri_error: Some("NIRI_SOCKET env var not set".into()),
        }),
    };
    let rendered = without_niri.render();
    assert!(
        rendered.contains("niri:   unreachable (NIRI_SOCKET env var not set)"),
        "{rendered}"
    );
}

#[test]
fn test_describe_rule_reports_the_name_and_pattern_counts() {
    let rule = RuleSummary {
        floating: None,
        outputs: Vec::new(),
        id: "sticky.discord".to_string(),
        app_id: 3,
        title: 0,
        exclude_app_id: 0,
        exclude_title: 2,
    };
    assert_eq!(describe_rule(&rule), "discord  app-id: 3, exclude-title: 2");
}

#[test]
fn test_cli_scratchpad() {
    let cli = try_parse_from(["nsticky", "scratchpad", "term"]).unwrap();
    assert_eq!(
        cli.into_request(),
        Request::Scratchpad {
            name: Some("term".to_string())
        }
    );

    let cli = try_parse_from(["nsticky", "scratchpad"]).unwrap();
    assert_eq!(
        cli.into_request(),
        Request::Scratchpad { name: None },
        "no name toggles the focused window"
    );
}

#[test]
fn test_cli_reload() {
    let cli = try_parse_from(["nsticky", "reload"]).unwrap();
    assert_eq!(cli.into_request(), Request::Reload);
}

#[test]
fn test_cli_status() {
    let cli = try_parse_from(["nsticky", "status"]).unwrap();
    assert!(matches!(cli.command, Commands::Status));
}

#[test]
fn test_cli_config_check() {
    let cli = try_parse_from(["nsticky", "config", "check"]).unwrap();
    assert!(matches!(
        cli.command,
        Commands::Config {
            action: ConfigAction::Check
        }
    ));
}

#[test]
fn test_filter_windows_matches_case_insensitively_and_sorts() {
    let windows = vec![
        window(9, "Zen", "Inbox"),
        window(3, "foot", "Terminal"),
        window(5, "firefox", "docs"),
    ];

    let sorted = filter_windows(windows.clone(), &(None, None));
    assert_eq!(
        sorted.iter().map(|w| w.id).collect::<Vec<_>>(),
        vec![3, 5, 9]
    );

    let by_app = filter_windows(windows.clone(), &(Some("FOOT".to_string()), None));
    assert_eq!(by_app.len(), 1);
    assert_eq!(by_app[0].id, 3);

    let by_title = filter_windows(windows.clone(), &(None, Some("INBOX".to_string())));
    assert_eq!(by_title.len(), 1);
    assert_eq!(by_title[0].id, 9);

    let both = filter_windows(
        windows,
        &(Some("firefox".to_string()), Some("docs".to_string())),
    );
    assert_eq!(both.len(), 1);
    assert_eq!(both[0].id, 5);
}

#[test]
fn test_filter_windows_requires_a_value_for_a_configured_filter() {
    let missing: Vec<WindowInfo> = vec![WindowInfo {
        id: 1,
        app_id: None,
        title: None,
        workspace_id: None,
        floating: false,
        size: None,
        position: None,
    }];

    let filtered = filter_windows(missing.clone(), &(Some("x".to_string()), None));
    assert!(filtered.is_empty());
    assert_eq!(filter_windows(missing, &(None, None)).len(), 1);
}

#[test]
fn test_data_view_follows_the_command() {
    let cli = |args: &[&str]| try_parse_from(args).unwrap().command;
    assert_eq!(data_view(&cli(&["nsticky", "windows"])), DataView::Windows);
    assert_eq!(
        data_view(&cli(&["nsticky", "sticky", "list"])),
        DataView::Ids
    );
    assert_eq!(
        data_view(&cli(&["nsticky", "stage", "list"])),
        DataView::Ids
    );
    assert_eq!(
        data_view(&cli(&["nsticky", "sticky", "add", "1"])),
        DataView::Raw
    );
}

#[test]
fn test_first_window_id_reads_selector_output_lines() {
    assert_eq!(first_window_id("42\tfirefox — Inbox"), Some(42));
    assert_eq!(first_window_id("  7"), Some(7));
    assert_eq!(first_window_id("firefox — Inbox"), None);
    assert_eq!(first_window_id(""), None);
}

#[test]
fn test_cli_aliases() {
    let cli = try_parse_from(["nsticky", "sticky", "a", "5"]).unwrap();
    assert_eq!(cli.into_request(), Request::Add { window_id: 5 });
    let cli = try_parse_from(["nsticky", "sticky", "r", "3"]).unwrap();
    assert_eq!(
        cli.into_request(),
        Request::Remove { window_id: 3 }
    );
    let cli = try_parse_from(["nsticky", "sticky", "l"]).unwrap();
    assert_eq!(cli.into_request(), Request::List);
    let cli = try_parse_from(["nsticky", "sticky", "t"]).unwrap();
    assert_eq!(cli.into_request(), Request::ToggleActive);
}

#[test]
fn test_windows_table_aligns_columns_and_marks_missing_fields() {
        let long_title = "a window title long enough to run past the title column";
    let mut world = World::start(vec![windows_data(&[
            window(7, "foot", long_title),
            anonymous(12),
        ])]);

    let (result, out, _) = world.run(&["nsticky", "windows"]);
    result.unwrap();

    let lines: Vec<&str> = out.lines().collect();
    assert_eq!(lines.len(), 3, "{out}");
    assert_eq!(lines[0].find("ID"), Some(0));
    assert_eq!(lines[0].find("APP_ID"), Some(11));
    assert_eq!(lines[0].find("TITLE"), Some(37));
    assert_eq!(lines[1].find("7"), Some(0));
    assert_eq!(lines[1].find("foot"), Some(11));
    assert_eq!(lines[1].find(long_title), Some(37), "{out}");
    assert_eq!(lines[2].find("12"), Some(0));
    assert_eq!(lines[2].find("<unknown>"), Some(11), "{out}");
    assert_eq!(lines[2].rfind("<unknown>"), Some(37), "{out}");
}

#[test]
fn test_windows_table_with_no_windows_prints_the_header_only() {
        let mut world = World::start(vec![windows_data(&[])]);

    let (result, out, _) = world.run(&["nsticky", "windows"]);
    result.unwrap();
    assert_eq!(
        out, "ID         APP_ID                    TITLE\n",
        "an empty list still prints the columns"
    );
}

#[test]
fn test_windows_json_filters_by_app_id_and_sorts_by_id() {
        let mut world = World::start(vec![windows_data(&[
            window(9, "zen", "Inbox"),
            window(3, "Firefox", "Docs"),
            window(5, "firefox", "Terminal"),
        ])]);

    let (result, out, _) = world.run(&["nsticky", "windows", "--json", "--app-id", "FIRE"]);
    result.unwrap();

    let parsed: serde_json::Value = serde_json::from_str(&out).expect("valid JSON on stdout");
    let ids: Vec<u64> = parsed
        .as_array()
        .unwrap()
        .iter()
        .map(|item| item["id"].as_u64().unwrap())
        .collect();
    assert_eq!(ids, vec![3, 5], "{out}");
    assert_eq!(parsed[0]["title"], "Docs", "whole windows are reported");
}

#[test]
fn test_sticky_list_joins_the_ids_with_window_details() {
        let mut world = World::start(vec![
            ids_data(&[9, 3, 4]),
            windows_data(&[window(9, "zen", "Inbox"), window(3, "foot", "Terminal")]),
        ]);

    let (result, out, _) = world.run(&["nsticky", "sticky", "list"]);
    result.unwrap();

    assert_eq!(
        world.seen(),
        vec![Request::List, Request::Windows],
        "the table needs the window list the id-only reply lacks"
    );
    let lines: Vec<&str> = out.lines().collect();
    assert_eq!(lines.len(), 3, "{out}");
    assert!(
        lines[1].starts_with("3 ") && lines[1].contains("Terminal"),
        "{out}"
    );
    assert!(
        lines[2].starts_with("9 ") && lines[2].contains("Inbox"),
        "{out}"
    );
    assert!(
        !out.contains(" 4 "),
        "an id niri no longer has is skipped: {out}"
    );
}

#[test]
fn test_stage_list_json_needs_no_second_round_trip() {
        let mut world = World::start(vec![ids_data(&[5, 3])]);

    let (result, out, _) = world.run(&["nsticky", "stage", "list", "--json"]);
    result.unwrap();

    assert_eq!(world.seen(), vec![Request::StageList]);
    assert_eq!(serde_json::from_str::<Vec<u64>>(&out).unwrap(), vec![5, 3]);
}

#[test]
fn test_list_rejects_a_data_reply_that_is_not_an_id_array() {
        let mut world = World::start(vec![Response::data(r#"{"nope":true}"#)]);

    let (result, _, _) = world.run(&["nsticky", "sticky", "list"]);
    let message = result.unwrap_err().render();
    assert!(message.contains("Failed to parse id list"), "{message}");
}

#[test]
fn test_success_response_prints_the_daemon_message() {
        let mut world = World::start(vec![Response::success("Added window 42 to sticky")]);

    let (result, out, err) = world.run(&["nsticky", "sticky", "add", "42"]);
    result.unwrap();

    assert_eq!(out, "Added window 42 to sticky\n");
    assert!(err.is_empty(), "{err}");
    assert_eq!(
        world.seen(),
        vec![Request::Add { window_id: 42 }],
        "the parsed command is what goes over the socket"
    );
}

#[test]
fn test_daemon_error_response_fails_the_command() {
        let mut world = World::start(vec![error_reply("No window is focused")]);

    let (result, out, _) = world.run(&["nsticky", "stage", "toggle-active"]);
    let message = result.unwrap_err().render();
    assert_eq!(message, "No window is focused");
    assert!(out.is_empty(), "a failed command prints nothing: {out}");
}

#[test]
fn test_status_reports_an_unreachable_compositor() {
        let mut world = World::start(vec![
            Response::data("[]"),
            error_reply("staged list failed"),
            error_reply("NIRI_SOCKET is not set"),
        ]);

    let (result, out, _) = world.run(&["nsticky", "status"]);
    result.unwrap();

    assert!(out.contains("daemon: running"), "{out}");
    assert!(out.contains("sticky: 0 window(s)"), "{out}");
    assert!(
        out.contains("staged: 0 window(s)"),
        "a staged list the daemon could not answer counts as none: {out}"
    );
    assert!(
        out.contains("niri:   unreachable (NIRI_SOCKET is not set)"),
        "{out}"
    );
}

#[test]
fn test_unknown_subcommand_is_a_usage_error() {
    let error = try_parse_from(["nsticky", "frobnicate"]).unwrap_err();
    assert_ne!(error.exit_code(), 0);
    assert!(error.to_string().contains("frobnicate"), "{error}");
}

#[test]
fn test_missing_arguments_are_usage_errors() {
    for (args, missing) in [
        (["nsticky", "sticky", "add"], "WINDOW_ID"),
        (["nsticky", "sticky", "remove"], "WINDOW_ID"),
        (["nsticky", "stage", "toggle-appid"], "APPID"),
        (["nsticky", "stage", "toggle-title"], "TITLE"),
    ] {
        let error = try_parse_from(args).unwrap_err();
        assert_ne!(error.exit_code(), 0, "{args:?}");
        assert!(
            matches!(
                error.kind(),
                ErrorKind::MissingRequiredArgument
            ),
            "{args:?} -> {error}"
        );
        assert!(error.to_string().contains(missing), "{args:?} -> {error}");
    }
}

#[test]
fn test_a_non_numeric_window_id_is_a_usage_error() {
    let error = try_parse_from(["nsticky", "sticky", "add", "abc"]).unwrap_err();
    assert_ne!(error.exit_code(), 0);
    assert!(
        matches!(error.kind(), ErrorKind::ValueValidation),
        "{error}"
    );
    assert!(error.to_string().contains("abc"), "{error}");
}

#[test]
fn test_toggle_appid_and_toggle_title_stay_distinct() {
    for (args, expected) in [
        (
            ["nsticky", "sticky", "ta", "firefox"],
            Request::ToggleAppid {
                appid: "firefox".to_string(),
            },
        ),
        (
            ["nsticky", "sticky", "tt", "Gmail"],
            Request::ToggleTitle {
                title: "Gmail".to_string(),
            },
        ),
        (
            ["nsticky", "stage", "ta", "chromium"],
            Request::StageToggleAppid {
                appid: "chromium".to_string(),
            },
        ),
        (
            ["nsticky", "stage", "tt", "Terminal"],
            Request::StageToggleTitle {
                title: "Terminal".to_string(),
            },
        ),
    ] {
        let cli = try_parse_from(args).unwrap();
        assert_eq!(cli.into_request(), expected, "{args:?}");
    }
}

#[test]
fn test_json_flag_is_accepted_on_the_list_commands() {
    // `--json` is global, so it must work on either side of the subcommand;
    // the list commands are the ones whose output it changes.
    for args in [
        vec!["nsticky", "windows", "--json"],
        vec!["nsticky", "--json", "windows"],
        vec!["nsticky", "sticky", "list", "--json"],
        vec!["nsticky", "--json", "sticky", "list"],
        vec!["nsticky", "stage", "list", "--json"],
    ] {
        let cli = try_parse_from(&args).unwrap();
        assert!(cli.json, "{args:?}");
        assert_ne!(data_view(&cli.command), DataView::Raw, "{args:?}");
    }
}

#[test]
fn test_json_flag_parses_on_the_commands_that_ignore_it() {
    for args in [
        vec!["nsticky", "status", "--json"],
        vec!["nsticky", "reload", "--json"],
        vec!["nsticky", "config", "check", "--json"],
        vec!["nsticky", "stage", "restore", "--json"],
        vec!["nsticky", "scratchpad", "--json"],
        vec!["nsticky", "sticky", "add", "1", "--json"],
    ] {
        let cli = try_parse_from(&args).unwrap();
        assert!(cli.json, "{args:?}");
    }
}

#[test]
fn test_stage_restore_terminal_reports_an_empty_stage() {
        let mut world = World::start(vec![ids_data(&[])]);

    let (result, out, err) = world.terminal_restore("");
    result.unwrap();

    assert_eq!(out, "No staged windows.\n");
    assert!(err.is_empty(), "{err}");
    assert_eq!(
        world.seen(),
        vec![Request::StageList],
        "an empty stage prompts for nothing"
    );
}

#[test]
fn test_stage_restore_terminal_reports_windows_that_vanished() {
        let mut world = World::start(vec![
            ids_data(&[5]),
            windows_data(&[window(7, "foot", "Terminal")]),
        ]);

    let (result, out, _) = world.terminal_restore("1\n");
    result.unwrap();

    assert_eq!(out, "No active staged windows found.\n");
    assert_eq!(
        world.seen(),
        vec![Request::StageList, Request::Windows],
        "no unstage is sent for a window niri does not have"
    );
}

#[test]
fn test_stage_restore_terminal_restores_the_typed_numbers() {
        let mut world = World::start(vec![
            ids_data(&[5, 7]),
            windows_data(&[window(5, "foot", "Terminal"), window(7, "zen", "Inbox")]),
            Response::success("Unstaged window 7"),
            Response::success("Unstaged window 5"),
        ]);

    let (result, out, _) = world.terminal_restore(" 2 zz 99 0 1 \n");
    result.unwrap();

    assert_eq!(
        world.seen(),
        vec![
            Request::StageList,
            Request::Windows,
            Request::Unstage { window_id: 7 },
            Request::Unstage { window_id: 5 },
        ],
        "numbers are the prompt's 1-based positions; junk and out-of-range are skipped"
    );
    assert!(out.contains(" 1. foot — Terminal  [ID: 5]"), "{out}");
    assert!(out.contains(" 2. zen — Inbox  [ID: 7]"), "{out}");
    assert!(
        out.contains("Restore (1-2, space-separated for multiple, q): "),
        "{out}"
    );
    assert!(out.contains("Unstaged window 7"), "{out}");
    assert!(out.contains("Unstaged window 5"), "{out}");
}

#[test]
fn test_stage_restore_terminal_cancels_on_q_and_on_an_empty_line() {
    for typed in ["q\n", "Q\n", "\n"] {
                let mut world = World::start(vec![
                ids_data(&[5]),
                windows_data(&[window(5, "foot", "Terminal")]),
            ]);

        let (result, out, _) = world.terminal_restore(typed);
        result.unwrap();

        assert_eq!(
            world.seen().len(),
            2,
            "nothing is unstaged for {typed:?}: {out}"
        );
    }
}

#[test]
fn test_list_reports_a_window_lookup_that_failed() {
        let mut world = World::start(vec![
            ids_data(&[5]),
            error_reply("niri is not reachable"),
        ]);

    let (result, out, _) = world.run(&["nsticky", "sticky", "list"]);

    assert_eq!(
        result.unwrap_err().render(),
        "niri is not reachable"
    );
    assert!(out.is_empty(), "no table without the window details: {out}");
    assert_eq!(
        world.seen(),
        vec![Request::List, Request::Windows]
    );
}

#[test]
fn test_stage_restore_terminal_stops_when_an_unstage_is_refused() {
        let mut world = World::start(vec![
            ids_data(&[5, 7]),
            windows_data(&[window(5, "foot", "Terminal"), window(7, "zen", "Inbox")]),
            Response::success("Unstaged window 5"),
            error_reply("Window 7 is gone"),
        ]);

    let (result, out, _) = world.terminal_restore("1 2\n");

    assert_eq!(result.unwrap_err().render(), "Window 7 is gone");
    assert!(
        out.contains("Unstaged window 5"),
        "what already happened stays reported: {out}"
    );
    assert_eq!(
        world.seen().len(),
        4,
        "the refused window is not retried and the rest is not attempted"
    );
}

#[test]
fn test_config_report_is_machine_readable() {
    let rule = RuleSummary {
        floating: None,
        outputs: Vec::new(),
        id: "stage.games".to_string(),
        app_id: 2,
        title: 0,
        exclude_app_id: 0,
        exclude_title: 1,
    };
    let report = ConfigReport {
        config: "/home/x/.config/nsticky/config.toml".to_string(),
        state: "/home/x/.local/state/nsticky/state.json".to_string(),
        stage_workspace: "parking".to_string(),
        stage_keep_workspace: false,
        scratchpad_workspace: "scratchpad".to_string(),
        sticky_follow: "own-output".to_string(),
        scratchpads: Vec::new(),
        menu: Some("rofi -dmenu".to_string()),
        rules: vec![RuleReport {
            action: action_label(WindowAction::Stage).to_string(),
            id: rule.id.clone(),
            outputs: rule.outputs.clone(),
            app_id: rule.app_id,
            title: rule.title,
            exclude_app_id: rule.exclude_app_id,
            exclude_title: rule.exclude_title,
        }],
    };

    let json = report_value(&report);
    assert_eq!(json["stage_workspace"], "parking");
    assert_eq!(json["scratchpad_workspace"], "scratchpad");
    assert_eq!(json["sticky_follow"], "own-output");
    assert_eq!(json["menu"], "rofi -dmenu");
    assert_eq!(json["rules"][0]["action"], "stage");
    assert_eq!(json["rules"][0]["id"], "stage.games");
    assert_eq!(json["rules"][0]["app_id"], 2);
    assert_eq!(json["rules"][0]["exclude_title"], 1);
}

/// What a reply that is no JSON comes to.
fn malformed() -> Error {
    Error::new("EOF while parsing a value at line 1 column 10")
        .context("Invalid JSON response from daemon")
}

#[test]
fn test_malformed_daemon_reply_is_an_error() {
    let mut world = World::raw(vec![Err(malformed())]);
    let (result, out, _) = world.run(&["nsticky", "reload"]);
    assert_eq!(result.unwrap_err().message(), "Invalid JSON response from daemon");
    assert!(out.is_empty(), "{out}");
}

#[test]
fn test_status_treats_a_malformed_reply_as_no_daemon() {
    let mut world = World::raw(vec![Err(malformed())]);
    let (result, out, _) = world.run(&["nsticky", "status"]);
    assert!(result.is_err());
    assert!(out.contains("daemon: not running"), "{out}");
}

#[test]
fn test_status_fails_fast_when_no_daemon_is_listening() {
    let mut world = World::raw(vec![Err(Error::new("No such file or directory"))]);
    let (result, out, _) = world.run(&["nsticky", "status"]);

    assert_eq!(result.unwrap_err().render(), "The nsticky daemon is not running");
    assert!(out.contains("daemon: not running"), "{out}");
    assert!(
        out.contains(&endpoints().socket),
        "the report still says which socket was tried: {out}"
    );
    assert_eq!(world.seen(), vec![Request::List]);
}

#[test]
fn test_status_prints_the_daemon_and_compositor_state() {
    let mut world = World::start(vec![
        ids_data(&[1, 2, 3]),
        ids_data(&[7]),
        windows_data(&[window(1, "foot", "Terminal")]),
    ]);

    let (result, out, _) = world.run(&["nsticky", "status"]);
    result.unwrap();

    assert_eq!(
        out,
        "socket: /dir/cli.sock\nconfig: /dir/config.toml\nstate:  /dir/state.json\ndaemon: running\n\
         sticky: 3 window(s)\nstaged: 1 window(s)\nniri:   connected\n"
    );
    assert_eq!(world.seen(), vec![Request::List, Request::StageList, Request::Windows]);
}

#[test]
fn test_status_reports_a_compositor_probe_that_answered_badly() {
    // The window-list probe answers with a message instead of a list: the
    // report says so rather than claiming niri is connected.
    let mut world =
        World::start(vec![ids_data(&[]), ids_data(&[]), Response::success("handled")]);
    let (result, out, _) = world.run(&["nsticky", "status"]);
    result.unwrap();
    assert!(
        out.contains(
            r#"niri:   unreachable (unexpected response: Success { message: "handled" })"#
        ),
        "{out}"
    );

    // And one that stops speaking the protocol mid-report.
    let mut world =
        World::raw(vec![Ok(ids_data(&[])), Ok(ids_data(&[])), Err(malformed())]);
    let (result, out, _) = world.run(&["nsticky", "status"]);
    result.unwrap();
    assert!(
        out.contains("niri:   unreachable (Invalid JSON response from daemon"),
        "{out}"
    );
}

#[test]
fn test_config_check_prints_the_parsed_configuration() {
    let mut world = World::with_config(FULL_CONFIG);
    let (result, text, _) = world.run(&["nsticky", "config", "check"]);
    result.unwrap();
    assert_eq!(
        text.lines().map(str::trim_end).collect::<Vec<_>>(),
        vec![
            "config:          /dir/config.toml",
            "state:           /dir/state.json",
            "stage workspace: parking (kept while empty: true)",
            "scratchpad:      scratchpad (windows parked there)",
            "sticky follow:   own-output",
            "menu:            rofi -dmenu",
            "scratchpads:",
            "  term     60%x900px    floating spawn: foot -a nsticky-term",
            "rules:",
            "  sticky discord  app-id: 2, title: 1, exclude-title: 2",
            "  stage  games  app-id: 1, exclude-app-id: 1",
        ],
        "{text}"
    );
}

/// Sorted keys, so the shape is compared and not the order of the fields.
fn keys(value: &Value) -> Vec<&str> {
    let mut keys: Vec<&str> = value.as_object().unwrap().keys().map(String::as_str).collect();
    keys.sort();
    keys
}

#[test]
fn test_config_check_json_has_the_documented_shape() {
    let mut world = World::with_config(FULL_CONFIG);
    let (result, out, _) = world.run(&["nsticky", "config", "check", "--json"]);
    result.unwrap();
    let report: Value = serde_json::from_str(&out).unwrap();

    assert_eq!(
        keys(&report),
        vec![
            "config",
            "menu",
            "rules",
            "scratchpad_workspace",
            "scratchpads",
            "stage_keep_workspace",
            "stage_workspace",
            "state",
            "sticky_follow",
        ]
    );
    assert_eq!(report["config"], endpoints().config);
    assert_eq!(report["state"], endpoints().state);
    assert_eq!(report["stage_workspace"], "parking");
    assert_eq!(report["stage_keep_workspace"], true);
    assert_eq!(report["scratchpad_workspace"], "scratchpad");
    assert_eq!(report["sticky_follow"], "own-output");
    assert_eq!(report["menu"], "rofi -dmenu");

    assert_eq!(
        keys(&report["rules"][0]),
        vec!["action", "app_id", "exclude_app_id", "exclude_title", "id", "outputs", "title"]
    );
    assert_eq!(report["rules"][0]["action"], "sticky");
    assert_eq!(report["rules"][0]["id"], "sticky.discord");
    assert_eq!(report["rules"][0]["app_id"], 2);
    assert_eq!(report["rules"][0]["title"], 1);
    assert_eq!(report["rules"][0]["exclude_app_id"], 0);
    assert_eq!(report["rules"][0]["exclude_title"], 2);
    assert_eq!(report["rules"][0]["outputs"], Value::Array(Vec::new()));
    assert_eq!(report["rules"][1]["action"], "stage");
    assert_eq!(report["rules"][1]["id"], "stage.games");

    assert_eq!(keys(&report["scratchpads"][0]), vec!["float", "name", "size", "spawn"]);
    assert_eq!(report["scratchpads"][0]["name"], "term");
    assert_eq!(report["scratchpads"][0]["size"], "60%x900px");
    assert_eq!(report["scratchpads"][0]["float"], true);
    assert_eq!(
        report["scratchpads"][0]["spawn"],
        serde_json::from_str::<Value>(r#"["foot", "-a", "nsticky-term"]"#).unwrap()
    );
}

#[test]
fn test_config_check_reports_a_bad_regex_with_the_rule_and_field() {
    let mut world = World::with_config("[sticky.discord]\napp-id = \"(\"\n");
    let (result, out, _) = world.run(&["nsticky", "config", "check"]);
    let message = result.unwrap_err().render();
    assert!(message.contains("sticky.discord"), "{message}");
    assert!(message.contains("app-id"), "{message}");
    assert!(
        message.contains(&endpoints().config),
        "the failing file is named: {message}"
    );
    assert!(out.is_empty(), "nothing is printed for a config that does not load");
}

#[test]
fn test_config_check_reports_a_config_that_is_not_toml() {
    let mut world = World::with_config("stage-workspace =\n");
    let (result, out, _) = world.run(&["nsticky", "config", "check"]);
    let message = result.unwrap_err().render();
    assert!(message.contains("Failed to parse TOML"), "{message}");
    assert!(out.is_empty());
}

#[test]
fn test_config_check_reports_an_unreadable_config() {
    let mut world = World::start(Vec::new());
    let (result, _, _) = world.run(&["nsticky", "config", "check"]);
    let message = result.unwrap_err().render();
    assert!(message.contains("Failed to read config"), "{message}");
    assert!(message.contains("config.toml"), "{message}");
}

#[test]
fn test_config_check_json_drops_a_rule_without_a_positive_field() {
    let mut world = World::with_config("[sticky.solitaire]\nexclude-title = \"Klondike\"\n");
    let (result, out, _) = world.run(&["nsticky", "config", "check", "--json"]);
    result.unwrap();
    let report: Value = serde_json::from_str(&out).unwrap();
    assert_eq!(
        report["rules"],
        Value::Array(Vec::new()),
        "an exclusion on its own would match every window"
    );
}

#[test]
fn test_config_check_prints_the_defaults_of_an_empty_config() {
    let mut world = World::with_config("");
    let (result, text, _) = world.run(&["nsticky", "config", "check"]);
    result.unwrap();
    assert_eq!(
        text.lines().map(str::trim_end).collect::<Vec<_>>(),
        vec![
            "config:          /dir/config.toml",
            "state:           /dir/state.json",
            "stage workspace: stage (kept while empty: false)",
            "scratchpad:      scratchpad (windows parked there)",
            "sticky follow:   focused",
            "menu:            (none, `stage restore` falls back to the terminal)",
            "scratchpads:     (none)",
            "rules:           (none)",
        ],
        "{text}"
    );
}

#[test]
fn test_config_check_lists_a_scratchpad_with_no_spawn_command() {
    let mut world = World::with_config("[scratchpad.plain]\nfloat = false\n");
    let (result, text, _) = world.run(&["nsticky", "config", "check"]);
    result.unwrap();
    let row = text
        .lines()
        .find(|line| line.trim_start().starts_with("plain"))
        .unwrap_or_else(|| panic!("no scratchpad row in:\n{text}"));
    assert_eq!(row.find("plain"), Some(2), "{row}");
    assert_eq!(row.find("autoxauto"), Some(11), "{row}");
    assert_eq!(row.find("tiled"), Some(24), "{row}");
    assert_eq!(row.find("(no spawn command)"), Some(33), "{row}");
}

#[test]
fn test_stage_restore_without_a_selector_says_what_to_configure() {
    let mut world = World::start(vec![ids_data(&[5])]);
    let (result, out, _) = world.run(&["nsticky", "stage", "restore"]);

    let message = result.unwrap_err().render();
    assert_eq!(
        message,
        "No selector available: stdin is not a terminal and no `menu` is configured.\n\
         Set one in config.toml or NSTICKY_MENU, for example:\n\
         \tmenu = \"vicinae dmenu --placeholder 'Restore Window:'\"\n\
         Recommended selector: Vicinae (https://www.vicinae.com/)\n\
         Known selectors: vicinae, rofi, fuzzel, wofi, pantry"
    );
    assert!(out.is_empty(), "nothing is restored");
    assert_eq!(world.seen(), vec![Request::StageList]);
}

#[test]
fn test_stage_restore_menu_restores_what_the_selector_prints() {
    let mut world = World::start(vec![
        ids_data(&[5, 7]),
        windows_data(&[window(5, "foot", "Terminal"), window(7, "zen", "Inbox")]),
        Response::success("Unstaged window 7"),
    ]);
    world.selection = Ok(Selection { failed: None, output: b"7\n".to_vec() });

    let (result, out, err) = world.menu_restore(MenuSpec::Args(vec!["selector".to_string()]));
    result.unwrap();

    assert_eq!(
        world.fed.as_deref(),
        Some("5\tfoot — Terminal\n7\tzen — Inbox"),
        "the selector is fed one id-first line per staged window"
    );
    assert_eq!(
        world.seen().last(),
        Some(&Request::Unstage { window_id: 7 }),
        "the id the selector printed is the window that gets unstaged"
    );
    assert!(out.contains("Unstaged window 7"), "{out}");
    assert!(err.is_empty(), "{err}");
}

#[test]
fn test_stage_restore_opens_the_selector_even_with_nothing_staged() {
    let mut world = World::start(vec![ids_data(&[]), windows_data(&[])]);
    world.selection =
        Ok(Selection { failed: Some("exit status: 3".to_string()), output: Vec::new() });

    let (result, out, err) = world.menu_restore(MenuSpec::Args(vec!["selector".to_string()]));
    result.unwrap();

    assert_eq!(
        world.seen(),
        vec![Request::StageList, Request::Windows],
        "the selector is opened so its empty state is visible"
    );
    assert!(out.is_empty(), "{out}");
    assert_eq!(
        err,
        "Menu exited with exit status: 3\n\ncommand:\n    selector\n\nprogram:\n    selector\n\narguments:\n    []\n"
    );
}

#[test]
fn test_stage_restore_reports_a_selector_that_cannot_be_launched() {
    let mut world = World::start(vec![ids_data(&[]), windows_data(&[])]);
    world.selection = Err("No such file or directory (os error 2)".to_string());
    let (result, _, _) = world.menu_restore(MenuSpec::CommandLine(
        "/nonexistent/nsticky-selector --dmenu".to_string(),
    ));

    let message = result.unwrap_err().render();
    assert!(message.contains("Failed to launch menu"), "{message}");
    assert!(message.contains("/nonexistent/nsticky-selector"), "{message}");
}

#[test]
fn test_stage_restore_reports_a_stage_list_that_failed() {
    let mut world = World::start(vec![error_reply("niri is not reachable")]);
    let (result, out, err) = world.menu_restore(MenuSpec::Args(vec!["selector".to_string()]));

    assert_eq!(result.unwrap_err().render(), "niri is not reachable");
    assert!(out.is_empty() && err.is_empty(), "{out}{err}");
    assert!(
        world.fed.is_none(),
        "the selector is not launched when the staged list cannot be read"
    );
}

#[test]
fn a_menu_that_cannot_be_read_is_not_run() {
    let mut world = World::start(vec![ids_data(&[]), windows_data(&[])]);
    let (result, _, _) = world.menu_restore(MenuSpec::CommandLine("rofi 'open".to_string()));
    let message = result.unwrap_err().render();
    assert!(message.contains("invalid menu command syntax"), "{message}");
    assert!(world.fed.is_none());
}

#[test]
fn an_answer_of_the_wrong_kind_is_quoted() {
    let mut world = World::start(vec![Response::success("hm")]);
    let (result, _, _) = world.terminal_restore("");
    assert_eq!(
        result.unwrap_err().render(),
        r#"Unexpected daemon response: Success { message: "hm" }"#
    );

    let mut world = World::start(vec![
        ids_data(&[5]),
        windows_data(&[window(5, "foot", "Terminal")]),
        Response::data("[]"),
    ]);
    let (result, _, _) = world.terminal_restore("1\n");
    assert_eq!(
        result.unwrap_err().render(),
        r#"Unexpected daemon response: Data { data: "[]" }"#
    );
}

#[test]
fn windows_that_cannot_be_read_fail_the_command() {
    let mut world = World::start(vec![Response::data("{")]);
    let (result, _, _) = world.run(&["nsticky", "windows"]);
    assert_eq!(result.unwrap_err().message(), "Failed to parse window list");
}

#[test]
fn every_line_of_a_selector_is_read() {
    assert_eq!(selected_ids(&b"7\r\nnothing\n 12\tfoot\n3".to_vec()), vec![7, 12, 3]);
    // What is not UTF-8 does not hide the ids around it.
    assert_eq!(selected_ids(&b"\xff 4\n5 \xfe\n".to_vec()), vec![4, 5]);
    assert_eq!(selected_ids(&b"".to_vec()), Vec::<u64>::new());
}

#[test]
fn an_id_that_does_not_fit_is_no_id() {
    assert_eq!(first_window_id("18446744073709551615"), Some(u64::MAX));
    assert_eq!(first_window_id("18446744073709551616"), None);
    assert_eq!(found_id(Some("42".to_string())), Some(42));
    assert_eq!(found_id(Some("4x".to_string())), None);
    assert_eq!(found_id(None), None);
}

#[test]
fn numbers_of_the_prompt_pick_windows() {
    let staged = vec![window(5, "foot", "Terminal"), anonymous(7)];
    assert_eq!(
        prompt_text(&staged),
        "\n 1. foot — Terminal  [ID: 5]\n 2. ? — ?  [ID: 7]\n\nRestore (1-2, space-separated for multiple, q): "
    );
    assert_eq!(picked_ids(&staged, "2 1 3 x 0 18446744073709551616 2\n"), vec![7, 5, 7]);
    assert_eq!(picked_ids(&staged, " q \n"), Vec::<u64>::new());
    assert_eq!(menu_text(&staged), "5\tfoot — Terminal\n7\t? — ?");
}

#[test]
fn listed_ids_are_read_back() {
    assert_eq!(read_ids("[]").unwrap(), Vec::<u64>::new());
    assert_eq!(read_ids("[3,18446744073709551615]").unwrap(), vec![3, u64::MAX]);
    assert!(read_ids("[-1]").is_err());
}

#[test]
fn sorting_keeps_windows_with_the_same_id_in_their_order() {
    let windows = vec![window(9, "a", "1"), window(3, "b", "2"), window(9, "c", "3")];
    let sorted = sort_by_id(windows);
    let seen: Vec<&str> = sorted.iter().map(|w| w.app_id.as_deref().unwrap()).collect();
    assert_eq!(seen, ["b", "a", "c"]);
}

#[test]
fn the_table_has_fixed_columns() {
    assert_eq!(
        windows_table(&vec![window(7, "foot", "x")]),
        "ID         APP_ID                    TITLE\n7          foot                      x\n"
    );
}

#[test]
fn endpoints_follow_the_environment() {
    assert_eq!(
        Endpoints::from_env(Some("/run/user/1"), Some("/c"), Some("/s"), Some("/d")),
        Endpoints {
            socket: "/run/user/1/nsticky/cli.sock".to_string(),
            config: "/c/nsticky/config.toml".to_string(),
            state: "/s/nsticky/state.json".to_string(),
        }
    );
}

#[test]
fn a_command_that_is_started_again_asks_the_same_first() {
    let cli = try_parse_from(["nsticky", "sticky", "list"]).unwrap();
    let one = vec![Outturn::Response(ids_data(&[5]))];
    let mut two = one.clone();
    two.push(Outturn::Response(windows_data(&[])));
    let ask = |outturns: Vec<Outturn>| advance(cli.clone(), &endpoints(), outturns);
    assert_eq!(ask(Vec::new()), CommandStep::Ask(Task::Exchange(Request::List)));
    assert_eq!(ask(one), CommandStep::Ask(Task::Exchange(Request::Windows)));
    assert_eq!(ask(two), CommandStep::Ask(Task::ReadWindows("[]".to_string())));
    // An outturn of the wrong kind ends the command.
    assert_eq!(
        ask(vec![Outturn::Done]),
        CommandStep::End(Err(Error::new("Unexpected reply")))
    );
}

#[test]
fn lines_that_a_selector_gives_back_name_their_windows() {
    let window = |id: u64, title: &str| nsticky::niri::WindowInfo {
        id,
        app_id: None,
        title: Some(title.to_string()),
        workspace_id: None,
        floating: false,
        size: None,
        position: None,
    };
    let staged = vec![window(7, "2 of 3"), window(18446744073709551615, " "), window(0, "")];

    let input = nsticky::cli::restore::menu_text(&staged);

    assert_eq!(
        nsticky::cli::restore::selected_ids(&input.into_bytes()),
        vec![7, 18446744073709551615, 0]
    );
}
