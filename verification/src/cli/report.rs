//! What `config check` and `status` tell.
use vstd::prelude::*;
use vstd::string::*;
use crate::config::{
    follow_name, pad_named, pad_names, pad_size, reported, summary_parts, Config, ConfigModel,
    PadModel, RuleSummary, SummaryModel, WindowAction,
};
use crate::error::copy_texts;
use crate::lists;
use crate::menu::described;
use crate::text;

verus! {

/// Machine-readable form of `nsticky config check`.
#[derive(Debug, PartialEq, Eq)]
pub struct ConfigReport {
    pub config: String,
    pub state: String,
    pub stage_workspace: String,
    pub stage_keep_workspace: bool,
    pub scratchpad_workspace: String,
    pub sticky_follow: String,
    pub scratchpads: Vec<ScratchpadReport>,
    pub menu: Option<String>,
    pub rules: Vec<RuleReport>,
}

/// A scratchpad in a report.
#[derive(Debug, PartialEq, Eq)]
pub struct ScratchpadReport {
    pub name: String,
    pub size: String,
    pub float: bool,
    pub spawn: Vec<String>,
}

/// A rule in a report.
#[derive(Debug, PartialEq, Eq)]
pub struct RuleReport {
    pub action: String,
    pub id: String,
    pub outputs: Vec<String>,
    pub app_id: usize,
    pub title: usize,
    pub exclude_app_id: usize,
    pub exclude_title: usize,
}

/// [`ConfigReport`] as a mathematical value.
#[verifier::ext_equal]
pub struct ReportModel {
    pub config: Seq<char>,
    pub state: Seq<char>,
    pub stage_workspace: Seq<char>,
    pub stage_keep_workspace: bool,
    pub scratchpad_workspace: Seq<char>,
    pub sticky_follow: Seq<char>,
    pub scratchpads: Seq<PadReportModel>,
    pub menu: Option<Seq<char>>,
    pub rules: Seq<RuleReportModel>,
}

/// [`ScratchpadReport`] as a mathematical value.
#[verifier::ext_equal]
pub struct PadReportModel {
    pub name: Seq<char>,
    pub size: Seq<char>,
    pub float: bool,
    pub spawn: Seq<Seq<char>>,
}

/// [`RuleReport`] as a mathematical value.
#[verifier::ext_equal]
pub struct RuleReportModel {
    pub action: Seq<char>,
    pub id: Seq<char>,
    pub outputs: Seq<Seq<char>>,
    pub app_id: nat,
    pub title: nat,
    pub exclude_app_id: nat,
    pub exclude_title: nat,
}

impl DeepView for ConfigReport {
    type V = ReportModel;

    open spec fn deep_view(&self) -> ReportModel {
        ReportModel {
            config: self.config@,
            state: self.state@,
            stage_workspace: self.stage_workspace@,
            stage_keep_workspace: self.stage_keep_workspace,
            scratchpad_workspace: self.scratchpad_workspace@,
            sticky_follow: self.sticky_follow@,
            scratchpads: self.scratchpads.deep_view(),
            menu: self.menu.deep_view(),
            rules: self.rules.deep_view(),
        }
    }
}

impl DeepView for ScratchpadReport {
    type V = PadReportModel;

    open spec fn deep_view(&self) -> PadReportModel {
        PadReportModel {
            name: self.name@,
            size: self.size@,
            float: self.float,
            spawn: self.spawn.deep_view(),
        }
    }
}

impl DeepView for RuleReport {
    type V = RuleReportModel;

    open spec fn deep_view(&self) -> RuleReportModel {
        RuleReportModel {
            action: self.action@,
            id: self.id@,
            outputs: self.outputs.deep_view(),
            app_id: self.app_id as nat,
            title: self.title as nat,
            exclude_app_id: self.exclude_app_id as nat,
            exclude_title: self.exclude_title as nat,
        }
    }
}

/// The name of an action.
pub open spec fn action_name(action: WindowAction) -> Seq<char> {
    match action {
        WindowAction::Sticky => "sticky"@,
        WindowAction::Stage => "stage"@,
    }
}

/// The name of an action.
pub fn action_label(action: WindowAction) -> (r: &'static str)
    ensures
        r@ == action_name(action),
{
    match action {
        WindowAction::Sticky => "sticky",
        WindowAction::Stage => "stage",
    }
}

/// What is reported of a scratchpad.
pub open spec fn pad_report(pad: PadModel) -> PadReportModel {
    PadReportModel {
        name: pad.name,
        size: pad_size(pad),
        float: pad.float,
        spawn: match pad.spawn {
            Some(command) => command,
            None => Seq::empty(),
        },
    }
}

/// The scratchpad of a name, as it is reported.
pub open spec fn named_report(config: ConfigModel) -> spec_fn(Seq<char>) -> Option<PadReportModel> {
    |name: Seq<char>|
        match lists::find(config.scratchpads, pad_named(name)) {
            Some(pad) => Some(pad_report(pad)),
            None => None,
        }
}

/// The scratchpads of a configuration, as they are reported.
pub open spec fn pad_reports(config: ConfigModel) -> Seq<PadReportModel> {
    pad_names(config).filter_map(named_report(config))
}

/// What is reported of a rule.
pub open spec fn rule_report() -> spec_fn((WindowAction, SummaryModel)) -> RuleReportModel {
    |rule: (WindowAction, SummaryModel)|
        RuleReportModel {
            action: action_name(rule.0),
            id: rule.1.id,
            outputs: rule.1.outputs,
            app_id: rule.1.app_id,
            title: rule.1.title,
            exclude_app_id: rule.1.exclude_app_id,
            exclude_title: rule.1.exclude_title,
        }
}

/// The rules of a configuration, those for sticky windows first.
pub open spec fn rules_of(config: ConfigModel) -> Seq<(WindowAction, SummaryModel)> {
    reported(config.sticky_rules, WindowAction::Sticky) + reported(config.stage_rules, WindowAction::Stage)
}

/// What is reported of a configuration.
pub open spec fn report_of(config: ConfigModel, path: Seq<char>, state: Seq<char>) -> ReportModel {
    ReportModel {
        config: path,
        state,
        stage_workspace: config.stage_workspace,
        stage_keep_workspace: config.stage_keep_workspace,
        scratchpad_workspace: config.scratchpad_workspace,
        sticky_follow: follow_name(config.sticky_follow),
        scratchpads: pad_reports(config),
        menu: match config.menu {
            Some(menu) => Some(described(menu)),
            None => None,
        },
        rules: rules_of(config).map_values(rule_report()),
    }
}

/// Configured scratchpads, for `config check` (text and JSON).
pub fn describe_scratchpads(config: &Config) -> (r: Vec<ScratchpadReport>)
    ensures
        r.deep_view() == pad_reports(config.deep_view()),
{
    let names = config.scratchpad_names();
    let ghost all = names.deep_view();
    let ghost report = named_report(config.deep_view());
    let mut reports: Vec<ScratchpadReport> = Vec::new();
    let mut i: usize = 0;
    assert(reports.deep_view() =~= all.take(0).filter_map(report));
    while i < names.len()
        invariant
            i <= names@.len(),
            all == names.deep_view(),
            report == named_report(config.deep_view()),
            reports.deep_view() == all.take(i as int).filter_map(report),
        decreases names.len() - i,
    {
        proof {
            all.lemma_filter_map_take_succ(report, i as int);
        }
        let ghost before = reports.deep_view();
        if let Some(pad) = config.scratchpad(names[i].as_str()) {
            let spawn = match &pad.spawn {
                Some(command) => copy_texts(command),
                None => Vec::new(),
            };
            assert(pad.spawn is None ==> spawn.deep_view() =~= Seq::<Seq<char>>::empty());
            let one = ScratchpadReport {
                name: pad.name.clone(),
                size: pad.describe_size(),
                float: pad.float,
                spawn,
            };
            reports.push(one);
            assert(reports.deep_view() =~= before + seq![one.deep_view()]);
        }
        i = i + 1;
    }
    assert(all.take(i as int) =~= all);
    reports
}

fn describe_rules(config: &Config) -> (r: Vec<RuleReport>)
    ensures
        r.deep_view() == rules_of(config.deep_view()).map_values(rule_report()),
{
    let rules = config.rules();
    let ghost all = rules.deep_view();
    let mut reports: Vec<RuleReport> = Vec::new();
    let mut i: usize = 0;
    while i < rules.len()
        invariant
            i <= rules@.len(),
            all == rules.deep_view(),
            reports.deep_view() =~= all.take(i as int).map_values(rule_report()),
        decreases rules.len() - i,
    {
        let ghost before = reports.deep_view();
        assert(all[i as int] == rules@[i as int].deep_view());
        let (action, rule) = &rules[i];
        let one = RuleReport {
            action: action_label(*action).to_owned(),
            id: rule.id.clone(),
            outputs: copy_texts(&rule.outputs),
            app_id: rule.app_id,
            title: rule.title,
            exclude_app_id: rule.exclude_app_id,
            exclude_title: rule.exclude_title,
        };
        reports.push(one);
        assert(one.deep_view() == rule_report()(all[i as int]));
        assert(reports.deep_view() =~= before.push(one.deep_view()));
        i = i + 1;
    }
    assert(all.take(i as int) =~= all);
    reports
}

/// What is reported of a configuration.
pub fn config_report(config: &Config, path: &str, state: &str) -> (r: ConfigReport)
    ensures
        r.deep_view() == report_of(config.deep_view(), path@, state@),
{
    ConfigReport {
        config: path.to_owned(),
        state: state.to_owned(),
        stage_workspace: config.stage_workspace().to_owned(),
        stage_keep_workspace: config.stage_keep_workspace(),
        scratchpad_workspace: config.scratchpad_workspace().to_owned(),
        sticky_follow: config.sticky_follow().as_str().to_owned(),
        scratchpads: describe_scratchpads(config),
        menu: match config.menu() {
            Some(menu) => Some(menu.describe()),
            None => None,
        },
        rules: describe_rules(config),
    }
}

// The same as text.

/// One line of a report.
pub open spec fn line(label: Seq<char>, value: Seq<char>) -> Seq<char> {
    label + value + "\n"@
}

/// One line of a report, added to those before it.
pub fn push_line(out: &mut String, label: &str, value: &str)
    ensures
        final(out)@ == old(out)@ + line(label@, value@),
{
    let ghost before = out@;
    out.append(label);
    out.append(value);
    out.append("\n");
    assert(out@ =~= before + line(label@, value@));
}

/// The command that starts a scratchpad, as it is shown.
pub open spec fn spawn_shown(spawn: Seq<Seq<char>>) -> Seq<char> {
    if spawn.len() == 0 {
        "(no spawn command)"@
    } else {
        "spawn: "@ + text::joined(spawn, " "@)
    }
}

/// A scratchpad as a line.
pub open spec fn pad_line(pad: PadReportModel) -> Seq<char> {
    line(
        "  "@,
        text::padded(pad.name, 8) + " "@ + text::padded(pad.size, 12) + " "@ + text::padded(
            if pad.float {
                "floating"@
            } else {
                "tiled"@
            },
            8,
        ) + " "@ + spawn_shown(pad.spawn),
    )
}

/// Scratchpads, one in a line.
pub open spec fn pad_lines(pads: Seq<PadReportModel>) -> Seq<char>
    decreases pads.len(),
{
    if pads.len() == 0 {
        Seq::empty()
    } else {
        pad_lines(pads.drop_last()) + pad_line(pads.last())
    }
}

/// The name of a rule without its section.
pub open spec fn rule_name(id: Seq<char>) -> Seq<char> {
    match text::after_first(id, '.') {
        Some(name) => name,
        None => id,
    }
}

/// A rule in words.
pub open spec fn rule_shown(rule: SummaryModel) -> Seq<char> {
    rule_name(rule.id) + "  "@ + text::joined(summary_parts(rule), ", "@)
}

/// A rule as a line.
pub open spec fn rule_line(rule: (WindowAction, SummaryModel)) -> Seq<char> {
    line("  "@, text::padded(action_name(rule.0), 6) + " "@ + rule_shown(rule.1))
}

/// Rules, one in a line.
pub open spec fn rule_lines(rules: Seq<(WindowAction, SummaryModel)>) -> Seq<char>
    decreases rules.len(),
{
    if rules.len() == 0 {
        Seq::empty()
    } else {
        rule_lines(rules.drop_last()) + rule_line(rules.last())
    }
}

/// A truth value in words.
pub open spec fn truth(b: bool) -> Seq<char> {
    if b {
        "true"@
    } else {
        "false"@
    }
}

/// What `config check` prints of a configuration.
pub open spec fn check_text(config: ConfigModel, path: Seq<char>, state: Seq<char>) -> Seq<char> {
    let pads = pad_reports(config);
    let rules = rules_of(config);
    line("config:          "@, path) + line("state:           "@, state) + line(
        "stage workspace: "@,
        config.stage_workspace + " (kept while empty: "@ + truth(config.stage_keep_workspace)
            + ")"@,
    ) + line("scratchpad:      "@, config.scratchpad_workspace + " (windows parked there)"@) + line(
        "sticky follow:   "@,
        follow_name(config.sticky_follow),
    ) + line(
        "menu:            "@,
        match config.menu {
            Some(menu) => described(menu),
            None => "(none, `stage restore` falls back to the terminal)"@,
        },
    ) + line(
        "scratchpads:"@,
        if pads.len() == 0 {
            "     (none)"@
        } else {
            ""@
        },
    ) + pad_lines(pads) + line(
        "rules:"@,
        if rules.len() == 0 {
            "           (none)"@
        } else {
            ""@
        },
    ) + rule_lines(rules)
}

/// One rule as a line: `discord  app-id: 3, exclude-title: 3`.
pub fn describe_rule(rule: &RuleSummary) -> (r: String)
    ensures
        r@ == rule_shown(rule.deep_view()),
{
    let mut out = match text::after(rule.id.as_str(), '.') {
        Some(name) => name,
        None => rule.id.clone(),
    };
    out.append("  ");
    out.append(rule.fields().as_str());
    out
}

fn push_pads(out: &mut String, pads: &Vec<ScratchpadReport>)
    ensures
        final(out)@ == old(out)@ + pad_lines(pads.deep_view()),
{
    let ghost start = out@;
    let ghost all = pads.deep_view();
    let mut i: usize = 0;
    assert(start + pad_lines(all.take(0)) =~= start);
    while i < pads.len()
        invariant
            i <= pads@.len(),
            all == pads.deep_view(),
            out@ == start + pad_lines(all.take(i as int)),
        decreases pads.len() - i,
    {
        let pad = &pads[i];
        let ghost before = out@;
        let mut words = text::pad(pad.name.as_str(), 8);
        words.append(" ");
        words.append(text::pad(pad.size.as_str(), 12).as_str());
        words.append(" ");
        let layout = if pad.float {
            "floating"
        } else {
            "tiled"
        };
        words.append(text::pad(layout, 8).as_str());
        words.append(" ");
        if pad.spawn.len() == 0 {
            words.append("(no spawn command)");
        } else {
            let slice = pad.spawn.as_slice();
            assert(slice.deep_view() =~= pad.spawn.deep_view());
            let mut spawn = "spawn: ".to_owned();
            spawn.append(text::join(slice, " ").as_str());
            words.append(spawn.as_str());
        }
        push_line(out, "  ", words.as_str());
        proof {
            assert(all.take(i + 1).drop_last() =~= all.take(i as int));
            assert(all.take(i + 1).last() == pad.deep_view());
            assert(out@ =~= start + (pad_lines(all.take(i as int)) + pad_line(pad.deep_view())));
        }
        i = i + 1;
    }
    assert(all.take(i as int) =~= all);
}

fn push_rules(out: &mut String, rules: &Vec<(WindowAction, RuleSummary)>)
    ensures
        final(out)@ == old(out)@ + rule_lines(rules.deep_view()),
{
    let ghost start = out@;
    let ghost all = rules.deep_view();
    let mut i: usize = 0;
    assert(start + rule_lines(all.take(0)) =~= start);
    while i < rules.len()
        invariant
            i <= rules@.len(),
            all == rules.deep_view(),
            out@ == start + rule_lines(all.take(i as int)),
        decreases rules.len() - i,
    {
        let rule = &rules[i];
        let mut words = text::pad(action_label(rule.0), 6);
        words.append(" ");
        words.append(describe_rule(&rule.1).as_str());
        push_line(out, "  ", words.as_str());
        proof {
            assert(all.take(i + 1).drop_last() =~= all.take(i as int));
            assert(all.take(i + 1).last() == rule.deep_view());
            assert(out@ =~= start + (rule_lines(all.take(i as int)) + rule_line(
                rule.deep_view(),
            )));
        }
        i = i + 1;
    }
    assert(all.take(i as int) =~= all);
}

/// What `config check` prints of a configuration.
pub fn config_text(config: &Config, path: &str, state: &str) -> (r: String)
    ensures
        r@ == check_text(config.deep_view(), path@, state@),
{
    let mut out = String::new();
    push_line(&mut out, "config:          ", path);
    assert(out@ =~= line("config:          "@, path@));
    push_line(&mut out, "state:           ", state);
    let mut stage = config.stage_workspace().to_owned();
    stage.append(" (kept while empty: ");
    if config.stage_keep_workspace() {
        stage.append("true");
    } else {
        stage.append("false");
    }
    stage.append(")");
    push_line(&mut out, "stage workspace: ", stage.as_str());
    let mut scratchpad = config.scratchpad_workspace().to_owned();
    scratchpad.append(" (windows parked there)");
    push_line(&mut out, "scratchpad:      ", scratchpad.as_str());
    push_line(&mut out, "sticky follow:   ", config.sticky_follow().as_str());
    let menu = match config.menu() {
        Some(menu) => menu.describe(),
        None => "(none, `stage restore` falls back to the terminal)".to_owned(),
    };
    push_line(&mut out, "menu:            ", menu.as_str());
    let pads = describe_scratchpads(config);
    if pads.len() == 0 {
        push_line(&mut out, "scratchpads:", "     (none)");
    } else {
        push_line(&mut out, "scratchpads:", "");
    }
    push_pads(&mut out, &pads);
    let rules = config.rules();
    if rules.len() == 0 {
        push_line(&mut out, "rules:", "           (none)");
    } else {
        push_line(&mut out, "rules:", "");
    }
    push_rules(&mut out, &rules);
    out
}

// Status.

/// What `nsticky status` managed to find out.
#[derive(Debug, PartialEq, Eq)]
pub struct Status {
    pub socket: String,
    pub config: String,
    pub state: String,
    /// Sticky/staged counts and whether niri answered; `None` means the daemon
    /// did not answer at all.
    pub daemon: Option<DaemonStatus>,
}

/// What the daemon told about itself.
#[derive(Debug, PartialEq, Eq)]
pub struct DaemonStatus {
    pub sticky: usize,
    pub staged: usize,
    pub niri_error: Option<String>,
}

/// [`Status`] as a mathematical value.
pub struct StatusModel {
    pub socket: Seq<char>,
    pub config: Seq<char>,
    pub state: Seq<char>,
    pub daemon: Option<DaemonStatusModel>,
}

/// [`DaemonStatus`] as a mathematical value.
pub struct DaemonStatusModel {
    pub sticky: nat,
    pub staged: nat,
    pub niri_error: Option<Seq<char>>,
}

impl DeepView for Status {
    type V = StatusModel;

    open spec fn deep_view(&self) -> StatusModel {
        StatusModel {
            socket: self.socket@,
            config: self.config@,
            state: self.state@,
            daemon: self.daemon.deep_view(),
        }
    }
}

impl DeepView for DaemonStatus {
    type V = DaemonStatusModel;

    open spec fn deep_view(&self) -> DaemonStatusModel {
        DaemonStatusModel {
            sticky: self.sticky as nat,
            staged: self.staged as nat,
            niri_error: self.niri_error.deep_view(),
        }
    }
}

/// What is shown of the daemon.
pub open spec fn daemon_shown(daemon: Option<DaemonStatusModel>) -> Seq<char> {
    match daemon {
        None => "daemon: not running"@,
        Some(daemon) => "daemon: running\nsticky: "@ + text::decimal(daemon.sticky)
            + " window(s)\nstaged: "@ + text::decimal(daemon.staged) + " window(s)\n"@ + (
        match daemon.niri_error {
            None => "niri:   connected"@,
            Some(error) => "niri:   unreachable ("@ + error + ")"@,
        }),
    }
}

/// What `nsticky status` shows.
pub open spec fn status_shown(status: StatusModel) -> Seq<char> {
    line("socket: "@, status.socket) + line("config: "@, status.config) + line(
        "state:  "@,
        status.state,
    ) + daemon_shown(status.daemon)
}

impl Status {
    pub fn render(&self) -> (r: String)
        ensures
            r@ == status_shown(self.deep_view()),
    {
        let mut out = String::new();
        push_line(&mut out, "socket: ", self.socket.as_str());
        assert(out@ =~= line("socket: "@, self.socket@));
        push_line(&mut out, "config: ", self.config.as_str());
        push_line(&mut out, "state:  ", self.state.as_str());
        let daemon = match &self.daemon {
            None => "daemon: not running".to_owned(),
            Some(daemon) => {
                let mut words = "daemon: running\nsticky: ".to_owned();
                words.append(text::number(daemon.sticky as u64).as_str());
                words.append(" window(s)\nstaged: ");
                words.append(text::number(daemon.staged as u64).as_str());
                words.append(" window(s)\n");
                let niri = match &daemon.niri_error {
                    None => "niri:   connected".to_owned(),
                    Some(error) => {
                        let mut words = "niri:   unreachable (".to_owned();
                        words.append(error.as_str());
                        words.append(")");
                        words
                    },
                };
                words.append(niri.as_str());
                words
            },
        };
        out.append(daemon.as_str());
        out
    }
}

} // verus!
