//! What is reported of a configuration and of an error, where files are, and
//! when a state counts as saved.
use vstd::prelude::*;
use super::requests::{first_pad_is_found, is_first_pad};
use crate::business::requests::{ids_json, json_response};
use crate::business::id_texts;
use crate::cli::report::{
    check_text, named_report, pad_lines, pad_report, pad_reports, report_of, rule_lines, rule_name,
    rules_of, PadReportModel,
};
use crate::config::{
    config_dir, default_config, niri_size, pad_names, size_shown, summary_parts, ConfigModel,
    SizeModel, StickyFollow, SummaryModel, WindowAction,
};
use crate::error::{rendered, Chain};
use crate::menu::{parsed, shell_line_of, shell_words_of, CommandModel, SpecModel};
use crate::niri::same_double;
use crate::protocol::{error_response, socket_path, ResponseModel};
use crate::state_store::{
    same_record, same_stored, state_file, RecordModel, StoredModel, StoredScratchpadModel,
};
use crate::text;

verus! {

// A configuration.

/// Every scratchpad is reported, in the order of the configuration, with its
/// name, whether it floats, its command and its size.
pub proof fn every_scratchpad_is_reported(config: ConfigModel)
    requires
        forall|i: int, j: int|
            0 <= i < j < config.scratchpads.len() ==> (#[trigger] config.scratchpads[i]).name != (
            #[trigger] config.scratchpads[j]).name,
    ensures
        ({
            let r = report_of(config, Seq::empty(), Seq::empty()).scratchpads;
            let pads = config.scratchpads;
            &&& r.len() == pads.len()
            &&& forall|i: int|
                0 <= i < r.len() ==> {
                    &&& (#[trigger] r[i]).name == pads[i].name
                    &&& r[i].float == pads[i].float
                    &&& pads[i].spawn matches Some(command) ==> r[i].spawn == command
                    &&& pads[i].spawn is None ==> r[i].spawn.len() == 0
                    &&& r[i].size == size_shown(pads[i].width) + "x"@ + size_shown(pads[i].height)
                }
        }),
{
    let names = pad_names(config);
    let f = named_report(config);
    let pads = config.scratchpads;
    let all = Seq::new(pads.len(), |i: int| pad_report(pads[i]));
    assert forall|i: int| 0 <= i < names.len() implies f(#[trigger] names[i]) == Some(all[i]) by {
        assert forall|j: int| 0 <= j < i implies (#[trigger] pads[j]).name != pads[i].name by {}
        assert(is_first_pad(pads, pads[i].name, i));
        first_pad_is_found(pads, pads[i].name, i);
    }
    all_are_kept(names, f, all);
}

proof fn all_are_kept<A, B>(s: Seq<A>, f: spec_fn(A) -> Option<B>, all: Seq<B>)
    requires
        s.len() == all.len(),
        forall|i: int| 0 <= i < s.len() ==> f(#[trigger] s[i]) == Some(all[i]),
    ensures
        s.filter_map(f) == all,
    decreases s.len(),
{
    if s.len() > 0 {
        let rest = s.drop_last();
        let fewer = all.drop_last();
        assert forall|i: int| 0 <= i < rest.len() implies f(#[trigger] rest[i]) == Some(
            fewer[i],
        ) by {
            assert(f(s[i]) == Some(all[i]));
        }
        all_are_kept(rest, f, fewer);
        s.lemma_filter_map_take_succ(f, s.len() - 1);
        assert(s.take(s.len() as int) =~= s);
        assert(s.take(s.len() - 1) =~= rest);
        assert(f(s[s.len() - 1]) == Some(all[s.len() - 1]));
        assert(s.filter_map(f) =~= all);
    } else {
        assert(s.filter_map(f) =~= all);
    }
}

/// Every rule is reported, the sticky ones first and each kind in its order,
/// with its id, its outputs and how many patterns it has of each kind.
pub proof fn every_rule_is_reported(config: ConfigModel, path: Seq<char>, state: Seq<char>)
    ensures
        ({
            let r = report_of(config, path, state);
            let n = config.sticky_rules.len();
            &&& r.rules.len() == n + config.stage_rules.len()
            &&& forall|i: int|
                0 <= i < r.rules.len() ==> {
                    let rule = if i < n {
                        config.sticky_rules[i]
                    } else {
                        config.stage_rules[i - n]
                    };
                    &&& i < n ==> (#[trigger] r.rules[i]).action == "sticky"@
                    &&& i >= n ==> r.rules[i].action == "stage"@
                    &&& r.rules[i].id == rule.id
                    &&& r.rules[i].outputs == rule.outputs
                    &&& r.rules[i].app_id == rule.app_id.len()
                    &&& r.rules[i].title == rule.title.len()
                    &&& r.rules[i].exclude_app_id == rule.exclude_app_id.len()
                    &&& r.rules[i].exclude_title == rule.exclude_title.len()
                }
        }),
{
}

/// The paths and the settings are reported as they are; the menu as it was
/// written, and not at all where there is none.
pub proof fn settings_are_reported_as_they_are(
    config: ConfigModel,
    path: Seq<char>,
    state: Seq<char>,
)
    ensures
        ({
            let r = report_of(config, path, state);
            &&& r.config == path
            &&& r.state == state
            &&& r.stage_workspace == config.stage_workspace
            &&& r.stage_keep_workspace == config.stage_keep_workspace
            &&& r.scratchpad_workspace == config.scratchpad_workspace
            &&& config.sticky_follow == StickyFollow::Focused ==> r.sticky_follow == "focused"@
            &&& config.sticky_follow == StickyFollow::OwnOutput ==> r.sticky_follow
                == "own-output"@
            &&& config.menu is None ==> r.menu is None
            &&& forall|line: Seq<char>| #[trigger]
                is_command_line(config, line) ==> r.menu == Some(line)
            &&& forall|args: Seq<Seq<char>>|
                config.menu == Some(SpecModel::Args(args)) ==> r.menu == Some(
                    #[trigger] shell_line_of(args),
                )
        }),
{
}

/// The menu is this command line.
pub open spec fn is_command_line(config: ConfigModel, line: Seq<char>) -> bool {
    config.menu == Some(SpecModel::CommandLine(line))
}

/// A size is shown in pixels or in percent, and as `auto` where none is set.
pub proof fn sizes_are_shown_with_their_unit(pixels: i32, bits: u64, shown: Seq<char>)
    ensures
        size_shown(None) == "auto"@,
        pixels >= 0 ==> size_shown(Some(SizeModel::Fixed(pixels))) == text::decimal(pixels as nat)
            + "px"@,
        size_shown(Some(SizeModel::Percent { bits, shown })) == shown + "%"@,
        niri_size(SizeModel::Fixed(pixels)) == crate::niri::Size::Fixed(pixels),
        niri_size(SizeModel::Percent { bits, shown }) == crate::niri::Size::Percent(bits),
{
}

/// A rule is summed up by the floating state where it names one, and by how many
/// patterns it has of each kind where it has any, in this order.
pub proof fn rules_are_summed_up(summary: SummaryModel)
    ensures
        summary_parts(summary) == (if summary.floating == Some(true) {
            seq!["floating: true"@]
        } else if summary.floating == Some(false) {
            seq!["floating: false"@]
        } else {
            Seq::empty()
        }) + (if summary.app_id > 0 {
            seq!["app-id: "@ + text::decimal(summary.app_id)]
        } else {
            Seq::empty()
        }) + (if summary.title > 0 {
            seq!["title: "@ + text::decimal(summary.title)]
        } else {
            Seq::empty()
        }) + (if summary.exclude_app_id > 0 {
            seq!["exclude-app-id: "@ + text::decimal(summary.exclude_app_id)]
        } else {
            Seq::empty()
        }) + (if summary.exclude_title > 0 {
            seq!["exclude-title: "@ + text::decimal(summary.exclude_title)]
        } else {
            Seq::empty()
        }),
{
    reveal_strlit("app-id");
    reveal_strlit(": ");
    reveal_strlit("app-id: ");
    reveal_strlit("title");
    reveal_strlit("title: ");
    reveal_strlit("exclude-app-id");
    reveal_strlit("exclude-app-id: ");
    reveal_strlit("exclude-title");
    reveal_strlit("exclude-title: ");
    assert("app-id"@ + ": "@ =~= "app-id: "@);
    assert("title"@ + ": "@ =~= "title: "@);
    assert("exclude-app-id"@ + ": "@ =~= "exclude-app-id: "@);
    assert("exclude-title"@ + ": "@ =~= "exclude-title: "@);
}

/// Scratchpads and rules are shown one in a line, in their order.
pub proof fn each_is_shown_on_its_line(
    pads: Seq<PadReportModel>,
    pad: PadReportModel,
    rules: Seq<(WindowAction, SummaryModel)>,
    action: WindowAction,
    summary: SummaryModel,
)
    ensures
        pad_lines(Seq::empty()).len() == 0,
        pad_lines(pads.push(pad)) == pad_lines(pads) + ("  "@ + (text::padded(pad.name, 8) + " "@
            + text::padded(pad.size, 12) + " "@ + text::padded(
            if pad.float {
                "floating"@
            } else {
                "tiled"@
            },
            8,
        ) + " "@ + (if pad.spawn.len() == 0 {
            "(no spawn command)"@
        } else {
            "spawn: "@ + text::joined(pad.spawn, " "@)
        })) + "\n"@),
        rule_lines(Seq::empty()).len() == 0,
        rule_lines(rules.push((action, summary))) == rule_lines(rules) + ("  "@ + (text::padded(
            if action == WindowAction::Sticky {
                "sticky"@
            } else {
                "stage"@
            },
            6,
        ) + " "@ + (rule_name(summary.id) + "  "@ + text::joined(summary_parts(summary), ", "@)))
            + "\n"@),
{
    assert(pads.push(pad).drop_last() =~= pads);
    assert(rules.push((action, summary)).drop_last() =~= rules);
}

/// A rule is called by its name without its section.
pub proof fn rules_are_called_by_their_name(section: Seq<char>, name: Seq<char>)
    requires
        forall|i: int| 0 <= i < section.len() ==> #[trigger] section[i] != '.',
    ensures
        rule_name(section + seq!['.'] + name) == name,
        rule_name(section) == section,
{
    super::texts::the_first_mark_counts(section, '.', name);
}

/// The check prints the paths and the settings, each behind its label on a line
/// of its own, and behind them the scratchpads and the rules, or that there are
/// none.
pub proof fn the_check_shows_everything(config: ConfigModel, path: Seq<char>, state: Seq<char>)
    ensures
        check_text(config, path, state) == "config:          "@ + path + "\n"@ + (
        "state:           "@ + state + "\n"@) + ("stage workspace: "@ + (config.stage_workspace
            + " (kept while empty: "@ + (if config.stage_keep_workspace {
            "true"@
        } else {
            "false"@
        }) + ")"@) + "\n"@) + ("scratchpad:      "@ + (config.scratchpad_workspace
            + " (windows parked there)"@) + "\n"@) + ("sticky follow:   "@ + (
        match config.sticky_follow {
            StickyFollow::Focused => "focused"@,
            StickyFollow::OwnOutput => "own-output"@,
        }) + "\n"@) + ("menu:            "@ + (match config.menu {
            Some(SpecModel::CommandLine(line)) => line,
            Some(SpecModel::Args(args)) => shell_line_of(args),
            None => "(none, `stage restore` falls back to the terminal)"@,
        }) + "\n"@) + ("scratchpads:"@ + (if pad_reports(config).len() == 0 {
            "     (none)"@
        } else {
            ""@
        }) + "\n"@) + pad_lines(pad_reports(config)) + ("rules:"@ + (if rules_of(config).len()
            == 0 {
            "           (none)"@
        } else {
            ""@
        }) + "\n"@) + rule_lines(rules_of(config)),
{
}

/// Without a configuration there are no rules, no scratchpads and no menu; the
/// parking areas have their usual names, an empty stage is given back, and
/// sticky windows follow the focus.
pub proof fn the_default_sets_nothing()
    ensures
        ({
            let config = default_config();
            &&& config.sticky_rules.len() == 0
            &&& config.stage_rules.len() == 0
            &&& config.scratchpads.len() == 0
            &&& config.menu is None
            &&& config.stage_workspace == "stage"@
            &&& config.scratchpad_workspace == "scratchpad"@
            &&& !config.stage_keep_workspace
            &&& config.sticky_follow == StickyFollow::Focused
        }),
{
}

// Menus.

/// A command line is split as a shell does it; its first word is the program and
/// the others are its arguments. A line that cannot be split, has no word, or an
/// empty one first, is no command.
pub proof fn command_lines_are_split_like_in_a_shell(
    line: Seq<char>,
    words: Seq<Seq<char>>,
    message: Seq<char>,
)
    ensures
        shell_words_of(line) == Ok::<Seq<Seq<char>>, Seq<char>>(words) && words.len() > 0
            && words[0].len() > 0 ==> (parsed(SpecModel::CommandLine(line)) matches Ok(command)
            && command.program == words[0] && command.args == words.subrange(
            1,
            words.len() as int,
        ) && command.origin == line),
        shell_words_of(line) == Ok::<Seq<Seq<char>>, Seq<char>>(words) && (words.len() == 0
            || words[0].len() == 0) ==> parsed(SpecModel::CommandLine(line)) is Err,
        shell_words_of(line) == Err::<Seq<Seq<char>>, Seq<char>>(message) ==> parsed(
            SpecModel::CommandLine(line),
        ) == Err::<CommandModel, Chain>(
            seq!["invalid menu command syntax: "@ + text::quoted_text(line), message],
        ),
{
    assert(seq!["invalid menu command syntax: "@ + text::quoted_text(line)] + seq![message]
        =~= seq!["invalid menu command syntax: "@ + text::quoted_text(line), message]);
}

// Errors and answers.

/// An error is reported with everything it was met by on the way, outermost
/// first.
pub proof fn errors_are_reported_from_the_outside(message: Seq<char>, cause: Chain)
    ensures
        rendered(seq![message]) == message,
        cause.len() > 0 ==> rendered(seq![message] + cause) == message + ": "@ + rendered(cause),
        error_response(seq![message] + cause) == (ResponseModel::Error {
            message: rendered(seq![message] + cause),
        }),
{
    super::texts::pieces_are_joined_in_order(seq![message], cause, message, ": "@);
}

/// Ids are written as a JSON array, in their order.
pub proof fn ids_are_written_as_an_array(ids: Seq<u64>)
    ensures
        ids_json(ids) == "["@ + text::joined(
            Seq::new(ids.len(), |i: int| text::decimal(ids[i] as nat)),
            ","@,
        ) + "]"@,
{
    assert(id_texts(ids) =~= Seq::new(ids.len(), |i: int| text::decimal(ids[i] as nat)));
}

/// What was encoded is sent as data; what went wrong is sent as an error.
pub proof fn data_is_sent_as_data(data: Seq<char>, e: Seq<char>, chain: Chain)
    ensures
        json_response(Ok(Ok(data))) == (ResponseModel::Data { data }),
        json_response(Ok(Err(e))) == (ResponseModel::Error {
            message: "Failed to serialize response: "@ + e,
        }),
        json_response(Err(chain)) == (ResponseModel::Error { message: rendered(chain) }),
{
}

// Files.

/// The state file is under the state directory, under the data directory where
/// there is none, and under `/tmp` where there is neither.
pub proof fn the_state_file_has_its_place(dir: Seq<char>, other: Option<Seq<char>>)
    requires
        dir.len() > 0,
        dir.last() != '/',
    ensures
        state_file(Some(dir), other) == dir + "/nsticky/state.json"@,
        state_file(None, Some(dir)) == dir + "/nsticky/state.json"@,
        state_file(None, None) == "/tmp/nsticky/state.json"@,
        socket_path(Some(dir)) == dir + "/nsticky/cli.sock"@,
        socket_path(Some(Seq::empty())) == "/tmp/niri_sticky_cli.sock"@,
        socket_path(None) == "/tmp/niri_sticky_cli.sock"@,
        config_dir(Some(dir)) == dir + "/nsticky"@,
{
    reveal_strlit("/");
    reveal_strlit("nsticky");
    reveal_strlit("state.json");
    reveal_strlit("cli.sock");
    reveal_strlit("/tmp");
    reveal_strlit("/nsticky");
    reveal_strlit("/nsticky/state.json");
    reveal_strlit("/nsticky/cli.sock");
    reveal_strlit("/tmp/nsticky/state.json");
    let under = text::path_join(dir, "nsticky"@);
    assert(under.last() == 'y');
    assert(under =~= dir + "/nsticky"@);
    assert(text::path_join(under, "state.json"@) =~= dir + "/nsticky/state.json"@);
    assert(text::path_join(under, "cli.sock"@) =~= dir + "/nsticky/cli.sock"@);
    let tmp = text::path_join("/tmp"@, "nsticky"@);
    assert(tmp.last() == 'y');
    assert(text::path_join(tmp, "state.json"@) =~= "/tmp/nsticky/state.json"@);
}

// What counts as saved.

/// Two coordinates are the same where they are the same number; the two zeros
/// are, and what is no number is the same as nothing, not even as itself.
pub proof fn coordinates_are_compared_as_numbers(a: u64, b: u64)
    ensures
        same_double(a, b) <==> {
            &&& a % 0x8000_0000_0000_0000 <= 0x7ff0_0000_0000_0000
            &&& b % 0x8000_0000_0000_0000 <= 0x7ff0_0000_0000_0000
            &&& a == b || ((a == 0 || a == 0x8000_0000_0000_0000) && (b == 0 || b
                == 0x8000_0000_0000_0000))
        },
{
}

/// Two records are the same where everything in them is; a position that is
/// missing is the same as a missing one only.
pub proof fn records_are_compared_part_by_part(a: RecordModel, b: RecordModel)
    ensures
        same_record(a, b) <==> {
            &&& a.id == b.id
            &&& a.was_sticky == b.was_sticky
            &&& a.outputs == b.outputs
            &&& a.size == b.size
            &&& a.position is Some <==> b.position is Some
            &&& a.position is Some && b.position is Some ==> same_double(
                a.position->0.x,
                b.position->0.x,
            ) && same_double(a.position->0.y, b.position->0.y)
        },
{
}

/// A state counts as saved only where the saved one has the same windows, in the
/// same order, with the same records, and the same labels with the same ones.
pub proof fn states_are_compared_part_by_part(a: StoredModel, b: StoredModel)
    ensures
        same_stored(a, b) <==> {
            &&& a.version == b.version
            &&& a.sticky == b.sticky
            &&& a.staged.len() == b.staged.len()
            &&& forall|i: int|
                0 <= i < a.staged.len() ==> same_record(#[trigger] a.staged[i], b.staged[i])
            &&& forall|label: Seq<char>| #[trigger]
                a.scratchpads.contains_key(label) <==> b.scratchpads.contains_key(label)
            &&& forall|label: Seq<char>| #[trigger]
                a.scratchpads.contains_key(label) ==> is_same_entry(
                    a.scratchpads[label],
                    b.scratchpads[label],
                )
        },
{
    assert forall|label: Seq<char>|
        a.scratchpads.contains_key(label) && b.scratchpads.contains_key(label) implies (
    is_same_entry(#[trigger] a.scratchpads[label], #[trigger] b.scratchpads[label])
        <==> crate::state_store::same_entry(a.scratchpads[label], b.scratchpads[label])) && (
    is_same_entry(a.scratchpads[label], b.scratchpads[label])
        ==> crate::state_store::same_entry(b.scratchpads[label], a.scratchpads[label])) by {}
    if a.scratchpads.dom() == b.scratchpads.dom() {
        assert(forall|label: Seq<char>| #[trigger]
            a.scratchpads.contains_key(label) <==> b.scratchpads.contains_key(label));
    }
}

/// Two entries of scratchpads are the same: both bare ids or both records.
pub open spec fn is_same_entry(a: StoredScratchpadModel, b: StoredScratchpadModel) -> bool {
    match (a, b) {
        (StoredScratchpadModel::Id(x), StoredScratchpadModel::Id(y)) => x == y,
        (StoredScratchpadModel::Full(x), StoredScratchpadModel::Full(y)) => same_record(x, y),
        _ => false,
    }
}

} // verus!
