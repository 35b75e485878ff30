//! What a command asks of the daemon, what it prints, and what becomes of what
//! the user picks.
use vstd::prelude::*;
use super::windows::{as_it_is, let_through, windows_are_listed_by_what_they_hold};
use crate::business::requests::ids_json;
use crate::cli::{
    command_said, config_check, daemon_status, status, CommandModel, DataView, EndpointsModel,
};
use crate::cli::report::{status_shown, DaemonStatusModel, StatusModel};
use crate::cli::restore::{
    choices, entry, fetch_windows, id_in_line, ids_read, menu_input, menu_restore, picked, picks,
    prompt, regex_find, selected, stage_restore, unstage, unstage_each,
};
use crate::cli::table::{
    among, by_id, passing, sorting_by_id_sorts, table, window_row, window_rows, Filters,
};
use crate::cli::task::{comes_to, OutturnModel, SelectionModel, Sess, TaskModel};
use crate::config::{loaded, ConfigModel};
use crate::error::Chain;
use crate::lists;
use crate::menu::{parsed, SelectorModel, SpecModel};
use crate::niri::WindowModel;
use crate::protocol::{RequestModel, ResponseModel};
use crate::text;

verus! {

// The table.

/// The text, or what stands for a missing one.
pub open spec fn shown_as(text: Option<Seq<char>>, missing: Seq<char>) -> Seq<char> {
    match text {
        Some(text) => text,
        None => missing,
    }
}

/// A table has a line for its head, and behind it one for each window in its
/// order: the id, the app id and the title, the first two filled up to their
/// column, with a mark in place of what is not known.
pub proof fn a_table_has_a_line_for_each_window(windows: Seq<WindowModel>, w: WindowModel)
    ensures
        table(Seq::empty()) == text::padded("ID"@, 10) + " "@ + text::padded("APP_ID"@, 25) + " "@
            + "TITLE"@ + "\n"@,
        table(windows.push(w)) == table(windows) + (text::padded(text::decimal(w.id as nat), 10)
            + " "@ + text::padded(shown_as(w.app_id, "<unknown>"@), 25) + " "@ + shown_as(
            w.title,
            "<unknown>"@,
        ) + "\n"@),
{
    assert(windows.push(w).drop_last() =~= windows);
    assert(table(windows.push(w)) =~= table(windows) + window_row(w));
    assert(window_rows(Seq::empty()) =~= Seq::empty());
    assert(table(Seq::empty()) =~= text::padded("ID"@, 10) + " "@ + text::padded("APP_ID"@, 25)
        + " "@ + "TITLE"@ + "\n"@);
}

/// These are the windows that pass the filters, by ascending id.
pub open spec fn is_listing(
    windows: Seq<WindowModel>,
    filters: Filters,
    listed: Seq<WindowModel>,
) -> bool {
    &&& exists|kept: Seq<WindowModel>| #[trigger]
        lists::selects(windows, let_through(filters), as_it_is(), kept) && listed.to_multiset()
            == kept.to_multiset()
    &&& forall|i: int, j: int|
        0 <= i < j < listed.len() ==> (#[trigger] listed[i]).id <= (#[trigger] listed[j]).id
}

/// Listing the windows prints a table of those that pass the filters, or those
/// windows as JSON where that is asked for.
pub proof fn windows_are_printed_as_listed(
    talk: Sess,
    filters: Filters,
    json: bool,
    data: Seq<char>,
    windows: Seq<WindowModel>,
    endpoints: EndpointsModel,
)
    requires
        talk.answers.len() >= 3,
        talk.answers[0] == OutturnModel::Response(ResponseModel::Data { data }),
        talk.answers[1] == OutturnModel::Windows(windows),
        talk.answers[2] == OutturnModel::Done,
    ensures
        ({
            let command = CommandModel::Request(RequestModel::Windows, DataView::Windows, filters);
            let r = command_said(talk, command, json, endpoints);
            &&& r.out == Some(Ok::<(), Chain>(()))
            &&& exists|listed: Seq<WindowModel>|
                {
                    &&& #[trigger] is_listing(windows, filters, listed)
                    &&& r.talk.asked == talk.asked + seq![
                        TaskModel::Exchange(RequestModel::Windows),
                        TaskModel::ReadWindows(data),
                        if json {
                            TaskModel::PrintWindows(listed)
                        } else {
                            TaskModel::Print(table(listed))
                        },
                    ]
                }
        }),
{
    let one = talk.ask(TaskModel::Exchange(RequestModel::Windows));
    let two = one.ask(TaskModel::ReadWindows(data));
    assert(one.answers[0] == talk.answers[1]);
    assert(two.answers[0] == talk.answers[2]);
    let listed = by_id(windows.filter_map(passing(filters)));
    windows_are_listed_by_what_they_hold(windows, filters);
    assert(is_listing(windows, filters, listed));
    let last = if json {
        TaskModel::PrintWindows(listed)
    } else {
        TaskModel::Print(table(listed))
    };
    assert(two.ask(last).asked =~= talk.asked + seq![
        TaskModel::Exchange(RequestModel::Windows),
        TaskModel::ReadWindows(data),
        last,
    ]);
}

/// A list of ids is printed as a table of the open windows that have them, by
/// ascending id, or as the ids in JSON where that is asked for.
pub proof fn ids_are_printed_with_their_windows(
    talk: Sess,
    request: RequestModel,
    filters: Filters,
    data: Seq<char>,
    ids: Seq<u64>,
    more: Seq<char>,
    windows: Seq<WindowModel>,
    endpoints: EndpointsModel,
)
    requires
        talk.answers.len() >= 4,
        talk.answers[0] == OutturnModel::Response(ResponseModel::Data { data }),
        ids_read(data) == Ok::<Seq<u64>, Seq<char>>(ids),
        talk.answers[1] == OutturnModel::Response(ResponseModel::Data { data: more }),
        talk.answers[2] == OutturnModel::Windows(windows),
    ensures
        ({
            let command = CommandModel::Request(request, DataView::Ids, filters);
            &&& command_said(talk, command, true, endpoints).talk.asked == talk.asked + seq![
                TaskModel::Exchange(request),
                TaskModel::Print(ids_json(ids) + "\n"@),
            ]
            &&& exists|listed: Seq<WindowModel>, kept: Seq<WindowModel>|
                {
                    &&& #[trigger] lists::selects(windows, has_one_of(ids), as_it_is(), kept)
                    &&& #[trigger] listed.to_multiset() == kept.to_multiset()
                    &&& forall|i: int, j: int|
                        0 <= i < j < listed.len() ==> (#[trigger] listed[i]).id <= (
                        #[trigger] listed[j]).id
                    &&& command_said(talk, command, false, endpoints).talk.asked == talk.asked
                        + seq![
                        TaskModel::Exchange(request),
                        TaskModel::Exchange(RequestModel::Windows),
                        TaskModel::ReadWindows(more),
                        TaskModel::Print(table(listed)),
                    ]
                }
        }),
{
    let one = talk.ask(TaskModel::Exchange(request));
    let two = one.ask(TaskModel::Exchange(RequestModel::Windows));
    let three = two.ask(TaskModel::ReadWindows(more));
    assert(one.answers[0] == talk.answers[1]);
    assert(two.answers[0] == talk.answers[2]);
    let kept = windows.filter_map(among(ids));
    let listed = by_id(kept);
    sorting_by_id_sorts(kept);
    some_ids_are_selected(windows, ids);
    assert(three.ask(TaskModel::Print(table(listed))).asked =~= talk.asked + seq![
        TaskModel::Exchange(request),
        TaskModel::Exchange(RequestModel::Windows),
        TaskModel::ReadWindows(more),
        TaskModel::Print(table(listed)),
    ]);
    assert(one.ask(TaskModel::Print(ids_json(ids) + "\n"@)).asked =~= talk.asked + seq![
        TaskModel::Exchange(request),
        TaskModel::Print(ids_json(ids) + "\n"@),
    ]);
    assert(listed.to_multiset() == kept.to_multiset());
}

/// Windows with one of these ids.
pub open spec fn has_one_of(ids: Seq<u64>) -> spec_fn(WindowModel) -> bool {
    |w: WindowModel| exists|k: int| 0 <= k < ids.len() && #[trigger] ids[k] == w.id
}

proof fn some_ids_are_selected(windows: Seq<WindowModel>, ids: Seq<u64>)
    ensures
        lists::selects(windows, has_one_of(ids), as_it_is(), windows.filter_map(among(ids))),
{
    let p = has_one_of(ids);
    let f = among(ids);
    assert forall|w: WindowModel| #[trigger] f(w) == if p(w) {
        Some(w)
    } else {
        None
    } by {}
    lists::filtering_selects(windows, f, p, as_it_is());
}

/// What the daemon says is printed on a line of its own; what it refuses fails
/// the command with its message, and nothing is printed.
pub proof fn the_answer_is_printed(
    talk: Sess,
    request: RequestModel,
    view: DataView,
    filters: Filters,
    json: bool,
    endpoints: EndpointsModel,
    message: Seq<char>,
    e: Chain,
)
    requires
        talk.answers.len() >= 2,
    ensures
        ({
            let r = command_said(
                talk,
                CommandModel::Request(request, view, filters),
                json,
                endpoints,
            );
            &&& talk.answers[0] == OutturnModel::Response(ResponseModel::Success { message })
                ==> r.talk.asked == talk.asked + seq![
                TaskModel::Exchange(request),
                TaskModel::Print(message + "\n"@),
            ] && (talk.answers[1] == OutturnModel::Done ==> r.out == Some(Ok::<(), Chain>(())))
            &&& talk.answers[0] == OutturnModel::Response(ResponseModel::Error { message })
                ==> r.talk.asked == talk.asked.push(TaskModel::Exchange(request)) && r.out == Some(
                Err::<(), Chain>(seq![message]),
            )
            &&& talk.answers[0] == OutturnModel::Failed(e) ==> r.talk.asked == talk.asked.push(
                TaskModel::Exchange(request),
            ) && r.out == Some(Err::<(), Chain>(e))
            &&& talk.answers[0] == OutturnModel::Response(ResponseModel::Data { data: message })
                && view == DataView::Raw ==> r.talk.asked == talk.asked + seq![
                TaskModel::Exchange(request),
                TaskModel::Print(message + "\n"@),
            ]
        }),
{
    let one = talk.ask(TaskModel::Exchange(request));
    assert(one.answers[0] == talk.answers[1]);
    assert(one.ask(TaskModel::Print(message + "\n"@)).asked =~= talk.asked + seq![
        TaskModel::Exchange(request),
        TaskModel::Print(message + "\n"@),
    ]);
}

// Restoring.

/// The prompt numbers the staged windows from one, in their order, with the app
/// id, the title and the id of each, and says which numbers there are.
pub proof fn the_prompt_numbers_the_windows(staged: Seq<WindowModel>, w: WindowModel)
    ensures
        choices(Seq::empty()).len() == 0,
        choices(staged.push(w)) == choices(staged) + (" "@ + text::decimal(staged.len() + 1)
            + ". "@ + shown_as(w.app_id, "?"@) + " — "@ + shown_as(w.title, "?"@) + "  [ID: "@
            + text::decimal(w.id as nat) + "]\n"@),
        prompt(staged) == "\n"@ + choices(staged) + "\nRestore (1-"@ + text::decimal(staged.len())
            + ", space-separated for multiple, q): "@,
{
    assert(staged.push(w).drop_last() =~= staged);
}

/// The word is one of the numbers shown.
pub open spec fn is_choice(count: nat) -> spec_fn(Seq<char>) -> bool {
    |word: Seq<char>|
        text::natural_in(word) is Some && 1 <= text::natural_in(word)->0 <= count
}

/// The id of the window that the number was shown for.
pub open spec fn id_chosen(staged: Seq<WindowModel>) -> spec_fn(Seq<char>) -> u64 {
    |word: Seq<char>| staged[text::natural_in(word)->0 - 1].id
}

/// Each number that was shown picks its window, in the order they are typed;
/// other words pick none. `q`, `Q` and a blank line pick nothing at all.
pub proof fn numbers_pick_their_windows(staged: Seq<WindowModel>, typed: Seq<char>)
    ensures
        text::trimmed(typed) == "q"@ || text::trimmed(typed) == "Q"@ || text::trimmed(typed).len()
            == 0 ==> picks(staged, typed).len() == 0,
        text::trimmed(typed) != "q"@ && text::trimmed(typed) != "Q"@ && text::trimmed(typed).len()
            > 0 ==> lists::selects(
            text::words_of(text::trimmed(typed)),
            is_choice(staged.len()),
            id_chosen(staged),
            picks(staged, typed),
        ),
{
    let f = picked(staged);
    let p = is_choice(staged.len());
    assert forall|word: Seq<char>| #[trigger] f(word) == if p(word) {
        Some(id_chosen(staged)(word))
    } else {
        None
    } by {}
    lists::filtering_selects(
        text::words_of(text::trimmed(typed)),
        f,
        p,
        id_chosen(staged),
    );
}

/// One window is brought back by a request of its own, and what the daemon says
/// is printed; what it refuses is the end of it.
pub proof fn one_window_is_restored(talk: Sess, id: u64, message: Seq<char>, e: Chain)
    requires
        talk.answers.len() >= 2,
    ensures
        ({
            let r = unstage_each(talk, seq![id]);
            let asking = TaskModel::Exchange(RequestModel::Unstage { window_id: id });
            &&& talk.answers[0] == OutturnModel::Response(ResponseModel::Success { message })
                ==> r.talk.asked == talk.asked + seq![asking, TaskModel::Print(message + "\n"@)]
                && (talk.answers[1] == OutturnModel::Done ==> r.out == Some(Ok::<(), Chain>(())))
            &&& talk.answers[0] == OutturnModel::Response(ResponseModel::Error { message })
                ==> r.talk.asked == talk.asked.push(asking) && r.out == Some(
                Err::<(), Chain>(seq![message]),
            )
            &&& talk.answers[0] == OutturnModel::Failed(e) ==> r.talk.asked == talk.asked.push(
                asking,
            ) && r.out == Some(Err::<(), Chain>(e))
        }),
{
    reveal_with_fuel(unstage_each, 2);
    let ids = seq![id];
    assert(ids.drop_first() =~= Seq::<u64>::empty());
    let one = talk.ask(TaskModel::Exchange(RequestModel::Unstage { window_id: id }));
    assert(one.answers[0] == talk.answers[1]);
    assert(one.ask(TaskModel::Print(message + "\n"@)).asked =~= talk.asked + seq![
        TaskModel::Exchange(RequestModel::Unstage { window_id: id }),
        TaskModel::Print(message + "\n"@),
    ]);
}

/// Several windows are brought back one after the other, and only while nothing
/// failed.
pub proof fn windows_are_restored_one_after_the_other(
    talk: Sess,
    first: Seq<u64>,
    second: Seq<u64>,
)
    ensures
        ({
            let front = unstage_each(talk, first);
            let all = unstage_each(talk, first + second);
            &&& front.out == Some(Ok::<(), Chain>(())) ==> all == unstage_each(front.talk, second)
            &&& front.out != Some(Ok::<(), Chain>(())) ==> all == front
        }),
        unstage_each(talk, Seq::empty()) == comes_to(talk, Ok::<(), Chain>(())),
    decreases first.len(),
{
    let all = first + second;
    if first.len() == 0 {
        assert(all =~= second);
    } else {
        assert(all.drop_first() =~= first.drop_first() + second);
        assert(all[0] == first[0]);
        let one = unstage(talk, first[0]);
        windows_are_restored_one_after_the_other(one.talk, first.drop_first(), second);
    }
}

/// The windows that are offered are those of the daemon's list that are staged.
pub proof fn staged_windows_are_looked_up(
    talk: Sess,
    ids: Seq<u64>,
    data: Seq<char>,
    windows: Seq<WindowModel>,
)
    requires
        talk.answers.len() >= 2,
        talk.answers[0] == OutturnModel::Response(ResponseModel::Data { data }),
        talk.answers[1] == OutturnModel::Windows(windows),
    ensures
        ({
            let r = fetch_windows(talk, ids);
            &&& r.talk.asked == talk.asked + seq![
                TaskModel::Exchange(RequestModel::Windows),
                TaskModel::ReadWindows(data),
            ]
            &&& r.talk.answers == talk.answers.skip(2)
            &&& r.out is Some
            &&& r.out->0 is Ok
            &&& lists::selects(windows, has_one_of(ids), as_it_is(), r.out->0->Ok_0)
        }),
{
    let one = talk.ask(TaskModel::Exchange(RequestModel::Windows));
    assert(one.answers[0] == talk.answers[1]);
    assert(one.ask(TaskModel::ReadWindows(data)).answers =~= talk.answers.skip(2));
    assert(one.ask(TaskModel::ReadWindows(data)).asked =~= talk.asked + seq![
        TaskModel::Exchange(RequestModel::Windows),
        TaskModel::ReadWindows(data),
    ]);
    some_ids_are_selected(windows, ids);
}

/// At a terminal with nothing staged, that is said and nothing is asked; with
/// staged windows that are open, they are offered, and what is typed picks.
pub proof fn a_terminal_offers_what_is_staged(
    talk: Sess,
    data: Seq<char>,
    ids: Seq<u64>,
    more: Seq<char>,
    windows: Seq<WindowModel>,
    typed: Seq<char>,
)
    requires
        talk.answers.len() >= 5,
        talk.answers[0] == OutturnModel::Response(ResponseModel::Data { data }),
        ids_read(data) == Ok::<Seq<u64>, Seq<char>>(ids),
        talk.answers[1] == OutturnModel::Selector(SelectorModel::Terminal),
        ids.len() > 0 ==> talk.answers[2] == OutturnModel::Response(
            ResponseModel::Data { data: more },
        ) && talk.answers[3] == OutturnModel::Windows(windows) && talk.answers[4]
            == OutturnModel::Text(typed),
    ensures
        ({
            let r = stage_restore(talk);
            let chosen = talk.asked + seq![
                TaskModel::Exchange(RequestModel::StageList),
                TaskModel::ChooseSelector,
            ];
            let looked = chosen + seq![
                TaskModel::Exchange(RequestModel::Windows),
                TaskModel::ReadWindows(more),
            ];
            &&& ids.len() == 0 ==> r.talk.asked == chosen.push(
                TaskModel::Print("No staged windows.\n"@),
            )
            &&& ids.len() > 0 ==> exists|staged: Seq<WindowModel>|
                {
                    &&& #[trigger] lists::selects(windows, has_one_of(ids), as_it_is(), staged)
                    &&& staged.len() == 0 ==> r.talk.asked == looked.push(
                        TaskModel::Print("No active staged windows found.\n"@),
                    )
                    &&& staged.len() > 0 ==> r == unstage_each(
                        Sess {
                            answers: talk.answers.skip(5),
                            asked: looked.push(TaskModel::Prompt(prompt(staged))),
                        },
                        picks(staged, typed),
                    )
                }
        }),
{
    let one = talk.ask(TaskModel::Exchange(RequestModel::StageList));
    let two = one.ask(TaskModel::ChooseSelector);
    assert(one.answers[0] == talk.answers[1]);
    assert(two.answers[0] == talk.answers[2]);
    let chosen = talk.asked + seq![
        TaskModel::Exchange(RequestModel::StageList),
        TaskModel::ChooseSelector,
    ];
    assert(two.asked =~= chosen);
    if ids.len() > 0 {
        assert(two.answers[1] == talk.answers[3]);
        staged_windows_are_looked_up(two, ids, more, windows);
        let found = fetch_windows(two, ids);
        let staged = found.out->0->Ok_0;
        assert(two.answers.skip(2)[0] == talk.answers[4]);
        let asked = found.talk.ask(TaskModel::Prompt(prompt(staged)));
        assert(asked.answers =~= talk.answers.skip(5));
        assert(found.talk.asked =~= chosen + seq![
            TaskModel::Exchange(RequestModel::Windows),
            TaskModel::ReadWindows(more),
        ]);
        assert(lists::selects(windows, has_one_of(ids), as_it_is(), staged));
        if staged.len() > 0 {
            assert(asked =~= Sess {
                answers: talk.answers.skip(5),
                asked: (chosen + seq![
                    TaskModel::Exchange(RequestModel::Windows),
                    TaskModel::ReadWindows(more),
                ]).push(TaskModel::Prompt(prompt(staged))),
            });
        }
    }
}

/// A selector is fed one line for each staged window, in their order: its id, a
/// tab, its app id and its title.
pub proof fn a_selector_is_fed_a_line_for_each_window(staged: Seq<WindowModel>)
    ensures
        menu_input(staged) == text::joined(
            Seq::new(
                staged.len(),
                |i: int|
                    text::decimal(staged[i].id as nat) + "\t"@ + shown_as(staged[i].app_id, "?"@)
                        + " — "@ + shown_as(staged[i].title, "?"@),
            ),
            "\n"@,
        ),
{
    assert(staged.map_values(|w: WindowModel| entry(w)) =~= Seq::new(
        staged.len(),
        |i: int|
            text::decimal(staged[i].id as nat) + "\t"@ + shown_as(staged[i].app_id, "?"@) + " — "@
                + shown_as(staged[i].title, "?"@),
    ));
}

/// A selector that succeeds picks what it prints; one that fails is reported
/// with its status and its command, and brings nothing back.
pub proof fn a_selector_picks_or_is_reported(
    talk: Sess,
    spec: SpecModel,
    staged: Seq<WindowModel>,
    command: crate::menu::CommandModel,
    chosen: SelectionModel,
)
    requires
        parsed(spec) == Ok::<crate::menu::CommandModel, Chain>(command),
        talk.answers.len() >= 1,
        talk.answers[0] == OutturnModel::Selection(chosen),
    ensures
        ({
            let r = menu_restore(talk, spec, staged);
            let run = talk.ask(TaskModel::Select { command, input: menu_input(staged) });
            &&& chosen.failed is None ==> r == unstage_each(run, selected(chosen.output))
            &&& chosen.failed matches Some(status) ==> r.talk.asked == run.asked.push(
                TaskModel::Notice(
                    "Menu exited with "@ + status + "\n\n"@ + "command:\n    "@ + command.origin
                        + "\n\nprogram:\n    "@ + command.program + "\n\narguments:\n    "@
                        + text::quoted_list(command.args) + "\n"@,
                ),
            )
        }),
{
    if let Some(status) = chosen.failed {
        let shown = "Menu exited with "@ + status + "\n\n"@ + "command:\n    "@ + command.origin
            + "\n\nprogram:\n    "@ + command.program + "\n\narguments:\n    "@
            + text::quoted_list(command.args) + "\n"@;
        assert(crate::cli::restore::menu_failure(status, command) =~= shown);
    }
}

/// A line names the window whose number stands first in it, without the white
/// space around the line; a line without a number names none.
pub open spec fn names_a_window() -> spec_fn(Seq<char>) -> bool {
    |line: Seq<char>|
        {
            let found = regex_find("\\d+"@, text::trimmed(line));
            &&& found is Some
            &&& text::natural_in(found->0) is Some
            &&& text::natural_in(found->0)->0 <= u64::MAX
        }
}

/// The window that a line names.
pub open spec fn window_named() -> spec_fn(Seq<char>) -> u64 {
    |line: Seq<char>| text::natural_in(regex_find("\\d+"@, text::trimmed(line))->0)->0 as u64
}

/// What a selector prints picks a window with each line that names one, in their
/// order.
pub proof fn printed_lines_pick_their_windows(output: Seq<u8>)
    ensures
        lists::selects(
            text::lines_of(text::lossy_text(output)),
            names_a_window(),
            window_named(),
            selected(output),
        ),
{
    let f = id_in_line();
    let p = names_a_window();
    assert forall|line: Seq<char>| #[trigger] f(line) == if p(line) {
        Some(window_named()(line))
    } else {
        None
    } by {}
    lists::filtering_selects(text::lines_of(text::lossy_text(output)), f, p, window_named());
}

/// Without anything to pick with, the command fails and brings nothing back; a
/// configured selector is run also where nothing is staged.
pub proof fn the_selector_decides(
    talk: Sess,
    data: Seq<char>,
    ids: Seq<u64>,
    more: Seq<char>,
    windows: Seq<WindowModel>,
    spec: SpecModel,
)
    requires
        talk.answers.len() >= 4,
        talk.answers[0] == OutturnModel::Response(ResponseModel::Data { data }),
        ids_read(data) == Ok::<Seq<u64>, Seq<char>>(ids),
    ensures
        talk.answers[1] == OutturnModel::Selector(SelectorModel::Unavailable) ==> stage_restore(
            talk,
        ).talk.asked == talk.asked + seq![
            TaskModel::Exchange(RequestModel::StageList),
            TaskModel::ChooseSelector,
        ] && stage_restore(talk).out is Some && stage_restore(talk).out->0 is Err,
        talk.answers[1] == OutturnModel::Selector(SelectorModel::Command(spec)) && talk.answers[2]
            == OutturnModel::Response(ResponseModel::Data { data: more }) && talk.answers[3]
            == OutturnModel::Windows(windows) ==> exists|staged: Seq<WindowModel>|
            {
                &&& #[trigger] lists::selects(windows, has_one_of(ids), as_it_is(), staged)
                &&& stage_restore(talk) == menu_restore(
                    Sess {
                        answers: talk.answers.skip(4),
                        asked: talk.asked + seq![
                            TaskModel::Exchange(RequestModel::StageList),
                            TaskModel::ChooseSelector,
                            TaskModel::Exchange(RequestModel::Windows),
                            TaskModel::ReadWindows(more),
                        ],
                    },
                    spec,
                    staged,
                )
            },
{
    let one = talk.ask(TaskModel::Exchange(RequestModel::StageList));
    let two = one.ask(TaskModel::ChooseSelector);
    assert(one.answers[0] == talk.answers[1]);
    assert(two.answers[0] == talk.answers[2]);
    assert(two.answers[1] == talk.answers[3]);
    assert(two.asked =~= talk.asked + seq![
        TaskModel::Exchange(RequestModel::StageList),
        TaskModel::ChooseSelector,
    ]);
    if talk.answers[1] == OutturnModel::Selector(SelectorModel::Command(spec)) && talk.answers[2]
        == OutturnModel::Response(ResponseModel::Data { data: more }) && talk.answers[3]
        == OutturnModel::Windows(windows) {
        staged_windows_are_looked_up(two, ids, more, windows);
        let found = fetch_windows(two, ids);
        let staged = found.out->0->Ok_0;
        assert(found.talk =~= Sess {
            answers: talk.answers.skip(4),
            asked: talk.asked + seq![
                TaskModel::Exchange(RequestModel::StageList),
                TaskModel::ChooseSelector,
                TaskModel::Exchange(RequestModel::Windows),
                TaskModel::ReadWindows(more),
            ],
        }) by {
            assert(found.talk.answers =~= talk.answers.skip(4));
            assert(found.talk.asked =~= talk.asked + seq![
                TaskModel::Exchange(RequestModel::StageList),
                TaskModel::ChooseSelector,
                TaskModel::Exchange(RequestModel::Windows),
                TaskModel::ReadWindows(more),
            ]);
        }
        assert(lists::selects(windows, has_one_of(ids), as_it_is(), staged));
    }
}

// Status.

/// A daemon that answers is asked for its sticky windows, its staged ones and
/// the open ones, in this order; it is reported with how many there are of the
/// first two, and whether the compositor answered it.
pub proof fn a_running_daemon_is_reported(
    talk: Sess,
    sticky: Seq<char>,
    staged: Seq<char>,
    stuck: Seq<u64>,
    parked: Seq<u64>,
    data: Seq<char>,
    message: Seq<char>,
)
    requires
        talk.answers.len() >= 3,
        talk.answers[0] == OutturnModel::Response(ResponseModel::Data { data: sticky }),
        ids_read(sticky) == Ok::<Seq<u64>, Seq<char>>(stuck),
        talk.answers[1] == OutturnModel::Response(ResponseModel::Data { data: staged }),
        ids_read(staged) == Ok::<Seq<u64>, Seq<char>>(parked),
    ensures
        ({
            let r = daemon_status(talk);
            &&& r.talk.asked == talk.asked + seq![
                TaskModel::Exchange(RequestModel::List),
                TaskModel::Exchange(RequestModel::StageList),
                TaskModel::Exchange(RequestModel::Windows),
            ]
            &&& r.out is Some
            &&& r.out->0 matches Some(found) && {
                &&& found.sticky == stuck.len()
                &&& found.staged == parked.len()
                &&& talk.answers[2] == OutturnModel::Response(ResponseModel::Data { data })
                    ==> found.niri_error is None
                &&& talk.answers[2] == OutturnModel::Response(ResponseModel::Error { message })
                    ==> found.niri_error == Some(message)
            }
        }),
{
    let one = talk.ask(TaskModel::Exchange(RequestModel::List));
    let two = one.ask(TaskModel::Exchange(RequestModel::StageList));
    assert(one.answers[0] == talk.answers[1]);
    assert(two.answers[0] == talk.answers[2]);
    assert(two.ask(TaskModel::Exchange(RequestModel::Windows)).asked =~= talk.asked + seq![
        TaskModel::Exchange(RequestModel::List),
        TaskModel::Exchange(RequestModel::StageList),
        TaskModel::Exchange(RequestModel::Windows),
    ]);
}

/// A daemon that does not answer with its sticky windows is reported as not
/// running.
pub proof fn a_silent_daemon_is_not_running(talk: Sess, e: Chain)
    requires
        talk.answers.len() >= 1,
        talk.answers[0] == OutturnModel::Failed(e),
    ensures
        daemon_status(talk).out == Some(None::<DaemonStatusModel>),
        daemon_status(talk).talk.asked == talk.asked.push(
            TaskModel::Exchange(RequestModel::List),
        ),
{
}

/// The status names the socket, the configuration and the state file, each on a
/// line of its own, and behind them the daemon: whether it runs, and where it
/// does, both counts and whether the compositor answers it.
pub proof fn the_status_says_where_and_how_many(
    socket: Seq<char>,
    config: Seq<char>,
    state: Seq<char>,
    daemon: DaemonStatusModel,
)
    ensures
        ({
            let places = "socket: "@ + socket + "\n"@ + ("config: "@ + config + "\n"@) + (
            "state:  "@ + state + "\n"@);
            &&& status_shown(StatusModel { socket, config, state, daemon: None }) == places
                + "daemon: not running"@
            &&& status_shown(StatusModel { socket, config, state, daemon: Some(daemon) }) == places
                + ("daemon: running\nsticky: "@ + text::decimal(daemon.sticky)
                + " window(s)\nstaged: "@ + text::decimal(daemon.staged) + " window(s)\n"@ + (
            match daemon.niri_error {
                None => "niri:   connected"@,
                Some(error) => "niri:   unreachable ("@ + error + ")"@,
            }))
        }),
{
}

/// A configuration that cannot be loaded fails the check with the reason; one
/// that can is printed, as a report in JSON where that is asked for.
pub proof fn a_configuration_is_checked(
    talk: Sess,
    endpoints: EndpointsModel,
    json: bool,
    content: Seq<char>,
    config: ConfigModel,
    e: Chain,
)
    requires
        talk.answers.len() >= 2,
        talk.answers[0] == OutturnModel::Text(content),
    ensures
        loaded(endpoints.config, Ok(content)) == Err::<ConfigModel, Chain>(e) ==> config_check(
            talk,
            endpoints,
            json,
        ).out == Some(Err::<(), Chain>(e)) && config_check(talk, endpoints, json).talk.asked
            == talk.asked.push(TaskModel::ReadConfig),
        loaded(endpoints.config, Ok(content)) == Ok::<ConfigModel, Chain>(config) ==> config_check(
            talk,
            endpoints,
            json,
        ).talk.asked == talk.asked + seq![
            TaskModel::ReadConfig,
            if json {
                TaskModel::PrintReport(
                    crate::cli::report::report_of(config, endpoints.config, endpoints.state),
                )
            } else {
                TaskModel::Print(
                    crate::cli::report::check_text(config, endpoints.config, endpoints.state),
                )
            },
        ],
{
    let one = talk.ask(TaskModel::ReadConfig);
    assert(one.answers[0] == talk.answers[1]);
    if let Ok(config) = loaded(endpoints.config, Ok(content)) {
        let last = if json {
            TaskModel::PrintReport(
                crate::cli::report::report_of(config, endpoints.config, endpoints.state),
            )
        } else {
            TaskModel::Print(
                crate::cli::report::check_text(config, endpoints.config, endpoints.state),
            )
        };
        assert(one.ask(last).asked =~= talk.asked + seq![TaskModel::ReadConfig, last]);
    }
}

/// Windows with the same id stay in the order in which they are reported.
pub proof fn equal_ids_stay_in_their_order(windows: Seq<WindowModel>, w: WindowModel)
    ensures
        (forall|i: int| 0 <= i < windows.len() ==> (#[trigger] windows[i]).id <= w.id) ==> by_id(
            windows.push(w),
        ) == by_id(windows).push(w),
{
    sorting_by_id_sorts(windows);
    let sorted = by_id(windows);
    assert(windows.push(w).drop_last() =~= windows);
    if forall|i: int| 0 <= i < windows.len() ==> (#[trigger] windows[i]).id <= w.id {
        if sorted.len() > 0 {
            let last = sorted.last();
            assert(sorted.contains(last)) by {
                assert(sorted[sorted.len() - 1] == last);
            }
            assert(sorted.to_multiset().contains(last)) by {
                broadcast use vstd::seq_lib::group_to_multiset_ensures;

            }
            assert(windows.contains(last)) by {
                broadcast use vstd::seq_lib::group_to_multiset_ensures;

            }
        }
    }
}

} // verus!
