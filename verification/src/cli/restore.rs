//! `stage restore`: picking staged windows to bring back.
use vstd::prelude::*;
use vstd::string::*;
use super::table::{among, matching_windows, shown_or, text_or};
use super::task::{
    ask_text, choose_selector, comes_to, do_task, exchange, print, read_windows, select, waits,
    went, Said, Selection, Sess, Session, Task, TaskModel,
};
use crate::business::requests::ids_json;
use crate::error::{failure, Chain, Error, Outcome};
use crate::menu::{
    candidates, description, parsed, selector_candidates, CommandModel, MenuSpec, Selector,
    SelectorModel, SpecModel,
};
use crate::niri::{WindowInfo, WindowModel};
use crate::protocol::{Request, RequestModel, Response, ResponseModel};
use crate::text;

verus! {

// What the daemon answers.

/// What `serde_json` reads in a text that should hold a list of ids: the ids, or
/// the text of its error.
pub uninterp spec fn ids_read(text: Seq<char>) -> Result<Seq<u64>, Seq<char>>;

/// Ids or the text of an error, as a mathematical value.
pub open spec fn ids_result(r: Result<Vec<u64>, String>) -> Result<Seq<u64>, Seq<char>> {
    match r {
        Ok(ids) => Ok(ids@),
        Err(message) => Err(message@),
    }
}

/// These ids came out.
pub open spec fn are_ids(r: Result<Vec<u64>, String>, ids: Seq<u64>) -> bool {
    r matches Ok(found) && found@ == ids
}

/// `serde_json::from_str` for a list of ids: what it reads in a text is left to
/// `serde_json`, but that it reads back what `serde_json::to_string` writes.
#[verifier::external_body]
fn decode_ids(text: &str) -> (r: Result<Vec<u64>, String>)
    ensures
        ids_result(r) == ids_read(text@),
        forall|ids: Seq<u64>| text@ == #[trigger] ids_json(ids) ==> are_ids(r, ids),
{
    serde_json::from_str::<Vec<u64>>(text).map_err(|e| e.to_string())
}

/// The ids in the data of a response. The list that the daemon answers with is
/// read back as it was.
pub fn read_ids(data: &str) -> (r: Result<Vec<u64>, Error>)
    ensures
        match ids_read(data@) {
            Ok(ids) => r matches Ok(found) && found@ == ids,
            Err(message) => r matches Err(e) && e.deep_view() == failure(message),
        },
        forall|ids: Seq<u64>|
            data@ == #[trigger] ids_json(ids) ==> (r matches Ok(found) && found@ == ids),
{
    match decode_ids(data) {
        Ok(ids) => Ok(ids),
        Err(message) => Err(Error::new(message.as_str())),
    }
}

/// A response as `Debug` shows it.
pub open spec fn response_shown(response: ResponseModel) -> Seq<char> {
    match response {
        ResponseModel::Success { message } => "Success { message: "@ + text::quoted_text(message)
            + " }"@,
        ResponseModel::Error { message } => "Error { message: "@ + text::quoted_text(message)
            + " }"@,
        ResponseModel::Data { data } => "Data { data: "@ + text::quoted_text(data) + " }"@,
    }
}

/// The error for a response of the wrong kind.
pub open spec fn unexpected_response(response: ResponseModel) -> Chain {
    failure("Unexpected daemon response: "@ + response_shown(response))
}

/// A response as `Debug` shows it.
pub fn show_response(response: &Response) -> (r: String)
    ensures
        r@ == response_shown(response.deep_view()),
{
    let (start, content) = match response {
        Response::Success { message } => ("Success { message: ", message),
        Response::Error { message } => ("Error { message: ", message),
        Response::Data { data } => ("Data { data: ", data),
    };
    let mut out = start.to_owned();
    out.append(text::quoted(content.as_str()).as_str());
    out.append(" }");
    out
}

fn unexpected(response: &Response) -> (r: Error)
    ensures
        r.deep_view() == unexpected_response(response.deep_view()),
{
    let mut message = "Unexpected daemon response: ".to_owned();
    message.append(show_response(response).as_str());
    Error::new(message.as_str())
}

/// The ids of the staged windows.
pub open spec fn staged_ids(talk: Sess) -> Said<Outcome<Seq<u64>>> {
    let reply = exchange(talk, RequestModel::StageList);
    Said {
        talk: reply.talk,
        out: match reply.out {
            None => None,
            Some(Err(e)) => Some(Err(e)),
            Some(Ok(ResponseModel::Data { data })) => match ids_read(data) {
                Ok(ids) => Some(Ok(ids)),
                Err(message) => Some(Err(failure(message))),
            },
            Some(Ok(ResponseModel::Error { message })) => Some(Err(failure(message))),
            Some(Ok(other)) => Some(Err(unexpected_response(other))),
        },
    }
}

/// The windows with one of these ids, in the order the daemon reports them.
pub open spec fn fetch_windows(talk: Sess, ids: Seq<u64>) -> Said<Outcome<Seq<WindowModel>>> {
    let reply = exchange(talk, RequestModel::Windows);
    match reply.out {
        None => waits(reply.talk),
        Some(Err(e)) => comes_to(reply.talk, Err(e)),
        Some(Ok(ResponseModel::Data { data })) => {
            let windows = read_windows(reply.talk, data);
            Said {
                talk: windows.talk,
                out: match windows.out {
                    None => None,
                    Some(Err(e)) => Some(Err(e)),
                    Some(Ok(ws)) => Some(Ok(ws.filter_map(among(ids)))),
                },
            }
        },
        Some(Ok(ResponseModel::Error { message })) => comes_to(reply.talk, Err(failure(message))),
        Some(Ok(other)) => comes_to(reply.talk, Err(unexpected_response(other))),
    }
}

/// One window is unstaged, and the confirmation printed.
pub open spec fn unstage(talk: Sess, id: u64) -> Said<Outcome<()>> {
    let reply = exchange(talk, RequestModel::Unstage { window_id: id });
    match reply.out {
        None => waits(reply.talk),
        Some(Err(e)) => comes_to(reply.talk, Err(e)),
        Some(Ok(ResponseModel::Success { message })) => print(reply.talk, message + "\n"@),
        Some(Ok(ResponseModel::Error { message })) => comes_to(reply.talk, Err(failure(message))),
        Some(Ok(other)) => comes_to(reply.talk, Err(unexpected_response(other))),
    }
}

/// Windows are unstaged one after the other, up to the first that fails.
pub open spec fn unstage_each(talk: Sess, ids: Seq<u64>) -> Said<Outcome<()>>
    decreases ids.len(),
{
    if ids.len() == 0 {
        comes_to(talk, Ok(()))
    } else {
        let one = unstage(talk, ids[0]);
        match one.out {
            Some(Ok(())) => unstage_each(one.talk, ids.drop_first()),
            _ => one,
        }
    }
}

/// A list of ids was asked for as described.
pub open spec fn went_ids(
    said: Said<Outcome<Seq<u64>>>,
    talk: Session,
    r: Option<Result<Vec<u64>, Error>>,
) -> bool {
    &&& talk.deep_view() == said.talk
    &&& (match r {
        None => said.out is None,
        Some(Ok(ids)) => said.out == Some(Ok::<Seq<u64>, Chain>(ids@)),
        Some(Err(e)) => said.out == Some(Err::<Seq<u64>, Chain>(e.deep_view())),
    })
}

/// Window ids sitting in the stage workspace right now.
pub fn stage_ids(talk: &mut Session) -> (r: Option<Result<Vec<u64>, Error>>)
    ensures
        went_ids(staged_ids(old(talk).deep_view()), *final(talk), r),
{
    match talk.exchange(Request::StageList) {
        None => None,
        Some(Err(e)) => Some(Err(e)),
        Some(Ok(Response::Data { data })) => Some(read_ids(data.as_str())),
        Some(Ok(Response::Error { message })) => Some(Err(Error::new(message.as_str()))),
        Some(Ok(other)) => Some(Err(unexpected(&other))),
    }
}

/// Ask the daemon for its window list and keep the entries whose id is in
/// `ids`, in the order it reports them.
pub fn fetch_windows_matching(talk: &mut Session, ids: &Vec<u64>) -> (r: Option<
    Result<Vec<WindowInfo>, Error>,
>)
    ensures
        went(fetch_windows(old(talk).deep_view(), ids@), *final(talk), r),
{
    match talk.exchange(Request::Windows) {
        None => None,
        Some(Err(e)) => Some(Err(e)),
        Some(Ok(Response::Data { data })) => match talk.read_windows(data) {
            None => None,
            Some(Err(e)) => Some(Err(e)),
            Some(Ok(windows)) => Some(Ok(matching_windows(&windows, ids))),
        },
        Some(Ok(Response::Error { message })) => Some(Err(Error::new(message.as_str()))),
        Some(Ok(other)) => Some(Err(unexpected(&other))),
    }
}

fn unstage_one(talk: &mut Session, id: u64) -> (r: Option<Result<(), Error>>)
    ensures
        went(unstage(old(talk).deep_view(), id), *final(talk), r),
{
    match talk.exchange(Request::Unstage { window_id: id }) {
        None => None,
        Some(Err(e)) => Some(Err(e)),
        Some(Ok(Response::Success { message })) => {
            let mut line = message;
            line.append("\n");
            talk.print(line)
        },
        Some(Ok(Response::Error { message })) => Some(Err(Error::new(message.as_str()))),
        Some(Ok(other)) => Some(Err(unexpected(&other))),
    }
}

#[verifier::loop_isolation(false)]
fn unstage_all(talk: &mut Session, ids: &Vec<u64>) -> (r: Option<Result<(), Error>>)
    ensures
        went(unstage_each(old(talk).deep_view(), ids@), *final(talk), r),
{
    let ghost start = talk.deep_view();
    let mut i: usize = 0;
    assert(ids@.skip(0) =~= ids@);
    while i < ids.len()
        invariant
            i <= ids@.len(),
            unstage_each(start, ids@) == unstage_each(talk.deep_view(), ids@.skip(i as int)),
        decreases ids.len() - i,
    {
        assert(ids@.skip(i as int)[0] == ids@[i as int]);
        assert(ids@.skip(i as int).drop_first() =~= ids@.skip(i + 1));
        match unstage_one(talk, ids[i]) {
            None => {
                return None;
            },
            Some(Err(e)) => {
                return Some(Err(e));
            },
            Some(Ok(())) => {},
        }
        i = i + 1;
    }
    Some(Ok(()))
}

// The built-in prompt.

/// One staged window in the list of the prompt.
pub open spec fn choice(number: nat, w: WindowModel) -> Seq<char> {
    " "@ + text::decimal(number) + ". "@ + text_or(w.app_id, "?"@) + " — "@ + text_or(w.title, "?"@)
        + "  [ID: "@ + text::decimal(w.id as nat) + "]\n"@
}

/// The staged windows in the list of the prompt, numbered from 1.
pub open spec fn choices(staged: Seq<WindowModel>) -> Seq<char>
    decreases staged.len(),
{
    if staged.len() == 0 {
        Seq::empty()
    } else {
        choices(staged.drop_last()) + choice(staged.len(), staged.last())
    }
}

/// What the prompt shows.
pub open spec fn prompt(staged: Seq<WindowModel>) -> Seq<char> {
    "\n"@ + choices(staged) + "\nRestore (1-"@ + text::decimal(staged.len())
        + ", space-separated for multiple, q): "@
}

/// The window a word picks: one of the numbers shown.
pub open spec fn picked(staged: Seq<WindowModel>) -> spec_fn(Seq<char>) -> Option<u64> {
    |word: Seq<char>|
        match text::natural_in(word) {
            Some(n) => if 1 <= n <= staged.len() {
                Some(staged[n - 1].id)
            } else {
                None
            },
            None => None,
        }
}

/// The windows a line picks. `q` and nothing at all pick none.
pub open spec fn picks(staged: Seq<WindowModel>, typed: Seq<char>) -> Seq<u64> {
    let line = text::trimmed(typed);
    if line == "q"@ || line == "Q"@ || line.len() == 0 {
        Seq::empty()
    } else {
        text::words_of(line).filter_map(picked(staged))
    }
}

/// The user picks windows by their numbers.
pub open spec fn terminal_restore(talk: Sess, staged: Seq<WindowModel>) -> Said<Outcome<()>> {
    let typed = ask_text(talk, TaskModel::Prompt(prompt(staged)));
    match typed.out {
        None => waits(typed.talk),
        Some(Err(e)) => comes_to(typed.talk, Err(e)),
        Some(Ok(line)) => unstage_each(typed.talk, picks(staged, line)),
    }
}

/// What the prompt shows.
pub fn prompt_text(staged: &Vec<WindowInfo>) -> (r: String)
    ensures
        r@ == prompt(staged.deep_view()),
{
    let ghost all = staged.deep_view();
    let mut out = "\n".to_owned();
    let mut i: usize = 0;
    assert("\n"@ + choices(all.take(0)) =~= "\n"@);
    while i < staged.len()
        invariant
            i <= staged@.len(),
            all == staged.deep_view(),
            out@ == "\n"@ + choices(all.take(i as int)),
        decreases staged.len() - i,
    {
        let w = &staged[i];
        let mut line = " ".to_owned();
        line.append(text::number((i + 1) as u64).as_str());
        line.append(". ");
        line.append(shown_or(&w.app_id, "?"));
        line.append(" — ");
        line.append(shown_or(&w.title, "?"));
        line.append("  [ID: ");
        line.append(text::number(w.id).as_str());
        line.append("]\n");
        out.append(line.as_str());
        proof {
            assert(all.take(i + 1).drop_last() =~= all.take(i as int));
            assert(all.take(i + 1).last() == w.deep_view());
            assert(out@ =~= "\n"@ + (choices(all.take(i as int)) + choice(
                (i + 1) as nat,
                w.deep_view(),
            )));
        }
        i = i + 1;
    }
    assert(all.take(i as int) =~= all);
    out.append("\nRestore (1-");
    out.append(text::number(staged.len() as u64).as_str());
    out.append(", space-separated for multiple, q): ");
    out
}

/// The windows a line picks. Words that are none of the numbers shown are
/// passed over.
pub fn picked_ids(staged: &Vec<WindowInfo>, typed: &str) -> (r: Vec<u64>)
    ensures
        r@ == picks(staged.deep_view(), typed@),
{
    let line = text::trim(typed);
    let mut ids: Vec<u64> = Vec::new();
    if line.is_empty() || text::same(line, "q") || text::same(line, "Q") {
        return ids;
    }
    let words = text::words(line);
    let count: usize = staged.len();
    let ghost all = words.deep_view();
    let ghost which = picked(staged.deep_view());
    let mut i: usize = 0;
    assert(ids@ =~= all.take(0).filter_map(which));
    while i < words.len()
        invariant
            i <= words@.len(),
            all == words.deep_view(),
            which == picked(staged.deep_view()),
            count == staged@.len(),
            ids@ == all.take(i as int).filter_map(which),
        decreases words.len() - i,
    {
        proof {
            all.lemma_filter_map_take_succ(which, i as int);
        }
        let ghost before = ids@;
        if let Some(n) = text::read_number(words[i].as_str()) {
            if 1 <= n && n <= count as u64 {
                let at: usize = (n - 1) as usize;
                assert(staged.deep_view()[at as int].id == staged@[at as int].id);
                ids.push(staged[at].id);
                assert(ids@ =~= before + seq![staged@[at as int].id]);
            }
        }
        i = i + 1;
    }
    assert(all.take(i as int) =~= all);
    ids
}

/// Fallback used when no external selector is configured: the user types the
/// numbers of the windows to restore (space separated), `q` cancels.
pub fn run_terminal_restore(talk: &mut Session, staged: &Vec<WindowInfo>) -> (r: Option<
    Result<(), Error>,
>)
    ensures
        went(terminal_restore(old(talk).deep_view(), staged.deep_view()), *final(talk), r),
{
    match talk.text(Task::Prompt(prompt_text(staged))) {
        None => None,
        Some(Err(e)) => Some(Err(e)),
        Some(Ok(line)) => unstage_all(talk, &picked_ids(staged, line.as_str())),
    }
}

// A selector.

/// The pattern for the id in a line of a selector.
pub const ID_PATTERN: &'static str = "\\d+";

/// The first match of a pattern in a text.
pub uninterp spec fn regex_find(pattern: Seq<char>, text: Seq<char>) -> Option<Seq<char>>;

/// This was found.
pub open spec fn is_found(r: Option<String>, found: Seq<char>) -> bool {
    r matches Some(text) && text@ == found
}

/// `regex::Regex::find`: the first match of a pattern in a text; none for a
/// pattern that `regex` does not accept. What a pattern finds is left to
/// `regex`, but that `\d+` finds the digits a text starts with, up to its end or
/// to a tab.
#[verifier::external_body]
fn find_match(pattern: &str, text: &str) -> (r: Option<String>)
    ensures
        r.deep_view() == regex_find(pattern@, text@),
        forall|n: int|
            pattern@ == ID_PATTERN@ && 0 < n <= text@.len() && #[trigger] text::is_digits(
                text@.take(n),
            ) && (n == text@.len() || text@[n] == '\t') ==> is_found(r, text@.take(n)),
{
    let regex = regex::Regex::new(pattern).ok()?;
    Some(regex.find(text)?.as_str().to_owned())
}

/// The id in a line, given what the pattern finds in it.
pub open spec fn id_found(found: Option<Seq<char>>) -> Option<u64> {
    match found {
        Some(digits) => match text::natural_in(digits) {
            Some(n) => if n <= u64::MAX {
                Some(n as u64)
            } else {
                None
            },
            None => None,
        },
        None => None,
    }
}

/// The id in a line of a selector.
pub open spec fn id_in_line() -> spec_fn(Seq<char>) -> Option<u64> {
    |line: Seq<char>| id_found(regex_find(ID_PATTERN@, text::trimmed(line)))
}

/// The id in a line, given what the pattern finds in it.
pub fn found_id(found: Option<String>) -> (r: Option<u64>)
    ensures
        r == id_found(found.deep_view()),
{
    match found {
        Some(digits) => text::read_number(digits.as_str()),
        None => None,
    }
}

/// The line starts with an id, and ends there or goes on with a tab.
pub open spec fn is_entry_of(line: Seq<char>, id: u64) -> bool {
    let digits = text::decimal(id as nat);
    &&& digits.len() <= line.len()
    &&& line.take(digits.len() as int) == digits
    &&& line.len() == digits.len() || line[digits.len() as int] == '\t'
}

/// Each line starts with the id that is in its place.
pub open spec fn are_entries_of(lines: Seq<Seq<char>>, ids: Seq<u64>) -> bool {
    &&& lines.len() == ids.len()
    &&& forall|i: int| 0 <= i < lines.len() ==> is_entry_of(#[trigger] lines[i], ids[i])
}

/// First integer of a selector output line: the id nsticky prints at the start
/// of every entry it feeds the selector.
pub fn first_window_id(line: &str) -> (r: Option<u64>)
    ensures
        r == id_in_line()(line@),
        forall|id: u64| #[trigger] is_entry_of(line@, id) ==> r == Some(id),
{
    let trimmed = text::trim(line);
    let found = find_match(ID_PATTERN, trimmed);
    proof {
        assert forall|id: u64| #[trigger] is_entry_of(line@, id) implies id_found(
            found.deep_view(),
        ) == Some(id) by {
            let digits = text::decimal(id as nat);
            let n = digits.len() as int;
            text::decimals_are_read_back(id as nat);
            assert(text::is_digits(line@.take(n)));
            text::leading_digits_stay(line@, n);
            let kept = trimmed@.len() as int;
            assert(n <= kept && trimmed@ == line@.take(kept));
            assert(trimmed@.take(n) =~= line@.take(n));
            assert(n < kept ==> trimmed@[n] == line@[n]);
        }
    }
    found_id(found)
}

/// One staged window in the input of a selector.
pub open spec fn entry(w: WindowModel) -> Seq<char> {
    text::decimal(w.id as nat) + "\t"@ + text_or(w.app_id, "?"@) + " — "@ + text_or(w.title, "?"@)
}

/// What a selector is fed of a window names the window, whichever way its
/// title goes on.
pub proof fn entries_name_their_windows(w: WindowModel)
    ensures
        is_entry_of(entry(w), w.id),
{
    let digits = text::decimal(w.id as nat);
    reveal_strlit("\t");
    assert(entry(w).take(digits.len() as int) =~= digits);
    assert(entry(w)[digits.len() as int] == '\t');
}

/// The input of a selector: one line for each staged window.
pub open spec fn menu_input(staged: Seq<WindowModel>) -> Seq<char> {
    text::joined(staged.map_values(|w: WindowModel| entry(w)), "\n"@)
}

/// The windows a selector picked.
pub open spec fn selected(output: Seq<u8>) -> Seq<u64> {
    text::lines_of(text::lossy_text(output)).filter_map(id_in_line())
}

/// The notice for a selector that failed. It is never silent: for a bound
/// shortcut, this status is the clue.
pub open spec fn menu_failure(status: Seq<char>, command: CommandModel) -> Seq<char> {
    "Menu exited with "@ + status + "\n\n"@ + description(command) + "\n"@
}

/// The user picks windows with a selector.
pub open spec fn menu_restore(talk: Sess, spec: SpecModel, staged: Seq<WindowModel>) -> Said<
    Outcome<()>,
> {
    match parsed(spec) {
        Err(e) => comes_to(talk, Err(e)),
        Ok(command) => {
            let selection = select(talk, command, menu_input(staged));
            match selection.out {
                None => waits(selection.talk),
                Some(Err(e)) => comes_to(selection.talk, Err(e)),
                Some(Ok(chosen)) => match chosen.failed {
                    Some(status) => do_task(
                        selection.talk,
                        TaskModel::Notice(menu_failure(status, command)),
                    ),
                    None => unstage_each(selection.talk, selected(chosen.output)),
                },
            }
        },
    }
}

/// The input of a selector: one line for each staged window.
pub fn menu_text(staged: &Vec<WindowInfo>) -> (r: String)
    ensures
        r@ == menu_input(staged.deep_view()),
{
    let ghost all = staged.deep_view();
    let ghost shown = |w: WindowModel| entry(w);
    let mut lines: Vec<String> = Vec::new();
    let mut i: usize = 0;
    while i < staged.len()
        invariant
            i <= staged@.len(),
            all == staged.deep_view(),
            shown == (|w: WindowModel| entry(w)),
            lines.deep_view() =~= all.take(i as int).map_values(shown),
        decreases staged.len() - i,
    {
        let w = &staged[i];
        let ghost before = lines.deep_view();
        let mut line = text::number(w.id);
        line.append("\t");
        line.append(shown_or(&w.app_id, "?"));
        line.append(" — ");
        line.append(shown_or(&w.title, "?"));
        lines.push(line);
        assert(lines.deep_view() =~= before.push(entry(all[i as int])));
        i = i + 1;
    }
    assert(all.take(i as int) =~= all);
    let slice = lines.as_slice();
    assert(slice.deep_view() =~= lines.deep_view());
    text::join(slice, "\n")
}

/// The windows a selector picked; lines without an id are passed over. Lines of
/// the input that come back as they were name their windows.
pub fn selected_ids(output: &Vec<u8>) -> (r: Vec<u64>)
    ensures
        r@ == selected(output@),
        forall|ids: Seq<u64>| #[trigger]
            are_entries_of(text::lines_of(text::lossy_text(output@)), ids) ==> r@ == ids,
{
    let lines = text::lines(text::decode(output).as_str());
    let ghost all = lines.deep_view();
    let mut ids: Vec<u64> = Vec::new();
    let mut i: usize = 0;
    assert(ids@ =~= all.take(0).filter_map(id_in_line()));
    while i < lines.len()
        invariant
            i <= lines@.len(),
            all == lines.deep_view(),
            ids@ == all.take(i as int).filter_map(id_in_line()),
            forall|picked: Seq<u64>| #[trigger]
                are_entries_of(all, picked) ==> ids@ == picked.take(i as int),
        decreases lines.len() - i,
    {
        proof {
            all.lemma_filter_map_take_succ(id_in_line(), i as int);
        }
        let ghost before = ids@;
        if let Some(id) = first_window_id(lines[i].as_str()) {
            ids.push(id);
            assert(ids@ =~= before + seq![id]);
        }
        assert forall|picked: Seq<u64>| #[trigger] are_entries_of(all, picked) implies ids@
            == picked.take(i + 1) by {
            assert(is_entry_of(all[i as int], picked[i as int]));
            assert(picked.take(i + 1) =~= picked.take(i as int).push(picked[i as int]));
        }
        i = i + 1;
    }
    assert(all.take(i as int) =~= all);
    assert forall|picked: Seq<u64>| #[trigger] are_entries_of(all, picked) implies ids@
        == picked by {
        assert(picked.take(i as int) =~= picked);
    }
    ids
}

/// Feed the selector one `"<id>\t<app_id> — <title>"` line per staged window and
/// unstage every id its stdout holds (a multi-select prints several lines).
pub fn run_menu_restore(talk: &mut Session, spec: &MenuSpec, staged: &Vec<WindowInfo>) -> (r:
    Option<Result<(), Error>>)
    ensures
        went(
            menu_restore(old(talk).deep_view(), spec.deep_view(), staged.deep_view()),
            *final(talk),
            r,
        ),
{
    let command = match spec.parse() {
        Ok(command) => command,
        Err(e) => {
            return Some(Err(e));
        },
    };
    let shown = command.describe();
    match talk.select(command, menu_text(staged)) {
        None => None,
        Some(Err(e)) => Some(Err(e)),
        Some(Ok(Selection { failed, output })) => match failed {
            Some(status) => {
                let mut notice = "Menu exited with ".to_owned();
                notice.append(status.as_str());
                notice.append("\n\n");
                notice.append(shown.as_str());
                notice.append("\n");
                talk.perform(Task::Notice(notice))
            },
            None => unstage_all(talk, &selected_ids(&output)),
        },
    }
}

// The command.

/// The programs of the selectors that are looked for.
pub open spec fn known_programs() -> Seq<Seq<char>> {
    candidates().map_values(|argv: Seq<Seq<char>>| argv[0])
}

/// What is said without a selector, before the selectors that are known.
pub const NO_SELECTOR: &'static str =
    "No selector available: stdin is not a terminal and no `menu` is configured.\n\
     Set one in config.toml or NSTICKY_MENU, for example:\n\
     \tmenu = \"vicinae dmenu --placeholder 'Restore Window:'\"\n\
     Recommended selector: Vicinae (https://www.vicinae.com/)\n\
     Known selectors: ";

/// Why there is nothing to pick windows with.
pub open spec fn no_selector() -> Seq<char> {
    NO_SELECTOR@ + text::joined(known_programs(), ", "@)
}

/// Staged windows are brought back, as the user picks them.
pub open spec fn stage_restore(talk: Sess) -> Said<Outcome<()>> {
    let ids = staged_ids(talk);
    match ids.out {
        None => waits(ids.talk),
        Some(Err(e)) => comes_to(ids.talk, Err(e)),
        Some(Ok(staged)) => {
            let selector = choose_selector(ids.talk);
            match selector.out {
                None => waits(selector.talk),
                Some(Err(e)) => comes_to(selector.talk, Err(e)),
                Some(Ok(SelectorModel::Unavailable)) => comes_to(
                    selector.talk,
                    Err(failure(no_selector())),
                ),
                Some(Ok(SelectorModel::Terminal)) => prompted_restore(selector.talk, staged),
                Some(Ok(SelectorModel::Command(spec))) => {
                    let windows = fetch_windows(selector.talk, staged);
                    match windows.out {
                        None => waits(windows.talk),
                        Some(Err(e)) => comes_to(windows.talk, Err(e)),
                        Some(Ok(ws)) => menu_restore(windows.talk, spec, ws),
                    }
                },
            }
        },
    }
}

/// The restore at a terminal: where nothing is staged, there is no prompt.
pub open spec fn prompted_restore(talk: Sess, ids: Seq<u64>) -> Said<Outcome<()>> {
    if ids.len() == 0 {
        print(talk, "No staged windows.\n"@)
    } else {
        let windows = fetch_windows(talk, ids);
        match windows.out {
            None => waits(windows.talk),
            Some(Err(e)) => comes_to(windows.talk, Err(e)),
            Some(Ok(ws)) => if ws.len() == 0 {
                print(windows.talk, "No active staged windows found.\n"@)
            } else {
                terminal_restore(windows.talk, ws)
            },
        }
    }
}

fn missing_selector() -> (r: Error)
    ensures
        r.deep_view() == failure(no_selector()),
{
    let all = selector_candidates();
    let ghost first = |argv: Seq<Seq<char>>| argv[0];
    let mut programs: Vec<String> = Vec::new();
    let mut i: usize = 0;
    while i < all.len()
        invariant
            i <= all@.len(),
            all.deep_view() == candidates(),
            first == (|argv: Seq<Seq<char>>| argv[0]),
            programs.deep_view() =~= candidates().take(i as int).map_values(first),
        decreases all.len() - i,
    {
        let argv = &all[i];
        let ghost before = programs.deep_view();
        assert(argv.deep_view() == candidates()[i as int]);
        assert(argv@.len() == candidates()[i as int].len());
        proof {
            crate::menu::candidates_have_programs(i as int);
        }
        assert(argv.deep_view()[0] == argv@[0]@);
        programs.push(argv[0].to_owned());
        assert(programs.deep_view() =~= before.push(first(candidates()[i as int])));
        i = i + 1;
    }
    assert(candidates().take(i as int) =~= candidates());
    let slice = programs.as_slice();
    assert(slice.deep_view() =~= known_programs());
    let mut message = NO_SELECTOR.to_owned();
    message.append(text::join(slice, ", ").as_str());
    Error::new(message.as_str())
}

fn run_prompted_restore(talk: &mut Session, ids: &Vec<u64>) -> (r: Option<Result<(), Error>>)
    ensures
        went(prompted_restore(old(talk).deep_view(), ids@), *final(talk), r),
{
    // Short-circuit so an empty list never prints a prompt.
    if ids.len() == 0 {
        return talk.print("No staged windows.\n".to_owned());
    }
    match fetch_windows_matching(talk, ids) {
        None => None,
        Some(Err(e)) => Some(Err(e)),
        Some(Ok(staged)) => {
            if staged.len() == 0 {
                talk.print("No active staged windows found.\n".to_owned())
            } else {
                run_terminal_restore(talk, &staged)
            }
        },
    }
}

/// Staged windows are brought back, as the user picks them.
pub fn run_stage_restore(talk: &mut Session) -> (r: Option<Result<(), Error>>)
    ensures
        went(stage_restore(old(talk).deep_view()), *final(talk), r),
{
    let ids = match stage_ids(talk) {
        None => {
            return None;
        },
        Some(Err(e)) => {
            return Some(Err(e));
        },
        Some(Ok(ids)) => ids,
    };
    match talk.choose_selector() {
        None => None,
        Some(Err(e)) => Some(Err(e)),
        Some(Ok(Selector::Unavailable)) => Some(Err(missing_selector())),
        Some(Ok(Selector::Terminal)) => run_prompted_restore(talk, &ids),
        // Open the selector even when nothing is staged: it shows its own empty
        // state, so a bound shortcut never looks dead.
        Some(Ok(Selector::Command(spec))) => match fetch_windows_matching(talk, &ids) {
            None => None,
            Some(Err(e)) => Some(Err(e)),
            Some(Ok(staged)) => run_menu_restore(talk, &spec, &staged),
        },
    }
}

} // verus!
