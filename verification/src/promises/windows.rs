//! Which windows a request is about, and which of them are listed.
use vstd::prelude::*;
use crate::action::{ActionModel, Conv, ReplyModel};
use crate::business::{
    default_pin, existing, facts_of, has_window, id_by_appid, id_by_title, occupied_by,
    window_output, window_with,
};
use crate::business::sticky::{select_appid, select_title};
use crate::cli::table::{among, by_id, passing, sorting_by_id_sorts, Filters};
use crate::config::StickyFollow;
use crate::lists;
use crate::niri::{WindowModel, WorkspaceModel};
use crate::text;

verus! {

/// The needle stands in the text, letter by letter, from some place on.
pub open spec fn stands_in(text: Seq<char>, needle: Seq<char>) -> bool {
    exists|at: int| #[trigger] stands_at(text, needle, at)
}

/// The needle stands in the text, letter by letter, from this place on.
pub open spec fn stands_at(text: Seq<char>, needle: Seq<char>, at: int) -> bool {
    &&& 0 <= at <= text.len() - needle.len()
    &&& forall|k: int| 0 <= k < needle.len() ==> text[at + k] == #[trigger] needle[k]
}

/// A text occurs in another exactly where it stands in it, at the beginning, at
/// the end or in between.
pub proof fn occurring_is_standing_somewhere(text: Seq<char>, needle: Seq<char>)
    ensures
        text::occurs(text, needle) <==> stands_in(text, needle),
{
    if text::occurs(text, needle) {
        let at = choose|at: int| text::occurs_at(text, needle, at);
        let part = text.subrange(at, at + needle.len());
        assert forall|k: int| 0 <= k < needle.len() implies text[at + k] == #[trigger] needle[k] by {
            assert(part[k] == text[at + k]);
        }
        assert(stands_at(text, needle, at));
    }
    if stands_in(text, needle) {
        let at = choose|at: int| #[trigger] stands_at(text, needle, at);
        assert(text.subrange(at, at + needle.len()) =~= needle);
        assert(text::occurs_at(text, needle, at));
    }
}

/// An app id names a window whose app id is that text and no other, letter by
/// letter: neither a part of it nor a longer one. Every such window is named,
/// in the order the compositor lists them.
pub proof fn an_app_id_names_the_windows_that_have_it(windows: Seq<WindowModel>, app_id: Seq<char>)
    ensures
        lists::selects(
            windows,
            |w: WindowModel| w.app_id == Some(app_id),
            |w: WindowModel| w.id,
            windows.filter_map(id_by_appid(app_id)),
        ),
{
    lists::filtering_selects(
        windows,
        id_by_appid(app_id),
        |w: WindowModel| w.app_id == Some(app_id),
        |w: WindowModel| w.id,
    );
}

/// A title names every window with that text somewhere in its title, in the
/// order the compositor lists them; a window without a title is not named.
pub proof fn a_title_names_the_windows_that_show_it(windows: Seq<WindowModel>, title: Seq<char>)
    ensures
        lists::selects(
            windows,
            |w: WindowModel| w.title is Some && stands_in(w.title->0, title),
            |w: WindowModel| w.id,
            windows.filter_map(id_by_title(title)),
        ),
{
    let p = |w: WindowModel| w.title is Some && stands_in(w.title->0, title);
    let f = id_by_title(title);
    assert forall|w: WindowModel| #[trigger] f(w) == if p(w) {
        Some(w.id)
    } else {
        None
    } by {
        if w.title is Some {
            occurring_is_standing_somewhere(w.title->0, title);
        }
    }
    lists::filtering_selects(windows, f, p, |w: WindowModel| w.id);
}

proof fn nothing_is_selected<A, B>(
    s: Seq<A>,
    p: spec_fn(A) -> bool,
    taken: spec_fn(A) -> B,
    r: Seq<B>,
)
    requires
        lists::selects(s, p, taken, r),
    ensures
        r.len() == 0 <==> forall|i: int| 0 <= i < s.len() ==> !p(#[trigger] s[i]),
{
    let at = choose|at: Seq<int>| #[trigger]
        lists::places_of(s, p, at) && r.len() == at.len() && (forall|k: int|
            0 <= k < r.len() ==> #[trigger] r[k] == taken(s[at[k]]));
    if r.len() > 0 {
        assert(p(s[at[0]]));
    } else {
        assert forall|i: int| 0 <= i < s.len() implies !p(#[trigger] s[i]) by {
            if p(s[i]) {
                assert(at.contains(i));
            }
        }
    }
}

/// A request that names windows by app id asks for the windows once, and is
/// about those that have the app id. Where none has it, it is refused.
pub proof fn requests_by_app_id_are_about_those_windows(
    talk: Conv,
    windows: Seq<WindowModel>,
    app_id: Seq<char>,
)
    requires
        talk.answers.len() > 0,
        talk.answers[0] == ReplyModel::Windows(windows),
    ensures
        ({
            let r = select_appid(talk, app_id);
            let found = exists|i: int|
                0 <= i < windows.len() && (#[trigger] windows[i]).app_id == Some(app_id);
            &&& r.talk.asked == talk.asked.push(ActionModel::Windows)
            &&& r.talk.answers == talk.answers.drop_first()
            &&& r.out is Some
            &&& r.out->0 is Ok <==> found
            &&& r.out->0 matches Ok(ids) ==> lists::selects(
                windows,
                |w: WindowModel| w.app_id == Some(app_id),
                |w: WindowModel| w.id,
                ids,
            )
            &&& r.out->0 matches Err(e) ==> e == seq!["No window found with appid "@ + app_id]
        }),
{
    an_app_id_names_the_windows_that_have_it(windows, app_id);
    let p = |w: WindowModel| w.app_id == Some(app_id);
    nothing_is_selected(
        windows,
        p,
        |w: WindowModel| w.id,
        windows.filter_map(id_by_appid(app_id)),
    );
    if forall|i: int| 0 <= i < windows.len() ==> !p(#[trigger] windows[i]) {
        assert forall|i: int| 0 <= i < windows.len() implies (#[trigger] windows[i]).app_id != Some(
            app_id,
        ) by {
            assert(!p(windows[i]));
        }
    } else {
        let i = choose|i: int| 0 <= i < windows.len() && p(#[trigger] windows[i]);
        assert(windows[i].app_id == Some(app_id));
    }
}

/// A request that names windows by title asks for the windows once, and is
/// about those with the text in their title. Where none has it, it is refused.
pub proof fn requests_by_title_are_about_those_windows(
    talk: Conv,
    windows: Seq<WindowModel>,
    title: Seq<char>,
)
    requires
        talk.answers.len() > 0,
        talk.answers[0] == ReplyModel::Windows(windows),
    ensures
        ({
            let r = select_title(talk, title);
            let found = exists|i: int|
                0 <= i < windows.len() && (#[trigger] windows[i]).title is Some && stands_in(
                    windows[i].title->0,
                    title,
                );
            &&& r.talk.asked == talk.asked.push(ActionModel::Windows)
            &&& r.talk.answers == talk.answers.drop_first()
            &&& r.out is Some
            &&& r.out->0 is Ok <==> found
            &&& r.out->0 matches Ok(ids) ==> lists::selects(
                windows,
                |w: WindowModel| w.title is Some && stands_in(w.title->0, title),
                |w: WindowModel| w.id,
                ids,
            )
            &&& r.out->0 matches Err(e) ==> e == seq!["No window found with title "@ + title]
        }),
{
    a_title_names_the_windows_that_show_it(windows, title);
    let p = |w: WindowModel| w.title is Some && stands_in(w.title->0, title);
    nothing_is_selected(
        windows,
        p,
        |w: WindowModel| w.id,
        windows.filter_map(id_by_title(title)),
    );
    if forall|i: int| 0 <= i < windows.len() ==> !p(#[trigger] windows[i]) {
        assert forall|i: int| 0 <= i < windows.len() && (#[trigger] windows[i]).title is Some implies !stands_in(
            windows[i].title->0,
            title,
        ) by {
            assert(!p(windows[i]));
        }
    } else {
        let i = choose|i: int| 0 <= i < windows.len() && p(#[trigger] windows[i]);
        assert(windows[i].title is Some);
    }
}

/// Some window has the id.
pub open spec fn is_open(windows: Seq<WindowModel>, id: u64) -> bool {
    exists|i: int| 0 <= i < windows.len() && (#[trigger] windows[i]).id == id
}

/// The window at this place has the id, and none listed before it has.
pub open spec fn is_first_window(windows: Seq<WindowModel>, id: u64, at: int) -> bool {
    &&& 0 <= at < windows.len()
    &&& windows[at].id == id
    &&& forall|j: int| 0 <= j < at ==> (#[trigger] windows[j]).id != id
}

/// A window exists while the compositor lists one with its id.
pub proof fn windows_exist_while_they_are_listed(windows: Seq<WindowModel>, id: u64)
    ensures
        has_window(windows, id) <==> is_open(windows, id),
{
    let p = window_with(id);
    if has_window(windows, id) {
        let i = choose|i: int| 0 <= i < windows.len() && p(#[trigger] windows[i]);
        assert(windows[i].id == id);
    }
    if is_open(windows, id) {
        let i = choose|i: int| 0 <= i < windows.len() && (#[trigger] windows[i]).id == id;
        assert(p(windows[i]));
    }
}

/// What is found under an id is the first window listed with it.
pub(crate) proof fn first_window_is_found(windows: Seq<WindowModel>, id: u64, at: int)
    requires
        is_first_window(windows, id, at),
    ensures
        lists::find(windows, window_with(id)) == Some(windows[at]),
        has_window(windows, id),
{
    let p = window_with(id);
    let found = lists::a_search_finds_the_first(windows, p);
    assert(p(windows[at]));
    if found < at {
        assert(windows[found].id != id);
    }
}

/// A window that is open is listed somewhere first.
pub(crate) proof fn open_windows_are_listed_first_somewhere(windows: Seq<WindowModel>, id: u64) -> (at:
    int)
    requires
        is_open(windows, id),
    ensures
        is_first_window(windows, id, at),
{
    let p = window_with(id);
    let at = lists::a_search_finds_the_first(windows, p);
    let i = choose|i: int| 0 <= i < windows.len() && (#[trigger] windows[i]).id == id;
    assert(p(windows[i]));
    assert forall|j: int| 0 <= j < at implies (#[trigger] windows[j]).id != id by {
        assert(!p(windows[j]));
    }
    at
}

/// A window is on the output of the workspace that it says it is on.
pub proof fn windows_are_where_their_workspace_is(
    windows: Seq<WindowModel>,
    layout: Seq<WorkspaceModel>,
    id: u64,
    at: int,
)
    requires
        is_first_window(windows, id, at),
    ensures
        windows[at].workspace_id is None ==> window_output(windows, layout, id) is None,
        forall|i: int|
            windows[at].workspace_id is Some && #[trigger] super::pins::is_first_with_id(
                layout,
                windows[at].workspace_id->0,
                i,
            ) ==> window_output(windows, layout, id) == layout[i].output,
{
    first_window_is_found(windows, id, at);
    if windows[at].workspace_id is Some {
        super::pins::a_workspace_is_on_the_output_listed(layout, windows[at].workspace_id->0);
    }
}

/// Without a rule, a window follows the focus, or is pinned to the one output
/// it is on where windows are to stay on their own output.
pub proof fn default_pins_are_as_configured(
    windows: Seq<WindowModel>,
    layout: Seq<WorkspaceModel>,
    id: u64,
    at: int,
    workspace: int,
)
    requires
        is_first_window(windows, id, at),
        windows[at].workspace_id is Some,
        super::pins::is_first_with_id(layout, windows[at].workspace_id->0, workspace),
    ensures
        default_pin(StickyFollow::Focused, windows, layout, id).len() == 0,
        layout[workspace].output matches Some(output) ==> default_pin(
            StickyFollow::OwnOutput,
            windows,
            layout,
            id,
        ) == seq![output],
        layout[workspace].output is None ==> default_pin(
            StickyFollow::OwnOutput,
            windows,
            layout,
            id,
        ).len() == 0,
{
    windows_are_where_their_workspace_is(windows, layout, id, at);
}

/// A workspace is in use while some window says it is on it.
pub proof fn workspaces_with_windows_are_in_use(windows: Seq<WindowModel>, workspace_id: u64)
    ensures
        occupied_by(windows).contains(workspace_id) <==> exists|i: int|
            0 <= i < windows.len() && (#[trigger] windows[i]).workspace_id == Some(workspace_id),
    decreases windows.len(),
{
    if windows.len() > 0 {
        let rest = windows.drop_last();
        workspaces_with_windows_are_in_use(rest, workspace_id);
        if occupied_by(rest).contains(workspace_id) {
            let i = choose|i: int|
                0 <= i < rest.len() && (#[trigger] rest[i]).workspace_id == Some(workspace_id);
            assert(windows[i].workspace_id == Some(workspace_id));
        }
        if windows.last().workspace_id == Some(workspace_id) {
            assert(windows[windows.len() - 1].workspace_id == Some(workspace_id));
        }
        if exists|i: int|
            0 <= i < windows.len() && (#[trigger] windows[i]).workspace_id == Some(workspace_id) {
            let i = choose|i: int|
                0 <= i < windows.len() && (#[trigger] windows[i]).workspace_id == Some(
                    workspace_id,
                );
            if i < rest.len() {
                assert(rest[i].workspace_id == Some(workspace_id));
            }
        }
    }
}

/// Of tracked windows, those are listed that the compositor lists, in their
/// order.
pub proof fn tracked_windows_are_listed_while_open(windows: Seq<WindowModel>, ids: Seq<u64>)
    ensures
        lists::selects(
            ids,
            |id: u64| is_open(windows, id),
            |id: u64| id,
            ids.filter_map(existing(windows)),
        ),
{
    let p = |id: u64| is_open(windows, id);
    let f = existing(windows);
    assert forall|id: u64| #[trigger] f(id) == if p(id) {
        Some(id)
    } else {
        None
    } by {
        windows_exist_while_they_are_listed(windows, id);
    }
    lists::filtering_selects(ids, f, p, |id: u64| id);
}

/// Rules are held against the app id, the title and the floating state that
/// the compositor reports of a window.
pub proof fn rules_see_what_is_reported(w: WindowModel)
    ensures
        facts_of(w).app_id == w.app_id,
        facts_of(w).title == w.title,
        facts_of(w).floating == w.floating,
{
}

/// The filter, where one is given, stands somewhere in the value, whatever the
/// case of either; a value that is missing passes no filter.
pub open spec fn is_let_through(filter: Option<Seq<char>>, value: Option<Seq<char>>) -> bool {
    filter is Some ==> value is Some && stands_in(
        text::lowercase(value->0),
        text::lowercase(filter->0),
    )
}

/// Windows that pass both filters.
pub open spec fn let_through(filters: Filters) -> spec_fn(WindowModel) -> bool {
    |w: WindowModel| is_let_through(filters.0, w.app_id) && is_let_through(filters.1, w.title)
}

/// The window itself.
pub open spec fn as_it_is() -> spec_fn(WindowModel) -> WindowModel {
    |w: WindowModel| w
}

/// A window is listed exactly when each filter that is given stands somewhere in
/// the field it is for, at whatever place; the windows come in the order of
/// their ids, and none is lost or made up.
pub proof fn windows_are_listed_by_what_they_hold(windows: Seq<WindowModel>, filters: Filters)
    ensures
        ({
            let r = by_id(windows.filter_map(passing(filters)));
            &&& exists|kept: Seq<WindowModel>| #[trigger]
                lists::selects(windows, let_through(filters), as_it_is(), kept) && r.to_multiset()
                    == kept.to_multiset()
            &&& forall|i: int, j: int|
                0 <= i < j < r.len() ==> (#[trigger] r[i]).id <= (#[trigger] r[j]).id
        }),
{
    let p = let_through(filters);
    let f = passing(filters);
    assert forall|w: WindowModel| #[trigger] f(w) == if p(w) {
        Some(w)
    } else {
        None
    } by {
        if filters.0 is Some && w.app_id is Some {
            occurring_is_standing_somewhere(
                text::lowercase(w.app_id->0),
                text::lowercase(filters.0->0),
            );
        }
        if filters.1 is Some && w.title is Some {
            occurring_is_standing_somewhere(
                text::lowercase(w.title->0),
                text::lowercase(filters.1->0),
            );
        }
    }
    lists::filtering_selects(windows, f, p, as_it_is());
    sorting_by_id_sorts(windows.filter_map(f));
}

/// Of the windows that the daemon reports, those are offered whose id is among
/// the staged ones, in the order they are reported.
pub proof fn staged_windows_are_offered_as_reported(windows: Seq<WindowModel>, ids: Seq<u64>)
    ensures
        lists::selects(
            windows,
            |w: WindowModel| exists|k: int| 0 <= k < ids.len() && #[trigger] ids[k] == w.id,
            |w: WindowModel| w,
            windows.filter_map(among(ids)),
        ),
{
    let p = |w: WindowModel| exists|k: int| 0 <= k < ids.len() && #[trigger] ids[k] == w.id;
    let f = among(ids);
    assert forall|w: WindowModel| #[trigger] f(w) == if p(w) {
        Some(w)
    } else {
        None
    } by {}
    lists::filtering_selects(windows, f, p, |w: WindowModel| w);
}

} // verus!
