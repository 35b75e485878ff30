//! Windows as a table.
use vstd::prelude::*;
use vstd::string::*;
use crate::niri::{WindowInfo, WindowModel};
use crate::text;

verus! {

/// A text, or what stands for it where there is none.
pub open spec fn text_or(text: Option<Seq<char>>, fallback: Seq<char>) -> Seq<char> {
    match text {
        Some(text) => text,
        None => fallback,
    }
}

/// A text, or what stands for it where there is none.
pub fn shown_or<'a>(text: &'a Option<String>, fallback: &'a str) -> (r: &'a str)
    ensures
        r@ == text_or(text.deep_view(), fallback@),
{
    match text {
        Some(text) => text.as_str(),
        None => fallback,
    }
}

/// A line of the table.
pub open spec fn row(id: Seq<char>, app_id: Seq<char>, title: Seq<char>) -> Seq<char> {
    text::padded(id, 10) + " "@ + text::padded(app_id, 25) + " "@ + title + "\n"@
}

/// The line of a window.
pub open spec fn window_row(w: WindowModel) -> Seq<char> {
    row(
        text::decimal(w.id as nat),
        text_or(w.app_id, "<unknown>"@),
        text_or(w.title, "<unknown>"@),
    )
}

/// The lines of some windows.
pub open spec fn window_rows(windows: Seq<WindowModel>) -> Seq<char>
    decreases windows.len(),
{
    if windows.len() == 0 {
        Seq::empty()
    } else {
        window_rows(windows.drop_last()) + window_row(windows.last())
    }
}

/// Windows as a table.
pub open spec fn table(windows: Seq<WindowModel>) -> Seq<char> {
    row("ID"@, "APP_ID"@, "TITLE"@) + window_rows(windows)
}

fn show_row(id: &str, app_id: &str, title: &str) -> (r: String)
    ensures
        r@ == row(id@, app_id@, title@),
{
    let mut out = text::pad(id, 10);
    out.append(" ");
    out.append(text::pad(app_id, 25).as_str());
    out.append(" ");
    out.append(title);
    out.append("\n");
    out
}

/// Windows as a table.
pub fn windows_table(windows: &Vec<WindowInfo>) -> (r: String)
    ensures
        r@ == table(windows.deep_view()),
{
    let ghost all = windows.deep_view();
    let ghost header = row("ID"@, "APP_ID"@, "TITLE"@);
    let mut out = show_row("ID", "APP_ID", "TITLE");
    let mut i: usize = 0;
    assert(header + window_rows(all.take(0)) =~= header);
    while i < windows.len()
        invariant
            i <= windows@.len(),
            all == windows.deep_view(),
            out@ == header + window_rows(all.take(i as int)),
        decreases windows.len() - i,
    {
        let w = &windows[i];
        let line = show_row(
            text::number(w.id).as_str(),
            shown_or(&w.app_id, "<unknown>"),
            shown_or(&w.title, "<unknown>"),
        );
        out.append(line.as_str());
        proof {
            assert(all.take(i + 1).drop_last() =~= all.take(i as int));
            assert(all.take(i + 1).last() == w.deep_view());
            assert(out@ =~= header + (window_rows(all.take(i as int)) + window_row(
                w.deep_view(),
            )));
        }
        i = i + 1;
    }
    assert(all.take(i as int) =~= all);
    out
}

// Filters.

/// A value passes a filter: the filter occurs in it, whatever the case.
pub open spec fn passes(filter: Option<Seq<char>>, value: Option<Seq<char>>) -> bool {
    match filter {
        None => true,
        Some(filter) => match value {
            None => false,
            Some(value) => text::occurs(text::lowercase(value), text::lowercase(filter)),
        },
    }
}

/// Filters on the application and on the title.
pub type Filters = (Option<Seq<char>>, Option<Seq<char>>);

/// The windows that pass both filters.
pub open spec fn passing(filters: Filters) -> spec_fn(WindowModel) -> Option<WindowModel> {
    |w: WindowModel|
        if passes(filters.0, w.app_id) && passes(filters.1, w.title) {
            Some(w)
        } else {
            None
        }
}

/// The windows with one of these ids.
pub open spec fn among(ids: Seq<u64>) -> spec_fn(WindowModel) -> Option<WindowModel> {
    |w: WindowModel|
        if ids.contains(w.id) {
            Some(w)
        } else {
            None
        }
}

/// A window in its place in a list sorted by id, behind those with the same id.
pub open spec fn insert_by_id(sorted: Seq<WindowModel>, w: WindowModel) -> Seq<WindowModel>
    decreases sorted.len(),
{
    if sorted.len() == 0 || sorted.last().id <= w.id {
        sorted.push(w)
    } else {
        insert_by_id(sorted.drop_last(), w).push(sorted.last())
    }
}

/// Windows sorted by id; those with the same id stay in their order.
pub open spec fn by_id(windows: Seq<WindowModel>) -> Seq<WindowModel>
    decreases windows.len(),
{
    if windows.len() == 0 {
        Seq::empty()
    } else {
        insert_by_id(by_id(windows.drop_last()), windows.last())
    }
}

/// No window has a smaller id than one before it.
pub open spec fn in_id_order(windows: Seq<WindowModel>) -> bool {
    forall|i: int, j: int| 0 <= i < j < windows.len() ==> windows[i].id <= windows[j].id
}

proof fn insertion_keeps_order(sorted: Seq<WindowModel>, w: WindowModel)
    requires
        in_id_order(sorted),
    ensures
        in_id_order(insert_by_id(sorted, w)),
        insert_by_id(sorted, w).to_multiset() == sorted.to_multiset().insert(w),
        insert_by_id(sorted, w).len() == sorted.len() + 1,
        forall|i: int|
            0 <= i < insert_by_id(sorted, w).len() ==> (#[trigger] insert_by_id(sorted, w)[i]) == w
                || sorted.contains(insert_by_id(sorted, w)[i]),
    decreases sorted.len(),
{
    broadcast use vstd::seq_lib::group_to_multiset_ensures;

    let all = insert_by_id(sorted, w);
    if sorted.len() == 0 || sorted.last().id <= w.id {
        assert forall|i: int| 0 <= i < all.len() implies #[trigger] all[i] == w || sorted.contains(
            all[i],
        ) by {
            if i < sorted.len() {
                assert(all[i] == sorted[i]);
            }
        }
    } else {
        let rest = sorted.drop_last();
        insertion_keeps_order(rest, w);
        assert(rest.push(sorted.last()) =~= sorted);
        let r = insert_by_id(rest, w);
        assert forall|i: int| 0 <= i < r.len() implies (#[trigger] r[i]).id <= sorted.last().id by {
            if r[i] != w {
                let k = choose|k: int| 0 <= k < rest.len() && rest[k] == r[i];
                assert(sorted[k].id <= sorted[sorted.len() - 1].id);
            }
        }
        assert forall|i: int| 0 <= i < all.len() implies #[trigger] all[i] == w || sorted.contains(
            all[i],
        ) by {
            if i < r.len() {
                assert(all[i] == r[i]);
                if r[i] != w {
                    let k = choose|k: int| 0 <= k < rest.len() && rest[k] == r[i];
                    assert(sorted[k] == r[i]);
                }
            } else {
                assert(sorted[sorted.len() - 1] == all[i]);
            }
        }
        assert(r.push(sorted.last()).to_multiset() =~= sorted.to_multiset().insert(w));
    }
}

/// Sorting by id loses no window and adds none, and puts the ids in order.
pub proof fn sorting_by_id_sorts(windows: Seq<WindowModel>)
    ensures
        in_id_order(by_id(windows)),
        by_id(windows).to_multiset() == windows.to_multiset(),
    decreases windows.len(),
{
    broadcast use vstd::seq_lib::group_to_multiset_ensures;

    if windows.len() > 0 {
        sorting_by_id_sorts(windows.drop_last());
        insertion_keeps_order(by_id(windows.drop_last()), windows.last());
        assert(windows.drop_last().push(windows.last()) =~= windows);
    }
}

proof fn insertion_at(sorted: Seq<WindowModel>, w: WindowModel, at: int)
    requires
        0 <= at <= sorted.len(),
        at == 0 || sorted[at - 1].id <= w.id,
        forall|j: int| at <= j < sorted.len() ==> (#[trigger] sorted[j]).id > w.id,
    ensures
        insert_by_id(sorted, w) == sorted.insert(at, w),
    decreases sorted.len(),
{
    if at == sorted.len() {
        assert(sorted.insert(at, w) =~= sorted.push(w));
    } else {
        let rest = sorted.drop_last();
        assert forall|j: int| at <= j < rest.len() implies (#[trigger] rest[j]).id > w.id by {
            assert(sorted[j].id > w.id);
        }
        assert(sorted[sorted.len() - 1].id > w.id);
        insertion_at(rest, w, at);
        assert(sorted.insert(at, w) =~= rest.insert(at, w).push(sorted.last()));
    }
}

fn insert_window(sorted: &mut Vec<WindowInfo>, w: WindowInfo)
    ensures
        final(sorted).deep_view() == insert_by_id(old(sorted).deep_view(), w.deep_view()),
{
    let ghost before = sorted.deep_view();
    let mut at: usize = sorted.len();
    while at > 0 && sorted[at - 1].id > w.id
        invariant
            at <= sorted@.len(),
            before == sorted.deep_view(),
            forall|j: int| at <= j < before.len() ==> (#[trigger] before[j]).id > w.id,
        decreases at,
    {
        assert(before[at - 1].id == sorted@[at - 1].id);
        at = at - 1;
    }
    proof {
        if at > 0 {
            assert(before[at - 1].id == sorted@[at - 1].id);
        }
        insertion_at(before, w.deep_view(), at as int);
    }
    sorted.insert(at, w);
    assert(sorted.deep_view() =~= before.insert(at as int, w.deep_view()));
}

/// Windows sorted by id; those with the same id stay in their order.
pub fn sort_by_id(windows: Vec<WindowInfo>) -> (r: Vec<WindowInfo>)
    ensures
        r.deep_view() == by_id(windows.deep_view()),
{
    let ghost all = windows.deep_view();
    let mut left = windows;
    let mut sorted: Vec<WindowInfo> = Vec::new();
    let ghost mut done: int = 0;
    assert(sorted.deep_view() =~= Seq::empty());
    assert(all.skip(0) =~= all);
    while left.len() > 0
        invariant
            0 <= done <= all.len(),
            left.deep_view() == all.skip(done),
            sorted.deep_view() == by_id(all.take(done)),
        decreases left.len(),
    {
        let ghost rest = left.deep_view();
        let w = left.remove(0);
        proof {
            assert(rest[0] == w.deep_view());
            assert(left.deep_view() =~= rest.drop_first());
            assert(rest.drop_first() =~= all.skip(done + 1));
            assert(all.take(done + 1).drop_last() =~= all.take(done));
            assert(all.take(done + 1).last() == w.deep_view());
        }
        insert_window(&mut sorted, w);
        proof {
            done = done + 1;
        }
    }
    proof {
        assert(all.skip(done).len() == 0);
        assert(all.take(done) =~= all);
    }
    sorted
}

fn text_passes(filter: &Option<String>, value: &Option<String>) -> (r: bool)
    ensures
        r == passes(filter.deep_view(), value.deep_view()),
{
    match filter {
        None => true,
        Some(filter) => match value {
            None => false,
            Some(value) => text::contains(
                text::to_lowercase(value.as_str()).as_str(),
                text::to_lowercase(filter.as_str()).as_str(),
            ),
        },
    }
}

/// Case-insensitive substring filters on app id and title, sorted by id so the
/// output is stable.
pub fn filter_windows(
    windows: Vec<WindowInfo>,
    filters: &(Option<String>, Option<String>),
) -> (r: Vec<WindowInfo>)
    ensures
        r.deep_view() == by_id(
            windows.deep_view().filter_map(passing(filters.deep_view())),
        ),
{
    let ghost all = windows.deep_view();
    let ghost which = passing(filters.deep_view());
    let mut kept: Vec<WindowInfo> = Vec::new();
    let mut i: usize = 0;
    assert(kept.deep_view() =~= all.take(0).filter_map(which));
    while i < windows.len()
        invariant
            i <= windows@.len(),
            all == windows.deep_view(),
            which == passing(filters.deep_view()),
            kept.deep_view() == all.take(i as int).filter_map(which),
        decreases windows.len() - i,
    {
        proof {
            all.lemma_filter_map_take_succ(which, i as int);
        }
        let w = &windows[i];
        let ghost before = kept.deep_view();
        if text_passes(&filters.0, &w.app_id) && text_passes(&filters.1, &w.title) {
            let one = w.clone();
            kept.push(one);
            assert(kept.deep_view() =~= before + seq![w.deep_view()]);
        }
        i = i + 1;
    }
    assert(all.take(i as int) =~= all);
    sort_by_id(kept)
}

fn has_id(ids: &Vec<u64>, id: u64) -> (r: bool)
    ensures
        r == ids@.contains(id),
{
    let mut i: usize = 0;
    while i < ids.len()
        invariant
            i <= ids@.len(),
            forall|j: int| 0 <= j < i ==> ids@[j] != id,
        decreases ids.len() - i,
    {
        if ids[i] == id {
            return true;
        }
        i = i + 1;
    }
    false
}

/// The windows with one of these ids, in the order they come in.
pub fn matching_windows(windows: &Vec<WindowInfo>, ids: &Vec<u64>) -> (r: Vec<WindowInfo>)
    ensures
        r.deep_view() == windows.deep_view().filter_map(among(ids@)),
{
    let ghost all = windows.deep_view();
    let ghost which = among(ids@);
    let mut kept: Vec<WindowInfo> = Vec::new();
    let mut i: usize = 0;
    assert(kept.deep_view() =~= all.take(0).filter_map(which));
    while i < windows.len()
        invariant
            i <= windows@.len(),
            all == windows.deep_view(),
            which == among(ids@),
            kept.deep_view() == all.take(i as int).filter_map(which),
        decreases windows.len() - i,
    {
        proof {
            all.lemma_filter_map_take_succ(which, i as int);
        }
        let w = &windows[i];
        let ghost before = kept.deep_view();
        if has_id(ids, w.id) {
            let one = w.clone();
            kept.push(one);
            assert(kept.deep_view() =~= before + seq![w.deep_view()]);
        }
        i = i + 1;
    }
    assert(all.take(i as int) =~= all);
    kept
}

} // verus!
