//! What the settings of a configuration document come to.
use vstd::prelude::*;
use super::tracking::{only_entries_count, the_last_entry_counts};
use crate::config::{
    bool_at, collected, config_of, follow_of, keep_of, loaded, menu_of, name_of, number_in, pad_of,
    pads_from, pads_of, patterns_of, pin_of, regex_fault, rule_of, rules_from, section_of, size_at,
    size_in, spawn_of, texts_from, texts_of, without_px, ConfigModel, PadModel, RuleModel,
    SizeModel, StickyFollow, HUNDRED_BITS,
};
use crate::document::{entry, toml_document, ContentModel, EntriesModel, SettingModel};
use crate::error::Chain;
use crate::lists;
use crate::menu::SpecModel;
use crate::text;

verus! {

/// The key is set to this value: no later entry sets it again.
pub open spec fn is_set(table: EntriesModel, key: Seq<char>, value: SettingModel) -> bool {
    exists|at: int| #[trigger] is_set_at(table, key, value, at)
}

/// The key is set to this value at this place, and not again behind it.
pub open spec fn is_set_at(
    table: EntriesModel,
    key: Seq<char>,
    value: SettingModel,
    at: int,
) -> bool {
    &&& 0 <= at < table.len()
    &&& table[at].0 == key
    &&& table[at].1 == value
    &&& forall|j: int| at < j < table.len() ==> (#[trigger] table[j]).0 != key
}

/// No entry sets the key.
pub open spec fn is_unset(table: EntriesModel, key: Seq<char>) -> bool {
    forall|i: int| 0 <= i < table.len() ==> (#[trigger] table[i]).0 != key
}

/// A key has the value that it is set to, and none where it is not set.
pub proof fn keys_have_the_value_they_are_set_to(table: EntriesModel, key: Seq<char>)
    ensures
        forall|value: SettingModel| #[trigger]
            is_set(table, key, value) ==> entry(table, key) == Some(value),
        is_unset(table, key) <==> entry(table, key) is None,
{
    only_entries_count(table, key);
    assert forall|value: SettingModel| #[trigger] is_set(table, key, value) implies entry(
        table,
        key,
    ) == Some(value) by {
        let at = choose|at: int| #[trigger] is_set_at(table, key, value, at);
        the_last_entry_counts(table, at);
    }
    if entry(table, key) is Some {
        let i = choose|i: int| 0 <= i < table.len() && (#[trigger] table[i]).0 == key;
        assert(table[i].0 == key);
    } else {
        assert forall|i: int| 0 <= i < table.len() implies (#[trigger] table[i]).0 != key by {}
    }
}

/// The text has something in it besides white space.
pub open spec fn says_something(t: Seq<char>) -> bool {
    exists|i: int| 0 <= i < t.len() && !text::white(#[trigger] t[i])
}

proof fn saying_something_is_not_blank(t: Seq<char>)
    ensures
        says_something(t) <==> text::trimmed(t).len() > 0,
{
    super::texts::trimming_takes_white_space_off_both_ends(t);
}

// Truth values and names.

/// The stage workspace is kept only where that is set to true; the spelling with
/// underscores counts where both are set. Anything but a truth value is refused.
pub proof fn the_stage_is_kept_where_that_is_set(
    table: EntriesModel,
    hyphens: SettingModel,
    underscores: SettingModel,
    a: bool,
    b: bool,
)
    ensures
        is_unset(table, "stage-keep-workspace"@) && is_unset(table, "stage_keep_workspace"@)
            ==> keep_of(table) == Ok::<bool, Chain>(false),
        is_set(table, "stage-keep-workspace"@, hyphens) && hyphens.content
            == ContentModel::Boolean(a) && is_unset(table, "stage_keep_workspace"@) ==> keep_of(
            table,
        ) == Ok::<bool, Chain>(a),
        is_unset(table, "stage-keep-workspace"@) && is_set(
            table,
            "stage_keep_workspace"@,
            underscores,
        ) && underscores.content == ContentModel::Boolean(b) ==> keep_of(table) == Ok::<
            bool,
            Chain,
        >(b),
        is_set(table, "stage-keep-workspace"@, hyphens) && hyphens.content
            == ContentModel::Boolean(a) && is_set(table, "stage_keep_workspace"@, underscores)
            && underscores.content == ContentModel::Boolean(b) ==> keep_of(table) == Ok::<
            bool,
            Chain,
        >(b),
        is_set(table, "stage-keep-workspace"@, hyphens) && !(hyphens.content is Boolean)
            ==> keep_of(table) is Err,
        is_set(table, "stage_keep_workspace"@, underscores) && !(underscores.content is Boolean)
            ==> keep_of(table) is Err,
{
    keys_have_the_value_they_are_set_to(table, "stage-keep-workspace"@);
    keys_have_the_value_they_are_set_to(table, "stage_keep_workspace"@);
}

/// Sticky windows follow the focus unless it is set otherwise: `focused` says
/// the same, `own-output` that they stay on their output. The spelling with
/// underscores counts where both are set, and anything else is refused.
pub proof fn following_is_as_it_is_set(
    table: EntriesModel,
    hyphens: SettingModel,
    underscores: SettingModel,
)
    ensures
        is_unset(table, "sticky-follow"@) && is_unset(table, "sticky_follow"@) ==> follow_of(table)
            == Ok::<StickyFollow, Chain>(StickyFollow::Focused),
        is_set(table, "sticky-follow"@, hyphens) && is_unset(table, "sticky_follow"@) ==> {
            &&& hyphens.content == ContentModel::Text("focused"@) ==> follow_of(table) == Ok::<
                StickyFollow,
                Chain,
            >(StickyFollow::Focused)
            &&& hyphens.content == ContentModel::Text("own-output"@) ==> follow_of(table) == Ok::<
                StickyFollow,
                Chain,
            >(StickyFollow::OwnOutput)
        },
        is_set(table, "sticky_follow"@, underscores) && (is_unset(table, "sticky-follow"@)
            || is_set(table, "sticky-follow"@, hyphens) && (hyphens.content == ContentModel::Text(
            "focused"@,
        ) || hyphens.content == ContentModel::Text("own-output"@))) ==> {
            &&& underscores.content == ContentModel::Text("focused"@) ==> follow_of(table) == Ok::<
                StickyFollow,
                Chain,
            >(StickyFollow::Focused)
            &&& underscores.content == ContentModel::Text("own-output"@) ==> follow_of(table)
                == Ok::<StickyFollow, Chain>(StickyFollow::OwnOutput)
        },
        is_set(table, "sticky-follow"@, hyphens) && hyphens.content != ContentModel::Text(
            "focused"@,
        ) && hyphens.content != ContentModel::Text("own-output"@) ==> follow_of(table) is Err,
        is_set(table, "sticky_follow"@, underscores) && underscores.content != ContentModel::Text(
            "focused"@,
        ) && underscores.content != ContentModel::Text("own-output"@) ==> follow_of(table) is Err,
{
    keys_have_the_value_they_are_set_to(table, "sticky-follow"@);
    keys_have_the_value_they_are_set_to(table, "sticky_follow"@);
    reveal_strlit("focused");
    reveal_strlit("own-output");
    assert("focused"@.len() != "own-output"@.len());
}

/// The name of a workspace is the one that is set, with whatever white space it
/// has, or the default. A name of nothing but white space is refused, and so are
/// two spellings that differ.
pub proof fn workspaces_are_named_as_set(
    table: EntriesModel,
    key: Seq<char>,
    alias: Seq<char>,
    default: Seq<char>,
    first: SettingModel,
    second: SettingModel,
    a: Seq<char>,
    b: Seq<char>,
)
    requires
        first.content == ContentModel::Text(a),
        second.content == ContentModel::Text(b),
    ensures
        is_unset(table, key) && is_unset(table, alias) ==> name_of(table, key, alias, default)
            == Ok::<Seq<char>, Chain>(default),
        is_set(table, key, first) && is_unset(table, alias) && says_something(a) ==> name_of(
            table,
            key,
            alias,
            default,
        ) == Ok::<Seq<char>, Chain>(a),
        is_unset(table, key) && is_set(table, alias, second) && says_something(b) ==> name_of(
            table,
            key,
            alias,
            default,
        ) == Ok::<Seq<char>, Chain>(b),
        is_set(table, key, first) && is_set(table, alias, second) && says_something(a)
            && says_something(b) ==> {
            &&& a == b ==> name_of(table, key, alias, default) == Ok::<Seq<char>, Chain>(a)
            &&& a != b ==> name_of(table, key, alias, default) is Err
        },
        is_set(table, key, first) && !says_something(a) ==> name_of(table, key, alias, default)
            is Err,
        is_set(table, alias, second) && !says_something(b) ==> name_of(table, key, alias, default)
            is Err,
{
    keys_have_the_value_they_are_set_to(table, key);
    keys_have_the_value_they_are_set_to(table, alias);
    saying_something_is_not_blank(a);
    saying_something_is_not_blank(b);
}

// Lists of texts.

/// A value is these texts: one text, or a list of nothing but texts.
pub open spec fn holds_texts(value: SettingModel, texts: Seq<Seq<char>>) -> bool {
    match value.content {
        ContentModel::Text(t) => texts == seq![t],
        ContentModel::List(items) => is_list_of(items, texts),
        _ => false,
    }
}

/// The items are these texts, in this order.
pub open spec fn is_list_of(items: Seq<SettingModel>, texts: Seq<Seq<char>>) -> bool {
    &&& items.len() == texts.len()
    &&& forall|i: int|
        0 <= i < items.len() ==> (#[trigger] items[i]).content == ContentModel::Text(texts[i])
}

/// A value that is a text or a list of texts is read as those texts, in their
/// order; any other value is refused.
pub proof fn texts_are_read_in_their_order(
    value: SettingModel,
    item: Seq<char>,
    whole: Seq<char>,
    texts: Seq<Seq<char>>,
)
    ensures
        holds_texts(value, texts) ==> texts_of(value, item, whole) == Ok::<
            Seq<Seq<char>>,
            Chain,
        >(texts),
        texts_of(value, item, whole) matches Ok(found) ==> holds_texts(value, found),
{
    if let ContentModel::List(items) = value.content {
        lists_are_read(items, item, Seq::empty());
        if holds_texts(value, texts) {
            assert(texts_from(items, item, Seq::empty()) is Ok);
            let found = texts_from(items, item, Seq::empty())->Ok_0;
            assert(found =~= texts) by {
                assert forall|i: int| 0 <= i < found.len() implies found[i] == texts[i] by {
                    assert(items[i].content == ContentModel::Text(texts[i]));
                    assert(items[i].content == ContentModel::Text(found[i]));
                }
            }
        }
        if let Ok(found) = texts_from(items, item, Seq::empty()) {
            assert forall|i: int| 0 <= i < items.len() implies (#[trigger] items[i]).content
                == ContentModel::Text(found[i]) by {}
        }
    }
}

proof fn lists_are_read(items: Seq<SettingModel>, doing: Seq<char>, found: Seq<Seq<char>>)
    ensures
        texts_from(items, doing, found) is Ok <==> forall|i: int|
            0 <= i < items.len() ==> (#[trigger] items[i]).content is Text,
        texts_from(items, doing, found) matches Ok(all) ==> {
            &&& all.len() == found.len() + items.len()
            &&& all.take(found.len() as int) == found
            &&& forall|i: int|
                0 <= i < items.len() ==> (#[trigger] items[i]).content == ContentModel::Text(
                    all[found.len() + i],
                )
        },
    decreases items.len(),
{
    if items.len() == 0 {
        assert(found.take(found.len() as int) =~= found);
    } else {
        let rest = items.drop_first();
        if let ContentModel::Text(t) = items[0].content {
            let more = found.push(t);
            lists_are_read(rest, doing, more);
            assert forall|i: int| 0 < i < items.len() implies #[trigger] items[i] == rest[i
                - 1] by {}
            if texts_from(items, doing, found) is Ok {
                let all = texts_from(items, doing, found)->Ok_0;
                assert(all.take(found.len() as int) =~= found) by {
                    assert(all.take(more.len() as int) =~= more);
                    assert forall|i: int| 0 <= i < found.len() implies all[i] == found[i] by {
                        assert(all.take(more.len() as int)[i] == more[i]);
                    }
                }
                assert(all[found.len() as int] == t) by {
                    assert(all.take(more.len() as int)[found.len() as int] == more[found.len() as int]);
                }
                assert forall|i: int| 0 <= i < items.len() implies (#[trigger] items[i]).content
                    == ContentModel::Text(all[found.len() + i]) by {
                    if i > 0 {
                        assert(rest[i - 1].content == ContentModel::Text(
                            all[more.len() + (i - 1)],
                        ));
                    }
                }
                assert forall|i: int| 0 <= i < items.len() implies (#[trigger] items[i]).content
                    is Text by {}
            } else {
                let i = choose|i: int| 0 <= i < rest.len() && !((#[trigger] rest[i]).content
                    is Text);
                assert(!(items[i + 1].content is Text));
            }
        } else {
            assert(!(items[0].content is Text));
        }
    }
}

/// The outputs of a rule are those that are set, in their order, under either
/// spelling; an empty list, a blank name and two lists that differ are refused.
/// Without either there is no pin.
pub proof fn outputs_are_read_in_their_order(
    table: EntriesModel,
    rule: Seq<char>,
    first: SettingModel,
    second: SettingModel,
    a: Seq<Seq<char>>,
    b: Seq<Seq<char>>,
)
    requires
        holds_texts(first, a),
        holds_texts(second, b),
    ensures
        is_unset(table, "output"@) && is_unset(table, "outputs"@) ==> pin_of(table, rule) == Ok::<
            Seq<Seq<char>>,
            Chain,
        >(Seq::empty()),
        is_set(table, "output"@, first) && is_unset(table, "outputs"@) && are_names(a) ==> pin_of(
            table,
            rule,
        ) == Ok::<Seq<Seq<char>>, Chain>(a),
        is_unset(table, "output"@) && is_set(table, "outputs"@, second) && are_names(b) ==> pin_of(
            table,
            rule,
        ) == Ok::<Seq<Seq<char>>, Chain>(b),
        is_set(table, "output"@, first) && is_set(table, "outputs"@, second) && are_names(a)
            && are_names(b) ==> {
            &&& a == b ==> pin_of(table, rule) == Ok::<Seq<Seq<char>>, Chain>(a)
            &&& a != b ==> pin_of(table, rule) is Err
        },
        is_set(table, "output"@, first) && !are_names(a) ==> pin_of(table, rule) is Err,
        is_set(table, "outputs"@, second) && !are_names(b) ==> pin_of(table, rule) is Err,
{
    keys_have_the_value_they_are_set_to(table, "output"@);
    keys_have_the_value_they_are_set_to(table, "outputs"@);
    let in_rule = crate::config::in_rule(rule);
    let one = crate::config::invalid("output"@, in_rule);
    let two = crate::config::invalid("outputs"@, in_rule);
    texts_are_read_in_their_order(first, one, one, a);
    texts_are_read_in_their_order(second, two, two, b);
    names_are_not_blank(a);
    names_are_not_blank(b);
}

/// There is a name, and every name says something.
pub open spec fn are_names(names: Seq<Seq<char>>) -> bool {
    names.len() > 0 && forall|i: int| 0 <= i < names.len() ==> says_something(#[trigger] names[i])
}

pub(crate) proof fn names_are_not_blank(names: Seq<Seq<char>>)
    ensures
        are_names(names) <==> names.len() > 0 && !lists::any(names, crate::config::blank()),
{
    let p = crate::config::blank();
    assert forall|i: int| 0 <= i < names.len() implies says_something(#[trigger] names[i]) == !p(
        names[i],
    ) by {
        saying_something_is_not_blank(names[i]);
    }
    if lists::any(names, p) {
        let i = choose|i: int| 0 <= i < names.len() && p(#[trigger] names[i]);
        assert(!says_something(names[i]));
    } else if names.len() > 0 {
        assert forall|i: int| 0 <= i < names.len() implies says_something(
            #[trigger] names[i],
        ) by {
            assert(!p(names[i]));
        }
    }
}

// Patterns.

/// Every pattern is a regular expression.
pub open spec fn are_patterns(patterns: Seq<Seq<char>>) -> bool {
    forall|i: int| 0 <= i < patterns.len() ==> regex_fault(#[trigger] patterns[i]) is None
}

/// The patterns of a field are those of every spelling of its key, one spelling
/// after the other, each in its order; a pattern that is no regular expression
/// is refused.
pub proof fn patterns_are_gathered_from_every_spelling(
    table: EntriesModel,
    key: Seq<char>,
    keys: Seq<Seq<char>>,
    value: SettingModel,
    texts: Seq<Seq<char>>,
    doing: Seq<char>,
    found: Seq<Seq<char>>,
)
    requires
        holds_texts(value, texts),
    ensures
        collected(table, Seq::empty(), doing, found) == Ok::<Seq<Seq<char>>, Chain>(found),
        is_unset(table, key) ==> collected(table, seq![key] + keys, doing, found) == collected(
            table,
            keys,
            doing,
            found,
        ),
        is_set(table, key, value) ==> collected(table, seq![key] + keys, doing, found)
            == collected(table, keys, doing, found + texts),
{
    keys_have_the_value_they_are_set_to(table, key);
    texts_are_read_in_their_order(value, doing, doing, texts);
    let all = seq![key] + keys;
    assert(all[0] == key);
    assert(all.drop_first() =~= keys);
}

/// What was gathered is kept as it is where every pattern is a regular
/// expression, and refused where one is not.
pub proof fn faulty_patterns_are_refused(
    table: EntriesModel,
    keys: Seq<Seq<char>>,
    field: Seq<char>,
    rule: Seq<char>,
    patterns: Seq<Seq<char>>,
)
    requires
        collected(
            table,
            keys,
            crate::config::invalid(field, crate::config::in_rule(rule)),
            Seq::empty(),
        ) == Ok::<Seq<Seq<char>>, Chain>(patterns),
    ensures
        are_patterns(patterns) ==> patterns_of(table, keys, field, rule) == Ok::<
            Seq<Seq<char>>,
            Chain,
        >(patterns),
        !are_patterns(patterns) ==> patterns_of(table, keys, field, rule) is Err,
{
    let p = crate::config::faulty();
    let at = lists::a_search_finds_the_first(patterns, p);
    if lists::find(patterns, p) is Some {
        assert(p(patterns[at]));
        assert(regex_fault(patterns[at]) is Some);
    } else {
        assert forall|i: int| 0 <= i < patterns.len() implies regex_fault(#[trigger] patterns[i])
            is None by {
            assert(!p(patterns[i]));
        }
    }
}

/// Each part of a rule is read from its own keys, and the rule is refused where
/// one of them is.
pub proof fn the_parts_of_a_rule_are_read_from_their_keys(
    table: EntriesModel,
    section: Seq<char>,
    name: Seq<char>,
)
    ensures
        ({
            let id = section + "."@ + name;
            let floating = bool_at(table, "floating"@, " in "@ + id);
            let outputs = pin_of(table, id);
            let app_id = patterns_of(table, seq!["app-id"@, "app_id"@], "app-id"@, id);
            let title = patterns_of(table, seq!["title"@], "title"@, id);
            let not_app_id = patterns_of(
                table,
                seq!["exclude-app-id"@, "exclude_app_id"@, "not-app-id"@, "not_app_id"@],
                "exclude-app-id"@,
                id,
            );
            let not_title = patterns_of(
                table,
                seq!["exclude-title"@, "exclude_title"@, "not-title"@, "not_title"@],
                "exclude-title"@,
                id,
            );
            let r = rule_of(table, section, name);
            &&& r is Ok <==> floating is Ok && outputs is Ok && app_id is Ok && title is Ok
                && not_app_id is Ok && not_title is Ok
            &&& r matches Ok(rule) ==> {
                &&& rule.id == id
                &&& floating == Ok::<Option<bool>, Chain>(rule.floating)
                &&& outputs == Ok::<Seq<Seq<char>>, Chain>(rule.outputs)
                &&& app_id == Ok::<Seq<Seq<char>>, Chain>(rule.app_id)
                &&& title == Ok::<Seq<Seq<char>>, Chain>(rule.title)
                &&& not_app_id == Ok::<Seq<Seq<char>>, Chain>(rule.exclude_app_id)
                &&& not_title == Ok::<Seq<Seq<char>>, Chain>(rule.exclude_title)
            }
        }),
{
}

/// A truth value is the one that is set, none where none is, and refused where
/// it is something else.
pub proof fn truth_values_are_as_set(
    table: EntriesModel,
    key: Seq<char>,
    place: Seq<char>,
    value: SettingModel,
)
    ensures
        is_unset(table, key) ==> bool_at(table, key, place) == Ok::<Option<bool>, Chain>(None),
        is_set(table, key, value) ==> match value.content {
            ContentModel::Boolean(b) => bool_at(table, key, place) == Ok::<Option<bool>, Chain>(
                Some(b),
            ),
            _ => bool_at(table, key, place) is Err,
        },
{
    keys_have_the_value_they_are_set_to(table, key);
}

/// The rules of a section are those of its tables that ask for something, in the
/// order of the section; what is no table is passed over, and a rule that is
/// refused refuses the whole section.
pub proof fn rules_come_in_the_order_of_their_section(
    name: Seq<char>,
    value: SettingModel,
    entries: EntriesModel,
    section: Seq<char>,
    found: Seq<RuleModel>,
)
    ensures
        rules_from(Seq::empty(), section, found) == Ok::<Seq<RuleModel>, Chain>(found),
        ({
            let all = seq![(name, value)] + entries;
            match value.content {
                ContentModel::Table(table) => match rule_of(table, section, name) {
                    Err(e) => rules_from(all, section, found) == Err::<Seq<RuleModel>, Chain>(e),
                    Ok(rule) => if rule.floating is Some || rule.app_id.len() > 0
                        || rule.title.len() > 0 {
                        rules_from(all, section, found) == rules_from(
                            entries,
                            section,
                            found.push(rule),
                        )
                    } else {
                        rules_from(all, section, found) == rules_from(entries, section, found)
                    },
                },
                _ => rules_from(all, section, found) == rules_from(entries, section, found),
            }
        }),
{
    let all = seq![(name, value)] + entries;
    assert(all[0] == (name, value));
    assert(all.drop_first() =~= entries);
}

/// A section that is missing has no rules, and one that is no table is refused.
pub proof fn sections_are_tables(table: EntriesModel, section: Seq<char>, value: SettingModel)
    ensures
        is_unset(table, section) ==> section_of(table, section) == Ok::<Seq<RuleModel>, Chain>(
            Seq::empty(),
        ),
        is_set(table, section, value) ==> match value.content {
            ContentModel::Table(entries) => section_of(table, section) == rules_from(
                entries,
                section,
                Seq::empty(),
            ),
            _ => section_of(table, section) is Err,
        },
        is_unset(table, "scratchpad"@) ==> pads_of(table) == Ok::<Seq<PadModel>, Chain>(
            Seq::empty(),
        ),
        is_set(table, "scratchpad"@, value) ==> match value.content {
            ContentModel::Table(entries) => pads_of(table) == pads_from(entries, Seq::empty()),
            _ => pads_of(table) is Err,
        },
{
    keys_have_the_value_they_are_set_to(table, section);
    keys_have_the_value_they_are_set_to(table, "scratchpad"@);
}

/// The scratchpads are those of the tables of their section, in its order, also
/// those that ask for no window of their own.
pub proof fn scratchpads_come_in_the_order_of_their_section(
    name: Seq<char>,
    value: SettingModel,
    entries: EntriesModel,
    found: Seq<PadModel>,
)
    ensures
        pads_from(Seq::empty(), found) == Ok::<Seq<PadModel>, Chain>(found),
        ({
            let all = seq![(name, value)] + entries;
            match value.content {
                ContentModel::Table(table) => match pad_of(table, name) {
                    Err(e) => pads_from(all, found) == Err::<Seq<PadModel>, Chain>(e),
                    Ok(pad) => pads_from(all, found) == pads_from(entries, found.push(pad)),
                },
                _ => pads_from(all, found) == pads_from(entries, found),
            }
        }),
{
    let all = seq![(name, value)] + entries;
    assert(all[0] == (name, value));
    assert(all.drop_first() =~= entries);
}

/// Each part of a scratchpad is read from its own keys. It has a rule of its own
/// exactly where it names a floating state, an app id or a title; it floats
/// unless that is set to false.
pub proof fn the_parts_of_a_scratchpad_are_read_from_their_keys(
    table: EntriesModel,
    name: Seq<char>,
)
    ensures
        ({
            let id = "scratchpad"@ + "."@ + name;
            let rule = rule_of(table, "scratchpad"@, name);
            let spawn = spawn_of(table, id);
            let float = bool_at(table, "float"@, " in "@ + id);
            let width = size_at(table, "width"@, id);
            let height = size_at(table, "height"@, id);
            let r = pad_of(table, name);
            &&& r is Ok <==> rule is Ok && spawn is Ok && float is Ok && width is Ok && height is Ok
            &&& r matches Ok(pad) ==> {
                let own = rule->Ok_0;
                &&& pad.name == name
                &&& own.floating is Some || own.app_id.len() > 0 || own.title.len() > 0
                    ==> pad.matcher == Some(own)
                &&& own.floating is None && own.app_id.len() == 0 && own.title.len() == 0
                    ==> pad.matcher is None
                &&& spawn == Ok::<Option<Seq<Seq<char>>>, Chain>(pad.spawn)
                &&& width == Ok::<Option<SizeModel>, Chain>(pad.width)
                &&& height == Ok::<Option<SizeModel>, Chain>(pad.height)
                &&& float == Ok::<Option<bool>, Chain>(Some(false)) ==> !pad.float
                &&& float == Ok::<Option<bool>, Chain>(Some(true)) ==> pad.float
                &&& float == Ok::<Option<bool>, Chain>(None) ==> pad.float
            }
        }),
{
}

/// The command of a scratchpad is the list that is set, program first; a list
/// without a program is refused, and so is anything but a list.
pub proof fn commands_are_lists_with_a_program(
    table: EntriesModel,
    rule: Seq<char>,
    value: SettingModel,
    argv: Seq<Seq<char>>,
)
    ensures
        is_unset(table, "spawn"@) ==> spawn_of(table, rule) == Ok::<
            Option<Seq<Seq<char>>>,
            Chain,
        >(None),
        is_set(table, "spawn"@, value) ==> match value.content {
            ContentModel::List(items) => {
                &&& is_list_of(items, argv) && argv.len() > 0 && says_something(argv[0])
                    ==> spawn_of(table, rule) == Ok::<Option<Seq<Seq<char>>>, Chain>(Some(argv))
                &&& is_list_of(items, argv) && (argv.len() == 0 || !says_something(argv[0]))
                    ==> spawn_of(table, rule) is Err
            },
            _ => spawn_of(table, rule) is Err,
        },
{
    keys_have_the_value_they_are_set_to(table, "spawn"@);
    let doing = crate::config::invalid("spawn"@, crate::config::in_rule(rule));
    texts_are_read_in_their_order(value, doing, doing, argv);
    if argv.len() > 0 {
        saying_something_is_not_blank(argv[0]);
    }
}

// Sizes.

/// A number without a unit is a size in pixels, which has to be positive.
pub proof fn plain_numbers_are_pixels(value: SettingModel, key: Seq<char>, rule: Seq<char>, n: i64)
    requires
        value.content == ContentModel::Integer(n),
    ensures
        0 < n <= i32::MAX ==> size_in(value, key, rule) == Ok::<SizeModel, Chain>(
            SizeModel::Fixed(n as i32),
        ),
        i32::MIN <= n <= 0 ==> size_in(value, key, rule) is Err,
{
}

/// A text of digits is a size in pixels, with or without `px` behind it and with
/// white space around it or not; it has to be positive, and to fit.
pub proof fn digits_are_pixels(
    value: SettingModel,
    key: Seq<char>,
    rule: Seq<char>,
    raw: Seq<char>,
    digits: Seq<char>,
)
    requires
        value.content == ContentModel::Text(raw),
        text::is_digits(digits),
        text::trimmed(raw) == digits || text::trimmed(raw) == digits + seq!['p', 'x'],
    ensures
        0 < text::digits_value(digits) <= i32::MAX ==> size_in(value, key, rule) == Ok::<
            SizeModel,
            Chain,
        >(SizeModel::Fixed(text::digits_value(digits) as i32)),
        text::digits_value(digits) == 0 || text::digits_value(digits) > i32::MAX ==> size_in(
            value,
            key,
            rule,
        ) is Err,
{
    let t = text::trimmed(raw);
    let last = digits.last();
    assert('0' <= digits[digits.len() - 1] <= '9');
    assert('0' <= digits[0] <= '9');
    if t == digits {
        assert(without_px(t) == digits);
    } else {
        assert(t.take(t.len() - 2) =~= digits);
        assert(t[t.len() - 2] == 'p' && t[t.len() - 1] == 'x');
        assert(without_px(t) == without_px(digits));
        assert(without_px(digits) == digits);
    }
    assert(text::without_lead(digits) == digits);
    assert(text::trimmed(digits) == digits);
}

/// A number with `%` behind it is a percentage, which has to be above zero and
/// at most a hundred.
pub proof fn percentages_are_of_the_working_area(
    value: SettingModel,
    key: Seq<char>,
    rule: Seq<char>,
    raw: Seq<char>,
    number: Seq<char>,
    bits: u64,
    shown: Seq<char>,
)
    requires
        value.content == ContentModel::Text(raw),
        text::trimmed(raw) == number + seq!['%'],
        number_in(text::trimmed(number)) == Some((bits, shown)),
    ensures
        0 < bits <= HUNDRED_BITS ==> size_in(value, key, rule) == Ok::<SizeModel, Chain>(
            SizeModel::Percent { bits, shown },
        ),
        bits == 0 || bits > HUNDRED_BITS ==> size_in(value, key, rule) is Err,
        HUNDRED_BITS == 0x4059_0000_0000_0000,
{
    let t = text::trimmed(raw);
    assert(t.drop_last() =~= number);
    assert(t.last() == '%');
}

/// A size is the one that is set, and none where none is.
pub proof fn sizes_are_as_set(
    table: EntriesModel,
    key: Seq<char>,
    rule: Seq<char>,
    value: SettingModel,
)
    ensures
        is_unset(table, key) ==> size_at(table, key, rule) == Ok::<Option<SizeModel>, Chain>(None),
        is_set(table, key, value) ==> match size_in(value, key, rule) {
            Ok(size) => size_at(table, key, rule) == Ok::<Option<SizeModel>, Chain>(Some(size)),
            Err(e) => size_at(table, key, rule) == Err::<Option<SizeModel>, Chain>(e),
        },
{
    keys_have_the_value_they_are_set_to(table, key);
}

// The whole document.

/// The menu is a command line where it is set to a text, a command with its
/// arguments where it is set to a list of texts, and not configured where it is
/// not set; anything else is refused.
pub proof fn menus_are_as_set(
    table: EntriesModel,
    value: SettingModel,
    args: Seq<Seq<char>>,
)
    ensures
        is_unset(table, "menu"@) ==> menu_of(table) == Ok::<Option<SpecModel>, Chain>(None),
        is_set(table, "menu"@, value) ==> match value.content {
            ContentModel::Text(line) => menu_of(table) == Ok::<Option<SpecModel>, Chain>(
                Some(SpecModel::CommandLine(line)),
            ),
            ContentModel::List(items) => is_list_of(items, args) ==> menu_of(table) == Ok::<
                Option<SpecModel>,
                Chain,
            >(Some(SpecModel::Args(args))),
            _ => menu_of(table) is Err,
        },
{
    keys_have_the_value_they_are_set_to(table, "menu"@);
    texts_are_read_in_their_order(value, "Invalid menu entry"@, "Invalid menu value"@, args);
}

/// Each part of a configuration is read from its own keys and sections; it is
/// refused where one of them is, and where both parking areas would be the same
/// workspace.
pub proof fn the_parts_of_a_configuration_are_read_from_their_keys(table: EntriesModel)
    ensures
        ({
            let menu = menu_of(table);
            let stage = name_of(table, "stage-workspace"@, "stage_workspace"@, "stage"@);
            let area = name_of(
                table,
                "scratchpad-workspace"@,
                "scratchpad_workspace"@,
                "scratchpad"@,
            );
            let follow = follow_of(table);
            let keep = keep_of(table);
            let sticky = section_of(table, "sticky"@);
            let staging = section_of(table, "stage"@);
            let pads = pads_of(table);
            let r = config_of(table);
            &&& r is Ok <==> menu is Ok && stage is Ok && area is Ok && stage != area && follow
                is Ok && keep is Ok && sticky is Ok && staging is Ok && pads is Ok
            &&& r matches Ok(config) ==> {
                &&& menu == Ok::<Option<SpecModel>, Chain>(config.menu)
                &&& stage == Ok::<Seq<char>, Chain>(config.stage_workspace)
                &&& area == Ok::<Seq<char>, Chain>(config.scratchpad_workspace)
                &&& follow == Ok::<StickyFollow, Chain>(config.sticky_follow)
                &&& keep == Ok::<bool, Chain>(config.stage_keep_workspace)
                &&& sticky == Ok::<Seq<RuleModel>, Chain>(config.sticky_rules)
                &&& staging == Ok::<Seq<RuleModel>, Chain>(config.stage_rules)
                &&& pads == Ok::<Seq<PadModel>, Chain>(config.scratchpads)
            }
        }),
{
}

/// A file that can be read and holds a configuration is loaded as that; an error
/// says whether reading or parsing failed, and of which file.
pub proof fn files_are_loaded_as_what_they_hold(
    path: Seq<char>,
    content: Seq<char>,
    e: Chain,
    table: EntriesModel,
    config: ConfigModel,
    message: Seq<char>,
)
    ensures
        loaded(path, Err(e)) == Err::<ConfigModel, Chain>(
            seq!["Failed to read config: "@ + text::quoted_path_text(path)] + e,
        ),
        toml_document(content) == Ok::<EntriesModel, Seq<char>>(table) && config_of(table) == Ok::<
            ConfigModel,
            Chain,
        >(config) ==> loaded(path, Ok(content)) == Ok::<ConfigModel, Chain>(config),
        toml_document(content) == Ok::<EntriesModel, Seq<char>>(table) && config_of(table) == Err::<
            ConfigModel,
            Chain,
        >(e) ==> loaded(path, Ok(content)) == Err::<ConfigModel, Chain>(
            seq!["Failed to parse TOML: "@ + text::quoted_path_text(path)] + e,
        ),
        toml_document(content) == Err::<EntriesModel, Seq<char>>(message) ==> loaded(
            path,
            Ok(content),
        ) == Err::<ConfigModel, Chain>(
            seq!["Failed to parse TOML: "@ + text::quoted_path_text(path), message],
        ),
{
    assert(seq!["Failed to parse TOML: "@ + text::quoted_path_text(path)] + seq![message] =~= seq![
        "Failed to parse TOML: "@ + text::quoted_path_text(path),
        message,
    ]);
}

} // verus!
