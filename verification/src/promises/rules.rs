//! Which rule a window falls under.
use vstd::prelude::*;
use crate::config::{
    first_match, hits, match_of, matched_by, matching, pad_matches, regex_matches, rule_matches,
    ConfigModel, FactsModel, PadModel, RuleModel, WindowAction,
};
use crate::lists;

verus! {

/// One of the patterns is found in the value, which is there.
pub open spec fn is_hit(patterns: Seq<Seq<char>>, value: Option<Seq<char>>) -> bool {
    value is Some && exists|i: int|
        0 <= i < patterns.len() && regex_matches(#[trigger] patterns[i], value->0)
}

/// What a rule asks of a window: the floating state where it names one, one of
/// its app ids where it names any, one of its titles where it names any, and
/// none of its exclusions.
pub open spec fn is_asked_for(rule: RuleModel, window: FactsModel) -> bool {
    &&& rule.floating matches Some(floating) ==> window.floating == floating
    &&& rule.app_id.len() > 0 ==> is_hit(rule.app_id, window.app_id)
    &&& rule.title.len() > 0 ==> is_hit(rule.title, window.title)
    &&& !is_hit(rule.exclude_app_id, window.app_id)
    &&& !is_hit(rule.exclude_title, window.title)
}

proof fn hitting_is_matching_one(patterns: Seq<Seq<char>>, value: Option<Seq<char>>)
    ensures
        hits(patterns, value) <==> is_hit(patterns, value),
{
    if let Some(text) = value {
        let p = matching(text);
        if lists::any(patterns, p) {
            let i = choose|i: int| 0 <= i < patterns.len() && p(#[trigger] patterns[i]);
            assert(regex_matches(patterns[i], text));
        }
        if is_hit(patterns, value) {
            let i = choose|i: int|
                0 <= i < patterns.len() && regex_matches(#[trigger] patterns[i], text);
            assert(p(patterns[i]));
        }
    }
}

/// A window falls under a rule exactly when it has everything that the rule asks
/// for and nothing that it excludes.
pub proof fn rules_ask_for_everything_they_name(rule: RuleModel, window: FactsModel)
    ensures
        rule_matches(rule, window) <==> is_asked_for(rule, window),
{
    hitting_is_matching_one(rule.app_id, window.app_id);
    hitting_is_matching_one(rule.title, window.title);
    hitting_is_matching_one(rule.exclude_app_id, window.app_id);
    hitting_is_matching_one(rule.exclude_title, window.title);
}

/// A scratchpad is for the windows that its own rule asks for, and for none
/// where it has no rule.
pub proof fn scratchpads_are_for_what_they_ask(pad: PadModel, window: FactsModel)
    ensures
        pad_matches(pad, window) <==> pad.matcher is Some && is_asked_for(pad.matcher->0, window),
{
    if let Some(rule) = pad.matcher {
        rules_ask_for_everything_they_name(rule, window);
    }
}

/// The rule at this place asks for the window, and none before it does.
pub open spec fn is_first_rule(rules: Seq<RuleModel>, window: FactsModel, at: int) -> bool {
    &&& 0 <= at < rules.len()
    &&& is_asked_for(rules[at], window)
    &&& forall|j: int| 0 <= j < at ==> !is_asked_for(#[trigger] rules[j], window)
}

/// No rule asks for the window.
pub open spec fn is_in_no_rule(rules: Seq<RuleModel>, window: FactsModel) -> bool {
    forall|j: int| 0 <= j < rules.len() ==> !is_asked_for(#[trigger] rules[j], window)
}

proof fn the_first_rule_is_found(
    rules: Seq<RuleModel>,
    action: WindowAction,
    window: FactsModel,
)
    ensures
        forall|at: int| #[trigger]
            is_first_rule(rules, window, at) ==> first_match(rules, action, window) is Some
                && first_match(rules, action, window)->0.action == action && first_match(
                rules,
                action,
                window,
            )->0.id == rules[at].id && first_match(rules, action, window)->0.outputs
                == rules[at].outputs,
        is_in_no_rule(rules, window) ==> first_match(rules, action, window) is None,
{
    let p = matched_by(window);
    let found = lists::a_search_finds_the_first(rules, p);
    assert forall|j: int| 0 <= j < rules.len() implies p(#[trigger] rules[j]) == is_asked_for(
        rules[j],
        window,
    ) by {
        rules_ask_for_everything_they_name(rules[j], window);
    }
    assert forall|at: int| #[trigger] is_first_rule(rules, window, at) implies lists::find(rules, p)
        == Some(rules[at]) by {
        assert(p(rules[at]));
        if found < at {
            assert(p(rules[found]));
        }
    }
    if lists::find(rules, p) is Some {
        assert(p(rules[found]));
    }
}

/// The first sticky rule that asks for a window applies to it, with its id and
/// its outputs; only where no sticky rule does, the first stage rule that asks
/// for it applies; and where none does, none.
pub proof fn the_first_rule_applies(config: ConfigModel, window: FactsModel)
    ensures
        forall|at: int| #[trigger]
            is_first_rule(config.sticky_rules, window, at) ==> {
                &&& match_of(config, window) is Some
                &&& match_of(config, window)->0.action == WindowAction::Sticky
                &&& match_of(config, window)->0.id == config.sticky_rules[at].id
                &&& match_of(config, window)->0.outputs == config.sticky_rules[at].outputs
            },
        forall|at: int|
            is_in_no_rule(config.sticky_rules, window) && #[trigger] is_first_rule(
                config.stage_rules,
                window,
                at,
            ) ==> {
                &&& match_of(config, window) is Some
                &&& match_of(config, window)->0.action == WindowAction::Stage
                &&& match_of(config, window)->0.id == config.stage_rules[at].id
                &&& match_of(config, window)->0.outputs == config.stage_rules[at].outputs
            },
        is_in_no_rule(config.sticky_rules, window) && is_in_no_rule(config.stage_rules, window)
            ==> match_of(config, window) is None,
{
    the_first_rule_is_found(config.sticky_rules, WindowAction::Sticky, window);
    the_first_rule_is_found(config.stage_rules, WindowAction::Stage, window);
}

} // verus!
