//! The configuration file: rules, parking areas, scratchpads and the menu.
use vstd::prelude::*;
use vstd::string::*;
use crate::document::{
    entry, get, read_document, toml_document, ContentModel, Entries, EntriesModel, Setting,
    SettingModel,
};
use crate::error::{copy_texts, failure, in_context, outcome, Chain, Error, Outcome};
use crate::lists;
use crate::menu::{MenuSpec, SpecModel};
use crate::niri;
use crate::text;

verus! {

/// Workspace used for parked scratchpad windows when not configured.
pub const DEFAULT_SCRATCHPAD_WORKSPACE: &'static str = "scratchpad";

/// Workspace used when `stage-workspace` is not configured.
pub const DEFAULT_STAGE_WORKSPACE: &'static str = "stage";

/// The bit pattern of one hundred as a double. Among the doubles that are not
/// negative, the order of the bit patterns is the order of the numbers; those
/// of negative numbers and of what is not a number are all larger.
pub const HUNDRED_BITS: u64 = 0x4059_0000_0000_0000;

/// What happens to a window that matches a rule.
#[derive(Debug, Clone, Copy, PartialEq, Eq, Structural)]
pub enum WindowAction {
    /// Keep the window on every workspace (`[sticky.<name>]`).
    Sticky,
    /// Park the window on the stage workspace (`[stage.<name>]`).
    Stage,
}

/// How a sticky window follows workspaces when its rule pins no output.
#[derive(Debug, Clone, Copy, PartialEq, Eq, Structural)]
pub enum StickyFollow {
    /// Follow the workspace that became focused, wherever it is (default).
    Focused,
    /// Stay on the output the window was on when it became sticky.
    OwnOutput,
}

impl DeepView for StickyFollow {
    type V = StickyFollow;

    open spec fn deep_view(&self) -> StickyFollow {
        *self
    }
}

impl DeepView for WindowAction {
    type V = WindowAction;

    open spec fn deep_view(&self) -> WindowAction {
        *self
    }
}

/// The name of a way to follow, as written in the configuration.
pub open spec fn follow_name(follow: StickyFollow) -> Seq<char> {
    match follow {
        StickyFollow::Focused => "focused"@,
        StickyFollow::OwnOutput => "own-output"@,
    }
}

impl Default for StickyFollow {
    fn default() -> (r: Self)
        ensures
            r == StickyFollow::Focused,
    {
        StickyFollow::Focused
    }
}

/// Size a scratchpad gets when it is shown.
///
/// A percentage is written `"60%"`; a fraction such as `0.6` is a classic
/// mistake and is rejected.
#[derive(Debug, PartialEq, Eq)]
pub enum Size {
    /// Logical pixels.
    Fixed(i32),
    /// Percentage of the working area, above 0 and at most 100.
    Percent(Percentage),
}

/// A percentage: the bit pattern of the double, and the number in decimal.
#[derive(Debug, PartialEq, Eq)]
pub struct Percentage {
    pub bits: u64,
    pub shown: String,
}

/// [`Size`] as a mathematical value.
pub enum SizeModel {
    Fixed(i32),
    Percent { bits: u64, shown: Seq<char> },
}

impl DeepView for Size {
    type V = SizeModel;

    open spec fn deep_view(&self) -> SizeModel {
        match self {
            Size::Fixed(pixels) => SizeModel::Fixed(*pixels),
            Size::Percent(p) => SizeModel::Percent { bits: p.bits, shown: p.shown@ },
        }
    }
}

/// Facts about a window that rules can match on.
#[derive(Debug, Clone, Copy)]
pub struct WindowFacts<'a> {
    pub app_id: Option<&'a str>,
    pub title: Option<&'a str>,
    pub floating: bool,
}

/// [`WindowFacts`] as a mathematical value.
pub struct FactsModel {
    pub app_id: Option<Seq<char>>,
    pub title: Option<Seq<char>>,
    pub floating: bool,
}

impl<'a> DeepView for WindowFacts<'a> {
    type V = FactsModel;

    open spec fn deep_view(&self) -> FactsModel {
        FactsModel {
            app_id: self.app_id.deep_view(),
            title: self.title.deep_view(),
            floating: self.floating,
        }
    }
}

/// A rule that matched a window, with what is needed to apply it.
#[derive(Debug, PartialEq, Eq)]
pub struct MatchedRule {
    pub action: WindowAction,
    /// `sticky.<name>` or `stage.<name>`, as written in the config.
    pub id: String,
    /// Outputs the window is pinned to, in preference order (possibly empty).
    pub outputs: Vec<String>,
}

/// [`MatchedRule`] as a mathematical value.
#[verifier::ext_equal]
pub struct MatchedModel {
    pub action: WindowAction,
    pub id: Seq<char>,
    pub outputs: Seq<Seq<char>>,
}

impl DeepView for MatchedRule {
    type V = MatchedModel;

    open spec fn deep_view(&self) -> MatchedModel {
        MatchedModel { action: self.action, id: self.id@, outputs: self.outputs.deep_view() }
    }
}

/// One compiled rule, as reported by `config check`.
#[derive(Debug, PartialEq, Eq)]
pub struct RuleSummary {
    /// `sticky.<name>` or `stage.<name>`.
    pub id: String,
    /// Whether the rule is restricted to floating or tiled windows.
    pub floating: Option<bool>,
    /// Outputs the rule pins the window to, in preference order.
    pub outputs: Vec<String>,
    pub app_id: usize,
    pub title: usize,
    pub exclude_app_id: usize,
    pub exclude_title: usize,
}

/// [`RuleSummary`] as a mathematical value.
#[verifier::ext_equal]
pub struct SummaryModel {
    pub id: Seq<char>,
    pub floating: Option<bool>,
    pub outputs: Seq<Seq<char>>,
    pub app_id: nat,
    pub title: nat,
    pub exclude_app_id: nat,
    pub exclude_title: nat,
}

impl DeepView for RuleSummary {
    type V = SummaryModel;

    open spec fn deep_view(&self) -> SummaryModel {
        SummaryModel {
            id: self.id@,
            floating: self.floating,
            outputs: self.outputs.deep_view(),
            app_id: self.app_id as nat,
            title: self.title as nat,
            exclude_app_id: self.exclude_app_id as nat,
            exclude_title: self.exclude_title as nat,
        }
    }
}

/// A rule whose patterns are known to be regular expressions.
///
/// A window matches when every positive field matches (`app_id` AND `title`,
/// each an OR over its patterns) and no exclusion does. Negation lives here
/// because the regular expressions have no lookaround.
#[derive(Debug, PartialEq, Eq)]
pub struct CompiledRule {
    /// `sticky.<name>` or `stage.<name>`, as written in the config.
    pub id: String,
    /// `true`/`false` restricts the rule to floating/tiled windows; `None`
    /// matches either.
    pub floating: Option<bool>,
    /// Outputs the window is pinned to, in preference order; empty means the
    /// window follows the focused workspace.
    pub outputs: Vec<String>,
    pub app_id: Vec<String>,
    pub title: Vec<String>,
    pub exclude_app_id: Vec<String>,
    pub exclude_title: Vec<String>,
}

/// [`CompiledRule`] as a mathematical value.
#[verifier::ext_equal]
pub struct RuleModel {
    pub id: Seq<char>,
    pub floating: Option<bool>,
    pub outputs: Seq<Seq<char>>,
    pub app_id: Seq<Seq<char>>,
    pub title: Seq<Seq<char>>,
    pub exclude_app_id: Seq<Seq<char>>,
    pub exclude_title: Seq<Seq<char>>,
}

impl DeepView for CompiledRule {
    type V = RuleModel;

    open spec fn deep_view(&self) -> RuleModel {
        RuleModel {
            id: self.id@,
            floating: self.floating,
            outputs: self.outputs.deep_view(),
            app_id: self.app_id.deep_view(),
            title: self.title.deep_view(),
            exclude_app_id: self.exclude_app_id.deep_view(),
            exclude_title: self.exclude_title.deep_view(),
        }
    }
}

/// A window that toggles between parked and shown on top: the "dropdown
/// terminal" pattern, without a shell script.
#[derive(Debug, PartialEq, Eq)]
pub struct Scratchpad {
    pub name: String,
    /// Matching fields, exactly like a rule; `None` means focus-tracking.
    pub matcher: Option<CompiledRule>,
    /// Command started when no matching window exists.
    pub spawn: Option<Vec<String>>,
    /// Whether showing it should float it.
    pub float: bool,
    pub width: Option<Size>,
    pub height: Option<Size>,
}

/// [`Scratchpad`] as a mathematical value.
pub struct PadModel {
    pub name: Seq<char>,
    pub matcher: Option<RuleModel>,
    pub spawn: Option<Seq<Seq<char>>>,
    pub float: bool,
    pub width: Option<SizeModel>,
    pub height: Option<SizeModel>,
}

impl DeepView for Scratchpad {
    type V = PadModel;

    open spec fn deep_view(&self) -> PadModel {
        PadModel {
            name: self.name@,
            matcher: self.matcher.deep_view(),
            spawn: self.spawn.deep_view(),
            float: self.float,
            width: self.width.deep_view(),
            height: self.height.deep_view(),
        }
    }
}

/// The configuration in use.
#[derive(Debug)]
pub struct Config {
    pub sticky_rules: Vec<CompiledRule>,
    pub stage_rules: Vec<CompiledRule>,
    pub menu: Option<MenuSpec>,
    pub stage_workspace: String,
    pub scratchpad_workspace: String,
    pub stage_keep_workspace: bool,
    pub sticky_follow: StickyFollow,
    pub scratchpads: Vec<Scratchpad>,
}

/// [`Config`] as a mathematical value.
#[verifier::ext_equal]
pub struct ConfigModel {
    pub sticky_rules: Seq<RuleModel>,
    pub stage_rules: Seq<RuleModel>,
    pub menu: Option<SpecModel>,
    pub stage_workspace: Seq<char>,
    pub scratchpad_workspace: Seq<char>,
    pub stage_keep_workspace: bool,
    pub sticky_follow: StickyFollow,
    pub scratchpads: Seq<PadModel>,
}

impl DeepView for Config {
    type V = ConfigModel;

    open spec fn deep_view(&self) -> ConfigModel {
        ConfigModel {
            sticky_rules: self.sticky_rules.deep_view(),
            stage_rules: self.stage_rules.deep_view(),
            menu: self.menu.deep_view(),
            stage_workspace: self.stage_workspace@,
            scratchpad_workspace: self.scratchpad_workspace@,
            stage_keep_workspace: self.stage_keep_workspace,
            sticky_follow: self.sticky_follow,
            scratchpads: self.scratchpads.deep_view(),
        }
    }
}

/// The configuration of a file that sets nothing.
pub open spec fn default_config() -> ConfigModel {
    ConfigModel {
        sticky_rules: Seq::empty(),
        stage_rules: Seq::empty(),
        menu: None,
        stage_workspace: DEFAULT_STAGE_WORKSPACE@,
        scratchpad_workspace: DEFAULT_SCRATCHPAD_WORKSPACE@,
        stage_keep_workspace: false,
        sticky_follow: StickyFollow::Focused,
        scratchpads: Seq::empty(),
    }
}

impl Default for Config {
    fn default() -> (r: Self)
        ensures
            r.deep_view() == default_config(),
    {
        let r = Config {
            sticky_rules: Vec::new(),
            stage_rules: Vec::new(),
            menu: None,
            stage_workspace: DEFAULT_STAGE_WORKSPACE.to_owned(),
            scratchpad_workspace: DEFAULT_SCRATCHPAD_WORKSPACE.to_owned(),
            stage_keep_workspace: false,
            sticky_follow: StickyFollow::Focused,
            scratchpads: Vec::new(),
        };
        assert(r.deep_view() =~= default_config());
        r
    }
}

// Regular expressions and numbers.

/// What `regex::Regex::new` says against a pattern, if anything.
pub uninterp spec fn regex_fault(pattern: Seq<char>) -> Option<Seq<char>>;

/// Whether `regex::Regex::is_match` finds a pattern in a text.
pub uninterp spec fn regex_matches(pattern: Seq<char>, text: Seq<char>) -> bool;

/// The bit pattern of the double that `str::parse` reads in a text.
pub uninterp spec fn double_bits(text: Seq<char>) -> Option<u64>;

/// The double that `str::parse` reads in a text, as `Display` writes it.
pub uninterp spec fn double_shown(text: Seq<char>) -> Option<Seq<char>>;

/// `regex::Regex::new`: the text of its error for a pattern it does not accept.
/// Which patterns those are is left to `regex`.
#[verifier::external_body]
fn pattern_fault(pattern: &str) -> (r: Option<String>)
    ensures
        r.deep_view() == regex_fault(pattern@),
{
    regex::Regex::new(pattern).err().map(|e| e.to_string())
}

/// `regex::Regex::is_match` for a pattern given as text: whether it matches
/// anywhere in the text. A pattern that does not compile matches nothing.
#[verifier::external_body]
fn pattern_matches(pattern: &str, text: &str) -> (r: bool)
    ensures
        r == regex_matches(pattern@, text@),
{
    match regex::Regex::new(pattern) {
        Ok(regex) => regex.is_match(text),
        Err(_) => false,
    }
}

/// `str::parse` for a double, which a `toml::Value` holds: the bits of the
/// number, where the text is one.
#[verifier::external_body]
fn read_double(text: &str) -> (r: Option<u64>)
    ensures
        r == double_bits(text@),
{
    Some(toml::Value::Float(text.parse().ok()?).as_float()?.to_bits())
}

/// The `Display` form of the double that `str::parse` reads in a text, which a
/// `toml::Value` holds: the number in decimal, where the text is one.
#[verifier::external_body]
fn show_double(text: &str) -> (r: Option<String>)
    ensures
        r.deep_view() == double_shown(text@),
        r is Some == double_bits(text@) is Some,
{
    Some(toml::Value::Float(text.parse().ok()?).as_float()?.to_string())
}

/// The number in a text, as bits and in decimal.
pub open spec fn number_in(text: Seq<char>) -> Option<(u64, Seq<char>)> {
    match (double_bits(text), double_shown(text)) {
        (Some(bits), Some(shown)) => Some((bits, shown)),
        _ => None,
    }
}

fn read_percentage(text: &str) -> (r: Option<Percentage>)
    ensures
        r is Some == double_bits(text@) is Some,
        (match r {
            Some(p) => Some((p.bits, p.shown@)),
            None => None,
        }) == number_in(text@),
{
    match (read_double(text), show_double(text)) {
        (Some(bits), Some(shown)) => Some(Percentage { bits, shown }),
        _ => None,
    }
}

// Messages.

/// The start of a message about a key's value, in some place.
pub open spec fn invalid(key: Seq<char>, place: Seq<char>) -> Seq<char> {
    "Invalid "@ + key + " value"@ + place
}

/// The place a rule is.
pub open spec fn in_rule(rule: Seq<char>) -> Seq<char> {
    " in "@ + rule
}

fn invalid_value(key: &str, place: &str, problem: &str) -> (r: Error)
    ensures
        r.deep_view() == failure(invalid(key@, place@) + problem@),
{
    let mut message = "Invalid ".to_owned();
    message.append(key);
    message.append(" value");
    message.append(place);
    message.append(problem);
    Error::new(message.as_str())
}

fn invalid_text(key: &str, place: &str, rest: &str, shown: &str) -> (r: Error)
    ensures
        r.deep_view() == failure(invalid(key@, place@) + rest@ + shown@),
{
    let mut message = "Invalid ".to_owned();
    message.append(key);
    message.append(" value");
    message.append(place);
    message.append(rest);
    message.append(shown);
    Error::new(message.as_str())
}

fn place_text(rule: &str) -> (r: String)
    ensures
        r@ == in_rule(rule@),
{
    let mut place = " in ".to_owned();
    place.append(rule);
    place
}

// Values.

/// The texts of a list, or the first item that is none.
pub open spec fn texts_from(
    items: Seq<SettingModel>,
    doing: Seq<char>,
    found: Seq<Seq<char>>,
) -> Outcome<Seq<Seq<char>>>
    decreases items.len(),
{
    if items.len() == 0 {
        Ok(found)
    } else {
        match items[0].content {
            ContentModel::Text(t) => texts_from(items.drop_first(), doing, found.push(t)),
            _ => Err(failure(doing + ": expected a string, got "@ + items[0].shown)),
        }
    }
}

/// The texts of a value that is one text or a list of them.
pub open spec fn texts_of(value: SettingModel, item: Seq<char>, whole: Seq<char>) -> Outcome<
    Seq<Seq<char>>,
> {
    match value.content {
        ContentModel::Text(t) => Ok(seq![t]),
        ContentModel::List(items) => texts_from(items, item, Seq::empty()),
        _ => Err(
            failure(whole + ": expected a string or an array of strings, got "@ + value.shown),
        ),
    }
}

fn read_texts(items: &Vec<Setting>, doing: &str) -> (r: Result<Vec<String>, Error>)
    ensures
        outcome(r) == texts_from(items.deep_view(), doing@, Seq::empty()),
{
    let ghost all = items.deep_view();
    let mut found: Vec<String> = Vec::new();
    let mut i: usize = 0;
    assert(all.skip(0) =~= all);
    assert(found.deep_view() =~= Seq::empty());
    while i < items.len()
        invariant
            i <= items@.len(),
            all == items.deep_view(),
            texts_from(all, doing@, Seq::empty()) == texts_from(
                all.skip(i as int),
                doing@,
                found.deep_view(),
            ),
        decreases items.len() - i,
    {
        let item = &items[i];
        assert(all.skip(i as int)[0] == item.deep_view());
        assert(all.skip(i as int).drop_first() =~= all.skip(i + 1));
        match item.as_text() {
            Some(t) => {
                let ghost before = found.deep_view();
                found.push(t.to_owned());
                assert(found.deep_view() =~= before.push(t@));
            },
            None => {
                let mut message = doing.to_owned();
                message.append(": expected a string, got ");
                message.append(item.shown.as_str());
                return Err(Error::new(message.as_str()));
            },
        }
        i = i + 1;
    }
    Ok(found)
}

fn read_text_or_texts(value: &Setting, item: &str, whole: &str) -> (r: Result<Vec<String>, Error>)
    ensures
        outcome(r) == texts_of(value.deep_view(), item@, whole@),
{
    if let Some(t) = value.as_text() {
        let mut one: Vec<String> = Vec::new();
        one.push(t.to_owned());
        assert(one.deep_view() =~= seq![t@]);
        return Ok(one);
    }
    if let Some(items) = value.as_list() {
        return read_texts(items, item);
    }
    let mut message = whole.to_owned();
    message.append(": expected a string or an array of strings, got ");
    message.append(value.shown.as_str());
    Err(Error::new(message.as_str()))
}

/// The truth value of a key, if it is set.
pub open spec fn bool_at(table: EntriesModel, key: Seq<char>, place: Seq<char>) -> Outcome<
    Option<bool>,
> {
    match entry(table, key) {
        None => Ok(None),
        Some(value) => match value.content {
            ContentModel::Boolean(b) => Ok(Some(b)),
            _ => Err(failure(invalid(key, place) + ": expected a boolean, got "@ + value.shown)),
        },
    }
}

fn parse_bool(table: &Entries, key: &str, place: &str) -> (r: Result<Option<bool>, Error>)
    ensures
        outcome(r) == bool_at(table.deep_view(), key@, place@),
{
    match get(table, key) {
        None => Ok(None),
        Some(value) => match value.as_bool() {
            Some(b) => Ok(Some(b)),
            None => Err(
                invalid_text(key, place, ": expected a boolean, got ", value.shown.as_str()),
            ),
        },
    }
}

/// The later of two settings of one thing.
pub open spec fn later<T>(first: Option<T>, second: Option<T>) -> Option<T> {
    if second is Some {
        second
    } else {
        first
    }
}

/// Whether the stage workspace is kept; false unless it is set.
pub open spec fn keep_of(table: EntriesModel) -> Outcome<bool> {
    match bool_at(table, "stage-keep-workspace"@, ""@) {
        Err(e) => Err(e),
        Ok(first) => match bool_at(table, "stage_keep_workspace"@, ""@) {
            Err(e) => Err(e),
            Ok(second) => Ok(later(first, second) == Some(true)),
        },
    }
}

/// Read `stage-keep-workspace`, false by default so an empty stage leaves no
/// trace.
fn parse_stage_keep_workspace(table: &Entries) -> (r: Result<bool, Error>)
    ensures
        outcome(r) == keep_of(table.deep_view()),
{
    match parse_bool(table, "stage-keep-workspace", "") {
        Err(e) => Err(e),
        Ok(first) => match parse_bool(table, "stage_keep_workspace", "") {
            Err(e) => Err(e),
            Ok(second) => match second {
                Some(b) => Ok(b),
                None => match first {
                    Some(b) => Ok(b),
                    None => Ok(false),
                },
            },
        },
    }
}

/// The way to follow that a value names.
pub open spec fn follow_in(value: SettingModel, key: Seq<char>) -> Outcome<StickyFollow> {
    match value.content {
        ContentModel::Text(t) => if t == follow_name(StickyFollow::Focused) {
            Ok(StickyFollow::Focused)
        } else if t == follow_name(StickyFollow::OwnOutput) {
            Ok(StickyFollow::OwnOutput)
        } else {
            Err(
                failure(
                    invalid(key, ""@) + ": expected \"focused\" or \"own-output\", got "@
                        + text::quoted_text(t),
                ),
            )
        },
        _ => Err(failure(invalid(key, ""@) + ": expected a string, got "@ + value.shown)),
    }
}

/// The way to follow that a key names, if it is set.
pub open spec fn follow_at(table: EntriesModel, key: Seq<char>) -> Outcome<Option<StickyFollow>> {
    match entry(table, key) {
        None => Ok(None),
        Some(value) => match follow_in(value, key) {
            Ok(follow) => Ok(Some(follow)),
            Err(e) => Err(e),
        },
    }
}

/// How sticky windows follow; the focused workspace unless it is set.
pub open spec fn follow_of(table: EntriesModel) -> Outcome<StickyFollow> {
    match follow_at(table, "sticky-follow"@) {
        Err(e) => Err(e),
        Ok(first) => match follow_at(table, "sticky_follow"@) {
            Err(e) => Err(e),
            Ok(second) => Ok(
                match later(first, second) {
                    Some(follow) => follow,
                    None => StickyFollow::Focused,
                },
            ),
        },
    }
}

impl StickyFollow {
    /// Name used in the configuration file.
    pub fn as_str(self) -> (r: &'static str)
        ensures
            r@ == follow_name(self),
    {
        match self {
            StickyFollow::Focused => "focused",
            StickyFollow::OwnOutput => "own-output",
        }
    }

    /// The way to follow that a value names.
    pub fn parse(value: &Setting, key: &str) -> (r: Result<Self, Error>)
        ensures
            outcome(r) == follow_in(value.deep_view(), key@),
    {
        match value.as_text() {
            Some(t) => {
                if text::same(t, "focused") {
                    Ok(StickyFollow::Focused)
                } else if text::same(t, "own-output") {
                    Ok(StickyFollow::OwnOutput)
                } else {
                    Err(
                        invalid_text(
                            key,
                            "",
                            ": expected \"focused\" or \"own-output\", got ",
                            text::quoted(t).as_str(),
                        ),
                    )
                }
            },
            None => Err(invalid_text(key, "", ": expected a string, got ", value.shown.as_str())),
        }
    }
}

fn follow_setting(table: &Entries, key: &str) -> (r: Result<Option<StickyFollow>, Error>)
    ensures
        outcome(r) == follow_at(table.deep_view(), key@),
{
    match get(table, key) {
        None => Ok(None),
        Some(value) => match StickyFollow::parse(value, key) {
            Ok(follow) => Ok(Some(follow)),
            Err(e) => Err(e),
        },
    }
}

/// Read `sticky-follow`, rejecting unknown values instead of guessing.
fn parse_sticky_follow(table: &Entries) -> (r: Result<StickyFollow, Error>)
    ensures
        outcome(r) == follow_of(table.deep_view()),
{
    match follow_setting(table, "sticky-follow") {
        Err(e) => Err(e),
        Ok(first) => match follow_setting(table, "sticky_follow") {
            Err(e) => Err(e),
            Ok(second) => match second {
                Some(follow) => Ok(follow),
                None => match first {
                    Some(follow) => Ok(follow),
                    None => Ok(StickyFollow::Focused),
                },
            },
        },
    }
}

/// The workspace name a key gives, if it is set.
pub open spec fn name_at(table: EntriesModel, key: Seq<char>) -> Outcome<Option<Seq<char>>> {
    match entry(table, key) {
        None => Ok(None),
        Some(value) => match value.content {
            ContentModel::Text(t) => if text::trimmed(t).len() == 0 {
                Err(failure(invalid(key, ""@) + ": workspace name must not be empty"@))
            } else {
                Ok(Some(t))
            },
            _ => Err(failure(invalid(key, ""@) + ": expected a string, got "@ + value.shown)),
        },
    }
}

/// The workspace name two spellings of a key give, or the default; they may not
/// contradict each other.
pub open spec fn name_of(
    table: EntriesModel,
    key: Seq<char>,
    alias: Seq<char>,
    default: Seq<char>,
) -> Outcome<Seq<char>> {
    match name_at(table, key) {
        Err(e) => Err(e),
        Ok(first) => match name_at(table, alias) {
            Err(e) => Err(e),
            Ok(second) => if first is Some && second is Some && first != second {
                Err(
                    failure(
                        "Conflicting "@ + alias + " values: "@ + text::quoted_text(first->0)
                            + " and "@ + text::quoted_text(second->0),
                    ),
                )
            } else {
                Ok(
                    match later(first, second) {
                        Some(name) => name,
                        None => default,
                    },
                )
            },
        },
    }
}

fn parse_workspace_name(table: &Entries, key: &str) -> (r: Result<Option<String>, Error>)
    ensures
        outcome(r) == name_at(table.deep_view(), key@),
{
    match get(table, key) {
        None => Ok(None),
        Some(value) => match value.as_text() {
            Some(t) => {
                if text::trim(t).is_empty() {
                    Err(invalid_value(key, "", ": workspace name must not be empty"))
                } else {
                    Ok(Some(t.to_owned()))
                }
            },
            None => Err(invalid_text(key, "", ": expected a string, got ", value.shown.as_str())),
        },
    }
}

/// Read a workspace name, rejecting empty or conflicting values.
fn parse_named_workspace(table: &Entries, key: &str, alias: &str, default: &str) -> (r: Result<
    String,
    Error,
>)
    ensures
        outcome(r) == name_of(table.deep_view(), key@, alias@, default@),
{
    let first = match parse_workspace_name(table, key) {
        Ok(first) => first,
        Err(e) => {
            return Err(e);
        },
    };
    let second = match parse_workspace_name(table, alias) {
        Ok(second) => second,
        Err(e) => {
            return Err(e);
        },
    };
    match second {
        Some(name) => {
            if let Some(previous) = first {
                if !text::same(previous.as_str(), name.as_str()) {
                    let mut message = "Conflicting ".to_owned();
                    message.append(alias);
                    message.append(" values: ");
                    message.append(text::quoted(previous.as_str()).as_str());
                    message.append(" and ");
                    message.append(text::quoted(name.as_str()).as_str());
                    return Err(Error::new(message.as_str()));
                }
            }
            Ok(name)
        },
        None => match first {
            Some(name) => Ok(name),
            None => Ok(default.to_owned()),
        },
    }
}

/// The menu a value describes.
pub open spec fn menu_in(value: SettingModel) -> Outcome<SpecModel> {
    match value.content {
        ContentModel::Text(line) => Ok(SpecModel::CommandLine(line)),
        _ => match texts_of(value, "Invalid menu entry"@, "Invalid menu value"@) {
            Ok(args) => Ok(SpecModel::Args(args)),
            Err(e) => Err(e),
        },
    }
}

/// The configured menu, if there is one.
pub open spec fn menu_of(table: EntriesModel) -> Outcome<Option<SpecModel>> {
    match entry(table, "menu"@) {
        None => Ok(None),
        Some(value) => match menu_in(value) {
            Ok(menu) => Ok(Some(menu)),
            Err(e) => Err(e),
        },
    }
}

fn parse_menu(table: &Entries) -> (r: Result<Option<MenuSpec>, Error>)
    ensures
        outcome(r) == menu_of(table.deep_view()),
{
    match get(table, "menu") {
        None => Ok(None),
        Some(value) => {
            if let Some(line) = value.as_text() {
                return Ok(Some(MenuSpec::CommandLine(line.to_owned())));
            }
            match read_text_or_texts(value, "Invalid menu entry", "Invalid menu value") {
                Ok(args) => Ok(Some(MenuSpec::Args(args))),
                Err(e) => Err(e),
            }
        },
    }
}

// Rules.

/// The patterns of a field, gathered from every spelling of its key.
pub open spec fn collected(
    table: EntriesModel,
    keys: Seq<Seq<char>>,
    doing: Seq<char>,
    found: Seq<Seq<char>>,
) -> Outcome<Seq<Seq<char>>>
    decreases keys.len(),
{
    if keys.len() == 0 {
        Ok(found)
    } else {
        match entry(table, keys[0]) {
            None => collected(table, keys.drop_first(), doing, found),
            Some(value) => match texts_of(value, doing, doing) {
                Ok(more) => collected(table, keys.drop_first(), doing, found + more),
                Err(e) => Err(e),
            },
        }
    }
}

/// Patterns that are no regular expressions.
pub open spec fn faulty() -> spec_fn(Seq<char>) -> bool {
    |pattern: Seq<char>| regex_fault(pattern) is Some
}

/// The patterns, when all of them are regular expressions.
pub open spec fn compiled(patterns: Seq<Seq<char>>, field: Seq<char>, rule: Seq<char>) -> Outcome<
    Seq<Seq<char>>,
> {
    match lists::find(patterns, faulty()) {
        None => Ok(patterns),
        Some(pattern) => Err(
            failure(
                "Invalid "@ + field + " regex in "@ + rule + ": "@ + text::quoted_text(pattern)
                    + "\n"@ + regex_fault(pattern)->0,
            ),
        ),
    }
}

/// The patterns of one field of a rule.
pub open spec fn patterns_of(
    table: EntriesModel,
    keys: Seq<Seq<char>>,
    field: Seq<char>,
    rule: Seq<char>,
) -> Outcome<Seq<Seq<char>>> {
    match collected(table, keys, invalid(field, in_rule(rule)), Seq::empty()) {
        Ok(patterns) => compiled(patterns, field, rule),
        Err(e) => Err(e),
    }
}

/// Collect a field's patterns from a bare string or an array of strings, with
/// every alias present merged in.
fn collect_patterns(table: &Entries, keys: &[&str], field: &str, rule: &str) -> (r: Result<
    Vec<String>,
    Error,
>)
    ensures
        outcome(r) == collected(
            table.deep_view(),
            keys.deep_view(),
            invalid(field@, in_rule(rule@)),
            Seq::empty(),
        ),
{
    let ghost all = keys.deep_view();
    let mut doing = "Invalid ".to_owned();
    doing.append(field);
    doing.append(" value");
    doing.append(place_text(rule).as_str());
    let mut found: Vec<String> = Vec::new();
    let mut i: usize = 0;
    assert(all.skip(0) =~= all);
    assert(found.deep_view() =~= Seq::empty());
    while i < keys.len()
        invariant
            i <= keys@.len(),
            all == keys.deep_view(),
            doing@ == invalid(field@, in_rule(rule@)),
            collected(table.deep_view(), all, doing@, Seq::empty()) == collected(
                table.deep_view(),
                all.skip(i as int),
                doing@,
                found.deep_view(),
            ),
        decreases keys.len() - i,
    {
        assert(all.skip(i as int)[0] == keys[i as int]@);
        assert(all.skip(i as int).drop_first() =~= all.skip(i + 1));
        if let Some(value) = get(table, keys[i]) {
            match read_text_or_texts(value, doing.as_str(), doing.as_str()) {
                Ok(mut more) => {
                    let ghost before = found.deep_view();
                    let ghost added = more.deep_view();
                    found.append(&mut more);
                    assert(found.deep_view() =~= before + added);
                },
                Err(e) => {
                    return Err(e);
                },
            }
        }
        i = i + 1;
    }
    Ok(found)
}

/// Check patterns, naming the rule, the field and the pattern when one fails.
fn compile_patterns(patterns: Vec<String>, field: &str, rule: &str) -> (r: Result<
    Vec<String>,
    Error,
>)
    ensures
        outcome(r) == compiled(patterns.deep_view(), field@, rule@),
{
    let ghost all = patterns.deep_view();
    let mut i: usize = 0;
    proof {
        lists::find_start(all, faulty());
    }
    while i < patterns.len()
        invariant
            i <= patterns@.len(),
            all == patterns.deep_view(),
            lists::find(all, faulty()) == lists::find(all.skip(i as int), faulty()),
        decreases patterns.len() - i,
    {
        proof {
            lists::find_step(all, faulty(), i as int);
        }
        if let Some(fault) = pattern_fault(patterns[i].as_str()) {
            let mut message = "Invalid ".to_owned();
            message.append(field);
            message.append(" regex in ");
            message.append(rule);
            message.append(": ");
            message.append(text::quoted(patterns[i].as_str()).as_str());
            message.append("\n");
            message.append(fault.as_str());
            return Err(Error::new(message.as_str()));
        }
        i = i + 1;
    }
    proof {
        lists::find_step(all, faulty(), i as int);
    }
    Ok(patterns)
}

fn parse_patterns(table: &Entries, keys: &[&str], field: &str, rule: &str) -> (r: Result<
    Vec<String>,
    Error,
>)
    ensures
        outcome(r) == patterns_of(table.deep_view(), keys.deep_view(), field@, rule@),
{
    match collect_patterns(table, keys, field, rule) {
        Ok(patterns) => compile_patterns(patterns, field, rule),
        Err(e) => Err(e),
    }
}

/// Names with nothing but white space.
pub open spec fn blank() -> spec_fn(Seq<char>) -> bool {
    |name: Seq<char>| text::trimmed(name).len() == 0
}

/// The output pin a key gives, if it is set.
pub open spec fn pin_at(table: EntriesModel, key: Seq<char>, rule: Seq<char>) -> Outcome<
    Option<Seq<Seq<char>>>,
> {
    let doing = invalid(key, in_rule(rule));
    match entry(table, key) {
        None => Ok(None),
        Some(value) => match texts_of(value, doing, doing) {
            Err(e) => Err(e),
            Ok(names) => if names.len() == 0 || lists::any(names, blank()) {
                Err(failure(doing + ": output names must not be empty"@))
            } else {
                Ok(Some(names))
            },
        },
    }
}

/// The output pin of a rule; the two spellings of its key may not contradict
/// each other.
pub open spec fn pin_of(table: EntriesModel, rule: Seq<char>) -> Outcome<Seq<Seq<char>>> {
    match pin_at(table, "output"@, rule) {
        Err(e) => Err(e),
        Ok(first) => match pin_at(table, "outputs"@, rule) {
            Err(e) => Err(e),
            Ok(second) => if first is Some && second is Some && first != second {
                Err(
                    failure(
                        "Conflicting output lists in "@ + rule + ": "@ + text::quoted_list(
                            first->0,
                        ) + " and "@ + text::quoted_list(second->0),
                    ),
                )
            } else {
                Ok(
                    match later(first, second) {
                        Some(names) => names,
                        None => Seq::empty(),
                    },
                )
            },
        },
    }
}

fn parse_pin(table: &Entries, key: &str, rule: &str) -> (r: Result<Option<Vec<String>>, Error>)
    ensures
        outcome(r) == pin_at(table.deep_view(), key@, rule@),
{
    let place = place_text(rule);
    let value = match get(table, key) {
        Some(value) => value,
        None => {
            return Ok(None);
        },
    };
    let mut doing = "Invalid ".to_owned();
    doing.append(key);
    doing.append(" value");
    doing.append(place.as_str());
    let names = match read_text_or_texts(value, doing.as_str(), doing.as_str()) {
        Ok(names) => names,
        Err(e) => {
            return Err(e);
        },
    };
    let ghost all = names.deep_view();
    let mut i: usize = 0;
    while i < names.len()
        invariant
            i <= names@.len(),
            all == names.deep_view(),
            forall|j: int| 0 <= j < i ==> !blank()(#[trigger] all[j]),
            doing@ == invalid(key@, in_rule(rule@)),
            place@ == in_rule(rule@),
            pin_at(table.deep_view(), key@, rule@) == (if all.len() == 0 || lists::any(
                all,
                blank(),
            ) {
                Err(failure(doing@ + ": output names must not be empty"@))
            } else {
                Ok(Some(all))
            }),
        decreases names.len() - i,
    {
        if text::trim(names[i].as_str()).is_empty() {
            assert(blank()(all[i as int]));
            return Err(
                invalid_value(key, place.as_str(), ": output names must not be empty"),
            );
        }
        i = i + 1;
    }
    if names.len() == 0 {
        return Err(invalid_value(key, place.as_str(), ": output names must not be empty"));
    }
    Ok(Some(names))
}

/// Whether two lists hold the same texts.
pub fn same_texts(a: &Vec<String>, b: &Vec<String>) -> (r: bool)
    ensures
        r == (a.deep_view() == b.deep_view()),
{
    if a.len() != b.len() {
        assert(a.deep_view().len() != b.deep_view().len());
        return false;
    }
    let mut i: usize = 0;
    while i < a.len()
        invariant
            i <= a@.len(),
            a@.len() == b@.len(),
            forall|j: int| 0 <= j < i ==> a@[j]@ == b@[j]@,
        decreases a.len() - i,
    {
        if !text::same(a[i].as_str(), b[i].as_str()) {
            assert(a.deep_view()[i as int] != b.deep_view()[i as int]);
            return false;
        }
        i = i + 1;
    }
    assert(a.deep_view() =~= b.deep_view());
    true
}

/// Read the optional `output` pins of a rule, in preference order.
fn parse_outputs(table: &Entries, rule: &str) -> (r: Result<Vec<String>, Error>)
    ensures
        outcome(r) == pin_of(table.deep_view(), rule@),
{
    let first = match parse_pin(table, "output", rule) {
        Ok(first) => first,
        Err(e) => {
            return Err(e);
        },
    };
    let second = match parse_pin(table, "outputs", rule) {
        Ok(second) => second,
        Err(e) => {
            return Err(e);
        },
    };
    match second {
        Some(names) => {
            if let Some(previous) = first {
                if !same_texts(&previous, &names) {
                    let mut message = "Conflicting output lists in ".to_owned();
                    message.append(rule);
                    message.append(": ");
                    message.append(show_list(&previous).as_str());
                    message.append(" and ");
                    message.append(show_list(&names).as_str());
                    return Err(Error::new(message.as_str()));
                }
            }
            Ok(names)
        },
        None => match first {
            Some(names) => Ok(names),
            None => {
                let none: Vec<String> = Vec::new();
                assert(none.deep_view() =~= Seq::empty());
                Ok(none)
            },
        },
    }
}

fn show_list(texts: &Vec<String>) -> (r: String)
    ensures
        r@ == text::quoted_list(texts.deep_view()),
{
    let slice = texts.as_slice();
    assert(slice.deep_view() =~= texts.deep_view());
    text::list(slice)
}

/// The id of a rule: the section and its name in it.
pub open spec fn rule_id(section: Seq<char>, name: Seq<char>) -> Seq<char> {
    section + "."@ + name
}

/// A rule as a table describes it.
pub open spec fn rule_of(table: EntriesModel, section: Seq<char>, name: Seq<char>) -> Outcome<
    RuleModel,
> {
    let id = rule_id(section, name);
    match bool_at(table, "floating"@, in_rule(id)) {
        Err(e) => Err(e),
        Ok(floating) => match pin_of(table, id) {
            Err(e) => Err(e),
            Ok(outputs) => match patterns_of(
                table,
                seq!["app-id"@, "app_id"@],
                "app-id"@,
                id,
            ) {
                Err(e) => Err(e),
                Ok(app_id) => match patterns_of(table, seq!["title"@], "title"@, id) {
                    Err(e) => Err(e),
                    Ok(title) => match patterns_of(
                        table,
                        seq!["exclude-app-id"@, "exclude_app_id"@, "not-app-id"@, "not_app_id"@],
                        "exclude-app-id"@,
                        id,
                    ) {
                        Err(e) => Err(e),
                        Ok(exclude_app_id) => match patterns_of(
                            table,
                            seq!["exclude-title"@, "exclude_title"@, "not-title"@, "not_title"@],
                            "exclude-title"@,
                            id,
                        ) {
                            Err(e) => Err(e),
                            Ok(exclude_title) => Ok(
                                RuleModel {
                                    id,
                                    floating,
                                    outputs,
                                    app_id,
                                    title,
                                    exclude_app_id,
                                    exclude_title,
                                },
                            ),
                        },
                    },
                },
            },
        },
    }
}

fn compile_rule(table: &Entries, section: &str, name: &str) -> (r: Result<CompiledRule, Error>)
    ensures
        outcome(r) == rule_of(table.deep_view(), section@, name@),
{
    // Errors name the rule as the user wrote it: `sticky.discord`, `stage.games`.
    let mut id = section.to_owned();
    id.append(".");
    id.append(name);
    let rule: &str = id.as_str();
    let floating = match parse_bool(table, "floating", place_text(rule).as_str()) {
        Ok(floating) => floating,
        Err(e) => {
            return Err(e);
        },
    };
    let outputs = match parse_outputs(table, rule) {
        Ok(outputs) => outputs,
        Err(e) => {
            return Err(e);
        },
    };
    let app_id_keys: [&str; 2] = ["app-id", "app_id"];
    assert(app_id_keys.deep_view() =~= seq!["app-id"@, "app_id"@]);
    let app_id = match parse_patterns(table, &app_id_keys, "app-id", rule) {
        Ok(patterns) => patterns,
        Err(e) => {
            return Err(e);
        },
    };
    let title_keys: [&str; 1] = ["title"];
    assert(title_keys.deep_view() =~= seq!["title"@]);
    let title = match parse_patterns(table, &title_keys, "title", rule) {
        Ok(patterns) => patterns,
        Err(e) => {
            return Err(e);
        },
    };
    let no_app_id_keys: [&str; 4] = [
        "exclude-app-id",
        "exclude_app_id",
        "not-app-id",
        "not_app_id",
    ];
    assert(no_app_id_keys.deep_view() =~= seq![
        "exclude-app-id"@,
        "exclude_app_id"@,
        "not-app-id"@,
        "not_app_id"@,
    ]);
    let exclude_app_id = match parse_patterns(table, &no_app_id_keys, "exclude-app-id", rule) {
        Ok(patterns) => patterns,
        Err(e) => {
            return Err(e);
        },
    };
    let no_title_keys: [&str; 4] = ["exclude-title", "exclude_title", "not-title", "not_title"];
    assert(no_title_keys.deep_view() =~= seq![
        "exclude-title"@,
        "exclude_title"@,
        "not-title"@,
        "not_title"@,
    ]);
    let exclude_title = match parse_patterns(table, &no_title_keys, "exclude-title", rule) {
        Ok(patterns) => patterns,
        Err(e) => {
            return Err(e);
        },
    };
    Ok(CompiledRule { id, floating, outputs, app_id, title, exclude_app_id, exclude_title })
}

/// Whether a rule narrows anything down. `floating` narrows on its own, so a
/// rule with nothing but exclusions has no constraint left.
pub open spec fn is_positive(rule: RuleModel) -> bool {
    rule.floating is Some || rule.app_id.len() > 0 || rule.title.len() > 0
}

/// The rules of a section that narrow something down, in the order of their
/// names. Entries that are no tables are passed over.
pub open spec fn rules_from(entries: EntriesModel, section: Seq<char>, found: Seq<RuleModel>) -> Outcome<
    Seq<RuleModel>,
>
    decreases entries.len(),
{
    if entries.len() == 0 {
        Ok(found)
    } else {
        match entries[0].1.content {
            ContentModel::Table(table) => match rule_of(table, section, entries[0].0) {
                Err(e) => Err(e),
                Ok(rule) => rules_from(
                    entries.drop_first(),
                    section,
                    if is_positive(rule) {
                        found.push(rule)
                    } else {
                        found
                    },
                ),
            },
            _ => rules_from(entries.drop_first(), section, found),
        }
    }
}

/// The error for a section that is no table.
pub open spec fn no_section(section: Seq<char>, value: SettingModel) -> Chain {
    failure("Invalid "@ + section + " section: expected a table, got "@ + value.shown)
}

/// The rules of a section.
pub open spec fn section_of(table: EntriesModel, section: Seq<char>) -> Outcome<Seq<RuleModel>> {
    match entry(table, section) {
        None => Ok(Seq::empty()),
        Some(value) => match value.content {
            ContentModel::Table(entries) => rules_from(entries, section, Seq::empty()),
            _ => Err(no_section(section, value)),
        },
    }
}

fn section_error(section: &str, value: &Setting) -> (r: Error)
    ensures
        r.deep_view() == no_section(section@, value.deep_view()),
{
    let mut message = "Invalid ".to_owned();
    message.append(section);
    message.append(" section: expected a table, got ");
    message.append(value.shown.as_str());
    Error::new(message.as_str())
}

/// Compile every rule of a `[<section>.<name>]` table.
#[verifier::loop_isolation(false)]
fn compile_section(table: &Entries, section: &str) -> (r: Result<Vec<CompiledRule>, Error>)
    ensures
        outcome(r) == section_of(table.deep_view(), section@),
{
    let mut rules: Vec<CompiledRule> = Vec::new();
    assert(rules.deep_view() =~= Seq::empty());
    let value = match get(table, section) {
        Some(value) => value,
        None => {
            return Ok(rules);
        },
    };
    let entries = match value.as_table() {
        Some(entries) => entries,
        None => {
            return Err(section_error(section, value));
        },
    };
    let ghost all = entries.deep_view();
    let mut i: usize = 0;
    assert(all.skip(0) =~= all);
    while i < entries.len()
        invariant
            i <= entries@.len(),
            all == entries.deep_view(),
            rules_from(all, section@, Seq::empty()) == rules_from(
                all.skip(i as int),
                section@,
                rules.deep_view(),
            ),
        decreases entries.len() - i,
    {
        let ghost first = all.skip(i as int)[0];
        assert(first.0 == entries[i as int].0@);
        assert(first.1 == entries[i as int].1.deep_view());
        assert(all.skip(i as int).drop_first() =~= all.skip(i + 1));
        if let Some(rule_table) = entries[i].1.as_table() {
            match compile_rule(rule_table, section, entries[i].0.as_str()) {
                Ok(rule) => {
                    // Rules without a constraint would match every window.
                    if rule.has_positive_constraint() {
                        let ghost before = rules.deep_view();
                        rules.push(rule);
                        assert(rules.deep_view() =~= before.push(rule.deep_view()));
                    }
                },
                Err(e) => {
                    return Err(e);
                },
            }
        }
        i = i + 1;
    }
    Ok(rules)
}

// Matching.

/// Patterns that match a text.
pub open spec fn matching(value: Seq<char>) -> spec_fn(Seq<char>) -> bool {
    |pattern: Seq<char>| regex_matches(pattern, value)
}

/// Some pattern matches a value that is there.
pub open spec fn hits(patterns: Seq<Seq<char>>, value: Option<Seq<char>>) -> bool {
    match value {
        Some(value) => lists::any(patterns, matching(value)),
        None => false,
    }
}

/// A window matches a rule: the floating state is the one asked for, every
/// field with patterns has one that matches, and no exclusion does.
pub open spec fn rule_matches(rule: RuleModel, window: FactsModel) -> bool {
    &&& rule.floating is None || rule.floating == Some(window.floating)
    &&& rule.app_id.len() == 0 || hits(rule.app_id, window.app_id)
    &&& rule.title.len() == 0 || hits(rule.title, window.title)
    &&& !hits(rule.exclude_app_id, window.app_id)
    &&& !hits(rule.exclude_title, window.title)
}

/// Any exclusion pattern matching the value excludes it; empty sets and a
/// missing value never do.
#[verifier::loop_isolation(false)]
fn is_excluded(patterns: &Vec<String>, value: Option<&str>) -> (r: bool)
    ensures
        r == hits(patterns.deep_view(), value.deep_view()),
{
    let ghost all = patterns.deep_view();
    match value {
        None => false,
        Some(value) => {
            let mut i: usize = 0;
            while i < patterns.len()
                invariant
                    i <= patterns@.len(),
                    all == patterns.deep_view(),
                    forall|j: int| 0 <= j < i ==> !matching(value@)(#[trigger] all[j]),
                decreases patterns.len() - i,
            {
                if pattern_matches(patterns[i].as_str(), value) {
                    assert(matching(value@)(all[i as int]));
                    return true;
                }
                i = i + 1;
            }
            false
        },
    }
}

/// No patterns means no constraint; otherwise any pattern may match. A missing
/// value never matches a configured pattern set.
fn matches_any(patterns: &Vec<String>, value: Option<&str>) -> (r: bool)
    ensures
        r == (patterns.deep_view().len() == 0 || hits(patterns.deep_view(), value.deep_view())),
{
    patterns.len() == 0 || is_excluded(patterns, value)
}

/// The summary of a rule.
pub open spec fn summary_of(rule: RuleModel) -> SummaryModel {
    SummaryModel {
        id: rule.id,
        floating: rule.floating,
        outputs: rule.outputs,
        app_id: rule.app_id.len(),
        title: rule.title.len(),
        exclude_app_id: rule.exclude_app_id.len(),
        exclude_title: rule.exclude_title.len(),
    }
}

impl CompiledRule {
    /// Whether a window matches.
    pub fn matches(&self, window: &WindowFacts<'_>) -> (r: bool)
        ensures
            r == rule_matches(self.deep_view(), window.deep_view()),
    {
        if let Some(floating) = self.floating {
            if floating != window.floating {
                return false;
            }
        }
        matches_any(&self.app_id, window.app_id) && matches_any(&self.title, window.title)
            && !is_excluded(&self.exclude_app_id, window.app_id) && !is_excluded(
            &self.exclude_title,
            window.title,
        )
    }

    /// What `config check` reports of the rule.
    pub fn summary(&self) -> (r: RuleSummary)
        ensures
            r.deep_view() == summary_of(self.deep_view()),
    {
        RuleSummary {
            id: self.id.clone(),
            floating: self.floating,
            outputs: copy_texts(&self.outputs),
            app_id: self.app_id.len(),
            title: self.title.len(),
            exclude_app_id: self.exclude_app_id.len(),
            exclude_title: self.exclude_title.len(),
        }
    }

    /// `floating` narrows on its own, so a rule with nothing but exclusions has
    /// no constraint left and would match every window.
    pub fn has_positive_constraint(&self) -> (r: bool)
        ensures
            r == is_positive(self.deep_view()),
    {
        self.floating.is_some() || self.app_id.len() > 0 || self.title.len() > 0
    }
}

// Sizes and scratchpads.

/// A text without the `px` at its end, however often it is there.
pub open spec fn without_px(t: Seq<char>) -> Seq<char>
    decreases t.len(),
{
    if t.len() >= 2 && t[t.len() - 2] == 'p' && t[t.len() - 1] == 'x' {
        without_px(t.take(t.len() - 2))
    } else {
        t
    }
}

/// The error for a value that is no size.
pub open spec fn no_size(doing: Seq<char>, shown: Seq<char>) -> Chain {
    failure(doing + ": expected pixels (\"400\") or a percentage (\"60%\"), got "@ + shown)
}

/// The size a value describes, whatever its range.
pub open spec fn size_read(value: SettingModel, doing: Seq<char>) -> Outcome<SizeModel> {
    match value.content {
        ContentModel::Integer(pixels) => Ok(SizeModel::Fixed(pixels as i32)),
        ContentModel::Text(raw) => {
            let t = text::trimmed(raw);
            if t.len() > 0 && t.last() == '%' {
                match number_in(text::trimmed(t.drop_last())) {
                    Some((bits, shown)) => Ok(SizeModel::Percent { bits, shown }),
                    None => Err(
                        failure(doing + ": "@ + (text::quoted_text(t) + " is not a percentage"@)),
                    ),
                }
            } else {
                match text::integer_in(text::trimmed(without_px(t))) {
                    Some(pixels) => if i32::MIN <= pixels <= i32::MAX {
                        Ok(SizeModel::Fixed(pixels as i32))
                    } else {
                        Err(no_size(doing, text::quoted_text(t)))
                    },
                    None => Err(no_size(doing, text::quoted_text(t))),
                }
            }
        },
        _ => Err(no_size(doing, value.shown)),
    }
}

/// A size that a window can have.
pub open spec fn size_checked(size: SizeModel, doing: Seq<char>) -> Outcome<SizeModel> {
    match size {
        SizeModel::Fixed(pixels) => if pixels <= 0 {
            Err(failure(doing + ": size must be positive"@))
        } else {
            Ok(size)
        },
        SizeModel::Percent { bits, .. } => if 0 < bits <= HUNDRED_BITS {
            Ok(size)
        } else {
            Err(failure(doing + ": percentage must be above 0 and at most 100"@))
        },
    }
}

/// The size a value describes.
pub open spec fn size_in(value: SettingModel, key: Seq<char>, rule: Seq<char>) -> Outcome<
    SizeModel,
> {
    let doing = invalid(key, in_rule(rule));
    match size_read(value, doing) {
        Ok(size) => size_checked(size, doing),
        Err(e) => Err(e),
    }
}

/// The size a key gives, if it is set.
pub open spec fn size_at(table: EntriesModel, key: Seq<char>, rule: Seq<char>) -> Outcome<
    Option<SizeModel>,
> {
    match entry(table, key) {
        None => Ok(None),
        Some(value) => match size_in(value, key, rule) {
            Ok(size) => Ok(Some(size)),
            Err(e) => Err(e),
        },
    }
}

fn strip_px(t: &str) -> (r: &str)
    ensures
        r@ == without_px(t@),
{
    let mut n: usize = t.unicode_len();
    assert(t@.take(n as int) =~= t@);
    while n >= 2 && t.get_char(n - 2) == 'p' && t.get_char(n - 1) == 'x'
        invariant
            n <= t@.len(),
            without_px(t@) == without_px(t@.take(n as int)),
        decreases n,
    {
        assert(t@.take(n as int).take(n - 2) =~= t@.take(n - 2));
        n = n - 2;
    }
    assert(t@.subrange(0, n as int) =~= t@.take(n as int));
    t.substring_char(0, n)
}

impl Size {
    /// The size a value describes.
    pub fn parse(value: &Setting, key: &str, rule: &str) -> (r: Result<Self, Error>)
        ensures
            outcome(r) == size_in(value.deep_view(), key@, rule@),
    {
        let place = place_text(rule);
        let wanted = ": expected pixels (\"400\") or a percentage (\"60%\"), got ";
        let size = match &value.content {
            crate::document::Content::Integer(pixels) => Size::Fixed(
                #[verifier::truncate] (*pixels as i32),
            ),
            crate::document::Content::Text(raw) => {
                let t = text::trim(raw.as_str());
                let n: usize = t.unicode_len();
                if n > 0 && t.get_char(n - 1) == '%' {
                    let number = t.substring_char(0, n - 1);
                    assert(number@ =~= t@.drop_last());
                    match read_percentage(text::trim(number)) {
                        Some(percentage) => Size::Percent(percentage),
                        None => {
                            let mut shown = text::quoted(t);
                            shown.append(" is not a percentage");
                            return Err(invalid_text(key, place.as_str(), ": ", shown.as_str()));
                        },
                    }
                } else {
                    match text::read_integer(text::trim(strip_px(t))) {
                        Some(pixels) => Size::Fixed(pixels),
                        None => {
                            return Err(
                                invalid_text(
                                    key,
                                    place.as_str(),
                                    wanted,
                                    text::quoted(t).as_str(),
                                ),
                            );
                        },
                    }
                }
            },
            _ => {
                return Err(invalid_text(key, place.as_str(), wanted, value.shown.as_str()));
            },
        };
        let in_range = match &size {
            Size::Fixed(pixels) => {
                if *pixels <= 0 {
                    return Err(invalid_value(key, place.as_str(), ": size must be positive"));
                }
                true
            },
            Size::Percent(p) => 0 < p.bits && p.bits <= HUNDRED_BITS,
        };
        if in_range {
            Ok(size)
        } else {
            Err(
                invalid_value(key, place.as_str(), ": percentage must be above 0 and at most 100"),
            )
        }
    }

    /// The same size, as the compositor is asked for it.
    pub fn to_niri(&self) -> (r: niri::Size)
        ensures
            r == niri_size(self.deep_view()),
    {
        match self {
            Size::Fixed(pixels) => niri::Size::Fixed(*pixels),
            Size::Percent(p) => niri::Size::Percent(p.bits),
        }
    }
}

/// Sizes are the same shape on both sides, only the types differ.
pub open spec fn niri_size(size: SizeModel) -> niri::Size {
    match size {
        SizeModel::Fixed(pixels) => niri::Size::Fixed(pixels),
        SizeModel::Percent { bits, .. } => niri::Size::Percent(bits),
    }
}

fn parse_size(table: &Entries, key: &str, rule: &str) -> (r: Result<Option<Size>, Error>)
    ensures
        outcome(r) == size_at(table.deep_view(), key@, rule@),
{
    match get(table, key) {
        None => Ok(None),
        Some(value) => match Size::parse(value, key, rule) {
            Ok(size) => Ok(Some(size)),
            Err(e) => Err(e),
        },
    }
}

/// The command a scratchpad starts, if one is set.
pub open spec fn spawn_of(table: EntriesModel, rule: Seq<char>) -> Outcome<
    Option<Seq<Seq<char>>>,
> {
    let doing = invalid("spawn"@, in_rule(rule));
    match entry(table, "spawn"@) {
        None => Ok(None),
        Some(value) => match value.content {
            ContentModel::List(items) => match texts_from(items, doing, Seq::empty()) {
                Err(e) => Err(e),
                Ok(argv) => if argv.len() == 0 || text::trimmed(argv[0]).len() == 0 {
                    Err(failure(doing + ": the command must not be empty"@))
                } else {
                    Ok(Some(argv))
                },
            },
            _ => Err(failure(doing + ": expected an array of strings, got "@ + value.shown)),
        },
    }
}

fn parse_spawn(table: &Entries, rule: &str) -> (r: Result<Option<Vec<String>>, Error>)
    ensures
        outcome(r) == spawn_of(table.deep_view(), rule@),
{
    let place = place_text(rule);
    let value = match get(table, "spawn") {
        Some(value) => value,
        None => {
            return Ok(None);
        },
    };
    let items = match value.as_list() {
        Some(items) => items,
        None => {
            return Err(
                invalid_text(
                    "spawn",
                    place.as_str(),
                    ": expected an array of strings, got ",
                    value.shown.as_str(),
                ),
            );
        },
    };
    let mut doing = "Invalid ".to_owned();
    doing.append("spawn");
    doing.append(" value");
    doing.append(place.as_str());
    match read_texts(items, doing.as_str()) {
        Err(e) => Err(e),
        Ok(argv) => {
            assert(argv@.len() > 0 ==> argv.deep_view()[0] == argv@[0]@);
            if argv.len() == 0 || text::trim(argv[0].as_str()).is_empty() {
                return Err(
                    invalid_value("spawn", place.as_str(), ": the command must not be empty"),
                );
            }
            Ok(Some(argv))
        },
    }
}

/// A scratchpad as a table describes it.
pub open spec fn pad_of(table: EntriesModel, name: Seq<char>) -> Outcome<PadModel> {
    let id = rule_id("scratchpad"@, name);
    match rule_of(table, "scratchpad"@, name) {
        Err(e) => Err(e),
        Ok(rule) => match spawn_of(table, id) {
            Err(e) => Err(e),
            Ok(spawn) => match bool_at(table, "float"@, in_rule(id)) {
                Err(e) => Err(e),
                Ok(float) => match size_at(table, "width"@, id) {
                    Err(e) => Err(e),
                    Ok(width) => match size_at(table, "height"@, id) {
                        Err(e) => Err(e),
                        Ok(height) => Ok(
                            PadModel {
                                name,
                                matcher: if is_positive(rule) {
                                    Some(rule)
                                } else {
                                    None
                                },
                                spawn,
                                float: float != Some(false),
                                width,
                                height,
                            },
                        ),
                    },
                },
            },
        },
    }
}

fn compile_scratchpad(table: &Entries, name: &str) -> (r: Result<Scratchpad, Error>)
    ensures
        outcome(r) == pad_of(table.deep_view(), name@),
{
    let mut id = "scratchpad".to_owned();
    id.append(".");
    id.append(name);
    let rule: &str = id.as_str();
    let compiled = match compile_rule(table, "scratchpad", name) {
        Ok(compiled) => compiled,
        Err(e) => {
            return Err(e);
        },
    };
    // No matching field means the scratchpad acts on the focused window.
    let matcher = if compiled.has_positive_constraint() {
        Some(compiled)
    } else {
        None
    };
    let spawn = match parse_spawn(table, rule) {
        Ok(spawn) => spawn,
        Err(e) => {
            return Err(e);
        },
    };
    let float = match parse_bool(table, "float", place_text(rule).as_str()) {
        Ok(Some(float)) => float,
        Ok(None) => true,
        Err(e) => {
            return Err(e);
        },
    };
    let width = match parse_size(table, "width", rule) {
        Ok(width) => width,
        Err(e) => {
            return Err(e);
        },
    };
    let height = match parse_size(table, "height", rule) {
        Ok(height) => height,
        Err(e) => {
            return Err(e);
        },
    };
    Ok(Scratchpad { name: name.to_owned(), matcher, spawn, float, width, height })
}

/// The scratchpads of a section, in the order of their names. Entries that are
/// no tables are passed over.
pub open spec fn pads_from(entries: EntriesModel, found: Seq<PadModel>) -> Outcome<Seq<PadModel>>
    decreases entries.len(),
{
    if entries.len() == 0 {
        Ok(found)
    } else {
        match entries[0].1.content {
            ContentModel::Table(table) => match pad_of(table, entries[0].0) {
                Err(e) => Err(e),
                Ok(pad) => pads_from(entries.drop_first(), found.push(pad)),
            },
            _ => pads_from(entries.drop_first(), found),
        }
    }
}

/// Every scratchpad of a document.
pub open spec fn pads_of(table: EntriesModel) -> Outcome<Seq<PadModel>> {
    match entry(table, "scratchpad"@) {
        None => Ok(Seq::empty()),
        Some(value) => match value.content {
            ContentModel::Table(entries) => pads_from(entries, Seq::empty()),
            _ => Err(no_section("scratchpad"@, value)),
        },
    }
}

/// Compile every `[scratchpad.<name>]` section.
#[verifier::loop_isolation(false)]
fn compile_scratchpads(table: &Entries) -> (r: Result<Vec<Scratchpad>, Error>)
    ensures
        outcome(r) == pads_of(table.deep_view()),
{
    let mut pads: Vec<Scratchpad> = Vec::new();
    assert(pads.deep_view() =~= Seq::empty());
    let value = match get(table, "scratchpad") {
        Some(value) => value,
        None => {
            return Ok(pads);
        },
    };
    let entries = match value.as_table() {
        Some(entries) => entries,
        None => {
            return Err(section_error("scratchpad", value));
        },
    };
    let ghost all = entries.deep_view();
    let mut i: usize = 0;
    assert(all.skip(0) =~= all);
    while i < entries.len()
        invariant
            i <= entries@.len(),
            pads_from(all, Seq::empty()) == pads_from(all.skip(i as int), pads.deep_view()),
        decreases entries.len() - i,
    {
        let ghost first = all.skip(i as int)[0];
        assert(first.0 == entries[i as int].0@);
        assert(first.1 == entries[i as int].1.deep_view());
        assert(all.skip(i as int).drop_first() =~= all.skip(i + 1));
        if let Some(pad_table) = entries[i].1.as_table() {
            match compile_scratchpad(pad_table, entries[i].0.as_str()) {
                Ok(pad) => {
                    let ghost before = pads.deep_view();
                    pads.push(pad);
                    assert(pads.deep_view() =~= before.push(pad.deep_view()));
                },
                Err(e) => {
                    return Err(e);
                },
            }
        }
        i = i + 1;
    }
    Ok(pads)
}

/// A size as `config check` shows it.
pub open spec fn size_shown(size: Option<SizeModel>) -> Seq<char> {
    match size {
        Some(SizeModel::Fixed(pixels)) => text::signed_decimal(pixels as int) + "px"@,
        Some(SizeModel::Percent { shown, .. }) => shown + "%"@,
        None => "auto"@,
    }
}

fn show_size(size: &Option<Size>) -> (r: String)
    ensures
        r@ == size_shown(size.deep_view()),
{
    match size {
        Some(Size::Fixed(pixels)) => {
            let mut out = text::integer(*pixels);
            out.append("px");
            out
        },
        Some(Size::Percent(p)) => {
            let mut out = p.shown.clone();
            out.append("%");
            out
        },
        None => "auto".to_owned(),
    }
}

/// Whether a scratchpad has a window of its own and this is it.
pub open spec fn pad_matches(pad: PadModel, window: FactsModel) -> bool {
    match pad.matcher {
        Some(rule) => rule_matches(rule, window),
        None => false,
    }
}

/// The size a scratchpad asks for, in words.
pub open spec fn pad_size(pad: PadModel) -> Seq<char> {
    size_shown(pad.width) + "x"@ + size_shown(pad.height)
}

impl Scratchpad {
    /// Whether this scratchpad acts on the focused window.
    pub fn follows_focus(&self) -> (r: bool)
        ensures
            r == (self.deep_view().matcher is None),
    {
        self.matcher.is_none()
    }

    /// Whether a window matches; a focus-tracking scratchpad matches nothing.
    pub fn matches(&self, window: &WindowFacts<'_>) -> (r: bool)
        ensures
            r == pad_matches(self.deep_view(), window.deep_view()),
    {
        match &self.matcher {
            Some(matcher) => matcher.matches(window),
            None => false,
        }
    }

    /// The size it asks for, as configured.
    pub fn describe_size(&self) -> (r: String)
        ensures
            r@ == pad_size(self.deep_view()),
    {
        let mut out = show_size(&self.width);
        out.append("x");
        out.append(show_size(&self.height).as_str());
        out
    }
}

/// One count of a rule summary, where there is something to count.
pub open spec fn count_part(label: Seq<char>, count: nat) -> Seq<Seq<char>> {
    if count > 0 {
        seq![label + ": "@ + text::decimal(count)]
    } else {
        Seq::empty()
    }
}

/// The parts of a rule summary.
pub open spec fn summary_parts(summary: SummaryModel) -> Seq<Seq<char>> {
    (match summary.floating {
        Some(floating) => seq![
            if floating {
                "floating: true"@
            } else {
                "floating: false"@
            },
        ],
        None => Seq::empty(),
    }) + count_part("app-id"@, summary.app_id) + count_part("title"@, summary.title) + count_part(
        "exclude-app-id"@,
        summary.exclude_app_id,
    ) + count_part("exclude-title"@, summary.exclude_title)
}

fn push_count(parts: &mut Vec<String>, label: &str, count: usize)
    ensures
        final(parts).deep_view() == old(parts).deep_view() + count_part(label@, count as nat),
{
    let ghost before = parts.deep_view();
    if count > 0 {
        let mut part = label.to_owned();
        part.append(": ");
        part.append(text::number(count as u64).as_str());
        parts.push(part);
        assert(parts.deep_view() =~= before + seq![part@]);
    }
    assert(before + Seq::empty() =~= before);
}

impl RuleSummary {
    /// Pattern counts, e.g. `app-id: 3, exclude-title: 1`.
    pub fn fields(&self) -> (r: String)
        ensures
            r@ == text::joined(summary_parts(self.deep_view()), ", "@),
    {
        let mut parts: Vec<String> = Vec::new();
        assert(parts.deep_view() =~= Seq::empty());
        if let Some(floating) = self.floating {
            let part = if floating {
                "floating: true".to_owned()
            } else {
                "floating: false".to_owned()
            };
            parts.push(part);
            assert(parts.deep_view() =~= seq![part@]);
        }
        push_count(&mut parts, "app-id", self.app_id);
        push_count(&mut parts, "title", self.title);
        push_count(&mut parts, "exclude-app-id", self.exclude_app_id);
        push_count(&mut parts, "exclude-title", self.exclude_title);
        let slice = parts.as_slice();
        assert(slice.deep_view() =~= parts.deep_view());
        text::join(slice, ", ")
    }
}

// Documents.

/// The error for two parking areas on one workspace.
pub open spec fn shared_workspace(name: Seq<char>) -> Chain {
    failure(
        "stage-workspace and scratchpad-workspace cannot both be "@ + text::quoted_text(name)
            + ": each parking area needs a workspace of its own"@,
    )
}

/// The configuration a table of settings describes.
pub open spec fn config_of(table: EntriesModel) -> Outcome<ConfigModel> {
    match menu_of(table) {
        Err(e) => Err(e),
        Ok(menu) => match name_of(
            table,
            "stage-workspace"@,
            "stage_workspace"@,
            DEFAULT_STAGE_WORKSPACE@,
        ) {
            Err(e) => Err(e),
            Ok(stage_workspace) => match name_of(
                table,
                "scratchpad-workspace"@,
                "scratchpad_workspace"@,
                DEFAULT_SCRATCHPAD_WORKSPACE@,
            ) {
                Err(e) => Err(e),
                Ok(scratchpad_workspace) => if stage_workspace == scratchpad_workspace {
                    Err(shared_workspace(stage_workspace))
                } else {
                    rest_of(table, menu, stage_workspace, scratchpad_workspace)
                },
            },
        },
    }
}

/// The configuration, once the menu and the workspaces are known.
pub open spec fn rest_of(
    table: EntriesModel,
    menu: Option<SpecModel>,
    stage_workspace: Seq<char>,
    scratchpad_workspace: Seq<char>,
) -> Outcome<ConfigModel> {
    match follow_of(table) {
        Err(e) => Err(e),
        Ok(sticky_follow) => match keep_of(table) {
            Err(e) => Err(e),
            Ok(stage_keep_workspace) => match section_of(table, "sticky"@) {
                Err(e) => Err(e),
                Ok(sticky_rules) => match section_of(table, "stage"@) {
                    Err(e) => Err(e),
                    Ok(stage_rules) => match pads_of(table) {
                        Err(e) => Err(e),
                        Ok(scratchpads) => Ok(
                            ConfigModel {
                                sticky_rules,
                                stage_rules,
                                menu,
                                stage_workspace,
                                scratchpad_workspace,
                                stage_keep_workspace,
                                sticky_follow,
                                scratchpads,
                            },
                        ),
                    },
                },
            },
        },
    }
}

/// The configuration a document describes.
pub open spec fn config_in(content: Seq<char>) -> Outcome<ConfigModel> {
    match toml_document(content) {
        Ok(table) => config_of(table),
        Err(message) => Err(failure(message)),
    }
}

/// The configuration of a file, given what reading it came to.
pub open spec fn loaded(path: Seq<char>, content: Outcome<Seq<char>>) -> Outcome<ConfigModel> {
    match content {
        Err(e) => Err(in_context("Failed to read config: "@ + text::quoted_path_text(path), e)),
        Ok(content) => match config_in(content) {
            Ok(config) => Ok(config),
            Err(e) => Err(in_context("Failed to parse TOML: "@ + text::quoted_path_text(path), e)),
        },
    }
}

/// The directory of the configuration under a base directory.
pub open spec fn config_dir(base: Option<Seq<char>>) -> Seq<char> {
    text::path_join(
        match base {
            Some(base) => base,
            None => "/tmp/nsticky"@,
        },
        "nsticky"@,
    )
}

/// The rules of one kind, as they are reported.
pub open spec fn reported(rules: Seq<RuleModel>, action: WindowAction) -> Seq<
    (WindowAction, SummaryModel),
> {
    rules.map_values(|rule: RuleModel| (action, summary_of(rule)))
}

/// Rules that match a window.
pub open spec fn matched_by(window: FactsModel) -> spec_fn(RuleModel) -> bool {
    |rule: RuleModel| rule_matches(rule, window)
}

/// The first rule of a list that matches, with what it does.
pub open spec fn first_match(rules: Seq<RuleModel>, action: WindowAction, window: FactsModel) -> Option<
    MatchedModel,
> {
    match lists::find(rules, matched_by(window)) {
        Some(rule) => Some(MatchedModel { action, id: rule.id, outputs: rule.outputs }),
        None => None,
    }
}

/// The rule that applies to a window: the first sticky rule that matches, else
/// the first stage rule that does.
pub open spec fn match_of(config: ConfigModel, window: FactsModel) -> Option<MatchedModel> {
    match first_match(config.sticky_rules, WindowAction::Sticky, window) {
        Some(matched) => Some(matched),
        None => first_match(config.stage_rules, WindowAction::Stage, window),
    }
}

/// Scratchpads with this name.
pub open spec fn pad_named(name: Seq<char>) -> spec_fn(PadModel) -> bool {
    |pad: PadModel| pad.name == name
}

fn find_match(rules: &Vec<CompiledRule>, action: WindowAction, window: &WindowFacts<'_>) -> (r:
    Option<MatchedRule>)
    ensures
        r.deep_view() == first_match(rules.deep_view(), action, window.deep_view()),
{
    let ghost all = rules.deep_view();
    let ghost p = matched_by(window.deep_view());
    let mut i: usize = 0;
    proof {
        lists::find_start(all, p);
    }
    while i < rules.len()
        invariant
            i <= rules@.len(),
            all == rules.deep_view(),
            p == matched_by(window.deep_view()),
            lists::find(all, p) == lists::find(all.skip(i as int), p),
        decreases rules.len() - i,
    {
        proof {
            lists::find_step(all, p, i as int);
        }
        if rules[i].matches(window) {
            return Some(
                MatchedRule {
                    action,
                    id: rules[i].id.clone(),
                    outputs: copy_texts(&rules[i].outputs),
                },
            );
        }
        i = i + 1;
    }
    proof {
        lists::find_step(all, p, i as int);
    }
    None
}

fn push_reports(
    reports: &mut Vec<(WindowAction, RuleSummary)>,
    rules: &Vec<CompiledRule>,
    action: WindowAction,
)
    ensures
        final(reports).deep_view() == old(reports).deep_view() + reported(
            rules.deep_view(),
            action,
        ),
{
    let ghost start = reports.deep_view();
    let ghost all = reported(rules.deep_view(), action);
    let mut i: usize = 0;
    assert(start + all.take(0) =~= start);
    while i < rules.len()
        invariant
            i <= rules@.len(),
            all == reported(rules.deep_view(), action),
            reports.deep_view() == start + all.take(i as int),
        decreases rules.len() - i,
    {
        let ghost before = reports.deep_view();
        let summary = rules[i].summary();
        reports.push((action, summary));
        assert(reports.deep_view() =~= before.push((action, summary.deep_view())));
        assert(all[i as int] == (action, summary.deep_view()));
        assert(start + all.take(i + 1) =~= (start + all.take(i as int)).push(all[i as int]));
        i = i + 1;
    }
    assert(all.take(i as int) =~= all);
}

impl Config {
    /// The configuration of a file, given what reading the file came to.
    pub fn load(path: &str, content: Result<String, Error>) -> (r: Result<Self, Error>)
        ensures
            outcome(r) == loaded(path@, outcome(content)),
    {
        match content {
            Err(e) => {
                let mut doing = "Failed to read config: ".to_owned();
                doing.append(text::quoted_path(path).as_str());
                Err(e.context(doing.as_str()))
            },
            Ok(content) => match Self::parse_document(content.as_str()) {
                Ok(config) => Ok(config),
                Err(e) => {
                    let mut doing = "Failed to parse TOML: ".to_owned();
                    doing.append(text::quoted_path(path).as_str());
                    Err(e.context(doing.as_str()))
                },
            },
        }
    }

    /// Parse a TOML document.
    pub fn parse_document(content: &str) -> (r: Result<Self, Error>)
        ensures
            outcome(r) == config_in(content@),
    {
        match read_document(content) {
            Ok(table) => Self::from_entries(&table),
            Err(message) => Err(Error::new(message.as_str())),
        }
    }

    /// The configuration a table of settings describes.
    pub fn from_entries(table: &Entries) -> (r: Result<Self, Error>)
        ensures
            outcome(r) == config_of(table.deep_view()),
    {
        let menu = match parse_menu(table) {
            Ok(menu) => menu,
            Err(e) => {
                return Err(e);
            },
        };
        let stage_workspace = match parse_named_workspace(
            table,
            "stage-workspace",
            "stage_workspace",
            DEFAULT_STAGE_WORKSPACE,
        ) {
            Ok(name) => name,
            Err(e) => {
                return Err(e);
            },
        };
        let scratchpad_workspace = match parse_named_workspace(
            table,
            "scratchpad-workspace",
            "scratchpad_workspace",
            DEFAULT_SCRATCHPAD_WORKSPACE,
        ) {
            Ok(name) => name,
            Err(e) => {
                return Err(e);
            },
        };
        // Two parking areas need two workspaces: sharing one would make each
        // area's windows land on the other's and leave their order undefined.
        if text::same(stage_workspace.as_str(), scratchpad_workspace.as_str()) {
            let mut message = "stage-workspace and scratchpad-workspace cannot both be ".to_owned();
            message.append(text::quoted(stage_workspace.as_str()).as_str());
            message.append(": each parking area needs a workspace of its own");
            return Err(Error::new(message.as_str()));
        }
        let sticky_follow = match parse_sticky_follow(table) {
            Ok(follow) => follow,
            Err(e) => {
                return Err(e);
            },
        };
        let stage_keep_workspace = match parse_stage_keep_workspace(table) {
            Ok(keep) => keep,
            Err(e) => {
                return Err(e);
            },
        };
        let sticky_rules = match compile_section(table, "sticky") {
            Ok(rules) => rules,
            Err(e) => {
                return Err(e);
            },
        };
        let stage_rules = match compile_section(table, "stage") {
            Ok(rules) => rules,
            Err(e) => {
                return Err(e);
            },
        };
        let scratchpads = match compile_scratchpads(table) {
            Ok(pads) => pads,
            Err(e) => {
                return Err(e);
            },
        };
        Ok(
            Config {
                sticky_rules,
                stage_rules,
                menu,
                stage_workspace,
                scratchpad_workspace,
                stage_keep_workspace,
                sticky_follow,
                scratchpads,
            },
        )
    }

    /// Separate from the environment lookup so the fallback is testable.
    pub fn config_dir_under(base: Option<&str>) -> (r: String)
        ensures
            r@ == config_dir(base.deep_view()),
    {
        match base {
            Some(base) => text::join_path(base, "nsticky"),
            None => text::join_path("/tmp/nsticky", "nsticky"),
        }
    }

    /// The configuration file under a base directory.
    pub fn config_path_under(base: Option<&str>) -> (r: String)
        ensures
            r@ == text::path_join(config_dir(base.deep_view()), "config.toml"@),
    {
        text::join_path(Self::config_dir_under(base).as_str(), "config.toml")
    }

    /// A missing or broken file must not keep the daemon from starting.
    pub fn load_or_default_at(path: &str, content: Result<String, Error>) -> (r: Self)
        ensures
            r.deep_view() == (match loaded(path@, outcome(content)) {
                Ok(config) => config,
                Err(_) => default_config(),
            }),
    {
        match Self::load(path, content) {
            Ok(config) => config,
            Err(_) => Config::default(),
        }
    }

    /// Selector command used by `stage restore`, if configured.
    pub fn menu(&self) -> (r: Option<&MenuSpec>)
        ensures
            r.deep_view() == self.deep_view().menu,
    {
        self.menu.as_ref()
    }

    /// Workspace staged windows are parked on (`stage` unless configured).
    pub fn stage_workspace(&self) -> (r: &str)
        ensures
            r@ == self.deep_view().stage_workspace,
    {
        self.stage_workspace.as_str()
    }

    /// The scratchpad with this name, if it is configured.
    pub fn scratchpad(&self, name: &str) -> (r: Option<&Scratchpad>)
        ensures
            r.deep_view() == lists::find(self.deep_view().scratchpads, pad_named(name@)),
    {
        let ghost all = self.scratchpads.deep_view();
        let ghost p = pad_named(name@);
        let mut i: usize = 0;
        proof {
            lists::find_start(all, p);
        }
        while i < self.scratchpads.len()
            invariant
                i <= self.scratchpads@.len(),
                all == self.scratchpads.deep_view(),
                p == pad_named(name@),
                lists::find(all, p) == lists::find(all.skip(i as int), p),
            decreases self.scratchpads.len() - i,
        {
            proof {
                lists::find_step(all, p, i as int);
            }
            if text::same(self.scratchpads[i].name.as_str(), name) {
                return Some(&self.scratchpads[i]);
            }
            i = i + 1;
        }
        proof {
            lists::find_step(all, p, i as int);
        }
        None
    }

    /// Names of the configured scratchpads, for error messages.
    pub fn scratchpad_names(&self) -> (r: Vec<String>)
        ensures
            r.deep_view() == pad_names(self.deep_view()),
    {
        let mut names: Vec<String> = Vec::new();
        let mut i: usize = 0;
        while i < self.scratchpads.len()
            invariant
                i <= self.scratchpads@.len(),
                names.deep_view() =~= pad_names(self.deep_view()).take(i as int),
            decreases self.scratchpads.len() - i,
        {
            let ghost before = names.deep_view();
            names.push(self.scratchpads[i].name.clone());
            assert(names.deep_view() =~= before.push(self.scratchpads@[i as int].name@));
            i = i + 1;
        }
        assert(pad_names(self.deep_view()).take(i as int) =~= pad_names(self.deep_view()));
        names
    }

    /// Workspace parked scratchpad windows live on.
    pub fn scratchpad_workspace(&self) -> (r: &str)
        ensures
            r@ == self.deep_view().scratchpad_workspace,
    {
        self.scratchpad_workspace.as_str()
    }

    /// Whether the stage workspace keeps its name (and therefore exists) while
    /// nothing is parked on it.
    pub fn stage_keep_workspace(&self) -> (r: bool)
        ensures
            r == self.deep_view().stage_keep_workspace,
    {
        self.stage_keep_workspace
    }

    /// How sticky windows without an `output` pin follow workspaces.
    pub fn sticky_follow(&self) -> (r: StickyFollow)
        ensures
            r == self.deep_view().sticky_follow,
    {
        self.sticky_follow
    }

    /// Every compiled rule, in match precedence order.
    pub fn rules(&self) -> (r: Vec<(WindowAction, RuleSummary)>)
        ensures
            r.deep_view() == reported(self.deep_view().sticky_rules, WindowAction::Sticky)
                + reported(self.deep_view().stage_rules, WindowAction::Stage),
    {
        let mut reports: Vec<(WindowAction, RuleSummary)> = Vec::new();
        assert(reports.deep_view() =~= Seq::empty());
        push_reports(&mut reports, &self.sticky_rules, WindowAction::Sticky);
        push_reports(&mut reports, &self.stage_rules, WindowAction::Stage);
        assert(reports.deep_view() =~= reported(
            self.deep_view().sticky_rules,
            WindowAction::Sticky,
        ) + reported(self.deep_view().stage_rules, WindowAction::Stage));
        reports
    }

    /// Sticky rules are checked before stage rules, so adding a stage rule
    /// never changes how an existing sticky configuration behaves.
    pub fn match_rule(&self, window: &WindowFacts<'_>) -> (r: Option<MatchedRule>)
        ensures
            r.deep_view() == match_of(self.deep_view(), window.deep_view()),
    {
        match find_match(&self.sticky_rules, WindowAction::Sticky, window) {
            Some(matched) => Some(matched),
            None => find_match(&self.stage_rules, WindowAction::Stage, window),
        }
    }
}

/// The names of the configured scratchpads.
pub open spec fn pad_names(config: ConfigModel) -> Seq<Seq<char>> {
    config.scratchpads.map_values(|pad: PadModel| pad.name)
}

// What holds of every configuration.

/// A rule that can be matched: it narrows, and all its patterns are regular
/// expressions.
pub open spec fn is_sound(rule: RuleModel) -> bool {
    &&& is_positive(rule)
    &&& !lists::any(rule.app_id, faulty())
    &&& !lists::any(rule.title, faulty())
    &&& !lists::any(rule.exclude_app_id, faulty())
    &&& !lists::any(rule.exclude_title, faulty())
}

/// All of these rules can be matched.
pub open spec fn all_sound(rules: Seq<RuleModel>) -> bool {
    forall|i: int| 0 <= i < rules.len() ==> is_sound(#[trigger] rules[i])
}

/// All of these sizes are sizes a window can have.
pub open spec fn is_possible(size: Option<SizeModel>) -> bool {
    match size {
        None => true,
        Some(SizeModel::Fixed(pixels)) => pixels > 0,
        Some(SizeModel::Percent { bits, .. }) => 0 < bits <= HUNDRED_BITS,
    }
}

/// All of these scratchpads have a matcher that can be matched, if any, and a
/// size that a window can have.
pub open spec fn all_usable(pads: Seq<PadModel>) -> bool {
    forall|i: int|
        0 <= i < pads.len() ==> {
            &&& (#[trigger] pads[i]).matcher matches Some(rule) ==> is_sound(rule)
            &&& is_possible(pads[i].width)
            &&& is_possible(pads[i].height)
        }
}

proof fn compiled_patterns_are_sound(
    table: EntriesModel,
    keys: Seq<Seq<char>>,
    field: Seq<char>,
    rule: Seq<char>,
)
    ensures
        patterns_of(table, keys, field, rule) matches Ok(patterns) ==> !lists::any(
            patterns,
            faulty(),
        ),
{
    if let Ok(patterns) = collected(table, keys, invalid(field, in_rule(rule)), Seq::empty()) {
        lists::find_is_exact(patterns, faulty());
    }
}

proof fn read_rules_are_sound(table: EntriesModel, section: Seq<char>, name: Seq<char>)
    ensures
        rule_of(table, section, name) matches Ok(rule) ==> is_positive(rule) ==> is_sound(rule),
{
    let id = rule_id(section, name);
    compiled_patterns_are_sound(table, seq!["app-id"@, "app_id"@], "app-id"@, id);
    compiled_patterns_are_sound(table, seq!["title"@], "title"@, id);
    compiled_patterns_are_sound(
        table,
        seq!["exclude-app-id"@, "exclude_app_id"@, "not-app-id"@, "not_app_id"@],
        "exclude-app-id"@,
        id,
    );
    compiled_patterns_are_sound(
        table,
        seq!["exclude-title"@, "exclude_title"@, "not-title"@, "not_title"@],
        "exclude-title"@,
        id,
    );
}

proof fn read_sections_are_sound(
    entries: EntriesModel,
    section: Seq<char>,
    found: Seq<RuleModel>,
)
    requires
        all_sound(found),
    ensures
        rules_from(entries, section, found) matches Ok(rules) ==> all_sound(rules),
    decreases entries.len(),
{
    if entries.len() > 0 {
        match entries[0].1.content {
            ContentModel::Table(table) => {
                read_rules_are_sound(table, section, entries[0].0);
                if let Ok(rule) = rule_of(table, section, entries[0].0) {
                    let more = if is_positive(rule) {
                        found.push(rule)
                    } else {
                        found
                    };
                    read_sections_are_sound(entries.drop_first(), section, more);
                }
            },
            _ => {
                read_sections_are_sound(entries.drop_first(), section, found);
            },
        }
    }
}

proof fn read_pads_are_usable(entries: EntriesModel, found: Seq<PadModel>)
    requires
        all_usable(found),
    ensures
        pads_from(entries, found) matches Ok(pads) ==> all_usable(pads),
    decreases entries.len(),
{
    if entries.len() > 0 {
        match entries[0].1.content {
            ContentModel::Table(table) => {
                read_rules_are_sound(table, "scratchpad"@, entries[0].0);
                if let Ok(pad) = pad_of(table, entries[0].0) {
                    read_pads_are_usable(entries.drop_first(), found.push(pad));
                }
            },
            _ => {
                read_pads_are_usable(entries.drop_first(), found);
            },
        }
    }
}

proof fn the_default_names_are_not_blank()
    ensures
        !blank()(DEFAULT_STAGE_WORKSPACE@),
        !blank()(DEFAULT_SCRATCHPAD_WORKSPACE@),
{
    reveal_strlit("stage");
    reveal_strlit("scratchpad");
}

/// In every configuration that is read, the two parking areas have a workspace
/// of their own, whose name is not blank, every rule narrows and has valid
/// patterns, and every scratchpad has a size that a window can have.
pub proof fn configurations_are_sound(content: Seq<char>)
    ensures
        config_in(content) matches Ok(config) ==> {
            &&& config.stage_workspace != config.scratchpad_workspace
            &&& !blank()(config.stage_workspace)
            &&& !blank()(config.scratchpad_workspace)
            &&& all_sound(config.sticky_rules)
            &&& all_sound(config.stage_rules)
            &&& all_usable(config.scratchpads)
        },
{
    the_default_names_are_not_blank();
    if let Ok(table) = toml_document(content) {
        if let Some(value) = entry(table, "sticky"@) {
            if let ContentModel::Table(entries) = value.content {
                read_sections_are_sound(entries, "sticky"@, Seq::empty());
            }
        }
        if let Some(value) = entry(table, "stage"@) {
            if let ContentModel::Table(entries) = value.content {
                read_sections_are_sound(entries, "stage"@, Seq::empty());
            }
        }
        if let Some(value) = entry(table, "scratchpad"@) {
            if let ContentModel::Table(entries) = value.content {
                read_pads_are_usable(entries, Seq::empty());
            }
        }
    }
}

/// Adding stage rules never changes what happens to a window that a sticky rule
/// matches.
pub proof fn sticky_rules_come_first(
    config: ConfigModel,
    stage_rules: Seq<RuleModel>,
    window: FactsModel,
)
    requires
        lists::any(config.sticky_rules, matched_by(window)),
    ensures
        match_of(ConfigModel { stage_rules, ..config }, window) == match_of(config, window),
        match_of(config, window) is Some,
        match_of(config, window)->0.action == WindowAction::Sticky,
{
    lists::find_is_exact(config.sticky_rules, matched_by(window));
}

/// An exclusion wins: a window that one of them matches is not matched by the
/// rule, whatever else the rule asks for.
pub proof fn exclusions_win(rule: RuleModel, window: FactsModel)
    requires
        hits(rule.exclude_app_id, window.app_id) || hits(rule.exclude_title, window.title),
    ensures
        !rule_matches(rule, window),
{
}

/// A way to follow is read back from the name it is written as.
pub proof fn follow_names_are_read_back(follow: StickyFollow, shown: Seq<char>, key: Seq<char>)
    ensures
        follow_in(
            SettingModel { shown, content: ContentModel::Text(follow_name(follow)) },
            key,
        ) == Ok::<StickyFollow, Chain>(follow),
{
    reveal_strlit("focused");
    reveal_strlit("own-output");
    assert("focused"@.len() != "own-output"@.len());
}

} // verus!
