//! External selector command for `stage restore`.
//!
//! Two configuration shapes converge on [`MenuCommand`]:
//!
//! - `menu = "vicinae dmenu --placeholder 'Restore Window:'"`, split with
//!   shell-style quoting rules;
//! - `menu = ["vicinae", "dmenu", "--placeholder", "Restore Window:"]`, argv as
//!   written, no parsing.
//!
//! `NSTICKY_MENU` goes through the same parser as the string form, and nothing
//! is ever handed to a shell.
use vstd::prelude::*;
use vstd::string::*;
use crate::error::{copy_texts, failure, in_context, Chain, Error};
use crate::text;

verus! {

/// Selector to use for `stage restore`.
#[derive(Debug, Clone, PartialEq, Eq)]
pub enum Selector {
    /// A configured or discovered selector.
    Command(MenuSpec),
    /// Nothing configured, but stdin is a terminal: the built-in prompt works.
    Terminal,
    /// Nothing configured and stdin is not a terminal, so no prompt can be
    /// shown and no selector was found.
    Unavailable,
}

/// Raw `menu` value as read from the configuration.
#[derive(Debug, PartialEq, Eq)]
pub enum MenuSpec {
    /// A command line that needs shell-style word splitting.
    CommandLine(String),
    /// An explicit argv, used as-is.
    Args(Vec<String>),
}

/// A selector command split into an executable and its arguments.
#[derive(Debug, Clone, PartialEq, Eq)]
pub struct MenuCommand {
    pub program: String,
    pub args: Vec<String>,
    /// Original spec, kept for error messages.
    pub origin: String,
}

/// [`MenuSpec`] as a mathematical value.
#[verifier::ext_equal]
pub enum SpecModel {
    CommandLine(Seq<char>),
    Args(Seq<Seq<char>>),
}

/// [`Selector`] as a mathematical value.
pub enum SelectorModel {
    Command(SpecModel),
    Terminal,
    Unavailable,
}

/// [`MenuCommand`] as a mathematical value.
#[verifier::ext_equal]
pub struct CommandModel {
    pub program: Seq<char>,
    pub args: Seq<Seq<char>>,
    pub origin: Seq<char>,
}

impl DeepView for MenuSpec {
    type V = SpecModel;

    open spec fn deep_view(&self) -> SpecModel {
        match self {
            MenuSpec::CommandLine(line) => SpecModel::CommandLine(line@),
            MenuSpec::Args(args) => SpecModel::Args(args.deep_view()),
        }
    }
}

impl DeepView for Selector {
    type V = SelectorModel;

    open spec fn deep_view(&self) -> SelectorModel {
        match self {
            Selector::Command(spec) => SelectorModel::Command(spec.deep_view()),
            Selector::Terminal => SelectorModel::Terminal,
            Selector::Unavailable => SelectorModel::Unavailable,
        }
    }
}

impl DeepView for MenuCommand {
    type V = CommandModel;

    open spec fn deep_view(&self) -> CommandModel {
        CommandModel {
            program: self.program@,
            args: self.args.deep_view(),
            origin: self.origin@,
        }
    }
}

/// The words `shell_words::split` finds in a command line, or the text of its
/// error.
pub uninterp spec fn shell_words_of(line: Seq<char>) -> Result<Seq<Seq<char>>, Seq<char>>;

/// The command line `shell_words::join` writes for some words.
pub uninterp spec fn shell_line_of(words: Seq<Seq<char>>) -> Seq<char>;

/// A result over texts as a mathematical value.
pub open spec fn texts_result(r: Result<Vec<String>, String>) -> Result<
    Seq<Seq<char>>,
    Seq<char>,
> {
    match r {
        Ok(words) => Ok(words.deep_view()),
        Err(message) => Err(message@),
    }
}

/// A line that was written for some words is split into these words.
pub open spec fn undoes_joining(line: Seq<char>, r: Result<Seq<Seq<char>>, Seq<char>>) -> bool {
    forall|words: Seq<Seq<char>>| line == #[trigger] shell_line_of(words) ==> r == Ok::<
        Seq<Seq<char>>,
        Seq<char>,
    >(words)
}

/// `shell_words::split`: the words of a command line under the quoting rules
/// of a POSIX shell, or what is wrong with its quotes. A line that
/// `shell_words::join` wrote is split into the words it was written for.
#[verifier::external_body]
fn split_line(line: &str) -> (r: Result<Vec<String>, String>)
    ensures
        texts_result(r) == shell_words_of(line@),
        undoes_joining(line@, texts_result(r)),
{
    shell_words::split(line).map_err(|e| e.to_string())
}

/// `shell_words::join`: the words in one line, each quoted where a shell needs
/// it.
#[verifier::external_body]
fn join_words(words: &Vec<String>) -> (r: String)
    ensures
        r@ == shell_line_of(words.deep_view()),
{
    shell_words::join(words)
}

/// Selectors tried in order when `stage restore` has no configured menu and no
/// terminal: the program, then its arguments.
pub open spec fn candidates() -> Seq<Seq<Seq<char>>> {
    seq![
        seq!["vicinae"@, "dmenu"@, "--placeholder"@, "Restore Window:"@],
        seq!["rofi"@, "-dmenu"@, "-p"@, "Restore Window:"@],
        seq!["fuzzel"@, "--dmenu"@, "--prompt"@, "Restore Window:"@],
        seq!["wofi"@, "--show"@, "dmenu"@, "--prompt"@, "Restore Window:"@],
        seq!["pantry"@, "-m"@],
    ]
}

pub proof fn candidates_have_programs(k: int)
    requires
        0 <= k < candidates().len(),
    ensures
        candidates()[k].len() > 0,
{
    assert(k == 0 || k == 1 || k == 2 || k == 3 || k == 4);
}

/// [`candidates`] as values.
pub fn selector_candidates() -> (r: Vec<Vec<&'static str>>)
    ensures
        r.deep_view() == candidates(),
{
    let vicinae: Vec<&'static str> = vec!["vicinae", "dmenu", "--placeholder", "Restore Window:"];
    let rofi: Vec<&'static str> = vec!["rofi", "-dmenu", "-p", "Restore Window:"];
    let fuzzel: Vec<&'static str> = vec!["fuzzel", "--dmenu", "--prompt", "Restore Window:"];
    let wofi: Vec<&'static str> = vec!["wofi", "--show", "dmenu", "--prompt", "Restore Window:"];
    let pantry: Vec<&'static str> = vec!["pantry", "-m"];
    let r = vec![vicinae, rofi, fuzzel, wofi, pantry];
    proof {
        assert(vicinae.deep_view() =~= candidates()[0]);
        assert(rofi.deep_view() =~= candidates()[1]);
        assert(fuzzel.deep_view() =~= candidates()[2]);
        assert(wofi.deep_view() =~= candidates()[3]);
        assert(pantry.deep_view() =~= candidates()[4]);
        assert(r.deep_view() =~= candidates());
    }
    r
}

/// `available` answered `found` when asked for this program.
pub open spec fn told<F: Fn(&str) -> bool>(available: F, program: Seq<char>, found: bool) -> bool {
    exists|name: &str| name@ == program && #[trigger] call_ensures(available, (name,), found)
}

/// Resolve the selector for `stage restore`.
///
/// `NSTICKY_MENU` wins over the `menu` config key. The `PATH` search only runs
/// when stdin is not a terminal, where the built-in prompt is useless: with a
/// terminal or a configured selector, `available` need not be callable and is
/// not called.
#[verifier::loop_isolation(false)]
pub fn resolve_selector<F: Fn(&str) -> bool>(
    config: Option<MenuSpec>,
    from_env: Option<MenuSpec>,
    stdin_is_terminal: bool,
    available: F,
) -> (r: Selector)
    requires
        from_env is None && config is None && !stdin_is_terminal ==> forall|program: &str|
            call_requires(available, (program,)),
    ensures
        from_env is Some ==> r == Selector::Command(from_env->0),
        from_env is None && config is Some ==> r == Selector::Command(config->0),
        from_env is None && config is None && stdin_is_terminal ==> r is Terminal,
        from_env is None && config is None && !stdin_is_terminal ==> match r.deep_view() {
            SelectorModel::Command(spec) => exists|k: int|
                0 <= k < candidates().len() && spec == SpecModel::Args(#[trigger] candidates()[k])
                    && told(available, candidates()[k][0], true) && forall|j: int|
                    0 <= j < k ==> told(available, (#[trigger] candidates()[j])[0], false),
            SelectorModel::Terminal => false,
            SelectorModel::Unavailable => forall|j: int|
                0 <= j < candidates().len() ==> told(
                    available,
                    (#[trigger] candidates()[j])[0],
                    false,
                ),
        },
{
    if let Some(spec) = from_env {
        return Selector::Command(spec);
    }
    if let Some(spec) = config {
        return Selector::Command(spec);
    }
    if stdin_is_terminal {
        return Selector::Terminal;
    }
    let all = selector_candidates();
    let mut k: usize = 0;
    while k < all.len()
        invariant
            k <= all@.len(),
            all.deep_view() == candidates(),
            forall|program: &str| call_requires(available, (program,)),
            forall|j: int|
                0 <= j < k ==> told(available, (#[trigger] candidates()[j])[0], false),
        decreases all.len() - k,
    {
        let argv = &all[k];
        assert(argv.deep_view() == candidates()[k as int]);
        assert(argv@.len() == candidates()[k as int].len());
        proof {
            candidates_have_programs(k as int);
        }
        let program: &str = argv[0];
        assert(argv.deep_view()[0] == program@);
        if available(program) {
            let args = owned(argv);
            assert(told(available, candidates()[k as int][0], true));
            return Selector::Command(MenuSpec::Args(args));
        }
        assert(told(available, candidates()[k as int][0], false));
        k = k + 1;
    }
    Selector::Unavailable
}

fn owned(texts: &Vec<&'static str>) -> (r: Vec<String>)
    ensures
        r.deep_view() == texts.deep_view(),
{
    let mut out: Vec<String> = Vec::new();
    let mut i: usize = 0;
    while i < texts.len()
        invariant
            i <= texts@.len(),
            out.deep_view() =~= texts.deep_view().take(i as int),
        decreases texts.len() - i,
    {
        let ghost before = out.deep_view();
        out.push(texts[i].to_owned());
        assert(out.deep_view() =~= before.push(texts.deep_view()[i as int]));
        i = i + 1;
    }
    assert(texts.deep_view().take(i as int) =~= texts.deep_view());
    out
}

impl Clone for MenuSpec {
    fn clone(&self) -> (r: Self)
        ensures
            r.deep_view() == self.deep_view(),
    {
        match self {
            MenuSpec::CommandLine(line) => MenuSpec::CommandLine(line.clone()),
            MenuSpec::Args(args) => MenuSpec::Args(copy_texts(args)),
        }
    }
}

/// What splitting a spec gives.
pub open spec fn parsed(spec: SpecModel) -> Result<CommandModel, Chain> {
    match spec {
        SpecModel::CommandLine(line) => match shell_words_of(line) {
            Ok(parts) => command_of(parts, line),
            Err(message) => Err(
                in_context(
                    "invalid menu command syntax: "@ + text::quoted_text(line),
                    failure(message),
                ),
            ),
        },
        SpecModel::Args(args) => command_of(args, shell_line_of(args)),
    }
}

/// The command made of a program and its arguments.
pub open spec fn command_of(parts: Seq<Seq<char>>, origin: Seq<char>) -> Result<
    CommandModel,
    Chain,
> {
    if parts.len() == 0 {
        Err(failure("menu command is empty"@))
    } else if parts[0].len() == 0 {
        Err(failure("menu command has an empty program name: "@ + text::quoted_text(origin)))
    } else {
        Ok(CommandModel { program: parts[0], args: parts.skip(1), origin })
    }
}

/// An argv is used as it is: its first word is the program, the others are the
/// arguments. It is a command unless there is no program.
pub proof fn an_argv_is_used_as_it_is(args: Seq<Seq<char>>)
    ensures
        parsed(SpecModel::Args(args)) is Ok <==> args.len() > 0 && args[0].len() > 0,
        parsed(SpecModel::Args(args)) matches Ok(command) ==> {
            &&& command.program == args[0]
            &&& command.args == args.subrange(1, args.len() as int)
            &&& command.origin == described(SpecModel::Args(args))
        },
{
}

/// A command or what is wrong with it, as a mathematical value.
pub open spec fn command_result(r: Result<MenuCommand, Error>) -> Result<CommandModel, Chain> {
    match r {
        Ok(command) => Ok(command.deep_view()),
        Err(e) => Err(e.deep_view()),
    }
}

/// A menu as it was written.
pub open spec fn described(spec: SpecModel) -> Seq<char> {
    match spec {
        SpecModel::CommandLine(line) => line,
        SpecModel::Args(args) => shell_line_of(args),
    }
}

impl MenuSpec {
    /// A raw `NSTICKY_MENU` value: blank counts as unset.
    pub fn from_value(value: Option<String>) -> (r: Option<Self>)
        ensures
            r.deep_view() == (match value.deep_view() {
                Some(line) => if text::trimmed(line).len() == 0 {
                    None
                } else {
                    Some(SpecModel::CommandLine(line))
                },
                None => None,
            }),
    {
        match value {
            Some(line) => {
                if text::trim(line.as_str()).is_empty() {
                    None
                } else {
                    Some(MenuSpec::CommandLine(line))
                }
            },
            None => None,
        }
    }

    /// The spec as written, for display in `config check`.
    pub fn describe(&self) -> (r: String)
        ensures
            r@ == described(self.deep_view()),
    {
        match self {
            MenuSpec::CommandLine(line) => line.clone(),
            MenuSpec::Args(args) => join_words(args),
        }
    }

    /// Split the spec into a program and its arguments. The description of an
    /// argv, taken as a command line, is the command of that argv.
    pub fn parse(&self) -> (r: Result<MenuCommand, Error>)
        ensures
            command_result(r) == parsed(self.deep_view()),
            forall|args: Seq<Seq<char>>|
                self.deep_view() == SpecModel::CommandLine(
                    #[trigger] described(SpecModel::Args(args)),
                ) ==> command_result(r) == parsed(SpecModel::Args(args)),
    {
        match self {
            MenuSpec::CommandLine(line) => match split_line(line.as_str()) {
                Ok(parts) => MenuCommand::from_parts(parts, line.clone()),
                Err(message) => {
                    let mut doing = "invalid menu command syntax: ".to_owned();
                    doing.append(text::quoted(line.as_str()).as_str());
                    Err(Error::new(message.as_str()).context(doing.as_str()))
                },
            },
            MenuSpec::Args(args) => {
                let origin = join_words(args);
                MenuCommand::from_parts(copy_texts(args), origin)
            },
        }
    }
}

/// The multi-line description of a command.
pub open spec fn description(command: CommandModel) -> Seq<char> {
    "command:\n    "@ + command.origin + "\n\nprogram:\n    "@ + command.program
        + "\n\narguments:\n    "@ + text::quoted_list(command.args)
}

impl MenuCommand {
    /// The command made of these words.
    pub fn from_parts(parts: Vec<String>, origin: String) -> (r: Result<Self, Error>)
        ensures
            command_result(r) == command_of(parts.deep_view(), origin@),
    {
        if parts.len() == 0 {
            return Err(Error::new("menu command is empty"));
        }
        let mut args = parts;
        let program = args.remove(0);
        assert(program@ == parts.deep_view()[0]);
        if program.as_str().is_empty() {
            let mut message = "menu command has an empty program name: ".to_owned();
            message.append(text::quoted(origin.as_str()).as_str());
            return Err(Error::new(message.as_str()));
        }
        assert(args.deep_view() =~= parts.deep_view().skip(1));
        Ok(MenuCommand { program, args, origin })
    }

    pub fn program(&self) -> (r: &str)
        ensures
            r@ == self.deep_view().program,
    {
        self.program.as_str()
    }

    pub fn args(&self) -> (r: &[String])
        ensures
            r.deep_view() == self.deep_view().args,
    {
        let r = self.args.as_slice();
        assert(r.deep_view() =~= self.args.deep_view());
        r
    }

    /// Multi-line description used in launch errors.
    pub fn describe(&self) -> (r: String)
        ensures
            r@ == description(self.deep_view()),
    {
        let mut out = "command:\n    ".to_owned();
        out.append(self.origin.as_str());
        out.append("\n\nprogram:\n    ");
        out.append(self.program.as_str());
        out.append("\n\narguments:\n    ");
        let args = self.args();
        out.append(text::list(args).as_str());
        out
    }

    /// What is reported when the selector could not be started.
    pub fn launch_error(&self, cause: &str) -> (r: Error)
        ensures
            r.deep_view() == failure(
                "Failed to launch menu:\n\n"@ + description(self.deep_view())
                    + "\n\nerror:\n    "@ + cause@,
            ),
    {
        let mut message = "Failed to launch menu:\n\n".to_owned();
        message.append(self.describe().as_str());
        message.append("\n\nerror:\n    ");
        message.append(cause);
        Error::new(message.as_str())
    }
}

} // verus!
