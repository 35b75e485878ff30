//! Selector commands.
use nsticky::error::Error;
use nsticky::menu::{resolve_selector, selector_candidates, MenuCommand, MenuSpec, Selector};

fn parse(cmd: &str) -> Result<MenuCommand, Error> {
    MenuSpec::CommandLine(cmd.to_string()).parse()
}

#[test]
fn test_selector_prefers_the_environment_then_the_config() {
    let env = MenuSpec::CommandLine("rofi -dmenu".to_string());
    let config = MenuSpec::CommandLine("fuzzel --dmenu".to_string());

    assert_eq!(
        resolve_selector(Some(config.clone()), Some(env.clone()), true, |_| false),
        Selector::Command(env)
    );
    assert_eq!(
        resolve_selector(Some(config.clone()), None, true, |_| false),
        Selector::Command(config)
    );
}

#[test]
fn test_selector_falls_back_to_the_terminal_prompt_without_a_tty() {
    assert_eq!(
        resolve_selector(None, None, true, |program| program == "rofi"),
        Selector::Terminal
    );
}

#[test]
fn test_selector_is_discovered_when_there_is_no_terminal() {
    let selector = resolve_selector(None, None, false, |program| program == "fuzzel");
    match selector {
        Selector::Command(spec) => {
            assert_eq!(spec.describe(), "fuzzel --dmenu --prompt 'Restore Window:'");
        }
        other => panic!("expected a discovered selector, got {other:?}"),
    }
}

#[test]
fn test_selector_candidates_are_tried_in_order() {
    let first = resolve_selector(None, None, false, |_| true);
    match first {
        Selector::Command(spec) => {
            assert_eq!(spec.parse().unwrap().program(), "vicinae");
        }
        other => panic!("expected a discovered selector, got {other:?}"),
    }
}

#[test]
fn test_selector_is_unavailable_without_a_terminal_or_a_candidate() {
    assert_eq!(
        resolve_selector(None, None, false, |_| false),
        Selector::Unavailable
    );
}

#[test]
fn test_spec_describe_shows_the_original_form() {
    let command = MenuSpec::CommandLine("rofi -dmenu -p 'Pick'".to_string());
    assert_eq!(command.describe(), "rofi -dmenu -p 'Pick'");

    let args = MenuSpec::Args(vec!["rofi".into(), "pick".into()]);
    assert_eq!(args.describe(), "rofi pick");
}

#[test]
fn test_plain_command() {
    let menu = parse("vicinae dmenu").unwrap();
    assert_eq!(menu.program(), "vicinae");
    assert_eq!(menu.args(), ["dmenu"]);
}

#[test]
fn test_program_without_args() {
    let menu = parse("rofi").unwrap();
    assert_eq!(menu.program(), "rofi");
    assert!(menu.args().is_empty());
}

#[test]
fn test_single_quoted_argument() {
    let menu = parse("vicinae dmenu --placeholder 'Restore Window:'").unwrap();
    assert_eq!(menu.program(), "vicinae");
    assert_eq!(menu.args(), ["dmenu", "--placeholder", "Restore Window:"]);
}

#[test]
fn test_double_quoted_argument() {
    let menu = parse(r#"rofi -dmenu -p "Restore Window:""#).unwrap();
    assert_eq!(menu.program(), "rofi");
    assert_eq!(menu.args(), ["-dmenu", "-p", "Restore Window:"]);
}

#[test]
fn test_backslash_escaped_space() {
    let menu = parse(r"fuzzel --dmenu --prompt Restore\ Window:").unwrap();
    assert_eq!(menu.program(), "fuzzel");
    assert_eq!(menu.args(), ["--dmenu", "--prompt", "Restore Window:"]);
}

#[test]
fn test_backslash_escaped_quote() {
    let menu = parse(r#"wofi --show dmenu -p "Say \"hi\"""#).unwrap();
    assert_eq!(menu.program(), "wofi");
    assert_eq!(menu.args(), ["--show", "dmenu", "-p", "Say \"hi\""]);
}

#[test]
fn test_leading_and_trailing_whitespace() {
    let menu = parse("   rofi   -dmenu   ").unwrap();
    assert_eq!(menu.program(), "rofi");
    assert_eq!(menu.args(), ["-dmenu"]);
}

#[test]
fn test_empty_command_is_an_error() {
    let err = parse("   ").unwrap_err();
    assert!(err.message().contains("empty"), "unexpected error: {err:?}");
}

#[test]
fn test_invalid_quoting_is_an_error() {
    let err = parse("rofi -p 'unterminated").unwrap_err();
    let msg = err.render();
    assert!(
        msg.contains("invalid menu command syntax"),
        "unexpected error: {msg}"
    );
}

#[test]
fn test_args_spec_is_used_verbatim() {
    let spec = MenuSpec::Args(vec![
        "vicinae".to_string(),
        "dmenu".to_string(),
        "--placeholder".to_string(),
        "Restore Window:".to_string(),
    ]);
    let menu = spec.parse().unwrap();
    assert_eq!(menu.program(), "vicinae");
    assert_eq!(menu.args(), ["dmenu", "--placeholder", "Restore Window:"]);
}

#[test]
fn test_empty_args_spec_is_an_error() {
    let err = MenuSpec::Args(Vec::new()).parse().unwrap_err();
    assert!(err.message().contains("empty"), "unexpected error: {err:?}");
}

#[test]
fn test_describe_lists_program_and_arguments() {
    let menu = parse("vicinae dmenu --placeholder 'Restore Window:'").unwrap();
    let described = menu.describe();
    assert!(
        described.contains("command:\n    vicinae dmenu"),
        "{described}"
    );
    assert!(described.contains("program:\n    vicinae"), "{described}");
    assert!(
        described.contains(r#"["dmenu", "--placeholder", "Restore Window:"]"#),
        "{described}"
    );
}

#[test]
fn test_shell_metacharacters_are_not_split() {
    let menu = parse("rofi -dmenu -p 'a;b|c'").unwrap();
    assert_eq!(menu.program(), "rofi");
    assert_eq!(menu.args(), ["-dmenu", "-p", "a;b|c"]);
}

#[test]
fn test_empty_program_name_is_reported() {
    // `''` is a valid empty shell word, so the check, not the splitter,
    // reports the error.
    let err = MenuSpec::CommandLine("'' dmenu".to_string())
        .parse()
        .unwrap_err();
    assert!(
        err.message().contains("empty program name"),
        "unexpected error: {err:?}"
    );

    let err = MenuSpec::Args(vec![String::new(), "dmenu".to_string()])
        .parse()
        .unwrap_err();
    let msg = err.render();
    assert!(
        msg.contains("empty program name"),
        "unexpected error: {msg}"
    );
    assert!(msg.contains("dmenu"), "the origin must be shown: {msg}");
}

#[test]
fn test_quoted_empty_argument_is_kept() {
    let menu = parse("rofi -dmenu -p ''").unwrap();
    assert_eq!(menu.program(), "rofi");
    assert_eq!(menu.args(), ["-dmenu", "-p", ""]);
}

#[test]
fn test_args_spec_is_not_split_at_all() {
    // Array elements are argv as written: spaces never split one.
    let spec = MenuSpec::Args(vec!["rofi -dmenu -p 'Pick'".to_string()]);
    let menu = spec.parse().unwrap();
    assert_eq!(menu.program(), "rofi -dmenu -p 'Pick'");
    assert!(menu.args().is_empty());
}

#[test]
fn test_environment_value_goes_through_the_same_parser() {
    assert_eq!(MenuSpec::from_value(None), None);
    assert_eq!(MenuSpec::from_value(Some("   ".to_string())), None);

    let spec = MenuSpec::from_value(Some(
        "vicinae dmenu --placeholder 'Restore Window:'".to_string(),
    ))
    .expect("set and non-blank");
    assert_eq!(
        spec,
        MenuSpec::CommandLine("vicinae dmenu --placeholder 'Restore Window:'".to_string())
    );

    let menu = spec.parse().unwrap();
    assert_eq!(menu.program(), "vicinae");
    assert_eq!(menu.args(), ["dmenu", "--placeholder", "Restore Window:"]);
}

#[test]
fn test_launch_missing_program_reports_command_and_error() {
    let menu = parse("nsticky-no-such-selector --dmenu").unwrap();
    let msg = menu.launch_error("No such file or directory (os error 2)").render();
    assert_eq!(
        msg,
        "Failed to launch menu:\n\ncommand:\n    nsticky-no-such-selector --dmenu\n\nprogram:\n    nsticky-no-such-selector\n\narguments:\n    [\"--dmenu\"]\n\nerror:\n    No such file or directory (os error 2)"
    );
}

#[test]
fn a_selector_of_the_path_is_only_looked_for_without_a_terminal() {
    assert_eq!(
        resolve_selector(None, None, true, |_| panic!("no lookup")),
        Selector::Terminal
    );
}

#[test]
fn the_known_selectors_are_tried_in_order() {
    let programs: Vec<&str> = selector_candidates().iter().map(|argv| argv[0]).collect();
    assert_eq!(programs, ["vicinae", "rofi", "fuzzel", "wofi", "pantry"]);
}

#[test]
fn a_described_argv_is_read_back() {
    for words in [
        vec!["vicinae", "dmenu", "--placeholder", "Restore Window:"],
        vec!["rofi", "", "it's", "a\"b", "tab\there", "line\nfeed", "back\\slash", "#note", "$x"],
        vec!["it's\nhere", "'", "  "],
    ] {
        let argv = MenuSpec::Args(words.iter().map(|word| word.to_string()).collect());

        let command = argv.parse().unwrap();
        assert_eq!(command.program(), words[0]);
        assert_eq!(command.args(), &words[1..]);
        let again = MenuSpec::CommandLine(argv.describe()).parse().unwrap();

        assert_eq!(again, command);
    }
}

#[test]
fn programs_are_looked_for_only_without_a_selector_and_a_terminal() {
    let never = |program: &str| -> bool { panic!("asked for {program}") };
    let spec = || Some(MenuSpec::CommandLine("rofi -dmenu".to_string()));

    for terminal in [true, false] {
        assert_eq!(
            resolve_selector(spec(), None, terminal, never),
            Selector::Command(spec().unwrap())
        );
        assert_eq!(
            resolve_selector(None, spec(), terminal, never),
            Selector::Command(spec().unwrap())
        );
    }
    assert_eq!(resolve_selector(None, None, true, never), Selector::Terminal);
}
