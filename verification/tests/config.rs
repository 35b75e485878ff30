//! The configuration, from TOML documents.
use nsticky::config::{
    Config, Percentage, RuleSummary, Size, StickyFollow, WindowAction, WindowFacts,
};
use nsticky::niri;
use nsticky::error::Error;
use nsticky::menu::MenuSpec;

/// Window facts for a tiled window with this app id and title.
fn facts<'a>(app_id: Option<&'a str>, title: Option<&'a str>) -> WindowFacts<'a> {
    WindowFacts {
        app_id,
        title,
        floating: false,
    }
}

/// Sticky-match predicate for the rule tests.
fn matched(config: &Config, app_id: &Option<String>, title: &Option<String>) -> bool {
    config
        .match_rule(&facts(app_id.as_deref(), title.as_deref()))
        .map(|matched| matched.action)
        == Some(WindowAction::Sticky)
}

fn config_from_toml(content: &str) -> Config {
    Config::parse_document(content).unwrap_or_else(|e| panic!("config failed to load: {}", e.render()))
}

fn percent(p: f64) -> Size {
    Size::Percent(Percentage { bits: p.to_bits(), shown: p.to_string() })
}

fn app(id: &str) -> Option<String> {
    Some(id.to_string())
}

fn title(t: &str) -> Option<String> {
    Some(t.to_string())
}

const DISCORD_CONFIG: &str = r#"
[sticky.discord]
app-id = [
'^[Dd]iscord$',
'^[Vv]encord$',
'^[Vv]esktop$'
]

exclude-title = [
'^\(\d+\) [Dd]iscord \|.*$',
'^[Dd]iscord$|^[Vv]esktop$|^[Vv]encord$',
'^[Cc]anal$|^[Cc]hannel$|^[Dd]irectos$|^[Ss]treams?$'
]
"#;

#[test]
fn test_match_app_id_only() {
    let config = config_from_toml(
        r#"
[sticky.firefox]
app_id = "firefox"
"#,
    );
    assert!(matched(&config, &Some("firefox".to_string()), &None));
    assert!(!matched(&config, &Some("chrome".to_string()), &None));
}

#[test]
fn test_match_app_id_string_and_array() {
    let config = config_from_toml(
        r#"
[sticky.firefox]
app-id = "firefox"

[sticky.players]
app-id = ["Spotify", "Amberol"]
"#,
    );
    assert!(matched(&config, &app("firefox"), &None));
    assert!(matched(&config, &app("Spotify"), &None));
    assert!(matched(&config, &app("Amberol"), &None));
    assert!(!matched(&config, &app("mpv"), &None));
}

#[test]
fn test_match_title_only() {
    let config = config_from_toml(
        r#"
[sticky.gmail]
title = "Gmail"
"#,
    );
    assert!(matched(&config, &None, &Some("Inbox - Gmail".to_string())));
    assert!(!matched(&config, &None, &Some("YouTube".to_string())));
    // A rule with a title but no app-id matches any application.
    assert!(matched(&config, &app("firefox"), &title("Gmail")));
    // A missing title cannot match a configured title pattern.
    assert!(!matched(&config, &app("firefox"), &None));
}

#[test]
fn test_match_title_array() {
    let config = config_from_toml(
        r#"
[sticky.docs]
title = ["^foo$", "^bar$"]
"#,
    );
    assert!(matched(&config, &app("any"), &title("foo")));
    assert!(matched(&config, &app("any"), &title("bar")));
    assert!(!matched(&config, &app("any"), &title("baz")));
}

#[test]
fn test_match_both_and() {
    let config = config_from_toml(
        r#"
[sticky.firefox-gmail]
app_id = "firefox"
title = "Gmail"
"#,
    );
    assert!(matched(
        &config,
        &Some("firefox".to_string()),
        &Some("Inbox - Gmail".to_string())
    ));
    assert!(!matched(
        &config,
        &Some("firefox".to_string()),
        &Some("YouTube".to_string())
    ));
    assert!(!matched(
        &config,
        &Some("chrome".to_string()),
        &Some("Gmail".to_string())
    ));
}

#[test]
fn test_multiple_rules() {
    let config = config_from_toml(
        r#"
[sticky.firefox]
app_id = "firefox"

[sticky.chromium]
app_id = "chromium"
"#,
    );
    assert!(matched(&config, &Some("firefox".to_string()), &None));
    assert!(matched(&config, &Some("chromium".to_string()), &None));
    assert!(!matched(&config, &Some("chrome".to_string()), &None));
}

#[test]
fn test_no_rules() {
    let config = config_from_toml("");
    assert!(!matched(
        &config,
        &Some("firefox".to_string()),
        &Some("test".to_string())
    ));
}

#[test]
fn test_empty_file_returns_default() {
    let config = config_from_toml("");
    assert!(!matched(
        &config,
        &Some("firefox".to_string()),
        &Some("test".to_string())
    ));
}

#[test]
fn test_unknown_fields_are_ignored_gracefully() {
    let config = config_from_toml(
        r#"
[sticky.firefox]
app_id = "firefox"
unknown_field = "should_be_ignored"

[unrelated_table]
some_key = "also_ignored"
"#,
    );
    assert!(matched(&config, &Some("firefox".to_string()), &None));
    assert!(!matched(&config, &Some("chrome".to_string()), &None));
}

#[test]
fn test_invalid_regex() {
    let result = Config::parse_document(
        r#"
[sticky.test]
app_id = "[invalid"
"#,
    );
    assert!(result.is_err());
}

#[test]
fn test_rule_without_trailing_title_matches_any_title() {
    let config = config_from_toml(
        r#"
[sticky.pavucontrol]
app-id = "pavucontrol"
"#,
    );
    assert!(matched(
        &config,
        &app("pavucontrol"),
        &title("Volume Control")
    ));
    assert!(matched(&config, &app("pavucontrol"), &None));
    assert!(!matched(&config, &app("firefox"), &title("Volume Control")));
}

#[test]
fn test_exclude_title() {
    let config = config_from_toml(
        r#"
[sticky.firefox]
app-id = "firefox"
exclude-title = "Gmail"
"#,
    );
    assert!(matched(&config, &app("firefox"), &title("YouTube")));
    assert!(!matched(&config, &app("firefox"), &title("Inbox - Gmail")));
}

#[test]
fn test_multiple_exclude_title_patterns() {
    let config = config_from_toml(
        r#"
[sticky.firefox]
app-id = "firefox"
exclude-title = ["^foo$", "^bar$"]
"#,
    );
    assert!(matched(&config, &app("firefox"), &title("baz")));
    // Both exclusions apply: NOT foo AND NOT bar.
    assert!(!matched(&config, &app("firefox"), &title("foo")));
    assert!(!matched(&config, &app("firefox"), &title("bar")));
}

#[test]
fn test_exclude_app_id() {
    let config = config_from_toml(
        r#"
[sticky.terminals]
app-id = ["kitty", "foot"]
exclude-app-id = "kitty"
"#,
    );
    assert!(matched(&config, &app("foot"), &None));
    assert!(!matched(&config, &app("kitty"), &None));
}

#[test]
fn test_multiple_exclude_app_id_patterns() {
    let config = config_from_toml(
        r#"
[sticky.terminals]
app-id = ["kitty", "foot", "alacritty"]
exclude-app-id = ["kitty", "foot"]
"#,
    );
    assert!(matched(&config, &app("alacritty"), &None));
    assert!(!matched(&config, &app("kitty"), &None));
    assert!(!matched(&config, &app("foot"), &None));
}

#[test]
fn test_exclusion_does_not_match_missing_attribute() {
    let config = config_from_toml(
        r#"
[sticky.window]
app-id = ".*"
exclude-app-id = "firefox"
exclude-title = "Gmail"
"#,
    );
    // A missing title must not trigger the title exclusion.
    assert!(matched(&config, &app("chromium"), &None));
    assert!(!matched(&config, &app("firefox"), &None));
    assert!(!matched(&config, &app("chromium"), &title("Gmail")));
    // A missing app-id cannot satisfy the positive app-id constraint either.
    assert!(!matched(&config, &None, &title("Home")));
}

#[test]
fn test_positive_and_negative_combined() {
    let config = config_from_toml(
        r#"
[sticky.combo]
app-id = ["^firefox$", "^chromium$"]
title = ["Gmail", "Docs"]
exclude-app-id = "^chromium$"
exclude-title = ["^Spam"]
"#,
    );
    assert!(matched(&config, &app("firefox"), &title("Inbox - Gmail")));
    assert!(!matched(&config, &app("chromium"), &title("Gmail")));
    assert!(!matched(&config, &app("firefox"), &title("Spam folder")));
    assert!(!matched(&config, &app("chrome"), &title("Gmail")));
}

#[test]
fn test_case_insensitive_regex() {
    let config = config_from_toml(
        r#"
[sticky.discord]
title = '(?i)^discord$'
"#,
    );
    for value in ["Discord", "DISCORD", "discord", "DiScOrD"] {
        assert!(matched(&config, &None, &title(value)), "{value}");
    }
}

#[test]
fn test_missing_app_id_against_rule_with_app_id() {
    let config = config_from_toml(
        r#"
[sticky.firefox]
app-id = "firefox"
"#,
    );
    assert!(!matched(&config, &None, &title("anything")));
}

#[test]
fn test_underscore_aliases() {
    let config = config_from_toml(
        r#"
[sticky.legacy]
app_id = "firefox"
exclude_title = "Gmail"
exclude_app_id = "firefox-esr"
"#,
    );
    assert!(matched(&config, &app("firefox"), &title("YouTube")));
    assert!(!matched(&config, &app("firefox"), &title("Gmail")));
    assert!(!matched(&config, &app("firefox-esr"), &title("YouTube")));
}

#[test]
fn test_not_aliases_are_accepted() {
    let config = config_from_toml(
        r#"
[sticky.firefox]
app-id = "firefox"
not-title = "Gmail"
not-app-id = "firefox-esr"
"#,
    );
    assert!(matched(&config, &app("firefox"), &title("YouTube")));
    assert!(!matched(&config, &app("firefox"), &title("Gmail")));
    assert!(!matched(&config, &app("firefox-esr"), &title("YouTube")));
}

#[test]
fn test_aliases_are_combined_not_overwritten() {
    let config = config_from_toml(
        r#"
[sticky.mixed]
app-id = "firefox"
app_id = "chromium"
exclude-title = ["Gmail"]
exclude_title = ["Docs"]
not-title = "YouTube"
"#,
    );
    assert!(matched(&config, &app("firefox"), &title("Home")));
    assert!(matched(&config, &app("chromium"), &title("Home")));
    assert!(!matched(&config, &app("firefox"), &title("Gmail")));
    assert!(!matched(&config, &app("firefox"), &title("Docs")));
    assert!(!matched(&config, &app("firefox"), &title("YouTube")));
}

#[test]
fn test_hyphen_and_underscore_names_are_equivalent() {
    let hyphenated = r#"
[sticky.x]
app-id = ["kitty"]
exclude-title = ["^Gmail$"]
exclude-app-id = ["^foot$"]
"#;
    let underscored = r#"
[sticky.x]
app_id = ["kitty"]
exclude_title = ["^Gmail$"]
exclude_app_id = ["^foot$"]
"#;
    let a = config_from_toml(hyphenated);
    let b = config_from_toml(underscored);
    for (id, t) in [
        (Some("kitty"), Some("Terminal")),
        (Some("foot"), Some("Terminal")),
        (Some("kitty"), Some("Gmail")),
        (Some("x"), None),
    ] {
        assert_eq!(
            matched(&a, &id.map(String::from), &t.map(String::from)),
            matched(&b, &id.map(String::from), &t.map(String::from)),
        );
    }
}

#[test]
fn test_discord_rule_matrix() {
    let config = config_from_toml(DISCORD_CONFIG);

    let sticky = [
        ("Discord", "General"),
        ("Discord", "Gaming"),
        ("Vencord", "General"),
        ("Vesktop", "Gaming"),
    ];
    for (id, t) in sticky {
        assert!(matched(&config, &app(id), &title(t)), "{id} / {t}");
    }

    let not_sticky = [
        ("Discord", "(3) Discord | General"),
        ("Discord", "Discord"),
        ("Discord", "Vesktop"),
        ("Discord", "Vencord"),
        ("Discord", "Canal"),
        ("Discord", "Channel"),
        ("Discord", "Directos"),
        ("Discord", "Stream"),
        ("Discord", "Streams"),
        ("Firefox", "General"),
    ];
    for (id, t) in not_sticky {
        assert!(!matched(&config, &app(id), &title(t)), "{id} / {t}");
    }
}

#[test]
fn test_invalid_exclude_regex_reports_rule_field_and_pattern() {
    let result = Config::parse_document(
        r#"
[sticky.discord]
app-id = "discord"
exclude-title = ["^(Discord$"]
"#,
    );
    let err = result.map(|_| ()).unwrap_err();
    let msg = err.render();
    assert!(
        msg.contains("Invalid exclude-title regex in sticky.discord: \"^(Discord$\""),
        "unexpected error: {msg}"
    );
    assert!(msg.contains("regex parse error"), "unexpected error: {msg}");
}

#[test]
fn test_invalid_title_regex_reports_field() {
    let result = Config::parse_document(
        r#"
[sticky.discord]
title = "["
"#,
    );
    let msg = result.map(|_| ()).unwrap_err().render();
    assert!(
        msg.contains("Invalid title regex in sticky.discord: \"[\""),
        "unexpected error: {msg}"
    );
}

#[test]
fn test_wrong_value_type_is_reported() {
    for value in ["42", "true", "{ name = \"x\" }"] {
        let toml = format!("[sticky.discord]\napp-id = {value}\n");
        let msg = Config::parse_document(&toml).unwrap_err().render();
        assert!(
            msg.contains("Invalid app-id value in sticky.discord"),
            "{value}: unexpected error: {msg}"
        );
        assert!(
            msg.contains("expected a string or an array of strings"),
            "{value}: unexpected error: {msg}"
        );
    }
}

#[test]
fn test_array_with_non_string_entry_is_reported() {
    let result = Config::parse_document(
        r#"
[sticky.discord]
title = ["ok", 3]
"#,
    );
    let msg = result.map(|_| ()).unwrap_err().render();
    assert!(
        msg.contains("Invalid title value in sticky.discord"),
        "unexpected error: {msg}"
    );
}

#[test]
fn test_rule_without_positive_constraint_is_ignored() {
    let config = config_from_toml(
        r#"
[sticky.only-exclusions]
exclude-title = "Gmail"

[sticky.firefox]
app-id = "firefox"
"#,
    );
    // An exclusion-only rule matches nothing...
    assert!(!matched(&config, &app("chrome"), &title("Home")));
    // ...and never vetoes the rules that do match.
    assert!(matched(&config, &app("firefox"), &title("Gmail")));
}

#[test]
fn test_menu_string_is_parsed_with_quoting() {
    let config = config_from_toml(
        r#"
menu = "vicinae dmenu --placeholder 'Restore Window:'"
"#,
    );
    let menu = config.menu().expect("menu configured").parse().unwrap();
    assert_eq!(menu.program(), "vicinae");
    assert_eq!(menu.args(), ["dmenu", "--placeholder", "Restore Window:"]);
}

#[test]
fn test_menu_array_needs_no_shell_parsing() {
    let config = config_from_toml(
        r#"
menu = ["rofi", "-dmenu", "-p", "Restore Window:"]
"#,
    );
    let menu = config.menu().expect("menu configured").parse().unwrap();
    assert_eq!(menu.program(), "rofi");
    assert_eq!(menu.args(), ["-dmenu", "-p", "Restore Window:"]);
}

#[test]
fn test_menu_without_quoting_still_works() {
    for (value, program, args) in [
        ("rofi -dmenu", "rofi", vec!["-dmenu"]),
        ("fuzzel --dmenu", "fuzzel", vec!["--dmenu"]),
        ("wofi --show dmenu", "wofi", vec!["--show", "dmenu"]),
    ] {
        let config = config_from_toml(&format!("menu = \"{value}\"\n"));
        let menu = config.menu().expect("menu configured").parse().unwrap();
        assert_eq!(menu.program(), program);
        assert_eq!(menu.args(), args);
    }
}

#[test]
fn test_invalid_menu_value_type_is_reported() {
    let result = Config::parse_document("menu = 3\n");
    let msg = result.map(|_| ()).unwrap_err().render();
    assert!(
        msg.contains("Invalid menu value: expected a string or an array of strings"),
        "unexpected error: {msg}"
    );
}

#[test]
fn test_stage_workspace_defaults_to_stage() {
    assert_eq!(Config::default().stage_workspace(), "stage");
    assert_eq!(config_from_toml("").stage_workspace(), "stage");
}

#[test]
fn test_stage_workspace_is_configurable() {
    let config = config_from_toml("stage-workspace = \"parking\"\n");
    assert_eq!(config.stage_workspace(), "parking");
}

#[test]
fn test_stage_workspace_accepts_the_underscore_spelling() {
    let config = config_from_toml("stage_workspace = \"parking\"\n");
    assert_eq!(config.stage_workspace(), "parking");
}

#[test]
fn test_stage_workspace_is_released_by_default_and_can_be_kept() {
    assert!(
        !Config::default().stage_keep_workspace(),
        "the point of the stage is that it leaves no trace while empty"
    );
    assert!(config_from_toml("stage-keep-workspace = true\n").stage_keep_workspace());
    assert!(config_from_toml("stage_keep_workspace = true\n").stage_keep_workspace());
    assert!(!config_from_toml("stage-keep-workspace = false\n").stage_keep_workspace());
}

#[test]
fn test_invalid_stage_keep_workspace_is_reported() {
    let error = Config::parse_document("stage-keep-workspace = \"yes\"\n").unwrap_err();
    let message = error.render();
    assert!(
        message.contains("Invalid stage-keep-workspace value: expected a boolean, got \"yes\""),
        "{message}"
    );
}

#[test]
fn test_stage_workspace_rejects_empty_names() {
    let error = Config::parse_document("stage-workspace = \"  \"\n").unwrap_err();
    assert!(
        error.render().contains("must not be empty"),
        "{error:?}"
    );
}

#[test]
fn test_the_two_parking_areas_need_different_workspaces() {
    let toml = "stage-workspace = \"parking\"\nscratchpad-workspace = \"parking\"\n";
    let error = Config::parse_document(toml).unwrap_err();
    assert!(
        error.render().contains("each parking area needs a workspace of its own"),
        "{error:?}"
    );

    let config =
        Config::parse_document("stage-workspace = \"s\"\nscratchpad-workspace = \"p\"\n").unwrap();
    assert_eq!(config.stage_workspace(), "s");
    assert_eq!(config.scratchpad_workspace(), "p");
}

#[test]
fn test_workspace_keys_reject_conflicting_aliases() {
    for toml in [
        "stage-workspace = \"a\"\nstage_workspace = \"b\"\n",
        "scratchpad-workspace = \"a\"\nscratchpad_workspace = \"b\"\n",
    ] {
        let error = Config::parse_document(toml).unwrap_err();
        let message = error.render();
        assert!(
            message.contains("Conflicting")
                && message.contains("\"a\"")
                && message.contains("\"b\""),
            "{message}"
        );
    }
}

#[test]
fn test_stage_workspace_rejects_non_strings() {
    for value in ["3", "true", "{ name = \"x\" }"] {
        let toml = format!("stage-workspace = {value}\n");
        let message = Config::parse_document(&toml).unwrap_err().render();
        assert!(
            message.contains("Invalid stage-workspace value")
                && message.contains("expected a string"),
            "{value}: {message}"
        );
    }
}

#[test]
fn test_stage_rule_reports_the_stage_action() {
    let config = config_from_toml(
        r#"
[stage.games]
app-id = "steam"
"#,
    );

    assert_eq!(
        config
            .match_rule(&facts(Some("steam"), Some("Steam")))
            .map(|matched| matched.action),
        Some(WindowAction::Stage)
    );
    assert_eq!(
        config
            .match_rule(&facts(Some("firefox"), None))
            .map(|matched| matched.action),
        None
    );
    // A stage rule is not a sticky rule.
    assert!(!matched(&config, &app("steam"), &title("Steam")));
}

#[test]
fn test_sticky_rules_take_precedence_over_stage_rules() {
    let config = config_from_toml(
        r#"
[sticky.browser]
app-id = "firefox"

[stage.overlap]
app-id = "firefox"
"#,
    );

    assert_eq!(
        config
            .match_rule(&facts(Some("firefox"), None))
            .map(|matched| matched.action),
        Some(WindowAction::Sticky)
    );
}

#[test]
fn test_stage_rules_support_arrays_and_exclusions() {
    let config = config_from_toml(
        r#"
[stage.games]
app-id = ["steam", "lutris"]
exclude-title = "^Launcher$"
"#,
    );

    assert_eq!(
        config
            .match_rule(&facts(Some("lutris"), Some("Game")))
            .map(|matched| matched.action),
        Some(WindowAction::Stage)
    );
    assert_eq!(
        config
            .match_rule(&facts(Some("lutris"), Some("Launcher")))
            .map(|matched| matched.action),
        None
    );
    assert_eq!(
        config
            .match_rule(&facts(Some("firefox"), Some("Game")))
            .map(|matched| matched.action),
        None
    );
}

#[test]
fn test_stage_rule_without_positive_constraint_is_ignored() {
    let config = config_from_toml(
        r#"
[stage.only-exclusions]
exclude-title = "Gmail"
"#,
    );

    assert_eq!(
        config
            .match_rule(&facts(Some("anything"), Some("Home")))
            .map(|matched| matched.action),
        None
    );
}

#[test]
fn test_rule_output_pins_are_read_in_order() {
    let config = config_from_toml(
        r#"
[sticky.discord]
app-id = "discord"
output = ["DP-2", "DP-1"]
"#,
    );

    let matched = config
        .match_rule(&facts(Some("discord"), None))
        .expect("rule matches");
    assert_eq!(matched.outputs, vec!["DP-2", "DP-1"]);
    assert_eq!(config.rules()[0].1.outputs, vec!["DP-2", "DP-1"]);
}

#[test]
fn test_rule_output_accepts_a_single_name_and_the_plural_key() {
    let single = config_from_toml(
        r#"
[sticky.discord]
app-id = "discord"
output = "DP-1"
"#,
    );
    assert_eq!(
        single
            .match_rule(&facts(Some("discord"), None))
            .unwrap()
            .outputs,
        vec!["DP-1"]
    );

    let plural = config_from_toml(
        r#"
[sticky.discord]
app-id = "discord"
outputs = ["DP-1"]
"#,
    );
    assert_eq!(
        plural
            .match_rule(&facts(Some("discord"), None))
            .unwrap()
            .outputs,
        vec!["DP-1"]
    );
}

#[test]
fn test_conflicting_output_keys_are_reported() {
    let error = Config::parse_document(
        r#"
[sticky.discord]
app-id = "discord"
output = "DP-1"
outputs = ["DP-2"]
"#,
    )
    .unwrap_err();
    assert!(
        error.render().contains("Conflicting output lists in sticky.discord"),
        "{error:?}"
    );
}

#[test]
fn test_empty_output_names_are_reported() {
    let error = Config::parse_document(
        r#"
[sticky.discord]
app-id = "discord"
output = "  "
"#,
    )
    .unwrap_err();
    assert!(
        error.render().contains("output names must not be empty"),
        "{error:?}"
    );
}

#[test]
fn test_sticky_follow_defaults_to_focused_and_is_configurable() {
    assert_eq!(
        Config::default().sticky_follow(),
        StickyFollow::Focused,
        "upstream behaviour stays the default"
    );
    assert_eq!(
        config_from_toml("sticky-follow = \"own-output\"\n").sticky_follow(),
        StickyFollow::OwnOutput
    );
    assert_eq!(
        config_from_toml("sticky_follow = \"focused\"\n").sticky_follow(),
        StickyFollow::Focused
    );
}

#[test]
fn test_invalid_sticky_follow_is_reported() {
    let error = Config::parse_document("sticky-follow = \"sideways\"\n").unwrap_err();
    let message = error.render();
    assert!(
        message.contains("expected \"focused\" or \"own-output\", got \"sideways\""),
        "{message}"
    );
}

#[test]
fn test_invalid_rule_section_is_reported() {
    let error = Config::parse_document("stage = 3\n").unwrap_err();
    assert!(
        error.render().contains("Invalid stage section: expected a table, got 3"),
        "{error:?}"
    );
}

#[test]
fn test_invalid_stage_regex_names_the_section() {
    let error = Config::parse_document(
        r#"
[stage.games]
app-id = "["
"#,
    )
    .unwrap_err();
    let message = error.render();
    assert!(
        message.contains("Invalid app-id regex in stage.games: \"["),
        "{message}"
    );
}

#[test]
fn test_scratchpad_sizes_are_pixels_or_percentages() {
    let config = config_from_toml(
        r#"
[scratchpad.term]
app-id = "foot"
width = "60%"
height = 480
"#,
    );
    let scratchpad = config.scratchpad("term").expect("configured");
    assert_eq!(scratchpad.width, Some(percent(60.0)));
    assert_eq!(scratchpad.height, Some(Size::Fixed(480)));
    assert_eq!(scratchpad.describe_size(), "60%x480px");
    assert!(scratchpad.float, "floating by default");
}

#[test]
fn test_scratchpad_size_accepts_px_and_rejects_fractions() {
    let pixels = config_from_toml(
        r#"
[scratchpad.term]
app-id = "foot"
width = "800px"
"#,
    );
    assert_eq!(
        pixels.scratchpad("term").unwrap().width,
        Some(Size::Fixed(800))
    );

    // `0.6` meaning 60% is the mistake this guards against.
    let error = Config::parse_document(
        r#"
[scratchpad.term]
app-id = "foot"
width = 0.6
"#,
    )
    .unwrap_err();
    let message = error.render();
    assert!(
        message.contains("expected pixels (\"400\") or a percentage (\"60%\")"),
        "{message}"
    );
}

#[test]
fn test_scratchpad_rejects_impossible_sizes() {
    for (value, expected) in [
        ("\"120%\"", "percentage must be above 0 and at most 100"),
        ("\"0%\"", "percentage must be above 0 and at most 100"),
        ("0", "size must be positive"),
        ("\"wide\"", "expected pixels"),
    ] {
        let toml = format!("[scratchpad.term]\napp-id = \"foot\"\nwidth = {value}\n");
        let error = Config::parse_document(&toml).unwrap_err();
        let message = error.render();
        assert!(message.contains(expected), "{value}: {message}");
    }
}

#[test]
fn test_scratchpad_without_a_matcher_follows_focus() {
    let config = config_from_toml(
        r#"
[scratchpad.any]
float = true
"#,
    );
    let scratchpad = config.scratchpad("any").expect("configured");

    assert!(scratchpad.follows_focus(), "no fields: the focused window");
    assert!(scratchpad.spawn.is_none());

    let matched = config_from_toml(
        r#"
[scratchpad.term]
app-id = "foot"
"#,
    );
    assert!(!matched.scratchpad("term").unwrap().follows_focus());
}

#[test]
fn test_invalid_scratchpad_section_is_reported() {
    let error = Config::parse_document("scratchpad = 3\n").unwrap_err();
    let message = error.render();
    assert!(
        message.contains("Invalid scratchpad section: expected a table"),
        "{message}"
    );
}

#[test]
fn test_scratchpad_spawn_command_is_validated() {
    let error = Config::parse_document(
        r#"
[scratchpad.term]
app-id = "foot"
spawn = "foot"
"#,
    )
    .unwrap_err();
    let message = error.render();
    assert!(
        message.contains("expected an array of strings"),
        "{message}"
    );

    let error = Config::parse_document(
        r#"
[scratchpad.term]
app-id = "foot"
spawn = []
"#,
    )
    .unwrap_err();
    assert!(
        error.render().contains("the command must not be empty"),
        "{error:?}"
    );
}

#[test]
fn test_rules_are_reported_in_precedence_order() {
    let config = config_from_toml(
        r#"
[sticky.discord]
app-id = ["a", "b"]
exclude-title = "c"

[stage.games]
app-id = "steam"
title = "Game"
"#,
    );

    let rules = config.rules();
    assert_eq!(rules.len(), 2);
    assert_eq!(rules[0].0, WindowAction::Sticky);
    assert_eq!(rules[0].1.id, "sticky.discord");
    assert_eq!(rules[0].1.fields(), "app-id: 2, exclude-title: 1");
    assert_eq!(rules[1].0, WindowAction::Stage);
    assert_eq!(rules[1].1.id, "stage.games");
    assert_eq!(rules[1].1.fields(), "app-id: 1, title: 1");
}

#[test]
fn test_floating_rule_matches_only_floating_windows() {
    let config = config_from_toml(
        r#"
[sticky.pip]
floating = true

[sticky.tiled]
floating = false
app-id = "firefox"
"#,
    );

    let floating = WindowFacts {
        app_id: Some("mpv"),
        title: Some("video"),
        floating: true,
    };
    let tiled = WindowFacts {
        app_id: Some("mpv"),
        title: Some("video"),
        floating: false,
    };

    assert_eq!(
        config.match_rule(&floating).map(|m| m.id),
        Some("sticky.pip".to_string())
    );
    assert_eq!(config.match_rule(&tiled), None, "pip requires floating");

    let tiled_browser = WindowFacts {
        app_id: Some("firefox"),
        ..tiled
    };
    assert_eq!(
        config.match_rule(&tiled_browser).map(|m| m.id),
        Some("sticky.tiled".to_string())
    );
    let floating_browser = WindowFacts {
        app_id: Some("firefox"),
        ..floating
    };
    // The tiled rule must not claim a floating window.
    assert_eq!(
        config.match_rule(&floating_browser).map(|m| m.id),
        Some("sticky.pip".to_string())
    );
}

#[test]
fn test_invalid_floating_value_is_reported() {
    let error = Config::parse_document(
        r#"
[sticky.pip]
app-id = "mpv"
floating = "yes"
"#,
    )
    .unwrap_err();
    let message = error.render();
    assert!(
        message
            .contains("Invalid floating value in sticky.pip: expected a boolean, got \"yes\""),
        "{message}"
    );
}

#[test]
fn test_rule_summary_reports_the_floating_constraint() {
    let config = config_from_toml(
        r#"
[sticky.pip]
app-id = "mpv"
floating = true
"#,
    );
    assert_eq!(config.rules()[0].1.fields(), "floating: true, app-id: 1");
}

#[test]
fn test_rule_summary_omits_unused_fields() {
    let config = config_from_toml(
        r#"
[sticky.simple]
app-id = "firefox"
"#,
    );
    assert_eq!(config.rules()[0].1.fields(), "app-id: 1");
}

#[test]
fn test_no_menu_configured() {
    let config = config_from_toml(
        r#"
[sticky.firefox]
app-id = "firefox"
"#,
    );
    assert!(config.menu().is_none());
}

#[test]
fn test_sticky_follow_names_are_the_documented_ones() {
    assert_eq!(StickyFollow::Focused.as_str(), "focused");
    assert_eq!(StickyFollow::OwnOutput.as_str(), "own-output");

    // What `config check` prints is what the file accepts.
    for name in ["focused", "own-output"] {
        let config = config_from_toml(&format!("sticky-follow = \"{name}\"\n"));
        assert_eq!(config.sticky_follow().as_str(), name);
    }
}

#[test]
fn test_non_string_sticky_follow_is_reported() {
    let error = Config::parse_document("sticky-follow = 3\n").unwrap_err();
    let message = error.render();
    assert!(
        message.contains("Invalid sticky-follow value")
            && message.contains("expected a string"),
        "{message}"
    );
}

#[test]
fn test_scratchpad_size_rejects_a_non_numeric_percentage() {
    let error = Config::parse_document(
        r#"
[scratchpad.term]
app-id = "foot"
width = "wide%"
"#,
    )
    .unwrap_err();
    let message = error.render();
    assert!(
        message.contains("Invalid width value in scratchpad.term")
            && message.contains("\"wide%\""),
        "{message}"
    );
}

#[test]
fn test_describe_size_reports_auto_when_unset() {
    let config = config_from_toml(
        r#"
[scratchpad.term]
app-id = "foot"
"#,
    );
    let scratchpad = config.scratchpad("term").expect("configured");
    assert_eq!((&scratchpad.width, &scratchpad.height), (&None, &None));
    assert_eq!(scratchpad.describe_size(), "autoxauto");
}

#[test]
fn test_output_array_with_a_non_string_entry_is_reported() {
    let error = Config::parse_document(
        r#"
[sticky.discord]
app-id = "discord"
output = ["DP-1", 3]
"#,
    )
    .unwrap_err();
    let message = error.render();
    assert!(
        message.contains("Invalid output value in sticky.discord")
            && message.contains("expected a string, got 3"),
        "{message}"
    );
}

#[test]
fn test_output_as_a_table_is_reported() {
    let error = Config::parse_document(
        r#"
[sticky.discord]
app-id = "discord"
output = { name = "DP-1" }
"#,
    )
    .unwrap_err();
    let message = error.render();
    assert!(
        message.contains("Invalid output value in sticky.discord")
            && message.contains("expected a string or an array of strings"),
        "{message}"
    );
}

#[test]
fn test_spawn_array_with_a_non_string_entry_is_reported() {
    let error = Config::parse_document(
        r#"
[scratchpad.term]
app-id = "foot"
spawn = ["foot", 3]
"#,
    )
    .unwrap_err();
    let message = error.render();
    assert!(
        message.contains("Invalid spawn value in scratchpad.term")
            && message.contains("expected a string, got 3"),
        "{message}"
    );
}

#[test]
fn test_scratchpad_float_must_be_a_boolean() {
    for value in ["\"yes\"", "1"] {
        let toml = format!("[scratchpad.term]\napp-id = \"foot\"\nfloat = {value}\n");
        let message = Config::parse_document(&toml).unwrap_err().render();
        assert!(
            message.contains("Invalid float value in scratchpad.term")
                && message.contains("expected a boolean"),
            "{value}: {message}"
        );
    }
}

#[test]
fn test_invalid_exclude_app_id_regex_names_rule_field_and_pattern() {
    let error = Config::parse_document(
        r#"
[sticky.discord]
app-id = "discord"
exclude-app-id = "^(Discord$"
"#,
    )
    .unwrap_err();
    let message = error.render();
    assert!(
        message.contains("Invalid exclude-app-id regex in sticky.discord")
            && message.contains("\"^(Discord$\""),
        "{message}"
    );
}

#[test]
fn test_scratchpad_entry_that_is_not_a_table_is_skipped() {
    let config = config_from_toml(
        r#"
scratchpad = { broken = 3, term = { app-id = "foot" } }
"#,
    );
    assert_eq!(config.scratchpad_names(), vec!["term"]);
    assert!(config.scratchpad("term").is_some());
}

#[test]
fn test_rule_entry_that_is_not_a_table_is_skipped() {
    let config = config_from_toml(
        r#"
sticky = { broken = 3, firefox = { app-id = "firefox" } }
"#,
    );
    assert_eq!(config.rules().len(), 1);
    assert_eq!(config.rules()[0].1.id, "sticky.firefox");
    assert!(matched(&config, &app("firefox"), &None));
}

#[test]
fn test_menu_array_with_a_non_string_entry_is_reported() {
    let error = Config::parse_document("menu = [\"rofi\", 3]\n").unwrap_err();
    let message = error.render();
    assert!(
        message.contains("Invalid menu entry") && message.contains("got 3"),
        "{message}"
    );
}

#[test]
fn test_empty_pattern_array_narrows_nothing() {
    // An empty pattern list narrows nothing, so the rule is dropped.
    let config = config_from_toml(
        r#"
[sticky.by-title]
app-id = []
title = "^Gmail$"

[sticky.empty]
app-id = []
"#,
    );
    assert_eq!(config.rules().len(), 1);
    assert_eq!(config.rules()[0].1.id, "sticky.by-title");
    assert!(matched(&config, &app("anything"), &title("Gmail")));
    assert!(!matched(&config, &app("anything"), &title("Home")));
}

#[test]
fn test_empty_string_pattern_matches_any_reported_app_id() {
    // An empty regex matches everything, but a window niri reports without
    // an app id still cannot satisfy the constraint.
    let config = config_from_toml(
        r#"
[sticky.any]
app-id = ""
"#,
    );
    assert!(matched(&config, &app("firefox"), &None));
    assert!(matched(&config, &app(""), &None));
    assert!(!matched(&config, &None, &None));
}

#[test]
fn test_not_aliases_accept_the_underscore_spelling() {
    let config = config_from_toml(
        r#"
[sticky.firefox]
app-id = "firefox"
not_title = "Gmail"
not_app_id = "firefox-esr"
"#,
    );
    assert!(matched(&config, &app("firefox"), &title("YouTube")));
    assert!(!matched(&config, &app("firefox"), &title("Gmail")));
    assert!(!matched(&config, &app("firefox-esr"), &title("YouTube")));
}

#[test]
fn test_config_dir_falls_back_when_there_is_no_config_home() {
    assert_eq!(
        Config::config_dir_under(None),
        "/tmp/nsticky/nsticky"
    );
    assert_eq!(
        Config::config_dir_under(Some("/home/x/.config")),
        "/home/x/.config/nsticky"
    );
}

#[test]
fn test_malformed_toml_does_not_become_a_default_config() {
    let error = Config::parse_document("stage-workspace = \"a\"\n[sticky\n").unwrap_err();
    assert!(
        error.render().contains("TOML parse error"),
        "{error:?}"
    );
}

/// What reading a missing file comes to.
fn missing() -> Result<String, Error> {
    Err(Error::new("No such file or directory (os error 2)"))
}

fn content(text: &str) -> Result<String, Error> {
    Ok(text.to_string())
}

#[test]
fn test_missing_file_returns_err() {
    let path = "/tmp/nsticky_nonexistent_test_file_12345.toml";
    let error = Config::load(path, missing()).unwrap_err();
    assert_eq!(
        error.render(),
        "Failed to read config: \"/tmp/nsticky_nonexistent_test_file_12345.toml\": No such file or directory (os error 2)"
    );
}

#[test]
fn test_load_reads_a_file_and_names_it_when_it_is_broken() {
    let path = "/tmp/load/config.toml";
    let config = Config::load(path, content("[sticky.firefox]\napp-id = \"firefox\"\n"))
        .expect("valid config");
    assert!(matched(&config, &app("firefox"), &None));

    let message = Config::load(path, content("[sticky.firefox\n")).unwrap_err().render();
    assert!(message.contains("Failed to parse TOML"), "{message}");
    assert!(message.contains(path), "{message}");
}

#[test]
fn test_load_or_default_keeps_a_usable_file_and_falls_back_otherwise() {
    let path = "/tmp/or-default/config.toml";

    let fallback = Config::load_or_default_at(path, content("[sticky.firefox\n"));
    assert!(!matched(&fallback, &app("firefox"), &None));
    assert_eq!(fallback.stage_workspace(), "stage", "defaults are used");

    assert_eq!(
        Config::load_or_default_at(path, content("stage-workspace = \"parking\"\n"))
            .stage_workspace(),
        "parking"
    );
    assert_eq!(Config::load_or_default_at(path, missing()).stage_workspace(), "stage");
}

#[test]
fn parking_areas_never_share_a_workspace() {
    let error = Config::parse_document("stage-workspace = \"stash\"\nscratchpad-workspace = \"stash\"\n")
        .unwrap_err();
    assert_eq!(
        error.render(),
        "stage-workspace and scratchpad-workspace cannot both be \"stash\": each parking area needs a workspace of its own"
    );
}

#[test]
fn stage_rules_never_change_what_a_sticky_rule_does() {
    let sticky = "[sticky.a]\napp-id = \"foot\"\noutput = \"DP-1\"\n";
    let both = format!("{sticky}[stage.b]\napp-id = \"foot\"\n");
    let window = facts(Some("foot"), Some("x"));
    let alone = config_from_toml(sticky).match_rule(&window).unwrap();
    let with_stage = config_from_toml(&both).match_rule(&window).unwrap();
    assert_eq!(alone, with_stage);
    assert_eq!(alone.id, "sticky.a");
    assert_eq!(alone.outputs, ["DP-1"]);
}

#[test]
fn ways_to_follow_are_read_back_from_their_names() {
    for follow in [StickyFollow::Focused, StickyFollow::OwnOutput] {
        let config = config_from_toml(&format!("sticky-follow = \"{}\"\n", follow.as_str()));
        assert_eq!(config.sticky_follow(), follow);
    }
}

#[test]
fn sizes_reach_niri_as_they_are() {
    assert_eq!(Size::Fixed(480).to_niri(), niri::Size::Fixed(480));
    assert_eq!(percent(60.0).to_niri(), niri::Size::Percent(60.0f64.to_bits()));
}

#[test]
fn a_rule_summary_counts_its_patterns() {
    let summary = RuleSummary {
        id: "sticky.x".to_string(),
        floating: Some(true),
        outputs: Vec::new(),
        app_id: 3,
        title: 0,
        exclude_app_id: 0,
        exclude_title: 1,
    };
    assert_eq!(summary.fields(), "floating: true, app-id: 3, exclude-title: 1");
}
