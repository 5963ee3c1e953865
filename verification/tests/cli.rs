use set_cosmic_theme::cli::{parse_args, Args, Invocation, UsageError, HELP};

fn line(words: &[&str]) -> Vec<String> {
    words.iter().map(|word| word.to_string()).collect()
}

fn apply(dark: bool, light: bool, gtk4: bool, file: Option<&str>) -> Result<Invocation, UsageError> {
    Ok(Invocation::Apply(Args {
        set_dark: dark,
        set_light: light,
        set_gtk4: gtk4,
        theme_file: file.map(|path| path.to_string()),
    }))
}

#[test]
fn a_lone_path_sets_no_flag() {
    assert_eq!(
        parse_args(line(&["my_theme.ron"])),
        apply(false, false, false, Some("my_theme.ron"))
    );
}

#[test]
fn default_names_no_file() {
    assert_eq!(parse_args(line(&["default"])), apply(false, false, false, None));
}

#[test]
fn flags_are_found_before_the_path() {
    assert_eq!(
        parse_args(line(&["--dark", "my_theme.ron"])),
        apply(true, false, false, Some("my_theme.ron"))
    );
    assert_eq!(
        parse_args(line(&["--light", "my_theme.ron"])),
        apply(false, true, false, Some("my_theme.ron"))
    );
    assert_eq!(
        parse_args(line(&["--gtk4", "my_theme.ron"])),
        apply(false, false, true, Some("my_theme.ron"))
    );
}

#[test]
fn flags_are_found_after_the_path() {
    assert_eq!(
        parse_args(line(&["my_theme.ron", "--light"])),
        apply(false, true, false, Some("my_theme.ron"))
    );
    assert_eq!(
        parse_args(line(&["--gtk4", "my_theme.ron", "--dark"])),
        apply(true, false, true, Some("my_theme.ron"))
    );
    assert_eq!(
        parse_args(line(&["--gtk4", "--light", "themes/a.ron", "--dark"])),
        apply(true, true, true, Some("themes/a.ron"))
    );
}

#[test]
fn default_takes_mode_flags() {
    assert_eq!(
        parse_args(line(&["--dark", "default"])),
        apply(true, false, false, None)
    );
    assert_eq!(
        parse_args(line(&["default", "--light", "--dark"])),
        apply(true, true, false, None)
    );
}

#[test]
fn default_with_gtk4_is_refused() {
    assert_eq!(
        parse_args(line(&["--gtk4", "default"])),
        Err(UsageError::DefaultWithGtk4)
    );
    assert_eq!(
        parse_args(line(&["default", "--gtk4"])),
        Err(UsageError::DefaultWithGtk4)
    );
    assert_eq!(
        parse_args(line(&["--dark", "default", "--light", "--gtk4"])),
        Err(UsageError::DefaultWithGtk4)
    );
}

#[test]
fn no_positional_is_refused() {
    assert_eq!(parse_args(line(&[])), Err(UsageError::MissingTheme));
    assert_eq!(parse_args(line(&["--dark"])), Err(UsageError::MissingTheme));
    assert_eq!(
        parse_args(line(&["--gtk4", "--light", "--dark"])),
        Err(UsageError::MissingTheme)
    );
}

#[test]
fn two_positionals_are_refused() {
    assert_eq!(
        parse_args(line(&["a.ron", "b.ron"])),
        Err(UsageError::TooManyArguments)
    );
    assert_eq!(
        parse_args(line(&["default", "default"])),
        Err(UsageError::TooManyArguments)
    );
    assert_eq!(
        parse_args(line(&["--dark", "a.ron", "--gtk4", "default"])),
        Err(UsageError::TooManyArguments)
    );
}

#[test]
fn a_repeated_flag_stays_behind_as_a_positional() {
    assert_eq!(
        parse_args(line(&["--dark", "--dark"])),
        apply(true, false, false, Some("--dark"))
    );
    assert_eq!(
        parse_args(line(&["--gtk4", "a.ron", "--gtk4"])),
        Err(UsageError::TooManyArguments)
    );
    assert_eq!(
        parse_args(line(&["--light", "--light", "--light"])),
        Err(UsageError::TooManyArguments)
    );
}

#[test]
fn an_unknown_option_is_a_positional() {
    assert_eq!(
        parse_args(line(&["--verbose"])),
        apply(false, false, false, Some("--verbose"))
    );
    assert_eq!(
        parse_args(line(&["--Dark", "a.ron"])),
        Err(UsageError::TooManyArguments)
    );
}

#[test]
fn the_empty_word_is_a_path() {
    assert_eq!(parse_args(line(&[""])), apply(false, false, false, Some("")));
}

#[test]
fn help_wins_over_everything() {
    assert_eq!(parse_args(line(&["-h"])), Ok(Invocation::Help));
    assert_eq!(parse_args(line(&["--help"])), Ok(Invocation::Help));
    assert_eq!(
        parse_args(line(&["--gtk4", "default", "--help"])),
        Ok(Invocation::Help)
    );
    assert_eq!(
        parse_args(line(&["a.ron", "b.ron", "-h"])),
        Ok(Invocation::Help)
    );
    assert_eq!(
        parse_args(line(&["-h", "--dark", "a.ron"])),
        Ok(Invocation::Help)
    );
}

#[test]
fn the_path_comes_back_whole() {
    assert_eq!(
        parse_args(line(&["--light", "/home/user/my themes/caf\u{e9}.ron"])),
        apply(false, true, false, Some("/home/user/my themes/caf\u{e9}.ron"))
    );
}

#[test]
fn help_text_names_every_option() {
    assert!(HELP.starts_with("set-cosmic-theme\n\nUSAGE:\n  set-cosmic-theme [MODES] {THEME | default}\n"));
    assert!(HELP.contains("  -h, --help    Print help information.\n"));
    assert!(HELP.contains("  --dark        Set the COSMIC dark theme.\n"));
    assert!(HELP.contains("  --light       Set the COSMIC light theme.\n"));
    assert!(HELP.contains("  --gtk4        Set the GTK4 user CSS based on the theme file.\n"));
    assert!(HELP.ends_with("                Incompatible with --gtk4.\n"));
    assert_eq!(HELP.lines().count(), 21);
}

#[test]
fn the_order_of_the_words_does_not_matter() {
    let orders: [&[&str]; 6] = [
        &["--dark", "--gtk4", "a.ron"],
        &["--dark", "a.ron", "--gtk4"],
        &["--gtk4", "--dark", "a.ron"],
        &["--gtk4", "a.ron", "--dark"],
        &["a.ron", "--dark", "--gtk4"],
        &["a.ron", "--gtk4", "--dark"],
    ];
    for words in orders {
        assert_eq!(
            parse_args(line(words)),
            apply(true, false, true, Some("a.ron"))
        );
    }
    assert_eq!(
        parse_args(line(&["--light", "--light", "--dark"])),
        parse_args(line(&["--dark", "--light", "--light"]))
    );
    assert_eq!(
        parse_args(line(&["--light", "--dark", "--light"])),
        apply(true, true, false, Some("--light"))
    );
}
