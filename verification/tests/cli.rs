use caffeinate::cli::{exit_code, label, parse_args, parse_duration, Mode, Outcome};
use caffeinate::time::Duration;

fn args(list: &[&str]) -> Vec<String> {
    list.iter().map(|s| s.to_string()).collect()
}

#[test]
fn bare_numbers_are_seconds() {
    assert_eq!(parse_duration("90").unwrap(), Duration::from_secs(90));
    assert_eq!(parse_duration("0").unwrap(), Duration::zero());
}

#[test]
fn suffixes_scale_the_value() {
    assert_eq!(parse_duration("30s").unwrap(), Duration::from_secs(30));
    assert_eq!(parse_duration("45m").unwrap(), Duration::from_secs(2700));
    assert_eq!(parse_duration("2h").unwrap(), Duration::from_secs(7200));
}

#[test]
fn suffixes_are_case_insensitive() {
    assert_eq!(parse_duration("2H").unwrap(), parse_duration("2h").unwrap());
    assert_eq!(parse_duration("5M").unwrap(), parse_duration("5m").unwrap());
}

#[test]
fn rejects_nonsense_durations() {
    for bad in ["", "h", "abc", "-5", "1d", "1.5h", "10 m"] {
        assert!(parse_duration(bad).is_err(), "`{bad}` should be rejected");
    }
}

#[test]
fn rejects_durations_that_overflow() {
    assert!(parse_duration(&format!("{}h", u64::MAX)).is_err());
}

#[test]
fn no_arguments_means_hold() {
    let cli = parse_args(&args(&[])).unwrap();
    assert_eq!(cli.mode, Mode::Hold);
    assert!(!cli.display);
}

#[test]
fn display_flag_is_recognised_in_both_spellings() {
    assert!(parse_args(&args(&["-d"])).unwrap().display);
    assert!(parse_args(&args(&["--display"])).unwrap().display);
}

#[test]
fn a_command_becomes_wrap_mode() {
    let cli = parse_args(&args(&["cargo", "build"])).unwrap();
    assert_eq!(cli.mode, Mode::Wrap(args(&["cargo", "build"])));
}

#[test]
fn options_after_the_command_belong_to_the_command() {
    // -d here is cargo's, not ours, because it comes after the command.
    let cli = parse_args(&args(&["cargo", "build", "-d"])).unwrap();
    assert!(!cli.display);
    assert_eq!(cli.mode, Mode::Wrap(args(&["cargo", "build", "-d"])));
}

#[test]
fn double_dash_stops_option_parsing() {
    let cli = parse_args(&args(&["-d", "--", "cargo", "-t", "x"])).unwrap();
    assert!(cli.display, "-d before -- is still ours");
    assert_eq!(cli.mode, Mode::Wrap(args(&["cargo", "-t", "x"])));
}

#[test]
fn time_flag_produces_timed_mode() {
    let cli = parse_args(&args(&["-t", "45m"])).unwrap();
    assert_eq!(cli.mode, Mode::Timed(Duration::from_secs(2700), "45m".to_string()));
}

#[test]
fn time_and_a_command_are_refused() {
    let err = parse_args(&args(&["-t", "1h", "cargo", "build"])).unwrap_err();
    assert!(err.contains("cannot be combined"), "got: {err}");
}

#[test]
fn time_without_a_value_is_refused() {
    assert!(parse_args(&args(&["-t"])).is_err());
}

#[test]
fn unknown_options_are_refused() {
    let err = parse_args(&args(&["-z"])).unwrap_err();
    assert!(err.contains("unknown option"), "got: {err}");
}

#[test]
fn help_wins_over_everything_else() {
    assert_eq!(parse_args(&args(&["-d", "--help"])).unwrap().mode, Mode::Help);
    assert_eq!(parse_args(&args(&["-h"])).unwrap().mode, Mode::Help);
}

#[test]
fn a_bare_double_dash_is_refused() {
    let err = parse_args(&args(&["--"])).unwrap_err();
    assert!(err.contains("no command"), "got: {err}");
    assert!(parse_args(&args(&["-d", "--"])).is_err());
}

#[test]
fn labels_describe_the_hold() {
    assert_eq!(label(&Mode::Wrap(args(&["cargo", "build"]))), "cargo build");
    assert_eq!(label(&Mode::Timed(Duration::from_secs(60), "1m".to_string())), "hold 1m");
    assert_eq!(label(&Mode::Hold), "hold");
}

// ---------------------------------------------------------------- further cases

#[test]
fn duration_errors_say_what_was_wrong() {
    assert_eq!(parse_duration("").unwrap_err(), "empty duration");
    assert_eq!(parse_duration("h").unwrap_err(), "`h` has a unit but no number");
    assert_eq!(
        parse_duration("1d").unwrap_err(),
        "`1d` is not a duration (try 90, 30s, 45m, 2h)"
    );
    let huge = format!("{}h", u64::MAX);
    assert_eq!(parse_duration(&huge).unwrap_err(), format!("`{huge}` is too large"));
}

#[test]
fn a_leading_plus_is_accepted_as_in_str_parse() {
    assert_eq!(parse_duration("+5m").unwrap(), Duration::from_secs(300));
    assert!(parse_duration("+").is_err());
    assert!(parse_duration("+m").is_err());
}

#[test]
fn the_largest_number_of_seconds_still_parses() {
    let max = u64::MAX.to_string();
    assert_eq!(parse_duration(&max).unwrap(), Duration::from_secs(u64::MAX));
    assert!(parse_duration("18446744073709551616").is_err());
}

#[test]
fn argument_errors_name_the_offender() {
    assert_eq!(parse_args(&args(&["--time"])).unwrap_err(), "--time needs a duration");
    assert_eq!(parse_args(&args(&["-z"])).unwrap_err(), "unknown option `-z`");
    assert_eq!(parse_args(&args(&["--"])).unwrap_err(), "`--` with no command after it");
    assert_eq!(
        parse_args(&args(&["-t", "soon"])).unwrap_err(),
        "`soon` is not a duration (try 90, 30s, 45m, 2h)"
    );
}

#[test]
fn the_last_time_limit_wins() {
    let cli = parse_args(&args(&["-t", "1h", "--time", "5", "-d"])).unwrap();
    assert!(cli.display);
    assert_eq!(cli.mode, Mode::Timed(Duration::from_secs(5), "5".to_string()));
}

#[test]
fn an_empty_argument_starts_a_command() {
    let cli = parse_args(&args(&["", "x"])).unwrap();
    assert_eq!(cli.mode, Mode::Wrap(args(&["", "x"])));
}

#[test]
fn a_help_label_is_empty_and_words_are_joined_by_single_spaces() {
    assert_eq!(label(&Mode::Help), "");
    assert_eq!(label(&Mode::Wrap(args(&["a"]))), "a");
    assert_eq!(label(&Mode::Wrap(args(&["a", "", "b"]))), "a  b");
}

#[test]
fn exit_codes_follow_the_outcome() {
    assert_eq!(exit_code(Outcome::Refused), 2);
    assert_eq!(exit_code(Outcome::Helped), 0);
    assert_eq!(exit_code(Outcome::Elapsed), 0);
    assert_eq!(exit_code(Outcome::CannotStart), 127);
    assert_eq!(exit_code(Outcome::NoCode), 1);
    assert_eq!(exit_code(Outcome::Exited(0)), 0);
    assert_eq!(exit_code(Outcome::Exited(3)), 3);
    assert_eq!(exit_code(Outcome::Exited(-1073741819)), -1073741819);
    assert_eq!(exit_code(Outcome::Exited(256)), 256);
}
