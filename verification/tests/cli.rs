use systeroid_tui::args::{usage, version_line, Args, Outcome};
use systeroid_tui::section::Section;

fn argv(args: &[&str]) -> Vec<String> {
    let mut v = vec!["systeroid-tui".to_string()];
    for a in args {
        v.push(a.to_string());
    }
    v
}

fn ready(args: &[&str]) -> Args {
    match Args::parse(argv(args)) {
        Outcome::Ready(config) => config,
        other => panic!("expected a configuration, got {:?}", outcome_kind(&other)),
    }
}

fn error_of(args: &[&str]) -> String {
    match Args::parse(argv(args)) {
        Outcome::Error(line) => line,
        other => panic!("expected an error, got {:?}", outcome_kind(&other)),
    }
}

fn outcome_kind(outcome: &Outcome) -> &'static str {
    match outcome {
        Outcome::Help => "help",
        Outcome::Version => "version",
        Outcome::Error(_) => "error",
        Outcome::Ready(_) => "ready",
    }
}

#[test]
fn empty_input_gives_defaults() {
    let config = ready(&[]);
    assert_eq!(config.tick_rate, 250);
    assert_eq!(config.kernel_docs, None);
    assert_eq!(config.section, None);
    assert_eq!(config.search_query, None);
    assert!(!config.no_docs);
}

#[test]
fn tick_rate_short_value() {
    let config = ready(&["-t", "500"]);
    assert_eq!(config.tick_rate, 500);
    assert_eq!(config.kernel_docs, None);
    assert_eq!(config.section, None);
    assert_eq!(config.search_query, None);
    assert!(!config.no_docs);
}

#[test]
fn tick_rate_attached_value() {
    assert_eq!(ready(&["-t500"]).tick_rate, 500);
}

#[test]
fn tick_rate_long_with_equals() {
    assert_eq!(ready(&["--tick-rate=500"]).tick_rate, 500);
}

#[test]
fn tick_rate_long_with_next_token() {
    assert_eq!(ready(&["--tick-rate", "123"]).tick_rate, 123);
}

#[test]
fn tick_rate_leading_plus() {
    assert_eq!(ready(&["-t", "+42"]).tick_rate, 42);
}

#[test]
fn tick_rate_zero() {
    assert_eq!(ready(&["-t", "0"]).tick_rate, 0);
}

#[test]
fn tick_rate_order_does_not_matter() {
    let first = ready(&["-n", "-t", "500"]);
    let second = ready(&["-t", "500", "-n"]);
    assert_eq!(first.tick_rate, 500);
    assert_eq!(second.tick_rate, 500);
    assert!(first.no_docs);
    assert!(second.no_docs);
}

#[test]
fn help_long_exits() {
    assert!(matches!(Args::parse(argv(&["--help"])), Outcome::Help));
}

#[test]
fn help_short_exits() {
    assert!(matches!(Args::parse(argv(&["-h"])), Outcome::Help));
}

#[test]
fn help_wins_over_version() {
    assert!(matches!(Args::parse(argv(&["-V", "-h"])), Outcome::Help));
}

#[test]
fn help_wins_over_other_options() {
    assert!(matches!(Args::parse(argv(&["-n", "--help", "-q", "x"])), Outcome::Help));
}

#[test]
fn version_short_exits() {
    assert!(matches!(Args::parse(argv(&["-V"])), Outcome::Version));
}

#[test]
fn version_long_exits() {
    assert!(matches!(Args::parse(argv(&["--version"])), Outcome::Version));
}

#[test]
fn version_wins_over_bad_tick_rate() {
    assert!(matches!(Args::parse(argv(&["--version", "-t", "abc"])), Outcome::Version));
}

#[test]
fn tick_rate_invalid_digit() {
    assert_eq!(error_of(&["-t", "abc"]), "error: `invalid digit found in string`");
}

#[test]
fn tick_rate_negative_is_invalid() {
    assert_eq!(error_of(&["--tick-rate=-5"]), "error: `invalid digit found in string`");
}

#[test]
fn tick_rate_empty_value() {
    assert_eq!(error_of(&["--tick-rate="]), "error: `cannot parse integer from empty string`");
}

#[test]
fn tick_rate_overflow() {
    assert_eq!(
        error_of(&["-t", "99999999999999999999"]),
        "error: `number too large to fit in target type`"
    );
}

#[test]
fn tick_rate_max_fits() {
    assert_eq!(ready(&["-t", "18446744073709551615"]).tick_rate, u64::MAX);
}

#[test]
fn tick_rate_max_plus_one_overflows() {
    assert_eq!(
        error_of(&["-t", "18446744073709551616"]),
        "error: `number too large to fit in target type`"
    );
}

#[test]
fn unknown_short_option() {
    assert_eq!(error_of(&["-x"]), "error: `Unrecognized option: 'x'`");
}

#[test]
fn unknown_long_option() {
    assert_eq!(error_of(&["--frobnicate"]), "error: `Unrecognized option: 'frobnicate'`");
}

#[test]
fn missing_value_short() {
    assert_eq!(error_of(&["-t"]), "error: `Argument to option 't' missing`");
}

#[test]
fn missing_value_long() {
    assert_eq!(error_of(&["--query"]), "error: `Argument to option 'query' missing`");
}

#[test]
fn duplicate_flag() {
    assert_eq!(error_of(&["-n", "-n"]), "error: `Option 'no-docs' given more than once`");
}

#[test]
fn duplicate_value_option() {
    assert_eq!(
        error_of(&["-t", "1", "-t", "2"]),
        "error: `Option 'tick-rate' given more than once`"
    );
}

#[test]
fn duplicate_across_forms() {
    assert_eq!(error_of(&["-h", "--help"]), "error: `Option 'help' given more than once`");
}

#[test]
fn flag_given_a_value() {
    assert_eq!(
        error_of(&["--no-docs=yes"]),
        "error: `Option 'no-docs' does not take an argument`"
    );
}

#[test]
fn no_docs_and_query() {
    let config = ready(&["-n", "-q", "vm.swappiness"]);
    assert!(config.no_docs);
    assert_eq!(config.search_query, Some("vm.swappiness".to_string()));
    assert_eq!(config.tick_rate, 250);
    assert_eq!(config.kernel_docs, None);
    assert_eq!(config.section, None);
}

#[test]
fn cluster_of_flags() {
    assert!(matches!(Args::parse(argv(&["-nh"])), Outcome::Help));
}

#[test]
fn cluster_value_from_next_token() {
    let config = ready(&["-nq", "vm.swappiness"]);
    assert!(config.no_docs);
    assert_eq!(config.search_query, Some("vm.swappiness".to_string()));
}

#[test]
fn cluster_attached_value() {
    let config = ready(&["-qvm.swappiness"]);
    assert_eq!(config.search_query, Some("vm.swappiness".to_string()));
}

#[test]
fn end_of_options_marker() {
    let config = ready(&["--", "-h"]);
    assert_eq!(config.tick_rate, 250);
    assert!(!config.no_docs);
}

#[test]
fn lone_dash_is_free() {
    let config = ready(&["-"]);
    assert_eq!(config.tick_rate, 250);
}

#[test]
fn free_arguments_are_ignored() {
    let config = ready(&["foo", "-n", "bar"]);
    assert!(config.no_docs);
    assert_eq!(config.search_query, None);
}

#[test]
fn docs_path_carried_unchanged() {
    let config = ready(&["-D", "/usr/share/doc/kernel"]);
    assert_eq!(config.kernel_docs, Some("/usr/share/doc/kernel".to_string()));
}

#[test]
fn section_known_names() {
    assert_eq!(ready(&["-s", "kernel"]).section, Some(Section::Kernel));
    assert_eq!(ready(&["-s", "vm"]).section, Some(Section::Vm));
    assert_eq!(ready(&["--section", "net"]).section, Some(Section::Net));
    assert_eq!(ready(&["-s", "abi"]).section, Some(Section::Abi));
    assert_eq!(ready(&["-s", "fs"]).section, Some(Section::Fs));
    assert_eq!(ready(&["-s", "sunrpc"]).section, Some(Section::Sunrpc));
    assert_eq!(ready(&["-s", "user"]).section, Some(Section::User));
}

#[test]
fn section_unknown_name_carried() {
    assert_eq!(
        ready(&["-s", "foo"]).section,
        Some(Section::Unknown("foo".to_string()))
    );
}

#[test]
fn section_is_case_sensitive() {
    assert_eq!(
        ready(&["-s", "Kernel"]).section,
        Some(Section::Unknown("Kernel".to_string()))
    );
}

#[test]
fn usage_message_exact() {
    let mut expected = String::new();
    expected.push_str("\nUsage:\n    systeroid-tui [options]\n\nOptions:\n");
    expected.push_str("    -t, --tick-rate <ms>  set the tick rate of the terminal [default: 250]\n");
    expected.push_str("    -D, --docs <path>  set the path of the kernel documentation\n");
    expected.push_str("    -s, --section <section>  set the section to filter\n");
    expected.push_str("    -q, --query <query>  set the query to search\n");
    expected.push_str("    -n, --no-docs  do not show the kernel documentation\n");
    expected.push_str("    -h, --help  display this help and exit\n");
    expected.push_str("    -V, --version  output version information and exit\n");
    expected.push_str("\nFor more details see systeroid-tui(8).");
    assert_eq!(usage(), expected);
}

#[test]
fn version_line_exact() {
    assert_eq!(version_line(), "systeroid-tui 0.1.0");
}
