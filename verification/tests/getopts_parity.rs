//! The parser agrees with getopts over presence, values, and failures,
//! for the same option schema.

use systeroid_tui::args::{Args, Outcome};

fn reference_options() -> getopts::Options {
    let mut opts = getopts::Options::new();
    opts.optopt(
        "t",
        "tick-rate",
        "set the tick rate of the terminal [default: 250]",
        "<ms>",
    );
    opts.optopt(
        "D",
        "docs",
        "set the path of the kernel documentation",
        "<path>",
    );
    opts.optopt("s", "section", "set the section to filter", "<section>");
    opts.optopt("q", "query", "set the query to search", "<query>");
    opts.optflag("n", "no-docs", "do not show the kernel documentation");
    opts.optflag("h", "help", "display this help and exit");
    opts.optflag("V", "version", "output version information and exit");
    opts
}

fn compare(tokens: &[&str]) {
    let reference = reference_options();
    let mut argv = vec!["systeroid-tui".to_string()];
    for t in tokens {
        argv.push(t.to_string());
    }
    let ours = Args::parse(argv);
    match reference.parse(tokens) {
        Err(e) => match ours {
            Outcome::Error(line) => {
                assert_eq!(line, format!("error: `{}`", e), "for {:?}", tokens);
            }
            _ => panic!("reference fails on {:?} but the library does not", tokens),
        },
        Ok(m) => {
            if m.opt_present("h") {
                assert!(matches!(ours, Outcome::Help), "for {:?}", tokens);
            } else if m.opt_present("V") {
                assert!(matches!(ours, Outcome::Version), "for {:?}", tokens);
            } else {
                match m.opt_str("t").map(|s| s.parse::<u64>()) {
                    Some(Err(pe)) => match ours {
                        Outcome::Error(line) => {
                            assert_eq!(line, format!("error: `{}`", pe), "for {:?}", tokens);
                        }
                        _ => panic!("tick-rate fails on {:?} but the library accepts it", tokens),
                    },
                    tick => {
                        let tick: u64 = match tick {
                            Some(Ok(v)) => v,
                            _ => 250,
                        };
                        match ours {
                            Outcome::Ready(config) => {
                                assert_eq!(config.tick_rate, tick, "for {:?}", tokens);
                                assert_eq!(config.kernel_docs, m.opt_str("D"), "for {:?}", tokens);
                                assert_eq!(
                                    config.search_query,
                                    m.opt_str("q"),
                                    "for {:?}",
                                    tokens
                                );
                                assert_eq!(config.no_docs, m.opt_present("n"), "for {:?}", tokens);
                            }
                            _ => panic!(
                                "reference succeeds on {:?} but the library does not",
                                tokens
                            ),
                        }
                    }
                }
            }
        }
    }
}

#[test]
fn parity_on_plain_values() {
    compare(&[]);
    compare(&["-t", "500"]);
    compare(&["-t500"]);
    compare(&["--tick-rate=500"]);
    compare(&["--tick-rate", "77"]);
    compare(&["-D", "/usr/share/doc"]);
    compare(&["--docs=/tmp/x"]);
    compare(&["-q", "vm.swappiness"]);
    compare(&["-s", "kernel", "-n"]);
}

#[test]
fn parity_on_early_exits() {
    compare(&["-h"]);
    compare(&["--help"]);
    compare(&["-V"]);
    compare(&["--version"]);
    compare(&["-V", "-h"]);
    compare(&["-nh"]);
}

#[test]
fn parity_on_failures() {
    compare(&["-x"]);
    compare(&["--frobnicate"]);
    compare(&["-t"]);
    compare(&["--query"]);
    compare(&["-n", "-n"]);
    compare(&["-t", "1", "-t", "2"]);
    compare(&["--no-docs=yes"]);
    compare(&["-h", "--help"]);
}

#[test]
fn parity_on_odd_shapes() {
    compare(&["--", "-h"]);
    compare(&["-"]);
    compare(&["free", "-n", "also-free"]);
    compare(&["-nq", "x"]);
    compare(&["-qx"]);
    compare(&["--tick-rate="]);
    compare(&["-t", "-n"]);
    compare(&["--query", "--help"]);
    compare(&["--="]);
}
