//! The resolver: early-exit requests are honoured first, then the
//! configuration is built, applying defaults and coercions.

use vstd::prelude::*;

use crate::num::{num_error_message, num_error_text, parse_u64, u64_from_chars, NumError};
use crate::opts::{lemma_schema_names, present_spec, the_schema, value_spec, Matches, OptDef,
    OptDefV};
use crate::parser::{fail_text, parse_spec, parse_tokens};
use crate::section::{section_of, Section, SectionV};
use crate::{program_name, program_version, spec_program_name, spec_program_version};

verus! {

/// The refresh interval applied when none is supplied, in milliseconds.
pub const DEFAULT_TICK_RATE: u64 = 250;

/// Command-line arguments, fully resolved.
#[derive(Debug, Default)]
pub struct Args {
    /// Refresh rate of the terminal, in milliseconds.
    pub tick_rate: u64,
    /// Path of the Linux kernel documentation.
    pub kernel_docs: Option<String>,
    /// Sysctl section to filter.
    pub section: Option<Section>,
    /// Query to search on startup.
    pub search_query: Option<String>,
    /// Do not parse/show Linux kernel documentation.
    pub no_docs: bool,
}

/// Mathematical image of a configuration.
pub struct ArgsV {
    pub tick_rate: u64,
    pub kernel_docs: Option<Seq<char>>,
    pub section: Option<SectionV>,
    pub search_query: Option<Seq<char>>,
    pub no_docs: bool,
}

impl View for Args {
    type V = ArgsV;

    open spec fn view(&self) -> ArgsV {
        ArgsV {
            tick_rate: self.tick_rate,
            kernel_docs: self.kernel_docs.deep_view(),
            section: self.section.deep_view(),
            search_query: self.search_query.deep_view(),
            no_docs: self.no_docs,
        }
    }
}

/// What one resolution produces: an early exit, a reported failure, or
/// the configuration.
pub enum Outcome {
    /// Usage is to be printed; no configuration.
    Help,
    /// The version line is to be printed; no configuration.
    Version,
    /// This line is to be reported; no configuration.
    Error(String),
    /// Normal execution proceeds with this configuration.
    Ready(Args),
}

/// Mathematical image of an outcome.
pub enum OutcomeV {
    Help,
    Version,
    Error(Seq<char>),
    Ready(ArgsV),
}

impl View for Outcome {
    type V = OutcomeV;

    open spec fn view(&self) -> OutcomeV {
        match self {
            Outcome::Help => OutcomeV::Help,
            Outcome::Version => OutcomeV::Version,
            Outcome::Error(msg) => OutcomeV::Error(msg@),
            Outcome::Ready(args) => OutcomeV::Ready(args@),
        }
    }
}

/// The single line reported for a failure.
pub open spec fn error_line_text(msg: Seq<char>) -> Seq<char> {
    "error: `"@ + msg + "`"@
}

/// Builds the single line reported for a failure.
pub fn error_line(msg: &str) -> (r: String)
    ensures
        r@ == error_line_text(msg@),
{
    let mut s = String::from_str("error: `");
    s.append(msg);
    s.append("`");
    s
}

/// The configuration when no option is supplied.
pub open spec fn default_config() -> ArgsV {
    ArgsV {
        tick_rate: DEFAULT_TICK_RATE,
        kernel_docs: None,
        section: None,
        search_query: None,
        no_docs: false,
    }
}

/// Resolution over a match-set: help first, then version, then the
/// configuration, with the refresh interval parsed and defaulted, the
/// section coerced through the open mapping, and the other values
/// carried unchanged.
pub open spec fn resolve_spec(vals: Seq<Seq<Option<Seq<char>>>>) -> OutcomeV {
    if present_spec(the_schema(), vals, "h"@) {
        OutcomeV::Help
    } else if present_spec(the_schema(), vals, "V"@) {
        OutcomeV::Version
    } else {
        let tick = match value_spec(the_schema(), vals, "t"@) {
            None => Ok(DEFAULT_TICK_RATE),
            Some(s) => u64_from_chars(s),
        };
        match tick {
            Err(e) => OutcomeV::Error(error_line_text(num_error_text(e))),
            Ok(tv) => OutcomeV::Ready(
                ArgsV {
                    tick_rate: tv,
                    kernel_docs: value_spec(the_schema(), vals, "D"@),
                    section: match value_spec(the_schema(), vals, "s"@) {
                        Some(s) => Some(section_of(s)),
                        None => None,
                    },
                    search_query: value_spec(the_schema(), vals, "q"@),
                    no_docs: present_spec(the_schema(), vals, "n"@),
                },
            ),
        }
    }
}

/// Resolves a match-set into an outcome.
pub fn resolve(m: &Matches) -> (r: Outcome)
    requires
        m.wf(),
        m.opts_view() == the_schema(),
    ensures
        r@ == resolve_spec(m.vals_view()),
{
    proof {
        lemma_schema_names();
    }
    if m.opt_present("h") {
        Outcome::Help
    } else if m.opt_present("V") {
        Outcome::Version
    } else {
        let tick: u64 = match m.opt_str("t") {
            None => DEFAULT_TICK_RATE,
            Some(s) => match parse_u64(s.as_str()) {
                Ok(v) => v,
                Err(e) => {
                    return Outcome::Error(error_line(num_error_message(&e)));
                },
            },
        };
        let kernel_docs = m.opt_str("D");
        let section = match m.opt_str("s") {
            Some(s) => Some(Section::from_name(s)),
            None => None,
        };
        let search_query = m.opt_str("q");
        let no_docs = m.opt_present("n");
        Outcome::Ready(
            Args { tick_rate: tick, kernel_docs, section, search_query, no_docs },
        )
    }
}

/// One usage line for one option, ending in a newline.
pub open spec fn usage_line_text(o: OptDefV) -> Seq<char> {
    "    -"@ + o.short + ", --"@ + o.long + (if o.hint.len() > 0 {
        " "@ + o.hint
    } else {
        Seq::<char>::empty()
    }) + "  "@ + o.desc + "\n"@
}

/// The usage lines of a schema, in order.
pub open spec fn usage_lines_text(opts: Seq<OptDefV>) -> Seq<char>
    decreases opts.len(),
{
    if opts.len() == 0 {
        Seq::empty()
    } else {
        usage_line_text(opts[0]) + usage_lines_text(opts.drop_first())
    }
}

/// The whole usage message: program name, one line per registered
/// option, and the manual page reference.
pub open spec fn usage_text() -> Seq<char> {
    "\nUsage:\n    "@ + spec_program_name() + " [options]\n\nOptions:\n"@ + usage_lines_text(
        the_schema(),
    ) + "\nFor more details see "@ + spec_program_name() + "(8)."@
}

/// Builds the usage message.
pub fn usage() -> (r: String)
    ensures
        r@ == usage_text(),
{
    let opts = Args::get_options();
    let mut s = String::from_str("\nUsage:\n    ");
    s.append(program_name());
    s.append(" [options]\n\nOptions:\n");
    let ghost head = s@;
    let mut i: usize = 0;
    proof {
        assert(the_schema().skip(0) =~= the_schema());
    }
    while i < opts.len()
        invariant
            opts.deep_view() == the_schema(),
            opts.deep_view().len() == opts@.len(),
            i <= opts@.len(),
            head + usage_lines_text(the_schema()) == s@ + usage_lines_text(
                the_schema().skip(i as int),
            ),
        decreases opts@.len() - i,
    {
        let ghost s0 = s@;
        let o = &opts[i];
        s.append("    -");
        s.append(o.short.as_str());
        s.append(", --");
        s.append(o.long.as_str());
        if o.hint.as_str().unicode_len() > 0 {
            s.append(" ");
            s.append(o.hint.as_str());
        }
        s.append("  ");
        s.append(o.desc.as_str());
        s.append("\n");
        proof {
            assert(s@ =~= s0 + usage_line_text(o@));
            assert(the_schema().skip(i as int)[0] == o@);
            assert(the_schema().skip(i as int).drop_first() =~= the_schema().skip(i as int + 1));
            assert(s0 + usage_lines_text(the_schema().skip(i as int)) =~= s@ + usage_lines_text(
                the_schema().skip(i as int + 1),
            ));
        }
        i += 1;
    }
    proof {
        assert(usage_lines_text(the_schema().skip(opts@.len() as int)) =~= Seq::<char>::empty());
        assert(s@ =~= head + usage_lines_text(the_schema()));
    }
    s.append("\nFor more details see ");
    s.append(program_name());
    s.append("(8).");
    proof {
        assert(s@ =~= usage_text());
    }
    s
}

/// The one-line version message.
pub open spec fn version_line_text() -> Seq<char> {
    spec_program_name() + " "@ + spec_program_version()
}

/// Builds the one-line version message: program name and version.
pub fn version_line() -> (r: String)
    ensures
        r@ == version_line_text(),
{
    let mut s = String::new();
    s.append(program_name());
    s.append(" ");
    s.append(program_version());
    proof {
        assert(s@ =~= version_line_text());
    }
    s
}

/// The outcome for a whole token list: a parse failure is reported as an
/// error line; otherwise the match-set is resolved.
pub open spec fn outcome_spec(toks: Seq<Seq<char>>) -> OutcomeV {
    match parse_spec(the_schema(), toks) {
        Err(f) => OutcomeV::Error(error_line_text(fail_text(f))),
        Ok(vals) => resolve_spec(vals),
    }
}

impl Args {
    /// Returns the available options.
    pub fn get_options() -> (r: Vec<OptDef>)
        ensures
            r.deep_view() == the_schema(),
    {
        let mut opts: Vec<OptDef> = Vec::new();
        opts.push(
            OptDef {
                short: String::from_str("t"),
                long: String::from_str("tick-rate"),
                hint: String::from_str("<ms>"),
                desc: String::from_str("set the tick rate of the terminal [default: 250]"),
                takes_value: true,
            },
        );
        opts.push(
            OptDef {
                short: String::from_str("D"),
                long: String::from_str("docs"),
                hint: String::from_str("<path>"),
                desc: String::from_str("set the path of the kernel documentation"),
                takes_value: true,
            },
        );
        opts.push(
            OptDef {
                short: String::from_str("s"),
                long: String::from_str("section"),
                hint: String::from_str("<section>"),
                desc: String::from_str("set the section to filter"),
                takes_value: true,
            },
        );
        opts.push(
            OptDef {
                short: String::from_str("q"),
                long: String::from_str("query"),
                hint: String::from_str("<query>"),
                desc: String::from_str("set the query to search"),
                takes_value: true,
            },
        );
        opts.push(
            OptDef {
                short: String::from_str("n"),
                long: String::from_str("no-docs"),
                hint: String::from_str(""),
                desc: String::from_str("do not show the kernel documentation"),
                takes_value: false,
            },
        );
        opts.push(
            OptDef {
                short: String::from_str("h"),
                long: String::from_str("help"),
                hint: String::from_str(""),
                desc: String::from_str("display this help and exit"),
                takes_value: false,
            },
        );
        opts.push(
            OptDef {
                short: String::from_str("V"),
                long: String::from_str("version"),
                hint: String::from_str(""),
                desc: String::from_str("output version information and exit"),
                takes_value: false,
            },
        );
        proof {
            assert(opts.deep_view() =~= the_schema());
        }
        opts
    }

    /// Parses the command-line arguments: the first token is the program
    /// name; the remaining tokens are validated against the registry and
    /// resolved into an outcome.
    pub fn parse(env_args: Vec<String>) -> (r: Outcome)
        requires
            env_args@.len() >= 1,
        ensures
            r@ == outcome_spec(env_args.deep_view().drop_first()),
    {
        let opts = Self::get_options();
        let mut rest = env_args;
        let tail = rest.split_off(1);
        proof {
            assert(tail.deep_view() =~= env_args.deep_view().drop_first());
        }
        match parse_tokens(opts, &tail) {
            Err(e) => Outcome::Error(error_line(e.message().as_str())),
            Ok(m) => resolve(&m),
        }
    }
}

} // verus!
