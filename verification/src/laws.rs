//! General laws of the resolver, stated over whole token lists.

use vstd::prelude::*;

use crate::args::{default_config, error_line_text, outcome_spec, resolve_spec, OutcomeV};
use crate::num::{num_error_text, u64_from_chars, NumError};
use crate::opts::{lemma_schema_names, present_spec, the_schema, value_spec};
use crate::parser::{dup_check, empty_vals, is_free_tok, parse_loop_spec, parse_spec, FailV};

verus! {

/// Free tokens leave any match-set unchanged.
proof fn lemma_free_parse(
    toks: Seq<Seq<char>>,
    vals: Seq<Seq<Option<Seq<char>>>>,
)
    requires
        forall|i: int| 0 <= i < toks.len() ==> is_free_tok(#[trigger] toks[i]),
    ensures
        parse_loop_spec(the_schema(), toks, vals) == Ok::<_, FailV>(vals),
    decreases toks.len(),
{
    if toks.len() > 0 {
        let rest = toks.drop_first();
        assert(forall|i: int| 0 <= i < rest.len() ==> rest[i] == #[trigger] toks[i + 1]);
        lemma_free_parse(rest, vals);
    }
}

/// A match-set with no occurrences passes the duplicate check.
proof fn lemma_empty_dup_check(k: nat)
    requires
        k <= the_schema().len(),
    ensures
        dup_check(the_schema(), empty_vals(the_schema().len()), k) is None,
    decreases the_schema().len() - k,
{
    if k < the_schema().len() {
        lemma_empty_dup_check(k + 1);
    }
}

/// A token list containing no recognized options — every token is free —
/// yields the default configuration: refresh interval 250, no
/// documentation path, no section, no query, and documentation shown.
pub proof fn lemma_no_options_defaults(toks: Seq<Seq<char>>)
    requires
        forall|i: int| 0 <= i < toks.len() ==> is_free_tok(#[trigger] toks[i]),
    ensures
        outcome_spec(toks) == OutcomeV::Ready(default_config()),
{
    let vals = empty_vals(the_schema().len());
    lemma_free_parse(toks, vals);
    lemma_empty_dup_check(0);
    lemma_schema_names();
    assert(parse_spec(the_schema(), toks) == Ok::<_, FailV>(vals));
    assert(resolve_spec(vals) == OutcomeV::Ready(default_config()));
}

/// With help and version absent, a valid non-negative integer supplied
/// for tick-rate becomes the configuration's refresh interval exactly,
/// whatever other options are supplied and in whatever order.
pub proof fn lemma_tick_rate_exact(
    toks: Seq<Seq<char>>,
    vals: Seq<Seq<Option<Seq<char>>>>,
    s: Seq<char>,
    v: u64,
)
    requires
        parse_spec(the_schema(), toks) == Ok::<Seq<Seq<Option<Seq<char>>>>, FailV>(vals),
        !present_spec(the_schema(), vals, "h"@),
        !present_spec(the_schema(), vals, "V"@),
        value_spec(the_schema(), vals, "t"@) == Some(s),
        u64_from_chars(s) == Ok::<u64, NumError>(v),
    ensures
        outcome_spec(toks) matches OutcomeV::Ready(cfg) && cfg.tick_rate == v,
{
}

/// Help wins: a successfully parsed token list in which the help flag
/// occurs yields the help exit and no configuration, whatever else
/// occurs beside it.
pub proof fn lemma_help_overrides(toks: Seq<Seq<char>>, vals: Seq<Seq<Option<Seq<char>>>>)
    requires
        parse_spec(the_schema(), toks) == Ok::<Seq<Seq<Option<Seq<char>>>>, FailV>(vals),
        present_spec(the_schema(), vals, "h"@),
    ensures
        outcome_spec(toks) == OutcomeV::Help,
{
}

/// With help absent, a successfully parsed token list in which the
/// version flag occurs yields the version exit and no configuration.
pub proof fn lemma_version_exit(toks: Seq<Seq<char>>, vals: Seq<Seq<Option<Seq<char>>>>)
    requires
        parse_spec(the_schema(), toks) == Ok::<Seq<Seq<Option<Seq<char>>>>, FailV>(vals),
        !present_spec(the_schema(), vals, "h"@),
        present_spec(the_schema(), vals, "V"@),
    ensures
        outcome_spec(toks) == OutcomeV::Version,
{
}

/// With help and version absent, a tick-rate value that fails integer
/// parsing yields exactly the reported error line and no configuration.
pub proof fn lemma_tick_rate_error(
    toks: Seq<Seq<char>>,
    vals: Seq<Seq<Option<Seq<char>>>>,
    s: Seq<char>,
    e: NumError,
)
    requires
        parse_spec(the_schema(), toks) == Ok::<Seq<Seq<Option<Seq<char>>>>, FailV>(vals),
        !present_spec(the_schema(), vals, "h"@),
        !present_spec(the_schema(), vals, "V"@),
        value_spec(the_schema(), vals, "t"@) == Some(s),
        u64_from_chars(s) == Err::<u64, NumError>(e),
    ensures
        outcome_spec(toks) == OutcomeV::Error(error_line_text(num_error_text(e))),
{
}

} // verus!
