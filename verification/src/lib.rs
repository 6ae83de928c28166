//! Command-line startup configuration for a terminal sysctl browser.
//!
//! The crate resolves raw process arguments into a validated configuration:
//! a fixed option schema, a token parser producing a match-set, and a
//! resolver that applies defaults and coercions or signals an early exit
//! (help, version, or a reported error).

use vstd::prelude::*;

pub mod args;
pub mod laws;
pub mod num;
pub mod opts;
pub mod parser;
pub mod section;
mod text;

verus! {

/// The program name used in usage and version messages.
pub open spec fn spec_program_name() -> Seq<char> {
    "systeroid-tui"@
}

/// The version string used in the version message.
pub open spec fn spec_program_version() -> Seq<char> {
    "0.1.0"@
}

/// Returns the program name shown in usage and version output.
pub fn program_name() -> (r: &'static str)
    ensures
        r@ == spec_program_name(),
{
    "systeroid-tui"
}

/// Returns the version string shown in version output.
pub fn program_version() -> (r: &'static str)
    ensures
        r@ == spec_program_version(),
{
    "0.1.0"
}

} // verus!
