//! The recognized output-format selectors.

use vstd::prelude::*;
use crate::text::str_eq;

verus! {

/// The two recognized rendering modes; any other selector is rejected.
#[derive(Clone, Copy, Debug, PartialEq, Eq, Structural)]
pub enum OutputFormat {
    Table,
    Json,
}

/// The format a selector denotes, or `None` for an unrecognized one.
pub open spec fn output_format_of(s: Seq<char>) -> Option<OutputFormat> {
    if s == "table"@ {
        Some(OutputFormat::Table)
    } else if s == "json"@ {
        Some(OutputFormat::Json)
    } else {
        None
    }
}

/// Parses an output-format selector.
pub fn parse_output_format(s: &str) -> (r: Option<OutputFormat>)
    ensures
        r == output_format_of(s@),
{
    if str_eq(s, "table") {
        Some(OutputFormat::Table)
    } else if str_eq(s, "json") {
        Some(OutputFormat::Json)
    } else {
        None
    }
}

} // verus!
