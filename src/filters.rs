//! Helpers offered to templates.

use std::fmt::Write;
use vstd::prelude::*;

use crate::values::optional_view;

verus! {

/// The UTC time `secs` seconds after the Unix epoch, written with the
/// strftime-style `format`; nothing when the time is out of range or the
/// format is malformed.
pub uninterp spec fn formatted_timestamp(secs: int, format: Seq<char>) -> Option<Seq<char>>;

/// Relies on `chrono::DateTime::from_timestamp` (nothing for seconds out of
/// range) and `chrono::DateTime::format`, written out so that a malformed
/// format yields nothing instead of a panic.
#[verifier::external_body]
fn format_timestamp(secs: i64, format: &str) -> (r: Option<String>)
    ensures
        optional_view(r) == formatted_timestamp(secs as int, format@),
{
    let dt = chrono::DateTime::from_timestamp(secs, 0)?;
    let mut out = String::new();
    write!(out, "{}", dt.format(format)).ok()?;
    Some(out)
}

pub open spec fn default_time_format() -> Seq<char> {
    "%d/%m/%Y %H:%M"@
}

/// The `timeformat` filter: a Unix timestamp written with `format`
/// (`%d/%m/%Y %H:%M` when none is given), or the empty string when it cannot
/// be written.
pub fn timeformat(ts: i64, format: Option<&str>) -> (r: String)
    ensures
        r@ == match formatted_timestamp(
            ts as int,
            match format {
                Some(f) => f@,
                None => default_time_format(),
            },
        ) {
            Some(t) => t,
            None => Seq::empty(),
        },
{
    let f = match format {
        Some(f) => f,
        None => "%d/%m/%Y %H:%M",
    };
    match format_timestamp(ts, f) {
        Some(t) => t,
        None => String::new(),
    }
}

} // verus!
