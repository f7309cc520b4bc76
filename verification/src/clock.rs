//! The node's view of wall-clock time: trusted wrappers over chrono.

use vstd::prelude::*;
use crate::text::json_stringable;

verus! {

/// Relies on `chrono::Utc::now` and the default rendering of a UTC
/// timestamp: printable ASCII text such as `2009-01-03 18:15:05 UTC`. The
/// value depends on the clock, so nothing more is promised of it.
#[verifier::external_body]
pub(crate) fn now_utc_text() -> (r: String)
    ensures
        json_stringable(r@),
{
    chrono::Utc::now().to_string()
}

/// Relies on `chrono::Utc::now` and `format`: a printable ASCII timestamp
/// of the shape `2009-01-03 18:15:05` for log lines. The value depends on
/// the clock, so nothing more is promised of it.
#[verifier::external_body]
pub(crate) fn now_log_text() -> (r: String)
    ensures
        json_stringable(r@),
{
    chrono::Utc::now().format("%Y-%m-%d %H:%M:%S").to_string()
}

} // verus!
