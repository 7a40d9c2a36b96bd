//! Severity levels for log records and the display-side severity filter.
//!
//! Severities are totally ordered with `Error` the most severe and `Trace`
//! the least severe. A filter admits a record exactly when the record's
//! severity is at least as severe as the filter's threshold; the `Off`
//! threshold admits nothing.

use vstd::prelude::*;

verus! {

/// The importance level of a single log record, most severe first.
#[derive(Clone, Copy, Debug, PartialEq, Eq, Structural)]
pub enum Severity {
    Error,
    Warn,
    Info,
    Debug,
    Trace,
}

/// A display-side threshold: records at least as severe as the threshold
/// are shown. `Off` shows nothing.
#[derive(Clone, Copy, Debug, PartialEq, Eq, Structural)]
pub enum SeverityFilter {
    Off,
    Error,
    Warn,
    Info,
    Debug,
    Trace,
}

/// Numeric rank of a severity; smaller is more severe.
pub open spec fn severity_rank(s: Severity) -> nat {
    match s {
        Severity::Error => 1,
        Severity::Warn => 2,
        Severity::Info => 3,
        Severity::Debug => 4,
        Severity::Trace => 5,
    }
}

/// Numeric rank of a filter threshold; a larger rank admits more severities.
pub open spec fn filter_rank(f: SeverityFilter) -> nat {
    match f {
        SeverityFilter::Off => 0,
        SeverityFilter::Error => 1,
        SeverityFilter::Warn => 2,
        SeverityFilter::Info => 3,
        SeverityFilter::Debug => 4,
        SeverityFilter::Trace => 5,
    }
}

/// Whether a record of severity `s` passes the threshold `f`.
pub open spec fn admits(f: SeverityFilter, s: Severity) -> bool {
    severity_rank(s) <= filter_rank(f)
}

fn severity_rank_exec(s: Severity) -> (r: u8)
    ensures
        r as nat == severity_rank(s),
{
    match s {
        Severity::Error => 1,
        Severity::Warn => 2,
        Severity::Info => 3,
        Severity::Debug => 4,
        Severity::Trace => 5,
    }
}

fn filter_rank_exec(f: SeverityFilter) -> (r: u8)
    ensures
        r as nat == filter_rank(f),
{
    match f {
        SeverityFilter::Off => 0,
        SeverityFilter::Error => 1,
        SeverityFilter::Warn => 2,
        SeverityFilter::Info => 3,
        SeverityFilter::Debug => 4,
        SeverityFilter::Trace => 5,
    }
}

/// Decides whether a record of severity `s` passes the threshold `f`.
pub fn severity_admitted(f: SeverityFilter, s: Severity) -> (b: bool)
    ensures
        b == admits(f, s),
{
    severity_rank_exec(s) <= filter_rank_exec(f)
}

} // verus!
