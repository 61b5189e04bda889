use vstd::prelude::*;

verus! {

/// Errors of the scheduling library.
///
/// Construction of a schedule fails fast on ill-formed configuration;
/// resolution fails explicitly where a calendar combination does not name
/// a single instant, or where an instant difference is unrepresentable.
#[derive(Debug, Clone, PartialEq, Eq)]
pub enum Error {
    /// A schedule was configured with no items, no tables, or a
    /// non-positive duration or span.
    InvalidScheduleConfig,
    /// An instant difference or sum fell outside the representable range.
    TemporalRangeExceeded,
    /// A calendar date/time combination did not name a single local instant.
    AmbiguousLocalTime,
    /// A well-formedness invariant that construction guarantees was found
    /// broken at query time.
    ScheduleInvariantViolated,
    /// More calls were made within the reset interval than the limit allows.
    ExceedRateLimit(usize),
    /// A content item referred to a monster identifier the catalog lacks.
    UnknownMonsterId(String),
    /// Stored temporary data did not parse as a decimal integer.
    TmpDataFormat(String),
}

} // verus!
