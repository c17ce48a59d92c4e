use vstd::prelude::*;

pub mod config;
pub mod dates;
pub mod laws;
pub mod query;
pub mod report;
pub mod rx;
pub mod scan;
pub mod text;

verus! {

/// Why a query failed before or during the scan.
#[derive(Clone, Copy, Debug, PartialEq, Eq, Structural)]
pub enum QueryError {
    /// A configured pattern is missing or does not compile.
    InvalidConfig,
    /// Structured output was requested for a file with no binding.
    UnresolvedFileType,
    /// A selected line did not yield a full record; `line` is its
    /// zero-based position in the input.
    LineExtractionFailure { line: usize },
    /// The date-range filter string could not be parsed.
    InvalidDateFilter,
}

impl QueryError {
    /// A short description of the error, for reporting.
    pub fn describe(&self) -> (r: String)
        ensures
            (match self {
                QueryError::InvalidConfig => r@ == "invalid configuration"@,
                QueryError::UnresolvedFileType => r@ == "no log type is bound to this file"@,
                QueryError::LineExtractionFailure { .. } => r@
                    == "a selected line does not fit the configured pattern"@,
                QueryError::InvalidDateFilter => r@ == "malformed date filter"@,
            }),
    {
        match self {
            QueryError::InvalidConfig => "invalid configuration".to_owned(),
            QueryError::UnresolvedFileType => "no log type is bound to this file".to_owned(),
            QueryError::LineExtractionFailure { .. } => "a selected line does not fit the configured pattern".to_owned(),
            QueryError::InvalidDateFilter => "malformed date filter".to_owned(),
        }
    }
}

/// Whether `c` is one of the whitespace characters stripped from the ends of
/// a raw output line.
pub open spec fn is_space(c: char) -> bool {
    c == ' ' || c == '\t' || c == '\r' || c == '\n'
}

/// Whether `c` counts as whitespace for trimming, as executable code.
pub fn is_space_char(c: char) -> (r: bool)
    ensures
        r == is_space(c),
{
    c == ' ' || c == '\t' || c == '\r' || c == '\n'
}

} // verus!
