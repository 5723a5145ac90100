use vstd::prelude::*;

verus! {

/// Why a command over a dataset could not be carried out.
#[derive(Debug)]
pub enum AnalysisError {
    /// The header row could not be read.
    HeaderUnreadable,
    /// A record could not be read while the rows were walked.
    RecordUnreadable,
    /// No header field equals the named column exactly.
    ColumnNotFound(String),
}

/// `a` and `b` report the same thing.
pub open spec fn same_error(a: AnalysisError, b: AnalysisError) -> bool {
    match (a, b) {
        (AnalysisError::HeaderUnreadable, AnalysisError::HeaderUnreadable) => true,
        (AnalysisError::RecordUnreadable, AnalysisError::RecordUnreadable) => true,
        (AnalysisError::ColumnNotFound(x), AnalysisError::ColumnNotFound(y)) => x@ == y@,
        _ => false,
    }
}

} // verus!
