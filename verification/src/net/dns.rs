//! Questions for names.

use vstd::prelude::*;

verus! {

/// What became of a question.
pub enum QueryResult {
    /// It was answered.
    Addresses(Vec<u32>),
    Pending,
    Failed,
}

/// What asking for an answer comes to.
pub enum QueryOutcome {
    Ready(Vec<u32>),
    /// No answer yet: wake the caller when there is one.
    Pending,
    /// There is no such name.
    NoEntry,
}

/// Decides what asking for an answer comes to.
pub fn get_query_result(result: QueryResult) -> (r: QueryOutcome)
    ensures
        match result {
            QueryResult::Addresses(a) => r matches QueryOutcome::Ready(b) && b@ == a@,
            QueryResult::Pending => r is Pending,
            QueryResult::Failed => r is NoEntry,
        },
{
    match result {
        QueryResult::Addresses(a) => QueryOutcome::Ready(a),
        QueryResult::Pending => QueryOutcome::Pending,
        QueryResult::Failed => QueryOutcome::NoEntry,
    }
}

} // verus!
