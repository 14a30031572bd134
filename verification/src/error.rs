use vstd::prelude::*;

verus! {

/// Error taxonomy of the run: transport faults (including malformed response
/// bodies), authentication failures, a second consecutive 429 after the one
/// permitted retry, empty search results for a track, playlist mutation
/// failures carrying the offending status code, the duplicate-policy abort,
/// and an empty input batch.
#[derive(Clone, Copy, Debug, PartialEq, Eq, Structural)]
pub enum LbError {
    Transport,
    Auth,
    RateLimitExceeded,
    ResolutionNotFound,
    Reconciliation(u16),
    DuplicatePolicyAbort,
    EmptyBatch,
}

/// Maps the status code of a playlist mutation request to the run's result:
/// 200 is success, 401 is an authentication failure, and every other code is
/// a reconciliation failure carrying the code.
pub fn playlist_change_result(status: u16) -> (r: Result<(), LbError>)
    ensures
        status == 200 <==> r is Ok,
        status == 401 ==> r == Result::<(), LbError>::Err(LbError::Auth),
        status != 200 && status != 401 ==> r == Result::<(), LbError>::Err(
            LbError::Reconciliation(status),
        ),
{
    if status == 200 {
        Ok(())
    } else if status == 401 {
        Err(LbError::Auth)
    } else {
        Err(LbError::Reconciliation(status))
    }
}

} // verus!
