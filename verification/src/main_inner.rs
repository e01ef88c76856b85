//! The decisions of a round of the program: checking the connection,
//! reacting to a failure, and ending the round.
use vstd::prelude::*;
use crate::search_api::{STATUS_OK, STATUS_NOT_FOUND, STATUS_TOO_MANY_REQUESTS};

verus! {

/// Whether the test request lets the round go on: 200, and also 404 and 429,
/// which the API answers at random.
pub fn connection_test_passed(status: u16) -> (r: bool)
    ensures
        r == (status == STATUS_OK || status == STATUS_NOT_FOUND || status == STATUS_TOO_MANY_REQUESTS),
{
    status == STATUS_OK || status == STATUS_NOT_FOUND || status == STATUS_TOO_MANY_REQUESTS
}

/// What a failure while setting up a round leads to.
#[derive(Clone, Copy, Debug, PartialEq, Eq, Structural)]
pub enum OnRoundFailure {
    /// Client mode: end the program with the error.
    Abort,
    /// Server mode: log the error and go to sleep until the next round.
    SkipRound,
}

pub fn on_round_failure(server_mode: bool) -> (r: OnRoundFailure)
    ensures
        r == (if server_mode { OnRoundFailure::SkipRound } else { OnRoundFailure::Abort }),
{
    if server_mode {
        OnRoundFailure::SkipRound
    } else {
        OnRoundFailure::Abort
    }
}

/// What follows a round that downloaded its list.
#[derive(Clone, Copy, Debug, PartialEq, Eq, Structural)]
pub enum AfterRound {
    /// Client mode: end the program.
    Exit,
    /// Server mode: delete the downloadme file, sleep, and start again.
    CleanUpAndSleep,
}

pub fn after_round(server_mode: bool) -> (r: AfterRound)
    ensures
        r == (if server_mode { AfterRound::CleanUpAndSleep } else { AfterRound::Exit }),
{
    if server_mode {
        AfterRound::CleanUpAndSleep
    } else {
        AfterRound::Exit
    }
}

/// The `Cookie` header: `"cf_clearance={cf_clearance}; csrftoken={csrftoken}"`.
pub fn cookie_header(cf_clearance: &str, csrftoken: &str) -> (r: String)
    ensures
        r@ == "cf_clearance="@ + cf_clearance@ + "; csrftoken="@ + csrftoken@,
{
    let mut r = String::new();
    r.append("cf_clearance=");
    r.append(cf_clearance);
    r.append("; csrftoken=");
    r.append(csrftoken);
    r
}

} // verus!
