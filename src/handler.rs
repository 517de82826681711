use vstd::prelude::*;
use crate::auth::ApiConfig;
use crate::model::{Test, TestRequest, selection};
use crate::select::process_test_data;

verus! {

/// What an accepted request gets back: the selected items and how long the
/// selection took, in nanoseconds.
#[derive(Debug)]
pub struct TestResponse {
    pub test_results: Vec<Test>,
    pub duration_nanos: u128,
}

/// The outcome of a request: refused for a wrong secret, with nothing else
/// done, or accepted with its response.
#[derive(Debug)]
pub enum Reply {
    Forbidden,
    Accepted(TestResponse),
}

/// Relies on std::time::SystemTime::now, read as nanoseconds since the Unix
/// epoch (0 for a clock set before it). Nothing is promised of the reading:
/// the clock may even go backwards between two calls.
#[verifier::external_body]
fn clock_nanos() -> u128 {
    std::time::SystemTime::now().duration_since(std::time::UNIX_EPOCH).unwrap_or_default().as_nanos()
}

/// The time from `start` to `end`, or zero when the clock went backwards.
pub fn elapsed_nanos(start: u128, end: u128) -> (r: u128)
    ensures
        r == (if end >= start {
            end - start
        } else {
            0
        }),
{
    if end >= start {
        end - start
    } else {
        0
    }
}

/// Handles one request: refuses it when its secret is not the configured
/// key, and otherwise selects from its items and times the selection.
pub fn run_test_handler(config: &ApiConfig, test_request: TestRequest) -> (r: Reply)
    ensures
        r is Forbidden <==> !config.accepts(test_request.secret@),
        r matches Reply::Accepted(resp) ==> resp.test_results@ == selection(
            test_request.tests@,
            test_request.budget,
        ),
{
    if !config.authorize(&test_request.secret) {
        return Reply::Forbidden;
    }
    let mut request = test_request;
    let start = clock_nanos();
    let test_results = process_test_data(&mut request);
    let end = clock_nanos();
    Reply::Accepted(TestResponse { test_results, duration_nanos: elapsed_nanos(start, end) })
}

} // verus!
