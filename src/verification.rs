//! Requests and answers of call-count verification.
use vstd::prelude::*;

verus! {

/// How many times a method and path are expected to have been called.
pub struct VerifyRequest {
    pub method: String,
    pub path: String,
    pub times: usize,
}

/// The outcome of a verification: the counts compared, and whether they agree.
pub struct VerifyResponse {
    pub path: String,
    pub method: String,
    pub expected: usize,
    pub actual: usize,
    pub success: bool,
}

impl VerifyResponse {
    /// Compares the expected count with the actual one.
    pub fn new(method: String, path: String, expected: usize, actual: usize) -> (r: VerifyResponse)
        ensures
            r.method == method,
            r.path == path,
            r.expected == expected,
            r.actual == actual,
            r.success == (expected == actual),
    {
        VerifyResponse { method, path, expected, actual, success: expected == actual }
    }
}

} // verus!
