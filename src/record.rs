//! Records of the requests that the server received.
use vstd::prelude::*;

use crate::ids::now_millis;
use crate::params::StringMap;

verus! {

/// A request as it was received, with the time it was recorded.
pub struct RequestRecord {
    pub method: String,
    pub path: String,
    pub query_params: StringMap,
    pub headers: StringMap,
    pub body: Option<String>,
    /// Milliseconds since the Unix epoch.
    pub timestamp: i64,
}

impl RequestRecord {
    /// Records a request, stamped with the current time.
    pub fn new(
        method: String,
        path: String,
        query_params: StringMap,
        headers: StringMap,
        body: Option<String>,
    ) -> (r: RequestRecord)
        ensures
            r.method == method,
            r.path == path,
            r.query_params == query_params,
            r.headers == headers,
            r.body == body,
    {
        RequestRecord { method, path, query_params, headers, body, timestamp: now_millis() }
    }
}

} // verus!
