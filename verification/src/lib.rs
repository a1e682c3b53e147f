pub mod batch;
pub mod dest;
pub mod http;
pub mod paginate;
pub mod workflow;
pub mod json;
pub mod model;
pub mod order;

use vstd::prelude::*;

verus! {

/// A response status is a success exactly when it lies in the 2xx range.
pub open spec fn spec_status_ok(status: u16) -> bool {
    200 <= status <= 299
}

/// Classifies an HTTP status code: success is the 2xx range, everything
/// else is a failure.
pub fn status_ok(status: u16) -> (r: bool)
    ensures
        r == spec_status_ok(status),
{
    200 <= status && status <= 299
}

} // verus!
