//! What the logging around the handlers looks at.

use crate::text::text_eq;
use vstd::prelude::*;

verus! {

/// The status that says that a body could not be read as what was
/// expected.
pub const UNPROCESSABLE_ENTITY: u16 = 422;

/// Whether a request with this method and path carries a batch of
/// changes, so that its body is worth logging.
pub open spec fn carries_batch(method: Seq<char>, path: Seq<char>) -> bool {
    method == "POST"@ && path == "/records"@
}

/// Whether a request with this method and path carries a batch of
/// changes.
pub fn logs_body(method: &str, path: &str) -> (logged: bool)
    ensures
        logged == carries_batch(method@, path@),
{
    text_eq(method, "POST") && text_eq(path, "/records")
}

/// Whether `status` reports a failure: an error of the client or of the
/// server.
pub fn reports_failure(status: u16) -> (failed: bool)
    ensures
        failed == (400 <= status < 600),
{
    400 <= status && status < 600
}

/// Whether `status` says that a body could not be read.
pub fn is_unprocessable(status: u16) -> (unreadable: bool)
    ensures
        unreadable == (status == UNPROCESSABLE_ENTITY),
{
    status == UNPROCESSABLE_ENTITY
}

} // verus!
