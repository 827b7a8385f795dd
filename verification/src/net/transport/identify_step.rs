//! What a callback makes of the server's identify response.

use vstd::prelude::*;

verus! {

/// The verdict on an identify response.
#[derive(Debug, Clone, Copy, PartialEq, Eq, Structural)]
pub enum Step {
    /// The server accepted the identity.
    Success,
    /// The exchange is to be tried again with a fresh payload.
    Retry,
    /// The server refused the identity.
    Fail,
}

} // verus!
