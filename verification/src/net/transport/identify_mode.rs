//! When an identify payload is to be sent.

use vstd::prelude::*;

verus! {

/// The timing that a callback asks for its identify payload.
#[derive(Debug, Clone, Copy, PartialEq, Eq, Structural)]
pub enum Mode {
    /// Send it at once.
    Now,
    /// Send nothing.
    Never,
    /// Send it later, after so many milliseconds. Not acted upon yet.
    Delayed(u64),
}

} // verus!
