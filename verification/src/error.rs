//! The failures that the engine reports.

use vstd::prelude::*;

verus! {

/// Why an operation on the store did not complete.
#[derive(Debug, Clone, Copy, PartialEq, Eq, Structural)]
pub enum Error {
    /// A schema step could not be applied; `version` is the version it would have installed.
    Migration { version: u32 },
    /// An aggregate or a lookup could not be read.
    Query,
    /// An append or an update did not complete.
    Write,
    /// A weight was not written as a non-negative integer.
    InvalidArgument,
    /// A weighted choice was asked for among no active options.
    EmptySelection,
}

/// The result of a write that completes exactly when `done` holds.
pub open spec fn written(done: bool) -> Result<(), Error> {
    if done {
        Ok(())
    } else {
        Err(Error::Write)
    }
}

} // verus!
