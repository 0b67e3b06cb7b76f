//! How long a snapshot stays in use.
//!
//! A snapshot is replaced as a whole. Nothing replaces it in the
//! background: the reader that first finds it too old has a new one taken.

use vstd::prelude::*;

verus! {

/// The age in nanoseconds up to which a snapshot stays in use: ten seconds.
pub const TIME_TO_LIVE_NANOS: u128 = 10_000_000_000;

/// What is done for a reader that asks for the snapshot.
#[derive(Debug, Clone, Copy, PartialEq, Eq, Structural)]
pub enum Refresh {
    /// The snapshot at hand is handed out.
    Keep,
    /// A new snapshot is taken first; where that fails, the one at hand,
    /// if any, is handed out.
    Fetch,
}

/// Whether a snapshot of the age `age`, in nanoseconds, is too old to be
/// handed out as it is; `None` stands for no snapshot at all.
pub open spec fn outdated(age: Option<u128>) -> bool {
    match age {
        Some(nanos) => nanos > TIME_TO_LIVE_NANOS,
        None => true,
    }
}

/// What is done for a reader that finds a snapshot of the age `age`, in
/// nanoseconds, or none.
pub fn on_read(age: Option<u128>) -> (r: Refresh)
    ensures
        r == (if outdated(age) {
            Refresh::Fetch
        } else {
            Refresh::Keep
        }),
{
    match age {
        Some(nanos) => if nanos > TIME_TO_LIVE_NANOS {
            Refresh::Fetch
        } else {
            Refresh::Keep
        },
        None => Refresh::Fetch,
    }
}

} // verus!
