//! Time as the sheriff sees it: milliseconds since the Unix epoch.
use vstd::prelude::*;

verus! {

/// One minute, in milliseconds.
pub const MINUTE_MS: i64 = 60_000;

/// How often the deputy makes its rounds: five minutes, in milliseconds.
pub const PERIOD_MS: i64 = 300_000;

} // verus!
