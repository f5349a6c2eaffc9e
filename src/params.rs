use vstd::prelude::*;

verus! {

/// Number of Ethereum blocks during which a priority operation stays eligible
/// for execution.
pub const PRIORITY_EXPIRATION: u64 = 35000;

/// Seconds during which polling is suspended after the provider reported a
/// rate limit.
pub const RATE_LIMIT_DELAY_SECS: u64 = 30;

} // verus!
