use vstd::prelude::*;

use crate::config::AutoInvite;

verus! {

/// Relies on rand::random_range over `lo..hi` for `u64`: it returns a
/// value of the half-open range, and panics only on an empty range, which
/// the precondition rules out.
#[verifier::external_body]
fn random_in_range(lo: u64, hi: u64) -> (r: u64)
    requires
        lo < hi,
    ensures
        lo <= r < hi,
{
    rand::random_range(lo..hi)
}

/// The delay, in seconds, before an auto-invite fires: drawn fresh for
/// every join, at least the configured minimum and under the maximum.
pub fn invite_delay_secs(cfg: &AutoInvite) -> (r: u64)
    requires
        cfg.delay_min < cfg.delay_max,
    ensures
        cfg.delay_min <= r < cfg.delay_max,
{
    random_in_range(cfg.delay_min, cfg.delay_max)
}

/// Whether the configured delay bounds form a real range; the consumer
/// refuses to start otherwise instead of failing at the first join.
pub fn delay_bounds_ok(cfg: &AutoInvite) -> (r: bool)
    ensures
        r == (cfg.delay_min < cfg.delay_max),
{
    cfg.delay_min < cfg.delay_max
}

} // verus!
