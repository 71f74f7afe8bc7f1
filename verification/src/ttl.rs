//! How long the group's ledger entries are kept alive.
use vstd::prelude::*;

verus! {

/// The least time to live, in ledgers (about 30 days at 5 s per ledger).
pub const LEDGERS_TO_LIVE: u32 = 518_400;

/// Ledgers in a day at 5 s per ledger.
pub const LEDGERS_PER_DAY: u32 = 17_280;

/// A request to keep an entry alive for `extend_to` ledgers whenever its
/// remaining life has dropped below `threshold`.
#[derive(Clone, Copy, PartialEq, Eq, Structural, Debug)]
pub struct TtlExtension {
    pub threshold: u32,
    pub extend_to: u32,
}

/// The life of a whole rotation: one cycle per member, saturated at
/// `u32::MAX`, and never below [`LEDGERS_TO_LIVE`].
pub open spec fn rotation_life(cycle_len: u32, member_count: u32) -> int {
    let product = cycle_len * member_count;
    let saturated = if product > u32::MAX { u32::MAX as int } else { product };
    if saturated >= LEDGERS_TO_LIVE { saturated } else { LEDGERS_TO_LIVE as int }
}

/// The extension that keeps the group alive for a full rotation of
/// `member_count` cycles of `cycle_len` ledgers each.
pub fn rotation_ttl(cycle_len: u32, member_count: u32) -> (r: TtlExtension)
    ensures
        r.extend_to == rotation_life(cycle_len, member_count),
        r.threshold == r.extend_to / 2,
        r.extend_to >= LEDGERS_TO_LIVE,
{
    let saturated: u32 = match cycle_len.checked_mul(member_count) {
        Some(p) => p,
        None => u32::MAX,
    };
    let ttl: u32 = if saturated >= LEDGERS_TO_LIVE { saturated } else { LEDGERS_TO_LIVE };
    TtlExtension { threshold: ttl / 2, extend_to: ttl }
}

/// The fixed extension of a member's savings record.
pub fn fixed_ttl() -> (r: TtlExtension)
    ensures
        r.extend_to == LEDGERS_TO_LIVE,
        r.threshold == LEDGERS_TO_LIVE / 2,
{
    TtlExtension { threshold: LEDGERS_TO_LIVE / 2, extend_to: LEDGERS_TO_LIVE }
}

} // verus!
