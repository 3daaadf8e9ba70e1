use vstd::prelude::*;

use crate::arith::{mul_div, mul_div_clamped};
use crate::state::{
    tier_yield_bps, upgrade_bps, upgrade_bps_of, PlotTier, ALLIANCE_BONUS_BPS, BPS_ONE,
    GOLDEN_HOUR_BPS, GOLDEN_HOUR_CYCLE_S, GOLDEN_HOUR_WINDOW_S, TRIBE_LEADER_PER_MEMBER,
    TRIBE_MEMBER_BPS,
};

verus! {

/// An amount scaled by a multiplier in basis points, rounded down, computed
/// exactly and capped at `u64::MAX`.
pub open spec fn apply_bps(amount: u64, bps: u64) -> u64 {
    mul_div_clamped(amount, bps, BPS_ONE)
}

/// Tribe multiplier: 1.0x outside a tribe, 1.10x for a member, and for the
/// leader 1.0x plus 5% per other member.
pub open spec fn tribe_bps_of(in_tribe: bool, is_tribe_leader: bool, tribe_members: u8) -> u64 {
    if !in_tribe {
        BPS_ONE
    } else if is_tribe_leader {
        let others: int = if tribe_members == 0 {
            0
        } else {
            tribe_members - 1
        };
        (BPS_ONE + TRIBE_LEADER_PER_MEMBER * others) as u64
    } else {
        TRIBE_MEMBER_BPS
    }
}

/// Alliance multiplier: 1.05x for a member, 1.0x otherwise.
pub open spec fn alliance_bps_of(in_alliance: bool) -> u64 {
    if in_alliance {
        ALLIANCE_BONUS_BPS
    } else {
        BPS_ONE
    }
}

/// Golden-hour multiplier: 1.20x during golden hour, 1.0x otherwise.
pub open spec fn golden_bps_of(golden_hour: bool) -> u64 {
    if golden_hour {
        GOLDEN_HOUR_BPS
    } else {
        BPS_ONE
    }
}

/// The yield of a harvest: the base scaled in turn by the tier, upgrade,
/// tribe, alliance and golden-hour multipliers, each step rounded down. Every
/// multiplier is at least 1.0x, so capping each step at `u64::MAX` caps the
/// exact yield there.
pub open spec fn yield_of(
    base: u64,
    tier: PlotTier,
    upgrade_level: u8,
    in_tribe: bool,
    is_tribe_leader: bool,
    tribe_members: u8,
    in_alliance: bool,
    golden_hour: bool,
) -> u64 {
    let y1 = apply_bps(base, tier_yield_bps(tier));
    let y2 = apply_bps(y1, upgrade_bps_of(upgrade_level));
    let y3 = apply_bps(y2, tribe_bps_of(in_tribe, is_tribe_leader, tribe_members));
    let y4 = apply_bps(y3, alliance_bps_of(in_alliance));
    apply_bps(y4, golden_bps_of(golden_hour))
}

/// Whether a moment lies in golden hour: the first hour of every six-hour
/// cycle counted from time zero.
pub open spec fn golden_hour_at(now: i64) -> bool {
    now % GOLDEN_HOUR_CYCLE_S < GOLDEN_HOUR_WINDOW_S
}

fn scale_bps(amount: u64, bps: u64) -> (r: u64)
    ensures
        r == apply_bps(amount, bps),
{
    mul_div(amount, bps, BPS_ONE)
}

/// Computes the yield of a harvest: tier x upgrade x tribe x alliance x
/// golden hour, applied to the base in that order.
pub fn compute_yield(
    base: u64,
    tier: PlotTier,
    upgrade_level: u8,
    in_tribe: bool,
    is_tribe_leader: bool,
    tribe_members: u8,
    in_alliance: bool,
    golden_hour: bool,
) -> (y: u64)
    ensures
        y == yield_of(
            base,
            tier,
            upgrade_level,
            in_tribe,
            is_tribe_leader,
            tribe_members,
            in_alliance,
            golden_hour,
        ),
{
    let tier_bps = tier.yield_bps();
    let level_bps = upgrade_bps(upgrade_level);
    let tribe_bps = if !in_tribe {
        BPS_ONE
    } else if is_tribe_leader {
        BPS_ONE + TRIBE_LEADER_PER_MEMBER * (tribe_members.saturating_sub(1) as u64)
    } else {
        TRIBE_MEMBER_BPS
    };
    let alliance_bps = if in_alliance {
        ALLIANCE_BONUS_BPS
    } else {
        BPS_ONE
    };
    let golden_bps = if golden_hour {
        GOLDEN_HOUR_BPS
    } else {
        BPS_ONE
    };
    let y1 = scale_bps(base, tier_bps);
    let y2 = scale_bps(y1, level_bps);
    let y3 = scale_bps(y2, tribe_bps);
    let y4 = scale_bps(y3, alliance_bps);
    scale_bps(y4, golden_bps)
}

/// Whether `now` (unix seconds) lies in golden hour: one hour out of every
/// six, counted from time zero.
pub fn is_golden_hour(now: i64) -> (g: bool)
    ensures
        g == golden_hour_at(now),
{
    match now.checked_rem_euclid(GOLDEN_HOUR_CYCLE_S) {
        Some(phase) => phase < GOLDEN_HOUR_WINDOW_S,
        None => false,
    }
}

} // verus!
