use vstd::prelude::*;

use crate::state::{tier_yield_bps, upgrade_bps_of, PlotTier, GOLDEN_HOUR_CYCLE_S};
use crate::yield_engine::{
    alliance_bps_of, apply_bps, golden_bps_of, golden_hour_at, tribe_bps_of, yield_of,
};

verus! {

proof fn lemma_apply_monotone_amount(a1: u64, a2: u64, bps: u64)
    requires
        a1 <= a2,
    ensures
        apply_bps(a1, bps) <= apply_bps(a2, bps),
{
    assert(a1 * bps / 10_000 <= a2 * bps / 10_000) by (nonlinear_arith)
        requires
            a1 <= a2,
            0 <= bps,
    ;
}

proof fn lemma_apply_monotone_bps(a: u64, b1: u64, b2: u64)
    requires
        b1 <= b2,
    ensures
        apply_bps(a, b1) <= apply_bps(a, b2),
{
    assert(a * b1 / 10_000 <= a * b2 / 10_000) by (nonlinear_arith)
        requires
            b1 <= b2,
            0 <= a,
    ;
}

proof fn lemma_apply_neutral(a: u64)
    ensures
        apply_bps(a, 10_000) == a,
{
    assert((a * 10_000) / 10_000 == a) by (nonlinear_arith);
}

/// A larger base never yields less, whatever the multipliers.
pub proof fn law_yield_monotone_in_base(
    base1: u64,
    base2: u64,
    tier: PlotTier,
    upgrade_level: u8,
    in_tribe: bool,
    is_tribe_leader: bool,
    tribe_members: u8,
    in_alliance: bool,
    golden_hour: bool,
)
    requires
        base1 <= base2,
    ensures
        yield_of(base1, tier, upgrade_level, in_tribe, is_tribe_leader, tribe_members, in_alliance, golden_hour)
            <= yield_of(base2, tier, upgrade_level, in_tribe, is_tribe_leader, tribe_members, in_alliance, golden_hour),
{
    let t = tribe_bps_of(in_tribe, is_tribe_leader, tribe_members);
    lemma_apply_monotone_amount(base1, base2, tier_yield_bps(tier));
    let x1 = apply_bps(base1, tier_yield_bps(tier));
    let x2 = apply_bps(base2, tier_yield_bps(tier));
    lemma_apply_monotone_amount(x1, x2, upgrade_bps_of(upgrade_level));
    let y1 = apply_bps(x1, upgrade_bps_of(upgrade_level));
    let y2 = apply_bps(x2, upgrade_bps_of(upgrade_level));
    lemma_apply_monotone_amount(y1, y2, t);
    let z1 = apply_bps(y1, t);
    let z2 = apply_bps(y2, t);
    lemma_apply_monotone_amount(z1, z2, alliance_bps_of(in_alliance));
    let w1 = apply_bps(z1, alliance_bps_of(in_alliance));
    let w2 = apply_bps(z2, alliance_bps_of(in_alliance));
    lemma_apply_monotone_amount(w1, w2, golden_bps_of(golden_hour));
}

/// The multipliers compose on the running amount: scaling an earlier step
/// up never lowers the final yield.
proof fn lemma_rest_monotone(
    v1: u64,
    v2: u64,
    b3: u64,
    b4: u64,
    b5: u64,
)
    requires
        v1 <= v2,
    ensures
        apply_bps(apply_bps(apply_bps(v1, b3), b4), b5) <= apply_bps(apply_bps(apply_bps(v2, b3), b4), b5),
{
    lemma_apply_monotone_amount(v1, v2, b3);
    lemma_apply_monotone_amount(apply_bps(v1, b3), apply_bps(v2, b3), b4);
    lemma_apply_monotone_amount(
        apply_bps(apply_bps(v1, b3), b4),
        apply_bps(apply_bps(v2, b3), b4),
        b5,
    );
}

/// No bonus ever lowers a harvest: golden hour, alliance membership, tribe
/// membership in any role, a higher tier and a higher upgrade level each
/// yield at least as much as going without.
pub proof fn law_bonuses_never_lower_yield(
    base: u64,
    tier: PlotTier,
    upgrade_level: u8,
    in_tribe: bool,
    is_tribe_leader: bool,
    tribe_members: u8,
    in_alliance: bool,
    golden_hour: bool,
)
    ensures
        yield_of(base, tier, upgrade_level, in_tribe, is_tribe_leader, tribe_members, in_alliance, false)
            <= yield_of(base, tier, upgrade_level, in_tribe, is_tribe_leader, tribe_members, in_alliance, true),
        yield_of(base, tier, upgrade_level, in_tribe, is_tribe_leader, tribe_members, false, golden_hour)
            <= yield_of(base, tier, upgrade_level, in_tribe, is_tribe_leader, tribe_members, true, golden_hour),
        yield_of(base, tier, upgrade_level, false, is_tribe_leader, tribe_members, in_alliance, golden_hour)
            <= yield_of(base, tier, upgrade_level, true, is_tribe_leader, tribe_members, in_alliance, golden_hour),
        yield_of(base, PlotTier::Bronze, upgrade_level, in_tribe, is_tribe_leader, tribe_members, in_alliance, golden_hour)
            <= yield_of(base, PlotTier::Silver, upgrade_level, in_tribe, is_tribe_leader, tribe_members, in_alliance, golden_hour),
        yield_of(base, PlotTier::Silver, upgrade_level, in_tribe, is_tribe_leader, tribe_members, in_alliance, golden_hour)
            <= yield_of(base, PlotTier::Gold, upgrade_level, in_tribe, is_tribe_leader, tribe_members, in_alliance, golden_hour),
        yield_of(base, PlotTier::Gold, upgrade_level, in_tribe, is_tribe_leader, tribe_members, in_alliance, golden_hour)
            <= yield_of(base, PlotTier::Diamond, upgrade_level, in_tribe, is_tribe_leader, tribe_members, in_alliance, golden_hour),
        1 <= upgrade_level < 4 ==> yield_of(base, tier, upgrade_level, in_tribe, is_tribe_leader, tribe_members, in_alliance, golden_hour)
            <= yield_of(base, tier, (upgrade_level + 1) as u8, in_tribe, is_tribe_leader, tribe_members, in_alliance, golden_hour),
{
    let t = tribe_bps_of(in_tribe, is_tribe_leader, tribe_members);
    let a = alliance_bps_of(in_alliance);
    let g = golden_bps_of(golden_hour);
    let u = upgrade_bps_of(upgrade_level);
    let x = apply_bps(base, tier_yield_bps(tier));
    let y = apply_bps(x, u);
    // golden hour
    lemma_apply_monotone_bps(apply_bps(apply_bps(y, t), a), golden_bps_of(false), golden_bps_of(true));
    // alliance
    lemma_apply_monotone_bps(apply_bps(y, t), alliance_bps_of(false), alliance_bps_of(true));
    lemma_apply_monotone_amount(
        apply_bps(apply_bps(y, t), alliance_bps_of(false)),
        apply_bps(apply_bps(y, t), alliance_bps_of(true)),
        g,
    );
    // tribe
    lemma_apply_monotone_bps(y, tribe_bps_of(false, is_tribe_leader, tribe_members), tribe_bps_of(true, is_tribe_leader, tribe_members));
    lemma_apply_monotone_amount(
        apply_bps(y, tribe_bps_of(false, is_tribe_leader, tribe_members)),
        apply_bps(y, tribe_bps_of(true, is_tribe_leader, tribe_members)),
        a,
    );
    lemma_apply_monotone_amount(
        apply_bps(apply_bps(y, tribe_bps_of(false, is_tribe_leader, tribe_members)), a),
        apply_bps(apply_bps(y, tribe_bps_of(true, is_tribe_leader, tribe_members)), a),
        g,
    );
    // tiers
    lemma_apply_monotone_bps(base, tier_yield_bps(PlotTier::Bronze), tier_yield_bps(PlotTier::Silver));
    lemma_apply_monotone_bps(base, tier_yield_bps(PlotTier::Silver), tier_yield_bps(PlotTier::Gold));
    lemma_apply_monotone_bps(base, tier_yield_bps(PlotTier::Gold), tier_yield_bps(PlotTier::Diamond));
    let xb = apply_bps(base, tier_yield_bps(PlotTier::Bronze));
    let xs = apply_bps(base, tier_yield_bps(PlotTier::Silver));
    let xg = apply_bps(base, tier_yield_bps(PlotTier::Gold));
    let xd = apply_bps(base, tier_yield_bps(PlotTier::Diamond));
    lemma_apply_monotone_amount(xb, xs, u);
    lemma_apply_monotone_amount(xs, xg, u);
    lemma_apply_monotone_amount(xg, xd, u);
    lemma_rest_monotone(apply_bps(xb, u), apply_bps(xs, u), t, a, g);
    lemma_rest_monotone(apply_bps(xs, u), apply_bps(xg, u), t, a, g);
    lemma_rest_monotone(apply_bps(xg, u), apply_bps(xd, u), t, a, g);
    // upgrade levels
    if 1 <= upgrade_level < 4 {
        let next = (upgrade_level + 1) as u8;
        lemma_apply_monotone_bps(x, u, upgrade_bps_of(next));
        lemma_rest_monotone(y, apply_bps(x, upgrade_bps_of(next)), t, a, g);
    }
}

/// A bronze plot at level 1, outside any tribe or alliance and off golden
/// hour, yields exactly its base.
pub proof fn law_neutral_harvest_yields_base(base: u64)
    ensures
        yield_of(base, PlotTier::Bronze, 1, false, false, 0, false, false) == base,
{
    lemma_apply_neutral(base);
}

/// Golden hour comes back every six hours.
pub proof fn law_golden_hour_repeats(now: i64)
    requires
        now + GOLDEN_HOUR_CYCLE_S <= i64::MAX,
    ensures
        golden_hour_at(now) == golden_hour_at((now + GOLDEN_HOUR_CYCLE_S) as i64),
{
    assert((now + 21600) % 21600 == now % 21600) by (nonlinear_arith);
}

/// The alliance bonus applies in every tribe role and to nothing else: with
/// every other input fixed and off golden hour, an alliance member's yield
/// is the non-member's yield times 1.05, rounded down and capped at
/// `u64::MAX`.
pub proof fn law_alliance_adds_five_percent(
    base: u64,
    tier: PlotTier,
    upgrade_level: u8,
    in_tribe: bool,
    is_tribe_leader: bool,
    tribe_members: u8,
)
    ensures
        ({
            let s = yield_of(base, tier, upgrade_level, in_tribe, is_tribe_leader, tribe_members, false, false) as int;
            let v = s * 10_500 / 10_000;
            yield_of(base, tier, upgrade_level, in_tribe, is_tribe_leader, tribe_members, true, false) as int
                == if v > u64::MAX as int {
                u64::MAX as int
            } else {
                v
            }
        }),
{
    let y1 = apply_bps(base, tier_yield_bps(tier));
    let y2 = apply_bps(y1, upgrade_bps_of(upgrade_level));
    let y3 = apply_bps(y2, tribe_bps_of(in_tribe, is_tribe_leader, tribe_members));
    lemma_apply_neutral(y3);
    lemma_apply_neutral(apply_bps(y3, 10_500));
}

/// Golden hour adds 20% on top of everything else: with every other input
/// fixed, the golden-hour yield is the off-hour yield times 1.20, rounded
/// down and capped at `u64::MAX`.
pub proof fn law_golden_hour_adds_twenty_percent(
    base: u64,
    tier: PlotTier,
    upgrade_level: u8,
    in_tribe: bool,
    is_tribe_leader: bool,
    tribe_members: u8,
    in_alliance: bool,
)
    ensures
        ({
            let s = yield_of(base, tier, upgrade_level, in_tribe, is_tribe_leader, tribe_members, in_alliance, false) as int;
            let v = s * 12_000 / 10_000;
            yield_of(base, tier, upgrade_level, in_tribe, is_tribe_leader, tribe_members, in_alliance, true) as int
                == if v > u64::MAX as int {
                u64::MAX as int
            } else {
                v
            }
        }),
{
    let y1 = apply_bps(base, tier_yield_bps(tier));
    let y2 = apply_bps(y1, upgrade_bps_of(upgrade_level));
    let y3 = apply_bps(y2, tribe_bps_of(in_tribe, is_tribe_leader, tribe_members));
    let y4 = apply_bps(y3, alliance_bps_of(in_alliance));
    lemma_apply_neutral(y4);
}

/// Golden hour is exactly the first hour of each six-hour cycle counted from
/// time zero: a moment is golden if and only if it lies within 3_600 seconds
/// after some multiple of 21_600 seconds.
pub proof fn law_golden_hour_is_the_first_hour_of_each_cycle(now: i64)
    ensures
        golden_hour_at(now) <==> exists|k: int| #[trigger] (k * 21_600) <= now < k * 21_600 + 3_600,
{
    let n = now as int;
    let q = n / 21_600;
    let r = n % 21_600;
    assert(n == q * 21_600 + r && 0 <= r < 21_600) by (nonlinear_arith)
        requires
            q == n / 21_600,
            r == n % 21_600,
    ;
    assert(golden_hour_at(now) == (r < 3_600));
    if r < 3_600 {
        assert(q * 21_600 <= now < q * 21_600 + 3_600);
    }
    assert forall|k: int| #[trigger] (k * 21_600) <= now < k * 21_600 + 3_600 implies r < 3_600 by {
        assert(k == q) by (nonlinear_arith)
            requires
                k * 21_600 <= n < k * 21_600 + 3_600,
                n == q * 21_600 + r,
                0 <= r < 21_600,
        ;
    }
}

} // verus!
