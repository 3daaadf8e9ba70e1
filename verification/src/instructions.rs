use vstd::prelude::*;

use crate::arith::{mul_div, mul_div_clamped, sat_sub_i64, saturating_sub_i64};
use crate::errors::ErrorCode;
use crate::pubkey::{zero_key, Pubkey};
use crate::state::{
    claimed_in, plot_record_ok, tier_claim_cost, tier_supply, upgrade_cost, upgrade_cost_of,
    world_with, world_within_supply, Player, Plot, PlotTier, Tribe, World, ABANDON_BURN_BPS,
    BPS_ONE, HARVEST_COOLDOWN_S, MAX_PLOTS_PER_WALLET,
};
use crate::yield_engine::{compute_yield, golden_hour_at, is_golden_hour, yield_of};

verus! {

// ---------------------------------------------------------------------------
// Events
// ---------------------------------------------------------------------------

/// A plot was claimed; `stake` is what moves from the player into the
/// plot's vault.
#[derive(Clone, Copy, Debug)]
pub struct PlotClaimed {
    pub plot: Pubkey,
    pub owner: Pubkey,
    pub tier: PlotTier,
    pub stake: u64,
}

/// A plot was abandoned and its stake forfeited.
#[derive(Clone, Copy, Debug)]
pub struct PlotAbandoned {
    pub plot: Pubkey,
    pub forfeit: u64,
}

/// A plot was harvested; `amount` is the yield.
#[derive(Clone, Copy, Debug)]
pub struct Harvested {
    pub plot: Pubkey,
    pub owner: Pubkey,
    pub amount: u64,
    pub golden: bool,
}

/// What abandoning a plot moves out of its vault: `burn` to the burn
/// vault and `treasury` to the treasury vault.
#[derive(Clone, Copy, Debug)]
pub struct AbandonSettlement {
    pub burn: u64,
    pub treasury: u64,
    pub event: PlotAbandoned,
}

// ---------------------------------------------------------------------------
// Claim
// ---------------------------------------------------------------------------

/// Why a claim of `plot` in `tier` by `signer` is refused, if it is.
pub open spec fn claim_error(plot: Plot, player: Player, world: World, signer: Pubkey, tier: PlotTier) -> Option<
    ErrorCode,
> {
    if player.wallet@ != signer@ || signer@ == zero_key() {
        Some(ErrorCode::NotOwner)
    } else if plot.owner@ != zero_key() {
        Some(ErrorCode::AlreadyClaimed)
    } else if player.plot_count >= MAX_PLOTS_PER_WALLET {
        Some(ErrorCode::TooManyPlots)
    } else if claimed_in(world, tier) >= tier_supply(tier) {
        Some(ErrorCode::TierFull)
    } else {
        None
    }
}

/// The plot once `owner` has claimed it in `tier` at time `now`.
pub open spec fn claimed_plot(plot: Plot, owner: Pubkey, tier: PlotTier, now: i64) -> Plot {
    Plot {
        owner,
        tier,
        locked_amount: tier_claim_cost(tier),
        claimed_at: now,
        upgrade_level: 1,
        last_harvest: 0,
        ..plot
    }
}

/// Claims an unclaimed plot for `signer` in `tier`, locking the tier's
/// stake, and counts it in the world's claimed plots of the tier.
///
/// Refused with `NotOwner` when the player record is not the signer's or the
/// signer is the all-zero address, then with `AlreadyClaimed` when the plot
/// has an owner, then with `TooManyPlots` when the player already holds the
/// most plots a wallet may, then with `TierFull` when every plot of the tier
/// is claimed; a refused claim changes nothing. On success the event's
/// `stake` is the amount to move from the player into the plot's vault.
pub fn claim_plot(
    plot: &mut Plot,
    player: &mut Player,
    world: &mut World,
    plot_key: Pubkey,
    signer: Pubkey,
    tier: PlotTier,
    now: i64,
) -> (r: Result<PlotClaimed, ErrorCode>)
    ensures
        old(player).plot_count <= MAX_PLOTS_PER_WALLET ==> final(player).plot_count
            <= MAX_PLOTS_PER_WALLET,
        world_within_supply(*old(world)) ==> world_within_supply(*final(world)),
        plot_record_ok(*old(plot)) ==> plot_record_ok(*final(plot)),
        (match claim_error(*old(plot), *old(player), *old(world), signer, tier) {
            Some(e) => {
                &&& r == Err::<PlotClaimed, ErrorCode>(e)
                &&& *final(plot) == *old(plot)
                &&& *final(player) == *old(player)
                &&& *final(world) == *old(world)
            },
            None => {
                &&& r matches Ok(ev) && ev == (PlotClaimed {
                    plot: plot_key,
                    owner: signer,
                    tier,
                    stake: tier_claim_cost(tier),
                })
                &&& *final(plot) == claimed_plot(*old(plot), signer, tier, now)
                &&& *final(player) == (Player { plot_count: (old(player).plot_count + 1) as u8, ..*old(player) })
                &&& *final(world) == world_with(*old(world), tier, (claimed_in(*old(world), tier) + 1) as u8)
            },
        }),
{
    if !player.wallet.same_as(&signer) || signer.same_as(&Pubkey::default()) {
        return Err(ErrorCode::NotOwner);
    }
    if !plot.owner.same_as(&Pubkey::default()) {
        return Err(ErrorCode::AlreadyClaimed);
    }
    if player.plot_count >= MAX_PLOTS_PER_WALLET {
        return Err(ErrorCode::TooManyPlots);
    }
    let claimed = world.claimed(tier);
    if claimed >= tier.supply() {
        return Err(ErrorCode::TierFull);
    }
    let cost = tier.claim_cost();
    plot.owner = signer;
    plot.tier = tier;
    plot.locked_amount = cost;
    plot.claimed_at = now;
    plot.upgrade_level = 1;
    plot.last_harvest = 0;
    player.plot_count = player.plot_count + 1;
    world.set_claimed(tier, claimed + 1);
    proof {
        assert forall|t: PlotTier| world_within_supply(*old(world)) implies #[trigger] claimed_in(*world, t)
            <= tier_supply(t) by {
            assert(claimed_in(*old(world), t) <= tier_supply(t));
        }
    }
    Ok(PlotClaimed { plot: plot_key, owner: signer, tier, stake: cost })
}

// ---------------------------------------------------------------------------
// Abandon
// ---------------------------------------------------------------------------

/// Part of an abandoned stake that is burned: half, rounded down.
pub open spec fn abandon_burn(stake: u64) -> u64 {
    mul_div_clamped(stake, ABANDON_BURN_BPS, BPS_ONE)
}

/// Part of an abandoned stake that goes to the treasury: all the rest.
pub open spec fn abandon_treasury(stake: u64) -> u64 {
    (stake - abandon_burn(stake)) as u64
}

/// `new` is `old` returned to the world: no owner, no stake, no claim time
/// and back to level 1; everything else as it was.
pub open spec fn returned_to_world(old: Plot, new: Plot) -> bool {
    &&& new.owner@ == zero_key()
    &&& new.locked_amount == 0
    &&& new.claimed_at == 0
    &&& new.upgrade_level == 1
    &&& new.id == old.id
    &&& new.tier == old.tier
    &&& new.last_harvest == old.last_harvest
    &&& new.bump == old.bump
}

/// Why abandoning `plot` is refused, if it is.
pub open spec fn abandon_error(plot: Plot, player: Player, signer: Pubkey) -> Option<ErrorCode> {
    if plot.owner@ != signer@ || player.wallet@ != signer@ {
        Some(ErrorCode::NotOwner)
    } else if plot.owner@ == zero_key() {
        Some(ErrorCode::NotClaimed)
    } else {
        None
    }
}

/// Abandons the signer's plot, forfeiting its whole stake: half, rounded
/// down, is burned and the rest goes to the treasury; the plot returns to
/// the world and leaves the world's count of claimed plots of its tier.
///
/// Refused, changing nothing, with `NotOwner` when the signer does not own
/// the plot or the player record, then with `NotClaimed` when the plot has no
/// owner. On success the settlement says what moves out of the vault.
pub fn abandon_plot(
    plot: &mut Plot,
    player: &mut Player,
    world: &mut World,
    plot_key: Pubkey,
    signer: Pubkey,
) -> (r: Result<AbandonSettlement, ErrorCode>)
    ensures
        world_within_supply(*old(world)) ==> world_within_supply(*final(world)),
        plot_record_ok(*old(plot)) ==> plot_record_ok(*final(plot)),
        abandon_error(*old(plot), *old(player), signer) is Some ==> {
            &&& r == Err::<AbandonSettlement, ErrorCode>(abandon_error(*old(plot), *old(player), signer)->0)
            &&& *final(plot) == *old(plot)
            &&& *final(player) == *old(player)
            &&& *final(world) == *old(world)
        },
        abandon_error(*old(plot), *old(player), signer) is None ==> {
            &&& r matches Ok(s) && s.burn == abandon_burn(old(plot).locked_amount) && s.treasury
                == abandon_treasury(old(plot).locked_amount) && s.event == (PlotAbandoned {
                plot: plot_key,
                forfeit: old(plot).locked_amount,
            })
            &&& returned_to_world(*old(plot), *final(plot))
            &&& *final(player) == (Player {
                plot_count: if old(player).plot_count == 0 {
                    0
                } else {
                    (old(player).plot_count - 1) as u8
                },
                ..*old(player)
            })
            &&& *final(world) == world_with(
                *old(world),
                old(plot).tier,
                if claimed_in(*old(world), old(plot).tier) == 0 {
                    0
                } else {
                    (claimed_in(*old(world), old(plot).tier) - 1) as u8
                },
            )
        },
{
    if !plot.owner.same_as(&signer) || !player.wallet.same_as(&signer) {
        return Err(ErrorCode::NotOwner);
    }
    if plot.owner.same_as(&Pubkey::default()) {
        return Err(ErrorCode::NotClaimed);
    }
    let stake = plot.locked_amount;
    let burn = mul_div(stake, ABANDON_BURN_BPS, BPS_ONE);
    assert(stake * 5_000 / 10_000 <= stake) by (nonlinear_arith);
    let treasury = stake - burn;
    let tier = plot.tier;
    plot.owner = Pubkey::default();
    plot.locked_amount = 0;
    plot.claimed_at = 0;
    plot.upgrade_level = 1;
    player.plot_count = player.plot_count.saturating_sub(1);
    let claimed = world.claimed(tier);
    world.set_claimed(tier, claimed.saturating_sub(1));
    proof {
        assert forall|t: PlotTier| world_within_supply(*old(world)) implies #[trigger] claimed_in(*world, t)
            <= tier_supply(t) by {
            assert(claimed_in(*old(world), t) <= tier_supply(t));
        }
    }
    Ok(AbandonSettlement { burn, treasury, event: PlotAbandoned { plot: plot_key, forfeit: stake } })
}

// ---------------------------------------------------------------------------
// Upgrade
// ---------------------------------------------------------------------------

/// Raises the signer's plot one upgrade level, for the price of the new
/// level, which the result gives (to move from the player to the treasury).
///
/// Refused with `NotOwner` when the signer does not own the plot, then with
/// `UpgradeMaxed` at level 4 or above; a refused upgrade changes nothing.
pub fn upgrade_plot(plot: &mut Plot, signer: Pubkey) -> (r: Result<u64, ErrorCode>)
    ensures
        1 <= old(plot).upgrade_level <= 4 ==> 1 <= final(plot).upgrade_level <= 4,
        plot_record_ok(*old(plot)) ==> plot_record_ok(*final(plot)),
        old(plot).owner@ != signer@ ==> r == Err::<u64, ErrorCode>(ErrorCode::NotOwner) && *final(plot) == *old(plot),
        old(plot).owner@ == signer@ && old(plot).upgrade_level >= 4 ==> r == Err::<u64, ErrorCode>(
            ErrorCode::UpgradeMaxed,
        ) && *final(plot) == *old(plot),
        old(plot).owner@ == signer@ && old(plot).upgrade_level < 4 ==> {
            &&& r == Ok::<u64, ErrorCode>(upgrade_cost_of((old(plot).upgrade_level + 1) as u8))
            &&& *final(plot) == (Plot { upgrade_level: (old(plot).upgrade_level + 1) as u8, ..*old(plot) })
        },
{
    if !plot.owner.same_as(&signer) {
        return Err(ErrorCode::NotOwner);
    }
    if plot.upgrade_level >= 4 {
        return Err(ErrorCode::UpgradeMaxed);
    }
    let next = plot.upgrade_level + 1;
    let cost = upgrade_cost(next);
    plot.upgrade_level = next;
    Ok(cost)
}

// ---------------------------------------------------------------------------
// Harvest
// ---------------------------------------------------------------------------

/// Whether `tribe` is the account of the player's recorded tribe: given
/// exactly when the player is in a tribe, and then under that tribe's key.
pub open spec fn tribe_matches(player: Player, tribe: Option<(Pubkey, Tribe)>) -> bool {
    match player.tribe {
        None => tribe is None,
        Some(k) => tribe matches Some(t) && t.0@ == k@,
    }
}

/// Why a harvest is refused, if it is.
pub open spec fn harvest_error(
    plot: Plot,
    player: Player,
    tribe: Option<(Pubkey, Tribe)>,
    signer: Pubkey,
    now: i64,
) -> Option<ErrorCode> {
    if plot.owner@ != signer@ || player.wallet@ != signer@ {
        Some(ErrorCode::NotOwner)
    } else if !tribe_matches(player, tribe) {
        Some(ErrorCode::NotMember)
    } else if sat_sub_i64(now, plot.last_harvest) < HARVEST_COOLDOWN_S {
        Some(ErrorCode::HarvestCooldown)
    } else {
        None
    }
}

/// The yield of harvesting `plot` at `now` for `player`, with the tribe
/// and alliance bonuses of the player's recorded memberships: a tribe
/// member's bonus, or the leader's bonus by the tribe's member count, and
/// the alliance bonus.
pub open spec fn harvest_yield(
    base_amount: u64,
    plot: Plot,
    player: Player,
    tribe: Option<(Pubkey, Tribe)>,
    now: i64,
) -> u64 {
    let in_tribe = tribe is Some;
    let is_leader = tribe matches Some(t) && t.1.leader@ == player.wallet@;
    let members: u8 = match tribe {
        Some(t) => t.1.member_count,
        None => 0,
    };
    yield_of(
        base_amount,
        plot.tier,
        plot.upgrade_level,
        in_tribe,
        is_leader,
        members,
        player.alliance is Some,
        golden_hour_at(now),
    )
}

/// Harvests the signer's plot at time `now`: the yield is `base_amount`
/// scaled by the plot's tier and level, the bonuses of the player's recorded
/// tribe and alliance memberships, and golden hour; the plot records `now` as
/// its last harvest. `tribe` is the player's tribe with its key, when the
/// player is in one.
///
/// Refused with `NotOwner` when the signer does not own the plot or the
/// player record, then with `NotMember` when `tribe` is not the player's
/// recorded tribe, then with `HarvestCooldown` when less than a minute
/// passed since the last harvest; a refused harvest changes nothing.
pub fn harvest(
    plot: &mut Plot,
    player: &Player,
    tribe: Option<(Pubkey, Tribe)>,
    plot_key: Pubkey,
    signer: Pubkey,
    base_amount: u64,
    now: i64,
) -> (r: Result<Harvested, ErrorCode>)
    ensures
        plot_record_ok(*old(plot)) ==> plot_record_ok(*final(plot)),
        (match harvest_error(*old(plot), *player, tribe, signer, now) {
            Some(e) => r == Err::<Harvested, ErrorCode>(e) && *final(plot) == *old(plot),
            None => {
                &&& r matches Ok(ev) && ev == (Harvested {
                    plot: plot_key,
                    owner: signer,
                    amount: harvest_yield(base_amount, *old(plot), *player, tribe, now),
                    golden: golden_hour_at(now),
                })
                &&& *final(plot) == (Plot { last_harvest: now, ..*old(plot) })
            },
        }),
{
    if !plot.owner.same_as(&signer) || !player.wallet.same_as(&signer) {
        return Err(ErrorCode::NotOwner);
    }
    let matches = match (&player.tribe, &tribe) {
        (None, None) => true,
        (Some(k), Some(t)) => k.same_as(&t.0),
        _ => false,
    };
    if !matches {
        return Err(ErrorCode::NotMember);
    }
    if saturating_sub_i64(now, plot.last_harvest) < HARVEST_COOLDOWN_S {
        return Err(ErrorCode::HarvestCooldown);
    }
    let (in_tribe, is_leader, members) = match &tribe {
        Some(t) => (true, t.1.leader.same_as(&player.wallet), t.1.member_count),
        None => (false, false, 0u8),
    };
    let in_alliance = player.alliance.is_some();
    let golden = is_golden_hour(now);
    let amount = compute_yield(
        base_amount,
        plot.tier,
        plot.upgrade_level,
        in_tribe,
        is_leader,
        members,
        in_alliance,
        golden,
    );
    plot.last_harvest = now;
    Ok(Harvested { plot: plot_key, owner: signer, amount, golden })
}

} // verus!
