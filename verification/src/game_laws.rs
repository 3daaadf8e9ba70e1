use vstd::prelude::*;

use crate::errors::ErrorCode;
use crate::exchange::{accept_error, one_plot_less, one_plot_more, sale_fee};
use crate::instructions::{
    abandon_burn, abandon_error, abandon_treasury, claim_error, claimed_plot, harvest_error,
    returned_to_world,
};
use crate::pubkey::{zero_key, Pubkey};
use crate::state::{
    claimed_in, tier_claim_cost, tier_supply, world_with, OfferStatus, Player, Plot, PlotOffer,
    PlotTier, Tribe, World, HARVEST_COOLDOWN_S, MAX_PLOTS_PER_WALLET, TRIBE_MAX_MEMBERS,
    WORLD_PLOTS,
};
use crate::yield_engine::tribe_bps_of;

verus! {

/// How many plots of `plots` satisfy `pred`.
pub open spec fn count_plots(plots: Seq<Plot>, pred: spec_fn(Plot) -> bool) -> int
    decreases plots.len(),
{
    if plots.len() == 0 {
        0
    } else {
        count_plots(plots.drop_last(), pred) + if pred(plots.last()) {
            1int
        } else {
            0int
        }
    }
}

/// Plots owned by the wallet `w`.
pub open spec fn owned_by(w: Seq<u8>) -> spec_fn(Plot) -> bool {
    |p: Plot| p.owner@ == w
}

/// Claimed plots of the tier `t`.
pub open spec fn claimed_of_tier(t: PlotTier) -> spec_fn(Plot) -> bool {
    |p: Plot| p.owner@ != zero_key() && p.tier == t
}

/// The world's counts of claimed plots per tier agree with the plots.
pub open spec fn world_in_step(plots: Seq<Plot>, world: World) -> bool {
    forall|t: PlotTier| #[trigger] claimed_in(world, t) == count_plots(plots, claimed_of_tier(t))
}

/// A wallet's plot count agrees with the plots it owns.
pub open spec fn player_in_step(plots: Seq<Plot>, player: Player) -> bool {
    player.plot_count == count_plots(plots, owned_by(player.wallet@))
}

proof fn lemma_count_update(plots: Seq<Plot>, i: int, p: Plot, pred: spec_fn(Plot) -> bool)
    requires
        0 <= i < plots.len(),
    ensures
        count_plots(plots.update(i, p), pred) == count_plots(plots, pred) - (if pred(plots[i]) {
            1int
        } else {
            0int
        }) + (if pred(p) {
            1int
        } else {
            0int
        }),
    decreases plots.len(),
{
    if i == plots.len() - 1 {
        assert(plots.update(i, p).drop_last() =~= plots.drop_last());
    } else {
        lemma_count_update(plots.drop_last(), i, p, pred);
        assert(plots.update(i, p).drop_last() =~= plots.drop_last().update(i, p));
    }
}

proof fn lemma_count_positive(plots: Seq<Plot>, i: int, pred: spec_fn(Plot) -> bool)
    requires
        0 <= i < plots.len(),
        pred(plots[i]),
    ensures
        count_plots(plots, pred) >= 1,
    decreases plots.len(),
{
    if i < plots.len() - 1 {
        lemma_count_positive(plots.drop_last(), i, pred);
    }
    lemma_count_nonneg(plots.drop_last(), pred);
}

proof fn lemma_count_nonneg(plots: Seq<Plot>, pred: spec_fn(Plot) -> bool)
    ensures
        count_plots(plots, pred) >= 0,
    decreases plots.len(),
{
    if plots.len() > 0 {
        lemma_count_nonneg(plots.drop_last(), pred);
    }
}

/// The four tiers together hold every plot of the world: 50 + 30 + 15 + 5.
pub proof fn law_tier_supplies_fill_the_world()
    ensures
        tier_supply(PlotTier::Bronze) + tier_supply(PlotTier::Silver) + tier_supply(PlotTier::Gold)
            + tier_supply(PlotTier::Diamond) == WORLD_PLOTS,
{
}

/// A claim is accepted only while its tier has plots left, so no tier ever
/// counts more claimed plots than its supply; a full tier refuses claims.
pub proof fn law_claim_respects_tier_supply(plot: Plot, player: Player, world: World, signer: Pubkey, tier: PlotTier)
    ensures
        claim_error(plot, player, world, signer, tier) is None ==> claimed_in(world, tier) + 1 <= tier_supply(
            tier,
        ),
        claimed_in(world, tier) >= tier_supply(tier) ==> claim_error(plot, player, world, signer, tier) is Some,
{
}

/// Claims never take a tier past its supply: when the claimed plots of
/// every tier are within its supply and the world's counts agree with the
/// plots, they still are after an accepted claim (a refused claim changes
/// nothing).
pub proof fn law_claim_keeps_tiers_within_supply(
    plots: Seq<Plot>,
    i: int,
    player: Player,
    world: World,
    signer: Pubkey,
    tier: PlotTier,
    now: i64,
)
    requires
        0 <= i < plots.len(),
        world_in_step(plots, world),
        forall|t: PlotTier| #[trigger] count_plots(plots, claimed_of_tier(t)) <= tier_supply(t),
        claim_error(plots[i], player, world, signer, tier) is None,
    ensures
        ({
            let plots2 = plots.update(i, claimed_plot(plots[i], signer, tier, now));
            forall|t: PlotTier| #[trigger] count_plots(plots2, claimed_of_tier(t)) <= tier_supply(t)
        }),
{
    let new = claimed_plot(plots[i], signer, tier, now);
    let plots2 = plots.update(i, new);
    assert forall|t: PlotTier| #[trigger] count_plots(plots2, claimed_of_tier(t)) <= tier_supply(t) by {
        lemma_count_update(plots, i, new, claimed_of_tier(t));
        assert(claimed_in(world, t) == count_plots(plots, claimed_of_tier(t)));
        assert(claimed_in(world, tier) == count_plots(plots, claimed_of_tier(tier)));
    }
}

/// A claim is accepted only while the wallet is under the plot cap, so the
/// count it leaves never exceeds the cap; a wallet at the cap is refused.
pub proof fn law_claim_respects_plot_cap(plot: Plot, player: Player, world: World, signer: Pubkey, tier: PlotTier)
    ensures
        claim_error(plot, player, world, signer, tier) is None ==> player.plot_count + 1 <= MAX_PLOTS_PER_WALLET,
        player.plot_count >= MAX_PLOTS_PER_WALLET ==> claim_error(plot, player, world, signer, tier) is Some,
{
}

/// A claim keeps the world's records in step with the plots: the tier's
/// claimed count and the claimer's plot count each rise by the plot just
/// claimed, and every other wallet's count still matches what it owns.
pub proof fn law_claim_keeps_records_in_step(
    plots: Seq<Plot>,
    i: int,
    player: Player,
    world: World,
    signer: Pubkey,
    tier: PlotTier,
    now: i64,
    other: Player,
)
    requires
        0 <= i < plots.len(),
        claim_error(plots[i], player, world, signer, tier) is None,
        world_in_step(plots, world),
        player_in_step(plots, player),
        player_in_step(plots, other),
        other.wallet@ != signer@,
        other.wallet@ != zero_key(),
    ensures
        ({
            let plots2 = plots.update(i, claimed_plot(plots[i], signer, tier, now));
            let world2 = world_with(world, tier, (claimed_in(world, tier) + 1) as u8);
            &&& world_in_step(plots2, world2)
            &&& player_in_step(plots2, Player { plot_count: (player.plot_count + 1) as u8, ..player })
            &&& player_in_step(plots2, other)
        }),
{
    let new = claimed_plot(plots[i], signer, tier, now);
    let plots2 = plots.update(i, new);
    let world2 = world_with(world, tier, (claimed_in(world, tier) + 1) as u8);
    assert forall|t: PlotTier| #[trigger] claimed_in(world2, t) == count_plots(plots2, claimed_of_tier(t)) by {
        lemma_count_update(plots, i, new, claimed_of_tier(t));
        assert(claimed_in(world, t) == count_plots(plots, claimed_of_tier(t)));
    }
    lemma_count_update(plots, i, new, owned_by(signer@));
    lemma_count_update(plots, i, new, owned_by(other.wallet@));
}

/// Abandoning keeps the world's records in step with the plots: the tier's
/// claimed count and the owner's plot count each fall by the plot given up,
/// and every other wallet's count still matches what it owns.
pub proof fn law_abandon_keeps_records_in_step(
    plots: Seq<Plot>,
    i: int,
    abandoned: Plot,
    player: Player,
    world: World,
    signer: Pubkey,
    other: Player,
)
    requires
        0 <= i < plots.len(),
        abandon_error(plots[i], player, signer) is None,
        returned_to_world(plots[i], abandoned),
        world_in_step(plots, world),
        player_in_step(plots, player),
        player_in_step(plots, other),
        other.wallet@ != signer@,
        other.wallet@ != zero_key(),
    ensures
        ({
            let t = plots[i].tier;
            let plots2 = plots.update(i, abandoned);
            let world2 = world_with(world, t, (claimed_in(world, t) - 1) as u8);
            &&& claimed_in(world, t) >= 1
            &&& player.plot_count >= 1
            &&& world_in_step(plots2, world2)
            &&& player_in_step(plots2, Player { plot_count: (player.plot_count - 1) as u8, ..player })
            &&& player_in_step(plots2, other)
        }),
{
    let t0 = plots[i].tier;
    let plots2 = plots.update(i, abandoned);
    let world2 = world_with(world, t0, (claimed_in(world, t0) - 1) as u8);
    assert(claimed_in(world, t0) == count_plots(plots, claimed_of_tier(t0)));
    lemma_count_positive(plots, i, claimed_of_tier(t0));
    lemma_count_positive(plots, i, owned_by(signer@));
    assert forall|t: PlotTier| #[trigger] claimed_in(world2, t) == count_plots(plots2, claimed_of_tier(t)) by {
        lemma_count_update(plots, i, abandoned, claimed_of_tier(t));
        assert(claimed_in(world, t) == count_plots(plots, claimed_of_tier(t)));
    }
    lemma_count_update(plots, i, abandoned, owned_by(signer@));
    lemma_count_update(plots, i, abandoned, owned_by(other.wallet@));
}

/// A sale keeps the records in step with the plots: the buyer's count rises
/// by one, the seller's falls by one, every other wallet's count and the
/// world's claimed counts still match the plots.
pub proof fn law_trade_keeps_records_in_step(
    plots: Seq<Plot>,
    i: int,
    offer: PlotOffer,
    buyer: Pubkey,
    buyer_player: Player,
    seller_player: Player,
    world: World,
    now: i64,
    other: Player,
)
    requires
        0 <= i < plots.len(),
        accept_error(offer, plots[i], buyer, buyer_player, seller_player) is None,
        world_in_step(plots, world),
        player_in_step(plots, buyer_player),
        player_in_step(plots, seller_player),
        player_in_step(plots, other),
        other.wallet@ != buyer@,
        other.wallet@ != offer.seller@,
    ensures
        ({
            let plots2 = plots.update(i, Plot { owner: buyer, claimed_at: now, ..plots[i] });
            &&& world_in_step(plots2, world)
            &&& player_in_step(plots2, one_plot_more(buyer_player))
            &&& player_in_step(plots2, one_plot_less(seller_player))
            &&& player_in_step(plots2, other)
        }),
{
    let new = Plot { owner: buyer, claimed_at: now, ..plots[i] };
    let plots2 = plots.update(i, new);
    assert forall|t: PlotTier| #[trigger] claimed_in(world, t) == count_plots(plots2, claimed_of_tier(t)) by {
        lemma_count_update(plots, i, new, claimed_of_tier(t));
    }
    lemma_count_positive(plots, i, owned_by(seller_player.wallet@));
    lemma_count_update(plots, i, new, owned_by(buyer@));
    lemma_count_update(plots, i, new, owned_by(seller_player.wallet@));
    lemma_count_update(plots, i, new, owned_by(other.wallet@));
}

/// A sale never takes a wallet past the plot cap: a buyer at the cap is
/// refused, an accepted buyer ends at most at the cap, and the seller's
/// count falls by the plot it gave up.
pub proof fn law_trade_respects_plot_cap(
    offer: PlotOffer,
    plot: Plot,
    buyer: Pubkey,
    buyer_player: Player,
    seller_player: Player,
)
    requires
        seller_player.plot_count >= 1,
    ensures
        buyer_player.plot_count >= MAX_PLOTS_PER_WALLET ==> accept_error(offer, plot, buyer, buyer_player, seller_player) is Some,
        accept_error(offer, plot, buyer, buyer_player, seller_player) is None ==> one_plot_more(buyer_player).plot_count
            <= MAX_PLOTS_PER_WALLET,
        one_plot_less(seller_player).plot_count == seller_player.plot_count - 1,
{
}

/// An abandoned stake leaves the vault whole: the burn is half of it,
/// rounded down, and the treasury gets all the rest.
pub proof fn law_abandon_splits_whole_stake(stake: u64)
    ensures
        abandon_burn(stake) == stake / 2,
        abandon_burn(stake) + abandon_treasury(stake) == stake,
        abandon_treasury(stake) - abandon_burn(stake) <= 1,
{
    assert((stake * 5_000) / 10_000 == stake / 2) by (nonlinear_arith);
}

/// Claiming a plot and abandoning it again forfeits the whole stake of the
/// tier, half burned and half to the treasury: the owner may abandon what
/// it claimed, and the wallet's plot count and the tier's claimed count are
/// where they started.
pub proof fn law_claim_then_abandon_forfeits_stake(
    plot: Plot,
    player: Player,
    world: World,
    signer: Pubkey,
    tier: PlotTier,
    now: i64,
)
    requires
        claim_error(plot, player, world, signer, tier) is None,
    ensures
        ({
            let claimed = claimed_plot(plot, signer, tier, now);
            let player2 = Player { plot_count: (player.plot_count + 1) as u8, ..player };
            let world2 = world_with(world, tier, (claimed_in(world, tier) + 1) as u8);
            &&& abandon_error(claimed, player2, signer) is None
            &&& claimed.locked_amount == tier_claim_cost(tier)
            &&& abandon_burn(claimed.locked_amount) + abandon_treasury(claimed.locked_amount)
                == tier_claim_cost(tier)
            &&& abandon_burn(claimed.locked_amount) == abandon_treasury(claimed.locked_amount)
            &&& player2.plot_count - 1 == player.plot_count
            &&& world_with(world2, tier, (claimed_in(world2, tier) - 1) as u8) == world
        }),
{
    law_abandon_splits_whole_stake(tier_claim_cost(tier));
}

/// A plot that was abandoned is back in world supply: any wallet under the
/// plot cap may claim it, in any tier that still has plots left.
pub proof fn law_abandoned_plot_can_be_claimed(
    old: Plot,
    abandoned: Plot,
    player: Player,
    world: World,
    signer: Pubkey,
    tier: PlotTier,
)
    requires
        returned_to_world(old, abandoned),
        player.wallet@ == signer@,
        signer@ != zero_key(),
        player.plot_count < MAX_PLOTS_PER_WALLET,
        claimed_in(world, tier) < tier_supply(tier),
    ensures
        claim_error(abandoned, player, world, signer, tier) is None,
{
}

/// On every sale the fee is exactly 2.5% of the price, rounded down, and the
/// fee and the seller's net add up to the price.
pub proof fn law_sale_fee_and_net_make_the_price(price: u64)
    ensures
        sale_fee(price) == price * 250 / 10_000,
        sale_fee(price) <= price,
        sale_fee(price) + (price - sale_fee(price)) == price,
{
    assert(price * 250 / 10_000 <= price) by (nonlinear_arith);
}

/// An offer sells its plot at most once: once accepted, every later
/// attempt to accept it, by anyone, is refused (as closed, unless the
/// later attempt's own records are refused first).
pub proof fn law_offer_accepted_at_most_once(
    offer: PlotOffer,
    plot: Plot,
    buyer: Pubkey,
    buyer_player: Player,
    seller_player: Player,
    now: i64,
    later_buyer: Pubkey,
    later_player: Player,
    later_seller_player: Player,
)
    requires
        accept_error(offer, plot, buyer, buyer_player, seller_player) is None,
    ensures
        ({
            let r = accept_error(
                PlotOffer { status: OfferStatus::Accepted, buyer: Some(buyer), ..offer },
                Plot { owner: buyer, claimed_at: now, ..plot },
                later_buyer,
                later_player,
                later_seller_player,
            );
            r == Some(ErrorCode::OfferClosed) || r == Some(ErrorCode::NotOwner)
        }),
{
}

/// An offer no longer sells once its plot changed owner: after the seller
/// lost the plot, every accept is refused.
pub proof fn law_stale_offer_cannot_sell(
    offer: PlotOffer,
    plot: Plot,
    buyer: Pubkey,
    buyer_player: Player,
    seller_player: Player,
)
    requires
        plot.owner@ != offer.seller@,
    ensures
        accept_error(offer, plot, buyer, buyer_player, seller_player) is Some,
{
}

/// After a harvest at `t1`, the same plot cannot be harvested again before
/// a minute has passed, and can be once it has.
pub proof fn law_harvest_cooldown(
    plot: Plot,
    player: Player,
    tribe: Option<(Pubkey, Tribe)>,
    signer: Pubkey,
    t1: i64,
    t2: i64,
)
    requires
        harvest_error(plot, player, tribe, signer, t1) is None,
        t1 <= t2,
    ensures
        t2 - t1 < HARVEST_COOLDOWN_S ==> harvest_error(Plot { last_harvest: t1, ..plot }, player, tribe, signer, t2)
            == Some(ErrorCode::HarvestCooldown),
        t2 - t1 >= HARVEST_COOLDOWN_S ==> harvest_error(Plot { last_harvest: t1, ..plot }, player, tribe, signer, t2)
            is None,
{
}

/// A tribe leader's bonus grows by 5% per other member and, since a tribe
/// holds at most ten members, never exceeds +45%.
pub proof fn law_leader_bonus_capped(tribe_members: u8)
    requires
        1 <= tribe_members <= TRIBE_MAX_MEMBERS,
    ensures
        tribe_bps_of(true, true, tribe_members) == 10_000 + 500 * (tribe_members - 1),
        tribe_bps_of(true, true, tribe_members) <= 14_500,
{
}

} // verus!
