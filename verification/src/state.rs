use vstd::prelude::*;

use crate::pubkey::{zero_key, Pubkey};

verus! {

// ---------------------------------------------------------------------------
// World constants
// ---------------------------------------------------------------------------

/// Number of plots in the world.
pub const WORLD_PLOTS: u8 = 100;

/// Most plots one wallet may hold.
pub const MAX_PLOTS_PER_WALLET: u8 = 5;

/// Most members of a tribe, leader included.
pub const TRIBE_MAX_MEMBERS: u8 = 10;

/// Most members of an alliance, founder included.
pub const ALLIANCE_MAX_MEMBERS: u8 = 5;

/// Protocol fee on filled trades, in basis points of 10_000.
pub const FEE_BPS: u64 = 250;

/// Share of an abandoned stake that is burned, in basis points.
pub const ABANDON_BURN_BPS: u64 = 5_000;

/// Nominal share of an abandoned stake that goes to the treasury, in basis
/// points; the treasury receives whatever the burn leaves, so nothing of the
/// stake stays behind.
pub const ABANDON_TREASURY_BPS: u64 = 5_000;

/// Length of one golden-hour cycle, in seconds.
pub const GOLDEN_HOUR_CYCLE_S: i64 = 6 * 60 * 60;

/// Length of the golden window at the start of each cycle, in seconds.
pub const GOLDEN_HOUR_WINDOW_S: i64 = 1 * 60 * 60;

/// Golden-hour yield multiplier (1.20x), in basis points.
pub const GOLDEN_HOUR_BPS: u64 = 12_000;

/// Yield multiplier of a plain tribe member (1.10x), in basis points.
pub const TRIBE_MEMBER_BPS: u64 = 11_000;

/// Extra yield of a tribe leader per other member (+5%), in basis points.
pub const TRIBE_LEADER_PER_MEMBER: u64 = 500;

/// Yield multiplier of an alliance member (1.05x), in basis points.
pub const ALLIANCE_BONUS_BPS: u64 = 10_500;

/// Shortest time between two harvests of one plot, in seconds.
pub const HARVEST_COOLDOWN_S: i64 = 60;

/// One whole, in basis points.
pub const BPS_ONE: u64 = 10_000;

// ---------------------------------------------------------------------------
// Plots and tiers
// ---------------------------------------------------------------------------

/// A position in the world.
#[derive(Clone, Copy, Debug)]
pub struct Plot {
    pub id: u8,
    /// The all-zero address when unclaimed.
    pub owner: Pubkey,
    pub tier: PlotTier,
    /// Stake locked in the plot's vault, in USDC base units.
    pub locked_amount: u64,
    pub claimed_at: i64,
    /// 1..=4 on every claimed plot.
    pub upgrade_level: u8,
    pub last_harvest: i64,
    pub bump: u8,
}

/// A plot's record is sound: it has a stake exactly when it has an owner,
/// and a claimed plot holds its tier's stake at a level from 1 to 4.
pub open spec fn plot_record_ok(p: Plot) -> bool {
    &&& (p.owner@ == zero_key()) == (p.locked_amount == 0)
    &&& p.owner@ != zero_key() ==> p.locked_amount == tier_claim_cost(p.tier) && 1 <= p.upgrade_level <= 4
}

/// Claimed plots of each tier across the world.
#[derive(Clone, Copy, Debug, PartialEq, Eq, Structural)]
pub struct World {
    pub bronze_claimed: u8,
    pub silver_claimed: u8,
    pub gold_claimed: u8,
    pub diamond_claimed: u8,
    pub bump: u8,
}

/// Claimed plots of `tier` recorded in the world.
pub open spec fn claimed_in(world: World, tier: PlotTier) -> u8 {
    match tier {
        PlotTier::Bronze => world.bronze_claimed,
        PlotTier::Silver => world.silver_claimed,
        PlotTier::Gold => world.gold_claimed,
        PlotTier::Diamond => world.diamond_claimed,
    }
}

/// The world with `n` claimed plots of `tier`, the other tiers unchanged.
pub open spec fn world_with(world: World, tier: PlotTier, n: u8) -> World {
    match tier {
        PlotTier::Bronze => World { bronze_claimed: n, ..world },
        PlotTier::Silver => World { silver_claimed: n, ..world },
        PlotTier::Gold => World { gold_claimed: n, ..world },
        PlotTier::Diamond => World { diamond_claimed: n, ..world },
    }
}

/// No tier has more claimed plots than its supply.
pub open spec fn world_within_supply(world: World) -> bool {
    forall|t: PlotTier| #[trigger] claimed_in(world, t) <= tier_supply(t)
}

impl World {
    /// Claimed plots of `tier`.
    pub fn claimed(&self, tier: PlotTier) -> (n: u8)
        ensures
            n == claimed_in(*self, tier),
    {
        match tier {
            PlotTier::Bronze => self.bronze_claimed,
            PlotTier::Silver => self.silver_claimed,
            PlotTier::Gold => self.gold_claimed,
            PlotTier::Diamond => self.diamond_claimed,
        }
    }

    /// Records `n` claimed plots of `tier`.
    pub fn set_claimed(&mut self, tier: PlotTier, n: u8)
        ensures
            *final(self) == world_with(*old(self), tier, n),
    {
        match tier {
            PlotTier::Bronze => self.bronze_claimed = n,
            PlotTier::Silver => self.silver_claimed = n,
            PlotTier::Gold => self.gold_claimed = n,
            PlotTier::Diamond => self.diamond_claimed = n,
        }
    }
}

#[derive(Clone, Copy, Debug, PartialEq, Eq, Structural)]
pub enum PlotTier {
    Bronze,
    Silver,
    Gold,
    Diamond,
}

/// Stake that claiming a plot of the tier locks, in USDC base units.
pub open spec fn tier_claim_cost(tier: PlotTier) -> u64 {
    match tier {
        PlotTier::Bronze => 1_000_000,
        PlotTier::Silver => 5_000_000,
        PlotTier::Gold => 15_000_000,
        PlotTier::Diamond => 50_000_000,
    }
}

/// Number of plots of the tier in the world.
pub open spec fn tier_supply(tier: PlotTier) -> u8 {
    match tier {
        PlotTier::Bronze => 50,
        PlotTier::Silver => 30,
        PlotTier::Gold => 15,
        PlotTier::Diamond => 5,
    }
}

/// Yield multiplier of the tier, in basis points.
pub open spec fn tier_yield_bps(tier: PlotTier) -> u64 {
    match tier {
        PlotTier::Bronze => 10_000,
        PlotTier::Silver => 15_000,
        PlotTier::Gold => 20_000,
        PlotTier::Diamond => 30_000,
    }
}

impl PlotTier {
    /// Stake locked on claim: 1, 5, 15 or 50 USDC.
    pub fn claim_cost(&self) -> (c: u64)
        ensures
            c == tier_claim_cost(*self),
    {
        match self {
            PlotTier::Bronze => 1_000_000,
            PlotTier::Silver => 5_000_000,
            PlotTier::Gold => 15_000_000,
            PlotTier::Diamond => 50_000_000,
        }
    }

    /// World supply of the tier: 50, 30, 15 or 5 plots.
    pub fn supply(&self) -> (s: u8)
        ensures
            s == tier_supply(*self),
    {
        match self {
            PlotTier::Bronze => 50,
            PlotTier::Silver => 30,
            PlotTier::Gold => 15,
            PlotTier::Diamond => 5,
        }
    }

    /// Yield multiplier of the tier: 1.0x, 1.5x, 2.0x or 3.0x.
    pub fn yield_bps(&self) -> (b: u64)
        ensures
            b == tier_yield_bps(*self),
    {
        match self {
            PlotTier::Bronze => 10_000,
            PlotTier::Silver => 15_000,
            PlotTier::Gold => 20_000,
            PlotTier::Diamond => 30_000,
        }
    }
}

/// Yield multiplier of an upgrade level, in basis points.
pub open spec fn upgrade_bps_of(level: u8) -> u64 {
    if level == 1 {
        10_000
    } else if level == 2 {
        12_500
    } else if level == 3 {
        15_000
    } else if level == 4 {
        20_000
    } else {
        10_000
    }
}

/// Price of reaching an upgrade level, in USDC base units.
pub open spec fn upgrade_cost_of(level: u8) -> u64 {
    if level == 2 {
        5_000_000
    } else if level == 3 {
        15_000_000
    } else if level == 4 {
        40_000_000
    } else {
        0
    }
}

/// Yield multiplier of an upgrade level: 1.0x, 1.25x, 1.5x, 2.0x for
/// levels 1 to 4, and 1.0x for any other level.
pub fn upgrade_bps(level: u8) -> (b: u64)
    ensures
        b == upgrade_bps_of(level),
{
    match level {
        1 => 10_000,
        2 => 12_500,
        3 => 15_000,
        4 => 20_000,
        _ => 10_000,
    }
}

/// Price of reaching an upgrade level: 5, 15 and 40 USDC for levels 2 to 4,
/// nothing for any other level.
pub fn upgrade_cost(level: u8) -> (c: u64)
    ensures
        c == upgrade_cost_of(level),
{
    match level {
        2 => 5_000_000,
        3 => 15_000_000,
        4 => 40_000_000,
        _ => 0,
    }
}

// ---------------------------------------------------------------------------
// Player, plot exchange, order book, tribes, alliances
// ---------------------------------------------------------------------------

/// Wallet-bound state.
#[derive(Clone, Copy, Debug)]
pub struct Player {
    pub wallet: Pubkey,
    /// Number of plots the wallet holds, at most `MAX_PLOTS_PER_WALLET`.
    pub plot_count: u8,
    /// The tribe the wallet is in, if any; a wallet is in at most one.
    pub tribe: Option<Pubkey>,
    /// The alliance the wallet is in, if any; a wallet is in at most one.
    pub alliance: Option<Pubkey>,
    pub created_at: i64,
    pub bump: u8,
}

/// A peer-to-peer plot listing.
#[derive(Clone, Copy, Debug)]
pub struct PlotOffer {
    pub plot: Pubkey,
    pub seller: Pubkey,
    /// When set, only this wallet may accept the offer.
    pub buyer: Option<Pubkey>,
    pub price: u64,
    pub status: OfferStatus,
    pub created_at: i64,
    pub bump: u8,
}

#[derive(Clone, Copy, Debug, PartialEq, Eq, Structural)]
pub enum OfferStatus {
    Open,
    Accepted,
    Cancelled,
}

/// A row in the crop order book.
#[derive(Clone, Copy, Debug)]
pub struct Order {
    pub id: u64,
    pub maker: Pubkey,
    pub item: ItemType,
    pub side: Side,
    pub quantity: u64,
    pub remaining: u64,
    pub price: u64,
    pub status: OrderStatus,
    pub created_at: i64,
    pub bump: u8,
}

#[derive(Clone, Copy, Debug, PartialEq, Eq, Structural)]
pub enum Side {
    Bid,
    Ask,
}

#[derive(Clone, Copy, Debug, PartialEq, Eq, Structural)]
pub enum OrderStatus {
    Open,
    Filled,
    Cancelled,
}

#[derive(Clone, Copy, Debug, PartialEq, Eq, Structural)]
pub enum ItemType {
    Wheat,
    Corn,
    Pumpkin,
    Egg,
    Milk,
    Wool,
    Honey,
    Truffle,
    MagicHerb,
    Fish,
}

/// A long-form clan with a leader.
#[derive(Clone, Copy, Debug)]
pub struct Tribe {
    pub id: u64,
    pub name: [u8; 32],
    pub tag: [u8; 4],
    pub leader: Pubkey,
    pub home_plot: Pubkey,
    /// At most `TRIBE_MAX_MEMBERS`.
    pub member_count: u8,
    pub invite_code: [u8; 8],
    pub created_at: i64,
    pub bump: u8,
}

/// Membership of one wallet in one tribe.
#[derive(Clone, Copy, Debug)]
pub struct TribeMember {
    pub tribe: Pubkey,
    pub wallet: Pubkey,
    pub joined_at: i64,
    pub is_leader: bool,
    pub bump: u8,
}

/// A lightweight pact without a leader.
#[derive(Clone, Copy, Debug)]
pub struct Alliance {
    pub id: u64,
    pub name: [u8; 32],
    /// At most `ALLIANCE_MAX_MEMBERS`.
    pub member_count: u8,
    pub created_at: i64,
    pub bump: u8,
}

/// Membership of one wallet in one alliance.
#[derive(Clone, Copy, Debug)]
pub struct AllianceMember {
    pub alliance: Pubkey,
    pub wallet: Pubkey,
    pub joined_at: i64,
    pub bump: u8,
}

} // verus!
