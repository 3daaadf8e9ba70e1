use vstd::prelude::*;

verus! {

/// Why an instruction was refused.
#[derive(Clone, Copy, Debug, PartialEq, Eq, Structural)]
pub enum ErrorCode {
    /// Plot is already claimed.
    AlreadyClaimed,
    /// Plot is not claimed yet.
    NotClaimed,
    /// You do not own this plot.
    NotOwner,
    /// Wallet has reached the 5-plot cap.
    TooManyPlots,
    /// Insufficient USDC to claim this tier.
    InsufficientStake,
    /// Plot upgrade level is already maxed.
    UpgradeMaxed,
    /// Offer is no longer open.
    OfferClosed,
    /// Seller no longer owns this plot.
    SellerNoLongerOwns,
    /// Cannot accept your own offer.
    SelfTrade,
    /// This offer is targeted at another wallet.
    OfferNotForYou,
    /// Insufficient inventory to place ask.
    InsufficientInventory,
    /// Tribe is full.
    TribeFull,
    /// Alliance is full.
    AllianceFull,
    /// Already a member.
    AlreadyMember,
    /// Not a member.
    NotMember,
    /// Only the leader may perform this action.
    NotLeader,
    /// Harvest cooldown not elapsed.
    HarvestCooldown,
    /// Order book in invalid state.
    InvalidOrder,
    /// Math overflow.
    MathOverflow,
    /// Every plot of this tier is claimed.
    TierFull,
}

} // verus!
