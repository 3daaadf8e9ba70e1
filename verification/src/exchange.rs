use vstd::prelude::*;

use crate::arith::{mul_div, mul_div_clamped};
use crate::errors::ErrorCode;
use crate::pubkey::{zero_key, Pubkey};
use crate::state::{
    plot_record_ok, OfferStatus, Player, Plot, PlotOffer, BPS_ONE, FEE_BPS, MAX_PLOTS_PER_WALLET,
};

verus! {

/// A plot changed hands on the exchange.
#[derive(Clone, Copy, Debug)]
pub struct PlotTraded {
    pub plot: Pubkey,
    pub seller: Pubkey,
    pub buyer: Pubkey,
    pub price: u64,
}

/// What accepting an offer moves out of the buyer's account: `net` to the
/// seller and `fee` to the treasury.
#[derive(Clone, Copy, Debug)]
pub struct TradeSettlement {
    pub net: u64,
    pub fee: u64,
    pub event: PlotTraded,
}

/// Protocol fee on a plot sale: 2.5% of the price, rounded down.
pub open spec fn sale_fee(price: u64) -> u64 {
    mul_div_clamped(price, FEE_BPS, BPS_ONE)
}

/// Lists the seller's plot at `price`, open to `target_buyer` alone when
/// one is given, to anyone otherwise. The listing replaces whatever the
/// offer account held, apart from its bump.
///
/// Refused with `NotOwner` when the seller does not own the plot, then with
/// `NotClaimed` when the plot has no owner, then with `InvalidOrder` for a
/// zero price; a refused listing changes nothing.
pub fn list_plot(
    offer: &mut PlotOffer,
    plot: &Plot,
    plot_key: Pubkey,
    seller: Pubkey,
    price: u64,
    target_buyer: Option<Pubkey>,
    now: i64,
) -> (r: Result<(), ErrorCode>)
    ensures
        plot.owner@ != seller@ ==> r == Err::<(), ErrorCode>(ErrorCode::NotOwner) && *final(offer) == *old(offer),
        plot.owner@ == seller@ && seller@ == zero_key() ==> r == Err::<(), ErrorCode>(ErrorCode::NotClaimed)
            && *final(offer) == *old(offer),
        plot.owner@ == seller@ && seller@ != zero_key() && price == 0 ==> r == Err::<(), ErrorCode>(
            ErrorCode::InvalidOrder,
        ) && *final(offer) == *old(offer),
        plot.owner@ == seller@ && seller@ != zero_key() && price > 0 ==> {
            &&& r == Ok::<(), ErrorCode>(())
            &&& *final(offer) == (PlotOffer {
                plot: plot_key,
                seller,
                buyer: target_buyer,
                price,
                status: OfferStatus::Open,
                created_at: now,
                bump: old(offer).bump,
            })
        },
{
    if !plot.owner.same_as(&seller) {
        return Err(ErrorCode::NotOwner);
    }
    if seller.same_as(&Pubkey::default()) {
        return Err(ErrorCode::NotClaimed);
    }
    if price == 0 {
        return Err(ErrorCode::InvalidOrder);
    }
    offer.plot = plot_key;
    offer.seller = seller;
    offer.buyer = target_buyer;
    offer.price = price;
    offer.status = OfferStatus::Open;
    offer.created_at = now;
    Ok(())
}

/// Why accepting an offer is refused, if it is.
pub open spec fn accept_error(
    offer: PlotOffer,
    plot: Plot,
    buyer: Pubkey,
    buyer_player: Player,
    seller_player: Player,
) -> Option<ErrorCode> {
    if buyer_player.wallet@ != buyer@ || seller_player.wallet@ != offer.seller@ || buyer@ == zero_key() {
        Some(ErrorCode::NotOwner)
    } else if offer.status != OfferStatus::Open {
        Some(ErrorCode::OfferClosed)
    } else if plot.owner@ != offer.seller@ {
        Some(ErrorCode::SellerNoLongerOwns)
    } else if plot.owner@ == zero_key() {
        Some(ErrorCode::NotClaimed)
    } else if offer.seller@ == buyer@ {
        Some(ErrorCode::SelfTrade)
    } else if offer.buyer matches Some(b) && b@ != buyer@ {
        Some(ErrorCode::OfferNotForYou)
    } else if buyer_player.plot_count >= MAX_PLOTS_PER_WALLET {
        Some(ErrorCode::TooManyPlots)
    } else {
        None
    }
}

/// A player record after its wallet gave up one plot.
pub open spec fn one_plot_less(p: Player) -> Player {
    Player {
        plot_count: if p.plot_count == 0 {
            0
        } else {
            (p.plot_count - 1) as u8
        },
        ..p
    }
}

/// A player record after its wallet gained one plot.
pub open spec fn one_plot_more(p: Player) -> Player {
    Player { plot_count: (p.plot_count + 1) as u8, ..p }
}

/// Accepts an open offer: the buyer pays the price, of which the 2.5% fee
/// goes to the treasury and the rest to the seller, and becomes the plot's
/// owner; the buyer's plot count rises by one and the seller's falls by
/// one; the offer is closed as accepted. `buyer_player` and `seller_player`
/// are the records of the buyer's and the seller's wallets.
///
/// Refused, changing nothing, with `NotOwner` when a player record is not
/// its wallet's or the buyer is the all-zero address, `OfferClosed` when the
/// offer is not open, `SellerNoLongerOwns` when the plot changed owner since
/// it was listed, `NotClaimed` when the plot has no owner, `SelfTrade` when
/// the buyer is the seller, `OfferNotForYou` when the offer names another
/// buyer, and `TooManyPlots` when the buyer already holds the most plots a
/// wallet may, checked in that order.
pub fn accept_plot_offer(
    offer: &mut PlotOffer,
    plot: &mut Plot,
    buyer_player: &mut Player,
    seller_player: &mut Player,
    plot_key: Pubkey,
    buyer: Pubkey,
    now: i64,
) -> (r: Result<TradeSettlement, ErrorCode>)
    ensures
        old(buyer_player).plot_count <= MAX_PLOTS_PER_WALLET ==> final(buyer_player).plot_count
            <= MAX_PLOTS_PER_WALLET,
        plot_record_ok(*old(plot)) ==> plot_record_ok(*final(plot)),
        (match accept_error(*old(offer), *old(plot), buyer, *old(buyer_player), *old(seller_player)) {
            Some(e) => {
                &&& r == Err::<TradeSettlement, ErrorCode>(e)
                &&& *final(offer) == *old(offer)
                &&& *final(plot) == *old(plot)
                &&& *final(buyer_player) == *old(buyer_player)
                &&& *final(seller_player) == *old(seller_player)
            },
            None => {
                &&& r matches Ok(s) && s.fee == sale_fee(old(offer).price) && s.net == old(offer).price
                    - sale_fee(old(offer).price) && s.event == (PlotTraded {
                    plot: plot_key,
                    seller: old(offer).seller,
                    buyer,
                    price: old(offer).price,
                })
                &&& *final(plot) == (Plot { owner: buyer, claimed_at: now, ..*old(plot) })
                &&& *final(offer) == (PlotOffer {
                    status: OfferStatus::Accepted,
                    buyer: Some(buyer),
                    ..*old(offer)
                })
                &&& *final(buyer_player) == one_plot_more(*old(buyer_player))
                &&& *final(seller_player) == one_plot_less(*old(seller_player))
            },
        }),
{
    if !buyer_player.wallet.same_as(&buyer) || !seller_player.wallet.same_as(&offer.seller)
        || buyer.same_as(&Pubkey::default()) {
        return Err(ErrorCode::NotOwner);
    }
    if offer.status != OfferStatus::Open {
        return Err(ErrorCode::OfferClosed);
    }
    if !plot.owner.same_as(&offer.seller) {
        return Err(ErrorCode::SellerNoLongerOwns);
    }
    if plot.owner.same_as(&Pubkey::default()) {
        return Err(ErrorCode::NotClaimed);
    }
    if offer.seller.same_as(&buyer) {
        return Err(ErrorCode::SelfTrade);
    }
    let for_this_buyer = match offer.buyer {
        Some(b) => b.same_as(&buyer),
        None => true,
    };
    if !for_this_buyer {
        return Err(ErrorCode::OfferNotForYou);
    }
    if buyer_player.plot_count >= MAX_PLOTS_PER_WALLET {
        return Err(ErrorCode::TooManyPlots);
    }
    let fee = mul_div(offer.price, FEE_BPS, BPS_ONE);
    assert(fee <= offer.price) by {
        assert(offer.price * 250 / 10_000 <= offer.price) by (nonlinear_arith);
    }
    let net = offer.price - fee;
    plot.owner = buyer;
    plot.claimed_at = now;
    offer.status = OfferStatus::Accepted;
    offer.buyer = Some(buyer);
    buyer_player.plot_count = buyer_player.plot_count + 1;
    seller_player.plot_count = seller_player.plot_count.saturating_sub(1);
    Ok(TradeSettlement {
        net,
        fee,
        event: PlotTraded { plot: plot_key, seller: offer.seller, buyer, price: offer.price },
    })
}

} // verus!
