use wheatgame::{accept_plot_offer, list_plot, ErrorCode, OfferStatus, Player, Plot, PlotOffer, PlotTier, Pubkey};

fn wallet(n: u8) -> Pubkey {
    let mut bytes = [9u8; 32];
    bytes[5] = n;
    Pubkey::new_from_array(bytes)
}

fn owned_plot(owner: Pubkey) -> Plot {
    Plot {
        id: 17,
        owner,
        tier: PlotTier::Silver,
        locked_amount: 5_000_000,
        claimed_at: 10,
        upgrade_level: 2,
        last_harvest: 0,
        bump: 250,
    }
}

fn empty_offer() -> PlotOffer {
    PlotOffer {
        plot: Pubkey::default(),
        seller: Pubkey::default(),
        buyer: None,
        price: 0,
        status: OfferStatus::Cancelled,
        created_at: 0,
        bump: 77,
    }
}

fn holder(w: Pubkey, plot_count: u8) -> Player {
    Player { wallet: w, plot_count, tribe: None, alliance: None, created_at: 0, bump: 0 }
}

#[test]
fn list_creates_an_open_offer() {
    let plot = owned_plot(wallet(1));
    let mut offer = empty_offer();
    list_plot(&mut offer, &plot, wallet(100), wallet(1), 1_000_000, Some(wallet(2)), 55).unwrap();
    assert!(offer.plot.same_as(&wallet(100)));
    assert!(offer.seller.same_as(&wallet(1)));
    assert!(offer.buyer.unwrap().same_as(&wallet(2)));
    assert_eq!(offer.price, 1_000_000);
    assert_eq!(offer.status, OfferStatus::Open);
    assert_eq!(offer.created_at, 55);
    assert_eq!(offer.bump, 77);
}

#[test]
fn list_refuses_a_stranger_or_zero_price() {
    let plot = owned_plot(wallet(1));
    let mut offer = empty_offer();
    let r = list_plot(&mut offer, &plot, wallet(100), wallet(2), 1_000_000, None, 55);
    assert_eq!(r.unwrap_err(), ErrorCode::NotOwner);
    assert_eq!(offer.status, OfferStatus::Cancelled);
    let r = list_plot(&mut offer, &plot, wallet(100), wallet(1), 0, None, 55);
    assert_eq!(r.unwrap_err(), ErrorCode::InvalidOrder);
    assert_eq!(offer.price, 0);
    assert_eq!(offer.status, OfferStatus::Cancelled);
}

#[test]
fn accept_moves_the_plot_and_charges_the_fee() {
    let mut plot = owned_plot(wallet(1));
    let mut offer = empty_offer();
    list_plot(&mut offer, &plot, wallet(100), wallet(1), 1_000_000, None, 55).unwrap();
    let mut buyer = holder(wallet(2), 3);
    let mut seller = holder(wallet(1), 2);
    let s = accept_plot_offer(&mut offer, &mut plot, &mut buyer, &mut seller, wallet(100), wallet(2), 99).unwrap();
    assert_eq!(buyer.plot_count, 4);
    assert_eq!(seller.plot_count, 1);
    assert_eq!(s.fee, 25_000);
    assert_eq!(s.net, 975_000);
    assert_eq!(s.fee + s.net, 1_000_000);
    assert!(s.event.plot.same_as(&wallet(100)));
    assert!(s.event.seller.same_as(&wallet(1)));
    assert!(s.event.buyer.same_as(&wallet(2)));
    assert_eq!(s.event.price, 1_000_000);
    assert!(plot.owner.same_as(&wallet(2)));
    assert_eq!(plot.claimed_at, 99);
    assert_eq!(plot.locked_amount, 5_000_000);
    assert_eq!(offer.status, OfferStatus::Accepted);
    assert!(offer.buyer.unwrap().same_as(&wallet(2)));
}

#[test]
fn accepted_offer_cannot_be_accepted_again() {
    let mut plot = owned_plot(wallet(1));
    let mut offer = empty_offer();
    list_plot(&mut offer, &plot, wallet(100), wallet(1), 40, None, 55).unwrap();
    let mut buyer = holder(wallet(2), 0);
    let mut seller = holder(wallet(1), 1);
    let mut later = holder(wallet(3), 0);
    accept_plot_offer(&mut offer, &mut plot, &mut buyer, &mut seller, wallet(100), wallet(2), 99).unwrap();
    let r = accept_plot_offer(&mut offer, &mut plot, &mut later, &mut seller, wallet(100), wallet(3), 100);
    assert_eq!(later.plot_count, 0);
    assert_eq!(buyer.plot_count, 1);
    assert_eq!(r.unwrap_err(), ErrorCode::OfferClosed);
    assert!(plot.owner.same_as(&wallet(2)));
}

#[test]
fn accept_refusals_in_order() {
    let mut plot = owned_plot(wallet(1));
    let mut offer = empty_offer();
    list_plot(&mut offer, &plot, wallet(100), wallet(1), 500, Some(wallet(3)), 55).unwrap();
    let mut seller = holder(wallet(1), 1);
    let mut b1 = holder(wallet(1), 1);
    let mut b2 = holder(wallet(2), 0);
    let mut b3 = holder(wallet(3), 0);

    // The seller no longer owns the plot.
    plot.owner = wallet(4);
    let r = accept_plot_offer(&mut offer, &mut plot, &mut b3, &mut seller, wallet(100), wallet(3), 60);
    assert_eq!(r.unwrap_err(), ErrorCode::SellerNoLongerOwns);
    assert!(plot.owner.same_as(&wallet(4)));
    plot.owner = wallet(1);

    // The seller buys from itself.
    let r = accept_plot_offer(&mut offer, &mut plot, &mut b1, &mut seller, wallet(100), wallet(1), 60);
    assert_eq!(r.unwrap_err(), ErrorCode::SelfTrade);

    // The offer names another buyer.
    let r = accept_plot_offer(&mut offer, &mut plot, &mut b2, &mut seller, wallet(100), wallet(2), 60);
    assert_eq!(r.unwrap_err(), ErrorCode::OfferNotForYou);
    assert_eq!(offer.status, OfferStatus::Open);
    assert!(plot.owner.same_as(&wallet(1)));

    // The named buyer may accept.
    let s = accept_plot_offer(&mut offer, &mut plot, &mut b3, &mut seller, wallet(100), wallet(3), 60).unwrap();
    assert_eq!(s.fee, 12);
    assert_eq!(s.net, 488);

    // A closed offer is refused before anything else.
    let mut closed = empty_offer();
    closed.seller = wallet(1);
    let r = accept_plot_offer(&mut closed, &mut plot, &mut b1, &mut seller, wallet(100), wallet(1), 61);
    assert_eq!(r.unwrap_err(), ErrorCode::OfferClosed);
}

#[test]
fn huge_price_fee_is_exact() {
    let mut plot = owned_plot(wallet(1));
    let mut offer = empty_offer();
    list_plot(&mut offer, &plot, wallet(100), wallet(1), u64::MAX, None, 1).unwrap();
    let mut buyer = holder(wallet(2), 0);
    let mut seller = holder(wallet(1), 1);
    let s = accept_plot_offer(&mut offer, &mut plot, &mut buyer, &mut seller, wallet(100), wallet(2), 2).unwrap();
    assert_eq!(s.fee, ((u64::MAX as u128) * 250 / 10_000) as u64);
    assert_eq!(s.fee, u64::MAX / 40);
    assert_eq!(s.fee as u128 + s.net as u128, u64::MAX as u128);
}

#[test]
fn accept_refuses_a_buyer_at_the_plot_cap() {
    let mut plot = owned_plot(wallet(1));
    let mut offer = empty_offer();
    list_plot(&mut offer, &plot, wallet(100), wallet(1), 700, None, 5).unwrap();
    let mut full = holder(wallet(2), 5);
    let mut seller = holder(wallet(1), 1);
    let r = accept_plot_offer(&mut offer, &mut plot, &mut full, &mut seller, wallet(100), wallet(2), 6);
    assert_eq!(r.unwrap_err(), ErrorCode::TooManyPlots);
    assert_eq!(full.plot_count, 5);
    assert_eq!(seller.plot_count, 1);
    assert!(plot.owner.same_as(&wallet(1)));
    assert_eq!(offer.status, OfferStatus::Open);
}

#[test]
fn accept_refuses_records_that_are_not_the_wallets() {
    let mut plot = owned_plot(wallet(1));
    let mut offer = empty_offer();
    list_plot(&mut offer, &plot, wallet(100), wallet(1), 700, None, 5).unwrap();
    let mut buyer = holder(wallet(2), 0);
    let mut seller = holder(wallet(1), 1);
    let mut stranger = holder(wallet(5), 1);
    let r = accept_plot_offer(&mut offer, &mut plot, &mut buyer, &mut stranger, wallet(100), wallet(2), 6);
    assert_eq!(r.unwrap_err(), ErrorCode::NotOwner);
    let r = accept_plot_offer(&mut offer, &mut plot, &mut stranger, &mut seller, wallet(100), wallet(2), 6);
    assert_eq!(r.unwrap_err(), ErrorCode::NotOwner);
    let mut nobody = holder(Pubkey::default(), 0);
    let r = accept_plot_offer(&mut offer, &mut plot, &mut nobody, &mut seller, wallet(100), Pubkey::default(), 6);
    assert_eq!(r.unwrap_err(), ErrorCode::NotOwner);
    assert_eq!(buyer.plot_count, 0);
    assert_eq!(seller.plot_count, 1);
    assert_eq!(stranger.plot_count, 1);
    assert!(plot.owner.same_as(&wallet(1)));
    assert_eq!(offer.status, OfferStatus::Open);
}

#[test]
fn unclaimed_plots_cannot_be_listed_or_sold() {
    let mut plot = owned_plot(Pubkey::default());
    plot.locked_amount = 0;
    let mut offer = empty_offer();
    let r = list_plot(&mut offer, &plot, wallet(100), Pubkey::default(), 700, None, 5);
    assert_eq!(r.unwrap_err(), ErrorCode::NotClaimed);
    assert_eq!(offer.status, OfferStatus::Cancelled);
    offer.status = OfferStatus::Open;
    offer.price = 700;
    let mut buyer = holder(wallet(2), 0);
    let mut seller = holder(Pubkey::default(), 0);
    let r = accept_plot_offer(&mut offer, &mut plot, &mut buyer, &mut seller, wallet(100), wallet(2), 6);
    assert_eq!(r.unwrap_err(), ErrorCode::NotClaimed);
    assert!(plot.owner.same_as(&Pubkey::default()));
    assert_eq!(buyer.plot_count, 0);
}
