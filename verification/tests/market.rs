use wheatgame::{match_book, place_order, ErrorCode, ItemType, Order, OrderStatus, PlaceOrderArgs, Pubkey, Side};

fn maker(n: u8) -> Pubkey {
    let mut bytes = [0u8; 32];
    bytes[10] = n;
    Pubkey::new_from_array(bytes)
}

fn order(id: u64, who: u8, item: ItemType, side: Side, qty: u64, price: u64) -> Order {
    Order {
        id,
        maker: maker(who),
        item,
        side,
        quantity: qty,
        remaining: qty,
        price,
        status: OrderStatus::Open,
        created_at: 0,
        bump: 1,
    }
}

fn blank_order() -> Order {
    Order {
        id: 0,
        maker: Pubkey::default(),
        item: ItemType::Wheat,
        side: Side::Bid,
        quantity: 0,
        remaining: 0,
        price: 0,
        status: OrderStatus::Cancelled,
        created_at: 0,
        bump: 42,
    }
}

#[test]
fn place_bid_locks_quantity_times_price() {
    let mut o = blank_order();
    let mut book: Vec<Order> = Vec::new();
    let args = PlaceOrderArgs { id: 9, item: ItemType::Corn, side: Side::Bid, quantity: 12, price: 300 };
    let placed = place_order(&mut o, &mut book, maker(1), args, 1_000).unwrap();
    assert_eq!(placed.lock, 3_600);
    assert!(placed.fills.is_empty());
    assert_eq!(o.id, 9);
    assert!(o.maker.same_as(&maker(1)));
    assert_eq!(o.item, ItemType::Corn);
    assert_eq!(o.side, Side::Bid);
    assert_eq!(o.quantity, 12);
    assert_eq!(o.remaining, 12);
    assert_eq!(o.price, 300);
    assert_eq!(o.status, OrderStatus::Open);
    assert_eq!(o.created_at, 1_000);
    assert_eq!(o.bump, 42);
}

#[test]
fn place_ask_locks_quantity() {
    let mut o = blank_order();
    let mut book: Vec<Order> = Vec::new();
    let args = PlaceOrderArgs { id: 10, item: ItemType::Fish, side: Side::Ask, quantity: 12, price: 300 };
    assert_eq!(place_order(&mut o, &mut book, maker(1), args, 1_000).unwrap().lock, 12);
}

#[test]
fn place_bid_refuses_a_lock_that_does_not_fit() {
    let mut o = blank_order();
    let mut book = vec![order(1, 2, ItemType::Egg, Side::Ask, 5, 1)];
    let args = PlaceOrderArgs { id: 11, item: ItemType::Egg, side: Side::Bid, quantity: u64::MAX, price: 2 };
    assert_eq!(place_order(&mut o, &mut book, maker(1), args, 0).unwrap_err(), ErrorCode::MathOverflow);
    assert_eq!(o.status, OrderStatus::Cancelled);
    assert_eq!(book[0].remaining, 5);
}

#[test]
fn place_refuses_zero_quantity_or_price() {
    let mut o = blank_order();
    let mut book: Vec<Order> = Vec::new();
    let zero_qty = PlaceOrderArgs { id: 1, item: ItemType::Milk, side: Side::Ask, quantity: 0, price: 5 };
    assert_eq!(place_order(&mut o, &mut book, maker(1), zero_qty, 0).unwrap_err(), ErrorCode::InvalidOrder);
    let zero_price = PlaceOrderArgs { id: 1, item: ItemType::Milk, side: Side::Bid, quantity: 5, price: 0 };
    assert_eq!(place_order(&mut o, &mut book, maker(1), zero_price, 0).unwrap_err(), ErrorCode::InvalidOrder);
    assert_eq!(o.status, OrderStatus::Cancelled);
    assert_eq!(o.quantity, 0);
}

#[test]
fn new_bid_matches_resting_asks_on_insert() {
    let mut o = blank_order();
    let mut asks = vec![
        order(1, 2, ItemType::Wheat, Side::Ask, 4, 90),
        order(2, 1, ItemType::Wheat, Side::Ask, 4, 80),
        order(3, 3, ItemType::Wheat, Side::Ask, 4, 130),
        order(4, 4, ItemType::Wheat, Side::Ask, 4, 100),
    ];
    let args = PlaceOrderArgs { id: 50, item: ItemType::Wheat, side: Side::Bid, quantity: 6, price: 110 };
    let placed = place_order(&mut o, &mut asks, maker(1), args, 7).unwrap();
    assert_eq!(placed.lock, 660);
    assert_eq!(placed.fills.len(), 2);
    assert_eq!((placed.fills[0].ask, placed.fills[0].bid, placed.fills[0].qty, placed.fills[0].price), (1, 50, 4, 90));
    assert_eq!((placed.fills[1].ask, placed.fills[1].bid, placed.fills[1].qty, placed.fills[1].price), (4, 50, 2, 100));
    assert_eq!(o.remaining, 0);
    assert_eq!(o.status, OrderStatus::Filled);
    assert_eq!(asks[0].status, OrderStatus::Filled);
    // Own ask and an ask priced above the bid stay untouched.
    assert_eq!(asks[1].remaining, 4);
    assert_eq!(asks[2].remaining, 4);
    assert_eq!(asks[3].remaining, 2);
}

#[test]
fn new_ask_matches_best_first_bids_on_insert() {
    let mut o = blank_order();
    let mut bids = vec![
        order(1, 2, ItemType::Milk, Side::Bid, 3, 120),
        order(2, 3, ItemType::Milk, Side::Bid, 3, 100),
        order(3, 4, ItemType::Milk, Side::Bid, 3, 90),
    ];
    let args = PlaceOrderArgs { id: 60, item: ItemType::Milk, side: Side::Ask, quantity: 10, price: 100 };
    let placed = place_order(&mut o, &mut bids, maker(1), args, 7).unwrap();
    assert_eq!(placed.lock, 10);
    assert_eq!(placed.fills.len(), 2);
    assert_eq!(o.remaining, 4);
    assert_eq!(o.status, OrderStatus::Open);
    assert_eq!(bids[0].status, OrderStatus::Filled);
    assert_eq!(bids[1].status, OrderStatus::Filled);
    assert_eq!(bids[2].remaining, 3);
    // Nothing left that could still trade with the new ask.
    for b in &bids {
        assert!(b.status != OrderStatus::Open || b.price < o.price);
    }
}

#[test]
fn new_ask_takes_the_highest_bid_first_whatever_the_order() {
    let mut o = blank_order();
    let mut bids = vec![
        order(1, 2, ItemType::Corn, Side::Bid, 3, 90),
        order(2, 3, ItemType::Corn, Side::Bid, 3, 120),
    ];
    let args = PlaceOrderArgs { id: 70, item: ItemType::Corn, side: Side::Ask, quantity: 5, price: 100 };
    let placed = place_order(&mut o, &mut bids, maker(1), args, 7).unwrap();
    assert_eq!(placed.fills.len(), 1);
    assert_eq!((placed.fills[0].ask, placed.fills[0].bid, placed.fills[0].qty, placed.fills[0].price), (70, 2, 3, 100));
    assert_eq!(placed.fills[0].fee, 7);
    assert_eq!(placed.fills[0].net, 293);
    assert_eq!(bids[1].status, OrderStatus::Filled);
    assert_eq!(bids[0].remaining, 3);
    assert_eq!(bids[0].status, OrderStatus::Open);
    assert_eq!(o.remaining, 2);
    assert_eq!(o.status, OrderStatus::Open);
}

#[test]
fn new_bid_takes_the_lowest_ask_and_the_earliest_of_equal_prices() {
    let mut o = blank_order();
    let mut asks = vec![
        order(1, 2, ItemType::Egg, Side::Ask, 2, 70),
        order(2, 3, ItemType::Egg, Side::Ask, 2, 50),
        order(3, 4, ItemType::Egg, Side::Ask, 2, 50),
    ];
    let args = PlaceOrderArgs { id: 80, item: ItemType::Egg, side: Side::Bid, quantity: 5, price: 80 };
    let placed = place_order(&mut o, &mut asks, maker(1), args, 7).unwrap();
    let order_of_fills: Vec<(u64, u64, u64)> = placed.fills.iter().map(|f| (f.ask, f.qty, f.price)).collect();
    assert_eq!(order_of_fills, vec![(2, 2, 50), (3, 2, 50), (1, 1, 70)]);
    assert_eq!(o.status, OrderStatus::Filled);
    assert_eq!(asks[0].remaining, 1);
}

#[test]
fn new_order_leaves_its_own_side_and_other_items_alone() {
    let mut o = blank_order();
    let mut book = vec![
        order(1, 2, ItemType::Honey, Side::Bid, 4, 90),
        order(2, 3, ItemType::Milk, Side::Ask, 4, 10),
        order(3, 4, ItemType::Honey, Side::Ask, 4, 200),
    ];
    let before = book.clone();
    let args = PlaceOrderArgs { id: 90, item: ItemType::Honey, side: Side::Bid, quantity: 3, price: 100 };
    let placed = place_order(&mut o, &mut book, maker(1), args, 7).unwrap();
    assert!(placed.fills.is_empty());
    for (b, a) in book.iter().zip(before.iter()) {
        assert_eq!((b.id, b.remaining, b.status), (a.id, a.remaining, a.status));
    }
    assert_eq!(o.remaining, 3);
    assert_eq!(o.status, OrderStatus::Open);
}

#[test]
fn match_fills_at_ask_price_and_skips_self_trades() {
    let mut asks = vec![order(1, 1, ItemType::Wheat, Side::Ask, 10, 100)];
    let mut bids = vec![
        order(2, 2, ItemType::Wheat, Side::Bid, 5, 120),
        order(3, 1, ItemType::Wheat, Side::Bid, 10, 110),
        order(4, 3, ItemType::Wheat, Side::Bid, 10, 100),
        order(5, 4, ItemType::Wheat, Side::Bid, 10, 100),
    ];
    let fills = match_book(ItemType::Wheat, &mut asks, &mut bids).unwrap();
    assert_eq!(fills.len(), 2);
    assert_eq!((fills[0].ask, fills[0].bid, fills[0].qty, fills[0].price), (1, 2, 5, 100));
    assert_eq!((fills[0].fee, fills[0].net), (12u128, 488u128));
    assert_eq!((fills[1].ask, fills[1].bid, fills[1].qty, fills[1].price), (1, 4, 5, 100));
    assert_eq!(asks[0].remaining, 0);
    assert_eq!(asks[0].status, OrderStatus::Filled);
    assert_eq!(bids[0].remaining, 0);
    assert_eq!(bids[0].status, OrderStatus::Filled);
    // Same maker as the ask: untouched.
    assert_eq!(bids[1].remaining, 10);
    assert_eq!(bids[1].status, OrderStatus::Open);
    assert_eq!(bids[2].remaining, 5);
    assert_eq!(bids[2].status, OrderStatus::Open);
    // The ask was filled before reaching the last bid.
    assert_eq!(bids[3].remaining, 10);
}

#[test]
fn match_stops_at_a_bid_below_the_ask() {
    let mut asks = vec![order(1, 1, ItemType::Corn, Side::Ask, 10, 100)];
    let mut bids = vec![
        order(2, 2, ItemType::Corn, Side::Bid, 3, 150),
        order(3, 3, ItemType::Corn, Side::Bid, 3, 90),
        order(4, 4, ItemType::Corn, Side::Bid, 3, 200),
    ];
    let fills = match_book(ItemType::Corn, &mut asks, &mut bids).unwrap();
    assert_eq!(fills.len(), 1);
    assert_eq!(fills[0].qty, 3);
    assert_eq!(asks[0].remaining, 7);
    assert_eq!(asks[0].status, OrderStatus::Open);
    assert_eq!(bids[2].remaining, 3);
}

#[test]
fn match_ignores_other_items_and_closed_orders() {
    let mut closed_ask = order(1, 1, ItemType::Honey, Side::Ask, 10, 1);
    closed_ask.status = OrderStatus::Cancelled;
    let mut asks = vec![closed_ask, order(2, 1, ItemType::Wool, Side::Ask, 10, 1)];
    let mut filled_bid = order(3, 2, ItemType::Honey, Side::Bid, 10, 5);
    filled_bid.status = OrderStatus::Filled;
    let mut bids = vec![filled_bid, order(4, 2, ItemType::Wool, Side::Bid, 10, 5)];
    let fills = match_book(ItemType::Honey, &mut asks, &mut bids).unwrap();
    assert!(fills.is_empty());
    assert_eq!(asks[1].remaining, 10);
    assert_eq!(bids[1].remaining, 10);
}

#[test]
fn match_conserves_quantity_across_many_orders() {
    let mut asks = vec![
        order(1, 1, ItemType::Truffle, Side::Ask, 4, 10),
        order(2, 2, ItemType::Truffle, Side::Ask, 7, 12),
        order(3, 3, ItemType::Truffle, Side::Ask, 5, 11),
    ];
    let mut bids = vec![
        order(10, 4, ItemType::Truffle, Side::Bid, 6, 15),
        order(11, 2, ItemType::Truffle, Side::Bid, 6, 13),
        order(12, 5, ItemType::Truffle, Side::Bid, 6, 12),
    ];
    let ask_before: u64 = asks.iter().map(|o| o.remaining).sum();
    let bid_before: u64 = bids.iter().map(|o| o.remaining).sum();
    let fills = match_book(ItemType::Truffle, &mut asks, &mut bids).unwrap();
    let ask_after: u64 = asks.iter().map(|o| o.remaining).sum();
    let bid_after: u64 = bids.iter().map(|o| o.remaining).sum();
    let traded: u64 = fills.iter().map(|f| f.qty).sum();
    assert!(traded > 0);
    assert_eq!(ask_before - ask_after, traded);
    assert_eq!(bid_before - bid_after, traded);
    for f in &fills {
        assert_eq!(f.fee + f.net, f.qty as u128 * f.price as u128);
    }
}

#[test]
fn match_zero_remaining_ask_is_marked_filled() {
    let mut empty_ask = order(1, 1, ItemType::Pumpkin, Side::Ask, 4, 10);
    empty_ask.remaining = 0;
    let mut asks = vec![empty_ask];
    let mut bids = vec![order(2, 2, ItemType::Pumpkin, Side::Bid, 3, 10)];
    let fills = match_book(ItemType::Pumpkin, &mut asks, &mut bids).unwrap();
    assert_eq!(fills.len(), 1);
    assert_eq!(fills[0].qty, 0);
    assert_eq!(asks[0].status, OrderStatus::Filled);
    assert_eq!(bids[0].remaining, 3);
    assert_eq!(bids[0].status, OrderStatus::Open);
}

#[test]
fn match_fee_on_a_gross_beyond_64_bits_is_exact() {
    let mut asks = vec![order(1, 1, ItemType::Fish, Side::Ask, u64::MAX, u64::MAX)];
    let mut bids = vec![order(2, 2, ItemType::Fish, Side::Bid, u64::MAX, u64::MAX)];
    let fills = match_book(ItemType::Fish, &mut asks, &mut bids).unwrap();
    let gross = u64::MAX as u128 * u64::MAX as u128;
    assert_eq!(fills[0].fee, gross / 40);
    assert_eq!(fills[0].fee + fills[0].net, gross);
}

#[test]
fn insert_moves_quantity_one_for_one_in_whole_fills() {
    let mut o = blank_order();
    let mut book = vec![
        order(1, 2, ItemType::MagicHerb, Side::Bid, 4, 30),
        order(2, 3, ItemType::MagicHerb, Side::Bid, 1, 50),
        order(3, 4, ItemType::MagicHerb, Side::Bid, 9, 10),
        order(4, 5, ItemType::MagicHerb, Side::Bid, 2, 40),
    ];
    let book_before: u64 = book.iter().map(|b| b.remaining).sum();
    let args = PlaceOrderArgs { id: 95, item: ItemType::MagicHerb, side: Side::Ask, quantity: 6, price: 30 };
    let placed = place_order(&mut o, &mut book, maker(1), args, 7).unwrap();
    let traded: u64 = placed.fills.iter().map(|f| f.qty).sum();
    let book_after: u64 = book.iter().map(|b| b.remaining).sum();
    assert_eq!(traded, 6);
    assert_eq!(traded, args.quantity - o.remaining);
    assert_eq!(traded, book_before - book_after);
    let bids_in_order: Vec<u64> = placed.fills.iter().map(|f| f.bid).collect();
    assert_eq!(bids_in_order, vec![2, 4, 1]);
    assert!(placed.fills.iter().all(|f| f.qty > 0));
    assert_eq!(o.status, OrderStatus::Filled);
    assert_eq!(book[0].remaining, 1);
    assert_eq!(book[0].status, OrderStatus::Open);
    for b in &book {
        assert!(b.status != OrderStatus::Open || b.remaining > 0);
    }
}

#[test]
fn match_on_a_sound_book_leaves_no_open_order_empty() {
    let mut asks = vec![
        order(1, 1, ItemType::Wheat, Side::Ask, 3, 10),
        order(2, 2, ItemType::Wheat, Side::Ask, 5, 11),
    ];
    let mut bids = vec![
        order(3, 3, ItemType::Wheat, Side::Bid, 4, 12),
        order(4, 4, ItemType::Wheat, Side::Bid, 4, 11),
    ];
    let fills = match_book(ItemType::Wheat, &mut asks, &mut bids).unwrap();
    assert!(fills.iter().all(|f| f.qty > 0));
    for o in asks.iter().chain(bids.iter()) {
        assert!(o.status != OrderStatus::Open || o.remaining > 0);
        assert!(o.remaining != 0 || o.status == OrderStatus::Filled);
    }
}
