use vstd::prelude::*;

use crate::arith::{min_u64, sat_sub, saturating_sub, share};
use crate::errors::ErrorCode;
use crate::pubkey::Pubkey;
use crate::state::{ItemType, Order, OrderStatus, Side, BPS_ONE, FEE_BPS};

verus! {

/// One fill between a resting ask and a bid, as the order book reports it:
/// `qty` at `price`, and the gross `qty * price` split exactly into the
/// protocol `fee` and the seller's `net`.
#[derive(Clone, Copy, Debug, PartialEq, Eq, Structural)]
pub struct OrderFilled {
    pub ask: u64,
    pub bid: u64,
    pub qty: u64,
    pub price: u64,
    pub fee: u128,
    pub net: u128,
}

/// The terms of a new order.
#[derive(Clone, Copy, Debug, PartialEq, Eq, Structural)]
pub struct PlaceOrderArgs {
    pub id: u64,
    pub item: ItemType,
    pub side: Side,
    pub quantity: u64,
    pub price: u64,
}

/// What placing an order locks in escrow, and what it matched on insert.
#[derive(Debug)]
pub struct Placement {
    /// USDC for a bid (quantity times price), items for an ask (quantity).
    pub lock: u64,
    /// The fills of the new order against the book, in order.
    pub fills: Vec<OrderFilled>,
}

/// What placing an order locks in escrow: for a bid, quantity times price
/// in USDC; for an ask, the quantity of the item.
pub open spec fn escrow_amount(args: PlaceOrderArgs) -> int {
    match args.side {
        Side::Bid => args.quantity * args.price,
        Side::Ask => args.quantity as int,
    }
}

/// The order that placing `args` for `maker` at `now` creates, before any
/// matching.
pub open spec fn new_order(args: PlaceOrderArgs, maker: Pubkey, now: i64, bump: u8) -> Order {
    Order {
        id: args.id,
        maker,
        item: args.item,
        side: args.side,
        quantity: args.quantity,
        remaining: args.quantity,
        price: args.price,
        status: OrderStatus::Open,
        created_at: now,
        bump,
    }
}

/// Why placing an order is refused, if it is.
pub open spec fn place_error(args: PlaceOrderArgs) -> Option<ErrorCode> {
    if args.quantity == 0 || args.price == 0 {
        Some(ErrorCode::InvalidOrder)
    } else if escrow_amount(args) > u64::MAX {
        Some(ErrorCode::MathOverflow)
    } else {
        None
    }
}

/// A resting order that the new order `n` may trade with: for the same
/// item, open, on the other side, and of another maker.
pub open spec fn counterparty(n: Order, o: Order) -> bool {
    &&& o.item == n.item
    &&& o.status == OrderStatus::Open
    &&& o.side != n.side
    &&& o.maker@ != n.maker@
}

/// `o1` is priced better than `o2` for the new order `n`: lower for a new
/// bid, higher for a new ask.
pub open spec fn better_price(n: Order, o1: Order, o2: Order) -> bool {
    if n.side == Side::Bid {
        o1.price < o2.price
    } else {
        o1.price > o2.price
    }
}

/// `o` is priced so that the new order `n` can trade with it.
pub open spec fn prices_cross(n: Order, o: Order) -> bool {
    if n.side == Side::Bid {
        o.price <= n.price
    } else {
        o.price >= n.price
    }
}

/// The best counterparty of `n` among the first `k` orders of the book: the
/// best price, the earliest of equal prices.
pub open spec fn best_in(n: Order, book: Seq<Order>, k: int) -> Option<int>
    decreases k,
{
    if k <= 0 {
        None
    } else {
        let r = best_in(n, book, k - 1);
        if !counterparty(n, book[k - 1]) {
            r
        } else {
            match r {
                None => Some(k - 1),
                Some(b) => if better_price(n, book[k - 1], book[b]) {
                    Some(k - 1)
                } else {
                    Some(b)
                },
            }
        }
    }
}

/// The fill of the new order `n` against the resting order `o`, traded at
/// the ask's price.
pub open spec fn insert_fill(n: Order, o: Order) -> OrderFilled {
    if n.side == Side::Bid {
        fill_event(o, n)
    } else {
        fill_event(n, o)
    }
}

/// Matching the new order `n` against the book on insert, for at most
/// `fuel` fills: while `n` is open, it trades with its best counterparty as
/// long as their prices cross. Returns `n` and the book afterwards and the
/// fills in order.
pub open spec fn insert_match(n: Order, book: Seq<Order>, fuel: nat) -> (Order, Seq<Order>, Seq<
    OrderFilled,
>)
    decreases fuel,
{
    if fuel == 0 || n.status != OrderStatus::Open {
        (n, book, seq![])
    } else {
        match best_in(n, book, book.len() as int) {
            None => (n, book, seq![]),
            Some(b) => if !prices_cross(n, book[b]) {
                (n, book, seq![])
            } else {
                let e = insert_fill(n, book[b]);
                let r = insert_match(
                    after_fill(n, e.qty),
                    book.update(b, after_fill(book[b], e.qty)),
                    (fuel - 1) as nat,
                );
                (r.0, r.1, seq![e] + r.2)
            },
        }
    }
}

/// Finds the best counterparty of `n` in the book.
fn best_counterparty(n: &Order, book: &Vec<Order>) -> (r: Option<usize>)
    ensures
        match r {
            None => best_in(*n, book@, book@.len() as int) is None,
            Some(b) => best_in(*n, book@, book@.len() as int) == Some(b as int) && b < book@.len(),
        },
{
    let mut best: Option<usize> = None;
    let mut k: usize = 0;
    while k < book.len()
        invariant
            k <= book@.len(),
            match best {
                None => best_in(*n, book@, k as int) is None,
                Some(b) => best_in(*n, book@, k as int) == Some(b as int) && b < k,
            },
        decreases book.len() - k,
    {
        let o = book[k];
        let eligible = o.item == n.item && o.status == OrderStatus::Open && o.side != n.side
            && !o.maker.same_as(&n.maker);
        if eligible {
            best = match best {
                None => Some(k),
                Some(b) => {
                    let better = if n.side == Side::Bid {
                        o.price < book[b].price
                    } else {
                        o.price > book[b].price
                    };
                    if better {
                        Some(k)
                    } else {
                        Some(b)
                    }
                },
            };
        }
        k = k + 1;
    }
    best
}

/// Places an order for `maker` with the given terms and matches it on insert
/// against the resting orders in `book`, best price first: while the new
/// order is open it trades with its best counterparty (same item, open, other
/// side, other maker; the lowest ask for a new bid, the highest bid for a new
/// ask, the earliest of equal prices) as long as their prices cross, at the
/// ask's price. Orders of the book that are not counterparties are left
/// alone. Returns the amount to lock in escrow and the fills. The order
/// account keeps only its bump.
///
/// Refused, changing nothing, with `InvalidOrder` when the quantity or the
/// price is zero, then with `MathOverflow` when a bid's quantity times price
/// does not fit in 64 bits.
pub fn place_order(
    order: &mut Order,
    book: &mut Vec<Order>,
    maker: Pubkey,
    args: PlaceOrderArgs,
    now: i64,
) -> (r: Result<Placement, ErrorCode>)
    ensures
        (match place_error(args) {
            Some(e) => {
                &&& r matches Err(x) && x == e
                &&& *final(order) == *old(order)
                &&& final(book)@ == old(book)@
            },
            None => {
                let m = insert_match(
                    new_order(args, maker, now, old(order).bump),
                    old(book)@,
                    old(book)@.len(),
                );
                &&& r matches Ok(p) && p.lock == escrow_amount(args) && p.fills@ == m.2
                &&& *final(order) == m.0
                &&& final(book)@ == m.1
            },
        }),
{
    if !(args.quantity > 0 && args.price > 0) {
        return Err(ErrorCode::InvalidOrder);
    }
    let lock = match args.side {
        Side::Bid => match args.quantity.checked_mul(args.price) {
            Some(v) => v,
            None => {
                return Err(ErrorCode::MathOverflow);
            },
        },
        Side::Ask => args.quantity,
    };
    let mut n = Order {
        id: args.id,
        maker,
        item: args.item,
        side: args.side,
        quantity: args.quantity,
        remaining: args.quantity,
        price: args.price,
        status: OrderStatus::Open,
        created_at: now,
        bump: order.bump,
    };
    let ghost total = insert_match(n, book@, book@.len());
    let mut fills: Vec<OrderFilled> = Vec::new();
    let mut steps: usize = book.len();
    let mut done = false;
    while steps > 0 && !done
        invariant
            ({
                if done {
                    &&& n == total.0
                    &&& book@ == total.1
                    &&& fills@ == total.2
                } else {
                    let m = insert_match(n, book@, steps as nat);
                    &&& m.0 == total.0
                    &&& m.1 == total.1
                    &&& fills@ + m.2 == total.2
                }
            }),
            steps == 0 && !done ==> insert_match(n, book@, 0) == insert_match(n, book@, steps as nat),
        decreases steps + (if done { 0int } else { 1int }),
    {
        if n.status != OrderStatus::Open {
            done = true;
        } else {
            match best_counterparty(&n, book) {
                None => {
                    done = true;
                },
                Some(b) => {
                    let o = book[b];
                    let crosses = if n.side == Side::Bid {
                        o.price <= n.price
                    } else {
                        o.price >= n.price
                    };
                    if !crosses {
                        done = true;
                    } else {
                        let ghost n0 = n;
                        let ghost book0 = book@;
                        let ghost fills0 = fills@;
                        let (ask, bid) = if n.side == Side::Bid {
                            (o, n)
                        } else {
                            (n, o)
                        };
                        let qty = if ask.remaining < bid.remaining {
                            ask.remaining
                        } else {
                            bid.remaining
                        };
                        assert(qty as int * ask.price as int <= u128::MAX) by (nonlinear_arith)
                            requires
                                qty <= u64::MAX,
                                ask.price <= u64::MAX,
                        ;
                        let gross: u128 = (qty as u128) * (ask.price as u128);
                        let fee = share(gross, FEE_BPS as u128, BPS_ONE as u128);
                        let e = OrderFilled {
                            ask: ask.id,
                            bid: bid.id,
                            qty,
                            price: ask.price,
                            fee,
                            net: gross - fee,
                        };
                        n.remaining = saturating_sub(n.remaining, qty);
                        if n.remaining == 0 {
                            n.status = OrderStatus::Filled;
                        }
                        let mut filled = o;
                        filled.remaining = saturating_sub(o.remaining, qty);
                        if filled.remaining == 0 {
                            filled.status = OrderStatus::Filled;
                        }
                        book.set(b, filled);
                        fills.push(e);
                        proof {
                            assert(e == insert_fill(n0, book0[b as int]));
                            assert(n == after_fill(n0, qty));
                            assert(book@ == book0.update(b as int, after_fill(book0[b as int], qty)));
                            assert(fills0 + (seq![e] + insert_match(n, book@, (steps - 1) as nat).2)
                                == fills@ + insert_match(n, book@, (steps - 1) as nat).2);
                        }
                        steps = steps - 1;
                    }
                },
            }
        }
    }
    *order = n;
    Ok(Placement { lock, fills })
}

/// An order takes part in matching for `item` while it is open.
pub open spec fn is_live(o: Order, item: ItemType) -> bool {
    o.item == item && o.status == OrderStatus::Open
}

/// Protocol fee on a gross amount: 2.5%, rounded down.
pub open spec fn trade_fee(gross: int) -> int {
    gross * FEE_BPS / BPS_ONE as int
}

/// The fill of `ask` against `bid`: the smaller remaining quantity, traded
/// at the ask's price, its gross split exactly into fee and net.
pub open spec fn fill_event(ask: Order, bid: Order) -> OrderFilled {
    let qty = min_u64(ask.remaining, bid.remaining);
    let gross = qty * ask.price;
    let fee = trade_fee(gross);
    OrderFilled {
        ask: ask.id,
        bid: bid.id,
        qty,
        price: ask.price,
        fee: fee as u128,
        net: (gross - fee) as u128,
    }
}

/// An order after `qty` of it was filled; it is marked filled once
/// nothing remains.
pub open spec fn after_fill(o: Order, qty: u64) -> Order {
    let rem = sat_sub(o.remaining, qty);
    Order {
        remaining: rem,
        status: if rem == 0 {
            OrderStatus::Filled
        } else {
            o.status
        },
        ..o
    }
}

/// Matching one ask against the live bids from index `j` on: the ask and
/// the bids afterwards, and the fills in the order they happened.
///
/// The scan stops at the first live bid priced below the ask, skips bids
/// of the ask's own maker, and stops once the ask is filled.
pub open spec fn match_ask(item: ItemType, ask: Order, bids: Seq<Order>, j: int) -> (Order, Seq<
    Order,
>, Seq<OrderFilled>)
    decreases bids.len() - j,
{
    if j < 0 || j >= bids.len() {
        (ask, bids, seq![])
    } else if !is_live(bids[j], item) {
        match_ask(item, ask, bids, j + 1)
    } else if bids[j].price < ask.price {
        (ask, bids, seq![])
    } else if bids[j].maker@ == ask.maker@ {
        match_ask(item, ask, bids, j + 1)
    } else {
        let e = fill_event(ask, bids[j]);
        let ask2 = after_fill(ask, e.qty);
        let bids2 = bids.update(j, after_fill(bids[j], e.qty));
        if ask2.remaining == 0 {
            (ask2, bids2, seq![e])
        } else {
            let r = match_ask(item, ask2, bids2, j + 1);
            (r.0, r.1, seq![e] + r.2)
        }
    }
}

/// Matching the live asks from index `i` on, each in turn against the bids.
pub open spec fn match_from(item: ItemType, asks: Seq<Order>, bids: Seq<Order>, i: int) -> (Seq<
    Order,
>, Seq<Order>, Seq<OrderFilled>)
    decreases asks.len() - i,
{
    if i < 0 || i >= asks.len() {
        (asks, bids, seq![])
    } else if !is_live(asks[i], item) {
        match_from(item, asks, bids, i + 1)
    } else {
        let m = match_ask(item, asks[i], bids, 0);
        let r = match_from(item, asks.update(i, m.0), m.1, i + 1);
        (r.0, r.1, m.2 + r.2)
    }
}

/// The whole matching pass of the book for one item.
pub open spec fn match_book_spec(item: ItemType, asks: Seq<Order>, bids: Seq<Order>) -> (Seq<
    Order,
>, Seq<Order>, Seq<OrderFilled>) {
    match_from(item, asks, bids, 0)
}

/// Matches one ask against the bids, appending the fills to `events`.
fn match_ask_exec(item: ItemType, ask: &mut Order, bids: &mut Vec<Order>, events: &mut Vec<OrderFilled>)
    ensures
        ({
            let m = match_ask(item, *old(ask), old(bids)@, 0);
            &&& *final(ask) == m.0
            &&& final(bids)@ == m.1
            &&& final(events)@ == old(events)@ + m.2
        }),
{
    let ghost a0 = *ask;
    let ghost b0 = bids@;
    let ghost e0 = events@;
    let mut j: usize = 0;
    let mut done = false;
    while j < bids.len() && !done
        invariant
            bids@.len() == b0.len(),
            j <= bids@.len(),
            ({
                let m0 = match_ask(item, a0, b0, 0);
                if done {
                    &&& *ask == m0.0
                    &&& bids@ == m0.1
                    &&& events@ == e0 + m0.2
                } else {
                    let m = match_ask(item, *ask, bids@, j as int);
                    &&& m.0 == m0.0
                    &&& m.1 == m0.1
                    &&& events@ + m.2 == e0 + m0.2
                }
            }),
        decreases bids.len() - j + (if done { 0int } else { 1int }),
    {
        let bid = bids[j];
        if bid.item == item && bid.status == OrderStatus::Open {
            if bid.price < ask.price {
                done = true;
            } else if bid.maker.same_as(&ask.maker) {
                j = j + 1;
            } else {
                let ghost ask_before = *ask;
                let ghost bids_before = bids@;
                let ghost events_before = events@;
                let qty = if ask.remaining < bid.remaining {
                    ask.remaining
                } else {
                    bid.remaining
                };
                let price = ask.price;
                assert(qty as int * price as int <= u128::MAX) by (nonlinear_arith)
                    requires
                        qty <= u64::MAX,
                        price <= u64::MAX,
                ;
                let gross: u128 = (qty as u128) * (price as u128);
                let fee = share(gross, FEE_BPS as u128, BPS_ONE as u128);
                let net = gross - fee;
                ask.remaining = saturating_sub(ask.remaining, qty);
                let mut filled_bid = bid;
                filled_bid.remaining = saturating_sub(bid.remaining, qty);
                if ask.remaining == 0 {
                    ask.status = OrderStatus::Filled;
                }
                if filled_bid.remaining == 0 {
                    filled_bid.status = OrderStatus::Filled;
                }
                bids.set(j, filled_bid);
                let e = OrderFilled { ask: ask.id, bid: filled_bid.id, qty, price, fee, net };
                events.push(e);
                proof {
                    let ev = fill_event(ask_before, bids_before[j as int]);
                    assert(e == ev);
                    assert(*ask == after_fill(ask_before, qty));
                    assert(bids@ == bids_before.update(j as int, after_fill(bids_before[j as int], qty)));
                }
                if ask.remaining == 0 {
                    done = true;
                } else {
                    j = j + 1;
                }
            }
        } else {
            j = j + 1;
        }
    }
}

/// Runs one matching pass of the book for `item`.
///
/// Each open ask for the item, in the order given, meets the open bids for
/// the item in the order given: the scan stops at the first bid priced below
/// the ask, skips bids of the same maker, and fills the smaller remaining
/// quantity at the ask's price, charging the 2.5% fee on the gross. An order
/// with nothing left is marked filled. Returns the fills in order.
pub fn match_book(item: ItemType, asks: &mut Vec<Order>, bids: &mut Vec<Order>) -> (r: Result<
    Vec<OrderFilled>,
    ErrorCode,
>)
    ensures
        ({
            let m = match_book_spec(item, old(asks)@, old(bids)@);
            &&& final(asks)@ == m.0
            &&& final(bids)@ == m.1
            &&& r matches Ok(events) && events@ == m.2
        }),
{
    let ghost a0 = asks@;
    let ghost b0 = bids@;
    let mut events: Vec<OrderFilled> = Vec::new();
    let mut i: usize = 0;
    while i < asks.len()
        invariant
            asks@.len() == a0.len(),
            i <= asks@.len(),
            ({
                let t = match_from(item, a0, b0, 0);
                let m = match_from(item, asks@, bids@, i as int);
                &&& m.0 == t.0
                &&& m.1 == t.1
                &&& events@ + m.2 == t.2
            }),
        decreases asks.len() - i,
    {
        let mut ask = asks[i];
        if ask.item == item && ask.status == OrderStatus::Open {
            let ghost asks_before = asks@;
            let ghost bids_before = bids@;
            let ghost events_before = events@;
            match_ask_exec(item, &mut ask, bids, &mut events);
            asks.set(i, ask);
            proof {
                let m = match_ask(item, asks_before[i as int], bids_before, 0);
                let r = match_from(item, asks@, bids@, i + 1);
                assert(asks@ == asks_before.update(i as int, m.0));
                assert(events_before + (m.2 + r.2) == (events_before + m.2) + r.2);
            }
        }
        i = i + 1;
    }
    Ok(events)
}

} // verus!
