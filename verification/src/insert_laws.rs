use vstd::prelude::*;

use crate::market::{
    after_fill, best_in, better_price, counterparty, insert_fill, insert_match, new_order,
    prices_cross, OrderFilled, PlaceOrderArgs,
};
use crate::book_laws::{
    lemma_total_qty_concat, lemma_total_remaining_update, open_orders_have_remaining, total_qty,
    total_remaining,
};
use crate::pubkey::Pubkey;
use crate::state::{ItemType, Order, OrderStatus, Side};

verus! {

/// How many orders of the book are counterparties of `n`.
pub open spec fn counterparties(n: Order, book: Seq<Order>) -> int
    decreases book.len(),
{
    if book.len() == 0 {
        0
    } else {
        counterparties(n, book.drop_last()) + if counterparty(n, book.last()) {
            1int
        } else {
            0int
        }
    }
}

/// The new order `n`, while open, has no counterparty left in the book that
/// it could trade with.
pub open spec fn crosses_nothing(n: Order, book: Seq<Order>) -> bool {
    n.status == OrderStatus::Open ==> forall|k: int|
        0 <= k < book.len() ==> !(counterparty(n, #[trigger] book[k]) && prices_cross(n, book[k]))
}

proof fn lemma_counterparties_bounds(n: Order, book: Seq<Order>)
    ensures
        0 <= counterparties(n, book) <= book.len(),
        counterparties(n, book) == 0 ==> forall|k: int| 0 <= k < book.len() ==> !counterparty(n, #[trigger] book[k]),
    decreases book.len(),
{
    if book.len() > 0 {
        lemma_counterparties_bounds(n, book.drop_last());
        assert forall|k: int| 0 <= k < book.len() && counterparties(n, book) == 0 implies !counterparty(
            n,
            #[trigger] book[k],
        ) by {
            if k < book.len() - 1 {
                assert(book.drop_last()[k] == book[k]);
            }
        }
    }
}

proof fn lemma_counterparties_update(n: Order, book: Seq<Order>, b: int, o: Order)
    requires
        0 <= b < book.len(),
        counterparty(n, book[b]),
        !counterparty(n, o),
    ensures
        counterparties(n, book.update(b, o)) == counterparties(n, book) - 1,
    decreases book.len(),
{
    if b == book.len() - 1 {
        assert(book.update(b, o).drop_last() =~= book.drop_last());
    } else {
        lemma_counterparties_update(n, book.drop_last(), b, o);
        assert(book.update(b, o).drop_last() =~= book.drop_last().update(b, o));
    }
}

proof fn lemma_counterparties_same_terms(n: Order, n2: Order, book: Seq<Order>)
    requires
        n2.item == n.item,
        n2.side == n.side,
        n2.maker == n.maker,
    ensures
        counterparties(n2, book) == counterparties(n, book),
    decreases book.len(),
{
    if book.len() > 0 {
        lemma_counterparties_same_terms(n, n2, book.drop_last());
    }
}

proof fn lemma_best_in(n: Order, book: Seq<Order>, k: int)
    requires
        0 <= k <= book.len(),
    ensures
        best_in(n, book, k) is None ==> forall|j: int| 0 <= j < k ==> !counterparty(n, #[trigger] book[j]),
        best_in(n, book, k) matches Some(b) ==> {
            &&& 0 <= b < k
            &&& counterparty(n, book[b])
            &&& forall|j: int| 0 <= j < k && counterparty(n, #[trigger] book[j]) ==> !better_price(n, book[j], book[b])
        },
    decreases k,
{
    if k > 0 {
        lemma_best_in(n, book, k - 1);
    }
}

proof fn lemma_insert_clears(n: Order, book: Seq<Order>, fuel: nat)
    requires
        counterparties(n, book) <= fuel,
    ensures
        insert_match(n, book, fuel).1.len() == book.len(),
        crosses_nothing(insert_match(n, book, fuel).0, insert_match(n, book, fuel).1),
    decreases fuel,
{
    lemma_counterparties_bounds(n, book);
    if fuel == 0 || n.status != OrderStatus::Open {
    } else {
        lemma_best_in(n, book, book.len() as int);
        match best_in(n, book, book.len() as int) {
            None => {},
            Some(b) => {
                if !prices_cross(n, book[b]) {
                    assert forall|k: int| 0 <= k < book.len() implies !(counterparty(n, #[trigger] book[k])
                        && prices_cross(n, book[k])) by {
                        if counterparty(n, book[k]) {
                            assert(!better_price(n, book[k], book[b]));
                        }
                    }
                } else {
                    let e = insert_fill(n, book[b]);
                    let n2 = after_fill(n, e.qty);
                    let filled = after_fill(book[b], e.qty);
                    let book2 = book.update(b, filled);
                    if n2.status == OrderStatus::Open {
                        // `n` outlasts the fill, so the fill used up all of `book[b]`.
                        assert(e.qty == book[b].remaining);
                        assert(!counterparty(n, filled));
                        lemma_counterparties_update(n, book, b, filled);
                        lemma_counterparties_same_terms(n, n2, book2);
                        lemma_insert_clears(n2, book2, (fuel - 1) as nat);
                    } else {
                        assert(insert_match(n2, book2, (fuel - 1) as nat) == (n2, book2, Seq::<OrderFilled>::empty()));
                    }
                }
            },
        }
    }
}

/// An order with nothing left is marked filled, and an open order has
/// something left.
pub open spec fn remaining_agrees_with_status(o: Order) -> bool {
    &&& o.remaining == 0 ==> o.status == OrderStatus::Filled
    &&& o.status == OrderStatus::Open ==> o.remaining > 0
}

proof fn lemma_insert_quantities(n: Order, book: Seq<Order>, fuel: nat)
    requires
        remaining_agrees_with_status(n),
        open_orders_have_remaining(book),
    ensures
        ({
            let m = insert_match(n, book, fuel);
            &&& m.1.len() == book.len()
            &&& total_qty(m.2) == n.remaining - m.0.remaining
            &&& total_qty(m.2) == total_remaining(book) - total_remaining(m.1)
            &&& remaining_agrees_with_status(m.0)
            &&& open_orders_have_remaining(m.1)
            &&& forall|i: int| 0 <= i < m.2.len() ==> (#[trigger] m.2[i]).qty > 0
        }),
    decreases fuel,
{
    if fuel == 0 || n.status != OrderStatus::Open {
    } else {
        lemma_best_in(n, book, book.len() as int);
        match best_in(n, book, book.len() as int) {
            None => {},
            Some(b) => {
                if prices_cross(n, book[b]) {
                    let e = insert_fill(n, book[b]);
                    let n2 = after_fill(n, e.qty);
                    let filled = after_fill(book[b], e.qty);
                    let book2 = book.update(b, filled);
                    assert(e.qty == n.remaining || e.qty == book[b].remaining);
                    assert(e.qty <= n.remaining && e.qty <= book[b].remaining);
                    assert(e.qty > 0);
                    assert(open_orders_have_remaining(book2)) by {
                        assert forall|k: int| 0 <= k < book2.len() && #[trigger] book2[k].status
                            == OrderStatus::Open implies book2[k].remaining > 0 by {
                            if k != b {
                                assert(book2[k] == book[k]);
                            }
                        }
                    }
                    lemma_insert_quantities(n2, book2, (fuel - 1) as nat);
                    lemma_total_remaining_update(book, b, filled);
                    let r = insert_match(n2, book2, (fuel - 1) as nat);
                    lemma_total_qty_concat(seq![e], r.2);
                    assert(total_qty(seq![e]) == e.qty) by {
                        let one = seq![e];
                        assert(one.drop_last() =~= Seq::<OrderFilled>::empty());
                        assert(one.last() == e);
                        assert(total_qty(Seq::<OrderFilled>::empty()) == 0);
                    }
                    let m = insert_match(n, book, fuel);
                    assert(m.2 == seq![e] + r.2);
                    assert forall|i: int| 0 <= i < m.2.len() implies (#[trigger] m.2[i]).qty > 0 by {
                        if i > 0 {
                            assert(m.2[i] == r.2[i - 1]);
                        }
                    }
                }
            },
        }
    }
}

/// Matching on insert moves quantity one for one: the new order loses as
/// much remaining quantity as the book loses, and both equal the quantity of
/// all its fills.
pub proof fn law_insert_conserves_quantity(
    args: PlaceOrderArgs,
    maker: Pubkey,
    now: i64,
    bump: u8,
    book: Seq<Order>,
)
    requires
        args.quantity > 0,
        open_orders_have_remaining(book),
    ensures
        ({
            let m = insert_match(new_order(args, maker, now, bump), book, book.len());
            &&& total_qty(m.2) == args.quantity - m.0.remaining
            &&& total_qty(m.2) == total_remaining(book) - total_remaining(m.1)
        }),
{
    lemma_insert_quantities(new_order(args, maker, now, bump), book, book.len());
}

/// Matching on insert never reports an empty fill and never leaves an order
/// open with nothing left: every fill has a positive quantity, the new order
/// is marked filled exactly when nothing of it remains, and every open order
/// of the book still has something left.
pub proof fn law_insert_fills_are_whole(
    args: PlaceOrderArgs,
    maker: Pubkey,
    now: i64,
    bump: u8,
    book: Seq<Order>,
)
    requires
        args.quantity > 0,
        open_orders_have_remaining(book),
    ensures
        ({
            let m = insert_match(new_order(args, maker, now, bump), book, book.len());
            &&& forall|i: int| 0 <= i < m.2.len() ==> (#[trigger] m.2[i]).qty > 0
            &&& remaining_agrees_with_status(m.0)
            &&& open_orders_have_remaining(m.1)
        }),
{
    lemma_insert_quantities(new_order(args, maker, now, bump), book, book.len());
}

/// The fill `e` traded the new order `id` (for `item`, on `side`, by
/// `maker`) against the resting order `o`: `o` is for the same item, on the
/// other side and of another maker; the fill names the ask and the bid by
/// their ids and trades at the ask's price (`price` when the new order is the
/// ask), for no more than `o` had left.
pub open spec fn fill_pairs(
    e: OrderFilled,
    id: u64,
    item: ItemType,
    side: Side,
    maker: Pubkey,
    price: u64,
    o: Order,
) -> bool {
    &&& o.item == item
    &&& o.side != side
    &&& o.maker@ != maker@
    &&& e.qty <= o.remaining
    &&& side == Side::Bid ==> e.ask == o.id && e.bid == id && e.price == o.price
    &&& side == Side::Ask ==> e.bid == o.id && e.ask == id && e.price == price
}

/// Some order of `book` is the resting side of the fill `e` of the new order
/// `id` (see `fill_pairs`).
pub open spec fn fill_from_book(
    e: OrderFilled,
    id: u64,
    item: ItemType,
    side: Side,
    maker: Pubkey,
    price: u64,
    book: Seq<Order>,
) -> bool {
    exists|k: int| 0 <= k < book.len() && #[trigger] fill_pairs(e, id, item, side, maker, price, book[k])
}

proof fn lemma_insert_touches(n: Order, book: Seq<Order>, fuel: nat)
    ensures
        ({
            let m = insert_match(n, book, fuel);
            &&& m.1.len() == book.len()
            &&& m.0.id == n.id && m.0.item == n.item && m.0.side == n.side && m.0.maker == n.maker
            &&& m.0.price == n.price
            &&& forall|k: int| 0 <= k < book.len() && #[trigger] m.1[k] != book[k] ==> {
                &&& book[k].item == n.item
                &&& book[k].status == OrderStatus::Open
                &&& book[k].side != n.side
                &&& book[k].maker@ != n.maker@
            }
            &&& forall|k: int| 0 <= k < book.len() ==> {
                &&& (#[trigger] m.1[k]).id == book[k].id
                &&& m.1[k].item == book[k].item
                &&& m.1[k].side == book[k].side
                &&& m.1[k].maker == book[k].maker
                &&& m.1[k].price == book[k].price
                &&& m.1[k].remaining <= book[k].remaining
            }
            &&& forall|i: int| 0 <= i < m.2.len() ==> #[trigger] fill_from_book(m.2[i], n.id, n.item, n.side, n.maker, n.price, book)
        }),
    decreases fuel,
{
    if fuel == 0 || n.status != OrderStatus::Open {
    } else {
        lemma_best_in(n, book, book.len() as int);
        match best_in(n, book, book.len() as int) {
            None => {},
            Some(b) => {
                if prices_cross(n, book[b]) {
                    let e = insert_fill(n, book[b]);
                    let n2 = after_fill(n, e.qty);
                    let filled = after_fill(book[b], e.qty);
                    let book2 = book.update(b, filled);
                    lemma_insert_touches(n2, book2, (fuel - 1) as nat);
                    let r = insert_match(n2, book2, (fuel - 1) as nat);
                    let m = insert_match(n, book, fuel);
                    assert(m.1 == r.1);
                    assert(m.2 == seq![e] + r.2);
                    assert forall|k: int| 0 <= k < book.len() && #[trigger] m.1[k] != book[k] implies {
                        &&& book[k].item == n.item
                        &&& book[k].status == OrderStatus::Open
                        &&& book[k].side != n.side
                        &&& book[k].maker@ != n.maker@
                    } by {
                        if k != b {
                            assert(book2[k] == book[k]);
                        }
                    }
                    assert forall|k: int| 0 <= k < book.len() implies {
                        &&& (#[trigger] m.1[k]).id == book[k].id
                        &&& m.1[k].item == book[k].item
                        &&& m.1[k].side == book[k].side
                        &&& m.1[k].maker == book[k].maker
                        &&& m.1[k].price == book[k].price
                        &&& m.1[k].remaining <= book[k].remaining
                    } by {
                        assert(r.1[k].id == book2[k].id);
                    }
                    assert(fill_pairs(e, n.id, n.item, n.side, n.maker, n.price, book[b]));
                    assert forall|i: int| 0 <= i < m.2.len() implies #[trigger] fill_from_book(m.2[i], n.id, n.item, n.side, n.maker, n.price, book) by {
                        if i == 0 {
                            assert(m.2[i] == e);
                            assert(fill_pairs(m.2[i], n.id, n.item, n.side, n.maker, n.price, book[b]));
                        } else {
                            assert(m.2[i] == r.2[i - 1]);
                            assert(fill_from_book(r.2[i - 1], n2.id, n2.item, n2.side, n2.maker, n2.price, book2));
                            let k = choose|k: int| 0 <= k < book2.len()
                                && #[trigger] fill_pairs(r.2[i - 1], n2.id, n2.item, n2.side, n2.maker, n2.price, book2[k]);
                            assert(book2[k].remaining <= book[k].remaining);
                            assert(fill_pairs(m.2[i], n.id, n.item, n.side, n.maker, n.price, book[k]));
                        }
                    }
                }
            },
        }
    }
}

/// Matching on insert trades only with counterparties, never with the new
/// order's own maker: an order of the book that changed is for the same
/// item, was open, is on the other side and is of another maker; every
/// order keeps its id, item, side, maker and price and loses remaining
/// quantity only; and every fill pairs the new order with such an order of
/// the book, named by id on its side of the fill, at the ask's price.
pub proof fn law_insert_trades_only_with_counterparties(
    args: PlaceOrderArgs,
    maker: Pubkey,
    now: i64,
    bump: u8,
    book: Seq<Order>,
)
    ensures
        ({
            let m = insert_match(new_order(args, maker, now, bump), book, book.len());
            &&& m.1.len() == book.len()
            &&& forall|k: int| 0 <= k < book.len() && #[trigger] m.1[k] != book[k] ==> {
                &&& book[k].item == args.item
                &&& book[k].status == OrderStatus::Open
                &&& book[k].side != args.side
                &&& book[k].maker@ != maker@
            }
            &&& forall|k: int| 0 <= k < book.len() ==> {
                &&& (#[trigger] m.1[k]).id == book[k].id
                &&& m.1[k].item == book[k].item
                &&& m.1[k].side == book[k].side
                &&& m.1[k].maker == book[k].maker
                &&& m.1[k].price == book[k].price
                &&& m.1[k].remaining <= book[k].remaining
            }
            &&& forall|i: int| 0 <= i < m.2.len() ==> #[trigger] fill_from_book(m.2[i], args.id, args.item, args.side, maker, args.price, book)
        }),
{
    let n = new_order(args, maker, now, bump);
    lemma_insert_touches(n, book, book.len());
    let m = insert_match(n, book, book.len());
    assert forall|i: int| 0 <= i < m.2.len() implies #[trigger] fill_from_book(m.2[i], args.id, args.item, args.side, maker, args.price, book) by {
        assert(fill_from_book(m.2[i], n.id, n.item, n.side, n.maker, n.price, book));
        let k = choose|k: int| 0 <= k < book.len()
            && #[trigger] fill_pairs(m.2[i], n.id, n.item, n.side, n.maker, n.price, book[k]);
        assert(fill_pairs(m.2[i], args.id, args.item, args.side, maker, args.price, book[k]));
    }
}

/// Matching on insert leaves nothing the new order could still trade with:
/// while it stays open, every order of the book for its item, open, on the
/// other side and of another maker is priced strictly above a new bid, or
/// strictly below a new ask, whatever order the book came in; an equal price
/// trades.
pub proof fn law_insert_leaves_no_crossing(
    args: PlaceOrderArgs,
    maker: Pubkey,
    now: i64,
    bump: u8,
    book: Seq<Order>,
)
    ensures
        ({
            let m = insert_match(new_order(args, maker, now, bump), book, book.len());
            &&& m.1.len() == book.len()
            &&& crosses_nothing(m.0, m.1)
            &&& m.0.status == OrderStatus::Open ==> forall|k: int| 0 <= k < m.1.len() && (#[trigger] m.1[k]).item
                == args.item && m.1[k].status == OrderStatus::Open && m.1[k].side != args.side && m.1[k].maker@
                != maker@ ==> {
                &&& args.side == Side::Bid ==> m.1[k].price > args.price
                &&& args.side == Side::Ask ==> m.1[k].price < args.price
            }
        }),
{
    let n = new_order(args, maker, now, bump);
    lemma_counterparties_bounds(n, book);
    lemma_insert_clears(n, book, book.len());
    lemma_insert_touches(n, book, book.len());
}

} // verus!
