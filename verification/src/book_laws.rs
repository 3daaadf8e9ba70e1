use vstd::prelude::*;

use crate::arith::min_u64;
use crate::market::{
    after_fill, fill_event, is_live, match_ask, match_book_spec, match_from, trade_fee, OrderFilled,
};
use crate::state::{ItemType, Order, OrderStatus};

verus! {

/// Sum of the remaining quantities of a list of orders.
pub open spec fn total_remaining(s: Seq<Order>) -> int
    decreases s.len(),
{
    if s.len() == 0 {
        0
    } else {
        total_remaining(s.drop_last()) + s.last().remaining
    }
}

/// Sum of the quantities of a list of fills.
pub open spec fn total_qty(s: Seq<OrderFilled>) -> int
    decreases s.len(),
{
    if s.len() == 0 {
        0
    } else {
        total_qty(s.drop_last()) + s.last().qty
    }
}

/// Every open order of the book still has something left to trade.
pub open spec fn open_orders_have_remaining(book: Seq<Order>) -> bool {
    forall|k: int| 0 <= k < book.len() && #[trigger] book[k].status == OrderStatus::Open ==> book[k].remaining > 0
}

/// `new` is `old` after matching: the same order terms, no more remaining,
/// a status that changes only to filled with nothing left, and no change at
/// all to an order that did not take part.
pub open spec fn order_progressed(old: Order, new: Order, item: ItemType) -> bool {
    &&& new.id == old.id
    &&& new.maker == old.maker
    &&& new.item == old.item
    &&& new.side == old.side
    &&& new.quantity == old.quantity
    &&& new.price == old.price
    &&& new.created_at == old.created_at
    &&& new.bump == old.bump
    &&& new.remaining <= old.remaining
    &&& new.status != old.status ==> new.status == OrderStatus::Filled && new.remaining == 0
    &&& !is_live(old, item) ==> new == old
}

/// A fill `e` traded `ask` against `bid`: both for `item`, of different
/// makers, the bid priced at or above the ask, at the ask's price, for no
/// more than either had left, with the fee and the net adding up to the gross.
pub open spec fn fill_between(e: OrderFilled, ask: Order, bid: Order, item: ItemType) -> bool {
    &&& ask.item == item
    &&& bid.item == item
    &&& ask.maker@ != bid.maker@
    &&& bid.price >= ask.price
    &&& e.ask == ask.id
    &&& e.bid == bid.id
    &&& e.price == ask.price
    &&& e.qty <= ask.remaining
    &&& e.qty <= bid.remaining
    &&& e.fee == trade_fee(e.qty * e.price)
    &&& e.fee + e.net == e.qty * e.price
}

/// Some bid of `bids` is the counterparty of `ask` in the fill `e`.
pub open spec fn fill_against(e: OrderFilled, ask: Order, bids: Seq<Order>, item: ItemType) -> bool {
    exists|b: int| 0 <= b < bids.len() && #[trigger] fill_between(e, ask, bids[b], item)
}

/// Some ask of `asks` and some bid of `bids` are the two sides of the fill `e`.
pub open spec fn fill_in_book(e: OrderFilled, asks: Seq<Order>, bids: Seq<Order>, item: ItemType) -> bool {
    exists|a: int, b: int|
        0 <= a < asks.len() && 0 <= b < bids.len() && #[trigger] fill_between(e, asks[a], bids[b], item)
}

proof fn lemma_fee_le_gross(gross: int)
    requires
        0 <= gross,
    ensures
        0 <= trade_fee(gross) <= gross,
{
    assert(0 <= (gross * 250) / 10_000 <= gross) by (nonlinear_arith)
        requires
            0 <= gross,
    ;
}

pub(crate) proof fn lemma_total_qty_concat(a: Seq<OrderFilled>, b: Seq<OrderFilled>)
    ensures
        total_qty(a + b) == total_qty(a) + total_qty(b),
    decreases b.len(),
{
    if b.len() == 0 {
        assert(a + b =~= a);
    } else {
        lemma_total_qty_concat(a, b.drop_last());
        assert((a + b).drop_last() =~= a + b.drop_last());
    }
}

pub(crate) proof fn lemma_total_remaining_update(s: Seq<Order>, j: int, o: Order)
    requires
        0 <= j < s.len(),
    ensures
        total_remaining(s.update(j, o)) == total_remaining(s) - s[j].remaining + o.remaining,
    decreases s.len(),
{
    if j == s.len() - 1 {
        assert(s.update(j, o).drop_last() =~= s.drop_last());
    } else {
        lemma_total_remaining_update(s.drop_last(), j, o);
        assert(s.update(j, o).drop_last() =~= s.drop_last().update(j, o));
    }
}

proof fn lemma_progressed_trans(a: Order, b: Order, c: Order, item: ItemType)
    requires
        order_progressed(a, b, item),
        order_progressed(b, c, item),
    ensures
        order_progressed(a, c, item),
{
}

proof fn lemma_fill_weaken(e: OrderFilled, a: Order, a2: Order, b: Order, b2: Order, item: ItemType)
    requires
        fill_between(e, a2, b2, item),
        order_progressed(a, a2, item),
        order_progressed(b, b2, item),
    ensures
        fill_between(e, a, b, item),
{
}

proof fn lemma_fill_event(ask: Order, bid: Order, item: ItemType)
    requires
        is_live(ask, item),
        is_live(bid, item),
        ask.maker@ != bid.maker@,
        bid.price >= ask.price,
    ensures
        fill_between(fill_event(ask, bid), ask, bid, item),
        order_progressed(ask, after_fill(ask, fill_event(ask, bid).qty), item),
        order_progressed(bid, after_fill(bid, fill_event(ask, bid).qty), item),
        after_fill(ask, fill_event(ask, bid).qty).remaining == ask.remaining - fill_event(ask, bid).qty,
        after_fill(bid, fill_event(ask, bid).qty).remaining == bid.remaining - fill_event(ask, bid).qty,
{
    let qty = min_u64(ask.remaining, bid.remaining);
    assert(0 <= qty * ask.price <= u128::MAX) by (nonlinear_arith)
        requires
            qty <= u64::MAX,
            ask.price <= u64::MAX,
    ;
    lemma_fee_le_gross(qty * ask.price);
}

proof fn lemma_match_ask(item: ItemType, ask: Order, bids: Seq<Order>, j: int)
    requires
        is_live(ask, item),
        0 <= j,
    ensures
        ({
            let m = match_ask(item, ask, bids, j);
            &&& m.1.len() == bids.len()
            &&& order_progressed(ask, m.0, item)
            &&& forall|k: int| 0 <= k < bids.len() ==> #[trigger] order_progressed(bids[k], m.1[k], item)
            &&& total_remaining(bids) - total_remaining(m.1) == total_qty(m.2)
            &&& ask.remaining - m.0.remaining == total_qty(m.2)
            &&& forall|k: int| 0 <= k < m.2.len() ==> #[trigger] fill_against(m.2[k], ask, bids, item)
        }),
    decreases bids.len() - j,
{
    if j >= bids.len() {
        assert(total_qty(seq![]) == 0);
    } else if !is_live(bids[j], item) {
        lemma_match_ask(item, ask, bids, j + 1);
    } else if bids[j].price < ask.price {
        assert(total_qty(seq![]) == 0);
    } else if bids[j].maker@ == ask.maker@ {
        lemma_match_ask(item, ask, bids, j + 1);
    } else {
        let e = fill_event(ask, bids[j]);
        let ask2 = after_fill(ask, e.qty);
        let bids2 = bids.update(j, after_fill(bids[j], e.qty));
        lemma_fill_event(ask, bids[j], item);
        lemma_total_remaining_update(bids, j, after_fill(bids[j], e.qty));
        assert(total_qty(seq![e]) == e.qty) by {
            assert(seq![e].drop_last() =~= Seq::<OrderFilled>::empty());
            assert(total_qty(Seq::<OrderFilled>::empty()) == 0);
            assert(seq![e].last() == e);
        }
        assert forall|k: int| 0 <= k < bids.len() implies #[trigger] order_progressed(
            bids[k],
            bids2[k],
            item,
        ) by {}
        if ask2.remaining == 0 {
            let m = match_ask(item, ask, bids, j);
            assert(m.2 =~= seq![e]);
            assert forall|k: int| 0 <= k < m.2.len() implies #[trigger] fill_against(m.2[k], ask, bids, item) by {
                assert(fill_between(m.2[k], ask, bids[j], item));
            }
        } else {
            lemma_match_ask(item, ask2, bids2, j + 1);
            let r = match_ask(item, ask2, bids2, j + 1);
            let m = match_ask(item, ask, bids, j);
            assert(m.2 == seq![e] + r.2);
            lemma_total_qty_concat(seq![e], r.2);
            lemma_progressed_trans(ask, ask2, r.0, item);
            assert forall|k: int| 0 <= k < bids.len() implies #[trigger] order_progressed(
                bids[k],
                m.1[k],
                item,
            ) by {
                assert(order_progressed(bids2[k], r.1[k], item));
                lemma_progressed_trans(bids[k], bids2[k], r.1[k], item);
            }
            assert forall|k: int| 0 <= k < m.2.len() implies #[trigger] fill_against(m.2[k], ask, bids, item) by {
                if k == 0 {
                    assert(fill_between(m.2[k], ask, bids[j], item));
                } else {
                    assert(m.2[k] == r.2[k - 1]);
                    assert(fill_against(r.2[k - 1], ask2, bids2, item));
                    let b = choose|b: int| 0 <= b < bids2.len() && #[trigger] fill_between(
                        r.2[k - 1],
                        ask2,
                        bids2[b],
                        item,
                    );
                    assert(order_progressed(bids[b], bids2[b], item));
                    lemma_fill_weaken(m.2[k], ask, ask2, bids[b], bids2[b], item);
                }
            }
        }
    }
}

proof fn lemma_match_from(item: ItemType, asks: Seq<Order>, bids: Seq<Order>, i: int)
    requires
        0 <= i,
    ensures
        ({
            let m = match_from(item, asks, bids, i);
            &&& m.0.len() == asks.len()
            &&& m.1.len() == bids.len()
            &&& forall|k: int| 0 <= k < asks.len() ==> #[trigger] order_progressed(asks[k], m.0[k], item)
            &&& forall|k: int| 0 <= k < bids.len() ==> #[trigger] order_progressed(bids[k], m.1[k], item)
            &&& total_remaining(asks) - total_remaining(m.0) == total_qty(m.2)
            &&& total_remaining(bids) - total_remaining(m.1) == total_qty(m.2)
            &&& forall|k: int| 0 <= k < m.2.len() ==> #[trigger] fill_in_book(m.2[k], asks, bids, item)
        }),
    decreases asks.len() - i,
{
    if i >= asks.len() {
        assert(total_qty(Seq::<OrderFilled>::empty()) == 0);
    } else if !is_live(asks[i], item) {
        lemma_match_from(item, asks, bids, i + 1);
    } else {
        let mi = match_ask(item, asks[i], bids, 0);
        lemma_match_ask(item, asks[i], bids, 0);
        let asks2 = asks.update(i, mi.0);
        lemma_total_remaining_update(asks, i, mi.0);
        lemma_match_from(item, asks2, mi.1, i + 1);
        let r = match_from(item, asks2, mi.1, i + 1);
        let m = match_from(item, asks, bids, i);
        assert(m.2 == mi.2 + r.2);
        lemma_total_qty_concat(mi.2, r.2);
        assert forall|k: int| 0 <= k < asks.len() implies #[trigger] order_progressed(
            asks[k],
            m.0[k],
            item,
        ) by {
            assert(order_progressed(asks[k], asks2[k], item));
            assert(order_progressed(asks2[k], r.0[k], item));
            lemma_progressed_trans(asks[k], asks2[k], r.0[k], item);
        }
        assert forall|k: int| 0 <= k < bids.len() implies #[trigger] order_progressed(
            bids[k],
            m.1[k],
            item,
        ) by {
            assert(order_progressed(bids[k], mi.1[k], item));
            assert(order_progressed(mi.1[k], r.1[k], item));
            lemma_progressed_trans(bids[k], mi.1[k], r.1[k], item);
        }
        assert forall|k: int| 0 <= k < m.2.len() implies #[trigger] fill_in_book(
            m.2[k],
            asks,
            bids,
            item,
        ) by {
            if k < mi.2.len() {
                assert(m.2[k] == mi.2[k]);
                assert(fill_against(mi.2[k], asks[i], bids, item));
                let b = choose|b: int| 0 <= b < bids.len() && #[trigger] fill_between(
                    mi.2[k],
                    asks[i],
                    bids[b],
                    item,
                );
                assert(fill_between(m.2[k], asks[i], bids[b], item));
            } else {
                let e = r.2[k - mi.2.len()];
                assert(m.2[k] == e);
                assert(fill_in_book(e, asks2, mi.1, item));
                let (a, b) = choose|a: int, b: int|
                    0 <= a < asks2.len() && 0 <= b < mi.1.len() && #[trigger] fill_between(
                        e,
                        asks2[a],
                        mi.1[b],
                        item,
                    );
                assert(order_progressed(asks[a], asks2[a], item));
                assert(order_progressed(bids[b], mi.1[b], item));
                lemma_fill_weaken(e, asks[a], asks2[a], bids[b], mi.1[b], item);
            }
        }
    }
}

/// Matching moves quantity from asks to bids one for one: the remaining
/// quantity the asks lose, the remaining quantity the bids lose and the
/// quantity of all fills are the same amount.
pub proof fn law_match_conserves_quantity(item: ItemType, asks: Seq<Order>, bids: Seq<Order>)
    ensures
        ({
            let m = match_book_spec(item, asks, bids);
            &&& total_remaining(asks) - total_remaining(m.0) == total_qty(m.2)
            &&& total_remaining(bids) - total_remaining(m.1) == total_qty(m.2)
        }),
{
    lemma_match_from(item, asks, bids, 0);
}

/// Every fill pairs an ask and a bid of the book for the item, of two
/// different makers, with the bid priced at or above the ask; it trades at
/// the ask's price, no more than either side had left, and its fee and net
/// add up to the gross.
pub proof fn law_match_fills_are_fair(item: ItemType, asks: Seq<Order>, bids: Seq<Order>)
    ensures
        ({
            let m = match_book_spec(item, asks, bids);
            forall|k: int| 0 <= k < m.2.len() ==> #[trigger] fill_in_book(m.2[k], asks, bids, item)
        }),
{
    lemma_match_from(item, asks, bids, 0);
}

/// Matching keeps both sides of the book in place and only lowers remaining
/// quantities: every order keeps its terms, an order's status changes only
/// to filled with nothing left, and orders for other items or not open are
/// untouched.
pub proof fn law_match_only_fills(item: ItemType, asks: Seq<Order>, bids: Seq<Order>)
    ensures
        ({
            let m = match_book_spec(item, asks, bids);
            &&& m.0.len() == asks.len()
            &&& m.1.len() == bids.len()
            &&& forall|k: int| 0 <= k < asks.len() ==> #[trigger] order_progressed(asks[k], m.0[k], item)
            &&& forall|k: int| 0 <= k < bids.len() ==> #[trigger] order_progressed(bids[k], m.1[k], item)
        }),
{
    lemma_match_from(item, asks, bids, 0);
}

proof fn lemma_match_ask_whole(item: ItemType, ask: Order, bids: Seq<Order>, j: int)
    requires
        is_live(ask, item),
        ask.remaining > 0,
        open_orders_have_remaining(bids),
        0 <= j,
    ensures
        ({
            let m = match_ask(item, ask, bids, j);
            &&& m.0.status == OrderStatus::Open ==> m.0.remaining > 0
            &&& open_orders_have_remaining(m.1)
            &&& forall|k: int| 0 <= k < m.2.len() ==> (#[trigger] m.2[k]).qty > 0
        }),
    decreases bids.len() - j,
{
    if j >= bids.len() {
    } else if !is_live(bids[j], item) {
        lemma_match_ask_whole(item, ask, bids, j + 1);
    } else if bids[j].price < ask.price {
    } else if bids[j].maker@ == ask.maker@ {
        lemma_match_ask_whole(item, ask, bids, j + 1);
    } else {
        let e = fill_event(ask, bids[j]);
        let ask2 = after_fill(ask, e.qty);
        let bids2 = bids.update(j, after_fill(bids[j], e.qty));
        assert(e.qty > 0);
        assert(open_orders_have_remaining(bids2)) by {
            assert forall|k: int| 0 <= k < bids2.len() && #[trigger] bids2[k].status
                == OrderStatus::Open implies bids2[k].remaining > 0 by {
                if k != j {
                    assert(bids2[k] == bids[k]);
                }
            }
        }
        if ask2.remaining != 0 {
            lemma_match_ask_whole(item, ask2, bids2, j + 1);
            let r = match_ask(item, ask2, bids2, j + 1);
            let m = match_ask(item, ask, bids, j);
            assert(m.2 == seq![e] + r.2);
            assert forall|k: int| 0 <= k < m.2.len() implies (#[trigger] m.2[k]).qty > 0 by {
                if k > 0 {
                    assert(m.2[k] == r.2[k - 1]);
                }
            }
        }
    }
}

proof fn lemma_match_from_whole(item: ItemType, asks: Seq<Order>, bids: Seq<Order>, i: int)
    requires
        open_orders_have_remaining(asks),
        open_orders_have_remaining(bids),
        0 <= i,
    ensures
        ({
            let m = match_from(item, asks, bids, i);
            &&& open_orders_have_remaining(m.0)
            &&& open_orders_have_remaining(m.1)
            &&& forall|k: int| 0 <= k < m.2.len() ==> (#[trigger] m.2[k]).qty > 0
        }),
    decreases asks.len() - i,
{
    if i >= asks.len() {
    } else if !is_live(asks[i], item) {
        lemma_match_from_whole(item, asks, bids, i + 1);
    } else {
        let mi = match_ask(item, asks[i], bids, 0);
        lemma_match_ask_whole(item, asks[i], bids, 0);
        let asks2 = asks.update(i, mi.0);
        assert(open_orders_have_remaining(asks2)) by {
            assert forall|k: int| 0 <= k < asks2.len() && #[trigger] asks2[k].status
                == OrderStatus::Open implies asks2[k].remaining > 0 by {
                if k != i {
                    assert(asks2[k] == asks[k]);
                }
            }
        }
        lemma_match_from_whole(item, asks2, mi.1, i + 1);
        let r = match_from(item, asks2, mi.1, i + 1);
        let m = match_from(item, asks, bids, i);
        assert(m.2 == mi.2 + r.2);
        assert forall|k: int| 0 <= k < m.2.len() implies (#[trigger] m.2[k]).qty > 0 by {
            if k < mi.2.len() {
                assert(m.2[k] == mi.2[k]);
            } else {
                assert(m.2[k] == r.2[k - mi.2.len()]);
            }
        }
    }
}

/// Matching never reports an empty fill and never leaves an order open with
/// nothing left: when every open order of the book has something left, every
/// fill has a positive quantity, and afterwards every open order still has
/// something left, so an order whose remaining quantity reached zero is
/// marked filled.
pub proof fn law_match_fills_are_whole(item: ItemType, asks: Seq<Order>, bids: Seq<Order>)
    requires
        open_orders_have_remaining(asks),
        open_orders_have_remaining(bids),
    ensures
        ({
            let m = match_book_spec(item, asks, bids);
            &&& forall|k: int| 0 <= k < m.2.len() ==> (#[trigger] m.2[k]).qty > 0
            &&& open_orders_have_remaining(m.0)
            &&& open_orders_have_remaining(m.1)
        }),
{
    lemma_match_from_whole(item, asks, bids, 0);
}

proof fn lemma_match_from_shift(item: ItemType, p: Seq<Order>, s: Seq<Order>, bids: Seq<Order>, i: int)
    requires
        0 <= i,
    ensures
        ({
            let r = match_from(item, s, bids, i);
            match_from(item, p + s, bids, p.len() + i) == (p + r.0, r.1, r.2)
        }),
    decreases s.len() - i,
{
    if i >= s.len() {
    } else {
        assert((p + s)[p.len() + i] == s[i]);
        if !is_live(s[i], item) {
            lemma_match_from_shift(item, p, s, bids, i + 1);
        } else {
            let m = match_ask(item, s[i], bids, 0);
            let s2 = s.update(i, m.0);
            assert((p + s).update(p.len() + i, m.0) =~= p + s2);
            lemma_match_from_shift(item, p, s2, m.1, i + 1);
        }
    }
}

/// Asks are served in the order of the list: a pass over `a` followed by
/// `rest` first matches `a` alone against the bids, then matches `rest`
/// against the bids that are left; its fills are those of `a` followed by
/// those of `rest`. So no later ask trades with a bid before an earlier live
/// ask has had its turn.
pub proof fn law_match_serves_asks_in_list_order(item: ItemType, a: Order, rest: Seq<Order>, bids: Seq<Order>)
    ensures
        ({
            let whole = match_book_spec(item, seq![a] + rest, bids);
            let first = match_book_spec(item, seq![a], bids);
            let later = match_book_spec(item, rest, first.1);
            &&& whole.0 == first.0 + later.0
            &&& whole.1 == later.1
            &&& whole.2 == first.2 + later.2
        }),
{
    let asks = seq![a] + rest;
    assert(asks[0] == a);
    if is_live(a, item) {
        let m = match_ask(item, a, bids, 0);
        let one = seq![m.0];
        assert(asks.update(0, m.0) =~= one + rest);
        lemma_match_from_shift(item, one, rest, m.1, 0);
        assert(seq![a].update(0, m.0) =~= one);
        assert(one + Seq::<Order>::empty() =~= one);
        lemma_match_from_shift(item, one, Seq::<Order>::empty(), m.1, 0);
        let f = match_from(item, one, m.1, 1);
        assert(f == (one, m.1, Seq::<OrderFilled>::empty()));
        let first = match_from(item, seq![a], bids, 0);
        assert(first == (f.0, f.1, m.2 + f.2));
        assert(m.2 + Seq::<OrderFilled>::empty() =~= m.2);
        let later = match_from(item, rest, m.1, 0);
        let r = match_from(item, one + rest, m.1, 1);
        assert(r == (one + later.0, later.1, later.2));
        let whole = match_from(item, asks, bids, 0);
        assert(whole == (r.0, r.1, m.2 + r.2));
    } else {
        let one = seq![a];
        lemma_match_from_shift(item, one, rest, bids, 0);
        assert(one[0] == a);
        let first = match_from(item, one, bids, 0);
        assert(first == match_from(item, one, bids, 1));
        assert(first == (one, bids, Seq::<OrderFilled>::empty()));
        let whole = match_from(item, asks, bids, 0);
        assert(whole == match_from(item, asks, bids, 1));
        assert(Seq::<OrderFilled>::empty() + match_from(item, rest, bids, 0).2 =~= match_from(item, rest, bids, 0).2);
    }
}

/// An open ask and an open bid for `item` of different makers that could
/// trade: the bid is priced at or above the ask.
pub open spec fn crossing(ask: Order, bid: Order, item: ItemType) -> bool {
    &&& is_live(ask, item)
    &&& is_live(bid, item)
    &&& ask.maker@ != bid.maker@
    &&& bid.price >= ask.price
}

/// Bids in best-first order: prices never rise along the list.
pub open spec fn best_first(bids: Seq<Order>) -> bool {
    forall|i: int, j: int| 0 <= i <= j < bids.len() ==> #[trigger] bids[i].price >= #[trigger] bids[j].price
}

proof fn lemma_no_cross_after_progress(ask: Order, old: Order, new: Order, item: ItemType)
    requires
        !crossing(ask, old, item),
        order_progressed(old, new, item),
    ensures
        !crossing(ask, new, item),
{
}

proof fn lemma_match_ask_clears(item: ItemType, ask: Order, bids: Seq<Order>, j: int)
    requires
        is_live(ask, item),
        0 <= j,
        best_first(bids),
    ensures
        ({
            let m = match_ask(item, ask, bids, j);
            &&& forall|k: int| j <= k < bids.len() ==> !crossing(m.0, #[trigger] m.1[k], item)
            &&& forall|k: int| 0 <= k < j && k < bids.len() ==> #[trigger] m.1[k] == bids[k]
        }),
    decreases bids.len() - j,
{
    lemma_match_ask(item, ask, bids, j);
    if j >= bids.len() {
    } else if !is_live(bids[j], item) {
        lemma_match_ask_clears(item, ask, bids, j + 1);
        let m = match_ask(item, ask, bids, j + 1);
        assert(m.1[j] == bids[j]);
    } else if bids[j].price < ask.price {
        assert forall|k: int| j <= k < bids.len() implies !crossing(ask, #[trigger] bids[k], item) by {
            assert(bids[j].price >= bids[k].price);
        }
    } else if bids[j].maker@ == ask.maker@ {
        lemma_match_ask_clears(item, ask, bids, j + 1);
        lemma_match_ask(item, ask, bids, j + 1);
        let m = match_ask(item, ask, bids, j + 1);
        assert(m.1[j] == bids[j]);
        assert(order_progressed(ask, m.0, item));
    } else {
        let e = fill_event(ask, bids[j]);
        let ask2 = after_fill(ask, e.qty);
        let bids2 = bids.update(j, after_fill(bids[j], e.qty));
        if ask2.remaining == 0 {
        } else {
            assert(best_first(bids2));
            lemma_match_ask_clears(item, ask2, bids2, j + 1);
            let r = match_ask(item, ask2, bids2, j + 1);
            assert(r.1[j] == bids2[j]);
            assert(!is_live(bids2[j], item));
        }
    }
}

proof fn lemma_match_from_clears(item: ItemType, asks: Seq<Order>, bids: Seq<Order>, i: int)
    requires
        0 <= i,
        best_first(bids),
    ensures
        ({
            let m = match_from(item, asks, bids, i);
            &&& forall|a: int, b: int|
                i <= a < asks.len() && 0 <= b < bids.len() ==> !crossing(#[trigger] m.0[a], #[trigger] m.1[b], item)
            &&& forall|a: int| 0 <= a < i && a < asks.len() ==> #[trigger] m.0[a] == asks[a]
        }),
    decreases asks.len() - i,
{
    lemma_match_from(item, asks, bids, i);
    if i >= asks.len() {
    } else if !is_live(asks[i], item) {
        lemma_match_from_clears(item, asks, bids, i + 1);
        let m = match_from(item, asks, bids, i + 1);
        assert(m.0[i] == asks[i]);
    } else {
        let mi = match_ask(item, asks[i], bids, 0);
        lemma_match_ask(item, asks[i], bids, 0);
        lemma_match_ask_clears(item, asks[i], bids, 0);
        let asks2 = asks.update(i, mi.0);
        assert(best_first(mi.1)) by {
            assert forall|x: int, y: int| 0 <= x <= y < mi.1.len() implies #[trigger] mi.1[x].price
                >= #[trigger] mi.1[y].price by {
                assert(order_progressed(bids[x], mi.1[x], item));
                assert(order_progressed(bids[y], mi.1[y], item));
            }
        }
        lemma_match_from_clears(item, asks2, mi.1, i + 1);
        lemma_match_from(item, asks2, mi.1, i + 1);
        let r = match_from(item, asks2, mi.1, i + 1);
        assert(r.0[i] == mi.0);
        assert forall|a: int, b: int| i <= a < asks.len() && 0 <= b < bids.len() implies !crossing(
            #[trigger] r.0[a],
            #[trigger] r.1[b],
            item,
        ) by {
            if a == i {
                assert(!crossing(mi.0, mi.1[b], item));
                assert(order_progressed(mi.1[b], r.1[b], item));
                lemma_no_cross_after_progress(mi.0, mi.1[b], r.1[b], item);
            }
        }
    }
}

/// A matching pass over bids in best-first order leaves no crossing pair:
/// afterwards no open ask and open bid for the item, of different makers,
/// could still trade.
pub proof fn law_match_clears_crossings(item: ItemType, asks: Seq<Order>, bids: Seq<Order>)
    requires
        best_first(bids),
    ensures
        ({
            let m = match_book_spec(item, asks, bids);
            forall|a: int, b: int|
                0 <= a < m.0.len() && 0 <= b < m.1.len() ==> !crossing(#[trigger] m.0[a], #[trigger] m.1[b], item)
        }),
{
    lemma_match_from(item, asks, bids, 0);
    lemma_match_from_clears(item, asks, bids, 0);
}

} // verus!
