//! Properties of the matching pass, proved once and for all of
//! [`run_match`], the specification that [`crate::matcher::Matcher::match_book`]
//! is proved to implement.

use vstd::prelude::*;

use crate::matcher::consume_head;
use crate::matcher::crossing;
use crate::matcher::fill_of;
use crate::matcher::min_units;
use crate::matcher::prio_key_le;
use crate::matcher::prio_le;
use crate::matcher::ready;
use crate::matcher::run_match;
use crate::matcher::sorted_side;
use crate::matcher::Fill;
use crate::matcher::Order;
use crate::matcher::Side;

verus! {

/// **No cross, no trades**: when every bid price is below every ask price,
/// a matching pass emits nothing and leaves both queues exactly as they
/// were.
pub proof fn lemma_no_cross(buys: Seq<Order>, sells: Seq<Order>)
    requires
        forall|i: int, j: int|
            #![trigger buys[i], sells[j]]
            0 <= i < buys.len() && 0 <= j < sells.len() ==> buys[i].price.val()
                < sells[j].price.val(),
    ensures
        run_match(buys, sells).fills == Seq::<Fill>::empty(),
        run_match(buys, sells).buys == buys,
        run_match(buys, sells).sells == sells,
{
    if buys.len() > 0 && sells.len() > 0 {
        assert(buys[0].price.val() < sells[0].price.val());
    }
    assert(!crossing(buys, sells));
}

/// Total quantity the fills attribute to the buy order with the given id.
pub open spec fn buyer_fill_total(fills: Seq<Fill>, id: Seq<char>) -> int
    decreases fills.len(),
{
    if fills.len() == 0 {
        0
    } else {
        (if fills[0].buy_id == id {
            fills[0].kwh as int
        } else {
            0
        }) + buyer_fill_total(fills.drop_first(), id)
    }
}

/// Total quantity the fills attribute to the sell order with the given id.
pub open spec fn seller_fill_total(fills: Seq<Fill>, id: Seq<char>) -> int
    decreases fills.len(),
{
    if fills.len() == 0 {
        0
    } else {
        (if fills[0].sell_id == id {
            fills[0].kwh as int
        } else {
            0
        }) + seller_fill_total(fills.drop_first(), id)
    }
}

/// Total remaining quantity that orders with the given id bring into a
/// queue.
pub open spec fn side_remaining(s: Seq<Order>, id: Seq<char>) -> int
    decreases s.len(),
{
    if s.len() == 0 {
        0
    } else {
        (if s[0].id@ == id {
            s[0].remaining_kwh.units as int
        } else {
            0
        }) + side_remaining(s.drop_first(), id)
    }
}

/// Total original size of the orders with the given id in a queue.
pub open spec fn side_kwh(s: Seq<Order>, id: Seq<char>) -> int
    decreases s.len(),
{
    if s.len() == 0 {
        0
    } else {
        (if s[0].id@ == id {
            s[0].kwh.units as int
        } else {
            0
        }) + side_kwh(s.drop_first(), id)
    }
}

proof fn lemma_side_remaining_nonneg(s: Seq<Order>, id: Seq<char>)
    ensures
        side_remaining(s, id) >= 0,
    decreases s.len(),
{
    if s.len() > 0 {
        lemma_side_remaining_nonneg(s.drop_first(), id);
    }
}

proof fn lemma_side_remaining_le_kwh(s: Seq<Order>, id: Seq<char>)
    requires
        forall|i: int|
            0 <= i < s.len() ==> (#[trigger] s[i]).remaining_kwh.units <= s[i].kwh.units,
    ensures
        side_remaining(s, id) <= side_kwh(s, id),
    decreases s.len(),
{
    if s.len() > 0 {
        assert(forall|i: int|
            0 <= i < s.drop_first().len() ==> (#[trigger] s.drop_first()[i]) == s[i + 1]);
        lemma_side_remaining_le_kwh(s.drop_first(), id);
    }
}

/// Consuming `q` units from the head reduces the id's stake by `q` when the
/// head carries that id, and leaves it unchanged otherwise.
proof fn lemma_side_remaining_consume(s: Seq<Order>, q: u64, id: Seq<char>)
    requires
        s.len() > 0,
        0 < q <= s[0].remaining_kwh.units,
    ensures
        side_remaining(consume_head(s, q), id) == side_remaining(s, id) - (if s[0].id@ == id {
            q as int
        } else {
            0
        }),
{
    let t = consume_head(s, q);
    if s[0].remaining_kwh.units == q {
    } else {
        assert(t.drop_first() =~= s.drop_first());
    }
}

proof fn lemma_conservation_buys(buys: Seq<Order>, sells: Seq<Order>, id: Seq<char>)
    ensures
        buyer_fill_total(run_match(buys, sells).fills, id) <= side_remaining(buys, id),
    decreases buys.len() + sells.len(),
{
    if crossing(buys, sells) {
        let q = min_units(buys[0].remaining_kwh.units, sells[0].remaining_kwh.units);
        let bc = consume_head(buys, q);
        let sc = consume_head(sells, q);
        let f = fill_of(buys[0], sells[0]);
        let rest = run_match(bc, sc).fills;
        lemma_conservation_buys(bc, sc, id);
        lemma_side_remaining_consume(buys, q, id);
        assert((seq![f] + rest).drop_first() =~= rest);
        assert(buyer_fill_total(seq![f] + rest, id) == (if f.buy_id == id {
            q as int
        } else {
            0
        }) + buyer_fill_total(rest, id));
    } else {
        lemma_side_remaining_nonneg(buys, id);
    }
}

proof fn lemma_conservation_sells(buys: Seq<Order>, sells: Seq<Order>, id: Seq<char>)
    ensures
        seller_fill_total(run_match(buys, sells).fills, id) <= side_remaining(sells, id),
    decreases buys.len() + sells.len(),
{
    if crossing(buys, sells) {
        let q = min_units(buys[0].remaining_kwh.units, sells[0].remaining_kwh.units);
        let bc = consume_head(buys, q);
        let sc = consume_head(sells, q);
        let f = fill_of(buys[0], sells[0]);
        let rest = run_match(bc, sc).fills;
        lemma_conservation_sells(bc, sc, id);
        lemma_side_remaining_consume(sells, q, id);
        assert((seq![f] + rest).drop_first() =~= rest);
        assert(seller_fill_total(seq![f] + rest, id) == (if f.sell_id == id {
            q as int
        } else {
            0
        }) + seller_fill_total(rest, id));
    } else {
        lemma_side_remaining_nonneg(sells, id);
    }
}

/// **Conservation, per fill**: every fill trades a positive quantity no
/// larger than either matched order had remaining at that moment.
pub proof fn lemma_fill_bounds(buys: Seq<Order>, sells: Seq<Order>)
    ensures
        forall|k: int|
            0 <= k < run_match(buys, sells).fills.len() ==> {
                let f = #[trigger] run_match(buys, sells).fills[k];
                0 < f.kwh && f.kwh <= f.buy_rem && f.kwh <= f.sell_rem
            },
    decreases buys.len() + sells.len(),
{
    if crossing(buys, sells) {
        let q = min_units(buys[0].remaining_kwh.units, sells[0].remaining_kwh.units);
        let bc = consume_head(buys, q);
        let sc = consume_head(sells, q);
        lemma_fill_bounds(bc, sc);
        let f0 = fill_of(buys[0], sells[0]);
        let rest = run_match(bc, sc).fills;
        assert forall|k: int| 0 <= k < run_match(buys, sells).fills.len() implies {
            let f = #[trigger] run_match(buys, sells).fills[k];
            0 < f.kwh && f.kwh <= f.buy_rem && f.kwh <= f.sell_rem
        } by {
            if k > 0 {
                assert(run_match(buys, sells).fills[k] == rest[k - 1]);
            }
        }
    }
}

/// **Conservation, per order**: over a whole pass no order id is filled for
/// more than the remaining quantity its orders brought in; when every order
/// starts within its original size, no id is filled beyond that size.
pub proof fn lemma_conservation(buys: Seq<Order>, sells: Seq<Order>, id: Seq<char>)
    requires
        forall|i: int|
            0 <= i < buys.len() ==> (#[trigger] buys[i]).remaining_kwh.units <= buys[i].kwh.units,
        forall|i: int|
            0 <= i < sells.len() ==> (#[trigger] sells[i]).remaining_kwh.units
                <= sells[i].kwh.units,
    ensures
        buyer_fill_total(run_match(buys, sells).fills, id) <= side_kwh(buys, id),
        seller_fill_total(run_match(buys, sells).fills, id) <= side_kwh(sells, id),
{
    lemma_conservation_buys(buys, sells, id);
    lemma_conservation_sells(buys, sells, id);
    lemma_side_remaining_le_kwh(buys, id);
    lemma_side_remaining_le_kwh(sells, id);
}

/// Every fill's two sides are orders of the starting queues: the buyer's
/// id, price and timestamp name some bid, and the seller's id, timestamp
/// and — by the price rule — the execution price name some ask.
pub proof fn lemma_fill_sources(buys: Seq<Order>, sells: Seq<Order>)
    ensures
        forall|k: int|
            0 <= k < run_match(buys, sells).fills.len() ==> {
                let f = #[trigger] run_match(buys, sells).fills[k];
                exists|i: int|
                    0 <= i < buys.len() && (#[trigger] buys[i]).id@ == f.buy_id && buys[i].price
                        == f.buy_price && buys[i].timestamp == f.buy_ts
            },
        forall|k: int|
            0 <= k < run_match(buys, sells).fills.len() ==> {
                let f = #[trigger] run_match(buys, sells).fills[k];
                exists|j: int|
                    0 <= j < sells.len() && (#[trigger] sells[j]).id@ == f.sell_id && sells[j].price
                        == f.price && sells[j].timestamp == f.sell_ts
            },
    decreases buys.len() + sells.len(),
{
    if crossing(buys, sells) {
        let q = min_units(buys[0].remaining_kwh.units, sells[0].remaining_kwh.units);
        let bc = consume_head(buys, q);
        let sc = consume_head(sells, q);
        lemma_fill_sources(bc, sc);
        let rest = run_match(bc, sc).fills;
        assert forall|k: int| 0 <= k < run_match(buys, sells).fills.len() implies {
            let f = #[trigger] run_match(buys, sells).fills[k];
            exists|i: int|
                0 <= i < buys.len() && (#[trigger] buys[i]).id@ == f.buy_id && buys[i].price
                    == f.buy_price && buys[i].timestamp == f.buy_ts
        } by {
            let f = run_match(buys, sells).fills[k];
            if k == 0 {
                assert(buys[0].id@ == f.buy_id && buys[0].price == f.buy_price && buys[0].timestamp
                    == f.buy_ts);
            } else {
                assert(run_match(buys, sells).fills[k] == rest[k - 1]);
                let i0 = choose|i: int|
                    0 <= i < bc.len() && (#[trigger] bc[i]).id@ == f.buy_id && bc[i].price
                        == f.buy_price && bc[i].timestamp == f.buy_ts;
                if buys[0].remaining_kwh.units == q {
                    assert(bc[i0] == buys[i0 + 1]);
                } else {
                    if i0 == 0 {
                        assert(bc[0].id@ == buys[0].id@ && bc[0].price == buys[0].price && bc[0].timestamp
                            == buys[0].timestamp);
                    } else {
                        assert(bc[i0] == buys[i0]);
                    }
                }
            }
        }
        assert forall|k: int| 0 <= k < run_match(buys, sells).fills.len() implies {
            let f = #[trigger] run_match(buys, sells).fills[k];
            exists|j: int|
                0 <= j < sells.len() && (#[trigger] sells[j]).id@ == f.sell_id && sells[j].price
                    == f.price && sells[j].timestamp == f.sell_ts
        } by {
            let f = run_match(buys, sells).fills[k];
            if k == 0 {
                assert(sells[0].id@ == f.sell_id && sells[0].price == f.price && sells[0].timestamp
                    == f.sell_ts);
            } else {
                assert(run_match(buys, sells).fills[k] == rest[k - 1]);
                let j0 = choose|j: int|
                    0 <= j < sc.len() && (#[trigger] sc[j]).id@ == f.sell_id && sc[j].price
                        == f.price && sc[j].timestamp == f.sell_ts;
                if sells[0].remaining_kwh.units == q {
                    assert(sc[j0] == sells[j0 + 1]);
                } else {
                    if j0 == 0 {
                        assert(sc[0].id@ == sells[0].id@ && sc[0].price == sells[0].price
                            && sc[0].timestamp == sells[0].timestamp);
                    } else {
                        assert(sc[j0] == sells[j0]);
                    }
                }
            }
        }
    }
}

/// **Price rule**: every fill executes at the price of the ask it matched —
/// and since prices never change during a pass, at that ask's price at the
/// moment of the trade.
pub proof fn lemma_price_rule(buys: Seq<Order>, sells: Seq<Order>)
    ensures
        forall|k: int|
            0 <= k < run_match(buys, sells).fills.len() ==> {
                let f = #[trigger] run_match(buys, sells).fills[k];
                exists|j: int|
                    0 <= j < sells.len() && (#[trigger] sells[j]).id@ == f.sell_id && sells[j].price
                        == f.price && sells[j].timestamp == f.sell_ts
            },
{
    lemma_fill_sources(buys, sells);
}

/// **Priority ordering**: along the fills of one pass, the buyers' keys
/// walk down bid priority and the sellers' keys walk down ask priority —
/// a more aggressive price is exhausted before a less aggressive one, and
/// at equal prices the earlier timestamp goes first.
pub proof fn lemma_priority(buys: Seq<Order>, sells: Seq<Order>)
    requires
        ready(Side::Buy, buys),
        ready(Side::Sell, sells),
        sorted_side(Side::Buy, buys),
        sorted_side(Side::Sell, sells),
    ensures
        forall|k1: int, k2: int|
            #![trigger run_match(buys, sells).fills[k1], run_match(buys, sells).fills[k2]]
            0 <= k1 <= k2 < run_match(buys, sells).fills.len() ==> prio_key_le(
                Side::Buy,
                run_match(buys, sells).fills[k1].buy_price.val(),
                run_match(buys, sells).fills[k1].buy_ts,
                run_match(buys, sells).fills[k2].buy_price.val(),
                run_match(buys, sells).fills[k2].buy_ts,
            ),
        forall|k1: int, k2: int|
            #![trigger run_match(buys, sells).fills[k1], run_match(buys, sells).fills[k2]]
            0 <= k1 <= k2 < run_match(buys, sells).fills.len() ==> prio_key_le(
                Side::Sell,
                run_match(buys, sells).fills[k1].price.val(),
                run_match(buys, sells).fills[k1].sell_ts,
                run_match(buys, sells).fills[k2].price.val(),
                run_match(buys, sells).fills[k2].sell_ts,
            ),
    decreases buys.len() + sells.len(),
{
    if crossing(buys, sells) {
        let q = min_units(buys[0].remaining_kwh.units, sells[0].remaining_kwh.units);
        let bc = consume_head(buys, q);
        let sc = consume_head(sells, q);
        crate::matcher::lemma_consume_head_wf(Side::Buy, buys, q);
        crate::matcher::lemma_consume_head_wf(Side::Sell, sells, q);
        lemma_priority(bc, sc);
        lemma_fill_sources(bc, sc);
        let all = run_match(buys, sells).fills;
        let rest = run_match(bc, sc).fills;
        assert(forall|i: int| 0 <= i < bc.len() ==> prio_le(Side::Buy, buys[0], #[trigger] bc[i]))
            by {
            if buys[0].remaining_kwh.units != q {
                assert(bc[0].price == buys[0].price && bc[0].timestamp == buys[0].timestamp);
                assert(forall|i: int| 0 < i < bc.len() ==> bc[i] == buys[i]);
            } else {
                assert(forall|i: int| 0 <= i < bc.len() ==> bc[i] == buys[i + 1]);
            }
        }
        assert(forall|j: int| 0 <= j < sc.len() ==> prio_le(Side::Sell, sells[0], #[trigger] sc[j]))
            by {
            if sells[0].remaining_kwh.units != q {
                assert(sc[0].price == sells[0].price && sc[0].timestamp == sells[0].timestamp);
                assert(forall|j: int| 0 < j < sc.len() ==> sc[j] == sells[j]);
            } else {
                assert(forall|j: int| 0 <= j < sc.len() ==> sc[j] == sells[j + 1]);
            }
        }
        assert forall|k1: int, k2: int|
            #![trigger all[k1], all[k2]]
            0 <= k1 <= k2 < all.len() implies prio_key_le(
            Side::Buy,
            all[k1].buy_price.val(),
            all[k1].buy_ts,
            all[k2].buy_price.val(),
            all[k2].buy_ts,
        ) by {
            if k1 == 0 {
                if k2 > 0 {
                    assert(all[k2] == rest[k2 - 1]);
                    let f = rest[k2 - 1];
                    let i0 = choose|i: int|
                        0 <= i < bc.len() && (#[trigger] bc[i]).id@ == f.buy_id && bc[i].price
                            == f.buy_price && bc[i].timestamp == f.buy_ts;
                    assert(prio_le(Side::Buy, buys[0], bc[i0]));
                }
            } else {
                assert(all[k1] == rest[k1 - 1]);
                assert(all[k2] == rest[k2 - 1]);
            }
        }
        assert forall|k1: int, k2: int|
            #![trigger all[k1], all[k2]]
            0 <= k1 <= k2 < all.len() implies prio_key_le(
            Side::Sell,
            all[k1].price.val(),
            all[k1].sell_ts,
            all[k2].price.val(),
            all[k2].sell_ts,
        ) by {
            if k1 == 0 {
                if k2 > 0 {
                    assert(all[k2] == rest[k2 - 1]);
                    let f = rest[k2 - 1];
                    let j0 = choose|j: int|
                        0 <= j < sc.len() && (#[trigger] sc[j]).id@ == f.sell_id && sc[j].price
                            == f.price && sc[j].timestamp == f.sell_ts;
                    assert(prio_le(Side::Sell, sells[0], sc[j0]));
                }
            } else {
                assert(all[k1] == rest[k1 - 1]);
                assert(all[k2] == rest[k2 - 1]);
            }
        }
    }
}

} // verus!
