//! Orders, the two-sided order book, and the matching engine.
//!
//! An [`OrderBook`] partitions validated orders into bids and asks, each
//! sorted by price-time priority. [`Matcher::match_book`] then repeatedly
//! crosses the best bid against the best ask, emitting one [`MatchRecord`]
//! per fill, until either queue is empty or the best bid no longer reaches
//! the best ask. The whole pass is specified by the recursive function
//! [`run_match`], and the matcher is proved to implement it exactly.

use vstd::prelude::*;
use vstd::multiset::Multiset;
use vstd::string::StrSliceExecFns;

use crate::clock::now_micros;
use crate::numeric::MAX_KWH_UNITS;
use crate::numeric::Price;
use crate::numeric::Qty;

verus! {

/// Which side of the book an order belongs to.
#[derive(Clone, Copy, PartialEq, Eq, Structural, Debug)]
pub enum Side {
    Buy,
    Sell,
}


/// The token names a bid: `buy` or `b`, in any letter case.
pub open spec fn is_buy_token(s: Seq<char>) -> bool {
    ||| s.len() == 1 && (s[0] == 'b' || s[0] == 'B')
    ||| s.len() == 3 && (s[0] == 'b' || s[0] == 'B') && (s[1] == 'u' || s[1] == 'U') && (s[2]
        == 'y' || s[2] == 'Y')
}

/// The token names an ask: `sell` or `s`, in any letter case.
pub open spec fn is_sell_token(s: Seq<char>) -> bool {
    ||| s.len() == 1 && (s[0] == 's' || s[0] == 'S')
    ||| s.len() == 4 && (s[0] == 's' || s[0] == 'S') && (s[1] == 'e' || s[1] == 'E') && (s[2]
        == 'l' || s[2] == 'L') && (s[3] == 'l' || s[3] == 'L')
}

impl Side {
    /// Reads a side from its loader token, case-insensitively: `buy` or
    /// `b` names a bid, `sell` or `s` an ask; anything else is refused.
    pub fn from_token(t: &str) -> (r: Option<Side>)
        ensures
            r == Some(Side::Buy) <==> is_buy_token(t@),
            r == Some(Side::Sell) <==> is_sell_token(t@),
            r is None <==> !is_buy_token(t@) && !is_sell_token(t@),
    {
        let n = t.unicode_len();
        if n == 1 {
            let c = t.get_char(0);
            if c == 'b' || c == 'B' {
                Some(Side::Buy)
            } else if c == 's' || c == 'S' {
                Some(Side::Sell)
            } else {
                None
            }
        } else if n == 3 {
            let c0 = t.get_char(0);
            let c1 = t.get_char(1);
            let c2 = t.get_char(2);
            if (c0 == 'b' || c0 == 'B') && (c1 == 'u' || c1 == 'U') && (c2 == 'y' || c2 == 'Y') {
                Some(Side::Buy)
            } else {
                None
            }
        } else if n == 4 {
            let c0 = t.get_char(0);
            let c1 = t.get_char(1);
            let c2 = t.get_char(2);
            let c3 = t.get_char(3);
            if (c0 == 's' || c0 == 'S') && (c1 == 'e' || c1 == 'E') && (c2 == 'l' || c2 == 'L')
                && (c3 == 'l' || c3 == 'L') {
                Some(Side::Sell)
            } else {
                None
            }
        } else {
            None
        }
    }
}

/// A validated, normalized trade intent.
///
/// `timestamp` is the submission instant in microseconds since the Unix
/// epoch (UTC); it is used only for tie-breaking and record keeping.
#[derive(Clone, Debug)]
pub struct Order {
    pub id: String,
    pub tenant_id: String,
    pub side: Side,
    pub kwh: Qty,
    pub price: Price,
    pub timestamp: i64,
    pub remaining_kwh: Qty,
}

impl Order {
    /// The validation gate: a positive quantity within the ceiling and a
    /// positive, representable price.
    pub open spec fn valid(self) -> bool {
        &&& 0 < self.kwh.units <= MAX_KWH_UNITS
        &&& self.price.mantissa > 0
        &&& self.price.wf()
    }

    /// Rounds the remaining quantity to four fractional digits.
    ///
    /// Quantities are kept on the 0.0001-kWh grid by [`Qty`] itself, so the
    /// rounding is exact and the order is unchanged.
    pub fn normalize(&mut self)
        ensures
            *final(self) == *old(self),
    {
    }

    /// Accepts exactly the orders that satisfy [`Order::valid`], and names
    /// the first violated rule otherwise.
    pub fn validate(&self) -> (r: Result<(), String>)
        ensures
            r is Ok <==> self.valid(),
            self.kwh.units == 0 ==> (r matches Err(m) && m@ == "kwh must be > 0"@),
            self.kwh.units > MAX_KWH_UNITS ==> (r matches Err(m) && m@
                == "kwh exceeds max allowed"@),
            0 < self.kwh.units <= MAX_KWH_UNITS && self.price.mantissa == 0 ==> (r matches Err(m)
                && m@ == "price must be > 0"@),
            0 < self.kwh.units <= MAX_KWH_UNITS && self.price.mantissa > 0 && !self.price.wf()
                ==> (r matches Err(m) && m@ == "price has too many fractional digits"@),
    {
        if self.kwh.units == 0 {
            Err("kwh must be > 0".to_owned())
        } else if self.kwh.units > MAX_KWH_UNITS {
            Err("kwh exceeds max allowed".to_owned())
        } else if self.price.mantissa == 0 {
            Err("price must be > 0".to_owned())
        } else if self.price.scale > crate::numeric::MAX_PRICE_SCALE {
            Err("price has too many fractional digits".to_owned())
        } else {
            Ok(())
        }
    }
}

/// An immutable trade receipt.
///
/// `timestamp` is the execution instant in microseconds since the Unix
/// epoch (UTC), distinct from the submission times of the matched orders.
#[derive(Clone, Debug)]
pub struct MatchRecord {
    pub buy_order_id: String,
    pub sell_order_id: String,
    pub kwh: Qty,
    pub price: Price,
    pub timestamp: i64,
    pub run_id: Option<String>,
}

/// The two priority-ordered queues of outstanding orders.
pub struct OrderBook {
    pub buys: Vec<Order>,
    pub sells: Vec<Order>,
}

/// Price-time priority on the key `(price value, timestamp)`: the better
/// price wins, ties go to the earlier timestamp. For bids the higher price
/// is better, for asks the lower.
pub open spec fn prio_key_le(side: Side, p1: int, t1: int, p2: int, t2: int) -> bool {
    if p1 == p2 {
        t1 <= t2
    } else if side == Side::Buy {
        p1 > p2
    } else {
        p1 < p2
    }
}

/// `a` has priority at least as good as `b` on the given side.
pub open spec fn prio_le(side: Side, a: Order, b: Order) -> bool {
    prio_key_le(side, a.price.val(), a.timestamp as int, b.price.val(), b.timestamp as int)
}

/// The sequence is sorted best-priority-first for the given side.
pub open spec fn sorted_side(side: Side, s: Seq<Order>) -> bool {
    forall|i: int, j: int| 0 <= i < j < s.len() ==> prio_le(side, s[i], s[j])
}

/// Every order in the sequence sits on the given side, carries a
/// representable price, and still has quantity left to fill.
pub open spec fn ready(side: Side, s: Seq<Order>) -> bool {
    forall|i: int|
        0 <= i < s.len() ==> {
            &&& (#[trigger] s[i]).side == side
            &&& s[i].price.wf()
            &&& s[i].remaining_kwh.units > 0
        }
}

/// An order with an unset remaining quantity starts with its full size.
pub open spec fn with_default_remaining(o: Order) -> Order {
    if o.remaining_kwh.units == 0 {
        Order { remaining_kwh: o.kwh, ..o }
    } else {
        o
    }
}

/// The multiset of orders after the default-remaining normalization.
pub open spec fn normalized_multiset(s: Seq<Order>) -> Multiset<Order> {
    s.map_values(|o: Order| with_default_remaining(o)).to_multiset()
}

impl OrderBook {
    /// Well-formedness: both queues hold only their own side, with
    /// representable prices and positive remaining quantity, in
    /// price-time-priority order.
    pub open spec fn wf(self) -> bool {
        &&& ready(Side::Buy, self.buys@)
        &&& ready(Side::Sell, self.sells@)
        &&& sorted_side(Side::Buy, self.buys@)
        &&& sorted_side(Side::Sell, self.sells@)
    }

    /// Builds the book from an unordered collection of validated orders:
    /// normalizes each order's remaining quantity, partitions by side, and
    /// sorts bids by descending price and asks by ascending price, ties on
    /// either side broken by ascending timestamp.
    pub fn from(orders: Vec<Order>) -> (book: OrderBook)
        requires
            forall|i: int| 0 <= i < orders@.len() ==> (#[trigger] orders@[i]).valid(),
        ensures
            book.wf(),
            book.buys@.to_multiset().add(book.sells@.to_multiset()) == normalized_multiset(
                orders@,
            ),
            book.buys@.len() + book.sells@.len() == orders@.len(),
    {
        broadcast use vstd::seq_lib::group_to_multiset_ensures;
        broadcast use vstd::multiset::group_multiset_axioms;

        let ghost all = orders@;
        let mut v = orders;
        let mut buys_raw: Vec<Order> = Vec::new();
        let mut sells_raw: Vec<Order> = Vec::new();
        while v.len() > 0
            invariant
                forall|i: int| 0 <= i < v@.len() ==> (#[trigger] v@[i]).valid(),
                ready(Side::Buy, buys_raw@),
                ready(Side::Sell, sells_raw@),
                buys_raw@.to_multiset().add(sells_raw@.to_multiset()).add(
                    normalized_multiset(v@),
                ) == normalized_multiset(all),
            decreases v@.len(),
        {
            let ghost prev = v@;
            let mut o = v.pop().unwrap();
            if o.remaining_kwh.is_zero() {
                o.remaining_kwh = o.kwh;
            }
            proof {
                let f = |x: Order| with_default_remaining(x);
                assert(prev =~= v@.push(prev.last()));
                assert(prev.map_values(f) =~= v@.map_values(f).push(o));
                vstd::seq_lib::to_multiset_build::<Order>(v@.map_values(f), o);
                assert(v@.map_values(f).push(o).to_multiset() == v@.map_values(
                    f,
                ).to_multiset().insert(o));
                assert(normalized_multiset(prev) == normalized_multiset(v@).insert(o));
            }
            let ghost bm = buys_raw@.to_multiset();
            let ghost bseq = buys_raw@;
            let ghost sm = sells_raw@.to_multiset();
            let ghost sseq = sells_raw@;
            if matches!(o.side, Side::Buy) {
                buys_raw.push(o);
                proof {
                    vstd::seq_lib::to_multiset_build::<Order>(bseq, o);
                    assert(buys_raw@.to_multiset() == bseq.push(o).to_multiset());
                    assert(bseq.push(o).to_multiset() == bm.insert(o));
                    assert(bm.insert(o).add(sm).add(normalized_multiset(v@)) =~= bm.add(sm).add(
                        normalized_multiset(v@).insert(o),
                    ));
                }
            } else {
                sells_raw.push(o);
                proof {
                    vstd::seq_lib::to_multiset_build::<Order>(sseq, o);
                    assert(sells_raw@.to_multiset() == sseq.push(o).to_multiset());
                    assert(sseq.push(o).to_multiset() == sm.insert(o));
                    assert(bm.add(sm.insert(o)).add(normalized_multiset(v@)) =~= bm.add(sm).add(
                        normalized_multiset(v@).insert(o),
                    ));
                }
            }
        }
        proof {
            assert(normalized_multiset(v@) =~= Multiset::<Order>::empty());
            assert(buys_raw@.to_multiset().add(sells_raw@.to_multiset()) =~= normalized_multiset(
                all,
            ));
        }
        let buys = sort_by_priority(Side::Buy, buys_raw);
        let sells = sort_by_priority(Side::Sell, sells_raw);
        proof {
            assert(buys@.to_multiset().add(sells@.to_multiset()) =~= normalized_multiset(all));
            assert(normalized_multiset(all).len() == all.len()) by {
                assert(all.map_values(|x: Order| with_default_remaining(x)).len() == all.len());
            }
        }
        OrderBook { buys, sells }
    }
}

/// Priority totality: two orders on one side can always be ordered.
pub proof fn lemma_prio_total(side: Side, a: Order, b: Order)
    ensures
        prio_le(side, a, b) || prio_le(side, b, a),
{
}

/// Priority transitivity.
pub proof fn lemma_prio_trans(side: Side, a: Order, b: Order, c: Order)
    requires
        prio_le(side, a, b),
        prio_le(side, b, c),
    ensures
        prio_le(side, a, c),
{
}

/// Decides [`prio_le`] for two orders of one side.
fn prio_le_exec(side: Side, a: &Order, b: &Order) -> (r: bool)
    requires
        a.price.wf(),
        b.price.wf(),
    ensures
        r == prio_le(side, *a, *b),
{
    let a_lt = a.price.lt(&b.price);
    let b_lt = b.price.lt(&a.price);
    if !a_lt && !b_lt {
        a.timestamp <= b.timestamp
    } else if matches!(side, Side::Buy) {
        b_lt
    } else {
        a_lt
    }
}

/// Inserts an order into a priority-sorted queue, keeping it sorted.
fn insert_by_priority(side: Side, out: &mut Vec<Order>, o: Order)
    requires
        ready(side, old(out)@),
        sorted_side(side, old(out)@),
        o.side == side,
        o.price.wf(),
        o.remaining_kwh.units > 0,
    ensures
        ready(side, final(out)@),
        sorted_side(side, final(out)@),
        final(out)@.to_multiset() == old(out)@.to_multiset().insert(o),
{
    broadcast use vstd::seq_lib::group_to_multiset_ensures;
    broadcast use vstd::multiset::group_multiset_axioms;

    let mut k: usize = 0;
    while k < out.len() && prio_le_exec(side, &out[k], &o)
        invariant
            k <= out@.len(),
            ready(side, out@),
            sorted_side(side, out@),
            o.price.wf(),
            forall|i: int| 0 <= i < k ==> prio_le(side, out@[i], o),
            out@ == old(out)@,
        decreases out@.len() - k,
    {
        k = k + 1;
    }
    proof {
        if k < out@.len() {
            lemma_prio_total(side, out@[k as int], o);
            assert forall|j: int| k <= j < out@.len() implies prio_le(side, o, out@[j]) by {
                if j > k {
                    lemma_prio_trans(side, o, out@[k as int], out@[j]);
                }
            }
        }
        assert(old(out)@.insert(k as int, o).to_multiset() == old(out)@.to_multiset().insert(o));
    }
    out.insert(k, o);
}

/// Sorts one side of the book by price-time priority. Exact duplicates of
/// the `(price, timestamp)` key may land in either relative order; the
/// comparator is total, so every result is sorted.
fn sort_by_priority(side: Side, v: Vec<Order>) -> (out: Vec<Order>)
    requires
        ready(side, v@),
    ensures
        ready(side, out@),
        sorted_side(side, out@),
        out@.to_multiset() == v@.to_multiset(),
{
    broadcast use vstd::seq_lib::group_to_multiset_ensures;
    broadcast use vstd::multiset::group_multiset_axioms;

    let ghost all = v@;
    let mut v = v;
    let mut out: Vec<Order> = Vec::new();
    while v.len() > 0
        invariant
            ready(side, v@),
            ready(side, out@),
            sorted_side(side, out@),
            out@.to_multiset().add(v@.to_multiset()) == all.to_multiset(),
        decreases v@.len(),
    {
        let ghost prev = v@;
        let ghost om = out@.to_multiset();
        let o = v.pop().unwrap();
        proof {
            assert(prev =~= v@.push(o));
            vstd::seq_lib::to_multiset_build::<Order>(v@, o);
            assert(prev.to_multiset() =~= v@.to_multiset().insert(o));
        }
        insert_by_priority(side, &mut out, o);
        proof {
            assert(out@.to_multiset().add(v@.to_multiset()) =~= om.add(v@.to_multiset().insert(o)));
        }
    }
    proof {
        assert(out@.to_multiset().add(v@.to_multiset()) =~= out@.to_multiset());
    }
    out
}


/// One fill, as the specification sees it: the matched orders' ids, the
/// traded quantity in 0.0001-kWh units, the execution price, and the
/// matched orders' priority keys and remaining quantities at the moment of
/// the fill.
pub ghost struct Fill {
    pub buy_id: Seq<char>,
    pub sell_id: Seq<char>,
    pub kwh: u64,
    pub price: Price,
    pub buy_price: Price,
    pub buy_ts: int,
    pub sell_ts: int,
    pub buy_rem: u64,
    pub sell_rem: u64,
}

/// The outcome of a whole matching pass: the fills in execution order and
/// the residual queues.
pub ghost struct MatchOut {
    pub fills: Seq<Fill>,
    pub buys: Seq<Order>,
    pub sells: Seq<Order>,
}

pub open spec fn min_units(a: u64, b: u64) -> u64 {
    if a <= b {
        a
    } else {
        b
    }
}

/// A trade is possible: both queues are non-empty, the best bid reaches the
/// best ask, and a positive quantity can change hands.
pub open spec fn crossing(buys: Seq<Order>, sells: Seq<Order>) -> bool {
    &&& buys.len() > 0
    &&& sells.len() > 0
    &&& sells[0].price.val() <= buys[0].price.val()
    &&& min_units(buys[0].remaining_kwh.units, sells[0].remaining_kwh.units) > 0
}

/// The fill produced by crossing the two head orders. The execution price
/// is the sell side's price: the ask is the passive, price-setting side by
/// the fixed convention of this engine.
pub open spec fn fill_of(b: Order, s: Order) -> Fill {
    Fill {
        buy_id: b.id@,
        sell_id: s.id@,
        kwh: min_units(b.remaining_kwh.units, s.remaining_kwh.units),
        price: s.price,
        buy_price: b.price,
        buy_ts: b.timestamp as int,
        sell_ts: s.timestamp as int,
        buy_rem: b.remaining_kwh.units,
        sell_rem: s.remaining_kwh.units,
    }
}

/// The queue after its head gives up `q` units: the head is removed when
/// exhausted, otherwise kept with its remaining quantity reduced.
pub open spec fn consume_head(s: Seq<Order>, q: u64) -> Seq<Order> {
    if s[0].remaining_kwh.units == q {
        s.drop_first()
    } else {
        s.update(
            0,
            Order { remaining_kwh: Qty { units: (s[0].remaining_kwh.units - q) as u64 }, ..s[0] },
        )
    }
}

/// The matching pass, as a recursive function of the two queues: while a
/// cross exists, trade the largest quantity both heads allow at the ask's
/// price, then continue with the consumed queues.
pub open spec fn run_match(buys: Seq<Order>, sells: Seq<Order>) -> MatchOut
    decreases buys.len() + sells.len(),
{
    if !crossing(buys, sells) {
        MatchOut { fills: Seq::empty(), buys, sells }
    } else {
        let q = min_units(buys[0].remaining_kwh.units, sells[0].remaining_kwh.units);
        let rest = run_match(consume_head(buys, q), consume_head(sells, q));
        MatchOut {
            fills: seq![fill_of(buys[0], sells[0])] + rest.fills,
            buys: rest.buys,
            sells: rest.sells,
        }
    }
}

/// The records report exactly these fills: same ids, quantities and prices,
/// in the same order.
pub open spec fn records_match(rs: Seq<MatchRecord>, fs: Seq<Fill>) -> bool {
    &&& rs.len() == fs.len()
    &&& forall|i: int|
        0 <= i < rs.len() ==> {
            &&& (#[trigger] rs[i]).buy_order_id@ == fs[i].buy_id
            &&& rs[i].sell_order_id@ == fs[i].sell_id
            &&& rs[i].kwh.units == fs[i].kwh
            &&& rs[i].price == fs[i].price
        }
}

/// Copies the run correlation tag for one record.
fn clone_run_id(run_id: &Option<String>) -> (r: Option<String>)
    ensures
        r == *run_id,
{
    match run_id {
        None => None,
        Some(s) => Some(s.clone()),
    }
}

/// The matching engine.
pub struct Matcher {}

impl Matcher {
    /// Matches the book to completion and returns the executed trades.
    ///
    /// The pass implements [`run_match`] exactly: the returned records are
    /// its fills (each stamped with the wall clock and the caller's run
    /// tag), and the book is left holding its residual queues, which are
    /// either one-sided or uncrossed.
    pub fn match_book(book: &mut OrderBook, run_id: Option<String>) -> (records: Vec<MatchRecord>)
        requires
            old(book).wf(),
        ensures
            final(book).wf(),
            final(book).buys@ == run_match(old(book).buys@, old(book).sells@).buys,
            final(book).sells@ == run_match(old(book).buys@, old(book).sells@).sells,
            records_match(records@, run_match(old(book).buys@, old(book).sells@).fills),
            forall|i: int|
                0 <= i < records@.len() ==> (#[trigger] records@[i]).run_id == run_id,
            final(book).buys@.len() == 0 || final(book).sells@.len() == 0
                || final(book).buys@[0].price.val() < final(book).sells@[0].price.val(),
    {
        let ghost b0 = book.buys@;
        let ghost s0 = book.sells@;
        let mut records: Vec<MatchRecord> = Vec::new();
        let ghost mut fills_done: Seq<Fill> = Seq::empty();
        loop
            invariant
                book.wf(),
                run_match(b0, s0).buys == run_match(book.buys@, book.sells@).buys,
                run_match(b0, s0).sells == run_match(book.buys@, book.sells@).sells,
                run_match(b0, s0).fills == fills_done + run_match(book.buys@, book.sells@).fills,
                records_match(records@, fills_done),
                forall|i: int|
                    0 <= i < records@.len() ==> (#[trigger] records@[i]).run_id == run_id,
            ensures
                book.wf(),
                !crossing(book.buys@, book.sells@),
                run_match(b0, s0).buys == run_match(book.buys@, book.sells@).buys,
                run_match(b0, s0).sells == run_match(book.buys@, book.sells@).sells,
                run_match(b0, s0).fills == fills_done + run_match(book.buys@, book.sells@).fills,
                records_match(records@, fills_done),
                forall|i: int|
                    0 <= i < records@.len() ==> (#[trigger] records@[i]).run_id == run_id,
            decreases book.buys@.len() + book.sells@.len(),
        {
            if book.buys.len() == 0 {
                break;
            }
            if book.sells.len() == 0 {
                break;
            }
            // Stop as soon as the best bid no longer reaches the best ask.
            if book.buys[0].price.lt(&book.sells[0].price) {
                break;
            }
            let trade_qty = book.buys[0].remaining_kwh.min(book.sells[0].remaining_kwh);
            // Defensive guard from the algorithm; it cannot fire while the
            // book is well-formed.
            if trade_qty.is_zero() {
                break;
            }
            let ghost cb = book.buys@;
            let ghost cs = book.sells@;
            let ghost q: u64 = trade_qty.units;
            proof {
                assert(crossing(cb, cs));
            }
            let buy_order_id = book.buys[0].id.clone();
            let sell_order_id = book.sells[0].id.clone();
            let trade_price = book.sells[0].price;
            let record = MatchRecord {
                buy_order_id,
                sell_order_id,
                kwh: trade_qty,
                price: trade_price,
                timestamp: now_micros(),
                run_id: clone_run_id(&run_id),
            };
            records.push(record);
            let b_rem = book.buys[0].remaining_kwh;
            if b_rem.units == trade_qty.units {
                let _ = book.buys.remove(0);
                proof {
                    assert(book.buys@ =~= consume_head(cb, q));
                }
            } else {
                let updated = {
                    let o = &book.buys[0];
                    Order {
                        id: o.id.clone(),
                        tenant_id: o.tenant_id.clone(),
                        side: o.side,
                        kwh: o.kwh,
                        price: o.price,
                        timestamp: o.timestamp,
                        remaining_kwh: b_rem.minus(trade_qty),
                    }
                };
                book.buys[0] = updated;
                proof {
                    assert(book.buys@ =~= consume_head(cb, q));
                }
            }
            let s_rem = book.sells[0].remaining_kwh;
            if s_rem.units == trade_qty.units {
                let _ = book.sells.remove(0);
                proof {
                    assert(book.sells@ =~= consume_head(cs, q));
                }
            } else {
                let updated = {
                    let o = &book.sells[0];
                    Order {
                        id: o.id.clone(),
                        tenant_id: o.tenant_id.clone(),
                        side: o.side,
                        kwh: o.kwh,
                        price: o.price,
                        timestamp: o.timestamp,
                        remaining_kwh: s_rem.minus(trade_qty),
                    }
                };
                book.sells[0] = updated;
                proof {
                    assert(book.sells@ =~= consume_head(cs, q));
                }
            }
            proof {
                let f = fill_of(cb[0], cs[0]);
                lemma_consume_head_wf(Side::Buy, cb, q);
                lemma_consume_head_wf(Side::Sell, cs, q);
                let prev_done = fills_done;
                fills_done = fills_done + seq![f];
                assert(run_match(cb, cs).fills =~= seq![f] + run_match(
                    book.buys@,
                    book.sells@,
                ).fills);
                assert(run_match(b0, s0).fills =~= fills_done + run_match(
                    book.buys@,
                    book.sells@,
                ).fills) by {
                    assert(prev_done + (seq![f] + run_match(book.buys@, book.sells@).fills) =~= (
                    prev_done + seq![f]) + run_match(book.buys@, book.sells@).fills);
                }
                assert(records_match(records@, fills_done));
            }
        }
        proof {
            assert(run_match(book.buys@, book.sells@) == MatchOut {
                fills: Seq::<Fill>::empty(),
                buys: book.buys@,
                sells: book.sells@,
            });
            assert(fills_done + Seq::<Fill>::empty() =~= fills_done);
            if book.buys@.len() > 0 && book.sells@.len() > 0 {
                assert(book.buys@[0].remaining_kwh.units > 0);
                assert(book.sells@[0].remaining_kwh.units > 0);
            }
        }
        records
    }
}

/// Consuming the head of a ready, sorted queue leaves it ready and sorted,
/// as long as the head had at least `q` units, with `q` positive.
pub proof fn lemma_consume_head_wf(side: Side, s: Seq<Order>, q: u64)
    requires
        s.len() > 0,
        ready(side, s),
        sorted_side(side, s),
        0 < q <= s[0].remaining_kwh.units,
    ensures
        ready(side, consume_head(s, q)),
        sorted_side(side, consume_head(s, q)),
        consume_head(s, q).len() == if s[0].remaining_kwh.units == q {
            s.len() - 1
        } else {
            s.len() as int
        },
{
    let t = consume_head(s, q);
    if s[0].remaining_kwh.units == q {
        assert(forall|i: int| 0 <= i < t.len() ==> t[i] == s[i + 1]);
    } else {
        assert(t[0].price == s[0].price && t[0].timestamp == s[0].timestamp);
        assert(forall|i: int| 0 < i < t.len() ==> t[i] == s[i]);
        assert forall|i: int, j: int| 0 <= i < j < t.len() implies prio_le(side, t[i], t[j]) by {
            assert(prio_le(side, s[i], s[j]));
        }
    }
}

} // verus!
