//! A reproducible scenario generator: random but valid orders for demo and
//! test runs.

use vstd::prelude::*;
use vstd::string::StrSliceExecFns;
use vstd::string::StringExecFns;

use crate::clock::now_micros;
use crate::matcher::Order;
use crate::matcher::Side;
use crate::numeric::Price;
use crate::numeric::Qty;
use crate::rng::rng_from_seed;
use crate::rng::rng_range;

verus! {

/// The decimal digit characters of `n`, most significant first.
pub open spec fn dec_digits(n: u64) -> Seq<char>
    decreases n,
{
    if n < 10 {
        seq![digit_char(n)]
    } else {
        dec_digits(n / 10).push(digit_char(n % 10))
    }
}

/// The character for one decimal digit.
pub open spec fn digit_char(d: u64) -> char {
    if d == 0 {
        '0'
    } else if d == 1 {
        '1'
    } else if d == 2 {
        '2'
    } else if d == 3 {
        '3'
    } else if d == 4 {
        '4'
    } else if d == 5 {
        '5'
    } else if d == 6 {
        '6'
    } else if d == 7 {
        '7'
    } else if d == 8 {
        '8'
    } else {
        '9'
    }
}

/// One decimal digit as a string slice.
fn digit_str(d: u64) -> (r: &'static str)
    requires
        d < 10,
    ensures
        r@ == seq![digit_char(d)],
{
    proof {
        reveal_strlit("0");
        reveal_strlit("1");
        reveal_strlit("2");
        reveal_strlit("3");
        reveal_strlit("4");
        reveal_strlit("5");
        reveal_strlit("6");
        reveal_strlit("7");
        reveal_strlit("8");
        reveal_strlit("9");
    }
    if d == 0 {
        "0"
    } else if d == 1 {
        "1"
    } else if d == 2 {
        "2"
    } else if d == 3 {
        "3"
    } else if d == 4 {
        "4"
    } else if d == 5 {
        "5"
    } else if d == 6 {
        "6"
    } else if d == 7 {
        "7"
    } else if d == 8 {
        "8"
    } else {
        "9"
    }
}

/// Appends the decimal digits of `n` to the string.
fn push_digits(out: &mut String, n: u64)
    ensures
        final(out)@ == old(out)@ + dec_digits(n),
    decreases n,
{
    if n < 10 {
        out.append(digit_str(n));
    } else {
        let ghost mid = out@;
        push_digits(out, n / 10);
        out.append(digit_str(n % 10));
        proof {
            assert((mid + dec_digits(n / 10)).push(digit_char(n % 10)) =~= mid + dec_digits(n));
        }
    }
}

/// The id given to a generated order: `name-seed-index`.
pub open spec fn scenario_id(name: Seq<char>, seed: u64, index: u64) -> Seq<char> {
    name + seq!['-'] + dec_digits(seed) + seq!['-'] + dec_digits(index)
}

fn compose_id(name: &str, seed: u64, index: u64) -> (r: String)
    ensures
        r@ == scenario_id(name@, seed, index),
{
    proof {
        reveal_strlit("-");
    }
    let mut s = name.to_owned();
    s.append("-");
    push_digits(&mut s, seed);
    s.append("-");
    push_digits(&mut s, index);
    proof {
        assert(s@ =~= scenario_id(name@, seed, index));
    }
    s
}

/// The tenant tag given to a generated order: `t` followed by a digit.
pub open spec fn tenant_tag(t: u64) -> Seq<char> {
    seq!['t'] + dec_digits(t)
}

fn compose_tenant(t: u64) -> (r: String)
    requires
        t < 10,
    ensures
        r@ == tenant_tag(t),
{
    proof {
        reveal_strlit("t");
    }
    let mut s = "t".to_owned();
    push_digits(&mut s, t);
    proof {
        assert(s@ =~= tenant_tag(t));
    }
    s
}

/// Generates `n` random, valid orders: each side is a fair draw, quantities
/// span 0.0001 to 100 kWh, and prices span 0.0500 to 0.5000 at four
/// fractional digits. Every order is submitted at the current instant with
/// its full size remaining, under the id `name-seed-index`.
pub fn generate_scenario(name: &str, seed: u64, n: usize) -> (orders: Vec<Order>)
    ensures
        orders@.len() == n,
        forall|i: int| 0 <= i < n ==> (#[trigger] orders@[i]).valid(),
        forall|i: int|
            0 <= i < n ==> (#[trigger] orders@[i]).remaining_kwh == orders@[i].kwh,
        forall|i: int|
            0 <= i < n ==> (#[trigger] orders@[i]).id@ == scenario_id(name@, seed, i as u64),
        forall|i: int|
            0 <= i < n ==> {
                &&& 1 <= (#[trigger] orders@[i]).kwh.units <= 1_000_000
                &&& 500 <= orders@[i].price.mantissa <= 5000
                &&& orders@[i].price.scale == 4
            },
{
    let mut rng = rng_from_seed(seed);
    let mut out: Vec<Order> = Vec::new();
    let mut i: usize = 0;
    while i < n
        invariant
            i <= n,
            out@.len() == i,
            forall|k: int| 0 <= k < i ==> (#[trigger] out@[k]).valid(),
            forall|k: int|
                0 <= k < i ==> (#[trigger] out@[k]).remaining_kwh == out@[k].kwh,
            forall|k: int|
                0 <= k < i ==> (#[trigger] out@[k]).id@ == scenario_id(name@, seed, k as u64),
            forall|k: int|
                0 <= k < i ==> {
                    &&& 1 <= (#[trigger] out@[k]).kwh.units <= 1_000_000
                    &&& 500 <= out@[k].price.mantissa <= 5000
                    &&& out@[k].price.scale == 4
                },
        decreases n - i,
    {
        let side = if rng_range(&mut rng, 0, 1) == 1 {
            Side::Buy
        } else {
            Side::Sell
        };
        // kWh between 0.0001 and 100.0000, in 0.0001-kWh units.
        let k_units = rng_range(&mut rng, 1, 1_000_000);
        let kwh = Qty::from_units(k_units);
        // price between 0.0500 and 0.5000, at four fractional digits.
        let p_int = rng_range(&mut rng, 500, 5000);
        let price = Price { mantissa: p_int, scale: 4 };
        let tenant = rng_range(&mut rng, 1, 4);
        let o = Order {
            id: compose_id(name, seed, i as u64),
            tenant_id: compose_tenant(tenant),
            side,
            kwh,
            price,
            timestamp: now_micros(),
            remaining_kwh: kwh,
        };
        out.push(o);
        i = i + 1;
    }
    out
}

} // verus!
