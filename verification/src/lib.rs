//! A continuous double-auction matching engine for a divisible commodity.
//!
//! Buy and sell orders carry an exact fixed-point quantity and price.
//! An order book sorts them by price-time priority; the matcher crosses
//! the best bid against the best ask until no cross remains, emitting a
//! trade record for every fill.

mod clock;
pub mod laws;
pub mod matcher;
pub mod ledger;
pub mod numeric;
mod rng;
pub mod simulate;

pub use ledger::Ledger;
pub use matcher::MatchRecord;
pub use matcher::Matcher;
pub use matcher::Order;
pub use matcher::OrderBook;
pub use matcher::Side;
pub use numeric::Price;
pub use numeric::Qty;
