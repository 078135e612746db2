//! The in-memory trade ledger: an append-only list of match records.

use vstd::prelude::*;

use crate::matcher::MatchRecord;

verus! {

/// The collected trade receipts of one or more matching passes.
#[derive(Clone, Debug)]
pub struct Ledger {
    pub entries: Vec<MatchRecord>,
}

impl Ledger {
    /// An empty ledger.
    pub fn new() -> (l: Ledger)
        ensures
            l.entries@ == Seq::<MatchRecord>::empty(),
    {
        Ledger { entries: Vec::new() }
    }

    /// Appends one record at the end.
    pub fn append(&mut self, r: MatchRecord)
        ensures
            final(self).entries@ == old(self).entries@.push(r),
    {
        self.entries.push(r);
    }

    /// Appends a whole batch of records, keeping their order.
    pub fn extend(&mut self, rows: Vec<MatchRecord>)
        ensures
            final(self).entries@ == old(self).entries@ + rows@,
    {
        let mut rows = rows;
        self.entries.append(&mut rows);
    }
}

impl Default for Ledger {
    /// The empty ledger.
    fn default() -> (l: Ledger)
        ensures
            l.entries@ == Seq::<MatchRecord>::empty(),
    {
        Ledger::new()
    }
}

} // verus!
