//! The transaction log: an append-only, densely-indexed sequence of
//! records. Indices start at zero, are never reused, and never reordered;
//! the next index to assign is always the current length.
use vstd::prelude::*;
use crate::types::{OperationV, Transaction, TransactionV};

verus! {

/// The sum of all minted amounts recorded in the log.
pub open spec fn mint_total(s: Seq<TransactionV>) -> nat
    decreases s.len(),
{
    if s.len() == 0 {
        0
    } else {
        mint_total(s.drop_last()) + match s.last().op {
            OperationV::Mint(m) => m.amount,
            _ => 0,
        }
    }
}

/// The sum of all burned amounts recorded in the log.
pub open spec fn burn_total(s: Seq<TransactionV>) -> nat
    decreases s.len(),
{
    if s.len() == 0 {
        0
    } else {
        burn_total(s.drop_last()) + match s.last().op {
            OperationV::Burn(b) => b.amount,
            _ => 0,
        }
    }
}

/// The sum of all fees recorded in the log. A fee is burned from its
/// payer, never credited to any account.
pub open spec fn fees_total(s: Seq<TransactionV>) -> nat
    decreases s.len(),
{
    if s.len() == 0 {
        0
    } else {
        fees_total(s.drop_last()) + match s.last().op {
            OperationV::Transfer(t) => match t.fee {
                Some(f) => f,
                None => 0,
            },
            OperationV::Approve(a) => match a.fee {
                Some(f) => f,
                None => 0,
            },
            _ => 0,
        }
    }
}

/// Appending a record appends its view.
pub proof fn lemma_log_view_push(s: Seq<Transaction>, t: Transaction)
    ensures
        log_view(s.push(t)) =~= log_view(s).push(t@),
{
}

/// Appending a record extends each accounting total by that record's
/// contribution.
pub proof fn lemma_totals_push(s: Seq<TransactionV>, t: TransactionV)
    ensures
        mint_total(s.push(t)) == mint_total(s) + match t.op {
            OperationV::Mint(m) => m.amount,
            _ => 0,
        },
        burn_total(s.push(t)) == burn_total(s) + match t.op {
            OperationV::Burn(b) => b.amount,
            _ => 0,
        },
        fees_total(s.push(t)) == fees_total(s) + match t.op {
            OperationV::Transfer(tr) => match tr.fee {
                Some(f) => f,
                None => 0,
            },
            OperationV::Approve(a) => match a.fee {
                Some(f) => f,
                None => 0,
            },
            _ => 0,
        },
{
    assert(s.push(t).drop_last() =~= s);
}

/// The append-only transaction log.
pub struct TransactionLog {
    entries: Vec<Transaction>,
}

/// The record views of a record sequence, in order.
pub open spec fn log_view(s: Seq<Transaction>) -> Seq<TransactionV> {
    s.map_values(|t: Transaction| t@)
}

impl View for TransactionLog {
    type V = Seq<TransactionV>;

    closed spec fn view(&self) -> Seq<TransactionV> {
        log_view(self.entries@)
    }
}

impl TransactionLog {
    /// An empty log.
    pub fn new() -> (r: Self)
        ensures
            r@ == Seq::<TransactionV>::empty(),
    {
        let r = TransactionLog { entries: Vec::new() };
        proof {
            assert(r@ =~= Seq::<TransactionV>::empty());
        }
        r
    }

    /// The current count of appended records.
    pub fn length(&self) -> (r: u64)
        ensures
            r == self@.len(),
    {
        self.entries.len() as u64
    }

    /// Assigns the next sequential index to the record, stores it, and
    /// returns the assigned index.
    pub fn append(&mut self, tx: Transaction) -> (idx: u64)
        ensures
            idx == old(self)@.len(),
            final(self)@ == old(self)@.push(tx@),
    {
        let idx = self.entries.len() as u64;
        let ghost txv = tx@;
        self.entries.push(tx);
        proof {
            assert(self@ =~= old(self)@.push(txv));
        }
        idx
    }

    /// A point lookup by index.
    pub fn get(&self, index: u64) -> (r: Option<&Transaction>)
        ensures
            match r {
                Some(t) => index < self@.len() && t@ == self@[index as int],
                None => index >= self@.len(),
            },
    {
        if index < self.entries.len() as u64 {
            Some(&self.entries[index as usize])
        } else {
            None
        }
    }

    /// The records with indices in [start, min(start + length, length())),
    /// each with its index, in ascending index order. An out-of-range
    /// start yields an empty sequence, not an error.
    pub fn range(&self, start: u64, length: u64) -> (r: Vec<(u64, &Transaction)>)
        ensures
            r@.len() == range_count(start as nat, length as nat, self@.len()),
            forall|i: int|
                0 <= i < r@.len() ==> {
                    &&& (#[trigger] r@[i]).0 == start + i
                    &&& r@[i].1@ == self@[start + i]
                },
    {
        let log_length = self.entries.len() as u64;
        let end = if start > log_length {
            start
        } else if length > log_length - start {
            log_length
        } else {
            start + length
        };
        let mut out: Vec<(u64, &Transaction)> = Vec::new();
        let mut i = start;
        while i < end
            invariant
                start <= i,
                i <= end || end < start,
                start > log_length ==> end == start,
                start <= log_length ==> end <= log_length,
                start <= log_length ==> end - start == range_count(
                    start as nat,
                    length as nat,
                    log_length as nat,
                ),
                log_length == self@.len(),
                log_length == self.entries.len(),
                out@.len() == i - start,
                forall|j: int|
                    0 <= j < out@.len() ==> {
                        &&& (#[trigger] out@[j]).0 == start + j
                        &&& out@[j].1@ == self@[start + j]
                    },
            decreases end - i,
        {
            proof {
                assert(i < self.entries@.len());
            }
            let tx: &Transaction = &self.entries[i as usize];
            proof {
                assert(tx@ == self@[i as int]);
            }
            out.push((i, tx));
            i = i + 1;
        }
        out
    }
}

/// The number of records a range query returns: those with indices in
/// [start, min(start + length, log_length)).
pub open spec fn range_count(start: nat, length: nat, log_length: nat) -> nat {
    if start > log_length {
        0
    } else if start + length > log_length {
        (log_length - start) as nat
    } else {
        length
    }
}

} // verus!
