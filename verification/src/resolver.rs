//! Dispute lookup: which earlier event of a client a dispute refers to.

use vstd::prelude::*;
use crate::input::ClientRecord;

verus! {

/// Why a dispute lookup gave no amount.
#[derive(Clone, Copy, Debug, PartialEq, Eq, Structural)]
pub enum DisputeError {
    /// No amount-bearing event with that transaction id is visible.
    Missing,
    /// More than one amount-bearing event with that transaction id is visible.
    Ambiguous,
}

/// An event can be disputed under `tx` when it carries that id and an amount.
pub open spec fn is_target(record: ClientRecord, tx: u32) -> bool {
    record.tx == tx && record.amount is Some
}

/// The events at or before position `index`: what a lookup made at `index`
/// may see.
pub open spec fn visible(records: Seq<ClientRecord>, index: int) -> Seq<ClientRecord> {
    if index < 0 {
        Seq::empty()
    } else if index + 1 >= records.len() {
        records
    } else {
        records.take(index + 1)
    }
}

/// The visible events that can be disputed under `tx`, in stream order.
pub open spec fn candidates(records: Seq<ClientRecord>, tx: u32, index: int) -> Seq<ClientRecord> {
    visible(records, index).filter(|r: ClientRecord| is_target(r, tx))
}

/// What a lookup answers: the amount of the only candidate, or why there is
/// none.
pub open spec fn lookup(records: Seq<ClientRecord>, tx: u32, index: int) -> Result<
    i64,
    DisputeError,
> {
    let found = candidates(records, tx, index);
    if found.len() == 0 {
        Err(DisputeError::Missing)
    } else if found.len() == 1 {
        Ok(found[0].amount->0)
    } else {
        Err(DisputeError::Ambiguous)
    }
}

/// Finds the amount that a dispute-class event with id `tx`, standing at
/// position `index`, refers to. Later events are never looked at.
pub fn find_disputed(records: &Vec<ClientRecord>, tx: u32, index: usize) -> (found: Result<
    i64,
    DisputeError,
>)
    ensures
        found == lookup(records@, tx, index as int),
{
    let ghost pred = |r: ClientRecord| is_target(r, tx);
    let mut count: usize = 0;
    let mut amount: i64 = 0;
    let mut i: usize = 0;
    proof {
        assert(records@.take(0).filter(pred).len() == 0) by {
            records@.take(0).lemma_filter_len(pred);
        }
    }
    while i < records.len() && i <= index
        invariant
            i <= records.len(),
            i <= index + 1,
            pred == (|r: ClientRecord| is_target(r, tx)),
            count == records@.take(i as int).filter(pred).len(),
            count <= i,
            count >= 1 ==> amount == records@.take(i as int).filter(pred)[0].amount->0,
        decreases records.len() - i,
    {
        let record = &records[i];
        proof {
            let before = records@.take(i as int);
            assert(records@.take(i + 1) == before.push(records@[i as int]));
            before.lemma_filter_push(records@[i as int], pred);
        }
        if record.tx == tx {
            if let Some(a) = record.amount {
                if count == 0 {
                    amount = a;
                }
                count = count + 1;
            }
        }
        i = i + 1;
    }
    proof {
        assert(visible(records@, index as int) == records@.take(i as int));
    }
    if count == 0 {
        Err(DisputeError::Missing)
    } else if count == 1 {
        Ok(amount)
    } else {
        Err(DisputeError::Ambiguous)
    }
}

} // verus!
