//! Per-client ledger engine: fixed-point amounts, the event model, and the
//! account state machine that folds a client's events into a balance
//! snapshot.

use vstd::prelude::*;

pub mod account;
pub mod amount;
pub mod decimal;
pub mod input;
pub mod laws;
pub mod resolver;
pub mod state;

use crate::account::Account;
use crate::input::{events_of, group_by_client, InputRecord};
use crate::state::{AccountState, LedgerError};

verus! {

broadcast use vstd::std_specs::hash::group_hash_axioms;

/// The snapshot line of one client after all its events in a feed: the
/// client's rows are picked out of the feed in order and taken in by a
/// fresh account.
pub fn client_transactions(client_id: u16, records: &Vec<InputRecord>) -> (status: Result<
    String,
    LedgerError,
>)
    ensures
        ({
            let events = events_of(records@, client_id);
            let start = AccountState::initial(client_id);
            match status {
                Ok(line) => {
                    &&& events.len() > 0
                    &&& start.run_fits(events, events.len())
                    &&& line@ == start.run(events, events.len()).snapshot()
                },
                Err(LedgerError::UnknownClient) => events.len() == 0,
                Err(LedgerError::Overflow { index }) => {
                    &&& index < events.len()
                    &&& start.run_fits(events, index as nat)
                    &&& !start.run(events, (index + 1) as nat).fits()
                },
            }
        }),
{
    let streams = group_by_client(records);
    match streams.get(&client_id) {
        Some(events) => {
            let mut account = Account::new(client_id);
            account.dispatch_transactions(events)
        },
        None => Err(LedgerError::UnknownClient),
    }
}

} // verus!
