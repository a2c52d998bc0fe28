//! The event model: what a ledger consumes, and how a feed of rows is
//! divided among the clients.

use std::collections::HashMap;
use vstd::prelude::*;

verus! {

broadcast use vstd::std_specs::hash::group_hash_axioms;

/// The kind of an event.
#[derive(Clone, Copy, Debug, PartialEq, Eq, Structural)]
pub enum Action {
    Deposit,
    Withdrawal,
    Dispute,
    Resolve,
    Chargeback,
    Unknown,
}

/// One row of the feed: an event and the client it belongs to.
#[derive(Clone, Copy, Debug, PartialEq, Eq, Structural)]
pub struct InputRecord {
    pub action: Action,
    pub client: u16,
    pub tx: u32,
    pub amount: Option<i64>,
}

/// One event of a single client's stream. Its position in the stream is its
/// sequence index.
#[derive(Clone, Copy, Debug, PartialEq, Eq, Structural)]
pub struct ClientRecord {
    pub action: Action,
    pub tx: u32,
    pub amount: Option<i64>,
}

impl ClientRecord {
    pub fn new(action: Action, tx: u32, amount: Option<i64>) -> (record: ClientRecord)
        ensures
            record == (ClientRecord { action, tx, amount }),
    {
        ClientRecord { action, tx, amount }
    }
}

impl InputRecord {
    /// The event of the row, without the client.
    pub open spec fn event(self) -> ClientRecord {
        ClientRecord { action: self.action, tx: self.tx, amount: self.amount }
    }
}

/// The action that a name stands for. Names are case-sensitive; anything
/// but the five known names is `Unknown`.
pub open spec fn action_of(name: Seq<char>) -> Action {
    if name == "deposit"@ {
        Action::Deposit
    } else if name == "withdrawal"@ {
        Action::Withdrawal
    } else if name == "dispute"@ {
        Action::Dispute
    } else if name == "resolve"@ {
        Action::Resolve
    } else if name == "chargeback"@ {
        Action::Chargeback
    } else {
        Action::Unknown
    }
}

/// Whether two texts hold the same characters.
fn same_text(a: &str, b: &str) -> (same: bool)
    ensures
        same == (a@ == b@),
{
    a.to_owned() == b.to_owned()
}

/// Reads the action field of a row.
pub fn parse_type(name: &str) -> (action: Action)
    ensures
        action == action_of(name@),
{
    if same_text(name, "deposit") {
        Action::Deposit
    } else if same_text(name, "withdrawal") {
        Action::Withdrawal
    } else if same_text(name, "dispute") {
        Action::Dispute
    } else if same_text(name, "resolve") {
        Action::Resolve
    } else if same_text(name, "chargeback") {
        Action::Chargeback
    } else {
        Action::Unknown
    }
}

/// The events of `client` among the rows of a feed, in feed order.
pub open spec fn events_of(records: Seq<InputRecord>, client: u16) -> Seq<ClientRecord> {
    records.filter(|r: InputRecord| r.client == client).map_values(|r: InputRecord| r.event())
}

/// Adding a row to a feed adds its event to the stream of its client and to
/// no other.
pub proof fn lemma_events_of_push(records: Seq<InputRecord>, row: InputRecord, client: u16)
    ensures
        events_of(records.push(row), client) == if row.client == client {
            events_of(records, client).push(row.event())
        } else {
            events_of(records, client)
        },
{
    let of_client = |r: InputRecord| r.client == client;
    records.lemma_filter_push(row, of_client);
    if row.client == client {
        records.filter(of_client).lemma_push_map_commute(|r: InputRecord| r.event(), row);
    }
}

/// Divides a feed among its clients. Every client with at least one row gets
/// the stream of its events, in feed order; no other client gets a stream.
pub fn group_by_client(records: &Vec<InputRecord>) -> (streams: HashMap<u16, Vec<ClientRecord>>)
    ensures
        forall|client: u16| #[trigger]
            streams@.contains_key(client) <==> events_of(records@, client).len() > 0,
        forall|client: u16| #[trigger]
            streams@.contains_key(client) ==> streams@[client]@ == events_of(records@, client),
{
    let mut streams: HashMap<u16, Vec<ClientRecord>> = HashMap::new();
    let mut i: usize = 0;
    assert forall|client: u16| events_of(records@.take(0), client).len() == 0 by {
        records@.take(0).lemma_filter_len(|r: InputRecord| r.client == client);
    }
    while i < records.len()
        invariant
            i <= records.len(),
            forall|client: u16| #[trigger]
                streams@.contains_key(client) <==> events_of(records@.take(i as int), client).len()
                    > 0,
            forall|client: u16| #[trigger]
                streams@.contains_key(client) ==> streams@[client]@ == events_of(
                    records@.take(i as int),
                    client,
                ),
        decreases records.len() - i,
    {
        let row = &records[i];
        let mut stream = match streams.remove(&row.client) {
            Some(stream) => stream,
            None => Vec::new(),
        };
        stream.push(ClientRecord::new(row.action, row.tx, row.amount));
        streams.insert(row.client, stream);
        proof {
            assert(records@.take(i + 1) == records@.take(i as int).push(*row));
            assert forall|client: u16|
                (#[trigger] streams@.contains_key(client) <==> events_of(
                    records@.take(i + 1),
                    client,
                ).len() > 0) && (streams@.contains_key(client) ==> streams@[client]@ == events_of(
                    records@.take(i + 1),
                    client,
                )) by {
                lemma_events_of_push(records@.take(i as int), *row, client);
            }
        }
        i = i + 1;
    }
    assert(records@.take(i as int) == records@);
    streams
}

} // verus!
