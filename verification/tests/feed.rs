use tr_engine::amount::parse_amount;
use tr_engine::client_transactions;
use tr_engine::input::{group_by_client, parse_type, Action, InputRecord};
use tr_engine::state::LedgerError;

const FEED: &str = "\
type, client, tx, amount
# opening deposits
deposit, 1, 1, 1.0
deposit, 2, 2, 2.0
deposit, 1, 3, 2.0
withdrawal, 1, 4, 1.5
withdrawal, 2, 5, 3.0
# client 1 disputes its first deposit
dispute, 1, 1,
transfer, 2, 6, 1.0
";

fn rows(text: &str) -> Vec<InputRecord> {
    let mut reader = csv::ReaderBuilder::new()
        .comment(Some(b'#'))
        .trim(csv::Trim::All)
        .from_reader(text.as_bytes());
    let mut rows = Vec::new();
    for record in reader.records() {
        let record = record.unwrap();
        let amount = record.get(3).filter(|field| !field.is_empty());
        rows.push(InputRecord {
            action: parse_type(record.get(0).unwrap()),
            client: record.get(1).unwrap().parse().unwrap(),
            tx: record.get(2).unwrap().parse().unwrap(),
            amount: parse_amount(amount),
        });
    }
    rows
}

#[test]
fn rows_of_a_csv_feed_become_records() {
    let rows = rows(FEED);
    assert_eq!(rows.len(), 7);
    assert_eq!(
        rows[0],
        InputRecord { action: Action::Deposit, client: 1, tx: 1, amount: Some(10000) }
    );
    assert_eq!(
        rows[3],
        InputRecord { action: Action::Withdrawal, client: 1, tx: 4, amount: Some(15000) }
    );
    assert_eq!(
        rows[5],
        InputRecord { action: Action::Dispute, client: 1, tx: 1, amount: None }
    );
    assert_eq!(
        rows[6],
        InputRecord { action: Action::Unknown, client: 2, tx: 6, amount: Some(10000) }
    );
}

#[test]
fn snapshots_of_a_csv_feed() {
    let rows = rows(FEED);
    assert_eq!(
        client_transactions(1, &rows),
        Ok("1, 0.5000, 1.0000, 1.5000, false".to_string())
    );
    assert_eq!(
        client_transactions(2, &rows),
        Ok("2, 2.0000, 0.0000, 2.0000, false".to_string())
    );
    assert_eq!(client_transactions(3, &rows), Err(LedgerError::UnknownClient));
}

#[test]
fn streams_of_a_csv_feed() {
    let streams = group_by_client(&rows(FEED));
    assert_eq!(streams.len(), 2);
    assert_eq!(streams[&1].len(), 4);
    assert_eq!(streams[&2].len(), 3);
    assert_eq!(streams[&1][3].action, Action::Dispute);
    assert_eq!(streams[&2][2].action, Action::Unknown);
}
