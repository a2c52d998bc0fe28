use tr_engine::input::{group_by_client, parse_type, Action, ClientRecord, InputRecord};
use tr_engine::resolver::{find_disputed, DisputeError};

#[test]
fn parse_type_knows_five_names() {
    assert_eq!(parse_type("deposit"), Action::Deposit);
    assert_eq!(parse_type("withdrawal"), Action::Withdrawal);
    assert_eq!(parse_type("dispute"), Action::Dispute);
    assert_eq!(parse_type("resolve"), Action::Resolve);
    assert_eq!(parse_type("chargeback"), Action::Chargeback);
}

#[test]
fn parse_type_of_anything_else_is_unknown() {
    assert_eq!(parse_type("Deposit"), Action::Unknown);
    assert_eq!(parse_type("deposit "), Action::Unknown);
    assert_eq!(parse_type("deposits"), Action::Unknown);
    assert_eq!(parse_type("depos"), Action::Unknown);
    assert_eq!(parse_type(""), Action::Unknown);
    assert_eq!(parse_type("refund"), Action::Unknown);
}

#[test]
fn client_record_keeps_its_fields() {
    let record = ClientRecord::new(Action::Withdrawal, 17, Some(-3));
    assert_eq!(record.action, Action::Withdrawal);
    assert_eq!(record.tx, 17);
    assert_eq!(record.amount, Some(-3));
    assert_eq!(ClientRecord::new(Action::Dispute, 1, None).amount, None);
}

#[test]
fn group_by_client_keeps_feed_order() {
    let feed = vec![
        InputRecord { action: Action::Deposit, client: 2, tx: 1, amount: Some(5) },
        InputRecord { action: Action::Deposit, client: 1, tx: 2, amount: Some(6) },
        InputRecord { action: Action::Dispute, client: 2, tx: 1, amount: None },
        InputRecord { action: Action::Withdrawal, client: 2, tx: 3, amount: Some(1) },
        InputRecord { action: Action::Unknown, client: 1, tx: 4, amount: None },
    ];
    let streams = group_by_client(&feed);
    assert_eq!(streams.len(), 2);
    assert_eq!(
        streams[&2],
        vec![
            ClientRecord::new(Action::Deposit, 1, Some(5)),
            ClientRecord::new(Action::Dispute, 1, None),
            ClientRecord::new(Action::Withdrawal, 3, Some(1)),
        ]
    );
    assert_eq!(
        streams[&1],
        vec![
            ClientRecord::new(Action::Deposit, 2, Some(6)),
            ClientRecord::new(Action::Unknown, 4, None),
        ]
    );
    assert!(!streams.contains_key(&3));
}

#[test]
fn group_by_client_of_an_empty_feed() {
    assert!(group_by_client(&Vec::new()).is_empty());
}

#[test]
fn find_disputed_gives_the_only_target() {
    let events = vec![
        ClientRecord::new(Action::Deposit, 1, Some(50)),
        ClientRecord::new(Action::Withdrawal, 2, Some(20)),
        ClientRecord::new(Action::Dispute, 2, None),
        ClientRecord::new(Action::Dispute, 1, None),
    ];
    assert_eq!(find_disputed(&events, 2, 2), Ok(20));
    assert_eq!(find_disputed(&events, 1, 3), Ok(50));
    assert_eq!(find_disputed(&events, 1, 0), Ok(50));
}

#[test]
fn find_disputed_without_a_target() {
    let events = vec![
        ClientRecord::new(Action::Dispute, 1, None),
        ClientRecord::new(Action::Resolve, 1, None),
        ClientRecord::new(Action::Deposit, 2, Some(5)),
    ];
    assert_eq!(find_disputed(&events, 1, 2), Err(DisputeError::Missing));
    assert_eq!(find_disputed(&events, 3, 2), Err(DisputeError::Missing));
    assert_eq!(find_disputed(&Vec::new(), 1, 0), Err(DisputeError::Missing));
}

#[test]
fn find_disputed_with_two_targets() {
    let events = vec![
        ClientRecord::new(Action::Deposit, 1, Some(50)),
        ClientRecord::new(Action::Withdrawal, 1, Some(20)),
        ClientRecord::new(Action::Dispute, 1, None),
    ];
    assert_eq!(find_disputed(&events, 1, 2), Err(DisputeError::Ambiguous));
    assert_eq!(find_disputed(&events, 1, 1), Err(DisputeError::Ambiguous));
    assert_eq!(find_disputed(&events, 1, 0), Ok(50));
}

#[test]
fn find_disputed_never_looks_ahead() {
    let events = vec![
        ClientRecord::new(Action::Dispute, 1, None),
        ClientRecord::new(Action::Deposit, 1, Some(50)),
        ClientRecord::new(Action::Deposit, 1, Some(60)),
    ];
    assert_eq!(find_disputed(&events, 1, 0), Err(DisputeError::Missing));
    assert_eq!(find_disputed(&events, 1, 1), Ok(50));
    assert_eq!(find_disputed(&events, 1, 2), Err(DisputeError::Ambiguous));
    assert_eq!(find_disputed(&events, 1, usize::MAX), Err(DisputeError::Ambiguous));
}
