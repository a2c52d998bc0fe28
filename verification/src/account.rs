//! One client's account: the ledger state held in 64-bit money, and the rules
//! that change it.

use std::collections::HashMap;
use vstd::prelude::*;
use crate::amount::{format_amount, push_decimal};
use crate::input::{Action, ClientRecord};
use crate::resolver::{find_disputed, DisputeError};
use crate::state::{AccountState, LedgerError, Outcome, Skip};

verus! {

broadcast use vstd::std_specs::hash::group_hash_axioms;

/// The three balances of an account. They change together, so that the
/// total is at every moment what is available plus what is held.
#[derive(Clone, Copy)]
struct Balances {
    available: i64,
    held: i64,
    total: i64,
}

impl Balances {
    #[verifier::type_invariant]
    spec fn balanced(self) -> bool {
        self.total == self.available + self.held
    }
}

/// The ledger of one client.
pub struct Account {
    client_id: u16,
    transactions_disputed: HashMap<u32, i64>,
    transactions_solved: HashMap<u32, i64>,
    balances: Balances,
    locked: bool,
}

impl View for Account {
    type V = AccountState;

    closed spec fn view(&self) -> AccountState {
        AccountState {
            client_id: self.client_id,
            available: self.balances.available as int,
            held: self.balances.held as int,
            total: self.balances.total as int,
            locked: self.locked,
            disputed: self.transactions_disputed@,
            solved: self.transactions_solved@,
        }
    }
}

impl Account {
    /// Opens the account of `client_id`: no funds, not locked, no disputes.
    pub fn new(client_id: u16) -> (account: Account)
        ensures
            account@ == AccountState::initial(client_id),
            account@.valid(),
    {
        Account {
            client_id,
            transactions_disputed: HashMap::new(),
            transactions_solved: HashMap::new(),
            balances: Balances { available: 0, held: 0, total: 0 },
            locked: false,
        }
    }

    /// The client that the account belongs to.
    pub fn client_id(&self) -> (id: u16)
        ensures
            id == self@.client_id,
    {
        self.client_id
    }

    /// What the client may withdraw.
    pub fn available(&self) -> (money: i64)
        ensures
            money == self@.available,
    {
        self.balances.available
    }

    /// What is frozen under open disputes.
    pub fn held(&self) -> (money: i64)
        ensures
            money == self@.held,
    {
        self.balances.held
    }

    /// What is available plus what is held.
    pub fn total(&self) -> (money: i64)
        ensures
            money == self@.total,
            money == self@.available + self@.held,
    {
        proof {
            use_type_invariant(&self.balances);
        }
        self.balances.total
    }

    /// Whether a chargeback has locked the account.
    pub fn locked(&self) -> (locked: bool)
        ensures
            locked == self@.locked,
    {
        self.locked
    }

    /// The snapshot line of the account, as in `7, 1.5000, 0.0000, 1.5000, false`.
    pub fn to_string(&self) -> (line: String)
        ensures
            line@ == self@.snapshot(),
            self@.balanced(),
    {
        proof {
            use_type_invariant(&self.balances);
        }
        let mut line = String::new();
        push_decimal(&mut line, self.client_id as u64);
        line.append(", ");
        line.append(format_amount(self.balances.available).as_str());
        line.append(", ");
        line.append(format_amount(self.balances.held).as_str());
        line.append(", ");
        line.append(format_amount(self.balances.total).as_str());
        line.append(", ");
        if self.locked {
            line.append("true");
        } else {
            line.append("false");
        }
        line
    }

    /// Adds the record's amount to what is available and to the total. A
    /// record without an amount is passed over.
    pub fn tr_deposit(&mut self, record: &ClientRecord) -> (outcome: Outcome)
        ensures
            (outcome, final(self)@) == old(self)@.commit(
                old(self)@.deposit_skip(record.amount),
                old(self)@.deposit(record.amount),
            ),
            final(self)@.balanced(),
            old(self)@.valid() ==> final(self)@.valid(),
    {
        proof {
            use_type_invariant(&self.balances);
        }
        let amount = match record.amount {
            Some(amount) => amount,
            None => {
                return Outcome::Skipped(Skip::NoAmount);
            },
        };
        let available = self.balances.available.checked_add(amount);
        let total = self.balances.total.checked_add(amount);
        match (available, total) {
            (Some(available), Some(total)) => {
                self.balances = Balances { available, held: self.balances.held, total };
                Outcome::Applied
            },
            _ => Outcome::Overflow,
        }
    }

    /// Takes the record's amount from what is available and from the total,
    /// if that much is available. Otherwise, and for a record without an
    /// amount, the account is left as it is.
    pub fn tr_withdrawal(&mut self, record: &ClientRecord) -> (outcome: Outcome)
        ensures
            (outcome, final(self)@) == old(self)@.commit(
                old(self)@.withdrawal_skip(record.amount),
                old(self)@.withdrawal(record.amount),
            ),
            final(self)@.balanced(),
            old(self)@.valid() ==> final(self)@.valid(),
    {
        proof {
            use_type_invariant(&self.balances);
        }
        let amount = match record.amount {
            Some(amount) => amount,
            None => {
                return Outcome::Skipped(Skip::NoAmount);
            },
        };
        if amount > self.balances.available {
            return Outcome::Skipped(Skip::InsufficientFunds);
        }
        let available = self.balances.available.checked_sub(amount);
        let total = self.balances.total.checked_sub(amount);
        match (available, total) {
            (Some(available), Some(total)) => {
                self.balances = Balances { available, held: self.balances.held, total };
                Outcome::Applied
            },
            _ => Outcome::Overflow,
        }
    }

    /// Puts the amount that `disputed_record` refers to on hold. The target is
    /// looked up among the events of `client_records` at or before `index`.
    pub fn tr_dispute(
        &mut self,
        disputed_record: &ClientRecord,
        client_records: &Vec<ClientRecord>,
        index: usize,
    ) -> (outcome: Outcome)
        ensures
            (outcome, final(self)@) == old(self)@.commit(
                old(self)@.dispute_skip(disputed_record.tx, client_records@, index as int),
                old(self)@.dispute(disputed_record.tx, client_records@, index as int),
            ),
            final(self)@.balanced(),
            old(self)@.valid() ==> final(self)@.valid(),
    {
        proof {
            use_type_invariant(&self.balances);
        }
        let tx = disputed_record.tx;
        let amount = match find_disputed(client_records, tx, index) {
            Ok(amount) => amount,
            Err(DisputeError::Missing) => {
                return Outcome::Skipped(Skip::MissingTarget);
            },
            Err(DisputeError::Ambiguous) => {
                return Outcome::Skipped(Skip::AmbiguousTarget);
            },
        };
        if self.transactions_solved.contains_key(&tx) {
            return Outcome::Skipped(Skip::AlreadySolved);
        }
        if self.transactions_disputed.contains_key(&tx) {
            return Outcome::Skipped(Skip::AlreadyDisputed);
        }
        let available = self.balances.available.checked_sub(amount);
        let held = self.balances.held.checked_add(amount);
        match (available, held) {
            (Some(available), Some(held)) => {
                self.balances = Balances { available, held, total: self.balances.total };
                self.transactions_disputed.insert(tx, amount);
                Outcome::Applied
            },
            _ => Outcome::Overflow,
        }
    }

    /// The amount held under the open dispute of `tx`, if there is one.
    pub fn get_transaction_disputed(&self, tx: u32) -> (amount: Option<i64>)
        ensures
            amount == (if self@.disputed.contains_key(tx) {
                Some(self@.disputed[tx])
            } else {
                None
            }),
    {
        match self.transactions_disputed.get(&tx) {
            Some(amount) => Some(*amount),
            None => None,
        }
    }

    /// Ends the open dispute of the record's transaction in the client's
    /// favour: the held amount becomes available again.
    pub fn tr_resolve(&mut self, record: &ClientRecord) -> (outcome: Outcome)
        ensures
            (outcome, final(self)@) == old(self)@.commit(
                old(self)@.settle_skip(record.tx),
                old(self)@.resolve(record.tx),
            ),
            final(self)@.balanced(),
            old(self)@.valid() ==> final(self)@.valid(),
    {
        proof {
            use_type_invariant(&self.balances);
        }
        let tx = record.tx;
        let amount = match self.get_transaction_disputed(tx) {
            Some(amount) => amount,
            None => {
                return Outcome::Skipped(Skip::NotDisputed);
            },
        };
        let available = self.balances.available.checked_add(amount);
        let held = self.balances.held.checked_sub(amount);
        match (available, held) {
            (Some(available), Some(held)) => {
                self.balances = Balances { available, held, total: self.balances.total };
                self.transactions_disputed.remove(&tx);
                self.transactions_solved.insert(tx, amount);
                Outcome::Applied
            },
            _ => Outcome::Overflow,
        }
    }

    /// Ends the open dispute of the record's transaction against the client:
    /// the held amount leaves the account, and the account is locked.
    pub fn tr_chargeback(&mut self, record: &ClientRecord) -> (outcome: Outcome)
        ensures
            (outcome, final(self)@) == old(self)@.commit(
                old(self)@.settle_skip(record.tx),
                old(self)@.chargeback(record.tx),
            ),
            final(self)@.balanced(),
            old(self)@.valid() ==> final(self)@.valid(),
    {
        proof {
            use_type_invariant(&self.balances);
        }
        let tx = record.tx;
        let amount = match self.get_transaction_disputed(tx) {
            Some(amount) => amount,
            None => {
                return Outcome::Skipped(Skip::NotDisputed);
            },
        };
        let total = self.balances.total.checked_sub(amount);
        let held = self.balances.held.checked_sub(amount);
        match (total, held) {
            (Some(total), Some(held)) => {
                self.balances = Balances { available: self.balances.available, held, total };
                self.locked = true;
                self.transactions_disputed.remove(&tx);
                self.transactions_solved.insert(tx, amount);
                Outcome::Applied
            },
            _ => Outcome::Overflow,
        }
    }

    /// Takes in the event at `index` of `client_records`: a locked account
    /// passes over deposits and withdrawals, and every other event goes by
    /// the rule of its action.
    pub fn apply(&mut self, client_records: &Vec<ClientRecord>, index: usize) -> (outcome: Outcome)
        requires
            index < client_records.len(),
        ensures
            (outcome, final(self)@) == old(self)@.apply(client_records@, index as int),
            final(self)@.balanced(),
            old(self)@.valid() ==> final(self)@.valid(),
    {
        proof {
            use_type_invariant(&self.balances);
        }
        let record = &client_records[index];
        if self.locked && (record.action == Action::Deposit || record.action
            == Action::Withdrawal) {
            Outcome::Skipped(Skip::Locked)
        } else {
            match record.action {
                Action::Deposit => self.tr_deposit(record),
                Action::Withdrawal => self.tr_withdrawal(record),
                Action::Dispute => self.tr_dispute(record, client_records, index),
                Action::Resolve => self.tr_resolve(record),
                Action::Chargeback => self.tr_chargeback(record),
                Action::Unknown => Outcome::Skipped(Skip::UnknownAction),
            }
        }
    }

    /// Takes in the client's events in order and gives the snapshot line of
    /// the account after the last one. It stops before the first event that
    /// asks for a balance outside the range of 64-bit money, and names it.
    pub fn dispatch_transactions(&mut self, client_records: &Vec<ClientRecord>) -> (status: Result<
        String,
        LedgerError,
    >)
        ensures
            match status {
                Ok(line) => {
                    &&& old(self)@.run_fits(client_records@, client_records@.len())
                    &&& final(self)@ == old(self)@.run(client_records@, client_records@.len())
                    &&& line@ == final(self)@.snapshot()
                },
                Err(LedgerError::Overflow { index }) => {
                    &&& index < client_records@.len()
                    &&& old(self)@.run_fits(client_records@, index as nat)
                    &&& !old(self)@.run(client_records@, (index + 1) as nat).fits()
                    &&& final(self)@ == old(self)@.run(client_records@, index as nat)
                },
                Err(LedgerError::UnknownClient) => false,
            },
            final(self)@.balanced(),
            old(self)@.valid() ==> final(self)@.valid(),
    {
        let mut index: usize = 0;
        while index < client_records.len()
            invariant
                index <= client_records.len(),
                self@ == old(self)@.run(client_records@, index as nat),
                old(self)@.run_fits(client_records@, index as nat),
                old(self)@.valid() ==> self@.valid(),
            decreases client_records.len() - index,
        {
            let outcome = self.apply(client_records, index);
            if outcome == Outcome::Overflow {
                return Err(LedgerError::Overflow { index });
            }
            index = index + 1;
        }
        Ok(self.to_string())
    }
}

} // verus!
