//! The ledger as mathematics: an account's state over unbounded integers and
//! the rule by which each event changes it.

use vstd::prelude::*;
use crate::amount::{decimal_digits, format_spec, is_money};
use crate::input::{Action, ClientRecord};
use crate::resolver::{lookup, DisputeError};

verus! {

/// One client's ledger. Amounts are money scaled by 10,000.
pub struct AccountState {
    pub client_id: u16,
    pub available: int,
    pub held: int,
    pub total: int,
    pub locked: bool,
    /// Amounts held under an open dispute, by transaction id.
    pub disputed: Map<u32, i64>,
    /// Amounts of disputes that were resolved or charged back.
    pub solved: Map<u32, i64>,
}

/// Why an event was passed over.
#[derive(Clone, Copy, Debug, PartialEq, Eq, Structural)]
pub enum Skip {
    /// A deposit or withdrawal came to a locked account.
    Locked,
    /// A deposit or withdrawal carried no amount.
    NoAmount,
    /// A withdrawal asked for more than is available.
    InsufficientFunds,
    /// A dispute found no earlier event to refer to.
    MissingTarget,
    /// A dispute found more than one earlier event to refer to.
    AmbiguousTarget,
    /// A dispute named a transaction that is already solved.
    AlreadySolved,
    /// A dispute named a transaction that is already under dispute.
    AlreadyDisputed,
    /// A resolve or chargeback named a transaction that is not under dispute.
    NotDisputed,
    /// The action is none of the five known ones.
    UnknownAction,
}

/// What became of one event.
#[derive(Clone, Copy, Debug, PartialEq, Eq, Structural)]
pub enum Outcome {
    /// The event's rule changed the account.
    Applied,
    /// The event was passed over and the account is as it was.
    Skipped(Skip),
    /// The event's rule applies, but a balance would leave the range of
    /// 64-bit money; the account is as it was.
    Overflow,
}

/// Why a client's events gave no snapshot.
#[derive(Clone, Copy, Debug, PartialEq, Eq, Structural)]
pub enum LedgerError {
    /// The feed holds no event of the client.
    UnknownClient,
    /// The event at `index` of the client's stream asks for a balance outside
    /// the range of 64-bit money. The events before it were taken in; this
    /// one and those after it were not.
    Overflow { index: usize },
}

impl AccountState {
    /// A fresh account: no funds, not locked, no disputes.
    pub open spec fn initial(client_id: u16) -> Self {
        AccountState {
            client_id,
            available: 0,
            held: 0,
            total: 0,
            locked: false,
            disputed: Map::empty(),
            solved: Map::empty(),
        }
    }

    /// The total is what is available plus what is held.
    pub open spec fn balanced(self) -> bool {
        self.total == self.available + self.held
    }

    /// What holds of every account: it is balanced, and no transaction is
    /// both under dispute and solved.
    pub open spec fn valid(self) -> bool {
        &&& self.balanced()
        &&& self.disputed.dom().disjoint(self.solved.dom())
    }

    /// All three balances can be stored as 64-bit money.
    pub open spec fn fits(self) -> bool {
        is_money(self.available) && is_money(self.held) && is_money(self.total)
    }

    /// A locked account takes no deposit and no withdrawal.
    pub open spec fn gated(self, action: Action) -> bool {
        self.locked && (action == Action::Deposit || action == Action::Withdrawal)
    }

    /// Why a deposit is passed over, if it is: it carries no amount.
    pub open spec fn deposit_skip(self, amount: Option<i64>) -> Option<Skip> {
        if amount is None {
            Some(Skip::NoAmount)
        } else {
            None
        }
    }

    /// The amount is added to what is available and to the total.
    pub open spec fn deposit(self, amount: Option<i64>) -> Self {
        if self.deposit_skip(amount) is None {
            AccountState {
                available: self.available + amount->0,
                total: self.total + amount->0,
                ..self
            }
        } else {
            self
        }
    }

    /// Why a withdrawal is passed over, if it is: it carries no amount, or
    /// asks for more than is available.
    pub open spec fn withdrawal_skip(self, amount: Option<i64>) -> Option<Skip> {
        if amount is None {
            Some(Skip::NoAmount)
        } else if amount->0 > self.available {
            Some(Skip::InsufficientFunds)
        } else {
            None
        }
    }

    /// The amount is taken from what is available and from the total.
    pub open spec fn withdrawal(self, amount: Option<i64>) -> Self {
        if self.withdrawal_skip(amount) is None {
            AccountState {
                available: self.available - amount->0,
                total: self.total - amount->0,
                ..self
            }
        } else {
            self
        }
    }

    /// Why a dispute is passed over, if it is: the lookup does not find
    /// exactly one target, or the transaction is solved, or it is under
    /// dispute already.
    pub open spec fn dispute_skip(self, tx: u32, records: Seq<ClientRecord>, index: int) -> Option<
        Skip,
    > {
        match lookup(records, tx, index) {
            Err(DisputeError::Missing) => Some(Skip::MissingTarget),
            Err(DisputeError::Ambiguous) => Some(Skip::AmbiguousTarget),
            Ok(_) => if self.solved.contains_key(tx) {
                Some(Skip::AlreadySolved)
            } else if self.disputed.contains_key(tx) {
                Some(Skip::AlreadyDisputed)
            } else {
                None
            },
        }
    }

    /// The disputed amount moves from what is available to what is held.
    pub open spec fn dispute(self, tx: u32, records: Seq<ClientRecord>, index: int) -> Self {
        if self.dispute_skip(tx, records, index) is None {
            let amount = lookup(records, tx, index)->Ok_0;
            AccountState {
                available: self.available - amount,
                held: self.held + amount,
                disputed: self.disputed.insert(tx, amount),
                ..self
            }
        } else {
            self
        }
    }

    /// Why a resolve or a chargeback is passed over, if it is: the
    /// transaction is not under dispute.
    pub open spec fn settle_skip(self, tx: u32) -> Option<Skip> {
        if self.disputed.contains_key(tx) {
            None
        } else {
            Some(Skip::NotDisputed)
        }
    }

    /// The held amount becomes available again, and the dispute is solved.
    pub open spec fn resolve(self, tx: u32) -> Self {
        if self.settle_skip(tx) is None {
            let amount = self.disputed[tx];
            AccountState {
                available: self.available + amount,
                held: self.held - amount,
                disputed: self.disputed.remove(tx),
                solved: self.solved.insert(tx, amount),
                ..self
            }
        } else {
            self
        }
    }

    /// The held amount leaves the account, the dispute is solved, and the
    /// account is locked.
    pub open spec fn chargeback(self, tx: u32) -> Self {
        if self.settle_skip(tx) is None {
            let amount = self.disputed[tx];
            AccountState {
                total: self.total - amount,
                held: self.held - amount,
                locked: true,
                disputed: self.disputed.remove(tx),
                solved: self.solved.insert(tx, amount),
                ..self
            }
        } else {
            self
        }
    }

    /// Why the event at `index` is passed over, if it is.
    pub open spec fn step_skip(self, records: Seq<ClientRecord>, index: int) -> Option<Skip> {
        let record = records[index];
        if self.gated(record.action) {
            Some(Skip::Locked)
        } else {
            match record.action {
                Action::Deposit => self.deposit_skip(record.amount),
                Action::Withdrawal => self.withdrawal_skip(record.amount),
                Action::Dispute => self.dispute_skip(record.tx, records, index),
                Action::Resolve => self.settle_skip(record.tx),
                Action::Chargeback => self.settle_skip(record.tx),
                Action::Unknown => Some(Skip::UnknownAction),
            }
        }
    }

    /// The account after the event at `index` of `records`.
    pub open spec fn step(self, records: Seq<ClientRecord>, index: int) -> Self {
        let record = records[index];
        if self.gated(record.action) {
            self
        } else {
            match record.action {
                Action::Deposit => self.deposit(record.amount),
                Action::Withdrawal => self.withdrawal(record.amount),
                Action::Dispute => self.dispute(record.tx, records, index),
                Action::Resolve => self.resolve(record.tx),
                Action::Chargeback => self.chargeback(record.tx),
                Action::Unknown => self,
            }
        }
    }

    /// What an account that holds 64-bit balances makes of an event whose
    /// rule leads to `next`: the outcome, and the state it is left in.
    pub open spec fn commit(self, skip: Option<Skip>, next: Self) -> (Outcome, Self) {
        match skip {
            Some(reason) => (Outcome::Skipped(reason), self),
            None => if next.fits() {
                (Outcome::Applied, next)
            } else {
                (Outcome::Overflow, self)
            },
        }
    }

    /// What an account that holds 64-bit balances makes of the event at
    /// `index` of `records`.
    pub open spec fn apply(self, records: Seq<ClientRecord>, index: int) -> (Outcome, Self) {
        self.commit(self.step_skip(records, index), self.step(records, index))
    }

    /// The account after the first `n` events of `records`, in order.
    pub open spec fn run(self, records: Seq<ClientRecord>, n: nat) -> Self
        decreases n,
    {
        if n == 0 {
            self
        } else {
            self.run(records, (n - 1) as nat).step(records, n - 1)
        }
    }

    /// Every state on the way through the first `n` events fits 64-bit money.
    pub open spec fn run_fits(self, records: Seq<ClientRecord>, n: nat) -> bool {
        forall|k: nat| k <= n ==> (#[trigger] self.run(records, k)).fits()
    }

    /// The snapshot line of the account: client, available, held, total and
    /// the locked flag, separated by a comma and a space.
    pub open spec fn snapshot(self) -> Seq<char> {
        let flag = if self.locked {
            "true"@
        } else {
            "false"@
        };
        decimal_digits(self.client_id as nat) + ", "@ + format_spec(self.available) + ", "@
            + format_spec(self.held) + ", "@ + format_spec(self.total) + ", "@ + flag
    }
}

} // verus!
