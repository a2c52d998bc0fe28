//! What holds of every ledger, whatever events it is given.

use vstd::prelude::*;
use crate::input::{Action, ClientRecord};
use crate::state::{AccountState, Outcome, Skip};

verus! {

/// One event keeps an account valid: the total stays what is available plus
/// what is held, and no transaction is both under dispute and solved.
pub proof fn lemma_step_keeps_valid(s: AccountState, records: Seq<ClientRecord>, index: int)
    requires
        s.valid(),
    ensures
        s.step(records, index).valid(),
{
}

/// Any number of events keeps an account valid.
pub proof fn lemma_run_keeps_valid(s: AccountState, records: Seq<ClientRecord>, n: nat)
    requires
        s.valid(),
    ensures
        s.run(records, n).valid(),
    decreases n,
{
    if n > 0 {
        lemma_run_keeps_valid(s, records, (n - 1) as nat);
        lemma_step_keeps_valid(s.run(records, (n - 1) as nat), records, n - 1);
    }
}

/// At every point of every account's history, the total is what is
/// available plus what is held.
pub proof fn lemma_total_is_available_plus_held(
    client_id: u16,
    records: Seq<ClientRecord>,
    n: nat,
)
    ensures
        ({
            let account = AccountState::initial(client_id).run(records, n);
            account.total == account.available + account.held
        }),
{
    lemma_run_keeps_valid(AccountState::initial(client_id), records, n);
}

/// Resolving a transaction twice is resolving it once, and so for a
/// chargeback.
pub proof fn lemma_settling_twice_is_once(s: AccountState, tx: u32)
    ensures
        s.resolve(tx).resolve(tx) == s.resolve(tx),
        s.chargeback(tx).chargeback(tx) == s.chargeback(tx),
{
}

/// Where the events at `i` and `j` are the same resolve or the same
/// chargeback, taking in the second right after the first changes nothing.
pub proof fn lemma_repeated_event_is_passed_over(
    s: AccountState,
    records: Seq<ClientRecord>,
    i: int,
    j: int,
)
    requires
        records[i] == records[j],
        records[i].action == Action::Resolve || records[i].action == Action::Chargeback,
    ensures
        s.step(records, i).step(records, j) == s.step(records, i),
        s.step(records, i).step_skip(records, j) == Some(Skip::NotDisputed),
{
}

/// One event leaves a solved transaction solved, and does not put it under
/// dispute.
pub proof fn lemma_step_keeps_solved(
    s: AccountState,
    records: Seq<ClientRecord>,
    index: int,
    tx: u32,
)
    requires
        s.solved.contains_key(tx),
    ensures
        s.step(records, index).solved.contains_key(tx),
        s.step(records, index).disputed.contains_key(tx) ==> s.disputed.contains_key(tx),
{
}

/// Once a transaction is solved it stays solved and is never under dispute
/// again, whatever events follow.
pub proof fn lemma_solved_is_never_disputed_again(
    s: AccountState,
    records: Seq<ClientRecord>,
    n: nat,
    tx: u32,
)
    requires
        s.valid(),
        s.solved.contains_key(tx),
    ensures
        s.run(records, n).solved.contains_key(tx),
        !s.run(records, n).disputed.contains_key(tx),
    decreases n,
{
    if n > 0 {
        let before = s.run(records, (n - 1) as nat);
        lemma_solved_is_never_disputed_again(s, records, (n - 1) as nat, tx);
        lemma_step_keeps_solved(before, records, n - 1, tx);
    }
}

/// A locked account stays locked, whatever events follow.
pub proof fn lemma_lock_is_kept(s: AccountState, records: Seq<ClientRecord>, n: nat)
    requires
        s.locked,
    ensures
        s.run(records, n).locked,
    decreases n,
{
    if n > 0 {
        lemma_lock_is_kept(s, records, (n - 1) as nat);
    }
}

/// After a lock, a deposit or a withdrawal at any later point leaves the
/// account as it was: neither what is available nor the total changes.
pub proof fn lemma_locked_account_takes_no_funds(
    s: AccountState,
    records: Seq<ClientRecord>,
    k: nat,
)
    requires
        s.locked,
        records[k as int].action == Action::Deposit || records[k as int].action
            == Action::Withdrawal,
    ensures
        s.run(records, k + 1) == s.run(records, k),
        s.run(records, k + 1).available == s.run(records, k).available,
        s.run(records, k + 1).total == s.run(records, k).total,
{
    lemma_lock_is_kept(s, records, k);
}

/// An account in 64-bit money goes by the same rules: it takes the step of
/// the event, or stays as it is, and it stays as it is exactly where the
/// event is passed over or asks for a balance out of range.
pub proof fn lemma_apply_is_step_or_nothing(
    s: AccountState,
    records: Seq<ClientRecord>,
    index: int,
)
    ensures
        s.apply(records, index).0 == Outcome::Applied ==> s.apply(records, index).1 == s.step(
            records,
            index,
        ),
        s.apply(records, index).0 != Outcome::Applied ==> s.apply(records, index).1 == s,
        s.valid() ==> s.apply(records, index).1.valid(),
{
}

/// Taking in the same resolve or the same chargeback twice leaves an account
/// in 64-bit money as taking it in once does.
pub proof fn lemma_apply_twice_is_once(
    s: AccountState,
    records: Seq<ClientRecord>,
    i: int,
    j: int,
)
    requires
        records[i] == records[j],
        records[i].action == Action::Resolve || records[i].action == Action::Chargeback,
    ensures
        s.apply(records, i).1.apply(records, j).1 == s.apply(records, i).1,
        s.apply(records, i).0 == Outcome::Applied ==> s.apply(records, i).1.apply(records, j).0
            == Outcome::Skipped(Skip::NotDisputed),
{
}

/// No event puts a solved transaction of an account in 64-bit money under
/// dispute, or takes it out of the solved ones.
pub proof fn lemma_apply_keeps_solved(
    s: AccountState,
    records: Seq<ClientRecord>,
    index: int,
    tx: u32,
)
    requires
        s.solved.contains_key(tx),
    ensures
        s.apply(records, index).1.solved.contains_key(tx),
        s.apply(records, index).1.disputed.contains_key(tx) ==> s.disputed.contains_key(tx),
{
}

/// A locked account in 64-bit money stays locked, and passes over every
/// deposit and withdrawal.
pub proof fn lemma_apply_keeps_lock(s: AccountState, records: Seq<ClientRecord>, index: int)
    requires
        s.locked,
    ensures
        s.apply(records, index).1.locked,
        records[index].action == Action::Deposit || records[index].action == Action::Withdrawal
            ==> s.apply(records, index) == (Outcome::Skipped(Skip::Locked), s),
{
}

} // verus!
