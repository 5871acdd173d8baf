//! Every client's account, and the history that disputes refer to.
use std::collections::BTreeMap;
use std::collections::HashMap;

use vstd::prelude::*;
use vstd::std_specs::cmp::OrdSpec;
use vstd::std_specs::iter::IteratorSpec;

use crate::account::{
    fresh_account, lemma_results_are_decimal_results, Account, AccountError, AccountState,
};
use crate::decimal::{decimal_difference, decimal_sum};
use crate::types::{
    amount_valid, movement_amount, transaction_valid, ClientId, DisputeAction, Movement,
    Transaction, TransactionAction, TxId,
};

verus! {

#[derive(Clone, Copy, Debug, PartialEq, Eq, Structural)]
pub enum LedgerError {
    UnknownTransaction(TxId),
    ClientMismatch(TxId),
    AlreadyDisputed(TxId),
    NotDisputed(TxId),
    DuplicateTransaction(TxId),
    WithdrawalNotDisputable(TxId),
    Account(AccountError),
}

/// The historical record of a deposit or withdrawal, kept so that later
/// dispute/resolve/chargeback transactions can look up the amount, kind,
/// and client they refer to.
#[derive(Clone, Copy, Debug, PartialEq, Eq)]
pub struct TxRecord {
    pub client: ClientId,
    pub movement: Movement,
    pub disputed: bool,
}

/// The contents of a ledger: each client's account by client number, and
/// each recorded movement by transaction number.
#[verifier::ext_equal]
pub struct LedgerState {
    pub accounts: Map<u16, AccountState>,
    pub history: Map<u32, TxRecord>,
}

impl LedgerState {
    /// The ledger before any transaction.
    pub open spec fn empty() -> LedgerState {
        LedgerState { accounts: Map::empty(), history: Map::empty() }
    }

    /// Every balance and every recorded amount is valid.
    pub open spec fn valid(self) -> bool {
        &&& forall|c: u16| #[trigger] self.accounts.contains_key(c) ==> self.accounts[c].valid()
        &&& forall|k: u32| #[trigger]
            self.history.contains_key(k) ==> amount_valid(
                movement_amount(self.history[k].movement)@,
            )
    }

    /// The client's account, or a fresh one if the client has none yet.
    pub open spec fn account(self, client: u16) -> AccountState {
        if self.accounts.contains_key(client) {
            self.accounts[client]
        } else {
            fresh_account()
        }
    }

    /// The recorded deposit that a dispute action on `tx` by `client`
    /// refers to, or why there is none.
    pub open spec fn find_disputable(self, client: ClientId, tx: TxId) -> Result<
        TxRecord,
        LedgerError,
    > {
        if !self.history.contains_key(tx@) {
            Err(LedgerError::UnknownTransaction(tx))
        } else {
            let record = self.history[tx@];
            if record.client != client {
                Err(LedgerError::ClientMismatch(tx))
            } else if record.movement is Withdrawal {
                Err(LedgerError::WithdrawalNotDisputable(tx))
            } else {
                Ok(record)
            }
        }
    }

    /// A deposit or withdrawal: rejected if `tx` was seen before, else
    /// applied to the client's account and recorded, undisputed.
    pub open spec fn apply_movement(self, client: ClientId, tx: TxId, movement: Movement) -> (
        LedgerState,
        Result<(), LedgerError>,
    ) {
        if self.history.contains_key(tx@) {
            (self, Err(LedgerError::DuplicateTransaction(tx)))
        } else {
            let account = self.account(client@);
            let (next, outcome) = match movement {
                Movement::Deposit(amount) => account.deposit(amount@),
                Movement::Withdrawal(amount) => account.withdraw(amount@),
            };
            match outcome {
                Err(e) => (self, Err(LedgerError::Account(e))),
                Ok(_) => (
                    LedgerState {
                        accounts: self.accounts.insert(client@, next),
                        history: self.history.insert(
                            tx@,
                            TxRecord { client, movement, disputed: false },
                        ),
                    },
                    Ok(()),
                ),
            }
        }
    }

    /// Commits the account state and record of a successful dispute action.
    pub open spec fn commit(self, client: ClientId, tx: TxId, account: AccountState, record: TxRecord) -> LedgerState {
        LedgerState {
            accounts: self.accounts.insert(client@, account),
            history: self.history.insert(tx@, record),
        }
    }

    /// A dispute, resolve or chargeback of the deposit `tx`.
    pub open spec fn apply_dispute_action(
        self,
        client: ClientId,
        tx: TxId,
        action: DisputeAction,
    ) -> (LedgerState, Result<(), LedgerError>) {
        let account = self.account(client@);
        match self.find_disputable(client, tx) {
            Err(e) => (self, Err(e)),
            Ok(record) => {
                let amount = movement_amount(record.movement)@;
                match action {
                    DisputeAction::Dispute => if record.disputed {
                        (self, Err(LedgerError::AlreadyDisputed(tx)))
                    } else {
                        let (next, outcome) = account.hold(amount);
                        match outcome {
                            Err(e) => (self, Err(LedgerError::Account(e))),
                            Ok(_) => (
                                self.commit(client, tx, next, TxRecord { disputed: true, ..record }),
                                Ok(()),
                            ),
                        }
                    },
                    DisputeAction::Resolve => if !record.disputed {
                        (self, Err(LedgerError::NotDisputed(tx)))
                    } else {
                        let (next, outcome) = account.release(amount);
                        match outcome {
                            Err(e) => (self, Err(LedgerError::Account(e))),
                            Ok(_) => (
                                self.commit(client, tx, next, TxRecord { disputed: false, ..record }),
                                Ok(()),
                            ),
                        }
                    },
                    DisputeAction::Chargeback => if !record.disputed {
                        (self, Err(LedgerError::NotDisputed(tx)))
                    } else {
                        let (next, outcome) = account.chargeback(amount);
                        match outcome {
                            Err(e) => (self, Err(LedgerError::Account(e))),
                            Ok(_) => (
                                self.commit(client, tx, next, TxRecord { disputed: false, ..record }),
                                Ok(()),
                            ),
                        }
                    },
                }
            },
        }
    }

    /// Every sum and difference that `t` makes on its client's balances has
    /// a result in `rust_decimal` (possibly rounded).
    pub open spec fn sums_defined(self, t: Transaction) -> bool {
        let a = self.account(t.client@);
        match t.action {
            TransactionAction::Movement(Movement::Deposit(x)) => decimal_sum(a.available, x@) is Some,
            TransactionAction::Movement(Movement::Withdrawal(x)) => decimal_difference(
                a.available,
                x@,
            ) is Some,
            TransactionAction::DisputeAction(action) => self.history.contains_key(t.tx@) ==> {
                let x = movement_amount(self.history[t.tx@].movement)@;
                match action {
                    DisputeAction::Dispute => decimal_difference(a.available, x) is Some
                        && decimal_sum(a.held, x) is Some,
                    DisputeAction::Resolve => decimal_difference(a.held, x) is Some && decimal_sum(
                        a.available,
                        x,
                    ) is Some,
                    DisputeAction::Chargeback => decimal_difference(a.held, x) is Some,
                }
            },
        }
    }

    /// The ledger after `transaction`, and its outcome.
    pub open spec fn apply(self, transaction: Transaction) -> (LedgerState, Result<(), LedgerError>) {
        match transaction.action {
            TransactionAction::Movement(movement) => self.apply_movement(
                transaction.client,
                transaction.tx,
                movement,
            ),
            TransactionAction::DisputeAction(action) => self.apply_dispute_action(
                transaction.client,
                transaction.tx,
                action,
            ),
        }
    }
}

/// A rejected transaction leaves the ledger exactly as it was.
pub proof fn lemma_rejected_changes_nothing(s: LedgerState, t: Transaction)
    ensures
        s.apply(t).1 is Err ==> s.apply(t).0 == s,
{
}

/// A transaction is refused for overflow only where `rust_decimal` reports
/// overflow for one of its sums or differences.
pub proof fn lemma_overflow_only_from_decimal(s: LedgerState, t: Transaction)
    requires
        s.valid(),
        transaction_valid(t),
    ensures
        s.apply(t).1 == Err::<(), LedgerError>(LedgerError::Account(AccountError::Overflow))
            ==> !s.sums_defined(t),
{
    let a = s.account(t.client@);
    assert(a.valid()) by {
        assert(fresh_account().available.signed() == 0);
    }
    match t.action {
        TransactionAction::Movement(m) => {
            lemma_results_are_decimal_results(a, movement_amount(m)@);
        },
        TransactionAction::DisputeAction(_) => {
            if s.history.contains_key(t.tx@) {
                lemma_results_are_decimal_results(a, movement_amount(s.history[t.tx@].movement)@);
            }
        },
    }
}

/// Every transaction for a client whose account is locked is rejected.
pub proof fn lemma_locked_rejects_everything(s: LedgerState, t: Transaction)
    requires
        s.account(t.client@).locked,
    ensures
        s.apply(t).1 is Err,
{
}

/// Holds every client's account and enough transaction history to resolve
/// disputes. Built up by repeated calls to [`Ledger::apply`].
#[derive(Debug, PartialEq)]
pub struct Ledger {
    // BTreeMap rather than HashMap so that we have a deterministic order
    accounts: BTreeMap<u16, Account>,
    history: HashMap<u32, TxRecord>,
}

impl View for Ledger {
    type V = LedgerState;

    closed spec fn view(&self) -> LedgerState {
        LedgerState {
            accounts: self.accounts@.map_values(|a: Account| a@),
            history: self.history@,
        }
    }
}

impl Clone for Ledger {
    /// A ledger with the same accounts and history.
    fn clone(&self) -> (r: Ledger)
        ensures
            r@ == self@,
    {
        proof {
            use_type_invariant(self);
        }
        let r = Ledger { accounts: self.accounts.clone(), history: self.history.clone() };
        assert(r@.accounts =~= self@.accounts);
        r
    }
}

impl Default for Ledger {
    /// An empty ledger.
    fn default() -> (r: Ledger)
        ensures
            r@ == LedgerState::empty(),
    {
        let r = Ledger { accounts: BTreeMap::new(), history: HashMap::new() };
        assert(r@.accounts =~= Map::empty());
        r
    }
}

impl Ledger {
    /// Every balance and every recorded amount is valid.
    #[verifier::type_invariant]
    pub open spec fn is_valid(self) -> bool {
        self@.valid()
    }

    /// Applies a single transaction to the ledger, mutating account state
    /// in place. Deterministic and free of side effects beyond the
    /// ledger's own state: given the same starting state and transaction,
    /// it always produces the same result. A rejected transaction leaves
    /// the ledger untouched, and a locked account rejects everything.
    pub fn apply(&mut self, transaction: Transaction) -> (r: Result<(), LedgerError>)
        ensures
            (final(self)@, r) == old(self)@.apply(transaction),
            r is Err ==> final(self)@ == old(self)@,
            old(self)@.account(transaction.client@).locked ==> r is Err,
            r == Err::<(), LedgerError>(LedgerError::Account(AccountError::Overflow))
                ==> !old(self)@.sums_defined(transaction),
            transaction.action is Movement && old(self)@.history.contains_key(transaction.tx@)
                ==> r == Err::<(), LedgerError>(LedgerError::DuplicateTransaction(transaction.tx)),
            r is Ok && transaction.action is Movement ==> final(self)@.history.contains_key(
                transaction.tx@,
            ),
            forall|k: u32|
                old(self)@.history.contains_key(k) ==> #[trigger] final(self)@.history.contains_key(
                    k,
                ),
    {
        if let TransactionAction::Movement(movement) = transaction.action {
            let amount = movement.amount();
            proof {
                use_type_invariant(&amount);
            }
        }
        proof {
            use_type_invariant(&*self);
            lemma_overflow_only_from_decimal(self@, transaction);
            lemma_rejected_changes_nothing(self@, transaction);
            if self@.account(transaction.client@).locked {
                lemma_locked_rejects_everything(self@, transaction);
            }
        }
        let Transaction { client, tx, action } = transaction;
        match action {
            TransactionAction::Movement(movement) => self.apply_movement(client, tx, movement),
            TransactionAction::DisputeAction(action) => {
                self.apply_dispute_action(client, tx, action)
            },
        }
    }

    /// Every client's account, in increasing order of client number.
    pub fn accounts(&self) -> (r: Vec<(ClientId, Account)>)
        ensures
            r@.len() == self@.accounts.dom().len(),
            forall|i: int|
                0 <= i < r@.len() ==> self@.accounts.contains_key(#[trigger] r@[i].0@)
                    && self@.accounts[r@[i].0@] == r@[i].1@,
            forall|i: int, j: int| 0 <= i < j < r@.len() ==> r@[i].0@ < r@[j].0@,
            forall|c: u16|
                #[trigger] self@.accounts.contains_key(c) ==> exists|i: int|
                    0 <= i < r@.len() && r@[i].0@ == c,
    {
        let mut out: Vec<(ClientId, Account)> = Vec::new();
        let entries = self.accounts.iter();
        proof {
            assert(vstd::laws_cmp::obeys_cmp::<u16>());
            assert(vstd::std_specs::btree::key_obeys_cmp_spec::<u16>());
            let keys = entries.remaining().map_values(|kv: (&u16, &Account)| *kv.0);
            assert(vstd::std_specs::btree::increasing_seq(keys));
            assert forall|i: int, j: int|
                0 <= i < j < entries.remaining().len() implies *entries.remaining()[i].0
                < *entries.remaining()[j].0 by {
                assert(keys[i] == *entries.remaining()[i].0);
                assert(keys[j] == *entries.remaining()[j].0);
                assert(keys[i].cmp_spec(&keys[j]) is Less);
            }
        }
        for item in it: entries
            invariant
                out@.len() == it.index(),
                it.seq() == entries.remaining(),
                it.seq().len() == self.accounts@.dom().len(),
                forall|i: int, j: int|
                    0 <= i < j < it.seq().len() ==> *(#[trigger] it.seq()[i]).0 < *(
                    #[trigger] it.seq()[j]).0,
                forall|i: int|
                    0 <= i < it.index() ==> (#[trigger] out@[i]).0@ == *it.seq()[i].0 && out@[i].1
                        == *it.seq()[i].1,
        {
            let (k, a) = item;
            out.push((ClientId::new(*k), *a));
        }
        assert(self@.accounts.dom() =~= self.accounts@.dom());
        assert forall|c: u16| #[trigger] self@.accounts.contains_key(c) implies exists|i: int|
            0 <= i < out@.len() && out@[i].0@ == c by {
            let pair = (&c, &self.accounts@[c]);
            assert(entries.remaining().contains(pair));
            let i = choose|i: int| 0 <= i < entries.remaining().len() && entries.remaining()[i] == pair;
            assert(out@[i].0@ == c);
        }
        out
    }

    /// A deposit or withdrawal: self-contained, doesn't touch history
    /// beyond recording itself.
    fn apply_movement(&mut self, client: ClientId, tx: TxId, movement: Movement) -> (r: Result<
        (),
        LedgerError,
    >)
        ensures
            (final(self)@, r) == old(self)@.apply_movement(client, tx, movement),
    {
        if self.history.contains_key(&tx.into_inner()) {
            return Err(LedgerError::DuplicateTransaction(tx));
        }
        let mut account = self.account(client);
        let outcome = match movement {
            Movement::Deposit(amount) => account.deposit(amount),
            Movement::Withdrawal(amount) => account.withdraw(amount),
        };
        if let Err(e) = outcome {
            return Err(LedgerError::Account(e));
        }
        self.commit(client, account, tx, TxRecord { client, movement, disputed: false });
        Ok(())
    }

    /// A dispute, resolve, or chargeback: looks up the referenced
    /// movement, applies the corresponding `Account` reaction to a local
    /// copy, and only then commits both the account and the disputed
    /// flag — so a rejection at any step leaves the ledger untouched.
    fn apply_dispute_action(&mut self, client: ClientId, tx: TxId, action: DisputeAction) -> (r:
        Result<(), LedgerError>)
        ensures
            (final(self)@, r) == old(self)@.apply_dispute_action(client, tx, action),
    {
        let mut account = self.account(client);
        let mut record = match self.find_disputable(client, tx) {
            Ok(record) => record,
            Err(e) => {
                return Err(e);
            },
        };
        match action {
            DisputeAction::Dispute => {
                if record.disputed {
                    return Err(LedgerError::AlreadyDisputed(tx));
                }
                if let Err(e) = account.hold(record.movement.amount()) {
                    return Err(LedgerError::Account(e));
                }
                record.disputed = true;
            },
            DisputeAction::Resolve => {
                if !record.disputed {
                    return Err(LedgerError::NotDisputed(tx));
                }
                if let Err(e) = account.release(record.movement.amount()) {
                    return Err(LedgerError::Account(e));
                }
                record.disputed = false;
            },
            DisputeAction::Chargeback => {
                if !record.disputed {
                    return Err(LedgerError::NotDisputed(tx));
                }
                if let Err(e) = account.chargeback(record.movement.amount()) {
                    return Err(LedgerError::Account(e));
                }
                record.disputed = false;
            },
        }
        self.commit(client, account, tx, record);
        Ok(())
    }

    /// Writes the client's account and the transaction's record.
    fn commit(&mut self, client: ClientId, account: Account, tx: TxId, record: TxRecord)
        ensures
            final(self)@ == old(self)@.commit(client, tx, account@, record),
    {
        proof {
            use_type_invariant(&*self);
            use_type_invariant(&account);
        }
        let amount = record.movement.amount();
        proof {
            use_type_invariant(&amount);
        }
        let ghost before = self@;
        let mut accounts: BTreeMap<u16, Account> = BTreeMap::new();
        std::mem::swap(&mut accounts, &mut self.accounts);
        accounts.insert(client.into_inner(), account);
        let mut history: HashMap<u32, TxRecord> = HashMap::new();
        std::mem::swap(&mut history, &mut self.history);
        history.insert(tx.into_inner(), record);
        proof {
            let after = LedgerState {
                accounts: accounts@.map_values(|a: Account| a@),
                history: history@,
            };
            assert(after.accounts =~= before.accounts.insert(client@, account@));
            assert(after == before.commit(client, tx, account@, record));
            assert(after.valid());
        }
        self.accounts = accounts;
        self.history = history;
    }

    /// The current state of a client's account, or a fresh default one if
    /// the client has no account yet. A plain read: does not touch `self`.
    fn account(&self, client: ClientId) -> (r: Account)
        ensures
            r@ == self@.account(client@),
    {
        match self.accounts.get(&client.into_inner()) {
            Some(account) => *account,
            None => Account::default(),
        }
    }

    /// Looks up a transaction eligible for dispute/resolve/chargeback,
    /// rejecting unknown transactions, transactions belonging to a
    /// different client, and withdrawals (which can't be disputed — see
    /// [`crate::types::Movement`]). Returns a copy of the record, which the
    /// caller writes back once its own fallible steps succeed.
    fn find_disputable(&self, client: ClientId, tx: TxId) -> (r: Result<TxRecord, LedgerError>)
        ensures
            r == self@.find_disputable(client, tx),
    {
        let record = match self.history.get(&tx.into_inner()) {
            Some(record) => *record,
            None => {
                return Err(LedgerError::UnknownTransaction(tx));
            },
        };
        if record.client != client {
            return Err(LedgerError::ClientMismatch(tx));
        }
        if let Movement::Withdrawal(_) = record.movement {
            return Err(LedgerError::WithdrawalNotDisputable(tx));
        }
        Ok(record)
    }
}

} // verus!
