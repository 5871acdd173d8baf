//! A single client's account and the operations on it.
use vstd::prelude::*;

use crate::decimal::{decimal_difference, decimal_sum, Decimal};
use crate::types::{
    balance_difference, balance_sum, balance_valid, lemma_balance_results_are_decimal_results,
    Amount, Balance,
};

verus! {

#[derive(Clone, Copy, Debug, PartialEq, Eq, Structural)]
pub enum AccountError {
    Locked,
    InsufficientFunds,
    Overflow,
}

/// The contents of an account: available funds, held funds and the lock.
pub struct AccountState {
    pub available: Decimal,
    pub held: Decimal,
    pub locked: bool,
}

/// A fresh account: nothing available, nothing held, unlocked.
pub open spec fn fresh_account() -> AccountState {
    AccountState {
        available: Decimal { negative: false, scale: 0, hi: 0, mid: 0, lo: 0 },
        held: Decimal { negative: false, scale: 0, hi: 0, mid: 0, lo: 0 },
        locked: false,
    }
}

impl AccountState {
    /// Both balances are valid balances.
    pub open spec fn valid(self) -> bool {
        balance_valid(self.available) && balance_valid(self.held)
    }

    /// `available + held`, or `Overflow`.
    pub open spec fn total(self) -> Result<Decimal, AccountError> {
        match balance_sum(self.available, self.held) {
            Some(t) => Ok(t),
            None => Err(AccountError::Overflow),
        }
    }

    /// The state after `deposit(amount)` and its outcome.
    pub open spec fn deposit(self, amount: Decimal) -> (AccountState, Result<(), AccountError>) {
        if self.locked {
            (self, Err(AccountError::Locked))
        } else {
            match balance_sum(self.available, amount) {
                Some(a) => (AccountState { available: a, ..self }, Ok(())),
                None => (self, Err(AccountError::Overflow)),
            }
        }
    }

    /// The state after `withdraw(amount)` and its outcome.
    pub open spec fn withdraw(self, amount: Decimal) -> (AccountState, Result<(), AccountError>) {
        if self.locked {
            (self, Err(AccountError::Locked))
        } else if !(self.available.value() >= amount.value()) {
            (self, Err(AccountError::InsufficientFunds))
        } else {
            match balance_difference(self.available, amount) {
                Some(a) => (AccountState { available: a, ..self }, Ok(())),
                None => (self, Err(AccountError::Overflow)),
            }
        }
    }

    /// The state after `hold(amount)` and its outcome. When the second step
    /// overflows, the first has already been written.
    pub open spec fn hold(self, amount: Decimal) -> (AccountState, Result<(), AccountError>) {
        if self.locked {
            (self, Err(AccountError::Locked))
        } else {
            match balance_difference(self.available, amount) {
                None => (self, Err(AccountError::Overflow)),
                Some(a) => match balance_sum(self.held, amount) {
                    None => (AccountState { available: a, ..self }, Err(AccountError::Overflow)),
                    Some(h) => (AccountState { available: a, held: h, ..self }, Ok(())),
                },
            }
        }
    }

    /// The state after `release(amount)` and its outcome. When the second
    /// step overflows, the first has already been written.
    pub open spec fn release(self, amount: Decimal) -> (AccountState, Result<(), AccountError>) {
        if self.locked {
            (self, Err(AccountError::Locked))
        } else {
            match balance_difference(self.held, amount) {
                None => (self, Err(AccountError::Overflow)),
                Some(h) => match balance_sum(self.available, amount) {
                    None => (AccountState { held: h, ..self }, Err(AccountError::Overflow)),
                    Some(a) => (AccountState { available: a, held: h, ..self }, Ok(())),
                },
            }
        }
    }

    /// The state after `chargeback(amount)` and its outcome.
    pub open spec fn chargeback(self, amount: Decimal) -> (
        AccountState,
        Result<(), AccountError>,
    ) {
        if self.locked {
            (self, Err(AccountError::Locked))
        } else {
            match balance_difference(self.held, amount) {
                None => (self, Err(AccountError::Overflow)),
                Some(h) => (AccountState { held: h, locked: true, ..self }, Ok(())),
            }
        }
    }
}

/// On valid balances, every operation's sums and differences fail only
/// where `rust_decimal` reports overflow.
pub proof fn lemma_results_are_decimal_results(a: AccountState, x: Decimal)
    requires
        a.valid(),
        balance_valid(x),
    ensures
        balance_sum(a.available, x) == decimal_sum(a.available, x),
        balance_difference(a.available, x) == decimal_difference(a.available, x),
        balance_sum(a.held, x) == decimal_sum(a.held, x),
        balance_difference(a.held, x) == decimal_difference(a.held, x),
        balance_sum(a.available, a.held) == decimal_sum(a.available, a.held),
{
    lemma_balance_results_are_decimal_results(a.available, x);
    lemma_balance_results_are_decimal_results(a.held, x);
    lemma_balance_results_are_decimal_results(a.available, a.held);
}

/// A single client's asset account: available funds, funds held for
/// dispute, and whether the account has been frozen by a chargeback.
///
/// `total` is not stored; it is always derived as `available + held`.
#[derive(Clone, Copy, Debug, PartialEq, Eq)]
pub struct Account {
    available: Balance,
    held: Balance,
    locked: bool,
}

impl View for Account {
    type V = AccountState;

    closed spec fn view(&self) -> AccountState {
        AccountState { available: self.available@, held: self.held@, locked: self.locked }
    }
}

impl Default for Account {
    /// A fresh account.
    fn default() -> (r: Account)
        ensures
            r@ == fresh_account(),
    {
        Account { available: Balance::default(), held: Balance::default(), locked: false }
    }
}

impl Account {
    #[verifier::type_invariant]
    pub open spec fn is_valid(self) -> bool {
        self@.valid()
    }

    pub fn available(&self) -> (r: Balance)
        ensures
            r@ == self@.available,
    {
        self.available
    }

    pub fn held(&self) -> (r: Balance)
        ensures
            r@ == self@.held,
    {
        self.held
    }

    pub fn locked(&self) -> (r: bool)
        ensures
            r == self@.locked,
    {
        self.locked
    }

    pub fn total(&self) -> (r: Result<Balance, AccountError>)
        ensures
            match self@.total() {
                Ok(t) => r matches Ok(b) && b@ == t,
                Err(e) => r == Err::<Balance, AccountError>(e),
            },
            r is Ok <==> decimal_sum(self@.available, self@.held) is Some,
    {
        proof {
            use_type_invariant(self);
            lemma_results_are_decimal_results(self@, self@.held);
        }
        match self.available.checked_add(self.held.into_inner()) {
            Some(t) => Ok(t),
            None => Err(AccountError::Overflow),
        }
    }

    /// Credits `amount` to available funds.
    pub fn deposit(&mut self, amount: Amount) -> (r: Result<(), AccountError>)
        ensures
            (final(self)@, r) == old(self)@.deposit(amount@),
            r is Ok <==> (!old(self)@.locked && decimal_sum(old(self)@.available, amount@) is Some),
            old(self)@.locked ==> r == Err::<(), AccountError>(AccountError::Locked),
            r is Err ==> final(self)@ == old(self)@,
            r is Err && !old(self)@.locked ==> r == Err::<(), AccountError>(AccountError::Overflow),
            r is Ok ==> Some(final(self)@.available) == decimal_sum(old(self)@.available, amount@)
                && final(self)@.held == old(self)@.held && !final(self)@.locked,
    {
        proof {
            use_type_invariant(&*self);
            use_type_invariant(&amount);
            lemma_results_are_decimal_results(self@, amount@);
        }
        if let Err(e) = self.ensure_unlocked() {
            return Err(e);
        }
        match self.available.checked_add(amount.into_inner()) {
            Some(a) => {
                proof {
                    use_type_invariant(&a);
                }
                self.available = a;
                Ok(())
            },
            None => Err(AccountError::Overflow),
        }
    }

    /// Debits `amount` from available funds. Fails if the account doesn't
    /// have enough available funds to cover it.
    pub fn withdraw(&mut self, amount: Amount) -> (r: Result<(), AccountError>)
        ensures
            (final(self)@, r) == old(self)@.withdraw(amount@),
            r is Ok <==> (!old(self)@.locked && old(self)@.available.value() >= amount@.value()
                && decimal_difference(old(self)@.available, amount@) is Some),
            old(self)@.locked ==> r == Err::<(), AccountError>(AccountError::Locked),
            !old(self)@.locked && old(self)@.available.value() < amount@.value() ==> r == Err::<
                (),
                AccountError,
            >(AccountError::InsufficientFunds),
            r is Err ==> final(self)@ == old(self)@,
            r is Ok ==> Some(final(self)@.available) == decimal_difference(
                old(self)@.available,
                amount@,
            ) && final(self)@.held == old(self)@.held && !final(self)@.locked,
    {
        proof {
            use_type_invariant(&*self);
            use_type_invariant(&amount);
            lemma_results_are_decimal_results(self@, amount@);
        }
        if let Err(e) = self.ensure_unlocked() {
            return Err(e);
        }
        if !self.available.covers(amount.into_inner()) {
            return Err(AccountError::InsufficientFunds);
        }
        match self.available.checked_sub(amount.into_inner()) {
            Some(a) => {
                proof {
                    use_type_invariant(&a);
                }
                self.available = a;
                Ok(())
            },
            None => Err(AccountError::Overflow),
        }
    }

    /// Moves `amount` from available to held, as a dispute is opened.
    /// Available may go negative if the disputed funds already moved
    /// elsewhere (e.g. a deposit disputed after being withdrawn against).
    pub fn hold(&mut self, amount: Amount) -> (r: Result<(), AccountError>)
        ensures
            (final(self)@, r) == old(self)@.hold(amount@),
            r is Ok <==> (!old(self)@.locked && decimal_difference(old(self)@.available, amount@) is Some
                && decimal_sum(old(self)@.held, amount@) is Some),
            old(self)@.locked ==> r == Err::<(), AccountError>(AccountError::Locked)
                && final(self)@ == old(self)@,
            r is Err && !old(self)@.locked ==> r == Err::<(), AccountError>(AccountError::Overflow),
            r is Ok ==> Some(final(self)@.available) == decimal_difference(
                old(self)@.available,
                amount@,
            ) && Some(final(self)@.held) == decimal_sum(old(self)@.held, amount@)
                && !final(self)@.locked,
    {
        proof {
            use_type_invariant(&*self);
            use_type_invariant(&amount);
            lemma_results_are_decimal_results(self@, amount@);
        }
        if let Err(e) = self.ensure_unlocked() {
            return Err(e);
        }
        match self.available.checked_sub(amount.into_inner()) {
            Some(a) => {
                proof {
                    use_type_invariant(&a);
                }
                self.available = a;
            },
            None => {
                return Err(AccountError::Overflow);
            },
        }
        match self.held.checked_add(amount.into_inner()) {
            Some(h) => {
                proof {
                    use_type_invariant(&h);
                }
                self.held = h;
                Ok(())
            },
            None => Err(AccountError::Overflow),
        }
    }

    /// Moves `amount` from held back to available, as a dispute is
    /// resolved in the client's favor.
    pub fn release(&mut self, amount: Amount) -> (r: Result<(), AccountError>)
        ensures
            (final(self)@, r) == old(self)@.release(amount@),
            r is Ok <==> (!old(self)@.locked && decimal_difference(old(self)@.held, amount@) is Some
                && decimal_sum(old(self)@.available, amount@) is Some),
            old(self)@.locked ==> r == Err::<(), AccountError>(AccountError::Locked)
                && final(self)@ == old(self)@,
            r is Err && !old(self)@.locked ==> r == Err::<(), AccountError>(AccountError::Overflow),
            r is Ok ==> Some(final(self)@.held) == decimal_difference(old(self)@.held, amount@)
                && Some(final(self)@.available) == decimal_sum(old(self)@.available, amount@)
                && !final(self)@.locked,
    {
        proof {
            use_type_invariant(&*self);
            use_type_invariant(&amount);
            lemma_results_are_decimal_results(self@, amount@);
        }
        if let Err(e) = self.ensure_unlocked() {
            return Err(e);
        }
        match self.held.checked_sub(amount.into_inner()) {
            Some(h) => {
                proof {
                    use_type_invariant(&h);
                }
                self.held = h;
            },
            None => {
                return Err(AccountError::Overflow);
            },
        }
        match self.available.checked_add(amount.into_inner()) {
            Some(a) => {
                proof {
                    use_type_invariant(&a);
                }
                self.available = a;
                Ok(())
            },
            None => Err(AccountError::Overflow),
        }
    }

    /// Withdraws `amount` from held funds and freezes the account, as a
    /// dispute is resolved against the client.
    pub fn chargeback(&mut self, amount: Amount) -> (r: Result<(), AccountError>)
        ensures
            (final(self)@, r) == old(self)@.chargeback(amount@),
            r is Ok <==> (!old(self)@.locked && decimal_difference(old(self)@.held, amount@) is Some),
            old(self)@.locked ==> r == Err::<(), AccountError>(AccountError::Locked),
            r is Err ==> final(self)@ == old(self)@,
            r is Err && !old(self)@.locked ==> r == Err::<(), AccountError>(AccountError::Overflow),
            r is Ok ==> Some(final(self)@.held) == decimal_difference(old(self)@.held, amount@)
                && final(self)@.available == old(self)@.available && final(self)@.locked,
    {
        proof {
            use_type_invariant(&*self);
            use_type_invariant(&amount);
            lemma_results_are_decimal_results(self@, amount@);
        }
        if let Err(e) = self.ensure_unlocked() {
            return Err(e);
        }
        match self.held.checked_sub(amount.into_inner()) {
            Some(h) => {
                proof {
                    use_type_invariant(&h);
                }
                self.held = h;
            },
            None => {
                return Err(AccountError::Overflow);
            },
        }
        self.locked = true;
        Ok(())
    }

    fn ensure_unlocked(&self) -> (r: Result<(), AccountError>)
        ensures
            r == (if self@.locked {
                Err(AccountError::Locked)
            } else {
                Ok::<(), AccountError>(())
            }),
    {
        if self.locked {
            return Err(AccountError::Locked);
        }
        Ok(())
    }
}

} // verus!
