//! Identifiers, amounts, balances and transactions.
use vstd::prelude::*;

use crate::decimal::{
    add_is_exact, checked_add, checked_sub, decimal_difference, decimal_sum, greater_or_equal,
    lemma_difference_shape, lemma_exact_difference, lemma_exact_sum, lemma_pow10_positive,
    lemma_rescale, lemma_sum_shape, pow10,
    sub_is_exact, Decimal,
};

verus! {

/// Maximum number of digits past the decimal point supported for amounts.
pub const AMOUNT_DECIMAL_PLACES: u32 = 4;

/// The value of a decimal counted in ten-thousandths, the finest unit an
/// amount or a balance can hold.
pub open spec fn units(d: Decimal) -> int {
    d.at_scale(4)
}

/// What `Amount` accepts: a non-negative decimal with at most four digits
/// past the point.
pub open spec fn amount_valid(d: Decimal) -> bool {
    &&& d.wf()
    &&& !d.negative
    &&& d.scale <= AMOUNT_DECIMAL_PLACES
}

/// What `Balance` accepts: a decimal of either sign with at most four digits
/// past the point.
pub open spec fn balance_valid(d: Decimal) -> bool {
    d.scale <= AMOUNT_DECIMAL_PLACES
}

/// The balance that `Balance::checked_add` produces, if any.
pub open spec fn balance_sum(a: Decimal, b: Decimal) -> Option<Decimal> {
    match decimal_sum(a, b) {
        Some(d) => if balance_valid(d) {
            Some(d)
        } else {
            None
        },
        None => None,
    }
}

/// The balance that `Balance::checked_sub` produces, if any.
pub open spec fn balance_difference(a: Decimal, b: Decimal) -> Option<Decimal> {
    match decimal_difference(a, b) {
        Some(d) => if balance_valid(d) {
            Some(d)
        } else {
            None
        },
        None => None,
    }
}

/// A client's identifier.
#[derive(Clone, Copy, Debug, PartialEq, Eq, PartialOrd, Ord, Hash, Structural)]
pub struct ClientId(u16);

impl View for ClientId {
    type V = u16;

    closed spec fn view(&self) -> u16 {
        self.0
    }
}

impl ClientId {
    pub fn new(value: u16) -> (r: ClientId)
        ensures
            r@ == value,
    {
        ClientId(value)
    }

    pub fn into_inner(self) -> (r: u16)
        ensures
            r == self@,
    {
        self.0
    }
}

/// A transaction's identifier.
#[derive(Clone, Copy, Debug, PartialEq, Eq, PartialOrd, Ord, Hash, Structural)]
pub struct TxId(u32);

impl View for TxId {
    type V = u32;

    closed spec fn view(&self) -> u32 {
        self.0
    }
}

impl TxId {
    pub fn new(value: u32) -> (r: TxId)
        ensures
            r@ == value,
    {
        TxId(value)
    }

    pub fn into_inner(self) -> (r: u32)
        ensures
            r == self@,
    {
        self.0
    }
}

/// Why a decimal was refused as an `Amount`.
#[derive(Clone, Copy, Debug, PartialEq, Eq, Structural)]
pub enum AmountError {
    PredicateViolated,
}

/// A transaction's face value: non-negative, at most four decimal places.
#[derive(Clone, Copy, Debug, PartialEq, Eq)]
pub struct Amount(Decimal);

impl View for Amount {
    type V = Decimal;

    closed spec fn view(&self) -> Decimal {
        self.0
    }
}

impl Amount {
    #[verifier::type_invariant]
    pub open spec fn is_valid(self) -> bool {
        amount_valid(self@)
    }

    /// Accepts `value` exactly when it is non-negative with at most four
    /// decimal places.
    pub fn try_new(value: Decimal) -> (r: Result<Amount, AmountError>)
        ensures
            amount_valid(value) ==> (r matches Ok(a) && a@ == value),
            !amount_valid(value) ==> r == Err::<Amount, AmountError>(
                AmountError::PredicateViolated,
            ),
    {
        if !value.negative && value.scale <= AMOUNT_DECIMAL_PLACES {
            Ok(Amount(value))
        } else {
            Err(AmountError::PredicateViolated)
        }
    }

    pub fn into_inner(self) -> (r: Decimal)
        ensures
            r == self@,
            amount_valid(r),
    {
        proof {
            use_type_invariant(&self);
        }
        self.0
    }
}

/// The amount that holds `d`.
pub closed spec fn amount_from(d: Decimal) -> Amount {
    Amount(d)
}

/// An amount is the one that holds its value.
pub proof fn lemma_amount_from(a: Amount, d: Decimal)
    ensures
        amount_from(d)@ == d,
        (a == amount_from(d)) == (a@ == d),
{
}

impl Default for Amount {
    /// Zero.
    fn default() -> (r: Amount)
        ensures
            r@ == (Decimal { negative: false, scale: 0, hi: 0, mid: 0, lo: 0 }),
    {
        Amount(Decimal::zero())
    }
}

/// Why a decimal was refused as a `Balance`.
#[derive(Clone, Copy, Debug, PartialEq, Eq, Structural)]
pub enum BalanceError {
    PredicateViolated,
}

/// A running account balance (available, held, or total funds).
///
/// Unlike [`Amount`], a `Balance` may go negative: disputing a transaction
/// whose funds already moved (e.g. a deposit disputed after the client
/// withdrew against it) holds funds that are no longer actually available,
/// which can drive `available` below zero until the dispute is resolved.
#[derive(Clone, Copy, Debug, PartialEq, Eq)]
pub struct Balance(Decimal);

impl View for Balance {
    type V = Decimal;

    closed spec fn view(&self) -> Decimal {
        self.0
    }
}

impl Balance {
    #[verifier::type_invariant]
    pub open spec fn is_valid(self) -> bool {
        balance_valid(self@)
    }

    /// Accepts `value` exactly when it has at most four decimal places.
    pub fn try_new(value: Decimal) -> (r: Result<Balance, BalanceError>)
        ensures
            balance_valid(value) ==> (r matches Ok(b) && b@ == value),
            !balance_valid(value) ==> r == Err::<Balance, BalanceError>(
                BalanceError::PredicateViolated,
            ),
    {
        if value.scale <= AMOUNT_DECIMAL_PLACES {
            Ok(Balance(value))
        } else {
            Err(BalanceError::PredicateViolated)
        }
    }

    pub fn into_inner(self) -> (r: Decimal)
        ensures
            r == self@,
            balance_valid(r),
    {
        proof {
            use_type_invariant(&self);
        }
        self.0
    }

    /// Adds an amount (or another balance) to this balance. Returns `None`
    /// on overflow.
    pub fn checked_add(self, other: Decimal) -> (r: Option<Balance>)
        requires
            other.scale <= 28,
        ensures
            match balance_sum(self@, other) {
                Some(d) => r matches Some(b) && b@ == d,
                None => r is None,
            },
            other.scale <= AMOUNT_DECIMAL_PLACES ==> (r is Some <==> decimal_sum(
                self@,
                other,
            ) is Some),
    {
        proof {
            use_type_invariant(&self);
            if other.scale <= AMOUNT_DECIMAL_PLACES {
                lemma_balance_results_are_decimal_results(self@, other);
            }
        }
        match checked_add(self.0, other) {
            Some(sum) => match Balance::try_new(sum) {
                Ok(b) => Some(b),
                Err(_) => None,
            },
            None => None,
        }
    }

    /// Subtracts an amount (or another balance) from this balance. Returns
    /// `None` on underflow. Note this can succeed with a negative result,
    /// unlike an amount.
    pub fn checked_sub(self, other: Decimal) -> (r: Option<Balance>)
        requires
            other.scale <= 28,
        ensures
            match balance_difference(self@, other) {
                Some(d) => r matches Some(b) && b@ == d,
                None => r is None,
            },
            other.scale <= AMOUNT_DECIMAL_PLACES ==> (r is Some <==> decimal_difference(
                self@,
                other,
            ) is Some),
    {
        proof {
            use_type_invariant(&self);
            if other.scale <= AMOUNT_DECIMAL_PLACES {
                lemma_balance_results_are_decimal_results(self@, other);
            }
        }
        match checked_sub(self.0, other) {
            Some(diff) => match Balance::try_new(diff) {
                Ok(b) => Some(b),
                Err(_) => None,
            },
            None => None,
        }
    }

    /// Whether this balance is at least `other` (i.e. subtracting `other`
    /// would not make it negative).
    pub fn covers(self, other: Decimal) -> (r: bool)
        requires
            other.scale <= 28,
        ensures
            r == (self@.value() >= other.value()),
    {
        proof {
            use_type_invariant(&self);
        }
        greater_or_equal(self.0, other)
    }
}

/// The balance that holds `d`.
pub closed spec fn balance_from(d: Decimal) -> Balance {
    Balance(d)
}

/// A balance is the one that holds its value.
pub proof fn lemma_balance_from(b: Balance, d: Decimal)
    ensures
        balance_from(d)@ == d,
        (b == balance_from(d)) == (b@ == d),
{
}

impl Default for Balance {
    /// Zero.
    fn default() -> (r: Balance)
        ensures
            r@ == (Decimal { negative: false, scale: 0, hi: 0, mid: 0, lo: 0 }),
    {
        Balance(Decimal::zero())
    }
}

/// A credit or debit to the client's account.
#[derive(Clone, Copy, Debug, PartialEq, Eq)]
pub enum Movement {
    /// Increases both available and total funds.
    Deposit(Amount),
    /// Decreases both available and total funds. Must fail (be rejected by
    /// the ledger) if available funds are insufficient.
    Withdrawal(Amount),
}

/// The amount that a movement moves.
pub open spec fn movement_amount(m: Movement) -> Amount {
    match m {
        Movement::Deposit(amount) => amount,
        Movement::Withdrawal(amount) => amount,
    }
}

impl Movement {
    pub fn amount(self) -> (r: Amount)
        ensures
            r == movement_amount(self),
    {
        match self {
            Movement::Deposit(amount) => amount,
            Movement::Withdrawal(amount) => amount,
        }
    }
}

/// A claim about a previously recorded [`Movement`], identified by the tx
/// ID it refers to (carried on the enclosing [`Transaction`], not here).
#[derive(Clone, Copy, Debug, PartialEq, Eq, Structural)]
pub enum DisputeAction {
    /// The referenced transaction was erroneous. Moves its amount from
    /// available to held funds; total funds are unaffected.
    Dispute,
    /// Reverses a prior dispute: moves the amount back from held to
    /// available funds; total funds are unaffected.
    Resolve,
    /// The final outcome of a dispute, resolved against the client:
    /// withdraws the held amount, decreasing both held and total funds,
    /// and freezes the client's account.
    Chargeback,
}

/// The two families of transaction: money moving in or out of an account,
/// versus a claim about a movement that already happened.
#[derive(Clone, Copy, Debug, PartialEq, Eq)]
pub enum TransactionAction {
    Movement(Movement),
    DisputeAction(DisputeAction),
}

/// A transaction as it appears in the input: which client and tx ID it
/// belongs to, and what it does.
#[derive(Clone, Copy, Debug, PartialEq, Eq)]
pub struct Transaction {
    pub client: ClientId,
    pub tx: TxId,
    pub action: TransactionAction,
}

/// Every amount that the transaction carries is a valid amount.
pub open spec fn transaction_valid(t: Transaction) -> bool {
    match t.action {
        TransactionAction::Movement(m) => amount_valid(movement_amount(m)@),
        TransactionAction::DisputeAction(_) => true,
    }
}

/// For balances, `Balance::checked_add` and `Balance::checked_sub` fail only
/// where `rust_decimal` reports overflow: every result it gives has at most
/// four decimal places.
pub proof fn lemma_balance_results_are_decimal_results(a: Decimal, b: Decimal)
    requires
        balance_valid(a),
        balance_valid(b),
    ensures
        balance_sum(a, b) == decimal_sum(a, b),
        balance_difference(a, b) == decimal_difference(a, b),
{
    lemma_sum_shape(a, b);
    lemma_difference_shape(a, b);
}

/// A sum of balances computed without rounding is the exact sum.
pub proof fn lemma_balance_sum_exact(a: Decimal, b: Decimal)
    requires
        balance_valid(a),
        balance_valid(b),
        add_is_exact(a, b),
    ensures
        balance_sum(a, b) matches Some(r) && balance_valid(r) && units(r) == units(a) + units(b),
{
    lemma_exact_sum(a, b, 4);
}

/// A difference of balances computed without rounding is the exact
/// difference.
pub proof fn lemma_balance_difference_exact(a: Decimal, b: Decimal)
    requires
        balance_valid(a),
        balance_valid(b),
        sub_is_exact(a, b),
    ensures
        balance_difference(a, b) matches Some(r) && balance_valid(r) && units(r) == units(a)
            - units(b),
{
    lemma_exact_difference(a, b, 4);
}

/// For balances, comparing exact values is comparing ten-thousandths.
pub proof fn lemma_value_order(a: Decimal, b: Decimal)
    requires
        balance_valid(a),
        balance_valid(b),
    ensures
        (a.value() >= b.value()) == (units(a) >= units(b)),
        (a.value() == b.value()) == (units(a) == units(b)),
{
    lemma_rescale(a, 4, 28);
    lemma_rescale(b, 4, 28);
    let k = pow10(24);
    lemma_pow10_positive(24);
    let x = units(a);
    let y = units(b);
    assert((x * k >= y * k) == (x >= y)) by (nonlinear_arith)
        requires
            k >= 1,
    ;
    assert((x * k == y * k) == (x == y)) by (nonlinear_arith)
        requires
            k >= 1,
    ;
}

/// An amount is never below zero.
pub proof fn lemma_amount_non_negative(d: Decimal)
    requires
        amount_valid(d),
    ensures
        units(d) >= 0,
{
    lemma_pow10_positive((4 - d.scale) as nat);
    let m = d.magnitude();
    let k = pow10((4 - d.scale) as nat);
    assert(m >= 0);
    assert(m * k >= 0) by (nonlinear_arith)
        requires
            m >= 0,
            k >= 1,
    ;
}

} // verus!
