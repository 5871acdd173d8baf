//! Turning an input row into a transaction.
use vstd::prelude::*;

use crate::decimal::Decimal;
use crate::types::{
    amount_from, amount_valid, lemma_amount_from, Amount, AmountError, ClientId, DisputeAction,
    Movement, Transaction, TransactionAction, TxId,
};

verus! {

/// Why a row could not become a transaction.
#[derive(Clone, Copy, Debug, PartialEq, Eq)]
pub enum ReadError {
    /// A deposit or withdrawal row has an empty amount field.
    MissingAmount(TxId, &'static str),
    /// The amount is negative or has more than four decimal places.
    InvalidAmount(TxId, AmountError),
}

/// The `type` column.
#[derive(Clone, Copy, Debug, PartialEq, Eq, Structural)]
pub enum RowKind {
    Deposit,
    Withdrawal,
    Dispute,
    Resolve,
    Chargeback,
}

/// The file's columns, as read before being validated and converted into
/// a [`Transaction`]. `amount` is only present for deposits and
/// withdrawals.
#[derive(Clone, Copy, Debug, PartialEq, Eq)]
pub struct Row {
    pub kind: RowKind,
    pub client: ClientId,
    pub tx: TxId,
    pub amount: Option<Decimal>,
}

/// The row's amount, which a `kind` row must carry and which must be a
/// valid amount.
pub open spec fn row_amount(row: Row, kind: &'static str) -> Result<Amount, ReadError> {
    match row.amount {
        None => Err(ReadError::MissingAmount(row.tx, kind)),
        Some(d) => if amount_valid(d) {
            Ok(amount_from(d))
        } else {
            Err(ReadError::InvalidAmount(row.tx, AmountError::PredicateViolated))
        },
    }
}

/// The transaction that a row describes, or why there is none.
pub open spec fn transaction_from_row(row: Row) -> Result<Transaction, ReadError> {
    let action = match row.kind {
        RowKind::Deposit => match row_amount(row, "deposit") {
            Ok(a) => Ok(TransactionAction::Movement(Movement::Deposit(a))),
            Err(e) => Err(e),
        },
        RowKind::Withdrawal => match row_amount(row, "withdrawal") {
            Ok(a) => Ok(TransactionAction::Movement(Movement::Withdrawal(a))),
            Err(e) => Err(e),
        },
        RowKind::Dispute => Ok(TransactionAction::DisputeAction(DisputeAction::Dispute)),
        RowKind::Resolve => Ok(TransactionAction::DisputeAction(DisputeAction::Resolve)),
        RowKind::Chargeback => Ok(TransactionAction::DisputeAction(DisputeAction::Chargeback)),
    };
    match action {
        Ok(action) => Ok(Transaction { client: row.client, tx: row.tx, action }),
        Err(e) => Err(e),
    }
}

/// The amount of a deposit or withdrawal row.
fn amount_for(row: &Row, kind: &'static str) -> (r: Result<Amount, ReadError>)
    ensures
        r == row_amount(*row, kind),
{
    let decimal = match row.amount {
        Some(decimal) => decimal,
        None => {
            return Err(ReadError::MissingAmount(row.tx, kind));
        },
    };
    match Amount::try_new(decimal) {
        Ok(amount) => {
            proof {
                lemma_amount_from(amount, decimal);
            }
            Ok(amount)
        },
        Err(source) => Err(ReadError::InvalidAmount(row.tx, source)),
    }
}

impl TryFrom<Row> for Transaction {
    type Error = ReadError;

    fn try_from(row: Row) -> (r: Result<Transaction, ReadError>)
        ensures
            r == transaction_from_row(row),
            r matches Ok(t) ==> t.client == row.client && t.tx == row.tx,
            row.kind == RowKind::Deposit ==> (match row.amount {
                None => r == Err::<Transaction, ReadError>(ReadError::MissingAmount(row.tx, "deposit")),
                Some(d) => if amount_valid(d) {
                    r matches Ok(t) && (t.action matches TransactionAction::Movement(
                        Movement::Deposit(a),
                    ) && a@ == d)
                } else {
                    r == Err::<Transaction, ReadError>(
                        ReadError::InvalidAmount(row.tx, AmountError::PredicateViolated),
                    )
                },
            }),
            row.kind == RowKind::Withdrawal ==> (match row.amount {
                None => r == Err::<Transaction, ReadError>(
                    ReadError::MissingAmount(row.tx, "withdrawal"),
                ),
                Some(d) => if amount_valid(d) {
                    r matches Ok(t) && (t.action matches TransactionAction::Movement(
                        Movement::Withdrawal(a),
                    ) && a@ == d)
                } else {
                    r == Err::<Transaction, ReadError>(
                        ReadError::InvalidAmount(row.tx, AmountError::PredicateViolated),
                    )
                },
            }),
            row.kind == RowKind::Dispute ==> (r matches Ok(t) && t.action
                == TransactionAction::DisputeAction(DisputeAction::Dispute)),
            row.kind == RowKind::Resolve ==> (r matches Ok(t) && t.action
                == TransactionAction::DisputeAction(DisputeAction::Resolve)),
            row.kind == RowKind::Chargeback ==> (r matches Ok(t) && t.action
                == TransactionAction::DisputeAction(DisputeAction::Chargeback)),
    {
        proof {
            if let Some(d) = row.amount {
                lemma_amount_from(amount_from(d), d);
            }
        }
        let action = match row.kind {
            RowKind::Deposit => match amount_for(&row, "deposit") {
                Ok(amount) => TransactionAction::Movement(Movement::Deposit(amount)),
                Err(e) => {
                    return Err(e);
                },
            },
            RowKind::Withdrawal => match amount_for(&row, "withdrawal") {
                Ok(amount) => TransactionAction::Movement(Movement::Withdrawal(amount)),
                Err(e) => {
                    return Err(e);
                },
            },
            RowKind::Dispute => TransactionAction::DisputeAction(DisputeAction::Dispute),
            RowKind::Resolve => TransactionAction::DisputeAction(DisputeAction::Resolve),
            RowKind::Chargeback => TransactionAction::DisputeAction(DisputeAction::Chargeback),
        };
        Ok(Transaction { client: row.client, tx: row.tx, action })
    }
}

impl vstd::std_specs::convert::TryFromSpecImpl<Row> for Transaction {
    open spec fn obeys_try_from_spec() -> bool {
        true
    }

    open spec fn try_from_spec(row: Row) -> Result<Transaction, ReadError> {
        transaction_from_row(row)
    }
}

} // verus!
