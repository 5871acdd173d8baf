//! Turning an account into an output row.
use vstd::prelude::*;

use crate::account::{lemma_results_are_decimal_results, Account, AccountError};
use crate::decimal::{decimal_sum, Decimal};
use crate::types::{balance_from, lemma_balance_from, Balance, ClientId};

verus! {

/// The output's columns, built from an [`Account`] just before being
/// written. `total` is computed once here rather than per-field access.
#[derive(Clone, Copy, Debug, PartialEq, Eq)]
pub struct AccountRow {
    pub client: ClientId,
    pub available: Balance,
    pub held: Balance,
    pub total: Balance,
    pub locked: bool,
}

/// The row for `client`'s `account`, or why its total cannot be computed.
pub open spec fn account_row(client: ClientId, account: Account) -> Result<AccountRow, AccountError> {
    match account@.total() {
        Ok(total) => Ok(
            AccountRow {
                client,
                available: balance_from(account@.available),
                held: balance_from(account@.held),
                total: balance_from(total),
                locked: account@.locked,
            },
        ),
        Err(e) => Err(e),
    }
}

/// A row's total is the sum of its account's available and held funds, and
/// a row exists exactly when that sum does.
pub proof fn lemma_row_total_is_sum(client: ClientId, account: Account)
    requires
        account.is_valid(),
    ensures
        account_row(client, account) is Ok <==> decimal_sum(account@.available, account@.held) is Some,
        account_row(client, account) matches Ok(row) ==> Some(row.total@) == decimal_sum(
            account@.available,
            account@.held,
        ),
        account_row(client, account) matches Ok(row) ==> row.available@ == account@.available
            && row.held@ == account@.held,
{
    lemma_results_are_decimal_results(account@, account@.held);
    if let Ok(total) = account@.total() {
        lemma_balance_from(balance_from(total), total);
        lemma_balance_from(balance_from(account@.available), account@.available);
        lemma_balance_from(balance_from(account@.held), account@.held);
    }
}

impl<'a> TryFrom<(ClientId, &'a Account)> for AccountRow {
    type Error = AccountError;

    fn try_from(entry: (ClientId, &'a Account)) -> (r: Result<AccountRow, AccountError>)
        ensures
            r == account_row(entry.0, *entry.1),
            r is Ok <==> decimal_sum(entry.1@.available, entry.1@.held) is Some,
            r matches Ok(row) ==> (row.client == entry.0 && row.available@ == entry.1@.available
                && row.held@ == entry.1@.held && row.locked == entry.1@.locked
                && Ok::<Decimal, AccountError>(row.total@) == entry.1@.total()
                && Some(row.total@) == decimal_sum(entry.1@.available, entry.1@.held)),
            r matches Err(e) ==> e == AccountError::Overflow,
    {
        let (client, account) = entry;
        proof {
            use_type_invariant(account);
            lemma_results_are_decimal_results(account@, account@.held);
        }
        let total = match account.total() {
            Ok(total) => total,
            Err(e) => {
                return Err(e);
            },
        };
        let available = account.available();
        let held = account.held();
        proof {
            lemma_balance_from(available, account@.available);
            lemma_balance_from(held, account@.held);
            lemma_balance_from(total, total@);
        }
        Ok(AccountRow { client, available, held, total, locked: account.locked() })
    }
}

impl<'a> vstd::std_specs::convert::TryFromSpecImpl<(ClientId, &'a Account)> for AccountRow {
    open spec fn obeys_try_from_spec() -> bool {
        true
    }

    open spec fn try_from_spec(entry: (ClientId, &'a Account)) -> Result<AccountRow, AccountError> {
        account_row(entry.0, *entry.1)
    }
}

} // verus!
