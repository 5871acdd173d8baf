# tx_processor

A toy payments engine: it reads a CSV of deposits, withdrawals, disputes,
resolves and chargebacks, applies them per client, and writes the resulting
balances as CSV.

```
tx-processor transactions.csv > accounts.csv
```

Rejected or malformed rows are reported on stderr and skipped.

## Layout

- `src/` — the library, verified with Verus.
  - `decimal.rs`: fixed-point numbers in `rust_decimal`'s layout. Addition,
    subtraction and comparison are done by `rust_decimal`; their results are
    stated in the contracts of the functions that call it.
  - `types.rs`: client and transaction identifiers, amounts (non-negative,
    at most four decimal places), balances (at most four decimal places),
    transactions.
  - `account.rs`: one client's account; each operation's effect is a spec
    function of the account's state.
  - `ledger.rs`: all accounts and the history that disputes refer to.
    `Ledger::apply` is the single mutation point; its contract gives the
    resulting ledger and outcome as a function of the ledger before and the
    transaction.
  - `laws.rs`: money conservation (overall and per client), held funds
    matching open disputes (so never negative), how dispute actions settle
    totals, that a transaction touches no other client, that a recorded
    transaction id is refused when reused, that an account exists only after
    an accepted transaction, and that withdraw undoes deposit, release undoes
    hold and resolve undoes dispute.
  - `csv/`: an input row to a transaction, an account to an output row.
- `app/` — the program: command line, CSV reading and writing, messages.
- `tests/` — tests of the library.
