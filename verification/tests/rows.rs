use tx_processor::account::AccountError;
use tx_processor::csv::account::AccountRow;
use tx_processor::csv::tx::{ReadError, Row, RowKind};
use tx_processor::decimal::Decimal;
use tx_processor::ledger::Ledger;
use tx_processor::types::{
    Amount, AmountError, ClientId, DisputeAction, Movement, Transaction, TransactionAction, TxId,
};

fn dec(text: &str) -> Decimal {
    let d = rust_decimal::Decimal::from_str_exact(text).unwrap();
    let u = d.unpack();
    Decimal::from_parts(u.lo, u.mid, u.hi, u.negative, u.scale)
}

fn text(d: Decimal) -> String {
    rust_decimal::Decimal::from_parts(d.lo, d.mid, d.hi, d.negative, d.scale).to_string()
}

fn amount(value: &str) -> Amount {
    Amount::try_new(dec(value)).unwrap()
}

fn row(kind: RowKind, client: u16, tx: u32, amount: Option<&str>) -> Row {
    Row {
        kind,
        client: ClientId::new(client),
        tx: TxId::new(tx),
        amount: amount.map(dec),
    }
}

/// Writes the rows of a ledger's accounts as the output file does.
fn write_rows(ledger: &Ledger) -> String {
    let mut writer = csv::Writer::from_writer(Vec::new());
    writer
        .write_record(["client", "available", "held", "total", "locked"])
        .unwrap();
    for (client, account) in ledger.accounts() {
        let r = AccountRow::try_from((client, &account)).unwrap();
        writer
            .write_record([
                r.client.into_inner().to_string(),
                text(r.available.into_inner()),
                text(r.held.into_inner()),
                text(r.total.into_inner()),
                r.locked.to_string(),
            ])
            .unwrap();
    }
    String::from_utf8(writer.into_inner().unwrap()).unwrap()
}

#[test]
fn parses_every_transaction_type() {
    let rows = vec![
        row(RowKind::Deposit, 1, 1, Some("1.0")),
        row(RowKind::Withdrawal, 1, 2, Some("0.5")),
        row(RowKind::Dispute, 1, 1, None),
        row(RowKind::Resolve, 1, 1, None),
        row(RowKind::Chargeback, 1, 1, None),
    ];
    let transactions: Vec<Transaction> = rows
        .into_iter()
        .map(|r| Transaction::try_from(r).unwrap())
        .collect();

    let client = ClientId::new(1);
    assert_eq!(
        transactions,
        vec![
            Transaction {
                client,
                tx: TxId::new(1),
                action: TransactionAction::Movement(Movement::Deposit(
                    Amount::try_new(Decimal::new(10, 1)).unwrap()
                )),
            },
            Transaction {
                client,
                tx: TxId::new(2),
                action: TransactionAction::Movement(Movement::Withdrawal(
                    Amount::try_new(Decimal::new(5, 1)).unwrap()
                )),
            },
            Transaction {
                client,
                tx: TxId::new(1),
                action: TransactionAction::DisputeAction(DisputeAction::Dispute),
            },
            Transaction {
                client,
                tx: TxId::new(1),
                action: TransactionAction::DisputeAction(DisputeAction::Resolve),
            },
            Transaction {
                client,
                tx: TxId::new(1),
                action: TransactionAction::DisputeAction(DisputeAction::Chargeback),
            },
        ]
    );
}

#[test]
fn rejects_deposit_without_amount() {
    let results = vec![Transaction::try_from(row(RowKind::Deposit, 1, 1, None))];
    assert!(matches!(
        results.as_slice(),
        [Err(ReadError::MissingAmount(tx, "deposit"))] if *tx == TxId::new(1)
    ));
}

#[test]
fn rejects_withdrawal_without_amount() {
    let result = Transaction::try_from(row(RowKind::Withdrawal, 3, 9, None));
    assert_eq!(result, Err(ReadError::MissingAmount(TxId::new(9), "withdrawal")));
}

#[test]
fn rejects_negative_or_too_precise_amounts() {
    let result = Transaction::try_from(row(RowKind::Deposit, 1, 4, Some("-1.0")));
    assert_eq!(
        result,
        Err(ReadError::InvalidAmount(TxId::new(4), AmountError::PredicateViolated))
    );
    let result = Transaction::try_from(row(RowKind::Withdrawal, 1, 5, Some("0.00001")));
    assert_eq!(
        result,
        Err(ReadError::InvalidAmount(TxId::new(5), AmountError::PredicateViolated))
    );
    let ok = Transaction::try_from(row(RowKind::Deposit, 1, 6, Some("0.0001")));
    assert!(ok.is_ok());
}

#[test]
fn dispute_rows_ignore_their_amount() {
    let result = Transaction::try_from(row(RowKind::Dispute, 2, 3, Some("7")));
    assert_eq!(
        result,
        Ok(Transaction {
            client: ClientId::new(2),
            tx: TxId::new(3),
            action: TransactionAction::DisputeAction(DisputeAction::Dispute),
        })
    );
}

#[test]
fn writes_one_row_per_account() {
    let mut ledger = Ledger::default();
    ledger
        .apply(Transaction {
            client: ClientId::new(1),
            tx: TxId::new(1),
            action: TransactionAction::Movement(Movement::Deposit(amount("1.5"))),
        })
        .unwrap();
    ledger
        .apply(Transaction {
            client: ClientId::new(1),
            tx: TxId::new(2),
            action: TransactionAction::Movement(Movement::Withdrawal(amount("0.5"))),
        })
        .unwrap();
    ledger
        .apply(Transaction {
            client: ClientId::new(2),
            tx: TxId::new(3),
            action: TransactionAction::Movement(Movement::Deposit(amount("2.0"))),
        })
        .unwrap();

    let output = write_rows(&ledger);

    let mut lines: Vec<&str> = output.lines().collect();
    let header = lines.remove(0);
    assert_eq!(header, "client,available,held,total,locked");
    lines.sort_unstable();
    assert_eq!(lines, ["1,1.0,0,1.0,false", "2,2.0,0,2.0,false"]);
}

#[test]
fn locked_account_is_reported_as_locked() {
    let mut ledger = Ledger::default();
    let client = ClientId::new(1);
    let tx = TxId::new(1);
    ledger
        .apply(Transaction {
            client,
            tx,
            action: TransactionAction::Movement(Movement::Deposit(amount("5.0"))),
        })
        .unwrap();
    ledger
        .apply(Transaction {
            client,
            tx,
            action: TransactionAction::DisputeAction(DisputeAction::Dispute),
        })
        .unwrap();
    ledger
        .apply(Transaction {
            client,
            tx,
            action: TransactionAction::DisputeAction(DisputeAction::Chargeback),
        })
        .unwrap();

    let output = write_rows(&ledger);

    assert_eq!(
        output,
        "client,available,held,total,locked\n1,0.0,0.0,0.0,true\n"
    );
}

#[test]
fn account_row_fails_when_the_total_overflows() {
    let mut ledger = Ledger::default();
    let largest = Decimal::from_parts(u32::MAX, u32::MAX, u32::MAX, false, 0);
    let big = Amount::try_new(largest).unwrap();
    let client = ClientId::new(4);
    ledger
        .apply(Transaction {
            client,
            tx: TxId::new(1),
            action: TransactionAction::Movement(Movement::Deposit(big)),
        })
        .unwrap();
    ledger
        .apply(Transaction {
            client,
            tx: TxId::new(2),
            action: TransactionAction::Movement(Movement::Deposit(big)),
        })
        .unwrap_err();
    ledger
        .apply(Transaction {
            client,
            tx: TxId::new(1),
            action: TransactionAction::DisputeAction(DisputeAction::Dispute),
        })
        .unwrap();
    let accounts = ledger.accounts();
    let (id, account) = accounts[0];
    // available is now 0 and held is the whole deposit; total is fine.
    assert!(AccountRow::try_from((id, &account)).is_ok());
    assert_eq!(text(account.available().into_inner()), "0");
    let _ = AccountError::Overflow;
}
