use tx_processor::account::{Account, AccountError};
use tx_processor::decimal::Decimal;
use tx_processor::ledger::{Ledger, LedgerError};
use tx_processor::types::{
    Amount, ClientId, DisputeAction, Movement, Transaction, TransactionAction, TxId,
};

fn dec(text: &str) -> Decimal {
    let d = rust_decimal::Decimal::from_str_exact(text).unwrap();
    let u = d.unpack();
    Decimal::from_parts(u.lo, u.mid, u.hi, u.negative, u.scale)
}

fn text(d: Decimal) -> String {
    rust_decimal::Decimal::from_parts(d.lo, d.mid, d.hi, d.negative, d.scale).to_string()
}

fn amount(value: &str) -> Amount {
    Amount::try_new(dec(value)).unwrap()
}

fn deposit(client: u16, tx: u32, value: &str) -> Transaction {
    Transaction {
        client: ClientId::new(client),
        tx: TxId::new(tx),
        action: TransactionAction::Movement(Movement::Deposit(amount(value))),
    }
}

fn withdrawal(client: u16, tx: u32, value: &str) -> Transaction {
    Transaction {
        client: ClientId::new(client),
        tx: TxId::new(tx),
        action: TransactionAction::Movement(Movement::Withdrawal(amount(value))),
    }
}

fn dispute_action(client: u16, tx: u32, action: DisputeAction) -> Transaction {
    Transaction {
        client: ClientId::new(client),
        tx: TxId::new(tx),
        action: TransactionAction::DisputeAction(action),
    }
}

fn account_of(ledger: &Ledger, client: u16) -> Account {
    ledger
        .accounts()
        .into_iter()
        .find(|(c, _)| c.into_inner() == client)
        .map(|(_, account)| account)
        .unwrap_or_default()
}

fn total_text(account: &Account) -> String {
    text(account.total().unwrap().into_inner())
}

/// A withdrawal that fails (here, for insufficient funds) must not
/// leave any trace in the ledger's transaction history.
#[test]
fn failed_withdrawal_is_not_recorded() {
    let mut ledger = Ledger::default();
    let client = ClientId::new(1);
    let tx = TxId::new(1);

    let result = ledger.apply(Transaction {
        client,
        tx,
        action: TransactionAction::Movement(Movement::Withdrawal(
            Amount::try_new(dec("10.0")).unwrap(),
        )),
    });
    assert_eq!(
        result,
        Err(LedgerError::Account(AccountError::InsufficientFunds))
    );

    let result = ledger.apply(Transaction {
        client,
        tx,
        action: TransactionAction::DisputeAction(DisputeAction::Dispute),
    });
    assert_eq!(result, Err(LedgerError::UnknownTransaction(tx)));
}

/// A withdrawal's funds are already gone and held nowhere, so disputing
/// one must be rejected outright rather than fabricating a hold.
#[test]
fn withdrawal_is_not_disputable() {
    let mut ledger = Ledger::default();
    let client = ClientId::new(1);
    let deposit_tx = TxId::new(1);
    let withdrawal_tx = TxId::new(2);
    let amount = Amount::try_new(dec("10.0")).unwrap();

    ledger
        .apply(Transaction {
            client,
            tx: deposit_tx,
            action: TransactionAction::Movement(Movement::Deposit(amount)),
        })
        .unwrap();
    ledger
        .apply(Transaction {
            client,
            tx: withdrawal_tx,
            action: TransactionAction::Movement(Movement::Withdrawal(amount)),
        })
        .unwrap();

    let result = ledger.apply(Transaction {
        client,
        tx: withdrawal_tx,
        action: TransactionAction::DisputeAction(DisputeAction::Dispute),
    });
    assert_eq!(
        result,
        Err(LedgerError::WithdrawalNotDisputable(withdrawal_tx))
    );
}

#[test]
fn deposits_and_withdrawals_move_available_funds() {
    let mut ledger = Ledger::default();
    ledger.apply(deposit(1, 1, "1.0")).unwrap();
    ledger.apply(deposit(2, 2, "2.0")).unwrap();
    ledger.apply(deposit(1, 3, "2.0")).unwrap();
    ledger.apply(withdrawal(1, 4, "1.5")).unwrap();
    let result = ledger.apply(withdrawal(2, 5, "3.0"));
    assert_eq!(
        result,
        Err(LedgerError::Account(AccountError::InsufficientFunds))
    );

    let one = account_of(&ledger, 1);
    assert_eq!(text(one.available().into_inner()), "1.5");
    assert_eq!(text(one.held().into_inner()), "0");
    assert_eq!(total_text(&one), "1.5");
    assert!(!one.locked());
    let two = account_of(&ledger, 2);
    assert_eq!(text(two.available().into_inner()), "2.0");
}

#[test]
fn dispute_then_resolve_releases_held_funds() {
    let mut ledger = Ledger::default();
    ledger.apply(deposit(1, 1, "5.0")).unwrap();
    ledger.apply(dispute_action(1, 1, DisputeAction::Dispute)).unwrap();
    let held = account_of(&ledger, 1);
    assert_eq!(text(held.available().into_inner()), "0.0");
    assert_eq!(text(held.held().into_inner()), "5.0");
    assert_eq!(total_text(&held), "5.0");

    ledger.apply(dispute_action(1, 1, DisputeAction::Resolve)).unwrap();
    let released = account_of(&ledger, 1);
    assert_eq!(text(released.available().into_inner()), "5.0");
    assert_eq!(text(released.held().into_inner()), "0.0");
    assert!(!released.locked());
}

#[test]
fn dispute_then_chargeback_locks_the_account() {
    let mut ledger = Ledger::default();
    ledger.apply(deposit(1, 1, "5.0")).unwrap();
    ledger.apply(deposit(1, 2, "1.0")).unwrap();
    ledger.apply(dispute_action(1, 1, DisputeAction::Dispute)).unwrap();
    let before = account_of(&ledger, 1);
    ledger
        .apply(dispute_action(1, 1, DisputeAction::Chargeback))
        .unwrap();
    let after = account_of(&ledger, 1);
    assert_eq!(after.available(), before.available());
    assert_eq!(text(after.held().into_inner()), "0.0");
    assert_eq!(total_text(&after), "1.0");
    assert!(after.locked());

    let frozen = ledger.clone();
    let result = ledger.apply(withdrawal(1, 3, "0.5"));
    assert_eq!(result, Err(LedgerError::Account(AccountError::Locked)));
    let result = ledger.apply(deposit(1, 4, "0.5"));
    assert_eq!(result, Err(LedgerError::Account(AccountError::Locked)));
    let result = ledger.apply(dispute_action(1, 2, DisputeAction::Dispute));
    assert_eq!(result, Err(LedgerError::Account(AccountError::Locked)));
    assert_eq!(ledger, frozen);
}

#[test]
fn disputing_a_deposit_after_withdrawing_against_it_goes_negative() {
    let mut ledger = Ledger::default();
    ledger.apply(deposit(1, 1, "10.0")).unwrap();
    ledger.apply(withdrawal(1, 2, "7.5")).unwrap();
    ledger.apply(dispute_action(1, 1, DisputeAction::Dispute)).unwrap();
    let account = account_of(&ledger, 1);
    assert_eq!(text(account.available().into_inner()), "-7.5");
    assert_eq!(text(account.held().into_inner()), "10.0");
    assert_eq!(total_text(&account), "2.5");
}

#[test]
fn disputing_an_already_disputed_transaction_is_rejected() {
    let mut ledger = Ledger::default();
    ledger.apply(deposit(1, 1, "3.0")).unwrap();
    ledger.apply(dispute_action(1, 1, DisputeAction::Dispute)).unwrap();
    let before = ledger.clone();
    let result = ledger.apply(dispute_action(1, 1, DisputeAction::Dispute));
    assert_eq!(result, Err(LedgerError::AlreadyDisputed(TxId::new(1))));
    assert_eq!(ledger, before);
}

#[test]
fn resolving_or_charging_back_an_undisputed_transaction_is_rejected() {
    let mut ledger = Ledger::default();
    ledger.apply(deposit(1, 1, "3.0")).unwrap();
    let result = ledger.apply(dispute_action(1, 1, DisputeAction::Resolve));
    assert_eq!(result, Err(LedgerError::NotDisputed(TxId::new(1))));
    let result = ledger.apply(dispute_action(1, 1, DisputeAction::Chargeback));
    assert_eq!(result, Err(LedgerError::NotDisputed(TxId::new(1))));
}

#[test]
fn disputing_another_clients_transaction_is_rejected() {
    let mut ledger = Ledger::default();
    ledger.apply(deposit(1, 1, "3.0")).unwrap();
    let result = ledger.apply(dispute_action(2, 1, DisputeAction::Dispute));
    assert_eq!(result, Err(LedgerError::ClientMismatch(TxId::new(1))));
    assert_eq!(text(account_of(&ledger, 1).held().into_inner()), "0");
}

#[test]
fn reusing_a_tx_id_is_rejected() {
    let mut ledger = Ledger::default();
    ledger.apply(deposit(1, 1, "3.0")).unwrap();
    let result = ledger.apply(deposit(2, 1, "4.0"));
    assert_eq!(result, Err(LedgerError::DuplicateTransaction(TxId::new(1))));
    let result = ledger.apply(withdrawal(1, 1, "1.0"));
    assert_eq!(result, Err(LedgerError::DuplicateTransaction(TxId::new(1))));
    assert_eq!(ledger.accounts().len(), 1);
}

#[test]
fn overflowing_deposit_is_rejected() {
    let mut ledger = Ledger::default();
    let largest = Decimal::from_parts(u32::MAX, u32::MAX, u32::MAX, false, 0);
    let big = Amount::try_new(largest).unwrap();
    let tx = |id: u32| Transaction {
        client: ClientId::new(1),
        tx: TxId::new(id),
        action: TransactionAction::Movement(Movement::Deposit(big)),
    };
    ledger.apply(tx(1)).unwrap();
    let before = ledger.clone();
    let result = ledger.apply(tx(2));
    assert_eq!(result, Err(LedgerError::Account(AccountError::Overflow)));
    assert_eq!(ledger, before);
}

#[test]
fn accounts_come_out_in_client_order() {
    let mut ledger = Ledger::default();
    ledger.apply(deposit(7, 1, "1")).unwrap();
    ledger.apply(deposit(2, 2, "1")).unwrap();
    ledger.apply(deposit(65535, 3, "1")).unwrap();
    ledger.apply(deposit(0, 4, "1")).unwrap();
    let clients: Vec<u16> = ledger
        .accounts()
        .into_iter()
        .map(|(c, _)| c.into_inner())
        .collect();
    assert_eq!(clients, vec![0, 2, 7, 65535]);
}

#[test]
fn a_transaction_touches_only_its_own_client() {
    let mut ledger = Ledger::default();
    ledger.apply(deposit(1, 1, "4.0")).unwrap();
    ledger.apply(deposit(2, 2, "6.0")).unwrap();
    let other = account_of(&ledger, 2);
    ledger.apply(withdrawal(1, 3, "1.0")).unwrap();
    ledger.apply(dispute_action(1, 1, DisputeAction::Dispute)).unwrap();
    ledger
        .apply(dispute_action(1, 1, DisputeAction::Chargeback))
        .unwrap();
    assert_eq!(account_of(&ledger, 2), other);
}

#[test]
fn money_is_conserved_over_a_replay() {
    let transactions = vec![
        deposit(1, 1, "10.25"),
        deposit(2, 2, "3"),
        withdrawal(1, 3, "0.25"),
        dispute_action(1, 1, DisputeAction::Dispute),
        withdrawal(2, 4, "5"),
        dispute_action(1, 1, DisputeAction::Chargeback),
        deposit(2, 5, "0.0001"),
        dispute_action(2, 2, DisputeAction::Dispute),
        dispute_action(2, 2, DisputeAction::Resolve),
    ];
    let mut ledger = Ledger::default();
    let mut flow = rust_decimal::Decimal::ZERO;
    let mut deposits = std::collections::HashMap::new();
    for t in transactions {
        let result = ledger.apply(t);
        if result.is_err() {
            continue;
        }
        let value = |a: Amount| {
            let d = a.into_inner();
            rust_decimal::Decimal::from_parts(d.lo, d.mid, d.hi, d.negative, d.scale)
        };
        match t.action {
            TransactionAction::Movement(Movement::Deposit(a)) => {
                flow += value(a);
                deposits.insert(t.tx.into_inner(), value(a));
            }
            TransactionAction::Movement(Movement::Withdrawal(a)) => flow -= value(a),
            TransactionAction::DisputeAction(DisputeAction::Chargeback) => {
                flow -= deposits[&t.tx.into_inner()]
            }
            TransactionAction::DisputeAction(_) => {}
        }
    }
    let mut total = rust_decimal::Decimal::ZERO;
    for (_, account) in ledger.accounts() {
        let t = account.total().unwrap().into_inner();
        total += rust_decimal::Decimal::from_parts(t.lo, t.mid, t.hi, t.negative, t.scale);
        let h = account.held().into_inner();
        assert!(!h.negative);
    }
    assert_eq!(total, flow);
    assert_eq!(total.to_string(), "2.7501");
}

#[test]
fn replaying_on_two_fresh_ledgers_agrees() {
    let transactions = vec![
        deposit(1, 1, "1.5"),
        withdrawal(1, 2, "2"),
        dispute_action(1, 1, DisputeAction::Dispute),
        dispute_action(3, 9, DisputeAction::Resolve),
    ];
    let mut a = Ledger::default();
    let mut b = Ledger::default();
    for t in &transactions {
        assert_eq!(a.apply(*t), b.apply(*t));
    }
    assert_eq!(a, b);
}

#[test]
fn a_rejected_transaction_creates_no_account() {
    let mut ledger = Ledger::default();
    assert!(ledger.apply(withdrawal(5, 1, "1")).is_err());
    assert!(ledger.apply(dispute_action(6, 1, DisputeAction::Dispute)).is_err());
    assert!(ledger.accounts().is_empty());
    ledger.apply(deposit(5, 2, "0")).unwrap();
    let clients: Vec<u16> = ledger.accounts().into_iter().map(|(c, _)| c.into_inner()).collect();
    assert_eq!(clients, vec![5]);
}

#[test]
fn a_resolve_right_after_a_dispute_restores_the_ledger() {
    let mut ledger = Ledger::default();
    ledger.apply(deposit(1, 1, "2.5")).unwrap();
    ledger.apply(deposit(2, 2, "1")).unwrap();
    let before = ledger.clone();
    ledger.apply(dispute_action(1, 1, DisputeAction::Dispute)).unwrap();
    assert_ne!(ledger, before);
    ledger.apply(dispute_action(1, 1, DisputeAction::Resolve)).unwrap();
    assert_eq!(ledger, before);
}

#[test]
fn a_reused_id_is_refused_after_many_transactions() {
    let mut ledger = Ledger::default();
    ledger.apply(deposit(1, 42, "1")).unwrap();
    for id in 0..20u32 {
        let _ = ledger.apply(deposit(2, 100 + id, "1"));
    }
    let before = ledger.clone();
    for client in [1u16, 2, 3] {
        assert_eq!(
            ledger.apply(withdrawal(client, 42, "0.5")),
            Err(LedgerError::DuplicateTransaction(TxId::new(42)))
        );
    }
    assert_eq!(ledger, before);
}
