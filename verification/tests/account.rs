use tx_processor::account::{Account, AccountError};
use tx_processor::decimal::Decimal;
use tx_processor::types::Amount;

fn dec(text: &str) -> Decimal {
    let d = rust_decimal::Decimal::from_str_exact(text).unwrap();
    let u = d.unpack();
    Decimal::from_parts(u.lo, u.mid, u.hi, u.negative, u.scale)
}

fn text(d: Decimal) -> String {
    rust_decimal::Decimal::from_parts(d.lo, d.mid, d.hi, d.negative, d.scale).to_string()
}

fn amount(value: &str) -> Amount {
    Amount::try_new(dec(value)).unwrap()
}

fn state(account: &Account) -> (String, String, bool) {
    (
        text(account.available().into_inner()),
        text(account.held().into_inner()),
        account.locked(),
    )
}

#[test]
fn deposit_and_withdraw() {
    let mut account = Account::default();
    account.deposit(amount("2.5")).unwrap();
    account.withdraw(amount("1")).unwrap();
    assert_eq!(state(&account), ("1.5".to_string(), "0".to_string(), false));
    assert_eq!(
        account.withdraw(amount("1.5001")),
        Err(AccountError::InsufficientFunds)
    );
    account.withdraw(amount("1.5")).unwrap();
    assert_eq!(text(account.available().into_inner()), "0.0");
}

#[test]
fn hold_release_and_chargeback() {
    let mut account = Account::default();
    account.deposit(amount("4")).unwrap();
    account.hold(amount("1.25")).unwrap();
    assert_eq!(state(&account), ("2.75".to_string(), "1.25".to_string(), false));
    assert_eq!(text(account.total().unwrap().into_inner()), "4.00");
    account.release(amount("1.25")).unwrap();
    assert_eq!(state(&account), ("4.00".to_string(), "0.00".to_string(), false));
    account.hold(amount("3")).unwrap();
    account.chargeback(amount("3")).unwrap();
    assert_eq!(state(&account), ("1.00".to_string(), "0".to_string(), true));
}

#[test]
fn a_locked_account_refuses_every_operation() {
    let mut account = Account::default();
    account.deposit(amount("1")).unwrap();
    account.hold(amount("1")).unwrap();
    account.chargeback(amount("1")).unwrap();
    let frozen = account;
    assert_eq!(account.deposit(amount("1")), Err(AccountError::Locked));
    assert_eq!(account.withdraw(amount("0")), Err(AccountError::Locked));
    assert_eq!(account.hold(amount("1")), Err(AccountError::Locked));
    assert_eq!(account.release(amount("1")), Err(AccountError::Locked));
    assert_eq!(account.chargeback(amount("1")), Err(AccountError::Locked));
    assert_eq!(account, frozen);
}

#[test]
fn release_that_overflows_available_keeps_the_debited_held() {
    let largest = Decimal::from_parts(u32::MAX, u32::MAX, u32::MAX, false, 0);
    let big = Amount::try_new(largest).unwrap();
    let mut account = Account::default();
    account.deposit(big).unwrap();
    let result = account.release(amount("1"));
    assert_eq!(result, Err(AccountError::Overflow));
    assert_eq!(text(account.held().into_inner()), "-1");
    assert_eq!(account.available().into_inner(), largest);
}

#[test]
fn total_overflow_is_reported() {
    let largest = Decimal::from_parts(u32::MAX, u32::MAX, u32::MAX, false, 0);
    let big = Amount::try_new(largest).unwrap();
    let mut account = Account::default();
    account.deposit(big).unwrap();
    account.hold(big).unwrap();
    account.deposit(big).unwrap();
    assert_eq!(account.total(), Err(AccountError::Overflow));
}

#[test]
fn a_deposit_too_fine_for_a_huge_balance_is_rounded_away() {
    let huge = Decimal::from_parts(u32::MAX, u32::MAX, u32::MAX, false, 1);
    let mut account = Account::default();
    account.deposit(Amount::try_new(huge).unwrap()).unwrap();
    account.deposit(amount("0.0001")).unwrap();
    assert_eq!(account.available().into_inner(), huge);
    assert_eq!(
        text(account.available().into_inner()),
        "7922816251426433759354395033.5"
    );
}

#[test]
fn withdrawing_a_just_deposited_amount_restores_the_account() {
    let mut account = Account::default();
    account.deposit(amount("1.5")).unwrap();
    let old = account;
    account.deposit(amount("0.25")).unwrap();
    account.withdraw(amount("0.25")).unwrap();
    assert_eq!(account, old);
    assert_eq!(text(account.available().into_inner()), "1.50");
}

#[test]
fn releasing_a_just_held_amount_restores_the_account() {
    let mut account = Account::default();
    account.deposit(amount("3")).unwrap();
    let old = account;
    account.hold(amount("1.25")).unwrap();
    account.release(amount("1.25")).unwrap();
    assert_eq!(account, old);
}

#[test]
fn rounded_sums_still_succeed() {
    let largest = Decimal::from_parts(u32::MAX, u32::MAX, u32::MAX, false, 0);
    let mut account = Account::default();
    account.deposit(Amount::try_new(largest).unwrap()).unwrap();
    assert_eq!(account.deposit(amount("0.0001")), Ok(()));
    assert_eq!(account.withdraw(amount("0.0001")), Ok(()));
    assert_eq!(
        text(account.available().into_inner()),
        "79228162514264337593543950335"
    );
    assert_eq!(account.available().into_inner().scale, 0);
}
