use tx_processor::account::Account;
use tx_processor::decimal::Decimal;
use tx_processor::types::{Amount, AmountError, Balance, BalanceError, Movement};

fn dec(text: &str) -> Decimal {
    let d = rust_decimal::Decimal::from_str_exact(text).unwrap();
    let u = d.unpack();
    Decimal::from_parts(u.lo, u.mid, u.hi, u.negative, u.scale)
}

fn text(d: Decimal) -> String {
    rust_decimal::Decimal::from_parts(d.lo, d.mid, d.hi, d.negative, d.scale).to_string()
}

fn balance(value: &str) -> Balance {
    Balance::try_new(dec(value)).unwrap()
}

#[test]
fn new_builds_the_same_decimal_as_rust_decimal() {
    for (num, scale) in [(0i64, 0u32), (10, 1), (-15, 3), (i64::MAX, 0), (i64::MIN, 28)] {
        let mine = Decimal::new(num, scale);
        let theirs = rust_decimal::Decimal::new(num, scale).unpack();
        assert_eq!(
            (mine.negative, mine.scale, mine.hi, mine.mid, mine.lo),
            (theirs.negative, theirs.scale, theirs.hi, theirs.mid, theirs.lo)
        );
    }
}

#[test]
fn from_parts_drops_the_sign_of_zero() {
    let z = Decimal::from_parts(0, 0, 0, true, 2);
    assert!(!z.negative);
    assert_eq!(z.scale, 2);
}

#[test]
fn balance_addition_keeps_the_finer_scale() {
    let sum = balance("1.5").checked_add(dec("0.25")).unwrap();
    assert_eq!(text(sum.into_inner()), "1.75");
    let sum = balance("0").checked_add(dec("2.50")).unwrap();
    assert_eq!(text(sum.into_inner()), "2.50");
    let sum = balance("2.0").checked_add(dec("0.000")).unwrap();
    assert_eq!(text(sum.into_inner()), "2.0");
}

#[test]
fn balance_subtraction_may_go_negative() {
    let diff = balance("1.5").checked_sub(dec("2")).unwrap();
    assert_eq!(text(diff.into_inner()), "-0.5");
    let diff = balance("5.0").checked_sub(dec("5.0")).unwrap();
    assert_eq!(text(diff.into_inner()), "0.0");
    assert!(!diff.into_inner().negative);
    let diff = balance("0").checked_sub(dec("3.25")).unwrap();
    assert_eq!(text(diff.into_inner()), "-3.25");
}

#[test]
fn balance_overflow_is_none() {
    let largest = Decimal::from_parts(u32::MAX, u32::MAX, u32::MAX, false, 0);
    let b = Balance::try_new(largest).unwrap();
    assert!(b.checked_add(largest).is_none());
    let smallest = Decimal::from_parts(u32::MAX, u32::MAX, u32::MAX, true, 0);
    let b = Balance::try_new(smallest).unwrap();
    assert!(b.checked_sub(largest).is_none());
}

#[test]
fn covers_compares_values_across_scales() {
    assert!(balance("1.50").covers(dec("1.5")));
    assert!(balance("2").covers(dec("1.9999")));
    assert!(!balance("1.9999").covers(dec("2")));
    assert!(!balance("-0.5").covers(dec("0")));
}

#[test]
fn amounts_must_be_non_negative_with_four_places() {
    assert!(Amount::try_new(dec("0")).is_ok());
    assert!(Amount::try_new(dec("12.3456")).is_ok());
    assert_eq!(
        Amount::try_new(dec("12.34567")),
        Err(AmountError::PredicateViolated)
    );
    assert_eq!(
        Amount::try_new(dec("-0.1")),
        Err(AmountError::PredicateViolated)
    );
    assert_eq!(text(Amount::default().into_inner()), "0");
}

#[test]
fn balances_may_be_negative_with_four_places() {
    assert!(Balance::try_new(dec("-12.3456")).is_ok());
    assert_eq!(
        Balance::try_new(dec("1.00001")),
        Err(BalanceError::PredicateViolated)
    );
    assert_eq!(text(Balance::default().into_inner()), "0");
}

#[test]
fn movement_amount_is_what_it_moves() {
    let a = Amount::try_new(dec("3.5")).unwrap();
    assert_eq!(Movement::Deposit(a).amount(), a);
    assert_eq!(Movement::Withdrawal(a).amount(), a);
}

#[test]
fn a_fresh_account_is_empty_and_unlocked() {
    let account = Account::default();
    assert_eq!(text(account.available().into_inner()), "0");
    assert_eq!(text(account.held().into_inner()), "0");
    assert_eq!(text(account.total().unwrap().into_inner()), "0");
    assert!(!account.locked());
}

#[test]
fn decimals_are_equal_when_their_values_are() {
    assert_eq!(Decimal::new(10, 1), Decimal::new(1, 0));
    assert_eq!(dec("2.500"), dec("2.5"));
    assert_ne!(dec("2.5001"), dec("2.5"));
    assert_eq!(Decimal::new(0, 3), Decimal::new(0, 0));
    assert_eq!(balance("1.0"), balance("1"));
}

#[test]
fn a_balance_may_hold_a_negative_zero() {
    let negative_zero = Decimal { negative: true, scale: 1, hi: 0, mid: 0, lo: 0 };
    let b = Balance::try_new(negative_zero).unwrap();
    assert!(b.into_inner().negative);
    let sum = b.checked_add(dec("2.5")).unwrap();
    assert_eq!(text(sum.into_inner()), "2.5");
    let diff = b.checked_sub(dec("0")).unwrap();
    assert_eq!(text(diff.into_inner()), "0");
    assert!(!diff.into_inner().negative);
    assert!(b.covers(dec("0")));
    assert_eq!(negative_zero, Decimal::new(0, 0));
}
