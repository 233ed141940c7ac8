use rust_payments_engine::amount::Amount;
use rust_payments_engine::error::PaymentError;

fn units(text: &str) -> u64 {
    Amount::from_decimal_text(text).unwrap().value
}

#[test]
fn empty_text_is_zero() {
    assert_eq!(Amount::from_decimal_text(""), Ok(Amount { value: 0 }));
}

#[test]
fn whole_numbers_are_scaled_by_ten_thousand() {
    assert_eq!(units("0"), 0);
    assert_eq!(units("1"), 10_000);
    assert_eq!(units("15"), 150_000);
    assert_eq!(units("+2"), 20_000);
}

#[test]
fn up_to_four_fractional_digits_are_kept() {
    assert_eq!(units("1.0"), 10_000);
    assert_eq!(units("1.5"), 15_000);
    assert_eq!(units("2.742"), 27_420);
    assert_eq!(units("0.0001"), 1);
    assert_eq!(units("12.3456"), 123_456);
    assert_eq!(units(".5"), 5_000);
}

#[test]
fn further_fractional_digits_are_cut_off() {
    assert_eq!(units("1.23456"), 12_345);
    assert_eq!(units("1.23459"), 12_345);
    assert_eq!(units("0.00009"), 0);
    assert_eq!(units("0.99999999"), 9_999);
    assert_eq!(units("3.0000000000000000000000000001"), 30_000);
}

#[test]
fn negative_zero_is_zero() {
    assert_eq!(units("-0"), 0);
    assert_eq!(units("-0.000"), 0);
}

#[test]
fn malformed_text_is_refused_with_a_reason() {
    assert_eq!(
        Amount::from_decimal_text("abc"),
        Err(PaymentError::InputError(
            "could not deserialize amount: Invalid decimal: unknown character".to_string()
        ))
    );
    assert_eq!(
        Amount::from_decimal_text("1.2.3"),
        Err(PaymentError::InputError(
            "could not deserialize amount: Invalid decimal: two decimal points".to_string()
        ))
    );
    assert_eq!(
        Amount::from_decimal_text("-"),
        Err(PaymentError::InputError(
            "could not deserialize amount: Invalid decimal: no digits found".to_string()
        ))
    );
    for text in [" ", "1,5", "1.5x", "ten", "1e", "--1"] {
        match Amount::from_decimal_text(text) {
            Err(PaymentError::InputError(told)) => {
                assert!(told.starts_with("could not deserialize amount: "));
                assert!(told.len() > "could not deserialize amount: ".len());
            }
            other => panic!("{:?} was read as {:?}", text, other),
        }
    }
}

#[test]
fn refused_amount_says_that_the_amount_was_at_fault() {
    let refusal = Amount::from_decimal_text("abc").unwrap_err();
    assert_eq!(
        refusal.to_text(),
        "invalid input: could not deserialize amount: Invalid decimal: unknown character"
    );
}

#[test]
fn negative_text_is_refused() {
    assert_eq!(
        Amount::from_decimal_text("-1"),
        Err(PaymentError::InputError("amount is negative".to_string()))
    );
    assert_eq!(
        Amount::from_decimal_text("-0.00001"),
        Err(PaymentError::InputError("amount is negative".to_string()))
    );
}

#[test]
fn largest_amount_is_read_and_the_next_overflows() {
    assert_eq!(units("1844674407370955.1615"), u64::MAX);
    assert_eq!(units("1844674407370955.16159"), u64::MAX);
    assert_eq!(
        Amount::from_decimal_text("1844674407370955.1616"),
        Err(PaymentError::Overflow)
    );
    assert_eq!(
        Amount::from_decimal_text("79228162514264337593543950335"),
        Err(PaymentError::Overflow)
    );
}

#[test]
fn from_scaled_cuts_off_toward_zero() {
    assert_eq!(Amount::from_scaled(15, 1), Ok(Amount { value: 15_000 }));
    assert_eq!(Amount::from_scaled(15, 0), Ok(Amount { value: 150_000 }));
    assert_eq!(Amount::from_scaled(15, 4), Ok(Amount { value: 15 }));
    assert_eq!(Amount::from_scaled(15, 5), Ok(Amount { value: 1 }));
    assert_eq!(Amount::from_scaled(19, 5), Ok(Amount { value: 1 }));
    assert_eq!(Amount::from_scaled(15, 6), Ok(Amount { value: 0 }));
    assert_eq!(Amount::from_scaled(0, 0), Ok(Amount { value: 0 }));
    assert_eq!(Amount::from_scaled(123_456_789, 8), Ok(Amount { value: 12_345 }));
}

#[test]
fn from_scaled_takes_any_scale() {
    assert_eq!(Amount::from_scaled(i128::MAX, 60), Ok(Amount { value: 0 }));
    assert_eq!(Amount::from_scaled(i128::MAX, u32::MAX), Ok(Amount { value: 0 }));
    assert_eq!(
        Amount::from_scaled(i128::MAX, 23),
        Ok(Amount { value: 17_014_118_346_046_923_173 })
    );
    assert_eq!(Amount::from_scaled(i128::MAX, 22), Err(PaymentError::Overflow));
    assert_eq!(Amount::from_scaled(i128::MAX, 0), Err(PaymentError::Overflow));
    assert_eq!(
        Amount::from_scaled(u64::MAX as i128, 4),
        Ok(Amount { value: u64::MAX })
    );
    assert_eq!(
        Amount::from_scaled(u64::MAX as i128 + 1, 4),
        Err(PaymentError::Overflow)
    );
    assert_eq!(
        Amount::from_scaled(u64::MAX as i128, 3),
        Err(PaymentError::Overflow)
    );
}

#[test]
fn from_scaled_refuses_negative_numbers() {
    assert_eq!(
        Amount::from_scaled(-1, 0),
        Err(PaymentError::InputError("amount is negative".to_string()))
    );
    assert_eq!(
        Amount::from_scaled(i128::MIN, 40),
        Err(PaymentError::InputError("amount is negative".to_string()))
    );
}

#[test]
fn text_has_exactly_four_fractional_digits() {
    assert_eq!(Amount { value: 0 }.to_decimal_text(), "0.0000");
    assert_eq!(Amount { value: 1 }.to_decimal_text(), "0.0001");
    assert_eq!(Amount { value: 120 }.to_decimal_text(), "0.0120");
    assert_eq!(Amount { value: 9_999 }.to_decimal_text(), "0.9999");
    assert_eq!(Amount { value: 10_000 }.to_decimal_text(), "1.0000");
    assert_eq!(Amount { value: 15_000 }.to_decimal_text(), "1.5000");
    assert_eq!(Amount { value: 27_420 }.to_decimal_text(), "2.7420");
    assert_eq!(Amount { value: 1_000_000 }.to_decimal_text(), "100.0000");
    assert_eq!(Amount { value: 123_456_789 }.to_decimal_text(), "12345.6789");
    assert_eq!(
        Amount { value: u64::MAX }.to_decimal_text(),
        "1844674407370955.1615"
    );
}

#[test]
fn text_reads_back_as_the_same_amount() {
    for value in [0u64, 1, 9, 10, 9_999, 10_000, 10_001, 123_456_789, u64::MAX] {
        let text = Amount { value }.to_decimal_text();
        assert_eq!(Amount::from_decimal_text(&text), Ok(Amount { value }));
    }
}

#[test]
fn checked_add_sums_or_overflows() {
    let a = Amount { value: 7 };
    let b = Amount { value: 5 };
    assert_eq!(a.checked_add(b), Ok(Amount { value: 12 }));
    assert_eq!(
        Amount { value: u64::MAX - 5 }.checked_add(b),
        Ok(Amount { value: u64::MAX })
    );
    assert_eq!(
        Amount { value: u64::MAX - 4 }.checked_add(b),
        Err(PaymentError::Overflow)
    );
}

#[test]
fn checked_sub_subtracts_or_underflows() {
    let a = Amount { value: 7 };
    let b = Amount { value: 5 };
    assert_eq!(a.checked_sub(b), Ok(Amount { value: 2 }));
    assert_eq!(a.checked_sub(a), Ok(Amount { value: 0 }));
    assert_eq!(b.checked_sub(a), Err(PaymentError::Underflow));
}
