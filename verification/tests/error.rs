use rust_payments_engine::error::PaymentError;

#[test]
fn errors_say_what_failed() {
    assert_eq!(
        PaymentError::InputError("expected 1 argument, but got none".to_string()).to_text(),
        "invalid input: expected 1 argument, but got none"
    );
    assert_eq!(
        PaymentError::SerializeError("could not serialize amount to decimal".to_string())
            .to_text(),
        "error serializing: could not serialize amount to decimal"
    );
    assert_eq!(PaymentError::Overflow.to_text(), "amount overflow");
    assert_eq!(PaymentError::Underflow.to_text(), "amount underflow");
}

#[test]
fn errors_with_different_reasons_differ() {
    assert_ne!(
        PaymentError::InputError("a".to_string()),
        PaymentError::InputError("b".to_string())
    );
    assert_ne!(
        PaymentError::InputError("a".to_string()),
        PaymentError::SerializeError("a".to_string())
    );
    assert_eq!(PaymentError::Overflow.clone(), PaymentError::Overflow);
}
