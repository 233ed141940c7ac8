//! Money as a fixed-point number: a count of ten-thousandths of a currency
//! unit.

use crate::decimal::{decimal_digits, digit_char, digit_text, push_decimal};
use crate::error::PaymentError;
use rust_decimal::Decimal;
use std::str::FromStr;
use vstd::arithmetic::div_mod::{
    lemma_div_by_multiple, lemma_div_denominator, lemma_div_is_ordered_by_denominator,
    lemma_div_multiples_vanish_quotient, lemma_div_pos_is_pos,
};
use vstd::arithmetic::mul::{lemma_mul_inequality, lemma_mul_is_associative};
use vstd::arithmetic::power::{lemma_pow_adds, lemma_pow_increases, lemma_pow_positive, pow};
use vstd::prelude::*;
use vstd::string::StringExecFns;

verus! {

/// An amount of money; `value` counts ten-thousandths of a currency unit, so
/// an amount is never negative.
#[derive(Debug, Clone, Copy, PartialEq, Eq)]
pub struct Amount {
    pub value: u64,
}

/// The units in the decimal number `mantissa / 10^scale`: ten thousand times
/// the number, with what is smaller than a unit cut off.
pub open spec fn scaled_units(mantissa: nat, scale: nat) -> nat {
    (mantissa as int * 10_000 / pow(10, scale)) as nat
}

/// What `rust_decimal` reads in a text: the mantissa and the scale of the
/// decimal number that the text stands for, or its reason for reading none.
pub uninterp spec fn decimal_reading(text: Seq<char>) -> Result<(i128, u32), Seq<char>>;

/// Reads a decimal number with `Decimal::from_str` of `rust_decimal`.
///
/// Trusted: the call gives the same answer for the same text, so the answer
/// has a name, [`decimal_reading`]. A number comes back as the mantissa and
/// the scale that `Decimal::mantissa` and `Decimal::scale` report, a failure
/// as the message that the error displays. Nothing is claimed of which
/// texts are numbers.
#[verifier::external_body]
fn read_decimal(text: &str) -> (reading: Result<(i128, u32), String>)
    ensures
        match reading {
            Ok(parts) => decimal_reading(text@) == Ok::<(i128, u32), Seq<char>>(parts),
            Err(reason) => decimal_reading(text@) == Err::<(i128, u32), Seq<char>>(reason@),
        },
{
    match Decimal::from_str(text) {
        Ok(number) => Ok((number.mantissa(), number.scale())),
        Err(reason) => Err(reason.to_string()),
    }
}

impl Amount {
    /// Whether `amount` is what the decimal number `mantissa / 10^scale`
    /// comes to: the number of its units, cut off after the fourth digit
    /// behind the point. A negative number is refused as input that cannot be
    /// read, a number of more units than 64 bits hold as an overflow.
    pub open spec fn is_scaled(
        mantissa: i128,
        scale: u32,
        amount: Result<Amount, PaymentError>,
    ) -> bool {
        if mantissa < 0 {
            amount matches Err(PaymentError::InputError(reason)) && reason@
                == "amount is negative"@
        } else if scaled_units(mantissa as nat, scale as nat) > u64::MAX {
            amount == Err::<Amount, PaymentError>(PaymentError::Overflow)
        } else {
            amount == Ok::<Amount, PaymentError>(
                Amount { value: scaled_units(mantissa as nat, scale as nat) as u64 },
            )
        }
    }

    /// Reads an amount from decimal text.
    ///
    /// Empty text is the amount zero. Any other text is read as a decimal
    /// number by `rust_decimal`. What it cannot read is refused: the message
    /// says that the amount could not be read and gives the reason of
    /// `rust_decimal`. What it reads is turned into units by
    /// [`Amount::from_scaled`]: the digits are cut off from the number as
    /// `rust_decimal` read it, and it keeps no more than 28 digits behind the
    /// point.
    pub fn from_decimal_text(text: &str) -> (amount: Result<Amount, PaymentError>)
        ensures
            text@.len() == 0 ==> amount == Ok::<Amount, PaymentError>(Amount { value: 0 }),
            text@.len() > 0 ==> match decimal_reading(text@) {
                Ok((mantissa, scale)) => Amount::is_scaled(mantissa, scale, amount),
                Err(reason) => amount matches Err(PaymentError::InputError(told)) && told@
                    == "could not deserialize amount: "@ + reason,
            },
    {
        if text.is_empty() {
            return Ok(Amount { value: 0 });
        }
        match read_decimal(text) {
            Ok((mantissa, scale)) => Amount::from_scaled(mantissa, scale),
            Err(reason) => Err(unreadable_amount(reason.as_str())),
        }
    }

    /// The amount of the decimal number `mantissa / 10^scale`, cut off after
    /// the fourth digit behind the point.
    pub fn from_scaled(mantissa: i128, scale: u32) -> (amount: Result<Amount, PaymentError>)
        ensures
            Amount::is_scaled(mantissa, scale, amount),
    {
        if mantissa < 0 {
            return Err(PaymentError::InputError("amount is negative".to_owned()));
        }
        let whole: u128 = mantissa as u128;
        let units: u128 = if scale >= 4 {
            cut_digits(whole, scale - 4)
        } else if whole > u64::MAX as u128 {
            proof {
                lemma_scaled_up(whole as nat, scale as nat);
                lemma_pow_positive(10, (4 - scale) as nat);
                lemma_mul_inequality(1, pow(10, (4 - scale) as nat), whole as int);
            }
            return Err(PaymentError::Overflow);
        } else {
            let zeros: u128 = power_of_ten(4 - scale);
            proof {
                lemma_scaled_up(whole as nat, scale as nat);
                assert(whole * zeros <= u64::MAX * 10_000) by (nonlinear_arith)
                    requires
                        whole <= u64::MAX,
                        zeros <= 10_000,
                ;
            }
            whole * zeros
        };
        proof {
            if scale >= 4 {
                lemma_scaled_down(whole as nat, scale as nat);
            }
        }
        if units > u64::MAX as u128 {
            Err(PaymentError::Overflow)
        } else {
            Ok(Amount { value: units as u64 })
        }
    }

    /// The amount in decimal text: the whole currency units, a point, and
    /// exactly four digits for the ten-thousandths.
    pub open spec fn text(self) -> Seq<char> {
        let value = self.value as nat;
        decimal_digits(value / 10_000) + seq![
            '.',
            digit_char(value / 1_000 % 10),
            digit_char(value / 100 % 10),
            digit_char(value / 10 % 10),
            digit_char(value % 10),
        ]
    }

    /// Writes the amount as decimal text with exactly four digits after the
    /// point.
    pub fn to_decimal_text(&self) -> (text: String)
        ensures
            text@ == self.text(),
    {
        proof {
            reveal_strlit(".");
        }
        let mut text = String::new();
        push_decimal(&mut text, self.value / 10_000);
        text.append(".");
        text.append(digit_text(self.value / 1_000 % 10));
        text.append(digit_text(self.value / 100 % 10));
        text.append(digit_text(self.value / 10 % 10));
        text.append(digit_text(self.value % 10));
        assert(text@ =~= self.text());
        text
    }

    /// The sum of two amounts, unless it does not fit in 64 bits.
    pub fn checked_add(self, other: Amount) -> (sum: Result<Amount, PaymentError>)
        ensures
            self.value + other.value <= u64::MAX ==> sum == Ok::<Amount, PaymentError>(
                Amount { value: (self.value + other.value) as u64 },
            ),
            self.value + other.value > u64::MAX ==> sum == Err::<Amount, PaymentError>(
                PaymentError::Overflow,
            ),
    {
        if other.value <= u64::MAX - self.value {
            Ok(Amount { value: self.value + other.value })
        } else {
            Err(PaymentError::Overflow)
        }
    }

    /// What is left of an amount when `other` is taken from it, unless that
    /// would be negative.
    pub fn checked_sub(self, other: Amount) -> (rest: Result<Amount, PaymentError>)
        ensures
            other.value <= self.value ==> rest == Ok::<Amount, PaymentError>(
                Amount { value: (self.value - other.value) as u64 },
            ),
            other.value > self.value ==> rest == Err::<Amount, PaymentError>(
                PaymentError::Underflow,
            ),
    {
        if other.value <= self.value {
            Ok(Amount { value: self.value - other.value })
        } else {
            Err(PaymentError::Underflow)
        }
    }
}

/// The refusal of a text that is no decimal number, with the reason why.
fn unreadable_amount(reason: &str) -> (refusal: PaymentError)
    ensures
        refusal matches PaymentError::InputError(told) && told@
            == "could not deserialize amount: "@ + reason@,
{
    PaymentError::InputError("could not deserialize amount: ".to_owned().concat(reason))
}

/// `10^exponent`, for the few digits behind the point that an amount has.
fn power_of_ten(exponent: u32) -> (power: u128)
    requires
        exponent <= 4,
    ensures
        power == pow(10, exponent as nat),
        power <= 10_000,
{
    proof {
        reveal_with_fuel(pow, 5);
    }
    if exponent == 0 {
        1
    } else if exponent == 1 {
        10
    } else if exponent == 2 {
        100
    } else if exponent == 3 {
        1_000
    } else {
        10_000
    }
}

/// Cuts the last `digits` decimal digits off a number.
fn cut_digits(n: u128, digits: u32) -> (rest: u128)
    ensures
        rest == n as int / pow(10, digits as nat),
{
    let mut rest: u128 = n;
    let mut cut: u32 = 0;
    proof {
        reveal_with_fuel(pow, 1);
    }
    while cut < digits && rest > 0
        invariant
            cut <= digits,
            rest == n as int / pow(10, cut as nat),
        decreases digits - cut,
    {
        proof {
            lemma_pow_positive(10, cut as nat);
            lemma_div_denominator(n as int, pow(10, cut as nat), 10);
            lemma_pow_adds(10, cut as nat, 1);
            reveal_with_fuel(pow, 2);
        }
        rest = rest / 10;
        cut = cut + 1;
    }
    proof {
        if cut < digits {
            lemma_pow_positive(10, cut as nat);
            lemma_pow_positive(10, digits as nat);
            lemma_pow_increases(10, cut as nat, digits as nat);
            lemma_div_is_ordered_by_denominator(
                n as int,
                pow(10, cut as nat),
                pow(10, digits as nat),
            );
            lemma_div_pos_is_pos(n as int, pow(10, digits as nat));
        }
    }
    rest
}

/// A number written with exactly four digits behind the point loses
/// nothing: its units are its mantissa.
pub proof fn lemma_four_digits_are_exact(units: nat)
    ensures
        scaled_units(units, 4) == units,
{
    lemma_scaled_down(units, 4);
    reveal_with_fuel(pow, 1);
}

/// Behind the fourth digit the digits are cut off: with a scale of four or
/// more, the units are the mantissa without its last `scale - 4` digits.
proof fn lemma_scaled_down(mantissa: nat, scale: nat)
    requires
        scale >= 4,
    ensures
        scaled_units(mantissa, scale) == mantissa as int / pow(10, (scale - 4) as nat),
{
    let low = pow(10, (scale - 4) as nat);
    lemma_pow_positive(10, (scale - 4) as nat);
    lemma_pow_adds(10, 4, (scale - 4) as nat);
    assert(pow(10, 4) == 10_000) by {
        reveal_with_fuel(pow, 5);
    }
    assert(pow(10, scale) == 10_000 * low);
    lemma_div_multiples_vanish_quotient(10_000, mantissa as int, low);
    assert(mantissa * 10_000 == 10_000 * mantissa) by (nonlinear_arith);
}

/// With a scale below four nothing is cut off: the units are the mantissa
/// with `4 - scale` zeros behind it.
proof fn lemma_scaled_up(mantissa: nat, scale: nat)
    requires
        scale < 4,
    ensures
        scaled_units(mantissa, scale) == mantissa * pow(10, (4 - scale) as nat),
{
    let high = pow(10, (4 - scale) as nat);
    let low = pow(10, scale);
    lemma_pow_positive(10, scale);
    lemma_pow_positive(10, (4 - scale) as nat);
    lemma_pow_adds(10, (4 - scale) as nat, scale);
    assert(pow(10, 4) == 10_000) by {
        reveal_with_fuel(pow, 5);
    }
    assert(high * low == 10_000);
    lemma_mul_is_associative(mantissa as int, high, low);
    assert(mantissa * 10_000 == (mantissa * high) * low);
    assert(mantissa * high >= 0) by (nonlinear_arith)
        requires
            mantissa >= 0,
            high > 0,
    ;
    lemma_div_by_multiple(mantissa * high, low);
}

} // verus!
