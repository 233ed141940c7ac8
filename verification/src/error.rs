//! The failures that the library reports.

use vstd::prelude::*;
use vstd::string::StringExecFns;

verus! {

#[derive(Debug, PartialEq, Eq, Clone)]
pub enum PaymentError {
    /// The input cannot be read; the text says why.
    InputError(String),
    /// A value cannot be written out; the text says why.
    SerializeError(String),
    /// A sum of amounts does not fit in 64 bits.
    Overflow,
    /// A difference of amounts would be negative.
    Underflow,
}

impl PaymentError {
    /// The message of the error, as [`PaymentError::to_text`] gives it.
    pub open spec fn text(self) -> Seq<char> {
        match self {
            PaymentError::InputError(reason) => "invalid input: "@ + reason@,
            PaymentError::SerializeError(reason) => "error serializing: "@ + reason@,
            PaymentError::Overflow => "amount overflow"@,
            PaymentError::Underflow => "amount underflow"@,
        }
    }

    /// The message of the error, for people to read.
    pub fn to_text(&self) -> (message: String)
        ensures
            message@ == self.text(),
    {
        match self {
            PaymentError::InputError(reason) => String::from_str("invalid input: ").concat(
                reason.as_str(),
            ),
            PaymentError::SerializeError(reason) => String::from_str("error serializing: ").concat(
                reason.as_str(),
            ),
            PaymentError::Overflow => String::from_str("amount overflow"),
            PaymentError::Underflow => String::from_str("amount underflow"),
        }
    }
}

} // verus!
