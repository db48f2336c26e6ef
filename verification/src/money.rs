//! The data model: a structured monetary value, its exact decimal amount,
//! and the two ways a parse can fail.

use vstd::prelude::*;

verus! {

/// Why an input string could not be parsed into a [`Money`] value.
#[derive(Clone, Copy, Debug, PartialEq, Eq, Structural)]
pub enum ParseError {
    /// The input does not split into exactly two blank-separated segments.
    InvalidInput,
    /// The input has two segments, but the first is not a signed decimal
    /// number.
    ParseFailed,
}

/// Whether `c` is a decimal digit.
pub open spec fn is_digit(c: char) -> bool {
    '0' <= c && c <= '9'
}

/// Whether every character of `s` is a decimal digit.
pub open spec fn all_digits(s: Seq<char>) -> bool {
    forall|i: int| 0 <= i < s.len() ==> is_digit(#[trigger] s[i])
}

/// The mathematical model of an [`Amount`]: the sign and the two digit
/// sequences, exactly as they stood in the input token.
#[verifier::ext_equal]
pub struct AmountSpec {
    /// Whether the token began with a `-` sign.
    pub negative: bool,
    /// The digits before the decimal point.
    pub int_digits: Seq<char>,
    /// The digits after the decimal point; empty when the token had no
    /// decimal point.
    pub frac_digits: Seq<char>,
}

impl AmountSpec {
    /// A well-formed amount has at least one integer digit and only digits
    /// in both parts.
    pub open spec fn wf(self) -> bool {
        &&& self.int_digits.len() >= 1
        &&& all_digits(self.int_digits)
        &&& all_digits(self.frac_digits)
    }

    /// The text of this amount: the sign, the integer digits, and the
    /// fractional digits after a `.` when there are any.
    pub open spec fn text(self) -> Seq<char> {
        (if self.negative {
            seq!['-']
        } else {
            Seq::<char>::empty()
        }) + self.int_digits + (if self.frac_digits.len() > 0 {
            seq!['.'] + self.frac_digits
        } else {
            Seq::<char>::empty()
        })
    }
}

/// An exact signed decimal amount, kept digit for digit as it was written.
///
/// Keeping the digits avoids any rounding: "123.45" is stored as the digit
/// strings "123" and "45" with a positive sign, and can be rendered back
/// exactly with [`Amount::to_text`].
#[derive(Debug, PartialEq)]
pub struct Amount {
    /// Whether the amount is negative (the token began with `-`).
    pub negative: bool,
    /// The digits before the decimal point.
    pub int_digits: String,
    /// The digits after the decimal point; empty when the token had no
    /// decimal point.
    pub frac_digits: String,
}

impl View for Amount {
    type V = AmountSpec;

    open spec fn view(&self) -> AmountSpec {
        AmountSpec {
            negative: self.negative,
            int_digits: self.int_digits@,
            frac_digits: self.frac_digits@,
        }
    }
}

impl Amount {
    /// Renders the amount as the decimal token it was parsed from:
    /// the sign, the integer digits, and `.` with the fractional digits
    /// when there are any.
    pub fn to_text(&self) -> (r: String)
        ensures
            r@ == self@.text(),
    {
        proof {
            reveal_strlit("-");
            reveal_strlit(".");
        }
        let mut s = String::new();
        if self.negative {
            s.append("-");
        }
        s.append(self.int_digits.as_str());
        if !self.frac_digits.as_str().is_empty() {
            s.append(".");
            s.append(self.frac_digits.as_str());
        }
        proof {
            assert(s@ =~= self@.text());
        }
        s
    }
}

/// A parsed monetary value: the amount and the currency label that followed
/// it, taken verbatim and unvalidated.
#[derive(Debug, PartialEq)]
pub struct Money {
    /// The signed decimal amount.
    pub amount: Amount,
    /// The currency label: the second segment of the input, any non-blank
    /// text.
    pub currency: String,
}

/// The mathematical model of a [`Money`] value.
#[verifier::ext_equal]
pub struct MoneySpec {
    /// The model of the amount.
    pub amount: AmountSpec,
    /// The currency label's characters.
    pub currency: Seq<char>,
}

impl View for Money {
    type V = MoneySpec;

    open spec fn view(&self) -> MoneySpec {
        MoneySpec { amount: self.amount@, currency: self.currency@ }
    }
}

} // verus!
