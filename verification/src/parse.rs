//! The parser itself: from one input string to a [`Money`] value or a
//! classified error.

use vstd::prelude::*;

use crate::decimal::amount_of;
use crate::decimal::is_decimal;
use crate::decimal::lemma_amount_text_round_trip;
use crate::decimal::lemma_text_amount_round_trip;
use crate::decimal::parse_amount;
use crate::money::Money;
use crate::money::MoneySpec;
use crate::money::ParseError;
use crate::tokenize::segments_of;
use crate::tokenize::split_segments;

verus! {

/// What parsing an input returns, as a function of its characters: the
/// input must split into exactly two segments (else `InvalidInput`), the
/// first must match the signed decimal grammar (else `ParseFailed`), and
/// the result carries that amount and the second segment verbatim.
pub open spec fn spec_parse(s: Seq<char>) -> Result<MoneySpec, ParseError> {
    let segs = segments_of(s);
    if segs.len() != 2 {
        Err(ParseError::InvalidInput)
    } else if !is_decimal(segs[0]) {
        Err(ParseError::ParseFailed)
    } else {
        Ok(MoneySpec { amount: amount_of(segs[0]), currency: segs[1] })
    }
}

/// Parses a monetary value written as an amount and a currency label,
/// separated by blanks: `"-123.45 €"`.
///
/// Returns `Ok` exactly when the input has exactly two blank-separated
/// segments and the first matches the signed decimal grammar. The currency
/// label is taken verbatim, unvalidated.
pub fn parse_money(input: &str) -> (r: Result<Money, ParseError>)
    ensures
        match r {
            Ok(m) => spec_parse(input@) == Ok::<MoneySpec, ParseError>(m@) && m@.amount.wf(),
            Err(e) => spec_parse(input@) == Err::<MoneySpec, ParseError>(e),
        },
{
    let mut segs = split_segments(input);
    let ghost model = segs.deep_view();
    if segs.len() != 2 {
        return Err(ParseError::InvalidInput);
    }
    let currency = segs.pop().unwrap();
    let first = segs.pop().unwrap();
    proof {
        assert(first@ == model[0]);
        assert(currency@ == model[1]);
    }
    match parse_amount(first.as_str()) {
        None => Err(ParseError::ParseFailed),
        Some(amount) => {
            proof {
                lemma_amount_text_round_trip(model[0]);
            }
            let m = Money { amount, currency };
            proof {
                assert(m@ =~= MoneySpec { amount: amount_of(model[0]), currency: model[1] });
            }
            Ok(m)
        },
    }
}

/// A two-segment input whose first segment matches the decimal grammar
/// always parses: it cannot fail at all, and in particular never with
/// `InvalidInput`.
pub proof fn lemma_two_segments_decimal_parses(s: Seq<char>)
    requires
        segments_of(s).len() == 2,
        is_decimal(segments_of(s)[0]),
    ensures
        spec_parse(s) is Ok,
        spec_parse(s) != Err::<MoneySpec, ParseError>(ParseError::InvalidInput),
{
}

/// Round trip of a successful parse: rendering the amount gives a token
/// that matches the grammar and parses back to the very same amount, and
/// the currency is the input's second segment, verbatim.
pub proof fn lemma_money_round_trip(s: Seq<char>, m: MoneySpec)
    requires
        spec_parse(s) == Ok::<MoneySpec, ParseError>(m),
    ensures
        is_decimal(m.amount.text()),
        amount_of(m.amount.text()) == m.amount,
        m.amount.text() == segments_of(s)[0],
        m.currency == segments_of(s)[1],
{
    lemma_amount_text_round_trip(segments_of(s)[0]);
    lemma_text_amount_round_trip(m.amount);
}

} // verus!
