//! Parsing of a textual monetary value ("-123.45 €") into a structured
//! `Money` value: an exact signed decimal amount and a currency label.
//!
//! The input is split on runs of blank characters; exactly two segments are
//! required, the amount first and the currency second. The amount must match
//! the signed decimal grammar (an optional `-`, digits, an optional `.`
//! followed by digits); the currency is any non-blank text, taken verbatim.

pub mod decimal;
pub mod money;
pub mod parse;
pub mod tokenize;

pub use money::Amount;
pub use money::AmountSpec;
pub use money::Money;
pub use money::MoneySpec;
pub use money::ParseError;
pub use parse::parse_money;
