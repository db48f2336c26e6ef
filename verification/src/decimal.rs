//! The signed decimal number grammar for the amount segment.
//!
//! A valid amount token is an optional `-` sign, one or more digits, and
//! optionally a single `.` followed by one or more digits. No exponent
//! notation, no thousands separators, no leading `+`.

use vstd::prelude::*;

use crate::money::all_digits;
use crate::money::is_digit;
use crate::money::Amount;
use crate::money::AmountSpec;

verus! {

/// The index of the first `.` in `s`, or `s.len()` when there is none.
pub open spec fn dot_index(s: Seq<char>) -> int
    decreases s.len(),
{
    if s.len() == 0 {
        0
    } else if s[0] == '.' {
        0
    } else {
        1 + dot_index(s.subrange(1, s.len() as int))
    }
}

/// `dot_index` points at the first `.`: nothing before it is a `.`, and it
/// is a `.` itself unless it is the length of the sequence.
pub proof fn lemma_dot_index_first(s: Seq<char>)
    ensures
        0 <= dot_index(s) <= s.len(),
        forall|i: int| 0 <= i < dot_index(s) ==> s[i] != '.',
        dot_index(s) < s.len() ==> s[dot_index(s)] == '.',
    decreases s.len(),
{
    if s.len() == 0 {
    } else if s[0] == '.' {
    } else {
        let tail = s.subrange(1, s.len() as int);
        lemma_dot_index_first(tail);
        assert forall|i: int| 0 <= i < dot_index(s) implies s[i] != '.' by {
            if i >= 1 {
                assert(s[i] == tail[i - 1]);
            }
        }
        if dot_index(s) < s.len() {
            assert(s[dot_index(s)] == tail[dot_index(tail)]);
        }
    }
}

/// A position that no `.` precedes and that is a `.` itself (or the end)
/// is exactly `dot_index`.
pub proof fn lemma_dot_index_is(s: Seq<char>, k: int)
    requires
        0 <= k <= s.len(),
        forall|i: int| 0 <= i < k ==> s[i] != '.',
        k < s.len() ==> s[k] == '.',
    ensures
        dot_index(s) == k,
{
    lemma_dot_index_first(s);
    let d = dot_index(s);
    if d < k {
        assert(s[d] != '.');
    } else if d > k {
        assert(s[k] != '.');
    }
}

/// The token without its leading `-` sign, if it has one.
pub open spec fn body_of(t: Seq<char>) -> Seq<char> {
    if t.len() > 0 && t[0] == '-' {
        t.subrange(1, t.len() as int)
    } else {
        t
    }
}

/// Whether `b` is an unsigned decimal number: digits, or digits `.` digits,
/// each digit group non-empty.
pub open spec fn is_unsigned_decimal(b: Seq<char>) -> bool {
    let d = dot_index(b);
    if d == b.len() {
        b.len() >= 1 && all_digits(b)
    } else {
        &&& 1 <= d
        &&& d + 1 < b.len()
        &&& all_digits(b.subrange(0, d))
        &&& all_digits(b.subrange(d + 1, b.len() as int))
    }
}

/// Whether `t` matches the signed decimal grammar: an optional `-`, then an
/// unsigned decimal number.
pub open spec fn is_decimal(t: Seq<char>) -> bool {
    is_unsigned_decimal(body_of(t))
}

/// The amount that a token matching the grammar denotes: its sign and its
/// two digit groups, verbatim.
pub open spec fn amount_of(t: Seq<char>) -> AmountSpec {
    let negative = t.len() > 0 && t[0] == '-';
    let b = body_of(t);
    let d = dot_index(b);
    if d == b.len() {
        AmountSpec { negative, int_digits: b, frac_digits: Seq::empty() }
    } else {
        AmountSpec {
            negative,
            int_digits: b.subrange(0, d),
            frac_digits: b.subrange(d + 1, b.len() as int),
        }
    }
}

/// A token matching the grammar parses to a well-formed amount whose text
/// is the token itself: parsing loses nothing.
pub proof fn lemma_amount_text_round_trip(t: Seq<char>)
    requires
        is_decimal(t),
    ensures
        amount_of(t).wf(),
        amount_of(t).text() == t,
{
    let b = body_of(t);
    let d = dot_index(b);
    lemma_dot_index_first(b);
    let a = amount_of(t);
    if d == b.len() {
        assert(a.text() =~= t);
    } else {
        assert(b =~= b.subrange(0, d) + seq![b[d]] + b.subrange(d + 1, b.len() as int));
        assert(a.text() =~= t);
    }
}

/// The text of a well-formed amount matches the grammar and parses back to
/// the same amount: formatting loses nothing.
pub proof fn lemma_text_amount_round_trip(a: AmountSpec)
    requires
        a.wf(),
    ensures
        is_decimal(a.text()),
        amount_of(a.text()) == a,
{
    let t = a.text();
    assert(t[0] == '-' <==> a.negative) by {
        if !a.negative {
            assert(t[0] == a.int_digits[0]);
            assert(is_digit(a.int_digits[0]));
        }
    }
    let b = body_of(t);
    if a.frac_digits.len() == 0 {
        assert(b =~= a.int_digits);
        lemma_dot_index_is(b, b.len() as int);
        assert(amount_of(t) =~= a);
    } else {
        assert(b =~= a.int_digits + seq!['.'] + a.frac_digits);
        let k = a.int_digits.len() as int;
        assert forall|i: int| 0 <= i < k implies b[i] != '.' by {
            assert(b[i] == a.int_digits[i]);
            assert(is_digit(a.int_digits[i]));
        }
        assert(b[k] == '.');
        lemma_dot_index_is(b, k);
        assert(b.subrange(0, k) =~= a.int_digits);
        assert(b.subrange(k + 1, b.len() as int) =~= a.frac_digits);
        assert(amount_of(t) =~= a);
    }
}

/// Whether `c` is a decimal digit.
pub fn is_digit_char(c: char) -> (r: bool)
    ensures
        r == is_digit(c),
{
    '0' <= c && c <= '9'
}

/// Parses an amount token. Returns the amount exactly when the token
/// matches the signed decimal grammar, and `None` otherwise.
#[verifier::loop_isolation(false)]
pub fn parse_amount(t: &str) -> (r: Option<Amount>)
    ensures
        r is Some <==> is_decimal(t@),
        r matches Some(a) ==> a@ == amount_of(t@) && a@.wf(),
{
    let n = t.unicode_len();
    let negative = n > 0 && t.get_char(0) == '-';
    let bstart: usize = if negative {
        1
    } else {
        0
    };
    let ghost b = body_of(t@);
    proof {
        assert(b.len() == n - bstart);
        assert(forall|k: int| 0 <= k < b.len() ==> b[k] == t@[bstart + k]);
    }
    // Find the first '.' at or after the sign.
    let mut j = bstart;
    while j < n && t.get_char(j) != '.'
        invariant
            bstart <= j <= n,
            forall|k: int| bstart <= k < j ==> t@[k] != '.',
        decreases n - j,
    {
        j = j + 1;
    }
    let ghost d = j - bstart;
    proof {
        lemma_dot_index_is(b, d as int);
    }
    // The integer digits run from the sign to the dot (or the end).
    if j == bstart {
        // No integer digits: "", "-", ".5", "-.5" and the like.
        proof {
            assert(!is_unsigned_decimal(b));
        }
        return None;
    }
    let mut k = bstart;
    while k < j
        invariant
            bstart <= k <= j,
            forall|i: int| bstart <= i < k ==> is_digit(t@[i]),
        decreases j - k,
    {
        if !is_digit_char(t.get_char(k)) {
            proof {
                assert(!is_unsigned_decimal(b)) by {
                    if d == b.len() {
                        assert(b[k - bstart] == t@[k as int]);
                    } else {
                        assert(b.subrange(0, d as int)[k - bstart] == t@[k as int]);
                    }
                }
            }
            return None;
        }
        k = k + 1;
    }
    let int_digits = String::from_str(t.substring_char(bstart, j));
    if j == n {
        // Digits only, no fractional part.
        let a = Amount { negative, int_digits, frac_digits: String::new() };
        proof {
            assert(all_digits(b)) by {
                assert(forall|i: int| 0 <= i < b.len() ==> is_digit(#[trigger] b[i]) && b[i]
                    == t@[bstart + i]);
            }
            assert(a@ =~= amount_of(t@));
        }
        return Some(a);
    }
    // A dot: the fractional digits run from after it to the end.
    if j + 1 == n {
        // A trailing dot with no digits after it.
        proof {
            assert(!is_unsigned_decimal(b));
        }
        return None;
    }
    let mut m = j + 1;
    while m < n
        invariant
            j + 1 <= m <= n,
            forall|i: int| j + 1 <= i < m ==> is_digit(t@[i]),
        decreases n - m,
    {
        if !is_digit_char(t.get_char(m)) {
            proof {
                assert(!is_unsigned_decimal(b)) by {
                    let bf = b.subrange(d as int + 1, b.len() as int);
                    assert(bf[m - bstart - d - 1] == t@[m as int]);
                }
            }
            return None;
        }
        m = m + 1;
    }
    let frac_digits = String::from_str(t.substring_char(j + 1, n));
    let a = Amount { negative, int_digits, frac_digits };
    proof {
        let bi = b.subrange(0, d as int);
        let bf = b.subrange(d as int + 1, b.len() as int);
        assert(all_digits(bi)) by {
            assert(forall|i: int|
                0 <= i < bi.len() ==> is_digit(#[trigger] bi[i]) && bi[i] == t@[bstart + i]);
        }
        assert(all_digits(bf)) by {
            assert(forall|i: int|
                0 <= i < bf.len() ==> is_digit(#[trigger] bf[i]) && bf[i] == t@[bstart + d + 1
                    + i]);
        }
        assert(a@.int_digits =~= bi);
        assert(a@.frac_digits =~= bf);
        assert(a@ =~= amount_of(t@));
    }
    Some(a)
}

} // verus!
