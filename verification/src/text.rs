//! Text primitives: equality of string slices and decimal numerals.

use vstd::prelude::*;
use vstd::string::*;
use vstd::utf8::*;

verus! {

/// Whether two string slices hold the same characters.
pub fn str_eq(a: &str, b: &str) -> (same: bool)
    ensures
        same == (a@ == b@),
{
    let x = a.as_bytes();
    let y = b.as_bytes();
    proof {
        encode_utf8_decode_utf8(a@);
        encode_utf8_decode_utf8(b@);
    }
    if x.len() != y.len() {
        return false;
    }
    let mut i: usize = 0;
    while i < x.len()
        invariant
            i <= x.len(),
            x.len() == y.len(),
            forall|k: int| 0 <= k < i ==> x@[k] == y@[k],
            x@ == a.spec_bytes(),
            y@ == b.spec_bytes(),
            decode_utf8(a.spec_bytes()) == a@,
            decode_utf8(b.spec_bytes()) == b@,
        decreases x.len() - i,
    {
        if x[i] != y[i] {
            return false;
        }
        i = i + 1;
    }
    assert(x@ =~= y@);
    true
}

/// An ASCII decimal digit.
pub open spec fn is_digit(c: char) -> bool {
    '0' <= c <= '9'
}

/// Every character of `s` is a decimal digit.
pub open spec fn all_digits(s: Seq<char>) -> bool {
    forall|i: int| 0 <= i < s.len() ==> is_digit(#[trigger] s[i])
}

/// The number that a run of decimal digits denotes, most significant digit first.
pub open spec fn digits_value(s: Seq<char>) -> nat
    decreases s.len(),
{
    if s.len() == 0 {
        0
    } else {
        (10 * digits_value(s.drop_last()) + (s.last() as int - '0' as int)) as nat
    }
}

/// The integer that a numeral denotes: one or more decimal digits, with an
/// optional `+` or `-` in front. Anything else, the empty text and a bare sign
/// included, denotes nothing.
pub open spec fn numeral_value(s: Seq<char>) -> Option<int> {
    if s.len() > 0 && (s[0] == '+' || s[0] == '-') {
        let digits = s.subrange(1, s.len() as int);
        if digits.len() > 0 && all_digits(digits) {
            Some(
                if s[0] == '-' {
                    -(digits_value(digits) as int)
                } else {
                    digits_value(digits) as int
                },
            )
        } else {
            None
        }
    } else if s.len() > 0 && all_digits(s) {
        Some(digits_value(s) as int)
    } else {
        None
    }
}

/// The numeral's value where it lies between `low` and `high`, both included.
pub open spec fn numeral_within(s: Seq<char>, low: int, high: int) -> Option<int> {
    match numeral_value(s) {
        Some(v) => if low <= v <= high {
            Some(v)
        } else {
            None
        },
        None => None,
    }
}

/// A longer run of digits denotes at least as much as any of its prefixes.
pub proof fn lemma_digits_value_prefix(s: Seq<char>, k: int)
    requires
        all_digits(s),
        0 <= k <= s.len(),
    ensures
        digits_value(s.take(k)) <= digits_value(s),
    decreases s.len() - k,
{
    if k == s.len() {
        assert(s.take(k) =~= s);
    } else {
        lemma_digits_value_prefix(s, k + 1);
        let longer = s.take(k + 1);
        assert(longer.drop_last() =~= s.take(k));
        assert(is_digit(s[k]));
        assert(longer.last() == s[k]);
    }
}

/// Reads the numeral `text` as a number between `low` and `high`.
///
/// Returns the value exactly when `text` is a numeral and its value lies in
/// that range.
pub fn parse_numeral(text: &str, low: i64, high: u64) -> (value: Option<i128>)
    ensures
        match numeral_within(text@, low as int, high as int) {
            Some(v) => value == Some(v as i128),
            None => value is None,
        },
{
    if !text.is_ascii() {
        proof {
            lemma_not_ascii_not_numeral(text@);
        }
        return None;
    }
    let n = text.unicode_len();
    if n == 0 {
        return None;
    }
    let first = text.get_ascii(0);
    let signed = first == 43u8 || first == 45u8;
    let negative = first == 45u8;
    let start: usize = if signed {
        1
    } else {
        0
    };
    if start == n {
        return None;
    }
    let ghost digits = text@.subrange(start as int, n as int);
    let mut total: u128 = 0;
    let mut i: usize = start;
    while i < n
        invariant
            start <= i <= n,
            0 < n == text@.len(),
            text.is_ascii(),
            signed <==> (text@[0] == '+' || text@[0] == '-'),
            start == (if signed { 1int } else { 0int }),
            digits == text@.subrange(start as int, n as int),
            all_digits(digits.take(i - start)),
            total == digits_value(digits.take(i - start)),
            total <= 0x1_0000_0000_0000_0000,
        decreases n - i,
    {
        let b = text.get_ascii(i);
        if b < 48u8 || b > 57u8 {
            proof {
                assert(digits[i - start] == text@[i as int]);
                assert(!is_digit(digits[i - start]));
                if !signed {
                    assert(digits =~= text@);
                }
            }
            return None;
        }
        let next: u128 = total * 10 + (b - 48u8) as u128;
        proof {
            let longer = digits.take(i - start + 1);
            assert(longer.drop_last() =~= digits.take(i - start));
            assert(longer.last() == text@[i as int]);
            assert(text@[i as int] as u8 == b);
            assert(text@[i as int] as int - '0' as int == b - 48);
            assert(next == digits_value(longer));
            assert forall|k: int| 0 <= k < longer.len() implies is_digit(#[trigger] longer[k]) by {
                if k < i - start {
                    assert(longer[k] == digits.take(i - start)[k]);
                }
            }
        }
        if next > 0x1_0000_0000_0000_0000 {
            proof {
                if all_digits(digits) {
                    lemma_digits_value_prefix(digits, i - start + 1);
                }
                if !signed {
                    assert(digits =~= text@);
                }
            }
            return None;
        }
        total = next;
        i = i + 1;
    }
    proof {
        assert(digits.take(n - start) =~= digits);
        if !signed {
            assert(digits =~= text@);
        }
    }
    let magnitude: i128 = total as i128;
    let v: i128 = if negative {
        -magnitude
    } else {
        magnitude
    };
    if low as i128 <= v && v <= high as i128 {
        Some(v)
    } else {
        None
    }
}

/// A text with a character outside ASCII is no numeral.
proof fn lemma_not_ascii_not_numeral(s: Seq<char>)
    requires
        !is_ascii_chars(s),
    ensures
        numeral_value(s) is None,
{
    let i = choose|i: int| 0 <= i < s.len() && !('\0' <= #[trigger] s[i] <= '\u{7f}');
    assert(!is_digit(s[i]));
    if i > 0 {
        let digits = s.subrange(1, s.len() as int);
        assert(digits[i - 1] == s[i]);
    }
}

} // verus!
