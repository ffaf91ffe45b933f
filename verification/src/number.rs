//! Signed 64-bit integers as decimal text: reading a literal and writing a value.
use vstd::prelude::*;

verus! {

/// Whether `c` is one of the ten ASCII decimal digits.
pub open spec fn is_digit(c: char) -> bool {
    '0' <= c <= '9'
}

/// The number that the digit `c` stands for.
pub open spec fn digit_value(c: char) -> int {
    c as int - '0' as int
}

/// The digit that stands for `d`, for `d` from 0 to 9.
pub open spec fn digit_char(d: int) -> char {
    (d + '0' as int) as char
}

/// Whether every character of `s` is a decimal digit.
pub open spec fn all_digits(s: Seq<char>) -> bool {
    forall|i: int| 0 <= i < s.len() ==> is_digit(#[trigger] s[i])
}

/// The number written by the digit string `s`, most significant digit first.
pub open spec fn digits_value(s: Seq<char>) -> int
    decreases s.len(),
{
    if s.len() == 0 {
        0
    } else {
        10 * digits_value(s.drop_last()) + digit_value(s.last())
    }
}

/// Whether `s` starts with a sign character.
pub open spec fn has_sign(s: Seq<char>) -> bool {
    s.len() > 0 && (s[0] == '-' || s[0] == '+')
}

/// The value of `s` read as an integer literal: an optional `+` or `-`, then one or
/// more decimal digits, the whole within the range of `i64`. `None` for any other text.
pub open spec fn literal_value(s: Seq<char>) -> Option<i64> {
    let digits = if has_sign(s) {
        s.drop_first()
    } else {
        s
    };
    let value = if has_sign(s) && s[0] == '-' {
        -digits_value(digits)
    } else {
        digits_value(digits)
    };
    if digits.len() > 0 && all_digits(digits) && i64::MIN <= value <= i64::MAX {
        Some(value as i64)
    } else {
        None
    }
}

/// The decimal digits of `n`, without leading zeros (a single `0` for zero).
pub open spec fn decimal_digits(n: nat) -> Seq<char>
    decreases n,
{
    if n < 10 {
        seq![digit_char(n as int)]
    } else {
        decimal_digits(n / 10).push(digit_char((n % 10) as int))
    }
}

/// The decimal text of `v`: a `-` for a negative value, then its digits.
pub open spec fn decimal(v: int) -> Seq<char> {
    if v < 0 {
        seq!['-'] + decimal_digits((-v) as nat)
    } else {
        decimal_digits(v as nat)
    }
}

/// A digit string is worth at least as much as each of its prefixes.
proof fn lemma_prefix_value(s: Seq<char>, k: int)
    requires
        all_digits(s),
        0 <= k <= s.len(),
    ensures
        0 <= digits_value(s.take(k)) <= digits_value(s),
    decreases s.len(),
{
    if s.len() == 0 {
    } else if k == s.len() {
        assert(s.take(k) == s);
        lemma_prefix_value(s.drop_last(), k - 1);
    } else {
        lemma_prefix_value(s.drop_last(), k);
        assert(s.drop_last().take(k) == s.take(k));
    }
}

/// The decimal digits of a number are digits, and spell that number.
pub proof fn lemma_decimal_digits(n: nat)
    ensures
        decimal_digits(n).len() > 0,
        all_digits(decimal_digits(n)),
        digits_value(decimal_digits(n)) == n,
    decreases n,
{
    if n >= 10 {
        lemma_decimal_digits(n / 10);
        let shorter = decimal_digits(n / 10);
        let last = digit_char((n % 10) as int);
        assert(shorter.push(last).drop_last() == shorter);
    } else {
        let only = digit_char(n as int);
        assert(seq![only].drop_last() == Seq::<char>::empty());
        assert(digits_value(Seq::<char>::empty()) == 0);
    }
}

/// Reading what was written gives the value back: the decimal text of any `i64`
/// is a literal of that value.
pub proof fn law_decimal_reads_back(v: i64)
    ensures
        literal_value(decimal(v as int)) == Some(v),
{
    if v < 0 {
        let digits = decimal_digits((-v) as nat);
        lemma_decimal_digits((-v) as nat);
        assert((seq!['-'] + digits).drop_first() == digits);
    } else {
        lemma_decimal_digits(v as nat);
    }
}

/// Reads `s` as an integer literal.
pub fn parse_integer(s: &[char]) -> (value: Option<i64>)
    ensures
        value == literal_value(s@),
{
    let n = s.len();
    let signed = n > 0 && (s[0] == '-' || s[0] == '+');
    let negative = signed && s[0] == '-';
    let start: usize = if signed {
        1
    } else {
        0
    };
    let ghost digits = if signed {
        s@.drop_first()
    } else {
        s@
    };
    if start == n {
        return None;
    }
    let bound: i128 = if negative {
        9223372036854775808
    } else {
        9223372036854775807
    };
    let mut total: i128 = 0;
    let mut at: usize = start;
    while at < n
        invariant
            start <= at <= n,
            n == s@.len(),
            signed == has_sign(s@),
            negative == (signed && s@[0] == '-'),
            digits == if signed { s@.drop_first() } else { s@ },
            digits == s@.skip(start as int),
            bound == if negative { 9223372036854775808int } else { 9223372036854775807int },
            all_digits(digits.take(at - start)),
            total == digits_value(digits.take(at - start)),
            0 <= total <= bound,
        decreases n - at,
    {
        let c = s[at];
        let ghost seen = digits.take(at - start);
        let ghost more = digits.take(at - start + 1);
        assert(more.drop_last() == seen);
        if !('0' <= c && c <= '9') {
            return None;
        }
        let digit: i128 = (c as u32 - '0' as u32) as i128;
        let next: i128 = total * 10 + digit;
        if next > bound {
            proof {
                if all_digits(digits) {
                    lemma_prefix_value(digits, at - start + 1);
                }
            }
            return None;
        }
        assert forall|i: int| 0 <= i < more.len() implies is_digit(#[trigger] more[i]) by {
            if i < seen.len() {
            }
        }
        total = next;
        at += 1;
    }
    assert(digits.take(n - start) == digits);
    if negative {
        Some((-total) as i64)
    } else {
        Some(total as i64)
    }
}

/// Appends the decimal digits of `n` to `out`.
fn push_digits(n: u64, out: &mut Vec<char>)
    ensures
        final(out)@ == old(out)@ + decimal_digits(n as nat),
    decreases n,
{
    if n >= 10 {
        push_digits(n / 10, out);
    }
    let digit: u8 = (n % 10) as u8;
    let c: char = (48u8 + digit) as char;
    out.push(c);
}

/// Appends the decimal text of `v` to `out`.
pub fn render_integer(v: i64, out: &mut Vec<char>)
    ensures
        final(out)@ == old(out)@ + decimal(v as int),
{
    if v < 0 {
        out.push('-');
        let magnitude: u64 = if v == i64::MIN {
            9223372036854775808
        } else {
            (-v) as u64
        };
        push_digits(magnitude, out);
    } else {
        push_digits(v as u64, out);
    }
}

} // verus!
