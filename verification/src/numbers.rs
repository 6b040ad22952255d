//! Decimal formatting and parsing of integers, as `Display` and `FromStr`
//! do it for the primitive integer types.

use vstd::prelude::*;
use crate::text::{char_from_u32_ascii, extend_chars, to_chars};

verus! {

/// The ASCII digit for `d` (`0 <= d < 10`).
pub open spec fn digit_char(d: int) -> char {
    (48 + d) as char
}

/// Whether `c` is an ASCII decimal digit.
pub open spec fn is_digit(c: char) -> bool {
    '0' <= c <= '9'
}

/// The decimal digits of a natural number, most significant first, without
/// leading zeros (`"0"` for zero).
pub open spec fn nat_digits(n: nat) -> Seq<char>
    decreases n,
{
    if n < 10 {
        seq![digit_char(n as int)]
    } else {
        nat_digits(n / 10).push(digit_char((n % 10) as int))
    }
}

/// `Display` of an integer: an optional minus sign and its digits.
pub open spec fn decimal(n: int) -> Seq<char> {
    if n < 0 {
        seq!['-'] + nat_digits((-n) as nat)
    } else {
        nat_digits(n as nat)
    }
}

/// `format!("{:02}", n)`: zero-padded to at least two characters.
pub open spec fn decimal_pad2(n: int) -> Seq<char> {
    if 0 <= n < 10 {
        seq!['0'] + decimal(n)
    } else {
        decimal(n)
    }
}

/// The digits of `n`.
pub fn u64_digits(n: u64) -> (r: Vec<char>)
    ensures
        r@ == nat_digits(n as nat),
    decreases n,
{
    if n < 10 {
        let mut r: Vec<char> = Vec::new();
        r.push(char_from_u32_ascii(48 + n as u32));
        r
    } else {
        let mut r = u64_digits(n / 10);
        r.push(char_from_u32_ascii(48 + (n % 10) as u32));
        r
    }
}

/// `i64::to_string` as characters.
pub fn fmt_i64(n: i64) -> (r: Vec<char>)
    ensures
        r@ == decimal(n as int),
{
    if n < 0 {
        let m: u64 = if n == i64::MIN {
            9223372036854775808u64
        } else {
            (-n) as u64
        };
        let d = u64_digits(m);
        let mut r: Vec<char> = Vec::new();
        r.push('-');
        extend_chars(&mut r, &d);
        r
    } else {
        u64_digits(n as u64)
    }
}

/// `format!("{:02}", n)` as characters.
pub fn fmt_i64_pad2(n: i64) -> (r: Vec<char>)
    ensures
        r@ == decimal_pad2(n as int),
{
    let d = fmt_i64(n);
    if 0 <= n && n < 10 {
        let mut r: Vec<char> = Vec::new();
        r.push('0');
        extend_chars(&mut r, &d);
        r
    } else {
        d
    }
}

/// The value of a sequence of decimal digits.
pub open spec fn digits_value(s: Seq<char>) -> int
    decreases s.len(),
{
    if s.len() == 0 {
        0
    } else {
        digits_value(s.drop_last()) * 10 + (s.last() as int - 48)
    }
}

/// Whether every character of `s` is a decimal digit.
pub open spec fn all_digits(s: Seq<char>) -> bool {
    forall|i: int| 0 <= i < s.len() ==> is_digit(#[trigger] s[i])
}

/// The sign and digit part of a number: a leading `-` or `+` is split off.
pub open spec fn sign_split(s: Seq<char>) -> (bool, Seq<char>) {
    if s.len() > 0 && s[0] == '-' {
        (true, s.drop_first())
    } else if s.len() > 0 && s[0] == '+' {
        (false, s.drop_first())
    } else {
        (false, s)
    }
}

/// `str::parse::<i64>().ok()`: an optional sign followed by at least one
/// digit, whose value fits in an `i64`.
pub open spec fn parse_i64(s: Seq<char>) -> Option<i64> {
    let (neg, ds) = sign_split(s);
    if ds.len() == 0 || !all_digits(ds) {
        None
    } else {
        let v = if neg {
            -digits_value(ds)
        } else {
            digits_value(ds)
        };
        if i64::MIN <= v <= i64::MAX {
            Some(v as i64)
        } else {
            None
        }
    }
}

/// The value of digits never decreases as more digits follow.
pub proof fn lemma_digits_value_grows(s: Seq<char>, k: int)
    requires
        all_digits(s),
        0 <= k <= s.len(),
    ensures
        digits_value(s.take(k)) <= digits_value(s),
        0 <= digits_value(s.take(k)),
    decreases s.len(),
{
    if s.len() == 0 {
        assert(s.take(k) == s);
    } else if k == s.len() {
        assert(s.take(k) == s);
        lemma_digits_value_nonneg(s);
    } else {
        let t = s.drop_last();
        assert(all_digits(t)) by {
            assert forall|i: int| 0 <= i < t.len() implies is_digit(#[trigger] t[i]) by {
                assert(t[i] == s[i]);
            }
        }
        lemma_digits_value_grows(t, k);
        assert(t.take(k) == s.take(k));
        assert(is_digit(s[s.len() - 1]));
        lemma_digits_value_nonneg(t);
    }
}

/// Digit values are never negative.
pub proof fn lemma_digits_value_nonneg(s: Seq<char>)
    requires
        all_digits(s),
    ensures
        digits_value(s) >= 0,
    decreases s.len(),
{
    if s.len() > 0 {
        let t = s.drop_last();
        assert(all_digits(t)) by {
            assert forall|i: int| 0 <= i < t.len() implies is_digit(#[trigger] t[i]) by {
                assert(t[i] == s[i]);
            }
        }
        lemma_digits_value_nonneg(t);
        assert(is_digit(s[s.len() - 1]));
    }
}

/// Executable `parse_i64`.
pub fn parse_i64_chars(v: &Vec<char>) -> (r: Option<i64>)
    ensures
        r == parse_i64(v@),
{
    if v.len() == 0 {
        return None;
    }
    let (neg, start): (bool, usize) = if v[0] == '-' {
        (true, 1)
    } else if v[0] == '+' {
        (false, 1)
    } else {
        (false, 0)
    };
    let ghost ds = sign_split(v@).1;
    assert(ds == v@.subrange(start as int, v@.len() as int));
    if start == v.len() {
        return None;
    }
    let bound: u64 = 9223372036854775808u64;
    let mut acc: u64 = 0;
    let mut i: usize = start;
    while i < v.len()
        invariant
            start <= i <= v.len(),
            ds == v@.subrange(start as int, v@.len() as int),
            all_digits(ds.take(i - start)),
            acc as int == digits_value(ds.take(i - start)),
            acc <= bound,
            bound == 9223372036854775808u64,
            sign_split(v@) == (neg, ds),
            ds.len() > 0,
        decreases v.len() - i,
    {
        let c = v[i];
        let ghost k = (i - start) as int;
        assert(ds.take(k + 1).drop_last() == ds.take(k));
        assert(ds.take(k + 1).last() == c);
        if !('0' <= c && c <= '9') {
            assert(!is_digit(ds[k]));
            return None;
        }
        let d: u64 = (c as u32 - 48) as u64;
        if acc > (bound - d) / 10 {
            proof {
                assert(acc * 10 + d > bound) by (nonlinear_arith)
                    requires
                        acc > (bound - d) / 10,
                        d <= 9,
                        bound == 9223372036854775808u64,
                ;
                assert(digits_value(ds.take(k + 1)) > bound);
                assert(all_digits(ds.take(k + 1))) by {
                    assert forall|j: int| 0 <= j < k + 1 implies is_digit(#[trigger] ds.take(k + 1)[j]) by {
                        if j < k {
                            assert(ds.take(k + 1)[j] == ds.take(k)[j]);
                        }
                    }
                }
                if all_digits(ds) {
                    lemma_digits_value_grows(ds, k + 1);
                }
            }
            return None;
        }
        acc = acc * 10 + d;
        proof {
            assert(all_digits(ds.take(k + 1))) by {
                assert forall|j: int| 0 <= j < k + 1 implies is_digit(#[trigger] ds.take(k + 1)[j]) by {
                    if j < k {
                        assert(ds.take(k + 1)[j] == ds.take(k)[j]);
                    }
                }
            }
        }
        i += 1;
    }
    assert(ds.take(v.len() - start) == ds);
    if neg {
        if acc == bound {
            Some(i64::MIN)
        } else {
            Some(-(acc as i64))
        }
    } else {
        if acc > 9223372036854775807u64 {
            None
        } else {
            Some(acc as i64)
        }
    }
}

/// `str::parse::<i64>().ok()`.
pub fn parse_i64_str(s: &str) -> (r: Option<i64>)
    ensures
        r == parse_i64(s@),
{
    let v = to_chars(s);
    parse_i64_chars(&v)
}

/// A digit character reads back as its value.
pub proof fn lemma_digit_char_value(d: int)
    requires
        0 <= d < 10,
    ensures
        digit_char(d) as int == 48 + d,
        is_digit(digit_char(d)),
{
}

/// The digits of a natural number are digits, start with a digit and
/// spell out its value.
pub proof fn lemma_nat_digits(n: nat)
    ensures
        nat_digits(n).len() >= 1,
        all_digits(nat_digits(n)),
        digits_value(nat_digits(n)) == n,
    decreases n,
{
    if n < 10 {
        lemma_digit_char_value(n as int);
        assert(nat_digits(n).drop_last() =~= Seq::<char>::empty());
        assert(digits_value(Seq::<char>::empty()) == 0);
        assert(digits_value(nat_digits(n)) == n);
    } else {
        lemma_nat_digits(n / 10);
        let s = nat_digits(n);
        assert(s.drop_last() == nat_digits(n / 10));
        lemma_digit_char_value((n % 10) as int);
        assert(s.last() == digit_char((n % 10) as int));
        assert(digits_value(s) == digits_value(nat_digits(n / 10)) * 10 + (n % 10));
        assert((n / 10) * 10 + n % 10 == n);
        assert forall|i: int| 0 <= i < s.len() implies is_digit(#[trigger] s[i]) by {
            if i < s.len() - 1 {
                assert(s[i] == s.drop_last()[i]);
                assert(s[i] == nat_digits(n / 10)[i]);
            }
        }
    }
}

/// Reading back a formatted `i64` gives the same number.
pub proof fn lemma_parse_decimal(n: i64)
    ensures
        parse_i64(decimal(n as int)) == Some(n),
{
    let m: nat = if n < 0 {
        (-n) as nat
    } else {
        n as nat
    };
    lemma_nat_digits(m);
    let d = nat_digits(m);
    assert(is_digit(d[0]));
    if n < 0 {
        assert((seq!['-'] + d).drop_first() == d);
    }
}

} // verus!
