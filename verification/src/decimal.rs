//! Unsigned decimal numbers as text: how a number is written, and which texts
//! are read as a number.

use vstd::prelude::*;
use crate::text::to_chars;

verus! {

/// The character that stands for the digit `d`.
pub open spec fn digit_char(d: nat) -> char
    recommends
        d < 10,
{
    ((d + 48) as u8) as char
}

/// The digit that `c` stands for, if it is one of `0` to `9`.
pub open spec fn digit_value(c: char) -> Option<nat> {
    if 48 <= c as u32 <= 57 {
        Some((c as u32 - 48) as nat)
    } else {
        None
    }
}

/// `n` written in decimal, without sign or leading zeros.
pub open spec fn decimal(n: nat) -> Seq<char>
    decreases n,
{
    if n < 10 {
        seq![digit_char(n)]
    } else {
        decimal(n / 10).push(digit_char(n % 10))
    }
}

/// The number that a run of digits denotes; `None` if a character is no digit.
/// The empty run denotes zero.
pub open spec fn digits_value(s: Seq<char>) -> Option<nat>
    decreases s.len(),
{
    if s.len() == 0 {
        Some(0)
    } else {
        match (digits_value(s.drop_last()), digit_value(s.last())) {
            (Some(high), Some(d)) => Some(10 * high + d),
            _ => None,
        }
    }
}

/// The number that `s` is read as: an optional `+`, then one or more digits
/// whose value fits in 64 bits. Anything else is not a number.
pub open spec fn parse_u64(s: Seq<char>) -> Option<u64> {
    let digits = if s.len() >= 1 && s[0] == '+' {
        s.drop_first()
    } else {
        s
    };
    if digits.len() == 0 {
        None
    } else {
        match digits_value(digits) {
            Some(v) => if v <= u64::MAX {
                Some(v as u64)
            } else {
                None
            },
            None => None,
        }
    }
}

/// Whether every character of `s` is a digit.
pub open spec fn all_digits(s: Seq<char>) -> bool {
    forall|i: int| 0 <= i < s.len() ==> digit_value(#[trigger] s[i]) is Some
}

/// A digit's character denotes that digit.
pub proof fn lemma_digit_round_trip(d: nat)
    requires
        d < 10,
    ensures
        digit_value(digit_char(d)) == Some(d),
{
    let b = (d + 48) as u8;
    assert(48 <= b <= 57);
    assert((b as char) as u32 == b as u32);
}

/// What `decimal` writes is a non-empty run of digits that denotes the number
/// written.
pub proof fn lemma_decimal_digits(n: nat)
    ensures
        decimal(n).len() >= 1,
        all_digits(decimal(n)),
        digits_value(decimal(n)) == Some(n),
    decreases n,
{
    if n < 10 {
        lemma_digit_round_trip(n);
        let s = decimal(n);
        assert(s.drop_last() == Seq::<char>::empty());
        assert(digits_value(s.drop_last()) == Some(0nat));
    } else {
        lemma_decimal_digits(n / 10);
        lemma_digit_round_trip(n % 10);
        let s = decimal(n);
        assert(s.drop_last() == decimal(n / 10));
        assert(s.last() == digit_char(n % 10));
        assert forall|i: int| 0 <= i < s.len() implies digit_value(#[trigger] s[i]) is Some by {
            if i < s.len() - 1 {
                assert(s[i] == decimal(n / 10)[i]);
            }
        }
    }
}

/// Reading what `decimal` wrote gives the number back.
pub proof fn lemma_parse_decimal(n: u64)
    ensures
        parse_u64(decimal(n as nat)) == Some(n),
{
    lemma_decimal_digits(n as nat);
    let s = decimal(n as nat);
    assert(digit_value(s[0]) is Some);
    assert(s[0] != '+');
}

/// A run of digits holds no character that is not a digit.
pub proof fn lemma_digits_exclude(s: Seq<char>, c: char)
    requires
        all_digits(s),
        digit_value(c) is None,
    ensures
        !s.contains(c),
{
    if s.contains(c) {
        let i = choose|i: int| 0 <= i < s.len() && s[i] == c;
        assert(digit_value(s[i]) is Some);
    }
}

/// The value of a run of digits is at least the value of each of its prefixes.
pub proof fn lemma_digits_prefix(s: Seq<char>, k: int)
    requires
        0 <= k <= s.len(),
        digits_value(s) is Some,
    ensures
        digits_value(s.take(k)) is Some,
        digits_value(s.take(k))->0 <= digits_value(s)->0,
    decreases s.len(),
{
    if k == s.len() {
        assert(s.take(k) == s);
    } else {
        lemma_digits_prefix(s.drop_last(), k);
        assert(s.drop_last().take(k) == s.take(k));
    }
}

/// The one-character text of the digit `d`.
fn digit_text(d: u64) -> (r: &'static str)
    requires
        d < 10,
    ensures
        r@ == seq![digit_char(d as nat)],
{
    proof {
        reveal_strlit("0123456789");
    }
    let all = "0123456789";
    let r = all.substring_char(d as usize, d as usize + 1);
    assert(r@ == seq![all@[d as int]]);
    r
}

/// Writes `n` in decimal.
pub fn render_decimal(n: u64) -> (r: String)
    ensures
        r@ == decimal(n as nat),
    decreases n,
{
    if n < 10 {
        let mut r = String::new();
        r.append(digit_text(n));
        assert(r@ == seq![digit_char(n as nat)]);
        r
    } else {
        let mut r = render_decimal(n / 10);
        r.append(digit_text(n % 10));
        assert(r@ == decimal(n as nat / 10).push(digit_char(n as nat % 10)));
        r
    }
}

/// Reads `s` as an unsigned decimal number.
pub fn parse_decimal(s: &str) -> (r: Option<u64>)
    ensures
        r == parse_u64(s@),
{
    let x = to_chars(s);
    let first: usize = if x.len() >= 1 && x[0] == '+' {
        1
    } else {
        0
    };
    if x.len() == first {
        return None;
    }
    let ghost digits = s@.subrange(first as int, s@.len() as int);
    assert(digits == if s@.len() >= 1 && s@[0] == '+' {
        s@.drop_first()
    } else {
        s@
    });
    let mut value: u64 = 0;
    let mut i: usize = first;
    assert(digits.take(0) == Seq::<char>::empty());
    while i < x.len()
        invariant
            first <= i <= x.len(),
            x@ == s@,
            digits == s@.subrange(first as int, s@.len() as int),
            digits.len() >= 1,
            digits == if s@.len() >= 1 && s@[0] == '+' {
                s@.drop_first()
            } else {
                s@
            },
            digits_value(digits.take(i - first)) == Some(value as nat),
        decreases x.len() - i,
    {
        let c = x[i];
        let ghost here = digits.take(i - first + 1);
        proof {
            assert(here.drop_last() == digits.take(i - first));
            assert(here.last() == c);
            if digits_value(digits) is Some {
                lemma_digits_prefix(digits, i - first + 1);
            }
        }
        let code: u32 = c as u32;
        if code < 48 || code > 57 {
            assert(digit_value(c) is None);
            return None;
        }
        let d: u64 = (code - 48) as u64;
        assert(digit_value(c) == Some(d as nat));
        let next = match value.checked_mul(10) {
            Some(v) => v.checked_add(d),
            None => None,
        };
        match next {
            Some(v) => {
                value = v;
            },
            None => {
                return None;
            },
        }
        i += 1;
    }
    assert(digits.take(i - first) == digits);
    Some(value)
}

} // verus!
