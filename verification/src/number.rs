//! Decimal text of integers: formatting (`Display` for `i64`) and parsing
//! (`FromStr` for `i64`).

use vstd::prelude::*;

verus! {

/// The value of an ASCII decimal digit, if `c` is one (`char::to_digit(10)`).
pub open spec fn digit_value(c: char) -> Option<nat> {
    if c == '0' {
        Some(0)
    } else if c == '1' {
        Some(1)
    } else if c == '2' {
        Some(2)
    } else if c == '3' {
        Some(3)
    } else if c == '4' {
        Some(4)
    } else if c == '5' {
        Some(5)
    } else if c == '6' {
        Some(6)
    } else if c == '7' {
        Some(7)
    } else if c == '8' {
        Some(8)
    } else if c == '9' {
        Some(9)
    } else {
        None
    }
}

/// The ASCII character of the decimal digit `d` (for `d < 10`).
pub open spec fn digit_char(d: nat) -> char {
    if d == 0 {
        '0'
    } else if d == 1 {
        '1'
    } else if d == 2 {
        '2'
    } else if d == 3 {
        '3'
    } else if d == 4 {
        '4'
    } else if d == 5 {
        '5'
    } else if d == 6 {
        '6'
    } else if d == 7 {
        '7'
    } else if d == 8 {
        '8'
    } else {
        '9'
    }
}

/// The decimal digits of `n`, most significant first, without leading zeros.
pub open spec fn decimal_nat(n: nat) -> Seq<char>
    decreases n,
{
    if n < 10 {
        seq![digit_char(n)]
    } else {
        decimal_nat(n / 10).push(digit_char(n % 10))
    }
}

/// The decimal text of `n`, with a leading `-` when it is negative.
pub open spec fn decimal(n: int) -> Seq<char> {
    if n < 0 {
        seq!['-'] + decimal_nat((-n) as nat)
    } else {
        decimal_nat(n as nat)
    }
}

/// Whether every character of `s` is an ASCII decimal digit.
pub open spec fn all_digits(s: Seq<char>) -> bool {
    forall|i: int| 0 <= i < s.len() ==> (#[trigger] digit_value(s[i])) is Some
}

/// The number that the digits `s` spell in base 10.
pub open spec fn digits_value(s: Seq<char>) -> nat
    decreases s.len(),
{
    if s.len() == 0 {
        0
    } else {
        digits_value(s.drop_last()) * 10 + match digit_value(s.last()) {
            Some(d) => d,
            None => 0,
        }
    }
}

/// What `s.parse::<i64>()` gives: an optional `+` or `-` followed by at least one
/// decimal digit and nothing else, whose value lies in the range of `i64`.
pub open spec fn parse_i64(s: Seq<char>) -> Option<i64> {
    let negative = s.len() > 0 && s[0] == '-';
    let signed = s.len() > 0 && (s[0] == '-' || s[0] == '+');
    let digits = if signed {
        s.drop_first()
    } else {
        s
    };
    if digits.len() == 0 || !all_digits(digits) {
        None
    } else {
        let v: int = if negative {
            -digits_value(digits)
        } else {
            digits_value(digits) as int
        };
        if i64::MIN <= v <= i64::MAX {
            Some(v as i64)
        } else {
            None
        }
    }
}

/// Digits never lose value as more of them follow.
pub proof fn lemma_digits_value_prefix(s: Seq<char>, i: int)
    requires
        0 <= i <= s.len(),
    ensures
        digits_value(s.take(i)) <= digits_value(s),
    decreases s.len(),
{
    if i < s.len() {
        lemma_digits_value_prefix(s.drop_last(), i);
        assert(s.drop_last().take(i) =~= s.take(i));
    } else {
        assert(s.take(i) =~= s);
    }
}

proof fn lemma_digit_char_value(d: nat)
    requires
        d < 10,
    ensures
        digit_value(digit_char(d)) == Some(d),
{
}

proof fn lemma_decimal_nat(m: nat)
    ensures
        decimal_nat(m).len() > 0,
        all_digits(decimal_nat(m)),
        digits_value(decimal_nat(m)) == m,
    decreases m,
{
    if m < 10 {
        lemma_digit_char_value(m);
        assert(decimal_nat(m).drop_last() =~= Seq::<char>::empty());
        assert(digits_value(Seq::<char>::empty()) == 0);
        assert(digits_value(decimal_nat(m)) == digits_value(decimal_nat(m).drop_last()) * 10 + m);
    } else {
        lemma_decimal_nat(m / 10);
        lemma_digit_char_value(m % 10);
        let s = decimal_nat(m);
        assert(s.drop_last() =~= decimal_nat(m / 10));
        assert(s.last() == digit_char(m % 10));
        assert(digits_value(s) == digits_value(s.drop_last()) * 10 + (m % 10));
        assert((m / 10) * 10 + m % 10 == m);
        assert forall|i: int| 0 <= i < s.len() implies (#[trigger] digit_value(s[i])) is Some by {
            if i < s.len() - 1 {
                assert(s[i] == decimal_nat(m / 10)[i]);
            }
        }
    }
}

/// Parsing gives back what formatting wrote: the decimal text of any `i64` parses to
/// that same number.
pub proof fn law_parse_reads_decimal(n: i64)
    ensures
        parse_i64(decimal(n as int)) == Some(n),
{
    if n < 0 {
        let m = (-(n as int)) as nat;
        lemma_decimal_nat(m);
        let s = decimal(n as int);
        assert(s =~= seq!['-'] + decimal_nat(m));
        assert(s.drop_first() =~= decimal_nat(m));
    } else {
        let m = n as nat;
        lemma_decimal_nat(m);
        let d = decimal_nat(m);
        assert(digit_value(d[0]) is Some);
    }
}

/// The characters of a decimal text: a leading `-` at most, then digits; it is never
/// empty and ends with a digit.
pub proof fn lemma_decimal_chars(n: int)
    ensures
        decimal(n).len() > 0,
        digit_value(decimal(n).last()) is Some,
        forall|i: int|
            0 <= i < decimal(n).len() ==> (i == 0 && decimal(n)[i] == '-') || (#[trigger] digit_value(
                decimal(n)[i],
            )) is Some,
{
    if n < 0 {
        let m = (-n) as nat;
        lemma_decimal_nat(m);
        let d = decimal_nat(m);
        assert(decimal(n) =~= seq!['-'] + d);
        assert forall|i: int| 0 <= i < decimal(n).len() implies (i == 0 && decimal(n)[i] == '-')
            || (#[trigger] digit_value(decimal(n)[i])) is Some by {
            if i > 0 {
                assert(decimal(n)[i] == d[i - 1]);
            }
        }
        assert(decimal(n).last() == d.last());
    } else {
        lemma_decimal_nat(n as nat);
    }
}

fn digit_to_char(d: u64) -> (c: char)
    requires
        d < 10,
    ensures
        c == digit_char(d as nat),
        digit_value(c) == Some(d as nat),
{
    match d {
        0 => '0',
        1 => '1',
        2 => '2',
        3 => '3',
        4 => '4',
        5 => '5',
        6 => '6',
        7 => '7',
        8 => '8',
        _ => '9',
    }
}

fn char_to_digit(c: char) -> (r: Option<u64>)
    ensures
        match r {
            Some(d) => digit_value(c) == Some(d as nat) && d < 10,
            None => digit_value(c) is None,
        },
{
    match c {
        '0' => Some(0),
        '1' => Some(1),
        '2' => Some(2),
        '3' => Some(3),
        '4' => Some(4),
        '5' => Some(5),
        '6' => Some(6),
        '7' => Some(7),
        '8' => Some(8),
        '9' => Some(9),
        _ => None,
    }
}

/// The decimal digits of `n`.
pub fn decimal_nat_chars(n: u64) -> (v: Vec<char>)
    ensures
        v@ == decimal_nat(n as nat),
    decreases n,
{
    if n < 10 {
        let mut v: Vec<char> = Vec::new();
        v.push(digit_to_char(n));
        assert(v@ =~= seq![digit_char(n as nat)]);
        v
    } else {
        let mut v = decimal_nat_chars(n / 10);
        v.push(digit_to_char(n % 10));
        v
    }
}

/// The decimal text of `n` (`n.to_string()`).
pub fn decimal_chars(n: i64) -> (v: Vec<char>)
    ensures
        v@ == decimal(n as int),
{
    if n < 0 {
        let magnitude: u64 = if n == i64::MIN {
            9223372036854775808u64
        } else {
            (-n) as u64
        };
        let mut v: Vec<char> = Vec::new();
        v.push('-');
        let digits = decimal_nat_chars(magnitude);
        crate::text::append_chars(&mut v, &digits);
        assert(v@ =~= seq!['-'] + decimal_nat((-(n as int)) as nat));
        v
    } else {
        decimal_nat_chars(n as u64)
    }
}

/// `s` parsed as an `i64` (`s.parse::<i64>().ok()`).
pub fn parse_i64_chars(s: &Vec<char>) -> (r: Option<i64>)
    ensures
        r == parse_i64(s@),
{
    let negative = s.len() > 0 && s[0] == '-';
    let signed = s.len() > 0 && (s[0] == '-' || s[0] == '+');
    let start: usize = if signed {
        1
    } else {
        0
    };
    let ghost digits = if signed {
        s@.drop_first()
    } else {
        s@
    };
    assert(digits =~= s@.subrange(start as int, s.len() as int));
    if start == s.len() {
        return None;
    }
    let limit: u128 = 9223372036854775808u128;
    let mut acc: u128 = 0;
    let mut i: usize = start;
    while i < s.len()
        invariant
            start <= i <= s.len(),
            negative == (s.len() > 0 && s@[0] == '-'),
            signed == (s.len() > 0 && (s@[0] == '-' || s@[0] == '+')),
            start == (if signed { 1usize } else { 0usize }),
            digits == (if signed { s@.drop_first() } else { s@ }),
            digits =~= s@.subrange(start as int, s.len() as int),
            acc <= limit,
            limit == 9223372036854775808u128,
            acc == digits_value(digits.take(i - start)),
            all_digits(digits.take(i - start)),
        decreases s.len() - i,
    {
        let k: usize = i - start;
        match char_to_digit(s[i]) {
            None => {
                assert(digits[k as int] == s@[i as int]);
                assert(!all_digits(digits));
                return None;
            },
            Some(d) => {
                assert(digits.take(k + 1).drop_last() =~= digits.take(k as int));
                assert(digits.take(k + 1).last() == s@[i as int]);
                let next: u128 = acc * 10 + d as u128;
                assert(next == digits_value(digits.take(k + 1)));
                assert(all_digits(digits.take(k + 1))) by {
                    assert forall|j: int| 0 <= j < k + 1 implies (#[trigger] digit_value(
                        digits.take(k + 1)[j],
                    )) is Some by {
                        if j < k {
                            assert(digits.take(k + 1)[j] == digits.take(k as int)[j]);
                        }
                    }
                }
                if next > limit {
                    proof {
                        lemma_digits_value_prefix(digits, k + 1);
                    }
                    return None;
                }
                acc = next;
            },
        }
        i = i + 1;
    }
    assert(digits.take(digits.len() as int) =~= digits);
    if negative {
        if acc == limit {
            Some(i64::MIN)
        } else {
            Some(-(acc as i64))
        }
    } else {
        if acc == limit {
            None
        } else {
            Some(acc as i64)
        }
    }
}

} // verus!
