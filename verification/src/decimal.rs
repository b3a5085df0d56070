use vstd::prelude::*;
use vstd::std_specs::iter::IteratorSpec;

verus! {

/// Whether `c` is one of the ten ASCII digits.
pub open spec fn is_digit(c: char) -> bool {
    '0' <= c <= '9'
}

/// The number that a digit stands for.
pub open spec fn digit_value(c: char) -> nat
    recommends
        is_digit(c),
{
    (c as int - '0' as int) as nat
}

/// Whether every character of `s` is a digit.
pub open spec fn all_digits(s: Seq<char>) -> bool {
    forall|i: int| 0 <= i < s.len() ==> is_digit(#[trigger] s[i])
}

/// The number that a run of digits denotes in base ten; leading zeros count
/// for nothing and the empty run denotes zero.
pub open spec fn digits_value(s: Seq<char>) -> nat
    decreases s.len(),
{
    if s.len() == 0 {
        0
    } else {
        10 * digits_value(s.drop_last()) + digit_value(s.last())
    }
}

/// The digits of an unsigned number's text: the text itself, without the one
/// plus sign that may stand in front.
pub open spec fn unsigned_digits(s: Seq<char>) -> Seq<char> {
    if s.len() > 0 && s[0] == '+' {
        s.skip(1)
    } else {
        s
    }
}

/// What `s` denotes as an unsigned decimal number no greater than `max`:
/// an optional plus sign, then one or more digits and nothing else.
pub open spec fn parsed_unsigned(s: Seq<char>, max: nat) -> Option<nat> {
    let digits = unsigned_digits(s);
    if digits.len() > 0 && all_digits(digits) && digits_value(digits) <= max {
        Some(digits_value(digits))
    } else {
        None
    }
}

/// A run of digits denotes at least as much as any of its initial parts.
pub proof fn lemma_digits_value_grows(s: Seq<char>, k: int)
    requires
        0 <= k <= s.len(),
    ensures
        digits_value(s.take(k)) <= digits_value(s),
    decreases s.len(),
{
    if k == s.len() {
        assert(s.take(k) =~= s);
    } else {
        lemma_digits_value_grows(s.drop_last(), k);
        assert(s.drop_last().take(k) =~= s.take(k));
    }
}

/// The digit that stands for a number below ten.
pub open spec fn digit_char(d: nat) -> char
    recommends
        d < 10,
{
    ('0' as int + d) as char
}

/// A number written in base ten, without sign or leading zeros.
pub open spec fn decimal(n: nat) -> Seq<char>
    decreases n,
{
    if n < 10 {
        seq![digit_char(n)]
    } else {
        decimal(n / 10).push(digit_char(n % 10))
    }
}

/// Writes `n` in base ten at the end of `out`.
pub fn push_decimal(out: &mut String, n: u32)
    ensures
        final(out)@ == old(out)@ + decimal(n as nat),
    decreases n,
{
    if n >= 10 {
        push_decimal(out, n / 10);
    }
    let digit: u8 = (n % 10) as u8;
    let c: char = (48 + digit) as char;
    out.push(c);
    proof {
        assert(c == digit_char((n % 10) as nat));
        if n >= 10 {
            assert(old(out)@ + decimal((n / 10) as nat).push(c) =~= (old(out)@ + decimal(
                (n / 10) as nat,
            )).push(c));
        } else {
            assert(old(out)@ + seq![c] =~= old(out)@.push(c));
        }
    }
}

/// The number that `c` stands for, if it is a digit.
pub fn digit_of(c: char) -> (digit: Option<u32>)
    ensures
        is_digit(c) ==> digit == Some(digit_value(c) as u32),
        !is_digit(c) ==> digit is None,
{
    if '0' <= c && c <= '9' {
        Some(c as u32 - '0' as u32)
    } else {
        None
    }
}

/// Reads an unsigned decimal number no greater than `max`.
pub fn parse_unsigned(text: &str, max: u32) -> (number: Option<u32>)
    ensures
        match parsed_unsigned(text@, max as nat) {
            Some(n) => number == Some(n as u32),
            None => number is None,
        },
{
    let ghost digits = unsigned_digits(text@);
    let mut chars = text.chars();
    let mut probe = text.chars();
    if let Some(first) = probe.next() {
        if first == '+' {
            chars = probe;
        }
    }
    let mut value: u32 = 0;
    let mut any: bool = false;
    let ghost mut seen: int = 0;
    loop
        invariant
            digits == unsigned_digits(text@),
            0 <= seen <= digits.len(),
            chars.obeys_prophetic_iter_laws(),
            chars.remaining() == digits.skip(seen),
            all_digits(digits.take(seen)),
            value == digits_value(digits.take(seen)),
            value <= max,
            any == (seen > 0),
        decreases digits.len() - seen,
    {
        match chars.next() {
            None => {
                proof {
                    assert(digits.take(seen) =~= digits);
                }
                return if any {
                    Some(value)
                } else {
                    None
                };
            },
            Some(c) => {
                assert(c == digits[seen]);
                let digit: u32 = match digit_of(c) {
                    Some(d) => d,
                    None => {
                        return None;
                    },
                };
                let grown: u64 = value as u64 * 10 + digit as u64;
                proof {
                    assert(digits.take(seen + 1).drop_last() =~= digits.take(seen));
                    assert(digits.take(seen + 1).last() == c);
                    assert(grown == digits_value(digits.take(seen + 1)));
                    assert(digits.skip(seen).drop_first() =~= digits.skip(seen + 1));
                }
                if grown > max as u64 {
                    proof {
                        lemma_digits_value_grows(digits, seen + 1);
                    }
                    return None;
                }
                value = grown as u32;
                any = true;
                proof {
                    assert forall|i: int| 0 <= i < seen + 1 implies is_digit(
                        #[trigger] digits.take(seen + 1)[i],
                    ) by {
                        if i < seen {
                            assert(digits.take(seen)[i] == digits.take(seen + 1)[i]);
                        }
                    }
                    seen = seen + 1;
                }
            },
        }
    }
}

} // verus!
