//! Decimal parsing of unsigned integers, as `str::parse::<uN>` does it:
//! an optional leading `+`, then one or more ASCII digits, and a value that
//! fits the target type.
use vstd::prelude::*;

verus! {

/// Whether `c` is an ASCII decimal digit.
pub open spec fn is_digit(c: char) -> bool {
    '0' <= c && c <= '9'
}

/// The value of an ASCII digit.
pub open spec fn digit_value(c: char) -> nat {
    (c as u32 - '0' as u32) as nat
}

/// The value of a run of decimal digits, most significant first.
pub open spec fn digits_value(s: Seq<char>) -> nat
    decreases s.len(),
{
    if s.len() == 0 {
        0
    } else {
        digits_value(s.drop_last()) * 10 + digit_value(s.last())
    }
}

/// The digits part of an unsigned decimal literal (an optional `+` removed).
pub open spec fn unsigned_digits(s: Seq<char>) -> Seq<char> {
    if s.len() > 0 && s[0] == '+' {
        s.drop_first()
    } else {
        s
    }
}

/// The value of an unsigned decimal literal no larger than `max`, or `None`.
pub open spec fn parse_unsigned(s: Seq<char>, max: nat) -> Option<nat> {
    let d = unsigned_digits(s);
    if d.len() > 0 && (forall|i: int| 0 <= i < d.len() ==> is_digit(d[i])) && digits_value(d)
        <= max {
        Some(digits_value(d))
    } else {
        None
    }
}

/// Appending digits never makes the value smaller.
proof fn lemma_digits_value_grows(s: Seq<char>, k: int)
    requires
        0 <= k <= s.len(),
        forall|i: int| 0 <= i < s.len() ==> is_digit(s[i]),
    ensures
        digits_value(s.subrange(0, k)) <= digits_value(s),
    decreases s.len() - k,
{
    if k < s.len() {
        assert(s.drop_last() == s.subrange(0, s.len() - 1));
        lemma_digits_value_grows(s.drop_last(), k);
        assert(s.drop_last().subrange(0, k) == s.subrange(0, k));
    } else {
        assert(s.subrange(0, k) == s);
    }
}

/// Parses an unsigned decimal literal whose value must not exceed `max`.
pub fn parse_unsigned_chars(s: &[char], max: u64) -> (r: Option<u64>)
    ensures
        match parse_unsigned(s@, max as nat) {
            Some(v) => r == Some(v as u64),
            None => r is None,
        },
{
    let start: usize = if s.len() > 0 && s[0] == '+' {
        1
    } else {
        0
    };
    let ghost d = unsigned_digits(s@);
    assert(d == s@.subrange(start as int, s@.len() as int));
    if start >= s.len() {
        return None;
    }
    let mut acc: u64 = 0;
    let mut i = start;
    while i < s.len()
        invariant
            start <= i <= s@.len(),
            start < s@.len(),
            d == s@.subrange(start as int, s@.len() as int),
            forall|j: int| 0 <= j < i - start ==> is_digit(d[j]),
            acc as nat == digits_value(d.subrange(0, i - start)),
            acc <= max,
            start == (if s@.len() > 0 && s@[0] == '+' {
                1int
            } else {
                0int
            }),
        decreases s.len() - i,
    {
        let c = s[i];
        assert(c == d[i - start]);
        if !('0' <= c && c <= '9') {
            assert(!is_digit(d[i - start]));
            return None;
        }
        let digit: u64 = (c as u32 - '0' as u32) as u64;
        assert(d.subrange(0, i - start + 1).drop_last() == d.subrange(0, i - start));
        assert(d.subrange(0, i - start + 1).last() == c);
        let next: u128 = acc as u128 * 10 + digit as u128;
        if next > max as u128 {
            assert forall|j: int| start <= j <= i implies is_digit(s@[j]) by {
                assert(s@[j] == d[j - start]);
            }
            assert(d.subrange(0, i - start) == s@.subrange(start as int, i as int));
            return self::overflowed(s, start, i, acc, digit, max);
        }
        acc = next as u64;
        i = i + 1;
    }
    assert(d.subrange(0, d.len() as int) == d);
    Some(acc)
}

/// Finishes a parse whose value already exceeds `max` after position `i`:
/// the literal is rejected whether or not the rest is made of digits.
fn overflowed(s: &[char], start: usize, i: usize, acc: u64, digit: u64, max: u64) -> (r: Option<
    u64,
>)
    requires
        start <= i < s@.len(),
        start == (if s@.len() > 0 && s@[0] == '+' {
            1int
        } else {
            0int
        }),
        forall|j: int| start <= j <= i ==> is_digit(s@[j]),
        digit as nat == digit_value(s@[i as int]),
        acc as nat == digits_value(s@.subrange(start as int, i as int)),
        acc * 10 + digit > max,
    ensures
        r is None,
        parse_unsigned(s@, max as nat) is None,
{
    let ghost d = unsigned_digits(s@);
    assert(d == s@.subrange(start as int, s@.len() as int));
    proof {
        let k = i - start + 1;
        assert(d.subrange(0, k).drop_last() == s@.subrange(start as int, i as int));
        assert(d.subrange(0, k).last() == s@[i as int]);
        assert(digits_value(d.subrange(0, k)) > max);
        if forall|j: int| 0 <= j < d.len() ==> is_digit(d[j]) {
            lemma_digits_value_grows(d, k);
        }
    }
    None
}

} // verus!
