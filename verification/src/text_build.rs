//! Building texts: appending pieces and decimal numbers.
use vstd::prelude::*;
use crate::text::chars_of;

verus! {

/// Appends the characters of a text to a buffer.
pub fn push_str(buffer: &mut Vec<char>, s: &str)
    ensures
        final(buffer)@ == old(buffer)@ + s@,
{
    let v = chars_of(s);
    push_chars(buffer, v.as_slice());
}

/// Appends characters to a buffer.
pub fn push_chars(buffer: &mut Vec<char>, v: &[char])
    ensures
        final(buffer)@ == old(buffer)@ + v@,
{
    let ghost start = buffer@;
    let mut i: usize = 0;
    while i < v.len()
        invariant
            i <= v@.len(),
            buffer@ == start + v@.subrange(0, i as int),
        decreases v.len() - i,
    {
        buffer.push(v[i]);
        i = i + 1;
        assert(v@.subrange(0, i as int) == v@.subrange(0, i - 1).push(v@[i - 1]));
    }
    assert(v@.subrange(0, v@.len() as int) == v@);
}

/// The ASCII digit for a value below ten.
pub open spec fn digit_char(d: nat) -> char {
    (('0' as u32) + d) as char
}

/// The decimal representation of a natural number, without leading zeros.
pub open spec fn decimal(n: nat) -> Seq<char>
    decreases n,
{
    if n < 10 {
        seq![digit_char(n)]
    } else {
        decimal(n / 10).push(digit_char(n % 10))
    }
}

/// The ASCII digit for a value below ten.
fn digit_of(d: u64) -> (c: char)
    requires
        d < 10,
    ensures
        c == digit_char(d as nat),
{
    let b: u8 = 48u8 + (d as u8);
    b as char
}

/// Appends the decimal representation of `n` to a buffer.
pub fn push_decimal(buffer: &mut Vec<char>, n: u64)
    ensures
        final(buffer)@ == old(buffer)@ + decimal(n as nat),
    decreases n,
{
    if n < 10 {
        buffer.push(digit_of(n));
    } else {
        push_decimal(buffer, n / 10);
        buffer.push(digit_of(n % 10));
    }
}

/// The decimal representation of `n` as a string.
pub fn decimal_string(n: u64) -> (s: String)
    ensures
        s@ == decimal(n as nat),
{
    let mut v: Vec<char> = Vec::new();
    push_decimal(&mut v, n);
    assert(v@ == Seq::<char>::empty() + decimal(n as nat));
    crate::text::string_of(v.as_slice())
}

} // verus!
