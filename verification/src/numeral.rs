//! Decimal rendering of byte counts and timestamps.
//!
//! Fragment values are strings, so numeric metadata (the file size, the
//! timestamps as seconds) is written in ordinary decimal notation. The
//! rendering is stable: the same number always yields the same characters.

use vstd::prelude::*;

use crate::text::chars_to_string;

verus! {

/// The character for one decimal digit.
pub open spec fn digit_char(d: nat) -> char
    recommends
        d < 10,
{
    if d == 0 {
        '0'
    } else if d == 1 {
        '1'
    } else if d == 2 {
        '2'
    } else if d == 3 {
        '3'
    } else if d == 4 {
        '4'
    } else if d == 5 {
        '5'
    } else if d == 6 {
        '6'
    } else if d == 7 {
        '7'
    } else if d == 8 {
        '8'
    } else {
        '9'
    }
}

/// The decimal notation of `n`: most significant digit first, no leading
/// zeros except for `n == 0` itself, which is the single character `0`.
pub open spec fn decimal_digits(n: nat) -> Seq<char>
    decreases n,
{
    if n < 10 {
        seq![digit_char(n)]
    } else {
        decimal_digits(n / 10).push(digit_char(n % 10))
    }
}

fn digit_char_exec(d: u64) -> (c: char)
    requires
        d < 10,
    ensures
        c == digit_char(d as nat),
{
    if d == 0 {
        '0'
    } else if d == 1 {
        '1'
    } else if d == 2 {
        '2'
    } else if d == 3 {
        '3'
    } else if d == 4 {
        '4'
    } else if d == 5 {
        '5'
    } else if d == 6 {
        '6'
    } else if d == 7 {
        '7'
    } else if d == 8 {
        '8'
    } else {
        '9'
    }
}

fn push_decimal(n: u64, out: &mut Vec<char>)
    ensures
        final(out)@ == old(out)@ + decimal_digits(n as nat),
    decreases n,
{
    if n >= 10 {
        push_decimal(n / 10, out);
    }
    out.push(digit_char_exec(n % 10));
    proof {
        if n < 10 {
            assert(old(out)@.push(digit_char(n as nat)) =~= old(out)@ + decimal_digits(
                n as nat,
            ));
        } else {
            assert((old(out)@ + decimal_digits((n / 10) as nat)).push(
                digit_char((n % 10) as nat),
            ) =~= old(out)@ + decimal_digits(n as nat));
        }
    }
}

/// The decimal notation of `n` as a vector of characters.
pub fn u64_to_decimal(n: u64) -> (r: Vec<char>)
    ensures
        r@ == decimal_digits(n as nat),
{
    let mut out: Vec<char> = Vec::new();
    push_decimal(n, &mut out);
    proof {
        assert(Seq::<char>::empty() + decimal_digits(n as nat) =~= decimal_digits(n as nat));
    }
    out
}

/// The decimal notation of `n` as a string.
pub fn u64_string(n: u64) -> (r: String)
    ensures
        r@ == decimal_digits(n as nat),
{
    let digits = u64_to_decimal(n);
    chars_to_string(&digits)
}

} // verus!
