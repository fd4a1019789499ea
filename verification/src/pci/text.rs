//! Numbers as text.

use vstd::prelude::*;
use vstd::string::*;

verus! {

/// A digit, as text.
pub open spec fn digit(d: int) -> Seq<char> {
    if d == 0 {
        "0"@
    } else if d == 1 {
        "1"@
    } else if d == 2 {
        "2"@
    } else if d == 3 {
        "3"@
    } else if d == 4 {
        "4"@
    } else if d == 5 {
        "5"@
    } else if d == 6 {
        "6"@
    } else if d == 7 {
        "7"@
    } else if d == 8 {
        "8"@
    } else if d == 9 {
        "9"@
    } else if d == 10 {
        "A"@
    } else if d == 11 {
        "B"@
    } else if d == 12 {
        "C"@
    } else if d == 13 {
        "D"@
    } else if d == 14 {
        "E"@
    } else {
        "F"@
    }
}

fn digit_text(d: u64) -> (r: &'static str)
    requires
        d < 16,
    ensures
        r@ == digit(d as int),
{
    if d == 0 {
        "0"
    } else if d == 1 {
        "1"
    } else if d == 2 {
        "2"
    } else if d == 3 {
        "3"
    } else if d == 4 {
        "4"
    } else if d == 5 {
        "5"
    } else if d == 6 {
        "6"
    } else if d == 7 {
        "7"
    } else if d == 8 {
        "8"
    } else if d == 9 {
        "9"
    } else if d == 10 {
        "A"
    } else if d == 11 {
        "B"
    } else if d == 12 {
        "C"
    } else if d == 13 {
        "D"
    } else if d == 14 {
        "E"
    } else {
        "F"
    }
}

/// A number in a base, without leading zeros.
pub open spec fn in_base(n: int, base: int) -> Seq<char>
    decreases n,
{
    if n < base || base < 2 {
        digit(n)
    } else {
        proof {
            assert(0 <= n / base < n) by (nonlinear_arith)
                requires
                    n >= base,
                    base >= 2,
            ;
        }
        in_base(n / base, base) + digit(n % base)
    }
}

/// A number in hexadecimal, with as many digits.
pub open spec fn padded_hex(n: int, digits: nat) -> Seq<char>
    decreases digits,
{
    if digits == 0 {
        Seq::empty()
    } else {
        padded_hex(n / 16, (digits - 1) as nat) + digit(n % 16)
    }
}

/// Appends a number in a base.
pub fn push_in_base(out: &mut String, n: u64, base: u64)
    requires
        2 <= base <= 16,
    ensures
        final(out)@ == old(out)@ + in_base(n as int, base as int),
    decreases n,
{
    if n < base {
        out.append(digit_text(n));
    } else {
        assert(n / base < n) by (nonlinear_arith)
            requires
                n > 0,
                base >= 2,
        ;
        push_in_base(out, n / base, base);
        out.append(digit_text(n % base));
        assert(out@ =~= old(out)@ + in_base(n as int, base as int));
    }
}

/// Appends the last digits of a number in hexadecimal.
pub fn push_padded_hex(out: &mut String, n: u64, digits: u32)
    ensures
        final(out)@ == old(out)@ + padded_hex(n as int, digits as nat),
    decreases digits,
{
    if digits > 0 {
        push_padded_hex(out, n / 16, digits - 1);
        out.append(digit_text(n % 16));
    }
    assert(out@ =~= old(out)@ + padded_hex(n as int, digits as nat));
}

/// Appends a number in decimal.
pub fn push_decimal(out: &mut String, n: u64)
    ensures
        final(out)@ == old(out)@ + in_base(n as int, 10),
{
    push_in_base(out, n, 10);
}

/// Appends a number in hexadecimal, marked as such.
pub fn push_hex(out: &mut String, n: u64)
    ensures
        final(out)@ == old(out)@ + "0x"@ + in_base(n as int, 16),
{
    out.append("0x");
    push_in_base(out, n, 16);
}

} // verus!
