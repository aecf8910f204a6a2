//! Decimal notation of small numbers, as it appears inside CSS values.

use vstd::prelude::*;
use vstd::string::*;

verus! {

/// The one-character text of the decimal digit `d`.
pub open spec fn digit(d: nat) -> Seq<char> {
    if d == 0 {
        "0"@
    } else if d == 1 {
        "1"@
    } else if d == 2 {
        "2"@
    } else if d == 3 {
        "3"@
    } else if d == 4 {
        "4"@
    } else if d == 5 {
        "5"@
    } else if d == 6 {
        "6"@
    } else if d == 7 {
        "7"@
    } else if d == 8 {
        "8"@
    } else {
        "9"@
    }
}

/// The decimal notation of `n`, without sign or leading zeros.
pub open spec fn decimal(n: nat) -> Seq<char>
    decreases n,
{
    if n < 10 {
        digit(n)
    } else {
        decimal(n / 10) + digit(n % 10)
    }
}

/// The literal that holds the decimal digit `d`.
fn digit_str(d: u8) -> (text: &'static str)
    requires
        d < 10,
    ensures
        text@ == digit(d as nat),
{
    if d == 0 {
        "0"
    } else if d == 1 {
        "1"
    } else if d == 2 {
        "2"
    } else if d == 3 {
        "3"
    } else if d == 4 {
        "4"
    } else if d == 5 {
        "5"
    } else if d == 6 {
        "6"
    } else if d == 7 {
        "7"
    } else if d == 8 {
        "8"
    } else {
        "9"
    }
}

/// Appends the decimal notation of `n` to `out`.
pub fn append_decimal(out: &mut String, n: u8)
    ensures
        final(out)@ == old(out)@ + decimal(n as nat),
{
    let hundreds: u8 = n / 10 / 10;
    let tens: u8 = n / 10 % 10;
    let ones: u8 = n % 10;
    if n >= 100 {
        out.append(digit_str(hundreds));
    }
    if n >= 10 {
        out.append(digit_str(tens));
    }
    out.append(digit_str(ones));
    proof {
        let n = n as nat;
        if n >= 100 {
            assert(decimal(n / 10 / 10) == digit(n / 10 / 10));
            assert(decimal(n / 10) == decimal(n / 10 / 10) + digit(n / 10 % 10));
        } else if n >= 10 {
            assert(decimal(n / 10) == digit(n / 10 % 10));
        }
        assert(out@ =~= old(out)@ + decimal(n));
    }
}

} // verus!
