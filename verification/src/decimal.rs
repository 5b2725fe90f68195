//! Decimal rendering of integers, used by the canonical shape representations.

use vstd::prelude::*;

verus! {

/// The character for a single decimal digit between 0 and 9.
pub open spec fn dec_digit(d: int) -> char {
    if d == 0 {
        '0'
    } else if d == 1 {
        '1'
    } else if d == 2 {
        '2'
    } else if d == 3 {
        '3'
    } else if d == 4 {
        '4'
    } else if d == 5 {
        '5'
    } else if d == 6 {
        '6'
    } else if d == 7 {
        '7'
    } else if d == 8 {
        '8'
    } else {
        '9'
    }
}

/// The decimal digits of a non-negative integer, most significant first,
/// with no padding and no sign.
pub open spec fn dec_nat(n: nat) -> Seq<char>
    decreases n,
{
    if n < 10 {
        seq![dec_digit(n as int)]
    } else {
        dec_nat(n / 10).push(dec_digit((n % 10) as int))
    }
}

/// The decimal form of an integer: a leading minus sign for negative
/// values, then the digits of its magnitude.
pub open spec fn dec_int(n: int) -> Seq<char> {
    if n < 0 {
        seq!['-'] + dec_nat((-n) as nat)
    } else {
        dec_nat(n as nat)
    }
}

/// A one-character string slice for a single decimal digit.
fn digit_str(d: u8) -> (s: &'static str)
    requires
        d < 10,
    ensures
        s@ == seq![dec_digit(d as int)],
{
    let s: &'static str = match d {
        0 => "0",
        1 => "1",
        2 => "2",
        3 => "3",
        4 => "4",
        5 => "5",
        6 => "6",
        7 => "7",
        8 => "8",
        _ => "9",
    };
    proof {
        reveal_strlit("0");
        reveal_strlit("1");
        reveal_strlit("2");
        reveal_strlit("3");
        reveal_strlit("4");
        reveal_strlit("5");
        reveal_strlit("6");
        reveal_strlit("7");
        reveal_strlit("8");
        reveal_strlit("9");
        assert(s@ =~= seq![dec_digit(d as int)]);
    }
    s
}

/// Renders a non-negative value in decimal.
pub fn nat_string(n: u32) -> (s: String)
    ensures
        s@ == dec_nat(n as nat),
    decreases n,
{
    if n < 10 {
        let mut s = String::new();
        s.append(digit_str(n as u8));
        proof {
            assert(s@ =~= dec_nat(n as nat));
        }
        s
    } else {
        let mut s = nat_string(n / 10);
        s.append(digit_str((n % 10) as u8));
        proof {
            assert(s@ =~= dec_nat(n as nat));
        }
        s
    }
}

/// Renders a signed value in decimal, with a minus sign when negative.
pub fn int_string(n: i32) -> (s: String)
    ensures
        s@ == dec_int(n as int),
{
    if n >= 0 {
        nat_string(n as u32)
    } else {
        let mag: u32 = (-(n as i64)) as u32;
        let mut s = String::new();
        s.append("-");
        let digits = nat_string(mag);
        s.append(digits.as_str());
        proof {
            reveal_strlit("-");
            assert("-"@ =~= seq!['-']);
            assert(s@ =~= dec_int(n as int));
        }
        s
    }
}

} // verus!
