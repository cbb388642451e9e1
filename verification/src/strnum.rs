//! Decimal rendering of integers as `String`s, with exact contracts over
//! `Seq<char>` views.

use vstd::prelude::*;
use vstd::string::*;

verus! {

/// The decimal digit character for a value in 0..=9.
pub open spec fn spec_digit(n: int) -> char {
    if n == 0 {
        '0'
    } else if n == 1 {
        '1'
    } else if n == 2 {
        '2'
    } else if n == 3 {
        '3'
    } else if n == 4 {
        '4'
    } else if n == 5 {
        '5'
    } else if n == 6 {
        '6'
    } else if n == 7 {
        '7'
    } else if n == 8 {
        '8'
    } else {
        '9'
    }
}

/// The decimal digits of `n`, most significant first, without leading zeros.
pub open spec fn spec_decimal(n: nat) -> Seq<char>
    decreases n,
{
    if n < 10 {
        seq![spec_digit(n as int)]
    } else {
        spec_decimal(n / 10) + seq![spec_digit((n % 10) as int)]
    }
}

/// `n` rendered in decimal, left-padded with '0' to two characters.
pub open spec fn spec_pad2(n: nat) -> Seq<char> {
    if n < 10 {
        seq!['0'] + spec_decimal(n)
    } else {
        spec_decimal(n)
    }
}

/// `n` rendered in decimal, left-padded with '0' to four characters.
pub open spec fn spec_pad4(n: nat) -> Seq<char> {
    if n < 10 {
        seq!['0', '0', '0'] + spec_decimal(n)
    } else if n < 100 {
        seq!['0', '0'] + spec_decimal(n)
    } else if n < 1000 {
        seq!['0'] + spec_decimal(n)
    } else {
        spec_decimal(n)
    }
}

/// A signed value rendered in decimal, with a leading '-' when negative.
pub open spec fn spec_signed_decimal(n: int) -> Seq<char> {
    if n < 0 {
        seq!['-'] + spec_decimal((-n) as nat)
    } else {
        spec_decimal(n as nat)
    }
}

fn digit_str(n: u128) -> (r: &'static str)
    requires
        n < 10,
    ensures
        r@ == seq![spec_digit(n as int)],
{
    proof {
        reveal_strlit("0");
        reveal_strlit("1");
        reveal_strlit("2");
        reveal_strlit("3");
        reveal_strlit("4");
        reveal_strlit("5");
        reveal_strlit("6");
        reveal_strlit("7");
        reveal_strlit("8");
        reveal_strlit("9");
    }
    if n == 0 {
        "0"
    } else if n == 1 {
        "1"
    } else if n == 2 {
        "2"
    } else if n == 3 {
        "3"
    } else if n == 4 {
        "4"
    } else if n == 5 {
        "5"
    } else if n == 6 {
        "6"
    } else if n == 7 {
        "7"
    } else if n == 8 {
        "8"
    } else {
        "9"
    }
}

/// Renders `n` in decimal without leading zeros.
pub fn num_string(n: u128) -> (r: String)
    ensures
        r@ == spec_decimal(n as nat),
    decreases n,
{
    if n < 10 {
        digit_str(n).to_owned()
    } else {
        let high = num_string(n / 10);
        high.concat(digit_str(n % 10))
    }
}

/// Renders `n` in decimal without leading zeros.
pub fn u32_string(n: u32) -> (r: String)
    ensures
        r@ == spec_decimal(n as nat),
{
    num_string(n as u128)
}

/// Renders `n` in decimal, left-padded with '0' to two characters.
pub fn pad2_string(n: u32) -> (r: String)
    ensures
        r@ == spec_pad2(n as nat),
{
    proof {
        reveal_strlit("0");
    }
    if n < 10 {
        let zero: String = "0".to_owned();
        zero.concat(u32_string(n).as_str())
    } else {
        u32_string(n)
    }
}

/// Renders `n` in decimal, left-padded with '0' to four characters.
pub fn pad4_string(n: u32) -> (r: String)
    ensures
        r@ == spec_pad4(n as nat),
{
    proof {
        reveal_strlit("0");
        reveal_strlit("00");
        reveal_strlit("000");
    }
    if n < 10 {
        let zeros: String = "000".to_owned();
        assert(zeros@ =~= seq!['0', '0', '0']);
        zeros.concat(u32_string(n).as_str())
    } else if n < 100 {
        let zeros: String = "00".to_owned();
        assert(zeros@ =~= seq!['0', '0']);
        zeros.concat(u32_string(n).as_str())
    } else if n < 1000 {
        let zeros: String = "0".to_owned();
        zeros.concat(u32_string(n).as_str())
    } else {
        u32_string(n)
    }
}

/// Character-wise equality of two string slices.
pub fn str_equal(a: &str, b: &str) -> (r: bool)
    ensures
        r == (a@ == b@),
{
    let x: String = a.to_owned();
    let y: String = b.to_owned();
    x == y
}

/// Renders a signed value in decimal, with a leading '-' when negative.
pub fn signed_string(n: i64) -> (r: String)
    requires
        n > i64::MIN,
    ensures
        r@ == spec_signed_decimal(n as int),
{
    proof {
        reveal_strlit("-");
    }
    if n < 0 {
        let sign: String = "-".to_owned();
        let mag: u128 = (-n) as u128;
        sign.concat(num_string(mag).as_str())
    } else {
        num_string(n as u128)
    }
}

} // verus!
