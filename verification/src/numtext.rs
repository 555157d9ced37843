//! Decimal and hexadecimal text forms of machine words.
//!
//! The rendered script shows region origins and lengths in the `0xHEX`
//! form inside the `MEMORY` block and in plain decimal inside the
//! `SECTIONS` block, so both forms are specified and implemented here.

use vstd::prelude::*;

verus! {

/// The character standing for one digit value, `0`–`9` then `A`–`F`.
pub open spec fn spec_digit(d: nat) -> char {
    if d == 0 {
        '0'
    } else if d == 1 {
        '1'
    } else if d == 2 {
        '2'
    } else if d == 3 {
        '3'
    } else if d == 4 {
        '4'
    } else if d == 5 {
        '5'
    } else if d == 6 {
        '6'
    } else if d == 7 {
        '7'
    } else if d == 8 {
        '8'
    } else if d == 9 {
        '9'
    } else if d == 10 {
        'A'
    } else if d == 11 {
        'B'
    } else if d == 12 {
        'C'
    } else if d == 13 {
        'D'
    } else if d == 14 {
        'E'
    } else {
        'F'
    }
}

/// The decimal digits of `n`, most significant first, with no leading
/// zeros except for `n == 0` itself.
pub open spec fn spec_dec(n: nat) -> Seq<char>
    decreases n,
{
    if n < 10 {
        seq![spec_digit(n)]
    } else {
        spec_dec(n / 10) + seq![spec_digit(n % 10)]
    }
}

/// The uppercase hexadecimal digits of `n`, most significant first,
/// with no leading zeros except for `n == 0` itself.
pub open spec fn spec_hex_digits(n: nat) -> Seq<char>
    decreases n,
{
    if n < 16 {
        seq![spec_digit(n)]
    } else {
        spec_hex_digits(n / 16) + seq![spec_digit(n % 16)]
    }
}

/// The `0x`-prefixed uppercase hexadecimal form of `n`.
pub open spec fn spec_hex(n: nat) -> Seq<char> {
    "0x"@ + spec_hex_digits(n)
}

/// The one-character text of a digit value below sixteen.
fn digit_str(d: u64) -> (r: &'static str)
    requires
        d < 16,
    ensures
        r@ == seq![spec_digit(d as nat)],
{
    proof {
        reveal_strlit("0");
        reveal_strlit("1");
        reveal_strlit("2");
        reveal_strlit("3");
        reveal_strlit("4");
        reveal_strlit("5");
        reveal_strlit("6");
        reveal_strlit("7");
        reveal_strlit("8");
        reveal_strlit("9");
        reveal_strlit("A");
        reveal_strlit("B");
        reveal_strlit("C");
        reveal_strlit("D");
        reveal_strlit("E");
        reveal_strlit("F");
    }
    let r: &'static str = if d == 0 {
        "0"
    } else if d == 1 {
        "1"
    } else if d == 2 {
        "2"
    } else if d == 3 {
        "3"
    } else if d == 4 {
        "4"
    } else if d == 5 {
        "5"
    } else if d == 6 {
        "6"
    } else if d == 7 {
        "7"
    } else if d == 8 {
        "8"
    } else if d == 9 {
        "9"
    } else if d == 10 {
        "A"
    } else if d == 11 {
        "B"
    } else if d == 12 {
        "C"
    } else if d == 13 {
        "D"
    } else if d == 14 {
        "E"
    } else {
        "F"
    };
    proof {
        assert(r@ =~= seq![spec_digit(d as nat)]);
    }
    r
}

/// The decimal text of `n`.
pub fn dec_text(n: u64) -> (r: String)
    ensures
        r@ == spec_dec(n as nat),
    decreases n,
{
    if n < 10 {
        String::from_str(digit_str(n))
    } else {
        let mut s = dec_text(n / 10);
        s.append(digit_str(n % 10));
        s
    }
}

/// The `0x`-prefixed uppercase hexadecimal text of `n`.
pub fn hex_text(n: u64) -> (r: String)
    ensures
        r@ == spec_hex(n as nat),
{
    let mut s = String::from_str("0x");
    s.append(hex_digits_text(n).as_str());
    s
}

/// The uppercase hexadecimal digits of `n`, without the `0x` prefix.
fn hex_digits_text(n: u64) -> (r: String)
    ensures
        r@ == spec_hex_digits(n as nat),
    decreases n,
{
    if n < 16 {
        String::from_str(digit_str(n))
    } else {
        let mut s = hex_digits_text(n / 16);
        s.append(digit_str(n % 16));
        s
    }
}

} // verus!
