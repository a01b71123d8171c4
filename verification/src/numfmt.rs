//! Rendering of unsigned numbers as decimal and hexadecimal text.

use vstd::prelude::*;

verus! {

/// The character for one decimal digit.
pub open spec fn dec_digit_spec(d: nat) -> char {
    if d == 0 {
        '0'
    } else if d == 1 {
        '1'
    } else if d == 2 {
        '2'
    } else if d == 3 {
        '3'
    } else if d == 4 {
        '4'
    } else if d == 5 {
        '5'
    } else if d == 6 {
        '6'
    } else if d == 7 {
        '7'
    } else if d == 8 {
        '8'
    } else {
        '9'
    }
}

/// The character for one hexadecimal digit, lower case.
pub open spec fn hex_digit_spec(d: nat) -> char {
    if d < 10 {
        dec_digit_spec(d)
    } else if d == 10 {
        'a'
    } else if d == 11 {
        'b'
    } else if d == 12 {
        'c'
    } else if d == 13 {
        'd'
    } else if d == 14 {
        'e'
    } else {
        'f'
    }
}

/// The decimal digits of a number, most significant first, no leading zeros
/// (zero itself is the single digit `0`).
pub open spec fn dec_rep(n: nat) -> Seq<char>
    decreases n,
{
    if n < 10 {
        seq![dec_digit_spec(n)]
    } else {
        dec_rep(n / 10).push(dec_digit_spec(n % 10))
    }
}

/// The hexadecimal digits of a number, most significant first, lower case,
/// no leading zeros.
pub open spec fn hex_rep(n: nat) -> Seq<char>
    decreases n,
{
    if n < 16 {
        seq![hex_digit_spec(n)]
    } else {
        hex_rep(n / 16).push(hex_digit_spec(n % 16))
    }
}

/// A hexadecimal literal as the generated text writes it: `0x` followed by
/// the hexadecimal digits.
pub open spec fn hex_lit_rep(n: nat) -> Seq<char> {
    seq!['0', 'x'] + hex_rep(n)
}

/// Exactly four hexadecimal digits, zero padded, lower case.
pub open spec fn hex4_rep(n: nat) -> Seq<char> {
    seq![
        hex_digit_spec((n / 0x1000) % 16),
        hex_digit_spec((n / 0x100) % 16),
        hex_digit_spec((n / 0x10) % 16),
        hex_digit_spec(n % 16),
    ]
}

fn dec_digit(d: u64) -> (c: char)
    requires
        d < 10,
    ensures
        c == dec_digit_spec(d as nat),
{
    if d == 0 {
        '0'
    } else if d == 1 {
        '1'
    } else if d == 2 {
        '2'
    } else if d == 3 {
        '3'
    } else if d == 4 {
        '4'
    } else if d == 5 {
        '5'
    } else if d == 6 {
        '6'
    } else if d == 7 {
        '7'
    } else if d == 8 {
        '8'
    } else {
        '9'
    }
}

fn hex_digit(d: u64) -> (c: char)
    requires
        d < 16,
    ensures
        c == hex_digit_spec(d as nat),
{
    if d < 10 {
        dec_digit(d)
    } else if d == 10 {
        'a'
    } else if d == 11 {
        'b'
    } else if d == 12 {
        'c'
    } else if d == 13 {
        'd'
    } else if d == 14 {
        'e'
    } else {
        'f'
    }
}

/// The decimal rendering of a number.
pub fn decimal_string(n: u64) -> (r: String)
    ensures
        r@ == dec_rep(n as nat),
    decreases n,
{
    if n < 10 {
        let mut s = String::new();
        s.push(dec_digit(n));
        proof {
            assert(s@ =~= dec_rep(n as nat));
        }
        s
    } else {
        let mut s = decimal_string(n / 10);
        s.push(dec_digit(n % 10));
        s
    }
}

/// The bare hexadecimal rendering of a number, lower case, no prefix.
pub fn hex_string(n: u64) -> (r: String)
    ensures
        r@ == hex_rep(n as nat),
    decreases n,
{
    if n < 16 {
        let mut s = String::new();
        s.push(hex_digit(n));
        proof {
            assert(s@ =~= hex_rep(n as nat));
        }
        s
    } else {
        let mut s = hex_string(n / 16);
        s.push(hex_digit(n % 16));
        s
    }
}

/// A hexadecimal literal with the `0x` prefix.
pub fn hex_lit_string(n: u64) -> (r: String)
    ensures
        r@ == hex_lit_rep(n as nat),
{
    let mut s = String::from_str("0x");
    let digits = hex_string(n);
    s.append(digits.as_str());
    proof {
        reveal_strlit("0x");
        assert(("0x")@ =~= seq!['0', 'x']);
    }
    s
}

/// Four zero-padded hexadecimal digits of a 16-bit value.
pub fn hex4_string(n: u16) -> (r: String)
    ensures
        r@ == hex4_rep(n as nat),
{
    let w: u64 = n as u64;
    let mut s = String::new();
    s.push(hex_digit((w / 0x1000) % 16));
    s.push(hex_digit((w / 0x100) % 16));
    s.push(hex_digit((w / 0x10) % 16));
    s.push(hex_digit(w % 16));
    proof {
        assert(s@ =~= hex4_rep(n as nat));
    }
    s
}

} // verus!
