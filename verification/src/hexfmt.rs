//! Rendering of the fixed-width hex and decimal digit fields that make up a
//! VLog3 record.

use vstd::prelude::*;

verus! {

/// The upper-case digit character for a value below sixteen.
pub open spec fn hex_digit(n: int) -> char
    recommends
        0 <= n < 16,
{
    if n == 0 {
        '0'
    } else if n == 1 {
        '1'
    } else if n == 2 {
        '2'
    } else if n == 3 {
        '3'
    } else if n == 4 {
        '4'
    } else if n == 5 {
        '5'
    } else if n == 6 {
        '6'
    } else if n == 7 {
        '7'
    } else if n == 8 {
        '8'
    } else if n == 9 {
        '9'
    } else if n == 10 {
        'A'
    } else if n == 11 {
        'B'
    } else if n == 12 {
        'C'
    } else if n == 13 {
        'D'
    } else if n == 14 {
        'E'
    } else {
        'F'
    }
}

/// One hex digit, as used for the entry count of a change record.
pub open spec fn hex1(n: int) -> Seq<char> {
    seq![hex_digit(n)]
}

/// Two hex digits, most significant first, as used for ids and state codes.
pub open spec fn hex2(n: int) -> Seq<char> {
    seq![hex_digit((n / 16) % 16), hex_digit(n % 16)]
}

/// Three hex digits, most significant first, as used for the delta time.
pub open spec fn hex3(n: int) -> Seq<char> {
    seq![hex_digit((n / 256) % 16), hex_digit((n / 16) % 16), hex_digit(n % 16)]
}

/// The hex digits of `n` without leading zeros (a single zero for 0).
pub open spec fn hex_digits(n: int) -> Seq<char>
    recommends
        n >= 0,
    decreases n,
{
    if n < 16 {
        seq![hex_digit(n)]
    } else {
        hex_digits(n / 16) + seq![hex_digit(n % 16)]
    }
}

/// The hex digits of `n`, zero-padded on the left to at least two digits.
pub open spec fn hex_min2(n: int) -> Seq<char> {
    if n < 16 {
        seq!['0'] + hex_digits(n)
    } else {
        hex_digits(n)
    }
}

/// The decimal digits of `n` without leading zeros (a single zero for 0).
pub open spec fn dec_digits(n: int) -> Seq<char>
    recommends
        n >= 0,
    decreases n,
{
    if n < 10 {
        seq![hex_digit(n)]
    } else {
        dec_digits(n / 10) + seq![hex_digit(n % 10)]
    }
}

/// The decimal digits of `n`, zero-padded on the left to at least two digits.
pub open spec fn dec_min2(n: int) -> Seq<char> {
    if n < 10 {
        seq!['0'] + dec_digits(n)
    } else {
        dec_digits(n)
    }
}

/// The one-character string for a digit value, with its view pinned down.
pub fn hex_char_str(n: u8) -> (r: &'static str)
    requires
        n < 16,
    ensures
        r@ == hex1(n as int),
{
    proof {
        reveal_strlit("0");
        reveal_strlit("1");
        reveal_strlit("2");
        reveal_strlit("3");
        reveal_strlit("4");
        reveal_strlit("5");
        reveal_strlit("6");
        reveal_strlit("7");
        reveal_strlit("8");
        reveal_strlit("9");
        reveal_strlit("A");
        reveal_strlit("B");
        reveal_strlit("C");
        reveal_strlit("D");
        reveal_strlit("E");
        reveal_strlit("F");
    }
    let r: &'static str = match n {
        0 => "0",
        1 => "1",
        2 => "2",
        3 => "3",
        4 => "4",
        5 => "5",
        6 => "6",
        7 => "7",
        8 => "8",
        9 => "9",
        10 => "A",
        11 => "B",
        12 => "C",
        13 => "D",
        14 => "E",
        _ => "F",
    };
    proof {
        assert(r@ =~= hex1(n as int));
    }
    r
}

/// Appends one hex digit.
pub fn push_hex1(s: &mut String, n: u8)
    requires
        n < 16,
    ensures
        final(s)@ == old(s)@ + hex1(n as int),
{
    s.append(hex_char_str(n));
}

/// Appends a two-hex-digit field.
pub fn push_hex2(s: &mut String, n: u16)
    requires
        n < 256,
    ensures
        final(s)@ == old(s)@ + hex2(n as int),
{
    push_hex1(s, (n / 16) as u8);
    push_hex1(s, (n % 16) as u8);
    proof {
        assert(final(s)@ =~= old(s)@ + hex2(n as int));
    }
}

/// Appends a three-hex-digit field.
pub fn push_hex3(s: &mut String, n: u16)
    requires
        n < 4096,
    ensures
        final(s)@ == old(s)@ + hex3(n as int),
{
    push_hex1(s, (n / 256) as u8);
    push_hex1(s, ((n / 16) % 16) as u8);
    push_hex1(s, (n % 16) as u8);
    proof {
        assert(final(s)@ =~= old(s)@ + hex3(n as int));
    }
}

/// Appends the hex digits of `n` without leading zeros.
pub fn push_hex_digits(s: &mut String, n: u16)
    ensures
        final(s)@ == old(s)@ + hex_digits(n as int),
    decreases n,
{
    if n < 16 {
        push_hex1(s, n as u8);
    } else {
        push_hex_digits(s, n / 16);
        push_hex1(s, (n % 16) as u8);
        proof {
            assert(final(s)@ =~= old(s)@ + hex_digits(n as int));
        }
    }
}

/// Appends the hex digits of `n`, zero-padded to at least two digits.
pub fn push_hex_min2(s: &mut String, n: u16)
    ensures
        final(s)@ == old(s)@ + hex_min2(n as int),
{
    if n < 16 {
        push_hex1(s, 0);
        push_hex1(s, n as u8);
        proof {
            assert(final(s)@ =~= old(s)@ + hex_min2(n as int));
        }
    } else {
        push_hex_digits(s, n);
    }
}

/// Appends the decimal digits of `n` without leading zeros.
pub fn push_dec_digits(s: &mut String, n: u64)
    ensures
        final(s)@ == old(s)@ + dec_digits(n as int),
    decreases n,
{
    if n < 10 {
        push_hex1(s, n as u8);
    } else {
        push_dec_digits(s, n / 10);
        push_hex1(s, (n % 10) as u8);
        proof {
            assert(final(s)@ =~= old(s)@ + dec_digits(n as int));
        }
    }
}

/// Appends the decimal digits of `n`, zero-padded to at least two digits.
pub fn push_dec_min2(s: &mut String, n: u64)
    ensures
        final(s)@ == old(s)@ + dec_min2(n as int),
{
    if n < 10 {
        push_hex1(s, 0);
        push_hex1(s, n as u8);
        proof {
            assert(final(s)@ =~= old(s)@ + dec_min2(n as int));
        }
    } else {
        push_dec_digits(s, n);
    }
}

} // verus!

