//! Plain-text rendering of numbers: the digit strings that the tree
//! renderer and the error messages are built from.

use vstd::prelude::*;

verus! {

/// The character standing for one digit value below 16.
pub open spec fn digit_char(d: nat) -> char {
    if d == 0 {
        '0'
    } else if d == 1 {
        '1'
    } else if d == 2 {
        '2'
    } else if d == 3 {
        '3'
    } else if d == 4 {
        '4'
    } else if d == 5 {
        '5'
    } else if d == 6 {
        '6'
    } else if d == 7 {
        '7'
    } else if d == 8 {
        '8'
    } else if d == 9 {
        '9'
    } else if d == 10 {
        'a'
    } else if d == 11 {
        'b'
    } else if d == 12 {
        'c'
    } else if d == 13 {
        'd'
    } else if d == 14 {
        'e'
    } else {
        'f'
    }
}

/// The digits of `n` written in base `b`, most significant first,
/// with no leading zeroes (`0` itself is the single digit `0`).
pub open spec fn radix_digits(n: nat, b: nat) -> Seq<char>
    decreases n,
        via radix_digits_dec
{
    if b < 2 || n < b {
        seq![digit_char(n)]
    } else {
        radix_digits(n / b, b).push(digit_char(n % b))
    }
}

#[via_fn]
proof fn radix_digits_dec(n: nat, b: nat) {
    if !(b < 2 || n < b) {
        assert(n / b < n) by (nonlinear_arith)
            requires
                b >= 2,
                n >= b,
        ;
    }
}

/// The decimal rendering of a natural number.
pub open spec fn dec_digits(n: nat) -> Seq<char> {
    radix_digits(n, 10)
}

/// A run of `n` spaces.
pub open spec fn spaces(n: nat) -> Seq<char>
    decreases n,
{
    if n == 0 {
        Seq::<char>::empty()
    } else {
        spaces((n - 1) as nat).push(' ')
    }
}

/// The two-hex-digit rendering of one byte, lower case, zero padded.
pub open spec fn hex_byte(v: u8) -> Seq<char> {
    seq![digit_char((v / 16) as nat), digit_char((v % 16) as nat)]
}

/// The one-character string for one digit value below 16.
fn digit_str(d: u8) -> (r: &'static str)
    requires
        d < 16,
    ensures
        r@ == seq![digit_char(d as nat)],
{
    let r: &'static str = match d {
        0 => "0",
        1 => "1",
        2 => "2",
        3 => "3",
        4 => "4",
        5 => "5",
        6 => "6",
        7 => "7",
        8 => "8",
        9 => "9",
        10 => "a",
        11 => "b",
        12 => "c",
        13 => "d",
        14 => "e",
        _ => "f",
    };
    proof {
        reveal_strlit("0");
        reveal_strlit("1");
        reveal_strlit("2");
        reveal_strlit("3");
        reveal_strlit("4");
        reveal_strlit("5");
        reveal_strlit("6");
        reveal_strlit("7");
        reveal_strlit("8");
        reveal_strlit("9");
        reveal_strlit("a");
        reveal_strlit("b");
        reveal_strlit("c");
        reveal_strlit("d");
        reveal_strlit("e");
        reveal_strlit("f");
        assert(r@ =~= seq![digit_char(d as nat)]);
    }
    r
}

/// Append the base-`b` digits of `n` to `out`.
fn push_radix(out: &mut String, n: u64, b: u64)
    requires
        2 <= b <= 16,
    ensures
        final(out)@ == old(out)@ + radix_digits(n as nat, b as nat),
    decreases n,
{
    if n < b {
        out.append(digit_str(n as u8));
    } else {
        proof {
            assert(n / b < n && n / b == (n as nat / b as nat) && n % b < b) by (nonlinear_arith)
                requires
                    2 <= b <= 16,
                    n >= b,
            ;
        }
        push_radix(out, n / b, b);
        out.append(digit_str((n % b) as u8));
        assert(final(out)@ =~= old(out)@ + radix_digits(n as nat, b as nat));
    }
}

/// The base-`b` rendering of `n`, for bases from 2 to 16.
pub fn radix_str(n: u64, b: u64) -> (r: String)
    requires
        2 <= b <= 16,
    ensures
        r@ == radix_digits(n as nat, b as nat),
{
    let mut s = String::new();
    push_radix(&mut s, n, b);
    assert(s@ =~= radix_digits(n as nat, b as nat));
    s
}

/// The decimal rendering of `n`.
pub fn dec_str_u64(n: u64) -> (r: String)
    ensures
        r@ == dec_digits(n as nat),
{
    radix_str(n, 10)
}

/// The decimal rendering of an integer, `-`-prefixed when negative.
pub open spec fn int_text(i: int) -> Seq<char> {
    if i >= 0 {
        dec_digits(i as nat)
    } else {
        seq!['-'] + dec_digits((-i) as nat)
    }
}

/// The decimal rendering of a signed 64-bit integer.
pub fn dec_str_i64(i: i64) -> (r: String)
    ensures
        r@ == int_text(i as int),
{
    if i >= 0 {
        let r = dec_str_u64(i as u64);
        assert(r@ =~= int_text(i as int));
        r
    } else {
        let mag: u64 = ((-(i + 1)) as u64) + 1;
        let mut s = String::new();
        s.append("-");
        let d = dec_str_u64(mag);
        s.append(d.as_str());
        proof {
            reveal_strlit("-");
            assert(s@ =~= int_text(i as int));
        }
        s
    }
}

} // verus!
