//! Numbers as text: decimal and hexadecimal digits, padded on the left.

use vstd::prelude::*;
use vstd::arithmetic::div_mod::{lemma_div_decreases, lemma_mod_bound, lemma_small_mod};

verus! {

/// `String::push`: the character is added at the end of the string.
pub assume_specification[ String::push ](s: &mut String, ch: char)
    ensures
        final(s)@ == old(s)@.push(ch),
;

/// The character for the digit `d` of a base up to 16; the digits above 9
/// are lower-case letters.
pub open spec fn digit_char(d: nat) -> char {
    if d == 0 {
        '0'
    } else if d == 1 {
        '1'
    } else if d == 2 {
        '2'
    } else if d == 3 {
        '3'
    } else if d == 4 {
        '4'
    } else if d == 5 {
        '5'
    } else if d == 6 {
        '6'
    } else if d == 7 {
        '7'
    } else if d == 8 {
        '8'
    } else if d == 9 {
        '9'
    } else if d == 10 {
        'a'
    } else if d == 11 {
        'b'
    } else if d == 12 {
        'c'
    } else if d == 13 {
        'd'
    } else if d == 14 {
        'e'
    } else {
        'f'
    }
}

/// The character for the digit `d` of a base up to 16; the digits above 9
/// are upper-case letters.
pub open spec fn upper_digit_char(d: nat) -> char {
    if d == 10 {
        'A'
    } else if d == 11 {
        'B'
    } else if d == 12 {
        'C'
    } else if d == 13 {
        'D'
    } else if d == 14 {
        'E'
    } else if d >= 15 {
        'F'
    } else {
        digit_char(d)
    }
}

/// The character for the digit `d` in the given case.
pub open spec fn cased_digit_char(d: nat, upper: bool) -> char {
    if upper {
        upper_digit_char(d)
    } else {
        digit_char(d)
    }
}

/// The digits of `n` in the given base and case, most significant first,
/// without leading zeros; zero is the single digit 0.
pub open spec fn cased_digits(n: nat, base: nat, upper: bool) -> Seq<char>
    recommends
        2 <= base <= 16,
    decreases n,
{
    if n < base || base < 2 {
        seq![cased_digit_char(n, upper)]
    } else {
        proof {
            lemma_div_decreases(n as int, base as int);
        }
        cased_digits(n / base, base, upper).push(cased_digit_char(n % base, upper))
    }
}

/// The digits of `n` in the given base, in lower case.
pub open spec fn digits(n: nat, base: nat) -> Seq<char>
    recommends
        2 <= base <= 16,
{
    cased_digits(n, base, false)
}

/// The hexadecimal digits of `n`, in upper case.
pub open spec fn upper_hex(n: nat) -> Seq<char> {
    cased_digits(n, 16, true)
}

/// The decimal digits of `n`.
pub open spec fn decimal(n: nat) -> Seq<char> {
    digits(n, 10)
}

/// The hexadecimal digits of `n`, in lower case.
pub open spec fn hex(n: nat) -> Seq<char> {
    digits(n, 16)
}

/// `s` with as many copies of `fill` before it as it takes to reach
/// `width` characters; `s` itself where it is that long or longer.
pub open spec fn pad_left(s: Seq<char>, width: nat, fill: char) -> Seq<char> {
    if s.len() >= width {
        s
    } else {
        Seq::new((width - s.len()) as nat, |i: int| fill) + s
    }
}

/// The character for the digit `d` in the given case.
pub fn cased_digit(d: u8, upper: bool) -> (r: char)
    requires
        d < 16,
    ensures
        r == cased_digit_char(d as nat, upper),
{
    if upper {
        match d {
            10 => 'A',
            11 => 'B',
            12 => 'C',
            13 => 'D',
            14 => 'E',
            15 => 'F',
            _ => digit(d),
        }
    } else {
        digit(d)
    }
}

/// The character for the digit `d`.
pub fn digit(d: u8) -> (r: char)
    requires
        d < 16,
    ensures
        r == digit_char(d as nat),
{
    match d {
        0 => '0',
        1 => '1',
        2 => '2',
        3 => '3',
        4 => '4',
        5 => '5',
        6 => '6',
        7 => '7',
        8 => '8',
        9 => '9',
        10 => 'a',
        11 => 'b',
        12 => 'c',
        13 => 'd',
        14 => 'e',
        _ => 'f',
    }
}

/// The digits of `m` that stand before those already taken from it: none
/// where nothing of the number is left.
spec fn leading(m: nat, base: nat, upper: bool) -> Seq<char> {
    if m == 0 {
        Seq::empty()
    } else {
        cased_digits(m, base, upper)
    }
}

/// Appends to `out` the digits of `n` in the given base, padded on the
/// left with `fill` to `width` characters.
pub fn push_number(out: &mut String, n: u64, base: u64, width: usize, fill: char)
    requires
        2 <= base <= 16,
    ensures
        final(out)@ == old(out)@ + pad_left(digits(n as nat, base as nat), width as nat, fill),
{
    push_cased_number(out, n, base, width, fill, false)
}

/// Appends to `out` the digits of `n` in the given base and case, padded
/// on the left with `fill` to `width` characters.
pub fn push_cased_number(
    out: &mut String,
    n: u64,
    base: u64,
    width: usize,
    fill: char,
    upper: bool,
)
    requires
        2 <= base <= 16,
    ensures
        final(out)@ == old(out)@ + pad_left(
            cased_digits(n as nat, base as nat, upper),
            width as nat,
            fill,
        ),
{
    let ghost b = base as nat;
    let ghost text = cased_digits(n as nat, b, upper);
    // the digits, least significant first
    let mut rev: Vec<char> = Vec::new();
    proof {
        lemma_mod_bound(n as int, base as int);
        if n >= base {
            lemma_div_decreases(n as int, base as int);
        } else {
            lemma_small_mod(n as nat, base as nat);
        }
        assert(n < base ==> n / base == 0) by (nonlinear_arith)
            requires
                base >= 2,
        ;
        assert(n >= base ==> n / base > 0) by (nonlinear_arith)
            requires
                base >= 2,
        ;
    }
    rev.push(cased_digit((n % base) as u8, upper));
    let mut m: u64 = n / base;
    proof {
        assert(rev@.reverse() =~= seq![cased_digit_char((n % base) as nat, upper)]);
        assert(text =~= leading(m as nat, b, upper) + rev@.reverse());
    }
    while m > 0
        invariant
            2 <= base <= 16,
            b == base as nat,
            rev@.len() >= 1,
            text == leading(m as nat, b, upper) + rev@.reverse(),
        decreases m,
    {
        let ghost rev0 = rev@;
        proof {
            lemma_mod_bound(m as int, base as int);
            lemma_div_decreases(m as int, base as int);
            if m < base {
                lemma_small_mod(m as nat, base as nat);
            }
            assert(m < base ==> m / base == 0) by (nonlinear_arith)
                requires
                    base >= 2,
            ;
            assert(m >= base ==> m / base > 0) by (nonlinear_arith)
                requires
                    base >= 2,
            ;
        }
        let d = cased_digit((m % base) as u8, upper);
        rev.push(d);
        proof {
            assert(rev@.reverse() =~= seq![d] + rev0.reverse());
            assert(leading(m as nat, b, upper) =~= leading((m / base) as nat, b, upper).push(d));
            assert(text =~= leading((m / base) as nat, b, upper) + rev@.reverse());
        }
        m = m / base;
    }
    proof {
        assert(text =~= rev@.reverse());
    }
    let ghost start = out@;
    let len = rev.len();
    let mut pad: usize = 0;
    while pad < width && width - pad > len
        invariant
            len == rev@.len(),
            pad <= width,
            len >= width ==> pad == 0,
            len < width ==> pad <= width - len,
            out@ == start + Seq::new(pad as nat, |i: int| fill),
        decreases width - pad,
    {
        out.push(fill);
        pad += 1;
        proof {
            assert(out@ =~= start + Seq::new(pad as nat, |i: int| fill));
        }
    }
    let ghost padded = out@;
    let mut k: usize = len;
    while k > 0
        invariant
            k <= len,
            len == rev@.len(),
            out@ == padded + rev@.reverse().take(len - k),
        decreases k,
    {
        k -= 1;
        out.push(rev[k]);
        proof {
            assert(rev@.reverse()[len - 1 - k] == rev@[k as int]);
            assert(out@ =~= padded + rev@.reverse().take(len - k));
        }
    }
    proof {
        assert(rev@.reverse().take(len as int) =~= rev@.reverse());
        assert(out@ =~= start + pad_left(text, width as nat, fill));
    }
}

/// Appends to `out` the decimal digits of `n`, padded on the left with
/// `fill` to `width` characters.
pub fn push_decimal(out: &mut String, n: u64, width: usize, fill: char)
    ensures
        final(out)@ == old(out)@ + pad_left(decimal(n as nat), width as nat, fill),
{
    push_number(out, n, 10, width, fill)
}

/// Appends to `out` the hexadecimal digits of `n` in upper case, padded
/// on the left with zeros to `width` characters.
pub fn push_upper_hex(out: &mut String, n: u64, width: usize)
    ensures
        final(out)@ == old(out)@ + pad_left(upper_hex(n as nat), width as nat, '0'),
{
    push_cased_number(out, n, 16, width, '0', true)
}

/// Appends to `out` the hexadecimal digits of `n`, padded on the left with
/// zeros to `width` characters.
pub fn push_hex(out: &mut String, n: u64, width: usize)
    ensures
        final(out)@ == old(out)@ + pad_left(hex(n as nat), width as nat, '0'),
{
    push_number(out, n, 16, width, '0')
}

} // verus!
