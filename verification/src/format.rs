//! Fixed-point formatting of byte counts and rates into 1024-based
//! units with two decimal places, and the decimal-digit helpers the
//! chart labels share. All fractions are exact integer arithmetic,
//! rounded down.

use vstd::prelude::*;

verus! {

/// The decimal digit character for `d` in `0..=9`.
pub open spec fn digit_char(d: int) -> char
    recommends
        0 <= d <= 9,
{
    (('0' as u32) + d) as char
}

/// The decimal digits of `n`, most significant first, without sign or
/// padding; `0` is the single digit `0`.
pub open spec fn dec_digits(n: int) -> Seq<char>
    recommends
        n >= 0,
    decreases n,
{
    if n < 10 {
        seq![digit_char(n)]
    } else {
        dec_digits(n / 10).push(digit_char(n % 10))
    }
}

/// `n` space characters.
pub open spec fn spaces(n: int) -> Seq<char> {
    Seq::new(if n >= 0 {
        n as nat
    } else {
        0
    }, |i: int| ' ')
}

/// `s` padded on the left with spaces to width `w`; `s` itself if it is
/// already as wide.
pub open spec fn pad_left(s: Seq<char>, w: int) -> Seq<char> {
    if s.len() >= w {
        s
    } else {
        spaces(w - s.len()) + s
    }
}

/// `whole.cc`: a quantity in hundredths, two decimal places.
pub open spec fn two_decimals(whole: int, cents: int) -> Seq<char>
    recommends
        whole >= 0,
        0 <= cents < 100,
{
    dec_digits(whole) + seq!['.', digit_char(cents / 10), digit_char(cents % 10)]
}

/// The decimal digit character for `d` in `0..=9`.
pub fn digit_char_exec(d: u64) -> (c: char)
    requires
        d <= 9,
    ensures
        c == digit_char(d as int),
{
    match d {
        0 => '0',
        1 => '1',
        2 => '2',
        3 => '3',
        4 => '4',
        5 => '5',
        6 => '6',
        7 => '7',
        8 => '8',
        _ => '9',
    }
}

/// The decimal digits of `n`, most significant first.
pub fn dec_chars(n: u64) -> (v: Vec<char>)
    ensures
        v@ == dec_digits(n as int),
    decreases n,
{
    if n < 10 {
        let mut v: Vec<char> = Vec::new();
        v.push(digit_char_exec(n));
        proof {
            assert(v@ =~= seq![digit_char(n as int)]);
        }
        v
    } else {
        let mut v = dec_chars(n / 10);
        v.push(digit_char_exec(n % 10));
        v
    }
}

/// `s` padded on the left with spaces to width `w`.
pub fn pad_left_exec(s: &Vec<char>, w: usize) -> (r: Vec<char>)
    ensures
        r@ == pad_left(s@, w as int),
{
    let mut r: Vec<char> = Vec::new();
    if s.len() < w {
        let k = w - s.len();
        for i in 0..k
            invariant
                r@ =~= spaces(k as int).take(i as int),
                k == w - s@.len(),
        {
            r.push(' ');
            assert(r@ =~= spaces(k as int).take(i + 1));
        }
        assert(r@ =~= spaces(w - s@.len()));
    }
    let n = s.len();
    let ghost prefix = r@;
    for i in 0..n
        invariant
            n == s@.len(),
            r@ =~= prefix + s@.take(i as int),
    {
        r.push(s[i]);
        assert(r@ =~= prefix + s@.take(i + 1));
    }
    proof {
        assert(prefix + s@.take(n as int) =~= pad_left(s@, w as int));
    }
    r
}

/// Builds a `String` from its characters.
///
/// Relies on `String`'s `FromIterator` over characters: collecting
/// yields the string holding exactly the given characters in order.
#[verifier::external_body]
pub fn chars_to_string(v: &Vec<char>) -> (s: String)
    ensures
        s@ == v@,
{
    v.iter().collect()
}

/// The unit index of a 1024-based unit ladder with `top` rungs: how
/// many times `b` divides by 1024 before falling under 1024, at most
/// `top`.
pub open spec fn unit_index(b: u64, top: int) -> int {
    if b < 1024 || top <= 0 {
        0
    } else if b < 1024 * 1024 || top <= 1 {
        1
    } else if b < 1024 * 1024 * 1024 || top <= 2 {
        2
    } else if b < 1024 * 1024 * 1024 * 1024 || top <= 3 {
        3
    } else {
        4
    }
}

/// `1024^k`.
pub open spec fn unit_divisor(k: int) -> int {
    if k <= 0 {
        1int
    } else if k == 1 {
        1024int
    } else if k == 2 {
        1024int * 1024
    } else if k == 3 {
        1024int * 1024 * 1024
    } else {
        1024int * 1024 * 1024 * 1024
    }
}

/// `b` scaled into its unit as `whole.cc`: the whole part is
/// `b / 1024^k` and the two decimals are the remainder in hundredths,
/// rounded down.
pub open spec fn scaled_decimals(b: u64, k: int) -> Seq<char> {
    let d = unit_divisor(k);
    two_decimals(b as int / d, (b as int % d) * 100 / d)
}

/// The rate-unit suffix for unit index `k`.
pub open spec fn rate_unit(k: int) -> Seq<char> {
    if k <= 0 {
        seq!['B', '/', 's']
    } else if k == 1 {
        seq!['K', 'B', '/', 's']
    } else if k == 2 {
        seq!['M', 'B', '/', 's']
    } else {
        seq!['G', 'B', '/', 's']
    }
}

/// The total-unit suffix for unit index `k`.
pub open spec fn total_unit(k: int) -> Seq<char> {
    if k <= 0 {
        seq!['B']
    } else if k == 1 {
        seq!['K', 'B']
    } else if k == 2 {
        seq!['M', 'B']
    } else if k == 3 {
        seq!['G', 'B']
    } else {
        seq!['T', 'B']
    }
}

/// A rate formatted as `whole.cc`, right-aligned to seven characters,
/// a space, and its unit (`B/s` through `GB/s`).
pub open spec fn spec_format_bytes(b: u64) -> Seq<char> {
    let k = unit_index(b, 3);
    pad_left(scaled_decimals(b, k), 7) + seq![' '] + rate_unit(k)
}

/// A cumulative byte total formatted as `whole.cc`, a space, and its
/// unit (`B` through `TB`), without padding.
pub open spec fn spec_format_total_bytes(b: u64) -> Seq<char> {
    let k = unit_index(b, 4);
    scaled_decimals(b, k) + seq![' '] + total_unit(k)
}

/// The whole part and the hundredths of `b` in the unit `1024^k`.
fn split_scaled(b: u64, divisor: u64) -> (r: (u64, u64))
    requires
        divisor >= 1,
    ensures
        r.0 == b as int / divisor as int,
        r.1 == (b as int % divisor as int) * 100 / divisor as int,
        r.1 < 100,
    {
    let whole = b / divisor;
    let rem = b % divisor;
    proof {
        assert(((rem as int) * 100) / (divisor as int) < 100) by (nonlinear_arith)
            requires
                0 <= rem < divisor,
        ;
    }
    let cents = ((rem as u128) * 100 / (divisor as u128)) as u64;
    (whole, cents)
}

/// `whole.cc` of `b` scaled by `1024^k`, as characters.
fn scaled_chars(b: u64, divisor: u64, ghost_k: Ghost<int>) -> (v: Vec<char>)
    requires
        divisor >= 1,
        divisor == unit_divisor(ghost_k@),
    ensures
        v@ == scaled_decimals(b, ghost_k@),
{
    let (whole, cents) = split_scaled(b, divisor);
    let mut v = dec_chars(whole);
    v.push('.');
    v.push(digit_char_exec(cents / 10));
    v.push(digit_char_exec(cents % 10));
    proof {
        assert(v@ =~= scaled_decimals(b, ghost_k@));
    }
    v
}

/// A rate in bytes per second, formatted as two decimals of a
/// 1024-based unit, right-aligned to seven characters, with the unit
/// suffix `B/s` through `GB/s`.
pub fn format_bytes(bytes: u64) -> (s: String)
    ensures
        s@ == spec_format_bytes(bytes),
{
    let divisor: u64 = if bytes < 1024 {
        1
    } else if bytes < 1024 * 1024 {
        1024
    } else if bytes < 1024 * 1024 * 1024 {
        1024 * 1024
    } else {
        1024 * 1024 * 1024
    };
    let ghost k = unit_index(bytes, 3);
    let num = scaled_chars(bytes, divisor, Ghost(k));
    let mut v = pad_left_exec(&num, 7);
    v.push(' ');
    if bytes < 1024 {
        v.push('B');
        v.push('/');
        v.push('s');
    } else if bytes < 1024 * 1024 {
        v.push('K');
        v.push('B');
        v.push('/');
        v.push('s');
    } else if bytes < 1024 * 1024 * 1024 {
        v.push('M');
        v.push('B');
        v.push('/');
        v.push('s');
    } else {
        v.push('G');
        v.push('B');
        v.push('/');
        v.push('s');
    }
    proof {
        assert(v@ =~= spec_format_bytes(bytes));
    }
    chars_to_string(&v)
}

/// A cumulative byte total, formatted as two decimals of a 1024-based
/// unit with the unit suffix `B` through `TB`.
pub fn format_total_bytes(bytes: u64) -> (s: String)
    ensures
        s@ == spec_format_total_bytes(bytes),
{
    let divisor: u64 = if bytes < 1024 {
        1
    } else if bytes < 1024 * 1024 {
        1024
    } else if bytes < 1024 * 1024 * 1024 {
        1024 * 1024
    } else if bytes < 1024 * 1024 * 1024 * 1024 {
        1024 * 1024 * 1024
    } else {
        1024 * 1024 * 1024 * 1024
    };
    let ghost k = unit_index(bytes, 4);
    let mut v = scaled_chars(bytes, divisor, Ghost(k));
    v.push(' ');
    if bytes < 1024 {
        v.push('B');
    } else if bytes < 1024 * 1024 {
        v.push('K');
        v.push('B');
    } else if bytes < 1024 * 1024 * 1024 {
        v.push('M');
        v.push('B');
    } else if bytes < 1024 * 1024 * 1024 * 1024 {
        v.push('G');
        v.push('B');
    } else {
        v.push('T');
        v.push('B');
    }
    proof {
        assert(v@ =~= spec_format_total_bytes(bytes));
    }
    chars_to_string(&v)
}

} // verus!
