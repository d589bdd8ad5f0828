//! Number and count formatting for the status bar, toasts and property dialogs.
use vstd::prelude::*;

use crate::text::{append_str, chars_of, string_from_chars};

verus! {

/// The decimal digit for `d < 10`.
pub open spec fn digit_char(d: int) -> char {
    (48 + d) as char
}

/// Decimal digits of `n`, most significant first, without leading zeros.
pub open spec fn decimal_digits(n: nat) -> Seq<char>
    decreases n,
{
    if n < 10 {
        seq![digit_char(n as int)]
    } else {
        decimal_digits(n / 10).push(digit_char((n % 10) as int))
    }
}

/// The first `i` digits of `ds` with a `,` in front of every digit after the first that has
/// a multiple of three digits after it in `ds`.
pub open spec fn grouped_prefix(ds: Seq<char>, i: int) -> Seq<char>
    decreases i,
{
    if i <= 0 {
        Seq::empty()
    } else {
        let before = grouped_prefix(ds, i - 1);
        let k = i - 1;
        let with_comma = if k > 0 && (ds.len() - k) % 3 == 0 {
            before.push(',')
        } else {
            before
        };
        with_comma.push(ds[k])
    }
}

/// Digits grouped in threes from the right with `,`.
pub open spec fn grouped(ds: Seq<char>) -> Seq<char> {
    grouped_prefix(ds, ds.len() as int)
}

/// `n` in decimal with thousands separators, e.g. `1,234,567`.
pub open spec fn with_commas(n: nat) -> Seq<char> {
    grouped(decimal_digits(n))
}

fn digit(d: u64) -> (c: char)
    requires
        d < 10,
    ensures
        c == digit_char(d as int),
{
    ((48u8 + d as u8) as char)
}

/// Decimal digits of `value`.
pub fn decimal_chars(value: u64) -> (r: Vec<char>)
    ensures
        r@ == decimal_digits(value as nat),
{
    let mut out: Vec<char> = Vec::new();
    let mut n = value;
    loop
        invariant_except_break
            decimal_digits(value as nat) == decimal_digits(n as nat) + out@,
        ensures
            out@ == decimal_digits(value as nat),
        decreases n,
    {
        let ghost before = out@;
        out.insert(0, digit(n % 10));
        assert(out@ =~= seq![digit_char((n % 10) as int)] + before);
        if n < 10 {
            assert(decimal_digits(n as nat) == seq![digit_char(n as int)]);
            assert(out@ =~= decimal_digits(n as nat) + before);
            break;
        }
        assert(decimal_digits(n as nat) == decimal_digits((n / 10) as nat).push(
            digit_char((n % 10) as int),
        ));
        assert(decimal_digits((n / 10) as nat) + out@ =~= decimal_digits(n as nat) + before);
        n = n / 10;
    }
    out
}

/// Groups `ds` in threes from the right with `,`.
pub fn group_digits(ds: &Vec<char>) -> (r: Vec<char>)
    ensures
        r@ == grouped(ds@),
{
    let mut out: Vec<char> = Vec::new();
    let mut i: usize = 0;
    while i < ds.len()
        invariant
            i <= ds.len(),
            out@ == grouped_prefix(ds@, i as int),
        decreases ds.len() - i,
    {
        if i > 0 && (ds.len() - i) % 3 == 0 {
            out.push(',');
        }
        out.push(ds[i]);
        i = i + 1;
    }
    out
}

/// `value` in decimal with thousands separators, e.g. `1,234,567`.
pub fn format_with_commas(value: u64) -> (r: String)
    ensures
        r@ == with_commas(value as nat),
{
    string_from_chars(&group_digits(&decimal_chars(value)))
}

/// Whole kilobytes needed to hold `bytes`, rounding up.
pub open spec fn kilobytes_up(bytes: nat) -> nat {
    ((bytes + 1023) / 1024) as nat
}

fn kb_up(bytes: u64) -> (r: u64)
    ensures
        r == kilobytes_up(bytes as nat),
{
    bytes / 1024 + if bytes % 1024 == 0 {
        0
    } else {
        1
    }
}

/// Byte count as `#,### KB`: always kilobytes, rounded up, comma-separated.
pub fn format_size_kb(bytes: u64) -> (r: String)
    ensures
        r@ == with_commas(kilobytes_up(bytes as nat)) + " KB"@,
{
    let mut out = group_digits(&decimal_chars(kb_up(bytes)));
    append_str(&mut out, " KB");
    string_from_chars(&out)
}

/// Kilobytes, rounded up and comma-separated, without a unit.
pub fn format_kb_grouped(bytes: u64) -> (r: String)
    ensures
        r@ == with_commas(kilobytes_up(bytes as nat)),
{
    let kb = if bytes == 0 {
        0
    } else {
        kb_up(bytes)
    };
    format_with_commas(kb)
}

/// `1 item` for one, `N items` otherwise.
pub open spec fn item_count_text(count: nat) -> Seq<char> {
    if count == 1 {
        "1 item"@
    } else {
        decimal_digits(count) + " items"@
    }
}

/// `1 item` or `N items`.
pub fn item_count_label(count: usize) -> (r: String)
    ensures
        r@ == item_count_text(count as nat),
{
    if count == 1 {
        return string_from_chars(&chars_of("1 item"));
    }
    let mut out = decimal_chars(count as u64);
    append_str(&mut out, " items");
    string_from_chars(&out)
}

/// Power of two by which `n` is divided to keep 53 significant bits (1 below 2^53).
pub open spec fn f64_scale(n: nat) -> nat
    decreases n,
{
    if n < 0x20_0000_0000_0000 {
        1
    } else {
        2 * f64_scale(n / 2)
    }
}

/// The value of `n` as the nearest `f64`: kept to 53 significant bits, ties to even.
pub open spec fn f64_rounded(n: nat) -> nat {
    let p = f64_scale(n);
    let q = n / p;
    let r = n % p;
    if r * 2 > p || (r * 2 == p && q % 2 == 1) {
        (q + 1) * p
    } else {
        q * p
    }
}

/// `num / den` rounded to the nearest whole number, ties to even.
pub open spec fn div_half_even(num: nat, den: nat) -> nat {
    let q = num / den;
    let r = num % den;
    if r * 2 > den || (r * 2 == den && q % 2 == 1) {
        q + 1
    } else {
        q
    }
}

/// `t` tenths written with one decimal, e.g. `12.5`.
pub open spec fn one_decimal(t: nat) -> Seq<char> {
    decimal_digits(t / 10) + seq!['.', digit_char((t % 10) as int)]
}

/// A byte count as shown for a file: bytes below a kilobyte, else kilobytes, megabytes or
/// gigabytes (of 1024) with one decimal, the count taken as a `f64`.
pub open spec fn byte_size_text(size: nat) -> Seq<char> {
    if size >= 0x4000_0000 {
        one_decimal(div_half_even(f64_rounded(size) * 10, 0x4000_0000)) + " GB"@
    } else if size >= 0x10_0000 {
        one_decimal(div_half_even(f64_rounded(size) * 10, 0x10_0000)) + " MB"@
    } else if size >= 0x400 {
        one_decimal(div_half_even(f64_rounded(size) * 10, 0x400)) + " KB"@
    } else {
        decimal_digits(size) + " B"@
    }
}

proof fn lemma_scale(n: nat)
    ensures
        f64_scale(n) >= 1,
        n >= 0x20_0000_0000_0000 ==> f64_scale(n) <= n,
    decreases n,
{
    if n >= 0x20_0000_0000_0000 {
        lemma_scale(n / 2);
    }
}

fn nearest_f64(n: u64) -> (r: u128)
    ensures
        r == f64_rounded(n as nat),
        r <= 0x2_0000_0000_0000_0000,
{
    let mut q: u128 = n as u128;
    let mut p: u128 = 1;
    while q >= 0x20_0000_0000_0000
        invariant
            1 <= p <= 0x1_0000_0000_0000_0000,
            q == (n as nat) / (p as nat),
            q * p <= n,
            f64_scale(n as nat) == p * f64_scale(q as nat),
            p > 1 ==> q >= 0x10_0000_0000_0000,
        decreases q,
    {
        proof {
            vstd::arithmetic::div_mod::lemma_div_denominator(n as int, p as int, 2);
            assert(q * p <= n) by (nonlinear_arith)
                requires
                    q == (n as nat) / (p as nat),
                    p >= 1,
            {
                vstd::arithmetic::div_mod::lemma_fundamental_div_mod(n as int, p as int);
            }
            assert(p * 2 <= n) by (nonlinear_arith)
                requires
                    q * p <= n,
                    q >= 2,
                    p >= 1,
            ;
        }
        proof {
            let fq = f64_scale((q / 2) as nat);
            assert(f64_scale(q as nat) == 2 * fq);
            assert(p * (2 * fq) == (p * 2) * fq) by (nonlinear_arith);
            assert((q / 2) * (p * 2) <= n) by (nonlinear_arith)
                requires
                    q * p <= n,
            ;
        }
        q = q / 2;
        p = p * 2;
    }
    let r = n as u128 - q * p;
    proof {
        vstd::arithmetic::div_mod::lemma_fundamental_div_mod(n as int, p as int);
        assert(r == (n as nat) % (p as nat)) by (nonlinear_arith)
            requires
                n == p * ((n as nat) / (p as nat)) + (n as nat) % (p as nat),
                q == (n as nat) / (p as nat),
                r == n - q * p,
        ;
        assert(f64_scale(q as nat) == 1);
        assert(f64_scale(n as nat) == p) by (nonlinear_arith)
            requires
                f64_scale(n as nat) == p * f64_scale(q as nat),
                f64_scale(q as nat) == 1,
        ;
    }
    if r * 2 > p || (r * 2 == p && q % 2 == 1) {
        proof {
            assert((q + 1) * p <= 0x2_0000_0000_0000_0000) by (nonlinear_arith)
                requires
                    q * p + r == n,
                    r < p,
                    n < 0x1_0000_0000_0000_0000,
                    p <= 0x1_0000_0000_0000_0000,
            ;
        }
        (q + 1) * p
    } else {
        q * p
    }
}

fn half_even_div(num: u128, den: u128) -> (r: u128)
    requires
        den > 0,
        num < 0x1_0000_0000_0000_0000_0000_0000,
    ensures
        r == div_half_even(num as nat, den as nat),
        r <= num / den + 1,
{
    let q = num / den;
    let rem = num % den;
    if rem > den - rem || (rem == den - rem && q % 2 == 1) {
        q + 1
    } else {
        q
    }
}

fn push_one_decimal(out: &mut Vec<char>, t: u64)
    ensures
        final(out)@ == old(out)@ + one_decimal(t as nat),
{
    let whole = decimal_chars(t / 10);
    crate::text::append_chars(out, &whole);
    out.push('.');
    out.push(digit(t % 10));
    assert(final(out)@ =~= old(out)@ + one_decimal(t as nat));
}

/// Byte count as shown next to a file, e.g. `512 B`, `1.5 KB`, `3.2 GB`.
pub fn format_byte_size(size: u64) -> (r: String)
    ensures
        r@ == byte_size_text(size as nat),
{
    let mut out: Vec<char> = Vec::new();
    if size < 0x400 {
        out = decimal_chars(size);
        append_str(&mut out, " B");
        return string_from_chars(&out);
    }
    let f = nearest_f64(size);
    let (unit, label) = if size >= 0x4000_0000 {
        (0x4000_0000u128, " GB")
    } else if size >= 0x10_0000 {
        (0x10_0000u128, " MB")
    } else {
        (0x400u128, " KB")
    };
    let t = half_even_div(f * 10, unit);
    assert(t <= 0x2_0000_0000_0000_0000 * 10 / 0x400 + 1);
    push_one_decimal(&mut out, t as u64);
    append_str(&mut out, label);
    string_from_chars(&out)
}

} // verus!
