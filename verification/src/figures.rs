//! Figures as a person reads them: grouped digits, counts with their nouns,
//! byte sizes and percentages.
//!
//! Sizes and shares are what double-precision arithmetic gives, computed here
//! on integers: a figure is first rounded to fifty-three significant bits, and
//! every rounding goes to the nearest value, a half to the even one.

use crate::text::{decimal, decimal_text, digit, digit_text};
use vstd::prelude::*;

verus! {

/// `n / d` to the nearest whole number, a half to the even one.
pub open spec fn rounded(n: nat, d: nat) -> nat {
    let q = n / d;
    let r = n % d;
    if 2 * r < d || (2 * r == d && q % 2 == 0) {
        q
    } else {
        q + 1
    }
}

/// How far apart neighbouring double-precision numbers lie at `n`.
pub open spec fn spacing(n: nat) -> nat
    decreases n,
{
    if n < 0x20_0000_0000_0000 {
        1
    } else {
        2 * spacing(n / 2)
    }
}

/// The double-precision number nearest to `n`.
pub open spec fn nearest_double(n: nat) -> nat {
    rounded(n, spacing(n)) * spacing(n)
}

/// The least power of two that brings `a` up to `b`.
pub open spec fn lift(a: nat, b: nat) -> nat
    decreases 2 * b - a,
{
    if a == 0 || a >= b {
        1
    } else {
        2 * lift(2 * a, b)
    }
}

/// The fifty-three bits of `value / peak` in double precision, counted in
/// units of one over `lift(value, peak)` times two to the fifty-second.
pub open spec fn quotient_bits(value: nat, peak: nat) -> nat {
    let a = nearest_double(value);
    let b = nearest_double(peak);
    rounded(a * lift(a, b) * 0x10_0000_0000_0000, b)
}

/// What per cent `value` is of `peak`, in double precision and rounded to a
/// whole number; a value over the peak counts as the peak.
pub open spec fn percent_of(value: nat, peak: nat) -> nat {
    if value >= peak {
        100
    } else {
        let k = lift(nearest_double(value), nearest_double(peak));
        rounded(nearest_double(quotient_bits(value, peak) * 100), k * 0x10_0000_0000_0000)
    }
}

/// `n` with a comma before every third digit from the right.
pub open spec fn thousands(n: nat) -> Seq<char>
    decreases n,
{
    if n < 1000 {
        decimal(n)
    } else {
        thousands(n / 1000) + ","@ + three_digits(n % 1000)
    }
}

/// A number under a thousand in exactly three digits.
pub open spec fn three_digits(n: nat) -> Seq<char> {
    seq![digit(n / 100), digit(n / 10 % 10), digit(n % 10)]
}

/// A count and its noun, singular for one.
pub open spec fn counted(count: nat, noun: Seq<char>) -> Seq<char> {
    if count == 1 {
        "1 "@ + noun
    } else {
        thousands(count) + " "@ + noun + "s"@
    }
}

/// `bytes` in units of `unit`, in tenths of a unit.
pub open spec fn tenths(bytes: nat, unit: nat) -> nat {
    rounded(nearest_double(bytes) * 10, unit)
}

/// A number of tenths as a number with one decimal.
pub open spec fn one_decimal(t: nat) -> Seq<char> {
    decimal(t / 10) + "."@ + decimal(t % 10)
}

/// `bytes` in the smallest unit in which it stays under 1024 once it is rounded
/// to one decimal, and in GiB where there is none.
pub open spec fn bytes_text(bytes: nat) -> Seq<char> {
    if bytes < 1024 {
        decimal(bytes) + " B"@
    } else if tenths(bytes, 0x400) < 10240 {
        one_decimal(tenths(bytes, 0x400)) + " KiB"@
    } else if tenths(bytes, 0x10_0000) < 10240 {
        one_decimal(tenths(bytes, 0x10_0000)) + " MiB"@
    } else {
        one_decimal(tenths(bytes, 0x4000_0000)) + " GiB"@
    }
}

/// `s` without its commas.
pub open spec fn without_commas(s: Seq<char>) -> Seq<char> {
    s.filter(|c: char| c != ',')
}

proof fn lemma_spacing(n: nat)
    ensures
        spacing(n) >= 1,
        n >= 0x20_0000_0000_0000 ==> spacing(n) * 0x10_0000_0000_0000 <= n,
        n <= 0xffff_ffff_ffff_ffff ==> spacing(n) <= 4095,
    decreases n,
{
    if n >= 0x20_0000_0000_0000 {
        lemma_spacing(n / 2);
    }
}

proof fn lemma_nearest_double_bounds(n: nat)
    ensures
        n > 0 ==> nearest_double(n) > 0,
        n < 0x20_0000_0000_0000 ==> nearest_double(n) == n,
        n < nearest_double(n) + spacing(n),
        nearest_double(n) <= n + spacing(n),
{
    lemma_spacing(n);
    let s = spacing(n);
    vstd::arithmetic::div_mod::lemma_fundamental_div_mod(n as int, s as int);
    let q = n / s;
    let k = rounded(n, s);
    assert(k * s <= n + s && n < k * s + s) by (nonlinear_arith)
        requires
            q <= k <= q + 1,
            s * q <= n < s * q + s,
    ;
    if n < 0x20_0000_0000_0000 {
        assert(s == 1);
        assert(n / s == n && n % s == 0) by (nonlinear_arith)
            requires
                s == 1,
        ;
        assert(k * s == k) by (nonlinear_arith)
            requires
                s == 1,
        ;
    } else {
        assert(q >= 1) by {
            if q == 0 {
                assert(s * q == 0) by (nonlinear_arith)
                    requires
                        q == 0,
                ;
            }
        }
        assert(k * s >= 1) by (nonlinear_arith)
            requires
                k >= 1,
                s >= 1,
        ;
    }
}

/// `lift` brings `a` up to `b` and not to twice `b`.
proof fn lemma_lift(a: nat, b: nat)
    requires
        a > 0,
    ensures
        lift(a, b) >= 1,
        a <= b ==> b <= a * lift(a, b) < 2 * b,
        a <= b ==> lift(a, b) < 2 * b,
    decreases 2 * b - a,
{
    if a < b {
        let k = lift(2 * a, b);
        if 2 * a <= b {
            lemma_lift(2 * a, b);
        } else {
            assert(k == 1);
            assert((2 * a) * k == 2 * a) by (nonlinear_arith)
                requires
                    k == 1,
            ;
        }
        assert(a * (2 * k) == (2 * a) * k) by (nonlinear_arith);
        assert(2 * k < 2 * b) by (nonlinear_arith)
            requires
                (2 * a) * k < 2 * b,
                a >= 1,
        ;
    }
}

/// A quotient under `c` rounds to at most `c`.
proof fn lemma_rounded_bound(n: nat, d: nat, c: nat)
    requires
        d > 0,
        n < d * c,
    ensures
        rounded(n, d) <= c,
{
    vstd::arithmetic::div_mod::lemma_fundamental_div_mod(n as int, d as int);
    let q = n / d;
    assert(q < c) by (nonlinear_arith)
        requires
            n == d * q + n % d,
            n < d * c,
            n % d >= 0,
            d > 0,
    ;
}

proof fn lemma_rounded_zero(d: nat)
    requires
        d > 0,
    ensures
        rounded(0, d) == 0,
{
    vstd::arithmetic::div_mod::lemma_div_basics(d as int);
    vstd::arithmetic::div_mod::lemma_small_mod(0, d);
}

/// The sizes that the computation of a percentage runs through.
proof fn lemma_percent_sizes(value: nat, peak: nat)
    requires
        0 < value < peak <= 0xffff_ffff_ffff_ffff,
    ensures
        ({
            let a = nearest_double(value);
            let b = nearest_double(peak);
            let k = lift(a, b);
            &&& 0 < a <= 0x1_0000_0000_0000_0fff
            &&& 0 < b <= 0x1_0000_0000_0000_0fff
            &&& 1 <= k < 2 * b + 1
            &&& a * k < 2 * b
            &&& quotient_bits(value, peak) <= 0x20_0000_0000_0000
        }),
{
    lemma_spacing(value);
    lemma_spacing(peak);
    lemma_nearest_double_bounds(value);
    lemma_nearest_double_bounds(peak);
    let a = nearest_double(value);
    let b = nearest_double(peak);
    let k = lift(a, b);
    lemma_lift(a, b);
    assert(a * k < 2 * b) by {
        if a > b {
            assert(k == 1);
            assert(a * 1 == a);
            assert(a < 2 * b);
        }
    }
    lemma_rounded_bound(a * k * 0x10_0000_0000_0000, b, 0x20_0000_0000_0000);
}

/// `n / d` to the nearest whole number, a half to the even one.
fn round_div(n: u128, d: u128) -> (r: u128)
    requires
        0 < d <= 0x4000_0000_0000_0000_0000_0000_0000_0000,
        n <= 0x4000_0000_0000_0000_0000_0000_0000_0000,
    ensures
        r == rounded(n as nat, d as nat),
        r <= n + 1,
{
    let q: u128 = n / d;
    let m: u128 = n % d;
    assert(q <= n) by (nonlinear_arith)
        requires
            q == n / d,
            d > 0,
    ;
    if 2 * m < d || (2 * m == d && q % 2 == 0) {
        q
    } else {
        q + 1
    }
}

fn spacing_at(n: u64) -> (r: u64)
    ensures
        r == spacing(n as nat),
    decreases n,
{
    proof {
        lemma_spacing(n as nat);
    }
    if n < 0x20_0000_0000_0000 {
        1
    } else {
        proof {
            lemma_spacing((n / 2) as nat);
        }
        2 * spacing_at(n / 2)
    }
}

/// The double-precision number nearest to `n`.
fn nearest_double_of(n: u64) -> (r: u128)
    ensures
        r == nearest_double(n as nat),
        r <= 0x1_0000_0000_0000_0fff,
{
    let s: u64 = spacing_at(n);
    proof {
        lemma_spacing(n as nat);
        lemma_nearest_double_bounds(n as nat);
    }
    let k: u128 = round_div(n as u128, s as u128);
    k * (s as u128)
}

fn lift_of(a: u128, b: u128) -> (r: u128)
    requires
        0 < a <= 0x1_0000_0000_0000_0fff,
        0 < b <= 0x1_0000_0000_0000_0fff,
    ensures
        r == lift(a as nat, b as nat),
    decreases 2 * b - a,
{
    proof {
        lemma_lift(a as nat, b as nat);
    }
    if a >= b {
        1
    } else if 2 * a < b {
        proof {
            lemma_lift((2 * a) as nat, b as nat);
        }
        2 * lift_of(2 * a, b)
    } else {
        2
    }
}

/// What per cent `value` is of `peak`, rounded to a whole number.
pub fn percent(value: u64, peak: u64) -> (r: u64)
    requires
        peak > 0,
    ensures
        r == percent_of(value as nat, peak as nat),
{
    if value >= peak {
        return 100;
    }
    if value == 0 {
        proof {
            lemma_nearest_double_bounds(0);
            lemma_nearest_double_bounds(peak as nat);
            lemma_rounded_zero(nearest_double(peak as nat));
            lemma_rounded_zero(0x10_0000_0000_0000);
            assert(nearest_double(0) == 0);
        }
        return 0;
    }
    proof {
        lemma_percent_sizes(value as nat, peak as nat);
    }
    let a: u128 = nearest_double_of(value);
    let b: u128 = nearest_double_of(peak);
    let k: u128 = lift_of(a, b);
    let bits: u128 = round_div(a * k * 0x10_0000_0000_0000, b);
    proof {
        lemma_spacing((bits * 100) as nat);
        lemma_nearest_double_bounds((bits * 100) as nat);
    }
    let share: u128 = nearest_double_of((bits * 100) as u64);
    let r: u128 = round_div(share, k * 0x10_0000_0000_0000);
    r as u64
}

/// A count with thousands separators, so a five-figure token count is legible
/// at a glance.
pub fn format_thousands(value: u64) -> (r: String)
    ensures
        r@ == thousands(value as nat),
    decreases value,
{
    if value < 1000 {
        decimal_text(value)
    } else {
        let low: u64 = value % 1000;
        let mut out = format_thousands(value / 1000);
        out.append(",");
        out.append(digit_text(low / 100));
        out.append(digit_text(low / 10 % 10));
        out.append(digit_text(low % 10));
        assert(out@ =~= thousands(value as nat));
        out
    }
}

/// A count with its noun, singular where the count is one.
pub fn pluralize(count: u64, noun: &str) -> (r: String)
    ensures
        r@ == counted(count as nat, noun@),
{
    if count == 1 {
        "1 ".to_owned().concat(noun)
    } else {
        let mut out = format_thousands(count);
        out.append(" ");
        out.append(noun);
        out.append("s");
        out
    }
}

/// `bytes` in units of `unit`, in tenths.
fn tenths_of(bytes: u64, unit: u64) -> (r: u64)
    requires
        unit >= 1024,
    ensures
        r == tenths(bytes as nat, unit as nat),
{
    let size: u128 = nearest_double_of(bytes);
    let r: u128 = round_div(size * 10, unit as u128);
    proof {
        lemma_rounded_bound((size * 10) as nat, unit as nat, 0x400_0000_0000_0000);
    }
    r as u64
}

/// A number of tenths as a number with one decimal.
fn one_decimal_text(t: u64) -> (r: String)
    ensures
        r@ == one_decimal(t as nat),
{
    let mut out = decimal_text(t / 10);
    out.append(".");
    out.append(decimal_text(t % 10).as_str());
    out
}

/// Bytes as a person reads them: `845 B`, `1.2 KiB`, `3.4 MiB`.
///
/// The unit is chosen against the figure after rounding to one decimal, not
/// before, so a size just under a boundary reads as `1.0 MiB` rather than the
/// arithmetically correct but jarring `1024.0 KiB`.
pub fn format_bytes(bytes: u64) -> (r: String)
    ensures
        r@ == bytes_text(bytes as nat),
{
    if bytes < 1024 {
        return decimal_text(bytes).concat(" B");
    }
    let kib: u64 = tenths_of(bytes, 0x400);
    if kib < 10240 {
        return one_decimal_text(kib).concat(" KiB");
    }
    let mib: u64 = tenths_of(bytes, 0x10_0000);
    if mib < 10240 {
        return one_decimal_text(mib).concat(" MiB");
    }
    one_decimal_text(tenths_of(bytes, 0x4000_0000)).concat(" GiB")
}

proof fn lemma_decimal_has_no_commas(n: nat)
    ensures
        without_commas(decimal(n)) == decimal(n),
    decreases n,
{
    reveal_with_fuel(Seq::filter, 2);
    if n >= 10 {
        lemma_decimal_has_no_commas(n / 10);
        assert(decimal(n).drop_last() =~= decimal(n / 10));
    } else {
        assert(decimal(n).drop_last() =~= Seq::<char>::empty());
    }
}

/// Grouping the digits changes none of them: without its commas the text is
/// the plain decimal number.
pub proof fn law_thousands_only_adds_commas(n: nat)
    ensures
        without_commas(thousands(n)) == decimal(n),
    decreases n,
{
    let f = |c: char| c != ',';
    if n < 1000 {
        lemma_decimal_has_no_commas(n);
    } else {
        let low = three_digits(n % 1000);
        law_thousands_only_adds_commas(n / 1000);
        reveal_strlit(",");
        Seq::filter_distributes_over_add(thousands(n / 1000) + ","@, low, f);
        Seq::filter_distributes_over_add(thousands(n / 1000), ","@, f);
        reveal_with_fuel(Seq::filter, 4);
        assert(","@.drop_last() =~= Seq::<char>::empty());
        assert(","@.filter(f) =~= Seq::<char>::empty());
        assert(low.drop_last().drop_last().drop_last() =~= Seq::<char>::empty());
        assert(low.filter(f) =~= low);
        assert(n / 10 / 10 / 10 == n / 1000);
        assert(n / 10 / 10 % 10 == n % 1000 / 100);
        assert(n / 10 % 10 == n % 1000 / 10 % 10);
        assert(n % 10 == n % 1000 % 10);
        assert(decimal(n) =~= decimal(n / 1000) + low) by {
            reveal_with_fuel(decimal, 4);
        }
    }
}

/// A size is never printed in a unit it has outgrown: short of GiB the figure,
/// rounded as it is printed, stays under 1024.
pub proof fn law_size_fits_its_unit(bytes: nat)
    requires
        bytes >= 1024,
    ensures
        ({
            ||| bytes_text(bytes) == one_decimal(tenths(bytes, 0x400)) + " KiB"@ && tenths(
                bytes,
                0x400,
            ) < 10240
            ||| bytes_text(bytes) == one_decimal(tenths(bytes, 0x10_0000)) + " MiB"@ && tenths(
                bytes,
                0x10_0000,
            ) < 10240
            ||| bytes_text(bytes) == one_decimal(tenths(bytes, 0x4000_0000)) + " GiB"@ && tenths(
                bytes,
                0x10_0000,
            ) >= 10240
        }),
{
}

proof fn lemma_rounded_is_near(n: nat, d: nat)
    requires
        d > 0,
    ensures
        2 * (rounded(n, d) * d - n) <= d,
        2 * (n - rounded(n, d) * d) <= d,
{
    let q = n / d;
    let m = n % d;
    assert(n == d * q + m) by {
        vstd::arithmetic::div_mod::lemma_fundamental_div_mod(n as int, d as int);
    }
    assert(0 <= m < d);
    assert(q * d == d * q && (q + 1) * d == d * q + d) by (nonlinear_arith);
}

proof fn lemma_spacing_of_hundredfold(n: nat)
    requires
        n < 0x1000_0000_0000_0000,
    ensures
        1 <= spacing(n) <= 128,
{
    reveal_with_fuel(spacing, 9);
}

proof fn lemma_percentage_is_near(value: nat, peak: nat)
    requires
        0 < value < peak < 0x20_0000_0000_0000,
    ensures
        0x2000_0000_0000 * (percent_of(value, peak) * peak - 100 * value) <= 0x1000_0000_0001
            * peak,
        0x2000_0000_0000 * (100 * value - percent_of(value, peak) * peak) <= 0x1000_0000_0001
            * peak,
{
    lemma_nearest_double_bounds(value);
    lemma_nearest_double_bounds(peak);
    lemma_percent_sizes(value, peak);
    let a = value as int;
    let b = peak as int;
    let k = lift(value, peak) as int;
    let unit = k * 0x10_0000_0000_0000;
    lemma_lift(value, peak);
    let q = quotient_bits(value, peak) as int;
    assert(value * lift(value, peak) * 0x10_0000_0000_0000 == a * unit) by (nonlinear_arith)
        requires
            a == value,
            k == lift(value, peak),
            unit == k * 0x10_0000_0000_0000,
    ;
    lemma_rounded_is_near((a * unit) as nat, peak);
    let hundredfold = (q * 100) as nat;
    lemma_spacing_of_hundredfold(hundredfold);
    let s = spacing(hundredfold) as int;
    lemma_rounded_is_near(hundredfold, s as nat);
    let x = nearest_double(hundredfold) as int;
    assert(2 * (x - 100 * q) <= 128 && 2 * (100 * q - x) <= 128);
    let p = percent_of(value, peak) as int;
    assert(unit >= 0x10_0000_0000_0000);
    lemma_rounded_is_near(x as nat, unit as nat);
    assert(2 * (p * unit - x) <= unit && 2 * (x - p * unit) <= unit);
    assert(2 * (q * b - a * unit) <= b && 2 * (a * unit - q * b) <= b);
    assert(2 * ((p * b - 100 * a) * unit) <= b * unit + 228 * b && 2 * ((100 * a - p * b) * unit)
        <= b * unit + 228 * b) by (nonlinear_arith)
        requires
            b > 0,
            2 * (p * unit - x) <= unit,
            2 * (x - p * unit) <= unit,
            2 * (x - 100 * q) <= 128,
            2 * (100 * q - x) <= 128,
            2 * (q * b - a * unit) <= b,
            2 * (a * unit - q * b) <= b,
    {
        assert((2 * (p * unit - x)) * b <= unit * b);
        assert((2 * (x - p * unit)) * b <= unit * b);
        assert((2 * (x - 100 * q)) * b <= 128 * b);
        assert((2 * (100 * q - x)) * b <= 128 * b);
        assert((p * b - 100 * a) * unit == p * unit * b - 100 * (a * unit));
    }
    let d = p * b - 100 * a;
    lemma_scaled_down(d, b, unit);
    lemma_scaled_down(-d, b, unit);
    assert((100 * a - p * b) * unit == (-d) * unit);
}

proof fn lemma_scaled_down(d: int, b: int, unit: int)
    requires
        b > 0,
        unit >= 0x10_0000_0000_0000,
        2 * (d * unit) <= b * unit + 228 * b,
    ensures
        0x2000_0000_0000 * d <= 0x1000_0000_0001 * b,
{
    assert(0x2000_0000_0000 * d <= 0x1000_0000_0001 * b) by (nonlinear_arith)
        requires
            b > 0,
            unit >= 0x10_0000_0000_0000,
            2 * (d * unit) <= b * unit + 228 * b,
    {
        assert(0x1000_0000_0000 * (228 * b) <= b * unit);
        assert((0x2000_0000_0000 * d) * unit <= (0x1000_0000_0001 * b) * unit);
    }
}

/// A share is told as the nearest whole percentage of the peak, up to what a fraction
/// loses in double precision: none of nothing, and all of it from the peak on.
pub proof fn law_a_percentage_is_the_nearest(value: u64, peak: u64, r: u64)
    requires
        call_ensures(percent, (value, peak), r),
        0 < peak < 0x20_0000_0000_0000,
    ensures
        r <= 100,
        value == 0 ==> r == 0,
        value >= peak ==> r == 100,
        value < peak ==> 0x2000_0000_0000 * (r * peak - 100 * value) <= 0x1000_0000_0001 * peak,
        value < peak ==> 0x2000_0000_0000 * (100 * value - r * peak) <= 0x1000_0000_0001 * peak,
{
    let p = percent_of(value as nat, peak as nat) as int;
    let product = p * peak;
    if 0 < value < peak {
        lemma_percentage_is_near(value as nat, peak as nat);
        assert(percent_of(value as nat, peak as nat) * (peak as nat) == product);
        assert(p <= 100) by (nonlinear_arith)
            requires
                product == p * peak,
                0x2000_0000_0000 * (product - 100 * value) <= 0x1000_0000_0001 * peak,
                value < peak,
                peak > 0,
        {
            if p >= 101 {
                assert(p * peak >= 101 * peak);
            }
        }
    }
    if value == 0 {
        lemma_nothing_is_no_percentage(peak as nat);
        assert(product == 0) by (nonlinear_arith)
            requires
                product == p * peak,
                p == 0,
        ;
    }
    assert(r * peak == product);
}

proof fn lemma_nothing_is_no_percentage(peak: nat)
    requires
        0 < peak < 0x20_0000_0000_0000,
    ensures
        percent_of(0, peak) == 0,
{
    lemma_nearest_double_bounds(0);
    lemma_nearest_double_bounds(peak);
    let k = lift(0, peak);
    assert(k == 1);
    assert(0 * k * 0x10_0000_0000_0000 == 0);
    lemma_rounded_zero(peak);
    assert(quotient_bits(0, peak) == 0);
    lemma_rounded_zero(0x10_0000_0000_0000);
}

proof fn lemma_decimal_digits(n: nat)
    ensures
        forall|i: int| 0 <= i < decimal(n).len() ==> #[trigger] decimal(n)[i] != ',',
        n < 1000 ==> 0 < decimal(n).len() <= 3,
    decreases n,
{
    reveal_with_fuel(decimal, 3);
    if n >= 10 {
        lemma_decimal_digits(n / 10);
        assert forall|i: int| 0 <= i < decimal(n).len() implies #[trigger] decimal(n)[i]
            != ',' by {
            if i < decimal(n).len() - 1 {
                assert(decimal(n)[i] == decimal(n / 10)[i]);
            }
        }
    }
}

proof fn lemma_commas_stand_by_three(n: nat)
    ensures
        thousands(n).len() > 0,
        thousands(n)[0] != ',',
        forall|i: int|
            0 <= i < thousands(n).len() ==> (#[trigger] thousands(n)[i] == ',' <==> (
            thousands(n).len() - i) % 4 == 0),
    decreases n,
{
    let s = thousands(n);
    if n < 1000 {
        lemma_decimal_digits(n);
    } else {
        reveal_strlit(",");
        let front = thousands(n / 1000);
        lemma_commas_stand_by_three(n / 1000);
        let m = front.len() as int;
        assert(s.len() == m + 4);
        assert(s[0] == front[0]);
        assert forall|i: int| 0 <= i < s.len() implies (#[trigger] s[i] == ',' <==> (s.len() - i)
            % 4 == 0) by {
            if i < m {
                assert(s[i] == front[i]);
                assert((m + 4 - i) % 4 == (m - i) % 4);
            } else if i > m {
                assert(s[i] == three_digits(n % 1000)[i - m - 1]);
            }
        }
    }
}

/// A large number is the same number in groups of three figures: commas stand before
/// every third figure from the right, and nowhere else.
pub proof fn law_figures_stand_in_threes(value: u64, plain: String, r: String)
    requires
        call_ensures(decimal_text, (value,), plain),
        call_ensures(format_thousands, (value,), r),
    ensures
        without_commas(r@) == plain@,
        r@.len() > 0 && r@[0] != ',',
        forall|i: int|
            0 <= i < r@.len() ==> (#[trigger] r@[i] == ',' <==> (r@.len() - i) % 4 == 0),
{
    law_thousands_only_adds_commas(value as nat);
    lemma_commas_stand_by_three(value as nat);
}

/// One thing is told in the singular and every other number in the plural, behind the
/// number in groups of three.
pub proof fn law_only_one_is_singular(count: u64, noun: &str, number: String, r: String)
    requires
        call_ensures(format_thousands, (count,), number),
        call_ensures(pluralize, (count, noun), r),
    ensures
        count == 1 ==> r@ == "1 "@ + noun@,
        count != 1 ==> r@ == number@ + " "@ + noun@ + "s"@,
{
}

/// A size told in tenths of a unit: the figures with a point before the last, the unit's
/// name behind them, and no more than half a tenth off.
pub open spec fn told_in(
    r: Seq<char>,
    t: nat,
    bytes: int,
    unit: int,
    name: Seq<char>,
) -> bool {
    &&& r == decimal(t / 10) + "."@ + decimal(t % 10) + name
    &&& 2 * (t * unit - 10 * bytes) <= unit
    &&& 2 * (10 * bytes - t * unit) <= unit
}

/// A size is told in bytes below one KiB, and otherwise to the nearest tenth of the
/// smallest unit of which it has fewer than a thousand and twenty-four.
pub proof fn law_a_size_is_told_to_a_tenth(bytes: u64, plain: String, r: String)
    requires
        call_ensures(decimal_text, (bytes,), plain),
        call_ensures(format_bytes, (bytes,), r),
        bytes < 0x20_0000_0000_0000,
    ensures
        bytes < 1024 ==> r@ == plain@ + " B"@,
        bytes >= 1024 && 20 * bytes < 20479 * 0x400 ==> exists|t: nat|
            told_in(r@, t, bytes as int, 0x400, " KiB"@),
        20 * bytes > 20479 * 0x400 && 20 * bytes < 20479 * 0x10_0000 ==> exists|t: nat|
            told_in(r@, t, bytes as int, 0x10_0000, " MiB"@),
        20 * bytes > 20479 * 0x10_0000 ==> exists|t: nat|
            told_in(r@, t, bytes as int, 0x4000_0000, " GiB"@),
{
    let n = bytes as nat;
    lemma_nearest_double_bounds(n);
    lemma_rounded_is_near(n * 10, 0x400);
    lemma_rounded_is_near(n * 10, 0x10_0000);
    lemma_rounded_is_near(n * 10, 0x4000_0000);
    let kib = tenths(n, 0x400);
    let mib = tenths(n, 0x10_0000);
    let gib = tenths(n, 0x4000_0000);
    if n >= 1024 {
        if kib < 10240 {
            assert(told_in(r@, kib, bytes as int, 0x400, " KiB"@));
        } else if mib < 10240 {
            assert(told_in(r@, mib, bytes as int, 0x10_0000, " MiB"@));
        } else {
            assert(told_in(r@, gib, bytes as int, 0x4000_0000, " GiB"@));
        }
    }
}

} // verus!
