//! Numbers as people read them: sizes, counts and shares, and the rounding behind them.

use vstd::prelude::*;
use vstd::string::*;
use crate::text::{cat2, cat3, dec, decimal};

verus! {

// ---------------------------------------------------------------- bounds

pub open spec fn max(a: nat, b: nat) -> nat {
    if a >= b {
        a
    } else {
        b
    }
}

pub open spec fn min(a: nat, b: nat) -> nat {
    if a <= b {
        a
    } else {
        b
    }
}

pub fn larger(a: u64, b: u64) -> (r: u64)
    ensures
        r == max(a as nat, b as nat),
{
    if a >= b {
        a
    } else {
        b
    }
}

pub fn smaller(a: u64, b: u64) -> (r: u64)
    ensures
        r == min(a as nat, b as nat),
{
    if a <= b {
        a
    } else {
        b
    }
}

/// `n`, or the greatest 64-bit number when it is beyond it.
pub open spec fn saturated(n: int) -> nat {
    if n > u64::MAX {
        u64::MAX as nat
    } else {
        n as nat
    }
}

/// `a` less `b`, or nothing when `b` is more.
pub open spec fn less(a: int, b: int) -> nat {
    if a >= b {
        (a - b) as nat
    } else {
        0
    }
}

pub fn wide_mul(a: u64, b: u64) -> (r: u128)
    ensures
        r == a * b,
{
    assert(a * b <= 0xffff_ffff_ffff_ffff * 0xffff_ffff_ffff_ffff) by (nonlinear_arith)
        requires
            a <= 0xffff_ffff_ffff_ffff,
            b <= 0xffff_ffff_ffff_ffff,
    ;
    (a as u128) * (b as u128)
}

pub fn sat_mul(a: u64, b: u64) -> (r: u64)
    ensures
        r == saturated(a * b),
{
    let p = wide_mul(a, b);
    if p > u64::MAX as u128 {
        u64::MAX
    } else {
        p as u64
    }
}

pub fn sat_add(a: u64, b: u64) -> (r: u64)
    ensures
        r == saturated(a + b),
{
    if a > u64::MAX - b {
        u64::MAX
    } else {
        a + b
    }
}

pub fn sat_sub(a: u64, b: u64) -> (r: u64)
    ensures
        r == less(a as int, b as int),
{
    if a >= b {
        a - b
    } else {
        0
    }
}

// ---------------------------------------------------------------- rounding

/// The spacing of doubles at `n`: the least power of two that leaves `n` below 53 bits.
pub open spec fn spacing(n: nat) -> nat
    decreases n,
{
    if n < 0x20_0000_0000_0000 {
        1
    } else {
        2 * spacing(n / 2)
    }
}

/// `a / d` rounded to the nearest whole number, halves to the even one.
pub open spec fn half_even(a: nat, d: nat) -> nat {
    let q = a / d;
    let r = a % d;
    if 2 * r < d || (2 * r == d && q % 2 == 0) {
        q
    } else {
        q + 1
    }
}

/// The double nearest to `n`, which is a whole number too.
pub open spec fn nearest_double(n: nat) -> nat {
    half_even(n, spacing(n)) * spacing(n)
}

/// A whole number of at most 53 bits is a double.
pub proof fn law_small_numbers_are_doubles(n: nat)
    requires
        n < 0x20_0000_0000_0000,
    ensures
        nearest_double(n) == n,
{
    assert(n / 1 == n && n % 1 == 0);
    assert(half_even(n, 1) == n);
    assert(n * 1 == n);
}

pub proof fn lemma_spacing(n: nat)
    ensures
        spacing(n) >= 1,
        n >= 0x20_0000_0000_0000 ==> 0x10_0000_0000_0000 * spacing(n) <= n,
        n < 0x20_0000_0000_0000 * spacing(n),
    decreases n,
{
    if n >= 0x20_0000_0000_0000 {
        lemma_spacing(n / 2);
    }
}

proof fn lemma_half_even_bounds(a: nat, d: nat)
    requires
        d >= 1,
    ensures
        half_even(a, d) * d <= a + d,
        half_even(a, d) * d + d >= a,
        half_even(a, d) <= a / d + 1,
{
    let q = a / d;
    let r = a % d;
    assert(a == q * d + r && 0 <= r < d) by (nonlinear_arith)
        requires
            d >= 1,
            q == a / d,
            r == a % d,
    ;
    assert((q + 1) * d == q * d + d) by (nonlinear_arith);
}

pub proof fn lemma_nearest_bound(n: nat)
    ensures
        nearest_double(n) <= 2 * n,
        n < 0x8000_0000_0000_0000_0000_0000_0000_0000 ==> nearest_double(n) <= n + spacing(n),
{
    lemma_spacing(n);
    lemma_half_even_bounds(n, spacing(n));
    if n < 0x20_0000_0000_0000 {
        law_small_numbers_are_doubles(n);
    }
}

fn round_half_even(a: u128, d: u128) -> (r: u128)
    requires
        1 <= d,
        a < 0x8000_0000_0000_0000_0000_0000_0000_0000,
        d < 0x4000_0000_0000_0000_0000_0000_0000_0000,
    ensures
        r == half_even(a as nat, d as nat),
        r <= a / d + 1,
{
    let q: u128 = a / d;
    let rest: u128 = a % d;
    if 2 * rest < d || (2 * rest == d && q % 2 == 0) {
        q
    } else {
        q + 1
    }
}

/// The double nearest to `n`.
pub fn as_double(n: u128) -> (r: u128)
    requires
        n < 0x1000_0000_0000_0000_0000_0000_0000_0000,
    ensures
        r == nearest_double(n as nat),
        r <= 2 * n,
{
    let mut t: u128 = n;
    let mut u: u128 = 1;
    while t >= 0x20_0000_0000_0000
        invariant
            n < 0x1000_0000_0000_0000_0000_0000_0000_0000,
            1 <= u,
            u * t <= n,
            u <= n + 1,
            spacing(n as nat) == u * spacing(t as nat),
        decreases t,
    {
        proof {
            let half = t / 2;
            assert(u * spacing(t as nat) == (2 * u) * spacing(half as nat)) by (nonlinear_arith)
                requires
                    spacing(t as nat) == 2 * spacing(half as nat),
            ;
            assert((2 * u) * half <= u * t) by (nonlinear_arith)
                requires
                    half == t / 2,
            ;
            assert(2 * u <= u * t) by (nonlinear_arith)
                requires
                    t >= 2,
            ;
        }
        t = t / 2;
        u = 2 * u;
    }
    assert(spacing(n as nat) == u) by (nonlinear_arith)
        requires
            spacing(n as nat) == u * spacing(t as nat),
            spacing(t as nat) == 1,
    ;
    proof {
        lemma_nearest_bound(n as nat);
        lemma_half_even_bounds(n as nat, u as nat);
    }
    let q = round_half_even(n, u);
    q * u
}

/// Nine tenths of `n`, as doubles compute it: `n` and the factor are rounded to doubles, so
/// is their product, and the fraction is dropped. The factor is the double nearest to nine
/// tenths, 8106479329266893 / 2^53.
pub open spec fn nine_tenths_of(n: nat) -> nat {
    nearest_double(nearest_double(n) * 8106479329266893) / 0x20_0000_0000_0000
}

pub fn nine_tenths(n: u64) -> (r: u64)
    ensures
        r == nine_tenths_of(n as nat),
{
    proof {
        lemma_nearest_u64(n as nat);
    }
    let a = as_double(n as u128);
    let p: u128 = a * 8106479329266893;
    proof {
        lemma_nearest_bound(p as nat);
        lemma_spacing(p as nat);
    }
    let d = as_double(p);
    assert(d <= p + spacing(p as nat));
    assert(d / 0x20_0000_0000_0000 <= 0xffff_ffff_ffff_ffff) by (nonlinear_arith)
        requires
            d <= p + spacing(p as nat),
            p <= 0x1_0000_0000_0000_0000 * 8106479329266893,
            p >= 0x20_0000_0000_0000 ==> 0x10_0000_0000_0000 * spacing(p as nat) <= p,
            p < 0x20_0000_0000_0000 ==> spacing(p as nat) == 1,
    ;
    (d / 0x20_0000_0000_0000) as u64
}

proof fn lemma_nearest_u64(n: nat)
    requires
        n <= 0xffff_ffff_ffff_ffff,
    ensures
        nearest_double(n) <= 0x1_0000_0000_0000_0000,
{
    lemma_spacing(n);
    let u = spacing(n);
    if n < 0x20_0000_0000_0000 {
    } else {
        lemma_spacing_value(n);
        let q = n / u;
        lemma_half_even_bounds(n, u);
        assert(half_even(n, u) * u <= 0x1_0000_0000_0000_0000) by (nonlinear_arith)
            requires
                half_even(n, u) <= n / u + 1,
                n <= 0xffff_ffff_ffff_ffff,
                u == 2 || u == 4 || u == 8 || u == 16 || u == 32 || u == 64 || u == 128 || u == 256
                    || u == 512 || u == 1024 || u == 2048,
        ;
    }
}

proof fn lemma_spacing_value(n: nat)
    requires
        0x20_0000_0000_0000 <= n <= 0xffff_ffff_ffff_ffff,
    ensures
        spacing(n) == 2 || spacing(n) == 4 || spacing(n) == 8 || spacing(n) == 16 || spacing(n)
            == 32 || spacing(n) == 64 || spacing(n) == 128 || spacing(n) == 256 || spacing(n) == 512
            || spacing(n) == 1024 || spacing(n) == 2048,
{
    reveal_with_fuel(spacing, 12);
}

// ---------------------------------------------------------------- text

/// A number of tenths, with its point.
pub open spec fn tenths_text(t: nat) -> Seq<char> {
    dec(t / 10) + "."@ + dec(t % 10)
}

/// `n` units of `unit` each, rounded to one decimal, halves to even.
pub open spec fn one_decimal(n: nat, unit: nat) -> Seq<char> {
    tenths_text(half_even(nearest_double(n) * 10, unit))
}

pub fn show_tenths(n: u64, unit: u64) -> (r: String)
    requires
        unit >= 1,
    ensures
        r@ == one_decimal(n as nat, unit as nat),
{
    proof {
        lemma_nearest_u64(n as nat);
    }
    let a: u128 = as_double(n as u128);
    let t = round_half_even(a * 10, unit as u128);
    let whole: u128 = t / 10;
    let last: u128 = t % 10;
    assert(a * 10 / (unit as int) <= a * 10) by (nonlinear_arith)
        requires
            unit >= 1,
    ;
    cat3(decimal_wide(whole).as_str(), ".", decimal_wide(last).as_str())
}

pub fn decimal_wide(n: u128) -> (r: String)
    ensures
        r@ == dec(n as nat),
    decreases n,
{
    if n <= 0xffff_ffff_ffff_ffff {
        decimal(n as u64)
    } else {
        cat2(decimal_wide(n / 10).as_str(), decimal((n % 10) as u64).as_str())
    }
}

/// The unit in which a size is shown: its bytes and its name.
pub open spec fn size_unit(n: nat) -> (nat, Seq<char>) {
    if n < 0x10_0000 {
        (0x400, " KiB"@)
    } else if n < 0x4000_0000 {
        (0x10_0000, " MiB"@)
    } else if n < 0x100_0000_0000 {
        (0x4000_0000, " GiB"@)
    } else {
        (0x100_0000_0000, " TiB"@)
    }
}

/// A size in bytes: in the largest unit that it fills, to one decimal below a hundred and
/// to none from there on.
pub open spec fn bytes_text(n: nat) -> Seq<char> {
    if n < 1024 {
        dec(n) + " B"@
    } else {
        let (unit, name) = size_unit(n);
        if nearest_double(n) < 100 * unit {
            one_decimal(n, unit) + name
        } else {
            dec(half_even(nearest_double(n), unit)) + name
        }
    }
}

pub fn bytes(n: u64) -> (r: String)
    ensures
        r@ == bytes_text(n as nat),
{
    if n < 1024 {
        return cat2(decimal(n).as_str(), " B");
    }
    let (unit, name): (u64, &str) = if n < 0x10_0000 {
        (0x400, " KiB")
    } else if n < 0x4000_0000 {
        (0x10_0000, " MiB")
    } else if n < 0x100_0000_0000 {
        (0x4000_0000, " GiB")
    } else {
        (0x100_0000_0000, " TiB")
    };
    proof {
        lemma_nearest_u64(n as nat);
    }
    let a: u128 = as_double(n as u128);
    if a < 100 * (unit as u128) {
        cat2(show_tenths(n, unit).as_str(), name)
    } else {
        cat2(decimal_wide(round_half_even(a, unit as u128)).as_str(), name)
    }
}

/// The digits of `n` in groups of three.
pub open spec fn count_text(n: nat) -> Seq<char>
    decreases n,
{
    if n < 1000 {
        dec(n)
    } else {
        count_text(n / 1000) + ","@ + three_digits(n % 1000)
    }
}

pub open spec fn three_digits(n: nat) -> Seq<char> {
    dec(n / 100) + dec((n / 10) % 10) + dec(n % 10)
}

pub fn count(n: u64) -> (r: String)
    ensures
        r@ == count_text(n as nat),
    decreases n,
{
    if n < 1000 {
        decimal(n)
    } else {
        let rest: u64 = n % 1000;
        let tail = cat3(
            decimal(rest / 100).as_str(),
            decimal((rest / 10) % 10).as_str(),
            decimal(rest % 10).as_str(),
        );
        cat3(count(n / 1000).as_str(), ",", tail.as_str())
    }
}

// ---------------------------------------------------------------- shares

/// The least power of two that brings `a / b` up to the fifty-three digits of a double.
pub open spec fn scale_up(a: nat, b: nat) -> nat
    decreases
            if a < 0x10_0000_0000_0000 * b {
                0x10_0000_0000_0000 * b - a
            } else {
                0
            },
{
    if a == 0 || a >= 0x10_0000_0000_0000 * b {
        1
    } else {
        2 * scale_up(2 * a, b)
    }
}

/// The least power of two that brings `a / b` down to the fifty-three digits of a double.
pub open spec fn scale_down(a: nat, b: nat) -> nat
    decreases a - b,
{
    if b == 0 || a < 0x20_0000_0000_0000 * b {
        1
    } else {
        2 * scale_down(a, 2 * b)
    }
}

/// A double that need not be whole: `digits * times / over`, with `times` and `over` powers
/// of two.
#[derive(Clone, Copy)]
pub struct Double {
    pub digits: u128,
    pub times: u128,
    pub over: u128,
}

/// The double nearest to `a / b`, halves to even, as its digits, the power of two that they
/// stand for and the power of two that they are over.
pub open spec fn nearest_quotient(a: nat, b: nat) -> (nat, nat, nat) {
    let over = scale_up(a, b);
    let times = scale_down(a * over, b);
    (half_even(a * over, b * times), times, over)
}

impl Double {
    pub open spec fn parts(self) -> (nat, nat, nat) {
        (self.digits as nat, self.times as nat, self.over as nat)
    }
}

/// The double nearest to `a / b`.
fn quotient(a: u128, b: u128) -> (r: Double)
    requires
        a <= 0x1_0000_0000_0000_0000,
        1 <= b <= 0x1_0000_0000_0000_0000,
    ensures
        r.parts() == nearest_quotient(a as nat, b as nat),
        r.digits == 0 || 0x10_0000_0000_0000 <= r.digits <= 0x20_0000_0000_0000,
        1 <= r.times <= 0x2000,
        1 <= r.over <= 0x20_0000_0000_0000_0000_0000_0000_0000,
{
    let mut x: u128 = a;
    let mut over: u128 = 1;
    let low: u128 = 0x10_0000_0000_0000 * b;
    while x != 0 && x < low
        invariant
            a <= 0x1_0000_0000_0000_0000,
            1 <= b <= 0x1_0000_0000_0000_0000,
            low == 0x10_0000_0000_0000 * b,
            x == a * over,
            a == 0 ==> over == 1,
            1 <= over,
            x == 0 || over <= x,
            over > 1 ==> x < 2 * low,
            x == 0 <==> a == 0,
            scale_up(a as nat, b as nat) == over * scale_up(x as nat, b as nat),
        decreases
                if x < low {
                    low - x
                } else {
                    0
                },
    {
        assert(a * (2 * over) == 2 * (a * over)) by (nonlinear_arith);
        assert(over * (2 * scale_up(2 * x as nat, b as nat)) == (2 * over) * scale_up(
            2 * x as nat,
            b as nat,
        )) by (nonlinear_arith);
        x = 2 * x;
        over = 2 * over;
    }
    assert(scale_up(a as nat, b as nat) == over) by (nonlinear_arith)
        requires
            scale_up(a as nat, b as nat) == over * scale_up(x as nat, b as nat),
            scale_up(x as nat, b as nat) == 1,
    ;
    let mut y: u128 = b;
    let mut times: u128 = 1;
    while x >= 0x20_0000_0000_0000 * y
        invariant
            1 <= b <= 0x1_0000_0000_0000_0000,
            x <= 0x40_0000_0000_0000_0000_0000_0000_0000,
            y == b * times,
            1 <= times <= y,
            b <= y,
            y <= 0x4_0000_0000_0000_0000,
            times > 1 ==> 0x10_0000_0000_0000 * y <= x,
            scale_down(x as nat, b as nat) == times * scale_down(x as nat, y as nat),
        decreases x - y,
    {
        assert(b * (2 * times) == 2 * (b * times)) by (nonlinear_arith);
        assert(times * (2 * scale_down(x as nat, 2 * y as nat)) == (2 * times) * scale_down(
            x as nat,
            2 * y as nat,
        )) by (nonlinear_arith);
        y = 2 * y;
        times = 2 * times;
    }
    assert(scale_down(x as nat, b as nat) == times) by (nonlinear_arith)
        requires
            scale_down(x as nat, b as nat) == times * scale_down(x as nat, y as nat),
            scale_down(x as nat, y as nat) == 1,
    ;
    if over == 1 {
        assert(times <= 0x2000);
    } else {
        assert(times < 2) by (nonlinear_arith)
            requires
                times > 1 ==> 0x10_0000_0000_0000 * (b * times) <= x,
                1 <= b,
                x < 2 * (0x10_0000_0000_0000 * b),
        ;
    }
    let digits = round_half_even(x, y);
    assert(x as int / y as int <= 0x1f_ffff_ffff_ffff) by (nonlinear_arith)
        requires
            x < 0x20_0000_0000_0000 * y,
            y >= 1,
    ;
    if x > 0 {
        assert(x as int / y as int >= 0x10_0000_0000_0000) by (nonlinear_arith)
            requires
                x >= 0x10_0000_0000_0000 * y,
                y >= 1,
        ;
    }
    Double { digits, times, over }
}

/// The share of `part` in `whole` as a double: both are rounded to doubles, and so is their
/// quotient. Nothing of nothing is 0.
pub open spec fn share_of(part: nat, whole: nat) -> (nat, nat, nat) {
    if whole == 0 {
        (0, 1, 1)
    } else {
        nearest_quotient(nearest_double(part), nearest_double(whole))
    }
}

/// Whether the share of `part` in `whole`, as a double, is above one half.
pub open spec fn above_half(part: nat, whole: nat) -> bool {
    let (digits, times, over) = share_of(part, whole);
    2 * (digits * times) > over
}

/// The share of `part` in `whole` in whole percent: the share as a double, a hundred times
/// that as a double, and the whole number nearest to it, halves to even.
pub open spec fn percent_of(part: nat, whole: nat) -> nat {
    let (digits, times, over) = share_of(part, whole);
    let (more_digits, more_times, more_over) = nearest_quotient(100 * digits, 1);
    half_even(more_digits * more_times * times, more_over * over)
}

fn share(part: u64, whole: u64) -> (r: Double)
    ensures
        r.parts() == share_of(part as nat, whole as nat),
        r.digits == 0 || 0x10_0000_0000_0000 <= r.digits <= 0x20_0000_0000_0000,
        1 <= r.times <= 0x2000,
        1 <= r.over <= 0x20_0000_0000_0000_0000_0000_0000_0000,
{
    if whole == 0 {
        return Double { digits: 0, times: 1, over: 1 };
    }
    proof {
        lemma_nearest_u64(part as nat);
        lemma_nearest_u64(whole as nat);
        lemma_nearest_positive(whole as nat);
    }
    quotient(as_double(part as u128), as_double(whole as u128))
}

proof fn lemma_nearest_positive(n: nat)
    requires
        1 <= n,
    ensures
        1 <= nearest_double(n),
{
    lemma_spacing(n);
    let u = spacing(n);
    if n < 0x20_0000_0000_0000 {
        law_small_numbers_are_doubles(n);
    } else {
        assert(n / u >= 1) by (nonlinear_arith)
            requires
                1 <= u <= n,
        ;
        assert(half_even(n, u) * u >= 1) by (nonlinear_arith)
            requires
                half_even(n, u) >= 1,
                u >= 1,
        ;
    }
}

pub fn is_above_half(part: u64, whole: u64) -> (r: bool)
    ensures
        r == above_half(part as nat, whole as nat),
{
    let s = share(part, whole);
    assert(s.digits * s.times <= 0x20_0000_0000_0000 * 0x2000) by (nonlinear_arith)
        requires
            s.digits <= 0x20_0000_0000_0000,
            s.times <= 0x2000,
    ;
    2 * (s.digits * s.times) > s.over
}

pub fn percent(part: u64, whole: u64) -> (r: String)
    ensures
        r@ == dec(percent_of(part as nat, whole as nat)),
{
    let s = share(part, whole);
    let t = quotient(100 * s.digits, 1);
    assert(scale_up(100 * s.digits as nat, 1) == 1);
    assert(t.digits * t.times <= 0x20_0000_0000_0000 * 0x2000) by (nonlinear_arith)
        requires
            t.digits <= 0x20_0000_0000_0000,
            t.times <= 0x2000,
    ;
    assert(t.digits * t.times * s.times <= 0x20_0000_0000_0000 * 0x2000 * 0x2000) by (nonlinear_arith)
        requires
            t.digits * t.times <= 0x20_0000_0000_0000 * 0x2000,
            s.times <= 0x2000,
    ;
    decimal_wide(round_half_even(t.digits * t.times * s.times, t.over * s.over))
}

} // verus!
