//! A quotient of seconds as a double-precision number holds it, in whole
//! nanoseconds. Such a number has a mantissa of fifty-three bits, and an
//! operation gives the one that is nearest to the exact result.

use vstd::prelude::*;

verus! {

/// The nanoseconds of a second.
pub const NANOS_PER_SECOND: u128 = 1_000_000_000;

/// The whole number nearest to a quotient; the even one of two that are equally
/// near.
pub open spec fn nearest_quotient(n: nat, d: nat) -> nat {
    let below = n / d;
    let rest = n % d;
    if 2 * rest > d || 2 * rest == d && below % 2 == 1 {
        below + 1
    } else {
        below
    }
}

/// The least power of two that, as a divisor, leaves a quotient no more than
/// fifty-three bits before its point.
pub open spec fn scale_down(n: nat, d: nat) -> nat
    decreases n - d,
{
    if d == 0 || n < 0x20_0000_0000_0000 * d {
        1
    } else {
        2 * scale_down(n, 2 * d)
    }
}

/// The least power of two that, as a factor, gives a quotient fifty-three bits
/// before its point.
pub open spec fn scale_up(n: nat, d: nat) -> nat
    decreases 0x20_0000_0000_0000 * d - n,
{
    if n == 0 || n >= 0x10_0000_0000_0000 * d {
        1
    } else {
        2 * scale_up(2 * n, d)
    }
}

/// The whole number that the double-precision number nearest to `n` holds.
pub open spec fn whole_double(n: nat) -> nat {
    nearest_quotient(n, scale_down(n, 1)) * scale_down(n, 1)
}

/// A double-precision number that is not negative: its mantissa times `up`, over
/// `down`.
pub struct DoubleView {
    pub mantissa: nat,
    pub up: nat,
    pub down: nat,
}

/// The double-precision number nearest to a quotient.
pub open spec fn double_quotient(n: nat, d: nat) -> DoubleView {
    let up = scale_down(n, d);
    let down = scale_up(n, d * up);
    DoubleView { mantissa: nearest_quotient(n * down, d * up), up, down }
}

/// The nanoseconds nearest to a number of seconds; of two that are equally near,
/// the even ones.
pub open spec fn nanos_of(seconds: DoubleView) -> nat {
    nearest_quotient(seconds.mantissa * seconds.up * NANOS_PER_SECOND as nat, seconds.down)
}

/// How many nanoseconds `count` parts last of which `rate` make up a second,
/// where the seconds are counted by a double-precision number.
pub open spec fn parts_nanos(count: nat, rate: nat) -> nat {
    nanos_of(double_quotient(whole_double(count), rate))
}

/// The whole number nearest to a quotient; the even one of two that are equally
/// near.
fn nearest(n: u128, d: u128) -> (whole: u128)
    requires
        n < u128::MAX,
        0 < d <= u128::MAX / 2,
    ensures
        whole == nearest_quotient(n as nat, d as nat),
{
    let below: u128 = n / d;
    let rest: u128 = n % d;
    assert(below <= n) by (nonlinear_arith)
        requires
            below == n / d,
            d > 0,
    ;
    if 2 * rest > d || 2 * rest == d && below % 2 == 1 {
        below + 1
    } else {
        below
    }
}

proof fn lemma_nearest_bound(n: nat, d: nat, limit: nat)
    requires
        d > 0,
        n < limit * d,
    ensures
        nearest_quotient(n, d) <= limit,
{
    assert(n / d < limit) by (nonlinear_arith)
        requires
            d > 0,
            n < limit * d,
    ;
}

/// The least power of two that, as a divisor, leaves a quotient no more than
/// fifty-three bits before its point.
fn scaled_down(n: u128, d: u128) -> (up: u128)
    requires
        n <= 0x2_0000_0000_0000_0000,
        0 < d <= 0xffff_ffff,
    ensures
        up == scale_down(n as nat, d as nat),
        0 < up <= 0x2000,
        n < 0x1_0000_0000_0000_0000 ==> up <= 0x1000,
        0 < d * up <= 0xffff_ffff,
        up == 1 || d * up <= n,
        n < 0x20_0000_0000_0000 * (d * up),
{
    let mut up: u128 = 1;
    let mut den: u128 = d;
    while n >= 0x20_0000_0000_0000 * den
        invariant
            n <= 0x2_0000_0000_0000_0000,
            0 < d <= 0xffff_ffff,
            0 < up <= 0x2000,
            up == 1 || den <= 0x2000,
            up == 1 || den <= n,
            n < 0x1_0000_0000_0000_0000 ==> up <= 0x1000,
            0 < den <= 0xffff_ffff,
            den == d * up,
            up * scale_down(n as nat, den as nat) == scale_down(n as nat, d as nat),
        decreases n - den,
    {
        proof {
            let rest = scale_down(n as nat, (2 * den) as nat);
            assert(up <= den) by (nonlinear_arith)
                requires
                    den == d * up,
                    d >= 1,
                    up >= 1,
            ;
            assert(up * (2 * rest) == (2 * up) * rest) by (nonlinear_arith);
            assert(2 * den == d * (2 * up)) by (nonlinear_arith)
                requires
                    den == d * up,
            ;
        }
        up = 2 * up;
        den = 2 * den;
    }
    proof {
        assert(scale_down(n as nat, den as nat) == 1);
        assert(up * 1 == up);
    }
    up
}

/// The least power of two that, as a factor, gives a quotient fifty-three bits
/// before its point.
fn scaled_up(n: u128, d: u128) -> (down: u128)
    requires
        0 < n < 0x20_0000_0000_0000 * d,
        0 < d <= 0xffff_ffff,
    ensures
        down == scale_up(n as nat, d as nat),
        0 < down <= n * down,
        n * down < 0x20_0000_0000_0000 * d,
{
    let mut down: u128 = 1;
    let mut num: u128 = n;
    while num < 0x10_0000_0000_0000 * d
        invariant
            0 < n,
            0 < d <= 0xffff_ffff,
            0 < down <= num,
            0 < num < 0x20_0000_0000_0000 * d,
            num == n * down,
            down * scale_up(num as nat, d as nat) == scale_up(n as nat, d as nat),
        decreases 0x20_0000_0000_0000 * d - num,
    {
        proof {
            let rest = scale_up((2 * num) as nat, d as nat);
            assert(down * (2 * rest) == (2 * down) * rest) by (nonlinear_arith);
            assert(2 * num == n * (2 * down)) by (nonlinear_arith)
                requires
                    num == n * down,
            ;
        }
        down = 2 * down;
        num = 2 * num;
    }
    proof {
        assert(scale_up(num as nat, d as nat) == 1);
        assert(down * 1 == down);
    }
    down
}

/// How many nanoseconds `count` parts last of which `rate` make up a second,
/// where the seconds are counted by a double-precision number.
pub fn nanos_of_parts(count: usize, rate: u32) -> (nanos: u128)
    requires
        rate > 0,
    ensures
        nanos == parts_nanos(count as nat, rate as nat),
{
    if count == 0 {
        proof {
            lemma_whole_seconds_are_exact(0, rate as nat);
        }
        return 0;
    }
    let n: u128 = count as u128;
    let by: u128 = scaled_down(n, 1);
    let mantissa: u128 = nearest(n, by);
    proof {
        lemma_nearest_bound(n as nat, by as nat, 0x20_0000_0000_0000);
    }
    assert(n / by >= 1) by (nonlinear_arith)
        requires
            n >= by,
            by > 0,
    ;
    assert(0 < mantissa * by <= 0x2_0000_0000_0000_0000) by (nonlinear_arith)
        requires
            0 < mantissa <= 0x20_0000_0000_0000,
            0 < by <= 0x1000,
    ;
    let whole: u128 = mantissa * by;
    let d: u128 = rate as u128;
    let up: u128 = scaled_down(whole, d);
    let den: u128 = d * up;
    let down: u128 = scaled_up(whole, den);
    let num: u128 = whole * down;
    let quotient: u128 = nearest(num, den);
    proof {
        lemma_nearest_bound(num as nat, den as nat, 0x20_0000_0000_0000);
    }
    assert(quotient * up <= 0x20_0000_0000_0000 * 0x2000) by (nonlinear_arith)
        requires
            0 <= quotient <= 0x20_0000_0000_0000,
            0 <= up <= 0x2000,
    ;
    nearest(quotient * up * NANOS_PER_SECOND, down)
}

/// As many parts as make up whole seconds last those seconds exactly.
pub proof fn lemma_whole_seconds_are_exact(seconds: nat, rate: nat)
    requires
        rate > 0,
        seconds * rate < 0x20_0000_0000_0000,
    ensures
        parts_nanos(seconds * rate, rate) == seconds * NANOS_PER_SECOND,
{
    let n = seconds * rate;
    assert(scale_down(n, 1) == 1);
    assert(nearest_quotient(n, 1) == n);
    assert(whole_double(n) == n);
    assert(n < 0x20_0000_0000_0000 * rate) by (nonlinear_arith)
        requires
            n < 0x20_0000_0000_0000,
            rate > 0,
    ;
    assert(scale_down(n, rate) == 1);
    let down = scale_up(n, rate);
    lemma_scale_up_is_positive(n, rate);
    assert(rate * 1 == rate);
    lemma_exact_quotient(n * down, rate, seconds * down);
    assert(n * down == seconds * down * rate) by (nonlinear_arith)
        requires
            n == seconds * rate,
    ;
    let nanos = seconds * NANOS_PER_SECOND as nat;
    assert(seconds * down * 1 * NANOS_PER_SECOND as nat == nanos * down) by (nonlinear_arith)
        requires
            nanos == seconds * NANOS_PER_SECOND as nat,
    ;
    lemma_exact_quotient(nanos * down, down, nanos);
}

proof fn lemma_exact_quotient(n: nat, d: nat, whole: nat)
    requires
        d > 0,
    ensures
        n == whole * d ==> nearest_quotient(n, d) == whole,
{
    if n == whole * d {
        vstd::arithmetic::div_mod::lemma_div_multiples_vanish(whole as int, d as int);
        vstd::arithmetic::div_mod::lemma_mod_multiples_basic(whole as int, d as int);
        assert(d * whole == whole * d) by (nonlinear_arith);
    }
}

proof fn lemma_scale_up_is_positive(n: nat, d: nat)
    ensures
        scale_up(n, d) > 0,
    decreases 0x20_0000_0000_0000 * d - n,
{
    if n > 0 && n < 0x10_0000_0000_0000 * d {
        lemma_scale_up_is_positive(2 * n, d);
    }
}

/// A rounded quotient is nearest to the true one, and even where two are equally
/// near.
pub proof fn lemma_rounded_to_the_nearest(n: nat, d: nat)
    requires
        d > 0,
    ensures
        2 * (n - nearest_quotient(n, d) * d) <= d,
        2 * (nearest_quotient(n, d) * d - n) <= d,
        2 * (n - nearest_quotient(n, d) * d) == d || 2 * (nearest_quotient(n, d) * d - n) == d
            ==> nearest_quotient(n, d) % 2 == 0,
{
    let q = n / d;
    let r = n % d;
    assert(n == q * d + r && 0 <= r < d) by {
        vstd::arithmetic::div_mod::lemma_fundamental_div_mod(n as int, d as int);
        assert(d * q == q * d) by (nonlinear_arith);
        vstd::arithmetic::div_mod::lemma_mod_bound(n as int, d as int);
    }
    assert((q + 1) * d == q * d + d) by (nonlinear_arith);
}

proof fn lemma_scale_down_fits(n: nat, d: nat)
    requires
        d > 0,
    ensures
        scale_down(n, d) >= 1,
        n < 0x20_0000_0000_0000 * (d * scale_down(n, d)),
        scale_down(n, d) == 1 || n >= 0x10_0000_0000_0000 * (d * scale_down(n, d)),
    decreases n - d,
{
    if n < 0x20_0000_0000_0000 * d {
        assert(d * 1 == d);
    } else {
        lemma_scale_down_fits(n, 2 * d);
        let s = scale_down(n, 2 * d);
        assert((2 * d) * s == d * (2 * s)) by (nonlinear_arith);
        if s == 1 {
            assert(d * (2 * s) == 2 * d) by (nonlinear_arith)
                requires
                    s == 1,
            ;
        }
    }
}

proof fn lemma_scale_up_fits(n: nat, d: nat)
    requires
        0 < n < 0x20_0000_0000_0000 * d,
    ensures
        scale_up(n, d) >= 1,
        0x10_0000_0000_0000 * d <= n * scale_up(n, d) < 0x20_0000_0000_0000 * d,
    decreases 0x20_0000_0000_0000 * d - n,
{
    if n >= 0x10_0000_0000_0000 * d {
        assert(n * 1 == n);
    } else {
        lemma_scale_up_fits(2 * n, d);
        let s = scale_up(2 * n, d);
        assert((2 * n) * s == n * (2 * s)) by (nonlinear_arith);
    }
}

/// A quotient that is not zero is held with fifty-three binary digits, the first
/// of which is one, rounded to the nearest.
pub proof fn lemma_quotient_has_all_its_digits(n: nat, d: nat)
    requires
        n > 0,
        d > 0,
    ensures
        0x10_0000_0000_0000 <= double_quotient(n, d).mantissa <= 0x20_0000_0000_0000,
        ({
            let held = double_quotient(n, d);
            let whole = d * held.up;
            &&& 2 * (n * held.down - held.mantissa * whole) <= whole
            &&& 2 * (held.mantissa * whole - n * held.down) <= whole
        }),
{
    lemma_scale_down_fits(n, d);
    let up = scale_down(n, d);
    assert(d * up > 0) by (nonlinear_arith)
        requires
            d > 0,
            up >= 1,
    ;
    lemma_scale_up_fits(n, d * up);
    let down = scale_up(n, d * up);
    let m = n * down;
    let w = d * up;
    lemma_rounded_to_the_nearest(m, w);
    let q = nearest_quotient(m, w);
    if q < 0x10_0000_0000_0000 {
        assert(q * w <= 0x10_0000_0000_0000 * w - w) by (nonlinear_arith)
            requires
                q <= 0x10_0000_0000_0000 - 1,
                w > 0,
        ;
    }
    if q > 0x20_0000_0000_0000 {
        assert(q * w >= 0x20_0000_0000_0000 * w + w) by (nonlinear_arith)
            requires
                q >= 0x20_0000_0000_0000 + 1,
                w > 0,
        ;
    }
}

} // verus!
