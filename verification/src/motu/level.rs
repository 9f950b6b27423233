//! Normalized gain levels as fixed-point numbers, and the circular easing curve.

use vstd::prelude::*;
use crate::text::{decimal_digits, digit_char, push_decimal};

verus! {

/// The number of fixed-point units in the level 1.
pub const LEVEL_SCALE: i64 = 1_000_000;

/// A gain level, counted in millionths. Nominally between 0 and 1, but not clamped.
#[derive(Debug, PartialEq, Eq, Clone, Copy, Structural)]
pub struct Level {
    pub micros: i64,
}

/// Whether `scale` is a power of ten.
pub open spec fn is_power_of_ten(scale: nat) -> bool
    decreases scale,
{
    scale == 1 || (scale >= 10 && scale % 10 == 0 && is_power_of_ten(scale / 10))
}

/// The digits behind the decimal point of `f / scale`, without trailing zeros.
/// `scale` is a power of ten and `f < scale`.
pub open spec fn fraction_digits(f: nat, scale: nat) -> Seq<char>
    decreases scale,
{
    if f == 0 || scale < 10 {
        Seq::empty()
    } else {
        seq![digit_char((f / (scale / 10)) as int)] + fraction_digits(f % (scale / 10), scale / 10)
    }
}

/// The decimal text of the magnitude `a` millionths: the integer part, and a
/// decimal point with the fraction's digits where the fraction is not zero.
pub open spec fn magnitude_text(a: nat) -> Seq<char> {
    if a % 1_000_000 == 0 {
        decimal_digits(a / 1_000_000)
    } else {
        decimal_digits(a / 1_000_000) + seq!['.'] + fraction_digits(a % 1_000_000, 1_000_000)
    }
}

/// The decimal text of a level of `m` millionths.
pub open spec fn level_text(m: int) -> Seq<char> {
    if m < 0 {
        seq!['-'] + magnitude_text((-m) as nat)
    } else {
        magnitude_text(m as nat)
    }
}

/// Whether `r` is the integer square root of `n`, rounded down.
pub open spec fn is_floor_sqrt(r: nat, n: nat) -> bool {
    r * r <= n < (r + 1) * (r + 1)
}

/// The integer square root of `n`, rounded down.
pub open spec fn floor_sqrt(n: nat) -> nat {
    choose|r: nat| is_floor_sqrt(r, n)
}

/// The quarter-circle easing of `x` millionths, in millionths: `1 - sqrt(1 - x*x)`,
/// with the root rounded down to a whole millionth.
pub open spec fn easing_circ_micros(x: int) -> int
    recommends
        -1_000_000 <= x <= 1_000_000,
{
    1_000_000 - floor_sqrt((1_000_000 * 1_000_000 - x * x) as nat)
}

/// The position of the 7-bit value `raw` on the scale from 0 to 1, in millionths, rounded down.
pub open spec fn unit_micros(raw: int) -> int {
    raw * 1_000_000 / 127
}

/// At most one number is the rounded-down square root of `n`.
pub proof fn lemma_floor_sqrt_unique(r1: nat, r2: nat, n: nat)
    requires
        is_floor_sqrt(r1, n),
        is_floor_sqrt(r2, n),
    ensures
        r1 == r2,
{
    assert(r1 <= r2) by (nonlinear_arith)
        requires
            r1 * r1 <= n,
            n < (r2 + 1) * (r2 + 1),
    ;
    assert(r2 <= r1) by (nonlinear_arith)
        requires
            r2 * r2 <= n,
            n < (r1 + 1) * (r1 + 1),
    ;
}

/// A number that squares to at most `n` and whose successor squares to more is `floor_sqrt(n)`.
pub proof fn lemma_floor_sqrt_is(r: nat, n: nat)
    requires
        is_floor_sqrt(r, n),
    ensures
        floor_sqrt(n) == r,
{
    lemma_floor_sqrt_unique(r, floor_sqrt(n), n);
}

/// Every number has a rounded-down square root.
pub proof fn lemma_floor_sqrt_exists(n: nat)
    ensures
        is_floor_sqrt(floor_sqrt(n), n),
    decreases n,
{
    if n == 0 {
        assert(is_floor_sqrt(0, 0)) by (nonlinear_arith);
    } else {
        lemma_floor_sqrt_exists((n - 1) as nat);
        let r = floor_sqrt((n - 1) as nat);
        if (r + 1) * (r + 1) <= n {
            assert(n < (r + 2) * (r + 2)) by (nonlinear_arith)
                requires
                    n - 1 < (r + 1) * (r + 1),
            ;
            assert(is_floor_sqrt(r + 1, n));
        } else {
            assert(is_floor_sqrt(r, n));
        }
    }
}

/// The rounded-down square root never decreases as its argument grows.
pub proof fn lemma_floor_sqrt_monotonic(a: nat, b: nat)
    requires
        a <= b,
    ensures
        floor_sqrt(a) <= floor_sqrt(b),
{
    lemma_floor_sqrt_exists(a);
    lemma_floor_sqrt_exists(b);
    let ra = floor_sqrt(a);
    let rb = floor_sqrt(b);
    assert(ra <= rb) by (nonlinear_arith)
        requires
            ra * ra <= a,
            a <= b,
            b < (rb + 1) * (rb + 1),
    ;
}

/// The easing curve never decreases on the interval from 0 to 1.
pub proof fn lemma_easing_monotonic(x: int, y: int)
    requires
        0 <= x <= y <= 1_000_000,
    ensures
        easing_circ_micros(x) <= easing_circ_micros(y),
{
    assert(x * x <= y * y <= 1_000_000 * 1_000_000) by (nonlinear_arith)
        requires
            0 <= x <= y <= 1_000_000,
    ;
    lemma_floor_sqrt_monotonic(
        (1_000_000 * 1_000_000 - y * y) as nat,
        (1_000_000 * 1_000_000 - x * x) as nat,
    );
}

/// The easing curve starts at 0 and ends at 1.
pub proof fn lemma_easing_endpoints()
    ensures
        easing_circ_micros(0) == 0,
        easing_circ_micros(1_000_000) == 1_000_000,
{
    assert(is_floor_sqrt(1_000_000, 1_000_000 * 1_000_000)) by (nonlinear_arith);
    lemma_floor_sqrt_is(1_000_000, 1_000_000 * 1_000_000);
    assert(is_floor_sqrt(0, 0)) by (nonlinear_arith);
    lemma_floor_sqrt_is(0, 0);
}

/// On the interval from -1 to 1 the easing curve stays between 0 and 1.
pub proof fn lemma_easing_range(x: int)
    requires
        -1_000_000 <= x <= 1_000_000,
    ensures
        0 <= easing_circ_micros(x) <= 1_000_000,
{
    assert(0 <= x * x <= 1_000_000 * 1_000_000) by (nonlinear_arith)
        requires
            -1_000_000 <= x <= 1_000_000,
    ;
    let n = (1_000_000 * 1_000_000 - x * x) as nat;
    lemma_floor_sqrt_exists(n);
    let r = floor_sqrt(n);
    assert(r <= 1_000_000) by (nonlinear_arith)
        requires
            r * r <= n,
            n <= 1_000_000 * 1_000_000,
    ;
}

/// The 7-bit positions are ordered as their raw values, from 0 to 1.
pub proof fn lemma_unit_micros(raw1: int, raw2: int)
    requires
        0 <= raw1 <= raw2 <= 127,
    ensures
        0 == unit_micros(0) <= unit_micros(raw1) <= unit_micros(raw2) <= unit_micros(127)
            == 1_000_000,
{
}

/// The eased level of a 7-bit value never decreases as the value grows; it is 0 at 0
/// and 1 at 127.
pub proof fn lemma_eased_raw_monotonic(raw1: int, raw2: int)
    requires
        0 <= raw1 <= raw2 <= 127,
    ensures
        easing_circ_micros(unit_micros(raw1)) <= easing_circ_micros(unit_micros(raw2)),
        easing_circ_micros(unit_micros(0)) == 0,
        easing_circ_micros(unit_micros(127)) == 1_000_000,
{
    lemma_unit_micros(raw1, raw2);
    lemma_easing_monotonic(unit_micros(raw1), unit_micros(raw2));
    lemma_easing_endpoints();
}

/// Computes the integer square root of `n`, rounded down.
pub fn isqrt(n: u64) -> (r: u64)
    ensures
        is_floor_sqrt(r as nat, n as nat),
        r == floor_sqrt(n as nat),
        r < 0x1_0000_0000,
{
    let mut lo: u64 = 0;
    let mut hi: u64 = 0x1_0000_0000;
    assert(0x1_0000_0000u64 * 0x1_0000_0000u64 > n) by (nonlinear_arith);
    while hi - lo > 1
        invariant
            lo < hi <= 0x1_0000_0000,
            lo * lo <= n < hi * hi,
        decreases hi - lo,
    {
        let mid: u64 = lo + (hi - lo) / 2;
        assert(mid * mid < 0x1_0000_0000 * 0x1_0000_0000) by (nonlinear_arith)
            requires
                mid < 0x1_0000_0000,
        ;
        if mid * mid <= n {
            lo = mid;
        } else {
            hi = mid;
        }
    }
    proof {
        assert(hi == lo + 1);
        lemma_floor_sqrt_is(lo as nat, n as nat);
    }
    lo
}

impl View for Level {
    type V = int;

    /// The level in millionths.
    open spec fn view(&self) -> int {
        self.micros as int
    }
}

impl Level {
    /// The level 0: fully closed.
    pub fn zero() -> (level: Level)
        ensures
            level@ == 0,
    {
        Level { micros: 0 }
    }

    /// The level 1: unity gain.
    pub fn one() -> (level: Level)
        ensures
            level@ == 1_000_000,
    {
        Level { micros: LEVEL_SCALE }
    }

    /// The level of a switch: 1 when on, 0 when off.
    pub fn from_bit(on: bool) -> (level: Level)
        ensures
            level@ == if on { 1_000_000int } else { 0 },
    {
        if on {
            Level::one()
        } else {
            Level::zero()
        }
    }

    /// The position of the 7-bit value `raw` on the scale from 0 to 1.
    pub fn from_raw(raw: u8) -> (level: Level)
        requires
            raw <= 127,
        ensures
            level@ == unit_micros(raw as int),
            0 <= level@ <= 1_000_000,
    {
        let scaled: i64 = raw as i64 * LEVEL_SCALE;
        Level { micros: scaled / 127 }
    }

    /// The decimal text of the level, as it is written on the wire.
    pub fn to_string(&self) -> (text: String)
        ensures
            text@ == level_text(self@),
    {
        let mut text = String::new();
        push_level(&mut text, *self);
        text
    }
}

/// The quarter-circle easing `1 - sqrt(1 - x*x)` of a level between -1 and 1.
pub fn easing_circ(x: Level) -> (y: Level)
    requires
        -1_000_000 <= x@ <= 1_000_000,
    ensures
        y@ == easing_circ_micros(x@),
        0 <= y@ <= 1_000_000,
{
    let m: i64 = x.micros;
    let a: u64 = if m < 0 {
        (-m) as u64
    } else {
        m as u64
    };
    assert(a * a == m * m && a * a <= 1_000_000 * 1_000_000) by (nonlinear_arith)
        requires
            a == m || a == -m,
            0 <= a <= 1_000_000,
    ;
    let square: u64 = a * a;
    let root: u64 = isqrt(1_000_000_000_000 - square);
    proof {
        lemma_easing_range(m as int);
    }
    Level { micros: LEVEL_SCALE - root as i64 }
}

/// Appends the fraction digits of `f / scale` to `out`.
fn push_fraction(out: &mut String, f: u64, scale: u64)
    requires
        f < scale,
        is_power_of_ten(scale as nat),
    ensures
        final(out)@ == old(out)@ + fraction_digits(f as nat, scale as nat),
    decreases scale,
{
    if f == 0 || scale < 10 {
        return ;
    }
    let unit: u64 = scale / 10;
    let d: u64 = f / unit;
    assert(d < 10) by (nonlinear_arith)
        requires
            d == f / unit,
            f < scale,
            unit == scale / 10,
            scale >= 10,
            scale % 10 == 0,
    ;
    let digit: u8 = d as u8;
    out.push((digit + 48) as char);
    assert(f % unit < unit) by (nonlinear_arith)
        requires
            unit > 0,
    ;
    push_fraction(out, f % unit, unit);
}

/// Appends the decimal text of `level` to `out`.
pub fn push_level(out: &mut String, level: Level)
    ensures
        final(out)@ == old(out)@ + level_text(level@),
{
    let m: i64 = level.micros;
    let a: u64 = if m == i64::MIN {
        9223372036854775808u64
    } else if m < 0 {
        (-m) as u64
    } else {
        m as u64
    };
    if m < 0 {
        out.push('-');
    }
    push_decimal(out, a / 1_000_000);
    if a % 1_000_000 != 0 {
        out.push('.');
        assert(is_power_of_ten(1_000_000)) by {
            reveal_with_fuel(is_power_of_ten, 8);
        }
        push_fraction(out, a % 1_000_000, 1_000_000);
    }
}

} // verus!
