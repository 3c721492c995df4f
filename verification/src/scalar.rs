//! Float settings, held by their bit patterns.
//!
//! Settings such as a blur percentage are 32-bit floats. What the library does
//! with one itself is to test and compare it, and that is integer arithmetic on
//! the pattern: sign, exponent and fraction, as IEEE 754 lays them out.

use vstd::arithmetic::power2::{lemma_pow2_adds, lemma_pow2_pos, pow2};
use vstd::prelude::*;
use vstd::std_specs::cmp::PartialEqSpecImpl;

verus! {

/// A 32-bit float by its bit pattern.
#[derive(Debug, Clone, Copy)]
pub struct F32 {
    pub bits: u32,
}

/// A 64-bit float by its bit pattern.
#[derive(Debug, Clone, Copy)]
pub struct F64 {
    pub bits: u64,
}

/// The pattern without its sign.
pub open spec fn unsigned32(bits: u32) -> int {
    bits as int % 0x8000_0000
}

/// The biased exponent of an unsigned pattern.
pub open spec fn exponent32(m: int) -> int {
    m / 0x80_0000
}

/// The fraction of an unsigned pattern.
pub open spec fn fraction32(m: int) -> int {
    m % 0x80_0000
}

/// The size of the number an unsigned pattern stands for, counted in the
/// smallest positive float, which is 2 to the -149.
///
/// An infinity counts as what its pattern would stand for were there one more
/// exponent, which keeps it beyond every finite number.
pub open spec fn magnitude32(m: int) -> int {
    if exponent32(m) == 0 {
        fraction32(m)
    } else {
        (fraction32(m) + 0x80_0000) * pow2((exponent32(m) - 1) as nat)
    }
}

/// How many of the smallest positive float make 1.
pub open spec fn unit32() -> int {
    pow2(149) as int
}

impl F32 {
    pub open spec fn negative(self) -> bool {
        self.bits >= 0x8000_0000
    }

    pub open spec fn magnitude(self) -> int {
        magnitude32(unsigned32(self.bits))
    }

    /// The number, counted in the smallest positive float.
    pub open spec fn value(self) -> int {
        if self.negative() {
            -self.magnitude()
        } else {
            self.magnitude()
        }
    }

    pub open spec fn finite(self) -> bool {
        exponent32(unsigned32(self.bits)) != 255
    }

    pub open spec fn nan(self) -> bool {
        exponent32(unsigned32(self.bits)) == 255 && fraction32(unsigned32(self.bits)) != 0
    }

    /// What `==` says of two floats: a NaN equals nothing, and the two zeros are equal.
    pub open spec fn equals(self, other: F32) -> bool {
        !self.nan() && !other.nan() && self.value() == other.value()
    }

    /// What `<=` says of two floats.
    pub open spec fn at_most(self, other: F32) -> bool {
        !self.nan() && !other.nan() && self.value() <= other.value()
    }

    pub fn is_negative(self) -> (r: bool)
        ensures
            r == self.negative(),
    {
        self.bits >= 0x8000_0000
    }

    pub fn is_finite(self) -> (r: bool)
        ensures
            r == self.finite(),
    {
        (self.bits % 0x8000_0000) / 0x80_0000 != 255
    }

    pub fn is_nan(self) -> (r: bool)
        ensures
            r == self.nan(),
    {
        let m: u32 = self.bits % 0x8000_0000;
        m / 0x80_0000 == 255 && m % 0x80_0000 != 0
    }

    /// `self <= other`, as floats compare.
    pub fn le(self, other: F32) -> (r: bool)
        ensures
            r == self.at_most(other),
    {
        if self.is_nan() || other.is_nan() {
            return false;
        }
        let a: u32 = self.bits % 0x8000_0000;
        let b: u32 = other.bits % 0x8000_0000;
        proof {
            lemma_magnitude_order(a as int, b as int);
            lemma_magnitude_order(b as int, a as int);
            lemma_magnitude_order(0, a as int);
            lemma_magnitude_order(0, b as int);
        }
        match (self.bits >= 0x8000_0000, other.bits >= 0x8000_0000) {
            (false, false) => a <= b,
            (true, true) => b <= a,
            (true, false) => true,
            (false, true) => a == 0 && b == 0,
        }
    }

    /// The float nearest to this one from `min` up to `max`. A NaN stays one.
    pub open spec fn clamped(self, min: F32, max: F32) -> F32 {
        if self.nan() {
            self
        } else if self.at_most(min) {
            min
        } else if max.at_most(self) {
            max
        } else {
            self
        }
    }

    pub fn clamp(self, min: F32, max: F32) -> (r: F32)
        ensures
            r == self.clamped(min, max),
    {
        if self.is_nan() {
            self
        } else if self.le(min) {
            min
        } else if max.le(self) {
            max
        } else {
            self
        }
    }

    /// Whether this is a number from `min` up to `max`.
    pub fn in_range(self, min: F32, max: F32) -> (r: bool)
        ensures
            r == (self.finite() && min.at_most(self) && self.at_most(max)),
    {
        self.is_finite() && min.le(self) && self.le(max)
    }
}

impl PartialEq for F32 {
    fn eq(&self, other: &F32) -> (r: bool) {
        self.le(*other) && other.le(*self)
    }
}

impl PartialEqSpecImpl for F32 {
    open spec fn obeys_eq_spec() -> bool {
        true
    }

    open spec fn eq_spec(&self, other: &F32) -> bool {
        self.equals(*other)
    }
}

/// How many of the smallest positive 64-bit float make 1.
pub open spec fn unit64() -> int {
    pow2(1074) as int
}

impl F64 {
    /// The size of the number, counted in the smallest positive float, which is 2 to the
    /// -1074.
    pub open spec fn magnitude(self) -> int {
        let m = self.bits as int % 0x8000_0000_0000_0000;
        let (exponent, fraction) = (m / 0x10_0000_0000_0000, m % 0x10_0000_0000_0000);
        if exponent == 0 {
            fraction
        } else {
            (fraction + 0x10_0000_0000_0000) * pow2((exponent - 1) as nat)
        }
    }

    /// The number, counted in the smallest positive float.
    pub open spec fn value(self) -> int {
        if self.bits >= 0x8000_0000_0000_0000 {
            -self.magnitude()
        } else {
            self.magnitude()
        }
    }

    pub open spec fn finite(self) -> bool {
        (self.bits as int % 0x8000_0000_0000_0000) / 0x10_0000_0000_0000 != 2047
    }

    /// Finite and above zero.
    pub open spec fn positive(self) -> bool {
        self.finite() && 0 < self.bits < 0x8000_0000_0000_0000
    }

    pub fn is_finite(self) -> (r: bool)
        ensures
            r == self.finite(),
    {
        (self.bits % 0x8000_0000_0000_0000) / 0x10_0000_0000_0000 != 2047
    }

    /// Below zero. Minus zero is not, nor is what is not a number.
    pub open spec fn below_zero(self) -> bool {
        0x8000_0000_0000_0000 < self.bits <= 0xFFF0_0000_0000_0000
    }

    pub fn is_below_zero(self) -> (r: bool)
        ensures
            r == self.below_zero(),
    {
        0x8000_0000_0000_0000 < self.bits && self.bits <= 0xFFF0_0000_0000_0000
    }

    /// Above zero, infinity included.
    pub open spec fn above_zero(self) -> bool {
        0 < self.bits <= 0x7FF0_0000_0000_0000
    }

    pub fn is_above_zero(self) -> (r: bool)
        ensures
            r == self.above_zero(),
    {
        0 < self.bits && self.bits <= 0x7FF0_0000_0000_0000
    }

    /// Zero or less.
    pub open spec fn at_most_zero(self) -> bool {
        self.zero() || self.below_zero()
    }

    pub fn is_at_most_zero(self) -> (r: bool)
        ensures
            r == self.at_most_zero(),
    {
        self.is_zero() || self.is_below_zero()
    }

    /// Zero, of either sign.
    pub open spec fn zero(self) -> bool {
        self.bits == 0 || self.bits == 0x8000_0000_0000_0000
    }

    pub fn is_zero(self) -> (r: bool)
        ensures
            r == self.zero(),
    {
        self.bits == 0 || self.bits == 0x8000_0000_0000_0000
    }

    /// A number that can stand as a rate, a duration or a shape.
    pub fn is_positive(self) -> (r: bool)
        ensures
            r == self.positive(),
    {
        self.is_finite() && 0 < self.bits && self.bits < 0x8000_0000_0000_0000
    }
}

/// The float with a given pattern.
pub open spec fn float(bits: u32) -> F32 {
    F32 { bits }
}

pub const ZERO: u32 = 0;

/// 0.1, to the nearest float.
pub const TENTH: u32 = 0x3DCC_CCCD;

pub const ONE: u32 = 0x3F80_0000;

pub const FIVE: u32 = 0x40A0_0000;

pub const TEN: u32 = 0x4120_0000;

pub const MINUS_TEN: u32 = 0xC120_0000;

pub const TWENTY: u32 = 0x41A0_0000;

pub const THIRTY_TWO: u32 = 0x4200_0000;

pub const HUNDRED: u32 = 0x42C8_0000;

pub const MINUS_HUNDRED: u32 = 0xC2C8_0000;

/// The named patterns are the numbers their names say; 0.1 is 13421773 / 2^27,
/// the float nearest to it.
pub proof fn lemma_constants()
    ensures
        float(ZERO).value() == 0,
        float(TENTH).value() == 13421773 * pow2(122),
        134217728 * pow2(122) == unit32(),
        float(ONE).value() == unit32(),
        float(FIVE).value() == 5 * unit32(),
        float(TEN).value() == 10 * unit32(),
        float(MINUS_TEN).value() == -10 * unit32(),
        float(TWENTY).value() == 20 * unit32(),
        float(THIRTY_TWO).value() == 32 * unit32(),
        float(HUNDRED).value() == 100 * unit32(),
        float(MINUS_HUNDRED).value() == -100 * unit32(),
        float(ZERO).finite() && float(TENTH).finite() && float(ONE).finite() && float(FIVE).finite() && float(TEN).finite(),
        float(MINUS_TEN).finite() && float(TWENTY).finite() && float(THIRTY_TWO).finite() && float(HUNDRED).finite(),
        float(MINUS_HUNDRED).finite(),
{
    vstd::arithmetic::power2::lemma2_to64();
    vstd::arithmetic::power2::lemma2_to64_rest();
    lemma_pow2_times(122, 27, 134217728);
    lemma_pow2_times(126, 23, 8388608);
    lemma_pow2_times(128, 21, 2097152);
    lemma_pow2_times(129, 20, 1048576);
    lemma_pow2_times(130, 19, 524288);
    lemma_pow2_times(131, 18, 262144);
    lemma_pow2_times(132, 17, 131072);
    lemma_magnitude(TENTH, 123, 0x4C_CCCD);
    lemma_magnitude(ONE, 127, 0);
    lemma_magnitude(FIVE, 129, 0x20_0000);
    lemma_magnitude(TEN, 130, 0x20_0000);
    lemma_magnitude(MINUS_TEN, 130, 0x20_0000);
    lemma_magnitude(TWENTY, 131, 0x20_0000);
    lemma_magnitude(THIRTY_TWO, 132, 0);
    lemma_magnitude(HUNDRED, 133, 0x48_0000);
    lemma_magnitude(MINUS_HUNDRED, 133, 0x48_0000);
}

/// The size of a normal number, by its parts.
proof fn lemma_magnitude(bits: u32, exponent: int, fraction: int)
    requires
        exponent32(unsigned32(bits)) == exponent,
        fraction32(unsigned32(bits)) == fraction,
        exponent > 0,
    ensures
        float(bits).magnitude() == (fraction + 0x80_0000) * pow2((exponent - 1) as nat),
{
}

/// Adding to an exponent is multiplying by a power.
proof fn lemma_pow2_times(e: nat, k: nat, c: int)
    requires
        pow2(k) == c,
    ensures
        pow2(e) * c == pow2(e + k),
{
    lemma_pow2_adds(e, k);
}

/// Unsigned patterns are ordered as the numbers they stand for.
pub proof fn lemma_magnitude_order(a: int, b: int)
    requires
        0 <= a < 0x8000_0000,
        0 <= b < 0x8000_0000,
    ensures
        magnitude32(a) >= 0,
        a < b ==> magnitude32(a) < magnitude32(b),
        a == b ==> magnitude32(a) == magnitude32(b),
{
    let (ea, fa) = (exponent32(a), fraction32(a));
    let (eb, fb) = (exponent32(b), fraction32(b));
    if ea > 0 {
        let p = pow2((ea - 1) as nat);
        lemma_pow2_pos((ea - 1) as nat);
        assert((fa + 0x80_0000) * p >= 0) by (nonlinear_arith)
            requires
                fa >= 0,
                p > 0,
        ;
    }
    if a < b {
        if ea == eb {
            if ea > 0 {
                let p = pow2((ea - 1) as nat);
                assert((fa + 0x80_0000) * p < (fb + 0x80_0000) * p) by (nonlinear_arith)
                    requires
                        fa < fb,
                        p > 0,
                ;
            }
        } else {
            assert(ea < eb);
            let q = pow2((eb - 1) as nat);
            lemma_pow2_pos((eb - 1) as nat);
            assert((fb + 0x80_0000) * q >= 0x80_0000 * q) by (nonlinear_arith)
                requires
                    fb >= 0,
                    q > 0,
            ;
            if ea == 0 {
                assert(0x80_0000 * q >= 0x80_0000) by (nonlinear_arith)
                    requires
                        q > 0,
                ;
            } else {
                let p = pow2((ea - 1) as nat);
                lemma_pow2_adds((ea - 1) as nat, (eb - ea) as nat);
                lemma_pow2_adds(1, (eb - ea - 1) as nat);
                let d = pow2((eb - ea - 1) as nat);
                lemma_pow2_pos((eb - ea - 1) as nat);
                vstd::arithmetic::power2::lemma2_to64();
                assert(q == p * (2 * d));
                assert((fa + 0x80_0000) * p < 0x80_0000 * (p * (2 * d))) by (nonlinear_arith)
                    requires
                        0 <= fa < 0x80_0000,
                        p > 0,
                        d > 0,
                ;
            }
        }
    }
}

/// `whole` times the size of `percent`, over a hundred, to the nearest whole
/// number; a half rounds up. Nothing comes of what is not a number, and no more
/// than `whole` of anything.
pub open spec fn percent_of(whole: nat, percent: F32) -> nat {
    if !percent.finite() {
        0
    } else {
        let part = (2 * whole * percent.magnitude() + 100 * unit32()) / (200 * unit32());
        if part > whole {
            whole
        } else {
            part as nat
        }
    }
}

/// A percentage of a whole is a part of it.
pub proof fn lemma_percent_of_is_a_part(whole: nat, percent: F32)
    ensures
        0 <= percent_of(whole, percent) <= whole,
{
    let m = unsigned32(percent.bits);
    lemma_magnitude_order(m, m);
    lemma_pow2_pos(149);
    let (w, mag, unit) = (whole as int, percent.magnitude(), unit32());
    let n = 2 * w * mag + 100 * unit;
    assert(n / (200 * unit) >= 0) by (nonlinear_arith)
        requires
            n == 2 * w * mag + 100 * unit,
            w >= 0,
            mag >= 0,
            unit > 0,
    ;
}

/// A percentage of no more than ten leaves something of anything.
pub proof fn lemma_small_percent_leaves_some(whole: nat, percent: F32)
    requires
        whole > 0,
        percent.finite(),
        -10 * unit32() <= percent.value() <= 10 * unit32(),
    ensures
        percent_of(whole, percent) < whole,
{
    let m = unsigned32(percent.bits);
    lemma_magnitude_order(m, m);
    lemma_pow2_pos(149);
    let (w, mag, unit) = (whole as int, percent.magnitude(), unit32());
    let n = 2 * w * mag + 100 * unit;
    assert(n < 200 * unit * w) by (nonlinear_arith)
        requires
            n == 2 * w * mag + 100 * unit,
            w >= 1,
            0 <= mag <= 10 * unit,
            unit > 0,
    ;
    assert(n / (200 * unit) < w) by (nonlinear_arith)
        requires
            n < 200 * unit * w,
            unit > 0,
    ;
    lemma_percent_of_is_a_part(whole, percent);
}

/// Two to the `k`.
fn power_of_two(k: u32) -> (p: u128)
    requires
        k <= 110,
    ensures
        p == pow2(k as nat),
        0 < p <= 0x4000_0000_0000_0000_0000_0000_0000,
{
    let mut p: u128 = 1;
    let mut i: u32 = 0;
    proof {
        vstd::arithmetic::power2::lemma2_to64();
        vstd::arithmetic::power2::lemma2_to64_rest();
        lemma_pow2_times(64, 46, 0x4000_0000_0000);
        lemma_pow2_pos(k as nat);
    }
    while i < k
        invariant
            i <= k <= 110,
            p == pow2(i as nat),
            pow2(110) == 0x4000_0000_0000_0000_0000_0000_0000,
            pow2(1) == 2,
            pow2(k as nat) > 0,
        decreases k - i,
    {
        proof {
            lemma_pow2_adds(i as nat, 1);
            lemma_pow2_adds((i + 1) as nat, (110 - (i + 1)) as nat);
            lemma_pow2_pos((110 - (i + 1)) as nat);
            let (a, b) = (pow2((i + 1) as nat), pow2((110 - (i + 1)) as nat));
            assert(a <= a * b) by (nonlinear_arith)
                requires
                    b > 0,
                    a >= 0,
            ;
        }
        p = p * 2;
        i += 1;
    }
    proof {
        lemma_pow2_adds(k as nat, (110 - k) as nat);
        lemma_pow2_pos((110 - k) as nat);
        let (a, b) = (pow2(k as nat), pow2((110 - k) as nat));
        assert(a <= a * b) by (nonlinear_arith)
            requires
                b > 0,
                a >= 0,
        ;
    }
    p
}

/// The part of `whole` that a percentage of either sign names, rounded to the
/// nearest whole number.
pub fn percentage(whole: usize, percent: F32) -> (part: usize)
    ensures
        part == percent_of(whole as nat, percent),
        part <= whole,
{
    if !percent.is_finite() {
        return 0;
    }
    let m: u32 = percent.bits % 0x8000_0000;
    let exponent: u32 = m / 0x80_0000;
    let fraction: u32 = m % 0x80_0000;
    let ghost unit = unit32();
    let ghost w = whole as int;
    let ghost mag = percent.magnitude();
    proof {
        lemma_constants();
        lemma_pow2_pos(149);
        lemma_magnitude_order(m as int, 0x42C8_0000);
        lemma_magnitude_order(0x42C8_0000, m as int);
        lemma_magnitude_order(0, m as int);
        assert(float(HUNDRED).magnitude() == 100 * unit);
    }
    if m >= 0x42C8_0000 {
        proof {
            let n = 2 * w * mag + 100 * unit;
            assert(n / (200 * unit) >= w) by (nonlinear_arith)
                requires
                    n == 2 * w * mag + 100 * unit,
                    mag >= 100 * unit,
                    unit > 0,
                    w >= 0,
            ;
        }
        return whole;
    }
    if exponent < 50 {
        proof {
            // Less than 2^-77, of anything a machine can count, is nothing.
            lemma_magnitude_order(m as int, 0x1900_0000);
            lemma_pow2_pos(49);
            vstd::arithmetic::power2::lemma2_to64();
            vstd::arithmetic::power2::lemma2_to64_rest();
            lemma_pow2_times(64, 36, 0x10_0000_0000);
            lemma_pow2_times(49, 100, 0x10_0000_0000_0000_0000_0000_0000);
            let p = pow2(49) as int;
            assert(mag <= 0x80_0000 * p);
            assert(w < 0x1_0000_0000_0000_0000);
            assert(2 * w * mag < 100 * unit) by (nonlinear_arith)
                requires
                    0 <= w < 0x1_0000_0000_0000_0000,
                    0 <= mag <= 0x80_0000 * p,
                    p > 0,
                    unit == p * 0x10_0000_0000_0000_0000_0000_0000,
            ;
            let n = 2 * w * mag + 100 * unit;
            assert(0 <= 2 * w * mag) by (nonlinear_arith)
                requires
                    w >= 0,
                    mag >= 0,
            ;
            assert(n / (200 * unit) == 0) by (nonlinear_arith)
                requires
                    0 <= n < 200 * unit,
            ;
        }
        return 0;
    }
    let k: u32 = 150 - exponent;
    let scale: u128 = power_of_two(k);
    let sig: u128 = fraction as u128 + 0x80_0000;
    proof {
        assert((2 * (whole as u128)) * sig < 0x2_0000_0000_0000_0000 * 0x100_0000)
            by (nonlinear_arith)
            requires
                0 <= (whole as u128) < 0x1_0000_0000_0000_0000,
                0 <= sig < 0x100_0000,
        ;
    }
    let part: u128 = (2 * (whole as u128) * sig + 100 * scale) / (200 * scale);
    proof {
        let p = pow2((exponent - 1) as nat) as int;
        lemma_pow2_pos((exponent - 1) as nat);
        lemma_pow2_pos(k as nat);
        lemma_pow2_adds((exponent - 1) as nat, k as nat);
        let s = scale as int;
        let y = 2 * w * sig + 100 * s;
        let n = 2 * w * mag + 100 * unit;
        assert(mag == sig * p);
        assert(n == p * y) by (nonlinear_arith)
            requires
                n == 2 * w * mag + 100 * unit,
                mag == sig * p,
                unit == p * s,
                y == 2 * w * sig + 100 * s,
        ;
        assert(200 * unit == p * (200 * s)) by (nonlinear_arith)
            requires
                unit == p * s,
        ;
        vstd::arithmetic::div_mod::lemma_div_denominator(n, p, 200 * s);
        vstd::arithmetic::div_mod::lemma_div_multiples_vanish(y, p);
        assert(n / (200 * unit) == y / (200 * s));
        assert(2 * w * mag <= 200 * unit * w) by (nonlinear_arith)
            requires
                0 <= mag <= 100 * unit,
                w >= 0,
        ;
        assert(n / (200 * unit) <= w) by (nonlinear_arith)
            requires
                n == 2 * w * mag + 100 * unit,
                2 * w * mag <= 200 * unit * w,
                unit > 0,
        ;
    }
    part as usize
}

/// Floats are told apart by their patterns: a NaN by all that lies beyond infinity, a
/// number by what lies below it, and the sign by the highest bit.
pub proof fn law_a_pattern_tells_what_a_float_is(v: F32, nan: bool, finite: bool, negative: bool)
    requires
        call_ensures(F32::is_nan, (v,), nan),
        call_ensures(F32::is_finite, (v,), finite),
        call_ensures(F32::is_negative, (v,), negative),
    ensures
        nan <==> v.bits % 0x8000_0000 > 0x7F80_0000,
        finite <==> v.bits % 0x8000_0000 < 0x7F80_0000,
        negative <==> v.bits >= 0x8000_0000,
{
}

/// Floats compare as numbers do: two above zero by their patterns, two below zero the
/// other way round, and one below zero is at most one above. The two zeros are equal, and
/// a NaN compares with nothing.
pub proof fn law_floats_compare_as_numbers(a: F32, b: F32, r: bool)
    requires
        call_ensures(F32::le, (a, b), r),
    ensures
        a.bits % 0x8000_0000 > 0x7F80_0000 || b.bits % 0x8000_0000 > 0x7F80_0000 ==> !r,
        a.bits <= 0x7F80_0000 && b.bits <= 0x7F80_0000 ==> (r <==> a.bits <= b.bits),
        0x8000_0000 <= a.bits <= 0xFF80_0000 && 0x8000_0000 <= b.bits <= 0xFF80_0000 ==> (r
            <==> b.bits <= a.bits),
        0x8000_0000 <= a.bits <= 0xFF80_0000 && b.bits <= 0x7F80_0000 ==> r,
        a.bits <= 0x7F80_0000 && 0x8000_0000 < b.bits <= 0xFF80_0000 ==> !r,
        a.bits == 0 && b.bits == 0x8000_0000 ==> r,
{
    let (m, n) = (unsigned32(a.bits), unsigned32(b.bits));
    lemma_magnitude_order(m, n);
    lemma_magnitude_order(n, m);
    lemma_magnitude_order(0, m);
    lemma_magnitude_order(0, n);
}

/// A clamped float is the end it was brought to, or itself where it lay between; a float is
/// in range where it is a number and lies between the two ends.
pub proof fn law_a_clamped_float_lies_between(v: F32, min: F32, max: F32, r: F32, inside: bool)
    requires
        call_ensures(F32::clamp, (v, min, max), r),
        call_ensures(F32::in_range, (v, min, max), inside),
        !min.nan() && !max.nan() && min.value() <= max.value(),
    ensures
        v.nan() ==> r == v && !inside,
        !v.nan() ==> !r.nan() && min.value() <= r.value() <= max.value(),
        !v.nan() && min.value() < v.value() < max.value() ==> r == v,
        !v.nan() && v.value() <= min.value() ==> r == min,
        !v.nan() && v.value() >= max.value() && v.value() > min.value() ==> r == max,
        inside <==> v.finite() && min.value() <= v.value() <= max.value(),
        inside ==> r.value() == v.value(),
{
}

/// Long floats are told apart by their patterns likewise.
pub proof fn law_a_pattern_tells_what_a_long_float_is(
    v: F64,
    finite: bool,
    zero: bool,
    positive: bool,
    above: bool,
    below: bool,
    at_most: bool,
)
    requires
        call_ensures(F64::is_finite, (v,), finite),
        call_ensures(F64::is_zero, (v,), zero),
        call_ensures(F64::is_positive, (v,), positive),
        call_ensures(F64::is_above_zero, (v,), above),
        call_ensures(F64::is_below_zero, (v,), below),
        call_ensures(F64::is_at_most_zero, (v,), at_most),
    ensures
        finite <==> v.bits % 0x8000_0000_0000_0000 < 0x7FF0_0000_0000_0000,
        zero <==> v.bits % 0x8000_0000_0000_0000 == 0,
        positive <==> 0 < v.bits < 0x7FF0_0000_0000_0000,
        above <==> 0 < v.bits <= 0x7FF0_0000_0000_0000,
        below <==> 0x8000_0000_0000_0000 < v.bits <= 0xFFF0_0000_0000_0000,
        at_most <==> zero || below,
        positive <==> above && finite,
        !(above && at_most),
{
}

/// A percentage is rounded to the nearest whole number, a half up, and takes no more than
/// all; its sign does not count, and what is not a number takes nothing.
pub proof fn law_a_percentage_is_rounded_to_the_nearest(
    whole: usize,
    percent: F32,
    other: F32,
    part: usize,
    same: usize,
)
    requires
        call_ensures(percentage, (whole, percent), part),
        call_ensures(percentage, (whole, other), same),
        other.value() == -percent.value(),
        other.finite() == percent.finite(),
    ensures
        part == same,
        part <= whole,
        !percent.finite() ==> part == 0,
        percent.finite() && percent.value() >= 0 ==> 200 * unit32() * part <= 2 * whole
            * percent.value() + 100 * unit32(),
        percent.finite() && percent.value() >= 0 && part < whole ==> 2 * whole * percent.value() + 100
            * unit32() < 200 * unit32() * (part + 1),
        percent.finite() && percent.value() == 100 * unit32() ==> part == whole,
        percent.finite() && percent.value() == 0 ==> part == 0,
{
    let m = unsigned32(percent.bits);
    let k = unsigned32(other.bits);
    lemma_magnitude_order(m, m);
    lemma_magnitude_order(k, k);
    lemma_pow2_pos(149);
    let (w, mag, unit) = (whole as int, percent.magnitude(), unit32());
    assert(other.magnitude() == mag);
    let n = 2 * w * mag + 100 * unit;
    let q = n / (200 * unit);
    vstd::arithmetic::div_mod::lemma_fundamental_div_mod(n, 200 * unit);
    vstd::arithmetic::div_mod::lemma_mod_bound(n, 200 * unit);
    assert(n == 200 * unit * q + n % (200 * unit));
    assert(200 * unit * (q + 1) == 200 * unit * q + 200 * unit) by (nonlinear_arith);
    if percent.finite() && percent.value() >= 0 {
        assert(percent.value() == mag);
        if q > w {
            assert(200 * unit * w <= 200 * unit * q) by (nonlinear_arith)
                requires
                    w < q,
                    unit > 0,
            ;
        }
        if mag == 0 {
            assert(2 * w * mag == 0) by (nonlinear_arith)
                requires
                    mag == 0,
            ;
            assert(q == 0) by (nonlinear_arith)
                requires
                    n == 100 * unit,
                    q == n / (200 * unit),
                    unit > 0,
            ;
        }
        if mag == 100 * unit {
            assert(2 * w * (100 * unit) == 200 * unit * w) by (nonlinear_arith);
            assert(q >= w) by (nonlinear_arith)
                requires
                    n == 200 * unit * w + 100 * unit,
                    q == n / (200 * unit),
                    unit > 0,
                    w >= 0,
            ;
        }
    }
}

} // verus!
