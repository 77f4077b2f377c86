//! Double-precision numbers, held as their IEEE 754 bit patterns.
//!
//! The provider only carries such numbers from one side to the other, cuts
//! them down to integers, and asks where they lie. All of that is done on the
//! bits: a sign, an exponent field of eleven bits and a fraction of 52 bits.

use vstd::arithmetic::power2::*;
use vstd::prelude::*;

verus! {

/// Two to the power 52: the weight of the implicit leading bit.
pub const IMPLICIT_BIT: u64 = 0x10_0000_0000_0000;

/// Two to the power 63: the sign bit.
pub const SIGN_BIT: u64 = 0x8000_0000_0000_0000;

/// A double-precision number.
#[derive(Clone, Copy, PartialEq, Eq, Structural, Debug)]
pub struct Double {
    /// The IEEE 754 binary64 encoding.
    pub bits: u64,
}

impl View for Double {
    type V = Double;

    open spec fn view(&self) -> Double {
        *self
    }
}

/// The position of the highest one bit of `n` (0 for 0).
pub open spec fn top_bit(n: nat) -> nat
    decreases n,
{
    if n < 2 {
        0
    } else {
        1 + top_bit(n / 2)
    }
}

/// The encoding of the double nearest to `n`, ties going to the even
/// significand. A carry out of the fraction moves into the exponent field.
pub open spec fn nearest_bits(n: nat) -> int {
    let k = top_bit(n);
    if n == 0 {
        0
    } else if k <= 52 {
        (k + 1022) * IMPLICIT_BIT + n * pow2((52 - k) as nat)
    } else {
        let step = pow2((k - 52) as nat);
        let kept = n / step;
        let lost = n % step;
        let up: int = if 2 * lost > step || (2 * lost == step && kept % 2 == 1) {
            1
        } else {
            0
        };
        (k + 1022) * IMPLICIT_BIT + kept + up
    }
}

/// `n` confined to the range of `i32`.
pub open spec fn saturated_i32(n: int) -> int {
    if n < i32::MIN {
        i32::MIN as int
    } else if n > i32::MAX {
        i32::MAX as int
    } else {
        n
    }
}

impl Double {
    /// The sign bit is set.
    pub open spec fn negative(self) -> bool {
        self.bits >= SIGN_BIT
    }

    /// The exponent field.
    pub open spec fn exponent(self) -> int {
        (self.bits / IMPLICIT_BIT) as int % 2048
    }

    /// The fraction field.
    pub open spec fn fraction(self) -> int {
        (self.bits % IMPLICIT_BIT) as int
    }

    /// Not a number.
    pub open spec fn nan(self) -> bool {
        self.exponent() == 2047 && self.fraction() != 0
    }

    /// One of the two infinities.
    pub open spec fn infinite(self) -> bool {
        self.exponent() == 2047 && self.fraction() == 0
    }

    /// One of the two zeros.
    pub open spec fn zero(self) -> bool {
        self.exponent() == 0 && self.fraction() == 0
    }

    /// The integer that the magnitude is a power-of-two multiple of.
    pub open spec fn significand(self) -> int {
        if self.exponent() == 0 {
            self.fraction()
        } else {
            self.fraction() + IMPLICIT_BIT
        }
    }

    /// The binary exponent that belongs to the significand.
    pub open spec fn scale(self) -> int {
        if self.exponent() == 0 {
            -1074
        } else {
            self.exponent() - 1075
        }
    }

    /// The magnitude of a finite number, rounded down to an integer.
    pub open spec fn whole_magnitude(self) -> int {
        if self.scale() >= 0 {
            self.significand() * pow2(self.scale() as nat)
        } else {
            self.significand() / pow2((-self.scale()) as nat) as int
        }
    }

    /// The number cut towards zero and confined to `i32`; 0 where it is no
    /// number.
    pub open spec fn truncated(self) -> int {
        if self.nan() {
            0
        } else if self.infinite() {
            if self.negative() {
                i32::MIN as int
            } else {
                i32::MAX as int
            }
        } else if self.negative() {
            saturated_i32(-self.whole_magnitude())
        } else {
            saturated_i32(self.whole_magnitude())
        }
    }

    /// The number is less than zero.
    pub open spec fn below_zero(self) -> bool {
        self.negative() && !self.nan() && !self.zero()
    }

    /// The number is at least `n`, for a positive `n`.
    pub open spec fn at_least(self, n: int) -> bool {
        !self.negative() && !self.nan() && (self.infinite() || self.whole_magnitude() >= n)
    }

    /// The number is zero or less.
    pub open spec fn at_most_zero(self) -> bool {
        self.zero() || self.below_zero()
    }

    /// The number is no further from zero than `n`. Without their signs,
    /// numbers are ordered as their bit patterns are, and what is no number
    /// stands behind all of them.
    pub open spec fn magnitude_at_most(self, n: nat) -> bool {
        (self.bits % SIGN_BIT) as int <= nearest_bits(n)
    }

    /// Whether the number is finite.
    pub fn is_finite(&self) -> (finite: bool)
        ensures
            finite == (!self.nan() && !self.infinite()),
    {
        (self.bits / IMPLICIT_BIT) % 2048 != 2047
    }

    /// Whether the number is less than zero.
    pub fn is_below_zero(&self) -> (below: bool)
        ensures
            below == self.below_zero(),
    {
        let exponent: u64 = (self.bits / IMPLICIT_BIT) % 2048;
        let fraction: u64 = self.bits % IMPLICIT_BIT;
        self.bits >= SIGN_BIT && !(exponent == 2047 && fraction != 0) && !(exponent == 0
            && fraction == 0)
    }

    /// Whether the number is zero or less.
    pub fn is_at_most_zero(&self) -> (at_most: bool)
        ensures
            at_most == self.at_most_zero(),
    {
        let exponent: u64 = (self.bits / IMPLICIT_BIT) % 2048;
        let fraction: u64 = self.bits % IMPLICIT_BIT;
        (exponent == 0 && fraction == 0) || self.is_below_zero()
    }

    /// Whether the number is at least `n`.
    pub fn is_at_least(&self, n: i32) -> (at_least: bool)
        requires
            0 < n,
        ensures
            at_least == self.at_least(n as int),
    {
        proof {
            lemma_whole_magnitude_bounds(*self);
        }
        self.truncate() >= n
    }

    /// Whether the number is no further from zero than `n`.
    pub fn is_magnitude_at_most(&self, n: u64) -> (at_most: bool)
        ensures
            at_most == self.magnitude_at_most(n as nat),
    {
        self.bits % SIGN_BIT <= Double::from_u64(n).bits
    }

    /// Cuts the number towards zero and confines it to `i32`.
    pub fn truncate(&self) -> (n: i32)
        ensures
            n == self.truncated(),
    {
        let exponent: u64 = (self.bits / IMPLICIT_BIT) % 2048;
        let fraction: u64 = self.bits % IMPLICIT_BIT;
        let negative: bool = self.bits >= SIGN_BIT;
        proof {
            lemma_whole_magnitude_bounds(*self);
        }
        if exponent == 2047 && fraction != 0 {
            return 0;
        }
        if exponent < 1023 {
            return 0;
        }
        if exponent >= 1054 {
            return if negative {
                i32::MIN
            } else {
                i32::MAX
            };
        }
        let significand: u64 = fraction + IMPLICIT_BIT;
        let divisor: u64 = power_of_two(1075 - exponent);
        let whole: u64 = significand / divisor;
        proof {
            assert(whole == self.whole_magnitude());
        }
        if negative {
            -(whole as i32)
        } else {
            whole as i32
        }
    }

    /// The double nearest to `n`.
    pub fn from_u64(n: u64) -> (d: Double)
        ensures
            d.bits == nearest_bits(n as nat),
    {
        if n == 0 {
            return Double { bits: 0 };
        }
        let k: u64 = highest_bit(n);
        proof {
            lemma_top_bit_bounds(n as nat);
            lemma2_to64();
            lemma2_to64_rest();
        }
        if k <= 52 {
            let factor: u64 = power_of_two(52 - k);
            proof {
                lemma_normalised(n as nat, k as nat);
            }
            Double { bits: (k + 1022) * IMPLICIT_BIT + n * factor }
        } else {
            let step: u64 = power_of_two(k - 52);
            let kept: u64 = n / step;
            let lost: u64 = n % step;
            proof {
                lemma_kept_bound(n as nat, k as nat);
                if k < 63 {
                    lemma_pow2_strictly_increases((k - 52) as nat, 11);
                }
                assert(step <= 2048);
            }
            let up: u64 = if 2 * lost > step || (2 * lost == step && kept % 2 == 1) {
                1
            } else {
                0
            };
            Double { bits: (k + 1022) * IMPLICIT_BIT + kept + up }
        }
    }

    /// The double nearest to the negative number `n`.
    pub fn from_negative(n: i64) -> (d: Double)
        requires
            n < 0,
        ensures
            d.bits == nearest_bits((-n) as nat) + SIGN_BIT,
    {
        let magnitude: u64 = (-(n as i128)) as u64;
        let d = Double::from_u64(magnitude);
        proof {
            lemma_nearest_bits_bound(magnitude as nat);
        }
        Double { bits: d.bits + SIGN_BIT }
    }
}

/// Two to the power `k`.
fn power_of_two(k: u64) -> (p: u64)
    requires
        k < 64,
    ensures
        p == pow2(k as nat),
        p > 0,
{
    proof {
        lemma2_to64();
        lemma2_to64_rest();
        lemma_pow2_pos(k as nat);
    }
    let mut p: u64 = 1;
    let mut i: u64 = 0;
    while i < k
        invariant
            i <= k < 64,
            p == pow2(i as nat),
            pow2(63) == SIGN_BIT,
        decreases k - i,
    {
        proof {
            lemma_pow2_unfold((i + 1) as nat);
            if i + 1 < 63 {
                lemma_pow2_strictly_increases((i + 1) as nat, 63);
            }
        }
        p = p * 2;
        i += 1;
    }
    p
}

/// The position of the highest one bit of `n`.
fn highest_bit(n: u64) -> (k: u64)
    ensures
        k == top_bit(n as nat),
        k < 64,
{
    let mut rest: u64 = n;
    let mut k: u64 = 0;
    proof {
        lemma_top_bit_bounds(n as nat);
    }
    while rest >= 2
        invariant
            k + top_bit(rest as nat) == top_bit(n as nat),
            top_bit(n as nat) < 64,
        decreases rest,
    {
        rest = rest / 2;
        k += 1;
    }
    k
}

proof fn lemma_top_bit_bounds(n: nat)
    ensures
        n > 0 ==> pow2(top_bit(n)) <= n < pow2(top_bit(n) + 1),
        n <= u64::MAX ==> top_bit(n) < 64,
    decreases n,
{
    lemma2_to64();
    if n >= 2 {
        lemma_top_bit_bounds(n / 2);
        lemma_pow2_unfold(top_bit(n));
        lemma_pow2_unfold(top_bit(n) + 1);
    }
    if n > 0 && n <= u64::MAX && top_bit(n) >= 64 {
        lemma2_to64_rest();
        if top_bit(n) > 64 {
            lemma_pow2_strictly_increases(64, top_bit(n));
        }
    }
}

proof fn lemma_normalised(n: nat, k: nat)
    requires
        n > 0,
        k == top_bit(n),
        k <= 52,
    ensures
        IMPLICIT_BIT <= n * pow2((52 - k) as nat) < 2 * IMPLICIT_BIT,
        pow2(52) == IMPLICIT_BIT,
        pow2(k) * pow2((52 - k) as nat) == IMPLICIT_BIT,
{
    lemma_top_bit_bounds(n);
    lemma2_to64_rest();
    lemma_pow2_adds(k, (52 - k) as nat);
    lemma_pow2_adds(k + 1, (52 - k) as nat);
    let f = pow2((52 - k) as nat);
    lemma_pow2_pos((52 - k) as nat);
    lemma_pow2_unfold(53);
    assert(pow2(k) * f <= n * f < pow2(k + 1) * f) by (nonlinear_arith)
        requires
            pow2(k) <= n < pow2(k + 1),
            f > 0,
    ;
}

proof fn lemma_kept_bound(n: nat, k: nat)
    requires
        n > 0,
        k == top_bit(n),
        52 < k,
    ensures
        IMPLICIT_BIT <= n / pow2((k - 52) as nat) < 2 * IMPLICIT_BIT,
        pow2((k - 52) as nat) > 0,
{
    lemma_top_bit_bounds(n);
    lemma2_to64_rest();
    let step = pow2((k - 52) as nat);
    lemma_pow2_pos((k - 52) as nat);
    lemma_pow2_adds((k - 52) as nat, 52);
    lemma_pow2_adds((k - 52) as nat, 53);
    lemma_pow2_unfold(53);
    let q = n / step;
    assert(step * IMPLICIT_BIT <= n < step * (2 * IMPLICIT_BIT));
    assert(IMPLICIT_BIT <= q < 2 * IMPLICIT_BIT) by (nonlinear_arith)
        requires
            q == n / step,
            step > 0,
            step * IMPLICIT_BIT <= n < step * (2 * IMPLICIT_BIT),
    ;
}

/// The encoding of the double nearest to a number that is not negative has no
/// sign bit.
pub proof fn lemma_nearest_bits_bound(n: nat)
    requires
        n <= u64::MAX,
    ensures
        0 <= nearest_bits(n) < SIGN_BIT,
{
    let k = top_bit(n);
    lemma_top_bit_bounds(n);
    if n > 0 {
        if k <= 52 {
            lemma_normalised(n, k);
        } else {
            lemma_kept_bound(n, k);
        }
    }
}

proof fn lemma_whole_magnitude_bounds(d: Double)
    ensures
        0 <= d.fraction() < IMPLICIT_BIT,
        0 <= d.exponent() < 2048,
        d.exponent() < 1023 ==> d.whole_magnitude() == 0,
        1023 <= d.exponent() < 1054 ==> 0 <= d.whole_magnitude() <= i32::MAX,
        1054 <= d.exponent() ==> d.whole_magnitude() > i32::MAX,
        d.zero() ==> d.whole_magnitude() == 0,
{
    lemma2_to64();
    lemma2_to64_rest();
    let e = d.exponent();
    let m = d.significand();
    if e < 1023 {
        let shift = (-d.scale()) as nat;
        let p = pow2(shift);
        if shift > 53 {
            lemma_pow2_strictly_increases(53, shift);
        }
        lemma_pow2_unfold(53);
        assert(0 <= m < p);
        vstd::arithmetic::div_mod::lemma_basic_div(m, p as int);
    } else if e < 1054 {
        let shift = (-d.scale()) as nat;
        let p = pow2(shift) as int;
        lemma_pow2_pos(shift);
        if shift > 22 {
            lemma_pow2_strictly_increases(22, shift);
        }
        lemma_pow2_unfold(53);
        let q = m / p;
        assert(0 <= q < 0x8000_0000) by (nonlinear_arith)
            requires
                q == m / p,
                0 <= m < 0x20_0000_0000_0000,
                p >= 0x40_0000,
        ;
    } else if e < 1075 {
        let shift = (-d.scale()) as nat;
        let p = pow2(shift) as int;
        lemma_pow2_pos(shift);
        if shift < 21 {
            lemma_pow2_strictly_increases(shift, 21);
        }
        let q = m / p;
        assert(q >= 0x8000_0000) by (nonlinear_arith)
            requires
                q == m / p,
                m >= 0x10_0000_0000_0000,
                0 < p <= 0x20_0000,
        ;
    } else {
        let p = pow2(d.scale() as nat) as int;
        lemma_pow2_pos(d.scale() as nat);
        assert(m * p >= m) by (nonlinear_arith)
            requires
                m >= 0,
                p >= 1,
        ;
    }
}

/// A whole number taken as a double and cut back to an integer is itself, as
/// far as `i32` reaches.
pub proof fn law_whole_numbers_survive(n: u64, d: Double)
    requires
        d.bits == nearest_bits(n as nat),
    ensures
        d.truncated() == saturated_i32(n as int),
        !d.negative(),
        !d.nan(),
        !d.infinite(),
        d.zero() <==> n == 0,
{
    lemma_nearest_bits_bound(n as nat);
    lemma_top_bit_bounds(n as nat);
    lemma_whole_magnitude_bounds(d);
    lemma2_to64();
    lemma2_to64_rest();
    let k = top_bit(n as nat);
    if n > 0 {
        if k <= 52 {
            lemma_normalised(n as nat, k);
            let f = pow2((52 - k) as nat);
            let m = n * f;
            lemma_pow2_pos((52 - k) as nat);
            assert(d.bits == (k + 1023) * IMPLICIT_BIT + (m - IMPLICIT_BIT));
            assert(d.exponent() == k + 1023);
            assert(d.significand() == m);
            assert(m / f as int == n) by (nonlinear_arith)
                requires
                    m == n * f,
                    f > 0,
            ;
            if k == 52 {
                assert(f == 1);
                assert(m == n) by (nonlinear_arith)
                    requires
                        m == n * f,
                        f == 1,
                ;
            }
            assert(d.whole_magnitude() == n);
        } else {
            lemma_kept_bound(n as nat, k);
            lemma_pow2_strictly_increases(52, k);
            assert(d.exponent() >= k + 1023);
            assert(n > i32::MAX);
        }
    }
}

/// A negative whole number taken as a double and cut back to an integer is
/// itself, as far as `i32` reaches.
pub proof fn law_negative_numbers_survive(n: i64, d: Double)
    requires
        n < 0,
        d.bits == nearest_bits((-n) as nat) + SIGN_BIT,
    ensures
        -0x7fff_ffff < n ==> d.truncated() == n,
        d.negative(),
        !d.nan(),
        !d.infinite(),
        !d.zero(),
{
    let m = (-n) as u64;
    let positive = Double { bits: nearest_bits(m as nat) as u64 };
    lemma_nearest_bits_bound(m as nat);
    law_whole_numbers_survive(m, positive);
    lemma_whole_magnitude_bounds(positive);
    let e = positive.bits;
    assert(d.bits == e + SIGN_BIT);
    assert(e < SIGN_BIT);
    assert((e + SIGN_BIT) / IMPLICIT_BIT as int == e / IMPLICIT_BIT + 2048);
    assert((e + SIGN_BIT) % IMPLICIT_BIT as int == e % IMPLICIT_BIT);
    assert(d.exponent() == positive.exponent());
    assert(d.fraction() == positive.fraction());
}

/// The comparison of bit patterns is the comparison of numbers: a number is no
/// further from zero than `n`, an integer that a double holds exactly, where it
/// is finite and its significand times its power of two is at most `n`.
pub proof fn law_magnitude_order(d: Double, n: nat)
    requires
        0 < n < 2 * IMPLICIT_BIT,
    ensures
        d.magnitude_at_most(n) <==> {
            &&& !d.nan()
            &&& !d.infinite()
            &&& if d.scale() >= 0 {
                d.significand() * pow2(d.scale() as nat) <= n
            } else {
                d.significand() <= n * pow2((-d.scale()) as nat)
            }
        },
{
    lemma_whole_magnitude_bounds(d);
    lemma_top_bit_bounds(n);
    lemma2_to64();
    lemma2_to64_rest();
    let k = top_bit(n);
    if k > 52 {
        if k > 53 {
            lemma_pow2_strictly_increases(53, k);
        }
        lemma_pow2_unfold(53);
    }
    lemma_normalised(n, k);
    lemma_pow2_unfold(53);
    let e = d.exponent();
    let f = d.fraction();
    let m = d.significand();
    assert((d.bits % SIGN_BIT) as int == e * IMPLICIT_BIT + f);
    let top = n * pow2((52 - k) as nat);
    assert(nearest_bits(n) == (k + 1022) * IMPLICIT_BIT + top);
    if e < k + 1023 {
        let s = (-d.scale()) as nat;
        lemma_magnitude_below(n, k, s, m);
    } else if e == k + 1023 {
        assert(d.magnitude_at_most(n) <==> m <= top);
        if k == 52 {
            assert(pow2(0) == 1);
            assert(m * pow2(0) == m) by (nonlinear_arith)
                requires
                    pow2(0) == 1,
            ;
            assert(n * pow2(0) == n) by (nonlinear_arith)
                requires
                    pow2(0) == 1,
            ;
        }
    } else {
        assert(!d.magnitude_at_most(n));
        if e < 2047 && d.scale() < 0 {
            let s = (-d.scale()) as nat;
            lemma_magnitude_above(n, k, s, m);
        } else if e < 2047 {
            let p = pow2(d.scale() as nat);
            lemma_pow2_pos(d.scale() as nat);
            if k < 51 {
                lemma_pow2_strictly_increases(k + 1, 52);
            }
            if k == 52 {
                if d.scale() > 1 {
                    lemma_pow2_strictly_increases(1, d.scale() as nat);
                }
                assert(m * p >= 2 * IMPLICIT_BIT) by (nonlinear_arith)
                    requires
                        m >= IMPLICIT_BIT,
                        p >= 2,
                ;
            } else {
                assert(m * p >= IMPLICIT_BIT) by (nonlinear_arith)
                    requires
                        m >= IMPLICIT_BIT,
                        p >= 1,
                ;
            }
        }
    }
}

proof fn lemma_magnitude_below(n: nat, k: nat, s: nat, m: int)
    requires
        k <= 52,
        pow2(k) <= n,
        s >= 53 - k,
        m < 2 * IMPLICIT_BIT,
    ensures
        m <= n * pow2(s),
{
    lemma2_to64_rest();
    lemma_pow2_unfold(53);
    let t = (53 - k) as nat;
    lemma_pow2_adds(k, t);
    lemma_pow2_pos(t);
    if s > t {
        lemma_pow2_strictly_increases(t, s);
    }
    assert(n * pow2(s) >= pow2(k) * pow2(t)) by (nonlinear_arith)
        requires
            n >= pow2(k),
            pow2(s) >= pow2(t),
    ;
}

proof fn lemma_magnitude_above(n: nat, k: nat, s: nat, m: int)
    requires
        k <= 51,
        n < pow2(k + 1),
        s <= 51 - k,
        m >= IMPLICIT_BIT,
    ensures
        m > n * pow2(s),
{
    lemma2_to64_rest();
    let t = (51 - k) as nat;
    lemma_pow2_adds(k + 1, t);
    lemma_pow2_pos(t);
    if s < t {
        lemma_pow2_strictly_increases(s, t);
    }
    assert(n * pow2(s) < pow2(k + 1) * pow2(t)) by (nonlinear_arith)
        requires
            n < pow2(k + 1),
            pow2(s) <= pow2(t),
            pow2(t) > 0,
    ;
}

/// A whole number taken as a double is as far from zero as the number: it is no
/// further than `n` where the number is not.
pub proof fn law_integer_magnitudes(m: i64, d: Double, n: nat)
    requires
        0 < n < 2 * IMPLICIT_BIT,
        -0x8000_0000 <= m < 0x8000_0000,
        m >= 0 ==> d.bits == nearest_bits(m as nat),
        m < 0 ==> d.bits == nearest_bits((-m) as nat) + SIGN_BIT,
    ensures
        d.magnitude_at_most(n) <==> -n <= m <= n,
{
    let a: nat = if m >= 0 {
        m as nat
    } else {
        (-m) as nat
    };
    lemma_nearest_bits_bound(a);
    lemma_nearest_order(a, n);
    assert((d.bits % SIGN_BIT) as int == nearest_bits(a));
}

proof fn lemma_nearest_order(a: nat, b: nat)
    requires
        a < 2 * IMPLICIT_BIT,
        0 < b < 2 * IMPLICIT_BIT,
    ensures
        nearest_bits(a) <= nearest_bits(b) <==> a <= b,
{
    lemma_exact(b);
    if a == 0 {
        lemma_normalised(b, top_bit(b));
    } else {
        lemma_exact(a);
        let j = top_bit(a);
        let k = top_bit(b);
        lemma_normalised(a, j);
        lemma_normalised(b, k);
        lemma_top_bit_bounds(a);
        lemma_top_bit_bounds(b);
        if j < k {
            if j + 1 < k {
                lemma_pow2_strictly_increases(j + 1, k);
            }
        } else if k < j {
            if k + 1 < j {
                lemma_pow2_strictly_increases(k + 1, j);
            }
        } else {
            let f = pow2((52 - k) as nat);
            lemma_pow2_pos((52 - k) as nat);
            assert(a * f <= b * f <==> a <= b) by (nonlinear_arith)
                requires
                    f > 0,
            ;
        }
    }
}

proof fn lemma_exact(n: nat)
    requires
        0 < n < 2 * IMPLICIT_BIT,
    ensures
        top_bit(n) <= 52,
{
    lemma_top_bit_bounds(n);
    lemma2_to64_rest();
    lemma_pow2_unfold(53);
    if top_bit(n) > 53 {
        lemma_pow2_strictly_increases(53, top_bit(n));
    }
}

/// A finite number is at least a positive integer where its whole part is.
pub proof fn law_at_least_is_by_the_whole_part(d: Double, n: i32)
    requires
        0 < n,
        !d.nan(),
        !d.infinite(),
    ensures
        d.at_least(n as int) <==> d.truncated() >= n,
        d.below_zero() <==> d.negative() && !d.zero(),
        d.at_most_zero() <==> d.negative() || d.zero(),
{
    lemma_whole_magnitude_bounds(d);
}

/// A finite number that is cut is the whole number next to it towards zero: with
/// the sign of the number, and no further from zero than the number, but less
/// than one short of it.
pub proof fn law_cutting(d: Double)
    requires
        !d.nan(),
        d.exponent() < 1054,
    ensures
        ({
            let t = d.truncated();
            let whole = if t < 0 {
                -t
            } else {
                t
            };
            let unit = pow2((-d.scale()) as nat);
            &&& d.negative() ==> t <= 0
            &&& !d.negative() ==> t >= 0
            &&& whole * unit <= d.significand() < (whole + 1) * unit
        }),
{
    lemma_whole_magnitude_bounds(d);
    let unit = pow2((-d.scale()) as nat) as int;
    lemma_pow2_pos((-d.scale()) as nat);
    let m = d.significand();
    let whole = m / unit;
    assert(whole * unit <= m < (whole + 1) * unit) by (nonlinear_arith)
        requires
            whole == m / unit,
            unit > 0,
    ;
    assert(d.whole_magnitude() == whole);
}

/// What is no number is cut to 0, and numbers beyond the range of `i32`, the
/// infinities among them, to its ends.
pub proof fn law_cutting_ends(d: Double)
    ensures
        d.nan() ==> d.truncated() == 0,
        !d.nan() && d.exponent() >= 1054 && d.negative() ==> d.truncated() == -0x8000_0000,
        !d.nan() && d.exponent() >= 1054 && !d.negative() ==> d.truncated() == 0x7fff_ffff,
{
    lemma_whole_magnitude_bounds(d);
}

/// The parts of the encoding: the sign, the exponent and the fraction make up the
/// bits, and tell apart numbers, infinities and what is no number.
pub proof fn law_encoding(d: Double)
    ensures
        d.bits == (if d.negative() {
            0x8000_0000_0000_0000int
        } else {
            0
        }) + d.exponent() * 0x10_0000_0000_0000 + d.fraction(),
        0 <= d.exponent() < 2048,
        0 <= d.fraction() < 0x10_0000_0000_0000,
        d.exponent() == 2047 <==> d.nan() || d.infinite(),
        !(d.nan() && d.infinite()),
        d.exponent() == 2047 && d.fraction() == 0 <==> d.infinite(),
        d.exponent() == 0 && d.fraction() == 0 <==> d.zero(),
        d.zero() <==> d.significand() == 0,
        0 < d.exponent() ==> d.significand() == d.fraction() + 0x10_0000_0000_0000 && d.scale()
            == d.exponent() - 1075,
        d.exponent() == 0 ==> d.significand() == d.fraction() && d.scale() == -1074,
{
}

/// A whole number of up to 53 bits is held exactly: the significand, over its
/// power of two, is the number.
pub proof fn law_whole_numbers_are_exact(n: u64, d: Double)
    requires
        0 < n < 2 * IMPLICIT_BIT,
        d.bits == nearest_bits(n as nat),
    ensures
        d.scale() <= 0,
        d.significand() == n * pow2((-d.scale()) as nat),
        !d.negative(),
{
    lemma_exact(n as nat);
    let k = top_bit(n as nat);
    lemma_normalised(n as nat, k);
    lemma_nearest_bits_bound(n as nat);
    let m = n * pow2((52 - k) as nat);
    assert(d.bits == (k + 1023) * IMPLICIT_BIT + (m - IMPLICIT_BIT));
    assert(d.exponent() == k + 1023);
    assert(d.significand() == m);
}

/// A whole number of more than 53 bits is held as the nearest number that can be:
/// no further from it than half the unit of its last place.
pub proof fn law_large_numbers_are_nearest(n: u64, d: Double, unit: nat)
    requires
        n >= 2 * IMPLICIT_BIT,
        d.bits == nearest_bits(n as nat),
        unit == pow2((top_bit(n as nat) - 52) as nat),
    ensures
        d.scale() > 0,
        ({
            let held = d.significand() * pow2(d.scale() as nat);
            &&& 2 * (held - n) <= unit
            &&& 2 * (n - held) <= unit
        }),
        !d.negative(),
{
    let k = top_bit(n as nat);
    lemma_top_bit_bounds(n as nat);
    lemma_nearest_bits_bound(n as nat);
    lemma2_to64();
    lemma2_to64_rest();
    lemma_pow2_unfold(53);
    if k < 53 {
        if k + 1 < 53 {
            lemma_pow2_strictly_increases((k + 1) as nat, 53);
        }
    }
    lemma_kept_bound(n as nat, k);
    let kept = n / unit as u64;
    let lost = n % unit as u64;
    lemma_pow2_strictly_increases((k - 52) as nat, 64);
    assert(unit <= u64::MAX);
    vstd::arithmetic::div_mod::lemma_fundamental_div_mod(n as int, unit as int);
    let up: int = if 2 * lost > unit || (2 * lost == unit && kept % 2 == 1) {
        1
    } else {
        0
    };
    assert(n == unit * kept + lost);
    assert(d.bits == (k + 1022) * IMPLICIT_BIT + kept + up);
    if kept + up < 2 * IMPLICIT_BIT {
        assert(d.exponent() == k + 1023);
        assert(d.significand() == kept + up);
        assert(d.scale() == k - 52);
        assert((kept + up) * unit == unit * kept + up * unit) by (nonlinear_arith);
    } else {
        assert(d.bits == (k + 1024) * IMPLICIT_BIT);
        assert(d.exponent() == k + 1024);
        assert(d.significand() == IMPLICIT_BIT);
        assert(d.scale() == k - 51);
        lemma_pow2_unfold((k - 51) as nat);
        assert(IMPLICIT_BIT * (2 * unit) == unit * kept + unit) by (nonlinear_arith)
            requires
                kept + 1 == 2 * IMPLICIT_BIT,
        ;
    }
}

} // verus!
