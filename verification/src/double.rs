//! Binary64 numbers as bit patterns: order, truncation, closeness and the
//! number nearest to an integer, all in integer arithmetic.

use vstd::arithmetic::power2::pow2;
use vstd::prelude::*;

verus! {

/// A binary64 number, held as its bit pattern.
#[derive(Clone, Copy, Debug, PartialEq, Eq, Structural)]
pub struct Double {
    pub bits: u64,
}

/// 2 to the power 52: the weight of the exponent field.
pub const FIELD: u64 = 0x10_0000_0000_0000;

/// The bit pattern that has the sign bit alone.
pub const SIGN: u64 = 0x8000_0000_0000_0000;

/// The magnitude bits of infinity; larger ones are not numbers.
pub const INFINITE: u64 = 0x7ff0_0000_0000_0000;

impl Double {
    /// Whether the sign bit is set.
    pub open spec fn is_negative(self) -> bool {
        self.bits >= SIGN
    }

    /// The bit pattern without its sign.
    pub open spec fn magnitude(self) -> u64 {
        if self.bits >= SIGN {
            (self.bits - SIGN) as u64
        } else {
            self.bits
        }
    }

    /// Whether this is no number.
    pub open spec fn is_nan(self) -> bool {
        self.magnitude() > INFINITE
    }

    /// Whether this is a number that is not infinite.
    pub open spec fn is_finite(self) -> bool {
        self.magnitude() < INFINITE
    }

    /// The place of this number in the order of numbers.
    pub open spec fn rank(self) -> int {
        if self.is_negative() {
            -(self.magnitude() as int)
        } else {
            self.magnitude() as int
        }
    }

    /// `self < other`.
    pub open spec fn below(self, other: Double) -> bool {
        !self.is_nan() && !other.is_nan() && self.rank() < other.rank()
    }

    /// `self <= other`.
    pub open spec fn at_most(self, other: Double) -> bool {
        !self.is_nan() && !other.is_nan() && self.rank() <= other.rank()
    }

    /// The exponent field.
    pub open spec fn exponent(self) -> nat {
        (self.magnitude() / FIELD) as nat
    }

    /// The significand as an integer.
    pub open spec fn significand(self) -> nat {
        if self.exponent() == 0 {
            (self.magnitude() % FIELD) as nat
        } else {
            (FIELD + self.magnitude() % FIELD) as nat
        }
    }

    /// The power of two by which the significand counts, above the least.
    pub open spec fn shift(self) -> nat {
        if self.exponent() == 0 {
            0
        } else {
            (self.exponent() - 1) as nat
        }
    }

    /// The size of a finite number, in units of 2 to the power -1074.
    pub open spec fn size(self) -> nat {
        self.significand() * pow2(self.shift())
    }

    /// A finite number, in units of 2 to the power -1074.
    pub open spec fn units(self) -> int {
        if self.is_negative() {
            -(self.size() as int)
        } else {
            self.size() as int
        }
    }

    /// Whether this is a finite number without a fractional part.
    pub open spec fn is_integral(self) -> bool {
        self.is_finite() && self.size() % pow2(1074) == 0
    }

    /// The size of a finite number without its fractional part.
    pub open spec fn whole(self) -> nat {
        self.size() / pow2(1074)
    }

    /// This number cut to a whole one and held to the range of `i64`; 0 where
    /// it is no number.
    pub open spec fn cut(self) -> i64 {
        if self.is_nan() {
            0
        } else if self.is_negative() {
            if !self.is_finite() || self.whole() > 0x8000_0000_0000_0000 {
                i64::MIN
            } else {
                (-(self.whole() as int)) as i64
            }
        } else {
            if !self.is_finite() || self.whole() > i64::MAX {
                i64::MAX
            } else {
                self.whole() as i64
            }
        }
    }

    fn magnitude_bits(self) -> (r: u64)
        ensures
            r == self.magnitude(),
    {
        if self.bits >= SIGN {
            self.bits - SIGN
        } else {
            self.bits
        }
    }

    /// Whether this is no number.
    pub fn nan(self) -> (r: bool)
        ensures
            r == self.is_nan(),
    {
        self.magnitude_bits() > INFINITE
    }

    /// Whether this is a number that is not infinite.
    pub fn finite(self) -> (r: bool)
        ensures
            r == self.is_finite(),
    {
        self.magnitude_bits() < INFINITE
    }

    fn place(self) -> (r: i128)
        ensures
            r == self.rank(),
            -0x8000_0000_0000_0000 < r < 0x8000_0000_0000_0000,
    {
        let m: i128 = self.magnitude_bits() as i128;
        if self.bits >= SIGN {
            -m
        } else {
            m
        }
    }

    /// `self < other`.
    pub fn lt(self, other: Double) -> (r: bool)
        ensures
            r == self.below(other),
    {
        !self.nan() && !other.nan() && self.place() < other.place()
    }

    /// `self <= other`.
    pub fn le(self, other: Double) -> (r: bool)
        ensures
            r == self.at_most(other),
    {
        !self.nan() && !other.nan() && self.place() <= other.place()
    }

    fn exponent_field(self) -> (r: u64)
        ensures
            r == self.exponent(),
            r < 2048,
    {
        self.magnitude_bits() / FIELD
    }

    fn significand_of(self) -> (r: u64)
        ensures
            r == self.significand(),
            r < 0x20_0000_0000_0000,
            self.exponent() > 0 ==> r >= 0x10_0000_0000_0000,
    {
        let fraction: u64 = self.magnitude_bits() % FIELD;
        if self.exponent_field() == 0 {
            fraction
        } else {
            FIELD + fraction
        }
    }

    fn shift_of(self) -> (r: u64)
        ensures
            r == self.shift(),
            r < 2047,
    {
        let e: u64 = self.exponent_field();
        if e == 0 {
            0
        } else {
            e - 1
        }
    }
}

/// 2 to the power `e`.
fn power(e: u64) -> (r: u64)
    requires
        e < 64,
    ensures
        r == pow2(e as nat),
    decreases e,
{
    proof {
        vstd::arithmetic::power2::lemma2_to64();
    }
    if e == 0 {
        1
    } else {
        proof {
            vstd::arithmetic::power2::lemma_pow2_unfold(e as nat);
            if e < 63 {
                vstd::arithmetic::power2::lemma_pow2_strictly_increases(e as nat, 63);
            }
            vstd::arithmetic::power2::lemma_pow2_unfold(64);
        }
        2 * power(e - 1)
    }
}

/// A significand times a power of two, divided by a power of two.
proof fn lemma_scaled(m: nat, shift: nat, unit: nat)
    ensures
        shift >= unit ==> {
            &&& m * pow2(shift) == (m * pow2((shift - unit) as nat)) * pow2(unit)
            &&& (m * pow2(shift)) / pow2(unit) == m * pow2((shift - unit) as nat)
            &&& (m * pow2(shift)) % pow2(unit) == 0
        },
        shift < unit ==> {
            &&& (m * pow2(shift)) / pow2(unit) == m / pow2((unit - shift) as nat)
            &&& (m * pow2(shift)) % pow2(unit) == (m % pow2((unit - shift) as nat)) * pow2(shift)
        },
{
    use_pow2_pos(shift);
    use_pow2_pos(unit);
    if shift >= unit {
        let d = (shift - unit) as nat;
        vstd::arithmetic::power2::lemma_pow2_adds(d, unit);
        let k = m * pow2(d);
        assert(m * (pow2(d) * pow2(unit)) == k * pow2(unit)) by (nonlinear_arith)
            requires
                k == m * pow2(d),
        ;
        vstd::arithmetic::div_mod::lemma_div_by_multiple(k as int, pow2(unit) as int);
        vstd::arithmetic::div_mod::lemma_mod_multiples_basic(k as int, pow2(unit) as int);
    } else {
        let d = (unit - shift) as nat;
        use_pow2_pos(d);
        vstd::arithmetic::power2::lemma_pow2_adds(d, shift);
        let p = pow2(d) as int;
        let u = pow2(shift) as int;
        vstd::arithmetic::div_mod::lemma_fundamental_div_mod(m as int, p);
        let q = m as int / p;
        let r = m as int % p;
        assert(m * u == q * (p * u) + r * u) by (nonlinear_arith)
            requires
                m == p * q + r,
        ;
        assert(0 <= r * u < p * u) by (nonlinear_arith)
            requires
                0 <= r < p,
                u > 0,
        ;
        vstd::arithmetic::div_mod::lemma_fundamental_div_mod_converse(m * u, p * u, q, r * u);
    }
}

proof fn use_pow2_pos(e: nat)
    ensures
        pow2(e) > 0,
{
    vstd::arithmetic::power2::lemma_pow2_pos(e);
}

/// A size divided by a power of two: the quotient, held at `u64::MAX` where it
/// is larger, and whether it is exact.
fn divide(d: Double, unit: u64) -> (r: (u64, bool))
    requires
        63 <= unit,
    ensures
        r.1 == (d.size() % pow2(unit as nat) == 0),
        d.size() / pow2(unit as nat) <= u64::MAX ==> r.0 == d.size() / pow2(unit as nat),
        d.size() / pow2(unit as nat) > u64::MAX ==> r.0 == u64::MAX,
{
    let m: u64 = d.significand_of();
    let shift: u64 = d.shift_of();
    proof {
        lemma_scaled(m as nat, shift as nat, unit as nat);
        vstd::arithmetic::power2::lemma2_to64();
        vstd::arithmetic::power2::lemma2_to64_rest();
    }
    if shift >= unit {
        let up: u64 = shift - unit;
        if up < 11 {
            let p: u64 = power(up);
            proof {
                vstd::arithmetic::power2::lemma_pow2_strictly_increases(up as nat, 11);
            }
            assert(m * p <= 0x1f_ffff_ffff_ffff * 1024) by (nonlinear_arith)
                requires
                    m <= 0x1f_ffff_ffff_ffff,
                    p <= 1024,
            ;
            (m * p, true)
        } else {
            proof {
                if up > 11 {
                    vstd::arithmetic::power2::lemma_pow2_strictly_increases(11, up as nat);
                }
                // the exponent field is not 0, so the significand is at least 2^52
                assert(m * pow2(up as nat) >= 0x10_0000_0000_0000 * 2048) by (nonlinear_arith)
                    requires
                        m >= 0x10_0000_0000_0000,
                        pow2(up as nat) >= 2048,
                ;
                assert(0x10_0000_0000_0000 * 2048 == 0x8000_0000_0000_0000);
            }
            if up == 11 {
                let wide: u128 = (m as u128) * 2048;
                if wide <= 0xffff_ffff_ffff_ffff {
                    (wide as u64, true)
                } else {
                    (u64::MAX, true)
                }
            } else {
                proof {
                    if up > 12 {
                        vstd::arithmetic::power2::lemma_pow2_strictly_increases(12, up as nat);
                    }
                    assert(m * pow2(up as nat) >= 0x10_0000_0000_0000 * 4096) by (nonlinear_arith)
                        requires
                            m >= 0x10_0000_0000_0000,
                            pow2(up as nat) >= 4096,
                    ;
                }
                (u64::MAX, true)
            }
        }
    } else {
        let down: u64 = unit - shift;
        proof {
            vstd::arithmetic::power2::lemma_pow2_pos(shift as nat);
            vstd::arithmetic::power2::lemma_pow2_pos(down as nat);
        }
        if down < 63 {
            let p: u64 = power(down);
            proof {
                let low = (m as nat) % pow2(down as nat);
                assert((low * pow2(shift as nat) == 0) == (low == 0)) by (nonlinear_arith)
                    requires
                        pow2(shift as nat) > 0,
                        low >= 0,
                ;
                vstd::arithmetic::div_mod::lemma_div_is_ordered_by_denominator(m as int, 1, p as int);
            }
            (m / p, m % p == 0)
        } else {
            proof {
                if down > 63 {
                    vstd::arithmetic::power2::lemma_pow2_strictly_increases(63, down as nat);
                }
                vstd::arithmetic::div_mod::lemma_small_mod(m as nat, pow2(down as nat));
                vstd::arithmetic::div_mod::lemma_basic_div(m as int, pow2(down as nat) as int);
                assert((m * pow2(shift as nat) == 0) == (m == 0)) by (nonlinear_arith)
                    requires
                        pow2(shift as nat) > 0,
                        m >= 0,
                ;
            }
            (0, m == 0)
        }
    }
}

impl Double {
    /// Whether this is a finite number without a fractional part.
    pub fn integral(self) -> (r: bool)
        ensures
            r == self.is_integral(),
    {
        self.finite() && divide(self, 1074).1
    }

    /// This number cut to a whole one and held to the range of `i64`.
    pub fn to_i64(self) -> (r: i64)
        ensures
            r == self.cut(),
    {
        if self.nan() {
            return 0;
        }
        let whole: u64 = if self.finite() {
            divide(self, 1074).0
        } else {
            u64::MAX
        };
        if self.bits >= SIGN {
            if whole >= 0x8000_0000_0000_0000 {
                i64::MIN
            } else {
                -(whole as i64)
            }
        } else if whole > 0x7fff_ffff_ffff_ffff {
            i64::MAX
        } else {
            whole as i64
        }
    }
}

// ---------------------------------------------------------------------------
// Order
// ---------------------------------------------------------------------------

proof fn lemma_size_grows(a: Double, b: Double)
    requires
        a.magnitude() < b.magnitude(),
    ensures
        a.size() < b.size(),
{
    let (ma, mb) = (a.significand(), b.significand());
    let (sa, sb) = (a.shift(), b.shift());
    vstd::arithmetic::power2::lemma_pow2_pos(sa);
    if a.exponent() == b.exponent() || sa == sb {
        assert(ma * pow2(sa) < mb * pow2(sa)) by (nonlinear_arith)
            requires
                ma < mb,
                pow2(sa) > 0,
        ;
    } else {
        assert(a.exponent() < b.exponent());
        vstd::arithmetic::power2::lemma_pow2_unfold(sb);
        if sa + 1 < sb {
            vstd::arithmetic::power2::lemma_pow2_strictly_increases(sa, (sb - 1) as nat);
        }
        assert(ma * pow2(sa) < 0x20_0000_0000_0000 * pow2(sa)) by (nonlinear_arith)
            requires
                ma < 0x20_0000_0000_0000,
                pow2(sa) > 0,
        ;
        assert(0x10_0000_0000_0000 * pow2(sb) <= mb * pow2(sb)) by (nonlinear_arith)
            requires
                0x10_0000_0000_0000 <= mb,
                pow2(sb) >= 0,
        ;
    }
}

/// The order of the ranks is the order of the numbers.
pub proof fn law_rank_is_the_order(a: Double, b: Double)
    requires
        a.is_finite(),
        b.is_finite(),
    ensures
        a.below(b) <==> a.units() < b.units(),
        a.at_most(b) <==> a.units() <= b.units(),
{
    if a.magnitude() < b.magnitude() {
        lemma_size_grows(a, b);
    } else if b.magnitude() < a.magnitude() {
        lemma_size_grows(b, a);
    }
    if a.magnitude() > 0 {
        lemma_size_grows(Double { bits: 0 }, a);
    } else {
        assert(a.significand() == 0);
        assert(a.size() == 0) by (nonlinear_arith)
            requires
                a.size() == a.significand() * pow2(a.shift()),
                a.significand() == 0,
        ;
    }
    if b.magnitude() > 0 {
        lemma_size_grows(Double { bits: 0 }, b);
    } else {
        assert(b.significand() == 0);
        assert(b.size() == 0) by (nonlinear_arith)
            requires
                b.size() == b.significand() * pow2(b.shift()),
                b.significand() == 0,
        ;
    }
}

// ---------------------------------------------------------------------------
// Closeness
// ---------------------------------------------------------------------------

/// Twice the significand of the number nearest to 1e-9, less one.
pub const HALFWAY: u64 = 0x22_5c17_d04d_ad29;

impl Double {
    /// Whether the difference of the two numbers, rounded to a binary64
    /// number, is below 1e-9 in size.
    ///
    /// The number nearest to 1e-9 has an odd significand, so an exact
    /// difference halfway between it and the number before it is rounded to
    /// the one before: the rounded difference is below it just where the exact
    /// one does not go past that halfway point.
    pub open spec fn is_near(self, other: Double) -> bool {
        &&& self.is_finite()
        &&& other.is_finite()
        &&& self.units() - other.units() <= HALFWAY * pow2(991)
        &&& other.units() - self.units() <= HALFWAY * pow2(991)
    }
}

/// A number that is not large, divided by 2 to the power 991 (less the rest),
/// and whether there is no rest.
fn floor(d: Double) -> (r: (i128, bool))
    requires
        d.shift() <= 1046,
    ensures
        r.0 == d.units() / (pow2(991) as int),
        r.1 == (d.units() % (pow2(991) as int) == 0),
        -0x1000_0000_0000_0000_0000_0000_0000 <= r.0 <= 0x1000_0000_0000_0000_0000_0000_0000,
        !r.1 ==> -0x10_0000_0000_0001 <= r.0 <= 0x10_0000_0000_0001,
{
    let m: u64 = d.significand_of();
    let shift: u64 = d.shift_of();
    let ghost unit = pow2(991);
    proof {
        lemma_scaled(m as nat, shift as nat, 991);
        vstd::arithmetic::power2::lemma2_to64();
        vstd::arithmetic::power2::lemma2_to64_rest();
        vstd::arithmetic::power2::lemma_pow2_pos(991);
        vstd::arithmetic::power2::lemma_pow2_pos(shift as nat);
    }
    let quotient: u128;
    let exact: bool;
    if shift >= 991 {
        let p: u64 = power(shift - 991);
        proof {
            if shift < 1046 {
                vstd::arithmetic::power2::lemma_pow2_strictly_increases((shift - 991) as nat, 55);
            }
        }
        assert(m * p <= 0x1f_ffff_ffff_ffff * 0x80_0000_0000_0000) by (nonlinear_arith)
            requires
                m <= 0x1f_ffff_ffff_ffff,
                p <= 0x80_0000_0000_0000,
        ;
        quotient = (m as u128) * (p as u128);
        exact = true;
    } else {
        let down: u64 = 991 - shift;
        if down < 63 {
            let p: u64 = power(down);
            proof {
                vstd::arithmetic::power2::lemma_pow2_unfold(down as nat);
                vstd::arithmetic::power2::lemma_pow2_pos((down - 1) as nat);
                let low = (m as nat) % pow2(down as nat);
                assert((low * pow2(shift as nat) == 0) == (low == 0)) by (nonlinear_arith)
                    requires
                        pow2(shift as nat) > 0,
                        low >= 0,
                ;
                vstd::arithmetic::div_mod::lemma_div_is_ordered_by_denominator(m as int, 2, p as int);
            }
            quotient = (m / p) as u128;
            exact = m % p == 0;
        } else {
            proof {
                if down > 63 {
                    vstd::arithmetic::power2::lemma_pow2_strictly_increases(63, down as nat);
                }
                vstd::arithmetic::div_mod::lemma_small_mod(m as nat, pow2(down as nat));
                vstd::arithmetic::div_mod::lemma_basic_div(m as int, pow2(down as nat) as int);
                assert((m * pow2(shift as nat) == 0) == (m == 0)) by (nonlinear_arith)
                    requires
                        pow2(shift as nat) > 0,
                        m >= 0,
                ;
            }
            quotient = 0;
            exact = m == 0;
        }
    }
    assert(quotient == d.size() / unit);
    assert(exact == (d.size() % unit == 0));
    if d.bits < SIGN {
        (quotient as i128, exact)
    } else {
        proof {
            let u = unit as int;
            let q = quotient as int;
            let r = d.size() as int % u;
            vstd::arithmetic::div_mod::lemma_fundamental_div_mod(d.size() as int, u);
            if exact {
                assert(-(u * q) == (-q) * u) by (nonlinear_arith);
                vstd::arithmetic::div_mod::lemma_fundamental_div_mod_converse(d.units(), u, -q, 0);
            } else {
                assert(-(u * q + r) == (-q - 1) * u + (u - r)) by (nonlinear_arith);
                vstd::arithmetic::div_mod::lemma_fundamental_div_mod_converse(
                    d.units(),
                    u,
                    -q - 1,
                    u - r,
                );
            }
        }
        if exact {
            (-(quotient as i128), true)
        } else {
            (-(quotient as i128) - 1, false)
        }
    }
}

proof fn lemma_large(d: Double)
    requires
        d.shift() >= 1047,
    ensures
        d.size() % pow2(1047) == 0,
        d.size() >= 0x10_0000_0000_0000 * pow2(1047),
{
    lemma_scaled(d.significand(), d.shift(), 1047);
    if d.shift() > 1047 {
        vstd::arithmetic::power2::lemma_pow2_strictly_increases(1047, d.shift());
    }
    assert(d.significand() * pow2(d.shift()) >= 0x10_0000_0000_0000 * pow2(1047))
        by (nonlinear_arith)
        requires
            d.significand() >= 0x10_0000_0000_0000,
            pow2(d.shift()) >= pow2(1047),
            pow2(1047) >= 0,
    ;
}

proof fn lemma_small(d: Double)
    requires
        d.shift() <= 1046,
    ensures
        d.size() <= 0x1f_ffff_ffff_ffff * pow2(1046),
{
    if d.shift() < 1046 {
        vstd::arithmetic::power2::lemma_pow2_strictly_increases(d.shift(), 1046);
    }
    vstd::arithmetic::power2::lemma_pow2_pos(d.shift());
    assert(d.significand() * pow2(d.shift()) <= 0x1f_ffff_ffff_ffff * pow2(1046))
        by (nonlinear_arith)
        requires
            0 <= d.significand() <= 0x1f_ffff_ffff_ffff,
            0 <= pow2(d.shift()) <= pow2(1046),
    ;
}

proof fn lemma_limit()
    ensures
        HALFWAY * pow2(991) < pow2(1046),
        pow2(1047) == 2 * pow2(1046),
        pow2(1046) > 0,
{
    vstd::arithmetic::power2::lemma2_to64_rest();
    vstd::arithmetic::power2::lemma_pow2_adds(55, 991);
    vstd::arithmetic::power2::lemma_pow2_unfold(1047);
    vstd::arithmetic::power2::lemma_pow2_pos(1046);
    vstd::arithmetic::power2::lemma_pow2_pos(991);
    assert(HALFWAY * pow2(991) < 0x80_0000_0000_0000 * pow2(991)) by (nonlinear_arith)
        requires
            HALFWAY < 0x80_0000_0000_0000,
            pow2(991) > 0,
    ;
}

proof fn lemma_both_large(a: Double, b: Double)
    requires
        a.is_finite(),
        b.is_finite(),
        a.shift() >= 1047,
        b.shift() >= 1047,
    ensures
        a.is_near(b) <==> a.bits == b.bits,
{
    lemma_limit();
    lemma_large(a);
    lemma_large(b);
    let v = pow2(1047) as int;
    vstd::arithmetic::power2::lemma_pow2_pos(1047);
    vstd::arithmetic::power2::lemma_pow2_pos(991);
    if a.bits == b.bits {
        assert(0 <= HALFWAY * pow2(991)) by (nonlinear_arith)
            requires
                pow2(991) >= 0,
        ;
    } else if a.is_negative() == b.is_negative() {
        if a.magnitude() < b.magnitude() {
            lemma_size_grows(a, b);
        } else {
            lemma_size_grows(b, a);
        }
        let d = a.size() - b.size();
        vstd::arithmetic::div_mod::lemma_fundamental_div_mod(a.size() as int, v);
        vstd::arithmetic::div_mod::lemma_fundamental_div_mod(b.size() as int, v);
        let k = a.size() as int / v - b.size() as int / v;
        assert(d == k * v) by (nonlinear_arith)
            requires
                a.size() == v * (a.size() as int / v),
                b.size() == v * (b.size() as int / v),
                d == a.size() - b.size(),
                k == a.size() as int / v - b.size() as int / v,
        ;
        assert(d >= v || d <= -v) by (nonlinear_arith)
            requires
                d == k * v,
                d != 0,
                v > 0,
        ;
    }
}

proof fn lemma_one_large(a: Double, b: Double)
    requires
        a.shift() >= 1047,
        b.shift() <= 1046,
    ensures
        !a.is_near(b),
        !b.is_near(a),
{
    lemma_limit();
    lemma_large(a);
    lemma_small(b);
}

proof fn lemma_floors(a: int, b: int, ha: int, hb: int, u: int)
    requires
        u > 0,
        ha == a / u,
        hb == b / u,
        ha > hb,
        a % u == 0 || b % u == 0 || ha - hb < HALFWAY,
    ensures
        a > b,
        a - b <= HALFWAY * u <==> (ha - hb < HALFWAY || (ha - hb == HALFWAY && a % u == 0)),
{
    vstd::arithmetic::div_mod::lemma_fundamental_div_mod(a, u);
    vstd::arithmetic::div_mod::lemma_fundamental_div_mod(b, u);
    let (la, lb) = (a % u, b % u);
    let k = ha - hb;
    assert(a - b == k * u + la - lb) by (nonlinear_arith)
        requires
            a == u * ha + la,
            b == u * hb + lb,
            k == ha - hb,
    ;
    assert(k * u >= u) by (nonlinear_arith)
        requires
            k >= 1,
            u > 0,
    ;
    if k < HALFWAY {
        assert(k * u + u <= HALFWAY * u) by (nonlinear_arith)
            requires
                k + 1 <= HALFWAY,
                u > 0,
        ;
    } else if k > HALFWAY {
        assert(k * u - u >= HALFWAY * u) by (nonlinear_arith)
            requires
                k - 1 >= HALFWAY,
                u > 0,
        ;
    }
}

impl Double {
    /// Whether the difference of the two numbers, rounded to a binary64
    /// number, is below 1e-9 in size.
    pub fn near(self, other: Double) -> (r: bool)
        ensures
            r == self.is_near(other),
    {
        if !self.finite() || !other.finite() {
            return false;
        }
        let large: bool = self.shift_of() >= 1047;
        let other_large: bool = other.shift_of() >= 1047;
        if large && other_large {
            proof {
                lemma_both_large(self, other);
            }
            return self.bits == other.bits;
        }
        if large || other_large {
            proof {
                if large {
                    lemma_one_large(self, other);
                } else {
                    lemma_one_large(other, self);
                }
            }
            return false;
        }
        let (ha, exact_a) = floor(self);
        let (hb, exact_b) = floor(other);
        let limit: i128 = HALFWAY as i128;
        proof {
            vstd::arithmetic::power2::lemma_pow2_pos(991);
            let u = pow2(991) as int;
            if ha > hb {
                lemma_floors(self.units(), other.units(), ha as int, hb as int, u);
            } else if hb > ha {
                lemma_floors(other.units(), self.units(), hb as int, ha as int, u);
            } else {
                vstd::arithmetic::div_mod::lemma_fundamental_div_mod(self.units(), u);
                vstd::arithmetic::div_mod::lemma_fundamental_div_mod(other.units(), u);
            }
            assert(HALFWAY * u >= u) by (nonlinear_arith)
                requires
                    u > 0,
                    HALFWAY >= 1,
            ;
        }
        if ha > hb {
            ha - hb < limit || (ha - hb == limit && exact_a)
        } else if hb > ha {
            hb - ha < limit || (hb - ha == limit && exact_b)
        } else {
            true
        }
    }
}

// ---------------------------------------------------------------------------
// The number nearest to an integer
// ---------------------------------------------------------------------------

/// How often `n` can be halved before it is below 2.
pub open spec fn halvings(n: nat) -> nat
    decreases n,
{
    if n < 2 {
        0
    } else {
        1 + halvings(n / 2)
    }
}

/// `a / b` rounded to the nearest integer, a tie to the even one.
pub open spec fn nearest(a: nat, b: nat) -> nat
    recommends
        b > 0,
{
    let (q, r) = (a / b, a % b);
    if 2 * r > b || (2 * r == b && q % 2 == 1) {
        q + 1
    } else {
        q
    }
}

/// The bit pattern of the number nearest to `n`, a tie to the even one.
pub open spec fn nat_bits(n: nat) -> nat {
    if n == 0 {
        0
    } else {
        let k = halvings(n);
        let top = pow2(k);
        let fraction: nat = if k <= 52 {
            ((n - top) * pow2((52 - k) as nat)) as nat
        } else {
            nearest((n - top) as nat, pow2((k - 52) as nat))
        };
        (1023 + k) * (FIELD as nat) + fraction
    }
}

impl Double {
    /// The number nearest to the integer `i`.
    pub open spec fn of_int(i: int) -> Double {
        if i < 0 {
            Double { bits: (SIGN + nat_bits((-i) as nat)) as u64 }
        } else {
            Double { bits: nat_bits(i as nat) as u64 }
        }
    }
}

fn count_halvings(n: u64) -> (r: u64)
    requires
        n > 0,
    ensures
        r == halvings(n as nat),
        r < 64,
        pow2(r as nat) <= n < 2 * pow2(r as nat),
    decreases n,
{
    proof {
        vstd::arithmetic::power2::lemma2_to64();
    }
    if n < 2 {
        0
    } else {
        let r: u64 = count_halvings(n / 2);
        proof {
            vstd::arithmetic::power2::lemma_pow2_unfold((r + 1) as nat);
            vstd::arithmetic::power2::lemma_pow2_unfold(64);
            if r >= 63 {
                assert(pow2(63) <= n / 2);
            }
        }
        r + 1
    }
}

fn bits_of(n: u64) -> (r: u64)
    ensures
        r == nat_bits(n as nat),
        r < SIGN,
{
    if n == 0 {
        return 0;
    }
    let k: u64 = count_halvings(n);
    let top: u64 = power(k);
    let rest: u64 = n - top;
    let fraction: u64;
    proof {
        vstd::arithmetic::power2::lemma2_to64_rest();
    }
    if k <= 52 {
        let p: u64 = power(52 - k);
        proof {
            vstd::arithmetic::power2::lemma_pow2_adds(k as nat, (52 - k) as nat);
            vstd::arithmetic::power2::lemma_pow2_pos((52 - k) as nat);
            assert(0 <= rest * p < top * p) by (nonlinear_arith)
                requires
                    0 <= rest < top,
                    p > 0,
            ;
        }
        fraction = rest * p;
    } else {
        let p: u64 = power(k - 52);
        proof {
            vstd::arithmetic::power2::lemma2_to64();
            vstd::arithmetic::power2::lemma_pow2_adds(52, (k - 52) as nat);
            vstd::arithmetic::power2::lemma_pow2_pos((k - 52) as nat);
            if k < 63 {
                vstd::arithmetic::power2::lemma_pow2_strictly_increases((k - 52) as nat, 11);
            }
            vstd::arithmetic::div_mod::lemma_fundamental_div_mod(rest as int, p as int);
            assert(rest / p < FIELD) by (nonlinear_arith)
                requires
                    rest < FIELD * p,
                    rest == p * (rest / p) + rest % p,
                    rest % p >= 0,
                    p > 0,
            ;
        }
        let q: u64 = rest / p;
        let r: u64 = rest % p;
        if 2 * r > p || (2 * r == p && q % 2 == 1) {
            fraction = q + 1;
        } else {
            fraction = q;
        }
    }
    (1023 + k) * FIELD + fraction
}

impl Double {
    /// The number nearest to `n`.
    pub fn from_u64(n: u64) -> (r: Double)
        ensures
            r == Double::of_int(n as int),
    {
        Double { bits: bits_of(n) }
    }

    /// The number nearest to `i`.
    pub fn from_i64(i: i64) -> (r: Double)
        ensures
            r == Double::of_int(i as int),
    {
        if i < 0 {
            let n: u64 = if i == i64::MIN {
                0x8000_0000_0000_0000
            } else {
                (-i) as u64
            };
            Double { bits: SIGN + bits_of(n) }
        } else {
            Double { bits: bits_of(i as u64) }
        }
    }
}

proof fn lemma_halvings(n: nat)
    requires
        n > 0,
    ensures
        pow2(halvings(n)) <= n < 2 * pow2(halvings(n)),
    decreases n,
{
    vstd::arithmetic::power2::lemma2_to64();
    if n >= 2 {
        lemma_halvings(n / 2);
        vstd::arithmetic::power2::lemma_pow2_unfold(halvings(n));
    }
}

/// An integer of at most 53 binary digits is kept as it is.
pub proof fn law_small_integers_are_exact(i: int)
    requires
        -0x20_0000_0000_0000 < i < 0x20_0000_0000_0000,
    ensures
        Double::of_int(i).is_finite(),
        Double::of_int(i).units() == i * pow2(1074),
{
    let n: nat = if i < 0 {
        (-i) as nat
    } else {
        i as nat
    };
    vstd::arithmetic::power2::lemma2_to64();
    vstd::arithmetic::power2::lemma2_to64_rest();
    let d = Double::of_int(i);
    if n == 0 {
        assert(d.size() == 0) by (nonlinear_arith)
            requires
                d.size() == d.significand() * pow2(d.shift()),
                d.significand() == 0,
        ;
        assert(0 * pow2(1074) == 0) by (nonlinear_arith);
    } else {
        let k = halvings(n);
        lemma_halvings(n);
        if k > 52 {
            if k > 53 {
                vstd::arithmetic::power2::lemma_pow2_strictly_increases(53, k);
            }
            assert(false);
        }
        let top = pow2(k);
        let p = pow2((52 - k) as nat);
        vstd::arithmetic::power2::lemma_pow2_adds(k, (52 - k) as nat);
        vstd::arithmetic::power2::lemma_pow2_pos((52 - k) as nat);
        let fraction = (n - top) * p;
        assert(0 <= fraction < top * p && fraction == n * p - top * p) by (nonlinear_arith)
            requires
                0 <= n - top < top,
                fraction == (n - top) * p,
                p > 0,
        ;
        let field = FIELD as int;
        assert(nat_bits(n) == (1023 + k) * field + fraction);
        assert(nat_bits(n) < INFINITE);
        assert(d.magnitude() == nat_bits(n));
        assert(d.magnitude() / FIELD == 1023 + k);
        assert(d.magnitude() % FIELD == fraction);
        assert(d.significand() == n * p);
        assert(d.shift() == 1022 + k);
        vstd::arithmetic::power2::lemma_pow2_adds((52 - k) as nat, 1022 + k);
        assert(d.size() == n * pow2(1074)) by (nonlinear_arith)
            requires
                d.size() == (n * p) * pow2(1022 + k),
                pow2(1074) == p * pow2(1022 + k),
        ;
        assert((-(n as int)) * pow2(1074) == -(n * pow2(1074))) by (nonlinear_arith);
    }
}

pub proof fn lemma_halvings_are(n: nat, k: nat)
    requires
        pow2(k) <= n < 2 * pow2(k),
    ensures
        halvings(n) == k,
{
    vstd::arithmetic::power2::lemma_pow2_pos(k);
    lemma_halvings(n);
    let h = halvings(n);
    if h < k {
        vstd::arithmetic::power2::lemma_pow2_unfold(h + 1);
        if h + 1 < k {
            vstd::arithmetic::power2::lemma_pow2_strictly_increases(h + 1, k);
        }
    } else if k < h {
        vstd::arithmetic::power2::lemma_pow2_unfold(k + 1);
        if k + 1 < h {
            vstd::arithmetic::power2::lemma_pow2_strictly_increases(k + 1, h);
        }
    }
}

/// A whole number that is too large to have a fraction is the one nearest to
/// its own value.
proof fn lemma_large_whole(d: Double)
    requires
        d.is_finite(),
        d.is_integral(),
        d.whole() >= 0x20_0000_0000_0000,
    ensures
        nat_bits(d.whole()) == d.magnitude(),
{
    let (w, m, s) = (d.whole(), d.significand(), d.shift());
    let one = pow2(1074);
    vstd::arithmetic::power2::lemma_pow2_pos(1074);
    vstd::arithmetic::power2::lemma2_to64();
    vstd::arithmetic::power2::lemma2_to64_rest();
    vstd::arithmetic::div_mod::lemma_fundamental_div_mod(d.size() as int, one as int);
    assert(d.size() == one * w);
    if s <= 1074 {
        if s < 1074 {
            vstd::arithmetic::power2::lemma_pow2_strictly_increases(s, 1074);
        }
        assert(m * pow2(s) < 0x20_0000_0000_0000 * one) by (nonlinear_arith)
            requires
                m < 0x20_0000_0000_0000,
                pow2(s) <= one,
                one > 0,
        ;
        assert(one * w >= 0x20_0000_0000_0000 * one) by (nonlinear_arith)
            requires
                w >= 0x20_0000_0000_0000,
                one > 0,
        ;
        assert(false);
    }
    let up = (s - 1074) as nat;
    let p = pow2(up);
    vstd::arithmetic::power2::lemma_pow2_adds(1074, up);
    vstd::arithmetic::power2::lemma_pow2_pos(up);
    assert(w == m * p) by (nonlinear_arith)
        requires
            one * w == m * (one * p),
            one > 0,
    ;
    let k = 52 + up;
    vstd::arithmetic::power2::lemma_pow2_adds(52, up);
    let fraction = m - FIELD;
    assert(FIELD * p <= m * p < 2 * (FIELD * p) && m * p - FIELD * p == fraction * p)
        by (nonlinear_arith)
        requires
            FIELD <= m < 2 * FIELD,
            fraction == m - FIELD,
            p > 0,
    ;
    assert(pow2(k) == FIELD * p);
    lemma_halvings_are(w, k);
    let rest = (w - pow2(k)) as nat;
    assert(rest == fraction * p);
    vstd::arithmetic::div_mod::lemma_mod_multiples_basic(fraction, p as int);
    vstd::arithmetic::div_mod::lemma_div_multiples_vanish(fraction, p as int);
    assert(p * fraction == fraction * p) by (nonlinear_arith);
    assert(nearest(rest, p) == fraction);
    assert(nat_bits(w) == (1023 + k) * (FIELD as nat) + fraction);
}

/// A whole number below 2^63 in size is kept when it is cut to an integer: the
/// number nearest to that integer is in the same place of the order.
pub proof fn law_whole_numbers_are_kept(d: Double)
    requires
        d.is_integral(),
        d.whole() < 0x8000_0000_0000_0000,
    ensures
        Double::of_int(d.cut() as int).is_finite(),
        Double::of_int(d.cut() as int).units() == d.units(),
        Double::of_int(d.cut() as int).rank() == d.rank(),
{
    let i = d.cut() as int;
    let back = Double::of_int(i);
    let w = d.whole();
    let one = pow2(1074);
    vstd::arithmetic::power2::lemma_pow2_pos(1074);
    vstd::arithmetic::div_mod::lemma_fundamental_div_mod(d.size() as int, one as int);
    if w >= 0x20_0000_0000_0000 {
        lemma_large_whole(d);
    } else {
        law_small_integers_are_exact(i);
        assert(i * one == d.units()) by (nonlinear_arith)
            requires
                d.size() == one * w,
                d.units() == d.size() && i == w || d.units() == -d.size() && i == -w,
        ;
        law_rank_is_the_order(back, d);
    }
}

/// Numbers in the same place of the order differ at most in the sign of a zero.
pub proof fn lemma_equal_ranks(a: Double, b: Double)
    requires
        a.rank() == b.rank(),
    ensures
        a.magnitude() == b.magnitude(),
        a.is_nan() == b.is_nan(),
        a.is_integral() == b.is_integral(),
        a.is_integral() ==> a.cut() == b.cut(),
{
    if a.is_negative() != b.is_negative() {
        assert(a.magnitude() == 0 && b.magnitude() == 0);
        assert(a.significand() == 0 && b.significand() == 0);
        assert(0 * pow2(a.shift()) == 0 && 0 * pow2(b.shift()) == 0) by (nonlinear_arith);
        vstd::arithmetic::power2::lemma_pow2_pos(1074);
        vstd::arithmetic::div_mod::lemma_div_basics(pow2(1074) as int);
        assert(a.whole() == 0 && b.whole() == 0);
    }
}

} // verus!
