//! Script numbers: IEEE-754 binary64 values, held and examined as bit
//! patterns.
//!
//! A pattern has a sign bit, eleven exponent bits and fifty-two fraction
//! bits. A finite pattern stands for `significand * 2^scale`, negated when
//! the sign bit is set.

use vstd::arithmetic::div_mod::{
    lemma_basic_div, lemma_div_by_multiple, lemma_div_is_ordered_by_denominator,
    lemma_fundamental_div_mod, lemma_mod_bound, lemma_mod_multiples_basic,
    lemma_mul_mod_noop_left, lemma_small_mod,
};
use vstd::arithmetic::logarithm::log;
use vstd::arithmetic::mul::{
    lemma_mul_inequality, lemma_mul_inequality_converse, lemma_mul_is_associative,
    lemma_mul_is_commutative, lemma_mul_strict_inequality_converse,
};
use vstd::arithmetic::power2::{
    lemma2_to64, lemma2_to64_rest, lemma_pow2_adds, lemma_pow2_pos, lemma_pow2_strictly_increases,
    lemma_pow2_unfold, pow2,
};
use vstd::bits::{lemma_u64_pow2_no_overflow, lemma_u64_shl_is_mul, lemma_u64_shr_is_div};
use vstd::prelude::*;

verus! {

/// The sign bit of a pattern.
pub const SIGN_BIT: u64 = 0x8000_0000_0000_0000;

/// Two to the power 52: the bit that a normal significand has above its
/// fraction.
pub const HIDDEN_BIT: u64 = 0x10_0000_0000_0000;

/// The exponent field of infinities and of values that are not numbers.
pub const EXPONENT_MAX: u64 = 0x7ff;

/// The pattern that stands for "not a number" where the script's rules
/// produce one.
pub const NAN_BITS: u64 = 0x7ff8_0000_0000_0000;

/// The sign bit of a binary32 pattern.
pub const SINGLE_SIGN_BIT: u32 = 0x8000_0000;

/// Two to the power 23: the bit that a normal binary32 significand has above
/// its fraction.
pub const SINGLE_HIDDEN_BIT: u32 = 0x80_0000;

/// The binary32 pattern of positive infinity.
pub const SINGLE_INFINITY: u32 = 0x7f80_0000;

/// The fraction bit that marks a binary32 "not a number" as quiet.
pub const SINGLE_QUIET_BIT: u32 = 0x40_0000;

/// A script number, by its bit pattern.
#[derive(Clone, Copy, Debug, PartialEq, Eq, Structural)]
pub struct Number {
    pub bits: u64,
}

/// The integer in `0 .. 2^32` that is congruent to `n` modulo `2^32`.
pub open spec fn wrap_u32(n: int) -> u32 {
    (n % 0x1_0000_0000) as u32
}

/// The integer in `-2^31 .. 2^31` that is congruent to `n` modulo `2^32`.
pub open spec fn wrap_i32(n: int) -> i32 {
    let low = n % 0x1_0000_0000;
    if low >= 0x8000_0000 {
        (low - 0x1_0000_0000) as i32
    } else {
        low as i32
    }
}

/// How far apart two whole numbers are.
pub open spec fn distance(a: int, b: int) -> int {
    if a >= b {
        a - b
    } else {
        b - a
    }
}

/// `m / 2^d`, rounded to the nearest whole number; a tie goes to the even
/// one.
pub open spec fn round_half_even(m: nat, d: nat) -> nat
    recommends
        d >= 1,
{
    let quotient = m / pow2(d);
    let remainder = m % pow2(d);
    let half = pow2((d - 1) as nat);
    if remainder > half || (remainder == half && quotient % 2 == 1) {
        quotient + 1
    } else {
        quotient
    }
}

/// Divides by a power of two, rounding to nearest, ties to even.
fn rounded_shift(m: u64, d: u64) -> (rounded: u64)
    requires
        1 <= d < 64,
        m < 2 * HIDDEN_BIT,
    ensures
        rounded == round_half_even(m as nat, d as nat),
        rounded <= m as nat / pow2(d as nat) + 1,
{
    let quotient: u64 = m >> d;
    proof {
        lemma_u64_shr_is_div(m, d);
        lemma_u64_pow2_no_overflow(d as nat);
        lemma_u64_pow2_no_overflow((d - 1) as nat);
        lemma_fundamental_div_mod(m as int, pow2(d as nat) as int);
        lemma_mul_is_commutative(quotient as int, pow2(d as nat) as int);
        lemma_mod_bound(m as int, pow2(d as nat) as int);
        lemma_u64_shl_is_mul(quotient, d);
        lemma_u64_shl_is_mul(1, (d - 1) as u64);
    }
    let remainder: u64 = m - (quotient << d);
    let half: u64 = 1u64 << (d - 1);
    if remainder > half || (remainder == half && quotient % 2 == 1) {
        quotient + 1
    } else {
        quotient
    }
}

/// At a shift beyond its width a significand rounds to nothing.
proof fn lemma_round_half_even_small(m: nat, d: nat)
    requires
        m < 2 * HIDDEN_BIT,
        d >= 30,
    ensures
        d >= 55 ==> round_half_even(m, d) == 0,
        round_half_even(m, d) <= SINGLE_HIDDEN_BIT,
{
    lemma2_to64();
    lemma2_to64_rest();
    lemma_pow2_pos(d);
    if d > 30 {
        lemma_pow2_strictly_increases(30, d);
    }
    lemma_div_is_ordered_by_denominator(m as int, pow2(30) as int, pow2(d) as int);
    if d >= 55 {
        lemma_pow2_strictly_increases(53, (d - 1) as nat);
        lemma_pow2_strictly_increases(53, d);
        lemma_basic_div(m as int, pow2(d) as int);
        lemma_small_mod(m, pow2(d));
    }
}

impl Number {
    /// Whether the sign bit is set.
    pub open spec fn negative(self) -> bool {
        self.bits >= SIGN_BIT
    }

    /// The exponent field.
    pub open spec fn exponent(self) -> nat {
        ((self.bits / HIDDEN_BIT) % 0x800) as nat
    }

    /// The fraction field.
    pub open spec fn fraction(self) -> nat {
        (self.bits % HIDDEN_BIT) as nat
    }

    /// Whether the pattern stands for a real number, not an infinity and
    /// not "not a number".
    pub open spec fn is_finite(self) -> bool {
        self.exponent() != EXPONENT_MAX
    }

    /// Whether the pattern stands for "not a number".
    pub open spec fn is_nan(self) -> bool {
        self.exponent() == EXPONENT_MAX && self.fraction() != 0
    }

    /// The significand of a finite pattern: the fraction, with the hidden
    /// bit above it unless the exponent field is zero.
    pub open spec fn significand(self) -> nat {
        if self.exponent() == 0 {
            self.fraction()
        } else {
            HIDDEN_BIT as nat + self.fraction()
        }
    }

    /// The power of two that scales the significand of a finite pattern.
    pub open spec fn scale(self) -> int {
        if self.exponent() == 0 {
            -1074
        } else {
            self.exponent() - 1075
        }
    }

    /// The magnitude of a finite pattern, rounded down to a whole number.
    pub open spec fn whole(self) -> nat {
        if self.scale() >= 0 {
            self.significand() * pow2(self.scale() as nat)
        } else {
            self.significand() / pow2((-self.scale()) as nat)
        }
    }

    /// The number with its fractional part cut off; zero for a pattern that
    /// is not finite.
    pub open spec fn integer(self) -> int {
        if !self.is_finite() {
            0
        } else if self.negative() {
            -(self.whole() as int)
        } else {
            self.whole() as int
        }
    }

    /// Whether the pattern stands for a whole number.
    pub open spec fn is_integral(self) -> bool {
        self.is_finite() && (self.scale() >= 0 || self.significand() % pow2(
            (-self.scale()) as nat,
        ) == 0)
    }

    /// The binary32 pattern nearest to this number, ties going to the
    /// pattern with an even significand.
    ///
    /// A magnitude too large for binary32 gives an infinity, one too small
    /// gives a zero or a subnormal pattern; the sign is kept. "Not a number"
    /// stays so: the upper 22 bits of its payload are kept and the bit that
    /// marks it as quiet is set.
    pub open spec fn narrowed(self) -> u32 {
        let sign: nat = if self.negative() {
            SINGLE_SIGN_BIT as nat
        } else {
            0
        };
        let exponent = self.exponent();
        let magnitude: nat = if exponent == EXPONENT_MAX {
            if self.fraction() == 0 {
                SINGLE_INFINITY as nat
            } else {
                let payload = self.fraction() / 0x2000_0000;
                if payload >= SINGLE_QUIET_BIT {
                    SINGLE_INFINITY as nat + payload
                } else {
                    SINGLE_INFINITY as nat + SINGLE_QUIET_BIT as nat + payload
                }
            }
        } else if exponent >= 1151 {
            SINGLE_INFINITY as nat
        } else if exponent >= 897 {
            ((exponent - 897) * SINGLE_HIDDEN_BIT + round_half_even(self.significand(), 29)) as nat
        } else if exponent >= 1 {
            round_half_even(self.significand(), (926 - exponent) as nat)
        } else {
            0
        };
        (sign + magnitude) as u32
    }

    /// The number that a binary32 pattern stands for, which binary64 holds
    /// exactly. An infinity stays one; "not a number" stays so, with its
    /// payload in the upper bits of the fraction.
    pub open spec fn widened(single: u32) -> Number {
        let sign: int = if single >= SINGLE_SIGN_BIT {
            SIGN_BIT as int
        } else {
            0
        };
        let exponent = (single / SINGLE_HIDDEN_BIT) % 0x100;
        let fraction = single % SINGLE_HIDDEN_BIT;
        let magnitude: int = if exponent == 0xff {
            EXPONENT_MAX * HIDDEN_BIT + fraction * 0x2000_0000
        } else if exponent >= 1 {
            (exponent + 896) * HIDDEN_BIT + fraction * 0x2000_0000
        } else if fraction == 0 {
            0
        } else {
            let leading = log(2, fraction as int);
            (874 + leading) * HIDDEN_BIT + fraction * pow2((52 - leading) as nat) - HIDDEN_BIT
        };
        Number { bits: (sign + magnitude) as u64 }
    }

    /// The pattern of the whole number `n`, for `n` of magnitude below
    /// `2^53`: positive zero for zero; otherwise the exponent is that of the
    /// leading one of the magnitude, and the fraction holds the digits below
    /// it.
    pub open spec fn of_integer(n: int) -> Number {
        if n == 0 {
            Number { bits: 0 }
        } else {
            let magnitude = if n < 0 {
                -n
            } else {
                n
            };
            let leading = log(2, magnitude);
            let sign = if n < 0 {
                SIGN_BIT as int
            } else {
                0
            };
            Number {
                bits: (sign + (1023 + leading) * HIDDEN_BIT + magnitude * pow2(
                    (52 - leading) as nat,
                ) - HIDDEN_BIT) as u64,
            }
        }
    }

    /// The pattern with the given sign whose exponent field is `bias` plus
    /// the position of the leading one of `magnitude`, and whose fraction
    /// holds the digits below that leading one.
    fn normal_pattern(negative: bool, magnitude: u64, bias: u64) -> (bits: u64)
        requires
            1 <= magnitude < 2 * HIDDEN_BIT,
            bias <= 1023,
        ensures
            0 <= log(2, magnitude as int) <= 52,
            bits == (if negative {
                SIGN_BIT as int
            } else {
                0
            }) + (bias + log(2, magnitude as int)) * HIDDEN_BIT + magnitude * pow2(
                (52 - log(2, magnitude as int)) as nat,
            ) - HIDDEN_BIT,
    {
        // Shift the magnitude up until its leading one is the hidden bit.
        let mut significand: u64 = magnitude;
        let mut shift: u64 = 0;
        proof {
            lemma2_to64();
        }
        while significand < HIDDEN_BIT
            invariant
                1 <= magnitude,
                1 <= significand,
                significand == magnitude * pow2(shift as nat),
                significand < 2 * HIDDEN_BIT,
                shift <= 52,
            decreases 2 * HIDDEN_BIT - significand,
        {
            proof {
                lemma_pow2_unfold((shift + 1) as nat);
                lemma_mul_is_associative(magnitude as int, pow2(shift as nat) as int, 2);
                lemma_pow2_pos(shift as nat);
                if shift >= 52 {
                    lemma2_to64_rest();
                    if shift > 52 {
                        lemma_pow2_strictly_increases(52, shift as nat);
                    }
                    lemma_mul_inequality(1, magnitude as int, pow2(shift as nat) as int);
                }
            }
            significand = significand * 2;
            shift = shift + 1;
        }
        let leading: u64 = 52 - shift;
        proof {
            lemma2_to64_rest();
            lemma_pow2_adds(leading as nat, shift as nat);
            lemma_pow2_adds((leading + 1) as nat, shift as nat);
            lemma_pow2_unfold(53);
            lemma_pow2_pos(shift as nat);
            lemma_mul_inequality_converse(
                pow2(leading as nat) as int,
                magnitude as int,
                pow2(shift as nat) as int,
            );
            lemma_mul_strict_inequality_converse(
                magnitude as int,
                pow2((leading + 1) as nat) as int,
                pow2(shift as nat) as int,
            );
            lemma_leading_one(magnitude as int, leading as nat);
        }
        let sign: u64 = if negative {
            SIGN_BIT
        } else {
            0
        };
        sign + (bias + leading) * HIDDEN_BIT + (significand - HIDDEN_BIT)
    }

    /// The pattern of the whole number with the given sign and magnitude.
    fn from_magnitude(negative: bool, magnitude: u64) -> (number: Number)
        requires
            magnitude < 2 * HIDDEN_BIT,
        ensures
            number == Number::of_integer(
                if negative {
                    -(magnitude as int)
                } else {
                    magnitude as int
                },
            ),
    {
        if magnitude == 0 {
            Number { bits: 0 }
        } else {
            Number { bits: Number::normal_pattern(negative, magnitude, 1023) }
        }
    }

    /// The pattern of an unsigned 32-bit integer.
    pub fn from_u32(n: u32) -> (number: Number)
        ensures
            number == Number::of_integer(n as int),
    {
        Number::from_magnitude(false, n as u64)
    }

    /// The pattern of a signed 32-bit integer.
    pub fn from_i32(n: i32) -> (number: Number)
        ensures
            number == Number::of_integer(n as int),
    {
        if n < 0 {
            Number::from_magnitude(true, (-(n as i64)) as u64)
        } else {
            Number::from_magnitude(false, n as u64)
        }
    }

    /// Narrows the number to binary32, rounding to the nearest pattern.
    pub fn to_single(&self) -> (single: u32)
        ensures
            single == self.narrowed(),
    {
        let exponent: u64 = (self.bits / HIDDEN_BIT) % 0x800;
        let fraction: u64 = self.bits % HIDDEN_BIT;
        let sign: u64 = if self.bits >= SIGN_BIT {
            SINGLE_SIGN_BIT as u64
        } else {
            0
        };
        proof {
            lemma2_to64();
            lemma2_to64_rest();
        }
        let magnitude: u64 = if exponent == EXPONENT_MAX {
            if fraction == 0 {
                SINGLE_INFINITY as u64
            } else {
                let payload: u64 = fraction / 0x2000_0000;
                if payload >= SINGLE_QUIET_BIT as u64 {
                    SINGLE_INFINITY as u64 + payload
                } else {
                    SINGLE_INFINITY as u64 + SINGLE_QUIET_BIT as u64 + payload
                }
            }
        } else if exponent >= 1151 {
            SINGLE_INFINITY as u64
        } else if exponent >= 897 {
            let rounded: u64 = rounded_shift(HIDDEN_BIT + fraction, 29);
            (exponent - 897) * SINGLE_HIDDEN_BIT as u64 + rounded
        } else if exponent >= 1 {
            let down: u64 = 926 - exponent;
            proof {
                lemma_round_half_even_small(self.significand(), down as nat);
            }
            if down >= 55 {
                0
            } else {
                rounded_shift(HIDDEN_BIT + fraction, down)
            }
        } else {
            0
        };
        (sign + magnitude) as u32
    }

    /// Widens a binary32 pattern to the number it stands for.
    pub fn from_single(single: u32) -> (number: Number)
        ensures
            number == Number::widened(single),
    {
        let exponent: u64 = ((single / SINGLE_HIDDEN_BIT) % 0x100) as u64;
        let fraction: u64 = (single % SINGLE_HIDDEN_BIT) as u64;
        let negative: bool = single >= SINGLE_SIGN_BIT;
        let sign: u64 = if negative {
            SIGN_BIT
        } else {
            0
        };
        if exponent == 0xff {
            Number { bits: sign + EXPONENT_MAX * HIDDEN_BIT + fraction * 0x2000_0000 }
        } else if exponent >= 1 {
            Number { bits: sign + (exponent + 896) * HIDDEN_BIT + fraction * 0x2000_0000 }
        } else if fraction == 0 {
            Number { bits: sign }
        } else {
            Number { bits: Number::normal_pattern(negative, fraction, 874) }
        }
    }

    /// The number as an unsigned 32-bit integer: the fractional part is cut
    /// off and the rest taken modulo `2^32`. Infinities and "not a number"
    /// give zero.
    pub fn to_uint32(&self) -> (low: u32)
        ensures
            low == wrap_u32(self.integer()),
    {
        let exponent: u64 = (self.bits / HIDDEN_BIT) % 0x800;
        let fraction: u64 = self.bits % HIDDEN_BIT;
        if exponent == EXPONENT_MAX {
            return 0;
        }
        if exponent < 1023 {
            proof {
                lemma_below_one(*self);
            }
            return 0;
        }
        let significand: u64 = HIDDEN_BIT + fraction;
        let magnitude_low: u64 = if exponent >= 1075 {
            let up: u64 = exponent - 1075;
            if up >= 32 {
                proof {
                    lemma_high_scale(significand as nat, up as nat);
                }
                0
            } else {
                let low_part: u64 = significand % 0x1_0000_0000;
                proof {
                    lemma_low_scale(significand as nat, up as nat);
                    lemma_u64_shl_is_mul(low_part, up);
                }
                (low_part << up) % 0x1_0000_0000
            }
        } else {
            let down: u64 = 1075 - exponent;
            proof {
                lemma_u64_shr_is_div(significand, down);
            }
            (significand >> down) % 0x1_0000_0000
        };
        assert(magnitude_low == self.whole() % 0x1_0000_0000);
        if self.bits >= SIGN_BIT && magnitude_low != 0 {
            (0x1_0000_0000 - magnitude_low) as u32
        } else {
            magnitude_low as u32
        }
    }

    /// The number as a signed 32-bit integer: the fractional part is cut off
    /// and the rest taken modulo `2^32` into the signed range. Infinities
    /// and "not a number" give zero.
    pub fn to_int32(&self) -> (low: i32)
        ensures
            low == wrap_i32(self.integer()),
    {
        let unsigned: u32 = self.to_uint32();
        if unsigned >= 0x8000_0000 {
            (unsigned as i64 - 0x1_0000_0000) as i32
        } else {
            unsigned as i32
        }
    }
}

/// A finite pattern with an exponent field below that of one stands for a
/// magnitude below one.
proof fn lemma_below_one(number: Number)
    requires
        number.exponent() < 1023,
    ensures
        number.whole() == 0,
        number.integer() == 0,
{
    let down = (-number.scale()) as nat;
    lemma2_to64_rest();
    assert(down >= 53);
    if down > 53 {
        lemma_pow2_strictly_increases(53, down);
    }
    lemma_basic_div(number.significand() as int, pow2(down) as int);
}

/// Scaled up by `2^32` or more, a significand is a multiple of `2^32`.
proof fn lemma_high_scale(significand: nat, up: nat)
    requires
        up >= 32,
    ensures
        (significand * pow2(up)) % 0x1_0000_0000 == 0,
{
    lemma2_to64();
    lemma_pow2_adds((up - 32) as nat, 32);
    let rest = pow2((up - 32) as nat);
    lemma_mul_is_associative(significand as int, rest as int, 0x1_0000_0000);
    lemma_mod_multiples_basic((significand * rest) as int, 0x1_0000_0000);
}

/// Scaled up by less than `2^32`, only the low 32 bits of a significand
/// reach the low 32 bits of the product, and they do so without leaving 64
/// bits.
proof fn lemma_low_scale(significand: nat, up: nat)
    requires
        up < 32,
    ensures
        (significand % 0x1_0000_0000) * pow2(up) <= u64::MAX,
        ((significand % 0x1_0000_0000) * pow2(up)) % 0x1_0000_0000 == (significand * pow2(up))
            % 0x1_0000_0000,
{
    lemma2_to64();
    lemma_pow2_pos(up);
    if up < 31 {
        lemma_pow2_strictly_increases(up, 31);
    }
    let low = significand % 0x1_0000_0000;
    lemma_mul_inequality(low as int, 0xffff_ffff, pow2(up) as int);
    lemma_mul_is_commutative(0xffff_ffff, pow2(up) as int);
    lemma_mul_mod_noop_left(significand as int, pow2(up) as int, 0x1_0000_0000);
}

/// A number between two neighbouring powers of two has its leading one at
/// the lower of them.
pub proof fn lemma_leading_one(x: int, k: nat)
    requires
        pow2(k) <= x < pow2(k + 1),
    ensures
        log(2, x) == k,
    decreases k,
{
    reveal(log);
    lemma2_to64();
    if k > 0 {
        lemma_pow2_unfold(k);
        lemma_pow2_unfold(k + 1);
        lemma_pow2_pos((k - 1) as nat);
        lemma_leading_one(x / 2, (k - 1) as nat);
    }
}

/// The leading one of a positive number lies between the two neighbouring
/// powers of two that enclose the number.
pub proof fn lemma_leading_one_encloses(x: int)
    requires
        x >= 1,
    ensures
        log(2, x) >= 0,
        pow2(log(2, x) as nat) <= x < pow2((log(2, x) + 1) as nat),
    decreases x,
{
    reveal(log);
    lemma2_to64();
    if x >= 2 {
        lemma_leading_one_encloses(x / 2);
        let k = log(2, x / 2) as nat;
        lemma_pow2_unfold(k + 1);
        lemma_pow2_unfold(k + 2);
    }
}

/// The pattern of a whole number of magnitude below `2^53` stands for that
/// number, exactly.
pub proof fn lemma_of_integer(n: int)
    requires
        -2 * HIDDEN_BIT < n < 2 * HIDDEN_BIT,
    ensures
        Number::of_integer(n).is_integral(),
        Number::of_integer(n).integer() == n,
{
    let number = Number::of_integer(n);
    lemma2_to64();
    lemma2_to64_rest();
    if n == 0 {
        lemma_pow2_pos(1074);
        lemma_basic_div(0, pow2(1074) as int);
        lemma_small_mod(0, pow2(1074));
    } else {
        let magnitude = if n < 0 {
            -n
        } else {
            n
        };
        lemma_leading_one_encloses(magnitude);
        let leading = log(2, magnitude) as nat;
        lemma_pow2_unfold(53);
        if leading >= 53 {
            if leading > 53 {
                lemma_pow2_strictly_increases(53, leading);
            }
        }
        assert(leading <= 52);
        let down = (52 - leading) as nat;
        lemma_pow2_adds(leading, down);
        lemma_pow2_adds(leading + 1, down);
        lemma_pow2_pos(down);
        lemma_mul_inequality(pow2(leading) as int, magnitude, pow2(down) as int);
        lemma_mul_inequality(magnitude + 1, pow2(leading + 1) as int, pow2(down) as int);
        let scaled = magnitude * pow2(down);
        assert((magnitude + 1) * pow2(down) == scaled + pow2(down)) by (nonlinear_arith)
            requires
                scaled == magnitude * pow2(down),
        ;
        assert(HIDDEN_BIT <= scaled < 2 * HIDDEN_BIT);
        let sign: int = if n < 0 {
            SIGN_BIT as int
        } else {
            0
        };
        assert(number.bits == sign + (1023 + leading) * HIDDEN_BIT + (scaled - HIDDEN_BIT));
        assert(number.exponent() == 1023 + leading);
        assert(number.fraction() == scaled - HIDDEN_BIT);
        assert(number.negative() == (n < 0));
        assert(number.significand() == scaled);
        assert(number.scale() == -(down as int));
        if down > 0 {
            lemma_div_by_multiple(magnitude, pow2(down) as int);
            lemma_mod_multiples_basic(magnitude, pow2(down) as int);
        } else {
            assert(scaled == magnitude) by (nonlinear_arith)
                requires
                    scaled == magnitude * pow2(down),
                    pow2(down) == 1,
            ;
        }
    }
}

/// A whole number other than zero, of magnitude below `2^53`, has one
/// pattern only: whatever pattern stands for it is the pattern that
/// [`Number::of_integer`] gives.
pub proof fn law_integer_pattern_is_unique(number: Number, n: int)
    requires
        number.is_integral(),
        number.integer() == n,
        n != 0,
        -2 * HIDDEN_BIT < n < 2 * HIDDEN_BIT,
    ensures
        number == Number::of_integer(n),
{
    lemma2_to64();
    lemma2_to64_rest();
    lemma_pow2_unfold(53);
    let exponent = number.exponent();
    let fraction = number.fraction();
    let sign: int = if number.negative() {
        SIGN_BIT as int
    } else {
        0
    };
    assert(number.bits == sign + exponent * HIDDEN_BIT + fraction);
    if exponent < 1023 {
        lemma_below_one(number);
    }
    let significand = number.significand();
    let magnitude = if n < 0 {
        -n
    } else {
        n
    };
    assert(magnitude == number.whole());
    assert(significand == HIDDEN_BIT + fraction);
    if number.scale() >= 0 {
        let up = number.scale() as nat;
        if up > 0 {
            lemma_pow2_strictly_increases(0, up);
            lemma_mul_inequality(2, pow2(up) as int, significand as int);
            lemma_mul_is_commutative(significand as int, pow2(up) as int);
        }
        assert(up == 0);
        assert(magnitude == significand) by (nonlinear_arith)
            requires
                magnitude == significand * pow2(up),
                pow2(up) == 1,
        ;
        lemma_leading_one(magnitude, 52);
        assert(magnitude * pow2(0) == magnitude) by (nonlinear_arith)
            requires
                pow2(0) == 1,
        ;
    } else {
        let down = (-number.scale()) as nat;
        assert(1 <= down <= 52);
        let leading = (52 - down) as nat;
        lemma_pow2_pos(down);
        lemma_fundamental_div_mod(significand as int, pow2(down) as int);
        lemma_mul_is_commutative(magnitude, pow2(down) as int);
        assert(significand == magnitude * pow2(down));
        lemma_pow2_adds(leading, down);
        lemma_pow2_adds(leading + 1, down);
        lemma_mul_inequality_converse(pow2(leading) as int, magnitude, pow2(down) as int);
        lemma_mul_strict_inequality_converse(
            magnitude,
            pow2(leading + 1) as int,
            pow2(down) as int,
        );
        lemma_leading_one(magnitude, leading);
        assert(exponent == 1023 + leading);
    }
}

/// Narrowing the widening of a binary32 pattern gives the pattern back,
/// unless it stands for "not a number".
pub proof fn lemma_narrow_widened(single: u32)
    requires
        !Number::widened(single).is_nan(),
    ensures
        Number::widened(single).narrowed() == single,
{
    let number = Number::widened(single);
    let exponent = (single / SINGLE_HIDDEN_BIT) % 0x100;
    let fraction = single % SINGLE_HIDDEN_BIT;
    let sign: int = if single >= SINGLE_SIGN_BIT {
        SIGN_BIT as int
    } else {
        0
    };
    lemma2_to64();
    lemma2_to64_rest();
    if exponent == 0xff {
        assert(number.bits == sign + EXPONENT_MAX * HIDDEN_BIT + fraction * 0x2000_0000);
        assert(number.exponent() == EXPONENT_MAX);
        assert(number.fraction() == fraction * 0x2000_0000);
    } else if exponent >= 1 {
        assert(number.bits == sign + (exponent + 896) * HIDDEN_BIT + fraction * 0x2000_0000);
        assert(number.exponent() == exponent + 896);
        assert(number.fraction() == fraction * 0x2000_0000);
        assert(number.significand() == (SINGLE_HIDDEN_BIT + fraction) * pow2(29));
        lemma_round_exact((SINGLE_HIDDEN_BIT + fraction) as nat, 29);
    } else if fraction == 0 {
        assert(number.bits == sign);
        assert(number.exponent() == 0);
    } else {
        lemma_leading_one_encloses(fraction as int);
        let leading = log(2, fraction as int) as nat;
        if leading >= 23 {
            if leading > 23 {
                lemma_pow2_strictly_increases(23, leading);
            }
        }
        assert(leading <= 22);
        let down = (52 - leading) as nat;
        lemma_pow2_adds(leading, down);
        lemma_pow2_adds(leading + 1, down);
        lemma_pow2_pos(down);
        lemma_mul_inequality(pow2(leading) as int, fraction as int, pow2(down) as int);
        lemma_mul_inequality(fraction + 1, pow2(leading + 1) as int, pow2(down) as int);
        let scaled = fraction * pow2(down);
        assert((fraction + 1) * pow2(down) == scaled + pow2(down)) by (nonlinear_arith)
            requires
                scaled == fraction * pow2(down),
        ;
        lemma_pow2_unfold(53);
        assert(HIDDEN_BIT <= scaled < 2 * HIDDEN_BIT);
        assert(number.bits == sign + (874 + leading) * HIDDEN_BIT + (scaled - HIDDEN_BIT));
        assert(number.exponent() == 874 + leading);
        assert(number.fraction() == scaled - HIDDEN_BIT);
        assert(number.significand() == scaled);
        lemma_round_exact(fraction as nat, down);
    }
}

/// A multiple of a power of two is divided by it without rounding.
proof fn lemma_round_exact(q: nat, d: nat)
    requires
        d >= 1,
    ensures
        round_half_even(q * pow2(d), d) == q,
{
    lemma_pow2_pos(d);
    lemma_pow2_pos((d - 1) as nat);
    lemma_div_by_multiple(q as int, pow2(d) as int);
    lemma_mod_multiples_basic(q as int, pow2(d) as int);
}

/// Rounding half to even gives a nearest whole number: no whole number `k`
/// is closer to `m / 2^d` than the result is, and one that is as close is
/// either the result itself or odd while the result is even.
pub proof fn law_round_half_even_is_nearest(m: nat, d: nat, k: int)
    requires
        d >= 1,
    ensures
        distance(m as int, (round_half_even(m, d) * pow2(d)) as int) <= distance(m as int, k * pow2(d)),
        distance(m as int, (round_half_even(m, d) * pow2(d)) as int) == distance(m as int, k * pow2(d))
            && k != round_half_even(m, d) ==> round_half_even(m, d) % 2 == 0,
{
    let unit = pow2(d) as int;
    let half = pow2((d - 1) as nat) as int;
    let quotient = m as int / unit;
    let remainder = m as int % unit;
    let rounded = round_half_even(m, d) as int;
    lemma_pow2_pos(d);
    lemma_pow2_unfold(d);
    lemma_fundamental_div_mod(m as int, unit);
    lemma_mod_bound(m as int, unit);
    assert(m == quotient * unit + remainder) by {
        lemma_mul_is_commutative(quotient, unit);
    }
    assert(unit == 2 * half);
    if k <= quotient {
        assert((quotient - k) * unit >= 0) by (nonlinear_arith)
            requires
                quotient - k >= 0,
                unit > 0,
        ;
        assert(quotient * unit - k * unit == (quotient - k) * unit) by (nonlinear_arith);
        if k < quotient {
            assert((quotient - k) * unit >= unit) by (nonlinear_arith)
                requires
                    quotient - k >= 1,
                    unit > 0,
            ;
        }
    } else {
        assert((k - quotient) * unit >= unit) by (nonlinear_arith)
            requires
                k - quotient >= 1,
                unit > 0,
        ;
        assert(k * unit - quotient * unit == (k - quotient) * unit) by (nonlinear_arith);
        if k > quotient + 1 {
            assert((k - quotient) * unit >= 2 * unit) by (nonlinear_arith)
                requires
                    k - quotient >= 2,
                    unit > 0,
            ;
        }
    }
    assert((quotient + 1) * unit == quotient * unit + unit) by (nonlinear_arith);
}

} // verus!
