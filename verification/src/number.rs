//! Floating-point numbers as bit patterns, and rounding between widths.
//!
//! A finite number is `sig * 2^exp` for a whole `sig`. Rounding it into a
//! format picks the representable number nearest to it, a tie going to the
//! one whose last bit is zero, as IEEE 754 asks of a conversion.

use vstd::arithmetic::div_mod::*;
use vstd::arithmetic::mul::*;
use vstd::arithmetic::power2::*;
use vstd::prelude::*;

verus! {

/// The two binary formats the protocol carries.
#[derive(Clone, Copy, Debug, PartialEq, Eq, Structural)]
pub enum Precision {
    Single,
    Double,
}

impl Precision {
    /// How many fraction bits the format stores.
    pub open spec fn fraction_bits(self) -> nat {
        match self {
            Precision::Single => 23,
            Precision::Double => 52,
        }
    }

    /// The exponent of the smallest positive number of the format.
    pub open spec fn min_unit(self) -> int {
        match self {
            Precision::Single => -149,
            Precision::Double => -1074,
        }
    }

    /// The exponent of the leading bit of the largest finite number.
    pub open spec fn max_top(self) -> int {
        match self {
            Precision::Single => 127,
            Precision::Double => 1023,
        }
    }

    /// The bits of positive infinity.
    pub open spec fn infinity(self) -> nat {
        match self {
            Precision::Single => 0x7f80_0000,
            Precision::Double => 0x7ff0_0000_0000_0000,
        }
    }
}

/// The position of the leading one bit of `n`: the `p` with
/// `2^p <= n < 2^(p+1)`.
pub open spec fn floor_log2(n: nat) -> nat
    decreases n,
{
    if n <= 1 {
        0
    } else {
        1 + floor_log2(n / 2)
    }
}

/// `a / d` rounded to the nearest whole number; exactly halfway goes to the
/// even neighbour.
pub open spec fn nearest_even_quotient(a: nat, d: nat) -> nat
    recommends
        d > 0,
{
    let f = a / d;
    let r = a % d;
    if 2 * r > d || (2 * r == d && f % 2 == 1) {
        f + 1
    } else {
        f
    }
}

/// The exponent of the last place that `sig * 2^exp` keeps in the format.
pub open spec fn unit_exponent(sig: nat, exp: int, to: Precision) -> int {
    let top = floor_log2(sig) + exp;
    if top - to.fraction_bits() >= to.min_unit() {
        top - to.fraction_bits()
    } else {
        to.min_unit()
    }
}

/// The bits, without the sign, of `sig * 2^exp` rounded into the format.
///
/// With `u` the exponent of the last place kept and `q` the number counted
/// in units of `2^u`, the bits are `(u - min_unit) * 2^fraction_bits + q`:
/// the one formula covers subnormal numbers, normal ones, and a fraction
/// that rounding carries into the next exponent.
pub open spec fn rounded(sig: nat, exp: int, to: Precision) -> nat {
    if sig == 0 {
        0
    } else if floor_log2(sig) + exp > to.max_top() {
        to.infinity()
    } else {
        let unit = unit_exponent(sig, exp, to);
        let q = if exp >= unit {
            sig * pow2((exp - unit) as nat)
        } else {
            nearest_even_quotient(sig, pow2((unit - exp) as nat))
        };
        ((unit - to.min_unit()) * pow2(to.fraction_bits()) + q) as nat
    }
}

/// The sign bit of a double.
pub open spec fn double_sign(bits: u64) -> nat {
    (bits / 0x8000_0000_0000_0000) as nat
}

/// The exponent field of a double.
pub open spec fn double_exponent(bits: u64) -> nat {
    (bits / 0x10_0000_0000_0000 % 0x800) as nat
}

/// The fraction field of a double.
pub open spec fn double_fraction(bits: u64) -> nat {
    (bits % 0x10_0000_0000_0000) as nat
}

/// Whether the bits of a double are those of a NaN.
pub open spec fn double_is_nan(bits: u64) -> bool {
    double_exponent(bits) == 0x7ff && double_fraction(bits) != 0
}

/// Whether the bits of a single are those of a NaN.
pub open spec fn single_is_nan(bits: u32) -> bool {
    bits % 0x8000_0000 > 0x7f80_0000
}

/// The bits of the single nearest to the double with the given bits.
///
/// An infinity stays one. A NaN becomes a quiet NaN that keeps the sign and
/// the leading bits of the payload.
pub open spec fn single_from_double_spec(bits: u64) -> u32 {
    let e = double_exponent(bits);
    let m = double_fraction(bits);
    let magnitude: nat = if e == 0x7ff {
        if m == 0 {
            0x7f80_0000
        } else if m / 0x2000_0000 >= 0x40_0000 {
            0x7f80_0000 + m / 0x2000_0000
        } else {
            0x7fc0_0000 + m / 0x2000_0000
        }
    } else if e == 0 {
        rounded(m, -1074, Precision::Single)
    } else {
        rounded(0x10_0000_0000_0000 + m, e - 1075, Precision::Single)
    };
    (double_sign(bits) * 0x8000_0000 + magnitude) as u32
}

/// The sign bit of a single.
pub open spec fn single_sign(bits: u32) -> nat {
    (bits / 0x8000_0000) as nat
}

/// The exponent field of a single.
pub open spec fn single_exponent(bits: u32) -> nat {
    (bits / 0x80_0000 % 0x100) as nat
}

/// The fraction field of a single.
pub open spec fn single_fraction(bits: u32) -> nat {
    (bits % 0x80_0000) as nat
}

/// The bits of the double that has the value of the single with the given
/// bits. Every single is a double, so nothing is rounded.
///
/// A normal single keeps its fraction and has its exponent moved to the
/// other bias. A subnormal single `m * 2^-149` is a normal double: its
/// leading bit, at place `p`, becomes the hidden one. A NaN keeps its
/// payload.
pub open spec fn double_from_single_spec(bits: u32) -> u64 {
    let e = single_exponent(bits);
    let m = single_fraction(bits);
    let magnitude: nat = if e == 0xff {
        0x7ff0_0000_0000_0000 + m * 0x2000_0000
    } else if e != 0 {
        (e + 896) * 0x10_0000_0000_0000 + m * 0x2000_0000
    } else if m == 0 {
        0
    } else {
        ((floor_log2(m) + 873) * 0x10_0000_0000_0000 + m * pow2((52 - floor_log2(m)) as nat)) as nat
    };
    (single_sign(bits) * 0x8000_0000_0000_0000 + magnitude) as u64
}

/// The whole milliseconds in the seconds that a single gives, with what is
/// left over dropped. A negative number and a NaN give none; what does not
/// fit, infinity included, gives the largest number there is.
pub open spec fn millis_from_seconds_spec(bits: u32) -> u64 {
    let e = single_exponent(bits);
    let m = single_fraction(bits);
    if single_sign(bits) == 1 || single_is_nan(bits) {
        0
    } else if e == 0xff {
        u64::MAX
    } else {
        let sig: nat = if e == 0 {
            m
        } else {
            0x80_0000 + m
        };
        let exp: int = if e == 0 {
            -149
        } else {
            e - 150
        };
        let whole: nat = if exp >= 0 {
            sig * 1000 * pow2(exp as nat)
        } else {
            sig * 1000 / pow2((-exp) as nat)
        };
        if whole <= u64::MAX {
            whole as u64
        } else {
            u64::MAX
        }
    }
}

/// The bits of the double nearest to the whole number `n`.
pub open spec fn double_from_int_spec(n: int) -> u64 {
    if n < 0 {
        (0x8000_0000_0000_0000 + rounded((-n) as nat, 0, Precision::Double)) as u64
    } else {
        rounded(n as nat, 0, Precision::Double) as u64
    }
}

/// The bits of the single that a whole number becomes when it is first made
/// a double and the double is then narrowed.
pub open spec fn single_from_int_spec(n: int) -> u32 {
    single_from_double_spec(double_from_int_spec(n))
}

proof fn lemma_pow2_128()
    ensures
        pow2(128) == 0x1_0000_0000_0000_0000_0000_0000_0000_0000,
        pow2(127) == 0x8000_0000_0000_0000_0000_0000_0000_0000,
{
    lemma2_to64();
    lemma2_to64_rest();
    lemma_pow2_adds(64, 64);
    lemma_pow2_adds(64, 63);
}

proof fn lemma_pow2_monotone(a: nat, b: nat)
    requires
        a <= b,
    ensures
        pow2(a) <= pow2(b),
        pow2(a) > 0,
{
    lemma_pow2_pos(a);
    if a < b {
        lemma_pow2_strictly_increases(a, b);
    }
}

/// `2^floor_log2(n) <= n < 2^(floor_log2(n) + 1)` for a positive `n`.
pub proof fn lemma_floor_log2_bounds(n: nat)
    requires
        n > 0,
    ensures
        pow2(floor_log2(n)) <= n < 2 * pow2(floor_log2(n)),
    decreases n,
{
    if n == 1 {
        lemma2_to64();
    } else {
        lemma_floor_log2_bounds(n / 2);
        lemma_pow2_unfold(floor_log2(n));
    }
}

proof fn lemma_floor_log2_u128(n: u128)
    requires
        n > 0,
    ensures
        floor_log2(n as nat) <= 127,
{
    lemma_floor_log2_bounds(n as nat);
    lemma_pow2_128();
    if floor_log2(n as nat) >= 128 {
        lemma_pow2_monotone(128, floor_log2(n as nat));
    }
}

/// The position of the leading one bit is the only `p` with
/// `2^p <= n < 2^(p+1)`.
pub proof fn lemma_floor_log2_unique(n: nat, p: nat)
    requires
        pow2(p) <= n < 2 * pow2(p),
    ensures
        floor_log2(n) == p,
{
    lemma_pow2_pos(p);
    lemma_floor_log2_bounds(n);
    let l = floor_log2(n);
    if l < p {
        lemma_pow2_unfold(l + 1);
        lemma_pow2_monotone(l + 1, p);
    } else if p < l {
        lemma_pow2_unfold(p + 1);
        lemma_pow2_monotone(p + 1, l);
    }
}

/// The quotient that rounding gives is the quotient itself or the next
/// whole number.
pub proof fn lemma_nearest_even_quotient(a: nat, d: nat)
    requires
        d > 0,
    ensures
        a / d <= nearest_even_quotient(a, d) <= a / d + 1,
        a % d == 0 ==> nearest_even_quotient(a, d) == a / d,
{
}

/// Rounding never gives more than the bits of infinity: what comes out is
/// a finite number of the format, or infinity, with the sign bit clear.
pub proof fn lemma_rounded_bound(sig: nat, exp: int, to: Precision)
    ensures
        rounded(sig, exp, to) <= to.infinity(),
{
    if sig != 0 && floor_log2(sig) + exp <= to.max_top() {
        let p = floor_log2(sig);
        let frac = to.fraction_bits();
        let unit = unit_exponent(sig, exp, to);
        lemma_floor_log2_bounds(sig);
        lemma_pow2_unfold(p + 1);
        lemma_pow2_unfold(frac + 1);
        lemma_pow2_pos(frac);
        lemma2_to64();
        lemma2_to64_rest();
        let q: nat = if exp >= unit {
            sig * pow2((exp - unit) as nat)
        } else {
            nearest_even_quotient(sig, pow2((unit - exp) as nat))
        };
        assert(q <= pow2(frac + 1)) by {
            if exp >= unit {
                let k = (exp - unit) as nat;
                lemma_pow2_pos(k);
                lemma_mul_strict_inequality(sig as int, pow2(p + 1) as int, pow2(k) as int);
                lemma_pow2_adds(p + 1, k);
                lemma_pow2_monotone(p + 1 + k, frac + 1);
            } else {
                let s = (unit - exp) as nat;
                let d = pow2(s);
                lemma_pow2_pos(s);
                lemma_pow2_adds(frac + 1, s);
                lemma_pow2_monotone(p + 1, frac + 1 + s);
                lemma_mul_is_commutative(pow2(frac + 1) as int, d as int);
                lemma_multiply_divide_lt(sig as int, d as int, pow2(frac + 1) as int);
                lemma_nearest_even_quotient(sig, d);
            }
        }
        let steps = unit - to.min_unit();
        let scale = pow2(frac);
        assert(steps * scale + q <= to.infinity()) by (nonlinear_arith)
            requires
                0 <= steps,
                q <= 2 * scale,
                to == Precision::Single ==> scale == 0x80_0000 && steps <= 253,
                to == Precision::Double ==> scale == 0x10_0000_0000_0000 && steps <= 2045,
                to.infinity() == (if to == Precision::Single {
                    0x7f80_0000nat
                } else {
                    0x7ff0_0000_0000_0000nat
                }),
        ;
    }
}

/// Narrowing keeps the sign, turns a NaN into a NaN, and turns what is no
/// NaN into what is no NaN.
pub proof fn lemma_narrowing_keeps_kind(bits: u64)
    ensures
        single_from_double_spec(bits) / 0x8000_0000 == double_sign(bits),
        single_is_nan(single_from_double_spec(bits)) <==> double_is_nan(bits),
        double_exponent(bits) == 0x7ff && double_fraction(bits) == 0 ==> single_from_double_spec(
            bits,
        ) % 0x8000_0000 == 0x7f80_0000,
{
    let m = double_fraction(bits);
    lemma_rounded_bound(m, -1074, Precision::Single);
    lemma_rounded_bound(
        0x10_0000_0000_0000 + m,
        double_exponent(bits) - 1075,
        Precision::Single,
    );
}

/// A single that is widened and then narrowed is the single again, bit for
/// bit, unless it is a NaN.
pub proof fn lemma_widening_is_undone(bits: u32)
    requires
        !single_is_nan(bits),
    ensures
        single_from_double_spec(double_from_single_spec(bits)) == bits,
{
    let e = single_exponent(bits);
    let m = single_fraction(bits);
    let wide = double_from_single_spec(bits);
    lemma2_to64();
    lemma2_to64_rest();
    if e == 0xff {
        assert(m == 0);
    } else if e != 0 {
        assert(double_exponent(wide) == e + 896);
        assert(double_fraction(wide) == m * 0x2000_0000);
        let sig: nat = 0x10_0000_0000_0000 + m * 0x2000_0000;
        lemma_floor_log2_unique(sig, 52);
        assert(unit_exponent(sig, e - 179, Precision::Single) == e - 150);
        assert(sig == (0x80_0000 + m) * 0x2000_0000);
        assert(sig / 0x2000_0000 == 0x80_0000 + m);
        assert(sig % 0x2000_0000 == 0);
        assert(rounded(sig, e - 179, Precision::Single) == e * 0x80_0000 + m);
    } else if m != 0 {
        let p = floor_log2(m);
        let d = pow2((52 - p) as nat);
        lemma_floor_log2_bounds(m);
        assert(p <= 22) by {
            if p >= 23 {
                lemma_pow2_monotone(23, p);
            }
        }
        lemma_pow2_pos((52 - p) as nat);
        lemma_pow2_adds(p, (52 - p) as nat);
        let sig: nat = m * d;
        let base: nat = pow2(p) * d;
        assert(base == pow2(52));
        assert(base <= sig < 2 * base) by (nonlinear_arith)
            requires
                pow2(p) <= m < 2 * pow2(p),
                d > 0,
                base == pow2(p) * d,
                sig == m * d,
        ;
        assert(0x10_0000_0000_0000 <= sig < 0x20_0000_0000_0000);
        assert(wide % 0x8000_0000_0000_0000 == (p + 873) * 0x10_0000_0000_0000 + sig);
        assert(double_exponent(wide) == p + 874);
        assert(double_fraction(wide) == sig - 0x10_0000_0000_0000);
        lemma_floor_log2_unique(sig, 52);
        assert(unit_exponent(sig, p - 201, Precision::Single) == -149);
        lemma_div_multiples_vanish(m as int, d as int);
        lemma_mod_multiples_basic(m as int, d as int);
        lemma_mul_is_commutative(m as int, d as int);
        assert(nearest_even_quotient(sig, d) == m);
        assert(rounded(sig, p - 201, Precision::Single) == m);
    }
}

/// `2^k` for a `k` that fits.
fn power_of_two(k: u32) -> (r: u128)
    requires
        k <= 127,
    ensures
        r == pow2(k as nat),
{
    let mut r: u128 = 1;
    let mut i: u32 = 0;
    proof {
        lemma2_to64();
    }
    while i < k
        invariant
            i <= k <= 127,
            r == pow2(i as nat),
        decreases k - i,
    {
        proof {
            lemma_pow2_unfold((i + 1) as nat);
            lemma_pow2_monotone((i + 1) as nat, 127);
            lemma_pow2_128();
        }
        r = r * 2;
        i = i + 1;
    }
    r
}

/// The position of the leading one bit.
fn top_bit(sig: u128) -> (p: u32)
    requires
        sig > 0,
    ensures
        p == floor_log2(sig as nat),
        p <= 127,
{
    let mut p: u32 = 0;
    let mut rest: u128 = sig;
    proof {
        lemma_floor_log2_u128(sig);
    }
    while rest > 1
        invariant
            rest >= 1,
            floor_log2(sig as nat) == p + floor_log2(rest as nat),
            floor_log2(sig as nat) <= 127,
        decreases rest,
    {
        rest = rest / 2;
        p = p + 1;
    }
    p
}

impl Precision {
    fn fraction_width(self) -> (r: u32)
        ensures
            r == self.fraction_bits(),
    {
        match self {
            Precision::Single => 23,
            Precision::Double => 52,
        }
    }

    fn lowest_unit(self) -> (r: i32)
        ensures
            r == self.min_unit(),
    {
        match self {
            Precision::Single => -149,
            Precision::Double => -1074,
        }
    }

    fn highest_top(self) -> (r: i32)
        ensures
            r == self.max_top(),
    {
        match self {
            Precision::Single => 127,
            Precision::Double => 1023,
        }
    }

    fn infinity_bits(self) -> (r: u64)
        ensures
            r == self.infinity(),
    {
        match self {
            Precision::Single => 0x7f80_0000,
            Precision::Double => 0x7ff0_0000_0000_0000,
        }
    }

    fn fraction_scale(self) -> (r: u64)
        ensures
            r == pow2(self.fraction_bits()),
    {
        proof {
            lemma2_to64();
            lemma2_to64_rest();
        }
        match self {
            Precision::Single => 0x80_0000,
            Precision::Double => 0x10_0000_0000_0000,
        }
    }
}

/// Rounds `sig * 2^exp` into the format and gives its bits without a sign.
pub fn round_to(sig: u128, exp: i32, to: Precision) -> (bits: u64)
    ensures
        bits == rounded(sig as nat, exp as int, to),
        bits <= to.infinity(),
{
    if sig == 0 {
        return 0;
    }
    let p: i64 = top_bit(sig) as i64;
    let e: i64 = exp as i64;
    let frac: i64 = to.fraction_width() as i64;
    let lowest: i64 = to.lowest_unit() as i64;
    let top: i64 = p + e;
    if top > to.highest_top() as i64 {
        return to.infinity_bits();
    }
    let unit: i64 = if top - frac >= lowest {
        top - frac
    } else {
        lowest
    };
    proof {
        lemma_floor_log2_bounds(sig as nat);
        lemma_pow2_unfold((p + 1) as nat);
        lemma_pow2_unfold((frac + 1) as nat);
        lemma_pow2_pos(frac as nat);
    }
    let q: u128 = if e >= unit {
        let k: u32 = (e - unit) as u32;
        let scale: u128 = power_of_two(k);
        proof {
            lemma_pow2_pos(k as nat);
            lemma_mul_strict_inequality(sig as int, pow2((p + 1) as nat) as int, scale as int);
            lemma_pow2_adds((p + 1) as nat, k as nat);
            lemma_pow2_monotone((p + 1 + k) as nat, (frac + 1) as nat);
            lemma2_to64();
            lemma2_to64_rest();
            lemma_pow2_monotone((frac + 1) as nat, 53);
        }
        sig * scale
    } else {
        let s: i64 = unit - e;
        if s > p + 1 {
            proof {
                lemma_pow2_monotone((p + 2) as nat, s as nat);
                lemma_pow2_unfold((p + 2) as nat);
                lemma_small_mod(sig as nat, pow2(s as nat));
                lemma_basic_div(sig as int, pow2(s as nat) as int);
            }
            0
        } else if s == p + 1 {
            let half: u128 = power_of_two(p as u32);
            proof {
                lemma_small_mod(sig as nat, pow2(s as nat));
                lemma_basic_div(sig as int, pow2(s as nat) as int);
            }
            if sig > half {
                1
            } else {
                0
            }
        } else {
            let d: u128 = power_of_two(s as u32);
            proof {
                lemma_pow2_pos(s as nat);
            }
            let f: u128 = sig / d;
            let r: u128 = sig % d;
            proof {
                lemma_pow2_adds((frac + 1) as nat, s as nat);
                lemma_pow2_monotone((p + 1) as nat, (frac + 1 + s) as nat);
                lemma_mul_is_commutative(pow2((frac + 1) as nat) as int, d as int);
                lemma_multiply_divide_lt(sig as int, d as int, pow2((frac + 1) as nat) as int);
                lemma2_to64_rest();
                lemma_pow2_monotone((frac + 1) as nat, 53);
            }
            if r > d - r || (r == d - r && f % 2 == 1) {
                f + 1
            } else {
                f
            }
        }
    };
    let steps: u64 = (unit - lowest) as u64;
    let scale: u64 = to.fraction_scale();
    proof {
        lemma2_to64();
        lemma2_to64_rest();
        assert(q <= pow2((frac + 1) as nat));
        assert(steps * scale + q <= to.infinity()) by (nonlinear_arith)
            requires
                q <= 2 * scale,
                to == Precision::Single ==> scale == 0x80_0000 && steps <= 253,
                to == Precision::Double ==> scale == 0x10_0000_0000_0000 && steps <= 2045,
                to.infinity() == (if to == Precision::Single {
                    0x7f80_0000nat
                } else {
                    0x7ff0_0000_0000_0000nat
                }),
        ;
    }
    steps * scale + q as u64
}

/// The bits of the single nearest to the double with the given bits.
pub fn single_from_double(bits: u64) -> (r: u32)
    ensures
        r == single_from_double_spec(bits),
{
    let sign: u64 = bits / 0x8000_0000_0000_0000;
    let e: u64 = bits / 0x10_0000_0000_0000 % 0x800;
    let m: u64 = bits % 0x10_0000_0000_0000;
    let magnitude: u64 = if e == 0x7ff {
        if m == 0 {
            0x7f80_0000
        } else if m / 0x2000_0000 >= 0x40_0000 {
            0x7f80_0000 + m / 0x2000_0000
        } else {
            0x7fc0_0000 + m / 0x2000_0000
        }
    } else if e == 0 {
        round_to(m as u128, -1074, Precision::Single)
    } else {
        round_to((0x10_0000_0000_0000 + m) as u128, e as i32 - 1075, Precision::Single)
    };
    (sign * 0x8000_0000 + magnitude) as u32
}

/// The bits of the double that has the value of the single with the given
/// bits.
pub fn double_from_single(bits: u32) -> (r: u64)
    ensures
        r == double_from_single_spec(bits),
{
    let sign: u64 = (bits / 0x8000_0000) as u64;
    let e: u64 = (bits / 0x80_0000 % 0x100) as u64;
    let m: u64 = (bits % 0x80_0000) as u64;
    let size: u64 = if e == 0xff {
        0x7ff0_0000_0000_0000 + m * 0x2000_0000
    } else if e != 0 {
        (e + 896) * 0x10_0000_0000_0000 + m * 0x2000_0000
    } else if m == 0 {
        0
    } else {
        let p: u32 = top_bit(m as u128);
        proof {
            lemma_floor_log2_bounds(m as nat);
            lemma2_to64();
            lemma2_to64_rest();
            if p >= 23 {
                lemma_pow2_monotone(23, p as nat);
            }
            lemma_pow2_adds(p as nat, (52 - p) as nat);
            lemma_pow2_pos((52 - p) as nat);
            lemma_pow2_monotone((52 - p) as nat, 52);
            let ghost scale = pow2((52 - p) as nat);
            let ghost base = pow2(p as nat) * scale;
            assert(base == pow2(52));
            assert(m * scale < 2 * base) by (nonlinear_arith)
                requires
                    m < 2 * pow2(p as nat),
                    scale > 0,
                    base == pow2(p as nat) * scale,
            ;
        }
        let d: u64 = power_of_two(52 - p) as u64;
        (p as u64 + 873) * 0x10_0000_0000_0000 + m * d
    };
    sign * 0x8000_0000_0000_0000 + size
}

/// The size of a whole number, without its sign.
pub fn magnitude(n: i128) -> (r: u128)
    ensures
        r == (if n < 0 {
            -n
        } else {
            n as int
        }),
{
    if n < 0 {
        (-(n + 1)) as u128 + 1
    } else {
        n as u128
    }
}

/// The bits of the double nearest to the whole number `n`.
pub fn double_from_int(n: i128) -> (r: u64)
    ensures
        r == double_from_int_spec(n as int),
{
    let size: u64 = round_to(magnitude(n), 0, Precision::Double);
    if n < 0 {
        0x8000_0000_0000_0000 + size
    } else {
        size
    }
}

/// The bits of the single that the whole number `n` becomes by way of the
/// nearest double.
pub fn single_from_int(n: i128) -> (r: u32)
    ensures
        r == single_from_int_spec(n as int),
{
    single_from_double(double_from_int(n))
}

/// The whole milliseconds in the seconds that a single gives.
pub fn millis_from_seconds(bits: u32) -> (r: u64)
    ensures
        r == millis_from_seconds_spec(bits),
{
    let sign: u32 = bits / 0x8000_0000;
    let e: u32 = bits / 0x80_0000 % 0x100;
    let m: u32 = bits % 0x80_0000;
    if sign == 1 || (e == 0xff && m != 0) {
        return 0;
    }
    if e == 0xff {
        return u64::MAX;
    }
    let sig: u128 = if e == 0 {
        m as u128
    } else {
        0x80_0000 + m as u128
    };
    let scaled: u128 = sig * 1000;
    proof {
        lemma2_to64();
        lemma2_to64_rest();
    }
    if e >= 150 {
        let k: u32 = e - 150;
        if k > 40 {
            proof {
                lemma_pow2_monotone(41, k as nat);
                assert(scaled * pow2(k as nat) > u64::MAX) by (nonlinear_arith)
                    requires
                        scaled >= 0x80_0000 * 1000,
                        pow2(k as nat) >= 0x200_0000_0000,
                ;
            }
            u64::MAX
        } else {
            let scale: u128 = power_of_two(k);
            proof {
                lemma_pow2_monotone(k as nat, 40);
                assert(scaled * scale <= 0x1_0000_0000 * 1000 * 0x100_0000_0000)
                    by (nonlinear_arith)
                    requires
                        scaled <= 0x1_0000_0000 * 1000,
                        scale <= 0x100_0000_0000,
                ;
            }
            let whole: u128 = scaled * scale;
            if whole > 0xffff_ffff_ffff_ffff {
                u64::MAX
            } else {
                whole as u64
            }
        }
    } else {
        let s: u32 = if e == 0 {
            149
        } else {
            150 - e
        };
        if s > 40 {
            proof {
                lemma_pow2_monotone(40, s as nat);
                lemma_basic_div(scaled as int, pow2(s as nat) as int);
            }
            0
        } else {
            let d: u128 = power_of_two(s);
            proof {
                lemma_pow2_pos(s as nat);
                lemma_div_is_ordered_by_denominator(scaled as int, 1, d as int);
            }
            (scaled / d) as u64
        }
    }
}

} // verus!
