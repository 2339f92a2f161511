//! The arithmetic that the signal path is written against.
//!
//! Every filter, meter and spectral routine in this crate is generic over a
//! [`Sample`]: a copyable value with the handful of operations that audio
//! processing needs. Each operation has a specification twin (`plus_spec` for
//! `plus`, and so on), and contracts throughout the crate are stated over those
//! twins, in the exact order in which the operations are applied. Nothing is
//! assumed of the operations themselves: rounding arithmetic is a valid
//! `Sample`.
//!
//! Where a result depends on algebra (that two accumulation orders agree, say)
//! it is stated for an [`Exact`] sample, whose addition and multiplication
//! obey the usual laws. `i64` with wrapping arithmetic is one.
use vstd::arithmetic::div_mod::{lemma_fundamental_div_mod, lemma_mul_mod_noop_general};
use vstd::prelude::*;

verus! {

/// One audio sample, or any quantity measured in the same unit (a gain, a
/// filter weight, a level).
pub trait Sample: Sized + Copy {
    spec fn zero_spec() -> Self;

    spec fn one_spec() -> Self;

    spec fn plus_spec(self, rhs: Self) -> Self;

    spec fn minus_spec(self, rhs: Self) -> Self;

    spec fn times_spec(self, rhs: Self) -> Self;

    spec fn over_spec(self, rhs: Self) -> Self;

    spec fn root_spec(self) -> Self;

    spec fn magnitude_spec(self) -> Self;

    spec fn same_spec(self, rhs: Self) -> bool;

    spec fn below_spec(self, rhs: Self) -> bool;

    spec fn from_count_spec(n: usize) -> Self;

    /// Silence.
    fn zero() -> (r: Self)
        ensures
            r == Self::zero_spec(),
    ;

    /// Unit gain.
    fn one() -> (r: Self)
        ensures
            r == Self::one_spec(),
    ;

    /// `self + rhs`.
    fn plus(self, rhs: Self) -> (r: Self)
        ensures
            r == self.plus_spec(rhs),
    ;

    /// `self - rhs`.
    fn minus(self, rhs: Self) -> (r: Self)
        ensures
            r == self.minus_spec(rhs),
    ;

    /// `self * rhs`.
    fn times(self, rhs: Self) -> (r: Self)
        ensures
            r == self.times_spec(rhs),
    ;

    /// `self / rhs`. Total: an implementation picks a value for a zero divisor.
    fn over(self, rhs: Self) -> (r: Self)
        ensures
            r == self.over_spec(rhs),
    ;

    /// The square root of `self`. Total: an implementation picks a value for
    /// a negative argument.
    fn root(self) -> (r: Self)
        ensures
            r == self.root_spec(),
    ;

    /// The absolute value of `self`.
    fn magnitude(self) -> (r: Self)
        ensures
            r == self.magnitude_spec(),
    ;

    /// Whether `self` and `rhs` compare equal.
    fn same(self, rhs: Self) -> (r: bool)
        ensures
            r == self.same_spec(rhs),
    ;

    /// Whether `self` is strictly less than `rhs`.
    fn below(self, rhs: Self) -> (r: bool)
        ensures
            r == self.below_spec(rhs),
    ;

    /// The sample that stands for the whole number `n`.
    fn from_count(n: usize) -> (r: Self)
        ensures
            r == Self::from_count_spec(n),
    ;
}

/// A [`Sample`] whose `plus` and `times` are exact: addition is associative
/// and commutative with `zero` as its identity, and multiplication
/// distributes over it.
pub trait Exact: Sample {
    proof fn plus_commutes(a: Self, b: Self)
        ensures
            a.plus_spec(b) == b.plus_spec(a),
    ;

    proof fn plus_associates(a: Self, b: Self, c: Self)
        ensures
            a.plus_spec(b).plus_spec(c) == a.plus_spec(b.plus_spec(c)),
    ;

    proof fn plus_zero(a: Self)
        ensures
            a.plus_spec(Self::zero_spec()) == a,
    ;

    proof fn times_distributes(a: Self, b: Self, c: Self)
        ensures
            a.times_spec(b.plus_spec(c)) == a.times_spec(b).plus_spec(a.times_spec(c)),
    ;

    proof fn times_zero(a: Self)
        ensures
            a.times_spec(Self::zero_spec()) == Self::zero_spec(),
    ;
}

/// The integer that `x` wraps to in 64-bit two's complement.
pub open spec fn wrap64(x: int) -> i64 {
    vstd::wrapping::i64_specs::signed_crop(x)
}

/// Whether `r` is the largest whole number whose square does not exceed `x`.
pub open spec fn is_floor_root(x: int, r: int) -> bool {
    0 <= r && r * r <= x < (r + 1) * (r + 1)
}

/// The floor of the square root of `x`; zero for a negative `x`.
pub open spec fn floor_root(x: int) -> int {
    if x <= 0 {
        0
    } else {
        choose|r: int| is_floor_root(x, r)
    }
}

/// `a / b` rounded toward zero; zero for a zero divisor.
pub open spec fn quotient_toward_zero(a: int, b: int) -> int {
    if b == 0 {
        0
    } else if (a < 0) == (b < 0) {
        abs_int(a) / abs_int(b)
    } else {
        -(abs_int(a) / abs_int(b))
    }
}

pub open spec fn abs_int(a: int) -> int {
    if a < 0 {
        -a
    } else {
        a
    }
}

/// Two squares that bracket the same number have the same root.
pub proof fn floor_root_unique(x: int, r: int)
    requires
        is_floor_root(x, r),
    ensures
        floor_root(x) == r,
{
    if x <= 0 {
        assert(r == 0) by (nonlinear_arith)
            requires
                0 <= r,
                r * r <= x,
                x <= 0,
        ;
    } else {
        let s = floor_root(x);
        assert(is_floor_root(x, s));
        assert(s == r) by (nonlinear_arith)
            requires
                0 <= r,
                0 <= s,
                r * r <= x < (r + 1) * (r + 1),
                s * s <= x < (s + 1) * (s + 1),
        ;
    }
}

/// Wrapping keeps a number's residue modulo 2^64, and two numbers with the
/// same residue wrap to the same value.
pub proof fn wrap64_congruent(x: int, y: int)
    ensures
        wrap64(x) as int % 0x1_0000_0000_0000_0000 == x % 0x1_0000_0000_0000_0000,
        x % 0x1_0000_0000_0000_0000 == y % 0x1_0000_0000_0000_0000 ==> wrap64(x) == wrap64(y),
        i64::MIN <= x <= i64::MAX ==> wrap64(x) == x,
{
    let m = 0x1_0000_0000_0000_0000int;
    let r = x % m;
    assert(0 <= r < m);
    if r > i64::MAX {
        assert((r - m) % m == r % m) by {
            lemma_fundamental_div_mod(r - m, m);
            lemma_fundamental_div_mod(r, m);
            assert((r - m) % m == r) by (nonlinear_arith)
                requires
                    0 <= r < m,
                    m > 0,
                    r - m == m * ((r - m) / m) + (r - m) % m,
                    0 <= (r - m) % m < m,
            ;
            assert(r % m == r) by (nonlinear_arith)
                requires
                    0 <= r < m,
            ;
        }
    }
    assert(r % m == r) by (nonlinear_arith)
        requires
            0 <= r < m,
    ;
    if i64::MIN <= x <= i64::MAX {
        if x >= 0 {
            assert(x % m == x) by (nonlinear_arith)
                requires
                    0 <= x < m,
            ;
        } else {
            lemma_fundamental_div_mod(x, m);
            assert(x % m == x + m) by (nonlinear_arith)
                requires
                    -m < x < 0,
                    x == m * (x / m) + x % m,
                    0 <= x % m < m,
            ;
        }
    }
}

/// `|x|` as an unsigned number, which has room for the magnitude of `i64::MIN`.
fn unsigned_magnitude(x: i64) -> (r: u64)
    ensures
        r == abs_int(x as int),
{
    if x >= 0 {
        x as u64
    } else if x == i64::MIN {
        0x8000_0000_0000_0000
    } else {
        (0 - x) as u64
    }
}

impl Sample for i64 {
    open spec fn zero_spec() -> i64 {
        0
    }

    open spec fn one_spec() -> i64 {
        1
    }

    open spec fn plus_spec(self, rhs: i64) -> i64 {
        wrap64(self + rhs)
    }

    open spec fn minus_spec(self, rhs: i64) -> i64 {
        wrap64(self - rhs)
    }

    open spec fn times_spec(self, rhs: i64) -> i64 {
        wrap64(self * rhs)
    }

    open spec fn over_spec(self, rhs: i64) -> i64 {
        wrap64(quotient_toward_zero(self as int, rhs as int))
    }

    open spec fn root_spec(self) -> i64 {
        floor_root(self as int) as i64
    }

    open spec fn magnitude_spec(self) -> i64 {
        wrap64(abs_int(self as int))
    }

    open spec fn same_spec(self, rhs: i64) -> bool {
        self == rhs
    }

    open spec fn below_spec(self, rhs: i64) -> bool {
        self < rhs
    }

    open spec fn from_count_spec(n: usize) -> i64 {
        if n <= i64::MAX {
            n as i64
        } else {
            i64::MAX
        }
    }

    fn zero() -> (r: i64) {
        0
    }

    fn one() -> (r: i64) {
        1
    }

    fn plus(self, rhs: i64) -> (r: i64) {
        proof {
            wrap64_congruent(self + rhs, self + rhs);
        }
        self.wrapping_add(rhs)
    }

    fn minus(self, rhs: i64) -> (r: i64) {
        proof {
            wrap64_congruent(self - rhs, self - rhs);
        }
        self.wrapping_sub(rhs)
    }

    fn times(self, rhs: i64) -> (r: i64) {
        self.wrapping_mul(rhs)
    }

    fn over(self, rhs: i64) -> (r: i64) {
        if rhs == 0 {
            proof {
                wrap64_congruent(0, 0);
            }
            return 0;
        }
        let a: u64 = unsigned_magnitude(self);
        let b: u64 = unsigned_magnitude(rhs);
        let q: u64 = a / b;
        proof {
            assert(a == abs_int(self as int));
            assert(b == abs_int(rhs as int));
            assert(0 <= q <= a) by (nonlinear_arith)
                requires
                    q == a as int / b as int,
                    b > 0,
                    a >= 0,
            ;
        }
        if (self < 0) == (rhs < 0) {
            if q > 0x7fff_ffff_ffff_ffff {
                proof {
                    wrap64_congruent(q as int, q as int);
                }
                i64::MIN
            } else {
                proof {
                    wrap64_congruent(q as int, q as int);
                }
                q as i64
            }
        } else {
            proof {
                wrap64_congruent(-(q as int), -(q as int));
            }
            if q > 0x7fff_ffff_ffff_ffff {
                i64::MIN
            } else {
                0 - (q as i64)
            }
        }
    }

    fn root(self) -> (r: i64) {
        if self <= 0 {
            return 0;
        }
        let mut lo: i64 = 0;
        let mut hi: i64 = 3037000500;
        while hi - lo > 1
            invariant
                0 <= lo < hi <= 3037000500,
                lo * lo <= self,
                self < hi * hi,
            decreases hi - lo,
        {
            let mid: i64 = lo + (hi - lo) / 2;
            assert(0 <= mid * mid <= 3037000499 * 3037000499) by (nonlinear_arith)
                requires
                    0 <= mid <= 3037000499,
            ;
            if mid * mid <= self {
                lo = mid;
            } else {
                hi = mid;
            }
        }
        proof {
            floor_root_unique(self as int, lo as int);
        }
        lo
    }

    fn magnitude(self) -> (r: i64) {
        proof {
            wrap64_congruent(abs_int(self as int), abs_int(self as int));
        }
        if self == i64::MIN {
            i64::MIN
        } else if self < 0 {
            0 - self
        } else {
            self
        }
    }

    fn same(self, rhs: i64) -> (r: bool) {
        self == rhs
    }

    fn below(self, rhs: i64) -> (r: bool) {
        self < rhs
    }

    fn from_count(n: usize) -> (r: i64) {
        let wide: u64 = n as u64;
        if wide <= 0x7fff_ffff_ffff_ffff {
            wide as i64
        } else {
            i64::MAX
        }
    }
}

impl Exact for i64 {
    proof fn plus_commutes(a: i64, b: i64) {
    }

    proof fn plus_associates(a: i64, b: i64, c: i64) {
        let m = 0x1_0000_0000_0000_0000int;
        let ab = a.plus_spec(b);
        let bc = b.plus_spec(c);
        wrap64_congruent(a + b, a + b);
        wrap64_congruent(b + c, b + c);
        assert(ab == a + b || ab == a + b - m || ab == a + b + m);
        assert(bc == b + c || bc == b + c - m || bc == b + c + m);
        assert((ab + c) % m == (a + bc) % m) by {
            vstd::arithmetic::div_mod::lemma_mod_multiples_vanish(1, a + b + c, m);
            vstd::arithmetic::div_mod::lemma_mod_multiples_vanish(-1, a + b + c, m);
        }
        wrap64_congruent(ab + c, a + bc);
    }

    proof fn plus_zero(a: i64) {
        wrap64_congruent(a as int, a as int);
    }

    proof fn times_distributes(a: i64, b: i64, c: i64) {
        let m = 0x1_0000_0000_0000_0000int;
        let bc = b.plus_spec(c);
        let ab = a.times_spec(b);
        let ac = a.times_spec(c);
        wrap64_congruent(b + c, b + c);
        wrap64_congruent(a * b, a * b);
        wrap64_congruent(a * c, a * c);
        // a * wrap(b + c) is congruent to a * (b + c)
        lemma_mul_mod_noop_general(a as int, bc as int, m);
        lemma_mul_mod_noop_general(a as int, b + c, m);
        assert((a * bc) % m == (a * (b + c)) % m);
        // wrap(a * b) + wrap(a * c) is congruent to a * b + a * c
        vstd::arithmetic::div_mod::lemma_add_mod_noop(ab as int, ac as int, m);
        vstd::arithmetic::div_mod::lemma_add_mod_noop(a * b, a * c, m);
        assert((ab + ac) % m == (a * b + a * c) % m);
        assert(a * (b + c) == a * b + a * c) by (nonlinear_arith);
        wrap64_congruent(a * bc, ab + ac);
    }

    proof fn times_zero(a: i64) {
        assert(a * 0 == 0) by (nonlinear_arith);
        wrap64_congruent(0, 0);
    }
}

} // verus!
