//! Exact integer square root on 128-bit unsigned integers.

use vstd::arithmetic::power2::{
    lemma2_to64, lemma_pow2_adds, lemma_pow2_pos, lemma_pow2_strictly_increases,
    lemma_pow2_unfold, pow2,
};
use vstd::prelude::*;
use vstd::std_specs::bits::u64_leading_zeros;

verus! {

/// `r` is the floor of the square root of `n`.
pub open spec fn is_isqrt(n: nat, r: nat) -> bool {
    r * r <= n < (r + 1) * (r + 1)
}

/// The floor of the square root of `n`.
pub open spec fn isqrt(n: nat) -> nat {
    choose|r: nat| is_isqrt(n, r)
}

proof fn lemma_zero_root()
    ensures
        is_isqrt(0, 0),
        isqrt(0) == 0,
{
    assert(0nat * 0nat == 0 && (0nat + 1) * (0nat + 1) == 1) by (nonlinear_arith);
    assert(is_isqrt(0, 0));
    let c = isqrt(0);
    if c > 0 {
        assert(c * c > 0) by (nonlinear_arith)
            requires
                c > 0,
        ;
    }
}

proof fn lemma_squares_ordered(a: nat, b: nat)
    by (nonlinear_arith)
    requires
        a < b,
    ensures
        (a + 1) * (a + 1) <= b * b,
{
}

/// At most one number is the floor of the square root of `n`, and `isqrt` names it.
pub proof fn lemma_isqrt_unique(n: nat, r: nat)
    requires
        is_isqrt(n, r),
    ensures
        isqrt(n) == r,
{
    let c = isqrt(n);
    assert(is_isqrt(n, c));
    if c < r {
        lemma_squares_ordered(c, r);
    }
    if r < c {
        lemma_squares_ordered(r, c);
    }
}

/// Every number has a floor square root: `isqrt(n)^2 <= n < (isqrt(n) + 1)^2`.
pub proof fn lemma_isqrt_bounds(n: nat)
    ensures
        is_isqrt(n, isqrt(n)),
    decreases n,
{
    if n == 0 {
        lemma_zero_root();
    } else {
        // The root of n - 1 either stays the root of n, or n is the next square.
        lemma_isqrt_bounds((n - 1) as nat);
        let r = isqrt((n - 1) as nat);
        if n < (r + 1) * (r + 1) {
            assert(is_isqrt(n, r));
        } else {
            assert((r + 2) * (r + 2) > (r + 1) * (r + 1)) by (nonlinear_arith);
            assert(is_isqrt(n, r + 1));
        }
    }
}

/// The floor square root never decreases as its argument grows.
pub proof fn lemma_isqrt_monotonic(a: nat, b: nat)
    requires
        a <= b,
    ensures
        isqrt(a) <= isqrt(b),
{
    lemma_isqrt_bounds(a);
    lemma_isqrt_bounds(b);
    if isqrt(b) < isqrt(a) {
        lemma_squares_ordered(isqrt(b), isqrt(a));
    }
}

/// The floor square root of a perfect square is its root.
pub proof fn lemma_isqrt_of_square(r: nat)
    ensures
        isqrt(r * r) == r,
{
    assert(r * r < (r + 1) * (r + 1)) by (nonlinear_arith);
    lemma_isqrt_unique(r * r, r);
}

proof fn lemma_pow2_128()
    ensures
        pow2(64) == 0x1_0000_0000_0000_0000,
        pow2(128) == 0x1_0000_0000_0000_0000_0000_0000_0000_0000,
{
    lemma2_to64();
    lemma_pow2_adds(64, 64);
}

proof fn lemma_pow2_monotonic(a: nat, b: nat)
    requires
        a <= b,
    ensures
        pow2(a) <= pow2(b),
{
    if a < b {
        lemma_pow2_strictly_increases(a, b);
    }
}

/// A nonzero 64-bit value lies between the two powers of two that its leading-zero count names.
proof fn lemma_leading_zeros_u64(i: u64)
    requires
        i > 0,
    ensures
        0 <= u64_leading_zeros(i) < 64,
        pow2((63 - u64_leading_zeros(i)) as nat) <= i < pow2((64 - u64_leading_zeros(i)) as nat),
    decreases i,
{
    reveal(u64_leading_zeros);
    if i == 1 {
        assert(u64_leading_zeros(0) == 64);
        lemma2_to64();
    } else {
        lemma_leading_zeros_u64(i / 2);
        let e = (63 - u64_leading_zeros(i / 2)) as nat;
        lemma_pow2_unfold(e + 1);
        lemma_pow2_unfold(e + 2);
    }
}

/// The number of leading zero bits of a 128-bit value, from those of its two halves.
fn leading_zeros(n: u128) -> (zeros: u32)
    ensures
        zeros <= 128,
        n == 0 <==> zeros == 128,
        n > 0 ==> pow2((127 - zeros) as nat) <= n < pow2((128 - zeros) as nat),
{
    let high: u64 = (n >> 64) as u64;
    let low: u64 = (n & 0xffff_ffff_ffff_ffff) as u64;
    assert(n >> 64 <= 0xffff_ffff_ffff_ffff) by (bit_vector);
    assert(n & 0xffff_ffff_ffff_ffff <= 0xffff_ffff_ffff_ffff) by (bit_vector);
    assert(n == (n >> 64) * 0x1_0000_0000_0000_0000 + (n & 0xffff_ffff_ffff_ffff))
        by (bit_vector);
    proof {
        lemma_pow2_128();
    }
    if high != 0 {
        let zeros = high.leading_zeros();
        proof {
            lemma_leading_zeros_u64(high);
            let e = (63 - zeros) as nat;
            lemma_pow2_adds(e, 64);
            lemma_pow2_adds(e + 1, 64);
            assert(pow2(e) * pow2(64) <= high * pow2(64)) by (nonlinear_arith)
                requires
                    pow2(e) <= high,
            ;
            assert((high + 1) * pow2(64) <= pow2(e + 1) * pow2(64)) by (nonlinear_arith)
                requires
                    high + 1 <= pow2(e + 1),
            ;
        }
        zeros
    } else if low != 0 {
        let zeros = low.leading_zeros();
        proof {
            lemma_leading_zeros_u64(low);
        }
        64 + zeros
    } else {
        128
    }
}

/// `1 << s` is the power of two with exponent `s`.
proof fn lemma_one_shl(s: u32)
    requires
        s < 128,
    ensures
        (1u128 << s) == pow2(s as nat),
    decreases s,
{
    if s == 0 {
        assert(1u128 << 0u32 == 1) by (bit_vector);
        lemma2_to64();
    } else {
        let t = (s - 1) as u32;
        lemma_one_shl(t);
        assert((1u128 << s) == 2 * (1u128 << t)) by (bit_vector)
            requires
                0 < s < 128,
                t == s - 1,
        ;
        lemma_pow2_unfold(s as nat);
    }
}

/// One refinement step of the digit-by-digit method, as algebra: with `p` the
/// root found so far, `b` the weight of the digit under test and
/// `result == 2 * p * b`, testing the remainder against `result + bit` tests
/// whether `(p + b)^2` still fits.
proof fn lemma_digit_step(p: int, b: int, result: int, bit: int)
    by (nonlinear_arith)
    requires
        p >= 0,
        b >= 1,
        result == p * (2 * b),
        bit == b * b,
    ensures
        (p + b) * (p + b) == p * p + result + bit,
        result / 2 == p * b,
        result / 2 + bit == (p + b) * b,
        result + bit <= (p + b) * (p + b),
{
}

proof fn lemma_square_below(a: int, m: int)
    by (nonlinear_arith)
    requires
        0 <= a < m,
    ensures
        a * a < m * m,
{
}

/// Arithmetic on 128-bit unsigned integers beyond what the language offers.
pub trait U128Extensions {
    /// The floor of the square root.
    fn sqrt(self) -> u128;
}

impl U128Extensions for u128 {
    /// The floor of the square root, by the binary digit-by-digit method.
    fn sqrt(self) -> (root: u128)
        ensures
            root * root <= self < (root + 1) * (root + 1),
            root == isqrt(self as nat),
            root <= u64::MAX,
    {
        if self == 0 {
            proof {
                lemma_zero_root();
            }
            return 0;
        }
        // The largest power of 4 that is at most `self`.
        let max_shift: u32 = 127;
        let top: u32 = max_shift - leading_zeros(self);
        let shift: u32 = top & !1;
        assert(top & !1u32 == top - top % 2) by (bit_vector);
        let mut bit: u128 = 1u128 << shift;

        let mut result: u128 = 0;
        let mut n: u128 = self;

        let ghost mut k: nat = (shift / 2) as nat;
        // The root found so far, and the weight of the digit last decided.
        let ghost mut p: int = 0;
        let ghost mut h: int = (2 * pow2(k)) as int;
        proof {
            lemma_one_shl(shift);
            lemma_pow2_128();
            lemma_pow2_monotonic(shift as nat, top as nat);
            lemma_pow2_monotonic((top + 1) as nat, (shift + 2) as nat);
            lemma_pow2_unfold((shift + 2) as nat);
            lemma_pow2_unfold((shift + 1) as nat);
            lemma_pow2_adds(k, k);
            lemma_pow2_monotonic(k, 63);
            lemma_pow2_unfold(64);
            assert(h * h == 4 * (pow2(k) * pow2(k))) by (nonlinear_arith)
                requires
                    h == 2 * pow2(k),
            ;
        }

        while bit != 0
            invariant
                bit != 0 ==> k <= 63 && bit == pow2(2 * k) && h == 2 * pow2(k),
                bit == 0 ==> h == 1,
                p >= 0,
                result == p * h,
                p * p + n == self,
                self < (p + h) * (p + h),
                p + h <= 0x1_0000_0000_0000_0000,
            decreases bit,
        {
            let ghost b: int = pow2(k) as int;
            proof {
                lemma_pow2_pos(k);
                lemma_pow2_adds(k, k);
                lemma_digit_step(p, b, result as int, bit as int);
                lemma_square_below(p + b, 0x1_0000_0000_0000_0000);
                assert(result >> 1 == result / 2) by (bit_vector);
                assert(bit >> 2 == bit / 4) by (bit_vector);
                if k > 0 {
                    lemma_pow2_unfold(2 * k);
                    lemma_pow2_unfold((2 * k - 1) as nat);
                    lemma_pow2_unfold(k);
                } else {
                    lemma2_to64();
                }
            }
            if n >= result + bit {
                n -= result + bit;
                result = (result >> 1) + bit;
                proof {
                    p = p + b;
                }
            } else {
                result >>= 1;
            }
            bit >>= 2;
            proof {
                h = b;
                if k > 0 {
                    k = (k - 1) as nat;
                }
                assert(result == p * h) by (nonlinear_arith)
                    requires
                        result == p * b,
                        h == b,
                ;
            }
        }
        proof {
            assert(p * 1 == p) by (nonlinear_arith);
            lemma_square_below(p, 0x1_0000_0000_0000_0000);
            assert(is_isqrt(self as nat, result as nat));
            lemma_isqrt_unique(self as nat, result as nat);
        }
        result
    }
}

} // verus!
