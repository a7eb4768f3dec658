//! Integer powers in 64 bits.

use vstd::prelude::*;
use vstd::arithmetic::div_mod::lemma_mul_mod_noop_general;
use vstd::arithmetic::power::{
    lemma_pow0, lemma_pow1, lemma_pow_adds, lemma_pow_mod_noop, lemma_pow_multiplies,
    lemma_square_is_pow2, pow,
};

verus! {

/// Two to the power of 64: the number of 64-bit integers.
pub open spec fn range() -> int {
    0x1_0000_0000_0000_0000
}

/// The 64-bit integer that differs from `n` by a multiple of two to the power of 64:
/// what is left of `n` when only its low 64 bits are kept.
pub open spec fn wrapped(n: int) -> i64 {
    let low = n % range();
    if low > i64::MAX {
        (low - range()) as i64
    } else {
        low as i64
    }
}

/// Two products are congruent if their factors are.
proof fn lemma_congruent_products(a: int, b: int, c: int, d: int)
    requires
        a % range() == c % range(),
        b % range() == d % range(),
    ensures
        (a * b) % range() == (c * d) % range(),
{
    lemma_mul_mod_noop_general(a, b, range());
    lemma_mul_mod_noop_general(c, d, range());
}

/// `base` to the power of `exponent`, wrapped around at the boundary of the 64-bit
/// integers.
pub fn wrapping_power(base: i64, exponent: u32) -> (power: i64)
    ensures
        power == wrapped(pow(base as int, exponent as nat)),
{
    let mut result: i64 = 1;
    let mut square: i64 = base;
    let mut left: u32 = exponent;
    while left > 0
        invariant
            (result * pow(square as int, left as nat)) % range() == pow(
                base as int,
                exponent as nat,
            ) % range(),
        decreases left,
    {
        let ghost half = (left / 2) as nat;
        let ghost twice = square * square;
        let ghost before = result * pow(square as int, left as nat);
        proof {
            // square^left == (square * square)^half * square^(left % 2)
            lemma_pow_adds(square as int, 2 * half, (left % 2) as nat);
            lemma_pow_multiplies(square as int, 2, half);
            lemma_square_is_pow2(square as int);
            lemma_pow1(square as int);
            // the squares agree once wrapped
            lemma_pow_mod_noop(twice, half, range());
            lemma_pow_mod_noop(wrapped(twice) as int, half, range());
        }
        if left % 2 == 1 {
            proof {
                lemma_congruent_products(
                    wrapped(result * square) as int,
                    pow(wrapped(twice) as int, half),
                    result * square,
                    pow(twice, half),
                );
                assert((result * square) * pow(twice, half) == before) by (nonlinear_arith)
                    requires
                        before == result * (pow(twice, half) * square),
                ;
            }
            result = result.wrapping_mul(square);
        } else {
            proof {
                lemma_congruent_products(
                    result as int,
                    pow(wrapped(twice) as int, half),
                    result as int,
                    pow(twice, half),
                );
            }
        }
        square = square.wrapping_mul(square);
        left = left / 2;
    }
    proof {
        lemma_pow0(square as int);
    }
    result
}

} // verus!
