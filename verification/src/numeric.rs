//! Fixed-point arithmetic for the relevance scorer.  Scores are carried in
//! micro units (one unit is a millionth), and the logarithm that compresses
//! lexical scores and vote counts is a piecewise-linear approximation of
//! the natural logarithm: exact at the powers of two, linear in between,
//! and monotone, which is what the scorer's ordering rests on.

use vstd::prelude::*;
use vstd::arithmetic::div_mod::{
    lemma_div_is_ordered, lemma_div_pos_is_pos, lemma_fundamental_div_mod,
    lemma_multiply_divide_lt,
};
use vstd::arithmetic::mul::lemma_mul_inequality;
use vstd::arithmetic::power2::{
    lemma2_to64, lemma2_to64_rest, lemma_pow2_pos, lemma_pow2_strictly_increases, pow2,
};

verus! {

/// The natural logarithm of two, in micro units.
pub const LN2_MICRO: u64 = 693_147;

/// Position of the leading binary digit of `z`: the floor of its base-two
/// logarithm.
pub open spec fn spec_octave(z: nat) -> nat
    decreases z,
{
    if z < 2 {
        0
    } else {
        1 + spec_octave(z / 2)
    }
}

/// Piecewise-linear approximation of `ln z` in micro units, for `z >= 1`.
pub open spec fn spec_ln_scaled(z: nat) -> int {
    let k = spec_octave(z);
    k * (LN2_MICRO as int) + (z - pow2(k)) * (LN2_MICRO as int) / (pow2(k) as int)
}

pub proof fn lemma_octave_bounds(z: nat)
    requires
        z >= 1,
    ensures
        pow2(spec_octave(z)) <= z < pow2(spec_octave(z) + 1),
    decreases z,
{
    if z < 2 {
        lemma2_to64();
    } else {
        lemma_octave_bounds(z / 2);
        let k = spec_octave(z);
        assert(k == 1 + spec_octave(z / 2));
        lemma_fundamental_div_mod(z as int, 2);
        assert(pow2(k) == 2 * pow2((k - 1) as nat)) by {
            vstd::arithmetic::power2::lemma_pow2_adds(1, (k - 1) as nat);
            lemma2_to64();
        }
        assert(pow2(k + 1) == 2 * pow2(k)) by {
            vstd::arithmetic::power2::lemma_pow2_adds(1, k);
            lemma2_to64();
        }
    }
}

pub proof fn lemma_octave_is(z: nat, k: nat)
    requires
        pow2(k) <= z < pow2(k + 1),
    ensures
        spec_octave(z) == k,
{
    lemma_pow2_pos(k);
    lemma_octave_bounds(z);
    let j = spec_octave(z);
    if j < k {
        lemma_pow2_strictly_increases(j + 1, k + 1);
        if j + 1 < k {
            lemma_pow2_strictly_increases(j + 1, k);
        }
        assert(pow2(j + 1) <= pow2(k));
    }
    if j > k {
        if k + 1 < j {
            lemma_pow2_strictly_increases(k + 1, j);
        }
        assert(pow2(k + 1) <= pow2(j));
    }
}

/// The interpolation term stays below one whole `ln 2` step.
pub proof fn lemma_ln_frac_bounds(z: nat)
    requires
        z >= 1,
    ensures
        0 <= (z - pow2(spec_octave(z))) * (LN2_MICRO as int) / (pow2(spec_octave(z)) as int)
            < LN2_MICRO,
{
    let k = spec_octave(z);
    let p = pow2(k) as int;
    let l = LN2_MICRO as int;
    lemma_octave_bounds(z);
    lemma_pow2_pos(k);
    let num = (z - p) * l;
    assert(num >= 0) by {
        lemma_mul_inequality(0, z - p, l);
    }
    lemma_div_pos_is_pos(num, p);
    assert(pow2(k + 1) == 2 * pow2(k)) by {
        vstd::arithmetic::power2::lemma_pow2_adds(1, k);
        lemma2_to64();
    }
    assert(z - p < p);
    assert(num < p * l) by {
        vstd::arithmetic::mul::lemma_mul_strict_inequality(z - p, p, l);
        vstd::arithmetic::mul::lemma_mul_is_commutative(p, l);
    }
    lemma_multiply_divide_lt(num, p, l);
}

/// The approximation never decreases as its argument grows.
pub proof fn lemma_ln_scaled_mono(z1: nat, z2: nat)
    requires
        1 <= z1 <= z2,
    ensures
        spec_ln_scaled(z1) <= spec_ln_scaled(z2),
{
    let k1 = spec_octave(z1);
    let k2 = spec_octave(z2);
    let l = LN2_MICRO as int;
    lemma_octave_bounds(z1);
    lemma_octave_bounds(z2);
    lemma_pow2_pos(k1);
    lemma_pow2_pos(k2);
    lemma_ln_frac_bounds(z1);
    lemma_ln_frac_bounds(z2);
    if k1 == k2 {
        let p = pow2(k1) as int;
        assert((z1 - p) * l <= (z2 - p) * l) by {
            lemma_mul_inequality(z1 - p, z2 - p, l);
        }
        lemma_div_is_ordered((z1 - p) * l, (z2 - p) * l, p);
    } else {
        // The octave is monotone, so k1 < k2 here, and a whole step
        // separates the two values.
        if k2 < k1 {
            if k2 + 1 < k1 {
                lemma_pow2_strictly_increases(k2 + 1, k1);
            }
            assert(pow2(k2 + 1) <= pow2(k1));
            assert(false);
        }
        assert(k1 < k2);
        assert(spec_ln_scaled(z1) < k1 * l + l == (k1 + 1) * l) by {
            vstd::arithmetic::mul::lemma_mul_is_distributive_add_other_way(l, k1 as int, 1);
        }
        assert((k1 + 1) * l <= k2 * l) by {
            lemma_mul_inequality(k1 as int + 1, k2 as int, l);
        }
        assert(k2 * l <= spec_ln_scaled(z2));
    }
}

pub proof fn lemma_ln_scaled_nonneg(z: nat)
    requires
        z >= 1,
    ensures
        spec_ln_scaled(z) >= 0,
{
    lemma_ln_frac_bounds(z);
}

/// An upper bound on the approximation from an upper bound on the octave.
pub proof fn lemma_ln_scaled_upper(z: nat, k_max: nat)
    requires
        1 <= z,
        z < pow2(k_max + 1),
    ensures
        spec_ln_scaled(z) <= (k_max + 1) * LN2_MICRO,
{
    let k = spec_octave(z);
    lemma_octave_bounds(z);
    lemma_ln_frac_bounds(z);
    if k > k_max {
        lemma_pow2_strictly_increases(k_max + 1, k + 1);
        if k_max + 1 < k {
            lemma_pow2_strictly_increases(k_max + 1, k);
        }
        assert(pow2(k_max + 1) <= pow2(k));
        assert(false);
    }
    assert(k * (LN2_MICRO as int) <= k_max * (LN2_MICRO as int)) by {
        lemma_mul_inequality(k as int, k_max as int, LN2_MICRO as int);
    }
    assert((k_max + 1) * (LN2_MICRO as int) == k_max * (LN2_MICRO as int) + LN2_MICRO) by {
        vstd::arithmetic::mul::lemma_mul_is_distributive_add_other_way(
            LN2_MICRO as int,
            k_max as int,
            1,
        );
    }
}

/// One unit step of the argument lifts the approximation by at least a
/// whole interpolation step of its octave.
pub proof fn lemma_ln_step(z: nat)
    requires
        z >= 1,
    ensures
        spec_ln_scaled(z + 1) >= spec_ln_scaled(z) + (LN2_MICRO as int) / (pow2(
            spec_octave(z),
        ) as int),
{
    let k = spec_octave(z);
    let p = pow2(k) as int;
    let l = LN2_MICRO as int;
    lemma_octave_bounds(z);
    lemma_pow2_pos(k);
    assert(pow2(k + 1) == 2 * pow2(k)) by {
        vstd::arithmetic::power2::lemma_pow2_adds(1, k);
        lemma2_to64();
    }
    assert((z - p) * l >= 0) by {
        lemma_mul_inequality(0, z - p, l);
    }
    if z + 1 < 2 * p {
        lemma_octave_is(z + 1, k);
        assert((z + 1 - p) * l == (z - p) * l + l) by (nonlinear_arith);
        lemma_div_add_ge((z - p) * l, l, p);
    } else {
        // The step crosses into the next octave, landing exactly on its
        // power of two.
        assert(z == 2 * p - 1);
        assert(pow2(k + 2) == 2 * pow2(k + 1)) by {
            vstd::arithmetic::power2::lemma_pow2_adds(1, k + 1);
            lemma2_to64();
        }
        lemma_octave_is(z + 1, k + 1);
        assert(spec_ln_scaled(z + 1) == (k + 1) * l + (z + 1 - 2 * p) * l / (2 * p));
        assert((z + 1 - 2 * p) * l == 0) by (nonlinear_arith)
            requires
                z == 2 * p - 1,
        ;
        vstd::arithmetic::div_mod::lemma_div_of0(2 * p);
        assert((z - p) * l + l == p * l) by (nonlinear_arith)
            requires
                z == 2 * p - 1,
        ;
        lemma_div_add_ge((z - p) * l, l, p);
        assert((p * l) / p == l) by {
            vstd::arithmetic::div_mod::lemma_div_multiples_vanish(l, p);
        }
        assert((k + 1) * l == k * l + l) by (nonlinear_arith);
    }
}

/// Splitting a sum before dividing can only lose: the floors of the parts
/// never exceed the floor of the whole.
pub proof fn lemma_div_add_ge(a: int, b: int, m: int)
    requires
        a >= 0,
        b >= 0,
        m > 0,
    ensures
        (a + b) / m >= a / m + b / m,
{
    let q1 = a / m;
    let q2 = b / m;
    lemma_fundamental_div_mod(a, m);
    lemma_fundamental_div_mod(b, m);
    vstd::arithmetic::div_mod::lemma_div_pos_is_pos(a, m);
    vstd::arithmetic::div_mod::lemma_div_pos_is_pos(b, m);
    assert((q1 + q2) * m <= a + b) by (nonlinear_arith)
        requires
            a == m * q1 + a % m,
            b == m * q2 + b % m,
            a % m >= 0,
            b % m >= 0,
    ;
    assert(((q1 + q2) * m) / m == q1 + q2) by {
        vstd::arithmetic::div_mod::lemma_div_multiples_vanish(q1 + q2, m);
        vstd::arithmetic::mul::lemma_mul_is_commutative(q1 + q2, m);
    }
    lemma_div_is_ordered((q1 + q2) * m, a + b, m);
}

/// Computes `spec_ln_scaled` for arguments up to two to the sixty-fifth,
/// which covers every value the scorer hands it.
#[verifier::loop_isolation(false)]
pub fn ln_scaled(z: u128) -> (r: u64)
    requires
        1 <= z <= 0x2_0000_0000_0000_0000,
    ensures
        r == spec_ln_scaled(z as nat),
        r <= 66 * LN2_MICRO,
{
    let mut k: u32 = 0;
    let mut p: u128 = 1;
    proof {
        lemma2_to64();
    }
    while p <= z / 2
        invariant
            1 <= p <= z,
            p == pow2(k as nat),
            k <= 65,
        decreases z - p,
    {
        proof {
            lemma_fundamental_div_mod(z as int, 2);
            assert(pow2((k + 1) as nat) == 2 * pow2(k as nat)) by {
                vstd::arithmetic::power2::lemma_pow2_adds(1, k as nat);
                lemma2_to64();
            }
            if k + 1 > 65 {
                assert(pow2(66) == 0x4_0000_0000_0000_0000) by {
                    vstd::arithmetic::power2::lemma_pow2_adds(2, 64);
                    lemma2_to64();
                    lemma2_to64_rest();
                }
                assert(2 * p >= pow2(66));
            }
        }
        p = p * 2;
        k = k + 1;
    }
    proof {
        lemma_fundamental_div_mod(z as int, 2);
        assert(pow2((k + 1) as nat) == 2 * pow2(k as nat)) by {
            vstd::arithmetic::power2::lemma_pow2_adds(1, k as nat);
            lemma2_to64();
        }
        assert(z < 2 * p);
        lemma_octave_is(z as nat, k as nat);
        lemma_ln_frac_bounds(z as nat);
        lemma_pow2_pos(k as nat);
    }
    let num = (z - p) * (LN2_MICRO as u128);
    proof {
        assert((z - p) * (LN2_MICRO as u128) == (z - p) as int * (LN2_MICRO as int)) by (nonlinear_arith);
        assert((z - p) as int * (LN2_MICRO as int) <= 0x2_0000_0000_0000_0000 * (LN2_MICRO as int))
            by {
            lemma_mul_inequality((z - p) as int, 0x2_0000_0000_0000_0000, LN2_MICRO as int);
        }
    }
    let frac = num / p;
    let r = (k as u64) * LN2_MICRO + (frac as u64);
    proof {
        assert(k as int * (LN2_MICRO as int) <= 65 * (LN2_MICRO as int)) by {
            lemma_mul_inequality(k as int, 65, LN2_MICRO as int);
        }
    }
    r
}

} // verus!
