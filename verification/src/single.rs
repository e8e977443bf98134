//! Single precision numbers by their bits: their order, the whole number that one
//! is cut to, and the halves from 1.0 to 10.0.

use vstd::arithmetic::power2::pow2;
use vstd::prelude::*;

verus! {

/// The sign bit.
pub const SIGN: u32 = 0x8000_0000;

/// The bits of positive infinity. What lies above, the sign apart, is no number.
pub const INFINITY: u32 = 0x7f80_0000;

/// The weight of the exponent.
pub const EXPONENT: u32 = 0x80_0000;

/// The bits without the sign.
pub open spec fn magnitude(bits: u32) -> u32 {
    if bits >= SIGN {
        (bits - SIGN) as u32
    } else {
        bits
    }
}

/// Whether the bits stand for no number.
pub open spec fn is_nan(bits: u32) -> bool {
    magnitude(bits) > INFINITY
}

/// The place of a number in the order of all: bits without a sign are in order,
/// those with the sign in the reverse order, and both zeros are in one place.
pub open spec fn rank(bits: u32) -> int {
    if bits >= SIGN {
        -(magnitude(bits) as int)
    } else {
        bits as int
    }
}

/// Whether the number `a` is less than the number `b`.
pub open spec fn less(a: u32, b: u32) -> bool {
    !is_nan(a) && !is_nan(b) && rank(a) < rank(b)
}

/// Compares two numbers by their bits.
pub fn is_less(a: u32, b: u32) -> (r: bool)
    ensures
        r == less(a, b),
{
    let (neg_a, mag_a): (bool, u32) = split_sign(a);
    let (neg_b, mag_b): (bool, u32) = split_sign(b);
    if mag_a > INFINITY || mag_b > INFINITY {
        false
    } else if neg_a {
        if neg_b {
            mag_b < mag_a
        } else {
            mag_a != 0 || mag_b != 0
        }
    } else {
        !neg_b && mag_a < mag_b
    }
}

fn split_sign(bits: u32) -> (r: (bool, u32))
    ensures
        r.0 == (bits >= SIGN),
        r.1 == magnitude(bits),
{
    if bits >= SIGN {
        (true, bits - SIGN)
    } else {
        (false, bits)
    }
}

/// The significand of a positive number, with its leading one.
pub open spec fn significand(bits: u32) -> nat {
    (EXPONENT + bits % EXPONENT) as nat
}

/// The whole part of a positive number: the significand is worth one at an
/// exponent of 150.
pub open spec fn whole_part(bits: u32) -> nat {
    let e = (bits / EXPONENT) as nat;
    if e >= 150 {
        significand(bits) * pow2((e - 150) as nat)
    } else {
        significand(bits) / pow2((150 - e) as nat)
    }
}

/// The number cut to a whole number that fits: nothing for a negative number or
/// none at all, and the largest for what is too large.
pub open spec fn truncated(bits: u32) -> u64 {
    if bits >= SIGN || bits > INFINITY {
        0
    } else if whole_part(bits) > u64::MAX {
        u64::MAX
    } else {
        whole_part(bits) as u64
    }
}

/// Cuts a number to a whole number.
pub fn truncate(bits: u32) -> (r: u64)
    ensures
        r == truncated(bits),
{
    if bits > INFINITY {
        return 0;
    }
    let e: u32 = bits / EXPONENT;
    let m: u64 = (EXPONENT + bits % EXPONENT) as u64;
    proof {
        lemma_powers();
    }
    if e >= 191 {
        // at least 2^23 * 2^41
        proof {
            let k = (e - 150) as nat;
            if k > 41 {
                vstd::arithmetic::power2::lemma_pow2_strictly_increases(41, k);
            }
            assert(m * pow2(k) >= EXPONENT * pow2(41)) by (nonlinear_arith)
                requires
                    m >= EXPONENT,
                    pow2(k) >= pow2(41),
                    pow2(41) >= 0,
            ;
        }
        u64::MAX
    } else if e >= 150 {
        let k: u64 = (e - 150) as u64;
        proof {
            if k < 40 {
                vstd::arithmetic::power2::lemma_pow2_strictly_increases(k as nat, 40);
            }
            assert(m * pow2(k as nat) <= (2 * EXPONENT - 1) * pow2(40)) by (nonlinear_arith)
                requires
                    m <= 2 * EXPONENT - 1,
                    0 <= pow2(k as nat) <= pow2(40),
            ;
            vstd::bits::lemma_u64_shl_is_mul(m, k);
        }
        m << k
    } else if e > 126 {
        let k: u64 = (150 - e) as u64;
        proof {
            vstd::bits::lemma_u64_shr_is_div(m, k);
        }
        m >> k
    } else {
        // less than 2^24 / 2^24
        proof {
            let k = (150 - e) as nat;
            if k > 24 {
                vstd::arithmetic::power2::lemma_pow2_strictly_increases(24, k);
            }
            assert(m < pow2(k));
            vstd::arithmetic::div_mod::lemma_basic_div(m as int, pow2(k) as int);
        }
        0
    }
}

/// The bits of `k` halves, for `k` from 2 to 20.
pub open spec fn half_bits(k: int) -> u32 {
    if k < 4 {
        (0x3f80_0000 + (k - 2) * 0x40_0000) as u32
    } else if k < 8 {
        (0x4000_0000 + (k - 4) * 0x20_0000) as u32
    } else if k < 16 {
        (0x4080_0000 + (k - 8) * 0x10_0000) as u32
    } else {
        (0x4100_0000 + (k - 16) * 0x8_0000) as u32
    }
}

/// Whether the positive number is `k` halves: its significand, at its exponent,
/// is worth as much.
pub open spec fn is_halves(bits: u32, k: int) -> bool {
    let e = (bits / EXPONENT) as nat;
    &&& bits < INFINITY
    &&& 0 < e < 150
    &&& 2 * significand(bits) == k * pow2((150 - e) as nat)
}

/// How many halves the number is, if that is a number from 2 to 20, or else zero.
pub open spec fn halves(bits: u32) -> int {
    if exists|k: int| 2 <= k <= 20 && #[trigger] half_bits(k) == bits {
        choose|k: int| 2 <= k <= 20 && #[trigger] half_bits(k) == bits
    } else {
        0
    }
}

/// Different numbers of halves have different bits.
proof fn lemma_halves_of(k: int)
    requires
        2 <= k <= 20,
    ensures
        halves(half_bits(k)) == k,
{
    let bits = half_bits(k);
    let found = choose|j: int| 2 <= j <= 20 && #[trigger] half_bits(j) == bits;
    assert(2 <= found <= 20 && half_bits(found) == bits);
}

/// Counts the halves of a number from 1.0 to 10.0.
pub fn count_halves(bits: u32) -> (r: u32)
    ensures
        r == halves(bits),
        r == 0 || (2 <= r <= 20 && half_bits(r as int) == bits),
{
    let mut k: u32 = 2;
    while k <= 20
        invariant
            2 <= k <= 21,
            forall|j: int| 2 <= j < k ==> #[trigger] half_bits(j) != bits,
        decreases 21 - k,
    {
        if bits_of_halves(k) == bits {
            proof {
                lemma_halves_of(k as int);
            }
            return k;
        }
        k = k + 1;
    }
    0
}

/// The number that is `k` halves.
pub fn bits_of_halves(k: u32) -> (r: u32)
    requires
        2 <= k <= 20,
    ensures
        r == half_bits(k as int),
{
    if k < 4 {
        0x3f80_0000 + (k - 2) * 0x40_0000
    } else if k < 8 {
        0x4000_0000 + (k - 4) * 0x20_0000
    } else if k < 16 {
        0x4080_0000 + (k - 8) * 0x10_0000
    } else {
        0x4100_0000 + (k - 16) * 0x8_0000
    }
}

/// The bits of so many halves are those of the number with that value, and of no
/// other, and they are ordered as the values are.
pub proof fn law_half_bits_have_their_value(k: int, j: int, bits: u32)
    requires
        2 <= k <= 20,
        2 <= j <= 20,
    ensures
        is_halves(half_bits(k), k),
        is_halves(bits, k) ==> bits == half_bits(k),
        halves(half_bits(k)) == k,
        less(half_bits(k), half_bits(j)) <==> k < j,
{
    lemma_halves_of(k);
    vstd::arithmetic::power2::lemma2_to64();
    assert(is_halves(half_bits(k), k)) by {
        lemma_half_value(k);
    }
    if is_halves(bits, k) {
        let e = (bits / EXPONENT) as nat;
        let m = significand(bits);
        assert(EXPONENT <= m < 2 * EXPONENT);
        lemma_exponent_of(k, e, m);
    }
}

/// The exponent and the significand follow from the value.
proof fn lemma_exponent_of(k: int, e: nat, m: nat)
    requires
        2 <= k <= 20,
        0 < e < 150,
        EXPONENT <= m < 2 * EXPONENT,
        2 * m == k * pow2((150 - e) as nat),
    ensures
        e == (if k < 4 {
            127int
        } else if k < 8 {
            128
        } else if k < 16 {
            129
        } else {
            130
        }),
        m == k * pow2((149 - e) as nat),
{
    vstd::arithmetic::power2::lemma2_to64();
    let n = (150 - e) as nat;
    let p = pow2(n);
    vstd::arithmetic::power2::lemma_pow2_pos(n);
    if n > 23 {
        vstd::arithmetic::power2::lemma_pow2_strictly_increases(23, n);
        vstd::arithmetic::power2::lemma_pow2_unfold(n);
        if n > 24 {
            vstd::arithmetic::power2::lemma_pow2_strictly_increases(24, n);
        }
        assert(k * p >= 2 * p) by (nonlinear_arith)
            requires
                k >= 2,
                p >= 0,
        ;
        assert(p >= 2 * pow2(23));
        assert(2 * p >= 4 * EXPONENT);
    } else if n < 20 {
        vstd::arithmetic::power2::lemma_pow2_strictly_increases(n, 20);
        assert(k * p <= 20 * p) by (nonlinear_arith)
            requires
                k <= 20,
                p >= 0,
        ;
        vstd::arithmetic::power2::lemma_pow2_unfold(20);
        if n < 19 {
            vstd::arithmetic::power2::lemma_pow2_strictly_increases(n, 19);
        }
        assert(20 * p <= 20 * 0x8_0000);
        assert(k * p < 2 * EXPONENT);
    } else {
        assert(n == 20 || n == 21 || n == 22 || n == 23);
    }
}

proof fn lemma_half_value(k: int)
    requires
        2 <= k <= 20,
    ensures
        is_halves(half_bits(k), k),
{
    vstd::arithmetic::power2::lemma2_to64();
    let bits = half_bits(k);
    if k < 4 {
        assert(bits / EXPONENT == 127);
        assert(pow2(23) == 0x80_0000);
        assert(2 * significand(bits) == k * 0x80_0000);
    } else if k < 8 {
        assert(bits / EXPONENT == 128);
        assert(pow2(22) == 0x40_0000);
        assert(2 * significand(bits) == k * 0x40_0000);
    } else if k < 16 {
        assert(bits / EXPONENT == 129);
        assert(pow2(21) == 0x20_0000);
        assert(2 * significand(bits) == k * 0x20_0000);
    } else {
        assert(bits / EXPONENT == 130);
        assert(pow2(20) == 0x10_0000);
        assert(2 * significand(bits) == k * 0x10_0000);
    }
}

proof fn lemma_powers()
    ensures
        pow2(24) == 0x100_0000,
        pow2(40) == 0x100_0000_0000,
        pow2(41) == 0x200_0000_0000,
{
    vstd::arithmetic::power2::lemma2_to64();
    vstd::arithmetic::power2::lemma2_to64_rest();
}

} // verus!
