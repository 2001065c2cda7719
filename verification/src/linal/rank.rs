use vstd::arithmetic::power2::{lemma_pow2_pos, lemma_pow2_strictly_increases, lemma_pow2_unfold, pow2};
use vstd::prelude::*;

verus! {

/// The sign bit of a single-precision pattern.
pub const SIGN_BIT: u32 = 0x8000_0000;

/// What is left of a single-precision pattern without its sign bit: exponent
/// and fraction, which grow with the size of the number.
pub open spec fn magnitude(bits: u32) -> int {
    if bits < SIGN_BIT {
        bits as int
    } else {
        bits - SIGN_BIT
    }
}

/// Whether the pattern has its sign bit set.
pub open spec fn is_negative(bits: u32) -> bool {
    bits >= SIGN_BIT
}

/// The rank of a single-precision pattern: its magnitude, counted downward
/// from zero where the sign bit is set. Both zeros have rank zero.
pub open spec fn rank(bits: u32) -> int {
    if is_negative(bits) {
        -magnitude(bits)
    } else {
        magnitude(bits)
    }
}

/// The exponent field of a single-precision pattern.
pub open spec fn exponent(bits: u32) -> int {
    magnitude(bits) / 0x80_0000
}

/// The fraction field of a single-precision pattern.
pub open spec fn fraction(bits: u32) -> int {
    magnitude(bits) % 0x80_0000
}

/// The size of the number that a pattern stands for, in units of two to the
/// minus 149, the smallest step there is. The formula of the finite numbers
/// is carried on into the all-ones exponent, so that infinity has a size
/// beyond every finite one.
pub open spec fn size(bits: u32) -> int {
    if exponent(bits) == 0 {
        fraction(bits)
    } else {
        (0x80_0000 + fraction(bits)) * pow2((exponent(bits) - 1) as nat)
    }
}

/// The number that a pattern stands for, in units of two to the minus 149.
pub open spec fn scaled_value(bits: u32) -> int {
    if is_negative(bits) {
        -size(bits)
    } else {
        size(bits)
    }
}

/// Of two patterns the one with the smaller magnitude stands for the number
/// of the smaller size.
proof fn lemma_size_grows(a: u32, b: u32)
    requires
        magnitude(a) < magnitude(b),
    ensures
        0 <= size(a) < size(b),
{
    let (ea, fa) = (exponent(a), fraction(a));
    let (eb, fb) = (exponent(b), fraction(b));
    assert(0 <= ea <= eb <= 0xFF);
    assert(0 <= fa < 0x80_0000 && 0 <= fb < 0x80_0000);
    if ea > 0 {
        lemma_pow2_pos((ea - 1) as nat);
        assert(0 <= (0x80_0000 + fa) * pow2((ea - 1) as nat)) by (nonlinear_arith)
            requires
                0 <= fa,
                0 < pow2((ea - 1) as nat),
        ;
    }
    if ea == eb {
        assert(fa < fb);
        if ea > 0 {
            let p = pow2((ea - 1) as nat);
            assert((0x80_0000 + fa) * p < (0x80_0000 + fb) * p) by (nonlinear_arith)
                requires
                    fa < fb,
                    0 < p,
            ;
        }
    } else {
        let q = pow2((eb - 1) as nat);
        lemma_pow2_pos((eb - 1) as nat);
        assert(0x80_0000 * q <= (0x80_0000 + fb) * q) by (nonlinear_arith)
            requires
                0 <= fb,
                0 < q,
        ;
        if ea == 0 {
            assert(0x80_0000 <= 0x80_0000 * q) by (nonlinear_arith)
                requires
                    1 <= q,
            ;
        } else {
            let p = pow2((ea - 1) as nat);
            lemma_pow2_unfold(ea as nat);
            assert(pow2(ea as nat) == 2 * p);
            if ea < eb - 1 {
                lemma_pow2_strictly_increases(ea as nat, (eb - 1) as nat);
            }
            assert(pow2(ea as nat) <= q);
            assert((0x80_0000 + fa) * p < 0x80_0000 * (2 * p)) by (nonlinear_arith)
                requires
                    fa < 0x80_0000,
                    0 < p,
            ;
            assert(0x80_0000 * (2 * p) <= 0x80_0000 * q) by (nonlinear_arith)
                requires
                    2 * p <= q,
            ;
        }
    }
}

/// Rank orders patterns as the numbers they stand for are ordered: a
/// smaller rank is a smaller number, and an equal rank an equal number.
pub proof fn lemma_rank_orders_numbers(a: u32, b: u32)
    ensures
        rank(a) < rank(b) <==> scaled_value(a) < scaled_value(b),
        rank(a) == rank(b) <==> scaled_value(a) == scaled_value(b),
{
    if magnitude(a) < magnitude(b) {
        lemma_size_grows(a, b);
    } else if magnitude(b) < magnitude(a) {
        lemma_size_grows(b, a);
    } else {
        assert(size(a) == size(b));
    }
    lemma_size_sign(a);
    lemma_size_sign(b);
}

/// A size is never negative, and is zero for the two zeros only.
proof fn lemma_size_sign(a: u32)
    ensures
        size(a) >= 0,
        size(a) == 0 <==> magnitude(a) == 0,
{
    if exponent(a) > 0 {
        let p = pow2((exponent(a) - 1) as nat);
        lemma_pow2_pos((exponent(a) - 1) as nat);
        assert((0x80_0000 + fraction(a)) * p > 0) by (nonlinear_arith)
            requires
                0 <= fraction(a),
                0 < p,
        ;
    }
}

/// The rank of a single-precision bit pattern, for ordering numbers by
/// integers.
pub fn rank_of_bits(bits: u32) -> (r: i32)
    ensures
        r == rank(bits),
        -0x7FFF_FFFF <= r <= 0x7FFF_FFFF,
{
    if bits < SIGN_BIT {
        bits as i32
    } else {
        -((bits - SIGN_BIT) as i32)
    }
}

} // verus!
