//! Bit-level facts about 16-bit rank sets (holdings).
use vstd::prelude::*;

verus! {

/// Whether bit `i` of `x` is set.
pub open spec fn bit(x: u16, i: nat) -> bool {
    i < 16 && (x >> i as u16) & 1u16 == 1u16
}

/// The number of set bits of `x` among bits `0..n`.
pub open spec fn ones_below(x: u16, n: nat) -> nat
    decreases n,
{
    if n == 0 {
        0
    } else {
        ones_below(x, (n - 1) as nat) + if bit(x, (n - 1) as nat) {
            1nat
        } else {
            0nat
        }
    }
}

/// The number of set bits of `x`.
pub open spec fn popcount(x: u16) -> nat {
    ones_below(x, 16)
}

/// Bits of `x | y` are the union of the bits.
pub proof fn lemma_bit_or(x: u16, y: u16, i: nat)
    requires
        i < 16,
    ensures
        bit(x | y, i) == (bit(x, i) || bit(y, i)),
{
    let s = i as u16;
    assert(((x | y) >> s) & 1u16 == 1u16 <==> ((x >> s) & 1u16 == 1u16 || (y >> s) & 1u16 == 1u16))
        by (bit_vector);
}

/// Bits of `x & y` are the intersection of the bits.
pub proof fn lemma_bit_and(x: u16, y: u16, i: nat)
    requires
        i < 16,
    ensures
        bit(x & y, i) == (bit(x, i) && bit(y, i)),
{
    let s = i as u16;
    assert(((x & y) >> s) & 1u16 == 1u16 <==> ((x >> s) & 1u16 == 1u16 && (y >> s) & 1u16 == 1u16))
        by (bit_vector);
}

/// Bits of `x ^ y` are the symmetric difference of the bits.
pub proof fn lemma_bit_xor(x: u16, y: u16, i: nat)
    requires
        i < 16,
    ensures
        bit(x ^ y, i) == (bit(x, i) != bit(y, i)),
{
    let s = i as u16;
    assert(((x ^ y) >> s) & 1u16 == 1u16 <==> ((x >> s) & 1u16 == 1u16) != ((y >> s) & 1u16
        == 1u16)) by (bit_vector);
}

/// Bits of `!x` are the complement.
pub proof fn lemma_bit_not(x: u16, i: nat)
    requires
        i < 16,
    ensures
        bit(!x, i) == !bit(x, i),
{
    let s = i as u16;
    assert(((!x) >> s) & 1u16 == 1u16 <==> !((x >> s) & 1u16 == 1u16)) by (bit_vector)
        requires
            s < 16,
    ;
}

/// The single bit `1 << r`.
pub proof fn lemma_bit_single(r: nat, i: nat)
    requires
        r < 16,
        i < 16,
    ensures
        bit((1u16 << r as u16) as u16, i) == (i == r),
{
    let s = i as u16;
    let t = r as u16;
    assert(t < 16 && s < 16 ==> ((((1u16 << t) as u16) >> s) & 1u16 == 1u16 <==> s == t))
        by (bit_vector);
}

/// Two holdings are equal exactly when all their bits are.
pub proof fn lemma_bits_ext(x: u16, y: u16)
    requires
        forall|i: nat| i < 16 ==> bit(x, i) == bit(y, i),
    ensures
        x == y,
{
    assert(bit(x, 0) == bit(y, 0));
    assert(bit(x, 1) == bit(y, 1));
    assert(bit(x, 2) == bit(y, 2));
    assert(bit(x, 3) == bit(y, 3));
    assert(bit(x, 4) == bit(y, 4));
    assert(bit(x, 5) == bit(y, 5));
    assert(bit(x, 6) == bit(y, 6));
    assert(bit(x, 7) == bit(y, 7));
    assert(bit(x, 8) == bit(y, 8));
    assert(bit(x, 9) == bit(y, 9));
    assert(bit(x, 10) == bit(y, 10));
    assert(bit(x, 11) == bit(y, 11));
    assert(bit(x, 12) == bit(y, 12));
    assert(bit(x, 13) == bit(y, 13));
    assert(bit(x, 14) == bit(y, 14));
    assert(bit(x, 15) == bit(y, 15));
    assert(
        ((x >> 0u16) & 1u16 == 1u16) == ((y >> 0u16) & 1u16 == 1u16)
        && ((x >> 1u16) & 1u16 == 1u16) == ((y >> 1u16) & 1u16 == 1u16)
        && ((x >> 2u16) & 1u16 == 1u16) == ((y >> 2u16) & 1u16 == 1u16)
        && ((x >> 3u16) & 1u16 == 1u16) == ((y >> 3u16) & 1u16 == 1u16)
        && ((x >> 4u16) & 1u16 == 1u16) == ((y >> 4u16) & 1u16 == 1u16)
        && ((x >> 5u16) & 1u16 == 1u16) == ((y >> 5u16) & 1u16 == 1u16)
        && ((x >> 6u16) & 1u16 == 1u16) == ((y >> 6u16) & 1u16 == 1u16)
        && ((x >> 7u16) & 1u16 == 1u16) == ((y >> 7u16) & 1u16 == 1u16)
        && ((x >> 8u16) & 1u16 == 1u16) == ((y >> 8u16) & 1u16 == 1u16)
        && ((x >> 9u16) & 1u16 == 1u16) == ((y >> 9u16) & 1u16 == 1u16)
        && ((x >> 10u16) & 1u16 == 1u16) == ((y >> 10u16) & 1u16 == 1u16)
        && ((x >> 11u16) & 1u16 == 1u16) == ((y >> 11u16) & 1u16 == 1u16)
        && ((x >> 12u16) & 1u16 == 1u16) == ((y >> 12u16) & 1u16 == 1u16)
        && ((x >> 13u16) & 1u16 == 1u16) == ((y >> 13u16) & 1u16 == 1u16)
        && ((x >> 14u16) & 1u16 == 1u16) == ((y >> 14u16) & 1u16 == 1u16)
        && ((x >> 15u16) & 1u16 == 1u16) == ((y >> 15u16) & 1u16 == 1u16)
    );
    assert(
        (((x >> 0u16) & 1u16 == 1u16) == ((y >> 0u16) & 1u16 == 1u16)
        && ((x >> 1u16) & 1u16 == 1u16) == ((y >> 1u16) & 1u16 == 1u16)
        && ((x >> 2u16) & 1u16 == 1u16) == ((y >> 2u16) & 1u16 == 1u16)
        && ((x >> 3u16) & 1u16 == 1u16) == ((y >> 3u16) & 1u16 == 1u16)
        && ((x >> 4u16) & 1u16 == 1u16) == ((y >> 4u16) & 1u16 == 1u16)
        && ((x >> 5u16) & 1u16 == 1u16) == ((y >> 5u16) & 1u16 == 1u16)
        && ((x >> 6u16) & 1u16 == 1u16) == ((y >> 6u16) & 1u16 == 1u16)
        && ((x >> 7u16) & 1u16 == 1u16) == ((y >> 7u16) & 1u16 == 1u16)
        && ((x >> 8u16) & 1u16 == 1u16) == ((y >> 8u16) & 1u16 == 1u16)
        && ((x >> 9u16) & 1u16 == 1u16) == ((y >> 9u16) & 1u16 == 1u16)
        && ((x >> 10u16) & 1u16 == 1u16) == ((y >> 10u16) & 1u16 == 1u16)
        && ((x >> 11u16) & 1u16 == 1u16) == ((y >> 11u16) & 1u16 == 1u16)
        && ((x >> 12u16) & 1u16 == 1u16) == ((y >> 12u16) & 1u16 == 1u16)
        && ((x >> 13u16) & 1u16 == 1u16) == ((y >> 13u16) & 1u16 == 1u16)
        && ((x >> 14u16) & 1u16 == 1u16) == ((y >> 14u16) & 1u16 == 1u16)
        && ((x >> 15u16) & 1u16 == 1u16) == ((y >> 15u16) & 1u16 == 1u16)) ==> x == y
    ) by (bit_vector);
}

/// A holding is empty exactly when none of its bits is set.
pub proof fn lemma_zero_iff_no_bits(x: u16)
    ensures
        x == 0 <==> forall|i: nat| i < 16 ==> !bit(x, i),
{
    if forall|i: nat| i < 16 ==> !bit(x, i) {
        assert forall|i: nat| i < 16 implies bit(x, i) == bit(0u16, i) by {
            let s = i as u16;
            assert((0u16 >> s) & 1u16 == 0u16) by (bit_vector);
        }
        lemma_bits_ext(x, 0u16);
    }
    if x == 0 {
        assert forall|i: nat| i < 16 implies !bit(x, i) by {
            let s = i as u16;
            assert((0u16 >> s) & 1u16 == 0u16) by (bit_vector);
        }
    }
}

/// Number of set bits, computed bit by bit.
pub fn count_ones16(x: u16) -> (r: u32)
    ensures
        r == popcount(x),
        r <= 16,
{
    let mut n: u32 = 0;
    let mut i: u16 = 0;
    while i < 16
        invariant
            i <= 16,
            n == ones_below(x, i as nat),
            n <= i,
        decreases 16 - i,
    {
        if (x >> i) & 1 == 1 {
            n = n + 1;
        }
        i = i + 1;
    }
    n
}

} // verus!

verus! {

/// The empty holding has no set bits.
pub proof fn lemma_popcount_zero()
    ensures
        popcount(0u16) == 0,
{
    assert forall|i: nat| i < 16 implies !bit(0u16, i) by {
        lemma_zero_iff_no_bits(0u16);
    }
    assert(ones_below(0u16, 16) == 0) by {
        reveal_with_fuel(ones_below, 17);
    }
}

} // verus!
