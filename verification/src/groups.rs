//! What the group decomposition of a rank set says of its cards: the top
//! rank of every group is in the set, and there are no more groups than
//! cards.
use vstd::prelude::*;
use vstd::arithmetic::power2::{pow2, lemma_pow2_unfold, lemma_pow2_pos, lemma_pow2_adds, lemma_pow2_strictly_increases};
use vstd::arithmetic::div_mod::{lemma_hoist_over_denominator, lemma_mod_multiples_vanish, lemma_basic_div, lemma_fundamental_div_mod};
use crate::bits::{bit, ones_below, popcount};
use crate::lookup::{group_data, top_index, has_rank, lemma_group_bounds};

verus! {

/// Whether bit `i` of the number `x` is set.
pub open spec fn nbit(x: nat, i: nat) -> bool {
    (x / pow2(i)) % 2 == 1
}

/// A bit of a holding, read through division.
pub proof fn lemma_bit_div(x: u16, i: nat)
    requires
        i < 16,
    ensures
        bit(x, i) == nbit(x as nat, i),
{
    vstd::bits::lemma_u16_shr_is_div(x, i as u16);
    let y = x >> (i as u16);
    assert(y & 1u16 == 1u16 <==> y % 2 == 1) by (bit_vector);
}

/// Taking the top power of two `2^k` off `x` clears bit `k` and keeps
/// every other bit; no bit above `k` is set.
pub proof fn lemma_drop_top(x: nat, k: nat, i: nat)
    requires
        pow2(k) <= x < pow2(k + 1),
    ensures
        nbit((x - pow2(k)) as nat, i) == (nbit(x, i) && i != k),
        i >= k ==> (nbit(x, i) <==> i == k),
{
    let y = (x - pow2(k)) as nat;
    lemma_pow2_pos(i);
    lemma_pow2_pos(k);
    lemma_pow2_unfold(k + 1);
    if i < k {
        let d = (k - i) as nat;
        lemma_pow2_adds(i, d);
        assert(i + d == k);
        lemma_pow2_unfold(d);
        lemma_hoist_over_denominator(y as int, pow2(d) as int, pow2(i));
        assert(x as int == y as int + pow2(d) * pow2(i)) by (nonlinear_arith)
            requires
                x == y + pow2(k),
                pow2(k) == pow2(i) * pow2(d),
        ;
        let q = y as int / pow2(i) as int;
        assert(x as int / pow2(i) as int == q + pow2(d));
        lemma_mod_multiples_vanish(pow2((d - 1) as nat) as int, q, 2);
        assert(q + pow2(d) == 2 * pow2((d - 1) as nat) + q);
    } else if i == k {
        lemma_basic_div(y as int, pow2(k) as int);
        lemma_fundamental_div_mod(x as int, pow2(k) as int);
        let q = x as int / pow2(k) as int;
        let r = x as int % pow2(k) as int;
        assert(0 <= r < pow2(k)) by {
            vstd::arithmetic::div_mod::lemma_mod_bound(x as int, pow2(k) as int);
        }
        assert(q == 1) by (nonlinear_arith)
            requires
                x == pow2(k) * q + r,
                0 <= r < pow2(k),
                pow2(k) <= x < 2 * pow2(k),
        ;
    } else {
        if i > k + 1 {
            lemma_pow2_strictly_increases(k + 1, i);
        }
        lemma_basic_div(y as int, pow2(i) as int);
        lemma_basic_div(x as int, pow2(i) as int);
    }
}

/// A number below `2^k` has no bit at `k` or above.
pub proof fn lemma_no_high_bit(x: nat, k: nat, i: nat)
    requires
        x < pow2(k),
        i >= k,
    ensures
        !nbit(x, i),
{
    if i > k {
        lemma_pow2_strictly_increases(k, i);
    }
    lemma_basic_div(x as int, pow2(i) as int);
}

/// Two holdings that differ only in bit `k`, set in `a`, differ by one in
/// their counts of bits below `n` when `k < n`.
pub proof fn lemma_ones_one_more(a: u16, b: u16, k: nat, n: nat)
    requires
        k < 16,
        n <= 16,
        bit(a, k),
        !bit(b, k),
        forall|i: nat| i < 16 && i != k ==> #[trigger] bit(a, i) == bit(b, i),
    ensures
        ones_below(a, n) == ones_below(b, n) + if k < n { 1nat } else { 0nat },
    decreases n,
{
    if n > 0 {
        lemma_ones_one_more(a, b, k, (n - 1) as nat);
    }
}

/// Every group of a rank set has its top rank in the set, and the highest
/// group's top rank is the set's top rank.
pub proof fn lemma_group_held(ris: nat)
    requires
        ris < 8192,
    ensures
        forall|g: int| 0 <= g <= group_data(ris).0 ==> 2 <= #[trigger] group_data(ris).1[g]
            && nbit(ris, (group_data(ris).1[g] - 2) as nat),
        ris > 0 ==> group_data(ris).1[group_data(ris).0] == top_index(ris) + 2,
    decreases ris,
{
    lemma_group_bounds(ris);
    if ris > 0 {
        let k = top_index(ris);
        crate::lookup::lemma_top_index_range(ris);
        let tb = pow2(k);
        let y = (ris - tb) as nat;
        lemma_pow2_pos(k);
        lemma_group_bounds(y);
        lemma_group_held(y);
        let prev = group_data(y);
        let gd = group_data(ris);
        assert(k <= 12) by {
            vstd::arithmetic::power2::lemma2_to64();
            if k > 13 {
                lemma_pow2_strictly_increases(13, k);
            }
        }
        lemma_pow2_unfold(k + 1);
        if y > 0 {
            crate::lookup::lemma_top_index_below(y, k);
        }
        // every group of `y` lies below bit `k`, so it is a group of `ris` too
        assert forall|g: int| 0 <= g <= prev.0 implies nbit(ris, (prev.1[g] - 2) as nat) by {
            lemma_drop_top(ris, k, (prev.1[g] - 2) as nat);
        }
        if k >= 1 && nbit(ris, (k - 1) as nat) {
            lemma_drop_top(ris, k, (k - 1) as nat);
            assert(y > 0) by {
                if y == 0 {
                    lemma_pow2_pos((k - 1) as nat);
                }
            }
            crate::lookup::lemma_top_index_range(y);
            let ky = top_index(y);
            if ky < k - 1 {
                lemma_no_high_bit(y, ky + 1, (k - 1) as nat);
            }
            assert(ky == k - 1);
            lemma_drop_top(ris, k, k);
            assert((ris / pow2((k - 1) as nat)) % 2 == 1);
            assert(gd.1[gd.0] == k + 2);
        } else {
            lemma_drop_top(ris, k, k);
            assert(!(k >= 1 && (ris / pow2((k - 1) as nat)) % 2 == 1));
        }
    }
}

/// The sequences and full sequences of a decomposition are rank sets.
pub proof fn lemma_group_seqs_small(ris: nat)
    requires
        ris < 8192,
    ensures
        forall|g: int| 0 <= g < 7 ==> #[trigger] group_data(ris).2[g] < 8192,
        forall|g: int| 0 <= g < 7 ==> #[trigger] group_data(ris).3[g] < 8192,
    decreases ris,
{
    lemma_group_bounds(ris);
    if ris > 0 {
        let k = top_index(ris);
        crate::lookup::lemma_top_index_range(ris);
        lemma_pow2_pos(k);
        let tb = pow2(k);
        let y = (ris - tb) as nat;
        lemma_group_seqs_small(y);
        lemma_group_bounds(y);
        let prev = group_data(y);
        assert forall|a: u16, b: u16| a < 8192 && b < 8192 implies #[trigger] (a | b) < 8192 by {
            assert(a < 8192 && b < 8192 ==> (a | b) < 8192) by (bit_vector);
        }
        if k >= 1 && nbit(ris, (k - 1) as nat) {
            lemma_drop_top(ris, k, (k - 1) as nat);
            assert(y > 0) by {
                if y == 0 {
                    lemma_pow2_pos((k - 1) as nat);
                }
            }
            lemma_pow2_unfold(k);
            assert(0 <= prev.0);
            assert(prev.2[prev.0] | (pow2((k - 1) as nat) as u16) < 8192);
            assert(prev.3[prev.0] | (tb as u16) < 8192);
            let gd = group_data(ris);
            assert(gd.2 == prev.2.update(prev.0, prev.2[prev.0] | pow2((k - 1) as nat) as u16));
            assert(gd.3 == prev.3.update(prev.0, prev.3[prev.0] | tb as u16));
            assert forall|g: int| 0 <= g < 7 implies #[trigger] gd.2[g] < 8192 && gd.3[g] < 8192 by {
                if g != prev.0 {
                    assert(gd.2[g] == prev.2[g]);
                    assert(gd.3[g] == prev.3[g]);
                }
            }
        } else {
            let gd = group_data(ris);
            let g = prev.0 + 1;
            assert(0 <= g <= 6);
            assert(gd.2 == prev.2.update(g, 0u16));
            assert(gd.3 == prev.3.update(g, tb as u16));
            assert((tb as u16) < 8192);
            assert forall|g2: int| 0 <= g2 < 7 implies #[trigger] gd.2[g2] < 8192 && gd.3[g2] < 8192 by {
                if g2 != g {
                    assert(gd.2[g2] == prev.2[g2]);
                    assert(gd.3[g2] == prev.3[g2]);
                }
            }
        }
    } else {
        assert forall|g: int| 0 <= g < 7 implies #[trigger] group_data(ris).2[g] < 8192 && group_data(ris).3[g] < 8192 by {
            assert(group_data(ris) == crate::lookup::empty_group());
        }
    }
}

/// A rank set has at least as many cards as groups.
pub proof fn lemma_group_count(x: u16)
    requires
        x < 8192,
    ensures
        group_data(x as nat).0 + 1 <= popcount(x),
    decreases x,
{
    lemma_group_bounds(x as nat);
    if x > 0 {
        let ris = x as nat;
        let k = top_index(ris);
        crate::lookup::lemma_top_index_range(ris);
        lemma_pow2_pos(k);
        assert(k <= 12) by {
            vstd::arithmetic::power2::lemma2_to64();
            if k > 13 {
                lemma_pow2_strictly_increases(13, k);
            }
        }
        let y = (ris - pow2(k)) as nat;
        let yu = y as u16;
        lemma_group_count(yu);
        lemma_group_bounds(y);
        assert forall|i: nat| i < 16 && i != k implies #[trigger] bit(x, i) == bit(yu, i) by {
            lemma_bit_div(x, i);
            lemma_bit_div(yu, i);
            lemma_drop_top(ris, k, i);
        }
        lemma_bit_div(x, k);
        lemma_bit_div(yu, k);
        lemma_drop_top(ris, k, k);
        lemma_ones_one_more(x, yu, k, 16);
    }
}

/// A rank in the set is one of its bits.
pub proof fn lemma_nbit_has_rank(x: u16, r: int)
    requires
        2 <= r <= 14,
        nbit(x as nat, (r - 2) as nat),
    ensures
        has_rank(x, r),
{
    lemma_bit_div(x, (r - 2) as nat);
}

} // verus!
