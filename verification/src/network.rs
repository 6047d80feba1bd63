//! Sorting networks that order a move list by descending weight.
//!
//! Lists of two to twelve moves are sorted by fixed compare-and-swap
//! networks, longer ones by insertion sort. That each network sorts is proved
//! by the 0-1 principle: a compare-and-swap commutes with every threshold
//! map `x >= t`, so a network that sorts all sequences of booleans sorts all
//! sequences of weights.
use vstd::prelude::*;
use crate::move_type::MoveType;

verus! {

/// The weights of a move list.
pub open spec fn weights(s: Seq<MoveType>) -> Seq<int> {
    Seq::new(s.len(), |k: int| s[k].weight as int)
}

/// Whether the first `n` entries of `w` descend.
pub open spec fn sorted_desc(w: Seq<int>, n: int) -> bool {
    forall|i: int, j: int| 0 <= i < j < n ==> w[i] >= w[j]
}

/// Whether the first `n` booleans descend (every `true` before every `false`).
pub open spec fn sorted_bool(b: Seq<bool>, n: int) -> bool {
    forall|i: int, j: int| 0 <= i < j < n && b[j] ==> b[i]
}

/// The larger of two weights.
#[verifier::opaque]
pub open spec fn mx(a: int, b: int) -> int {
    if a >= b {
        a
    } else {
        b
    }
}

/// The smaller of two weights.
#[verifier::opaque]
pub open spec fn mn(a: int, b: int) -> int {
    if a >= b {
        b
    } else {
        a
    }
}

/// Thresholds commute with the larger and the smaller of two weights.
proof fn lemma_mx_mn_thr(a: int, b: int, t: int)
    ensures
        (mx(a, b) >= t) == (a >= t || b >= t),
        (mn(a, b) >= t) == (a >= t && b >= t),
{
    reveal(mx);
    reveal(mn);
}

/// Compare-and-swap of moves: the heavier of entries `i` and `j` ends at `i`.
#[verifier::opaque]
pub open spec fn cs_moves(s: Seq<MoveType>, i: int, j: int) -> Seq<MoveType> {
    if s[i].weight < s[j].weight {
        s.update(i, s[j]).update(j, s[i])
    } else {
        s
    }
}

/// The threshold map `x >= t` of a weight sequence.
pub open spec fn thr(w: Seq<int>, t: int) -> Seq<bool> {
    Seq::new(w.len(), |k: int| w[k] >= t)
}

/// Swapping two entries keeps the multiset of a sequence.
pub proof fn lemma_swap_multiset<A>(s: Seq<A>, i: int, j: int)
    requires
        0 <= i < s.len(),
        0 <= j < s.len(),
        i != j,
    ensures
        s.update(i, s[j]).update(j, s[i]).to_multiset() == s.to_multiset(),
{
    broadcast use vstd::seq_lib::group_to_multiset_ensures;
    vstd::seq_lib::lemma_update_is_remove_insert(s, i, s[j]);
    let s1 = s.update(i, s[j]);
    vstd::seq_lib::lemma_update_is_remove_insert(s1, j, s[i]);
    assert(s1[j] == s[j]);
    assert(s.to_multiset().contains(s[i]));
    assert(s.to_multiset().remove(s[i]).insert(s[j]).remove(s[j]) =~= s.to_multiset().remove(s[i]));
    assert(s.to_multiset().remove(s[i]).insert(s[i]) =~= s.to_multiset());
}

/// One compare-and-swap: the weights at `i` and `j` become their maximum
/// and minimum and everything else stays.
proof fn lemma_cs_step(s: Seq<MoveType>, i: int, j: int)
    requires
        0 <= i < s.len(),
        0 <= j < s.len(),
        i != j,
    ensures
        cs_moves(s, i, j).len() == s.len(),
        weights(cs_moves(s, i, j)) == weights(s).update(
            i,
            mx(weights(s)[i], weights(s)[j]),
        ).update(j, mn(weights(s)[i], weights(s)[j])),
{
    reveal(mx);
    reveal(mn);
    reveal(cs_moves);
    assert(weights(cs_moves(s, i, j)) =~= weights(s).update(
        i,
        mx(weights(s)[i], weights(s)[j]),
    ).update(j, mn(weights(s)[i], weights(s)[j])));
}

/// One compare-and-swap keeps the multiset of moves.
proof fn lemma_cs_multiset(s: Seq<MoveType>, i: int, j: int)
    requires
        0 <= i < s.len(),
        0 <= j < s.len(),
        i != j,
    ensures
        cs_moves(s, i, j).len() == s.len(),
        cs_moves(s, i, j).to_multiset() == s.to_multiset(),
        forall|k: int| 0 <= k < s.len() && k != i && k != j ==> #[trigger] cs_moves(s, i, j)[k] == s[k],
{
    reveal(cs_moves);
    if s[i].weight < s[j].weight {
        lemma_swap_multiset(s, i, j);
    }
}

/// The network for 2 entries, applied to a move list.
pub open spec fn net2_m(x0: Seq<MoveType>) -> Seq<MoveType> {
    let x1 = cs_moves(x0, 0, 1);
    x1
}

/// The network for 2 entries, applied to the first 2 weights of `x`.
pub open spec fn net2_w(x: Seq<int>) -> Seq<int> {
    let a0_0 = x[0];
    let a1_0 = x[1];
    let a0_1 = mx(a0_0, a1_0);
    let a1_1 = mn(a0_0, a1_0);
    seq![a0_1, a1_1]
}

/// The network for 2 entries, applied to the first 2 booleans of `x`.
pub open spec fn net2_b(x: Seq<bool>) -> Seq<bool> {
    let a0_0 = x[0];
    let a1_0 = x[1];
    let a0_1 = a0_0 || a1_0;
    let a1_1 = a0_0 && a1_0;
    seq![a0_1, a1_1]
}

proof fn lemma_net2_thr(x: Seq<int>, t: int)
    requires
        x.len() >= 2,
    ensures
        thr(net2_w(x), t) == net2_b(thr(x, t)),
{
    let a0_0 = x[0];
    let b0_0 = thr(x, t)[0];
    assert((a0_0 >= t) == b0_0);
    let a1_0 = x[1];
    let b1_0 = thr(x, t)[1];
    assert((a1_0 >= t) == b1_0);
    let a0_1 = mx(a0_0, a1_0);
    let a1_1 = mn(a0_0, a1_0);
    let b0_1 = b0_0 || b1_0;
    let b1_1 = b0_0 && b1_0;
    lemma_mx_mn_thr(a0_0, a1_0, t);
    assert((a0_1 >= t) == b0_1 && (a1_1 >= t) == b1_1);
    assert(thr(net2_w(x), t) =~= net2_b(thr(x, t)));
}

proof fn lemma_net2_bool(x: Seq<bool>)
    requires
        x.len() >= 2,
    ensures
        sorted_bool(net2_b(x), 2),
{
}

/// The network for 2 entries sorts every weight sequence.
pub proof fn lemma_net2_sorts(x: Seq<int>)
    requires
        x.len() >= 2,
    ensures
        sorted_desc(net2_w(x), 2),
{
    let out = net2_w(x);
    assert forall|i: int, j: int| 0 <= i < j < 2 implies out[i] >= out[j] by {
        if out[i] < out[j] {
            let t = out[j];
            lemma_net2_thr(x, t);
            lemma_net2_bool(thr(x, t));
            assert(thr(out, t)[j]);
            assert(!thr(out, t)[i]);
        }
    }
}

/// Applying the network for 2 entries to a move list keeps the multiset
/// of moves and leaves the tail alone.
proof fn lemma_net2_perm(x0: Seq<MoveType>)
    requires
        x0.len() == 14,
    ensures
        net2_m(x0).len() == 14,
        net2_m(x0).to_multiset() == x0.to_multiset(),
        forall|k: int| 2 <= k < 14 ==> #[trigger] net2_m(x0)[k] == x0[k],
{
    let x1 = cs_moves(x0, 0, 1);
    lemma_cs_multiset(x0, 0, 1);
}

/// Applying the network for 2 entries to a move list applies it to the
/// weights.
proof fn lemma_net2_link(x0: Seq<MoveType>)
    requires
        x0.len() == 14,
    ensures
        forall|k: int| 0 <= k < 2 ==> #[trigger] weights(net2_m(x0))[k] == net2_w(weights(x0))[k],
{
    let w0 = weights(x0);
    let a0_0 = w0[0];
    let a1_0 = w0[1];
    let x1 = cs_moves(x0, 0, 1);
    lemma_cs_step(x0, 0, 1);
    let w1 = w0.update(0, mx(w0[0], w0[1])).update(1, mn(w0[0], w0[1]));
    let a0_1 = mx(a0_0, a1_0);
    let a1_1 = mn(a0_0, a1_0);
    assert(w1[0] == a0_1 && w1[1] == a1_1);
    assert(weights(x1) == w1);
    let w = net2_w(weights(x0));
    assert(w == seq![a0_1, a1_1]);
    assert(w1[0] == w[0]);
    assert(w1[1] == w[1]);
}

/// The network for 3 entries, applied to a move list.
pub open spec fn net3_m(x0: Seq<MoveType>) -> Seq<MoveType> {
    let x1 = cs_moves(x0, 0, 1);
    let x2 = cs_moves(x1, 0, 2);
    let x3 = cs_moves(x2, 1, 2);
    x3
}

/// The network for 3 entries, applied to the first 3 weights of `x`.
pub open spec fn net3_w(x: Seq<int>) -> Seq<int> {
    let a0_0 = x[0];
    let a1_0 = x[1];
    let a2_0 = x[2];
    let a0_1 = mx(a0_0, a1_0);
    let a1_1 = mn(a0_0, a1_0);
    let a0_2 = mx(a0_1, a2_0);
    let a2_1 = mn(a0_1, a2_0);
    let a1_2 = mx(a1_1, a2_1);
    let a2_2 = mn(a1_1, a2_1);
    seq![a0_2, a1_2, a2_2]
}

/// The network for 3 entries, applied to the first 3 booleans of `x`.
pub open spec fn net3_b(x: Seq<bool>) -> Seq<bool> {
    let a0_0 = x[0];
    let a1_0 = x[1];
    let a2_0 = x[2];
    let a0_1 = a0_0 || a1_0;
    let a1_1 = a0_0 && a1_0;
    let a0_2 = a0_1 || a2_0;
    let a2_1 = a0_1 && a2_0;
    let a1_2 = a1_1 || a2_1;
    let a2_2 = a1_1 && a2_1;
    seq![a0_2, a1_2, a2_2]
}

proof fn lemma_net3_thr(x: Seq<int>, t: int)
    requires
        x.len() >= 3,
    ensures
        thr(net3_w(x), t) == net3_b(thr(x, t)),
{
    let a0_0 = x[0];
    let b0_0 = thr(x, t)[0];
    assert((a0_0 >= t) == b0_0);
    let a1_0 = x[1];
    let b1_0 = thr(x, t)[1];
    assert((a1_0 >= t) == b1_0);
    let a2_0 = x[2];
    let b2_0 = thr(x, t)[2];
    assert((a2_0 >= t) == b2_0);
    let a0_1 = mx(a0_0, a1_0);
    let a1_1 = mn(a0_0, a1_0);
    let b0_1 = b0_0 || b1_0;
    let b1_1 = b0_0 && b1_0;
    lemma_mx_mn_thr(a0_0, a1_0, t);
    assert((a0_1 >= t) == b0_1 && (a1_1 >= t) == b1_1);
    let a0_2 = mx(a0_1, a2_0);
    let a2_1 = mn(a0_1, a2_0);
    let b0_2 = b0_1 || b2_0;
    let b2_1 = b0_1 && b2_0;
    lemma_mx_mn_thr(a0_1, a2_0, t);
    assert((a0_2 >= t) == b0_2 && (a2_1 >= t) == b2_1);
    let a1_2 = mx(a1_1, a2_1);
    let a2_2 = mn(a1_1, a2_1);
    let b1_2 = b1_1 || b2_1;
    let b2_2 = b1_1 && b2_1;
    lemma_mx_mn_thr(a1_1, a2_1, t);
    assert((a1_2 >= t) == b1_2 && (a2_2 >= t) == b2_2);
    assert(thr(net3_w(x), t) =~= net3_b(thr(x, t)));
}

proof fn lemma_net3_bool(x: Seq<bool>)
    requires
        x.len() >= 3,
    ensures
        sorted_bool(net3_b(x), 3),
{
}

/// The network for 3 entries sorts every weight sequence.
pub proof fn lemma_net3_sorts(x: Seq<int>)
    requires
        x.len() >= 3,
    ensures
        sorted_desc(net3_w(x), 3),
{
    let out = net3_w(x);
    assert forall|i: int, j: int| 0 <= i < j < 3 implies out[i] >= out[j] by {
        if out[i] < out[j] {
            let t = out[j];
            lemma_net3_thr(x, t);
            lemma_net3_bool(thr(x, t));
            assert(thr(out, t)[j]);
            assert(!thr(out, t)[i]);
        }
    }
}

/// Applying the network for 3 entries to a move list keeps the multiset
/// of moves and leaves the tail alone.
proof fn lemma_net3_perm(x0: Seq<MoveType>)
    requires
        x0.len() == 14,
    ensures
        net3_m(x0).len() == 14,
        net3_m(x0).to_multiset() == x0.to_multiset(),
        forall|k: int| 3 <= k < 14 ==> #[trigger] net3_m(x0)[k] == x0[k],
{
    let x1 = cs_moves(x0, 0, 1);
    lemma_cs_multiset(x0, 0, 1);
    let x2 = cs_moves(x1, 0, 2);
    lemma_cs_multiset(x1, 0, 2);
    let x3 = cs_moves(x2, 1, 2);
    lemma_cs_multiset(x2, 1, 2);
}

/// Applying the network for 3 entries to a move list applies it to the
/// weights.
proof fn lemma_net3_link(x0: Seq<MoveType>)
    requires
        x0.len() == 14,
    ensures
        forall|k: int| 0 <= k < 3 ==> #[trigger] weights(net3_m(x0))[k] == net3_w(weights(x0))[k],
{
    let w0 = weights(x0);
    let a0_0 = w0[0];
    let a1_0 = w0[1];
    let a2_0 = w0[2];
    let x1 = cs_moves(x0, 0, 1);
    lemma_cs_step(x0, 0, 1);
    let w1 = w0.update(0, mx(w0[0], w0[1])).update(1, mn(w0[0], w0[1]));
    let a0_1 = mx(a0_0, a1_0);
    let a1_1 = mn(a0_0, a1_0);
    assert(w1[0] == a0_1 && w1[1] == a1_1);
    let x2 = cs_moves(x1, 0, 2);
    lemma_cs_step(x1, 0, 2);
    let w2 = w1.update(0, mx(w1[0], w1[2])).update(2, mn(w1[0], w1[2]));
    let a0_2 = mx(a0_1, a2_0);
    let a2_1 = mn(a0_1, a2_0);
    assert(w2[0] == a0_2 && w2[2] == a2_1);
    let x3 = cs_moves(x2, 1, 2);
    lemma_cs_step(x2, 1, 2);
    let w3 = w2.update(1, mx(w2[1], w2[2])).update(2, mn(w2[1], w2[2]));
    let a1_2 = mx(a1_1, a2_1);
    let a2_2 = mn(a1_1, a2_1);
    assert(w3[1] == a1_2 && w3[2] == a2_2);
    assert(weights(x3) == w3);
    let w = net3_w(weights(x0));
    assert(w == seq![a0_2, a1_2, a2_2]);
    assert(w3[0] == w[0]);
    assert(w3[1] == w[1]);
    assert(w3[2] == w[2]);
}

/// The network for 4 entries, applied to a move list.
pub open spec fn net4_m(x0: Seq<MoveType>) -> Seq<MoveType> {
    let x1 = cs_moves(x0, 0, 1);
    let x2 = cs_moves(x1, 2, 3);
    let x3 = cs_moves(x2, 0, 2);
    let x4 = cs_moves(x3, 1, 3);
    let x5 = cs_moves(x4, 1, 2);
    x5
}

/// The network for 4 entries, applied to the first 4 weights of `x`.
pub open spec fn net4_w(x: Seq<int>) -> Seq<int> {
    let a0_0 = x[0];
    let a1_0 = x[1];
    let a2_0 = x[2];
    let a3_0 = x[3];
    let a0_1 = mx(a0_0, a1_0);
    let a1_1 = mn(a0_0, a1_0);
    let a2_1 = mx(a2_0, a3_0);
    let a3_1 = mn(a2_0, a3_0);
    let a0_2 = mx(a0_1, a2_1);
    let a2_2 = mn(a0_1, a2_1);
    let a1_2 = mx(a1_1, a3_1);
    let a3_2 = mn(a1_1, a3_1);
    let a1_3 = mx(a1_2, a2_2);
    let a2_3 = mn(a1_2, a2_2);
    seq![a0_2, a1_3, a2_3, a3_2]
}

/// The network for 4 entries, applied to the first 4 booleans of `x`.
pub open spec fn net4_b(x: Seq<bool>) -> Seq<bool> {
    let a0_0 = x[0];
    let a1_0 = x[1];
    let a2_0 = x[2];
    let a3_0 = x[3];
    let a0_1 = a0_0 || a1_0;
    let a1_1 = a0_0 && a1_0;
    let a2_1 = a2_0 || a3_0;
    let a3_1 = a2_0 && a3_0;
    let a0_2 = a0_1 || a2_1;
    let a2_2 = a0_1 && a2_1;
    let a1_2 = a1_1 || a3_1;
    let a3_2 = a1_1 && a3_1;
    let a1_3 = a1_2 || a2_2;
    let a2_3 = a1_2 && a2_2;
    seq![a0_2, a1_3, a2_3, a3_2]
}

proof fn lemma_net4_thr(x: Seq<int>, t: int)
    requires
        x.len() >= 4,
    ensures
        thr(net4_w(x), t) == net4_b(thr(x, t)),
{
    let a0_0 = x[0];
    let b0_0 = thr(x, t)[0];
    assert((a0_0 >= t) == b0_0);
    let a1_0 = x[1];
    let b1_0 = thr(x, t)[1];
    assert((a1_0 >= t) == b1_0);
    let a2_0 = x[2];
    let b2_0 = thr(x, t)[2];
    assert((a2_0 >= t) == b2_0);
    let a3_0 = x[3];
    let b3_0 = thr(x, t)[3];
    assert((a3_0 >= t) == b3_0);
    let a0_1 = mx(a0_0, a1_0);
    let a1_1 = mn(a0_0, a1_0);
    let b0_1 = b0_0 || b1_0;
    let b1_1 = b0_0 && b1_0;
    lemma_mx_mn_thr(a0_0, a1_0, t);
    assert((a0_1 >= t) == b0_1 && (a1_1 >= t) == b1_1);
    let a2_1 = mx(a2_0, a3_0);
    let a3_1 = mn(a2_0, a3_0);
    let b2_1 = b2_0 || b3_0;
    let b3_1 = b2_0 && b3_0;
    lemma_mx_mn_thr(a2_0, a3_0, t);
    assert((a2_1 >= t) == b2_1 && (a3_1 >= t) == b3_1);
    let a0_2 = mx(a0_1, a2_1);
    let a2_2 = mn(a0_1, a2_1);
    let b0_2 = b0_1 || b2_1;
    let b2_2 = b0_1 && b2_1;
    lemma_mx_mn_thr(a0_1, a2_1, t);
    assert((a0_2 >= t) == b0_2 && (a2_2 >= t) == b2_2);
    let a1_2 = mx(a1_1, a3_1);
    let a3_2 = mn(a1_1, a3_1);
    let b1_2 = b1_1 || b3_1;
    let b3_2 = b1_1 && b3_1;
    lemma_mx_mn_thr(a1_1, a3_1, t);
    assert((a1_2 >= t) == b1_2 && (a3_2 >= t) == b3_2);
    let a1_3 = mx(a1_2, a2_2);
    let a2_3 = mn(a1_2, a2_2);
    let b1_3 = b1_2 || b2_2;
    let b2_3 = b1_2 && b2_2;
    lemma_mx_mn_thr(a1_2, a2_2, t);
    assert((a1_3 >= t) == b1_3 && (a2_3 >= t) == b2_3);
    assert(thr(net4_w(x), t) =~= net4_b(thr(x, t)));
}

proof fn lemma_net4_bool(x: Seq<bool>)
    requires
        x.len() >= 4,
    ensures
        sorted_bool(net4_b(x), 4),
{
}

/// The network for 4 entries sorts every weight sequence.
pub proof fn lemma_net4_sorts(x: Seq<int>)
    requires
        x.len() >= 4,
    ensures
        sorted_desc(net4_w(x), 4),
{
    let out = net4_w(x);
    assert forall|i: int, j: int| 0 <= i < j < 4 implies out[i] >= out[j] by {
        if out[i] < out[j] {
            let t = out[j];
            lemma_net4_thr(x, t);
            lemma_net4_bool(thr(x, t));
            assert(thr(out, t)[j]);
            assert(!thr(out, t)[i]);
        }
    }
}

/// Applying the network for 4 entries to a move list keeps the multiset
/// of moves and leaves the tail alone.
proof fn lemma_net4_perm(x0: Seq<MoveType>)
    requires
        x0.len() == 14,
    ensures
        net4_m(x0).len() == 14,
        net4_m(x0).to_multiset() == x0.to_multiset(),
        forall|k: int| 4 <= k < 14 ==> #[trigger] net4_m(x0)[k] == x0[k],
{
    let x1 = cs_moves(x0, 0, 1);
    lemma_cs_multiset(x0, 0, 1);
    let x2 = cs_moves(x1, 2, 3);
    lemma_cs_multiset(x1, 2, 3);
    let x3 = cs_moves(x2, 0, 2);
    lemma_cs_multiset(x2, 0, 2);
    let x4 = cs_moves(x3, 1, 3);
    lemma_cs_multiset(x3, 1, 3);
    let x5 = cs_moves(x4, 1, 2);
    lemma_cs_multiset(x4, 1, 2);
}

/// Applying the network for 4 entries to a move list applies it to the
/// weights.
proof fn lemma_net4_link(x0: Seq<MoveType>)
    requires
        x0.len() == 14,
    ensures
        forall|k: int| 0 <= k < 4 ==> #[trigger] weights(net4_m(x0))[k] == net4_w(weights(x0))[k],
{
    let w0 = weights(x0);
    let a0_0 = w0[0];
    let a1_0 = w0[1];
    let a2_0 = w0[2];
    let a3_0 = w0[3];
    let x1 = cs_moves(x0, 0, 1);
    lemma_cs_step(x0, 0, 1);
    let w1 = w0.update(0, mx(w0[0], w0[1])).update(1, mn(w0[0], w0[1]));
    let a0_1 = mx(a0_0, a1_0);
    let a1_1 = mn(a0_0, a1_0);
    assert(w1[0] == a0_1 && w1[1] == a1_1);
    let x2 = cs_moves(x1, 2, 3);
    lemma_cs_step(x1, 2, 3);
    let w2 = w1.update(2, mx(w1[2], w1[3])).update(3, mn(w1[2], w1[3]));
    let a2_1 = mx(a2_0, a3_0);
    let a3_1 = mn(a2_0, a3_0);
    assert(w2[2] == a2_1 && w2[3] == a3_1);
    let x3 = cs_moves(x2, 0, 2);
    lemma_cs_step(x2, 0, 2);
    let w3 = w2.update(0, mx(w2[0], w2[2])).update(2, mn(w2[0], w2[2]));
    let a0_2 = mx(a0_1, a2_1);
    let a2_2 = mn(a0_1, a2_1);
    assert(w3[0] == a0_2 && w3[2] == a2_2);
    let x4 = cs_moves(x3, 1, 3);
    lemma_cs_step(x3, 1, 3);
    let w4 = w3.update(1, mx(w3[1], w3[3])).update(3, mn(w3[1], w3[3]));
    let a1_2 = mx(a1_1, a3_1);
    let a3_2 = mn(a1_1, a3_1);
    assert(w4[1] == a1_2 && w4[3] == a3_2);
    let x5 = cs_moves(x4, 1, 2);
    lemma_cs_step(x4, 1, 2);
    let w5 = w4.update(1, mx(w4[1], w4[2])).update(2, mn(w4[1], w4[2]));
    let a1_3 = mx(a1_2, a2_2);
    let a2_3 = mn(a1_2, a2_2);
    assert(w5[1] == a1_3 && w5[2] == a2_3);
    assert(weights(x5) == w5);
    let w = net4_w(weights(x0));
    assert(w == seq![a0_2, a1_3, a2_3, a3_2]);
    assert(w5[0] == w[0]);
    assert(w5[1] == w[1]);
    assert(w5[2] == w[2]);
    assert(w5[3] == w[3]);
}

/// The network for 5 entries, applied to a move list.
pub open spec fn net5_m(x0: Seq<MoveType>) -> Seq<MoveType> {
    let x1 = cs_moves(x0, 0, 1);
    let x2 = cs_moves(x1, 2, 3);
    let x3 = cs_moves(x2, 0, 2);
    let x4 = cs_moves(x3, 1, 3);
    let x5 = cs_moves(x4, 1, 2);
    let x6 = cs_moves(x5, 0, 4);
    let x7 = cs_moves(x6, 2, 4);
    let x8 = cs_moves(x7, 1, 2);
    let x9 = cs_moves(x8, 3, 4);
    x9
}

/// The network for 5 entries, applied to the first 5 weights of `x`.
pub open spec fn net5_w(x: Seq<int>) -> Seq<int> {
    let a0_0 = x[0];
    let a1_0 = x[1];
    let a2_0 = x[2];
    let a3_0 = x[3];
    let a4_0 = x[4];
    let a0_1 = mx(a0_0, a1_0);
    let a1_1 = mn(a0_0, a1_0);
    let a2_1 = mx(a2_0, a3_0);
    let a3_1 = mn(a2_0, a3_0);
    let a0_2 = mx(a0_1, a2_1);
    let a2_2 = mn(a0_1, a2_1);
    let a1_2 = mx(a1_1, a3_1);
    let a3_2 = mn(a1_1, a3_1);
    let a1_3 = mx(a1_2, a2_2);
    let a2_3 = mn(a1_2, a2_2);
    let a0_3 = mx(a0_2, a4_0);
    let a4_1 = mn(a0_2, a4_0);
    let a2_4 = mx(a2_3, a4_1);
    let a4_2 = mn(a2_3, a4_1);
    let a1_4 = mx(a1_3, a2_4);
    let a2_5 = mn(a1_3, a2_4);
    let a3_3 = mx(a3_2, a4_2);
    let a4_3 = mn(a3_2, a4_2);
    seq![a0_3, a1_4, a2_5, a3_3, a4_3]
}

/// The network for 5 entries, applied to the first 5 booleans of `x`.
pub open spec fn net5_b(x: Seq<bool>) -> Seq<bool> {
    let a0_0 = x[0];
    let a1_0 = x[1];
    let a2_0 = x[2];
    let a3_0 = x[3];
    let a4_0 = x[4];
    let a0_1 = a0_0 || a1_0;
    let a1_1 = a0_0 && a1_0;
    let a2_1 = a2_0 || a3_0;
    let a3_1 = a2_0 && a3_0;
    let a0_2 = a0_1 || a2_1;
    let a2_2 = a0_1 && a2_1;
    let a1_2 = a1_1 || a3_1;
    let a3_2 = a1_1 && a3_1;
    let a1_3 = a1_2 || a2_2;
    let a2_3 = a1_2 && a2_2;
    let a0_3 = a0_2 || a4_0;
    let a4_1 = a0_2 && a4_0;
    let a2_4 = a2_3 || a4_1;
    let a4_2 = a2_3 && a4_1;
    let a1_4 = a1_3 || a2_4;
    let a2_5 = a1_3 && a2_4;
    let a3_3 = a3_2 || a4_2;
    let a4_3 = a3_2 && a4_2;
    seq![a0_3, a1_4, a2_5, a3_3, a4_3]
}

proof fn lemma_net5_thr(x: Seq<int>, t: int)
    requires
        x.len() >= 5,
    ensures
        thr(net5_w(x), t) == net5_b(thr(x, t)),
{
    let a0_0 = x[0];
    let b0_0 = thr(x, t)[0];
    assert((a0_0 >= t) == b0_0);
    let a1_0 = x[1];
    let b1_0 = thr(x, t)[1];
    assert((a1_0 >= t) == b1_0);
    let a2_0 = x[2];
    let b2_0 = thr(x, t)[2];
    assert((a2_0 >= t) == b2_0);
    let a3_0 = x[3];
    let b3_0 = thr(x, t)[3];
    assert((a3_0 >= t) == b3_0);
    let a4_0 = x[4];
    let b4_0 = thr(x, t)[4];
    assert((a4_0 >= t) == b4_0);
    let a0_1 = mx(a0_0, a1_0);
    let a1_1 = mn(a0_0, a1_0);
    let b0_1 = b0_0 || b1_0;
    let b1_1 = b0_0 && b1_0;
    lemma_mx_mn_thr(a0_0, a1_0, t);
    assert((a0_1 >= t) == b0_1 && (a1_1 >= t) == b1_1);
    let a2_1 = mx(a2_0, a3_0);
    let a3_1 = mn(a2_0, a3_0);
    let b2_1 = b2_0 || b3_0;
    let b3_1 = b2_0 && b3_0;
    lemma_mx_mn_thr(a2_0, a3_0, t);
    assert((a2_1 >= t) == b2_1 && (a3_1 >= t) == b3_1);
    let a0_2 = mx(a0_1, a2_1);
    let a2_2 = mn(a0_1, a2_1);
    let b0_2 = b0_1 || b2_1;
    let b2_2 = b0_1 && b2_1;
    lemma_mx_mn_thr(a0_1, a2_1, t);
    assert((a0_2 >= t) == b0_2 && (a2_2 >= t) == b2_2);
    let a1_2 = mx(a1_1, a3_1);
    let a3_2 = mn(a1_1, a3_1);
    let b1_2 = b1_1 || b3_1;
    let b3_2 = b1_1 && b3_1;
    lemma_mx_mn_thr(a1_1, a3_1, t);
    assert((a1_2 >= t) == b1_2 && (a3_2 >= t) == b3_2);
    let a1_3 = mx(a1_2, a2_2);
    let a2_3 = mn(a1_2, a2_2);
    let b1_3 = b1_2 || b2_2;
    let b2_3 = b1_2 && b2_2;
    lemma_mx_mn_thr(a1_2, a2_2, t);
    assert((a1_3 >= t) == b1_3 && (a2_3 >= t) == b2_3);
    let a0_3 = mx(a0_2, a4_0);
    let a4_1 = mn(a0_2, a4_0);
    let b0_3 = b0_2 || b4_0;
    let b4_1 = b0_2 && b4_0;
    lemma_mx_mn_thr(a0_2, a4_0, t);
    assert((a0_3 >= t) == b0_3 && (a4_1 >= t) == b4_1);
    let a2_4 = mx(a2_3, a4_1);
    let a4_2 = mn(a2_3, a4_1);
    let b2_4 = b2_3 || b4_1;
    let b4_2 = b2_3 && b4_1;
    lemma_mx_mn_thr(a2_3, a4_1, t);
    assert((a2_4 >= t) == b2_4 && (a4_2 >= t) == b4_2);
    let a1_4 = mx(a1_3, a2_4);
    let a2_5 = mn(a1_3, a2_4);
    let b1_4 = b1_3 || b2_4;
    let b2_5 = b1_3 && b2_4;
    lemma_mx_mn_thr(a1_3, a2_4, t);
    assert((a1_4 >= t) == b1_4 && (a2_5 >= t) == b2_5);
    let a3_3 = mx(a3_2, a4_2);
    let a4_3 = mn(a3_2, a4_2);
    let b3_3 = b3_2 || b4_2;
    let b4_3 = b3_2 && b4_2;
    lemma_mx_mn_thr(a3_2, a4_2, t);
    assert((a3_3 >= t) == b3_3 && (a4_3 >= t) == b4_3);
    assert(thr(net5_w(x), t) =~= net5_b(thr(x, t)));
}

proof fn lemma_net5_bool(x: Seq<bool>)
    requires
        x.len() >= 5,
    ensures
        sorted_bool(net5_b(x), 5),
{
}

/// The network for 5 entries sorts every weight sequence.
pub proof fn lemma_net5_sorts(x: Seq<int>)
    requires
        x.len() >= 5,
    ensures
        sorted_desc(net5_w(x), 5),
{
    let out = net5_w(x);
    assert forall|i: int, j: int| 0 <= i < j < 5 implies out[i] >= out[j] by {
        if out[i] < out[j] {
            let t = out[j];
            lemma_net5_thr(x, t);
            lemma_net5_bool(thr(x, t));
            assert(thr(out, t)[j]);
            assert(!thr(out, t)[i]);
        }
    }
}

/// Applying the network for 5 entries to a move list keeps the multiset
/// of moves and leaves the tail alone.
proof fn lemma_net5_perm(x0: Seq<MoveType>)
    requires
        x0.len() == 14,
    ensures
        net5_m(x0).len() == 14,
        net5_m(x0).to_multiset() == x0.to_multiset(),
        forall|k: int| 5 <= k < 14 ==> #[trigger] net5_m(x0)[k] == x0[k],
{
    let x1 = cs_moves(x0, 0, 1);
    lemma_cs_multiset(x0, 0, 1);
    let x2 = cs_moves(x1, 2, 3);
    lemma_cs_multiset(x1, 2, 3);
    let x3 = cs_moves(x2, 0, 2);
    lemma_cs_multiset(x2, 0, 2);
    let x4 = cs_moves(x3, 1, 3);
    lemma_cs_multiset(x3, 1, 3);
    let x5 = cs_moves(x4, 1, 2);
    lemma_cs_multiset(x4, 1, 2);
    let x6 = cs_moves(x5, 0, 4);
    lemma_cs_multiset(x5, 0, 4);
    let x7 = cs_moves(x6, 2, 4);
    lemma_cs_multiset(x6, 2, 4);
    let x8 = cs_moves(x7, 1, 2);
    lemma_cs_multiset(x7, 1, 2);
    let x9 = cs_moves(x8, 3, 4);
    lemma_cs_multiset(x8, 3, 4);
}

/// Applying the network for 5 entries to a move list applies it to the
/// weights.
proof fn lemma_net5_link(x0: Seq<MoveType>)
    requires
        x0.len() == 14,
    ensures
        forall|k: int| 0 <= k < 5 ==> #[trigger] weights(net5_m(x0))[k] == net5_w(weights(x0))[k],
{
    let w0 = weights(x0);
    let a0_0 = w0[0];
    let a1_0 = w0[1];
    let a2_0 = w0[2];
    let a3_0 = w0[3];
    let a4_0 = w0[4];
    let x1 = cs_moves(x0, 0, 1);
    lemma_cs_step(x0, 0, 1);
    let w1 = w0.update(0, mx(w0[0], w0[1])).update(1, mn(w0[0], w0[1]));
    let a0_1 = mx(a0_0, a1_0);
    let a1_1 = mn(a0_0, a1_0);
    assert(w1[0] == a0_1 && w1[1] == a1_1);
    let x2 = cs_moves(x1, 2, 3);
    lemma_cs_step(x1, 2, 3);
    let w2 = w1.update(2, mx(w1[2], w1[3])).update(3, mn(w1[2], w1[3]));
    let a2_1 = mx(a2_0, a3_0);
    let a3_1 = mn(a2_0, a3_0);
    assert(w2[2] == a2_1 && w2[3] == a3_1);
    let x3 = cs_moves(x2, 0, 2);
    lemma_cs_step(x2, 0, 2);
    let w3 = w2.update(0, mx(w2[0], w2[2])).update(2, mn(w2[0], w2[2]));
    let a0_2 = mx(a0_1, a2_1);
    let a2_2 = mn(a0_1, a2_1);
    assert(w3[0] == a0_2 && w3[2] == a2_2);
    let x4 = cs_moves(x3, 1, 3);
    lemma_cs_step(x3, 1, 3);
    let w4 = w3.update(1, mx(w3[1], w3[3])).update(3, mn(w3[1], w3[3]));
    let a1_2 = mx(a1_1, a3_1);
    let a3_2 = mn(a1_1, a3_1);
    assert(w4[1] == a1_2 && w4[3] == a3_2);
    let x5 = cs_moves(x4, 1, 2);
    lemma_cs_step(x4, 1, 2);
    let w5 = w4.update(1, mx(w4[1], w4[2])).update(2, mn(w4[1], w4[2]));
    let a1_3 = mx(a1_2, a2_2);
    let a2_3 = mn(a1_2, a2_2);
    assert(w5[1] == a1_3 && w5[2] == a2_3);
    let x6 = cs_moves(x5, 0, 4);
    lemma_cs_step(x5, 0, 4);
    let w6 = w5.update(0, mx(w5[0], w5[4])).update(4, mn(w5[0], w5[4]));
    let a0_3 = mx(a0_2, a4_0);
    let a4_1 = mn(a0_2, a4_0);
    assert(w6[0] == a0_3 && w6[4] == a4_1);
    let x7 = cs_moves(x6, 2, 4);
    lemma_cs_step(x6, 2, 4);
    let w7 = w6.update(2, mx(w6[2], w6[4])).update(4, mn(w6[2], w6[4]));
    let a2_4 = mx(a2_3, a4_1);
    let a4_2 = mn(a2_3, a4_1);
    assert(w7[2] == a2_4 && w7[4] == a4_2);
    let x8 = cs_moves(x7, 1, 2);
    lemma_cs_step(x7, 1, 2);
    let w8 = w7.update(1, mx(w7[1], w7[2])).update(2, mn(w7[1], w7[2]));
    let a1_4 = mx(a1_3, a2_4);
    let a2_5 = mn(a1_3, a2_4);
    assert(w8[1] == a1_4 && w8[2] == a2_5);
    let x9 = cs_moves(x8, 3, 4);
    lemma_cs_step(x8, 3, 4);
    let w9 = w8.update(3, mx(w8[3], w8[4])).update(4, mn(w8[3], w8[4]));
    let a3_3 = mx(a3_2, a4_2);
    let a4_3 = mn(a3_2, a4_2);
    assert(w9[3] == a3_3 && w9[4] == a4_3);
    assert(weights(x9) == w9);
    let w = net5_w(weights(x0));
    assert(w == seq![a0_3, a1_4, a2_5, a3_3, a4_3]);
    assert(w9[0] == w[0]);
    assert(w9[1] == w[1]);
    assert(w9[2] == w[2]);
    assert(w9[3] == w[3]);
    assert(w9[4] == w[4]);
}

/// The network for 6 entries, applied to a move list.
pub open spec fn net6_m(x0: Seq<MoveType>) -> Seq<MoveType> {
    let x1 = cs_moves(x0, 0, 1);
    let x2 = cs_moves(x1, 2, 3);
    let x3 = cs_moves(x2, 4, 5);
    let x4 = cs_moves(x3, 0, 2);
    let x5 = cs_moves(x4, 1, 3);
    let x6 = cs_moves(x5, 1, 2);
    let x7 = cs_moves(x6, 0, 4);
    let x8 = cs_moves(x7, 1, 5);
    let x9 = cs_moves(x8, 2, 4);
    let x10 = cs_moves(x9, 3, 5);
    let x11 = cs_moves(x10, 1, 2);
    let x12 = cs_moves(x11, 3, 4);
    x12
}

/// The network for 6 entries, applied to the first 6 weights of `x`.
pub open spec fn net6_w(x: Seq<int>) -> Seq<int> {
    let a0_0 = x[0];
    let a1_0 = x[1];
    let a2_0 = x[2];
    let a3_0 = x[3];
    let a4_0 = x[4];
    let a5_0 = x[5];
    let a0_1 = mx(a0_0, a1_0);
    let a1_1 = mn(a0_0, a1_0);
    let a2_1 = mx(a2_0, a3_0);
    let a3_1 = mn(a2_0, a3_0);
    let a4_1 = mx(a4_0, a5_0);
    let a5_1 = mn(a4_0, a5_0);
    let a0_2 = mx(a0_1, a2_1);
    let a2_2 = mn(a0_1, a2_1);
    let a1_2 = mx(a1_1, a3_1);
    let a3_2 = mn(a1_1, a3_1);
    let a1_3 = mx(a1_2, a2_2);
    let a2_3 = mn(a1_2, a2_2);
    let a0_3 = mx(a0_2, a4_1);
    let a4_2 = mn(a0_2, a4_1);
    let a1_4 = mx(a1_3, a5_1);
    let a5_2 = mn(a1_3, a5_1);
    let a2_4 = mx(a2_3, a4_2);
    let a4_3 = mn(a2_3, a4_2);
    let a3_3 = mx(a3_2, a5_2);
    let a5_3 = mn(a3_2, a5_2);
    let a1_5 = mx(a1_4, a2_4);
    let a2_5 = mn(a1_4, a2_4);
    let a3_4 = mx(a3_3, a4_3);
    let a4_4 = mn(a3_3, a4_3);
    seq![a0_3, a1_5, a2_5, a3_4, a4_4, a5_3]
}

/// The network for 6 entries, applied to the first 6 booleans of `x`.
pub open spec fn net6_b(x: Seq<bool>) -> Seq<bool> {
    let a0_0 = x[0];
    let a1_0 = x[1];
    let a2_0 = x[2];
    let a3_0 = x[3];
    let a4_0 = x[4];
    let a5_0 = x[5];
    let a0_1 = a0_0 || a1_0;
    let a1_1 = a0_0 && a1_0;
    let a2_1 = a2_0 || a3_0;
    let a3_1 = a2_0 && a3_0;
    let a4_1 = a4_0 || a5_0;
    let a5_1 = a4_0 && a5_0;
    let a0_2 = a0_1 || a2_1;
    let a2_2 = a0_1 && a2_1;
    let a1_2 = a1_1 || a3_1;
    let a3_2 = a1_1 && a3_1;
    let a1_3 = a1_2 || a2_2;
    let a2_3 = a1_2 && a2_2;
    let a0_3 = a0_2 || a4_1;
    let a4_2 = a0_2 && a4_1;
    let a1_4 = a1_3 || a5_1;
    let a5_2 = a1_3 && a5_1;
    let a2_4 = a2_3 || a4_2;
    let a4_3 = a2_3 && a4_2;
    let a3_3 = a3_2 || a5_2;
    let a5_3 = a3_2 && a5_2;
    let a1_5 = a1_4 || a2_4;
    let a2_5 = a1_4 && a2_4;
    let a3_4 = a3_3 || a4_3;
    let a4_4 = a3_3 && a4_3;
    seq![a0_3, a1_5, a2_5, a3_4, a4_4, a5_3]
}

proof fn lemma_net6_thr(x: Seq<int>, t: int)
    requires
        x.len() >= 6,
    ensures
        thr(net6_w(x), t) == net6_b(thr(x, t)),
{
    let a0_0 = x[0];
    let b0_0 = thr(x, t)[0];
    assert((a0_0 >= t) == b0_0);
    let a1_0 = x[1];
    let b1_0 = thr(x, t)[1];
    assert((a1_0 >= t) == b1_0);
    let a2_0 = x[2];
    let b2_0 = thr(x, t)[2];
    assert((a2_0 >= t) == b2_0);
    let a3_0 = x[3];
    let b3_0 = thr(x, t)[3];
    assert((a3_0 >= t) == b3_0);
    let a4_0 = x[4];
    let b4_0 = thr(x, t)[4];
    assert((a4_0 >= t) == b4_0);
    let a5_0 = x[5];
    let b5_0 = thr(x, t)[5];
    assert((a5_0 >= t) == b5_0);
    let a0_1 = mx(a0_0, a1_0);
    let a1_1 = mn(a0_0, a1_0);
    let b0_1 = b0_0 || b1_0;
    let b1_1 = b0_0 && b1_0;
    lemma_mx_mn_thr(a0_0, a1_0, t);
    assert((a0_1 >= t) == b0_1 && (a1_1 >= t) == b1_1);
    let a2_1 = mx(a2_0, a3_0);
    let a3_1 = mn(a2_0, a3_0);
    let b2_1 = b2_0 || b3_0;
    let b3_1 = b2_0 && b3_0;
    lemma_mx_mn_thr(a2_0, a3_0, t);
    assert((a2_1 >= t) == b2_1 && (a3_1 >= t) == b3_1);
    let a4_1 = mx(a4_0, a5_0);
    let a5_1 = mn(a4_0, a5_0);
    let b4_1 = b4_0 || b5_0;
    let b5_1 = b4_0 && b5_0;
    lemma_mx_mn_thr(a4_0, a5_0, t);
    assert((a4_1 >= t) == b4_1 && (a5_1 >= t) == b5_1);
    let a0_2 = mx(a0_1, a2_1);
    let a2_2 = mn(a0_1, a2_1);
    let b0_2 = b0_1 || b2_1;
    let b2_2 = b0_1 && b2_1;
    lemma_mx_mn_thr(a0_1, a2_1, t);
    assert((a0_2 >= t) == b0_2 && (a2_2 >= t) == b2_2);
    let a1_2 = mx(a1_1, a3_1);
    let a3_2 = mn(a1_1, a3_1);
    let b1_2 = b1_1 || b3_1;
    let b3_2 = b1_1 && b3_1;
    lemma_mx_mn_thr(a1_1, a3_1, t);
    assert((a1_2 >= t) == b1_2 && (a3_2 >= t) == b3_2);
    let a1_3 = mx(a1_2, a2_2);
    let a2_3 = mn(a1_2, a2_2);
    let b1_3 = b1_2 || b2_2;
    let b2_3 = b1_2 && b2_2;
    lemma_mx_mn_thr(a1_2, a2_2, t);
    assert((a1_3 >= t) == b1_3 && (a2_3 >= t) == b2_3);
    let a0_3 = mx(a0_2, a4_1);
    let a4_2 = mn(a0_2, a4_1);
    let b0_3 = b0_2 || b4_1;
    let b4_2 = b0_2 && b4_1;
    lemma_mx_mn_thr(a0_2, a4_1, t);
    assert((a0_3 >= t) == b0_3 && (a4_2 >= t) == b4_2);
    let a1_4 = mx(a1_3, a5_1);
    let a5_2 = mn(a1_3, a5_1);
    let b1_4 = b1_3 || b5_1;
    let b5_2 = b1_3 && b5_1;
    lemma_mx_mn_thr(a1_3, a5_1, t);
    assert((a1_4 >= t) == b1_4 && (a5_2 >= t) == b5_2);
    let a2_4 = mx(a2_3, a4_2);
    let a4_3 = mn(a2_3, a4_2);
    let b2_4 = b2_3 || b4_2;
    let b4_3 = b2_3 && b4_2;
    lemma_mx_mn_thr(a2_3, a4_2, t);
    assert((a2_4 >= t) == b2_4 && (a4_3 >= t) == b4_3);
    let a3_3 = mx(a3_2, a5_2);
    let a5_3 = mn(a3_2, a5_2);
    let b3_3 = b3_2 || b5_2;
    let b5_3 = b3_2 && b5_2;
    lemma_mx_mn_thr(a3_2, a5_2, t);
    assert((a3_3 >= t) == b3_3 && (a5_3 >= t) == b5_3);
    let a1_5 = mx(a1_4, a2_4);
    let a2_5 = mn(a1_4, a2_4);
    let b1_5 = b1_4 || b2_4;
    let b2_5 = b1_4 && b2_4;
    lemma_mx_mn_thr(a1_4, a2_4, t);
    assert((a1_5 >= t) == b1_5 && (a2_5 >= t) == b2_5);
    let a3_4 = mx(a3_3, a4_3);
    let a4_4 = mn(a3_3, a4_3);
    let b3_4 = b3_3 || b4_3;
    let b4_4 = b3_3 && b4_3;
    lemma_mx_mn_thr(a3_3, a4_3, t);
    assert((a3_4 >= t) == b3_4 && (a4_4 >= t) == b4_4);
    assert(thr(net6_w(x), t) =~= net6_b(thr(x, t)));
}

proof fn lemma_net6_bool(x: Seq<bool>)
    requires
        x.len() >= 6,
    ensures
        sorted_bool(net6_b(x), 6),
{
}

/// The network for 6 entries sorts every weight sequence.
pub proof fn lemma_net6_sorts(x: Seq<int>)
    requires
        x.len() >= 6,
    ensures
        sorted_desc(net6_w(x), 6),
{
    let out = net6_w(x);
    assert forall|i: int, j: int| 0 <= i < j < 6 implies out[i] >= out[j] by {
        if out[i] < out[j] {
            let t = out[j];
            lemma_net6_thr(x, t);
            lemma_net6_bool(thr(x, t));
            assert(thr(out, t)[j]);
            assert(!thr(out, t)[i]);
        }
    }
}

/// Applying the network for 6 entries to a move list keeps the multiset
/// of moves and leaves the tail alone.
proof fn lemma_net6_perm(x0: Seq<MoveType>)
    requires
        x0.len() == 14,
    ensures
        net6_m(x0).len() == 14,
        net6_m(x0).to_multiset() == x0.to_multiset(),
        forall|k: int| 6 <= k < 14 ==> #[trigger] net6_m(x0)[k] == x0[k],
{
    let x1 = cs_moves(x0, 0, 1);
    lemma_cs_multiset(x0, 0, 1);
    let x2 = cs_moves(x1, 2, 3);
    lemma_cs_multiset(x1, 2, 3);
    let x3 = cs_moves(x2, 4, 5);
    lemma_cs_multiset(x2, 4, 5);
    let x4 = cs_moves(x3, 0, 2);
    lemma_cs_multiset(x3, 0, 2);
    let x5 = cs_moves(x4, 1, 3);
    lemma_cs_multiset(x4, 1, 3);
    let x6 = cs_moves(x5, 1, 2);
    lemma_cs_multiset(x5, 1, 2);
    let x7 = cs_moves(x6, 0, 4);
    lemma_cs_multiset(x6, 0, 4);
    let x8 = cs_moves(x7, 1, 5);
    lemma_cs_multiset(x7, 1, 5);
    let x9 = cs_moves(x8, 2, 4);
    lemma_cs_multiset(x8, 2, 4);
    let x10 = cs_moves(x9, 3, 5);
    lemma_cs_multiset(x9, 3, 5);
    let x11 = cs_moves(x10, 1, 2);
    lemma_cs_multiset(x10, 1, 2);
    let x12 = cs_moves(x11, 3, 4);
    lemma_cs_multiset(x11, 3, 4);
}

/// Applying the network for 6 entries to a move list applies it to the
/// weights.
proof fn lemma_net6_link(x0: Seq<MoveType>)
    requires
        x0.len() == 14,
    ensures
        forall|k: int| 0 <= k < 6 ==> #[trigger] weights(net6_m(x0))[k] == net6_w(weights(x0))[k],
{
    let w0 = weights(x0);
    let a0_0 = w0[0];
    let a1_0 = w0[1];
    let a2_0 = w0[2];
    let a3_0 = w0[3];
    let a4_0 = w0[4];
    let a5_0 = w0[5];
    let x1 = cs_moves(x0, 0, 1);
    lemma_cs_step(x0, 0, 1);
    let w1 = w0.update(0, mx(w0[0], w0[1])).update(1, mn(w0[0], w0[1]));
    let a0_1 = mx(a0_0, a1_0);
    let a1_1 = mn(a0_0, a1_0);
    assert(w1[0] == a0_1 && w1[1] == a1_1);
    let x2 = cs_moves(x1, 2, 3);
    lemma_cs_step(x1, 2, 3);
    let w2 = w1.update(2, mx(w1[2], w1[3])).update(3, mn(w1[2], w1[3]));
    let a2_1 = mx(a2_0, a3_0);
    let a3_1 = mn(a2_0, a3_0);
    assert(w2[2] == a2_1 && w2[3] == a3_1);
    let x3 = cs_moves(x2, 4, 5);
    lemma_cs_step(x2, 4, 5);
    let w3 = w2.update(4, mx(w2[4], w2[5])).update(5, mn(w2[4], w2[5]));
    let a4_1 = mx(a4_0, a5_0);
    let a5_1 = mn(a4_0, a5_0);
    assert(w3[4] == a4_1 && w3[5] == a5_1);
    let x4 = cs_moves(x3, 0, 2);
    lemma_cs_step(x3, 0, 2);
    let w4 = w3.update(0, mx(w3[0], w3[2])).update(2, mn(w3[0], w3[2]));
    let a0_2 = mx(a0_1, a2_1);
    let a2_2 = mn(a0_1, a2_1);
    assert(w4[0] == a0_2 && w4[2] == a2_2);
    let x5 = cs_moves(x4, 1, 3);
    lemma_cs_step(x4, 1, 3);
    let w5 = w4.update(1, mx(w4[1], w4[3])).update(3, mn(w4[1], w4[3]));
    let a1_2 = mx(a1_1, a3_1);
    let a3_2 = mn(a1_1, a3_1);
    assert(w5[1] == a1_2 && w5[3] == a3_2);
    let x6 = cs_moves(x5, 1, 2);
    lemma_cs_step(x5, 1, 2);
    let w6 = w5.update(1, mx(w5[1], w5[2])).update(2, mn(w5[1], w5[2]));
    let a1_3 = mx(a1_2, a2_2);
    let a2_3 = mn(a1_2, a2_2);
    assert(w6[1] == a1_3 && w6[2] == a2_3);
    let x7 = cs_moves(x6, 0, 4);
    lemma_cs_step(x6, 0, 4);
    let w7 = w6.update(0, mx(w6[0], w6[4])).update(4, mn(w6[0], w6[4]));
    let a0_3 = mx(a0_2, a4_1);
    let a4_2 = mn(a0_2, a4_1);
    assert(w7[0] == a0_3 && w7[4] == a4_2);
    let x8 = cs_moves(x7, 1, 5);
    lemma_cs_step(x7, 1, 5);
    let w8 = w7.update(1, mx(w7[1], w7[5])).update(5, mn(w7[1], w7[5]));
    let a1_4 = mx(a1_3, a5_1);
    let a5_2 = mn(a1_3, a5_1);
    assert(w8[1] == a1_4 && w8[5] == a5_2);
    let x9 = cs_moves(x8, 2, 4);
    lemma_cs_step(x8, 2, 4);
    let w9 = w8.update(2, mx(w8[2], w8[4])).update(4, mn(w8[2], w8[4]));
    let a2_4 = mx(a2_3, a4_2);
    let a4_3 = mn(a2_3, a4_2);
    assert(w9[2] == a2_4 && w9[4] == a4_3);
    let x10 = cs_moves(x9, 3, 5);
    lemma_cs_step(x9, 3, 5);
    let w10 = w9.update(3, mx(w9[3], w9[5])).update(5, mn(w9[3], w9[5]));
    let a3_3 = mx(a3_2, a5_2);
    let a5_3 = mn(a3_2, a5_2);
    assert(w10[3] == a3_3 && w10[5] == a5_3);
    let x11 = cs_moves(x10, 1, 2);
    lemma_cs_step(x10, 1, 2);
    let w11 = w10.update(1, mx(w10[1], w10[2])).update(2, mn(w10[1], w10[2]));
    let a1_5 = mx(a1_4, a2_4);
    let a2_5 = mn(a1_4, a2_4);
    assert(w11[1] == a1_5 && w11[2] == a2_5);
    let x12 = cs_moves(x11, 3, 4);
    lemma_cs_step(x11, 3, 4);
    let w12 = w11.update(3, mx(w11[3], w11[4])).update(4, mn(w11[3], w11[4]));
    let a3_4 = mx(a3_3, a4_3);
    let a4_4 = mn(a3_3, a4_3);
    assert(w12[3] == a3_4 && w12[4] == a4_4);
    assert(weights(x12) == w12);
    let w = net6_w(weights(x0));
    assert(w == seq![a0_3, a1_5, a2_5, a3_4, a4_4, a5_3]);
    assert(w12[0] == w[0]);
    assert(w12[1] == w[1]);
    assert(w12[2] == w[2]);
    assert(w12[3] == w[3]);
    assert(w12[4] == w[4]);
    assert(w12[5] == w[5]);
}

/// The network for 7 entries, applied to a move list.
pub open spec fn net7_m(x0: Seq<MoveType>) -> Seq<MoveType> {
    let x1 = cs_moves(x0, 0, 1);
    let x2 = cs_moves(x1, 2, 3);
    let x3 = cs_moves(x2, 4, 5);
    let x4 = cs_moves(x3, 0, 2);
    let x5 = cs_moves(x4, 4, 6);
    let x6 = cs_moves(x5, 1, 3);
    let x7 = cs_moves(x6, 1, 2);
    let x8 = cs_moves(x7, 5, 6);
    let x9 = cs_moves(x8, 0, 4);
    let x10 = cs_moves(x9, 1, 5);
    let x11 = cs_moves(x10, 2, 6);
    let x12 = cs_moves(x11, 2, 4);
    let x13 = cs_moves(x12, 3, 5);
    let x14 = cs_moves(x13, 1, 2);
    let x15 = cs_moves(x14, 3, 4);
    let x16 = cs_moves(x15, 5, 6);
    x16
}

/// The network for 7 entries, applied to the first 7 weights of `x`.
pub open spec fn net7_w(x: Seq<int>) -> Seq<int> {
    let a0_0 = x[0];
    let a1_0 = x[1];
    let a2_0 = x[2];
    let a3_0 = x[3];
    let a4_0 = x[4];
    let a5_0 = x[5];
    let a6_0 = x[6];
    let a0_1 = mx(a0_0, a1_0);
    let a1_1 = mn(a0_0, a1_0);
    let a2_1 = mx(a2_0, a3_0);
    let a3_1 = mn(a2_0, a3_0);
    let a4_1 = mx(a4_0, a5_0);
    let a5_1 = mn(a4_0, a5_0);
    let a0_2 = mx(a0_1, a2_1);
    let a2_2 = mn(a0_1, a2_1);
    let a4_2 = mx(a4_1, a6_0);
    let a6_1 = mn(a4_1, a6_0);
    let a1_2 = mx(a1_1, a3_1);
    let a3_2 = mn(a1_1, a3_1);
    let a1_3 = mx(a1_2, a2_2);
    let a2_3 = mn(a1_2, a2_2);
    let a5_2 = mx(a5_1, a6_1);
    let a6_2 = mn(a5_1, a6_1);
    let a0_3 = mx(a0_2, a4_2);
    let a4_3 = mn(a0_2, a4_2);
    let a1_4 = mx(a1_3, a5_2);
    let a5_3 = mn(a1_3, a5_2);
    let a2_4 = mx(a2_3, a6_2);
    let a6_3 = mn(a2_3, a6_2);
    let a2_5 = mx(a2_4, a4_3);
    let a4_4 = mn(a2_4, a4_3);
    let a3_3 = mx(a3_2, a5_3);
    let a5_4 = mn(a3_2, a5_3);
    let a1_5 = mx(a1_4, a2_5);
    let a2_6 = mn(a1_4, a2_5);
    let a3_4 = mx(a3_3, a4_4);
    let a4_5 = mn(a3_3, a4_4);
    let a5_5 = mx(a5_4, a6_3);
    let a6_4 = mn(a5_4, a6_3);
    seq![a0_3, a1_5, a2_6, a3_4, a4_5, a5_5, a6_4]
}

/// The network for 7 entries, applied to the first 7 booleans of `x`.
pub open spec fn net7_b(x: Seq<bool>) -> Seq<bool> {
    let a0_0 = x[0];
    let a1_0 = x[1];
    let a2_0 = x[2];
    let a3_0 = x[3];
    let a4_0 = x[4];
    let a5_0 = x[5];
    let a6_0 = x[6];
    let a0_1 = a0_0 || a1_0;
    let a1_1 = a0_0 && a1_0;
    let a2_1 = a2_0 || a3_0;
    let a3_1 = a2_0 && a3_0;
    let a4_1 = a4_0 || a5_0;
    let a5_1 = a4_0 && a5_0;
    let a0_2 = a0_1 || a2_1;
    let a2_2 = a0_1 && a2_1;
    let a4_2 = a4_1 || a6_0;
    let a6_1 = a4_1 && a6_0;
    let a1_2 = a1_1 || a3_1;
    let a3_2 = a1_1 && a3_1;
    let a1_3 = a1_2 || a2_2;
    let a2_3 = a1_2 && a2_2;
    let a5_2 = a5_1 || a6_1;
    let a6_2 = a5_1 && a6_1;
    let a0_3 = a0_2 || a4_2;
    let a4_3 = a0_2 && a4_2;
    let a1_4 = a1_3 || a5_2;
    let a5_3 = a1_3 && a5_2;
    let a2_4 = a2_3 || a6_2;
    let a6_3 = a2_3 && a6_2;
    let a2_5 = a2_4 || a4_3;
    let a4_4 = a2_4 && a4_3;
    let a3_3 = a3_2 || a5_3;
    let a5_4 = a3_2 && a5_3;
    let a1_5 = a1_4 || a2_5;
    let a2_6 = a1_4 && a2_5;
    let a3_4 = a3_3 || a4_4;
    let a4_5 = a3_3 && a4_4;
    let a5_5 = a5_4 || a6_3;
    let a6_4 = a5_4 && a6_3;
    seq![a0_3, a1_5, a2_6, a3_4, a4_5, a5_5, a6_4]
}

proof fn lemma_net7_thr(x: Seq<int>, t: int)
    requires
        x.len() >= 7,
    ensures
        thr(net7_w(x), t) == net7_b(thr(x, t)),
{
    let a0_0 = x[0];
    let b0_0 = thr(x, t)[0];
    assert((a0_0 >= t) == b0_0);
    let a1_0 = x[1];
    let b1_0 = thr(x, t)[1];
    assert((a1_0 >= t) == b1_0);
    let a2_0 = x[2];
    let b2_0 = thr(x, t)[2];
    assert((a2_0 >= t) == b2_0);
    let a3_0 = x[3];
    let b3_0 = thr(x, t)[3];
    assert((a3_0 >= t) == b3_0);
    let a4_0 = x[4];
    let b4_0 = thr(x, t)[4];
    assert((a4_0 >= t) == b4_0);
    let a5_0 = x[5];
    let b5_0 = thr(x, t)[5];
    assert((a5_0 >= t) == b5_0);
    let a6_0 = x[6];
    let b6_0 = thr(x, t)[6];
    assert((a6_0 >= t) == b6_0);
    let a0_1 = mx(a0_0, a1_0);
    let a1_1 = mn(a0_0, a1_0);
    let b0_1 = b0_0 || b1_0;
    let b1_1 = b0_0 && b1_0;
    lemma_mx_mn_thr(a0_0, a1_0, t);
    assert((a0_1 >= t) == b0_1 && (a1_1 >= t) == b1_1);
    let a2_1 = mx(a2_0, a3_0);
    let a3_1 = mn(a2_0, a3_0);
    let b2_1 = b2_0 || b3_0;
    let b3_1 = b2_0 && b3_0;
    lemma_mx_mn_thr(a2_0, a3_0, t);
    assert((a2_1 >= t) == b2_1 && (a3_1 >= t) == b3_1);
    let a4_1 = mx(a4_0, a5_0);
    let a5_1 = mn(a4_0, a5_0);
    let b4_1 = b4_0 || b5_0;
    let b5_1 = b4_0 && b5_0;
    lemma_mx_mn_thr(a4_0, a5_0, t);
    assert((a4_1 >= t) == b4_1 && (a5_1 >= t) == b5_1);
    let a0_2 = mx(a0_1, a2_1);
    let a2_2 = mn(a0_1, a2_1);
    let b0_2 = b0_1 || b2_1;
    let b2_2 = b0_1 && b2_1;
    lemma_mx_mn_thr(a0_1, a2_1, t);
    assert((a0_2 >= t) == b0_2 && (a2_2 >= t) == b2_2);
    let a4_2 = mx(a4_1, a6_0);
    let a6_1 = mn(a4_1, a6_0);
    let b4_2 = b4_1 || b6_0;
    let b6_1 = b4_1 && b6_0;
    lemma_mx_mn_thr(a4_1, a6_0, t);
    assert((a4_2 >= t) == b4_2 && (a6_1 >= t) == b6_1);
    let a1_2 = mx(a1_1, a3_1);
    let a3_2 = mn(a1_1, a3_1);
    let b1_2 = b1_1 || b3_1;
    let b3_2 = b1_1 && b3_1;
    lemma_mx_mn_thr(a1_1, a3_1, t);
    assert((a1_2 >= t) == b1_2 && (a3_2 >= t) == b3_2);
    let a1_3 = mx(a1_2, a2_2);
    let a2_3 = mn(a1_2, a2_2);
    let b1_3 = b1_2 || b2_2;
    let b2_3 = b1_2 && b2_2;
    lemma_mx_mn_thr(a1_2, a2_2, t);
    assert((a1_3 >= t) == b1_3 && (a2_3 >= t) == b2_3);
    let a5_2 = mx(a5_1, a6_1);
    let a6_2 = mn(a5_1, a6_1);
    let b5_2 = b5_1 || b6_1;
    let b6_2 = b5_1 && b6_1;
    lemma_mx_mn_thr(a5_1, a6_1, t);
    assert((a5_2 >= t) == b5_2 && (a6_2 >= t) == b6_2);
    let a0_3 = mx(a0_2, a4_2);
    let a4_3 = mn(a0_2, a4_2);
    let b0_3 = b0_2 || b4_2;
    let b4_3 = b0_2 && b4_2;
    lemma_mx_mn_thr(a0_2, a4_2, t);
    assert((a0_3 >= t) == b0_3 && (a4_3 >= t) == b4_3);
    let a1_4 = mx(a1_3, a5_2);
    let a5_3 = mn(a1_3, a5_2);
    let b1_4 = b1_3 || b5_2;
    let b5_3 = b1_3 && b5_2;
    lemma_mx_mn_thr(a1_3, a5_2, t);
    assert((a1_4 >= t) == b1_4 && (a5_3 >= t) == b5_3);
    let a2_4 = mx(a2_3, a6_2);
    let a6_3 = mn(a2_3, a6_2);
    let b2_4 = b2_3 || b6_2;
    let b6_3 = b2_3 && b6_2;
    lemma_mx_mn_thr(a2_3, a6_2, t);
    assert((a2_4 >= t) == b2_4 && (a6_3 >= t) == b6_3);
    let a2_5 = mx(a2_4, a4_3);
    let a4_4 = mn(a2_4, a4_3);
    let b2_5 = b2_4 || b4_3;
    let b4_4 = b2_4 && b4_3;
    lemma_mx_mn_thr(a2_4, a4_3, t);
    assert((a2_5 >= t) == b2_5 && (a4_4 >= t) == b4_4);
    let a3_3 = mx(a3_2, a5_3);
    let a5_4 = mn(a3_2, a5_3);
    let b3_3 = b3_2 || b5_3;
    let b5_4 = b3_2 && b5_3;
    lemma_mx_mn_thr(a3_2, a5_3, t);
    assert((a3_3 >= t) == b3_3 && (a5_4 >= t) == b5_4);
    let a1_5 = mx(a1_4, a2_5);
    let a2_6 = mn(a1_4, a2_5);
    let b1_5 = b1_4 || b2_5;
    let b2_6 = b1_4 && b2_5;
    lemma_mx_mn_thr(a1_4, a2_5, t);
    assert((a1_5 >= t) == b1_5 && (a2_6 >= t) == b2_6);
    let a3_4 = mx(a3_3, a4_4);
    let a4_5 = mn(a3_3, a4_4);
    let b3_4 = b3_3 || b4_4;
    let b4_5 = b3_3 && b4_4;
    lemma_mx_mn_thr(a3_3, a4_4, t);
    assert((a3_4 >= t) == b3_4 && (a4_5 >= t) == b4_5);
    let a5_5 = mx(a5_4, a6_3);
    let a6_4 = mn(a5_4, a6_3);
    let b5_5 = b5_4 || b6_3;
    let b6_4 = b5_4 && b6_3;
    lemma_mx_mn_thr(a5_4, a6_3, t);
    assert((a5_5 >= t) == b5_5 && (a6_4 >= t) == b6_4);
    assert(thr(net7_w(x), t) =~= net7_b(thr(x, t)));
}

proof fn lemma_net7_bool(x: Seq<bool>)
    requires
        x.len() >= 7,
    ensures
        sorted_bool(net7_b(x), 7),
{
}

/// The network for 7 entries sorts every weight sequence.
pub proof fn lemma_net7_sorts(x: Seq<int>)
    requires
        x.len() >= 7,
    ensures
        sorted_desc(net7_w(x), 7),
{
    let out = net7_w(x);
    assert forall|i: int, j: int| 0 <= i < j < 7 implies out[i] >= out[j] by {
        if out[i] < out[j] {
            let t = out[j];
            lemma_net7_thr(x, t);
            lemma_net7_bool(thr(x, t));
            assert(thr(out, t)[j]);
            assert(!thr(out, t)[i]);
        }
    }
}

/// Applying the network for 7 entries to a move list keeps the multiset
/// of moves and leaves the tail alone.
proof fn lemma_net7_perm(x0: Seq<MoveType>)
    requires
        x0.len() == 14,
    ensures
        net7_m(x0).len() == 14,
        net7_m(x0).to_multiset() == x0.to_multiset(),
        forall|k: int| 7 <= k < 14 ==> #[trigger] net7_m(x0)[k] == x0[k],
{
    let x1 = cs_moves(x0, 0, 1);
    lemma_cs_multiset(x0, 0, 1);
    let x2 = cs_moves(x1, 2, 3);
    lemma_cs_multiset(x1, 2, 3);
    let x3 = cs_moves(x2, 4, 5);
    lemma_cs_multiset(x2, 4, 5);
    let x4 = cs_moves(x3, 0, 2);
    lemma_cs_multiset(x3, 0, 2);
    let x5 = cs_moves(x4, 4, 6);
    lemma_cs_multiset(x4, 4, 6);
    let x6 = cs_moves(x5, 1, 3);
    lemma_cs_multiset(x5, 1, 3);
    let x7 = cs_moves(x6, 1, 2);
    lemma_cs_multiset(x6, 1, 2);
    let x8 = cs_moves(x7, 5, 6);
    lemma_cs_multiset(x7, 5, 6);
    let x9 = cs_moves(x8, 0, 4);
    lemma_cs_multiset(x8, 0, 4);
    let x10 = cs_moves(x9, 1, 5);
    lemma_cs_multiset(x9, 1, 5);
    let x11 = cs_moves(x10, 2, 6);
    lemma_cs_multiset(x10, 2, 6);
    let x12 = cs_moves(x11, 2, 4);
    lemma_cs_multiset(x11, 2, 4);
    let x13 = cs_moves(x12, 3, 5);
    lemma_cs_multiset(x12, 3, 5);
    let x14 = cs_moves(x13, 1, 2);
    lemma_cs_multiset(x13, 1, 2);
    let x15 = cs_moves(x14, 3, 4);
    lemma_cs_multiset(x14, 3, 4);
    let x16 = cs_moves(x15, 5, 6);
    lemma_cs_multiset(x15, 5, 6);
}

/// Applying the network for 7 entries to a move list applies it to the
/// weights.
proof fn lemma_net7_link(x0: Seq<MoveType>)
    requires
        x0.len() == 14,
    ensures
        forall|k: int| 0 <= k < 7 ==> #[trigger] weights(net7_m(x0))[k] == net7_w(weights(x0))[k],
{
    let w0 = weights(x0);
    let a0_0 = w0[0];
    let a1_0 = w0[1];
    let a2_0 = w0[2];
    let a3_0 = w0[3];
    let a4_0 = w0[4];
    let a5_0 = w0[5];
    let a6_0 = w0[6];
    let x1 = cs_moves(x0, 0, 1);
    lemma_cs_step(x0, 0, 1);
    let w1 = w0.update(0, mx(w0[0], w0[1])).update(1, mn(w0[0], w0[1]));
    let a0_1 = mx(a0_0, a1_0);
    let a1_1 = mn(a0_0, a1_0);
    assert(w1[0] == a0_1 && w1[1] == a1_1);
    let x2 = cs_moves(x1, 2, 3);
    lemma_cs_step(x1, 2, 3);
    let w2 = w1.update(2, mx(w1[2], w1[3])).update(3, mn(w1[2], w1[3]));
    let a2_1 = mx(a2_0, a3_0);
    let a3_1 = mn(a2_0, a3_0);
    assert(w2[2] == a2_1 && w2[3] == a3_1);
    let x3 = cs_moves(x2, 4, 5);
    lemma_cs_step(x2, 4, 5);
    let w3 = w2.update(4, mx(w2[4], w2[5])).update(5, mn(w2[4], w2[5]));
    let a4_1 = mx(a4_0, a5_0);
    let a5_1 = mn(a4_0, a5_0);
    assert(w3[4] == a4_1 && w3[5] == a5_1);
    let x4 = cs_moves(x3, 0, 2);
    lemma_cs_step(x3, 0, 2);
    let w4 = w3.update(0, mx(w3[0], w3[2])).update(2, mn(w3[0], w3[2]));
    let a0_2 = mx(a0_1, a2_1);
    let a2_2 = mn(a0_1, a2_1);
    assert(w4[0] == a0_2 && w4[2] == a2_2);
    let x5 = cs_moves(x4, 4, 6);
    lemma_cs_step(x4, 4, 6);
    let w5 = w4.update(4, mx(w4[4], w4[6])).update(6, mn(w4[4], w4[6]));
    let a4_2 = mx(a4_1, a6_0);
    let a6_1 = mn(a4_1, a6_0);
    assert(w5[4] == a4_2 && w5[6] == a6_1);
    let x6 = cs_moves(x5, 1, 3);
    lemma_cs_step(x5, 1, 3);
    let w6 = w5.update(1, mx(w5[1], w5[3])).update(3, mn(w5[1], w5[3]));
    let a1_2 = mx(a1_1, a3_1);
    let a3_2 = mn(a1_1, a3_1);
    assert(w6[1] == a1_2 && w6[3] == a3_2);
    let x7 = cs_moves(x6, 1, 2);
    lemma_cs_step(x6, 1, 2);
    let w7 = w6.update(1, mx(w6[1], w6[2])).update(2, mn(w6[1], w6[2]));
    let a1_3 = mx(a1_2, a2_2);
    let a2_3 = mn(a1_2, a2_2);
    assert(w7[1] == a1_3 && w7[2] == a2_3);
    let x8 = cs_moves(x7, 5, 6);
    lemma_cs_step(x7, 5, 6);
    let w8 = w7.update(5, mx(w7[5], w7[6])).update(6, mn(w7[5], w7[6]));
    let a5_2 = mx(a5_1, a6_1);
    let a6_2 = mn(a5_1, a6_1);
    assert(w8[5] == a5_2 && w8[6] == a6_2);
    let x9 = cs_moves(x8, 0, 4);
    lemma_cs_step(x8, 0, 4);
    let w9 = w8.update(0, mx(w8[0], w8[4])).update(4, mn(w8[0], w8[4]));
    let a0_3 = mx(a0_2, a4_2);
    let a4_3 = mn(a0_2, a4_2);
    assert(w9[0] == a0_3 && w9[4] == a4_3);
    let x10 = cs_moves(x9, 1, 5);
    lemma_cs_step(x9, 1, 5);
    let w10 = w9.update(1, mx(w9[1], w9[5])).update(5, mn(w9[1], w9[5]));
    let a1_4 = mx(a1_3, a5_2);
    let a5_3 = mn(a1_3, a5_2);
    assert(w10[1] == a1_4 && w10[5] == a5_3);
    let x11 = cs_moves(x10, 2, 6);
    lemma_cs_step(x10, 2, 6);
    let w11 = w10.update(2, mx(w10[2], w10[6])).update(6, mn(w10[2], w10[6]));
    let a2_4 = mx(a2_3, a6_2);
    let a6_3 = mn(a2_3, a6_2);
    assert(w11[2] == a2_4 && w11[6] == a6_3);
    let x12 = cs_moves(x11, 2, 4);
    lemma_cs_step(x11, 2, 4);
    let w12 = w11.update(2, mx(w11[2], w11[4])).update(4, mn(w11[2], w11[4]));
    let a2_5 = mx(a2_4, a4_3);
    let a4_4 = mn(a2_4, a4_3);
    assert(w12[2] == a2_5 && w12[4] == a4_4);
    let x13 = cs_moves(x12, 3, 5);
    lemma_cs_step(x12, 3, 5);
    let w13 = w12.update(3, mx(w12[3], w12[5])).update(5, mn(w12[3], w12[5]));
    let a3_3 = mx(a3_2, a5_3);
    let a5_4 = mn(a3_2, a5_3);
    assert(w13[3] == a3_3 && w13[5] == a5_4);
    let x14 = cs_moves(x13, 1, 2);
    lemma_cs_step(x13, 1, 2);
    let w14 = w13.update(1, mx(w13[1], w13[2])).update(2, mn(w13[1], w13[2]));
    let a1_5 = mx(a1_4, a2_5);
    let a2_6 = mn(a1_4, a2_5);
    assert(w14[1] == a1_5 && w14[2] == a2_6);
    let x15 = cs_moves(x14, 3, 4);
    lemma_cs_step(x14, 3, 4);
    let w15 = w14.update(3, mx(w14[3], w14[4])).update(4, mn(w14[3], w14[4]));
    let a3_4 = mx(a3_3, a4_4);
    let a4_5 = mn(a3_3, a4_4);
    assert(w15[3] == a3_4 && w15[4] == a4_5);
    let x16 = cs_moves(x15, 5, 6);
    lemma_cs_step(x15, 5, 6);
    let w16 = w15.update(5, mx(w15[5], w15[6])).update(6, mn(w15[5], w15[6]));
    let a5_5 = mx(a5_4, a6_3);
    let a6_4 = mn(a5_4, a6_3);
    assert(w16[5] == a5_5 && w16[6] == a6_4);
    assert(weights(x16) == w16);
    let w = net7_w(weights(x0));
    assert(w == seq![a0_3, a1_5, a2_6, a3_4, a4_5, a5_5, a6_4]);
    assert(w16[0] == w[0]);
    assert(w16[1] == w[1]);
    assert(w16[2] == w[2]);
    assert(w16[3] == w[3]);
    assert(w16[4] == w[4]);
    assert(w16[5] == w[5]);
    assert(w16[6] == w[6]);
}

/// The network for 8 entries, applied to a move list.
pub open spec fn net8_m(x0: Seq<MoveType>) -> Seq<MoveType> {
    let x1 = cs_moves(x0, 0, 1);
    let x2 = cs_moves(x1, 2, 3);
    let x3 = cs_moves(x2, 4, 5);
    let x4 = cs_moves(x3, 6, 7);
    let x5 = cs_moves(x4, 0, 2);
    let x6 = cs_moves(x5, 4, 6);
    let x7 = cs_moves(x6, 1, 3);
    let x8 = cs_moves(x7, 5, 7);
    let x9 = cs_moves(x8, 1, 2);
    let x10 = cs_moves(x9, 5, 6);
    let x11 = cs_moves(x10, 0, 4);
    let x12 = cs_moves(x11, 1, 5);
    let x13 = cs_moves(x12, 2, 6);
    let x14 = cs_moves(x13, 3, 7);
    let x15 = cs_moves(x14, 2, 4);
    let x16 = cs_moves(x15, 3, 5);
    let x17 = cs_moves(x16, 1, 2);
    let x18 = cs_moves(x17, 3, 4);
    let x19 = cs_moves(x18, 5, 6);
    x19
}

/// The network for 8 entries, applied to the first 8 weights of `x`.
pub open spec fn net8_w(x: Seq<int>) -> Seq<int> {
    let a0_0 = x[0];
    let a1_0 = x[1];
    let a2_0 = x[2];
    let a3_0 = x[3];
    let a4_0 = x[4];
    let a5_0 = x[5];
    let a6_0 = x[6];
    let a7_0 = x[7];
    let a0_1 = mx(a0_0, a1_0);
    let a1_1 = mn(a0_0, a1_0);
    let a2_1 = mx(a2_0, a3_0);
    let a3_1 = mn(a2_0, a3_0);
    let a4_1 = mx(a4_0, a5_0);
    let a5_1 = mn(a4_0, a5_0);
    let a6_1 = mx(a6_0, a7_0);
    let a7_1 = mn(a6_0, a7_0);
    let a0_2 = mx(a0_1, a2_1);
    let a2_2 = mn(a0_1, a2_1);
    let a4_2 = mx(a4_1, a6_1);
    let a6_2 = mn(a4_1, a6_1);
    let a1_2 = mx(a1_1, a3_1);
    let a3_2 = mn(a1_1, a3_1);
    let a5_2 = mx(a5_1, a7_1);
    let a7_2 = mn(a5_1, a7_1);
    let a1_3 = mx(a1_2, a2_2);
    let a2_3 = mn(a1_2, a2_2);
    let a5_3 = mx(a5_2, a6_2);
    let a6_3 = mn(a5_2, a6_2);
    let a0_3 = mx(a0_2, a4_2);
    let a4_3 = mn(a0_2, a4_2);
    let a1_4 = mx(a1_3, a5_3);
    let a5_4 = mn(a1_3, a5_3);
    let a2_4 = mx(a2_3, a6_3);
    let a6_4 = mn(a2_3, a6_3);
    let a3_3 = mx(a3_2, a7_2);
    let a7_3 = mn(a3_2, a7_2);
    let a2_5 = mx(a2_4, a4_3);
    let a4_4 = mn(a2_4, a4_3);
    let a3_4 = mx(a3_3, a5_4);
    let a5_5 = mn(a3_3, a5_4);
    let a1_5 = mx(a1_4, a2_5);
    let a2_6 = mn(a1_4, a2_5);
    let a3_5 = mx(a3_4, a4_4);
    let a4_5 = mn(a3_4, a4_4);
    let a5_6 = mx(a5_5, a6_4);
    let a6_5 = mn(a5_5, a6_4);
    seq![a0_3, a1_5, a2_6, a3_5, a4_5, a5_6, a6_5, a7_3]
}

/// The network for 8 entries, applied to the first 8 booleans of `x`.
pub open spec fn net8_b(x: Seq<bool>) -> Seq<bool> {
    let a0_0 = x[0];
    let a1_0 = x[1];
    let a2_0 = x[2];
    let a3_0 = x[3];
    let a4_0 = x[4];
    let a5_0 = x[5];
    let a6_0 = x[6];
    let a7_0 = x[7];
    let a0_1 = a0_0 || a1_0;
    let a1_1 = a0_0 && a1_0;
    let a2_1 = a2_0 || a3_0;
    let a3_1 = a2_0 && a3_0;
    let a4_1 = a4_0 || a5_0;
    let a5_1 = a4_0 && a5_0;
    let a6_1 = a6_0 || a7_0;
    let a7_1 = a6_0 && a7_0;
    let a0_2 = a0_1 || a2_1;
    let a2_2 = a0_1 && a2_1;
    let a4_2 = a4_1 || a6_1;
    let a6_2 = a4_1 && a6_1;
    let a1_2 = a1_1 || a3_1;
    let a3_2 = a1_1 && a3_1;
    let a5_2 = a5_1 || a7_1;
    let a7_2 = a5_1 && a7_1;
    let a1_3 = a1_2 || a2_2;
    let a2_3 = a1_2 && a2_2;
    let a5_3 = a5_2 || a6_2;
    let a6_3 = a5_2 && a6_2;
    let a0_3 = a0_2 || a4_2;
    let a4_3 = a0_2 && a4_2;
    let a1_4 = a1_3 || a5_3;
    let a5_4 = a1_3 && a5_3;
    let a2_4 = a2_3 || a6_3;
    let a6_4 = a2_3 && a6_3;
    let a3_3 = a3_2 || a7_2;
    let a7_3 = a3_2 && a7_2;
    let a2_5 = a2_4 || a4_3;
    let a4_4 = a2_4 && a4_3;
    let a3_4 = a3_3 || a5_4;
    let a5_5 = a3_3 && a5_4;
    let a1_5 = a1_4 || a2_5;
    let a2_6 = a1_4 && a2_5;
    let a3_5 = a3_4 || a4_4;
    let a4_5 = a3_4 && a4_4;
    let a5_6 = a5_5 || a6_4;
    let a6_5 = a5_5 && a6_4;
    seq![a0_3, a1_5, a2_6, a3_5, a4_5, a5_6, a6_5, a7_3]
}

proof fn lemma_net8_thr(x: Seq<int>, t: int)
    requires
        x.len() >= 8,
    ensures
        thr(net8_w(x), t) == net8_b(thr(x, t)),
{
    let a0_0 = x[0];
    let b0_0 = thr(x, t)[0];
    assert((a0_0 >= t) == b0_0);
    let a1_0 = x[1];
    let b1_0 = thr(x, t)[1];
    assert((a1_0 >= t) == b1_0);
    let a2_0 = x[2];
    let b2_0 = thr(x, t)[2];
    assert((a2_0 >= t) == b2_0);
    let a3_0 = x[3];
    let b3_0 = thr(x, t)[3];
    assert((a3_0 >= t) == b3_0);
    let a4_0 = x[4];
    let b4_0 = thr(x, t)[4];
    assert((a4_0 >= t) == b4_0);
    let a5_0 = x[5];
    let b5_0 = thr(x, t)[5];
    assert((a5_0 >= t) == b5_0);
    let a6_0 = x[6];
    let b6_0 = thr(x, t)[6];
    assert((a6_0 >= t) == b6_0);
    let a7_0 = x[7];
    let b7_0 = thr(x, t)[7];
    assert((a7_0 >= t) == b7_0);
    let a0_1 = mx(a0_0, a1_0);
    let a1_1 = mn(a0_0, a1_0);
    let b0_1 = b0_0 || b1_0;
    let b1_1 = b0_0 && b1_0;
    lemma_mx_mn_thr(a0_0, a1_0, t);
    assert((a0_1 >= t) == b0_1 && (a1_1 >= t) == b1_1);
    let a2_1 = mx(a2_0, a3_0);
    let a3_1 = mn(a2_0, a3_0);
    let b2_1 = b2_0 || b3_0;
    let b3_1 = b2_0 && b3_0;
    lemma_mx_mn_thr(a2_0, a3_0, t);
    assert((a2_1 >= t) == b2_1 && (a3_1 >= t) == b3_1);
    let a4_1 = mx(a4_0, a5_0);
    let a5_1 = mn(a4_0, a5_0);
    let b4_1 = b4_0 || b5_0;
    let b5_1 = b4_0 && b5_0;
    lemma_mx_mn_thr(a4_0, a5_0, t);
    assert((a4_1 >= t) == b4_1 && (a5_1 >= t) == b5_1);
    let a6_1 = mx(a6_0, a7_0);
    let a7_1 = mn(a6_0, a7_0);
    let b6_1 = b6_0 || b7_0;
    let b7_1 = b6_0 && b7_0;
    lemma_mx_mn_thr(a6_0, a7_0, t);
    assert((a6_1 >= t) == b6_1 && (a7_1 >= t) == b7_1);
    let a0_2 = mx(a0_1, a2_1);
    let a2_2 = mn(a0_1, a2_1);
    let b0_2 = b0_1 || b2_1;
    let b2_2 = b0_1 && b2_1;
    lemma_mx_mn_thr(a0_1, a2_1, t);
    assert((a0_2 >= t) == b0_2 && (a2_2 >= t) == b2_2);
    let a4_2 = mx(a4_1, a6_1);
    let a6_2 = mn(a4_1, a6_1);
    let b4_2 = b4_1 || b6_1;
    let b6_2 = b4_1 && b6_1;
    lemma_mx_mn_thr(a4_1, a6_1, t);
    assert((a4_2 >= t) == b4_2 && (a6_2 >= t) == b6_2);
    let a1_2 = mx(a1_1, a3_1);
    let a3_2 = mn(a1_1, a3_1);
    let b1_2 = b1_1 || b3_1;
    let b3_2 = b1_1 && b3_1;
    lemma_mx_mn_thr(a1_1, a3_1, t);
    assert((a1_2 >= t) == b1_2 && (a3_2 >= t) == b3_2);
    let a5_2 = mx(a5_1, a7_1);
    let a7_2 = mn(a5_1, a7_1);
    let b5_2 = b5_1 || b7_1;
    let b7_2 = b5_1 && b7_1;
    lemma_mx_mn_thr(a5_1, a7_1, t);
    assert((a5_2 >= t) == b5_2 && (a7_2 >= t) == b7_2);
    let a1_3 = mx(a1_2, a2_2);
    let a2_3 = mn(a1_2, a2_2);
    let b1_3 = b1_2 || b2_2;
    let b2_3 = b1_2 && b2_2;
    lemma_mx_mn_thr(a1_2, a2_2, t);
    assert((a1_3 >= t) == b1_3 && (a2_3 >= t) == b2_3);
    let a5_3 = mx(a5_2, a6_2);
    let a6_3 = mn(a5_2, a6_2);
    let b5_3 = b5_2 || b6_2;
    let b6_3 = b5_2 && b6_2;
    lemma_mx_mn_thr(a5_2, a6_2, t);
    assert((a5_3 >= t) == b5_3 && (a6_3 >= t) == b6_3);
    let a0_3 = mx(a0_2, a4_2);
    let a4_3 = mn(a0_2, a4_2);
    let b0_3 = b0_2 || b4_2;
    let b4_3 = b0_2 && b4_2;
    lemma_mx_mn_thr(a0_2, a4_2, t);
    assert((a0_3 >= t) == b0_3 && (a4_3 >= t) == b4_3);
    let a1_4 = mx(a1_3, a5_3);
    let a5_4 = mn(a1_3, a5_3);
    let b1_4 = b1_3 || b5_3;
    let b5_4 = b1_3 && b5_3;
    lemma_mx_mn_thr(a1_3, a5_3, t);
    assert((a1_4 >= t) == b1_4 && (a5_4 >= t) == b5_4);
    let a2_4 = mx(a2_3, a6_3);
    let a6_4 = mn(a2_3, a6_3);
    let b2_4 = b2_3 || b6_3;
    let b6_4 = b2_3 && b6_3;
    lemma_mx_mn_thr(a2_3, a6_3, t);
    assert((a2_4 >= t) == b2_4 && (a6_4 >= t) == b6_4);
    let a3_3 = mx(a3_2, a7_2);
    let a7_3 = mn(a3_2, a7_2);
    let b3_3 = b3_2 || b7_2;
    let b7_3 = b3_2 && b7_2;
    lemma_mx_mn_thr(a3_2, a7_2, t);
    assert((a3_3 >= t) == b3_3 && (a7_3 >= t) == b7_3);
    let a2_5 = mx(a2_4, a4_3);
    let a4_4 = mn(a2_4, a4_3);
    let b2_5 = b2_4 || b4_3;
    let b4_4 = b2_4 && b4_3;
    lemma_mx_mn_thr(a2_4, a4_3, t);
    assert((a2_5 >= t) == b2_5 && (a4_4 >= t) == b4_4);
    let a3_4 = mx(a3_3, a5_4);
    let a5_5 = mn(a3_3, a5_4);
    let b3_4 = b3_3 || b5_4;
    let b5_5 = b3_3 && b5_4;
    lemma_mx_mn_thr(a3_3, a5_4, t);
    assert((a3_4 >= t) == b3_4 && (a5_5 >= t) == b5_5);
    let a1_5 = mx(a1_4, a2_5);
    let a2_6 = mn(a1_4, a2_5);
    let b1_5 = b1_4 || b2_5;
    let b2_6 = b1_4 && b2_5;
    lemma_mx_mn_thr(a1_4, a2_5, t);
    assert((a1_5 >= t) == b1_5 && (a2_6 >= t) == b2_6);
    let a3_5 = mx(a3_4, a4_4);
    let a4_5 = mn(a3_4, a4_4);
    let b3_5 = b3_4 || b4_4;
    let b4_5 = b3_4 && b4_4;
    lemma_mx_mn_thr(a3_4, a4_4, t);
    assert((a3_5 >= t) == b3_5 && (a4_5 >= t) == b4_5);
    let a5_6 = mx(a5_5, a6_4);
    let a6_5 = mn(a5_5, a6_4);
    let b5_6 = b5_5 || b6_4;
    let b6_5 = b5_5 && b6_4;
    lemma_mx_mn_thr(a5_5, a6_4, t);
    assert((a5_6 >= t) == b5_6 && (a6_5 >= t) == b6_5);
    assert(thr(net8_w(x), t) =~= net8_b(thr(x, t)));
}

proof fn lemma_net8_bool(x: Seq<bool>)
    requires
        x.len() >= 8,
    ensures
        sorted_bool(net8_b(x), 8),
{
}

/// The network for 8 entries sorts every weight sequence.
pub proof fn lemma_net8_sorts(x: Seq<int>)
    requires
        x.len() >= 8,
    ensures
        sorted_desc(net8_w(x), 8),
{
    let out = net8_w(x);
    assert forall|i: int, j: int| 0 <= i < j < 8 implies out[i] >= out[j] by {
        if out[i] < out[j] {
            let t = out[j];
            lemma_net8_thr(x, t);
            lemma_net8_bool(thr(x, t));
            assert(thr(out, t)[j]);
            assert(!thr(out, t)[i]);
        }
    }
}

/// Applying the network for 8 entries to a move list keeps the multiset
/// of moves and leaves the tail alone.
proof fn lemma_net8_perm(x0: Seq<MoveType>)
    requires
        x0.len() == 14,
    ensures
        net8_m(x0).len() == 14,
        net8_m(x0).to_multiset() == x0.to_multiset(),
        forall|k: int| 8 <= k < 14 ==> #[trigger] net8_m(x0)[k] == x0[k],
{
    let x1 = cs_moves(x0, 0, 1);
    lemma_cs_multiset(x0, 0, 1);
    let x2 = cs_moves(x1, 2, 3);
    lemma_cs_multiset(x1, 2, 3);
    let x3 = cs_moves(x2, 4, 5);
    lemma_cs_multiset(x2, 4, 5);
    let x4 = cs_moves(x3, 6, 7);
    lemma_cs_multiset(x3, 6, 7);
    let x5 = cs_moves(x4, 0, 2);
    lemma_cs_multiset(x4, 0, 2);
    let x6 = cs_moves(x5, 4, 6);
    lemma_cs_multiset(x5, 4, 6);
    let x7 = cs_moves(x6, 1, 3);
    lemma_cs_multiset(x6, 1, 3);
    let x8 = cs_moves(x7, 5, 7);
    lemma_cs_multiset(x7, 5, 7);
    let x9 = cs_moves(x8, 1, 2);
    lemma_cs_multiset(x8, 1, 2);
    let x10 = cs_moves(x9, 5, 6);
    lemma_cs_multiset(x9, 5, 6);
    let x11 = cs_moves(x10, 0, 4);
    lemma_cs_multiset(x10, 0, 4);
    let x12 = cs_moves(x11, 1, 5);
    lemma_cs_multiset(x11, 1, 5);
    let x13 = cs_moves(x12, 2, 6);
    lemma_cs_multiset(x12, 2, 6);
    let x14 = cs_moves(x13, 3, 7);
    lemma_cs_multiset(x13, 3, 7);
    let x15 = cs_moves(x14, 2, 4);
    lemma_cs_multiset(x14, 2, 4);
    let x16 = cs_moves(x15, 3, 5);
    lemma_cs_multiset(x15, 3, 5);
    let x17 = cs_moves(x16, 1, 2);
    lemma_cs_multiset(x16, 1, 2);
    let x18 = cs_moves(x17, 3, 4);
    lemma_cs_multiset(x17, 3, 4);
    let x19 = cs_moves(x18, 5, 6);
    lemma_cs_multiset(x18, 5, 6);
}

/// Applying the network for 8 entries to a move list applies it to the
/// weights.
proof fn lemma_net8_link(x0: Seq<MoveType>)
    requires
        x0.len() == 14,
    ensures
        forall|k: int| 0 <= k < 8 ==> #[trigger] weights(net8_m(x0))[k] == net8_w(weights(x0))[k],
{
    let w0 = weights(x0);
    let a0_0 = w0[0];
    let a1_0 = w0[1];
    let a2_0 = w0[2];
    let a3_0 = w0[3];
    let a4_0 = w0[4];
    let a5_0 = w0[5];
    let a6_0 = w0[6];
    let a7_0 = w0[7];
    let x1 = cs_moves(x0, 0, 1);
    lemma_cs_step(x0, 0, 1);
    let w1 = w0.update(0, mx(w0[0], w0[1])).update(1, mn(w0[0], w0[1]));
    let a0_1 = mx(a0_0, a1_0);
    let a1_1 = mn(a0_0, a1_0);
    assert(w1[0] == a0_1 && w1[1] == a1_1);
    let x2 = cs_moves(x1, 2, 3);
    lemma_cs_step(x1, 2, 3);
    let w2 = w1.update(2, mx(w1[2], w1[3])).update(3, mn(w1[2], w1[3]));
    let a2_1 = mx(a2_0, a3_0);
    let a3_1 = mn(a2_0, a3_0);
    assert(w2[2] == a2_1 && w2[3] == a3_1);
    let x3 = cs_moves(x2, 4, 5);
    lemma_cs_step(x2, 4, 5);
    let w3 = w2.update(4, mx(w2[4], w2[5])).update(5, mn(w2[4], w2[5]));
    let a4_1 = mx(a4_0, a5_0);
    let a5_1 = mn(a4_0, a5_0);
    assert(w3[4] == a4_1 && w3[5] == a5_1);
    let x4 = cs_moves(x3, 6, 7);
    lemma_cs_step(x3, 6, 7);
    let w4 = w3.update(6, mx(w3[6], w3[7])).update(7, mn(w3[6], w3[7]));
    let a6_1 = mx(a6_0, a7_0);
    let a7_1 = mn(a6_0, a7_0);
    assert(w4[6] == a6_1 && w4[7] == a7_1);
    let x5 = cs_moves(x4, 0, 2);
    lemma_cs_step(x4, 0, 2);
    let w5 = w4.update(0, mx(w4[0], w4[2])).update(2, mn(w4[0], w4[2]));
    let a0_2 = mx(a0_1, a2_1);
    let a2_2 = mn(a0_1, a2_1);
    assert(w5[0] == a0_2 && w5[2] == a2_2);
    let x6 = cs_moves(x5, 4, 6);
    lemma_cs_step(x5, 4, 6);
    let w6 = w5.update(4, mx(w5[4], w5[6])).update(6, mn(w5[4], w5[6]));
    let a4_2 = mx(a4_1, a6_1);
    let a6_2 = mn(a4_1, a6_1);
    assert(w6[4] == a4_2 && w6[6] == a6_2);
    let x7 = cs_moves(x6, 1, 3);
    lemma_cs_step(x6, 1, 3);
    let w7 = w6.update(1, mx(w6[1], w6[3])).update(3, mn(w6[1], w6[3]));
    let a1_2 = mx(a1_1, a3_1);
    let a3_2 = mn(a1_1, a3_1);
    assert(w7[1] == a1_2 && w7[3] == a3_2);
    let x8 = cs_moves(x7, 5, 7);
    lemma_cs_step(x7, 5, 7);
    let w8 = w7.update(5, mx(w7[5], w7[7])).update(7, mn(w7[5], w7[7]));
    let a5_2 = mx(a5_1, a7_1);
    let a7_2 = mn(a5_1, a7_1);
    assert(w8[5] == a5_2 && w8[7] == a7_2);
    let x9 = cs_moves(x8, 1, 2);
    lemma_cs_step(x8, 1, 2);
    let w9 = w8.update(1, mx(w8[1], w8[2])).update(2, mn(w8[1], w8[2]));
    let a1_3 = mx(a1_2, a2_2);
    let a2_3 = mn(a1_2, a2_2);
    assert(w9[1] == a1_3 && w9[2] == a2_3);
    let x10 = cs_moves(x9, 5, 6);
    lemma_cs_step(x9, 5, 6);
    let w10 = w9.update(5, mx(w9[5], w9[6])).update(6, mn(w9[5], w9[6]));
    let a5_3 = mx(a5_2, a6_2);
    let a6_3 = mn(a5_2, a6_2);
    assert(w10[5] == a5_3 && w10[6] == a6_3);
    let x11 = cs_moves(x10, 0, 4);
    lemma_cs_step(x10, 0, 4);
    let w11 = w10.update(0, mx(w10[0], w10[4])).update(4, mn(w10[0], w10[4]));
    let a0_3 = mx(a0_2, a4_2);
    let a4_3 = mn(a0_2, a4_2);
    assert(w11[0] == a0_3 && w11[4] == a4_3);
    let x12 = cs_moves(x11, 1, 5);
    lemma_cs_step(x11, 1, 5);
    let w12 = w11.update(1, mx(w11[1], w11[5])).update(5, mn(w11[1], w11[5]));
    let a1_4 = mx(a1_3, a5_3);
    let a5_4 = mn(a1_3, a5_3);
    assert(w12[1] == a1_4 && w12[5] == a5_4);
    let x13 = cs_moves(x12, 2, 6);
    lemma_cs_step(x12, 2, 6);
    let w13 = w12.update(2, mx(w12[2], w12[6])).update(6, mn(w12[2], w12[6]));
    let a2_4 = mx(a2_3, a6_3);
    let a6_4 = mn(a2_3, a6_3);
    assert(w13[2] == a2_4 && w13[6] == a6_4);
    let x14 = cs_moves(x13, 3, 7);
    lemma_cs_step(x13, 3, 7);
    let w14 = w13.update(3, mx(w13[3], w13[7])).update(7, mn(w13[3], w13[7]));
    let a3_3 = mx(a3_2, a7_2);
    let a7_3 = mn(a3_2, a7_2);
    assert(w14[3] == a3_3 && w14[7] == a7_3);
    let x15 = cs_moves(x14, 2, 4);
    lemma_cs_step(x14, 2, 4);
    let w15 = w14.update(2, mx(w14[2], w14[4])).update(4, mn(w14[2], w14[4]));
    let a2_5 = mx(a2_4, a4_3);
    let a4_4 = mn(a2_4, a4_3);
    assert(w15[2] == a2_5 && w15[4] == a4_4);
    let x16 = cs_moves(x15, 3, 5);
    lemma_cs_step(x15, 3, 5);
    let w16 = w15.update(3, mx(w15[3], w15[5])).update(5, mn(w15[3], w15[5]));
    let a3_4 = mx(a3_3, a5_4);
    let a5_5 = mn(a3_3, a5_4);
    assert(w16[3] == a3_4 && w16[5] == a5_5);
    let x17 = cs_moves(x16, 1, 2);
    lemma_cs_step(x16, 1, 2);
    let w17 = w16.update(1, mx(w16[1], w16[2])).update(2, mn(w16[1], w16[2]));
    let a1_5 = mx(a1_4, a2_5);
    let a2_6 = mn(a1_4, a2_5);
    assert(w17[1] == a1_5 && w17[2] == a2_6);
    let x18 = cs_moves(x17, 3, 4);
    lemma_cs_step(x17, 3, 4);
    let w18 = w17.update(3, mx(w17[3], w17[4])).update(4, mn(w17[3], w17[4]));
    let a3_5 = mx(a3_4, a4_4);
    let a4_5 = mn(a3_4, a4_4);
    assert(w18[3] == a3_5 && w18[4] == a4_5);
    let x19 = cs_moves(x18, 5, 6);
    lemma_cs_step(x18, 5, 6);
    let w19 = w18.update(5, mx(w18[5], w18[6])).update(6, mn(w18[5], w18[6]));
    let a5_6 = mx(a5_5, a6_4);
    let a6_5 = mn(a5_5, a6_4);
    assert(w19[5] == a5_6 && w19[6] == a6_5);
    assert(weights(x19) == w19);
    let w = net8_w(weights(x0));
    assert(w == seq![a0_3, a1_5, a2_6, a3_5, a4_5, a5_6, a6_5, a7_3]);
    assert(w19[0] == w[0]);
    assert(w19[1] == w[1]);
    assert(w19[2] == w[2]);
    assert(w19[3] == w[3]);
    assert(w19[4] == w[4]);
    assert(w19[5] == w[5]);
    assert(w19[6] == w[6]);
    assert(w19[7] == w[7]);
}

/// The network for 9 entries, applied to a move list.
pub open spec fn net9_m(x0: Seq<MoveType>) -> Seq<MoveType> {
    let x1 = cs_moves(x0, 0, 1);
    let x2 = cs_moves(x1, 3, 4);
    let x3 = cs_moves(x2, 6, 7);
    let x4 = cs_moves(x3, 1, 2);
    let x5 = cs_moves(x4, 4, 5);
    let x6 = cs_moves(x5, 7, 8);
    let x7 = cs_moves(x6, 0, 1);
    let x8 = cs_moves(x7, 3, 4);
    let x9 = cs_moves(x8, 6, 7);
    let x10 = cs_moves(x9, 0, 3);
    let x11 = cs_moves(x10, 3, 6);
    let x12 = cs_moves(x11, 0, 3);
    let x13 = cs_moves(x12, 1, 4);
    let x14 = cs_moves(x13, 4, 7);
    let x15 = cs_moves(x14, 1, 4);
    let x16 = cs_moves(x15, 2, 5);
    let x17 = cs_moves(x16, 5, 8);
    let x18 = cs_moves(x17, 2, 5);
    let x19 = cs_moves(x18, 1, 3);
    let x20 = cs_moves(x19, 5, 7);
    let x21 = cs_moves(x20, 2, 6);
    let x22 = cs_moves(x21, 4, 6);
    let x23 = cs_moves(x22, 2, 4);
    let x24 = cs_moves(x23, 2, 3);
    let x25 = cs_moves(x24, 5, 6);
    x25
}

/// The network for 9 entries, applied to the first 9 weights of `x`.
pub open spec fn net9_w(x: Seq<int>) -> Seq<int> {
    let a0_0 = x[0];
    let a1_0 = x[1];
    let a2_0 = x[2];
    let a3_0 = x[3];
    let a4_0 = x[4];
    let a5_0 = x[5];
    let a6_0 = x[6];
    let a7_0 = x[7];
    let a8_0 = x[8];
    let a0_1 = mx(a0_0, a1_0);
    let a1_1 = mn(a0_0, a1_0);
    let a3_1 = mx(a3_0, a4_0);
    let a4_1 = mn(a3_0, a4_0);
    let a6_1 = mx(a6_0, a7_0);
    let a7_1 = mn(a6_0, a7_0);
    let a1_2 = mx(a1_1, a2_0);
    let a2_1 = mn(a1_1, a2_0);
    let a4_2 = mx(a4_1, a5_0);
    let a5_1 = mn(a4_1, a5_0);
    let a7_2 = mx(a7_1, a8_0);
    let a8_1 = mn(a7_1, a8_0);
    let a0_2 = mx(a0_1, a1_2);
    let a1_3 = mn(a0_1, a1_2);
    let a3_2 = mx(a3_1, a4_2);
    let a4_3 = mn(a3_1, a4_2);
    let a6_2 = mx(a6_1, a7_2);
    let a7_3 = mn(a6_1, a7_2);
    let a0_3 = mx(a0_2, a3_2);
    let a3_3 = mn(a0_2, a3_2);
    let a3_4 = mx(a3_3, a6_2);
    let a6_3 = mn(a3_3, a6_2);
    let a0_4 = mx(a0_3, a3_4);
    let a3_5 = mn(a0_3, a3_4);
    let a1_4 = mx(a1_3, a4_3);
    let a4_4 = mn(a1_3, a4_3);
    let a4_5 = mx(a4_4, a7_3);
    let a7_4 = mn(a4_4, a7_3);
    let a1_5 = mx(a1_4, a4_5);
    let a4_6 = mn(a1_4, a4_5);
    let a2_2 = mx(a2_1, a5_1);
    let a5_2 = mn(a2_1, a5_1);
    let a5_3 = mx(a5_2, a8_1);
    let a8_2 = mn(a5_2, a8_1);
    let a2_3 = mx(a2_2, a5_3);
    let a5_4 = mn(a2_2, a5_3);
    let a1_6 = mx(a1_5, a3_5);
    let a3_6 = mn(a1_5, a3_5);
    let a5_5 = mx(a5_4, a7_4);
    let a7_5 = mn(a5_4, a7_4);
    let a2_4 = mx(a2_3, a6_3);
    let a6_4 = mn(a2_3, a6_3);
    let a4_7 = mx(a4_6, a6_4);
    let a6_5 = mn(a4_6, a6_4);
    let a2_5 = mx(a2_4, a4_7);
    let a4_8 = mn(a2_4, a4_7);
    let a2_6 = mx(a2_5, a3_6);
    let a3_7 = mn(a2_5, a3_6);
    let a5_6 = mx(a5_5, a6_5);
    let a6_6 = mn(a5_5, a6_5);
    seq![a0_4, a1_6, a2_6, a3_7, a4_8, a5_6, a6_6, a7_5, a8_2]
}

/// The network for 9 entries, applied to the first 9 booleans of `x`.
pub open spec fn net9_b(x: Seq<bool>) -> Seq<bool> {
    let a0_0 = x[0];
    let a1_0 = x[1];
    let a2_0 = x[2];
    let a3_0 = x[3];
    let a4_0 = x[4];
    let a5_0 = x[5];
    let a6_0 = x[6];
    let a7_0 = x[7];
    let a8_0 = x[8];
    let a0_1 = a0_0 || a1_0;
    let a1_1 = a0_0 && a1_0;
    let a3_1 = a3_0 || a4_0;
    let a4_1 = a3_0 && a4_0;
    let a6_1 = a6_0 || a7_0;
    let a7_1 = a6_0 && a7_0;
    let a1_2 = a1_1 || a2_0;
    let a2_1 = a1_1 && a2_0;
    let a4_2 = a4_1 || a5_0;
    let a5_1 = a4_1 && a5_0;
    let a7_2 = a7_1 || a8_0;
    let a8_1 = a7_1 && a8_0;
    let a0_2 = a0_1 || a1_2;
    let a1_3 = a0_1 && a1_2;
    let a3_2 = a3_1 || a4_2;
    let a4_3 = a3_1 && a4_2;
    let a6_2 = a6_1 || a7_2;
    let a7_3 = a6_1 && a7_2;
    let a0_3 = a0_2 || a3_2;
    let a3_3 = a0_2 && a3_2;
    let a3_4 = a3_3 || a6_2;
    let a6_3 = a3_3 && a6_2;
    let a0_4 = a0_3 || a3_4;
    let a3_5 = a0_3 && a3_4;
    let a1_4 = a1_3 || a4_3;
    let a4_4 = a1_3 && a4_3;
    let a4_5 = a4_4 || a7_3;
    let a7_4 = a4_4 && a7_3;
    let a1_5 = a1_4 || a4_5;
    let a4_6 = a1_4 && a4_5;
    let a2_2 = a2_1 || a5_1;
    let a5_2 = a2_1 && a5_1;
    let a5_3 = a5_2 || a8_1;
    let a8_2 = a5_2 && a8_1;
    let a2_3 = a2_2 || a5_3;
    let a5_4 = a2_2 && a5_3;
    let a1_6 = a1_5 || a3_5;
    let a3_6 = a1_5 && a3_5;
    let a5_5 = a5_4 || a7_4;
    let a7_5 = a5_4 && a7_4;
    let a2_4 = a2_3 || a6_3;
    let a6_4 = a2_3 && a6_3;
    let a4_7 = a4_6 || a6_4;
    let a6_5 = a4_6 && a6_4;
    let a2_5 = a2_4 || a4_7;
    let a4_8 = a2_4 && a4_7;
    let a2_6 = a2_5 || a3_6;
    let a3_7 = a2_5 && a3_6;
    let a5_6 = a5_5 || a6_5;
    let a6_6 = a5_5 && a6_5;
    seq![a0_4, a1_6, a2_6, a3_7, a4_8, a5_6, a6_6, a7_5, a8_2]
}

#[verifier::rlimit(50)]
#[verifier::spinoff_prover]
proof fn lemma_net9_thr(x: Seq<int>, t: int)
    requires
        x.len() >= 9,
    ensures
        thr(net9_w(x), t) == net9_b(thr(x, t)),
{
    let a0_0 = x[0];
    let b0_0 = thr(x, t)[0];
    assert((a0_0 >= t) == b0_0);
    let a1_0 = x[1];
    let b1_0 = thr(x, t)[1];
    assert((a1_0 >= t) == b1_0);
    let a2_0 = x[2];
    let b2_0 = thr(x, t)[2];
    assert((a2_0 >= t) == b2_0);
    let a3_0 = x[3];
    let b3_0 = thr(x, t)[3];
    assert((a3_0 >= t) == b3_0);
    let a4_0 = x[4];
    let b4_0 = thr(x, t)[4];
    assert((a4_0 >= t) == b4_0);
    let a5_0 = x[5];
    let b5_0 = thr(x, t)[5];
    assert((a5_0 >= t) == b5_0);
    let a6_0 = x[6];
    let b6_0 = thr(x, t)[6];
    assert((a6_0 >= t) == b6_0);
    let a7_0 = x[7];
    let b7_0 = thr(x, t)[7];
    assert((a7_0 >= t) == b7_0);
    let a8_0 = x[8];
    let b8_0 = thr(x, t)[8];
    assert((a8_0 >= t) == b8_0);
    let a0_1 = mx(a0_0, a1_0);
    let a1_1 = mn(a0_0, a1_0);
    let b0_1 = b0_0 || b1_0;
    let b1_1 = b0_0 && b1_0;
    lemma_mx_mn_thr(a0_0, a1_0, t);
    assert((a0_1 >= t) == b0_1 && (a1_1 >= t) == b1_1);
    let a3_1 = mx(a3_0, a4_0);
    let a4_1 = mn(a3_0, a4_0);
    let b3_1 = b3_0 || b4_0;
    let b4_1 = b3_0 && b4_0;
    lemma_mx_mn_thr(a3_0, a4_0, t);
    assert((a3_1 >= t) == b3_1 && (a4_1 >= t) == b4_1);
    let a6_1 = mx(a6_0, a7_0);
    let a7_1 = mn(a6_0, a7_0);
    let b6_1 = b6_0 || b7_0;
    let b7_1 = b6_0 && b7_0;
    lemma_mx_mn_thr(a6_0, a7_0, t);
    assert((a6_1 >= t) == b6_1 && (a7_1 >= t) == b7_1);
    let a1_2 = mx(a1_1, a2_0);
    let a2_1 = mn(a1_1, a2_0);
    let b1_2 = b1_1 || b2_0;
    let b2_1 = b1_1 && b2_0;
    lemma_mx_mn_thr(a1_1, a2_0, t);
    assert((a1_2 >= t) == b1_2 && (a2_1 >= t) == b2_1);
    let a4_2 = mx(a4_1, a5_0);
    let a5_1 = mn(a4_1, a5_0);
    let b4_2 = b4_1 || b5_0;
    let b5_1 = b4_1 && b5_0;
    lemma_mx_mn_thr(a4_1, a5_0, t);
    assert((a4_2 >= t) == b4_2 && (a5_1 >= t) == b5_1);
    let a7_2 = mx(a7_1, a8_0);
    let a8_1 = mn(a7_1, a8_0);
    let b7_2 = b7_1 || b8_0;
    let b8_1 = b7_1 && b8_0;
    lemma_mx_mn_thr(a7_1, a8_0, t);
    assert((a7_2 >= t) == b7_2 && (a8_1 >= t) == b8_1);
    let a0_2 = mx(a0_1, a1_2);
    let a1_3 = mn(a0_1, a1_2);
    let b0_2 = b0_1 || b1_2;
    let b1_3 = b0_1 && b1_2;
    lemma_mx_mn_thr(a0_1, a1_2, t);
    assert((a0_2 >= t) == b0_2 && (a1_3 >= t) == b1_3);
    let a3_2 = mx(a3_1, a4_2);
    let a4_3 = mn(a3_1, a4_2);
    let b3_2 = b3_1 || b4_2;
    let b4_3 = b3_1 && b4_2;
    lemma_mx_mn_thr(a3_1, a4_2, t);
    assert((a3_2 >= t) == b3_2 && (a4_3 >= t) == b4_3);
    let a6_2 = mx(a6_1, a7_2);
    let a7_3 = mn(a6_1, a7_2);
    let b6_2 = b6_1 || b7_2;
    let b7_3 = b6_1 && b7_2;
    lemma_mx_mn_thr(a6_1, a7_2, t);
    assert((a6_2 >= t) == b6_2 && (a7_3 >= t) == b7_3);
    let a0_3 = mx(a0_2, a3_2);
    let a3_3 = mn(a0_2, a3_2);
    let b0_3 = b0_2 || b3_2;
    let b3_3 = b0_2 && b3_2;
    lemma_mx_mn_thr(a0_2, a3_2, t);
    assert((a0_3 >= t) == b0_3 && (a3_3 >= t) == b3_3);
    let a3_4 = mx(a3_3, a6_2);
    let a6_3 = mn(a3_3, a6_2);
    let b3_4 = b3_3 || b6_2;
    let b6_3 = b3_3 && b6_2;
    lemma_mx_mn_thr(a3_3, a6_2, t);
    assert((a3_4 >= t) == b3_4 && (a6_3 >= t) == b6_3);
    let a0_4 = mx(a0_3, a3_4);
    let a3_5 = mn(a0_3, a3_4);
    let b0_4 = b0_3 || b3_4;
    let b3_5 = b0_3 && b3_4;
    lemma_mx_mn_thr(a0_3, a3_4, t);
    assert((a0_4 >= t) == b0_4 && (a3_5 >= t) == b3_5);
    let a1_4 = mx(a1_3, a4_3);
    let a4_4 = mn(a1_3, a4_3);
    let b1_4 = b1_3 || b4_3;
    let b4_4 = b1_3 && b4_3;
    lemma_mx_mn_thr(a1_3, a4_3, t);
    assert((a1_4 >= t) == b1_4 && (a4_4 >= t) == b4_4);
    let a4_5 = mx(a4_4, a7_3);
    let a7_4 = mn(a4_4, a7_3);
    let b4_5 = b4_4 || b7_3;
    let b7_4 = b4_4 && b7_3;
    lemma_mx_mn_thr(a4_4, a7_3, t);
    assert((a4_5 >= t) == b4_5 && (a7_4 >= t) == b7_4);
    let a1_5 = mx(a1_4, a4_5);
    let a4_6 = mn(a1_4, a4_5);
    let b1_5 = b1_4 || b4_5;
    let b4_6 = b1_4 && b4_5;
    lemma_mx_mn_thr(a1_4, a4_5, t);
    assert((a1_5 >= t) == b1_5 && (a4_6 >= t) == b4_6);
    let a2_2 = mx(a2_1, a5_1);
    let a5_2 = mn(a2_1, a5_1);
    let b2_2 = b2_1 || b5_1;
    let b5_2 = b2_1 && b5_1;
    lemma_mx_mn_thr(a2_1, a5_1, t);
    assert((a2_2 >= t) == b2_2 && (a5_2 >= t) == b5_2);
    let a5_3 = mx(a5_2, a8_1);
    let a8_2 = mn(a5_2, a8_1);
    let b5_3 = b5_2 || b8_1;
    let b8_2 = b5_2 && b8_1;
    lemma_mx_mn_thr(a5_2, a8_1, t);
    assert((a5_3 >= t) == b5_3 && (a8_2 >= t) == b8_2);
    let a2_3 = mx(a2_2, a5_3);
    let a5_4 = mn(a2_2, a5_3);
    let b2_3 = b2_2 || b5_3;
    let b5_4 = b2_2 && b5_3;
    lemma_mx_mn_thr(a2_2, a5_3, t);
    assert((a2_3 >= t) == b2_3 && (a5_4 >= t) == b5_4);
    let a1_6 = mx(a1_5, a3_5);
    let a3_6 = mn(a1_5, a3_5);
    let b1_6 = b1_5 || b3_5;
    let b3_6 = b1_5 && b3_5;
    lemma_mx_mn_thr(a1_5, a3_5, t);
    assert((a1_6 >= t) == b1_6 && (a3_6 >= t) == b3_6);
    let a5_5 = mx(a5_4, a7_4);
    let a7_5 = mn(a5_4, a7_4);
    let b5_5 = b5_4 || b7_4;
    let b7_5 = b5_4 && b7_4;
    lemma_mx_mn_thr(a5_4, a7_4, t);
    assert((a5_5 >= t) == b5_5 && (a7_5 >= t) == b7_5);
    let a2_4 = mx(a2_3, a6_3);
    let a6_4 = mn(a2_3, a6_3);
    let b2_4 = b2_3 || b6_3;
    let b6_4 = b2_3 && b6_3;
    lemma_mx_mn_thr(a2_3, a6_3, t);
    assert((a2_4 >= t) == b2_4 && (a6_4 >= t) == b6_4);
    let a4_7 = mx(a4_6, a6_4);
    let a6_5 = mn(a4_6, a6_4);
    let b4_7 = b4_6 || b6_4;
    let b6_5 = b4_6 && b6_4;
    lemma_mx_mn_thr(a4_6, a6_4, t);
    assert((a4_7 >= t) == b4_7 && (a6_5 >= t) == b6_5);
    let a2_5 = mx(a2_4, a4_7);
    let a4_8 = mn(a2_4, a4_7);
    let b2_5 = b2_4 || b4_7;
    let b4_8 = b2_4 && b4_7;
    lemma_mx_mn_thr(a2_4, a4_7, t);
    assert((a2_5 >= t) == b2_5 && (a4_8 >= t) == b4_8);
    let a2_6 = mx(a2_5, a3_6);
    let a3_7 = mn(a2_5, a3_6);
    let b2_6 = b2_5 || b3_6;
    let b3_7 = b2_5 && b3_6;
    lemma_mx_mn_thr(a2_5, a3_6, t);
    assert((a2_6 >= t) == b2_6 && (a3_7 >= t) == b3_7);
    let a5_6 = mx(a5_5, a6_5);
    let a6_6 = mn(a5_5, a6_5);
    let b5_6 = b5_5 || b6_5;
    let b6_6 = b5_5 && b6_5;
    lemma_mx_mn_thr(a5_5, a6_5, t);
    assert((a5_6 >= t) == b5_6 && (a6_6 >= t) == b6_6);
    assert(thr(net9_w(x), t) =~= net9_b(thr(x, t)));
}

#[verifier::rlimit(50)]
#[verifier::spinoff_prover]
proof fn lemma_net9_bool(x: Seq<bool>)
    requires
        x.len() >= 9,
    ensures
        sorted_bool(net9_b(x), 9),
{
}

/// The network for 9 entries sorts every weight sequence.
pub proof fn lemma_net9_sorts(x: Seq<int>)
    requires
        x.len() >= 9,
    ensures
        sorted_desc(net9_w(x), 9),
{
    let out = net9_w(x);
    assert forall|i: int, j: int| 0 <= i < j < 9 implies out[i] >= out[j] by {
        if out[i] < out[j] {
            let t = out[j];
            lemma_net9_thr(x, t);
            lemma_net9_bool(thr(x, t));
            assert(thr(out, t)[j]);
            assert(!thr(out, t)[i]);
        }
    }
}

/// Applying the network for 9 entries to a move list keeps the multiset
/// of moves and leaves the tail alone.
#[verifier::rlimit(50)]
#[verifier::spinoff_prover]
proof fn lemma_net9_perm(x0: Seq<MoveType>)
    requires
        x0.len() == 14,
    ensures
        net9_m(x0).len() == 14,
        net9_m(x0).to_multiset() == x0.to_multiset(),
        forall|k: int| 9 <= k < 14 ==> #[trigger] net9_m(x0)[k] == x0[k],
{
    let x1 = cs_moves(x0, 0, 1);
    lemma_cs_multiset(x0, 0, 1);
    let x2 = cs_moves(x1, 3, 4);
    lemma_cs_multiset(x1, 3, 4);
    let x3 = cs_moves(x2, 6, 7);
    lemma_cs_multiset(x2, 6, 7);
    let x4 = cs_moves(x3, 1, 2);
    lemma_cs_multiset(x3, 1, 2);
    let x5 = cs_moves(x4, 4, 5);
    lemma_cs_multiset(x4, 4, 5);
    let x6 = cs_moves(x5, 7, 8);
    lemma_cs_multiset(x5, 7, 8);
    let x7 = cs_moves(x6, 0, 1);
    lemma_cs_multiset(x6, 0, 1);
    let x8 = cs_moves(x7, 3, 4);
    lemma_cs_multiset(x7, 3, 4);
    let x9 = cs_moves(x8, 6, 7);
    lemma_cs_multiset(x8, 6, 7);
    let x10 = cs_moves(x9, 0, 3);
    lemma_cs_multiset(x9, 0, 3);
    let x11 = cs_moves(x10, 3, 6);
    lemma_cs_multiset(x10, 3, 6);
    let x12 = cs_moves(x11, 0, 3);
    lemma_cs_multiset(x11, 0, 3);
    let x13 = cs_moves(x12, 1, 4);
    lemma_cs_multiset(x12, 1, 4);
    let x14 = cs_moves(x13, 4, 7);
    lemma_cs_multiset(x13, 4, 7);
    let x15 = cs_moves(x14, 1, 4);
    lemma_cs_multiset(x14, 1, 4);
    let x16 = cs_moves(x15, 2, 5);
    lemma_cs_multiset(x15, 2, 5);
    let x17 = cs_moves(x16, 5, 8);
    lemma_cs_multiset(x16, 5, 8);
    let x18 = cs_moves(x17, 2, 5);
    lemma_cs_multiset(x17, 2, 5);
    let x19 = cs_moves(x18, 1, 3);
    lemma_cs_multiset(x18, 1, 3);
    let x20 = cs_moves(x19, 5, 7);
    lemma_cs_multiset(x19, 5, 7);
    let x21 = cs_moves(x20, 2, 6);
    lemma_cs_multiset(x20, 2, 6);
    let x22 = cs_moves(x21, 4, 6);
    lemma_cs_multiset(x21, 4, 6);
    let x23 = cs_moves(x22, 2, 4);
    lemma_cs_multiset(x22, 2, 4);
    let x24 = cs_moves(x23, 2, 3);
    lemma_cs_multiset(x23, 2, 3);
    let x25 = cs_moves(x24, 5, 6);
    lemma_cs_multiset(x24, 5, 6);
}

/// Applying the network for 9 entries to a move list applies it to the
/// weights.
#[verifier::rlimit(50)]
#[verifier::spinoff_prover]
proof fn lemma_net9_link(x0: Seq<MoveType>)
    requires
        x0.len() == 14,
    ensures
        forall|k: int| 0 <= k < 9 ==> #[trigger] weights(net9_m(x0))[k] == net9_w(weights(x0))[k],
{
    let w0 = weights(x0);
    let a0_0 = w0[0];
    let a1_0 = w0[1];
    let a2_0 = w0[2];
    let a3_0 = w0[3];
    let a4_0 = w0[4];
    let a5_0 = w0[5];
    let a6_0 = w0[6];
    let a7_0 = w0[7];
    let a8_0 = w0[8];
    let x1 = cs_moves(x0, 0, 1);
    lemma_cs_step(x0, 0, 1);
    let w1 = w0.update(0, mx(w0[0], w0[1])).update(1, mn(w0[0], w0[1]));
    let a0_1 = mx(a0_0, a1_0);
    let a1_1 = mn(a0_0, a1_0);
    assert(w1[0] == a0_1 && w1[1] == a1_1);
    let x2 = cs_moves(x1, 3, 4);
    lemma_cs_step(x1, 3, 4);
    let w2 = w1.update(3, mx(w1[3], w1[4])).update(4, mn(w1[3], w1[4]));
    let a3_1 = mx(a3_0, a4_0);
    let a4_1 = mn(a3_0, a4_0);
    assert(w2[3] == a3_1 && w2[4] == a4_1);
    let x3 = cs_moves(x2, 6, 7);
    lemma_cs_step(x2, 6, 7);
    let w3 = w2.update(6, mx(w2[6], w2[7])).update(7, mn(w2[6], w2[7]));
    let a6_1 = mx(a6_0, a7_0);
    let a7_1 = mn(a6_0, a7_0);
    assert(w3[6] == a6_1 && w3[7] == a7_1);
    let x4 = cs_moves(x3, 1, 2);
    lemma_cs_step(x3, 1, 2);
    let w4 = w3.update(1, mx(w3[1], w3[2])).update(2, mn(w3[1], w3[2]));
    let a1_2 = mx(a1_1, a2_0);
    let a2_1 = mn(a1_1, a2_0);
    assert(w4[1] == a1_2 && w4[2] == a2_1);
    let x5 = cs_moves(x4, 4, 5);
    lemma_cs_step(x4, 4, 5);
    let w5 = w4.update(4, mx(w4[4], w4[5])).update(5, mn(w4[4], w4[5]));
    let a4_2 = mx(a4_1, a5_0);
    let a5_1 = mn(a4_1, a5_0);
    assert(w5[4] == a4_2 && w5[5] == a5_1);
    let x6 = cs_moves(x5, 7, 8);
    lemma_cs_step(x5, 7, 8);
    let w6 = w5.update(7, mx(w5[7], w5[8])).update(8, mn(w5[7], w5[8]));
    let a7_2 = mx(a7_1, a8_0);
    let a8_1 = mn(a7_1, a8_0);
    assert(w6[7] == a7_2 && w6[8] == a8_1);
    let x7 = cs_moves(x6, 0, 1);
    lemma_cs_step(x6, 0, 1);
    let w7 = w6.update(0, mx(w6[0], w6[1])).update(1, mn(w6[0], w6[1]));
    let a0_2 = mx(a0_1, a1_2);
    let a1_3 = mn(a0_1, a1_2);
    assert(w7[0] == a0_2 && w7[1] == a1_3);
    let x8 = cs_moves(x7, 3, 4);
    lemma_cs_step(x7, 3, 4);
    let w8 = w7.update(3, mx(w7[3], w7[4])).update(4, mn(w7[3], w7[4]));
    let a3_2 = mx(a3_1, a4_2);
    let a4_3 = mn(a3_1, a4_2);
    assert(w8[3] == a3_2 && w8[4] == a4_3);
    let x9 = cs_moves(x8, 6, 7);
    lemma_cs_step(x8, 6, 7);
    let w9 = w8.update(6, mx(w8[6], w8[7])).update(7, mn(w8[6], w8[7]));
    let a6_2 = mx(a6_1, a7_2);
    let a7_3 = mn(a6_1, a7_2);
    assert(w9[6] == a6_2 && w9[7] == a7_3);
    let x10 = cs_moves(x9, 0, 3);
    lemma_cs_step(x9, 0, 3);
    let w10 = w9.update(0, mx(w9[0], w9[3])).update(3, mn(w9[0], w9[3]));
    let a0_3 = mx(a0_2, a3_2);
    let a3_3 = mn(a0_2, a3_2);
    assert(w10[0] == a0_3 && w10[3] == a3_3);
    let x11 = cs_moves(x10, 3, 6);
    lemma_cs_step(x10, 3, 6);
    let w11 = w10.update(3, mx(w10[3], w10[6])).update(6, mn(w10[3], w10[6]));
    let a3_4 = mx(a3_3, a6_2);
    let a6_3 = mn(a3_3, a6_2);
    assert(w11[3] == a3_4 && w11[6] == a6_3);
    let x12 = cs_moves(x11, 0, 3);
    lemma_cs_step(x11, 0, 3);
    let w12 = w11.update(0, mx(w11[0], w11[3])).update(3, mn(w11[0], w11[3]));
    let a0_4 = mx(a0_3, a3_4);
    let a3_5 = mn(a0_3, a3_4);
    assert(w12[0] == a0_4 && w12[3] == a3_5);
    let x13 = cs_moves(x12, 1, 4);
    lemma_cs_step(x12, 1, 4);
    let w13 = w12.update(1, mx(w12[1], w12[4])).update(4, mn(w12[1], w12[4]));
    let a1_4 = mx(a1_3, a4_3);
    let a4_4 = mn(a1_3, a4_3);
    assert(w13[1] == a1_4 && w13[4] == a4_4);
    let x14 = cs_moves(x13, 4, 7);
    lemma_cs_step(x13, 4, 7);
    let w14 = w13.update(4, mx(w13[4], w13[7])).update(7, mn(w13[4], w13[7]));
    let a4_5 = mx(a4_4, a7_3);
    let a7_4 = mn(a4_4, a7_3);
    assert(w14[4] == a4_5 && w14[7] == a7_4);
    let x15 = cs_moves(x14, 1, 4);
    lemma_cs_step(x14, 1, 4);
    let w15 = w14.update(1, mx(w14[1], w14[4])).update(4, mn(w14[1], w14[4]));
    let a1_5 = mx(a1_4, a4_5);
    let a4_6 = mn(a1_4, a4_5);
    assert(w15[1] == a1_5 && w15[4] == a4_6);
    let x16 = cs_moves(x15, 2, 5);
    lemma_cs_step(x15, 2, 5);
    let w16 = w15.update(2, mx(w15[2], w15[5])).update(5, mn(w15[2], w15[5]));
    let a2_2 = mx(a2_1, a5_1);
    let a5_2 = mn(a2_1, a5_1);
    assert(w16[2] == a2_2 && w16[5] == a5_2);
    let x17 = cs_moves(x16, 5, 8);
    lemma_cs_step(x16, 5, 8);
    let w17 = w16.update(5, mx(w16[5], w16[8])).update(8, mn(w16[5], w16[8]));
    let a5_3 = mx(a5_2, a8_1);
    let a8_2 = mn(a5_2, a8_1);
    assert(w17[5] == a5_3 && w17[8] == a8_2);
    let x18 = cs_moves(x17, 2, 5);
    lemma_cs_step(x17, 2, 5);
    let w18 = w17.update(2, mx(w17[2], w17[5])).update(5, mn(w17[2], w17[5]));
    let a2_3 = mx(a2_2, a5_3);
    let a5_4 = mn(a2_2, a5_3);
    assert(w18[2] == a2_3 && w18[5] == a5_4);
    let x19 = cs_moves(x18, 1, 3);
    lemma_cs_step(x18, 1, 3);
    let w19 = w18.update(1, mx(w18[1], w18[3])).update(3, mn(w18[1], w18[3]));
    let a1_6 = mx(a1_5, a3_5);
    let a3_6 = mn(a1_5, a3_5);
    assert(w19[1] == a1_6 && w19[3] == a3_6);
    let x20 = cs_moves(x19, 5, 7);
    lemma_cs_step(x19, 5, 7);
    let w20 = w19.update(5, mx(w19[5], w19[7])).update(7, mn(w19[5], w19[7]));
    let a5_5 = mx(a5_4, a7_4);
    let a7_5 = mn(a5_4, a7_4);
    assert(w20[5] == a5_5 && w20[7] == a7_5);
    let x21 = cs_moves(x20, 2, 6);
    lemma_cs_step(x20, 2, 6);
    let w21 = w20.update(2, mx(w20[2], w20[6])).update(6, mn(w20[2], w20[6]));
    let a2_4 = mx(a2_3, a6_3);
    let a6_4 = mn(a2_3, a6_3);
    assert(w21[2] == a2_4 && w21[6] == a6_4);
    let x22 = cs_moves(x21, 4, 6);
    lemma_cs_step(x21, 4, 6);
    let w22 = w21.update(4, mx(w21[4], w21[6])).update(6, mn(w21[4], w21[6]));
    let a4_7 = mx(a4_6, a6_4);
    let a6_5 = mn(a4_6, a6_4);
    assert(w22[4] == a4_7 && w22[6] == a6_5);
    let x23 = cs_moves(x22, 2, 4);
    lemma_cs_step(x22, 2, 4);
    let w23 = w22.update(2, mx(w22[2], w22[4])).update(4, mn(w22[2], w22[4]));
    let a2_5 = mx(a2_4, a4_7);
    let a4_8 = mn(a2_4, a4_7);
    assert(w23[2] == a2_5 && w23[4] == a4_8);
    let x24 = cs_moves(x23, 2, 3);
    lemma_cs_step(x23, 2, 3);
    let w24 = w23.update(2, mx(w23[2], w23[3])).update(3, mn(w23[2], w23[3]));
    let a2_6 = mx(a2_5, a3_6);
    let a3_7 = mn(a2_5, a3_6);
    assert(w24[2] == a2_6 && w24[3] == a3_7);
    let x25 = cs_moves(x24, 5, 6);
    lemma_cs_step(x24, 5, 6);
    let w25 = w24.update(5, mx(w24[5], w24[6])).update(6, mn(w24[5], w24[6]));
    let a5_6 = mx(a5_5, a6_5);
    let a6_6 = mn(a5_5, a6_5);
    assert(w25[5] == a5_6 && w25[6] == a6_6);
    assert(weights(x25) == w25);
    let w = net9_w(weights(x0));
    assert(w == seq![a0_4, a1_6, a2_6, a3_7, a4_8, a5_6, a6_6, a7_5, a8_2]);
    assert(w25[0] == w[0]);
    assert(w25[1] == w[1]);
    assert(w25[2] == w[2]);
    assert(w25[3] == w[3]);
    assert(w25[4] == w[4]);
    assert(w25[5] == w[5]);
    assert(w25[6] == w[6]);
    assert(w25[7] == w[7]);
    assert(w25[8] == w[8]);
}

/// The network for 10 entries, applied to a move list.
pub open spec fn net10_m(x0: Seq<MoveType>) -> Seq<MoveType> {
    let x1 = cs_moves(x0, 1, 8);
    let x2 = cs_moves(x1, 0, 4);
    let x3 = cs_moves(x2, 5, 9);
    let x4 = cs_moves(x3, 2, 6);
    let x5 = cs_moves(x4, 3, 7);
    let x6 = cs_moves(x5, 0, 3);
    let x7 = cs_moves(x6, 6, 9);
    let x8 = cs_moves(x7, 2, 5);
    let x9 = cs_moves(x8, 0, 1);
    let x10 = cs_moves(x9, 3, 6);
    let x11 = cs_moves(x10, 8, 9);
    let x12 = cs_moves(x11, 4, 7);
    let x13 = cs_moves(x12, 0, 2);
    let x14 = cs_moves(x13, 4, 8);
    let x15 = cs_moves(x14, 1, 5);
    let x16 = cs_moves(x15, 7, 9);
    let x17 = cs_moves(x16, 1, 2);
    let x18 = cs_moves(x17, 3, 4);
    let x19 = cs_moves(x18, 5, 6);
    let x20 = cs_moves(x19, 7, 8);
    let x21 = cs_moves(x20, 1, 3);
    let x22 = cs_moves(x21, 6, 8);
    let x23 = cs_moves(x22, 2, 4);
    let x24 = cs_moves(x23, 5, 7);
    let x25 = cs_moves(x24, 2, 3);
    let x26 = cs_moves(x25, 6, 7);
    let x27 = cs_moves(x26, 3, 5);
    let x28 = cs_moves(x27, 4, 6);
    let x29 = cs_moves(x28, 4, 5);
    x29
}

/// The network for 10 entries, applied to the first 10 weights of `x`.
pub open spec fn net10_w(x: Seq<int>) -> Seq<int> {
    let a0_0 = x[0];
    let a1_0 = x[1];
    let a2_0 = x[2];
    let a3_0 = x[3];
    let a4_0 = x[4];
    let a5_0 = x[5];
    let a6_0 = x[6];
    let a7_0 = x[7];
    let a8_0 = x[8];
    let a9_0 = x[9];
    let a1_1 = mx(a1_0, a8_0);
    let a8_1 = mn(a1_0, a8_0);
    let a0_1 = mx(a0_0, a4_0);
    let a4_1 = mn(a0_0, a4_0);
    let a5_1 = mx(a5_0, a9_0);
    let a9_1 = mn(a5_0, a9_0);
    let a2_1 = mx(a2_0, a6_0);
    let a6_1 = mn(a2_0, a6_0);
    let a3_1 = mx(a3_0, a7_0);
    let a7_1 = mn(a3_0, a7_0);
    let a0_2 = mx(a0_1, a3_1);
    let a3_2 = mn(a0_1, a3_1);
    let a6_2 = mx(a6_1, a9_1);
    let a9_2 = mn(a6_1, a9_1);
    let a2_2 = mx(a2_1, a5_1);
    let a5_2 = mn(a2_1, a5_1);
    let a0_3 = mx(a0_2, a1_1);
    let a1_2 = mn(a0_2, a1_1);
    let a3_3 = mx(a3_2, a6_2);
    let a6_3 = mn(a3_2, a6_2);
    let a8_2 = mx(a8_1, a9_2);
    let a9_3 = mn(a8_1, a9_2);
    let a4_2 = mx(a4_1, a7_1);
    let a7_2 = mn(a4_1, a7_1);
    let a0_4 = mx(a0_3, a2_2);
    let a2_3 = mn(a0_3, a2_2);
    let a4_3 = mx(a4_2, a8_2);
    let a8_3 = mn(a4_2, a8_2);
    let a1_3 = mx(a1_2, a5_2);
    let a5_3 = mn(a1_2, a5_2);
    let a7_3 = mx(a7_2, a9_3);
    let a9_4 = mn(a7_2, a9_3);
    let a1_4 = mx(a1_3, a2_3);
    let a2_4 = mn(a1_3, a2_3);
    let a3_4 = mx(a3_3, a4_3);
    let a4_4 = mn(a3_3, a4_3);
    let a5_4 = mx(a5_3, a6_3);
    let a6_4 = mn(a5_3, a6_3);
    let a7_4 = mx(a7_3, a8_3);
    let a8_4 = mn(a7_3, a8_3);
    let a1_5 = mx(a1_4, a3_4);
    let a3_5 = mn(a1_4, a3_4);
    let a6_5 = mx(a6_4, a8_4);
    let a8_5 = mn(a6_4, a8_4);
    let a2_5 = mx(a2_4, a4_4);
    let a4_5 = mn(a2_4, a4_4);
    let a5_5 = mx(a5_4, a7_4);
    let a7_5 = mn(a5_4, a7_4);
    let a2_6 = mx(a2_5, a3_5);
    let a3_6 = mn(a2_5, a3_5);
    let a6_6 = mx(a6_5, a7_5);
    let a7_6 = mn(a6_5, a7_5);
    let a3_7 = mx(a3_6, a5_5);
    let a5_6 = mn(a3_6, a5_5);
    let a4_6 = mx(a4_5, a6_6);
    let a6_7 = mn(a4_5, a6_6);
    let a4_7 = mx(a4_6, a5_6);
    let a5_7 = mn(a4_6, a5_6);
    seq![a0_4, a1_5, a2_6, a3_7, a4_7, a5_7, a6_7, a7_6, a8_5, a9_4]
}

/// The network for 10 entries, applied to the first 10 booleans of `x`.
pub open spec fn net10_b(x: Seq<bool>) -> Seq<bool> {
    let a0_0 = x[0];
    let a1_0 = x[1];
    let a2_0 = x[2];
    let a3_0 = x[3];
    let a4_0 = x[4];
    let a5_0 = x[5];
    let a6_0 = x[6];
    let a7_0 = x[7];
    let a8_0 = x[8];
    let a9_0 = x[9];
    let a1_1 = a1_0 || a8_0;
    let a8_1 = a1_0 && a8_0;
    let a0_1 = a0_0 || a4_0;
    let a4_1 = a0_0 && a4_0;
    let a5_1 = a5_0 || a9_0;
    let a9_1 = a5_0 && a9_0;
    let a2_1 = a2_0 || a6_0;
    let a6_1 = a2_0 && a6_0;
    let a3_1 = a3_0 || a7_0;
    let a7_1 = a3_0 && a7_0;
    let a0_2 = a0_1 || a3_1;
    let a3_2 = a0_1 && a3_1;
    let a6_2 = a6_1 || a9_1;
    let a9_2 = a6_1 && a9_1;
    let a2_2 = a2_1 || a5_1;
    let a5_2 = a2_1 && a5_1;
    let a0_3 = a0_2 || a1_1;
    let a1_2 = a0_2 && a1_1;
    let a3_3 = a3_2 || a6_2;
    let a6_3 = a3_2 && a6_2;
    let a8_2 = a8_1 || a9_2;
    let a9_3 = a8_1 && a9_2;
    let a4_2 = a4_1 || a7_1;
    let a7_2 = a4_1 && a7_1;
    let a0_4 = a0_3 || a2_2;
    let a2_3 = a0_3 && a2_2;
    let a4_3 = a4_2 || a8_2;
    let a8_3 = a4_2 && a8_2;
    let a1_3 = a1_2 || a5_2;
    let a5_3 = a1_2 && a5_2;
    let a7_3 = a7_2 || a9_3;
    let a9_4 = a7_2 && a9_3;
    let a1_4 = a1_3 || a2_3;
    let a2_4 = a1_3 && a2_3;
    let a3_4 = a3_3 || a4_3;
    let a4_4 = a3_3 && a4_3;
    let a5_4 = a5_3 || a6_3;
    let a6_4 = a5_3 && a6_3;
    let a7_4 = a7_3 || a8_3;
    let a8_4 = a7_3 && a8_3;
    let a1_5 = a1_4 || a3_4;
    let a3_5 = a1_4 && a3_4;
    let a6_5 = a6_4 || a8_4;
    let a8_5 = a6_4 && a8_4;
    let a2_5 = a2_4 || a4_4;
    let a4_5 = a2_4 && a4_4;
    let a5_5 = a5_4 || a7_4;
    let a7_5 = a5_4 && a7_4;
    let a2_6 = a2_5 || a3_5;
    let a3_6 = a2_5 && a3_5;
    let a6_6 = a6_5 || a7_5;
    let a7_6 = a6_5 && a7_5;
    let a3_7 = a3_6 || a5_5;
    let a5_6 = a3_6 && a5_5;
    let a4_6 = a4_5 || a6_6;
    let a6_7 = a4_5 && a6_6;
    let a4_7 = a4_6 || a5_6;
    let a5_7 = a4_6 && a5_6;
    seq![a0_4, a1_5, a2_6, a3_7, a4_7, a5_7, a6_7, a7_6, a8_5, a9_4]
}

#[verifier::rlimit(50)]
#[verifier::spinoff_prover]
proof fn lemma_net10_thr(x: Seq<int>, t: int)
    requires
        x.len() >= 10,
    ensures
        thr(net10_w(x), t) == net10_b(thr(x, t)),
{
    let a0_0 = x[0];
    let b0_0 = thr(x, t)[0];
    assert((a0_0 >= t) == b0_0);
    let a1_0 = x[1];
    let b1_0 = thr(x, t)[1];
    assert((a1_0 >= t) == b1_0);
    let a2_0 = x[2];
    let b2_0 = thr(x, t)[2];
    assert((a2_0 >= t) == b2_0);
    let a3_0 = x[3];
    let b3_0 = thr(x, t)[3];
    assert((a3_0 >= t) == b3_0);
    let a4_0 = x[4];
    let b4_0 = thr(x, t)[4];
    assert((a4_0 >= t) == b4_0);
    let a5_0 = x[5];
    let b5_0 = thr(x, t)[5];
    assert((a5_0 >= t) == b5_0);
    let a6_0 = x[6];
    let b6_0 = thr(x, t)[6];
    assert((a6_0 >= t) == b6_0);
    let a7_0 = x[7];
    let b7_0 = thr(x, t)[7];
    assert((a7_0 >= t) == b7_0);
    let a8_0 = x[8];
    let b8_0 = thr(x, t)[8];
    assert((a8_0 >= t) == b8_0);
    let a9_0 = x[9];
    let b9_0 = thr(x, t)[9];
    assert((a9_0 >= t) == b9_0);
    let a1_1 = mx(a1_0, a8_0);
    let a8_1 = mn(a1_0, a8_0);
    let b1_1 = b1_0 || b8_0;
    let b8_1 = b1_0 && b8_0;
    lemma_mx_mn_thr(a1_0, a8_0, t);
    assert((a1_1 >= t) == b1_1 && (a8_1 >= t) == b8_1);
    let a0_1 = mx(a0_0, a4_0);
    let a4_1 = mn(a0_0, a4_0);
    let b0_1 = b0_0 || b4_0;
    let b4_1 = b0_0 && b4_0;
    lemma_mx_mn_thr(a0_0, a4_0, t);
    assert((a0_1 >= t) == b0_1 && (a4_1 >= t) == b4_1);
    let a5_1 = mx(a5_0, a9_0);
    let a9_1 = mn(a5_0, a9_0);
    let b5_1 = b5_0 || b9_0;
    let b9_1 = b5_0 && b9_0;
    lemma_mx_mn_thr(a5_0, a9_0, t);
    assert((a5_1 >= t) == b5_1 && (a9_1 >= t) == b9_1);
    let a2_1 = mx(a2_0, a6_0);
    let a6_1 = mn(a2_0, a6_0);
    let b2_1 = b2_0 || b6_0;
    let b6_1 = b2_0 && b6_0;
    lemma_mx_mn_thr(a2_0, a6_0, t);
    assert((a2_1 >= t) == b2_1 && (a6_1 >= t) == b6_1);
    let a3_1 = mx(a3_0, a7_0);
    let a7_1 = mn(a3_0, a7_0);
    let b3_1 = b3_0 || b7_0;
    let b7_1 = b3_0 && b7_0;
    lemma_mx_mn_thr(a3_0, a7_0, t);
    assert((a3_1 >= t) == b3_1 && (a7_1 >= t) == b7_1);
    let a0_2 = mx(a0_1, a3_1);
    let a3_2 = mn(a0_1, a3_1);
    let b0_2 = b0_1 || b3_1;
    let b3_2 = b0_1 && b3_1;
    lemma_mx_mn_thr(a0_1, a3_1, t);
    assert((a0_2 >= t) == b0_2 && (a3_2 >= t) == b3_2);
    let a6_2 = mx(a6_1, a9_1);
    let a9_2 = mn(a6_1, a9_1);
    let b6_2 = b6_1 || b9_1;
    let b9_2 = b6_1 && b9_1;
    lemma_mx_mn_thr(a6_1, a9_1, t);
    assert((a6_2 >= t) == b6_2 && (a9_2 >= t) == b9_2);
    let a2_2 = mx(a2_1, a5_1);
    let a5_2 = mn(a2_1, a5_1);
    let b2_2 = b2_1 || b5_1;
    let b5_2 = b2_1 && b5_1;
    lemma_mx_mn_thr(a2_1, a5_1, t);
    assert((a2_2 >= t) == b2_2 && (a5_2 >= t) == b5_2);
    let a0_3 = mx(a0_2, a1_1);
    let a1_2 = mn(a0_2, a1_1);
    let b0_3 = b0_2 || b1_1;
    let b1_2 = b0_2 && b1_1;
    lemma_mx_mn_thr(a0_2, a1_1, t);
    assert((a0_3 >= t) == b0_3 && (a1_2 >= t) == b1_2);
    let a3_3 = mx(a3_2, a6_2);
    let a6_3 = mn(a3_2, a6_2);
    let b3_3 = b3_2 || b6_2;
    let b6_3 = b3_2 && b6_2;
    lemma_mx_mn_thr(a3_2, a6_2, t);
    assert((a3_3 >= t) == b3_3 && (a6_3 >= t) == b6_3);
    let a8_2 = mx(a8_1, a9_2);
    let a9_3 = mn(a8_1, a9_2);
    let b8_2 = b8_1 || b9_2;
    let b9_3 = b8_1 && b9_2;
    lemma_mx_mn_thr(a8_1, a9_2, t);
    assert((a8_2 >= t) == b8_2 && (a9_3 >= t) == b9_3);
    let a4_2 = mx(a4_1, a7_1);
    let a7_2 = mn(a4_1, a7_1);
    let b4_2 = b4_1 || b7_1;
    let b7_2 = b4_1 && b7_1;
    lemma_mx_mn_thr(a4_1, a7_1, t);
    assert((a4_2 >= t) == b4_2 && (a7_2 >= t) == b7_2);
    let a0_4 = mx(a0_3, a2_2);
    let a2_3 = mn(a0_3, a2_2);
    let b0_4 = b0_3 || b2_2;
    let b2_3 = b0_3 && b2_2;
    lemma_mx_mn_thr(a0_3, a2_2, t);
    assert((a0_4 >= t) == b0_4 && (a2_3 >= t) == b2_3);
    let a4_3 = mx(a4_2, a8_2);
    let a8_3 = mn(a4_2, a8_2);
    let b4_3 = b4_2 || b8_2;
    let b8_3 = b4_2 && b8_2;
    lemma_mx_mn_thr(a4_2, a8_2, t);
    assert((a4_3 >= t) == b4_3 && (a8_3 >= t) == b8_3);
    let a1_3 = mx(a1_2, a5_2);
    let a5_3 = mn(a1_2, a5_2);
    let b1_3 = b1_2 || b5_2;
    let b5_3 = b1_2 && b5_2;
    lemma_mx_mn_thr(a1_2, a5_2, t);
    assert((a1_3 >= t) == b1_3 && (a5_3 >= t) == b5_3);
    let a7_3 = mx(a7_2, a9_3);
    let a9_4 = mn(a7_2, a9_3);
    let b7_3 = b7_2 || b9_3;
    let b9_4 = b7_2 && b9_3;
    lemma_mx_mn_thr(a7_2, a9_3, t);
    assert((a7_3 >= t) == b7_3 && (a9_4 >= t) == b9_4);
    let a1_4 = mx(a1_3, a2_3);
    let a2_4 = mn(a1_3, a2_3);
    let b1_4 = b1_3 || b2_3;
    let b2_4 = b1_3 && b2_3;
    lemma_mx_mn_thr(a1_3, a2_3, t);
    assert((a1_4 >= t) == b1_4 && (a2_4 >= t) == b2_4);
    let a3_4 = mx(a3_3, a4_3);
    let a4_4 = mn(a3_3, a4_3);
    let b3_4 = b3_3 || b4_3;
    let b4_4 = b3_3 && b4_3;
    lemma_mx_mn_thr(a3_3, a4_3, t);
    assert((a3_4 >= t) == b3_4 && (a4_4 >= t) == b4_4);
    let a5_4 = mx(a5_3, a6_3);
    let a6_4 = mn(a5_3, a6_3);
    let b5_4 = b5_3 || b6_3;
    let b6_4 = b5_3 && b6_3;
    lemma_mx_mn_thr(a5_3, a6_3, t);
    assert((a5_4 >= t) == b5_4 && (a6_4 >= t) == b6_4);
    let a7_4 = mx(a7_3, a8_3);
    let a8_4 = mn(a7_3, a8_3);
    let b7_4 = b7_3 || b8_3;
    let b8_4 = b7_3 && b8_3;
    lemma_mx_mn_thr(a7_3, a8_3, t);
    assert((a7_4 >= t) == b7_4 && (a8_4 >= t) == b8_4);
    let a1_5 = mx(a1_4, a3_4);
    let a3_5 = mn(a1_4, a3_4);
    let b1_5 = b1_4 || b3_4;
    let b3_5 = b1_4 && b3_4;
    lemma_mx_mn_thr(a1_4, a3_4, t);
    assert((a1_5 >= t) == b1_5 && (a3_5 >= t) == b3_5);
    let a6_5 = mx(a6_4, a8_4);
    let a8_5 = mn(a6_4, a8_4);
    let b6_5 = b6_4 || b8_4;
    let b8_5 = b6_4 && b8_4;
    lemma_mx_mn_thr(a6_4, a8_4, t);
    assert((a6_5 >= t) == b6_5 && (a8_5 >= t) == b8_5);
    let a2_5 = mx(a2_4, a4_4);
    let a4_5 = mn(a2_4, a4_4);
    let b2_5 = b2_4 || b4_4;
    let b4_5 = b2_4 && b4_4;
    lemma_mx_mn_thr(a2_4, a4_4, t);
    assert((a2_5 >= t) == b2_5 && (a4_5 >= t) == b4_5);
    let a5_5 = mx(a5_4, a7_4);
    let a7_5 = mn(a5_4, a7_4);
    let b5_5 = b5_4 || b7_4;
    let b7_5 = b5_4 && b7_4;
    lemma_mx_mn_thr(a5_4, a7_4, t);
    assert((a5_5 >= t) == b5_5 && (a7_5 >= t) == b7_5);
    let a2_6 = mx(a2_5, a3_5);
    let a3_6 = mn(a2_5, a3_5);
    let b2_6 = b2_5 || b3_5;
    let b3_6 = b2_5 && b3_5;
    lemma_mx_mn_thr(a2_5, a3_5, t);
    assert((a2_6 >= t) == b2_6 && (a3_6 >= t) == b3_6);
    let a6_6 = mx(a6_5, a7_5);
    let a7_6 = mn(a6_5, a7_5);
    let b6_6 = b6_5 || b7_5;
    let b7_6 = b6_5 && b7_5;
    lemma_mx_mn_thr(a6_5, a7_5, t);
    assert((a6_6 >= t) == b6_6 && (a7_6 >= t) == b7_6);
    let a3_7 = mx(a3_6, a5_5);
    let a5_6 = mn(a3_6, a5_5);
    let b3_7 = b3_6 || b5_5;
    let b5_6 = b3_6 && b5_5;
    lemma_mx_mn_thr(a3_6, a5_5, t);
    assert((a3_7 >= t) == b3_7 && (a5_6 >= t) == b5_6);
    let a4_6 = mx(a4_5, a6_6);
    let a6_7 = mn(a4_5, a6_6);
    let b4_6 = b4_5 || b6_6;
    let b6_7 = b4_5 && b6_6;
    lemma_mx_mn_thr(a4_5, a6_6, t);
    assert((a4_6 >= t) == b4_6 && (a6_7 >= t) == b6_7);
    let a4_7 = mx(a4_6, a5_6);
    let a5_7 = mn(a4_6, a5_6);
    let b4_7 = b4_6 || b5_6;
    let b5_7 = b4_6 && b5_6;
    lemma_mx_mn_thr(a4_6, a5_6, t);
    assert((a4_7 >= t) == b4_7 && (a5_7 >= t) == b5_7);
    assert(thr(net10_w(x), t) =~= net10_b(thr(x, t)));
}

#[verifier::rlimit(50)]
#[verifier::spinoff_prover]
proof fn lemma_net10_bool(x: Seq<bool>)
    requires
        x.len() >= 10,
    ensures
        sorted_bool(net10_b(x), 10),
{
}

/// The network for 10 entries sorts every weight sequence.
pub proof fn lemma_net10_sorts(x: Seq<int>)
    requires
        x.len() >= 10,
    ensures
        sorted_desc(net10_w(x), 10),
{
    let out = net10_w(x);
    assert forall|i: int, j: int| 0 <= i < j < 10 implies out[i] >= out[j] by {
        if out[i] < out[j] {
            let t = out[j];
            lemma_net10_thr(x, t);
            lemma_net10_bool(thr(x, t));
            assert(thr(out, t)[j]);
            assert(!thr(out, t)[i]);
        }
    }
}

/// Applying the network for 10 entries to a move list keeps the multiset
/// of moves and leaves the tail alone.
#[verifier::rlimit(50)]
#[verifier::spinoff_prover]
proof fn lemma_net10_perm(x0: Seq<MoveType>)
    requires
        x0.len() == 14,
    ensures
        net10_m(x0).len() == 14,
        net10_m(x0).to_multiset() == x0.to_multiset(),
        forall|k: int| 10 <= k < 14 ==> #[trigger] net10_m(x0)[k] == x0[k],
{
    let x1 = cs_moves(x0, 1, 8);
    lemma_cs_multiset(x0, 1, 8);
    let x2 = cs_moves(x1, 0, 4);
    lemma_cs_multiset(x1, 0, 4);
    let x3 = cs_moves(x2, 5, 9);
    lemma_cs_multiset(x2, 5, 9);
    let x4 = cs_moves(x3, 2, 6);
    lemma_cs_multiset(x3, 2, 6);
    let x5 = cs_moves(x4, 3, 7);
    lemma_cs_multiset(x4, 3, 7);
    let x6 = cs_moves(x5, 0, 3);
    lemma_cs_multiset(x5, 0, 3);
    let x7 = cs_moves(x6, 6, 9);
    lemma_cs_multiset(x6, 6, 9);
    let x8 = cs_moves(x7, 2, 5);
    lemma_cs_multiset(x7, 2, 5);
    let x9 = cs_moves(x8, 0, 1);
    lemma_cs_multiset(x8, 0, 1);
    let x10 = cs_moves(x9, 3, 6);
    lemma_cs_multiset(x9, 3, 6);
    let x11 = cs_moves(x10, 8, 9);
    lemma_cs_multiset(x10, 8, 9);
    let x12 = cs_moves(x11, 4, 7);
    lemma_cs_multiset(x11, 4, 7);
    let x13 = cs_moves(x12, 0, 2);
    lemma_cs_multiset(x12, 0, 2);
    let x14 = cs_moves(x13, 4, 8);
    lemma_cs_multiset(x13, 4, 8);
    let x15 = cs_moves(x14, 1, 5);
    lemma_cs_multiset(x14, 1, 5);
    let x16 = cs_moves(x15, 7, 9);
    lemma_cs_multiset(x15, 7, 9);
    let x17 = cs_moves(x16, 1, 2);
    lemma_cs_multiset(x16, 1, 2);
    let x18 = cs_moves(x17, 3, 4);
    lemma_cs_multiset(x17, 3, 4);
    let x19 = cs_moves(x18, 5, 6);
    lemma_cs_multiset(x18, 5, 6);
    let x20 = cs_moves(x19, 7, 8);
    lemma_cs_multiset(x19, 7, 8);
    let x21 = cs_moves(x20, 1, 3);
    lemma_cs_multiset(x20, 1, 3);
    let x22 = cs_moves(x21, 6, 8);
    lemma_cs_multiset(x21, 6, 8);
    let x23 = cs_moves(x22, 2, 4);
    lemma_cs_multiset(x22, 2, 4);
    let x24 = cs_moves(x23, 5, 7);
    lemma_cs_multiset(x23, 5, 7);
    let x25 = cs_moves(x24, 2, 3);
    lemma_cs_multiset(x24, 2, 3);
    let x26 = cs_moves(x25, 6, 7);
    lemma_cs_multiset(x25, 6, 7);
    let x27 = cs_moves(x26, 3, 5);
    lemma_cs_multiset(x26, 3, 5);
    let x28 = cs_moves(x27, 4, 6);
    lemma_cs_multiset(x27, 4, 6);
    let x29 = cs_moves(x28, 4, 5);
    lemma_cs_multiset(x28, 4, 5);
}

/// Applying the network for 10 entries to a move list applies it to the
/// weights.
#[verifier::rlimit(50)]
#[verifier::spinoff_prover]
proof fn lemma_net10_link(x0: Seq<MoveType>)
    requires
        x0.len() == 14,
    ensures
        forall|k: int| 0 <= k < 10 ==> #[trigger] weights(net10_m(x0))[k] == net10_w(weights(x0))[k],
{
    let w0 = weights(x0);
    let a0_0 = w0[0];
    let a1_0 = w0[1];
    let a2_0 = w0[2];
    let a3_0 = w0[3];
    let a4_0 = w0[4];
    let a5_0 = w0[5];
    let a6_0 = w0[6];
    let a7_0 = w0[7];
    let a8_0 = w0[8];
    let a9_0 = w0[9];
    let x1 = cs_moves(x0, 1, 8);
    lemma_cs_step(x0, 1, 8);
    let w1 = w0.update(1, mx(w0[1], w0[8])).update(8, mn(w0[1], w0[8]));
    let a1_1 = mx(a1_0, a8_0);
    let a8_1 = mn(a1_0, a8_0);
    assert(w1[1] == a1_1 && w1[8] == a8_1);
    let x2 = cs_moves(x1, 0, 4);
    lemma_cs_step(x1, 0, 4);
    let w2 = w1.update(0, mx(w1[0], w1[4])).update(4, mn(w1[0], w1[4]));
    let a0_1 = mx(a0_0, a4_0);
    let a4_1 = mn(a0_0, a4_0);
    assert(w2[0] == a0_1 && w2[4] == a4_1);
    let x3 = cs_moves(x2, 5, 9);
    lemma_cs_step(x2, 5, 9);
    let w3 = w2.update(5, mx(w2[5], w2[9])).update(9, mn(w2[5], w2[9]));
    let a5_1 = mx(a5_0, a9_0);
    let a9_1 = mn(a5_0, a9_0);
    assert(w3[5] == a5_1 && w3[9] == a9_1);
    let x4 = cs_moves(x3, 2, 6);
    lemma_cs_step(x3, 2, 6);
    let w4 = w3.update(2, mx(w3[2], w3[6])).update(6, mn(w3[2], w3[6]));
    let a2_1 = mx(a2_0, a6_0);
    let a6_1 = mn(a2_0, a6_0);
    assert(w4[2] == a2_1 && w4[6] == a6_1);
    let x5 = cs_moves(x4, 3, 7);
    lemma_cs_step(x4, 3, 7);
    let w5 = w4.update(3, mx(w4[3], w4[7])).update(7, mn(w4[3], w4[7]));
    let a3_1 = mx(a3_0, a7_0);
    let a7_1 = mn(a3_0, a7_0);
    assert(w5[3] == a3_1 && w5[7] == a7_1);
    let x6 = cs_moves(x5, 0, 3);
    lemma_cs_step(x5, 0, 3);
    let w6 = w5.update(0, mx(w5[0], w5[3])).update(3, mn(w5[0], w5[3]));
    let a0_2 = mx(a0_1, a3_1);
    let a3_2 = mn(a0_1, a3_1);
    assert(w6[0] == a0_2 && w6[3] == a3_2);
    let x7 = cs_moves(x6, 6, 9);
    lemma_cs_step(x6, 6, 9);
    let w7 = w6.update(6, mx(w6[6], w6[9])).update(9, mn(w6[6], w6[9]));
    let a6_2 = mx(a6_1, a9_1);
    let a9_2 = mn(a6_1, a9_1);
    assert(w7[6] == a6_2 && w7[9] == a9_2);
    let x8 = cs_moves(x7, 2, 5);
    lemma_cs_step(x7, 2, 5);
    let w8 = w7.update(2, mx(w7[2], w7[5])).update(5, mn(w7[2], w7[5]));
    let a2_2 = mx(a2_1, a5_1);
    let a5_2 = mn(a2_1, a5_1);
    assert(w8[2] == a2_2 && w8[5] == a5_2);
    let x9 = cs_moves(x8, 0, 1);
    lemma_cs_step(x8, 0, 1);
    let w9 = w8.update(0, mx(w8[0], w8[1])).update(1, mn(w8[0], w8[1]));
    let a0_3 = mx(a0_2, a1_1);
    let a1_2 = mn(a0_2, a1_1);
    assert(w9[0] == a0_3 && w9[1] == a1_2);
    let x10 = cs_moves(x9, 3, 6);
    lemma_cs_step(x9, 3, 6);
    let w10 = w9.update(3, mx(w9[3], w9[6])).update(6, mn(w9[3], w9[6]));
    let a3_3 = mx(a3_2, a6_2);
    let a6_3 = mn(a3_2, a6_2);
    assert(w10[3] == a3_3 && w10[6] == a6_3);
    let x11 = cs_moves(x10, 8, 9);
    lemma_cs_step(x10, 8, 9);
    let w11 = w10.update(8, mx(w10[8], w10[9])).update(9, mn(w10[8], w10[9]));
    let a8_2 = mx(a8_1, a9_2);
    let a9_3 = mn(a8_1, a9_2);
    assert(w11[8] == a8_2 && w11[9] == a9_3);
    let x12 = cs_moves(x11, 4, 7);
    lemma_cs_step(x11, 4, 7);
    let w12 = w11.update(4, mx(w11[4], w11[7])).update(7, mn(w11[4], w11[7]));
    let a4_2 = mx(a4_1, a7_1);
    let a7_2 = mn(a4_1, a7_1);
    assert(w12[4] == a4_2 && w12[7] == a7_2);
    let x13 = cs_moves(x12, 0, 2);
    lemma_cs_step(x12, 0, 2);
    let w13 = w12.update(0, mx(w12[0], w12[2])).update(2, mn(w12[0], w12[2]));
    let a0_4 = mx(a0_3, a2_2);
    let a2_3 = mn(a0_3, a2_2);
    assert(w13[0] == a0_4 && w13[2] == a2_3);
    let x14 = cs_moves(x13, 4, 8);
    lemma_cs_step(x13, 4, 8);
    let w14 = w13.update(4, mx(w13[4], w13[8])).update(8, mn(w13[4], w13[8]));
    let a4_3 = mx(a4_2, a8_2);
    let a8_3 = mn(a4_2, a8_2);
    assert(w14[4] == a4_3 && w14[8] == a8_3);
    let x15 = cs_moves(x14, 1, 5);
    lemma_cs_step(x14, 1, 5);
    let w15 = w14.update(1, mx(w14[1], w14[5])).update(5, mn(w14[1], w14[5]));
    let a1_3 = mx(a1_2, a5_2);
    let a5_3 = mn(a1_2, a5_2);
    assert(w15[1] == a1_3 && w15[5] == a5_3);
    let x16 = cs_moves(x15, 7, 9);
    lemma_cs_step(x15, 7, 9);
    let w16 = w15.update(7, mx(w15[7], w15[9])).update(9, mn(w15[7], w15[9]));
    let a7_3 = mx(a7_2, a9_3);
    let a9_4 = mn(a7_2, a9_3);
    assert(w16[7] == a7_3 && w16[9] == a9_4);
    let x17 = cs_moves(x16, 1, 2);
    lemma_cs_step(x16, 1, 2);
    let w17 = w16.update(1, mx(w16[1], w16[2])).update(2, mn(w16[1], w16[2]));
    let a1_4 = mx(a1_3, a2_3);
    let a2_4 = mn(a1_3, a2_3);
    assert(w17[1] == a1_4 && w17[2] == a2_4);
    let x18 = cs_moves(x17, 3, 4);
    lemma_cs_step(x17, 3, 4);
    let w18 = w17.update(3, mx(w17[3], w17[4])).update(4, mn(w17[3], w17[4]));
    let a3_4 = mx(a3_3, a4_3);
    let a4_4 = mn(a3_3, a4_3);
    assert(w18[3] == a3_4 && w18[4] == a4_4);
    let x19 = cs_moves(x18, 5, 6);
    lemma_cs_step(x18, 5, 6);
    let w19 = w18.update(5, mx(w18[5], w18[6])).update(6, mn(w18[5], w18[6]));
    let a5_4 = mx(a5_3, a6_3);
    let a6_4 = mn(a5_3, a6_3);
    assert(w19[5] == a5_4 && w19[6] == a6_4);
    let x20 = cs_moves(x19, 7, 8);
    lemma_cs_step(x19, 7, 8);
    let w20 = w19.update(7, mx(w19[7], w19[8])).update(8, mn(w19[7], w19[8]));
    let a7_4 = mx(a7_3, a8_3);
    let a8_4 = mn(a7_3, a8_3);
    assert(w20[7] == a7_4 && w20[8] == a8_4);
    let x21 = cs_moves(x20, 1, 3);
    lemma_cs_step(x20, 1, 3);
    let w21 = w20.update(1, mx(w20[1], w20[3])).update(3, mn(w20[1], w20[3]));
    let a1_5 = mx(a1_4, a3_4);
    let a3_5 = mn(a1_4, a3_4);
    assert(w21[1] == a1_5 && w21[3] == a3_5);
    let x22 = cs_moves(x21, 6, 8);
    lemma_cs_step(x21, 6, 8);
    let w22 = w21.update(6, mx(w21[6], w21[8])).update(8, mn(w21[6], w21[8]));
    let a6_5 = mx(a6_4, a8_4);
    let a8_5 = mn(a6_4, a8_4);
    assert(w22[6] == a6_5 && w22[8] == a8_5);
    let x23 = cs_moves(x22, 2, 4);
    lemma_cs_step(x22, 2, 4);
    let w23 = w22.update(2, mx(w22[2], w22[4])).update(4, mn(w22[2], w22[4]));
    let a2_5 = mx(a2_4, a4_4);
    let a4_5 = mn(a2_4, a4_4);
    assert(w23[2] == a2_5 && w23[4] == a4_5);
    let x24 = cs_moves(x23, 5, 7);
    lemma_cs_step(x23, 5, 7);
    let w24 = w23.update(5, mx(w23[5], w23[7])).update(7, mn(w23[5], w23[7]));
    let a5_5 = mx(a5_4, a7_4);
    let a7_5 = mn(a5_4, a7_4);
    assert(w24[5] == a5_5 && w24[7] == a7_5);
    let x25 = cs_moves(x24, 2, 3);
    lemma_cs_step(x24, 2, 3);
    let w25 = w24.update(2, mx(w24[2], w24[3])).update(3, mn(w24[2], w24[3]));
    let a2_6 = mx(a2_5, a3_5);
    let a3_6 = mn(a2_5, a3_5);
    assert(w25[2] == a2_6 && w25[3] == a3_6);
    let x26 = cs_moves(x25, 6, 7);
    lemma_cs_step(x25, 6, 7);
    let w26 = w25.update(6, mx(w25[6], w25[7])).update(7, mn(w25[6], w25[7]));
    let a6_6 = mx(a6_5, a7_5);
    let a7_6 = mn(a6_5, a7_5);
    assert(w26[6] == a6_6 && w26[7] == a7_6);
    let x27 = cs_moves(x26, 3, 5);
    lemma_cs_step(x26, 3, 5);
    let w27 = w26.update(3, mx(w26[3], w26[5])).update(5, mn(w26[3], w26[5]));
    let a3_7 = mx(a3_6, a5_5);
    let a5_6 = mn(a3_6, a5_5);
    assert(w27[3] == a3_7 && w27[5] == a5_6);
    let x28 = cs_moves(x27, 4, 6);
    lemma_cs_step(x27, 4, 6);
    let w28 = w27.update(4, mx(w27[4], w27[6])).update(6, mn(w27[4], w27[6]));
    let a4_6 = mx(a4_5, a6_6);
    let a6_7 = mn(a4_5, a6_6);
    assert(w28[4] == a4_6 && w28[6] == a6_7);
    let x29 = cs_moves(x28, 4, 5);
    lemma_cs_step(x28, 4, 5);
    let w29 = w28.update(4, mx(w28[4], w28[5])).update(5, mn(w28[4], w28[5]));
    let a4_7 = mx(a4_6, a5_6);
    let a5_7 = mn(a4_6, a5_6);
    assert(w29[4] == a4_7 && w29[5] == a5_7);
    assert(weights(x29) == w29);
    let w = net10_w(weights(x0));
    assert(w == seq![a0_4, a1_5, a2_6, a3_7, a4_7, a5_7, a6_7, a7_6, a8_5, a9_4]);
    assert(w29[0] == w[0]);
    assert(w29[1] == w[1]);
    assert(w29[2] == w[2]);
    assert(w29[3] == w[3]);
    assert(w29[4] == w[4]);
    assert(w29[5] == w[5]);
    assert(w29[6] == w[6]);
    assert(w29[7] == w[7]);
    assert(w29[8] == w[8]);
    assert(w29[9] == w[9]);
}

/// The network for 11 entries, applied to a move list.
pub open spec fn net11_m(x0: Seq<MoveType>) -> Seq<MoveType> {
    let x1 = cs_moves(x0, 0, 1);
    let x2 = cs_moves(x1, 2, 3);
    let x3 = cs_moves(x2, 4, 5);
    let x4 = cs_moves(x3, 6, 7);
    let x5 = cs_moves(x4, 8, 9);
    let x6 = cs_moves(x5, 1, 3);
    let x7 = cs_moves(x6, 5, 7);
    let x8 = cs_moves(x7, 0, 2);
    let x9 = cs_moves(x8, 4, 6);
    let x10 = cs_moves(x9, 8, 10);
    let x11 = cs_moves(x10, 1, 2);
    let x12 = cs_moves(x11, 5, 6);
    let x13 = cs_moves(x12, 9, 10);
    let x14 = cs_moves(x13, 1, 5);
    let x15 = cs_moves(x14, 6, 10);
    let x16 = cs_moves(x15, 5, 9);
    let x17 = cs_moves(x16, 2, 6);
    let x18 = cs_moves(x17, 1, 5);
    let x19 = cs_moves(x18, 6, 10);
    let x20 = cs_moves(x19, 0, 4);
    let x21 = cs_moves(x20, 3, 7);
    let x22 = cs_moves(x21, 4, 8);
    let x23 = cs_moves(x22, 0, 4);
    let x24 = cs_moves(x23, 1, 4);
    let x25 = cs_moves(x24, 7, 10);
    let x26 = cs_moves(x25, 3, 8);
    let x27 = cs_moves(x26, 2, 3);
    let x28 = cs_moves(x27, 8, 9);
    let x29 = cs_moves(x28, 2, 4);
    let x30 = cs_moves(x29, 7, 9);
    let x31 = cs_moves(x30, 3, 5);
    let x32 = cs_moves(x31, 6, 8);
    let x33 = cs_moves(x32, 3, 4);
    let x34 = cs_moves(x33, 5, 6);
    let x35 = cs_moves(x34, 7, 8);
    x35
}

/// The network for 11 entries, applied to the first 11 weights of `x`.
pub open spec fn net11_w(x: Seq<int>) -> Seq<int> {
    let a0_0 = x[0];
    let a1_0 = x[1];
    let a2_0 = x[2];
    let a3_0 = x[3];
    let a4_0 = x[4];
    let a5_0 = x[5];
    let a6_0 = x[6];
    let a7_0 = x[7];
    let a8_0 = x[8];
    let a9_0 = x[9];
    let a10_0 = x[10];
    let a0_1 = mx(a0_0, a1_0);
    let a1_1 = mn(a0_0, a1_0);
    let a2_1 = mx(a2_0, a3_0);
    let a3_1 = mn(a2_0, a3_0);
    let a4_1 = mx(a4_0, a5_0);
    let a5_1 = mn(a4_0, a5_0);
    let a6_1 = mx(a6_0, a7_0);
    let a7_1 = mn(a6_0, a7_0);
    let a8_1 = mx(a8_0, a9_0);
    let a9_1 = mn(a8_0, a9_0);
    let a1_2 = mx(a1_1, a3_1);
    let a3_2 = mn(a1_1, a3_1);
    let a5_2 = mx(a5_1, a7_1);
    let a7_2 = mn(a5_1, a7_1);
    let a0_2 = mx(a0_1, a2_1);
    let a2_2 = mn(a0_1, a2_1);
    let a4_2 = mx(a4_1, a6_1);
    let a6_2 = mn(a4_1, a6_1);
    let a8_2 = mx(a8_1, a10_0);
    let a10_1 = mn(a8_1, a10_0);
    let a1_3 = mx(a1_2, a2_2);
    let a2_3 = mn(a1_2, a2_2);
    let a5_3 = mx(a5_2, a6_2);
    let a6_3 = mn(a5_2, a6_2);
    let a9_2 = mx(a9_1, a10_1);
    let a10_2 = mn(a9_1, a10_1);
    let a1_4 = mx(a1_3, a5_3);
    let a5_4 = mn(a1_3, a5_3);
    let a6_4 = mx(a6_3, a10_2);
    let a10_3 = mn(a6_3, a10_2);
    let a5_5 = mx(a5_4, a9_2);
    let a9_3 = mn(a5_4, a9_2);
    let a2_4 = mx(a2_3, a6_4);
    let a6_5 = mn(a2_3, a6_4);
    let a1_5 = mx(a1_4, a5_5);
    let a5_6 = mn(a1_4, a5_5);
    let a6_6 = mx(a6_5, a10_3);
    let a10_4 = mn(a6_5, a10_3);
    let a0_3 = mx(a0_2, a4_2);
    let a4_3 = mn(a0_2, a4_2);
    let a3_3 = mx(a3_2, a7_2);
    let a7_3 = mn(a3_2, a7_2);
    let a4_4 = mx(a4_3, a8_2);
    let a8_3 = mn(a4_3, a8_2);
    let a0_4 = mx(a0_3, a4_4);
    let a4_5 = mn(a0_3, a4_4);
    let a1_6 = mx(a1_5, a4_5);
    let a4_6 = mn(a1_5, a4_5);
    let a7_4 = mx(a7_3, a10_4);
    let a10_5 = mn(a7_3, a10_4);
    let a3_4 = mx(a3_3, a8_3);
    let a8_4 = mn(a3_3, a8_3);
    let a2_5 = mx(a2_4, a3_4);
    let a3_5 = mn(a2_4, a3_4);
    let a8_5 = mx(a8_4, a9_3);
    let a9_4 = mn(a8_4, a9_3);
    let a2_6 = mx(a2_5, a4_6);
    let a4_7 = mn(a2_5, a4_6);
    let a7_5 = mx(a7_4, a9_4);
    let a9_5 = mn(a7_4, a9_4);
    let a3_6 = mx(a3_5, a5_6);
    let a5_7 = mn(a3_5, a5_6);
    let a6_7 = mx(a6_6, a8_5);
    let a8_6 = mn(a6_6, a8_5);
    let a3_7 = mx(a3_6, a4_7);
    let a4_8 = mn(a3_6, a4_7);
    let a5_8 = mx(a5_7, a6_7);
    let a6_8 = mn(a5_7, a6_7);
    let a7_6 = mx(a7_5, a8_6);
    let a8_7 = mn(a7_5, a8_6);
    seq![a0_4, a1_6, a2_6, a3_7, a4_8, a5_8, a6_8, a7_6, a8_7, a9_5, a10_5]
}

/// The network for 11 entries, applied to the first 11 booleans of `x`.
pub open spec fn net11_b(x: Seq<bool>) -> Seq<bool> {
    let a0_0 = x[0];
    let a1_0 = x[1];
    let a2_0 = x[2];
    let a3_0 = x[3];
    let a4_0 = x[4];
    let a5_0 = x[5];
    let a6_0 = x[6];
    let a7_0 = x[7];
    let a8_0 = x[8];
    let a9_0 = x[9];
    let a10_0 = x[10];
    let a0_1 = a0_0 || a1_0;
    let a1_1 = a0_0 && a1_0;
    let a2_1 = a2_0 || a3_0;
    let a3_1 = a2_0 && a3_0;
    let a4_1 = a4_0 || a5_0;
    let a5_1 = a4_0 && a5_0;
    let a6_1 = a6_0 || a7_0;
    let a7_1 = a6_0 && a7_0;
    let a8_1 = a8_0 || a9_0;
    let a9_1 = a8_0 && a9_0;
    let a1_2 = a1_1 || a3_1;
    let a3_2 = a1_1 && a3_1;
    let a5_2 = a5_1 || a7_1;
    let a7_2 = a5_1 && a7_1;
    let a0_2 = a0_1 || a2_1;
    let a2_2 = a0_1 && a2_1;
    let a4_2 = a4_1 || a6_1;
    let a6_2 = a4_1 && a6_1;
    let a8_2 = a8_1 || a10_0;
    let a10_1 = a8_1 && a10_0;
    let a1_3 = a1_2 || a2_2;
    let a2_3 = a1_2 && a2_2;
    let a5_3 = a5_2 || a6_2;
    let a6_3 = a5_2 && a6_2;
    let a9_2 = a9_1 || a10_1;
    let a10_2 = a9_1 && a10_1;
    let a1_4 = a1_3 || a5_3;
    let a5_4 = a1_3 && a5_3;
    let a6_4 = a6_3 || a10_2;
    let a10_3 = a6_3 && a10_2;
    let a5_5 = a5_4 || a9_2;
    let a9_3 = a5_4 && a9_2;
    let a2_4 = a2_3 || a6_4;
    let a6_5 = a2_3 && a6_4;
    let a1_5 = a1_4 || a5_5;
    let a5_6 = a1_4 && a5_5;
    let a6_6 = a6_5 || a10_3;
    let a10_4 = a6_5 && a10_3;
    let a0_3 = a0_2 || a4_2;
    let a4_3 = a0_2 && a4_2;
    let a3_3 = a3_2 || a7_2;
    let a7_3 = a3_2 && a7_2;
    let a4_4 = a4_3 || a8_2;
    let a8_3 = a4_3 && a8_2;
    let a0_4 = a0_3 || a4_4;
    let a4_5 = a0_3 && a4_4;
    let a1_6 = a1_5 || a4_5;
    let a4_6 = a1_5 && a4_5;
    let a7_4 = a7_3 || a10_4;
    let a10_5 = a7_3 && a10_4;
    let a3_4 = a3_3 || a8_3;
    let a8_4 = a3_3 && a8_3;
    let a2_5 = a2_4 || a3_4;
    let a3_5 = a2_4 && a3_4;
    let a8_5 = a8_4 || a9_3;
    let a9_4 = a8_4 && a9_3;
    let a2_6 = a2_5 || a4_6;
    let a4_7 = a2_5 && a4_6;
    let a7_5 = a7_4 || a9_4;
    let a9_5 = a7_4 && a9_4;
    let a3_6 = a3_5 || a5_6;
    let a5_7 = a3_5 && a5_6;
    let a6_7 = a6_6 || a8_5;
    let a8_6 = a6_6 && a8_5;
    let a3_7 = a3_6 || a4_7;
    let a4_8 = a3_6 && a4_7;
    let a5_8 = a5_7 || a6_7;
    let a6_8 = a5_7 && a6_7;
    let a7_6 = a7_5 || a8_6;
    let a8_7 = a7_5 && a8_6;
    seq![a0_4, a1_6, a2_6, a3_7, a4_8, a5_8, a6_8, a7_6, a8_7, a9_5, a10_5]
}

#[verifier::rlimit(50)]
#[verifier::spinoff_prover]
proof fn lemma_net11_thr(x: Seq<int>, t: int)
    requires
        x.len() >= 11,
    ensures
        thr(net11_w(x), t) == net11_b(thr(x, t)),
{
    let a0_0 = x[0];
    let b0_0 = thr(x, t)[0];
    assert((a0_0 >= t) == b0_0);
    let a1_0 = x[1];
    let b1_0 = thr(x, t)[1];
    assert((a1_0 >= t) == b1_0);
    let a2_0 = x[2];
    let b2_0 = thr(x, t)[2];
    assert((a2_0 >= t) == b2_0);
    let a3_0 = x[3];
    let b3_0 = thr(x, t)[3];
    assert((a3_0 >= t) == b3_0);
    let a4_0 = x[4];
    let b4_0 = thr(x, t)[4];
    assert((a4_0 >= t) == b4_0);
    let a5_0 = x[5];
    let b5_0 = thr(x, t)[5];
    assert((a5_0 >= t) == b5_0);
    let a6_0 = x[6];
    let b6_0 = thr(x, t)[6];
    assert((a6_0 >= t) == b6_0);
    let a7_0 = x[7];
    let b7_0 = thr(x, t)[7];
    assert((a7_0 >= t) == b7_0);
    let a8_0 = x[8];
    let b8_0 = thr(x, t)[8];
    assert((a8_0 >= t) == b8_0);
    let a9_0 = x[9];
    let b9_0 = thr(x, t)[9];
    assert((a9_0 >= t) == b9_0);
    let a10_0 = x[10];
    let b10_0 = thr(x, t)[10];
    assert((a10_0 >= t) == b10_0);
    let a0_1 = mx(a0_0, a1_0);
    let a1_1 = mn(a0_0, a1_0);
    let b0_1 = b0_0 || b1_0;
    let b1_1 = b0_0 && b1_0;
    lemma_mx_mn_thr(a0_0, a1_0, t);
    assert((a0_1 >= t) == b0_1 && (a1_1 >= t) == b1_1);
    let a2_1 = mx(a2_0, a3_0);
    let a3_1 = mn(a2_0, a3_0);
    let b2_1 = b2_0 || b3_0;
    let b3_1 = b2_0 && b3_0;
    lemma_mx_mn_thr(a2_0, a3_0, t);
    assert((a2_1 >= t) == b2_1 && (a3_1 >= t) == b3_1);
    let a4_1 = mx(a4_0, a5_0);
    let a5_1 = mn(a4_0, a5_0);
    let b4_1 = b4_0 || b5_0;
    let b5_1 = b4_0 && b5_0;
    lemma_mx_mn_thr(a4_0, a5_0, t);
    assert((a4_1 >= t) == b4_1 && (a5_1 >= t) == b5_1);
    let a6_1 = mx(a6_0, a7_0);
    let a7_1 = mn(a6_0, a7_0);
    let b6_1 = b6_0 || b7_0;
    let b7_1 = b6_0 && b7_0;
    lemma_mx_mn_thr(a6_0, a7_0, t);
    assert((a6_1 >= t) == b6_1 && (a7_1 >= t) == b7_1);
    let a8_1 = mx(a8_0, a9_0);
    let a9_1 = mn(a8_0, a9_0);
    let b8_1 = b8_0 || b9_0;
    let b9_1 = b8_0 && b9_0;
    lemma_mx_mn_thr(a8_0, a9_0, t);
    assert((a8_1 >= t) == b8_1 && (a9_1 >= t) == b9_1);
    let a1_2 = mx(a1_1, a3_1);
    let a3_2 = mn(a1_1, a3_1);
    let b1_2 = b1_1 || b3_1;
    let b3_2 = b1_1 && b3_1;
    lemma_mx_mn_thr(a1_1, a3_1, t);
    assert((a1_2 >= t) == b1_2 && (a3_2 >= t) == b3_2);
    let a5_2 = mx(a5_1, a7_1);
    let a7_2 = mn(a5_1, a7_1);
    let b5_2 = b5_1 || b7_1;
    let b7_2 = b5_1 && b7_1;
    lemma_mx_mn_thr(a5_1, a7_1, t);
    assert((a5_2 >= t) == b5_2 && (a7_2 >= t) == b7_2);
    let a0_2 = mx(a0_1, a2_1);
    let a2_2 = mn(a0_1, a2_1);
    let b0_2 = b0_1 || b2_1;
    let b2_2 = b0_1 && b2_1;
    lemma_mx_mn_thr(a0_1, a2_1, t);
    assert((a0_2 >= t) == b0_2 && (a2_2 >= t) == b2_2);
    let a4_2 = mx(a4_1, a6_1);
    let a6_2 = mn(a4_1, a6_1);
    let b4_2 = b4_1 || b6_1;
    let b6_2 = b4_1 && b6_1;
    lemma_mx_mn_thr(a4_1, a6_1, t);
    assert((a4_2 >= t) == b4_2 && (a6_2 >= t) == b6_2);
    let a8_2 = mx(a8_1, a10_0);
    let a10_1 = mn(a8_1, a10_0);
    let b8_2 = b8_1 || b10_0;
    let b10_1 = b8_1 && b10_0;
    lemma_mx_mn_thr(a8_1, a10_0, t);
    assert((a8_2 >= t) == b8_2 && (a10_1 >= t) == b10_1);
    let a1_3 = mx(a1_2, a2_2);
    let a2_3 = mn(a1_2, a2_2);
    let b1_3 = b1_2 || b2_2;
    let b2_3 = b1_2 && b2_2;
    lemma_mx_mn_thr(a1_2, a2_2, t);
    assert((a1_3 >= t) == b1_3 && (a2_3 >= t) == b2_3);
    let a5_3 = mx(a5_2, a6_2);
    let a6_3 = mn(a5_2, a6_2);
    let b5_3 = b5_2 || b6_2;
    let b6_3 = b5_2 && b6_2;
    lemma_mx_mn_thr(a5_2, a6_2, t);
    assert((a5_3 >= t) == b5_3 && (a6_3 >= t) == b6_3);
    let a9_2 = mx(a9_1, a10_1);
    let a10_2 = mn(a9_1, a10_1);
    let b9_2 = b9_1 || b10_1;
    let b10_2 = b9_1 && b10_1;
    lemma_mx_mn_thr(a9_1, a10_1, t);
    assert((a9_2 >= t) == b9_2 && (a10_2 >= t) == b10_2);
    let a1_4 = mx(a1_3, a5_3);
    let a5_4 = mn(a1_3, a5_3);
    let b1_4 = b1_3 || b5_3;
    let b5_4 = b1_3 && b5_3;
    lemma_mx_mn_thr(a1_3, a5_3, t);
    assert((a1_4 >= t) == b1_4 && (a5_4 >= t) == b5_4);
    let a6_4 = mx(a6_3, a10_2);
    let a10_3 = mn(a6_3, a10_2);
    let b6_4 = b6_3 || b10_2;
    let b10_3 = b6_3 && b10_2;
    lemma_mx_mn_thr(a6_3, a10_2, t);
    assert((a6_4 >= t) == b6_4 && (a10_3 >= t) == b10_3);
    let a5_5 = mx(a5_4, a9_2);
    let a9_3 = mn(a5_4, a9_2);
    let b5_5 = b5_4 || b9_2;
    let b9_3 = b5_4 && b9_2;
    lemma_mx_mn_thr(a5_4, a9_2, t);
    assert((a5_5 >= t) == b5_5 && (a9_3 >= t) == b9_3);
    let a2_4 = mx(a2_3, a6_4);
    let a6_5 = mn(a2_3, a6_4);
    let b2_4 = b2_3 || b6_4;
    let b6_5 = b2_3 && b6_4;
    lemma_mx_mn_thr(a2_3, a6_4, t);
    assert((a2_4 >= t) == b2_4 && (a6_5 >= t) == b6_5);
    let a1_5 = mx(a1_4, a5_5);
    let a5_6 = mn(a1_4, a5_5);
    let b1_5 = b1_4 || b5_5;
    let b5_6 = b1_4 && b5_5;
    lemma_mx_mn_thr(a1_4, a5_5, t);
    assert((a1_5 >= t) == b1_5 && (a5_6 >= t) == b5_6);
    let a6_6 = mx(a6_5, a10_3);
    let a10_4 = mn(a6_5, a10_3);
    let b6_6 = b6_5 || b10_3;
    let b10_4 = b6_5 && b10_3;
    lemma_mx_mn_thr(a6_5, a10_3, t);
    assert((a6_6 >= t) == b6_6 && (a10_4 >= t) == b10_4);
    let a0_3 = mx(a0_2, a4_2);
    let a4_3 = mn(a0_2, a4_2);
    let b0_3 = b0_2 || b4_2;
    let b4_3 = b0_2 && b4_2;
    lemma_mx_mn_thr(a0_2, a4_2, t);
    assert((a0_3 >= t) == b0_3 && (a4_3 >= t) == b4_3);
    let a3_3 = mx(a3_2, a7_2);
    let a7_3 = mn(a3_2, a7_2);
    let b3_3 = b3_2 || b7_2;
    let b7_3 = b3_2 && b7_2;
    lemma_mx_mn_thr(a3_2, a7_2, t);
    assert((a3_3 >= t) == b3_3 && (a7_3 >= t) == b7_3);
    let a4_4 = mx(a4_3, a8_2);
    let a8_3 = mn(a4_3, a8_2);
    let b4_4 = b4_3 || b8_2;
    let b8_3 = b4_3 && b8_2;
    lemma_mx_mn_thr(a4_3, a8_2, t);
    assert((a4_4 >= t) == b4_4 && (a8_3 >= t) == b8_3);
    let a0_4 = mx(a0_3, a4_4);
    let a4_5 = mn(a0_3, a4_4);
    let b0_4 = b0_3 || b4_4;
    let b4_5 = b0_3 && b4_4;
    lemma_mx_mn_thr(a0_3, a4_4, t);
    assert((a0_4 >= t) == b0_4 && (a4_5 >= t) == b4_5);
    let a1_6 = mx(a1_5, a4_5);
    let a4_6 = mn(a1_5, a4_5);
    let b1_6 = b1_5 || b4_5;
    let b4_6 = b1_5 && b4_5;
    lemma_mx_mn_thr(a1_5, a4_5, t);
    assert((a1_6 >= t) == b1_6 && (a4_6 >= t) == b4_6);
    let a7_4 = mx(a7_3, a10_4);
    let a10_5 = mn(a7_3, a10_4);
    let b7_4 = b7_3 || b10_4;
    let b10_5 = b7_3 && b10_4;
    lemma_mx_mn_thr(a7_3, a10_4, t);
    assert((a7_4 >= t) == b7_4 && (a10_5 >= t) == b10_5);
    let a3_4 = mx(a3_3, a8_3);
    let a8_4 = mn(a3_3, a8_3);
    let b3_4 = b3_3 || b8_3;
    let b8_4 = b3_3 && b8_3;
    lemma_mx_mn_thr(a3_3, a8_3, t);
    assert((a3_4 >= t) == b3_4 && (a8_4 >= t) == b8_4);
    let a2_5 = mx(a2_4, a3_4);
    let a3_5 = mn(a2_4, a3_4);
    let b2_5 = b2_4 || b3_4;
    let b3_5 = b2_4 && b3_4;
    lemma_mx_mn_thr(a2_4, a3_4, t);
    assert((a2_5 >= t) == b2_5 && (a3_5 >= t) == b3_5);
    let a8_5 = mx(a8_4, a9_3);
    let a9_4 = mn(a8_4, a9_3);
    let b8_5 = b8_4 || b9_3;
    let b9_4 = b8_4 && b9_3;
    lemma_mx_mn_thr(a8_4, a9_3, t);
    assert((a8_5 >= t) == b8_5 && (a9_4 >= t) == b9_4);
    let a2_6 = mx(a2_5, a4_6);
    let a4_7 = mn(a2_5, a4_6);
    let b2_6 = b2_5 || b4_6;
    let b4_7 = b2_5 && b4_6;
    lemma_mx_mn_thr(a2_5, a4_6, t);
    assert((a2_6 >= t) == b2_6 && (a4_7 >= t) == b4_7);
    let a7_5 = mx(a7_4, a9_4);
    let a9_5 = mn(a7_4, a9_4);
    let b7_5 = b7_4 || b9_4;
    let b9_5 = b7_4 && b9_4;
    lemma_mx_mn_thr(a7_4, a9_4, t);
    assert((a7_5 >= t) == b7_5 && (a9_5 >= t) == b9_5);
    let a3_6 = mx(a3_5, a5_6);
    let a5_7 = mn(a3_5, a5_6);
    let b3_6 = b3_5 || b5_6;
    let b5_7 = b3_5 && b5_6;
    lemma_mx_mn_thr(a3_5, a5_6, t);
    assert((a3_6 >= t) == b3_6 && (a5_7 >= t) == b5_7);
    let a6_7 = mx(a6_6, a8_5);
    let a8_6 = mn(a6_6, a8_5);
    let b6_7 = b6_6 || b8_5;
    let b8_6 = b6_6 && b8_5;
    lemma_mx_mn_thr(a6_6, a8_5, t);
    assert((a6_7 >= t) == b6_7 && (a8_6 >= t) == b8_6);
    let a3_7 = mx(a3_6, a4_7);
    let a4_8 = mn(a3_6, a4_7);
    let b3_7 = b3_6 || b4_7;
    let b4_8 = b3_6 && b4_7;
    lemma_mx_mn_thr(a3_6, a4_7, t);
    assert((a3_7 >= t) == b3_7 && (a4_8 >= t) == b4_8);
    let a5_8 = mx(a5_7, a6_7);
    let a6_8 = mn(a5_7, a6_7);
    let b5_8 = b5_7 || b6_7;
    let b6_8 = b5_7 && b6_7;
    lemma_mx_mn_thr(a5_7, a6_7, t);
    assert((a5_8 >= t) == b5_8 && (a6_8 >= t) == b6_8);
    let a7_6 = mx(a7_5, a8_6);
    let a8_7 = mn(a7_5, a8_6);
    let b7_6 = b7_5 || b8_6;
    let b8_7 = b7_5 && b8_6;
    lemma_mx_mn_thr(a7_5, a8_6, t);
    assert((a7_6 >= t) == b7_6 && (a8_7 >= t) == b8_7);
    assert(thr(net11_w(x), t) =~= net11_b(thr(x, t)));
}

#[verifier::rlimit(50)]
#[verifier::spinoff_prover]
proof fn lemma_net11_bool(x: Seq<bool>)
    requires
        x.len() >= 11,
    ensures
        sorted_bool(net11_b(x), 11),
{
}

/// The network for 11 entries sorts every weight sequence.
pub proof fn lemma_net11_sorts(x: Seq<int>)
    requires
        x.len() >= 11,
    ensures
        sorted_desc(net11_w(x), 11),
{
    let out = net11_w(x);
    assert forall|i: int, j: int| 0 <= i < j < 11 implies out[i] >= out[j] by {
        if out[i] < out[j] {
            let t = out[j];
            lemma_net11_thr(x, t);
            lemma_net11_bool(thr(x, t));
            assert(thr(out, t)[j]);
            assert(!thr(out, t)[i]);
        }
    }
}

/// Applying the network for 11 entries to a move list keeps the multiset
/// of moves and leaves the tail alone.
#[verifier::rlimit(50)]
#[verifier::spinoff_prover]
proof fn lemma_net11_perm(x0: Seq<MoveType>)
    requires
        x0.len() == 14,
    ensures
        net11_m(x0).len() == 14,
        net11_m(x0).to_multiset() == x0.to_multiset(),
        forall|k: int| 11 <= k < 14 ==> #[trigger] net11_m(x0)[k] == x0[k],
{
    let x1 = cs_moves(x0, 0, 1);
    lemma_cs_multiset(x0, 0, 1);
    let x2 = cs_moves(x1, 2, 3);
    lemma_cs_multiset(x1, 2, 3);
    let x3 = cs_moves(x2, 4, 5);
    lemma_cs_multiset(x2, 4, 5);
    let x4 = cs_moves(x3, 6, 7);
    lemma_cs_multiset(x3, 6, 7);
    let x5 = cs_moves(x4, 8, 9);
    lemma_cs_multiset(x4, 8, 9);
    let x6 = cs_moves(x5, 1, 3);
    lemma_cs_multiset(x5, 1, 3);
    let x7 = cs_moves(x6, 5, 7);
    lemma_cs_multiset(x6, 5, 7);
    let x8 = cs_moves(x7, 0, 2);
    lemma_cs_multiset(x7, 0, 2);
    let x9 = cs_moves(x8, 4, 6);
    lemma_cs_multiset(x8, 4, 6);
    let x10 = cs_moves(x9, 8, 10);
    lemma_cs_multiset(x9, 8, 10);
    let x11 = cs_moves(x10, 1, 2);
    lemma_cs_multiset(x10, 1, 2);
    let x12 = cs_moves(x11, 5, 6);
    lemma_cs_multiset(x11, 5, 6);
    let x13 = cs_moves(x12, 9, 10);
    lemma_cs_multiset(x12, 9, 10);
    let x14 = cs_moves(x13, 1, 5);
    lemma_cs_multiset(x13, 1, 5);
    let x15 = cs_moves(x14, 6, 10);
    lemma_cs_multiset(x14, 6, 10);
    let x16 = cs_moves(x15, 5, 9);
    lemma_cs_multiset(x15, 5, 9);
    let x17 = cs_moves(x16, 2, 6);
    lemma_cs_multiset(x16, 2, 6);
    let x18 = cs_moves(x17, 1, 5);
    lemma_cs_multiset(x17, 1, 5);
    let x19 = cs_moves(x18, 6, 10);
    lemma_cs_multiset(x18, 6, 10);
    let x20 = cs_moves(x19, 0, 4);
    lemma_cs_multiset(x19, 0, 4);
    let x21 = cs_moves(x20, 3, 7);
    lemma_cs_multiset(x20, 3, 7);
    let x22 = cs_moves(x21, 4, 8);
    lemma_cs_multiset(x21, 4, 8);
    let x23 = cs_moves(x22, 0, 4);
    lemma_cs_multiset(x22, 0, 4);
    let x24 = cs_moves(x23, 1, 4);
    lemma_cs_multiset(x23, 1, 4);
    let x25 = cs_moves(x24, 7, 10);
    lemma_cs_multiset(x24, 7, 10);
    let x26 = cs_moves(x25, 3, 8);
    lemma_cs_multiset(x25, 3, 8);
    let x27 = cs_moves(x26, 2, 3);
    lemma_cs_multiset(x26, 2, 3);
    let x28 = cs_moves(x27, 8, 9);
    lemma_cs_multiset(x27, 8, 9);
    let x29 = cs_moves(x28, 2, 4);
    lemma_cs_multiset(x28, 2, 4);
    let x30 = cs_moves(x29, 7, 9);
    lemma_cs_multiset(x29, 7, 9);
    let x31 = cs_moves(x30, 3, 5);
    lemma_cs_multiset(x30, 3, 5);
    let x32 = cs_moves(x31, 6, 8);
    lemma_cs_multiset(x31, 6, 8);
    let x33 = cs_moves(x32, 3, 4);
    lemma_cs_multiset(x32, 3, 4);
    let x34 = cs_moves(x33, 5, 6);
    lemma_cs_multiset(x33, 5, 6);
    let x35 = cs_moves(x34, 7, 8);
    lemma_cs_multiset(x34, 7, 8);
}

/// Applying the network for 11 entries to a move list applies it to the
/// weights.
#[verifier::rlimit(50)]
#[verifier::spinoff_prover]
proof fn lemma_net11_link(x0: Seq<MoveType>)
    requires
        x0.len() == 14,
    ensures
        forall|k: int| 0 <= k < 11 ==> #[trigger] weights(net11_m(x0))[k] == net11_w(weights(x0))[k],
{
    let w0 = weights(x0);
    let a0_0 = w0[0];
    let a1_0 = w0[1];
    let a2_0 = w0[2];
    let a3_0 = w0[3];
    let a4_0 = w0[4];
    let a5_0 = w0[5];
    let a6_0 = w0[6];
    let a7_0 = w0[7];
    let a8_0 = w0[8];
    let a9_0 = w0[9];
    let a10_0 = w0[10];
    let x1 = cs_moves(x0, 0, 1);
    lemma_cs_step(x0, 0, 1);
    let w1 = w0.update(0, mx(w0[0], w0[1])).update(1, mn(w0[0], w0[1]));
    let a0_1 = mx(a0_0, a1_0);
    let a1_1 = mn(a0_0, a1_0);
    assert(w1[0] == a0_1 && w1[1] == a1_1);
    let x2 = cs_moves(x1, 2, 3);
    lemma_cs_step(x1, 2, 3);
    let w2 = w1.update(2, mx(w1[2], w1[3])).update(3, mn(w1[2], w1[3]));
    let a2_1 = mx(a2_0, a3_0);
    let a3_1 = mn(a2_0, a3_0);
    assert(w2[2] == a2_1 && w2[3] == a3_1);
    let x3 = cs_moves(x2, 4, 5);
    lemma_cs_step(x2, 4, 5);
    let w3 = w2.update(4, mx(w2[4], w2[5])).update(5, mn(w2[4], w2[5]));
    let a4_1 = mx(a4_0, a5_0);
    let a5_1 = mn(a4_0, a5_0);
    assert(w3[4] == a4_1 && w3[5] == a5_1);
    let x4 = cs_moves(x3, 6, 7);
    lemma_cs_step(x3, 6, 7);
    let w4 = w3.update(6, mx(w3[6], w3[7])).update(7, mn(w3[6], w3[7]));
    let a6_1 = mx(a6_0, a7_0);
    let a7_1 = mn(a6_0, a7_0);
    assert(w4[6] == a6_1 && w4[7] == a7_1);
    let x5 = cs_moves(x4, 8, 9);
    lemma_cs_step(x4, 8, 9);
    let w5 = w4.update(8, mx(w4[8], w4[9])).update(9, mn(w4[8], w4[9]));
    let a8_1 = mx(a8_0, a9_0);
    let a9_1 = mn(a8_0, a9_0);
    assert(w5[8] == a8_1 && w5[9] == a9_1);
    let x6 = cs_moves(x5, 1, 3);
    lemma_cs_step(x5, 1, 3);
    let w6 = w5.update(1, mx(w5[1], w5[3])).update(3, mn(w5[1], w5[3]));
    let a1_2 = mx(a1_1, a3_1);
    let a3_2 = mn(a1_1, a3_1);
    assert(w6[1] == a1_2 && w6[3] == a3_2);
    let x7 = cs_moves(x6, 5, 7);
    lemma_cs_step(x6, 5, 7);
    let w7 = w6.update(5, mx(w6[5], w6[7])).update(7, mn(w6[5], w6[7]));
    let a5_2 = mx(a5_1, a7_1);
    let a7_2 = mn(a5_1, a7_1);
    assert(w7[5] == a5_2 && w7[7] == a7_2);
    let x8 = cs_moves(x7, 0, 2);
    lemma_cs_step(x7, 0, 2);
    let w8 = w7.update(0, mx(w7[0], w7[2])).update(2, mn(w7[0], w7[2]));
    let a0_2 = mx(a0_1, a2_1);
    let a2_2 = mn(a0_1, a2_1);
    assert(w8[0] == a0_2 && w8[2] == a2_2);
    let x9 = cs_moves(x8, 4, 6);
    lemma_cs_step(x8, 4, 6);
    let w9 = w8.update(4, mx(w8[4], w8[6])).update(6, mn(w8[4], w8[6]));
    let a4_2 = mx(a4_1, a6_1);
    let a6_2 = mn(a4_1, a6_1);
    assert(w9[4] == a4_2 && w9[6] == a6_2);
    let x10 = cs_moves(x9, 8, 10);
    lemma_cs_step(x9, 8, 10);
    let w10 = w9.update(8, mx(w9[8], w9[10])).update(10, mn(w9[8], w9[10]));
    let a8_2 = mx(a8_1, a10_0);
    let a10_1 = mn(a8_1, a10_0);
    assert(w10[8] == a8_2 && w10[10] == a10_1);
    let x11 = cs_moves(x10, 1, 2);
    lemma_cs_step(x10, 1, 2);
    let w11 = w10.update(1, mx(w10[1], w10[2])).update(2, mn(w10[1], w10[2]));
    let a1_3 = mx(a1_2, a2_2);
    let a2_3 = mn(a1_2, a2_2);
    assert(w11[1] == a1_3 && w11[2] == a2_3);
    let x12 = cs_moves(x11, 5, 6);
    lemma_cs_step(x11, 5, 6);
    let w12 = w11.update(5, mx(w11[5], w11[6])).update(6, mn(w11[5], w11[6]));
    let a5_3 = mx(a5_2, a6_2);
    let a6_3 = mn(a5_2, a6_2);
    assert(w12[5] == a5_3 && w12[6] == a6_3);
    let x13 = cs_moves(x12, 9, 10);
    lemma_cs_step(x12, 9, 10);
    let w13 = w12.update(9, mx(w12[9], w12[10])).update(10, mn(w12[9], w12[10]));
    let a9_2 = mx(a9_1, a10_1);
    let a10_2 = mn(a9_1, a10_1);
    assert(w13[9] == a9_2 && w13[10] == a10_2);
    let x14 = cs_moves(x13, 1, 5);
    lemma_cs_step(x13, 1, 5);
    let w14 = w13.update(1, mx(w13[1], w13[5])).update(5, mn(w13[1], w13[5]));
    let a1_4 = mx(a1_3, a5_3);
    let a5_4 = mn(a1_3, a5_3);
    assert(w14[1] == a1_4 && w14[5] == a5_4);
    let x15 = cs_moves(x14, 6, 10);
    lemma_cs_step(x14, 6, 10);
    let w15 = w14.update(6, mx(w14[6], w14[10])).update(10, mn(w14[6], w14[10]));
    let a6_4 = mx(a6_3, a10_2);
    let a10_3 = mn(a6_3, a10_2);
    assert(w15[6] == a6_4 && w15[10] == a10_3);
    let x16 = cs_moves(x15, 5, 9);
    lemma_cs_step(x15, 5, 9);
    let w16 = w15.update(5, mx(w15[5], w15[9])).update(9, mn(w15[5], w15[9]));
    let a5_5 = mx(a5_4, a9_2);
    let a9_3 = mn(a5_4, a9_2);
    assert(w16[5] == a5_5 && w16[9] == a9_3);
    let x17 = cs_moves(x16, 2, 6);
    lemma_cs_step(x16, 2, 6);
    let w17 = w16.update(2, mx(w16[2], w16[6])).update(6, mn(w16[2], w16[6]));
    let a2_4 = mx(a2_3, a6_4);
    let a6_5 = mn(a2_3, a6_4);
    assert(w17[2] == a2_4 && w17[6] == a6_5);
    let x18 = cs_moves(x17, 1, 5);
    lemma_cs_step(x17, 1, 5);
    let w18 = w17.update(1, mx(w17[1], w17[5])).update(5, mn(w17[1], w17[5]));
    let a1_5 = mx(a1_4, a5_5);
    let a5_6 = mn(a1_4, a5_5);
    assert(w18[1] == a1_5 && w18[5] == a5_6);
    let x19 = cs_moves(x18, 6, 10);
    lemma_cs_step(x18, 6, 10);
    let w19 = w18.update(6, mx(w18[6], w18[10])).update(10, mn(w18[6], w18[10]));
    let a6_6 = mx(a6_5, a10_3);
    let a10_4 = mn(a6_5, a10_3);
    assert(w19[6] == a6_6 && w19[10] == a10_4);
    let x20 = cs_moves(x19, 0, 4);
    lemma_cs_step(x19, 0, 4);
    let w20 = w19.update(0, mx(w19[0], w19[4])).update(4, mn(w19[0], w19[4]));
    let a0_3 = mx(a0_2, a4_2);
    let a4_3 = mn(a0_2, a4_2);
    assert(w20[0] == a0_3 && w20[4] == a4_3);
    let x21 = cs_moves(x20, 3, 7);
    lemma_cs_step(x20, 3, 7);
    let w21 = w20.update(3, mx(w20[3], w20[7])).update(7, mn(w20[3], w20[7]));
    let a3_3 = mx(a3_2, a7_2);
    let a7_3 = mn(a3_2, a7_2);
    assert(w21[3] == a3_3 && w21[7] == a7_3);
    let x22 = cs_moves(x21, 4, 8);
    lemma_cs_step(x21, 4, 8);
    let w22 = w21.update(4, mx(w21[4], w21[8])).update(8, mn(w21[4], w21[8]));
    let a4_4 = mx(a4_3, a8_2);
    let a8_3 = mn(a4_3, a8_2);
    assert(w22[4] == a4_4 && w22[8] == a8_3);
    let x23 = cs_moves(x22, 0, 4);
    lemma_cs_step(x22, 0, 4);
    let w23 = w22.update(0, mx(w22[0], w22[4])).update(4, mn(w22[0], w22[4]));
    let a0_4 = mx(a0_3, a4_4);
    let a4_5 = mn(a0_3, a4_4);
    assert(w23[0] == a0_4 && w23[4] == a4_5);
    let x24 = cs_moves(x23, 1, 4);
    lemma_cs_step(x23, 1, 4);
    let w24 = w23.update(1, mx(w23[1], w23[4])).update(4, mn(w23[1], w23[4]));
    let a1_6 = mx(a1_5, a4_5);
    let a4_6 = mn(a1_5, a4_5);
    assert(w24[1] == a1_6 && w24[4] == a4_6);
    let x25 = cs_moves(x24, 7, 10);
    lemma_cs_step(x24, 7, 10);
    let w25 = w24.update(7, mx(w24[7], w24[10])).update(10, mn(w24[7], w24[10]));
    let a7_4 = mx(a7_3, a10_4);
    let a10_5 = mn(a7_3, a10_4);
    assert(w25[7] == a7_4 && w25[10] == a10_5);
    let x26 = cs_moves(x25, 3, 8);
    lemma_cs_step(x25, 3, 8);
    let w26 = w25.update(3, mx(w25[3], w25[8])).update(8, mn(w25[3], w25[8]));
    let a3_4 = mx(a3_3, a8_3);
    let a8_4 = mn(a3_3, a8_3);
    assert(w26[3] == a3_4 && w26[8] == a8_4);
    let x27 = cs_moves(x26, 2, 3);
    lemma_cs_step(x26, 2, 3);
    let w27 = w26.update(2, mx(w26[2], w26[3])).update(3, mn(w26[2], w26[3]));
    let a2_5 = mx(a2_4, a3_4);
    let a3_5 = mn(a2_4, a3_4);
    assert(w27[2] == a2_5 && w27[3] == a3_5);
    let x28 = cs_moves(x27, 8, 9);
    lemma_cs_step(x27, 8, 9);
    let w28 = w27.update(8, mx(w27[8], w27[9])).update(9, mn(w27[8], w27[9]));
    let a8_5 = mx(a8_4, a9_3);
    let a9_4 = mn(a8_4, a9_3);
    assert(w28[8] == a8_5 && w28[9] == a9_4);
    let x29 = cs_moves(x28, 2, 4);
    lemma_cs_step(x28, 2, 4);
    let w29 = w28.update(2, mx(w28[2], w28[4])).update(4, mn(w28[2], w28[4]));
    let a2_6 = mx(a2_5, a4_6);
    let a4_7 = mn(a2_5, a4_6);
    assert(w29[2] == a2_6 && w29[4] == a4_7);
    let x30 = cs_moves(x29, 7, 9);
    lemma_cs_step(x29, 7, 9);
    let w30 = w29.update(7, mx(w29[7], w29[9])).update(9, mn(w29[7], w29[9]));
    let a7_5 = mx(a7_4, a9_4);
    let a9_5 = mn(a7_4, a9_4);
    assert(w30[7] == a7_5 && w30[9] == a9_5);
    let x31 = cs_moves(x30, 3, 5);
    lemma_cs_step(x30, 3, 5);
    let w31 = w30.update(3, mx(w30[3], w30[5])).update(5, mn(w30[3], w30[5]));
    let a3_6 = mx(a3_5, a5_6);
    let a5_7 = mn(a3_5, a5_6);
    assert(w31[3] == a3_6 && w31[5] == a5_7);
    let x32 = cs_moves(x31, 6, 8);
    lemma_cs_step(x31, 6, 8);
    let w32 = w31.update(6, mx(w31[6], w31[8])).update(8, mn(w31[6], w31[8]));
    let a6_7 = mx(a6_6, a8_5);
    let a8_6 = mn(a6_6, a8_5);
    assert(w32[6] == a6_7 && w32[8] == a8_6);
    let x33 = cs_moves(x32, 3, 4);
    lemma_cs_step(x32, 3, 4);
    let w33 = w32.update(3, mx(w32[3], w32[4])).update(4, mn(w32[3], w32[4]));
    let a3_7 = mx(a3_6, a4_7);
    let a4_8 = mn(a3_6, a4_7);
    assert(w33[3] == a3_7 && w33[4] == a4_8);
    let x34 = cs_moves(x33, 5, 6);
    lemma_cs_step(x33, 5, 6);
    let w34 = w33.update(5, mx(w33[5], w33[6])).update(6, mn(w33[5], w33[6]));
    let a5_8 = mx(a5_7, a6_7);
    let a6_8 = mn(a5_7, a6_7);
    assert(w34[5] == a5_8 && w34[6] == a6_8);
    let x35 = cs_moves(x34, 7, 8);
    lemma_cs_step(x34, 7, 8);
    let w35 = w34.update(7, mx(w34[7], w34[8])).update(8, mn(w34[7], w34[8]));
    let a7_6 = mx(a7_5, a8_6);
    let a8_7 = mn(a7_5, a8_6);
    assert(w35[7] == a7_6 && w35[8] == a8_7);
    assert(weights(x35) == w35);
    let w = net11_w(weights(x0));
    assert(w == seq![a0_4, a1_6, a2_6, a3_7, a4_8, a5_8, a6_8, a7_6, a8_7, a9_5, a10_5]);
    assert(w35[0] == w[0]);
    assert(w35[1] == w[1]);
    assert(w35[2] == w[2]);
    assert(w35[3] == w[3]);
    assert(w35[4] == w[4]);
    assert(w35[5] == w[5]);
    assert(w35[6] == w[6]);
    assert(w35[7] == w[7]);
    assert(w35[8] == w[8]);
    assert(w35[9] == w[9]);
    assert(w35[10] == w[10]);
}

/// The network for 12 entries, applied to a move list.
pub open spec fn net12_m(x0: Seq<MoveType>) -> Seq<MoveType> {
    let x1 = cs_moves(x0, 0, 1);
    let x2 = cs_moves(x1, 2, 3);
    let x3 = cs_moves(x2, 4, 5);
    let x4 = cs_moves(x3, 6, 7);
    let x5 = cs_moves(x4, 8, 9);
    let x6 = cs_moves(x5, 10, 11);
    let x7 = cs_moves(x6, 1, 3);
    let x8 = cs_moves(x7, 5, 7);
    let x9 = cs_moves(x8, 9, 11);
    let x10 = cs_moves(x9, 0, 2);
    let x11 = cs_moves(x10, 4, 6);
    let x12 = cs_moves(x11, 8, 10);
    let x13 = cs_moves(x12, 1, 2);
    let x14 = cs_moves(x13, 5, 6);
    let x15 = cs_moves(x14, 9, 10);
    let x16 = cs_moves(x15, 1, 5);
    let x17 = cs_moves(x16, 6, 10);
    let x18 = cs_moves(x17, 5, 9);
    let x19 = cs_moves(x18, 2, 6);
    let x20 = cs_moves(x19, 1, 5);
    let x21 = cs_moves(x20, 6, 10);
    let x22 = cs_moves(x21, 0, 4);
    let x23 = cs_moves(x22, 7, 11);
    let x24 = cs_moves(x23, 3, 7);
    let x25 = cs_moves(x24, 4, 8);
    let x26 = cs_moves(x25, 0, 4);
    let x27 = cs_moves(x26, 7, 11);
    let x28 = cs_moves(x27, 1, 4);
    let x29 = cs_moves(x28, 7, 10);
    let x30 = cs_moves(x29, 3, 8);
    let x31 = cs_moves(x30, 2, 3);
    let x32 = cs_moves(x31, 8, 9);
    let x33 = cs_moves(x32, 2, 4);
    let x34 = cs_moves(x33, 7, 9);
    let x35 = cs_moves(x34, 3, 5);
    let x36 = cs_moves(x35, 6, 8);
    let x37 = cs_moves(x36, 3, 4);
    let x38 = cs_moves(x37, 5, 6);
    let x39 = cs_moves(x38, 7, 8);
    x39
}

/// The network for 12 entries, applied to the first 12 weights of `x`.
pub open spec fn net12_w(x: Seq<int>) -> Seq<int> {
    let a0_0 = x[0];
    let a1_0 = x[1];
    let a2_0 = x[2];
    let a3_0 = x[3];
    let a4_0 = x[4];
    let a5_0 = x[5];
    let a6_0 = x[6];
    let a7_0 = x[7];
    let a8_0 = x[8];
    let a9_0 = x[9];
    let a10_0 = x[10];
    let a11_0 = x[11];
    let a0_1 = mx(a0_0, a1_0);
    let a1_1 = mn(a0_0, a1_0);
    let a2_1 = mx(a2_0, a3_0);
    let a3_1 = mn(a2_0, a3_0);
    let a4_1 = mx(a4_0, a5_0);
    let a5_1 = mn(a4_0, a5_0);
    let a6_1 = mx(a6_0, a7_0);
    let a7_1 = mn(a6_0, a7_0);
    let a8_1 = mx(a8_0, a9_0);
    let a9_1 = mn(a8_0, a9_0);
    let a10_1 = mx(a10_0, a11_0);
    let a11_1 = mn(a10_0, a11_0);
    let a1_2 = mx(a1_1, a3_1);
    let a3_2 = mn(a1_1, a3_1);
    let a5_2 = mx(a5_1, a7_1);
    let a7_2 = mn(a5_1, a7_1);
    let a9_2 = mx(a9_1, a11_1);
    let a11_2 = mn(a9_1, a11_1);
    let a0_2 = mx(a0_1, a2_1);
    let a2_2 = mn(a0_1, a2_1);
    let a4_2 = mx(a4_1, a6_1);
    let a6_2 = mn(a4_1, a6_1);
    let a8_2 = mx(a8_1, a10_1);
    let a10_2 = mn(a8_1, a10_1);
    let a1_3 = mx(a1_2, a2_2);
    let a2_3 = mn(a1_2, a2_2);
    let a5_3 = mx(a5_2, a6_2);
    let a6_3 = mn(a5_2, a6_2);
    let a9_3 = mx(a9_2, a10_2);
    let a10_3 = mn(a9_2, a10_2);
    let a1_4 = mx(a1_3, a5_3);
    let a5_4 = mn(a1_3, a5_3);
    let a6_4 = mx(a6_3, a10_3);
    let a10_4 = mn(a6_3, a10_3);
    let a5_5 = mx(a5_4, a9_3);
    let a9_4 = mn(a5_4, a9_3);
    let a2_4 = mx(a2_3, a6_4);
    let a6_5 = mn(a2_3, a6_4);
    let a1_5 = mx(a1_4, a5_5);
    let a5_6 = mn(a1_4, a5_5);
    let a6_6 = mx(a6_5, a10_4);
    let a10_5 = mn(a6_5, a10_4);
    let a0_3 = mx(a0_2, a4_2);
    let a4_3 = mn(a0_2, a4_2);
    let a7_3 = mx(a7_2, a11_2);
    let a11_3 = mn(a7_2, a11_2);
    let a3_3 = mx(a3_2, a7_3);
    let a7_4 = mn(a3_2, a7_3);
    let a4_4 = mx(a4_3, a8_2);
    let a8_3 = mn(a4_3, a8_2);
    let a0_4 = mx(a0_3, a4_4);
    let a4_5 = mn(a0_3, a4_4);
    let a7_5 = mx(a7_4, a11_3);
    let a11_4 = mn(a7_4, a11_3);
    let a1_6 = mx(a1_5, a4_5);
    let a4_6 = mn(a1_5, a4_5);
    let a7_6 = mx(a7_5, a10_5);
    let a10_6 = mn(a7_5, a10_5);
    let a3_4 = mx(a3_3, a8_3);
    let a8_4 = mn(a3_3, a8_3);
    let a2_5 = mx(a2_4, a3_4);
    let a3_5 = mn(a2_4, a3_4);
    let a8_5 = mx(a8_4, a9_4);
    let a9_5 = mn(a8_4, a9_4);
    let a2_6 = mx(a2_5, a4_6);
    let a4_7 = mn(a2_5, a4_6);
    let a7_7 = mx(a7_6, a9_5);
    let a9_6 = mn(a7_6, a9_5);
    let a3_6 = mx(a3_5, a5_6);
    let a5_7 = mn(a3_5, a5_6);
    let a6_7 = mx(a6_6, a8_5);
    let a8_6 = mn(a6_6, a8_5);
    let a3_7 = mx(a3_6, a4_7);
    let a4_8 = mn(a3_6, a4_7);
    let a5_8 = mx(a5_7, a6_7);
    let a6_8 = mn(a5_7, a6_7);
    let a7_8 = mx(a7_7, a8_6);
    let a8_7 = mn(a7_7, a8_6);
    seq![a0_4, a1_6, a2_6, a3_7, a4_8, a5_8, a6_8, a7_8, a8_7, a9_6, a10_6, a11_4]
}

/// The network for 12 entries, applied to the first 12 booleans of `x`.
pub open spec fn net12_b(x: Seq<bool>) -> Seq<bool> {
    let a0_0 = x[0];
    let a1_0 = x[1];
    let a2_0 = x[2];
    let a3_0 = x[3];
    let a4_0 = x[4];
    let a5_0 = x[5];
    let a6_0 = x[6];
    let a7_0 = x[7];
    let a8_0 = x[8];
    let a9_0 = x[9];
    let a10_0 = x[10];
    let a11_0 = x[11];
    let a0_1 = a0_0 || a1_0;
    let a1_1 = a0_0 && a1_0;
    let a2_1 = a2_0 || a3_0;
    let a3_1 = a2_0 && a3_0;
    let a4_1 = a4_0 || a5_0;
    let a5_1 = a4_0 && a5_0;
    let a6_1 = a6_0 || a7_0;
    let a7_1 = a6_0 && a7_0;
    let a8_1 = a8_0 || a9_0;
    let a9_1 = a8_0 && a9_0;
    let a10_1 = a10_0 || a11_0;
    let a11_1 = a10_0 && a11_0;
    let a1_2 = a1_1 || a3_1;
    let a3_2 = a1_1 && a3_1;
    let a5_2 = a5_1 || a7_1;
    let a7_2 = a5_1 && a7_1;
    let a9_2 = a9_1 || a11_1;
    let a11_2 = a9_1 && a11_1;
    let a0_2 = a0_1 || a2_1;
    let a2_2 = a0_1 && a2_1;
    let a4_2 = a4_1 || a6_1;
    let a6_2 = a4_1 && a6_1;
    let a8_2 = a8_1 || a10_1;
    let a10_2 = a8_1 && a10_1;
    let a1_3 = a1_2 || a2_2;
    let a2_3 = a1_2 && a2_2;
    let a5_3 = a5_2 || a6_2;
    let a6_3 = a5_2 && a6_2;
    let a9_3 = a9_2 || a10_2;
    let a10_3 = a9_2 && a10_2;
    let a1_4 = a1_3 || a5_3;
    let a5_4 = a1_3 && a5_3;
    let a6_4 = a6_3 || a10_3;
    let a10_4 = a6_3 && a10_3;
    let a5_5 = a5_4 || a9_3;
    let a9_4 = a5_4 && a9_3;
    let a2_4 = a2_3 || a6_4;
    let a6_5 = a2_3 && a6_4;
    let a1_5 = a1_4 || a5_5;
    let a5_6 = a1_4 && a5_5;
    let a6_6 = a6_5 || a10_4;
    let a10_5 = a6_5 && a10_4;
    let a0_3 = a0_2 || a4_2;
    let a4_3 = a0_2 && a4_2;
    let a7_3 = a7_2 || a11_2;
    let a11_3 = a7_2 && a11_2;
    let a3_3 = a3_2 || a7_3;
    let a7_4 = a3_2 && a7_3;
    let a4_4 = a4_3 || a8_2;
    let a8_3 = a4_3 && a8_2;
    let a0_4 = a0_3 || a4_4;
    let a4_5 = a0_3 && a4_4;
    let a7_5 = a7_4 || a11_3;
    let a11_4 = a7_4 && a11_3;
    let a1_6 = a1_5 || a4_5;
    let a4_6 = a1_5 && a4_5;
    let a7_6 = a7_5 || a10_5;
    let a10_6 = a7_5 && a10_5;
    let a3_4 = a3_3 || a8_3;
    let a8_4 = a3_3 && a8_3;
    let a2_5 = a2_4 || a3_4;
    let a3_5 = a2_4 && a3_4;
    let a8_5 = a8_4 || a9_4;
    let a9_5 = a8_4 && a9_4;
    let a2_6 = a2_5 || a4_6;
    let a4_7 = a2_5 && a4_6;
    let a7_7 = a7_6 || a9_5;
    let a9_6 = a7_6 && a9_5;
    let a3_6 = a3_5 || a5_6;
    let a5_7 = a3_5 && a5_6;
    let a6_7 = a6_6 || a8_5;
    let a8_6 = a6_6 && a8_5;
    let a3_7 = a3_6 || a4_7;
    let a4_8 = a3_6 && a4_7;
    let a5_8 = a5_7 || a6_7;
    let a6_8 = a5_7 && a6_7;
    let a7_8 = a7_7 || a8_6;
    let a8_7 = a7_7 && a8_6;
    seq![a0_4, a1_6, a2_6, a3_7, a4_8, a5_8, a6_8, a7_8, a8_7, a9_6, a10_6, a11_4]
}

#[verifier::rlimit(50)]
#[verifier::spinoff_prover]
proof fn lemma_net12_thr(x: Seq<int>, t: int)
    requires
        x.len() >= 12,
    ensures
        thr(net12_w(x), t) == net12_b(thr(x, t)),
{
    let a0_0 = x[0];
    let b0_0 = thr(x, t)[0];
    assert((a0_0 >= t) == b0_0);
    let a1_0 = x[1];
    let b1_0 = thr(x, t)[1];
    assert((a1_0 >= t) == b1_0);
    let a2_0 = x[2];
    let b2_0 = thr(x, t)[2];
    assert((a2_0 >= t) == b2_0);
    let a3_0 = x[3];
    let b3_0 = thr(x, t)[3];
    assert((a3_0 >= t) == b3_0);
    let a4_0 = x[4];
    let b4_0 = thr(x, t)[4];
    assert((a4_0 >= t) == b4_0);
    let a5_0 = x[5];
    let b5_0 = thr(x, t)[5];
    assert((a5_0 >= t) == b5_0);
    let a6_0 = x[6];
    let b6_0 = thr(x, t)[6];
    assert((a6_0 >= t) == b6_0);
    let a7_0 = x[7];
    let b7_0 = thr(x, t)[7];
    assert((a7_0 >= t) == b7_0);
    let a8_0 = x[8];
    let b8_0 = thr(x, t)[8];
    assert((a8_0 >= t) == b8_0);
    let a9_0 = x[9];
    let b9_0 = thr(x, t)[9];
    assert((a9_0 >= t) == b9_0);
    let a10_0 = x[10];
    let b10_0 = thr(x, t)[10];
    assert((a10_0 >= t) == b10_0);
    let a11_0 = x[11];
    let b11_0 = thr(x, t)[11];
    assert((a11_0 >= t) == b11_0);
    let a0_1 = mx(a0_0, a1_0);
    let a1_1 = mn(a0_0, a1_0);
    let b0_1 = b0_0 || b1_0;
    let b1_1 = b0_0 && b1_0;
    lemma_mx_mn_thr(a0_0, a1_0, t);
    assert((a0_1 >= t) == b0_1 && (a1_1 >= t) == b1_1);
    let a2_1 = mx(a2_0, a3_0);
    let a3_1 = mn(a2_0, a3_0);
    let b2_1 = b2_0 || b3_0;
    let b3_1 = b2_0 && b3_0;
    lemma_mx_mn_thr(a2_0, a3_0, t);
    assert((a2_1 >= t) == b2_1 && (a3_1 >= t) == b3_1);
    let a4_1 = mx(a4_0, a5_0);
    let a5_1 = mn(a4_0, a5_0);
    let b4_1 = b4_0 || b5_0;
    let b5_1 = b4_0 && b5_0;
    lemma_mx_mn_thr(a4_0, a5_0, t);
    assert((a4_1 >= t) == b4_1 && (a5_1 >= t) == b5_1);
    let a6_1 = mx(a6_0, a7_0);
    let a7_1 = mn(a6_0, a7_0);
    let b6_1 = b6_0 || b7_0;
    let b7_1 = b6_0 && b7_0;
    lemma_mx_mn_thr(a6_0, a7_0, t);
    assert((a6_1 >= t) == b6_1 && (a7_1 >= t) == b7_1);
    let a8_1 = mx(a8_0, a9_0);
    let a9_1 = mn(a8_0, a9_0);
    let b8_1 = b8_0 || b9_0;
    let b9_1 = b8_0 && b9_0;
    lemma_mx_mn_thr(a8_0, a9_0, t);
    assert((a8_1 >= t) == b8_1 && (a9_1 >= t) == b9_1);
    let a10_1 = mx(a10_0, a11_0);
    let a11_1 = mn(a10_0, a11_0);
    let b10_1 = b10_0 || b11_0;
    let b11_1 = b10_0 && b11_0;
    lemma_mx_mn_thr(a10_0, a11_0, t);
    assert((a10_1 >= t) == b10_1 && (a11_1 >= t) == b11_1);
    let a1_2 = mx(a1_1, a3_1);
    let a3_2 = mn(a1_1, a3_1);
    let b1_2 = b1_1 || b3_1;
    let b3_2 = b1_1 && b3_1;
    lemma_mx_mn_thr(a1_1, a3_1, t);
    assert((a1_2 >= t) == b1_2 && (a3_2 >= t) == b3_2);
    let a5_2 = mx(a5_1, a7_1);
    let a7_2 = mn(a5_1, a7_1);
    let b5_2 = b5_1 || b7_1;
    let b7_2 = b5_1 && b7_1;
    lemma_mx_mn_thr(a5_1, a7_1, t);
    assert((a5_2 >= t) == b5_2 && (a7_2 >= t) == b7_2);
    let a9_2 = mx(a9_1, a11_1);
    let a11_2 = mn(a9_1, a11_1);
    let b9_2 = b9_1 || b11_1;
    let b11_2 = b9_1 && b11_1;
    lemma_mx_mn_thr(a9_1, a11_1, t);
    assert((a9_2 >= t) == b9_2 && (a11_2 >= t) == b11_2);
    let a0_2 = mx(a0_1, a2_1);
    let a2_2 = mn(a0_1, a2_1);
    let b0_2 = b0_1 || b2_1;
    let b2_2 = b0_1 && b2_1;
    lemma_mx_mn_thr(a0_1, a2_1, t);
    assert((a0_2 >= t) == b0_2 && (a2_2 >= t) == b2_2);
    let a4_2 = mx(a4_1, a6_1);
    let a6_2 = mn(a4_1, a6_1);
    let b4_2 = b4_1 || b6_1;
    let b6_2 = b4_1 && b6_1;
    lemma_mx_mn_thr(a4_1, a6_1, t);
    assert((a4_2 >= t) == b4_2 && (a6_2 >= t) == b6_2);
    let a8_2 = mx(a8_1, a10_1);
    let a10_2 = mn(a8_1, a10_1);
    let b8_2 = b8_1 || b10_1;
    let b10_2 = b8_1 && b10_1;
    lemma_mx_mn_thr(a8_1, a10_1, t);
    assert((a8_2 >= t) == b8_2 && (a10_2 >= t) == b10_2);
    let a1_3 = mx(a1_2, a2_2);
    let a2_3 = mn(a1_2, a2_2);
    let b1_3 = b1_2 || b2_2;
    let b2_3 = b1_2 && b2_2;
    lemma_mx_mn_thr(a1_2, a2_2, t);
    assert((a1_3 >= t) == b1_3 && (a2_3 >= t) == b2_3);
    let a5_3 = mx(a5_2, a6_2);
    let a6_3 = mn(a5_2, a6_2);
    let b5_3 = b5_2 || b6_2;
    let b6_3 = b5_2 && b6_2;
    lemma_mx_mn_thr(a5_2, a6_2, t);
    assert((a5_3 >= t) == b5_3 && (a6_3 >= t) == b6_3);
    let a9_3 = mx(a9_2, a10_2);
    let a10_3 = mn(a9_2, a10_2);
    let b9_3 = b9_2 || b10_2;
    let b10_3 = b9_2 && b10_2;
    lemma_mx_mn_thr(a9_2, a10_2, t);
    assert((a9_3 >= t) == b9_3 && (a10_3 >= t) == b10_3);
    let a1_4 = mx(a1_3, a5_3);
    let a5_4 = mn(a1_3, a5_3);
    let b1_4 = b1_3 || b5_3;
    let b5_4 = b1_3 && b5_3;
    lemma_mx_mn_thr(a1_3, a5_3, t);
    assert((a1_4 >= t) == b1_4 && (a5_4 >= t) == b5_4);
    let a6_4 = mx(a6_3, a10_3);
    let a10_4 = mn(a6_3, a10_3);
    let b6_4 = b6_3 || b10_3;
    let b10_4 = b6_3 && b10_3;
    lemma_mx_mn_thr(a6_3, a10_3, t);
    assert((a6_4 >= t) == b6_4 && (a10_4 >= t) == b10_4);
    let a5_5 = mx(a5_4, a9_3);
    let a9_4 = mn(a5_4, a9_3);
    let b5_5 = b5_4 || b9_3;
    let b9_4 = b5_4 && b9_3;
    lemma_mx_mn_thr(a5_4, a9_3, t);
    assert((a5_5 >= t) == b5_5 && (a9_4 >= t) == b9_4);
    let a2_4 = mx(a2_3, a6_4);
    let a6_5 = mn(a2_3, a6_4);
    let b2_4 = b2_3 || b6_4;
    let b6_5 = b2_3 && b6_4;
    lemma_mx_mn_thr(a2_3, a6_4, t);
    assert((a2_4 >= t) == b2_4 && (a6_5 >= t) == b6_5);
    let a1_5 = mx(a1_4, a5_5);
    let a5_6 = mn(a1_4, a5_5);
    let b1_5 = b1_4 || b5_5;
    let b5_6 = b1_4 && b5_5;
    lemma_mx_mn_thr(a1_4, a5_5, t);
    assert((a1_5 >= t) == b1_5 && (a5_6 >= t) == b5_6);
    let a6_6 = mx(a6_5, a10_4);
    let a10_5 = mn(a6_5, a10_4);
    let b6_6 = b6_5 || b10_4;
    let b10_5 = b6_5 && b10_4;
    lemma_mx_mn_thr(a6_5, a10_4, t);
    assert((a6_6 >= t) == b6_6 && (a10_5 >= t) == b10_5);
    let a0_3 = mx(a0_2, a4_2);
    let a4_3 = mn(a0_2, a4_2);
    let b0_3 = b0_2 || b4_2;
    let b4_3 = b0_2 && b4_2;
    lemma_mx_mn_thr(a0_2, a4_2, t);
    assert((a0_3 >= t) == b0_3 && (a4_3 >= t) == b4_3);
    let a7_3 = mx(a7_2, a11_2);
    let a11_3 = mn(a7_2, a11_2);
    let b7_3 = b7_2 || b11_2;
    let b11_3 = b7_2 && b11_2;
    lemma_mx_mn_thr(a7_2, a11_2, t);
    assert((a7_3 >= t) == b7_3 && (a11_3 >= t) == b11_3);
    let a3_3 = mx(a3_2, a7_3);
    let a7_4 = mn(a3_2, a7_3);
    let b3_3 = b3_2 || b7_3;
    let b7_4 = b3_2 && b7_3;
    lemma_mx_mn_thr(a3_2, a7_3, t);
    assert((a3_3 >= t) == b3_3 && (a7_4 >= t) == b7_4);
    let a4_4 = mx(a4_3, a8_2);
    let a8_3 = mn(a4_3, a8_2);
    let b4_4 = b4_3 || b8_2;
    let b8_3 = b4_3 && b8_2;
    lemma_mx_mn_thr(a4_3, a8_2, t);
    assert((a4_4 >= t) == b4_4 && (a8_3 >= t) == b8_3);
    let a0_4 = mx(a0_3, a4_4);
    let a4_5 = mn(a0_3, a4_4);
    let b0_4 = b0_3 || b4_4;
    let b4_5 = b0_3 && b4_4;
    lemma_mx_mn_thr(a0_3, a4_4, t);
    assert((a0_4 >= t) == b0_4 && (a4_5 >= t) == b4_5);
    let a7_5 = mx(a7_4, a11_3);
    let a11_4 = mn(a7_4, a11_3);
    let b7_5 = b7_4 || b11_3;
    let b11_4 = b7_4 && b11_3;
    lemma_mx_mn_thr(a7_4, a11_3, t);
    assert((a7_5 >= t) == b7_5 && (a11_4 >= t) == b11_4);
    let a1_6 = mx(a1_5, a4_5);
    let a4_6 = mn(a1_5, a4_5);
    let b1_6 = b1_5 || b4_5;
    let b4_6 = b1_5 && b4_5;
    lemma_mx_mn_thr(a1_5, a4_5, t);
    assert((a1_6 >= t) == b1_6 && (a4_6 >= t) == b4_6);
    let a7_6 = mx(a7_5, a10_5);
    let a10_6 = mn(a7_5, a10_5);
    let b7_6 = b7_5 || b10_5;
    let b10_6 = b7_5 && b10_5;
    lemma_mx_mn_thr(a7_5, a10_5, t);
    assert((a7_6 >= t) == b7_6 && (a10_6 >= t) == b10_6);
    let a3_4 = mx(a3_3, a8_3);
    let a8_4 = mn(a3_3, a8_3);
    let b3_4 = b3_3 || b8_3;
    let b8_4 = b3_3 && b8_3;
    lemma_mx_mn_thr(a3_3, a8_3, t);
    assert((a3_4 >= t) == b3_4 && (a8_4 >= t) == b8_4);
    let a2_5 = mx(a2_4, a3_4);
    let a3_5 = mn(a2_4, a3_4);
    let b2_5 = b2_4 || b3_4;
    let b3_5 = b2_4 && b3_4;
    lemma_mx_mn_thr(a2_4, a3_4, t);
    assert((a2_5 >= t) == b2_5 && (a3_5 >= t) == b3_5);
    let a8_5 = mx(a8_4, a9_4);
    let a9_5 = mn(a8_4, a9_4);
    let b8_5 = b8_4 || b9_4;
    let b9_5 = b8_4 && b9_4;
    lemma_mx_mn_thr(a8_4, a9_4, t);
    assert((a8_5 >= t) == b8_5 && (a9_5 >= t) == b9_5);
    let a2_6 = mx(a2_5, a4_6);
    let a4_7 = mn(a2_5, a4_6);
    let b2_6 = b2_5 || b4_6;
    let b4_7 = b2_5 && b4_6;
    lemma_mx_mn_thr(a2_5, a4_6, t);
    assert((a2_6 >= t) == b2_6 && (a4_7 >= t) == b4_7);
    let a7_7 = mx(a7_6, a9_5);
    let a9_6 = mn(a7_6, a9_5);
    let b7_7 = b7_6 || b9_5;
    let b9_6 = b7_6 && b9_5;
    lemma_mx_mn_thr(a7_6, a9_5, t);
    assert((a7_7 >= t) == b7_7 && (a9_6 >= t) == b9_6);
    let a3_6 = mx(a3_5, a5_6);
    let a5_7 = mn(a3_5, a5_6);
    let b3_6 = b3_5 || b5_6;
    let b5_7 = b3_5 && b5_6;
    lemma_mx_mn_thr(a3_5, a5_6, t);
    assert((a3_6 >= t) == b3_6 && (a5_7 >= t) == b5_7);
    let a6_7 = mx(a6_6, a8_5);
    let a8_6 = mn(a6_6, a8_5);
    let b6_7 = b6_6 || b8_5;
    let b8_6 = b6_6 && b8_5;
    lemma_mx_mn_thr(a6_6, a8_5, t);
    assert((a6_7 >= t) == b6_7 && (a8_6 >= t) == b8_6);
    let a3_7 = mx(a3_6, a4_7);
    let a4_8 = mn(a3_6, a4_7);
    let b3_7 = b3_6 || b4_7;
    let b4_8 = b3_6 && b4_7;
    lemma_mx_mn_thr(a3_6, a4_7, t);
    assert((a3_7 >= t) == b3_7 && (a4_8 >= t) == b4_8);
    let a5_8 = mx(a5_7, a6_7);
    let a6_8 = mn(a5_7, a6_7);
    let b5_8 = b5_7 || b6_7;
    let b6_8 = b5_7 && b6_7;
    lemma_mx_mn_thr(a5_7, a6_7, t);
    assert((a5_8 >= t) == b5_8 && (a6_8 >= t) == b6_8);
    let a7_8 = mx(a7_7, a8_6);
    let a8_7 = mn(a7_7, a8_6);
    let b7_8 = b7_7 || b8_6;
    let b8_7 = b7_7 && b8_6;
    lemma_mx_mn_thr(a7_7, a8_6, t);
    assert((a7_8 >= t) == b7_8 && (a8_7 >= t) == b8_7);
    assert(thr(net12_w(x), t) =~= net12_b(thr(x, t)));
}

#[verifier::rlimit(50)]
#[verifier::spinoff_prover]
proof fn lemma_net12_bool(x: Seq<bool>)
    requires
        x.len() >= 12,
    ensures
        sorted_bool(net12_b(x), 12),
{
}

/// The network for 12 entries sorts every weight sequence.
pub proof fn lemma_net12_sorts(x: Seq<int>)
    requires
        x.len() >= 12,
    ensures
        sorted_desc(net12_w(x), 12),
{
    let out = net12_w(x);
    assert forall|i: int, j: int| 0 <= i < j < 12 implies out[i] >= out[j] by {
        if out[i] < out[j] {
            let t = out[j];
            lemma_net12_thr(x, t);
            lemma_net12_bool(thr(x, t));
            assert(thr(out, t)[j]);
            assert(!thr(out, t)[i]);
        }
    }
}

/// Applying the network for 12 entries to a move list keeps the multiset
/// of moves and leaves the tail alone.
#[verifier::rlimit(50)]
#[verifier::spinoff_prover]
proof fn lemma_net12_perm(x0: Seq<MoveType>)
    requires
        x0.len() == 14,
    ensures
        net12_m(x0).len() == 14,
        net12_m(x0).to_multiset() == x0.to_multiset(),
        forall|k: int| 12 <= k < 14 ==> #[trigger] net12_m(x0)[k] == x0[k],
{
    let x1 = cs_moves(x0, 0, 1);
    lemma_cs_multiset(x0, 0, 1);
    let x2 = cs_moves(x1, 2, 3);
    lemma_cs_multiset(x1, 2, 3);
    let x3 = cs_moves(x2, 4, 5);
    lemma_cs_multiset(x2, 4, 5);
    let x4 = cs_moves(x3, 6, 7);
    lemma_cs_multiset(x3, 6, 7);
    let x5 = cs_moves(x4, 8, 9);
    lemma_cs_multiset(x4, 8, 9);
    let x6 = cs_moves(x5, 10, 11);
    lemma_cs_multiset(x5, 10, 11);
    let x7 = cs_moves(x6, 1, 3);
    lemma_cs_multiset(x6, 1, 3);
    let x8 = cs_moves(x7, 5, 7);
    lemma_cs_multiset(x7, 5, 7);
    let x9 = cs_moves(x8, 9, 11);
    lemma_cs_multiset(x8, 9, 11);
    let x10 = cs_moves(x9, 0, 2);
    lemma_cs_multiset(x9, 0, 2);
    let x11 = cs_moves(x10, 4, 6);
    lemma_cs_multiset(x10, 4, 6);
    let x12 = cs_moves(x11, 8, 10);
    lemma_cs_multiset(x11, 8, 10);
    let x13 = cs_moves(x12, 1, 2);
    lemma_cs_multiset(x12, 1, 2);
    let x14 = cs_moves(x13, 5, 6);
    lemma_cs_multiset(x13, 5, 6);
    let x15 = cs_moves(x14, 9, 10);
    lemma_cs_multiset(x14, 9, 10);
    let x16 = cs_moves(x15, 1, 5);
    lemma_cs_multiset(x15, 1, 5);
    let x17 = cs_moves(x16, 6, 10);
    lemma_cs_multiset(x16, 6, 10);
    let x18 = cs_moves(x17, 5, 9);
    lemma_cs_multiset(x17, 5, 9);
    let x19 = cs_moves(x18, 2, 6);
    lemma_cs_multiset(x18, 2, 6);
    let x20 = cs_moves(x19, 1, 5);
    lemma_cs_multiset(x19, 1, 5);
    let x21 = cs_moves(x20, 6, 10);
    lemma_cs_multiset(x20, 6, 10);
    let x22 = cs_moves(x21, 0, 4);
    lemma_cs_multiset(x21, 0, 4);
    let x23 = cs_moves(x22, 7, 11);
    lemma_cs_multiset(x22, 7, 11);
    let x24 = cs_moves(x23, 3, 7);
    lemma_cs_multiset(x23, 3, 7);
    let x25 = cs_moves(x24, 4, 8);
    lemma_cs_multiset(x24, 4, 8);
    let x26 = cs_moves(x25, 0, 4);
    lemma_cs_multiset(x25, 0, 4);
    let x27 = cs_moves(x26, 7, 11);
    lemma_cs_multiset(x26, 7, 11);
    let x28 = cs_moves(x27, 1, 4);
    lemma_cs_multiset(x27, 1, 4);
    let x29 = cs_moves(x28, 7, 10);
    lemma_cs_multiset(x28, 7, 10);
    let x30 = cs_moves(x29, 3, 8);
    lemma_cs_multiset(x29, 3, 8);
    let x31 = cs_moves(x30, 2, 3);
    lemma_cs_multiset(x30, 2, 3);
    let x32 = cs_moves(x31, 8, 9);
    lemma_cs_multiset(x31, 8, 9);
    let x33 = cs_moves(x32, 2, 4);
    lemma_cs_multiset(x32, 2, 4);
    let x34 = cs_moves(x33, 7, 9);
    lemma_cs_multiset(x33, 7, 9);
    let x35 = cs_moves(x34, 3, 5);
    lemma_cs_multiset(x34, 3, 5);
    let x36 = cs_moves(x35, 6, 8);
    lemma_cs_multiset(x35, 6, 8);
    let x37 = cs_moves(x36, 3, 4);
    lemma_cs_multiset(x36, 3, 4);
    let x38 = cs_moves(x37, 5, 6);
    lemma_cs_multiset(x37, 5, 6);
    let x39 = cs_moves(x38, 7, 8);
    lemma_cs_multiset(x38, 7, 8);
}

/// Applying the network for 12 entries to a move list applies it to the
/// weights.
#[verifier::rlimit(50)]
#[verifier::spinoff_prover]
proof fn lemma_net12_link(x0: Seq<MoveType>)
    requires
        x0.len() == 14,
    ensures
        forall|k: int| 0 <= k < 12 ==> #[trigger] weights(net12_m(x0))[k] == net12_w(weights(x0))[k],
{
    let w0 = weights(x0);
    let a0_0 = w0[0];
    let a1_0 = w0[1];
    let a2_0 = w0[2];
    let a3_0 = w0[3];
    let a4_0 = w0[4];
    let a5_0 = w0[5];
    let a6_0 = w0[6];
    let a7_0 = w0[7];
    let a8_0 = w0[8];
    let a9_0 = w0[9];
    let a10_0 = w0[10];
    let a11_0 = w0[11];
    let x1 = cs_moves(x0, 0, 1);
    lemma_cs_step(x0, 0, 1);
    let w1 = w0.update(0, mx(w0[0], w0[1])).update(1, mn(w0[0], w0[1]));
    let a0_1 = mx(a0_0, a1_0);
    let a1_1 = mn(a0_0, a1_0);
    assert(w1[0] == a0_1 && w1[1] == a1_1);
    let x2 = cs_moves(x1, 2, 3);
    lemma_cs_step(x1, 2, 3);
    let w2 = w1.update(2, mx(w1[2], w1[3])).update(3, mn(w1[2], w1[3]));
    let a2_1 = mx(a2_0, a3_0);
    let a3_1 = mn(a2_0, a3_0);
    assert(w2[2] == a2_1 && w2[3] == a3_1);
    let x3 = cs_moves(x2, 4, 5);
    lemma_cs_step(x2, 4, 5);
    let w3 = w2.update(4, mx(w2[4], w2[5])).update(5, mn(w2[4], w2[5]));
    let a4_1 = mx(a4_0, a5_0);
    let a5_1 = mn(a4_0, a5_0);
    assert(w3[4] == a4_1 && w3[5] == a5_1);
    let x4 = cs_moves(x3, 6, 7);
    lemma_cs_step(x3, 6, 7);
    let w4 = w3.update(6, mx(w3[6], w3[7])).update(7, mn(w3[6], w3[7]));
    let a6_1 = mx(a6_0, a7_0);
    let a7_1 = mn(a6_0, a7_0);
    assert(w4[6] == a6_1 && w4[7] == a7_1);
    let x5 = cs_moves(x4, 8, 9);
    lemma_cs_step(x4, 8, 9);
    let w5 = w4.update(8, mx(w4[8], w4[9])).update(9, mn(w4[8], w4[9]));
    let a8_1 = mx(a8_0, a9_0);
    let a9_1 = mn(a8_0, a9_0);
    assert(w5[8] == a8_1 && w5[9] == a9_1);
    let x6 = cs_moves(x5, 10, 11);
    lemma_cs_step(x5, 10, 11);
    let w6 = w5.update(10, mx(w5[10], w5[11])).update(11, mn(w5[10], w5[11]));
    let a10_1 = mx(a10_0, a11_0);
    let a11_1 = mn(a10_0, a11_0);
    assert(w6[10] == a10_1 && w6[11] == a11_1);
    let x7 = cs_moves(x6, 1, 3);
    lemma_cs_step(x6, 1, 3);
    let w7 = w6.update(1, mx(w6[1], w6[3])).update(3, mn(w6[1], w6[3]));
    let a1_2 = mx(a1_1, a3_1);
    let a3_2 = mn(a1_1, a3_1);
    assert(w7[1] == a1_2 && w7[3] == a3_2);
    let x8 = cs_moves(x7, 5, 7);
    lemma_cs_step(x7, 5, 7);
    let w8 = w7.update(5, mx(w7[5], w7[7])).update(7, mn(w7[5], w7[7]));
    let a5_2 = mx(a5_1, a7_1);
    let a7_2 = mn(a5_1, a7_1);
    assert(w8[5] == a5_2 && w8[7] == a7_2);
    let x9 = cs_moves(x8, 9, 11);
    lemma_cs_step(x8, 9, 11);
    let w9 = w8.update(9, mx(w8[9], w8[11])).update(11, mn(w8[9], w8[11]));
    let a9_2 = mx(a9_1, a11_1);
    let a11_2 = mn(a9_1, a11_1);
    assert(w9[9] == a9_2 && w9[11] == a11_2);
    let x10 = cs_moves(x9, 0, 2);
    lemma_cs_step(x9, 0, 2);
    let w10 = w9.update(0, mx(w9[0], w9[2])).update(2, mn(w9[0], w9[2]));
    let a0_2 = mx(a0_1, a2_1);
    let a2_2 = mn(a0_1, a2_1);
    assert(w10[0] == a0_2 && w10[2] == a2_2);
    let x11 = cs_moves(x10, 4, 6);
    lemma_cs_step(x10, 4, 6);
    let w11 = w10.update(4, mx(w10[4], w10[6])).update(6, mn(w10[4], w10[6]));
    let a4_2 = mx(a4_1, a6_1);
    let a6_2 = mn(a4_1, a6_1);
    assert(w11[4] == a4_2 && w11[6] == a6_2);
    let x12 = cs_moves(x11, 8, 10);
    lemma_cs_step(x11, 8, 10);
    let w12 = w11.update(8, mx(w11[8], w11[10])).update(10, mn(w11[8], w11[10]));
    let a8_2 = mx(a8_1, a10_1);
    let a10_2 = mn(a8_1, a10_1);
    assert(w12[8] == a8_2 && w12[10] == a10_2);
    let x13 = cs_moves(x12, 1, 2);
    lemma_cs_step(x12, 1, 2);
    let w13 = w12.update(1, mx(w12[1], w12[2])).update(2, mn(w12[1], w12[2]));
    let a1_3 = mx(a1_2, a2_2);
    let a2_3 = mn(a1_2, a2_2);
    assert(w13[1] == a1_3 && w13[2] == a2_3);
    let x14 = cs_moves(x13, 5, 6);
    lemma_cs_step(x13, 5, 6);
    let w14 = w13.update(5, mx(w13[5], w13[6])).update(6, mn(w13[5], w13[6]));
    let a5_3 = mx(a5_2, a6_2);
    let a6_3 = mn(a5_2, a6_2);
    assert(w14[5] == a5_3 && w14[6] == a6_3);
    let x15 = cs_moves(x14, 9, 10);
    lemma_cs_step(x14, 9, 10);
    let w15 = w14.update(9, mx(w14[9], w14[10])).update(10, mn(w14[9], w14[10]));
    let a9_3 = mx(a9_2, a10_2);
    let a10_3 = mn(a9_2, a10_2);
    assert(w15[9] == a9_3 && w15[10] == a10_3);
    let x16 = cs_moves(x15, 1, 5);
    lemma_cs_step(x15, 1, 5);
    let w16 = w15.update(1, mx(w15[1], w15[5])).update(5, mn(w15[1], w15[5]));
    let a1_4 = mx(a1_3, a5_3);
    let a5_4 = mn(a1_3, a5_3);
    assert(w16[1] == a1_4 && w16[5] == a5_4);
    let x17 = cs_moves(x16, 6, 10);
    lemma_cs_step(x16, 6, 10);
    let w17 = w16.update(6, mx(w16[6], w16[10])).update(10, mn(w16[6], w16[10]));
    let a6_4 = mx(a6_3, a10_3);
    let a10_4 = mn(a6_3, a10_3);
    assert(w17[6] == a6_4 && w17[10] == a10_4);
    let x18 = cs_moves(x17, 5, 9);
    lemma_cs_step(x17, 5, 9);
    let w18 = w17.update(5, mx(w17[5], w17[9])).update(9, mn(w17[5], w17[9]));
    let a5_5 = mx(a5_4, a9_3);
    let a9_4 = mn(a5_4, a9_3);
    assert(w18[5] == a5_5 && w18[9] == a9_4);
    let x19 = cs_moves(x18, 2, 6);
    lemma_cs_step(x18, 2, 6);
    let w19 = w18.update(2, mx(w18[2], w18[6])).update(6, mn(w18[2], w18[6]));
    let a2_4 = mx(a2_3, a6_4);
    let a6_5 = mn(a2_3, a6_4);
    assert(w19[2] == a2_4 && w19[6] == a6_5);
    let x20 = cs_moves(x19, 1, 5);
    lemma_cs_step(x19, 1, 5);
    let w20 = w19.update(1, mx(w19[1], w19[5])).update(5, mn(w19[1], w19[5]));
    let a1_5 = mx(a1_4, a5_5);
    let a5_6 = mn(a1_4, a5_5);
    assert(w20[1] == a1_5 && w20[5] == a5_6);
    let x21 = cs_moves(x20, 6, 10);
    lemma_cs_step(x20, 6, 10);
    let w21 = w20.update(6, mx(w20[6], w20[10])).update(10, mn(w20[6], w20[10]));
    let a6_6 = mx(a6_5, a10_4);
    let a10_5 = mn(a6_5, a10_4);
    assert(w21[6] == a6_6 && w21[10] == a10_5);
    let x22 = cs_moves(x21, 0, 4);
    lemma_cs_step(x21, 0, 4);
    let w22 = w21.update(0, mx(w21[0], w21[4])).update(4, mn(w21[0], w21[4]));
    let a0_3 = mx(a0_2, a4_2);
    let a4_3 = mn(a0_2, a4_2);
    assert(w22[0] == a0_3 && w22[4] == a4_3);
    let x23 = cs_moves(x22, 7, 11);
    lemma_cs_step(x22, 7, 11);
    let w23 = w22.update(7, mx(w22[7], w22[11])).update(11, mn(w22[7], w22[11]));
    let a7_3 = mx(a7_2, a11_2);
    let a11_3 = mn(a7_2, a11_2);
    assert(w23[7] == a7_3 && w23[11] == a11_3);
    let x24 = cs_moves(x23, 3, 7);
    lemma_cs_step(x23, 3, 7);
    let w24 = w23.update(3, mx(w23[3], w23[7])).update(7, mn(w23[3], w23[7]));
    let a3_3 = mx(a3_2, a7_3);
    let a7_4 = mn(a3_2, a7_3);
    assert(w24[3] == a3_3 && w24[7] == a7_4);
    let x25 = cs_moves(x24, 4, 8);
    lemma_cs_step(x24, 4, 8);
    let w25 = w24.update(4, mx(w24[4], w24[8])).update(8, mn(w24[4], w24[8]));
    let a4_4 = mx(a4_3, a8_2);
    let a8_3 = mn(a4_3, a8_2);
    assert(w25[4] == a4_4 && w25[8] == a8_3);
    let x26 = cs_moves(x25, 0, 4);
    lemma_cs_step(x25, 0, 4);
    let w26 = w25.update(0, mx(w25[0], w25[4])).update(4, mn(w25[0], w25[4]));
    let a0_4 = mx(a0_3, a4_4);
    let a4_5 = mn(a0_3, a4_4);
    assert(w26[0] == a0_4 && w26[4] == a4_5);
    let x27 = cs_moves(x26, 7, 11);
    lemma_cs_step(x26, 7, 11);
    let w27 = w26.update(7, mx(w26[7], w26[11])).update(11, mn(w26[7], w26[11]));
    let a7_5 = mx(a7_4, a11_3);
    let a11_4 = mn(a7_4, a11_3);
    assert(w27[7] == a7_5 && w27[11] == a11_4);
    let x28 = cs_moves(x27, 1, 4);
    lemma_cs_step(x27, 1, 4);
    let w28 = w27.update(1, mx(w27[1], w27[4])).update(4, mn(w27[1], w27[4]));
    let a1_6 = mx(a1_5, a4_5);
    let a4_6 = mn(a1_5, a4_5);
    assert(w28[1] == a1_6 && w28[4] == a4_6);
    let x29 = cs_moves(x28, 7, 10);
    lemma_cs_step(x28, 7, 10);
    let w29 = w28.update(7, mx(w28[7], w28[10])).update(10, mn(w28[7], w28[10]));
    let a7_6 = mx(a7_5, a10_5);
    let a10_6 = mn(a7_5, a10_5);
    assert(w29[7] == a7_6 && w29[10] == a10_6);
    let x30 = cs_moves(x29, 3, 8);
    lemma_cs_step(x29, 3, 8);
    let w30 = w29.update(3, mx(w29[3], w29[8])).update(8, mn(w29[3], w29[8]));
    let a3_4 = mx(a3_3, a8_3);
    let a8_4 = mn(a3_3, a8_3);
    assert(w30[3] == a3_4 && w30[8] == a8_4);
    let x31 = cs_moves(x30, 2, 3);
    lemma_cs_step(x30, 2, 3);
    let w31 = w30.update(2, mx(w30[2], w30[3])).update(3, mn(w30[2], w30[3]));
    let a2_5 = mx(a2_4, a3_4);
    let a3_5 = mn(a2_4, a3_4);
    assert(w31[2] == a2_5 && w31[3] == a3_5);
    let x32 = cs_moves(x31, 8, 9);
    lemma_cs_step(x31, 8, 9);
    let w32 = w31.update(8, mx(w31[8], w31[9])).update(9, mn(w31[8], w31[9]));
    let a8_5 = mx(a8_4, a9_4);
    let a9_5 = mn(a8_4, a9_4);
    assert(w32[8] == a8_5 && w32[9] == a9_5);
    let x33 = cs_moves(x32, 2, 4);
    lemma_cs_step(x32, 2, 4);
    let w33 = w32.update(2, mx(w32[2], w32[4])).update(4, mn(w32[2], w32[4]));
    let a2_6 = mx(a2_5, a4_6);
    let a4_7 = mn(a2_5, a4_6);
    assert(w33[2] == a2_6 && w33[4] == a4_7);
    let x34 = cs_moves(x33, 7, 9);
    lemma_cs_step(x33, 7, 9);
    let w34 = w33.update(7, mx(w33[7], w33[9])).update(9, mn(w33[7], w33[9]));
    let a7_7 = mx(a7_6, a9_5);
    let a9_6 = mn(a7_6, a9_5);
    assert(w34[7] == a7_7 && w34[9] == a9_6);
    let x35 = cs_moves(x34, 3, 5);
    lemma_cs_step(x34, 3, 5);
    let w35 = w34.update(3, mx(w34[3], w34[5])).update(5, mn(w34[3], w34[5]));
    let a3_6 = mx(a3_5, a5_6);
    let a5_7 = mn(a3_5, a5_6);
    assert(w35[3] == a3_6 && w35[5] == a5_7);
    let x36 = cs_moves(x35, 6, 8);
    lemma_cs_step(x35, 6, 8);
    let w36 = w35.update(6, mx(w35[6], w35[8])).update(8, mn(w35[6], w35[8]));
    let a6_7 = mx(a6_6, a8_5);
    let a8_6 = mn(a6_6, a8_5);
    assert(w36[6] == a6_7 && w36[8] == a8_6);
    let x37 = cs_moves(x36, 3, 4);
    lemma_cs_step(x36, 3, 4);
    let w37 = w36.update(3, mx(w36[3], w36[4])).update(4, mn(w36[3], w36[4]));
    let a3_7 = mx(a3_6, a4_7);
    let a4_8 = mn(a3_6, a4_7);
    assert(w37[3] == a3_7 && w37[4] == a4_8);
    let x38 = cs_moves(x37, 5, 6);
    lemma_cs_step(x37, 5, 6);
    let w38 = w37.update(5, mx(w37[5], w37[6])).update(6, mn(w37[5], w37[6]));
    let a5_8 = mx(a5_7, a6_7);
    let a6_8 = mn(a5_7, a6_7);
    assert(w38[5] == a5_8 && w38[6] == a6_8);
    let x39 = cs_moves(x38, 7, 8);
    lemma_cs_step(x38, 7, 8);
    let w39 = w38.update(7, mx(w38[7], w38[8])).update(8, mn(w38[7], w38[8]));
    let a7_8 = mx(a7_7, a8_6);
    let a8_7 = mn(a7_7, a8_6);
    assert(w39[7] == a7_8 && w39[8] == a8_7);
    assert(weights(x39) == w39);
    let w = net12_w(weights(x0));
    assert(w == seq![a0_4, a1_6, a2_6, a3_7, a4_8, a5_8, a6_8, a7_8, a8_7, a9_6, a10_6, a11_4]);
    assert(w39[0] == w[0]);
    assert(w39[1] == w[1]);
    assert(w39[2] == w[2]);
    assert(w39[3] == w[3]);
    assert(w39[4] == w[4]);
    assert(w39[5] == w[5]);
    assert(w39[6] == w[6]);
    assert(w39[7] == w[7]);
    assert(w39[8] == w[8]);
    assert(w39[9] == w[9]);
    assert(w39[10] == w[10]);
    assert(w39[11] == w[11]);
}

/// The result of the network for `n` entries (`2..=12`) on a move list.
pub open spec fn network_result(n: int, s: Seq<MoveType>) -> Seq<MoveType> {
    if n == 2 {
        net2_m(s)
    } else if n == 3 {
        net3_m(s)
    } else if n == 4 {
        net4_m(s)
    } else if n == 5 {
        net5_m(s)
    } else if n == 6 {
        net6_m(s)
    } else if n == 7 {
        net7_m(s)
    } else if n == 8 {
        net8_m(s)
    } else if n == 9 {
        net9_m(s)
    } else if n == 10 {
        net10_m(s)
    } else if n == 11 {
        net11_m(s)
    } else if n == 12 {
        net12_m(s)
    } else {
        s
    }
}

/// Compare-and-swap of `moves[i]` and `moves[j]`: the heavier move ends at `i`.
pub fn swap_if_lighter(moves: &mut [MoveType; 14], i: usize, j: usize)
    requires
        i < 14,
        j < 14,
        i != j,
    ensures
        final(moves)@ == cs_moves(old(moves)@, i as int, j as int),
{
    proof {
        reveal(cs_moves);
    }
    if moves[i].weight < moves[j].weight {
        let t = moves[i];
        moves[i] = moves[j];
        moves[j] = t;
        assert(moves@ =~= old(moves)@.update(i as int, old(moves)@[j as int]).update(
            j as int,
            old(moves)@[i as int],
        ));
    }
}

/// Sort the first `n` moves by descending weight: by a fixed sorting network
/// for two to twelve moves, by insertion sort for more. The moves from `n`
/// on are left alone.
pub fn merge_sort(moves: &mut [MoveType; 14], n: usize)
    requires
        n <= 14,
    ensures
        final(moves)@.to_multiset() == old(moves)@.to_multiset(),
        forall|k: int| n <= k < 14 ==> #[trigger] final(moves)@[k] == old(moves)@[k],
        sorted_desc(weights(final(moves)@), n as int),
        2 <= n <= 12 ==> final(moves)@ == network_result(n as int, old(moves)@),
        n <= 1 ==> final(moves)@ == old(moves)@,
{
    let ghost orig = moves@;
    if n <= 1 {
        return;
    }
    if n == 2 {
        swap_if_lighter(moves, 0, 1);
        proof {
            lemma_net2_perm(orig);
            lemma_net2_link(orig);
            lemma_net2_sorts(weights(orig));
            assert(moves@ == net2_m(orig));
            assert forall|i: int, j: int| 0 <= i < j < 2 implies weights(moves@)[i] >= weights(moves@)[j] by {
                assert(weights(moves@)[i] == net2_w(weights(orig))[i]);
                assert(weights(moves@)[j] == net2_w(weights(orig))[j]);
            }
        }
        return;
    }
    if n == 3 {
        swap_if_lighter(moves, 0, 1);
        swap_if_lighter(moves, 0, 2);
        swap_if_lighter(moves, 1, 2);
        proof {
            lemma_net3_perm(orig);
            lemma_net3_link(orig);
            lemma_net3_sorts(weights(orig));
            assert(moves@ == net3_m(orig));
            assert forall|i: int, j: int| 0 <= i < j < 3 implies weights(moves@)[i] >= weights(moves@)[j] by {
                assert(weights(moves@)[i] == net3_w(weights(orig))[i]);
                assert(weights(moves@)[j] == net3_w(weights(orig))[j]);
            }
        }
        return;
    }
    if n == 4 {
        swap_if_lighter(moves, 0, 1);
        swap_if_lighter(moves, 2, 3);
        swap_if_lighter(moves, 0, 2);
        swap_if_lighter(moves, 1, 3);
        swap_if_lighter(moves, 1, 2);
        proof {
            lemma_net4_perm(orig);
            lemma_net4_link(orig);
            lemma_net4_sorts(weights(orig));
            assert(moves@ == net4_m(orig));
            assert forall|i: int, j: int| 0 <= i < j < 4 implies weights(moves@)[i] >= weights(moves@)[j] by {
                assert(weights(moves@)[i] == net4_w(weights(orig))[i]);
                assert(weights(moves@)[j] == net4_w(weights(orig))[j]);
            }
        }
        return;
    }
    if n == 5 {
        swap_if_lighter(moves, 0, 1);
        swap_if_lighter(moves, 2, 3);
        swap_if_lighter(moves, 0, 2);
        swap_if_lighter(moves, 1, 3);
        swap_if_lighter(moves, 1, 2);
        swap_if_lighter(moves, 0, 4);
        swap_if_lighter(moves, 2, 4);
        swap_if_lighter(moves, 1, 2);
        swap_if_lighter(moves, 3, 4);
        proof {
            lemma_net5_perm(orig);
            lemma_net5_link(orig);
            lemma_net5_sorts(weights(orig));
            assert(moves@ == net5_m(orig));
            assert forall|i: int, j: int| 0 <= i < j < 5 implies weights(moves@)[i] >= weights(moves@)[j] by {
                assert(weights(moves@)[i] == net5_w(weights(orig))[i]);
                assert(weights(moves@)[j] == net5_w(weights(orig))[j]);
            }
        }
        return;
    }
    if n == 6 {
        swap_if_lighter(moves, 0, 1);
        swap_if_lighter(moves, 2, 3);
        swap_if_lighter(moves, 4, 5);
        swap_if_lighter(moves, 0, 2);
        swap_if_lighter(moves, 1, 3);
        swap_if_lighter(moves, 1, 2);
        swap_if_lighter(moves, 0, 4);
        swap_if_lighter(moves, 1, 5);
        swap_if_lighter(moves, 2, 4);
        swap_if_lighter(moves, 3, 5);
        swap_if_lighter(moves, 1, 2);
        swap_if_lighter(moves, 3, 4);
        proof {
            lemma_net6_perm(orig);
            lemma_net6_link(orig);
            lemma_net6_sorts(weights(orig));
            assert(moves@ == net6_m(orig));
            assert forall|i: int, j: int| 0 <= i < j < 6 implies weights(moves@)[i] >= weights(moves@)[j] by {
                assert(weights(moves@)[i] == net6_w(weights(orig))[i]);
                assert(weights(moves@)[j] == net6_w(weights(orig))[j]);
            }
        }
        return;
    }
    if n == 7 {
        swap_if_lighter(moves, 0, 1);
        swap_if_lighter(moves, 2, 3);
        swap_if_lighter(moves, 4, 5);
        swap_if_lighter(moves, 0, 2);
        swap_if_lighter(moves, 4, 6);
        swap_if_lighter(moves, 1, 3);
        swap_if_lighter(moves, 1, 2);
        swap_if_lighter(moves, 5, 6);
        swap_if_lighter(moves, 0, 4);
        swap_if_lighter(moves, 1, 5);
        swap_if_lighter(moves, 2, 6);
        swap_if_lighter(moves, 2, 4);
        swap_if_lighter(moves, 3, 5);
        swap_if_lighter(moves, 1, 2);
        swap_if_lighter(moves, 3, 4);
        swap_if_lighter(moves, 5, 6);
        proof {
            lemma_net7_perm(orig);
            lemma_net7_link(orig);
            lemma_net7_sorts(weights(orig));
            assert(moves@ == net7_m(orig));
            assert forall|i: int, j: int| 0 <= i < j < 7 implies weights(moves@)[i] >= weights(moves@)[j] by {
                assert(weights(moves@)[i] == net7_w(weights(orig))[i]);
                assert(weights(moves@)[j] == net7_w(weights(orig))[j]);
            }
        }
        return;
    }
    if n == 8 {
        swap_if_lighter(moves, 0, 1);
        swap_if_lighter(moves, 2, 3);
        swap_if_lighter(moves, 4, 5);
        swap_if_lighter(moves, 6, 7);
        swap_if_lighter(moves, 0, 2);
        swap_if_lighter(moves, 4, 6);
        swap_if_lighter(moves, 1, 3);
        swap_if_lighter(moves, 5, 7);
        swap_if_lighter(moves, 1, 2);
        swap_if_lighter(moves, 5, 6);
        swap_if_lighter(moves, 0, 4);
        swap_if_lighter(moves, 1, 5);
        swap_if_lighter(moves, 2, 6);
        swap_if_lighter(moves, 3, 7);
        swap_if_lighter(moves, 2, 4);
        swap_if_lighter(moves, 3, 5);
        swap_if_lighter(moves, 1, 2);
        swap_if_lighter(moves, 3, 4);
        swap_if_lighter(moves, 5, 6);
        proof {
            lemma_net8_perm(orig);
            lemma_net8_link(orig);
            lemma_net8_sorts(weights(orig));
            assert(moves@ == net8_m(orig));
            assert forall|i: int, j: int| 0 <= i < j < 8 implies weights(moves@)[i] >= weights(moves@)[j] by {
                assert(weights(moves@)[i] == net8_w(weights(orig))[i]);
                assert(weights(moves@)[j] == net8_w(weights(orig))[j]);
            }
        }
        return;
    }
    if n == 9 {
        swap_if_lighter(moves, 0, 1);
        swap_if_lighter(moves, 3, 4);
        swap_if_lighter(moves, 6, 7);
        swap_if_lighter(moves, 1, 2);
        swap_if_lighter(moves, 4, 5);
        swap_if_lighter(moves, 7, 8);
        swap_if_lighter(moves, 0, 1);
        swap_if_lighter(moves, 3, 4);
        swap_if_lighter(moves, 6, 7);
        swap_if_lighter(moves, 0, 3);
        swap_if_lighter(moves, 3, 6);
        swap_if_lighter(moves, 0, 3);
        swap_if_lighter(moves, 1, 4);
        swap_if_lighter(moves, 4, 7);
        swap_if_lighter(moves, 1, 4);
        swap_if_lighter(moves, 2, 5);
        swap_if_lighter(moves, 5, 8);
        swap_if_lighter(moves, 2, 5);
        swap_if_lighter(moves, 1, 3);
        swap_if_lighter(moves, 5, 7);
        swap_if_lighter(moves, 2, 6);
        swap_if_lighter(moves, 4, 6);
        swap_if_lighter(moves, 2, 4);
        swap_if_lighter(moves, 2, 3);
        swap_if_lighter(moves, 5, 6);
        proof {
            lemma_net9_perm(orig);
            lemma_net9_link(orig);
            lemma_net9_sorts(weights(orig));
            assert(moves@ == net9_m(orig));
            assert forall|i: int, j: int| 0 <= i < j < 9 implies weights(moves@)[i] >= weights(moves@)[j] by {
                assert(weights(moves@)[i] == net9_w(weights(orig))[i]);
                assert(weights(moves@)[j] == net9_w(weights(orig))[j]);
            }
        }
        return;
    }
    if n == 10 {
        swap_if_lighter(moves, 1, 8);
        swap_if_lighter(moves, 0, 4);
        swap_if_lighter(moves, 5, 9);
        swap_if_lighter(moves, 2, 6);
        swap_if_lighter(moves, 3, 7);
        swap_if_lighter(moves, 0, 3);
        swap_if_lighter(moves, 6, 9);
        swap_if_lighter(moves, 2, 5);
        swap_if_lighter(moves, 0, 1);
        swap_if_lighter(moves, 3, 6);
        swap_if_lighter(moves, 8, 9);
        swap_if_lighter(moves, 4, 7);
        swap_if_lighter(moves, 0, 2);
        swap_if_lighter(moves, 4, 8);
        swap_if_lighter(moves, 1, 5);
        swap_if_lighter(moves, 7, 9);
        swap_if_lighter(moves, 1, 2);
        swap_if_lighter(moves, 3, 4);
        swap_if_lighter(moves, 5, 6);
        swap_if_lighter(moves, 7, 8);
        swap_if_lighter(moves, 1, 3);
        swap_if_lighter(moves, 6, 8);
        swap_if_lighter(moves, 2, 4);
        swap_if_lighter(moves, 5, 7);
        swap_if_lighter(moves, 2, 3);
        swap_if_lighter(moves, 6, 7);
        swap_if_lighter(moves, 3, 5);
        swap_if_lighter(moves, 4, 6);
        swap_if_lighter(moves, 4, 5);
        proof {
            lemma_net10_perm(orig);
            lemma_net10_link(orig);
            lemma_net10_sorts(weights(orig));
            assert(moves@ == net10_m(orig));
            assert forall|i: int, j: int| 0 <= i < j < 10 implies weights(moves@)[i] >= weights(moves@)[j] by {
                assert(weights(moves@)[i] == net10_w(weights(orig))[i]);
                assert(weights(moves@)[j] == net10_w(weights(orig))[j]);
            }
        }
        return;
    }
    if n == 11 {
        swap_if_lighter(moves, 0, 1);
        swap_if_lighter(moves, 2, 3);
        swap_if_lighter(moves, 4, 5);
        swap_if_lighter(moves, 6, 7);
        swap_if_lighter(moves, 8, 9);
        swap_if_lighter(moves, 1, 3);
        swap_if_lighter(moves, 5, 7);
        swap_if_lighter(moves, 0, 2);
        swap_if_lighter(moves, 4, 6);
        swap_if_lighter(moves, 8, 10);
        swap_if_lighter(moves, 1, 2);
        swap_if_lighter(moves, 5, 6);
        swap_if_lighter(moves, 9, 10);
        swap_if_lighter(moves, 1, 5);
        swap_if_lighter(moves, 6, 10);
        swap_if_lighter(moves, 5, 9);
        swap_if_lighter(moves, 2, 6);
        swap_if_lighter(moves, 1, 5);
        swap_if_lighter(moves, 6, 10);
        swap_if_lighter(moves, 0, 4);
        swap_if_lighter(moves, 3, 7);
        swap_if_lighter(moves, 4, 8);
        swap_if_lighter(moves, 0, 4);
        swap_if_lighter(moves, 1, 4);
        swap_if_lighter(moves, 7, 10);
        swap_if_lighter(moves, 3, 8);
        swap_if_lighter(moves, 2, 3);
        swap_if_lighter(moves, 8, 9);
        swap_if_lighter(moves, 2, 4);
        swap_if_lighter(moves, 7, 9);
        swap_if_lighter(moves, 3, 5);
        swap_if_lighter(moves, 6, 8);
        swap_if_lighter(moves, 3, 4);
        swap_if_lighter(moves, 5, 6);
        swap_if_lighter(moves, 7, 8);
        proof {
            lemma_net11_perm(orig);
            lemma_net11_link(orig);
            lemma_net11_sorts(weights(orig));
            assert(moves@ == net11_m(orig));
            assert forall|i: int, j: int| 0 <= i < j < 11 implies weights(moves@)[i] >= weights(moves@)[j] by {
                assert(weights(moves@)[i] == net11_w(weights(orig))[i]);
                assert(weights(moves@)[j] == net11_w(weights(orig))[j]);
            }
        }
        return;
    }
    if n == 12 {
        swap_if_lighter(moves, 0, 1);
        swap_if_lighter(moves, 2, 3);
        swap_if_lighter(moves, 4, 5);
        swap_if_lighter(moves, 6, 7);
        swap_if_lighter(moves, 8, 9);
        swap_if_lighter(moves, 10, 11);
        swap_if_lighter(moves, 1, 3);
        swap_if_lighter(moves, 5, 7);
        swap_if_lighter(moves, 9, 11);
        swap_if_lighter(moves, 0, 2);
        swap_if_lighter(moves, 4, 6);
        swap_if_lighter(moves, 8, 10);
        swap_if_lighter(moves, 1, 2);
        swap_if_lighter(moves, 5, 6);
        swap_if_lighter(moves, 9, 10);
        swap_if_lighter(moves, 1, 5);
        swap_if_lighter(moves, 6, 10);
        swap_if_lighter(moves, 5, 9);
        swap_if_lighter(moves, 2, 6);
        swap_if_lighter(moves, 1, 5);
        swap_if_lighter(moves, 6, 10);
        swap_if_lighter(moves, 0, 4);
        swap_if_lighter(moves, 7, 11);
        swap_if_lighter(moves, 3, 7);
        swap_if_lighter(moves, 4, 8);
        swap_if_lighter(moves, 0, 4);
        swap_if_lighter(moves, 7, 11);
        swap_if_lighter(moves, 1, 4);
        swap_if_lighter(moves, 7, 10);
        swap_if_lighter(moves, 3, 8);
        swap_if_lighter(moves, 2, 3);
        swap_if_lighter(moves, 8, 9);
        swap_if_lighter(moves, 2, 4);
        swap_if_lighter(moves, 7, 9);
        swap_if_lighter(moves, 3, 5);
        swap_if_lighter(moves, 6, 8);
        swap_if_lighter(moves, 3, 4);
        swap_if_lighter(moves, 5, 6);
        swap_if_lighter(moves, 7, 8);
        proof {
            lemma_net12_perm(orig);
            lemma_net12_link(orig);
            lemma_net12_sorts(weights(orig));
            assert(moves@ == net12_m(orig));
            assert forall|i: int, j: int| 0 <= i < j < 12 implies weights(moves@)[i] >= weights(moves@)[j] by {
                assert(weights(moves@)[i] == net12_w(weights(orig))[i]);
                assert(weights(moves@)[j] == net12_w(weights(orig))[j]);
            }
        }
        return;
    }
    insertion_sort(moves, n);
}

/// Insertion sort of the first `n` moves by descending weight.
fn insertion_sort(moves: &mut [MoveType; 14], n: usize)
    requires
        n <= 14,
    ensures
        final(moves)@.to_multiset() == old(moves)@.to_multiset(),
        forall|k: int| n <= k < 14 ==> #[trigger] final(moves)@[k] == old(moves)@[k],
        sorted_desc(weights(final(moves)@), n as int),
{
    let ghost orig = moves@;
    if n == 0 {
        return;
    }
    let mut i: usize = 1;
    while i < n
        invariant
            1 <= i <= n <= 14,
            moves@.len() == 14,
            moves@.to_multiset() == orig.to_multiset(),
            forall|k: int| n <= k < 14 ==> #[trigger] moves@[k] == orig[k],
            sorted_desc(weights(moves@), i as int),
        decreases n - i,
    {
        let tmp = moves[i];
        let mut j: usize = i;
        let ghost before = moves@;
        assert(moves@.update(j as int, tmp) =~= before);
        while j > 0 && tmp.weight > moves[j - 1].weight
            invariant
                0 <= j <= i < n <= 14,
                moves@.len() == 14,
                tmp == before[i as int],
                forall|k: int| 0 <= k < j ==> #[trigger] moves@[k] == before[k],
                forall|k: int| j < k <= i ==> #[trigger] moves@[k] == before[k - 1],
                forall|k: int| i < k < 14 ==> #[trigger] moves@[k] == before[k],
                forall|k: int| j < k <= i ==> (#[trigger] moves@[k]).weight < tmp.weight,
                moves@.update(j as int, tmp).to_multiset() == before.to_multiset(),
            decreases j,
        {
            let ghost cur = moves@;
            moves[j] = moves[j - 1];
            proof {
                let s = cur.update(j as int, tmp);
                lemma_swap_multiset(s, j - 1, j as int);
                assert(s.update(j - 1, s[j as int]).update(j as int, s[j - 1]) =~= moves@.update(
                    j - 1,
                    tmp,
                ));
            }
            j = j - 1;
        }
        moves[j] = tmp;
        proof {
            assert forall|a: int, b: int| 0 <= a < b < i + 1 implies weights(moves@)[a] >= weights(
                moves@,
            )[b] by {
                assert(weights(before)[a] >= 0 || true);
                if b < j {
                    assert(weights(before)[a] >= weights(before)[b]);
                } else if b == j {
                    if a < j {
                        assert(weights(before)[a] >= weights(before)[j - 1]);
                    }
                } else if a < j {
                    assert(weights(before)[a] >= weights(before)[j - 1]);
                    assert(weights(before)[j - 1] >= weights(before)[b - 1]);
                } else if a == j {
                } else {
                    assert(weights(before)[a - 1] >= weights(before)[b - 1]);
                }
            }
        }
        i = i + 1;
    }
}

} // verus!
