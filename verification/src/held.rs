//! The move lists hold only cards that the hand to move holds, and a hand
//! of at most thirteen cards has at most thirteen groups.
use vstd::prelude::*;
use crate::bits::popcount;
use crate::groups::{lemma_group_count, lemma_group_held, lemma_nbit_has_rank};
use crate::lookup::{group_data, has_rank, lemma_group_ranks, GroupView};
use crate::move_type::{MovePly, MoveType};
use crate::moves::{
    all_cands, ext_of, follower_cands, generated, hand_groups, lemma_merged_end, live, merged, purged, runs,
    sorted_ply, suit_cands, ExtCard, Track,
};
use crate::pos::{pos_wf, Pos};

verus! {

/// Whether hand `h` holds the card of move `m`, whose sequence (the
/// ranks it stands for) is a rank set.
pub open spec fn holds_move(p: Pos, h: int, m: MoveType) -> bool {
    &&& 0 <= m.suit < 4
    &&& has_rank(p.rank_in_suit[h][m.suit as int], m.rank as int)
    &&& 0 <= m.sequence < 8192
}

/// Whether hand `h` holds the card `c`, whose sequence is a rank set.
pub open spec fn holds_card(p: Pos, h: int, c: ExtCard) -> bool {
    &&& 0 <= c.suit < 4
    &&& has_rank(p.rank_in_suit[h][c.suit as int], c.rank as int)
    &&& 0 <= c.sequence < 8192
}

/// Every move of the list `l`, up to its last, is a card that `h` holds.
pub open spec fn ply_held(p: Pos, h: int, l: MovePly) -> bool {
    forall|k: int| 0 <= k <= l.last ==> #[trigger] holds_move(p, h, l.moves[k])
}

/// Every card of `c` is one that `h` holds.
pub open spec fn cands_held(p: Pos, h: int, c: Seq<ExtCard>) -> bool {
    forall|j: int| 0 <= j < c.len() ==> #[trigger] holds_card(p, h, c[j])
}

/// Whether `r` is the top rank of one of the groups `0..=g` of `gd`.
pub open spec fn group_top(gd: GroupView, g: int, r: int) -> bool {
    exists|g2: int| 0 <= g2 <= g && #[trigger] gd.1[g2] as int == r
}

/// Every run of the groups from `g` down starts at the top rank of one of
/// them.
pub proof fn lemma_runs_tops(gd: GroupView, removed: i32, g: int)
    ensures
        forall|j: int| 0 <= j < runs(gd, removed, g).len() ==> group_top(gd, g, #[trigger] runs(gd, removed, g)[j].0),
    decreases g + 1,
{
    if g >= 0 {
        let e = merged(gd, removed, g, gd.2[g] as i32);
        lemma_merged_end(gd, removed, g, gd.2[g] as i32);
        lemma_runs_tops(gd, removed, e.0 - 1);
        let rest = runs(gd, removed, e.0 - 1);
        let all = runs(gd, removed, g);
        assert(all == seq![(gd.1[g] as int, e.1)] + rest);
        assert forall|j: int| 0 <= j < all.len() implies group_top(gd, g, #[trigger] all[j].0) by {
            if j == 0 {
                assert(gd.1[g] as int == all[0].0);
            } else {
                assert(all[j] == rest[j - 1]);
                assert(group_top(gd, e.0 - 1, rest[j - 1].0));
                let g2 = choose|g2: int| 0 <= g2 <= e.0 - 1 && #[trigger] gd.1[g2] as int == rest[j - 1].0;
                assert(gd.1[g2] as int == all[j].0);
            }
        }
    }
}

/// The ranks a run gathers form a rank set.
pub proof fn lemma_merged_small(gd: GroupView, removed: i32, g: int, acc: i32)
    requires
        0 <= acc < 8192,
        gd.3.len() == 7,
        forall|j: int| 0 <= j < 7 ==> #[trigger] gd.3[j] < 8192,
        g <= 6,
    ensures
        0 <= merged(gd, removed, g, acc).1 < 8192,
    decreases g,
{
    if crate::moves::joins(gd, removed, g) {
        let x = gd.3[g - 1];
        let a2 = acc | (x as i32);
        assert(0 <= a2 < 8192) by (bit_vector)
            requires
                0 <= acc < 8192,
                x < 8192,
                a2 == acc | (x as i32),
        ;
        lemma_merged_small(gd, removed, g - 1, a2);
    }
}

/// The ranks every run stands for form a rank set.
pub proof fn lemma_runs_small(gd: GroupView, removed: i32, g: int)
    requires
        gd.2.len() == 7,
        gd.3.len() == 7,
        forall|j: int| 0 <= j < 7 ==> #[trigger] gd.2[j] < 8192,
        forall|j: int| 0 <= j < 7 ==> #[trigger] gd.3[j] < 8192,
        g <= 6,
    ensures
        forall|j: int| 0 <= j < runs(gd, removed, g).len() ==> 0 <= #[trigger] runs(gd, removed, g)[j].1 < 8192,
    decreases g + 1,
{
    if g >= 0 {
        let e = merged(gd, removed, g, gd.2[g] as i32);
        lemma_merged_end(gd, removed, g, gd.2[g] as i32);
        lemma_merged_small(gd, removed, g, gd.2[g] as i32);
        lemma_runs_small(gd, removed, e.0 - 1);
        let rest = runs(gd, removed, e.0 - 1);
        let all = runs(gd, removed, g);
        assert(all == seq![(gd.1[g] as int, e.1)] + rest);
        assert forall|j: int| 0 <= j < all.len() implies 0 <= #[trigger] all[j].1 < 8192 by {
            if j > 0 {
                assert(all[j] == rest[j - 1]);
            }
        }
    }
}

/// The candidates of `hand` in suit `s` are cards that it holds.
pub proof fn lemma_suit_cands_held(p: Pos, hand: int, s: int, removed: i32)
    requires
        pos_wf(p),
        0 <= hand < 4,
        0 <= s < 4,
    ensures
        cands_held(p, hand, suit_cands(p, hand, s, removed)),
{
    let x = p.rank_in_suit[hand][s];
    let gd = group_data(x as nat);
    lemma_group_ranks(x as nat);
    lemma_group_held(x as nat);
    crate::groups::lemma_group_seqs_small(x as nat);
    lemma_runs_tops(gd, removed, gd.0);
    lemma_runs_small(gd, removed, gd.0);
    let rs = runs(gd, removed, gd.0);
    let c = suit_cands(p, hand, s, removed);
    assert forall|j: int| 0 <= j < c.len() implies #[trigger] holds_card(p, hand, c[j]) by {
        assert(c[j] == ExtCard { suit: s as i32, rank: rs[j].0 as i32, sequence: rs[j].1 });
        assert(group_top(gd, gd.0, rs[j].0));
        let g2 = choose|g2: int| 0 <= g2 <= gd.0 && #[trigger] gd.1[g2] as int == rs[j].0;
        assert(2 <= gd.1[g2] <= 14);
        lemma_nbit_has_rank(x, gd.1[g2] as int);
    }
}

/// The candidates of `hand` in all suits are cards that it holds.
pub proof fn lemma_all_cands_held(p: Pos, hand: int, rr: Seq<i32>)
    requires
        pos_wf(p),
        0 <= hand < 4,
        rr.len() == 4,
    ensures
        cands_held(p, hand, all_cands(p, hand, rr)),
{
    lemma_suit_cands_held(p, hand, 0, rr[0]);
    lemma_suit_cands_held(p, hand, 1, rr[1]);
    lemma_suit_cands_held(p, hand, 2, rr[2]);
    lemma_suit_cands_held(p, hand, 3, rr[3]);
    let c0 = suit_cands(p, hand, 0, rr[0]);
    let c1 = suit_cands(p, hand, 1, rr[1]);
    let c2 = suit_cands(p, hand, 2, rr[2]);
    let c3 = suit_cands(p, hand, 3, rr[3]);
    let a = c0 + c1 + c2 + c3;
    assert forall|j: int| 0 <= j < a.len() implies #[trigger] holds_card(p, hand, a[j]) by {
        if j < c0.len() {
            assert(a[j] == c0[j]);
        } else if j < c0.len() + c1.len() {
            assert(a[j] == c1[j - c0.len()]);
        } else if j < c0.len() + c1.len() + c2.len() {
            assert(a[j] == c2[j - c0.len() - c1.len()]);
        } else {
            assert(a[j] == c3[j - c0.len() - c1.len() - c2.len()]);
        }
    }
}

/// The candidates of a follower are cards that it holds.
pub proof fn lemma_follower_cands_held(p: Pos, hand: int, tr: Track)
    requires
        pos_wf(p),
        0 <= hand < 4,
        0 <= tr.lead_suit < 4,
    ensures
        cands_held(p, hand, follower_cands(p, hand, tr)),
{
    if p.rank_in_suit[hand][tr.lead_suit as int] != 0 {
        lemma_suit_cands_held(p, hand, tr.lead_suit as int, tr.removed_ranks[tr.lead_suit as int]);
    } else {
        lemma_all_cands_held(p, hand, tr.removed_ranks@);
    }
}

/// A list written from held candidates holds only held cards.
pub proof fn lemma_generated_held(p: Pos, h: int, pre: MovePly, c: Seq<ExtCard>, old: MovePly)
    requires
        generated(pre, c, old),
        cands_held(p, h, c),
    ensures
        ply_held(p, h, pre),
{
    assert forall|k: int| 0 <= k <= pre.last implies #[trigger] holds_move(p, h, pre.moves[k]) by {
        assert(ext_of(pre.moves[k]) == c[k]);
        assert(holds_card(p, h, c[k]));
    }
}

/// Sorting a list of held cards keeps it a list of held cards.
pub proof fn lemma_sorted_held(p: Pos, h: int, a: MovePly, b: MovePly)
    requires
        sorted_ply(a, b),
        ply_held(p, h, a),
        -1 <= a.last <= 13,
    ensures
        ply_held(p, h, b),
{
    broadcast use vstd::seq_lib::group_to_multiset_ensures;
    let n = a.last + 1;
    let am = a.moves@;
    let bm = b.moves@;
    let a1 = am.subrange(0, n);
    let a2 = am.subrange(n, 14);
    let b1 = bm.subrange(0, n);
    let b2 = bm.subrange(n, 14);
    assert(am == a1 + a2);
    assert(bm == b1 + b2);
    assert(a2 == b2);
    vstd::seq_lib::lemma_multiset_commutative(a1, a2);
    vstd::seq_lib::lemma_multiset_commutative(b1, b2);
    assert(a1.to_multiset() =~= b1.to_multiset()) by {
        assert forall|x: MoveType| a1.to_multiset().count(x) == b1.to_multiset().count(x) by {
            assert(am.to_multiset().count(x) == a1.to_multiset().count(x) + a2.to_multiset().count(x));
            assert(bm.to_multiset().count(x) == b1.to_multiset().count(x) + b2.to_multiset().count(x));
        }
    }
    assert forall|k: int| 0 <= k <= b.last implies #[trigger] holds_move(p, h, b.moves[k]) by {
        assert(b1[k] == b.moves[k]);
        assert(b1.contains(b.moves[k]));
        assert(b1.to_multiset().count(b.moves[k]) > 0);
        assert(a1.contains(b.moves[k]));
        let j = choose|j: int| 0 <= j < a1.len() && a1[j] == b.moves[k];
        assert(a.moves[j] == b.moves[k]);
    }
}

/// Dropping moves from a list of held cards keeps it a list of held cards.
pub proof fn lemma_purged_sub(l: Seq<MoveType>, fb: Seq<MoveType>, n: int, x: MoveType)
    requires
        purged(l, fb, n).contains(x),
    ensures
        l.contains(x),
    decreases n,
{
    if n > 1 {
        let pp = purged(l, fb, n - 1);
        let m = fb[n - 1];
        if m.rank != 0 {
            pp.lemma_filter_contains_rev(crate::moves::not_move(m), x);
        }
        lemma_purged_sub(l, fb, n - 1, x);
    }
}

/// A list whose valid moves are drawn from a list of held cards holds only
/// held cards.
pub proof fn lemma_live_held(p: Pos, h: int, a: MovePly, b: MovePly)
    requires
        ply_held(p, h, a),
        -1 <= a.last <= 13,
        -1 <= b.last <= 13,
        forall|x: MoveType| live(b).contains(x) ==> live(a).contains(x),
    ensures
        ply_held(p, h, b),
{
    assert forall|k: int| 0 <= k <= b.last implies #[trigger] holds_move(p, h, b.moves[k]) by {
        assert(live(b)[k] == b.moves[k]);
        assert(live(b).contains(b.moves[k]));
        let j = choose|j: int| 0 <= j < live(a).len() && live(a)[j] == b.moves[k];
        assert(a.moves[j] == b.moves[k]);
    }
}

/// A list generated from held candidates, sorted or not, holds only held
/// cards.
pub proof fn lemma_gen_held(p: Pos, h: int, c: Seq<ExtCard>, old: MovePly, new: MovePly, r: int)
    requires
        cands_held(p, h, c),
        r == c.len(),
        r <= 14,
        exists|pre: MovePly| #![trigger generated(pre, c, old)]
            generated(pre, c, old) && (r == 1 ==> new == pre) && (r != 1 ==> sorted_ply(pre, new)),
    ensures
        ply_held(p, h, new),
{
    let pre = choose|pre: MovePly| #![trigger generated(pre, c, old)]
        generated(pre, c, old) && (r == 1 ==> new == pre) && (r != 1 ==> sorted_ply(pre, new));
    lemma_generated_held(p, h, pre, c, old);
    if r != 1 {
        lemma_sorted_held(p, h, pre, new);
    }
}

/// Forbidding only moves of rank 0 drops nothing.
pub proof fn lemma_purged_none(l: Seq<MoveType>, fb: Seq<MoveType>, n: int)
    requires
        forall|i: int| 0 <= i < fb.len() ==> #[trigger] fb[i].rank == 0,
        n <= fb.len(),
    ensures
        purged(l, fb, n) == l,
    decreases n,
{
    if n > 1 {
        lemma_purged_none(l, fb, n - 1);
    }
}

/// A hand holding a card of suit `s` has a candidate in it.
pub proof fn lemma_suit_cands_nonempty(p: Pos, hand: int, s: int, removed: i32)
    requires
        pos_wf(p),
        0 <= hand < 4,
        0 <= s < 4,
        p.rank_in_suit[hand][s] != 0,
    ensures
        suit_cands(p, hand, s, removed).len() >= 1,
{
    let x = p.rank_in_suit[hand][s];
    crate::lookup::lemma_group_bounds(x as nat);
    let gd = group_data(x as nat);
    let e = crate::moves::merged(gd, removed, gd.0, gd.2[gd.0] as i32);
    lemma_merged_end(gd, removed, gd.0, gd.2[gd.0] as i32);
    assert(runs(gd, removed, gd.0) == seq![(gd.1[gd.0] as int, e.1)] + runs(gd, removed, e.0 - 1));
}

/// A follower holding a card has a candidate.
pub proof fn lemma_follower_cands_nonempty(p: Pos, hand: int, tr: Track)
    requires
        pos_wf(p),
        0 <= hand < 4,
        0 <= tr.lead_suit < 4,
        p.rank_in_suit[hand][0] != 0 || p.rank_in_suit[hand][1] != 0 || p.rank_in_suit[hand][2] != 0
            || p.rank_in_suit[hand][3] != 0,
        tr.removed_ranks@.len() == 4,
    ensures
        follower_cands(p, hand, tr).len() >= 1,
{
    if p.rank_in_suit[hand][tr.lead_suit as int] != 0 {
        lemma_suit_cands_nonempty(p, hand, tr.lead_suit as int, tr.removed_ranks[tr.lead_suit as int]);
    } else {
        let rr = tr.removed_ranks@;
        if p.rank_in_suit[hand][0] != 0 {
            lemma_suit_cands_nonempty(p, hand, 0, rr[0]);
        } else if p.rank_in_suit[hand][1] != 0 {
            lemma_suit_cands_nonempty(p, hand, 1, rr[1]);
        } else if p.rank_in_suit[hand][2] != 0 {
            lemma_suit_cands_nonempty(p, hand, 2, rr[2]);
        } else {
            lemma_suit_cands_nonempty(p, hand, 3, rr[3]);
        }
    }
}

/// A hand of `n` cards has at most `n` groups.
pub proof fn lemma_hand_groups(p: Pos, h: int)
    requires
        pos_wf(p),
        0 <= h < 4,
    ensures
        hand_groups(p, h) <= popcount(p.rank_in_suit[h][0]) + popcount(p.rank_in_suit[h][1]) + popcount(
            p.rank_in_suit[h][2],
        ) + popcount(p.rank_in_suit[h][3]),
{
    lemma_group_count(p.rank_in_suit[h][0]);
    lemma_group_count(p.rank_in_suit[h][1]);
    lemma_group_count(p.rank_in_suit[h][2]);
    lemma_group_count(p.rank_in_suit[h][3]);
}

} // verus!
