//! Late-game forced-result detection.
//!
//! [`later_tricks_min`] returns `false` when MIN cannot be kept from
//! stopping the MAX side short of the target (a forced concede) and `true`
//! to continue the search; [`later_tricks_max`] returns `true` when MAX can
//! be sure of the target (a forced claim) and `false` to continue. When
//! they decide, they record in `win_ranks[depth]` the ranks the decision
//! rests on.
use vstd::prelude::*;
use crate::lookup::{BIT_MAP_RANK, LHO, PARTNER, RHO, has_rank, rank_in};
use crate::pos::{Pos, pos_wf, same_but_win_row};
use crate::quick_tricks::{DDS_NOTRUMP, MAXNODE, MINNODE};

verus! {

/// The partner of hand `h`.
pub open spec fn partner_of(h: int) -> int {
    (h + 2) % 4
}

/// The left-hand opponent of hand `h`.
pub open spec fn lho_of(h: int) -> int {
    (h + 1) % 4
}

/// The right-hand opponent of hand `h`.
pub open spec fn rho_of(h: int) -> int {
    (h + 3) % 4
}

/// The larger of two integers.
pub open spec fn max_int(a: int, b: int) -> int {
    if a > b {
        a
    } else {
        b
    }
}

/// A win-ranks row of zeros.
pub open spec fn zero_row() -> Seq<u16> {
    Seq::new(4, |s: int| 0u16)
}

/// A win-ranks row of zeros but `v` in suit `t`.
pub open spec fn trump_row(t: int, v: u16) -> Seq<u16> {
    Seq::new(4, |s: int| if s == t { v } else { 0u16 })
}

/// Tricks the side `node` can run in suit `ss` with the suit's top card:
/// the longer of the winner's and its partner's holding.
pub open spec fn run_length(p: Pos, nts: [i32; 4], node: i32, ss: int) -> int {
    let hh = p.winner[ss].hand as int;
    if hh != -1 && nts[hh] == node {
        max_int(p.length[hh][ss] as int, p.length[partner_of(hh)][ss] as int)
    } else {
        0
    }
}

/// Sum of [`run_length`] over the four suits.
pub open spec fn run_sum(p: Pos, nts: [i32; 4], node: i32) -> int {
    run_length(p, nts, node, 0) + run_length(p, nts, node, 1) + run_length(p, nts, node, 2)
        + run_length(p, nts, node, 3)
}

/// The notrump row: the top rank of each suit whose winner is on side
/// `node` and whose other hands still hold the suit.
pub open spec fn top_row(p: Pos, nts: [i32; 4], node: i32) -> Seq<u16> {
    Seq::new(
        4,
        |ss: int|
            {
                let wh = p.winner[ss].hand as int;
                if wh == -1 {
                    0u16
                } else if nts[wh] == node {
                    if p.rank_in_suit[partner_of(wh)][ss] == 0 && p.rank_in_suit[lho_of(wh)][ss]
                        == 0 && p.rank_in_suit[rho_of(wh)][ss] == 0 {
                        0u16
                    } else {
                        BIT_MAP_RANK[p.winner[ss].rank as int]
                    }
                } else {
                    0u16
                }
            },
    )
}

/// The `k`-th highest rank of `aggr` among ranks `2..=r`, or 0.
pub open spec fn kth_rank(aggr: u16, k: int, r: int) -> int
    decreases r,
{
    if r < 2 {
        0
    } else if has_rank(aggr, r) {
        if k == 1 {
            r
        } else {
            kth_rank(aggr, k - 1, r - 1)
        }
    } else {
        kth_rank(aggr, k, r - 1)
    }
}

/// The first hand (in seat order) holding rank `r` of `suit`, or -1.
pub open spec fn holder(ris: [[u16; 4]; 4], suit: int, r: int) -> int {
    if has_rank(ris[0][suit], r) {
        0
    } else if has_rank(ris[1][suit], r) {
        1
    } else if has_rank(ris[2][suit], r) {
        2
    } else if has_rank(ris[3][suit], r) {
        3
    } else {
        -1
    }
}

/// The rank and holder of the `k`-th highest card of `aggr` in `suit`;
/// `(0, -1)` when there is none.
pub open spec fn abs_rank_spec(ris: [[u16; 4]; 4], aggr: u16, k: int, suit: int) -> (int, int) {
    let r = kth_rank(aggr, k, 14);
    if r == 0 {
        (0, -1)
    } else {
        (r, holder(ris, suit, r))
    }
}

/// The `k`-th highest card of `aggr` in `suit` and the hand holding it.
fn abs_rank(rank_in_suit: &[[u16; 4]; 4], aggr: u16, k: usize, suit: usize) -> (r: (i32, i32))
    requires
        1 <= k <= 13,
        suit < 4,
    ensures
        (r.0 as int, r.1 as int) == abs_rank_spec(*rank_in_suit, aggr, k as int, suit as int),
        0 <= r.0 <= 14,
        -1 <= r.1 <= 3,
        r.0 == 0 ==> r.1 == -1,
{
    let mut count: usize = 0;
    let mut r: usize = 14;
    while r >= 2
        invariant
            1 <= r <= 14,
            suit < 4,
            count < k <= 13,
            kth_rank(aggr, k as int, 14) == kth_rank(aggr, (k - count) as int, r as int),
        decreases r,
    {
        if rank_in(aggr, r) {
            count = count + 1;
            if count == k {
                assert(kth_rank(aggr, k as int, 14) == r as int);
                let mut h: usize = 0;
                while h < 4
                    invariant
                        h <= 4,
                        2 <= r <= 14,
                        suit < 4,
                        kth_rank(aggr, k as int, 14) == r as int,
                        forall|j: int| 0 <= j < h ==> !has_rank(rank_in_suit[j][suit as int], r as int),
                    decreases 4 - h,
                {
                    if rank_in(rank_in_suit[h][suit], r) {
                        return (r as i32, h as i32);
                    }
                    h = h + 1;
                }
                return (r as i32, -1);
            }
        }
        if r == 2 {
            assert(kth_rank(aggr, (k - count) as int, 1) == 0);
            return (0, -1);
        }
        r = r - 1;
    }
    (0, -1)
}

/// The decision of [`later_tricks_min`] and the row it records, if any.
pub open spec fn later_min_spec(
    p: Pos,
    hand: int,
    depth: int,
    target: int,
    trump: int,
    nts: [i32; 4],
) -> (bool, Option<Seq<u16>>) {
    let d4 = depth / 4;
    let tm = p.tricks_max as int;
    if trump == 4 || p.winner[trump].rank == 0 {
        let sum = run_sum(p, nts, MAXNODE);
        if tm + sum < target && sum > 0 {
            if tm + d4 >= target {
                (true, None)
            } else {
                (false, Some(top_row(p, nts, MINNODE)))
            }
        } else {
            (true, None)
        }
    } else if nts[p.winner[trump].hand as int] == MINNODE {
        if p.length[hand][trump] == 0 && p.length[partner_of(hand)][trump] == 0 {
            if tm + d4 + 1 - max_int(
                p.length[lho_of(hand)][trump] as int,
                p.length[rho_of(hand)][trump] as int,
            ) < target {
                (false, Some(zero_row()))
            } else {
                (true, None)
            }
        } else if tm + d4 < target {
            (false, Some(trump_row(trump, BIT_MAP_RANK[p.winner[trump].rank as int])))
        } else if tm + d4 == target {
            let hh = p.second_best[trump].hand as int;
            let r2 = p.second_best[trump].rank as int;
            if hh == -1 {
                (true, None)
            } else if nts[hh] == MINNODE && r2 != 0 && (p.length[hh][trump] > 1
                || p.length[partner_of(hh)][trump] > 1) {
                (false, Some(trump_row(trump, BIT_MAP_RANK[r2])))
            } else {
                (true, None)
            }
        } else {
            (true, None)
        }
    } else {
        let hh = p.second_best[trump].hand as int;
        if hh == -1 {
            (true, None)
        } else if nts[hh] != MINNODE || p.length[hh][trump] <= 1 {
            (true, None)
        } else if p.winner[trump].hand as int == rho_of(hh) {
            if tm + d4 < target {
                (false, Some(trump_row(trump, BIT_MAP_RANK[p.second_best[trump].rank as int])))
            } else {
                (true, None)
            }
        } else {
            let (third_rank, h) = abs_rank_spec(p.rank_in_suit, p.aggr[trump], 3, trump);
            if h == -1 {
                (true, None)
            } else if nts[h] == MINNODE && tm + d4 < target {
                (false, Some(trump_row(trump, BIT_MAP_RANK[third_rank])))
            } else {
                (true, None)
            }
        }
    }
}

/// The decision of [`later_tricks_max`] and the row it records, if any.
pub open spec fn later_max_spec(
    p: Pos,
    hand: int,
    depth: int,
    target: int,
    trump: int,
    nts: [i32; 4],
) -> (bool, Option<Seq<u16>>) {
    let d4 = depth / 4;
    let tm = p.tricks_max as int;
    if trump == 4 || p.winner[trump].rank == 0 {
        let sum = run_sum(p, nts, MINNODE);
        if tm + d4 + 1 - sum >= target && sum > 0 {
            if tm + 1 < target {
                (false, None)
            } else {
                (true, Some(top_row(p, nts, MAXNODE)))
            }
        } else {
            (false, None)
        }
    } else if nts[p.winner[trump].hand as int] == MAXNODE {
        if p.length[hand][trump] == 0 && p.length[partner_of(hand)][trump] == 0 {
            let maxlen = max_int(
                p.length[lho_of(hand)][trump] as int,
                p.length[rho_of(hand)][trump] as int,
            );
            if tm + maxlen >= target {
                (true, Some(zero_row()))
            } else {
                (false, None)
            }
        } else if tm + 1 >= target {
            (true, Some(trump_row(trump, BIT_MAP_RANK[p.winner[trump].rank as int])))
        } else {
            let hh = p.second_best[trump].hand as int;
            if hh == -1 {
                (false, None)
            } else if nts[hh] == MAXNODE && p.second_best[trump].rank != 0 && (p.length[hh][trump]
                > 1 || p.length[partner_of(hh)][trump] > 1) && tm + 2 >= target {
                (true, Some(trump_row(trump, BIT_MAP_RANK[p.second_best[trump].rank as int])))
            } else {
                (false, None)
            }
        }
    } else {
        let hh = p.second_best[trump].hand as int;
        if hh == -1 {
            (false, None)
        } else if nts[hh] != MAXNODE || p.length[hh][trump] <= 1 {
            (false, None)
        } else if p.winner[trump].hand as int == rho_of(hh) {
            if tm + 1 >= target {
                (true, Some(trump_row(trump, BIT_MAP_RANK[p.second_best[trump].rank as int])))
            } else {
                (false, None)
            }
        } else {
            let (third_rank, h) = abs_rank_spec(p.rank_in_suit, p.aggr[trump], 3, trump);
            if h == -1 {
                (false, None)
            } else if nts[h] == MAXNODE && tm + 1 >= target {
                (true, Some(trump_row(trump, BIT_MAP_RANK[third_rank])))
            } else {
                (false, None)
            }
        }
    }
}

/// The effect of a decision on the position: the recorded row, if any,
/// replaces `win_ranks[depth]`; nothing else changes.
pub open spec fn records(old_pos: Pos, new_pos: Pos, depth: int, row: Option<Seq<u16>>) -> bool {
    &&& same_but_win_row(old_pos, new_pos, depth)
    &&& match row {
        Some(r) => new_pos.win_ranks[depth]@ == r,
        None => new_pos.win_ranks[depth] == old_pos.win_ranks[depth],
    }
}

/// Common preconditions of the later-tricks heuristics.
pub open spec fn later_args_ok(p: Pos, hand: int, depth: int, target: int, trump: int) -> bool {
    &&& pos_wf(p)
    &&& 0 <= hand < 4
    &&& 0 <= depth < 50
    &&& -100 <= target <= 100
    &&& 0 <= trump <= 4
}

/// The notrump row, built suit by suit.
fn build_top_row(tpos: &Pos, nts: &[i32; 4], node: i32) -> (row: [u16; 4])
    requires
        pos_wf(*tpos),
    ensures
        row@ == top_row(*tpos, *nts, node),
{
    let mut row: [u16; 4] = [0u16; 4];
    let mut ss: usize = 0;
    while ss < 4
        invariant
            ss <= 4,
            pos_wf(*tpos),
            forall|s: int| 0 <= s < ss ==> row@[s] == top_row(*tpos, *nts, node)[s],
        decreases 4 - ss,
    {
        assert(crate::pos::high_card_wf(tpos.winner[ss as int]));
        let win_hand = tpos.winner[ss].hand;
        if win_hand == -1 {
            row[ss] = 0;
        } else if nts[win_hand as usize] == node {
            let wh = win_hand as usize;
            if tpos.rank_in_suit[PARTNER[wh]][ss] == 0 && tpos.rank_in_suit[LHO[wh]][ss] == 0
                && tpos.rank_in_suit[RHO[wh]][ss] == 0 {
                row[ss] = 0;
            } else {
                row[ss] = BIT_MAP_RANK[tpos.winner[ss].rank as usize];
            }
        } else {
            row[ss] = 0;
        }
        ss = ss + 1;
    }
    assert(row@ =~= top_row(*tpos, *nts, node));
    row
}

/// The sum of the runs of side `node`.
fn run_total(tpos: &Pos, nts: &[i32; 4], node: i32) -> (sum: i32)
    requires
        pos_wf(*tpos),
    ensures
        sum == run_sum(*tpos, *nts, node),
        0 <= sum <= 52,
{
    let mut sum: i32 = 0;
    let mut ss: usize = 0;
    while ss < 4
        invariant
            ss <= 4,
            pos_wf(*tpos),
            0 <= sum <= 13 * ss,
            sum == (if ss > 0 {
                run_length(*tpos, *nts, node, 0)
            } else {
                0
            }) + (if ss > 1 {
                run_length(*tpos, *nts, node, 1)
            } else {
                0
            }) + (if ss > 2 {
                run_length(*tpos, *nts, node, 2)
            } else {
                0
            }) + (if ss > 3 {
                run_length(*tpos, *nts, node, 3)
            } else {
                0
            }),
        decreases 4 - ss,
    {
        assert(crate::pos::high_card_wf(tpos.winner[ss as int]));
        let hh = tpos.winner[ss].hand;
        if hh != -1 && nts[hh as usize] == node {
            let a = tpos.length[hh as usize][ss] as i32;
            let b = tpos.length[PARTNER[hh as usize]][ss] as i32;
            sum = sum + if a > b {
                a
            } else {
                b
            };
        }
        ss = ss + 1;
    }
    sum
}

/// A row of zeros but `v` in suit `t`.
fn make_trump_row(t: usize, v: u16) -> (row: [u16; 4])
    requires
        t < 4,
    ensures
        row@ == trump_row(t as int, v),
{
    let mut row: [u16; 4] = [0u16; 4];
    row[t] = v;
    assert(row@ =~= trump_row(t as int, v));
    row
}

/// A recorded row, if any, is four rank sets.
pub open spec fn rows_small(row: Option<Seq<u16>>) -> bool {
    match row {
        Some(r) => r.len() == 4 && forall|s: int| 0 <= s < 4 ==> #[trigger] r[s] < 8192,
        None => true,
    }
}

/// The bit of a rank up to the ace is a rank set.
pub proof fn lemma_bit_map_small(r: int)
    requires
        0 <= r <= 14,
    ensures
        BIT_MAP_RANK[r] < 8192,
{
    if r >= 2 {
        crate::lookup::lemma_bit_map_rank(r);
        let s = (r - 2) as u16;
        assert(s < 13 ==> (1u16 << s) < 8192) by (bit_vector);
    }
}

/// The `k`-th highest rank is a rank.
proof fn lemma_kth_rank_bound(aggr: u16, k: int, r: int)
    requires
        r <= 14,
    ensures
        0 <= kth_rank(aggr, k, r) <= 14,
    decreases r,
{
    if r >= 2 {
        lemma_kth_rank_bound(aggr, k - 1, r - 1);
        lemma_kth_rank_bound(aggr, k, r - 1);
    }
}

/// The rows that the later-tricks heuristics record are rows of rank sets.
pub proof fn lemma_later_rows_small(p: Pos, hand: int, depth: int, target: int, trump: int, nts: [i32; 4])
    requires
        later_args_ok(p, hand, depth, target, trump),
    ensures
        rows_small(later_min_spec(p, hand, depth, target, trump, nts).1),
        rows_small(later_max_spec(p, hand, depth, target, trump, nts).1),
{
    assert forall|s: int| 0 <= s < 4 implies #[trigger] zero_row()[s] < 8192 by {}
    assert forall|s: int| 0 <= s < 4 implies #[trigger] top_row(p, nts, MINNODE)[s] < 8192 by {
        assert(crate::pos::high_card_wf(p.winner[s]));
        lemma_bit_map_small(p.winner[s].rank as int);
    }
    assert forall|s: int| 0 <= s < 4 implies #[trigger] top_row(p, nts, MAXNODE)[s] < 8192 by {
        assert(crate::pos::high_card_wf(p.winner[s]));
        lemma_bit_map_small(p.winner[s].rank as int);
    }
    if trump != 4 {
        assert(crate::pos::high_card_wf(p.winner[trump]));
        assert(crate::pos::high_card_wf(p.second_best[trump]));
        lemma_bit_map_small(p.winner[trump].rank as int);
        lemma_bit_map_small(p.second_best[trump].rank as int);
        lemma_kth_rank_bound(p.aggr[trump], 3, 14);
        lemma_bit_map_small(kth_rank(p.aggr[trump], 3, 14));
        assert forall|v: u16, s: int| v < 8192 && 0 <= s < 4 implies #[trigger] trump_row(trump, v)[s] < 8192 by {}
        assert(rows_small(Some(trump_row(trump, BIT_MAP_RANK[p.winner[trump].rank as int]))));
        assert(rows_small(Some(trump_row(trump, BIT_MAP_RANK[p.second_best[trump].rank as int]))));
        assert(rows_small(Some(trump_row(trump, BIT_MAP_RANK[kth_rank(p.aggr[trump], 3, 14)]))));
    }
    assert(rows_small(Some(zero_row())));
    assert(rows_small(Some(top_row(p, nts, MAXNODE))));
    assert(rows_small(Some(top_row(p, nts, MINNODE))));
}

/// MIN-side end-game pruning: `false` when MIN can keep MAX short of
/// `target` for sure, `true` to continue the search.
#[verifier::rlimit(80)]
#[verifier::spinoff_prover]
pub fn later_tricks_min(
    tpos: &mut Pos,
    hand: i32,
    depth: i32,
    target: i32,
    trump: i32,
    node_type_store: &[i32; 4],
) -> (r: bool)
    requires
        later_args_ok(*old(tpos), hand as int, depth as int, target as int, trump as int),
    ensures
        r == later_min_spec(
            *old(tpos),
            hand as int,
            depth as int,
            target as int,
            trump as int,
            *node_type_store,
        ).0,
        records(
            *old(tpos),
            *final(tpos),
            depth as int,
            later_min_spec(
                *old(tpos),
                hand as int,
                depth as int,
                target as int,
                trump as int,
                *node_type_store,
            ).1,
        ),
{
    let hand_u = hand as usize;
    let depth_u = depth as usize;
    let d4 = depth >> 2;
    assert(d4 == depth / 4) by (bit_vector)
        requires
            0 <= depth < 50,
            d4 == depth >> 2,
    ;
    let ghost p = *tpos;
    if trump != DDS_NOTRUMP {
        assert(crate::pos::high_card_wf(tpos.winner[trump as int]));
        assert(crate::pos::high_card_wf(tpos.second_best[trump as int]));
    }
    if trump == DDS_NOTRUMP || tpos.winner[trump as usize].rank == 0 {
        let sum = run_total(tpos, node_type_store, MAXNODE);
        if tpos.tricks_max + sum < target && sum > 0 {
            if tpos.tricks_max + d4 >= target {
                return true;
            }
            let row = build_top_row(tpos, node_type_store, MINNODE);
            tpos.win_ranks[depth_u] = row;
            return false;
        }
    } else if node_type_store[tpos.winner[trump as usize].hand as usize] == MINNODE {
        let tu = trump as usize;
        if tpos.length[hand_u][tu] == 0 && tpos.length[PARTNER[hand_u]][tu] == 0 {
            let a = tpos.length[LHO[hand_u]][tu] as i32;
            let b = tpos.length[RHO[hand_u]][tu] as i32;
            let m = if a > b {
                a
            } else {
                b
            };
            if tpos.tricks_max + d4 + 1 - m < target {
                tpos.win_ranks[depth_u] = [0u16; 4];
                assert(tpos.win_ranks[depth as int]@ =~= zero_row());
                return false;
            }
        } else if tpos.tricks_max + d4 < target {
            let row = make_trump_row(tu, BIT_MAP_RANK[tpos.winner[tu].rank as usize]);
            tpos.win_ranks[depth_u] = row;
            return false;
        } else if tpos.tricks_max + d4 == target {
            let hh = tpos.second_best[tu].hand;
            if hh == -1 {
                return true;
            }
            let r2 = tpos.second_best[tu].rank;
            if node_type_store[hh as usize] == MINNODE && r2 != 0 && (tpos.length[hh as usize][tu] > 1
                || tpos.length[PARTNER[hh as usize]][tu] > 1) {
                let row = make_trump_row(tu, BIT_MAP_RANK[r2 as usize]);
                tpos.win_ranks[depth_u] = row;
                return false;
            }
        }
    } else {
        let tu = trump as usize;
        let hh = tpos.second_best[tu].hand;
        if hh == -1 {
            return true;
        }
        if node_type_store[hh as usize] != MINNODE || tpos.length[hh as usize][tu] <= 1 {
            return true;
        }
        if tpos.winner[tu].hand == RHO[hh as usize] as i32 {
            if tpos.tricks_max + d4 < target {
                let row = make_trump_row(tu, BIT_MAP_RANK[tpos.second_best[tu].rank as usize]);
                tpos.win_ranks[depth_u] = row;
                return false;
            }
        } else {
            let aggr = tpos.aggr[tu];
            let (third_rank, h) = abs_rank(&tpos.rank_in_suit, aggr, 3, tu);
            if h == -1 {
                return true;
            }
            if node_type_store[h as usize] == MINNODE && tpos.tricks_max + d4 < target {
                let row = make_trump_row(tu, BIT_MAP_RANK[third_rank as usize]);
                tpos.win_ranks[depth_u] = row;
                return false;
            }
        }
    }
    true
}

/// MAX-side end-game pruning: `true` when MAX can be sure of `target`,
/// `false` to continue the search.
#[verifier::rlimit(80)]
#[verifier::spinoff_prover]
pub fn later_tricks_max(
    tpos: &mut Pos,
    hand: i32,
    depth: i32,
    target: i32,
    trump: i32,
    node_type_store: &[i32; 4],
) -> (r: bool)
    requires
        later_args_ok(*old(tpos), hand as int, depth as int, target as int, trump as int),
    ensures
        r == later_max_spec(
            *old(tpos),
            hand as int,
            depth as int,
            target as int,
            trump as int,
            *node_type_store,
        ).0,
        records(
            *old(tpos),
            *final(tpos),
            depth as int,
            later_max_spec(
                *old(tpos),
                hand as int,
                depth as int,
                target as int,
                trump as int,
                *node_type_store,
            ).1,
        ),
{
    let hand_u = hand as usize;
    let depth_u = depth as usize;
    let d4 = depth >> 2;
    assert(d4 == depth / 4) by (bit_vector)
        requires
            0 <= depth < 50,
            d4 == depth >> 2,
    ;
    if trump != DDS_NOTRUMP {
        assert(crate::pos::high_card_wf(tpos.winner[trump as int]));
        assert(crate::pos::high_card_wf(tpos.second_best[trump as int]));
    }
    if trump == DDS_NOTRUMP || tpos.winner[trump as usize].rank == 0 {
        let sum = run_total(tpos, node_type_store, MINNODE);
        if tpos.tricks_max + d4 + 1 - sum >= target && sum > 0 {
            if tpos.tricks_max + 1 < target {
                return false;
            }
            let row = build_top_row(tpos, node_type_store, MAXNODE);
            tpos.win_ranks[depth_u] = row;
            return true;
        }
    } else if node_type_store[tpos.winner[trump as usize].hand as usize] == MAXNODE {
        let tu = trump as usize;
        if tpos.length[hand_u][tu] == 0 && tpos.length[PARTNER[hand_u]][tu] == 0 {
            let a = tpos.length[LHO[hand_u]][tu] as i32;
            let b = tpos.length[RHO[hand_u]][tu] as i32;
            let maxlen = if a > b {
                a
            } else {
                b
            };
            if tpos.tricks_max + maxlen >= target {
                tpos.win_ranks[depth_u] = [0u16; 4];
                assert(tpos.win_ranks[depth as int]@ =~= zero_row());
                return true;
            }
        } else if tpos.tricks_max + 1 >= target {
            let row = make_trump_row(tu, BIT_MAP_RANK[tpos.winner[tu].rank as usize]);
            tpos.win_ranks[depth_u] = row;
            return true;
        } else {
            let hh = tpos.second_best[tu].hand;
            if hh == -1 {
                return false;
            }
            if node_type_store[hh as usize] == MAXNODE && tpos.second_best[tu].rank != 0 && (
            tpos.length[hh as usize][tu] > 1 || tpos.length[PARTNER[hh as usize]][tu] > 1)
                && tpos.tricks_max + 2 >= target {
                let row = make_trump_row(tu, BIT_MAP_RANK[tpos.second_best[tu].rank as usize]);
                tpos.win_ranks[depth_u] = row;
                return true;
            }
        }
    } else {
        let tu = trump as usize;
        let hh = tpos.second_best[tu].hand;
        if hh == -1 {
            return false;
        }
        if node_type_store[hh as usize] != MAXNODE || tpos.length[hh as usize][tu] <= 1 {
            return false;
        }
        if tpos.winner[tu].hand == RHO[hh as usize] as i32 {
            if tpos.tricks_max + 1 >= target {
                let row = make_trump_row(tu, BIT_MAP_RANK[tpos.second_best[tu].rank as usize]);
                tpos.win_ranks[depth_u] = row;
                return true;
            }
        } else {
            let aggr = tpos.aggr[tu];
            let (third_rank, h) = abs_rank(&tpos.rank_in_suit, aggr, 3, tu);
            if h == -1 {
                return false;
            }
            if node_type_store[h as usize] == MAXNODE && tpos.tricks_max + 1 >= target {
                let row = make_trump_row(tu, BIT_MAP_RANK[third_rank as usize]);
                tpos.win_ranks[depth_u] = row;
                return true;
            }
        }
    }
    false
}

/// The combined decision of [`later_tricks`]: `Some(tricks_max)` when the
/// result is forced, `None` to continue.
pub open spec fn later_spec(
    p: Pos,
    hand: int,
    depth: int,
    target: int,
    trump: int,
    nts: [i32; 4],
) -> Option<i32> {
    let mn = later_min_spec(p, hand, depth, target, trump, nts);
    let mx = later_max_spec(p, hand, depth, target, trump, nts);
    if nts[hand] == MAXNODE {
        if !mn.0 {
            Some(p.tricks_max)
        } else if later_max_spec(p, hand, depth, target, trump, nts).0 {
            Some(p.tricks_max)
        } else {
            None
        }
    } else {
        if mx.0 {
            Some(p.tricks_max)
        } else if !later_min_spec(p, hand, depth, target, trump, nts).0 {
            Some(p.tricks_max)
        } else {
            None
        }
    }
}

/// The row that [`later_tricks`] records in `win_ranks[depth]`: that of the
/// heuristic that decided, none when neither did.
pub open spec fn later_row(
    p: Pos,
    hand: int,
    depth: int,
    target: int,
    trump: int,
    nts: [i32; 4],
) -> Option<Seq<u16>> {
    let mn = later_min_spec(p, hand, depth, target, trump, nts);
    let mx = later_max_spec(p, hand, depth, target, trump, nts);
    if nts[hand] == MAXNODE {
        if !mn.0 {
            mn.1
        } else if mx.0 {
            mx.1
        } else {
            None
        }
    } else {
        if mx.0 {
            mx.1
        } else if !mn.0 {
            mn.1
        } else {
            None
        }
    }
}

/// Consults the side of `hand` and asks both heuristics: `Some(tricks_max)`
/// when the result is forced, `None` when the search must continue.
pub fn later_tricks(
    tpos: &mut Pos,
    hand: i32,
    depth: i32,
    target: i32,
    trump: i32,
    node_type_store: &[i32; 4],
) -> (r: Option<i32>)
    requires
        later_args_ok(*old(tpos), hand as int, depth as int, target as int, trump as int),
    ensures
        r == later_spec(
            *old(tpos),
            hand as int,
            depth as int,
            target as int,
            trump as int,
            *node_type_store,
        ),
        same_but_win_row(*old(tpos), *final(tpos), depth as int),
        records(*old(tpos), *final(tpos), depth as int, later_row(*old(tpos), hand as int, depth as int, target as int,
            trump as int, *node_type_store)),
{
    if node_type_store[hand as usize] == MAXNODE {
        if !later_tricks_min(tpos, hand, depth, target, trump, node_type_store) {
            return Some(tpos.tricks_max);
        }
        if later_tricks_max(tpos, hand, depth, target, trump, node_type_store) {
            return Some(tpos.tricks_max);
        }
    } else {
        if later_tricks_max(tpos, hand, depth, target, trump, node_type_store) {
            return Some(tpos.tricks_max);
        }
        if !later_tricks_min(tpos, hand, depth, target, trump, node_type_store) {
            return Some(tpos.tricks_max);
        }
    }
    None
}

} // verus!
