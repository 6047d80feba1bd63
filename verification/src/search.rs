//! Per-deal tables of the search.
//!
//! Before a deal is searched, two tables are derived from the four hands:
//! for each suit and rank the seat that holds the card, and for every set
//! of cards still in play the rank and holder of its highest card, its
//! second highest, and so on. The search reads the winners of a suit and
//! the third card of a suit from the second table.
use vstd::prelude::*;
use crate::bits::{bit, ones_below, popcount, count_ones16, lemma_zero_iff_no_bits};
use crate::lookup::{
    build_win_ranks, has_rank, highest_at_most, highest_rank, lemma_bit_map_rank, rank_in, win_ranks, BIT_MAP_RANK,
};
use crate::bridge::Strain;
use crate::convert::dds_trump_from_strain;
use crate::move_type::{HighCard, MoveType};
use crate::moves::{all_cands, suit_count, AbsRank, ExtCard, Moves, RelRanks, Track};
use crate::later_tricks::{records, rows_small};
use crate::pos::same_but_win_row;
use crate::pos::{high_card_wf, pos_wf, Pos, MAX_DEPTH};
use crate::quick_tricks::{rel_ok, MAXNODE, MINNODE};
use crate::tt::{NodeCards, TransTable};
use crate::quick_tricks::{quick_tricks, quick_tricks_second_hand};
use crate::later_tricks::{later_tricks_max, later_tricks_min};

verus! {

/// The seat that holds rank `r` of suit `s`: the first of North, East,
/// South, West whose cards include it, North when nobody holds it.
pub open spec fn holder(ris: [[u16; 4]; 4], s: int, r: int) -> int {
    if has_rank(ris[0][s], r) {
        0
    } else if has_rank(ris[1][s], r) {
        1
    } else if has_rank(ris[2][s], r) {
        2
    } else if has_rank(ris[3][s], r) {
        3
    } else {
        0
    }
}

/// What `highest_at_most` finds: a rank that is present, or nothing at all
/// up to `m`.
proof fn lemma_highest_at_most_found(a: u16, m: int)
    ensures
        highest_at_most(a, m) != 0 ==> has_rank(a, highest_at_most(a, m)),
        highest_at_most(a, m) == 0 ==> forall|r: int| 2 <= r <= m ==> !#[trigger] has_rank(a, r),
    decreases m,
{
    if m >= 2 && !has_rank(a, m) {
        lemma_highest_at_most_found(a, m - 1);
    }
}

/// A rank set below 8192 has at most 13 cards.
pub proof fn lemma_popcount_small(a: u16)
    requires
        a < 8192,
    ensures
        popcount(a) <= 13,
{
    lemma_ones_below_le(a, 13);
    assert(a < 8192 ==> (a >> 13u16) & 1u16 != 1u16 && (a >> 14u16) & 1u16 != 1u16 && (a
        >> 15u16) & 1u16 != 1u16) by (bit_vector);
    assert(!bit(a, 13) && !bit(a, 14) && !bit(a, 15));
    assert(ones_below(a, 16) == ones_below(a, 13)) by {
        reveal_with_fuel(ones_below, 4);
    }
}

/// At most `n` of the bits `0..n` are set.
proof fn lemma_ones_below_le(a: u16, n: nat)
    ensures
        ones_below(a, n) <= n,
    decreases n,
{
    if n > 0 {
        lemma_ones_below_le(a, (n - 1) as nat);
    }
}

/// A non-empty rank set below 8192 has a highest card, and removing it
/// leaves a smaller number.
pub proof fn lemma_top_card(a: u16)
    requires
        0 < a < 8192,
    ensures
        2 <= highest_rank(a) <= 14,
        has_rank(a, highest_rank(a)),
        (a ^ BIT_MAP_RANK[highest_rank(a)]) < a,
{
    lemma_highest_at_most_found(a, 14);
    if highest_rank(a) == 0 {
        assert forall|i: nat| i < 16 implies !bit(a, i) by {
            if i < 13 {
                assert(!has_rank(a, i as int + 2));
            } else {
                let t = i as u16;
                assert(a < 8192 && 13 <= t < 16 ==> (a >> t) & 1u16 != 1u16) by (bit_vector);
            }
        }
        lemma_zero_iff_no_bits(a);
    }
    let t = highest_rank(a);
    assert(2 <= t <= 14) by {
        crate::lookup::lemma_lowest_rank_bound(a);
    }
    lemma_bit_map_rank(t);
    let sh = (t - 2) as u16;
    assert(sh < 13 && (a >> sh) & 1u16 == 1u16 ==> (a ^ (1u16 << sh)) < a) by (bit_vector);
}

/// `rel_entry(ris, a, k, s)`: the rank and holder of the `k`-th highest
/// card (1 the highest) of suit `s` among the ranks `a` still in play, the
/// holders taken from the hands `ris`. Past the last card the rank is 0
/// and the holder -1 (for `k` in `1..=13`); slots 0 and 14 stay zero.
pub open spec fn rel_entry(ris: [[u16; 4]; 4], a: u16, k: int, s: int) -> AbsRank
    decreases a,
{
    if a == 0 || a >= 8192 {
        if 1 <= k <= 13 {
            AbsRank { rank: 0i8, hand: -1i8 }
        } else {
            AbsRank { rank: 0, hand: 0 }
        }
    } else {
        proof {
            lemma_top_card(a);
        }
        let t = highest_rank(a);
        let rest = a ^ BIT_MAP_RANK[t];
        if k == 1 {
            AbsRank { rank: t as i8, hand: holder(ris, s, t) as i8 }
        } else if 2 <= k <= popcount(a) {
            rel_entry(ris, rest, k - 1, s)
        } else {
            rel_entry(ris, rest, k, s)
        }
    }
}

/// The seat holding rank `r` of suit `s`, as [`holder`] says.
fn holder_of(ris: &[[u16; 4]; 4], s: usize, r: usize) -> (h: i32)
    requires
        s < 4,
        2 <= r <= 14,
    ensures
        h == holder(*ris, s as int, r as int),
        0 <= h <= 3,
{
    if rank_in(ris[0][s], r) {
        0
    } else if rank_in(ris[1][s], r) {
        1
    } else if rank_in(ris[2][s], r) {
        2
    } else if rank_in(ris[3][s], r) {
        3
    } else {
        0
    }
}

/// `hand_lookup[s][r]`: the seat holding rank `r` of suit `s` (ranks
/// `2..=14`); the entries of ranks 0 and 1 are 0.
pub fn build_hand_lookup(rank_in_suit: &[[u16; 4]; 4]) -> (t: [[i32; 15]; 4])
    ensures
        forall|s: int, r: int| 0 <= s < 4 && 2 <= r <= 14 ==> #[trigger] t[s][r] == holder(
            *rank_in_suit,
            s,
            r,
        ),
        forall|s: int, r: int| 0 <= s < 4 && 0 <= r < 15 ==> 0 <= #[trigger] t[s][r] <= 3,
{
    let mut t: [[i32; 15]; 4] = [[0i32; 15]; 4];
    let mut s: usize = 0;
    while s < 4
        invariant
            s <= 4,
            forall|s2: int, r: int| 0 <= s2 < s && 2 <= r <= 14 ==> #[trigger] t[s2][r] == holder(
                *rank_in_suit,
                s2,
                r,
            ),
            forall|s2: int, r: int| 0 <= s2 < 4 && 0 <= r < 15 ==> 0 <= #[trigger] t[s2][r] <= 3,
        decreases 4 - s,
    {
        let mut row: [i32; 15] = [0i32; 15];
        let mut r: usize = 2;
        while r <= 14
            invariant
                2 <= r <= 15,
                s < 4,
                forall|r2: int| 2 <= r2 < r ==> #[trigger] row[r2] == holder(*rank_in_suit, s as int, r2),
                forall|r2: int| 0 <= r2 < 15 ==> 0 <= #[trigger] row[r2] <= 3,
            decreases 15 - r,
        {
            row[r] = holder_of(rank_in_suit, s, r);
            r += 1;
        }
        t[s] = row;
        s += 1;
    }
    t
}

/// The table of [`rel_entry`] for every rank set `0..8192` of one deal.
pub fn build_rel_for(rank_in_suit: &[[u16; 4]; 4]) -> (rel: Vec<RelRanks>)
    ensures
        rel@.len() == 8192,
        forall|a: int, k: int, s: int|
            0 <= a < 8192 && 0 <= k < 15 && 0 <= s < 4 ==> #[trigger] rel@[a].abs_rank[k][s]
                == rel_entry(*rank_in_suit, a as u16, k, s),
        rel_ok(rel@),
{
    let ghost ris = *rank_in_suit;
    let lookup = build_hand_lookup(rank_in_suit);
    let mut rel: Vec<RelRanks> = Vec::new();
    let mut e0 = RelRanks { abs_rank: [[AbsRank { rank: 0, hand: 0 }; 4]; 15] };
    let mut ord: usize = 1;
    while ord <= 13
        invariant
            1 <= ord <= 14,
            forall|k: int, s: int| 0 <= k < 15 && 0 <= s < 4 ==> #[trigger] e0.abs_rank[k][s] == (
            if 1 <= k < ord {
                AbsRank { rank: 0i8, hand: -1i8 }
            } else {
                AbsRank { rank: 0, hand: 0 }
            }),
        decreases 14 - ord,
    {
        e0.abs_rank[ord] = [AbsRank { rank: 0, hand: -1 }; 4];
        ord += 1;
    }
    rel.push(e0);
    let mut aggr: usize = 1;
    while aggr < 8192
        invariant
            1 <= aggr <= 8192,
            rel@.len() == aggr,
            ris == *rank_in_suit,
            forall|s: int, r: int| 0 <= s < 4 && 2 <= r <= 14 ==> #[trigger] lookup[s][r] == holder(
                ris,
                s,
                r,
            ),
            forall|a: int, k: int, s: int|
                0 <= a < aggr && 0 <= k < 15 && 0 <= s < 4 ==> #[trigger] rel@[a].abs_rank[k][s]
                    == rel_entry(ris, a as u16, k, s),
            forall|a: int, k: int, s: int|
                0 <= a < aggr && 0 <= k < 15 && 0 <= s < 4 ==> 0 <= (
                #[trigger] rel@[a].abs_rank[k][s]).rank <= 14 && -1 <= rel@[a].abs_rank[k][s].hand
                    <= 3,
        decreases 8192 - aggr,
    {
        let a: u16 = aggr as u16;
        proof {
            lemma_top_card(a);
            lemma_popcount_small(a);
        }
        let top = crate::quick_tricks::highest_of(a);
        let rest: u16 = a ^ BIT_MAP_RANK[top as usize];
        let ghost prev = rel@[rest as int];
        let mut e = rel[rest as usize];
        let weight = count_ones16(a) as usize;
        let mut c: usize = weight;
        while c >= 2
            invariant
                weight <= 13,
                0 <= c <= weight,
                weight >= 1 ==> c >= 1,
                forall|k: int, s: int| 0 <= k < 15 && 0 <= s < 4 ==> #[trigger] e.abs_rank[k][s] == (
                if c < k <= weight {
                    prev.abs_rank[k - 1][s]
                } else {
                    prev.abs_rank[k][s]
                }),
            decreases c,
        {
            e.abs_rank[c] = e.abs_rank[c - 1];
            c -= 1;
        }
        let mut s: usize = 0;
        while s < 4
            invariant
                s <= 4,
                2 <= top <= 14,
                forall|s2: int, r: int| 0 <= s2 < 4 && 2 <= r <= 14 ==> #[trigger] lookup[s2][r] == holder(
                    ris,
                    s2,
                    r,
                ),
                forall|k: int, s2: int| 0 <= k < 15 && 0 <= s2 < 4 ==> #[trigger] e.abs_rank[k][s2] == (
                if k == 1 && s2 < s {
                    AbsRank { rank: top as i8, hand: holder(ris, s2, top as int) as i8 }
                } else if 2 <= k <= weight {
                    prev.abs_rank[k - 1][s2]
                } else {
                    prev.abs_rank[k][s2]
                }),
            decreases 4 - s,
        {
            e.abs_rank[1][s] = AbsRank { rank: top as i8, hand: lookup[s][top as usize] as i8 };
            s += 1;
        }
        proof {
            assert forall|k: int, s2: int| 0 <= k < 15 && 0 <= s2 < 4 implies #[trigger] e.abs_rank[k][s2]
                == rel_entry(ris, a, k, s2) by {
                if 2 <= k <= weight {
                    assert(rel@[rest as int].abs_rank[k - 1][s2] == rel_entry(ris, rest, k - 1, s2));
                } else if k != 1 {
                    assert(rel@[rest as int].abs_rank[k][s2] == rel_entry(ris, rest, k, s2));
                }
            }
        }
        rel.push(e);
        aggr += 1;
    }
    rel
}

/// A table entry whose card, when there is one, has a holder.
pub open spec fn rel_holders_ok(rel: Seq<RelRanks>) -> bool {
    forall|a: int, k: int, s: int|
        0 <= a < rel.len() && 0 <= k < 15 && 0 <= s < 4 && #[trigger] rel[a].abs_rank[k][s].rank != 0
            ==> rel[a].abs_rank[k][s].hand >= 0
}

/// The table of [`rel_entry`] gives every card a holder.
proof fn lemma_rel_entry_holder(ris: [[u16; 4]; 4], a: u16, k: int, s: int)
    requires
        0 <= s < 4,
    ensures
        rel_entry(ris, a, k, s).rank != 0 ==> rel_entry(ris, a, k, s).hand >= 0,
        0 <= rel_entry(ris, a, k, s).rank <= 14,
        -1 <= rel_entry(ris, a, k, s).hand <= 3,
    decreases a,
{
    if a == 0 || a >= 8192 {
    } else {
        lemma_top_card(a);
        let t = highest_rank(a);
        let rest = a ^ BIT_MAP_RANK[t];
        if k == 1 {
        } else if 2 <= k <= popcount(a) {
            lemma_rel_entry_holder(ris, rest, k - 1, s);
        } else {
            lemma_rel_entry_holder(ris, rest, k, s);
        }
    }
}

/// How a played card of suit `s` changes the packed suit lengths of its
/// hand.
pub const HAND_DELTA: [i32; 4] = [256, 16, 1, 0];

/// The winner and second-best card of a suit before a trick changed them.
#[derive(Debug, Clone, Copy)]
pub struct WinnerEntry {
    pub suit: i32,
    pub winner_rank: i32,
    pub winner_hand: i32,
    pub second_rank: i32,
    pub second_hand: i32,
}

/// The suits whose top cards a trick changed, with their former values.
#[derive(Debug, Clone, Copy)]
pub struct Winners {
    pub number: i32,
    pub winner: [WinnerEntry; 4],
}

/// A saved entry that can be written back into a position.
pub open spec fn winner_entry_ok(e: WinnerEntry) -> bool {
    &&& 0 <= e.suit < 4
    &&& high_card_wf(HighCard { rank: e.winner_rank, hand: e.winner_hand })
    &&& high_card_wf(HighCard { rank: e.second_rank, hand: e.second_hand })
}

/// A saved list of entries, in increasing suit order, that can be
/// written back.
pub open spec fn winners_ok(w: Winners) -> bool {
    &&& 0 <= w.number <= 4
    &&& forall|n: int| 0 <= n < 4 ==> winner_entry_ok(#[trigger] w.winner[n])
    &&& forall|n: int, m: int| 0 <= n < m < w.number ==> #[trigger] w.winner[n].suit < #[trigger] w.winner[m].suit
}

/// `w` holds the top cards that position `a` had in the suits played to
/// the trick of `tr`, one entry per such suit.
pub open spec fn saved_top_cards(w: Winners, a: Pos, tr: Track) -> bool {
    &&& forall|n: int| 0 <= n < w.number ==> suit_count(tr, (#[trigger] w.winner[n]).suit as int) != 0
    &&& forall|n: int| 0 <= n < w.number ==> (#[trigger] w.winner[n]).winner_rank == a.winner[w.winner[n].suit as int].rank
        && w.winner[n].winner_hand == a.winner[w.winner[n].suit as int].hand
        && w.winner[n].second_rank == a.second_best[w.winner[n].suit as int].rank
        && w.winner[n].second_hand == a.second_best[w.winner[n].suit as int].hand
    &&& forall|st: int| 0 <= st < 4 && suit_count(tr, st) != 0 ==> exists|n: int| 0 <= n < w.number && #[trigger] w.winner[n].suit == st
}

/// [`saved_top_cards`] for the suits below `st`.
pub open spec fn saved_top_cards_upto(w: Winners, a: Pos, tr: Track, st: int) -> bool {
    &&& forall|n: int| 0 <= n < w.number ==> suit_count(tr, (#[trigger] w.winner[n]).suit as int) != 0
    &&& forall|n: int| 0 <= n < w.number ==> (#[trigger] w.winner[n]).winner_rank == a.winner[w.winner[n].suit as int].rank
        && w.winner[n].winner_hand == a.winner[w.winner[n].suit as int].hand
        && w.winner[n].second_rank == a.second_best[w.winner[n].suit as int].rank
        && w.winner[n].second_hand == a.second_best[w.winner[n].suit as int].hand
    &&& forall|x: int| 0 <= x < st && suit_count(tr, x) != 0 ==> exists|n: int| 0 <= n < w.number && #[trigger] w.winner[n].suit == x
}

/// `c` has the top cards of `b`, with those saved in `w` written back.
pub open spec fn top_cards_restored(b: Pos, c: Pos, w: Winners) -> bool {
    &&& forall|n: int| 0 <= n < w.number ==> c.winner[(#[trigger] w.winner[n]).suit as int] == (HighCard {
        rank: w.winner[n].winner_rank,
        hand: w.winner[n].winner_hand,
    }) && c.second_best[w.winner[n].suit as int] == (HighCard {
        rank: w.winner[n].second_rank,
        hand: w.winner[n].second_hand,
    })
    &&& forall|st: int| 0 <= st < 4 && !listed(w, w.number as int, st) ==> #[trigger] c.winner[st] == b.winner[st]
        && c.second_best[st] == b.second_best[st]
}

/// Whether one of the first `n` entries of `w` is for suit `st`.
pub open spec fn listed(w: Winners, n: int, st: int) -> bool {
    exists|k: int| 0 <= k < n && #[trigger] w.winner[k].suit == st
}

/// Taking back the last card of a trick restores the top cards that
/// finishing it changed: those of the suits played are written back from
/// the saved entries, the others were never touched.
pub proof fn lemma_top_cards_back(a: Pos, b: Pos, c: Pos, w: Winners, tr: Track)
    requires
        winners_ok(w),
        saved_top_cards(w, a, tr),
        forall|st: int| 0 <= st < 4 && suit_count(tr, st) == 0 ==> #[trigger] b.winner[st] == a.winner[st]
            && b.second_best[st] == a.second_best[st],
        top_cards_restored(b, c, w),
    ensures
        c.winner == a.winner,
        c.second_best == a.second_best,
{
    assert forall|st: int| 0 <= st < 4 implies c.winner[st] == a.winner[st] && c.second_best[st] == a.second_best[st] by {
        if suit_count(tr, st) != 0 {
            let n = choose|n: int| 0 <= n < w.number && #[trigger] w.winner[n].suit == st;
            assert(c.winner[w.winner[n].suit as int] == a.winner[st]);
        } else {
            if listed(w, w.number as int, st) {
                let n = choose|n: int| 0 <= n < w.number && #[trigger] w.winner[n].suit == st;
                assert(suit_count(tr, w.winner[n].suit as int) != 0);
            }
        }
    }
    assert(c.winner =~= a.winner);
    assert(c.second_best =~= a.second_best);
}

/// Scanning the hands `0..n` in suit `s`: the first hand with the highest
/// holding, that holding, and how many hands hold cards in `s`.
pub open spec fn top_holder(p: Pos, s: int, n: int) -> (int, u16, int)
    decreases n,
{
    if n <= 0 {
        (0, 0u16, 0)
    } else {
        let prev = top_holder(p, s, n - 1);
        let v = p.rank_in_suit[n - 1][s];
        (
            if v > prev.1 {
                n - 1
            } else {
                prev.0
            },
            if v > prev.1 {
                v
            } else {
                prev.1
            },
            prev.2 + if v != 0 {
                1int
            } else {
                0int
            },
        )
    }
}

/// The first suit from `k` on in which hand `h` holds a card, 4 if none.
pub open spec fn first_held(p: Pos, h: int, k: int) -> int
    decreases 4 - k,
{
    if k >= 4 {
        4
    } else if p.rank_in_suit[h][k] != 0 {
        k
    } else {
        first_held(p, h, k + 1)
    }
}

/// Nobody holds a card of a suit whose highest holding is empty.
proof fn lemma_no_holder(p: Pos, s: int, n: int)
    requires
        top_holder(p, s, n).1 == 0,
        0 <= n <= 4,
    ensures
        top_holder(p, s, n) == (0int, 0u16, 0int),
    decreases n,
{
    if n > 0 {
        let prev = top_holder(p, s, n - 1);
        assert(prev.1 == 0);
        lemma_no_holder(p, s, n - 1);
    }
}

/// The suit that decides the last trick: trumps when anyone holds one,
/// else the suit of the leader's card.
pub open spec fn deciding_suit(p: Pos, trump: int) -> int {
    if trump != 4 && top_holder(p, trump, 4).1 > 0 {
        trump
    } else {
        first_held(p, p.first[0] as int, 0)
    }
}

/// The top card of suit `st` that the table gives for the cards `a` in play.
pub open spec fn table_card(rel: Seq<RelRanks>, a: u16, k: int, st: int) -> HighCard {
    HighCard { rank: rel[a as int].abs_rank[k][st].rank as i32, hand: rel[a as int].abs_rank[k][st].hand as i32 }
}

/// `b` is `a` with the card of rank `r` in suit `s` taken from hand `h`:
/// its bit cleared from the hand and flipped in the suit's union, the
/// packed lengths and the suit length of the hand lowered.
pub open spec fn card_taken(a: Pos, b: Pos, h: int, s: int, r: int) -> bool {
    &&& forall|h2: int, s2: int| 0 <= h2 < 4 && 0 <= s2 < 4 ==> #[trigger] b.rank_in_suit[h2][s2] == (if h2 == h
        && s2 == s {
        a.rank_in_suit[h2][s2] & !BIT_MAP_RANK[r]
    } else {
        a.rank_in_suit[h2][s2]
    })
    &&& forall|s2: int| 0 <= s2 < 4 ==> #[trigger] b.aggr[s2] == (if s2 == s {
        a.aggr[s2] ^ BIT_MAP_RANK[r]
    } else {
        a.aggr[s2]
    })
    &&& forall|h2: int| 0 <= h2 < 4 ==> #[trigger] b.hand_dist[h2] == (if h2 == h {
        a.hand_dist[h2] - HAND_DELTA[s]
    } else {
        a.hand_dist[h2] as int
    })
    &&& forall|h2: int, s2: int| 0 <= h2 < 4 && 0 <= s2 < 4 ==> #[trigger] b.length[h2][s2] == (if h2 == h && s2
        == s {
        if a.length[h2][s2] > 0 {
            a.length[h2][s2] - 1
        } else {
            0
        }
    } else {
        a.length[h2][s2] as int
    })
}

/// `b` is `a` with the card of rank `r` in suit `s` given back to hand
/// `h`: its bit set in the hand and in the suit's union, the packed
/// lengths and the suit length of the hand raised.
pub open spec fn card_given(a: Pos, b: Pos, h: int, s: int, r: int) -> bool {
    &&& forall|h2: int, s2: int| 0 <= h2 < 4 && 0 <= s2 < 4 ==> #[trigger] b.rank_in_suit[h2][s2] == (if h2 == h
        && s2 == s {
        a.rank_in_suit[h2][s2] | BIT_MAP_RANK[r]
    } else {
        a.rank_in_suit[h2][s2]
    })
    &&& forall|s2: int| 0 <= s2 < 4 ==> #[trigger] b.aggr[s2] == (if s2 == s {
        a.aggr[s2] | BIT_MAP_RANK[r]
    } else {
        a.aggr[s2]
    })
    &&& forall|h2: int| 0 <= h2 < 4 ==> #[trigger] b.hand_dist[h2] == (if h2 == h {
        a.hand_dist[h2] + HAND_DELTA[s]
    } else {
        a.hand_dist[h2] as int
    })
    &&& forall|h2: int, s2: int| 0 <= h2 < 4 && 0 <= s2 < 4 ==> #[trigger] b.length[h2][s2] == (if h2 == h && s2
        == s {
        if a.length[h2][s2] < 255 {
            a.length[h2][s2] + 1
        } else {
            255
        }
    } else {
        a.length[h2][s2] as int
    })
}

/// The parts of a position that neither playing nor taking back a card
/// touches.
pub open spec fn rest_same(a: Pos, b: Pos) -> bool {
    &&& a.win_ranks == b.win_ranks
    &&& a.hand_rel_first == b.hand_rel_first
    &&& a.tricks_max == b.tricks_max
}

/// Taking a card back after playing it restores the hands, the suit
/// unions and the lengths, provided the hand held the card.
pub proof fn lemma_card_back(a: Pos, b: Pos, c: Pos, h: int, s: int, r: int)
    requires
        0 <= h < 4,
        0 <= s < 4,
        2 <= r <= 14,
        has_rank(a.rank_in_suit[h][s], r),
        has_rank(a.aggr[s], r),
        a.length[h][s] >= 1,
        card_taken(a, b, h, s, r),
        card_given(b, c, h, s, r),
    ensures
        c.rank_in_suit == a.rank_in_suit,
        c.aggr == a.aggr,
        c.hand_dist == a.hand_dist,
        c.length == a.length,
{
    crate::lookup::lemma_has_rank(a.rank_in_suit[h][s], r);
    crate::lookup::lemma_has_rank(a.aggr[s], r);
    let x = a.rank_in_suit[h][s];
    let y = a.aggr[s];
    let m = BIT_MAP_RANK[r];
    assert(x & m != 0 ==> (x & !m) | m == x) by (bit_vector)
        requires
            m == 1u16 || m == 2u16 || m == 4u16 || m == 8u16 || m == 16u16 || m == 32u16 || m == 64u16 || m
                == 128u16 || m == 256u16 || m == 512u16 || m == 1024u16 || m == 2048u16 || m == 4096u16,
    ;
    assert(y & m != 0 ==> (y ^ m) | m == y) by (bit_vector)
        requires
            m == 1u16 || m == 2u16 || m == 4u16 || m == 8u16 || m == 16u16 || m == 32u16 || m == 64u16 || m
                == 128u16 || m == 256u16 || m == 512u16 || m == 1024u16 || m == 2048u16 || m == 4096u16,
    ;
    assert forall|h2: int, s2: int| 0 <= h2 < 4 && 0 <= s2 < 4 implies c.rank_in_suit[h2][s2]
        == a.rank_in_suit[h2][s2] by {
    }
    assert(c.rank_in_suit =~= a.rank_in_suit) by {
        assert forall|h2: int| 0 <= h2 < 4 implies c.rank_in_suit[h2] =~= a.rank_in_suit[h2] by {
            assert forall|s2: int| 0 <= s2 < 4 implies c.rank_in_suit[h2][s2] == a.rank_in_suit[h2][s2] by {
            }
        }
    }
    assert(c.aggr =~= a.aggr);
    assert(c.hand_dist =~= a.hand_dist);
    assert(c.length =~= a.length) by {
        assert forall|h2: int| 0 <= h2 < 4 implies c.length[h2] =~= a.length[h2] by {
        }
    }
}

/// The pieces a playing or taking back of a card keeps within bounds.
pub proof fn lemma_bits_stay_small(x: u16, m: u16)
    requires
        x < 8192,
        m < 8192,
    ensures
        (x & !m) < 8192,
        (x ^ m) < 8192,
        (x | m) < 8192,
{
    assert(x < 8192 && m < 8192 ==> (x & !m) < 8192 && (x ^ m) < 8192 && (x | m) < 8192) by (bit_vector);
}

/// Take the card of rank `r` in suit `s` from hand `h`.
fn take_card(pos: &mut Pos, h: usize, s: usize, r: usize)
    requires
        pos_wf(*old(pos)),
        h < 4,
        s < 4,
        r <= 14,
        old(pos).hand_dist[h as int] >= i32::MIN + 256,
    ensures
        pos_wf(*final(pos)),
        card_taken(*old(pos), *final(pos), h as int, s as int, r as int),
        rest_same(*old(pos), *final(pos)),
        final(pos).first == old(pos).first,
        final(pos).move_history == old(pos).move_history,
        final(pos).winner == old(pos).winner,
        final(pos).second_best == old(pos).second_best,
{
    proof {
        lemma_bits_stay_small(pos.rank_in_suit[h as int][s as int], BIT_MAP_RANK[r as int]);
        lemma_bits_stay_small(pos.aggr[s as int], BIT_MAP_RANK[r as int]);
    }
    let mut row = pos.rank_in_suit[h];
    row[s] = row[s] & !BIT_MAP_RANK[r];
    pos.rank_in_suit[h] = row;
    pos.aggr[s] = pos.aggr[s] ^ BIT_MAP_RANK[r];
    pos.hand_dist[h] = pos.hand_dist[h] - HAND_DELTA[s];
    let mut lens = pos.length[h];
    lens[s] = lens[s].saturating_sub(1);
    pos.length[h] = lens;
}

/// Give the card of rank `r` in suit `s` back to hand `h`.
fn give_card(pos: &mut Pos, h: usize, s: usize, r: usize)
    requires
        h < 4,
        s < 4,
        r <= 14,
        old(pos).hand_dist[h as int] <= i32::MAX - 256,
    ensures
        card_given(*old(pos), *final(pos), h as int, s as int, r as int),
        rest_same(*old(pos), *final(pos)),
        final(pos).first == old(pos).first,
        final(pos).move_history == old(pos).move_history,
        final(pos).winner == old(pos).winner,
        final(pos).second_best == old(pos).second_best,
        pos_wf(*old(pos)) && old(pos).length[h as int][s as int] < 13 ==> pos_wf(*final(pos)),
{
    proof {
        if pos_wf(*pos) {
            lemma_bits_stay_small(pos.rank_in_suit[h as int][s as int], BIT_MAP_RANK[r as int]);
            lemma_bits_stay_small(pos.aggr[s as int], BIT_MAP_RANK[r as int]);
        }
    }
    let mut row = pos.rank_in_suit[h];
    row[s] = row[s] | BIT_MAP_RANK[r];
    pos.rank_in_suit[h] = row;
    pos.aggr[s] = pos.aggr[s] | BIT_MAP_RANK[r];
    pos.hand_dist[h] = pos.hand_dist[h] + HAND_DELTA[s];
    let mut lens = pos.length[h];
    lens[s] = lens[s].saturating_add(1);
    pos.length[h] = lens;
}

/// What a move must be for the hands to be indexed by it.
pub open spec fn card_move(m: MoveType) -> bool {
    0 <= m.suit < 4 && 0 <= m.rank <= 14
}

/// The packed lengths of every hand leave room for one more card.
pub open spec fn dist_room(p: Pos) -> bool {
    forall|h: int| 0 <= h < 4 ==> i32::MIN + 256 <= #[trigger] p.hand_dist[h] <= i32::MAX - 256
}

/// The number of cards hand `h` holds.
pub open spec fn hand_count(p: Pos, h: int) -> int {
    p.length[h][0] + p.length[h][1] + p.length[h][2] + p.length[h][3]
}

/// The number of cards in play.
pub open spec fn cards_in_play(p: Pos) -> int {
    hand_count(p, 0) + hand_count(p, 1) + hand_count(p, 2) + hand_count(p, 3)
}

/// A position as the search keeps it: well formed, with suit lengths that
/// count the cards, packed lengths that pack them, every card in its
/// suit's union and no card in two hands.
pub open spec fn deal_ok(p: Pos) -> bool {
    &&& pos_wf(p)
    &&& forall|h: int, s: int| 0 <= h < 4 && 0 <= s < 4 ==> #[trigger] p.length[h][s] == popcount(p.rank_in_suit[h][s])
    &&& forall|h: int| 0 <= h < 4 ==> #[trigger] p.hand_dist[h] == 256 * p.length[h][0] + 16 * p.length[h][1]
        + p.length[h][2]
    &&& forall|h: int, s: int, i: nat|
        0 <= h < 4 && 0 <= s < 4 && i < 16 && #[trigger] bit(p.rank_in_suit[h][s], i) ==> bit(p.aggr[s], i)
    &&& forall|h1: int, h2: int, s: int, i: nat|
        0 <= h1 < 4 && 0 <= h2 < 4 && h1 != h2 && 0 <= s < 4 && i < 16 && #[trigger] bit(p.rank_in_suit[h1][s], i)
            ==> !#[trigger] bit(p.rank_in_suit[h2][s], i)
}

/// The trick of depth `d` has had `played` cards played to it, by its
/// leader `first[d]` and the hands after it; every hand holds the cards
/// of the tricks after this one, and one more if it has not played yet.
pub open spec fn counts_ok(p: Pos, d: int, played: int) -> bool {
    &&& 0 <= d < 50
    &&& 0 <= played < 4
    &&& (d + played) % 4 == 0
    &&& forall|h: int| 0 <= h < 4 ==> #[trigger] hand_count(p, h) == (d + played) / 4 + if (h - p.first[d] + 4) % 4
        < played {
        0int
    } else {
        1int
    }
}

/// `a` and `b` hold the same cards, with the same unions and lengths.
pub open spec fn same_hands(a: Pos, b: Pos) -> bool {
    &&& a.rank_in_suit == b.rank_in_suit
    &&& a.aggr == b.aggr
    &&& a.length == b.length
    &&& a.hand_dist == b.hand_dist
}

/// Playing a card that the hand holds keeps the position as the search
/// keeps it, with one card fewer in that hand.
pub proof fn lemma_play_held(a: Pos, b: Pos, h: int, s: int, r: int)
    requires
        deal_ok(a),
        pos_wf(b),
        0 <= h < 4,
        0 <= s < 4,
        has_rank(a.rank_in_suit[h][s], r),
        card_taken(a, b, h, s, r),
    ensures
        deal_ok(b),
        a.length[h][s] >= 1,
        forall|h2: int| 0 <= h2 < 4 ==> #[trigger] hand_count(b, h2) == hand_count(a, h2) - if h2 == h {
            1int
        } else {
            0int
        },
{
    let x = a.rank_in_suit[h][s];
    let m = BIT_MAP_RANK[r];
    let k = (r - 2) as nat;
    lemma_bit_map_rank(r);
    assert(bit(x, k));
    assert forall|i: nat| i < 16 implies #[trigger] bit(m, i) == (i == k) by {
        crate::bits::lemma_bit_single(k, i);
    }
    assert forall|i: nat| i < 16 implies #[trigger] bit(x & !m, i) == (bit(x, i) && i != k) by {
        crate::bits::lemma_bit_and(x, !m, i);
        crate::bits::lemma_bit_not(m, i);
    }
    assert(!bit(x & !m, k));
    crate::groups::lemma_ones_one_more(x, x & !m, k, 16);
    assert(b.rank_in_suit[h][s] == x & !m);
    assert(b.length[h][s] == popcount(b.rank_in_suit[h][s]));
    assert forall|h2: int, s2: int, i: nat|
        0 <= h2 < 4 && 0 <= s2 < 4 && i < 16 && #[trigger] bit(b.rank_in_suit[h2][s2], i) implies bit(b.aggr[s2], i) by {
        if s2 == s {
            crate::bits::lemma_bit_xor(a.aggr[s], m, i);
            if h2 == h {
                assert(bit(x, i) && i != k);
                assert(bit(a.aggr[s], i));
            } else {
                assert(bit(a.rank_in_suit[h2][s], i));
                assert(bit(a.aggr[s], i));
                if i == k {
                    assert(!bit(a.rank_in_suit[h2][s], k));
                }
            }
        }
    }
    assert forall|h1: int, h2: int, s2: int, i: nat|
        0 <= h1 < 4 && 0 <= h2 < 4 && h1 != h2 && 0 <= s2 < 4 && i < 16 && #[trigger] bit(b.rank_in_suit[h1][s2], i)
        implies !#[trigger] bit(b.rank_in_suit[h2][s2], i) by {
        assert(bit(a.rank_in_suit[h1][s2], i));
        if bit(b.rank_in_suit[h2][s2], i) {
            assert(bit(a.rank_in_suit[h2][s2], i));
        }
    }
}

/// After a card is played at depth `d`, the counts hold at depth `d - 1`
/// with one more card played to the trick (or a new trick begun).
pub proof fn lemma_counts_step(a: Pos, b: Pos, d: int, played: int)
    requires
        counts_ok(a, d, played),
        1 <= d,
        forall|h2: int| 0 <= h2 < 4 ==> #[trigger] hand_count(b, h2) == hand_count(a, h2) - if h2 == (a.first[d] + played) % 4 {
            1int
        } else {
            0int
        },
        0 <= a.first[d] < 4,
        played < 3 ==> b.first[d - 1] == a.first[d],
    ensures
        counts_ok(b, d - 1, (played + 1) % 4),
{
    assert forall|h: int| 0 <= h < 4 implies #[trigger] hand_count(b, h) == (d - 1 + (played + 1) % 4) / 4 + if (h
        - b.first[d - 1] + 4) % 4 < (played + 1) % 4 {
        0int
    } else {
        1int
    } by {
        assert(hand_count(a, h) == (d + played) / 4 + if (h - a.first[d] + 4) % 4 < played {
            0int
        } else {
            1int
        });
    }
}

/// Counters of one search.
#[derive(Debug, Clone, Copy, Default)]
pub struct SearchStats {
    /// Times a lead node was entered.
    pub node0_entries: u64,
    /// Lead nodes left through the early transposition-table probe.
    pub exit_tt_early: u64,
    /// Lead nodes left through the trivial bounds on the trick count.
    pub exit_trivial: u64,
    /// Lead nodes left at the last trick.
    pub exit_leaf: u64,
    /// Lead nodes left through the sure-tricks count.
    pub exit_quick: u64,
    /// Lead nodes left through the later-tricks bound.
    pub exit_later: u64,
    /// Lead nodes left through the late transposition-table probe.
    pub exit_tt_late: u64,
    /// Lead nodes that reached their move loop.
    pub reached_moveloop0: u64,
    /// Transposition-table probes.
    pub tt_lookups: u64,
    /// Probes that gave a usable bound.
    pub tt_hits: u64,
    /// Stores into the table from lead nodes.
    pub tt_stores: u64,
    /// Nodes whose move loop ended in a cutoff.
    pub cutoff_nodes: u64,
    /// Nodes whose move loop tried every move.
    pub allnode_nodes: u64,
    /// Cutoffs on the first move tried.
    pub cutoff_first: u64,
    /// Sum of the (1-based) positions of the cutoff moves.
    pub cutoff_index_sum: u64,
    /// Cutoffs by position of the move, the last bucket for 8 and later.
    pub cutoff_hist: [u64; 8],
}

impl SearchStats {
    /// Whether every counter is zero.
    pub open spec fn is_zero(self) -> bool {
        &&& self.node0_entries == 0 && self.exit_tt_early == 0 && self.exit_trivial == 0 && self.exit_leaf == 0
        &&& self.exit_quick == 0 && self.exit_later == 0 && self.exit_tt_late == 0 && self.reached_moveloop0 == 0
        &&& self.tt_lookups == 0 && self.tt_hits == 0 && self.tt_stores == 0 && self.cutoff_nodes == 0
        &&& self.allnode_nodes == 0 && self.cutoff_first == 0 && self.cutoff_index_sum == 0
        &&& forall|k: int| 0 <= k < 8 ==> #[trigger] self.cutoff_hist[k] == 0
    }

    /// All counters zero.
    pub fn zero() -> (r: SearchStats)
        ensures
            r.is_zero(),
    {
        SearchStats {
            node0_entries: 0,
            exit_tt_early: 0,
            exit_trivial: 0,
            exit_leaf: 0,
            exit_quick: 0,
            exit_later: 0,
            exit_tt_late: 0,
            reached_moveloop0: 0,
            tt_lookups: 0,
            tt_hits: 0,
            tt_stores: 0,
            cutoff_nodes: 0,
            allnode_nodes: 0,
            cutoff_first: 0,
            cutoff_index_sum: 0,
            cutoff_hist: [0u64; 8],
        }
    }
}

/// The state of a search: the move generator, the MAX/MIN side of each
/// seat, the trump, per-depth best moves and the per-deal card table.
pub struct Engine {
    /// The move generator and per-trick state.
    pub moves: Moves,
    /// `MAXNODE` or `MINNODE` for each seat.
    pub node_type_store: [i32; 4],
    /// The depth the search starts from.
    pub ini_depth: i32,
    /// The trump number (4 for notrump).
    pub trump: i32,
    best_move: [MoveType; 50],
    best_move_tt: [MoveType; 50],
    lowest_win: [[u16; 4]; 50],
    forbidden_moves: [MoveType; 14],
    winners: [Winners; 13],
    rel: Vec<RelRanks>,
    win_table: Vec<[u16; 14]>,
    /// Per-node counters of the search.
    pub stats: SearchStats,
    /// Number of searches for a trick target.
    pub search_target_calls: u64,
    /// Number of probes those searches made.
    pub bisection_iters: u64,
}

impl Engine {
    /// Well-formedness: the move generator is well formed and plays the
    /// engine's trump, the card table can index the rank tables, and the
    /// saved top cards can be written back.
    pub closed spec fn wf(&self) -> bool {
        &&& self.moves.wf()
        &&& self.moves.trump_spec() == self.trump
        &&& 0 <= self.trump <= 4
        &&& rel_ok(self.rel@)
        &&& rel_holders_ok(self.rel@)
        &&& forall|t: int| 0 <= t < 13 ==> winners_ok(#[trigger] self.winners[t])
        &&& forall|i: int| 0 <= i < 14 ==> #[trigger] self.forbidden_moves[i].rank == 0
        &&& self.win_table@.len() == 8192
        &&& forall|a: int, n: int| 0 <= a < 8192 && 0 <= n < 14 ==> #[trigger] self.win_table@[a][n] == win_ranks(a as u16, n as nat)
            && self.win_table@[a][n] < 8192
    }

    /// The counts of searches for a trick target and of their probes.
    pub closed spec fn counts_spec(&self) -> (u64, u64) {
        (self.search_target_calls, self.bisection_iters)
    }

    /// The engine with the counts of [`Engine::counts_spec`] replaced by `c`
    /// and all else as it is.
    pub closed spec fn with_counts(self, c: (u64, u64)) -> Engine {
        Engine { search_target_calls: c.0, bisection_iters: c.1, ..self }
    }

    /// The engine with its per-node counters replaced by `st` and all else
    /// as it is.
    pub closed spec fn with_stats(self, st: SearchStats) -> Engine {
        Engine { stats: st, ..self }
    }

    /// The per-node counters.
    pub closed spec fn stats_spec(&self) -> SearchStats {
        self.stats
    }

    /// The card table, as a sequence.
    pub closed spec fn rel_spec(&self) -> Seq<RelRanks> {
        self.rel@
    }

    /// The move generator.
    pub closed spec fn moves_spec(&self) -> Moves {
        self.moves
    }

    /// The saved top cards of trick `t`.
    pub closed spec fn saved_spec(&self, t: int) -> Winners {
        self.winners[t]
    }

    /// The trump number.
    pub closed spec fn trump_spec(&self) -> i32 {
        self.trump
    }

    /// The trump number (4 for notrump).
    pub fn trump_number(&self) -> (r: i32)
        requires
            self.wf(),
        ensures
            r == self.trump_spec(),
            0 <= r <= 4,
    {
        self.trump
    }

    /// The MAX/MIN side of each seat.
    pub closed spec fn node_types(&self) -> [i32; 4] {
        self.node_type_store
    }

    /// The depth the search starts from.
    pub closed spec fn ini_depth_spec(&self) -> i32 {
        self.ini_depth
    }

    /// The best move found at depth `d` by the last search, the start of
    /// the move ordering at that depth.
    pub closed spec fn best_move_spec(&self, d: int) -> MoveType {
        self.best_move[d]
    }

    /// The best move the transposition table gave for depth `d`.
    pub closed spec fn best_move_tt_spec(&self, d: int) -> MoveType {
        self.best_move_tt[d]
    }

    /// A fresh engine for `strain`, with North-South on the MAX side.
    pub fn new(strain: Strain) -> (r: Engine)
        ensures
            r.wf(),
            r.trump_spec() == (if strain == Strain::Notrump {
                4
            } else {
                3 - crate::bridge::strain_index(strain)
            }),
            r.node_types() == [MAXNODE, MINNODE, MAXNODE, MINNODE],
            r.ini_depth_spec() == 0,
    {
        let trump = dds_trump_from_strain(strain);
        let mut moves = Moves::new();
        moves.set_trump(trump);
        let empty = [[0u16; 4]; 4];
        let rel = build_rel_for(&empty);
        let entry = WinnerEntry { suit: 0, winner_rank: 0, winner_hand: 0, second_rank: 0, second_hand: 0 };
        let r = Engine {
            moves,
            node_type_store: [MAXNODE, MINNODE, MAXNODE, MINNODE],
            ini_depth: 0,
            trump,
            best_move: [MoveType::zero(); 50],
            best_move_tt: [MoveType::zero(); 50],
            lowest_win: [[0u16; 4]; 50],
            forbidden_moves: [MoveType::zero(); 14],
            winners: [Winners { number: 0, winner: [entry; 4] }; 13],
            rel,
            win_table: build_win_ranks(),
            stats: SearchStats::zero(),
            search_target_calls: 0,
            bisection_iters: 0,
        };
        proof {
            assert forall|a: int, k: int, s: int|
                0 <= a < r.rel@.len() && 0 <= k < 15 && 0 <= s < 4 && #[trigger] r.rel@[a].abs_rank[k][s].rank
                    != 0 implies r.rel@[a].abs_rank[k][s].hand >= 0 by {
                lemma_rel_entry_holder(empty, a as u16, k, s);
            }
            assert forall|a: int, n: int| 0 <= a < 8192 && 0 <= n < 14 implies #[trigger] r.win_table@[a][n] < 8192 by {
                crate::lookup::lemma_top_ranks_small(a as u16, n as nat, 14);
            }
        }
        r
    }

    /// The counts of searches for a trick target and of their probes.
    pub fn bisection_counts(&self) -> (r: (u64, u64))
        ensures
            r == self.counts_spec(),
    {
        (self.search_target_calls, self.bisection_iters)
    }

    /// Set both counts of [`Engine::bisection_counts`] to zero.
    pub fn reset_bisection_counts(&mut self)
        requires
            old(self).wf(),
        ensures
            final(self).wf(),
            setup_kept(*old(self), *final(self)),
            final(self).counts_spec() == (0u64, 0u64),
            final(self).stats_spec() == old(self).stats_spec(),
            final(self).moves_spec() == old(self).moves_spec(),
            *final(self) == old(self).with_counts((0u64, 0u64)),
    {
        self.search_target_calls = 0;
        self.bisection_iters = 0;
    }

    /// The per-node counters.
    pub fn search_stats(&self) -> (r: SearchStats)
        ensures
            r == self.stats_spec(),
    {
        self.stats
    }

    /// Set the per-node counters to zero.
    pub fn reset_search_stats(&mut self)
        requires
            old(self).wf(),
        ensures
            final(self).wf(),
            setup_kept(*old(self), *final(self)),
            final(self).stats_spec().is_zero(),
            final(self).counts_spec() == old(self).counts_spec(),
            final(self).moves_spec() == old(self).moves_spec(),
            *final(self) == old(self).with_stats(final(self).stats_spec()),
    {
        self.stats = SearchStats::zero();
    }

    /// Set the MAX/MIN side of each seat.
    pub fn set_node_types(&mut self, node_type_store: [i32; 4])
        requires
            old(self).wf(),
        ensures
            final(self).node_types() == node_type_store,
            final(self).wf(),
            final(self).trump_spec() == old(self).trump_spec(),
            final(self).ini_depth_spec() == old(self).ini_depth_spec(),
    {
        self.node_type_store = node_type_store;
    }

    /// Search in `strain` from now on.
    pub fn set_strain(&mut self, strain: Strain)
        requires
            old(self).wf(),
        ensures
            final(self).wf(),
            final(self).trump_spec() == (if strain == Strain::Notrump {
                4
            } else {
                3 - crate::bridge::strain_index(strain)
            }),
            final(self).node_types() == old(self).node_types(),
            final(self).ini_depth_spec() == old(self).ini_depth_spec(),
    {
        let trump = dds_trump_from_strain(strain);
        self.trump = trump;
        self.moves.set_trump(trump);
    }

    /// Forget the best moves of earlier searches.
    pub fn reset_best_moves(&mut self)
        requires
            old(self).wf(),
        ensures
            final(self).wf(),
            final(self).trump_spec() == old(self).trump_spec(),
            final(self).node_types() == old(self).node_types(),
            final(self).ini_depth_spec() == old(self).ini_depth_spec(),
            final(self).rel_spec() == old(self).rel_spec(),
            final(self).moves_spec() == old(self).moves_spec(),
            forall|d: int| 0 <= d < 50 ==> #[trigger] final(self).best_move_spec(d) == MoveType::zero_spec(),
            forall|d: int| 0 <= d < 50 ==> #[trigger] final(self).best_move_tt_spec(d) == MoveType::zero_spec(),
    {
        let mut d: usize = 0;
        while d < MAX_DEPTH
            invariant
                d <= MAX_DEPTH,
                forall|e: int| 0 <= e < d ==> #[trigger] self.best_move[e] == MoveType::zero_spec(),
                forall|e: int| 0 <= e < d ==> #[trigger] self.best_move_tt[e] == MoveType::zero_spec(),
                self.wf(),
                self.trump == old(self).trump,
                self.node_type_store == old(self).node_type_store,
                self.ini_depth == old(self).ini_depth,
                self.rel == old(self).rel,
                self.moves == old(self).moves,
            decreases MAX_DEPTH - d,
        {
            self.best_move[d] = MoveType::zero();
            self.best_move_tt[d] = MoveType::zero();
            d += 1;
        }
    }

    /// Play the leader's card `mply` at `depth`: the leader of the next
    /// depth is the same, the move is recorded, the card leaves the hand.
    pub fn make0(&self, pos: &mut Pos, depth: i32, mply: &MoveType)
        requires
            pos_wf(*old(pos)),
            1 <= depth < 50,
            card_move(*mply),
            dist_room(*old(pos)),
        ensures
            pos_wf(*final(pos)),
            card_taken(*old(pos), *final(pos), old(pos).first[depth as int] as int, mply.suit as int, mply.rank as int),
            rest_same(*old(pos), *final(pos)),
            final(pos).first@ == old(pos).first@.update(depth - 1, old(pos).first[depth as int]),
            final(pos).move_history@ == old(pos).move_history@.update(depth as int, *mply),
            final(pos).winner == old(pos).winner,
            final(pos).second_best == old(pos).second_best,
    {
        let d = depth as usize;
        let h = pos.first[d] as usize;
        pos.first[d - 1] = pos.first[d];
        pos.move_history[d] = *mply;
        take_card(pos, h, mply.suit as usize, mply.rank as usize);
        proof {
            assert(final(pos).first@ =~= old(pos).first@.update(depth - 1, old(pos).first[depth as int]));
        }
    }

    /// Play the card `mply` of the hand at `offset` (1 or 2) after the
    /// leader of `depth`.
    fn make_follow(&self, pos: &mut Pos, depth: i32, mply: &MoveType, offset: i32)
        requires
            pos_wf(*old(pos)),
            1 <= depth < 50,
            1 <= offset <= 2,
            card_move(*mply),
            dist_room(*old(pos)),
        ensures
            pos_wf(*final(pos)),
            card_taken(
                *old(pos),
                *final(pos),
                (old(pos).first[depth as int] + offset) % 4,
                mply.suit as int,
                mply.rank as int,
            ),
            rest_same(*old(pos), *final(pos)),
            final(pos).first@ == old(pos).first@.update(depth - 1, old(pos).first[depth as int]),
            final(pos).move_history == old(pos).move_history,
            final(pos).winner == old(pos).winner,
            final(pos).second_best == old(pos).second_best,
    {
        let d = depth as usize;
        let first_hand = pos.first[d];
        pos.first[d - 1] = first_hand;
        let h = ((first_hand + offset) % 4) as usize;
        take_card(pos, h, mply.suit as usize, mply.rank as usize);
        proof {
            assert(final(pos).first@ =~= old(pos).first@.update(depth - 1, old(pos).first[depth as int]));
        }
    }

    /// Play the second hand's card `mply` at `depth`.
    pub fn make1(&self, pos: &mut Pos, depth: i32, mply: &MoveType)
        requires
            pos_wf(*old(pos)),
            1 <= depth < 50,
            card_move(*mply),
            dist_room(*old(pos)),
        ensures
            pos_wf(*final(pos)),
            card_taken(
                *old(pos),
                *final(pos),
                (old(pos).first[depth as int] + 1) % 4,
                mply.suit as int,
                mply.rank as int,
            ),
            rest_same(*old(pos), *final(pos)),
            final(pos).first@ == old(pos).first@.update(depth - 1, old(pos).first[depth as int]),
            final(pos).move_history == old(pos).move_history,
            final(pos).winner == old(pos).winner,
            final(pos).second_best == old(pos).second_best,
    {
        self.make_follow(pos, depth, mply, 1);
    }

    /// Play the third hand's card `mply` at `depth`.
    pub fn make2(&self, pos: &mut Pos, depth: i32, mply: &MoveType)
        requires
            pos_wf(*old(pos)),
            1 <= depth < 50,
            card_move(*mply),
            dist_room(*old(pos)),
        ensures
            pos_wf(*final(pos)),
            card_taken(
                *old(pos),
                *final(pos),
                (old(pos).first[depth as int] + 2) % 4,
                mply.suit as int,
                mply.rank as int,
            ),
            rest_same(*old(pos), *final(pos)),
            final(pos).first@ == old(pos).first@.update(depth - 1, old(pos).first[depth as int]),
            final(pos).move_history == old(pos).move_history,
            final(pos).winner == old(pos).winner,
            final(pos).second_best == old(pos).second_best,
    {
        self.make_follow(pos, depth, mply, 2);
    }

    /// Play the fourth hand's card `mply` at `depth`, finishing the trick:
    /// the trick's winner leads at the next depth, `trick_cards` receives
    /// the winning card (with the cards it stands for) when its suit was
    /// played at least twice, and the top cards of the suits played are
    /// saved and then read afresh from the card table.
    pub fn make3(&mut self, pos: &mut Pos, trick_cards: &mut [u16; 4], depth: i32, mply: &MoveType)
        requires
            old(self).wf(),
            pos_wf(*old(pos)),
            1 <= depth <= 48,
            card_move(*mply),
            dist_room(*old(pos)),
        ensures
            final(self).wf(),
            final(self).trump_spec() == old(self).trump_spec(),
            final(self).node_types() == old(self).node_types(),
            final(self).ini_depth_spec() == old(self).ini_depth_spec(),
            final(self).rel_spec() == old(self).rel_spec(),
            final(self).moves_spec().plies() == old(self).moves_spec().plies(),
            forall|t: int| 0 <= t < MAX_DEPTH ==> #[trigger] final(self).moves_spec().tracks()[t].lead_hand
                == old(self).moves_spec().tracks()[t].lead_hand,
            forall|t: int| 0 <= t < MAX_DEPTH ==> #[trigger] final(self).moves_spec().tracks()[t].move_played
                == old(self).moves_spec().tracks()[t].move_played,
            forall|t: int| 0 <= t < MAX_DEPTH && t != old(self).moves_spec().track_index_spec() ==> #[trigger] final(self).moves_spec().tracks()[t]
                == old(self).moves_spec().tracks()[t],
            pos_wf(*final(pos)),
            ({
                let m = old(self).moves_spec();
                let tr = m.tracks()[m.track_index_spec() as int];
                let d = depth as int;
                &&& card_taken(*old(pos), *final(pos), (old(pos).first[d] + 3) % 4, mply.suit as int, mply.rank as int)
                &&& rest_same(*old(pos), *final(pos))
                &&& final(pos).first@ == old(pos).first@.update(d - 1, ((old(pos).first[d] + tr.high[3]) % 4) as i32)
                &&& final(pos).move_history == old(pos).move_history
                &&& forall|st: int| 0 <= st < 4 ==> #[trigger] final(pos).winner[st] == (if suit_count(tr, st) != 0 {
                    table_card(old(self).rel_spec(), final(pos).aggr[st], 1, st)
                } else {
                    old(pos).winner[st]
                })
                &&& forall|st: int| 0 <= st < 4 ==> #[trigger] final(pos).second_best[st] == (if suit_count(tr, st) != 0 {
                    table_card(old(self).rel_spec(), final(pos).aggr[st], 2, st)
                } else {
                    old(pos).second_best[st]
                })
                &&& forall|st: int| 0 <= st < 4 ==> #[trigger] final(trick_cards)[st] == (if st == tr.move_played[3].suit
                    && suit_count(tr, st) >= 2 {
                    BIT_MAP_RANK[tr.move_played[3].rank as int] | (tr.move_played[3].sequence as u16)
                } else {
                    0u16
                })
                &&& saved_top_cards(final(self).saved_spec((d + 3) / 4), *old(pos), tr)
                &&& forall|t: int| 0 <= t < 13 && t != (d + 3) / 4 ==> #[trigger] final(self).saved_spec(t) == old(self).saved_spec(t)
            }),
    {
        let d = depth as usize;
        let first_hand = pos.first[d];
        let trick = ((depth + 3) / 4) as usize;
        proof {
            self.moves.lemma_wf_bounds();
        }
        let ghost m0 = self.moves;
        let data = self.moves.get_trick_data((depth + 3) / 4);
        proof {
            self.moves.lemma_same_setup_trump(&m0);
        }
        pos.first[d - 1] = (first_hand + data.rel_winner) % 4;
        let h = ((first_hand + 3) % 4) as usize;
        *trick_cards = [0u16; 4];
        let ss = data.best_suit as usize;
        if data.play_count[ss] >= 2 {
            let rr = data.best_rank as usize;
            trick_cards[ss] = BIT_MAP_RANK[rr] | (data.best_sequence as u16);
        }
        let ghost p1 = *pos;
        take_card(pos, h, mply.suit as usize, mply.rank as usize);
        let ghost p2 = *pos;
        let mut wp = self.winners[trick];
        wp.number = 0;
        let mut st: usize = 0;
        while st < 4
            invariant
                st <= 4,
                0 <= wp.number <= st,
                pos_wf(*pos),
                rel_ok(self.rel@),
                rel_holders_ok(self.rel@),
                pos.rank_in_suit == p2.rank_in_suit,
                pos.aggr == p2.aggr,
                pos.length == p2.length,
                pos.hand_dist == p2.hand_dist,
                pos.first == p2.first,
                pos.move_history == p2.move_history,
                rest_same(p2, *pos),
                forall|x: int| 0 <= x < 4 ==> winner_entry_ok(#[trigger] wp.winner[x]),
                forall|n: int, m: int| 0 <= n < m < wp.number ==> #[trigger] wp.winner[n].suit < #[trigger] wp.winner[m].suit,
                forall|n: int| 0 <= n < wp.number ==> (#[trigger] wp.winner[n]).suit < st,
                forall|x: int| 0 <= x < 4 ==> #[trigger] data.play_count[x] == suit_count(
                    old(self).moves_spec().tracks()[old(self).moves_spec().track_index_spec() as int],
                    x,
                ),
                saved_top_cards_upto(wp, *old(pos), old(self).moves_spec().tracks()[old(self).moves_spec().track_index_spec() as int], st as int),
                forall|x: int| 0 <= x < 4 ==> #[trigger] pos.winner[x] == (if x < st && data.play_count[x] != 0 {
                    table_card(self.rel@, pos.aggr[x], 1, x)
                } else {
                    old(pos).winner[x]
                }),
                forall|x: int| 0 <= x < 4 ==> #[trigger] pos.second_best[x] == (if x < st && data.play_count[x] != 0 {
                    table_card(self.rel@, pos.aggr[x], 2, x)
                } else {
                    old(pos).second_best[x]
                }),
            decreases 4 - st,
        {
            if data.play_count[st] != 0 {
                let n = wp.number as usize;
                proof {
                    assert(high_card_wf(pos.winner[st as int]));
                    assert(high_card_wf(pos.second_best[st as int]));
                }
                let ghost w_before = wp;
                wp.winner[n] = WinnerEntry {
                    suit: st as i32,
                    winner_rank: pos.winner[st].rank,
                    winner_hand: pos.winner[st].hand,
                    second_rank: pos.second_best[st].rank,
                    second_hand: pos.second_best[st].hand,
                };
                wp.number = wp.number + 1;
                proof {
                    let tr = old(self).moves_spec().tracks()[old(self).moves_spec().track_index_spec() as int];
                    assert(wp.winner[n as int].suit == st);
                    assert forall|x: int| 0 <= x < st + 1 && suit_count(tr, x) != 0 implies exists|k: int|
                        0 <= k < wp.number && #[trigger] wp.winner[k].suit == x by {
                        if x == st {
                            assert(wp.winner[n as int].suit == x);
                        } else {
                            let k = choose|k: int| 0 <= k < w_before.number && #[trigger] w_before.winner[k].suit == x;
                            assert(wp.winner[k].suit == x);
                        }
                    }
                }
                let aggr = pos.aggr[st] as usize;
                let top = self.rel[aggr].abs_rank[1][st];
                let next = self.rel[aggr].abs_rank[2][st];
                pos.winner[st] = HighCard { rank: top.rank as i32, hand: top.hand as i32 };
                pos.second_best[st] = HighCard { rank: next.rank as i32, hand: next.hand as i32 };
            }
            st += 1;
        }
        self.winners[trick] = wp;
    }

    /// Take back the fourth hand's card `mply` of `depth` and write back
    /// the top cards saved when its trick was finished.
    #[verifier::spinoff_prover]
    pub fn undo0(&self, pos: &mut Pos, depth: i32, mply: &MoveType)
        requires
            self.wf(),
            1 <= depth <= 48,
            0 <= old(pos).first[depth as int] < 4,
            card_move(*mply),
            dist_room(*old(pos)),
        ensures
            card_given(
                *old(pos),
                *final(pos),
                (old(pos).first[depth as int] + 3) % 4,
                mply.suit as int,
                mply.rank as int,
            ),
            rest_same(*old(pos), *final(pos)),
            final(pos).first == old(pos).first,
            final(pos).move_history == old(pos).move_history,
            top_cards_restored(*old(pos), *final(pos), self.saved_spec((depth as int + 3) / 4)),
            pos_wf(*old(pos)) && old(pos).length[((old(pos).first[depth as int] + 3) % 4) as int][mply.suit as int]
                < 13 ==> pos_wf(*final(pos)),
    {
        let d = depth as usize;
        let trick = ((depth + 3) / 4) as usize;
        let h = ((pos.first[d] + 3) % 4) as usize;
        give_card(pos, h, mply.suit as usize, mply.rank as usize);
        let ghost p1 = *pos;
        let wp = self.winners[trick];
        assert(winners_ok(wp));
        let mut n: usize = 0;
        while n < wp.number as usize
            invariant
                winners_ok(wp),
                n <= wp.number,
                pos.rank_in_suit == p1.rank_in_suit,
                pos.aggr == p1.aggr,
                pos.length == p1.length,
                pos.hand_dist == p1.hand_dist,
                pos.first == p1.first,
                pos.move_history == p1.move_history,
                rest_same(p1, *pos),
                pos_wf(p1) ==> pos_wf(*pos),
                forall|k: int| 0 <= k < n ==> pos.winner[(#[trigger] wp.winner[k]).suit as int] == (HighCard {
                    rank: wp.winner[k].winner_rank,
                    hand: wp.winner[k].winner_hand,
                }) && pos.second_best[wp.winner[k].suit as int] == (HighCard {
                    rank: wp.winner[k].second_rank,
                    hand: wp.winner[k].second_hand,
                }),
                forall|st: int| 0 <= st < 4 && !listed(wp, n as int, st) ==> #[trigger] pos.winner[st] == p1.winner[st]
                    && pos.second_best[st] == p1.second_best[st],
            decreases wp.number - n,
        {
            let e = wp.winner[n];
            assert(winner_entry_ok(e));
            let st = e.suit as usize;
            let ghost before = *pos;
            pos.winner[st] = HighCard { rank: e.winner_rank, hand: e.winner_hand };
            pos.second_best[st] = HighCard { rank: e.second_rank, hand: e.second_hand };
            proof {
                assert forall|k: int| 0 <= k < n implies (#[trigger] wp.winner[k]).suit != e.suit by {
                    assert(wp.winner[k].suit < wp.winner[n as int].suit);
                }
                assert forall|st2: int| 0 <= st2 < 4 && !listed(wp, n + 1, st2)
                    implies #[trigger] pos.winner[st2] == p1.winner[st2] && pos.second_best[st2] == p1.second_best[st2] by {
                    if wp.winner[n as int].suit == st2 {
                        assert(listed(wp, n + 1, st2));
                    }
                    if listed(wp, n as int, st2) {
                        let k = choose|k: int| 0 <= k < n && #[trigger] wp.winner[k].suit == st2;
                        assert(listed(wp, n + 1, st2));
                    }
                    assert(before.winner[st2] == p1.winner[st2]);
                }
            }
            n += 1;
        }
        proof {
            assert(p1.winner == old(pos).winner);
            assert forall|st: int| 0 <= st < 4 && !listed(wp, wp.number as int, st)
                implies #[trigger] pos.winner[st] == old(pos).winner[st] && pos.second_best[st] == old(pos).second_best[st] by {
                assert(pos.winner[st] == p1.winner[st]);
            }
        }
    }

    /// The trick count of the MAX side after the last trick: the holder of
    /// the highest card of the deciding suit (trumps if any are left, else
    /// the suit the leader holds) wins it. `eval_win_ranks` receives that
    /// card in its suit when another hand held a card of the suit.
    pub fn evaluate(&self, pos: &Pos, eval_win_ranks: &mut [u16; 4]) -> (r: i32)
        requires
            self.wf(),
            pos_wf(*pos),
            deciding_suit(*pos, self.trump_spec() as int) < 4,
        ensures
            ({
                let k = deciding_suit(*pos, self.trump_spec() as int);
                let t = top_holder(*pos, k, 4);
                &&& r == pos.tricks_max + (if self.node_types()[t.0] == MAXNODE {
                    1int
                } else {
                    0int
                })
                &&& forall|s: int| 0 <= s < 4 ==> #[trigger] final(eval_win_ranks)[s] == (if s == k && t.2 >= 2 {
                    t.1
                } else {
                    0u16
                })
            }),
    {
        let trump = self.trump;
        let first_hand = pos.first[0] as usize;
        *eval_win_ranks = [0u16; 4];
        let mut hmax: usize = 0;
        let mut rmax: u16 = 0;
        let mut count: i32 = 0;
        if trump != 4 {
            let tu = trump as usize;
            let mut h: usize = 0;
            while h < 4
                invariant
                    h <= 4,
                    tu < 4,
                    (hmax as int, rmax, count as int) == top_holder(*pos, tu as int, h as int),
                    0 <= count <= h,
                    hmax < 4,
                decreases 4 - h,
            {
                if pos.rank_in_suit[h][tu] != 0 {
                    count += 1;
                }
                if pos.rank_in_suit[h][tu] > rmax {
                    hmax = h;
                    rmax = pos.rank_in_suit[h][tu];
                }
                h += 1;
            }
            if rmax > 0 {
                if count >= 2 {
                    eval_win_ranks[tu] = rmax;
                }
                if self.node_type_store[hmax] == MAXNODE {
                    return pos.tricks_max + 1;
                }
                return pos.tricks_max;
            }
            proof {
                lemma_no_holder(*pos, tu as int, 4);
            }
        }
        let mut k: usize = 0;
        while k < 4 && pos.rank_in_suit[first_hand][k] == 0
            invariant
                k <= 4,
                first_hand < 4,
                first_held(*pos, first_hand as int, 0) == first_held(*pos, first_hand as int, k as int),
            decreases 4 - k,
        {
            k += 1;
        }
        assert(k == first_held(*pos, first_hand as int, 0));
        let mut h: usize = 0;
        while h < 4
            invariant
                h <= 4,
                k < 4,
                (hmax as int, rmax, count as int) == top_holder(*pos, k as int, h as int),
                0 <= count <= h,
                hmax < 4,
            decreases 4 - h,
        {
            if pos.rank_in_suit[h][k] != 0 {
                count += 1;
            }
            if pos.rank_in_suit[h][k] > rmax {
                hmax = h;
                rmax = pos.rank_in_suit[h][k];
            }
            h += 1;
        }
        if count >= 2 {
            eval_win_ranks[k] = rmax;
        }
        if self.node_type_store[hmax] == MAXNODE {
            pos.tricks_max + 1
        } else {
            pos.tricks_max
        }
    }

    /// Set up the search of the deal in `pos` (its hands): the union of
    /// each suit, the suit lengths and their packed form, the seat of each
    /// card for the transposition table, the card table, and the top two
    /// cards of each suit.
    pub fn set_deal(&mut self, pos: &mut Pos, tt: &mut TransTable)
        requires
            old(self).wf(),
            pos_wf(*old(pos)),
            old(tt).wf(),
        ensures
            final(self).wf(),
            final(self).trump_spec() == old(self).trump_spec(),
            final(self).node_types() == old(self).node_types(),
            final(self).ini_depth_spec() == old(self).ini_depth_spec(),
            final(tt).wf(),
            pos_wf(*final(pos)),
            dist_room(*final(pos)),
            final(pos).rank_in_suit == old(pos).rank_in_suit,
            rest_same(*old(pos), *final(pos)),
            final(pos).first == old(pos).first,
            final(pos).move_history == old(pos).move_history,
            forall|s: int| 0 <= s < 4 ==> #[trigger] final(pos).aggr[s] == (old(pos).rank_in_suit[0][s]
                | old(pos).rank_in_suit[1][s] | old(pos).rank_in_suit[2][s] | old(pos).rank_in_suit[3][s]),
            forall|h: int, s: int| 0 <= h < 4 && 0 <= s < 4 ==> #[trigger] final(pos).length[h][s] == popcount(
                old(pos).rank_in_suit[h][s],
            ),
            forall|h: int| 0 <= h < 4 ==> #[trigger] final(pos).hand_dist[h] == 256 * final(pos).length[h][0] + 16
                * final(pos).length[h][1] + final(pos).length[h][2],
            forall|a: int, k: int, s: int|
                0 <= a < 8192 && 0 <= k < 15 && 0 <= s < 4 ==> #[trigger] final(self).rel_spec()[a].abs_rank[k][s]
                    == rel_entry(old(pos).rank_in_suit, a as u16, k, s),
            forall|s: int| 0 <= s < 4 ==> #[trigger] final(pos).winner[s] == table_card(
                final(self).rel_spec(),
                final(pos).aggr[s],
                1,
                s,
            ),
            forall|s: int| 0 <= s < 4 ==> #[trigger] final(pos).second_best[s] == table_card(
                final(self).rel_spec(),
                final(pos).aggr[s],
                2,
                s,
            ),
    {
        let ghost p0 = *pos;
        let mut s: usize = 0;
        while s < 4
            invariant
                s <= 4,
                pos_wf(*pos),
                pos.rank_in_suit == p0.rank_in_suit,
                pos.length == p0.length,
                pos.hand_dist == p0.hand_dist,
                pos.winner == p0.winner,
                pos.second_best == p0.second_best,
                pos.first == p0.first,
                pos.move_history == p0.move_history,
                rest_same(p0, *pos),
                forall|s2: int| 0 <= s2 < s ==> #[trigger] pos.aggr[s2] == (p0.rank_in_suit[0][s2]
                    | p0.rank_in_suit[1][s2] | p0.rank_in_suit[2][s2] | p0.rank_in_suit[3][s2]),
            decreases 4 - s,
        {
            let mut a: u16 = 0;
            let mut h: usize = 0;
            while h < 4
                invariant
                    h <= 4,
                    s < 4,
                    pos_wf(*pos),
                    a < 8192,
                    a == (if h == 0 {
                        0u16
                    } else if h == 1 {
                        pos.rank_in_suit[0][s as int]
                    } else if h == 2 {
                        pos.rank_in_suit[0][s as int] | pos.rank_in_suit[1][s as int]
                    } else if h == 3 {
                        pos.rank_in_suit[0][s as int] | pos.rank_in_suit[1][s as int] | pos.rank_in_suit[2][s as int]
                    } else {
                        pos.rank_in_suit[0][s as int] | pos.rank_in_suit[1][s as int] | pos.rank_in_suit[2][s as int]
                            | pos.rank_in_suit[3][s as int]
                    }),
                decreases 4 - h,
            {
                proof {
                    lemma_bits_stay_small(a, pos.rank_in_suit[h as int][s as int]);
                    crate::lookup::lemma_or_zero(pos.rank_in_suit[h as int][s as int]);
                }
                a = a | pos.rank_in_suit[h][s];
                h += 1;
            }
            pos.aggr[s] = a;
            s += 1;
        }
        let mut h: usize = 0;
        while h < 4
            invariant
                h <= 4,
                pos.rank_in_suit == p0.rank_in_suit,
                forall|s2: int| 0 <= s2 < 4 ==> #[trigger] pos.aggr[s2] == (p0.rank_in_suit[0][s2]
                    | p0.rank_in_suit[1][s2] | p0.rank_in_suit[2][s2] | p0.rank_in_suit[3][s2]),
                forall|s2: int| 0 <= s2 < 4 ==> #[trigger] pos.aggr[s2] < 8192,
                forall|h2: int, s2: int| 0 <= h2 < 4 && 0 <= s2 < 4 ==> #[trigger] p0.rank_in_suit[h2][s2] < 8192,
                forall|h2: int, s2: int| 0 <= h2 < h && 0 <= s2 < 4 ==> #[trigger] pos.length[h2][s2] == popcount(
                    p0.rank_in_suit[h2][s2],
                ),
                forall|h2: int, s2: int| 0 <= h2 < 4 && 0 <= s2 < 4 ==> #[trigger] pos.length[h2][s2] <= 13,
                forall|h2: int| 0 <= h2 < h ==> #[trigger] pos.hand_dist[h2] == 256 * pos.length[h2][0] + 16
                    * pos.length[h2][1] + pos.length[h2][2],
                pos.winner == p0.winner,
                pos.second_best == p0.second_best,
                pos.first == p0.first,
                pos.move_history == p0.move_history,
                rest_same(p0, *pos),
                pos_wf(p0),
            decreases 4 - h,
        {
            let mut lens = pos.length[h];
            let mut s: usize = 0;
            while s < 4
                invariant
                    h < 4,
                    s <= 4,
                    forall|h2: int, s2: int| 0 <= h2 < 4 && 0 <= s2 < 4 ==> #[trigger] p0.rank_in_suit[h2][s2] < 8192,
                    pos.rank_in_suit == p0.rank_in_suit,
                    forall|s2: int| 0 <= s2 < s ==> #[trigger] lens[s2] == popcount(p0.rank_in_suit[h as int][s2]),
                    forall|s2: int| 0 <= s2 < 4 ==> #[trigger] lens[s2] <= 13,
                decreases 4 - s,
            {
                proof {
                    lemma_popcount_small(pos.rank_in_suit[h as int][s as int]);
                }
                lens[s] = count_ones16(pos.rank_in_suit[h][s]) as u8;
                s += 1;
            }
            pos.length[h] = lens;
            pos.hand_dist[h] = (lens[0] as i32) * 256 + (lens[1] as i32) * 16 + lens[2] as i32;
            h += 1;
        }
        let ghost p2 = *pos;
        let lookup = build_hand_lookup(&pos.rank_in_suit);
        tt.init(&lookup);
        self.rel = build_rel_for(&pos.rank_in_suit);
        proof {
            assert forall|a: int, k: int, s2: int|
                0 <= a < self.rel@.len() && 0 <= k < 15 && 0 <= s2 < 4 && #[trigger] self.rel@[a].abs_rank[k][s2].rank
                    != 0 implies self.rel@[a].abs_rank[k][s2].hand >= 0 by {
                lemma_rel_entry_holder(p0.rank_in_suit, a as u16, k, s2);
            }
        }
        let mut s: usize = 0;
        while s < 4
            invariant
                s <= 4,
                rel_ok(self.rel@),
                rel_holders_ok(self.rel@),
                pos.rank_in_suit == p0.rank_in_suit,
                forall|s2: int| 0 <= s2 < 4 ==> #[trigger] pos.aggr[s2] < 8192,
                forall|s2: int| 0 <= s2 < s ==> #[trigger] pos.winner[s2] == table_card(self.rel@, pos.aggr[s2], 1, s2),
                forall|s2: int| 0 <= s2 < s ==> #[trigger] pos.second_best[s2] == table_card(self.rel@, pos.aggr[s2], 2, s2),
                forall|s2: int| s <= s2 < 4 ==> #[trigger] pos.winner[s2] == p0.winner[s2],
                forall|s2: int| s <= s2 < 4 ==> #[trigger] pos.second_best[s2] == p0.second_best[s2],
                pos_wf(p0),
                pos.length == p2.length,
                pos.hand_dist == p2.hand_dist,
                pos.aggr == p2.aggr,
                pos.first == p2.first,
                pos.move_history == p2.move_history,
                rest_same(p2, *pos),
            decreases 4 - s,
        {
            let a = pos.aggr[s] as usize;
            let top = self.rel[a].abs_rank[1][s];
            let next = self.rel[a].abs_rank[2][s];
            pos.winner[s] = HighCard { rank: top.rank as i32, hand: top.hand as i32 };
            pos.second_best[s] = HighCard { rank: next.rank as i32, hand: next.hand as i32 };
            s += 1;
        }
        proof {
            assert forall|s2: int| 0 <= s2 < 4 implies #[trigger] high_card_wf(pos.winner[s2]) && high_card_wf(
                pos.second_best[s2],
            ) by {
                let a = pos.aggr[s2] as int;
                assert(0 <= a < 8192);
                assert(0 <= self.rel@[a].abs_rank[1][s2].rank <= 14);
                assert(0 <= self.rel@[a].abs_rank[2][s2].rank <= 14);
            }
            assert forall|h2: int| 0 <= h2 < 4 implies i32::MIN + 256 <= #[trigger] pos.hand_dist[h2] <= i32::MAX - 256 by {
                assert(pos.length[h2][0] <= 13 && pos.length[h2][1] <= 13 && pos.length[h2][2] <= 13);
            }
        }
    }

    /// Take back the leader's card `mply` of `depth`.
    pub fn undo1(&self, pos: &mut Pos, depth: i32, mply: &MoveType)
        requires
            0 <= depth < 50,
            0 <= old(pos).first[depth as int] < 4,
            card_move(*mply),
            dist_room(*old(pos)),
        ensures
            card_given(*old(pos), *final(pos), old(pos).first[depth as int] as int, mply.suit as int, mply.rank as int),
            rest_same(*old(pos), *final(pos)),
            final(pos).first == old(pos).first,
            final(pos).move_history == old(pos).move_history,
            final(pos).winner == old(pos).winner,
            final(pos).second_best == old(pos).second_best,
    {
        let h = pos.first[depth as usize] as usize;
        give_card(pos, h, mply.suit as usize, mply.rank as usize);
    }

    /// Take back the card `mply` of the hand at `offset` (1 or 2) after the
    /// leader of `depth`.
    fn undo_follow(&self, pos: &mut Pos, depth: i32, mply: &MoveType, offset: i32)
        requires
            0 <= depth < 50,
            0 <= old(pos).first[depth as int] < 4,
            1 <= offset <= 3,
            card_move(*mply),
            dist_room(*old(pos)),
        ensures
            card_given(
                *old(pos),
                *final(pos),
                (old(pos).first[depth as int] + offset) % 4,
                mply.suit as int,
                mply.rank as int,
            ),
            rest_same(*old(pos), *final(pos)),
            final(pos).first == old(pos).first,
            final(pos).move_history == old(pos).move_history,
            final(pos).winner == old(pos).winner,
            final(pos).second_best == old(pos).second_best,
    {
        let h = ((pos.first[depth as usize] + offset) % 4) as usize;
        give_card(pos, h, mply.suit as usize, mply.rank as usize);
    }

    /// Take back the second hand's card `mply` of `depth`.
    pub fn undo2(&self, pos: &mut Pos, depth: i32, mply: &MoveType)
        requires
            0 <= depth < 50,
            0 <= old(pos).first[depth as int] < 4,
            card_move(*mply),
            dist_room(*old(pos)),
        ensures
            card_given(
                *old(pos),
                *final(pos),
                (old(pos).first[depth as int] + 1) % 4,
                mply.suit as int,
                mply.rank as int,
            ),
            rest_same(*old(pos), *final(pos)),
            final(pos).first == old(pos).first,
            final(pos).move_history == old(pos).move_history,
            final(pos).winner == old(pos).winner,
            final(pos).second_best == old(pos).second_best,
    {
        self.undo_follow(pos, depth, mply, 1);
    }

    /// Take back the third hand's card `mply` of `depth`.
    pub fn undo3(&self, pos: &mut Pos, depth: i32, mply: &MoveType)
        requires
            0 <= depth < 50,
            0 <= old(pos).first[depth as int] < 4,
            card_move(*mply),
            dist_room(*old(pos)),
        ensures
            card_given(
                *old(pos),
                *final(pos),
                (old(pos).first[depth as int] + 2) % 4,
                mply.suit as int,
                mply.rank as int,
            ),
            rest_same(*old(pos), *final(pos)),
            final(pos).first == old(pos).first,
            final(pos).move_history == old(pos).move_history,
            final(pos).winner == old(pos).winner,
            final(pos).second_best == old(pos).second_best,
    {
        self.undo_follow(pos, depth, mply, 2);
    }
}

} // verus!

verus! {

/// A card of a trick whose rank is a rank and whose sequence is a rank set.
pub open spec fn card_small(c: ExtCard) -> bool {
    0 <= c.rank <= 14 && 0 <= c.sequence < 8192
}

/// What a search from depth `d`, with `played` cards of its trick played,
/// needs of the engine and the position: both well formed, the hands in
/// step with the depth, the leader the move generator records for the
/// trick that of the position, and the cards played to the trick small.
pub open spec fn search_ready(e: Engine, p: Pos, d: int, played: int) -> bool {
    let t = (d + played) / 4;
    &&& e.wf()
    &&& deal_ok(p)
    &&& counts_ok(p, d, played)
    &&& d + played <= 48
    &&& e.moves_spec().tracks()[t].lead_hand == p.first[d]
    &&& forall|h: int| 0 <= h < played ==> card_small(#[trigger] e.moves_spec().tracks()[t].move_played[h])
}

/// The MAX side's tricks after the last trick of `p`, as the engine `e`
/// scores it: those won so far, and one more when the card that decides
/// the last trick belongs to the MAX side.
pub open spec fn last_trick_value(e: Engine, p: Pos) -> int {
    p.tricks_max + if e.node_types()[top_holder(p, deciding_suit(p, e.trump_spec() as int), 4).0] == MAXNODE {
        1int
    } else {
        0int
    }
}

/// The last trick's value depends on the hands, the leader of the last
/// trick and the tricks won alone.
pub proof fn lemma_last_trick_same(e: Engine, a: Pos, b: Pos)
    requires
        a.rank_in_suit == b.rank_in_suit,
        a.first[0] == b.first[0],
        a.tricks_max == b.tricks_max,
    ensures
        last_trick_value(e, a) == last_trick_value(e, b),
        deciding_suit(a, e.trump_spec() as int) == deciding_suit(b, e.trump_spec() as int),
{
    assert forall|s: int, n: int| n <= 4 implies #[trigger] top_holder(a, s, n) == top_holder(b, s, n) by {
        lemma_top_holder_same(a, b, s, n);
    }
    assert forall|h: int, k: int| k >= 0 implies #[trigger] first_held(a, h, k) == first_held(b, h, k) by {
        lemma_first_held_same(a, b, h, k);
    }
}

proof fn lemma_top_holder_same(a: Pos, b: Pos, s: int, n: int)
    requires
        a.rank_in_suit == b.rank_in_suit,
    ensures
        top_holder(a, s, n) == top_holder(b, s, n),
    decreases n,
{
    if n > 0 {
        lemma_top_holder_same(a, b, s, n - 1);
    }
}

proof fn lemma_first_held_same(a: Pos, b: Pos, h: int, k: int)
    requires
        a.rank_in_suit == b.rank_in_suit,
    ensures
        first_held(a, h, k) == first_held(b, h, k),
    decreases 4 - k,
{
    if k < 4 {
        lemma_first_held_same(a, b, h, k + 1);
    }
}

/// The bounds that decide a search at depth `d`, with `played` cards of
/// its trick played, from the tricks won alone (at depths below 20, where
/// the transposition table is not probed first): when the MAX side has
/// won `target` tricks the result `r` is yes, when even every trick left
/// would leave it short the result is no.
pub open spec fn bound_holds(p: Pos, d: int, played: int, target: int, r: bool) -> bool {
    &&& d < 20 && p.tricks_max >= target ==> r
    &&& d < 20 && p.tricks_max + (d + played) / 4 + 1 < target ==> !r
}

/// [`bound_holds`] for the side of the hand to play next, `max_moves`
/// telling whether it is the MAX side: the yes when it is, the no when it
/// is not (its own sure tricks may settle the search first).
pub open spec fn bound_holds_side(p: Pos, d: int, played: int, target: int, r: bool, max_moves: bool) -> bool {
    &&& d < 20 && p.tricks_max >= target && max_moves ==> r
    &&& d < 20 && p.tricks_max + (d + played) / 4 + 1 < target && !max_moves ==> !r
}

/// The engine's setup is unchanged from `e0` to `e1`.
pub open spec fn setup_kept(e0: Engine, e1: Engine) -> bool {
    &&& e1.trump_spec() == e0.trump_spec()
    &&& e1.node_types() == e0.node_types()
    &&& e1.ini_depth_spec() == e0.ini_depth_spec()
    &&& e1.rel_spec() == e0.rel_spec()
}

/// What a search from depth `d`, with `played` cards of its trick played,
/// leaves as it found it: the engine's setup, the hands, the top two cards
/// of each suit, the tricks won, the leaders of the depths from `d` up,
/// the move lists, records and saved top cards of the tricks before this
/// one, and of this trick the move lists of the hands that played, its
/// leader and its cards.
pub open spec fn search_kept(e0: Engine, e1: Engine, p0: Pos, p1: Pos, d: int, played: int) -> bool {
    let t = (d + played) / 4;
    let m0 = e0.moves_spec();
    let m1 = e1.moves_spec();
    &&& e1.wf()
    &&& setup_kept(e0, e1)
    &&& deal_ok(p1)
    &&& same_hands(p0, p1)
    &&& p1.tricks_max == p0.tricks_max
    &&& p1.hand_rel_first == p0.hand_rel_first
    &&& p1.winner == p0.winner
    &&& p1.second_best == p0.second_best
    &&& forall|t2: int| t < t2 < 13 ==> #[trigger] e1.saved_spec(t2) == e0.saved_spec(t2)
    &&& forall|d2: int| d <= d2 < 50 ==> #[trigger] p1.first[d2] == p0.first[d2]
    &&& forall|t2: int, h2: int|
        0 <= t2 < 50 && 0 <= h2 < 4 && (t2 > t || (t2 == t && h2 < played)) ==> #[trigger] m1.plies()[t2][h2]
            == m0.plies()[t2][h2]
    &&& forall|t2: int| t < t2 < 50 ==> #[trigger] m1.tracks()[t2] == m0.tracks()[t2]
    &&& m1.tracks()[t].lead_hand == m0.tracks()[t].lead_hand
    &&& forall|h2: int| 0 <= h2 < played ==> #[trigger] m1.tracks()[t].move_played[h2] == m0.tracks()[t].move_played[h2]
}

/// What playing the card of the hand `k` places after the leader of the
/// trick of depth `d`, searching on and taking the card back leaves as it
/// found it: as [`search_kept`], with the move list and the card of that
/// hand kept too.
pub open spec fn step_kept(e0: Engine, e1: Engine, p0: Pos, p1: Pos, d: int, k: int) -> bool {
    let t = (d + k) / 4;
    let m0 = e0.moves_spec();
    let m1 = e1.moves_spec();
    &&& e1.wf()
    &&& setup_kept(e0, e1)
    &&& deal_ok(p1)
    &&& same_hands(p0, p1)
    &&& p1.tricks_max == p0.tricks_max
    &&& p1.hand_rel_first == p0.hand_rel_first
    &&& p1.winner == p0.winner
    &&& p1.second_best == p0.second_best
    &&& forall|t2: int| t < t2 < 13 ==> #[trigger] e1.saved_spec(t2) == e0.saved_spec(t2)
    &&& forall|d2: int| d <= d2 < 50 ==> #[trigger] p1.first[d2] == p0.first[d2]
    &&& forall|t2: int, h2: int|
        0 <= t2 < 50 && 0 <= h2 < 4 && (t2 > t || (t2 == t && h2 <= k)) ==> #[trigger] m1.plies()[t2][h2]
            == m0.plies()[t2][h2]
    &&& forall|t2: int| t < t2 < 50 ==> #[trigger] m1.tracks()[t2] == m0.tracks()[t2]
    &&& m1.tracks()[t].lead_hand == m0.tracks()[t].lead_hand
    &&& forall|h2: int| 0 <= h2 <= k ==> #[trigger] m1.tracks()[t].move_played[h2] == m0.tracks()[t].move_played[h2]
}

/// The card that wins a trick so far, after a small card is played to
/// it, is small when the cards before it were.
pub proof fn lemma_chosen_small(a: Track, trump: int, k: int, mv: MoveType)
    requires
        0 <= k < 4,
        k > 0 ==> card_small(a.move_played[k - 1]),
        0 <= mv.rank <= 14,
        0 <= mv.sequence < 8192,
    ensures
        card_small(crate::moves::chosen(a, trump, k, mv).0),
{
}

/// Whether a list holds only held cards depends on the hands alone.
pub proof fn lemma_ply_held_same(a: Pos, b: Pos, h: int, l: crate::move_type::MovePly)
    requires
        crate::held::ply_held(a, h, l),
        a.rank_in_suit == b.rank_in_suit,
    ensures
        crate::held::ply_held(b, h, l),
{
    assert forall|k: int| 0 <= k <= l.last implies #[trigger] crate::held::holds_move(b, h, l.moves[k]) by {
        assert(crate::held::holds_move(a, h, l.moves[k]));
    }
}

/// The card counts depend on the lengths and the leader alone.
pub proof fn lemma_counts_same(a: Pos, b: Pos, d: int, played: int)
    requires
        counts_ok(a, d, played),
        a.length == b.length,
        a.first[d] == b.first[d],
    ensures
        counts_ok(b, d, played),
{
    assert forall|h: int| 0 <= h < 4 implies #[trigger] hand_count(b, h) == hand_count(a, h) by {}
}

/// Changing only a row of `win_ranks` keeps the position as the search
/// keeps it.
pub proof fn lemma_row_only(a: Pos, b: Pos, d: int)
    requires
        deal_ok(a),
        pos_wf(b),
        same_but_win_row(a, b, d),
    ensures
        deal_ok(b),
        same_hands(a, b),
{
}

/// A row recorded by the later-tricks heuristics keeps the position as
/// the search keeps it.
pub proof fn lemma_records_keep(a: Pos, b: Pos, d: int, row: Option<Seq<u16>>)
    requires
        deal_ok(a),
        0 <= d < 50,
        records(a, b, d, row),
        rows_small(row),
    ensures
        deal_ok(b),
        same_hands(a, b),
        same_but_win_row(a, b, d),
{
    assert forall|d2: int, s: int| 0 <= d2 < 50 && 0 <= s < 4 implies #[trigger] b.win_ranks[d2][s] < 8192 by {
        if d2 != d {
            assert(b.win_ranks[d2] == a.win_ranks[d2]);
        } else {
            match row {
                Some(r) => {
                    assert(b.win_ranks[d]@ == r);
                    assert(b.win_ranks[d]@[s] == r[s]);
                },
                None => {},
            }
        }
    }
}

/// Taking back a card after a search that left the hands as it found them
/// restores the hands from before the card was played.
pub proof fn lemma_undo_back(pre: Pos, mid: Pos, aft: Pos, fin: Pos, h: int, s: int, r: int)
    requires
        deal_ok(pre),
        0 <= h < 4,
        0 <= s < 4,
        has_rank(pre.rank_in_suit[h][s], r),
        pos_wf(mid),
        card_taken(pre, mid, h, s, r),
        same_hands(mid, aft),
        deal_ok(aft),
        card_given(aft, fin, h, s, r),
        rest_same(aft, fin),
        fin.first == aft.first,
        pos_wf(fin) || (fin.winner == aft.winner && fin.second_best == aft.second_best),
    ensures
        same_hands(pre, fin),
        deal_ok(fin),
{
    lemma_play_held(pre, mid, h, s, r);
    assert(card_given(mid, fin, h, s, r));
    crate::lookup::lemma_has_rank(pre.rank_in_suit[h][s], r);
    assert(has_rank(pre.aggr[s], r)) by {
        assert(bit(pre.rank_in_suit[h][s], (r - 2) as nat));
    }
    lemma_card_back(pre, mid, fin, h, s, r);
}

/// At the last trick the leader holds a card, so the suit that decides it
/// is a suit.
pub proof fn lemma_last_trick_suit(p: Pos, trump: int)
    requires
        deal_ok(p),
        counts_ok(p, 0, 0),
        0 <= trump <= 4,
    ensures
        0 <= deciding_suit(p, trump) < 4,
{
    let h = p.first[0] as int;
    assert(hand_count(p, h) == 1);
    crate::bits::lemma_popcount_zero();
    reveal_with_fuel(first_held, 5);
    if !(trump != 4 && top_holder(p, trump, 4).1 > 0) {
        assert(p.length[h][0] >= 1 || p.length[h][1] >= 1 || p.length[h][2] >= 1 || p.length[h][3] >= 1);
    }
}

/// The highest holding of a suit is a rank set.
pub proof fn lemma_top_holder_small(p: Pos, s: int, n: int)
    requires
        pos_wf(p),
        0 <= s < 4,
        n <= 4,
    ensures
        top_holder(p, s, n).1 < 8192,
    decreases n,
{
    if n > 0 {
        lemma_top_holder_small(p, s, n - 1);
    }
}

/// A right shift by two of a small number is a division by four.
pub proof fn lemma_shr2(x: i32)
    requires
        0 <= x < 64,
    ensures
        x >> 2 == x / 4,
{
    assert(0 <= x < 64 ==> x >> 2 == x / 4) by (bit_vector);
}

/// Masking a small number with three is taking it modulo four.
pub proof fn lemma_and3(x: i32)
    requires
        0 <= x < 8,
    ensures
        x & 3 == x % 4,
{
    assert(0 <= x < 8 ==> x & 3 == x % 4) by (bit_vector);
}

/// The union of two rows of rank sets is a row of rank sets.
pub proof fn lemma_row_or(a: u16, b: u16)
    requires
        a < 8192,
        b < 8192,
    ensures
        (a | b) < 8192,
{
    assert(a < 8192 && b < 8192 ==> (a | b) < 8192) by (bit_vector);
}

} // verus!

verus! {

impl Engine {
    /// The checks made at the lead of the trick at `depth` before any card
    /// is tried: the transposition table, the trivial bounds on the trick
    /// count, the last trick, the sure tricks and the later-tricks bounds.
    /// `Some` result when one of them settles the search against
    /// `target` (with `win_ranks[depth]` set to the ranks that decided it),
    /// `None` when the cards must be tried.
    #[verifier::spinoff_prover]
    fn settle_lead(&mut self, pos: &mut Pos, tt: &mut TransTable, target: i32, depth: i32) -> (r: Option<bool>)
        requires
            search_ready(*old(self), *old(pos), depth as int, 0),
            old(tt).wf(),
            1 <= target <= 13,
        ensures
            final(self).wf(),
            setup_kept(*old(self), *final(self)),
            final(self).moves_spec() == old(self).moves_spec(),
            final(tt).wf(),
            deal_ok(*final(pos)),
            same_but_win_row(*old(pos), *final(pos), depth as int),
            r is None ==> depth > 0 && old(pos).tricks_max < target,
            forall|t: int| #[trigger] final(self).saved_spec(t) == old(self).saved_spec(t),
            depth < 20 && old(pos).tricks_max >= target ==> r == Some(true),
            depth < 20 && old(pos).tricks_max < target && old(pos).tricks_max + depth / 4 + 1 < target ==> r == Some(false),
            depth == 0 ==> r == Some(last_trick_value(*old(self), *old(pos)) >= target),
    {
        let ghost p0 = *pos;
        let trump = self.trump;
        let depth_u = depth as usize;
        let hand = pos.first[depth_u];
        let tricks = depth >> 2;
        proof {
            lemma_shr2(depth);
        }
        pos.win_ranks[depth_u] = [0u16; 4];
        proof {
            lemma_row_only(p0, *pos, depth as int);
        }
        if depth >= 20 && tricks < 12 {
            let found = self.tt_lookup(pos, tt, target, depth, tricks, hand);
            if found.is_some() {
                return found;
            }
        }
        if pos.tricks_max >= target {
            return Some(true);
        }
        if pos.tricks_max + tricks + 1 < target {
            return Some(false);
        }
        if depth == 0 {
            let mut ev_win = [0u16; 4];
            proof {
                lemma_counts_same(p0, *pos, 0, 0);
                lemma_last_trick_suit(*pos, trump as int);
                lemma_last_trick_same(*self, p0, *pos);
            }
            let value_tricks = self.evaluate(pos, &mut ev_win);
            let value = value_tricks >= target;
            proof {
                lemma_top_holder_small(*pos, deciding_suit(*pos, trump as int), 4);
            }
            let ghost p1 = *pos;
            pos.win_ranks[depth_u] = ev_win;
            proof {
                assert(same_but_win_row(p1, *pos, 0));
                lemma_row_only(p1, *pos, 0);
            }
            return Some(value);
        }
        let mut res = false;
        let ghost p1 = *pos;
        let qtricks = quick_tricks(pos, hand, depth, target, trump, &mut res, &self.node_type_store, &self.rel);
        proof {
            lemma_row_only(p1, *pos, depth as int);
        }
        let hand_u = hand as usize;
        let ghost p2 = *pos;
        proof {
            crate::later_tricks::lemma_later_rows_small(p2, hand as int, depth as int, target as int, trump as int, self.node_type_store);
        }
        if self.node_type_store[hand_u] == MAXNODE {
            if res {
                return Some(qtricks != 0);
            }
            let lt = later_tricks_min(pos, hand, depth, target, trump, &self.node_type_store);
            proof {
                lemma_records_keep(p2, *pos, depth as int, crate::later_tricks::later_min_spec(p2, hand as int, depth as int, target as int, trump as int, self.node_type_store).1);
            }
            if !lt {
                return Some(false);
            }
        } else {
            if res {
                return Some(qtricks == 0);
            }
            let lt = later_tricks_max(pos, hand, depth, target, trump, &self.node_type_store);
            proof {
                lemma_records_keep(p2, *pos, depth as int, crate::later_tricks::later_max_spec(p2, hand as int, depth as int, target as int, trump as int, self.node_type_store).1);
            }
            if lt {
                return Some(true);
            }
        }
        if depth < 20 && tricks < 12 {
            let found = self.tt_lookup(pos, tt, target, depth, tricks, hand);
            if found.is_some() {
                return found;
            }
        }
        None
    }

    /// Search from the lead of the trick at `depth`: whether the MAX side
    /// can take `target` tricks in all, counting the `tricks_max` it has
    /// won. The transposition table, sure tricks and the later-tricks
    /// bounds settle the position where they can; otherwise every lead is
    /// tried in turn until one reaches the goal of the side on lead. The
    /// ranks that decided the result are left in `win_ranks[depth]` and
    /// the bounds found are stored in the table. The hands are left as
    /// they were.
    #[verifier::spinoff_prover]
    pub fn ab_search_0(&mut self, pos: &mut Pos, tt: &mut TransTable, target: i32, depth: i32) -> (r: bool)
        requires
            search_ready(*old(self), *old(pos), depth as int, 0),
            old(tt).wf(),
            1 <= target <= 13,
        ensures
            search_kept(*old(self), *final(self), *old(pos), *final(pos), depth as int, 0),
            final(tt).wf(),
            depth < 20 && old(pos).tricks_max >= target ==> r,
            depth < 20 && old(pos).tricks_max + depth / 4 + 1 < target ==> !r,
            depth == 0 ==> r == (last_trick_value(*old(self), *old(pos)) >= target),
        decreases depth, 1int,
    {
        let ghost p0 = *pos;
        let ghost e0 = *self;
        let settled = self.settle_lead(pos, tt, target, depth);
        if let Some(value) = settled {
            return value;
        }
        let ghost e_s = *self;
        let trump = self.trump;
        let depth_u = depth as usize;
        let hand = pos.first[depth_u];
        let lead = hand;
        let tricks = depth >> 2;
        proof {
            lemma_shr2(depth);
        }
        let hand_u = hand as usize;
        let success = self.node_type_store[hand_u] == MAXNODE;
        let mut value = !success;
        self.lowest_win[depth_u] = [0u16; 4];
        let bm = self.best_move[depth_u];
        let bmtt = self.best_move_tt[depth_u];
        proof {
            self.moves.lemma_wf_bounds();
            lemma_counts_same(p0, *pos, depth as int, 0);
            assert(hand_count(*pos, hand as int) <= 13);
            assert(pos.length[hand as int][0] == popcount(pos.rank_in_suit[hand as int][0]));
            assert(pos.length[hand as int][1] == popcount(pos.rank_in_suit[hand as int][1]));
            assert(pos.length[hand as int][2] == popcount(pos.rank_in_suit[hand as int][2]));
            assert(pos.length[hand as int][3] == popcount(pos.rank_in_suit[hand as int][3]));
            crate::held::lemma_hand_groups(*pos, hand as int);
            crate::held::lemma_all_cands_held(*pos, hand as int, self.moves.tracks()[tricks as int].removed_ranks@);
        }
        let ghost m_before = self.moves;
        let nm = self.moves.move_gen_0(tricks, pos, &bm, &bmtt, &self.rel);
        proof {
            self.moves.lemma_same_setup_trump(&m_before);
            self.moves.lemma_wf_bounds();
            let t = tricks as int;
            crate::held::lemma_gen_held(*pos, hand as int, all_cands(*pos, hand as int, m_before.tracks()[t].removed_ranks@),
                m_before.plies()[t][0], self.moves.plies()[t][0], nm as int);
            assert(self.winners == e_s.winners);
            assert forall|t2: int| tricks < t2 < 13 implies #[trigger] self.saved_spec(t2) == e0.saved_spec(t2) by {
                assert(e_s.saved_spec(t2) == e0.saved_spec(t2));
            }
        }
        let ghost p3 = *pos;
        pos.win_ranks[depth_u] = [0u16; 4];
        proof {
            lemma_row_only(p3, *pos, depth as int);
            lemma_ply_held_same(p3, *pos, hand as int, self.moves.plies()[tricks as int][0]);
            lemma_counts_same(p0, *pos, depth as int, 0);
        }
        let mut chosen_move = MoveType::zero();
        let mut cutoff = false;
        let mut done = false;
        while !done
            invariant
                0 < depth,
                depth + 0 <= 48,
                depth_u == depth,
                tricks == (depth + 0) / 4,
                0 <= tricks < 13,
                1 <= target <= 13,
                self.wf(),
                setup_kept(e0, *self),
                self.trump == trump,
                tt.wf(),
                deal_ok(*pos),
                same_hands(p0, *pos),
                pos.tricks_max == p0.tricks_max,
                pos.hand_rel_first == p0.hand_rel_first,
                pos.winner == p0.winner,
                pos.second_best == p0.second_best,
                forall|t2: int| tricks < t2 < 13 ==> #[trigger] self.saved_spec(t2) == e0.saved_spec(t2),
                pos.tricks_max < target,
                forall|d2: int| depth <= d2 < 50 ==> #[trigger] pos.first[d2] == p0.first[d2],
                lead == p0.first[depth as int],
                hand == (lead + 0) % 4,
                counts_ok(*pos, depth as int, 0),
                success == (self.node_types()[hand as int] == MAXNODE),
                cutoff ==> done,
                self.moves_spec().tracks()[tricks as int].lead_hand == lead,
                forall|h2: int| 0 <= h2 < 0 ==> #[trigger] self.moves_spec().tracks()[tricks as int].move_played[h2]
                    == e0.moves_spec().tracks()[tricks as int].move_played[h2],
                forall|h2: int| 0 <= h2 < 0 ==> card_small(#[trigger] self.moves_spec().tracks()[tricks as int].move_played[h2]),
                crate::held::ply_held(*pos, hand as int, self.moves_spec().plies()[tricks as int][0]),
                forall|t2: int, h2: int|
                    0 <= t2 < 50 && 0 <= h2 < 4 && (t2 > tricks || (t2 == tricks && h2 < 0)) ==> #[trigger] self.moves_spec().plies()[t2][h2]
                        == e0.moves_spec().plies()[t2][h2],
                forall|t2: int| tricks < t2 < 50 ==> #[trigger] self.moves_spec().tracks()[t2] == e0.moves_spec().tracks()[t2],
            decreases 2 * (15 - self.moves_spec().plies()[tricks as int][0].current) + if done { 0int } else { 1int },
        {
            proof {
                self.moves.lemma_wf_bounds();
            }
            let win_arr = pos.win_ranks[depth_u];
            let ghost e_top = *self;
            let ghost m1 = self.moves;
            let next = self.moves.make_next(tricks, 0, &win_arr);
            proof {
                assert(self.winners == e_top.winners);
                assert forall|t2: int| tricks < t2 < 13 implies #[trigger] self.saved_spec(t2) == e0.saved_spec(t2) by {
                    assert(e_top.saved_spec(t2) == e0.saved_spec(t2));
                }
                self.moves.lemma_same_setup_trump(&m1);
                self.moves.lemma_wf_bounds();
                m1.lemma_wf_bounds();
                let l = m1.plies()[tricks as int][0];
                let l2 = self.moves_spec().plies()[tricks as int][0];
                assert forall|k: int| 0 <= k <= l2.last implies #[trigger] crate::held::holds_move(*pos, hand as int, l2.moves[k]) by {
                    assert(l2.moves[k] == l.moves[k]);
                    assert(crate::held::holds_move(*pos, hand as int, l.moves[k]));
                }
            }
            match next {
                None => {
                    done = true;
                },
                Some(mply) => {
                    let ghost pre = *pos;
                    let ghost e1 = *self;
                    proof {
                        let t = tricks as int;
                        let l = m1.plies()[t][0];
                        let i = choose|i: int| 0 <= i <= l.last && mply == #[trigger] l.moves[i];
                        assert(crate::held::holds_move(pre, hand as int, l.moves[i]));
                        assert(crate::moves::ply_ok(l));
                        let l2 = self.moves_spec().plies()[t][0];
                        assert forall|k: int| 0 <= k <= l2.last implies #[trigger] crate::held::holds_move(pre, hand as int, l2.moves[k]) by {
                            assert(l2.moves[k] == l.moves[k]);
                            assert(crate::held::holds_move(pre, hand as int, l.moves[k]));
                        }
                        lemma_chosen_small(m1.tracks()[t], trump as int, 0, mply);
                        assert forall|h: int| 0 <= h <= 0 implies card_small(#[trigger] self.moves_spec().tracks()[t].move_played[h]) by {
                            if h < 0 {
                                assert(self.moves_spec().tracks()[t].move_played[h] == m1.tracks()[t].move_played[h]);
                            }
                        }
                    }
                    value = self.try_card_0(pos, tt, target, depth, &mply);
                    proof {
                        assert forall|t2: int| tricks < t2 < 13 implies #[trigger] self.saved_spec(t2) == e0.saved_spec(t2) by {
                            assert(e1.saved_spec(t2) == e_top.saved_spec(t2));
                        }
                        self.moves.lemma_wf_bounds();
                        lemma_ply_held_same(pre, *pos, hand as int, self.moves.plies()[tricks as int][0]);
                        lemma_counts_same(pre, *pos, depth as int, 0);
                    }
                    let prev = pos.win_ranks[depth_u - 1];
                    let ghost p4 = *pos;
                    if value == success {
                        pos.win_ranks[depth_u] = prev;
                        chosen_move = mply;
                        cutoff = true;
                        done = true;
                    } else {
                        let mut cur = pos.win_ranks[depth_u];
                        let mut ss: usize = 0;
                        while ss < 4
                            invariant
                                ss <= 4,
                                forall|s: int| 0 <= s < 4 ==> #[trigger] cur[s] < 8192,
                                forall|s: int| 0 <= s < 4 ==> #[trigger] prev[s] < 8192,
                            decreases 4 - ss,
                        {
                            proof {
                                lemma_row_or(cur[ss as int], prev[ss as int]);
                            }
                            cur[ss] = cur[ss] | prev[ss];
                            ss += 1;
                        }
                        pos.win_ranks[depth_u] = cur;
                    }
                    proof {
                        lemma_row_only(p4, *pos, depth as int);
                        lemma_counts_same(p4, *pos, depth as int, 0);
                        lemma_ply_held_same(p4, *pos, hand as int, self.moves.plies()[tricks as int][0]);
                    }
                },
            }
        }
        let ghost e_end = *self;
        if cutoff {
            self.best_move[depth_u] = chosen_move;
        }
        proof {
            assert forall|t2: int| tricks < t2 < 13 implies #[trigger] self.saved_spec(t2) == e0.saved_spec(t2) by {
                assert(e_end.saved_spec(t2) == e0.saved_spec(t2));
            }
        }
        if tricks < 12 {
            let mut first = NodeCards::zero();
            let tm = pos.tricks_max;
            if value {
                if self.node_type_store[0] == MAXNODE {
                    first.ubound = (tricks + 1) as i8;
                    first.lbound = (target - tm) as i8;
                } else {
                    first.ubound = (tricks + 1 - target + tm) as i8;
                    first.lbound = 0;
                }
            } else if self.node_type_store[0] == MAXNODE {
                first.ubound = (target - tm - 1) as i8;
                first.lbound = 0;
            } else {
                first.ubound = (tricks + 1) as i8;
                first.lbound = (tricks + 1 - target + tm + 1) as i8;
            }
            first.best_move_suit = self.best_move[depth_u].suit as u8;
            first.best_move_rank = self.best_move[depth_u].rank as u8;
            let flag = (self.node_type_store[hand_u] == MAXNODE && value) || (self.node_type_store[hand_u] == MINNODE
                && !value);
            let aggr_u32: [u32; 4] = [pos.aggr[0] as u32, pos.aggr[1] as u32, pos.aggr[2] as u32, pos.aggr[3] as u32];
            let wr = pos.win_ranks[depth_u];
            tt.add(tricks, hand, &aggr_u32, &wr, first, flag);
        }
        value
    }

    /// Search from the card of the second hand at `depth`: whether the MAX
    /// side can take `target` tricks in all. Each card of the hand is
    /// tried in turn until one reaches the goal of the hand's side; the
    /// ranks that decided the result are left in `win_ranks[depth]`. The
    /// hands are left as they were.
    #[verifier::spinoff_prover]
    pub fn ab_search_1(&mut self, pos: &mut Pos, tt: &mut TransTable, target: i32, depth: i32) -> (r: bool)
        requires
            search_ready(*old(self), *old(pos), depth as int, 1),
            old(tt).wf(),
            1 <= target <= 13,
            old(pos).tricks_max < target,
            card_move(old(pos).move_history[depth + 1]),
        ensures
            search_kept(*old(self), *final(self), *old(pos), *final(pos), depth as int, 1),
            final(tt).wf(),
            bound_holds_side(*old(pos), depth as int, 1, target as int, r, old(self).node_types()[(old(pos).first[depth as int] + 1) % 4] == MAXNODE),
        decreases depth, 1int,
    {
        let ghost p0 = *pos;
        let ghost e0 = *self;
        let trump = self.trump;
        let depth_u = depth as usize;
        let lead = pos.first[depth_u];
        let hand = (lead + 1) & 3;
        proof {
            lemma_and3((lead + 1) as i32);
        }
        let success = self.node_type_store[hand as usize] == MAXNODE;
        let mut value = !success;
        let tricks = (depth + 3) >> 2;
        proof {
            lemma_shr2((depth + 3) as i32);
        }
        proof {
            self.moves.lemma_wf_bounds();
            assert(tricks == (depth + 1) / 4);
        }
        let ghost p1 = *pos;
        let qt = quick_tricks_second_hand(pos, hand, depth, target, trump, &self.node_type_store, self.ini_depth);
        proof {
            if depth != self.ini_depth {
                lemma_row_only(p1, *pos, depth as int);
            }
        }
        if qt {
            return success;
        }
        self.lowest_win[depth_u] = [0u16; 4];
        proof {
            lemma_counts_same(p0, *pos, depth as int, 1);
            assert(hand_count(*pos, hand as int) <= 13);
            assert(pos.length[hand as int][0] == popcount(pos.rank_in_suit[hand as int][0]));
            assert(pos.length[hand as int][1] == popcount(pos.rank_in_suit[hand as int][1]));
            assert(pos.length[hand as int][2] == popcount(pos.rank_in_suit[hand as int][2]));
            assert(pos.length[hand as int][3] == popcount(pos.rank_in_suit[hand as int][3]));
            crate::held::lemma_hand_groups(*pos, hand as int);
            crate::held::lemma_follower_cands_held(*pos, hand as int, self.moves.tracks()[tricks as int]);
        }
        let ghost m_before = self.moves;
        let nm = self.moves.move_gen_123(tricks, 1, pos);
        proof {
            self.moves.lemma_same_setup_trump(&m_before);
            self.moves.lemma_wf_bounds();
            let t = tricks as int;
            crate::held::lemma_gen_held(*pos, hand as int, crate::moves::follower_cands(*pos, hand as int, m_before.tracks()[t]),
                m_before.plies()[t][1], self.moves.plies()[t][1], nm as int);
            crate::bits::lemma_popcount_zero();
            assert(hand_count(*pos, hand as int) >= 1);
            assert(pos.length[hand as int][0] >= 1 || pos.length[hand as int][1] >= 1 || pos.length[hand as int][2] >= 1
                || pos.length[hand as int][3] >= 1);
            crate::held::lemma_follower_cands_nonempty(*pos, hand as int, m_before.tracks()[t]);
            assert(self.moves.plies()[t][1].last >= 0 && self.moves.plies()[t][1].current == 0);
        }
        if depth == self.ini_depth {
            let fm = self.forbidden_moves;
            let ghost m2 = self.moves;
            self.moves.purge(tricks, 1, &fm);
            proof {
                self.moves.lemma_same_setup_trump(&m2);
                let t = tricks as int;
                let a = m2.plies()[t][1];
                let b = self.moves.plies()[t][1];
                self.moves.lemma_wf_bounds();
                m2.lemma_wf_bounds();
                assert forall|x: MoveType| crate::moves::live(b).contains(x) implies crate::moves::live(a).contains(x) by {
                    let n = if fm@.len() < 14 { fm@.len() as int } else { 14 };
                    crate::held::lemma_purged_sub(crate::moves::live(a), fm@, n, x);
                }
                crate::held::lemma_live_held(*pos, hand as int, a, b);
                crate::held::lemma_purged_none(crate::moves::live(a), fm@, if fm@.len() < 14 { fm@.len() as int } else { 14 });
                assert(crate::moves::live(b).len() == crate::moves::live(a).len());
            }
        }
        let ghost p3 = *pos;
        pos.win_ranks[depth_u] = [0u16; 4];
        proof {
            lemma_row_only(p3, *pos, depth as int);
            lemma_ply_held_same(p3, *pos, hand as int, self.moves.plies()[tricks as int][1]);
            lemma_counts_same(p0, *pos, depth as int, 1);
        }
        let mut chosen_move = MoveType::zero();
        let mut cutoff = false;
        let mut done = false;
        let ghost mut evaluated = false;
        while !done
            invariant
                0 < depth,
                depth + 1 <= 48,
                depth_u == depth,
                tricks == (depth + 1) / 4,
                0 <= tricks < 13,
                1 <= target <= 13,
                self.wf(),
                setup_kept(e0, *self),
                self.trump == trump,
                tt.wf(),
                deal_ok(*pos),
                same_hands(p0, *pos),
                pos.tricks_max == p0.tricks_max,
                pos.hand_rel_first == p0.hand_rel_first,
                pos.winner == p0.winner,
                pos.second_best == p0.second_best,
                forall|t2: int| tricks < t2 < 13 ==> #[trigger] self.saved_spec(t2) == e0.saved_spec(t2),
                pos.tricks_max < target,
                forall|d2: int| depth <= d2 < 50 ==> #[trigger] pos.first[d2] == p0.first[d2],
                lead == p0.first[depth as int],
                hand == (lead + 1) % 4,
                counts_ok(*pos, depth as int, 1),
                success == (self.node_types()[hand as int] == MAXNODE),
                cutoff ==> done,
                done ==> evaluated,
                !evaluated ==> value == !success && self.moves_spec().plies()[tricks as int][1].current == 0
                    && self.moves_spec().plies()[tricks as int][1].last >= 0,
                evaluated && depth < 20 && p0.tricks_max >= target ==> value,
                evaluated && depth < 20 && p0.tricks_max + (depth + 1) / 4 + 1 < target ==> !value,
                self.moves_spec().tracks()[tricks as int].lead_hand == lead,
                forall|h2: int| 0 <= h2 < 1 ==> #[trigger] self.moves_spec().tracks()[tricks as int].move_played[h2]
                    == e0.moves_spec().tracks()[tricks as int].move_played[h2],
                forall|h2: int| 0 <= h2 < 1 ==> card_small(#[trigger] self.moves_spec().tracks()[tricks as int].move_played[h2]),
                crate::held::ply_held(*pos, hand as int, self.moves_spec().plies()[tricks as int][1]),
                forall|t2: int, h2: int|
                    0 <= t2 < 50 && 0 <= h2 < 4 && (t2 > tricks || (t2 == tricks && h2 < 1)) ==> #[trigger] self.moves_spec().plies()[t2][h2]
                        == e0.moves_spec().plies()[t2][h2],
                forall|t2: int| tricks < t2 < 50 ==> #[trigger] self.moves_spec().tracks()[t2] == e0.moves_spec().tracks()[t2],
            decreases 2 * (15 - self.moves_spec().plies()[tricks as int][1].current) + if done { 0int } else { 1int },
        {
            proof {
                self.moves.lemma_wf_bounds();
            }
            let win_arr = pos.win_ranks[depth_u];
            let ghost e_top = *self;
            let ghost m1 = self.moves;
            let next = self.moves.make_next(tricks, 1, &win_arr);
            proof {
                assert(self.winners == e_top.winners);
                assert forall|t2: int| tricks < t2 < 13 implies #[trigger] self.saved_spec(t2) == e0.saved_spec(t2) by {
                    assert(e_top.saved_spec(t2) == e0.saved_spec(t2));
                }
                self.moves.lemma_same_setup_trump(&m1);
                self.moves.lemma_wf_bounds();
                m1.lemma_wf_bounds();
                let l = m1.plies()[tricks as int][1];
                let l2 = self.moves_spec().plies()[tricks as int][1];
                assert forall|k: int| 0 <= k <= l2.last implies #[trigger] crate::held::holds_move(*pos, hand as int, l2.moves[k]) by {
                    assert(l2.moves[k] == l.moves[k]);
                    assert(crate::held::holds_move(*pos, hand as int, l.moves[k]));
                }
            }
            match next {
                None => {
                    done = true;
                },
                Some(mply) => {
                    let ghost pre = *pos;
                    let ghost e1 = *self;
                    proof {
                        let t = tricks as int;
                        let l = m1.plies()[t][1];
                        let i = choose|i: int| 0 <= i <= l.last && mply == #[trigger] l.moves[i];
                        assert(crate::held::holds_move(pre, hand as int, l.moves[i]));
                        assert(crate::moves::ply_ok(l));
                        let l2 = self.moves_spec().plies()[t][1];
                        assert forall|k: int| 0 <= k <= l2.last implies #[trigger] crate::held::holds_move(pre, hand as int, l2.moves[k]) by {
                            assert(l2.moves[k] == l.moves[k]);
                            assert(crate::held::holds_move(pre, hand as int, l.moves[k]));
                        }
                        lemma_chosen_small(m1.tracks()[t], trump as int, 1, mply);
                        assert forall|h: int| 0 <= h <= 1 implies card_small(#[trigger] self.moves_spec().tracks()[t].move_played[h]) by {
                            if h < 1 {
                                assert(self.moves_spec().tracks()[t].move_played[h] == m1.tracks()[t].move_played[h]);
                            }
                        }
                    }
                    value = self.try_card_1(pos, tt, target, depth, &mply);
                    proof {
                        evaluated = true;
                    }
                    proof {
                        assert forall|t2: int| tricks < t2 < 13 implies #[trigger] self.saved_spec(t2) == e0.saved_spec(t2) by {
                            assert(e1.saved_spec(t2) == e_top.saved_spec(t2));
                        }
                        self.moves.lemma_wf_bounds();
                        lemma_ply_held_same(pre, *pos, hand as int, self.moves.plies()[tricks as int][1]);
                        lemma_counts_same(pre, *pos, depth as int, 1);
                    }
                    let prev = pos.win_ranks[depth_u - 1];
                    let ghost p4 = *pos;
                    if value == success {
                        pos.win_ranks[depth_u] = prev;
                        chosen_move = mply;
                        cutoff = true;
                        done = true;
                    } else {
                        let mut cur = pos.win_ranks[depth_u];
                        let mut ss: usize = 0;
                        while ss < 4
                            invariant
                                ss <= 4,
                                forall|s: int| 0 <= s < 4 ==> #[trigger] cur[s] < 8192,
                                forall|s: int| 0 <= s < 4 ==> #[trigger] prev[s] < 8192,
                            decreases 4 - ss,
                        {
                            proof {
                                lemma_row_or(cur[ss as int], prev[ss as int]);
                            }
                            cur[ss] = cur[ss] | prev[ss];
                            ss += 1;
                        }
                        pos.win_ranks[depth_u] = cur;
                    }
                    proof {
                        lemma_row_only(p4, *pos, depth as int);
                        lemma_counts_same(p4, *pos, depth as int, 1);
                        lemma_ply_held_same(p4, *pos, hand as int, self.moves.plies()[tricks as int][1]);
                    }
                },
            }
        }
        let ghost e_end = *self;
        if cutoff {
            self.best_move[depth_u] = chosen_move;
        }
        proof {
            assert forall|t2: int| tricks < t2 < 13 implies #[trigger] self.saved_spec(t2) == e0.saved_spec(t2) by {
                assert(e_end.saved_spec(t2) == e0.saved_spec(t2));
            }
        }
        value
    }

    /// Search from the card of the third hand at `depth`: whether the MAX
    /// side can take `target` tricks in all. Each card of the hand is
    /// tried in turn until one reaches the goal of the hand's side; the
    /// ranks that decided the result are left in `win_ranks[depth]`. The
    /// hands are left as they were.
    #[verifier::spinoff_prover]
    pub fn ab_search_2(&mut self, pos: &mut Pos, tt: &mut TransTable, target: i32, depth: i32) -> (r: bool)
        requires
            search_ready(*old(self), *old(pos), depth as int, 2),
            old(tt).wf(),
            1 <= target <= 13,
            old(pos).tricks_max < target,
        ensures
            search_kept(*old(self), *final(self), *old(pos), *final(pos), depth as int, 2),
            final(tt).wf(),
            bound_holds(*old(pos), depth as int, 2, target as int, r),
        decreases depth, 1int,
    {
        let ghost p0 = *pos;
        let ghost e0 = *self;
        let trump = self.trump;
        let depth_u = depth as usize;
        let lead = pos.first[depth_u];
        let hand = (lead + 2) & 3;
        proof {
            lemma_and3((lead + 2) as i32);
        }
        let success = self.node_type_store[hand as usize] == MAXNODE;
        let mut value = !success;
        let tricks = (depth + 3) >> 2;
        proof {
            lemma_shr2((depth + 3) as i32);
        }
        proof {
            self.moves.lemma_wf_bounds();
            assert(tricks == (depth + 2) / 4);
        }

        self.lowest_win[depth_u] = [0u16; 4];
        proof {
            lemma_counts_same(p0, *pos, depth as int, 2);
            assert(hand_count(*pos, hand as int) <= 13);
            assert(pos.length[hand as int][0] == popcount(pos.rank_in_suit[hand as int][0]));
            assert(pos.length[hand as int][1] == popcount(pos.rank_in_suit[hand as int][1]));
            assert(pos.length[hand as int][2] == popcount(pos.rank_in_suit[hand as int][2]));
            assert(pos.length[hand as int][3] == popcount(pos.rank_in_suit[hand as int][3]));
            crate::held::lemma_hand_groups(*pos, hand as int);
            crate::held::lemma_follower_cands_held(*pos, hand as int, self.moves.tracks()[tricks as int]);
        }
        let ghost m_before = self.moves;
        let nm = self.moves.move_gen_123(tricks, 2, pos);
        proof {
            self.moves.lemma_same_setup_trump(&m_before);
            self.moves.lemma_wf_bounds();
            let t = tricks as int;
            crate::held::lemma_gen_held(*pos, hand as int, crate::moves::follower_cands(*pos, hand as int, m_before.tracks()[t]),
                m_before.plies()[t][2], self.moves.plies()[t][2], nm as int);
            crate::bits::lemma_popcount_zero();
            assert(hand_count(*pos, hand as int) >= 1);
            assert(pos.length[hand as int][0] >= 1 || pos.length[hand as int][1] >= 1 || pos.length[hand as int][2] >= 1
                || pos.length[hand as int][3] >= 1);
            crate::held::lemma_follower_cands_nonempty(*pos, hand as int, m_before.tracks()[t]);
            assert(self.moves.plies()[t][2].last >= 0 && self.moves.plies()[t][2].current == 0);
        }
        if depth == self.ini_depth {
            let fm = self.forbidden_moves;
            let ghost m2 = self.moves;
            self.moves.purge(tricks, 2, &fm);
            proof {
                self.moves.lemma_same_setup_trump(&m2);
                let t = tricks as int;
                let a = m2.plies()[t][2];
                let b = self.moves.plies()[t][2];
                self.moves.lemma_wf_bounds();
                m2.lemma_wf_bounds();
                assert forall|x: MoveType| crate::moves::live(b).contains(x) implies crate::moves::live(a).contains(x) by {
                    let n = if fm@.len() < 14 { fm@.len() as int } else { 14 };
                    crate::held::lemma_purged_sub(crate::moves::live(a), fm@, n, x);
                }
                crate::held::lemma_live_held(*pos, hand as int, a, b);
                crate::held::lemma_purged_none(crate::moves::live(a), fm@, if fm@.len() < 14 { fm@.len() as int } else { 14 });
                assert(crate::moves::live(b).len() == crate::moves::live(a).len());
            }
        }
        let ghost p3 = *pos;
        pos.win_ranks[depth_u] = [0u16; 4];
        proof {
            lemma_row_only(p3, *pos, depth as int);
            lemma_ply_held_same(p3, *pos, hand as int, self.moves.plies()[tricks as int][2]);
            lemma_counts_same(p0, *pos, depth as int, 2);
        }
        let mut chosen_move = MoveType::zero();
        let mut cutoff = false;
        let mut done = false;
        let ghost mut evaluated = false;
        while !done
            invariant
                0 < depth,
                depth + 2 <= 48,
                depth_u == depth,
                tricks == (depth + 2) / 4,
                0 <= tricks < 13,
                1 <= target <= 13,
                self.wf(),
                setup_kept(e0, *self),
                self.trump == trump,
                tt.wf(),
                deal_ok(*pos),
                same_hands(p0, *pos),
                pos.tricks_max == p0.tricks_max,
                pos.hand_rel_first == p0.hand_rel_first,
                pos.winner == p0.winner,
                pos.second_best == p0.second_best,
                forall|t2: int| tricks < t2 < 13 ==> #[trigger] self.saved_spec(t2) == e0.saved_spec(t2),
                pos.tricks_max < target,
                forall|d2: int| depth <= d2 < 50 ==> #[trigger] pos.first[d2] == p0.first[d2],
                lead == p0.first[depth as int],
                hand == (lead + 2) % 4,
                counts_ok(*pos, depth as int, 2),
                success == (self.node_types()[hand as int] == MAXNODE),
                cutoff ==> done,
                done ==> evaluated,
                !evaluated ==> value == !success && self.moves_spec().plies()[tricks as int][2].current == 0
                    && self.moves_spec().plies()[tricks as int][2].last >= 0,
                evaluated && depth < 20 && p0.tricks_max >= target ==> value,
                evaluated && depth < 20 && p0.tricks_max + (depth + 2) / 4 + 1 < target ==> !value,
                self.moves_spec().tracks()[tricks as int].lead_hand == lead,
                forall|h2: int| 0 <= h2 < 2 ==> #[trigger] self.moves_spec().tracks()[tricks as int].move_played[h2]
                    == e0.moves_spec().tracks()[tricks as int].move_played[h2],
                forall|h2: int| 0 <= h2 < 2 ==> card_small(#[trigger] self.moves_spec().tracks()[tricks as int].move_played[h2]),
                crate::held::ply_held(*pos, hand as int, self.moves_spec().plies()[tricks as int][2]),
                forall|t2: int, h2: int|
                    0 <= t2 < 50 && 0 <= h2 < 4 && (t2 > tricks || (t2 == tricks && h2 < 2)) ==> #[trigger] self.moves_spec().plies()[t2][h2]
                        == e0.moves_spec().plies()[t2][h2],
                forall|t2: int| tricks < t2 < 50 ==> #[trigger] self.moves_spec().tracks()[t2] == e0.moves_spec().tracks()[t2],
            decreases 2 * (15 - self.moves_spec().plies()[tricks as int][2].current) + if done { 0int } else { 1int },
        {
            proof {
                self.moves.lemma_wf_bounds();
            }
            let win_arr = pos.win_ranks[depth_u];
            let ghost e_top = *self;
            let ghost m1 = self.moves;
            let next = self.moves.make_next(tricks, 2, &win_arr);
            proof {
                assert(self.winners == e_top.winners);
                assert forall|t2: int| tricks < t2 < 13 implies #[trigger] self.saved_spec(t2) == e0.saved_spec(t2) by {
                    assert(e_top.saved_spec(t2) == e0.saved_spec(t2));
                }
                self.moves.lemma_same_setup_trump(&m1);
                self.moves.lemma_wf_bounds();
                m1.lemma_wf_bounds();
                let l = m1.plies()[tricks as int][2];
                let l2 = self.moves_spec().plies()[tricks as int][2];
                assert forall|k: int| 0 <= k <= l2.last implies #[trigger] crate::held::holds_move(*pos, hand as int, l2.moves[k]) by {
                    assert(l2.moves[k] == l.moves[k]);
                    assert(crate::held::holds_move(*pos, hand as int, l.moves[k]));
                }
            }
            match next {
                None => {
                    done = true;
                },
                Some(mply) => {
                    let ghost pre = *pos;
                    let ghost e1 = *self;
                    proof {
                        let t = tricks as int;
                        let l = m1.plies()[t][2];
                        let i = choose|i: int| 0 <= i <= l.last && mply == #[trigger] l.moves[i];
                        assert(crate::held::holds_move(pre, hand as int, l.moves[i]));
                        assert(crate::moves::ply_ok(l));
                        let l2 = self.moves_spec().plies()[t][2];
                        assert forall|k: int| 0 <= k <= l2.last implies #[trigger] crate::held::holds_move(pre, hand as int, l2.moves[k]) by {
                            assert(l2.moves[k] == l.moves[k]);
                            assert(crate::held::holds_move(pre, hand as int, l.moves[k]));
                        }
                        lemma_chosen_small(m1.tracks()[t], trump as int, 2, mply);
                        assert forall|h: int| 0 <= h <= 2 implies card_small(#[trigger] self.moves_spec().tracks()[t].move_played[h]) by {
                            if h < 2 {
                                assert(self.moves_spec().tracks()[t].move_played[h] == m1.tracks()[t].move_played[h]);
                            }
                        }
                    }
                    value = self.try_card_2(pos, tt, target, depth, &mply);
                    proof {
                        evaluated = true;
                    }
                    proof {
                        assert forall|t2: int| tricks < t2 < 13 implies #[trigger] self.saved_spec(t2) == e0.saved_spec(t2) by {
                            assert(e1.saved_spec(t2) == e_top.saved_spec(t2));
                        }
                        self.moves.lemma_wf_bounds();
                        lemma_ply_held_same(pre, *pos, hand as int, self.moves.plies()[tricks as int][2]);
                        lemma_counts_same(pre, *pos, depth as int, 2);
                    }
                    let prev = pos.win_ranks[depth_u - 1];
                    let ghost p4 = *pos;
                    if value == success {
                        pos.win_ranks[depth_u] = prev;
                        chosen_move = mply;
                        cutoff = true;
                        done = true;
                    } else {
                        let mut cur = pos.win_ranks[depth_u];
                        let mut ss: usize = 0;
                        while ss < 4
                            invariant
                                ss <= 4,
                                forall|s: int| 0 <= s < 4 ==> #[trigger] cur[s] < 8192,
                                forall|s: int| 0 <= s < 4 ==> #[trigger] prev[s] < 8192,
                            decreases 4 - ss,
                        {
                            proof {
                                lemma_row_or(cur[ss as int], prev[ss as int]);
                            }
                            cur[ss] = cur[ss] | prev[ss];
                            ss += 1;
                        }
                        pos.win_ranks[depth_u] = cur;
                    }
                    proof {
                        lemma_row_only(p4, *pos, depth as int);
                        lemma_counts_same(p4, *pos, depth as int, 2);
                        lemma_ply_held_same(p4, *pos, hand as int, self.moves.plies()[tricks as int][2]);
                    }
                },
            }
        }
        let ghost e_end = *self;
        if cutoff {
            self.best_move[depth_u] = chosen_move;
        }
        proof {
            assert forall|t2: int| tricks < t2 < 13 implies #[trigger] self.saved_spec(t2) == e0.saved_spec(t2) by {
                assert(e_end.saved_spec(t2) == e0.saved_spec(t2));
            }
        }
        value
    }

    /// Search from the card of the fourth hand at `depth`: whether the MAX
    /// side can take `target` tricks in all. Each card of the hand is
    /// tried in turn until one reaches the goal of the hand's side; the
    /// ranks that decided the result are left in `win_ranks[depth]`. The
    /// hands are left as they were.
    #[verifier::spinoff_prover]
    pub fn ab_search_3(&mut self, pos: &mut Pos, tt: &mut TransTable, target: i32, depth: i32) -> (r: bool)
        requires
            search_ready(*old(self), *old(pos), depth as int, 3),
            old(tt).wf(),
            1 <= target <= 13,
            old(pos).tricks_max < target,
        ensures
            search_kept(*old(self), *final(self), *old(pos), *final(pos), depth as int, 3),
            final(tt).wf(),
            bound_holds(*old(pos), depth as int, 3, target as int, r),
        decreases depth, 1int,
    {
        let ghost p0 = *pos;
        let ghost e0 = *self;
        let trump = self.trump;
        let depth_u = depth as usize;
        let lead = pos.first[depth_u];
        let hand = (lead + 3) & 3;
        proof {
            lemma_and3((lead + 3) as i32);
        }
        let success = self.node_type_store[hand as usize] == MAXNODE;
        let mut value = !success;
        let tricks = (depth + 3) >> 2;
        proof {
            lemma_shr2((depth + 3) as i32);
        }
        proof {
            self.moves.lemma_wf_bounds();
            assert(tricks == (depth + 3) / 4);
        }

        self.lowest_win[depth_u] = [0u16; 4];
        proof {
            lemma_counts_same(p0, *pos, depth as int, 3);
            assert(hand_count(*pos, hand as int) <= 13);
            assert(pos.length[hand as int][0] == popcount(pos.rank_in_suit[hand as int][0]));
            assert(pos.length[hand as int][1] == popcount(pos.rank_in_suit[hand as int][1]));
            assert(pos.length[hand as int][2] == popcount(pos.rank_in_suit[hand as int][2]));
            assert(pos.length[hand as int][3] == popcount(pos.rank_in_suit[hand as int][3]));
            crate::held::lemma_hand_groups(*pos, hand as int);
            crate::held::lemma_follower_cands_held(*pos, hand as int, self.moves.tracks()[tricks as int]);
        }
        let ghost m_before = self.moves;
        let nm = self.moves.move_gen_123(tricks, 3, pos);
        proof {
            self.moves.lemma_same_setup_trump(&m_before);
            self.moves.lemma_wf_bounds();
            let t = tricks as int;
            crate::held::lemma_gen_held(*pos, hand as int, crate::moves::follower_cands(*pos, hand as int, m_before.tracks()[t]),
                m_before.plies()[t][3], self.moves.plies()[t][3], nm as int);
            crate::bits::lemma_popcount_zero();
            assert(hand_count(*pos, hand as int) >= 1);
            assert(pos.length[hand as int][0] >= 1 || pos.length[hand as int][1] >= 1 || pos.length[hand as int][2] >= 1
                || pos.length[hand as int][3] >= 1);
            crate::held::lemma_follower_cands_nonempty(*pos, hand as int, m_before.tracks()[t]);
            assert(self.moves.plies()[t][3].last >= 0 && self.moves.plies()[t][3].current == 0);
        }
        if depth == self.ini_depth {
            let fm = self.forbidden_moves;
            let ghost m2 = self.moves;
            self.moves.purge(tricks, 3, &fm);
            proof {
                self.moves.lemma_same_setup_trump(&m2);
                let t = tricks as int;
                let a = m2.plies()[t][3];
                let b = self.moves.plies()[t][3];
                self.moves.lemma_wf_bounds();
                m2.lemma_wf_bounds();
                assert forall|x: MoveType| crate::moves::live(b).contains(x) implies crate::moves::live(a).contains(x) by {
                    let n = if fm@.len() < 14 { fm@.len() as int } else { 14 };
                    crate::held::lemma_purged_sub(crate::moves::live(a), fm@, n, x);
                }
                crate::held::lemma_live_held(*pos, hand as int, a, b);
                crate::held::lemma_purged_none(crate::moves::live(a), fm@, if fm@.len() < 14 { fm@.len() as int } else { 14 });
                assert(crate::moves::live(b).len() == crate::moves::live(a).len());
            }
        }
        let ghost p3 = *pos;
        pos.win_ranks[depth_u] = [0u16; 4];
        proof {
            lemma_row_only(p3, *pos, depth as int);
            lemma_ply_held_same(p3, *pos, hand as int, self.moves.plies()[tricks as int][3]);
            lemma_counts_same(p0, *pos, depth as int, 3);
        }
        let mut make_win_rank: [u16; 4] = [0u16; 4];
        let mut chosen_move = MoveType::zero();
        let mut cutoff = false;
        let mut done = false;
        let ghost mut evaluated = false;
        while !done
            invariant
                0 < depth,
                depth + 3 <= 48,
                depth_u == depth,
                tricks == (depth + 3) / 4,
                0 <= tricks < 13,
                1 <= target <= 13,
                self.wf(),
                setup_kept(e0, *self),
                self.trump == trump,
                tt.wf(),
                deal_ok(*pos),
                same_hands(p0, *pos),
                pos.tricks_max == p0.tricks_max,
                pos.hand_rel_first == p0.hand_rel_first,
                pos.winner == p0.winner,
                pos.second_best == p0.second_best,
                forall|t2: int| tricks < t2 < 13 ==> #[trigger] self.saved_spec(t2) == e0.saved_spec(t2),
                pos.tricks_max < target,
                forall|d2: int| depth <= d2 < 50 ==> #[trigger] pos.first[d2] == p0.first[d2],
                lead == p0.first[depth as int],
                hand == (lead + 3) % 4,
                counts_ok(*pos, depth as int, 3),
                success == (self.node_types()[hand as int] == MAXNODE),
                cutoff ==> done,
                done ==> evaluated,
                !evaluated ==> value == !success && self.moves_spec().plies()[tricks as int][3].current == 0
                    && self.moves_spec().plies()[tricks as int][3].last >= 0,
                evaluated && depth < 20 && p0.tricks_max >= target ==> value,
                evaluated && depth < 20 && p0.tricks_max + (depth + 3) / 4 + 1 < target ==> !value,
                self.moves_spec().tracks()[tricks as int].lead_hand == lead,
                forall|h2: int| 0 <= h2 < 3 ==> #[trigger] self.moves_spec().tracks()[tricks as int].move_played[h2]
                    == e0.moves_spec().tracks()[tricks as int].move_played[h2],
                forall|h2: int| 0 <= h2 < 3 ==> card_small(#[trigger] self.moves_spec().tracks()[tricks as int].move_played[h2]),
                crate::held::ply_held(*pos, hand as int, self.moves_spec().plies()[tricks as int][3]),
                forall|t2: int, h2: int|
                    0 <= t2 < 50 && 0 <= h2 < 4 && (t2 > tricks || (t2 == tricks && h2 < 3)) ==> #[trigger] self.moves_spec().plies()[t2][h2]
                        == e0.moves_spec().plies()[t2][h2],
                forall|t2: int| tricks < t2 < 50 ==> #[trigger] self.moves_spec().tracks()[t2] == e0.moves_spec().tracks()[t2],
            decreases 2 * (15 - self.moves_spec().plies()[tricks as int][3].current) + if done { 0int } else { 1int },
        {
            proof {
                self.moves.lemma_wf_bounds();
            }
            let win_arr = pos.win_ranks[depth_u];
            let ghost e_top = *self;
            let ghost m1 = self.moves;
            let next = self.moves.make_next(tricks, 3, &win_arr);
            proof {
                assert(self.winners == e_top.winners);
                assert forall|t2: int| tricks < t2 < 13 implies #[trigger] self.saved_spec(t2) == e0.saved_spec(t2) by {
                    assert(e_top.saved_spec(t2) == e0.saved_spec(t2));
                }
                self.moves.lemma_same_setup_trump(&m1);
                self.moves.lemma_wf_bounds();
                m1.lemma_wf_bounds();
                let l = m1.plies()[tricks as int][3];
                let l2 = self.moves_spec().plies()[tricks as int][3];
                assert forall|k: int| 0 <= k <= l2.last implies #[trigger] crate::held::holds_move(*pos, hand as int, l2.moves[k]) by {
                    assert(l2.moves[k] == l.moves[k]);
                    assert(crate::held::holds_move(*pos, hand as int, l.moves[k]));
                }
            }
            match next {
                None => {
                    done = true;
                },
                Some(mply) => {
                    let ghost pre = *pos;
                    let ghost e1 = *self;
                    proof {
                        let t = tricks as int;
                        let l = m1.plies()[t][3];
                        let i = choose|i: int| 0 <= i <= l.last && mply == #[trigger] l.moves[i];
                        assert(crate::held::holds_move(pre, hand as int, l.moves[i]));
                        assert(crate::moves::ply_ok(l));
                        let l2 = self.moves_spec().plies()[t][3];
                        assert forall|k: int| 0 <= k <= l2.last implies #[trigger] crate::held::holds_move(pre, hand as int, l2.moves[k]) by {
                            assert(l2.moves[k] == l.moves[k]);
                            assert(crate::held::holds_move(pre, hand as int, l.moves[k]));
                        }
                        lemma_chosen_small(m1.tracks()[t], trump as int, 3, mply);
                        assert forall|h: int| 0 <= h <= 3 implies card_small(#[trigger] self.moves_spec().tracks()[t].move_played[h]) by {
                            if h < 3 {
                                assert(self.moves_spec().tracks()[t].move_played[h] == m1.tracks()[t].move_played[h]);
                            }
                        }
                    }
                    value = self.try_card_3(pos, tt, target, depth, &mply, &mut make_win_rank);
                    proof {
                        evaluated = true;
                    }
                    proof {
                        assert forall|t2: int| tricks < t2 < 13 implies #[trigger] self.saved_spec(t2) == e0.saved_spec(t2) by {
                            assert(e1.saved_spec(t2) == e_top.saved_spec(t2));
                        }
                        self.moves.lemma_wf_bounds();
                        lemma_ply_held_same(pre, *pos, hand as int, self.moves.plies()[tricks as int][3]);
                        lemma_counts_same(pre, *pos, depth as int, 3);
                    }
                    let prev = pos.win_ranks[depth_u - 1];
                    let ghost p4 = *pos;
                    if value == success {
                        let mut cur: [u16; 4] = [0u16; 4];
                        let mut ss: usize = 0;
                        while ss < 4
                            invariant
                                ss <= 4,
                                forall|s: int| 0 <= s < 4 ==> #[trigger] cur[s] < 8192,
                                forall|s: int| 0 <= s < 4 ==> #[trigger] prev[s] < 8192,
                                forall|s: int| 0 <= s < 4 ==> #[trigger] make_win_rank[s] < 8192,
                            decreases 4 - ss,
                        {
                            proof {
                                lemma_row_or(prev[ss as int], make_win_rank[ss as int]);
                            }
                            cur[ss] = prev[ss] | make_win_rank[ss];
                            ss += 1;
                        }
                        pos.win_ranks[depth_u] = cur;
                        chosen_move = mply;
                        cutoff = true;
                        done = true;
                    } else {
                        let mut cur = pos.win_ranks[depth_u];
                        let mut ss: usize = 0;
                        while ss < 4
                            invariant
                                ss <= 4,
                                forall|s: int| 0 <= s < 4 ==> #[trigger] cur[s] < 8192,
                                forall|s: int| 0 <= s < 4 ==> #[trigger] prev[s] < 8192,
                                forall|s: int| 0 <= s < 4 ==> #[trigger] make_win_rank[s] < 8192,
                            decreases 4 - ss,
                        {
                            proof {
                                lemma_row_or(prev[ss as int], make_win_rank[ss as int]);
                                lemma_row_or(cur[ss as int], prev[ss as int] | make_win_rank[ss as int]);
                            }
                            cur[ss] = cur[ss] | (prev[ss] | make_win_rank[ss]);
                            ss += 1;
                        }
                        pos.win_ranks[depth_u] = cur;
                    }
                    proof {
                        lemma_row_only(p4, *pos, depth as int);
                        lemma_counts_same(p4, *pos, depth as int, 3);
                        lemma_ply_held_same(p4, *pos, hand as int, self.moves.plies()[tricks as int][3]);
                    }
                },
            }
        }
        let ghost e_end = *self;
        if cutoff {
            self.best_move[depth_u] = chosen_move;
        }
        proof {
            assert forall|t2: int| tricks < t2 < 13 implies #[trigger] self.saved_spec(t2) == e0.saved_spec(t2) by {
                assert(e_end.saved_spec(t2) == e0.saved_spec(t2));
            }
        }
        value
    }

    /// Play the card `mply` of the hand on lead at `depth`, search on
    /// from the next hand, and take the card back: whether the MAX side
    /// can then take `target` tricks in all.
    #[verifier::spinoff_prover]
    fn try_card_0(&mut self, pos: &mut Pos, tt: &mut TransTable, target: i32, depth: i32, mply: &MoveType) -> (r: bool)
        requires
            old(self).wf(),
            old(tt).wf(),
            deal_ok(*old(pos)),
            counts_ok(*old(pos), depth as int, 0),
            1 <= depth,
            depth + 0 <= 48,
            1 <= target <= 13,
            old(pos).tricks_max < target,
            old(self).moves_spec().tracks()[(depth + 0) / 4].lead_hand == old(pos).first[depth as int],
            forall|h: int| 0 <= h <= 0 ==> card_small(#[trigger] old(self).moves_spec().tracks()[(depth + 0) / 4].move_played[h]),
            crate::held::holds_move(*old(pos), (old(pos).first[depth as int] + 0) % 4, *mply),
            card_move(*mply),
        ensures
            step_kept(*old(self), *final(self), *old(pos), *final(pos), depth as int, 0),
            final(tt).wf(),
            bound_holds_side(*old(pos), depth as int, 0, target as int, r, old(self).node_types()[(old(pos).first[depth as int] + 1) % 4] == MAXNODE),
        decreases depth, 0int,
    {
        let ghost pre = *pos;
        let ghost hand = (pos.first[depth as int] + 0) % 4;
        self.make0(pos, depth, mply);
        let ghost mid = *pos;
        proof {
            lemma_play_held(pre, mid, hand, mply.suit as int, mply.rank as int);
            lemma_counts_step(pre, mid, depth as int, 0);
        }
        let value = self.ab_search_1(pos, tt, target, depth - 1);
        let ghost aft = *pos;
        self.undo1(pos, depth, mply);
        proof {
            lemma_undo_back(pre, mid, aft, *pos, hand, mply.suit as int, mply.rank as int);
        }
        value
    }

    /// Play the card `mply` of the hand second at `depth`, search on
    /// from the next hand, and take the card back: whether the MAX side
    /// can then take `target` tricks in all.
    #[verifier::spinoff_prover]
    fn try_card_1(&mut self, pos: &mut Pos, tt: &mut TransTable, target: i32, depth: i32, mply: &MoveType) -> (r: bool)
        requires
            old(self).wf(),
            old(tt).wf(),
            deal_ok(*old(pos)),
            counts_ok(*old(pos), depth as int, 1),
            1 <= depth,
            depth + 1 <= 48,
            1 <= target <= 13,
            old(pos).tricks_max < target,
            old(self).moves_spec().tracks()[(depth + 1) / 4].lead_hand == old(pos).first[depth as int],
            forall|h: int| 0 <= h <= 1 ==> card_small(#[trigger] old(self).moves_spec().tracks()[(depth + 1) / 4].move_played[h]),
            crate::held::holds_move(*old(pos), (old(pos).first[depth as int] + 1) % 4, *mply),
            card_move(*mply),
        ensures
            step_kept(*old(self), *final(self), *old(pos), *final(pos), depth as int, 1),
            final(tt).wf(),
            bound_holds(*old(pos), depth as int, 1, target as int, r),
        decreases depth, 0int,
    {
        let ghost pre = *pos;
        let ghost hand = (pos.first[depth as int] + 1) % 4;
        self.make1(pos, depth, mply);
        let ghost mid = *pos;
        proof {
            lemma_play_held(pre, mid, hand, mply.suit as int, mply.rank as int);
            lemma_counts_step(pre, mid, depth as int, 1);
        }
        let value = self.ab_search_2(pos, tt, target, depth - 1);
        let ghost aft = *pos;
        self.undo2(pos, depth, mply);
        proof {
            lemma_undo_back(pre, mid, aft, *pos, hand, mply.suit as int, mply.rank as int);
        }
        value
    }

    /// Play the card `mply` of the hand third at `depth`, search on
    /// from the next hand, and take the card back: whether the MAX side
    /// can then take `target` tricks in all.
    #[verifier::spinoff_prover]
    fn try_card_2(&mut self, pos: &mut Pos, tt: &mut TransTable, target: i32, depth: i32, mply: &MoveType) -> (r: bool)
        requires
            old(self).wf(),
            old(tt).wf(),
            deal_ok(*old(pos)),
            counts_ok(*old(pos), depth as int, 2),
            1 <= depth,
            depth + 2 <= 48,
            1 <= target <= 13,
            old(pos).tricks_max < target,
            old(self).moves_spec().tracks()[(depth + 2) / 4].lead_hand == old(pos).first[depth as int],
            forall|h: int| 0 <= h <= 2 ==> card_small(#[trigger] old(self).moves_spec().tracks()[(depth + 2) / 4].move_played[h]),
            crate::held::holds_move(*old(pos), (old(pos).first[depth as int] + 2) % 4, *mply),
            card_move(*mply),
        ensures
            step_kept(*old(self), *final(self), *old(pos), *final(pos), depth as int, 2),
            final(tt).wf(),
            bound_holds(*old(pos), depth as int, 2, target as int, r),
        decreases depth, 0int,
    {
        let ghost pre = *pos;
        let ghost hand = (pos.first[depth as int] + 2) % 4;
        self.make2(pos, depth, mply);
        let ghost mid = *pos;
        proof {
            lemma_play_held(pre, mid, hand, mply.suit as int, mply.rank as int);
            lemma_counts_step(pre, mid, depth as int, 2);
        }
        let value = self.ab_search_3(pos, tt, target, depth - 1);
        let ghost aft = *pos;
        self.undo3(pos, depth, mply);
        proof {
            lemma_undo_back(pre, mid, aft, *pos, hand, mply.suit as int, mply.rank as int);
        }
        value
    }

    /// Play the card `mply` of the fourth hand at `depth`, which finishes
    /// the trick (its winner leads next, and the MAX side's count goes up
    /// if it is theirs), search on from the next lead, and take the card
    /// back: whether the MAX side can then take `target` tricks in all.
    /// `trick_cards` receives the winning card of the trick with the cards
    /// it stands for.
    #[verifier::spinoff_prover]
    #[verifier::rlimit(100)]
    fn try_card_3(&mut self, pos: &mut Pos, tt: &mut TransTable, target: i32, depth: i32, mply: &MoveType, trick_cards: &mut [u16; 4]) -> (r: bool)
        requires
            old(self).wf(),
            old(tt).wf(),
            deal_ok(*old(pos)),
            counts_ok(*old(pos), depth as int, 3),
            1 <= depth,
            depth + 3 <= 48,
            1 <= target <= 13,
            old(pos).tricks_max < target,
            old(self).moves_spec().tracks()[(depth + 3) / 4].lead_hand == old(pos).first[depth as int],
            forall|h: int| 0 <= h <= 3 ==> card_small(#[trigger] old(self).moves_spec().tracks()[(depth + 3) / 4].move_played[h]),
            old(self).moves_spec().track_index_spec() == (depth + 3) / 4,
            old(self).moves_spec().tracks()[(depth + 3) / 4 - 1].lead_hand == ((old(self).moves_spec().tracks()[(depth + 3) / 4].lead_hand
                + old(self).moves_spec().tracks()[(depth + 3) / 4].high[3]) as i32) & 3,
            crate::held::holds_move(*old(pos), (old(pos).first[depth as int] + 3) % 4, *mply),
            card_move(*mply),
        ensures
            step_kept(*old(self), *final(self), *old(pos), *final(pos), depth as int, 3),
            final(tt).wf(),
            bound_holds(*old(pos), depth as int, 3, target as int, r),
            forall|s: int| 0 <= s < 4 ==> #[trigger] final(trick_cards)[s] < 8192,
        decreases depth, 0int,
    {
        let ghost pre = *pos;
        let ghost hand = (pos.first[depth as int] + 3) % 4;
        let ghost m2 = self.moves;
        let ghost t = (depth + 3) / 4;
        let ghost tr = m2.tracks()[t];
        proof {
            m2.lemma_wf_bounds();
        }
        self.make3(pos, trick_cards, depth, mply);
        let ghost mid0 = *pos;
        let depth_u = depth as usize;
        let new_lead = pos.first[depth_u - 1] as usize;
        let incremented = self.node_type_store[new_lead] == MAXNODE;
        if incremented {
            pos.tricks_max = pos.tricks_max + 1;
        }
        let ghost mid = *pos;
        proof {
            lemma_play_held(pre, mid0, hand, mply.suit as int, mply.rank as int);
            lemma_counts_step(pre, mid0, depth as int, 3);
            lemma_counts_same(mid0, mid, depth - 1, 0);
            self.moves.lemma_wf_bounds();
            let x: i32 = (tr.lead_hand + tr.high[3]) as i32;
            lemma_and3(x);
            assert(self.moves_spec().tracks()[t - 1] == m2.tracks()[t - 1]);
            assert(self.moves_spec().tracks()[(depth - 1) / 4].lead_hand == mid.first[depth - 1]);
            let c3 = tr.move_played[3];
            assert(card_small(c3));
            assert forall|st: int| 0 <= st < 4 implies #[trigger] trick_cards[st] < 8192 by {
                if st == c3.suit && suit_count(tr, st) >= 2 {
                    crate::later_tricks::lemma_bit_map_small(c3.rank as int);
                    let b = BIT_MAP_RANK[c3.rank as int];
                    let q = c3.sequence;
                    lemma_row_or(b, q as u16);
                }
            }
        }
        proof {
            assert((depth - 1) / 4 + 1 == (depth + 3) / 4);
        }
        let value = self.ab_search_0(pos, tt, target, depth - 1);
        let ghost aft = *pos;
        self.undo0(pos, depth, mply);
        proof {
            lemma_undo_back(pre, mid, aft, *pos, hand, mply.suit as int, mply.rank as int);
            let w = self.saved_spec(t);
            assert(winners_ok(w));
            lemma_top_cards_back(pre, aft, *pos, w, tr);
        }
        if incremented {
            pos.tricks_max = pos.tricks_max - 1;
        }
        value
    }

    /// The number of tricks the MAX side takes from the position, the
    /// trick of `ini_depth` led by `first[ini_depth]`, with best play by
    /// both sides: found by bisection on the target, each probe a search
    /// from the lead. With no card in play it is 0. The result lies
    /// between 0 and the number of tricks left, and the hands are left as
    /// they were.
    pub fn search_target(&mut self, pos: &mut Pos, tt: &mut TransTable, ini_depth: i32) -> (r: i32)
        requires
            old(self).wf(),
            old(tt).wf(),
            deal_ok(*old(pos)),
            0 <= ini_depth <= 48,
            cards_in_play(*old(pos)) == 0 || counts_ok(*old(pos), ini_depth as int, 0),
        ensures
            final(self).wf(),
            final(tt).wf(),
            final(self).ini_depth_spec() == ini_depth,
            final(self).rel_spec() == old(self).rel_spec(),
            final(self).trump_spec() == old(self).trump_spec(),
            final(self).node_types() == old(self).node_types(),
            deal_ok(*final(pos)),
            same_hands(*old(pos), *final(pos)),
            final(pos).tricks_max == old(pos).tricks_max,
            final(pos).hand_rel_first == old(pos).hand_rel_first,
            final(pos).winner == old(pos).winner,
            final(pos).second_best == old(pos).second_best,
            0 <= r <= (ini_depth + 4) / 4,
            cards_in_play(*old(pos)) == 0 ==> r == 0,
            ini_depth == 0 && cards_in_play(*old(pos)) != 0 ==> r == if last_trick_value(*old(self), *old(pos)) >= 1 {
                1int
            } else {
                0int
            },
    {
        self.search_target_calls = self.search_target_calls.wrapping_add(1);
        self.ini_depth = ini_depth;
        let mut total_cards: i32 = 0;
        let mut h: usize = 0;
        while h < 4
            invariant
                h <= 4,
                pos_wf(*pos),
                total_cards == if h == 0 { 0 } else if h == 1 { hand_count(*pos, 0) } else if h == 2 {
                    hand_count(*pos, 0) + hand_count(*pos, 1)
                } else if h == 3 {
                    hand_count(*pos, 0) + hand_count(*pos, 1) + hand_count(*pos, 2)
                } else {
                    cards_in_play(*pos)
                },
            decreases 4 - h,
        {
            total_cards = total_cards + pos.length[h][0] as i32 + pos.length[h][1] as i32 + pos.length[h][2] as i32
                + pos.length[h][3] as i32;
            h += 1;
        }
        if total_cards == 0 {
            return 0;
        }
        let start_trick = (ini_depth + 3) >> 2;
        proof {
            lemma_shr2((ini_depth + 3) as i32);
        }
        let ghost m0 = self.moves;
        self.moves.init_removed_ranks(start_trick, pos);
        let lead_hand = pos.first[ini_depth as usize];
        let ghost m1 = self.moves;
        self.moves.reinit(start_trick, lead_hand);
        proof {
            self.moves.lemma_same_setup_trump(&m1);
            m1.lemma_same_setup_trump(&m0);
            assert(ini_depth % 4 == 0);
            assert(start_trick == ini_depth / 4);
        }
        let mut lowerbound: i32 = 0;
        let mut upperbound: i32 = (ini_depth + 4) >> 2;
        proof {
            lemma_shr2((ini_depth + 4) as i32);
        }
        if upperbound <= 0 {
            return 0;
        }
        let ghost p0 = *pos;
        let ghost e0 = *self;
        while lowerbound < upperbound
            invariant
                0 <= lowerbound <= upperbound <= (ini_depth + 4) / 4,
                0 <= ini_depth <= 48,
                ini_depth % 4 == 0,
                start_trick == ini_depth / 4,
                self.wf(),
                tt.wf(),
                self.trump_spec() == e0.trump_spec(),
                self.node_types() == e0.node_types(),
                self.ini_depth_spec() == ini_depth,
                self.rel_spec() == e0.rel_spec(),
                deal_ok(*pos),
                same_hands(p0, *pos),
                pos.tricks_max == p0.tricks_max,
                pos.hand_rel_first == p0.hand_rel_first,
                pos.winner == p0.winner,
                pos.second_best == p0.second_best,
                pos.first[ini_depth as int] == p0.first[ini_depth as int],
                counts_ok(*pos, ini_depth as int, 0),
                self.moves_spec().tracks()[start_trick as int].lead_hand == pos.first[ini_depth as int],
                ini_depth == 0 && lowerbound < upperbound ==> lowerbound == 0 && upperbound == 1,
                ini_depth == 0 && lowerbound == upperbound ==> lowerbound == if last_trick_value(e0, p0) >= 1 {
                    1int
                } else {
                    0int
                },
            decreases upperbound - lowerbound,
        {
            self.bisection_iters = self.bisection_iters.wrapping_add(1);
            let target = (lowerbound + upperbound + 1) / 2;
            self.reset_best_moves();
            let ghost p1 = *pos;
            proof {
                if ini_depth == 0 {
                    lemma_last_trick_same(e0, p0, p1);
                }
            }
            let ghost e1 = *self;
            let val = self.ab_search_0(pos, tt, target, ini_depth);
            proof {
                lemma_counts_same(p1, *pos, ini_depth as int, 0);
                assert(self.moves_spec().tracks()[start_trick as int].lead_hand == e1.moves_spec().tracks()[start_trick as int].lead_hand);
                assert(pos.first[ini_depth as int] == p1.first[ini_depth as int]);
            }
            if val {
                lowerbound = target;
            } else {
                upperbound = target - 1;
            }
        }
        lowerbound
    }

    /// Probe the transposition table for the position of `depth`, the
    /// lead of trick `tricks` by `hand`. When a stored bound settles the
    /// search against `target`, the result, with `win_ranks[depth]` set
    /// to the stored ranks that decided it and the stored best move kept
    /// for the move ordering; `None` (and the position unchanged)
    /// otherwise.
    fn tt_lookup(&mut self, pos: &mut Pos, tt: &mut TransTable, target: i32, depth: i32, tricks: i32, hand: i32) -> (r:
        Option<bool>)
        requires
            old(self).wf(),
            old(tt).wf(),
            deal_ok(*old(pos)),
            0 <= depth < 50,
            0 <= tricks < 12,
            0 <= hand < 4,
            1 <= target <= 13,
        ensures
            final(self).wf(),
            setup_kept(*old(self), *final(self)),
            final(self).moves_spec() == old(self).moves_spec(),
            final(tt).wf(),
            deal_ok(*final(pos)),
            same_but_win_row(*old(pos), *final(pos), depth as int),
            r is None ==> *final(pos) == *old(pos),
            forall|t: int| #[trigger] final(self).saved_spec(t) == old(self).saved_spec(t),
            ({
                let maxn = old(self).node_types()[0] == MAXNODE;
                let tm = old(pos).tricks_max as int;
                let limit = if maxn { target - tm - 1 } else { tricks - (target - tm - 1) };
                let a = old(tt).probe(tricks as int, hand as int, [old(pos).aggr[0] as u32, old(pos).aggr[1] as u32,
                    old(pos).aggr[2] as u32, old(pos).aggr[3] as u32], old(pos).hand_dist, limit as i32);
                &&& r == (match a {
                    None => None,
                    Some(p) => Some(if maxn { p.1 } else { !p.1 }),
                })
                &&& a matches Some(p) ==> forall|s: int| 0 <= s < 4 ==> #[trigger] final(pos).win_ranks[depth as int][s]
                    == win_ranks(old(pos).aggr[s], p.0.least_win[s] as nat)
                &&& forall|d: int| 0 <= d < 50 && d != depth ==> #[trigger] final(self).best_move_tt_spec(d) == old(self).best_move_tt_spec(d)
                &&& forall|d: int| 0 <= d < 50 ==> #[trigger] final(self).best_move_spec(d) == old(self).best_move_spec(d)
                &&& final(self).best_move_tt_spec(depth as int) == (match a {
                    Some(p) => if p.0.best_move_rank != 0 {
                        MoveType {
                            suit: p.0.best_move_suit as i32,
                            rank: p.0.best_move_rank as i32,
                            ..old(self).best_move_tt_spec(depth as int)
                        }
                    } else {
                        old(self).best_move_tt_spec(depth as int)
                    },
                    None => old(self).best_move_tt_spec(depth as int),
                })
            }),
    {
        let depth_u = depth as usize;
        let limit = if self.node_type_store[0] == MAXNODE {
            target - pos.tricks_max - 1
        } else {
            tricks - (target - pos.tricks_max - 1)
        };
        let aggr_u32: [u32; 4] = [pos.aggr[0] as u32, pos.aggr[1] as u32, pos.aggr[2] as u32, pos.aggr[3] as u32];
        let mut lower_flag = false;
        let found = tt.lookup(tricks, hand, &aggr_u32, &pos.hand_dist, limit, &mut lower_flag);
        match found {
            None => None,
            Some(cards) => {
                let lw = cards.least_win;
                let mut row: [u16; 4] = [0u16; 4];
                let mut ss: usize = 0;
                while ss < 4
                    invariant
                        ss <= 4,
                        self.wf(),
                        deal_ok(*pos),
                        forall|s: int| 0 <= s < 4 ==> #[trigger] lw[s] <= 13,
                        forall|s: int| 0 <= s < 4 ==> #[trigger] row[s] < 8192,
                        forall|s: int| 0 <= s < ss ==> #[trigger] row[s] == win_ranks(pos.aggr[s], lw[s] as nat),
                    decreases 4 - ss,
                {
                    row[ss] = self.win_table[pos.aggr[ss] as usize][lw[ss] as usize];
                    ss += 1;
                }
                let ghost p0 = *pos;
                pos.win_ranks[depth_u] = row;
                proof {
                    assert(same_but_win_row(p0, *pos, depth as int));
                    lemma_row_only(p0, *pos, depth as int);
                }
                if cards.best_move_rank != 0 {
                    self.best_move_tt[depth_u].suit = cards.best_move_suit as i32;
                    self.best_move_tt[depth_u].rank = cards.best_move_rank as i32;
                }
                let score = if self.node_type_store[0] == MAXNODE {
                    lower_flag
                } else {
                    !lower_flag
                };
                Some(score)
            },
        }
    }
}

} // verus!
