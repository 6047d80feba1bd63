//! Per-search position state, read and changed in place by the search.
use vstd::prelude::*;
use crate::move_type::{HighCard, MoveType};

verus! {

/// Maximum search depth, the bound of the depth-indexed arrays.
pub const MAX_DEPTH: usize = 50;

/// Per-search position state.
#[derive(Clone, Copy, Debug)]
pub struct Pos {
    /// `rank_in_suit[hand][suit]`: the ranks `hand` holds in `suit`.
    pub rank_in_suit: [[u16; 4]; 4],
    /// `aggr[suit]`: the union of the four hands' ranks in `suit`.
    pub aggr: [u16; 4],
    /// `length[hand][suit]`: the number of ranks in `rank_in_suit[hand][suit]`.
    pub length: [[u8; 4]; 4],
    /// `hand_dist[hand]`: packed suit lengths, a transposition-table key.
    pub hand_dist: [i32; 4],
    /// `win_ranks[depth][suit]`: ranks that decided the result at `depth`.
    pub win_ranks: [[u16; 4]; 50],
    /// `first[depth]`: the hand that leads the trick of `depth`.
    pub first: [i32; 50],
    /// `move_history[depth]`: the move played at `depth`.
    pub move_history: [MoveType; 50],
    /// Position of the hand to play relative to the trick's leader.
    pub hand_rel_first: i32,
    /// Tricks won so far by the MAX side.
    pub tricks_max: i32,
    /// `winner[suit]`: the highest card left in `suit`.
    pub winner: [HighCard; 4],
    /// `second_best[suit]`: the second-highest card left in `suit`.
    pub second_best: [HighCard; 4],
}

impl Pos {
    /// The empty position: every field zero.
    pub fn zero() -> (r: Pos)
        ensures
            forall|h: int, s: int| 0 <= h < 4 && 0 <= s < 4 ==> r.rank_in_suit[h][s] == 0,
            forall|h: int, s: int| 0 <= h < 4 && 0 <= s < 4 ==> r.length[h][s] == 0,
            forall|s: int| 0 <= s < 4 ==> r.aggr[s] == 0,
            forall|h: int| 0 <= h < 4 ==> r.hand_dist[h] == 0,
            forall|d: int, s: int| 0 <= d < 50 && 0 <= s < 4 ==> r.win_ranks[d][s] == 0,
            forall|d: int| 0 <= d < 50 ==> r.first[d] == 0,
            forall|d: int| 0 <= d < 50 ==> r.move_history[d] == (MoveType {
                suit: 0,
                rank: 0,
                sequence: 0,
                weight: 0,
            }),
            r.hand_rel_first == 0,
            r.tricks_max == 0,
            forall|s: int| 0 <= s < 4 ==> r.winner[s] == (HighCard { rank: 0, hand: 0 }),
            forall|s: int| 0 <= s < 4 ==> r.second_best[s] == (HighCard { rank: 0, hand: 0 }),
    {
        Pos {
            rank_in_suit: [[0u16; 4]; 4],
            aggr: [0u16; 4],
            length: [[0u8; 4]; 4],
            hand_dist: [0i32; 4],
            win_ranks: [[0u16; 4]; 50],
            first: [0i32; 50],
            move_history: [MoveType::zero(); 50],
            hand_rel_first: 0,
            tricks_max: 0,
            winner: [HighCard::zero(); 4],
            second_best: [HighCard::zero(); 4],
        }
    }
}

} // verus!

verus! {

/// A card slot that is either "no card" (hand -1) or a card of rank
/// `0..=14` held by a hand `0..=3`; a non-zero rank always has a holder.
pub open spec fn high_card_wf(c: HighCard) -> bool {
    &&& -1 <= c.hand <= 3
    &&& 0 <= c.rank <= 14
    &&& c.rank != 0 ==> 0 <= c.hand
}

/// Well-formedness of a position as the search and its heuristics read it.
pub open spec fn pos_wf(p: Pos) -> bool {
    &&& forall|h: int, s: int| 0 <= h < 4 && 0 <= s < 4 ==> #[trigger] p.length[h][s] <= 13
    &&& forall|h: int, s: int| 0 <= h < 4 && 0 <= s < 4 ==> #[trigger] p.rank_in_suit[h][s] < 8192
    &&& forall|s: int| 0 <= s < 4 ==> #[trigger] p.aggr[s] < 8192
    &&& forall|s: int| 0 <= s < 4 ==> #[trigger] high_card_wf(p.winner[s])
    &&& forall|s: int| 0 <= s < 4 ==> #[trigger] high_card_wf(p.second_best[s])
    &&& forall|d: int| 0 <= d < 50 ==> 0 <= #[trigger] p.first[d] <= 3
    &&& forall|d: int, s: int| 0 <= d < 50 && 0 <= s < 4 ==> #[trigger] p.win_ranks[d][s] < 8192
    &&& 0 <= p.tricks_max <= 13
}

impl Default for Pos {
    fn default() -> (r: Pos)
        ensures
            pos_wf(r),
            r.tricks_max == 0,
            r.hand_rel_first == 0,
    {
        Pos::zero()
    }
}

} // verus!

verus! {

/// `b` is `a` with at most row `d` of `win_ranks` changed.
pub open spec fn same_but_win_row(a: Pos, b: Pos, d: int) -> bool {
    &&& a.rank_in_suit == b.rank_in_suit
    &&& a.aggr == b.aggr
    &&& a.length == b.length
    &&& a.hand_dist == b.hand_dist
    &&& forall|e: int| 0 <= e < 50 && e != d ==> #[trigger] b.win_ranks[e] == a.win_ranks[e]
    &&& a.first == b.first
    &&& a.move_history == b.move_history
    &&& a.hand_rel_first == b.hand_rel_first
    &&& a.tricks_max == b.tricks_max
    &&& a.winner == b.winner
    &&& a.second_best == b.second_best
}

} // verus!
