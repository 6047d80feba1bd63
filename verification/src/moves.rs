//! Move generation and heuristic ordering.
//!
//! [`Moves`] keeps the per-trick state of the search: the candidate plays
//! of each ply, the cards played to each trick so far and the cards gone
//! from each suit. It generates the candidates of a hand (one card per run
//! of equivalent cards), weights them heuristically, sorts them by weight
//! and hands them out in that order.
use vstd::prelude::*;
use crate::lookup::{
    build_group_data, build_highest_rank, build_lowest_rank, build_rel_rank, group_data,
    highest_rank, lowest_rank, rel_rank, GroupView, MoveGroup, AGGR_COUNT, BIT_MAP_RANK, LHO,
    PARTNER, RHO,
};
use crate::move_type::{MovePly, MoveType};
use crate::pos::{pos_wf, Pos, MAX_DEPTH};
use crate::quick_tricks::DDS_NOTRUMP;
pub use crate::network::merge_sort;

verus! {

/// Which seat holds the card of a given relative rank, and its rank.
#[derive(Clone, Copy, Debug)]
pub struct AbsRank {
    pub rank: i8,
    pub hand: i8,
}

/// For each relative rank (1 the highest) and suit, the absolute rank and
/// the seat that holds it, for one set of cards still in play.
#[derive(Clone, Copy, Debug)]
pub struct RelRanks {
    pub abs_rank: [[AbsRank; 4]; 15],
}

/// What a finished trick was: how many cards of each suit it held, and
/// the winning card and its position relative to the leader.
#[derive(Clone, Copy, Debug)]
pub struct TrickData {
    pub play_count: [i32; 4],
    pub best_rank: i32,
    pub best_suit: i32,
    pub best_sequence: i32,
    pub rel_winner: i32,
}

impl TrickData {
    /// All counts zero.
    pub fn zero() -> (r: TrickData)
        ensures
            r.play_count@ == seq![0i32, 0i32, 0i32, 0i32],
            r.best_rank == 0,
            r.best_suit == 0,
            r.best_sequence == 0,
            r.rel_winner == 0,
    {
        let r = TrickData {
            play_count: [0i32; 4],
            best_rank: 0,
            best_suit: 0,
            best_sequence: 0,
            rel_winner: 0,
        };
        assert(r.play_count@ =~= seq![0i32, 0i32, 0i32, 0i32]);
        r
    }
}

/// A card as played to a trick: suit, rank and the run it stands for.
#[derive(Clone, Copy, Debug, PartialEq, Eq, Structural)]
pub struct ExtCard {
    pub suit: i32,
    pub rank: i32,
    pub sequence: i32,
}

/// The state of one trick of the search.
#[derive(Clone, Copy, Debug)]
pub struct Track {
    pub lead_hand: i32,
    pub lead_suit: i32,
    pub play_suits: [i32; 4],
    pub play_ranks: [i32; 4],
    pub trick_data: TrickData,
    /// `move_played[r]`: the card winning the trick after relative hand `r`.
    pub move_played: [ExtCard; 4],
    /// `high[r]`: the relative hand of that card.
    pub high: [i32; 4],
    /// `lowest_win[r][s]`: the lowest rank still worth trying in suit `s`.
    pub lowest_win: [[i32; 4]; 4],
    /// Per suit, the ranks gone from play before this trick (bit `r - 2`
    /// for rank `r`, and the bits above the deck set).
    pub removed_ranks: [i32; 4],
}

impl Track {
    /// A track with every field zero.
    pub fn zero() -> (r: Track)
        ensures
            track_ok(r),
            r.lead_hand == 0,
            r.removed_ranks@ == seq![0i32, 0i32, 0i32, 0i32],
    {
        let e = ExtCard { suit: 0, rank: 0, sequence: 0 };
        let r = Track {
            lead_hand: 0,
            lead_suit: 0,
            play_suits: [0i32; 4],
            play_ranks: [0i32; 4],
            trick_data: TrickData::zero(),
            move_played: [e; 4],
            high: [0i32; 4],
            lowest_win: [[0i32; 4]; 4],
            removed_ranks: [0i32; 4],
        };
        assert(r.removed_ranks@ =~= seq![0i32, 0i32, 0i32, 0i32]);
        r
    }
}

/// The bounds that the move functions rely on in a track.
pub open spec fn track_ok(tr: Track) -> bool {
    &&& 0 <= tr.lead_hand < 4
    &&& 0 <= tr.lead_suit < 4
    &&& forall|h: int| 0 <= h < 4 ==> 0 <= #[trigger] tr.play_suits[h] < 4
    &&& forall|h: int| 0 <= h < 4 ==> 0 <= #[trigger] tr.play_ranks[h] <= 15
    &&& forall|h: int| 0 <= h < 4 ==> 0 <= #[trigger] tr.high[h] < 4
    &&& forall|h: int| 0 <= h < 4 ==> 0 <= #[trigger] tr.move_played[h].rank <= 15
    &&& forall|h: int| 0 <= h < 4 ==> 0 <= #[trigger] tr.move_played[h].suit < 4
    &&& forall|h: int, s: int| 0 <= h < 4 && 0 <= s < 4 ==> 0 <= #[trigger] tr.lowest_win[h][s] <= 15
    &&& forall|s: int| 0 <= s < 4 ==> 0 <= #[trigger] tr.removed_ranks[s] <= 0xffff
}

/// The bounds that the move functions rely on in a move list.
pub open spec fn ply_ok(p: MovePly) -> bool {
    &&& -1 <= p.last <= 13
    &&& 0 <= p.current <= 14
    &&& forall|k: int| 0 <= k < 14 ==> 0 <= #[trigger] p.moves[k].suit < 4
    &&& forall|k: int| 0 <= k < 14 ==> 0 <= #[trigger] p.moves[k].rank <= 14
}

/// A move whose suit and rank can index the tables.
pub open spec fn move_ok(m: MoveType) -> bool {
    0 <= m.suit < 4 && 0 <= m.rank <= 14
}

/// The card of a move, without its weight.
pub open spec fn ext_of(m: MoveType) -> ExtCard {
    ExtCard { suit: m.suit, rank: m.rank, sequence: m.sequence }
}

/// Whether `m1` beats `m2` when `trump` is the trump suit: a higher card
/// of the same suit, or a trump on another suit.
pub open spec fn beats(m1: MoveType, m2: ExtCard, trump: int) -> bool {
    if m1.suit == m2.suit {
        m1.rank > m2.rank
    } else {
        m1.suit == trump
    }
}

/// The card winning the trick after relative hand `r` plays `mv`, and the
/// relative hand that played it.
pub open spec fn chosen(tr: Track, trump: int, r: int, mv: MoveType) -> (ExtCard, i32) {
    if r == 0 {
        (ext_of(mv), 0i32)
    } else if mv.suit == tr.move_played[r - 1].suit {
        if mv.rank > tr.move_played[r - 1].rank {
            (ext_of(mv), r as i32)
        } else {
            (tr.move_played[r - 1], tr.high[r - 1])
        }
    } else if mv.suit == trump {
        (ext_of(mv), r as i32)
    } else {
        (tr.move_played[r - 1], tr.high[r - 1])
    }
}

/// The track after relative hand `r` plays `mv`.
pub open spec fn after_play(tr: Track, trump: int, r: int, mv: MoveType, t2: Track) -> bool {
    let c = chosen(tr, trump, r, mv);
    &&& t2.move_played@ == tr.move_played@.update(r, c.0)
    &&& t2.high@ == tr.high@.update(r, c.1)
    &&& t2.lead_suit == (if r == 0 {
        mv.suit
    } else {
        tr.lead_suit
    })
    &&& t2.play_suits@ == tr.play_suits@.update(r, mv.suit)
    &&& t2.play_ranks@ == tr.play_ranks@.update(r, mv.rank)
    &&& t2.lead_hand == tr.lead_hand
    &&& t2.trick_data == tr.trick_data
    &&& t2.lowest_win == tr.lowest_win
    &&& t2.removed_ranks == tr.removed_ranks
}

/// The ranks gone after a trick: those gone before it and the four played
/// to it.
pub open spec fn removed_after(tr: Track) -> Seq<i32> {
    let r0 = tr.removed_ranks@;
    let r1 = r0.update(
        tr.play_suits[0] as int,
        r0[tr.play_suits[0] as int] | BIT_MAP_RANK[tr.play_ranks[0] as int] as i32,
    );
    let r2 = r1.update(
        tr.play_suits[1] as int,
        r1[tr.play_suits[1] as int] | BIT_MAP_RANK[tr.play_ranks[1] as int] as i32,
    );
    let r3 = r2.update(
        tr.play_suits[2] as int,
        r2[tr.play_suits[2] as int] | BIT_MAP_RANK[tr.play_ranks[2] as int] as i32,
    );
    r3.update(
        tr.play_suits[3] as int,
        r3[tr.play_suits[3] as int] | BIT_MAP_RANK[tr.play_ranks[3] as int] as i32,
    )
}

/// `b` is `a` with at most the move list of `(t, h)` changed.
pub open spec fn only_ply_changed(a: Seq<[MovePly; 4]>, b: Seq<[MovePly; 4]>, t: int, h: int) -> bool {
    &&& b.len() == a.len()
    &&& forall|t2: int, h2: int|
        0 <= t2 < a.len() && 0 <= h2 < 4 && (t2 != t || h2 != h) ==> #[trigger] b[t2][h2] == a[t2][h2]
}

/// Per-trick move generation and heuristic ordering.
pub struct Moves {
    lead_hand: i32,
    lead_suit: i32,
    curr_hand: i32,
    suit: i32,
    curr_trick: i32,
    trump: i32,
    num_moves: i32,
    last_num_moves: i32,
    track_index: usize,
    track: Vec<Track>,
    move_list: Vec<[MovePly; 4]>,
    group_table: Vec<MoveGroup>,
    lowest_table: Vec<u8>,
    highest_table: Vec<u8>,
    rel_table: Vec<[i8; 15]>,
}

impl Moves {
    /// The tracks of the tricks, by trick number.
    pub closed spec fn tracks(&self) -> Seq<Track> {
        self.track@
    }

    /// The move lists, by trick number and relative hand.
    pub closed spec fn plies(&self) -> Seq<[MovePly; 4]> {
        self.move_list@
    }

    /// The trump suit in effect (4 for notrump).
    pub closed spec fn trump_spec(&self) -> i32 {
        self.trump
    }

    /// The number of moves generated by the last generation.
    pub closed spec fn num_moves_spec(&self) -> i32 {
        self.num_moves
    }

    /// The bounds that well-formedness gives the tracks, the move lists
    /// and the trump.
    pub proof fn lemma_wf_bounds(&self)
        requires
            self.wf(),
        ensures
            self.tracks().len() == MAX_DEPTH,
            self.plies().len() == MAX_DEPTH,
            forall|t: int| 0 <= t < MAX_DEPTH ==> track_ok(#[trigger] self.tracks()[t]),
            forall|t: int, h: int| 0 <= t < MAX_DEPTH && 0 <= h < 4 ==> ply_ok(#[trigger] self.plies()[t][h]),
            0 <= self.trump_spec() <= 4,
            self.track_index_spec() < MAX_DEPTH,
            0 <= self.num_moves_spec() <= 14,
    {
    }

    /// Moves with the same setup play the same trump.
    pub proof fn lemma_same_setup_trump(&self, other: &Moves)
        requires
            self.same_setup(other),
        ensures
            self.trump_spec() == other.trump_spec(),
    {
    }

    /// Well-formedness: fifty tricks of four move lists each, all within
    /// bounds, and the lookup tables as the lookup module defines them.
    pub closed spec fn wf(&self) -> bool {
        &&& self.track@.len() == MAX_DEPTH
        &&& self.move_list@.len() == MAX_DEPTH
        &&& forall|t: int| 0 <= t < MAX_DEPTH ==> track_ok(#[trigger] self.track@[t])
        &&& forall|t: int, h: int|
            0 <= t < MAX_DEPTH && 0 <= h < 4 ==> ply_ok(#[trigger] self.move_list@[t][h])
        &&& 0 <= self.trump <= 4
        &&& 0 <= self.num_moves <= 14
        &&& 0 <= self.last_num_moves <= 14
        &&& 0 <= self.lead_hand < 4
        &&& 0 <= self.curr_hand < 4
        &&& 0 <= self.lead_suit < 4
        &&& 0 <= self.suit < 4
        &&& 0 <= self.curr_trick < MAX_DEPTH
        &&& self.track_index < MAX_DEPTH
        &&& self.group_table@.len() == AGGR_COUNT
        &&& forall|a: int| 0 <= a < AGGR_COUNT ==> #[trigger] self.group_table@[a]@ == group_data(a as nat)
        &&& self.lowest_table@.len() == AGGR_COUNT
        &&& forall|a: int| 0 <= a < AGGR_COUNT ==> #[trigger] self.lowest_table@[a] == lowest_rank(a as u16)
        &&& self.highest_table@.len() == AGGR_COUNT
        &&& forall|a: int| 0 <= a < AGGR_COUNT ==> #[trigger] self.highest_table@[a] == highest_rank(a as u16)
        &&& self.rel_table@.len() == AGGR_COUNT
        &&& forall|a: int, r: int|
            0 <= a < AGGR_COUNT && 0 <= r < 15 ==> #[trigger] self.rel_table@[a][r] == rel_rank(a as u16, r)
    }

    /// Everything but the tracks and the move lists is as in `other`.
    pub closed spec fn same_setup(&self, other: &Moves) -> bool {
        &&& self.trump == other.trump
        &&& self.group_table@ == other.group_table@
        &&& self.lowest_table@ == other.lowest_table@
        &&& self.highest_table@ == other.highest_table@
        &&& self.rel_table@ == other.rel_table@
    }

    /// A fresh move generator: notrump, empty move lists, zero tracks.
    pub fn new() -> (r: Moves)
        ensures
            r.wf(),
            r.trump_spec() == DDS_NOTRUMP,
            forall|t: int| 0 <= t < MAX_DEPTH ==> (#[trigger] r.tracks()[t]).lead_hand == 0,
            forall|t: int| 0 <= t < MAX_DEPTH ==> (#[trigger] r.tracks()[t]).removed_ranks@ == seq![0i32, 0i32, 0i32, 0i32],
            forall|t: int, h: int|
                0 <= t < MAX_DEPTH && 0 <= h < 4 ==> (#[trigger] r.plies()[t][h]).last == -1
                    && r.plies()[t][h].current == 0,
    {
        let mut track: Vec<Track> = Vec::new();
        let mut move_list: Vec<[MovePly; 4]> = Vec::new();
        let mut i: usize = 0;
        while i < MAX_DEPTH
            invariant
                i <= MAX_DEPTH,
                track@.len() == i,
                move_list@.len() == i,
                forall|t: int| 0 <= t < i ==> track_ok(#[trigger] track@[t]),
                forall|t: int| 0 <= t < i ==> (#[trigger] track@[t]).lead_hand == 0,
                forall|t: int| 0 <= t < i ==> (#[trigger] track@[t]).removed_ranks@ == seq![0i32, 0i32, 0i32, 0i32],
                forall|t: int, h: int|
                    0 <= t < i && 0 <= h < 4 ==> ply_ok(#[trigger] move_list@[t][h])
                        && move_list@[t][h].last == -1 && move_list@[t][h].current == 0,
            decreases MAX_DEPTH - i,
        {
            track.push(Track::zero());
            let e = MovePly::empty();
            move_list.push([e, e, e, e]);
            i += 1;
        }
        Moves {
            lead_hand: 0,
            lead_suit: 0,
            curr_hand: 0,
            suit: 0,
            curr_trick: 0,
            trump: DDS_NOTRUMP,
            num_moves: 0,
            last_num_moves: 0,
            track_index: 0,
            track,
            move_list,
            group_table: build_group_data(),
            lowest_table: build_lowest_rank(),
            highest_table: build_highest_rank(),
            rel_table: build_rel_rank(),
        }
    }

    /// Set the trump suit (4 for notrump).
    pub fn set_trump(&mut self, trump: i32)
        requires
            old(self).wf(),
            0 <= trump <= 4,
        ensures
            final(self).wf(),
            final(self).trump_spec() == trump,
            final(self).tracks() == old(self).tracks(),
            final(self).plies() == old(self).plies(),
    {
        self.trump = trump;
    }

    /// The trump suit in effect.
    pub fn trump(&self) -> (r: i32)
        ensures
            r == self.trump_spec(),
    {
        self.trump
    }

    /// The track of trick `t`.
    pub fn track(&self, t: usize) -> (r: Track)
        requires
            self.wf(),
            t < MAX_DEPTH,
        ensures
            r == self.tracks()[t as int],
    {
        self.track[t]
    }

    /// The move list of trick `t` and relative hand `h`.
    pub fn move_ply(&self, t: usize, h: usize) -> (r: MovePly)
        requires
            self.wf(),
            t < MAX_DEPTH,
            h < 4,
        ensures
            r == self.plies()[t as int][h as int],
    {
        self.move_list[t][h]
    }

    /// Set the cards gone from play before trick `tricks`: per suit, the
    /// bits of 0xffff that no hand of `tpos` holds.
    pub fn init_removed_ranks(&mut self, tricks: i32, tpos: &Pos)
        requires
            old(self).wf(),
            pos_wf(*tpos),
            0 <= tricks < MAX_DEPTH,
        ensures
            final(self).wf(),
            final(self).same_setup(old(self)),
            final(self).plies() == old(self).plies(),
            final(self).tracks().len() == MAX_DEPTH,
            forall|t: int| 0 <= t < MAX_DEPTH && t != tricks ==> #[trigger] final(self).tracks()[t] == old(self).tracks()[t],
            forall|s: int|
                0 <= s < 4 ==> #[trigger] final(self).tracks()[tricks as int].removed_ranks[s] == (0xffff ^ (tpos.rank_in_suit[0][s]
                    ^ tpos.rank_in_suit[1][s] ^ tpos.rank_in_suit[2][s] ^ tpos.rank_in_suit[3][s]) as i32),
            final(self).tracks()[tricks as int].lead_hand == old(self).tracks()[tricks as int].lead_hand,
            final(self).tracks()[tricks as int] == (Track {
                removed_ranks: final(self).tracks()[tricks as int].removed_ranks,
                ..old(self).tracks()[tricks as int]
            }),
    {
        let idx = tricks as usize;
        let mut tr = self.track[idx];
        let ghost tr0 = tr;
        let mut s: usize = 0;
        while s < 4
            invariant
                s <= 4,
                pos_wf(*tpos),
                track_ok(tr),
                tr.lead_hand == old(self).track@[idx as int].lead_hand,
                tr == (Track { removed_ranks: tr.removed_ranks, ..tr0 }),
                forall|q: int|
                    0 <= q < s ==> #[trigger] tr.removed_ranks[q] == (0xffff ^ (tpos.rank_in_suit[0][q]
                        ^ tpos.rank_in_suit[1][q] ^ tpos.rank_in_suit[2][q] ^ tpos.rank_in_suit[3][q]) as i32),
            decreases 4 - s,
        {
            let a = tpos.rank_in_suit[0][s];
            let b = tpos.rank_in_suit[1][s];
            let c = tpos.rank_in_suit[2][s];
            let d = tpos.rank_in_suit[3][s];
            let x: u16 = a ^ b ^ c ^ d;
            let removed: i32 = 0xffff ^ (x as i32);
            assert(0 <= removed <= 0xffff) by (bit_vector)
                requires
                    removed == 0xffff ^ (x as i32),
            ;
            tr.removed_ranks[s] = removed;
            s += 1;
        }
        self.track.set(idx, tr);
    }

    /// Set the leader of trick `tricks`.
    pub fn reinit(&mut self, tricks: i32, lead_hand: i32)
        requires
            old(self).wf(),
            0 <= tricks < MAX_DEPTH,
            0 <= lead_hand < 4,
        ensures
            final(self).wf(),
            final(self).same_setup(old(self)),
            final(self).plies() == old(self).plies(),
            final(self).tracks() == old(self).tracks().update(
                tricks as int,
                Track { lead_hand, ..old(self).tracks()[tricks as int] },
            ),
    {
        let idx = tricks as usize;
        let mut tr = self.track[idx];
        tr.lead_hand = lead_hand;
        self.track.set(idx, tr);
    }

    /// The number of moves in the list of `(trick, rel_hand)`.
    pub fn get_length(&self, trick: i32, rel_hand: i32) -> (r: i32)
        requires
            self.wf(),
            0 <= trick < MAX_DEPTH,
            0 <= rel_hand < 4,
        ensures
            r == self.plies()[trick as int][rel_hand as int].last + 1,
    {
        self.move_list[trick as usize][rel_hand as usize].last + 1
    }

    /// Advance the cursor of `(tricks, rel_hand)` by one.
    pub fn step(&mut self, tricks: i32, rel_hand: i32)
        requires
            old(self).wf(),
            0 <= tricks < MAX_DEPTH,
            0 <= rel_hand < 4,
            old(self).plies()[tricks as int][rel_hand as int].current < 14,
        ensures
            final(self).wf(),
            final(self).same_setup(old(self)),
            final(self).tracks() == old(self).tracks(),
            only_ply_changed(old(self).plies(), final(self).plies(), tricks as int, rel_hand as int),
            final(self).plies()[tricks as int][rel_hand as int] == (MovePly {
                current: (old(self).plies()[tricks as int][rel_hand as int].current + 1) as i32,
                ..old(self).plies()[tricks as int][rel_hand as int]
            }),
    {
        let t = tricks as usize;
        let h = rel_hand as usize;
        let mut row = self.move_list[t];
        row[h].current = row[h].current + 1;
        self.move_list.set(t, row);
    }

    /// Reset the cursor of `(tricks, rel_hand)` to the start.
    pub fn rewind(&mut self, tricks: i32, rel_hand: i32)
        requires
            old(self).wf(),
            0 <= tricks < MAX_DEPTH,
            0 <= rel_hand < 4,
        ensures
            final(self).wf(),
            final(self).same_setup(old(self)),
            final(self).tracks() == old(self).tracks(),
            only_ply_changed(old(self).plies(), final(self).plies(), tricks as int, rel_hand as int),
            final(self).plies()[tricks as int][rel_hand as int] == (MovePly {
                current: 0,
                ..old(self).plies()[tricks as int][rel_hand as int]
            }),
    {
        let t = tricks as usize;
        let h = rel_hand as usize;
        let mut row = self.move_list[t];
        row[h].current = 0;
        self.move_list.set(t, row);
    }

    /// Add 100 to the weight of the move last handed out from
    /// `(tricks, rel_hand)`.
    pub fn reward(&mut self, tricks: i32, rel_hand: i32)
        requires
            old(self).wf(),
            0 <= tricks < MAX_DEPTH,
            0 <= rel_hand < 4,
            old(self).plies()[tricks as int][rel_hand as int].current >= 1,
            old(self).plies()[tricks as int][rel_hand as int].moves[old(self).plies()[tricks as int][rel_hand as int].current - 1].weight
                <= i32::MAX - 100,
        ensures
            final(self).wf(),
            final(self).same_setup(old(self)),
            final(self).tracks() == old(self).tracks(),
            only_ply_changed(old(self).plies(), final(self).plies(), tricks as int, rel_hand as int),
            final(self).plies()[tricks as int][rel_hand as int].moves@ == old(self).plies()[tricks as int][rel_hand as int].moves@.update(
                old(self).plies()[tricks as int][rel_hand as int].current - 1,
                MoveType {
                    weight: (old(self).plies()[tricks as int][rel_hand as int].moves[old(self).plies()[tricks as int][rel_hand as int].current - 1].weight + 100) as i32,
                    ..old(self).plies()[tricks as int][rel_hand as int].moves[old(self).plies()[tricks as int][rel_hand as int].current - 1]
                },
            ),
            final(self).plies()[tricks as int][rel_hand as int].current == old(self).plies()[tricks as int][rel_hand as int].current,
            final(self).plies()[tricks as int][rel_hand as int].last == old(self).plies()[tricks as int][rel_hand as int].last,
    {
        let t = tricks as usize;
        let h = rel_hand as usize;
        let mut row = self.move_list[t];
        let idx = (row[h].current - 1) as usize;
        row[h].moves[idx].weight = row[h].moves[idx].weight + 100;
        self.move_list.set(t, row);
    }

    /// The data of the trick of the current track: how many cards of each
    /// suit were played to it, and its winning card and relative winner.
    /// The track keeps a copy.
    pub fn get_trick_data(&mut self, tricks: i32) -> (r: TrickData)
        requires
            old(self).wf(),
        ensures
            final(self).wf(),
            final(self).same_setup(old(self)),
            final(self).plies() == old(self).plies(),
            ({
                let tr = old(self).tracks()[old(self).track_index_spec() as int];
                &&& forall|s: int| 0 <= s < 4 ==> #[trigger] r.play_count[s] == suit_count(tr, s)
                &&& r.best_rank == tr.move_played[3].rank
                &&& r.best_suit == tr.move_played[3].suit
                &&& r.best_sequence == tr.move_played[3].sequence
                &&& r.rel_winner == tr.high[3]
                &&& final(self).tracks() == old(self).tracks().update(
                    old(self).track_index_spec() as int,
                    Track { trick_data: r, ..tr },
                )
            }),
    {
        let ti = self.track_index;
        let mut tr = self.track[ti];
        let mut data = TrickData::zero();
        let mut relh: usize = 0;
        while relh < 4
            invariant
                relh <= 4,
                track_ok(tr),
                forall|s: int| 0 <= s < 4 ==> #[trigger] data.play_count[s] == suit_count_upto(tr, s, relh as int),
                forall|s: int| 0 <= s < 4 ==> 0 <= #[trigger] data.play_count[s] <= relh,
            decreases 4 - relh,
        {
            let su = tr.play_suits[relh] as usize;
            data.play_count[su] = data.play_count[su] + 1;
            relh += 1;
        }
        data.best_rank = tr.move_played[3].rank;
        data.best_suit = tr.move_played[3].suit;
        data.best_sequence = tr.move_played[3].sequence;
        data.rel_winner = tr.high[3];
        tr.trick_data = data;
        self.track.set(ti, tr);
        data
    }

    /// The index of the track last used.
    pub closed spec fn track_index_spec(&self) -> usize {
        self.track_index
    }

    /// Whether `mvp1` beats the card `mvp2` when `our_trump` is trumps.
    pub fn winning_move(mvp1: &MoveType, mvp2: &ExtCard, our_trump: i32) -> (r: bool)
        ensures
            r == beats(*mvp1, *mvp2, our_trump as int),
    {
        if mvp1.suit == mvp2.suit {
            mvp1.rank > mvp2.rank
        } else {
            mvp1.suit == our_trump
        }
    }

    /// Record `mv` as played by relative hand `rel_hand` to trick `trick`;
    /// once the fourth card is in, the next trick (`trick - 1`) gets its
    /// leader, the winner of this one, and the cards gone after it.
    fn record_chosen_move(&mut self, trick: i32, rel_hand: i32, mv: &MoveType)
        requires
            old(self).wf(),
            0 <= trick < MAX_DEPTH,
            0 <= rel_hand < 4,
            move_ok(*mv),
        ensures
            final(self).wf(),
            final(self).same_setup(old(self)),
            final(self).plies() == old(self).plies(),
            final(self).track_index_spec() == old(self).track_index_spec(),
            recorded(old(self).tracks(), final(self).tracks(), old(self).trump_spec() as int, trick as int, rel_hand as int, *mv),
    {
        let t = trick as usize;
        let r = rel_hand as usize;
        let mut tr = self.track[t];
        let ghost tr0 = tr;
        let e = ExtCard { suit: mv.suit, rank: mv.rank, sequence: mv.sequence };
        if r == 0 {
            tr.move_played[0] = e;
            tr.high[0] = 0;
            tr.lead_suit = mv.suit;
        } else if mv.suit == tr.move_played[r - 1].suit {
            if mv.rank > tr.move_played[r - 1].rank {
                tr.move_played[r] = e;
                tr.high[r] = rel_hand;
            } else {
                tr.move_played[r] = tr.move_played[r - 1];
                tr.high[r] = tr.high[r - 1];
            }
        } else if mv.suit == self.trump {
            tr.move_played[r] = e;
            tr.high[r] = rel_hand;
        } else {
            tr.move_played[r] = tr.move_played[r - 1];
            tr.high[r] = tr.high[r - 1];
        }
        tr.play_suits[r] = mv.suit;
        tr.play_ranks[r] = mv.rank;
        proof {
            assert(tr.move_played@ =~= tr0.move_played@.update(r as int, chosen(tr0, self.trump as int, r as int, *mv).0));
            assert(tr.high@ =~= tr0.high@.update(r as int, chosen(tr0, self.trump as int, r as int, *mv).1));
            assert(tr.play_suits@ =~= tr0.play_suits@.update(r as int, mv.suit));
            assert(tr.play_ranks@ =~= tr0.play_ranks@.update(r as int, mv.rank));
        }
        self.track.set(t, tr);
        if rel_hand == 3 && t > 0 {
            let mut next = self.track[t - 1];
            let lh = tr.lead_hand;
            let hi = tr.high[3];
            let nl = (lh + hi) & 3;
            assert(0 <= nl < 4) by (bit_vector)
                requires
                    nl == ((lh + hi) as i32) & 3,
                    0 <= lh < 4,
                    0 <= hi < 4,
            ;
            next.lead_hand = nl;
            let mut rr: [i32; 4] = tr.removed_ranks;
            let s0 = tr.play_suits[0] as usize;
            rr[s0] = or_bits(rr[s0], BIT_MAP_RANK[tr.play_ranks[0] as usize]);
            let s1 = tr.play_suits[1] as usize;
            rr[s1] = or_bits(rr[s1], BIT_MAP_RANK[tr.play_ranks[1] as usize]);
            let s2 = tr.play_suits[2] as usize;
            rr[s2] = or_bits(rr[s2], BIT_MAP_RANK[tr.play_ranks[2] as usize]);
            let s3 = tr.play_suits[3] as usize;
            rr[s3] = or_bits(rr[s3], BIT_MAP_RANK[tr.play_ranks[3] as usize]);
            assert(rr@ =~= removed_after(tr));
            next.removed_ranks = rr;
            self.track.set(t - 1, next);
        }
    }

    /// Play `mv` by relative hand `rel_hand` to trick `trick` without
    /// consulting the move list.
    pub fn make_specific(&mut self, mv: &MoveType, trick: i32, rel_hand: i32)
        requires
            old(self).wf(),
            0 <= trick < MAX_DEPTH,
            0 <= rel_hand < 4,
            move_ok(*mv),
        ensures
            final(self).wf(),
            final(self).same_setup(old(self)),
            final(self).plies() == old(self).plies(),
            recorded(old(self).tracks(), final(self).tracks(), old(self).trump_spec() as int, trick as int, rel_hand as int, *mv),
    {
        self.track_index = trick as usize;
        self.record_chosen_move(trick, rel_hand, mv);
    }

    /// The next move of `(trick, rel_hand)` in list order, recorded as
    /// played, or `None` once the list is exhausted.
    ///
    /// From the second call on, a move is skipped when a lower card of its
    /// suit cannot matter: after the previous move of a suit, its lowest
    /// useful rank becomes the lowest rank of `win_ranks` in that suit (15
    /// for none) if the previous move was below it.
    pub fn make_next(&mut self, trick: i32, rel_hand: i32, win_ranks: &[u16; 4]) -> (r: Option<MoveType>)
        requires
            old(self).wf(),
            0 <= trick < MAX_DEPTH,
            0 <= rel_hand < 4,
            forall|s: int| 0 <= s < 4 ==> #[trigger] win_ranks[s] < AGGR_COUNT,
        ensures
            final(self).wf(),
            final(self).same_setup(old(self)),
            r is Some ==> final(self).track_index_spec() == trick,
            final(self).plies()[trick as int][rel_hand as int].current >= old(self).plies()[trick as int][rel_hand as int].current,
            r is Some ==> final(self).plies()[trick as int][rel_hand as int].current > old(self).plies()[trick as int][rel_hand as int].current,
            r matches Some(m) ==> exists|i: int|
                0 <= i <= old(self).plies()[trick as int][rel_hand as int].last && m
                    == #[trigger] old(self).plies()[trick as int][rel_hand as int].moves[i],
            ({
                let t = trick as int;
                let h = rel_hand as int;
                let p = old(self).plies()[t][h];
                let p2 = final(self).plies()[t][h];
                let tr = old(self).tracks()[t];
                let tr1 = Track { lowest_win: final(self).tracks()[t].lowest_win, ..tr };
                &&& only_ply_changed(old(self).plies(), final(self).plies(), t, h)
                &&& p2.moves == p.moves
                &&& p2.last == p.last
                &&& p.last == -1 ==> r is None && final(self).tracks() == old(self).tracks() && p2 == p
                &&& (p.last != -1 && p.current == 0) ==> r == Some(p.moves[0]) && p2.current == 1
                    && recorded(old(self).tracks(), final(self).tracks(), old(self).trump_spec() as int, t, h, p.moves[0])
                &&& (p.last != -1 && p.current > 0) ==> {
                    let prev = p.moves[p.current - 1];
                    let i = first_fit(p, p.current as int, tr1.lowest_win[h]@);
                    &&& lowest_raised(tr, tr1, h, prev.suit as int, raised_lowest(tr, h, prev, *win_ranks))
                    &&& i > p.last ==> r is None && p2.current == i && final(self).tracks() == old(self).tracks().update(t, tr1)
                    &&& i <= p.last ==> r == Some(p.moves[i]) && p2.current == i + 1
                        && recorded(old(self).tracks().update(t, tr1), final(self).tracks(), old(self).trump_spec() as int, t, h, p.moves[i])
                }
            }),
    {
        let t = trick as usize;
        let h = rel_hand as usize;
        let mut row = self.move_list[t];
        let mut list = row[h];
        if list.last == -1 {
            return None;
        }
        self.track_index = t;
        let current_move: MoveType;
        let ghost mut wi: int = 0;
        if list.current == 0 {
            current_move = list.moves[0];
        } else {
            let prev = list.moves[(list.current - 1) as usize];
            let ps = prev.suit as usize;
            let mut tr = self.track[t];
            let ghost tr0 = tr;
            if tr.lowest_win[h][ps] == 0 {
                let mut low = self.lowest_table[win_ranks[ps] as usize] as i32;
                if low == 0 {
                    low = 15;
                }
                if prev.rank < low {
                    proof {
                        assert(low <= 15) by {
                            crate::lookup::lemma_lowest_rank_bound(win_ranks[ps as int]);
                        }
                    }
                    tr.lowest_win[h][ps] = low;
                }
            }
            proof {
                assert(lowest_raised(tr0, tr, h as int, ps as int, raised_lowest(tr0, h as int, prev, *win_ranks)));
            }
            self.track.set(t, tr);
            let ghost start = list.current as int;
            proof {
                lemma_first_fit_from(row[h as int], start, tr.lowest_win[h as int]@);
            }
            let mut found = false;
            let mut cm = list.moves[0];
            while list.current <= list.last && !found
                invariant
                    ply_ok(list),
                    track_ok(tr),
                    list.moves == row[h as int].moves,
                    list.last == row[h as int].last,
                    start <= list.current,
                    h < 4,
                    !found ==> first_fit(row[h as int], start, tr.lowest_win[h as int]@) == first_fit(row[h as int], list.current as int, tr.lowest_win[h as int]@),
                    found ==> list.current <= list.last && first_fit(row[h as int], start, tr.lowest_win[h as int]@) == list.current && cm == list.moves[list.current as int],
                decreases 15 - list.current + if found { 0int } else { 1int },
            {
                let curr = list.moves[list.current as usize];
                let lw = tr.lowest_win[h][curr.suit as usize];
                if curr.rank >= lw {
                    found = true;
                    cm = curr;
                } else {
                    list.current = list.current + 1;
                }
            }
            if !found {
                row[h] = list;
                self.move_list.set(t, row);
                return None;
            }
            current_move = cm;
            proof {
                wi = list.current as int;
            }
        }
        assert(0 <= wi <= list.last && current_move == old(self).plies()[trick as int][rel_hand as int].moves[wi]);
        self.record_chosen_move(trick, rel_hand, &current_move);
        list.current = list.current + 1;
        row[h] = list;
        self.move_list.set(t, row);
        Some(current_move)
    }

    /// The next move of `(trick, rel_hand)` in list order, recorded as
    /// played, with no skipping; `None` once the list is exhausted.
    pub fn make_next_simple(&mut self, trick: i32, rel_hand: i32) -> (r: Option<MoveType>)
        requires
            old(self).wf(),
            0 <= trick < MAX_DEPTH,
            0 <= rel_hand < 4,
        ensures
            final(self).wf(),
            final(self).same_setup(old(self)),
            ({
                let t = trick as int;
                let h = rel_hand as int;
                let p = old(self).plies()[t][h];
                &&& p.current > p.last ==> r is None && final(self).plies() == old(self).plies()
                    && final(self).tracks() == old(self).tracks()
                &&& p.current <= p.last ==> r == Some(p.moves[p.current as int])
                    && only_ply_changed(old(self).plies(), final(self).plies(), t, h)
                    && final(self).plies()[t][h] == (MovePly { current: (p.current + 1) as i32, ..p })
                    && recorded(old(self).tracks(), final(self).tracks(), old(self).trump_spec() as int, t, h, p.moves[p.current as int])
            }),
    {
        let t = trick as usize;
        let h = rel_hand as usize;
        let mut row = self.move_list[t];
        if row[h].current > row[h].last {
            return None;
        }
        let current_move = row[h].moves[row[h].current as usize];
        self.track_index = t;
        self.record_chosen_move(trick, rel_hand, &current_move);
        if rel_hand == 3 && t > 0 {
            let prev_lead = self.track[t].lead_hand;
            let high3 = self.track[t].high[3];
            let mut next = self.track[t - 1];
            let nl = (prev_lead + high3) & 3;
            assert(0 <= nl < 4) by (bit_vector)
                requires
                    nl == ((prev_lead + high3) as i32) & 3,
                    0 <= prev_lead < 4,
                    0 <= high3 < 4,
            ;
            next.lead_hand = nl;
            self.track.set(t - 1, next);
        }
        row[h].current = row[h].current + 1;
        self.move_list.set(t, row);
        Some(current_move)
    }

    /// Drop from the list of `(tricks, rel_hand)` every move whose suit and
    /// rank match one of `forbidden_moves[1..]` (at most thirteen of them;
    /// entries of rank 0 stand for no move).
    pub fn purge(&mut self, tricks: i32, rel_hand: i32, forbidden_moves: &[MoveType])
        requires
            old(self).wf(),
            0 <= tricks < MAX_DEPTH,
            0 <= rel_hand < 4,
            forbidden_moves@.len() >= 1,
        ensures
            final(self).wf(),
            final(self).same_setup(old(self)),
            final(self).tracks() == old(self).tracks(),
            only_ply_changed(old(self).plies(), final(self).plies(), tricks as int, rel_hand as int),
            live(final(self).plies()[tricks as int][rel_hand as int]) == purged(
                live(old(self).plies()[tricks as int][rel_hand as int]),
                forbidden_moves@,
                if forbidden_moves@.len() < 14 { forbidden_moves@.len() as int } else { 14 },
            ),
            final(self).plies()[tricks as int][rel_hand as int].current == old(self).plies()[tricks as int][rel_hand as int].current,
    {
        let t = tricks as usize;
        let h = rel_hand as usize;
        let mut row = self.move_list[t];
        let mut list = row[h];
        let ghost l0 = live(list);
        let end: usize = if forbidden_moves.len() < 14 { forbidden_moves.len() } else { 14 };
        let mut k: usize = 1;
        while k < end
            invariant
                1 <= k <= end <= 14,
                end <= forbidden_moves@.len(),
                ply_ok(list),
                list.current == row[h as int].current,
                live(list) == purged(l0, forbidden_moves@, k as int),
            decreases end - k,
        {
            let mv = forbidden_moves[k];
            if mv.rank != 0 {
                let ghost before = live(list);
                let ghost f = not_move(mv);
                let ghost mut j: int = 0;
                let mut r: i32 = 0;
                while r <= list.last
                    invariant
                        ply_ok(list),
                        list.current == row[h as int].current,
                        0 <= r <= list.last + 1,
                        0 <= j <= before.len(),
                        list.last + 1 - r == before.len() - j,
                        f == not_move(mv),
                        list.moves@.subrange(0, r as int) == before.subrange(0, j).filter(f),
                        list.moves@.subrange(r as int, list.last + 1) == before.subrange(j, before.len() as int),
                    decreases list.last + 1 - r,
                {
                    let ghost moves0 = list.moves@;
                    proof {
                        assert(before.subrange(0, j + 1).drop_last() =~= before.subrange(0, j));
                        assert(before[j] == moves0[r as int]) by {
                            assert(moves0.subrange(r as int, list.last + 1)[0] == before.subrange(j, before.len() as int)[0]);
                        }
                        reveal(Seq::filter);
                    }
                    if list.moves[r as usize].suit == mv.suit && list.moves[r as usize].rank == mv.rank {
                        let mut n: i32 = r;
                        while n < list.last
                            invariant
                                ply_ok(list),
                                list.current == row[h as int].current,
                                0 <= r <= n <= list.last <= 13,
                                list.last + 1 - r == before.len() - j,
                                forall|q: int| 0 <= q < r ==> #[trigger] list.moves@[q] == moves0[q],
                                forall|q: int| r <= q < n ==> #[trigger] list.moves@[q] == moves0[q + 1],
                                forall|q: int| n <= q < 14 ==> #[trigger] list.moves@[q] == moves0[q],
                            decreases list.last - n,
                        {
                            list.moves[n as usize] = list.moves[(n + 1) as usize];
                            n += 1;
                        }
                        list.last = list.last - 1;
                        proof {
                            assert(list.moves@.subrange(0, r as int) =~= moves0.subrange(0, r as int));
                            assert(list.moves@.subrange(r as int, list.last + 1) =~= moves0.subrange(r as int + 1, list.last + 2));
                            assert(moves0.subrange(r as int + 1, list.last + 2) =~= moves0.subrange(r as int, list.last + 2).subrange(1, list.last + 2 - r));
                            assert(before.subrange(j + 1, before.len() as int) =~= before.subrange(j, before.len() as int).subrange(1, before.len() - j));
                            j = j + 1;
                        }
                    } else {
                        proof {
                            assert(list.moves@.subrange(0, r as int + 1) =~= list.moves@.subrange(0, r as int).push(before[j]));
                            assert(list.moves@.subrange(r as int + 1, list.last + 1) =~= list.moves@.subrange(r as int, list.last + 1).subrange(1, list.last + 1 - r));
                            assert(before.subrange(j + 1, before.len() as int) =~= before.subrange(j, before.len() as int).subrange(1, before.len() - j));
                            j = j + 1;
                        }
                        r += 1;
                    }
                }
                proof {
                    assert(j == before.len());
                    assert(before.subrange(0, j) =~= before);
                    assert(live(list) =~= list.moves@.subrange(0, r as int));
                }
            }
            k += 1;
        }
        row[h] = list;
        self.move_list.set(t, row);
    }

    /// Sort the list of `(tricks, rel_hand)` by descending weight.
    pub fn sort(&mut self, tricks: i32, rel_hand: i32)
        requires
            old(self).wf(),
            0 <= tricks < MAX_DEPTH,
            0 <= rel_hand < 4,
        ensures
            final(self).wf(),
            final(self).same_setup(old(self)),
            final(self).tracks() == old(self).tracks(),
            only_ply_changed(old(self).plies(), final(self).plies(), tricks as int, rel_hand as int),
            sorted_ply(old(self).plies()[tricks as int][rel_hand as int], final(self).plies()[tricks as int][rel_hand as int]),
            final(self).num_moves_spec() == old(self).plies()[tricks as int][rel_hand as int].last + 1,
    {
        let t = tricks as usize;
        let h = rel_hand as usize;
        let mut row = self.move_list[t];
        let mut list = row[h];
        let n = list.last + 1;
        self.num_moves = n;
        let ghost m0 = list.moves@;
        merge_sort(&mut list.moves, n as usize);
        proof {
            lemma_sorted_keeps_ok(m0, list.moves@, n as int);
        }
        row[h] = list;
        self.move_list.set(t, row);
    }

    /// Weights of the leader's moves in the current suit, in notrump.
    fn weight_alloc_nt0(
        &mut self,
        tpos: &Pos,
        best_move: &MoveType,
        best_move_tt: &MoveType,
        thrp_rel: &[RelRanks],
    )
        requires
            old(self).wf(),
            old(self).last_num_moves <= old(self).num_moves,
            pos_wf(*tpos),
        ensures
            final(self).reweighted(old(self), 0),
            ({
                let t = old(self).curr_trick as int;
                let lead = old(self).lead_hand as int;
                let suit = old(self).suit as int;
                let lh = tpos.length[(lead + 1) % 4][suit] as int;
                let rh = tpos.length[(lead + 3) % 4][suit] as int;
                let clh = (if lh == 0 { old(self).curr_trick + 1 } else { lh }) * 4;
                let crh = (if rh == 0 { old(self).curr_trick + 1 } else { rh }) * 4;
                let swd = -(((clh + crh) * 32) / 19) + if tpos.length[(lead + 2) % 4][suit] == 0 { -9int } else { 0int };
                let aggr = tpos.aggr[suit] as int;
                let l0 = old(self).move_list@[t][0];
                let l1 = final(self).move_list@[t][0];
                &&& forall|k: int| 0 <= k < old(self).last_num_moves ==> #[trigger] l1.moves[k] == l0.moves[k]
                &&& forall|k: int| old(self).last_num_moves <= k < old(self).num_moves ==> #[trigger] l1.moves[k].weight
                    == nt0_weight_spec(*tpos, lead, suit, swd, l0.moves[k], rel_rank(aggr as u16, l0.moves[k].rank as int),
                    *best_move, *best_move_tt, thrp_rel@, aggr)
            }),
    {
        let t = self.curr_trick as usize;
        let lead = self.lead_hand as usize;
        let lho_i = (lead + 1) % 4;
        let rho_i = (lead + 3) % 4;
        let partner_i = (lead + 2) % 4;
        let suit = self.suit as usize;
        let aggr = tpos.aggr[suit] as usize;
        let suit_count_lh = tpos.length[lho_i][suit] as i32;
        let suit_count_rh = tpos.length[rho_i][suit] as i32;
        let count_lh = (if suit_count_lh == 0 { self.curr_trick + 1 } else { suit_count_lh }) * 4;
        let count_rh = (if suit_count_rh == 0 { self.curr_trick + 1 } else { suit_count_rh }) * 4;
        let mut suit_weight_d = -(((count_lh + count_rh) * 32) / 19);
        if tpos.length[partner_i][suit] == 0 {
            suit_weight_d += -9;
        }
        let mut row = self.move_list[t];
        let mut list = row[0];
        let ghost list0 = list;
        let lo = self.last_num_moves as usize;
        let n = self.num_moves as usize;
        let mut k = lo;
        while k < n
            invariant
                lo <= k <= n <= 14,
                ply_ok(list),
                same_cards(list0, list),
                forall|q: int| n <= q < 14 ==> #[trigger] list.moves[q] == list0.moves[q],
                forall|q: int| k <= q < 14 ==> #[trigger] list.moves[q] == list0.moves[q],
                forall|q: int| 0 <= q < lo ==> #[trigger] list.moves[q] == list0.moves[q],
                forall|q: int| lo <= q < k ==> #[trigger] list.moves[q].weight == nt0_weight_spec(*tpos, lead as int,
                    suit as int, suit_weight_d as int, list0.moves[q], rel_rank(aggr as u16, list0.moves[q].rank as int),
                    *best_move, *best_move_tt, thrp_rel@, aggr as int),
                list0 == self.move_list@[t as int][0],
                *self == *old(self),
                self.wf(),
                pos_wf(*tpos),
                aggr < AGGR_COUNT,
                -2000 <= suit_weight_d <= 0,
                lead < 4,
                suit < 4,
            decreases n - k,
        {
            let m = list.moves[k];
            let r_rank = self.rel_table[aggr][m.rank as usize] as i32;
            let w = nt0_weight(tpos, lead, suit, suit_weight_d, m, r_rank, best_move, best_move_tt, thrp_rel, aggr);
            set_weight(&mut list, k, w);
            k += 1;
        }
        row[0] = list;
        self.move_list.set(t, row);
    }

    /// Weights of the second hand's moves following suit, in a trump
    /// contract.
    fn weight_alloc_trump_notvoid1(&mut self, tpos: &Pos)
        requires
            old(self).wf(),
            pos_wf(*tpos),
            old(self).trump < 4,
        ensures
            final(self).reweighted(old(self), 1),
            old(self).trump_notvoid1_done(*tpos, final(self).cur_ply(1)),
    {
        let t = self.curr_trick as usize;
        let lead = self.lead_hand as usize;
        let rho_i = (lead + 3) % 4;
        let partner_i = (lead + 2) % 4;
        let lead_suit = self.lead_suit as usize;
        let max3rd = self.highest_table[tpos.rank_in_suit[partner_i][lead_suit] as usize] as i32;
        let maxpd = self.highest_table[tpos.rank_in_suit[rho_i][lead_suit] as usize] as i32;
        let min3rd = self.lowest_table[tpos.rank_in_suit[partner_i][lead_suit] as usize] as i32;
        let minpd = self.lowest_table[tpos.rank_in_suit[rho_i][lead_suit] as usize] as i32;
        let move0_rank = self.track[self.track_index].move_played[0].rank;
        let aggr_lead = tpos.aggr[lead_suit] as usize;
        let mut row = self.move_list[t];
        let mut list = row[1];
        let ghost list0 = list;
        let n = self.num_moves as usize;
        let mut k: usize = 0;
        while k < n
            invariant
                k <= n <= 14,
                ply_ok(list),
                same_cards(list0, list),
                forall|q: int| n <= q < 14 ==> #[trigger] list.moves[q] == list0.moves[q],
                forall|q: int| k <= q < 14 ==> #[trigger] list.moves[q] == list0.moves[q],
                forall|q: int| 0 <= q < k ==> #[trigger] list.moves[q].weight == trump_notvoid1_weight_spec(*tpos,
                    lead as int, self.trump as int, lead_suit as int, list0.moves[q], rel_rank(aggr_lead as u16,
                    list0.moves[q].rank as int), move0_rank as int, max3rd as int, maxpd as int, min3rd as int, minpd as int),
                list0 == self.move_list@[t as int][1],
                *self == *old(self),
                max3rd == highest_rank(tpos.rank_in_suit[partner_i as int][lead_suit as int]),
                maxpd == highest_rank(tpos.rank_in_suit[rho_i as int][lead_suit as int]),
                min3rd == lowest_rank(tpos.rank_in_suit[partner_i as int][lead_suit as int]),
                minpd == lowest_rank(tpos.rank_in_suit[rho_i as int][lead_suit as int]),
                move0_rank == self.track@[self.track_index as int].move_played[0].rank,
                lead_suit as int == self.lead_suit as int,
                lead as int == self.lead_hand as int,
                self.wf(),
                pos_wf(*tpos),
                self.trump < 4,
                aggr_lead < AGGR_COUNT,
                lead < 4,
                lead_suit < 4,
                0 <= move0_rank <= 15,
                0 <= max3rd <= 255,
                0 <= maxpd <= 255,
                0 <= min3rd <= 255,
                0 <= minpd <= 255,
            decreases n - k,
        {
            let m = list.moves[k];
            let r_rank = self.rel_table[aggr_lead][m.rank as usize] as i32;
            let w = trump_notvoid1_weight(
                tpos,
                lead,
                self.trump,
                self.lead_suit,
                m,
                r_rank,
                move0_rank,
                max3rd,
                maxpd,
                min3rd,
                minpd,
            );
            proof {
                assert(m == list0.moves[k as int]);
                assert(r_rank == rel_rank(aggr_lead as u16, m.rank as int));
                assert(self.lead_suit as int == lead_suit as int);
            }
            set_weight(&mut list, k, w);
            assert(list.moves[k as int].weight == trump_notvoid1_weight_spec(*tpos, lead as int, self.trump as int,
                lead_suit as int, list0.moves[k as int], rel_rank(aggr_lead as u16, list0.moves[k as int].rank as int),
                move0_rank as int, max3rd as int, maxpd as int, min3rd as int, minpd as int));
            k += 1;
        }
        row[1] = list;
        self.move_list.set(t, row);
    }

    /// Weights of the second hand's moves following suit, in notrump.
    fn weight_alloc_nt_notvoid1(&mut self, tpos: &Pos)
        requires
            old(self).wf(),
            pos_wf(*tpos),
        ensures
            final(self).reweighted(old(self), 1),
            old(self).nt_notvoid1_done(*tpos, final(self).cur_ply(1)),
    {
        let t = self.curr_trick as usize;
        let lead = self.lead_hand as usize;
        let rho_i = (lead + 3) % 4;
        let partner_i = (lead + 2) % 4;
        let lead_suit = self.lead_suit as usize;
        let max3rd = self.highest_table[tpos.rank_in_suit[partner_i][lead_suit] as usize] as i32;
        let maxpd = self.highest_table[tpos.rank_in_suit[rho_i][lead_suit] as usize] as i32;
        let move0_rank = self.track[self.track_index].move_played[0].rank;
        let mut row = self.move_list[t];
        let mut list = row[1];
        let ghost l0 = list;
        let ghost s0 = *self;
        let n = self.num_moves as usize;
        if maxpd > move0_rank && maxpd > max3rd {
            fill_minus_rank(&mut list, 0, n, 0);
            proof {
                lemma_weights_minus(l0, list, 0, n as int, 0);
            }
        } else {
            let min3rd = self.lowest_table[tpos.rank_in_suit[partner_i][lead_suit] as usize] as i32;
            let minpd = self.lowest_table[tpos.rank_in_suit[rho_i][lead_suit] as usize] as i32;
            let aggr_lead = tpos.aggr[lead_suit] as usize;
            let ghost list0 = list;
            let mut k: usize = 0;
            while k < n
                invariant
                    k <= n <= 14,
                    ply_ok(list),
                    same_cards(list0, list),
                    forall|q: int| n <= q < 14 ==> #[trigger] list.moves[q] == list0.moves[q],
                    forall|q: int| k <= q < 14 ==> #[trigger] list.moves[q] == list0.moves[q],
                    forall|q: int| 0 <= q < k ==> #[trigger] list.moves[q].weight == s0.nt_notvoid1_weight(*tpos, list0.moves[q]),
                    list0 == l0,
                    *self == s0,
                    aggr_lead == tpos.aggr[lead_suit as int],
                    lead_suit as int == s0.lead_suit,
                    lead as int == s0.lead_hand,
                    rho_i == (lead + 3) % 4,
                    partner_i == (lead + 2) % 4,
                    move0_rank == s0.cur_track().move_played[0].rank,
                    max3rd == highest_rank(tpos.rank_in_suit[partner_i as int][lead_suit as int]),
                    min3rd == lowest_rank(tpos.rank_in_suit[partner_i as int][lead_suit as int]),
                    minpd == lowest_rank(tpos.rank_in_suit[rho_i as int][lead_suit as int]),
                    self.wf(),
                    aggr_lead < AGGR_COUNT,
                    0 <= move0_rank <= 15,
                    0 <= max3rd <= 255,
                    0 <= min3rd <= 255,
                    0 <= minpd <= 255,
                decreases n - k,
            {
                let cur_rank = list.moves[k].rank;
                let cur_sequence = list.moves[k].sequence;
                let r_rank = self.rel_table[aggr_lead][cur_rank as usize] as i32;
                let w = if cur_rank > move0_rank && cur_rank > max3rd {
                    81 - cur_rank
                } else if min3rd > cur_rank || minpd > cur_rank {
                    -3 + r_rank
                } else if cur_rank < move0_rank {
                    -11 + r_rank
                } else if cur_sequence != 0 {
                    10 + r_rank
                } else {
                    13 - cur_rank
                };
                set_weight(&mut list, k, w);
                k += 1;
            }
        }
        row[1] = list;
        self.move_list.set(t, row);
        assert(self.cur_ply(1) == list);
        assert(s0.cur_ply(1) == l0);
    }

    /// Weights of the second hand's discards or ruffs in the current suit,
    /// in a trump contract.
    fn weight_alloc_trump_void1(&mut self, tpos: &Pos)
        requires
            old(self).wf(),
            old(self).last_num_moves <= old(self).num_moves,
            pos_wf(*tpos),
            old(self).trump < 4,
        ensures
            final(self).reweighted(old(self), 1),
            old(self).trump_void1_done(*tpos, final(self).cur_ply(1)),
    {
        let t = self.curr_trick as usize;
        let lead = self.lead_hand as usize;
        let curr_hand = self.curr_hand as usize;
        let rho_i = (lead + 3) % 4;
        let partner_i = (lead + 2) % 4;
        let trump = self.trump as usize;
        let lead_suit = self.lead_suit as usize;
        let suit = self.suit as usize;
        let suit_count = tpos.length[curr_hand][suit] as i32;
        let suit_count_lo = suit_count * 64;
        let move0_rank = self.track[self.track_index].move_played[0].rank;
        let bit0 = BIT_MAP_RANK[move0_rank as usize];
        let shortish = suit_count == 2 && tpos.second_best[suit].hand == curr_hand as i32;
        let lo = self.last_num_moves as usize;
        let n = self.num_moves as usize;
        let mut row = self.move_list[t];
        let mut list = row[1];
        let ghost l0 = list;
        let ghost s0 = *self;
        if self.lead_suit == trump as i32 {
            let suit_add = if tpos.rank_in_suit[rho_i][lead_suit] > (tpos.rank_in_suit[partner_i][lead_suit] | bit0) {
                suit_count_lo / 44
            } else {
                suit_count_lo / 36 + if shortish { -4i32 } else { 0i32 }
            };
            fill_minus_rank(&mut list, lo, n, suit_add);
            proof {
                lemma_weights_minus(l0, list, (lo) as int, (n) as int, (suit_add) as int);
            }
        } else if suit != trump {
            let suit_add = if tpos.length[partner_i][lead_suit] != 0 {
                if tpos.rank_in_suit[rho_i][lead_suit] > (tpos.rank_in_suit[partner_i][lead_suit] | bit0)
                    || (tpos.length[rho_i][lead_suit] == 0 && tpos.length[rho_i][trump] != 0)
                {
                    60 + suit_count_lo / 44
                } else {
                    -2 + suit_count_lo / 36 + if shortish { -4i32 } else { 0i32 }
                }
            } else if (tpos.length[rho_i][lead_suit] == 0
                && tpos.rank_in_suit[rho_i][trump] > tpos.rank_in_suit[partner_i][trump])
                || (tpos.length[partner_i][trump] == 0 && tpos.rank_in_suit[rho_i][lead_suit] > bit0)
            {
                60 + suit_count_lo / 44
            } else {
                -2 + suit_count_lo / 36 + if shortish { -4i32 } else { 0i32 }
            };
            fill_minus_rank(&mut list, lo, n, suit_add);
            proof {
                lemma_weights_minus(l0, list, (lo) as int, (n) as int, (suit_add) as int);
            }
        } else if tpos.length[partner_i][lead_suit] != 0 {
            fill_minus_rank(&mut list, lo, n, 24 + suit_count_lo / 44);
            proof {
                lemma_weights_minus(l0, list, (lo) as int, (n) as int, (24 + suit_count_lo / 44) as int);
            }
        } else if tpos.length[rho_i][lead_suit] == 0 && tpos.length[rho_i][trump] != 0
            && tpos.rank_in_suit[rho_i][trump] > tpos.rank_in_suit[partner_i][trump]
        {
            fill_minus_rank(&mut list, lo, n, 24 + suit_count_lo / 44);
            proof {
                lemma_weights_minus(l0, list, (lo) as int, (n) as int, (24 + suit_count_lo / 44) as int);
            }
        } else {
            let ghost list0 = list;
            let ptrump = tpos.rank_in_suit[partner_i][trump];
            let high_add = 24 + suit_count_lo / 44;
            let low_add = 15 + suit_count_lo / 36 + if shortish { -4i32 } else { 0i32 };
            let mut k = lo;
            while k < n
                invariant
                    lo <= k <= n <= 14,
                    ply_ok(list),
                    same_cards(list0, list),
                    forall|q: int| n <= q < 14 ==> #[trigger] list.moves[q] == list0.moves[q],
                    forall|q: int| k <= q < 14 ==> #[trigger] list.moves[q] == list0.moves[q],
                    forall|q: int| 0 <= q < lo ==> #[trigger] list.moves[q] == list0.moves[q],
                    forall|q: int| lo <= q < k ==> #[trigger] list.moves[q].weight == (if BIT_MAP_RANK[list0.moves[q].rank as int] > ptrump {
                        high_add - list0.moves[q].rank
                    } else {
                        low_add - list0.moves[q].rank
                    }),
                    list0 == l0,
                    -100 <= high_add <= 100,
                    -100 <= low_add <= 100,
                decreases n - k,
            {
                let cur_rank = list.moves[k].rank;
                let w = if BIT_MAP_RANK[cur_rank as usize] > ptrump {
                    high_add - cur_rank
                } else {
                    low_add - cur_rank
                };
                set_weight(&mut list, k, w);
                k += 1;
            }
        }
        row[1] = list;
        self.move_list.set(t, row);
        assert(self.cur_ply(1) == list);
        assert(s0.cur_ply(1) == l0);
    }

    /// Weights of the second hand's discards in the current suit, in
    /// notrump.
    fn weight_alloc_nt_void1(&mut self, tpos: &Pos)
        requires
            old(self).wf(),
            old(self).last_num_moves <= old(self).num_moves,
            pos_wf(*tpos),
        ensures
            final(self).reweighted(old(self), 1),
            weights_minus(old(self).cur_ply(1), final(self).cur_ply(1), old(self).last_num_moves as int,
                old(self).num_moves as int, old(self).nt_void1_add(*tpos)),
    {
        let t = self.curr_trick as usize;
        let lead = self.lead_hand as usize;
        let curr_hand = self.curr_hand as usize;
        let rho_i = (lead + 3) % 4;
        let partner_i = (lead + 2) % 4;
        let lead_suit = self.lead_suit as usize;
        let suit = self.suit as usize;
        let move0_rank = self.track[self.track_index].move_played[0].rank;
        let suit_count = tpos.length[curr_hand][suit] as i32;
        let suit_add = if tpos.rank_in_suit[rho_i][lead_suit]
            > (tpos.rank_in_suit[partner_i][lead_suit] | BIT_MAP_RANK[move0_rank as usize])
        {
            (suit_count * 64) / 23 + if suit_count == 2 && tpos.second_best[suit].hand == curr_hand as i32 {
                -2i32
            } else if suit_count == 1 && tpos.winner[suit].hand == curr_hand as i32 {
                -3i32
            } else {
                0i32
            }
        } else {
            (suit_count * 64) / 33 + if suit_count == 2 && tpos.second_best[suit].hand == curr_hand as i32 {
                -6i32
            } else if suit_count == 1 && tpos.winner[suit].hand == curr_hand as i32 {
                -8i32
            } else {
                0i32
            }
        };
        let mut row = self.move_list[t];
        let mut list = row[1];
        let ghost l0 = list;
        assert(suit_add == self.nt_void1_add(*tpos));
        fill_minus_rank(&mut list, self.last_num_moves as usize, self.num_moves as usize, suit_add);
        proof {
            lemma_weights_minus(l0, list, self.last_num_moves as int, self.num_moves as int, suit_add as int);
        }
        row[1] = list;
        self.move_list.set(t, row);
        assert(self.cur_ply(1) == list);
    }

    /// The move of the third hand that should get a bonus because it
    /// forces out the fourth hand's ace, or -1.
    fn rank_forces_ace(&self, cards4th: i32) -> (r: i32)
        requires
            self.wf(),
            0 <= cards4th < AGGR_COUNT,
        ensures
            -1 <= r < self.num_moves,
            r == self.forces_ace(cards4th as int),
    {
        let mp = self.group_table[cards4th as usize];
        proof {
            crate::lookup::lemma_group_ranks(cards4th as nat);
            assert(mp@ == group_data(cards4th as nat));
        }
        let mut g = mp.last_group as i32;
        let removed = self.track[self.track_index].removed_ranks[self.lead_suit as usize];
        let ghost gd = mp@;
        proof {
            crate::lookup::lemma_group_bounds(cards4th as nat);
        }
        while g >= 1 && ((mp.gap[g as usize] as i32) & removed) == mp.gap[g as usize] as i32
            invariant
                -1 <= g <= 6,
                gd == mp@,
                gd.4.len() == 7,
                gd.3.len() == 7,
                g >= 0 ==> merged(gd, removed, g as int, 0).0 == merged(gd, removed, gd.0, 0).0,
                g == -1 ==> gd.0 == -1,
            decreases g,
        {
            proof {
                lemma_merged_end_any(gd, removed, g - 1, 0, 0 | (gd.3[g - 1] as i32));
            }
            g -= 1;
        }
        if g <= 0 {
            return -1;
        }
        let second_rho = mp.rank[(g - 1) as usize] as i32;
        let t = self.curr_trick as usize;
        let list = self.move_list[t][2];
        let tr = self.track[self.track_index];
        let threshold = if second_rho > tr.move_played[1].rank {
            second_rho
        } else if tr.high[1] == 1 {
            tr.move_played[1].rank
        } else {
            return -1;
        };
        let mut k: i32 = 0;
        while k < self.num_moves && list.moves[k as usize].rank > threshold
            invariant
                0 <= k <= self.num_moves <= 14,
                list == self.cur_ply(2),
                leading_above(list, self.num_moves as int, threshold as int, k as int) == leading_above(list,
                    self.num_moves as int, threshold as int, 0),
            decreases self.num_moves - k,
        {
            k += 1;
        }
        if k != 0 {
            return k - 1;
        }
        -1
    }

    /// How many more cards than one the third hand's run containing its
    /// top holds, once the leader's card `prank` is gone, and the index of
    /// the lowest move above `prank`.
    fn get_top_number(&self, ris: i32, prank: i32) -> (r: (i32, i32))
        requires
            self.wf(),
            0 < ris < AGGR_COUNT,
            0 <= prank <= 15,
        ensures
            0 <= r.1 < 14,
            r.1 < self.num_moves || r.1 == 0,
            -1 <= r.0 <= 15,
            r.1 == moves_above(self.move_list@[self.curr_trick as int][2], self.num_moves as int, prank as int, 0),
            ({
                let gd = group_data(ris as nat);
                let removed = self.track@[self.track_index as int].removed_ranks[self.lead_suit as int]
                    | BIT_MAP_RANK[prank as int] as i32;
                r.0 == crate::bits::popcount(run_ranks(gd, removed, gd.0, gd.3[gd.0])) - 1
            }),
    {
        let t = self.curr_trick as usize;
        let list = self.move_list[t][2];
        let mut mno: i32 = 0;
        while mno < self.num_moves - 1 && list.moves[(1 + mno) as usize].rank > prank
            invariant
                0 <= mno <= 13,
                mno < self.num_moves || mno == 0,
                self.wf(),
                list == self.move_list@[t as int][2],
                moves_above(list, self.num_moves as int, prank as int, mno as int) == moves_above(list, self.num_moves as int, prank as int, 0),
            decreases self.num_moves - mno,
        {
            mno += 1;
        }
        let mp = self.group_table[ris as usize];
        proof {
            crate::lookup::lemma_group_ranks(ris as nat);
            crate::lookup::lemma_group_bounds(ris as nat);
            assert(mp@ == group_data(ris as nat));
        }
        let mut g = mp.last_group as i32;
        let removed = self.track[self.track_index].removed_ranks[self.lead_suit as usize]
            | BIT_MAP_RANK[prank as usize] as i32;
        let mut fullseq: u16 = mp.fullseq[g as usize];
        let ghost gd = mp@;
        while g >= 1 && ((mp.gap[g as usize] as i32) & removed) == mp.gap[g as usize] as i32
            invariant
                0 <= g <= 6,
                gd == mp@,
                mp@.3.len() == 7,
                mp@.4.len() == 7,
                run_ranks(gd, removed, g as int, fullseq) == run_ranks(gd, removed, gd.0, gd.3[gd.0]),
            decreases g,
        {
            g -= 1;
            fullseq = fullseq | mp.fullseq[g as usize];
        }
        let top_number = crate::bits::count_ones16(fullseq) as i32 - 1;
        (top_number, mno)
    }

    /// Weights of the third hand's moves following suit, in a trump
    /// contract.
    fn weight_alloc_trump_notvoid2(&mut self, tpos: &Pos)
        requires
            old(self).wf(),
            pos_wf(*tpos),
        ensures
            final(self).reweighted(old(self), 2),
            old(self).trump_notvoid2_done(*tpos, final(self).cur_ply(2)),
    {
        let t = self.curr_trick as usize;
        let lead = self.lead_hand as usize;
        let rho_i = (lead + 3) % 4;
        let lead_suit = self.lead_suit as usize;
        let trump = self.trump;
        let cards4th = tpos.rank_in_suit[rho_i][lead_suit];
        let max4th = self.highest_table[cards4th as usize] as i32;
        let min4th = self.lowest_table[cards4th as usize] as i32;
        let mut row = self.move_list[t];
        let mut list = row[2];
        let ghost l0 = list;
        let ghost s0 = *self;
        let max3rd = list.moves[0].rank;
        let tr = self.track[self.track_index];
        let m0 = tr.move_played[0].rank;
        let m1 = tr.move_played[1].rank;
        let n = self.num_moves as usize;
        let mut k_bonus: i32 = -1;
        if self.lead_suit == trump {
            if (tr.high[1] == 0 && m0 > max4th) || max3rd < min4th || max3rd < m1 {
                fill_minus_rank(&mut list, 0, n, 0);
            proof {
                lemma_weights_minus(l0, list, (0) as int, (n) as int, (0) as int);
            }
            } else if max3rd > max4th {
                fill_above(&mut list, n, max4th, m1, 58);
            proof {
                lemma_weights_above(l0, list, (n) as int, (max4th) as int, (m1) as int, (58) as int);
            }
            } else {
                k_bonus = self.rank_forces_ace(cards4th as i32);
                fill_minus_rank(&mut list, 0, n, 0);
            proof {
                lemma_weights_minus(l0, list, (0) as int, (n) as int, (0) as int);
            }
            }
        } else if tr.move_played[1].suit == trump {
            fill_minus_rank(&mut list, 0, n, 0);
            proof {
                lemma_weights_minus(l0, list, (0) as int, (n) as int, (0) as int);
            }
        } else if tr.high[1] == 0 {
            if max4th == 0 || m0 > max4th || max3rd < min4th || max3rd < m1 {
                fill_minus_rank(&mut list, 0, n, 0);
            proof {
                lemma_weights_minus(l0, list, (0) as int, (n) as int, (0) as int);
            }
            } else if max3rd > max4th {
                fill_above(&mut list, n, max4th, max4th, 58);
            proof {
                lemma_weights_above(l0, list, (n) as int, (max4th) as int, (max4th) as int, (58) as int);
            }
            } else {
                k_bonus = self.rank_forces_ace(cards4th as i32);
                fill_above(&mut list, n, m1, max4th, 60);
            proof {
                lemma_weights_above(l0, list, (n) as int, (m1) as int, (max4th) as int, (60) as int);
            }
            }
        } else if max4th == 0 {
            fill_above(&mut list, n, m1, m1, 20);
            proof {
                lemma_weights_above(l0, list, (n) as int, (m1) as int, (m1) as int, (20) as int);
            }
        } else if max3rd < min4th || max3rd < m1 {
            fill_minus_rank(&mut list, 0, n, 0);
            proof {
                lemma_weights_minus(l0, list, (0) as int, (n) as int, (0) as int);
            }
        } else if max3rd > max4th {
            fill_above(&mut list, n, m1, max4th, 58);
            proof {
                lemma_weights_above(l0, list, (n) as int, (m1) as int, (max4th) as int, (58) as int);
            }
        } else {
            k_bonus = self.rank_forces_ace(cards4th as i32);
            fill_above(&mut list, n, m1, max4th, 60);
            proof {
                lemma_weights_above(l0, list, (n) as int, (m1) as int, (max4th) as int, (60) as int);
            }
        }
        let ghost lm = list;
        if k_bonus != -1 {
            add_weight(&mut list, k_bonus as usize, 20);
        }
        assert(bonus_added(lm, list, k_bonus as int));
        row[2] = list;
        self.move_list.set(t, row);
        assert(self.cur_ply(2) == list);
        assert(s0.cur_ply(2) == l0);
        assert(max3rd == l0.moves[0].rank);
        assert(tr == s0.cur_track());
    }

    /// Weights of the third hand's moves following suit, in notrump.
    fn weight_alloc_nt_notvoid2(&mut self, tpos: &Pos)
        requires
            old(self).wf(),
            pos_wf(*tpos),
            old(self).num_moves >= 1,
            old(self).curr_hand == (old(self).lead_hand + 2) % 4,
            tpos.rank_in_suit[old(self).curr_hand as int][old(self).lead_suit as int] != 0,
        ensures
            final(self).reweighted(old(self), 2),
            old(self).nt_notvoid2_done(*tpos, final(self).cur_ply(2)),
    {
        let t = self.curr_trick as usize;
        let lead = self.lead_hand as usize;
        let curr_hand = self.curr_hand as usize;
        let lho_i = (lead + 1) % 4;
        let rho_i = (lead + 3) % 4;
        let partner_i = (lead + 2) % 4;
        let lead_suit = self.lead_suit as usize;
        let cards4th = tpos.rank_in_suit[rho_i][lead_suit];
        let max4th = self.highest_table[cards4th as usize] as i32;
        let min4th = self.lowest_table[cards4th as usize] as i32;
        let mut row = self.move_list[t];
        let mut list = row[2];
        let ghost l0 = list;
        let ghost s0 = *self;
        let max3rd = list.moves[0].rank;
        let tr = self.track[self.track_index];
        let m0 = tr.move_played[0].rank;
        let m1 = tr.move_played[1].rank;
        let n = self.num_moves as usize;
        if tr.high[1] == 0 && m0 > max4th {
            fill_minus_rank(&mut list, 0, n, 0);
            proof {
                lemma_weights_minus(l0, list, (0) as int, (n) as int, (0) as int);
            }
            if tpos.length[lead][lead_suit] == 0 && tpos.winner[lead_suit].hand == curr_hand as i32 {
                let mut opp_len = tpos.length[rho_i][lead_suit] as i32 - 1;
                let lho_len = tpos.length[lho_i][lead_suit] as i32;
                if lho_len > opp_len {
                    opp_len = lho_len;
                }
                let (top_number, mno) = self.get_top_number(
                    tpos.rank_in_suit[partner_i][lead_suit] as i32,
                    m0,
                );
                if opp_len <= top_number {
                    add_weight(&mut list, mno as usize, 20);
                }
            }
        } else if max3rd < min4th || max3rd < m1 {
            fill_minus_rank(&mut list, 0, n, 0);
            proof {
                lemma_weights_minus(l0, list, (0) as int, (n) as int, (0) as int);
            }
        } else {
            let k_bonus = if max4th > max3rd && max4th > m1 {
                self.rank_forces_ace(cards4th as i32)
            } else {
                -1
            };
            fill_above(&mut list, n, m1, max4th, 60);
            proof {
                lemma_weights_above(l0, list, (n) as int, (m1) as int, (max4th) as int, (60) as int);
            }
            if k_bonus != -1 {
                add_weight(&mut list, k_bonus as usize, 20);
            }
        }
        row[2] = list;
        self.move_list.set(t, row);
    }

    /// Weights of the third hand's discards or ruffs in the current suit,
    /// in a trump contract.
    fn weight_alloc_trump_void2(&mut self, tpos: &Pos)
        requires
            old(self).wf(),
            old(self).last_num_moves <= old(self).num_moves,
            pos_wf(*tpos),
            old(self).trump < 4,
        ensures
            final(self).reweighted(old(self), 2),
            old(self).trump_void2_done(*tpos, final(self).cur_ply(2)),
    {
        let t = self.curr_trick as usize;
        let lead = self.lead_hand as usize;
        let curr_hand = self.curr_hand as usize;
        let rho_i = (lead + 3) % 4;
        let trump = self.trump as usize;
        let lead_suit = self.lead_suit as usize;
        let suit = self.suit as usize;
        let suit_count = tpos.length[curr_hand][suit] as i32;
        let max4th = self.highest_table[tpos.rank_in_suit[rho_i][lead_suit] as usize] as i32;
        let tr = self.track[self.track_index];
        let lo = self.last_num_moves as usize;
        let n = self.num_moves as usize;
        let mut row = self.move_list[t];
        let mut list = row[2];
        let ghost l0 = list;
        let ghost s0 = *self;
        if self.lead_suit == trump as i32 || suit != trump {
            fill_minus_rank(&mut list, lo, n, (suit_count * 64) / 40);
            proof {
                lemma_weights_minus(l0, list, (lo) as int, (n) as int, ((suit_count * 64) / 40) as int);
            }
        } else if tr.high[1] == 0 && tr.move_played[0].rank > max4th
            && (max4th != 0 || tpos.length[rho_i][trump] == 0)
        {
            fill_minus_rank(&mut list, lo, n, -50);
            proof {
                lemma_weights_minus(l0, list, (lo) as int, (n) as int, (-50) as int);
            }
        } else {
            let ghost list0 = list;
            let aggr = tpos.aggr[suit] as usize;
            let add40 = (suit_count * 64) / 40;
            let add50 = (suit_count * 64) / 50;
            let rho_trumps = tpos.rank_in_suit[rho_i][trump];
            let second_lead = tpos.second_best[lead_suit].hand == lead as i32;
            let mut k = lo;
            while k < n
                invariant
                    lo <= k <= n <= 14,
                    ply_ok(list),
                    same_cards(list0, list),
                    forall|q: int| n <= q < 14 ==> #[trigger] list.moves[q] == list0.moves[q],
                    forall|q: int| k <= q < 14 ==> #[trigger] list.moves[q] == list0.moves[q],
                    forall|q: int| 0 <= q < lo ==> #[trigger] list.moves[q] == list0.moves[q],
                    forall|q: int| lo <= q < k ==> #[trigger] list.moves[q].weight == s0.trump_void2_weight(*tpos, list0.moves[q].rank as int),
                    list0 == l0,
                    *self == s0,
                    tr == s0.cur_track(),
                    aggr == tpos.aggr[suit as int],
                    suit as int == s0.suit,
                    trump as int == s0.trump,
                    lead as int == s0.lead_hand,
                    lead_suit as int == s0.lead_suit,
                    rho_trumps == tpos.rank_in_suit[rho_i as int][trump as int],
                    rho_i == (lead + 3) % 4,
                    second_lead == (tpos.second_best[lead_suit as int].hand == lead),
                    max4th == highest_rank(tpos.rank_in_suit[rho_i as int][lead_suit as int]),
                    add40 == (suit_count * 64) / 40,
                    add50 == (suit_count * 64) / 50,
                    suit_count == s0.suit_len(*tpos),
                    self.wf(),
                    aggr < AGGR_COUNT,
                    0 <= add40 <= 100,
                    0 <= add50 <= 100,
                    track_ok(tr),
                decreases n - k,
            {
                let cur_rank = list.moves[k].rank;
                let w = if tr.move_played[1].suit == trump as i32 && cur_rank < tr.move_played[1].rank {
                    -32 + self.rel_table[aggr][cur_rank as usize] as i32 + add40
                } else if tr.high[1] == 0 {
                    if max4th != 0 {
                        if second_lead {
                            36 - cur_rank + add50
                        } else {
                            48 - cur_rank + add50
                        }
                    } else if BIT_MAP_RANK[cur_rank as usize] > rho_trumps {
                        48 - cur_rank + add50
                    } else {
                        -12 - cur_rank + add50
                    }
                } else if max4th != 0 {
                    72 - cur_rank + add50
                } else if BIT_MAP_RANK[cur_rank as usize] > rho_trumps {
                    48 - cur_rank + add50
                } else {
                    36 - cur_rank + add50
                };
                set_weight(&mut list, k, w);
                k += 1;
            }
        }
        row[2] = list;
        self.move_list.set(t, row);
        assert(self.cur_ply(2) == list);
        assert(s0.cur_ply(2) == l0);
    }

    /// Weights of the third hand's discards in the current suit, in
    /// notrump.
    fn weight_alloc_nt_void2(&mut self, tpos: &Pos)
        requires
            old(self).wf(),
            old(self).last_num_moves <= old(self).num_moves,
            pos_wf(*tpos),
        ensures
            final(self).reweighted(old(self), 2),
            weights_minus(old(self).cur_ply(2), final(self).cur_ply(2), old(self).last_num_moves as int,
                old(self).num_moves as int, old(self).nt_void2_add(*tpos)),
    {
        let t = self.curr_trick as usize;
        let curr_hand = self.curr_hand as usize;
        let suit = self.suit as usize;
        let suit_count = tpos.length[curr_hand][suit] as i32;
        let mut suit_add = (suit_count * 64) / 24;
        if (suit_count == 2 && tpos.second_best[suit].hand == curr_hand as i32)
            || (suit_count == 1 && tpos.winner[suit].hand == curr_hand as i32)
        {
            suit_add -= 4;
        }
        let mut row = self.move_list[t];
        let mut list = row[2];
        let ghost l0 = list;
        assert(suit_add == self.nt_void2_add(*tpos));
        fill_minus_rank(&mut list, self.last_num_moves as usize, self.num_moves as usize, suit_add);
        proof {
            lemma_weights_minus(l0, list, self.last_num_moves as int, self.num_moves as int, suit_add as int);
        }
        row[2] = list;
        self.move_list.set(t, row);
        assert(self.cur_ply(2) == list);
    }

    /// Weights of the fourth hand's moves following suit.
    fn weight_alloc_combined_notvoid3(&mut self, tpos: &Pos)
        requires
            old(self).wf(),
        ensures
            final(self).reweighted(old(self), 3),
            old(self).combined_notvoid3_done(final(self).cur_ply(3)),
    {
        let t = self.curr_trick as usize;
        let tr = self.track[self.track_index];
        let n = self.num_moves as usize;
        let mut row = self.move_list[t];
        let mut list = row[3];
        let ghost l0 = list;
        if tr.high[2] == 1 || (self.lead_suit != self.trump && tr.move_played[2].suit == self.trump) {
            fill_minus_rank(&mut list, 0, n, 0);
            proof {
                lemma_weights_minus(l0, list, 0, n as int, 0);
            }
        } else {
            fill_above(&mut list, n, tr.move_played[2].rank, tr.move_played[2].rank, 30);
            proof {
                lemma_weights_above(l0, list, n as int, tr.move_played[2].rank as int, tr.move_played[2].rank as int, 30);
            }
        }
        row[3] = list;
        self.move_list.set(t, row);
        assert(self.cur_ply(3) == list);
    }

    /// Weights of the fourth hand's discards or ruffs in the current suit,
    /// in a trump contract.
    fn weight_alloc_trump_void3(&mut self, tpos: &Pos)
        requires
            old(self).wf(),
            old(self).last_num_moves <= old(self).num_moves,
            pos_wf(*tpos),
        ensures
            final(self).reweighted(old(self), 3),
            old(self).trump_void3_done(*tpos, final(self).cur_ply(3)),
    {
        let t = self.curr_trick as usize;
        let curr_hand = self.curr_hand as usize;
        let suit = self.suit as usize;
        let trump = self.trump;
        let tr = self.track[self.track_index];
        let mylen = tpos.length[curr_hand][suit] as i32;
        let mut val = (mylen * 64) / 24;
        if mylen == 2 && tpos.second_best[suit].hand == curr_hand as i32 {
            val -= 2;
        }
        let lo = self.last_num_moves as usize;
        let n = self.num_moves as usize;
        let mut row = self.move_list[t];
        let mut list = row[3];
        let ghost l0 = list;
        let ghost s0 = *self;
        assert(val == self.trump_void3_add(*tpos));
        if self.lead_suit == trump {
            fill_minus_rank(&mut list, lo, n, val);
            proof {
                lemma_weights_minus(l0, list, lo as int, n as int, (val) as int);
            }
        } else if tr.high[2] == 1 {
            if suit as i32 == trump {
                fill_minus_rank(&mut list, lo, n, 2 + val);
            proof {
                lemma_weights_minus(l0, list, lo as int, n as int, (2 + val) as int);
            }
            } else {
                fill_minus_rank(&mut list, lo, n, 25 + val);
            proof {
                lemma_weights_minus(l0, list, lo as int, n as int, (25 + val) as int);
            }
            }
        } else if tr.move_played[2].suit == trump && suit as i32 != trump {
            fill_minus_rank(&mut list, lo, n, 14 + val);
            proof {
                lemma_weights_minus(l0, list, lo as int, n as int, (14 + val) as int);
            }
        } else if suit as i32 == trump {
            let ghost list0 = list;
            let aggr = tpos.aggr[suit] as usize;
            let ruffed = tr.move_played[2].suit == trump;
            let m2 = tr.move_played[2].rank;
            let mut k = lo;
            while k < n
                invariant
                    lo <= k <= n <= 14,
                    ply_ok(list),
                    same_cards(list0, list),
                    forall|q: int| n <= q < 14 ==> #[trigger] list.moves[q] == list0.moves[q],
                    forall|q: int| k <= q < 14 ==> #[trigger] list.moves[q] == list0.moves[q],
                    forall|q: int| 0 <= q < lo ==> #[trigger] list.moves[q] == list0.moves[q],
                    forall|q: int| lo <= q < k ==> #[trigger] list.moves[q].weight == (if ruffed && list0.moves[q].rank <= m2 {
                        -13 + rel_rank(aggr as u16, list0.moves[q].rank as int)
                    } else {
                        33 + rel_rank(aggr as u16, list0.moves[q].rank as int)
                    }),
                    list0 == l0,
                    *self == s0,
                    self.wf(),
                    aggr < AGGR_COUNT,
                decreases n - k,
            {
                let cur_rank = list.moves[k].rank;
                let r_rank = self.rel_table[aggr][cur_rank as usize] as i32;
                let w = if ruffed && cur_rank <= m2 { -13 + r_rank } else { 33 + r_rank };
                set_weight(&mut list, k, w);
                k += 1;
            }
            proof {
                assert forall|q: int| 0 <= q < 14 implies #[trigger] list.moves[q].weight == if lo <= q < n {
                    let r = l0.moves[q].rank as int;
                    let rr = rel_rank(tpos.aggr[suit as int], r);
                    if tr.move_played[2].suit == trump && r <= tr.move_played[2].rank { -13 + rr } else { 33 + rr }
                } else {
                    l0.moves[q].weight as int
                } by {}
            }
        } else {
            fill_minus_rank(&mut list, lo, n, 14 + val);
            proof {
                lemma_weights_minus(l0, list, lo as int, n as int, (14 + val) as int);
            }
        }
        row[3] = list;
        self.move_list.set(t, row);
        assert(self.cur_ply(3) == list);
        assert(s0.cur_ply(3) == l0);
    }

    /// Weights of the fourth hand's discards in the current suit, in
    /// notrump.
    fn weight_alloc_nt_void3(&mut self, tpos: &Pos)
        requires
            old(self).wf(),
            old(self).last_num_moves <= old(self).num_moves,
            pos_wf(*tpos),
        ensures
            final(self).reweighted(old(self), 3),
            weights_minus(old(self).cur_ply(3), final(self).cur_ply(3), old(self).last_num_moves as int,
                old(self).num_moves as int, old(self).nt_void3_add(*tpos)),
    {
        let t = self.curr_trick as usize;
        let curr_hand = self.curr_hand as usize;
        let suit = self.suit as usize;
        let mylen = tpos.length[curr_hand][suit] as i32;
        let mut val = (mylen * 64) / 27;
        if mylen == 2 && tpos.second_best[suit].hand == curr_hand as i32 {
            val -= 6;
        } else if mylen == 1 && tpos.winner[suit].hand == curr_hand as i32 {
            val -= 8;
        }
        let mut row = self.move_list[t];
        let mut list = row[3];
        let ghost l0 = list;
        assert(val == self.nt_void3_add(*tpos));
        fill_minus_rank(&mut list, self.last_num_moves as usize, self.num_moves as usize, val);
        proof {
            lemma_weights_minus(l0, list, self.last_num_moves as int, self.num_moves as int, val as int);
        }
        row[3] = list;
        self.move_list.set(t, row);
        assert(self.cur_ply(3) == list);
    }

    /// The weight function of a follower: by relative hand (times four),
    /// plus one in a trump contract, plus two when void in the led suit.
    fn dispatch_weight_alloc(&mut self, findex: i32, tpos: &Pos)
        requires
            old(self).wf(),
            pos_wf(*tpos),
            4 <= findex <= 15,
            findex % 2 == 1 ==> old(self).trump < 4,
            findex % 4 >= 2 ==> old(self).last_num_moves <= old(self).num_moves,
            findex == 8 ==> old(self).num_moves >= 1 && old(self).curr_hand == (old(self).lead_hand + 2) % 4
                && tpos.rank_in_suit[old(self).curr_hand as int][old(self).lead_suit as int] != 0,
        ensures
            final(self).reweighted(old(self), findex / 4),
            ({
                let o = old(self);
                let lo = o.last_num_moves as int;
                let n = o.num_moves as int;
                let b1 = final(self).cur_ply(1);
                let b2 = final(self).cur_ply(2);
                let b3 = final(self).cur_ply(3);
                &&& findex == 4 ==> o.nt_notvoid1_done(*tpos, b1)
                &&& findex == 5 ==> o.trump_notvoid1_done(*tpos, b1)
                &&& findex == 6 ==> weights_minus(o.cur_ply(1), b1, lo, n, o.nt_void1_add(*tpos))
                &&& findex == 7 ==> o.trump_void1_done(*tpos, b1)
                &&& findex == 8 ==> o.nt_notvoid2_done(*tpos, b2)
                &&& findex == 9 ==> o.trump_notvoid2_done(*tpos, b2)
                &&& findex == 10 ==> weights_minus(o.cur_ply(2), b2, lo, n, o.nt_void2_add(*tpos))
                &&& findex == 11 ==> o.trump_void2_done(*tpos, b2)
                &&& (findex == 12 || findex == 13) ==> o.combined_notvoid3_done(b3)
                &&& findex == 14 ==> weights_minus(o.cur_ply(3), b3, lo, n, o.nt_void3_add(*tpos))
                &&& findex == 15 ==> o.trump_void3_done(*tpos, b3)
            }),
    {
        if findex == 4 {
            self.weight_alloc_nt_notvoid1(tpos);
        } else if findex == 5 {
            self.weight_alloc_trump_notvoid1(tpos);
        } else if findex == 6 {
            self.weight_alloc_nt_void1(tpos);
        } else if findex == 7 {
            self.weight_alloc_trump_void1(tpos);
        } else if findex == 8 {
            self.weight_alloc_nt_notvoid2(tpos);
        } else if findex == 9 {
            self.weight_alloc_trump_notvoid2(tpos);
        } else if findex == 10 {
            self.weight_alloc_nt_void2(tpos);
        } else if findex == 11 {
            self.weight_alloc_trump_void2(tpos);
        } else if findex == 12 || findex == 13 {
            self.weight_alloc_combined_notvoid3(tpos);
        } else if findex == 14 {
            self.weight_alloc_nt_void3(tpos);
        } else {
            self.weight_alloc_trump_void3(tpos);
        }
    }

    /// Generate, weight and sort the leader's candidate moves for trick
    /// `tricks`: in each suit one card per run of cards that are equivalent
    /// once the ranks gone from play are left out. Returns their number.
    pub fn move_gen_0(
        &mut self,
        tricks: i32,
        tpos: &Pos,
        best_move: &MoveType,
        best_move_tt: &MoveType,
        thrp_rel: &[RelRanks],
    ) -> (r: i32)
        requires
            old(self).wf(),
            pos_wf(*tpos),
            0 <= tricks < MAX_DEPTH,
            hand_groups(*tpos, old(self).tracks()[tricks as int].lead_hand as int) <= 14,
        ensures
            final(self).wf(),
            final(self).same_setup(old(self)),
            ({
                let t = tricks as int;
                let tr = old(self).tracks()[t];
                let c = all_cands(*tpos, tr.lead_hand as int, tr.removed_ranks@);
                let p2 = final(self).plies()[t][0];
                &&& r == c.len()
                &&& final(self).num_moves_spec() == r
                &&& only_ply_changed(old(self).plies(), final(self).plies(), t, 0)
                &&& exists|pre: MovePly| #![trigger generated(pre, c, old(self).plies()[t][0])]
                    generated(pre, c, old(self).plies()[t][0]) && (r == 1 ==> p2 == pre) && (r != 1 ==> sorted_ply(pre, p2))
                &&& final(self).tracks() == old(self).tracks().update(t, Track { lowest_win: final(self).tracks()[t].lowest_win, ..tr })
                &&& forall|s: int| 0 <= s < 4 ==> #[trigger] final(self).tracks()[t].lowest_win[0][s] == 0
                &&& forall|h: int| 1 <= h < 4 ==> #[trigger] final(self).tracks()[t].lowest_win[h] == tr.lowest_win[h]
            }),
    {
        let t = tricks as usize;
        let ghost old_ply = self.move_list@[t as int][0];
        self.track_index = t;
        let mut tr = self.track[t];
        let ghost tr0 = tr;
        let lead = tr.lead_hand;
        self.lead_hand = lead;
        self.curr_hand = lead;
        self.curr_trick = tricks;
        tr.lowest_win[0] = [0i32; 4];
        self.track.set(t, tr);
        self.num_moves = 0;
        self.last_num_moves = 0;
        let ghost rr = tr0.removed_ranks@;
        proof {
            lemma_groups_upto(*tpos, lead as int);
        }
        let ftest = self.trump != DDS_NOTRUMP && tpos.winner[self.trump as usize].rank != 0;
        let mut suit: usize = 0;
        while suit < 4
            invariant
                suit <= 4,
                self.wf(),
                old(self).wf(),
                pos_wf(*tpos),
                self.same_setup(old(self)),
                self.curr_trick == tricks,
                0 <= tricks < MAX_DEPTH,
                t == tricks,
                self.lead_hand == lead,
                0 <= lead < 4,
                ftest ==> self.trump < 4,
                self.track@ == old(self).track@.update(t as int, tr),
                tr == (Track { lowest_win: tr.lowest_win, ..tr0 }),
                rr == tr0.removed_ranks@,
                forall|s2: int| 0 <= s2 < 4 ==> #[trigger] tr.lowest_win[0][s2] == 0,
                forall|h: int| 1 <= h < 4 ==> #[trigger] tr.lowest_win[h] == tr0.lowest_win[h],
                hand_groups(*tpos, lead as int) <= 14,
                groups_upto(*tpos, lead as int, 4) == hand_groups(*tpos, lead as int),
                forall|s2: int| 0 <= s2 <= 4 ==> #[trigger] groups_upto(*tpos, lead as int, s2) <= groups_upto(*tpos, lead as int, 4),
                self.num_moves == cands_upto(*tpos, lead as int, rr, suit as int).len(),
                self.num_moves <= groups_upto(*tpos, lead as int, suit as int),
                only_ply_changed(old(self).move_list@, self.move_list@, t as int, 0),
                self.move_list@[t as int][0].last == old_ply.last,
                self.move_list@[t as int][0].current == old_ply.current,
                forall|k: int| 0 <= k < self.num_moves ==> #[trigger] ext_of(self.move_list@[t as int][0].moves[k])
                    == cands_upto(*tpos, lead as int, rr, suit as int)[k],
                forall|k: int| self.num_moves <= k < 14 ==> #[trigger] self.move_list@[t as int][0].moves[k] == old_ply.moves[k],
            decreases 4 - suit,
        {
            self.suit = suit as i32;
            let ris = tpos.rank_in_suit[lead as usize][suit];
            proof {
                crate::lookup::lemma_group_ranks(ris as nat);
                crate::lookup::lemma_group_bounds(ris as nat);
                reveal_with_fuel(cands_upto, 2);
                reveal_with_fuel(groups_upto, 2);
            }
            if ris == 0 {
                proof {
                    assert(group_data(0).0 == -1);
                    assert(suit_cands(*tpos, lead as int, suit as int, rr[suit as int]) =~= Seq::<ExtCard>::empty());
                    assert(cands_upto(*tpos, lead as int, rr, suit as int + 1) =~= cands_upto(*tpos, lead as int, rr, suit as int));
                }
                suit += 1;
                continue;
            }
            self.last_num_moves = self.num_moves;
            let mp = self.group_table[ris as usize];
            let removed = self.track[t].removed_ranks[suit];
            let mut row = self.move_list[t];
            let mut list = row[0];
            let ghost list_before = list;
            proof {
                assert(mp@ == group_data(ris as nat));
                assert(self.track@[t as int] == tr);
                assert(removed == rr[suit as int]);
            }
            proof {
                assert(groups_upto(*tpos, lead as int, suit as int + 1) <= groups_upto(*tpos, lead as int, 4));
            }
            let k2 = gen_suit(&mut list, self.num_moves as usize, suit as i32, mp, removed);
            row[0] = list;
            self.move_list.set(t, row);
            self.num_moves = k2 as i32;
            proof {
                lemma_runs_len(mp@, removed, mp.last_group as int);
                let sc = suit_cands(*tpos, lead as int, suit as int, removed);
                let prev = cands_upto(*tpos, lead as int, rr, suit as int);
                assert(cands_upto(*tpos, lead as int, rr, suit as int + 1) == prev + sc);
                assert forall|k: int| 0 <= k < self.num_moves implies #[trigger] ext_of(self.move_list@[t as int][0].moves[k])
                    == cands_upto(*tpos, lead as int, rr, suit as int + 1)[k] by {
                    if k >= prev.len() {
                        assert(sc[k - prev.len()] == ext_of(list.moves[k]));
                    }
                }
            }
            if ftest {
                self.weight_alloc_trump0(tpos, best_move, best_move_tt, thrp_rel);
            } else {
                self.weight_alloc_nt0(tpos, best_move, best_move_tt, thrp_rel);
            }
            suit += 1;
        }
        let mut row = self.move_list[t];
        let mut list = row[0];
        let ghost pre = MovePly { current: 0, last: (self.num_moves - 1) as i32, ..list };
        list.current = 0;
        list.last = self.num_moves - 1;
        proof {
            assert(cands_upto(*tpos, lead as int, rr, 4) =~= all_cands(*tpos, lead as int, rr)) by {
                reveal_with_fuel(cands_upto, 5);
            }
            assert(generated(pre, all_cands(*tpos, lead as int, rr), old_ply));
        }
        if self.num_moves != 1 {
            let ghost m0 = list.moves@;
            merge_sort(&mut list.moves, self.num_moves as usize);
            proof {
                lemma_sorted_keeps_ok(m0, list.moves@, self.num_moves as int);
                assert(sorted_ply(pre, list));
            }
        }
        row[0] = list;
        self.move_list.set(t, row);
        proof {
            assert(self.move_list@[t as int][0] == list);
            assert(self.track@[t as int] == tr);
            assert(generated(pre, all_cands(*tpos, lead as int, rr), old_ply) && (self.num_moves == 1 ==> list == pre)
                && (self.num_moves != 1 ==> sorted_ply(pre, list)));
            let c = all_cands(*tpos, old(self).tracks()[t as int].lead_hand as int, old(self).tracks()[t as int].removed_ranks@);
            assert(c == all_cands(*tpos, lead as int, rr));
            assert(old_ply == old(self).plies()[t as int][0]);
            assert(self.plies()[t as int][0] == list);
            assert(generated(pre, c, old(self).plies()[t as int][0]));
            assert(self.num_moves == 1 ==> self.plies()[t as int][0] == pre);
            assert(self.num_moves != 1 ==> sorted_ply(pre, self.plies()[t as int][0]));
            assert(exists|p: MovePly| #![trigger generated(p, c, old(self).plies()[t as int][0])]
                generated(p, c, old(self).plies()[t as int][0]) && (self.num_moves == 1 ==> self.plies()[t as int][0] == p) && (self.num_moves != 1 ==> sorted_ply(p, self.plies()[t as int][0])));
        }
        self.num_moves
    }

    /// Generate, weight and sort the candidate moves of the follower at
    /// relative position `hand_rel` (1 to 3) in trick `tricks`: the runs
    /// of the led suit when it holds any, else of all suits. Returns their
    /// number.
    pub fn move_gen_123(&mut self, tricks: i32, hand_rel: i32, tpos: &Pos) -> (r: i32)
        requires
            old(self).wf(),
            pos_wf(*tpos),
            0 <= tricks < MAX_DEPTH,
            1 <= hand_rel < 4,
            hand_groups(*tpos, (old(self).tracks()[tricks as int].lead_hand + hand_rel) % 4) <= 14,
        ensures
            final(self).wf(),
            final(self).same_setup(old(self)),
            ({
                let t = tricks as int;
                let h = hand_rel as int;
                let tr = old(self).tracks()[t];
                let hand = (tr.lead_hand + h) % 4;
                let c = follower_cands(*tpos, hand, tr);
                let p2 = final(self).plies()[t][h];
                &&& r == c.len()
                &&& final(self).num_moves_spec() == r
                &&& only_ply_changed(old(self).plies(), final(self).plies(), t, h)
                &&& exists|pre: MovePly| #![trigger generated(pre, c, old(self).plies()[t][h])]
                    generated(pre, c, old(self).plies()[t][h]) && (r == 1 ==> p2 == pre) && (r != 1 ==> sorted_ply(pre, p2))
                &&& final(self).tracks() == old(self).tracks().update(t, Track { lowest_win: final(self).tracks()[t].lowest_win, ..tr })
                &&& forall|s: int| 0 <= s < 4 ==> #[trigger] final(self).tracks()[t].lowest_win[h][s] == 0
                &&& forall|h2: int| 0 <= h2 < 4 && h2 != h ==> #[trigger] final(self).tracks()[t].lowest_win[h2] == tr.lowest_win[h2]
            }),
    {
        let t = tricks as usize;
        let hr = hand_rel as usize;
        let ghost old_ply = self.move_list@[t as int][hr as int];
        self.track_index = t;
        let mut tr = self.track[t];
        let ghost tr0 = tr;
        let lead = tr.lead_hand;
        let curr = (lead + hand_rel) & 3;
        assert(curr == (lead + hand_rel) % 4) by (bit_vector)
            requires
                curr == ((lead + hand_rel) as i32) & 3,
                0 <= lead < 4,
                1 <= hand_rel < 4,
        ;
        self.lead_hand = lead;
        self.curr_hand = curr;
        self.curr_trick = tricks;
        self.lead_suit = tr.lead_suit;
        tr.lowest_win[hr] = [0i32; 4];
        self.track.set(t, tr);
        self.num_moves = 0;
        let ghost rr = tr0.removed_ranks@;
        proof {
            lemma_groups_upto(*tpos, curr as int);
            assert(self.track@[t as int] == tr);
        }
        let ftest: i32 = if self.trump != DDS_NOTRUMP && tpos.winner[self.trump as usize].rank != 0 { 1 } else { 0 };
        let lead_suit = tr.lead_suit as usize;
        let ris_lead = tpos.rank_in_suit[curr as usize][lead_suit];
        if ris_lead != 0 {
            let mp = self.group_table[ris_lead as usize];
            let removed = tr.removed_ranks[lead_suit];
            proof {
                crate::lookup::lemma_group_ranks(ris_lead as nat);
                crate::lookup::lemma_group_bounds(ris_lead as nat);
                assert(mp@ == group_data(ris_lead as nat));
                reveal_with_fuel(groups_upto, 5);
                lemma_runs_len(mp@, removed, mp.last_group as int);
            }
            let mut row = self.move_list[t];
            let mut list = row[hr];
            let k2 = gen_suit(&mut list, 0, lead_suit as i32, mp, removed);
            let ghost c = suit_cands(*tpos, curr as int, lead_suit as int, removed);
            let ghost pre = MovePly { current: 0, last: (k2 - 1) as i32, ..list };
            list.current = 0;
            list.last = k2 as i32 - 1;
            row[hr] = list;
            self.move_list.set(t, row);
            self.num_moves = k2 as i32;
            proof {
                assert forall|k: int| 0 <= k < c.len() implies #[trigger] ext_of(pre.moves[k]) == c[k] by {
                    assert(ext_of(list.moves[k]) == c[k]);
                }
                assert(generated(pre, c, old_ply));
                assert(self.move_list@[t as int][hr as int] == pre);
            }
            proof {
                assert(c == follower_cands(*tpos, curr as int, tr0));
            }
            if k2 == 1 {
                proof {
                    assert(generated(pre, follower_cands(*tpos, curr as int, tr0), old(self).plies()[t as int][hr as int]));
                }
                return 1;
            }
            let findex = 4 * hand_rel + ftest;
            self.dispatch_weight_alloc(findex, tpos);
            let mut row = self.move_list[t];
            let mut list = row[hr];
            let ghost pre2 = list;
            proof {
                assert forall|k: int| 0 <= k < c.len() implies #[trigger] ext_of(pre2.moves[k]) == c[k] by {
                    assert(ext_of(pre2.moves[k]) == ext_of(pre.moves[k]));
                }
                assert(generated(pre2, c, old_ply));
            }
            let ghost m0 = list.moves@;
            merge_sort(&mut list.moves, k2);
            proof {
                lemma_sorted_keeps_ok(m0, list.moves@, k2 as int);
                assert(sorted_ply(pre2, list));
            }
            row[hr] = list;
            self.move_list.set(t, row);
            proof {
                assert(self.plies()[t as int][hr as int] == list);
                assert(generated(pre2, follower_cands(*tpos, curr as int, tr0), old(self).plies()[t as int][hr as int]));
            }
            return self.num_moves;
        }
        let findex = 4 * hand_rel + ftest + 2;
        let mut suit: usize = 0;
        while suit < 4
            invariant
                suit <= 4,
                self.wf(),
                old(self).wf(),
                pos_wf(*tpos),
                self.same_setup(old(self)),
                self.curr_trick == tricks,
                0 <= tricks < MAX_DEPTH,
                t == tricks,
                hr == hand_rel,
                1 <= hand_rel < 4,
                findex == 4 * hand_rel + ftest + 2,
                0 <= ftest <= 1,
                ftest == 1 ==> self.trump < 4,
                self.curr_hand == curr,
                0 <= curr < 4,
                self.track@ == old(self).track@.update(t as int, tr),
                tr == (Track { lowest_win: tr.lowest_win, ..tr0 }),
                rr == tr0.removed_ranks@,
                hand_groups(*tpos, curr as int) <= 14,
                groups_upto(*tpos, curr as int, 4) == hand_groups(*tpos, curr as int),
                forall|s2: int| 0 <= s2 <= 4 ==> #[trigger] groups_upto(*tpos, curr as int, s2) <= groups_upto(*tpos, curr as int, 4),
                self.num_moves == cands_upto(*tpos, curr as int, rr, suit as int).len(),
                self.num_moves <= groups_upto(*tpos, curr as int, suit as int),
                only_ply_changed(old(self).move_list@, self.move_list@, t as int, hr as int),
                self.move_list@[t as int][hr as int].last == old_ply.last,
                self.move_list@[t as int][hr as int].current == old_ply.current,
                forall|k: int| 0 <= k < self.num_moves ==> #[trigger] ext_of(self.move_list@[t as int][hr as int].moves[k])
                    == cands_upto(*tpos, curr as int, rr, suit as int)[k],
                forall|k: int| self.num_moves <= k < 14 ==> #[trigger] self.move_list@[t as int][hr as int].moves[k] == old_ply.moves[k],
            decreases 4 - suit,
        {
            self.suit = suit as i32;
            let ris = tpos.rank_in_suit[curr as usize][suit];
            proof {
                crate::lookup::lemma_group_ranks(ris as nat);
                crate::lookup::lemma_group_bounds(ris as nat);
                reveal_with_fuel(cands_upto, 2);
                reveal_with_fuel(groups_upto, 2);
            }
            if ris == 0 {
                proof {
                    assert(group_data(0).0 == -1);
                    assert(suit_cands(*tpos, curr as int, suit as int, rr[suit as int]) =~= Seq::<ExtCard>::empty());
                    assert(cands_upto(*tpos, curr as int, rr, suit as int + 1) =~= cands_upto(*tpos, curr as int, rr, suit as int));
                }
                suit += 1;
                continue;
            }
            self.last_num_moves = self.num_moves;
            let mp = self.group_table[ris as usize];
            let removed = self.track[t].removed_ranks[suit];
            let mut row = self.move_list[t];
            let mut list = row[hr];
            proof {
                assert(mp@ == group_data(ris as nat));
                assert(self.track@[t as int] == tr);
                assert(removed == rr[suit as int]);
                assert(groups_upto(*tpos, curr as int, suit as int + 1) <= groups_upto(*tpos, curr as int, 4));
            }
            let k2 = gen_suit(&mut list, self.num_moves as usize, suit as i32, mp, removed);
            row[hr] = list;
            self.move_list.set(t, row);
            self.num_moves = k2 as i32;
            proof {
                lemma_runs_len(mp@, removed, mp.last_group as int);
                let sc = suit_cands(*tpos, curr as int, suit as int, removed);
                let prev = cands_upto(*tpos, curr as int, rr, suit as int);
                assert(cands_upto(*tpos, curr as int, rr, suit as int + 1) == prev + sc);
                assert forall|k: int| 0 <= k < self.num_moves implies #[trigger] ext_of(self.move_list@[t as int][hr as int].moves[k])
                    == cands_upto(*tpos, curr as int, rr, suit as int + 1)[k] by {
                    if k >= prev.len() {
                        assert(sc[k - prev.len()] == ext_of(list.moves[k]));
                    }
                }
            }
            self.dispatch_weight_alloc(findex, tpos);
            suit += 1;
        }
        let mut row = self.move_list[t];
        let mut list = row[hr];
        let ghost pre = MovePly { current: 0, last: (self.num_moves - 1) as i32, ..list };
        list.current = 0;
        list.last = self.num_moves - 1;
        proof {
            assert(cands_upto(*tpos, curr as int, rr, 4) =~= all_cands(*tpos, curr as int, rr)) by {
                reveal_with_fuel(cands_upto, 5);
            }
            assert(generated(pre, all_cands(*tpos, curr as int, rr), old_ply));
        }
        if self.num_moves != 1 {
            let ghost m0 = list.moves@;
            merge_sort(&mut list.moves, self.num_moves as usize);
            proof {
                lemma_sorted_keeps_ok(m0, list.moves@, self.num_moves as int);
                assert(sorted_ply(pre, list));
            }
        }
        row[hr] = list;
        self.move_list.set(t, row);
        proof {
            assert(self.plies()[t as int][hr as int] == list);
            assert(self.track@[t as int] == tr);
            assert(all_cands(*tpos, curr as int, rr) == follower_cands(*tpos, curr as int, tr0));
            assert(generated(pre, follower_cands(*tpos, curr as int, tr0), old(self).plies()[t as int][hr as int]));
        }
        self.num_moves
    }

    /// `self` is `old` with only the weights of the list of the current
    /// trick and relative hand `h` changed.
    pub closed spec fn reweighted(&self, old: &Moves, h: int) -> bool {
        &&& self.wf()
        &&& *self == (Moves { move_list: self.move_list, ..*old })
        &&& only_ply_changed(old.move_list@, self.move_list@, old.curr_trick as int, h)
        &&& same_cards(
            old.move_list@[old.curr_trick as int][h],
            self.move_list@[old.curr_trick as int][h],
        )
        &&& forall|k: int| old.num_moves <= k < 14 ==> #[trigger] self.move_list@[old.curr_trick as int][h].moves[k]
            == old.move_list@[old.curr_trick as int][h].moves[k]
    }

    /// The move list of relative hand `h` in the current trick.
    pub closed spec fn cur_ply(&self, h: int) -> MovePly {
        self.move_list@[self.curr_trick as int][h]
    }

    /// The track of the current trick.
    closed spec fn cur_track(&self) -> Track {
        self.track@[self.track_index as int]
    }

    /// The cards of the hand to play and their winners' holders: the suit
    /// length of `curr_hand` in the current suit, and adjustments for a
    /// doubleton holding the second card or a singleton the first.
    closed spec fn suit_len(&self, p: Pos) -> int {
        p.length[self.curr_hand as int][self.suit as int] as int
    }

    /// Whether the hand to play holds a doubleton with the second-best card
    /// of the current suit.
    closed spec fn second_doubleton(&self, p: Pos) -> bool {
        self.suit_len(p) == 2 && p.second_best[self.suit as int].hand == self.curr_hand
    }

    /// Whether the hand to play holds the singleton top card of the current
    /// suit.
    closed spec fn top_singleton(&self, p: Pos) -> bool {
        self.suit_len(p) == 1 && p.winner[self.suit as int].hand == self.curr_hand
    }

    /// The weights of the discards of the second hand in notrump: the
    /// current suit's length counts for more when the fourth hand holds a
    /// card over the partner's and the lead, a short holding with a top card
    /// for less.
    closed spec fn nt_void1_add(&self, p: Pos) -> int {
        let lead = self.lead_hand as int;
        let ls = self.lead_suit as int;
        let sc = self.suit_len(p);
        let m0 = self.cur_track().move_played[0].rank as int;
        if p.rank_in_suit[(lead + 3) % 4][ls] > (p.rank_in_suit[(lead + 2) % 4][ls] | BIT_MAP_RANK[m0]) {
            (sc * 64) / 23 + if self.second_doubleton(p) { -2int } else if self.top_singleton(p) { -3int } else { 0int }
        } else {
            (sc * 64) / 33 + if self.second_doubleton(p) { -6int } else if self.top_singleton(p) { -8int } else { 0int }
        }
    }

    /// The base weight of the third hand's discards in notrump.
    closed spec fn nt_void2_add(&self, p: Pos) -> int {
        (self.suit_len(p) * 64) / 24 - if self.second_doubleton(p) || self.top_singleton(p) { 4int } else { 0int }
    }

    /// The base weight of the fourth hand's discards in notrump.
    closed spec fn nt_void3_add(&self, p: Pos) -> int {
        (self.suit_len(p) * 64) / 27 + if self.second_doubleton(p) { -6int } else if self.top_singleton(p) { -8int } else { 0int }
    }

    /// The base weight of the fourth hand's discards or ruffs in a trump
    /// contract.
    closed spec fn trump_void3_add(&self, p: Pos) -> int {
        (self.suit_len(p) * 64) / 24 - if self.second_doubleton(p) { 2int } else { 0int }
    }

    /// The weights the fourth hand's discards or ruffs get in a trump
    /// contract, from `a` to `b`: by the current suit's length and how the
    /// trick stands; when ruffing, a trump under the third hand's ruff counts
    /// for little.
    closed spec fn trump_void3_done(&self, p: Pos, b: MovePly) -> bool {
        let a = self.cur_ply(3);
        let tr = self.cur_track();
        let val = self.trump_void3_add(p);
        let lo = self.last_num_moves as int;
        let n = self.num_moves as int;
        let trump = self.trump as int;
        let suit = self.suit as int;
        if self.lead_suit == self.trump {
            weights_minus(a, b, lo, n, val)
        } else if tr.high[2] == 1 {
            weights_minus(a, b, lo, n, if suit == trump { 2 + val } else { 25 + val })
        } else if tr.move_played[2].suit == trump && suit != trump {
            weights_minus(a, b, lo, n, 14 + val)
        } else if suit == trump {
            forall|q: int| 0 <= q < 14 ==> #[trigger] b.moves[q].weight == if lo <= q < n {
                let r = a.moves[q].rank as int;
                let rr = rel_rank(p.aggr[suit], r);
                if tr.move_played[2].suit == trump && r <= tr.move_played[2].rank { -13 + rr } else { 33 + rr }
            } else {
                a.moves[q].weight as int
            }
        } else {
            weights_minus(a, b, lo, n, 14 + val)
        }
    }

    /// The weights the second hand's discards or ruffs get in a trump
    /// contract, from `a` to `b`: by the current suit's length, more when the
    /// fourth hand wins the trick anyway or can overruff, and for a ruff
    /// more for a trump above the partner's.
    closed spec fn trump_void1_done(&self, p: Pos, b: MovePly) -> bool {
        let a = self.cur_ply(1);
        let lead = self.lead_hand as int;
        let rho = (lead + 3) % 4;
        let part = (lead + 2) % 4;
        let trump = self.trump as int;
        let ls = self.lead_suit as int;
        let suit = self.suit as int;
        let sclo = self.suit_len(p) * 64;
        let bit0 = BIT_MAP_RANK[self.cur_track().move_played[0].rank as int];
        let sh: int = if self.second_doubleton(p) { -4 } else { 0 };
        let lo = self.last_num_moves as int;
        let n = self.num_moves as int;
        if ls == trump {
            weights_minus(a, b, lo, n, if p.rank_in_suit[rho][ls] > (p.rank_in_suit[part][ls] | bit0) {
                sclo / 44
            } else {
                sclo / 36 + sh
            })
        } else if suit != trump {
            let high = if p.length[part][ls] != 0 {
                p.rank_in_suit[rho][ls] > (p.rank_in_suit[part][ls] | bit0) || (p.length[rho][ls] == 0 && p.length[rho][trump] != 0)
            } else {
                (p.length[rho][ls] == 0 && p.rank_in_suit[rho][trump] > p.rank_in_suit[part][trump]) || (p.length[part][trump] == 0
                    && p.rank_in_suit[rho][ls] > bit0)
            };
            weights_minus(a, b, lo, n, if high { 60 + sclo / 44 } else { -2 + sclo / 36 + sh })
        } else if p.length[part][ls] != 0 || (p.length[rho][ls] == 0 && p.length[rho][trump] != 0 && p.rank_in_suit[rho][trump]
            > p.rank_in_suit[part][trump]) {
            weights_minus(a, b, lo, n, 24 + sclo / 44)
        } else {
            forall|q: int| 0 <= q < 14 ==> #[trigger] b.moves[q].weight == if lo <= q < n {
                if BIT_MAP_RANK[a.moves[q].rank as int] > p.rank_in_suit[part][trump] {
                    24 + sclo / 44 - a.moves[q].rank
                } else {
                    15 + sclo / 36 + sh - a.moves[q].rank
                }
            } else {
                a.moves[q].weight as int
            }
        }
    }

    /// The weight of a discard or ruff of rank `r` by the third hand in a
    /// trump contract, when neither the lead was in trumps nor the move is
    /// a discard, and the third hand's side does not hold the trick for
    /// sure.
    closed spec fn trump_void2_weight(&self, p: Pos, r: int) -> int {
        let lead = self.lead_hand as int;
        let rho = (lead + 3) % 4;
        let trump = self.trump as int;
        let ls = self.lead_suit as int;
        let tr = self.cur_track();
        let sc = self.suit_len(p);
        let add40 = (sc * 64) / 40;
        let add50 = (sc * 64) / 50;
        let max4th = highest_rank(p.rank_in_suit[rho][ls]);
        let above = BIT_MAP_RANK[r] > p.rank_in_suit[rho][trump];
        if tr.move_played[1].suit == trump && r < tr.move_played[1].rank {
            -32 + rel_rank(p.aggr[self.suit as int], r) + add40
        } else if tr.high[1] == 0 {
            if max4th != 0 {
                if p.second_best[ls].hand == lead { 36 - r + add50 } else { 48 - r + add50 }
            } else if above {
                48 - r + add50
            } else {
                -12 - r + add50
            }
        } else if max4th != 0 {
            72 - r + add50
        } else if above {
            48 - r + add50
        } else {
            36 - r + add50
        }
    }

    /// The weights the third hand's discards or ruffs get in a trump
    /// contract, from `a` to `b`.
    closed spec fn trump_void2_done(&self, p: Pos, b: MovePly) -> bool {
        let a = self.cur_ply(2);
        let lead = self.lead_hand as int;
        let rho = (lead + 3) % 4;
        let trump = self.trump as int;
        let ls = self.lead_suit as int;
        let tr = self.cur_track();
        let max4th = highest_rank(p.rank_in_suit[rho][ls]);
        let lo = self.last_num_moves as int;
        let n = self.num_moves as int;
        if ls == trump || self.suit as int != trump {
            weights_minus(a, b, lo, n, (self.suit_len(p) * 64) / 40)
        } else if tr.high[1] == 0 && tr.move_played[0].rank > max4th && (max4th != 0 || p.length[rho][trump] == 0) {
            weights_minus(a, b, lo, n, -50)
        } else {
            forall|q: int| 0 <= q < 14 ==> #[trigger] b.moves[q].weight == if lo <= q < n {
                self.trump_void2_weight(p, a.moves[q].rank as int)
            } else {
                a.moves[q].weight as int
            }
        }
    }

    /// The weight of the second hand's move `m` following suit in notrump,
    /// when the fourth hand does not hold the trick for sure.
    closed spec fn nt_notvoid1_weight(&self, p: Pos, m: MoveType) -> int {
        let lead = self.lead_hand as int;
        let rho = (lead + 3) % 4;
        let part = (lead + 2) % 4;
        let ls = self.lead_suit as int;
        let m0 = self.cur_track().move_played[0].rank as int;
        let r = m.rank as int;
        let rr = rel_rank(p.aggr[ls], r);
        if r > m0 && r > highest_rank(p.rank_in_suit[part][ls]) {
            81 - r
        } else if lowest_rank(p.rank_in_suit[part][ls]) > r || lowest_rank(p.rank_in_suit[rho][ls]) > r {
            -3 + rr
        } else if r < m0 {
            -11 + rr
        } else if m.sequence != 0 {
            10 + rr
        } else {
            13 - r
        }
    }

    /// The weights the second hand's moves following suit get in notrump,
    /// from `a` to `b`.
    closed spec fn nt_notvoid1_done(&self, p: Pos, b: MovePly) -> bool {
        let a = self.cur_ply(1);
        let lead = self.lead_hand as int;
        let ls = self.lead_suit as int;
        let maxpd = highest_rank(p.rank_in_suit[(lead + 3) % 4][ls]);
        let m0 = self.cur_track().move_played[0].rank as int;
        let n = self.num_moves as int;
        if maxpd > m0 && maxpd > highest_rank(p.rank_in_suit[(lead + 2) % 4][ls]) {
            weights_minus(a, b, 0, n, 0)
        } else {
            forall|q: int| 0 <= q < 14 ==> #[trigger] b.moves[q].weight == if q < n {
                self.nt_notvoid1_weight(p, a.moves[q])
            } else {
                a.moves[q].weight as int
            }
        }
    }

    /// The move of the third hand that forces out the fourth hand's ace: the
    /// lowest of its leading moves above both the fourth hand's second card
    /// (its run down from the top taken as one, with the ranks gone) and the
    /// second hand's card, when that card wins the trick or is beaten by the
    /// fourth hand's second card; -1 when there is none.
    closed spec fn forces_ace(&self, cards4th: int) -> int {
        let gd = group_data(cards4th as nat);
        let removed = self.cur_track().removed_ranks[self.lead_suit as int];
        let g = merged(gd, removed, gd.0, 0).0;
        let tr = self.cur_track();
        if g <= 0 {
            -1
        } else {
            let second_rho = gd.1[g - 1] as int;
            if second_rho <= tr.move_played[1].rank && tr.high[1] != 1 {
                -1
            } else {
                let thr = if second_rho > tr.move_played[1].rank { second_rho } else { tr.move_played[1].rank as int };
                let k = leading_above(self.cur_ply(2), self.num_moves as int, thr, 0);
                if k != 0 { k - 1 } else { -1 }
            }
        }
    }

    /// The weights the third hand's moves following suit get in a trump
    /// contract, from `a` to `b`: by whether the fourth hand can beat them
    /// and whether the second hand ruffed or won the trick, with a bonus for
    /// the card that forces out the fourth hand's ace.
    closed spec fn trump_notvoid2_done(&self, p: Pos, b: MovePly) -> bool {
        let a = self.cur_ply(2);
        let lead = self.lead_hand as int;
        let ls = self.lead_suit as int;
        let cards4th = p.rank_in_suit[(lead + 3) % 4][ls];
        let max4th = highest_rank(cards4th);
        let min4th = lowest_rank(cards4th);
        let max3rd = a.moves[0].rank as int;
        let tr = self.cur_track();
        let m0 = tr.move_played[0].rank as int;
        let m1 = tr.move_played[1].rank as int;
        let n = self.num_moves as int;
        let fa = self.forces_ace(cards4th as int);
        if self.lead_suit == self.trump {
            if (tr.high[1] == 0 && m0 > max4th) || max3rd < min4th || max3rd < m1 {
                weights_minus_bonus(a, b, 0, n, 0, -1)
            } else if max3rd > max4th {
                weights_above_bonus(a, b, n, max4th, m1, 58, -1)
            } else {
                weights_minus_bonus(a, b, 0, n, 0, fa)
            }
        } else if tr.move_played[1].suit == self.trump {
            weights_minus_bonus(a, b, 0, n, 0, -1)
        } else if tr.high[1] == 0 {
            if max4th == 0 || m0 > max4th || max3rd < min4th || max3rd < m1 {
                weights_minus_bonus(a, b, 0, n, 0, -1)
            } else if max3rd > max4th {
                weights_above_bonus(a, b, n, max4th, max4th, 58, -1)
            } else {
                weights_above_bonus(a, b, n, m1, max4th, 60, fa)
            }
        } else if max4th == 0 {
            weights_above_bonus(a, b, n, m1, m1, 20, -1)
        } else if max3rd < min4th || max3rd < m1 {
            weights_minus_bonus(a, b, 0, n, 0, -1)
        } else if max3rd > max4th {
            weights_above_bonus(a, b, n, m1, max4th, 58, -1)
        } else {
            weights_above_bonus(a, b, n, m1, max4th, 60, fa)
        }
    }

    /// The weights the third hand's moves following suit get in notrump,
    /// from `a` to `b`: when the lead holds the trick, only a bonus for
    /// overtaking to run the suit when the leader is void in it and the
    /// run outlasts the opponents; else by whether the fourth hand can beat
    /// them, with a bonus for the card that forces out its ace.
    closed spec fn nt_notvoid2_done(&self, p: Pos, b: MovePly) -> bool {
        let a = self.cur_ply(2);
        let lead = self.lead_hand as int;
        let ls = self.lead_suit as int;
        let rho = (lead + 3) % 4;
        let part = (lead + 2) % 4;
        let cards4th = p.rank_in_suit[rho][ls];
        let max4th = highest_rank(cards4th);
        let min4th = lowest_rank(cards4th);
        let max3rd = a.moves[0].rank as int;
        let tr = self.cur_track();
        let m0 = tr.move_played[0].rank as int;
        let m1 = tr.move_played[1].rank as int;
        let n = self.num_moves as int;
        if tr.high[1] == 0 && m0 > max4th {
            let opp_len = if p.length[(lead + 1) % 4][ls] > p.length[rho][ls] - 1 {
                p.length[(lead + 1) % 4][ls] as int
            } else {
                p.length[rho][ls] - 1
            };
            let gd = group_data(p.rank_in_suit[part][ls] as nat);
            let removed = tr.removed_ranks[ls] | BIT_MAP_RANK[m0] as i32;
            let top_number = crate::bits::popcount(run_ranks(gd, removed, gd.0, gd.3[gd.0])) - 1;
            let kb = if p.length[lead][ls] == 0 && p.winner[ls].hand == self.curr_hand && opp_len <= top_number {
                moves_above(a, n, m0, 0)
            } else {
                -1
            };
            weights_minus_bonus(a, b, 0, n, 0, kb)
        } else if max3rd < min4th || max3rd < m1 {
            weights_minus_bonus(a, b, 0, n, 0, -1)
        } else {
            weights_above_bonus(a, b, n, m1, max4th, 60, if max4th > max3rd && max4th > m1 {
                self.forces_ace(cards4th as int)
            } else {
                -1
            })
        }
    }

    /// The weights the second hand's moves following suit get in a trump
    /// contract, from the current list to `b`: each move by
    /// [`trump_notvoid1_weight_spec`].
    closed spec fn trump_notvoid1_done(&self, p: Pos, b: MovePly) -> bool {
        let lead = self.lead_hand as int;
        let ls = self.lead_suit as int;
        let third = p.rank_in_suit[(lead + 2) % 4][ls];
        let fourth = p.rank_in_suit[(lead + 3) % 4][ls];
        let move0 = self.cur_track().move_played[0].rank as int;
        let aggr = p.aggr[ls] as int;
        let a = self.cur_ply(1);
        forall|k: int| 0 <= k < self.num_moves ==> #[trigger] b.moves[k].weight == trump_notvoid1_weight_spec(p, lead,
            self.trump as int, ls, a.moves[k], rel_rank(aggr as u16, a.moves[k].rank as int), move0, highest_rank(third),
            highest_rank(fourth), lowest_rank(third), lowest_rank(fourth))
    }

    /// The weights the fourth hand's moves following suit get, from the
    /// current list to `b`: minus their rank when the third hand holds the
    /// trick or ruffed, else more for a card above the third hand's.
    closed spec fn combined_notvoid3_done(&self, b: MovePly) -> bool {
        let tr = self.cur_track();
        let n = self.num_moves as int;
        if tr.high[2] == 1 || (self.lead_suit != self.trump && tr.move_played[2].suit == self.trump) {
            weights_minus(self.cur_ply(3), b, 0, n, 0)
        } else {
            weights_above(self.cur_ply(3), b, n, tr.move_played[2].rank as int, tr.move_played[2].rank as int, 30)
        }
    }

    /// The seat holding the third-highest card of `suit` in `thrp_rel`,
    /// 0 when the table does not reach `aggr`.
    fn third_best_hand_or_zero(thrp_rel: &[RelRanks], aggr: usize, suit: usize) -> (r: i32)
        requires
            suit < 4,
        ensures
            -128 <= r < 128,
            r == if aggr < thrp_rel@.len() {
                thrp_rel@[aggr as int].abs_rank[3][suit as int].hand as int
            } else {
                0
            },
    {
        if aggr < thrp_rel.len() {
            thrp_rel[aggr].abs_rank[3][suit].hand as i32
        } else {
            0
        }
    }

    /// Weights of the leader's moves in the current suit, in a trump
    /// contract.
    fn weight_alloc_trump0(
        &mut self,
        tpos: &Pos,
        best_move: &MoveType,
        best_move_tt: &MoveType,
        thrp_rel: &[RelRanks],
    )
        requires
            old(self).wf(),
            old(self).last_num_moves <= old(self).num_moves,
            pos_wf(*tpos),
            old(self).trump < 4,
        ensures
            final(self).reweighted(old(self), 0),
            ({
                let t = old(self).curr_trick as int;
                let lead = old(self).lead_hand as int;
                let suit = old(self).suit as int;
                let lh = tpos.length[(lead + 1) % 4][suit] as int;
                let rh = tpos.length[(lead + 3) % 4][suit] as int;
                let clh = (if lh == 0 { old(self).curr_trick + 1 } else { lh }) * 4;
                let crh = (if rh == 0 { old(self).curr_trick + 1 } else { rh }) * 4;
                let swd = -(((clh + crh) * 32) / 13);
                let aggr = tpos.aggr[suit] as int;
                let l0 = old(self).move_list@[t][0];
                let l1 = final(self).move_list@[t][0];
                &&& forall|k: int| 0 <= k < old(self).last_num_moves ==> #[trigger] l1.moves[k] == l0.moves[k]
                &&& forall|k: int| old(self).last_num_moves <= k < old(self).num_moves ==> #[trigger] l1.moves[k].weight
                    == trump0_weight_spec(*tpos, lead, old(self).trump as int, suit, swd, l0.moves[k], rel_rank(
                    aggr as u16, l0.moves[k].rank as int), *best_move, *best_move_tt, thrp_rel@, aggr)
            }),
    {
        let t = self.curr_trick as usize;
        let lead = self.lead_hand as usize;
        let lho_i = (lead + 1) % 4;
        let rho_i = (lead + 3) % 4;
        let suit = self.suit as usize;
        let suit_count_lh = tpos.length[lho_i][suit] as i32;
        let suit_count_rh = tpos.length[rho_i][suit] as i32;
        let aggr = tpos.aggr[suit] as usize;
        let count_lh = (if suit_count_lh == 0 { self.curr_trick + 1 } else { suit_count_lh }) * 4;
        let count_rh = (if suit_count_rh == 0 { self.curr_trick + 1 } else { suit_count_rh }) * 4;
        let suit_weight_d = -(((count_lh + count_rh) * 32) / 13);
        let mut row = self.move_list[t];
        let mut list = row[0];
        let ghost list0 = list;
        let lo = self.last_num_moves as usize;
        let n = self.num_moves as usize;
        let mut k = lo;
        while k < n
            invariant
                lo <= k <= n <= 14,
                ply_ok(list),
                same_cards(list0, list),
                forall|q: int| n <= q < 14 ==> #[trigger] list.moves[q] == list0.moves[q],
                forall|q: int| k <= q < 14 ==> #[trigger] list.moves[q] == list0.moves[q],
                forall|q: int| 0 <= q < lo ==> #[trigger] list.moves[q] == list0.moves[q],
                forall|q: int| lo <= q < k ==> #[trigger] list.moves[q].weight == trump0_weight_spec(*tpos, lead as int,
                    self.trump as int, suit as int, suit_weight_d as int, list0.moves[q], rel_rank(aggr as u16,
                    list0.moves[q].rank as int), *best_move, *best_move_tt, thrp_rel@, aggr as int),
                list0 == self.move_list@[t as int][0],
                *self == *old(self),
                self.wf(),
                pos_wf(*tpos),
                self.trump < 4,
                aggr < AGGR_COUNT,
                -2000 <= suit_weight_d <= 0,
                lead < 4,
                suit < 4,
            decreases n - k,
        {
            let m = list.moves[k];
            let r_rank = self.rel_table[aggr][m.rank as usize] as i32;
            let w = trump0_weight(
                tpos,
                lead,
                self.trump as usize,
                suit,
                suit_weight_d,
                m,
                r_rank,
                best_move,
                best_move_tt,
                thrp_rel,
                aggr,
            );
            set_weight(&mut list, k, w);
            k += 1;
        }
        row[0] = list;
        self.move_list.set(t, row);
    }
}

/// Where a run ends does not depend on the ranks gathered so far.
proof fn lemma_merged_end_any(gd: GroupView, removed: i32, g: int, a: i32, b: i32)
    ensures
        merged(gd, removed, g, a).0 == merged(gd, removed, g, b).0,
    decreases g,
{
    if joins(gd, removed, g) {
        lemma_merged_end_any(gd, removed, g - 1, a | (gd.3[g - 1] as i32), b | (gd.3[g - 1] as i32));
    }
}

/// How many moves of `l`, from index `k` on and below `n`, in a row have
/// a rank above `thr`, counted from 0.
pub open spec fn leading_above(l: MovePly, n: int, thr: int, k: int) -> int
    decreases n - k,
{
    if 0 <= k < n && k < 14 && l.moves[k].rank > thr {
        leading_above(l, n, thr, k + 1)
    } else {
        k
    }
}

/// The list `b` is `a` with the moves `lo..n` weighted `c` less their
/// rank, the others as they were.
pub open spec fn weights_minus(a: MovePly, b: MovePly, lo: int, n: int, c: int) -> bool {
    forall|q: int| 0 <= q < 14 ==> #[trigger] b.moves[q].weight == if lo <= q < n {
        c - a.moves[q].rank
    } else {
        a.moves[q].weight as int
    }
}

/// The list `b` is `a` with the moves below `n` weighted `c` less their
/// rank when above both `t1` and `t2`, else minus their rank.
pub open spec fn weights_above(a: MovePly, b: MovePly, n: int, t1: int, t2: int, c: int) -> bool {
    forall|q: int| 0 <= q < 14 ==> #[trigger] b.moves[q].weight == if q < n {
        if a.moves[q].rank > t1 && a.moves[q].rank > t2 {
            c - a.moves[q].rank
        } else {
            -a.moves[q].rank
        }
    } else {
        a.moves[q].weight as int
    }
}

/// The list `b` is [`weights_minus`] of `a` with 20 more for the move at
/// `kb` (none when `kb` is -1).
pub open spec fn weights_minus_bonus(a: MovePly, b: MovePly, lo: int, n: int, c: int, kb: int) -> bool {
    forall|q: int| 0 <= q < 14 ==> #[trigger] b.moves[q].weight == (if lo <= q < n {
        c - a.moves[q].rank
    } else {
        a.moves[q].weight as int
    }) + if q == kb { 20int } else { 0int }
}

/// The list `b` is [`weights_above`] of `a` with 20 more for the move at
/// `kb` (none when `kb` is -1).
pub open spec fn weights_above_bonus(a: MovePly, b: MovePly, n: int, t1: int, t2: int, c: int, kb: int) -> bool {
    forall|q: int| 0 <= q < 14 ==> #[trigger] b.moves[q].weight == (if q < n {
        if a.moves[q].rank > t1 && a.moves[q].rank > t2 {
            c - a.moves[q].rank
        } else {
            -a.moves[q].rank
        }
    } else {
        a.moves[q].weight as int
    }) + if q == kb { 20int } else { 0int }
}

/// Adding the bonus of 20 at `kb` (or nothing when `kb` is -1) to the
/// weights of `m` gives `b`.
pub open spec fn bonus_added(m: MovePly, b: MovePly, kb: int) -> bool {
    forall|q: int| 0 <= q < 14 ==> #[trigger] b.moves[q].weight == m.moves[q].weight + if q == kb { 20int } else { 0int }
}

/// What filling moves `lo..n` with `c` less their rank gives, read as
/// [`weights_minus`].
proof fn lemma_weights_minus(a: MovePly, b: MovePly, lo: int, n: int, c: int)
    requires
        same_cards(a, b),
        forall|q: int| lo <= q < n ==> #[trigger] b.moves[q].weight == c - b.moves[q].rank,
        forall|q: int| 0 <= q < 14 && !(lo <= q < n) ==> #[trigger] b.moves[q] == a.moves[q],
    ensures
        weights_minus(a, b, lo, n, c),
{
    assert forall|q: int| 0 <= q < 14 implies #[trigger] b.moves[q].weight == if lo <= q < n {
        c - a.moves[q].rank
    } else {
        a.moves[q].weight as int
    } by {
        assert(ext_of(b.moves[q]) == ext_of(a.moves[q]));
    }
}

/// What filling moves below `n` by their rank against `t1` and `t2`
/// gives, read as [`weights_above`].
proof fn lemma_weights_above(a: MovePly, b: MovePly, n: int, t1: int, t2: int, c: int)
    requires
        same_cards(a, b),
        forall|q: int| 0 <= q < n ==> #[trigger] b.moves[q].weight == if b.moves[q].rank > t1 && b.moves[q].rank > t2 {
            c - b.moves[q].rank
        } else {
            -b.moves[q].rank
        },
        forall|q: int| n <= q < 14 ==> #[trigger] b.moves[q] == a.moves[q],
    ensures
        weights_above(a, b, n, t1, t2, c),
{
    assert forall|q: int| 0 <= q < 14 implies #[trigger] b.moves[q].weight == if q < n {
        if a.moves[q].rank > t1 && a.moves[q].rank > t2 {
            c - a.moves[q].rank
        } else {
            -a.moves[q].rank
        }
    } else {
        a.moves[q].weight as int
    } by {
        assert(ext_of(b.moves[q]) == ext_of(a.moves[q]));
    }
}

/// The suit bonus of the leader's suit `suit` in a trump contract: less
/// when an opponent can ruff or holds a top card over the leader's side,
/// more when the partner can ruff, when the partner's top cards sit over
/// the left opponent, or when the leader's singleton can reach the
/// partner's winner.
pub open spec fn trump0_bonus_spec(p: Pos, lead: int, trump: int, suit: int) -> int {
    let lho = (lead + 1) % 4;
    let rho = (lead + 3) % 4;
    let part = (lead + 2) % 4;
    let b1: int = if suit != trump && ((p.rank_in_suit[lho][suit] == 0 && p.rank_in_suit[lho][trump] != 0)
        || (p.rank_in_suit[rho][suit] == 0 && p.rank_in_suit[rho][trump] != 0)) {
        -12
    } else {
        0
    };
    let b2: int = b1 + if suit != trump && p.length[part][suit] == 0 && p.length[part][trump] > 0 && p.length[rho][suit] > 0 {
        17int
    } else {
        0int
    };
    let b3: int = b2 + if p.winner[suit].hand == rho || p.second_best[suit].hand == rho {
        if p.length[rho][suit] != 1 { -12int } else { 0int }
    } else if p.winner[suit].hand == lho && p.second_best[suit].hand == part {
        if p.length[part][suit] != 1 { 27int } else { 0int }
    } else {
        0int
    };
    b3 + if suit != trump && p.length[lead][suit] == 1 && p.length[lead][trump] > 0 && p.length[part][suit] > 1
        && p.winner[suit].hand == part {
        19int
    } else {
        0int
    }
}

/// Whether the leader's side can expect to win the trick when the leader
/// leads rank `cur_rank` of `suit` in a trump contract.
pub open spec fn trump0_wins_spec(p: Pos, lead: int, trump: int, suit: int, cur_rank: int) -> bool {
    let lho = (lead + 1) % 4;
    let rho = (lead + 3) % 4;
    let part = (lead + 2) % 4;
    let lh_ok = p.length[lho][suit] != 0 || p.length[lho][trump] == 0;
    let rh_ok = p.length[rho][suit] != 0 || p.length[rho][trump] == 0;
    if p.winner[suit].rank == cur_rank {
        if suit == trump {
            true
        } else if p.length[part][suit] != 0 || p.length[part][trump] == 0 {
            lh_ok && rh_ok
        } else {
            (p.length[lho][suit] != 0 || p.rank_in_suit[part][trump] > p.rank_in_suit[lho][trump])
                && (p.length[rho][suit] != 0 || p.rank_in_suit[part][trump] > p.rank_in_suit[rho][trump])
        }
    } else if p.rank_in_suit[part][suit] > (p.rank_in_suit[lho][suit] | p.rank_in_suit[rho][suit]) {
        suit == trump || (lh_ok && rh_ok)
    } else if suit != trump && p.length[part][suit] == 0 && p.length[part][trump] != 0 {
        if p.length[lho][suit] == 0 && p.length[lho][trump] != 0 && p.length[rho][suit] == 0 && p.length[rho][trump] != 0 {
            p.rank_in_suit[part][trump] > (p.rank_in_suit[lho][trump] | p.rank_in_suit[rho][trump])
        } else if p.length[lho][suit] == 0 && p.length[lho][trump] != 0 {
            p.rank_in_suit[part][trump] > p.rank_in_suit[lho][trump]
        } else if p.length[rho][suit] == 0 && p.length[rho][trump] != 0 {
            p.rank_in_suit[part][trump] > p.rank_in_suit[rho][trump]
        } else {
            true
        }
    } else {
        false
    }
}

/// The seat of the third-highest card of `suit` in the card table, 0 when
/// the table does not reach `aggr`.
pub open spec fn third_best_spec(thrp_rel: Seq<RelRanks>, aggr: int, suit: int) -> int {
    if aggr < thrp_rel.len() {
        thrp_rel[aggr].abs_rank[3][suit].hand as int
    } else {
        0
    }
}

/// The bonus a move gets from being the best move found before (`bm`),
/// else the table's (`bt`).
pub open spec fn best_bonus(bm: MoveType, bt: MoveType, suit: int, rank: int, on_best: int, on_tt: int) -> int {
    if bm.suit == suit && bm.rank == rank {
        on_best
    } else if bt.suit == suit && bt.rank == rank {
        on_tt
    } else {
        0
    }
}

/// The weight of the leader's move `m` in a trump contract.
pub open spec fn trump0_weight_spec(p: Pos, lead: int, trump: int, suit: int, swd: int, m: MoveType, r_rank: int,
    bm: MoveType, bt: MoveType, thrp_rel: Seq<RelRanks>, aggr: int) -> int {
    let lho = (lead + 1) % 4;
    let rho = (lead + 3) % 4;
    let part = (lead + 2) % 4;
    let cur_rank = m.rank as int;
    let delta = trump0_bonus_spec(p, lead, trump, suit) + swd;
    let singleton_top = (p.length[lho][suit] == 1 && p.winner[suit].hand == lho) || (p.length[rho][suit] == 1
        && p.winner[suit].hand == rho);
    let wh = p.winner[suit].hand as int;
    let sh = p.second_best[suit].hand as int;
    if trump0_wins_spec(p, lead, trump, suit, cur_rank) {
        let base = if singleton_top {
            delta + 35 + r_rank
        } else if wh == lead {
            if sh == part {
                delta + 48 + r_rank
            } else if p.winner[suit].rank == cur_rank {
                delta + 31
            } else {
                delta - 3 + r_rank
            }
        } else if wh == part {
            if sh == lead { delta + 42 + r_rank } else { delta + 28 + r_rank }
        } else if m.sequence != 0 && cur_rank == p.second_best[suit].rank {
            delta + 40
        } else if m.sequence != 0 {
            delta + 22 + r_rank
        } else {
            delta + 11 + r_rank
        };
        base + best_bonus(bm, bt, suit, cur_rank, 55, 18)
    } else {
        let tb = third_best_spec(thrp_rel, aggr, suit);
        let plen = p.length[part][suit];
        let delta2 = delta + if sh == part && part == tb {
            20int
        } else if (sh == lead && part == tb && plen > 1) || (sh == part && lead == tb && plen > 1) {
            13int
        } else {
            0int
        };
        let base = if singleton_top {
            delta2 + r_rank + 2
        } else if wh == lead {
            if sh == part {
                delta2 + 33 + r_rank
            } else if p.winner[suit].rank == cur_rank {
                delta2 + 38
            } else {
                delta2 - 14 + r_rank
            }
        } else if wh == part {
            delta2 + 34 + r_rank
        } else if m.sequence != 0 && cur_rank == p.second_best[suit].rank {
            delta2 + 35
        } else {
            delta2 + 17 - cur_rank
        };
        base + best_bonus(bm, bt, suit, cur_rank, 18, 0)
    }
}

/// The weight of the leader's move `m` in notrump.
pub open spec fn nt0_weight_spec(p: Pos, lead: int, suit: int, swd: int, m: MoveType, r_rank: int, bm: MoveType,
    bt: MoveType, thrp_rel: Seq<RelRanks>, aggr: int) -> int {
    let lho = (lead + 1) % 4;
    let rho = (lead + 3) % 4;
    let part = (lead + 2) % 4;
    let lh = p.length[lho][suit] as int;
    let rh = p.length[rho][suit] as int;
    let cur_rank = m.rank as int;
    let wh = p.winner[suit].hand as int;
    let sh = p.second_best[suit].hand as int;
    if p.winner[suit].rank == cur_rank || p.rank_in_suit[part][suit] > (p.rank_in_suit[lho][suit] | p.rank_in_suit[rho][suit]) {
        let delta = swd + if sh == rho {
            if rh != 1 { -1int } else { 0int }
        } else if sh == lho {
            if lh == 1 { 16int } else { 22int }
        } else {
            0int
        };
        let cond_l = sh != lho || lh == 1;
        let cond_r = sh != rho || rh == 1;
        let base = if cond_l && cond_r { delta + 45 + r_rank } else { delta + 18 + r_rank };
        base + best_bonus(bm, bt, suit, cur_rank, 126, 32)
    } else {
        let d1 = swd + if wh == rho || sh == rho {
            if rh != 1 { -10int } else { 0int }
        } else if wh == lho && sh == part && p.length[part][suit] != 1 {
            31int
        } else {
            0int
        };
        let tb = third_best_spec(thrp_rel, aggr, suit);
        let plen = p.length[part][suit];
        let d2 = d1 + if sh == part && part == tb {
            35int
        } else if (sh == lead && part == tb && plen > 1) || (sh == part && lead == tb && plen > 1) {
            25int
        } else {
            0int
        };
        let base = if (lh == 1 && wh == lho) || (rh == 1 && wh == rho) {
            d2 + 28 + r_rank
        } else if wh == lead {
            d2 - 17 + r_rank
        } else if m.sequence == 0 {
            d2 + 12 + r_rank
        } else if cur_rank == p.second_best[suit].rank {
            d2 + 48
        } else {
            d2 + 29 - r_rank
        };
        base + best_bonus(bm, bt, suit, cur_rank, 47, 19)
    }
}

/// The weight of the second hand's move `m` following suit in a trump
/// contract, given the lead's rank `move0_rank`, the third hand's highest
/// and lowest ranks `max3rd`, `min3rd` and the partner's `maxpd`, `minpd`.
pub open spec fn trump_notvoid1_weight_spec(p: Pos, lead: int, trump: int, lead_suit: int, m: MoveType, r_rank: int,
    move0_rank: int, max3rd: int, maxpd: int, min3rd: int, minpd: int) -> int {
    let rho = (lead + 3) % 4;
    let part = (lead + 2) % 4;
    let cur_rank = m.rank as int;
    let rho_trumps = p.length[rho][trump] != 0;
    let rho_over = p.rank_in_suit[rho][trump] > p.rank_in_suit[part][trump];
    let p_no_trumps = p.length[part][trump] == 0;
    let win_move = if lead_suit == trump {
        (maxpd > move0_rank && maxpd > max3rd) || (cur_rank > move0_rank && cur_rank > max3rd)
    } else if cur_rank > move0_rank && cur_rank > max3rd {
        max3rd != 0 || p_no_trumps || (maxpd == 0 && rho_trumps && rho_over)
    } else if maxpd > move0_rank && maxpd > max3rd {
        max3rd != 0 || p_no_trumps
    } else if move0_rank > maxpd && move0_rank > max3rd && move0_rank > cur_rank {
        maxpd == 0 && rho_trumps && (max3rd != 0 || p_no_trumps || rho_over)
    } else {
        maxpd == 0 && rho_trumps
    };
    if win_move {
        if min3rd > cur_rank {
            40 + r_rank
        } else if maxpd > move0_rank && p.rank_in_suit[lead][lead_suit] > p.rank_in_suit[rho][lead_suit] {
            41 + r_rank
        } else if cur_rank > move0_rank {
            if cur_rank < maxpd {
                78 - cur_rank
            } else if cur_rank > max3rd {
                73 - cur_rank
            } else if m.sequence != 0 {
                62 - cur_rank
            } else {
                49 - cur_rank
            }
        } else if maxpd > 0 {
            47 - cur_rank
        } else {
            40 - cur_rank
        }
    } else if cur_rank < min3rd || cur_rank < minpd {
        -9 + r_rank
    } else if cur_rank < move0_rank {
        -16 + r_rank
    } else if m.sequence != 0 {
        22 - cur_rank
    } else {
        10 - cur_rank
    }
}

/// The leader's suit bonus in a trump contract: discouraged when an
/// opponent can ruff or the right-hand opponent holds a top card,
/// encouraged when partner can ruff or holds the guard behind it.
fn trump0_bonus(tpos: &Pos, lead: usize, trump: usize, suit: usize) -> (b: i32)
    requires
        pos_wf(*tpos),
        lead < 4,
        trump < 4,
        suit < 4,
    ensures
        -100 <= b <= 100,
        b == trump0_bonus_spec(*tpos, lead as int, trump as int, suit as int),
{
    let lho_i = (lead + 1) % 4;
    let rho_i = (lead + 3) % 4;
    let partner_i = (lead + 2) % 4;
    let suit_count = tpos.length[lead][suit] as i32;
    let suit_count_rh = tpos.length[rho_i][suit] as i32;
    let mut suit_bonus: i32 = 0;
    if suit != trump && ((tpos.rank_in_suit[lho_i][suit] == 0 && tpos.rank_in_suit[lho_i][trump] != 0)
        || (tpos.rank_in_suit[rho_i][suit] == 0 && tpos.rank_in_suit[rho_i][trump] != 0))
    {
        suit_bonus = -12;
    }
    if suit != trump && tpos.length[partner_i][suit] == 0 && tpos.length[partner_i][trump] > 0
        && suit_count_rh > 0
    {
        suit_bonus += 17;
    }
    if tpos.winner[suit].hand == rho_i as i32 || tpos.second_best[suit].hand == rho_i as i32 {
        if suit_count_rh != 1 {
            suit_bonus += -12;
        }
    } else if tpos.winner[suit].hand == lho_i as i32 && tpos.second_best[suit].hand == partner_i as i32 {
        if tpos.length[partner_i][suit] != 1 {
            suit_bonus += 27;
        }
    }
    if suit != trump && suit_count == 1 && tpos.length[lead][trump] > 0
        && tpos.length[partner_i][suit] > 1 && tpos.winner[suit].hand == partner_i as i32
    {
        suit_bonus += 19;
    }
    suit_bonus
}

/// Whether the leader's side can expect to win the trick when leading
/// rank `cur_rank` of `suit` in a trump contract.
fn trump0_wins(tpos: &Pos, lead: usize, trump: usize, suit: usize, cur_rank: i32) -> (r: bool)
    requires
        pos_wf(*tpos),
        lead < 4,
        trump < 4,
        suit < 4,
    ensures
        r == trump0_wins_spec(*tpos, lead as int, trump as int, suit as int, cur_rank as int),
{
    let lho_i = (lead + 1) % 4;
    let rho_i = (lead + 3) % 4;
    let partner_i = (lead + 2) % 4;
    let lh_ok = tpos.length[lho_i][suit] != 0 || tpos.length[lho_i][trump] == 0;
    let rh_ok = tpos.length[rho_i][suit] != 0 || tpos.length[rho_i][trump] == 0;
    if tpos.winner[suit].rank == cur_rank {
        if suit == trump {
            true
        } else if tpos.length[partner_i][suit] != 0 || tpos.length[partner_i][trump] == 0 {
            lh_ok && rh_ok
        } else {
            (tpos.length[lho_i][suit] != 0
                || tpos.rank_in_suit[partner_i][trump] > tpos.rank_in_suit[lho_i][trump])
                && (tpos.length[rho_i][suit] != 0
                || tpos.rank_in_suit[partner_i][trump] > tpos.rank_in_suit[rho_i][trump])
        }
    } else if tpos.rank_in_suit[partner_i][suit] > (tpos.rank_in_suit[lho_i][suit] | tpos.rank_in_suit[rho_i][suit]) {
        suit == trump || (lh_ok && rh_ok)
    } else if suit != trump && tpos.length[partner_i][suit] == 0 && tpos.length[partner_i][trump] != 0 {
        if tpos.length[lho_i][suit] == 0 && tpos.length[lho_i][trump] != 0
            && tpos.length[rho_i][suit] == 0 && tpos.length[rho_i][trump] != 0
        {
            tpos.rank_in_suit[partner_i][trump] > (tpos.rank_in_suit[lho_i][trump] | tpos.rank_in_suit[rho_i][trump])
        } else if tpos.length[lho_i][suit] == 0 && tpos.length[lho_i][trump] != 0 {
            tpos.rank_in_suit[partner_i][trump] > tpos.rank_in_suit[lho_i][trump]
        } else if tpos.length[rho_i][suit] == 0 && tpos.length[rho_i][trump] != 0 {
            tpos.rank_in_suit[partner_i][trump] > tpos.rank_in_suit[rho_i][trump]
        } else {
            true
        }
    } else {
        false
    }
}

/// The weight of the leader's move `m` in a trump contract.
#[verifier::rlimit(100)]
#[verifier::spinoff_prover]
fn trump0_weight(
    tpos: &Pos,
    lead: usize,
    trump: usize,
    suit: usize,
    suit_weight_d: i32,
    m: MoveType,
    r_rank: i32,
    best_move: &MoveType,
    best_move_tt: &MoveType,
    thrp_rel: &[RelRanks],
    aggr: usize,
) -> (w: i32)
    requires
        pos_wf(*tpos),
        lead < 4,
        trump < 4,
        suit < 4,
        -2000 <= suit_weight_d <= 0,
        -128 <= r_rank < 128,
        move_ok(m),
    ensures
        weight_ok(w),
        w == trump0_weight_spec(*tpos, lead as int, trump as int, suit as int, suit_weight_d as int, m, r_rank as int,
            *best_move, *best_move_tt, thrp_rel@, aggr as int),
{
    let lho_i = (lead + 1) % 4;
    let rho_i = (lead + 3) % 4;
    let partner_i = (lead + 2) % 4;
    let suit_count_lh = tpos.length[lho_i][suit] as i32;
    let suit_count_rh = tpos.length[rho_i][suit] as i32;
    let cur_rank = m.rank;
    let cur_sequence = m.sequence;
    let mut suit_weight_delta = trump0_bonus(tpos, lead, trump, suit) + suit_weight_d;
    let singleton_top = (suit_count_lh == 1 && tpos.winner[suit].hand == lho_i as i32)
        || (suit_count_rh == 1 && tpos.winner[suit].hand == rho_i as i32);
    let winner_hand = tpos.winner[suit].hand;
    let second_hand = tpos.second_best[suit].hand;
    if trump0_wins(tpos, lead, trump, suit, cur_rank) {
        let base: i32 = if singleton_top {
            suit_weight_delta + 35 + r_rank
        } else if winner_hand == lead as i32 {
            if second_hand == partner_i as i32 {
                suit_weight_delta + 48 + r_rank
            } else if tpos.winner[suit].rank == cur_rank {
                suit_weight_delta + 31
            } else {
                suit_weight_delta - 3 + r_rank
            }
        } else if winner_hand == partner_i as i32 {
            if second_hand == lead as i32 {
                suit_weight_delta + 42 + r_rank
            } else {
                suit_weight_delta + 28 + r_rank
            }
        } else if cur_sequence != 0 && cur_rank == tpos.second_best[suit].rank {
            suit_weight_delta + 40
        } else if cur_sequence != 0 {
            suit_weight_delta + 22 + r_rank
        } else {
            suit_weight_delta + 11 + r_rank
        };
        if best_move.suit == suit as i32 && best_move.rank == cur_rank {
            base + 55
        } else if best_move_tt.suit == suit as i32 && best_move_tt.rank == cur_rank {
            base + 18
        } else {
            base
        }
    } else {
        let third_best_hand = Moves::third_best_hand_or_zero(thrp_rel, aggr, suit);
        let plen = tpos.length[partner_i][suit];
        if second_hand == partner_i as i32 && partner_i as i32 == third_best_hand {
            suit_weight_delta += 20;
        } else if (second_hand == lead as i32 && partner_i as i32 == third_best_hand && plen > 1)
            || (second_hand == partner_i as i32 && lead as i32 == third_best_hand && plen > 1)
        {
            suit_weight_delta += 13;
        }
        let base: i32 = if singleton_top {
            suit_weight_delta + r_rank + 2
        } else if winner_hand == lead as i32 {
            if second_hand == partner_i as i32 {
                suit_weight_delta + 33 + r_rank
            } else if tpos.winner[suit].rank == cur_rank {
                suit_weight_delta + 38
            } else {
                suit_weight_delta - 14 + r_rank
            }
        } else if winner_hand == partner_i as i32 {
            suit_weight_delta + 34 + r_rank
        } else if cur_sequence != 0 && cur_rank == tpos.second_best[suit].rank {
            suit_weight_delta + 35
        } else {
            suit_weight_delta + 17 - cur_rank
        };
        if best_move.suit == suit as i32 && best_move.rank == cur_rank {
            base + 18
        } else {
            base
        }
    }
}

/// The weight of the leader's move `m` in notrump.
#[verifier::rlimit(100)]
#[verifier::spinoff_prover]
fn nt0_weight(
    tpos: &Pos,
    lead: usize,
    suit: usize,
    suit_weight_d: i32,
    m: MoveType,
    r_rank: i32,
    best_move: &MoveType,
    best_move_tt: &MoveType,
    thrp_rel: &[RelRanks],
    aggr: usize,
) -> (w: i32)
    requires
        pos_wf(*tpos),
        lead < 4,
        suit < 4,
        -2000 <= suit_weight_d <= 0,
        -128 <= r_rank < 128,
        move_ok(m),
    ensures
        weight_ok(w),
        w == nt0_weight_spec(*tpos, lead as int, suit as int, suit_weight_d as int, m, r_rank as int, *best_move,
            *best_move_tt, thrp_rel@, aggr as int),
{
    let lho_i = (lead + 1) % 4;
    let rho_i = (lead + 3) % 4;
    let partner_i = (lead + 2) % 4;
    let suit_count_lh = tpos.length[lho_i][suit] as i32;
    let suit_count_rh = tpos.length[rho_i][suit] as i32;
    let cur_rank = m.rank;
    let cur_sequence = m.sequence;
    let winner_hand = tpos.winner[suit].hand;
    let second_hand = tpos.second_best[suit].hand;
    let mut suit_weight_delta = suit_weight_d;
    if tpos.winner[suit].rank == cur_rank
        || tpos.rank_in_suit[partner_i][suit] > (tpos.rank_in_suit[lho_i][suit] | tpos.rank_in_suit[rho_i][suit])
    {
        if second_hand == rho_i as i32 {
            if suit_count_rh != 1 {
                suit_weight_delta += -1;
            }
        } else if second_hand == lho_i as i32 {
            if suit_count_lh == 1 {
                suit_weight_delta += 16;
            } else {
                suit_weight_delta += 22;
            }
        }
        let cond_l = second_hand != lho_i as i32 || suit_count_lh == 1;
        let cond_r = second_hand != rho_i as i32 || suit_count_rh == 1;
        let base = if cond_l && cond_r {
            suit_weight_delta + 45 + r_rank
        } else {
            suit_weight_delta + 18 + r_rank
        };
        if best_move.suit == suit as i32 && best_move.rank == cur_rank {
            base + 126
        } else if best_move_tt.suit == suit as i32 && best_move_tt.rank == cur_rank {
            base + 32
        } else {
            base
        }
    } else {
        if winner_hand == rho_i as i32 || second_hand == rho_i as i32 {
            if suit_count_rh != 1 {
                suit_weight_delta += -10;
            }
        } else if winner_hand == lho_i as i32 && second_hand == partner_i as i32
            && tpos.length[partner_i][suit] != 1
        {
            suit_weight_delta += 31;
        }
        let third_best_hand = Moves::third_best_hand_or_zero(thrp_rel, aggr, suit);
        let plen = tpos.length[partner_i][suit];
        if second_hand == partner_i as i32 && partner_i as i32 == third_best_hand {
            suit_weight_delta += 35;
        } else if (second_hand == lead as i32 && partner_i as i32 == third_best_hand && plen > 1)
            || (second_hand == partner_i as i32 && lead as i32 == third_best_hand && plen > 1)
        {
            suit_weight_delta += 25;
        }
        let base = if (suit_count_lh == 1 && winner_hand == lho_i as i32)
            || (suit_count_rh == 1 && winner_hand == rho_i as i32)
        {
            suit_weight_delta + 28 + r_rank
        } else if winner_hand == lead as i32 {
            suit_weight_delta - 17 + r_rank
        } else if cur_sequence == 0 {
            suit_weight_delta + 12 + r_rank
        } else if cur_rank == tpos.second_best[suit].rank {
            suit_weight_delta + 48
        } else {
            suit_weight_delta + 29 - r_rank
        };
        if best_move.suit == suit as i32 && best_move.rank == cur_rank {
            base + 47
        } else if best_move_tt.suit == suit as i32 && best_move_tt.rank == cur_rank {
            base + 19
        } else {
            base
        }
    }
}

/// The weight of the second hand's move `m` following suit in a trump
/// contract.
fn trump_notvoid1_weight(
    tpos: &Pos,
    lead: usize,
    trump: i32,
    lead_suit: i32,
    m: MoveType,
    r_rank: i32,
    move0_rank: i32,
    max3rd: i32,
    maxpd: i32,
    min3rd: i32,
    minpd: i32,
) -> (w: i32)
    requires
        pos_wf(*tpos),
        lead < 4,
        0 <= trump < 4,
        0 <= lead_suit < 4,
        -128 <= r_rank < 128,
        move_ok(m),
        0 <= move0_rank <= 15,
        0 <= max3rd <= 255,
        0 <= maxpd <= 255,
        0 <= min3rd <= 255,
        0 <= minpd <= 255,
    ensures
        weight_ok(w),
        w == trump_notvoid1_weight_spec(*tpos, lead as int, trump as int, lead_suit as int, m, r_rank as int,
            move0_rank as int, max3rd as int, maxpd as int, min3rd as int, minpd as int),
{
    let lead_u = lead;
    let rho_i = (lead + 3) % 4;
    let partner_i = (lead + 2) % 4;
    let tu = trump as usize;
    let lsu = lead_suit as usize;
    let cur_rank = m.rank;
    let cur_sequence = m.sequence;
    let rho_trumps = tpos.length[rho_i][tu] != 0;
    let rho_over = tpos.rank_in_suit[rho_i][tu] > tpos.rank_in_suit[partner_i][tu];
    let p_no_trumps = tpos.length[partner_i][tu] == 0;
    let win_move = if lead_suit == trump {
        (maxpd > move0_rank && maxpd > max3rd) || (cur_rank > move0_rank && cur_rank > max3rd)
    } else if cur_rank > move0_rank && cur_rank > max3rd {
        max3rd != 0 || p_no_trumps || (maxpd == 0 && rho_trumps && rho_over)
    } else if maxpd > move0_rank && maxpd > max3rd {
        max3rd != 0 || p_no_trumps
    } else if move0_rank > maxpd && move0_rank > max3rd && move0_rank > cur_rank {
        maxpd == 0 && rho_trumps && (max3rd != 0 || p_no_trumps || rho_over)
    } else {
        maxpd == 0 && rho_trumps
    };
    if win_move {
        if min3rd > cur_rank {
            40 + r_rank
        } else if maxpd > move0_rank && tpos.rank_in_suit[lead_u][lsu] > tpos.rank_in_suit[rho_i][lsu] {
            41 + r_rank
        } else if cur_rank > move0_rank {
            if cur_rank < maxpd {
                78 - cur_rank
            } else if cur_rank > max3rd {
                73 - cur_rank
            } else if cur_sequence != 0 {
                62 - cur_rank
            } else {
                49 - cur_rank
            }
        } else if maxpd > 0 {
            47 - cur_rank
        } else {
            40 - cur_rank
        }
    } else if cur_rank < min3rd || cur_rank < minpd {
        -9 + r_rank
    } else if cur_rank < move0_rank {
        -16 + r_rank
    } else if cur_sequence != 0 {
        22 - cur_rank
    } else {
        10 - cur_rank
    }
}

/// How many moves of `l` after the first, from index `m + 1` on and
/// before index `n`, are above `prank` in a row: the index of the first
/// move (from 1) that is not, less one.
pub open spec fn moves_above(l: MovePly, n: int, prank: int, m: int) -> int
    decreases n - m,
{
    if m < n - 1 && 0 <= m < 13 && l.moves[1 + m].rank > prank {
        moves_above(l, n, prank, m + 1)
    } else {
        m
    }
}

/// The ranks of the run from group `g` down, `acc` gathered so far: each
/// group below is added while every rank between them is gone.
pub open spec fn run_ranks(gd: GroupView, removed: i32, g: int, acc: u16) -> u16
    decreases g,
{
    if joins(gd, removed, g) {
        run_ranks(gd, removed, g - 1, acc | gd.3[g - 1])
    } else {
        acc
    }
}

/// Whether group `g` of the decomposition `gd` and the group below it make
/// one run: every rank between them is gone (`removed`).
pub open spec fn joins(gd: GroupView, removed: i32, g: int) -> bool {
    g >= 1 && ((gd.4[g] as i32) & removed) == gd.4[g] as i32
}

/// Extend a run down from group `g` while the group below joins it: the
/// lowest group of the run and the ranks `acc` gathered with theirs.
pub open spec fn merged(gd: GroupView, removed: i32, g: int, acc: i32) -> (int, i32)
    decreases g,
{
    if joins(gd, removed, g) {
        merged(gd, removed, g - 1, acc | (gd.3[g - 1] as i32))
    } else {
        (g, acc)
    }
}

pub proof fn lemma_merged_end(gd: GroupView, removed: i32, g: int, acc: i32)
    requires
        g >= 0,
    ensures
        0 <= merged(gd, removed, g, acc).0 <= g,
    decreases g,
{
    if joins(gd, removed, g) {
        lemma_merged_end(gd, removed, g - 1, acc | (gd.3[g - 1] as i32));
    }
}

/// The runs of groups `g` down to 0, highest first: the top rank of each
/// and the ranks below it that it stands for.
pub open spec fn runs(gd: GroupView, removed: i32, g: int) -> Seq<(int, i32)>
    decreases g + 1,
{
    if g < 0 {
        Seq::empty()
    } else {
        let e = merged(gd, removed, g, gd.2[g] as i32);
        proof {
            lemma_merged_end(gd, removed, g, gd.2[g] as i32);
        }
        seq![(gd.1[g] as int, e.1)] + runs(gd, removed, e.0 - 1)
    }
}

pub proof fn lemma_runs_len(gd: GroupView, removed: i32, g: int)
    ensures
        runs(gd, removed, g).len() <= if g < 0 { 0 } else { g + 1 },
    decreases g + 1,
{
    if g >= 0 {
        let e = merged(gd, removed, g, gd.2[g] as i32);
        lemma_merged_end(gd, removed, g, gd.2[g] as i32);
        lemma_runs_len(gd, removed, e.0 - 1);
    }
}

/// The candidate cards of `hand` in suit `s`: the top card of each run,
/// with the ranks below it that it stands for.
pub open spec fn suit_cands(tpos: Pos, hand: int, s: int, removed: i32) -> Seq<ExtCard> {
    let gd = group_data(tpos.rank_in_suit[hand][s] as nat);
    runs(gd, removed, gd.0).map_values(|p: (int, i32)| ExtCard { suit: s as i32, rank: p.0 as i32, sequence: p.1 })
}

/// The candidate cards of `hand` in all four suits, suit by suit.
pub open spec fn all_cands(tpos: Pos, hand: int, rr: Seq<i32>) -> Seq<ExtCard> {
    suit_cands(tpos, hand, 0, rr[0]) + suit_cands(tpos, hand, 1, rr[1]) + suit_cands(tpos, hand, 2, rr[2])
        + suit_cands(tpos, hand, 3, rr[3])
}

/// The candidate cards of the follower `hand` in the trick of `tr`: those
/// of the led suit if it holds any, else those of all suits.
pub open spec fn follower_cands(tpos: Pos, hand: int, tr: Track) -> Seq<ExtCard> {
    if tpos.rank_in_suit[hand][tr.lead_suit as int] != 0 {
        suit_cands(tpos, hand, tr.lead_suit as int, tr.removed_ranks[tr.lead_suit as int])
    } else {
        all_cands(tpos, hand, tr.removed_ranks@)
    }
}

/// The number of groups (runs of adjacent ranks) of `hand` in all suits.
pub open spec fn hand_groups(tpos: Pos, hand: int) -> int {
    (group_data(tpos.rank_in_suit[hand][0] as nat).0 + 1) + (group_data(tpos.rank_in_suit[hand][1] as nat).0 + 1)
        + (group_data(tpos.rank_in_suit[hand][2] as nat).0 + 1) + (group_data(tpos.rank_in_suit[hand][3] as nat).0 + 1)
}

/// `p` is the list `old` with the candidate cards `c` written from the
/// start (whatever their weights), the cursor at the start and the rest
/// untouched.
pub open spec fn generated(p: MovePly, c: Seq<ExtCard>, old: MovePly) -> bool {
    &&& p.current == 0
    &&& p.last == c.len() - 1
    &&& forall|k: int| 0 <= k < c.len() ==> #[trigger] ext_of(p.moves[k]) == c[k]
    &&& forall|k: int| c.len() <= k < 14 ==> #[trigger] p.moves[k] == old.moves[k]
}

/// Write the candidate moves of `suit` (decomposed as `mp`, with the ranks
/// `removed` gone) into `list` from index `num` on; returns the new count.
fn gen_suit(list: &mut MovePly, num: usize, suit: i32, mp: MoveGroup, removed: i32) -> (n2: usize)
    requires
        ply_ok(*old(list)),
        0 <= suit < 4,
        -1 <= mp.last_group <= 6,
        num + mp.last_group + 1 <= 14,
        mp@.1.len() == 7,
        mp@.2.len() == 7,
        mp@.3.len() == 7,
        mp@.4.len() == 7,
        forall|g: int| 0 <= g <= mp.last_group ==> #[trigger] mp.rank[g] <= 14,
    ensures
        ply_ok(*final(list)),
        final(list).last == old(list).last,
        final(list).current == old(list).current,
        n2 == num + runs(mp@, removed, mp.last_group as int).len(),
        n2 <= 14,
        forall|k: int| 0 <= k < num ==> #[trigger] final(list).moves[k] == old(list).moves[k],
        forall|k: int| n2 <= k < 14 ==> #[trigger] final(list).moves[k] == old(list).moves[k],
        forall|k: int|
            num <= k < n2 ==> #[trigger] ext_of(final(list).moves[k]) == (ExtCard {
                suit,
                rank: runs(mp@, removed, mp.last_group as int)[k - num].0 as i32,
                sequence: runs(mp@, removed, mp.last_group as int)[k - num].1,
            }),
{
    let ghost gd = mp@;
    let ghost all = runs(gd, removed, mp.last_group as int);
    let mut g: i32 = mp.last_group as i32;
    let mut k: usize = num;
    let ghost mut done: Seq<(int, i32)> = Seq::empty();
    proof {
        lemma_runs_len(gd, removed, g as int);
    }
    while g >= 0
        invariant
            -1 <= g <= mp.last_group,
            mp.last_group <= 6,
            gd == mp@,
            mp@.1.len() == 7,
            mp@.2.len() == 7,
            mp@.3.len() == 7,
            mp@.4.len() == 7,
            forall|q: int| 0 <= q <= mp.last_group ==> #[trigger] mp.rank[q] <= 14,
            0 <= suit < 4,
            ply_ok(*list),
            list.last == old(list).last,
            list.current == old(list).current,
            all == runs(gd, removed, mp.last_group as int),
            all == done + runs(gd, removed, g as int),
            k == num + done.len(),
            k + g + 1 <= 14,
            runs(gd, removed, g as int).len() <= g + 1,
            forall|q: int| 0 <= q < num ==> #[trigger] list.moves[q] == old(list).moves[q],
            forall|q: int| k <= q < 14 ==> #[trigger] list.moves[q] == old(list).moves[q],
            forall|q: int|
                num <= q < k ==> #[trigger] ext_of(list.moves[q]) == (ExtCard {
                    suit,
                    rank: done[q - num].0 as i32,
                    sequence: done[q - num].1,
                }),
        decreases g + 1,
    {
        let g0 = g;
        let mut seq: i32 = mp.sequence[g as usize] as i32;
        let rank: i32 = mp.rank[g as usize] as i32;
        let ghost seq0 = seq;
        while g >= 1 && ((mp.gap[g as usize] as i32) & removed) == mp.gap[g as usize] as i32
            invariant
                0 <= g <= g0 <= 6,
                gd == mp@,
                mp@.3.len() == 7,
                mp@.4.len() == 7,
                merged(gd, removed, g0 as int, seq0) == merged(gd, removed, g as int, seq),
            decreases g,
        {
            g -= 1;
            seq = seq | (mp.fullseq[g as usize] as i32);
        }
        proof {
            assert(!joins(gd, removed, g as int));
            assert(merged(gd, removed, g as int, seq) == (g as int, seq));
            lemma_runs_len(gd, removed, g - 1);
            assert(runs(gd, removed, g0 as int) == seq![(rank as int, seq)] + runs(gd, removed, g - 1));
            done = done.push((rank as int, seq));
            assert(all == done + runs(gd, removed, g - 1));
        }
        list.moves[k].suit = suit;
        list.moves[k].rank = rank;
        list.moves[k].sequence = seq;
        k += 1;
        g -= 1;
    }
    proof {
        assert(runs(gd, removed, g as int) == Seq::<(int, i32)>::empty());
        assert(all == done);
    }
    k
}

/// The candidate cards of `hand` in the suits below `s`, suit by suit.
pub open spec fn cands_upto(tpos: Pos, hand: int, rr: Seq<i32>, s: int) -> Seq<ExtCard>
    decreases s,
{
    if s <= 0 {
        Seq::empty()
    } else {
        cands_upto(tpos, hand, rr, s - 1) + suit_cands(tpos, hand, s - 1, rr[s - 1])
    }
}

/// The number of groups of `hand` in the suits below `s`.
pub open spec fn groups_upto(tpos: Pos, hand: int, s: int) -> int
    decreases s,
{
    if s <= 0 {
        0
    } else {
        groups_upto(tpos, hand, s - 1) + group_data(tpos.rank_in_suit[hand][s - 1] as nat).0 + 1
    }
}

/// Every suit has at least minus one as its highest group index.
proof fn lemma_groups_upto(tpos: Pos, hand: int)
    requires
        pos_wf(tpos),
        0 <= hand < 4,
    ensures
        groups_upto(tpos, hand, 4) == hand_groups(tpos, hand),
        cands_upto(tpos, hand, seq![0i32, 0, 0, 0], 0) == Seq::<ExtCard>::empty(),
        forall|s: int| 0 <= s <= 4 ==> #[trigger] groups_upto(tpos, hand, s) <= groups_upto(tpos, hand, 4),
{
    reveal_with_fuel(groups_upto, 5);
    crate::lookup::lemma_group_ranks(tpos.rank_in_suit[hand][0] as nat);
    crate::lookup::lemma_group_ranks(tpos.rank_in_suit[hand][1] as nat);
    crate::lookup::lemma_group_ranks(tpos.rank_in_suit[hand][2] as nat);
    crate::lookup::lemma_group_ranks(tpos.rank_in_suit[hand][3] as nat);
}

/// `b` holds the same cards as `a` in the same places, and the same cursor
/// and end; only weights may differ.
pub open spec fn same_cards(a: MovePly, b: MovePly) -> bool {
    &&& b.last == a.last
    &&& b.current == a.current
    &&& forall|k: int| 0 <= k < 14 ==> #[trigger] ext_of(b.moves[k]) == ext_of(a.moves[k])
}

/// Weights that the move functions keep within bounds.
pub open spec fn weight_ok(w: i32) -> bool {
    -200000 <= w <= 200000
}

/// Give move `k` of `list` the weight `w`.
fn set_weight(list: &mut MovePly, k: usize, w: i32)
    requires
        ply_ok(*old(list)),
        k < 14,
    ensures
        ply_ok(*final(list)),
        same_cards(*old(list), *final(list)),
        final(list).moves[k as int].weight == w,
        forall|q: int| 0 <= q < 14 && q != k ==> #[trigger] final(list).moves[q] == old(list).moves[q],
{
    list.moves[k].weight = w;
}

/// Give each move of `list` from `lo` up to `n` the weight `c` less its rank.
fn fill_minus_rank(list: &mut MovePly, lo: usize, n: usize, c: i32)
    requires
        ply_ok(*old(list)),
        lo <= n <= 14,
        -100000 <= c <= 100000,
    ensures
        ply_ok(*final(list)),
        same_cards(*old(list), *final(list)),
        forall|q: int| lo <= q < n ==> #[trigger] final(list).moves[q].weight == c - final(list).moves[q].rank,
        forall|q: int| lo <= q < n ==> weight_ok(#[trigger] final(list).moves[q].weight),
        forall|q: int| 0 <= q < 14 && !(lo <= q < n) ==> #[trigger] final(list).moves[q] == old(list).moves[q],
{
    let mut k = lo;
    while k < n
        invariant
            lo <= k <= n <= 14,
            -100000 <= c <= 100000,
            ply_ok(*list),
            same_cards(*old(list), *list),
            forall|q: int| lo <= q < k ==> #[trigger] list.moves[q].weight == c - list.moves[q].rank,
            forall|q: int| lo <= q < k ==> weight_ok(#[trigger] list.moves[q].weight),
            forall|q: int| 0 <= q < 14 && !(lo <= q < k) ==> #[trigger] list.moves[q] == old(list).moves[q],
        decreases n - k,
    {
        let w = c - list.moves[k].rank;
        list.moves[k].weight = w;
        k += 1;
    }
}

/// Give each of the first `n` moves of `list` the weight `c` less its rank
/// if its rank is above both `thr1` and `thr2`, else minus its rank.
fn fill_above(list: &mut MovePly, n: usize, thr1: i32, thr2: i32, c: i32)
    requires
        ply_ok(*old(list)),
        n <= 14,
        -100000 <= c <= 100000,
    ensures
        ply_ok(*final(list)),
        same_cards(*old(list), *final(list)),
        forall|q: int| 0 <= q < n ==> #[trigger] final(list).moves[q].weight == if final(list).moves[q].rank > thr1
            && final(list).moves[q].rank > thr2 {
            c - final(list).moves[q].rank
        } else {
            -final(list).moves[q].rank
        },
        forall|q: int| 0 <= q < n ==> weight_ok(#[trigger] final(list).moves[q].weight),
        forall|q: int| n <= q < 14 ==> #[trigger] final(list).moves[q] == old(list).moves[q],
{
    let mut k: usize = 0;
    while k < n
        invariant
            k <= n <= 14,
            -100000 <= c <= 100000,
            ply_ok(*list),
            same_cards(*old(list), *list),
            forall|q: int| 0 <= q < k ==> #[trigger] list.moves[q].weight == if list.moves[q].rank > thr1
                && list.moves[q].rank > thr2 {
                c - list.moves[q].rank
            } else {
                -list.moves[q].rank
            },
            forall|q: int| 0 <= q < k ==> weight_ok(#[trigger] list.moves[q].weight),
            forall|q: int| k <= q < 14 ==> #[trigger] list.moves[q] == old(list).moves[q],
        decreases n - k,
    {
        let r = list.moves[k].rank;
        let w = if r > thr1 && r > thr2 { c - r } else { -r };
        list.moves[k].weight = w;
        k += 1;
    }
}

/// Add `d` to the weight of move `k` of `list`.
fn add_weight(list: &mut MovePly, k: usize, d: i32)
    requires
        ply_ok(*old(list)),
        k < 14,
        weight_ok(old(list).moves[k as int].weight),
        -1000 <= d <= 1000,
    ensures
        ply_ok(*final(list)),
        same_cards(*old(list), *final(list)),
        final(list).moves[k as int].weight == old(list).moves[k as int].weight + d,
        forall|q: int| 0 <= q < 14 && q != k ==> #[trigger] final(list).moves[q] == old(list).moves[q],
{
    list.moves[k].weight = list.moves[k].weight + d;
}

/// `a | b`, for a bit set of at most sixteen bits.
fn or_bits(a: i32, b: u16) -> (r: i32)
    requires
        0 <= a <= 0xffff,
    ensures
        r == a | (b as i32),
        0 <= r <= 0xffff,
{
    let r = a | (b as i32);
    assert(0 <= r <= 0xffff) by (bit_vector)
        requires
            0 <= a <= 0xffff,
            r == a | (b as i32),
    ;
    r
}

/// The lowest useful rank of suit `prev.suit` for relative hand `h` after
/// the move `prev`: unchanged if already set; else the lowest rank of
/// `win_ranks` in that suit (15 if none) when `prev` is below it.
pub open spec fn raised_lowest(tr: Track, h: int, prev: MoveType, win_ranks: [u16; 4]) -> i32 {
    let cur = tr.lowest_win[h][prev.suit as int];
    if cur == 0 {
        let low = lowest_rank(win_ranks[prev.suit as int]);
        let low2 = if low == 0 {
            15
        } else {
            low
        };
        if prev.rank < low2 {
            low2 as i32
        } else {
            cur
        }
    } else {
        cur
    }
}

/// `tr1` is `tr` with the lowest useful rank of `(h, s)` set to `v`.
pub open spec fn lowest_raised(tr: Track, tr1: Track, h: int, s: int, v: i32) -> bool {
    &&& tr1 == Track { lowest_win: tr1.lowest_win, ..tr }
    &&& forall|h2: int, s2: int|
        0 <= h2 < 4 && 0 <= s2 < 4 ==> #[trigger] tr1.lowest_win[h2][s2] == if h2 == h && s2 == s {
            v
        } else {
            tr.lowest_win[h2][s2]
        }
}

/// The first index from `from` on, up to the list's last, whose move is
/// at least as high as the lowest useful rank `lw` of its suit; past the
/// last (or `from` itself, when already past it) if there is none.
pub open spec fn first_fit(p: MovePly, from: int, lw: Seq<i32>) -> int
    decreases 14 - from,
{
    if from > p.last || from >= 14 {
        from
    } else if p.moves[from].rank >= lw[p.moves[from].suit as int] {
        from
    } else {
        first_fit(p, from + 1, lw)
    }
}

/// The first fitting index is never before where the search starts.
pub proof fn lemma_first_fit_from(p: MovePly, from: int, lw: Seq<i32>)
    ensures
        first_fit(p, from, lw) >= from,
    decreases 14 - from,
{
    if !(from > p.last || from >= 14) && !(p.moves[from].rank >= lw[p.moves[from].suit as int]) {
        lemma_first_fit_from(p, from + 1, lw);
    }
}

/// The valid moves of a list.
pub open spec fn live(p: MovePly) -> Seq<MoveType> {
    p.moves@.subrange(0, p.last + 1)
}

/// Whether a move differs from `m` in suit or rank.
pub open spec fn not_move(m: MoveType) -> spec_fn(MoveType) -> bool {
    |x: MoveType| !(x.suit == m.suit && x.rank == m.rank)
}

/// The moves of `l` that match none of `fb[1..n]` (entries of rank 0 match
/// nothing).
pub open spec fn purged(l: Seq<MoveType>, fb: Seq<MoveType>, n: int) -> Seq<MoveType>
    decreases n,
{
    if n <= 1 {
        l
    } else {
        let p = purged(l, fb, n - 1);
        let m = fb[n - 1];
        if m.rank == 0 {
            p
        } else {
            p.filter(not_move(m))
        }
    }
}

/// `b` is the list `a` with its valid moves sorted by descending weight.
pub open spec fn sorted_ply(a: MovePly, b: MovePly) -> bool {
    &&& b.current == a.current
    &&& b.last == a.last
    &&& b.moves@.to_multiset() == a.moves@.to_multiset()
    &&& forall|k: int| a.last + 1 <= k < 14 ==> #[trigger] b.moves@[k] == a.moves@[k]
    &&& crate::network::sorted_desc(crate::network::weights(b.moves@), a.last + 1)
}

/// Sorting keeps the bounds of the moves.
proof fn lemma_sorted_keeps_ok(a: Seq<MoveType>, b: Seq<MoveType>, n: int)
    requires
        a.len() == 14,
        b.len() == 14,
        b.to_multiset() == a.to_multiset(),
        forall|k: int| 0 <= k < 14 ==> move_ok(#[trigger] a[k]),
    ensures
        forall|k: int| 0 <= k < 14 ==> move_ok(#[trigger] b[k]),
{
    broadcast use vstd::seq_lib::group_to_multiset_ensures;
    assert forall|k: int| 0 <= k < 14 implies move_ok(#[trigger] b[k]) by {
        assert(b.to_multiset().count(b[k]) > 0);
        assert(a.contains(b[k]));
    }
}

/// How many of the first `k` cards of the trick are of suit `s`.
pub open spec fn suit_count_upto(tr: Track, s: int, k: int) -> int
    decreases k,
{
    if k <= 0 {
        0
    } else {
        suit_count_upto(tr, s, k - 1) + if tr.play_suits[k - 1] == s {
            1int
        } else {
            0int
        }
    }
}

/// How many cards of the trick are of suit `s`.
pub open spec fn suit_count(tr: Track, s: int) -> int {
    suit_count_upto(tr, s, 4)
}

/// The tracks `b` are the tracks `a` after relative hand `r` plays `mv` to
/// trick `t`: that trick's track follows the play, and after the fourth
/// card the next trick gets its leader and the cards gone.
pub open spec fn recorded(a: Seq<Track>, b: Seq<Track>, trump: int, t: int, r: int, mv: MoveType) -> bool {
    let c = chosen(a[t], trump, r, mv);
    &&& b.len() == a.len()
    &&& after_play(a[t], trump, r, mv, b[t])
    &&& forall|u: int| 0 <= u < a.len() && u != t && !(r == 3 && t > 0 && u == t - 1) ==> #[trigger] b[u] == a[u]
    &&& (r == 3 && t > 0) ==> b[t - 1] == (Track {
        lead_hand: ((a[t].lead_hand + c.1) as i32) & 3,
        removed_ranks: b[t - 1].removed_ranks,
        ..a[t - 1]
    }) && b[t - 1].removed_ranks@ == removed_after(b[t])
}

} // verus!
