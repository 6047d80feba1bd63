//! Replaying a play trace: the trick bookkeeping of a play analysis.
//!
//! [`Replay`] keeps the remaining hands, the trick in progress, who leads
//! it and how many tricks the declarer side has taken, in the search's
//! numbering (suits spades 0 … clubs 3, rank `r` at bit `r - 2`). Once at
//! most one card per hand is left every play is forced, and
//! [`Replay::forced_final_value`] completes the last trick.
//!
//! [`analyse_play_on`] replays a trace from its board: it stops at the
//! first illegal card, and otherwise gives the declarer side's trick count
//! at the snapshot and after each card.
use vstd::prelude::*;
use crate::bits::{popcount, count_ones16};
use crate::lookup::{highest_rank, BIT_MAP_RANK};
use crate::quick_tricks::highest_of;
use crate::solve_board::{first_nonvoid, forced_card, lemma_first_nonvoid};
use crate::bits::{bit, lemma_bit_and, lemma_bit_or, lemma_zero_iff_no_bits};
use crate::pos::{pos_wf, Pos};
use crate::quick_tricks::{MAXNODE, MINNODE};
use crate::search::{cards_in_play, counts_ok, deal_ok, hand_count, Engine};
use crate::tt::TransTable;
use crate::board::Board;
use crate::bridge::{seat_index, suit_index, Card, Seat};
use crate::convert::dds_suit_from_cb;
use crate::play::{PlayAnalysis, PlayFaultError, PlayFaultKind, PlayTrace};
use crate::solve_board::{board_bits, pair_is, pos_from_board, table_of};
use crate::solver::lemma_search_bits;
use crate::tricks::TrickCount;

verus! {

/// Replay state: remaining hands, the trick in progress, its leader, the
/// declarer side and its tricks so far.
#[derive(Debug, Clone)]
pub struct Replay {
    /// The remaining cards: hand by seat, suit by the search's number.
    pub rank_in_suit: [[u16; 4]; 4],
    /// The cards on the table as (suit, rank), in playing order.
    pub table: Vec<(i32, i32)>,
    /// The seat leading the current trick.
    pub leader: i32,
    /// 0 when North-South declares, 1 for East-West.
    pub declarer_parity: i32,
    /// Completed tricks won by the declarer side.
    pub banked: u8,
    /// The trump number (4 for notrump).
    pub trump: i32,
}

/// The number of cards in the hands of `ris`.
pub open spec fn total_cards(ris: [[u16; 4]; 4]) -> int {
    partial_cards(ris, 4)
}

/// The strength of a card in a trick led in `led` with `trump` trumps:
/// trumps above the led suit above everything else, by rank within.
pub open spec fn card_key(c: (i32, i32), led: i32, trump: i32) -> int {
    if trump != 4 && c.0 == trump {
        200 + c.1
    } else if c.0 == led {
        100 + c.1
    } else {
        0
    }
}

/// The last of the first `n` cards of a trick with the greatest strength.
pub open spec fn strongest(t: Seq<(i32, i32)>, trump: i32, n: int) -> int
    decreases n,
{
    if n <= 1 {
        0
    } else {
        let prev = strongest(t, trump, n - 1);
        if card_key(t[n - 1], t[0].0, trump) >= card_key(t[prev], t[0].0, trump) {
            n - 1
        } else {
            prev
        }
    }
}

/// A card with a suit that can index the hands and a rank of the table.
pub open spec fn table_card_ok(c: (i32, i32)) -> bool {
    0 <= c.0 < 4 && 0 <= c.1 <= 14
}

impl Replay {
    /// The bounds the bookkeeping relies on.
    pub open spec fn wf(&self) -> bool {
        &&& self.table@.len() <= 3
        &&& forall|k: int| 0 <= k < self.table@.len() ==> table_card_ok(#[trigger] self.table@[k])
        &&& 0 <= self.leader < 4
        &&& 0 <= self.declarer_parity <= 1
        &&& 0 <= self.trump <= 4
        &&& forall|h: int, s: int| 0 <= h < 4 && 0 <= s < 4 ==> #[trigger] self.rank_in_suit[h][s] < 8192
    }

    /// The number of cards left in the hands.
    pub fn cards_left(&self) -> (r: i32)
        ensures
            r == total_cards(self.rank_in_suit),
    {
        let mut n: i32 = 0;
        let mut h: usize = 0;
        while h < 4
            invariant
                h <= 4,
                0 <= n <= 64 * h,
                n == partial_cards(self.rank_in_suit, h as int),
            decreases 4 - h,
        {
            let mut s: usize = 0;
            let mut row: i32 = 0;
            while s < 4
                invariant
                    s <= 4,
                    h < 4,
                    0 <= row <= 16 * s,
                    row == row_cards(self.rank_in_suit, h as int, s as int),
                decreases 4 - s,
            {
                row = row + count_ones16(self.rank_in_suit[h][s]) as i32;
                s += 1;
            }
            n = n + row;
            h += 1;
        }
        n
    }

    /// Play `(suit, rank)` for the seat on turn: the card leaves its hand
    /// and goes to the table; the fourth card completes the trick, whose
    /// winner leads next and, when on the declarer side, adds a trick.
    pub fn play(&mut self, suit: i32, rank: i32)
        requires
            old(self).wf(),
            0 <= suit < 4,
            0 <= rank <= 14,
            old(self).banked < 255,
        ensures
            final(self).wf(),
            final(self).declarer_parity == old(self).declarer_parity,
            final(self).trump == old(self).trump,
            ({
                let seat = (old(self).leader + old(self).table@.len()) % 4;
                let t = old(self).table@.push((suit, rank));
                &&& forall|h: int, s: int| 0 <= h < 4 && 0 <= s < 4 ==> #[trigger] final(self).rank_in_suit[h][s] == (if h
                    == seat && s == suit {
                    old(self).rank_in_suit[h][s] & !BIT_MAP_RANK[rank as int]
                } else {
                    old(self).rank_in_suit[h][s]
                })
                &&& t.len() < 4 ==> final(self).table@ == t && final(self).leader == old(self).leader
                    && final(self).banked == old(self).banked
                &&& t.len() == 4 ==> {
                    let lead = (old(self).leader + strongest(t, old(self).trump, 4)) % 4;
                    &&& final(self).table@.len() == 0
                    &&& final(self).leader == lead
                    &&& final(self).banked == old(self).banked + (if lead % 2 == old(self).declarer_parity {
                        1int
                    } else {
                        0int
                    })
                }
            }),
    {
        let seat = ((self.leader + self.table.len() as i32) % 4) as usize;
        proof {
            crate::search::lemma_bits_stay_small(self.rank_in_suit[seat as int][suit as int], BIT_MAP_RANK[rank as int]);
        }
        let mut row = self.rank_in_suit[seat];
        row[suit as usize] = row[suit as usize] & !BIT_MAP_RANK[rank as usize];
        self.rank_in_suit[seat] = row;
        self.table.push((suit, rank));
        if self.table.len() == 4 {
            let winner_rel = self.trick_winner_rel();
            self.leader = (self.leader + winner_rel) % 4;
            if self.leader % 2 == self.declarer_parity {
                self.banked = self.banked + 1;
            }
            self.table.clear();
        }
    }

    /// Declarer-side tricks of the forced endgame, when at most one card
    /// per hand is left: complete the trick in progress, each seat on turn
    /// playing its only card, and score it (0 when nothing is left).
    pub fn forced_final_value(&self) -> (r: u8)
        requires
            self.wf(),
            forall|j: int| self.table@.len() <= j < 4 ==> #[trigger] to_play_holds(self.rank_in_suit, self.leader, j),
        ensures
            r == (if total_cards(self.rank_in_suit) == 0 && self.table@.len() == 0 {
                0
            } else {
                let t = completed_trick(self.rank_in_suit, self.table@, self.leader);
                let lead = (self.leader + strongest(t, self.trump, 4)) % 4;
                if lead % 2 == self.declarer_parity {
                    1int
                } else {
                    0int
                }
            }),
    {
        if self.cards_left() == 0 && self.table.len() == 0 {
            return 0;
        }
        let mut table: Vec<(i32, i32)> = Vec::new();
        let mut k: usize = 0;
        while k < self.table.len()
            invariant
                k <= self.table@.len(),
                table@ == self.table@.take(k as int),
            decreases self.table@.len() - k,
        {
            table.push(self.table[k]);
            k += 1;
            assert(table@ =~= self.table@.take(k as int));
        }
        assert(table@ =~= self.table@);
        let mut probe = Replay {
            rank_in_suit: self.rank_in_suit,
            table,
            leader: self.leader,
            declarer_parity: self.declarer_parity,
            banked: 0,
            trump: self.trump,
        };
        assert(probe.table@ == self.table@);
        let mut j: usize = self.table.len();
        while j < 4
            invariant
                self.table@.len() <= j <= 4,
                probe.wf(),
                j < 4 ==> probe.leader == self.leader,
                probe.declarer_parity == self.declarer_parity,
                probe.trump == self.trump,
                j < 4 ==> probe.banked == 0 && probe.table@ == completed_trick(self.rank_in_suit, self.table@, self.leader).take(j as int),
                j == 4 ==> probe.banked == (if (self.leader + strongest(completed_trick(self.rank_in_suit, self.table@, self.leader), self.trump, 4)) % 4 % 2 == self.declarer_parity {
                    1int
                } else {
                    0int
                }),
                forall|h: int, s: int| 0 <= h < 4 && 0 <= s < 4 && !played_before(self.leader as int, self.table@.len() as int, j as int, h) ==> #[trigger] probe.rank_in_suit[h][s] == self.rank_in_suit[h][s],
                forall|k: int| self.table@.len() <= k < 4 ==> #[trigger] to_play_holds(self.rank_in_suit, self.leader, k),
            decreases 4 - j,
        {
            let seat = ((probe.leader + j as i32) % 4) as usize;
            assert(to_play_holds(self.rank_in_suit, self.leader, j as int));
            assert(!played_before(self.leader as int, self.table@.len() as int, j as int, seat as int));
            let mut s: usize = 0;
            while s < 4 && probe.rank_in_suit[seat][s] == 0
                invariant
                    s <= 4,
                    seat < 4,
                    first_nonvoid(probe.rank_in_suit, seat as int, 0) == first_nonvoid(probe.rank_in_suit, seat as int, s as int),
                decreases 4 - s,
            {
                s += 1;
            }
            proof {
                assert forall|k: int| 0 <= k <= 4 implies first_nonvoid(probe.rank_in_suit, seat as int, k) == first_nonvoid(self.rank_in_suit, seat as int, k) by {
                    lemma_same_row_nonvoid(probe.rank_in_suit, self.rank_in_suit, seat as int, k);
                }
                lemma_first_nonvoid(probe.rank_in_suit, seat as int, 0);
                crate::lookup::lemma_lowest_rank_bound(probe.rank_in_suit[seat as int][s as int]);
            }
            let rank = highest_of(probe.rank_in_suit[seat][s]);
            let ghost before = probe;
            probe.play(s as i32, rank);
            proof {
                let t = completed_trick(self.rank_in_suit, self.table@, self.leader);
                assert(t[j as int] == forced_pair(self.rank_in_suit, ((self.leader + j) % 4) as int));
                assert(before.table@.push((s as i32, rank)) =~= t.take(j + 1));
                if j + 1 == 4 {
                    assert(t.take(4) =~= t);
                }
                assert forall|h: int, s2: int| 0 <= h < 4 && 0 <= s2 < 4 && !played_before(self.leader as int, self.table@.len() as int, j + 1, h) implies #[trigger] probe.rank_in_suit[h][s2] == self.rank_in_suit[h][s2] by {
                    assert(!played_before(self.leader as int, self.table@.len() as int, j as int, h));
                }
            }
            j += 1;
        }
        probe.banked
    }

    /// The seat of the table card at position `rel` from the leader's
    /// (0 to 3) that wins the trick: the highest trump, else the highest
    /// card of the suit led; of equal cards the last.
    pub fn trick_winner_rel(&self) -> (r: i32)
        requires
            self.table@.len() == 4,
        ensures
            r == strongest(self.table@, self.trump, 4),
            0 <= r < 4,
    {
        let led = self.table[0].0;
        let mut best: usize = 0;
        let mut rel: usize = 1;
        while rel < 4
            invariant
                1 <= rel <= 4,
                self.table@.len() == 4,
                led == self.table@[0].0,
                best == strongest(self.table@, self.trump, rel as int),
                best < rel,
            decreases 4 - rel,
        {
            if key_of(self.table[rel], led, self.trump) >= key_of(self.table[best], led, self.trump) {
                best = rel;
            }
            rel += 1;
        }
        best as i32
    }
}

impl Replay {
    /// A copy of the replay state.
    pub fn copy(&self) -> (r: Replay)
        ensures
            r.rank_in_suit == self.rank_in_suit,
            r.table@ == self.table@,
            r.leader == self.leader,
            r.declarer_parity == self.declarer_parity,
            r.banked == self.banked,
            r.trump == self.trump,
    {
        let mut table: Vec<(i32, i32)> = Vec::new();
        let mut k: usize = 0;
        while k < self.table.len()
            invariant
                k <= self.table@.len(),
                table@ == self.table@.take(k as int),
            decreases self.table@.len() - k,
        {
            table.push(self.table[k]);
            k += 1;
            assert(table@ =~= self.table@.take(k as int));
        }
        assert(table@ =~= self.table@);
        Replay {
            rank_in_suit: self.rank_in_suit,
            table,
            leader: self.leader,
            declarer_parity: self.declarer_parity,
            banked: self.banked,
            trump: self.trump,
        }
    }
}

/// The strength of a card, as [`card_key`] says.
fn key_of(c: (i32, i32), led: i32, trump: i32) -> (r: i64)
    ensures
        r == card_key(c, led, trump),
{
    if trump != 4 && c.0 == trump {
        200 + c.1 as i64
    } else if c.0 == led {
        100 + c.1 as i64
    } else {
        0
    }
}

/// Whether the seat `j` places after `leader` holds a card.
pub open spec fn to_play_holds(ris: [[u16; 4]; 4], leader: i32, j: int) -> bool {
    first_nonvoid(ris, (leader + j) % 4, 0) < 4
}

/// The card a seat with one card left plays, as a (suit, rank) pair.
pub open spec fn forced_pair(ris: [[u16; 4]; 4], h: int) -> (i32, i32) {
    (forced_card(ris, h).0 as i32, forced_card(ris, h).1 as i32)
}

/// The trick in progress completed by the forced cards of the seats still
/// to play.
pub open spec fn completed_trick(ris: [[u16; 4]; 4], table: Seq<(i32, i32)>, leader: i32) -> Seq<(i32, i32)> {
    Seq::new(4, |j: int| if j < table.len() { table[j] } else { forced_pair(ris, (leader + j) % 4) })
}

/// Whether seat `h` has played by the time `j` cards of the trick are
/// down, of which `n` were on the table at the start.
pub open spec fn played_before(leader: int, n: int, j: int, h: int) -> bool {
    let k = (h - leader) % 4;
    n <= k < j
}

/// Hands that agree on a seat's row find the same first non-void suit.
proof fn lemma_same_row_nonvoid(a: [[u16; 4]; 4], b: [[u16; 4]; 4], h: int, k: int)
    requires
        0 <= h < 4,
        0 <= k <= 4,
        forall|s: int| 0 <= s < 4 ==> #[trigger] a[h][s] == b[h][s],
    ensures
        first_nonvoid(a, h, k) == first_nonvoid(b, h, k),
    decreases 4 - k,
{
    if k < 4 {
        lemma_same_row_nonvoid(a, b, h, k + 1);
    }
}

/// The cards of the first `s` suits of hand `h`.
pub open spec fn row_cards(ris: [[u16; 4]; 4], h: int, s: int) -> int
    decreases s,
{
    if s <= 0 {
        0
    } else {
        row_cards(ris, h, s - 1) + popcount(ris[h][s - 1])
    }
}

/// The cards of the first `h` hands.
pub open spec fn partial_cards(ris: [[u16; 4]; 4], h: int) -> int
    decreases h,
{
    if h <= 0 {
        0
    } else {
        partial_cards(ris, h - 1) + row_cards(ris, h - 1, 4)
    }
}

/// The cards of hand `h` of `ris`, suit by suit.
pub open spec fn hand_cards(ris: [[u16; 4]; 4], h: int) -> int {
    (popcount(ris[h][0]) + popcount(ris[h][1]) + popcount(ris[h][2]) + popcount(ris[h][3])) as int
}

/// The hands of `ris` share no card.
pub open spec fn hands_disjoint(ris: [[u16; 4]; 4]) -> bool {
    forall|h1: int, h2: int, s: int|
        0 <= h1 < h2 < 4 && 0 <= s < 4 ==> #[trigger] (ris[h1][s] & ris[h2][s]) == 0
}

/// The declarer side's tricks from the lead of a trick, the hands being
/// `ris` and `leader` on lead, as the engine's search counts them; 0 when
/// the hands are no position of a deal: empty, sharing a card, of
/// different sizes, or holding more tricks than the `banked` ones leave.
fn lead_value(
    engine: &mut Engine,
    tt: &mut TransTable,
    ris: [[u16; 4]; 4],
    leader: i32,
    declarer_parity: i32,
    banked: u8,
) -> (r: u8)
    requires
        old(engine).wf(),
        old(tt).wf(),
        0 <= leader < 4,
        0 <= declarer_parity <= 1,
        banked <= 13,
        forall|h: int, s: int| 0 <= h < 4 && 0 <= s < 4 ==> #[trigger] ris[h][s] < 8192,
    ensures
        final(engine).wf(),
        final(tt).wf(),
        final(engine).trump_spec() == old(engine).trump_spec(),
        banked + r <= 13,
{
    let mut counts: [i32; 4] = [0i32; 4];
    let mut h: usize = 0;
    while h < 4
        invariant
            h <= 4,
            forall|h2: int| 0 <= h2 < h ==> #[trigger] counts[h2] == hand_cards(ris, h2),
            forall|h2: int| 0 <= h2 < 4 ==> 0 <= #[trigger] counts[h2] <= 64,
        decreases 4 - h,
    {
        counts[h] = count_ones16(ris[h][0]) as i32 + count_ones16(ris[h][1]) as i32 + count_ones16(ris[h][2]) as i32
            + count_ones16(ris[h][3]) as i32;
        h += 1;
    }
    let c = counts[0];
    if c == 0 || counts[1] != c || counts[2] != c || counts[3] != c || c > 13 || banked as i32 + c > 13 {
        return 0;
    }
    let mut s: usize = 0;
    while s < 4
        invariant
            s <= 4,
            forall|h1: int, h2: int, s2: int|
                0 <= h1 < h2 < 4 && 0 <= s2 < s ==> #[trigger] (ris[h1][s2] & ris[h2][s2]) == 0,
            old(engine).wf(),
            old(tt).wf(),
            *engine == *old(engine),
            *tt == *old(tt),
            banked <= 13,
        decreases 4 - s,
    {
        let mut h1: usize = 0;
        while h1 < 4
            invariant
                s < 4,
                h1 <= 4,
                forall|a: int, b: int, s2: int|
                    0 <= a < b < 4 && 0 <= s2 < s ==> #[trigger] (ris[a][s2] & ris[b][s2]) == 0,
                forall|a: int, b: int| 0 <= a < h1 && a < b < 4 ==> #[trigger] (ris[a][s as int] & ris[b][s as int]) == 0,
                old(engine).wf(),
                old(tt).wf(),
                *engine == *old(engine),
                *tt == *old(tt),
                banked <= 13,
            decreases 4 - h1,
        {
            let mut h2: usize = h1 + 1;
            while h2 < 4
                invariant
                    s < 4,
                    h1 < 4,
                    h1 + 1 <= h2 <= 4,
                    forall|a: int, b: int, s2: int|
                        0 <= a < b < 4 && 0 <= s2 < s ==> #[trigger] (ris[a][s2] & ris[b][s2]) == 0,
                    forall|a: int, b: int| 0 <= a < h1 && a < b < 4 ==> #[trigger] (ris[a][s as int] & ris[b][s as int]) == 0,
                        forall|b: int| h1 < b < h2 ==> #[trigger] (ris[h1 as int][s as int] & ris[b][s as int]) == 0,
                    old(engine).wf(),
                    old(tt).wf(),
                    *engine == *old(engine),
                    *tt == *old(tt),
                    banked <= 13,
                decreases 4 - h2,
            {
                if ris[h1][s] & ris[h2][s] != 0 {
                    return 0;
                }
                h2 += 1;
            }
            h1 += 1;
        }
        s += 1;
    }
    let ini_depth: usize = (4 * c - 4) as usize;
    let mut pos = Pos::default();
    pos.rank_in_suit = ris;
    pos.first[ini_depth] = leader;
    engine.set_node_types(if declarer_parity == 0 {
        [MAXNODE, MINNODE, MAXNODE, MINNODE]
    } else {
        [MINNODE, MAXNODE, MINNODE, MAXNODE]
    });
    engine.set_deal(&mut pos, tt);
    proof {
        lemma_lead_ready(ris, pos, ini_depth as int, c as int);
    }
    let r = engine.search_target(&mut pos, tt, ini_depth as i32);
    r as u8
}

/// The declarer side's tricks from the position of `replay` on, the trick
/// in progress included: at a trick's lead as [`lead_value`] counts them;
/// in mid-trick the most, over the cards that the seat on turn may play
/// (one of each run of adjacent ranks it holds), when that seat is on the
/// declarer side, and the fewest when it defends; 0 when it has no card.
/// The search of the cards stops once a card of the seat on turn reaches
/// `beta` (for the declarer side) or falls to `alpha` (for the defenders):
/// the count is exact when it lies strictly between the two.
pub(crate) fn position_value(engine: &mut Engine, tt: &mut TransTable, replay: &Replay, alpha: i32, beta: i32) -> (r: u8)
    requires
        old(engine).wf(),
        old(tt).wf(),
        replay.wf(),
        replay.banked <= 13,
        -1 <= alpha <= 14,
        -1 <= beta <= 14,
    ensures
        final(engine).wf(),
        final(tt).wf(),
        final(engine).trump_spec() == old(engine).trump_spec(),
        replay.banked + r <= 13,
    decreases if replay.table@.len() == 0 {
        0int
    } else {
        4 - replay.table@.len()
    },
{
    if replay.table.len() == 0 {
        return lead_value(engine, tt, replay.rank_in_suit, replay.leader, replay.declarer_parity, replay.banked);
    }
    let seat: usize = ((replay.leader + replay.table.len() as i32) % 4) as usize;
    let led: usize = replay.table[0].0 as usize;
    let follow = replay.rank_in_suit[seat][led] != 0;
    let maximize = seat as i32 % 2 == replay.declarer_parity;
    let mut best: u8 = 0;
    let mut found = false;
    let mut s: usize = 0;
    while s < 4
        invariant
            s <= 4,
            seat < 4,
            led < 4,
            engine.wf(),
            tt.wf(),
            engine.trump_spec() == old(engine).trump_spec(),
            replay.wf(),
            replay.banked <= 13,
            1 <= replay.table@.len() <= 3,
            replay.banked + best <= 13,
            -1 <= alpha <= 14,
            -1 <= beta <= 14,
        decreases 4 - s,
    {
        if !follow || s == led {
            let holding = replay.rank_in_suit[seat][s];
            let mut rank: i32 = 2;
            while rank <= 14
                invariant
                    2 <= rank <= 15,
                    s < 4,
                    seat < 4,
                    engine.wf(),
                    tt.wf(),
                    engine.trump_spec() == old(engine).trump_spec(),
                    replay.wf(),
                    replay.banked <= 13,
                    1 <= replay.table@.len() <= 3,
                    replay.banked + best <= 13,
                    -1 <= alpha <= 14,
                    -1 <= beta <= 14,
                decreases 15 - rank,
            {
                if holding & BIT_MAP_RANK[rank as usize] != 0 && (rank == 14 || holding & BIT_MAP_RANK[(rank + 1) as usize]
                    == 0) {
                    let mut child = replay.copy();
                    child.play(s as i32, rank);
                    let v: u8 = if child.banked > 13 {
                        0
                    } else {
                        let gained = child.banked - replay.banked;
                        let ca = if alpha - (gained as i32) < -1 {
                            -1
                        } else {
                            alpha - gained as i32
                        };
                        let cb = if beta - (gained as i32) < -1 {
                            -1
                        } else {
                            beta - gained as i32
                        };
                        gained + position_value(engine, tt, &child, ca, cb)
                    };
                    if !found || (maximize && v > best) || (!maximize && v < best) {
                        best = v;
                        found = true;
                    }
                    if (maximize && best as i32 >= beta) || (!maximize && best as i32 <= alpha) {
                        return best;
                    }
                }
                rank += 1;
            }
        }
        s += 1;
    }
    best
}

/// The hands of `ris` as sequences: seat, then suit.
pub open spec fn hands_of(ris: [[u16; 4]; 4]) -> Seq<Seq<u16>> {
    Seq::new(4, |h: int| ris[h]@)
}

/// The remaining hands of `board` in the search's numbering.
pub open spec fn board_hands(board: Board) -> Seq<Seq<u16>> {
    Seq::new(4, |h: int| Seq::new(4, |s: int| board_bits(board, h, s)))
}

/// The cards of the trick in progress on `board` as (suit, rank) pairs in
/// the search's numbering.
pub open spec fn board_table(board: Board) -> Seq<(i32, i32)> {
    let played = board.spec_trick().played();
    Seq::new(played.len(), |k: int| ((3 - suit_index(played[k].suit)) as i32, played[k].rank as i32))
}

/// The cards of a trace as (suit, rank) pairs in the search's numbering.
pub open spec fn trace_pairs(cards: Seq<Card>) -> Seq<(i32, i32)> {
    Seq::new(cards.len(), |k: int| ((3 - suit_index(cards[k].suit)) as i32, cards[k].rank as i32))
}

/// The seat on turn with `table` on the table and `leader` leading.
pub open spec fn on_turn(table: Seq<(i32, i32)>, leader: int) -> int {
    (leader + table.len()) % 4
}

/// How card `c` is illegal for the seat on turn: 0 when it does not hold
/// it, 1 when it does not follow the suit led though it holds that suit,
/// -1 when the card is legal.
pub open spec fn card_fault(hands: Seq<Seq<u16>>, table: Seq<(i32, i32)>, leader: int, c: (i32, i32)) -> int {
    let seat = on_turn(table, leader);
    if hands[seat][c.0 as int] & BIT_MAP_RANK[c.1 as int] == 0 {
        0
    } else if table.len() > 0 && c.0 != table[0].0 && hands[seat][table[0].0 as int] != 0 {
        1
    } else {
        -1
    }
}

/// The hands after the seat on turn plays `c`.
pub open spec fn hands_after(hands: Seq<Seq<u16>>, table: Seq<(i32, i32)>, leader: int, c: (i32, i32)) -> Seq<Seq<u16>> {
    let seat = on_turn(table, leader);
    Seq::new(4, |h: int| Seq::new(4, |s: int| if h == seat && s == c.0 {
        hands[h][s] & !BIT_MAP_RANK[c.1 as int]
    } else {
        hands[h][s]
    }))
}

/// The card of index `k` (0 to 59): suit `k / 15`, rank `k % 15`.
pub open spec fn card_of(k: int) -> (i32, i32) {
    ((k / 15) as i32, (k % 15) as i32)
}

/// Whether the seat on turn may play `c`: a card of the deck that it
/// holds, following suit when it can.
pub open spec fn legal_card(hands: Seq<Seq<u16>>, table: Seq<(i32, i32)>, leader: int, c: (i32, i32)) -> bool {
    &&& 0 <= c.0 < 4
    &&& 2 <= c.1 <= 14
    &&& card_fault(hands, table, leader, c) == -1
}

/// The seat that wins the complete trick `t` led by `leader`.
pub open spec fn trick_winner(t: Seq<(i32, i32)>, leader: int, trump: i32) -> int {
    (leader + strongest(t, trump, 4)) % 4
}

/// The tricks of the side of parity `parity` (0 North-South, 1 East-West)
/// once the seat on turn plays `c`, the trick it completes included, when
/// `n` cards are in the hands before the card; under double-dummy play.
pub open spec fn dd_after(
    hands: Seq<Seq<u16>>,
    table: Seq<(i32, i32)>,
    leader: int,
    trump: i32,
    parity: int,
    n: int,
    c: (i32, i32),
) -> int
    decreases n, 0int, 0int,
{
    let t = table.push(c);
    let h2 = hands_after(hands, table, leader, c);
    if n <= 0 {
        0
    } else if t.len() < 4 {
        dd_value(h2, t, leader, trump, parity, n - 1)
    } else {
        let w = trick_winner(t, leader, trump);
        (if w % 2 == parity {
            1int
        } else {
            0int
        }) + dd_value(h2, Seq::empty(), w, trump, parity, n - 1)
    }
}

/// Over the cards of index below `k` that the seat on turn may play,
/// whether there is one, and the best of [`dd_after`] for its side: the
/// most when it is of parity `parity`, else the fewest.
pub open spec fn dd_best(
    hands: Seq<Seq<u16>>,
    table: Seq<(i32, i32)>,
    leader: int,
    trump: i32,
    parity: int,
    n: int,
    k: int,
) -> (bool, int)
    decreases n, 1int, k,
{
    if k <= 0 || n <= 0 {
        (false, 0)
    } else {
        let prev = dd_best(hands, table, leader, trump, parity, n, k - 1);
        let c = card_of(k - 1);
        if !legal_card(hands, table, leader, c) {
            prev
        } else {
            let v = dd_after(hands, table, leader, trump, parity, n, c);
            let maximize = on_turn(table, leader) % 2 == parity;
            if !prev.0 || (maximize && v > prev.1) || (!maximize && v < prev.1) {
                (true, v)
            } else {
                prev
            }
        }
    }
}

/// The double-dummy value of a position: the tricks that the side of
/// parity `parity` takes from here on, the trick in progress included,
/// when each seat plays its best, `n` cards being left in the hands; 0
/// when the seat on turn has no card it may play.
pub open spec fn dd_value(
    hands: Seq<Seq<u16>>,
    table: Seq<(i32, i32)>,
    leader: int,
    trump: i32,
    parity: int,
    n: int,
) -> int
    decreases n, 2int, 0int,
{
    if n <= 0 {
        0
    } else {
        dd_best(hands, table, leader, trump, parity, n, 60).1
    }
}

/// Over the cards of index below `k`, [`dd_best`] finds a card exactly
/// when one may be played, is at least (for the side counted; at most for
/// the other) what each of them leads to, and is what one of them leads to.
proof fn lemma_dd_best(
    hands: Seq<Seq<u16>>,
    table: Seq<(i32, i32)>,
    leader: int,
    trump: i32,
    parity: int,
    n: int,
    k: int,
)
    requires
        n >= 1,
        0 <= k,
    ensures
        ({
            let b = dd_best(hands, table, leader, trump, parity, n, k);
            let maximize = on_turn(table, leader) % 2 == parity;
            &&& forall|j: int|
                0 <= j < k && legal_card(hands, table, leader, #[trigger] card_of(j)) ==> b.0 && (maximize ==> b.1
                    >= dd_after(hands, table, leader, trump, parity, n, card_of(j))) && (!maximize ==> b.1 <= dd_after(
                    hands,
                    table,
                    leader,
                    trump,
                    parity,
                    n,
                    card_of(j),
                ))
            &&& b.0 ==> exists|j: int|
                0 <= j < k && legal_card(hands, table, leader, #[trigger] card_of(j)) && b.1 == dd_after(
                    hands,
                    table,
                    leader,
                    trump,
                    parity,
                    n,
                    card_of(j),
                )
        }),
    decreases k,
{
    if k > 0 {
        lemma_dd_best(hands, table, leader, trump, parity, n, k - 1);
        let prev = dd_best(hands, table, leader, trump, parity, n, k - 1);
        let b = dd_best(hands, table, leader, trump, parity, n, k);
        if prev.0 && b != prev {
            let j = choose|j: int|
                0 <= j < k - 1 && legal_card(hands, table, leader, #[trigger] card_of(j)) && prev.1 == dd_after(
                    hands,
                    table,
                    leader,
                    trump,
                    parity,
                    n,
                    card_of(j),
                );
        }
        if b.0 {
            if b == prev {
                let j = choose|j: int|
                    0 <= j < k - 1 && legal_card(hands, table, leader, #[trigger] card_of(j)) && prev.1 == dd_after(
                        hands,
                        table,
                        leader,
                        trump,
                        parity,
                        n,
                        card_of(j),
                    );
                assert(0 <= j < k && legal_card(hands, table, leader, card_of(j)));
            } else {
                assert(legal_card(hands, table, leader, card_of(k - 1)));
            }
        }
    }
}

/// A card of the deck is the card of index `15 * suit + rank`.
proof fn lemma_card_index(c: (i32, i32))
    requires
        0 <= c.0 < 4,
        0 <= c.1 < 15,
    ensures
        0 <= 15 * c.0 + c.1 < 60,
        card_of(15 * c.0 + c.1) == c,
{
    let j = 15 * c.0 + c.1;
    assert(j / 15 == c.0 as int && j % 15 == c.1 as int) by (nonlinear_arith)
        requires
            j == 15 * c.0 + c.1,
            0 <= c.1 < 15,
            0 <= c.0,
    ;
}

/// Double-dummy play: when the seat on turn may play `c`, the value of the
/// position is at least what `c` leads to if the seat is of the side
/// counted, and at most what it leads to if the seat defends: no card
/// does better for the side on turn than its best.
pub proof fn law_dd_value_no_better_card(
    hands: Seq<Seq<u16>>,
    table: Seq<(i32, i32)>,
    leader: int,
    trump: i32,
    parity: int,
    n: int,
    c: (i32, i32),
)
    requires
        n >= 1,
        legal_card(hands, table, leader, c),
    ensures
        on_turn(table, leader) % 2 == parity ==> dd_value(hands, table, leader, trump, parity, n) >= dd_after(
            hands,
            table,
            leader,
            trump,
            parity,
            n,
            c,
        ),
        on_turn(table, leader) % 2 != parity ==> dd_value(hands, table, leader, trump, parity, n) <= dd_after(
            hands,
            table,
            leader,
            trump,
            parity,
            n,
            c,
        ),
{
    lemma_card_index(c);
    lemma_dd_best(hands, table, leader, trump, parity, n, 60);
    assert(legal_card(hands, table, leader, card_of(15 * c.0 + c.1)));
}

/// Double-dummy play: when the seat on turn may play some card, the value
/// of the position is what one of its cards leads to.
pub proof fn law_dd_value_attained(
    hands: Seq<Seq<u16>>,
    table: Seq<(i32, i32)>,
    leader: int,
    trump: i32,
    parity: int,
    n: int,
    c: (i32, i32),
)
    requires
        n >= 1,
        legal_card(hands, table, leader, c),
    ensures
        exists|c2: (i32, i32)|
            legal_card(hands, table, leader, c2) && dd_value(hands, table, leader, trump, parity, n) == #[trigger] dd_after(
                hands,
                table,
                leader,
                trump,
                parity,
                n,
                c2,
            ),
{
    lemma_card_index(c);
    lemma_dd_best(hands, table, leader, trump, parity, n, 60);
    assert(legal_card(hands, table, leader, card_of(15 * c.0 + c.1)));
    let j = choose|j: int|
        0 <= j < 60 && legal_card(hands, table, leader, #[trigger] card_of(j)) && dd_best(
            hands,
            table,
            leader,
            trump,
            parity,
            n,
            60,
        ).1 == dd_after(hands, table, leader, trump, parity, n, card_of(j));
    let c2 = card_of(j);
    assert(legal_card(hands, table, leader, c2) && dd_value(hands, table, leader, trump, parity, n) == dd_after(
        hands,
        table,
        leader,
        trump,
        parity,
        n,
        c2,
    ));
}

/// The cards in the hands `hands`.
pub open spec fn seq_cards(hands: Seq<Seq<u16>>) -> int {
    (popcount(hands[0][0]) + popcount(hands[0][1]) + popcount(hands[0][2]) + popcount(hands[0][3])
        + popcount(hands[1][0]) + popcount(hands[1][1]) + popcount(hands[1][2]) + popcount(hands[1][3])
        + popcount(hands[2][0]) + popcount(hands[2][1]) + popcount(hands[2][2]) + popcount(hands[2][3])
        + popcount(hands[3][0]) + popcount(hands[3][1]) + popcount(hands[3][2]) + popcount(hands[3][3])) as int
}

/// The replay state after the first `k` cards of `cards`, starting from
/// `hands`, `table`, `leader` leading and `banked` tricks of the side of
/// parity `parity`: the hands, the table, the leader and the tricks.
pub open spec fn state_after(
    hands: Seq<Seq<u16>>,
    table: Seq<(i32, i32)>,
    leader: int,
    banked: int,
    cards: Seq<(i32, i32)>,
    trump: i32,
    parity: int,
    k: int,
) -> (Seq<Seq<u16>>, Seq<(i32, i32)>, int, int)
    decreases k,
{
    if k <= 0 {
        (hands, table, leader, banked)
    } else {
        let p = state_after(hands, table, leader, banked, cards, trump, parity, k - 1);
        let c = cards[k - 1];
        let t = p.1.push(c);
        let h2 = hands_after(p.0, p.1, p.2, c);
        if t.len() < 4 {
            (h2, t, p.2, p.3)
        } else {
            let w = trick_winner(t, p.2, trump);
            (h2, Seq::empty(), w, p.3 + if w % 2 == parity {
                1int
            } else {
                0int
            })
        }
    }
}

/// The first illegal card of `cards` from the `i`-th on, the hands being
/// `hands`, the table `table` and `leader` leading before it: its index,
/// the seat on turn and how it is illegal, as [`card_fault`] says; `None`
/// when every card is legal. A fourth card completes the trick, and the
/// seat that wins it leads next.
pub open spec fn first_fault(
    hands: Seq<Seq<u16>>,
    table: Seq<(i32, i32)>,
    leader: int,
    cards: Seq<(i32, i32)>,
    trump: i32,
    i: int,
) -> Option<(int, int, int)>
    decreases cards.len() - i,
{
    if i < 0 || i >= cards.len() {
        None
    } else {
        let c = cards[i];
        let f = card_fault(hands, table, leader, c);
        if f >= 0 {
            Some((i, on_turn(table, leader), f))
        } else {
            let t = table.push(c);
            let h2 = hands_after(hands, table, leader, c);
            if t.len() < 4 {
                first_fault(h2, t, leader, cards, trump, i + 1)
            } else {
                first_fault(h2, Seq::empty(), (leader + strongest(t, trump, 4)) % 4, cards, trump, i + 1)
            }
        }
    }
}

/// The first illegal card of the trace, as [`first_fault`] says, playing
/// from the trace's board with `trump` trumps.
pub open spec fn trace_fault(trace: PlayTrace, trump: i32) -> Option<(int, int, int)> {
    first_fault(
        board_hands(trace.board),
        board_table(trace.board),
        seat_index(trace.board.spec_trick().spec_leader()) as int,
        trace_pairs(trace.cards@),
        trump,
        0,
    )
}

/// The declarer side of a deal whose opening lead is `leader`'s: the
/// leader's opponents (0 North-South, 1 East-West).
pub open spec fn declarer_side(leader: int) -> int {
    if leader % 2 == 0 {
        1
    } else {
        0
    }
}

/// A position small enough to be solved card by card: at most twelve
/// cards in the hands, and room for its tricks beside the `st.3` taken.
pub open spec fn small_position(st: (Seq<Seq<u16>>, Seq<(i32, i32)>, int, int)) -> bool {
    let n = seq_cards(st.0);
    n <= 12 && st.3 * 4 + n + st.1.len() <= 52
}

/// The trick count `e` recorded for the replay state `st`: on a small
/// position, the tricks taken plus the double-dummy value.
pub open spec fn entry_ok(e: TrickCount, st: (Seq<Seq<u16>>, Seq<(i32, i32)>, int, int), trump: i32, parity: int) -> bool {
    small_position(st) ==> e.value() == st.3 + dd_value(st.0, st.1, st.2, trump, parity, seq_cards(st.0))
}

/// The declarer side's tricks from the position of `replay` on: the
/// double-dummy value, tried card by card, on a small position; else as
/// the engine searches it.
fn replay_value(engine: &mut Engine, tt: &mut TransTable, replay: &Replay) -> (r: u8)
    requires
        old(engine).wf(),
        old(tt).wf(),
        replay.wf(),
        replay.banked <= 13,
    ensures
        final(engine).wf(),
        final(tt).wf(),
        final(engine).trump_spec() == old(engine).trump_spec(),
        replay.banked + r <= 13,
        small_position((hands_of(replay.rank_in_suit), replay.table@, replay.leader as int, replay.banked as int))
            ==> r == dd_value(
            hands_of(replay.rank_in_suit),
            replay.table@,
            replay.leader as int,
            replay.trump,
            replay.declarer_parity as int,
            seq_cards(hands_of(replay.rank_in_suit)),
        ),
{
    let n = replay.cards_left();
    proof {
        reveal_with_fuel(partial_cards, 5);
        reveal_with_fuel(row_cards, 5);
        assert(n == seq_cards(hands_of(replay.rank_in_suit)));
    }
    if n <= 12 && replay.banked as i32 * 4 + n + replay.table.len() as i32 <= 52 {
        exact_value(replay, n)
    } else {
        position_value(engine, tt, replay, -1, 14)
    }
}

/// Analyse one trace on an engine and a table whose strain is the board's
/// trump: the declarer side (the leader's opponents) is the engine's MAX
/// side, and the result holds its total tricks at the snapshot and after
/// each card of the trace.
///
/// Fails with the first illegal card of the trace: one that the seat on
/// turn does not hold, or a revoke.
pub fn analyse_play_on(engine: &mut Engine, tt: &mut TransTable, trace: &PlayTrace) -> (r: Result<
    PlayAnalysis,
    PlayFaultError,
>)
    requires
        old(engine).wf(),
        old(tt).wf(),
        trace.board.spec_trick().wf(),
        forall|h: int| 0 <= h < 4 ==> (#[trigger] trace.board.spec_remaining().0[h]).valid(),
        trace.cards@.len() <= 52,
        forall|k: int| 0 <= k < trace.cards@.len() ==> (#[trigger] trace.cards@[k]).wf(),
    ensures
        final(engine).wf(),
        final(tt).wf(),
        final(engine).trump_spec() == old(engine).trump_spec(),
        r is Err <==> trace_fault(*trace, old(engine).trump_spec()) is Some,
        r matches Err(e) ==> trace_fault(*trace, old(engine).trump_spec()) == Some((
            e.index as int,
            seat_index(e.seat) as int,
            if e.kind is NotHeld {
                0int
            } else {
                1int
            },
        )) && e.card == trace.cards@[e.index as int],
        r matches Ok(a) ==> a.tricks@.len() == trace.cards@.len() + 1 && forall|k: int|
            0 <= k < a.tricks@.len() ==> (#[trigger] a.tricks@[k]).wf(),
        r matches Ok(a) ==> forall|k: int|
            0 <= k < a.tricks@.len() ==> entry_ok(
                #[trigger] a.tricks@[k],
                state_after(
                    board_hands(trace.board),
                    board_table(trace.board),
                    seat_index(trace.board.spec_trick().spec_leader()) as int,
                    0,
                    trace_pairs(trace.cards@),
                    old(engine).trump_spec(),
                    declarer_side(seat_index(trace.board.spec_trick().spec_leader()) as int),
                    k,
                ),
                old(engine).trump_spec(),
                declarer_side(seat_index(trace.board.spec_trick().spec_leader()) as int),
            ),
{
    let board = &trace.board;
    let trump = engine.trump_number();
    let base = pos_from_board(board);
    let table = table_of(board);
    let leader = board.leader().index() as i32;
    proof {
        board.spec_trick().lemma_wf();
        assert forall|h: int, s: int| 0 <= h < 4 && 0 <= s < 4 implies #[trigger] base.rank_in_suit[h][s] < 8192 by {
            assert(board.spec_remaining().0[h].valid());
            lemma_search_bits(board.spec_remaining().0[h].0[3 - s]);
        }
        assert(table@ =~= board_table(*board));
    }
    let mut replay = Replay {
        rank_in_suit: base.rank_in_suit,
        table,
        leader,
        declarer_parity: if leader % 2 == 0 {
            1
        } else {
            0
        },
        banked: 0,
        trump,
    };
    proof {
        assert(hands_of(replay.rank_in_suit) =~~= board_hands(*board));
    }
    let ghost t0 = replay.table@.len();
    let ghost pairs = trace_pairs(trace.cards@);
    let ghost h_start = hands_of(replay.rank_in_suit);
    let ghost t_start = replay.table@;
    let ghost l_start = leader as int;
    let ghost side = declarer_side(leader as int);
    tt.reset();
    let mut tricks: Vec<TrickCount> = Vec::new();
    let value = replay_value(engine, tt, &replay);
    tricks.push(TrickCount::new(replay.banked + value));
    proof {
        assert(state_after(h_start, t_start, l_start, 0, pairs, trump, side, 0) == (h_start, t_start, l_start, 0int));
    }
    let mut k: usize = 0;
    while k < trace.cards.len()
        invariant
            k <= trace.cards@.len() <= 52,
            replay.wf(),
            replay.trump == trump,
            trump == old(engine).trump_spec(),
            0 <= t0 <= 3,
            replay.banked * 4 + replay.table@.len() <= k + t0,
            engine.wf(),
            tt.wf(),
            engine.trump_spec() == old(engine).trump_spec(),
            pairs == trace_pairs(trace.cards@),
            forall|q: int| 0 <= q < trace.cards@.len() ==> (#[trigger] trace.cards@[q]).wf(),
            trace_fault(*trace, trump) == first_fault(hands_of(replay.rank_in_suit), replay.table@, replay.leader as int,
                pairs, trump, k as int),
            tricks@.len() == k + 1,
            forall|q: int| 0 <= q < tricks@.len() ==> (#[trigger] tricks@[q]).wf(),
            replay.declarer_parity as int == side,
            (hands_of(replay.rank_in_suit), replay.table@, replay.leader as int, replay.banked as int) == state_after(
                h_start, t_start, l_start, 0, pairs, trump, side, k as int),
            forall|q: int| 0 <= q < tricks@.len() ==> entry_ok(
                #[trigger] tricks@[q],
                state_after(h_start, t_start, l_start, 0, pairs, trump, side, q),
                trump,
                side,
            ),
        decreases trace.cards@.len() - k,
    {
        let card = trace.cards[k];
        let suit = dds_suit_from_cb(card.suit) as i32;
        let rank = card.rank as i32;
        let seat = ((replay.leader + replay.table.len() as i32) % 4) as usize;
        let ghost c = pairs[k as int];
        proof {
            assert(c == (suit, rank));
        }
        if replay.rank_in_suit[seat][suit as usize] & BIT_MAP_RANK[rank as usize] == 0 {
            return Err(PlayFaultError { index: k, seat: Seat::from_index(seat), card, kind: PlayFaultKind::NotHeld });
        }
        if replay.table.len() > 0 {
            let led = replay.table[0].0;
            if suit != led && replay.rank_in_suit[seat][led as usize] != 0 {
                return Err(PlayFaultError { index: k, seat: Seat::from_index(seat), card, kind: PlayFaultKind::Revoke });
            }
        }
        let ghost h0 = hands_of(replay.rank_in_suit);
        let ghost tb0 = replay.table@;
        let ghost l0 = replay.leader as int;
        replay.play(suit, rank);
        proof {
            assert(hands_of(replay.rank_in_suit) =~~= hands_after(h0, tb0, l0, c));
            if tb0.push(c).len() == 4 {
                assert(replay.table@ =~= Seq::<(i32, i32)>::empty());
            }
            assert((hands_of(replay.rank_in_suit), replay.table@, replay.leader as int, replay.banked as int)
                == state_after(h_start, t_start, l_start, 0, pairs, trump, side, k + 1));
        }
        let value = replay_value(engine, tt, &replay);
        let ghost before = tricks@;
        tricks.push(TrickCount::new(replay.banked + value));
        proof {
            assert forall|q: int| 0 <= q < tricks@.len() implies entry_ok(
                #[trigger] tricks@[q],
                state_after(h_start, t_start, l_start, 0, pairs, trump, side, q),
                trump,
                side,
            ) by {
                if q < before.len() {
                    assert(tricks@[q] == before[q]);
                }
            }
        }
        k += 1;
    }
    Ok(PlayAnalysis { tricks })
}

/// The double-dummy value of the position of `replay`, `n` cards being
/// left in its hands, as [`dd_value`] says: every card that the seat on
/// turn may play is tried, down to the end of the play.
fn exact_value(replay: &Replay, n: i32) -> (r: u8)
    requires
        replay.wf(),
        0 <= n <= 12,
    ensures
        r == dd_value(
            hands_of(replay.rank_in_suit),
            replay.table@,
            replay.leader as int,
            replay.trump,
            replay.declarer_parity as int,
            n as int,
        ),
        r <= (n + replay.table@.len()) / 4,
    decreases n,
{
    let ghost hands = hands_of(replay.rank_in_suit);
    let ghost tb = replay.table@;
    let ghost ld = replay.leader as int;
    let ghost pr = replay.declarer_parity as int;
    if n <= 0 {
        return 0;
    }
    let seat: usize = ((replay.leader + replay.table.len() as i32) % 4) as usize;
    let maximize = seat as i32 % 2 == replay.declarer_parity;
    let mut found = false;
    let mut best: u8 = 0;
    let mut k: usize = 0;
    while k < 60
        invariant
            k <= 60,
            1 <= n <= 12,
            replay.wf(),
            hands == hands_of(replay.rank_in_suit),
            tb == replay.table@,
            ld == replay.leader as int,
            pr == replay.declarer_parity as int,
            seat as int == on_turn(tb, ld),
            maximize == (on_turn(tb, ld) % 2 == pr),
            (found, best as int) == dd_best(hands, tb, ld, replay.trump, pr, n as int, k as int),
            best <= (n + tb.len()) / 4,
        decreases 60 - k,
    {
        let su: usize = k / 15;
        let rank: i32 = (k % 15) as i32;
        let ghost c = card_of(k as int);
        assert(c == (su as i32, rank));
        let held = rank >= 2 && replay.rank_in_suit[seat][su] & BIT_MAP_RANK[rank as usize] != 0;
        let legal = held && !(replay.table.len() > 0 && su as i32 != replay.table[0].0
            && replay.rank_in_suit[seat][replay.table[0].0 as usize] != 0);
        proof {
            assert(hands[seat as int][su as int] == replay.rank_in_suit[seat as int][su as int]);
            if replay.table@.len() > 0 {
                assert(hands[seat as int][replay.table@[0].0 as int] == replay.rank_in_suit[seat as int][replay.table@[0].0 as int]);
            }
            assert(legal == legal_card(hands, tb, ld, c));
        }
        if legal {
            let mut child = replay.copy();
            child.banked = 0;
            child.play(su as i32, rank);
            proof {
                assert(hands_of(child.rank_in_suit) =~~= hands_after(hands, tb, ld, c));
                if tb.push(c).len() == 4 {
                    assert(child.table@ =~= Seq::<(i32, i32)>::empty());
                }
            }
            let sub = exact_value(&child, n - 1);
            let v: u8 = child.banked + sub;
            proof {
                let t = tb.push(c);
                if t.len() < 4 {
                    assert(child.table@ == t);
                    assert(v == dd_value(hands_after(hands, tb, ld, c), t, ld, replay.trump, pr, n - 1));
                } else {
                    assert(child.leader as int == trick_winner(t, ld, replay.trump));
                }
                assert(v == dd_after(hands, tb, ld, replay.trump, pr, n as int, c));
            }
            if !found || (maximize && v > best) || (!maximize && v < best) {
                best = v;
                found = true;
            }
        }
        proof {
            reveal_with_fuel(dd_best, 2);
        }
        k += 1;
    }
    best
}

/// A position set up from disjoint hands of `c` cards each, with the
/// lengths, unions and packed lengths of the hands, is ready for a search
/// from the lead of a trick at depth `d`.
proof fn lemma_lead_ready(ris: [[u16; 4]; 4], p: Pos, d: int, c: int)
    requires
        1 <= c <= 13,
        d == 4 * c - 4,
        hands_disjoint(ris),
        forall|h: int| 0 <= h < 4 ==> #[trigger] hand_cards(ris, h) == c,
        pos_wf(p),
        p.rank_in_suit == ris,
        forall|s: int| 0 <= s < 4 ==> #[trigger] p.aggr[s] == (ris[0][s] | ris[1][s] | ris[2][s] | ris[3][s]),
        forall|h: int, s: int| 0 <= h < 4 && 0 <= s < 4 ==> #[trigger] p.length[h][s] == popcount(ris[h][s]),
        forall|h: int| 0 <= h < 4 ==> #[trigger] p.hand_dist[h] == 256 * p.length[h][0] + 16 * p.length[h][1]
            + p.length[h][2],
    ensures
        deal_ok(p),
        counts_ok(p, d, 0),
        cards_in_play(p) != 0,
{
    assert forall|h: int, s: int, i: nat|
        0 <= h < 4 && 0 <= s < 4 && i < 16 && #[trigger] bit(p.rank_in_suit[h][s], i) implies bit(p.aggr[s], i) by {
        let a = ris[0][s];
        let b = ris[1][s];
        let c2 = ris[2][s];
        let e = ris[3][s];
        lemma_bit_or(a, b, i);
        lemma_bit_or(a | b, c2, i);
        lemma_bit_or(a | b | c2, e, i);
    }
    assert forall|h1: int, h2: int, s: int, i: nat|
        0 <= h1 < 4 && 0 <= h2 < 4 && h1 != h2 && 0 <= s < 4 && i < 16 && #[trigger] bit(p.rank_in_suit[h1][s], i)
        implies !#[trigger] bit(p.rank_in_suit[h2][s], i) by {
        let lo = if h1 < h2 { h1 } else { h2 };
        let hi = if h1 < h2 { h2 } else { h1 };
        assert((ris[lo][s] & ris[hi][s]) == 0);
        lemma_bit_and(ris[lo][s], ris[hi][s], i);
        lemma_zero_iff_no_bits(ris[lo][s] & ris[hi][s]);
    }
    assert forall|h: int| 0 <= h < 4 implies #[trigger] hand_count(p, h) == c by {
        assert(hand_cards(ris, h) == c);
    }
}

} // verus!
