//! Solving deals: the tricks each declarer takes in each strain.
//!
//! A [`Solver`] is bound to one strain and solves the four declarers of a
//! deal in it, with one search engine and one transposition table reused
//! across calls; [`solve_deal_on`] runs it over the five strains for the
//! whole table.
use vstd::prelude::*;
use crate::bits::{bit, ones_below, popcount, lemma_bit_or};
use crate::bridge::{full_deal_ok, seat_index, FullDeal, Hand, Seat, Strain};
use crate::pos::{pos_wf, Pos};
use crate::quick_tricks::{MAXNODE, MINNODE};
use crate::search::{cards_in_play, counts_ok, deal_ok, hand_count, Engine, SearchStats};
use crate::tricks::{TrickCountRow, TrickCountTable};
use crate::tt::TransTable;

verus! {

/// The search's holding of a hand's holding: rank `r` moves from bit `r`
/// to bit `r - 2`.
pub open spec fn search_bits(x: u16) -> u16 {
    x >> 2u16
}

/// Moving a holding of the thirteen ranks down two bits keeps its cards
/// and makes it a rank set.
pub proof fn lemma_search_bits(x: u16)
    requires
        forall|b: nat| #[trigger] bit(x, b) ==> 2 <= b <= 14,
    ensures
        search_bits(x) < 8192,
        popcount(search_bits(x)) == popcount(x),
        forall|i: nat| i < 16 ==> #[trigger] bit(search_bits(x), i) == (i < 14 && bit(x, i + 2)),
{
    let y = x >> 2u16;
    assert(!bit(x, 15) && !bit(x, 0) && !bit(x, 1));
    assert((x >> 15u16) & 1u16 != 1u16 ==> (y < 8192 && (y >> 14u16) & 1u16 != 1u16 && (y >> 15u16) & 1u16
        != 1u16)) by (bit_vector)
        requires
            y == x >> 2u16,
    ;
    assert forall|i: nat| i < 14 implies #[trigger] bit(y, i) == bit(x, i + 2) by {
        let k = i as u16;
        assert(((x >> 2u16) >> k) & 1u16 == (x >> (k + 2u16)) & 1u16) by (bit_vector)
            requires
                k < 14,
        ;
    }
    lemma_ones_shift(x, 14);
    assert(ones_below(x, 2) == 0) by {
        reveal_with_fuel(ones_below, 3);
    }
    assert(ones_below(y, 16) == ones_below(y, 14)) by {
        reveal_with_fuel(ones_below, 3);
    }
}

/// Counting the bits of `x >> 2` below `n` counts those of `x` from 2 to
/// `n + 2`.
proof fn lemma_ones_shift(x: u16, n: nat)
    requires
        n <= 14,
        forall|i: nat| i < 14 ==> #[trigger] bit(x >> 2u16, i) == bit(x, i + 2),
    ensures
        ones_below(x >> 2u16, n) + ones_below(x, 2) == ones_below(x, n + 2),
    decreases n,
{
    if n > 0 {
        lemma_ones_shift(x, (n - 1) as nat);
        assert(bit(x >> 2u16, (n - 1) as nat) == bit(x, (n + 1) as nat));
    }
}

/// The cards of `deal` as a position: hand by seat number, suit by the
/// search's number (spades 0 … clubs 3), rank `r` at bit `r - 2`; all else
/// zero.
pub fn pos_from_deal(deal: &FullDeal) -> (pos: Pos)
    ensures
        forall|h: int, s: int| 0 <= h < 4 && 0 <= s < 4 ==> #[trigger] pos.rank_in_suit[h][s] == search_bits(
            deal.hands()[h].0[3 - s],
        ),
        pos.tricks_max == 0,
        pos_wf(pos) <== deal.wf(),
{
    let mut pos = Pos::zero();
    let mut h: usize = 0;
    while h < 4
        invariant
            h <= 4,
            pos.tricks_max == 0,
            forall|h2: int, s: int| 0 <= h2 < h && 0 <= s < 4 ==> #[trigger] pos.rank_in_suit[h2][s] == search_bits(
                deal.hands()[h2].0[3 - s],
            ),
            forall|h2: int, s: int| h <= h2 < 4 && 0 <= s < 4 ==> #[trigger] pos.rank_in_suit[h2][s] == 0,
            forall|h2: int, s: int| 0 <= h2 < 4 && 0 <= s < 4 ==> #[trigger] pos.length[h2][s] == 0,
            forall|s: int| 0 <= s < 4 ==> #[trigger] pos.aggr[s] == 0,
            forall|d: int| 0 <= d < 50 ==> 0 <= #[trigger] pos.first[d] <= 3,
            forall|d: int, s: int| 0 <= d < 50 && 0 <= s < 4 ==> #[trigger] pos.win_ranks[d][s] < 8192,
            forall|s: int| 0 <= s < 4 ==> #[trigger] crate::pos::high_card_wf(pos.winner[s]),
            forall|s: int| 0 <= s < 4 ==> #[trigger] crate::pos::high_card_wf(pos.second_best[s]),
        decreases 4 - h,
    {
        let hand = deal.hand(Seat::from_index(h));
        let mut row = [0u16; 4];
        let mut s: usize = 0;
        while s < 4
            invariant
                s <= 4,
                h < 4,
                hand == deal.hands()[h as int],
                forall|s2: int| 0 <= s2 < s ==> #[trigger] row[s2] == search_bits(deal.hands()[h as int].0[3 - s2]),
                forall|s2: int| s <= s2 < 4 ==> #[trigger] row[s2] == 0,
            decreases 4 - s,
        {
            row[s] = hand.0[3 - s] >> 2;
            s += 1;
        }
        pos.rank_in_suit[h] = row;
        h += 1;
    }
    proof {
        if deal.wf() {
            assert forall|h: int, s: int| 0 <= h < 4 && 0 <= s < 4 implies #[trigger] pos.rank_in_suit[h][s] < 8192 by {
                assert(deal.hands()[h].valid());
                lemma_search_bits(deal.hands()[h].0[3 - s]);
            }
        }
    }
    pos
}

/// After the search has read a full deal's position, the position is as
/// the search keeps it, with thirteen cards in every hand.
pub proof fn lemma_full_deal_ready(deal: FullDeal, p0: Pos, p: Pos)
    requires
        deal.wf(),
        forall|h: int, s: int| 0 <= h < 4 && 0 <= s < 4 ==> #[trigger] p0.rank_in_suit[h][s] == search_bits(
            deal.hands()[h].0[3 - s],
        ),
        pos_wf(p),
        p.rank_in_suit == p0.rank_in_suit,
        forall|s: int| 0 <= s < 4 ==> #[trigger] p.aggr[s] == (p0.rank_in_suit[0][s] | p0.rank_in_suit[1][s]
            | p0.rank_in_suit[2][s] | p0.rank_in_suit[3][s]),
        forall|h: int, s: int| 0 <= h < 4 && 0 <= s < 4 ==> #[trigger] p.length[h][s] == popcount(p0.rank_in_suit[h][s]),
        forall|h: int| 0 <= h < 4 ==> #[trigger] p.hand_dist[h] == 256 * p.length[h][0] + 16 * p.length[h][1]
            + p.length[h][2],
        0 <= p.first[48] < 4,
    ensures
        deal_ok(p),
        counts_ok(p, 48, 0),
        cards_in_play(p) != 0,
{
    let hs = deal.hands();
    assert forall|h: int, s: int| 0 <= h < 4 && 0 <= s < 4 implies #[trigger] popcount(p.rank_in_suit[h][s])
        == popcount(hs[h].0[3 - s]) && forall|i: nat| i < 16 ==> #[trigger] bit(p.rank_in_suit[h][s], i) == (i < 14
        && bit(hs[h].0[3 - s], i + 2)) by {
        assert(hs[h].valid());
        lemma_search_bits(hs[h].0[3 - s]);
    }
    assert forall|h: int, s: int, i: nat|
        0 <= h < 4 && 0 <= s < 4 && i < 16 && #[trigger] bit(p.rank_in_suit[h][s], i) implies bit(p.aggr[s], i) by {
        let a = p0.rank_in_suit[0][s];
        let b = p0.rank_in_suit[1][s];
        let c = p0.rank_in_suit[2][s];
        let d = p0.rank_in_suit[3][s];
        lemma_bit_or(a, b, i);
        lemma_bit_or(a | b, c, i);
        lemma_bit_or(a | b | c, d, i);
    }
    assert forall|h1: int, h2: int, s: int, i: nat|
        0 <= h1 < 4 && 0 <= h2 < 4 && h1 != h2 && 0 <= s < 4 && i < 16 && #[trigger] bit(p.rank_in_suit[h1][s], i)
        implies !#[trigger] bit(p.rank_in_suit[h2][s], i) by {
        assert(hs[h1].valid());
        assert(hs[h2].valid());
        lemma_search_bits(hs[h1].0[3 - s]);
        lemma_search_bits(hs[h2].0[3 - s]);
        let lo = if h1 < h2 { h1 } else { h2 };
        let hi = if h1 < h2 { h2 } else { h1 };
        assert(hs[lo].0[3 - s] & hs[hi].0[3 - s] == 0);
        if i < 14 {
            crate::bits::lemma_bit_and(hs[lo].0[3 - s], hs[hi].0[3 - s], i + 2);
            crate::bits::lemma_zero_iff_no_bits(hs[lo].0[3 - s] & hs[hi].0[3 - s]);
        }
    }
    assert forall|h: int| 0 <= h < 4 implies #[trigger] hand_count(p, h) == 13 by {
        assert(hs[h].len() == 13);
    }
}

/// Per-strain solver: a search engine and a transposition table, reused
/// across the deals it solves.
pub struct Solver {
    engine: Engine,
    tt: TransTable,
}

impl Solver {
    /// Well-formedness: the engine and the table are well formed.
    pub closed spec fn wf(&self) -> bool {
        self.engine.wf() && self.tt.wf()
    }

    /// The engine's trump number.
    pub closed spec fn trump_spec(&self) -> i32 {
        self.engine.trump_spec()
    }

    /// A solver for `strain` with the default table memory.
    pub fn new(strain: Strain) -> (r: Solver)
        ensures
            r.wf(),
            r.trump_spec() == crate::convert::trump_number(strain),
    {
        Solver { engine: Engine::new(strain), tt: TransTable::new() }
    }

    /// A solver for `strain` whose table keeps `default_mb` MiB across
    /// resets and is reset when it would pass `max_mb` MiB.
    pub fn with_memory(strain: Strain, default_mb: u32, max_mb: u32) -> (r: Solver)
        ensures
            r.wf(),
            r.trump_spec() == crate::convert::trump_number(strain),
    {
        Solver { engine: Engine::new(strain), tt: TransTable::with_memory(default_mb, max_mb) }
    }

    /// Solve in `strain` from now on.
    pub fn set_strain(&mut self, strain: Strain)
        requires
            old(self).wf(),
        ensures
            final(self).wf(),
            final(self).trump_spec() == crate::convert::trump_number(strain),
    {
        self.engine.set_strain(strain);
    }

    /// The tricks each declarer takes in the solver's strain on `deal`,
    /// by seat: the opening lead is the declarer's left-hand opponent's,
    /// the declaring side the MAX side. Every count is at most thirteen.
    pub fn solve(&mut self, deal: FullDeal) -> (r: TrickCountRow)
        requires
            old(self).wf(),
            deal.wf(),
        ensures
            final(self).wf(),
            final(self).trump_spec() == old(self).trump_spec(),
            r.wf(),
    {
        let ini_depth: i32 = 48;
        self.tt.reset();
        let base_pos = pos_from_deal(&deal);
        let mut row = [0u8; 4];
        let mut seat_idx: usize = 0;
        while seat_idx < 4
            invariant
                seat_idx <= 4,
                ini_depth == 48,
                deal.wf(),
                pos_wf(base_pos),
                forall|h: int, s: int| 0 <= h < 4 && 0 <= s < 4 ==> #[trigger] base_pos.rank_in_suit[h][s] == search_bits(
                    deal.hands()[h].0[3 - s],
                ),
                self.wf(),
                self.trump_spec() == old(self).trump_spec(),
                forall|k: int| 0 <= k < 4 ==> #[trigger] row[k] <= 13,
            decreases 4 - seat_idx,
        {
            let declarer = Seat::from_index(seat_idx);
            let leader = declarer.lho().index();
            let node_types = if seat_idx % 2 == 0 {
                [MAXNODE, MINNODE, MAXNODE, MINNODE]
            } else {
                [MINNODE, MAXNODE, MINNODE, MAXNODE]
            };
            self.engine.set_node_types(node_types);
            let mut pos = base_pos;
            pos.first[48] = leader as i32;
            self.engine.set_deal(&mut pos, &mut self.tt);
            proof {
                lemma_full_deal_ready(deal, base_pos, pos);
            }
            let tricks = self.engine.search_target(&mut pos, &mut self.tt, ini_depth);
            row[seat_idx] = tricks as u8;
            seat_idx += 1;
        }
        TrickCountRow::new(row[0], row[1], row[2], row[3])
    }

    /// The counts of searches for a trick target and of the probes they
    /// made, since the solver was made or the counts were reset.
    pub fn bisection_stats(&self) -> (r: (u64, u64))
        ensures
            r == self.bisection_stats_spec(),
    {
        self.engine.bisection_counts()
    }

    /// Set the counts of [`Solver::bisection_stats`] to zero.
    pub fn reset_bisection_stats(&mut self)
        requires
            old(self).wf(),
        ensures
            final(self).wf(),
            final(self).trump_spec() == old(self).trump_spec(),
            final(self).bisection_stats_spec() == (0u64, 0u64),
            final(self).search_stats_spec() == old(self).search_stats_spec(),
            final(self).table_spec() == old(self).table_spec(),
            final(self).engine_spec() == old(self).engine_spec().with_counts((0u64, 0u64)),
    {
        self.engine.reset_bisection_counts();
    }

    /// The transposition table of the solver.
    pub closed spec fn table_spec(&self) -> TransTable {
        self.tt
    }

    /// The search engine of the solver, with its per-deal tables.
    pub closed spec fn engine_spec(&self) -> Engine {
        self.engine
    }

    /// The counts of [`Solver::bisection_stats`].
    pub closed spec fn bisection_stats_spec(&self) -> (u64, u64) {
        self.engine.counts_spec()
    }

    /// The per-node counters of the engine.
    pub closed spec fn search_stats_spec(&self) -> SearchStats {
        self.engine.stats_spec()
    }

    /// The time spent in the first probe of each search for a trick target
    /// and in the later ones; no clock is read, so both stay zero.
    pub fn bisection_timing(&self) -> (r: (u128, u128))
        ensures
            r == (0u128, 0u128),
    {
        (0u128, 0u128)
    }

    /// The per-node counters of the engine; nothing counts them, so they
    /// stay as they were made.
    pub fn search_stats(&self) -> (r: SearchStats)
        ensures
            r == self.search_stats_spec(),
    {
        self.engine.search_stats()
    }

    /// Set the per-node counters to zero.
    pub fn reset_search_stats(&mut self)
        requires
            old(self).wf(),
        ensures
            final(self).wf(),
            final(self).trump_spec() == old(self).trump_spec(),
            final(self).search_stats_spec().is_zero(),
            final(self).bisection_stats_spec() == old(self).bisection_stats_spec(),
            final(self).table_spec() == old(self).table_spec(),
            final(self).engine_spec() == old(self).engine_spec().with_stats(final(self).search_stats_spec()),
    {
        self.engine.reset_search_stats();
    }
}

impl Default for Solver {
    fn default() -> (r: Solver)
        ensures
            r.wf(),
    {
        Solver::new(Strain::Notrump)
    }
}

/// The full table of `deal` on `solver`: the tricks of each declarer in
/// each strain, strains in ascending order, each solved in turn.
pub fn solve_deal_on(solver: &mut Solver, deal: FullDeal) -> (r: TrickCountTable)
    requires
        old(solver).wf(),
        deal.wf(),
    ensures
        final(solver).wf(),
        r.wf(),
{
    let mut rows: [TrickCountRow; 5] = [TrickCountRow::new(0, 0, 0, 0); 5];
    let mut i: usize = 0;
    while i < 5
        invariant
            i <= 5,
            deal.wf(),
            solver.wf(),
            forall|k: int| 0 <= k < 5 ==> (#[trigger] rows[k]).wf(),
        decreases 5 - i,
    {
        solver.set_strain(Strain::from_index(i));
        rows[i] = solver.solve(deal);
        i += 1;
    }
    TrickCountTable(rows)
}

} // verus!
