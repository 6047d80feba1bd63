//! Sure-tricks pruning before the search of a lead or a second hand.
//!
//! [`quick_tricks`] counts the tricks that the side to lead can take at
//! once (top winners, long cards nobody else holds, ruffs, crossing to
//! partner's winners) and stops as soon as the count reaches what the
//! search needs; [`quick_tricks_second_hand`] does the same for the side
//! of the second hand once the first card of a trick is down. Both record
//! in the position's `win_ranks` the ranks that the count relies on.
use vstd::prelude::*;
use crate::lookup::{has_rank, highest_rank, rank_in, BIT_MAP_RANK};
use crate::moves::RelRanks;
use crate::pos::{pos_wf, same_but_win_row, Pos};
use crate::bits::popcount;

verus! {

/// Node type of a hand on the MAX side.
pub const MAXNODE: i32 = 1;

/// Node type of a hand on the MIN side.
pub const MINNODE: i32 = 0;

/// The trump value that stands for notrump.
pub const DDS_NOTRUMP: i32 = 4;

/// The tricks the side of `hand` needs from here for the search to stop:
/// for MAX the tricks still missing to `target`, for MIN those that keep
/// MAX below it.
pub open spec fn qt_cutoff(nts: [i32; 4], hand: int, target: int, tricks_max: int, depth: int) -> int {
    if nts[hand] == MAXNODE {
        target - tricks_max
    } else {
        tricks_max - target + depth / 4 + 2
    }
}

/// The other formula, used when no quick trick was found.
pub open spec fn qt_cutoff_flipped(nts: [i32; 4], hand: int, target: int, tricks_max: int, depth: int) -> int {
    if nts[hand] == MAXNODE {
        tricks_max - target + depth / 4 + 2
    } else {
        target - tricks_max
    }
}

/// What the quick-trick functions need of their arguments.
pub open spec fn qt_args_ok(p: Pos, hand: int, depth: int, target: int, trump: int) -> bool {
    &&& pos_wf(p)
    &&& 0 <= hand < 4
    &&& 0 <= depth < 50
    &&& i32::MIN + 64 <= target
    &&& 0 <= trump <= 4
}

/// The hand that holds the top card of a suit holds at least one card of
/// it.
pub open spec fn winners_held(p: Pos) -> bool {
    forall|s: int| 0 <= s < 4 && 0 <= p.winner[s].hand < 4 ==> p.length[p.winner[s].hand as int][s] >= 1
}

/// A table of card holders whose entries can index the rank tables.
pub open spec fn rel_ok(rel: Seq<RelRanks>) -> bool {
    &&& rel.len() >= 8192
    &&& forall|a: int, k: int, s: int|
        0 <= a < rel.len() && 0 <= k < 15 && 0 <= s < 4 ==> 0 <= (#[trigger] rel[a].abs_rank[k][s]).rank <= 14
            && -1 <= rel[a].abs_rank[k][s].hand <= 3
}

/// The suit after `suit` in the order of the quick-trick walk: the trump
/// suit first, then the others upwards.
pub open spec fn next_suit_spec(suit: int, trump: int) -> int {
    if trump != DDS_NOTRUMP && suit == trump {
        if trump == 0 {
            1
        } else {
            0
        }
    } else if trump != DDS_NOTRUMP && suit + 1 == trump {
        suit + 2
    } else {
        suit + 1
    }
}

/// How far the walk still has to go from `suit`.
pub open spec fn suit_measure(suit: int, trump: int) -> int {
    if trump != DDS_NOTRUMP && suit == trump {
        5
    } else {
        4 - suit
    }
}

/// The next suit of the walk.
fn next_suit(suit: i32, trump: i32) -> (r: i32)
    requires
        0 <= suit <= 3,
        0 <= trump <= 4,
    ensures
        r == next_suit_spec(suit as int, trump as int),
        r > 3 || suit_measure(r as int, trump as int) < suit_measure(suit as int, trump as int),
        0 <= r <= 5,
{
    if trump != DDS_NOTRUMP && suit == trump {
        if trump == 0 {
            1
        } else {
            0
        }
    } else if trump != DDS_NOTRUMP && suit + 1 == trump {
        suit + 2
    } else {
        suit + 1
    }
}

/// Add the bit of rank `r` to row `depth` of the position's `win_ranks`
/// in suit `s`.
fn add_win_rank(tpos: &mut Pos, depth: usize, s: usize, r: i32)
    requires
        pos_wf(*old(tpos)),
        depth < 50,
        s < 4,
        0 <= r <= 14,
    ensures
        pos_wf(*final(tpos)),
        same_but_win_row(*old(tpos), *final(tpos), depth as int),
        final(tpos).win_ranks[depth as int]@ == old(tpos).win_ranks[depth as int]@.update(
            s as int,
            old(tpos).win_ranks[depth as int][s as int] | BIT_MAP_RANK[r as int],
        ),
{
    let mut row = tpos.win_ranks[depth];
    proof {
        crate::search::lemma_bits_stay_small(row[s as int], BIT_MAP_RANK[r as int]);
    }
    row[s] = row[s] | BIT_MAP_RANK[r as usize];
    tpos.win_ranks[depth] = row;
}

/// The highest rank of `a`, 0 if it is empty.
pub(crate) fn highest_of(a: u16) -> (r: i32)
    ensures
        r == highest_rank(a),
        0 <= r <= 14,
{
    proof {
        crate::lookup::lemma_lowest_rank_bound(a);
    }
    let mut r: usize = 14;
    while r >= 2
        invariant
            1 <= r <= 14,
            crate::lookup::highest_at_most(a, 14) == crate::lookup::highest_at_most(a, r as int),
        decreases r,
    {
        if rank_in(a, r) {
            return r as i32;
        }
        r -= 1;
    }
    0
}

/// The larger of `a` and `b`.
fn max_i32(a: i32, b: i32) -> (r: i32)
    ensures
        r == if a > b { a } else { b },
{
    if a > b { a } else { b }
}

/// Quick tricks of the leader holding the top card of side suit `suit` in
/// a trump contract. `res` tells the caller to go on with the same suit
/// (0), that the count reached `cutoff` (1), or to go on with the next
/// suit (2).
fn qtricks_lead_hand_trump(
    tpos: &mut Pos,
    cutoff: i32,
    depth: i32,
    count_lho: i32,
    count_rho: i32,
    lho_trump_ranks: i32,
    rho_trump_ranks: i32,
    count_own: i32,
    count_part: i32,
    suit: i32,
    qtricks: i32,
    res: &mut i32,
    hand: i32,
) -> (r: i32)
    requires
        pos_wf(*old(tpos)),
        0 <= depth < 50,
        0 <= suit < 4,
        0 <= hand < 4,
        0 <= count_lho <= 13,
        0 <= count_rho <= 13,
        0 <= count_own <= 13,
        0 <= count_part <= 13,
        -1000 <= qtricks <= 1000,
    ensures
        pos_wf(*final(tpos)),
        same_but_win_row(*old(tpos), *final(tpos), depth as int),
        qtricks - 30 <= r <= qtricks + 30,
        count_own >= 1 ==> r >= qtricks,
        0 <= *final(res) <= 2,
        *final(res) == 1 ==> r >= cutoff,
        qtricks < cutoff && *final(res) != 1 ==> r < cutoff,
{
    *res = 1;
    let su = suit as usize;
    let du = depth as usize;
    let hu = hand as usize;
    let mut qt = qtricks;
    if (count_lho != 0 || lho_trump_ranks == 0) && (count_rho != 0 || rho_trump_ranks == 0) {
        proof { assert(crate::pos::high_card_wf(tpos.winner[su as int])); }
    let wr = tpos.winner[su].rank;
        add_win_rank(tpos, du, su, wr);
        qt += 1;
        if qt >= cutoff {
            return qt;
        }
        if count_lho <= 1 && count_rho <= 1 && count_part <= 1 && lho_trump_ranks == 0 && rho_trump_ranks == 0 {
            qt += count_own - 1;
            if qt >= cutoff {
                return qt;
            }
            *res = 2;
            return qt;
        }
    }
    proof { assert(crate::pos::high_card_wf(tpos.second_best[su as int])); }
    let sb = tpos.second_best[su];
    if sb.hand == hand {
        if lho_trump_ranks == 0 && rho_trump_ranks == 0 {
            add_win_rank(tpos, du, su, sb.rank);
            qt += 1;
            if qt >= cutoff {
                return qt;
            }
            if count_lho <= 2 && count_rho <= 2 && count_part <= 2 {
                qt += count_own - 2;
                if qt >= cutoff {
                    return qt;
                }
                *res = 2;
                return qt;
            }
        }
    } else if sb.hand == ((hu + 2) % 4) as i32 && count_own > 1 && count_part > 1 {
        if lho_trump_ranks == 0 && rho_trump_ranks == 0 {
            add_win_rank(tpos, du, su, sb.rank);
            qt += 1;
            if qt >= cutoff {
                return qt;
            }
            if count_lho <= 2 && count_rho <= 2 && (count_part <= 2 || count_own <= 2) {
                qt += max_i32(count_own - 2, count_part - 2);
                if qt >= cutoff {
                    return qt;
                }
                *res = 2;
                return qt;
            }
        }
    }
    *res = 0;
    qt
}

/// Quick tricks of the leader holding the top card of `suit` in notrump,
/// or of the trump suit; cashing trumps draws the opponents' trumps
/// (`lho_trump_ranks`, `rho_trump_ranks`) unless the suit is the one that
/// reaches partner. `res` as for [`qtricks_lead_hand_trump`].
fn qtricks_lead_hand_nt(
    tpos: &mut Pos,
    cutoff: i32,
    depth: i32,
    count_lho: i32,
    count_rho: i32,
    lho_trump_ranks: &mut i32,
    rho_trump_ranks: &mut i32,
    comm_partner: bool,
    comm_suit: i32,
    count_own: i32,
    count_part: i32,
    suit: i32,
    qtricks: i32,
    trump: i32,
    res: &mut i32,
    hand: i32,
) -> (r: i32)
    requires
        pos_wf(*old(tpos)),
        0 <= depth < 50,
        0 <= suit < 4,
        0 <= hand < 4,
        0 <= count_lho <= 13,
        0 <= count_rho <= 13,
        0 <= count_own <= 13,
        0 <= count_part <= 13,
        -1000 <= qtricks <= 1000,
        0 <= *old(lho_trump_ranks) <= 13,
        0 <= *old(rho_trump_ranks) <= 13,
    ensures
        pos_wf(*final(tpos)),
        same_but_win_row(*old(tpos), *final(tpos), depth as int),
        qtricks - 30 <= r <= qtricks + 30,
        count_own >= 1 ==> r >= qtricks,
        0 <= *final(res) <= 2,
        *final(res) == 1 ==> r >= cutoff,
        qtricks < cutoff && *final(res) != 1 ==> r < cutoff,
        0 <= *final(lho_trump_ranks) <= 13,
        0 <= *final(rho_trump_ranks) <= 13,
{
    *res = 1;
    let su = suit as usize;
    let du = depth as usize;
    let hu = hand as usize;
    let mut qt = qtricks;
    proof { assert(crate::pos::high_card_wf(tpos.winner[su as int])); }
    let wr = tpos.winner[su].rank;
    add_win_rank(tpos, du, su, wr);
    qt += 1;
    if qt >= cutoff {
        return qt;
    }
    if trump == suit && (!comm_partner || suit != comm_suit) {
        *lho_trump_ranks = max_i32(*lho_trump_ranks - 1, 0);
        *rho_trump_ranks = max_i32(*rho_trump_ranks - 1, 0);
    }
    if count_lho <= 1 && count_rho <= 1 && count_part <= 1 {
        qt += count_own - 1;
        if qt >= cutoff {
            return qt;
        }
        *res = 2;
        return qt;
    }
    proof { assert(crate::pos::high_card_wf(tpos.second_best[su as int])); }
    let sb = tpos.second_best[su];
    if sb.hand == hand {
        add_win_rank(tpos, du, su, sb.rank);
        qt += 1;
        if qt >= cutoff {
            return qt;
        }
        if trump == suit && (!comm_partner || suit != comm_suit) {
            *lho_trump_ranks = max_i32(*lho_trump_ranks - 1, 0);
            *rho_trump_ranks = max_i32(*rho_trump_ranks - 1, 0);
        }
        if count_lho <= 2 && count_rho <= 2 && count_part <= 2 {
            qt += count_own - 2;
            if qt >= cutoff {
                return qt;
            }
            *res = 2;
            return qt;
        }
    } else if sb.hand == ((hu + 2) % 4) as i32 && count_own > 1 && count_part > 1 {
        add_win_rank(tpos, du, su, sb.rank);
        qt += 1;
        if qt >= cutoff {
            return qt;
        }
        if trump == suit && (!comm_partner || suit != comm_suit) {
            *lho_trump_ranks = max_i32(*lho_trump_ranks - 1, 0);
            *rho_trump_ranks = max_i32(*rho_trump_ranks - 1, 0);
        }
        if count_lho <= 2 && count_rho <= 2 && (count_part <= 2 || count_own <= 2) {
            qt += max_i32(count_own - 2, count_part - 2);
            if qt >= cutoff {
                return qt;
            }
            *res = 2;
            return qt;
        }
    }
    *res = 0;
    qt
}

/// Quick tricks when partner holds the top card of side suit `suit` in a
/// trump contract and the leader can reach partner in `comm_suit` with
/// the card of rank `comm_rank`. `res` as for [`qtricks_lead_hand_trump`].
fn quick_tricks_partner_hand_trump(
    tpos: &mut Pos,
    cutoff: i32,
    depth: i32,
    count_lho: i32,
    count_rho: i32,
    lho_trump_ranks: i32,
    rho_trump_ranks: i32,
    count_own: i32,
    count_part: i32,
    suit: i32,
    qtricks: i32,
    comm_suit: i32,
    comm_rank: i32,
    res: &mut i32,
    hand: i32,
    rel: &[RelRanks],
) -> (r: i32)
    requires
        pos_wf(*old(tpos)),
        0 <= depth < 50,
        0 <= suit < 4,
        0 <= hand < 4,
        0 <= count_lho <= 13,
        0 <= count_rho <= 13,
        0 <= count_own <= 13,
        0 <= count_part <= 13,
        -1000 <= qtricks <= 1000,
        0 <= comm_suit < 4,
        0 <= comm_rank <= 14,
        rel_ok(rel@),
    ensures
        pos_wf(*final(tpos)),
        same_but_win_row(*old(tpos), *final(tpos), depth as int),
        qtricks - 30 <= r <= qtricks + 30,
        count_part >= 1 ==> r >= qtricks,
        0 <= *final(res) <= 2,
        *final(res) == 1 ==> r >= cutoff,
        qtricks < cutoff && *final(res) != 1 ==> r < cutoff,
{
    *res = 1;
    let su = suit as usize;
    let du = depth as usize;
    let hu = hand as usize;
    let cs = comm_suit as usize;
    let mut qt = qtricks;
    if (count_lho != 0 || lho_trump_ranks == 0) && (count_rho != 0 || rho_trump_ranks == 0) {
        proof { assert(crate::pos::high_card_wf(tpos.winner[su as int])); }
    let wr = tpos.winner[su].rank;
        add_win_rank(tpos, du, su, wr);
        add_win_rank(tpos, du, cs, comm_rank);
        qt += 1;
        if qt >= cutoff {
            return qt;
        }
        if count_lho <= 1 && count_rho <= 1 && count_own <= 1 && lho_trump_ranks == 0 && rho_trump_ranks == 0 {
            qt += count_part - 1;
            if qt >= cutoff {
                return qt;
            }
            *res = 2;
            return qt;
        }
    }
    proof { assert(crate::pos::high_card_wf(tpos.second_best[su as int])); }
    let sb = tpos.second_best[su];
    if sb.hand == ((hu + 2) % 4) as i32 {
        if lho_trump_ranks == 0 && rho_trump_ranks == 0 {
            add_win_rank(tpos, du, su, sb.rank);
            add_win_rank(tpos, du, cs, comm_rank);
            qt += 1;
            if qt >= cutoff {
                return qt;
            }
            if count_lho <= 2 && count_rho <= 2 && count_own <= 2 {
                qt += count_part - 2;
                if qt >= cutoff {
                    return qt;
                }
                *res = 2;
                return qt;
            }
        }
    } else if sb.hand == hand && count_part > 1 && count_own > 1 {
        if lho_trump_ranks == 0 && rho_trump_ranks == 0 {
            add_win_rank(tpos, du, su, sb.rank);
            add_win_rank(tpos, du, cs, comm_rank);
            qt += 1;
            if qt >= cutoff {
                return qt;
            }
            if count_lho <= 2 && count_rho <= 2 && (count_own <= 2 || count_part <= 2) {
                qt += max_i32(count_part - 2, count_own - 2);
                if qt >= cutoff {
                    return qt;
                }
                *res = 2;
                return qt;
            }
        }
    } else if suit == comm_suit && sb.hand == ((hu + 1) % 4) as i32 && (count_lho >= 2 || lho_trump_ranks == 0)
        && (count_rho >= 2 || rho_trump_ranks == 0)
    {
        let ranks = tpos.aggr[su];
        let third = rel[ranks as usize].abs_rank[3][su];
        if third.hand as i32 == ((hu + 2) % 4) as i32 {
            add_win_rank(tpos, du, su, third.rank as i32);
            add_win_rank(tpos, du, cs, comm_rank);
            qt += 1;
            if qt >= cutoff {
                return qt;
            }
            if count_own <= 2 && count_lho <= 2 && count_rho <= 2 && lho_trump_ranks == 0 && rho_trump_ranks == 0 {
                qt += count_part - 2;
                if qt >= cutoff {
                    return qt;
                }
            }
        }
    }
    *res = 0;
    qt
}

/// Quick tricks when partner holds the top card of `suit` in notrump (or
/// of trumps) and the leader can reach partner in `comm_suit`. `res` as
/// for [`qtricks_lead_hand_trump`].
fn quick_tricks_partner_hand_nt(
    tpos: &mut Pos,
    cutoff: i32,
    depth: i32,
    count_lho: i32,
    count_rho: i32,
    count_own: i32,
    count_part: i32,
    suit: i32,
    qtricks: i32,
    comm_suit: i32,
    comm_rank: i32,
    res: &mut i32,
    hand: i32,
    rel: &[RelRanks],
) -> (r: i32)
    requires
        pos_wf(*old(tpos)),
        0 <= depth < 50,
        0 <= suit < 4,
        0 <= hand < 4,
        0 <= count_lho <= 13,
        0 <= count_rho <= 13,
        0 <= count_own <= 13,
        0 <= count_part <= 13,
        -1000 <= qtricks <= 1000,
        0 <= comm_suit < 4,
        0 <= comm_rank <= 14,
        rel_ok(rel@),
    ensures
        pos_wf(*final(tpos)),
        same_but_win_row(*old(tpos), *final(tpos), depth as int),
        qtricks - 30 <= r <= qtricks + 30,
        count_part >= 1 ==> r >= qtricks,
        0 <= *final(res) <= 2,
        *final(res) == 1 ==> r >= cutoff,
        qtricks < cutoff && *final(res) != 1 ==> r < cutoff,
{
    *res = 1;
    let su = suit as usize;
    let du = depth as usize;
    let hu = hand as usize;
    let cs = comm_suit as usize;
    let mut qt = qtricks;
    proof { assert(crate::pos::high_card_wf(tpos.winner[su as int])); }
    let wr = tpos.winner[su].rank;
    add_win_rank(tpos, du, su, wr);
    add_win_rank(tpos, du, cs, comm_rank);
    qt += 1;
    if qt >= cutoff {
        return qt;
    }
    if count_lho <= 1 && count_rho <= 1 && count_own <= 1 {
        qt += count_part - 1;
        if qt >= cutoff {
            return qt;
        }
        *res = 2;
        return qt;
    }
    proof { assert(crate::pos::high_card_wf(tpos.second_best[su as int])); }
    let sb = tpos.second_best[su];
    if sb.hand == ((hu + 2) % 4) as i32 {
        add_win_rank(tpos, du, su, sb.rank);
        qt += 1;
        if qt >= cutoff {
            return qt;
        }
        if count_lho <= 2 && count_rho <= 2 && count_own <= 2 {
            qt += count_part - 2;
            if qt >= cutoff {
                return qt;
            }
            *res = 2;
            return qt;
        }
    } else if sb.hand == hand && count_part > 1 && count_own > 1 {
        add_win_rank(tpos, du, su, sb.rank);
        qt += 1;
        if qt >= cutoff {
            return qt;
        }
        if count_lho <= 2 && count_rho <= 2 && (count_own <= 2 || count_part <= 2) {
            qt += max_i32(count_part - 2, count_own - 2);
            if qt >= cutoff {
                return qt;
            }
            *res = 2;
            return qt;
        }
    } else if suit == comm_suit && sb.hand == ((hu + 1) % 4) as i32 {
        let ranks = tpos.aggr[su];
        let third = rel[ranks as usize].abs_rank[3][su];
        if third.hand as i32 == ((hu + 2) % 4) as i32 {
            add_win_rank(tpos, du, su, third.rank as i32);
            qt += 1;
            if qt >= cutoff {
                return qt;
            }
            if count_own <= 2 && count_lho <= 2 && count_rho <= 2 {
                qt += count_part - 2;
                if qt >= cutoff {
                    return qt;
                }
            }
        }
    }
    *res = 0;
    qt
}


/// Write the single bit of rank `r` as row `depth`, suit `s` of the
/// position's `win_ranks`.
fn set_win_rank(tpos: &mut Pos, depth: usize, s: usize, r: i32)
    requires
        pos_wf(*old(tpos)),
        depth < 50,
        s < 4,
        0 <= r <= 14,
    ensures
        pos_wf(*final(tpos)),
        same_but_win_row(*old(tpos), *final(tpos), depth as int),
        final(tpos).win_ranks[depth as int]@ == old(tpos).win_ranks[depth as int]@.update(s as int, BIT_MAP_RANK[r as int]),
{
    let mut row = tpos.win_ranks[depth];
    row[s] = BIT_MAP_RANK[r as usize];
    tpos.win_ranks[depth] = row;
}

/// The smaller of `a` and `b`.
fn min_i32(a: i32, b: i32) -> (r: i32)
    ensures
        r == if a < b { a } else { b },
{
    if a < b { a } else { b }
}

/// Whether `from` holds a card of a side suit (not `trump`) in which `to`
/// is void: a suit in which `to` can ruff a lead of `from`.
pub open spec fn ruff_entry(p: Pos, from: int, to: int, trump: int) -> bool {
    exists|s: int| 0 <= s < 4 && s != trump && p.length[from][s] > 0 && #[trigger] p.length[to][s] == 0
}

/// Decide [`ruff_entry`].
fn has_ruff_entry(tpos: &Pos, from: usize, to: usize, trump: i32) -> (r: bool)
    requires
        from < 4,
        to < 4,
    ensures
        r == ruff_entry(*tpos, from as int, to as int, trump as int),
{
    let mut s: usize = 0;
    while s < 4
        invariant
            s <= 4,
            from < 4,
            to < 4,
            forall|t: int| 0 <= t < s ==> !(t != trump && tpos.length[from as int][t] > 0 && #[trigger] tpos.length[to as int][t] == 0),
        decreases 4 - s,
    {
        if s as i32 != trump && tpos.length[from][s] > 0 && tpos.length[to][s] == 0 {
            assert(tpos.length[to as int][s as int] == 0);
            return true;
        }
        s += 1;
    }
    false
}

/// Sure-tricks count of the side of `hand`, the leader at `depth`.
///
/// Walks the suits (trumps first) and adds the tricks that the side can
/// take without losing the lead: long cards nobody else holds, top cards
/// of the leader, partner's top cards once the leader can reach partner,
/// ruffs. It stops as soon as the count reaches what the search needs;
/// `*result` then tells that the count is decisive. The ranks the count
/// relies on are recorded in row `depth` of `win_ranks`.
/// When each suit's top card lies in a hand that holds the suit, the count
/// is never negative.
pub fn quick_tricks(
    tpos: &mut Pos,
    hand: i32,
    depth: i32,
    target: i32,
    trump: i32,
    result: &mut bool,
    node_type_store: &[i32; 4],
    rel: &[RelRanks],
) -> (r: i32)
    requires
        qt_args_ok(*old(tpos), hand as int, depth as int, target as int, trump as int),
        rel_ok(rel@),
    ensures
        pos_wf(*final(tpos)),
        same_but_win_row(*old(tpos), *final(tpos), depth as int),
        *final(result) ==> r >= qt_cutoff(
            *node_type_store,
            hand as int,
            target as int,
            old(tpos).tricks_max as int,
            depth as int,
        ) || (r == 0 && qt_cutoff_flipped(
            *node_type_store,
            hand as int,
            target as int,
            old(tpos).tricks_max as int,
            depth as int,
        ) <= 1),
        !*final(result) && qt_cutoff(*node_type_store, hand as int, target as int, old(tpos).tricks_max as int, depth as int)
            >= 1 ==> r < qt_cutoff(*node_type_store, hand as int, target as int, old(tpos).tricks_max as int, depth as int),
        winners_held(*old(tpos)) ==> r >= 0,
{
    let hu = hand as usize;
    let du = depth as usize;
    let lho = (hu + 1) % 4;
    let part = (hu + 2) % 4;
    let rho = (hu + 3) % 4;
    let mut comm_rank: i32 = 0;
    let mut comm_suit: i32 = -1;
    let mut lowest_qtricks: i32 = 0;
    *result = true;
    let mut qtricks: i32 = 0;
    let cutoff: i32 = if node_type_store[hu] == MAXNODE {
        target - tpos.tricks_max
    } else {
        tpos.tricks_max - target + depth / 4 + 2
    };
    let mut comm_partner = false;

    // A suit in which the leader can reach partner's winner.
    let mut s: usize = 0;
    while s < 4 && !comm_partner
        invariant
            s <= 4,
            hu < 4,
            part == (hu + 2) % 4,
            lho == (hu + 1) % 4,
            rho == (hu + 3) % 4,
            0 <= trump <= 4,
            pos_wf(*tpos),
            comm_partner ==> 0 <= comm_suit < 4 && 0 <= comm_rank <= 14,
        decreases 4 - s,
    {
        proof {
            assert(crate::pos::high_card_wf(tpos.winner[s as int]));
            assert(crate::pos::high_card_wf(tpos.second_best[s as int]));
        }
        let w = tpos.winner[s];
        let sb = tpos.second_best[s];
        if trump != DDS_NOTRUMP && trump != s as i32 {
            let tu = trump as usize;
            let opps_follow = (tpos.rank_in_suit[lho][s] != 0 || tpos.rank_in_suit[lho][tu] == 0)
                && (tpos.rank_in_suit[rho][s] != 0 || tpos.rank_in_suit[rho][tu] == 0);
            if w.hand == part as i32 {
                if tpos.rank_in_suit[hu][s] != 0 && opps_follow {
                    comm_partner = true;
                    comm_suit = s as i32;
                    comm_rank = w.rank;
                }
            } else if sb.hand == part as i32 && w.hand == hand && tpos.length[hu][s] >= 2
                && tpos.length[part][s] >= 2
            {
                if opps_follow {
                    comm_partner = true;
                    comm_suit = s as i32;
                    comm_rank = sb.rank;
                }
            }
        } else if trump == DDS_NOTRUMP {
            if w.hand == part as i32 {
                if tpos.rank_in_suit[hu][s] != 0 {
                    comm_partner = true;
                    comm_suit = s as i32;
                    comm_rank = w.rank;
                }
            } else if sb.hand == part as i32 && w.hand == hand && tpos.length[hu][s] >= 2
                && tpos.length[part][s] >= 2
            {
                comm_partner = true;
                comm_suit = s as i32;
                comm_rank = sb.rank;
            }
        }
        s += 1;
    }

    if trump != DDS_NOTRUMP && !comm_partner && tpos.rank_in_suit[hu][trump as usize] != 0
        && tpos.winner[trump as usize].hand == part as i32
    {
        proof {
            assert(crate::pos::high_card_wf(tpos.winner[trump as int]));
        }
        comm_partner = true;
        comm_suit = trump;
        comm_rank = tpos.winner[trump as usize].rank;
    }

    let mut suit: i32;
    let mut lho_trump_ranks: i32;
    let mut rho_trump_ranks: i32;
    if trump == DDS_NOTRUMP {
        suit = 0;
        lho_trump_ranks = 0;
        rho_trump_ranks = 0;
    } else {
        suit = trump;
        lho_trump_ranks = tpos.length[lho][trump as usize] as i32;
        rho_trump_ranks = tpos.length[rho][trump as usize] as i32;
    }
    let ghost mut iters: int = 0;

    while suit <= 3
        invariant
            0 <= suit <= 5,
            hu < 4,
            hu == hand,
            du == depth,
            0 <= depth < 50,
            part == (hu + 2) % 4,
            lho == (hu + 1) % 4,
            rho == (hu + 3) % 4,
            0 <= trump <= 4,
            pos_wf(*tpos),
            same_but_win_row(*old(tpos), *tpos, depth as int),
            rel_ok(rel@),
            *result,
            cutoff == qt_cutoff(
                *node_type_store,
                hand as int,
                target as int,
                old(tpos).tricks_max as int,
                depth as int,
            ),
            comm_partner ==> 0 <= comm_suit < 4 && 0 <= comm_rank <= 14,
            0 <= lho_trump_ranks <= 13,
            0 <= rho_trump_ranks <= 13,
            0 <= iters,
            iters + suit_measure(suit as int, trump as int) <= 5,
            -30 * iters <= qtricks <= 30 * iters,
            cutoff >= 1 ==> qtricks < cutoff,
            winners_held(*old(tpos)) ==> qtricks >= 0,
        decreases suit_measure(suit as int, trump as int) + 1,
    {
        proof {
            iters = iters + 1;
        }
        let su = suit as usize;
        let count_own = tpos.length[hu][su] as i32;
        let count_lho = tpos.length[lho][su] as i32;
        let count_rho = tpos.length[rho][su] as i32;
        let count_part = tpos.length[part][su] as i32;
        let opps_void = count_lho == 0 && count_rho == 0;

        if opps_void && count_part == 0 {
            if count_own == 0 {
                suit = next_suit(suit, trump);
                continue;
            }
            if trump != DDS_NOTRUMP && trump != suit {
                if lho_trump_ranks == 0 && rho_trump_ranks == 0 {
                    qtricks += count_own;
                    if qtricks >= cutoff {
                        return qtricks;
                    }
                }
                suit = next_suit(suit, trump);
                continue;
            }
            qtricks += count_own;
            if qtricks >= cutoff {
                return qtricks;
            }
            suit = next_suit(suit, trump);
            continue;
        }
        if opps_void && trump != DDS_NOTRUMP && suit == trump {
            // Only the side holds trumps: the longer hand runs them, with
            // one more trick where the other hand can ruff.
            let mut sum = max_i32(count_own, count_part);
            if sum > 0 && count_own >= count_part && has_ruff_entry(tpos, hu, part, trump) {
                sum += 1;
            }
            if sum >= cutoff {
                return sum;
            }
        } else if opps_void {
            let sum = min_i32(count_own, count_part);
            if trump == DDS_NOTRUMP {
                if sum >= cutoff {
                    return sum;
                }
            } else if suit != trump && lho_trump_ranks == 0 && rho_trump_ranks == 0 && sum >= cutoff {
                return sum;
            }
        }

        if comm_partner {
            if opps_void && count_own == 0 {
                if trump != DDS_NOTRUMP && trump != suit {
                    if lho_trump_ranks == 0 && rho_trump_ranks == 0 {
                        qtricks += count_part;
                        add_win_rank(tpos, du, comm_suit as usize, comm_rank);
                        if qtricks >= cutoff {
                            return qtricks;
                        }
                    }
                    suit = next_suit(suit, trump);
                    continue;
                }
                qtricks += count_part;
                add_win_rank(tpos, du, comm_suit as usize, comm_rank);
                if qtricks >= cutoff {
                    return qtricks;
                }
                suit = next_suit(suit, trump);
                continue;
            } else if opps_void && trump != DDS_NOTRUMP && suit == trump {
                let mut sum = max_i32(count_own, count_part);
                if sum > 0 && count_own <= count_part && has_ruff_entry(tpos, part, hu, trump) {
                    sum += 1;
                }
                if sum >= cutoff {
                    add_win_rank(tpos, du, comm_suit as usize, comm_rank);
                    return sum;
                }
            } else if opps_void {
                let sum = min_i32(count_own, count_part);
                if trump == DDS_NOTRUMP {
                    if sum >= cutoff {
                        return sum;
                    }
                } else if suit != trump && lho_trump_ranks == 0 && rho_trump_ranks == 0 && sum
                    >= cutoff {
                    return sum;
                }
            }
        }

        proof {
            assert(crate::pos::high_card_wf(tpos.winner[su as int]));
        }
        if tpos.winner[su].rank == 0 {
            suit = next_suit(suit, trump);
            continue;
        }

        if tpos.winner[su].hand == hand {
            let mut res: i32 = 0;
            if trump != DDS_NOTRUMP && trump != suit {
                qtricks = qtricks_lead_hand_trump(
                    tpos,
                    cutoff,
                    depth,
                    count_lho,
                    count_rho,
                    lho_trump_ranks,
                    rho_trump_ranks,
                    count_own,
                    count_part,
                    suit,
                    qtricks,
                    &mut res,
                    hand,
                );
            } else {
                qtricks = qtricks_lead_hand_nt(
                    tpos,
                    cutoff,
                    depth,
                    count_lho,
                    count_rho,
                    &mut lho_trump_ranks,
                    &mut rho_trump_ranks,
                    comm_partner,
                    comm_suit,
                    count_own,
                    count_part,
                    suit,
                    qtricks,
                    trump,
                    &mut res,
                    hand,
                );
            }
            if res == 1 {
                return qtricks;
            } else if res == 2 {
                suit = next_suit(suit, trump);
                continue;
            }
        } else if tpos.winner[su].hand == part as i32 && comm_partner {
            let mut res: i32 = 0;
            if trump != DDS_NOTRUMP && trump != suit {
                qtricks = quick_tricks_partner_hand_trump(
                    tpos,
                    cutoff,
                    depth,
                    count_lho,
                    count_rho,
                    lho_trump_ranks,
                    rho_trump_ranks,
                    count_own,
                    count_part,
                    suit,
                    qtricks,
                    comm_suit,
                    comm_rank,
                    &mut res,
                    hand,
                    rel,
                );
            } else {
                qtricks = quick_tricks_partner_hand_nt(
                    tpos,
                    cutoff,
                    depth,
                    count_lho,
                    count_rho,
                    count_own,
                    count_part,
                    suit,
                    qtricks,
                    comm_suit,
                    comm_rank,
                    &mut res,
                    hand,
                    rel,
                );
            }
            if res == 1 {
                return qtricks;
            } else if res == 2 {
                suit = next_suit(suit, trump);
                continue;
            }
        }

        if trump != DDS_NOTRUMP && suit != trump && count_own > 0 && lowest_qtricks == 0 && (
        qtricks == 0 || (tpos.winner[su].hand != hand && tpos.winner[su].hand != part as i32
            && tpos.winner[trump as usize].hand != hand && tpos.winner[trump as usize].hand
            != part as i32)) && count_part == 0 && tpos.length[part][trump as usize] > 0 {
            // The leader can give partner a ruff.
            let tu = trump as usize;
            let part_trumps = tpos.rank_in_suit[part][tu];
            if (count_rho > 0 || tpos.length[rho][tu] == 0) && (count_lho > 0
                || tpos.length[lho][tu] == 0) {
                lowest_qtricks = 1;
                if 1 >= cutoff {
                    return 1;
                }
                suit = next_suit(suit, trump);
                continue;
            } else if count_rho == 0 && count_lho == 0 {
                if (tpos.rank_in_suit[lho][tu] | tpos.rank_in_suit[rho][tu]) < part_trumps {
                    lowest_qtricks = 1;
                    let rr = highest_of(part_trumps);
                    if rr != 0 {
                        add_win_rank(tpos, du, tu, rr);
                        if 1 >= cutoff {
                            return 1;
                        }
                    }
                }
                suit = next_suit(suit, trump);
                continue;
            } else if count_lho == 0 {
                if tpos.rank_in_suit[lho][tu] < part_trumps {
                    lowest_qtricks = 1;
                    let rr = highest_of(part_trumps);
                    if rr != 0 {
                        add_win_rank(tpos, du, tu, rr);
                    }
                    if 1 >= cutoff {
                        return 1;
                    }
                }
                suit = next_suit(suit, trump);
                continue;
            } else if count_rho == 0 {
                if tpos.rank_in_suit[rho][tu] < part_trumps {
                    lowest_qtricks = 1;
                    let rr = highest_of(part_trumps);
                    if rr != 0 {
                        add_win_rank(tpos, du, tu, rr);
                    }
                    if 1 >= cutoff {
                        return 1;
                    }
                }
                suit = next_suit(suit, trump);
                continue;
            }
        }

        if qtricks >= cutoff {
            return qtricks;
        }
        suit = next_suit(suit, trump);
    }

    if qtricks == 0 && (trump == DDS_NOTRUMP || tpos.winner[trump as usize].hand == -1) {
        let mut ss: usize = 0;
        while ss < 4
            invariant
                ss <= 4,
                hu < 4,
                0 <= depth < 50,
                du == depth,
                pos_wf(*tpos),
                same_but_win_row(*old(tpos), *tpos, depth as int),
            decreases 4 - ss,
        {
            proof {
                assert(crate::pos::high_card_wf(tpos.winner[ss as int]));
            }
            if tpos.winner[ss].hand != -1 && tpos.length[hu][ss] > 0 {
                let wr = tpos.winner[ss].rank;
                set_win_rank(tpos, du, ss, wr);
            }
            ss += 1;
        }
        let flipped: i32 = if node_type_store[hu] == MAXNODE {
            tpos.tricks_max - target + depth / 4 + 2
        } else {
            target - tpos.tricks_max
        };
        if 1 >= flipped {
            return 0;
        }
    }
    *result = false;
    qtricks
}

/// The tricks the side of `hand` needs when it can win the current trick
/// in second position.
pub open spec fn qt2_cutoff(nts: [i32; 4], hand: int, target: int, tricks_max: int, depth: int) -> int {
    if nts[hand] == MAXNODE {
        target - tricks_max
    } else {
        tricks_max - target + depth / 4 + 3
    }
}

/// Whether the side of `hand`, playing second to the card
/// `move_history[depth + 1]`, is sure to win the trick: by a ruff the left
/// opponent cannot overruff (it follows suit or holds no trump), or by the
/// top card of the suit where the left opponent cannot ruff.
pub open spec fn qt2_wins_trick(p: Pos, hand: int, depth: int, trump: int) -> bool {
    let lho = (hand + 1) % 4;
    let part = (hand + 2) % 4;
    let lead = p.move_history[depth + 1];
    let ss = lead.suit as int;
    let ranks = p.rank_in_suit[hand][ss] | p.rank_in_suit[part][ss];
    if trump != DDS_NOTRUMP && ss != trump && ((p.rank_in_suit[hand][ss] == 0 && p.rank_in_suit[hand][trump] != 0)
        || (p.rank_in_suit[part][ss] == 0 && p.rank_in_suit[part][trump] != 0)) {
        !(p.rank_in_suit[lho][ss] == 0 && p.rank_in_suit[lho][trump] != 0)
    } else if ranks > (BIT_MAP_RANK[lead.rank as int] | p.rank_in_suit[lho][ss]) {
        !(trump != DDS_NOTRUMP && ss != trump && p.rank_in_suit[lho][trump] != 0 && p.rank_in_suit[lho][ss] == 0)
    } else {
        false
    }
}

/// In notrump, the hand of the side that wins the trick led in suit `ss`:
/// the one of `hand` and its partner with the higher holding.
pub open spec fn qt2_winner(p: Pos, hand: int, ss: int) -> int {
    if p.rank_in_suit[hand][ss] > p.rank_in_suit[(hand + 2) % 4][ss] {
        hand
    } else {
        (hand + 2) % 4
    }
}

/// Tricks `hh` cashes in suit `s` (not the suit led, `ss`): all its cards
/// when nobody else holds the suit, one for the suit's top card, else none.
pub open spec fn qt2_suit_tricks(p: Pos, hh: int, ss: int, s: int) -> int {
    if s != ss && p.length[hh][s] != 0 {
        if p.length[(hh + 1) % 4][s] == 0 && p.length[(hh + 3) % 4][s] == 0 && p.length[(hh + 2) % 4][s] == 0 {
            popcount(p.rank_in_suit[hh][s]) as int
        } else if p.winner[s].rank != 0 && p.winner[s].hand == hh {
            1
        } else {
            0
        }
    } else {
        0
    }
}

/// [`qt2_suit_tricks`] summed over the suits below `n`.
pub open spec fn qt2_suits_upto(p: Pos, hh: int, ss: int, n: int) -> int
    decreases n,
{
    if n <= 0 {
        0
    } else {
        qt2_suits_upto(p, hh, ss, n - 1) + qt2_suit_tricks(p, hh, ss, n - 1)
    }
}

/// The suit counts only grow as more suits are added.
proof fn lemma_qt2_suits_mono(p: Pos, hh: int, ss: int, a: int, b: int)
    requires
        0 <= a <= b,
    ensures
        qt2_suits_upto(p, hh, ss, a) <= qt2_suits_upto(p, hh, ss, b),
    decreases b - a,
{
    if a < b {
        lemma_qt2_suits_mono(p, hh, ss, a, b - 1);
    }
}

/// The notrump count of sure tricks of the side of `hand` playing second:
/// the trick itself, the second top card of the suit led when the same
/// hand holds both top cards, and the tricks of the other suits.
pub open spec fn qt2_nt_total(p: Pos, hand: int, depth: int) -> int {
    let ss = p.move_history[depth + 1].suit as int;
    let hh = qt2_winner(p, hand, ss);
    let bonus: int = if p.winner[ss].hand == hh && p.second_best[ss].rank != 0 && p.second_best[ss].hand == hh {
        1
    } else {
        0
    };
    1 + bonus + qt2_suits_upto(p, hh, ss, 4)
}

/// Sure-tricks test for the side of `hand`, playing second to the trick
/// whose first card is `move_history[depth + 1]`.
///
/// The side must be able to win the current trick (by a higher card that
/// the left-hand opponent cannot ruff, or by ruffing when that opponent
/// cannot overruff by ruffing too); in notrump the hand that wins it may
/// then cash its second winner of the suit, the long suits nobody else
/// holds and its top cards. Returns whether that reaches what the search
/// needs. Row `depth` of `win_ranks` is cleared and then records the ranks
/// the count relies on. At the search's first depth (`ini_depth`) it
/// returns `false` at once.
pub fn quick_tricks_second_hand(
    tpos: &mut Pos,
    hand: i32,
    depth: i32,
    target: i32,
    trump: i32,
    node_type_store: &[i32; 4],
    ini_depth: i32,
) -> (r: bool)
    requires
        pos_wf(*old(tpos)),
        0 <= hand < 4,
        0 <= trump <= 4,
        i32::MIN + 64 <= target,
        depth == ini_depth || (0 <= depth < 49 && 0 <= old(tpos).move_history[depth + 1].suit < 4
            && 0 <= old(tpos).move_history[depth + 1].rank <= 15),
    ensures
        depth == ini_depth ==> !r && *final(tpos) == *old(tpos),
        depth != ini_depth ==> pos_wf(*final(tpos)) && same_but_win_row(
            *old(tpos),
            *final(tpos),
            depth as int,
        ),
        r ==> trump == DDS_NOTRUMP || qt2_cutoff(
            *node_type_store,
            hand as int,
            target as int,
            old(tpos).tricks_max as int,
            depth as int,
        ) <= 1,
        r == (depth != ini_depth && qt2_wins_trick(*old(tpos), hand as int, depth as int, trump as int) && ({
            let c = qt2_cutoff(*node_type_store, hand as int, target as int, old(tpos).tricks_max as int, depth as int);
            1 >= c || (trump == DDS_NOTRUMP && qt2_nt_total(*old(tpos), hand as int, depth as int) >= c)
        })),
{
    if depth == ini_depth {
        return false;
    }
    let hu = hand as usize;
    let du = depth as usize;
    let lho = (hu + 1) % 4;
    let part = (hu + 2) % 4;
    let lead = tpos.move_history[du + 1];
    let ss = lead.suit;
    let ssu = ss as usize;
    let ranks: u16 = tpos.rank_in_suit[hu][ssu] | tpos.rank_in_suit[part][ssu];

    tpos.win_ranks[du] = [0u16; 4];

    if trump != DDS_NOTRUMP && ss != trump && ((tpos.rank_in_suit[hu][ssu] == 0
        && tpos.rank_in_suit[hu][trump as usize] != 0) || (tpos.rank_in_suit[part][ssu] == 0
        && tpos.rank_in_suit[part][trump as usize] != 0)) {
        if tpos.rank_in_suit[lho][ssu] == 0 && tpos.rank_in_suit[lho][trump as usize] != 0 {
            return false;
        }
        // The side ruffs and the left-hand opponent cannot.
    } else if ranks > (BIT_MAP_RANK[lead.rank as usize] | tpos.rank_in_suit[lho][ssu]) {
        if trump != DDS_NOTRUMP && ss != trump && tpos.rank_in_suit[lho][trump as usize] != 0
            && tpos.rank_in_suit[lho][ssu] == 0 {
            return false;
        }
        // The side holds the top card of the suit and it cannot be ruffed.
        let rr = highest_of(ranks);
        set_win_rank(tpos, du, ssu, rr);
    } else {
        return false;
    }

    let mut qtricks: i32 = 1;
    let cutoff: i32 = if node_type_store[hu] == MAXNODE {
        target - tpos.tricks_max
    } else {
        tpos.tricks_max - target + depth / 4 + 3
    };
    if qtricks >= cutoff {
        return true;
    }
    if trump != DDS_NOTRUMP {
        return false;
    }

    // In notrump the hand that wins the trick leads the next one.
    let hh: usize = if tpos.rank_in_suit[hu][ssu] > tpos.rank_in_suit[part][ssu] {
        hu
    } else {
        part
    };
    proof {
        assert(crate::pos::high_card_wf(tpos.second_best[ssu as int]));
    }
    if tpos.winner[ssu].hand == hh as i32 && tpos.second_best[ssu].rank != 0
        && tpos.second_best[ssu].hand == hh as i32 {
        qtricks += 1;
        proof {
            lemma_qt2_suits_mono(*old(tpos), hh as int, ssu as int, 0, 4);
        }
        let sr = tpos.second_best[ssu].rank;
        add_win_rank(tpos, du, ssu, sr);
        if qtricks >= cutoff {
            return true;
        }
    }

    let hh_lho = (hh + 1) % 4;
    let hh_part = (hh + 2) % 4;
    let hh_rho = (hh + 3) % 4;
    let mut s: usize = 0;
    while s < 4
        invariant
            s <= 4,
            hh < 4,
            hh_lho < 4,
            hh_part < 4,
            hh_rho < 4,
            ssu < 4,
            du == depth,
            0 <= depth < 49,
            pos_wf(*tpos),
            same_but_win_row(*old(tpos), *tpos, depth as int),
            0 <= qtricks <= 2 + 16 * s,
            trump == DDS_NOTRUMP,
            depth != ini_depth,
            hh == qt2_winner(*old(tpos), hand as int, ssu as int),
            hh_lho == (hh + 1) % 4,
            hh_part == (hh + 2) % 4,
            hh_rho == (hh + 3) % 4,
            ssu == old(tpos).move_history[depth + 1].suit,
            qtricks < cutoff,
            cutoff == qt2_cutoff(*node_type_store, hand as int, target as int, old(tpos).tricks_max as int, depth as int),
            qt2_wins_trick(*old(tpos), hand as int, depth as int, trump as int),
            qtricks == 1 + (if old(tpos).winner[ssu as int].hand == hh && old(tpos).second_best[ssu as int].rank != 0
                && old(tpos).second_best[ssu as int].hand == hh { 1int } else { 0int }) + qt2_suits_upto(*old(tpos), hh as int, ssu as int, s as int),
        decreases 4 - s,
    {
        proof {
            lemma_qt2_suits_mono(*old(tpos), hh as int, ssu as int, s + 1, 4);
            assert(qt2_suits_upto(*old(tpos), hh as int, ssu as int, s + 1) == qt2_suits_upto(*old(tpos), hh as int, ssu as int, s as int)
                + qt2_suit_tricks(*old(tpos), hh as int, ssu as int, s as int));
        }
        if s != ssu && tpos.length[hh][s] != 0 {
            proof {
                assert(crate::pos::high_card_wf(tpos.winner[s as int]));
            }
            if tpos.length[hh_lho][s] == 0 && tpos.length[hh_rho][s] == 0
                && tpos.length[hh_part][s] == 0 {
                // A long suit nobody else holds.
                let n = crate::bits::count_ones16(tpos.rank_in_suit[hh][s]);
                qtricks += n as i32;
                if qtricks >= cutoff {
                    return true;
                }
            } else if tpos.winner[s].rank != 0 && tpos.winner[s].hand == hh as i32 {
                // A top card in another suit.
                qtricks += 1;
                let wr = tpos.winner[s].rank;
                add_win_rank(tpos, du, s, wr);
                if qtricks >= cutoff {
                    return true;
                }
            }
        }
        s += 1;
    }
    false
}

} // verus!
