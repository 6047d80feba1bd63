//! Lookup tables indexed by a suit's rank set.
//!
//! A rank set ("aggr") is a 13-bit mask: rank `r` in `2..=14` is bit `r - 2`.
//! Hands are numbered North 0, East 1, South 2, West 3.
use vstd::prelude::*;
use crate::bits::{bit, ones_below};

verus! {

/// Left-hand opponent of each seat.
pub const LHO: [usize; 4] = [1, 2, 3, 0];

/// Right-hand opponent of each seat.
pub const RHO: [usize; 4] = [3, 0, 1, 2];

/// Partner of each seat.
pub const PARTNER: [usize; 4] = [2, 3, 0, 1];

/// `BIT_MAP_RANK[r]` is the single bit of rank `r` for `r` in `2..=14`;
/// entries 0 and 1 are zero and entry 15 mirrors the next bit up.
pub const BIT_MAP_RANK: [u16; 16] = [
    0x0000,
    0x0000,
    0x0001,
    0x0002,
    0x0004,
    0x0008,
    0x0010,
    0x0020,
    0x0040,
    0x0080,
    0x0100,
    0x0200,
    0x0400,
    0x0800,
    0x1000,
    0x2000,
];

/// Number of distinct rank sets.
pub const AGGR_COUNT: usize = 8192;

/// Whether rank `r` is in the rank set `a`.
pub open spec fn has_rank(a: u16, r: int) -> bool {
    2 <= r <= 14 && bit(a, (r - 2) as nat)
}

/// The highest rank of `a` that is at most `r`, or 0 if there is none.
pub open spec fn highest_at_most(a: u16, r: int) -> int
    decreases r,
{
    if r < 2 {
        0
    } else if has_rank(a, r) {
        r
    } else {
        highest_at_most(a, r - 1)
    }
}

/// The lowest rank of `a` that is at least `r`, or 0 if there is none.
pub open spec fn lowest_at_least(a: u16, r: int) -> int
    decreases 15 - r,
{
    if r > 14 {
        0
    } else if has_rank(a, r) {
        r
    } else {
        lowest_at_least(a, r + 1)
    }
}

/// The highest rank of `a`, or 0 for the empty set.
pub open spec fn highest_rank(a: u16) -> int {
    highest_at_most(a, 14)
}

/// The lowest rank of `a`, or 0 for the empty set.
pub open spec fn lowest_rank(a: u16) -> int {
    lowest_at_least(a, 2)
}

/// The number of ranks in `a` that are at least `r` (for `r` in `2..=15`).
pub open spec fn ranks_from(a: u16, r: int) -> int {
    ones_below(a, 13) - ones_below(a, (r - 2) as nat)
}

/// The relative rank of `r` in `a`: 1 for the highest card present, 2 for
/// the next, …; 0 when `r` is not in `a`.
pub open spec fn rel_rank(a: u16, r: int) -> int {
    if has_rank(a, r) {
        ranks_from(a, r)
    } else {
        0
    }
}

/// The rank set made of the `n` highest ranks of `a` that are at most `r`.
pub open spec fn top_ranks(a: u16, n: nat, r: int) -> u16
    decreases r,
{
    if r < 2 || n == 0 {
        0
    } else if has_rank(a, r) {
        (BIT_MAP_RANK[r] | top_ranks(a, (n - 1) as nat, r - 1)) as u16
    } else {
        top_ranks(a, n, r - 1)
    }
}

/// The rank set of the `n` highest ranks of `a`.
pub open spec fn win_ranks(a: u16, n: nat) -> u16 {
    top_ranks(a, n, 14)
}

/// `BIT_MAP_RANK[r]` is the bit `1 << (r - 2)` for the ranks `2..=14`.
pub proof fn lemma_bit_map_rank(r: int)
    requires
        2 <= r <= 14,
    ensures
        BIT_MAP_RANK[r] == (1u16 << (r - 2) as u16),
{
    assert(1u16 << 0u16 == 1u16 && 1u16 << 1u16 == 2u16 && 1u16 << 2u16 == 4u16 && 1u16 << 3u16
        == 8u16 && 1u16 << 4u16 == 16u16 && 1u16 << 5u16 == 32u16 && 1u16 << 6u16 == 64u16 && 1u16
        << 7u16 == 128u16 && 1u16 << 8u16 == 256u16 && 1u16 << 9u16 == 512u16 && 1u16 << 10u16
        == 1024u16 && 1u16 << 11u16 == 2048u16 && 1u16 << 12u16 == 4096u16) by (bit_vector);
}

/// `a & BIT_MAP_RANK[r] != 0` tests whether rank `r` is in `a`.
pub proof fn lemma_has_rank(a: u16, r: int)
    requires
        2 <= r <= 14,
    ensures
        (a & BIT_MAP_RANK[r] != 0) == has_rank(a, r),
{
    lemma_bit_map_rank(r);
    let s = (r - 2) as u16;
    assert(s < 13 ==> ((a & (1u16 << s) != 0) == ((a >> s) & 1u16 == 1u16))) by (bit_vector);
}

/// Whether rank `r` (in `2..=14`) is in `a`.
pub fn rank_in(a: u16, r: usize) -> (b: bool)
    requires
        2 <= r <= 14,
    ensures
        b == has_rank(a, r as int),
{
    proof {
        lemma_has_rank(a, r as int);
    }
    a & BIT_MAP_RANK[r] != 0
}

/// `HIGHEST_RANK[aggr]`: the highest rank of each rank set, 0 if empty.
pub fn build_highest_rank() -> (t: Vec<u8>)
    ensures
        t@.len() == AGGR_COUNT,
        forall|a: int| 0 <= a < AGGR_COUNT ==> #[trigger] t@[a] == highest_rank(a as u16),
{
    let mut t: Vec<u8> = Vec::new();
    t.push(0);
    proof {
        assert(highest_rank(0u16) == 0) by {
            assert forall|r: int| 2 <= r <= 14 implies !has_rank(0u16, r) by {
                lemma_has_rank(0u16, r);
                assert(0u16 & BIT_MAP_RANK[r] == 0) by (bit_vector);
            }
            reveal_with_fuel(highest_at_most, 14);
        }
    }
    let mut aggr: usize = 1;
    while aggr < AGGR_COUNT
        invariant
            1 <= aggr <= AGGR_COUNT,
            t@.len() == aggr,
            forall|a: int| 0 <= a < aggr ==> #[trigger] t@[a] == highest_rank(a as u16),
        decreases AGGR_COUNT - aggr,
    {
        let a: u16 = aggr as u16;
        let mut r: usize = 14;
        let mut found: u8 = 0;
        let mut done = false;
        while !done
            invariant
                2 <= r <= 14,
                done ==> found == highest_rank(a),
                !done ==> highest_rank(a) == highest_at_most(a, r as int),
            decreases r + (if done {
                0int
            } else {
                1int
            }),
        {
            if rank_in(a, r) {
                found = r as u8;
                done = true;
            } else if r == 2 {
                assert(highest_at_most(a, 1) == 0);
                found = 0;
                done = true;
            } else {
                r = r - 1;
            }
        }
        t.push(found);
        aggr = aggr + 1;
    }
    t
}

} // verus!

verus! {

use crate::bits::{popcount, count_ones16};
use vstd::arithmetic::power2::{pow2, lemma_pow2_unfold, lemma_pow2_pos};

/// `x | 0 == x`.
pub proof fn lemma_or_zero(x: u16)
    ensures
        x | 0u16 == x,
        0u16 | x == x,
{
    assert(x | 0u16 == x && 0u16 | x == x) by (bit_vector);
}

/// `|` is associative.
pub proof fn lemma_or_assoc(x: u16, y: u16, z: u16)
    ensures
        (x | y) | z == x | (y | z),
{
    assert((x | y) | z == x | (y | z)) by (bit_vector);
}

/// `LOWEST_RANK[aggr]`: the lowest rank of each rank set, 0 if empty.
pub fn build_lowest_rank() -> (t: Vec<u8>)
    ensures
        t@.len() == AGGR_COUNT,
        forall|a: int| 0 <= a < AGGR_COUNT ==> #[trigger] t@[a] == lowest_rank(a as u16),
{
    let mut t: Vec<u8> = Vec::new();
    let mut aggr: usize = 0;
    while aggr < AGGR_COUNT
        invariant
            0 <= aggr <= AGGR_COUNT,
            t@.len() == aggr,
            forall|a: int| 0 <= a < aggr ==> #[trigger] t@[a] == lowest_rank(a as u16),
        decreases AGGR_COUNT - aggr,
    {
        let a: u16 = aggr as u16;
        let mut r: usize = 2;
        let mut found: u8 = 0;
        let mut done = false;
        while !done
            invariant
                2 <= r <= 14,
                done ==> found == lowest_rank(a),
                !done ==> lowest_rank(a) == lowest_at_least(a, r as int),
            decreases 15 - r + (if done {
                0int
            } else {
                1int
            }),
        {
            if rank_in(a, r) {
                found = r as u8;
                done = true;
            } else if r == 14 {
                assert(lowest_at_least(a, 15) == 0);
                found = 0;
                done = true;
            } else {
                r = r + 1;
            }
        }
        t.push(found);
        aggr = aggr + 1;
    }
    t
}

/// `COUNT_TABLE[aggr]`: the number of ranks in each rank set.
pub fn build_count_table() -> (t: Vec<u8>)
    ensures
        t@.len() == AGGR_COUNT,
        forall|a: int| 0 <= a < AGGR_COUNT ==> #[trigger] t@[a] == popcount(a as u16),
{
    let mut t: Vec<u8> = Vec::new();
    let mut aggr: usize = 0;
    while aggr < AGGR_COUNT
        invariant
            0 <= aggr <= AGGR_COUNT,
            t@.len() == aggr,
            forall|a: int| 0 <= a < aggr ==> #[trigger] t@[a] == popcount(a as u16),
        decreases AGGR_COUNT - aggr,
    {
        let c = count_ones16(aggr as u16);
        t.push(c as u8);
        aggr = aggr + 1;
    }
    t
}

/// One step of the downward rank count: ranks from `r` are those from
/// `r + 1` plus `r` itself when present.
proof fn lemma_ranks_from_step(a: u16, r: int)
    requires
        2 <= r <= 14,
    ensures
        ranks_from(a, r) == ranks_from(a, r + 1) + (if has_rank(a, r) {
            1int
        } else {
            0int
        }),
{
    assert(ones_below(a, (r - 1) as nat) == ones_below(a, (r - 2) as nat) + (if bit(
        a,
        (r - 2) as nat,
    ) {
        1nat
    } else {
        0nat
    }));
}

/// `REL_RANK[aggr][r]`: the relative rank of `r` in each rank set.
pub fn build_rel_rank() -> (t: Vec<[i8; 15]>)
    ensures
        t@.len() == AGGR_COUNT,
        forall|a: int, r: int|
            0 <= a < AGGR_COUNT && 0 <= r < 15 ==> #[trigger] t@[a][r] == rel_rank(a as u16, r),
{
    let mut t: Vec<[i8; 15]> = Vec::new();
    let mut aggr: usize = 0;
    while aggr < AGGR_COUNT
        invariant
            0 <= aggr <= AGGR_COUNT,
            t@.len() == aggr,
            forall|a: int, r: int|
                0 <= a < aggr && 0 <= r < 15 ==> #[trigger] t@[a][r] == rel_rank(a as u16, r),
        decreases AGGR_COUNT - aggr,
    {
        let a: u16 = aggr as u16;
        let mut row: [i8; 15] = [0i8; 15];
        let mut ord: i8 = 0;
        let mut r: usize = 14;
        proof {
            assert(ranks_from(a, 15) == 0);
        }
        while r >= 2
            invariant
                1 <= r <= 14,
                ord == ranks_from(a, r as int + 1),
                0 <= ord <= 14 - r,
                forall|rr: int| r < rr < 15 ==> row[rr] == rel_rank(a, rr),
                forall|rr: int| 0 <= rr <= r ==> row[rr] == 0,
            decreases r,
        {
            proof {
                lemma_ranks_from_step(a, r as int);
            }
            if rank_in(a, r) {
                ord = ord + 1;
                row[r] = ord;
            }
            r = r - 1;
        }
        proof {
            assert forall|rr: int| 0 <= rr < 15 implies row[rr] == rel_rank(a, rr) by {
                if rr < 2 {
                    assert(!has_rank(a, rr));
                }
            }
        }
        t.push(row);
        aggr = aggr + 1;
    }
    t
}

/// The highest ranks of a rank set, up to the ace, form a rank set.
pub proof fn lemma_top_ranks_small(a: u16, n: nat, r: int)
    requires
        r <= 14,
    ensures
        top_ranks(a, n, r) < 8192,
    decreases r,
{
    if r >= 2 && n > 0 {
        if has_rank(a, r) {
            lemma_top_ranks_small(a, (n - 1) as nat, r - 1);
            lemma_bit_map_rank(r);
            let x = top_ranks(a, (n - 1) as nat, r - 1);
            let s = (r - 2) as u16;
            assert(s < 13 && x < 8192 ==> ((1u16 << s) | x) < 8192) by (bit_vector);
        } else {
            lemma_top_ranks_small(a, n, r - 1);
        }
    }
}

/// `WIN_RANKS[aggr][n]`: the rank set of the `n` highest ranks of each rank
/// set (all of it when it has fewer than `n`).
pub fn build_win_ranks() -> (t: Vec<[u16; 14]>)
    ensures
        t@.len() == AGGR_COUNT,
        forall|a: int, n: int|
            0 <= a < AGGR_COUNT && 0 <= n < 14 ==> #[trigger] t@[a][n] == win_ranks(
                a as u16,
                n as nat,
            ),
{
    let mut t: Vec<[u16; 14]> = Vec::new();
    let mut aggr: usize = 0;
    while aggr < AGGR_COUNT
        invariant
            0 <= aggr <= AGGR_COUNT,
            t@.len() == aggr,
            forall|a: int, n: int|
                0 <= a < aggr && 0 <= n < 14 ==> #[trigger] t@[a][n] == win_ranks(
                    a as u16,
                    n as nat,
                ),
        decreases AGGR_COUNT - aggr,
    {
        let a: u16 = aggr as u16;
        let mut row: [u16; 14] = [0u16; 14];
        let mut lw: usize = 1;
        assert(win_ranks(a, 0) == 0);
        while lw < 14
            invariant
                1 <= lw <= 14,
                row[0] == win_ranks(a, 0),
                forall|n: int| 0 <= n < lw ==> row[n] == win_ranks(a, n as nat),
            decreases 14 - lw,
        {
            let mut acc: u16 = 0;
            let mut left: usize = lw;
            let mut r: usize = 14;
            proof {
                lemma_or_zero(top_ranks(a, lw as nat, 14));
            }
            while r >= 2
                invariant
                    1 <= r <= 14,
                    left <= lw,
                    win_ranks(a, lw as nat) == acc | top_ranks(a, left as nat, r as int),
                decreases r,
            {
                if left > 0 && rank_in(a, r) {
                    proof {
                        lemma_or_assoc(acc, BIT_MAP_RANK[r as int], top_ranks(a, (left - 1) as nat, r - 1));
                    }
                    acc = acc | BIT_MAP_RANK[r];
                    left = left - 1;
                }
                r = r - 1;
            }
            proof {
                lemma_or_zero(acc);
            }
            row[lw] = acc;
            lw = lw + 1;
        }
        t.push(row);
        aggr = aggr + 1;
    }
    t
}

} // verus!

verus! {

/// `TOPSIDE[r]`: the ranks strictly below `r`.
pub const TOPSIDE: [u16; 15] = [
    0x0000,
    0x0000,
    0x0000,
    0x0001,
    0x0003,
    0x0007,
    0x000f,
    0x001f,
    0x003f,
    0x007f,
    0x00ff,
    0x01ff,
    0x03ff,
    0x07ff,
    0x0fff,
];

/// `BOTSIDE[r]`: the ranks strictly above `r` (all bits for `r < 2`).
pub const BOTSIDE: [u16; 15] = [
    0xffff,
    0xffff,
    0x1ffe,
    0x1ffc,
    0x1ff8,
    0x1ff0,
    0x1fe0,
    0x1fc0,
    0x1f80,
    0x1f00,
    0x1e00,
    0x1c00,
    0x1800,
    0x1000,
    0x0000,
];

/// A rank set split into runs of adjacent ranks ("groups"), lowest first.
#[derive(Clone, Copy, Debug)]
pub struct MoveGroup {
    /// Index of the highest group; -1 for the empty set.
    pub last_group: i8,
    /// Top rank of each group.
    pub rank: [u8; 7],
    /// The ranks of each group below its top.
    pub sequence: [u16; 7],
    /// All ranks of each group.
    pub fullseq: [u16; 7],
    /// The ranks missing between the group below and this group.
    pub gap: [u16; 7],
}

/// A group decomposition as plain values: the index of the highest group,
/// then the ranks, sequences, full sequences and gaps of the groups.
pub type GroupView = (int, Seq<u8>, Seq<u16>, Seq<u16>, Seq<u16>);

impl MoveGroup {
    /// The decomposition as plain values.
    pub open spec fn view(self) -> GroupView {
        (self.last_group as int, self.rank@, self.sequence@, self.fullseq@, self.gap@)
    }
}

/// The decomposition of the empty rank set.
pub open spec fn empty_group() -> GroupView {
    (-1, Seq::new(7, |i: int| 0u8), Seq::new(7, |i: int| 0u16), Seq::new(7, |i: int| 0u16), Seq::new(7, |i: int| 0u16))
}

/// The index of the highest set bit of `x` (0 for `x < 2`).
pub open spec fn top_index(x: nat) -> nat
    decreases x,
{
    if x < 2 {
        0
    } else {
        1 + top_index(x / 2)
    }
}

pub proof fn lemma_top_index(x: nat, k: nat)
    requires
        pow2(k) <= x < pow2(k + 1),
    ensures
        top_index(x) == k,
    decreases k,
{
    lemma_pow2_unfold(k + 1);
    if k == 0 {
        assert(pow2(0) == 1) by {
            vstd::arithmetic::power2::lemma2_to64();
        }
    } else {
        lemma_pow2_unfold(k);
        lemma_top_index(x / 2, (k - 1) as nat);
    }
}

/// The group decomposition of `ris`, built as the decomposition of `ris`
/// without its top rank, then either extending the highest group (when the
/// rank just below the top is present) or opening a new one.
pub open spec fn group_data(ris: nat) -> GroupView
    decreases ris,
{
    if ris == 0 || ris >= 8192 {
        empty_group()
    } else {
        let k = top_index(ris);
        let tb = pow2(k);
        proof {
            lemma_pow2_pos(k);
        }
        let nb: nat = if k == 0 {
            0
        } else {
            pow2((k - 1) as nat)
        };
        let prev = if ris >= tb {
            group_data((ris - tb) as nat)
        } else {
            empty_group()
        };
        if k >= 1 && (ris / nb) % 2 == 1 {
            let g = prev.0;
            (
                prev.0,
                prev.1.update(g, (prev.1[g] + 1) as u8),
                prev.2.update(g, prev.2[g] | nb as u16),
                prev.3.update(g, prev.3[g] | tb as u16),
                prev.4,
            )
        } else {
            let g = prev.0 + 1;
            let prev_rank: int = if g == 0 {
                0
            } else {
                prev.1[g - 1] as int
            };
            (
                g,
                prev.1.update(g, (k + 2) as u8),
                prev.2.update(g, 0u16),
                prev.3.update(g, tb as u16),
                prev.4.update(g, TOPSIDE[(k + 2) as int] & BOTSIDE[prev_rank]),
            )
        }
    }
}

/// A positive value lies between the power of two of its top index and the
/// next one.
pub proof fn lemma_top_index_range(x: nat)
    requires
        x >= 1,
    ensures
        pow2(top_index(x)) <= x < pow2(top_index(x) + 1),
    decreases x,
{
    vstd::arithmetic::power2::lemma2_to64();
    if x >= 2 {
        lemma_top_index_range(x / 2);
        lemma_pow2_unfold(top_index(x / 2) + 1);
        lemma_pow2_unfold(top_index(x / 2) + 2);
    }
}

/// Groups alternate with gaps, so there are at most half as many groups as
/// the top index, and no group's top rank exceeds the top rank.
pub proof fn lemma_group_bounds(ris: nat)
    requires
        ris < 8192,
    ensures
        -1 <= group_data(ris).0,
        2 * group_data(ris).0 <= top_index(ris) as int,
        group_data(ris).0 <= 6,
        ris > 0 ==> group_data(ris).0 >= 0,
        ris == 0 ==> group_data(ris).0 == -1,
        group_data(ris).1.len() == 7,
        group_data(ris).2.len() == 7,
        group_data(ris).3.len() == 7,
        group_data(ris).4.len() == 7,
        forall|g: int| 0 <= g <= group_data(ris).0 ==> #[trigger] group_data(ris).1[g] as int <= top_index(ris) + 2,
    decreases ris,
{
    vstd::arithmetic::power2::lemma2_to64();
    if ris > 0 {
        let k = top_index(ris);
        lemma_top_index_range(ris);
        lemma_pow2_unfold(k + 1);
        lemma_pow2_pos(k);
        let tb = pow2(k);
        let rest = (ris - tb) as nat;
        lemma_group_bounds(rest);
        assert(k <= 12) by {
            if k >= 13 {
                vstd::arithmetic::power2::lemma_pow2_strictly_increases(13, k);
            }
        }
        if rest > 0 {
            lemma_top_index_below(rest, k);
        }
        if k >= 1 {
            let nb = pow2((k - 1) as nat);
            lemma_pow2_unfold(k);
            lemma_pow2_pos((k - 1) as nat);
            if (ris / nb) % 2 == 1 {
                assert(rest >= nb) by (nonlinear_arith)
                    requires
                        (ris / nb) % 2 == 1,
                        tb == 2 * nb,
                        tb <= ris < 2 * tb,
                        rest == ris - tb,
                        nb > 0,
                ;
                lemma_top_index_range(rest);
            } else {
                assert(rest < nb) by (nonlinear_arith)
                    requires
                        (ris / nb) % 2 != 1,
                        tb == 2 * nb,
                        tb <= ris < 2 * tb,
                        rest == ris - tb,
                        nb > 0,
                ;
                if rest > 0 {
                    lemma_top_index_below(rest, (k - 1) as nat);
                }
            }
        }
    }
}

/// `GROUP_DATA[ris]`: the group decomposition of each rank set.
pub fn build_group_data() -> (t: Vec<MoveGroup>)
    ensures
        t@.len() == AGGR_COUNT,
        forall|a: int| 0 <= a < AGGR_COUNT ==> #[trigger] t@[a]@ == group_data(a as nat),
{
    let mut t: Vec<MoveGroup> = Vec::new();
    t.push(MoveGroup {
        last_group: -1,
        rank: [0u8; 7],
        sequence: [0u16; 7],
        fullseq: [0u16; 7],
        gap: [0u16; 7],
    });
    let mut k: usize = 0;
    let mut tb: usize = 1;
    proof {
        vstd::arithmetic::power2::lemma2_to64();
    }
    while k < 13
        invariant
            k <= 13,
            tb == pow2(k as nat),
            t@.len() == tb,
            forall|a: int| 0 <= a < tb ==> #[trigger] t@[a]@ == group_data(a as nat),
        decreases 13 - k,
    {
        proof {
            lemma_pow2_unfold((k + 1) as nat);
            vstd::arithmetic::power2::lemma2_to64();
        }
        let nb: usize = if k == 0 {
            0
        } else {
            tb / 2
        };
        proof {
            if k > 0 {
                lemma_pow2_unfold(k as nat);
            }
        }
        let mut ris: usize = tb;
        while ris < 2 * tb
            invariant
                k < 13,
                tb == pow2(k as nat),
                2 * tb == pow2((k + 1) as nat),
                2 * tb <= 8192,
                nb == (if k == 0 {
                    0
                } else {
                    pow2((k - 1) as nat)
                }),
                tb <= ris <= 2 * tb,
                t@.len() == ris,
                forall|a: int| 0 <= a < ris ==> #[trigger] t@[a]@ == group_data(a as nat),
            decreases 2 * tb - ris,
        {
            proof {
                lemma_top_index(ris as nat, k as nat);
                lemma_group_bounds((ris - tb) as nat);
                if ris - tb > 0 {
                    lemma_pow2_pos(k as nat);
                    lemma_top_index_below((ris - tb) as nat, k as nat);
                }
            }
            proof {
                if k > 0 {
                    lemma_pow2_pos((k - 1) as nat);
                }
            }
            let mut g = t[ris - tb];
            if k >= 1 && (ris / nb) % 2 == 1 {
                proof {
                    lemma_pow2_unfold(k as nat);
                    assert(ris - tb >= nb) by (nonlinear_arith)
                        requires
                            (ris / nb) % 2 == 1,
                            tb == 2 * nb,
                            tb <= ris < 2 * tb,
                            nb > 0,
                    ;
                    lemma_top_index_below((ris - tb) as nat, k as nat);
                    assert(g@ == group_data((ris - tb) as nat));
                    assert(g.rank@[g.last_group as int] == g.rank[g.last_group as int]);
                }
                let gi = g.last_group as usize;
                g.rank[gi] = g.rank[gi] + 1;
                g.sequence[gi] = g.sequence[gi] | nb as u16;
                g.fullseq[gi] = g.fullseq[gi] | tb as u16;
            } else {
                proof {
                    assert(g@ == group_data((ris - tb) as nat));
                    if k >= 1 {
                        lemma_pow2_unfold(k as nat);
                        assert(ris - tb < nb) by (nonlinear_arith)
                            requires
                                (ris / nb) % 2 != 1,
                                tb == 2 * nb,
                                tb <= ris < 2 * tb,
                                nb > 0,
                        ;
                        if ris - tb > 0 {
                            lemma_top_index_below((ris - tb) as nat, (k - 1) as nat);
                        }
                    }
                    assert(k <= 12);
                }
                let gi = (g.last_group + 1) as usize;
                let prev_rank: usize = if gi == 0 {
                    0
                } else {
                    g.rank[gi - 1] as usize
                };
                g.last_group = gi as i8;
                g.rank[gi] = (k + 2) as u8;
                g.sequence[gi] = 0;
                g.fullseq[gi] = tb as u16;
                g.gap[gi] = TOPSIDE[k + 2] & BOTSIDE[prev_rank];
            }
            t.push(g);
            ris = ris + 1;
        }
        tb = 2 * tb;
        k = k + 1;
    }
    t
}

/// A nonzero value below `2^k` has a top index below `k`.
pub proof fn lemma_top_index_below(x: nat, k: nat)
    requires
        0 < x < pow2(k),
    ensures
        top_index(x) < k,
    decreases x,
{
    vstd::arithmetic::power2::lemma2_to64();
    if k == 0 {
    } else {
        lemma_pow2_unfold(k);
        if x >= 2 {
            lemma_top_index_below(x / 2, (k - 1) as nat);
        }
    }
}

/// Every group of a rank set has a rank of at most 14.
pub proof fn lemma_group_ranks(ris: nat)
    requires
        ris < 8192,
    ensures
        forall|g: int| 0 <= g <= group_data(ris).0 ==> #[trigger] group_data(ris).1[g] <= 14,
        -1 <= group_data(ris).0 <= 6,
        group_data(ris).1.len() == 7,
        group_data(ris).2.len() == 7,
        group_data(ris).3.len() == 7,
        group_data(ris).4.len() == 7,
{
    lemma_group_bounds(ris);
    if ris > 0 {
        lemma_top_index_range(ris);
        let k = top_index(ris);
        vstd::arithmetic::power2::lemma2_to64();
        if k > 13 {
            vstd::arithmetic::power2::lemma_pow2_strictly_increases(13, k);
        }
        assert(k <= 12);
    }
}

proof fn lemma_lowest_at_least_bound(a: u16, r: int)
    ensures
        0 <= lowest_at_least(a, r) <= 14,
    decreases 15 - r,
{
    if r <= 14 && !has_rank(a, r) {
        lemma_lowest_at_least_bound(a, r + 1);
    }
}

proof fn lemma_highest_at_most_bound(a: u16, r: int)
    requires
        r <= 14,
    ensures
        0 <= highest_at_most(a, r) <= 14,
    decreases r,
{
    if r >= 2 && !has_rank(a, r) {
        lemma_highest_at_most_bound(a, r - 1);
    }
}

/// The lowest and highest ranks of a rank set lie between 0 and 14.
pub proof fn lemma_lowest_rank_bound(a: u16)
    ensures
        0 <= lowest_rank(a) <= 14,
        0 <= highest_rank(a) <= 14,
{
    lemma_lowest_at_least_bound(a, 2);
    lemma_highest_at_most_bound(a, 14);
}

} // verus!
