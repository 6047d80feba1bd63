//! Transposition table.
//!
//! Positions met during the search are keyed by the trick and the hand to
//! lead, then by the hands' suit lengths (hashed to one of 256 buckets of
//! up to 32 distributions each), which select a block of up to 125 entries
//! holding the bounds found for card patterns. A pattern records, for the
//! ranks that mattered, which hand held each of them.
//!
//! Blocks are handed out a page (1000 blocks) at a time, up to a maximum
//! number of pages; when that is reached the table is reset.
use vstd::prelude::*;
use vstd::arithmetic::power2::pow2;
use crate::lookup::{lemma_top_index, lemma_top_index_range, top_index};

verus! {

/// Blocks per page.
pub const BLOCKS_PER_PAGE: usize = 1000;

/// Distributions per hash bucket.
pub const DISTS_PER_ENTRY: usize = 32;

/// Entries per block.
pub const BLOCKS_PER_ENTRY: usize = 125;

/// Tricks, hands and hash buckets of the table's root.
pub const TT_TRICKS: usize = 12;

pub const TT_HASH_BUCKETS: usize = 256;

/// Default memory budget in MiB.
pub const DEFAULT_MEMORY_MB: u32 = 95;

/// Maximum memory budget in MiB.
pub const MAX_MEMORY_MB: u32 = 160;

/// The size in bytes of one block of 125 entries of 52 bytes and its
/// three counters.
pub const WIN_BLOCK_BYTES: u64 = 6512;

/// A cached evaluation: bounds on the MAX side's tricks and the best
/// move found.
#[derive(Clone, Copy, Debug)]
pub struct NodeCards {
    pub ubound: i8,
    pub lbound: i8,
    pub best_move_suit: u8,
    pub best_move_rank: u8,
    pub least_win: [u8; 4],
}

impl NodeCards {
    /// All zero.
    pub fn zero() -> (r: NodeCards)
        ensures
            r.ubound == 0 && r.lbound == 0 && r.best_move_suit == 0 && r.best_move_rank == 0,
            forall|s: int| 0 <= s < 4 ==> #[trigger] r.least_win[s] == 0,
    {
        NodeCards { ubound: 0, lbound: 0, best_move_suit: 0, best_move_rank: 0, least_win: [0u8; 4] }
    }
}

/// One entry of a block: a card pattern, which part of it counts, and the
/// bounds found for it.
#[derive(Clone, Copy, Debug)]
pub struct WinMatch {
    pub xor_set: u32,
    pub top_set: [u32; 4],
    pub top_mask: [u32; 4],
    pub mask_index: i32,
    pub last_mask_no: i32,
    pub first: NodeCards,
}

impl WinMatch {
    fn zero() -> (r: WinMatch)
        ensures
            forall|s: int| 0 <= s < 4 ==> #[trigger] r.first.least_win[s] == 0,
    {
        WinMatch {
            xor_set: 0,
            top_set: [0u32; 4],
            top_mask: [0u32; 4],
            mask_index: 0,
            last_mask_no: 0,
            first: NodeCards::zero(),
        }
    }
}

/// Up to 125 entries for one trick, hand and distribution.
#[derive(Clone, Copy, Debug)]
pub struct WinBlock {
    pub next_match_no: i32,
    pub next_write_no: i32,
    pub timestamp_read: i32,
    pub list: [WinMatch; 125],
}

impl WinBlock {
    /// An empty block.
    fn new() -> (r: WinBlock)
        ensures
            block_ok(r),
    {
        let z = WinMatch::zero();
        let r = WinBlock { next_match_no: 0, next_write_no: 0, timestamp_read: 0, list: [z; 125] };
        assert forall|i: int| 0 <= i < 125 implies r.list[i] == z by {}
        r
    }
}

/// A distribution bound to a block.
#[derive(Clone, Copy, Debug)]
pub struct PosSearch {
    pub pos_block: u32,
    pub key: i64,
}

/// One hash bucket: up to 32 distributions.
#[derive(Clone, Copy, Debug)]
pub struct DistHash {
    pub next_no: i32,
    pub next_write_no: i32,
    pub list: [PosSearch; 32],
}

/// For one set of ranks still in play: per suit, which hand holds each
/// rank (two bits per rank, highest first), and the same bits placed in
/// the byte of the pattern that belongs to the suit.
#[derive(Clone, Copy, Debug)]
pub struct Aggr {
    pub aggr_ranks: [u32; 4],
    pub aggr_bytes: [[u32; 4]; 4],
}

/// The bucket of `hand_dist`: the four distributions mixed and folded to
/// eight bits.
pub open spec fn hash8_spec(hand_dist: [i32; 4]) -> int {
    let h64: i64 = ((hand_dist[0] as i64) ^ ((hand_dist[1] * 5) as i64) ^ ((hand_dist[2] * 25) as i64)
        ^ ((hand_dist[3] * 125) as i64)) as i64;
    let h: i32 = h64 as i32;
    ((h ^ (h >> 5u32)) & 0xffi32) as int
}

/// The four distributions packed twelve bits apart.
pub open spec fn key_spec(hand_dist: [i32; 4]) -> i64 {
    ((hand_dist[0] as i64) << 36u64) | ((hand_dist[1] as i64) << 24u64) | ((hand_dist[2] as i64) << 12u64)
        | (hand_dist[3] as i64)
}

/// The pages that `megabytes` MiB hold.
pub open spec fn pages_for(megabytes: u32) -> int {
    (megabytes as int * 1048576) / (BLOCKS_PER_PAGE as int * WIN_BLOCK_BYTES as int)
}

/// Whether the entry `wp` matches the pattern `top_set` (on the bytes it
/// uses) and its bounds settle the search against `limit`: `Some(true)`
/// when its lower bound exceeds the limit, `Some(false)` when its upper
/// bound is at most the limit.
pub open spec fn match_spec(wp: WinMatch, top_set: [u32; 4], limit: i32) -> Option<bool> {
    if (wp.top_set[0] ^ top_set[0]) & wp.top_mask[0] != 0 {
        None
    } else if wp.last_mask_no != 1 && (wp.top_set[1] ^ top_set[1]) & wp.top_mask[1] != 0 {
        None
    } else if wp.last_mask_no != 1 && wp.last_mask_no != 2 && (wp.top_set[2] ^ top_set[2]) & wp.top_mask[2] != 0 {
        None
    } else if wp.first.lbound as i32 > limit {
        Some(true)
    } else if wp.first.ubound as i32 <= limit {
        Some(false)
    } else {
        None
    }
}

/// The bounds of `c` settle the search against `limit` in the direction
/// `lower`.
pub open spec fn settles(c: NodeCards, limit: i32, lower: bool) -> bool {
    if lower {
        c.lbound as i32 > limit
    } else {
        c.lbound as i32 <= limit && c.ubound as i32 <= limit
    }
}

/// The bounds the table keeps on a block.
pub open spec fn block_ok(b: WinBlock) -> bool {
    &&& 0 <= b.next_write_no <= b.next_match_no <= 125
    &&& forall|i: int, s: int| 0 <= i < 125 && 0 <= s < 4 ==> #[trigger] b.list[i].first.least_win[s] <= 13
}

/// The bounds the table keeps on a bucket with `nblocks` blocks in use.
pub open spec fn bucket_ok(d: DistHash, nblocks: int) -> bool {
    &&& 0 <= d.next_no <= 32
    &&& 0 <= d.next_write_no <= 32
    &&& forall|i: int| 0 <= i < d.next_no ==> (#[trigger] d.list[i]).pos_block < nblocks
}

/// Per-search transposition table.
pub struct TransTable {
    pages_default: u32,
    pages_maximum: u32,
    blocks: Vec<WinBlock>,
    /// The page the next block is taken from.
    page_no: u32,
    next_slot: u32,
    tt_root: Vec<DistHash>,
    last_block_seen: Vec<Option<u32>>,
    aggr: Vec<Aggr>,
    aggr_ready: bool,
    timestamp: i32,
    tt_lowest: Vec<i32>,
    mask_bytes: Vec<[[u32; 4]; 4]>,
}

impl TransTable {
    /// Well-formedness: every reference to a block points into the blocks
    /// in use, counters within their bounds, tables of full size.
    pub closed spec fn wf(&self) -> bool {
        &&& (self.blocks@.len() as int) % (BLOCKS_PER_PAGE as int) == 0
        &&& self.blocks@.len() <= 0x1000_0000
        &&& self.next_slot <= BLOCKS_PER_PAGE
        &&& self.blocks@.len() == 0 ==> self.next_slot == BLOCKS_PER_PAGE
        &&& self.blocks@.len() > 0 ==> (self.page_no as int + 1) * (BLOCKS_PER_PAGE as int) <= self.blocks@.len()
        &&& forall|i: int| 0 <= i < self.blocks@.len() ==> block_ok(#[trigger] self.blocks@[i])
        &&& self.tt_root@.len() == TT_TRICKS * 4 * TT_HASH_BUCKETS
        &&& forall|i: int| 0 <= i < self.tt_root@.len() ==> bucket_ok(#[trigger] self.tt_root@[i], self.blocks@.len() as int)
        &&& self.last_block_seen@.len() == TT_TRICKS * 4
        &&& forall|i: int|
            0 <= i < self.last_block_seen@.len() ==> (#[trigger] self.last_block_seen@[i] matches Some(b) ==> b < self.blocks@.len())
        &&& self.aggr@.len() == 8192
        &&& self.tt_lowest@.len() == 8192
        &&& self.mask_bytes@.len() == 8192
        &&& forall|i: int| 0 <= i < 8192 ==> 2 <= #[trigger] self.tt_lowest@[i] <= 15
    }

    /// No block is remembered as last looked up.
    pub closed spec fn all_unseen(&self) -> bool {
        forall|i: int| 0 <= i < self.last_block_seen@.len() ==> #[trigger] self.last_block_seen@[i] is None
    }

    /// The count of hits so far.
    pub closed spec fn timestamp_spec(&self) -> i32 {
        self.timestamp
    }

    /// The table of holder patterns, by rank set.
    pub closed spec fn aggr_spec(&self) -> Seq<Aggr> {
        self.aggr@
    }

    /// The lowest rank code of suit `s` in the pattern: 15 for a suit that
    /// did not decide, else that of its rank set.
    pub closed spec fn pattern_low(&self, aggr_target: [u32; 4], win_ranks: [u16; 4], s: int) -> i32 {
        if win_ranks[s] == 0 {
            15
        } else {
            self.tt_lowest@[pattern_ranks(aggr_target, win_ranks, s)]
        }
    }

    /// The holders words of the suits below `n` that decided, combined by
    /// exclusive or.
    pub closed spec fn pattern_xor(&self, aggr_target: [u32; 4], win_ranks: [u16; 4], n: int) -> u32
        decreases n,
    {
        if n <= 0 {
            0
        } else if win_ranks[n - 1] == 0 {
            self.pattern_xor(aggr_target, win_ranks, n - 1)
        } else {
            self.pattern_xor(aggr_target, win_ranks, n - 1) ^ self.aggr@[pattern_ranks(aggr_target, win_ranks, n - 1)].aggr_ranks[n - 1]
        }
    }

    /// Whether `e` is the entry that stores `cards` for a position with the
    /// ranks `aggr_target` in play, of which `win_ranks` decided: its
    /// pattern bytes and mask are those of the deciding rank sets of the
    /// suits, its lowest ranks those of the same sets, and its bounds and
    /// best move those of `cards`.
    pub closed spec fn pattern_of(&self, aggr_target: [u32; 4], win_ranks: [u16; 4], cards: NodeCards, e: WinMatch) -> bool {
        &&& forall|q: int| 0 <= q < 4 ==> #[trigger] e.first.least_win[q] == (if win_ranks[q] == 0 {
            0u8
        } else {
            (15 - self.pattern_low(aggr_target, win_ranks, q)) as u8
        })
        &&& e.first.ubound == cards.ubound
        &&& e.first.lbound == cards.lbound
        &&& e.first.best_move_suit == cards.best_move_suit
        &&& e.first.best_move_rank == cards.best_move_rank
        &&& e.xor_set == self.pattern_xor(aggr_target, win_ranks, 4)
        &&& forall|b: int| 0 <= b < 4 ==> #[trigger] e.top_set[b] == (self.aggr@[pattern_ranks(aggr_target, win_ranks, 0)].aggr_bytes[0][b]
            | self.aggr@[pattern_ranks(aggr_target, win_ranks, 1)].aggr_bytes[1][b] | self.aggr@[pattern_ranks(aggr_target, win_ranks, 2)].aggr_bytes[2][b]
            | self.aggr@[pattern_ranks(aggr_target, win_ranks, 3)].aggr_bytes[3][b])
        &&& forall|b: int| 0 <= b < 4 ==> #[trigger] e.top_mask[b] == (self.mask_bytes@[pattern_ranks(aggr_target, win_ranks, 0)][0][b]
            | self.mask_bytes@[pattern_ranks(aggr_target, win_ranks, 1)][1][b] | self.mask_bytes@[pattern_ranks(aggr_target, win_ranks, 2)][2][b]
            | self.mask_bytes@[pattern_ranks(aggr_target, win_ranks, 3)][3][b])
        &&& e.mask_index == ((self.pattern_low(aggr_target, win_ranks, 0) * 4096) as i32 | (self.pattern_low(aggr_target, win_ranks, 1) * 256) as i32
            | (self.pattern_low(aggr_target, win_ranks, 2) * 16) as i32 | self.pattern_low(aggr_target, win_ranks, 3))
        &&& e.last_mask_no == (if e.top_mask[1] == 0 {
            1i32
        } else if e.top_mask[2] == 0 {
            2i32
        } else if e.top_mask[3] == 0 {
            3i32
        } else {
            4i32
        })
    }

    /// Byte `b` of the pattern of the ranks `aggr_target` in play: the
    /// holders of the ranks of each suit, in that suit's byte.
    pub closed spec fn top_byte(&self, aggr_target: [u32; 4], b: int) -> u32 {
        self.aggr@[aggr_target[0] as int].aggr_bytes[0][b] | self.aggr@[aggr_target[1] as int].aggr_bytes[1][b]
            | self.aggr@[aggr_target[2] as int].aggr_bytes[2][b] | self.aggr@[aggr_target[3] as int].aggr_bytes[3][b]
    }

    /// What a lookup of `(trick, hand)` with the ranks `aggr_target` in
    /// play and the distribution `hand_dist` finds against `limit`: in the
    /// block bound to the distribution in its bucket, if any, the entry
    /// [`block_answer`] picks for the position's pattern, and whether it is
    /// its lower bound that settles the search.
    pub closed spec fn probe(&self, trick: int, hand: int, aggr_target: [u32; 4], hand_dist: [i32; 4], limit: i32) -> Option<(NodeCards, bool)> {
        let idx = (trick * 4 + hand) * TT_HASH_BUCKETS + hash8_spec(hand_dist);
        match key_block(self.tt_root@[idx], key_spec(hand_dist), 0) {
            None => None,
            Some(bid) => {
                let top = [self.top_byte(aggr_target, 0), self.top_byte(aggr_target, 1), self.top_byte(aggr_target, 2),
                    self.top_byte(aggr_target, 3)];
                match block_answer(self.blocks@[bid as int], top, limit) {
                    None => None,
                    Some(x) => Some((self.blocks@[bid as int].list[x.0].first, x.1)),
                }
            },
        }
    }

    /// The blocks of the table.
    pub closed spec fn blocks_spec(&self) -> Seq<WinBlock> {
        self.blocks@
    }

    /// The lookup tables are those of `other`.
    pub closed spec fn same_tables(&self, other: &TransTable) -> bool {
        &&& self.aggr == other.aggr
        &&& self.tt_lowest == other.tt_lowest
        &&& self.mask_bytes == other.mask_bytes
    }

    /// The page budget kept across resets.
    pub closed spec fn pages_default_spec(&self) -> u32 {
        self.pages_default
    }

    /// The page budget that forces a reset.
    pub closed spec fn pages_maximum_spec(&self) -> u32 {
        self.pages_maximum
    }

    /// The pages in use.
    pub closed spec fn page_count_spec(&self) -> int {
        (self.blocks@.len() as int) / (BLOCKS_PER_PAGE as int)
    }

    /// The block last looked up for `(trick, hand)`, if any.
    pub closed spec fn last_seen_spec(&self, trick: int, hand: int) -> Option<u32> {
        self.last_block_seen@[trick * 4 + hand]
    }

    /// Whether no distribution is stored.
    pub closed spec fn is_empty_spec(&self) -> bool {
        forall|i: int| 0 <= i < self.tt_root@.len() ==> (#[trigger] self.tt_root@[i]).next_no == 0
    }

    /// A table with the default memory budget.
    pub fn new() -> (r: TransTable)
        ensures
            r.wf(),
            r.pages_default_spec() == pages_for(DEFAULT_MEMORY_MB),
            r.pages_maximum_spec() == pages_for(MAX_MEMORY_MB),
            r.page_count_spec() == 0,
            r.is_empty_spec(),
    {
        TransTable::with_memory(DEFAULT_MEMORY_MB, MAX_MEMORY_MB)
    }

    /// A table with a default and a maximum memory budget in MiB.
    pub fn with_memory(default_mb: u32, max_mb: u32) -> (r: TransTable)
        ensures
            r.wf(),
            r.pages_default_spec() == pages_for(default_mb),
            r.pages_maximum_spec() == pages_for(max_mb),
            r.page_count_spec() == 0,
            r.is_empty_spec(),
            forall|t: int, h: int| 0 <= t < TT_TRICKS && 0 <= h < 4 ==> #[trigger] r.last_seen_spec(t, h) is None,
    {
        let empty_dist = DistHash { next_no: 0, next_write_no: 0, list: [PosSearch { pos_block: 0, key: 0 }; 32] };
        let mut tt_root: Vec<DistHash> = Vec::new();
        let mut i: usize = 0;
        while i < TT_TRICKS * 4 * TT_HASH_BUCKETS
            invariant
                i <= TT_TRICKS * 4 * TT_HASH_BUCKETS,
                tt_root@.len() == i,
                empty_dist.next_no == 0 && empty_dist.next_write_no == 0,
                forall|q: int| 0 <= q < i ==> #[trigger] tt_root@[q] == empty_dist,
            decreases TT_TRICKS * 4 * TT_HASH_BUCKETS - i,
        {
            tt_root.push(empty_dist);
            i += 1;
        }
        let mut last_block_seen: Vec<Option<u32>> = Vec::new();
        let mut j: usize = 0;
        while j < TT_TRICKS * 4
            invariant
                j <= TT_TRICKS * 4,
                last_block_seen@.len() == j,
                forall|q: int| 0 <= q < j ==> #[trigger] last_block_seen@[q] is None,
            decreases TT_TRICKS * 4 - j,
        {
            last_block_seen.push(None);
            j += 1;
        }
        let zero_aggr = Aggr { aggr_ranks: [0u32; 4], aggr_bytes: [[0u32; 4]; 4] };
        let mut aggr: Vec<Aggr> = Vec::new();
        let mut k: usize = 0;
        while k < 8192
            invariant
                k <= 8192,
                aggr@.len() == k,
            decreases 8192 - k,
        {
            aggr.push(zero_aggr);
            k += 1;
        }
        let r = TransTable {
            pages_default: Self::mb_to_pages(default_mb),
            pages_maximum: Self::mb_to_pages(max_mb),
            blocks: Vec::new(),
            page_no: 0,
            next_slot: BLOCKS_PER_PAGE as u32,
            tt_root,
            last_block_seen,
            aggr,
            aggr_ready: false,
            timestamp: 0,
            tt_lowest: build_tt_lowest(),
            mask_bytes: build_mask_bytes(),
        };
        proof {
            assert(r.blocks@.len() == 0);
            assert forall|t: int, h: int| 0 <= t < TT_TRICKS && 0 <= h < 4 implies #[trigger] r.last_seen_spec(t, h) is None by {
                assert(0 <= t * 4 + h < 48) by (nonlinear_arith)
                    requires
                        0 <= t < 12,
                        0 <= h < 4,
                ;
            }
        }
        r
    }

    /// Fill the table of patterns from `hand_lookup[s][r]`, the hand that
    /// holds rank `r` of suit `s`: for each set of ranks, two bits per rank
    /// naming its holder, highest rank first.
    pub fn init(&mut self, hand_lookup: &[[i32; 15]; 4])
        requires
            old(self).wf(),
        ensures
            final(self).wf(),
            final(self).pages_default_spec() == old(self).pages_default_spec(),
            final(self).pages_maximum_spec() == old(self).pages_maximum_spec(),
            final(self).page_count_spec() == old(self).page_count_spec(),
            final(self).is_empty_spec() == old(self).is_empty_spec(),
            forall|t: int, h: int| #[trigger] final(self).last_seen_spec(t, h) == old(self).last_seen_spec(t, h),
            forall|ind: int| 0 <= ind < 8192 ==> aggr_entry_ok(*hand_lookup, ind as nat, #[trigger] final(self).aggr_spec()[ind]),
    {
        let z = Aggr { aggr_ranks: [0u32; 4], aggr_bytes: [[0u32; 4]; 4] };
        proof {
            let zr = z.aggr_ranks;
            assert(zr[0] == 0 && zr[1] == 0 && zr[2] == 0 && zr[3] == 0);
            let w: u32 = 0;
            assert((w << 6u32) & 0xff00_0000u32 == 0 && (w << 14u32) & 0xff00_0000u32 == 0 && (w << 22u32) & 0xff00_0000u32
                == 0 && (w << 30u32) & 0xff00_0000u32 == 0 && (w >> 2u32) & 0x00ff_0000u32 == 0 && (w << 6u32)
                & 0x00ff_0000u32 == 0 && (w << 14u32) & 0x00ff_0000u32 == 0 && (w << 22u32) & 0x00ff_0000u32 == 0 && (w
                >> 10u32) & 0x0000_ff00u32 == 0 && (w >> 2u32) & 0x0000_ff00u32 == 0 && (w << 6u32) & 0x0000_ff00u32 == 0
                && (w << 14u32) & 0x0000_ff00u32 == 0 && (w >> 18u32) & 0x0000_00ffu32 == 0 && (w >> 10u32) & 0x0000_00ffu32
                == 0 && (w >> 2u32) & 0x0000_00ffu32 == 0 && (w << 6u32) & 0x0000_00ffu32 == 0) by (bit_vector)
                requires
                    w == 0,
            ;
            assert forall|s: int, b: int| 0 <= s < 4 && 0 <= b < 4 implies #[trigger] z.aggr_bytes[s][b] == layout_byte(z.aggr_ranks, s, b) by {
                assert(z.aggr_bytes[s][b] == 0);
            }
        }
        self.aggr.set(0, z);
        let mut top_bit_rank: usize = 1;
        let mut top_bit_no: usize = 2;
        let ghost mut e: nat = 0;
        let mut ind: usize = 1;
        proof {
            vstd::arithmetic::power2::lemma2_to64();
        }
        while ind < 8192
            invariant
                1 <= ind <= 8192,
                self.aggr@.len() == 8192,
                top_bit_rank == vstd::arithmetic::power2::pow2(e),
                top_bit_no == 2 + e,
                1 <= top_bit_rank <= ind,
                ind <= 2 * top_bit_rank,
                e <= 12,
                self.wf() <==> old(self).wf(),
                self.blocks == old(self).blocks,
                self.tt_root == old(self).tt_root,
                self.last_block_seen == old(self).last_block_seen,
                self.next_slot == old(self).next_slot,
                self.page_no == old(self).page_no,
                self.tt_lowest == old(self).tt_lowest,
                self.mask_bytes == old(self).mask_bytes,
                self.pages_default == old(self).pages_default,
                self.pages_maximum == old(self).pages_maximum,
                forall|i: int| 0 <= i < ind ==> aggr_entry_ok(*hand_lookup, i as nat, #[trigger] self.aggr@[i]),
            decreases 8192 - ind,
        {
            if ind >= 2 * top_bit_rank {
                proof {
                    vstd::arithmetic::power2::lemma2_to64();
                    vstd::arithmetic::power2::lemma_pow2_unfold(e + 1);
                    if e + 1 > 13 {
                        vstd::arithmetic::power2::lemma_pow2_strictly_increases(13, e + 1);
                    }
                }
                top_bit_rank = 2 * top_bit_rank;
                top_bit_no = top_bit_no + 1;
                proof {
                    e = e + 1;
                }
            }
            let mut ag = self.aggr[ind - top_bit_rank];
            let ghost prev = ag;
            proof {
                vstd::arithmetic::power2::lemma_pow2_unfold(e + 1);
                lemma_top_index(ind as nat, e);
                assert(aggr_entry_ok(*hand_lookup, (ind - top_bit_rank) as nat, prev));
            }
            let mut s: usize = 0;
            while s < 4
                invariant
                    s <= 4,
                    top_bit_no <= 14,
                    top_bit_no == 2 + e,
                    1 <= ind < 8192,
                    top_bit_rank == vstd::arithmetic::power2::pow2(e),
                    top_bit_rank <= ind < 2 * top_bit_rank,
                    top_index(ind as nat) == e,
                    aggr_entry_ok(*hand_lookup, (ind - top_bit_rank) as nat, prev),
                    forall|q: int| 0 <= q < s ==> #[trigger] ag.aggr_ranks[q] == holders_word(*hand_lookup, ind as nat, q),
                    forall|q: int| s <= q < 4 ==> #[trigger] ag.aggr_ranks[q] == prev.aggr_ranks[q],
                decreases 4 - s,
            {
                let h = hand_lookup[s][top_bit_no] as u32;
                ag.aggr_ranks[s] = (ag.aggr_ranks[s] >> 2u32) | (h << 24u32);
                s += 1;
            }
            ag.aggr_bytes = byte_layout(ag.aggr_ranks);
            self.aggr.set(ind, ag);
            ind += 1;
        }
        self.aggr_ready = true;
    }

    /// Empty every bucket and forget the blocks last looked up.
    fn init_tt(&mut self)
        requires
            old(self).wf() || (old(self).tt_root@.len() == TT_TRICKS * 4 * TT_HASH_BUCKETS
                && old(self).last_block_seen@.len() == TT_TRICKS * 4),
        ensures
            final(self).tt_root@.len() == old(self).tt_root@.len(),
            forall|i: int| 0 <= i < final(self).tt_root@.len() ==> (#[trigger] final(self).tt_root@[i]).next_no == 0
                && final(self).tt_root@[i].next_write_no == 0,
            final(self).last_block_seen@.len() == old(self).last_block_seen@.len(),
            forall|i: int| 0 <= i < final(self).last_block_seen@.len() ==> #[trigger] final(self).last_block_seen@[i] is None,
            final(self).blocks == old(self).blocks,
            final(self).next_slot == old(self).next_slot,
            final(self).page_no == old(self).page_no,
            final(self).aggr == old(self).aggr,
            final(self).tt_lowest == old(self).tt_lowest,
            final(self).mask_bytes == old(self).mask_bytes,
            final(self).pages_default == old(self).pages_default,
            final(self).pages_maximum == old(self).pages_maximum,
            final(self).timestamp == old(self).timestamp,
    {
        let n = self.tt_root.len();
        let mut i: usize = 0;
        while i < n
            invariant
                i <= n,
                n == self.tt_root@.len(),
                self.last_block_seen@.len() == old(self).last_block_seen@.len(),
                self.tt_root@.len() == old(self).tt_root@.len(),
                forall|q: int| 0 <= q < i ==> (#[trigger] self.tt_root@[q]).next_no == 0 && self.tt_root@[q].next_write_no == 0,
                self.blocks == old(self).blocks,
                self.next_slot == old(self).next_slot,
                self.page_no == old(self).page_no,
                self.aggr == old(self).aggr,
                self.tt_lowest == old(self).tt_lowest,
                self.mask_bytes == old(self).mask_bytes,
                self.pages_default == old(self).pages_default,
                self.pages_maximum == old(self).pages_maximum,
                self.timestamp == old(self).timestamp,
            decreases n - i,
        {
            let mut d = self.tt_root[i];
            d.next_no = 0;
            d.next_write_no = 0;
            self.tt_root.set(i, d);
            i += 1;
        }
        let m = self.last_block_seen.len();
        let mut j: usize = 0;
        while j < m
            invariant
                j <= m,
                m == self.last_block_seen@.len(),
                self.tt_root@.len() == old(self).tt_root@.len(),
                forall|q: int| 0 <= q < self.tt_root@.len() ==> (#[trigger] self.tt_root@[q]).next_no == 0 && self.tt_root@[q].next_write_no == 0,
                forall|q: int| 0 <= q < j ==> #[trigger] self.last_block_seen@[q] is None,
                self.blocks == old(self).blocks,
                self.next_slot == old(self).next_slot,
                self.page_no == old(self).page_no,
                self.aggr == old(self).aggr,
                self.tt_lowest == old(self).tt_lowest,
                self.mask_bytes == old(self).mask_bytes,
                self.pages_default == old(self).pages_default,
                self.pages_maximum == old(self).pages_maximum,
                self.timestamp == old(self).timestamp,
            decreases m - j,
        {
            self.last_block_seen.set(j, None);
            j += 1;
        }
    }

    /// Empty the table between solves: drop the pages above the default
    /// number and keep the others, take the next block from the first page
    /// again, empty every bucket and forget the blocks last looked up.
    pub fn reset(&mut self)
        requires
            old(self).wf(),
        ensures
            final(self).wf(),
            final(self).is_empty_spec(),
            forall|t: int, h: int| 0 <= t < TT_TRICKS && 0 <= h < 4 ==> #[trigger] final(self).last_seen_spec(t, h) is None,
            final(self).page_count_spec() == if old(self).page_count_spec() < old(self).pages_default_spec() {
                old(self).page_count_spec()
            } else {
                old(self).pages_default_spec() as int
            },
            final(self).pages_default_spec() == old(self).pages_default_spec(),
            final(self).pages_maximum_spec() == old(self).pages_maximum_spec(),
            final(self).same_tables(old(self)),
            final(self).all_unseen(),
            final(self).timestamp_spec() == 0,
    {
        if self.blocks.len() == 0 {
            self.init_tt();
            self.timestamp = 0;
            proof {
                self.lemma_last_seen_index();
            }
            return;
        }
        if self.blocks.len() / BLOCKS_PER_PAGE > self.pages_default as usize {
            self.blocks.truncate(self.pages_default as usize * BLOCKS_PER_PAGE);
        }
        self.page_no = 0;
        if self.blocks.len() == 0 {
            self.next_slot = BLOCKS_PER_PAGE as u32;
        } else {
            self.next_slot = 0;
        }
        self.init_tt();
        self.timestamp = 0;
        proof {
            self.lemma_last_seen_index();
        }
    }

    proof fn lemma_last_seen_index(&self)
        ensures
            forall|t: int, h: int| 0 <= t < TT_TRICKS && 0 <= h < 4 ==> 0 <= #[trigger] (t * 4 + h) < 48,
    {
        assert forall|t: int, h: int| 0 <= t < TT_TRICKS && 0 <= h < 4 implies 0 <= #[trigger] (t * 4 + h) < 48 by {
            assert(0 <= t * 4 + h < 48) by (nonlinear_arith)
                requires
                    0 <= t < 12,
                    0 <= h < 4,
            ;
        }
    }

    /// The slot of the next block of the last page, cleared; none when the
    /// last page is used up.
    fn bump_block(&mut self) -> (r: Option<u32>)
        requires
            old(self).wf(),
        ensures
            final(self).wf(),
            final(self).blocks@.len() == old(self).blocks@.len(),
            final(self).tt_root == old(self).tt_root,
            final(self).last_block_seen == old(self).last_block_seen,
            final(self).pages_default == old(self).pages_default,
            final(self).pages_maximum == old(self).pages_maximum,
            final(self).aggr == old(self).aggr,
            final(self).tt_lowest == old(self).tt_lowest,
            final(self).mask_bytes == old(self).mask_bytes,
            final(self).timestamp == old(self).timestamp,
            r matches Some(b) ==> b < final(self).blocks@.len(),
            r is None <==> old(self).next_slot >= BLOCKS_PER_PAGE,
    {
        if self.next_slot < BLOCKS_PER_PAGE as u32 {
            let page_idx = self.page_no as usize;
            let slot = self.next_slot as usize;
            self.next_slot = self.next_slot + 1;
            let id = page_idx * BLOCKS_PER_PAGE + slot;
            let mut b = self.blocks[id];
            b.next_match_no = 0;
            b.next_write_no = 0;
            b.timestamp_read = 0;
            self.blocks.set(id, b);
            Some(id as u32)
        } else {
            None
        }
    }

    /// A fresh page of empty blocks at the end of the pool.
    fn push_page(&mut self)
        requires
            old(self).wf(),
            old(self).blocks@.len() + BLOCKS_PER_PAGE <= 0x1000_0000,
        ensures
            final(self).wf(),
            final(self).blocks@.len() == old(self).blocks@.len() + BLOCKS_PER_PAGE,
            final(self).next_slot == 0,
            (final(self).page_no as int + 1) * (BLOCKS_PER_PAGE as int) == final(self).blocks@.len(),
            final(self).tt_root == old(self).tt_root,
            final(self).last_block_seen == old(self).last_block_seen,
            final(self).pages_default == old(self).pages_default,
            final(self).pages_maximum == old(self).pages_maximum,
            final(self).aggr == old(self).aggr,
            final(self).tt_lowest == old(self).tt_lowest,
            final(self).mask_bytes == old(self).mask_bytes,
            final(self).timestamp == old(self).timestamp,
    {
        let b = WinBlock::new();
        let mut i: usize = 0;
        let ghost n0 = self.blocks@.len();
        while i < BLOCKS_PER_PAGE
            invariant
                i <= BLOCKS_PER_PAGE,
                block_ok(b),
                self.blocks@.len() == n0 + i,
                n0 == old(self).blocks@.len(),
                forall|q: int| 0 <= q < self.blocks@.len() ==> block_ok(#[trigger] self.blocks@[q]),
                self.tt_root == old(self).tt_root,
                self.last_block_seen == old(self).last_block_seen,
                self.pages_default == old(self).pages_default,
                self.pages_maximum == old(self).pages_maximum,
                self.aggr == old(self).aggr,
                self.tt_lowest == old(self).tt_lowest,
                self.mask_bytes == old(self).mask_bytes,
                self.timestamp == old(self).timestamp,
            decreases BLOCKS_PER_PAGE - i,
        {
            self.blocks.push(b);
            i += 1;
        }
        self.next_slot = 0;
        self.page_no = (self.blocks.len() / BLOCKS_PER_PAGE - 1) as u32;
        proof {
            assert forall|i: int| 0 <= i < self.tt_root@.len() implies bucket_ok(#[trigger] self.tt_root@[i], self.blocks@.len() as int) by {
                assert(bucket_ok(old(self).tt_root@[i], old(self).blocks@.len() as int));
            }
            assert((n0 + 1000) % 1000 == n0 % 1000 + 0) by (nonlinear_arith)
                requires
                    n0 % 1000 == 0,
            ;
        }
    }

    /// A fresh block: the next of the last page, else the first of a new
    /// page while the maximum is not reached, else the table is reset and
    /// the first block of its first page is used.
    fn get_next_card_block(&mut self) -> (r: u32)
        requires
            old(self).wf(),
        ensures
            final(self).wf(),
            r < final(self).blocks@.len(),
            block_ok(final(self).blocks@[r as int]),
            final(self).pages_default == old(self).pages_default,
            final(self).pages_maximum == old(self).pages_maximum,
            final(self).aggr == old(self).aggr,
            final(self).same_tables(old(self)),
            (final(self).tt_root == old(self).tt_root && final(self).last_block_seen == old(self).last_block_seen)
                || (final(self).is_empty_spec() && forall|i: int| 0 <= i < final(self).last_block_seen@.len()
                ==> #[trigger] final(self).last_block_seen@[i] is None),
            final(self).tt_root@.len() == old(self).tt_root@.len(),
            final(self).timestamp == old(self).timestamp || final(self).timestamp == 0,
    {
        if let Some(b) = self.bump_block() {
            return b;
        }
        if self.blocks.len() > 0 && (self.page_no as usize + 1) * BLOCKS_PER_PAGE < self.blocks.len() {
            self.page_no = self.page_no + 1;
            self.next_slot = 0;
            let r = self.bump_block();
            return match r {
                Some(b) => b,
                None => 0,
            };
        }
        if self.blocks.len() / BLOCKS_PER_PAGE < self.pages_maximum as usize
            && self.blocks.len() + BLOCKS_PER_PAGE <= 0x1000_0000
        {
            self.push_page();
            let r = self.bump_block();
            return match r {
                Some(b) => b,
                None => 0,
            };
        }
        self.reset();
        if self.blocks.len() == 0 {
            self.push_page();
        }
        let r = self.bump_block();
        match r {
            Some(b) => b,
            None => 0,
        }
    }

    /// The bucket of `hand_dist`.
    pub fn hash8(hand_dist: &[i32; 4]) -> (r: usize)
        requires
            forall|h: int| 0 <= h < 4 ==> 0 <= #[trigger] hand_dist[h] < 4096,
        ensures
            r == hash8_spec(*hand_dist),
            r < TT_HASH_BUCKETS,
    {
        let h64: i64 = (hand_dist[0] as i64) ^ ((hand_dist[1] as i64) * 5) ^ ((hand_dist[2] as i64) * 25)
            ^ ((hand_dist[3] as i64) * 125);
        let h: i32 = h64 as i32;
        let r = (h ^ (h >> 5u32)) & 0xffi32;
        assert(0 <= r < 256) by (bit_vector)
            requires
                r == (h ^ (h >> 5u32)) & 0xffi32,
        ;
        r as usize
    }

    /// The four distributions packed twelve bits apart.
    pub fn suit_lengths_key(hand_dist: &[i32; 4]) -> (r: i64)
        ensures
            r == key_spec(*hand_dist),
    {
        ((hand_dist[0] as i64) << 36u64) | ((hand_dist[1] as i64) << 24u64) | ((hand_dist[2] as i64) << 12u64)
            | (hand_dist[3] as i64)
    }

    /// The block bound to distribution `key` in bucket `hashkey` of
    /// `(trick, hand)`, and whether it is new (nothing to match yet): the
    /// bound block if the key is present; else a fresh block bound in a
    /// free place, or, in a full bucket, the block in the place next to
    /// write, emptied and rebound.
    fn lookup_suit(&mut self, trick: usize, hand: usize, hashkey: usize, key: i64) -> (r: (u32, bool))
        requires
            old(self).wf(),
            trick < TT_TRICKS,
            hand < 4,
            hashkey < TT_HASH_BUCKETS,
        ensures
            final(self).wf(),
            r.0 < final(self).blocks@.len(),
            final(self).same_tables(old(self)),
            final(self).pages_default == old(self).pages_default,
            final(self).pages_maximum == old(self).pages_maximum,
            r.1 ==> final(self).blocks@[r.0 as int].next_match_no == 0,
            old(self).tt_root@[(trick * 4 + hand) * TT_HASH_BUCKETS + hashkey].next_no == 0 ==> r.1,
            key_block(old(self).tt_root@[(trick * 4 + hand) * TT_HASH_BUCKETS + hashkey], key, 0) is None ==> r.1,
            key_block(old(self).tt_root@[(trick * 4 + hand) * TT_HASH_BUCKETS + hashkey], key, 0) matches Some(b)
                ==> r == (b, false) && *final(self) == *old(self),
    {
        let idx = (trick * 4 + hand) * TT_HASH_BUCKETS + hashkey;
        let dp = self.tt_root[idx];
        let mut i: usize = 0;
        while i < dp.next_no as usize
            invariant
                i <= dp.next_no <= 32,
                idx == (trick * 4 + hand) * TT_HASH_BUCKETS + hashkey,
                dp == old(self).tt_root@[idx as int],
                *self == *old(self),
                key_block(dp, key, 0) == key_block(dp, key, i as int),
                bucket_ok(dp, self.blocks@.len() as int),
                self.wf(),
                self.same_tables(old(self)),
                self.pages_default == old(self).pages_default,
                self.pages_maximum == old(self).pages_maximum,
            decreases dp.next_no - i,
        {
            if dp.list[i].key == key {
                return (dp.list[i].pos_block, false);
            }
            i += 1;
        }
        let n = dp.next_no as usize;
        if n == DISTS_PER_ENTRY {
            let write_no = dp.next_write_no as usize;
            let m = if write_no == DISTS_PER_ENTRY { 0 } else { write_no };
            let bid = dp.list[m].pos_block;
            let mut bucket = dp;
            if bucket.next_write_no == DISTS_PER_ENTRY as i32 {
                bucket.next_write_no = 1;
            } else {
                bucket.next_write_no = bucket.next_write_no + 1;
            }
            bucket.list[m].key = key;
            bucket.list[m].pos_block = bid;
            self.tt_root.set(idx, bucket);
            let mut b = self.blocks[bid as usize];
            b.next_match_no = 0;
            b.next_write_no = 0;
            self.blocks.set(bid as usize, b);
            proof {
                assert forall|q: int| 0 <= q < self.tt_root@.len() implies bucket_ok(#[trigger] self.tt_root@[q], self.blocks@.len() as int) by {
                    if q != idx {
                        assert(bucket_ok(old(self).tt_root@[q], old(self).blocks@.len() as int));
                    }
                }
            }
            return (bid, true);
        }
        let block_id = self.get_next_card_block();
        let timestamp = self.timestamp;
        let mut bucket = self.tt_root[idx];
        let n_now = bucket.next_no as usize;
        let m: usize;
        if n_now == DISTS_PER_ENTRY {
            let w = bucket.next_write_no as usize;
            m = if w == DISTS_PER_ENTRY { 0 } else { w };
        } else {
            bucket.next_no = bucket.next_no + 1;
            m = n_now;
        }
        bucket.next_write_no = (m + 1) as i32;
        if bucket.next_write_no > DISTS_PER_ENTRY as i32 {
            bucket.next_write_no = 1;
        }
        bucket.list[m].pos_block = block_id;
        bucket.list[m].key = key;
        self.tt_root.set(idx, bucket);
        let mut b = self.blocks[block_id as usize];
        b.timestamp_read = timestamp;
        b.next_match_no = 0;
        b.next_write_no = 0;
        self.blocks.set(block_id as usize, b);
        proof {
            assert forall|q: int| 0 <= q < self.tt_root@.len() implies bucket_ok(#[trigger] self.tt_root@[q], self.blocks@.len() as int) by {
                if q != idx {
                }
            }
        }
        (block_id, true)
    }

    /// Whether the entry `wp` matches `top_set` and settles the search
    /// against `limit` (see [`match_spec`]).
    pub fn match_entry(wp: &WinMatch, top_set: &[u32; 4], limit: i32) -> (r: Option<bool>)
        ensures
            r == match_spec(*wp, *top_set, limit),
    {
        if (wp.top_set[0] ^ top_set[0]) & wp.top_mask[0] != 0 {
            return None;
        }
        if wp.last_mask_no != 1 {
            if (wp.top_set[1] ^ top_set[1]) & wp.top_mask[1] != 0 {
                return None;
            }
            if wp.last_mask_no != 2 {
                if (wp.top_set[2] ^ top_set[2]) & wp.top_mask[2] != 0 {
                    return None;
                }
            }
        }
        if wp.first.lbound as i32 > limit {
            return Some(true);
        }
        if (wp.first.ubound as i32) <= limit {
            return Some(false);
        }
        None
    }

    /// The first entry of block `block_id` that matches `top_set` and
    /// settles the search against `limit`, looking from the most recently
    /// written entry down, then from the last entry down to it.
    fn lookup_cards(&mut self, block_id: u32, top_set: &[u32; 4], limit: i32, lower_flag: &mut bool) -> (r: Option<NodeCards>)
        requires
            old(self).wf(),
            block_id < old(self).blocks@.len(),
        ensures
            final(self).wf(),
            final(self).same_tables(old(self)),
            final(self).pages_default == old(self).pages_default,
            final(self).pages_maximum == old(self).pages_maximum,
            final(self).tt_root == old(self).tt_root,
            final(self).last_block_seen == old(self).last_block_seen,
            r is None ==> *final(lower_flag) == *old(lower_flag),
            match block_answer(old(self).blocks@[block_id as int], *top_set, limit) {
                None => r is None,
                Some(x) => r == Some(old(self).blocks@[block_id as int].list[x.0].first) && *final(lower_flag) == x.1,
            },
            r is None <==> forall|i: int| 0 <= i < old(self).blocks@[block_id as int].next_match_no ==> #[trigger] match_spec(
                old(self).blocks@[block_id as int].list[i], *top_set, limit) is None,
            r matches Some(c) ==> (exists|i: int| 0 <= i < 125 && match_spec(old(self).blocks@[block_id as int].list[i], *top_set, limit)
                == Some(*final(lower_flag)) && #[trigger] old(self).blocks@[block_id as int].list[i].first == c),
            r matches Some(c) ==> settles(c, limit, *final(lower_flag)),
    {
        let bp = self.blocks[block_id as usize];
        let n: i32 = bp.next_write_no - 1;
        let n2: i32 = bp.next_match_no - 1;
        let mut found: i32 = -1;
        let mut found_lower = false;
        let mut i: i32 = n;
        while i >= 0 && found == -1
            invariant
                -1 <= i <= n <= 124,
                bp == old(self).blocks@[block_id as int],
                n == bp.next_write_no - 1,
                block_ok(bp),
                found == -1 || 0 <= found <= n,
                found >= 0 ==> match_spec(bp.list[found as int], *top_set, limit) == Some(found_lower),
                found == -1 ==> forall|k: int| i < k <= n ==> #[trigger] match_spec(bp.list[k], *top_set, limit) is None,
                found == -1 ==> scan_down(bp.list, *top_set, limit, n as int, 0) == scan_down(bp.list, *top_set, limit, i as int, 0),
                found >= 0 ==> scan_down(bp.list, *top_set, limit, n as int, 0) == Some((found as int, found_lower)),
            decreases i + 1,
        {
            let res = Self::match_entry(&bp.list[i as usize], top_set, limit);
            if let Some(lower) = res {
                found = i;
                found_lower = lower;
            }
            i -= 1;
        }
        if found == -1 {
            let mut j: i32 = n2;
            while j > n && found == -1
                invariant
                    n <= j <= n2 <= 124,
                    -1 <= n,
                    n2 == bp.next_match_no - 1,
                    n == bp.next_write_no - 1,
                    found == -1 || 0 <= found <= n2,
                    found >= 0 ==> match_spec(bp.list[found as int], *top_set, limit) == Some(found_lower),
                    found == -1 ==> forall|k: int| 0 <= k <= n ==> #[trigger] match_spec(bp.list[k], *top_set, limit) is None,
                    found == -1 ==> forall|k: int| j < k <= n2 ==> #[trigger] match_spec(bp.list[k], *top_set, limit) is None,
                    found == -1 ==> scan_down(bp.list, *top_set, limit, n as int, 0) is None,
                    found == -1 ==> scan_down(bp.list, *top_set, limit, n2 as int, n + 1) == scan_down(bp.list, *top_set, limit, j as int, n + 1),
                    found >= 0 ==> block_answer(bp, *top_set, limit) == Some((found as int, found_lower)),
                decreases j - n,
            {
                let res = Self::match_entry(&bp.list[j as usize], top_set, limit);
                if let Some(lower) = res {
                    found = j;
                    found_lower = lower;
                    assert(scan_down(bp.list, *top_set, limit, j as int, n + 1) == Some((j as int, lower)));
                    assert(n + 1 == bp.next_write_no && n2 == bp.next_match_no - 1);
                }
                j -= 1;
            }
        }
        if found >= 0 {
            self.timestamp = self.timestamp.wrapping_add(1);
            let mut b = bp;
            b.timestamp_read = self.timestamp;
            self.blocks.set(block_id as usize, b);
            *lower_flag = found_lower;
            Some(bp.list[found as usize].first)
        } else {
            None
        }
    }

    /// Look up the position of `(trick, hand)` with the ranks
    /// `aggr_target` in play and the distribution `hand_dist`: the bounds
    /// of a stored entry that matches the position's pattern and settles
    /// the search against `limit` (with `lower_flag` set to whether it is
    /// its lower bound that does), or `None`. The block of the
    /// distribution is remembered for [`TransTable::add`], created if new.
    pub fn lookup(
        &mut self,
        trick: i32,
        hand: i32,
        aggr_target: &[u32; 4],
        hand_dist: &[i32; 4],
        limit: i32,
        lower_flag: &mut bool,
    ) -> (r: Option<NodeCards>)
        requires
            old(self).wf(),
            0 <= trick < TT_TRICKS,
            0 <= hand < 4,
            forall|s: int| 0 <= s < 4 ==> #[trigger] aggr_target[s] < 8192,
            forall|h: int| 0 <= h < 4 ==> 0 <= #[trigger] hand_dist[h] < 4096,
        ensures
            final(self).wf(),
            final(self).same_tables(old(self)),
            final(self).pages_default_spec() == old(self).pages_default_spec(),
            final(self).pages_maximum_spec() == old(self).pages_maximum_spec(),
            final(self).last_seen_spec(trick as int, hand as int) is Some,
            r is None ==> *final(lower_flag) == *old(lower_flag),
            old(self).is_empty_spec() ==> r is None,
            ({
                let a = old(self).probe(trick as int, hand as int, *aggr_target, *hand_dist, limit);
                &&& r == (match a {
                    Some(p) => Some(p.0),
                    None => None,
                })
                &&& a matches Some(p) ==> *final(lower_flag) == p.1
            }),
            r matches Some(c) ==> settles(c, limit, *final(lower_flag)),
            r matches Some(c) ==> forall|s: int| 0 <= s < 4 ==> #[trigger] c.least_win[s] <= 13,
    {
        let t = trick as usize;
        let h = hand as usize;
        let key = Self::suit_lengths_key(hand_dist);
        let hashkey = Self::hash8(hand_dist);
        proof {
            if self.is_empty_spec() {
                assert(self.tt_root@[(t * 4 + h) * TT_HASH_BUCKETS + hashkey].next_no == 0);
            }
        }
        let (block_id, empty) = self.lookup_suit(t, h, hashkey, key);
        self.last_block_seen.set(t * 4 + h, Some(block_id));
        if empty {
            return None;
        }
        let ab0 = self.aggr[aggr_target[0] as usize].aggr_bytes[0];
        let ab1 = self.aggr[aggr_target[1] as usize].aggr_bytes[1];
        let ab2 = self.aggr[aggr_target[2] as usize].aggr_bytes[2];
        let ab3 = self.aggr[aggr_target[3] as usize].aggr_bytes[3];
        let top_set: [u32; 4] = [
            ab0[0] | ab1[0] | ab2[0] | ab3[0],
            ab0[1] | ab1[1] | ab2[1] | ab3[1],
            ab0[2] | ab1[2] | ab2[2] | ab3[2],
            ab0[3] | ab1[3] | ab2[3] | ab3[3],
        ];
        self.lookup_cards(block_id, &top_set, limit, lower_flag)
    }

    /// Store `cards` for the position of `(trick, hand)` last looked up,
    /// under the pattern of the ranks `win_ranks` that decided it (within
    /// `aggr_target`): tightening the bounds of an entry with the same
    /// pattern, else as a new entry. When `lower_flag` is false the new
    /// entry keeps no best move. Nothing happens when no lookup of
    /// `(trick, hand)` was made since the last reset.
    pub fn add(
        &mut self,
        trick: i32,
        hand: i32,
        aggr_target: &[u32; 4],
        win_ranks: &[u16; 4],
        cards: NodeCards,
        lower_flag: bool,
    )
        requires
            old(self).wf(),
            0 <= trick < TT_TRICKS,
            0 <= hand < 4,
        ensures
            final(self).wf(),
            final(self).same_tables(old(self)),
            final(self).pages_default_spec() == old(self).pages_default_spec(),
            final(self).pages_maximum_spec() == old(self).pages_maximum_spec(),
            old(self).last_seen_spec(trick as int, hand as int) is None ==> *final(self) == *old(self),
            old(self).last_seen_spec(trick as int, hand as int) matches Some(bid) ==> {
                &&& final(self).blocks_spec() == old(self).blocks_spec().update(bid as int, final(self).blocks_spec()[bid as int])
                &&& exists|e: WinMatch| #[trigger] old(self).pattern_of(*aggr_target, *win_ranks, cards, e)
                    && stored(old(self).blocks_spec()[bid as int], final(self).blocks_spec()[bid as int], e, lower_flag)
                &&& forall|t: int, h: int| #[trigger] final(self).last_seen_spec(t, h) == old(self).last_seen_spec(t, h)
                &&& final(self).is_empty_spec() == old(self).is_empty_spec()
            },
    {
        let t = trick as usize;
        let h = hand as usize;
        let block_id = match self.last_block_seen[t * 4 + h] {
            Some(id) => id,
            None => return,
        };
        let mut entry = WinMatch {
            xor_set: 0,
            top_set: [0u32; 4],
            top_mask: [0u32; 4],
            mask_index: 0,
            last_mask_no: 0,
            first: cards,
        };
        let mut ab: [[u32; 4]; 4] = [[0u32; 4]; 4];
        let mut mb: [[u32; 4]; 4] = [[0u32; 4]; 4];
        let mut low: [i32; 4] = [0i32; 4];
        let mut ss: usize = 0;
        while ss < 4
            invariant
                ss <= 4,
                self.wf(),
                *self == *old(self),
                forall|q: int| 0 <= q < ss ==> 0 <= #[trigger] low[q] <= 15,
                forall|q: int| 0 <= q < ss ==> #[trigger] entry.first.least_win[q] <= 13,
                forall|q: int| 0 <= q < ss ==> #[trigger] low[q] == self.pattern_low(*aggr_target, *win_ranks, q),
                forall|q: int| 0 <= q < ss ==> #[trigger] entry.first.least_win[q] == (if win_ranks[q] == 0 {
                    0u8
                } else {
                    (15 - self.pattern_low(*aggr_target, *win_ranks, q)) as u8
                }),
                forall|q: int| 0 <= q < ss ==> #[trigger] ab[q] == self.aggr@[pattern_ranks(*aggr_target, *win_ranks, q)].aggr_bytes[q],
                forall|q: int| 0 <= q < ss ==> #[trigger] mb[q] == self.mask_bytes@[pattern_ranks(*aggr_target, *win_ranks, q)][q],
                entry.xor_set == self.pattern_xor(*aggr_target, *win_ranks, ss as int),
                entry.first.ubound == cards.ubound,
                entry.first.lbound == cards.lbound,
                entry.first.best_move_suit == cards.best_move_suit,
                entry.first.best_move_rank == cards.best_move_rank,
            decreases 4 - ss,
        {
            let w = win_ranks[ss] as i32;
            if w == 0 {
                ab[ss] = self.aggr[0].aggr_bytes[ss];
                mb[ss] = self.mask_bytes[0][ss];
                low[ss] = 15;
                entry.first.least_win[ss] = 0;
            } else {
                let lowest_bit = w & (-w);
                assert(0 < lowest_bit <= 0xffff) by (bit_vector)
                    requires
                        0 < w <= 0xffff,
                        lowest_bit == w & ((-w) as i32),
                ;
                let high_mask = (-lowest_bit) as u32;
                let at = aggr_target[ss];
                let ag32 = (at & high_mask) & 0x1fffu32;
                assert(ag32 < 8192) by (bit_vector)
                    requires
                        ag32 == ((at & high_mask) & 0x1fffu32),
                ;
                let ag = ag32 as usize;
                ab[ss] = self.aggr[ag].aggr_bytes[ss];
                mb[ss] = self.mask_bytes[ag][ss];
                low[ss] = self.tt_lowest[ag];
                entry.first.least_win[ss] = (15 - low[ss]) as u8;
                entry.xor_set = entry.xor_set ^ self.aggr[ag].aggr_ranks[ss];
            }
            ss += 1;
        }
        let ghost lw0 = entry.first.least_win;
        let ghost xor0 = entry.xor_set;
        let mut b: usize = 0;
        while b < 4
            invariant
                b <= 4,
                forall|q: int| 0 <= q < 4 ==> #[trigger] entry.first.least_win[q] <= 13,
                entry.first.least_win == lw0,
                entry.xor_set == xor0,
                entry.first.ubound == cards.ubound,
                entry.first.lbound == cards.lbound,
                entry.first.best_move_suit == cards.best_move_suit,
                entry.first.best_move_rank == cards.best_move_rank,
                forall|q: int| 0 <= q < b ==> #[trigger] entry.top_set[q] == (ab[0][q] | ab[1][q] | ab[2][q] | ab[3][q]),
                forall|q: int| 0 <= q < b ==> #[trigger] entry.top_mask[q] == (mb[0][q] | mb[1][q] | mb[2][q] | mb[3][q]),
            decreases 4 - b,
        {
            entry.top_set[b] = ab[0][b] | ab[1][b] | ab[2][b] | ab[3][b];
            entry.top_mask[b] = mb[0][b] | mb[1][b] | mb[2][b] | mb[3][b];
            b += 1;
        }
        entry.mask_index = (low[0] * 4096) | (low[1] * 256) | (low[2] * 16) | low[3];
        entry.last_mask_no = if entry.top_mask[1] == 0 {
            1
        } else if entry.top_mask[2] == 0 {
            2
        } else if entry.top_mask[3] == 0 {
            3
        } else {
            4
        };
        proof {
            assert(self.pattern_of(*aggr_target, *win_ranks, cards, entry));
        }
        self.create_or_update(block_id, &entry, lower_flag);
    }

    /// In block `block_id`, tighten the bounds (and take the best move) of
    /// the entry with the pattern of `search`, or store `search` as a new
    /// entry, over the oldest one once the block is full.
    fn create_or_update(&mut self, block_id: u32, search: &WinMatch, flag: bool)
        requires
            old(self).wf(),
            forall|s: int| 0 <= s < 4 ==> #[trigger] search.first.least_win[s] <= 13,
            block_id < old(self).blocks@.len(),
        ensures
            final(self).wf(),
            final(self).same_tables(old(self)),
            final(self).pages_default == old(self).pages_default,
            final(self).pages_maximum == old(self).pages_maximum,
            final(self).blocks@.len() == old(self).blocks@.len(),
            final(self).blocks@ == old(self).blocks@.update(block_id as int, final(self).blocks@[block_id as int]),
            stored(old(self).blocks@[block_id as int], final(self).blocks@[block_id as int], *search, flag),
            final(self).tt_root == old(self).tt_root,
            final(self).last_block_seen == old(self).last_block_seen,
            final(self).timestamp == old(self).timestamp,
            final(self).next_slot == old(self).next_slot,
            final(self).page_no == old(self).page_no,
    {
        let mut bp = self.blocks[block_id as usize];
        let n = bp.next_match_no as usize;
        let mut i: usize = 0;
        while i < n
            invariant
                i <= n <= 125,
                block_ok(bp),
                bp == old(self).blocks@[block_id as int],
                n == bp.next_match_no,
                first_same(bp.list, *search, n as int, 0) == first_same(bp.list, *search, n as int, i as int),
                block_id < self.blocks@.len(),
                self.wf(),
                *self == *old(self),
            decreases n - i,
        {
            let wp = bp.list[i];
            if wp.xor_set == search.xor_set && wp.mask_index == search.mask_index && wp.top_set[0] == search.top_set[0]
                && wp.top_set[1] == search.top_set[1] && wp.top_set[2] == search.top_set[2]
            {
                let mut dst = wp.first;
                if search.first.lbound > dst.lbound {
                    dst.lbound = search.first.lbound;
                }
                if search.first.ubound < dst.ubound {
                    dst.ubound = search.first.ubound;
                }
                dst.best_move_suit = search.first.best_move_suit;
                dst.best_move_rank = search.first.best_move_rank;
                bp.list[i].first = dst;
                self.blocks.set(block_id as usize, bp);
                return;
            }
            i += 1;
        }
        if n == BLOCKS_PER_ENTRY {
            if bp.next_write_no >= BLOCKS_PER_ENTRY as i32 {
                bp.next_write_no = 0;
            }
        } else {
            bp.next_match_no = bp.next_match_no + 1;
        }
        let slot = bp.next_write_no as usize;
        let ghost l0 = bp.list;
        bp.list[slot] = *search;
        if !flag {
            bp.list[slot].first.best_move_suit = 0;
            bp.list[slot].first.best_move_rank = 0;
        }
        proof {
            let e = *search;
            let e2 = if flag { e } else { WinMatch { first: NodeCards { best_move_suit: 0, best_move_rank: 0, ..e.first }, ..e } };
            assert(bp.list[slot as int] == e2);
            assert(bp.list@ =~= l0@.update(slot as int, e2));
        }
        bp.next_write_no = bp.next_write_no + 1;
        self.blocks.set(block_id as usize, bp);
    }

    /// The pages that `megabytes` MiB hold.
    pub fn mb_to_pages(megabytes: u32) -> (r: u32)
        ensures
            r == pages_for(megabytes),
    {
        let p = (megabytes as u64 * 1048576u64) / (BLOCKS_PER_PAGE as u64 * WIN_BLOCK_BYTES);
        assert(p <= 0xffff_ffff) by (nonlinear_arith)
            requires
                p == (megabytes as u64 * 1048576u64) / (1000u64 * 6512u64),
                megabytes <= 0xffff_ffff,
        ;
        p as u32
    }

    /// The page budget kept across resets.
    pub fn pages_default(&self) -> (r: u32)
        ensures
            r == self.pages_default_spec(),
    {
        self.pages_default
    }

    /// The page budget that forces a reset.
    pub fn pages_maximum(&self) -> (r: u32)
        ensures
            r == self.pages_maximum_spec(),
    {
        self.pages_maximum
    }

    /// The number of pages in use.
    pub fn page_count(&self) -> (r: usize)
        requires
            self.wf(),
        ensures
            r == self.page_count_spec(),
    {
        self.blocks.len() / BLOCKS_PER_PAGE
    }

    /// The block last looked up for `(trick, hand)`, if any.
    pub fn last_block_seen(&self, trick: usize, hand: usize) -> (r: Option<u32>)
        requires
            self.wf(),
            trick < TT_TRICKS,
            hand < 4,
        ensures
            r == self.last_seen_spec(trick as int, hand as int),
    {
        self.last_block_seen[trick * 4 + hand]
    }

    /// Change the default memory budget (taking effect at the next reset).
    pub fn set_memory_default(&mut self, megabytes: u32)
        requires
            old(self).wf(),
        ensures
            final(self).wf(),
            final(self).pages_default_spec() == pages_for(megabytes),
            final(self).pages_maximum_spec() == old(self).pages_maximum_spec(),
    {
        self.pages_default = Self::mb_to_pages(megabytes);
    }

    /// Change the maximum memory budget.
    pub fn set_memory_maximum(&mut self, megabytes: u32)
        requires
            old(self).wf(),
        ensures
            final(self).wf(),
            final(self).pages_maximum_spec() == pages_for(megabytes),
            final(self).pages_default_spec() == old(self).pages_default_spec(),
    {
        self.pages_maximum = Self::mb_to_pages(megabytes);
    }
}

/// For each rank set, the relative rank (14 for the lowest single card)
/// of its lowest card; 15 for the empty set.
fn build_tt_lowest() -> (t: Vec<i32>)
    ensures
        t@.len() == 8192,
        forall|i: int| 0 <= i < 8192 ==> 2 <= #[trigger] t@[i] <= 15,
{
    let mut t: Vec<i32> = Vec::new();
    t.push(15);
    let mut top_bit_rank: usize = 1;
    let ghost mut e: nat = 0;
    let mut ind: usize = 1;
    proof {
        vstd::arithmetic::power2::lemma2_to64();
    }
    while ind < 8192
        invariant
            1 <= ind <= 8192,
            t@.len() == ind,
            top_bit_rank == vstd::arithmetic::power2::pow2(e),
            1 <= top_bit_rank <= ind,
            ind <= 2 * top_bit_rank,
            e <= 12,
            forall|i: int| 0 <= i < top_bit_rank ==> 15 - e <= #[trigger] t@[i] <= 15,
            forall|i: int| top_bit_rank <= i < ind ==> 14 - e <= #[trigger] t@[i] <= 15,
        decreases 8192 - ind,
    {
        if ind >= 2 * top_bit_rank {
            proof {
                vstd::arithmetic::power2::lemma_pow2_unfold(e + 1);
                if e + 1 > 12 {
                    vstd::arithmetic::power2::lemma2_to64();
                    if e + 1 > 13 {
                        vstd::arithmetic::power2::lemma_pow2_strictly_increases(13, e + 1);
                    }
                }
            }
            top_bit_rank = 2 * top_bit_rank;
            proof {
                e = e + 1;
            }
        }
        let prev = ind - top_bit_rank;
        let v = t[prev] - 1;
        t.push(v);
        ind += 1;
    }
    t
}

/// Byte `b` of suit `s` in the pattern of the per-suit words `ar`: the
/// two-bit holders of four ranks, highest first, placed in the byte of the
/// pattern word that belongs to the suit.
pub open spec fn layout_byte(ar: [u32; 4], s: int, b: int) -> u32 {
    if s == 0 {
        if b == 0 {
            (ar[0] << 6u32) & 0xff00_0000u32
        } else if b == 1 {
            (ar[0] << 14u32) & 0xff00_0000u32
        } else if b == 2 {
            (ar[0] << 22u32) & 0xff00_0000u32
        } else {
            (ar[0] << 30u32) & 0xff00_0000u32
        }
    } else if s == 1 {
        if b == 0 {
            (ar[1] >> 2u32) & 0x00ff_0000u32
        } else if b == 1 {
            (ar[1] << 6u32) & 0x00ff_0000u32
        } else if b == 2 {
            (ar[1] << 14u32) & 0x00ff_0000u32
        } else {
            (ar[1] << 22u32) & 0x00ff_0000u32
        }
    } else if s == 2 {
        if b == 0 {
            (ar[2] >> 10u32) & 0x0000_ff00u32
        } else if b == 1 {
            (ar[2] >> 2u32) & 0x0000_ff00u32
        } else if b == 2 {
            (ar[2] << 6u32) & 0x0000_ff00u32
        } else {
            (ar[2] << 14u32) & 0x0000_ff00u32
        }
    } else {
        if b == 0 {
            (ar[3] >> 18u32) & 0x0000_00ffu32
        } else if b == 1 {
            (ar[3] >> 10u32) & 0x0000_00ffu32
        } else if b == 2 {
            (ar[3] >> 2u32) & 0x0000_00ffu32
        } else {
            (ar[3] << 6u32) & 0x0000_00ffu32
        }
    }
}

/// The holders word of suit `s` for the rank set `ind`: two bits per rank
/// naming its holder by `hand_lookup`, highest rank in the top bits. It is
/// the word of `ind` without its top rank, moved down two bits, with the
/// top rank's holder put in bits 24 and 25.
pub open spec fn holders_word(hand_lookup: [[i32; 15]; 4], ind: nat, s: int) -> u32
    decreases ind,
{
    if ind == 0 || ind >= 8192 {
        0
    } else {
        let k = top_index(ind);
        proof {
            vstd::arithmetic::power2::lemma_pow2_pos(k);
            lemma_top_index_range(ind);
        }
        (holders_word(hand_lookup, (ind - pow2(k)) as nat, s) >> 2u32) | ((hand_lookup[s][(k + 2) as int] as u32) << 24u32)
    }
}

/// Whether `ag` is the table entry for the rank set `ind`.
pub open spec fn aggr_entry_ok(hand_lookup: [[i32; 15]; 4], ind: nat, ag: Aggr) -> bool {
    &&& forall|s: int| 0 <= s < 4 ==> #[trigger] ag.aggr_ranks[s] == holders_word(hand_lookup, ind, s)
    &&& forall|s: int, b: int| 0 <= s < 4 && 0 <= b < 4 ==> #[trigger] ag.aggr_bytes[s][b] == layout_byte(ag.aggr_ranks, s, b)
}

/// The rank set of `aggr_target` from the lowest rank of `w` up: the
/// cards in play that the ranks `w` decided on and those above them.
pub open spec fn ranks_from_lowest(aggr_target: u32, w: u16) -> int {
    let wi = w as i32;
    let lowest_bit = wi & ((-wi) as i32);
    ((aggr_target & (((-lowest_bit) as i32) as u32)) & 0x1fffu32) as int
}

/// The rank set that suit `s` contributes to the pattern of a position:
/// none when no rank of it decided, else [`ranks_from_lowest`].
pub open spec fn pattern_ranks(aggr_target: [u32; 4], win_ranks: [u16; 4], s: int) -> int {
    if win_ranks[s] == 0 {
        0
    } else {
        ranks_from_lowest(aggr_target[s], win_ranks[s])
    }
}

/// The block bound to distribution `key` among the first places of the
/// bucket `d`, from place `i` on.
pub open spec fn key_block(d: DistHash, key: i64, i: int) -> Option<u32>
    decreases 32 - i,
{
    if i >= d.next_no || i >= 32 || i < 0 {
        None
    } else if d.list[i].key == key {
        Some(d.list[i].pos_block)
    } else {
        key_block(d, key, i + 1)
    }
}

/// The first entry of `l` from index `i` down to `lo` that settles the
/// search against `limit` for the pattern `top`, with its direction.
pub open spec fn scan_down(l: [WinMatch; 125], top: [u32; 4], limit: i32, i: int, lo: int) -> Option<(int, bool)>
    decreases i + 1,
{
    if i < lo || i < 0 || i >= 125 {
        None
    } else {
        match match_spec(l[i], top, limit) {
            Some(x) => Some((i, x)),
            None => scan_down(l, top, limit, i - 1, lo),
        }
    }
}

/// The entry of block `b` that answers a lookup: the newest written
/// settling one, else the newest settling one of those written before the
/// block was last wrapped.
pub open spec fn block_answer(b: WinBlock, top: [u32; 4], limit: i32) -> Option<(int, bool)> {
    match scan_down(b.list, top, limit, b.next_write_no - 1, 0) {
        Some(x) => Some(x),
        None => scan_down(b.list, top, limit, b.next_match_no - 1, b.next_write_no as int),
    }
}

/// Whether two entries have the same card pattern: the same holders of
/// the ranks that count, the same lowest ranks and the same pattern bytes.
pub open spec fn same_pattern(a: WinMatch, b: WinMatch) -> bool {
    &&& a.xor_set == b.xor_set
    &&& a.mask_index == b.mask_index
    &&& a.top_set[0] == b.top_set[0]
    &&& a.top_set[1] == b.top_set[1]
    &&& a.top_set[2] == b.top_set[2]
}

/// The first index from `i` on, below `n`, whose entry has the pattern of
/// `e`; `n` when there is none.
pub open spec fn first_same(l: [WinMatch; 125], e: WinMatch, n: int, i: int) -> int
    decreases n - i,
{
    if i >= n || i >= 125 {
        n
    } else if same_pattern(l[i], e) {
        i
    } else {
        first_same(l, e, n, i + 1)
    }
}

/// The bounds of `old` tightened by those of `new`, with the best move of
/// `new`.
pub open spec fn tightened(old: NodeCards, new: NodeCards) -> NodeCards {
    NodeCards {
        lbound: if new.lbound > old.lbound { new.lbound } else { old.lbound },
        ubound: if new.ubound < old.ubound { new.ubound } else { old.ubound },
        best_move_suit: new.best_move_suit,
        best_move_rank: new.best_move_rank,
        ..old
    }
}

/// The block `b1` is `b0` after storing `e`: the first entry with its
/// pattern has its bounds tightened; without one, `e` (with no best move
/// unless `flag`) is written at the next place, the oldest entry being
/// overwritten once all are used.
pub open spec fn stored(b0: WinBlock, b1: WinBlock, e: WinMatch, flag: bool) -> bool {
    let n = b0.next_match_no as int;
    let i = first_same(b0.list, e, n, 0);
    if i < n {
        &&& b1.next_match_no == b0.next_match_no
        &&& b1.next_write_no == b0.next_write_no
        &&& b1.timestamp_read == b0.timestamp_read
        &&& b1.list@ == b0.list@.update(i, WinMatch { first: tightened(b0.list[i].first, e.first), ..b0.list[i] })
    } else {
        let slot: int = if n == 125 && b0.next_write_no >= 125 { 0 } else { b0.next_write_no as int };
        let e2 = if flag { e } else { WinMatch { first: NodeCards { best_move_suit: 0, best_move_rank: 0, ..e.first }, ..e } };
        &&& b1.next_match_no == (if n == 125 { 125 } else { n + 1 })
        &&& b1.next_write_no == slot + 1
        &&& b1.timestamp_read == b0.timestamp_read
        &&& b1.list@ == b0.list@.update(slot, e2)
    }
}

/// The per-suit words `ar` (two bits per rank, highest rank at the top)
/// cut into the four bytes of a pattern, each suit in its own byte.
fn byte_layout(ar: [u32; 4]) -> (ab: [[u32; 4]; 4])
    ensures
        forall|s: int, b: int| 0 <= s < 4 && 0 <= b < 4 ==> #[trigger] ab[s][b] == layout_byte(ar, s, b),
{
    let mut ab: [[u32; 4]; 4] = [[0u32; 4]; 4];
    ab[0][0] = (ar[0] << 6u32) & 0xff00_0000u32;
    ab[0][1] = (ar[0] << 14u32) & 0xff00_0000u32;
    ab[0][2] = (ar[0] << 22u32) & 0xff00_0000u32;
    ab[0][3] = (ar[0] << 30u32) & 0xff00_0000u32;
    ab[1][0] = (ar[1] >> 2u32) & 0x00ff_0000u32;
    ab[1][1] = (ar[1] << 6u32) & 0x00ff_0000u32;
    ab[1][2] = (ar[1] << 14u32) & 0x00ff_0000u32;
    ab[1][3] = (ar[1] << 22u32) & 0x00ff_0000u32;
    ab[2][0] = (ar[2] >> 10u32) & 0x0000_ff00u32;
    ab[2][1] = (ar[2] >> 2u32) & 0x0000_ff00u32;
    ab[2][2] = (ar[2] << 6u32) & 0x0000_ff00u32;
    ab[2][3] = (ar[2] << 14u32) & 0x0000_ff00u32;
    ab[3][0] = (ar[3] >> 18u32) & 0x0000_00ffu32;
    ab[3][1] = (ar[3] >> 10u32) & 0x0000_00ffu32;
    ab[3][2] = (ar[3] >> 2u32) & 0x0000_00ffu32;
    ab[3][3] = (ar[3] << 6u32) & 0x0000_00ffu32;
    ab
}

/// For each rank set, the pattern mask of its ranks: two bits per rank,
/// in every suit's bytes.
fn build_mask_bytes() -> (t: Vec<[[u32; 4]; 4]>)
    ensures
        t@.len() == 8192,
{
    let mut t: Vec<[[u32; 4]; 4]> = Vec::new();
    let mut win_mask: Vec<u32> = Vec::new();
    t.push([[0u32; 4]; 4]);
    win_mask.push(0);
    let mut top_bit_rank: usize = 1;
    let mut ind: usize = 1;
    while ind < 8192
        invariant
            1 <= ind <= 8192,
            t@.len() == ind,
            win_mask@.len() == ind,
            1 <= top_bit_rank <= ind,
            ind <= 2 * top_bit_rank,
        decreases 8192 - ind,
    {
        if ind >= 2 * top_bit_rank {
            top_bit_rank = 2 * top_bit_rank;
        }
        let w = (win_mask[ind - top_bit_rank] >> 2u32) | (3u32 << 24u32);
        win_mask.push(w);
        t.push(byte_layout([w, w, w, w]));
        ind += 1;
    }
    t
}

} // verus!

