//! Dealer-dependent par calculation (the text engine).
//!
//! [`dealer_par`] finds the side entitled to a plus score (the *primacy*),
//! surveys its constructively bid contracts, weighs them against the best
//! opposing sacrifice, and writes the par contracts as NUL-padded text such
//! as `4S-NS+1`, `5C*-NS-3` or `5D-W-1`.
//!
//! A trick table `res_table` has its strains in the order S, H, D, C, NT and
//! its seats in the order N, E, S, W. Contract numbers count 0 for pass,
//! 1 for 1C, …, 35 for 7NT in the par strain order C, D, H, S, NT.
use vstd::prelude::*;

verus! {

/// Number of strains.
const DDS_STRAINS: usize = 5;

/// First index: 0 nonvul, 1 vul. Second index: tricks down.
pub const DOUBLED_SCORES: [[i32; 14]; 2] = [
    [0, 100, 300, 500, 800, 1100, 1400, 1700, 2000, 2300, 2600, 2900, 3200, 3500],
    [0, 200, 500, 800, 1100, 1400, 1700, 2000, 2300, 2600, 2900, 3200, 3500, 3800],
];

/// First index is the contract number; second index 0 nonvul, 1 vul.
pub const SCORES: [[i32; 2]; 36] = [
    [0, 0],
    [70, 70],
    [70, 70],
    [80, 80],
    [80, 80],
    [90, 90],
    [90, 90],
    [90, 90],
    [110, 110],
    [110, 110],
    [120, 120],
    [110, 110],
    [110, 110],
    [140, 140],
    [140, 140],
    [400, 600],
    [130, 130],
    [130, 130],
    [420, 620],
    [420, 620],
    [430, 630],
    [400, 600],
    [400, 600],
    [450, 650],
    [450, 650],
    [460, 660],
    [920, 1370],
    [920, 1370],
    [980, 1430],
    [980, 1430],
    [990, 1440],
    [1440, 2140],
    [1440, 2140],
    [1510, 2210],
    [1510, 2210],
    [1520, 2220],
];

/// First index is the contract number. Second index is the vulnerability:
/// none, only defender, only declarer, both.
pub const DOWN_TARGET: [[i32; 4]; 36] = [
    [0, 0, 0, 0],
    [0, 0, 0, 0],
    [0, 0, 0, 0],
    [0, 0, 0, 0],
    [0, 0, 0, 0],
    [0, 0, 0, 0],
    [0, 0, 0, 0],
    [0, 0, 0, 0],
    [1, 0, 1, 0],
    [1, 0, 1, 0],
    [1, 0, 1, 0],
    [1, 0, 1, 0],
    [1, 0, 1, 0],
    [1, 0, 1, 0],
    [1, 0, 1, 0],
    [2, 1, 3, 2],
    [1, 0, 1, 0],
    [1, 0, 1, 0],
    [2, 1, 3, 2],
    [2, 1, 3, 2],
    [2, 1, 3, 2],
    [2, 1, 3, 2],
    [2, 1, 3, 2],
    [2, 1, 3, 2],
    [2, 1, 3, 2],
    [2, 1, 3, 2],
    [4, 3, 5, 4],
    [4, 3, 5, 4],
    [4, 3, 6, 5],
    [4, 3, 6, 5],
    [4, 3, 6, 5],
    [6, 5, 8, 7],
    [6, 5, 8, 7],
    [6, 5, 8, 7],
    [6, 5, 8, 7],
    [6, 5, 8, 7],
];

/// Lowest contract that a making contract may be reduced to without losing
/// its game or slam bonus, by contract number.
pub const FLOOR_CONTRACT: [i32; 36] = [
    0, 1, 2, 3, 4, 5, 1, 2, 3, 4, 5, 1, 2, 3, 4, 15, 1, 2, 18, 19, 15, 21, 22, 18, 19, 15, 26, 27,
    28, 29, 30, 31, 32, 33, 34, 35,
];

/// First index is vul: none, both, NS, EW; second: NS then EW.
pub const VUL_LOOKUP: [[i32; 2]; 4] = [[0, 0], [1, 1], [1, 0], [0, 1]];

/// First vul is declarer (not necessarily NS), second is defender.
pub const VUL_TO_NO: [[i32; 2]; 2] = [[0, 1], [2, 3]];

/// Maps par order (C, D, H, S, NT) to the table's order (S, H, D, C, NT).
pub const DENOM_ORDER: [usize; 5] = [3, 2, 1, 0, 4];

/// A stand-in for "no sacrifice".
pub const BIGNUM: i32 = 9999;

/// Statistics of the side entitled to a plus score.
#[derive(Debug, Clone, Copy)]
struct DataType {
    primacy: i32,
    vul_no: i32,
}

/// A candidate contract of one side in one strain.
#[derive(Debug, Clone, Copy, PartialEq, Eq, Structural)]
pub struct ListType {
    pub score: i32,
    pub dno: i32,
    /// Contract number; negative when the side cannot make seven tricks.
    pub no: i32,
    pub tricks: i32,
    pub down: i32,
}

impl ListType {
    fn zero() -> (r: ListType)
        ensures
            r == (ListType { score: 0, dno: 0, no: 0, tricks: 0, down: 0 }),
    {
        ListType { score: 0, dno: 0, no: 0, tricks: 0, down: 0 }
    }
}

/// The par results for a given dealer: the number of par contracts, the par
/// score (North-South's view) and the contracts as NUL-padded text.
#[derive(Debug, Clone, Copy)]
pub struct ParResultsDealer {
    pub number: i32,
    pub score: i32,
    pub contracts: [[u8; 10]; 10],
}

/// A trick table: five strains of four seats, each between 0 and 13.
pub open spec fn table_wf(t: [[i32; 4]; 5]) -> bool {
    forall|d: int, s: int| 0 <= d < 5 && 0 <= s < 4 ==> 0 <= #[trigger] t[d][s] <= 13
}

/// The most tricks `side` (0 NS, 1 EW) takes in par strain `dno`.
pub open spec fn side_best(t: [[i32; 4]; 5], side: int, dno: int) -> int {
    let row = t[DENOM_ORDER[dno] as int];
    if row[side] > row[side + 2] {
        row[side] as int
    } else {
        row[side + 2] as int
    }
}

/// The contract number `side` makes in strain `dno` (negative if none).
pub open spec fn side_no(t: [[i32; 4]; 5], side: int, dno: int) -> int {
    5 * (side_best(t, side, dno) - 7) + dno + 1
}

/// The highest contract number that `side` makes in the first `k` par
/// strains, 0 if none.
pub open spec fn partial_high(t: [[i32; 4]; 5], side: int, k: int) -> int
    decreases k,
{
    if k <= 0 {
        0
    } else {
        let p = partial_high(t, side, k - 1);
        let n = side_no(t, side, k - 1);
        if side_best(t, side, k - 1) >= 7 && n > p {
            n
        } else {
            p
        }
    }
}

/// The highest contract number that `side` makes, 0 if none.
pub open spec fn highest_making(t: [[i32; 4]; 5], side: int) -> int {
    partial_high(t, side, 5)
}

/// Whether nobody can make any contract: every cell is at most six tricks.
pub open spec fn passed_out(t: [[i32; 4]; 5]) -> bool {
    forall|d: int, s: int| 0 <= d < 5 && 0 <= s < 4 ==> #[trigger] t[d][s] <= 6
}

/// The NUL-padded text "pass".
pub open spec fn pass_text(b: [u8; 10]) -> bool {
    b@ == seq![112u8, 97u8, 115u8, 115u8, 0u8, 0u8, 0u8, 0u8, 0u8, 0u8]
}

/// The list entry of `side` in par strain `dno` at vulnerability `vul`.
pub open spec fn entry(t: [[i32; 4]; 5], side: int, dno: int, vul: int) -> ListType {
    let best = side_best(t, side, dno);
    let no = side_no(t, side, dno);
    if best < 7 {
        ListType { score: 0, dno: 0, no: no as i32, tricks: 0, down: 0 }
    } else {
        ListType {
            score: SCORES[no][vul],
            dno: dno as i32,
            no: no as i32,
            tricks: best as i32,
            down: 0,
        }
    }
}

/// The five entries of `side`, in par strain order.
pub open spec fn entries(t: [[i32; 4]; 5], side: int, vul: int) -> Seq<ListType> {
    Seq::new(5, |d: int| entry(t, side, d, vul))
}

/// The dearest making contract among the first `k` strains of `side`:
/// its score and its number (the lowest number among equal scores).
pub open spec fn dearest(t: [[i32; 4]; 5], side: int, vul: int, k: int) -> (int, int)
    decreases k,
{
    if k <= 0 {
        (0, 0)
    } else {
        let prev = dearest(t, side, vul, k - 1);
        let e = entry(t, side, k - 1, vul);
        if side_best(t, side, k - 1) < 7 {
            prev
        } else if e.score > prev.0 {
            (e.score as int, e.no as int)
        } else if e.score == prev.0 && e.no < prev.1 {
            (prev.0, e.no as int)
        } else {
            prev
        }
    }
}

/// The side of the first seat, from the dealer round, whose trick count in
/// `row` is `t_max`; 0 if none is.
pub open spec fn first_holder(row: [i32; 4], dealer: int, t_max: int) -> int {
    if row[dealer % 4] == t_max {
        dealer % 2
    } else if row[(dealer + 1) % 4] == t_max {
        (dealer + 1) % 2
    } else if row[(dealer + 2) % 4] == t_max {
        (dealer + 2) % 2
    } else if row[(dealer + 3) % 4] == t_max {
        (dealer + 3) % 2
    } else {
        0
    }
}

/// The side entitled to a plus score: the one with the higher making
/// contract, or on a tie the one whose seat can bid it first; -1 when the
/// deal is passed out.
pub open spec fn primacy(t: [[i32; 4]; 5], dealer: int) -> int {
    let s0 = highest_making(t, 0);
    let s1 = highest_making(t, 1);
    if s0 > s1 {
        0
    } else if s0 < s1 {
        1
    } else if s0 == 0 {
        -1
    } else {
        let dno = (s0 - 1) % 5;
        first_holder(t[DENOM_ORDER[dno] as int], dealer, side_best(t, 0, dno))
    }
}

/// A reordering of `e` by descending contract number.
pub open spec fn desc_perm(l: Seq<ListType>, e: Seq<ListType>) -> bool {
    &&& l.len() == e.len()
    &&& l.to_multiset() == e.to_multiset()
    &&& forall|i: int, j: int| 0 <= i < j < l.len() ==> l[i].no >= l[j].no
}

proof fn lemma_side_bounds(t: [[i32; 4]; 5], side: int, dno: int)
    requires
        table_wf(t),
        0 <= side < 2,
        0 <= dno < 5,
    ensures
        0 <= side_best(t, side, dno) <= 13,
        side_no(t, side, dno) <= 35,
        side_no(t, side, dno) >= -34,
        side_best(t, side, dno) >= 7 <==> side_no(t, side, dno) >= 1,
        side_best(t, side, dno) >= 7 ==> (side_no(t, side, dno) - 1) % 5 == dno,
{
    let r = DENOM_ORDER[dno] as int;
    assert(0 <= r < 5);
    assert(0 <= t[r][side] <= 13);
    assert(0 <= t[r][side + 2] <= 13);
    let b = side_best(t, side, dno);
    let n = side_no(t, side, dno);
    assert(n == 5 * (b - 7) + dno + 1);
    if b >= 7 {
        assert((5 * (b - 7) + dno) % 5 == dno) by (nonlinear_arith)
            requires
                b >= 7,
                0 <= dno < 5,
        ;
    }
}

/// The list entry of `side` in par strain `dno`.
fn make_entry(res_table: &[[i32; 4]; 5], side: usize, dno: usize, vul: i32) -> (e: ListType)
    requires
        table_wf(*res_table),
        side < 2,
        dno < 5,
        0 <= vul < 2,
    ensures
        e == entry(*res_table, side as int, dno as int, vul as int),
{
    proof {
        lemma_side_bounds(*res_table, side as int, dno as int);
    }
    let t = res_table[DENOM_ORDER[dno]];
    let a = t[side];
    let b = t[side + 2];
    let best = if a > b { a } else { b };
    let no = 5 * (best - 7) + dno as i32 + 1;
    if best < 7 {
        ListType { score: 0, dno: 0, no: no, tricks: 0, down: 0 }
    } else {
        ListType { score: SCORES[no as usize][vul as usize], dno: dno as i32, no: no, tricks: best, down: 0 }
    }
}

/// Sort the list by descending contract number.
fn sort_by_no_desc(l: &mut [ListType; 5])
    ensures
        final(l)@.to_multiset() == old(l)@.to_multiset(),
        forall|i: int, j: int| 0 <= i < j < 5 ==> final(l)@[i].no >= final(l)@[j].no,
{
    let mut i: usize = 1;
    while i < 5
        invariant
            1 <= i <= 5,
            l@.to_multiset() == old(l)@.to_multiset(),
            forall|a: int, b: int| 0 <= a < b < i ==> l@[a].no >= l@[b].no,
        decreases 5 - i,
    {
        let mut j: usize = i;
        while j > 0 && l[j - 1].no < l[j].no
            invariant
                0 <= j <= i < 5,
                l@.to_multiset() == old(l)@.to_multiset(),
                forall|a: int, b: int|
                    0 <= a < b <= i && a != j && b != j ==> l@[a].no >= l@[b].no,
                forall|b: int| j < b <= i ==> l@[j as int].no > l@[b].no,
            decreases j,
        {
            let x = l[j];
            let y = l[j - 1];
            proof {
                crate::network::lemma_swap_multiset(l@, j as int, (j - 1) as int);
            }
            l[j] = y;
            l[j - 1] = x;
            j -= 1;
        }
        i += 1;
    }
}

/// The statistics of both sides: the side entitled to a plus score, the
/// vulnerability index seen from it, the number of candidate contracts and
/// the two lists, the primacy side's sorted by descending contract number
/// and cut after its candidates (those at least as high as its dearest
/// making contract).
fn survey_scores(res_table: &[[i32; 4]; 5], dealer: i32, vul_by_side: [i32; 2]) -> (r: (
    i32,
    i32,
    usize,
    [ListType; 5],
    [ListType; 5],
))
    requires
        table_wf(*res_table),
        0 <= dealer < 4,
        0 <= vul_by_side[0] < 2,
        0 <= vul_by_side[1] < 2,
    ensures
        r.0 == primacy(*res_table, dealer as int),
        r.0 == -1 ==> r.3@ == entries(*res_table, 0, vul_by_side[0] as int) && r.4@ == entries(
            *res_table,
            1,
            vul_by_side[1] as int,
        ),
        r.0 >= 0 ==> desc_perm(
            r.3@,
            entries(*res_table, r.0 as int, vul_by_side[r.0 as int] as int),
        ) && r.4@ == entries(*res_table, 1 - r.0, vul_by_side[1 - r.0] as int),
        r.0 >= 0 ==> r.1 == VUL_TO_NO[vul_by_side[r.0 as int] as int][vul_by_side[1 - r.0]
            as int],
        r.0 >= 0 ==> r.2 <= 5 && dearest(
            *res_table,
            r.0 as int,
            vul_by_side[r.0 as int] as int,
            5,
        ).1 >= 1 && (forall|i: int|
            0 <= i < 5 ==> (i < r.2 <==> (#[trigger] r.3@[i]).no >= dearest(
                *res_table,
                r.0 as int,
                vul_by_side[r.0 as int] as int,
                5,
            ).1)),
{
    let mut l0: [ListType; 5] = [ListType::zero(); 5];
    let mut l1: [ListType; 5] = [ListType::zero(); 5];
    let mut high0: i32 = 0;
    let mut high1: i32 = 0;
    let mut dear0: (i32, i32) = (0, 0);
    let mut dear1: (i32, i32) = (0, 0);
    let ghost t = *res_table;
    let mut dno: usize = 0;
    while dno < 5
        invariant
            dno <= 5,
            t == *res_table,
            table_wf(t),
            0 <= vul_by_side[0] < 2,
            0 <= vul_by_side[1] < 2,
            forall|d: int| 0 <= d < dno ==> l0@[d] == entry(t, 0, d, vul_by_side[0] as int),
            forall|d: int| 0 <= d < dno ==> l1@[d] == entry(t, 1, d, vul_by_side[1] as int),
            dear0.0 == dearest(t, 0, vul_by_side[0] as int, dno as int).0,
            dear0.1 == dearest(t, 0, vul_by_side[0] as int, dno as int).1,
            dear1.0 == dearest(t, 1, vul_by_side[1] as int, dno as int).0,
            dear1.1 == dearest(t, 1, vul_by_side[1] as int, dno as int).1,
            0 <= dear0.0 <= 2220,
            0 <= dear1.0 <= 2220,
            0 <= dear0.1 <= 35,
            0 <= dear1.1 <= 35,
            dear0.0 > 0 <==> dear0.1 >= 1,
            dear1.0 > 0 <==> dear1.1 >= 1,
            high0 == partial_high(t, 0, dno as int),
            high1 == partial_high(t, 1, dno as int),
            0 <= high0 <= 35,
            0 <= high1 <= 35,
            high0 >= 1 ==> dear0.0 > 0,
            high1 >= 1 ==> dear1.0 > 0,
        decreases 5 - dno,
    {
        proof {
            lemma_side_bounds(t, 0, dno as int);
            lemma_side_bounds(t, 1, dno as int);
            lemma_scores_positive(vul_by_side[0] as int);
            lemma_scores_positive(vul_by_side[1] as int);
        }
        let e0 = make_entry(res_table, 0, dno, vul_by_side[0]);
        let e1 = make_entry(res_table, 1, dno, vul_by_side[1]);
        l0[dno] = e0;
        l1[dno] = e1;
        if e0.no >= 1 {
            if e0.score > dear0.0 {
                dear0 = (e0.score, e0.no);
            } else if e0.score == dear0.0 && e0.no < dear0.1 {
                dear0 = (dear0.0, e0.no);
            }
            if e0.no > high0 {
                high0 = e0.no;
            }
        }
        if e1.no >= 1 {
            if e1.score > dear1.0 {
                dear1 = (e1.score, e1.no);
            } else if e1.score == dear1.0 && e1.no < dear1.1 {
                dear1 = (dear1.0, e1.no);
            }
            if e1.no > high1 {
                high1 = e1.no;
            }
        }
        dno += 1;
    }
    proof {
        assert(l0@ == entries(t, 0, vul_by_side[0] as int));
        assert(l1@ == entries(t, 1, vul_by_side[1] as int));
    }
    let primacy_side: i32;
    if high0 > high1 {
        primacy_side = 0;
    } else if high0 < high1 {
        primacy_side = 1;
    } else if high0 == 0 {
        return (-1, 0, 0, l0, l1);
    } else {
        let d: usize = ((high0 - 1) % 5) as usize;
        let row = res_table[DENOM_ORDER[d]];
        let t_max = if row[0] > row[2] { row[0] } else { row[2] };
        primacy_side = if row[(dealer % 4) as usize] == t_max {
            dealer % 2
        } else if row[((dealer + 1) % 4) as usize] == t_max {
            (dealer + 1) % 2
        } else if row[((dealer + 2) % 4) as usize] == t_max {
            (dealer + 2) % 2
        } else if row[((dealer + 3) % 4) as usize] == t_max {
            (dealer + 3) % 2
        } else {
            0
        };
    }
    let vul_primacy = vul_by_side[primacy_side as usize];
    let vul_other = vul_by_side[(1 - primacy_side) as usize];
    let vul_no = VUL_TO_NO[vul_primacy as usize][vul_other as usize];
    let dm_no = if primacy_side == 0 { dear0.1 } else { dear1.1 };
    let mut sorted = if primacy_side == 0 { l0 } else { l1 };
    assert(sorted@ == entries(t, primacy_side as int, vul_by_side[primacy_side as int] as int));
    sort_by_no_desc(&mut sorted);
    let mut num_cand: usize = 5;
    let mut i: usize = 0;
    while i < 5
        invariant
            i <= 5,
            num_cand + count_below(sorted@, dm_no as int, i as int) == 5,
            0 <= count_below(sorted@, dm_no as int, i as int) <= i,
        decreases 5 - i,
    {
        if sorted[i].no < dm_no {
            num_cand -= 1;
        }
        i += 1;
    }
    proof {
        lemma_count_below_sorted(sorted@, dm_no as int);
        assert(primacy_side == primacy(t, dealer as int));
        if primacy_side == 0 {
            assert(high0 >= 1);
            assert(dm_no >= 1);
        } else {
            assert(high1 >= 1);
            assert(dm_no >= 1);
        }
    }
    if primacy_side == 0 {
        (0, vul_no, num_cand, sorted, l1)
    } else {
        (1, vul_no, num_cand, sorted, l0)
    }
}

/// How many of the first `k` entries of `l` have a contract number below `m`.
pub open spec fn count_below(l: Seq<ListType>, m: int, k: int) -> int
    decreases k,
{
    if k <= 0 {
        0
    } else {
        count_below(l, m, k - 1) + if l[k - 1].no < m {
            1int
        } else {
            0int
        }
    }
}

proof fn lemma_count_below_sorted(l: Seq<ListType>, m: int)
    requires
        l.len() == 5,
        forall|i: int, j: int| 0 <= i < j < 5 ==> l[i].no >= l[j].no,
    ensures
        forall|i: int| 0 <= i < 5 ==> (i < 5 - count_below(l, m, 5) <==> (#[trigger] l[i]).no >= m),
{
    reveal_with_fuel(count_below, 6);
}

proof fn lemma_scores_positive(v: int)
    requires
        0 <= v < 2,
    ensures
        forall|n: int| 1 <= n <= 35 ==> 0 < #[trigger] SCORES[n][v] <= 2220,
{
    assert forall|n: int| 1 <= n <= 35 implies 0 < #[trigger] SCORES[n][v] <= 2220 by {
        assert(n == 1 || n == 2 || n == 3 || n == 4 || n == 5 || n == 6 || n == 7 || n == 8 || n == 9 || n == 10 || n == 11 || n == 12 || n == 13 || n == 14 || n == 15 || n == 16 || n == 17 || n == 18 || n == 19 || n == 20 || n == 21 || n == 22 || n == 23 || n == 24 || n == 25 || n == 26 || n == 27 || n == 28 || n == 29 || n == 30 || n == 31 || n == 32 || n == 33 || n == 34 || n == 35);
    }
}

/// `x / 5`, rounded toward zero.
pub open spec fn trunc5(x: int) -> int {
    if x >= 0 {
        x / 5
    } else {
        -((-x) / 5)
    }
}

/// The walk round the table from the dealer over the first `k` seats, in a
/// strain where `side` would make `t_max` tricks: whether a seat of `side`
/// has already shown the full count (then an opponent must outbid it by a
/// level), and the cheapest same-strain sacrifice of an opponent so far.
pub open spec fn same_strain_walk(row: [i32; 4], side: int, t_max: int, dealer: int, k: int) -> (
    int,
    int,
)
    decreases k,
{
    if k <= 0 {
        (0, BIGNUM as int)
    } else {
        let prev = same_strain_walk(row, side, t_max, dealer, k - 1);
        let pno = dealer + k - 1;
        let diff = t_max - row[pno % 4];
        if pno % 2 == side {
            (if diff == 0 {
                1
            } else {
                prev.0
            }, prev.1)
        } else {
            let local = diff + prev.0;
            (prev.0, if local < prev.1 {
                local
            } else {
                prev.1
            })
        }
    }
}

/// How many tricks the opponents of `side` go down sacrificing in par
/// strain `eno` against contract `no` in par strain `dno`, given that their
/// own contract number in `eno` is `sno`; `BIGNUM` where the sacrifice
/// would have to be bid above 7NT.
pub open spec fn sac_down(
    t: [[i32; 4]; 5],
    side: int,
    no: int,
    dno: int,
    dealer: int,
    sno: int,
    eno: int,
) -> int {
    let down = if eno == dno {
        same_strain_walk(t[DENOM_ORDER[dno] as int], side, (no + 34) / 5, dealer, 4).1
    } else {
        trunc5(no - sno + 4)
    };
    if sno + 5 * down > 35 {
        BIGNUM as int
    } else {
        down
    }
}

/// The sacrifices of the opponents of `side` against contract `no` in par
/// strain `dno`, one per strain, and the cheapest of them.
fn best_sacrifice(
    res_table: &[[i32; 4]; 5],
    side: i32,
    no: i32,
    dno: i32,
    dealer: i32,
    sacr_list: &[ListType; 5],
) -> (r: ([i32; 5], i32))
    requires
        table_wf(*res_table),
        0 <= side < 2,
        1 <= no <= 35,
        0 <= dno < 5,
        0 <= dealer < 4,
        forall|e: int| 0 <= e < 5 ==> -34 <= #[trigger] sacr_list@[e].no <= 35,
    ensures
        forall|e: int|
            0 <= e < 5 ==> #[trigger] r.0[e] == sac_down(
                *res_table,
                side as int,
                no as int,
                dno as int,
                dealer as int,
                sacr_list@[e].no as int,
                e,
            ),
        r.1 <= BIGNUM,
        forall|e: int| 0 <= e < 5 ==> r.1 <= #[trigger] r.0[e],
        r.1 == BIGNUM || exists|e: int| 0 <= e < 5 && r.1 == #[trigger] r.0[e],
{
    let mut row_out: [i32; 5] = [0i32; 5];
    let mut best: i32 = BIGNUM;
    let row = res_table[DENOM_ORDER[dno as usize]];
    let ghost t = *res_table;
    let mut eno: usize = 0;
    while eno < 5
        invariant
            eno <= 5,
            t == *res_table,
            table_wf(t),
            row == t[DENOM_ORDER[dno as int] as int],
            0 <= side < 2,
            1 <= no <= 35,
            0 <= dno < 5,
            0 <= dealer < 4,
            forall|e: int| 0 <= e < 5 ==> -34 <= #[trigger] sacr_list@[e].no <= 35,
            forall|e: int|
                0 <= e < eno ==> #[trigger] row_out[e] == sac_down(
                    t,
                    side as int,
                    no as int,
                    dno as int,
                    dealer as int,
                    sacr_list@[e].no as int,
                    e,
                ),
            best <= BIGNUM,
            forall|e: int| 0 <= e < eno ==> best <= #[trigger] row_out[e],
            best == BIGNUM || exists|e: int| 0 <= e < eno && best == #[trigger] row_out[e],
        decreases 5 - eno,
    {
        let sno = sacr_list[eno].no;
        let mut down: i32;
        if eno as i32 == dno {
            let t_max = (no + 34) / 5;
            let mut incr_flag: i32 = 0;
            down = BIGNUM;
            let mut k: i32 = 0;
            proof {
                assert(DENOM_ORDER[dno as int] < 5);
                assert(forall|q: int| 0 <= q < 4 ==> 0 <= #[trigger] row[q] <= 13);
            }
            while k < 4
                invariant
                    0 <= k <= 4,
                    0 <= dealer < 4,
                    0 <= side < 2,
                    1 <= t_max <= 13,
                    forall|q: int| 0 <= q < 4 ==> 0 <= #[trigger] row[q] <= 13,
                    (incr_flag as int, down as int) == same_strain_walk(
                        row,
                        side as int,
                        t_max as int,
                        dealer as int,
                        k as int,
                    ),
                    0 <= incr_flag <= 1,
                    -13 <= down <= BIGNUM,
                decreases 4 - k,
            {
                let pno = dealer + k;
                let diff = t_max - row[(pno % 4) as usize];
                if pno % 2 == side {
                    if diff == 0 {
                        incr_flag = 1;
                    }
                } else {
                    let local = diff + incr_flag;
                    if local < down {
                        down = local;
                    }
                }
                k += 1;
            }
        } else {
            let x = no - sno + 4;
            down = if x >= 0 { x / 5 } else { -((-x) / 5) };
        }
        if sno + 5 * down > 35 {
            down = BIGNUM;
        }
        let ghost prev_row = row_out;
        let ghost prev_best = best;
        row_out[eno] = down;
        if down < best {
            best = down;
        }
        proof {
            if best != BIGNUM {
                if best == down {
                    assert(row_out[eno as int] == best);
                } else {
                    assert(best == prev_best);
                    let w = choose|e: int| 0 <= e < eno && prev_best == #[trigger] prev_row[e];
                    assert(row_out[w] == prev_row[w]);
                    assert(row_out[w] == best);
                }
            }
        }
        eno += 1;
    }
    proof {
        if best != BIGNUM {
            let w = choose|e: int| 0 <= e < 5 && best == #[trigger] row_out[e];
            assert(0 <= w < 5 && best == row_out[w]);
            let r = (row_out, best);
            assert(r.1 == r.0[w]);
            assert(exists|e: int| 0 <= e < 5 && r.1 == #[trigger] r.0[e]);
        }
    }
    (row_out, best)
}

/// The contract reached by reducing `no` as far as the opponents' sacrifice
/// gap allows without dropping below the floor that keeps its game or slam
/// bonus, and the overtricks that it then makes.
pub open spec fn reduced(no: int, sac_gap: int) -> (int, int) {
    if sac_gap >= -1 {
        (no, 0)
    } else {
        let flr = FLOOR_CONTRACT[no] as int;
        let no_sac_level = no + 5 * (sac_gap + 1);
        let new_no = if no_sac_level > flr {
            no_sac_level
        } else {
            flr
        };
        (new_no, (no - new_no) / 5)
    }
}

proof fn lemma_floor_bounds()
    ensures
        forall|n: int| 1 <= n <= 35 ==> 1 <= #[trigger] FLOOR_CONTRACT[n] <= n,
        forall|n: int| 1 <= n <= 35 ==> (n - #[trigger] FLOOR_CONTRACT[n]) % 5 == 0,
{
    assert forall|n: int| 1 <= n <= 35 implies 1 <= #[trigger] FLOOR_CONTRACT[n] <= n && (n
        - FLOOR_CONTRACT[n]) % 5 == 0 by {
        assert(n == 1 || n == 2 || n == 3 || n == 4 || n == 5 || n == 6 || n == 7 || n == 8 || n
            == 9 || n == 10 || n == 11 || n == 12 || n == 13 || n == 14 || n == 15 || n == 16 || n
            == 17 || n == 18 || n == 19 || n == 20 || n == 21 || n == 22 || n == 23 || n == 24 || n
            == 25 || n == 26 || n == 27 || n == 28 || n == 29 || n == 30 || n == 31 || n == 32 || n
            == 33 || n == 34 || n == 35);
    }
}

/// Reduce a making contract that the opponents' sacrifice leaves room under:
/// 4C just making may be bid as 2C+2, but never so low that a game or slam
/// bonus is lost. Returns the contract and its overtricks.
fn reduce_contract(no: i32, sac_gap: i32) -> (r: (i32, i32))
    requires
        1 <= no <= 35,
        -BIGNUM <= sac_gap <= 0,
    ensures
        r.0 == reduced(no as int, sac_gap as int).0,
        r.1 == reduced(no as int, sac_gap as int).1,
        1 <= r.0 <= no,
        0 <= r.1 <= 6,
        r.0 + 5 * r.1 == no,
{
    if sac_gap >= -1 {
        return (no, 0);
    }
    proof {
        lemma_floor_bounds();
    }
    let flr = FLOOR_CONTRACT[no as usize];
    let no_sac_level = no + 5 * (sac_gap + 1);
    let new_no = if no_sac_level > flr { no_sac_level } else { flr };
    proof {
        assert((no - new_no) % 5 == 0) by {
            if no_sac_level > flr {
                assert(no - new_no == -5 * (sac_gap + 1));
            }
        }
    }
    (new_no, (no - new_no) / 5)
}

/// The letter of seat `p`: N, E, S, W.
pub open spec fn seat_letter(p: int) -> u8 {
    if p == 0 {
        78u8
    } else if p == 1 {
        69u8
    } else if p == 2 {
        83u8
    } else {
        87u8
    }
}

/// The letter of par strain `d`: C, D, H, S, N.
pub open spec fn strain_letter(d: int) -> u8 {
    if d == 0 {
        67u8
    } else if d == 1 {
        68u8
    } else if d == 2 {
        72u8
    } else if d == 3 {
        83u8
    } else {
        78u8
    }
}

/// The name of contract number `no` (1 to 35), such as `4S`; `0` for 0.
pub open spec fn contract_name(no: int) -> Seq<u8> {
    if no == 0 {
        seq![48u8]
    } else {
        seq![(48 + (no - 1) / 5 + 1) as u8, strain_letter((no - 1) % 5)]
    }
}

/// The decimal digits of `n`, from 0 to 99.
pub open spec fn digits(n: int) -> Seq<u8> {
    if n < 10 {
        seq![(48 + n) as u8]
    } else {
        seq![(48 + n / 10) as u8, (48 + n % 10) as u8]
    }
}

/// The decimal text of `d`, with a minus sign when negative.
pub open spec fn signed_text(d: int) -> Seq<u8> {
    if d < 0 {
        seq![45u8] + digits(-d)
    } else {
        digits(d)
    }
}

/// The text of contract `no` in par strain `dno` played by `side` with
/// `delta` over- or undertricks: the contract, `*` if doubled (when going
/// down), the seats of `side` that take the most tricks, and the delta,
/// such as `4S-NS+1` or `5C*-EW-3`.
pub open spec fn contract_text(t: [[i32; 4]; 5], side: int, no: int, dno: int, delta: int) -> Seq<
    u8,
> {
    let row = t[DENOM_ORDER[dno] as int];
    let ta = row[side];
    let tb = row[side + 2];
    let t_max = if ta > tb {
        ta
    } else {
        tb
    };
    contract_name(no) + (if delta < 0 {
        seq![42u8, 45u8]
    } else {
        seq![45u8]
    }) + (if ta == t_max {
        seq![seat_letter(side)]
    } else {
        Seq::empty()
    }) + (if tb == t_max {
        seq![seat_letter(side + 2)]
    } else {
        Seq::empty()
    }) + (if delta > 0 {
        seq![43u8]
    } else {
        Seq::empty()
    }) + (if delta != 0 {
        signed_text(delta)
    } else {
        Seq::empty()
    })
}

/// The text of a sacrifice by the single seat `pno`: contract `no` going
/// `down` tricks down, such as `5D-W-1` (with no doubling mark).
pub open spec fn sacrifice_text(no: int, pno: int, down: int) -> Seq<u8> {
    contract_name(no) + seq![45u8, seat_letter(pno), 45u8] + digits(down)
}

/// Append the name of contract `no` to `text`.
fn push_contract_name(text: &mut Vec<u8>, no: i32)
    requires
        0 <= no <= 35,
    ensures
        final(text)@ == old(text)@ + contract_name(no as int),
{
    if no == 0 {
        text.push(48u8);
        assert(text@ =~= old(text)@ + contract_name(no as int));
        return;
    }
    let level = ((no - 1) / 5 + 1) as u8;
    let d = (no - 1) % 5;
    let letter: u8 = if d == 0 {
        67u8
    } else if d == 1 {
        68u8
    } else if d == 2 {
        72u8
    } else if d == 3 {
        83u8
    } else {
        78u8
    };
    text.push(48u8 + level);
    text.push(letter);
    assert(text@ =~= old(text)@ + contract_name(no as int));
}

/// Append the decimal digits of `n` to `text`.
fn push_digits(text: &mut Vec<u8>, n: i32)
    requires
        0 <= n < 100,
    ensures
        final(text)@ == old(text)@ + digits(n as int),
{
    if n < 10 {
        text.push(48u8 + n as u8);
    } else {
        text.push(48u8 + (n / 10) as u8);
        text.push(48u8 + (n % 10) as u8);
    }
    assert(text@ =~= old(text)@ + digits(n as int));
}

/// The letter of seat `p`.
fn seat_byte(p: i32) -> (b: u8)
    requires
        0 <= p < 4,
    ensures
        b == seat_letter(p as int),
{
    if p == 0 {
        78u8
    } else if p == 1 {
        69u8
    } else if p == 2 {
        83u8
    } else {
        87u8
    }
}

/// The text of a contract, such as `4S-NS+1` or `5C*-NS-3`.
fn contract_as_text(res_table: &[[i32; 4]; 5], side: i32, no: i32, dno: i32, delta: i32) -> (r: Vec<
    u8,
>)
    requires
        0 <= side < 2,
        0 <= no <= 35,
        0 <= dno < 5,
        -99 < delta < 100,
    ensures
        r@ == contract_text(*res_table, side as int, no as int, dno as int, delta as int),
        r@.len() <= 9,
{
    let t = res_table[DENOM_ORDER[dno as usize]];
    let ta = t[side as usize];
    let tb = t[side as usize + 2];
    let t_max = if ta > tb { ta } else { tb };
    let mut text: Vec<u8> = Vec::new();
    push_contract_name(&mut text, no);
    let ghost s1 = text@;
    if delta < 0 {
        text.push(42u8);
        text.push(45u8);
    } else {
        text.push(45u8);
    }
    let ghost s2 = text@;
    if ta == t_max {
        text.push(seat_byte(side));
    }
    let ghost s3 = text@;
    if tb == t_max {
        text.push(seat_byte(side + 2));
    }
    let ghost s4 = text@;
    if delta > 0 {
        text.push(43u8);
    }
    let ghost s5 = text@;
    if delta < 0 {
        text.push(45u8);
        push_digits(&mut text, -delta);
    } else if delta > 0 {
        push_digits(&mut text, delta);
    }
    proof {
        let row = res_table[DENOM_ORDER[dno as int] as int];
        assert(s1 =~= contract_name(no as int));
        assert(s2 =~= s1 + (if delta < 0 {
            seq![42u8, 45u8]
        } else {
            seq![45u8]
        }));
        assert(s3 =~= s2 + (if ta == t_max {
            seq![seat_letter(side as int)]
        } else {
            Seq::empty()
        }));
        assert(s4 =~= s3 + (if tb == t_max {
            seq![seat_letter(side + 2)]
        } else {
            Seq::empty()
        }));
        assert(s5 =~= s4 + (if delta > 0 {
            seq![43u8]
        } else {
            Seq::empty()
        }));
        if delta < 0 {
            assert(text@ =~= s5 + (seq![45u8] + digits(-delta)));
        } else if delta > 0 {
            assert(text@ =~= s5 + digits(delta as int));
        } else {
            assert(text@ =~= s5 + Seq::<u8>::empty());
        }
        assert(text@ =~= contract_text(*res_table, side as int, no as int, dno as int, delta as int));
    }
    text
}

/// The text of a single-seat sacrifice, such as `5D-W-1`.
fn sacrifice_as_text(no: i32, pno: i32, down: i32) -> (r: Vec<u8>)
    requires
        1 <= no <= 35,
        0 <= pno < 4,
        0 <= down < 100,
    ensures
        r@ == sacrifice_text(no as int, pno as int, down as int),
        r@.len() <= 7,
{
    let mut text: Vec<u8> = Vec::new();
    push_contract_name(&mut text, no);
    text.push(45u8);
    text.push(seat_byte(pno));
    text.push(45u8);
    push_digits(&mut text, down);
    assert(text@ =~= sacrifice_text(no as int, pno as int, down as int));
    text
}

/// `b` followed by NUL bytes, ten bytes in all.
pub open spec fn padded(b: Seq<u8>) -> Seq<u8> {
    Seq::new(
        10,
        |i: int|
            if i < b.len() {
                b[i]
            } else {
                0u8
            },
    )
}

/// The text as a NUL-padded ten-byte buffer.
fn text_buffer(text: &Vec<u8>) -> (r: [u8; 10])
    requires
        text@.len() <= 9,
    ensures
        r@ == padded(text@),
{
    let mut buf: [u8; 10] = [0u8; 10];
    let mut i: usize = 0;
    while i < text.len()
        invariant
            i <= text@.len() <= 9,
            forall|k: int| 0 <= k < i ==> buf@[k] == text@[k],
            forall|k: int| i <= k < 10 ==> buf@[k] == 0u8,
        decreases text@.len() - i,
    {
        buf[i] = text[i];
        i += 1;
    }
    assert(buf@ =~= padded(text@));
    buf
}

/// The cheapest sacrifice of the opponents of `side` against contract `no`
/// in par strain `dno`, `BIGNUM` if none can be bid; `other` holds the
/// opponents' own list.
#[verifier::opaque]
pub open spec fn min_sac(
    t: [[i32; 4]; 5],
    side: int,
    no: int,
    dno: int,
    dealer: int,
    other: Seq<ListType>,
) -> int {
    let a0 = sac_down(t, side, no, dno, dealer, other[0].no as int, 0);
    let a1 = sac_down(t, side, no, dno, dealer, other[1].no as int, 1);
    let a2 = sac_down(t, side, no, dno, dealer, other[2].no as int, 2);
    let a3 = sac_down(t, side, no, dno, dealer, other[3].no as int, 3);
    let a4 = sac_down(t, side, no, dno, dealer, other[4].no as int, 4);
    let m01 = if a0 < a1 {
        a0
    } else {
        a1
    };
    let m23 = if a2 < a3 {
        a2
    } else {
        a3
    };
    let m03 = if m01 < m23 {
        m01
    } else {
        m23
    };
    let m = if m03 < a4 {
        m03
    } else {
        a4
    };
    if m < BIGNUM {
        m
    } else {
        BIGNUM as int
    }
}

/// The walk over the first `k` candidates `l` of the primacy side `side`:
/// the best score among the contracts that no sacrifice beats, the dearest
/// profitable sacrifice (in tricks down), and whether any sacrifice pays.
pub open spec fn decide(
    t: [[i32; 4]; 5],
    side: int,
    dealer: int,
    vul_no: int,
    l: Seq<ListType>,
    other: Seq<ListType>,
    k: int,
) -> (int, int, bool)
    decreases k,
{
    if k <= 0 {
        (0, 0, false)
    } else {
        let prev = decide(t, side, dealer, vul_no, l, other, k - 1);
        let e = l[k - 1];
        let target = DOWN_TARGET[e.no as int][vul_no] as int;
        let down = min_sac(t, side, e.no as int, e.dno as int, dealer, other);
        if down <= target {
            (prev.0, if down > prev.1 {
                down
            } else {
                prev.1
            }, true)
        } else {
            (if e.score > prev.0 {
                e.score as int
            } else {
                prev.0
            }, prev.1, prev.2)
        }
    }
}

/// The par score seen from North-South when side `side` has the primacy,
/// its candidates being the first `num_cand` of `l`: the best undisturbed
/// contract unless a sacrifice costs the opponents less, then the penalty.
pub open spec fn par_score(
    t: [[i32; 4]; 5],
    side: int,
    dealer: int,
    vul_no: int,
    vul_def: int,
    l: Seq<ListType>,
    other: Seq<ListType>,
    num_cand: int,
) -> int {
    let d = decide(t, side, dealer, vul_no, l, other, num_cand);
    let sac = DOUBLED_SCORES[vul_def][d.1] as int;
    let mag = if !d.2 || d.0 > sac {
        d.0
    } else {
        sac
    };
    if side == 0 {
        mag
    } else {
        -mag
    }
}

proof fn lemma_down_target_bounds()
    ensures
        forall|n: int, v: int| 0 <= n <= 35 && 0 <= v < 4 ==> 0 <= #[trigger] DOWN_TARGET[n][v] <= 8,
{
    assert forall|n: int, v: int| 0 <= n <= 35 && 0 <= v < 4 implies 0 <= #[trigger] DOWN_TARGET[n][v]
        <= 8 by {
        assert(n == 0 || n == 1 || n == 2 || n == 3 || n == 4 || n == 5 || n == 6 || n == 7 || n == 8 || n == 9 || n == 10 || n == 11 || n == 12 || n == 13 || n == 14 || n == 15 || n == 16 || n == 17 || n == 18 || n == 19 || n == 20 || n == 21 || n == 22 || n == 23 || n == 24 || n == 25 || n == 26 || n == 27 || n == 28 || n == 29 || n == 30 || n == 31 || n == 32 || n == 33 || n == 34 || n == 35);
        assert(v == 0 || v == 1 || v == 2 || v == 3);
    }
}

proof fn lemma_doubled_bounds()
    ensures
        forall|v: int, d: int| 0 <= v < 2 && 0 <= d <= 13 ==> 0 <= #[trigger] DOUBLED_SCORES[v][d] <= 3800,
{
    assert forall|v: int, d: int| 0 <= v < 2 && 0 <= d <= 13 implies 0 <= #[trigger] DOUBLED_SCORES[v][d]
        <= 3800 by {
        assert(d == 0 || d == 1 || d == 2 || d == 3 || d == 4 || d == 5 || d == 6 || d == 7 || d
            == 8 || d == 9 || d == 10 || d == 11 || d == 12 || d == 13);
        assert(v == 0 || v == 1);
    }
}

/// A candidate of the sorted list is one of the side's making entries: its
/// contract number names its own strain.
proof fn lemma_candidate(t: [[i32; 4]; 5], side: int, vul: int, l: Seq<ListType>, n: int, dm: int)
    requires
        table_wf(t),
        0 <= side < 2,
        0 <= vul < 2,
        desc_perm(l, entries(t, side, vul)),
        0 <= n < 5,
        dm >= 1,
        l[n].no >= dm,
    ensures
        1 <= l[n].no <= 35,
        0 <= l[n].dno < 5,
        (l[n].no - 1) % 5 == l[n].dno,
        l[n].no == side_no(t, side, l[n].dno as int),
        l[n] == entry(t, side, l[n].dno as int, vul),
        0 < l[n].score <= 2220,
{
    broadcast use vstd::seq_lib::group_to_multiset_ensures;

    let e = entries(t, side, vul);
    assert(l.to_multiset().count(l[n]) > 0);
    assert(e.contains(l[n]));
    let d = choose|d: int| 0 <= d < e.len() && e[d] == l[n];
    lemma_side_bounds(t, side, d);
    lemma_scores_positive(vul);
    assert(l[n] == entry(t, side, d, vul));
}

/// A buffer holding a text of at most nine bytes, NUL-padded.
pub open spec fn text_slot(b: [u8; 10]) -> bool {
    exists|x: Seq<u8>| x.len() <= 9 && b@ == padded(x)
}

/// The sacrifice against a contract in another strain stands between the
/// contract and 7NT.
proof fn lemma_other_strain_sacrifice(no: int, sno: int, down: int)
    requires
        1 <= no <= 35,
        0 <= down <= 8,
        trunc5(no - sno + 4) == down,
        sno + 5 * down <= 35,
    ensures
        1 <= sno + 5 * down <= 35,
{
    let x = no - sno + 4;
    if x >= 0 {
        assert(5 * (x / 5) >= x - 4) by (nonlinear_arith)
            requires
                x >= 0,
        ;
    }
}

/// The seats of the opponents of `side`, over the first `k` seats from
/// the dealer, whose same-strain sacrifice costs `best_down` tricks, each
/// with the contract number it bids: `no` one level up when a seat of
/// `side` before it shows the full count.
pub open spec fn sac_hits(row: [i32; 4], side: int, t_max: int, dealer: int, no: int, best_down: int, k: int) -> Seq<(int, int)>
    decreases k,
{
    if k <= 0 {
        Seq::empty()
    } else {
        let prev = sac_hits(row, side, t_max, dealer, no, best_down, k - 1);
        let incr = same_strain_walk(row, side, t_max, dealer, k - 1).0;
        let pno = dealer + k - 1;
        if pno % 2 != side && t_max - row[pno % 4] + incr == best_down {
            prev.push((pno % 4, no + 5 * incr))
        } else {
            prev
        }
    }
}

/// The text of the same-strain sacrifice by the opponents of `side`
/// against contract `no` in par strain `dno`: the seat's contract when one
/// seat sacrifices or one bids it cheaper, the pair's when both bid it at
/// the same level.
pub open spec fn same_strain_text(t: [[i32; 4]; 5], side: int, dealer: int, best_down: int, no: int, dno: int) -> Seq<u8> {
    let row = t[DENOM_ORDER[dno] as int];
    let hits = sac_hits(row, side, (no + 34) / 5, dealer, no, best_down, 4);
    let h0 = if hits.len() > 0 { hits[0] } else { (0int, 0int) };
    let h1 = if hits.len() > 1 { hits[1] } else { (0int, 0int) };
    if hits.len() == 1 {
        sacrifice_text(h0.1, h0.0, best_down)
    } else if h0.1 == h1.1 {
        contract_text(t, 1 - side, h0.1, dno, -best_down)
    } else if h0.1 >= h1.1 {
        sacrifice_text(h1.1, h1.0, best_down)
    } else {
        sacrifice_text(h0.1, h0.0, best_down)
    }
}

/// The texts of the sacrifices by the opponents of `side` (their own list
/// being `sacr_list`) that cost `best_down` tricks against contract `no` in
/// par strain `dno`, over the par strains below `e`, strain by strain.
pub open spec fn sac_texts(
    t: [[i32; 4]; 5],
    side: int,
    dealer: int,
    best_down: int,
    no: int,
    dno: int,
    sacr_list: Seq<ListType>,
    e: int,
) -> Seq<Seq<u8>>
    decreases e,
{
    if e <= 0 {
        Seq::empty()
    } else {
        let prev = sac_texts(t, side, dealer, best_down, no, dno, sacr_list, e - 1);
        if sac_down(t, side, no, dno, dealer, sacr_list[e - 1].no as int, e - 1) != best_down {
            prev
        } else if e - 1 != dno {
            prev.push(contract_text(t, 1 - side, sacr_list[e - 1].no + 5 * best_down, e - 1, -best_down))
        } else {
            prev.push(same_strain_text(t, side, dealer, best_down, no, dno))
        }
    }
}

/// Writing the buffer of `text` at slot `n` keeps the slots from `start`
/// the buffers of `texts`, now with `text` after them.
proof fn lemma_slots_push(a: [[u8; 10]; 10], b: [[u8; 10]; 10], start: int, n: int, texts: Seq<Seq<u8>>, text: Seq<u8>)
    requires
        0 <= start <= n < 10,
        n == start + texts.len(),
        forall|k: int| start <= k < n ==> (#[trigger] a[k])@ == padded(texts[k - start]),
        b@ == a@.update(n, b[n]),
        b[n]@ == padded(text),
    ensures
        forall|k: int| start <= k < n + 1 ==> (#[trigger] b[k])@ == padded(texts.push(text)[k - start]),
{
    assert forall|k: int| start <= k < n + 1 implies (#[trigger] b[k])@ == padded(texts.push(text)[k - start]) by {
        if k < n {
            assert(b[k] == a[k]);
        }
    }
}

/// The text of the same-strain sacrifice by the opponents of `side`
/// costing `best_down` tricks against contract `no_decl` in par strain
/// `dno`, their own contract number there being `sno`.
#[verifier::spinoff_prover]
#[verifier::rlimit(100)]
fn same_strain_sacrifice(
    res_table: &[[i32; 4]; 5],
    side: i32,
    dealer: i32,
    best_down: i32,
    no_decl: i32,
    dno: i32,
    sno: i32,
) -> (text: Vec<u8>)
    requires
        table_wf(*res_table),
        0 <= side < 2,
        0 <= dealer < 4,
        0 <= best_down <= 8,
        1 <= no_decl <= 35,
        0 <= dno < 5,
        (no_decl - 1) % 5 == dno,
        sno == side_no(*res_table, 1 - side, dno as int),
        sno + 5 * best_down <= 35,
    ensures
        text@ == same_strain_text(*res_table, side as int, dealer as int, best_down as int, no_decl as int, dno as int),
        text@.len() <= 9,
{
    let ghost t = *res_table;
    let row = res_table[DENOM_ORDER[dno as usize]];
    let t_max = (no_decl + 34) / 5;
    proof {
        assert(DENOM_ORDER[dno as int] < 5);
        assert(forall|q: int| 0 <= q < 4 ==> 0 <= #[trigger] row[q] <= 13);
        assert(no_decl == 5 * (t_max - 7) + dno + 1) by (nonlinear_arith)
            requires
                1 <= no_decl <= 35,
                0 <= dno < 5,
                (no_decl - 1) % 5 == dno,
                t_max == (no_decl + 34) / 5,
        ;
    }
    let mut incr_flag: i32 = 0;
    let mut p_hit: usize = 0;
    let mut pno_list: [i32; 2] = [0i32; 2];
    let mut sac_list: [i32; 2] = [0i32; 2];
    let mut k: i32 = 0;
    while k < 4
        invariant
            0 <= k <= 4,
            0 <= dealer < 4,
            0 <= side < 2,
            0 <= best_down <= 8,
            0 <= dno < 5,
            row == t[DENOM_ORDER[dno as int] as int],
            forall|q: int| 0 <= q < 4 ==> 0 <= #[trigger] row[q] <= 13,
            no_decl == 5 * (t_max - 7) + dno + 1,
            1 <= no_decl <= 35,
            sno == side_no(t, 1 - side, dno as int),
            sno + 5 * best_down <= 35,
            0 <= incr_flag <= 1,
            if dealer % 2 == side {
                p_hit <= k / 2
            } else {
                p_hit <= (k + 1) / 2
            },
            p_hit <= 2,
            forall|i: int| 0 <= i < p_hit ==> 1 <= #[trigger] sac_list[i] <= 35,
            forall|i: int| 0 <= i < p_hit ==> 0 <= #[trigger] pno_list[i] < 4,
            forall|i: int| p_hit <= i < 2 ==> #[trigger] sac_list[i] == 0,
            forall|i: int| p_hit <= i < 2 ==> #[trigger] pno_list[i] == 0,
            t_max == (no_decl + 34) / 5,
            incr_flag == same_strain_walk(row, side as int, t_max as int, dealer as int, k as int).0,
            p_hit == sac_hits(row, side as int, t_max as int, dealer as int, no_decl as int, best_down as int, k as int).len(),
            forall|i: int| 0 <= i < p_hit ==> (#[trigger] pno_list[i] as int, sac_list[i] as int) == sac_hits(row,
                side as int, t_max as int, dealer as int, no_decl as int, best_down as int, k as int)[i],
        decreases 4 - k,
    {
        let pno = dealer + k;
        let pno_mod = pno % 4;
        let diff = t_max - row[pno_mod as usize];
        if pno % 2 == side {
            if diff == 0 {
                incr_flag = 1;
            }
        } else {
            let down = diff + incr_flag;
            if down == best_down {
                proof {
                    assert(pno_mod % 2 == 1 - side);
                    assert(row[pno_mod as int] <= side_best(t, 1 - side, dno as int));
                }
                pno_list[p_hit] = pno_mod;
                sac_list[p_hit] = no_decl + 5 * incr_flag;
                p_hit += 1;
            }
        }
        k += 1;
    }
    proof {
        let hits = sac_hits(row, side as int, t_max as int, dealer as int, no_decl as int, best_down as int, 4);
        assert(hits.len() == p_hit);
        assert((pno_list[0] as int, sac_list[0] as int) == (if hits.len() > 0 { hits[0] } else { (0int, 0int) }));
        assert((pno_list[1] as int, sac_list[1] as int) == (if hits.len() > 1 { hits[1] } else { (0int, 0int) }));
    }
    let ns0 = sac_list[0];
    if p_hit == 1 {
        return sacrifice_as_text(ns0, pno_list[0], best_down);
    }
    let ns1 = sac_list[1];
    if ns0 == ns1 {
        return contract_as_text(res_table, 1 - side, ns0, dno, -best_down);
    }
    let p: usize = if ns0 >= ns1 { 1 } else { 0 };
    sacrifice_as_text(sac_list[p], pno_list[p], best_down)
}

/// Write, from slot `res_no` on, the sacrifices by the opponents of `side`
/// that cost `best_down` tricks against contract `no_decl` in par strain
/// `dno`: in another strain the pair's contract (such as `5C*-EW-2`); in
/// the same strain the contract of the seat that can bid it cheaper, or of
/// both seats if they bid it at the same level.
fn sacrifices_as_text(
    res_table: &[[i32; 4]; 5],
    side: i32,
    dealer: i32,
    best_down: i32,
    no_decl: i32,
    dno: i32,
    sacr_list: &[ListType; 5],
    sacr_row: [i32; 5],
    results: &mut [[u8; 10]; 10],
    res_no: &mut usize,
)
    requires
        table_wf(*res_table),
        0 <= side < 2,
        0 <= dealer < 4,
        0 <= best_down <= 8,
        1 <= no_decl <= 35,
        0 <= dno < 5,
        (no_decl - 1) % 5 == dno,
        forall|e: int|
            0 <= e < 5 ==> #[trigger] sacr_list@[e].no == side_no(*res_table, 1 - side, e),
        forall|e: int|
            0 <= e < 5 ==> #[trigger] sacr_row[e] == sac_down(
                *res_table,
                side as int,
                no_decl as int,
                dno as int,
                dealer as int,
                sacr_list@[e].no as int,
                e,
            ),
        *old(res_no) + 5 <= 10,
    ensures
        *old(res_no) <= *final(res_no) <= *old(res_no) + 5,
        forall|k: int|
            0 <= k < 10 && !(*old(res_no) <= k < *final(res_no)) ==> #[trigger] final(results)[k]
                == old(results)[k],
        forall|k: int| *old(res_no) <= k < *final(res_no) ==> text_slot(#[trigger] final(results)[k]),
        ({
            let texts = sac_texts(*res_table, side as int, dealer as int, best_down as int, no_decl as int, dno as int,
                sacr_list@, 5);
            &&& *final(res_no) == *old(res_no) + texts.len()
            &&& forall|k: int| *old(res_no) <= k < *final(res_no) ==> (#[trigger] final(results)[k])@ == padded(
                texts[k - *old(res_no)])
        }),
{
    let ghost t = *res_table;
    let ghost start = *res_no;
    let other: i32 = 1 - side;
    let mut eno: usize = 0;
    while eno < 5
        invariant
            eno <= 5,
            t == *res_table,
            table_wf(t),
            0 <= side < 2,
            other == 1 - side,
            0 <= dealer < 4,
            0 <= best_down <= 8,
            1 <= no_decl <= 35,
            0 <= dno < 5,
            (no_decl - 1) % 5 == dno,
            forall|e: int| 0 <= e < 5 ==> #[trigger] sacr_list@[e].no == side_no(t, 1 - side, e),
            forall|e: int|
                0 <= e < 5 ==> #[trigger] sacr_row[e] == sac_down(
                    t,
                    side as int,
                    no_decl as int,
                    dno as int,
                    dealer as int,
                    sacr_list@[e].no as int,
                    e,
                ),
            start + 5 <= 10,
            start <= *res_no <= start + eno,
            forall|k: int|
                0 <= k < 10 && !(start <= k < *res_no) ==> #[trigger] results[k] == old(
                    results,
                )[k],
            forall|k: int| start <= k < *res_no ==> text_slot(#[trigger] results[k]),
            *res_no == start + sac_texts(t, side as int, dealer as int, best_down as int, no_decl as int, dno as int,
                sacr_list@, eno as int).len(),
            forall|k: int| start <= k < *res_no ==> (#[trigger] results[k])@ == padded(sac_texts(t, side as int,
                dealer as int, best_down as int, no_decl as int, dno as int, sacr_list@, eno as int)[k - start]),
        decreases 5 - eno,
    {
        let down0 = sacr_row[eno];
        if down0 != best_down {
            assert(sac_texts(t, side as int, dealer as int, best_down as int, no_decl as int, dno as int, sacr_list@, eno + 1)
                == sac_texts(t, side as int, dealer as int, best_down as int, no_decl as int, dno as int, sacr_list@, eno as int));
            eno += 1;
            continue;
        }
        if eno as i32 != dno {
            let sno = sacr_list[eno].no;
            proof {
                lemma_side_bounds(t, 1 - side, eno as int);
                lemma_other_strain_sacrifice(no_decl as int, sno as int, best_down as int);
            }
            let no_sac = sno + 5 * best_down;
            let text = contract_as_text(res_table, other, no_sac, eno as i32, -best_down);
            let buf = text_buffer(&text);
            proof {
                assert(text@.len() <= 9 && buf@ == padded(text@));
            }
            let ghost r0 = *results;
            let ghost texts0 = sac_texts(t, side as int, dealer as int, best_down as int, no_decl as int, dno as int, sacr_list@, eno as int);
            results[*res_no] = buf;
            proof {
                lemma_slots_push(r0, *results, start as int, *res_no as int, texts0, text@);
                assert(sac_texts(t, side as int, dealer as int, best_down as int, no_decl as int, dno as int, sacr_list@, eno + 1) == texts0.push(text@));
            }
            *res_no += 1;
            eno += 1;
            continue;
        }
        proof {
            lemma_side_bounds(t, 1 - side, dno as int);
            assert(sacr_list@[dno as int].no + 5 * best_down <= 35);
        }
        let text = same_strain_sacrifice(res_table, side, dealer, best_down, no_decl, dno, sacr_list[dno as usize].no);
        let buf = text_buffer(&text);
        let ghost r0 = *results;
        let ghost texts0 = sac_texts(t, side as int, dealer as int, best_down as int, no_decl as int, dno as int, sacr_list@, eno as int);
        results[*res_no] = buf;
        proof {
            lemma_slots_push(r0, *results, start as int, *res_no as int, texts0, text@);
            assert(sac_texts(t, side as int, dealer as int, best_down as int, no_decl as int, dno as int, sacr_list@, eno + 1) == texts0.push(text@));
        }
        *res_no += 1;
        eno += 1;
    }
}

proof fn lemma_high_zero(t: [[i32; 4]; 5], side: int)
    requires
        table_wf(t),
        0 <= side < 2,
    ensures
        highest_making(t, side) >= 0,
        highest_making(t, side) == 0 <==> forall|d: int| 0 <= d < 5 ==> #[trigger] side_best(t, side, d) < 7,
{
    reveal_with_fuel(partial_high, 6);
    lemma_side_bounds(t, side, 0);
    lemma_side_bounds(t, side, 1);
    lemma_side_bounds(t, side, 2);
    lemma_side_bounds(t, side, 3);
    lemma_side_bounds(t, side, 4);
}

/// A deal is passed out exactly when neither side has a plus score.
proof fn lemma_passed_out(t: [[i32; 4]; 5], dealer: int)
    requires
        table_wf(t),
        0 <= dealer < 4,
    ensures
        passed_out(t) <==> primacy(t, dealer) == -1,
        primacy(t, dealer) != -1 ==> 0 <= primacy(t, dealer) < 2,
{
    lemma_high_zero(t, 0);
    lemma_high_zero(t, 1);
    let s0 = highest_making(t, 0);
    let s1 = highest_making(t, 1);
    if s0 == 0 && s1 == 0 {
        assert forall|r: int, s: int| 0 <= r < 5 && 0 <= s < 4 implies #[trigger] t[r][s] <= 6 by {
            let d = if r == 3 {
                0int
            } else if r == 2 {
                1int
            } else if r == 1 {
                2int
            } else if r == 0 {
                3int
            } else {
                4int
            };
            assert(DENOM_ORDER[d] == r);
            assert(side_best(t, s % 2, d) < 7);
        }
    }
    if passed_out(t) {
        assert forall|d: int| 0 <= d < 5 implies #[trigger] side_best(t, 0, d) < 7 by {
            assert(DENOM_ORDER[d] < 5);
        }
        assert forall|d: int| 0 <= d < 5 implies #[trigger] side_best(t, 1, d) < 7 by {
            assert(DENOM_ORDER[d] < 5);
        }
    }
    if s0 == s1 && s0 != 0 {
        let dno = (s0 - 1) % 5;
        assert(0 <= dno < 5);
        let row = t[DENOM_ORDER[dno] as int];
        let dl = dealer;
        assert(0 <= dl % 2 < 2 && 0 <= (dl + 1) % 2 < 2 && 0 <= (dl + 2) % 2 < 2 && 0 <= (dl + 3)
            % 2 < 2);
    }
}

proof fn lemma_vul_tables()
    ensures
        forall|v: int, s: int| 0 <= v < 4 && 0 <= s < 2 ==> 0 <= #[trigger] VUL_LOOKUP[v][s] < 2,
        forall|a: int, b: int| 0 <= a < 2 && 0 <= b < 2 ==> 0 <= #[trigger] VUL_TO_NO[a][b] < 4,
{
    assert forall|v: int, s: int| 0 <= v < 4 && 0 <= s < 2 implies 0 <= #[trigger] VUL_LOOKUP[v][s]
        < 2 by {
        assert(v == 0 || v == 1 || v == 2 || v == 3);
        assert(s == 0 || s == 1);
    }
    assert forall|a: int, b: int| 0 <= a < 2 && 0 <= b < 2 implies 0 <= #[trigger] VUL_TO_NO[a][b]
        < 4 by {
        assert(a == 0 || a == 1);
        assert(b == 0 || b == 1);
    }
}

/// The texts of the contracts among the first `k` candidates `l` of the
/// primacy side `side` that no sacrifice beats and that score `best`, each
/// reduced as far as the opponents' cheapest sacrifice allows.
pub open spec fn plus_texts(
    t: [[i32; 4]; 5],
    side: int,
    dealer: int,
    vul_no: int,
    l: Seq<ListType>,
    other: Seq<ListType>,
    best: int,
    k: int,
) -> Seq<Seq<u8>>
    decreases k,
{
    if k <= 0 {
        Seq::empty()
    } else {
        let prev = plus_texts(t, side, dealer, vul_no, l, other, best, k - 1);
        let e = l[k - 1];
        let target = DOWN_TARGET[e.no as int][vul_no] as int;
        let down = min_sac(t, side, e.no as int, e.dno as int, dealer, other);
        if down > target && e.score == best {
            let rd = reduced(e.no as int, target - down);
            prev.push(contract_text(t, side, rd.0, e.dno as int, rd.1))
        } else {
            prev
        }
    }
}

/// The position of the first of the first `k` candidates `l` of `side`
/// against which a sacrifice pays; `k` when there is none.
pub open spec fn first_paying(
    t: [[i32; 4]; 5],
    side: int,
    dealer: int,
    vul_no: int,
    l: Seq<ListType>,
    other: Seq<ListType>,
    k: int,
) -> int
    decreases k,
{
    if k <= 0 {
        0
    } else {
        let p = first_paying(t, side, dealer, vul_no, l, other, k - 1);
        let e = l[k - 1];
        if p < k - 1 {
            p
        } else if min_sac(t, side, e.no as int, e.dno as int, dealer, other)
            <= DOWN_TARGET[e.no as int][vul_no] {
            k - 1
        } else {
            k
        }
    }
}

/// The par contracts as texts when side `side` has the primacy, its
/// candidates being the first `num_cand` of `l`: the best contracts that no
/// sacrifice beats, or else the opponents' sacrifices, at the cost of the
/// dearest one that pays, against the first candidate they pay against.
pub open spec fn par_texts(
    t: [[i32; 4]; 5],
    side: int,
    dealer: int,
    vul_no: int,
    vul_def: int,
    l: Seq<ListType>,
    other: Seq<ListType>,
    num_cand: int,
) -> Seq<Seq<u8>> {
    let d = decide(t, side, dealer, vul_no, l, other, num_cand);
    if !d.2 || d.0 > DOUBLED_SCORES[vul_def][d.1] {
        plus_texts(t, side, dealer, vul_no, l, other, d.0, num_cand)
    } else {
        let e = l[first_paying(t, side, dealer, vul_no, l, other, num_cand)];
        if min_sac(t, side, e.no as int, e.dno as int, dealer, other) == d.1 {
            sac_texts(t, side, dealer, d.1, e.no as int, e.dno as int, other, 5)
        } else {
            Seq::empty()
        }
    }
}

/// The score and the contracts of `r` are those of the primacy side `p`
/// whose entries, sorted by descending contract number, are `l`.
pub open spec fn par_lines(t: [[i32; 4]; 5], p: int, dealer: int, vp: int, vo: int, l: Seq<ListType>, r: ParResultsDealer) -> bool {
    let vul_no = VUL_TO_NO[vp][vo] as int;
    let other = entries(t, 1 - p, vo);
    let num_cand = 5 - count_below(l, dearest(t, p, vp, 5).1, 5);
    let texts = par_texts(t, p, dealer, vul_no, vo, l, other, num_cand);
    &&& r.score == par_score(t, p, dealer, vul_no, vo, l, other, num_cand)
    &&& r.number == texts.len()
    &&& forall|k: int| 0 <= k < r.number ==> (#[trigger] r.contracts[k])@ == padded(texts[k])
}

/// What [`dealer_par`] promises of a deal that is not passed out: the
/// primacy side's candidates, sorted by descending contract number, give the
/// par score and the par contracts; at most five contracts are written, each a NUL-padded text,
/// and the other slots stay empty.
pub open spec fn par_outcome(t: [[i32; 4]; 5], dealer: int, vulnerable: int, r: ParResultsDealer) -> bool {
    let p = primacy(t, dealer);
    let vp = VUL_LOOKUP[vulnerable][p] as int;
    let vo = VUL_LOOKUP[vulnerable][1 - p] as int;
    &&& 0 <= p < 2
    &&& 0 <= r.number <= 5
    &&& exists|l: Seq<ListType>|
        desc_perm(l, entries(t, p, vp)) && par_lines(t, p, dealer, vp, vo, l, r)
    &&& forall|k: int| 0 <= k < r.number ==> text_slot(#[trigger] r.contracts[k])
    &&& forall|k: int| r.number <= k < 10 ==> (#[trigger] r.contracts[k])@ == padded(Seq::empty())
}

/// The par results of a trick table for a given dealer (0 North to 3 West)
/// and vulnerability (0 none, 1 both, 2 North-South, 3 East-West).
///
/// A passed-out deal gives the single contract `pass` and score 0.
/// Otherwise the side entitled to a plus score either bids its best
/// contract that no sacrifice beats, reduced as far as the opponents'
/// sacrifice allows, or collects the penalty of the opponents' cheapest
/// profitable sacrifices.
#[verifier::spinoff_prover]
#[verifier::rlimit(100)]
pub fn dealer_par(res_table: &[[i32; 4]; 5], dealer: i32, vulnerable: i32) -> (r: ParResultsDealer)
    requires
        table_wf(*res_table),
        0 <= dealer < 4,
        0 <= vulnerable < 4,
    ensures
        passed_out(*res_table) ==> r.number == 1 && r.score == 0 && pass_text(r.contracts[0])
            && forall|k: int| 1 <= k < 10 ==> (#[trigger] r.contracts[k])@ == padded(Seq::empty()),
        !passed_out(*res_table) ==> par_outcome(*res_table, dealer as int, vulnerable as int, r),
{
    let ghost t = *res_table;
    let mut contracts: [[u8; 10]; 10] = [[0u8; 10]; 10];
    proof {
        lemma_vul_tables();
        lemma_passed_out(t, dealer as int);
        assert(forall|k: int| 0 <= k < 10 ==> (#[trigger] contracts[k])@ == padded(Seq::empty()));
    }
    let vul_by_side = VUL_LOOKUP[vulnerable as usize];
    let (side, vul_no, num_cand, lst, other) = survey_scores(res_table, dealer, vul_by_side);
    if side == -1 {
        contracts[0] = [112u8, 97u8, 115u8, 115u8, 0u8, 0u8, 0u8, 0u8, 0u8, 0u8];
        return ParResultsDealer { number: 1, score: 0, contracts };
    }
    let sd = side as usize;
    let ghost vp = vul_by_side[sd as int] as int;
    let ghost vo = vul_by_side[1 - sd] as int;
    let ghost dm = dearest(t, side as int, vp, 5).1;
    proof {
        lemma_down_target_bounds();
        lemma_doubled_bounds();
        assert forall|e: int| 0 <= e < 5 implies -34 <= #[trigger] other@[e].no <= 35 by {
            lemma_side_bounds(t, 1 - side, e);
        }
    }
    let mut best_plus: i32 = 0;
    let mut best_down: i32 = 0;
    let mut sac_found: bool = false;
    let mut kind: [i32; 5] = [0i32; 5];
    let mut sac_gap: [i32; 5] = [0i32; 5];
    let mut downs: [i32; 5] = [0i32; 5];
    let ghost mut first0: int = 0;
    let mut n: usize = 0;
    while n < num_cand
        invariant
            n <= num_cand <= 5,
            t == *res_table,
            table_wf(t),
            0 <= side < 2,
            sd == side,
            0 <= dealer < 4,
            0 <= vul_no < 4,
            0 <= vp < 2,
            dm >= 1,
            desc_perm(lst@, entries(t, side as int, vp)),
            forall|i: int| 0 <= i < 5 ==> (i < num_cand <==> (#[trigger] lst@[i]).no >= dm),
            forall|e: int| 0 <= e < 5 ==> -34 <= #[trigger] other@[e].no <= 35,
            forall|n: int, v: int|
                0 <= n <= 35 && 0 <= v < 4 ==> 0 <= #[trigger] DOWN_TARGET[n][v] <= 8,
            (best_plus as int, best_down as int, sac_found) == decide(
                t,
                side as int,
                dealer as int,
                vul_no as int,
                lst@,
                other@,
                n as int,
            ),
            0 <= best_plus <= 2220,
            0 <= best_down <= 8,
            sac_found ==> 0 <= first0 < n && kind[first0] == 0,
            forall|k: int| 0 <= k < n && kind[k] == 0 ==> sac_found && k == first0,
            forall|k: int|
                0 <= k < n ==> (#[trigger] kind[k] == 1 <==> min_sac(
                    t,
                    side as int,
                    lst@[k].no as int,
                    lst@[k].dno as int,
                    dealer as int,
                    other@,
                ) > DOWN_TARGET[lst@[k].no as int][vul_no as int]),
            forall|k: int|
                0 <= k < n && kind[k] == 1 ==> -BIGNUM <= #[trigger] sac_gap[k] <= -1,
            forall|k: int|
                0 <= k < n && kind[k] == 1 ==> #[trigger] sac_gap[k] == DOWN_TARGET[lst@[k].no as int][vul_no as int]
                    - min_sac(t, side as int, lst@[k].no as int, lst@[k].dno as int, dealer as int, other@),
            first_paying(t, side as int, dealer as int, vul_no as int, lst@, other@, n as int) == if sac_found {
                first0
            } else {
                n as int
            },
            sac_found ==> downs[first0] == min_sac(
                t,
                side as int,
                lst@[first0].no as int,
                lst@[first0].dno as int,
                dealer as int,
                other@,
            ),
        decreases num_cand - n,
    {
        proof {
            lemma_candidate(t, side as int, vp, lst@, n as int, dm);
        }
        let no = lst[n].no;
        let dno = lst[n].dno;
        let target = DOWN_TARGET[no as usize][vul_no as usize];
        let (row, down) = best_sacrifice(res_table, side, no, dno, dealer, &other);
        proof {
            lemma_min_sac(t, side as int, no as int, dno as int, dealer as int, other@, row, down as int);
        }
        if down <= target {
            if down > best_down {
                best_down = down;
            }
            if sac_found {
                kind[n] = -1;
            } else {
                sac_found = true;
                kind[n] = 0;
                downs[n] = down;
                proof {
                    first0 = n as int;
                }
            }
        } else {
            if lst[n].score > best_plus {
                best_plus = lst[n].score;
            }
            kind[n] = 1;
            sac_gap[n] = target - down;
        }
        n += 1;
    }
    let mut res_no: usize = 0;
    let vul_def = vul_by_side[1 - sd];
    let sac = DOUBLED_SCORES[vul_def as usize][best_down as usize];
    let ghost texts = par_texts(t, side as int, dealer as int, vul_no as int, vo, lst@, other@, num_cand as int);
    let score: i32;
    if !sac_found || best_plus > sac {
        score = if side == 0 { best_plus } else { -best_plus };
        proof {
            assert(texts == plus_texts(t, side as int, dealer as int, vul_no as int, lst@, other@, best_plus as int, num_cand as int));
        }
        let mut n: usize = 0;
        while n < num_cand
            invariant
                n <= num_cand <= 5,
                res_no <= n,
                t == *res_table,
                0 <= side < 2,
                0 <= dealer < 4,
                0 <= vul_no < 4,
                dm >= 1,
                table_wf(t),
                desc_perm(lst@, entries(t, side as int, vp)),
                0 <= vp < 2,
                forall|i: int| 0 <= i < 5 ==> (i < num_cand <==> (#[trigger] lst@[i]).no >= dm),
                forall|k: int|
                    0 <= k < num_cand && kind[k] == 1 ==> -BIGNUM <= #[trigger] sac_gap[k] <= -1,
                forall|k: int|
                    0 <= k < num_cand ==> (#[trigger] kind[k] == 1 <==> min_sac(
                        t,
                        side as int,
                        lst@[k].no as int,
                        lst@[k].dno as int,
                        dealer as int,
                        other@,
                    ) > DOWN_TARGET[lst@[k].no as int][vul_no as int]),
                forall|k: int|
                    0 <= k < num_cand && kind[k] == 1 ==> #[trigger] sac_gap[k] == DOWN_TARGET[lst@[k].no as int][vul_no as int]
                        - min_sac(t, side as int, lst@[k].no as int, lst@[k].dno as int, dealer as int, other@),
                res_no == plus_texts(t, side as int, dealer as int, vul_no as int, lst@, other@, best_plus as int, n as int).len(),
                forall|k: int| 0 <= k < res_no ==> (#[trigger] contracts[k])@ == padded(
                    plus_texts(t, side as int, dealer as int, vul_no as int, lst@, other@, best_plus as int, n as int)[k]),
                forall|k: int| 0 <= k < res_no ==> text_slot(#[trigger] contracts[k]),
                forall|k: int| res_no <= k < 10 ==> (#[trigger] contracts[k])@ == padded(Seq::empty()),
            decreases num_cand - n,
        {
            let ghost texts0 = plus_texts(t, side as int, dealer as int, vul_no as int, lst@, other@, best_plus as int, n as int);
            if kind[n] == 1 && lst[n].score == best_plus {
                proof {
                    lemma_candidate(t, side as int, vp, lst@, n as int, dm);
                }
                let (no, plus) = reduce_contract(lst[n].no, sac_gap[n]);
                let text = contract_as_text(res_table, side, no, lst[n].dno, plus);
                let buf = text_buffer(&text);
                proof {
                    assert(text@.len() <= 9 && buf@ == padded(text@));
                }
                let ghost c0 = contracts;
                contracts[res_no] = buf;
                proof {
                    lemma_slots_push(c0, contracts, 0, res_no as int, texts0, text@);
                    assert(plus_texts(t, side as int, dealer as int, vul_no as int, lst@, other@, best_plus as int, n + 1)
                        == texts0.push(text@));
                }
                res_no += 1;
            } else {
                assert(plus_texts(t, side as int, dealer as int, vul_no as int, lst@, other@, best_plus as int, n + 1)
                    == texts0);
            }
            n += 1;
        }
    } else {
        score = if side == 0 { sac } else { -sac };
        let ghost fp = lst@[first0];
        proof {
            assert(first0 == first_paying(t, side as int, dealer as int, vul_no as int, lst@, other@, num_cand as int));
            if downs[first0] == best_down {
                assert(texts == sac_texts(t, side as int, dealer as int, best_down as int, fp.no as int, fp.dno as int, other@, 5));
            } else {
                assert(texts == Seq::<Seq<u8>>::empty());
            }
        }
        let mut n: usize = 0;
        while n < num_cand
            invariant
                n <= num_cand <= 5,
                t == *res_table,
                table_wf(t),
                0 <= side < 2,
                0 <= dealer < 4,
                dm >= 1,
                0 <= vp < 2,
                0 <= best_down <= 8,
                desc_perm(lst@, entries(t, side as int, vp)),
                forall|i: int| 0 <= i < 5 ==> (i < num_cand <==> (#[trigger] lst@[i]).no >= dm),
                other@ == entries(t, 1 - side, vo),
                forall|e: int| 0 <= e < 5 ==> -34 <= #[trigger] other@[e].no <= 35,
                forall|k: int| 0 <= k < num_cand && kind[k] == 0 ==> k == first0,
                0 <= first0 < num_cand,
                kind[first0] == 0,
                fp == lst@[first0],
                downs[first0] == best_down ==> texts == sac_texts(t, side as int, dealer as int, best_down as int,
                    fp.no as int, fp.dno as int, other@, 5),
                downs[first0] != best_down ==> texts.len() == 0,
                n <= first0 ==> res_no == 0,
                n > first0 ==> res_no == texts.len() && forall|k: int| 0 <= k < res_no ==> (#[trigger] contracts[k])@
                    == padded(texts[k]),
                res_no <= 5,
                forall|k: int| 0 <= k < res_no ==> text_slot(#[trigger] contracts[k]),
                forall|k: int| res_no <= k < 10 ==> (#[trigger] contracts[k])@ == padded(Seq::empty()),
            decreases num_cand - n,
        {
            if kind[n] == 0 && downs[n] == best_down {
                proof {
                    lemma_candidate(t, side as int, vp, lst@, n as int, dm);
                    assert forall|e: int| 0 <= e < 5 implies #[trigger] other@[e].no == side_no(
                        t,
                        1 - side,
                        e,
                    ) by {
                        lemma_side_bounds(t, 1 - side, e);
                    }
                }
                let (row, _down) = best_sacrifice(res_table, side, lst[n].no, lst[n].dno, dealer, &other);
                sacrifices_as_text(
                    res_table,
                    side,
                    dealer,
                    best_down,
                    lst[n].no,
                    lst[n].dno,
                    &other,
                    row,
                    &mut contracts,
                    &mut res_no,
                );
            }
            n += 1;
        }
    }
    let r = ParResultsDealer { number: res_no as i32, score, contracts };
    proof {
        assert(desc_perm(lst@, entries(t, side as int, vp)));
        assert(num_cand == 5 - count_below(lst@, dm, 5)) by {
            lemma_count_below_sorted(lst@, dm);
            lemma_count_below_bounds(lst@, dm);
            if num_cand < 5 - count_below(lst@, dm, 5) {
                assert(lst@[num_cand as int].no >= dm);
            } else if num_cand > 5 - count_below(lst@, dm, 5) {
                let j = 5 - count_below(lst@, dm, 5);
                assert(!(lst@[j].no >= dm));
            }
        }
        assert(par_lines(t, side as int, dealer as int, vp, vo, lst@, r));
    }
    r
}

/// The cheapest sacrifice found by [`best_sacrifice`] is [`min_sac`].
proof fn lemma_min_sac(
    t: [[i32; 4]; 5],
    side: int,
    no: int,
    dno: int,
    dealer: int,
    other: Seq<ListType>,
    row: [i32; 5],
    m: int,
)
    requires
        forall|e: int|
            0 <= e < 5 ==> #[trigger] row[e] == sac_down(t, side, no, dno, dealer, other[e].no as int, e),
        m <= BIGNUM,
        forall|e: int| 0 <= e < 5 ==> m <= #[trigger] row[e],
        m == BIGNUM || exists|e: int| 0 <= e < 5 && m == #[trigger] row[e],
    ensures
        m == min_sac(t, side, no, dno, dealer, other),
{
    reveal(min_sac);
    assert(row[0] == sac_down(t, side, no, dno, dealer, other[0].no as int, 0));
    assert(row[1] == sac_down(t, side, no, dno, dealer, other[1].no as int, 1));
    assert(row[2] == sac_down(t, side, no, dno, dealer, other[2].no as int, 2));
    assert(row[3] == sac_down(t, side, no, dno, dealer, other[3].no as int, 3));
    assert(row[4] == sac_down(t, side, no, dno, dealer, other[4].no as int, 4));
    if m != BIGNUM {
        let w = choose|e: int| 0 <= e < 5 && m == #[trigger] row[e];
        assert(w == 0 || w == 1 || w == 2 || w == 3 || w == 4);
    }
}

proof fn lemma_count_below_bounds(l: Seq<ListType>, m: int)
    ensures
        0 <= count_below(l, m, 5) <= 5,
{
    reveal_with_fuel(count_below, 6);
}

} // verus!
