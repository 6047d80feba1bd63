//! Par score and par contracts of a deal.
//!
//! Two engines are offered. [`calculate_par`] runs the dealer-aware text
//! engine of [`crate::dealer_par`] and reads its strings back at fixed
//! offsets; [`calculate_pars`] runs the side-by-side search for the best
//! contract of each pair, once with North-South and once with East-West
//! bidding first. Both take the trick table of the deal.
//!
//! Internally a contract is described by numbers: the strain ("denom") is
//! 0 notrump, 1 spades, 2 hearts, 3 diamonds, 4 clubs; the seats are 0 to 3
//! for North to West, 4 for North-South and 5 for East-West.
use vstd::prelude::*;
use crate::bridge::{seat_index, strain_index, Bid, Contract, Level, Penalty, Seat, Strain, Vulnerability};
use crate::dealer_par::{dealer_par, par_outcome, pass_text, passed_out, table_wf, ParResultsDealer, DOUBLED_SCORES, SCORES};
use crate::bridge::seat_of;
use crate::tricks::TrickCountTable;

verus! {

/// A par contract and who declares it.
#[derive(Debug, Clone, Copy, PartialEq, Eq, Structural)]
pub struct ParContract {
    /// The contract.
    pub contract: Contract,
    /// The declarer of the contract.
    pub declarer: Seat,
    /// The number of overtricks (negative for undertricks).
    pub overtricks: i8,
}

/// A par score and the contracts that reach it.
#[derive(Debug, Clone, PartialEq, Eq)]
pub struct Par {
    /// The par score, from North-South's point of view for
    /// [`calculate_par`] and from the side that starts the bidding for
    /// [`calculate_pars`].
    pub score: i32,
    /// The contracts that achieve the par score.
    pub contracts: Vec<ParContract>,
}

/// The number `4 * strain + seat` that [`Par::equivalent`] compares.
pub open spec fn strain_seat(c: ParContract) -> int {
    (4 * strain_index(c.contract.bid.strain) + seat_index(c.declarer)) as int
}

/// Whether some contract of `cs` has strain and declarer number `b`.
pub open spec fn has_strain_seat(cs: Seq<ParContract>, b: int) -> bool {
    exists|i: int| 0 <= i < cs.len() && #[trigger] strain_seat(cs[i]) == b
}

/// Which strain-and-declarer numbers occur among `contracts`.
fn strain_seats(contracts: &Vec<ParContract>) -> (k: [bool; 20])
    ensures
        forall|b: int| 0 <= b < 20 ==> #[trigger] k[b] == has_strain_seat(contracts@, b),
{
    let mut k = [false; 20];
    let mut i: usize = 0;
    while i < contracts.len()
        invariant
            i <= contracts@.len(),
            forall|b: int| 0 <= b < 20 ==> #[trigger] k[b] == exists|j: int| 0 <= j < i && #[trigger] strain_seat(contracts@[j]) == b,
        decreases contracts@.len() - i,
    {
        let c = contracts[i];
        let b = 4 * c.contract.bid.strain.index() + c.declarer.index();
        k[b] = true;
        proof {
            assert forall|b2: int| 0 <= b2 < 20 implies #[trigger] k[b2] == exists|j: int| 0 <= j < i + 1 && #[trigger] strain_seat(contracts@[j]) == b2 by {
                if b2 == b {
                    assert(strain_seat(contracts@[i as int]) == b2);
                } else {
                    if exists|j: int| 0 <= j < i + 1 && #[trigger] strain_seat(contracts@[j]) == b2 {
                        let j = choose|j: int| 0 <= j < i + 1 && #[trigger] strain_seat(contracts@[j]) == b2;
                        assert(j != i);
                    }
                }
            }
        }
        i += 1;
    }
    proof {
        assert forall|b: int| 0 <= b < 20 implies #[trigger] k[b] == has_strain_seat(contracts@, b) by {
        }
    }
    k
}

impl Par {
    /// Whether two pars are equivalent: the same score and the same set
    /// of (strain, declarer) pairs, whatever the overtricks, doubling,
    /// order or repetitions of the contracts.
    pub fn equivalent(&self, other: &Par) -> (r: bool)
        ensures
            r == pars_equivalent(*self, *other),
    {
        let a = strain_seats(&self.contracts);
        let b = strain_seats(&other.contracts);
        if self.score != other.score {
            return false;
        }
        let mut i: usize = 0;
        while i < 20
            invariant
                i <= 20,
                forall|x: int| 0 <= x < 20 ==> #[trigger] a[x] == has_strain_seat(self.contracts@, x),
                forall|x: int| 0 <= x < 20 ==> #[trigger] b[x] == has_strain_seat(other.contracts@, x),
                forall|x: int| 0 <= x < i ==> #[trigger] a[x] == b[x],
            decreases 20 - i,
        {
            if a[i] != b[i] {
                assert(has_strain_seat(self.contracts@, i as int) != has_strain_seat(other.contracts@, i as int));
                return false;
            }
            i += 1;
        }
        assert forall|x: int| 0 <= x < 20 implies has_strain_seat(self.contracts@, x) == has_strain_seat(other.contracts@, x) by {
            assert(a[x] == b[x]);
        }
        true
    }
}

/// Whether two pars are equivalent, as [`Par::equivalent`] decides.
pub open spec fn pars_equivalent(a: Par, b: Par) -> bool {
    a.score == b.score && forall|x: int| 0 <= x < 20 ==> has_strain_seat(a.contracts@, x) == has_strain_seat(
        b.contracts@,
        x,
    )
}

/// Equivalence of pars is an equivalence relation: every par is
/// equivalent to itself, and equivalence is symmetric and transitive.
pub proof fn lemma_equivalence(a: Par, b: Par, c: Par)
    ensures
        pars_equivalent(a, a),
        pars_equivalent(a, b) ==> pars_equivalent(b, a),
        pars_equivalent(a, b) && pars_equivalent(b, c) ==> pars_equivalent(a, c),
{
}

/// The score of a par contract. `denom` 0..=4 (notrump, spades, hearts,
/// diamonds, clubs) scores an undoubled contract making `tricks` tricks;
/// `denom == -1` scores `tricks` undertricks doubled.
pub open spec fn raw_score(denom: int, tricks: int, vul: bool) -> int {
    if denom == -1 {
        if vul {
            -300 * tricks + 100
        } else if tricks <= 3 {
            -200 * tricks + 100
        } else {
            -300 * tricks + 400
        }
    } else {
        let level = tricks - 6;
        let trick_score = if denom == 0 {
            10 + 30 * level
        } else if denom == 1 || denom == 2 {
            30 * level
        } else {
            20 * level
        };
        let game = if denom == 0 {
            level >= 3
        } else if denom == 1 || denom == 2 {
            level >= 4
        } else {
            level >= 5
        };
        let bonus = if game {
            if vul {
                500int
            } else {
                300int
            }
        } else {
            50int
        };
        let slam = if level == 6 {
            if vul {
                750int
            } else {
                500int
            }
        } else if level == 7 {
            if vul {
                1500int
            } else {
                1000int
            }
        } else {
            0int
        };
        trick_score + bonus + slam
    }
}

/// A making contract scores what the dealer engine's table of contract
/// scores gives for it (`SCORES`, whose strains run clubs to notrump), for
/// every strain, level and vulnerability.
pub proof fn law_raw_score_matches_scores(denom: int, tricks: int, vul: bool)
    requires
        0 <= denom <= 4,
        7 <= tricks <= 13,
    ensures
        raw_score(denom, tricks, vul) == SCORES[5 * (tricks - 7) + (4 - denom) + 1][if vul {
            1int
        } else {
            0int
        }],
{
    assert(denom == 0 || denom == 1 || denom == 2 || denom == 3 || denom == 4);
    assert(tricks == 7 || tricks == 8 || tricks == 9 || tricks == 10 || tricks == 11 || tricks == 12 || tricks == 13);
}

/// Doubled undertricks score minus what the dealer engine's table of
/// doubled penalties (`DOUBLED_SCORES`) gives for them.
pub proof fn law_raw_score_matches_penalties(tricks: int, vul: bool)
    requires
        1 <= tricks <= 13,
    ensures
        raw_score(-1, tricks, vul) == -DOUBLED_SCORES[if vul {
            1int
        } else {
            0int
        }][tricks],
{
    assert(tricks == 1 || tricks == 2 || tricks == 3 || tricks == 4 || tricks == 5 || tricks == 6 || tricks == 7
        || tricks == 8 || tricks == 9 || tricks == 10 || tricks == 11 || tricks == 12 || tricks == 13);
}

/// Being vulnerable adds 450 to a small slam (200 more game bonus and 250
/// more slam bonus) and 700 to a grand slam (200 and 500).
pub proof fn law_raw_score_slam_vulnerability(denom: int, tricks: int)
    requires
        0 <= denom <= 4,
        12 <= tricks <= 13,
    ensures
        raw_score(denom, tricks, true) - raw_score(denom, tricks, false) == if tricks == 12 {
            450int
        } else {
            700int
        },
{
}

/// The score of an undoubled making contract or of doubled undertricks,
/// as [`raw_score`] says (`isvul` non-zero when vulnerable).
fn rawscore(denom: i32, tricks: i32, isvul: i32) -> (r: i32)
    requires
        -1 <= denom <= 4,
        -20 <= tricks <= 20,
    ensures
        r == raw_score(denom as int, tricks as int, isvul != 0),
        denom >= 0 && tricks >= 7 ==> r > 0,
        denom == -1 && tricks >= 1 ==> r < 0,
        -6100 <= r <= 6100,
{
    if denom == -1 {
        if isvul != 0 {
            return 100 - 300 * tricks;
        }
        if tricks <= 3 {
            return 100 - 200 * tricks;
        }
        return 400 - 300 * tricks;
    }
    let level: i32 = tricks - 6;
    let mut game_bonus: i32 = 0;
    let mut score: i32;
    if denom == 0 {
        score = 10 + 30 * level;
        if level >= 3 {
            game_bonus = 1;
        }
    } else if denom == 1 || denom == 2 {
        score = 30 * level;
        if level >= 4 {
            game_bonus = 1;
        }
    } else {
        score = 20 * level;
        if level >= 5 {
            game_bonus = 1;
        }
    }
    if game_bonus != 0 {
        score += if isvul != 0 { 500 } else { 300 };
    } else {
        score += 50;
    }
    if level == 6 {
        score += if isvul != 0 { 750 } else { 500 };
    } else if level == 7 {
        score += if isvul != 0 { 1500 } else { 1000 };
    }
    score
}

/// The seats of a par contract: `t1` and `t2` are the tricks of the two
/// players of the declaring pair, North-South when `dr + i` is odd. The
/// pair (4 or 5) when both take as many, else the player who takes more.
pub open spec fn seats_for(dr: int, i: int, t1: int, t2: int) -> int {
    if (dr + i) % 2 != 0 {
        if t1 == t2 {
            4
        } else if t1 > t2 {
            0
        } else {
            2
        }
    } else if t1 == t2 {
        5
    } else if t1 > t2 {
        1
    } else {
        3
    }
}

/// The seats of a par contract, as [`seats_for`] says.
fn side_seats(dr: i32, i: usize, t1: i32, t2: i32) -> (r: i32)
    requires
        0 <= dr <= 1,
        i <= 1,
    ensures
        r == seats_for(dr as int, i as int, t1 as int, t2 as int),
        0 <= r <= 5,
{
    if (dr + i as i32) % 2 != 0 {
        if t1 == t2 {
            4
        } else if t1 > t2 {
            0
        } else {
            2
        }
    } else if t1 == t2 {
        5
    } else if t1 > t2 {
        1
    } else {
        3
    }
}

/// The overtricks of a par contract of `tricks` tricks that may be bid
/// up to `max_lower` levels lower: as many as the level allows (three
/// from the fourth or fifth level up, two from the third, one from the
/// second, none below).
pub open spec fn over_tricks_for(max_lower: int, tricks: int) -> int {
    let level = tricks - 6;
    let cap = if level == 4 || level == 5 {
        3int
    } else if level == 3 {
        2int
    } else if level == 2 {
        1int
    } else {
        0int
    };
    if max_lower <= 0 {
        0
    } else if max_lower <= cap {
        max_lower
    } else {
        0
    }
}

/// The overtricks of a par contract, as [`over_tricks_for`] says.
fn calc_over_tricks(max_lower: i32, tricks: i32) -> (r: i32)
    requires
        -20 <= tricks <= 20,
    ensures
        r == over_tricks_for(max_lower as int, tricks as int),
        0 <= r <= 3,
{
    let level: i32 = tricks - 6;
    if level == 5 || level == 4 {
        if max_lower == 3 {
            3
        } else if max_lower == 2 {
            2
        } else if max_lower == 1 {
            1
        } else {
            0
        }
    } else if level == 3 {
        if max_lower == 2 {
            2
        } else if max_lower == 1 {
            1
        } else {
            0
        }
    } else if level == 2 {
        if max_lower == 1 {
            1
        } else {
            0
        }
    } else {
        0
    }
}

/// The vulnerability (0 or 1) of the side defending the par contract;
/// `side` is non-zero when North-South declares it.
pub open spec fn def_side_vul(side: int, vulnerable: int) -> int {
    if vulnerable == 0 {
        0
    } else if vulnerable == 1 {
        1
    } else if side != 0 {
        if vulnerable == 2 {
            0
        } else {
            1
        }
    } else if vulnerable == 3 {
        0
    } else {
        1
    }
}

/// The vulnerability of the defending side, as [`def_side_vul`] says.
fn vulner_def_side(side: i32, vulnerable: i32) -> (r: i32)
    ensures
        r == def_side_vul(side as int, vulnerable as int),
{
    if vulnerable == 0 {
        0
    } else if vulnerable == 1 {
        1
    } else if side != 0 {
        if vulnerable == 2 {
            0
        } else {
            1
        }
    } else if vulnerable == 3 {
        0
    } else {
        1
    }
}

/// One par contract in numbers.
#[derive(Debug, Clone, Copy)]
pub struct ContractType {
    /// 0 for a make, else the undertricks of a sacrifice.
    pub under_tricks: i32,
    /// The overtricks, 0..=3.
    pub over_tricks: i32,
    /// The level, 1..=7 (0 only in the passed-out result).
    pub level: i32,
    /// 0 notrump, 1 spades, 2 hearts, 3 diamonds, 4 clubs.
    pub denom: i32,
    /// 0..=3 for North..West, 4 North-South, 5 East-West.
    pub seats: i32,
}

impl ContractType {
    /// The all-zero contract of a passed-out deal.
    fn zero() -> (r: ContractType)
        ensures
            r == (ContractType { under_tricks: 0, over_tricks: 0, level: 0, denom: 0, seats: 0 }),
    {
        ContractType { under_tricks: 0, over_tricks: 0, level: 0, denom: 0, seats: 0 }
    }
}

/// A par result in numbers: the score and up to ten contracts.
#[derive(Debug, Clone, Copy)]
pub struct ParResultsMaster {
    pub score: i32,
    pub number: i32,
    pub contracts: [ContractType; 10],
}

/// A contract of a side's par result, as [`sides_par_bin`] writes it.
pub open spec fn contract_ok(c: ContractType) -> bool {
    &&& 0 <= c.denom <= 4
    &&& 1 <= c.level
    &&& 0 <= c.over_tricks <= 3
    &&& c.level + c.over_tricks <= 7
    &&& 0 <= c.under_tricks <= 14
    &&& 0 <= c.seats <= 5
}

/// A side's par result: at most five contracts, each well formed.
pub open spec fn master_ok(r: ParResultsMaster) -> bool {
    &&& 0 <= r.number <= 5
    &&& forall|m: int| 0 <= m < r.number ==> contract_ok(#[trigger] r.contracts[m])
}

/// The passed-out result: one all-zero contract.
pub open spec fn master_zero(r: ParResultsMaster) -> bool {
    &&& r.number == 1
    &&& r.contracts[0] == ContractType { under_tricks: 0, over_tricks: 0, level: 0, denom: 0, seats: 0 }
}

/// Par strain order (notrump, spades, hearts, diamonds, clubs) to the row
/// of the trick table (spades, hearts, diamonds, clubs, notrump).
pub const DENOM_CONV: [usize; 5] = [4, 0, 1, 2, 3];

/// The most tricks that pair `k` (0 North-South, 1 East-West) takes in
/// par strain `j`.
pub open spec fn pair_tricks(t: [[i32; 4]; 5], k: int, j: int) -> int {
    let row = t[DENOM_CONV[j] as int];
    if row[k] > row[k + 2] {
        row[k] as int
    } else {
        row[k + 2] as int
    }
}

/// Whether pair `k` makes a contract in some strain.
pub open spec fn can_make(t: [[i32; 4]; 5], k: int) -> bool {
    exists|j: int| 0 <= j < 5 && #[trigger] pair_tricks(t, k, j) >= 7
}

/// A score seen from pair `x` is not negative when the other pair makes
/// nothing, and not positive when pair `x` makes nothing.
pub open spec fn signs_ok(t: [[i32; 4]; 5], x: int, score: int) -> bool {
    &&& !can_make(t, 1 - x) ==> score >= 0
    &&& !can_make(t, x) ==> score <= 0
}

/// A deal is passed out exactly when neither pair makes a contract.
proof fn lemma_passed_out_pairs(t: [[i32; 4]; 5])
    ensures
        passed_out(t) <==> !can_make(t, 0) && !can_make(t, 1),
{
    if passed_out(t) {
        assert forall|k: int, j: int| 0 <= k < 2 && 0 <= j < 5 implies #[trigger] pair_tricks(t, k, j) <= 6 by {
            assert(DENOM_CONV[j] < 5);
            assert(t[DENOM_CONV[j] as int][k] <= 6 && t[DENOM_CONV[j] as int][k + 2] <= 6);
        }
    }
    if !can_make(t, 0) && !can_make(t, 1) {
        assert forall|d: int, q: int| 0 <= d < 5 && 0 <= q < 4 implies #[trigger] t[d][q] <= 6 by {
            let j = if d == 4 {
                0int
            } else {
                d + 1
            };
            assert(DENOM_CONV[j] == d);
            assert(pair_tricks(t, q % 2, j) <= 6);
        }
    }
}

/// The lowest game level of `kind`: 3 for notrump, 4 for a major, 5 for
/// a minor.
pub open spec fn game_level(kind: int) -> int {
    if kind == 0 {
        3
    } else if kind == 1 {
        4
    } else {
        5
    }
}

/// How many levels a making contract of `level` may be bid lower and keep
/// its bonus: down to level 1 below game, down to game level from game up
/// to five, none for a slam.
pub open spec fn levels_lower(kind: int, level: int) -> int {
    if level < game_level(kind) {
        level - 1
    } else if level < 6 {
        level - game_level(kind)
    } else {
        0
    }
}

/// How many levels a making contract of `level` may be bid lower and
/// keep its game or slam bonus: `kind` 0 notrump, 1 major, 2 minor.
fn max_low(kind: usize, level: i32) -> (r: i32)
    requires
        kind < 3,
        1 <= level <= 7,
    ensures
        0 <= r <= level - 1,
        r == levels_lower(kind as int, level as int),
{
    if kind == 0 {
        if level == 2 || level == 4 {
            1
        } else if level == 5 {
            2
        } else {
            0
        }
    } else if kind == 1 {
        if level == 2 || level == 5 {
            1
        } else if level == 3 {
            2
        } else {
            0
        }
    } else {
        if level == 2 {
            1
        } else if level == 3 {
            2
        } else if level == 4 {
            3
        } else {
            0
        }
    }
}

/// A strain being tried: its number, the side's tricks and the score.
#[derive(Debug, Clone, Copy)]
struct ParSuitsType {
    suit: i32,
    tricks: i32,
    score: i32,
}

/// A par contract found for a side: strain and tricks bid.
#[derive(Debug, Clone, Copy)]
struct BestParType {
    par_denom: i32,
    par_tricks: i32,
}

/// The height of a bid of `tricks` tricks in strain `denom` (-1 below
/// every strain), for comparing bids.
spec fn bid_value(tricks: int, denom: int) -> int {
    6 * tricks + 4 - denom
}

/// A strain entry with its strain number and tricks in range.
spec fn suit_ok(p: ParSuitsType) -> bool {
    &&& 0 <= p.suit <= 4
    &&& 0 <= p.tricks <= 13
}

/// A found par contract with strain and tricks in range.
spec fn best_ok(b: BestParType) -> bool {
    &&& 0 <= b.par_denom <= 4
    &&& 7 <= b.par_tricks <= 13
}

/// The par results with North-South (index 0) and East-West (index 1)
/// starting the bidding; `vulnerable` 0 none, 1 both, 2 North-South,
/// 3 East-West.
///
/// For each side the contracts alternate: the current side looks for the
/// strain that improves its score most over the contract standing (by
/// bidding higher and making, or by a doubled sacrifice), until neither
/// side improves. Then the strain found is set aside and the search runs
/// again for other strains that reach the same score. Making contracts
/// are lowered as far as they keep their bonus and stay above the
/// opponents; contracts that the other side can outbid are dropped.
/// Both scores are 0 exactly when nobody can make a contract; a pair that
/// makes nothing never scores above 0, and its opponents never below 0.
#[verifier::rlimit(100)]
#[verifier::spinoff_prover]
fn sides_par_bin(res_table: &[[i32; 4]; 5], vulnerable: i32) -> (r: [ParResultsMaster; 2])
    requires
        table_wf(*res_table),
        0 <= vulnerable < 4,
    ensures
        r[0].score == 0 ==> master_zero(r[0]) && master_zero(r[1]),
        r[0].score != 0 ==> master_ok(r[0]) && master_ok(r[1]),
        passed_out(*res_table) ==> r[0].score == 0 && r[1].score == 0,
        !passed_out(*res_table) ==> r[0].score != 0 && r[1].score != 0,
        signs_ok(*res_table, 0, r[0].score as int),
        signs_ok(*res_table, 1, r[1].score as int),
        -6100 <= r[0].score <= 6100,
        -6100 <= r[1].score <= 6100,
{
    let zero_m = ParResultsMaster { score: 0, number: 0, contracts: [ContractType::zero(); 10] };
    let mut sides_res = [zero_m; 2];
    let mut denom_max: usize = 0;
    let mut denom_filter = [0i32; 5];
    let mut no_of_denom = [0usize; 2];
    let mut best_par_score = [0i32; 2];
    let mut best_par_sacut = [0i32; 2];
    let mut best_par = [[BestParType { par_denom: 0, par_tricks: 0 }; 2]; 5];
    let mut ut: i32 = 0;
    let mut t3 = [0i32; 5];
    let mut t4 = [0i32; 5];
    let mut par_suits = [ParSuitsType { suit: 0, tricks: 0, score: 0 }; 5];
    let mut par_denom = [-1i32; 2];
    let mut par_tricks = [6i32; 2];
    let mut par_score = [0i32; 2];
    let mut par_sacut = [0i32; 2];

    let mut i: usize = 0;
    while i < 2
        invariant
            i <= 2,
            table_wf(*res_table),
            0 <= vulnerable < 4,
            -13 <= ut <= 14,
            forall|e: int| 0 <= e < 5 ==> suit_ok(#[trigger] par_suits[e]),
            forall|x: int| i <= x < 2 ==> #[trigger] par_denom[x] == -1,
            forall|x: int| i <= x < 2 ==> #[trigger] par_tricks[x] == 6,
            forall|x: int| i <= x < 2 ==> #[trigger] par_score[x] == 0,
            forall|x: int| i <= x < 2 ==> #[trigger] par_sacut[x] == 0,
            forall|x: int| i <= x < 2 ==> #[trigger] no_of_denom[x] == 0,
            forall|x: int| 0 <= x < 2 ==> #[trigger] no_of_denom[x] <= 5,
            forall|x: int| 0 <= x < 2 ==> -6100 <= #[trigger] best_par_score[x] <= 6100,
            forall|x: int| 0 <= x < 2 ==> 0 <= #[trigger] best_par_sacut[x] <= 14,
            forall|x: int, y: int| 0 <= x < 2 && 0 <= y < no_of_denom[x] && y < 5 ==> best_ok(#[trigger] best_par[y][x]),
            passed_out(*res_table) ==> forall|x: int| 0 <= x < 2 ==> #[trigger] best_par_score[x] == 0,
            passed_out(*res_table) ==> forall|e: int| 0 <= e < 5 ==> (#[trigger] par_suits[e]).tricks <= 6,
            !passed_out(*res_table) ==> forall|x: int| 0 <= x < i ==> #[trigger] best_par_score[x] != 0,
            forall|x: int| 0 <= x < i ==> signs_ok(*res_table, x, #[trigger] best_par_score[x] as int),
            forall|x: int| i <= x < 2 ==> #[trigger] best_par_score[x] == 0,
        decreases 2 - i,
    {
        proof {
            lemma_passed_out_pairs(*res_table);
        }
        let mut no_filtered: usize = 0;
        denom_filter = [0i32; 5];
        let mut current_side: usize = 0;
        let mut both_sides_once_flag: i32 = 0;
        loop
            invariant
                i < 2,
                table_wf(*res_table),
                0 <= vulnerable < 4,
                -13 <= ut <= 14,
                forall|e: int| 0 <= e < 5 ==> suit_ok(#[trigger] par_suits[e]),
                forall|x: int| i < x < 2 ==> #[trigger] par_denom[x] == -1,
                forall|x: int| i < x < 2 ==> #[trigger] par_tricks[x] == 6,
                forall|x: int| i < x < 2 ==> #[trigger] par_score[x] == 0,
                forall|x: int| i < x < 2 ==> #[trigger] par_sacut[x] == 0,
                forall|x: int| i < x < 2 ==> #[trigger] no_of_denom[x] == 0,
                forall|x: int| 0 <= x < 2 ==> #[trigger] no_of_denom[x] <= 5,
                forall|x: int| 0 <= x < 2 ==> -6100 <= #[trigger] best_par_score[x] <= 6100,
                forall|x: int| 0 <= x < 2 ==> 0 <= #[trigger] best_par_sacut[x] <= 14,
                forall|x: int, y: int| 0 <= x < 2 && 0 <= y < no_of_denom[x] && y < 5 ==> best_ok(#[trigger] best_par[y][x]),
                no_filtered <= 5,
                no_of_denom[i as int] == no_filtered,
                no_filtered > 0 ==> best_par_score[i as int] != 0,
                current_side <= 1,
                0 <= both_sides_once_flag <= 1,
                6 <= par_tricks[i as int] <= 13,
                -1 <= par_denom[i as int] <= 4,
                par_denom[i as int] >= 0 ==> par_tricks[i as int] >= 7,
                par_denom[i as int] == -1 ==> par_tricks[i as int] == 6 && par_score[i as int] == 0,
                -6100 <= par_score[i as int] <= 6100,
                0 <= par_sacut[i as int] <= 14,
                passed_out(*res_table) ==> forall|x: int| 0 <= x < 2 ==> #[trigger] best_par_score[x] == 0,
                passed_out(*res_table) ==> forall|e: int| 0 <= e < 5 ==> (#[trigger] par_suits[e]).tricks <= 6,
                passed_out(*res_table) ==> no_filtered == 0 && par_denom[i as int] == -1,
                passed_out(*res_table) <==> !can_make(*res_table, 0) && !can_make(*res_table, 1),
                !passed_out(*res_table) ==> forall|x: int| 0 <= x < i ==> #[trigger] best_par_score[x] != 0,
                par_score[i as int] == 0 ==> par_denom[i as int] == -1,
                no_filtered == 0 ==> forall|j2: int| 0 <= j2 < 5 ==> #[trigger] denom_filter[j2] == 0,
                !passed_out(*res_table) && no_filtered == 0 && par_score[i as int] == 0 ==> (both_sides_once_flag == 0
                    && current_side == 0) || (both_sides_once_flag == 1 && current_side == 1 && !can_make(
                    *res_table,
                    i as int,
                )),
                forall|x: int| 0 <= x < i ==> signs_ok(*res_table, x, #[trigger] best_par_score[x] as int),
                forall|x: int| i < x < 2 ==> #[trigger] best_par_score[x] == 0,
                signs_ok(*res_table, i as int, par_score[i as int] as int),
                signs_ok(*res_table, i as int, best_par_score[i as int] as int),
            ensures
                !passed_out(*res_table) ==> best_par_score[i as int] != 0,
            decreases 5 - no_filtered, 83 - bid_value(par_tricks[i as int] as int, par_denom[i as int] as int),
                1 - both_sides_once_flag,
        {
            let k = (i + current_side) % 2;
            let isvul: i32 = if vulnerable == 1 || (if k != 0 {
                vulnerable == 3
            } else {
                vulnerable == 2
            }) {
                1
            } else {
                0
            };
            let mut new_score_flag: i32 = 0;
            let prev_par_denom = par_denom[i];
            let prev_par_tricks = par_tricks[i];
            let ghost start_score = par_score[i as int];

            // The tricks and score of each strain still open.
            let mut n: usize = 0;
            let mut j: usize = 0;
            while j <= 4
                invariant
                    n <= j <= 5,
                    i < 2,
                    k < 2,
                    table_wf(*res_table),
                    6 <= par_tricks[i as int] <= 13,
                    -1 <= par_denom[i as int] <= 4,
                    6 <= prev_par_tricks <= 13,
                    forall|e: int| 0 <= e < 5 ==> suit_ok(#[trigger] par_suits[e]),
                    passed_out(*res_table) ==> forall|e: int| 0 <= e < 5 ==> (#[trigger] par_suits[e]).tricks <= 6,
                    !can_make(*res_table, k as int) ==> forall|e: int| 0 <= e < n ==> (#[trigger] par_suits[e]).tricks <= 6,
                    (exists|e: int| 0 <= e < n && (#[trigger] par_suits[e]).tricks >= 7) || (forall|j2: int|
                        0 <= j2 < j && denom_filter[j2] == 0 ==> #[trigger] pair_tricks(*res_table, k as int, j2) <= 6),
                decreases 5 - j,
            {
                if denom_filter[j] == 0 {
                    let row = DENOM_CONV[j];
                    assert(row < 5);
                    let t1 = if k != 0 {
                        res_table[row][1]
                    } else {
                        res_table[row][0]
                    };
                    let t2 = if k != 0 {
                        res_table[row][3]
                    } else {
                        res_table[row][2]
                    };
                    let tt = if t1 > t2 {
                        t1
                    } else {
                        t2
                    };
                    let sc = if tt > par_tricks[i] || (tt == par_tricks[i] && (j as i32) < par_denom[i]) {
                        rawscore(j as i32, tt, isvul)
                    } else {
                        rawscore(-1, prev_par_tricks - tt, isvul)
                    };
                    let ghost old_ps = par_suits;
                    par_suits[n] = ParSuitsType { suit: j as i32, tricks: tt, score: sc };
                    proof {
                        assert(tt == pair_tricks(*res_table, k as int, j as int));
                        if tt >= 7 {
                            assert(par_suits[n as int].tricks >= 7);
                        } else if exists|e: int| 0 <= e < n && (#[trigger] old_ps[e]).tricks >= 7 {
                            let w = choose|e: int| 0 <= e < n && (#[trigger] old_ps[e]).tricks >= 7;
                            assert(par_suits[w].tricks >= 7);
                        }
                    }
                    n += 1;
                }
                j += 1;
            }

            let ghost has7 = exists|e: int| 0 <= e < n && (#[trigger] par_suits[e]).tricks >= 7;
            proof {
                if no_filtered == 0 && can_make(*res_table, k as int) {
                    let jw = choose|jw: int| 0 <= jw < 5 && #[trigger] pair_tricks(*res_table, k as int, jw) >= 7;
                    assert(denom_filter[jw] == 0);
                    assert(has7);
                }
            }
            // Sort them by decreasing score.
            let mut s: usize = 1;
            while s < n
                invariant
                    n <= 5,
                    1 <= s,
                    forall|e: int| 0 <= e < 5 ==> suit_ok(#[trigger] par_suits[e]),
                    passed_out(*res_table) ==> forall|e: int| 0 <= e < 5 ==> (#[trigger] par_suits[e]).tricks <= 6,
                    has7 ==> exists|e: int| 0 <= e < n && (#[trigger] par_suits[e]).tricks >= 7,
                    !can_make(*res_table, k as int) ==> forall|e: int| 0 <= e < n ==> (#[trigger] par_suits[e]).tricks <= 6,
                decreases n - s,
            {
                let tmp = par_suits[s];
                let mut r: usize = s;
                proof {
                    if has7 {
                        let w = choose|e: int| 0 <= e < n && (#[trigger] par_suits[e]).tricks >= 7;
                        if w != s {
                            assert(par_suits[w].tricks >= 7);
                        }
                    }
                }
                while r != 0 && tmp.score > par_suits[r - 1].score
                    invariant
                        r <= s < n <= 5,
                        suit_ok(tmp),
                        forall|e: int| 0 <= e < 5 ==> suit_ok(#[trigger] par_suits[e]),
                        passed_out(*res_table) ==> tmp.tricks <= 6,
                        passed_out(*res_table) ==> forall|e: int| 0 <= e < 5 ==> (#[trigger] par_suits[e]).tricks <= 6,
                        r == s ==> par_suits[r as int] == tmp,
                        !can_make(*res_table, k as int) ==> tmp.tricks <= 6,
                        !can_make(*res_table, k as int) ==> forall|e: int| 0 <= e < n ==> (#[trigger] par_suits[e]).tricks <= 6,
                        r < s ==> par_suits[r as int] == par_suits[r + 1],
                        has7 ==> tmp.tricks >= 7 || exists|e: int| 0 <= e < n && e != r && (#[trigger] par_suits[e]).tricks >= 7,
                    decreases r,
                {
                    let ghost old_ps = par_suits;
                    par_suits[r] = par_suits[r - 1];
                    proof {
                        if has7 && !(tmp.tricks >= 7) {
                            let w = choose|e: int| 0 <= e < n && e != r && (#[trigger] old_ps[e]).tricks >= 7;
                            if w == r - 1 {
                                assert(par_suits[r as int].tricks >= 7);
                            } else {
                                assert(par_suits[w].tricks >= 7);
                            }
                        }
                    }
                    r -= 1;
                }
                let ghost old_ps = par_suits;
                par_suits[r] = tmp;
                proof {
                    if has7 {
                        if tmp.tricks >= 7 {
                            assert(par_suits[r as int].tricks >= 7);
                        } else {
                            let w = choose|e: int| 0 <= e < n && e != r && (#[trigger] old_ps[e]).tricks >= 7;
                            assert(par_suits[w].tricks >= 7);
                        }
                    }
                }
                s += 1;
            }

            // Try them in that order.
            let mut idx: usize = 0;
            while idx < n
                invariant
                    idx <= n <= 5,
                    i < 2,
                    current_side <= 1,
                    -13 <= ut <= 14,
                    forall|e: int| 0 <= e < 5 ==> suit_ok(#[trigger] par_suits[e]),
                    6 <= prev_par_tricks <= 13,
                    -1 <= prev_par_denom <= 4,
                    prev_par_denom >= 0 ==> prev_par_tricks >= 7,
                    prev_par_denom == -1 ==> prev_par_tricks == 6,
                    6 <= par_tricks[i as int] <= 13,
                    -1 <= par_denom[i as int] <= 4,
                    par_denom[i as int] >= 0 ==> par_tricks[i as int] >= 7,
                    par_denom[i as int] == -1 ==> par_tricks[i as int] == 6 && par_score[i as int] == 0,
                    -6100 <= par_score[i as int] <= 6100,
                    0 <= par_sacut[i as int] <= 14,
                    0 <= new_score_flag <= 1,
                    new_score_flag == 0 ==> par_tricks[i as int] == prev_par_tricks && par_denom[i as int]
                        == prev_par_denom,
                    bid_value(par_tricks[i as int] as int, par_denom[i as int] as int) >= bid_value(
                        prev_par_tricks as int,
                        prev_par_denom as int,
                    ),
                    new_score_flag == 1 ==> bid_value(par_tricks[i as int] as int, par_denom[i as int] as int)
                        > bid_value(prev_par_tricks as int, prev_par_denom as int),
                    forall|x: int| i < x < 2 ==> #[trigger] par_denom[x] == -1,
                    forall|x: int| i < x < 2 ==> #[trigger] par_tricks[x] == 6,
                    forall|x: int| i < x < 2 ==> #[trigger] par_score[x] == 0,
                    forall|x: int| i < x < 2 ==> #[trigger] par_sacut[x] == 0,
                    passed_out(*res_table) ==> forall|e: int| 0 <= e < 5 ==> (#[trigger] par_suits[e]).tricks <= 6,
                    passed_out(*res_table) ==> new_score_flag == 0 && prev_par_denom == -1,
                    par_score[i as int] == 0 ==> par_denom[i as int] == -1,
                    start_score == 0 ==> prev_par_denom == -1,
                    par_score[i as int] == 0 ==> forall|e: int| 0 <= e < idx ==> (#[trigger] par_suits[e]).tricks <= 6,
                    start_score != 0 ==> par_score[i as int] != 0,
                    par_score[i as int] != start_score ==> new_score_flag == 1,
                    has7 ==> exists|e: int| 0 <= e < n && (#[trigger] par_suits[e]).tricks >= 7,
                    k == (i + current_side) % 2,
                    !can_make(*res_table, k as int) ==> forall|e: int| 0 <= e < n ==> (#[trigger] par_suits[e]).tricks <= 6,
                    signs_ok(*res_table, i as int, par_score[i as int] as int),
                decreases n - idx,
            {
                let j = par_suits[idx].suit;
                let tt = par_suits[idx].tricks;
                idx += 1;
                let mut score: i32;
                let making = tt > par_tricks[i] || (tt == par_tricks[i] && j < par_denom[i]);
                if making {
                    // Bid higher and make.
                    score = rawscore(j, tt, isvul);
                } else {
                    // A sacrifice, one level higher in a lower strain.
                    ut = prev_par_tricks - tt;
                    if j >= prev_par_denom {
                        if prev_par_tricks == 13 {
                            continue;
                        }
                        ut += 1;
                    }
                    if ut <= 0 {
                        continue;
                    }
                    score = rawscore(-1, ut, isvul);
                }
                if current_side == 1 {
                    score = -score;
                }
                if (current_side == 0 && score > par_score[i]) || (current_side == 1 && score
                    < par_score[i]) {
                    new_score_flag = 1;
                    par_score[i] = score;
                    par_denom[i] = j;
                    if (current_side == 0 && score > 0) || (current_side == 1 && score < 0) {
                        par_tricks[i] = tt;
                        par_sacut[i] = 0;
                    } else {
                        par_tricks[i] = tt + ut;
                        par_sacut[i] = ut;
                    }
                }
            }

            if new_score_flag == 0 && both_sides_once_flag != 0 {
                // Neither side improves: a par contract is found.
                if no_filtered == 0 {
                    best_par_score[i] = par_score[i];
                    if best_par_score[i] == 0 {
                        break;
                    }
                    best_par_sacut[i] = par_sacut[i];
                    no_of_denom[i] = 0;
                } else if best_par_score[i] != par_score[i] {
                    break;
                }
                if no_filtered >= 5 {
                    break;
                }
                denom_filter[par_denom[i] as usize] = 1;
                no_filtered += 1;
                let mut row = best_par[no_of_denom[i]];
                row[i] = BestParType { par_denom: par_denom[i], par_tricks: par_tricks[i] };
                best_par[no_of_denom[i]] = row;
                no_of_denom[i] += 1;
                both_sides_once_flag = 0;
                current_side = 0;
                par_denom[i] = -1;
                par_tricks[i] = 6;
                par_score[i] = 0;
                par_sacut[i] = 0;
            } else {
                both_sides_once_flag = 1;
                current_side = 1 - current_side;
            }
        }
        i += 1;
    }

    sides_res[0].score = best_par_score[0];
    sides_res[1].score = best_par_score[1];
    proof {
        if !passed_out(*res_table) {
            assert(best_par_score[0] != 0);
            assert(best_par_score[1] != 0);
        }
    }

    if best_par_score[0] == 0 {
        // Neither side can make anything.
        sides_res[0].contracts[0] = ContractType::zero();
        sides_res[0].number = 1;
        sides_res[1].contracts[0] = ContractType::zero();
        sides_res[1].number = 1;
        return sides_res;
    }
    let def_vul = vulner_def_side(if best_par_score[0] > 0 {
        1
    } else {
        0
    }, vulnerable);

    let mut i: usize = 0;
    while i < 2
        invariant
            i <= 2,
            table_wf(*res_table),
            forall|x: int| 0 <= x < 2 ==> #[trigger] no_of_denom[x] <= 5,
            forall|x: int| 0 <= x < 2 ==> -6100 <= #[trigger] best_par_score[x] <= 6100,
            forall|x: int| 0 <= x < 2 ==> 0 <= #[trigger] best_par_sacut[x] <= 14,
            forall|x: int, y: int| 0 <= x < 2 && 0 <= y < no_of_denom[x] && y < 5 ==> best_ok(#[trigger] best_par[y][x]),
            forall|x: int| 0 <= x < i ==> master_ok(#[trigger] sides_res[x]),
            forall|x: int| 0 <= x < 2 ==> #[trigger] sides_res[x].score == best_par_score[x],
            !passed_out(*res_table) ==> best_par_score[0] != 0 && best_par_score[1] != 0,
            signs_ok(*res_table, 0, best_par_score[0] as int),
            signs_ok(*res_table, 1, best_par_score[1] as int),
            denom_max < 5,
        decreases 2 - i,
    {
        let nd = no_of_denom[i];
        sides_res[i].number = nd as i32;
        sides_res[i].score = best_par_score[i];
        if best_par_sacut[i] > 0 {
            // Sacrifice.
            let dr: i32 = if best_par_score[i] <= 0 {
                1
            } else {
                0
            };
            let mut s: usize = 1;
            while s < nd
                invariant
                    i < 2,
                    nd == no_of_denom[i as int],
                    nd <= 5,
                    1 <= s,
                    forall|x: int, y: int| 0 <= x < 2 && 0 <= y < no_of_denom[x] && y < 5 ==> best_ok(
                        #[trigger] best_par[y][x],
                    ),
                decreases nd - s,
            {
                let tmp = best_par[s][i];
                let mut r: usize = s;
                while r != 0 && tmp.par_denom < best_par[r - 1][i].par_denom
                    invariant
                        i < 2,
                        r <= s < nd,
                        nd == no_of_denom[i as int],
                        nd <= 5,
                        best_ok(tmp),
                        forall|x: int, y: int| 0 <= x < 2 && 0 <= y < no_of_denom[x] && y < 5 ==> best_ok(
                            #[trigger] best_par[y][x],
                        ),
                    decreases r,
                {
                    let moved = best_par[r - 1][i];
                    let mut row = best_par[r];
                    row[i] = moved;
                    best_par[r] = row;
                    r -= 1;
                }
                let mut row = best_par[r];
                row[i] = tmp;
                best_par[r] = row;
                s += 1;
            }
            let mut m: usize = 0;
            while m < nd
                invariant
                    i < 2,
                    m <= nd,
                    nd == no_of_denom[i as int],
                    nd <= 5,
                    1 <= best_par_sacut[i as int] <= 14,
                    0 <= dr <= 1,
                    table_wf(*res_table),
                    sides_res[i as int].number == nd,
                    forall|x: int, y: int| 0 <= x < 2 && 0 <= y < no_of_denom[x] && y < 5 ==> best_ok(
                        #[trigger] best_par[y][x],
                    ),
                    forall|y: int| 0 <= y < m ==> contract_ok(#[trigger] sides_res[i as int].contracts[y]),
                    forall|x: int| 0 <= x < i ==> master_ok(#[trigger] sides_res[x]),
                    forall|x: int| 0 <= x < 2 ==> #[trigger] sides_res[x].score == best_par_score[x],
                decreases nd - m,
            {
                let j = best_par[m][i].par_denom;
                let row = DENOM_CONV[j as usize];
                let t1 = if (dr + i as i32) % 2 != 0 {
                    res_table[row][0]
                } else {
                    res_table[row][1]
                };
                let t2 = if (dr + i as i32) % 2 != 0 {
                    res_table[row][2]
                } else {
                    res_table[row][3]
                };
                let seats = side_seats(dr, i, t1, t2);
                sides_res[i].contracts[m] = ContractType {
                    under_tricks: best_par_sacut[i],
                    over_tricks: 0,
                    level: best_par[m][i].par_tricks - 6,
                    denom: j,
                    seats,
                };
                m += 1;
            }
        } else {
            // A making contract.
            let dr: i32 = if best_par_score[i] >= 0 {
                1
            } else {
                0
            };
            let mut tu_max: i32 = 0;
            let mut mm: usize = 0;
            while mm <= 4
                invariant
                    i < 2,
                    mm <= 5,
                    0 <= dr <= 1,
                    table_wf(*res_table),
                    0 <= tu_max <= 13,
                    denom_max < 5,
                    forall|e: int| 0 <= e < mm ==> 0 <= #[trigger] t3[e] <= 13,
                    forall|e: int| 0 <= e < mm ==> 0 <= #[trigger] t4[e] <= 13,
                decreases 5 - mm,
            {
                let row = DENOM_CONV[mm];
                let a = if (dr + i as i32) % 2 == 0 {
                    res_table[row][0]
                } else {
                    res_table[row][1]
                };
                let b = if (dr + i as i32) % 2 == 0 {
                    res_table[row][2]
                } else {
                    res_table[row][3]
                };
                assert(0 <= res_table[row as int][0] <= 13 && 0 <= res_table[row as int][1] <= 13);
                assert(0 <= res_table[row as int][2] <= 13 && 0 <= res_table[row as int][3] <= 13);
                t3[mm] = a;
                t4[mm] = b;
                assert(0 <= t3[mm as int] <= 13 && 0 <= t4[mm as int] <= 13);
                let tu = if t3[mm] > t4[mm] {
                    t3[mm]
                } else {
                    t4[mm]
                };
                if tu > tu_max {
                    tu_max = tu;
                    denom_max = mm;
                }
                mm += 1;
            }
            let sc2: i32 = if best_par_score[i] >= 0 {
                best_par_score[i]
            } else {
                -best_par_score[i]
            };
            let mut m: usize = 0;
            while m < nd
                invariant
                    i < 2,
                    m <= nd,
                    nd == no_of_denom[i as int],
                    nd <= 5,
                    0 <= dr <= 1,
                    table_wf(*res_table),
                    0 <= tu_max <= 13,
                    denom_max < 5,
                    0 <= sc2 <= 6100,
                    forall|e: int| 0 <= e < 5 ==> 0 <= #[trigger] t3[e] <= 13,
                    forall|e: int| 0 <= e < 5 ==> 0 <= #[trigger] t4[e] <= 13,
                    sides_res[i as int].number == nd,
                    forall|x: int, y: int| 0 <= x < 2 && 0 <= y < no_of_denom[x] && y < 5 ==> best_ok(
                        #[trigger] best_par[y][x],
                    ),
                    forall|y: int| 0 <= y < m ==> contract_ok(#[trigger] sides_res[i as int].contracts[y]),
                    forall|x: int| 0 <= x < i ==> master_ok(#[trigger] sides_res[x]),
                    forall|x: int| 0 <= x < 2 ==> #[trigger] sides_res[x].score == best_par_score[x],
                decreases nd - m,
            {
                let j = best_par[m][i].par_denom;
                let ju = j as usize;
                let row = DENOM_CONV[ju];
                let t1 = if (dr + i as i32) % 2 != 0 {
                    res_table[row][0]
                } else {
                    res_table[row][1]
                };
                let t2 = if (dr + i as i32) % 2 != 0 {
                    res_table[row][2]
                } else {
                    res_table[row][3]
                };
                let seats = side_seats(dr, i, t1, t2);
                let pt = best_par[m][i].par_tricks;
                let mut max_lower: i32 = if (denom_max as i32) < j {
                    pt - tu_max - 1
                } else {
                    pt - tu_max
                };
                // Lower the contract while the opponents' cheapest save
                // still costs them more than the par score.
                while max_lower > 0
                    invariant
                        max_lower <= 13,
                        7 <= pt <= 13,
                        0 <= tu_max <= 13,
                    decreases max_lower,
                {
                    let sc1 = if (denom_max as i32) < j {
                        -rawscore(-1, pt - max_lower - tu_max, def_vul)
                    } else {
                        -rawscore(-1, pt - max_lower - tu_max + 1, def_vul)
                    };
                    if sc2 < sc1 {
                        break;
                    }
                    max_lower -= 1;
                }
                let opp_tricks = if t3[ju] > t4[ju] {
                    t3[ju]
                } else {
                    t4[ju]
                };
                while max_lower > 0
                    invariant
                        i < 2,
                        max_lower <= 13,
                        7 <= pt <= 13,
                        0 <= opp_tricks <= 13,
                    decreases max_lower,
                {
                    let sc3 = -rawscore(-1, pt - max_lower - opp_tricks, def_vul);
                    if sc2 > sc3 && best_par_score[i] < 0 {
                        max_lower -= 1;
                    } else {
                        break;
                    }
                }
                let kind: usize = if j == 0 {
                    0
                } else if j <= 2 {
                    1
                } else {
                    2
                };
                let low = max_low(kind, pt - 6);
                if low < max_lower {
                    max_lower = low;
                }
                let over = calc_over_tricks(max_lower, pt);
                sides_res[i].contracts[m] = ContractType {
                    under_tricks: 0,
                    over_tricks: over,
                    level: pt - 6 - over,
                    denom: j,
                    seats,
                };
                m += 1;
            }
        }
        i += 1;
    }

    // Drop the par contracts that the other side can outbid.
    let mut dom_denom = [-1i32; 2];
    let mut dom_level = [-1i32; 2];
    let mut i: usize = 0;
    while i < 2
        invariant
            i <= 2,
            forall|x: int| 0 <= x < 2 ==> master_ok(#[trigger] sides_res[x]),
            forall|x: int| 0 <= x < 2 ==> -6100 <= #[trigger] sides_res[x].score <= 6100,
            sides_res[0].score != 0,
        decreases 2 - i,
    {
        let o: usize = if i == 0 {
            1
        } else {
            0
        };
        let nb = sides_res[o].number as usize;
        let mut k: usize = 0;
        while k < nb
            invariant
                i < 2,
                o < 2,
                k <= nb,
                nb == sides_res[o as int].number,
                master_ok(sides_res[o as int]),
            decreases nb - k,
        {
            let c = sides_res[o].contracts[k];
            let ss = c.level + c.over_tricks;
            if (ss > dom_level[o] || (ss == dom_level[o] && c.denom < dom_denom[o])) && ((i == 0
                && c.seats % 2 != 0) || (i == 1 && c.seats % 2 == 0)) {
                dom_denom[o] = c.denom;
                dom_level[o] = ss;
            }
            k += 1;
        }
        i += 1;
    }
    if dom_denom[0] != -1 && dom_denom[1] != -1 {
        let mut denom_to_remove = [[0i32; 5]; 2];
        let mut i: usize = 0;
        while i < 2
            invariant
                i <= 2,
                forall|x: int| 0 <= x < 2 ==> master_ok(#[trigger] sides_res[x]),
                forall|x: int| 0 <= x < 2 ==> -6100 <= #[trigger] sides_res[x].score <= 6100,
                sides_res[0].score != 0,
                sides_res[1].score != 0,
                signs_ok(*res_table, 0, sides_res[0].score as int),
                signs_ok(*res_table, 1, sides_res[1].score as int),
            decreases 2 - i,
        {
            let o: usize = if i == 0 {
                1
            } else {
                0
            };
            let nb = sides_res[i].number as usize;
            let mut k: usize = 0;
            while k < nb
                invariant
                    i < 2,
                    o < 2,
                    k <= nb,
                    nb == sides_res[i as int].number,
                    master_ok(sides_res[i as int]),
                decreases nb - k,
            {
                let c = sides_res[i].contracts[k];
                let lv = c.level + c.over_tricks;
                if lv < dom_level[o] || (lv == dom_level[o] && dom_denom[o] < c.denom) {
                    denom_to_remove[i][c.denom as usize] = 1;
                }
                k += 1;
            }
            let mut kept: usize = 0;
            let mut k: usize = 0;
            while k < nb
                invariant
                    i < 2,
                    kept <= k <= nb,
                    nb == sides_res[i as int].number,
                    master_ok(sides_res[i as int]),
                    forall|x: int| 0 <= x < 2 ==> master_ok(#[trigger] sides_res[x]),
                    forall|x: int| 0 <= x < 2 ==> -6100 <= #[trigger] sides_res[x].score <= 6100,
                    sides_res[0].score != 0,
                    sides_res[1].score != 0,
                    signs_ok(*res_table, 0, sides_res[0].score as int),
                    signs_ok(*res_table, 1, sides_res[1].score as int),
                decreases nb - k,
            {
                let c = sides_res[i].contracts[k];
                if denom_to_remove[i][c.denom as usize] != 1 {
                    sides_res[i].contracts[kept] = c;
                    kept += 1;
                }
                k += 1;
            }
            sides_res[i].number = kept as i32;
            i += 1;
        }
    }
    sides_res
}

/// The number of bytes before the first NUL of `s` from position `i` on
/// (the end of the C string), `s.len()` when there is none.
pub open spec fn nul_from(s: Seq<u8>, i: int) -> int
    decreases s.len() - i,
{
    if i >= s.len() {
        s.len() as int
    } else if s[i] == 0 {
        i
    } else {
        nul_from(s, i + 1)
    }
}

/// The C string held in a NUL-padded buffer: the bytes before the first NUL.
pub open spec fn c_text(b: [u8; 10]) -> Seq<u8> {
    b@.take(nul_from(b@, 0))
}

/// Whether `t` holds the two bytes `x`, `y` next to each other.
pub open spec fn has_pair(t: Seq<u8>, x: u8, y: u8) -> bool {
    exists|p: int| 0 <= p && p + 1 < t.len() && #[trigger] t[p] == x && t[p + 1] == y
}

/// The length of the C string in `buf`.
fn c_len(buf: &[u8; 10]) -> (n: usize)
    ensures
        n == nul_from(buf@, 0),
        n <= 10,
{
    let mut i: usize = 0;
    while i < 10 && buf[i] != 0
        invariant
            i <= 10,
            nul_from(buf@, 0) == nul_from(buf@, i as int),
        decreases 10 - i,
    {
        i += 1;
    }
    i
}

/// Whether the C string in `buf` holds `x` followed by `y` (a search for
/// a two-byte needle).
fn contains_pair(buf: &[u8; 10], x: u8, y: u8) -> (r: bool)
    ensures
        r == has_pair(c_text(*buf), x, y),
{
    let n = c_len(buf);
    let ghost t = c_text(*buf);
    assert(t.len() == n);
    let mut p: usize = 0;
    while p + 1 < n
        invariant
            n <= 10,
            p <= 10,
            t == buf@.take(n as int),
            t == c_text(*buf),
            t.len() == n,
            forall|q: int| 0 <= q < p && q + 1 < n ==> !(#[trigger] t[q] == x && t[q + 1] == y),
        decreases n - p,
    {
        if buf[p] == x && buf[p + 1] == y {
            assert(t[p as int] == x && t[p as int + 1] == y);
            return true;
        }
        p += 1;
    }
    false
}

/// Whether the C string in `buf` holds the byte `ch`.
fn contains_byte(buf: &[u8; 10], ch: u8) -> (r: bool)
    ensures
        r == c_text(*buf).contains(ch),
{
    let n = c_len(buf);
    let ghost t = c_text(*buf);
    let mut p: usize = 0;
    while p < n
        invariant
            n <= 10,
            t == buf@.take(n as int),
            t == c_text(*buf),
            t.len() == n,
            forall|q: int| 0 <= q < p ==> #[trigger] t[q] != ch,
        decreases n - p,
    {
        if buf[p] == ch {
            assert(t[p as int] == ch);
            return true;
        }
        p += 1;
    }
    false
}

/// The par strain number of a strain letter (`N`, `S`, `H`, `D`, `C`),
/// -1 for any other byte.
pub open spec fn letter_denom(c: u8) -> int {
    if c == 78 {
        0
    } else if c == 83 {
        1
    } else if c == 72 {
        2
    } else if c == 68 {
        3
    } else if c == 67 {
        4
    } else {
        -1
    }
}

/// The strain number of a strain letter, as [`letter_denom`] says.
fn denom_of_letter(c: u8) -> (r: i32)
    ensures
        r == letter_denom(c),
{
    if c == 78 {
        0
    } else if c == 83 {
        1
    } else if c == 72 {
        2
    } else if c == 68 {
        3
    } else if c == 67 {
        4
    } else {
        -1
    }
}

/// The seats (as in [`ContractType`]) named in a contract text, and
/// whether the text has a pair rather than one seat before its
/// under- or overtricks.
pub open spec fn text_seats(t: Seq<u8>) -> (int, int) {
    if has_pair(t, 78, 83) {
        (4, 1)
    } else if has_pair(t, 69, 87) {
        (5, 1)
    } else if has_pair(t, 45, 78) {
        (0, 0)
    } else if has_pair(t, 45, 69) {
        (1, 0)
    } else if has_pair(t, 45, 83) {
        (2, 0)
    } else if has_pair(t, 45, 87) {
        (3, 0)
    } else {
        (0, 1)
    }
}

/// A contract text of the dealer engine read at its fixed offsets: the
/// level digit, the strain letter, the seats, and either the undertricks
/// digit of a sacrifice (`starred`: the first text of the result carries
/// the sacrifice marker) or the overtricks digit after a `+`.
pub open spec fn parse_contract(b: [u8; 10], starred: bool) -> ContractType {
    let t = c_text(b);
    let (seats, delta) = text_seats(t);
    ContractType {
        level: (b[0] - 48) as i32,
        denom: letter_denom(b[1]) as i32,
        seats: seats as i32,
        under_tricks: if starred {
            (b[6 + delta] - 48) as i32
        } else {
            0
        },
        over_tricks: if starred {
            0
        } else if t.contains(43u8) {
            (b[5 + delta] - 48) as i32
        } else {
            0
        },
    }
}

/// Read a contract text, as [`parse_contract`] says.
fn contract_from_text(b: &[u8; 10], starred: bool) -> (r: ContractType)
    ensures
        r == parse_contract(*b, starred),
{
    let mut seats: i32 = 0;
    let mut delta: usize = 1;
    if contains_pair(b, 78, 83) {
        seats = 4;
    } else if contains_pair(b, 69, 87) {
        seats = 5;
    } else if contains_pair(b, 45, 78) {
        seats = 0;
        delta = 0;
    } else if contains_pair(b, 45, 69) {
        seats = 1;
        delta = 0;
    } else if contains_pair(b, 45, 83) {
        seats = 2;
        delta = 0;
    } else if contains_pair(b, 45, 87) {
        seats = 3;
        delta = 0;
    }
    let level = b[0] as i32 - 48;
    let denom = denom_of_letter(b[1]);
    if starred {
        ContractType {
            under_tricks: b[6 + delta] as i32 - 48,
            over_tricks: 0,
            level,
            denom,
            seats,
        }
    } else {
        let over = if contains_byte(b, 43) {
            b[5 + delta] as i32 - 48
        } else {
            0
        };
        ContractType { under_tricks: 0, over_tricks: over, level, denom, seats }
    }
}

/// Whether the first text of the dealer engine's result carries the
/// sacrifice marker `*` at its third byte.
pub open spec fn starred(d: ParResultsDealer) -> bool {
    d.contracts[0][2] == 42
}

/// What [`dealer_par`] promises of its result `d` for the trick table `t`.
pub open spec fn dealer_par_result(t: [[i32; 4]; 5], dealer: int, vulnerable: int, d: ParResultsDealer) -> bool {
    &&& passed_out(t) ==> d.number == 1 && d.score == 0 && pass_text(d.contracts[0])
    &&& !passed_out(t) ==> par_outcome(t, dealer, vulnerable, d)
}

/// The all-zero contract.
pub open spec fn zero_contract() -> ContractType {
    ContractType { under_tricks: 0, over_tricks: 0, level: 0, denom: 0, seats: 0 }
}

/// Whether `c` is one of the texts of `d` read by [`parse_contract`].
pub open spec fn read_from(d: ParResultsDealer, c: ContractType) -> bool {
    exists|k: int| 0 <= k < d.number && c == #[trigger] parse_contract(d.contracts[k], starred(d))
}

/// The key a contract is sorted by: its strain number, 0 when its strain
/// letter was not recognised.
pub open spec fn strain_key(c: ContractType) -> int {
    if c.denom >= 0 {
        c.denom as int
    } else {
        0
    }
}

/// The texts of `d`, read by [`parse_contract`], in their order.
pub open spec fn parsed_texts(d: ParResultsDealer) -> Seq<ContractType> {
    Seq::new(d.number as nat, |k: int| parse_contract(d.contracts[k], starred(d)))
}

/// The binary result read from the text result `d`: a passed-out deal
/// (the first text starts with `p`) gives one zero contract and score 0;
/// otherwise the score and number are copied and the contracts are the
/// texts read by [`parse_contract`], reordered by [`strain_key`] (notrump
/// first), the rest zero.
pub open spec fn bin_of(d: ParResultsDealer, r: ParResultsMaster) -> bool {
    if d.contracts[0][0] == 112 {
        &&& r.number == 1
        &&& r.score == 0
        &&& forall|m: int| 0 <= m < 10 ==> #[trigger] r.contracts[m] == zero_contract()
    } else {
        &&& r.score == d.score
        &&& r.number == d.number
        &&& r.contracts@.subrange(0, d.number as int).to_multiset() == parsed_texts(d).to_multiset()
        &&& forall|a: int, b: int|
            0 <= a < b < d.number ==> strain_key(r.contracts[a]) <= strain_key(r.contracts[b])
        &&& forall|m: int| 0 <= m < d.number ==> read_from(d, #[trigger] r.contracts[m])
        &&& forall|m: int| d.number <= m < 10 ==> #[trigger] r.contracts[m] == zero_contract()
    }
}

/// The key a contract is sorted by, as [`strain_key`] says.
fn sort_key(c: &ContractType) -> (r: i32)
    ensures
        r == strain_key(*c),
{
    if c.denom >= 0 {
        c.denom
    } else {
        0
    }
}

/// Run the dealer engine and read its texts back in binary form, sorted
/// by strain (notrump first). The strings are read at fixed offsets; a
/// result counts as a sacrifice when its first text carries the marker.
fn dealer_par_bin(res_table: &[[i32; 4]; 5], dealer: i32, vulnerable: i32) -> (presp: ParResultsMaster)
    requires
        table_wf(*res_table),
        0 <= dealer < 4,
        0 <= vulnerable < 4,
    ensures
        exists|d: ParResultsDealer| dealer_par_result(*res_table, dealer as int, vulnerable as int, d)
            && bin_of(d, presp),
{
    let d = dealer_par(res_table, dealer, vulnerable);
    let zero = ContractType::zero();
    let mut presp = ParResultsMaster { score: 0, number: 0, contracts: [zero; 10] };
    proof {
        assert(dealer_par_result(*res_table, dealer as int, vulnerable as int, d));
    }
    if d.contracts[0][0] == 112 {
        presp.number = 1;
        assert(forall|m: int| 0 <= m < 10 ==> #[trigger] presp.contracts[m] == zero_contract());
        assert(bin_of(d, presp));
        return presp;
    }
    let num = d.number as usize;
    assert(num <= 10);
    presp.score = d.score;
    presp.number = d.number;
    let star = d.contracts[0][2] == 42;
    let mut k: usize = 0;
    while k < num
        invariant
            num <= 10,
            num == d.number,
            k <= num,
            presp.score == d.score,
            presp.number == d.number,
            star == starred(d),
            forall|m: int| 0 <= m < k ==> #[trigger] presp.contracts[m] == parse_contract(d.contracts[m], star),
            forall|m: int| k <= m < 10 ==> #[trigger] presp.contracts[m] == zero_contract(),
        decreases num - k,
    {
        presp.contracts[k] = contract_from_text(&d.contracts[k], star);
        k += 1;
    }
    assert(presp.contracts@.subrange(0, num as int) =~= parsed_texts(d));
    let mut s: usize = 1;
    while s < num
        invariant
            num <= 10,
            num == d.number,
            1 <= s,
            presp.score == d.score,
            presp.number == d.number,
            presp.contracts@.subrange(0, num as int).to_multiset() == parsed_texts(d).to_multiset(),
            forall|a: int, b: int|
                0 <= a < b < s && b < num ==> strain_key(presp.contracts[a]) <= strain_key(presp.contracts[b]),
            forall|m: int| num <= m < 10 ==> #[trigger] presp.contracts[m] == zero_contract(),
        decreases num - s,
    {
        let mut r: usize = s;
        while r != 0 && sort_key(&presp.contracts[r]) < sort_key(&presp.contracts[r - 1])
            invariant
                num <= 10,
                num == d.number,
                r <= s < num,
                presp.score == d.score,
                presp.number == d.number,
                presp.contracts@.subrange(0, num as int).to_multiset() == parsed_texts(d).to_multiset(),
                forall|a: int, b: int|
                    0 <= a < b <= s && a != r && b != r ==> strain_key(presp.contracts[a]) <= strain_key(
                        presp.contracts[b],
                    ),
                forall|b: int| r < b <= s ==> strain_key(presp.contracts[r as int]) < strain_key(presp.contracts[b]),
                forall|m: int| num <= m < 10 ==> #[trigger] presp.contracts[m] == zero_contract(),
            decreases r,
        {
            let x = presp.contracts[r];
            let y = presp.contracts[r - 1];
            let ghost sub = presp.contracts@.subrange(0, num as int);
            proof {
                crate::network::lemma_swap_multiset(sub, r as int, (r - 1) as int);
            }
            presp.contracts[r] = y;
            presp.contracts[r - 1] = x;
            assert(presp.contracts@.subrange(0, num as int) =~= sub.update(r as int, sub[r - 1]).update(
                r - 1,
                sub[r as int],
            ));
            r -= 1;
        }
        s += 1;
    }
    proof {
        broadcast use vstd::seq_lib::group_to_multiset_ensures;

        let sub = presp.contracts@.subrange(0, num as int);
        assert forall|x: int| 0 <= x < d.number implies read_from(d, #[trigger] presp.contracts[x]) by {
            assert(sub[x] == presp.contracts[x]);
            assert(sub.to_multiset().count(sub[x]) > 0);
            assert(parsed_texts(d).contains(sub[x]));
            let q = choose|q: int| 0 <= q < parsed_texts(d).len() && parsed_texts(d)[q] == sub[x];
            assert(presp.contracts[x] == parse_contract(d.contracts[q], starred(d)));
        }
    }
    assert(bin_of(d, presp));
    presp
}

/// The strain of a par strain number (0 notrump, 1 spades, 2 hearts,
/// 3 diamonds, 4 clubs).
pub open spec fn strain_of_denom(d: int) -> Strain {
    if d == 0 {
        Strain::Notrump
    } else if d == 1 {
        Strain::Spades
    } else if d == 2 {
        Strain::Hearts
    } else if d == 3 {
        Strain::Diamonds
    } else {
        Strain::Clubs
    }
}

/// A binary contract that names a strain, a level and seats.
pub open spec fn contract_readable(c: ContractType) -> bool {
    &&& 0 <= c.denom <= 4
    &&& 1 <= c.level <= 7
    &&& 0 <= c.seats <= 5
}

/// The par contract of the binary contract `c` declared by `seat`:
/// doubled with negative overtricks when it has undertricks.
pub open spec fn par_contract_of(c: ContractType, seat: Seat) -> ParContract {
    ParContract {
        contract: Contract {
            bid: Bid { level: Level::of(c.level as u8), strain: strain_of_denom(c.denom as int) },
            penalty: if c.under_tricks > 0 {
                Penalty::Doubled
            } else {
                Penalty::Undoubled
            },
        },
        declarer: seat,
        overtricks: if c.under_tricks > 0 {
            (-c.under_tricks) as i8
        } else {
            c.over_tricks as i8
        },
    }
}

/// The par contracts of the binary contract `c`: one per declarer, both
/// players of a pair when it names a pair, none when it is not readable.
pub open spec fn expand(c: ContractType) -> Seq<ParContract> {
    if !contract_readable(c) {
        Seq::empty()
    } else if c.seats >= 4 {
        seq![par_contract_of(c, seat_of(c.seats as int)), par_contract_of(c, seat_of(c.seats + 2))]
    } else {
        seq![par_contract_of(c, seat_of(c.seats as int))]
    }
}

/// The par contracts of the first `n` binary contracts of `cs`, in order.
pub open spec fn expand_all(cs: Seq<ContractType>, n: int) -> Seq<ParContract>
    decreases n,
{
    if n <= 0 {
        Seq::empty()
    } else {
        expand_all(cs, n - 1) + expand(cs[n - 1])
    }
}

/// How many binary contracts of `r` are par contracts: none when the
/// first has level 0 (the passed-out result), else `r.number`.
pub open spec fn master_len(r: ParResultsMaster) -> int {
    if r.contracts[0].level != 0 {
        r.number as int
    } else {
        0
    }
}

/// The par of a binary result.
fn par_from_master(par: &ParResultsMaster) -> (r: Par)
    requires
        0 <= par.number <= 10,
        forall|m: int| 0 <= m < par.number ==> #[trigger] par.contracts[m].under_tricks > i32::MIN,
    ensures
        r.score == par.score,
        r.contracts@ == expand_all(par.contracts@, master_len(*par)),
{
    let len: usize = if par.contracts[0].level != 0 {
        par.number as usize
    } else {
        0
    };
    let mut contracts: Vec<ParContract> = Vec::new();
    let mut m: usize = 0;
    while m < len
        invariant
            m <= len <= 10,
            len == master_len(*par),
            len <= par.number,
            forall|x: int| 0 <= x < par.number ==> #[trigger] par.contracts[x].under_tricks > i32::MIN,
            contracts@ == expand_all(par.contracts@, m as int),
        decreases len - m,
    {
        let c = par.contracts[m];
        let ghost before = contracts@;
        if 0 <= c.denom && c.denom <= 4 && 1 <= c.level && c.level <= 7 && 0 <= c.seats && c.seats <= 5 {
            let strain = if c.denom == 0 {
                Strain::Notrump
            } else if c.denom == 1 {
                Strain::Spades
            } else if c.denom == 2 {
                Strain::Hearts
            } else if c.denom == 3 {
                Strain::Diamonds
            } else {
                Strain::Clubs
            };
            let (penalty, overtricks) = if c.under_tricks > 0 {
                (Penalty::Doubled, (-c.under_tricks) as i8)
            } else {
                (Penalty::Undoubled, c.over_tricks as i8)
            };
            let contract = Contract { bid: Bid { level: Level::new(c.level as u8), strain }, penalty };
            let seat = Seat::from_index((c.seats % 4) as usize);
            let first = ParContract { contract, declarer: seat, overtricks };
            assert(first == par_contract_of(c, seat_of(c.seats as int)));
            contracts.push(first);
            if c.seats >= 4 {
                let other = Seat::from_index(((c.seats % 4) as usize + 2) % 4);
                let second = ParContract { contract, declarer: other, overtricks };
                assert(second == par_contract_of(c, seat_of(c.seats + 2)));
                contracts.push(second);
                assert(contracts@ =~= before + expand(c));
            } else {
                assert(contracts@ =~= before + expand(c));
            }
        } else {
            assert(contracts@ =~= before + expand(c));
        }
        m += 1;
    }
    Par { score: par.score, contracts }
}

/// The row of the trick table for par table row `d` (spades, hearts,
/// diamonds, clubs, notrump).
pub open spec fn dds_row_strain(d: int) -> int {
    if d == 4 {
        4
    } else {
        3 - d
    }
}

/// `t` is the trick table `table` in the par engines' layout: rows
/// spades, hearts, diamonds, clubs, notrump; columns North to West.
pub open spec fn res_of(table: TrickCountTable, t: [[i32; 4]; 5]) -> bool {
    forall|d: int, s: int| 0 <= d < 5 && 0 <= s < 4 ==> #[trigger] t[d][s] == table.0[dds_row_strain(d)].count(
        s as nat,
    )
}

/// The trick table in the par engines' layout.
fn res_table_from(table: &TrickCountTable) -> (t: [[i32; 4]; 5])
    requires
        table.wf(),
    ensures
        res_of(*table, t),
        table_wf(t),
{
    let mut t = [[0i32; 4]; 5];
    let mut d: usize = 0;
    while d < 5
        invariant
            d <= 5,
            table.wf(),
            forall|d2: int, s: int| 0 <= d2 < d && 0 <= s < 4 ==> #[trigger] t[d2][s] == table.0[dds_row_strain(d2)].count(s as nat),
            forall|d2: int, s: int| 0 <= d2 < 5 && 0 <= s < 4 ==> 0 <= #[trigger] t[d2][s] <= 13,
        decreases 5 - d,
    {
        let strain: usize = if d == 4 {
            4
        } else {
            3 - d
        };
        let row = table.0[strain];
        assert(row.wf());
        let mut cells = [0i32; 4];
        let mut s: usize = 0;
        while s < 4
            invariant
                s <= 4,
                row.wf(),
                forall|s2: int| 0 <= s2 < s ==> #[trigger] cells[s2] == row.count(s2 as nat),
                forall|s2: int| 0 <= s2 < 4 ==> 0 <= #[trigger] cells[s2] <= 13,
            decreases 4 - s,
        {
            let seat = Seat::from_index(s);
            cells[s] = row.get(seat).get() as i32;
            s += 1;
        }
        t[d] = cells;
        d += 1;
    }
    t
}

/// The par score and contracts of a deal from its trick table, with
/// `dealer` opening the bidding. The score is from North-South's point of
/// view. The result is the dealer engine's, read back from its texts.
pub fn calculate_par(tricks: TrickCountTable, vul: Vulnerability, dealer: Seat) -> (r: Par)
    requires
        tricks.wf(),
    ensures
        exists|t: [[i32; 4]; 5], d: ParResultsDealer, presp: ParResultsMaster|
            res_of(tricks, t) && dealer_par_result(t, seat_index(dealer) as int, vul.dds_spec(), d)
                && bin_of(d, presp) && r.score == presp.score && r.contracts@ == expand_all(
                presp.contracts@,
                master_len(presp),
            ),
{
    let t = res_table_from(&tricks);
    let presp = dealer_par_bin(&t, dealer.index() as i32, vul.to_dds());
    proof {
        let d = choose|d: ParResultsDealer| dealer_par_result(t, seat_index(dealer) as int, vul.dds_spec(), d) && bin_of(d, presp);
        if d.contracts[0][0] != 112 {
            assert forall|m: int| 0 <= m < presp.number implies #[trigger] presp.contracts[m].under_tricks > i32::MIN by {
                assert(read_from(d, presp.contracts[m]));
            }
            if passed_out(t) {
            } else {
                assert(0 <= d.number <= 5);
            }
        }
    }
    let r = par_from_master(&presp);
    r
}

/// The par results of a deal from its trick table with North-South
/// (index 0) and East-West (index 1) opening the bidding; each score is
/// from the opening side's point of view. The two agree but on deals
/// where both sides can make something. A deal on which no seat takes
/// more than six tricks in any strain scores 0 with no contracts for both;
/// any other deal has a score other than 0 for both. When one pair makes
/// nothing, its opening score is at most 0 and the other pair's at least 0.
pub fn calculate_pars(tricks: TrickCountTable, vul: Vulnerability) -> (r: [Par; 2])
    requires
        tricks.wf(),
    ensures
        exists|t: [[i32; 4]; 5], sides: [ParResultsMaster; 2]|
            {
                &&& res_of(tricks, t)
                &&& passed_out(t) ==> sides[0].score == 0 && sides[1].score == 0
                &&& !passed_out(t) ==> sides[0].score != 0 && sides[1].score != 0
                &&& signs_ok(t, 0, sides[0].score as int)
                &&& signs_ok(t, 1, sides[1].score as int)
                &&& sides[0].score == 0 ==> master_zero(sides[0]) && master_zero(sides[1])
                &&& sides[0].score != 0 ==> master_ok(sides[0]) && master_ok(sides[1])
                &&& r[0].score == sides[0].score
                &&& r[1].score == sides[1].score
                &&& r[0].contracts@ == expand_all(sides[0].contracts@, master_len(sides[0]))
                &&& r[1].contracts@ == expand_all(sides[1].contracts@, master_len(sides[1]))
            },
        r[0].score == 0 ==> r[0].contracts@.len() == 0 && r[1].contracts@.len() == 0,
{
    let t = res_table_from(&tricks);
    let sides = sides_par_bin(&t, vul.to_dds());
    let p0 = par_from_master(&sides[0]);
    let p1 = par_from_master(&sides[1]);
    proof {
        if sides[0].score == 0 {
            assert(expand_all(sides[0].contracts@, 0) == Seq::<ParContract>::empty());
        }
    }
    [p0, p1]
}

} // verus!
