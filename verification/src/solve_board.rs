//! Solving a board card by card: the cards the seat on turn may play,
//! grouped by equal cards and scored by the tricks their side takes; at
//! the last trick every card is forced.
use vstd::prelude::*;
use crate::board::{Board, Target};
use crate::bridge::{seat_index, suit_index, Card, Holding};
use crate::convert::{cb_suit_from_dds, dds_suit_from_cb};
use crate::lookup::highest_rank;
use crate::move_type::MoveType;
use crate::play::{FoundPlays, Play};
use crate::pos::{pos_wf, Pos};
use crate::quick_tricks::highest_of;
use crate::tricks::TrickCount;
use crate::analyse::{board_hands, board_table, card_fault, hands_of, partial_cards, position_value, row_cards, total_cards, Replay};
use crate::board::Objective;
use crate::lookup::BIT_MAP_RANK;
use crate::search::Engine;
use crate::solver::lemma_search_bits;
use crate::tt::TransTable;
use crate::bits::popcount;

verus! {

/// The holding of seat `h` in the search's suit `s`, rank `r` at bit `r - 2`.
pub open spec fn board_bits(board: Board, h: int, s: int) -> u16 {
    board.spec_remaining().0[h].0[3 - s] >> 2u16
}

/// A pair of machine integers with the values of a pair of integers.
pub open spec fn pair_is(x: (i32, i32), y: (int, int)) -> bool {
    x.0 == y.0 && x.1 == y.1
}

/// The remaining cards of `board` as a position: hand by seat number,
/// suit by the search's number, rank `r` at bit `r - 2`; all else zero.
pub fn pos_from_board(board: &Board) -> (pos: Pos)
    ensures
        forall|h: int, s: int| 0 <= h < 4 && 0 <= s < 4 ==> #[trigger] pos.rank_in_suit[h][s] == board_bits(*board, h, s),
        pos.tricks_max == 0,
{
    let mut pos = Pos::zero();
    let remaining = board.remaining();
    let mut h: usize = 0;
    while h < 4
        invariant
            h <= 4,
            *remaining == board.spec_remaining(),
            pos.tricks_max == 0,
            forall|h2: int, s: int| 0 <= h2 < h && 0 <= s < 4 ==> #[trigger] pos.rank_in_suit[h2][s] == board_bits(*board, h2, s),
        decreases 4 - h,
    {
        let hand = remaining.0[h];
        let mut row = [0u16; 4];
        let mut s: usize = 0;
        while s < 4
            invariant
                s <= 4,
                h < 4,
                hand == board.spec_remaining().0[h as int],
                forall|s2: int| 0 <= s2 < s ==> #[trigger] row[s2] == board_bits(*board, h as int, s2),
            decreases 4 - s,
        {
            row[s] = hand.0[3 - s] >> 2;
            s += 1;
        }
        pos.rank_in_suit[h] = row;
        h += 1;
    }
    pos
}

/// The cards of the trick in progress as (search suit, rank) pairs, in
/// playing order.
pub fn table_of(board: &Board) -> (t: Vec<(i32, i32)>)
    ensures
        t@.len() == board.spec_trick().played().len(),
        forall|k: int| 0 <= k < t@.len() ==> pair_is(#[trigger] t@[k], (
            3 - suit_index(board.spec_trick().played()[k].suit),
            board.spec_trick().played()[k].rank as int,
        )),
{
    let cards = board.current_cards();
    let mut t: Vec<(i32, i32)> = Vec::new();
    let mut k: usize = 0;
    while k < cards.len()
        invariant
            k <= cards@.len(),
            cards@ == board.spec_trick().played(),
            t@.len() == k,
            forall|j: int| 0 <= j < k ==> pair_is(#[trigger] t@[j], (
                3 - suit_index(board.spec_trick().played()[j].suit),
                board.spec_trick().played()[j].rank as int,
            )),
        decreases cards@.len() - k,
    {
        let c = cards[k];
        t.push((dds_suit_from_cb(c.suit) as i32, c.rank as i32));
        k += 1;
    }
    t
}

/// The play of the move `mv` (search suit and rank) scoring `score`.
pub fn play_of(mv: &MoveType, score: i32) -> (p: Play)
    requires
        0 <= mv.suit < 4,
        0 <= mv.rank <= 255,
        0 <= mv.sequence < 8192,
        0 <= score <= 13,
    ensures
        suit_index(p.card.suit) == 3 - mv.suit,
        p.card.rank == mv.rank,
        p.equals.bits_spec() == ((mv.sequence * 4) as u16) & 0x7FFC,
        p.score.value() == score,
{
    Play {
        card: Card { suit: cb_suit_from_dds(mv.suit), rank: mv.rank as u8 },
        equals: Holding::from_bits_truncate((mv.sequence as u16) * 4),
        score: TrickCount::new(score as u8),
    }
}

/// The first suit from `k` on in which hand `h` of `ris` holds a card, 4
/// if none.
pub open spec fn first_nonvoid(ris: [[u16; 4]; 4], h: int, k: int) -> int
    decreases 4 - k,
{
    if k >= 4 {
        4
    } else if ris[h][k] != 0 {
        k
    } else {
        first_nonvoid(ris, h, k + 1)
    }
}

/// The suit found lies between `k` and 4, and is held when below 4.
pub proof fn lemma_first_nonvoid(ris: [[u16; 4]; 4], h: int, k: int)
    requires
        0 <= k <= 4,
    ensures
        k <= first_nonvoid(ris, h, k) <= 4,
        first_nonvoid(ris, h, k) < 4 ==> ris[h][first_nonvoid(ris, h, k)] != 0,
    decreases 4 - k,
{
    if k < 4 && ris[h][k] == 0 {
        lemma_first_nonvoid(ris, h, k + 1);
    }
}

/// The card a hand with one card left must play: the highest card of its
/// first non-void suit, (0, 0) when it has none.
pub open spec fn forced_card(ris: [[u16; 4]; 4], h: int) -> (int, int) {
    let s = first_nonvoid(ris, h, 0);
    if s < 4 {
        (s, highest_rank(ris[h][s]))
    } else {
        (0, 0)
    }
}

/// The card seat `h` contributes to the last trick: its card on the
/// table if it has played, else its forced card.
pub open spec fn last_card(board: Board, p: Pos, h: int) -> (int, int) {
    let first = seat_index(board.spec_trick().spec_leader()) as int;
    let k = (h - first) % 4;
    let played = board.spec_trick().played();
    if k < played.len() {
        (3 - suit_index(played[k].suit), played[k].rank as int)
    } else {
        forced_card(p.rank_in_suit, h)
    }
}

/// Scanning seats `0..n`: the first seat whose last card is of `suit` and
/// higher than everything before, starting from `start`.
pub open spec fn best_of(board: Board, p: Pos, suit: int, n: int, start: (int, int)) -> (int, int)
    decreases n,
{
    if n <= 0 {
        start
    } else {
        let prev = best_of(board, p, suit, n - 1, start);
        let c = last_card(board, p, n - 1);
        if c.0 == suit && c.1 > prev.1 {
            (n - 1, c.1)
        } else {
            prev
        }
    }
}

/// The seat winning the last trick: the highest trump, else the highest
/// card of the suit led.
pub open spec fn last_trick_seat(board: Board, p: Pos, trump: int) -> int {
    let first = seat_index(board.spec_trick().spec_leader()) as int;
    let t = if trump != 4 {
        best_of(board, p, trump, 4, (usize::MAX as int, 0))
    } else {
        (usize::MAX as int, 0)
    };
    if t.1 != 0 {
        t.0
    } else {
        best_of(board, p, last_card(board, p, first).0, 4, (first, last_card(board, p, first).1)).0
    }
}

/// Every card of the last trick is forced: the result is the one card of
/// the hand to play, scored 1 when its side wins the trick (0 when the
/// target asks for cards only), with no equals and no nodes.
#[verifier::rlimit(80)]
#[verifier::spinoff_prover]
pub fn last_trick_winner(board: &Board, target: Target, pos: &Pos, trump: i32) -> (r: FoundPlays)
    requires
        board.spec_trick().wf(),
        target.wf(),
        pos_wf(*pos),
        0 <= trump <= 4,
        first_nonvoid(
            pos.rank_in_suit,
            ((seat_index(board.spec_trick().spec_leader()) + board.spec_trick().played().len()) % 4) as int,
            0,
        ) < 4,
    ensures
        r.nodes == 0,
        r.plays@.len() == 1,
        ({
            let first = seat_index(board.spec_trick().spec_leader()) as int;
            let htp = ((first + board.spec_trick().played().len()) % 4) as int;
            let c = forced_card(pos.rank_in_suit, htp);
            let winner = last_trick_seat(*board, *pos, trump as int);
            let wins: int = if winner % 2 == htp % 2 {
                1
            } else {
                0
            };
            &&& suit_index(r.plays@[0].card.suit) == 3 - c.0
            &&& r.plays@[0].card.rank == c.1
            &&& r.plays@[0].equals.bits_spec() == 0
            &&& r.plays@[0].score.value() == (if target.spec_target() == 0 && target.spec_solutions() < 3 {
                0
            } else {
                wins
            })
        }),
{
    proof {
        board.spec_trick().lemma_wf();
    }
    let first = board.leader().index();
    let hand_rel_first = board.current_cards().len();
    let hand_to_play = (first + hand_rel_first) % 4;
    let table = table_of(board);
    let ghost played = board.spec_trick().played();
    let mut last_trick = [(0i32, 0i32); 4];
    let mut k: usize = 0;
    while k < table.len()
        invariant
            first < 4,
            k <= table@.len(),
            table@.len() == played.len(),
            played.len() <= 3,
            first == seat_index(board.spec_trick().spec_leader()),
            played == board.spec_trick().played(),
            forall|j: int| 0 <= j < table@.len() ==> pair_is(#[trigger] table@[j], (
                3 - suit_index(played[j].suit),
                played[j].rank as int,
            )),
            forall|h: int| 0 <= h < 4 ==> pair_is(#[trigger] last_trick[h], (if (h - first) % 4 < k {
                (3 - suit_index(played[(h - first) % 4].suit), played[(h - first) % 4].rank as int)
            } else {
                (0, 0)
            })),
        decreases table@.len() - k,
    {
        let h = (first + k) % 4;
        assert(((h - first) % 4) == k);
        last_trick[h] = table[k];
        k += 1;
    }
    let mut rel: usize = hand_rel_first;
    while rel < 4
        invariant
            first < 4,
            hand_rel_first == played.len(),
            hand_rel_first <= rel <= 4,
            played.len() <= 3,
            first == seat_index(board.spec_trick().spec_leader()),
            played == board.spec_trick().played(),
            pos_wf(*pos),
            forall|h: int| 0 <= h < 4 ==> pair_is(#[trigger] last_trick[h], (if (h - first) % 4 < played.len() {
                (3 - suit_index(played[(h - first) % 4].suit), played[(h - first) % 4].rank as int)
            } else if (h - first) % 4 < rel {
                forced_card(pos.rank_in_suit, h)
            } else {
                (0, 0)
            })),
        decreases 4 - rel,
    {
        let h = (first + rel) % 4;
        assert(((h - first) % 4) == rel);
        let ghost lt0 = last_trick;
        let mut s: usize = 0;
        let mut found = false;
        while s < 4 && !found
            invariant
                s <= 4,
                h < 4,
                pos_wf(*pos),
                first_nonvoid(pos.rank_in_suit, h as int, 0) == (if found {
                    (s - 1) as int
                } else {
                    first_nonvoid(pos.rank_in_suit, h as int, s as int)
                }),
                found ==> s >= 1 && pair_is(last_trick[h as int], forced_card(pos.rank_in_suit, h as int)),
                !found ==> last_trick[h as int] == lt0[h as int],
                lt0[h as int] == (0i32, 0i32),
                forall|h2: int| 0 <= h2 < 4 && h2 != h ==> #[trigger] last_trick[h2] == lt0[h2],
            decreases 4 - s,
        {
            let bits = pos.rank_in_suit[h][s];
            if bits != 0 {
                let top = highest_of(bits);
                last_trick[h] = (s as i32, top);
                found = true;
            }
            s += 1;
        }
        rel += 1;
    }
    assert forall|h2: int| 0 <= h2 < 4 implies pair_is(#[trigger] last_trick[h2], last_card(*board, *pos, h2)) by {
    }
    let mut max_hand: usize = usize::MAX;
    let mut max_rank: i32 = 0;
    if trump != 4 {
        let mut h: usize = 0;
        while h < 4
            invariant
                h <= 4,
                (max_hand as int, max_rank as int) == best_of(*board, *pos, trump as int, h as int, (usize::MAX as int, 0)),
                forall|h2: int| 0 <= h2 < 4 ==> pair_is(#[trigger] last_trick[h2], last_card(*board, *pos, h2)),
            decreases 4 - h,
        {
            let (s, r) = last_trick[h];
            if s == trump && r > max_rank {
                max_rank = r;
                max_hand = h;
            }
            h += 1;
        }
    }
    if max_rank == 0 {
        let (lead_suit, lead_rank) = last_trick[first];
        max_rank = lead_rank;
        max_hand = first;
        let mut h: usize = 0;
        while h < 4
            invariant
                h <= 4,
                first < 4,
                (max_hand as int, max_rank as int) == best_of(*board, *pos, lead_suit as int, h as int, (first as int, lead_rank as int)),
                forall|h2: int| 0 <= h2 < 4 ==> pair_is(#[trigger] last_trick[h2], last_card(*board, *pos, h2)),
            decreases 4 - h,
        {
            let (s, r) = last_trick[h];
            if s == lead_suit && r > max_rank {
                max_rank = r;
                max_hand = h;
            }
            h += 1;
        }
    }
    let lead_side_wins: i32 = if max_hand % 2 == hand_to_play % 2 {
        1
    } else {
        0
    };
    assert(((hand_to_play as int - first as int) % 4) == hand_rel_first as int);
    assert(pair_is(last_trick[hand_to_play as int], forced_card(pos.rank_in_suit, hand_to_play as int)));
    proof {
        lemma_first_nonvoid(pos.rank_in_suit, hand_to_play as int, 0);
        let fs = first_nonvoid(pos.rank_in_suit, hand_to_play as int, 0);
        crate::lookup::lemma_lowest_rank_bound(pos.rank_in_suit[hand_to_play as int][fs]);
    }
    let (suit, rank) = last_trick[hand_to_play];
    let score: i32 = if target.target() == 0 && target.solutions() < 3 {
        0
    } else {
        lead_side_wins
    };
    let mut result = FoundPlays::empty();
    let p = play_of(&MoveType { suit, rank, sequence: 0, weight: 0 }, score);
    assert(p.equals.bits_spec() == 0) by {
        assert(((0int * 4) as u16) & 0x7FFCu16 == 0u16) by (bit_vector);
    }
    assert(max_hand as int == last_trick_seat(*board, *pos, trump as int));
    result.plays.push(p);
    result
}

/// A group of equal cards of the hand to play: its suit (the search's
/// number), its highest rank and the lower ranks of the group (bit `r` for
/// rank `r`).
struct Group {
    suit: i32,
    rank: i32,
    equals: u16,
}

/// The cards that the seat on turn may play, one group for each run of
/// its cards in a suit that no card of another hand and no card on the
/// table splits: the group's highest card, with the lower ones as equals;
/// suits in the search's order, ranks from the top.
fn legal_groups(replay: &Replay) -> (g: Vec<Group>)
    requires
        replay.wf(),
    ensures
        forall|k: int| 0 <= k < g@.len() ==> 0 <= (#[trigger] g@[k]).suit < 4 && 2 <= g@[k].rank <= 14
            && card_fault(
            hands_of(replay.rank_in_suit),
            replay.table@,
            replay.leader as int,
            (g@[k].suit, g@[k].rank),
        ) == -1,
{
    let seat: usize = ((replay.leader + replay.table.len() as i32) % 4) as usize;
    let has_led = replay.table.len() > 0;
    let led: usize = if has_led {
        replay.table[0].0 as usize
    } else {
        0
    };
    let follow = has_led && replay.rank_in_suit[seat][led] != 0;
    let mut g: Vec<Group> = Vec::new();
    let mut s: usize = 0;
    while s < 4
        invariant
            s <= 4,
            seat < 4,
            seat == (replay.leader + replay.table@.len()) % 4,
            led < 4,
            has_led == (replay.table@.len() > 0),
            has_led ==> led == replay.table@[0].0,
            follow == (has_led && replay.rank_in_suit[seat as int][led as int] != 0),
            replay.wf(),
            forall|k: int| 0 <= k < g@.len() ==> 0 <= (#[trigger] g@[k]).suit < 4 && 2 <= g@[k].rank <= 14
                && card_fault(
                hands_of(replay.rank_in_suit),
                replay.table@,
                replay.leader as int,
                (g@[k].suit, g@[k].rank),
            ) == -1,
        decreases 4 - s,
    {
        if !follow || s == led {
            let own = replay.rank_in_suit[seat][s];
            let mut others: u16 = 0;
            let mut h: usize = 0;
            while h < 4
                invariant
                    h <= 4,
                    s < 4,
                decreases 4 - h,
            {
                if h != seat {
                    others = others | replay.rank_in_suit[h][s];
                }
                h += 1;
            }
            let mut k: usize = 0;
            while k < replay.table.len()
                invariant
                    k <= replay.table@.len(),
                    replay.wf(),
                    s < 4,
                decreases replay.table@.len() - k,
            {
                let c = replay.table[k];
                if c.0 == s as i32 {
                    others = others | BIT_MAP_RANK[c.1 as usize];
                }
                k += 1;
            }
            let mut open = false;
            let mut top: i32 = 0;
            let mut eq: u16 = 0;
            let mut r: i32 = 14;
            while r >= 2
                invariant
                    1 <= r <= 14,
                    s < 4,
                    seat < 4,
                    seat == (replay.leader + replay.table@.len()) % 4,
                    led < 4,
                    has_led == (replay.table@.len() > 0),
                    has_led ==> led == replay.table@[0].0,
                    follow == (has_led && replay.rank_in_suit[seat as int][led as int] != 0),
                    !follow || s == led,
                    own == replay.rank_in_suit[seat as int][s as int],
                    replay.wf(),
                    open ==> 2 <= top <= 14 && own & BIT_MAP_RANK[top as int] != 0,
                    forall|k: int| 0 <= k < g@.len() ==> 0 <= (#[trigger] g@[k]).suit < 4 && 2 <= g@[k].rank <= 14
                        && card_fault(
                        hands_of(replay.rank_in_suit),
                        replay.table@,
                        replay.leader as int,
                        (g@[k].suit, g@[k].rank),
                    ) == -1,
                decreases r,
            {
                let b = BIT_MAP_RANK[r as usize];
                if own & b != 0 {
                    if open {
                        eq = eq | (1u16 << (r as u16));
                    } else {
                        open = true;
                        top = r;
                        eq = 0;
                    }
                } else if others & b != 0 {
                    if open {
                        g.push(Group { suit: s as i32, rank: top, equals: eq });
                        open = false;
                    }
                }
                r -= 1;
            }
            if open {
                g.push(Group { suit: s as i32, rank: top, equals: eq });
            }
        }
        s += 1;
    }
    g
}

/// A group whose card the seat on turn may play, as [`card_fault`] says.
spec fn group_ok(g: Group, hands: Seq<Seq<u16>>, table: Seq<(i32, i32)>, leader: int) -> bool {
    &&& 0 <= g.suit < 4
    &&& 2 <= g.rank <= 14
    &&& card_fault(hands, table, leader, (g.suit, g.rank)) == -1
}

/// The card of a play as a (suit, rank) pair in the search's numbering.
pub open spec fn play_pair(p: Play) -> (i32, i32) {
    ((3 - suit_index(p.card.suit)) as i32, p.card.rank as i32)
}

/// A play whose card the seat on turn may play, scored at most thirteen.
pub open spec fn play_ok(p: Play, hands: Seq<Seq<u16>>, table: Seq<(i32, i32)>, leader: int) -> bool {
    &&& card_fault(hands, table, leader, play_pair(p)) == -1
    &&& p.score.wf()
}

/// The cards of hand `h` of `board`.
pub open spec fn board_hand_cards(board: Board, h: int) -> int {
    (popcount(board_bits(board, h, 0)) + popcount(board_bits(board, h, 1)) + popcount(board_bits(board, h, 2))
        + popcount(board_bits(board, h, 3))) as int
}

/// The cards left in the hands of `board`.
pub open spec fn board_cards(board: Board) -> int {
    board_hand_cards(board, 0) + board_hand_cards(board, 1) + board_hand_cards(board, 2) + board_hand_cards(board, 3)
}

/// The play of group `g` scoring `score`.
fn play_for(g: &Group, score: u8) -> (p: Play)
    requires
        0 <= g.suit < 4,
        2 <= g.rank <= 14,
        score <= 13,
    ensures
        play_pair(p) == (g.suit, g.rank),
        p.score.value() == score,
        p.score.wf(),
{
    Play {
        card: Card { suit: cb_suit_from_dds(g.suit), rank: g.rank as u8 },
        equals: Holding::from_bits_truncate(g.equals),
        score: TrickCount::new(score),
    }
}

/// Solve one board on an engine and a table whose strain is the board's
/// trump: the cards that the seat on turn may play, one for each group of
/// equal cards, scored by the tricks its side takes from here on, the
/// trick in progress included.
///
/// An empty board, or a target above the tricks left, gives no plays; at
/// the last trick every card is forced (see [`last_trick_winner`]). Else
/// a target of 0 asks for cards only (one, or all for `All` and `Legal`);
/// `Legal` scores every group, best first; `Any(None)` gives a best card
/// and `All(None)` every best card, with their score (unscored when every
/// card scores 0); `Any(Some(n))` gives a card that reaches `n` and
/// `All(Some(n))` every such card, scored `n`, or none. No node count is
/// kept.
#[verifier::rlimit(100)]
#[verifier::spinoff_prover]
pub fn solve_board_on(engine: &mut Engine, tt: &mut TransTable, objective: &Objective) -> (r: FoundPlays)
    requires
        old(engine).wf(),
        old(tt).wf(),
        objective.board.spec_trick().wf(),
        forall|h: int| 0 <= h < 4 ==> (#[trigger] objective.board.spec_remaining().0[h]).valid(),
        objective.target.wf(),
    ensures
        final(engine).wf(),
        final(tt).wf(),
        final(engine).trump_spec() == old(engine).trump_spec(),
        r.nodes == 0,
        board_cards(objective.board) == 0 || objective.target.spec_target() > (board_cards(objective.board) + 3)
            / 4 ==> r.plays@.len() == 0,
        forall|k: int| 0 <= k < r.plays@.len() ==> (#[trigger] r.plays@[k]).score.wf(),
        objective.target.spec_solutions() == 1 ==> r.plays@.len() <= 1,
        board_cards(objective.board) > 4 ==> forall|k: int|
            0 <= k < r.plays@.len() ==> play_ok(
                #[trigger] r.plays@[k],
                board_hands(objective.board),
                board_table(objective.board),
                seat_index(objective.board.spec_trick().spec_leader()) as int,
            ),
        objective.target.spec_solutions() == 3 ==> forall|i: int, j: int|
            0 <= i < j < r.plays@.len() ==> r.plays@[i].score.value() >= r.plays@[j].score.value(),
        board_cards(objective.board) > 4 && objective.target.spec_target() >= 1 ==> forall|k: int|
            0 <= k < r.plays@.len() ==> (#[trigger] r.plays@[k]).score.value() == objective.target.spec_target(),
{
    let board = &objective.board;
    let base = pos_from_board(board);
    let table = table_of(board);
    let leader = board.leader().index() as i32;
    let trump = engine.trump_number();
    proof {
        board.spec_trick().lemma_wf();
        assert forall|h: int, s: int| 0 <= h < 4 && 0 <= s < 4 implies #[trigger] base.rank_in_suit[h][s] < 8192 by {
            assert(board.spec_remaining().0[h].valid());
            lemma_search_bits(board.spec_remaining().0[h].0[3 - s]);
        }
        assert(table@ =~= board_table(*board));
    }
    let htp = (leader + table.len() as i32) % 4;
    let replay = Replay { rank_in_suit: base.rank_in_suit, table, leader, declarer_parity: htp % 2, banked: 0, trump };
    let ghost hands = hands_of(replay.rank_in_suit);
    let ghost tbl = replay.table@;
    let ghost ld = leader as int;
    proof {
        assert(hands =~~= board_hands(*board));
        reveal_with_fuel(partial_cards, 5);
        reveal_with_fuel(row_cards, 5);
        assert(total_cards(replay.rank_in_suit) == board_cards(*board));
    }
    let card_count = replay.cards_left();
    if card_count == 0 {
        return FoundPlays::empty();
    }
    let target = objective.target.target();
    let solutions = objective.target.solutions();
    if target >= 1 && 4 * (target - 1) >= card_count {
        return FoundPlays::empty();
    }
    if card_count <= 4 {
        let h = htp as usize;
        let mut s: usize = 0;
        while s < 4 && replay.rank_in_suit[h][s] == 0
            invariant
                s <= 4,
                h < 4,
                first_nonvoid(replay.rank_in_suit, h as int, 0) == first_nonvoid(replay.rank_in_suit, h as int, s as int),
            decreases 4 - s,
        {
            s += 1;
        }
        if s == 4 {
            return FoundPlays::empty();
        }
        let mut lp = Pos::default();
        lp.rank_in_suit = replay.rank_in_suit;
        proof {
            lemma_first_nonvoid(replay.rank_in_suit, h as int, s as int);
        }
        return last_trick_winner(board, objective.target, &lp, trump);
    }
    tt.reset();
    let groups = legal_groups(&replay);
    let mut plays: Vec<Play> = Vec::new();
    if target == 0 {
        let count: usize = if solutions == 1 && groups.len() > 1 {
            1
        } else {
            groups.len()
        };
        let mut i: usize = 0;
        while i < count
            invariant
                i <= count <= groups@.len(),
                solutions == 1 ==> count <= 1,
                plays@.len() == i,
                forall|k: int| 0 <= k < groups@.len() ==> group_ok(#[trigger] groups@[k], hands, tbl, ld),
                forall|k: int| 0 <= k < plays@.len() ==> play_ok(#[trigger] plays@[k], hands, tbl, ld),
            decreases count - i,
        {
            let p = play_for(&groups[i], 0);
            plays.push(p);
            i += 1;
        }
        return FoundPlays { plays, nodes: 0 };
    }
    let mut values: Vec<u8> = Vec::new();
    let mut i: usize = 0;
    while i < groups.len()
        invariant
            i <= groups@.len(),
            values@.len() == i,
            forall|k: int| 0 <= k < i ==> #[trigger] values@[k] <= 13,
            forall|k: int| 0 <= k < groups@.len() ==> group_ok(#[trigger] groups@[k], hands, tbl, ld),
            replay.wf(),
            replay.banked == 0,
            engine.wf(),
            tt.wf(),
            engine.trump_spec() == old(engine).trump_spec(),
        decreases groups@.len() - i,
    {
        let mut child = replay.copy();
        child.play(groups[i].suit, groups[i].rank);
        let v = child.banked + position_value(engine, tt, &child, -1, 14);
        values.push(v);
        i += 1;
    }
    if solutions == 3 {
        let mut sc: i32 = 13;
        while sc >= 0
            invariant
                -1 <= sc <= 13,
                values@.len() == groups@.len(),
                forall|k: int| 0 <= k < values@.len() ==> #[trigger] values@[k] <= 13,
                forall|k: int| 0 <= k < groups@.len() ==> group_ok(#[trigger] groups@[k], hands, tbl, ld),
                forall|k: int| 0 <= k < plays@.len() ==> play_ok(#[trigger] plays@[k], hands, tbl, ld),
                forall|k: int| 0 <= k < plays@.len() ==> (#[trigger] plays@[k]).score.value() > sc,
                forall|a: int, b: int| 0 <= a < b < plays@.len() ==> plays@[a].score.value() >= plays@[b].score.value(),
            decreases sc + 1,
        {
            let mut j: usize = 0;
            while j < groups.len()
                invariant
                    0 <= sc <= 13,
                    j <= groups@.len(),
                    values@.len() == groups@.len(),
                    forall|k: int| 0 <= k < values@.len() ==> #[trigger] values@[k] <= 13,
                    forall|k: int| 0 <= k < groups@.len() ==> group_ok(#[trigger] groups@[k], hands, tbl, ld),
                    forall|k: int| 0 <= k < plays@.len() ==> play_ok(#[trigger] plays@[k], hands, tbl, ld),
                    forall|k: int| 0 <= k < plays@.len() ==> (#[trigger] plays@[k]).score.value() >= sc,
                    forall|a: int, b: int| 0 <= a < b < plays@.len() ==> plays@[a].score.value() >= plays@[b].score.value(),
                decreases groups@.len() - j,
            {
                if values[j] as i32 == sc {
                    let p = play_for(&groups[j], values[j]);
                    plays.push(p);
                }
                j += 1;
            }
            sc -= 1;
        }
        return FoundPlays { plays, nodes: 0 };
    }
    if target == -1 {
        let mut best: u8 = 0;
        let mut bi: usize = 0;
        let mut j: usize = 0;
        while j < groups.len()
            invariant
                j <= groups@.len(),
                values@.len() == groups@.len(),
                best <= 13,
                j > 0 ==> bi < j,
                j > 0 ==> values@[bi as int] == best,
                j == 0 ==> best == 0,
                forall|k: int| 0 <= k < values@.len() ==> #[trigger] values@[k] <= 13,
            decreases groups@.len() - j,
        {
            if j == 0 || values[j] > best {
                best = values[j];
                bi = j;
            }
            j += 1;
        }
        if best == 0 {
            let count: usize = if solutions == 1 && groups.len() > 1 {
                1
            } else {
                groups.len()
            };
            let mut i: usize = 0;
            while i < count
                invariant
                    i <= count <= groups@.len(),
                    solutions == 1 ==> count <= 1,
                    plays@.len() == i,
                    forall|k: int| 0 <= k < groups@.len() ==> group_ok(#[trigger] groups@[k], hands, tbl, ld),
                    forall|k: int| 0 <= k < plays@.len() ==> play_ok(#[trigger] plays@[k], hands, tbl, ld),
                decreases count - i,
            {
                let p = play_for(&groups[i], 0);
                plays.push(p);
                i += 1;
            }
            return FoundPlays { plays, nodes: 0 };
        }
        let p = play_for(&groups[bi], best);
        plays.push(p);
        if solutions == 2 {
            let mut j: usize = 0;
            while j < groups.len()
                invariant
                    j <= groups@.len(),
                    bi < groups@.len(),
                    best <= 13,
                    values@.len() == groups@.len(),
                    forall|k: int| 0 <= k < values@.len() ==> #[trigger] values@[k] <= 13,
                    forall|k: int| 0 <= k < groups@.len() ==> group_ok(#[trigger] groups@[k], hands, tbl, ld),
                    forall|k: int| 0 <= k < plays@.len() ==> play_ok(#[trigger] plays@[k], hands, tbl, ld),
                decreases groups@.len() - j,
            {
                if j != bi && values[j] == best {
                    let p = play_for(&groups[j], best);
                    plays.push(p);
                }
                j += 1;
            }
        }
        return FoundPlays { plays, nodes: 0 };
    }
    let mut j: usize = 0;
    while j < groups.len()
        invariant
            j <= groups@.len(),
            1 <= target <= 13,
            solutions == 1 ==> plays@.len() <= 1,
            values@.len() == groups@.len(),
            forall|k: int| 0 <= k < values@.len() ==> #[trigger] values@[k] <= 13,
            forall|k: int| 0 <= k < groups@.len() ==> group_ok(#[trigger] groups@[k], hands, tbl, ld),
            forall|k: int| 0 <= k < plays@.len() ==> play_ok(#[trigger] plays@[k], hands, tbl, ld),
            forall|k: int| 0 <= k < plays@.len() ==> (#[trigger] plays@[k]).score.value() == target,
        decreases groups@.len() - j,
    {
        if values[j] as i32 >= target && (solutions == 2 || plays.len() == 0) {
            let p = play_for(&groups[j], target as u8);
            plays.push(p);
        }
        j += 1;
    }
    FoundPlays { plays, nodes: 0 }
}

} // verus!
