use pons_dds::move_type::{HighCard, MoveType};
use pons_dds::pos::Pos;
use pons_dds::quick_tricks::{
    quick_tricks, quick_tricks_second_hand, DDS_NOTRUMP, MAXNODE, MINNODE,
};
use pons_dds::search::{build_hand_lookup, build_rel_for};

/// MAX = North/South (hands 0 and 2), MIN = East/West (hands 1 and 3).
const NODE_TYPE: [i32; 4] = [MAXNODE, MINNODE, MAXNODE, MINNODE];

#[test]
fn akq_void_returns_three() {
    let mut pos = Pos::default();
    let akq: u16 = 0x1000 | 0x0800 | 0x0400;
    pos.rank_in_suit[0][0] = akq;
    pos.length[0][0] = 3;
    pos.aggr[0] = akq;
    pos.winner[0] = HighCard { rank: 14, hand: 0 };
    pos.second_best[0] = HighCard { rank: 13, hand: 0 };
    for s in 1..4 {
        pos.winner[s] = HighCard { rank: 0, hand: -1 };
        pos.second_best[s] = HighCard { rank: 0, hand: -1 };
    }

    let mut success = false;
    let rel = build_rel_for(&pos.rank_in_suit);
    let qt = quick_tricks(&mut pos, 0, 44, 3, DDS_NOTRUMP, &mut success, &NODE_TYPE, &rel);

    assert!(qt >= 3, "expected ≥ 3 quick tricks holding AKQ alone, got {qt}");
    assert!(success, "expected success flag set when target met");
}

#[test]
fn partial_qt_continues_search() {
    let mut pos = Pos::default();
    pos.rank_in_suit[0][0] = 0x1000;
    pos.length[0][0] = 1;
    pos.aggr[0] = 0x1000;
    pos.winner[0] = HighCard { rank: 14, hand: 0 };
    pos.second_best[0] = HighCard { rank: 0, hand: -1 };
    for s in 1..4 {
        pos.winner[s] = HighCard { rank: 0, hand: -1 };
        pos.second_best[s] = HighCard { rank: 0, hand: -1 };
    }

    let mut success = true;
    let rel = build_rel_for(&pos.rank_in_suit);
    let qt = quick_tricks(&mut pos, 0, 0, 13, DDS_NOTRUMP, &mut success, &NODE_TYPE, &rel);

    assert_eq!(qt, 1, "single A → 1 quick trick");
    assert!(!success, "expected success = false: heuristic can not determine outcome");
}

#[test]
fn no_winners_returns_zero() {
    let mut pos = Pos::default();
    for s in 0..4 {
        pos.rank_in_suit[1][s] = 0x1000;
        pos.length[1][s] = 1;
        pos.aggr[s] = 0x1000;
        pos.winner[s] = HighCard { rank: 14, hand: 1 };
        pos.second_best[s] = HighCard { rank: 0, hand: -1 };
    }

    let mut success = true;
    let rel = build_rel_for(&pos.rank_in_suit);
    let qt = quick_tricks(&mut pos, 0, 4, 1, DDS_NOTRUMP, &mut success, &NODE_TYPE, &rel);

    assert_eq!(qt, 0, "no winners → 0 quick tricks");
    assert!(!success, "expected success = false: heuristic indeterminate");
}

#[test]
fn second_hand_at_ini_depth_returns_false() {
    let mut pos = Pos::default();
    let result = quick_tricks_second_hand(&mut pos, 0, 44, 13, DDS_NOTRUMP, &NODE_TYPE, 44);
    assert!(!result);
}

#[test]
fn quick_tricks_records_the_ranks_relied_on() {
    let mut pos = Pos::default();
    let akq: u16 = 0x1000 | 0x0800 | 0x0400;
    pos.rank_in_suit[0][0] = akq;
    pos.length[0][0] = 3;
    pos.rank_in_suit[1][0] = 0x0001;
    pos.length[1][0] = 1;
    pos.aggr[0] = akq | 0x0001;
    pos.winner[0] = HighCard { rank: 14, hand: 0 };
    pos.second_best[0] = HighCard { rank: 13, hand: 0 };
    for s in 1..4 {
        pos.winner[s] = HighCard { rank: 0, hand: -1 };
        pos.second_best[s] = HighCard { rank: 0, hand: -1 };
    }
    let mut success = false;
    let rel = build_rel_for(&pos.rank_in_suit);
    let qt = quick_tricks(&mut pos, 0, 20, 2, DDS_NOTRUMP, &mut success, &NODE_TYPE, &rel);
    // The ace, then the two small cards that only North still holds.
    assert_eq!(qt, 3);
    assert!(success);
    assert_eq!(pos.win_ranks[20][0], 0x1000);
    assert_eq!(pos.win_ranks[19][0], 0);
}

#[test]
fn sole_trump_holder_counts_trumps_first() {
    let mut pos = Pos::default();
    let akq: u16 = 0x1000 | 0x0800 | 0x0400;
    pos.rank_in_suit[0][0] = akq;
    pos.length[0][0] = 3;
    pos.aggr[0] = akq;
    pos.winner[0] = HighCard { rank: 14, hand: 0 };
    pos.second_best[0] = HighCard { rank: 13, hand: 0 };
    for s in 1..4 {
        pos.winner[s] = HighCard { rank: 0, hand: -1 };
        pos.second_best[s] = HighCard { rank: 0, hand: -1 };
    }
    let mut success = false;
    let rel = build_rel_for(&pos.rank_in_suit);
    let qt = quick_tricks(&mut pos, 0, 44, 3, 0, &mut success, &NODE_TYPE, &rel);
    assert_eq!(qt, 3);
    assert!(success);
}

#[test]
fn second_hand_wins_with_the_top_card_in_notrump() {
    let mut pos = Pos::default();
    // North plays second; West led the five of spades.
    pos.move_history[45] = MoveType { suit: 0, rank: 5, sequence: 0, weight: 0 };
    pos.rank_in_suit[0][0] = 0x1000;
    pos.length[0][0] = 1;
    pos.rank_in_suit[1][0] = 0x0001;
    pos.length[1][0] = 1;
    pos.win_ranks[44] = [0xffff; 4];
    let won = quick_tricks_second_hand(&mut pos, 0, 44, 1, DDS_NOTRUMP, &NODE_TYPE, 48);
    assert!(won);
    assert_eq!(pos.win_ranks[44], [0x1000, 0, 0, 0]);
}

#[test]
fn second_hand_cannot_beat_a_higher_lead() {
    let mut pos = Pos::default();
    pos.move_history[45] = MoveType { suit: 0, rank: 14, sequence: 0, weight: 0 };
    pos.rank_in_suit[0][0] = 0x0800;
    pos.length[0][0] = 1;
    let won = quick_tricks_second_hand(&mut pos, 0, 44, 1, DDS_NOTRUMP, &NODE_TYPE, 48);
    assert!(!won);
}

#[test]
fn rel_table_lists_cards_from_the_top() {
    let mut ris = [[0u16; 4]; 4];
    ris[0][0] = 0x1000; // North: ace of spades
    ris[1][0] = 0x0800; // East: king of spades
    ris[2][0] = 0x0001; // South: two of spades
    let rel = build_rel_for(&ris);
    assert_eq!(rel.len(), 8192);
    let e = rel[0x1801].abs_rank;
    assert_eq!((e[1][0].rank, e[1][0].hand), (14, 0));
    assert_eq!((e[2][0].rank, e[2][0].hand), (13, 1));
    assert_eq!((e[3][0].rank, e[3][0].hand), (2, 2));
    assert_eq!((e[4][0].rank, e[4][0].hand), (0, -1));
    assert_eq!((e[0][0].rank, e[0][0].hand), (0, 0));
    let empty = rel[0].abs_rank;
    assert_eq!((empty[1][0].rank, empty[1][0].hand), (0, -1));
    assert_eq!((empty[14][0].rank, empty[14][0].hand), (0, 0));
    // Without the ace, the king is on top.
    let e = rel[0x0801].abs_rank;
    assert_eq!((e[1][0].rank, e[1][0].hand), (13, 1));
    assert_eq!((e[2][0].rank, e[2][0].hand), (2, 2));
}

#[test]
fn hand_lookup_names_the_holder() {
    let mut ris = [[0u16; 4]; 4];
    ris[3][2] = 0x0400; // West: queen of diamonds
    ris[1][2] = 0x0002; // East: three of diamonds
    let t = build_hand_lookup(&ris);
    assert_eq!(t[2][12], 3);
    assert_eq!(t[2][3], 1);
    assert_eq!(t[2][14], 0);
    assert_eq!(t[0][12], 0);
}
