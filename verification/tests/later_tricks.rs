use pons_dds::later_tricks::later_tricks;
use pons_dds::move_type::HighCard;
use pons_dds::pos::Pos;
use pons_dds::quick_tricks::{DDS_NOTRUMP, MAXNODE, MINNODE};

const NODE_TYPE: [i32; 4] = [MAXNODE, MINNODE, MAXNODE, MINNODE];

#[test]
fn no_winners_continues_search() {
    let mut pos = Pos::default();
    for s in 0..4 {
        pos.winner[s] = HighCard { rank: 0, hand: -1 };
        pos.second_best[s] = HighCard { rank: 0, hand: -1 };
    }
    let result = later_tricks(&mut pos, 0, 44, 13, DDS_NOTRUMP, &NODE_TYPE);
    assert_eq!(result, None, "no winners → search must continue");
}

#[test]
fn max_claim_in_nt() {
    let mut pos = Pos::default();
    pos.winner[0] = HighCard { rank: 14, hand: 1 };
    pos.length[1][0] = 1;
    pos.length[3][0] = 1;
    for s in 1..4 {
        pos.winner[s] = HighCard { rank: 0, hand: -1 };
        pos.second_best[s] = HighCard { rank: 0, hand: -1 };
    }
    pos.second_best[0] = HighCard { rank: 0, hand: -1 };
    pos.rank_in_suit[1][0] = 0x1000;
    pos.tricks_max = 12;
    let result = later_tricks(&mut pos, 0, 4, 13, DDS_NOTRUMP, &NODE_TYPE);
    assert!(
        result.is_some(),
        "MAX claim should be detected: result was {result:?}"
    );
}

#[test]
fn one_trick_left_forced_claim() {
    let mut pos = Pos::default();
    pos.rank_in_suit[0][0] = 0x1000;
    pos.length[0][0] = 1;
    pos.aggr[0] = 0x1000;
    pos.winner[0] = HighCard { rank: 14, hand: 0 };
    pos.second_best[0] = HighCard { rank: 0, hand: -1 };
    for s in 1..4 {
        pos.winner[s] = HighCard { rank: 0, hand: -1 };
        pos.second_best[s] = HighCard { rank: 0, hand: -1 };
    }
    pos.tricks_max = 12;
    let result = later_tricks(&mut pos, 0, 0, 13, 0, &NODE_TYPE);
    assert!(
        result.is_some(),
        "forced one-trick claim should be detected: result was {result:?}"
    );
}
