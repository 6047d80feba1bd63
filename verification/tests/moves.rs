use pons_dds::lookup::BIT_MAP_RANK;
use pons_dds::move_type::{HighCard, MoveType};
use pons_dds::moves::{merge_sort, ExtCard, Moves};
use pons_dds::pos::{Pos, MAX_DEPTH};
use pons_dds::quick_tricks::DDS_NOTRUMP;

const DDS_HANDS: usize = 4;

fn make_pos_singleton_in_each_suit() -> Pos {
    // North = AS, East = AH, South = AD, West = AC.
    let mut p = Pos::default();
    p.rank_in_suit[0][0] = BIT_MAP_RANK[14];
    p.rank_in_suit[1][1] = BIT_MAP_RANK[14];
    p.rank_in_suit[2][2] = BIT_MAP_RANK[14];
    p.rank_in_suit[3][3] = BIT_MAP_RANK[14];
    for s in 0..4 {
        p.aggr[s] = (0..4).fold(0u16, |a, h| a | p.rank_in_suit[h][s]);
    }
    for h in 0..4 {
        for s in 0..4 {
            p.length[h][s] = p.rank_in_suit[h][s].count_ones() as u8;
        }
    }
    for s in 0..4 {
        let hand = (0..4)
            .find(|&h| p.rank_in_suit[h][s] & BIT_MAP_RANK[14] != 0)
            .unwrap_or(0) as i32;
        p.winner[s] = HighCard { rank: 14, hand };
        p.second_best[s] = HighCard { rank: 0, hand: 0 };
    }
    p
}

fn make_pos_akqj_per_suit() -> Pos {
    let mut p = Pos::default();
    let akqj: u16 = BIT_MAP_RANK[14] | BIT_MAP_RANK[13] | BIT_MAP_RANK[12] | BIT_MAP_RANK[11];
    p.rank_in_suit[0][0] = akqj;
    p.rank_in_suit[1][1] = akqj;
    p.rank_in_suit[2][2] = akqj;
    p.rank_in_suit[3][3] = akqj;
    for s in 0..4 {
        p.aggr[s] = (0..4).fold(0u16, |a, h| a | p.rank_in_suit[h][s]);
    }
    for h in 0..4 {
        for s in 0..4 {
            p.length[h][s] = p.rank_in_suit[h][s].count_ones() as u8;
        }
    }
    for s in 0..4 {
        let hand = (0..4).find(|&h| p.rank_in_suit[h][s] != 0).unwrap_or(0) as i32;
        p.winner[s] = HighCard { rank: 14, hand };
        p.second_best[s] = HighCard { rank: 13, hand };
    }
    p
}

#[test]
fn new_initializes_clean_state() {
    let m = Moves::new();
    assert_eq!(m.trump(), DDS_NOTRUMP);
    for t in 0..MAX_DEPTH {
        for h in 0..DDS_HANDS {
            assert_eq!(m.move_ply(t, h).last, -1);
            assert_eq!(m.move_ply(t, h).current, 0);
        }
    }
    for t in 0..MAX_DEPTH {
        assert_eq!(m.track(t).lead_hand, 0);
        assert_eq!(m.track(t).removed_ranks, [0; 4]);
    }
}

#[test]
fn reinit_sets_lead_hand() {
    let mut m = Moves::new();
    m.reinit(7, 2);
    assert_eq!(m.track(7).lead_hand, 2);
    assert_eq!(m.track(8).lead_hand, 0);
}

#[test]
fn init_removed_ranks_against_full_deck() {
    let mut p = Pos::default();
    for bits in &BIT_MAP_RANK[2..=7] {
        p.rank_in_suit[0][0] |= bits;
    }
    for bits in &BIT_MAP_RANK[8..=10] {
        p.rank_in_suit[1][0] |= bits;
    }
    for bits in &BIT_MAP_RANK[11..=13] {
        p.rank_in_suit[2][0] |= bits;
    }
    p.rank_in_suit[3][0] |= BIT_MAP_RANK[14];

    let mut m = Moves::new();
    m.init_removed_ranks(12, &p);
    assert_eq!(m.track(12).removed_ranks[0], 0xffff ^ 0x1fff);
}

#[test]
fn move_gen_0_aces_only_one_per_suit() {
    let p = make_pos_singleton_in_each_suit();
    let mut m = Moves::new();
    m.init_removed_ranks(0, &p);
    m.reinit(0, 0);
    m.set_trump(DDS_NOTRUMP);
    let bm = MoveType::default();
    let n = m.move_gen_0(0, &p, &bm, &bm, &[]);
    assert_eq!(n, 1, "leader has exactly one card to play");
    let list = m.move_ply(0, 0);
    assert_eq!(list.moves[0].suit, 0);
    assert_eq!(list.moves[0].rank, 14);
    assert_eq!(list.last, 0);
    assert_eq!(list.current, 0);
}

#[test]
fn move_gen_0_akqj_collapses_to_one_per_suit() {
    let p = make_pos_akqj_per_suit();
    let mut m = Moves::new();
    m.init_removed_ranks(0, &p);
    m.reinit(0, 0);
    m.set_trump(DDS_NOTRUMP);
    let bm = MoveType::default();
    let n = m.move_gen_0(0, &p, &bm, &bm, &[]);
    assert_eq!(n, 1, "AKQJ collapses to one candidate (top of run)");
    let list = m.move_ply(0, 0);
    assert_eq!(list.moves[0].suit, 0);
    assert_eq!(list.moves[0].rank, 14);
}

#[test]
fn make_next_returns_none_when_exhausted() {
    let p = make_pos_singleton_in_each_suit();
    let mut m = Moves::new();
    m.init_removed_ranks(0, &p);
    m.reinit(0, 0);
    let bm = MoveType::default();
    let _ = m.move_gen_0(0, &p, &bm, &bm, &[]);
    let win = [0u16; 4];
    let first = m.make_next(0, 0, &win);
    assert!(first.is_some(), "first call yields the ace");
    let second = m.make_next(0, 0, &win);
    assert!(second.is_none(), "list is exhausted after one move");
}

#[test]
fn make_next_records_lead_suit_on_track() {
    let p = make_pos_akqj_per_suit();
    let mut m = Moves::new();
    m.init_removed_ranks(0, &p);
    m.reinit(0, 0);
    let bm = MoveType::default();
    m.move_gen_0(0, &p, &bm, &bm, &[]);
    let win = [0u16; 4];
    let mv = m.make_next(0, 0, &win).unwrap();
    assert_eq!(mv.suit, 0);
    assert_eq!(mv.rank, 14);
    assert_eq!(m.track(0).lead_suit, 0);
    assert_eq!(m.track(0).move_played[0].rank, 14);
    assert_eq!(m.track(0).high[0], 0);
}

#[test]
fn merge_sort_empty_and_small() {
    let mut buf = [MoveType::default(); 14];
    merge_sort(&mut buf, 0);
    merge_sort(&mut buf, 1);
    buf[0].weight = 5;
    buf[1].weight = 10;
    merge_sort(&mut buf, 2);
    assert_eq!(buf[0].weight, 10);
    assert_eq!(buf[1].weight, 5);
}

#[test]
fn merge_sort_seven_elements_descending() {
    let mut buf = [MoveType::default(); 14];
    let weights = [3, 1, 7, 4, 6, 2, 5];
    for (i, &w) in weights.iter().enumerate() {
        buf[i].weight = w;
    }
    merge_sort(&mut buf, 7);
    let got: Vec<i32> = buf.iter().take(7).map(|m| m.weight).collect();
    assert_eq!(got, vec![7, 6, 5, 4, 3, 2, 1]);
}

#[test]
fn merge_sort_thirteen_falls_back_to_insertion() {
    let mut buf = [MoveType::default(); 14];
    let weights = [1, 13, 4, 8, 2, 11, 5, 9, 3, 12, 6, 10, 7];
    for (i, &w) in weights.iter().enumerate() {
        buf[i].weight = w;
    }
    merge_sort(&mut buf, 13);
    let got: Vec<i32> = buf.iter().take(13).map(|m| m.weight).collect();
    assert_eq!(got, vec![13, 12, 11, 10, 9, 8, 7, 6, 5, 4, 3, 2, 1]);
}

#[test]
fn winning_move_basic_cases() {
    let trump = 0;
    let mv = MoveType { suit: 0, rank: 5, sequence: 0, weight: 0 };
    let opp = ExtCard { suit: 0, rank: 3, sequence: 0 };
    assert!(Moves::winning_move(&mv, &opp, trump));
    let opp_hi = ExtCard { suit: 0, rank: 7, sequence: 0 };
    assert!(!Moves::winning_move(&mv, &opp_hi, trump));
    let mv_trump = MoveType { suit: 0, rank: 2, sequence: 0, weight: 0 };
    let opp_other = ExtCard { suit: 1, rank: 13, sequence: 0 };
    assert!(Moves::winning_move(&mv_trump, &opp_other, trump));
    let mv_nt = MoveType { suit: 1, rank: 12, sequence: 0, weight: 0 };
    let opp_lead = ExtCard { suit: 0, rank: 2, sequence: 0 };
    assert!(!Moves::winning_move(&mv_nt, &opp_lead, trump));
}

#[test]
fn purge_drops_forbidden_moves() {
    let p = make_pos_akqj_per_suit();
    let mut m = Moves::new();
    m.init_removed_ranks(0, &p);
    m.reinit(0, 0);
    let bm = MoveType::default();
    let n_before = m.move_gen_0(0, &p, &bm, &bm, &[]);
    assert_eq!(n_before, 1);
    let mut forbidden = [MoveType::default(); 14];
    forbidden[1] = MoveType { suit: 0, rank: 14, sequence: 0, weight: 0 };
    m.purge(0, 0, &forbidden);
    assert_eq!(m.move_ply(0, 0).last, -1);
}

/// A broken run: North holds AK and 9 of spades with Q, J, T still out, so
/// the leader has two candidates; once Q, J and T are gone, the run closes
/// and only the ace remains, standing for the whole run.
#[test]
fn move_gen_0_merges_runs_across_removed_ranks() {
    let mut p = Pos::default();
    p.rank_in_suit[0][0] = BIT_MAP_RANK[14] | BIT_MAP_RANK[13] | BIT_MAP_RANK[9];
    p.rank_in_suit[1][0] = BIT_MAP_RANK[12] | BIT_MAP_RANK[11] | BIT_MAP_RANK[10];
    for s in 0..4 {
        p.aggr[s] = (0..4).fold(0u16, |a, h| a | p.rank_in_suit[h][s]);
        for h in 0..4 {
            p.length[h][s] = p.rank_in_suit[h][s].count_ones() as u8;
        }
        p.winner[s] = HighCard { rank: 0, hand: -1 };
        p.second_best[s] = HighCard { rank: 0, hand: -1 };
    }
    p.winner[0] = HighCard { rank: 14, hand: 0 };
    p.second_best[0] = HighCard { rank: 13, hand: 0 };
    let bm = MoveType::default();

    let mut m = Moves::new();
    m.init_removed_ranks(0, &p);
    m.reinit(0, 0);
    let n = m.move_gen_0(0, &p, &bm, &bm, &[]);
    assert_eq!(n, 2);
    let list = m.move_ply(0, 0);
    let mut ranks = vec![list.moves[0].rank, list.moves[1].rank];
    ranks.sort();
    assert_eq!(ranks, vec![9, 14]);

    // East's cards are gone: the run A K (Q J T) 9 is one candidate.
    let mut q = p;
    q.rank_in_suit[1][0] = 0;
    q.aggr[0] = q.rank_in_suit[0][0];
    let mut m = Moves::new();
    m.init_removed_ranks(0, &q);
    m.reinit(0, 0);
    let n = m.move_gen_0(0, &q, &bm, &bm, &[]);
    assert_eq!(n, 1);
    let list = m.move_ply(0, 0);
    assert_eq!(list.moves[0].rank, 14);
    assert_eq!(list.moves[0].sequence, i32::from(BIT_MAP_RANK[13] | BIT_MAP_RANK[9]));
}

/// A follower who holds the led suit may only follow; one who is void
/// may play any card.
#[test]
fn move_gen_123_follows_suit_when_able() {
    let p = make_pos_singleton_in_each_suit();
    let mut m = Moves::new();
    m.init_removed_ranks(0, &p);
    m.reinit(0, 0);
    let bm = MoveType::default();
    m.move_gen_0(0, &p, &bm, &bm, &[]);
    let win = [0u16; 4];
    let lead = m.make_next(0, 0, &win).unwrap();
    assert_eq!((lead.suit, lead.rank), (0, 14));
    // East is void in spades: its one card, the heart ace, is the candidate.
    let n = m.move_gen_123(0, 1, &p);
    assert_eq!(n, 1);
    let list = m.move_ply(0, 1);
    assert_eq!((list.moves[0].suit, list.moves[0].rank), (1, 14));
}
