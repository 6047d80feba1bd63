use pons_dds::bridge::Strain;
use pons_dds::lookup::BIT_MAP_RANK;
use pons_dds::move_type::{HighCard, MoveType};
use pons_dds::pos::Pos;
use pons_dds::quick_tricks::{MAXNODE, MINNODE};
use pons_dds::search::{Engine, SearchStats};
use pons_dds::tt::TransTable;

fn four_aces() -> [[u16; 4]; 4] {
    // Each hand holds the ace of one suit and small cards of the others.
    let mut rank = [[0u16; 4]; 4];
    rank[0][0] = BIT_MAP_RANK[14];
    rank[0][1] = BIT_MAP_RANK[2];
    rank[0][2] = BIT_MAP_RANK[2];
    rank[0][3] = BIT_MAP_RANK[2];
    rank[1][0] = BIT_MAP_RANK[3];
    rank[1][1] = BIT_MAP_RANK[14];
    rank[1][2] = BIT_MAP_RANK[3];
    rank[1][3] = BIT_MAP_RANK[3];
    rank[2][0] = BIT_MAP_RANK[4];
    rank[2][1] = BIT_MAP_RANK[4];
    rank[2][2] = BIT_MAP_RANK[14];
    rank[2][3] = BIT_MAP_RANK[4];
    rank[3][0] = BIT_MAP_RANK[5];
    rank[3][1] = BIT_MAP_RANK[5];
    rank[3][2] = BIT_MAP_RANK[5];
    rank[3][3] = BIT_MAP_RANK[14];
    rank
}

fn card(suit: i32, rank: i32) -> MoveType {
    MoveType { suit, rank, sequence: 0, weight: 0 }
}

#[test]
fn set_deal_fills_unions_lengths_and_top_cards() {
    let mut pos = Pos::default();
    pos.rank_in_suit = four_aces();
    let mut tt = TransTable::new();
    let mut eng = Engine::new(Strain::Notrump);
    eng.set_deal(&mut pos, &mut tt);
    assert_eq!(pos.aggr[0], BIT_MAP_RANK[14] | BIT_MAP_RANK[3] | BIT_MAP_RANK[4] | BIT_MAP_RANK[5]);
    assert_eq!(pos.length[0], [1, 1, 1, 1]);
    assert_eq!(pos.hand_dist[0], 256 + 16 + 1);
    assert_eq!(pos.winner[0], HighCard { rank: 14, hand: 0 });
    assert_eq!(pos.second_best[0], HighCard { rank: 5, hand: 3 });
    assert_eq!(pos.winner[3], HighCard { rank: 14, hand: 3 });
    assert_eq!(pos.second_best[3], HighCard { rank: 4, hand: 2 });
}

#[test]
fn playing_and_taking_back_a_lead_restores_the_hands() {
    let mut pos = Pos::default();
    pos.rank_in_suit = four_aces();
    let mut tt = TransTable::new();
    let mut eng = Engine::new(Strain::Notrump);
    eng.set_deal(&mut pos, &mut tt);
    pos.first[12] = 0;
    let before = pos;
    let lead = card(0, 14);
    eng.make0(&mut pos, 12, &lead);
    assert_eq!(pos.rank_in_suit[0][0], 0);
    assert_eq!(pos.length[0][0], 0);
    assert_eq!(pos.hand_dist[0], 16 + 1);
    assert_eq!(pos.first[11], 0);
    assert_eq!(pos.move_history[12], lead);
    eng.undo1(&mut pos, 12, &lead);
    assert_eq!(pos.rank_in_suit, before.rank_in_suit);
    assert_eq!(pos.aggr, before.aggr);
    assert_eq!(pos.length, before.length);
    assert_eq!(pos.hand_dist, before.hand_dist);
}

#[test]
fn followers_play_from_the_right_hands() {
    let mut pos = Pos::default();
    pos.rank_in_suit = four_aces();
    let mut tt = TransTable::new();
    let mut eng = Engine::new(Strain::Notrump);
    eng.set_deal(&mut pos, &mut tt);
    pos.first[11] = 3;
    let before = pos;
    // West leads at depth 12; North plays second, East third.
    eng.make1(&mut pos, 11, &card(0, 14));
    assert_eq!(pos.rank_in_suit[0][0], 0);
    pos.first[10] = 3;
    eng.make2(&mut pos, 10, &card(0, 3));
    assert_eq!(pos.rank_in_suit[1][0], 0);
    eng.undo3(&mut pos, 10, &card(0, 3));
    eng.undo2(&mut pos, 11, &card(0, 14));
    assert_eq!(pos.rank_in_suit, before.rank_in_suit);
    assert_eq!(pos.length, before.length);
    assert_eq!(pos.hand_dist, before.hand_dist);
}

#[test]
fn finishing_a_trick_and_taking_it_back_restores_the_top_cards() {
    let mut pos = Pos::default();
    pos.rank_in_suit = four_aces();
    let mut tt = TransTable::new();
    let mut eng = Engine::new(Strain::Notrump);
    eng.set_deal(&mut pos, &mut tt);
    pos.first[9] = 1;
    let before = pos;
    let mut trick_cards = [0xffffu16; 4];
    // North plays the ace of spades as the fourth hand of a trick East led.
    eng.make3(&mut pos, &mut trick_cards, 9, &card(0, 14));
    assert_eq!(pos.rank_in_suit[0][0], 0);
    assert_eq!(pos.winner[0], HighCard { rank: 5, hand: 3 });
    eng.undo0(&mut pos, 9, &card(0, 14));
    assert_eq!(pos.rank_in_suit, before.rank_in_suit);
    assert_eq!(pos.winner, before.winner);
    assert_eq!(pos.second_best, before.second_best);
}

#[test]
fn last_trick_goes_to_the_highest_card_of_the_led_suit() {
    let mut rank = [[0u16; 4]; 4];
    rank[0][0] = BIT_MAP_RANK[14];
    rank[1][1] = BIT_MAP_RANK[2];
    rank[2][2] = BIT_MAP_RANK[2];
    rank[3][3] = BIT_MAP_RANK[2];
    let mut pos = Pos::default();
    pos.rank_in_suit = rank;
    pos.first[0] = 0;
    let eng = Engine::new(Strain::Notrump);
    let mut win = [0xffffu16; 4];
    assert_eq!(eng.evaluate(&pos, &mut win), 1);
    assert_eq!(win, [0, 0, 0, 0]);

    // East leads: the two of hearts wins for the MIN side.
    pos.first[0] = 1;
    assert_eq!(eng.evaluate(&pos, &mut win), 0);
}

#[test]
fn last_trick_goes_to_the_highest_trump() {
    let mut rank = [[0u16; 4]; 4];
    rank[0][0] = BIT_MAP_RANK[14];
    rank[1][1] = BIT_MAP_RANK[2];
    rank[2][1] = BIT_MAP_RANK[5];
    rank[3][3] = BIT_MAP_RANK[2];
    let mut pos = Pos::default();
    pos.rank_in_suit = rank;
    pos.first[0] = 0;
    pos.tricks_max = 3;
    let mut eng = Engine::new(Strain::Hearts);
    eng.set_node_types([MAXNODE, MINNODE, MAXNODE, MINNODE]);
    let mut win = [0u16; 4];
    // South's five of hearts ruffs the ace: MAX's trick.
    assert_eq!(eng.evaluate(&pos, &mut win), 4);
    assert_eq!(win, [0, BIT_MAP_RANK[5], 0, 0]);
    eng.set_node_types([MINNODE, MAXNODE, MINNODE, MAXNODE]);
    assert_eq!(eng.evaluate(&pos, &mut win), 3);
}

#[test]
fn search_stats_start_at_zero() {
    let s = SearchStats::default();
    assert_eq!(s.node0_entries, 0);
    assert_eq!(s.cutoff_hist, [0; 8]);
}

/// A position built from per-hand suit holdings, with the unions and
/// lengths filled in.
fn build_pos(rank_in_suit: [[u16; 4]; 4]) -> Pos {
    let mut p = Pos::default();
    p.rank_in_suit = rank_in_suit;
    for s in 0..4 {
        p.aggr[s] = (0..4).fold(0u16, |a, h| a | rank_in_suit[h][s]);
    }
    for h in 0..4 {
        for s in 0..4 {
            p.length[h][s] = rank_in_suit[h][s].count_ones() as u8;
        }
    }
    p
}

/// Total number of cards held.
fn card_count(p: &Pos) -> i32 {
    p.length.iter().flatten().map(|&n| i32::from(n)).sum()
}

#[test]
fn empty_position_returns_zero() {
    let mut pos = Pos::default();
    let mut tt = TransTable::new();
    let mut eng = Engine::new(Strain::Notrump);
    eng.set_deal(&mut pos, &mut tt);
    let tricks = eng.search_target(&mut pos, &mut tt, 0);
    assert_eq!(tricks, 0);
}

#[test]
fn one_winner_returns_one() {
    let mut rank = [[0u16; 4]; 4];
    rank[0][0] = BIT_MAP_RANK[14];
    rank[1][1] = BIT_MAP_RANK[2];
    rank[2][2] = BIT_MAP_RANK[2];
    rank[3][3] = BIT_MAP_RANK[2];
    let mut pos = build_pos(rank);
    let cc = card_count(&pos);
    assert_eq!(cc, 4, "should be exactly 4 cards");
    let ini_depth = cc - 4;
    pos.first[ini_depth as usize] = 0;
    let mut tt = TransTable::new();
    let mut eng = Engine::new(Strain::Notrump);
    eng.set_node_types([MAXNODE, MINNODE, MAXNODE, MINNODE]);
    eng.set_deal(&mut pos, &mut tt);
    let tricks = eng.search_target(&mut pos, &mut tt, ini_depth);
    assert_eq!(tricks, 1, "MAX should win 1 trick with the A");
}

#[test]
fn one_loser_returns_zero() {
    let mut rank = [[0u16; 4]; 4];
    rank[0][0] = BIT_MAP_RANK[2];
    rank[1][1] = BIT_MAP_RANK[14];
    rank[2][2] = BIT_MAP_RANK[2];
    rank[3][3] = BIT_MAP_RANK[2];
    let mut pos = build_pos(rank);
    let cc = card_count(&pos);
    assert_eq!(cc, 4);
    let ini_depth = cc - 4;
    pos.first[ini_depth as usize] = 1;
    let mut tt = TransTable::new();
    let mut eng = Engine::new(Strain::Notrump);
    eng.set_node_types([MAXNODE, MINNODE, MAXNODE, MINNODE]);
    eng.set_deal(&mut pos, &mut tt);
    let tricks = eng.search_target(&mut pos, &mut tt, ini_depth);
    assert_eq!(tricks, 0, "MAX should win 0 tricks (MIN owns the A)");
}

#[test]
fn small_real_position() {
    let mut pos = build_pos(four_aces());
    let cc = card_count(&pos);
    assert_eq!(cc, 16);
    let ini_depth = cc - 4;
    pos.first[ini_depth as usize] = 0;
    let mut tt = TransTable::new();
    let mut eng = Engine::new(Strain::Notrump);
    eng.set_node_types([MAXNODE, MINNODE, MAXNODE, MINNODE]);
    eng.set_deal(&mut pos, &mut tt);
    let tricks = eng.search_target(&mut pos, &mut tt, ini_depth);
    assert_eq!(tricks, 2, "NS should win exactly 2 tricks (the two aces they hold)");
}

#[test]
fn search_leaves_the_hands_as_it_found_them() {
    let mut pos = build_pos(four_aces());
    pos.first[12] = 0;
    let mut tt = TransTable::new();
    let mut eng = Engine::new(Strain::Notrump);
    eng.set_deal(&mut pos, &mut tt);
    let before = pos;
    let tricks = eng.search_target(&mut pos, &mut tt, 12);
    assert_eq!(tricks, 2);
    assert_eq!(pos.rank_in_suit, before.rank_in_suit);
    assert_eq!(pos.aggr, before.aggr);
    assert_eq!(pos.length, before.length);
    assert_eq!(pos.hand_dist, before.hand_dist);
    assert_eq!(pos.tricks_max, before.tricks_max);
    assert_eq!(pos.winner, before.winner);
    assert_eq!(pos.second_best, before.second_best);
    assert_eq!(eng.search_target_calls, 1);
    assert!(eng.bisection_iters >= 1);
}

#[test]
fn trumps_take_every_trick() {
    // North holds the top four spades; spades are trumps and North leads.
    let mut rank = [[0u16; 4]; 4];
    rank[0][0] = BIT_MAP_RANK[14] | BIT_MAP_RANK[13] | BIT_MAP_RANK[12] | BIT_MAP_RANK[11];
    rank[1][1] = BIT_MAP_RANK[14] | BIT_MAP_RANK[13] | BIT_MAP_RANK[12] | BIT_MAP_RANK[11];
    rank[2][2] = BIT_MAP_RANK[14] | BIT_MAP_RANK[13] | BIT_MAP_RANK[12] | BIT_MAP_RANK[11];
    rank[3][3] = BIT_MAP_RANK[14] | BIT_MAP_RANK[13] | BIT_MAP_RANK[12] | BIT_MAP_RANK[11];
    let mut pos = build_pos(rank);
    pos.first[12] = 0;
    let mut tt = TransTable::new();
    let mut eng = Engine::new(Strain::Spades);
    eng.set_deal(&mut pos, &mut tt);
    assert_eq!(eng.search_target(&mut pos, &mut tt, 12), 4);
    // At notrump East wins nothing on lead of spades: North runs them.
    let mut pos2 = build_pos(rank);
    pos2.first[12] = 1;
    let mut eng2 = Engine::new(Strain::Notrump);
    let mut tt2 = TransTable::new();
    eng2.set_deal(&mut pos2, &mut tt2);
    assert_eq!(eng2.search_target(&mut pos2, &mut tt2, 12), 0);
}

#[test]
fn lead_search_at_the_last_trick_scores_its_winner() {
    // One card each; North's ace of spades wins the last trick.
    let mut rank = [[0u16; 4]; 4];
    rank[0][0] = BIT_MAP_RANK[14];
    rank[1][0] = BIT_MAP_RANK[2];
    rank[2][1] = BIT_MAP_RANK[3];
    rank[3][2] = BIT_MAP_RANK[4];
    let mut pos = build_pos(rank);
    pos.first[0] = 0;
    let mut tt = TransTable::new();
    let mut eng = Engine::new(Strain::Notrump);
    eng.set_deal(&mut pos, &mut tt);
    assert!(eng.ab_search_0(&mut pos, &mut tt, 1, 0));
    assert!(!eng.ab_search_0(&mut pos, &mut tt, 2, 0));
    // With West on lead in clubs nobody else holds, the trick is East-West's.
    let mut rank2 = rank;
    rank2[3][2] = 0;
    rank2[3][3] = BIT_MAP_RANK[4];
    let mut pos2 = build_pos(rank2);
    pos2.first[0] = 3;
    let mut eng2 = Engine::new(Strain::Notrump);
    let mut tt2 = TransTable::new();
    eng2.set_deal(&mut pos2, &mut tt2);
    assert!(!eng2.ab_search_0(&mut pos2, &mut tt2, 1, 0));
    assert_eq!(eng2.search_target(&mut pos2, &mut tt2, 0), 0);
}
