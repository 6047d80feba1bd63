use pons_dds::analyse::{analyse_play_on, Replay};
use pons_dds::board::{Board, CurrentTrick};
use pons_dds::bridge::{Card, Hand, PartialDeal, Seat, Strain, Suit};
use pons_dds::play::{PlayFaultKind, PlayTrace};
use pons_dds::search::Engine;
use pons_dds::tt::TransTable;
use pons_dds::lookup::BIT_MAP_RANK;

fn replay(rank_in_suit: [[u16; 4]; 4], table: Vec<(i32, i32)>, leader: i32, trump: i32) -> Replay {
    Replay { rank_in_suit, table, leader, declarer_parity: 0, banked: 0, trump }
}

#[test]
fn highest_card_of_the_led_suit_wins() {
    let r = replay([[0; 4]; 4], vec![(1, 10), (1, 13), (2, 14), (1, 2)], 0, 4);
    assert_eq!(r.trick_winner_rel(), 1);
}

#[test]
fn lowest_trump_beats_the_led_ace() {
    let r = replay([[0; 4]; 4], vec![(1, 14), (0, 2), (1, 3), (2, 14)], 0, 0);
    assert_eq!(r.trick_winner_rel(), 1);
}

#[test]
fn fourth_card_completes_the_trick_and_banks_it() {
    let mut hands = [[0u16; 4]; 4];
    hands[0][1] = BIT_MAP_RANK[14] | BIT_MAP_RANK[4];
    // East led; North plays fourth and wins with the ace of hearts.
    let mut r = replay(hands, vec![(1, 10), (1, 12), (1, 13)], 1, 4);
    r.play(1, 14);
    assert_eq!(r.table.len(), 0);
    assert_eq!(r.leader, 0);
    assert_eq!(r.banked, 1);
    assert_eq!(r.rank_in_suit[0][1], BIT_MAP_RANK[4]);
    assert_eq!(r.cards_left(), 1);
}

#[test]
fn a_card_short_of_the_trick_stays_on_the_table() {
    let mut hands = [[0u16; 4]; 4];
    hands[2][0] = BIT_MAP_RANK[7];
    let mut r = replay(hands, vec![(0, 3)], 1, 4);
    r.play(0, 7);
    assert_eq!(r.table, vec![(0, 3), (0, 7)]);
    assert_eq!(r.leader, 1);
    assert_eq!(r.banked, 0);
    assert_eq!(r.cards_left(), 0);
}

#[test]
fn forced_endgame_scores_the_last_trick() {
    let mut hands = [[0u16; 4]; 4];
    hands[0][0] = BIT_MAP_RANK[14]; // North: ace of spades
    hands[1][1] = BIT_MAP_RANK[2]; // East: two of hearts
    hands[2][2] = BIT_MAP_RANK[2]; // South: two of diamonds
    hands[3][3] = BIT_MAP_RANK[2]; // West: two of clubs
    let r = replay(hands, Vec::new(), 0, 4);
    assert_eq!(r.forced_final_value(), 1);
    let r = replay(hands, Vec::new(), 1, 4);
    assert_eq!(r.forced_final_value(), 0);
    // With hearts trumps East's two ruffs North's ace.
    let r = replay(hands, Vec::new(), 0, 1);
    assert_eq!(r.forced_final_value(), 0);
    let empty = replay([[0; 4]; 4], Vec::new(), 0, 4);
    assert_eq!(empty.forced_final_value(), 0);
}

const ALL: u16 = 0x7FFC;

/// A hand from its holdings in spades, hearts, diamonds and clubs.
fn hand(s: u16, h: u16, d: u16, c: u16) -> Hand {
    Hand([c, d, h, s])
}

/// Each seat holds one full suit: N spades, E hearts, S diamonds, W clubs.
fn straight_flush_deal() -> PartialDeal {
    PartialDeal([hand(ALL, 0, 0, 0), hand(0, ALL, 0, 0), hand(0, 0, ALL, 0), hand(0, 0, 0, ALL)])
}

fn card(suit: Suit, rank: u8) -> Card {
    Card { suit, rank }
}

fn trace_of(deal: PartialDeal, trump: Strain, leader: Seat, cards: &[Card]) -> PlayTrace {
    PlayTrace {
        board: Board::try_new(deal, CurrentTrick::new(trump, leader)).expect("valid board"),
        cards: cards.to_vec(),
    }
}

/// Spades trump, East on lead: the declarer side is North-South, and
/// North's thirteen trumps take everything whatever is played. The count
/// stays 13 across a full first trick.
#[test]
fn straight_flush_all_thirteen() {
    let trace = trace_of(
        straight_flush_deal(),
        Strain::Spades,
        Seat::East,
        &[card(Suit::Hearts, 14), card(Suit::Diamonds, 2), card(Suit::Clubs, 2), card(Suit::Spades, 2)],
    );
    let analysis = analyse_play_on(&mut Engine::new(Strain::Spades), &mut TransTable::new(), &trace)
        .expect("legal trace");
    assert_eq!(analysis.tricks.len(), 5);
    assert!(
        analysis.tricks.iter().all(|tc| tc.get() == 13),
        "NS ruff and run trumps whatever happens: {:?}",
        analysis.tricks
    );
}

/// An empty trace still reports the snapshot value: at notrump the
/// opening leader West runs the clubs and declarer takes nothing.
#[test]
fn empty_trace() {
    let trace = trace_of(straight_flush_deal(), Strain::Notrump, Seat::West, &[]);
    let analysis = analyse_play_on(&mut Engine::new(Strain::Notrump), &mut TransTable::new(), &trace)
        .expect("legal trace");
    assert_eq!(analysis.tricks.len(), 1);
    assert_eq!(analysis.tricks[0].get(), 0);
}

/// Illegal traces give the first illegal card: one the player does not
/// hold, and a revoke.
#[test]
fn trace_validation() {
    let not_held = trace_of(straight_flush_deal(), Strain::Notrump, Seat::East, &[card(Suit::Spades, 14)]);
    let fault = analyse_play_on(&mut Engine::new(Strain::Notrump), &mut TransTable::new(), &not_held)
        .expect_err("East does not hold the ace of spades");
    assert_eq!(fault.index, 0);
    assert_eq!(fault.seat, Seat::East);
    assert_eq!(fault.kind, PlayFaultKind::NotHeld);

    // North holds the two of hearts, East the two of spades.
    let deal = PartialDeal([
        hand(ALL & !(1 << 2), 1 << 2, 0, 0),
        hand(1 << 2, ALL & !(1 << 2), 0, 0),
        hand(0, 0, ALL, 0),
        hand(0, 0, 0, ALL),
    ]);
    let revoke = trace_of(
        deal,
        Strain::Notrump,
        Seat::East,
        &[card(Suit::Hearts, 14), card(Suit::Diamonds, 2), card(Suit::Clubs, 2), card(Suit::Spades, 3)],
    );
    let fault = analyse_play_on(&mut Engine::new(Strain::Notrump), &mut TransTable::new(), &revoke)
        .expect_err("North must follow hearts");
    assert_eq!(fault.index, 3);
    assert_eq!(fault.seat, Seat::North);
    assert_eq!(fault.kind, PlayFaultKind::Revoke);
}

/// A trick of the trace changes the count by at most the trick: after
/// East cashes the ace of hearts at notrump the defenders still take all.
#[test]
fn analysis_counts_after_each_card() {
    let trace = trace_of(
        straight_flush_deal(),
        Strain::Notrump,
        Seat::East,
        &[card(Suit::Hearts, 14), card(Suit::Diamonds, 2)],
    );
    let analysis = analyse_play_on(&mut Engine::new(Strain::Notrump), &mut TransTable::new(), &trace)
        .expect("legal trace");
    assert_eq!(analysis.tricks.len(), 3);
    assert!(analysis.tricks.iter().all(|tc| tc.get() == 0));
}
