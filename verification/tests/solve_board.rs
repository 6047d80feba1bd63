use pons_dds::board::{Board, CurrentTrick, Target};
use pons_dds::bridge::{Card, Hand, PartialDeal, Seat, Strain, Suit};
use pons_dds::board::Objective;
use pons_dds::bridge::Holding;
use pons_dds::search::Engine;
use pons_dds::solve_board::{last_trick_winner, pos_from_board, solve_board_on, table_of};
use pons_dds::tt::TransTable;
use pons_dds::tricks::TrickCount;

/// A hand from (clubs, diamonds, hearts, spades) rank lists.
fn hand(c: &[u8], d: &[u8], h: &[u8], s: &[u8]) -> Hand {
    let bits = |ranks: &[u8]| ranks.iter().fold(0u16, |a, &r| a | (1 << r));
    Hand([bits(c), bits(d), bits(h), bits(s)])
}

fn board(hands: [Hand; 4], trump: Strain, leader: Seat, played: &[Card]) -> Board {
    let trick = CurrentTrick::from_slice(trump, leader, played).expect("valid trick");
    Board::try_new(PartialDeal(hands), trick).expect("valid board")
}

#[test]
fn leader_with_the_ace_takes_the_last_trick() {
    let b = board(
        [hand(&[], &[], &[], &[14]), hand(&[], &[], &[2], &[]), hand(&[], &[2], &[], &[]), hand(&[2], &[], &[], &[])],
        Strain::Notrump,
        Seat::North,
        &[],
    );
    let pos = pos_from_board(&b);
    assert_eq!(pos.rank_in_suit[0][0], 1 << 12);
    let r = last_trick_winner(&b, Target::Any(None), &pos, 4);
    assert_eq!(r.nodes, 0);
    assert_eq!(r.plays.len(), 1);
    assert_eq!(r.plays[0].card, Card { suit: Suit::Spades, rank: 14 });
    assert_eq!(r.plays[0].score, TrickCount::new(1));
    assert_eq!(r.plays[0].equals.to_bits(), 0);
}

#[test]
fn third_hand_overtakes_the_led_king() {
    let played = [Card { suit: Suit::Hearts, rank: 13 }];
    let b = board(
        [hand(&[], &[], &[3], &[]), hand(&[], &[], &[], &[]), hand(&[], &[], &[14], &[]), hand(&[], &[], &[2], &[])],
        Strain::Notrump,
        Seat::East,
        &played,
    );
    assert_eq!(table_of(&b), vec![(1, 13)]);
    let pos = pos_from_board(&b);
    let r = last_trick_winner(&b, Target::Legal, &pos, 4);
    assert_eq!(r.plays[0].card, Card { suit: Suit::Hearts, rank: 14 });
    assert_eq!(r.plays[0].score, TrickCount::new(1));
}

#[test]
fn a_ruff_beats_the_led_ace() {
    let b = board(
        [hand(&[], &[], &[14], &[]), hand(&[], &[], &[], &[2]), hand(&[], &[], &[3], &[]), hand(&[2], &[], &[], &[])],
        Strain::Spades,
        Seat::North,
        &[],
    );
    let pos = pos_from_board(&b);
    let r = last_trick_winner(&b, Target::All(None), &pos, 0);
    assert_eq!(r.plays[0].card, Card { suit: Suit::Hearts, rank: 14 });
    assert_eq!(r.plays[0].score, TrickCount::new(0));
}

#[test]
fn cards_only_target_scores_nothing() {
    let b = board(
        [hand(&[], &[], &[], &[14]), hand(&[], &[], &[2], &[]), hand(&[], &[2], &[], &[]), hand(&[2], &[], &[], &[])],
        Strain::Notrump,
        Seat::North,
        &[],
    );
    let pos = pos_from_board(&b);
    let r = last_trick_winner(&b, Target::Any(Some(TrickCount::new(0))), &pos, 4);
    assert_eq!(r.plays[0].score, TrickCount::new(0));
}

const ALL13: &[u8] = &[2, 3, 4, 5, 6, 7, 8, 9, 10, 11, 12, 13, 14];

/// Each seat holds one full suit: N spades, E hearts, S diamonds, W clubs.
fn straight_flush_hands() -> [Hand; 4] {
    [hand(&[], &[], &[], ALL13), hand(&[], &[], ALL13, &[]), hand(&[], ALL13, &[], &[]), hand(ALL13, &[], &[], &[])]
}

fn solve(strain: Strain, board: Board, target: Target) -> pons_dds::play::FoundPlays {
    solve_board_on(&mut Engine::new(strain), &mut TransTable::new(), &Objective { board, target })
}

/// With spades trump and North (who holds all thirteen spades) on lead,
/// the whole suit is one sequence: one group, the ace with every lower
/// spade as an equal, scoring 13.
#[test]
fn straight_flush_lead_wins_everything() {
    let b = board(straight_flush_hands(), Strain::Spades, Seat::North, &[]);
    let found = solve(Strain::Spades, b, Target::Any(None));
    assert_eq!(found.plays.len(), 1);
    let play = found.plays[0];
    assert_eq!(play.card.suit, Suit::Spades);
    assert_eq!(play.card.rank, 14);
    assert_eq!(play.score.get(), 13);
    // Equals: king down to two, the full suit but the ace.
    assert_eq!(play.equals, Holding::from_bits_truncate(0x7FFC & !(1 << 14)));
}

/// Mid-trick: North leads the ace of spades under hearts trumps; East
/// (all hearts) is on move and ruffs everything: 13 tricks for East-West,
/// the current one included.
#[test]
fn mid_trick_ruff_takes_all() {
    let mut hands = straight_flush_hands();
    hands[0] = hand(&[], &[], &[], &[2, 3, 4, 5, 6, 7, 8, 9, 10, 11, 12, 13]);
    let b = board(hands, Strain::Hearts, Seat::North, &[Card { suit: Suit::Spades, rank: 14 }]);
    let found = solve(Strain::Hearts, b, Target::Any(None));
    assert_eq!(found.plays.len(), 1);
    let play = found.plays[0];
    assert_eq!(play.card.suit, Suit::Hearts);
    assert_eq!(play.score.get(), 13, "East ruffs and runs trumps");
}

/// At notrump with West on lead, the defending side East-West takes 8
/// tricks (13 less the North-South declarer's 5) on the reference deal.
#[test]
fn reference_pbn_lead_score() {
    // N:.63.AKQ987.A9732 A8654.KQ5.T.QJT6 J973.J98742.3.K4 KQT2.AT.J6542.85
    let hands = [
        hand(&[14, 9, 7, 3, 2], &[14, 13, 12, 9, 8, 7], &[6, 3], &[]),
        hand(&[12, 11, 10, 6], &[10], &[13, 12, 5], &[14, 8, 6, 5, 4]),
        hand(&[13, 4], &[3], &[11, 9, 8, 7, 4, 2], &[11, 9, 7, 3]),
        hand(&[8, 5], &[11, 6, 5, 4, 2], &[14, 10], &[13, 12, 10, 2]),
    ];
    let found = solve(Strain::Notrump, board(hands, Strain::Notrump, Seat::West, &[]), Target::Any(None));
    assert_eq!(found.plays.len(), 1);
    assert_eq!(found.plays[0].score.get(), 8);

    // Legal agrees on the maximum and scores every legal group.
    let legal = solve(Strain::Notrump, board(hands, Strain::Notrump, Seat::West, &[]), Target::Legal);
    assert_eq!(legal.plays.iter().map(|p| p.score.get()).max(), Some(8), "Legal's best score must match Any(None)");
    assert!(legal.plays.len() >= 8, "West has many distinct groups");
    assert!(legal.plays.windows(2).all(|w| w[0].score.get() >= w[1].score.get()), "Legal output must be sorted by descending score");
}

/// An empty board gives no plays, and so does a target above the tricks
/// left.
#[test]
fn nothing_to_solve_gives_no_plays() {
    let empty = [hand(&[], &[], &[], &[]), hand(&[], &[], &[], &[]), hand(&[], &[], &[], &[]), hand(&[], &[], &[], &[])];
    let found = solve(Strain::Notrump, board(empty, Strain::Notrump, Seat::North, &[]), Target::Legal);
    assert!(found.plays.is_empty());
    assert_eq!(found.nodes, 0);
    let b = board(straight_flush_hands(), Strain::Spades, Seat::North, &[]);
    let found = solve(Strain::Spades, b, Target::Any(Some(TrickCount::new(13))));
    assert_eq!(found.plays.len(), 1);
    assert_eq!(found.plays[0].score.get(), 13);
}
