use pons_dds::board::Target;
use pons_dds::tricks::TrickCount;

#[test]
fn target_encoding() {
    assert_eq!(Target::Any(None).target(), -1);
    assert_eq!(Target::Any(Some(TrickCount::new(5))).target(), 5);
    assert_eq!(Target::Any(None).solutions(), 1);
    assert_eq!(Target::All(None).solutions(), 2);
    assert_eq!(Target::Legal.solutions(), 3);
    assert_eq!(Target::Legal.target(), -1);
}

use pons_dds::board::{Board, BoardError, CurrentTrick, CurrentTrickError, RevokePosition};
use pons_dds::bridge::{Card, Hand, PartialDeal, Seat, Strain, Suit};

const ALL: u16 = 0x7FFC;

fn card(suit: Suit, rank: u8) -> Card {
    Card { suit, rank }
}

/// A hand from its holdings in spades, hearts, diamonds and clubs.
fn hand(s: u16, h: u16, d: u16, c: u16) -> Hand {
    Hand([c, d, h, s])
}

/// N spades, E hearts, S diamonds, W clubs.
fn straight_flush_deal() -> PartialDeal {
    PartialDeal([hand(ALL, 0, 0, 0), hand(0, ALL, 0, 0), hand(0, 0, ALL, 0), hand(0, 0, 0, ALL)])
}

#[test]
fn board_at_trick_start() {
    let board = Board::try_new(straight_flush_deal(), CurrentTrick::new(Strain::Notrump, Seat::East))
        .expect("valid start-of-trick board");
    assert_eq!(board.leader(), Seat::East);
    assert!(board.current_cards().is_empty());
}

#[test]
fn board_mid_trick_validation() {
    let full = straight_flush_deal();
    let trick = CurrentTrick::from_slice(Strain::Notrump, Seat::East, &[card(Suit::Hearts, 14)]).expect("one-card trick");
    assert_eq!(Board::try_new(full, trick.clone()).err(), Some(BoardError::PlayedCardInHand));

    // Take the heart ace out of East's hand: East 12 cards, the others 13.
    let mut remaining = full;
    remaining.0[1] = hand(0, ALL & !(1 << 14), 0, 0);
    let board = Board::try_new(remaining, trick).expect("valid mid-trick board");
    assert_eq!(board.current_cards().len(), 1);

    let wrong_leader =
        CurrentTrick::from_slice(Strain::Notrump, Seat::South, &[card(Suit::Hearts, 14)]).expect("one-card trick");
    assert_eq!(Board::try_new(remaining, wrong_leader).err(), Some(BoardError::InconsistentHandSizes));

    // Two-card ending after West's club king and North's spade ace, North
    // still holding the club deuce: N ♣2, E ♥AK, S ♦AK, W ♣Q.
    let after = PartialDeal([
        hand(0, 0, 0, 1 << 2),
        hand(0, (1 << 14) | (1 << 13), 0, 0),
        hand(0, 0, (1 << 14) | (1 << 13), 0),
        hand(0, 0, 0, 1 << 12),
    ]);
    let revoke = CurrentTrick::from_slice(
        Strain::Notrump,
        Seat::West,
        &[card(Suit::Clubs, 13), card(Suit::Spades, 14)],
    )
    .expect("two-card trick");
    assert_eq!(
        Board::try_new(after, revoke).err(),
        Some(BoardError::Revoke { position: RevokePosition::Second })
    );
}

#[test]
fn current_trick_validation() {
    let mut trick = CurrentTrick::new(Strain::Spades, Seat::North);
    trick.try_push(card(Suit::Clubs, 2)).expect("first card");
    assert_eq!(trick.try_push(card(Suit::Clubs, 2)), Err(CurrentTrickError::DuplicatePlayedCard));
    trick.try_push(card(Suit::Clubs, 3)).expect("second card");
    trick.try_push(card(Suit::Clubs, 4)).expect("third card");
    assert_eq!(trick.try_push(card(Suit::Clubs, 5)), Err(CurrentTrickError::TooManyPlayed));
    assert_eq!(trick.led_suit(), Some(Suit::Clubs));
    assert_eq!(trick.len(), 3);
}
