//! Solving input: boards, tricks in progress, targets and objectives.
use vstd::prelude::*;
use crate::bits::{bit, lemma_bit_and, lemma_zero_iff_no_bits};
use crate::bridge::{Card, Hand, PartialDeal, Seat, Strain, Suit, seat_index, seat_of, suit_index};
use crate::tricks::TrickCount;

verus! {

/// Target tricks and number of solutions to find.
#[derive(Debug, Clone, Copy, PartialEq, Eq)]
pub enum Target {
    /// Any card scoring at least the count (`Some`), or the most (`None`).
    Any(Option<TrickCount>),
    /// All cards scoring at least the count (`Some`), or the most (`None`).
    All(Option<TrickCount>),
    /// All legal plays, with their scores.
    Legal,
}

impl Target {
    /// Validity: a given trick count is at most thirteen.
    pub open spec fn wf(self) -> bool {
        match self {
            Target::Any(Some(tc)) => tc.wf(),
            Target::All(Some(tc)) => tc.wf(),
            _ => true,
        }
    }

    /// The DDS `target` argument: the minimum trick count, or `-1` for
    /// "find the most tricks".
    pub open spec fn spec_target(self) -> int {
        match self {
            Target::Any(Some(tc)) => tc.value() as int,
            Target::All(Some(tc)) => tc.value() as int,
            _ => -1,
        }
    }

    /// The DDS `solutions` argument: 1 for any, 2 for all, 3 for legal.
    pub open spec fn spec_solutions(self) -> int {
        match self {
            Target::Any(_) => 1,
            Target::All(_) => 2,
            Target::Legal => 3,
        }
    }

    /// The DDS `target` argument.
    pub fn target(self) -> (r: i32)
        requires
            self.wf(),
        ensures
            r == self.spec_target(),
    {
        match self {
            Target::Any(Some(tc)) => tc.get() as i32,
            Target::All(Some(tc)) => tc.get() as i32,
            Target::Any(None) => -1,
            Target::All(None) => -1,
            Target::Legal => -1,
        }
    }

    /// The DDS `solutions` argument.
    pub fn solutions(self) -> (r: i32)
        ensures
            r == self.spec_solutions(),
    {
        match self {
            Target::Any(_) => 1,
            Target::All(_) => 2,
            Target::Legal => 3,
        }
    }
}

/// Position of the revoking card within the current trick.
#[derive(Debug, Clone, Copy, PartialEq, Eq, Structural)]
pub enum RevokePosition {
    Second,
    Third,
    Fourth,
}

/// Error returned when constructing a [`Board`] with invalid invariants.
#[derive(Debug, Clone, Copy, PartialEq, Eq, Structural)]
pub enum BoardError {
    /// A card on the table is still present in one of the remaining hands.
    PlayedCardInHand,
    /// The remaining hand sizes do not match the number of played cards.
    InconsistentHandSizes,
    /// A played card does not follow suit though the player held the led suit.
    Revoke { position: RevokePosition },
}

/// Error returned when pushing cards to a [`CurrentTrick`].
#[derive(Debug, Clone, Copy, PartialEq, Eq, Structural)]
pub enum CurrentTrickError {
    /// More than three cards are on the table.
    TooManyPlayed,
    /// The same card appears twice among the played cards.
    DuplicatePlayedCard,
}

/// Trick in progress: 0 to 3 cards played, in playing order from `leader`.
#[derive(Debug, Clone)]
pub struct CurrentTrick {
    trump: Strain,
    leader: Seat,
    cards: Vec<Card>,
    seen: Hand,
}

impl CurrentTrick {
    /// The cards played so far, in playing order.
    pub closed spec fn played(self) -> Seq<Card> {
        self.cards@
    }

    /// The strain of the contract.
    pub closed spec fn spec_trump(self) -> Strain {
        self.trump
    }

    /// The seat that led the trick.
    pub closed spec fn spec_leader(self) -> Seat {
        self.leader
    }

    /// The union of the played cards.
    pub closed spec fn spec_seen(self) -> Hand {
        self.seen
    }

    /// Invariant: at most three valid, pairwise distinct cards, and `seen`
    /// holds exactly them.
    pub closed spec fn wf(self) -> bool {
        &&& self.cards@.len() <= 3
        &&& forall|i: int| 0 <= i < self.cards@.len() ==> (#[trigger] self.cards@[i]).wf()
        &&& forall|i: int, j: int|
            0 <= i < j < self.cards@.len() ==> self.cards@[i] != self.cards@[j]
        &&& forall|c: Card| c.wf() ==> (self.seen.has(c) <==> self.cards@.contains(c))
        &&& self.seen.valid()
    }

    /// Validity as seen from outside: at most three valid distinct cards.
    pub proof fn lemma_wf(self)
        requires
            self.wf(),
        ensures
            self.played().len() <= 3,
            forall|i: int| 0 <= i < self.played().len() ==> (#[trigger] self.played()[i]).wf(),
            forall|i: int, j: int|
                0 <= i < j < self.played().len() ==> self.played()[i] != self.played()[j],
            forall|c: Card| c.wf() ==> (self.spec_seen().has(c) <==> self.played().contains(c)),
            self.spec_seen().valid(),
    {
    }

    /// Empty trick led by `leader` under `trump`.
    pub fn new(trump: Strain, leader: Seat) -> (r: CurrentTrick)
        ensures
            r.wf(),
            r.played() == Seq::<Card>::empty(),
            r.spec_trump() == trump,
            r.spec_leader() == leader,
    {
        let seen = Hand::empty();
        CurrentTrick { trump, leader, cards: Vec::new(), seen }
    }

    /// Append one card to the trick.
    pub fn try_push(&mut self, card: Card) -> (r: Result<(), CurrentTrickError>)
        requires
            old(self).wf(),
            card.wf(),
        ensures
            final(self).wf(),
            final(self).spec_trump() == old(self).spec_trump(),
            final(self).spec_leader() == old(self).spec_leader(),
            old(self).played().len() == 3 <==> r == Err::<(), _>(
                CurrentTrickError::TooManyPlayed,
            ),
            (old(self).played().len() < 3 && old(self).played().contains(card)) <==> r == Err::<
                (),
                _,
            >(CurrentTrickError::DuplicatePlayedCard),
            r is Ok ==> final(self).played() == old(self).played().push(card),
            r is Err ==> final(self).played() == old(self).played(),
    {
        if self.cards.len() == 3 {
            return Err(CurrentTrickError::TooManyPlayed);
        }
        let ghost before = *self;
        let fresh = self.seen.insert(card);
        if !fresh {
            assert(before.cards@.contains(card));
            return Err(CurrentTrickError::DuplicatePlayedCard);
        }
        self.cards.push(card);
        assert forall|c: Card| c.wf() implies (self.seen.has(c) <==> self.cards@.contains(c)) by {
            if c != card {
                if self.cards@.contains(c) {
                    let k = choose|k: int| 0 <= k < self.cards@.len() && self.cards@[k] == c;
                    assert(before.cards@[k] == c);
                }
                if before.cards@.contains(c) {
                    let k = choose|k: int| 0 <= k < before.cards@.len() && before.cards@[k] == c;
                    assert(self.cards@[k] == c);
                }
            } else {
                assert(self.cards@[self.cards@.len() - 1] == card);
            }
        }
        assert forall|i: int, j: int| 0 <= i < j < self.cards@.len() implies self.cards@[i]
            != self.cards@[j] by {
            if j == self.cards@.len() - 1 {
                assert(before.cards@[i] == self.cards@[i]);
                assert(!before.cards@.contains(card));
            }
        }
        Ok(())
    }

    /// Build from a slice, validating the length and distinctness.
    pub fn from_slice(trump: Strain, leader: Seat, played: &[Card]) -> (r: Result<
        CurrentTrick,
        CurrentTrickError,
    >)
        requires
            forall|i: int| 0 <= i < played@.len() ==> (#[trigger] played@[i]).wf(),
        ensures
            r matches Ok(t) ==> t.wf() && t.played() == played@ && t.spec_trump() == trump
                && t.spec_leader() == leader,
            r is Ok <==> (played@.len() <= 3 && forall|i: int, j: int|
                0 <= i < j < played@.len() ==> played@[i] != played@[j]),
    {
        let mut trick = CurrentTrick::new(trump, leader);
        let mut k: usize = 0;
        while k < played.len()
            invariant
                k <= played@.len(),
                forall|i: int| 0 <= i < played@.len() ==> (#[trigger] played@[i]).wf(),
                trick.wf(),
                trick.played() == played@.subrange(0, k as int),
                trick.spec_trump() == trump,
                trick.spec_leader() == leader,
            decreases played@.len() - k,
        {
            let res = trick.try_push(played[k]);
            match res {
                Ok(()) => {},
                Err(e) => {
                    proof {
                        if e == CurrentTrickError::TooManyPlayed {
                            assert(played@.len() > 3);
                        } else {
                            let ghost pre = played@.subrange(0, k as int);
                            let j = choose|j: int| 0 <= j < pre.len() && pre[j] == played@[k as int];
                            assert(played@[j] == played@[k as int]);
                        }
                    }
                    return Err(e);
                },
            }
            assert(played@.subrange(0, k as int).push(played@[k as int]) == played@.subrange(
                0,
                k + 1,
            ));
            k = k + 1;
        }
        assert(played@.subrange(0, played@.len() as int) == played@);
        proof {
            trick.lemma_wf();
        }
        Ok(trick)
    }

    /// Strain of the contract governing this trick.
    pub fn trump(&self) -> (r: Strain)
        ensures
            r == self.spec_trump(),
    {
        self.trump
    }

    /// Seat that led this trick.
    pub fn leader(&self) -> (r: Seat)
        ensures
            r == self.spec_leader(),
    {
        self.leader
    }

    /// Cards played so far, in playing order.
    pub fn cards(&self) -> (r: &[Card])
        ensures
            r@ == self.played(),
    {
        self.cards.as_slice()
    }

    /// Number of cards played so far.
    pub fn len(&self) -> (r: usize)
        ensures
            r == self.played().len(),
    {
        self.cards.len()
    }

    /// Whether no card has been played yet.
    pub fn is_empty(&self) -> (r: bool)
        ensures
            r == (self.played().len() == 0),
    {
        self.cards.len() == 0
    }

    /// The union of the cards played so far.
    pub fn seen(&self) -> (r: Hand)
        ensures
            r == self.spec_seen(),
    {
        self.seen
    }

    /// Suit led to this trick, or `None` if no card has been played.
    pub fn led_suit(&self) -> (r: Option<Suit>)
        ensures
            r == (if self.played().len() == 0 {
                None::<Suit>
            } else {
                Some(self.played()[0].suit)
            }),
    {
        if self.cards.len() == 0 {
            None
        } else {
            Some(self.cards[0].suit)
        }
    }
}

/// Whether some card on the table is still held by one of the hands.
pub open spec fn played_card_in_hand(trick: CurrentTrick, remaining: PartialDeal) -> bool {
    exists|i: int| 0 <= i < trick.played().len() && remaining.holds(#[trigger] trick.played()[i])
}

/// The seat playing the `j`-th card of a trick led by `leader`.
pub open spec fn trick_seat(leader: Seat, j: int) -> Seat {
    seat_of(seat_index(leader) + j)
}

/// The seats from `leader` on that have played to the trick hold one card
/// fewer than the others, which all hold as many as the leader's RHO.
pub open spec fn hand_sizes_consistent(trick: CurrentTrick, remaining: PartialDeal) -> bool {
    forall|j: int|
        0 <= j < 4 ==> #[trigger] remaining.hand(trick_seat(trick.spec_leader(), j)).len() + (if j
            < trick.played().len() {
            1nat
        } else {
            0nat
        }) == remaining.hand(trick_seat(trick.spec_leader(), 3)).len()
}

/// The `j`-th card of the trick revokes: it does not follow the led suit
/// though its player still holds that suit.
pub open spec fn revokes_at(trick: CurrentTrick, remaining: PartialDeal, j: int) -> bool {
    1 <= j < trick.played().len() && trick.played()[j].suit != trick.played()[0].suit
        && remaining.hand(trick_seat(trick.spec_leader(), j)).has_suit(trick.played()[0].suit)
}

/// The revoke position of card index `j` (1, 2 or 3).
pub open spec fn revoke_position(j: int) -> RevokePosition {
    if j == 1 {
        RevokePosition::Second
    } else if j == 2 {
        RevokePosition::Third
    } else {
        RevokePosition::Fourth
    }
}

/// A snapshot of a board: the trick in progress and the remaining hands.
#[derive(Debug, Clone)]
pub struct Board {
    current_trick: CurrentTrick,
    remaining: PartialDeal,
}

impl Board {
    /// The trick in progress.
    pub closed spec fn spec_trick(self) -> CurrentTrick {
        self.current_trick
    }

    /// The remaining hands.
    pub closed spec fn spec_remaining(self) -> PartialDeal {
        self.remaining
    }

    /// Build a board from the remaining hands and the trick in progress,
    /// checking in turn that no played card is still held, that the hand
    /// sizes follow the leader pattern, and that no card revokes.
    pub fn try_new(remaining: PartialDeal, current_trick: CurrentTrick) -> (r: Result<
        Board,
        BoardError,
    >)
        requires
            current_trick.wf(),
        ensures
            played_card_in_hand(current_trick, remaining) <==> r == Err::<Board, _>(
                BoardError::PlayedCardInHand,
            ),
            (!played_card_in_hand(current_trick, remaining) && !hand_sizes_consistent(
                current_trick,
                remaining,
            )) <==> r == Err::<Board, _>(BoardError::InconsistentHandSizes),
            r matches Err(BoardError::Revoke { position }) ==> !played_card_in_hand(
                current_trick,
                remaining,
            ) && hand_sizes_consistent(current_trick, remaining) && exists|j: int|
                #![trigger revokes_at(current_trick, remaining, j)]
                revokes_at(current_trick, remaining, j) && position == revoke_position(j) && forall|
                    i: int,
                | 1 <= i < j ==> !revokes_at(current_trick, remaining, i),
            r is Ok <==> (!played_card_in_hand(current_trick, remaining) && hand_sizes_consistent(
                current_trick,
                remaining,
            ) && forall|j: int| !revokes_at(current_trick, remaining, j)),
            r matches Ok(b) ==> b.spec_trick() == current_trick && b.spec_remaining() == remaining,
    {
        proof {
            current_trick.lemma_wf();
        }
        let seen = current_trick.seen();
        let all = remaining.collected();
        let mut s: usize = 0;
        while s < 4
            invariant
                s <= 4,
                current_trick.wf(),
                seen == current_trick.spec_seen(),
                forall|c: Card| c.wf() ==> (all.has(c) <==> remaining.holds(c)),
                forall|c: Card|
                    c.wf() && suit_index(c.suit) < s ==> !(seen.has(c) && all.has(c)),
            decreases 4 - s,
        {
            let x = seen.0[s] & all.0[s];
            if x != 0 {
                proof {
                    lemma_zero_iff_no_bits(x);
                    let i = choose|i: nat| i < 16 && bit(x, i);
                    lemma_bit_and(seen.0[s as int], all.0[s as int], i);
                    let suit = if s == 0 {
                        Suit::Clubs
                    } else if s == 1 {
                        Suit::Diamonds
                    } else if s == 2 {
                        Suit::Hearts
                    } else {
                        Suit::Spades
                    };
                    assert(2 <= i <= 14) by {
                        current_trick.lemma_wf();
                        assert(bit(seen.0[s as int], i));
                    }
                    let c = Card { suit, rank: i as u8 };
                    assert(suit_index(c.suit) == s);
                    assert(c.wf());
                    assert(seen.has(c));
                    assert(all.has(c));
                    current_trick.lemma_wf();
                    assert(current_trick.played().contains(c));
                    let k = choose|k: int|
                        0 <= k < current_trick.played().len() && current_trick.played()[k] == c;
                    assert(remaining.holds(current_trick.played()[k]));
                    assert(played_card_in_hand(current_trick, remaining));
                }
                return Err(BoardError::PlayedCardInHand);
            }
            proof {
                lemma_zero_iff_no_bits(x);
                assert forall|c: Card| c.wf() && suit_index(c.suit) < s + 1 implies !(seen.has(c)
                    && all.has(c)) by {
                    if suit_index(c.suit) == s {
                        lemma_bit_and(seen.0[s as int], all.0[s as int], c.rank as nat);
                    }
                }
            }
            s = s + 1;
        }
        assert(!played_card_in_hand(current_trick, remaining)) by {
            if played_card_in_hand(current_trick, remaining) {
                let k = choose|k: int|
                    0 <= k < current_trick.played().len() && remaining.holds(
                        #[trigger] current_trick.played()[k],
                    );
                let c = current_trick.played()[k];
                assert(current_trick.played().contains(c));
                assert(seen.has(c));
            }
        }
        let leader = current_trick.leader();
        let seats: [Seat; 4] = [leader, leader.lho(), leader.partner(), leader.rho()];
        assert forall|j: int| 0 <= j < 4 implies seats[j] == #[trigger] trick_seat(leader, j) by {
            crate::board::lemma_seat_of_index(seats[j], seat_index(leader) + j);
        }
        let index = current_trick.len();
        let full_len = remaining.0[leader.rho().index()].count();
        let mut j: usize = 0;
        while j < 4
            invariant
                j <= 4,
                index == current_trick.played().len(),
                !played_card_in_hand(current_trick, remaining),
                full_len == remaining.hand(trick_seat(leader, 3)).len(),
                leader == current_trick.spec_leader(),
                forall|k: int| 0 <= k < 4 ==> seats[k] == #[trigger] trick_seat(leader, k),
                forall|k: int|
                    0 <= k < j ==> #[trigger] remaining.hand(trick_seat(leader, k)).len() + (if k
                        < current_trick.played().len() {
                        1nat
                    } else {
                        0nat
                    }) == remaining.hand(trick_seat(leader, 3)).len(),
            decreases 4 - j,
        {
            let n = remaining.0[seats[j].index()].count();
            let extra: usize = if j < index {
                1
            } else {
                0
            };
            if n + extra != full_len {
                assert(!hand_sizes_consistent(current_trick, remaining)) by {
                    assert(remaining.hand(trick_seat(leader, j as int)).len() == n);
                }
                return Err(BoardError::InconsistentHandSizes);
            }
            j = j + 1;
        }
        assert(hand_sizes_consistent(current_trick, remaining));
        let led = current_trick.led_suit();
        match led {
            Some(led_suit) => {
                let cards = current_trick.cards();
                let mut k: usize = 1;
                while k < cards.len()
                    invariant
                        1 <= k <= cards@.len(),
                        cards@ == current_trick.played(),
                        !played_card_in_hand(current_trick, remaining),
                        hand_sizes_consistent(current_trick, remaining),
                        cards@.len() <= 3,
                        cards@.len() > 0,
                        led_suit == cards@[0].suit,
                        leader == current_trick.spec_leader(),
                        forall|m: int| 0 <= m < 4 ==> seats[m] == #[trigger] trick_seat(leader, m),
                        forall|i: int| 1 <= i < k ==> !revokes_at(current_trick, remaining, i),
                    decreases cards@.len() - k,
                {
                    let card = cards[k];
                    if card.suit != led_suit && remaining.0[seats[k].index()].0[led_suit.index()]
                        != 0 {
                        let position = if k == 1 {
                            RevokePosition::Second
                        } else if k == 2 {
                            RevokePosition::Third
                        } else {
                            RevokePosition::Fourth
                        };
                        assert(revokes_at(current_trick, remaining, k as int));
                        return Err(BoardError::Revoke { position });
                    }
                    k = k + 1;
                }
                assert forall|j: int| !revokes_at(current_trick, remaining, j) by {
                    if 1 <= j < cards@.len() {
                    }
                }
            },
            None => {
                assert forall|j: int| !revokes_at(current_trick, remaining, j) by {}
            },
        }
        Ok(Board { current_trick, remaining })
    }

    /// Strain of the contract.
    pub fn trump(&self) -> (r: Strain)
        ensures
            r == self.spec_trick().spec_trump(),
    {
        self.current_trick.trump()
    }

    /// Seat leading the current trick.
    pub fn leader(&self) -> (r: Seat)
        ensures
            r == self.spec_trick().spec_leader(),
    {
        self.current_trick.leader()
    }

    /// Cards already played to the current trick.
    pub fn current_cards(&self) -> (r: &[Card])
        ensures
            r@ == self.spec_trick().played(),
    {
        self.current_trick.cards()
    }

    /// The current trick.
    pub fn current_trick(&self) -> (r: &CurrentTrick)
        ensures
            *r == self.spec_trick(),
    {
        &self.current_trick
    }

    /// Remaining cards in each hand.
    pub fn remaining(&self) -> (r: &PartialDeal)
        ensures
            *r == self.spec_remaining(),
    {
        &self.remaining
    }
}

/// A board and its solving target.
#[derive(Debug, Clone)]
pub struct Objective {
    pub board: Board,
    pub target: Target,
}

/// `seat_of` inverts `seat_index` modulo four.
proof fn lemma_seat_of_index(s: Seat, i: int)
    requires
        i >= 0,
        seat_index(s) == i % 4,
    ensures
        seat_of(i) == s,
{
}

} // verus!
