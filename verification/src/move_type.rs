//! Move representation used during search.
use vstd::prelude::*;

verus! {

/// A candidate move: suit (0 spades … 3 clubs), rank (2..=14), the lower
/// ranks of its run that are equivalent to it, and a heuristic weight.
#[derive(Clone, Copy, Debug, PartialEq, Eq, Structural)]
pub struct MoveType {
    pub suit: i32,
    pub rank: i32,
    pub sequence: i32,
    pub weight: i32,
}

impl MoveType {
    /// The all-zero move.
    pub open spec fn zero_spec() -> MoveType {
        MoveType { suit: 0, rank: 0, sequence: 0, weight: 0 }
    }

    /// The all-zero move.
    pub fn zero() -> (r: MoveType)
        ensures
            r == (MoveType { suit: 0, rank: 0, sequence: 0, weight: 0 }),
    {
        MoveType { suit: 0, rank: 0, sequence: 0, weight: 0 }
    }
}

impl Default for MoveType {
    fn default() -> (r: MoveType)
        ensures
            r == (MoveType { suit: 0, rank: 0, sequence: 0, weight: 0 }),
    {
        MoveType::zero()
    }
}

/// Fixed-capacity move list of one ply: the candidate moves, the index of
/// the next one to return and the index of the last valid one.
#[derive(Clone, Copy, Debug)]
pub struct MovePly {
    pub moves: [MoveType; 14],
    pub current: i32,
    pub last: i32,
}

impl MovePly {
    /// An empty list: no valid move, cursor at the start.
    pub fn empty() -> (r: MovePly)
        ensures
            r.current == 0,
            r.last == -1,
            forall|i: int| 0 <= i < 14 ==> r.moves[i] == (MoveType {
                suit: 0,
                rank: 0,
                sequence: 0,
                weight: 0,
            }),
    {
        MovePly { moves: [MoveType::zero(); 14], current: 0, last: -1 }
    }
}

impl Default for MovePly {
    fn default() -> (r: MovePly)
        ensures
            r.current == 0,
            r.last == -1,
    {
        MovePly::empty()
    }
}

/// A card identified by its rank and the hand holding it.
#[derive(Clone, Copy, Debug, PartialEq, Eq, Structural)]
pub struct HighCard {
    pub rank: i32,
    pub hand: i32,
}

impl HighCard {
    /// Rank 0 held by hand 0.
    pub fn zero() -> (r: HighCard)
        ensures
            r == (HighCard { rank: 0, hand: 0 }),
    {
        HighCard { rank: 0, hand: 0 }
    }
}

impl Default for HighCard {
    fn default() -> (r: HighCard)
        ensures
            r == (HighCard { rank: 0, hand: 0 }),
    {
        HighCard::zero()
    }
}

} // verus!
