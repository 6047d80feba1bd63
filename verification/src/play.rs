//! Solved plays and play traces.
use vstd::prelude::*;
use crate::board::Board;
use crate::bridge::{Card, Holding, Seat};
use crate::tricks::TrickCount;

verus! {

/// A play and its consequences.
#[derive(Debug, Clone, Copy, PartialEq, Eq, Structural)]
pub struct Play {
    /// The card to play, the highest of its sequence.
    pub card: Card,
    /// The lower cards of the same sequence, which play equally well.
    pub equals: Holding,
    /// Tricks this play scores.
    pub score: TrickCount,
}

/// Solved plays for a board.
#[derive(Debug, Clone, PartialEq, Eq)]
pub struct FoundPlays {
    /// The plays and their consequences, at most thirteen.
    pub plays: Vec<Play>,
    /// The number of nodes searched.
    pub nodes: u32,
}

impl FoundPlays {
    /// No plays, no nodes.
    pub fn empty() -> (r: FoundPlays)
        ensures
            r.plays@.len() == 0,
            r.nodes == 0,
    {
        FoundPlays { plays: Vec::new(), nodes: 0 }
    }
}

/// A starting board and the cards played from it, in order.
#[derive(Debug, Clone)]
pub struct PlayTrace {
    /// The snapshot the analysis starts from.
    pub board: Board,
    /// The cards played after the snapshot, at most 52.
    pub cards: Vec<Card>,
}

/// Trick counts before and after each card of a trace.
#[derive(Debug, Clone, PartialEq, Eq)]
pub struct PlayAnalysis {
    /// One more entry than the trace has cards.
    pub tricks: Vec<TrickCount>,
}

/// The way a trace card is illegal.
#[derive(Debug, Clone, Copy, PartialEq, Eq, Structural)]
pub enum PlayFaultKind {
    /// The player on turn does not hold the card.
    NotHeld,
    /// The player failed to follow suit while holding the led suit.
    Revoke,
}

/// An illegal card of a trace.
#[derive(Debug, Clone, Copy, PartialEq, Eq, Structural)]
pub struct PlayFaultError {
    /// The index of the card in the trace.
    pub index: usize,
    /// The seat that was on turn.
    pub seat: Seat,
    /// The offending card.
    pub card: Card,
    /// How the card is illegal.
    pub kind: PlayFaultKind,
}

} // verus!
