//! Suit and strain numbers of the search.
//!
//! The card types number suits upwards (clubs 0 … spades 3) while the
//! search numbers them downwards (spades 0 … clubs 3); notrump is 4 in
//! both.
use vstd::prelude::*;
use crate::bridge::{strain_index, suit_index, Strain, Suit};

verus! {

/// The search's number of `suit`: spades 0, hearts 1, diamonds 2, clubs 3.
pub fn dds_suit_from_cb(suit: Suit) -> (r: usize)
    ensures
        r == 3 - suit_index(suit),
{
    3 - suit.index()
}

/// The suit of the search's suit number `s` (spades 0 … clubs 3).
pub fn cb_suit_from_dds(s: i32) -> (r: Suit)
    requires
        0 <= s < 4,
    ensures
        suit_index(r) == 3 - s,
{
    if s == 0 {
        Suit::Spades
    } else if s == 1 {
        Suit::Hearts
    } else if s == 2 {
        Suit::Diamonds
    } else {
        Suit::Clubs
    }
}

/// The search's trump number of `strain`: its suit's number, 4 for
/// notrump.
pub open spec fn trump_number(strain: Strain) -> int {
    if strain == Strain::Notrump {
        4
    } else {
        3 - strain_index(strain)
    }
}

/// The search's trump number of `strain`: its suit's number, 4 for
/// notrump.
pub fn dds_trump_from_strain(strain: Strain) -> (r: i32)
    ensures
        r == if strain == Strain::Notrump {
            4
        } else {
            3 - strain_index(strain)
        },
        0 <= r <= 4,
{
    match strain.suit() {
        Some(suit) => dds_suit_from_cb(suit) as i32,
        None => 4,
    }
}

} // verus!
