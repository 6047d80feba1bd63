use pons_dds::bridge::{Strain, Suit};
use pons_dds::convert::{dds_suit_from_cb, dds_trump_from_strain};
use pons_dds::quick_tricks::DDS_NOTRUMP;

#[test]
fn strain_to_trump_uses_dds_descending_order() {
    assert_eq!(dds_trump_from_strain(Strain::Spades), 0);
    assert_eq!(dds_trump_from_strain(Strain::Hearts), 1);
    assert_eq!(dds_trump_from_strain(Strain::Diamonds), 2);
    assert_eq!(dds_trump_from_strain(Strain::Clubs), 3);
    assert_eq!(dds_trump_from_strain(Strain::Notrump), DDS_NOTRUMP);
}

#[test]
fn suits_are_numbered_downwards() {
    assert_eq!(dds_suit_from_cb(Suit::Spades), 0);
    assert_eq!(dds_suit_from_cb(Suit::Clubs), 3);
}
