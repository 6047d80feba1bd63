use pons_dds::tricks::{InvalidTrickCount, TrickCount, TrickCountRow};

#[test]
fn validation() {
    assert_eq!(TrickCount::try_new(14), Err(InvalidTrickCount));
    assert_eq!(TrickCount::try_new(13).map(TrickCount::get), Ok(13));
    assert!(TrickCountRow::try_new(0, 14, 0, 0).is_err());
}

use pons_dds::bridge::{Seat, Strain};
use pons_dds::tricks::TrickCountTable;

#[test]
fn gib_round_trip() {
    const TAIL: &str = "65658888888843433232";
    let table = TrickCountTable::from_gib(TAIL.as_bytes());
    assert_eq!(table.gib().digits(), TAIL.as_bytes().to_vec());
    assert_eq!(table.row(Strain::Clubs).get(Seat::East).get(), 10);
    assert_eq!(table.row(Strain::Spades).get(Seat::North).get(), 8);
}

#[test]
fn row_packing_and_hex() {
    let row = TrickCountRow::new(13, 0, 12, 1);
    assert_eq!(row.get(Seat::North).get(), 13);
    assert_eq!(row.get(Seat::East).get(), 0);
    assert_eq!(row.get(Seat::South).get(), 12);
    assert_eq!(row.get(Seat::West).get(), 1);
    assert_eq!(row.hex(Seat::North).digits(), b"D0C1".to_vec());
    assert_eq!(row.hex(Seat::East).digits(), b"0C1D".to_vec());
}

#[test]
fn trick_counts_convert_to_integers() {
    let tc = TrickCount::new(11);
    assert_eq!(u8::from(tc), 11);
    assert_eq!(usize::from(tc), 11);
}

#[test]
fn table_hex_walks_the_listed_strains() {
    let row = TrickCountRow::new(13, 0, 12, 1);
    let other = TrickCountRow::new(1, 2, 3, 4);
    let table = TrickCountTable([other, other, other, row, other]);
    let hex = table.hex(Seat::North, vec![Strain::Spades, Strain::Clubs]);
    assert_eq!(hex.digits(), b"D0C11234".to_vec());
}
