use pons_dds::bridge::Strain;
use pons_dds::strain_flags::{NonEmptyStrainFlags, StrainFlags};

#[test]
fn from_strain_bit_alignment() {
    assert_eq!(StrainFlags::from_strain(Strain::Clubs), StrainFlags::from_bits_truncate(0x01));
    assert_eq!(StrainFlags::from_strain(Strain::Diamonds), StrainFlags::from_bits_truncate(0x02));
    assert_eq!(StrainFlags::from_strain(Strain::Hearts), StrainFlags::from_bits_truncate(0x04));
    assert_eq!(StrainFlags::from_strain(Strain::Spades), StrainFlags::from_bits_truncate(0x08));
    assert_eq!(StrainFlags::from_strain(Strain::Notrump), StrainFlags::from_bits_truncate(0x10));
    assert_eq!(NonEmptyStrainFlags::new(StrainFlags::empty()), None);
    assert_eq!(NonEmptyStrainFlags::new(StrainFlags::all()), Some(NonEmptyStrainFlags::all()));
}

#[test]
fn strain_flags_convert_and_select() {
    assert_eq!(StrainFlags::from(Strain::Hearts).bits(), 0x04);
    let all = NonEmptyStrainFlags::all();
    assert_eq!(StrainFlags::from(all), StrainFlags::all());
    assert!(StrainFlags::all().contains(Strain::Notrump));
    assert!(!StrainFlags::from(Strain::Clubs).contains(Strain::Spades));
    assert_eq!(StrainFlags::from_bits_truncate(0xFF).bits(), 0x1F);
    assert!(StrainFlags::empty().is_empty());
}
