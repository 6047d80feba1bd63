//! Strain selection flags for batch solving.
use vstd::prelude::*;
use crate::bridge::{Strain, strain_index};

verus! {

/// A set of strains: bit `i` stands for the strain with number `i`
/// (Clubs `0x01` … Notrump `0x10`).
#[derive(Debug, Clone, Copy, PartialEq, Eq, Structural)]
pub struct StrainFlags(u8);

impl StrainFlags {
    /// The bits of the set.
    pub closed spec fn spec_bits(self) -> u8 {
        self.0
    }

    /// Validity: only the five strain bits are used.
    pub open spec fn wf(self) -> bool {
        self.spec_bits() < 32
    }

    /// The flags whose bits are `bits`, dropping bits that stand for no strain.
    pub fn from_bits_truncate(bits: u8) -> (r: StrainFlags)
        ensures
            r.spec_bits() == bits & 0x1F,
            r.wf(),
    {
        let b: u8 = bits & 0x1F;
        assert(b < 32) by (bit_vector)
            requires
                b == bits & 0x1F,
        ;
        StrainFlags(b)
    }

    /// The bits of the set.
    pub fn bits(self) -> (r: u8)
        ensures
            r == self.spec_bits(),
    {
        self.0
    }

    /// The empty set.
    pub fn empty() -> (r: StrainFlags)
        ensures
            r.spec_bits() == 0,
            r.wf(),
    {
        StrainFlags(0)
    }

    /// All five strains.
    pub fn all() -> (r: StrainFlags)
        ensures
            r.spec_bits() == 0x1F,
            r.wf(),
    {
        StrainFlags(0x1F)
    }

    /// Whether no strain is selected.
    pub fn is_empty(self) -> (r: bool)
        ensures
            r == (self.spec_bits() == 0),
    {
        self.0 == 0
    }

    /// The flag of a single strain: bit number `strain_index(strain)`.
    pub closed spec fn of_strain(strain: Strain) -> StrainFlags {
        StrainFlags(1u8 << strain_index(strain) as u8)
    }

    /// The flag of a single strain: bit number `strain_index(strain)`.
    pub fn from_strain(strain: Strain) -> (r: StrainFlags)
        ensures
            r.spec_bits() == 1u8 << strain_index(strain) as u8,
            r == StrainFlags::of_strain(strain),
            r.wf(),
    {
        let i = strain.index() as u8;
        let b: u8 = match strain {
            Strain::Clubs => 0x01,
            Strain::Diamonds => 0x02,
            Strain::Hearts => 0x04,
            Strain::Spades => 0x08,
            Strain::Notrump => 0x10,
        };
        assert(b == 1u8 << i) by (bit_vector)
            requires
                i < 5,
                i == 0 ==> b == 1,
                i == 1 ==> b == 2,
                i == 2 ==> b == 4,
                i == 3 ==> b == 8,
                i == 4 ==> b == 16,
        ;
        StrainFlags(b)
    }

    /// Whether `strain` is selected.
    pub fn contains(self, strain: Strain) -> (r: bool)
        ensures
            r == (self.spec_bits() & (1u8 << strain_index(strain) as u8) != 0),
    {
        let i = strain.index() as u8;
        self.0 & (1u8 << i) != 0
    }
}

/// A guaranteed non-empty [`StrainFlags`].
#[derive(Debug, Clone, Copy, PartialEq, Eq, Structural)]
pub struct NonEmptyStrainFlags(StrainFlags);

impl NonEmptyStrainFlags {
    /// The wrapped flags.
    pub closed spec fn spec_get(self) -> StrainFlags {
        self.0
    }

    /// Validity: the wrapped set is non-empty.
    pub open spec fn wf(self) -> bool {
        self.spec_get().spec_bits() != 0
    }

    /// All strains.
    pub fn all() -> (r: NonEmptyStrainFlags)
        ensures
            r.spec_get().spec_bits() == 0x1F,
            r.wf(),
    {
        NonEmptyStrainFlags(StrainFlags::all())
    }

    /// Wrap `flags` if non-empty, otherwise `None`.
    pub fn new(flags: StrainFlags) -> (r: Option<NonEmptyStrainFlags>)
        ensures
            r is None <==> flags.spec_bits() == 0,
            r matches Some(f) ==> f.spec_get() == flags && f.wf(),
    {
        if flags.is_empty() {
            None
        } else {
            Some(NonEmptyStrainFlags(flags))
        }
    }

    /// The wrapped flags.
    pub fn get(self) -> (r: StrainFlags)
        ensures
            r == self.spec_get(),
    {
        self.0
    }
}

impl From<Strain> for StrainFlags {
    fn from(strain: Strain) -> (r: StrainFlags) {
        StrainFlags::from_strain(strain)
    }
}

impl vstd::std_specs::convert::FromSpecImpl<Strain> for StrainFlags {
    open spec fn obeys_from_spec() -> bool {
        true
    }

    open spec fn from_spec(v: Strain) -> StrainFlags {
        StrainFlags::of_strain(v)
    }
}

impl From<NonEmptyStrainFlags> for StrainFlags {
    fn from(flags: NonEmptyStrainFlags) -> (r: StrainFlags) {
        flags.get()
    }
}

impl vstd::std_specs::convert::FromSpecImpl<NonEmptyStrainFlags> for StrainFlags {
    open spec fn obeys_from_spec() -> bool {
        true
    }

    open spec fn from_spec(v: NonEmptyStrainFlags) -> StrainFlags {
        v.spec_get()
    }
}

} // verus!
