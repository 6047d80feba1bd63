//! Validated trick counts: one count ([`TrickCount`]), one strain's counts
//! for the four declarers ([`TrickCountRow`], four packed nibbles) and the
//! whole table ([`TrickCountTable`], five strains), with the GIB
//! hand-record encoding of a table and its inverse.
use vstd::prelude::*;
use crate::bridge::{Seat, Strain, seat_index, strain_index};

verus! {

/// Error returned when a trick count is outside `0..=13`.
#[derive(Debug, Clone, Copy, PartialEq, Eq, Structural)]
pub struct InvalidTrickCount;

/// A number of tricks in `0..=13`.
#[derive(Debug, Clone, Copy, PartialEq, Eq, Structural)]
pub struct TrickCount(u8);

impl TrickCount {
    /// The number of tricks.
    pub closed spec fn value(self) -> u8 {
        self.0
    }

    /// Validity: at most thirteen tricks.
    pub open spec fn wf(self) -> bool {
        self.value() <= 13
    }

    /// Create a trick count; `n` must be at most thirteen.
    pub fn new(n: u8) -> (r: TrickCount)
        requires
            n <= 13,
        ensures
            r.value() == n,
            r.wf(),
    {
        TrickCount(n)
    }

    /// Try to create a trick count: `Ok` exactly when `n <= 13`.
    pub fn try_new(n: u8) -> (r: Result<TrickCount, InvalidTrickCount>)
        ensures
            n <= 13 <==> r is Ok,
            r matches Ok(tc) ==> tc.value() == n && tc.wf(),
    {
        if n > 13 {
            return Err(InvalidTrickCount);
        }
        Ok(TrickCount(n))
    }

    /// The underlying number of tricks.
    pub fn get(self) -> (r: u8)
        requires
            self.wf(),
        ensures
            r == self.value(),
            r <= 13,
    {
        self.0
    }
}

impl From<TrickCount> for u8 {
    fn from(tc: TrickCount) -> (r: u8) {
        tc.0
    }
}

impl vstd::std_specs::convert::FromSpecImpl<TrickCount> for u8 {
    open spec fn obeys_from_spec() -> bool {
        true
    }

    open spec fn from_spec(v: TrickCount) -> u8 {
        v.value()
    }
}

impl From<TrickCount> for usize {
    fn from(tc: TrickCount) -> (r: usize) {
        tc.0 as usize
    }
}

impl vstd::std_specs::convert::FromSpecImpl<TrickCount> for usize {
    open spec fn obeys_from_spec() -> bool {
        true
    }

    open spec fn from_spec(v: TrickCount) -> usize {
        v.value() as usize
    }
}

/// The nibble of `bits` that holds the count of seat number `i`.
pub open spec fn nibble(bits: u16, i: nat) -> u16 {
    ((bits >> (4 * i) as u16) & 0xF) as u16
}

/// The four counts `n, e, s, w` packed one nibble per seat, North lowest.
pub open spec fn pack4(n: u8, e: u8, s: u8, w: u8) -> u16 {
    (n as u16 | (e as u16) << 4u16 | (s as u16) << 8u16 | (w as u16) << 12u16) as u16
}

proof fn lemma_pack4(n: u8, e: u8, s: u8, w: u8)
    requires
        n <= 13,
        e <= 13,
        s <= 13,
        w <= 13,
    ensures
        nibble(pack4(n, e, s, w), 0) == n,
        nibble(pack4(n, e, s, w), 1) == e,
        nibble(pack4(n, e, s, w), 2) == s,
        nibble(pack4(n, e, s, w), 3) == w,
{
    let b = pack4(n, e, s, w);
    assert(b == (n as u16 | (e as u16) << 4u16 | (s as u16) << 8u16 | (w as u16) << 12u16));
    assert(((n as u16 | (e as u16) << 4u16 | (s as u16) << 8u16 | (w as u16) << 12u16) >> 0u16)
        & 0xF == n as u16) by (bit_vector)
        requires
            n <= 13,
            e <= 13,
            s <= 13,
            w <= 13,
    ;
    assert(((n as u16 | (e as u16) << 4u16 | (s as u16) << 8u16 | (w as u16) << 12u16) >> 4u16)
        & 0xF == e as u16) by (bit_vector)
        requires
            n <= 13,
            e <= 13,
            s <= 13,
            w <= 13,
    ;
    assert(((n as u16 | (e as u16) << 4u16 | (s as u16) << 8u16 | (w as u16) << 12u16) >> 8u16)
        & 0xF == s as u16) by (bit_vector)
        requires
            n <= 13,
            e <= 13,
            s <= 13,
            w <= 13,
    ;
    assert(((n as u16 | (e as u16) << 4u16 | (s as u16) << 8u16 | (w as u16) << 12u16) >> 12u16)
        & 0xF == w as u16) by (bit_vector)
        requires
            n <= 13,
            e <= 13,
            s <= 13,
            w <= 13,
    ;
}

/// Tricks that each seat can take as declarer for one strain.
///
/// Bit-packed: four bits per seat, indexed by the seat's number.
#[derive(Debug, Clone, Copy, PartialEq, Eq, Structural)]
pub struct TrickCountRow(u16);

impl TrickCountRow {
    /// Tricks that seat number `i` takes as declarer.
    pub closed spec fn count(self, i: nat) -> u16 {
        nibble(self.0, i)
    }

    /// Validity: every seat's count is at most thirteen.
    pub open spec fn wf(self) -> bool {
        forall|i: nat| i < 4 ==> #[trigger] self.count(i) <= 13
    }

    /// Create a row from the tricks of North, East, South and West.
    pub fn new(n: u8, e: u8, s: u8, w: u8) -> (r: TrickCountRow)
        requires
            n <= 13,
            e <= 13,
            s <= 13,
            w <= 13,
        ensures
            r.count(0) == n,
            r.count(1) == e,
            r.count(2) == s,
            r.count(3) == w,
            r.wf(),
    {
        proof {
            lemma_pack4(n, e, s, w);
        }
        let bits: u16 = n as u16 | (e as u16) << 4u16 | (s as u16) << 8u16 | (w as u16) << 12u16;
        assert(bits == pack4(n, e, s, w));
        let r = TrickCountRow(bits);
        assert forall|i: nat| i < 4 implies #[trigger] r.count(i) <= 13 by {
            if i == 0 {
            } else if i == 1 {
            } else if i == 2 {
            } else {
            }
        }
        r
    }

    /// Try to create a row: `Ok` exactly when every count is at most thirteen.
    pub fn try_new(n: u8, e: u8, s: u8, w: u8) -> (r: Result<TrickCountRow, InvalidTrickCount>)
        ensures
            (n <= 13 && e <= 13 && s <= 13 && w <= 13) <==> r is Ok,
            r matches Ok(row) ==> row.count(0) == n && row.count(1) == e && row.count(2) == s
                && row.count(3) == w && row.wf(),
    {
        if n > 13 || e > 13 || s > 13 || w > 13 {
            return Err(InvalidTrickCount);
        }
        Ok(TrickCountRow::new(n, e, s, w))
    }

    /// The number of tricks `seat` can take as declarer.
    pub fn get(self, seat: Seat) -> (r: TrickCount)
        requires
            self.wf(),
        ensures
            r.value() == self.count(seat_index(seat)),
            r.wf(),
    {
        let i = seat.index();
        let shift: u16 = 4 * (i as u16);
        let v: u16 = (self.0 >> shift) & 0xF;
        assert(v == nibble(self.0, seat_index(seat)));
        assert(self.count(seat_index(seat)) <= 13);
        TrickCount::new(v as u8)
    }

    /// The counts from `seat`'s viewpoint: the seat, its LHO, partner, RHO.
    pub fn hex(self, seat: Seat) -> (r: TrickCountRowHex)
        ensures
            r.row == self,
            r.seat == seat,
    {
        TrickCountRowHex { row: self, seat }
    }
}

/// A hexadecimal digit in uppercase ASCII.
pub open spec fn hex_digit(v: nat) -> u8 {
    if v < 10 {
        (48 + v) as u8
    } else {
        (55 + v) as u8
    }
}

/// The value of an ASCII hex digit (either case), if `b` is one.
pub open spec fn hex_value(b: u8) -> Option<nat> {
    if 48 <= b <= 57 {
        Some((b - 48) as nat)
    } else if 65 <= b <= 70 {
        Some((b - 55) as nat)
    } else if 97 <= b <= 102 {
        Some((b - 87) as nat)
    } else {
        None
    }
}

fn hex_digit_exec(v: u8) -> (r: u8)
    requires
        v < 16,
    ensures
        r == hex_digit(v as nat),
{
    if v < 10 {
        48 + v
    } else {
        55 + v
    }
}

/// View of a [`TrickCountRow`] from a seat's viewpoint: four hex digits,
/// the tricks of the seat, its LHO, its partner and its RHO.
#[derive(Debug, Clone, Copy)]
pub struct TrickCountRowHex {
    pub row: TrickCountRow,
    pub seat: Seat,
}

impl TrickCountRowHex {
    /// The four uppercase hex digits of this view.
    pub fn digits(&self) -> (r: Vec<u8>)
        requires
            self.row.wf(),
        ensures
            r@.len() == 4,
            forall|k: int|
                0 <= k < 4 ==> r@[k] == hex_digit(
                    self.row.count(((seat_index(self.seat) + k) % 4) as nat) as nat,
                ),
    {
        let mut out: Vec<u8> = Vec::new();
        let mut s = self.seat;
        let mut k: usize = 0;
        while k < 4
            invariant
                k <= 4,
                out@.len() == k,
                seat_index(s) == (seat_index(self.seat) + k) % 4,
                self.row.wf(),
                forall|j: int|
                    0 <= j < k ==> out@[j] == hex_digit(
                        self.row.count(((seat_index(self.seat) + j) % 4) as nat) as nat,
                    ),
            decreases 4 - k,
        {
            let c = self.row.get(s).get();
            out.push(hex_digit_exec(c));
            s = s.lho();
            k = k + 1;
        }
        out
    }
}

/// Tricks that each seat can take as declarer for all five strains, indexed
/// by strain number (Clubs, Diamonds, Hearts, Spades, Notrump).
#[derive(Debug, Clone, Copy, PartialEq, Eq)]
pub struct TrickCountTable(pub [TrickCountRow; 5]);

/// Strain number of the `i`-th strain in GIB order (NT, S, H, D, C).
pub open spec fn gib_strain(i: nat) -> nat {
    (4 - i) as nat
}

/// Seat number of the `j`-th declarer in GIB order (E, N, W, S).
pub open spec fn gib_seat(j: nat) -> nat {
    if j == 0 {
        1
    } else if j == 1 {
        0
    } else if j == 2 {
        3
    } else {
        2
    }
}

/// GIB stores East/West cells as `13 - tricks`.
pub open spec fn gib_stored(seat: nat, tricks: nat) -> nat {
    if seat == 1 || seat == 3 {
        (13 - tricks) as nat
    } else {
        tricks
    }
}

/// The value of the `k`-th GIB digit of `table`, for `k < 20`.
pub open spec fn gib_value(table: TrickCountTable, k: nat) -> nat {
    let seat = gib_seat(k % 4);
    gib_stored(seat, table.0[gib_strain(k / 4) as int].count(seat) as nat)
}

impl TrickCountTable {
    /// Validity: every row is valid.
    pub open spec fn wf(self) -> bool {
        forall|i: int| 0 <= i < 5 ==> #[trigger] self.0[i].wf()
    }

    /// The row of `strain`.
    pub fn row(&self, strain: Strain) -> (r: TrickCountRow)
        ensures
            r == self.0[strain_index(strain) as int],
    {
        self.0[strain.index()]
    }

    /// Hexadecimal view from `seat`'s viewpoint for the given strains.
    pub fn hex(self, seat: Seat, strains: Vec<Strain>) -> (r: TrickCountTableHex)
        ensures
            r.table == self,
            r.seat == seat,
            r.strains == strains,
    {
        TrickCountTableHex { table: self, seat, strains }
    }

    /// GIB hand-record view of the whole table: strains NT, S, H, D, C,
    /// declarers E, N, W, S, East/West cells stored as `13 - tricks`.
    pub fn gib(self) -> (r: TrickCountTableGib)
        ensures
            r.table == self,
    {
        TrickCountTableGib { table: self }
    }

    /// Parse the 20 GIB hex digits back into a table; inverse of
    /// [`Self::gib`].  Each of the first 20 bytes must be a hex digit whose
    /// value is at most 13.
    pub fn from_gib(hex: &[u8]) -> (r: TrickCountTable)
        requires
            hex@.len() >= 20,
            forall|k: int|
                0 <= k < 20 ==> (#[trigger] hex_value(hex@[k])) is Some && hex_value(
                    hex@[k],
                )->0 <= 13,
        ensures
            r.wf(),
            forall|k: nat| k < 20 ==> #[trigger] gib_value(r, k) == hex_value(hex@[k as int])->0,
    {
        let zero = TrickCountRow::new(0, 0, 0, 0);
        let mut rows: [TrickCountRow; 5] = [zero, zero, zero, zero, zero];
        let mut i: usize = 0;
        while i < 5
            invariant
                i <= 5,
                hex@.len() >= 20,
                forall|k: int|
                    0 <= k < 20 ==> (#[trigger] hex_value(hex@[k])) is Some && hex_value(
                        hex@[k],
                    )->0 <= 13,
                TrickCountTable(rows).wf(),
                forall|k: nat|
                    k < 4 * i ==> #[trigger] gib_value(TrickCountTable(rows), k) == hex_value(
                        hex@[k as int],
                    )->0,
            decreases 5 - i,
        {
            let e = 13 - hex_digit_value(hex[4 * i]);
            let n = hex_digit_value(hex[4 * i + 1]);
            let w = 13 - hex_digit_value(hex[4 * i + 2]);
            let s = hex_digit_value(hex[4 * i + 3]);
            let ghost old_rows = rows;
            rows[4 - i] = TrickCountRow::new(n, e, s, w);
            assert forall|j: int| 0 <= j < 5 implies #[trigger] TrickCountTable(rows).0[j].wf() by {
                if j != 4 - i {
                    assert(TrickCountTable(old_rows).0[j].wf());
                }
            }
            assert forall|k: nat| k < 4 * (i + 1) implies #[trigger] gib_value(
                TrickCountTable(rows),
                k,
            ) == hex_value(hex@[k as int])->0 by {
                if k < 4 * i {
                    assert(gib_strain(k / 4) != 4 - i) by (nonlinear_arith)
                        requires
                            k < 4 * i,
                    ;
                    assert(rows[gib_strain(k / 4) as int] == old_rows[gib_strain(k / 4) as int]);
                    assert(gib_value(TrickCountTable(old_rows), k) == hex_value(
                        hex@[k as int],
                    )->0);
                } else {
                    assert(k / 4 == i) by (nonlinear_arith)
                        requires
                            4 * i <= k < 4 * (i + 1),
                    ;
                    assert(k == 4 * i + k % 4) by (nonlinear_arith)
                        requires
                            k / 4 == i,
                    ;
                }
            }
            i = i + 1;
        }
        TrickCountTable(rows)
    }
}

fn hex_digit_value(b: u8) -> (r: u8)
    requires
        hex_value(b) is Some,
        hex_value(b)->0 <= 13,
    ensures
        r == hex_value(b)->0,
        r <= 13,
{
    if 48 <= b && b <= 57 {
        b - 48
    } else if 65 <= b && b <= 70 {
        b - 55
    } else {
        b - 87
    }
}

/// GIB hand-record view of a [`TrickCountTable`]; see
/// [`TrickCountTable::gib`].
#[derive(Debug, Clone, Copy)]
pub struct TrickCountTableGib {
    pub table: TrickCountTable,
}

impl TrickCountTableGib {
    /// The 20 uppercase hex digits of the GIB record.
    pub fn digits(&self) -> (r: Vec<u8>)
        requires
            self.table.wf(),
        ensures
            r@.len() == 20,
            forall|k: nat| k < 20 ==> r@[k as int] == hex_digit(#[trigger] gib_value(self.table, k)),
    {
        let mut out: Vec<u8> = Vec::new();
        let mut i: usize = 0;
        while i < 5
            invariant
                i <= 5,
                out@.len() == 4 * i,
                self.table.wf(),
                forall|k: nat|
                    k < 4 * i ==> out@[k as int] == hex_digit(#[trigger] gib_value(self.table, k)),
            decreases 5 - i,
        {
            let row = self.table.0[4 - i];
            assert(row.wf());
            let e = row.get(Seat::East).get();
            let n = row.get(Seat::North).get();
            let w = row.get(Seat::West).get();
            let s = row.get(Seat::South).get();
            let ghost before = out@;
            out.push(hex_digit_exec(13 - e));
            out.push(hex_digit_exec(n));
            out.push(hex_digit_exec(13 - w));
            out.push(hex_digit_exec(s));
            assert forall|k: nat| k < 4 * (i + 1) implies out@[k as int] == hex_digit(
                #[trigger] gib_value(self.table, k),
            ) by {
                if k < 4 * i {
                    assert(out@[k as int] == before[k as int]);
                } else {
                    assert(k / 4 == i) by (nonlinear_arith)
                        requires
                            4 * i <= k < 4 * (i + 1),
                    ;
                    assert(k == 4 * i + k % 4) by (nonlinear_arith)
                        requires
                            k / 4 == i,
                    ;
                }
            }
            i = i + 1;
        }
        out
    }
}

/// Hexadecimal view of a [`TrickCountTable`] from a seat's viewpoint: one
/// [`TrickCountRowHex`] per listed strain, concatenated.
#[derive(Debug, Clone)]
pub struct TrickCountTableHex {
    pub table: TrickCountTable,
    pub seat: Seat,
    pub strains: Vec<Strain>,
}

/// The `i`-th digit of a table's hex view from `seat` over `strains`.
pub open spec fn table_hex_digit(
    table: TrickCountTable,
    seat: Seat,
    strains: Seq<Strain>,
    i: int,
) -> u8 {
    hex_digit(
        table.0[strain_index(strains[i / 4]) as int].count(
            ((seat_index(seat) + i % 4) % 4) as nat,
        ) as nat,
    )
}

impl TrickCountTableHex {
    /// The hex digits: four per listed strain, in list order.
    pub fn digits(&self) -> (r: Vec<u8>)
        requires
            self.table.wf(),
        ensures
            r@.len() == 4 * self.strains@.len(),
            forall|i: int|
                0 <= i < r@.len() ==> #[trigger] r@[i] == table_hex_digit(
                    self.table,
                    self.seat,
                    self.strains@,
                    i,
                ),
    {
        let mut out: Vec<u8> = Vec::new();
        let mut j: usize = 0;
        while j < self.strains.len()
            invariant
                j <= self.strains@.len(),
                self.table.wf(),
                out@.len() == 4 * j,
                forall|i: int|
                    0 <= i < 4 * j ==> #[trigger] out@[i] == table_hex_digit(
                        self.table,
                        self.seat,
                        self.strains@,
                        i,
                    ),
            decreases self.strains@.len() - j,
        {
            let row = self.table.row(self.strains[j]);
            assert(row.wf());
            let part = row.hex(self.seat).digits();
            let ghost before = out@;
            let mut k: usize = 0;
            while k < 4
                invariant
                    k <= 4,
                    j < self.strains@.len(),
                    part@.len() == 4,
                    out@.len() == 4 * j + k,
                    forall|i: int| 0 <= i < 4 * j ==> out@[i] == before[i],
                    forall|i: int| 0 <= i < k ==> out@[4 * j + i] == part@[i],
                decreases 4 - k,
            {
                out.push(part[k]);
                k = k + 1;
            }
            assert forall|i: int| 0 <= i < 4 * (j + 1) implies #[trigger] out@[i]
                == table_hex_digit(self.table, self.seat, self.strains@, i) by {
                if i < 4 * j {
                    assert(out@[i] == before[i]);
                } else {
                    let k = i - 4 * j;
                    assert(i / 4 == j && i % 4 == k) by (nonlinear_arith)
                        requires
                            k == i - 4 * j,
                            0 <= k < 4,
                    ;
                    assert(out@[4 * j + k] == part@[k]);
                }
            }
            j = j + 1;
        }
        out
    }
}

/// Decoding a GIB record and encoding it again gives back the record, in
/// uppercase: `from_gib` and `gib` are inverses.
pub proof fn lemma_gib_round_trip(table: TrickCountTable, k: nat)
    requires
        table.wf(),
        k < 20,
    ensures
        gib_value(table, k) <= 13,
        hex_value(hex_digit(gib_value(table, k))) == Some(gib_value(table, k)),
{
    assert(table.0[gib_strain(k / 4) as int].wf());
    assert(gib_seat(k % 4) < 4);
    assert(table.0[gib_strain(k / 4) as int].count(gib_seat(k % 4)) <= 13);
}

} // verus!
