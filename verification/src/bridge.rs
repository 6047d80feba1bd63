//! Seats, suits, strains and cards of contract bridge, as plain values.
//!
//! Seats are numbered in playing order (North 0, East 1, South 2, West 3);
//! suits and strains ascend (Clubs 0 … Spades 3, Notrump 4). A holding is a
//! `u16` with bit `r` set for rank `r` in `2..=14`.
use vstd::prelude::*;

verus! {

/// Position at the table.
#[derive(Debug, Clone, Copy, PartialEq, Eq, Structural)]
pub enum Seat {
    North,
    East,
    South,
    West,
}

/// A suit of playing cards, in ascending order.
#[derive(Debug, Clone, Copy, PartialEq, Eq, Structural)]
pub enum Suit {
    Clubs,
    Diamonds,
    Hearts,
    Spades,
}

/// A strain of a contract: a trump suit or notrump, in ascending order.
#[derive(Debug, Clone, Copy, PartialEq, Eq, Structural)]
pub enum Strain {
    Clubs,
    Diamonds,
    Hearts,
    Spades,
    Notrump,
}

/// A playing card: a suit and a rank in `2..=14` (14 is the ace).
#[derive(Debug, Clone, Copy, PartialEq, Eq, Structural)]
pub struct Card {
    pub suit: Suit,
    pub rank: u8,
}

impl Card {
    /// A card is valid when its rank is one of the thirteen ranks.
    pub open spec fn wf(self) -> bool {
        2 <= self.rank <= 14
    }
}

/// Seat number in playing order.
pub open spec fn seat_index(s: Seat) -> nat {
    match s {
        Seat::North => 0,
        Seat::East => 1,
        Seat::South => 2,
        Seat::West => 3,
    }
}

/// The seat with a given number in playing order (taken modulo four).
pub open spec fn seat_of(i: int) -> Seat {
    let m = i % 4;
    if m == 0 {
        Seat::North
    } else if m == 1 {
        Seat::East
    } else if m == 2 {
        Seat::South
    } else {
        Seat::West
    }
}

/// Suit number in ascending order.
pub open spec fn suit_index(s: Suit) -> nat {
    match s {
        Suit::Clubs => 0,
        Suit::Diamonds => 1,
        Suit::Hearts => 2,
        Suit::Spades => 3,
    }
}

/// Strain number in ascending order.
pub open spec fn strain_index(s: Strain) -> nat {
    match s {
        Strain::Clubs => 0,
        Strain::Diamonds => 1,
        Strain::Hearts => 2,
        Strain::Spades => 3,
        Strain::Notrump => 4,
    }
}

impl Seat {
    /// The seat's number in playing order.
    pub fn index(self) -> (r: usize)
        ensures
            r == seat_index(self),
    {
        match self {
            Seat::North => 0,
            Seat::East => 1,
            Seat::South => 2,
            Seat::West => 3,
        }
    }

    /// The seat with number `i` in playing order.
    pub fn from_index(i: usize) -> (r: Seat)
        requires
            i < 4,
        ensures
            seat_index(r) == i,
            r == seat_of(i as int),
    {
        if i == 0 {
            Seat::North
        } else if i == 1 {
            Seat::East
        } else if i == 2 {
            Seat::South
        } else {
            Seat::West
        }
    }

    /// The opponent on the left: the next seat in playing order.
    pub fn lho(self) -> (r: Seat)
        ensures
            seat_index(r) == (seat_index(self) + 1) % 4,
    {
        match self {
            Seat::North => Seat::East,
            Seat::East => Seat::South,
            Seat::South => Seat::West,
            Seat::West => Seat::North,
        }
    }

    /// The partner: two seats on in playing order.
    pub fn partner(self) -> (r: Seat)
        ensures
            seat_index(r) == (seat_index(self) + 2) % 4,
    {
        match self {
            Seat::North => Seat::South,
            Seat::East => Seat::West,
            Seat::South => Seat::North,
            Seat::West => Seat::East,
        }
    }

    /// The opponent on the right: three seats on in playing order.
    pub fn rho(self) -> (r: Seat)
        ensures
            seat_index(r) == (seat_index(self) + 3) % 4,
    {
        match self {
            Seat::North => Seat::West,
            Seat::East => Seat::North,
            Seat::South => Seat::East,
            Seat::West => Seat::South,
        }
    }
}

impl Suit {
    /// The suit's number in ascending order.
    pub fn index(self) -> (r: usize)
        ensures
            r == suit_index(self),
    {
        match self {
            Suit::Clubs => 0,
            Suit::Diamonds => 1,
            Suit::Hearts => 2,
            Suit::Spades => 3,
        }
    }
}

impl Strain {
    /// The strain's number in ascending order.
    pub fn index(self) -> (r: usize)
        ensures
            r == strain_index(self),
    {
        match self {
            Strain::Clubs => 0,
            Strain::Diamonds => 1,
            Strain::Hearts => 2,
            Strain::Spades => 3,
            Strain::Notrump => 4,
        }
    }

    /// The strain with number `i` in ascending order.
    pub fn from_index(i: usize) -> (r: Strain)
        requires
            i < 5,
        ensures
            strain_index(r) == i,
    {
        if i == 0 {
            Strain::Clubs
        } else if i == 1 {
            Strain::Diamonds
        } else if i == 2 {
            Strain::Hearts
        } else if i == 3 {
            Strain::Spades
        } else {
            Strain::Notrump
        }
    }

    /// The trump suit, or `None` for notrump.
    pub fn suit(self) -> (r: Option<Suit>)
        ensures
            r is None <==> self == Strain::Notrump,
            r matches Some(s) ==> suit_index(s) == strain_index(self),
    {
        match self {
            Strain::Clubs => Some(Suit::Clubs),
            Strain::Diamonds => Some(Suit::Diamonds),
            Strain::Hearts => Some(Suit::Hearts),
            Strain::Spades => Some(Suit::Spades),
            Strain::Notrump => None,
        }
    }
}

} // verus!

verus! {

use crate::bits::{bit, popcount, count_ones16, lemma_bit_or, lemma_bit_and, lemma_bit_single,
    lemma_zero_iff_no_bits};

/// A set of cards: one holding per suit (indexed by suit number), bit `r`
/// of a holding set when the hand holds rank `r`.
#[derive(Debug, Clone, Copy, PartialEq, Eq)]
pub struct Hand(pub [u16; 4]);

/// The cards remaining in each of the four hands, indexed by seat number.
#[derive(Debug, Clone, Copy, PartialEq, Eq)]
pub struct PartialDeal(pub [Hand; 4]);

impl Hand {
    /// The empty hand.
    pub fn empty() -> (r: Hand)
        ensures
            forall|c: Card| !r.has(c),
            r.len() == 0,
            r.valid(),
    {
        let r = Hand([0u16, 0u16, 0u16, 0u16]);
        assert forall|c: Card| !r.has(c) by {
            lemma_zero_iff_no_bits(0u16);
        }
        proof {
            lemma_zero_iff_no_bits(0u16);
            crate::bits::lemma_popcount_zero();
        }
        assert forall|s: int, i: nat| 0 <= s < 4 && #[trigger] bit(r.0[s], i) implies 2 <= i
            <= 14 by {
            lemma_zero_iff_no_bits(0u16);
        }
        r
    }

    /// Validity: only the bits of the thirteen ranks are used.
    pub open spec fn valid(self) -> bool {
        forall|s: int, i: nat| 0 <= s < 4 && #[trigger] bit(self.0[s], i) ==> 2 <= i <= 14
    }

    /// Whether the hand holds `c`.
    pub open spec fn has(self, c: Card) -> bool {
        bit(self.0[suit_index(c.suit) as int], c.rank as nat)
    }

    /// The number of cards in the hand.
    pub open spec fn len(self) -> nat {
        popcount(self.0[0]) + popcount(self.0[1]) + popcount(self.0[2]) + popcount(self.0[3])
    }

    /// Whether the hand holds any card of `s`.
    pub open spec fn has_suit(self, s: Suit) -> bool {
        self.0[suit_index(s) as int] != 0
    }

    /// The number of cards in the hand.
    pub fn count(&self) -> (r: usize)
        ensures
            r == self.len(),
            r <= 64,
    {
        let a = count_ones16(self.0[0]);
        let b = count_ones16(self.0[1]);
        let c = count_ones16(self.0[2]);
        let d = count_ones16(self.0[3]);
        (a + b + c + d) as usize
    }

    /// Add `c` to the hand; `false` when it was already there.
    pub fn insert(&mut self, c: Card) -> (r: bool)
        requires
            c.wf(),
        ensures
            r == !old(self).has(c),
            final(self).has(c),
            forall|d: Card| d.wf() && d != c ==> final(self).has(d) == old(self).has(d),
            old(self).valid() ==> final(self).valid(),
    {
        let s = c.suit.index();
        let mask: u16 = 1u16 << (c.rank as u16);
        let before = self.0[s];
        proof {
            lemma_bit_and(before, mask, c.rank as nat);
            lemma_bit_single(c.rank as nat, c.rank as nat);
            lemma_zero_iff_no_bits(before & mask);
        }
        let fresh = before & mask == 0;
        if fresh {
            assert(!bit(before, c.rank as nat));
        } else {
            assert forall|i: nat| i < 16 && bit(before & mask, i) implies i == c.rank by {
                lemma_bit_and(before, mask, i);
                lemma_bit_single(c.rank as nat, i);
            }
        }
        self.0[s] = before | mask;
        proof {
            lemma_bit_or(before, mask, c.rank as nat);
            if old(self).valid() {
                assert forall|t: int, i: nat| 0 <= t < 4 && #[trigger] bit(self.0[t], i) implies 2
                    <= i <= 14 by {
                    if t == s {
                        lemma_bit_or(before, mask, i);
                        if i < 16 {
                            lemma_bit_single(c.rank as nat, i);
                        }
                        assert(bit(old(self).0[t], i) || i == c.rank);
                    } else {
                        assert(bit(old(self).0[t], i));
                    }
                }
            }
            assert forall|d: Card| d.wf() && d != c implies self.has(d) == old(self).has(d) by {
                if d.suit == c.suit {
                    lemma_bit_or(before, mask, d.rank as nat);
                    lemma_bit_single(c.rank as nat, d.rank as nat);
                }
            }
        }
        fresh
    }
}

/// A full deal: four hands, by seat number, of thirteen cards each, no
/// card in two of them.
#[derive(Debug, Clone, Copy, PartialEq, Eq)]
pub struct FullDeal([Hand; 4]);

/// Whether `hands` make a full deal: each a valid hand of thirteen cards,
/// and no two sharing a card.
pub open spec fn full_deal_ok(hands: [Hand; 4]) -> bool {
    &&& forall|i: int| 0 <= i < 4 ==> (#[trigger] hands[i]).valid() && hands[i].len() == 13
    &&& forall|i: int, j: int, s: int| 0 <= i < j < 4 && 0 <= s < 4 ==> #[trigger] hands[i].0[s] & #[trigger] hands[j].0[s] == 0
}

impl FullDeal {
    /// The four hands, by seat number.
    pub closed spec fn hands(self) -> [Hand; 4] {
        self.0
    }

    /// Validity: the hands make a full deal.
    pub open spec fn wf(self) -> bool {
        full_deal_ok(self.hands())
    }

    /// The deal of `hands` (by seat number), or `None` when they do not
    /// make a full deal.
    pub fn try_new(hands: [Hand; 4]) -> (r: Option<FullDeal>)
        ensures
            r is Some <==> full_deal_ok(hands),
            r matches Some(d) ==> d.hands() == hands && d.wf(),
    {
        let mut i: usize = 0;
        while i < 4
            invariant
                i <= 4,
                forall|k: int| 0 <= k < i ==> (#[trigger] hands[k]).valid() && hands[k].len() == 13,
            decreases 4 - i,
        {
            let h = hands[i];
            if h.count() != 13 {
                return None;
            }
            let mut s: usize = 0;
            while s < 4
                invariant
                    s <= 4,
                    i < 4,
                    h == hands[i as int],
                    forall|t: int, b: nat| 0 <= t < s && #[trigger] bit(h.0[t], b) ==> 2 <= b <= 14,
                decreases 4 - s,
            {
                let x = h.0[s];
                if x & 0x8003u16 != 0 {
                    proof {
                        lemma_outside_ranks(x);
                    }
                    return None;
                }
                proof {
                    lemma_outside_ranks(x);
                }
                s += 1;
            }
            i += 1;
        }
        let mut a: usize = 0;
        while a < 4
            invariant
                a <= 4,
                forall|k: int| 0 <= k < 4 ==> (#[trigger] hands[k]).valid() && hands[k].len() == 13,
                forall|i2: int, j: int, t: int| 0 <= i2 < a && i2 < j < 4 && 0 <= t < 4 ==> #[trigger] hands[i2].0[t] & #[trigger] hands[j].0[t] == 0,
            decreases 4 - a,
        {
            let mut b: usize = a + 1;
            while b < 4
                invariant
                    a < b <= 4,
                    forall|i2: int, j: int, t: int| 0 <= i2 < a && i2 < j < 4 && 0 <= t < 4 ==> #[trigger] hands[i2].0[t] & #[trigger] hands[j].0[t] == 0,
                    forall|j: int, t: int| a < j < b && 0 <= t < 4 ==> #[trigger] hands[a as int].0[t] & #[trigger] hands[j].0[t] == 0,
                decreases 4 - b,
            {
                let mut s: usize = 0;
                while s < 4
                    invariant
                        s <= 4,
                        a < b < 4,
                        forall|t: int| 0 <= t < s ==> #[trigger] hands[a as int].0[t] & hands[b as int].0[t] == 0,
                    decreases 4 - s,
                {
                    if hands[a].0[s] & hands[b].0[s] != 0 {
                        return None;
                    }
                    s += 1;
                }
                b += 1;
            }
            a += 1;
        }
        Some(FullDeal(hands))
    }

    /// The hand of `seat`.
    pub fn hand(&self, seat: Seat) -> (r: Hand)
        ensures
            r == self.hands()[seat_index(seat) as int],
    {
        self.0[seat.index()]
    }
}

/// A holding uses only the bits of the thirteen ranks exactly when it has
/// none of the bits `0`, `1` and `15`.
proof fn lemma_outside_ranks(x: u16)
    ensures
        (x & 0x8003u16 == 0) <==> forall|b: nat| #[trigger] bit(x, b) ==> 2 <= b <= 14,
{
    assert((x & 0x8003u16 == 0) <==> ((x >> 0u16) & 1u16 != 1u16 && (x >> 1u16) & 1u16 != 1u16 && (x >> 15u16)
        & 1u16 != 1u16)) by (bit_vector);
    if x & 0x8003u16 != 0 {
        if bit(x, 0) {
        } else if bit(x, 1) {
        } else {
            assert(bit(x, 15));
        }
    }
}

impl PartialDeal {
    /// The hand of `seat`.
    pub open spec fn hand(self, seat: Seat) -> Hand {
        self.0[seat_index(seat) as int]
    }

    /// Whether some hand holds `c`.
    pub open spec fn holds(self, c: Card) -> bool {
        exists|i: int| 0 <= i < 4 && #[trigger] self.0[i].has(c)
    }

    /// The union of the four hands.
    pub fn collected(&self) -> (r: Hand)
        ensures
            forall|c: Card| c.wf() ==> (r.has(c) <==> self.holds(c)),
    {
        let mut u: [u16; 4] = [0u16, 0u16, 0u16, 0u16];
        let mut s: usize = 0;
        while s < 4
            invariant
                s <= 4,
                forall|t: int, i: nat|
                    0 <= t < s && i < 16 ==> (bit(u[t], i) <==> (bit(self.0[0].0[t], i) || bit(
                        self.0[1].0[t],
                        i,
                    ) || bit(self.0[2].0[t], i) || bit(self.0[3].0[t], i))),
            decreases 4 - s,
        {
            let v = self.0[0].0[s] | self.0[1].0[s] | self.0[2].0[s] | self.0[3].0[s];
            proof {
                assert forall|i: nat| i < 16 implies (bit(v, i) <==> (bit(self.0[0].0[s as int], i)
                    || bit(self.0[1].0[s as int], i) || bit(self.0[2].0[s as int], i) || bit(
                    self.0[3].0[s as int],
                    i,
                ))) by {
                    lemma_bit_or(self.0[0].0[s as int], self.0[1].0[s as int], i);
                    lemma_bit_or(self.0[0].0[s as int] | self.0[1].0[s as int], self.0[2].0[s as int], i);
                    lemma_bit_or(
                        self.0[0].0[s as int] | self.0[1].0[s as int] | self.0[2].0[s as int],
                        self.0[3].0[s as int],
                        i,
                    );
                }
            }
            u[s] = v;
            s = s + 1;
        }
        let r = Hand(u);
        assert forall|c: Card| c.wf() implies (r.has(c) <==> self.holds(c)) by {
            let t = suit_index(c.suit) as int;
            let i = c.rank as nat;
            if self.holds(c) {
                let k = choose|k: int| 0 <= k < 4 && #[trigger] self.0[k].has(c);
                assert(bit(self.0[k].0[t], i));
            }
            if r.has(c) {
                if bit(self.0[0].0[t], i) {
                    assert(self.0[0].has(c));
                } else if bit(self.0[1].0[t], i) {
                    assert(self.0[1].has(c));
                } else if bit(self.0[2].0[t], i) {
                    assert(self.0[2].has(c));
                } else {
                    assert(self.0[3].has(c));
                }
            }
        }
        r
    }
}

} // verus!

verus! {

/// The level of a bid, `1..=7`.
#[derive(Debug, Clone, Copy, PartialEq, Eq, Structural)]
pub struct Level(u8);

impl Level {
    /// The level as a number.
    pub closed spec fn value(self) -> u8 {
        self.0
    }

    /// The level `n`, as a value.
    pub closed spec fn of(n: u8) -> Level {
        Level(n)
    }

    /// The level `n`.
    pub fn new(n: u8) -> (r: Level)
        requires
            1 <= n <= 7,
        ensures
            r.value() == n,
            r == Level::of(n),
    {
        Level(n)
    }

    /// The level as a number.
    pub fn get(self) -> (r: u8)
        ensures
            r == self.value(),
    {
        self.0
    }
}

/// A bid: a level and a strain.
#[derive(Debug, Clone, Copy, PartialEq, Eq, Structural)]
pub struct Bid {
    pub level: Level,
    pub strain: Strain,
}

/// Whether a contract is played undoubled, doubled or redoubled.
#[derive(Debug, Clone, Copy, PartialEq, Eq, Structural)]
pub enum Penalty {
    Undoubled,
    Doubled,
    Redoubled,
}

/// A contract: the final bid and its penalty.
#[derive(Debug, Clone, Copy, PartialEq, Eq, Structural)]
pub struct Contract {
    pub bid: Bid,
    pub penalty: Penalty,
}

/// Which pairs are vulnerable.
#[allow(non_camel_case_types)]
#[derive(Debug, Clone, Copy, PartialEq, Eq, Structural)]
pub enum Vulnerability {
    /// Neither pair is vulnerable.
    NONE,
    /// North-South is vulnerable.
    NS,
    /// East-West is vulnerable.
    EW,
    /// Both pairs are vulnerable.
    ALL,
}

impl Vulnerability {
    /// The number the par engines use: 0 none, 1 both, 2 North-South,
    /// 3 East-West.
    pub open spec fn dds_spec(self) -> int {
        match self {
            Vulnerability::NONE => 0,
            Vulnerability::ALL => 1,
            Vulnerability::NS => 2,
            Vulnerability::EW => 3,
        }
    }

    /// The vulnerability of the pairs given as North-South and East-West.
    pub fn new(ns: bool, ew: bool) -> (r: Vulnerability)
        ensures
            r == (if ns && ew {
                Vulnerability::ALL
            } else if ns {
                Vulnerability::NS
            } else if ew {
                Vulnerability::EW
            } else {
                Vulnerability::NONE
            }),
    {
        if ns && ew {
            Vulnerability::ALL
        } else if ns {
            Vulnerability::NS
        } else if ew {
            Vulnerability::EW
        } else {
            Vulnerability::NONE
        }
    }

    /// The number the par engines use (see [`Vulnerability::dds_spec`]).
    pub fn to_dds(self) -> (r: i32)
        ensures
            r == self.dds_spec(),
            0 <= r < 4,
    {
        match self {
            Vulnerability::NONE => 0,
            Vulnerability::ALL => 1,
            Vulnerability::NS => 2,
            Vulnerability::EW => 3,
        }
    }
}

} // verus!

verus! {

/// A set of ranks of one suit: bit `r` set for rank `r` in `2..=14`.
#[derive(Debug, Clone, Copy, PartialEq, Eq, Structural)]
pub struct Holding(u16);

impl Holding {
    /// The bits of the set.
    pub closed spec fn bits_spec(self) -> u16 {
        self.0
    }

    /// The set whose bits are `bits`, dropping bits that stand for no rank.
    pub fn from_bits_truncate(bits: u16) -> (r: Holding)
        ensures
            r.bits_spec() == bits & 0x7FFC,
    {
        Holding(bits & 0x7FFC)
    }

    /// The bits of the set.
    pub fn to_bits(self) -> (r: u16)
        ensures
            r == self.bits_spec(),
    {
        self.0
    }
}

} // verus!
