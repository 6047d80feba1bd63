use pons_dds::bridge::{FullDeal, Hand, Seat, Strain};
use pons_dds::solver::{pos_from_deal, solve_deal_on, Solver};
use pons_dds::tricks::{TrickCountRow, TrickCountTable};

const ALL: u16 = 0x7FFC;

/// A hand from its holdings in spades, hearts, diamonds and clubs.
fn hand(s: u16, h: u16, d: u16, c: u16) -> Hand {
    Hand([c, d, h, s])
}

/// The holding of the ranks written as in PBN (`AKQJT98765432`).
fn holding(ranks: &str) -> u16 {
    ranks.chars().fold(0u16, |acc, ch| {
        let r = match ch {
            'A' => 14,
            'K' => 13,
            'Q' => 12,
            'J' => 11,
            'T' => 10,
            d => d.to_digit(10).unwrap() as u16,
        };
        acc | (1u16 << r)
    })
}

/// North holds the spades, East the hearts, South the diamonds, West the
/// clubs.
fn each_hand_holds_one_suit_deal() -> FullDeal {
    FullDeal::try_new([
        hand(ALL, 0, 0, 0),
        hand(0, ALL, 0, 0),
        hand(0, 0, ALL, 0),
        hand(0, 0, 0, ALL),
    ])
    .expect("each-suit fixture should be a valid full deal")
}

fn solve_deal_sequential(deal: FullDeal) -> TrickCountTable {
    solve_deal_on(&mut Solver::new(Strain::Notrump), deal)
}

#[test]
fn pos_from_deal_each_hand_one_suit() {
    const DDS_ALL: u16 = 0x1FFF;
    let deal = each_hand_holds_one_suit_deal();
    let pos = pos_from_deal(&deal);
    assert_eq!(pos.rank_in_suit[0][0], DDS_ALL);
    assert_eq!(pos.rank_in_suit[0][1], 0);
    assert_eq!(pos.rank_in_suit[0][2], 0);
    assert_eq!(pos.rank_in_suit[0][3], 0);
    assert_eq!(pos.rank_in_suit[1][1], DDS_ALL);
    assert_eq!(pos.rank_in_suit[2][2], DDS_ALL);
    assert_eq!(pos.rank_in_suit[3][3], DDS_ALL);
}

#[test]
fn solve_deal_each_hand_one_suit_notrump() {
    let deal = each_hand_holds_one_suit_deal();
    let table = solve_deal_sequential(deal);
    for seat in [Seat::North, Seat::East, Seat::South, Seat::West] {
        assert_eq!(
            table.row(Strain::Notrump).get(seat).get(),
            0,
            "declarer {seat:?} at NT should make 0 tricks (LHO runs their suit)"
        );
    }
}

#[test]
fn solve_deal_each_hand_one_suit_trump_tables() {
    let deal = each_hand_holds_one_suit_deal();
    let table = solve_deal_sequential(deal);
    let cases = [
        (Strain::Spades, 13, 0),
        (Strain::Hearts, 0, 13),
        (Strain::Diamonds, 13, 0),
        (Strain::Clubs, 0, 13),
    ];
    for (strain, ns, ew) in cases {
        let row = table.row(strain);
        assert_eq!(row.get(Seat::North).get(), ns, "N declaring {strain:?}");
        assert_eq!(row.get(Seat::South).get(), ns, "S declaring {strain:?}");
        assert_eq!(row.get(Seat::East).get(), ew, "E declaring {strain:?}");
        assert_eq!(row.get(Seat::West).get(), ew, "W declaring {strain:?}");
    }
}

#[test]
fn solve_deal_matches_reference_pbn() {
    // N:.63.AKQ987.A9732 A8654.KQ5.T.QJT6 J973.J98742.3.K4 KQT2.AT.J6542.85
    let deal = FullDeal::try_new([
        hand(holding(""), holding("63"), holding("AKQ987"), holding("A9732")),
        hand(holding("A8654"), holding("KQ5"), holding("T"), holding("QJT6")),
        hand(holding("J973"), holding("J98742"), holding("3"), holding("K4")),
        hand(holding("KQT2"), holding("AT"), holding("J6542"), holding("85")),
    ])
    .expect("reference deal is a full deal");
    let got = solve_deal_sequential(deal);
    let expected = TrickCountTable([
        TrickCountRow::new(8, 5, 8, 5),
        TrickCountRow::new(8, 5, 8, 5),
        TrickCountRow::new(6, 5, 6, 6),
        TrickCountRow::new(4, 9, 4, 9),
        TrickCountRow::new(5, 8, 5, 8),
    ]);
    assert_eq!(got, expected, "DD table mismatch for reference deal");
}

#[test]
fn full_deal_needs_thirteen_disjoint_cards_per_hand() {
    // A hand of twelve cards.
    assert!(FullDeal::try_new([
        hand(ALL & !(1 << 14), 0, 0, 0),
        hand(0, ALL, 0, 0),
        hand(0, 0, ALL, 0),
        hand(1 << 14, 0, 0, ALL & !(1 << 2)),
    ])
    .is_none());
    // Two hands sharing the ace of spades.
    assert!(FullDeal::try_new([
        hand(ALL, 0, 0, 0),
        hand(1 << 14, ALL & !(1 << 2), 0, 0),
        hand(0, 0, ALL, 0),
        hand(0, 0, 0, ALL),
    ])
    .is_none());
    // A bit below the deuce.
    assert!(FullDeal::try_new([
        hand((ALL & !(1 << 14)) | 1, 0, 0, 0),
        hand(0, ALL, 0, 0),
        hand(0, 0, ALL, 0),
        hand(0, 0, 0, ALL),
    ])
    .is_none());
    let deal = each_hand_holds_one_suit_deal();
    assert_eq!(deal.hand(Seat::East), hand(0, ALL, 0, 0));
}

#[test]
fn solver_counts_its_searches_and_resets_them() {
    let deal = each_hand_holds_one_suit_deal();
    let mut solver = Solver::default();
    let row = solver.solve(deal);
    assert_eq!(row, TrickCountRow::new(0, 0, 0, 0));
    let (calls, iters) = solver.bisection_stats();
    assert_eq!(calls, 4);
    assert!(iters >= 4);
    solver.reset_bisection_stats();
    assert_eq!(solver.bisection_stats(), (0, 0));
    assert_eq!(solver.bisection_timing(), (0, 0));
    solver.reset_search_stats();
    assert_eq!(solver.search_stats().tt_hits, 0);
    solver.set_strain(Strain::Spades);
    assert_eq!(solver.solve(deal), TrickCountRow::new(13, 0, 13, 0));
    let mut small = Solver::with_memory(Strain::Hearts, 8, 16);
    assert_eq!(small.solve(deal), TrickCountRow::new(0, 13, 0, 13));
}
