use pons_dds::bridge::{Bid, Contract, Level, Penalty, Seat, Strain, Vulnerability};
use pons_dds::par::{calculate_par, calculate_pars, Par, ParContract};
use pons_dds::tricks::{TrickCountRow, TrickCountTable};

const VULS: [Vulnerability; 4] = [
    Vulnerability::NONE,
    Vulnerability::NS,
    Vulnerability::EW,
    Vulnerability::ALL,
];

const SEATS: [Seat; 4] = [Seat::North, Seat::East, Seat::South, Seat::West];

/// Build a table from rows in ascending [`Strain`] order (C, D, H, S,
/// NT), each row holding the tricks for seats N, E, S, W.
fn table(rows: [[u8; 4]; 5]) -> TrickCountTable {
    TrickCountTable(rows.map(|[n, e, s, w]| TrickCountRow::new(n, e, s, w)))
}

/// Read a contract written as level, strain letter and `x` or `xx`.
fn parse_contract(text: &str) -> Contract {
    let b = text.as_bytes();
    let level = Level::new(b[0] - b'0');
    let strain = match b[1] {
        b'C' => Strain::Clubs,
        b'D' => Strain::Diamonds,
        b'H' => Strain::Hearts,
        b'S' => Strain::Spades,
        b'N' => Strain::Notrump,
        _ => panic!("bad strain in {text}"),
    };
    let penalty = match &text[2..] {
        "" => Penalty::Undoubled,
        "x" => Penalty::Doubled,
        "xx" => Penalty::Redoubled,
        _ => panic!("bad penalty in {text}"),
    };
    Contract { bid: Bid { level, strain }, penalty }
}

/// Shorthand for the expected [`ParContract`]s.
fn contract(text: &str, declarer: Seat, overtricks: i8) -> ParContract {
    ParContract {
        contract: parse_contract(text),
        declarer,
        overtricks,
    }
}

/// No seat takes more than 6 tricks anywhere: passed out.  Both engines
/// report score 0 with no contracts for every dealer and vulnerability.
#[test]
fn pass_out() {
    let tricks = table([[6, 5, 6, 5]; 5]);
    let expected = Par {
        score: 0,
        contracts: Vec::new(),
    };
    for vul in VULS {
        for dealer in SEATS {
            assert_eq!(calculate_par(tricks, vul, dealer), expected);
        }
        assert_eq!(
            calculate_pars(tricks, vul),
            [expected.clone(), expected.clone()]
        );
    }
}

/// NS makes 4♥ from either seat and EW has no save: +420 nonvul, +620
/// vul, with the pair expanded to both declarers.
#[test]
fn plain_game() {
    let tricks = table([
        [6, 3, 6, 3],
        [6, 3, 6, 3],
        [10, 3, 10, 3],
        [6, 3, 6, 3],
        [6, 3, 6, 3],
    ]);
    let expected = vec![
        contract("4H", Seat::North, 0),
        contract("4H", Seat::South, 0),
    ];
    for dealer in SEATS {
        let par = calculate_par(tricks, Vulnerability::NONE, dealer);
        assert_eq!(par.score, 420);
        assert_eq!(par.contracts, expected);

        let par = calculate_par(tricks, Vulnerability::NS, dealer);
        assert_eq!(par.score, 620);
        assert_eq!(par.contracts, expected);
    }

    let pars = calculate_pars(tricks, Vulnerability::NONE);
    assert_eq!(pars[0].score, 420);
    assert_eq!(pars[0].contracts, expected);
    assert_eq!(pars[1].score, -420);
    assert_eq!(pars[1].contracts, expected);
    assert!(pars[0].equivalent(&calculate_par(tricks, Vulnerability::NONE, Seat::North)));
}

/// Only North takes 10 tricks in hearts (South takes 9), so the pair is
/// not expanded: 4♥ by North alone.
#[test]
fn single_seat_game() {
    let tricks = table([
        [6, 3, 6, 3],
        [6, 3, 6, 3],
        [10, 3, 9, 3],
        [6, 3, 6, 3],
        [6, 3, 6, 3],
    ]);
    let expected = vec![contract("4H", Seat::North, 0)];
    let par = calculate_par(tricks, Vulnerability::NONE, Seat::North);
    assert_eq!(par.score, 420);
    assert_eq!(par.contracts, expected);

    let pars = calculate_pars(tricks, Vulnerability::NONE);
    assert_eq!(pars[0].score, 420);
    assert_eq!(pars[0].contracts, expected);
}

/// NS makes exactly 4♠, but EW takes 10 tricks in clubs: 5♣ doubled
/// down one is a good save even vulnerable (−200 beats −420).
#[test]
fn doubled_sacrifice() {
    let tricks = table([
        [3, 10, 3, 10],
        [6, 5, 6, 5],
        [6, 5, 6, 5],
        [10, 3, 10, 3],
        [6, 5, 6, 5],
    ]);
    let expected = vec![
        contract("5Cx", Seat::East, -1),
        contract("5Cx", Seat::West, -1),
    ];
    for dealer in SEATS {
        let par = calculate_par(tricks, Vulnerability::NONE, dealer);
        assert_eq!(par.score, 100);
        assert_eq!(par.contracts, expected);

        let par = calculate_par(tricks, Vulnerability::EW, dealer);
        assert_eq!(par.score, 200);
        assert_eq!(par.contracts, expected);
    }

    let pars = calculate_pars(tricks, Vulnerability::NONE);
    assert_eq!(pars[0].score, 100);
    assert_eq!(pars[0].contracts, expected);
    assert_eq!(pars[1].score, -100);
}

/// EW takes only 9 club tricks, so the save is down two: fine nonvul
/// (−300 beats −420) but too dear vulnerable (−500), where par flips
/// back to the 4♠ game.
#[test]
fn sacrifice_killed_by_vulnerability() {
    let tricks = table([
        [3, 9, 3, 9],
        [6, 5, 6, 5],
        [6, 5, 6, 5],
        [10, 3, 10, 3],
        [6, 5, 6, 5],
    ]);
    let par = calculate_par(tricks, Vulnerability::NONE, Seat::North);
    assert_eq!(par.score, 300);
    assert_eq!(
        par.contracts,
        vec![
            contract("5Cx", Seat::East, -2),
            contract("5Cx", Seat::West, -2),
        ]
    );

    let par = calculate_par(tricks, Vulnerability::EW, Seat::North);
    assert_eq!(par.score, 420);
    assert_eq!(
        par.contracts,
        vec![
            contract("4S", Seat::North, 0),
            contract("4S", Seat::South, 0),
        ]
    );
}

/// Every seat takes 7 tricks in notrump: whichever side opens the
/// bidding claims 1NT, so the par score's sign follows the dealer.
#[test]
fn hot_deal() {
    let tricks = table([
        [6, 6, 6, 6],
        [6, 6, 6, 6],
        [6, 6, 6, 6],
        [6, 6, 6, 6],
        [7, 7, 7, 7],
    ]);
    for vul in VULS {
        let north = calculate_par(tricks, vul, Seat::North);
        assert_eq!(north.score, 90);
        assert_eq!(
            north.contracts,
            vec![
                contract("1N", Seat::North, 0),
                contract("1N", Seat::South, 0),
            ]
        );

        let east = calculate_par(tricks, vul, Seat::East);
        assert_eq!(east.score, -90);
        assert_eq!(
            east.contracts,
            vec![contract("1N", Seat::East, 0), contract("1N", Seat::West, 0)]
        );

        assert_eq!(north.score, -east.score);
    }

    // Each element of `calculate_pars` is scored for the side that
    // starts the bidding, so a hot deal is +90 from both views.
    let pars = calculate_pars(tricks, Vulnerability::NONE);
    assert_eq!(pars[0].score, 90);
    assert_eq!(pars[1].score, 90);
    assert_eq!(
        pars[1].contracts,
        vec![contract("1N", Seat::East, 0), contract("1N", Seat::West, 0)]
    );
}

/// North holds all spades, East all hearts, South all diamonds, West
/// all clubs: NS bids the highest laydown grand slam, 7♠, and no
/// sacrifice above it is affordable.
#[test]
fn laydown_grand_slam() {
    let tricks = table([
        [0, 13, 0, 13],
        [13, 0, 13, 0],
        [0, 13, 0, 13],
        [13, 0, 13, 0],
        [0, 0, 0, 0],
    ]);
    let expected = vec![
        contract("7S", Seat::North, 0),
        contract("7S", Seat::South, 0),
    ];
    for dealer in SEATS {
        let par = calculate_par(tricks, Vulnerability::NONE, dealer);
        assert_eq!(par.score, 1510);
        assert_eq!(par.contracts, expected);
    }
    assert_eq!(
        calculate_par(tricks, Vulnerability::ALL, Seat::North).score,
        2210
    );

    let pars = calculate_pars(tricks, Vulnerability::NONE);
    assert_eq!(pars[0].score, 1510);
    assert_eq!(pars[0].contracts, expected);
    assert_eq!(pars[1].score, -1510);
    assert_eq!(pars[1].contracts, expected);
}

/// Only East can afford the same-strain save over 4♥ (5♥ down two).
/// The emitted text `5H-E-2` carries no `*` marker, so `dealer_par_bin`
/// misparses it as an undoubled make — while `SidesParBin` classifies
/// the same save correctly as 5♥ doubled down two.  Both agree under
/// [`Par::equivalent`], which exists for exactly this disagreement.
#[test]
fn single_seat_sacrifice_parse_quirk() {
    let tricks = table([
        [6, 5, 6, 5],
        [6, 5, 6, 5],
        [10, 9, 10, 5],
        [6, 5, 6, 5],
        [6, 5, 6, 5],
    ]);
    let par = calculate_par(tricks, Vulnerability::NONE, Seat::North);
    assert_eq!(par.score, 300);
    assert_eq!(par.contracts, vec![contract("5H", Seat::East, 0)]);

    let pars = calculate_pars(tricks, Vulnerability::NONE);
    assert_eq!(pars[0].score, 300);
    assert_eq!(pars[0].contracts, vec![contract("5Hx", Seat::East, -2)]);

    assert!(par.equivalent(&pars[0]));
    assert_ne!(par, pars[0]);

    // With East as dealer, East gets to bid hearts before NS shows
    // them, so the save is one level cheaper: 4♥ down one for +100.
    let par = calculate_par(tricks, Vulnerability::NONE, Seat::East);
    assert_eq!(par.score, 100);
    assert_eq!(par.contracts, vec![contract("4H", Seat::East, 0)]);
}

/// Two equally cheap saves against 4♥: 5♣ by either opponent (starred
/// pair text) and 5♥ by East alone (unstarred single-seat text).  The
/// first emitted string is starred, so `dealer_par_bin` parses *all*
/// contracts as sacrifices; for `5H-E-2` the fixed-offset read lands on
/// the NUL padding, yielding `underTricks` = -48, which the conversion
/// classifies back as an undoubled make.
#[test]
fn nul_padding_parse_quirk() {
    let tricks = table([
        [3, 9, 3, 9],
        [6, 5, 6, 5],
        [10, 9, 10, 5],
        [6, 5, 6, 5],
        [6, 5, 6, 5],
    ]);
    let par = calculate_par(tricks, Vulnerability::NONE, Seat::North);
    assert_eq!(par.score, 300);
    assert_eq!(
        par.contracts,
        vec![
            contract("5H", Seat::East, 0),
            contract("5Cx", Seat::East, -2),
            contract("5Cx", Seat::West, -2),
        ]
    );
}

#[test]
fn equivalent_ignores_order_and_overtricks() {
    let a = Par {
        score: 420,
        contracts: vec![contract("4H", Seat::North, 0), contract("4H", Seat::South, 1)],
    };
    let b = Par {
        score: 420,
        contracts: vec![contract("5H", Seat::South, 0), contract("4H", Seat::North, 0)],
    };
    assert!(a.equivalent(&b));
    let c = Par { score: 420, contracts: vec![contract("4H", Seat::North, 0)] };
    assert!(!a.equivalent(&c));
    let d = Par { score: 450, contracts: a.contracts.clone() };
    assert!(!a.equivalent(&d));
}

#[test]
fn vulnerability_numbers_for_the_par_engines() {
    assert_eq!(Vulnerability::NONE.to_dds(), 0);
    assert_eq!(Vulnerability::ALL.to_dds(), 1);
    assert_eq!(Vulnerability::NS.to_dds(), 2);
    assert_eq!(Vulnerability::EW.to_dds(), 3);
    assert_eq!(Vulnerability::new(true, false), Vulnerability::NS);
    assert_eq!(Vulnerability::new(true, true), Vulnerability::ALL);
}

#[test]
fn redoubled_is_never_a_par_penalty() {
    let tricks = table([
        [3, 10, 3, 10],
        [6, 5, 6, 5],
        [6, 5, 6, 5],
        [10, 3, 10, 3],
        [6, 5, 6, 5],
    ]);
    for vul in VULS {
        for dealer in SEATS {
            let par = calculate_par(tricks, vul, dealer);
            assert!(par.contracts.iter().all(|c| c.contract.penalty != Penalty::Redoubled));
        }
    }
}

/// As soon as one seat makes a contract, neither opening side's par
/// score is 0, and the pair that makes nothing never scores above 0: here
/// only West makes seven tricks, in clubs.
#[test]
fn one_making_seat_scores_for_both_openers() {
    let tricks = table([
        [6, 5, 6, 7],
        [6, 6, 6, 6],
        [6, 6, 6, 6],
        [6, 6, 6, 6],
        [6, 6, 6, 6],
    ]);
    for vul in VULS {
        let pars = calculate_pars(tricks, vul);
        assert!(pars[0].score < 0);
        assert!(pars[1].score > 0);
        assert!(!pars[0].contracts.is_empty());
        assert!(!pars[1].contracts.is_empty());
    }
}
