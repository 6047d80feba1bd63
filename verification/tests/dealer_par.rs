use contract_bridge::contract::{Contract, Penalty};
use contract_bridge::Strain;
use pons_dds::dealer_par::{dealer_par, DOUBLED_SCORES, SCORES};

/// The text held in a NUL-padded contract buffer.
fn text(buf: &[u8; 10]) -> &str {
    let len = buf.iter().position(|&b| b == 0).unwrap_or(buf.len());
    core::str::from_utf8(&buf[..len]).unwrap()
}

#[test]
fn dealer_par_pass_out() {
    let res_table = [[6, 5, 6, 5]; 5];
    for dealer in 0..4 {
        for vulnerable in 0..4 {
            let res = dealer_par(&res_table, dealer, vulnerable);
            assert_eq!(res.number, 1);
            assert_eq!(res.score, 0);
            assert_eq!(text(&res.contracts[0]), "pass");
        }
    }
}

#[test]
fn dealer_par_plain_game() {
    let res_table = [
        [6, 3, 6, 3],
        [10, 3, 10, 3],
        [6, 3, 6, 3],
        [6, 3, 6, 3],
        [6, 3, 6, 3],
    ];
    for dealer in 0..4 {
        let res = dealer_par(&res_table, dealer, 0);
        assert_eq!(res.number, 1);
        assert_eq!(res.score, 420);
        assert_eq!(text(&res.contracts[0]), "4H-NS");

        let res = dealer_par(&res_table, dealer, 1);
        assert_eq!(res.score, 620);
        assert_eq!(text(&res.contracts[0]), "4H-NS");
    }
}

#[test]
fn dealer_par_doubled_sacrifice() {
    let res_table = [
        [10, 3, 10, 3],
        [6, 5, 6, 5],
        [6, 5, 6, 5],
        [3, 10, 3, 10],
        [6, 5, 6, 5],
    ];
    let res = dealer_par(&res_table, 0, 0);
    assert_eq!(res.number, 1);
    assert_eq!(res.score, 100);
    assert_eq!(text(&res.contracts[0]), "5C*-EW-1");

    let res = dealer_par(&res_table, 0, 3);
    assert_eq!(res.score, 200);
    assert_eq!(text(&res.contracts[0]), "5C*-EW-1");
}

#[test]
fn dealer_par_sacrifice_killed_by_vulnerability() {
    let res_table = [
        [10, 3, 10, 3],
        [6, 5, 6, 5],
        [6, 5, 6, 5],
        [3, 9, 3, 9],
        [6, 5, 6, 5],
    ];
    let res = dealer_par(&res_table, 0, 0);
    assert_eq!((res.score, text(&res.contracts[0])), (300, "5C*-EW-2"));

    let res = dealer_par(&res_table, 0, 3);
    assert_eq!((res.score, text(&res.contracts[0])), (420, "4S-NS"));
}

#[test]
fn single_seat_sacrifice() {
    let res_table = [
        [6, 5, 6, 5],
        [10, 9, 10, 5],
        [6, 5, 6, 5],
        [6, 5, 6, 5],
        [6, 5, 6, 5],
    ];
    let res = dealer_par(&res_table, 0, 0);
    assert_eq!(res.number, 1);
    assert_eq!((res.score, text(&res.contracts[0])), (300, "5H-E-2"));

    let res = dealer_par(&res_table, 1, 0);
    assert_eq!((res.score, text(&res.contracts[0])), (100, "4H-E-1"));
}

#[test]
fn mixed_sacrifices() {
    let res_table = [
        [6, 5, 6, 5],
        [10, 9, 10, 5],
        [6, 5, 6, 5],
        [3, 9, 3, 9],
        [6, 5, 6, 5],
    ];
    let res = dealer_par(&res_table, 0, 0);
    assert_eq!(res.number, 2);
    assert_eq!(res.score, 300);
    assert_eq!(text(&res.contracts[0]), "5C*-EW-2");
    assert_eq!(text(&res.contracts[1]), "5H-E-2");
}

#[test]
fn dealer_par_hot_deal() {
    let res_table = [
        [6, 6, 6, 6],
        [6, 6, 6, 6],
        [6, 6, 6, 6],
        [6, 6, 6, 6],
        [7, 7, 7, 7],
    ];
    for vulnerable in 0..4 {
        let res = dealer_par(&res_table, 0, vulnerable);
        assert_eq!((res.score, text(&res.contracts[0])), (90, "1N-NS"));
        let res = dealer_par(&res_table, 1, vulnerable);
        assert_eq!((res.score, text(&res.contracts[0])), (-90, "1N-EW"));
    }
}

#[test]
fn dealer_par_laydown_grand_slam() {
    let res_table = [
        [13, 0, 13, 0],
        [0, 13, 0, 13],
        [13, 0, 13, 0],
        [0, 13, 0, 13],
        [0, 0, 0, 0],
    ];
    for dealer in 0..4 {
        let res = dealer_par(&res_table, dealer, 0);
        assert_eq!((res.score, text(&res.contracts[0])), (1510, "7S-NS"));
        let res = dealer_par(&res_table, dealer, 1);
        assert_eq!((res.score, text(&res.contracts[0])), (2210, "7S-NS"));
    }
}

/// A partial with room to spare is reduced: NS make 4C (ten club tricks)
/// while EW's cheapest save against it is three down, so NS need bid only
/// one level above where a save would start to pay: 3C+1.
#[test]
fn partial_is_reduced_with_overtricks() {
    let res_table = [
        [6, 5, 6, 5],
        [6, 5, 6, 5],
        [6, 7, 6, 7],
        [10, 3, 10, 3],
        [6, 5, 6, 5],
    ];
    let res = dealer_par(&res_table, 0, 0);
    assert_eq!(res.number, 1);
    assert_eq!(res.score, 130);
    assert_eq!(text(&res.contracts[0]), "3C-NS+1");
}

/// Every making entry of `SCORES` agrees with `contract-bridge`'s duplicate
/// scoring. Contract number `no` (1..=35) is level `(no - 1) / 5 + 1` in
/// strain `(no - 1) % 5` of the ascending order C, D, H, S, NT; the score is
/// for making exactly.
#[test]
fn scores_match_contract_bridge() {
    for (no, row) in SCORES.iter().enumerate().skip(1) {
        let level = (no - 1) / 5 + 1;
        let strain = Strain::ASC[(no - 1) % 5];
        let contract = Contract::new(level as u8, strain, Penalty::Undoubled);
        for (vul, &expected) in row.iter().enumerate() {
            assert_eq!(expected, contract.score(level as u8 + 6, vul == 1), "SCORES[{no}][{vul}]");
        }
    }
}

/// Every `DOUBLED_SCORES` entry agrees with `contract-bridge`'s doubled
/// undertrick scoring: any doubled contract (here 7NT) going down by that
/// count scores the same. Index 0 (a make) is not a penalty and is skipped.
#[test]
fn doubled_scores_match_contract_bridge() {
    let contract = Contract::new(7, Strain::Notrump, Penalty::Doubled);
    for (vul, row) in DOUBLED_SCORES.iter().enumerate() {
        for (down, &expected) in row.iter().enumerate().skip(1) {
            assert_eq!(expected, -contract.score(13 - down as u8, vul == 1), "DOUBLED_SCORES[{vul}][{down}]");
        }
    }
}
