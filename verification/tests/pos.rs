use pons_dds::pos::Pos;

#[test]
fn default_is_zero() {
    let p = Pos::default();
    assert_eq!(p.rank_in_suit, [[0; 4]; 4]);
    assert_eq!(p.aggr, [0; 4]);
    assert_eq!(p.tricks_max, 0);
    assert_eq!(p.hand_rel_first, 0);
}
