use pons_dds::lookup::{
    build_count_table, build_group_data, build_highest_rank, build_lowest_rank, build_rel_rank,
    build_win_ranks,
};

#[test]
fn highest_rank_known_values() {
    let highest_rank = build_highest_rank();
    // AKQJ = bits 14,13,12,11 = 0x1e00
    assert_eq!(highest_rank[0x1e00], 14);
    // singleton 2 = bit 2 = 0x0001
    assert_eq!(highest_rank[0x0001], 2);
    // empty
    assert_eq!(highest_rank[0], 0);
}

#[test]
fn lowest_rank_known_values() {
    let lowest_rank = build_lowest_rank();
    // AKQJ: lowest is J = 11
    assert_eq!(lowest_rank[0x1e00], 11);
    // singleton A = 0x1000, lowest = 14
    assert_eq!(lowest_rank[0x1000], 14);
    assert_eq!(lowest_rank[0], 0);
}

#[test]
fn count_table_matches_popcount() {
    let count_table = build_count_table();
    for aggr in [0_usize, 1, 0x1fff, 0x1e00, 0xaaa] {
        assert_eq!(u32::from(count_table[aggr]), (aggr as u32).count_ones());
    }
}

#[test]
fn count_table_matches_popcount_everywhere() {
    let count_table = build_count_table();
    for aggr in 0..8192_usize {
        assert_eq!(u32::from(count_table[aggr]), (aggr as u32).count_ones());
    }
}

#[test]
fn rel_rank_simple_case() {
    let rel_rank = build_rel_rank();
    // aggr = AKQ = 0x1c00 (bits 14, 13, 12). 14 is rel-1, 13 rel-2, 12 rel-3.
    let aggr = 0x1c00;
    assert_eq!(rel_rank[aggr][14], 1);
    assert_eq!(rel_rank[aggr][13], 2);
    assert_eq!(rel_rank[aggr][12], 3);
    // Rank not present yields 0.
    assert_eq!(rel_rank[aggr][11], 0);
}

#[test]
fn win_ranks_take_top_n() {
    let win_ranks = build_win_ranks();
    let aggr: usize = 0x1f80;
    // top 0 = none
    assert_eq!(win_ranks[aggr][0], 0);
    // top 1 = just A (bit 14 = 0x1000)
    assert_eq!(win_ranks[aggr][1], 0x1000);
    // top 3 = A,K,Q
    assert_eq!(win_ranks[aggr][3], 0x1c00);
    // requesting more than present saturates at all bits
    assert_eq!(win_ranks[aggr][13], aggr as u16);
}

#[test]
fn group_data_single_bit() {
    let group_data = build_group_data();
    // ris = 0x0001 (singleton 2) — one group, rank 2.
    let g = group_data[0x0001];
    assert_eq!(g.last_group, 0);
    assert_eq!(g.rank[0], 2);
}

#[test]
fn group_data_two_runs() {
    let group_data = build_group_data();
    // A = bit 14 = 0x1000, 5 = bit 3 = 0x0008.
    let ris = 0x1008;
    let g = group_data[ris];
    // Two groups: {A} and {5}.
    assert_eq!(g.last_group, 1);
    assert_eq!(g.rank[0], 5); // lower group first
    assert_eq!(g.rank[1], 14); // higher group second
}

#[test]
fn group_data_empty_set() {
    let group_data = build_group_data();
    assert_eq!(group_data[0].last_group, -1);
    assert_eq!(group_data.len(), 8192);
}
