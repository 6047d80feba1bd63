use pons_dds::tt::{NodeCards, TransTable};

fn dummy_hand_lookup() -> [[i32; 15]; 4] {
    [[0; 15]; 4]
}

#[test]
fn new_has_default_memory_limits() {
    let tt = TransTable::new();
    assert!(tt.pages_default() >= 10);
    assert!(tt.pages_maximum() >= tt.pages_default());
    assert!(tt.pages_maximum() <= 30);
    assert_eq!(tt.page_count(), 0);
}

#[test]
fn with_memory_respects_arguments() {
    let tt = TransTable::with_memory(60, 100);
    let smaller = TransTable::with_memory(30, 50);
    assert!(tt.pages_default() > smaller.pages_default());
    assert!(tt.pages_maximum() > smaller.pages_maximum());
}

/// The page budget of the defaults: 95 MiB and 160 MiB of 6512-byte
/// blocks, a thousand to a page.
#[test]
fn mb_to_pages_exact_values() {
    assert_eq!(TransTable::mb_to_pages(95), 15);
    assert_eq!(TransTable::mb_to_pages(160), 25);
    assert_eq!(TransTable::mb_to_pages(0), 0);
    assert_eq!(TransTable::mb_to_pages(7), 1);
}

#[test]
fn hash8_known_values() {
    let h1 = TransTable::hash8(&[0, 0, 0, 0]);
    let h2 = TransTable::hash8(&[0x111, 0x222, 0x333, 0x444]);
    let h3 = TransTable::hash8(&[0x444, 0x333, 0x222, 0x111]);
    assert!(h1 < 256);
    assert!(h2 < 256);
    assert!(h3 < 256);
    assert_ne!(h2, h3);
}

/// hash8 of a single distribution: 0x433 ^ (0x433 >> 5) folded to a byte.
#[test]
fn hash8_exact_value() {
    let h = 0x433i32;
    assert_eq!(TransTable::hash8(&[0x433, 0, 0, 0]), ((h ^ (h >> 5)) & 0xff) as usize);
    assert_eq!(TransTable::suit_lengths_key(&[1, 2, 3, 4]), (1i64 << 36) | (2 << 24) | (3 << 12) | 4);
}

#[test]
fn add_then_lookup_round_trip() {
    let mut tt = TransTable::new();
    tt.init(&dummy_hand_lookup());

    let trick = 5;
    let hand = 0;
    let aggr_target = [0x1fff_u32; 4];
    let hand_dist = [0x0433, 0x0334, 0x0232, 0x0531];
    let win_ranks = [0x1c00_u16; 4];
    let cards = NodeCards {
        ubound: 9,
        lbound: 9,
        best_move_suit: 1,
        best_move_rank: 14,
        least_win: [0; 4],
    };

    let mut lf = false;
    let first = tt.lookup(trick, hand, &aggr_target, &hand_dist, 5, &mut lf);
    assert!(first.is_none());

    tt.add(trick, hand, &aggr_target, &win_ranks, cards, true);

    let mut lf2 = false;
    let _ = tt.lookup(trick, hand, &aggr_target, &hand_dist, 5, &mut lf2);
    let res = tt.lookup(trick, hand, &aggr_target, &hand_dist, 5, &mut lf2);
    assert!(res.is_some(), "lookup after add must return the entry");
    let got = res.unwrap();
    assert_eq!(got.ubound, 9);
    assert_eq!(got.lbound, 9);
    assert_eq!(got.best_move_suit, 1);
    assert_eq!(got.best_move_rank, 14);
    assert!(lf2, "lbound > limit, so lower_flag must be set");
}

/// An upper bound at or below the limit settles the search the other way.
#[test]
fn lookup_reports_upper_bound_hits() {
    let mut tt = TransTable::new();
    tt.init(&dummy_hand_lookup());
    let aggr_target = [0x1fff_u32; 4];
    let hand_dist = [0x0433, 0x0334, 0x0232, 0x0531];
    let win_ranks = [0x1c00_u16; 4];
    let cards = NodeCards { ubound: 4, lbound: 2, best_move_suit: 0, best_move_rank: 0, least_win: [0; 4] };
    let mut lf = true;
    let _ = tt.lookup(3, 2, &aggr_target, &hand_dist, 5, &mut lf);
    tt.add(3, 2, &aggr_target, &win_ranks, cards, false);
    let mut lf = true;
    let res = tt.lookup(3, 2, &aggr_target, &hand_dist, 5, &mut lf);
    assert_eq!(res.map(|c| c.ubound), Some(4));
    assert!(!lf);
    // With a limit between the bounds nothing is settled.
    let mut lf = true;
    let res = tt.lookup(3, 2, &aggr_target, &hand_dist, 3, &mut lf);
    assert!(res.is_none());
    assert!(lf);
}

#[test]
fn lookup_with_different_hand_dist_misses() {
    let mut tt = TransTable::new();
    tt.init(&dummy_hand_lookup());

    let trick = 7;
    let hand = 1;
    let aggr_target = [0x1fff_u32; 4];
    let hd_a = [0x0433, 0x0334, 0x0232, 0x0531];
    let hd_b = [0x0532, 0x0334, 0x0232, 0x0431];
    let win_ranks = [0x1c00_u16; 4];
    let cards = NodeCards {
        ubound: 10,
        lbound: 10,
        best_move_suit: 2,
        best_move_rank: 11,
        least_win: [0; 4],
    };

    let mut lf = false;
    let _ = tt.lookup(trick, hand, &aggr_target, &hd_a, 5, &mut lf);
    tt.add(trick, hand, &aggr_target, &win_ranks, cards, true);

    let mut lf = false;
    let _ = tt.lookup(trick, hand, &aggr_target, &hd_a, 5, &mut lf);
    let res_a = tt.lookup(trick, hand, &aggr_target, &hd_a, 5, &mut lf);
    assert!(res_a.is_some());

    let mut lf = false;
    let res_b = tt.lookup(trick, hand, &aggr_target, &hd_b, 5, &mut lf);
    assert!(
        res_b.is_none(),
        "different hand_dist must not return entry from hd_a"
    );
}

#[test]
fn add_two_entries_with_different_dists_both_retrievable() {
    let mut tt = TransTable::new();
    tt.init(&dummy_hand_lookup());

    let trick = 8;
    let hand = 2;
    let aggr_target = [0x1fff_u32; 4];
    let hd_a = [0x0433, 0x0334, 0x0232, 0x0531];
    let hd_b = [0x0532, 0x0334, 0x0232, 0x0431];
    let win_ranks = [0x1c00_u16; 4];

    let mut lf = false;
    let _ = tt.lookup(trick, hand, &aggr_target, &hd_a, 5, &mut lf);
    tt.add(
        trick,
        hand,
        &aggr_target,
        &win_ranks,
        NodeCards { ubound: 7, lbound: 7, best_move_suit: 0, best_move_rank: 5, least_win: [0; 4] },
        true,
    );

    let _ = tt.lookup(trick, hand, &aggr_target, &hd_b, 5, &mut lf);
    tt.add(
        trick,
        hand,
        &aggr_target,
        &win_ranks,
        NodeCards { ubound: 8, lbound: 8, best_move_suit: 1, best_move_rank: 6, least_win: [0; 4] },
        true,
    );

    let mut lf = false;
    let _ = tt.lookup(trick, hand, &aggr_target, &hd_a, 3, &mut lf);
    let got_a = tt.lookup(trick, hand, &aggr_target, &hd_a, 3, &mut lf);
    assert_eq!(got_a.map(|n| n.best_move_rank), Some(5));

    let _ = tt.lookup(trick, hand, &aggr_target, &hd_b, 3, &mut lf);
    let got_b = tt.lookup(trick, hand, &aggr_target, &hd_b, 3, &mut lf);
    assert_eq!(got_b.map(|n| n.best_move_rank), Some(6));
}

#[test]
fn reset_clears_all_entries() {
    let mut tt = TransTable::new();
    tt.init(&dummy_hand_lookup());

    let trick = 6;
    let hand = 3;
    let aggr_target = [0x1fff_u32; 4];
    let hand_dist = [0x0433, 0x0334, 0x0232, 0x0531];
    let win_ranks = [0x1c00_u16; 4];

    let mut lf = false;
    let _ = tt.lookup(trick, hand, &aggr_target, &hand_dist, 5, &mut lf);
    tt.add(
        trick,
        hand,
        &aggr_target,
        &win_ranks,
        NodeCards { ubound: 10, lbound: 10, best_move_suit: 0, best_move_rank: 12, least_win: [0; 4] },
        true,
    );

    let _ = tt.lookup(trick, hand, &aggr_target, &hand_dist, 5, &mut lf);
    let res = tt.lookup(trick, hand, &aggr_target, &hand_dist, 5, &mut lf);
    assert!(res.is_some(), "pre-reset lookup must hit");

    tt.reset();

    assert!(tt.last_block_seen(trick as usize, hand as usize).is_none());

    let mut lf = false;
    let res = tt.lookup(trick, hand, &aggr_target, &hand_dist, 5, &mut lf);
    assert!(res.is_none(), "post-reset lookup must miss");
}

#[test]
fn lookup_without_init_returns_none() {
    let mut tt = TransTable::new();
    let mut lf = false;
    let res = tt.lookup(0, 0, &[0; 4], &[0; 4], 0, &mut lf);
    assert!(res.is_none());
}

#[test]
fn set_memory_changes_budget() {
    let mut tt = TransTable::new();
    let default_before = tt.pages_default();
    let maximum_before = tt.pages_maximum();

    tt.set_memory_default(40);
    tt.set_memory_maximum(80);

    assert_ne!(tt.pages_default(), default_before);
    assert_ne!(tt.pages_maximum(), maximum_before);
    assert!(tt.pages_default() < default_before);
    assert!(tt.pages_maximum() < maximum_before);
}

#[test]
fn page_allocation_grows_pool() {
    let mut tt = TransTable::with_memory(10, 20);
    tt.init(&dummy_hand_lookup());
    let aggr_target = [0x1fff_u32; 4];
    let win_ranks = [0x1c00_u16; 4];
    let cards = NodeCards { ubound: 5, lbound: 5, best_move_suit: 0, best_move_rank: 5, least_win: [0; 4] };
    let initial_pages = tt.page_count();
    for i in 0..500i32 {
        let hd = [i & 0xfff, (i * 2) & 0xfff, (i * 3) & 0xfff, (i * 5) & 0xfff];
        let mut lf = false;
        let _ = tt.lookup(5, 0, &aggr_target, &hd, 3, &mut lf);
        tt.add(5, 0, &aggr_target, &win_ranks, cards, true);
    }
    assert!(tt.page_count() > initial_pages);
}

/// A reset drops only the pages above the default number and keeps the
/// others.
#[test]
fn reset_keeps_default_pages() {
    let mut tt = TransTable::with_memory(20, 40);
    tt.init(&dummy_hand_lookup());
    let aggr_target = [0x1fff_u32; 4];
    let win_ranks = [0x1c00_u16; 4];
    let cards = NodeCards { ubound: 5, lbound: 5, best_move_suit: 0, best_move_rank: 5, least_win: [0; 4] };
    for i in 0..3000i32 {
        let hd = [i & 0xfff, (i * 2) & 0xfff, (i * 3) & 0xfff, (i * 5) & 0xfff];
        let mut lf = false;
        let _ = tt.lookup(5, 0, &aggr_target, &hd, 3, &mut lf);
        tt.add(5, 0, &aggr_target, &win_ranks, cards, true);
    }
    let before = tt.page_count();
    assert!(before >= 2);
    assert!(tt.pages_default() >= 2);
    tt.reset();
    assert_eq!(tt.page_count(), before.min(tt.pages_default() as usize));
}
