# pons_dds

A double-dummy solver for contract bridge, written in Verus: every
function of the library is verified against its `requires` / `ensures`
contract, and none of them can panic. Not every contract says everything
the function does; what they leave out is said here.

What the contracts do not state is the double-dummy value itself: no spec
function defines the trick count of a deal under best play, so the trick
counts that the search and the solver return are stated only at the last
trick and by bounds (at most 13, at most the tricks left). The end-game
cut-offs are stated as the computations they are, not as claims about
best play, and of the sure-trick count only its relation to what the
search needs is stated (decisive only once reached, below it when not
decisive) and that it is not negative when each suit's top card lies in
a hand that holds the suit, not the count itself. The par score and the par contract texts
are stated exactly for a given dealer. For the par of both opening sides
at once, it is stated that both scores are 0 exactly on a passed-out
deal, that a pair that makes nothing never scores above 0 (and its
opponents never below 0), and that the contracts are well formed; not
which contract the alternating bidding reaches.

## Layout

- `src/bridge.rs`, `src/convert.rs`: seats, suits, strains, cards, hands and
  deals as plain values, and the suit numbers of the search.
- `src/bits.rs`, `src/lookup.rs`, `src/groups.rs`: rank sets as 13-bit
  masks and the tables indexed by them (highest and lowest rank, relative
  ranks, top ranks, groups of adjacent ranks).
- `src/pos.rs`, `src/move_type.rs`: the position the search works on.
- `src/moves.rs`, `src/network.rs`, `src/held.rs`: move generation, move
  ordering and the sorting networks; the move lists hold only cards of the
  hand to play.
- `src/quick_tricks.rs`, `src/later_tricks.rs`: the sure-trick and
  end-game bounds that cut the search short.
- `src/tt.rs`: the transposition table.
- `src/search.rs`: the alpha-beta search (`Engine`): playing and taking
  back cards, the search from each hand of a trick, and the bisection on
  the trick target. A search leaves the hands as it found them.
- `src/solver.rs`: the tricks of every declarer in every strain of a deal.
- `src/board.rs`, `src/solve_board.rs`, `src/analyse.rs`, `src/play.rs`:
  boards in mid-play, solving a board card by card, and the analysis of a
  trace of played cards. Which cards are legal, and the first illegal
  card of a trace, are stated exactly; the scores are not.
- `src/tricks.rs`, `src/strain_flags.rs`: trick counts, their tables and
  encodings.
- `src/par.rs`, `src/dealer_par.rs`: par scores and par contracts.
- `app/lib.rs`: solving many deals at once on a thread pool.
- `tests/`: tests of the library on concrete values.
