# Pea

A UCI chess engine whose search, evaluation, move ordering, tables, protocol
parsing and training-data tools are verified with Verus. Move generation, FEN
and UCI move text come from `shakmaty`; random numbers from `rand`.

## Layout

- `src/` — the verified library.
  - `types`, `chess`: constants, colours, roles, moves and the plain board snapshot.
  - `position`: a `shakmaty` position with its snapshot; the trusted wrappers
    around `shakmaty` live here and name what it computes.
  - `tt`, `pv`, `history`, `corrhist`, `hash`: transposition table (packed
    entries, mate-score adjustment, move codes), principal variation, history and
    correction-history tables, Zobrist-style hashes.
  - `network`, `nnue_state`: the NNUE network (loading, evaluation) and the
    incremental accumulators with make/unmake.
  - `see`, `ordering`, `eval`: static exchange evaluation, move ordering, the
    static evaluation with the mop-up term.
  - `params`, `context`, `time_manager`, `search`: search parameters, the search
    context, time management, negamax with quiescence and aspiration windows, and
    iterative deepening.
  - `engine`: state kept between searches, position setup, the main search
    thread.
  - `uci`, `text`: command parsing and the text helpers behind it.
  - `datagen`, `filter`, `tuner`: self-play data generation, the training-data
    filter, and the match report reader of the tuner.
  - `clock`, `flags`, `random`: the clock, the shared stop flag and node
    counter, and random draws.
- `tests/` — tests of the library on concrete values.
- `app/` — the program: the UCI loop and search threads, network and parameter
  files, the floating-point parts (win/draw/loss model, time allocation, late
  move reduction table, SPSA), data generation workers and the filter tool.
