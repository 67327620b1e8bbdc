# sandy_engine

The verified core of the `sandybot` chess engine, written in Verus.

`src/` is the library. Its functions are proved against their contracts,
but for the small wrappers around calls into the `chess` crate and std,
whose contracts are trusted:

- `values`, `ops`: centipawn scores and search depths, their arithmetic, and
  how a score reads (mate in n, centipawns).
- `pieces`, `board`, `fen`: colours, pieces, moves and squares; the board as
  plain bitboards next to the `chess` crate's board, which generates and
  plays the legal moves and hashes positions; the form of a FEN string the
  engine hands to the crate.
- `position`: the fifty-move clock, irreversible moves, insufficient material
  and the game history kept for repetitions.
- `ordering`, `history`, `material`: move ordering (by target masks, the
  principal variation first, captures by MVV-LVA), killer and history
  heuristics, material counts.
- `entry`, `bounds`, `table`, `shared`: the packed transposition table entry,
  the table itself and the lock the search threads share it through.
- `search`, `window`, `root`: search results, the draw rules and repetition
  detection along the search path, what a table entry does to the
  alpha-beta window, mate distances and depth extensions, and the
  bookkeeping of the iterative deepening at the root and of the reports the
  interface receives.
- `negamax`, `quiescence`: the search itself, generic over the evaluation
  and the stop flag it is handed, with what each node answers stated and
  proved; the quiescence search plays out captures before trusting the
  evaluation.
- `engine`: the game state the engine keeps between searches.
- `timing`: when a search has to stop, from the clocks.
- `opts`: logging levels and the options set over UCI.
- `util`: text pictures of boards and bitboards.
- `bench`: the positions the engine is benchmarked on.

`app/` is the engine around it: the global search flags, the
floating-point evaluation it hands to the search, the search threads, and
the UCI front end.
