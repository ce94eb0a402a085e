# klondike

Klondike Solitaire with classic rules and Windows "Standard" scoring, a
brute-force + heuristic + transposition-table solver, and a terminal game —
written in Verus, with the rules, the solver and the game sessions proved
against their contracts.

## Layout

- `src/model/` — cards, piles, the seeded deal, the rules (`apply_spec`,
  `undo_spec`, `legal_moves_spec`) and scoring, with the laws of the game in
  `laws.rs`, `faces.rs` and `invariants.rs` (undo restores, legal moves are
  exactly the applicable ones and each is listed once, every move keeps the
  52 cards and lays them right).
- `src/solver/` — position keys (exact bytes and Zobrist), the capped closed
  table, the move classifiers and heuristics, and the depth-first search whose
  result is stated by `outcome_holds`. A solvable verdict comes with a line
  that wins; an inconclusive one comes only where a limit may have stopped the
  search (`limit_reached`, which counts the machine limits on the node count,
  the score and the recycle count among those limits); with exact keys, an
  unwinnable verdict of a search without the no-op, safe-automove and
  equivalence prunings means no line wins at all (`reach.rs`, `symmetry.rs`:
  positions with one key play alike, and empty columns are interchangeable).
  Safe automoves can lose a win (the test `forced_safe_moves_can_lose_a_win`
  builds such a deal), so that statement cannot include them. Under every
  option set, an unwinnable verdict comes with a closed tree of tries
  (`search_lost`): each position the search finished is not won, and every
  move the options try there leads to the key of a finished position.
- `src/cli/` — the terminal game's logic: key mapping, move resolution, the
  session state machine (`key_handled`), the screen layout and the `--solve`
  report.
- `src/gui/` — the parts of the graphical front-end that decide without
  drawing: its command line, pointer move resolution, what each key, tap,
  drag and drop does to the board (`board.rs`), the per-frame decisions —
  input priority, the game clock, auto-solve playback, and the assist
  following the deal and position (`frame.rs`) — the undo/redo session, the
  solvability assist and its dialog policy, the panels' buttons, settings and
  the stored records. The window itself (drawing, float geometry, animation
  timing) is not part of this crate: a front-end feeds these functions the
  events it measured and performs the actions they return.
- `app/` — the terminal program: argument parsing, the terminal, and the loop
  that feeds keys to the session and draws its screen.

Run the game with `klondike --seed 42`, or solve a deal with
`klondike --solve --seed 42`.
