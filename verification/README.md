# anyproc

A terminal process browser. The library in `src/` holds its logic, verified
with Verus; `app/` is the terminal front end around it.

- `src/text.rs`: UTF-8 widths, whitespace splitting, substring search,
  decimal rendering.
- `src/search.rs`: the search field, whose cursor is a byte offset that
  every edit keeps on a character boundary.
- `src/rows.rs`: process snapshots, the search filter and the stable
  descending sort of the table.
- `src/state.rs`: the browser state, navigation, selection and the timing of
  double presses and double clicks.
- `src/layout.rs`: the screen split, hit tests, mouse-to-row mapping.
- `src/view.rs`: header and details text, row highlighting, cursor placement.
- `src/input.rs`: key and mouse handling, from state and event to the next
  state and the action the front end carries out.

The front end reads processes with `sysinfo`, draws with `ratatui` and
reads events with `crossterm`.
