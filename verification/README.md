# herdr

What a terminal workspace manager tells its user about the agents running in its panes, verified
with Verus.

- `src/clock.rs`: instants and durations, and the clock that reads them.
- `src/terminal.rs`, `src/pane.rs`: what is known of a terminal, and of the pane that shows it.
- `src/workspace.rs`: the panes listed for a workspace, and the one status that stands for it.
- `src/status.rs`: how an idle pane ages, and the symbol, word and colour of a status.
- `src/keys.rs`: chords, and the one that closes a pane once nothing is running in it.
- `src/geometry.rs`, `src/overlay.rs`: where the small overlays go, and how they are drawn.
- `src/screen.rs`: the cell buffer that is drawn into.
- `src/text.rs`: lines, blanks and byte lengths of text.
- `app/`: the configuration file, key events and layout areas, converted for the library.

Public functions whose names begin with `law_` state what holds across calls.

Nothing is assumed of the library's own code. Taken on trust are the calls into the standard
library's clock (`src/clock.rs`) and into ratatui: `Rect::new` (`src/geometry.rs`), `Buffer::cell`,
`Span::styled_graphemes`, `Span::width`, and the widgets `Clear`, `Block` and `Paragraph`
(`src/screen.rs`). What is claimed of each stands above it.
