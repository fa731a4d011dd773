# tabline

Verified building blocks of a terminal multiplexer's user interface:

- `src/cursor.rs` — editing a one-line text field by a visual cursor
  measured in terminal cells (insert, backspace, delete word, moves).
- `src/tab_display.rs` — parsing tab label layouts such as
  `"{index}: {name}"` and rendering a tab's label.
- `src/copy_mode.rs` — the decisions of copy mode: entering and leaving it,
  cursor motions, paging through scrollback, selections, find-character
  columns and the key table.
- `src/copy_motion.rs` — the copy-mode commands that read the rows under
  the cursor (find, word, first-non-blank and paragraph motions), the
  selection commands, key characters and selection syncing.
- `src/chars.rs` — the character facts taken from `unicode-width` and std.

Every function carries a Verus contract; the laws (round trips and
invariants) are proof functions beside the code they speak of. `app/` holds
the glue to crossterm key events and the `Display`/`Error` impls of the
layout error.
