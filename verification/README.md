# peruse_tui

The logic of the screen of Peruse, a terminal viewer of data files, as a
library whose contracts Verus proves.

## Layout

- `src/` is the verified library. Each module holds the state and the rules of
  one part of the screen:
  - `chars`, `text`: characters, widths on the screen (through
    `unicode-width`), cutting and fitting texts, wrapping, a search that ignores
    case.
  - `keys`, `input`: the keys and the mouse events as plain values, and the
    editor of one line with its history.
  - `commands`: the table of commands and keys, the lookup of a key, and the
    fuzzy match of the palette.
  - `app`: the small types of the application (modes, panels, the detail band,
    the settings), the places on the screen that a click can hit, the wheel and
    the double click, and the completion of names.
  - `cursor`: the moves of the cursor of the grid, the window that follows
    it, and the nearest known match of a search.
  - `builder`: the filter builder, which makes a condition from the menus of
    the columns and the operators, or takes one typed as an expression.
  - `prompt`: the prompt of a filter, a statement, a search or a row number,
    and what Enter and Esc do with its line.
  - `view`: the sort of a column, the widths, the hidden columns and the row
    that goes to the clipboard.
  - `command`: the step of a command of the table on the grid: moves,
    panels, band, widths, hidden columns, and what the program does besides.
  - `reply`: the answers of the engine, which of them still concern the view,
    and what each one changes on the grid.
  - `undo`: the history of the views behind `u` and `U`.
  - `search`: the scan of the view in growing parts, the list of the known
    matches, and what the cursor and the keys `n` and `N` do with them.
  - `grid`: which columns of the grid fit on the screen, the rows of the detail
    band, the gutter of row numbers, and the texts of the band.
  - `overlays`: the boxes of the overlays, the window of a list, the palette and
    the lines of the help.
  - `tree`: a row of JSON, read through `serde_json`, as a tree that opens
    and closes, and the lines that it shows.
  - `panels`: the decisions of the statistics panel: the note of a column
    whose values each occur once, the width of the names beside the bars, and
    the line of the lowest and the highest value.
  - `browser`: the chooser of files and of tables; it reads nothing itself and
    asks the program to read a directory.
  - `record`, `pickers`, `settings`: the record view of one row, the command
    palette and the theme picker, and the settings page with the reading of
    each value. Each key gives the new state and an action for the program.
  - `sqlhl`, `clip`, `colors`, `paint`, `cli`: the parts of a SQL statement, the
    clipboard sequence OSC 52 with its base64 text, the colors of the terminal,
    and the delimiter of the command line.
- `tests/` runs the library on concrete values.
- `app/` is the Rust around the library: the events of `crossterm`, the styles
  of `ratatui`, the options of `clap`, the clipboard on the standard output,
  and the file system of the chooser.

Each public function states its result in `ensures`; the laws that relate
several functions stand as public proof functions beside them.
