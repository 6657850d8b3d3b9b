# unsegen

A library for building text user interfaces on top of a terminal grid, with its core
verified by Verus.

- `src/` is the verified library:
  - `base`: grid coordinates and extents, styles and style modifiers, grapheme clusters,
    windows over cell matrices (`Window`, `WindowBuffer`, `ExtentEstimationWindow`), the
    `Cursor` that writes text into them (wrapping, tabs, wide clusters, clearing), and the
    `FakeTerminal` of the tests, built from a textual description and rendered back into one;
  - `container`: rectangles, box-drawing line cells, the separator lines between containers
    (drawn into a map from positions to cells),
    the placement of the parts of a split along an axis, and the hints each container gets;
  - `input`: the editing, scrolling and navigation traits and the choice of operation for an
    input;
  - `signals`: the signals that key combinations raise, with their numbers and default keys;
  - `widget`: space demands, rendering hints and the builtin widgets (`LineEdit`, `TextEdit`,
    `LogViewer`, `PromptLine`, `LineLabel`) with their layouts and drawing, and the integer
    logic of the table widget: the active cell and its navigation (`TableCursor`) and the row
    of the window in which the active row is drawn (`table_row_begin`).

  The contracts state what each function computes over mathematical models (sequences of chars,
  cell functions of a target); the laws of the library stand as public proof functions.
- `app/` holds what the verifier does not see: terminal I/O, the input reader, signal handling,
  the `Widget` trait with its floating point layouts, the container manager, and the `Table`
  widget's rows, its calls into the user's cell widgets, its column widths (floating point) and
  the splitting of its window.
- `tests/` exercises the library on concrete values.
