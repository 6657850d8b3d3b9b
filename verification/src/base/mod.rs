//! Basic building blocks: numeric grid types and styles.
pub mod basic_types;

pub use self::basic_types::{
    AxisDiff, AxisDimension, AxisIndex, ColDiff, ColDimension, ColIndex, Height, IndexRange,
    LineIndex, LineNumber, PositiveAxisDiff, RowDiff, RowDimension, RowIndex, Width,
};
pub mod style;

pub use self::style::{BoolModifyMode, Color, Style, StyleModifier, TextFormat, TextFormatModifier};
pub mod grapheme_cluster;

pub use self::grapheme_cluster::{GraphemeCluster, GraphemeClusterError};
pub mod window;

pub use self::window::{
    style_runs, subwindow_range, split_position_valid, CursorTarget, ExtentEstimationWindow,
    StyledGraphemeCluster, WindowBound, WindowBuffer,
};
pub mod view;

pub use self::view::{CellMatrixView, Window};
pub mod cursor;

pub use self::cursor::{Cursor, CursorState, WrappingMode, UNBOUNDED_HEIGHT, UNBOUNDED_WIDTH};
pub mod terminal;

pub use self::terminal::{description_cells, CellMatrix, FakeTerminal};
