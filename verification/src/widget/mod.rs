//! Widget related types: space demands, rendering hints and the builtin widgets.
pub mod builtin;
pub mod linestorage;
pub mod text;
pub mod widget;
pub mod widgets;

pub use self::linestorage::{LineStorage, MemoryLineStorage, StringLineStorage};
pub use self::text::{count_grapheme_clusters, spec_graphemes, spec_str_width};
pub use self::widget::{
    centered_range, checked_text_width, demand_linear, demand_side_by_side, demand_stacked, text_width, Blink, ColDemand, Demand, Demand2D, RenderingHints, RowDemand,
};
pub use self::widgets::LineLabel;
