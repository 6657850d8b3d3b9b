//! Arranging containers on the screen: rectangles, separating lines and box drawing.
pub mod boxdrawing;
pub mod canvas;
pub mod rect;
pub mod split;

pub use self::boxdrawing::{LineCell, LineSegment, LineType};
pub use self::rect::{best_adjacent, HorizontalLine, Line, MovementDirection, Rectangle, VerticalLine};
pub use self::split::{container_hints, split_positions};
