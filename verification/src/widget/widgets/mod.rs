//! Simple widgets.
pub mod linelabel;

pub use self::linelabel::LineLabel;
