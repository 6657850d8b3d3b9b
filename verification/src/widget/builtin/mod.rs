//! The builtin widgets.
pub mod lineedit;
pub mod logviewer;
pub mod promptline;
pub mod rope_text;
pub mod table;
pub mod textedit;

pub use self::lineedit::{LineEdit, LineEditLayout, LineEditWidget};
pub use self::logviewer::LogViewer;
pub use self::promptline::PromptLine;
pub use self::textedit::{Direction, TextBound, TextEdit, TextEditLayout, TextEditWidget, TextElement, TextTarget};
pub use self::table::{table_row_begin, TableCursor};
