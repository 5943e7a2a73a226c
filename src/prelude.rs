//! The types most callers need.
pub use crate::alignment::Alignment;
pub use crate::border::BorderStyle;
pub use crate::chart::ChartType;
pub use crate::column::Column;
pub use crate::grid::Grid;
pub use crate::panel::Panel;
pub use crate::table::Table;
