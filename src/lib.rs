//! Box-drawn text layout for the terminal: tables, grids, panels and chart canvases, each
//! rendered to a string whose exact shape the functions' contracts state.
pub mod alignment;
pub mod border;
pub mod chart;
pub mod column;
pub mod grid;
pub mod panel;
pub mod prelude;
pub mod table;
pub mod text;
pub mod wrap;

pub use alignment::Alignment;
pub use border::{BorderChars, BorderStyle};
pub use chart::ChartType;
pub use column::Column;
pub use grid::{Grid, GridBuilder};
pub use panel::Panel;
pub use table::{Table, TableBuilder};
